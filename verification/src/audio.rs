//! Recording: the protocol between the recorder handle and the audio thread,
//! the audio thread's decisions, and the sample arithmetic done on captured
//! buffers. Opening the input device and moving buffers between threads is
//! done by the caller.
use vstd::prelude::*;

use std::sync::mpsc::{Receiver, Sender};

use crate::text::owned;

verus! {

/// Mono 16-bit samples and the rate they were captured at.
pub struct RecordedAudio {
    pub samples: Vec<i16>,
    pub sample_rate: u32,
}

/// A request to the audio thread.
pub enum Cmd {
    Start,
    Stop,
}

/// The audio thread's answer to a request.
pub enum Reply {
    Started,
    Stopped(RecordedAudio),
    Error(String),
}

/// Why a start or stop request failed.
pub enum RecorderError {
    /// The request could not be sent: the audio thread has exited.
    ThreadGone,
    /// No answer came back: the audio thread has exited.
    ThreadClosed,
    /// The audio thread answered with a reply that does not fit the request.
    UnexpectedReply,
    /// The audio thread reported a failure.
    Audio(String),
}

// ---------------------------------------------------------------------------
// Sample arithmetic
// ---------------------------------------------------------------------------

/// Sum of the samples of a frame.
pub open spec fn frame_sum(f: Seq<i16>) -> int
    decreases f.len(),
{
    if f.len() == 0 {
        0
    } else {
        frame_sum(f.drop_last()) + f.last()
    }
}

/// Integer division rounding toward zero, as `i32` division does.
pub open spec fn div_toward_zero(a: int, b: int) -> int {
    if a >= 0 {
        a / b
    } else {
        -((-a) / b)
    }
}

/// One sample per complete frame of `ch` interleaved channels: the frame's
/// sum divided by `ch`, rounded toward zero. A trailing partial frame is
/// dropped.
pub open spec fn mono_frames(s: Seq<i16>, ch: nat) -> Seq<i16>
    decreases s.len(),
{
    if ch == 0 || s.len() < ch {
        Seq::empty()
    } else {
        seq![div_toward_zero(frame_sum(s.take(ch as int)), ch as int) as i16] + mono_frames(
            s.skip(ch as int),
            ch,
        )
    }
}

/// The mono signal for interleaved samples with `channels` channels; one
/// channel (or a reported zero) is taken as already mono.
pub open spec fn downmixed(s: Seq<i16>, channels: u16) -> Seq<i16> {
    if channels <= 1 {
        s
    } else {
        mono_frames(s, channels as nat)
    }
}

proof fn lemma_frame_sum_bounds(f: Seq<i16>)
    ensures
        -32768 * f.len() <= frame_sum(f) <= 32767 * f.len(),
    decreases f.len(),
{
    if f.len() > 0 {
        lemma_frame_sum_bounds(f.drop_last());
    }
}

proof fn lemma_div_toward_zero_bounds(a: int, b: int)
    requires
        b > 0,
        -32768 * b <= a <= 32767 * b,
    ensures
        -32768 <= div_toward_zero(a, b) <= 32767,
{
    if a >= 0 {
        assert(a / b <= 32767) by (nonlinear_arith)
            requires
                b > 0,
                0 <= a <= 32767 * b,
        ;
        assert(a / b >= 0) by (nonlinear_arith)
            requires
                b > 0,
                0 <= a,
        ;
    } else {
        assert((-a) / b <= 32768) by (nonlinear_arith)
            requires
                b > 0,
                0 < -a <= 32768 * b,
        ;
        assert((-a) / b >= 0) by (nonlinear_arith)
            requires
                b > 0,
                0 < -a,
        ;
    }
}

/// The number of mono samples is the number of complete frames.
pub proof fn law_downmix_length(s: Seq<i16>, ch: nat)
    requires
        ch > 0,
    ensures
        mono_frames(s, ch).len() == (s.len() as int) / (ch as int),
    decreases s.len(),
{
    if s.len() >= ch {
        law_downmix_length(s.skip(ch as int), ch);
        assert(((s.len() - ch) as int) / (ch as int) + 1 == (s.len() as int) / (ch as int)) by (nonlinear_arith)
            requires
                ch > 0,
                s.len() >= ch,
        ;
    } else {
        assert((s.len() as int) / (ch as int) == 0) by (nonlinear_arith)
            requires
                ch > 0,
                0 <= s.len() < ch,
        ;
    }
}

/// Averages interleaved frames down to one channel.
pub fn downmix_to_mono(interleaved: &[i16], channels: u16) -> (out: Vec<i16>)
    ensures
        out@ == downmixed(interleaved@, channels),
{
    if channels <= 1 {
        let mut copy: Vec<i16> = Vec::new();
        let mut i: usize = 0;
        while i < interleaved.len()
            invariant
                i <= interleaved.len(),
                copy@ == interleaved@.take(i as int),
            decreases interleaved.len() - i,
        {
            copy.push(interleaved[i]);
            i += 1;
            assert(copy@ =~= interleaved@.take(i as int));
        }
        assert(interleaved@.take(interleaved@.len() as int) =~= interleaved@);
        return copy;
    }
    let ch: usize = channels as usize;
    let ghost s = interleaved@;
    let mut out: Vec<i16> = Vec::new();
    let mut pos: usize = 0;
    assert(s.skip(0) =~= s);
    while ch <= interleaved.len() - pos
        invariant
            pos <= interleaved.len(),
            s == interleaved@,
            ch == channels,
            2 <= ch <= 65535,
            out@ + mono_frames(s.skip(pos as int), ch as nat) == mono_frames(s, ch as nat),
        decreases interleaved.len() - pos,
    {
        let ghost frame = s.subrange(pos as int, pos + ch);
        let mut sum: i32 = 0;
        let mut j: usize = 0;
        while j < ch
            invariant
                j <= ch,
                ch <= 65535,
                pos + ch <= interleaved.len(),
                s == interleaved@,
                frame == s.subrange(pos as int, pos + ch),
                sum == frame_sum(frame.take(j as int)),
                -32768 * j <= sum <= 32767 * j,
            decreases ch - j,
        {
            assert(frame.take(j + 1).drop_last() =~= frame.take(j as int));
            sum = sum + interleaved[pos + j] as i32;
            j += 1;
        }
        assert(frame.take(ch as int) =~= frame);
        proof {
            lemma_frame_sum_bounds(frame);
            lemma_div_toward_zero_bounds(sum as int, ch as int);
        }
        let avg: i32 = sum / (ch as i32);
        let ghost rest = s.skip(pos as int);
        assert(rest.take(ch as int) =~= frame);
        assert(rest.skip(ch as int) =~= s.skip(pos + ch));
        let ghost before = out@;
        out.push(avg as i16);
        assert(out@ + mono_frames(s.skip(pos + ch), ch as nat) =~= before + mono_frames(
            rest,
            ch as nat,
        ));
        pos = pos + ch;
    }
    assert(out@ + mono_frames(s.skip(pos as int), ch as nat) =~= out@);
    out
}

/// All chunks, first chunk first.
pub open spec fn joined(chunks: Seq<Vec<i16>>) -> Seq<i16>
    decreases chunks.len(),
{
    if chunks.len() == 0 {
        Seq::empty()
    } else {
        joined(chunks.drop_last()) + chunks.last()@
    }
}

/// Concatenates the buffers the capture callback delivered.
pub fn join_chunks(chunks: Vec<Vec<i16>>) -> (out: Vec<i16>)
    ensures
        out@ == joined(chunks@),
{
    let mut chunks = chunks;
    let ghost all = chunks@;
    let mut out: Vec<i16> = Vec::new();
    let mut i: usize = 0;
    assert(all.take(0) =~= Seq::<Vec<i16>>::empty());
    while i < chunks.len()
        invariant
            i <= chunks.len(),
            chunks@ == all,
            out@ == joined(all.take(i as int)),
        decreases chunks.len() - i,
    {
        let mut k: usize = 0;
        let ghost before = out@;
        while k < chunks[i].len()
            invariant
                i < chunks.len(),
                chunks@ == all,
                k <= chunks@[i as int]@.len(),
                out@ == before + chunks@[i as int]@.take(k as int),
            decreases chunks@[i as int]@.len() - k,
        {
            out.push(chunks[i][k]);
            k += 1;
            assert(out@ =~= before + chunks@[i as int]@.take(k as int));
        }
        assert(chunks@[i as int]@.take(k as int) =~= chunks@[i as int]@);
        assert(all.take(i + 1).drop_last() =~= all.take(i as int));
        i += 1;
    }
    assert(all.take(all.len() as int) =~= all);
    out
}

/// The signed sample for an unsigned 16-bit sample (offset binary).
pub open spec fn unsigned_to_signed(s: u16) -> i16 {
    (s - 32768) as i16
}

/// Converts unsigned 16-bit samples to signed ones by removing the offset.
pub fn u16_samples_to_i16(data: &[u16]) -> (out: Vec<i16>)
    ensures
        out@.len() == data@.len(),
        forall|i: int| 0 <= i < data@.len() ==> out@[i] == unsigned_to_signed(#[trigger] data@[i]),
{
    let mut out: Vec<i16> = Vec::new();
    let mut i: usize = 0;
    while i < data.len()
        invariant
            i <= data.len(),
            out@.len() == i,
            forall|k: int| 0 <= k < i ==> out@[k] == unsigned_to_signed(#[trigger] data@[k]),
        decreases data.len() - i,
    {
        let v: i32 = data[i] as i32 - 32768;
        out.push(v as i16);
        i += 1;
    }
    out
}

// ---------------------------------------------------------------------------
// WAV encoding
// ---------------------------------------------------------------------------

/// The two bytes of a 16-bit value, least significant first; a negative
/// value is taken in two's complement.
pub open spec fn le16(v: int) -> Seq<u8> {
    seq![(v % 256) as u8, ((v / 256) % 256) as u8]
}

/// The four bytes of a 32-bit value, least significant first.
pub open spec fn le32(v: int) -> Seq<u8> {
    seq![(v % 256) as u8, ((v / 256) % 256) as u8, ((v / 65536) % 256) as u8, ((v / 16777216) % 256) as u8]
}

/// The 44-byte header of a mono 16-bit PCM WAV file holding `n` samples at
/// `rate` samples per second: the RIFF chunk with its size, the `fmt `
/// chunk (PCM, one channel, the rate, the byte rate, a block of two bytes,
/// sixteen bits), and the head of the `data` chunk with its size.
pub open spec fn wav_header(n: nat, rate: u32) -> Seq<u8> {
    seq![82u8, 73u8, 70u8, 70u8] + le32(36 + 2 * (n as int)) + seq![87u8, 65u8, 86u8, 69u8]
        + seq![102u8, 109u8, 116u8, 32u8] + le32(16) + le16(1) + le16(1) + le32(rate as int)
        + le32(2 * rate) + le16(2) + le16(16) + seq![100u8, 97u8, 116u8, 97u8] + le32(2 * (n as int))
}

/// The samples as consecutive little-endian 16-bit words.
pub open spec fn pcm16(samples: Seq<i16>) -> Seq<u8> {
    Seq::new(2 * samples.len(), |j: int| le16(samples[j / 2] as int)[j % 2])
}

/// The bytes of a mono 16-bit PCM WAV file holding `samples` at `rate`.
pub open spec fn wav_file(samples: Seq<i16>, rate: u32) -> Seq<u8> {
    wav_header(samples.len(), rate) + pcm16(samples)
}

/// Whether `hound` can encode a recording: the rate is not zero (it divides
/// by it for the block size), and the byte rate and the file size fit in 32
/// bits.
pub open spec fn wav_encodable(n: nat, rate: u32) -> bool {
    &&& 0 < rate
    &&& 2 * rate <= u32::MAX
    &&& 36 + 2 * n <= u32::MAX
}

/// `hound::WavWriter` over an in-memory cursor, with the spec mono, 16-bit
/// integer samples at `sample_rate`: `WavWriter::new` writes the 44-byte PCM
/// header, each `write_sample` appends a sample as two little-endian bytes,
/// and `finalize` fills in the RIFF and data sizes. Writing to a `Vec`
/// cannot fail, so the bytes always come back.
#[verifier::external_body]
fn hound_wav(samples: &[i16], sample_rate: u32) -> (r: Option<Vec<u8>>)
    requires
        wav_encodable(samples@.len(), sample_rate),
    ensures
        r is Some,
        r.unwrap()@ == wav_file(samples@, sample_rate),
{
    let spec = hound::WavSpec { channels: 1, sample_rate, bits_per_sample: 16, sample_format: hound::SampleFormat::Int };
    let mut buf: Vec<u8> = Vec::new();
    let mut writer = hound::WavWriter::new(std::io::Cursor::new(&mut buf), spec).ok()?;
    for &s in samples {
        writer.write_sample(s).ok()?;
    }
    writer.finalize().ok()?;
    Some(buf)
}

/// Encodes a recording as a mono 16-bit WAV file in memory.
pub fn write_wav(audio: &RecordedAudio) -> (r: Option<Vec<u8>>)
    requires
        wav_encodable(audio.samples@.len(), audio.sample_rate),
    ensures
        r matches Some(b) && b@ == wav_file(audio.samples@, audio.sample_rate),
{
    hound_wav(audio.samples.as_slice(), audio.sample_rate)
}

// ---------------------------------------------------------------------------
// The audio thread
// ---------------------------------------------------------------------------

/// Rate and channel count of the open input stream.
#[derive(Clone, Copy)]
pub struct StreamFormat {
    pub sample_rate: u32,
    pub channels: u16,
}

/// What the audio thread does next.
pub enum ThreadStep {
    /// Answer the recorder handle.
    Send(Reply),
    /// Open the default input device and start capturing.
    OpenStream,
    /// Stop the stream, drain its buffers, and pass them to `on_stream_closed`.
    CloseStream(StreamFormat),
}

/// The audio thread's state: the format of the stream it is capturing from,
/// if any.
pub struct AudioThread {
    active: Option<StreamFormat>,
}

/// The message sent when a stream is opened while one is already open.
pub open spec fn already_recording() -> Seq<char> {
    "already recording"@
}

/// The message sent when a stop comes while nothing is being captured.
pub open spec fn not_recording() -> Seq<char> {
    "not recording"@
}

/// An answer of the audio thread, by its content.
pub enum ReplyView {
    Started,
    Stopped { sample_rate: u32, samples: Seq<i16> },
    Error(Seq<char>),
}

/// The content of an answer.
pub open spec fn reply_view(r: Reply) -> ReplyView {
    match r {
        Reply::Started => ReplyView::Started,
        Reply::Stopped(a) => ReplyView::Stopped { sample_rate: a.sample_rate, samples: a.samples@ },
        Reply::Error(e) => ReplyView::Error(e@),
    }
}

/// The outcome of opening the input stream, by its content.
pub open spec fn opened_view(o: Result<StreamFormat, String>) -> Result<StreamFormat, Seq<char>> {
    match o {
        Ok(f) => Ok(f),
        Err(e) => Err(e@),
    }
}

/// How the audio thread, capturing from `active` (if anything), handles one
/// request: its next state and the one answer it sends. `opened` is what
/// opening the input stream gives, consulted only for a start while idle;
/// `chunks` are the buffers drained from the stream, consulted only for a
/// stop while capturing.
pub open spec fn thread_step(
    active: Option<StreamFormat>,
    cmd: Cmd,
    opened: Result<StreamFormat, Seq<char>>,
    chunks: Seq<Vec<i16>>,
) -> (Option<StreamFormat>, ReplyView) {
    match cmd {
        Cmd::Start => match active {
            Some(_) => (active, ReplyView::Error(already_recording())),
            None => match opened {
                Ok(f) => (Some(f), ReplyView::Started),
                Err(e) => (None, ReplyView::Error(e)),
            },
        },
        Cmd::Stop => match active {
            Some(f) => (
                None,
                ReplyView::Stopped { sample_rate: f.sample_rate, samples: downmixed(joined(chunks), f.channels) },
            ),
            None => (None, ReplyView::Error(not_recording())),
        },
    }
}

/// The state after a sequence of requests and the answers sent, one per
/// request and in order; `opens[i]` and `drains[i]` are what the outside
/// world gave while request `i` was handled.
pub open spec fn thread_run(
    active: Option<StreamFormat>,
    cmds: Seq<Cmd>,
    opens: Seq<Result<StreamFormat, Seq<char>>>,
    drains: Seq<Seq<Vec<i16>>>,
) -> (Option<StreamFormat>, Seq<ReplyView>)
    decreases cmds.len(),
{
    if cmds.len() == 0 {
        (active, Seq::empty())
    } else {
        let n = cmds.len() - 1;
        let before = thread_run(active, cmds.take(n), opens, drains);
        let after = thread_step(before.0, cmds[n], opens[n], drains[n]);
        (after.0, before.1.push(after.1))
    }
}

/// The audio thread answers every request exactly once, in the order the
/// requests came: a start with `Started` or an error, a stop with the
/// recording or an error. A start is answered `Started` only when the
/// thread was idle and the stream opened, and then it is capturing from
/// that stream.
pub proof fn law_one_reply_per_request(
    active: Option<StreamFormat>,
    cmds: Seq<Cmd>,
    opens: Seq<Result<StreamFormat, Seq<char>>>,
    drains: Seq<Seq<Vec<i16>>>,
)
    ensures
        thread_run(active, cmds, opens, drains).1.len() == cmds.len(),
        forall|i: int| 0 <= i < cmds.len() ==> {
            let r = #[trigger] thread_run(active, cmds, opens, drains).1[i];
            &&& r == thread_step(thread_run(active, cmds.take(i), opens, drains).0, cmds[i], opens[i], drains[i]).1
            &&& (cmds[i] is Start ==> r is Started || r is Error)
            &&& (cmds[i] is Stop ==> r is Stopped || r is Error)
        },
    decreases cmds.len(),
{
    if cmds.len() > 0 {
        let n = cmds.len() - 1;
        let pre = cmds.take(n);
        law_one_reply_per_request(active, pre, opens, drains);
        assert forall|i: int| 0 <= i < cmds.len() implies {
            let r = #[trigger] thread_run(active, cmds, opens, drains).1[i];
            &&& r == thread_step(thread_run(active, cmds.take(i), opens, drains).0, cmds[i], opens[i], drains[i]).1
            &&& (cmds[i] is Start ==> r is Started || r is Error)
            &&& (cmds[i] is Stop ==> r is Stopped || r is Error)
        } by {
            if i < n {
                assert(pre.take(i) =~= cmds.take(i));
                assert(pre[i] == cmds[i]);
                assert(thread_run(active, cmds, opens, drains).1[i] == thread_run(active, pre, opens, drains).1[i]);
            } else {
                assert(cmds.take(i) =~= pre);
            }
        }
    }
}

/// A start while a recording is in progress is refused with "already
/// recording" and keeps the recording going from the same stream, whatever
/// opening a stream would give; the handle reports the refusal and still
/// counts as recording.
pub proof fn law_second_start_keeps_recording(
    f: StreamFormat,
    opened: Result<StreamFormat, Seq<char>>,
    chunks: Seq<Vec<i16>>,
    e: String,
)
    requires
        e@ == already_recording(),
    ensures
        thread_step(Some(f), Cmd::Start, opened, chunks) == (Some(f), ReplyView::Error(already_recording())),
        reply_view(Reply::Error(e)) == ReplyView::Error(already_recording()),
        start_result(Some(Reply::Error(e))) == Err::<(), RecorderError>(RecorderError::Audio(e)),
        flag_after_start(true, start_result(Some(Reply::Error(e))) is Ok),
{
}

impl AudioThread {
    /// The format of the stream being captured from, if any.
    pub closed spec fn capturing(&self) -> Option<StreamFormat> {
        self.active
    }

    /// A thread that is not capturing.
    pub fn new() -> (t: AudioThread)
        ensures
            t.capturing() is None,
    {
        AudioThread { active: None }
    }

    /// Whether a stream is open.
    pub fn is_recording(&self) -> (r: bool)
        ensures
            r == (self.capturing() is Some),
    {
        self.active.is_some()
    }

    /// Decides what a request leads to. A start while capturing and a stop
    /// while idle are refused; a stop ends the capture.
    pub fn on_command(&mut self, cmd: Cmd) -> (step: ThreadStep)
        ensures
            match cmd {
                Cmd::Start => match old(self).capturing() {
                    Some(_) => final(self).capturing() == old(self).capturing() && (step matches ThreadStep::Send(Reply::Error(m)) && m@ == already_recording()),
                    None => final(self).capturing() is None && step is OpenStream,
                },
                Cmd::Stop => match old(self).capturing() {
                    Some(f) => final(self).capturing() is None && (step matches ThreadStep::CloseStream(g) && g == f),
                    None => final(self).capturing() is None && (step matches ThreadStep::Send(Reply::Error(m)) && m@ == not_recording()),
                },
            },
            step matches ThreadStep::Send(r) ==> forall|o: Result<StreamFormat, Seq<char>>, c: Seq<Vec<i16>>|
                #[trigger] thread_step(old(self).capturing(), cmd, o, c) == (final(self).capturing(), reply_view(r)),
    {
        match cmd {
            Cmd::Start => {
                if self.active.is_some() {
                    ThreadStep::Send(Reply::Error(owned("already recording")))
                } else {
                    ThreadStep::OpenStream
                }
            },
            Cmd::Stop => {
                match self.active.take() {
                    Some(f) => ThreadStep::CloseStream(f),
                    None => ThreadStep::Send(Reply::Error(owned("not recording"))),
                }
            },
        }
    }

    /// Records the outcome of opening the stream and answers the handle.
    pub fn on_stream_opened(&mut self, opened: Result<StreamFormat, String>) -> (reply: Reply)
        ensures
            match opened {
                Ok(f) => final(self).capturing() == Some(f) && reply is Started,
                Err(e) => final(self).capturing() == old(self).capturing() && (reply matches Reply::Error(m) && m == e),
            },
            old(self).capturing() is None ==> forall|c: Seq<Vec<i16>>|
                #[trigger] thread_step(None, Cmd::Start, opened_view(opened), c) == (final(self).capturing(), reply_view(reply)),
    {
        match opened {
            Ok(f) => {
                self.active = Some(f);
                Reply::Started
            },
            Err(e) => Reply::Error(e),
        }
    }

    /// Turns the drained buffers of a closed stream into the recording.
    pub fn on_stream_closed(format: StreamFormat, chunks: Vec<Vec<i16>>) -> (reply: Reply)
        ensures
            reply matches Reply::Stopped(a) && a.sample_rate == format.sample_rate
                && a.samples@ == downmixed(joined(chunks@), format.channels),
            forall|o: Result<StreamFormat, Seq<char>>|
                #[trigger] thread_step(Some(format), Cmd::Stop, o, chunks@) == (None::<StreamFormat>, reply_view(reply)),
    {
        let interleaved = join_chunks(chunks);
        let mono = downmix_to_mono(interleaved.as_slice(), format.channels);
        Reply::Stopped(RecordedAudio { samples: mono, sample_rate: format.sample_rate })
    }
}

// ---------------------------------------------------------------------------
// The recorder handle
// ---------------------------------------------------------------------------

/// `std::sync::mpsc::Sender`, carried opaquely.
#[verifier::external_type_specification]
#[verifier::external_body]
#[verifier::reject_recursive_types(T)]
pub struct ExSender<T>(Sender<T>);

/// `std::sync::mpsc::Receiver`, carried opaquely.
#[verifier::external_type_specification]
#[verifier::external_body]
#[verifier::reject_recursive_types(T)]
pub struct ExReceiver<T>(Receiver<T>);

/// `Sender::send`; true when the request was handed over. Whether the
/// receiving thread is still alive is not known beforehand, so nothing is
/// promised about the outcome.
#[verifier::external_body]
fn send_command(tx: &Sender<Cmd>, cmd: Cmd) -> (sent: bool) {
    tx.send(cmd).is_ok()
}

/// `Receiver::recv`; `None` when the sending side has gone. What arrives
/// depends on the other thread, so nothing is promised about it.
#[verifier::external_body]
fn receive_reply(rx: &Receiver<Reply>) -> (reply: Option<Reply>) {
    rx.recv().ok()
}

/// What a start request ends in, given the answer that came back.
pub open spec fn start_result(reply: Option<Reply>) -> Result<(), RecorderError> {
    match reply {
        Some(Reply::Started) => Ok(()),
        Some(Reply::Error(e)) => Err(RecorderError::Audio(e)),
        Some(Reply::Stopped(_)) => Err(RecorderError::UnexpectedReply),
        None => Err(RecorderError::ThreadClosed),
    }
}

/// What a stop request ends in, given the answer that came back.
pub open spec fn stop_result(reply: Option<Reply>) -> Result<RecordedAudio, RecorderError> {
    match reply {
        Some(Reply::Stopped(a)) => Ok(a),
        Some(Reply::Error(e)) => Err(RecorderError::Audio(e)),
        Some(Reply::Started) => Err(RecorderError::UnexpectedReply),
        None => Err(RecorderError::ThreadClosed),
    }
}

/// Interprets the answer to a start request.
pub fn start_outcome(reply: Option<Reply>) -> (r: Result<(), RecorderError>)
    ensures
        r == start_result(reply),
{
    match reply {
        Some(Reply::Started) => Ok(()),
        Some(Reply::Error(e)) => Err(RecorderError::Audio(e)),
        Some(Reply::Stopped(_)) => Err(RecorderError::UnexpectedReply),
        None => Err(RecorderError::ThreadClosed),
    }
}

/// Interprets the answer to a stop request.
pub fn stop_outcome(reply: Option<Reply>) -> (r: Result<RecordedAudio, RecorderError>)
    ensures
        r == stop_result(reply),
{
    match reply {
        Some(Reply::Stopped(a)) => Ok(a),
        Some(Reply::Error(e)) => Err(RecorderError::Audio(e)),
        Some(Reply::Started) => Err(RecorderError::UnexpectedReply),
        None => Err(RecorderError::ThreadClosed),
    }
}

/// The recording flag after a start request that did (`ok`) or did not
/// succeed: set by a success, left as it was by a failure.
pub open spec fn flag_after_start(flag: bool, ok: bool) -> bool {
    flag || ok
}

/// The recording flag after a stop request, where `gone` says the request
/// could not be handed over: cleared once the request went out, whatever
/// the answer, and left as it was otherwise.
pub open spec fn flag_after_stop(flag: bool, gone: bool) -> bool {
    flag && gone
}

/// The handle through which the rest of the program talks to the audio
/// thread.
pub struct Recorder {
    cmd_tx: Sender<Cmd>,
    reply_rx: Receiver<Reply>,
    running: bool,
    log: Ghost<Seq<Cmd>>,
}

impl Recorder {
    /// Whether the handle believes a recording is in progress.
    pub closed spec fn recording(&self) -> bool {
        self.running
    }

    /// The channel requests are sent on.
    pub closed spec fn commands(&self) -> Sender<Cmd> {
        self.cmd_tx
    }

    /// The channel answers arrive on.
    pub closed spec fn replies(&self) -> Receiver<Reply> {
        self.reply_rx
    }

    /// Every request this handle has put on the request channel, oldest
    /// first.
    pub closed spec fn sent(&self) -> Seq<Cmd> {
        self.log@
    }

    /// A handle over the two channels of a freshly started audio thread: it
    /// talks over exactly these channels, has sent nothing, and is not
    /// recording.
    pub fn new(cmd_tx: Sender<Cmd>, reply_rx: Receiver<Reply>) -> (r: Recorder)
        ensures
            r.commands() == cmd_tx,
            r.replies() == reply_rx,
            r.sent() == Seq::<Cmd>::empty(),
            !r.recording(),
    {
        Recorder { cmd_tx, reply_rx, running: false, log: Ghost(Seq::empty()) }
    }

    /// Whether a recording is in progress.
    pub fn is_running(&self) -> (r: bool)
        ensures
            r == self.recording(),
    {
        self.running
    }

    /// Puts `cmd` on the request channel and notes it in the log; false when
    /// the audio thread has exited and the channel refused it.
    fn post(&mut self, cmd: Cmd) -> (handed_over: bool)
        ensures
            final(self).sent() == old(self).sent().push(cmd),
            final(self).recording() == old(self).recording(),
            final(self).commands() == old(self).commands(),
            final(self).replies() == old(self).replies(),
    {
        self.log = Ghost(self.log@.push(cmd));
        send_command(&self.cmd_tx, cmd)
    }

    /// Asks the audio thread to start capturing. Succeeds only when the
    /// thread answers `Started`; only then does the handle count as
    /// recording, and a failure leaves the flag as it was.
    pub fn start(&mut self) -> (r: Result<(), RecorderError>)
        ensures
            final(self).sent() == old(self).sent().push(Cmd::Start),
            final(self).recording() == flag_after_start(old(self).recording(), r is Ok),
            final(self).commands() == old(self).commands(),
            final(self).replies() == old(self).replies(),
    {
        if !self.post(Cmd::Start) {
            return Err(RecorderError::ThreadGone);
        }
        let reply = receive_reply(&self.reply_rx);
        let r = start_outcome(reply);
        if r.is_ok() {
            self.running = true;
        }
        r
    }

    /// Asks the audio thread to stop and hand over what it captured. When the
    /// request cannot be handed over (`ThreadGone`) nothing changes;
    /// otherwise, whatever the answer, the handle no longer counts as
    /// recording.
    pub fn stop(&mut self) -> (r: Result<RecordedAudio, RecorderError>)
        ensures
            final(self).sent() == old(self).sent().push(Cmd::Stop),
            final(self).recording() == flag_after_stop(old(self).recording(), r matches Err(RecorderError::ThreadGone)),
            final(self).commands() == old(self).commands(),
            final(self).replies() == old(self).replies(),
    {
        if !self.post(Cmd::Stop) {
            return Err(RecorderError::ThreadGone);
        }
        let reply = receive_reply(&self.reply_rx);
        let r = stop_outcome(reply);
        self.running = false;
        r
    }
}

/// An outcome of a call on the recorder handle, as far as the recording
/// flag is concerned: a start that did or did not succeed, or a stop whose
/// request could not (`true`) or could (`false`) be handed over.
pub enum RecorderCall {
    Start(bool),
    Stop(bool),
}

/// The recording flag after one call.
pub open spec fn flag_after_call(flag: bool, c: RecorderCall) -> bool {
    match c {
        RecorderCall::Start(ok) => flag_after_start(flag, ok),
        RecorderCall::Stop(gone) => flag_after_stop(flag, gone),
    }
}

/// The recording flag after a sequence of calls, oldest first.
pub open spec fn flag_after_calls(flag: bool, calls: Seq<RecorderCall>) -> bool
    decreases calls.len(),
{
    if calls.len() == 0 {
        flag
    } else {
        flag_after_call(flag_after_calls(flag, calls.drop_last()), calls.last())
    }
}

/// Call `i` is a successful start that no stop after it took effect on.
pub open spec fn start_still_in_effect(calls: Seq<RecorderCall>, i: int) -> bool {
    &&& 0 <= i < calls.len()
    &&& calls[i] == RecorderCall::Start(true)
    &&& forall|j: int| i < j < calls.len() ==> calls[j] != RecorderCall::Stop(false)
}

/// A new handle counts as recording after a sequence of calls exactly when
/// some start in it succeeded and no stop request was handed over after it.
pub proof fn law_recording_after_calls(calls: Seq<RecorderCall>)
    ensures
        flag_after_calls(false, calls) == exists|i: int| start_still_in_effect(calls, i),
    decreases calls.len(),
{
    if calls.len() > 0 {
        let pre = calls.drop_last();
        let n = calls.len() - 1;
        law_recording_after_calls(pre);
        match calls.last() {
            RecorderCall::Start(true) => {
                assert(start_still_in_effect(calls, n));
            },
            RecorderCall::Stop(false) => {
                assert forall|i: int| !start_still_in_effect(calls, i) by {
                    if 0 <= i < n {
                        assert(calls[n] == RecorderCall::Stop(false));
                    }
                }
            },
            _ => {
                assert forall|i: int| start_still_in_effect(calls, i) == start_still_in_effect(pre, i) by {
                    if 0 <= i < n {
                        if start_still_in_effect(pre, i) {
                            assert forall|j: int| i < j < calls.len() implies calls[j] != RecorderCall::Stop(false) by {
                                if j < n {
                                    assert(calls[j] == pre[j]);
                                }
                            }
                        }
                        if start_still_in_effect(calls, i) {
                            assert forall|j: int| i < j < pre.len() implies pre[j] != RecorderCall::Stop(false) by {
                                assert(calls[j] == pre[j]);
                            }
                        }
                    }
                }
            },
        }
    }
}

} // verus!
