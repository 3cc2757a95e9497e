use std::sync::mpsc;

use voice_dictation::audio::{
    downmix_to_mono, join_chunks, start_outcome, stop_outcome, u16_samples_to_i16, write_wav, AudioThread,
    Cmd, RecordedAudio, Recorder, RecorderError, Reply, StreamFormat, ThreadStep,
};

#[test]
fn mono_input_is_copied() {
    assert_eq!(downmix_to_mono(&[1, -2, 3], 1), vec![1, -2, 3]);
    assert_eq!(downmix_to_mono(&[1, -2, 3], 0), vec![1, -2, 3]);
}

#[test]
fn stereo_frames_are_averaged() {
    assert_eq!(downmix_to_mono(&[10, 20, -10, -30, 7, 8], 2), vec![15, -20, 7]);
}

#[test]
fn averaging_rounds_toward_zero() {
    assert_eq!(downmix_to_mono(&[1, 2, -1, -2], 2), vec![1, -1]);
    assert_eq!(downmix_to_mono(&[i16::MIN, i16::MIN, i16::MAX, i16::MAX], 2), vec![i16::MIN, i16::MAX]);
}

#[test]
fn trailing_partial_frame_is_dropped() {
    assert_eq!(downmix_to_mono(&[3, 3, 3, 9, 9], 3), vec![3]);
    assert_eq!(downmix_to_mono(&[5, 5], 4), Vec::<i16>::new());
}

#[test]
fn downmix_length_is_frame_count() {
    let samples: Vec<i16> = (0..17).collect();
    assert_eq!(downmix_to_mono(&samples, 4).len(), 17 / 4);
}

#[test]
fn chunks_are_joined_in_order() {
    assert_eq!(join_chunks(vec![vec![1, 2], vec![], vec![3]]), vec![1, 2, 3]);
    assert_eq!(join_chunks(vec![]), Vec::<i16>::new());
}

#[test]
fn unsigned_samples_lose_their_offset() {
    assert_eq!(u16_samples_to_i16(&[0, 32768, 65535]), vec![-32768, 0, 32767]);
}

#[test]
fn thread_refuses_stop_when_idle() {
    let mut t = AudioThread::new();
    match t.on_command(Cmd::Stop) {
        ThreadStep::Send(Reply::Error(m)) => assert_eq!(m, "not recording"),
        _ => panic!("expected an error"),
    }
    assert!(!t.is_recording());
}

#[test]
fn thread_start_stop_cycle() {
    let mut t = AudioThread::new();
    assert!(matches!(t.on_command(Cmd::Start), ThreadStep::OpenStream));
    let fmt = StreamFormat { sample_rate: 48000, channels: 2 };
    assert!(matches!(t.on_stream_opened(Ok(fmt)), Reply::Started));
    assert!(t.is_recording());
    match t.on_command(Cmd::Start) {
        ThreadStep::Send(Reply::Error(m)) => assert_eq!(m, "already recording"),
        _ => panic!("second start must be refused"),
    }
    assert!(t.is_recording());
    let closed = match t.on_command(Cmd::Stop) {
        ThreadStep::CloseStream(f) => f,
        _ => panic!("expected the stream to close"),
    };
    assert!(!t.is_recording());
    match AudioThread::on_stream_closed(closed, vec![vec![2, 4], vec![6, 8, 1]]) {
        Reply::Stopped(a) => {
            assert_eq!(a.sample_rate, 48000);
            assert_eq!(a.samples, vec![3, 7]);
        },
        _ => panic!("expected audio"),
    }
}

#[test]
fn failed_open_keeps_thread_idle() {
    let mut t = AudioThread::new();
    assert!(matches!(t.on_command(Cmd::Start), ThreadStep::OpenStream));
    match t.on_stream_opened(Err("no device".to_string())) {
        Reply::Error(m) => assert_eq!(m, "no device"),
        _ => panic!("expected the error to be passed on"),
    }
    assert!(!t.is_recording());
}

#[test]
fn outcomes_of_replies() {
    assert!(start_outcome(Some(Reply::Started)).is_ok());
    assert!(matches!(start_outcome(None), Err(RecorderError::ThreadClosed)));
    assert!(matches!(
        start_outcome(Some(Reply::Stopped(RecordedAudio { samples: vec![], sample_rate: 1 }))),
        Err(RecorderError::UnexpectedReply)
    ));
    match stop_outcome(Some(Reply::Error("boom".into()))) {
        Err(RecorderError::Audio(m)) => assert_eq!(m, "boom"),
        _ => panic!("expected the audio error"),
    }
    match stop_outcome(Some(Reply::Stopped(RecordedAudio { samples: vec![1], sample_rate: 16000 }))) {
        Ok(a) => assert_eq!(a.samples, vec![1]),
        Err(_) => panic!("expected audio"),
    }
    assert!(matches!(stop_outcome(Some(Reply::Started)), Err(RecorderError::UnexpectedReply)));
}

#[test]
fn recorder_tracks_running_state() {
    let (cmd_tx, cmd_rx) = mpsc::channel::<Cmd>();
    let (reply_tx, reply_rx) = mpsc::channel::<Reply>();
    let mut rec = Recorder::new(cmd_tx, reply_rx);
    assert!(!rec.is_running());

    reply_tx.send(Reply::Error("no microphone".into())).unwrap();
    assert!(matches!(rec.start(), Err(RecorderError::Audio(_))));
    assert!(!rec.is_running());

    reply_tx.send(Reply::Started).unwrap();
    assert!(rec.start().is_ok());
    assert!(rec.is_running());

    reply_tx.send(Reply::Stopped(RecordedAudio { samples: vec![5, 6], sample_rate: 8000 })).unwrap();
    let audio = rec.stop().ok().unwrap();
    assert_eq!(audio.samples, vec![5, 6]);
    assert!(!rec.is_running());

    assert!(matches!(cmd_rx.try_recv(), Ok(Cmd::Start)));
    assert!(matches!(cmd_rx.try_recv(), Ok(Cmd::Start)));
    assert!(matches!(cmd_rx.try_recv(), Ok(Cmd::Stop)));
}

#[test]
fn recorder_reports_a_gone_thread() {
    let (cmd_tx, cmd_rx) = mpsc::channel::<Cmd>();
    let (_reply_tx, reply_rx) = mpsc::channel::<Reply>();
    drop(cmd_rx);
    let mut rec = Recorder::new(cmd_tx, reply_rx);
    assert!(matches!(rec.start(), Err(RecorderError::ThreadGone)));
    assert!(matches!(rec.stop(), Err(RecorderError::ThreadGone)));
    assert!(!rec.is_running());
}

#[test]
fn recorder_reports_a_closed_thread() {
    let (cmd_tx, _cmd_rx) = mpsc::channel::<Cmd>();
    let (reply_tx, reply_rx) = mpsc::channel::<Reply>();
    drop(reply_tx);
    let mut rec = Recorder::new(cmd_tx, reply_rx);
    assert!(matches!(rec.start(), Err(RecorderError::ThreadClosed)));
    assert!(matches!(rec.stop(), Err(RecorderError::ThreadClosed)));
}

#[test]
fn wav_bytes_for_two_samples() {
    let audio = RecordedAudio { samples: vec![1, -2], sample_rate: 16000 };
    let bytes = write_wav(&audio).unwrap();
    let mut expected: Vec<u8> = Vec::new();
    expected.extend_from_slice(b"RIFF");
    expected.extend_from_slice(&[40, 0, 0, 0]);
    expected.extend_from_slice(b"WAVEfmt ");
    expected.extend_from_slice(&[16, 0, 0, 0, 1, 0, 1, 0]);
    expected.extend_from_slice(&[0x80, 0x3e, 0, 0, 0x00, 0x7d, 0, 0, 2, 0, 16, 0]);
    expected.extend_from_slice(b"data");
    expected.extend_from_slice(&[4, 0, 0, 0, 1, 0, 0xfe, 0xff]);
    assert_eq!(bytes, expected);
}

#[test]
fn wav_of_an_empty_recording_is_the_header() {
    let audio = RecordedAudio { samples: vec![], sample_rate: 44100 };
    let bytes = write_wav(&audio).unwrap();
    assert_eq!(bytes.len(), 44);
    assert_eq!(&bytes[4..8], &[36, 0, 0, 0]);
    assert_eq!(&bytes[24..28], &44100u32.to_le_bytes());
    assert_eq!(&bytes[28..32], &88200u32.to_le_bytes());
    assert_eq!(&bytes[40..44], &[0, 0, 0, 0]);
}

#[test]
fn second_start_keeps_the_recording() {
    let mut t = AudioThread::new();
    assert!(matches!(t.on_command(Cmd::Start), ThreadStep::OpenStream));
    let _ = t.on_stream_opened(Ok(StreamFormat { sample_rate: 48000, channels: 2 }));
    match t.on_command(Cmd::Start) {
        ThreadStep::Send(Reply::Error(m)) => assert_eq!(m, "already recording"),
        _ => panic!("a second start is refused"),
    }
    assert!(t.is_recording());
    match t.on_command(Cmd::Stop) {
        ThreadStep::CloseStream(f) => assert_eq!(f.sample_rate, 48000),
        _ => panic!("the first recording is still open"),
    }

    let (cmd_tx, _cmd_rx) = mpsc::channel::<Cmd>();
    let (reply_tx, reply_rx) = mpsc::channel::<Reply>();
    let mut rec = Recorder::new(cmd_tx, reply_rx);
    reply_tx.send(Reply::Started).unwrap();
    assert!(rec.start().is_ok());
    reply_tx.send(Reply::Error("already recording".into())).unwrap();
    match rec.start() {
        Err(RecorderError::Audio(m)) => assert_eq!(m, "already recording"),
        _ => panic!("a second start is refused"),
    }
    assert!(rec.is_running());
}

#[test]
fn a_stop_that_cannot_be_sent_keeps_the_flag() {
    let (cmd_tx, cmd_rx) = mpsc::channel::<Cmd>();
    let (reply_tx, reply_rx) = mpsc::channel::<Reply>();
    let mut rec = Recorder::new(cmd_tx, reply_rx);
    reply_tx.send(Reply::Started).unwrap();
    assert!(rec.start().is_ok());
    drop(cmd_rx);
    assert!(matches!(rec.stop(), Err(RecorderError::ThreadGone)));
    assert!(rec.is_running());
}
