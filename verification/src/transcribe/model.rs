//! The catalogue of local models, their on-disk status, and the bookkeeping
//! of downloads in progress.
use vstd::prelude::*;

use crate::text::{owned, str_eq};

verus! {

/// A model that can be downloaded.
#[derive(Clone, Copy)]
pub struct ModelInfo {
    pub name: &'static str,
    pub display: &'static str,
    pub filename: &'static str,
    pub size_mb: u32,
    pub recommended: bool,
}

/// The catalogue, in display order.
pub open spec fn catalogue() -> Seq<ModelInfo> {
    seq![
        ModelInfo {
            name: "tiny",
            display: "tiny (multi, 75 MB) — fastest, lowest quality",
            filename: "ggml-tiny.bin",
            size_mb: 75,
            recommended: false,
        },
        ModelInfo {
            name: "base",
            display: "base (multi, 142 MB)",
            filename: "ggml-base.bin",
            size_mb: 142,
            recommended: false,
        },
        ModelInfo {
            name: "small",
            display: "small (multi, 466 MB)",
            filename: "ggml-small.bin",
            size_mb: 466,
            recommended: false,
        },
        ModelInfo {
            name: "medium-q5_0",
            display: "medium q5_0 (multi, 539 MB) — good balance",
            filename: "ggml-medium-q5_0.bin",
            size_mb: 539,
            recommended: false,
        },
        ModelInfo {
            name: "large-v3-turbo-q5_0",
            display: "large-v3-turbo q5_0 (multi, 574 MB) — best for RTX 4060",
            filename: "ggml-large-v3-turbo-q5_0.bin",
            size_mb: 574,
            recommended: true,
        },
    ]
}

/// Every model's file is named "ggml-", the model's name, then ".bin".
pub proof fn law_catalogue_file_names()
    ensures
        forall|i: int| 0 <= i < catalogue().len()
            ==> (#[trigger] catalogue()[i]).filename@ == "ggml-"@ + catalogue()[i].name@ + ".bin"@,
{
    reveal_strlit("ggml-");
    reveal_strlit(".bin");
    reveal_strlit("tiny");
    reveal_strlit("ggml-tiny.bin");
    reveal_strlit("base");
    reveal_strlit("ggml-base.bin");
    reveal_strlit("small");
    reveal_strlit("ggml-small.bin");
    reveal_strlit("medium-q5_0");
    reveal_strlit("ggml-medium-q5_0.bin");
    reveal_strlit("large-v3-turbo-q5_0");
    reveal_strlit("ggml-large-v3-turbo-q5_0.bin");
    let c = catalogue();
    assert(c[0].filename@ =~= "ggml-"@ + c[0].name@ + ".bin"@);
    assert(c[1].filename@ =~= "ggml-"@ + c[1].name@ + ".bin"@);
    assert(c[2].filename@ =~= "ggml-"@ + c[2].name@ + ".bin"@);
    assert(c[3].filename@ =~= "ggml-"@ + c[3].name@ + ".bin"@);
    assert(c[4].filename@ =~= "ggml-"@ + c[4].name@ + ".bin"@);
}

/// The catalogue as a vector.
pub fn known_models() -> (v: Vec<ModelInfo>)
    ensures
        v@ == catalogue(),
{
    let v = vec![
        ModelInfo {
            name: "tiny",
            display: "tiny (multi, 75 MB) — fastest, lowest quality",
            filename: "ggml-tiny.bin",
            size_mb: 75,
            recommended: false,
        },
        ModelInfo {
            name: "base",
            display: "base (multi, 142 MB)",
            filename: "ggml-base.bin",
            size_mb: 142,
            recommended: false,
        },
        ModelInfo {
            name: "small",
            display: "small (multi, 466 MB)",
            filename: "ggml-small.bin",
            size_mb: 466,
            recommended: false,
        },
        ModelInfo {
            name: "medium-q5_0",
            display: "medium q5_0 (multi, 539 MB) — good balance",
            filename: "ggml-medium-q5_0.bin",
            size_mb: 539,
            recommended: false,
        },
        ModelInfo {
            name: "large-v3-turbo-q5_0",
            display: "large-v3-turbo q5_0 (multi, 574 MB) — best for RTX 4060",
            filename: "ggml-large-v3-turbo-q5_0.bin",
            size_mb: 574,
            recommended: true,
        },
    ];
    assert(v@ =~= catalogue());
    v
}

/// Looks a model up by name.
pub fn find(name: &str) -> (r: Option<ModelInfo>)
    ensures
        match r {
            Some(m) => exists|i: int|
                0 <= i < catalogue().len() && catalogue()[i] == m && m.name@ == name@
                    && forall|j: int| 0 <= j < i ==> (#[trigger] catalogue()[j]).name@ != name@,
            None => forall|i: int| 0 <= i < catalogue().len() ==> (#[trigger] catalogue()[i]).name@ != name@,
        },
{
    let models = known_models();
    let mut i: usize = 0;
    while i < models.len()
        invariant
            i <= models.len(),
            models@ == catalogue(),
            forall|j: int| 0 <= j < i ==> (#[trigger] catalogue()[j]).name@ != name@,
        decreases models.len() - i,
    {
        if str_eq(models[i].name, name) {
            return Some(models[i]);
        }
        i += 1;
    }
    None
}

/// Where models are downloaded from.
pub open spec fn download_base() -> Seq<char> {
    "https://huggingface.co/ggerganov/whisper.cpp/resolve/main"@
}

/// The address a model file is fetched from: the base, a slash, the file name.
pub fn download_url(info: &ModelInfo) -> (url: String)
    ensures
        url@ == download_base() + "/"@ + info.filename@,
{
    let mut url = owned("https://huggingface.co/ggerganov/whisper.cpp/resolve/main");
    url.append("/");
    url.append(info.filename);
    url
}

/// The name of the file a model is written to while it downloads.
pub fn partial_filename(info: &ModelInfo) -> (f: String)
    ensures
        f@ == info.filename@ + ".part"@,
{
    let mut f = owned(info.filename);
    f.append(".part");
    f
}

/// What the file system reports about a model file.
#[derive(Clone, Copy)]
pub struct FileMeta {
    pub is_file: bool,
    pub len: u64,
}

/// A catalogue entry with its installation status.
pub struct LocalModelStatus {
    pub name: &'static str,
    pub display: &'static str,
    pub filename: &'static str,
    pub size_mb: u32,
    pub recommended: bool,
    pub installed: bool,
    pub size_on_disk: u64,
}

/// The status of a model given the metadata of its file: installed when it
/// is a non-empty regular file; a missing file counts as not installed with
/// size zero.
pub open spec fn status_of(info: ModelInfo, meta: Option<FileMeta>) -> LocalModelStatus {
    LocalModelStatus {
        name: info.name,
        display: info.display,
        filename: info.filename,
        size_mb: info.size_mb,
        recommended: info.recommended,
        installed: match meta {
            Some(m) => m.is_file && m.len > 0,
            None => false,
        },
        size_on_disk: match meta {
            Some(m) => m.len,
            None => 0,
        },
    }
}

impl LocalModelStatus {
    /// The status of one model.
    pub fn from_metadata(info: &ModelInfo, meta: Option<FileMeta>) -> (s: LocalModelStatus)
        ensures
            s == status_of(*info, meta),
    {
        let (installed, size_on_disk) = match meta {
            Some(m) => (m.is_file && m.len > 0, m.len),
            None => (false, 0),
        };
        LocalModelStatus {
            name: info.name,
            display: info.display,
            filename: info.filename,
            size_mb: info.size_mb,
            recommended: info.recommended,
            installed,
            size_on_disk,
        }
    }
}

/// The status of every catalogue entry, given the metadata of each entry's
/// file in catalogue order.
pub fn list_local(metas: &Vec<Option<FileMeta>>) -> (out: Vec<LocalModelStatus>)
    requires
        metas@.len() == catalogue().len(),
    ensures
        out@.len() == catalogue().len(),
        forall|i: int| 0 <= i < out@.len() ==> out@[i] == status_of(catalogue()[i], #[trigger] metas@[i]),
{
    let models = known_models();
    let mut out: Vec<LocalModelStatus> = Vec::new();
    let mut i: usize = 0;
    while i < models.len()
        invariant
            i <= models.len(),
            models@ == catalogue(),
            metas@.len() == catalogue().len(),
            out@.len() == i,
            forall|k: int| 0 <= k < i ==> out@[k] == status_of(catalogue()[k], #[trigger] metas@[k]),
        decreases models.len() - i,
    {
        out.push(LocalModelStatus::from_metadata(&models[i], metas[i]));
        i += 1;
    }
    out
}

// ---------------------------------------------------------------------------
// Downloads in progress
// ---------------------------------------------------------------------------

/// One download in progress and whether it was asked to stop.
pub struct DownloadEntry {
    pub name: String,
    pub canceled: bool,
}

/// The downloads in progress as a map from model name to the cancel flag.
pub open spec fn entries_map(s: Seq<DownloadEntry>) -> Map<Seq<char>, bool>
    decreases s.len(),
{
    if s.len() == 0 {
        Map::empty()
    } else {
        entries_map(s.drop_last()).insert(s.last().name@, s.last().canceled)
    }
}

/// No name occurs twice.
pub open spec fn unique_names(s: Seq<DownloadEntry>) -> bool {
    forall|i: int, j: int| 0 <= i < s.len() && 0 <= j < s.len() && i != j ==> (#[trigger] s[i]).name@ != (#[trigger] s[j]).name@
}

proof fn lemma_entries_map(s: Seq<DownloadEntry>, k: Seq<char>)
    requires
        unique_names(s),
    ensures
        entries_map(s).contains_key(k) <==> exists|i: int| 0 <= i < s.len() && (#[trigger] s[i]).name@ == k,
        forall|i: int| 0 <= i < s.len() && (#[trigger] s[i]).name@ == k ==> entries_map(s)[k] == s[i].canceled,
    decreases s.len(),
{
    if s.len() > 0 {
        let t = s.drop_last();
        assert(unique_names(t)) by {
            assert forall|i: int, j: int| 0 <= i < t.len() && 0 <= j < t.len() && i != j implies (#[trigger] t[i]).name@ != (#[trigger] t[j]).name@ by {
                assert(t[i] == s[i] && t[j] == s[j]);
            }
        }
        lemma_entries_map(t, k);
        if entries_map(s).contains_key(k) {
            if k != s.last().name@ {
                let i = choose|i: int| 0 <= i < t.len() && (#[trigger] t[i]).name@ == k;
                assert(s[i] == t[i]);
            } else {
                assert(s[s.len() - 1].name@ == k);
            }
        }
        assert forall|i: int| 0 <= i < s.len() && (#[trigger] s[i]).name@ == k implies entries_map(s)[k] == s[i].canceled by {
            if i < s.len() - 1 {
                assert(t[i] == s[i]);
                assert(s[i].name@ != s[s.len() - 1].name@);
            }
        }
        if exists|i: int| 0 <= i < s.len() && (#[trigger] s[i]).name@ == k {
            let i = choose|i: int| 0 <= i < s.len() && (#[trigger] s[i]).name@ == k;
            if i < s.len() - 1 {
                assert(t[i] == s[i]);
            }
        }
    }
}

/// Why a download cannot start.
pub enum DownloadError {
    /// The name is not in the catalogue.
    UnknownModel,
    /// A download of the same model is already in progress.
    AlreadyInProgress,
}

/// A call on the download registry, by the model name it names.
pub enum RegistryOp {
    Start(Seq<char>),
    Finish(Seq<char>),
    Cancel(Seq<char>),
}

/// The registry's contents after one call: a start registers a name that is
/// not registered yet, a finish removes it, and a cancel marks a registered
/// download as asked to stop.
pub open spec fn registry_after(m: Map<Seq<char>, bool>, op: RegistryOp) -> Map<Seq<char>, bool> {
    match op {
        RegistryOp::Start(n) => if m.contains_key(n) { m } else { m.insert(n, false) },
        RegistryOp::Finish(n) => m.remove(n),
        RegistryOp::Cancel(n) => if m.contains_key(n) { m.insert(n, true) } else { m },
    }
}

/// The registry's contents after a sequence of calls, oldest first.
pub open spec fn registry_after_ops(m: Map<Seq<char>, bool>, ops: Seq<RegistryOp>) -> Map<Seq<char>, bool>
    decreases ops.len(),
{
    if ops.len() == 0 {
        m
    } else {
        registry_after(registry_after_ops(m, ops.drop_last()), ops.last())
    }
}

/// Call `i` starts `n`, and no call after it finishes `n`.
pub open spec fn started_not_finished(ops: Seq<RegistryOp>, n: Seq<char>, i: int) -> bool {
    &&& 0 <= i < ops.len()
    &&& ops[i] == RegistryOp::Start(n)
    &&& forall|j: int| i < j < ops.len() ==> ops[j] != RegistryOp::Finish(n)
}

/// Starting from an empty registry, a download of `n` is in progress after a
/// sequence of calls exactly when some start of `n` came and no finish of
/// `n` after it; cancels never change which downloads are in progress.
pub proof fn law_active_after_ops(ops: Seq<RegistryOp>, n: Seq<char>)
    ensures
        registry_after_ops(Map::empty(), ops).contains_key(n) == exists|i: int| started_not_finished(ops, n, i),
    decreases ops.len(),
{
    if ops.len() > 0 {
        let pre = ops.drop_last();
        let last = ops.len() - 1;
        law_active_after_ops(pre, n);
        if ops.last() == RegistryOp::Start(n) {
            assert(started_not_finished(ops, n, last));
        } else if ops.last() == RegistryOp::Finish(n) {
            assert forall|i: int| !started_not_finished(ops, n, i) by {
                if 0 <= i < last {
                    assert(ops[last] == RegistryOp::Finish(n));
                }
            }
        } else {
            assert forall|i: int| started_not_finished(ops, n, i) == started_not_finished(pre, n, i) by {
                if 0 <= i < last {
                    if started_not_finished(pre, n, i) {
                        assert forall|j: int| i < j < ops.len() implies ops[j] != RegistryOp::Finish(n) by {
                            if j < last {
                                assert(ops[j] == pre[j]);
                            }
                        }
                    }
                    if started_not_finished(ops, n, i) {
                        assert forall|j: int| i < j < pre.len() implies pre[j] != RegistryOp::Finish(n) by {
                            assert(ops[j] == pre[j]);
                        }
                    }
                }
            }
        }
    }
}

/// The downloads in progress, at most one per model name, each with a flag
/// that asks it to stop.
pub struct DownloadRegistry {
    entries: Vec<DownloadEntry>,
}

impl View for DownloadRegistry {
    type V = Map<Seq<char>, bool>;

    closed spec fn view(&self) -> Map<Seq<char>, bool> {
        entries_map(self.entries@)
    }
}

impl DownloadRegistry {
    /// No model is listed twice.
    #[verifier::type_invariant]
    spec fn names_unique(self) -> bool {
        unique_names(self.entries@)
    }

    /// An empty registry.
    pub fn new() -> (r: DownloadRegistry)
        ensures
            r@ == Map::<Seq<char>, bool>::empty(),
    {
        DownloadRegistry { entries: Vec::new() }
    }

    fn index_of(&self, name: &str) -> (r: Option<usize>)
        ensures
            match r {
                Some(i) => i < self.entries@.len() && self.entries@[i as int].name@ == name@,
                None => forall|i: int| 0 <= i < self.entries@.len() ==> (#[trigger] self.entries@[i]).name@ != name@,
            },
    {
        let mut i: usize = 0;
        while i < self.entries.len()
            invariant
                i <= self.entries@.len(),
                forall|j: int| 0 <= j < i ==> (#[trigger] self.entries@[j]).name@ != name@,
            decreases self.entries.len() - i,
        {
            if str_eq(self.entries[i].name.as_str(), name) {
                return Some(i);
            }
            i += 1;
        }
        None
    }

    /// Registers a download of `name`; refused while one is in progress.
    pub fn start(&mut self, name: &str) -> (r: Result<(), DownloadError>)
        ensures
            match r {
                Ok(()) => !old(self)@.contains_key(name@) && final(self)@ == old(self)@.insert(name@, false),
                Err(e) => old(self)@.contains_key(name@) && e is AlreadyInProgress && final(self)@ == old(self)@,
            },
            final(self)@ == registry_after(old(self)@, RegistryOp::Start(name@)),
    {
        proof {
            use_type_invariant(&*self);
            lemma_entries_map(self.entries@, name@);
        }
        match self.index_of(name) {
            Some(_) => Err(DownloadError::AlreadyInProgress),
            None => {
                let mut entries: Vec<DownloadEntry> = Vec::new();
                std::mem::swap(&mut entries, &mut self.entries);
                let ghost before = entries@;
                entries.push(DownloadEntry { name: owned(name), canceled: false });
                assert(entries@.drop_last() =~= before);
                assert(unique_names(entries@)) by {
                    assert forall|i: int, j: int| 0 <= i < entries@.len() && 0 <= j < entries@.len() && i != j implies (#[trigger] entries@[i]).name@ != (#[trigger] entries@[j]).name@ by {
                        if i < before.len() && j < before.len() {
                            assert(entries@[i] == before[i] && entries@[j] == before[j]);
                        } else if i < before.len() {
                            assert(entries@[i] == before[i]);
                        } else {
                            assert(entries@[j] == before[j]);
                        }
                    }
                }
                self.entries = entries;
                Ok(())
            },
        }
    }

    /// Removes the entry for `name`, if any, and says whether it had been
    /// asked to stop.
    pub fn finish(&mut self, name: &str) -> (was_canceled: bool)
        ensures
            final(self)@ == old(self)@.remove(name@),
            final(self)@ == registry_after(old(self)@, RegistryOp::Finish(name@)),
            was_canceled == (old(self)@.contains_key(name@) && old(self)@[name@]),
    {
        proof {
            use_type_invariant(&*self);
            lemma_entries_map(self.entries@, name@);
        }
        match self.index_of(name) {
            None => {
                assert(self@ =~= self@.remove(name@));
                false
            },
            Some(i) => {
                let mut entries: Vec<DownloadEntry> = Vec::new();
                std::mem::swap(&mut entries, &mut self.entries);
                let ghost before = entries@;
                let removed = entries.remove(i);
                let ghost after = entries@;
                assert(forall|j: int| 0 <= j < i ==> after[j] == before[j]);
                assert(forall|j: int| i <= j < after.len() ==> after[j] == before[j + 1]);
                assert(unique_names(after)) by {
                    assert forall|a: int, b: int| 0 <= a < after.len() && 0 <= b < after.len() && a != b implies (#[trigger] after[a]).name@ != (#[trigger] after[b]).name@ by {
                        let a0 = if a < i { a } else { a + 1 };
                        let b0 = if b < i { b } else { b + 1 };
                        assert(after[a] == before[a0] && after[b] == before[b0]);
                    }
                }
                assert(entries_map(after) =~= entries_map(before).remove(name@)) by {
                    assert forall|k: Seq<char>| #[trigger] entries_map(after).contains_key(k) <==> entries_map(before).remove(name@).contains_key(k) by {
                        lemma_entries_map(after, k);
                        lemma_entries_map(before, k);
                        if entries_map(after).contains_key(k) {
                            let a = choose|a: int| 0 <= a < after.len() && (#[trigger] after[a]).name@ == k;
                            let a0 = if a < i { a } else { a + 1 };
                            assert(after[a] == before[a0]);
                            assert(before[a0].name@ != before[i as int].name@);
                        }
                        if entries_map(before).remove(name@).contains_key(k) {
                            let b = choose|b: int| 0 <= b < before.len() && (#[trigger] before[b]).name@ == k;
                            assert(b != i);
                            let b1 = if b < i { b } else { b - 1 };
                            assert(after[b1] == before[b]);
                        }
                    }
                    assert forall|k: Seq<char>| #[trigger] entries_map(after).contains_key(k) implies entries_map(after)[k] == entries_map(before).remove(name@)[k] by {
                        lemma_entries_map(after, k);
                        lemma_entries_map(before, k);
                        let a = choose|a: int| 0 <= a < after.len() && (#[trigger] after[a]).name@ == k;
                        let a0 = if a < i { a } else { a + 1 };
                        assert(after[a] == before[a0]);
                        assert(before[a0].name@ != before[i as int].name@);
                    }
                }
                self.entries = entries;
                removed.canceled
            },
        }
    }

    /// Asks the download of `name` to stop; false when there is none.
    pub fn cancel(&mut self, name: &str) -> (found: bool)
        ensures
            found == old(self)@.contains_key(name@),
            found ==> final(self)@ == old(self)@.insert(name@, true),
            !found ==> final(self)@ == old(self)@,
            final(self)@ == registry_after(old(self)@, RegistryOp::Cancel(name@)),
    {
        proof {
            use_type_invariant(&*self);
            lemma_entries_map(self.entries@, name@);
        }
        match self.index_of(name) {
            None => false,
            Some(i) => {
                let mut entries: Vec<DownloadEntry> = Vec::new();
                std::mem::swap(&mut entries, &mut self.entries);
                let ghost before = entries@;
                let mut entry = entries.remove(i);
                entry.canceled = true;
                entries.insert(i, entry);
                let ghost after = entries@;
                assert(forall|j: int| 0 <= j < after.len() && j != i ==> after[j] == before[j]);
                assert(after.len() == before.len());
                assert(after[i as int].name@ == before[i as int].name@);
                assert(unique_names(after)) by {
                    assert forall|a: int, b: int| 0 <= a < after.len() && 0 <= b < after.len() && a != b implies (#[trigger] after[a]).name@ != (#[trigger] after[b]).name@ by {
                        assert(after[a].name@ == before[a].name@ && after[b].name@ == before[b].name@);
                    }
                }
                assert(entries_map(after) =~= entries_map(before).insert(name@, true)) by {
                    assert forall|k: Seq<char>| #[trigger] entries_map(after).contains_key(k) <==> entries_map(before).insert(name@, true).contains_key(k) by {
                        lemma_entries_map(after, k);
                        lemma_entries_map(before, k);
                        if entries_map(after).contains_key(k) {
                            let a = choose|a: int| 0 <= a < after.len() && (#[trigger] after[a]).name@ == k;
                            assert(after[a].name@ == before[a].name@);
                        }
                        if entries_map(before).contains_key(k) {
                            let b = choose|b: int| 0 <= b < before.len() && (#[trigger] before[b]).name@ == k;
                            assert(after[b].name@ == before[b].name@);
                        }
                    }
                    assert forall|k: Seq<char>| #[trigger] entries_map(after).contains_key(k) implies entries_map(after)[k] == entries_map(before).insert(name@, true)[k] by {
                        lemma_entries_map(after, k);
                        lemma_entries_map(before, k);
                        let a = choose|a: int| 0 <= a < after.len() && (#[trigger] after[a]).name@ == k;
                        assert(after[a].name@ == before[a].name@);
                    }
                }
                self.entries = entries;
                true
            },
        }
    }

    /// Whether a download of `name` is in progress.
    pub fn is_active(&self, name: &str) -> (r: bool)
        ensures
            r == self@.contains_key(name@),
    {
        proof {
            use_type_invariant(self);
            lemma_entries_map(self.entries@, name@);
        }
        self.index_of(name).is_some()
    }

    /// Whether the download of `name` has been asked to stop.
    pub fn is_canceled(&self, name: &str) -> (r: bool)
        ensures
            r == (self@.contains_key(name@) && self@[name@]),
    {
        proof {
            use_type_invariant(self);
            lemma_entries_map(self.entries@, name@);
        }
        match self.index_of(name) {
            Some(i) => self.entries[i].canceled,
            None => false,
        }
    }
}

/// Progress events are sent once more than this many bytes arrived since the
/// last one.
pub const PROGRESS_STEP: u64 = 262144;

/// Bytes received so far and the count reported in the last progress event.
pub struct DownloadProgress {
    pub downloaded: u64,
    pub last_emit: u64,
}

impl DownloadProgress {
    /// Nothing received, nothing reported.
    pub fn new() -> (p: DownloadProgress)
        ensures
            p.downloaded == 0,
            p.last_emit == 0,
    {
        DownloadProgress { downloaded: 0, last_emit: 0 }
    }

    /// Counts a received chunk; returns the total to report when more than
    /// `PROGRESS_STEP` bytes arrived since the last report.
    pub fn record_chunk(&mut self, len: u64) -> (report: Option<u64>)
        requires
            old(self).last_emit <= old(self).downloaded,
            old(self).downloaded + len <= u64::MAX,
        ensures
            final(self).downloaded == old(self).downloaded + len,
            final(self).last_emit <= final(self).downloaded,
            if final(self).downloaded - old(self).last_emit > PROGRESS_STEP {
                report == Some(final(self).downloaded) && final(self).last_emit == final(self).downloaded
            } else {
                report is None && final(self).last_emit == old(self).last_emit
            },
    {
        self.downloaded = self.downloaded + len;
        if self.downloaded - self.last_emit > PROGRESS_STEP {
            self.last_emit = self.downloaded;
            Some(self.downloaded)
        } else {
            None
        }
    }
}

/// The event that closes a download.
#[derive(PartialEq, Eq, Structural, Clone, Copy, Debug)]
pub enum DownloadOutcome {
    Done,
    Canceled,
    Failed,
}

/// A download that succeeded is done; one that failed after being asked to
/// stop was canceled; any other failure is a failure.
pub fn download_outcome(succeeded: bool, canceled: bool) -> (o: DownloadOutcome)
    ensures
        o == (if succeeded {
            DownloadOutcome::Done
        } else if canceled {
            DownloadOutcome::Canceled
        } else {
            DownloadOutcome::Failed
        }),
{
    if succeeded {
        DownloadOutcome::Done
    } else if canceled {
        DownloadOutcome::Canceled
    } else {
        DownloadOutcome::Failed
    }
}

/// Checks that `name` is in the catalogue and registers its download.
pub fn begin_download(registry: &mut DownloadRegistry, name: &str) -> (r: Result<ModelInfo, DownloadError>)
    ensures
        match r {
            Ok(m) => m.name@ == name@ && catalogue().contains(m) && !old(registry)@.contains_key(name@)
                && final(registry)@ == old(registry)@.insert(name@, false),
            Err(DownloadError::UnknownModel) => (forall|i: int| 0 <= i < catalogue().len() ==> (#[trigger] catalogue()[i]).name@ != name@)
                && final(registry)@ == old(registry)@,
            Err(DownloadError::AlreadyInProgress) => old(registry)@.contains_key(name@) && final(registry)@ == old(registry)@
                && exists|i: int| 0 <= i < catalogue().len() && (#[trigger] catalogue()[i]).name@ == name@,
        },
        (forall|i: int| 0 <= i < catalogue().len() ==> (#[trigger] catalogue()[i]).name@ != name@)
            ==> r matches Err(DownloadError::UnknownModel),
{
    let info = match find(name) {
        Some(m) => m,
        None => return Err(DownloadError::UnknownModel),
    };
    match registry.start(name) {
        Ok(()) => Ok(info),
        Err(e) => Err(e),
    }
}

} // verus!
