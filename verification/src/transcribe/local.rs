//! On-device transcription: the request, the cache of the loaded model, and
//! the parameters derived for the recogniser. Running the model itself is
//! done by the caller.
use vstd::prelude::*;

use crate::text::{owned, str_eq, trim, trimmed};

verus! {

/// The recogniser works on audio at this rate.
pub const TARGET_RATE: u32 = 16000;

/// A local transcription request.
pub struct LocalRequest<'a> {
    pub model_name: &'a str,
    pub model_path: &'a str,
    pub samples: &'a [i16],
    pub sample_rate: u32,
    pub language: Option<&'a str>,
    pub initial_prompt: Option<&'a str>,
}

/// A model kept in memory with the name and file it was loaded from.
pub struct LoadedModel<C> {
    pub name: String,
    pub path: String,
    pub ctx: C,
}

/// The model kept loaded between transcriptions; loading is expensive, so it
/// is reused while requests name the same model and file.
pub struct ModelCache<C> {
    loaded: Option<LoadedModel<C>>,
}

/// Whether two paths are equal as `std::path::Path` compares them.
pub uninterp spec fn same_path(a: Seq<char>, b: Seq<char>) -> bool;

/// `std::path::Path`'s `==`: compares two paths component by component, so
/// spellings that differ only in repeated separators, a trailing separator
/// or `.` components are equal. A path is equal to itself.
#[verifier::external_body]
fn path_eq(a: &str, b: &str) -> (r: bool)
    ensures
        r == same_path(a@, b@),
        a@ == b@ ==> r,
{
    std::path::Path::new(a) == std::path::Path::new(b)
}

impl<C> ModelCache<C> {
    /// The name and file of the loaded model, if one is loaded.
    pub closed spec fn loaded_key(&self) -> Option<(Seq<char>, Seq<char>)> {
        match self.loaded {
            Some(m) => Some((m.name@, m.path@)),
            None => None,
        }
    }

    /// The loaded model itself, if one is loaded.
    pub closed spec fn loaded_ctx(&self) -> Option<C> {
        match self.loaded {
            Some(m) => Some(m.ctx),
            None => None,
        }
    }

    /// A cache with nothing loaded.
    pub fn new() -> (c: ModelCache<C>)
        ensures
            c.loaded_key() is None,
            c.loaded_ctx() is None,
    {
        ModelCache { loaded: None }
    }

    /// Whether a request for `name` at `path` needs the model loaded anew:
    /// when nothing is loaded, or the loaded model has another name or file.
    pub fn needs_reload(&self, name: &str, path: &str) -> (r: bool)
        ensures
            r == match self.loaded_key() {
                Some((n, p)) => n != name@ || !same_path(p, path@),
                None => true,
            },
    {
        match &self.loaded {
            Some(m) => !str_eq(m.name.as_str(), name) || !path_eq(m.path.as_str(), path),
            None => true,
        }
    }

    /// Keeps a freshly loaded model.
    pub fn store(&mut self, name: &str, path: &str, ctx: C)
        ensures
            final(self).loaded_key() == Some((name@, path@)),
            final(self).loaded_ctx() == Some(ctx),
    {
        self.loaded = Some(LoadedModel { name: owned(name), path: owned(path), ctx });
    }

    /// Drops the loaded model, if any.
    pub fn unload(&mut self)
        ensures
            final(self).loaded_key() is None,
            final(self).loaded_ctx() is None,
    {
        self.loaded = None;
    }

    /// The loaded model, if any.
    pub fn context(&self) -> (r: Option<&C>)
        ensures
            r is Some <==> self.loaded_key() is Some,
            match r {
                Some(c) => self.loaded_ctx() == Some(*c),
                None => self.loaded_ctx() is None,
            },
    {
        match &self.loaded {
            Some(m) => Some(&m.ctx),
            None => None,
        }
    }
}

/// The number of threads the recogniser uses: the available parallelism (4
/// when unknown), kept between 1 and 8.
pub open spec fn thread_count_spec(available: Option<usize>) -> int {
    let n: int = match available {
        Some(n) => n as int,
        None => 4,
    };
    if n < 1 {
        1
    } else if n > 8 {
        8
    } else {
        n
    }
}

/// Chooses the number of recogniser threads.
pub fn thread_count(available: Option<usize>) -> (t: i32)
    ensures
        t == thread_count_spec(available),
        1 <= t <= 8,
{
    let n: usize = match available {
        Some(n) => n,
        None => 4,
    };
    let c: usize = if n < 1 {
        1
    } else if n > 8 {
        8
    } else {
        n
    };
    c as i32
}

/// All segments, first segment first.
pub open spec fn concat_segments(segs: Seq<String>) -> Seq<char>
    decreases segs.len(),
{
    if segs.len() == 0 {
        Seq::empty()
    } else {
        concat_segments(segs.drop_last()) + segs.last()@
    }
}

/// The transcription: the segment texts joined, without surrounding white
/// space.
pub fn join_segments(segs: &Vec<String>) -> (out: String)
    ensures
        out@ == trimmed(concat_segments(segs@)),
{
    let mut text = String::new();
    let mut i: usize = 0;
    assert(segs@.take(0) =~= Seq::<String>::empty());
    while i < segs.len()
        invariant
            i <= segs.len(),
            text@ == concat_segments(segs@.take(i as int)),
        decreases segs.len() - i,
    {
        text.append(segs[i].as_str());
        assert(segs@.take(i + 1).drop_last() =~= segs@.take(i as int));
        i += 1;
    }
    assert(segs@.take(segs.len() as int) =~= segs@);
    trim(text.as_str())
}

} // verus!
