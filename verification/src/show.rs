//! A video file in need of subtitles.

use vstd::prelude::*;
use vstd::string::*;
use crate::error::SubError;
use crate::fingerprint::{fingerprint, fingerprint_text, HASH_BLK_SIZE};
use crate::names::{is_candidate, qualifies, subtitle_file_name, subtitle_name};

verus! {

/// One video file: where it is, what it is called, how large it is, and its
/// fingerprint once that has been computed.
///
/// Every `Show` qualifies for a lookup: its name has a video's extension and
/// its size is at least one window. `Show::new` makes no other.
#[derive(Debug)]
pub struct Show {
    full_path: String,
    file_name: String,
    file_size: u64,
    hash: String,
}

/// A file as a directory listing reports it.
#[derive(Debug)]
pub struct FoundFile {
    /// The path by which the file can be opened.
    pub full_path: String,
    /// The last component of the path.
    pub file_name: String,
    /// The file's size in bytes; 0 where it could not be told.
    pub file_size: u64,
}

impl Show {
    /// The path by which the file can be opened.
    pub closed spec fn path(&self) -> Seq<char> {
        self.full_path@
    }

    /// The file's name without its directory.
    pub closed spec fn name(&self) -> Seq<char> {
        self.file_name@
    }

    /// The file's size in bytes.
    pub closed spec fn size(&self) -> u64 {
        self.file_size
    }

    /// The file's fingerprint; empty until it has been computed.
    pub closed spec fn hash_text(&self) -> Seq<char> {
        self.hash@
    }

    /// What holds of every `Show` that a program can hold: it qualifies for
    /// a lookup.
    #[verifier::type_invariant]
    pub open spec fn is_qualified(&self) -> bool {
        qualifies(self.name(), self.size())
    }

    /// Makes the `Show` of a file that qualifies, and none of any other.
    pub fn new(full_path: String, file_name: String, file_size: u64) -> (made: Option<Show>)
        ensures
            made is Some <==> qualifies(file_name@, file_size),
            made matches Some(show) ==> show.path() == full_path@ && show.name() == file_name@
                && show.size() == file_size && show.hash_text() == Seq::<char>::empty(),
    {
        if is_candidate(file_name.as_str(), file_size) {
            Some(Show { full_path, file_name, file_size, hash: String::new() })
        } else {
            None
        }
    }

    /// The path by which the file can be opened.
    pub fn full_path(&self) -> (path: &String)
        ensures
            path@ == self.path(),
    {
        &self.full_path
    }

    /// The file's name without its directory.
    pub fn file_name(&self) -> (name: &String)
        ensures
            name@ == self.name(),
    {
        &self.file_name
    }

    /// The file's size in bytes.
    pub fn file_size(&self) -> (size: u64)
        ensures
            size == self.size(),
    {
        self.file_size
    }

    /// The file's fingerprint; empty until it has been computed.
    pub fn hash(&self) -> (hash: &String)
        ensures
            hash@ == self.hash_text(),
    {
        &self.hash
    }

    /// The offset at which the file's last window starts.
    pub fn tail_offset(&self) -> (offset: u64)
        ensures
            offset == self.size() - HASH_BLK_SIZE,
    {
        proof {
            use_type_invariant(self);
        }
        self.file_size - HASH_BLK_SIZE
    }

    /// Computes the fingerprint from the file's first window, `head`, and its
    /// last, `tail`, and keeps it. A window that is not 64 KiB long is a
    /// failed read: nothing changes then.
    pub fn create_hash(&mut self, head: &[u8], tail: &[u8]) -> (result: Result<(), SubError>)
        ensures
            final(self).path() == old(self).path(),
            final(self).name() == old(self).name(),
            final(self).size() == old(self).size(),
            result is Ok <==> head@.len() == HASH_BLK_SIZE && tail@.len() == HASH_BLK_SIZE,
            result is Ok ==> final(self).hash_text() == fingerprint_text(
                old(self).size(),
                head@,
                tail@,
            ),
            result matches Err(e) ==> e is Io && final(self).hash_text() == old(self).hash_text(),
    {
        proof {
            use_type_invariant(&*self);
        }
        match fingerprint(self.file_size, head, tail) {
            Ok(text) => {
                self.hash = text;
                Ok(())
            },
            Err(e) => Err(e),
        }
    }

    /// The name under which the file's subtitle is stored: the file's name
    /// with `srt` in place of its extension.
    pub fn srt_name(&self) -> (srt: String)
        ensures
            srt@ == subtitle_name(self.name()),
    {
        subtitle_file_name(self.file_name.as_str())
    }
}

/// The files of a listing that qualify for a lookup, in the listing's order.
pub open spec fn candidates(files: Seq<FoundFile>) -> Seq<FoundFile>
    decreases files.len(),
{
    if files.len() == 0 {
        Seq::empty()
    } else if qualifies(files.last().file_name@, files.last().file_size) {
        candidates(files.drop_last()).push(files.last())
    } else {
        candidates(files.drop_last())
    }
}

/// Whether `show` is the `Show` of `file`, with no fingerprint yet.
pub open spec fn show_of(show: Show, file: FoundFile) -> bool {
    &&& show.path() == file.full_path@
    &&& show.name() == file.file_name@
    &&& show.size() == file.file_size
    &&& show.hash_text() == Seq::<char>::empty()
}

/// Picks from a listing the files to look up: those with a video's extension
/// and at least 64 KiB, in the listing's order.
pub fn get_show_list(files: &Vec<FoundFile>) -> (shows: Vec<Show>)
    ensures
        shows@.len() == candidates(files@).len(),
        forall|i: int| 0 <= i < shows@.len() ==> show_of(#[trigger] shows@[i], candidates(files@)[i]),
{
    let mut shows: Vec<Show> = Vec::new();
    let mut i: usize = 0;
    while i < files.len()
        invariant
            i <= files.len(),
            shows@.len() == candidates(files@.take(i as int)).len(),
            forall|k: int|
                0 <= k < shows@.len() ==> show_of(
                    #[trigger] shows@[k],
                    candidates(files@.take(i as int))[k],
                ),
        decreases files.len() - i,
    {
        let file = &files[i];
        proof {
            assert(files@.take(i + 1).drop_last() =~= files@.take(i as int));
            assert(files@.take(i + 1).last() == files@[i as int]);
        }
        match Show::new(file.full_path.clone(), file.file_name.clone(), file.file_size) {
            Some(show) => {
                shows.push(show);
            },
            None => {},
        }
        i = i + 1;
    }
    proof {
        assert(files@.take(files@.len() as int) =~= files@);
    }
    shows
}

/// Nothing that does not qualify is among the candidates of a listing: each
/// has a video's extension and at least 64 KiB.
pub proof fn lemma_candidates_qualify(files: Seq<FoundFile>)
    ensures
        forall|i: int|
            0 <= i < candidates(files).len() ==> qualifies(
                (#[trigger] candidates(files)[i]).file_name@,
                candidates(files)[i].file_size,
            ),
    decreases files.len(),
{
    if files.len() > 0 {
        lemma_candidates_qualify(files.drop_last());
        let rest = candidates(files.drop_last());
        assert forall|i: int| 0 <= i < candidates(files).len() implies qualifies(
            (#[trigger] candidates(files)[i]).file_name@,
            candidates(files)[i].file_size,
        ) by {
            if i < rest.len() {
                assert(candidates(files)[i] == rest[i]);
            }
        }
    }
}

} // verus!
