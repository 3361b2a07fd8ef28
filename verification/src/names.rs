//! Rules on file names: what a name's extension is, which files are videos
//! worth looking up, what the subtitle of a video is called, and which entry
//! of an archive is a subtitle.

use vstd::prelude::*;
use vstd::string::*;
use crate::fingerprint::HASH_BLK_SIZE;

verus! {

/// The characters of `text`, one by one.
pub fn chars_of(text: &str) -> (chars: Vec<char>)
    ensures
        chars@ == text@,
{
    let mut chars: Vec<char> = Vec::new();
    for c in it: text.chars()
        invariant
            it.seq() == text@,
            chars@ == text@.take(it.index() as int),
    {
        chars.push(c);
    }
    chars
}

/// The index of the last occurrence of `c` in `text`, or -1 where `text` does
/// not hold it.
pub open spec fn last_index_of(text: Seq<char>, c: char) -> int
    decreases text.len(),
{
    if text.len() == 0 {
        -1
    } else if text.last() == c {
        text.len() - 1
    } else {
        last_index_of(text.drop_last(), c)
    }
}

/// `last_index_of` names an occurrence of `c` after which there is no other,
/// or -1 where there is none at all.
pub proof fn lemma_last_index_of(text: Seq<char>, c: char)
    ensures
        -1 <= last_index_of(text, c) < text.len(),
        last_index_of(text, c) >= 0 ==> text[last_index_of(text, c)] == c,
        forall|j: int| last_index_of(text, c) < j < text.len() ==> text[j] != c,
    decreases text.len(),
{
    if text.len() > 0 && text.last() != c {
        lemma_last_index_of(text.drop_last(), c);
        assert forall|j: int| last_index_of(text, c) < j < text.len() implies text[j] != c by {
            if j < text.len() - 1 {
                assert(text.drop_last()[j] == text[j]);
            }
        }
    }
}

/// The part of a path after its last `/`: the whole of it where it has none.
pub open spec fn base_name(path: Seq<char>) -> Seq<char> {
    path.subrange(last_index_of(path, '/') + 1, path.len() as int)
}

/// The length of a file name without its extension. The extension starts at
/// the last `.`; a `.` at the very start of the name begins no extension.
pub open spec fn stem_len(name: Seq<char>) -> int {
    if last_index_of(name, '.') > 0 {
        last_index_of(name, '.')
    } else {
        name.len() as int
    }
}

/// The extension of a file name, without the `.`; empty where it has none.
pub open spec fn extension(name: Seq<char>) -> Seq<char> {
    if last_index_of(name, '.') > 0 {
        name.subrange(last_index_of(name, '.') + 1, name.len() as int)
    } else {
        Seq::empty()
    }
}

/// The name under which the subtitle of the video `name` is stored: the same
/// name with `srt` in place of its extension, or added to it where it has none.
pub open spec fn subtitle_name(name: Seq<char>) -> Seq<char> {
    name.subrange(0, stem_len(name)) + seq!['.', 's', 'r', 't']
}

/// Whether an archive's entry of this name is a subtitle: the extension of its
/// last path component is `srt`, in lower case.
pub open spec fn is_subtitle_entry(entry: Seq<char>) -> bool {
    extension(base_name(entry)) == seq!['s', 'r', 't']
}

/// Whether files of this extension are videos. The comparison is exact: `AVI`
/// is not `avi`.
pub open spec fn is_video_extension(ext: Seq<char>) -> bool {
    ||| ext == seq!['a', 'v', 'i']
    ||| ext == seq!['m', 'p', '4']
    ||| ext == seq!['m', '4', 'v']
    ||| ext == seq!['m', 'p', 'g']
    ||| ext == seq!['m', 'k', 'v']
    ||| ext == seq!['2', '6', '4']
    ||| ext == seq!['h', '2', '6', '4']
    ||| ext == seq!['2', '6', '5']
    ||| ext == seq!['h', '2', '6', '5']
}

/// Finds the last occurrence of `c`.
pub fn find_last(chars: &Vec<char>, c: char) -> (found: Option<usize>)
    ensures
        match found {
            Some(k) => k as int == last_index_of(chars@, c),
            None => last_index_of(chars@, c) == -1,
        },
{
    let mut i: usize = chars.len();
    proof {
        assert(chars@.take(i as int) =~= chars@);
    }
    while i > 0
        invariant
            i <= chars.len(),
            last_index_of(chars@, c) == last_index_of(chars@.take(i as int), c),
        decreases i,
    {
        if chars[i - 1] == c {
            return Some(i - 1);
        }
        proof {
            assert(chars@.take(i as int).drop_last() =~= chars@.take(i - 1));
        }
        i = i - 1;
    }
    None
}

/// Whether two texts hold the same characters.
pub fn same_text(a: &str, b: &str) -> (same: bool)
    ensures
        same == (a@ == b@),
{
    let x = chars_of(a);
    let y = chars_of(b);
    if x.len() != y.len() {
        return false;
    }
    let mut i: usize = 0;
    while i < x.len()
        invariant
            i <= x.len(),
            x.len() == y.len(),
            x@ == a@,
            y@ == b@,
            forall|j: int| 0 <= j < i ==> x[j] == y[j],
        decreases x.len() - i,
    {
        if x[i] != y[i] {
            return false;
        }
        i = i + 1;
    }
    proof {
        assert(x@ =~= y@);
    }
    true
}

/// The extension of a file name, without the `.`.
pub fn file_extension(name: &str) -> (ext: String)
    ensures
        ext@ == extension(name@),
{
    let chars = chars_of(name);
    proof {
        lemma_last_index_of(chars@, '.');
    }
    match find_last(&chars, '.') {
        Some(dot) => {
            if dot > 0 {
                assert(dot < chars.len());
                String::from_str(name.substring_char(dot + 1, chars.len()))
            } else {
                String::new()
            }
        },
        None => String::new(),
    }
}

/// The last component of a path whose components are parted by `/`.
pub fn path_base_name(path: &str) -> (base: &str)
    ensures
        base@ == base_name(path@),
{
    let chars = chars_of(path);
    proof {
        lemma_last_index_of(chars@, '/');
    }
    match find_last(&chars, '/') {
        Some(slash) => path.substring_char(slash + 1, chars.len()),
        None => path.substring_char(0, chars.len()),
    }
}

/// The name of the subtitle file that belongs to the video `name`.
pub fn subtitle_file_name(name: &str) -> (srt: String)
    ensures
        srt@ == subtitle_name(name@),
{
    let chars = chars_of(name);
    proof {
        lemma_last_index_of(chars@, '.');
        reveal_strlit(".srt");
    }
    let stem: usize = match find_last(&chars, '.') {
        Some(dot) => if dot > 0 {
            dot
        } else {
            chars.len()
        },
        None => chars.len(),
    };
    let mut srt = String::from_str(name.substring_char(0, stem));
    srt.append(".srt");
    srt
}

/// Whether an archive's entry of this name is a subtitle.
pub fn entry_is_subtitle(entry: &str) -> (yes: bool)
    ensures
        yes == is_subtitle_entry(entry@),
{
    let ext = file_extension(path_base_name(entry));
    proof {
        reveal_strlit("srt");
        assert("srt"@ =~= seq!['s', 'r', 't']);
    }
    same_text(ext.as_str(), "srt")
}

/// Whether files of this extension are videos.
pub fn video_extension(ext: &str) -> (yes: bool)
    ensures
        yes == is_video_extension(ext@),
{
    proof {
        reveal_strlit("avi");
        reveal_strlit("mp4");
        reveal_strlit("m4v");
        reveal_strlit("mpg");
        reveal_strlit("mkv");
        reveal_strlit("264");
        reveal_strlit("h264");
        reveal_strlit("265");
        reveal_strlit("h265");
        assert("avi"@ =~= seq!['a', 'v', 'i']);
        assert("mp4"@ =~= seq!['m', 'p', '4']);
        assert("m4v"@ =~= seq!['m', '4', 'v']);
        assert("mpg"@ =~= seq!['m', 'p', 'g']);
        assert("mkv"@ =~= seq!['m', 'k', 'v']);
        assert("264"@ =~= seq!['2', '6', '4']);
        assert("h264"@ =~= seq!['h', '2', '6', '4']);
        assert("265"@ =~= seq!['2', '6', '5']);
        assert("h265"@ =~= seq!['h', '2', '6', '5']);
    }
    same_text(ext, "avi") || same_text(ext, "mp4") || same_text(ext, "m4v") || same_text(
        ext,
        "mpg",
    ) || same_text(ext, "mkv") || same_text(ext, "264") || same_text(ext, "h264") || same_text(
        ext,
        "265",
    ) || same_text(ext, "h265")
}

/// Whether a file of this name and size is looked up at all: it is a video by
/// its extension, and it holds at least one whole window to fingerprint.
pub open spec fn qualifies(name: Seq<char>, size: u64) -> bool {
    size >= HASH_BLK_SIZE && is_video_extension(extension(name))
}

/// Whether a file of this name and size is looked up at all.
pub fn is_candidate(name: &str, size: u64) -> (yes: bool)
    ensures
        yes == qualifies(name@, size),
{
    if size < HASH_BLK_SIZE {
        return false;
    }
    let ext = file_extension(name);
    video_extension(ext.as_str())
}

} // verus!
