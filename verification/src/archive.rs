//! Unpacking the subtitle from a downloaded archive.
//!
//! The archive is read by the `zip` crate. What that crate finds in a given
//! run of bytes is not spelled out here: it has names, `zip_entry_count`,
//! `zip_entry_name` and `zip_entry_content`, and the functions of this module
//! say what they return in terms of those. Entries are opened with an empty
//! password: an entry that is encrypted under another cannot be opened.

use vstd::prelude::*;
use vstd::string::*;
use std::io::Cursor;
use zip::result::ZipError;
use zip::ZipArchive;
use crate::error::SubError;
use crate::names::{entry_is_subtitle, is_subtitle_entry};

verus! {

/// `zip::ZipArchive`, a reader of archives. Nothing inside it is visible here.
#[verifier::external_type_specification]
#[verifier::external_body]
#[verifier::reject_recursive_types(R)]
pub struct ExZipArchive<R>(zip::ZipArchive<R>);

/// `std::io::Cursor`, which lets bytes in memory be read like a file.
#[verifier::external_type_specification]
#[verifier::external_body]
#[verifier::reject_recursive_types(T)]
pub struct ExCursor<T>(std::io::Cursor<T>);

/// `zip::result::ZipError`, the failure of a call into the `zip` crate.
#[verifier::external_type_specification]
#[verifier::external_body]
pub struct ExZipError(zip::result::ZipError);

/// The number of entries that `zip::ZipArchive::new` finds in `data`; `None`
/// where it rejects `data`.
pub uninterp spec fn zip_entry_count(data: Seq<u8>) -> Option<nat>;

/// The name of entry `index` of the archive `data`, as
/// `ZipArchive::by_index_decrypt` with an empty password and `ZipFile::name`
/// give it; `None` where the entry cannot be opened in that way.
pub uninterp spec fn zip_entry_name(data: Seq<u8>, index: nat) -> Option<Seq<char>>;

/// The unpacked bytes of entry `index` of the archive `data`, as reading the
/// `ZipFile` of `ZipArchive::by_index_decrypt` with an empty password to its
/// end gives them; `None` where opening or reading it fails.
pub uninterp spec fn zip_entry_content(data: Seq<u8>, index: nat) -> Option<Seq<u8>>;

/// The bytes that an archive was opened on.
pub uninterp spec fn archive_source(archive: ZipArchive<Cursor<Vec<u8>>>) -> Seq<u8>;

/// Calls `zip::ZipArchive::new` on `data`, which reads the directory at the
/// end of the archive. The claim: it succeeds or fails by `data` alone, and an
/// archive that it returns reads from `data`.
#[verifier::external_body]
fn open_archive(data: Vec<u8>) -> (opened: Result<ZipArchive<Cursor<Vec<u8>>>, ZipError>)
    ensures
        opened matches Ok(archive) ==> zip_entry_count(data@) is Some && archive_source(archive)
            == data@,
        opened is Err ==> zip_entry_count(data@) is None,
{
    ZipArchive::new(Cursor::new(data))
}

/// Calls `ZipArchive::len`: the number of entries in the directory that `new`
/// has read.
#[verifier::external_body]
fn archive_len(archive: &ZipArchive<Cursor<Vec<u8>>>) -> (count: usize)
    ensures
        zip_entry_count(archive_source(*archive)) == Some(count as nat),
{
    archive.len()
}

/// Calls `ZipArchive::by_index_decrypt` with an empty password, and
/// `ZipFile::name`. An entry that is not encrypted is opened as `by_index`
/// opens it, the password unused. Unlike `by_index`, which unwraps, this call
/// hands a refused password back as a value: that is `Ok(None)` here. It
/// returns an error for an index past the end and for an unknown compression.
/// It seeks to the entry's header by its absolute offset, so what it returns
/// depends on the archive's bytes and the index alone.
#[verifier::external_body]
fn entry_name(archive: &mut ZipArchive<Cursor<Vec<u8>>>, index: usize) -> (name: Result<
    Option<String>,
    ZipError,
>)
    ensures
        archive_source(*final(archive)) == archive_source(*old(archive)),
        name matches Ok(Some(text)) ==> zip_entry_name(
            archive_source(*old(archive)),
            index as nat,
        ) == Some(text@),
        !(name matches Ok(Some(_))) ==> zip_entry_name(
            archive_source(*old(archive)),
            index as nat,
        ) is None,
{
    match archive.by_index_decrypt(index, b"")? {
        Ok(file) => Ok(Some(file.name().to_string())),
        Err(_) => Ok(None),
    }
}

/// Calls `ZipArchive::by_index_decrypt` with an empty password and reads the
/// `ZipFile` to its end with `std::io::copy`, which unpacks the entry and
/// checks its CRC. A refused password is `Ok(None)`; a failed read comes back
/// as `ZipError::Io`.
#[verifier::external_body]
fn entry_content(archive: &mut ZipArchive<Cursor<Vec<u8>>>, index: usize) -> (content: Result<
    Option<Vec<u8>>,
    ZipError,
>)
    ensures
        archive_source(*final(archive)) == archive_source(*old(archive)),
        content matches Ok(Some(bytes)) ==> zip_entry_content(
            archive_source(*old(archive)),
            index as nat,
        ) == Some(bytes@),
        !(content matches Ok(Some(_))) ==> zip_entry_content(
            archive_source(*old(archive)),
            index as nat,
        ) is None,
{
    match archive.by_index_decrypt(index, b"")? {
        Ok(mut file) => {
            let mut bytes: Vec<u8> = Vec::new();
            std::io::copy(&mut file, &mut bytes)?;
            Ok(Some(bytes))
        },
        Err(_) => Ok(None),
    }
}

/// Formats a `ZipError` with its `Debug` impl. Nothing is claimed of the
/// text.
#[verifier::external_body]
fn zip_error_text(error: &ZipError) -> String {
    format!("{:?}", error)
}
/// What the failure says of an entry that an empty password does not open.
fn password_required() -> (text: String)
    ensures
        text@ == "Password required to decrypt file"@,
{
    String::from_str("Password required to decrypt file")
}

/// Whether the scan for a subtitle stops at entry `index`: it is a subtitle,
/// or it cannot be opened.
pub open spec fn stops_at(data: Seq<u8>, index: nat) -> bool {
    match zip_entry_name(data, index) {
        None => true,
        Some(name) => is_subtitle_entry(name),
    }
}

/// The first of the entries `0..count` at which the scan stops, if any.
pub open spec fn first_stop(data: Seq<u8>, count: nat) -> Option<nat>
    decreases count,
{
    if count == 0 {
        None
    } else {
        match first_stop(data, (count - 1) as nat) {
            Some(index) => Some(index),
            None => if stops_at(data, (count - 1) as nat) {
                Some((count - 1) as nat)
            } else {
                None
            },
        }
    }
}

/// What the scan of an archive for its subtitle comes to.
pub enum Located {
    /// The bytes are no archive that can be read.
    Unreadable,
    /// Every entry can be opened and none is a subtitle.
    NoSubtitle,
    /// The entry of this index cannot be opened, and no entry before it is a
    /// subtitle.
    BrokenEntry(nat),
    /// The entry of this index is the first subtitle, and every entry before
    /// it can be opened.
    Subtitle(nat),
}

/// Scans the entries of `data` in order for the first whose name has the
/// extension `srt`.
pub open spec fn locate(data: Seq<u8>) -> Located {
    match zip_entry_count(data) {
        None => Located::Unreadable,
        Some(count) => match first_stop(data, count) {
            None => Located::NoSubtitle,
            Some(index) => if zip_entry_name(data, index) is None {
                Located::BrokenEntry(index)
            } else {
                Located::Subtitle(index)
            },
        },
    }
}

/// A stop that is found among the first entries stays the first stop when
/// more entries are looked at.
proof fn lemma_first_stop_extends(data: Seq<u8>, index: nat, count: nat)
    requires
        index < count,
        first_stop(data, index) is None,
        stops_at(data, index),
    ensures
        first_stop(data, count) == Some(index),
    decreases count,
{
    if count > index + 1 {
        lemma_first_stop_extends(data, index, (count - 1) as nat);
    }
}

/// The first stop is an entry at which the scan stops, and it stops at none
/// before it.
pub proof fn lemma_first_stop(data: Seq<u8>, count: nat)
    ensures
        match first_stop(data, count) {
            Some(index) => index < count && stops_at(data, index) && forall|i: nat|
                i < index ==> !#[trigger] stops_at(data, i),
            None => forall|i: nat| i < count ==> !#[trigger] stops_at(data, i),
        },
    decreases count,
{
    if count > 0 {
        lemma_first_stop(data, (count - 1) as nat);
    }
}

/// Unpacks the subtitle from a downloaded archive: the content of the first
/// entry, in the archive's order, whose name has the extension `srt`.
///
/// Bytes that are no readable archive, and an entry before the subtitle that
/// cannot be opened, give `Zip`. An archive without a subtitle gives
/// `ZipEmpty`. A subtitle that cannot be unpacked gives `Io`.
pub fn download_to_srt(data: Vec<u8>) -> (result: Result<Vec<u8>, SubError>)
    ensures
        match locate(data@) {
            Located::Unreadable => result matches Err(SubError::Zip(_)),
            Located::BrokenEntry(_) => result matches Err(SubError::Zip(_)),
            Located::NoSubtitle => result matches Err(SubError::ZipEmpty),
            Located::Subtitle(index) => match zip_entry_content(data@, index) {
                Some(bytes) => result matches Ok(payload) && payload@ == bytes,
                None => result matches Err(SubError::Io(_)),
            },
        },
{
    let ghost source = data@;
    let mut archive = match open_archive(data) {
        Ok(archive) => archive,
        Err(error) => {
            return Err(SubError::Zip(zip_error_text(&error)));
        },
    };
    let count: usize = archive_len(&archive);
    let mut index: usize = 0;
    while index < count
        invariant
            index <= count,
            source == data@,
            archive_source(archive) == source,
            zip_entry_count(source) == Some(count as nat),
            first_stop(source, index as nat) is None,
        decreases count - index,
    {
        match entry_name(&mut archive, index) {
            Err(error) => {
                proof {
                    lemma_first_stop_extends(source, index as nat, count as nat);
                }
                return Err(SubError::Zip(zip_error_text(&error)));
            },
            Ok(None) => {
                proof {
                    lemma_first_stop_extends(source, index as nat, count as nat);
                }
                return Err(SubError::Zip(password_required()));
            },
            Ok(Some(name)) => {
                if entry_is_subtitle(name.as_str()) {
                    proof {
                        lemma_first_stop_extends(source, index as nat, count as nat);
                    }
                    return match entry_content(&mut archive, index) {
                        Ok(Some(payload)) => Ok(payload),
                        Ok(None) => Err(SubError::Io(password_required())),
                        Err(error) => Err(SubError::Io(zip_error_text(&error))),
                    };
                }
            },
        }
        index = index + 1;
    }
    Err(SubError::ZipEmpty)
}

} // verus!
