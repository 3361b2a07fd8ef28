use std::io::{Cursor, Write};
use sub_finder::archive::download_to_srt;
use sub_finder::error::SubError;
use zip::write::FileOptions;
use zip::{CompressionMethod, ZipWriter};

const SUBTITLE: &[u8] = b"1\n00:00:01,000 --> 00:00:02,000\nHello\n";

fn archive(entries: &[(&str, &[u8])], method: CompressionMethod) -> Vec<u8> {
    let mut writer = ZipWriter::new(Cursor::new(Vec::new()));
    for (name, content) in entries {
        writer.start_file(*name, FileOptions::default().compression_method(method)).unwrap();
        writer.write_all(content).unwrap();
    }
    writer.finish().unwrap().into_inner()
}

#[test]
fn subtitle_is_unpacked() {
    let data = archive(&[("sub.srt", SUBTITLE)], CompressionMethod::Deflated);
    assert_eq!(download_to_srt(data), Ok(SUBTITLE.to_vec()));
}

#[test]
fn stored_subtitle_is_unpacked() {
    let data = archive(&[("sub.srt", SUBTITLE)], CompressionMethod::Stored);
    assert_ne!(data, SUBTITLE.to_vec());
    assert_eq!(download_to_srt(data), Ok(SUBTITLE.to_vec()));
}

#[test]
fn first_subtitle_in_the_archive_order_wins() {
    let data = archive(
        &[("readme.nfo", b"hello"), ("z.srt", b"first"), ("a.srt", b"second")],
        CompressionMethod::Deflated,
    );
    assert_eq!(download_to_srt(data), Ok(b"first".to_vec()));
}

#[test]
fn subtitle_in_a_directory_is_found() {
    let data = archive(
        &[("subs.srt/readme", b"no"), ("subs/movie.srt", b"yes")],
        CompressionMethod::Deflated,
    );
    assert_eq!(download_to_srt(data), Ok(b"yes".to_vec()));
}

#[test]
fn empty_subtitle_is_unpacked_as_empty() {
    let data = archive(&[("sub.srt", b"")], CompressionMethod::Deflated);
    assert_eq!(download_to_srt(data), Ok(Vec::new()));
}

#[test]
fn archive_without_subtitle_is_empty() {
    let data = archive(
        &[("readme.txt", b"hello"), ("sub.SRT", b"upper"), ("sub.srt.bak", b"old"), (".srt", b"x")],
        CompressionMethod::Deflated,
    );
    assert_eq!(download_to_srt(data), Err(SubError::ZipEmpty));
}

#[test]
fn archive_without_entries_is_empty() {
    let data = archive(&[], CompressionMethod::Deflated);
    assert_eq!(download_to_srt(data), Err(SubError::ZipEmpty));
}

#[test]
fn bytes_that_are_no_archive_are_refused() {
    assert!(matches!(download_to_srt(Vec::new()), Err(SubError::Zip(_))));
    assert!(matches!(download_to_srt(b"<html>not found</html>".to_vec()), Err(SubError::Zip(_))));
    assert!(matches!(download_to_srt(SUBTITLE.to_vec()), Err(SubError::Zip(_))));
}

#[test]
fn cut_archive_is_refused() {
    let mut data = archive(&[("sub.srt", SUBTITLE)], CompressionMethod::Deflated);
    data.truncate(data.len() - 10);
    assert!(matches!(download_to_srt(data), Err(SubError::Zip(_))));
}

#[test]
fn damaged_subtitle_is_a_failed_read() {
    let mut data = archive(&[("sub.srt", SUBTITLE)], CompressionMethod::Stored);
    let at = data.windows(5).position(|w| w == b"Hello").unwrap();
    data[at] = b'J';
    assert!(matches!(download_to_srt(data), Err(SubError::Io(_))));
}

#[test]
fn entry_that_cannot_be_opened_stops_the_scan() {
    let mut data = archive(
        &[("readme.txt", b"hello"), ("sub.srt", SUBTITLE)],
        CompressionMethod::Stored,
    );
    data[0] = b'X';
    assert!(matches!(download_to_srt(data), Err(SubError::Zip(_))));
}

#[test]
fn entry_after_the_subtitle_is_not_opened() {
    let mut data = archive(
        &[("sub.srt", SUBTITLE), ("readme.txt", b"hello")],
        CompressionMethod::Stored,
    );
    let second = data.windows(4).rposition(|w| w == [0x50, 0x4b, 0x03, 0x04]).unwrap();
    assert!(second > 0);
    data[second] = b'X';
    assert_eq!(download_to_srt(data), Ok(SUBTITLE.to_vec()));
}

#[test]
fn zip_failure_carries_a_text() {
    match download_to_srt(b"nothing".to_vec()) {
        Err(SubError::Zip(text)) => assert!(text.contains("Invalid")),
        other => panic!("{:?}", other),
    }
}

#[test]
fn encrypted_subtitle_is_not_unpacked() {
    let mut data = archive(&[("sub.srt", SUBTITLE)], CompressionMethod::Stored);
    let directory = data.windows(4).position(|w| w == [0x50, 0x4b, 0x01, 0x02]).unwrap();
    data[directory + 8] |= 1;
    let result = download_to_srt(data);
    assert!(matches!(result, Err(SubError::Zip(_)) | Err(SubError::Io(_))), "{:?}", result);
}
