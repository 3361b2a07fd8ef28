use sub_finder::names::{
    chars_of, entry_is_subtitle, file_extension, find_last, is_candidate, path_base_name,
    same_text, subtitle_file_name, video_extension,
};

#[test]
fn chars_are_handed_out_in_order() {
    assert_eq!(chars_of("a.b"), vec!['a', '.', 'b']);
    assert_eq!(chars_of(""), Vec::<char>::new());
    assert_eq!(chars_of("é±"), vec!['é', '±']);
}

#[test]
fn last_occurrence_is_found() {
    assert_eq!(find_last(&chars_of("a.b.c"), '.'), Some(3));
    assert_eq!(find_last(&chars_of(".abc"), '.'), Some(0));
    assert_eq!(find_last(&chars_of("abc"), '.'), None);
    assert_eq!(find_last(&chars_of(""), '.'), None);
}

#[test]
fn texts_are_compared_exactly() {
    assert!(same_text("srt", "srt"));
    assert!(!same_text("srt", "SRT"));
    assert!(!same_text("srt", "srt "));
    assert!(same_text("", ""));
}

#[test]
fn extension_follows_the_last_dot() {
    assert_eq!(file_extension("movie.avi"), "avi");
    assert_eq!(file_extension("a.b.mkv"), "mkv");
    assert_eq!(file_extension("movie"), "");
    assert_eq!(file_extension("movie."), "");
    assert_eq!(file_extension(".avi"), "");
    assert_eq!(file_extension("..avi"), "avi");
}

#[test]
fn base_name_follows_the_last_slash() {
    assert_eq!(path_base_name("dir/sub.srt"), "sub.srt");
    assert_eq!(path_base_name("a/b/c"), "c");
    assert_eq!(path_base_name("plain"), "plain");
    assert_eq!(path_base_name("dir/"), "");
}

#[test]
fn subtitle_name_replaces_the_extension() {
    assert_eq!(subtitle_file_name("movie.avi"), "movie.srt");
    assert_eq!(subtitle_file_name("a.b.mkv"), "a.b.srt");
    assert_eq!(subtitle_file_name("movie"), "movie.srt");
    assert_eq!(subtitle_file_name("movie."), "movie.srt");
    assert_eq!(subtitle_file_name(".hidden"), ".hidden.srt");
    assert_eq!(subtitle_file_name(""), ".srt");
}

#[test]
fn subtitle_entries_end_in_lowercase_srt() {
    assert!(entry_is_subtitle("sub.srt"));
    assert!(entry_is_subtitle("dir/sub.srt"));
    assert!(entry_is_subtitle("a.b.srt"));
    assert!(!entry_is_subtitle("sub.SRT"));
    assert!(!entry_is_subtitle("sub.srt.txt"));
    assert!(!entry_is_subtitle("readme.nfo"));
    assert!(!entry_is_subtitle(".srt"));
    assert!(!entry_is_subtitle("dir/.srt"));
    assert!(!entry_is_subtitle("dir.srt/readme"));
    assert!(!entry_is_subtitle("srt"));
    assert!(!entry_is_subtitle(""));
}

#[test]
fn video_extensions_are_the_nine() {
    for ext in ["avi", "mp4", "m4v", "mpg", "mkv", "264", "h264", "265", "h265"] {
        assert!(video_extension(ext), "{}", ext);
    }
    for ext in ["", "AVI", "srt", "mp3", "h266", "avi ", "mov"] {
        assert!(!video_extension(ext), "{}", ext);
    }
}

#[test]
fn candidates_are_videos_of_at_least_one_window() {
    assert!(is_candidate("movie.avi", 65536));
    assert!(is_candidate("movie.avi", 100000));
    assert!(is_candidate("movie.h265", u64::MAX));
    assert!(!is_candidate("movie.avi", 65535));
    assert!(!is_candidate("movie.avi", 0));
    assert!(!is_candidate("movie.txt", 100000));
    assert!(!is_candidate("movie", 100000));
    assert!(!is_candidate(".avi", 100000));
    assert!(!is_candidate("movie.AVI", 100000));
}
