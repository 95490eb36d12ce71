use music_backend::files::{
    audio_file_name, file_extension, is_audio_name, join, temp_name, track_dir, tracks_dir,
};
use music_backend::text::{
    chars_of, decimal, in_text_order, is_blank, is_white_space, parse_unsigned, signed_decimal,
    starts_with,
};

#[test]
fn chars_keep_their_order() {
    assert_eq!(chars_of(""), Vec::<char>::new());
    assert_eq!(chars_of("a\u{1f3b5}b"), vec!['a', '\u{1f3b5}', 'b']);
}

#[test]
fn white_space_is_what_trim_removes() {
    for u in 0u32..=0x10ffff {
        if let Some(c) = char::from_u32(u) {
            assert_eq!(is_white_space(c), c.to_string().trim().is_empty(), "U+{:04X}", u);
        }
    }
}

#[test]
fn blank_text_has_nothing_but_white_space() {
    assert!(is_blank(""));
    assert!(is_blank(" \t\r\n\u{a0}\u{3000}"));
    assert!(!is_blank("  x  "));
    assert!(!is_blank("\u{200b}"));
}

#[test]
fn prefixes() {
    assert!(starts_with("audio.mp3", "audio."));
    assert!(starts_with("audio.", "audio."));
    assert!(!starts_with("audio", "audio."));
    assert!(!starts_with("Audio.mp3", "audio."));
    assert!(starts_with("", ""));
}

#[test]
fn text_order_is_that_of_strings() {
    let words = ["", "a", "ab", "abc", "b", "B", "\u{e9}", "\u{ffff}", "\u{10000}", "z", " ", "ab "];
    for a in words {
        for b in words {
            assert_eq!(in_text_order(a, b), a <= b, "{:?} {:?}", a, b);
        }
    }
}

#[test]
fn decimals() {
    for n in [0u64, 7, 9, 10, 99, 100, 26214400, u64::MAX] {
        assert_eq!(decimal(n), n.to_string());
    }
    for n in [0i32, 2, -1, -255, i32::MAX, i32::MIN] {
        assert_eq!(signed_decimal(n), n.to_string());
    }
}

#[test]
fn unsigned_numbers_are_parsed_as_the_language_does() {
    let inputs = [
        "", "+", "-", "0", "00", "+0", "-0", "7", "+7", "-7", " 7", "7 ", "1_000", "0x10", "12a", "a12",
        "++1", "65535", "65536", "18446744073709551615", "18446744073709551616",
        "0000000000000000000000000000001", "99999999999999999999999", "\u{664}",
    ];
    for s in inputs {
        assert_eq!(parse_unsigned(s, u64::MAX), s.parse::<u64>().ok(), "{:?}", s);
        assert_eq!(
            parse_unsigned(s, u16::MAX as u64),
            s.parse::<u16>().ok().map(|n| n as u64),
            "{:?}",
            s
        );
    }
    assert_eq!(parse_unsigned("4", 3), None);
    assert_eq!(parse_unsigned("3", 3), Some(3));
}

#[test]
fn extensions_are_those_of_paths() {
    let names = [
        "", ".", "..", "...", "a", "a.", ".a", ".a.b", "a.b", "a.b.c", "a..", "..a", "a..b", "/", "//",
        "a/b.c", "a.b/c", "a.b/", "a.b//", "a.b/.", "a.b/./", "a.b/.//", "a.b/..", "a.b/../", "./a.b",
        "./.", "/.", "/..", "/a.b", "song.mp3", "song.tar.gz", "s\u{f6}ng.\u{1f3b5}", "a b.c d", "a\\b.c",
        ".../x", "a.b/...", "x/.hidden", "x/.hidden.y",
    ];
    for name in names {
        let expected = std::path::Path::new(name)
            .extension()
            .and_then(|s| s.to_str())
            .map(|s| s.to_string());
        assert_eq!(file_extension(name), expected, "{:?}", name);
    }
}

#[test]
fn upload_names() {
    assert_eq!(audio_file_name("song.mp3"), "audio.mp3");
    assert_eq!(audio_file_name("dir/song.tar.gz"), "audio.gz");
    assert_eq!(audio_file_name("song"), "audio.bin");
    assert_eq!(audio_file_name("song."), "audio.");
    assert_eq!(audio_file_name("audio"), "audio.bin");
    assert_eq!(temp_name("42"), "tmp-upload-42.bin");
}

#[test]
fn only_accepted_files_are_named_audio() {
    for name in ["song.mp3", "song", "", ".hidden", "x/.."] {
        assert!(is_audio_name(&audio_file_name(name)));
    }
    assert!(!is_audio_name(&temp_name("audio.")));
    assert!(!is_audio_name("audio"));
}

#[test]
fn paths_are_joined_as_on_unix() {
    for dir in ["", "/", "a", "a/", "a/b", "a//", "/a", "."] {
        for name in ["", "b", "/b", "b/c", ".", "..", "/"] {
            let expected = std::path::Path::new(dir).join(name);
            assert_eq!(join(dir, name), expected.to_str().unwrap(), "{:?} {:?}", dir, name);
        }
    }
    assert_eq!(tracks_dir("uploads"), "uploads/tracks");
    assert_eq!(track_dir("uploads/", "x"), "uploads/tracks/x");
}

#[test]
fn audio_file_names_hold_no_slash() {
    for name in ["../../etc/x.mp3", "a.b/c", "/", "a.b/", "x.y/z.w", "a.b/.."] {
        let kept = audio_file_name(name);
        assert!(!kept.contains('/'), "{:?}", kept);
        assert_eq!(join("d", &kept), format!("d/{}", kept));
    }
    assert_eq!(audio_file_name("../../etc/x.mp3"), "audio.mp3");
    assert_eq!(audio_file_name("x.y\\z"), "audio.y\\z");
}
