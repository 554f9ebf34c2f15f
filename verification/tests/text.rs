use std::path::Path;

use pam_daemon::digest::{sha256, sha256_hex};
use pam_daemon::numbers::{read_number, read_plain_number};
use pam_daemon::ordered::ordered_texts;
use pam_daemon::paths::{
    join_path, path_climbs, path_components, path_is_absolute, path_is_normal, path_parent,
    path_starts_with, paths_equal,
};
use pam_daemon::split::{
    lowercase_ascii, split_text, split_text_terminated, trim_quotes, uppercase_ascii,
};
use pam_daemon::text::{
    byte_len, char_width, contains_control, decimal_text, decode_text, hex_text, is_control,
    is_whitespace, padded_decimal_text, same_text, starts_with, strip_prefix, trim, trim_start,
    truncate_text,
};

#[test]
fn character_classes_agree_with_the_standard_library() {
    for code in 0..=0x10_ffff_u32 {
        if let Some(character) = char::from_u32(code) {
            assert_eq!(is_whitespace(character), character.is_whitespace(), "{code:x}");
            assert_eq!(is_control(character), character.is_control(), "{code:x}");
            assert_eq!(char_width(character), character.len_utf8(), "{code:x}");
        }
    }
}

#[test]
fn texts_are_cut_between_characters() {
    assert_eq!(truncate_text("añb", 2), "a");
    assert_eq!(truncate_text("añb", 3), "añ");
    assert_eq!(truncate_text("añb", 4), "añb");
    assert_eq!(truncate_text("añb", 0), "");
    assert_eq!(byte_len("añb"), 4);
}

#[test]
fn texts_are_trimmed_and_compared() {
    for text in ["", "  ", " a b ", "\u{2003}x\u{a0}", "x"] {
        assert_eq!(trim(text), text.trim());
        assert_eq!(trim_start(text), text.trim_start());
    }
    assert!(same_text("a", "a"));
    assert!(!same_text("a", "ab"));
    assert!(starts_with("abc", "ab"));
    assert!(!starts_with("a", "ab"));
    assert_eq!(strip_prefix("abc", "ab"), Some("c".to_owned()));
    assert_eq!(strip_prefix("abc", "b"), None);
    assert!(contains_control("a\u{1}"));
    assert!(!contains_control("plain"));
}

#[test]
fn numerals_are_written_and_read() {
    for value in [0, 7, 10, 512, u64::MAX] {
        assert_eq!(decimal_text(value), value.to_string());
        assert_eq!(read_plain_number(&value.to_string()), Some(value));
    }
    assert_eq!(padded_decimal_text(7, 3), "007");
    assert_eq!(padded_decimal_text(12345, 4), "12345");
    assert_eq!(read_number("+5"), Some(5));
    assert_eq!(read_plain_number("+5"), None);
    assert_eq!(read_plain_number(""), None);
    assert_eq!(read_plain_number("18446744073709551616"), None);
    assert_eq!(hex_text(&[0, 15, 255]), "000fff");
}

#[test]
fn bytes_are_text_only_where_they_are_utf8() {
    assert_eq!(decode_text("é".as_bytes()), Some("é"));
    assert_eq!(decode_text(&[0xc3]), None);
}

#[test]
fn texts_are_split_and_folded() {
    assert_eq!(split_text("a,b,,", ','), vec!["a", "b", "", ""]);
    assert_eq!(split_text_terminated("a\0b\0", '\0'), vec!["a", "b"]);
    assert_eq!(split_text_terminated("a\0b", '\0'), vec!["a", "b"]);
    assert_eq!(lowercase_ascii("ABÉ"), "abÉ");
    assert_eq!(uppercase_ascii("abé"), "ABé");
    assert_eq!(trim_quotes("\"\"x\""), "x");
}

#[test]
fn paths_read_as_the_standard_library_reads_them() {
    for path in [
        "/", "/a/b", "/a//b/", "/a/./b", "a/b", "./a", "a/..", "/..", "", ".", "..", "//a", "a/.",
    ] {
        let expected: Vec<String> = Path::new(path)
            .components()
            .map(|part| part.as_os_str().to_str().expect("text").to_owned())
            .collect();
        assert_eq!(path_components(path), expected, "{path}");
        assert_eq!(path_is_absolute(path), Path::new(path).is_absolute(), "{path}");
        assert_eq!(
            path_parent(path).as_deref().map(Path::new),
            Path::new(path).parent(),
            "{path}"
        );
        for other in ["/a", "/a/b", "a", "", "/", "..", "./a"] {
            assert_eq!(
                path_starts_with(path, other),
                Path::new(path).starts_with(other),
                "{path} {other}"
            );
            assert_eq!(
                paths_equal(path, other),
                Path::new(path) == Path::new(other),
                "{path} {other}"
            );
            assert_eq!(
                Path::new(&join_path(path, other)),
                Path::new(path).join(other),
                "{path} {other}"
            );
        }
    }
    assert!(path_climbs("a/../b"));
    assert!(!path_climbs("a/b"));
    assert!(path_is_normal("a/b"));
    assert!(!path_is_normal("/a"));
}

#[test]
fn digests_are_sha256() {
    assert_eq!(
        sha256_hex(b"abc"),
        "ba7816bf8f01cfea414140de5dae2223b00361a396177a9cb410ff61f20015ad"
    );
    assert_eq!(
        hex_text(&sha256(b"")),
        "e3b0c44298fc1c149afbf4c8996fb92427ae41e4649b934ca495991b7852b855"
    );
}

#[test]
fn texts_are_ordered_once_each() {
    let given: Vec<String> = ["b", "a", "b", "aa", ""].map(str::to_owned).to_vec();
    assert_eq!(ordered_texts(&given), vec!["", "a", "aa", "b"]);
}
