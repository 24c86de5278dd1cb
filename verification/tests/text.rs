use fido2kpxc::path::{file_name, is_absolute, join_path, strip_prefix};
use fido2kpxc::text::{
    contains, decimal, ends_with, insert_in_order, integer, join, parse_u64, starts_with, trim,
};
use std::path::Path;

const TEXTS: [&str; 14] = [
    "", " ", "a", " a ", "ab", "aab", "abab", "\t x y \n", "\u{a0}x\u{3000}", "x\u{200b}",
    "v\u{85}", "\u{e9}", "/", "//",
];

#[test]
fn searches_agree_with_the_standard_library() {
    for whole in TEXTS {
        for part in TEXTS {
            assert_eq!(contains(whole, part), whole.contains(part), "{whole:?} {part:?}");
            assert_eq!(starts_with(whole, part), whole.starts_with(part));
            assert_eq!(ends_with(whole, part), whole.ends_with(part));
        }
    }
}

#[test]
fn every_space_is_trimmed() {
    for text in TEXTS {
        assert_eq!(trim(text), text.trim(), "{text:?}");
    }
    for code in 0..0x3100u32 {
        if let Some(c) = char::from_u32(code) {
            let text = format!("{c}x{c}");
            assert_eq!(trim(&text), text.trim(), "{code:x}");
        }
    }
}

#[test]
fn numbers_read_as_they_are_written() {
    for n in [0, 1, 9, 10, 99, 3600, u64::MAX / 10, u64::MAX - 1, u64::MAX] {
        assert_eq!(decimal(n), n.to_string());
        assert_eq!(parse_u64(&decimal(n)), Some(n));
    }
    for n in [0, -1, 1, i64::MIN, i64::MAX, -20] {
        assert_eq!(integer(n), n.to_string());
    }
    for text in [
        "", "+", "-", "+7", "-0", "007", " 7", "7 ", "1_0", "18446744073709551616", "\u{663}",
        "18446744073709551615", "99999999999999999999999", "++7", "0x1",
    ] {
        assert_eq!(parse_u64(text), text.parse().ok(), "{text:?}");
    }
}

#[test]
fn texts_are_joined() {
    let items = |list: &[&str]| list.iter().map(|s| s.to_string()).collect::<Vec<_>>();
    for list in [&[][..], &["a"], &["a", "", "b"]] {
        assert_eq!(join(&items(list), ", "), list.join(", "));
    }
}

#[test]
fn insertion_keeps_the_order() {
    let mut sorted = Vec::new();
    let mut expected = TEXTS.map(str::to_owned).to_vec();
    for text in TEXTS {
        insert_in_order(&mut sorted, text.to_owned());
    }
    expected.sort();
    assert_eq!(sorted, expected);
}

const PATHS: [&str; 26] = [
    "", "/", "//", ".", "./", "..", "./.", "~", "~/", "~/a", "~//a/./b/", "~a", "./~", "/a", "/a/",
    "/a/b", "/a//b/.", "/a/./b", "/./a", "a", "a/b", "a/..", "/..", "/a/../b", "./a", "/a/b/c",
];

#[test]
fn paths_come_apart_as_in_the_standard_library() {
    for path in PATHS {
        for base in PATHS {
            let expected = Path::new(path).strip_prefix(base).ok();
            assert_eq!(
                strip_prefix(path, base).as_deref(),
                expected.map(|p| p.to_str().unwrap()),
                "{path:?} {base:?}"
            );
            assert_eq!(
                join_path(path, base),
                Path::new(path).join(base).to_str().unwrap(),
                "{path:?} {base:?}"
            );
        }
        assert_eq!(
            file_name(path).as_deref(),
            Path::new(path).file_name().map(|n| n.to_str().unwrap()),
            "{path:?}"
        );
        assert_eq!(is_absolute(path), Path::new(path).is_absolute());
    }
}
