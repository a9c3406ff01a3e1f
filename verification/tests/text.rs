use aosc_exec_guard::order::{compare_le, sort_indices};
use aosc_exec_guard::paths::{
    get_file_name, join, strip_root, strip_suffix, to_bytes, with_file_name,
};
use aosc_exec_guard::text::{
    chars_of, contains, find, hex_digit, is_white, push_numeral, same_str, split_fields,
    split_lines, starts_with, string_of, strip_prefix, to_lower, trim,
};
use std::path::Path;

const SAMPLES: [&str; 16] = [
    "",
    "\n",
    "\r\n",
    "a",
    "a\n",
    "a\r\n",
    "a\r",
    "a\r\r\n",
    "a\n\nb",
    " a b ",
    "\u{3000}x\u{2028}",
    ":a:b::c:",
    "qemu = always # x",
    "中文 KDE\t",
    "ÀB\u{85}",
    "x\r\ny\rz\n",
];

#[test]
fn white_space_is_that_of_unicode() {
    for n in 0..=0x10ffff {
        if let Some(c) = char::from_u32(n) {
            assert_eq!(is_white(c), c.is_whitespace(), "{n:x}");
            assert_eq!(hex_digit(c).map(u32::from), c.to_digit(16));
        }
    }
}

#[test]
fn text_is_read_as_the_standard_library_reads_it() {
    for sample in SAMPLES {
        let chars = chars_of(sample);
        assert_eq!(string_of(&chars), sample);
        assert_eq!(string_of(trim(&chars)), sample.trim());
        let lines: Vec<String> = split_lines(&chars).into_iter().map(string_of).collect();
        let expected: Vec<&str> = sample.lines().collect();
        assert_eq!(lines, expected);
        for n in 1..4 {
            let fields: Vec<String> =
                split_fields(&chars, ':', n).into_iter().map(string_of).collect();
            let expected: Vec<&str> = sample.splitn(n, ':').collect();
            assert_eq!(fields, expected);
        }
        assert_eq!(string_of(&to_lower(&chars)), sample.to_ascii_lowercase());
        let place = sample.chars().position(|c| c == ':').unwrap_or(chars.len());
        assert_eq!(find(&chars, ':'), place);
        for part in SAMPLES {
            assert_eq!(contains(&chars, part), sample.contains(part));
            assert_eq!(starts_with(&chars, part), sample.starts_with(part));
            assert_eq!(
                strip_prefix(&chars, part).map(string_of).as_deref(),
                sample.strip_prefix(part)
            );
            assert_eq!(same_str(sample, part), sample == part);
        }
    }
}

#[test]
fn numerals_are_written() {
    for n in [0, 1, 9, 10, 15, 16, 126, 255, 4096, u64::MAX] {
        let mut s = "n=".to_string();
        push_numeral(&mut s, n, 10);
        assert_eq!(s, format!("n={n}"));
        let mut s = String::new();
        push_numeral(&mut s, n, 16);
        assert_eq!(s, format!("{n:x}"));
        let mut s = String::new();
        push_numeral(&mut s, n, 2);
        assert_eq!(s, format!("{n:b}"));
    }
}

#[test]
fn paths_are_read_as_the_standard_library_reads_them() {
    let samples = [
        "", "/", "//", ".", "..", "./", "./a", "a", "a/", "a//", "a/.", "a/./", "a/..", "/a", "//a",
        "/./a", "/a/b", "/a//b/", "/a/./b/.", "../a", "./.", "/.", "/..", "a/../b", ".a", "a.", "..a",
        "/usr/bin/qemu-aarch64-static",
    ];
    for sample in samples {
        let path = Path::new(sample);
        let bytes = to_bytes(sample);
        assert_eq!(
            get_file_name(&bytes),
            path.file_name().map(|n| n.to_str().unwrap().as_bytes().to_vec()),
            "{sample}"
        );
        assert_eq!(
            strip_root(&bytes),
            path.strip_prefix("/").ok().map(|p| p.to_str().unwrap().as_bytes().to_vec()),
            "{sample}"
        );
        for other in samples {
            assert_eq!(
                join(&bytes, other.as_bytes()),
                path.join(other).to_str().unwrap().as_bytes(),
                "{sample} {other}"
            );
            assert_eq!(
                with_file_name(&bytes, other.as_bytes()),
                path.with_file_name(other).to_str().unwrap().as_bytes(),
                "{sample} {other}"
            );
            assert_eq!(
                strip_suffix(&bytes, other.as_bytes()),
                sample.strip_suffix(other).map(|s| s.as_bytes().to_vec())
            );
        }
    }
}

#[test]
fn names_are_sorted_by_their_bytes() {
    let names: Vec<Vec<u8>> = [&b"b"[..], b"a", b"", b"ab", b"B", b"\xff", b"a", b"a-"]
        .iter()
        .map(|n| n.to_vec())
        .collect();
    let mut expected: Vec<usize> = (0..names.len()).collect();
    expected.sort_by_key(|&i| names[i].clone());
    assert_eq!(sort_indices(&names), expected);
    for a in &names {
        for b in &names {
            assert_eq!(compare_le(a, b), a <= b);
        }
    }
    assert!(sort_indices(&vec![]).is_empty());
}
