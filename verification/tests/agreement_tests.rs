use recall_os::categories::eq_ignore_ascii_case;
use recall_os::extractor::lines;
use recall_os::hashing::content_hash;
use recall_os::lines::replace_all;
use recall_os::text::{
    chars_of, contains_chars, decimal_chars, is_whitespace, str_eq, string_of, trim,
    trim_end_chars,
};

const SAMPLES: &[&str] = &[
    "",
    " ",
    "plain",
    "  leading",
    "trailing  ",
    "\t both \n",
    "\u{a0}no-break\u{a0}",
    "\u{2003}em space\u{3000}",
    "\u{200b}zero width\u{200b}",
    "a\nb\r\nc\r",
    "\n\n",
    "\r\n",
    "x\n",
    "one two  three",
    "ééé ünï",
    "aaa",
    "a.b.c",
    "Lorem ipsum",
    "\u{85}next line\u{2028}",
    "\u{1680}ogham\u{205f}",
];

#[test]
fn white_space_is_what_the_standard_library_says() {
    for code in 0..=0x10FFFF_u32 {
        if let Some(c) = char::from_u32(code) {
            assert_eq!(is_whitespace(c), c.is_whitespace(), "U+{:04X}", code);
        }
    }
}

#[test]
fn trimming_agrees_with_the_standard_library() {
    for s in SAMPLES {
        assert_eq!(trim(s), s.trim(), "{:?}", s);
        assert_eq!(string_of(&trim_end_chars(&chars_of(s))), s.trim_end(), "{:?}", s);
    }
}

#[test]
fn lines_agree_with_the_standard_library() {
    for s in SAMPLES {
        let expected: Vec<String> = s.lines().map(|l| l.to_string()).collect();
        assert_eq!(lines(s), expected, "{:?}", s);
    }
}

#[test]
fn search_and_replacement_agree_with_the_standard_library() {
    let needles = ["", "a", "aa", " ", "b", "é", "\n", "ab", "two", "."];
    for s in SAMPLES {
        for n in needles {
            assert_eq!(
                contains_chars(&chars_of(s), &chars_of(n)),
                s.contains(n),
                "{:?} in {:?}",
                n,
                s
            );
            if !n.is_empty() {
                assert_eq!(
                    string_of(&replace_all(&chars_of(s), &chars_of(n), &chars_of("XY"))),
                    s.replace(n, "XY"),
                    "{:?} in {:?}",
                    n,
                    s
                );
            }
            assert_eq!(str_eq(s, n), *s == n);
            assert_eq!(eq_ignore_ascii_case(s, n), s.eq_ignore_ascii_case(n));
        }
        assert!(eq_ignore_ascii_case(s, &s.to_ascii_uppercase()));
    }
}

#[test]
fn decimals_agree_with_the_standard_library() {
    for n in [0_u64, 1, 9, 10, 11, 99, 100, 12345, 1_000_000_007, u64::MAX, u64::MAX - 1] {
        assert_eq!(string_of(&decimal_chars(n)), n.to_string());
    }
}

#[test]
fn hashes_are_those_of_sha_256() {
    assert_eq!(
        content_hash(b"abc"),
        "ba7816bf8f01cfea414140de5dae2223b00361a396177a9cb410ff61f20015ad"
    );
    assert_eq!(
        content_hash(b"The quick brown fox jumps over the lazy dog"),
        "d7a8fbb307d7809469ca9abcb0082e4f8d5651e46d3cdb762d02d0bf37c9e592"
    );
}
