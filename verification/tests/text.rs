use cloud_sql_tracker::paths::{is_absolute, join};
use cloud_sql_tracker::text::{
    align_left, comes_before, decimal, find_after, first_word, is_ascii_alphanumeric,
    is_ascii_digit, is_whitespace, same, signed_decimal, split, trim, trim_end,
    zero_padded_decimal, CharSet,
};

#[test]
fn characters_are_classified_like_the_standard_library_does() {
    for code in 0..=0x10ffff_u32 {
        if let Some(c) = char::from_u32(code) {
            assert_eq!(is_whitespace(c), c.is_whitespace(), "{code:x}");
            assert_eq!(is_ascii_digit(c), c.is_ascii_digit(), "{code:x}");
            assert_eq!(
                is_ascii_alphanumeric(c),
                c.is_ascii_alphanumeric(),
                "{code:x}"
            );
        }
    }
}

#[test]
fn numbers_are_written_like_the_standard_library_does() {
    for n in [0, 1, 9, 10, 99, 100, 65535, 1_000_000_007, u64::MAX] {
        assert_eq!(decimal(n), n.to_string());
        assert_eq!(zero_padded_decimal(n, 4), format!("{n:04}"));
    }
    for n in [0, -1, 42, -42, i64::MIN, i64::MAX] {
        assert_eq!(signed_decimal(n), n.to_string());
    }
}

#[test]
fn alignment_counts_characters() {
    for text in ["", "abc", "ä", "exactly", "longer than that"] {
        assert_eq!(align_left(text, 7), format!("{text:<7}"));
    }
}

#[test]
fn splitting_agrees_with_the_standard_library() {
    for text in ["", ":", "a:b", ":a::b:", "abc"] {
        let expected: Vec<&str> = text.split(':').collect();
        assert_eq!(split(text, ':'), expected);
    }
}

#[test]
fn trimming_agrees_with_the_standard_library() {
    for text in ["", " \n", " a b\t", "\u{a0}x\u{2003}", "..-a.b-."] {
        assert_eq!(trim(text, CharSet::Whitespace), text.trim());
        assert_eq!(trim_end(text, CharSet::Whitespace), text.trim_end());
        let dashes: &[char] = &['.', '-'];
        assert_eq!(trim(text, CharSet::DotOrDash), text.trim_matches(dashes));
    }
}

#[test]
fn searching_agrees_with_the_standard_library() {
    for (text, marker) in [
        ("", "a"),
        ("a", ""),
        ("xaay", "aa"),
        ("aab", "ab"),
        ("no", "yes"),
        ("one two one", "one"),
    ] {
        let expected = text.split_once(marker).map(|(_, rest)| rest.to_string());
        assert_eq!(find_after(text, marker), expected);
        let word = text.split_whitespace().next().unwrap_or("");
        assert_eq!(first_word(text), word);
    }
    assert_eq!(first_word("  \tword\u{2003}rest"), "word");
}

#[test]
fn ordering_agrees_with_the_standard_library() {
    let texts = ["", "a", "ab", "b", "ä", "\u{10ffff}", "B"];
    for a in texts {
        for b in texts {
            assert_eq!(comes_before(a, b), a < b, "{a} {b}");
            assert_eq!(same(a, b), a == b);
        }
    }
}

#[test]
fn joining_puts_one_separator() {
    assert_eq!(join("/a", "b"), "/a/b");
    assert_eq!(join("/a/", "b"), "/a/b");
    assert_eq!(join("", "b"), "b");
    assert_eq!(join("/a", "/b"), "/b");
    assert!(is_absolute("/"));
    assert!(!is_absolute(""));
    assert!(!is_absolute("a/b"));
}
