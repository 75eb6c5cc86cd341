use bevygap::text::blank;
use bevygap::text::byte_length;
use bevygap::text::decimal_string;
use bevygap::text::join;
use bevygap::text::keep_token_chars;
use bevygap::text::parse_i32;
use bevygap::text::parse_u64;
use bevygap::text::parse_unsigned;
use bevygap::text::split_on;
use bevygap::text::to_lower;
use bevygap::text::to_upper;
use bevygap::text::trim;
use bevygap::text::white_space;

#[test]
fn white_space_is_that_of_unicode() {
    for c in '\0'..=char::MAX {
        assert_eq!(white_space(c), c.is_whitespace(), "{c:?}");
    }
}

#[test]
fn trimming_takes_white_space_from_both_ends() {
    for s in ["", " ", "a", " a ", "\t a b\u{3000}\n", "\u{200b} a", "a\u{85}"] {
        assert_eq!(trim(s), s.trim(), "{s:?}");
        assert_eq!(blank(s), s.trim().is_empty(), "{s:?}");
    }
}

#[test]
fn case_changes_for_ascii_letters_only() {
    let s = "aZ09-_\u{e9}\u{c9}\u{df}@[`{";
    assert_eq!(to_lower(s), s.to_ascii_lowercase());
    assert_eq!(to_upper(s), s.to_ascii_uppercase());
    assert_eq!(keep_token_chars(s), "aZ09-_");
    assert_eq!(byte_length(s), s.len());
}

#[test]
fn numbers_are_read_as_rust_reads_them() {
    for s in [
        "", "+", "-", "0", "00", "+0", "-0", "7", "+7", "-7", "++7", "1 ", " 1", "1a", "\u{661}",
        "18446744073709551615", "18446744073709551616", "99999999999999999999999",
        "2147483647", "2147483648", "-2147483648", "-2147483649",
    ] {
        assert_eq!(parse_u64(s), s.parse::<u64>().ok(), "{s:?}");
        assert_eq!(parse_i32(s), s.parse::<i32>().ok(), "{s:?}");
        assert_eq!(
            parse_unsigned(s, 255),
            s.parse::<u8>().ok().map(u64::from),
            "{s:?}"
        );
    }
}

#[test]
fn decimals_read_back() {
    for n in [0, 1, 9, 10, 99, 100, 12345, u64::MAX - 1, u64::MAX] {
        assert_eq!(decimal_string(n), n.to_string());
        assert_eq!(parse_u64(&decimal_string(n)), Some(n));
    }
}

#[test]
fn splitting_undoes_joining() {
    for s in ["", "/", "a", "a/b", "/a//b/", "\u{e9}/x"] {
        let pieces = split_on(s, '/');
        assert_eq!(pieces, s.split('/').collect::<Vec<_>>(), "{s:?}");
        assert_eq!(join(&pieces, "/"), s);
    }
    assert_eq!(join(&Vec::new(), ","), "");
}
