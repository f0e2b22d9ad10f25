use voices3r::numbers::{push_decimal, push_hex, push_signed, read_signed, read_unsigned};
use voices3r::text::{
    chars_of, find, is_white, piece, replace, same, split_at_each, string_of, trim,
};

fn strings(v: Vec<Vec<char>>) -> Vec<String> {
    v.iter().map(|c| string_of(c)).collect()
}

#[test]
fn characters_and_back() {
    let c = chars_of("aß€😀");
    assert_eq!(c, vec!['a', 'ß', '€', '😀']);
    assert_eq!(string_of(&c), "aß€😀");
    assert!(same(&c, &chars_of("aß€😀")));
    assert!(!same(&c, &chars_of("aß€")));
    assert!(!same(&c, &chars_of("aß€x")));
    assert_eq!(string_of(&piece(&c, 1, 3)), "ß€");
}

#[test]
fn pieces_between_separators() {
    for s in ["", "a", "a&b", "&", "a&&b", "&a&", "x=1&y=2&z"] {
        let got = strings(split_at_each(&chars_of(s), '&'));
        let want: Vec<String> = s.split('&').map(|p| p.to_string()).collect();
        assert_eq!(got, want);
        assert_eq!(got.join("&"), s);
    }
}

#[test]
fn first_place_of_a_character() {
    assert_eq!(find(&chars_of("a=b=c"), '='), 1);
    assert_eq!(find(&chars_of("abc"), '='), 3);
    assert_eq!(find(&chars_of(""), '='), 0);
    assert_eq!(find(&chars_of("=x"), '='), 0);
}

#[test]
fn white_space_is_that_of_unicode() {
    for u in 0..=0x10ffffu32 {
        if let Some(c) = char::from_u32(u) {
            assert_eq!(is_white(c), c.is_whitespace(), "U+{:04X}", u);
        }
    }
}

#[test]
fn trimming() {
    for s in ["", " ", "a", " a ", "\t\na b\u{a0}\u{3000}", "  \u{2003} "] {
        assert_eq!(string_of(&trim(&chars_of(s))), s.trim());
    }
}

#[test]
fn placeholders_are_replaced_from_the_left() {
    let r = |s: &str, m: &str, v: &str| {
        string_of(&replace(&chars_of(s), &chars_of(m), &chars_of(v)))
    };
    assert_eq!(r("a__X__b__X__", "__X__", "1"), "a1b1");
    assert_eq!(r("aaa", "aa", "b"), "ba");
    assert_eq!(r("aa", "a", "aa"), "aaaa");
    assert_eq!(r("abc", "xyz", "q"), "abc");
    assert_eq!(r("", "x", "q"), "");
}

#[test]
fn numbers_written_out() {
    for n in [0u64, 7, 10, 99, 100, 9001, 4294967295, u64::MAX] {
        let mut s = String::from("n=");
        push_decimal(&mut s, n);
        assert_eq!(s, format!("n={}", n));
    }
    for n in [0i32, -1, 1, -10, i32::MIN, i32::MAX] {
        let mut s = String::new();
        push_signed(&mut s, n);
        assert_eq!(s, n.to_string());
        assert_eq!(read_signed(&chars_of(&s)), Some(n));
    }
    for b in 0..=255u8 {
        let mut s = String::new();
        push_hex(&mut s, b);
        assert_eq!(s, format!("{:02X}", b));
        assert_eq!(read_unsigned(&chars_of(&s), 16, 255), Some(b as u64));
        let mut d = String::new();
        push_decimal(&mut d, b as u64);
        assert_eq!(read_unsigned(&chars_of(&d), 10, 255), Some(b as u64));
    }
}

#[test]
fn numbers_read_as_the_standard_library_reads_them() {
    for s in [
        "", "+", "-", "0", "007", "+5", "-5", "--5", "++5", "255", "256", "00000000000255", "1 ",
        "12a", "4294967295", "4294967296", "99999999999999999999999999", "٣", "-0", "2147483647",
        "2147483648", "-2147483648", "-2147483649",
    ] {
        let c = chars_of(s);
        assert_eq!(read_unsigned(&c, 10, 255), s.parse::<u8>().ok().map(|v| v as u64), "{}", s);
        assert_eq!(
            read_unsigned(&c, 10, 4294967295),
            s.parse::<u32>().ok().map(|v| v as u64),
            "{}",
            s
        );
        assert_eq!(read_signed(&c), s.parse::<i32>().ok(), "{}", s);
    }
    for s in ["", "ff", "FF", "+1f", "100", "g", "0x1", "-1"] {
        assert_eq!(
            read_unsigned(&chars_of(s), 16, 255),
            u8::from_str_radix(s, 16).ok().map(|v| v as u64),
            "{}",
            s
        );
    }
}
