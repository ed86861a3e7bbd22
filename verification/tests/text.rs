use tootoo::text::{
    is_blank, is_whitespace, push_count, push_decimal, push_digits, push_padded, same_text,
    text_before, trim,
};

const SAMPLES: [&str; 14] = [
    "",
    " ",
    "a",
    "  a  ",
    "\t\n\r a b \u{000B}\u{000C}",
    "\u{00A0}nbsp\u{00A0}",
    "\u{3000}전각 공백\u{3000}",
    "\u{2028}line\u{2029}",
    "\u{200B}zero width space is no whitespace\u{200B}",
    "\u{FEFF}bom",
    "x\u{0085}",
    " \u{1680}\u{2000}\u{200A}\u{202F}\u{205F} ",
    "삼성전자",
    "  mixed 한글 and ascii\n",
];

#[test]
fn trimming_agrees_with_the_standard_library() {
    for s in SAMPLES {
        assert_eq!(trim(s), s.trim(), "{s:?}");
        assert_eq!(is_blank(s), s.trim().is_empty(), "{s:?}");
    }
}

#[test]
fn trimming_twice_is_trimming_once() {
    for s in SAMPLES {
        let once = trim(s);
        assert_eq!(trim(&once), once);
    }
}

#[test]
fn texts_are_ordered_as_strings_are() {
    let words = ["", "a", "A", "ab", "abc", "b", "KRX:000001", "KRX:000010", "KRX:1", "삼성", "é", "z", "\u{10FFFF}"];
    for a in words {
        for b in words {
            assert_eq!(text_before(a, b), a < b, "{a:?} {b:?}");
            assert_eq!(same_text(a, b), a == b, "{a:?} {b:?}");
        }
    }
}

#[test]
fn numbers_are_written_in_decimal() {
    for n in [0i64, 1, 9, 10, 11, 99, 100, 12_345, -1, -10, -12_345, i64::MAX, i64::MIN] {
        let mut out = String::from("n=");
        push_decimal(&mut out, n);
        assert_eq!(out, format!("n={n}"));
    }
    for n in [0usize, 7, 20, 500, usize::MAX] {
        let mut out = String::new();
        push_count(&mut out, n);
        assert_eq!(out, n.to_string());
    }
    let mut out = String::new();
    push_digits(&mut out, u64::MAX);
    assert_eq!(out, "18446744073709551615");
}

#[test]
fn numbers_are_padded_with_zeros_to_a_width() {
    for (n, width) in [(0usize, 0usize), (0, 1), (0, 6), (7, 6), (123_456, 6), (1_234_567, 6), (42, 2), (42, 3)] {
        let mut out = String::from("#");
        push_padded(&mut out, n, width);
        assert_eq!(out, format!("#{n:0width$}"));
    }
}

#[test]
fn whitespace_is_what_the_standard_library_takes_for_it() {
    let mut count = 0;
    for u in 0..=0x10FFFFu32 {
        if let Some(c) = char::from_u32(u) {
            assert_eq!(is_whitespace(c), c.is_whitespace(), "U+{u:04X}");
            if is_whitespace(c) {
                count += 1;
            }
        }
    }
    assert_eq!(count, 25);
}
