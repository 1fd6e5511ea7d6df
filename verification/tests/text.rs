use lost_kingdom::text::{
    chars_of, is_whitespace, parse_i32, parse_usize, push_decimal, push_i32, push_usize, reads,
    records_of, same_chars, slice_of, split_at, split_limited, str_eq, string_of, strip_prefix,
    trim,
};

fn text(s: &str) -> Vec<char> {
    s.chars().collect()
}

fn strings(parts: Vec<Vec<char>>) -> Vec<String> {
    parts.iter().map(|p| p.iter().collect()).collect()
}

#[test]
fn chars_and_back() {
    assert_eq!(chars_of("héllo 용사"), text("héllo 용사"));
    assert_eq!(chars_of(""), Vec::<char>::new());
    assert_eq!(string_of(&text("héllo 용사")), "héllo 용사");
    assert_eq!(string_of(&Vec::new()), "");
}

#[test]
fn comparing_texts() {
    assert!(same_chars(&text("abc"), &text("abc")));
    assert!(!same_chars(&text("abc"), &text("abd")));
    assert!(!same_chars(&text("abc"), &text("ab")));
    assert!(reads(&text("PLAYER"), "PLAYER"));
    assert!(!reads(&text("PLAYER"), "PLAYERS"));
    assert!(reads(&text(""), ""));
    assert!(str_eq("용사", "용사"));
    assert!(!str_eq("potion", "Potion"));
    assert!(!str_eq("potion", "potions"));
    assert!(str_eq("", ""));
}

#[test]
fn slices() {
    assert_eq!(slice_of(&text("abcdef"), 2, 4), text("cd"));
    assert_eq!(slice_of(&text("abcdef"), 0, 6), text("abcdef"));
    assert_eq!(slice_of(&text("abcdef"), 3, 3), text(""));
}

#[test]
fn white_space_is_what_the_standard_library_calls_so() {
    for code in 0..0x3100u32 {
        if let Some(c) = char::from_u32(code) {
            assert_eq!(is_whitespace(c), c.is_whitespace(), "U+{:04X}", code);
        }
    }
    assert!(!is_whitespace('\u{feff}'));
    assert!(!is_whitespace('\u{10ffff}'));
}

#[test]
fn trim_is_what_the_standard_library_trims() {
    let samples = [
        "",
        " ",
        "a",
        "  a b  ",
        "\t\r\n x \u{3000}",
        "\u{a0}y\u{2003}",
        "no space",
        " \u{85}\u{1680} ",
        "a \n",
    ];
    for s in samples {
        assert_eq!(string_of(&trim(&text(s))), s.trim(), "{:?}", s);
    }
}

#[test]
fn split_is_what_the_standard_library_splits() {
    let samples = ["", "a", "a:b", "a::b", ":a", "a:", ":", "::", "W:sword:녹슨 검:5:0:100"];
    for s in samples {
        let expected: Vec<String> = s.split(':').map(|p| p.to_string()).collect();
        assert_eq!(strings(split_at(&text(s), ':')), expected, "{:?}", s);
        for n in 1..5usize {
            let expected: Vec<String> = s.splitn(n, ':').map(|p| p.to_string()).collect();
            assert_eq!(strings(split_limited(&text(s), ':', Some(n))), expected, "{:?} {}", s, n);
        }
    }
    assert_eq!(strings(split_at(&text("a=b"), '=')), vec!["a".to_string(), "b".to_string()]);
}

#[test]
fn records_are_trimmed_lines() {
    let records = strings(records_of("  a:b \r\n\n# c\n\td"));
    assert_eq!(records, vec!["a:b".to_string(), "".to_string(), "# c".to_string(), "d".to_string()]);
    assert_eq!(strings(records_of("")), vec!["".to_string()]);
    assert_eq!(strings(records_of("x\n")), vec!["x".to_string(), "".to_string()]);
}

#[test]
fn numbers_are_read_as_the_standard_library_reads_them() {
    let samples = [
        "0",
        "7",
        "-7",
        "+7",
        "007",
        "-0",
        "+0",
        "2147483647",
        "2147483648",
        "-2147483648",
        "-2147483649",
        "+2147483647",
        "00000000000000000000000000012",
        "99999999999999999999999999999",
        "18446744073709551615",
        "18446744073709551616",
        "",
        "+",
        "-",
        "--1",
        "+-1",
        "1 ",
        " 1",
        "1a",
        "a",
        "12e3",
        "１２",
        "1_000",
        "0x10",
    ];
    for s in samples {
        assert_eq!(parse_i32(&text(s)), s.parse::<i32>().ok(), "{:?}", s);
        assert_eq!(parse_usize(&text(s)), s.parse::<usize>().ok(), "{:?}", s);
    }
}

#[test]
fn numbers_are_written_as_the_standard_library_writes_them() {
    for x in [0, 1, 9, 10, 11, 99, 100, 250, -1, -10, -250, i32::MAX, i32::MIN] {
        let mut s = String::from("n=");
        push_i32(&mut s, x);
        assert_eq!(s, format!("n={}", x));
    }
    for x in [0usize, 5, 10, 12345, usize::MAX] {
        let mut s = String::new();
        push_usize(&mut s, x);
        assert_eq!(s, format!("{}", x));
    }
    let mut s = String::from("x");
    push_decimal(&mut s, 18446744073709551615);
    assert_eq!(s, "x18446744073709551615");
}

#[test]
fn what_is_written_is_read_back() {
    for x in [0, 3, -3, 250, 1000000, i32::MAX, i32::MIN] {
        let mut s = String::new();
        push_i32(&mut s, x);
        assert_eq!(parse_i32(&chars_of(&s)), Some(x));
    }
}

#[test]
fn prefixes() {
    assert_eq!(strip_prefix(&text("@MAP:a:b"), "@MAP:"), Some(text("a:b")));
    assert_eq!(strip_prefix(&text("@MAP:"), "@MAP:"), Some(text("")));
    assert_eq!(strip_prefix(&text("@MAP"), "@MAP:"), None);
    assert_eq!(strip_prefix(&text("x@MAP:"), "@MAP:"), None);
    assert_eq!(strip_prefix(&text("abc"), ""), Some(text("abc")));
}
