use dsh_launcher::text::{
    cat2, cat3, chars_of, copy_texts, has_text, join, parse_u16, parse_u64, same, space, split,
    split_whitespace, tail_after, to_decimal, to_two_digits, trim,
};

fn list(v: &[&str]) -> Vec<String> {
    v.iter().map(|s| s.to_string()).collect()
}

#[test]
fn white_space_is_the_standard_one() {
    let mut n: u32 = 0;
    while n <= 0x10ffff {
        if let Some(c) = char::from_u32(n) {
            assert_eq!(space(c), c.is_whitespace());
        }
        n += 1;
    }
}

#[test]
fn words_and_trimming_are_the_standard_ones() {
    for s in ["", "  ", "a", " a  b\u{3000}c\n", "\u{a0}x y\t", "名 字"] {
        let expected: Vec<String> = s.split_whitespace().map(|w| w.to_string()).collect();
        assert_eq!(split_whitespace(s), expected);
        assert_eq!(trim(s), s.trim());
    }
}

#[test]
fn joined_words_split_again() {
    let ws = list(&["web", "--port", "8899"]);
    assert_eq!(join(&ws, " "), "web --port 8899");
    assert_eq!(split_whitespace(&join(&ws, " ")), ws);
    assert_eq!(join(&list(&[]), ", "), "");
    assert_eq!(join(&list(&["a", "", "b"]), ", "), "a, , b");
}

#[test]
fn splitting_is_the_standard_one() {
    for s in ["", "/", "a/b", "//x//", "http://h:1/p", "中/文"] {
        let expected: Vec<String> = s.split('/').map(|w| w.to_string()).collect();
        assert_eq!(split(s, '/'), expected);
        assert_eq!(tail_after(s, '/'), s.rsplit('/').next().unwrap());
    }
}

#[test]
fn numbers_are_read_like_the_standard_ones() {
    for s in [
        "", "+", "-", "-0", "0", "00", "+7", "++7", "007", "65535", "65536", "18446744073709551615",
        "18446744073709551616", "99999999999999999999999", "1_0", " 1", "1 ", "１", "1a", "0000000000000000000000001",
    ] {
        assert_eq!(parse_u64(s), s.parse::<u64>().ok());
        assert_eq!(parse_u16(s), s.parse::<u16>().ok());
    }
}

#[test]
fn written_numbers_are_read_back() {
    for n in [0u64, 9, 10, 99, 100, 3080, 65535, u64::MAX] {
        assert_eq!(to_decimal(n), n.to_string());
        assert_eq!(parse_u64(&to_decimal(n)), Some(n));
    }
    assert_eq!(to_two_digits(0), "00");
    assert_eq!(to_two_digits(7), "07");
    assert_eq!(to_two_digits(42), "42");
    assert_eq!(to_two_digits(123), "123");
}

#[test]
fn small_things() {
    assert!(same("启动", "启动"));
    assert!(!same("a", "b"));
    assert_eq!(cat2("a", "b"), "ab");
    assert_eq!(cat3("a", "b", "c"), "abc");
    assert_eq!(chars_of("aé名"), vec!['a', 'é', '名']);
    let v = list(&["x", "y"]);
    assert_eq!(copy_texts(&v), v);
    assert!(has_text(&v, "y"));
    assert!(!has_text(&v, "z"));
}
