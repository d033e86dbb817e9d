use dsh_launcher::utf16::{buffer_text, encode, wide};

#[test]
fn encoding_is_the_standard_one() {
    for s in ["", "abc", "DSH 启动器错误", "𝄞mus\u{10ffff}ic", "\u{d7ff}\u{e000}\u{ffff}\u{10000}"] {
        let expected: Vec<u16> = s.encode_utf16().collect();
        assert_eq!(encode(s), expected);
        let mut ended = expected.clone();
        ended.push(0);
        assert_eq!(wide(s), ended);
        assert_eq!(buffer_text(&wide(s)), s);
    }
}

#[test]
fn buffer_ends_at_its_first_zero() {
    assert_eq!(buffer_text(&vec![0x61, 0x62, 0, 0x63, 0]), "ab");
    assert_eq!(buffer_text(&vec![0x61, 0x62]), "ab");
    assert_eq!(buffer_text(&vec![0, 0x61]), "");
    assert_eq!(buffer_text(&vec![]), "");
}

#[test]
fn unpaired_units_are_replaced() {
    let us = vec![0xd834, 0xdd1e, 0x6d, 0x75, 0x73, 0xdd1e, 0x69, 0x63, 0xd834];
    assert_eq!(buffer_text(&us), "𝄞mus\u{fffd}ic\u{fffd}");
    assert_eq!(buffer_text(&vec![0xd800, 0xd800, 0xdc00]), "\u{fffd}\u{10000}");
}
