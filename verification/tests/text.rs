use orange_beam::text::{
    is_white_space, join, lines, parse_int, push_decimal, push_decimal_padded, push_hex,
    push_padded, split, split_once, trim, words,
};

#[test]
fn white_space_is_that_of_the_standard_library() {
    for code in 0..=0x10ffff {
        if let Some(c) = char::from_u32(code) {
            assert_eq!(is_white_space(c), c.is_whitespace(), "{code:x}");
        }
    }
}

#[test]
fn pieces_of_text_are_those_of_the_standard_library() {
    for text in [
        "",
        "\n",
        "a",
        " a b\t c ",
        "a\r\nb\n\nc",
        "a\r",
        "\r\n\r\n",
        "x=1=2",
        "=",
        "二 三\u{3000}四\n",
        ",,a,",
        "a\nb",
    ] {
        assert_eq!(trim(text), text.trim(), "{text:?}");
        assert_eq!(lines(text), text.lines().collect::<Vec<_>>(), "{text:?}");
        assert_eq!(words(text), text.split_whitespace().collect::<Vec<_>>(), "{text:?}");
        assert_eq!(split(text, ','), text.split(',').collect::<Vec<_>>(), "{text:?}");
        assert_eq!(split_once(text, '='), text.split_once('='), "{text:?}");
    }
}

#[test]
fn numbers_are_read_in_every_radix() {
    for text in ["0", "ff", "FF", "+10", "-1", "", "g", "10000", "ffff", "0x1"] {
        let ours = parse_int(text, 16, 0xffff).ok();
        assert_eq!(ours, u16::from_str_radix(text, 16).ok().map(u64::from), "{text:?}");
    }
    assert_eq!(parse_int("18446744073709551615", 10, u64::MAX), Ok(u64::MAX));
    assert!(parse_int("18446744073709551616", 10, u64::MAX).is_err());
}

#[test]
fn numbers_are_written_as_the_standard_library_writes_them() {
    for value in [0, 7, 10, 255, 4096, 65535, u64::MAX] {
        let mut text = String::new();
        push_decimal(&mut text, value);
        text.push(' ');
        push_decimal_padded(&mut text, value, 8);
        text.push(' ');
        push_hex(&mut text, value & 0xffff, 4);
        assert_eq!(text, format!("{value} {value:8} {:04x}", value & 0xffff));
    }
    let mut text = String::new();
    push_padded(&mut text, "遥控", 4);
    push_padded(&mut text, "long", 2);
    assert_eq!(text, format!("{:4}{:2}", "遥控", "long"));
    assert_eq!(join(&vec!["a".into(), "b".into()], "; "), "a; b");
    assert_eq!(join(&vec![], "; "), "");
}
