use fangorn::bytes::{append_prefixed, bytes_equal, length_u32, read_u32_be, text_bytes};
use fangorn::text::{decimal_text, parse_u128, split, trim};

#[test]
fn trimming_agrees_with_std() {
    for c in '\0'..=char::MAX {
        let text = format!("{}a{}b{}", c, c, c);
        assert_eq!(trim(&text), text.trim());
    }
    assert_eq!(trim(""), "");
    assert_eq!(trim(" \t\n"), "");
}

#[test]
fn splitting_agrees_with_std() {
    for text in ["", ",", "a", "a,b", ",a,", "a,,b", "\u{e9},\u{1f980}"] {
        assert_eq!(split(text, ','), text.split(',').collect::<Vec<_>>());
    }
}

#[test]
fn parsing_agrees_with_std() {
    for text in [
        "",
        "+",
        "-",
        "0",
        "+7",
        "++7",
        "-7",
        "007",
        "12a",
        " 1",
        "1 ",
        "1_000",
        "\u{663}",
        "340282366920938463463374607431768211455",
        "340282366920938463463374607431768211456",
        "3402823669209384634633746074317682114550",
        "000000000000000000000000000000000000000000001",
    ] {
        assert_eq!(parse_u128(text), text.parse::<u128>().ok(), "{}", text);
    }
}

#[test]
fn decimals_agree_with_std() {
    for n in [0, 1, 9, 10, 99, 100, 12345, u64::MAX] {
        assert_eq!(decimal_text(n), format!("{}", n));
        assert_eq!(parse_u128(&decimal_text(n)), Some(n as u128));
    }
}

#[test]
fn lengths_are_big_endian() {
    let mut buf = vec![9u8];
    append_prefixed(&mut buf, b"abc");
    assert_eq!(buf, b"\x09\x00\x00\x00\x03abc".to_vec());
    assert_eq!(read_u32_be(&buf, 1), 3);
    assert_eq!(read_u32_be(&[1, 2, 3, 4], 0), 0x01020304);
    assert_eq!(length_u32(&buf), 8);
    assert_eq!(text_bytes("\u{e9}"), vec![0xc3, 0xa9]);
    assert!(bytes_equal(b"ab", b"ab"));
    assert!(!bytes_equal(b"ab", b"abc"));
    assert!(!bytes_equal(b"ab", b"ac"));
}
