use rport::text::{
    decimal_string, ends_with, parse_u16, rsplit_once, split, split_once, text_eq, trim, NumberError,
};

const SAMPLES: [&str; 14] = [
    "", " ", "a", " a ", "a:b", ":", "::", "a::b:", "\u{85}x\u{2009}", "ä:ö", "  \t\n", "a b", "日本:語",
    "\u{3000}\u{200b}",
];

#[test]
fn trimming_is_that_of_str() {
    for s in SAMPLES {
        assert_eq!(trim(s), s.trim());
    }
}

#[test]
fn whitespace_is_that_of_char() {
    let mut n: u32 = 0;
    while n < 0x11000 {
        if let Some(c) = char::from_u32(n) {
            assert_eq!(rport::text::char_is_whitespace(c), c.is_whitespace(), "{:x}", n);
        }
        n += 1;
    }
}

#[test]
fn splitting_is_that_of_str() {
    for s in SAMPLES {
        let expected: Vec<&str> = s.split(':').collect();
        assert_eq!(split(s, ':'), expected);
        assert_eq!(split_once(s, ':'), s.split_once(':'));
        assert_eq!(rsplit_once(s, ':'), s.rsplit_once(':'));
    }
}

#[test]
fn comparing_is_that_of_str() {
    for a in SAMPLES {
        for b in SAMPLES {
            assert_eq!(text_eq(a, b), a == b);
            assert_eq!(ends_with(a, b), a.ends_with(b));
        }
    }
}

#[test]
fn numbers_are_read_as_str_reads_them() {
    for s in [
        "", "+", "-", "0", "+0", "00", "1", "65535", "65536", "065535", "99999", "6553x", "65536x", "x65536",
        "-1", "+65535", "++1", " 1", "1 ", "１", "4294967296", "100000000000000000000",
    ] {
        let ours = match parse_u16(s) {
            Ok(n) => Ok(n),
            Err(e) => Err(e.message().to_string()),
        };
        let theirs = s.parse::<u16>().map_err(|e| e.to_string());
        assert_eq!(ours, theirs, "{:?}", s);
    }
    assert_eq!(parse_u16(""), Err(NumberError::Empty));
    assert_eq!(parse_u16("a"), Err(NumberError::InvalidDigit));
    assert_eq!(parse_u16("70000"), Err(NumberError::TooLarge));
}

#[test]
fn every_port_reads_back() {
    let mut n: u32 = 0;
    while n <= 65535 {
        let text = decimal_string(n as u64);
        assert_eq!(text, n.to_string());
        assert_eq!(parse_u16(&text), Ok(n as u16));
        n += 1;
    }
    assert_eq!(decimal_string(u64::MAX), u64::MAX.to_string());
}

#[test]
fn decimal_texts_tell_numbers_apart() {
    let numbers = [0, 1, 9, 10, 11, 99, 100, 101, 110, u64::MAX - 1, u64::MAX];
    for a in numbers {
        for b in numbers {
            assert_eq!(decimal_string(a) == decimal_string(b), a == b);
        }
    }
}
