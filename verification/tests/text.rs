use bpf_profile::number::{parse_address, parse_decimal, push_decimal, push_hexadecimal};
use bpf_profile::text::{
    chars_of, find_token_end, is_whitespace, same_chars, skip_whitespace, split_lines,
    split_whitespace, starts_with, string_of, trim, trim_bounds, trim_chars,
};

fn text_of(chars: &Vec<char>) -> String {
    chars.iter().collect()
}

#[test]
fn white_space_is_that_of_unicode() {
    for code in 0..=0x10FFFFu32 {
        if let Some(c) = char::from_u32(code) {
            assert_eq!(is_whitespace(c), c.is_whitespace(), "U+{:04X}", code);
        }
    }
}

#[test]
fn characters_of_a_text() {
    assert_eq!(chars_of(""), Vec::<char>::new());
    assert_eq!(chars_of("aß€"), vec!['a', 'ß', '€']);
    let chars = chars_of("hello world");
    assert_eq!(string_of(&chars, 0, chars.len()), "hello world");
    assert_eq!(string_of(&chars, 6, 11), "world");
    assert_eq!(string_of(&chars, 3, 3), "");
}

#[test]
fn same_characters() {
    assert!(same_chars(&chars_of("exit"), &chars_of("exit")));
    assert!(!same_chars(&chars_of("exit"), &chars_of("exiT")));
    assert!(!same_chars(&chars_of("exit"), &chars_of("exi")));
    assert!(same_chars(&chars_of(""), &chars_of("")));
}

#[test]
fn prefixes() {
    assert!(starts_with(&chars_of("callx r1"), &chars_of("call")));
    assert!(starts_with(&chars_of("call"), &chars_of("call")));
    assert!(!starts_with(&chars_of("cal"), &chars_of("call")));
    assert!(!starts_with(&chars_of(" call"), &chars_of("call")));
}

#[test]
fn trimming_is_that_of_std() {
    let samples = [
        "",
        " ",
        "\t\n ",
        "a",
        "  a",
        "a  ",
        "  a b  c \t",
        "\u{a0}x\u{2003}y\u{3000}",
        "\u{feff}x",
        "no space",
    ];
    for s in samples {
        assert_eq!(trim(s), s.trim(), "{:?}", s);
        assert_eq!(text_of(&trim_chars(s)), s.trim(), "{:?}", s);
        let chars = chars_of(s);
        let (a, b) = trim_bounds(&chars);
        assert!(a <= b && b <= chars.len());
        assert_eq!(string_of(&chars, a, b), s.trim());
    }
}

#[test]
fn tokens_are_those_of_std() {
    let samples = ["", "   ", "call 0x100", "  call\t0x100  ", "a b c", "one", "x\u{2003}y\n z"];
    for s in samples {
        let tokens: Vec<String> = split_whitespace(&chars_of(s)).iter().map(text_of).collect();
        let expected: Vec<String> = s.split_whitespace().map(str::to_string).collect();
        assert_eq!(tokens, expected, "{:?}", s);
    }
    let chars = chars_of("  ab  cd");
    assert_eq!(skip_whitespace(&chars, 0), 2);
    assert_eq!(find_token_end(&chars, 2), 4);
    assert_eq!(skip_whitespace(&chars, 4), 6);
    assert_eq!(find_token_end(&chars, 6), 8);
    assert_eq!(skip_whitespace(&chars, 8), 8);
}

#[test]
fn lines_are_those_of_std() {
    let samples = [
        "",
        "\n",
        "a",
        "a\n",
        "a\nb",
        "a\n\nb\n",
        "a\r\nb\r\n",
        "a\r",
        "a\rb\n",
        "\r\n",
        "\n\n",
        "a\r\r\nb",
    ];
    for s in samples {
        let expected: Vec<String> = s.lines().map(str::to_string).collect();
        assert_eq!(split_lines(s), expected, "{:?}", s);
    }
}

#[test]
fn decimal_numbers() {
    assert_eq!(parse_decimal(&chars_of("0")), Some(0));
    assert_eq!(parse_decimal(&chars_of("007")), Some(7));
    assert_eq!(parse_decimal(&chars_of("1234567890")), Some(1234567890));
    assert_eq!(parse_decimal(&chars_of(&usize::MAX.to_string())), Some(usize::MAX));
    assert_eq!(parse_decimal(&chars_of("")), None);
    assert_eq!(parse_decimal(&chars_of("12a")), None);
    assert_eq!(parse_decimal(&chars_of("-1")), None);
    assert_eq!(parse_decimal(&chars_of("+1")), None);
    assert_eq!(parse_decimal(&chars_of(" 1")), None);
    assert_eq!(parse_decimal(&chars_of("١٢")), None);
    assert_eq!(parse_decimal(&chars_of("18446744073709551616")), None);
    assert_eq!(parse_decimal(&chars_of("99999999999999999999999")), None);
}

#[test]
fn hexadecimal_addresses() {
    assert_eq!(parse_address(&chars_of("0x100")), Some(0x100));
    assert_eq!(parse_address(&chars_of("100")), Some(0x100));
    assert_eq!(parse_address(&chars_of("0xcb3fc071")), Some(0xcb3fc071));
    assert_eq!(parse_address(&chars_of("0xCB3FC071")), Some(0xcb3fc071));
    assert_eq!(parse_address(&chars_of("0")), Some(0));
    assert_eq!(parse_address(&chars_of("0x0")), Some(0));
    assert_eq!(parse_address(&chars_of("0xffffffffffffffff")), Some(0xffffffffffffffff));
    assert_eq!(parse_address(&chars_of("0x10000000000000000")), None);
    assert_eq!(parse_address(&chars_of("0x")), None);
    assert_eq!(parse_address(&chars_of("")), None);
    assert_eq!(parse_address(&chars_of("0X10")), None);
    assert_eq!(parse_address(&chars_of("0x0x10")), None);
    assert_eq!(parse_address(&chars_of("r1")), None);
    assert_eq!(parse_address(&chars_of("0x1g")), None);
}

#[test]
fn numbers_as_text() {
    let samples: [u128; 9] =
        [0, 1, 9, 10, 255, 4096, u64::MAX as u128, u64::MAX as u128 + 1, u128::MAX];
    for n in samples {
        let mut decimal = String::from(">");
        push_decimal(&mut decimal, n);
        assert_eq!(decimal, format!(">{}", n));
        let mut hexadecimal = String::from(">");
        push_hexadecimal(&mut hexadecimal, n);
        assert_eq!(hexadecimal, format!(">{:x}", n));
    }
}

#[test]
fn numbers_read_back() {
    for n in [0usize, 7, 10, 99, 100, 65535, 1 << 40, usize::MAX] {
        let mut decimal = String::new();
        push_decimal(&mut decimal, n as u128);
        assert_eq!(parse_decimal(&chars_of(&decimal)), Some(n));
        let mut hexadecimal = String::from("0x");
        push_hexadecimal(&mut hexadecimal, n as u128);
        assert_eq!(parse_address(&chars_of(&hexadecimal)), Some(n));
    }
}
