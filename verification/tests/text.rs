use port_kill::decimal::{
    decimal_string, parse_i32_chars, parse_u16_chars, parse_u32_chars, push_signed_decimal,
};
use port_kill::text::{
    chars_of, is_space, lines_of, split_on, string_of, trimmed, words_of,
};

fn strings(pieces: Vec<Vec<char>>) -> Vec<String> {
    pieces.iter().map(string_of).collect()
}

const SAMPLES: [&str; 16] = [
    "",
    " ",
    "a",
    "  a b  ",
    "\t12345\n",
    "a\nb",
    "a\n",
    "\n",
    "\n\n",
    "a\r\nb\r",
    "\r\n",
    "foo\nbar\n\r\nbaz\r",
    "one  two\tthree\u{a0}four\u{3000}",
    "/usr/bin/node",
    "a\tb\t\tc",
    "COMMAND   PID USER   FD   TYPE DEVICE SIZE/OFF NODE NAME\nnode    111 me   21u  IPv4 0x1      0t0  TCP *:3000 (LISTEN)\n",
];

#[test]
fn whitespace_is_what_std_calls_whitespace() {
    for code in 0..=0x10ffffu32 {
        if let Some(c) = char::from_u32(code) {
            assert_eq!(is_space(c), c.is_whitespace(), "U+{:04X}", code);
        }
    }
}

#[test]
fn trimming_agrees_with_std() {
    for sample in SAMPLES {
        assert_eq!(string_of(&trimmed(&chars_of(sample))), sample.trim());
    }
    assert_eq!(string_of(&trimmed(&chars_of("  12345 \n"))), "12345");
    assert_eq!(string_of(&trimmed(&chars_of(" \t\n"))), "");
}

#[test]
fn lines_agree_with_std() {
    for sample in SAMPLES {
        let expected: Vec<String> = sample.lines().map(str::to_string).collect();
        assert_eq!(strings(lines_of(&chars_of(sample))), expected);
    }
    assert_eq!(
        strings(lines_of(&chars_of("foo\nbar\n\r\nbaz\r"))),
        vec!["foo", "bar", "", "baz\r"]
    );
}

#[test]
fn words_agree_with_std() {
    for sample in SAMPLES {
        let expected: Vec<String> = sample.split_whitespace().map(str::to_string).collect();
        assert_eq!(strings(words_of(&chars_of(sample))), expected);
    }
    assert_eq!(
        strings(words_of(&chars_of("  root   4242  0 "))),
        vec!["root", "4242", "0"]
    );
}

#[test]
fn fields_agree_with_std() {
    for sample in SAMPLES {
        for sep in ['/', '\t', ':', ' '] {
            let expected: Vec<String> = sample.split(sep).map(str::to_string).collect();
            assert_eq!(strings(split_on(&chars_of(sample), sep)), expected);
        }
    }
    assert_eq!(strings(split_on(&chars_of(""), '/')), vec![""]);
    assert_eq!(strings(split_on(&chars_of("a//b/"), '/')), vec!["a", "", "b", ""]);
}

#[test]
fn numbers_are_read_as_std_reads_them() {
    let samples = [
        "", "0", "7", "007", "+7", "-7", "-0", "+", "-", "+-7", "--7", "7 ", " 7", "7a",
        "65535", "65536", "2147483647", "2147483648", "-2147483648", "-2147483649",
        "4294967295", "4294967296", "99999999999999999999999", "0000000000000000000000012",
        "١٢٣", "1_000", "1.5", "0x10",
    ];
    for sample in samples {
        let chars = chars_of(sample);
        assert_eq!(parse_i32_chars(&chars), sample.parse::<i32>().ok(), "{:?}", sample);
        assert_eq!(parse_u16_chars(&chars), sample.parse::<u16>().ok(), "{:?}", sample);
        assert_eq!(parse_u32_chars(&chars), sample.parse::<u32>().ok(), "{:?}", sample);
    }
    assert_eq!(parse_i32_chars(&chars_of("-2147483648")), Some(i32::MIN));
    assert_eq!(parse_u16_chars(&chars_of("+8080")), Some(8080));
    assert_eq!(parse_u16_chars(&chars_of("-1")), None);
}

#[test]
fn numbers_are_written_as_std_writes_them() {
    for n in [0u64, 1, 9, 10, 11, 99, 100, 3000, 65535, u32::MAX as u64, u64::MAX] {
        assert_eq!(decimal_string(n), n.to_string());
    }
    for v in [0i32, 1, -1, 42, -42, 333, i32::MAX, i32::MIN] {
        let mut out = String::from("pid ");
        push_signed_decimal(&mut out, v);
        assert_eq!(out, format!("pid {}", v));
    }
}

#[test]
fn what_is_written_is_read_back() {
    for v in [0i32, 5, -5, 111, 222, i32::MAX, i32::MIN] {
        let mut out = String::new();
        push_signed_decimal(&mut out, v);
        assert_eq!(parse_i32_chars(&chars_of(&out)), Some(v));
    }
}
