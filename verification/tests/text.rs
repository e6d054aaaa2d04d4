use floppa_cli::numerals::{
    decimal_chars, hex_digit_char, parse_u32, push_repeated, signed_chars, zero_padded_chars,
};
use floppa_cli::text::{
    chars_of, find, is_whitespace, same_chars, same_text, split, split_once, split_whitespace,
    starts_with, string_of, take_line, trim, trim_back, trim_front,
};

fn text(chars: &[char]) -> String {
    string_of(chars)
}

const SAMPLES: [&str; 22] = [
    "", " ", "a", " a", "a ", " a b ", "\t\r\n", "a\r\nb", "a\rb", "a\r", "\r\n", "\n", "a\n\nb",
    "a,b,,c", ",", "a=b=c", "=", "é\u{2003}ß", "\u{3000}x\u{85}", "a.b.c", "..", "GET / HTTP/1.1\r\n",
];

#[test]
fn whitespace_is_what_std_says() {
    for code in 0..=0x10ffffu32 {
        if let Some(c) = char::from_u32(code) {
            assert_eq!(is_whitespace(c), c.is_whitespace(), "{code:x}");
        }
    }
}

#[test]
fn text_is_taken_apart_as_std_does() {
    for sample in SAMPLES {
        let chars = chars_of(sample);
        assert_eq!(chars, sample.chars().collect::<Vec<char>>());
        assert_eq!(text(&chars), sample);
        assert_eq!(text(trim(&chars)), sample.trim());
        assert_eq!(text(trim_front(&chars)), sample.trim_start());
        assert_eq!(text(trim_back(&chars)), sample.trim_end());
        assert_eq!(take_line(&chars).map(text), sample.lines().next().map(str::to_string));
        let words: Vec<String> = split_whitespace(&chars).into_iter().map(text).collect();
        assert_eq!(words, sample.split_whitespace().collect::<Vec<&str>>());
        for sep in [',', '=', '.', ' ', '\n'] {
            let parts: Vec<String> = split(&chars, sep).into_iter().map(text).collect();
            assert_eq!(parts, sample.split(sep).collect::<Vec<&str>>());
            let halves = split_once(&chars, sep).map(|(a, b)| (text(a), text(b)));
            let expected = sample.split_once(sep).map(|(a, b)| (a.to_string(), b.to_string()));
            assert_eq!(halves, expected);
            let found = sample.chars().position(|c| c == sep).unwrap_or(chars.len());
            assert_eq!(find(&chars, sep), found);
        }
        for other in SAMPLES {
            let others = chars_of(other);
            assert_eq!(starts_with(&chars, &others), sample.starts_with(other));
            assert_eq!(same_text(sample, other), sample == other);
            assert_eq!(same_chars(&chars, &others), sample == other);
        }
    }
}

#[test]
fn numbers_are_written_as_std_does() {
    for n in [0u64, 1, 9, 10, 11, 99, 100, 65_535, 1_000_000, u64::MAX] {
        assert_eq!(text(&decimal_chars(n)), format!("{n}"));
    }
    for n in [0i64, 5, -5, 10, -10, 99, 100, 9999, 10_000, -1, -99, -999, -1000, i64::MIN, i64::MAX] {
        assert_eq!(text(&signed_chars(n)), format!("{n}"));
        assert_eq!(text(&zero_padded_chars(n, 4)), format!("{n:04}"));
        assert_eq!(text(&zero_padded_chars(n, 2)), format!("{n:02}"));
        assert_eq!(text(&zero_padded_chars(n, 0)), format!("{n}"));
    }
    for d in 0u8..16 {
        assert_eq!(hex_digit_char(d).to_string(), format!("{d:X}"));
    }
    let mut r = vec!['x'];
    push_repeated(&mut r, 'y', 3);
    assert_eq!(text(&r), "xyyy");
}

#[test]
fn numbers_are_read_as_std_does() {
    for s in ["0", "+7", "007", "4294967295", "4294967296", "", "+", "-1", "1a", "１"] {
        assert_eq!(parse_u32(&chars_of(s)), s.parse::<u32>().ok(), "{s:?}");
    }
}
