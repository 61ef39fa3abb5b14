use bevm::text::{
    append_decimal, append_hex, append_hex_digits, is_ascii_whitespace, is_variable_name_char,
    fields, is_whitespace, lines, parse_hex, split, to_chars, to_string, trim_range,
};
use std::io::BufRead;

fn chars(s: &str) -> Vec<char> {
    s.chars().collect()
}

fn text(v: &Vec<char>) -> String {
    v.iter().collect()
}

const SAMPLES: [&str; 40] = [
    "", "0", "7", "a", "F", "g", "10", "ff", "FF", "7FF", "0800", "FFFF", "ffff", "10000", "00000",
    "0000FFFF", "00010000", "+", "+0", "+1F", "++1", "-1", "-", " 1", "1 ", "1_0", "0x10", "12 34",
    "ы", "１", "+FFFF", "+10000", "abcdef", "ABCDEF", "fffff", "F0F0", "00", "+00", "9z", "z9",
];

#[test]
fn parse_hex_agrees_with_the_standard_library() {
    for s in SAMPLES {
        assert_eq!(parse_hex(&chars(s)), u16::from_str_radix(s, 16).ok(), "input {:?}", s);
    }
}

#[test]
fn parse_hex_reads_every_number_that_was_written() {
    for v in 0..=0xFFFFu32 {
        let mut s = String::new();
        append_hex(&mut s, v, 4);
        assert_eq!(parse_hex(&chars(&s)), Some(v as u16));
    }
}

#[test]
fn parse_hex_exact_values() {
    assert_eq!(parse_hex(&chars("7FF")), Some(0x7FF));
    assert_eq!(parse_hex(&chars("+1f")), Some(0x1F));
    assert_eq!(parse_hex(&chars("10000")), None);
    assert_eq!(parse_hex(&chars("")), None);
    assert_eq!(parse_hex(&chars("+")), None);
}

#[test]
fn append_hex_agrees_with_format() {
    for v in [0u32, 1, 9, 10, 15, 16, 255, 256, 0x7FF, 0xFFFF, 0x10000, 0x1FFFF, 0xFFFF_FFFF] {
        for width in [0usize, 1, 2, 3, 4, 5, 8, 10] {
            let mut s = String::from("x");
            append_hex(&mut s, v, width);
            assert_eq!(s, format!("x{:0>w$X}", v, w = width));
        }
        let mut s = String::new();
        append_hex_digits(&mut s, v as u64);
        assert_eq!(s, format!("{:X}", v));
    }
    let mut s = String::new();
    append_hex(&mut s, 0x24, 3);
    assert_eq!(s, "024");
    let mut s = String::new();
    append_hex(&mut s, 0x1FFFF, 4);
    assert_eq!(s, "1FFFF");
}

#[test]
fn append_decimal_agrees_with_format() {
    for v in [0u64, 1, 9, 10, 15, 16, 99, 100, 65535, 4294967295, u64::MAX] {
        let mut s = String::from("n=");
        append_decimal(&mut s, v);
        assert_eq!(s, format!("n={}", v));
    }
    let mut s = String::new();
    append_decimal(&mut s, 15);
    assert_eq!(s, "15");
}

#[test]
fn characters_go_to_a_vector_and_back() {
    for s in ["", "abc", "РС = БР; ", "a\u{2028}b", "𝄞"] {
        let v = to_chars(s);
        assert_eq!(v, chars(s));
        assert_eq!(to_string(&v), s);
    }
    assert_eq!(to_string(&vec!['a', 'Б']), "aБ");
}

#[test]
fn whitespace_agrees_with_the_standard_library() {
    for n in 0..=0x10FFFFu32 {
        if let Some(c) = char::from_u32(n) {
            assert_eq!(is_whitespace(c), c.is_whitespace(), "code point {:X}", n);
            assert_eq!(is_ascii_whitespace(c), c.is_ascii_whitespace(), "code point {:X}", n);
            assert_eq!(
                is_variable_name_char(c),
                c.is_ascii_alphanumeric() || c == '_',
                "code point {:X}",
                n
            );
        }
    }
}

const TEXTS: [&str; 22] = [
    "",
    " ",
    "a",
    " a",
    "a ",
    "  a b  ",
    "\ta\n",
    "\u{A0}x\u{3000}",
    "\u{B}v\u{B}",
    "a  b",
    " a b c ",
    "MOV 024",
    "MOV (024)",
    "a$b$c",
    "$",
    "$$",
    "x\r\ny\n",
    "x\ny",
    "\n",
    "\n\n",
    "a\r",
    "a\r\n\r\nb\r",
];

#[test]
fn trim_agrees_with_the_standard_library() {
    for s in TEXTS {
        let v = chars(s);
        let (from, to) = trim_range(&v, 0, v.len());
        assert_eq!(text(&v[from..to].to_vec()), s.trim(), "input {:?}", s);
    }
    let v = chars("x  a b  y");
    assert_eq!(trim_range(&v, 1, 8), (3, 6));
    assert_eq!(trim_range(&v, 1, 3), (3, 3));
}

#[test]
fn split_agrees_with_the_standard_library() {
    for s in TEXTS {
        for sep in [' ', '$', '\n'] {
            let mine: Vec<String> = split(&chars(s), sep).iter().map(text).collect();
            let theirs: Vec<String> = s.split(sep).map(|p| p.to_string()).collect();
            assert_eq!(mine, theirs, "input {:?}", s);
        }
    }
    let pieces: Vec<String> = split(&chars("a  b"), ' ').iter().map(text).collect();
    assert_eq!(pieces, vec!["a", "", "b"]);
}

#[test]
fn fields_agree_with_the_standard_library() {
    for s in TEXTS {
        let mine: Vec<String> = fields(&chars(s)).iter().map(text).collect();
        let theirs: Vec<String> = s.split_whitespace().map(|p| p.to_string()).collect();
        assert_eq!(mine, theirs, "input {:?}", s);
    }
    let pieces: Vec<String> = fields(&chars(" a \t b\u{3000}c ")).iter().map(text).collect();
    assert_eq!(pieces, vec!["a", "b", "c"]);
}

#[test]
fn lines_agree_with_a_buffered_reader() {
    for s in TEXTS {
        let mine: Vec<String> = lines(&chars(s)).iter().map(text).collect();
        let theirs: Vec<String> = s.as_bytes().lines().map(|l| l.unwrap()).collect();
        assert_eq!(mine, theirs, "input {:?}", s);
    }
    let two: Vec<String> = lines(&chars("x\r\ny\n")).iter().map(text).collect();
    assert_eq!(two, vec!["x", "y"]);
    let bare: Vec<String> = lines(&chars("a\r")).iter().map(text).collect();
    assert_eq!(bare, vec!["a\r"]);
}
