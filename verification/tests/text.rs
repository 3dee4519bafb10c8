use franklin_client::text::{parse_signed, parse_unsigned, same_text, split_words, SPACE};

fn words_of(line: &str) -> Vec<String> {
    split_words(line.as_bytes(), SPACE)
        .into_iter()
        .map(|word| String::from_utf8(word).unwrap())
        .collect()
}

const LINES: [&str; 14] = [
    "",
    " ",
    "  ",
    "pid",
    "pid p 300",
    "pid  p 300",
    " pid p 300",
    "pid p 300 ",
    "python stream 30",
    "a b c d e f",
    "tab\tis no space",
    "caf\u{e9} \u{2588}\u{2588} x",
    "   x   ",
    "mot on",
];

#[test]
fn split_words_cuts_at_every_space() {
    assert_eq!(SPACE, b' ');
    assert_eq!(words_of("pid p 300"), vec!["pid", "p", "300"]);
    assert_eq!(words_of("ping"), vec!["ping"]);
    assert_eq!(words_of(""), vec![""]);
    assert_eq!(words_of(" "), vec!["", ""]);
    assert_eq!(words_of("pid  p"), vec!["pid", "", "p"]);
    assert_eq!(words_of(" pid"), vec!["", "pid"]);
    assert_eq!(words_of("pid "), vec!["pid", ""]);
}

#[test]
fn split_words_agrees_with_split_of_the_text() {
    for line in LINES {
        let expected: Vec<&str> = line.split(' ').collect();
        assert_eq!(words_of(line), expected);
    }
}

#[test]
fn split_words_joined_give_the_line_and_hold_no_separator() {
    for line in LINES {
        for separator in [b' ', b'p', b'\t', 0u8] {
            let words = split_words(line.as_bytes(), separator);
            assert!(!words.is_empty());
            assert_eq!(
                words.len(),
                1 + line.bytes().filter(|b| *b == separator).count()
            );
            for word in &words {
                assert!(!word.contains(&separator));
            }
            assert_eq!(words.join(&separator), line.as_bytes());
        }
    }
}

#[test]
fn same_text_compares_byte_for_byte() {
    assert!(same_text(b"pid", b"pid"));
    assert!(same_text(b"", b""));
    assert!(!same_text(b"pid", b"pin"));
    assert!(!same_text(b"pid", b"pi"));
    assert!(!same_text(b"pi", b"pid"));
    assert!(!same_text(b"", b"x"));
    assert!(!same_text(b"Pid", b"pid"));
}

const NUMBERS: [&str; 40] = [
    "", "+", "-", "0", "-0", "+0", "7", "007", "-007", "+12", "300", "-20", "32767", "32768",
    "-32768", "-32769", "+32767", "+32768", "65535", "99999", "-99999", "1e3", "1.5", " 1", "1 ",
    "--1", "+-1", "-+1", "1-", "0x10", "١٢", "18446744073709551615", "18446744073709551616",
    "+18446744073709551615", "00000000000000000000000018446744073709551615",
    "000000000000000000000000000032767", "-000000000000000000000000000032768",
    "99999999999999999999999999999999999999", "-99999999999999999999999999999999999999", "12a",
];

#[test]
fn parse_signed_agrees_with_the_standard_reading() {
    for text in NUMBERS {
        assert_eq!(parse_signed(text.as_bytes()), text.parse::<i16>().ok(), "{text:?}");
    }
}

#[test]
fn parse_unsigned_agrees_with_the_standard_reading() {
    for text in NUMBERS {
        assert_eq!(parse_unsigned(text.as_bytes()), text.parse::<u64>().ok(), "{text:?}");
    }
}

#[test]
fn parse_signed_reads_every_value_back() {
    for value in i16::MIN..=i16::MAX {
        assert_eq!(parse_signed(value.to_string().as_bytes()), Some(value));
    }
}

#[test]
fn parse_signed_exact_values() {
    assert_eq!(parse_signed(b"300"), Some(300));
    assert_eq!(parse_signed(b"-20"), Some(-20));
    assert_eq!(parse_signed(b"+48"), Some(48));
    assert_eq!(parse_signed(b"32767"), Some(32767));
    assert_eq!(parse_signed(b"-32768"), Some(-32768));
    assert_eq!(parse_signed(b"32768"), None);
    assert_eq!(parse_signed(b"-32769"), None);
    assert_eq!(parse_signed(b""), None);
    assert_eq!(parse_signed(b"-"), None);
    assert_eq!(parse_signed(b"3 "), None);
    assert_eq!(parse_signed(&[0x33, 0xFF]), None);
}

#[test]
fn parse_unsigned_exact_values() {
    assert_eq!(parse_unsigned(b"0"), Some(0));
    assert_eq!(parse_unsigned(b"30"), Some(30));
    assert_eq!(parse_unsigned(b"+30"), Some(30));
    assert_eq!(parse_unsigned(b"18446744073709551615"), Some(u64::MAX));
    assert_eq!(parse_unsigned(b"18446744073709551616"), None);
    assert_eq!(parse_unsigned(b"18446744073709551620"), None);
    assert_eq!(parse_unsigned(b"-1"), None);
    assert_eq!(parse_unsigned(b"-0"), None);
    assert_eq!(parse_unsigned(b""), None);
    assert_eq!(parse_unsigned(b"+"), None);
    assert_eq!(parse_unsigned(b"3s"), None);
}
