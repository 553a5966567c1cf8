use wallet_api::text::{i64_to_dec, parse_u64, u64_to_dec};

#[test]
fn decimal_text_of_numbers() {
    assert_eq!(u64_to_dec(0), "0");
    assert_eq!(u64_to_dec(12345), "12345");
    assert_eq!(u64_to_dec(u64::MAX), "18446744073709551615");
    assert_eq!(i64_to_dec(-42), "-42");
    assert_eq!(i64_to_dec(i64::MIN), "-9223372036854775808");
}

#[test]
fn parse_u64_like_std() {
    for s in ["", "+", "-1", "12a", " 1", "18446744073709551616", "+7", "007", "18446744073709551615"] {
        assert_eq!(parse_u64(s), s.parse::<u64>().ok(), "input {:?}", s);
    }
}

use wallet_api::text::{chars_of, is_blank, split_chars, string_of, trim_chars, trimmed_equals};

#[test]
fn decimal_text_reads_back() {
    for n in [0u64, 1, 9, 10, 99, 100, 4096, u64::MAX - 1, u64::MAX] {
        assert_eq!(parse_u64(&u64_to_dec(n)), Some(n));
    }
}

#[test]
fn trimming_follows_str_trim() {
    for s in ["", "   ", "\t a b \n", "\u{3000}x\u{2028}", "abc", " \u{85}y"] {
        let t = trim_chars(&chars_of(s));
        assert_eq!(string_of(&t), s.trim());
        assert_eq!(is_blank(&chars_of(s)), s.trim().is_empty());
    }
    assert!(trimmed_equals("  config data not exist\n", "config data not exist"));
    assert!(!trimmed_equals("config data", "config data not exist"));
}

#[test]
fn splitting_follows_str_split() {
    for s in ["", "a", "a:b", ":a::b:", "::"] {
        let pieces: Vec<String> = split_chars(&chars_of(s), ':').iter().map(|p| string_of(p)).collect();
        let expected: Vec<String> = s.split(':').map(|p| p.to_string()).collect();
        assert_eq!(pieces, expected);
    }
}
