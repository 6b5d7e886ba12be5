use zerodha_bot_rs::text::{decimal_string, parse_u64, to_ascii_lowercase, trim};
use zerodha_bot_rs::ticker::{parse_tokens, Mode, TokenListError, UnknownMode};

#[test]
fn trim_removes_unicode_white_space() {
    assert_eq!(trim("  abc \t\n"), "abc");
    assert_eq!(trim("\u{3000}x y\u{a0}"), "x y");
    assert_eq!(trim("   "), "");
    assert_eq!(trim(""), "");
}

#[test]
fn decimal_text_of_numbers() {
    assert_eq!(decimal_string(0), "0");
    assert_eq!(decimal_string(738561), "738561");
    assert_eq!(decimal_string(u64::MAX), "18446744073709551615");
}

#[test]
fn parse_u64_follows_from_str() {
    assert_eq!(parse_u64("256265"), Some(256265));
    assert_eq!(parse_u64("+7"), Some(7));
    assert_eq!(parse_u64("007"), Some(7));
    assert_eq!(parse_u64("18446744073709551615"), Some(u64::MAX));
    assert_eq!(parse_u64("18446744073709551616"), None);
    assert_eq!(parse_u64(""), None);
    assert_eq!(parse_u64("+"), None);
    assert_eq!(parse_u64("-1"), None);
    assert_eq!(parse_u64(" 1"), None);
    assert_eq!(parse_u64("12a"), None);
}

#[test]
fn decimal_round_trip_on_values() {
    for n in [0u64, 9, 10, 99, 100, 4294967295, 4294967296, u64::MAX] {
        assert_eq!(parse_u64(&decimal_string(n)), Some(n));
    }
}

#[test]
fn ascii_lowercase_keeps_other_characters() {
    assert_eq!(to_ascii_lowercase("TrUe Ä"), "true Ä");
}

#[test]
fn parse_tokens_reads_a_list() {
    assert_eq!(parse_tokens("738561").unwrap(), vec![738561]);
    assert_eq!(parse_tokens(" 738561 , 5633,,  ").unwrap(), vec![738561, 5633]);
    assert_eq!(parse_tokens("+1,2").unwrap(), vec![1, 2]);
}

#[test]
fn parse_tokens_reports_the_first_bad_token() {
    assert_eq!(parse_tokens("1, abc ,x").unwrap_err(), TokenListError::BadToken("abc".to_string()));
    assert_eq!(parse_tokens("4294967296").unwrap_err(), TokenListError::BadToken("4294967296".to_string()));
    assert_eq!(parse_tokens("1,-2").unwrap_err(), TokenListError::BadToken("-2".to_string()));
}

#[test]
fn parse_tokens_refuses_an_empty_list() {
    assert_eq!(parse_tokens("").unwrap_err(), TokenListError::Empty);
    assert_eq!(parse_tokens(" , ,").unwrap_err(), TokenListError::Empty);
}

#[test]
fn mode_names() {
    assert_eq!(Mode::Ltp.as_str(), "ltp");
    assert_eq!(Mode::Quote.as_str(), "quote");
    assert_eq!(Mode::Full.as_str(), "full");
}

#[test]
fn mode_parse_ignores_case_and_space() {
    assert_eq!(Mode::parse(" FULL "), Ok(Mode::Full));
    assert_eq!(Mode::parse("Quote"), Ok(Mode::Quote));
    assert_eq!("ltp".parse::<Mode>(), Ok(Mode::Ltp));
    assert_eq!(Mode::parse("depth"), Err(UnknownMode));
    assert_eq!(Mode::parse(""), Err(UnknownMode));
}

#[test]
fn mode_parse_round_trip() {
    for m in [Mode::Ltp, Mode::Quote, Mode::Full] {
        assert_eq!(Mode::parse(m.as_str()), Ok(m));
    }
}

#[test]
fn joined_token_lists_concatenate() {
    let a = "738561, 5633";
    let b = " ,256265";
    let x = parse_tokens(a).unwrap();
    let y = parse_tokens(b).unwrap();
    let mut xy = x.clone();
    xy.extend(y.iter().copied());
    assert_eq!(parse_tokens(&format!("{a},{b}")).unwrap(), xy);
    assert_eq!(xy, vec![738561, 5633, 256265]);
}

#[test]
fn mode_names_in_any_case_parse_back() {
    for m in [Mode::Ltp, Mode::Quote, Mode::Full] {
        let padded = format!(" \t{} ", m.as_str().to_uppercase());
        assert_eq!(Mode::parse(&padded), Ok(m));
    }
}
