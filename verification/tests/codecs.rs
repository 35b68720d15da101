//! The scalar codec layer, exercised on concrete values.

use gtfs_parser::codecs::{
    decode_bool, decode_date, decode_option_color, decode_time, encode_bool, encode_color,
    encode_date, encode_time, parse_time, Date, Rgb,
};
use gtfs_parser::error::Error;

#[test]
fn bool_decode_encode_identity() {
    assert_eq!(decode_bool("0").unwrap(), false);
    assert_eq!(decode_bool("1").unwrap(), true);
    assert_eq!(encode_bool(decode_bool("0").unwrap()), "0");
    assert_eq!(encode_bool(decode_bool("1").unwrap()), "1");
}

#[test]
fn bool_rejects_everything_else() {
    for bad in ["2", "true", "", " 1", "01"] {
        match decode_bool(bad) {
            Err(Error::InvalidValue(t)) => assert_eq!(t, bad),
            other => panic!("{} should be rejected, got {:?}", bad, other),
        }
    }
}

#[test]
fn time_decodes_to_total_seconds() {
    assert_eq!(decode_time("14:00:00").unwrap(), 14 * 3600);
    assert_eq!(decode_time("1:02:03").unwrap(), 3600 + 2 * 60 + 3);
    assert_eq!(decode_time("0:00:00").unwrap(), 0);
}

#[test]
fn time_accepts_hours_past_midnight() {
    assert_eq!(decode_time("28:00:00").unwrap(), 28 * 3600);
    assert_eq!(decode_time("25:30:10").unwrap(), 25 * 3600 + 30 * 60 + 10);
}

#[test]
fn time_wrong_part_count_names_the_text() {
    match decode_time("14:00") {
        Err(Error::InvalidTime(t)) => assert_eq!(t, "14:00"),
        other => panic!("expected invalid time, got {:?}", other),
    }
    match decode_time("1:2:3:4") {
        Err(Error::InvalidTime(t)) => assert_eq!(t, "1:2:3:4"),
        other => panic!("expected invalid time, got {:?}", other),
    }
    match decode_time("") {
        Err(Error::InvalidTime(t)) => assert_eq!(t, ""),
        other => panic!("expected invalid time, got {:?}", other),
    }
}

#[test]
fn time_bad_part_names_the_part() {
    match decode_time("x:00:00") {
        Err(Error::InvalidNumber(t)) => assert_eq!(t, "x"),
        other => panic!("expected invalid number, got {:?}", other),
    }
    match decode_time("10:0y:00") {
        Err(Error::InvalidNumber(t)) => assert_eq!(t, "0y"),
        other => panic!("expected invalid number, got {:?}", other),
    }
}

#[test]
fn time_tolerates_leading_whitespace() {
    assert_eq!(decode_time(" 14:00:00").unwrap(), 14 * 3600);
}

#[test]
fn time_encoding_is_plain_decimal() {
    // The clock-time codec is lossy on the textual form: the numeric meaning
    // is kept, the colon shape is not reconstructed.
    assert_eq!(encode_time(decode_time("14:00:00").unwrap()), "50400");
    assert_eq!(encode_time(0), "0");
}

#[test]
fn parse_time_combines_parts() {
    assert_eq!(parse_time(vec!["14", "0", "0"]).unwrap(), 14 * 3600);
    assert_eq!(parse_time(vec!["28", "00", "00"]).unwrap(), 28 * 3600);
    match parse_time(vec!["a", "0", "0"]) {
        Err(Error::InvalidNumber(t)) => assert_eq!(t, "a"),
        other => panic!("expected invalid number, got {:?}", other),
    }
}

#[test]
fn date_decodes_year_month_day() {
    assert_eq!(decode_date("20060731").unwrap(), Date { year: 2006, month: 7, day: 31 });
    assert_eq!(decode_date("20060701").unwrap(), Date { year: 2006, month: 7, day: 1 });
}

#[test]
fn date_encoding_zero_pads() {
    assert_eq!(encode_date(&Date { year: 2006, month: 7, day: 1 }), "20060701");
    assert_eq!(encode_date(&Date { year: 987, month: 12, day: 31 }), "09871231");
}

#[test]
fn date_round_trip() {
    for text in ["20060731", "20240229", "19991231", "20000101"] {
        let d = decode_date(text).unwrap();
        assert_eq!(encode_date(&d), text);
    }
}

#[test]
fn date_rejects_malformed_text() {
    for bad in ["2006731", "200607311", "2006-07-31", "abcdefgh", "", "20061301", "20060732"] {
        assert!(decode_date(bad).is_err(), "{} should be rejected", bad);
    }
    // February follows the leap-year rule.
    assert!(decode_date("20240229").is_ok());
    assert!(decode_date("20230229").is_err());
    assert!(decode_date("19000229").is_err());
    assert!(decode_date("20000229").is_ok());
}

#[test]
fn color_decodes_three_channels() {
    assert_eq!(
        decode_option_color("FF00A0").unwrap(),
        Some(Rgb { r: 255, g: 0, b: 160 }),
    );
}

#[test]
fn color_encodes_uppercase_zero_padded() {
    assert_eq!(encode_color(&Rgb { r: 255, g: 0, b: 160 }), "FF00A0");
    assert_eq!(encode_color(&Rgb { r: 0, g: 1, b: 15 }), "00010F");
}

#[test]
fn color_round_trip() {
    let c = decode_option_color("FF00A0").unwrap().unwrap();
    assert_eq!(c, Rgb { r: 255, g: 0, b: 160 });
    assert_eq!(encode_color(&c), "FF00A0");
}

#[test]
fn color_blank_is_no_value() {
    assert_eq!(decode_option_color("").unwrap(), None);
    assert_eq!(decode_option_color("   ").unwrap(), None);
}

#[test]
fn color_accepts_lower_case_and_trims() {
    assert_eq!(
        decode_option_color(" ff00a0 ").unwrap(),
        Some(Rgb { r: 255, g: 0, b: 160 }),
    );
}

#[test]
fn color_rejects_other_shapes() {
    for bad in ["FF00A", "FF00A0B", "GG0000", "FF 0A0"] {
        match decode_option_color(bad) {
            Err(Error::InvalidColor(_)) => {},
            other => panic!("{} should be rejected, got {:?}", bad, other),
        }
    }
}
