use rule_config::errors::DecodeError;
use rule_config::scalars::{parse_bool, parse_csv_string, parse_i32_str};

#[test]
fn bool_true_variants() {
    assert_eq!(parse_bool("true").unwrap(), true);
    assert_eq!(parse_bool("True").unwrap(), true);
    assert_eq!(parse_bool("TRUE").unwrap(), true);
    assert_eq!(parse_bool("tRuE").unwrap(), true);
}

#[test]
fn bool_false_variants() {
    assert_eq!(parse_bool("false").unwrap(), false);
    assert_eq!(parse_bool("False").unwrap(), false);
    assert_eq!(parse_bool("FALSE").unwrap(), false);
    assert_eq!(parse_bool("").unwrap(), false);
    assert_eq!(parse_bool(" ").unwrap(), false);
}

#[test]
fn bool_rejects_everything_else() {
    for raw in ["  ", "yes", "no", "1", "0", "truee", "tru", "false "] {
        match parse_bool(raw) {
            Err(DecodeError::InvalidBoolean(s)) => assert_eq!(s, raw),
            other => panic!("expected InvalidBoolean for {:?}, got {:?}", raw, other),
        }
    }
}

#[test]
fn int_list_empty_is_empty() {
    assert_eq!(parse_csv_string("").unwrap(), Vec::<i32>::new());
}

#[test]
fn int_list_plain() {
    assert_eq!(parse_csv_string("1,2,3").unwrap(), vec![1, 2, 3]);
}

#[test]
fn int_list_drops_empty_segments() {
    assert_eq!(parse_csv_string("1,,3").unwrap(), vec![1, 3]);
    assert_eq!(parse_csv_string(",5,").unwrap(), vec![5]);
    assert_eq!(parse_csv_string(",,,").unwrap(), Vec::<i32>::new());
}

#[test]
fn int_list_reports_offending_segment() {
    match parse_csv_string("1,a,3") {
        Err(DecodeError::InvalidIntegerList(raw, seg)) => {
            assert_eq!(raw, "1,a,3");
            assert_eq!(seg, "a");
        }
        other => panic!("expected InvalidIntegerList, got {:?}", other),
    }
    match parse_csv_string("7, 8") {
        Err(DecodeError::InvalidIntegerList(raw, seg)) => {
            assert_eq!(raw, "7, 8");
            assert_eq!(seg, " 8");
        }
        other => panic!("expected InvalidIntegerList, got {:?}", other),
    }
}

#[test]
fn int_list_signs_and_bounds() {
    assert_eq!(parse_csv_string("-5,+7").unwrap(), vec![-5, 7]);
    assert_eq!(parse_csv_string("2147483647").unwrap(), vec![i32::MAX]);
    assert_eq!(parse_csv_string("-2147483648").unwrap(), vec![i32::MIN]);
    assert!(parse_csv_string("2147483648").is_err());
    assert!(parse_csv_string("-2147483649").is_err());
    assert!(parse_csv_string("99999999999999999999").is_err());
}

#[test]
fn int_parse_matches_std() {
    for raw in [
        "0", "7", "-7", "+12", "2147483647", "-2147483648", "2147483648", "", "-", "+", "1.5",
        " 1", "1 ", "0012",
    ] {
        assert_eq!(parse_i32_str(raw), raw.parse::<i32>().ok(), "on {:?}", raw);
    }
}
