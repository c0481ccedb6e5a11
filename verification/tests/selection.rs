use one_pkg::error::EngineError;
use one_pkg::selection::parse_choice;

#[test]
fn a_number_names_a_backend_counted_from_one() {
    assert_eq!(parse_choice("1\n", 3), Ok(0));
    assert_eq!(parse_choice("2\n", 3), Ok(1));
    assert_eq!(parse_choice("3\n", 3), Ok(2));
    assert_eq!(parse_choice("12\n", 12), Ok(11));
    assert_eq!(parse_choice("007\n", 7), Ok(6));
}

#[test]
fn a_plus_sign_may_stand_first() {
    assert_eq!(parse_choice("+2\n", 3), Ok(1));
    assert_eq!(parse_choice("+\n", 3), Err(EngineError::AmbiguousOrInvalidSelection));
    assert_eq!(parse_choice("++2\n", 3), Err(EngineError::AmbiguousOrInvalidSelection));
}

#[test]
fn numbers_out_of_range_are_refused() {
    assert_eq!(parse_choice("0\n", 3), Err(EngineError::AmbiguousOrInvalidSelection));
    assert_eq!(parse_choice("4\n", 3), Err(EngineError::AmbiguousOrInvalidSelection));
    assert_eq!(parse_choice("1\n", 0), Err(EngineError::AmbiguousOrInvalidSelection));
    assert_eq!(
        parse_choice("99999999999999999999999999999999999999999999\n", usize::MAX),
        Err(EngineError::AmbiguousOrInvalidSelection)
    );
    assert_eq!(parse_choice("18446744073709551615\n", usize::MAX), Ok(usize::MAX - 1));
}

#[test]
fn what_is_no_number_is_refused() {
    for line in ["\n", "", "x\n", "1x\n", " 1\n", "1 \n", "-1\n", "1.0\n", "\u{0968}\n"] {
        assert_eq!(parse_choice(line, 3), Err(EngineError::AmbiguousOrInvalidSelection));
    }
}

#[test]
fn the_last_character_is_the_terminator() {
    assert_eq!(parse_choice("2", 3), Err(EngineError::AmbiguousOrInvalidSelection));
    assert_eq!(parse_choice("23", 3), Ok(1));
    assert_eq!(parse_choice("2\r\n", 3), Err(EngineError::AmbiguousOrInvalidSelection));
}
