use connect4::error::game_error;
use connect4::input::trim;
use connect4::input::try_move;
use connect4::input::validate_move;

#[test]
fn validate_accepts_exactly_the_seven_digits() {
    assert_eq!(validate_move("1").unwrap(), 0);
    assert_eq!(validate_move("2").unwrap(), 1);
    assert_eq!(validate_move("3").unwrap(), 2);
    assert_eq!(validate_move("4").unwrap(), 3);
    assert_eq!(validate_move("5").unwrap(), 4);
    assert_eq!(validate_move("6").unwrap(), 5);
    assert_eq!(validate_move("7").unwrap(), 6);
}

#[test]
fn validate_rejects_everything_else() {
    assert!(validate_move("0").is_err());
    assert!(validate_move("8").is_err());
    assert!(validate_move("").is_err());
    assert!(validate_move("a").is_err());
    assert!(validate_move("10").is_err());
    assert!(validate_move("77").is_err());
    assert!(validate_move("-1").is_err());
}

#[test]
fn validate_error_message() {
    let e = validate_move("9").unwrap_err();
    assert_eq!(e.msg, "column must be one of 1-7");
    assert_eq!(e.description(), "column must be one of 1-7");
}

#[test]
fn moves_are_trimmed_before_validation() {
    assert_eq!(try_move("  3  ").unwrap(), 2);
    assert_eq!(try_move("5\n").unwrap(), 4);
    assert_eq!(try_move("\t7\r\n").unwrap(), 6);
    assert_eq!(try_move("1").unwrap(), 0);
}

#[test]
fn trimmed_garbage_is_still_rejected() {
    assert!(try_move("   ").is_err());
    assert!(try_move("\n").is_err());
    assert!(try_move("").is_err());
    assert!(try_move(" 3 4 ").is_err());
    assert!(try_move(" a ").is_err());
}

#[test]
fn trim_strips_surrounding_whitespace_only() {
    assert_eq!(trim("  3  "), "3");
    assert_eq!(trim("3 4"), "3 4");
    assert_eq!(trim("\r\n x \t"), "x");
    assert_eq!(trim(""), "");
    assert_eq!(trim(" \t\n\r"), "");
}

#[test]
fn game_error_keeps_its_message() {
    let e = game_error("boom");
    assert_eq!(e.msg, "boom");
    assert_eq!(e.description(), "boom");
}
