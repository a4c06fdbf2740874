use dice_roller::dice::DiceError;
use dice_roller::dice::DieType;
use dice_roller::notation::RollDice;

fn parse(text: &str) -> Result<Vec<DieType>, DiceError> {
    RollDice::DiceString(text.to_string()).to_dice()
}

#[test]
fn parses_counts_of_six_sided_dice() {
    for n in [1usize, 2, 3, 10] {
        let dice = parse(&format!("{n}d6")).unwrap();
        assert_eq!(dice.len(), n);
        assert!(dice.iter().all(|d| *d == DieType::D6));
    }
}

#[test]
fn surrounding_text_is_ignored() {
    let embedded = parse("Arin rolls 3d6 for his check").unwrap();
    let plain = parse("3d6").unwrap();
    assert_eq!(embedded, plain);
    assert_eq!(embedded, vec![DieType::D6; 3]);
}

#[test]
fn unsupported_faces_are_rejected_by_name() {
    match parse("2d7") {
        Err(DiceError::UnsupportedDie { faces }) => assert_eq!(faces, 7),
        other => panic!("expected an unsupported-die error, got {other:?}"),
    }
}

#[test]
fn non_matching_input_is_rejected_with_the_input() {
    match parse("hello world") {
        Err(DiceError::NoDiceExpression { input }) => assert_eq!(input, "hello world"),
        other => panic!("expected a no-dice-expression error, got {other:?}"),
    }
}

#[test]
fn explicit_dice_round_trip() {
    let requested = vec![DieType::D6, DieType::D6, DieType::D6, DieType::D6];
    let dice = RollDice::Dice(requested.clone()).to_dice().unwrap();
    assert_eq!(dice, requested);
}

#[test]
fn explicit_empty_list_round_trips() {
    let dice = RollDice::Dice(Vec::new()).to_dice().unwrap();
    assert!(dice.is_empty());
}

#[test]
fn empty_string_is_rejected() {
    assert!(matches!(parse(""), Err(DiceError::NoDiceExpression { .. })));
}

#[test]
fn count_of_zero_yields_no_dice() {
    let dice = parse("0d6").unwrap();
    assert!(dice.is_empty());
}

#[test]
fn empty_count_is_rejected_as_malformed() {
    assert!(matches!(parse("d6"), Err(DiceError::NoDiceExpression { .. })));
}

#[test]
fn empty_faces_run_is_rejected_as_malformed() {
    assert!(matches!(parse("3d"), Err(DiceError::NoDiceExpression { .. })));
}

#[test]
fn upper_case_marker_is_accepted() {
    let dice = parse("3D6").unwrap();
    assert_eq!(dice, vec![DieType::D6; 3]);
}

#[test]
fn faces_run_is_read_to_its_end() {
    match parse("1d60") {
        Err(DiceError::UnsupportedDie { faces }) => assert_eq!(faces, 60),
        other => panic!("expected an unsupported-die error, got {other:?}"),
    }
}

#[test]
fn leading_zeroes_in_faces_are_plain_digits() {
    match parse("2d07") {
        Err(DiceError::UnsupportedDie { faces }) => assert_eq!(faces, 7),
        other => panic!("expected an unsupported-die error, got {other:?}"),
    }
}

#[test]
fn leading_zeroes_in_count_are_plain_digits() {
    let dice = parse("03d6").unwrap();
    assert_eq!(dice, vec![DieType::D6; 3]);
}

#[test]
fn leftmost_expression_wins() {
    match parse("2d7 then 3d6") {
        Err(DiceError::UnsupportedDie { faces }) => assert_eq!(faces, 7),
        other => panic!("expected the leftmost expression to decide, got {other:?}"),
    }
}

#[test]
fn oversized_count_is_rejected_as_malformed() {
    let text = "99999999999999999999999999d6";
    assert!(matches!(parse(text), Err(DiceError::NoDiceExpression { .. })));
}

#[test]
fn oversized_faces_are_rejected_as_malformed() {
    let text = "1d99999999999999999999999999";
    assert!(matches!(parse(text), Err(DiceError::NoDiceExpression { .. })));
}

#[test]
fn marker_with_empty_faces_before_digits_is_no_expression() {
    // The run after the first marker is empty, and no later expression
    // exists, so the whole text is malformed.
    assert!(matches!(parse("3dd6"), Err(DiceError::NoDiceExpression { .. })));
}

#[test]
fn multi_digit_count_is_read_whole() {
    let dice = parse("12d6").unwrap();
    assert_eq!(dice.len(), 12);
}

#[test]
fn text_after_a_complete_expression_is_ignored() {
    let dice = parse("3d6d6").unwrap();
    assert_eq!(dice, vec![DieType::D6; 3]);
}

#[test]
fn malformed_notation_error_text_quotes_the_input() {
    let err = parse("hello world").unwrap_err();
    assert_eq!(err.describe(), "No dice expression detected in 'hello world'");
}

#[test]
fn unsupported_die_error_text_names_the_faces() {
    let err = parse("3d20").unwrap_err();
    assert_eq!(err.describe(), "No such die type: d20");
    let err = parse("1d4097").unwrap_err();
    assert_eq!(err.describe(), "No such die type: d4097");
    let err = parse("1d0").unwrap_err();
    assert_eq!(err.describe(), "No such die type: d0");
}

#[test]
fn notation_embedded_without_spaces_is_found() {
    let dice = parse("x1d6y").unwrap();
    assert_eq!(dice, vec![DieType::D6; 1]);
}
