use battleships::input::{parse_number, parse_orientation, split_words};
use battleships::{
    parse_board_size, parse_coordinates, parse_placement, GameError, Orientation, Placement,
};

fn word(s: &str) -> Vec<char> {
    s.chars().collect()
}

#[test]
fn board_size_must_lie_between_nine_and_twenty() {
    assert_eq!(parse_board_size("9\n"), Ok(9));
    assert_eq!(parse_board_size("20"), Ok(20));
    assert_eq!(parse_board_size("  14 \r\n"), Ok(14));
    assert_eq!(parse_board_size("+12"), Ok(12));
    assert_eq!(parse_board_size("009"), Ok(9));
    for line in ["8", "21", "0", "", "\n", "ten", "9 9", "-9", "9.0", "1 0", "99999999999999999999999"] {
        assert_eq!(parse_board_size(line), Err(GameError::InvalidInput));
    }
}

#[test]
fn coordinates_are_two_numbers() {
    assert_eq!(parse_coordinates("3 4\n"), Ok((3, 4)));
    assert_eq!(parse_coordinates("  0\t\t19  "), Ok((0, 19)));
    assert_eq!(parse_coordinates("+7 007"), Ok((7, 7)));
    assert_eq!(parse_coordinates("3\u{a0}4"), Ok((3, 4)));
    assert_eq!(parse_coordinates("3\u{3000}4\u{2003}"), Ok((3, 4)));
    assert_eq!(parse_coordinates("100 200"), Ok((100, 200)));
    for line in ["", "3", "3 4 5", "a 4", "3 b", "3,4", "-3 4", "3 -4", "3.0 4", "+ 4", "3 ++4", "3_4"] {
        assert_eq!(parse_coordinates(line), Err(GameError::InvalidInput));
    }
}

#[test]
fn numbers_that_do_not_fit_are_refused() {
    let max = usize::MAX.to_string();
    assert_eq!(parse_number(&word(&max)), Some(usize::MAX));
    assert_eq!(parse_number(&word(&format!("+000{}", max))), Some(usize::MAX));
    let over = format!("{}", usize::MAX as u128 + 1);
    assert_eq!(parse_number(&word(&over)), None);
    assert_eq!(parse_number(&word(&format!("{}0", max))), None);
    assert_eq!(parse_number(&word(&format!("{}x", max))), None);
    assert_eq!(parse_coordinates(&format!("{} 1", over)), Err(GameError::InvalidInput));
    assert_eq!(parse_coordinates(&format!("{} 1", max)), Ok((usize::MAX, 1)));
}

#[test]
fn numbers_are_decimal_digits_with_an_optional_plus() {
    assert_eq!(parse_number(&word("0")), Some(0));
    assert_eq!(parse_number(&word("42")), Some(42));
    assert_eq!(parse_number(&word("+42")), Some(42));
    assert_eq!(parse_number(&word("1234567890")), Some(1234567890));
    for bad in ["", "+", "-", "-1", "++1", "1+", "4 2", "0x10", "1e3", "\u{661}", "12a", "a12"] {
        assert_eq!(parse_number(&word(bad)), None);
    }
}

#[test]
fn numbers_agree_with_the_standard_parser() {
    let samples = [
        "0", "7", "+7", "-7", "", "+", "00012", "18446744073709551615", "18446744073709551616",
        "99999999999999999999", "1 2", "12x", "x", "+-1", "\u{ff11}",
    ];
    for s in samples {
        assert_eq!(parse_number(&word(s)), s.parse::<usize>().ok());
    }
}

#[test]
fn words_are_split_at_white_space() {
    let split = |s: &str| -> Vec<String> {
        split_words(s).into_iter().map(|w| w.into_iter().collect()).collect()
    };
    assert_eq!(split(""), Vec::<String>::new());
    assert_eq!(split("   \t\n"), Vec::<String>::new());
    assert_eq!(split("a"), vec!["a"]);
    assert_eq!(split(" ab  cd e "), vec!["ab", "cd", "e"]);
    assert_eq!(split("1\u{85}2\u{1680}3\u{2028}4\u{2029}5\u{202f}6\u{205f}7"), vec!["1", "2", "3", "4", "5", "6", "7"]);
    assert_eq!(split("x\u{200b}y"), vec!["x\u{200b}y"]);
    assert_eq!(split("h\u{b}v\u{c}w\rz"), vec!["h", "v", "w", "z"]);
    let samples = ["", " ", "a b", "  3   4 h\n", "\u{2000}q\u{200a}r", "tab\tsep", "é ü"];
    for s in samples {
        let expected: Vec<String> = s.split_whitespace().map(String::from).collect();
        assert_eq!(split(s), expected);
    }
}

#[test]
fn placement_is_column_row_and_orientation() {
    assert_eq!(
        parse_placement("0 0 h\n"),
        Ok(Placement { col: 0, row: 0, orientation: Orientation::Horizontal })
    );
    assert_eq!(
        parse_placement("  12 7   v"),
        Ok(Placement { col: 12, row: 7, orientation: Orientation::Vertical })
    );
    for line in ["", "0 0", "0 0 x", "0 0 H", "0 0 V", "0 0 hv", "0 0 h v", "h 0 0", "a 0 h", "0 b v", "0 0 horizontal"] {
        assert_eq!(parse_placement(line), Err(GameError::InvalidInput));
    }
}

#[test]
fn orientation_is_one_letter() {
    assert_eq!(parse_orientation(&word("h")), Some(Orientation::Horizontal));
    assert_eq!(parse_orientation(&word("v")), Some(Orientation::Vertical));
    assert_eq!(parse_orientation(&word("")), None);
    assert_eq!(parse_orientation(&word("hh")), None);
    assert_eq!(parse_orientation(&word("x")), None);
}
