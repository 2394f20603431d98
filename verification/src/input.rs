//! The grammar of the lines that players type: words separated by white
//! space, decimal numbers, and the three requests built from them.

use crate::board::{MAX_BOARD_SIZE, MIN_BOARD_SIZE};
use crate::error::GameError;
use crate::placement::{Orientation, Placement};
use vstd::prelude::*;

verus! {

/// Whether `c` is white space: one of the characters with the Unicode
/// property `White_Space`.
pub open spec fn is_space(c: char) -> bool {
    ||| c == ' '
    ||| ('\u{9}' <= c && c <= '\u{d}')
    ||| c == '\u{85}'
    ||| c == '\u{a0}'
    ||| c == '\u{1680}'
    ||| ('\u{2000}' <= c && c <= '\u{200a}')
    ||| c == '\u{2028}'
    ||| c == '\u{2029}'
    ||| c == '\u{202f}'
    ||| c == '\u{205f}'
    ||| c == '\u{3000}'
}

/// Whether `c` is one of the ten decimal digits.
pub open spec fn is_digit(c: char) -> bool {
    '0' <= c && c <= '9'
}

/// The number that the digit `c` stands for.
pub open spec fn digit_value(c: char) -> nat {
    (c as int - '0' as int) as nat
}

/// Whether every character of `s` is a decimal digit.
pub open spec fn all_digits(s: Seq<char>) -> bool {
    forall|i: int| 0 <= i < s.len() ==> is_digit(#[trigger] s[i])
}

/// The number that a run of decimal digits stands for.
pub open spec fn digits_value(s: Seq<char>) -> nat
    decreases s.len(),
{
    if s.len() == 0 {
        0
    } else {
        digits_value(s.drop_last()) * 10 + digit_value(s.last())
    }
}

/// The number that the word `w` stands for: an optional plus sign and then
/// one or more decimal digits whose value fits the machine word.
pub open spec fn number(w: Seq<char>) -> Option<usize> {
    let digits = if w.len() > 0 && w[0] == '+' {
        w.drop_first()
    } else {
        w
    };
    if digits.len() > 0 && all_digits(digits) && digits_value(digits) <= usize::MAX {
        Some(digits_value(digits) as usize)
    } else {
        None
    }
}

/// The words of `s`: its maximal runs of characters that are not white
/// space, from left to right.
pub open spec fn words(s: Seq<char>) -> Seq<Seq<char>>
    decreases s.len(),
{
    if s.len() == 0 {
        Seq::empty()
    } else if is_space(s.last()) {
        words(s.drop_last())
    } else if s.len() >= 2 && !is_space(s[s.len() - 2]) {
        let before = words(s.drop_last());
        before.drop_last().push(before.last().push(s.last()))
    } else {
        words(s.drop_last()).push(seq![s.last()])
    }
}

/// The orientation that the word `w` names: `h` or `v`.
pub open spec fn orientation_named(w: Seq<char>) -> Option<Orientation> {
    if w == seq!['h'] {
        Some(Orientation::Horizontal)
    } else if w == seq!['v'] {
        Some(Orientation::Vertical)
    } else {
        None
    }
}

/// The board size that the line `s` asks for: a single number between the
/// smallest and the largest side length.
pub open spec fn board_size_in(s: Seq<char>) -> Option<usize> {
    let w = words(s);
    if w.len() == 1 && number(w[0]) is Some && MIN_BOARD_SIZE <= number(w[0])->0
        <= MAX_BOARD_SIZE {
        number(w[0])
    } else {
        None
    }
}

/// The target that the line `s` names: two numbers, the column and then the
/// row.
pub open spec fn coordinates_in(s: Seq<char>) -> Option<(usize, usize)> {
    let w = words(s);
    if w.len() == 2 && number(w[0]) is Some && number(w[1]) is Some {
        Some((number(w[0])->0, number(w[1])->0))
    } else {
        None
    }
}

/// The placement that the line `s` asks for: column, row and orientation.
pub open spec fn placement_in(s: Seq<char>) -> Option<Placement> {
    let w = words(s);
    if w.len() == 3 && number(w[0]) is Some && number(w[1]) is Some && orientation_named(w[2])
        is Some {
        Some(
            Placement {
                col: number(w[0])->0,
                row: number(w[1])->0,
                orientation: orientation_named(w[2])->0,
            },
        )
    } else {
        None
    }
}

/// What a parser answers for a line: the request it holds, or
/// `InvalidInput`.
pub open spec fn or_invalid<T>(request: Option<T>) -> Result<T, GameError> {
    match request {
        Some(found) => Ok(found),
        None => Err(GameError::InvalidInput),
    }
}

/// The words of a vector of words.
pub open spec fn words_of(v: Vec<Vec<char>>) -> Seq<Seq<char>> {
    Seq::new(v@.len(), |i: int| v@[i]@)
}

/// The value of a run of digits is at least that of each of its prefixes.
proof fn lemma_digits_prefix(s: Seq<char>, k: int)
    requires
        0 <= k <= s.len(),
    ensures
        digits_value(s.take(k)) <= digits_value(s),
    decreases s.len(),
{
    if k == s.len() {
        assert(s.take(k) =~= s);
    } else {
        lemma_digits_prefix(s.drop_last(), k);
        assert(s.drop_last().take(k) =~= s.take(k));
    }
}

fn space(c: char) -> (b: bool)
    ensures
        b == is_space(c),
{
    c == ' ' || ('\u{9}' <= c && c <= '\u{d}') || c == '\u{85}' || c == '\u{a0}' || c
        == '\u{1680}' || ('\u{2000}' <= c && c <= '\u{200a}') || c == '\u{2028}' || c
        == '\u{2029}' || c == '\u{202f}' || c == '\u{205f}' || c == '\u{3000}'
}

fn digit(c: char) -> (d: Option<usize>)
    ensures
        d == if is_digit(c) {
            Some(digit_value(c) as usize)
        } else {
            None::<usize>
        },
{
    match c {
        '0' => Some(0),
        '1' => Some(1),
        '2' => Some(2),
        '3' => Some(3),
        '4' => Some(4),
        '5' => Some(5),
        '6' => Some(6),
        '7' => Some(7),
        '8' => Some(8),
        '9' => Some(9),
        _ => None,
    }
}

/// Reads the word `word` as a number.
pub fn parse_number(word: &Vec<char>) -> (n: Option<usize>)
    ensures
        n == number(word@),
{
    let len = word.len();
    let start: usize = if len > 0 && word[0] == '+' {
        1
    } else {
        0
    };
    let ghost digits = word@.skip(start as int);
    assert(digits =~= if word@.len() > 0 && word@[0] == '+' {
        word@.drop_first()
    } else {
        word@
    });
    if start == len {
        return None;
    }
    let mut acc: usize = 0;
    let mut i: usize = start;
    while i < len
        invariant
            start <= i <= len,
            len == word@.len(),
            digits == word@.skip(start as int),
            digits == if word@.len() > 0 && word@[0] == '+' {
                word@.drop_first()
            } else {
                word@
            },
            all_digits(digits.take(i - start)),
            acc == digits_value(digits.take(i - start)),
        decreases len - i,
    {
        let ghost k = i - start;
        proof {
            assert(digits.take(k + 1).drop_last() =~= digits.take(k));
            assert(digits.take(k + 1).last() == word@[i as int]);
            lemma_digits_prefix(digits, k + 1);
        }
        match digit(word[i]) {
            None => {
                assert(digits[k] == word@[i as int]);
                assert(!is_digit(digits[k]));
                return None;
            },
            Some(d) => {
                assert(digits_value(digits.take(k + 1)) == acc * 10 + d);
                if acc > (usize::MAX - d) / 10 {
                    assert(digits_value(digits) > usize::MAX);
                    return None;
                }
                acc = acc * 10 + d;
            },
        }
        i += 1;
        assert forall|j: int| 0 <= j < digits.take(i - start).len() implies is_digit(
            #[trigger] digits.take(i - start)[j],
        ) by {
            if j < k {
                assert(digits.take(k)[j] == digits[j]);
            }
        }
    }
    assert(digits.take(len - start) =~= digits);
    Some(acc)
}

/// Splits the line `line` into its words.
pub fn split_words(line: &str) -> (found: Vec<Vec<char>>)
    ensures
        words_of(found) == words(line@),
{
    let len = line.unicode_len();
    let mut found: Vec<Vec<char>> = Vec::new();
    let mut word: Vec<char> = Vec::new();
    let mut in_word = false;
    let mut i: usize = 0;
    assert(words_of(found) =~= words(line@.take(0)));
    while i < len
        invariant
            i <= len,
            len == line@.len(),
            in_word == (i > 0 && !is_space(line@[i - 1])),
            !in_word ==> word@.len() == 0,
            words(line@.take(i as int)) == if in_word {
                words_of(found).push(word@)
            } else {
                words_of(found)
            },
        decreases len - i,
    {
        let c = line.get_char(i);
        let ghost head = line@.take(i + 1);
        proof {
            assert(head.drop_last() =~= line@.take(i as int));
            assert(head.last() == c);
            if i > 0 {
                assert(head[head.len() - 2] == line@[i - 1]);
            }
        }
        if space(c) {
            if in_word {
                let ghost before = words_of(found);
                let ghost last = word@;
                found.push(word);
                word = Vec::new();
                in_word = false;
                assert(words_of(found) =~= before.push(last));
            }
        } else {
            let ghost before = word@;
            word.push(c);
            proof {
                if in_word {
                    let full = words_of(found).push(before);
                    assert(full.drop_last() =~= words_of(found));
                    assert(full.last() == before);
                } else {
                    assert(word@ =~= seq![c]);
                }
            }
            in_word = true;
        }
        i += 1;
    }
    assert(line@.take(len as int) =~= line@);
    if in_word {
        let ghost before = words_of(found);
        let ghost last = word@;
        found.push(word);
        assert(words_of(found) =~= before.push(last));
    }
    found
}

/// Reads a board size from a line: a single number between the smallest and
/// the largest side length, with white space around it at most.
pub fn parse_board_size(line: &str) -> (result: Result<usize, GameError>)
    ensures
        result == or_invalid(board_size_in(line@)),
        result is Ok ==> MIN_BOARD_SIZE <= result->Ok_0 <= MAX_BOARD_SIZE,
{
    let found = split_words(line);
    if found.len() != 1 {
        return Err(GameError::InvalidInput);
    }
    assert(words_of(found)[0] == found@[0]@);
    match parse_number(&found[0]) {
        Some(size) => {
            if MIN_BOARD_SIZE <= size && size <= MAX_BOARD_SIZE {
                Ok(size)
            } else {
                Err(GameError::InvalidInput)
            }
        },
        None => Err(GameError::InvalidInput),
    }
}

/// Reads a target from a line: the column and then the row, separated by
/// white space.
pub fn parse_coordinates(line: &str) -> (result: Result<(usize, usize), GameError>)
    ensures
        result == or_invalid(coordinates_in(line@)),
{
    let found = split_words(line);
    if found.len() != 2 {
        return Err(GameError::InvalidInput);
    }
    assert(words_of(found)[0] == found@[0]@);
    assert(words_of(found)[1] == found@[1]@);
    match (parse_number(&found[0]), parse_number(&found[1])) {
        (Some(col), Some(row)) => Ok((col, row)),
        _ => Err(GameError::InvalidInput),
    }
}

/// Reads the word `word` as an orientation.
pub fn parse_orientation(word: &Vec<char>) -> (o: Option<Orientation>)
    ensures
        o == orientation_named(word@),
{
    if word.len() != 1 {
        return None;
    }
    let c = word[0];
    if c == 'h' {
        assert(word@ =~= seq!['h']);
        Some(Orientation::Horizontal)
    } else if c == 'v' {
        assert(word@ =~= seq!['v']);
        Some(Orientation::Vertical)
    } else {
        assert(seq!['h'][0] == 'h' && seq!['v'][0] == 'v');
        None
    }
}

/// Reads a placement from a line: the column, the row, and `h` for a ship
/// that runs horizontally or `v` for one that runs vertically.
pub fn parse_placement(line: &str) -> (result: Result<Placement, GameError>)
    ensures
        result == or_invalid(placement_in(line@)),
{
    let found = split_words(line);
    if found.len() != 3 {
        return Err(GameError::InvalidInput);
    }
    assert(words_of(found)[0] == found@[0]@);
    assert(words_of(found)[1] == found@[1]@);
    assert(words_of(found)[2] == found@[2]@);
    match (parse_number(&found[0]), parse_number(&found[1]), parse_orientation(&found[2])) {
        (Some(col), Some(row), Some(orientation)) => Ok(Placement { col, row, orientation }),
        _ => Err(GameError::InvalidInput),
    }
}

} // verus!
