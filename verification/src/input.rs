//! What the person at the keyboard types for a move: two numbers, the row
//! and the column, with white space between them.

use crate::board_info::Point;
use crate::layout::{is_space, is_whitespace, lemma_word_is_word, word_start};
use crate::text::{decimal, decimal_string};
use std::num::ParseIntError;
use vstd::prelude::*;
use vstd::string::*;

verus! {

/// The error of the standard library for a word that is no number.
#[verifier::external_type_specification]
#[verifier::external_body]
pub struct ExParseIntError(ParseIntError);

/// Why a line is no move.
#[derive(Debug)]
pub enum InputError {
    /// A word of the line is no number; this is what the standard library
    /// says of the first such word.
    Parse(ParseIntError),
    /// The line does not hold two numbers; this is the message for the user.
    NumInputArgs(String),
}

/// Whether `c` is a decimal digit.
pub open spec fn is_digit(c: char) -> bool {
    0x30 <= c as u32 <= 0x39
}

/// The number that a sequence of decimal digits stands for.
pub open spec fn digits_value(digits: Seq<char>) -> nat
    decreases digits.len(),
{
    if digits.len() == 0 {
        0
    } else {
        (digits_value(digits.drop_last()) * 10 + (digits.last() as u32 - 0x30)) as nat
    }
}

/// The number that a word stands for: the word is made of decimal digits, at
/// least one, with or without a `+` before them, and the number fits the
/// machine's word.
pub open spec fn number_of(word: Seq<char>) -> Option<usize> {
    let digits = if word.len() > 0 && word[0] == '+' {
        word.skip(1)
    } else {
        word
    };
    if digits.len() > 0 && (forall|i: int| 0 <= i < digits.len() ==> is_digit(#[trigger] digits[i]))
        && digits_value(digits) <= usize::MAX {
        Some(digits_value(digits) as usize)
    } else {
        None
    }
}

/// Reads a number; this is `str::parse::<usize>` of the standard library. It
/// returns the number that [`number_of`] gives for the word, and an error
/// for a word that stands for no number.
#[verifier::external_body]
fn parse_usize(word: &str) -> (r: Result<usize, ParseIntError>)
    ensures
        r matches Ok(n) ==> number_of(word@) == Some(n),
        r is Err ==> number_of(word@) is None,
{
    word.parse::<usize>()
}

/// The words of a text: its longest parts without white space.
pub open spec fn words(text: Seq<char>) -> Seq<Seq<char>>
    decreases text.len(),
    via words_decreases
{
    if text.len() == 0 {
        Seq::empty()
    } else if is_space(text.last()) {
        words(text.drop_last())
    } else {
        let start = word_start(text);
        words(text.take(start)).push(text.skip(start))
    }
}

#[via_fn]
proof fn words_decreases(text: Seq<char>) {
    lemma_word_is_word(text);
}

/// Whether each of the words stands for a number.
pub open spec fn all_numbers(ws: Seq<Seq<char>>) -> bool {
    forall|k: int| 0 <= k < ws.len() ==> number_of(#[trigger] ws[k]) is Some
}

/// The numbers that the words stand for.
pub open spec fn numbers_of(ws: Seq<Seq<char>>) -> Seq<usize> {
    Seq::new(ws.len(), |k: int| number_of(ws[k])->0)
}

/// What the user is told of a line with `got` numbers on it.
pub open spec fn wrong_count_text(got: nat) -> Seq<char> {
    "Incorrect number of input arguments. Got "@ + decimal(got) + ", Expected "@ + decimal(2)
}

/// Reads one more word of a line of numbers.
fn read_word(line: &str, from: usize, to: usize, numbers: &mut Vec<usize>) -> (r: Result<
    (),
    ParseIntError,
>)
    requires
        from <= to <= line@.len(),
    ensures
        r is Ok <==> number_of(line@.subrange(from as int, to as int)) is Some,
        r is Ok ==> final(numbers)@ == old(numbers)@.push(
            number_of(line@.subrange(from as int, to as int))->0,
        ),
        r is Err ==> final(numbers)@ == old(numbers)@,
{
    match parse_usize(line.substring_char(from, to)) {
        Ok(n) => {
            numbers.push(n);
            Ok(())
        },
        Err(e) => Err(e),
    }
}

/// Reads a move from a line: the row, then the column. A word that is no
/// number is an error, the first such word if there are several; so is a
/// line whose words are numbers, but not two of them.
pub fn parse_move(line: &str) -> (r: Result<Point, InputError>)
    ensures
        match r {
            Ok(point) => all_numbers(words(line@)) && words(line@).len() == 2 && number_of(
                words(line@)[0],
            ) == Some(point.x) && number_of(words(line@)[1]) == Some(point.y),
            Err(InputError::Parse(_)) => !all_numbers(words(line@)),
            Err(InputError::NumInputArgs(e)) => all_numbers(words(line@)) && words(line@).len()
                != 2 && e@ == wrong_count_text(words(line@).len()),
        },
{
    let n = line.unicode_len();
    let ghost text = line@;
    let mut numbers: Vec<usize> = Vec::new();
    let mut start: usize = 0;
    let mut i: usize = 0;
    while i < n
        invariant
            0 <= start <= i <= n,
            n == text.len(),
            text == line@,
            start == word_start(text.take(i as int)),
            all_numbers(words(text.take(start as int))),
            numbers@ == numbers_of(words(text.take(start as int))),
        decreases n - i,
    {
        let ghost seen = text.take(i as int);
        let ghost next = text.take(i + 1);
        assert(next.drop_last() == seen);
        if is_whitespace(line.get_char(i)) {
            if start < i {
                let ghost before = words(text.take(start as int));
                proof {
                    lemma_word_is_word(seen);
                    assert(seen.take(start as int) == text.take(start as int));
                    assert(seen.skip(start as int) == text.subrange(start as int, i as int));
                    assert(words(seen) == before.push(seen.skip(start as int)));
                }
                match read_word(line, start, i, &mut numbers) {
                    Ok(()) => {},
                    Err(e) => {
                        proof {
                            lemma_words_of_prefix(text, i as int);
                            let k = before.len() as int;
                            assert(words(text)[k] == words(seen)[k]);
                        }
                        return Err(InputError::Parse(e));
                    },
                }
            }
            start = i + 1;
        }
        i += 1;
    }
    assert(text.take(n as int) == text);
    if start < n {
        let ghost before = words(text.take(start as int));
        proof {
            lemma_word_is_word(text);
        }
        match read_word(line, start, n, &mut numbers) {
            Ok(()) => {},
            Err(e) => {
                proof {
                    let k = before.len() as int;
                    assert(words(text)[k] == text.skip(start as int));
                }
                return Err(InputError::Parse(e));
            },
        }
    }
    if numbers.len() == Point::NUM_ARGUMENTS {
        Ok(Point { x: numbers[0], y: numbers[1] })
    } else {
        let mut message = String::from_str("Incorrect number of input arguments. Got ");
        let got = decimal_string(numbers.len());
        message.append(got.as_str());
        message.append(", Expected ");
        let expected = decimal_string(Point::NUM_ARGUMENTS);
        message.append(expected.as_str());
        Err(InputError::NumInputArgs(message))
    }
}

/// The words of the first `i` characters of a text that end before
/// character `i` are words of the whole text, in the same places.
proof fn lemma_words_of_prefix(text: Seq<char>, i: int)
    requires
        0 <= i <= text.len(),
        i == text.len() || is_space(text[i]),
    ensures
        words(text.take(i)).len() <= words(text).len(),
        forall|k: int| 0 <= k < words(text.take(i)).len() ==> words(text.take(i))[k] == words(text)[k],
    decreases text.len() - i,
{
    if i == text.len() {
        assert(text.take(i) == text);
    } else {
        lemma_word_is_word(text);
        if is_space(text.last()) {
            if i != text.len() - 1 {
                assert(text.drop_last().take(i) == text.take(i));
                lemma_words_of_prefix(text.drop_last(), i);
            }
        } else {
            let start = word_start(text);
            lemma_word_spans(text, i);
            assert(text.take(start).take(i) == text.take(i));
            lemma_words_of_prefix(text.take(start), i);
        }
    }
}

/// The last word of a text begins after every white space of the text.
proof fn lemma_word_spans(text: Seq<char>, i: int)
    requires
        0 <= i < text.len(),
        is_space(text[i]),
    ensures
        i < word_start(text),
    decreases text.len(),
{
    if !is_space(text.last()) {
        lemma_word_spans(text.drop_last(), i);
    }
}

} // verus!
