//! Small text utilities: character search, prefix tests and decimal
//! parsing, each specified over the character sequence of its input.

use vstd::prelude::*;

verus! {

/// The decimal value of a digit character, or 10 for any other character.
pub open spec fn digit_value(c: char) -> nat {
    if c == '0' {
        0
    } else if c == '1' {
        1
    } else if c == '2' {
        2
    } else if c == '3' {
        3
    } else if c == '4' {
        4
    } else if c == '5' {
        5
    } else if c == '6' {
        6
    } else if c == '7' {
        7
    } else if c == '8' {
        8
    } else if c == '9' {
        9
    } else {
        10
    }
}

pub open spec fn is_decimal_digit(c: char) -> bool {
    digit_value(c) <= 9
}

/// The decimal value of `c`, or None if `c` is not a decimal digit.
pub fn decimal_digit_of(c: char) -> (result: Option<usize>)
    ensures
        is_decimal_digit(c) ==> result == Some(digit_value(c) as usize),
        !is_decimal_digit(c) ==> result is None,
{
    match c {
        '0' => Some(0),
        '1' => Some(1),
        '2' => Some(2),
        '3' => Some(3),
        '4' => Some(4),
        '5' => Some(5),
        '6' => Some(6),
        '7' => Some(7),
        '8' => Some(8),
        '9' => Some(9),
        _ => None,
    }
}

/// Why a piece of text could not be read as a decimal integer.
#[derive(Clone, Copy, PartialEq, Eq, Structural, Debug)]
pub enum IntParseError {
    /// The text was empty.
    Empty,
    /// A character of the text is not a decimal digit.
    InvalidDigit,
    /// The value does not fit in the target integer type.
    Overflow,
}

/// The user-facing description of an integer parse failure.
pub open spec fn int_parse_error_text(error: IntParseError) -> Seq<char> {
    match error {
        IntParseError::Empty => "cannot parse integer from empty string"@,
        IntParseError::InvalidDigit => "invalid digit found in string"@,
        IntParseError::Overflow => "number too large to fit in target type"@,
    }
}

/// The description of `error`, as [`int_parse_error_text`] gives it.
pub fn int_parse_error_message(error: IntParseError) -> (result: &'static str)
    ensures
        result@ == int_parse_error_text(error),
{
    match error {
        IntParseError::Empty => "cannot parse integer from empty string",
        IntParseError::InvalidDigit => "invalid digit found in string",
        IntParseError::Overflow => "number too large to fit in target type",
    }
}

/// One step of reading decimal digits left to right with accumulator `acc`:
/// the first non-digit stops the scan, and so does the first digit that
/// would push the value over `usize::MAX`.
pub open spec fn scan_decimal(body: Seq<char>, acc: usize) -> Result<usize, IntParseError>
    decreases body.len(),
{
    if body.len() == 0 {
        Ok(acc)
    } else if !is_decimal_digit(body[0]) {
        Err(IntParseError::InvalidDigit)
    } else if acc * 10 + digit_value(body[0]) > usize::MAX {
        Err(IntParseError::Overflow)
    } else {
        scan_decimal(body.drop_first(), (acc * 10 + digit_value(body[0])) as usize)
    }
}

/// The text with one leading `+` sign removed, if there is one.
pub open spec fn int_text_body(text: Seq<char>) -> Seq<char> {
    if text.len() > 0 && text[0] == '+' {
        text.drop_first()
    } else {
        text
    }
}

/// What reading `text` as a decimal `usize` yields: the digits of `text`
/// (after an optional leading `+`) read left to right, or the error on
/// which the scan stopped.
pub open spec fn parse_decimal_spec(text: Seq<char>) -> Result<usize, IntParseError> {
    if text.len() == 0 {
        Err(IntParseError::Empty)
    } else if int_text_body(text).len() == 0 {
        Err(IntParseError::InvalidDigit)
    } else {
        scan_decimal(int_text_body(text), 0)
    }
}

/// Reads `text` as a decimal `usize`, accepting an optional leading `+`.
pub fn parse_decimal(text: &str) -> (result: Result<usize, IntParseError>)
    ensures
        result == parse_decimal_spec(text@),
{
    let text_len = text.unicode_len();
    if text_len == 0 {
        return Err(IntParseError::Empty);
    }
    let start: usize = if text.get_char(0) == '+' {
        1
    } else {
        0
    };
    if start == text_len {
        return Err(IntParseError::InvalidDigit);
    }
    let ghost body = int_text_body(text@);
    proof {
        assert(body =~= text@.subrange(start as int, text_len as int));
    }
    let mut acc: usize = 0;
    let mut i: usize = start;
    while i < text_len
        invariant
            start <= i <= text_len,
            text_len == text@.len(),
            body == int_text_body(text@),
            body == text@.subrange(start as int, text_len as int),
            scan_decimal(body, 0) == scan_decimal(
                text@.subrange(i as int, text_len as int),
                acc,
            ),
        decreases text_len - i,
    {
        let ghost rest = text@.subrange(i as int, text_len as int);
        let c = text.get_char(i);
        proof {
            assert(rest[0] == c);
            assert(rest.drop_first() =~= text@.subrange(i + 1, text_len as int));
        }
        match decimal_digit_of(c) {
            None => {
                return Err(IntParseError::InvalidDigit);
            },
            Some(d) => {
                match acc.checked_mul(10) {
                    None => {
                        proof {
                            assert(acc * 10 + digit_value(c) > usize::MAX);
                        }
                        return Err(IntParseError::Overflow);
                    },
                    Some(shifted) => {
                        match shifted.checked_add(d) {
                            None => {
                                return Err(IntParseError::Overflow);
                            },
                            Some(next) => {
                                acc = next;
                            },
                        }
                    },
                }
            },
        }
        i = i + 1;
    }
    proof {
        assert(text@.subrange(i as int, text_len as int).len() == 0);
    }
    Ok(acc)
}

/// Whether `c` occurs in `text`.
pub open spec fn contains_char(text: Seq<char>, c: char) -> bool {
    exists|i: int| 0 <= i < text.len() && text[i] == c
}

/// The position of the first occurrence of `c` in `text`, if any.
pub open spec fn first_index_of(text: Seq<char>, c: char) -> Option<int>
    decreases text.len(),
{
    if text.len() == 0 {
        None
    } else if text[0] == c {
        Some(0)
    } else {
        match first_index_of(text.drop_first(), c) {
            None => None,
            Some(j) => Some(j + 1),
        }
    }
}

/// The first occurrence of `c` is an occurrence, has no occurrence before
/// it, and exists whenever any occurrence does.
pub proof fn lemma_first_index_of(text: Seq<char>, c: char)
    ensures
        match first_index_of(text, c) {
            Some(i) => 0 <= i < text.len() && text[i] == c && forall|j: int|
                0 <= j < i ==> text[j] != c,
            None => !contains_char(text, c),
        },
    decreases text.len(),
{
    if text.len() > 0 && text[0] != c {
        lemma_first_index_of(text.drop_first(), c);
        match first_index_of(text.drop_first(), c) {
            Some(j) => {
                assert(text[j + 1] == text.drop_first()[j]);
                assert forall|k: int| 0 <= k < j + 1 implies text[k] != c by {
                    if k > 0 {
                        assert(text[k] == text.drop_first()[k - 1]);
                    }
                }
            },
            None => {
                assert forall|k: int| 0 <= k < text.len() implies text[k] != c by {
                    if k > 0 {
                        assert(text[k] == text.drop_first()[k - 1]);
                    }
                }
            },
        }
    }
}

/// Finds the first occurrence of `c` in `text`.
pub fn find_char(text: &str, c: char) -> (result: Option<usize>)
    ensures
        match result {
            Some(i) => first_index_of(text@, c) == Some(i as int),
            None => first_index_of(text@, c) is None,
        },
{
    proof {
        lemma_first_index_of(text@, c);
    }
    let text_len = text.unicode_len();
    let mut i: usize = 0;
    while i < text_len
        invariant
            0 <= i <= text_len,
            text_len == text@.len(),
            forall|j: int| 0 <= j < i ==> text@[j] != c,
            match first_index_of(text@, c) {
                Some(k) => 0 <= k < text@.len() && text@[k] == c && forall|j: int|
                    0 <= j < k ==> text@[j] != c,
                None => !contains_char(text@, c),
            },
        decreases text_len - i,
    {
        if text.get_char(i) == c {
            proof {
                match first_index_of(text@, c) {
                    Some(k) => {
                        assert(k >= i as int);
                        assert(k <= i as int);
                    },
                    None => {
                        assert(contains_char(text@, c));
                    },
                }
            }
            return Some(i);
        }
        i = i + 1;
    }
    None
}

/// Whether `prefix` is a prefix of `text`.
pub open spec fn has_prefix(text: Seq<char>, prefix: Seq<char>) -> bool {
    prefix.len() <= text.len() && text.subrange(0, prefix.len() as int) == prefix
}

/// Tests whether `text` starts with `prefix`.
pub fn starts_with(text: &str, prefix: &str) -> (result: bool)
    ensures
        result == has_prefix(text@, prefix@),
{
    let text_len = text.unicode_len();
    let prefix_len = prefix.unicode_len();
    if prefix_len > text_len {
        proof {
            assert(!has_prefix(text@, prefix@));
        }
        return false;
    }
    let mut i: usize = 0;
    while i < prefix_len
        invariant
            0 <= i <= prefix_len <= text_len,
            text_len == text@.len(),
            prefix_len == prefix@.len(),
            forall|j: int| 0 <= j < i ==> text@[j] == prefix@[j],
        decreases prefix_len - i,
    {
        if text.get_char(i) != prefix.get_char(i) {
            proof {
                assert(text@.subrange(0, prefix@.len() as int)[i as int] != prefix@[i as int]);
            }
            return false;
        }
        i = i + 1;
    }
    proof {
        assert(text@.subrange(0, prefix@.len() as int) =~= prefix@);
    }
    true
}

/// Tests whether two pieces of text hold the same characters.
pub fn text_equals(left: &str, right: &str) -> (result: bool)
    ensures
        result == (left@ == right@),
{
    let left_len = left.unicode_len();
    let right_len = right.unicode_len();
    if left_len != right_len {
        return false;
    }
    let mut i: usize = 0;
    while i < left_len
        invariant
            0 <= i <= left_len,
            left_len == left@.len(),
            left_len == right@.len(),
            forall|j: int| 0 <= j < i ==> left@[j] == right@[j],
        decreases left_len - i,
    {
        if left.get_char(i) != right.get_char(i) {
            return false;
        }
        i = i + 1;
    }
    proof {
        assert(left@ =~= right@);
    }
    true
}

} // verus!
