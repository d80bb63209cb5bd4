//! The text that the search reads and writes.
//!
//! Both records hold one decimal integer per line, in ASCII digits, with a
//! newline after it and nothing else. The first candidate is given in the
//! same digits, with an optional `+` before them.

use vstd::prelude::*;

verus! {

/// The name of the file that holds the progress record.
pub const PROGRESS_RECORD_NAME: &'static str = "last_tested.txt";

/// The name of the file that holds the fault record.
pub const FAULT_RECORD_NAME: &'static str = "counterexample.txt";

/// The first candidate of a search that was given none, or none that can be
/// read.
pub const DEFAULT_START: u128 = 1;

/// The ASCII code of the digit `0`.
pub const ZERO: u8 = 48;

/// The ASCII code of the sign `+`.
pub const PLUS: u8 = 43;

/// The ASCII code of the newline that ends a line.
pub const NEWLINE: u8 = 10;

/// Whether `byte` is one of the ASCII digits `0` to `9`.
pub open spec fn is_digit(byte: u8) -> bool {
    ZERO <= byte <= ZERO + 9
}

/// The number that the ASCII digit `byte` stands for, and 0 for any other
/// byte.
pub open spec fn digit_value(byte: u8) -> nat {
    if is_digit(byte) {
        (byte - ZERO) as nat
    } else {
        0
    }
}

/// Whether every byte of `text` is an ASCII digit.
pub open spec fn all_digits(text: Seq<u8>) -> bool {
    forall|i: int| 0 <= i < text.len() ==> is_digit(#[trigger] text[i])
}

/// The number that the digits `text` spell in base ten, the first digit
/// counting most.
pub open spec fn digits_value(text: Seq<u8>) -> nat
    decreases text.len(),
{
    if text.len() == 0 {
        0
    } else {
        10 * digits_value(text.drop_last()) + digit_value(text.last())
    }
}

/// The digits of `n` in base ten, without leading zeros; `0` is one digit.
pub open spec fn decimal(n: nat) -> Seq<u8>
    decreases n,
{
    if n < 10 {
        seq![(ZERO + n) as u8]
    } else {
        decimal(n / 10).push((ZERO + n % 10) as u8)
    }
}

/// The line that records `n`: its digits and a newline.
pub open spec fn line_of(n: u128) -> Seq<u8> {
    decimal(n as nat).push(NEWLINE)
}

/// `text` without the `+` that may stand before its digits.
pub open spec fn unsigned(text: Seq<u8>) -> Seq<u8> {
    if text.len() > 0 && text[0] == PLUS {
        text.subrange(1, text.len() as int)
    } else {
        text
    }
}

/// The candidate that `text` spells, if it spells one: an optional `+`, then
/// one or more ASCII digits and nothing else, for a number that fits in a
/// `u128`. Leading zeros are allowed.
pub open spec fn parsed(text: Seq<u8>) -> Option<u128> {
    let digits = unsigned(text);
    if digits.len() > 0 && all_digits(digits) && digits_value(digits) <= u128::MAX {
        Some(digits_value(digits) as u128)
    } else {
        None
    }
}

/// The first candidate of a search that was started with `argument`: the
/// number that the argument spells, or [`DEFAULT_START`] where there is no
/// argument or it spells none.
pub open spec fn start_of(argument: Option<Seq<u8>>) -> u128 {
    match argument {
        Some(text) => match parsed(text) {
            Some(start) => start,
            None => DEFAULT_START,
        },
        None => DEFAULT_START,
    }
}

/// The digits of a number are digits, at least one of them, and spell the
/// number.
pub proof fn lemma_decimal_spells_number(n: nat)
    ensures
        decimal(n).len() > 0,
        all_digits(decimal(n)),
        digits_value(decimal(n)) == n,
    decreases n,
{
    if n < 10 {
        let text = decimal(n);
        assert(text.drop_last() =~= Seq::<u8>::empty());
        assert(digits_value(text.drop_last()) == 0);
    } else {
        lemma_decimal_spells_number(n / 10);
        let text = decimal(n);
        assert(text.drop_last() =~= decimal(n / 10));
    }
}

/// The digits at the front of a text spell no more than the whole text.
pub proof fn lemma_value_grows_with_length(text: Seq<u8>, k: int)
    requires
        0 <= k <= text.len(),
    ensures
        digits_value(text.subrange(0, k)) <= digits_value(text),
    decreases text.len(),
{
    if k == text.len() {
        assert(text.subrange(0, k) =~= text);
    } else {
        lemma_value_grows_with_length(text.drop_last(), k);
        assert(text.drop_last().subrange(0, k) =~= text.subrange(0, k));
    }
}

/// What is written can be read again: the digits of a candidate, as they
/// stand in a record line before the newline, spell that candidate, so a
/// search started with them begins at that candidate.
pub proof fn lemma_line_reads_back(n: u128)
    ensures
        line_of(n).last() == NEWLINE,
        line_of(n).drop_last() == decimal(n as nat),
        parsed(decimal(n as nat)) == Some(n),
        start_of(Some(line_of(n).drop_last())) == n,
{
    lemma_decimal_spells_number(n as nat);
    assert(line_of(n).drop_last() =~= decimal(n as nat));
    assert(is_digit(decimal(n as nat)[0]));
}

/// The line that records `n`: the decimal digits of `n` in ASCII, then a
/// newline.
pub fn record_line(n: u128) -> (line: Vec<u8>)
    ensures
        line@ == line_of(n),
{
    let mut line: Vec<u8> = Vec::new();
    line.push(NEWLINE);
    let mut rest: u128 = n;
    while rest >= 10
        invariant
            line_of(n) =~= decimal(rest as nat) + line@,
        decreases rest,
    {
        let digit: u8 = (rest % 10) as u8;
        let ghost before = line@;
        line.insert(0, ZERO + digit);
        proof {
            assert(decimal(rest as nat) + before =~= decimal((rest / 10) as nat) + line@);
        }
        rest = rest / 10;
    }
    let ghost before = line@;
    line.insert(0, ZERO + (rest as u8));
    proof {
        assert(decimal(rest as nat) + before =~= line@);
    }
    line
}

/// Reads a candidate from `text`.
///
/// The text is an optional `+` and then one or more ASCII digits. Anything
/// else, an empty text, a sign without digits or a number that does not fit
/// in a `u128` gives `None`.
pub fn parse_candidate(text: &[u8]) -> (candidate: Option<u128>)
    ensures
        candidate == parsed(text@),
{
    let length: usize = text.len();
    let first: usize = if length > 0 && text[0] == PLUS {
        1
    } else {
        0
    };
    let ghost digits = unsigned(text@);
    assert(digits =~= text@.subrange(first as int, length as int));
    if first == length {
        return None;
    }
    let mut value: u128 = 0;
    let mut i: usize = first;
    assert(digits.subrange(0, 0) =~= Seq::<u8>::empty());
    while i < length
        invariant
            first <= i <= length,
            length == text@.len(),
            digits == unsigned(text@),
            digits == text@.subrange(first as int, length as int),
            all_digits(digits.subrange(0, i - first)),
            value == digits_value(digits.subrange(0, i - first)),
        decreases length - i,
    {
        let byte: u8 = text[i];
        let ghost seen = digits.subrange(0, i - first);
        let ghost taken = digits.subrange(0, i - first + 1);
        proof {
            assert(taken.drop_last() =~= seen);
            assert(taken.last() == byte);
            lemma_value_grows_with_length(digits, i - first + 1);
        }
        if byte < ZERO || byte > ZERO + 9 {
            assert(!is_digit(digits[i - first]));
            return None;
        }
        let tenfold: u128 = match value.checked_mul(10) {
            Some(tenfold) => tenfold,
            None => {
                return None;
            },
        };
        value = match tenfold.checked_add((byte - ZERO) as u128) {
            Some(sum) => sum,
            None => {
                return None;
            },
        };
        i = i + 1;
    }
    assert(digits.subrange(0, i - first) =~= digits);
    Some(value)
}

/// The first candidate of a search started with `argument`: the candidate
/// that the argument spells, or [`DEFAULT_START`] where the argument is
/// missing or cannot be read.
pub fn start_value(argument: Option<&[u8]>) -> (start: u128)
    ensures
        argument matches Some(text) ==> start == start_of(Some(text@)),
        argument is None ==> start == start_of(None),
{
    match argument {
        Some(text) => match parse_candidate(text) {
            Some(start) => start,
            None => DEFAULT_START,
        },
        None => DEFAULT_START,
    }
}

} // verus!
