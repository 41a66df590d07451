//! The script's commands: their names, their arguments and the numbers in
//! them.

use vstd::prelude::*;
use crate::story::NUM_ENDINGS;
use crate::text::{chars_of, find_char, first_index_of, first_index_of_bounds, same_chars, slice_chars, tokens, tokens_of, views};

verus! {

/// The number of timer units in a second: the timer counts microseconds.
pub const UNITS_PER_SECOND: u64 = 1_000_000;

/// A command of the script, with its arguments read.
#[derive(Clone, Copy, Debug, PartialEq, Eq)]
pub enum Command {
    /// Use up every card.
    Discard,
    /// Marco enters.
    MarcoComes,
    /// Marco leaves; the flag tells whether he leaves the drinks behind.
    MarcoLeaves(bool),
    /// Remie leaves.
    RemieLeaves,
    /// Pause for the given number of timer units.
    Wait(u64),
    /// The story ends with the ending of the given position, counted from 0.
    TheEnd(usize),
    /// A verb that the game does not know.
    Unknown,
}

/// Why a command could not be read.
#[derive(Clone, Copy, Debug, PartialEq, Eq)]
pub enum CommandError {
    /// The argument of `wait` is not a decimal number that fits the timer.
    MalformedWait,
    /// `theEnd` does not come with exactly one argument that numbers an
    /// ending.
    MalformedEnding,
}

/// Whether `c` is a decimal digit.
pub open spec fn is_digit(c: char) -> bool {
    '0' <= c && c <= '9'
}

/// The value of a decimal digit.
pub open spec fn digit_value(c: char) -> nat {
    (c as u32 - '0' as u32) as nat
}

/// Whether `s` consists of decimal digits.
pub open spec fn all_digits(s: Seq<char>) -> bool {
    forall|i: int| 0 <= i < s.len() ==> is_digit(#[trigger] s[i])
}

/// The number that the digits `s` write; 0 for no digits.
pub open spec fn decimal_value(s: Seq<char>) -> nat
    decreases s.len(),
{
    if s.len() == 0 {
        0
    } else {
        decimal_value(s.drop_last()) * 10 + digit_value(s.last())
    }
}

/// The first six digits after the point, with zeros where there are fewer.
pub open spec fn six_digits(frac: Seq<char>) -> Seq<char> {
    Seq::new(
        6,
        |i: int|
            if i < frac.len() {
                frac[i]
            } else {
                '0'
            },
    )
}

/// The part of a number's text before the point.
pub open spec fn whole_part(s: Seq<char>) -> Seq<char> {
    s.take(first_index_of(s, '.'))
}

/// The part of a number's text after the point; empty without a point.
pub open spec fn fraction_part(s: Seq<char>) -> Seq<char> {
    if first_index_of(s, '.') < s.len() {
        s.skip(first_index_of(s, '.') + 1)
    } else {
        Seq::<char>::empty()
    }
}

/// The duration in timer units that the text `s` gives in seconds. The text
/// is a decimal number: digits, with or without a point among them, and at
/// least one digit. Digits beyond the sixth after the point are dropped.
/// There is no duration where the text is no such number or the duration
/// does not fit 64 bits.
pub open spec fn wait_duration(s: Seq<char>) -> Option<u64> {
    let whole = whole_part(s);
    let frac = fraction_part(s);
    let units = decimal_value(whole) * 1_000_000 + decimal_value(six_digits(frac));
    if all_digits(whole) && all_digits(frac) && whole.len() + frac.len() > 0 && units
        <= u64::MAX {
        Some(units as u64)
    } else {
        None
    }
}

/// The position of the ending that the text `s` numbers: endings are
/// numbered from 1, positions from 0.
pub open spec fn ending_position(s: Seq<char>) -> Option<usize> {
    if s.len() > 0 && all_digits(s) && 1 <= decimal_value(s) <= NUM_ENDINGS {
        Some((decimal_value(s) - 1) as usize)
    } else {
        None
    }
}

/// The command that the text `raw` writes, by its space-separated tokens.
pub open spec fn parsed_command(raw: Seq<char>) -> Result<Command, CommandError> {
    let t = tokens(raw);
    if t.len() == 0 {
        Ok(Command::Unknown)
    } else if t[0] == "discard"@ {
        Ok(Command::Discard)
    } else if t[0] == "marcoComes"@ {
        Ok(Command::MarcoComes)
    } else if t[0] == "marcoLeaves"@ {
        Ok(Command::MarcoLeaves(t.len() == 2 && t[1] == "drinks"@))
    } else if t[0] == "remieLeaves"@ {
        Ok(Command::RemieLeaves)
    } else if t[0] == "wait"@ {
        if t.len() == 1 {
            Ok(Command::Wait(UNITS_PER_SECOND))
        } else {
            match wait_duration(t[1]) {
                Some(units) => Ok(Command::Wait(units)),
                None => Err(CommandError::MalformedWait),
            }
        }
    } else if t[0] == "theEnd"@ {
        if t.len() == 2 && ending_position(t[1]) is Some {
            Ok(Command::TheEnd(ending_position(t[1])->0))
        } else {
            Err(CommandError::MalformedEnding)
        }
    } else {
        Ok(Command::Unknown)
    }
}

/// The digits written so far never write more than the whole number does.
pub proof fn decimal_value_grows(s: Seq<char>, i: int)
    requires
        0 <= i <= s.len(),
    ensures
        decimal_value(s.take(i)) <= decimal_value(s),
    decreases s.len(),
{
    if i == s.len() {
        assert(s.take(i) =~= s);
    } else {
        decimal_value_grows(s.drop_last(), i);
        assert(s.drop_last().take(i) =~= s.take(i));
    }
}

/// Whether `c` is a decimal digit.
pub fn is_digit_char(c: char) -> (r: bool)
    ensures
        r == is_digit(c),
{
    '0' <= c && c <= '9'
}

/// The value of the decimal digit `c`.
pub fn digit_of(c: char) -> (d: u64)
    requires
        is_digit(c),
    ensures
        d == digit_value(c),
        d <= 9,
{
    (c as u32 - '0' as u32) as u64
}

/// The number that `v` writes in decimal digits, where it consists of digits
/// and the number fits 64 bits.
pub fn parse_decimal(v: &Vec<char>) -> (r: Option<u64>)
    ensures
        r == if all_digits(v@) && decimal_value(v@) <= u64::MAX {
            Some(decimal_value(v@) as u64)
        } else {
            None
        },
{
    let mut acc: u64 = 0;
    let mut i: usize = 0;
    assert(v@.take(0) =~= Seq::<char>::empty());
    while i < v.len()
        invariant
            i <= v.len(),
            all_digits(v@.take(i as int)),
            acc == decimal_value(v@.take(i as int)),
        decreases v.len() - i,
    {
        let c = v[i];
        assert(v@.take(i + 1).drop_last() =~= v@.take(i as int));
        if !is_digit_char(c) {
            assert(!is_digit(v@[i as int]));
            return None;
        }
        let d = digit_of(c);
        if acc > (u64::MAX - d) / 10 {
            proof {
                decimal_value_grows(v@, i + 1);
                if all_digits(v@) {
                    assert(decimal_value(v@.take(i + 1)) > u64::MAX);
                }
            }
            return None;
        }
        acc = acc * 10 + d;
        i += 1;
        assert(all_digits(v@.take(i as int))) by {
            assert forall|j: int| 0 <= j < i implies is_digit(#[trigger] v@.take(i as int)[j]) by {
                if j < i - 1 {
                    assert(v@.take(i - 1)[j] == v@[j]);
                }
            }
        }
    }
    assert(v@.take(v.len() as int) =~= v@);
    Some(acc)
}

/// The duration in timer units that `v` gives in seconds.
pub fn parse_wait(v: &Vec<char>) -> (r: Option<u64>)
    ensures
        r == wait_duration(v@),
{
    let dot = find_char(v, '.', 0);
    proof {
        assert(v@.skip(0) =~= v@);
        first_index_of_bounds(v@, '.');
    }
    let whole = slice_chars(v, 0, dot);
    let frac = if dot < v.len() {
        slice_chars(v, dot + 1, v.len())
    } else {
        Vec::new()
    };
    assert(whole@ =~= whole_part(v@));
    assert(frac@ =~= fraction_part(v@));
    if whole.len() == 0 && frac.len() == 0 {
        return None;
    }
    let seconds = match parse_decimal(&whole) {
        Some(n) => n,
        None => {
            return None;
        },
    };
    let mut units: u64 = 0;
    let mut i: usize = 0;
    assert(six_digits(frac@).take(0) =~= Seq::<char>::empty());
    while i < 6
        invariant
            i <= 6,
            frac@ == fraction_part(v@),
            units == decimal_value(six_digits(frac@).take(i as int)),
            units < 1_000_000,
            i < 6 ==> units < 100_000,
            i < 5 ==> units < 10_000,
            i < 4 ==> units < 1_000,
            i < 3 ==> units < 100,
            i < 2 ==> units < 10,
            i < 1 ==> units < 1,
            forall|j: int| 0 <= j < i && j < frac@.len() ==> is_digit(#[trigger] frac@[j]),
        decreases 6 - i,
    {
        assert(six_digits(frac@).take(i + 1).drop_last() =~= six_digits(frac@).take(i as int));
        let c = if i < frac.len() {
            frac[i]
        } else {
            '0'
        };
        assert(c == six_digits(frac@)[i as int]);
        if !is_digit_char(c) {
            assert(!is_digit(frac@[i as int]));
            return None;
        }
        units = units * 10 + digit_of(c);
        i += 1;
    }
    assert(six_digits(frac@).take(6) =~= six_digits(frac@));
    let mut j: usize = 6;
    while j < frac.len()
        invariant
            6 <= j,
            frac@ == fraction_part(v@),
            forall|k: int| 0 <= k < j && k < frac@.len() ==> is_digit(#[trigger] frac@[k]),
        decreases frac.len() - j,
    {
        if !is_digit_char(frac[j]) {
            assert(!is_digit(frac@[j as int]));
            return None;
        }
        j += 1;
    }
    assert(all_digits(frac@));
    if seconds > (u64::MAX - units) / 1_000_000 {
        return None;
    }
    Some(seconds * 1_000_000 + units)
}

/// The position of the ending that `v` numbers.
pub fn parse_ending(v: &Vec<char>) -> (r: Option<usize>)
    ensures
        r == ending_position(v@),
{
    if v.len() == 0 {
        return None;
    }
    match parse_decimal(v) {
        Some(n) => {
            if 1 <= n && n <= NUM_ENDINGS as u64 {
                Some((n - 1) as usize)
            } else {
                None
            }
        },
        None => None,
    }
}

/// Whether `v` holds the text of `name`.
pub fn is_word(v: &Vec<char>, name: &str) -> (r: bool)
    ensures
        r == (v@ == name@),
{
    same_chars(v, &chars_of(name))
}

/// Reads the command that `raw` writes.
pub fn parse_command(raw: &str) -> (r: Result<Command, CommandError>)
    ensures
        r == parsed_command(raw@),
{
    let t = tokens_of(&chars_of(raw));
    assert(forall|i: int| 0 <= i < t@.len() ==> t@[i]@ == #[trigger] views(t@)[i]);
    if t.len() == 0 {
        Ok(Command::Unknown)
    } else if is_word(&t[0], "discard") {
        Ok(Command::Discard)
    } else if is_word(&t[0], "marcoComes") {
        Ok(Command::MarcoComes)
    } else if is_word(&t[0], "marcoLeaves") {
        Ok(Command::MarcoLeaves(t.len() == 2 && is_word(&t[1], "drinks")))
    } else if is_word(&t[0], "remieLeaves") {
        Ok(Command::RemieLeaves)
    } else if is_word(&t[0], "wait") {
        if t.len() == 1 {
            Ok(Command::Wait(UNITS_PER_SECOND))
        } else {
            match parse_wait(&t[1]) {
                Some(units) => Ok(Command::Wait(units)),
                None => Err(CommandError::MalformedWait),
            }
        }
    } else if is_word(&t[0], "theEnd") {
        if t.len() == 2 {
            match parse_ending(&t[1]) {
                Some(position) => Ok(Command::TheEnd(position)),
                None => Err(CommandError::MalformedEnding),
            }
        } else {
            Err(CommandError::MalformedEnding)
        }
    } else {
        Ok(Command::Unknown)
    }
}

} // verus!
