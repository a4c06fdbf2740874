//! The supported die types and the errors a roll request can produce.

use vstd::prelude::*;
use vstd::string::StringExecFns;

verus! {

/// The types of dice supported by this crate.
#[derive(Clone, Copy, Debug, PartialEq, Eq, Structural)]
pub enum DieType {
    /// Standard cubic six-sided die.
    D6,
}

/// An error from turning a roll request into dice.
#[derive(Debug)]
pub enum DiceError {
    /// No `<count>d<faces>` expression was found in the input string, which
    /// the error carries unchanged.
    NoDiceExpression { input: String },
    /// The faces number extracted from the notation names no supported die.
    UnsupportedDie { faces: u32 },
}

/// The character that writes one decimal digit.
pub open spec fn spec_digit_char(d: int) -> char {
    if d == 0 {
        '0'
    } else if d == 1 {
        '1'
    } else if d == 2 {
        '2'
    } else if d == 3 {
        '3'
    } else if d == 4 {
        '4'
    } else if d == 5 {
        '5'
    } else if d == 6 {
        '6'
    } else if d == 7 {
        '7'
    } else if d == 8 {
        '8'
    } else {
        '9'
    }
}

/// The decimal writing of a number, most significant digit first and
/// without leading zeroes.
pub open spec fn spec_decimal(n: int) -> Seq<char>
    recommends
        0 <= n,
    decreases n,
{
    if n <= 9 {
        seq![spec_digit_char(n)]
    } else {
        spec_decimal(n / 10).push(spec_digit_char(n % 10))
    }
}

/// The full text of an error, as the caller would report it.
pub open spec fn spec_error_text(e: DiceError) -> Seq<char> {
    match e {
        DiceError::NoDiceExpression { input } => "No dice expression detected in '"@ + input@
            + "'"@,
        DiceError::UnsupportedDie { faces } => "No such die type: d"@ + spec_decimal(faces as int),
    }
}

/// The one-character string that writes one decimal digit.
fn digit_str(d: u32) -> (r: &'static str)
    requires
        d <= 9,
    ensures
        r@ =~= seq![spec_digit_char(d as int)],
{
    proof {
        reveal_strlit("0");
        reveal_strlit("1");
        reveal_strlit("2");
        reveal_strlit("3");
        reveal_strlit("4");
        reveal_strlit("5");
        reveal_strlit("6");
        reveal_strlit("7");
        reveal_strlit("8");
        reveal_strlit("9");
    }
    match d {
        0 => "0",
        1 => "1",
        2 => "2",
        3 => "3",
        4 => "4",
        5 => "5",
        6 => "6",
        7 => "7",
        8 => "8",
        _ => "9",
    }
}

/// Appends the decimal writing of `n` to a string.
fn append_decimal(s: &mut String, n: u32)
    ensures
        final(s)@ == old(s)@ + spec_decimal(n as int),
    decreases n,
{
    if n <= 9 {
        s.append(digit_str(n));
    } else {
        append_decimal(s, n / 10);
        s.append(digit_str(n % 10));
        proof {
            assert(old(s)@ + spec_decimal(n as int) =~= old(s)@ + spec_decimal(n as int / 10)
                + seq![spec_digit_char(n as int % 10)]);
        }
    }
}

/// The display text of a die type, as a sequence of characters.
pub open spec fn spec_display_text(die: DieType) -> Seq<char> {
    match die {
        DieType::D6 => "d6"@,
    }
}

impl DiceError {
    /// The full text of this error, ready to be reported to the caller.
    pub fn describe(&self) -> (r: String)
        ensures
            r@ == spec_error_text(*self),
    {
        match self {
            DiceError::NoDiceExpression { input } => {
                let mut s = String::from_str("No dice expression detected in '");
                s.append(input.as_str());
                s.append("'");
                s
            },
            DiceError::UnsupportedDie { faces } => {
                let mut s = String::from_str("No such die type: d");
                append_decimal(&mut s, *faces);
                s
            },
        }
    }
}

impl DieType {
    /// Resolves a face count to the die type with that many faces: six faces
    /// name the six-sided die, and every other count is unsupported.
    pub fn try_from(value: u32) -> (r: Result<DieType, DiceError>)
        ensures
            value == 6 ==> r == Ok::<DieType, DiceError>(DieType::D6),
            value != 6 ==> (r matches Err(DiceError::UnsupportedDie { faces }) && faces == value),
    {
        match value {
            6 => Ok(DieType::D6),
            _ => Err(DiceError::UnsupportedDie { faces: value }),
        }
    }

    /// The human-readable name of this die type.
    pub fn display_text(&self) -> (r: String)
        ensures
            r@ == spec_display_text(*self),
    {
        match self {
            DieType::D6 => "d6".to_owned(),
        }
    }
}

} // verus!
