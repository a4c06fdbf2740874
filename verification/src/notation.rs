//! Turning a roll request into a concrete list of dice.
//!
//! A notation string asks for dice in the form `<count>d<faces>`, where
//! `<count>` and `<faces>` are runs of decimal digits and `d` or `D`
//! separates them; all surrounding text is ignored, and the leftmost such
//! expression wins. A run must hold at least one digit: an expression with
//! an empty count or an empty faces run, such as a bare `d6`, is rejected
//! as malformed rather than given a default, and so is a digit run whose
//! value does not fit the machine integer that carries it.

use vstd::prelude::*;
use vstd::string::StrSliceExecFns;

use crate::dice::spec_decimal;
use crate::dice::spec_digit_char;
use crate::dice::DiceError;
use crate::dice::DieType;

verus! {

/// Whether a character is a decimal digit.
pub open spec fn is_notation_digit(c: char) -> bool {
    48 <= c as u32 && c as u32 <= 57
}

/// Whether a character separates the count from the faces in a dice
/// expression.
pub open spec fn is_die_marker(c: char) -> bool {
    c == 'd' || c == 'D'
}

/// The numeric value of one decimal digit character.
pub open spec fn digit_value(c: char) -> int {
    c as u32 - 48
}

/// The number written by a run of decimal digit characters, most
/// significant digit first.
pub open spec fn digits_value(digits: Seq<char>) -> int
    decreases digits.len(),
{
    if digits.len() == 0 {
        0
    } else {
        digits_value(digits.drop_last()) * 10 + digit_value(digits.last())
    }
}

/// The index just past the run of digits that starts at `i`: the first
/// index at or after `i` that holds no digit, or the end of the text.
pub open spec fn digit_run_end(text: Seq<char>, i: int) -> int
    decreases text.len() - i,
{
    if i < 0 || i >= text.len() {
        text.len() as int
    } else if !is_notation_digit(text[i]) {
        i
    } else {
        digit_run_end(text, i + 1)
    }
}

/// A dice expression starts at `i`: a non-empty digit run, then a marker,
/// then at least one more digit.
pub open spec fn match_from(text: Seq<char>, i: int) -> bool {
    let marker = digit_run_end(text, i);
    &&& i < marker
    &&& marker + 1 < text.len()
    &&& is_die_marker(text[marker])
    &&& is_notation_digit(text[marker + 1])
}

/// The first index at or after `i` where a dice expression starts, or the
/// end of the text if there is none.
pub open spec fn match_start_from(text: Seq<char>, i: int) -> int
    decreases text.len() - i,
{
    if i < 0 || i >= text.len() {
        text.len() as int
    } else if match_from(text, i) {
        i
    } else {
        match_start_from(text, i + 1)
    }
}

/// What a notation string asks for.
pub enum NotationOutcome {
    /// No dice expression stands in the text, or a digit run of the
    /// leftmost expression does not fit the machine integer that carries
    /// it.
    NoExpression,
    /// The leftmost expression asks for a die with `faces` faces, which
    /// names no supported die type.
    UnsupportedFaces { faces: int },
    /// The leftmost expression asks for `count` six-sided dice.
    Roll { count: int },
}

/// The outcome of parsing a notation string: the leftmost dice expression
/// decides, its faces run is read first, and a count or faces value that
/// does not fit the machine integer that carries it makes the expression
/// malformed.
pub open spec fn parse_outcome(text: Seq<char>) -> NotationOutcome {
    let start = match_start_from(text, 0);
    if start == text.len() {
        NotationOutcome::NoExpression
    } else {
        let marker = digit_run_end(text, start);
        let faces_end = digit_run_end(text, marker + 1);
        let faces = digits_value(text.subrange(marker + 1, faces_end));
        let count = digits_value(text.subrange(start, marker));
        if faces > u32::MAX as int {
            NotationOutcome::NoExpression
        } else if faces != 6 {
            NotationOutcome::UnsupportedFaces { faces }
        } else if count > usize::MAX as int {
            NotationOutcome::NoExpression
        } else {
            NotationOutcome::Roll { count }
        }
    }
}

/// How a parse result must relate to the text it was parsed from: dice
/// come back exactly when the text asks for a roll, and each error names
/// the condition that produced it.
pub open spec fn parse_result_correct(text: Seq<char>, r: Result<Vec<DieType>, DiceError>) -> bool {
    match r {
        Ok(dice) => (parse_outcome(text) matches NotationOutcome::Roll { count }
            && dice@ == Seq::new(count as nat, |k: int| DieType::D6)),
        Err(e) => match e {
            DiceError::NoDiceExpression { input } => parse_outcome(text)
                is NoExpression && input@ == text,
            DiceError::UnsupportedDie { faces } => (parse_outcome(text)
                matches NotationOutcome::UnsupportedFaces { faces: f } && f == faces as int),
        },
    }
}

/// Everything before the end of a digit run is a digit, and the run stops
/// at the end of the text or just before a non-digit.
proof fn lemma_digit_run_end(text: Seq<char>, i: int)
    requires
        0 <= i <= text.len(),
    ensures
        i <= digit_run_end(text, i) <= text.len(),
        forall|k: int| i <= k < digit_run_end(text, i) ==> is_notation_digit(text[k]),
        digit_run_end(text, i) < text.len() ==> !is_notation_digit(text[digit_run_end(text, i)]),
    decreases text.len() - i,
{
    if i < text.len() && is_notation_digit(text[i]) {
        lemma_digit_run_end(text, i + 1);
    }
}

/// No dice expression starts before the first match, and one starts there
/// unless the whole text was scanned in vain.
proof fn lemma_match_start_from(text: Seq<char>, i: int)
    requires
        0 <= i <= text.len(),
    ensures
        i <= match_start_from(text, i) <= text.len(),
        forall|k: int| i <= k < match_start_from(text, i) ==> !match_from(text, k),
        match_start_from(text, i) < text.len() ==> match_from(text, match_start_from(text, i)),
    decreases text.len() - i,
{
    if i < text.len() && !match_from(text, i) {
        lemma_match_start_from(text, i + 1);
    }
}

/// Appending one digit to a run multiplies its value by ten and adds the
/// digit.
proof fn lemma_digits_value_step(text: Seq<char>, from: int, k: int)
    requires
        0 <= from <= k < text.len(),
    ensures
        digits_value(text.subrange(from, k + 1)) == digits_value(text.subrange(from, k)) * 10
            + digit_value(text[k]),
{
    let extended = text.subrange(from, k + 1);
    assert(extended.drop_last() =~= text.subrange(from, k));
}

/// The value of a digit run is never negative.
proof fn lemma_digits_value_nonneg(text: Seq<char>, from: int, to: int)
    requires
        0 <= from <= to <= text.len(),
        forall|k: int| from <= k < to ==> is_notation_digit(text[k]),
    ensures
        digits_value(text.subrange(from, to)) >= 0,
    decreases to - from,
{
    if to > from {
        lemma_digits_value_step(text, from, to - 1);
        lemma_digits_value_nonneg(text, from, to - 1);
    }
}

/// A prefix of a digit run never has a larger value than the whole run.
proof fn lemma_digits_value_prefix_le(text: Seq<char>, from: int, k: int, to: int)
    requires
        0 <= from <= k <= to <= text.len(),
        forall|m: int| from <= m < to ==> is_notation_digit(text[m]),
    ensures
        digits_value(text.subrange(from, k)) <= digits_value(text.subrange(from, to)),
    decreases to - k,
{
    if k < to {
        lemma_digits_value_step(text, from, k);
        lemma_digits_value_nonneg(text, from, k);
        lemma_digits_value_prefix_le(text, from, k + 1, to);
    }
}

/// The decimal writing of a number is all digits and reads back as that
/// number: rendering with `spec_decimal` and valuing with `digits_value`
/// are inverse to one another.
pub proof fn lemma_decimal_value_round_trip(n: int)
    requires
        n >= 0,
    ensures
        digits_value(spec_decimal(n)) == n,
        forall|k: int| 0 <= k < spec_decimal(n).len() ==> is_notation_digit(spec_decimal(n)[k]),
    decreases n,
{
    reveal_with_fuel(digits_value, 2);
    if n <= 9 {
        assert(spec_decimal(n).drop_last().len() == 0);
        assert(digits_value(spec_decimal(n).drop_last()) == 0);
    } else {
        lemma_decimal_value_round_trip(n / 10);
        assert(spec_decimal(n).drop_last() =~= spec_decimal(n / 10));
        assert(spec_decimal(n).last() == spec_digit_char(n % 10));
        assert(n / 10 * 10 + n % 10 == n) by {
            vstd::arithmetic::div_mod::lemma_fundamental_div_mod(n, 10);
        }
        assert forall|k: int| 0 <= k < spec_decimal(n).len() implies is_notation_digit(
            spec_decimal(n)[k],
        ) by {
            if k < spec_decimal(n).len() - 1 {
                assert(spec_decimal(n)[k] == spec_decimal(n / 10)[k]);
            }
        }
    }
}

/// A digit run and its stopping point pin the run end down exactly.
proof fn lemma_digit_run_end_exact(text: Seq<char>, i: int, j: int)
    requires
        0 <= i <= j <= text.len(),
        forall|k: int| i <= k < j ==> is_notation_digit(text[k]),
        j < text.len() ==> !is_notation_digit(text[j]),
    ensures
        digit_run_end(text, i) == j,
    decreases j - i,
{
    if i < j {
        lemma_digit_run_end_exact(text, i + 1, j);
    }
}

/// If no dice expression starts in `[i, x)` and one starts at `x` (or `x`
/// is the end of the text), then `x` is the first match from `i`.
proof fn lemma_match_start_from_exact(text: Seq<char>, i: int, x: int)
    requires
        0 <= i <= x <= text.len(),
        forall|k: int| i <= k < x ==> !match_from(text, k),
        x < text.len() ==> match_from(text, x),
    ensures
        match_start_from(text, i) == x,
    decreases x - i,
{
    if i < x {
        lemma_match_start_from_exact(text, i + 1, x);
    }
}

/// A string that is exactly a digit run, a marker and the digit six asks
/// for as many six-sided dice as the run says: parsing `"<count>d6"`
/// yields a roll of `<count>` dice, for every count that fits the machine.
pub proof fn lemma_plain_notation_counts_dice(text: Seq<char>)
    requires
        text.len() >= 3,
        forall|k: int| 0 <= k < text.len() - 2 ==> is_notation_digit(text[k]),
        is_die_marker(text[text.len() - 2]),
        text[text.len() - 1] == '6',
        digits_value(text.subrange(0, text.len() - 2)) <= usize::MAX as int,
    ensures
        parse_outcome(text) == (NotationOutcome::Roll {
            count: digits_value(text.subrange(0, text.len() - 2)),
        }),
{
    let t = text.len() as int;
    assert(!is_notation_digit(text[t - 2]));
    lemma_digit_run_end_exact(text, 0, t - 2);
    assert(match_from(text, 0));
    lemma_match_start_from_exact(text, 0, 0);
    lemma_digit_run_end_exact(text, t - 1, t);
    let faces_run = text.subrange(t - 1, t);
    assert(faces_run.drop_last().len() == 0);
    assert(faces_run.last() == '6');
    reveal_with_fuel(digits_value, 3);
    assert(digits_value(faces_run) == 6);
}

/// Surrounding text does not change what a notation string asks for: a
/// text that holds a dice expression parses the same with any prose
/// around it, as long as the prose before it holds no digit and the
/// character right after it is not a digit.
pub proof fn lemma_surrounding_text_ignored(prefix: Seq<char>, text: Seq<char>, suffix: Seq<char>)
    requires
        forall|k: int| 0 <= k < prefix.len() ==> !is_notation_digit(prefix[k]),
        suffix.len() > 0 ==> !is_notation_digit(suffix[0]),
        match_start_from(text, 0) < text.len(),
    ensures
        parse_outcome(prefix + text + suffix) == parse_outcome(text),
{
    let full = prefix + text + suffix;
    let p = prefix.len() as int;
    let t = text.len() as int;
    let m = match_start_from(text, 0);
    lemma_match_start_from(text, 0);
    let marker = digit_run_end(text, m);
    lemma_digit_run_end(text, m);
    let faces_end = digit_run_end(text, marker + 1);
    lemma_digit_run_end(text, marker + 1);
    assert forall|k: int| 0 <= k < t implies full[p + k] == text[k] by {
        assert((prefix + text)[p + k] == text[k]);
    }
    assert forall|k: int| 0 <= k < p implies full[k] == prefix[k] by {
        assert((prefix + text)[k] == prefix[k]);
    }
    lemma_digit_run_end_exact(full, p + m, p + marker);
    assert(match_from(full, p + m));
    assert forall|k: int| 0 <= k < p + m implies !match_from(full, k) by {
        if k < p {
            lemma_digit_run_end_exact(full, k, k);
        } else {
            let k2 = k - p;
            assert(!match_from(text, k2));
            lemma_digit_run_end(text, k2);
            let j2 = digit_run_end(text, k2);
            if j2 == t {
                lemma_digit_run_end_exact(text, m, t);
                assert(false);
            }
            lemma_digit_run_end_exact(full, k, p + j2);
            if match_from(full, k) {
                if j2 + 1 < t {
                    assert(match_from(text, k2));
                }
                assert(false);
            }
        }
    }
    lemma_match_start_from_exact(full, 0, p + m);
    lemma_digit_run_end_exact(full, p + marker + 1, p + faces_end);
    assert(full.subrange(p + m, p + marker) =~= text.subrange(m, marker));
    assert(full.subrange(p + marker + 1, p + faces_end) =~= text.subrange(
        marker + 1,
        faces_end,
    ));
}

/// Whether a character is a decimal digit.
fn is_digit_char(c: char) -> (r: bool)
    ensures
        r == is_notation_digit(c),
{
    let u = c as u32;
    48 <= u && u <= 57
}

/// Whether a character separates count from faces in a dice expression.
fn is_marker_char(c: char) -> (r: bool)
    ensures
        r == is_die_marker(c),
{
    c == 'd' || c == 'D'
}

/// Scans the run of digits that starts at `start` and returns the index
/// just past it.
fn scan_digit_run(text: &str, start: usize) -> (end: usize)
    requires
        start <= text@.len(),
    ensures
        end == digit_run_end(text@, start as int),
{
    let n = text.unicode_len();
    let mut j = start;
    loop
        invariant
            start <= j <= n,
            n == text@.len(),
            digit_run_end(text@, start as int) == digit_run_end(text@, j as int),
        decreases n - j,
    {
        if j == n {
            return j;
        }
        let c = text.get_char(j);
        if !is_digit_char(c) {
            return j;
        }
        j = j + 1;
    }
}

/// Decides whether a dice expression starts at `i`; on a match, returns
/// the index of its marker character.
fn match_marker_at(text: &str, i: usize) -> (r: Option<usize>)
    requires
        i < text@.len(),
    ensures
        match r {
            Some(marker) => match_from(text@, i as int) && marker == digit_run_end(
                text@,
                i as int,
            ),
            None => !match_from(text@, i as int),
        },
{
    proof {
        lemma_digit_run_end(text@, i as int);
    }
    let n = text.unicode_len();
    let j = scan_digit_run(text, i);
    if j == i {
        return None;
    }
    if j == n {
        return None;
    }
    let c = text.get_char(j);
    if !is_marker_char(c) {
        return None;
    }
    if j + 1 == n {
        return None;
    }
    let c2 = text.get_char(j + 1);
    if !is_digit_char(c2) {
        return None;
    }
    Some(j)
}

/// Finds the leftmost dice expression: its start index and the index of
/// its marker character.
fn find_match(text: &str) -> (r: Option<(usize, usize)>)
    ensures
        match r {
            Some(found) => {
                let (start, marker) = found;
                &&& start as int == match_start_from(text@, 0)
                &&& (start as int) < text@.len()
                &&& match_from(text@, start as int)
                &&& marker == digit_run_end(text@, start as int)
            },
            None => match_start_from(text@, 0) == text@.len(),
        },
{
    let n = text.unicode_len();
    let mut i: usize = 0;
    loop
        invariant
            i <= n,
            n == text@.len(),
            match_start_from(text@, 0) == match_start_from(text@, i as int),
        decreases n - i,
    {
        if i == n {
            return None;
        }
        match match_marker_at(text, i) {
            Some(marker) => {
                return Some((i, marker));
            },
            None => {
                i = i + 1;
            },
        }
    }
}

/// Reads the value of the digit run `text[from..to]`, or nothing if the
/// value does not fit.
fn parse_digits(text: &str, from: usize, to: usize) -> (r: Option<u64>)
    requires
        from <= to <= text@.len(),
        forall|k: int| from <= k < to ==> is_notation_digit(text@[k]),
    ensures
        match r {
            Some(v) => v as int == digits_value(text@.subrange(from as int, to as int)),
            None => digits_value(text@.subrange(from as int, to as int)) > u64::MAX as int,
        },
{
    let mut acc: u64 = 0;
    let mut k = from;
    loop
        invariant
            from <= k <= to,
            to <= text@.len(),
            forall|m: int| from <= m < to ==> is_notation_digit(text@[m]),
            acc as int == digits_value(text@.subrange(from as int, k as int)),
        decreases to - k,
    {
        if k == to {
            return Some(acc);
        }
        let c = text.get_char(k);
        assert(is_notation_digit(text@[k as int]));
        let d = (c as u32) - 48;
        let d64 = d as u64;
        if acc > (u64::MAX - d64) / 10 {
            proof {
                lemma_digits_value_step(text@, from as int, k as int);
                assert(acc as int * 10 + d as int > u64::MAX as int) by {
                    let bound = (u64::MAX - d64) as int;
                    assert(bound == (bound / 10) * 10 + bound % 10) by (nonlinear_arith);
                    assert(acc as int * 10 >= (bound / 10 + 1) * 10) by (nonlinear_arith)
                        requires acc as int >= bound / 10 + 1;
                }
                lemma_digits_value_prefix_le(text@, from as int, k as int + 1, to as int);
            }
            return None;
        }
        proof {
            lemma_digits_value_step(text@, from as int, k as int);
            assert(acc as int * 10 + d as int <= u64::MAX as int) by {
                let bound = (u64::MAX - d64) as int;
                assert(bound == (bound / 10) * 10 + bound % 10) by (nonlinear_arith);
                assert(acc as int * 10 <= (bound / 10) * 10) by (nonlinear_arith)
                    requires acc as int <= bound / 10;
            }
        }
        acc = acc * 10 + d64;
        k = k + 1;
    }
}

/// Parses one notation string into the dice it asks for.
fn parse_notation(text: &str) -> (r: Result<Vec<DieType>, DiceError>)
    ensures
        parse_result_correct(text@, r),
{
    // Counting the characters teaches the prover that their number fits a
    // machine word, which keeps the index arithmetic below in bounds.
    let _char_count = text.unicode_len();
    proof {
        lemma_match_start_from(text@, 0);
    }
    match find_match(text) {
        None => Err(DiceError::NoDiceExpression { input: text.to_owned() }),
        Some((start, marker)) => {
            proof {
                lemma_digit_run_end(text@, marker as int + 1);
            }
            let faces_end = scan_digit_run(text, marker + 1);
            match parse_digits(text, marker + 1, faces_end) {
                None => Err(DiceError::NoDiceExpression { input: text.to_owned() }),
                Some(faces) => {
                    if faces > u32::MAX as u64 {
                        Err(DiceError::NoDiceExpression { input: text.to_owned() })
                    } else if faces != 6 {
                        Err(DiceError::UnsupportedDie { faces: faces as u32 })
                    } else {
                        proof {
                            lemma_digit_run_end(text@, start as int);
                        }
                        match parse_digits(text, start, marker) {
                            None => Err(DiceError::NoDiceExpression { input: text.to_owned() }),
                            Some(count) => {
                                if count > usize::MAX as u64 {
                                    Err(DiceError::NoDiceExpression { input: text.to_owned() })
                                } else {
                                    let total = count as usize;
                                    let mut dice: Vec<DieType> = Vec::new();
                                    let mut k: usize = 0;
                                    while k < total
                                        invariant
                                            k <= total,
                                            dice@.len() == k as int,
                                            forall|m: int|
                                                0 <= m < k ==> dice@[m] == DieType::D6,
                                        decreases total - k,
                                    {
                                        dice.push(DieType::D6);
                                        k = k + 1;
                                    }
                                    proof {
                                        assert(dice@ =~= Seq::new(
                                            total as nat,
                                            |m: int| DieType::D6,
                                        ));
                                    }
                                    Ok(dice)
                                }
                            },
                        }
                    }
                },
            }
        },
    }
}

/// Command for rolling one or more dice.
pub enum RollDice {
    /// Rolls dice based on a notation string in the format `<count>d<faces>`,
    /// where `<count>` is the number of dice to roll and `<faces>` the number
    /// of faces on each die (see the supported types in [`DieType`]). All
    /// other text is ignored, so "Arin rolls 3d6 for his strength check"
    /// still evaluates to a 3d6 dice roll.
    DiceString(String),
    /// Rolls the dice in the given list.
    Dice(Vec<DieType>),
}

impl RollDice {
    /// Turns this request into the ordered list of dice to roll: an explicit
    /// list comes back unchanged, and a notation string is parsed as the
    /// leftmost `<count>d<faces>` expression it holds.
    pub fn to_dice(&self) -> (r: Result<Vec<DieType>, DiceError>)
        ensures
            match self {
                RollDice::DiceString(text) => parse_result_correct(text@, r),
                RollDice::Dice(list) => (r matches Ok(dice) && dice@ == list@),
            },
    {
        match self {
            RollDice::DiceString(text) => parse_notation(text.as_str()),
            RollDice::Dice(list) => {
                let mut dice: Vec<DieType> = Vec::new();
                let mut k: usize = 0;
                while k < list.len()
                    invariant
                        k <= list@.len(),
                        dice@ =~= list@.subrange(0, k as int),
                    decreases list@.len() - k,
                {
                    dice.push(list[k]);
                    k = k + 1;
                }
                proof {
                    assert(dice@ =~= list@);
                }
                Ok(dice)
            },
        }
    }
}

} // verus!
