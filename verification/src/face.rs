//! Resolving a settled die's rest orientation to the face value it shows.
//!
//! A cube at rest sits a whole number of quarter turns away from its
//! reference pose about each horizontal axis. Each rest angle is classified
//! into one of four quarter-turn buckets, and a fixed table maps the pair of
//! buckets to the face value that is uppermost.

use vstd::prelude::*;

use crate::dice::DieType;

verus! {

/// How many quarter turns a die has made about one horizontal axis,
/// relative to its reference rest pose.
#[derive(Clone, Copy, Debug, PartialEq, Eq, Structural)]
pub enum SideTurns {
    /// Within an eighth of a turn of the reference pose.
    Zero,
    /// One quarter turn forward.
    One,
    /// Half a turn, reached from either direction.
    Two,
    /// One quarter turn backward.
    Three,
}

/// A settled die's rest pose: its rotation angles about the three axes, in
/// thousandths of a radian, each conceptually in the half-open interval
/// from excluded -pi to included pi. Face resolution reads only the two
/// horizontal components `x` and `z`; `y` is carried for completeness.
#[derive(Clone, Copy, Debug, PartialEq, Eq, Structural)]
pub struct DieOrientation {
    /// Rotation about the first horizontal axis, in thousandths of a radian.
    pub x: i32,
    /// Rotation about the vertical axis, in thousandths of a radian.
    pub y: i32,
    /// Rotation about the second horizontal axis, in thousandths of a radian.
    pub z: i32,
}

/// The quarter-turn bucket of one rest angle, given in thousandths of a
/// radian. The breakpoints sit halfway between the four rest angles
/// 0, 1600 (a quarter turn), 3100 (half a turn) and their negatives, so
/// every angle is assigned the nearest rest state; angles beyond half a
/// turn in either direction also count as half a turn.
pub open spec fn spec_side_turns(angle: int) -> SideTurns {
    if angle < -2350 {
        SideTurns::Two
    } else if angle < -800 {
        SideTurns::Three
    } else if angle < 800 {
        SideTurns::Zero
    } else if angle < 2350 {
        SideTurns::One
    } else {
        SideTurns::Two
    }
}

/// The fixed table mapping a pair of quarter-turn buckets, one per
/// horizontal axis, to the face value a standard cube then shows on top.
pub open spec fn spec_face(x_turns: SideTurns, z_turns: SideTurns) -> u32 {
    match (x_turns, z_turns) {
        (SideTurns::Zero, SideTurns::One)
        | (SideTurns::One, SideTurns::One)
        | (SideTurns::Two, SideTurns::One)
        | (SideTurns::Three, SideTurns::One) => 1,
        (SideTurns::Zero, SideTurns::Zero) | (SideTurns::Two, SideTurns::Two) => 2,
        (SideTurns::One, SideTurns::Zero) | (SideTurns::Three, SideTurns::Two) => 3,
        (SideTurns::One, SideTurns::Two) | (SideTurns::Three, SideTurns::Zero) => 4,
        (SideTurns::Zero, SideTurns::Two) | (SideTurns::Two, SideTurns::Zero) => 5,
        (SideTurns::Zero, SideTurns::Three)
        | (SideTurns::One, SideTurns::Three)
        | (SideTurns::Two, SideTurns::Three)
        | (SideTurns::Three, SideTurns::Three) => 6,
    }
}

/// The face value a die of the given type shows when it rests with the
/// given rotation angles (in thousandths of a radian) about the two
/// horizontal axes.
pub open spec fn spec_resting_value(die: DieType, x: int, z: int) -> u32 {
    match die {
        DieType::D6 => spec_face(spec_side_turns(x), spec_side_turns(z)),
    }
}

/// The bucket half a turn away from the given one.
pub open spec fn half_turn(turns: SideTurns) -> SideTurns {
    match turns {
        SideTurns::Zero => SideTurns::Two,
        SideTurns::One => SideTurns::Three,
        SideTurns::Two => SideTurns::Zero,
        SideTurns::Three => SideTurns::One,
    }
}

/// The face table is total: every pair of quarter-turn buckets yields one
/// face value between one and six.
pub proof fn lemma_face_total(x_turns: SideTurns, z_turns: SideTurns)
    ensures
        1 <= spec_face(x_turns, z_turns) <= 6,
{
}

/// Every face value between one and six is produced by some pair of
/// quarter-turn buckets.
pub proof fn lemma_every_face_reachable(value: u32)
    requires
        1 <= value <= 6,
    ensures
        exists|x_turns: SideTurns, z_turns: SideTurns| spec_face(x_turns, z_turns) == value,
{
    if value == 1 {
        assert(spec_face(SideTurns::Zero, SideTurns::One) == value);
    } else if value == 2 {
        assert(spec_face(SideTurns::Zero, SideTurns::Zero) == value);
    } else if value == 3 {
        assert(spec_face(SideTurns::One, SideTurns::Zero) == value);
    } else if value == 4 {
        assert(spec_face(SideTurns::One, SideTurns::Two) == value);
    } else if value == 5 {
        assert(spec_face(SideTurns::Zero, SideTurns::Two) == value);
    } else {
        assert(spec_face(SideTurns::Zero, SideTurns::Three) == value);
    }
}

/// Turning a die half a turn further about the second horizontal axis
/// always brings the opposite face up: the two values sum to seven, so an
/// orientation and its half-turn flip about that axis never show the same
/// face, and faces one and six, two and five, three and four pair up as
/// opposites.
pub proof fn lemma_half_turn_z_gives_opposite_face(x_turns: SideTurns, z_turns: SideTurns)
    ensures
        spec_face(x_turns, z_turns) + spec_face(x_turns, half_turn(z_turns)) == 7,
{
}

/// Turning a die half a turn further about the first horizontal axis
/// brings the opposite face up whenever the second axis rests an even
/// number of quarter turns away. (With an odd quarter-turn about the
/// second axis the uppermost face lies on the first axis itself, so
/// turning about that axis leaves the same face up.)
pub proof fn lemma_half_turn_x_gives_opposite_face(x_turns: SideTurns, z_turns: SideTurns)
    requires
        z_turns == SideTurns::Zero || z_turns == SideTurns::Two,
    ensures
        spec_face(x_turns, z_turns) + spec_face(half_turn(x_turns), z_turns) == 7,
{
}

/// The quarter-turn bucket of one rest angle, in thousandths of a radian.
fn side_turns(angle: i32) -> (turns: SideTurns)
    ensures
        turns == spec_side_turns(angle as int),
{
    if angle < -2350 {
        SideTurns::Two
    } else if angle < -800 {
        SideTurns::Three
    } else if angle < 800 {
        SideTurns::Zero
    } else if angle < 2350 {
        SideTurns::One
    } else {
        SideTurns::Two
    }
}

impl DieType {
    /// The face value this die shows at the given rest orientation. The
    /// result is fully determined by the orientation's two horizontal
    /// angles, and always lies between one and six.
    pub fn get_resting_value(&self, orientation: DieOrientation) -> (value: u32)
        ensures
            value == spec_resting_value(*self, orientation.x as int, orientation.z as int),
            1 <= value <= 6,
    {
        match self {
            DieType::D6 => {
                let x_turns = side_turns(orientation.x);
                let z_turns = side_turns(orientation.z);
                match (x_turns, z_turns) {
                    (SideTurns::Zero, SideTurns::One)
                    | (SideTurns::One, SideTurns::One)
                    | (SideTurns::Two, SideTurns::One)
                    | (SideTurns::Three, SideTurns::One) => 1,
                    (SideTurns::Zero, SideTurns::Zero) | (SideTurns::Two, SideTurns::Two) => 2,
                    (SideTurns::One, SideTurns::Zero) | (SideTurns::Three, SideTurns::Two) => 3,
                    (SideTurns::One, SideTurns::Two) | (SideTurns::Three, SideTurns::Zero) => 4,
                    (SideTurns::Zero, SideTurns::Two) | (SideTurns::Two, SideTurns::Zero) => 5,
                    (SideTurns::Zero, SideTurns::Three)
                    | (SideTurns::One, SideTurns::Three)
                    | (SideTurns::Two, SideTurns::Three)
                    | (SideTurns::Three, SideTurns::Three) => 6,
                }
            }
        }
    }
}

} // verus!
