use dice_roller::dice::DieType;
use dice_roller::face::DieOrientation;

/// A representative rest angle (in thousandths of a radian) for each of
/// the four quarter-turn buckets: none, one forward, half a turn, one
/// backward.
const BUCKET_ANGLES: [i32; 4] = [0, 1600, 3000, -1600];

fn resting_value(x: i32, z: i32) -> u32 {
    DieType::D6.get_resting_value(DieOrientation { x, y: 0, z })
}

#[test]
fn every_bucket_pair_resolves_to_the_fixed_table() {
    // Rows: x bucket (none, one, two, three); columns: z bucket.
    let expected: [[u32; 4]; 4] = [
        [2, 1, 5, 6],
        [3, 1, 4, 6],
        [5, 1, 2, 6],
        [4, 1, 3, 6],
    ];
    for (xi, &x) in BUCKET_ANGLES.iter().enumerate() {
        for (zi, &z) in BUCKET_ANGLES.iter().enumerate() {
            let value = resting_value(x, z);
            assert_eq!(value, expected[xi][zi]);
            assert!((1..=6).contains(&value));
        }
    }
}

#[test]
fn resolution_is_deterministic() {
    for &x in BUCKET_ANGLES.iter() {
        for &z in BUCKET_ANGLES.iter() {
            let first = resting_value(x, z);
            for _ in 0..10 {
                assert_eq!(resting_value(x, z), first);
            }
        }
    }
}

#[test]
fn every_face_value_is_reachable() {
    let mut seen = [false; 7];
    for &x in BUCKET_ANGLES.iter() {
        for &z in BUCKET_ANGLES.iter() {
            seen[resting_value(x, z) as usize] = true;
        }
    }
    for value in 1..=6 {
        assert!(seen[value]);
    }
}

#[test]
fn half_turn_about_z_shows_the_opposite_face() {
    // Half a turn further about the z axis swaps each bucket with the one
    // two quarter turns away: none with two, one with three.
    let flipped: [i32; 4] = [3000, -1600, 0, 1600];
    for &x in BUCKET_ANGLES.iter() {
        for zi in 0..4 {
            let face = resting_value(x, BUCKET_ANGLES[zi]);
            let opposite = resting_value(x, flipped[zi]);
            assert_eq!(face + opposite, 7);
            assert_ne!(face, opposite);
        }
    }
}

#[test]
fn half_turn_about_x_shows_the_opposite_face_on_even_z() {
    let flipped: [i32; 4] = [3000, -1600, 0, 1600];
    for xi in 0..4 {
        for &z in [0i32, 3000].iter() {
            let face = resting_value(BUCKET_ANGLES[xi], z);
            let opposite = resting_value(flipped[xi], z);
            assert_eq!(face + opposite, 7);
        }
    }
}

#[test]
fn half_turn_about_x_keeps_the_face_on_odd_z() {
    // With an odd quarter-turn about z the uppermost face lies on the x
    // axis, so turning about x leaves it in place.
    let flipped: [i32; 4] = [3000, -1600, 0, 1600];
    for xi in 0..4 {
        for &z in [1600i32, -1600].iter() {
            let face = resting_value(BUCKET_ANGLES[xi], z);
            let same = resting_value(flipped[xi], z);
            assert_eq!(face, same);
        }
    }
}

#[test]
fn bucket_breakpoints_classify_as_documented() {
    // Angles just inside and outside each breakpoint, against the value
    // the neighbouring buckets give with z at rest.
    assert_eq!(resting_value(799, 0), 2); // still no turn
    assert_eq!(resting_value(800, 0), 3); // one quarter turn
    assert_eq!(resting_value(2349, 0), 3); // still one quarter turn
    assert_eq!(resting_value(2350, 0), 5); // half a turn
    assert_eq!(resting_value(-800, 0), 2); // still no turn
    assert_eq!(resting_value(-801, 0), 4); // one backward quarter turn
    assert_eq!(resting_value(-2350, 0), 4); // still one backward quarter turn
    assert_eq!(resting_value(-2351, 0), 5); // half a turn
    assert_eq!(resting_value(i32::MAX, 0), 5); // far past half a turn
    assert_eq!(resting_value(i32::MIN, 0), 5);
}

#[test]
fn try_from_resolves_only_six_faces() {
    assert_eq!(DieType::try_from(6).unwrap(), DieType::D6);
    for faces in [0u32, 1, 4, 7, 12, 20, 100] {
        match DieType::try_from(faces) {
            Err(dice_roller::dice::DiceError::UnsupportedDie { faces: named }) => {
                assert_eq!(named, faces)
            },
            other => panic!("expected an unsupported-die error, got {other:?}"),
        }
    }
}

#[test]
fn display_text_names_the_die() {
    assert_eq!(DieType::D6.display_text(), "d6");
}
