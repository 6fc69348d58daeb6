use dice_roller_rs::{
    pick_advantage, pick_disadvantage, roll, roll_advantage, roll_disadvantage, roll_simple,
    tally, DiceError,
};

#[test]
fn test_roll_basic() {
    let result = roll(2, 6, 0).unwrap();
    assert_eq!(result.num_dice, 2);
    assert_eq!(result.sides, 6);
    assert_eq!(result.modifier, 0);
    assert_eq!(result.rolls.len(), 2);
    assert!(result.total >= 2 && result.total <= 12);
}

#[test]
fn test_roll_with_modifier() {
    let result = roll(1, 20, 5).unwrap();
    assert_eq!(result.num_dice, 1);
    assert_eq!(result.sides, 20);
    assert_eq!(result.modifier, 5);
    assert!(result.total >= 6 && result.total <= 25);
}

#[test]
fn test_roll_with_negative_modifier() {
    let result = roll(1, 6, -2).unwrap();
    assert!(result.total >= -1 && result.total <= 4);
}

#[test]
fn test_roll_simple() {
    for _ in 0..100 {
        let result = roll_simple(20).unwrap();
        assert!(result >= 1 && result <= 20);
    }
}

#[test]
fn test_roll_advantage() {
    for _ in 0..100 {
        let result = roll_advantage(20).unwrap();
        assert!(result >= 1 && result <= 20);
    }
}

#[test]
fn test_roll_disadvantage() {
    for _ in 0..100 {
        let result = roll_disadvantage(20).unwrap();
        assert!(result >= 1 && result <= 20);
    }
}

#[test]
fn rolls_have_one_face_per_die_on_the_die() {
    for sides in [1u32, 2, 6, 20, 100] {
        for num_dice in [0u32, 1, 3, 50] {
            let result = roll(num_dice, sides, -7).unwrap();
            assert_eq!(result.rolls.len(), num_dice as usize);
            assert!(result.rolls.iter().all(|&f| f >= 1 && f <= sides));
        }
    }
}

#[test]
fn total_is_sum_of_rolls_plus_modifier() {
    for modifier in [-20i32, 0, 13] {
        let result = roll(40, 12, modifier).unwrap();
        let sum: i64 = result.rolls.iter().map(|&f| f as i64).sum();
        assert_eq!(result.total as i64, sum + modifier as i64);
    }
}

#[test]
fn no_dice_gives_the_modifier() {
    let result = roll(0, 6, 7).unwrap();
    assert!(result.rolls.is_empty());
    assert_eq!(result.total, 7);
    let lowest = roll(0, 6, i32::MIN).unwrap();
    assert_eq!(lowest.total, i32::MIN);
}

#[test]
fn one_sided_die_always_shows_one() {
    let result = roll(5, 1, 2).unwrap();
    assert_eq!(result.rolls, vec![1, 1, 1, 1, 1]);
    assert_eq!(result.total, 7);
    assert_eq!(roll_simple(1), Ok(1));
    assert_eq!(roll_advantage(1), Ok(1));
    assert_eq!(roll_disadvantage(1), Ok(1));
}

#[test]
fn largest_die_that_fits_the_total() {
    let sides = i32::MAX as u32;
    let result = roll(1, sides, 0).unwrap();
    assert_eq!(result.rolls.len(), 1);
    assert!(result.rolls[0] >= 1 && result.rolls[0] <= sides);
    assert_eq!(result.total as u32, result.rolls[0]);
}

#[test]
fn zero_sides_is_refused() {
    assert_eq!(roll(2, 0, 3), Err(DiceError::InvalidRange));
    assert_eq!(roll(0, 0, 3), Err(DiceError::InvalidRange));
    assert_eq!(roll_simple(0), Err(DiceError::InvalidRange));
    assert_eq!(roll_advantage(0), Err(DiceError::InvalidRange));
    assert_eq!(roll_disadvantage(0), Err(DiceError::InvalidRange));
}

#[test]
fn tally_of_fixed_draws_on_d6() {
    let result = tally(2, 6, 3, vec![4, 6]);
    assert_eq!(result.rolls, vec![4, 6]);
    assert_eq!(result.total, 13);
    assert_eq!(result.num_dice, 2);
    assert_eq!(result.sides, 6);
    assert_eq!(result.modifier, 3);
}

#[test]
fn tally_of_a_one_on_d20_with_minus_two() {
    let result = tally(1, 20, -2, vec![1]);
    assert_eq!(result.total, -1);
}

#[test]
fn tally_of_no_draws() {
    let result = tally(0, 6, 7, vec![]);
    assert!(result.rolls.is_empty());
    assert_eq!(result.total, 7);
}

#[test]
fn advantage_and_disadvantage_of_fixed_draws() {
    assert_eq!(pick_advantage(12, 18), 18);
    assert_eq!(pick_disadvantage(12, 18), 12);
    assert_eq!(pick_advantage(18, 12), 18);
    assert_eq!(pick_disadvantage(18, 12), 12);
    assert_eq!(pick_advantage(7, 7), 7);
    assert_eq!(pick_disadvantage(7, 7), 7);
}

#[test]
fn disadvantage_is_advantage_mirrored() {
    let sides = 20u32;
    for a in 1..=sides {
        for b in 1..=sides {
            let mirrored = pick_advantage(sides + 1 - a, sides + 1 - b);
            assert_eq!(pick_disadvantage(a, b), sides + 1 - mirrored);
            assert!(pick_disadvantage(a, b) <= pick_advantage(a, b));
        }
    }
}

#[test]
fn single_die_is_uniform() {
    let trials = 12_000usize;
    let mut counts = [0usize; 6];
    for _ in 0..trials {
        let face = roll_simple(6).unwrap();
        assert!(face >= 1 && face <= 6);
        counts[(face - 1) as usize] += 1;
    }
    let expected = trials as f64 / 6.0;
    let chi_squared: f64 = counts
        .iter()
        .map(|&c| {
            let d = c as f64 - expected;
            d * d / expected
        })
        .sum();
    // Five degrees of freedom: the 99.99th percentile is about 25.7.
    assert!(chi_squared < 25.7, "counts {:?}, chi squared {}", counts, chi_squared);
}

#[test]
fn advantage_skews_high_and_disadvantage_skews_low() {
    let trials = 20_000usize;
    let mut plain = 0u64;
    let mut high = 0u64;
    let mut low = 0u64;
    for _ in 0..trials {
        plain += roll_simple(20).unwrap() as u64;
        high += roll_advantage(20).unwrap() as u64;
        low += roll_disadvantage(20).unwrap() as u64;
    }
    let n = trials as f64;
    let (plain, high, low) = (plain as f64 / n, high as f64 / n, low as f64 / n);
    // Expected means on a d20: 10.5 plain, 13.825 with advantage, 7.175 with disadvantage.
    assert!(high > plain + 2.0, "advantage mean {} vs plain {}", high, plain);
    assert!(low < plain - 2.0, "disadvantage mean {} vs plain {}", low, plain);
}

#[test]
fn render_shows_signed_modifier_and_faces() {
    assert_eq!(tally(2, 6, 3, vec![4, 6]).render(), b"2d6+3: [4, 6] = 13".to_vec());
    assert_eq!(tally(1, 20, -2, vec![1]).render(), b"1d20-2: [1] = -1".to_vec());
    assert_eq!(tally(1, 8, 0, vec![8]).render(), b"1d8+0: [8] = 8".to_vec());
    assert_eq!(tally(0, 6, 7, vec![]).render(), b"0d6+7: [] = 7".to_vec());
    assert_eq!(
        tally(3, 100, -250, vec![100, 57, 9]).render(),
        b"3d100-250: [100, 57, 9] = -84".to_vec()
    );
    assert_eq!(
        tally(0, 4, i32::MIN, vec![]).render(),
        b"0d4-2147483648: [] = -2147483648".to_vec()
    );
}
