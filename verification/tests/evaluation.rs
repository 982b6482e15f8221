use roller::{parse, run, Cast, Dice, Error, Roll};

fn roll(dice: Vec<Dice>, constants: Vec<i32>) -> Roll {
    Roll { dice, constants }
}

#[test]
fn new_roll_is_empty() {
    assert_eq!(Roll::new(), roll(vec![], vec![]));
}

#[test]
fn empty_roll_evaluates_to_zero() {
    for crit in [1, 2, 0, -1, 7, i32::MAX, i32::MIN] {
        assert_eq!(Roll::new().total(&vec![], crit), Ok(0));
        assert_eq!(Roll::new().cast(crit), Ok(Cast { outcomes: vec![], total: 0 }));
    }
    for input in ["", "nothing", "3D4"] {
        assert_eq!(run(input.to_string(), 1), Ok(Cast { outcomes: vec![], total: 0 }));
        assert_eq!(run(input.to_string(), 2), Ok(Cast { outcomes: vec![], total: 0 }));
    }
}

#[test]
fn total_multiplies_dice_only() {
    let r = roll(vec![Dice::D4, Dice::D8], vec![6]);
    assert_eq!(r.total(&vec![3, 4], 1), Ok(13));
    assert_eq!(r.total(&vec![3, 4], 2), Ok(20));
    assert_eq!(r.total(&vec![3, 4], 0), Ok(6));
    assert_eq!(r.total(&vec![3, 4], -1), Ok(-1));
}

#[test]
fn total_is_a_function_of_outcomes_and_multiplier() {
    let r = parse("3d4+2d8+6").unwrap();
    let outcomes = vec![1, 2, 3, 4, 5];
    assert_eq!(r.total(&outcomes, 1), Ok(21));
    assert_eq!(r.total(&outcomes, 1), Ok(21));
    assert_eq!(r.total(&outcomes, 2), Ok(36));
    assert_eq!(r.total(&outcomes, 2), Ok(36));
}

#[test]
fn total_of_constants_only_is_their_sum() {
    let r = roll(vec![], vec![3, 4, 5]);
    assert_eq!(r.total(&vec![], 1), Ok(12));
    assert_eq!(r.cast(1), Ok(Cast { outcomes: vec![], total: 12 }));
    assert_eq!(run("+3".to_string(), 1), Ok(Cast { outcomes: vec![], total: 3 }));
    assert_eq!(run("+30+x+12".to_string(), 1), Ok(Cast { outcomes: vec![], total: 42 }));
}

#[test]
fn total_at_the_limits_of_i32() {
    assert_eq!(roll(vec![], vec![i32::MAX]).total(&vec![], 1), Ok(i32::MAX));
    assert_eq!(roll(vec![], vec![i32::MIN]).total(&vec![], 1), Ok(i32::MIN));
    assert_eq!(roll(vec![], vec![i32::MAX, 1]).total(&vec![], 1), Err(Error::TotalOutOfRange));
    assert_eq!(roll(vec![], vec![i32::MIN, -1]).total(&vec![], 1), Err(Error::TotalOutOfRange));
    assert_eq!(roll(vec![], vec![i32::MAX, 1, -1]).total(&vec![], 1), Ok(i32::MAX));
    assert_eq!(roll(vec![], vec![i32::MAX, i32::MAX, i32::MIN, i32::MIN]).total(&vec![], 1), Ok(-2));
    assert_eq!(roll(vec![], vec![]).total(&vec![i32::MAX], 2), Err(Error::TotalOutOfRange));
    assert_eq!(roll(vec![], vec![i32::MIN]).total(&vec![i32::MAX], 2), Ok(i32::MAX - 1));
    assert_eq!(roll(vec![], vec![]).total(&vec![i32::MIN], i32::MIN), Err(Error::TotalOutOfRange));
    assert_eq!(roll(vec![], vec![i32::MAX]).total(&vec![1], 1), Err(Error::TotalOutOfRange));
}

#[test]
fn cast_out_of_range_is_an_error() {
    assert_eq!(
        roll(vec![Dice::D4], vec![i32::MAX]).cast(1),
        Err(Error::TotalOutOfRange)
    );
    assert_eq!(
        run("1d4+2147483647".to_string(), 2),
        Err(Error::TotalOutOfRange)
    );
}

#[test]
fn draw_gives_one_outcome_for_each_die() {
    let r = roll(vec![Dice::D4, Dice::D100, Dice::D6, Dice::D4], vec![1]);
    for _ in 0..500 {
        let outcomes = r.draw();
        assert_eq!(outcomes.len(), 4);
        for (die, outcome) in r.dice.iter().zip(outcomes.iter()) {
            assert!(1 <= *outcome && *outcome <= die.sides());
        }
    }
    assert_eq!(Roll::new().draw(), Vec::<i32>::new());
}

#[test]
fn cast_totals_what_it_drew() {
    for crit in [1, 2] {
        for _ in 0..200 {
            let r = parse("3d4+2d8+6").unwrap();
            let dice = r.dice.clone();
            let cast = r.cast(crit).unwrap();
            assert_eq!(cast.outcomes.len(), 5);
            for (die, outcome) in dice.iter().zip(cast.outcomes.iter()) {
                assert!(1 <= *outcome && *outcome <= die.sides());
            }
            assert_eq!(cast.total, cast.outcomes.iter().sum::<i32>() * crit + 6);
        }
    }
}

#[test]
fn run_reads_then_casts() {
    for _ in 0..200 {
        let cast = run("2d6+1d20+3+4".to_string(), 2).unwrap();
        assert_eq!(cast.outcomes.len(), 3);
        assert!(1 <= cast.outcomes[0] && cast.outcomes[0] <= 6);
        assert!(1 <= cast.outcomes[1] && cast.outcomes[1] <= 6);
        assert!(1 <= cast.outcomes[2] && cast.outcomes[2] <= 20);
        assert_eq!(cast.total, 2 * (cast.outcomes[0] + cast.outcomes[1] + cast.outcomes[2]) + 3);
        assert!(9 <= cast.total && cast.total <= 67);
    }
}

#[test]
fn run_fails_where_parse_fails() {
    assert_eq!(run("2d7".to_string(), 1), Err(Error::UnrecognizedDieType));
    assert_eq!(run("2d7".to_string(), 2), Err(Error::UnrecognizedDieType));
    assert_eq!(run("99999999999d4".to_string(), 1), Err(Error::NumberParseFailure));
    assert_eq!(run("1d4+99999999999".to_string(), 1), Err(Error::NumberParseFailure));
}
