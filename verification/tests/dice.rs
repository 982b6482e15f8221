use roller::{Dice, Error};

const ALL: [Dice; 7] = [
    Dice::D4,
    Dice::D6,
    Dice::D8,
    Dice::D10,
    Dice::D12,
    Dice::D20,
    Dice::D100,
];

#[test]
fn sides_of_every_die() {
    assert_eq!(Dice::D4.sides(), 4);
    assert_eq!(Dice::D6.sides(), 6);
    assert_eq!(Dice::D8.sides(), 8);
    assert_eq!(Dice::D10.sides(), 10);
    assert_eq!(Dice::D12.sides(), 12);
    assert_eq!(Dice::D20.sides(), 20);
    assert_eq!(Dice::D100.sides(), 100);
}

#[test]
fn from_reads_every_token() {
    assert_eq!(Dice::from("d4"), Ok(Dice::D4));
    assert_eq!(Dice::from("d6"), Ok(Dice::D6));
    assert_eq!(Dice::from("d8"), Ok(Dice::D8));
    assert_eq!(Dice::from("d10"), Ok(Dice::D10));
    assert_eq!(Dice::from("d12"), Ok(Dice::D12));
    assert_eq!(Dice::from("d20"), Ok(Dice::D20));
    assert_eq!(Dice::from("d100"), Ok(Dice::D100));
}

#[test]
fn from_rejects_everything_else() {
    for token in [
        "", "d", "4", "d7", "d1", "d2", "d04", "d40", "d11", "d21", "d30", "d101", "d110",
        "d1000", "D4", "D20", "d4 ", " d4", "dd4", "x10", "x100", "d\u{664}", "d1\u{660}",
        "d10\u{660}", "\u{64}\u{301}4",
    ] {
        assert_eq!(Dice::from(token), Err(Error::UnrecognizedDieType), "token {:?}", token);
    }
}

#[test]
fn roll_stays_in_range_and_reaches_both_ends() {
    for die in ALL {
        let mut lowest = i32::MAX;
        let mut highest = i32::MIN;
        for _ in 0..20000 {
            let outcome = die.roll();
            assert!(1 <= outcome && outcome <= die.sides(), "{:?} gave {}", die, outcome);
            lowest = lowest.min(outcome);
            highest = highest.max(outcome);
        }
        assert_eq!(lowest, 1, "{:?}", die);
        assert_eq!(highest, die.sides(), "{:?}", die);
    }
}

#[test]
fn roll_shows_every_face() {
    for die in ALL {
        let mut seen = vec![false; die.sides() as usize];
        for _ in 0..20000 {
            seen[(die.roll() - 1) as usize] = true;
        }
        assert!(seen.iter().all(|s| *s), "{:?}", die);
    }
}
