//! The supported dice: which there are, how each is written, and what a
//! draw of one may show.

use rand::Rng;
use vstd::prelude::*;
use crate::error::Error;

verus! {

/// A die, named by its number of sides.
#[derive(Clone, Copy, Debug, PartialEq, Eq, Structural)]
pub enum Dice {
    D4,
    D6,
    D8,
    D10,
    D12,
    D20,
    D100,
}

/// Draws one number with `rand::Rng::gen_range` from the thread-local
/// generator that `rand::thread_rng` hands out.
///
/// Trusted: the number drawn is at least `low` and less than `high`. Which
/// number it is depends on the generator's state, so nothing else is claimed
/// of it. `gen_range` panics when `low >= high`, which `requires` rules out;
/// `thread_rng` panics if the operating system cannot seed the generator,
/// which no argument can rule out.
#[verifier::external_body]
fn draw_between(low: i32, high: i32) -> (r: i32)
    requires
        low < high,
    ensures
        low <= r < high,
{
    rand::thread_rng().gen_range(low, high)
}

impl Dice {
    /// The number of sides: a draw shows a number from 1 to this one.
    pub open spec fn spec_sides(self) -> i32 {
        match self {
            Dice::D4 => 4,
            Dice::D6 => 6,
            Dice::D8 => 8,
            Dice::D10 => 10,
            Dice::D12 => 12,
            Dice::D20 => 20,
            Dice::D100 => 100,
        }
    }

    /// The die that `token` names. A token is a `d` followed by the number of
    /// sides, written without leading zeros.
    pub open spec fn of_token(token: Seq<char>) -> Option<Dice> {
        if token == seq!['d', '4'] {
            Some(Dice::D4)
        } else if token == seq!['d', '6'] {
            Some(Dice::D6)
        } else if token == seq!['d', '8'] {
            Some(Dice::D8)
        } else if token == seq!['d', '1', '0'] {
            Some(Dice::D10)
        } else if token == seq!['d', '1', '2'] {
            Some(Dice::D12)
        } else if token == seq!['d', '2', '0'] {
            Some(Dice::D20)
        } else if token == seq!['d', '1', '0', '0'] {
            Some(Dice::D100)
        } else {
            None
        }
    }

    /// The number of sides.
    #[verifier::when_used_as_spec(spec_sides)]
    pub fn sides(self) -> (n: i32)
        ensures
            n == self.spec_sides(),
    {
        match self {
            Dice::D4 => 4,
            Dice::D6 => 6,
            Dice::D8 => 8,
            Dice::D10 => 10,
            Dice::D12 => 12,
            Dice::D20 => 20,
            Dice::D100 => 100,
        }
    }

    /// Reads a die type token such as `d20`.
    pub fn from(token: &str) -> (r: Result<Dice, Error>)
        ensures
            r == (match Dice::of_token(token@) {
                Some(die) => Ok::<Dice, Error>(die),
                None => Err::<Dice, Error>(Error::UnrecognizedDieType),
            }),
    {
        let len: usize = token.unicode_len();
        if len < 2 || len > 4 || token.get_char(0) != 'd' {
            return Err(Error::UnrecognizedDieType);
        }
        let first: char = token.get_char(1);
        if len == 2 {
            if first == '4' {
                assert(token@ =~= seq!['d', '4']);
                Ok(Dice::D4)
            } else if first == '6' {
                assert(token@ =~= seq!['d', '6']);
                Ok(Dice::D6)
            } else if first == '8' {
                assert(token@ =~= seq!['d', '8']);
                Ok(Dice::D8)
            } else {
                Err(Error::UnrecognizedDieType)
            }
        } else {
            let second: char = token.get_char(2);
            if len == 3 {
                if first == '1' && second == '0' {
                    assert(token@ =~= seq!['d', '1', '0']);
                    Ok(Dice::D10)
                } else if first == '1' && second == '2' {
                    assert(token@ =~= seq!['d', '1', '2']);
                    Ok(Dice::D12)
                } else if first == '2' && second == '0' {
                    assert(token@ =~= seq!['d', '2', '0']);
                    Ok(Dice::D20)
                } else {
                    Err(Error::UnrecognizedDieType)
                }
            } else if first == '1' && second == '0' && token.get_char(3) == '0' {
                assert(token@ =~= seq!['d', '1', '0', '0']);
                Ok(Dice::D100)
            } else {
                Err(Error::UnrecognizedDieType)
            }
        }
    }

    /// Casts the die once.
    pub fn roll(self) -> (outcome: i32)
        ensures
            1 <= outcome <= self.sides(),
    {
        draw_between(1, self.sides() + 1)
    }
}

} // verus!
