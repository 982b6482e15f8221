//! A roll: the dice to cast and the constants to add, and its evaluation.

use vstd::prelude::*;
use crate::dice::Dice;
use crate::error::Error;

verus! {

/// What a piece of dice notation asks for.
#[derive(Clone, Debug, PartialEq)]
pub struct Roll {
    /// One entry for every single die, in the order of the notation.
    pub dice: Vec<Dice>,
    /// The constants, in the order of the notation.
    pub constants: Vec<i32>,
}

/// The mathematical content of a [`Roll`].
pub ghost struct RollView {
    pub dice: Seq<Dice>,
    pub constants: Seq<i32>,
}

impl RollView {
    /// The roll without dice and without constants.
    pub open spec fn empty() -> RollView {
        RollView { dice: Seq::empty(), constants: Seq::empty() }
    }
}

impl View for Roll {
    type V = RollView;

    open spec fn view(&self) -> RollView {
        RollView { dice: self.dice@, constants: self.constants@ }
    }
}

/// What casting a roll gave: what each die showed, in the order of the dice,
/// and the total.
#[derive(Clone, Debug, PartialEq, Eq)]
pub struct Cast {
    pub outcomes: Vec<i32>,
    pub total: i32,
}

/// The sum of `values`.
pub open spec fn sum_of(values: Seq<i32>) -> int
    decreases values.len(),
{
    if values.len() == 0 {
        0
    } else {
        sum_of(values.drop_last()) + values.last()
    }
}

/// The total of a cast: the critical multiplier applies to what the dice
/// showed and not to the constants.
pub open spec fn total_of(outcomes: Seq<i32>, constants: Seq<i32>, crit: int) -> int {
    sum_of(outcomes) * crit + sum_of(constants)
}

/// Whether `outcomes` is something that `dice` can show: one number for each
/// die, from 1 to the number of its sides.
pub open spec fn may_show(dice: Seq<Dice>, outcomes: Seq<i32>) -> bool {
    &&& outcomes.len() == dice.len()
    &&& forall|i: int| 0 <= i < dice.len() ==> 1 <= #[trigger] outcomes[i] <= dice[i].sides()
}

/// The most that `dice` can show together: the sum of their sides.
pub open spec fn most_of(dice: Seq<Dice>) -> int
    decreases dice.len(),
{
    if dice.len() == 0 {
        0
    } else {
        most_of(dice.drop_last()) + dice.last().sides()
    }
}

/// Whether `n` can be held in an `i32`.
pub open spec fn fits_i32(n: int) -> bool {
    i32::MIN <= n <= i32::MAX
}

/// Whether `r` is a possible result of casting `roll` with the multiplier
/// `crit`: either outcomes that the dice can show, with their total, or the
/// report that some outcomes that the dice can show have a total that no
/// `i32` holds.
pub open spec fn is_cast_of(roll: RollView, crit: int, r: Result<Cast, Error>) -> bool {
    match r {
        Ok(cast) => {
            &&& may_show(roll.dice, cast.outcomes@)
            &&& cast.total == total_of(cast.outcomes@, roll.constants, crit)
        },
        Err(e) => {
            &&& e == Error::TotalOutOfRange
            &&& exists|outcomes: Seq<i32>|
                may_show(roll.dice, outcomes) && !fits_i32(
                    total_of(outcomes, roll.constants, crit),
                )
        },
    }
}

/// Without dice nothing is multiplied: the total is the sum of the
/// constants, whatever the multiplier.
pub proof fn lemma_constants_only_total(constants: Seq<i32>, crit: int, outcomes: Seq<i32>)
    requires
        may_show(Seq::<Dice>::empty(), outcomes),
    ensures
        total_of(outcomes, constants, crit) == sum_of(constants),
{
    assert(sum_of(outcomes) == 0);
}

/// A roll without dice has one possible cast: no outcomes, and the sum of
/// the constants as the total, which is an error exactly when no `i32` holds
/// it.
pub proof fn lemma_constants_only_cast(roll: RollView, crit: int, r: Result<Cast, Error>)
    requires
        roll.dice.len() == 0,
        is_cast_of(roll, crit, r),
    ensures
        r is Ok <==> fits_i32(sum_of(roll.constants)),
        r matches Ok(cast) ==> cast.outcomes@.len() == 0 && cast.total == sum_of(roll.constants),
{
    match r {
        Ok(cast) => {
            lemma_constants_only_total(roll.constants, crit, cast.outcomes@);
        },
        Err(_) => {
            let outcomes = choose|outcomes: Seq<i32>|
                may_show(roll.dice, outcomes) && !fits_i32(
                    total_of(outcomes, roll.constants, crit),
                );
            lemma_constants_only_total(roll.constants, crit, outcomes);
        },
    }
}

/// The empty roll has one possible cast, whatever the multiplier: no
/// outcomes and the total 0.
pub proof fn lemma_empty_roll_is_zero(crit: int, r: Result<Cast, Error>)
    requires
        is_cast_of(RollView::empty(), crit, r),
    ensures
        r matches Ok(cast) && cast.outcomes@.len() == 0 && cast.total == 0,
{
    lemma_constants_only_cast(RollView::empty(), crit, r);
}

/// What dice show adds up to no less than their number and to no more than
/// the sum of their sides.
pub proof fn lemma_outcomes_bounds(dice: Seq<Dice>, outcomes: Seq<i32>)
    requires
        may_show(dice, outcomes),
    ensures
        dice.len() <= sum_of(outcomes) <= most_of(dice),
    decreases dice.len(),
{
    if dice.len() > 0 {
        lemma_outcomes_bounds(dice.drop_last(), outcomes.drop_last());
    }
}

/// With a multiplier that is not negative, a cast is sure to succeed where
/// the least and the most that the roll can come to fit in an `i32`, and its
/// total lies between the two.
pub proof fn lemma_cast_bounds(roll: RollView, crit: int, r: Result<Cast, Error>)
    requires
        is_cast_of(roll, crit, r),
        crit >= 0,
        fits_i32(roll.dice.len() * crit + sum_of(roll.constants)),
        fits_i32(most_of(roll.dice) * crit + sum_of(roll.constants)),
    ensures
        r matches Ok(cast) && roll.dice.len() * crit + sum_of(roll.constants) <= cast.total
            <= most_of(roll.dice) * crit + sum_of(roll.constants),
{
    let outcomes = match r {
        Ok(cast) => cast.outcomes@,
        Err(_) => choose|outcomes: Seq<i32>|
            may_show(roll.dice, outcomes) && !fits_i32(total_of(outcomes, roll.constants, crit)),
    };
    lemma_outcomes_bounds(roll.dice, outcomes);
    assert(roll.dice.len() * crit <= sum_of(outcomes) * crit <= most_of(roll.dice) * crit)
        by (nonlinear_arith)
        requires
            roll.dice.len() <= sum_of(outcomes) <= most_of(roll.dice),
            crit >= 0,
    ;
}

/// The sum of `values`, which always fits in 96 bits.
fn sum(values: &Vec<i32>) -> (s: i128)
    ensures
        s == sum_of(values@),
        -0x8000_0000 * values.len() <= s <= 0x8000_0000 * values.len(),
{
    let mut s: i128 = 0;
    let mut i: usize = 0;
    while i < values.len()
        invariant
            0 <= i <= values.len(),
            s == sum_of(values@.take(i as int)),
            -0x8000_0000 * i <= s <= 0x8000_0000 * i,
        decreases values.len() - i,
    {
        assert(values@.take(i + 1).drop_last() =~= values@.take(i as int));
        s = s + values[i] as i128;
        i += 1;
    }
    assert(values@.take(values.len() as int) =~= values@);
    s
}

impl Roll {
    /// A roll without dice and without constants.
    pub fn new() -> (roll: Roll)
        ensures
            roll@ == RollView::empty(),
    {
        Roll { dice: Vec::new(), constants: Vec::new() }
    }

    /// Casts every die once, in order.
    pub fn draw(&self) -> (outcomes: Vec<i32>)
        ensures
            may_show(self@.dice, outcomes@),
    {
        let mut outcomes: Vec<i32> = Vec::new();
        let mut i: usize = 0;
        while i < self.dice.len()
            invariant
                0 <= i <= self.dice.len(),
                may_show(self.dice@.take(i as int), outcomes@),
            decreases self.dice.len() - i,
        {
            let outcome: i32 = self.dice[i].roll();
            outcomes.push(outcome);
            i += 1;
        }
        outcomes
    }

    /// The total of this roll's constants and of `outcomes`, the latter
    /// multiplied by `crit`.
    pub fn total(&self, outcomes: &Vec<i32>, crit: i32) -> (r: Result<i32, Error>)
        ensures
            r == (if fits_i32(total_of(outcomes@, self@.constants, crit as int)) {
                Ok::<i32, Error>(total_of(outcomes@, self@.constants, crit as int) as i32)
            } else {
                Err::<i32, Error>(Error::TotalOutOfRange)
            }),
    {
        let shown: i128 = sum(outcomes);
        let added: i128 = sum(&self.constants);
        assert(-0x8000_0000 * 0x1_0000_0000_0000_0000 * 0x8000_0000 <= shown * crit
            <= 0x8000_0000 * 0x1_0000_0000_0000_0000 * 0x8000_0000) by (nonlinear_arith)
            requires
                -0x8000_0000 * 0x1_0000_0000_0000_0000 <= shown <= 0x8000_0000
                    * 0x1_0000_0000_0000_0000,
                -0x8000_0000 <= crit <= 0x8000_0000,
        ;
        let total: i128 = shown * (crit as i128) + added;
        if total < i32::MIN as i128 || total > i32::MAX as i128 {
            Err(Error::TotalOutOfRange)
        } else {
            Ok(total as i32)
        }
    }

    /// Casts the dice and totals what they show.
    ///
    /// The result depends on the draws. It is an error only where the dice
    /// can show outcomes whose total no `i32` holds.
    pub fn cast(self, crit: i32) -> (r: Result<Cast, Error>)
        ensures
            is_cast_of(self@, crit as int, r),
    {
        let outcomes: Vec<i32> = self.draw();
        match self.total(&outcomes, crit) {
            Ok(total) => Ok(Cast { outcomes, total }),
            Err(e) => Err(e),
        }
    }
}

} // verus!
