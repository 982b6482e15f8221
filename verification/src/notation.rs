//! Reading dice notation: from the groups that the two scans find to a
//! [`Roll`], and from a text to its total.

use vstd::prelude::*;
use crate::dice::Dice;
use crate::error::Error;
use crate::matcher::{
    constant_texts, constant_texts_in, dice_groups, dice_groups_in, DiceGroup, DiceGroupView,
};
use crate::number::{lemma_number_of_nonnegative, number_of, parse_number};
use crate::roll::{is_cast_of, lemma_empty_roll_is_zero, Cast, Roll, RollView};

verus! {

/// The dice that one group stands for: as many of its die as its count says.
/// The count is read first, then the die type.
pub open spec fn group_dice(group: DiceGroupView) -> Result<Seq<Dice>, Error> {
    match number_of(group.count) {
        None => Err(Error::NumberParseFailure),
        Some(count) => match Dice::of_token(group.dtype) {
            None => Err(Error::UnrecognizedDieType),
            Some(die) => Ok(Seq::new(count as nat, |i: int| die)),
        },
    }
}

/// The dice that `groups` stand for, group after group; the error of the
/// first group that has one.
pub open spec fn dice_of(groups: Seq<DiceGroupView>) -> Result<Seq<Dice>, Error>
    decreases groups.len(),
{
    if groups.len() == 0 {
        Ok(Seq::empty())
    } else {
        match dice_of(groups.drop_last()) {
            Err(e) => Err(e),
            Ok(before) => match group_dice(groups.last()) {
                Err(e) => Err(e),
                Ok(dice) => Ok(before + dice),
            },
        }
    }
}

/// The constants that `texts` denote, one for each text.
pub open spec fn constants_of(texts: Seq<Seq<char>>) -> Result<Seq<i32>, Error> {
    if forall|i: int| 0 <= i < texts.len() ==> number_of(#[trigger] texts[i]) is Some {
        Ok(Seq::new(texts.len(), |i: int| number_of(texts[i]).unwrap()))
    } else {
        Err(Error::NumberParseFailure)
    }
}

/// The roll that dice groups and constants stand for. The dice groups are
/// read before the constants, so an error among them comes first.
pub open spec fn roll_of(groups: Seq<DiceGroupView>, texts: Seq<Seq<char>>) -> Result<
    RollView,
    Error,
> {
    match dice_of(groups) {
        Err(e) => Err(e),
        Ok(dice) => match constants_of(texts) {
            Err(e) => Err(e),
            Ok(constants) => Ok(RollView { dice, constants }),
        },
    }
}

/// The roll that `input` denotes. Both scans are made before anything is
/// read, so a failure of a matcher comes before any other error.
pub open spec fn roll_in(input: Seq<char>) -> Result<RollView, Error> {
    match dice_groups_in(input) {
        Err(e) => Err(e),
        Ok(groups) => match constant_texts_in(input) {
            Err(e) => Err(e),
            Ok(texts) => roll_of(groups, texts),
        },
    }
}

/// The number of dice that a group asks for.
pub open spec fn count_of(group: DiceGroupView) -> nat {
    match number_of(group.count) {
        Some(count) => count as nat,
        None => 0,
    }
}

/// The number of dice that `groups` ask for: the sum of their counts.
pub open spec fn dice_count(groups: Seq<DiceGroupView>) -> nat
    decreases groups.len(),
{
    if groups.len() == 0 {
        0
    } else {
        dice_count(groups.drop_last()) + count_of(groups.last())
    }
}

/// Once a group has failed, the groups after it do not matter.
proof fn lemma_dice_error_stays(groups: Seq<DiceGroupView>, k: int)
    requires
        0 <= k <= groups.len(),
        dice_of(groups.take(k)) is Err,
    ensures
        dice_of(groups) == dice_of(groups.take(k)),
    decreases groups.len() - k,
{
    if k < groups.len() {
        assert(groups.take(k + 1).drop_last() =~= groups.take(k));
        lemma_dice_error_stays(groups, k + 1);
    } else {
        assert(groups.take(k) =~= groups);
    }
}

/// Groups can be read if and only if each of them can.
pub proof fn lemma_dice_of_is_ok(groups: Seq<DiceGroupView>)
    ensures
        dice_of(groups) is Ok <==> forall|k: int|
            0 <= k < groups.len() ==> group_dice(#[trigger] groups[k]) is Ok,
    decreases groups.len(),
{
    if groups.len() > 0 {
        let before = groups.drop_last();
        lemma_dice_of_is_ok(before);
        if dice_of(groups) is Ok {
            assert forall|k: int| 0 <= k < groups.len() implies group_dice(
                #[trigger] groups[k],
            ) is Ok by {
                if k < before.len() {
                    assert(groups[k] == before[k]);
                }
            }
        } else if dice_of(before) is Err {
            let k = choose|k: int| 0 <= k < before.len() && group_dice(#[trigger] before[k]) is Err;
            assert(groups[k] == before[k]);
        }
    }
}

/// Every group gives exactly as many dice as its count says, all of its own
/// die type, and the groups' dice stand in the order of the groups: entry `j`
/// of group `k` comes after all the dice of the groups before `k`.
pub proof fn lemma_dice_follow_groups(groups: Seq<DiceGroupView>, k: int, j: int)
    requires
        dice_of(groups) is Ok,
        0 <= k < groups.len(),
        0 <= j < count_of(groups[k]),
    ensures
        dice_of(groups).unwrap().len() == dice_count(groups),
        dice_count(groups.take(k)) + j < dice_count(groups),
        Dice::of_token(groups[k].dtype) == Some(
            dice_of(groups).unwrap()[dice_count(groups.take(k)) + j],
        ),
    decreases groups.len(),
{
    let before = groups.drop_last();
    lemma_dice_count(groups);
    lemma_dice_count(before);
    lemma_number_of_nonnegative(groups.last().count);
    if k < before.len() {
        assert(groups.take(k) =~= before.take(k));
        lemma_dice_follow_groups(before, k, j);
    }
}

/// Groups that can be read give as many dice as their counts add up to.
pub proof fn lemma_dice_count(groups: Seq<DiceGroupView>)
    requires
        dice_of(groups) is Ok,
    ensures
        dice_of(groups).unwrap().len() == dice_count(groups),
    decreases groups.len(),
{
    if groups.len() > 0 {
        lemma_dice_count(groups.drop_last());
        lemma_number_of_nonnegative(groups.last().count);
    }
}

/// A text in which neither scan finds anything denotes the empty roll, and
/// running it gives the total 0 whatever the multiplier.
pub proof fn lemma_nothing_found(input: Seq<char>, crit: int, r: Result<Cast, Error>)
    ensures
        dice_groups_in(input) == Ok::<Seq<DiceGroupView>, Error>(Seq::empty())
            && constant_texts_in(input) == Ok::<Seq<Seq<char>>, Error>(Seq::empty())
            ==> roll_in(input) == Ok::<RollView, Error>(RollView::empty()),
        is_cast_of(RollView::empty(), crit, r) ==> (r matches Ok(cast) && cast.outcomes@.len() == 0
            && cast.total == 0),
{
    assert(constants_of(Seq::empty()) == Ok::<Seq<i32>, Error>(Seq::empty())) by {
        assert(Seq::new(0, |i: int| number_of(Seq::<Seq<char>>::empty()[i]).unwrap())
            =~= Seq::<i32>::empty());
    }
    if is_cast_of(RollView::empty(), crit, r) {
        lemma_empty_roll_is_zero(crit, r);
    }
}

/// Groups of which one names an unsupported die cannot be read. The error
/// is that of the unsupported die unless a count is malformed in that group
/// or in one before it, which is found first.
pub proof fn lemma_unsupported_die_fails(groups: Seq<DiceGroupView>, texts: Seq<Seq<char>>, k: int)
    requires
        0 <= k < groups.len(),
        Dice::of_token(groups[k].dtype) is None,
    ensures
        roll_of(groups, texts) is Err,
        (forall|i: int| 0 <= i <= k ==> number_of(#[trigger] groups[i].count) is Some)
            ==> roll_of(groups, texts) == Err::<RollView, Error>(Error::UnrecognizedDieType),
{
    lemma_first_error(groups, k);
}

/// A text of which one dice group names an unsupported die cannot be read.
/// The error is that of the unsupported die unless a matcher fails or a
/// count is malformed in that group or in one before it.
pub proof fn lemma_unsupported_die_fails_in(input: Seq<char>, k: int)
    ensures
        ({
            let groups = dice_groups_in(input).unwrap();
            dice_groups_in(input) is Ok && 0 <= k < groups.len() && Dice::of_token(
                groups[k].dtype,
            ) is None ==> {
                &&& roll_in(input) is Err
                &&& constant_texts_in(input) is Ok && (forall|i: int|
                    0 <= i <= k ==> number_of(#[trigger] groups[i].count) is Some) ==> roll_in(
                    input,
                ) == Err::<RollView, Error>(Error::UnrecognizedDieType)
            }
        }),
{
    if let Ok(groups) = dice_groups_in(input) {
        if 0 <= k < groups.len() && Dice::of_token(groups[k].dtype) is None {
            if let Ok(texts) = constant_texts_in(input) {
                lemma_unsupported_die_fails(groups, texts, k);
            }
        }
    }
}

/// If group `k` cannot be read, reading fails with the error of the first
/// group that cannot be read: a malformed count before an unsupported die.
proof fn lemma_first_error(groups: Seq<DiceGroupView>, k: int)
    requires
        0 <= k < groups.len(),
        group_dice(groups[k]) is Err,
    ensures
        dice_of(groups) is Err,
        (forall|i: int| 0 <= i < k ==> number_of(#[trigger] groups[i].count) is Some)
            && group_dice(groups[k]) == Err::<Seq<Dice>, Error>(Error::UnrecognizedDieType)
            ==> dice_of(groups) == Err::<Seq<Dice>, Error>(Error::UnrecognizedDieType),
    decreases groups.len(),
{
    let before = groups.drop_last();
    if k < before.len() {
        lemma_first_error(before, k);
    } else if dice_of(before) is Err {
        lemma_dice_of_is_ok(before);
        let i = choose|i: int| 0 <= i < before.len() && group_dice(#[trigger] before[i]) is Err;
        lemma_first_error(before, i);
        assert forall|m: int| 0 <= m < i && number_of(groups[m].count) is Some implies number_of(
            #[trigger] before[m].count,
        ) is Some by {
            assert(groups[m] == before[m]);
        }
    }
}

/// Appends `count` entries of `die` to `dice`.
fn push_dice(dice: &mut Vec<Dice>, die: Dice, count: i32)
    requires
        count >= 0,
    ensures
        final(dice)@ == old(dice)@ + Seq::new(count as nat, |i: int| die),
{
    let mut n: i32 = 0;
    while n < count
        invariant
            0 <= n <= count,
            dice@ == old(dice)@ + Seq::new(n as nat, |i: int| die),
        decreases count - n,
    {
        dice.push(die);
        n += 1;
    }
}

/// Reads dice groups and constants into a roll.
pub fn roll_from_groups(groups: &Vec<DiceGroup>, texts: &Vec<String>) -> (r: Result<Roll, Error>)
    ensures
        r is Ok <==> roll_of(groups.deep_view(), texts.deep_view()) is Ok,
        r matches Ok(roll) ==> roll_of(groups.deep_view(), texts.deep_view()) == Ok::<
            RollView,
            Error,
        >(roll@),
        r matches Err(e) ==> roll_of(groups.deep_view(), texts.deep_view()) == Err::<
            RollView,
            Error,
        >(e),
{
    let ghost group_views = groups.deep_view();
    let ghost text_views = texts.deep_view();
    let mut roll = Roll::new();
    let mut i: usize = 0;
    while i < groups.len()
        invariant
            group_views == groups.deep_view(),
            0 <= i <= groups.len(),
            dice_of(group_views.take(i as int)) == Ok::<Seq<Dice>, Error>(roll.dice@),
            roll.constants@ == Seq::<i32>::empty(),
        decreases groups.len() - i,
    {
        proof {
            assert(group_views.take(i + 1).drop_last() =~= group_views.take(i as int));
        }
        let count: i32 = match parse_number(groups[i].count.as_str()) {
            Ok(count) => count,
            Err(e) => {
                proof {
                    lemma_dice_error_stays(group_views, i + 1);
                }
                return Err(e);
            },
        };
        let die: Dice = match Dice::from(groups[i].dtype.as_str()) {
            Ok(die) => die,
            Err(e) => {
                proof {
                    lemma_dice_error_stays(group_views, i + 1);
                }
                return Err(e);
            },
        };
        push_dice(&mut roll.dice, die, count);
        i += 1;
    }
    assert(group_views.take(groups.len() as int) =~= group_views);
    let mut k: usize = 0;
    while k < texts.len()
        invariant
            group_views == groups.deep_view(),
            text_views == texts.deep_view(),
            0 <= k <= texts.len(),
            dice_of(group_views) == Ok::<Seq<Dice>, Error>(roll.dice@),
            roll.constants.len() == k,
            forall|j: int|
                0 <= j < k ==> number_of(#[trigger] text_views[j]) == Some(roll.constants@[j]),
        decreases texts.len() - k,
    {
        assert(text_views[k as int] == texts@[k as int]@);
        match parse_number(texts[k].as_str()) {
            Ok(constant) => {
                roll.constants.push(constant);
            },
            Err(e) => {
                return Err(e);
            },
        }
        k += 1;
    }
    assert(roll.constants@ =~= Seq::new(
        text_views.len(),
        |i: int| number_of(text_views[i]).unwrap(),
    ));
    Ok(roll)
}

/// Reads dice notation.
pub fn parse(input: &str) -> (r: Result<Roll, Error>)
    ensures
        r is Ok <==> roll_in(input@) is Ok,
        r matches Ok(roll) ==> roll_in(input@) == Ok::<RollView, Error>(roll@),
        r matches Err(e) ==> roll_in(input@) == Err::<RollView, Error>(e),
{
    let groups = match dice_groups(input) {
        Ok(groups) => groups,
        Err(e) => {
            return Err(e);
        },
    };
    let texts = match constant_texts(input) {
        Ok(texts) => texts,
        Err(e) => {
            return Err(e);
        },
    };
    roll_from_groups(&groups, &texts)
}

/// Reads dice notation, casts the dice and totals the roll.
///
/// Where `input` cannot be read, the error of reading it is returned and
/// nothing is drawn. Otherwise the result is one that casting the roll can
/// have.
pub fn run(input: String, crit: i32) -> (r: Result<Cast, Error>)
    ensures
        (match roll_in(input@) {
            Ok(roll) => is_cast_of(roll, crit as int, r),
            Err(e) => r == Err::<Cast, Error>(e),
        }),
{
    match parse(input.as_str()) {
        Ok(roll) => roll.cast(crit),
        Err(e) => Err(e),
    }
}

} // verus!
