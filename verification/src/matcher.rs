//! The two patterns of dice notation and what they find in a text.
//!
//! A text is scanned twice, once for dice groups and once for constants. The
//! scans are independent: neither looks at what the other has found.

use vstd::prelude::*;
use crate::error::Error;

verus! {

/// A dice group: a run of digits, a `d`, a run of digits and optionally a `+`.
/// Group 1 is the count, group 2 the die type with its `d`.
pub const DICE_PATTERN: &'static str = r"(?x)(?P<count>\d+)(?P<dtype>d\d+)\+?";

/// A constant: a `+`, a run of digits, and then a `+` or the end of the text.
/// Group 1 is the run of digits.
pub const CONSTANT_PATTERN: &'static str = r"\+(?P<const>\d+)(\+|$)";

/// What the `regex` crate finds when it searches `haystack` for `pattern`:
/// `None` if it does not accept the pattern; otherwise the successive
/// non-overlapping matches from left to right, each as the text of its groups
/// in the order in which they open, group 0 being the whole match and `None`
/// standing for a group that took no part in the match.
pub uninterp spec fn regex_captures(pattern: Seq<char>, haystack: Seq<char>) -> Option<
    Seq<Seq<Option<Seq<char>>>>,
>;

/// Compiles `pattern` with `regex::Regex::new` and walks
/// `Regex::captures_iter` over `haystack`, copying out of every `Captures`
/// the text (`Match::as_str`) of each group that `Captures::iter` yields.
///
/// Trusted: the result is the one that `regex_captures` names, `None`
/// exactly when the crate rejects the pattern. Nothing is claimed about how
/// many matches there are or what they hold.
#[verifier::external_body]
fn find_captures(pattern: &str, haystack: &str) -> (r: Option<Vec<Vec<Option<String>>>>)
    ensures
        r.deep_view() == regex_captures(pattern@, haystack@),
{
    let matcher = regex::Regex::new(pattern).ok()?;
    let mut found = Vec::new();
    for captures in matcher.captures_iter(haystack) {
        let mut groups = Vec::new();
        for group in captures.iter() {
            groups.push(group.map(|m| m.as_str().to_string()));
        }
        found.push(groups);
    }
    Some(found)
}

/// The count and the die type of one dice group, as written.
#[derive(Clone, Debug, PartialEq, Eq)]
pub struct DiceGroup {
    pub count: String,
    pub dtype: String,
}

/// The mathematical content of a [`DiceGroup`].
pub ghost struct DiceGroupView {
    pub count: Seq<char>,
    pub dtype: Seq<char>,
}

impl View for DiceGroup {
    type V = DiceGroupView;

    open spec fn view(&self) -> DiceGroupView {
        DiceGroupView { count: self.count@, dtype: self.dtype@ }
    }
}

impl DeepView for DiceGroup {
    type V = DiceGroupView;

    open spec fn deep_view(&self) -> DiceGroupView {
        self@
    }
}

/// The text of group `index` of a match, if the match has such a group and
/// the group took part.
pub open spec fn group_text(found: Seq<Option<Seq<char>>>, index: int) -> Option<Seq<char>> {
    if 0 <= index < found.len() {
        found[index]
    } else {
        None
    }
}

/// The dice group that a match of the dice pattern stands for.
pub open spec fn dice_group_of(found: Seq<Option<Seq<char>>>) -> Option<DiceGroupView> {
    match (group_text(found, 1), group_text(found, 2)) {
        (Some(count), Some(dtype)) => Some(DiceGroupView { count, dtype }),
        _ => None,
    }
}

/// The dice groups that the matches of the dice pattern stand for, in the
/// order of the matches.
pub open spec fn dice_groups_of(found: Seq<Seq<Option<Seq<char>>>>) -> Result<
    Seq<DiceGroupView>,
    Error,
> {
    if forall|i: int| 0 <= i < found.len() ==> dice_group_of(#[trigger] found[i]) is Some {
        Ok(Seq::new(found.len(), |i: int| dice_group_of(found[i]).unwrap()))
    } else {
        Err(Error::MatcherFailure)
    }
}

/// The digits of the constants that the matches of the constant pattern stand
/// for, in the order of the matches.
pub open spec fn constant_texts_of(found: Seq<Seq<Option<Seq<char>>>>) -> Result<
    Seq<Seq<char>>,
    Error,
> {
    if forall|i: int| 0 <= i < found.len() ==> group_text(#[trigger] found[i], 1) is Some {
        Ok(Seq::new(found.len(), |i: int| group_text(found[i], 1).unwrap()))
    } else {
        Err(Error::MatcherFailure)
    }
}

/// The dice groups of `input`, from left to right.
pub open spec fn dice_groups_in(input: Seq<char>) -> Result<Seq<DiceGroupView>, Error> {
    match regex_captures(DICE_PATTERN@, input) {
        Some(found) => dice_groups_of(found),
        None => Err(Error::MatcherFailure),
    }
}

/// The digits of the constants of `input`, from left to right.
pub open spec fn constant_texts_in(input: Seq<char>) -> Result<Seq<Seq<char>>, Error> {
    match regex_captures(CONSTANT_PATTERN@, input) {
        Some(found) => constant_texts_of(found),
        None => Err(Error::MatcherFailure),
    }
}

/// A copy of the text of group `index` of a match.
fn group(found: &Vec<Option<String>>, index: usize) -> (r: Option<String>)
    ensures
        r.deep_view() == group_text(found.deep_view(), index as int),
{
    if index < found.len() {
        match &found[index] {
            Some(text) => Some(text.clone()),
            None => None,
        }
    } else {
        None
    }
}

/// Reads the matches of the dice pattern as dice groups.
pub fn select_dice_groups(found: &Vec<Vec<Option<String>>>) -> (r: Result<Vec<DiceGroup>, Error>)
    ensures
        r is Ok <==> dice_groups_of(found.deep_view()) is Ok,
        r matches Ok(groups) ==> dice_groups_of(found.deep_view()) == Ok::<
            Seq<DiceGroupView>,
            Error,
        >(groups.deep_view()),
        r matches Err(e) ==> e == Error::MatcherFailure,
{
    let mut groups: Vec<DiceGroup> = Vec::new();
    let mut i: usize = 0;
    while i < found.len()
        invariant
            0 <= i <= found.len(),
            groups.len() == i,
            forall|j: int| 0 <= j < i ==> dice_group_of(#[trigger] found.deep_view()[j]) == Some(groups@[j]@),
        decreases found.len() - i,
    {
        let count = group(&found[i], 1);
        let dtype = group(&found[i], 2);
        match (count, dtype) {
            (Some(count), Some(dtype)) => {
                groups.push(DiceGroup { count, dtype });
            },
            _ => {
                assert(dice_group_of(found.deep_view()[i as int]) is None);
                return Err(Error::MatcherFailure);
            },
        }
        i += 1;
    }
    assert(groups.deep_view() =~= Seq::new(
        found.deep_view().len(),
        |i: int| dice_group_of(found.deep_view()[i]).unwrap(),
    ));
    Ok(groups)
}

/// Reads the matches of the constant pattern as runs of digits.
pub fn select_constant_texts(found: &Vec<Vec<Option<String>>>) -> (r: Result<Vec<String>, Error>)
    ensures
        r is Ok <==> constant_texts_of(found.deep_view()) is Ok,
        r matches Ok(texts) ==> constant_texts_of(found.deep_view()) == Ok::<
            Seq<Seq<char>>,
            Error,
        >(texts.deep_view()),
        r matches Err(e) ==> e == Error::MatcherFailure,
{
    let mut texts: Vec<String> = Vec::new();
    let mut i: usize = 0;
    while i < found.len()
        invariant
            0 <= i <= found.len(),
            texts.len() == i,
            forall|j: int| 0 <= j < i ==> group_text(#[trigger] found.deep_view()[j], 1) == Some(texts@[j]@),
        decreases found.len() - i,
    {
        match group(&found[i], 1) {
            Some(text) => {
                texts.push(text);
            },
            None => {
                assert(group_text(found.deep_view()[i as int], 1) is None);
                return Err(Error::MatcherFailure);
            },
        }
        i += 1;
    }
    assert(texts.deep_view() =~= Seq::new(
        found.deep_view().len(),
        |i: int| group_text(found.deep_view()[i], 1).unwrap(),
    ));
    Ok(texts)
}

/// Scans `input` for dice groups.
pub fn dice_groups(input: &str) -> (r: Result<Vec<DiceGroup>, Error>)
    ensures
        r is Ok <==> dice_groups_in(input@) is Ok,
        r matches Ok(groups) ==> dice_groups_in(input@) == Ok::<Seq<DiceGroupView>, Error>(
            groups.deep_view(),
        ),
        r matches Err(e) ==> dice_groups_in(input@) == Err::<Seq<DiceGroupView>, Error>(e),
{
    match find_captures(DICE_PATTERN, input) {
        Some(found) => select_dice_groups(&found),
        None => Err(Error::MatcherFailure),
    }
}

/// Scans `input` for constants.
pub fn constant_texts(input: &str) -> (r: Result<Vec<String>, Error>)
    ensures
        r is Ok <==> constant_texts_in(input@) is Ok,
        r matches Ok(texts) ==> constant_texts_in(input@) == Ok::<Seq<Seq<char>>, Error>(
            texts.deep_view(),
        ),
        r matches Err(e) ==> constant_texts_in(input@) == Err::<Seq<Seq<char>>, Error>(e),
{
    match find_captures(CONSTANT_PATTERN, input) {
        Some(found) => select_constant_texts(&found),
        None => Err(Error::MatcherFailure),
    }
}

} // verus!
