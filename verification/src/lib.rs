//! A dice-notation evaluator: text such as `3d4+2d8+6` is read into a
//! [`Roll`], the dice are cast, and the total is reported.
//!
//! * [`matcher`] scans a text for dice groups and for constants;
//! * [`number`] and [`dice`] read the fields of what was found;
//! * [`notation`] puts these together: [`parse`] from text to [`Roll`],
//!   [`run`] from text to [`Cast`];
//! * [`roll`] evaluates: the dice are drawn, their sum is multiplied by the
//!   critical multiplier, and the constants are added.
//!
//! Everything is verified but for two calls into other crates, whose
//! contracts are taken on trust: the search for a pattern, which `regex`
//! does, and the draw of a random number, which `rand` does. What the first
//! finds is given a name, `regex_captures`, and the contracts say exactly what
//! becomes of it. Of the second only the range is known, so the contracts of
//! what draws say what holds of every outcome, and [`Roll::total`] says what
//! the total of given outcomes is.

pub mod dice;
pub mod error;
pub mod matcher;
pub mod notation;
pub mod number;
pub mod roll;

pub use dice::Dice;
pub use error::Error;
pub use notation::{parse, run};
pub use roll::{Cast, Roll};
