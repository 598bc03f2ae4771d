//! Marketplace acquisition and fuzzy matching for a local asset library:
//! slug guessing, listing extraction, retry and resolution decisions, and the
//! confidence-scored matching engine.
use vstd::prelude::*;

pub mod category;
pub mod decimal;
pub mod fetch;
pub mod html;
pub mod listing;
pub mod manual;
pub mod matching;
pub mod models;
pub mod refresh;
pub mod resolve;
pub mod scan;
pub mod slug;
pub mod text;

verus! {

/// Fixed-point scale of confidences, ratings and prices: one unit is a millionth.
pub const SCALE: u64 = 1_000_000;

} // verus!
