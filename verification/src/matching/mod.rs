//! Price-time priority order book.
//!
//! [`Book`] is the single writer's state. What each operation does is
//! stated in [`model`] over sequences of resting orders; [`laws`] states
//! what the operations keep.

pub mod book;
pub mod laws;
pub mod lemmas;
pub mod levels;
pub mod model;
pub mod types;


pub use book::Book;
pub use types::{AggressiveOrder, BookError, Fill, Level, MatchResult, ReplaceOutcome, RestingOrder};
