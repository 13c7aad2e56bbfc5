//! Two adapters, [`Advance`] and [`CountingAdvance`], for consuming an
//! iterator one step at a time.
//!
//! A plain iterator hands out an item only by moving on. These adapters keep
//! the item fetched last, so that a caller can look at it, or change it in
//! place, as often as needed before asking for the next one. `Advance` does
//! that and nothing else; `CountingAdvance` also counts the advances.
//!
//! The contracts speak of the cached item and of the wrapped iterator, and
//! describe the iterator by the items that it has yet to yield (see
//! [`producer`]).
pub mod advance;
pub mod counting;
pub mod producer;

pub use advance::Advance;
pub use counting::CountingAdvance;
