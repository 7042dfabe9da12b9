//! Counts how often each character, word or line occurs in UTF-8 text.
//!
//! The input is split into lines at `\n` (a `\r` right before it is dropped
//! too), each line is decoded as UTF-8, and the units that the chosen
//! [`CountOption`] selects are tallied into a [`FrequencyMap`].
pub mod count;
pub mod freq;
pub mod laws;
pub mod lines;
pub mod option;
pub mod words;

pub use count::{count, CountError};
pub use freq::FrequencyMap;
pub use option::CountOption;
