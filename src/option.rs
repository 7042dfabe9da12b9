use vstd::prelude::*;

verus! {

/// What [`crate::count`] counts.
#[derive(Debug, Clone, Copy, PartialEq, Eq, Hash, Structural)]
pub enum CountOption {
    /// Each Unicode scalar value.
    Char,
    /// Each maximal run of word characters (`\w+`).
    Word,
    /// Each line, as a whole.
    Line,
}

/// Words are counted unless another unit is asked for.
impl Default for CountOption {
    fn default() -> (r: Self)
        ensures
            r == CountOption::Word,
    {
        CountOption::Word
    }
}

} // verus!
