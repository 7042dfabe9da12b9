use vstd::prelude::*;

use crate::count::{count_result, decoded_lines, input_units, line_units, units_of, CountError};
use crate::freq::FrequencyMap;
use crate::lines::lines_of;
use crate::option::CountOption;
use crate::words::word_runs;

verus! {

/// The number of words on all `lines` together.
pub open spec fn word_total(lines: Seq<Seq<char>>) -> nat
    decreases lines.len(),
{
    if lines.len() == 0 {
        0
    } else {
        word_total(lines.drop_last()) + word_runs(lines.last()).len()
    }
}

/// The number of characters on all `lines` together.
pub open spec fn char_total(lines: Seq<Seq<char>>) -> nat
    decreases lines.len(),
{
    if lines.len() == 0 {
        0
    } else {
        char_total(lines.drop_last()) + lines.last().len()
    }
}

proof fn lemma_word_units(lines: Seq<Seq<char>>)
    ensures
        units_of(lines, CountOption::Word).len() == word_total(lines),
    decreases lines.len(),
{
    if lines.len() > 0 {
        lemma_word_units(lines.drop_last());
    }
}

proof fn lemma_char_units(lines: Seq<Seq<char>>)
    ensures
        units_of(lines, CountOption::Char).len() == char_total(lines),
    decreases lines.len(),
{
    if lines.len() > 0 {
        lemma_char_units(lines.drop_last());
        assert(line_units(lines.last(), CountOption::Char).len() == lines.last().len());
    }
}

proof fn lemma_line_units(lines: Seq<Seq<char>>)
    ensures
        units_of(lines, CountOption::Line) == lines,
    decreases lines.len(),
{
    if lines.len() > 0 {
        lemma_line_units(lines.drop_last());
        assert(lines.drop_last().push(lines.last()) == lines);
        assert(lines.drop_last() + seq![lines.last()] == lines.drop_last().push(lines.last()));
    }
}

/// Counting words: the counts add up to the number of maximal runs of word
/// characters on all lines. (A multiset's length is the sum of its counts.)
pub proof fn word_counts_add_up(input: Seq<u8>, freqs: FrequencyMap)
    requires
        count_result(input, CountOption::Word, Ok(freqs)),
    ensures
        freqs@.len() == word_total(decoded_lines(input)),
{
    vstd::seq_lib::to_multiset_len(input_units(input, CountOption::Word));
    lemma_word_units(decoded_lines(input));
}

/// Counting characters: the counts add up to the number of Unicode scalar
/// values on all lines, line terminators left out.
pub proof fn char_counts_add_up(input: Seq<u8>, freqs: FrequencyMap)
    requires
        count_result(input, CountOption::Char, Ok(freqs)),
    ensures
        freqs@.len() == char_total(decoded_lines(input)),
{
    vstd::seq_lib::to_multiset_len(input_units(input, CountOption::Char));
    lemma_char_units(decoded_lines(input));
}

/// Counting lines: the counts add up to the number of lines, and the tally
/// is the multiset of the lines, so that equal lines share one key.
pub proof fn line_counts_add_up(input: Seq<u8>, freqs: FrequencyMap)
    requires
        count_result(input, CountOption::Line, Ok(freqs)),
    ensures
        freqs@.len() == lines_of(input).len(),
        freqs@ == decoded_lines(input).to_multiset(),
{
    vstd::seq_lib::to_multiset_len(input_units(input, CountOption::Line));
    lemma_line_units(decoded_lines(input));
}

/// Counting twice on equal input with the same option gives the same
/// outcome: equal tallies, or the same error.
pub proof fn count_is_deterministic(
    a: Seq<u8>,
    b: Seq<u8>,
    option: CountOption,
    first: Result<FrequencyMap, CountError>,
    second: Result<FrequencyMap, CountError>,
)
    requires
        a == b,
        count_result(a, option, first),
        count_result(b, option, second),
    ensures
        first is Ok <==> second is Ok,
        first matches Ok(f1) ==> second matches Ok(f2) && f1@ == f2@,
        first matches Err(e1) ==> second matches Err(e2) && e1 == e2,
{
}

} // verus!
