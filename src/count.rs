use vstd::prelude::*;
use vstd::string::StringSliceAdditionalSpecFns;
use vstd::utf8::{decode_utf8, valid_utf8};

use crate::freq::FrequencyMap;
use crate::lines::{line_ranges, lines_of};
use crate::option::CountOption;
use crate::words::{regex_compiles, word_runs, WordRegex, WORD_PATTERN};

verus! {

/// Why [`count`] gave no tally.
#[derive(Debug, Clone, Copy, PartialEq, Eq, Structural)]
pub enum CountError {
    /// A line of the input is not valid UTF-8.
    InvalidUtf8,
    /// The word pattern did not compile.
    PatternRejected,
    /// There are more units than a `usize` can count.
    TooManyUnits,
}

/// Every line of `input` is valid UTF-8.
pub open spec fn lines_valid(input: Seq<u8>) -> bool {
    forall|i: int| 0 <= i < lines_of(input).len() ==> valid_utf8(#[trigger] lines_of(input)[i])
}

/// The lines of `input`, decoded.
pub open spec fn decoded_lines(input: Seq<u8>) -> Seq<Seq<char>> {
    lines_of(input).map_values(|l: Seq<u8>| decode_utf8(l))
}

/// The units of one line, in order: each character, each word, or the line
/// itself.
pub open spec fn line_units(line: Seq<char>, option: CountOption) -> Seq<Seq<char>> {
    match option {
        CountOption::Char => line.map_values(|c: char| seq![c]),
        CountOption::Word => word_runs(line),
        CountOption::Line => seq![line],
    }
}

/// The units of all `lines`, line after line.
pub open spec fn units_of(lines: Seq<Seq<char>>, option: CountOption) -> Seq<Seq<char>>
    decreases lines.len(),
{
    if lines.len() == 0 {
        Seq::empty()
    } else {
        units_of(lines.drop_last(), option) + line_units(lines.last(), option)
    }
}

/// The units of the text `input`.
pub open spec fn input_units(input: Seq<u8>, option: CountOption) -> Seq<Seq<char>> {
    units_of(decoded_lines(input), option)
}

/// What [`count`] promises: a tally of exactly the units of `input`, or the
/// one error that applies.
pub open spec fn count_result(
    input: Seq<u8>,
    option: CountOption,
    r: Result<FrequencyMap, CountError>,
) -> bool {
    match r {
        Ok(freqs) => {
            &&& lines_valid(input)
            &&& option == CountOption::Word ==> regex_compiles(WORD_PATTERN@)
            &&& input_units(input, option).len() <= usize::MAX
            &&& freqs.wf()
            &&& freqs@ == input_units(input, option).to_multiset()
        },
        Err(CountError::InvalidUtf8) => !lines_valid(input),
        Err(CountError::PatternRejected) => {
            &&& lines_valid(input)
            &&& option == CountOption::Word
            &&& !regex_compiles(WORD_PATTERN@)
        },
        Err(CountError::TooManyUnits) => {
            &&& lines_valid(input)
            &&& option == CountOption::Word ==> regex_compiles(WORD_PATTERN@)
            &&& input_units(input, option).len() > usize::MAX
        },
    }
}

/// Relies on `std::str::from_utf8`: it accepts exactly the valid UTF-8 byte
/// sequences, and the text it returns has those bytes.
#[verifier::external_body]
fn decode_line(b: &[u8]) -> (r: Option<&str>)
    ensures
        r is Some <==> valid_utf8(b@),
        r matches Some(s) ==> s.spec_bytes() == b@,
{
    std::str::from_utf8(b).ok()
}

/// Relies on `ToString` for `char`: a string of that one character.
#[verifier::external_body]
fn char_string(c: char) -> (r: String)
    ensures
        r@ == seq![c],
{
    c.to_string()
}

spec fn views(v: Seq<String>) -> Seq<Seq<char>> {
    v.map_values(|s: String| s@)
}

/// Each character of `line` as a string of its own.
fn char_units(line: &str) -> (r: Vec<String>)
    ensures
        views(r@) == line_units(line@, CountOption::Char),
{
    let mut r: Vec<String> = Vec::new();
    for c in it: line.chars()
        invariant
            it.seq() == line@,
            r@.len() == it.index(),
            forall|j: int| 0 <= j < r@.len() ==> (#[trigger] r@[j])@ == seq![line@[j]],
    {
        r.push(char_string(c));
    }
    assert(views(r@) =~= line_units(line@, CountOption::Char));
    r
}

/// Adds each of `units` to `freqs`, which held `seen`. Returns false when the
/// total would no longer fit in a `usize`.
fn add_all(freqs: &mut FrequencyMap, units: Vec<String>, Ghost(seen): Ghost<Seq<Seq<char>>>) -> (ok:
    bool)
    requires
        old(freqs).wf(),
        old(freqs)@ == seen.to_multiset(),
    ensures
        final(freqs).wf(),
        ok ==> final(freqs)@ == (seen + views(units@)).to_multiset(),
        !ok ==> seen.len() + units@.len() > usize::MAX,
{
    let ghost us = views(units@);
    let n = units.len();
    for u in it: units
        invariant
            it.seq() == units@,
            n == units@.len(),
            us == views(units@),
            freqs.wf(),
            freqs@ == (seen + us.take(it.index() as int)).to_multiset(),
    {
        let ghost i = it.index() as int;
        assert(us.len() == units@.len());
        proof {
            vstd::seq_lib::to_multiset_len(seen + us.take(i));
        }
        if freqs.total() == usize::MAX {
            return false;
        }
        assert((seen + us.take(i + 1)) == (seen + us.take(i)).push(u@));
        freqs.add(u);
        proof {
            vstd::seq_lib::to_multiset_build(seen + us.take(i), units@[i]@);
        }
    }
    assert(us.take(n as int) == us);
    true
}

proof fn lemma_units_grow(lines: Seq<Seq<char>>, option: CountOption, k: int, m: int)
    requires
        0 <= k <= m <= lines.len(),
    ensures
        units_of(lines.take(k), option).len() <= units_of(lines.take(m), option).len(),
    decreases m - k,
{
    if k < m {
        lemma_units_grow(lines, option, k, m - 1);
        assert(lines.take(m).drop_last() == lines.take(m - 1));
    }
}

/// Tallies the characters, words or lines of `input`, as `option` says.
///
/// `input` is split into lines at each `\n`, and a `\r` right before it is
/// dropped; text after the last `\n` is a line when it is not empty. Every
/// line must be valid UTF-8. The result holds each distinct unit once, with
/// the number of times it occurs.
///
/// # Errors
///
/// [`CountError::InvalidUtf8`] when some line is not valid UTF-8, and no
/// partial tally; [`CountError::PatternRejected`] when words are counted and
/// the word pattern does not compile; [`CountError::TooManyUnits`] when the
/// units outnumber what a `usize` holds.
pub fn count(input: &[u8], option: CountOption) -> (r: Result<FrequencyMap, CountError>)
    ensures
        count_result(input@, option, r),
{
    broadcast use vstd::seq_lib::group_to_multiset_ensures;

    let ranges = line_ranges(input);
    let ghost ls = lines_of(input@);
    let ghost dl = decoded_lines(input@);
    let mut lines: Vec<&str> = Vec::new();
    let mut k: usize = 0;
    while k < ranges.len()
        invariant
            k <= ranges@.len(),
            ranges@.len() == ls.len(),
            ls == lines_of(input@),
            forall|j: int|
                0 <= j < ranges@.len() ==> {
                    &&& (#[trigger] ranges@[j]).0 <= ranges@[j].1 <= input@.len()
                    &&& input@.subrange(ranges@[j].0 as int, ranges@[j].1 as int) == ls[j]
                },
            lines@.len() == k,
            forall|j: int|
                0 <= j < k ==> valid_utf8(#[trigger] ls[j]) && lines@[j]@ == decode_utf8(ls[j]),
        decreases ranges@.len() - k,
    {
        let (a, b) = ranges[k];
        let bytes = vstd::slice::slice_subrange(input, a, b);
        match decode_line(bytes) {
            Some(s) => {
                proof {
                    vstd::utf8::encode_utf8_decode_utf8(s@);
                }
                lines.push(s);
            },
            None => {
                return Err(CountError::InvalidUtf8);
            },
        }
        k = k + 1;
    }
    assert(lines_valid(input@));
    let matcher = match option {
        CountOption::Word => match WordRegex::new() {
            Some(m) => Some(m),
            None => {
                return Err(CountError::PatternRejected);
            },
        },
        _ => None,
    };
    let mut freqs = FrequencyMap::new();
    let mut k: usize = 0;
    while k < lines.len()
        invariant
            k <= lines@.len(),
            lines@.len() == dl.len(),
            dl == decoded_lines(input@),
            lines_valid(input@),
            forall|j: int| 0 <= j < dl.len() ==> (#[trigger] lines@[j])@ == dl[j],
            option == CountOption::Word ==> matcher is Some && regex_compiles(WORD_PATTERN@),
            freqs.wf(),
            freqs@ == units_of(dl.take(k as int), option).to_multiset(),
        decreases lines@.len() - k,
    {
        let line = lines[k];
        let units: Vec<String> = match option {
            CountOption::Char => char_units(line),
            CountOption::Word => match &matcher {
                Some(m) => m.words(line),
                // not reached: the matcher is built whenever words are counted
                None => Vec::new(),
            },
            CountOption::Line => {
                let mut v: Vec<String> = Vec::new();
                v.push(line.to_owned());
                v
            },
        };
        assert(views(units@) =~= line_units(dl[k as int], option));
        assert(dl.take(k + 1).drop_last() == dl.take(k as int));
        let ghost seen = units_of(dl.take(k as int), option);
        if !add_all(&mut freqs, units, Ghost(seen)) {
            proof {
                assert(units_of(dl.take(k + 1), option).len() == seen.len() + units@.len());
                lemma_units_grow(dl, option, k + 1, dl.len() as int);
                assert(dl.take(dl.len() as int) == dl);
            }
            return Err(CountError::TooManyUnits);
        }
        k = k + 1;
    }
    assert(dl.take(dl.len() as int) == dl);
    proof {
        freqs.lemma_total_fits();
    }
    Ok(freqs)
}

} // verus!
