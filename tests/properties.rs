use std::collections::HashMap;

use wordcount::{count, CountError, CountOption, FrequencyMap};

fn to_map(freqs: FrequencyMap) -> HashMap<String, usize> {
    freqs.into_entries().into_iter().collect()
}

fn expected(pairs: &[(&str, usize)]) -> HashMap<String, usize> {
    pairs.iter().map(|(k, v)| (k.to_string(), *v)).collect()
}

fn tally(input: &str, option: CountOption) -> HashMap<String, usize> {
    to_map(count(input.as_bytes(), option).unwrap())
}

#[test]
fn default_option_is_word() {
    assert_eq!(CountOption::default(), CountOption::Word);
}

#[test]
fn empty_input_gives_empty_tally() {
    for option in [CountOption::Char, CountOption::Word, CountOption::Line] {
        let freqs = count(b"", option).unwrap();
        assert_eq!(freqs.total(), 0);
        assert!(freqs.into_entries().is_empty());
    }
}

#[test]
fn word_total_is_number_of_runs() {
    let freqs = count("aa bb, cc! dd_e 12\nfoo--bar".as_bytes(), CountOption::Word).unwrap();
    assert_eq!(freqs.total(), 7);
    assert_eq!(freqs.get("dd_e"), Some(1));
    assert_eq!(freqs.get("12"), Some(1));
    assert_eq!(freqs.get("bb,"), None);
    assert_eq!(freqs.get("aa bb, cc! dd_e 12"), None);
}

#[test]
fn words_are_unicode_word_runs() {
    assert_eq!(
        tally("héllo wörld héllo", CountOption::Word),
        expected(&[("héllo", 2), ("wörld", 1)])
    );
}

#[test]
fn punctuation_only_has_no_words() {
    let freqs = count(b"!!! ... ---\n  \n", CountOption::Word).unwrap();
    assert_eq!(freqs.total(), 0);
}

#[test]
fn char_total_leaves_out_terminators() {
    let freqs = count("ab\r\nc\n天\n".as_bytes(), CountOption::Char).unwrap();
    assert_eq!(freqs.total(), 4);
    assert_eq!(freqs.get("\n"), None);
    assert_eq!(freqs.get("\r"), None);
    assert_eq!(freqs.get("天"), Some(1));
    assert_eq!(freqs.get("ab"), None);
}

#[test]
fn line_total_is_number_of_lines() {
    let freqs = count(b"a\n\na\nb", CountOption::Line).unwrap();
    assert_eq!(freqs.total(), 4);
    assert_eq!(to_map(freqs), expected(&[("a", 2), ("", 1), ("b", 1)]));
}

#[test]
fn carriage_return_without_newline_stays() {
    assert_eq!(
        tally("ab\r\nab\r", CountOption::Line),
        expected(&[("ab", 1), ("ab\r", 1)])
    );
}

#[test]
fn terminators_are_equivalent() {
    let crlf = tally("aa\r\nbb\r\ncc\r\nbb", CountOption::Line);
    let lf = tally("aa\nbb\ncc\nbb", CountOption::Line);
    assert_eq!(crlf, lf);
    assert_eq!(lf, expected(&[("aa", 1), ("bb", 2), ("cc", 1)]));
}

#[test]
fn counting_twice_gives_equal_tallies() {
    let input = "one two two\nthree three three\n";
    for option in [CountOption::Char, CountOption::Word, CountOption::Line] {
        assert_eq!(tally(input, option), tally(input, option));
    }
}

#[test]
fn invalid_utf8_is_rejected_under_every_option() {
    let input = [b'a', 0xf0, 0x90, 0x80, 0xe3, 0x81, 0x82];
    for option in [CountOption::Char, CountOption::Word, CountOption::Line] {
        assert_eq!(count(&input, option).err(), Some(CountError::InvalidUtf8));
    }
}

#[test]
fn invalid_utf8_on_a_later_line_is_rejected() {
    let input = b"fine line\nmore\n\xff\xfe\n";
    assert_eq!(count(input, CountOption::Line).err(), Some(CountError::InvalidUtf8));
}

#[test]
fn get_reports_absent_units() {
    let freqs = count(b"x y x", CountOption::Word).unwrap();
    assert_eq!(freqs.get("x"), Some(2));
    assert_eq!(freqs.get("y"), Some(1));
    assert_eq!(freqs.get("z"), None);
}

#[test]
fn frequency_map_adds_units() {
    let mut freqs = FrequencyMap::new();
    freqs.add("k".to_string());
    freqs.add("k".to_string());
    freqs.add("j".to_string());
    assert_eq!(freqs.total(), 3);
    assert_eq!(to_map(freqs), expected(&[("k", 2), ("j", 1)]));
}
