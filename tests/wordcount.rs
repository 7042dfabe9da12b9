use std::collections::HashMap;

use wordcount::{count, CountOption, FrequencyMap};

fn to_map(freqs: FrequencyMap) -> HashMap<String, usize> {
    freqs.into_entries().into_iter().collect()
}

fn expected(pairs: &[(&str, usize)]) -> HashMap<String, usize> {
    pairs.iter().map(|(k, v)| (k.to_string(), *v)).collect()
}

fn tally(input: &str, option: CountOption) -> HashMap<String, usize> {
    to_map(count(input.as_bytes(), option).unwrap())
}

#[test]
fn wordcount_works() {
    let mut exp = HashMap::new();
    exp.insert("aa".to_string(), 1);
    exp.insert("bb".to_string(), 2);
    exp.insert("cc".to_string(), 1);

    assert_eq!(tally("aa bb cc bb", CountOption::Word), exp);
}

#[test]
fn wordcount_works2() {
    let mut exp = HashMap::new();
    exp.insert("aa".to_string(), 1);
    exp.insert("cc".to_string(), 1);
    exp.insert("dd".to_string(), 1);

    assert_eq!(tally("aa cc dd", CountOption::Word), exp);
}

#[test]
#[should_panic]
fn wordcount_do_not_contain_unknown_words() {
    let input = [
        b'a', // a
        0xf0, 0x90, 0x80, // a truncated four-byte sequence
        0xe3, 0x81, 0x82, // あ
    ];
    count(&input, CountOption::Word).expect("the input is not UTF-8");
}

#[test]
fn charcount_works() {
    let freqs = count(b"abadracadabra", CountOption::Char).unwrap();
    assert_eq!(
        to_map(freqs),
        expected(&[("a", 6), ("b", 2), ("c", 1), ("d", 2), ("r", 2)])
    );
}

#[test]
fn charcount_utf8() {
    let input = r#"
天地玄黃
宇宙洪荒
日月盈昃
辰宿列張
"#;
    let freqs = tally(input, CountOption::Char);
    assert_eq!(freqs.len(), 16);
    for (_, count) in freqs {
        assert_eq!(count, 1);
    }
}

#[test]
fn linecount_works() {
    let input = r#"Tokyo, Japan
Kyoto, Japan
Tokyo, Japan
Shanghai, China
"#;
    assert_eq!(
        tally(input, CountOption::Line),
        expected(&[("Tokyo, Japan", 2), ("Kyoto, Japan", 1), ("Shanghai, China", 1)])
    );
}

#[test]
fn linecount_lfcr() {
    assert_eq!(
        tally("aa\r\nbb\r\ncc\r\nbb", CountOption::Line),
        expected(&[("aa", 1), ("bb", 2), ("cc", 1)])
    );
}
