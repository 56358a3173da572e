use appgen::text::{
    capitalize, concat_terminated_strings, join_strings, replace_first, usize_to_decimal,
};

fn text_strings(parts: &[&str]) -> Vec<String> {
    parts.iter().map(|p| String::from(*p)).collect()
}

#[test]
fn decimal_numerals() {
    assert_eq!(usize_to_decimal(0), "0");
    assert_eq!(usize_to_decimal(9), "9");
    assert_eq!(usize_to_decimal(10), "10");
    assert_eq!(usize_to_decimal(64), "64");
    assert_eq!(usize_to_decimal(1234567890), "1234567890");
    assert_eq!(usize_to_decimal(usize::MAX), usize::MAX.to_string());
}

#[test]
fn joining() {
    assert_eq!(join_strings(&text_strings(&[]), ", "), "");
    assert_eq!(join_strings(&text_strings(&["a"]), ", "), "a");
    assert_eq!(join_strings(&text_strings(&["a", "b", "c"]), ", "), "a, b, c");
    assert_eq!(join_strings(&text_strings(&["", ""]), "-"), "-");
    assert_eq!(join_strings(&text_strings(&["a", "b"]), ""), "ab");
}

#[test]
fn terminating() {
    assert_eq!(concat_terminated_strings(&text_strings(&[]), "\n"), "");
    assert_eq!(concat_terminated_strings(&text_strings(&["a", "b"]), "\n"), "a\nb\n");
}

#[test]
fn capitalizing() {
    assert_eq!(capitalize("invoice_item"), "Invoice_item");
    assert_eq!(capitalize("x"), "X");
    assert_eq!(capitalize(""), "");
    assert_eq!(capitalize("already"), "Already");
    assert_eq!(capitalize("Already"), "Already");
    assert_eq!(capitalize("mixedCase"), "MixedCase");
    assert_eq!(capitalize("_hidden"), "_hidden");
    assert_eq!(capitalize("\u{e9}t\u{e9}"), "\u{c9}t\u{e9}");
    assert_eq!(capitalize("\u{df}eta"), "SSeta");
}

#[test]
fn replacing_the_first_character() {
    assert_eq!(replace_first("word", "W"), "Word");
    assert_eq!(replace_first("word", ""), "ord");
    assert_eq!(replace_first("word", "WW"), "WWord");
    assert_eq!(replace_first("", "W"), "");
    assert_eq!(replace_first("\u{e9}t\u{e9}", "E"), "Et\u{e9}");
}
