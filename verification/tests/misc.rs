use diagspan::misc::{conjoin, maybe_s, show_whitespace, ticks, And, Or, Tick};

fn strs(v: &[&str]) -> Vec<String> {
    v.iter().map(|s| s.to_string()).collect()
}

#[test]
fn conjoin_or() {
    assert_eq!("1", Or(strs(&["1"])).render());
    assert_eq!("1 or 2", Or(strs(&["1", "2"])).render());
    assert_eq!("1, 2, or 3", Or(strs(&["1", "2", "3"])).render());
    assert_eq!("1, 2, 3, or 4", Or(strs(&["1", "2", "3", "4"])).render());
}

#[test]
fn conjoin_and() {
    assert_eq!("1", And(strs(&["1"])).render());
    assert_eq!("1 and 2", And(strs(&["1", "2"])).render());
    assert_eq!("1, 2, and 3", And(strs(&["1", "2", "3"])).render());
    assert_eq!("1, 2, 3, and 4", And(strs(&["1", "2", "3", "4"])).render());
}

#[test]
fn conjoin_no_items() {
    assert_eq!("", conjoin(&strs(&[]), "or"));
    assert_eq!("", conjoin(&strs(&[]), "and"));
}

#[test]
fn maybe_s_pluralizes() {
    assert_eq!("s", maybe_s(0));
    assert_eq!("", maybe_s(1));
    assert_eq!("s", maybe_s(2));
}

#[test]
fn show_whitespace_marks_blanks() {
    assert_eq!("\u{2420}a\u{2409}b", show_whitespace(" a\tb"));
    assert_eq!("", show_whitespace(""));
    assert_eq!("xyz", show_whitespace("xyz"));
}

#[test]
fn ticks_quote_each_value() {
    let t = ticks(&strs(&["a", "bc"]));
    assert_eq!(2, t.len());
    assert_eq!("`a`", t[0].render());
    assert_eq!("`bc`", t[1].render());
    assert_eq!("`x`", Tick("x".to_string()).render());
}
