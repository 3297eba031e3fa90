use diagspan::color::Color;
use diagspan::misc::write_error_context;

#[test]
fn ascii_underline_plain() {
    let out = write_error_context(Color::never(), "let x = 5;\nnext", 4, 0, 4, 1);
    assert_eq!("  |\n1 | let x = 5;\n  |     ^", out);
}

#[test]
fn tab_counts_four_columns() {
    let out = write_error_context(Color::never(), "\tab", 1, 0, 1, 1);
    assert_eq!("  |\n1 |     ab\n  |     ^", out);
    let out = write_error_context(Color::never(), "\tab", 2, 0, 2, 1);
    assert_eq!("  |\n1 |     ab\n  |      ^", out);
}

#[test]
fn zero_width_is_one_caret() {
    let zero = write_error_context(Color::never(), "abc", 0, 0, 0, 0);
    assert_eq!("  |\n1 | abc\n  | ^", zero);
    let one = write_error_context(Color::never(), "abc", 0, 0, 0, 1);
    assert_eq!(one, zero);
}

#[test]
fn wide_character_counts_two_columns() {
    let out = write_error_context(Color::never(), "\u{4f60}x", 3, 0, 3, 1);
    assert_eq!("  |\n1 | \u{4f60}x\n  |   ^", out);
}

#[test]
fn underline_is_styled_when_active() {
    let out = write_error_context(Color::always(), "ab", 0, 0, 0, 2);
    assert_eq!("  |\n1 | ab\n  | \u{1b}[1;31m^^\u{1b}[0m", out);
}

#[test]
fn gutter_widens_with_line_number() {
    let text = "a\nb\nc\nd\ne\nf\ng\nh\ni\njk";
    let out = write_error_context(Color::never(), text, 19, 9, 1, 1);
    assert_eq!("   |\n10 | jk\n   |  ^", out);
}

#[test]
fn second_line_is_found() {
    let out = write_error_context(Color::never(), "ab\ncd", 4, 1, 1, 1);
    assert_eq!("  |\n2 | cd\n  |  ^", out);
}

#[test]
fn carriage_return_is_stripped() {
    let out = write_error_context(Color::never(), "ab\r\ncd", 0, 0, 0, 1);
    assert_eq!("  |\n1 | ab\n  | ^", out);
}

#[test]
fn missing_line_at_end_renders_nothing() {
    assert_eq!("", write_error_context(Color::never(), "a\nb", 3, 5, 0, 0));
    assert_eq!("", write_error_context(Color::never(), "", 0, 0, 0, 0));
    assert_eq!("", write_error_context(Color::never(), "ab\n", 3, 1, 0, 0));
}

#[test]
fn missing_line_elsewhere_reports_defect() {
    let out = write_error_context(Color::never(), "a\nb", 1, 5, 0, 0);
    assert_eq!("internal error: Error has invalid line number: 6", out);
}
