//! Text measurement: UTF-8 byte lengths, terminal display widths, splitting a
//! text into lines, tab expansion, and decimal rendering of line numbers.

use vstd::prelude::*;
use vstd::string::StrSliceExecFns;

verus! {

/// Number of bytes of the UTF-8 encoding of a character, determined by its
/// scalar value.
pub open spec fn char_utf8_len(c: char) -> int {
    if (c as u32) < 0x80 {
        1
    } else if (c as u32) < 0x800 {
        2
    } else if (c as u32) < 0x10000 {
        3
    } else {
        4
    }
}

/// Byte length of a character's UTF-8 encoding.
pub fn utf8_len(c: char) -> (n: usize)
    ensures
        n == char_utf8_len(c),
{
    let u = c as u32;
    if u < 0x80 {
        1
    } else if u < 0x800 {
        2
    } else if u < 0x10000 {
        3
    } else {
        4
    }
}

/// The displayed column count of a character on a terminal, `None` for a
/// control character.
pub uninterp spec fn display_width_of(c: char) -> Option<usize>;

/// Relies on `unicode_width::UnicodeWidthChar::width`: the displayed column
/// count of a character, `None` for a control character. Its table gives the
/// printable ASCII range one column, and packs widths in two bits, so no
/// width exceeds three columns.
#[verifier::external_body]
fn char_display_width(c: char) -> (r: Option<usize>)
    ensures
        r == display_width_of(c),
        0x20 <= (c as u32) && (c as u32) <= 0x7e ==> r == Some(1usize),
        r matches Some(w) ==> w <= 3,
{
    unicode_width::UnicodeWidthChar::width(c)
}

/// Columns a character occupies in the rendered source line: a tab expands to
/// four columns, any other character its display width, zero when it has
/// none.
pub open spec fn char_cols(c: char) -> int {
    if c == '\t' {
        4
    } else if 0x20 <= (c as u32) && (c as u32) <= 0x7e {
        1
    } else {
        match display_width_of(c) {
            Some(w) => w as int,
            None => 0,
        }
    }
}

/// Columns a character occupies in the rendered source line.
pub fn char_columns(c: char) -> (n: usize)
    ensures
        n == char_cols(c),
        n <= 4,
{
    if c == '\t' {
        4
    } else {
        match char_display_width(c) {
            Some(w) => w,
            None => 0,
        }
    }
}

/// Total UTF-8 byte length of the characters from index `k` on.
pub open spec fn byte_len_from(s: Seq<char>, k: int) -> int
    decreases s.len() - k,
{
    if !(0 <= k < s.len()) {
        0
    } else {
        char_utf8_len(s[k]) + byte_len_from(s, k + 1)
    }
}

/// Total UTF-8 byte length of a text.
pub fn text_byte_len(text: &str) -> (n: usize)
    requires
        4 * text@.len() <= usize::MAX,
    ensures
        n == byte_len_from(text@, 0),
{
    let tlen = text.unicode_len();
    let mut k: usize = 0;
    let mut acc: usize = 0;
    while k < tlen
        invariant
            k <= tlen,
            tlen == text@.len(),
            4 * text@.len() <= usize::MAX,
            acc <= 4 * k,
            byte_len_from(text@, 0) == acc + byte_len_from(text@, k as int),
        decreases tlen - k,
    {
        let c = text.get_char(k);
        acc = acc + utf8_len(c);
        k = k + 1;
    }
    acc
}

/// Index of the first `'\n'` at or after `k`, or the length when there is
/// none.
pub open spec fn first_break_from(s: Seq<char>, k: int) -> int
    decreases s.len() - k,
{
    if !(0 <= k < s.len()) {
        s.len() as int
    } else if s[k] == '\n' {
        k
    } else {
        first_break_from(s, k + 1)
    }
}

pub proof fn lemma_first_break_bounds(s: Seq<char>, k: int)
    requires
        0 <= k <= s.len(),
    ensures
        k <= first_break_from(s, k) <= s.len(),
        first_break_from(s, k) < s.len() ==> s[first_break_from(s, k)] == '\n',
    decreases s.len() - k,
{
    if k < s.len() && s[k] != '\n' {
        lemma_first_break_bounds(s, k + 1);
    }
}

/// A line with its terminating carriage return removed, as the line splitter
/// strips one directly before a line feed.
pub open spec fn chop_cr(l: Seq<char>) -> Seq<char> {
    if l.len() > 0 && l[l.len() - 1] == '\r' {
        l.drop_last()
    } else {
        l
    }
}

/// The lines of the text from index `k` on: maximal segments separated by
/// `'\n'`, a `'\r'` directly before a separator stripped, no line after a
/// final separator, and a last unterminated segment kept whole.
pub open spec fn lines_from(s: Seq<char>, k: int) -> Seq<Seq<char>>
    decreases s.len() - k,
{
    if !(0 <= k < s.len()) {
        Seq::empty()
    } else {
        let b = first_break_from(s, k);
        if b >= s.len() {
            seq![s.subrange(k, s.len() as int)]
        } else {
            proof {
                lemma_first_break_bounds(s, k);
            }
            seq![chop_cr(s.subrange(k, b))] + lines_from(s, b + 1)
        }
    }
}

/// Index of the first `'\n'` at or after `from`.
fn find_break(text: &str, from: usize, tlen: usize) -> (b: usize)
    requires
        tlen == text@.len(),
        from <= tlen,
    ensures
        b == first_break_from(text@, from as int),
        from <= b <= tlen,
        b < tlen ==> text@[b as int] == '\n',
{
    let mut j = from;
    while j < tlen
        invariant
            from <= j <= tlen,
            tlen == text@.len(),
            first_break_from(text@, from as int) == first_break_from(text@, j as int),
            forall|i: int| from <= i < j ==> text@[i] != '\n',
        decreases tlen - j,
    {
        if text.get_char(j) == '\n' {
            return j;
        }
        j = j + 1;
    }
    j
}

/// Locates line `n` of the text as a character-index range of its content.
/// `None` when the text has no such line.
pub fn find_line(text: &str, n: usize) -> (r: Option<(usize, usize)>)
    ensures
        match r {
            Some(rng) => {
                &&& (n as int) < lines_from(text@, 0).len()
                &&& rng.0 <= rng.1 <= text@.len()
                &&& lines_from(text@, 0)[n as int] == text@.subrange(rng.0 as int, rng.1 as int)
            },
            None => lines_from(text@, 0).len() <= n,
        },
{
    let tlen = text.unicode_len();
    let mut k: usize = 0;
    let mut cnt: usize = 0;
    loop
        invariant
            k <= tlen,
            tlen == text@.len(),
            cnt <= n,
            lines_from(text@, 0).skip(cnt as int) == lines_from(text@, k as int),
            lines_from(text@, 0).len() == cnt + lines_from(text@, k as int).len(),
        decreases tlen - k,
    {
        if k >= tlen {
            return None;
        }
        let b = find_break(text, k, tlen);
        proof {
            lemma_first_break_bounds(text@, k as int);
        }
        if cnt == n {
            let end = if b < tlen && b > k && text.get_char(b - 1) == '\r' {
                b - 1
            } else {
                b
            };
            proof {
                let s = text@;
                let l = lines_from(s, 0)[n as int];
                assert(l == lines_from(s, k as int)[0]);
                if b < tlen {
                    assert(lines_from(s, k as int)[0] == chop_cr(s.subrange(k as int, b as int)));
                    assert(chop_cr(s.subrange(k as int, b as int)) =~= s.subrange(
                        k as int,
                        end as int,
                    ));
                } else {
                    assert(lines_from(s, k as int)[0] == s.subrange(k as int, s.len() as int));
                }
            }
            return Some((k, end));
        }
        if b >= tlen {
            return None;
        }
        proof {
            let s = text@;
            let rest = lines_from(s, b + 1);
            assert(lines_from(s, k as int) == seq![chop_cr(s.subrange(k as int, b as int))]
                + rest);
            assert forall|i: int| 0 <= i < rest.len() implies lines_from(s, 0).skip(
                cnt as int + 1,
            )[i] == rest[i] by {
                assert(lines_from(s, 0).skip(cnt as int)[i + 1] == rest[i]);
                assert(lines_from(s, 0).skip(cnt as int)[i + 1] == lines_from(s, 0)[cnt + 1 + i]);
                assert(lines_from(s, 0).skip(cnt as int + 1)[i] == lines_from(s, 0)[cnt + 1 + i]);
            }
            assert(lines_from(s, 0).skip(cnt as int + 1) =~= rest);
        }
        k = b + 1;
        cnt = cnt + 1;
    }
}

/// Relies on `std::string::String::push`: appends the character to the
/// string.
#[verifier::external_body]
pub fn push_char(s: &mut String, c: char)
    ensures
        final(s)@ == old(s)@.push(c),
{
    s.push(c);
}

/// `n` copies of a character.
pub open spec fn repeat_char(c: char, n: int) -> Seq<char> {
    Seq::new(n as nat, |i: int| c)
}

/// `n` spaces.
pub open spec fn spaces(n: int) -> Seq<char> {
    repeat_char(' ', n)
}

/// Appends `n` copies of a character.
pub fn push_repeat(out: &mut String, c: char, n: usize)
    ensures
        final(out)@ == old(out)@ + repeat_char(c, n as int),
{
    let mut j: usize = 0;
    while j < n
        invariant
            j <= n,
            out@ == old(out)@ + repeat_char(c, j as int),
        decreases n - j,
    {
        push_char(out, c);
        j = j + 1;
        proof {
            assert(out@ =~= old(out)@ + repeat_char(c, j as int));
        }
    }
}

/// Appends the characters of a vector.
pub fn push_chars(out: &mut String, v: &Vec<char>)
    ensures
        final(out)@ == old(out)@ + v@,
{
    let mut j: usize = 0;
    while j < v.len()
        invariant
            j <= v@.len(),
            out@ == old(out)@ + v@.subrange(0, j as int),
        decreases v@.len() - j,
    {
        push_char(out, v[j]);
        j = j + 1;
        proof {
            assert(out@ =~= old(out)@ + v@.subrange(0, j as int));
        }
    }
    proof {
        assert(v@.subrange(0, v@.len() as int) =~= v@);
    }
}

/// Columns taken by the characters from index `k` on that lie strictly
/// before byte position `column`, when the character at `k` starts at byte
/// position `pos`.
pub open spec fn space_col_from(l: Seq<char>, k: int, pos: int, column: int) -> int
    decreases l.len() - k,
{
    if !(0 <= k < l.len()) {
        0
    } else {
        (if pos < column {
            char_cols(l[k])
        } else {
            0
        }) + space_col_from(l, k + 1, pos + char_utf8_len(l[k]), column)
    }
}

/// Columns taken by the characters from index `k` on whose byte position lies
/// in `[column, column + width)`, when the character at `k` starts at byte
/// position `pos`.
pub open spec fn space_width_from(l: Seq<char>, k: int, pos: int, column: int, width: int) -> int
    decreases l.len() - k,
{
    if !(0 <= k < l.len()) {
        0
    } else {
        (if column <= pos && pos < column + width {
            char_cols(l[k])
        } else {
            0
        }) + space_width_from(l, k + 1, pos + char_utf8_len(l[k]), column, width)
    }
}

/// The characters from index `k` on with each tab replaced by four spaces.
pub open spec fn expand_tabs_from(l: Seq<char>, k: int) -> Seq<char>
    decreases l.len() - k,
{
    if !(0 <= k < l.len()) {
        Seq::empty()
    } else {
        (if l[k] == '\t' {
            seq![' ', ' ', ' ', ' ']
        } else {
            seq![l[k]]
        }) + expand_tabs_from(l, k + 1)
    }
}

/// Scans a source line once: the columns before the span, the columns within
/// the span, and the line with tabs expanded.
pub fn scan_line(line: &str, column: usize, width: usize) -> (r: (usize, usize, String))
    requires
        column + width <= usize::MAX,
        4 * line@.len() + 4 <= usize::MAX,
    ensures
        r.0 == space_col_from(line@, 0, 0, column as int),
        r.1 == space_width_from(line@, 0, 0, column as int, width as int),
        r.2@ == expand_tabs_from(line@, 0),
{
    let llen = line.unicode_len();
    let mut k: usize = 0;
    let mut pos: usize = 0;
    let mut sc: usize = 0;
    let mut sw: usize = 0;
    let mut out = String::new();
    while k < llen
        invariant
            k <= llen,
            llen == line@.len(),
            column + width <= usize::MAX,
            4 * line@.len() + 4 <= usize::MAX,
            pos <= 4 * k,
            sc <= 4 * k,
            sw <= 4 * k,
            space_col_from(line@, 0, 0, column as int) == sc + space_col_from(
                line@,
                k as int,
                pos as int,
                column as int,
            ),
            space_width_from(line@, 0, 0, column as int, width as int) == sw + space_width_from(
                line@,
                k as int,
                pos as int,
                column as int,
                width as int,
            ),
            expand_tabs_from(line@, 0) == out@ + expand_tabs_from(line@, k as int),
        decreases llen - k,
    {
        let ghost outold = out@;
        let c = line.get_char(k);
        let cl = utf8_len(c);
        let cc = char_columns(c);
        if c == '\t' {
            push_char(&mut out, ' ');
            push_char(&mut out, ' ');
            push_char(&mut out, ' ');
            push_char(&mut out, ' ');
            proof {
                assert(out@ =~= outold + seq![' ', ' ', ' ', ' ']);
            }
        } else {
            push_char(&mut out, c);
            proof {
                assert(out@ =~= outold + seq![c]);
            }
        }
        if pos < column {
            sc = sc + cc;
        }
        if pos >= column && pos < column + width {
            sw = sw + cc;
        }
        proof {
            let l = line@;
            let ki = k as int;
            assert(space_col_from(l, ki, pos as int, column as int) == (if (pos as int) < column {
                char_cols(l[ki])
            } else {
                0
            }) + space_col_from(l, ki + 1, pos + char_utf8_len(l[ki]), column as int));
            assert(space_width_from(l, ki, pos as int, column as int, width as int) == (if column
                <= pos && (pos as int) < column + width {
                char_cols(l[ki])
            } else {
                0
            }) + space_width_from(
                l,
                ki + 1,
                pos + char_utf8_len(l[ki]),
                column as int,
                width as int,
            ));
            assert(expand_tabs_from(l, ki) == (if l[ki] == '\t' {
                seq![' ', ' ', ' ', ' ']
            } else {
                seq![l[ki]]
            }) + expand_tabs_from(l, ki + 1));
            if l[ki] == '\t' {
                assert(outold + seq![' ', ' ', ' ', ' '] + expand_tabs_from(l, ki + 1) =~= outold
                    + expand_tabs_from(l, ki));
            } else {
                assert(outold + seq![l[ki]] + expand_tabs_from(l, ki + 1) =~= outold
                    + expand_tabs_from(l, ki));
            }
        }
        pos = pos + cl;
        k = k + 1;
    }
    (sc, sw, out)
}

/// The decimal digit character of a value below ten.
pub open spec fn dec_digit(d: int) -> char {
    if d == 0 {
        '0'
    } else if d == 1 {
        '1'
    } else if d == 2 {
        '2'
    } else if d == 3 {
        '3'
    } else if d == 4 {
        '4'
    } else if d == 5 {
        '5'
    } else if d == 6 {
        '6'
    } else if d == 7 {
        '7'
    } else if d == 8 {
        '8'
    } else {
        '9'
    }
}

/// The decimal rendering of a non-negative value, most significant digit
/// first, no leading zeros except for zero itself.
pub open spec fn spec_dec(n: int) -> Seq<char>
    decreases n,
{
    if n < 10 {
        seq![dec_digit(n)]
    } else {
        spec_dec(n / 10).push(dec_digit(n % 10))
    }
}

fn dec_digit_char(d: usize) -> (c: char)
    requires
        d < 10,
    ensures
        c == dec_digit(d as int),
{
    match d {
        0 => '0',
        1 => '1',
        2 => '2',
        3 => '3',
        4 => '4',
        5 => '5',
        6 => '6',
        7 => '7',
        8 => '8',
        _ => '9',
    }
}

/// The decimal digits of a value.
pub fn dec_digits(n: usize) -> (v: Vec<char>)
    ensures
        v@ == spec_dec(n as int),
        v@.len() >= 1,
{
    let mut v: Vec<char> = Vec::new();
    let mut m: usize = n;
    while m >= 10
        invariant
            spec_dec(n as int) == if v@.len() == 0 {
                spec_dec(m as int)
            } else {
                spec_dec(m as int) + v@
            },
        decreases m,
    {
        let ghost vold = v@;
        let ghost mi = m as int;
        let d = dec_digit_char(m % 10);
        v.insert(0, d);
        m = m / 10;
        proof {
            assert(v@ =~= seq![dec_digit(mi % 10)] + vold);
            assert(spec_dec(mi) == spec_dec(mi / 10).push(dec_digit(mi % 10)));
            assert(spec_dec(mi / 10).push(dec_digit(mi % 10)) =~= spec_dec(mi / 10) + seq![
                dec_digit(mi % 10),
            ]);
            if vold.len() > 0 {
                assert(spec_dec(mi / 10) + seq![dec_digit(mi % 10)] + vold =~= spec_dec(mi / 10)
                    + v@);
            } else {
                assert(spec_dec(mi / 10) + seq![dec_digit(mi % 10)] =~= spec_dec(mi / 10) + v@);
            }
        }
    }
    let ghost vold = v@;
    let ghost mi = m as int;
    let d = dec_digit_char(m);
    v.insert(0, d);
    proof {
        assert(v@ =~= seq![dec_digit(mi)] + vold);
        assert(spec_dec(mi) == seq![dec_digit(mi)]);
        if vold.len() > 0 {
            assert(spec_dec(mi) + vold =~= v@);
        } else {
            assert(v@ =~= spec_dec(mi));
        }
    }
    v
}

/// A printable ASCII character: one byte, one column, not a tab.
pub open spec fn is_printable_ascii(c: char) -> bool {
    0x20 <= (c as u32) && (c as u32) <= 0x7e
}

/// Once the byte position has reached the span start, no further character
/// counts towards the leading columns.
proof fn lemma_col_done(l: Seq<char>, k: int, pos: int, column: int)
    requires
        pos >= column,
    ensures
        space_col_from(l, k, pos, column) == 0,
    decreases l.len() - k,
{
    if 0 <= k < l.len() {
        lemma_col_done(l, k + 1, pos + char_utf8_len(l[k]), column);
    }
}

proof fn lemma_ascii_col_from(l: Seq<char>, k: int, column: int)
    requires
        forall|i: int| 0 <= i < l.len() ==> is_printable_ascii(#[trigger] l[i]),
        0 <= k <= column <= l.len(),
    ensures
        space_col_from(l, k, k, column) == column - k,
    decreases l.len() - k,
{
    if k == column {
        lemma_col_done(l, k, k, column);
    } else {
        lemma_ascii_col_from(l, k + 1, column);
    }
}

proof fn lemma_ascii_width_from(l: Seq<char>, k: int, column: int, width: int)
    requires
        forall|i: int| 0 <= i < l.len() ==> is_printable_ascii(#[trigger] l[i]),
        0 <= k <= l.len(),
        0 <= column,
        0 <= width,
        column + width <= l.len(),
    ensures
        space_width_from(l, k, k, column, width) == if k <= column {
            width
        } else if k < column + width {
            column + width - k
        } else {
            0
        },
    decreases l.len() - k,
{
    if k < l.len() {
        lemma_ascii_width_from(l, k + 1, column, width);
    }
}

/// On a line holding only printable ASCII (so no tabs), the underline's
/// leading columns equal the span's start column exactly, and the underline
/// spans exactly the span's width.
pub proof fn lemma_ascii_underline(l: Seq<char>, column: int, width: int)
    requires
        forall|i: int| 0 <= i < l.len() ==> is_printable_ascii(#[trigger] l[i]),
        0 <= column,
        0 <= width,
        column + width <= l.len(),
    ensures
        space_col_from(l, 0, 0, column) == column,
        space_width_from(l, 0, 0, column, width) == width,
{
    lemma_ascii_col_from(l, 0, column);
    lemma_ascii_width_from(l, 0, column, width);
}

/// Number of tabs among the characters from index `k` up to index `column`.
pub open spec fn tab_count(l: Seq<char>, k: int, column: int) -> int
    decreases l.len() - k,
{
    if !(0 <= k < l.len()) || k >= column {
        0
    } else {
        (if l[k] == '\t' {
            1int
        } else {
            0int
        }) + tab_count(l, k + 1, column)
    }
}

proof fn lemma_tab_indent_from(l: Seq<char>, k: int, column: int)
    requires
        forall|i: int|
            0 <= i < l.len() ==> (#[trigger] l[i]) == '\t' || is_printable_ascii(l[i]),
        0 <= k <= column <= l.len(),
    ensures
        space_col_from(l, k, k, column) == (column - k) + 3 * tab_count(l, k, column),
    decreases l.len() - k,
{
    if k == column {
        lemma_col_done(l, k, k, column);
    } else {
        lemma_tab_indent_from(l, k + 1, column);
    }
}

/// On a line of printable ASCII and tabs, each tab before the span start adds
/// four leading columns where any other character adds one: the leading
/// columns are the start column plus three per tab before it.
pub proof fn lemma_tab_indent(l: Seq<char>, column: int)
    requires
        forall|i: int|
            0 <= i < l.len() ==> (#[trigger] l[i]) == '\t' || is_printable_ascii(l[i]),
        0 <= column <= l.len(),
    ensures
        space_col_from(l, 0, 0, column) == column + 3 * tab_count(l, 0, column),
{
    lemma_tab_indent_from(l, 0, column);
}

} // verus!
