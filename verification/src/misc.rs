//! Small formatting helpers and the source-context renderer.

use vstd::prelude::*;
use vstd::string::StrSliceExecFns;
use vstd::string::StringExecFns;

use crate::color::{plain_style, spec_prefix, spec_suffix, Color, Hue, TextStyle};
use crate::text::{
    byte_len_from, dec_digits, expand_tabs_from, find_line, lines_from, push_char, push_chars,
    push_repeat, repeat_char, scan_line, space_col_from, space_width_from, spaces, spec_dec,
    text_byte_len,
};

verus! {

/// Pluralizing suffix: empty for a count of one, `"s"` otherwise.
pub fn maybe_s(n: usize) -> (r: &'static str)
    ensures
        n == 1 ==> r@ == Seq::<char>::empty(),
        n != 1 ==> r@ =~= seq!['s'],
{
    proof {
        reveal_strlit("");
        reveal_strlit("s");
    }
    if n == 1 {
        ""
    } else {
        "s"
    }
}

/// The default value of a type, written without naming the type twice.
pub fn default<T: Default>() -> T {
    Default::default()
}

/// A whitespace-revealing replacement: a tab or a space becomes its Unicode
/// symbol, any other character stays itself.
pub open spec fn show_char(c: char) -> char {
    if c == '\t' {
        '\u{2409}'
    } else if c == ' ' {
        '\u{2420}'
    } else {
        c
    }
}

/// The text with every tab and space replaced by a visible symbol.
pub fn show_whitespace(text: &str) -> (r: String)
    ensures
        r@ == Seq::new(text@.len(), |i: int| show_char(text@[i])),
{
    let tlen = text.unicode_len();
    let mut out = String::new();
    let mut k: usize = 0;
    while k < tlen
        invariant
            k <= tlen,
            tlen == text@.len(),
            out@ == Seq::new(k as nat, |i: int| show_char(text@[i])),
        decreases tlen - k,
    {
        let c = text.get_char(k);
        let m = if c == '\t' {
            '\u{2409}'
        } else if c == ' ' {
            '\u{2420}'
        } else {
            c
        };
        push_char(&mut out, m);
        k = k + 1;
        proof {
            assert(out@ =~= Seq::new(k as nat, |i: int| show_char(text@[i])));
        }
    }
    out
}

/// The oxford-style tail of a conjoined list from index `k` on: every item
/// followed by `", "`, except the second-to-last, which is followed by `", "`,
/// the conjunction and a space, and the last, which ends the list.
pub open spec fn conjoin_oxford_from(vs: Seq<Seq<char>>, conj: Seq<char>, k: int) -> Seq<char>
    decreases vs.len() - k,
{
    if !(0 <= k < vs.len()) {
        Seq::empty()
    } else {
        vs[k] + (if k == vs.len() - 1 {
            Seq::<char>::empty()
        } else if k == vs.len() - 2 {
            seq![',', ' '] + conj + seq![' ']
        } else {
            seq![',', ' ']
        }) + conjoin_oxford_from(vs, conj, k + 1)
    }
}

/// A human-readable conjoined list: empty for no items, the item alone for
/// one, `"A <conj> B"` for two, and the Oxford-comma form for three or more.
pub open spec fn spec_conjoin(vs: Seq<Seq<char>>, conj: Seq<char>) -> Seq<char> {
    if vs.len() == 0 {
        Seq::empty()
    } else if vs.len() == 1 {
        vs[0]
    } else if vs.len() == 2 {
        vs[0] + seq![' '] + conj + seq![' '] + vs[1]
    } else {
        conjoin_oxford_from(vs, conj, 0)
    }
}

/// Joins the values into a human-readable list with the given conjunction.
pub fn conjoin(values: &Vec<String>, conjunction: &str) -> (r: String)
    ensures
        r@ == spec_conjoin(values.deep_view(), conjunction@),
{
    let ghost vs = values.deep_view();
    let mut out = String::new();
    if values.len() == 0 {
    } else if values.len() == 1 {
        out.append(values[0].as_str());
        proof {
            assert(out@ =~= vs[0]);
        }
    } else if values.len() == 2 {
        out.append(values[0].as_str());
        push_char(&mut out, ' ');
        out.append(conjunction);
        push_char(&mut out, ' ');
        out.append(values[1].as_str());
        proof {
            assert(out@ =~= vs[0] + seq![' '] + conjunction@ + seq![' '] + vs[1]);
        }
    } else {
        let mut i: usize = 0;
        while i < values.len()
            invariant
                i <= vs.len(),
                vs == values.deep_view(),
                vs.len() == values@.len(),
                vs.len() >= 3,
                conjoin_oxford_from(vs, conjunction@, 0) == out@ + conjoin_oxford_from(
                    vs,
                    conjunction@,
                    i as int,
                ),
            decreases vs.len() - i,
        {
            let ghost outold = out@;
            out.append(values[i].as_str());
            if i == values.len() - 1 {
                proof {
                    assert(out@ =~= outold + (vs[i as int] + Seq::<char>::empty()));
                }
            } else if i == values.len() - 2 {
                push_char(&mut out, ',');
                push_char(&mut out, ' ');
                out.append(conjunction);
                push_char(&mut out, ' ');
                proof {
                    assert(out@ =~= outold + (vs[i as int] + (seq![',', ' '] + conjunction@
                        + seq![' '])));
                }
            } else {
                push_char(&mut out, ',');
                push_char(&mut out, ' ');
                proof {
                    assert(out@ =~= outold + (vs[i as int] + seq![',', ' ']));
                }
            }
            proof {
                let seg = if i as int == vs.len() - 1 {
                    Seq::<char>::empty()
                } else if i as int == vs.len() - 2 {
                    seq![',', ' '] + conjunction@ + seq![' ']
                } else {
                    seq![',', ' ']
                };
                assert(conjoin_oxford_from(vs, conjunction@, i as int) == vs[i as int] + seg
                    + conjoin_oxford_from(vs, conjunction@, i as int + 1));
                assert(outold + (vs[i as int] + seg) + conjoin_oxford_from(
                    vs,
                    conjunction@,
                    i as int + 1,
                ) =~= outold + conjoin_oxford_from(vs, conjunction@, i as int));
            }
            i = i + 1;
        }
    }
    out
}

/// Items joined with `"and"`.
pub struct And(pub Vec<String>);

impl And {
    /// The items as a human-readable list joined with `"and"`.
    pub fn render(&self) -> (r: String)
        ensures
            r@ == spec_conjoin(self.0.deep_view(), "and"@),
    {
        conjoin(&self.0, "and")
    }
}

/// Items joined with `"or"`.
pub struct Or(pub Vec<String>);

impl Or {
    /// The items as a human-readable list joined with `"or"`.
    pub fn render(&self) -> (r: String)
        ensures
            r@ == spec_conjoin(self.0.deep_view(), "or"@),
    {
        conjoin(&self.0, "or")
    }
}

/// A value quoted in backticks.
pub struct Tick(pub String);

impl Tick {
    /// The value surrounded by backticks.
    pub fn render(&self) -> (r: String)
        ensures
            r@ == seq!['`'] + self.0@ + seq!['`'],
    {
        let mut out = String::new();
        push_char(&mut out, '`');
        out.append(self.0.as_str());
        push_char(&mut out, '`');
        proof {
            assert(out@ =~= seq!['`'] + self.0@ + seq!['`']);
        }
        out
    }
}

/// Wraps each value in backticks.
pub fn ticks(ts: &Vec<String>) -> (r: Vec<Tick>)
    ensures
        r@.len() == ts@.len(),
        forall|i: int| 0 <= i < r@.len() ==> (#[trigger] r@[i]).0@ == ts@[i]@,
{
    let mut r: Vec<Tick> = Vec::new();
    let mut k: usize = 0;
    while k < ts.len()
        invariant
            k <= ts@.len(),
            r@.len() == k,
            forall|i: int| 0 <= i < k ==> (#[trigger] r@[i]).0@ == ts@[i]@,
        decreases ts@.len() - k,
    {
        r.push(Tick(ts[k].clone()));
        k = k + 1;
    }
    r
}

/// The style of the error role.
pub open spec fn error_style() -> TextStyle {
    TextStyle { fg: Some(Hue::Red), bold: true }
}

/// The style whose escape codes surround the underline: the error role's
/// style when the policy is active, the plain style otherwise.
pub open spec fn effective_error_style(c: Color) -> TextStyle {
    if c.spec_active() {
        error_style()
    } else {
        plain_style()
    }
}

/// The rendered source context of a span: a gutter line, the source line with
/// tabs expanded behind its 1-based line number, and an underline of carets
/// placed under the span. A zero width is treated as one. When the line does
/// not exist, nothing is rendered if the offset sits at the very end of the
/// text, and a defect message naming the line number otherwise.
pub open spec fn spec_error_context(
    c: Color,
    text: Seq<char>,
    offset: int,
    line: int,
    column: int,
    width: int,
) -> Seq<char> {
    let w = if width == 0 {
        1int
    } else {
        width
    };
    let num = spec_dec(line + 1);
    let lns = lines_from(text, 0);
    if line < lns.len() {
        let l = lns[line];
        let est = effective_error_style(c);
        spaces(num.len() as int) + seq![' ', '|', '\n'] + num + seq![' ', '|', ' ']
            + expand_tabs_from(l, 0) + seq!['\n'] + spaces(num.len() as int) + seq![' ', '|', ' ']
            + spaces(space_col_from(l, 0, 0, column)) + spec_prefix(est) + repeat_char(
            '^',
            space_width_from(l, 0, 0, column, w),
        ) + spec_suffix(est)
    } else if offset == byte_len_from(text, 0) {
        Seq::<char>::empty()
    } else {
        "internal error: Error has invalid line number: "@ + num
    }
}

/// Renders the source context of a span under the given styling policy.
#[verifier::rlimit(50)]
pub fn write_error_context(
    color: Color,
    text: &str,
    offset: usize,
    line: usize,
    column: usize,
    width: usize,
) -> (r: String)
    requires
        line < usize::MAX,
        column < usize::MAX,
        column + width <= usize::MAX,
        4 * text@.len() + 4 <= usize::MAX,
    ensures
        r@ == spec_error_context(
            color,
            text@,
            offset as int,
            line as int,
            column as int,
            width as int,
        ),
{
    let w = if width == 0 {
        1
    } else {
        width
    };
    let red = color.error();
    let mut out = String::new();
    match find_line(text, line) {
        Some(rng) => {
            let (start, end) = rng;
            let lstr = text.substring_char(start, end);
            let ghost l = lines_from(text@, 0)[line as int];
            let scanned = scan_line(lstr, column, w);
            let sc = scanned.0;
            let sw = scanned.1;
            let expanded = scanned.2;
            let num = dec_digits(line + 1);
            let pre = red.prefix();
            let suf = red.suffix();
            push_repeat(&mut out, ' ', num.len());
            push_char(&mut out, ' ');
            push_char(&mut out, '|');
            push_char(&mut out, '\n');
            proof {
                assert(out@ =~= spaces(num@.len() as int) + seq![' ', '|', '\n']);
            }
            push_chars(&mut out, &num);
            push_char(&mut out, ' ');
            push_char(&mut out, '|');
            push_char(&mut out, ' ');
            out.append(expanded.as_str());
            push_char(&mut out, '\n');
            proof {
                assert(out@ =~= spaces(num@.len() as int) + seq![' ', '|', '\n'] + num@ + seq![
                    ' ',
                    '|',
                    ' ',
                ] + expand_tabs_from(l, 0) + seq!['\n']);
            }
            push_repeat(&mut out, ' ', num.len());
            push_char(&mut out, ' ');
            push_char(&mut out, '|');
            push_char(&mut out, ' ');
            push_repeat(&mut out, ' ', sc);
            out.append(pre.as_str());
            push_repeat(&mut out, '^', sw);
            out.append(suf.as_str());
            proof {
                let est = effective_error_style(color);
                assert(red.spec_effective() == est);
                assert(out@ =~= spaces(num@.len() as int) + seq![' ', '|', '\n'] + num@ + seq![
                    ' ',
                    '|',
                    ' ',
                ] + expand_tabs_from(l, 0) + seq!['\n'] + spaces(num@.len() as int) + seq![
                    ' ',
                    '|',
                    ' ',
                ] + spaces(space_col_from(l, 0, 0, column as int)) + spec_prefix(est)
                    + repeat_char('^', space_width_from(l, 0, 0, column as int, w as int))
                    + spec_suffix(est));
            }
        },
        None => {
            let tbytes = text_byte_len(text);
            if offset != tbytes {
                out.append("internal error: Error has invalid line number: ");
                let num = dec_digits(line + 1);
                push_chars(&mut out, &num);
                proof {
                    assert(out@ =~= "internal error: Error has invalid line number: "@ + spec_dec(
                        line as int + 1,
                    ));
                }
            }
        },
    }
    out
}

/// A zero-width span renders exactly as a width-one span: the degenerate
/// width is normalized, never dropped.
pub proof fn lemma_zero_width_span(c: Color, text: Seq<char>, offset: int, line: int, column: int)
    ensures
        spec_error_context(c, text, offset, line, column, 0) == spec_error_context(
            c,
            text,
            offset,
            line,
            column,
            1,
        ),
{
}

/// When the requested line does not exist, nothing is rendered if the offset
/// sits at the very end of the text, and otherwise a defect message naming
/// the 1-based line number is rendered.
pub proof fn lemma_missing_line(
    c: Color,
    text: Seq<char>,
    offset: int,
    line: int,
    column: int,
    width: int,
)
    requires
        lines_from(text, 0).len() <= line,
    ensures
        offset == byte_len_from(text, 0) ==> spec_error_context(
            c,
            text,
            offset,
            line,
            column,
            width,
        ) == Seq::<char>::empty(),
        offset != byte_len_from(text, 0) ==> spec_error_context(
            c,
            text,
            offset,
            line,
            column,
            width,
        ) == "internal error: Error has invalid line number: "@ + spec_dec(line + 1),
{
}

} // verus!
