//! Styling policy: decides whether ANSI escape codes are applied and exposes
//! the escape prefix and suffix of the selected semantic role.

use vstd::prelude::*;

verus! {

/// When styling is applied: always, never, or only when the bound stream is a
/// terminal.
#[derive(Copy, Clone)]
pub enum UseColor {
    Always,
    Never,
    Auto,
}

/// The foreground colours the semantic roles use.
#[derive(Copy, Clone)]
pub enum Hue {
    Blue,
    Red,
    Yellow,
    Cyan,
    Purple,
    Green,
}

/// A role's visual style: an optional foreground colour and a bold flag.
#[derive(Copy, Clone)]
pub struct TextStyle {
    pub fg: Option<Hue>,
    pub bold: bool,
}

/// The style that writes no escape codes at all.
pub open spec fn plain_style() -> TextStyle {
    TextStyle { fg: None, bold: false }
}

/// Second digit of the SGR foreground code of a colour (the code is `3x`).
pub open spec fn fg_code(h: Hue) -> char {
    match h {
        Hue::Red => '1',
        Hue::Green => '2',
        Hue::Yellow => '3',
        Hue::Blue => '4',
        Hue::Purple => '5',
        Hue::Cyan => '6',
    }
}

/// The SGR escape sequence that introduces a style: nothing for the plain
/// style, otherwise `ESC [`, a `1` for bold, the foreground code, both
/// separated by `;` when present, and a final `m`.
pub open spec fn spec_prefix(s: TextStyle) -> Seq<char> {
    match (s.fg, s.bold) {
        (Option::None, false) => Seq::<char>::empty(),
        (Option::None, true) => seq!['\u{1b}', '[', '1', 'm'],
        (Option::Some(h), false) => seq!['\u{1b}', '[', '3', fg_code(h), 'm'],
        (Option::Some(h), true) => seq!['\u{1b}', '[', '1', ';', '3', fg_code(h), 'm'],
    }
}

/// The SGR escape sequence that closes a style: nothing for the plain style,
/// otherwise the reset sequence `ESC [ 0 m`.
pub open spec fn spec_suffix(s: TextStyle) -> Seq<char> {
    if s.fg is None && !s.bold {
        Seq::<char>::empty()
    } else {
        seq!['\u{1b}', '[', '0', 'm']
    }
}

/// Relies on `ansi_term::Style::prefix` and `Display for ansi_term::Prefix`
/// (`write_prefix` in its `ansi` module): a plain style writes nothing;
/// otherwise `ESC [`, `1` if bold, then the foreground code `3x`
/// (Red 31 .. Cyan 36), semicolon-separated, then `m`.
#[verifier::external_body]
fn ansi_prefix(style: TextStyle) -> (r: String)
    ensures
        r@ == spec_prefix(style),
{
    let s = ansi_term::Style {
        foreground: match style.fg {
            None => None,
            Some(Hue::Blue) => Some(ansi_term::Color::Blue),
            Some(Hue::Red) => Some(ansi_term::Color::Red),
            Some(Hue::Yellow) => Some(ansi_term::Color::Yellow),
            Some(Hue::Cyan) => Some(ansi_term::Color::Cyan),
            Some(Hue::Purple) => Some(ansi_term::Color::Purple),
            Some(Hue::Green) => Some(ansi_term::Color::Green),
        },
        is_bold: style.bold,
        ..ansi_term::Style::default()
    };
    s.prefix().to_string()
}

/// Relies on `ansi_term::Style::suffix` and `Display for ansi_term::Suffix`
/// (`write_suffix` in its `ansi` module): a plain style writes nothing,
/// any other style writes the reset sequence `RESET`, which is `ESC [ 0 m`.
#[verifier::external_body]
fn ansi_suffix(style: TextStyle) -> (r: String)
    ensures
        r@ == spec_suffix(style),
{
    let s = ansi_term::Style {
        foreground: match style.fg {
            None => None,
            Some(Hue::Blue) => Some(ansi_term::Color::Blue),
            Some(Hue::Red) => Some(ansi_term::Color::Red),
            Some(Hue::Yellow) => Some(ansi_term::Color::Yellow),
            Some(Hue::Cyan) => Some(ansi_term::Color::Cyan),
            Some(Hue::Purple) => Some(ansi_term::Color::Purple),
            Some(Hue::Green) => Some(ansi_term::Color::Green),
        },
        is_bold: style.bold,
        ..ansi_term::Style::default()
    };
    s.suffix().to_string()
}

/// Relies on `ansi_term::Style::paint` and `Display for ANSIGenericString`:
/// it writes the style's prefix, the text itself, and the style's suffix.
#[verifier::external_body]
fn ansi_paint(style: TextStyle, text: &str) -> (r: String)
    ensures
        r@ == spec_prefix(style) + text@ + spec_suffix(style),
{
    let s = ansi_term::Style {
        foreground: match style.fg {
            None => None,
            Some(Hue::Blue) => Some(ansi_term::Color::Blue),
            Some(Hue::Red) => Some(ansi_term::Color::Red),
            Some(Hue::Yellow) => Some(ansi_term::Color::Yellow),
            Some(Hue::Cyan) => Some(ansi_term::Color::Cyan),
            Some(Hue::Purple) => Some(ansi_term::Color::Purple),
            Some(Hue::Green) => Some(ansi_term::Color::Green),
        },
        is_bold: style.bold,
        ..ansi_term::Style::default()
    };
    s.paint(text).to_string()
}

/// The stream a policy is bound to for terminal detection.
#[derive(Copy, Clone)]
pub enum OutputStream {
    Stdout,
    Stderr,
}

/// Relies on `atty::is`: true iff the chosen stream is attached to a
/// terminal. The answer depends on the environment, so nothing is promised
/// of the result.
#[verifier::external_body]
fn stream_is_tty(stream: OutputStream) -> bool {
    match stream {
        OutputStream::Stdout => atty::is(atty::Stream::Stdout),
        OutputStream::Stderr => atty::is(atty::Stream::Stderr),
    }
}

/// Styling policy: a colour mode, whether the bound stream is a terminal,
/// and the style of the selected semantic role.
#[derive(Copy, Clone)]
pub struct Color {
    use_color: UseColor,
    atty: bool,
    style: TextStyle,
}

impl Color {
    pub closed spec fn spec_mode(&self) -> UseColor {
        self.use_color
    }

    pub closed spec fn spec_is_tty(&self) -> bool {
        self.atty
    }

    pub closed spec fn spec_style(&self) -> TextStyle {
        self.style
    }

    /// Styling is on exactly when the mode is `Always`, or the mode is `Auto`
    /// and the bound stream is a terminal.
    pub open spec fn spec_active(&self) -> bool {
        match self.spec_mode() {
            UseColor::Always => true,
            UseColor::Never => false,
            UseColor::Auto => self.spec_is_tty(),
        }
    }

    /// The style escape codes are produced from: the selected role's style
    /// when active, the plain style otherwise.
    pub open spec fn spec_effective(&self) -> TextStyle {
        if self.spec_active() {
            self.spec_style()
        } else {
            plain_style()
        }
    }

    /// What painting a text returns: the text bracketed by the effective
    /// style's escape prefix and suffix (both empty when inactive).
    pub open spec fn spec_paint(&self, text: Seq<char>) -> Seq<char> {
        spec_prefix(self.spec_effective()) + text + spec_suffix(self.spec_effective())
    }

    fn restyle(self, style: TextStyle) -> (r: Color)
        ensures
            r.spec_mode() == self.spec_mode(),
            r.spec_is_tty() == self.spec_is_tty(),
            r.spec_style() == style,
    {
        Color { style, ..self }
    }

    fn redirect(self, stream: OutputStream) -> (r: Color)
        ensures
            r.spec_mode() == self.spec_mode(),
            r.spec_style() == self.spec_style(),
    {
        Color { atty: stream_is_tty(stream), ..self }
    }

    fn effective_style(&self) -> (r: TextStyle)
        ensures
            r == self.spec_effective(),
    {
        if self.active() {
            self.style
        } else {
            TextStyle { fg: None, bold: false }
        }
    }

    /// The policy a formatting context selects: styled output when the caller
    /// asked for the alternate form, plain output otherwise.
    pub fn fmt(alternate: bool) -> (r: Color)
        ensures
            r.spec_mode() == (if alternate { UseColor::Always } else { UseColor::Never }),
            !r.spec_is_tty(),
            r.spec_style() == plain_style(),
    {
        if alternate {
            Color::always()
        } else {
            Color::never()
        }
    }

    pub fn auto() -> (r: Color)
        ensures
            r.spec_mode() == UseColor::Auto,
            !r.spec_is_tty(),
            r.spec_style() == plain_style(),
    {
        Color { use_color: UseColor::Auto, ..Color::default() }
    }

    pub fn always() -> (r: Color)
        ensures
            r.spec_mode() == UseColor::Always,
            !r.spec_is_tty(),
            r.spec_style() == plain_style(),
    {
        Color { use_color: UseColor::Always, ..Color::default() }
    }

    pub fn never() -> (r: Color)
        ensures
            r.spec_mode() == UseColor::Never,
            !r.spec_is_tty(),
            r.spec_style() == plain_style(),
    {
        Color { use_color: UseColor::Never, ..Color::default() }
    }

    /// Binds the policy to stderr: terminal detection is re-queried there.
    pub fn stderr(self) -> (r: Color)
        ensures
            r.spec_mode() == self.spec_mode(),
            r.spec_style() == self.spec_style(),
    {
        self.redirect(OutputStream::Stderr)
    }

    /// Binds the policy to stdout: terminal detection is re-queried there.
    pub fn stdout(self) -> (r: Color)
        ensures
            r.spec_mode() == self.spec_mode(),
            r.spec_style() == self.spec_style(),
    {
        self.redirect(OutputStream::Stdout)
    }

    pub fn doc(self) -> (r: Color)
        ensures
            r.spec_mode() == self.spec_mode(),
            r.spec_is_tty() == self.spec_is_tty(),
            r.spec_style() == (TextStyle { fg: Some(Hue::Blue), bold: false }),
    {
        self.restyle(TextStyle { fg: Some(Hue::Blue), bold: false })
    }

    pub fn error(self) -> (r: Color)
        ensures
            r.spec_mode() == self.spec_mode(),
            r.spec_is_tty() == self.spec_is_tty(),
            r.spec_style() == (TextStyle { fg: Some(Hue::Red), bold: true }),
    {
        self.restyle(TextStyle { fg: Some(Hue::Red), bold: true })
    }

    pub fn warning(self) -> (r: Color)
        ensures
            r.spec_mode() == self.spec_mode(),
            r.spec_is_tty() == self.spec_is_tty(),
            r.spec_style() == (TextStyle { fg: Some(Hue::Yellow), bold: true }),
    {
        self.restyle(TextStyle { fg: Some(Hue::Yellow), bold: true })
    }

    pub fn banner(self) -> (r: Color)
        ensures
            r.spec_mode() == self.spec_mode(),
            r.spec_is_tty() == self.spec_is_tty(),
            r.spec_style() == (TextStyle { fg: Some(Hue::Cyan), bold: true }),
    {
        self.restyle(TextStyle { fg: Some(Hue::Cyan), bold: true })
    }

    pub fn command(self) -> (r: Color)
        ensures
            r.spec_mode() == self.spec_mode(),
            r.spec_is_tty() == self.spec_is_tty(),
            r.spec_style() == (TextStyle { fg: None, bold: true }),
    {
        self.restyle(TextStyle { fg: None, bold: true })
    }

    pub fn parameter(self) -> (r: Color)
        ensures
            r.spec_mode() == self.spec_mode(),
            r.spec_is_tty() == self.spec_is_tty(),
            r.spec_style() == (TextStyle { fg: Some(Hue::Cyan), bold: false }),
    {
        self.restyle(TextStyle { fg: Some(Hue::Cyan), bold: false })
    }

    pub fn message(self) -> (r: Color)
        ensures
            r.spec_mode() == self.spec_mode(),
            r.spec_is_tty() == self.spec_is_tty(),
            r.spec_style() == (TextStyle { fg: None, bold: true }),
    {
        self.restyle(TextStyle { fg: None, bold: true })
    }

    pub fn annotation(self) -> (r: Color)
        ensures
            r.spec_mode() == self.spec_mode(),
            r.spec_is_tty() == self.spec_is_tty(),
            r.spec_style() == (TextStyle { fg: Some(Hue::Purple), bold: false }),
    {
        self.restyle(TextStyle { fg: Some(Hue::Purple), bold: false })
    }

    pub fn string(self) -> (r: Color)
        ensures
            r.spec_mode() == self.spec_mode(),
            r.spec_is_tty() == self.spec_is_tty(),
            r.spec_style() == (TextStyle { fg: Some(Hue::Green), bold: false }),
    {
        self.restyle(TextStyle { fg: Some(Hue::Green), bold: false })
    }

    pub fn active(&self) -> (r: bool)
        ensures
            r == self.spec_active(),
    {
        match self.use_color {
            UseColor::Always => true,
            UseColor::Never => false,
            UseColor::Auto => self.atty,
        }
    }

    /// The text bracketed by the effective style's escape codes; the text
    /// unchanged when styling is off.
    pub fn paint(&self, text: &str) -> (r: String)
        ensures
            r@ == self.spec_paint(text@),
            !self.spec_active() ==> r@ == text@,
    {
        let r = ansi_paint(self.effective_style(), text);
        proof {
            if !self.spec_active() {
                assert(r@ =~= text@);
            }
        }
        r
    }

    /// The effective style's escape prefix; empty when styling is off.
    pub fn prefix(&self) -> (r: String)
        ensures
            r@ == spec_prefix(self.spec_effective()),
            !self.spec_active() ==> r@ == Seq::<char>::empty(),
    {
        ansi_prefix(self.effective_style())
    }

    /// The effective style's escape suffix; empty when styling is off.
    pub fn suffix(&self) -> (r: String)
        ensures
            r@ == spec_suffix(self.spec_effective()),
            !self.spec_active() ==> r@ == Seq::<char>::empty(),
    {
        ansi_suffix(self.effective_style())
    }
}

impl Default for Color {
    /// The inert policy: never style, not a terminal, plain style.
    fn default() -> (r: Color)
        ensures
            r.spec_mode() == UseColor::Never,
            !r.spec_is_tty(),
            r.spec_style() == plain_style(),
    {
        Color { use_color: UseColor::Never, atty: false, style: TextStyle { fg: None, bold: false } }
    }
}

/// A policy in `Never` mode never styles: painting returns the text
/// unchanged and both escape codes are empty, whatever the selected role and
/// whatever the terminal attachment.
pub proof fn lemma_never_is_plain(c: Color, text: Seq<char>)
    requires
        c.spec_mode() == UseColor::Never,
    ensures
        c.spec_paint(text) == text,
        spec_prefix(c.spec_effective()) == Seq::<char>::empty(),
        spec_suffix(c.spec_effective()) == Seq::<char>::empty(),
{
    assert(c.spec_paint(text) =~= text);
}

/// Styling is active exactly when the mode is `Always`, or the mode is
/// `Auto` and the bound stream is a terminal.
pub proof fn lemma_active_characterization(c: Color)
    ensures
        c.spec_active() <==> (c.spec_mode() == UseColor::Always || (c.spec_mode()
            == UseColor::Auto && c.spec_is_tty())),
{
}

/// In `Always` mode styling is active whatever the terminal attachment.
pub proof fn lemma_always_active(c: Color)
    requires
        c.spec_mode() == UseColor::Always,
    ensures
        c.spec_active(),
{
}

/// In `Auto` mode styling is active exactly when the bound stream is a
/// terminal.
pub proof fn lemma_auto_tracks_tty(c: Color)
    requires
        c.spec_mode() == UseColor::Auto,
    ensures
        c.spec_active() == c.spec_is_tty(),
{
}

} // verus!
