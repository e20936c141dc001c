//! Styled text as the views build it: spans of text, each with a colour and
//! text attributes, grouped into lines.
use vstd::prelude::*;

use crate::text::{push_str, string_of};

verus! {

/// A foreground colour.
#[derive(Clone, Copy, Debug, PartialEq, Eq, Structural)]
pub enum Tone {
    /// The terminal's own colour (no colour set).
    Default,
    Red,
    Green,
    Yellow,
    Blue,
    Magenta,
    Cyan,
    Gray,
    DarkGray,
    LightBlue,
    White,
    Rgb(u8, u8, u8),
}

/// Colour and attributes of a span.
#[derive(Clone, Copy, Debug, PartialEq, Eq, Structural)]
pub struct TextStyle {
    pub fg: Tone,
    pub bold: bool,
    pub italic: bool,
    pub crossed_out: bool,
    pub underlined: bool,
}

/// A run of text in one style.
#[derive(Clone, Debug)]
pub struct StyledSpan {
    pub text: String,
    pub style: TextStyle,
}

impl DeepView for StyledSpan {
    type V = (Seq<char>, TextStyle);

    open spec fn deep_view(&self) -> (Seq<char>, TextStyle) {
        (self.text@, self.style)
    }
}

/// A line of styled spans.
pub type StyledLine = Vec<StyledSpan>;

/// The plain style: no colour, no attributes.
pub open spec fn plain_style() -> TextStyle {
    TextStyle { fg: Tone::Default, bold: false, italic: false, crossed_out: false, underlined: false }
}

/// A style with only a foreground colour.
pub open spec fn fg_style(t: Tone) -> TextStyle {
    TextStyle { fg: t, bold: false, italic: false, crossed_out: false, underlined: false }
}

/// A style with only a foreground colour.
pub fn fg(t: Tone) -> (s: TextStyle)
    ensures
        s == fg_style(t),
{
    TextStyle { fg: t, bold: false, italic: false, crossed_out: false, underlined: false }
}

/// A bold style in colour `t`.
pub fn fg_bold(t: Tone) -> (s: TextStyle)
    ensures
        s == (TextStyle { bold: true, ..fg_style(t) }),
{
    TextStyle { fg: t, bold: true, italic: false, crossed_out: false, underlined: false }
}

/// A span holding a copy of `text` in `style`.
pub fn span(text: &str, style: TextStyle) -> (r: StyledSpan)
    ensures
        r.deep_view() == (text@, style),
{
    let mut s = String::new();
    push_str(&mut s, text);
    assert(s@ =~= text@);
    StyledSpan { text: s, style }
}

/// A span of `text` in the plain style.
pub fn raw_span(text: &str) -> (r: StyledSpan)
    ensures
        r.deep_view() == (text@, plain_style()),
{
    span(text, TextStyle { fg: Tone::Default, bold: false, italic: false, crossed_out: false, underlined: false })
}

/// A span holding the characters of `v` in `style`.
pub fn span_of_chars(v: &Vec<char>, style: TextStyle) -> (r: StyledSpan)
    ensures
        r.deep_view() == (v@, style),
{
    StyledSpan { text: string_of(v), style }
}

/// A line with no spans.
pub fn empty_line() -> (l: StyledLine)
    ensures
        l.deep_view() == Seq::<(Seq<char>, TextStyle)>::empty(),
{
    let l: StyledLine = Vec::new();
    assert(l.deep_view() =~= Seq::<(Seq<char>, TextStyle)>::empty());
    l
}

/// Appends a span to a line.
pub fn push_span(line: &mut StyledLine, s: StyledSpan)
    ensures
        final(line).deep_view() == old(line).deep_view().push(s.deep_view()),
{
    line.push(s);
    assert(final(line).deep_view() =~= old(line).deep_view().push(s.deep_view()));
}

/// Appends the spans of `more` to a line.
pub fn append_spans(line: &mut StyledLine, more: StyledLine)
    ensures
        final(line).deep_view() == old(line).deep_view() + more.deep_view(),
{
    let ghost added = more.deep_view();
    let mut more = more;
    line.append(&mut more);
    assert(line.deep_view() =~= old(line).deep_view() + added);
}

/// Appends a line to a list of lines.
pub fn push_line(lines: &mut Vec<StyledLine>, l: StyledLine)
    ensures
        final(lines).deep_view() == old(lines).deep_view().push(l.deep_view()),
{
    lines.push(l);
    assert(final(lines).deep_view() =~= old(lines).deep_view().push(l.deep_view()));
}

} // verus!
