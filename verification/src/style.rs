use vstd::prelude::*;

verus! {

/// A terminal colour, mirroring the palette of the terminal backend.
#[derive(Clone, Copy, Debug, PartialEq, Eq, Structural)]
pub enum Color {
    Reset,
    Black,
    Red,
    Green,
    Yellow,
    Blue,
    Magenta,
    Cyan,
    Gray,
    DarkGray,
    LightRed,
    LightGreen,
    LightYellow,
    LightBlue,
    LightMagenta,
    LightCyan,
    White,
    Rgb(u8, u8, u8),
}

/// Text modifier bits (a set of flags, combined with `|`).
pub const BOLD: u16 = 1;
pub const DIM: u16 = 2;
pub const ITALIC: u16 = 4;
pub const UNDERLINED: u16 = 8;
pub const SLOW_BLINK: u16 = 16;
pub const RAPID_BLINK: u16 = 32;
pub const REVERSED: u16 = 64;
pub const HIDDEN: u16 = 128;
pub const CROSSED_OUT: u16 = 256;

/// A text style: optional colours plus modifiers to add and to remove.
#[derive(Clone, Copy, Debug, PartialEq, Eq, Structural)]
pub struct Style {
    pub fg: Option<Color>,
    pub bg: Option<Color>,
    pub add_modifier: u16,
    pub sub_modifier: u16,
}

pub open spec fn default_style() -> Style {
    Style { fg: None, bg: None, add_modifier: 0, sub_modifier: 0 }
}

pub open spec fn spec_add_modifier(s: Style, m: u16) -> Style {
    Style { fg: s.fg, bg: s.bg, add_modifier: s.add_modifier | m, sub_modifier: s.sub_modifier & !m }
}

pub open spec fn spec_patch(base: Style, other: Style) -> Style {
    Style {
        fg: if other.fg is Some { other.fg } else { base.fg },
        bg: if other.bg is Some { other.bg } else { base.bg },
        add_modifier: (base.add_modifier & !other.sub_modifier) | other.add_modifier,
        sub_modifier: (base.sub_modifier & !other.add_modifier) | other.sub_modifier,
    }
}

impl Style {
    /// The empty style.
    pub fn new() -> (r: Style)
        ensures
            r == default_style(),
    {
        Style { fg: None, bg: None, add_modifier: 0, sub_modifier: 0 }
    }

    /// Sets the foreground colour.
    pub fn fg(self, c: Color) -> (r: Style)
        ensures
            r == (Style { fg: Some(c), ..self }),
    {
        Style { fg: Some(c), ..self }
    }

    /// Sets the background colour.
    pub fn bg(self, c: Color) -> (r: Style)
        ensures
            r == (Style { bg: Some(c), ..self }),
    {
        Style { bg: Some(c), ..self }
    }

    /// Adds modifiers; they are no longer removed.
    pub fn add_modifier(self, m: u16) -> (r: Style)
        ensures
            r == spec_add_modifier(self, m),
    {
        Style { fg: self.fg, bg: self.bg, add_modifier: self.add_modifier | m, sub_modifier: self.sub_modifier & !m }
    }

    /// Lays `other` over `self`: colours set in `other` win, modifiers combine.
    pub fn patch(self, other: Style) -> (r: Style)
        ensures
            r == spec_patch(self, other),
    {
        let fg = match other.fg {
            Some(c) => Some(c),
            None => self.fg,
        };
        let bg = match other.bg {
            Some(c) => Some(c),
            None => self.bg,
        };
        Style {
            fg,
            bg,
            add_modifier: (self.add_modifier & !other.sub_modifier) | other.add_modifier,
            sub_modifier: (self.sub_modifier & !other.add_modifier) | other.sub_modifier,
        }
    }
}

/// A run of text with one style.
#[derive(Debug)]
pub struct Span {
    pub content: String,
    pub style: Style,
}

/// One line of styled text; `style` applies under every span.
#[derive(Debug)]
pub struct Line {
    pub spans: Vec<Span>,
    pub style: Style,
}

/// Styled text as a list of lines.
#[derive(Debug)]
pub struct Text {
    pub lines: Vec<Line>,
}

/// The characters of a list of spans, one after another.
pub open spec fn spans_text(spans: Seq<Span>) -> Seq<char>
    decreases spans.len(),
{
    if spans.len() == 0 {
        Seq::empty()
    } else {
        spans_text(spans.drop_last()) + spans.last().content@
    }
}

/// The characters a line shows.
pub open spec fn line_text(l: Line) -> Seq<char> {
    spans_text(l.spans@)
}

/// The characters of each line of a text.
pub open spec fn text_lines(t: Text) -> Seq<Seq<char>> {
    t.lines@.map_values(|l: Line| line_text(l))
}

impl Span {
    /// An unstyled span.
    pub fn raw(content: String) -> (r: Span)
        ensures
            r.content@ == content@,
            r.style == default_style(),
    {
        Span { content, style: Style::new() }
    }

    /// A span with the given style.
    pub fn styled(content: String, style: Style) -> (r: Span)
        ensures
            r.content@ == content@,
            r.style == style,
    {
        Span { content, style }
    }
}

impl Line {
    /// A line without spans.
    pub fn empty() -> (r: Line)
        ensures
            r.spans@.len() == 0,
            r.style == default_style(),
    {
        Line { spans: Vec::new(), style: Style::new() }
    }

    /// A line made of the given spans.
    pub fn from_spans(spans: Vec<Span>) -> (r: Line)
        ensures
            r.spans@ == spans@,
            r.style == default_style(),
    {
        Line { spans, style: Style::new() }
    }

    /// A line of one unstyled span holding `content` (which may be empty).
    pub fn from_string(content: String) -> (r: Line)
        ensures
            r.spans@.len() == 1,
            r.spans@[0].content@ == content@,
            r.spans@[0].style == default_style(),
            r.style == default_style(),
    {
        let mut spans = Vec::new();
        spans.push(Span::raw(content));
        Line { spans, style: Style::new() }
    }

    /// A line whose own style is `style`, holding `content` as one raw span;
    /// `content` holds no line feed; one trailing carriage return is
    /// dropped, and an empty `content` gives no span.
    pub fn styled(content: String, style: Style) -> (r: Line)
        requires
            !content@.contains('\n'),
        ensures
            r.style == style,
            content@.len() == 0 ==> r.spans@.len() == 0,
            content@.len() > 0 ==> r.spans@.len() == 1 && r.spans@[0].style == default_style()
                && r.spans@[0].content@ == (if content@.last() == '\r' { content@.drop_last() } else { content@ }),
    {
        let mut spans = Vec::new();
        if !content.as_str().is_empty() {
            let v = crate::text::to_chars(content.as_str());
            if v[v.len() - 1] == '\r' {
                spans.push(Span::raw(crate::text::string_of_range(&v, 0, v.len() - 1)));
            } else {
                spans.push(Span::raw(content));
            }
        }
        Line { spans, style }
    }
}

impl Text {
    /// Text without lines.
    pub fn new() -> (r: Text)
        ensures
            r.lines@.len() == 0,
    {
        Text { lines: Vec::new() }
    }

    /// Appends a line.
    pub fn push_line(&mut self, line: Line)
        ensures
            final(self).lines@ == old(self).lines@.push(line),
    {
        self.lines.push(line);
    }
}

} // verus!
