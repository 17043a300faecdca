use vstd::prelude::*;
use syntect::easy::HighlightLines;
use syntect::highlighting::Theme as SynTheme;
use syntect::parsing::{SyntaxReference, SyntaxSet};
use crate::text::{concat_all, to_chars, str_eq, trim, to_lowercase, replace_char};
use crate::theme::{hex_pair, hex_pair_of, normalize_color_name, lookup_value};
use syntect::highlighting::{ScopeSelectors, ThemeItem, StyleModifier, FontStyle, Color as SynColor, ThemeSet};
use std::str::FromStr;

verus! {

#[verifier::external_type_specification]
#[verifier::external_body]
pub struct ExSyntaxSet(SyntaxSet);

#[verifier::external_type_specification]
#[verifier::external_body]
pub struct ExSyntaxReference(SyntaxReference);

#[verifier::external_type_specification]
#[verifier::external_body]
pub struct ExSynTheme(SynTheme);

#[verifier::external_type_specification]
#[verifier::external_body]
pub struct ExHighlightLines<'a>(HighlightLines<'a>);

/// An RGBA colour of the highlighter.
#[derive(Clone, Copy, Debug, PartialEq, Eq, Structural)]
pub struct SynRgb {
    pub r: u8,
    pub g: u8,
    pub b: u8,
    pub a: u8,
}

/// `SyntaxSet::find_syntax_by_token`: the syntax whose extension or name
/// matches `token`. Which syntax a set holds is not stated.
#[verifier::external_body]
pub fn find_syntax_by_token<'a>(ss: &'a SyntaxSet, token: &str) -> Option<&'a SyntaxReference> {
    ss.find_syntax_by_token(token)
}

/// `SyntaxSet::find_syntax_by_name`: the syntax called `name`, if the set
/// holds one. Which syntaxes a set holds is not stated.
#[verifier::external_body]
pub fn find_syntax_by_name<'a>(ss: &'a SyntaxSet, name: &str) -> Option<&'a SyntaxReference> {
    ss.find_syntax_by_name(name)
}

/// `HighlightLines::new`: a highlighter for `syntax` in `theme`, starting in
/// the syntax's initial state.
#[verifier::external_body]
pub fn new_highlighter<'a>(syntax: &SyntaxReference, theme: &'a SynTheme) -> HighlightLines<'a> {
    HighlightLines::new(syntax, theme)
}

/// `HighlightLines::highlight_line`: the line cut into runs, each with its
/// foreground colour, advancing the highlighter's state. syntect documents
/// that the runs together make up the line, which is stated; on an error
/// the result is empty. Which colour each run gets is not stated.
#[verifier::external_body]
pub fn highlight_line(h: &mut HighlightLines, line: &str, ss: &SyntaxSet) -> (r: Vec<(SynRgb, String)>)
    ensures
        r@.len() == 0 || concat_all(r@.map_values(|p: (SynRgb, String)| p.1@)) == line@,
{
    match h.highlight_line(line, ss) {
        Ok(ranges) => ranges.into_iter().map(|(st, seg)| {
            let c = st.foreground;
            (SynRgb { r: c.r, g: c.g, b: c.b, a: c.a }, seg.to_string())
        }).collect(),
        Err(_) => Vec::new(),
    }
}

/// The terminal colour for a highlighter colour (its alpha is dropped).
pub fn syn_to_color(c: SynRgb) -> (r: crate::style::Color)
    ensures
        r == crate::style::Color::Rgb(c.r, c.g, c.b),
{
    crate::style::Color::Rgb(c.r, c.g, c.b)
}


pub open spec fn rgb(r: u8, g: u8, b: u8) -> SynRgb {
    SynRgb { r, g, b, a: 0xff }
}

/// The highlighter colour a normalised colour name stands for.
pub open spec fn syn_color_by_name(t: Seq<char>) -> Option<SynRgb> {
    if t == "black"@ { Some(rgb(0, 0, 0)) }
    else if t == "red"@ { Some(rgb(0xff, 0, 0)) }
    else if t == "green"@ { Some(rgb(0, 0x80, 0)) }
    else if t == "yellow"@ { Some(rgb(0xff, 0xff, 0)) }
    else if t == "blue"@ { Some(rgb(0, 0, 0xff)) }
    else if t == "magenta"@ { Some(rgb(0xff, 0, 0xff)) }
    else if t == "cyan"@ { Some(rgb(0, 0xff, 0xff)) }
    else if t == "white"@ { Some(rgb(0xff, 0xff, 0xff)) }
    else if t == "gray"@ || t == "grey"@ { Some(rgb(0x80, 0x80, 0x80)) }
    else if t == "dark_gray"@ || t == "dark_grey"@ { Some(rgb(0x40, 0x40, 0x40)) }
    else if t == "light_red"@ { Some(rgb(0xff, 0x66, 0x66)) }
    else if t == "light_green"@ { Some(rgb(0x66, 0xff, 0x66)) }
    else if t == "light_yellow"@ { Some(rgb(0xff, 0xff, 0x99)) }
    else if t == "light_blue"@ { Some(rgb(0x66, 0x99, 0xff)) }
    else if t == "light_magenta"@ { Some(rgb(0xff, 0x66, 0xff)) }
    else if t == "light_cyan"@ { Some(rgb(0x99, 0xff, 0xff)) }
    else if t.len() == 7 && t[0] == '#' {
        match (hex_pair(t[1], t[2]), hex_pair(t[3], t[4]), hex_pair(t[5], t[6])) {
            (Some(r), Some(g), Some(b)) => Some(rgb(r, g, b)),
            _ => None,
        }
    }
    else { None }
}

/// Parses a colour for a custom highlighting theme: a named colour or
/// `#rrggbb`, opaque. A `#` followed by six bytes of text that are not six
/// ASCII characters gives `None`.
pub fn syn_color_from_str(s: &str) -> (r: Option<SynRgb>)
    ensures
        r == syn_color_by_name(normalize_color_name(s@)),
{
    let t0 = trim(s);
    let t1 = to_lowercase(t0.as_str());
    let t2 = replace_char(t1.as_str(), '-', '_');
    let t = t2.as_str();
    if str_eq(t, "black") { Some(SynRgb { r: 0, g: 0, b: 0, a: 0xff }) }
    else if str_eq(t, "red") { Some(SynRgb { r: 0xff, g: 0, b: 0, a: 0xff }) }
    else if str_eq(t, "green") { Some(SynRgb { r: 0, g: 0x80, b: 0, a: 0xff }) }
    else if str_eq(t, "yellow") { Some(SynRgb { r: 0xff, g: 0xff, b: 0, a: 0xff }) }
    else if str_eq(t, "blue") { Some(SynRgb { r: 0, g: 0, b: 0xff, a: 0xff }) }
    else if str_eq(t, "magenta") { Some(SynRgb { r: 0xff, g: 0, b: 0xff, a: 0xff }) }
    else if str_eq(t, "cyan") { Some(SynRgb { r: 0, g: 0xff, b: 0xff, a: 0xff }) }
    else if str_eq(t, "white") { Some(SynRgb { r: 0xff, g: 0xff, b: 0xff, a: 0xff }) }
    else if str_eq(t, "gray") || str_eq(t, "grey") { Some(SynRgb { r: 0x80, g: 0x80, b: 0x80, a: 0xff }) }
    else if str_eq(t, "dark_gray") || str_eq(t, "dark_grey") { Some(SynRgb { r: 0x40, g: 0x40, b: 0x40, a: 0xff }) }
    else if str_eq(t, "light_red") { Some(SynRgb { r: 0xff, g: 0x66, b: 0x66, a: 0xff }) }
    else if str_eq(t, "light_green") { Some(SynRgb { r: 0x66, g: 0xff, b: 0x66, a: 0xff }) }
    else if str_eq(t, "light_yellow") { Some(SynRgb { r: 0xff, g: 0xff, b: 0x99, a: 0xff }) }
    else if str_eq(t, "light_blue") { Some(SynRgb { r: 0x66, g: 0x99, b: 0xff, a: 0xff }) }
    else if str_eq(t, "light_magenta") { Some(SynRgb { r: 0xff, g: 0x66, b: 0xff, a: 0xff }) }
    else if str_eq(t, "light_cyan") { Some(SynRgb { r: 0x99, g: 0xff, b: 0xff, a: 0xff }) }
    else {
        let v = to_chars(t);
        if v.len() == 7 && v[0] == '#' {
            match (hex_pair_of(v[1], v[2]), hex_pair_of(v[3], v[4]), hex_pair_of(v[5], v[6])) {
                (Some(r), Some(g), Some(b)) => Some(SynRgb { r, g, b, a: 0xff }),
                _ => None,
            }
        } else {
            None
        }
    }
}

#[verifier::external_type_specification]
#[verifier::external_body]
pub struct ExScopeSelectors(ScopeSelectors);

#[verifier::external_type_specification]
#[verifier::external_body]
pub struct ExThemeItem(ThemeItem);

/// Whether syntect accepts `s` as a list of scope selectors.
pub uninterp spec fn scope_selectors_parse(s: Seq<char>) -> bool;

/// `ScopeSelectors::from_str`: the parsed selectors, or `None` where syntect
/// refuses the text; when that happens is named `scope_selectors_parse`.
#[verifier::external_body]
fn parse_scope_selectors(s: &str) -> (r: Option<ScopeSelectors>)
    ensures
        r is Some <==> scope_selectors_parse(s@),
{
    ScopeSelectors::from_str(s).ok()
}

/// How a highlighting rule draws its scopes: foreground, background and
/// font style (bold 1, underline 2, italic 4).
#[derive(Clone, Copy, Debug, PartialEq, Eq, Structural)]
pub struct RuleLook {
    pub fg: SynRgb,
    pub bg: SynRgb,
    pub font_bits: u8,
}

/// A fully transparent colour.
pub open spec fn transparent() -> SynRgb {
    SynRgb { r: 0, g: 0, b: 0, a: 0 }
}

/// The look of a custom rule: its colour on a transparent background, with
/// no font style.
pub fn custom_rule_look(color: SynRgb) -> (r: RuleLook)
    ensures
        r == (RuleLook { fg: color, bg: transparent(), font_bits: 0 }),
{
    RuleLook { fg: color, bg: SynRgb { r: 0, g: 0, b: 0, a: 0 }, font_bits: 0 }
}

/// A `syntect` theme item: `scope` drawn with the colours and font style of
/// `look`.
#[verifier::external_body]
fn make_theme_item(scope: ScopeSelectors, look: RuleLook) -> ThemeItem
    requires
        look.font_bits < 8,
{
    let foreground = Some(SynColor { r: look.fg.r, g: look.fg.g, b: look.fg.b, a: look.fg.a });
    let background = Some(SynColor { r: look.bg.r, g: look.bg.g, b: look.bg.b, a: look.bg.a });
    ThemeItem { scope, style: StyleModifier { foreground, background, font_style: Some(FontStyle::from_bits_truncate(look.font_bits)) } }
}

/// A highlighting rule drawing the scopes `scope_sel` in `color` on a
/// transparent background with no font style (the look that
/// `custom_rule_look` gives), or `None` when the selectors do not parse.
pub fn theme_item_for(scope_sel: &str, color: SynRgb) -> (r: Option<ThemeItem>)
    ensures
        r is Some <==> scope_selectors_parse(scope_sel@),
{
    match parse_scope_selectors(scope_sel) {
        Some(sels) => {
            let look = custom_rule_look(color);
            Some(make_theme_item(sels, look))
        },
        None => None,
    }
}

/// The keys of a custom highlighting table and the scopes each colours, in
/// the order the rules are made.
pub open spec fn custom_scopes() -> Seq<(Seq<char>, Seq<char>)> {
    seq![
        ("keyword"@, "keyword, storage, keyword.operator"@),
        ("string"@, "string"@),
        ("comment"@, "comment"@),
        ("type"@, "storage.type, support.type, entity.name.type"@),
        ("function"@, "entity.name.function, support.function"@),
        ("number"@, "constant.numeric"@),
        ("operator"@, "keyword.operator"@),
        ("punct"@, "punctuation"@),
        ("text"@, "text, source"@),
    ]
}

/// Whether the `k`-th key of a custom table makes a rule: its value names a
/// colour and its scopes parse.
pub open spec fn custom_rule_made(tbl: Seq<(String, String)>, k: int) -> bool {
    match crate::theme::lookup_spec(tbl, custom_scopes()[k].0) {
        Some(v) => syn_color_by_name(normalize_color_name(v)) is Some && scope_selectors_parse(custom_scopes()[k].1),
        None => false,
    }
}

/// How many of the first `n` keys make a rule.
pub open spec fn custom_rule_count(tbl: Seq<(String, String)>, n: int) -> nat
    decreases n,
{
    if n <= 0 {
        0
    } else {
        custom_rule_count(tbl, n - 1) + if custom_rule_made(tbl, n - 1) { 1nat } else { 0nat }
    }
}

/// `Theme::default()` with these highlighting rules; nothing else of the
/// theme is stated.
#[verifier::external_body]
fn theme_with_rules(items: Vec<ThemeItem>) -> SynTheme {
    let mut th = SynTheme::default();
    th.scopes = items;
    th
}

/// Whether the themes bundled with syntect (`ThemeSet::load_defaults()`)
/// have one named `name`.
pub uninterp spec fn builtin_theme_named(name: Seq<char>) -> bool;

/// The built-in theme of `ThemeSet::load_defaults()` named `name`, if there
/// is one: `Some` exactly for the names the bundled set has, which is named
/// `builtin_theme_named`; the theme's contents are not stated.
#[verifier::external_body]
fn default_theme_named(name: &str) -> (r: Option<SynTheme>)
    ensures
        r is Some <==> builtin_theme_named(name@),
{
    ThemeSet::load_defaults().themes.get(name).cloned()
}

/// The first built-in theme of `ThemeSet::load_defaults()`, or
/// `Theme::default()` when there is none.
#[verifier::external_body]
fn first_default_theme() -> SynTheme {
    ThemeSet::load_defaults().themes.values().next().cloned().unwrap_or_default()
}

/// A highlighting theme made of the custom table's colours (key and colour
/// name pairs), one rule per known key whose colour parses; `None` when no
/// rule is made.
pub fn build_custom_syn_theme(tbl: &Vec<(String, String)>) -> (r: Option<SynTheme>)
    ensures
        r is Some <==> custom_rule_count(tbl@, 9) > 0,
{
    let keys: [(&str, &str); 9] = [
        ("keyword", "keyword, storage, keyword.operator"),
        ("string", "string"),
        ("comment", "comment"),
        ("type", "storage.type, support.type, entity.name.type"),
        ("function", "entity.name.function, support.function"),
        ("number", "constant.numeric"),
        ("operator", "keyword.operator"),
        ("punct", "punctuation"),
        ("text", "text, source"),
    ];
    proof {
        assert(keys@.map_values(|p: (&str, &str)| (p.0@, p.1@)) =~= custom_scopes());
    }
    let mut items: Vec<ThemeItem> = Vec::new();
    let mut i: usize = 0;
    while i < 9
        invariant
            i <= 9,
            keys@.map_values(|p: (&str, &str)| (p.0@, p.1@)) == custom_scopes(),
            items@.len() == custom_rule_count(tbl@, i as int),
        decreases 9 - i,
    {
        let (key, scopes) = keys[i];
        proof {
            assert(keys@.map_values(|p: (&str, &str)| (p.0@, p.1@))[i as int] == (key@, scopes@));
        }
        match lookup_value(tbl, key) {
            Some(v) => match syn_color_from_str(v.as_str()) {
                Some(c) => match theme_item_for(scopes, c) {
                    Some(item) => { items.push(item); },
                    None => {},
                },
                None => {},
            },
            None => {},
        }
        i = i + 1;
    }
    if items.len() == 0 {
        None
    } else {
        Some(theme_with_rules(items))
    }
}

/// Where the highlighting theme came from.
#[derive(Debug, Clone, Copy, PartialEq, Eq, Structural)]
pub enum SynThemeSource {
    /// The custom table.
    Custom,
    /// The built-in theme of that name.
    Named,
    /// The built-in "base16-ocean.dark".
    Fallback,
    /// The first built-in theme, or the default one.
    First,
}

/// The highlighting theme: the custom one where the table makes one, else
/// the built-in theme of that name, else "base16-ocean.dark", else the first
/// built-in theme.
pub fn build_syntect_theme(theme_name: &str, custom: Option<&Vec<(String, String)>>) -> (r: (SynTheme, SynThemeSource))
    ensures
        ({
            let custom_made = match custom {
                Some(t) => custom_rule_count(t@, 9) > 0,
                None => false,
            };
            &&& custom_made ==> r.1 == SynThemeSource::Custom
            &&& !custom_made && builtin_theme_named(theme_name@) ==> r.1 == SynThemeSource::Named
            &&& !custom_made && !builtin_theme_named(theme_name@) && builtin_theme_named("base16-ocean.dark"@)
                ==> r.1 == SynThemeSource::Fallback
            &&& !custom_made && !builtin_theme_named(theme_name@) && !builtin_theme_named("base16-ocean.dark"@)
                ==> r.1 == SynThemeSource::First
        }),
{
    match custom {
        Some(tbl) => match build_custom_syn_theme(tbl) {
            Some(t) => { return (t, SynThemeSource::Custom); },
            None => {},
        },
        None => {},
    }
    match default_theme_named(theme_name) {
        Some(t) => (t, SynThemeSource::Named),
        None => match default_theme_named("base16-ocean.dark") {
            Some(t) => (t, SynThemeSource::Fallback),
            None => (first_default_theme(), SynThemeSource::First),
        },
    }
}

} // verus!
