use vstd::prelude::*;
use crate::text::{string_from, push_str, replace_char, replace_char_spec, trim, trim_spec, concat_all, to_chars, string_of_range};
use crate::math::{utf8_len_seq, char_utf8_len};

verus! {

/// The matches of `pattern` in `text` as `Regex::captures_iter` finds
/// them: for each, the byte offsets of its start and end, and the text of
/// its first capture group (empty where the group took no part); `None`
/// where the pattern does not compile.
pub uninterp spec fn regex_captures(pattern: Seq<char>, text: Seq<char>) -> Option<Seq<(nat, nat, Seq<char>)>>;

/// The byte offset `b` falls between two characters of `text`.
pub open spec fn on_char_boundary(text: Seq<char>, b: nat) -> bool {
    exists|i: int| 0 <= i <= text.len() && utf8_len_seq(#[trigger] text.take(i)) == b
}

/// Matches as `captures_iter` yields them: each within the text, on
/// character boundaries, and each after the one before.
pub open spec fn matches_in_order(text: Seq<char>, ms: Seq<(nat, nat, Seq<char>)>) -> bool {
    &&& forall|k: int| 0 <= k < ms.len() ==> (#[trigger] ms[k]).0 <= ms[k].1 <= utf8_len_seq(text)
        && on_char_boundary(text, ms[k].0) && on_char_boundary(text, ms[k].1)
    &&& forall|k: int| 0 < k < ms.len() ==> (#[trigger] ms[k]).0 >= ms[k - 1].1
}

/// `Regex::new(pattern)` and `captures_iter(text)`: each match's byte span
/// and the text of its first group, named `regex_captures`. The regex crate
/// documents that the matches are successive and do not overlap, and its
/// offsets are those of `text`'s UTF-8 bytes at character boundaries.
#[verifier::external_body]
fn regex_match_spans(pattern: &str, text: &str) -> (r: Option<Vec<(usize, usize, String)>>)
    ensures
        match r {
            Some(v) => regex_captures(pattern@, text@) == Some(v@.map_values(|t: (usize, usize, String)| (t.0 as nat, t.1 as nat, t.2@)))
                && matches_in_order(text@, v@.map_values(|t: (usize, usize, String)| (t.0 as nat, t.1 as nat, t.2@))),
            None => regex_captures(pattern@, text@) is None,
        },
{
    let re = regex::Regex::new(pattern).ok()?;
    Some(re.captures_iter(text).map(|c| {
        let m = c.get(0).unwrap();
        (m.start(), m.end(), c.get(1).map_or("", |g| g.as_str()).to_string())
    }).collect())
}

/// The character index at which byte offset `b` of `text` falls.
pub open spec fn char_index(text: Seq<char>, b: nat) -> int {
    choose|i: int| 0 <= i <= text.len() && utf8_len_seq(#[trigger] text.take(i)) == b
}

/// The pieces of `text` between the matches `ms`: before the first, between
/// each two, and after the last.
pub open spec fn gaps_of(text: Seq<char>, ms: Seq<(nat, nat, Seq<char>)>) -> Seq<Seq<char>> {
    Seq::new(ms.len() + 1, |k: int| text.subrange(
        if k == 0 { 0 } else { char_index(text, ms[k - 1].1) },
        if k == ms.len() { text.len() as int } else { char_index(text, ms[k].0) }))
}

/// The text of `text` cut at the matches of `pattern`: the pieces between
/// matches (one more than the matches) and the first capture group of each
/// match, or `None` where the pattern does not compile.
pub open spec fn regex_pieces(pattern: Seq<char>, text: Seq<char>) -> Option<(Seq<Seq<char>>, Seq<Seq<char>>)> {
    match regex_captures(pattern, text) {
        Some(ms) => Some((gaps_of(text, ms), ms.map_values(|m: (nat, nat, Seq<char>)| m.2))),
        None => None,
    }
}

proof fn lemma_utf8_prefix_strict(s: Seq<char>, a: int, b: int)
    requires
        0 <= a < b <= s.len(),
    ensures
        utf8_len_seq(s.take(a)) < utf8_len_seq(s.take(b)),
    decreases b - a,
{
    assert(s.take(b).drop_last() =~= s.take(b - 1));
    if a < b - 1 {
        lemma_utf8_prefix_strict(s, a, b - 1);
    }
}

/// The character index at which a byte offset on a character boundary
/// falls.
fn char_index_exec(v: &Vec<char>, b: usize) -> (r: usize)
    requires
        on_char_boundary(v@, b as nat),
    ensures
        r == char_index(v@, b as nat),
        r <= v@.len(),
{
    let ghost i0 = choose|i: int| 0 <= i <= v@.len() && utf8_len_seq(#[trigger] v@.take(i)) == b;
    let mut i: usize = 0;
    let mut total: usize = 0;
    assert(v@.take(0) =~= Seq::<char>::empty());
    while i < v.len() && total < b
        invariant
            i <= v@.len(),
            0 <= i0 <= v@.len(),
            utf8_len_seq(v@.take(i0)) == b,
            total == utf8_len_seq(v@.take(i as int)),
            i <= i0,
        decreases v.len() - i,
    {
        assert(v@.take(i + 1).drop_last() =~= v@.take(i as int));
        proof {
            assert(i < i0);
            if i + 1 < i0 { lemma_utf8_prefix_strict(v@, i + 1, i0); }
        }
        total = total + char_utf8_len(v[i]);
        i = i + 1;
    }
    proof {
        if (i as int) < i0 {
            lemma_utf8_prefix_strict(v@, i as int, i0);
        }
        assert(i == i0);
        let c = char_index(v@, b as nat);
        if c < i0 { lemma_utf8_prefix_strict(v@, c, i0); }
        if c > i0 { lemma_utf8_prefix_strict(v@, i0, c); }
    }
    i
}

/// The text between the matches of `pattern` and the first group of each
/// match (see `regex_pieces`), or `None` where the pattern does not compile.
fn regex_split_captures(pattern: &str, text: &str) -> (r: Option<(Vec<String>, Vec<String>)>)
    ensures
        match r {
            Some((g, c)) => regex_pieces(pattern@, text@) == Some((g@.map_values(|s: String| s@), c@.map_values(|s: String| s@)))
                && g@.len() == c@.len() + 1,
            None => regex_pieces(pattern@, text@) is None,
        },
{
    let spans = match regex_match_spans(pattern, text) {
        None => { return None; },
        Some(v) => v,
    };
    let ghost ms = spans@.map_values(|t: (usize, usize, String)| (t.0 as nat, t.1 as nat, t.2@));
    let v = to_chars(text);
    let mut gaps: Vec<String> = Vec::new();
    let mut caps: Vec<String> = Vec::new();
    let mut last: usize = 0;
    let mut k: usize = 0;
    while k < spans.len()
        invariant
            k <= spans@.len(),
            v@ == text@,
            ms == spans@.map_values(|t: (usize, usize, String)| (t.0 as nat, t.1 as nat, t.2@)),
            matches_in_order(text@, ms),
            gaps@.len() == k,
            caps@.len() == k,
            last <= v@.len(),
            last == (if k == 0 { 0 } else { char_index(text@, ms[k - 1].1) }),
            forall|j: int| 0 <= j < k ==> (#[trigger] gaps@[j])@ == gaps_of(text@, ms)[j],
            forall|j: int| 0 <= j < k ==> (#[trigger] caps@[j])@ == ms[j].2,
        decreases spans.len() - k,
    {
        assert(ms[k as int].0 == spans@[k as int].0 as nat && ms[k as int].1 == spans@[k as int].1 as nat);
        assert(ms[k as int].2 == spans@[k as int].2@);
        assert(on_char_boundary(text@, ms[k as int].0) && on_char_boundary(text@, ms[k as int].1));
        let start = char_index_exec(&v, spans[k].0);
        let end = char_index_exec(&v, spans[k].1);
        proof {
            let s0 = char_index(text@, ms[k as int].0);
            let e0 = char_index(text@, ms[k as int].1);
            if s0 > e0 { lemma_utf8_prefix_strict(text@, e0, s0); }
            if k > 0 {
                let p = char_index(text@, ms[k - 1].1);
                if p > s0 { lemma_utf8_prefix_strict(text@, s0, p); }
            }
        }
        gaps.push(string_of_range(&v, last, start));
        caps.push(string_from(spans[k].2.as_str()));
        last = end;
        k = k + 1;
    }
    gaps.push(string_of_range(&v, last, v.len()));
    proof {
        let gv = gaps@.map_values(|s: String| s@);
        let cv = caps@.map_values(|s: String| s@);
        assert(gv =~= gaps_of(text@, ms));
        assert(cv =~= ms.map_values(|m: (nat, nat, Seq<char>)| m.2));
    }
    Some((gaps, caps))
}

/// How a replacement is made of the first capture group: display math, a
/// trimmed-in inline formula, or a formula trimmed of its spaces.
#[derive(Debug, Clone, Copy, PartialEq, Eq, Structural)]
pub enum MathRewrite {
    Display,
    Inline,
    InlineTrimmed,
}

/// The replacement of a match whose first group is `g`.
pub open spec fn rewrite_spec(kind: MathRewrite, g: Seq<char>) -> Seq<char> {
    match kind {
        MathRewrite::Display => "$$\n"@ + g + "\n$$"@,
        MathRewrite::Inline => "$"@ + g + "$"@,
        MathRewrite::InlineTrimmed => "$"@ + trim_spec(g) + "$"@,
    }
}

/// The pieces joined again, each match replaced: `gaps[0] + rw(caps[0]) +
/// gaps[1] + ...` up to gap `n`.
pub open spec fn rejoin(kind: MathRewrite, gaps: Seq<Seq<char>>, caps: Seq<Seq<char>>, n: int) -> Seq<char>
    decreases n,
{
    if n <= 0 {
        if gaps.len() > 0 { gaps[0] } else { Seq::empty() }
    } else {
        rejoin(kind, gaps, caps, n - 1) + rewrite_spec(kind, caps[n - 1]) + gaps[n]
    }
}

/// `Regex::replace_all` of `pattern` with the rewrite of the first group.
pub open spec fn replace_all_spec(kind: MathRewrite, pattern: Seq<char>, text: Seq<char>) -> Seq<char> {
    match regex_pieces(pattern, text) {
        Some((g, c)) => rejoin(kind, g, c, c.len() as int),
        None => text,
    }
}

fn rewrite(kind: MathRewrite, g: &str) -> (r: String)
    ensures
        r@ == rewrite_spec(kind, g@),
{
    match kind {
        MathRewrite::Display => {
            let mut s = string_from("$$\n");
            push_str(&mut s, g);
            push_str(&mut s, "\n$$");
            s
        },
        MathRewrite::Inline => {
            let mut s = string_from("$");
            push_str(&mut s, g);
            push_str(&mut s, "$");
            s
        },
        MathRewrite::InlineTrimmed => {
            let mut s = string_from("$");
            push_str(&mut s, trim(g).as_str());
            push_str(&mut s, "$");
            s
        },
    }
}

/// Replaces every match of `pattern` in `text` by the rewrite of its first
/// group.
pub fn replace_all_math(kind: MathRewrite, pattern: &str, text: &str) -> (r: String)
    ensures
        r@ == replace_all_spec(kind, pattern@, text@),
{
    match regex_split_captures(pattern, text) {
        None => string_from(text),
        Some((gaps, caps)) => {
            let ghost gv = gaps@.map_values(|s: String| s@);
            let ghost cv = caps@.map_values(|s: String| s@);
            let mut out = string_from(gaps[0].as_str());
            let mut i: usize = 0;
            while i < caps.len()
                invariant
                    i <= caps@.len(),
                    gaps@.len() == caps@.len() + 1,
                    gv == gaps@.map_values(|s: String| s@),
                    cv == caps@.map_values(|s: String| s@),
                    out@ == rejoin(kind, gv, cv, i as int),
                decreases caps.len() - i,
            {
                push_str(&mut out, rewrite(kind, caps[i].as_str()).as_str());
                push_str(&mut out, gaps[i + 1].as_str());
                i = i + 1;
            }
            out
        },
    }
}

/// The pattern of display math between `\[` and `\]`.
pub open spec fn display_pattern() -> Seq<char> { "(?s)\\\\\\[\\s*(.*?)\\s*\\\\\\]"@ }

/// The pattern of an inline formula with spaces inside its dollars.
pub open spec fn spaced_inline_pattern() -> Seq<char> { "\\$\\s+([^$]*?\\S)\\s+\\$"@ }

/// The pattern of inline math between `\(` and `\)`.
pub open spec fn paren_pattern() -> Seq<char> { "\\\\\\((.*?)\\\\\\)"@ }

/// Markdown made ready for `pandoc`: non-breaking hyphens become hyphens,
/// `\[..\]` becomes display math, `$ x $` loses its inner spaces, and
/// `\(..\)` becomes `$..$`.
pub open spec fn sanitize_spec(input: Seq<char>) -> Seq<char> {
    let a = replace_char_spec(input, '\u{2011}', '-');
    let b = replace_all_spec(MathRewrite::Display, display_pattern(), a);
    let c = replace_all_spec(MathRewrite::Inline, spaced_inline_pattern(), b);
    replace_all_spec(MathRewrite::InlineTrimmed, paren_pattern(), c)
}

/// Markdown made ready for `pandoc`.
pub fn sanitize_for_html(input: &str) -> (r: String)
    ensures
        r@ == sanitize_spec(input@),
{
    let a = replace_char(input, '\u{2011}', '-');
    let b = replace_all_math(MathRewrite::Display, "(?s)\\\\\\[\\s*(.*?)\\s*\\\\\\]", a.as_str());
    let c = replace_all_math(MathRewrite::Inline, "\\$\\s+([^$]*?\\S)\\s+\\$", b.as_str());
    replace_all_math(MathRewrite::InlineTrimmed, "\\\\\\((.*?)\\\\\\)", c.as_str())
}

} // verus!
