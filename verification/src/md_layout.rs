use vstd::prelude::*;
use crate::style::{Style, Span, spans_text};
use crate::text::{concat_all, grapheme_clusters, graphemes, str_width, text_width, copy_string, push_str, string_from, trim, trim_spec};
use crate::md_doc::{Inline, InlineV, inlines_view};
use crate::md_events::MdAlign;

verus! {

broadcast use vstd::string::group_string_axioms;

// ---------------------------------------------------------------------------
// Emoji filtering
// ---------------------------------------------------------------------------

/// A character from the emoji blocks (U+1F000..U+1FAFF), a tag character
/// (U+E0020..U+E007F) or the emoji presentation selector U+FE0F.
pub open spec fn emoji_char(c: char) -> bool {
    (0x1F000 <= (c as u32) && (c as u32) <= 0x1FAFF) || (0xE0020 <= (c as u32) && (c as u32) <= 0xE007F) || c == '\u{FE0F}'
}

/// A grapheme holding at least one emoji character.
pub open spec fn emoji_grapheme(g: Seq<char>) -> bool {
    exists|i: int| 0 <= i < g.len() && emoji_char(#[trigger] g[i])
}

/// Whether a grapheme holds an emoji character.
pub fn is_emoji_grapheme(g: &str) -> (r: bool)
    ensures
        r == emoji_grapheme(g@),
{
    let v = crate::text::to_chars(g);
    let mut i: usize = 0;
    while i < v.len()
        invariant
            i <= v@.len(),
            v@ == g@,
            forall|j: int| 0 <= j < i ==> !emoji_char(#[trigger] v@[j]),
        decreases v.len() - i,
    {
        let u = v[i] as u32;
        if (0x1F000 <= u && u <= 0x1FAFF) || (0xE0020 <= u && u <= 0xE007F) || v[i] == '\u{FE0F}' {
            assert(emoji_char(v@[i as int]));
            return true;
        }
        i = i + 1;
    }
    false
}

/// The text without the graphemes that hold emoji, when emoji are not
/// rendered.
pub open spec fn filter_emojis_spec(s: Seq<char>, render_emojis: bool) -> Seq<char> {
    if render_emojis {
        s
    } else {
        concat_all(grapheme_clusters(s).filter(|g: Seq<char>| !emoji_grapheme(g)))
    }
}

/// Drops the graphemes that hold emoji unless `render_emojis` is set.
pub fn filter_emojis(input: String, render_emojis: bool) -> (r: String)
    ensures
        r@ == filter_emojis_spec(input@, render_emojis),
        forall|c: char| r@.contains(c) ==> input@.contains(c),
{
    if render_emojis {
        return input;
    }
    let gs = graphemes(input.as_str());
    let ghost gv = grapheme_clusters(input@);
    assert(gs@.map_values(|g: String| g@) =~= gv);
    let mut out = String::new();
    let mut i: usize = 0;
    while i < gs.len()
        invariant
            i <= gs@.len(),
            gs@.len() == gv.len(),
            concat_all(gv) == input@,
            forall|c: char| out@.contains(c) ==> input@.contains(c),
            forall|j: int| 0 <= j < gs@.len() ==> (#[trigger] gs@[j])@ == gv[j],
            out@ == concat_all(gv.subrange(0, i as int).filter(|g: Seq<char>| !emoji_grapheme(g))),
        decreases gs.len() - i,
    {
        let g = &gs[i];
        let e = is_emoji_grapheme(g.as_str());
        proof {
            let pre = gv.subrange(0, i + 1);
            assert(pre.drop_last() =~= gv.subrange(0, i as int));
            reveal_with_fuel(Seq::filter, 1);
        }
        if !e {
            let ghost o0 = out@;
            push_str(&mut out, g.as_str());
            proof {
                let f = gv.subrange(0, i as int).filter(|g: Seq<char>| !emoji_grapheme(g));
                assert(f.push(gv[i as int]).drop_last() =~= f);
                assert forall|c: char| out@.contains(c) implies input@.contains(c) by {
                    let j = choose|j: int| 0 <= j < out@.len() && out@[j] == c;
                    if j < o0.len() {
                        assert(o0[j] == c);
                    } else {
                        crate::text::lemma_concat_all_contains(gv, i as int, j - o0.len());
                    }
                }
            }
        }
        i = i + 1;
    }
    assert(gv.subrange(0, gv.len() as int) =~= gv);
    out
}

// ---------------------------------------------------------------------------
// Inline text
// ---------------------------------------------------------------------------

/// The text an inline shows.
pub open spec fn inline_text(i: InlineV) -> Seq<char> {
    match i {
        InlineV::Text(c, _) => c,
        InlineV::Code(c) => c,
        InlineV::Math(c, b) => if b { trim_spec(c) } else { c },
        InlineV::Footnote(l) => "["@ + l + "]"@,
        InlineV::Image(l, u) => "["@ + l + ": "@ + u + "]"@,
        InlineV::LinkUrl(u) => " ("@ + u + ")"@,
    }
}

/// The text of a list of inlines, one after another.
pub open spec fn plain_of(v: Seq<InlineV>) -> Seq<char>
    decreases v.len(),
{
    if v.len() == 0 {
        Seq::empty()
    } else {
        plain_of(v.drop_last()) + inline_text(v.last())
    }
}

/// The text an inline shows.
pub fn inline_display_text(i: &Inline) -> (r: String)
    ensures
        r@ == inline_text(i@),
{
    match i {
        Inline::Text { content, .. } => copy_string(content),
        Inline::Code(c) => copy_string(c),
        Inline::Math { content, block } => {
            if *block {
                trim(content.as_str())
            } else {
                copy_string(content)
            }
        },
        Inline::Footnote(l) => {
            let mut s = string_from("[");
            push_str(&mut s, l.as_str());
            push_str(&mut s, "]");
            s
        },
        Inline::Image { label, url } => {
            let mut s = string_from("[");
            push_str(&mut s, label.as_str());
            push_str(&mut s, ": ");
            push_str(&mut s, url.as_str());
            push_str(&mut s, "]");
            s
        },
        Inline::LinkUrl(u) => {
            let mut s = string_from(" (");
            push_str(&mut s, u.as_str());
            push_str(&mut s, ")");
            s
        },
    }
}

/// The plain text of a list of inlines.
pub fn inlines_plain(inlines: &Vec<Inline>) -> (r: String)
    ensures
        r@ == plain_of(inlines_view(inlines@)),
{
    let mut s = String::new();
    let mut i: usize = 0;
    while i < inlines.len()
        invariant
            i <= inlines@.len(),
            s@ == plain_of(inlines_view(inlines@.subrange(0, i as int))),
        decreases inlines.len() - i,
    {
        let t = inline_display_text(&inlines[i]);
        push_str(&mut s, t.as_str());
        assert(inlines_view(inlines@.subrange(0, i + 1)).drop_last() =~= inlines_view(inlines@.subrange(0, i as int)));
        i = i + 1;
    }
    assert(inlines@.subrange(0, inlines@.len() as int) =~= inlines@);
    s
}

// ---------------------------------------------------------------------------
// Table geometry
// ---------------------------------------------------------------------------

/// The widest text of column `j` over the first `n` rows, at least 1.
pub open spec fn column_width(rows: Seq<Vec<Vec<Inline>>>, j: int, n: int) -> nat
    decreases n,
{
    if n <= 0 {
        1
    } else {
        let prev = column_width(rows, j, n - 1);
        let here: nat = if 0 <= j < rows[n - 1]@.len() {
            text_width(plain_of(inlines_view(rows[n - 1]@[j]@))) as nat
        } else {
            0
        };
        if here > prev { here } else { prev }
    }
}

/// The natural width of each of the first `cols` columns.
pub fn table_widths(rows: &Vec<Vec<Vec<Inline>>>, cols: usize) -> (r: Vec<usize>)
    requires
        forall|i: int| 0 <= i < rows@.len() ==> (#[trigger] rows@[i])@.len() <= cols,
    ensures
        r@.len() == cols,
        forall|j: int| 0 <= j < cols ==> r@[j] == column_width(rows@, j, rows@.len() as int),
{
    let mut widths: Vec<usize> = Vec::new();
    let mut k: usize = 0;
    while k < cols
        invariant
            k <= cols,
            widths@.len() == k,
            forall|j: int| 0 <= j < k ==> widths@[j] == 1,
        decreases cols - k,
    {
        widths.push(1);
        k = k + 1;
    }
    let mut i: usize = 0;
    while i < rows.len()
        invariant
            i <= rows@.len(),
            widths@.len() == cols,
            forall|r: int| 0 <= r < rows@.len() ==> (#[trigger] rows@[r])@.len() <= cols,
            forall|j: int| 0 <= j < cols ==> widths@[j] == column_width(rows@, j, i as int),
        decreases rows.len() - i,
    {
        let row = &rows[i];
        let mut c: usize = 0;
        while c < row.len()
            invariant
                c <= row@.len() <= cols,
                row == rows@[i as int],
                widths@.len() == cols,
                forall|j: int| 0 <= j < c ==> widths@[j] == column_width(rows@, j, i + 1),
                forall|j: int| c <= j < cols ==> widths@[j] == column_width(rows@, j, i as int),
            decreases row.len() - c,
        {
            let p = inlines_plain(&row[c]);
            let w = str_width(p.as_str());
            let cur = widths[c];
            widths.set(c, if w > cur { w } else { cur });
            c = c + 1;
        }
        assert forall|j: int| row@.len() <= j < cols implies widths@[j] == column_width(rows@, j, i + 1) by {}
        i = i + 1;
    }
    widths
}

/// The sum of a list of widths.
pub open spec fn sum_widths(w: Seq<usize>) -> nat
    decreases w.len(),
{
    if w.len() == 0 { 0 } else { sum_widths(w.drop_last()) + (w.last() as nat) }
}

/// The width a table takes: the columns plus three columns of border each
/// and two more.
pub fn table_total_width(widths: &Vec<usize>) -> (r: usize)
    requires
        sum_widths(widths@) + 3 * widths@.len() + 2 <= usize::MAX,
    ensures
        r == sum_widths(widths@) + 3 * widths@.len() + 2,
{
    let mut total: usize = 0;
    let mut i: usize = 0;
    while i < widths.len()
        invariant
            i <= widths@.len(),
            total == sum_widths(widths@.subrange(0, i as int)),
            sum_widths(widths@) + 3 * widths@.len() + 2 <= usize::MAX,
        decreases widths.len() - i,
    {
        proof {
            assert(widths@.subrange(0, i + 1).drop_last() =~= widths@.subrange(0, i as int));
            lemma_sum_widths_prefix(widths@, i + 1);
        }
        total = total + widths[i];
        i = i + 1;
    }
    assert(widths@.subrange(0, widths@.len() as int) =~= widths@);
    total + widths.len() * 3 + 2
}

pub proof fn lemma_sum_widths_prefix(w: Seq<usize>, n: int)
    requires
        0 <= n <= w.len(),
    ensures
        sum_widths(w.subrange(0, n)) <= sum_widths(w),
    decreases w.len() - n,
{
    if n < w.len() {
        lemma_sum_widths_prefix(w, n + 1);
        assert(w.subrange(0, n + 1).drop_last() =~= w.subrange(0, n));
    } else {
        assert(w.subrange(0, n) =~= w);
    }
}

fn sum_of(widths: &Vec<usize>) -> (r: usize)
    ensures
        r == if sum_widths(widths@) <= usize::MAX { sum_widths(widths@) } else { usize::MAX as nat },
{
    let mut total: usize = 0;
    let mut i: usize = 0;
    let mut saturated = false;
    while i < widths.len()
        invariant
            i <= widths@.len(),
            !saturated ==> total == sum_widths(widths@.subrange(0, i as int)),
            saturated ==> total == usize::MAX && sum_widths(widths@.subrange(0, i as int)) > usize::MAX,
        decreases widths.len() - i,
    {
        assert(widths@.subrange(0, i + 1).drop_last() =~= widths@.subrange(0, i as int));
        if !saturated {
            if total > usize::MAX - widths[i] {
                saturated = true;
                total = usize::MAX;
            } else {
                total = total + widths[i];
            }
        }
        i = i + 1;
    }
    assert(widths@.subrange(0, widths@.len() as int) =~= widths@);
    total
}

/// The widest of the first `n` widths; of equally wide ones, the last.
pub open spec fn widest_upto(w: Seq<usize>, n: int) -> int
    decreases n,
{
    if n <= 1 {
        0
    } else {
        let b = widest_upto(w, n - 1);
        if w[n - 1] >= w[b] { n - 1 } else { b }
    }
}

/// Narrowing `w` towards `content` columns, at most `steps` times: while the
/// widths add up to more than `content` and the widest column is wider than
/// 4, the widest column loses one column.
pub open spec fn shrink_widths(w: Seq<usize>, content: nat, steps: nat) -> Seq<usize>
    decreases steps,
{
    let b = widest_upto(w, w.len() as int);
    if steps == 0 || sum_widths(w) <= content || w.len() == 0 || w[b] <= 4 {
        w
    } else {
        shrink_widths(w.update(b, (w[b] - 1) as usize), content, (steps - 1) as nat)
    }
}

/// The columns the cells of a table share: what is left of `available` after
/// the borders, and at least one per column.
pub open spec fn table_content_width(available: usize, cols: usize) -> nat {
    let borders = cols * 3 + 2;
    let room: nat = if available > borders { (available - borders) as nat } else { 0 };
    if room > cols { room } else { cols as nat }
}

/// Each width raised to at least 4.
pub open spec fn at_least_four(w: Seq<usize>) -> Seq<usize> {
    w.map_values(|x: usize| if x < 4 { 4usize } else { x })
}

proof fn lemma_widest(w: Seq<usize>, n: int)
    requires
        1 <= n <= w.len(),
    ensures
        0 <= widest_upto(w, n) < n,
        forall|i: int| 0 <= i < n ==> #[trigger] w[i] <= w[widest_upto(w, n)],
    decreases n,
{
    if n > 1 {
        lemma_widest(w, n - 1);
    }
}

proof fn lemma_sum_update(w: Seq<usize>, b: int, x: usize)
    requires
        0 <= b < w.len(),
    ensures
        sum_widths(w.update(b, x)) + w[b] == sum_widths(w) + x,
    decreases w.len(),
{
    let u = w.update(b, x);
    if b == w.len() - 1 {
        assert(u.drop_last() =~= w.drop_last());
    } else {
        assert(u.drop_last() =~= w.drop_last().update(b, x));
        lemma_sum_update(w.drop_last(), b, x);
    }
}

/// Column widths narrowed to fit `available` columns: while the widths
/// are too wide for the space left after borders, the widest column (the
/// last of equally wide ones) loses one column, down to 4; every width is
/// then at least 4.
pub fn wrapped_widths(natural: &Vec<usize>, available: usize, cols: usize) -> (r: Vec<usize>)
    requires
        cols * 3 + 2 <= usize::MAX,
    ensures
        sum_widths(natural@) <= usize::MAX ==> r@ == at_least_four(
            shrink_widths(natural@, table_content_width(available, cols), sum_widths(natural@))),
        r@.len() == natural@.len(),
        forall|i: int| 0 <= i < r@.len() ==> 4 <= #[trigger] r@[i]
            && (r@[i] <= natural@[i] || r@[i] == 4),
        sum_widths(natural@) <= (if available > cols * 3 + 2 { available - (cols * 3 + 2) } else { 0 }) || sum_widths(natural@) <= cols
            ==> forall|i: int| 0 <= i < r@.len() ==> #[trigger] r@[i] == (if natural@[i] < 4 { 4 } else { natural@[i] }),
{
    let borders = cols * 3 + 2;
    let room = available.saturating_sub(borders);
    let content = if room > cols { room } else { cols };
    let mut widths: Vec<usize> = Vec::new();
    let mut k: usize = 0;
    while k < natural.len()
        invariant
            k <= natural@.len(),
            widths@ == natural@.subrange(0, k as int),
        decreases natural.len() - k,
    {
        widths.push(natural[k]);
        k = k + 1;
    }
    assert(widths@ =~= natural@);
    let ghost total0 = sum_widths(natural@);
    let mut fuel: usize = sum_of(natural);
    assert(content as nat == table_content_width(available, cols));
    let ghost target = shrink_widths(natural@, content as nat, fuel as nat);
    loop
        invariant
            widths@.len() == natural@.len(),
            forall|i: int| 0 <= i < widths@.len() ==> #[trigger] widths@[i] <= natural@[i],
            forall|i: int| 0 <= i < widths@.len() ==> (#[trigger] widths@[i] >= 4 || widths@[i] == natural@[i]),
            total0 <= content ==> widths@ == natural@,
            total0 == sum_widths(natural@),
            sum_widths(widths@) <= total0,
            shrink_widths(widths@, content as nat, fuel as nat) == target,
        ensures
            widths@.len() == natural@.len(),
            forall|i: int| 0 <= i < widths@.len() ==> #[trigger] widths@[i] <= natural@[i],
            forall|i: int| 0 <= i < widths@.len() ==> (#[trigger] widths@[i] >= 4 || widths@[i] == natural@[i]),
            total0 <= content ==> widths@ == natural@,
            total0 <= usize::MAX ==> widths@ == target,
        decreases fuel,
    {
        let s = sum_of(&widths);
        if s <= content {
            assert(total0 <= usize::MAX ==> sum_widths(widths@) <= content);
            break;
        }
        if widths.len() == 0 {
            break;
        }
        let mut best: usize = 0;
        let mut j: usize = 1;
        while j < widths.len()
            invariant
                1 <= j <= widths@.len(),
                best < j,
                best == widest_upto(widths@, j as int),
            decreases widths.len() - j,
        {
            if widths[j] >= widths[best] {
                best = j;
            }
            j = j + 1;
        }
        proof { lemma_widest(widths@, widths@.len() as int); }
        if widths[best] <= 4 {
            break;
        }
        if fuel == 0 {
            break;
        }
        let ghost w0 = widths@;
        widths.set(best, widths[best] - 1);
        proof {
            lemma_sum_update(w0, best as int, (w0[best as int] - 1) as usize);
            assert(widths@ == w0.update(best as int, (w0[best as int] - 1) as usize));
        }
        fuel = fuel - 1;
    }
    let mut out: Vec<usize> = Vec::new();
    let mut i: usize = 0;
    while i < widths.len()
        invariant
            i <= widths@.len(),
            widths@.len() == natural@.len(),
            out@.len() == i,
            forall|j: int| 0 <= j < i ==> #[trigger] out@[j] == (if widths@[j] < 4 { 4 } else { widths@[j] }),
        decreases widths.len() - i,
    {
        let w = widths[i];
        out.push(if w < 4 { 4 } else { w });
        i = i + 1;
    }
    proof {
        if total0 <= usize::MAX {
            assert(out@ =~= at_least_four(widths@));
        }
    }
    out
}

/// `n` copies of `c`.
pub fn repeat_char(c: char, n: usize) -> (r: String)
    ensures
        r@ == Seq::new(n as nat, |_i: int| c),
{
    let mut s = String::new();
    let mut i: usize = 0;
    while i < n
        invariant
            i <= n,
            s@ == Seq::new(i as nat, |_i: int| c),
        decreases n - i,
    {
        s.push(c);
        assert(s@ =~= Seq::new((i + 1) as nat, |_i: int| c));
        i = i + 1;
    }
    s
}

/// `w + 2`, capped at `usize::MAX`.
pub open spec fn dash_count(w: usize) -> nat {
    if w + 2 <= usize::MAX { (w + 2) as nat } else { usize::MAX as nat }
}

/// The dashes and crossing of each column of a table separator.
pub open spec fn separator_body(widths: Seq<usize>) -> Seq<char>
    decreases widths.len(),
{
    if widths.len() == 0 {
        Seq::empty()
    } else {
        separator_body(widths.drop_last()) + Seq::new(dash_count(widths.last()), |_i: int| '─') + seq!['┼']
    }
}

/// `├───┼───┤`: the separator under a table's header row.
pub open spec fn separator_spec(widths: Seq<usize>) -> Seq<char> {
    (seq!['├'] + separator_body(widths)).drop_last() + seq!['┤']
}

/// The separator line under a table's header row.
pub fn table_separator(widths: &Vec<usize>) -> (r: String)
    ensures
        r@ == separator_spec(widths@),
{
    let mut v: Vec<char> = Vec::new();
    v.push('├');
    let mut i: usize = 0;
    while i < widths.len()
        invariant
            i <= widths@.len(),
            v@ == seq!['├'] + separator_body(widths@.subrange(0, i as int)),
        decreases widths.len() - i,
    {
        let n = widths[i].saturating_add(2);
        let mut k: usize = 0;
        let ghost before = v@;
        while k < n
            invariant
                k <= n,
                v@ == before + Seq::new(k as nat, |_i: int| '─'),
            decreases n - k,
        {
            v.push('─');
            assert(v@ =~= before + Seq::new((k + 1) as nat, |_i: int| '─'));
            k = k + 1;
        }
        v.push('┼');
        assert(widths@.subrange(0, i + 1).drop_last() =~= widths@.subrange(0, i as int));
        assert(v@ =~= seq!['├'] + separator_body(widths@.subrange(0, i + 1)));
        i = i + 1;
    }
    assert(widths@.subrange(0, widths@.len() as int) =~= widths@);
    let ghost full = v@;
    v.pop();
    v.push('┤');
    assert(v@ =~= full.drop_last() + seq!['┤']);
    crate::text::string_of(&v)
}

/// The total width of a table, or `None` when it does not fit a `usize`.
pub fn table_total_width_checked(widths: &Vec<usize>) -> (r: Option<usize>)
    ensures
        r matches Some(t) ==> t == sum_widths(widths@) + 3 * widths@.len() + 2,
        r is None ==> sum_widths(widths@) + 3 * widths@.len() + 2 > usize::MAX,
{
    let s = sum_of(widths);
    let n = widths.len();
    if n > (usize::MAX - 2) / 3 {
        return None;
    }
    let borders = n * 3 + 2;
    if s > usize::MAX - borders {
        return None;
    }
    if s == usize::MAX {
        return None;
    }
    Some(table_total_width(widths))
}

/// The display widths of the spans' texts, added.
pub open spec fn spans_width(spans: Seq<Span>) -> nat
    decreases spans.len(),
{
    if spans.len() == 0 { 0 } else { spans_width(spans.drop_last()) + (text_width(spans.last().content@) as nat) }
}

/// The display width of a list of spans (saturating at `usize::MAX`).
pub fn span_widths(spans: &Vec<Span>) -> (r: usize)
    ensures
        r == if spans_width(spans@) <= usize::MAX { spans_width(spans@) } else { usize::MAX as nat },
{
    let mut total: usize = 0;
    let mut i: usize = 0;
    let mut saturated = false;
    while i < spans.len()
        invariant
            i <= spans@.len(),
            !saturated ==> total == spans_width(spans@.subrange(0, i as int)),
            saturated ==> total == usize::MAX && spans_width(spans@.subrange(0, i as int)) > usize::MAX,
        decreases spans.len() - i,
    {
        assert(spans@.subrange(0, i + 1).drop_last() =~= spans@.subrange(0, i as int));
        let w = str_width(spans[i].content.as_str());
        if !saturated {
            if total > usize::MAX - w {
                saturated = true;
                total = usize::MAX;
            } else {
                total = total + w;
            }
        }
        i = i + 1;
    }
    assert(spans@.subrange(0, spans@.len() as int) =~= spans@);
    total
}


/// A copy of a span.
pub fn copy_span(s: &Span) -> (r: Span)
    ensures
        r.content@ == s.content@,
        r.style == s.style,
{
    Span { content: copy_string(&s.content), style: s.style }
}

/// Two lists of spans with the same texts and styles.
pub open spec fn same_spans(a: Seq<Span>, b: Seq<Span>) -> bool {
    a.len() == b.len() && forall|i: int| 0 <= i < a.len() ==> (#[trigger] a[i]).content@ == b[i].content@ && a[i].style == b[i].style
}

pub proof fn lemma_same_spans_text(a: Seq<Span>, b: Seq<Span>)
    requires
        same_spans(a, b),
    ensures
        spans_text(a) == spans_text(b),
        spans_width(a) == spans_width(b),
    decreases a.len(),
{
    if a.len() > 0 {
        lemma_same_spans_text(a.drop_last(), b.drop_last());
    }
}

/// A copy of a list of spans.
pub fn copy_spans(v: &Vec<Span>) -> (r: Vec<Span>)
    ensures
        same_spans(r@, v@),
        spans_text(r@) == spans_text(v@),
{
    let mut out: Vec<Span> = Vec::new();
    let mut i: usize = 0;
    while i < v.len()
        invariant
            i <= v@.len(),
            same_spans(out@, v@.subrange(0, i as int)),
        decreases v.len() - i,
    {
        out.push(copy_span(&v[i]));
        i = i + 1;
    }
    assert(v@.subrange(0, v@.len() as int) =~= v@);
    proof { lemma_same_spans_text(out@, v@); }
    out
}

/// `n` spaces.
pub open spec fn spaces(n: nat) -> Seq<char> {
    Seq::new(n, |_i: int| ' ')
}

/// How many columns short of `width` a cell's spans are.
pub open spec fn pad_amount(cell: Seq<Span>, width: usize) -> nat {
    let w = if spans_width(cell) <= usize::MAX { spans_width(cell) } else { usize::MAX as nat };
    if width > w { (width - w) as nat } else { 0 }
}

/// Pads a table cell to `width` columns: spaces on the left for right
/// alignment, split around it for centred cells, on the right otherwise.
pub fn pad_cell(cell: &mut Vec<Span>, width: usize, alignment: MdAlign)
    ensures
        alignment == MdAlign::Right ==> spans_text(final(cell)@) == spaces(pad_amount(old(cell)@, width)) + spans_text(old(cell)@),
        alignment == MdAlign::Center ==> spans_text(final(cell)@) == spaces(pad_amount(old(cell)@, width) / 2)
            + spans_text(old(cell)@) + spaces((pad_amount(old(cell)@, width) - pad_amount(old(cell)@, width) / 2) as nat),
        alignment != MdAlign::Right && alignment != MdAlign::Center ==> spans_text(final(cell)@) == spans_text(old(cell)@)
            + spaces(pad_amount(old(cell)@, width)),
{
    let w = span_widths(cell);
    let pad = width.saturating_sub(w);
    assert(pad == pad_amount(cell@, width));
    let ghost t0 = spans_text(cell@);
    let ghost c0 = cell@;
    match alignment {
        MdAlign::Right => {
            if pad > 0 {
                let sp = Span::raw(repeat_char(' ', pad));
                cell.insert(0, sp);
                proof { lemma_spans_text_prepend(cell@); }
                assert(cell@.drop_first() =~= c0);
            } else {
                assert(spaces(0) + t0 =~= t0);
            }
        },
        MdAlign::Center => {
            let left = pad / 2;
            let right = pad - left;
            if left > 0 {
                cell.insert(0, Span::raw(repeat_char(' ', left)));
                proof { lemma_spans_text_prepend(cell@); }
                assert(cell@.drop_first() =~= c0);
            } else {
                assert(spaces(0) + t0 =~= t0);
            }
            let ghost t1 = spans_text(cell@);
            let ghost c1 = cell@;
            if right > 0 {
                cell.push(Span::raw(repeat_char(' ', right)));
                assert(cell@.drop_last() =~= c1);
            } else {
                assert(t1 + spaces(0) =~= t1);
            }
        },
        _ => {
            if pad > 0 {
                cell.push(Span::raw(repeat_char(' ', pad)));
                assert(cell@.drop_last() =~= c0);
            } else {
                assert(t0 + spaces(0) =~= t0);
            }
        },
    }
}

pub proof fn lemma_spans_text_prepend(s: Seq<Span>)
    requires
        s.len() > 0,
    ensures
        spans_text(s) == s[0].content@ + spans_text(s.drop_first()),
    decreases s.len(),
{
    if s.len() == 1 {
        assert(s.drop_first() =~= Seq::<Span>::empty());
        assert(s.drop_last() =~= Seq::<Span>::empty());
    } else {
        lemma_spans_text_prepend(s.drop_last());
        assert(s.drop_last().drop_first() =~= s.drop_first().drop_last());
    }
}

/// The texts of a list of lines of spans, one after another.
pub open spec fn lines_text(ls: Seq<Vec<Span>>) -> Seq<char>
    decreases ls.len(),
{
    if ls.len() == 0 { Seq::empty() } else { lines_text(ls.drop_last()) + spans_text(ls.last()@) }
}

/// A span as its text and style.
pub open spec fn span_item(s: Span) -> (Seq<char>, Style) {
    (s.content@, s.style)
}

/// The spans of a line as texts and styles.
pub open spec fn span_items(line: Seq<Span>) -> Seq<(Seq<char>, Style)> {
    line.map_values(|s: Span| span_item(s))
}

/// The grapheme clusters of the spans, in order, each with the style of the
/// span it comes from.
pub open spec fn grapheme_items(spans: Seq<Span>) -> Seq<(Seq<char>, Style)>
    decreases spans.len(),
{
    if spans.len() == 0 {
        Seq::empty()
    } else {
        grapheme_items(spans.drop_last())
            + grapheme_clusters(spans.last().content@).map_values(|g: Seq<char>| (g, spans.last().style))
    }
}

/// Greedy filling of lines `w` columns wide: each item goes on the current
/// line unless it would make it wider than `w` and the line already has
/// width, in which case it starts a new line. Gives the closed lines, the
/// current line and its width.
pub open spec fn greedy_lines(items: Seq<(Seq<char>, Style)>, w: nat)
    -> (Seq<Seq<(Seq<char>, Style)>>, Seq<(Seq<char>, Style)>, nat)
    decreases items.len(),
{
    if items.len() == 0 {
        (Seq::empty(), Seq::empty(), 0)
    } else {
        let prev = greedy_lines(items.drop_last(), w);
        let x = items.last();
        let gw = text_width(x.0) as nat;
        if prev.2 + gw > w && prev.2 > 0 {
            (prev.0.push(prev.1), seq![x], gw)
        } else {
            (prev.0, prev.1.push(x), prev.2 + gw)
        }
    }
}

/// The lines greedy filling gives, the current one included.
pub open spec fn greedy_wrap(items: Seq<(Seq<char>, Style)>, w: nat) -> Seq<Seq<(Seq<char>, Style)>> {
    let g = greedy_lines(items, w);
    g.0.push(g.1)
}

/// The lines as texts and styles.
pub open spec fn wrapped_items(ls: Seq<Vec<Span>>) -> Seq<Seq<(Seq<char>, Style)>> {
    ls.map_values(|l: Vec<Span>| span_items(l@))
}

/// Breaks spans into lines of at most `width` columns (at least 1), one
/// span per grapheme; a grapheme wider than the line gets a line of its own.
#[verifier::rlimit(50)]
pub fn wrap_spans(spans: Vec<Span>, width: usize) -> (r: Vec<Vec<Span>>)
    ensures
        wrapped_items(r@) == greedy_wrap(grapheme_items(spans@), if width == 0 { 1 } else { width as nat }),
        r@.len() >= 1,
        forall|i: int| 1 <= i < r@.len() ==> (#[trigger] r@[i])@.len() > 0,
        r@[0]@.len() == 0 ==> r@.len() == 1,
        lines_text(r@) == spans_text(spans@),
        forall|i: int| 0 <= i < r@.len() ==> spans_width((#[trigger] r@[i])@) <= (if width == 0 { 1 } else { width })
            || spans_width(r@[i]@.drop_last()) == 0,
{
    let w = if width == 0 { 1 } else { width };
    let mut done: Vec<Vec<Span>> = Vec::new();
    let mut cur: Vec<Span> = Vec::new();
    let mut cur_w: usize = 0;
    let mut i: usize = 0;
    while i < spans.len()
        invariant
            i <= spans@.len(),
            w >= 1,
            w == (if width == 0 { 1 } else { width }),
            lines_text(done@) + spans_text(cur@) == spans_text(spans@.subrange(0, i as int)),
            cur_w == spans_width(cur@),
            forall|k: int| 0 <= k < done@.len() ==> spans_width((#[trigger] done@[k])@) <= w || spans_width(done@[k]@.drop_last()) == 0,
            spans_width(cur@) <= w || spans_width(cur@.drop_last()) == 0,
            (wrapped_items(done@), span_items(cur@), cur_w as nat) == greedy_lines(grapheme_items(spans@.subrange(0, i as int)), w as nat),
            forall|k: int| 0 <= k < done@.len() ==> (#[trigger] done@[k])@.len() > 0,
            done@.len() > 0 ==> cur@.len() > 0,
        decreases spans.len() - i,
    {
        let style = spans[i].style;
        let gs = graphemes(spans[i].content.as_str());
        let ghost base = spans_text(spans@.subrange(0, i as int));
        let ghost pre = grapheme_items(spans@.subrange(0, i as int));
        let ghost gseq = grapheme_clusters(spans@[i as int].content@);
        let mut k: usize = 0;
        while k < gs.len()
            invariant
                k <= gs@.len(),
                w >= 1,
                gs@.len() == gseq.len(),
                forall|q: int| 0 <= q < gs@.len() ==> (#[trigger] gs@[q])@ == gseq[q],
                lines_text(done@) + spans_text(cur@) == base + concat_all(gs@.subrange(0, k as int).map_values(|g: String| g@)),
                cur_w == spans_width(cur@),
                forall|q: int| 0 <= q < done@.len() ==> spans_width((#[trigger] done@[q])@) <= w || spans_width(done@[q]@.drop_last()) == 0,
                spans_width(cur@) <= w || spans_width(cur@.drop_last()) == 0,
                (wrapped_items(done@), span_items(cur@), cur_w as nat)
                    == greedy_lines(pre + gseq.take(k as int).map_values(|g: Seq<char>| (g, style)), w as nat),
                forall|q: int| 0 <= q < done@.len() ==> (#[trigger] done@[q])@.len() > 0,
                done@.len() > 0 ==> cur@.len() > 0,
            decreases gs.len() - k,
        {
            let gw = str_width(gs[k].as_str());
            let ghost gvk = gs@.subrange(0, k as int).map_values(|g: String| g@);
            let ghost txt_before = lines_text(done@) + spans_text(cur@);
            let ghost items0 = pre + gseq.take(k as int).map_values(|g: Seq<char>| (g, style));
            let ghost items1 = pre + gseq.take(k + 1).map_values(|g: Seq<char>| (g, style));
            let ghost x = (gseq[k as int], style);
            proof {
                assert(items1.drop_last() =~= items0);
                assert(items1.last() == x);
            }
            let too_wide = match cur_w.checked_add(gw) {
                None => true,
                Some(t) => t > w,
            };
            let ghost break_line = too_wide && cur_w > 0;
            let ghost wd0 = wrapped_items(done@);
            if too_wide && cur_w > 0 {
                let mut fresh: Vec<Span> = Vec::new();
                std::mem::swap(&mut fresh, &mut cur);
                let ghost d0 = done@;
                done.push(fresh);
                assert(done@.drop_last() =~= d0);
                assert(lines_text(done@) == lines_text(d0) + spans_text(fresh@));
                assert(spans_text(cur@) =~= Seq::<char>::empty());
                assert(wrapped_items(done@) =~= wd0.push(span_items(fresh@)));
                assert(fresh@.len() > 0);
                cur_w = 0;
            }
            let ghost cur0 = cur@;
            let ghost started = cur_w == 0;
            let gcopy = copy_string(&gs[k]);
            cur.push(Span::styled(gcopy, style));
            assert(cur@.drop_last() =~= cur0);
            assert(cur@.last().content@ == gs@[k as int]@);
            assert(spans_width(cur@) == spans_width(cur0) + gw);
            assert(spans_text(cur@) == spans_text(cur0) + gs@[k as int]@);
            assert(span_items(cur@) =~= span_items(cur0).push(x));
            proof {
                let gv = gs@.subrange(0, k + 1).map_values(|g: String| g@);
                assert(gv.drop_last() =~= gvk);
                assert(gv.last() == gs@[k as int]@);
                assert(concat_all(gv) == concat_all(gvk) + gs@[k as int]@);
                assert(lines_text(done@) + spans_text(cur@) =~= txt_before + gs@[k as int]@);
                if break_line {
                    assert(cur0.len() == 0);
                    assert(spans_width(cur@.drop_last()) == 0);
                    assert(span_items(cur@) =~= seq![x]);
                } else if spans_width(cur0) == 0 {
                    assert(spans_width(cur@.drop_last()) == 0);
                } else {
                    assert(spans_width(cur@) <= w);
                }
            }
            cur_w = cur_w + gw;
            k = k + 1;
        }
        proof {
            assert(gs@.subrange(0, gs@.len() as int) =~= gs@);
            assert(spans@.subrange(0, i + 1).drop_last() =~= spans@.subrange(0, i as int));
            assert(gseq.take(gseq.len() as int) =~= gseq);
            assert(spans@.subrange(0, i + 1).last() == spans@[i as int]);
            assert(grapheme_items(spans@.subrange(0, i + 1))
                =~= pre + gseq.take(gs@.len() as int).map_values(|g: Seq<char>| (g, style)));
        }
        i = i + 1;
    }
    assert(spans@.subrange(0, spans@.len() as int) =~= spans@);
    let ghost d0 = done@;
    let ghost wd0 = wrapped_items(done@);
    done.push(cur);
    assert(done@.drop_last() =~= d0);
    assert(wrapped_items(done@) =~= wd0.push(span_items(done@.last()@)));
    done
}

} // verus!
