use vstd::prelude::*;
use crate::text::{decimal, digit_char, to_chars, starts_at, find_from, occurs_at, find_chars_from, lemma_find_from_bounds};

verus! {

broadcast use vstd::string::group_string_axioms;

// ---------------------------------------------------------------------------
// Delimiters
// ---------------------------------------------------------------------------

/// `$$`
pub open spec fn dd() -> Seq<char> { seq!['$', '$'] }
/// `$`
pub open spec fn d1() -> Seq<char> { seq!['$'] }
/// `\[`
pub open spec fn lbrack() -> Seq<char> { seq!['\\', '['] }
/// `\]`
pub open spec fn rbrack() -> Seq<char> { seq!['\\', ']'] }
/// `\(`
pub open spec fn lparen() -> Seq<char> { seq!['\\', '('] }
/// `\)`
pub open spec fn rparen() -> Seq<char> { seq!['\\', ')'] }

/// Number of LaTeX display environments that are treated as math.
pub const ENV_COUNT: usize = 9;

/// The names of the LaTeX environments treated as display math, in the
/// order in which they are tried.
pub open spec fn env_name(k: int) -> Seq<char> {
    if k == 0 { seq!['e', 'q', 'u', 'a', 't', 'i', 'o', 'n'] }
    else if k == 1 { seq!['e', 'q', 'u', 'a', 't', 'i', 'o', 'n', '*'] }
    else if k == 2 { seq!['a', 'l', 'i', 'g', 'n'] }
    else if k == 3 { seq!['a', 'l', 'i', 'g', 'n', '*'] }
    else if k == 4 { seq!['g', 'a', 't', 'h', 'e', 'r'] }
    else if k == 5 { seq!['g', 'a', 't', 'h', 'e', 'r', '*'] }
    else if k == 6 { seq!['m', 'u', 'l', 't', 'l', 'i', 'n', 'e'] }
    else if k == 7 { seq!['m', 'u', 'l', 't', 'l', 'i', 'n', 'e', '*'] }
    else { seq!['s', 'p', 'l', 'i', 't'] }
}

/// `\begin{NAME}` for environment `k`.
pub open spec fn env_open(k: int) -> Seq<char> {
    seq!['\\', 'b', 'e', 'g', 'i', 'n', '{'] + env_name(k) + seq!['}']
}

/// `\end{NAME}` for environment `k`.
pub open spec fn env_close(k: int) -> Seq<char> {
    seq!['\\', 'e', 'n', 'd', '{'] + env_name(k) + seq!['}']
}

/// The first environment, from `k` on, whose opening occurs at `i`.
pub open spec fn latex_env_from(s: Seq<char>, i: int, k: int) -> Option<int>
    decreases 9 - k,
{
    if k < 0 || k >= 9 {
        None
    } else if starts_at(s, i, env_open(k)) {
        Some(k)
    } else {
        latex_env_from(s, i, k + 1)
    }
}

/// The environment whose opening occurs at position `i` of `s`, if any.
pub open spec fn latex_env_at(s: Seq<char>, i: int) -> Option<int> {
    latex_env_from(s, i, 0)
}

proof fn lemma_latex_env_from_range(s: Seq<char>, i: int, k: int)
    requires
        0 <= k,
    ensures
        latex_env_from(s, i, k) matches Some(j) ==> k <= j < 9 && starts_at(s, i, env_open(j)),
    decreases 9 - k,
{
    if k < 9 && !starts_at(s, i, env_open(k)) {
        lemma_latex_env_from_range(s, i, k + 1);
    }
}

fn env_name_chars(k: usize) -> (r: Vec<char>)
    requires
        k < 9,
    ensures
        r@ == env_name(k as int),
{
    let v = if k == 0 { vec!['e', 'q', 'u', 'a', 't', 'i', 'o', 'n'] }
    else if k == 1 { vec!['e', 'q', 'u', 'a', 't', 'i', 'o', 'n', '*'] }
    else if k == 2 { vec!['a', 'l', 'i', 'g', 'n'] }
    else if k == 3 { vec!['a', 'l', 'i', 'g', 'n', '*'] }
    else if k == 4 { vec!['g', 'a', 't', 'h', 'e', 'r'] }
    else if k == 5 { vec!['g', 'a', 't', 'h', 'e', 'r', '*'] }
    else if k == 6 { vec!['m', 'u', 'l', 't', 'l', 'i', 'n', 'e'] }
    else if k == 7 { vec!['m', 'u', 'l', 't', 'l', 'i', 'n', 'e', '*'] }
    else { vec!['s', 'p', 'l', 'i', 't'] };
    assert(v@ =~= env_name(k as int));
    v
}

fn concat3(a: Vec<char>, b: &Vec<char>, c: Vec<char>) -> (r: Vec<char>)
    ensures
        r@ == a@ + b@ + c@,
{
    let mut out = a;
    let mut i: usize = 0;
    while i < b.len()
        invariant
            i <= b@.len(),
            out@ == a@ + b@.subrange(0, i as int),
        decreases b.len() - i,
    {
        out.push(b[i]);
        i = i + 1;
    }
    let mut j: usize = 0;
    while j < c.len()
        invariant
            j <= c@.len(),
            out@ == a@ + b@ + c@.subrange(0, j as int),
        decreases c.len() - j,
    {
        out.push(c[j]);
        j = j + 1;
    }
    assert(b@.subrange(0, b@.len() as int) =~= b@);
    assert(c@.subrange(0, c@.len() as int) =~= c@);
    out
}

fn env_open_chars(k: usize) -> (r: Vec<char>)
    requires
        k < 9,
    ensures
        r@ == env_open(k as int),
{
    let name = env_name_chars(k);
    let r = concat3(vec!['\\', 'b', 'e', 'g', 'i', 'n', '{'], &name, vec!['}']);
    assert(r@ =~= env_open(k as int));
    r
}

fn env_close_chars(k: usize) -> (r: Vec<char>)
    requires
        k < 9,
    ensures
        r@ == env_close(k as int),
{
    let name = env_name_chars(k);
    let r = concat3(vec!['\\', 'e', 'n', 'd', '{'], &name, vec!['}']);
    assert(r@ =~= env_close(k as int));
    r
}

/// The index of the LaTeX environment opened at position `i` of `s`.
pub fn latex_env_index_at(s: &Vec<char>, i: usize) -> (r: Option<usize>)
    ensures
        r matches Some(k) ==> latex_env_at(s@, i as int) == Some(k as int) && k < 9,
        r is None ==> latex_env_at(s@, i as int) is None,
{
    let mut k: usize = 0;
    while k < ENV_COUNT
        invariant
            k <= 9,
            latex_env_at(s@, i as int) == latex_env_from(s@, i as int, k as int),
        decreases 9 - k,
    {
        let open = env_open_chars(k);
        if occurs_at(s, i, &open) {
            return Some(k);
        }
        k = k + 1;
    }
    None
}

fn env_literals(k: usize) -> (r: (&'static str, &'static str))
    requires
        k < 9,
    ensures
        r.0@ == env_open(k as int),
        r.1@ == env_close(k as int),
{
    if k == 0 {
        proof {
            reveal_strlit("\\begin{equation}");
            reveal_strlit("\\end{equation}");
        }
        let r = ("\\begin{equation}", "\\end{equation}");
        assert(r.0@ =~= env_open(0));
        assert(r.1@ =~= env_close(0));
        r
    } else if k == 1 {
        proof {
            reveal_strlit("\\begin{equation*}");
            reveal_strlit("\\end{equation*}");
        }
        let r = ("\\begin{equation*}", "\\end{equation*}");
        assert(r.0@ =~= env_open(1));
        assert(r.1@ =~= env_close(1));
        r
    } else if k == 2 {
        proof {
            reveal_strlit("\\begin{align}");
            reveal_strlit("\\end{align}");
        }
        let r = ("\\begin{align}", "\\end{align}");
        assert(r.0@ =~= env_open(2));
        assert(r.1@ =~= env_close(2));
        r
    } else if k == 3 {
        proof {
            reveal_strlit("\\begin{align*}");
            reveal_strlit("\\end{align*}");
        }
        let r = ("\\begin{align*}", "\\end{align*}");
        assert(r.0@ =~= env_open(3));
        assert(r.1@ =~= env_close(3));
        r
    } else if k == 4 {
        proof {
            reveal_strlit("\\begin{gather}");
            reveal_strlit("\\end{gather}");
        }
        let r = ("\\begin{gather}", "\\end{gather}");
        assert(r.0@ =~= env_open(4));
        assert(r.1@ =~= env_close(4));
        r
    } else if k == 5 {
        proof {
            reveal_strlit("\\begin{gather*}");
            reveal_strlit("\\end{gather*}");
        }
        let r = ("\\begin{gather*}", "\\end{gather*}");
        assert(r.0@ =~= env_open(5));
        assert(r.1@ =~= env_close(5));
        r
    } else if k == 6 {
        proof {
            reveal_strlit("\\begin{multline}");
            reveal_strlit("\\end{multline}");
        }
        let r = ("\\begin{multline}", "\\end{multline}");
        assert(r.0@ =~= env_open(6));
        assert(r.1@ =~= env_close(6));
        r
    } else if k == 7 {
        proof {
            reveal_strlit("\\begin{multline*}");
            reveal_strlit("\\end{multline*}");
        }
        let r = ("\\begin{multline*}", "\\end{multline*}");
        assert(r.0@ =~= env_open(7));
        assert(r.1@ =~= env_close(7));
        r
    } else {
        proof {
            reveal_strlit("\\begin{split}");
            reveal_strlit("\\end{split}");
        }
        let r = ("\\begin{split}", "\\end{split}");
        assert(r.0@ =~= env_open(8));
        assert(r.1@ =~= env_close(8));
        r
    }
}

/// The opening and closing delimiters of the LaTeX display environment
/// (equation, align, gather, multline, each with or without `*`, or split)
/// that `input` starts with, if any.
pub fn latex_environment_delimiters(input: &str) -> (r: Option<(&'static str, &'static str)>)
    ensures
        r is None <==> latex_env_at(input@, 0) is None,
        r matches Some(p) ==> p.0@ == env_open(latex_env_at(input@, 0)->0)
            && p.1@ == env_close(latex_env_at(input@, 0)->0),
{
    let s = to_chars(input);
    match latex_env_index_at(&s, 0) {
        Some(k) => Some(env_literals(k)),
        None => None,
    }
}

// ---------------------------------------------------------------------------
// Finding the closing delimiter
// ---------------------------------------------------------------------------

/// The number of backslashes directly before position `end` of `s`.
pub open spec fn backslashes_before(s: Seq<char>, end: int) -> nat
    decreases end,
{
    if end <= 0 || end > s.len() {
        0
    } else if s[end - 1] == '\\' {
        1 + backslashes_before(s, end - 1)
    } else {
        0
    }
}

/// Searching `h` from `from` on for `p`: the first occurrence that is not
/// escaped by an odd number of backslashes; an escaped occurrence is skipped
/// whole.
pub open spec fn close_search(h: Seq<char>, p: Seq<char>, from: int) -> Option<int>
    decreases h.len() - from,
{
    if p.len() == 0 || from < 0 {
        None
    } else {
        match find_from(h, p, from) {
            None => None,
            Some(pos) => {
                if pos < from || pos + p.len() > h.len() {
                    None
                } else if backslashes_before(h, pos) % 2 == 1 {
                    close_search(h, p, pos + p.len())
                } else {
                    Some(pos)
                }
            },
        }
    }
}

fn count_backslashes_before(h: &Vec<char>, end: usize) -> (r: usize)
    requires
        end <= h@.len(),
    ensures
        r == backslashes_before(h@, end as int),
{
    let mut k: usize = end;
    let mut count: usize = 0;
    while k > 0 && h[k - 1] == '\\'
        invariant
            k <= end <= h@.len(),
            count + k == end,
            backslashes_before(h@, end as int) == count + backslashes_before(h@, k as int),
        decreases k,
    {
        k = k - 1;
        count = count + 1;
    }
    count
}

/// Position of the first unescaped occurrence of `p` in `h`.
fn close_search_exec(h: &Vec<char>, p: &Vec<char>) -> (r: Option<usize>)
    requires
        p@.len() > 0,
    ensures
        r matches Some(k) ==> close_search(h@, p@, 0) == Some(k as int),
        r is None ==> close_search(h@, p@, 0) is None,
{
    let mut from: usize = 0;
    loop
        invariant
            p@.len() > 0,
            from <= h@.len(),
            close_search(h@, p@, 0) == close_search(h@, p@, from as int),
        decreases h@.len() - from,
    {
        proof {
            lemma_find_from_bounds(h@, p@, from as int);
        }
        match find_chars_from(h, p, from) {
            None => {
                return None;
            },
            Some(pos) => {
                assert(find_from(h@, p@, from as int) == Some(pos as int));
                assert(pos + p.len() <= h.len());
                let n = count_backslashes_before(h, pos);
                if n % 2 == 1 {
                    from = pos + p.len();
                } else {
                    return Some(pos);
                }
            },
        }
    }
}

/// UTF-8 length of a character.
pub open spec fn utf8_len(c: char) -> nat {
    if (c as u32) < 0x80 { 1 } else if (c as u32) < 0x800 { 2 } else if (c as u32) < 0x10000 { 3 } else { 4 }
}

/// UTF-8 length of a character sequence.
pub open spec fn utf8_len_seq(s: Seq<char>) -> nat
    decreases s.len(),
{
    if s.len() == 0 { 0 } else { utf8_len_seq(s.drop_last()) + utf8_len(s.last()) }
}

/// UTF-8 length of a character (executable form).
pub fn char_utf8_len(c: char) -> (r: usize)
    ensures
        r == utf8_len(c),
{
    let u = c as u32;
    if u < 0x80 { 1 } else if u < 0x800 { 2 } else if u < 0x10000 { 3 } else { 4 }
}

/// Byte length of the first `n` characters of `s`.
pub fn byte_len_prefix(s: &Vec<char>, n: usize) -> (r: usize)
    requires
        n <= s@.len(),
        utf8_len_seq(s@.take(n as int)) <= usize::MAX,
    ensures
        r == utf8_len_seq(s@.take(n as int)),
{
    let mut total: usize = 0;
    let mut i: usize = 0;
    while i < n
        invariant
            i <= n <= s@.len(),
            total == utf8_len_seq(s@.take(i as int)),
            utf8_len_seq(s@.take(n as int)) <= usize::MAX,
        decreases n - i,
    {
        proof {
            assert(s@.take(i + 1).drop_last() =~= s@.take(i as int));
            lemma_utf8_len_prefix_mono(s@, i as int + 1, n as int);
        }
        total = total + char_utf8_len(s[i]);
        i = i + 1;
    }
    total
}

pub proof fn lemma_utf8_len_prefix_mono(s: Seq<char>, a: int, b: int)
    requires
        0 <= a <= b <= s.len(),
    ensures
        utf8_len_seq(s.take(a)) <= utf8_len_seq(s.take(b)),
    decreases b - a,
{
    if a < b {
        assert(s.take(b).drop_last() =~= s.take(b - 1));
        lemma_utf8_len_prefix_mono(s, a, b - 1);
    }
}

/// Finds `close` in `haystack`, skipping occurrences escaped by an odd
/// number of backslashes; returns the byte offset of the match.
pub fn find_math_close(haystack: &str, close: &str) -> (r: Option<usize>)
    requires
        close@.len() > 0,
        utf8_len_seq(haystack@) <= usize::MAX,
    ensures
        r is None <==> close_search(haystack@, close@, 0) is None,
        r matches Some(b) ==> b == utf8_len_seq(haystack@.take(close_search(haystack@, close@, 0)->0)),
{
    let h = to_chars(haystack);
    let p = to_chars(close);
    match close_search_exec(&h, &p) {
        None => None,
        Some(pos) => {
            proof {
                lemma_close_search_bounds(h@, p@, 0);
                lemma_utf8_len_prefix_mono(h@, pos as int, h@.len() as int);
                assert(h@.take(h@.len() as int) =~= h@);
            }
            Some(byte_len_prefix(&h, pos))
        },
    }
}

proof fn lemma_close_search_bounds(h: Seq<char>, p: Seq<char>, from: int)
    ensures
        close_search(h, p, from) matches Some(k) ==> from <= k && k + p.len() <= h.len()
            && starts_at(h, k, p),
    decreases h.len() - from,
{
    if p.len() > 0 && from >= 0 {
        lemma_find_from_bounds(h, p, from);
        match find_from(h, p, from) {
            None => {},
            Some(pos) => {
                if pos >= from && pos + p.len() <= h.len() && backslashes_before(h, pos) % 2 == 1 {
                    lemma_close_search_bounds(h, p, pos + p.len());
                }
            },
        }
    }
}


// ---------------------------------------------------------------------------
// Protecting math from the Markdown parser
// ---------------------------------------------------------------------------

/// `TUILLAMAMATHPLACEHOLDER`
pub open spec fn ph_prefix() -> Seq<char> {
    seq!['T', 'U', 'I', 'L', 'L', 'A', 'M', 'A', 'M', 'A', 'T', 'H', 'P', 'L', 'A', 'C', 'E', 'H', 'O', 'L', 'D', 'E', 'R']
}

/// `END`
pub open spec fn ph_suffix() -> Seq<char> {
    seq!['E', 'N', 'D']
}

/// The text that stands in for the `idx`-th math span.
pub open spec fn placeholder(idx: nat) -> Seq<char> {
    ph_prefix() + decimal(idx) + ph_suffix()
}

/// The math delimiter opening at position `i`: its closing delimiter,
/// whether it is display math, and the length of the opening delimiter.
pub open spec fn math_open_at(s: Seq<char>, i: int) -> Option<(Seq<char>, bool, int)> {
    if starts_at(s, i, dd()) {
        Some((dd(), true, 2))
    } else if starts_at(s, i, lbrack()) {
        Some((rbrack(), true, 2))
    } else if starts_at(s, i, lparen()) {
        Some((rparen(), false, 2))
    } else {
        match latex_env_at(s, i) {
            Some(k) => Some((env_close(k), true, env_open(k).len() as int)),
            None => if starts_at(s, i, d1()) {
                Some((d1(), false, 1))
            } else {
                None
            },
        }
    }
}

/// The span of math opened at `i`: display flag, where its content starts,
/// where it ends, and where the text after its closing delimiter starts.
pub open spec fn math_span_at(s: Seq<char>, i: int) -> Option<(bool, int, int, int)> {
    match math_open_at(s, i) {
        None => None,
        Some(d) => {
            let cs = i + d.2;
            if cs > s.len() {
                None
            } else {
                match close_search(s.subrange(cs, s.len() as int), d.0, 0) {
                    None => None,
                    Some(rel) => if rel < 0 || cs + rel + d.0.len() > s.len() {
                        None
                    } else {
                        Some((d.1, cs, cs + rel, cs + rel + d.0.len()))
                    },
                }
            }
        },
    }
}

/// The protected text and the math spans taken out, scanning from `i`.
pub open spec fn protect_from(s: Seq<char>, i: int, out: Seq<char>, ph: Seq<(bool, Seq<char>)>) -> (Seq<char>, Seq<(bool, Seq<char>)>)
    decreases s.len() - i,
{
    if i < 0 || i >= s.len() {
        (out, ph)
    } else {
        match math_span_at(s, i) {
            Some(m) => if m.3 <= i {
                (out, ph)
            } else {
                protect_from(s, m.3, out + placeholder(ph.len()), ph.push((m.0, s.subrange(m.1, m.2))))
            },
            None => protect_from(s, i + 1, out.push(s[i]), ph),
        }
    }
}

/// Where the scan of `protect_math` reaches `\(` whose closing `\)` is
/// found `rel` characters after it, the span is replaced by the next
/// placeholder and recorded as inline math holding the text between the two
/// delimiters; the scan goes on after the `\)`.
pub proof fn lemma_inline_paren_math_is_protected(s: Seq<char>, i: int, rel: int, out: Seq<char>, ph: Seq<(bool, Seq<char>)>)
    requires
        0 <= i,
        i + 2 <= s.len(),
        s[i] == '\\',
        s[i + 1] == '(',
        close_search(s.subrange(i + 2, s.len() as int), rparen(), 0) == Some(rel),
    ensures
        math_span_at(s, i) == Some((false, i + 2, i + 2 + rel, i + 2 + rel + 2)),
        protect_from(s, i, out, ph) == protect_from(s, i + 2 + rel + 2, out + placeholder(ph.len()),
            ph.push((false, s.subrange(i + 2, i + 2 + rel)))),
{
    assert(s.subrange(i, i + 2) =~= lparen());
    assert(starts_at(s, i, lparen()));
    assert(!starts_at(s, i, dd()));
    assert(!starts_at(s, i, lbrack())) by {
        if starts_at(s, i, lbrack()) {
            assert(s.subrange(i, i + 2)[1] == '[');
        }
    }
    lemma_close_search_bounds(s.subrange(i + 2, s.len() as int), rparen(), 0);
}

/// The placeholders of `protect_math` as plain values.
pub open spec fn placeholders_view(ph: Seq<(bool, String)>) -> Seq<(bool, Seq<char>)> {
    ph.map_values(|p: (bool, String)| (p.0, p.1@))
}

fn math_open_exec(s: &Vec<char>, i: usize) -> (r: Option<(Vec<char>, bool, usize)>)
    ensures
        r is None <==> math_open_at(s@, i as int) is None,
        r matches Some(d) ==> math_open_at(s@, i as int) == Some((d.0@, d.1, d.2 as int))
            && d.0@.len() > 0 && d.2 > 0,
{
    let dd_v = vec!['$', '$'];
    let lb_v = vec!['\\', '['];
    let lp_v = vec!['\\', '('];
    let d_v = vec!['$'];
    assert(dd_v@ =~= dd());
    assert(lb_v@ =~= lbrack());
    assert(lp_v@ =~= lparen());
    assert(d_v@ =~= d1());
    if occurs_at(s, i, &dd_v) {
        let c = vec!['$', '$'];
        assert(c@ =~= dd());
        Some((c, true, 2))
    } else if occurs_at(s, i, &lb_v) {
        let c = vec!['\\', ']'];
        assert(c@ =~= rbrack());
        Some((c, true, 2))
    } else if occurs_at(s, i, &lp_v) {
        let c = vec!['\\', ')'];
        assert(c@ =~= rparen());
        Some((c, false, 2))
    } else {
        match latex_env_index_at(s, i) {
            Some(k) => {
                let open = env_open_chars(k);
                let close = env_close_chars(k);
                Some((close, true, open.len()))
            },
            None => {
                if occurs_at(s, i, &d_v) {
                    let c = vec!['$'];
                    assert(c@ =~= d1());
                    Some((c, false, 1))
                } else {
                    None
                }
            },
        }
    }
}

fn copy_range(s: &Vec<char>, from: usize, to: usize) -> (r: Vec<char>)
    requires
        from <= to <= s@.len(),
    ensures
        r@ == s@.subrange(from as int, to as int),
{
    let mut out: Vec<char> = Vec::new();
    let mut i: usize = from;
    while i < to
        invariant
            from <= i <= to <= s@.len(),
            out@ == s@.subrange(from as int, i as int),
        decreases to - i,
    {
        out.push(s[i]);
        i = i + 1;
    }
    out
}

fn push_placeholder(out: &mut String, idx: usize)
    ensures
        final(out)@ == old(out)@ + placeholder(idx as nat),
{
    let pre = vec!['T', 'U', 'I', 'L', 'L', 'A', 'M', 'A', 'M', 'A', 'T', 'H', 'P', 'L', 'A', 'C', 'E', 'H', 'O', 'L', 'D', 'E', 'R'];
    let suf = vec!['E', 'N', 'D'];
    assert(pre@ =~= ph_prefix());
    assert(suf@ =~= ph_suffix());
    crate::text::push_chars(out, &pre);
    crate::text::push_decimal(out, idx as u64);
    crate::text::push_chars(out, &suf);
    assert(final(out)@ =~= old(out)@ + placeholder(idx as nat));
}

/// The math span opened at `i`, computed.
fn math_span_exec(s: &Vec<char>, i: usize) -> (r: Option<(bool, usize, usize, usize)>)
    requires
        i < s@.len(),
    ensures
        r is None <==> math_span_at(s@, i as int) is None,
        r matches Some(m) ==> math_span_at(s@, i as int) == Some((m.0, m.1 as int, m.2 as int, m.3 as int))
            && i < m.1 <= m.2 < m.3 <= s@.len(),
{
    match math_open_exec(s, i) {
        None => None,
        Some((close, block, ol)) => {
            proof {
                if math_open_at(s@, i as int) is Some {
                    lemma_latex_env_from_range(s@, i as int, 0);
                }
            }
            if ol > s.len() - i {
                return None;
            }
            let cs = i + ol;
            let h = copy_range(s, cs, s.len());
            match close_search_exec(&h, &close) {
                None => None,
                Some(rel) => {
                    proof {
                        lemma_close_search_bounds(h@, close@, 0);
                    }
                    Some((block, cs, cs + rel, cs + rel + close.len()))
                },
            }
        },
    }
}

/// Replaces every math span (`$$..$$`, `\[..\]`, `\(..\)`, LaTeX display
/// environments and `$..$`) by a placeholder, returning the protected text and
/// the spans taken out, each with its display flag.
pub fn protect_math(input: &str) -> (r: (String, Vec<(bool, String)>))
    ensures
        (r.0@, placeholders_view(r.1@)) == protect_from(input@, 0, Seq::empty(), Seq::empty()),
{
    let s = to_chars(input);
    let mut out = String::new();
    let mut ph: Vec<(bool, String)> = Vec::new();
    let mut i: usize = 0;
    assert(placeholders_view(ph@) =~= Seq::empty());
    assert(out@ =~= Seq::<char>::empty());
    while i < s.len()
        invariant
            i <= s@.len(),
            s@ == input@,
            protect_from(s@, 0, Seq::empty(), Seq::empty()) == protect_from(s@, i as int, out@, placeholders_view(ph@)),
        decreases s.len() - i,
    {
        match math_span_exec(&s, i) {
            Some((block, cs, ce, next)) => {
                let content = crate::text::string_of_range(&s, cs, ce);
                let ghost old_ph = ph@;
                let ghost old_out = out@;
                push_placeholder(&mut out, ph.len());
                ph.push((block, content));
                assert(placeholders_view(ph@) =~= placeholders_view(old_ph).push((block, s@.subrange(cs as int, ce as int))));
                i = next;
            },
            None => {
                out.push(s[i]);
                i = i + 1;
            },
        }
    }
    (out, ph)
}

// ---------------------------------------------------------------------------
// Splitting placeholders back out
// ---------------------------------------------------------------------------

/// A piece of text after math has been restored: plain text, or a math span.
pub enum MathSplit {
    Text(String),
    Math { block: bool, content: String },
}

/// The plain-value form of a `MathSplit`.
pub enum MathPart {
    Text(Seq<char>),
    Math(bool, Seq<char>),
}

impl View for MathSplit {
    type V = MathPart;

    open spec fn view(&self) -> MathPart {
        match self {
            MathSplit::Text(s) => MathPart::Text(s@),
            MathSplit::Math { block, content } => MathPart::Math(*block, content@),
        }
    }
}

pub open spec fn is_digit(c: char) -> bool {
    '0' <= c && c <= '9'
}

pub open spec fn all_digits(t: Seq<char>) -> bool {
    forall|i: int| 0 <= i < t.len() ==> is_digit(#[trigger] t[i])
}

/// The number that the decimal digits `t` spell.
pub open spec fn digits_value(t: Seq<char>) -> nat
    decreases t.len(),
{
    if t.len() == 0 {
        0
    } else {
        digits_value(t.drop_last()) * 10 + ((t.last() as nat) - ('0' as nat)) as nat
    }
}

/// What `usize::from_str` gives for `t`: an optional `+` and then at least one
/// decimal digit, with a value that fits.
pub open spec fn parse_usize_spec(t: Seq<char>) -> Option<nat> {
    let body = if t.len() > 0 && t[0] == '+' { t.drop_first() } else { t };
    if body.len() == 0 || !all_digits(body) {
        None
    } else if digits_value(body) <= usize::MAX {
        Some(digits_value(body))
    } else {
        None
    }
}

pub proof fn lemma_digits_value_mono(t: Seq<char>, a: int, b: int)
    requires
        0 <= a <= b <= t.len(),
        all_digits(t),
    ensures
        digits_value(t.subrange(0, a)) <= digits_value(t.subrange(0, b)),
    decreases b - a,
{
    if a < b {
        assert(t.subrange(0, b).drop_last() =~= t.subrange(0, b - 1));
        lemma_digits_value_mono(t, a, b - 1);
    }
}

/// Parses `t[from..to]` as `usize::from_str` does.
pub fn parse_usize_range(t: &Vec<char>, from: usize, to: usize) -> (r: Option<usize>)
    requires
        from <= to <= t@.len(),
    ensures
        r matches Some(v) ==> parse_usize_spec(t@.subrange(from as int, to as int)) == Some(v as nat),
        r is None ==> parse_usize_spec(t@.subrange(from as int, to as int)) is None,
{
    let ghost whole = t@.subrange(from as int, to as int);
    let mut start = from;
    if from < to && t[from] == '+' {
        start = from + 1;
    }
    let ghost body = t@.subrange(start as int, to as int);
    assert(body =~= (if whole.len() > 0 && whole[0] == '+' { whole.drop_first() } else { whole }));
    if start == to {
        assert(body.len() == 0);
        assert(parse_usize_spec(whole) is None);
        return None;
    }
    let mut i = start;
    while i < to
        invariant
            start <= i <= to <= t@.len(),
            body == t@.subrange(start as int, to as int),
            whole == t@.subrange(from as int, to as int),
            body == (if whole.len() > 0 && whole[0] == '+' { whole.drop_first() } else { whole }),
            all_digits(t@.subrange(start as int, i as int)),
        decreases to - i,
    {
        if !(t[i] >= '0' && t[i] <= '9') {
            assert(body[i - start] == t@[i as int]);
            assert(!is_digit(body[i - start]));
            assert(!all_digits(body));
            assert(parse_usize_spec(whole) is None);
            return None;
        }
        i = i + 1;
        assert(forall|j: int| 0 <= j < i - start ==> t@.subrange(start as int, i as int)[j] == t@[start + j]);
    }
    assert(t@.subrange(start as int, to as int) =~= body);
    let mut v: usize = 0;
    let mut k = start;
    while k < to
        invariant
            start <= k <= to <= t@.len(),
            body == t@.subrange(start as int, to as int),
            whole == t@.subrange(from as int, to as int),
            body == (if whole.len() > 0 && whole[0] == '+' { whole.drop_first() } else { whole }),
            body.len() > 0,
            all_digits(body),
            v == digits_value(body.subrange(0, k - start)),
        decreases to - k,
    {
        assert(body.subrange(0, k + 1 - start).drop_last() =~= body.subrange(0, k - start));
        assert(body[k - start] == t@[k as int]);
        assert(is_digit(body[k - start]));
        let d = (t[k] as u32 - '0' as u32) as usize;
        assert(digits_value(body.subrange(0, k + 1 - start)) == v * 10 + d);
        match v.checked_mul(10) {
            None => {
                proof {
                    lemma_digits_value_mono(body, k + 1 - start, body.len() as int);
                    assert(body.subrange(0, body.len() as int) =~= body);
                    assert(digits_value(body) > usize::MAX);
                    assert(parse_usize_spec(whole) is None);
                }
                return None;
            },
            Some(v10) => match v10.checked_add(d) {
                None => {
                    proof {
                        lemma_digits_value_mono(body, k + 1 - start, body.len() as int);
                        assert(body.subrange(0, body.len() as int) =~= body);
                        assert(digits_value(body) > usize::MAX);
                        assert(parse_usize_spec(whole) is None);
                    }
                    return None;
                },
                Some(nv) => {
                    v = nv;
                },
            },
        }
        k = k + 1;
    }
    assert(body.subrange(0, body.len() as int) =~= body);
    Some(v)
}

/// The pieces of `t` from `pos` on, with placeholders replaced by the math
/// spans they stand for (unknown indices are dropped).
pub open spec fn split_from(t: Seq<char>, ph: Seq<(bool, Seq<char>)>, pos: int, parts: Seq<MathPart>) -> Seq<MathPart>
    decreases t.len() - pos,
{
    if pos < 0 || pos > t.len() {
        parts
    } else {
        match find_from(t, ph_prefix(), pos) {
            None => if pos < t.len() {
                parts.push(MathPart::Text(t.subrange(pos, t.len() as int)))
            } else {
                parts
            },
            Some(start) => if start < pos || start + 23 > t.len() {
                parts
            } else {
                let parts1 = if start > pos {
                    parts.push(MathPart::Text(t.subrange(pos, start)))
                } else {
                    parts
                };
                let after = start + 23;
                match find_from(t, ph_suffix(), after) {
                    None => parts1.push(MathPart::Text(t.subrange(start, t.len() as int))),
                    Some(end) => if end < after || end + 3 > t.len() {
                        parts1
                    } else {
                        let parts2 = match parse_usize_spec(t.subrange(after, end)) {
                            Some(idx) => if idx < ph.len() {
                                parts1.push(MathPart::Math(ph[idx as int].0, ph[idx as int].1))
                            } else {
                                parts1
                            },
                            None => parts1,
                        };
                        split_from(t, ph, end + 3, parts2)
                    },
                }
            },
        }
    }
}

/// Splits `text` at math placeholders, replacing each by the math span it
/// stands for.
pub fn split_math_placeholders(text: &str, placeholders: &Vec<(bool, String)>) -> (r: Vec<MathSplit>)
    ensures
        r@.map_values(|m: MathSplit| m@) == split_from(text@, placeholders_view(placeholders@), 0, Seq::empty()),
{
    let t = to_chars(text);
    let pre = vec!['T', 'U', 'I', 'L', 'L', 'A', 'M', 'A', 'M', 'A', 'T', 'H', 'P', 'L', 'A', 'C', 'E', 'H', 'O', 'L', 'D', 'E', 'R'];
    let suf = vec!['E', 'N', 'D'];
    assert(pre@ =~= ph_prefix());
    assert(suf@ =~= ph_suffix());
    let ghost phv = placeholders_view(placeholders@);
    let mut parts: Vec<MathSplit> = Vec::new();
    let mut pos: usize = 0;
    assert(parts@.map_values(|m: MathSplit| m@) =~= Seq::empty());
    loop
        invariant
            pos <= t@.len(),
            t@ == text@,
            pre@ == ph_prefix(),
            suf@ == ph_suffix(),
            phv == placeholders_view(placeholders@),
            split_from(t@, phv, 0, Seq::empty()) == split_from(t@, phv, pos as int, parts@.map_values(|m: MathSplit| m@)),
        decreases t@.len() - pos,
    {
        let ghost pv = parts@.map_values(|m: MathSplit| m@);
        proof {
            lemma_find_from_bounds(t@, ph_prefix(), pos as int);
        }
        match find_chars_from(&t, &pre, pos) {
            None => {
                if pos < t.len() {
                    parts.push(MathSplit::Text(crate::text::string_of_range(&t, pos, t.len())));
                    assert(parts@.map_values(|m: MathSplit| m@) =~= pv.push(MathPart::Text(t@.subrange(pos as int, t@.len() as int))));
                } else {
                    assert(parts@.map_values(|m: MathSplit| m@) =~= pv);
                }
                return parts;
            },
            Some(start) => {
                if start > pos {
                    parts.push(MathSplit::Text(crate::text::string_of_range(&t, pos, start)));
                    assert(parts@.map_values(|m: MathSplit| m@) =~= pv.push(MathPart::Text(t@.subrange(pos as int, start as int))));
                }
                let ghost pv1 = parts@.map_values(|m: MathSplit| m@);
                assert(find_from(t@, ph_prefix(), pos as int) == Some(start as int));
                assert(start + 23 <= t.len());
                let after = start + 23;
                proof {
                    lemma_find_from_bounds(t@, ph_suffix(), after as int);
                }
                match find_chars_from(&t, &suf, after) {
                    None => {
                        parts.push(MathSplit::Text(crate::text::string_of_range(&t, start, t.len())));
                        assert(parts@.map_values(|m: MathSplit| m@) =~= pv1.push(MathPart::Text(t@.subrange(start as int, t@.len() as int))));
                        return parts;
                    },
                    Some(end) => {
                        match parse_usize_range(&t, after, end) {
                            Some(idx) => {
                                if idx < placeholders.len() {
                                    let block = placeholders[idx].0;
                                    let content = crate::text::copy_string(&placeholders[idx].1);
                                    parts.push(MathSplit::Math { block, content });
                                    assert(parts@.map_values(|m: MathSplit| m@) =~= pv1.push(MathPart::Math(phv[idx as int].0, phv[idx as int].1)));
                                }
                            },
                            None => {},
                        }
                        pos = end + 3;
                    },
                }
            },
        }
    }
}


pub proof fn lemma_utf8_len_first(s: Seq<char>)
    requires
        s.len() > 0,
    ensures
        utf8_len_seq(s) == utf8_len(s[0]) + utf8_len_seq(s.drop_first()),
    decreases s.len(),
{
    if s.len() == 1 {
        assert(s.drop_last() =~= Seq::<char>::empty());
        assert(s.drop_first() =~= Seq::<char>::empty());
    } else {
        lemma_utf8_len_first(s.drop_last());
        assert(s.drop_last().drop_first() =~= s.drop_first().drop_last());
    }
}

/// The UTF-8 encoding of `s` is `utf8_len_seq(s)` bytes long.
pub proof fn lemma_encode_utf8_len(s: Seq<char>)
    ensures
        vstd::utf8::encode_utf8(s).len() == utf8_len_seq(s),
    decreases s.len(),
{
    if s.len() > 0 {
        lemma_encode_utf8_len(s.drop_first());
        lemma_utf8_len_first(s);
        vstd::utf8::char_is_scalar(s[0]);
    }
}


proof fn lemma_decimal_digits(n: nat)
    ensures
        decimal(n).len() > 0,
        all_digits(decimal(n)),
        digits_value(decimal(n)) == n,
    decreases n,
{
    let d = n % 10;
    assert(is_digit(digit_char(d)) && (digit_char(d) as nat) - ('0' as nat) == d) by {
        if d == 0 {} else if d == 1 {} else if d == 2 {} else if d == 3 {} else if d == 4 {}
        else if d == 5 {} else if d == 6 {} else if d == 7 {} else if d == 8 {} else {}
    }
    if n >= 10 {
        lemma_decimal_digits(n / 10);
        assert(decimal(n).drop_last() =~= decimal(n / 10));
        assert(decimal(n).last() == digit_char(d));
        assert(digits_value(decimal(n)) == digits_value(decimal(n / 10)) * 10 + d);
        assert((n / 10) * 10 + n % 10 == n) by (nonlinear_arith);
        assert forall|i: int| 0 <= i < decimal(n).len() implies is_digit(#[trigger] decimal(n)[i]) by {
            if i < decimal(n).len() - 1 {
                assert(decimal(n)[i] == decimal(n / 10)[i]);
            }
        }
    } else {
        assert(decimal(n).drop_last() =~= Seq::<char>::empty());
        assert(decimal(n).last() == digit_char(d));
        assert(n % 10 == n);
        assert(digits_value(decimal(n)) == digits_value(Seq::<char>::empty()) * 10 + d);
    }
}

proof fn lemma_find_first(s: Seq<char>, p: Seq<char>, from: int, x: int)
    requires
        0 <= from <= x,
        starts_at(s, x, p),
        forall|y: int| from <= y < x ==> !starts_at(s, y, p),
    ensures
        find_from(s, p, from) == Some(x),
    decreases x - from,
{
    if from < x {
        lemma_find_first(s, p, from + 1, x);
    }
}

/// The text that stands in for a math span splits back into that span:
/// the placeholder of span `n` reads as span `n` and nothing else.
pub proof fn lemma_placeholder_gives_back_span(ph: Seq<(bool, Seq<char>)>, n: nat)
    requires
        n < ph.len(),
        n <= usize::MAX,
    ensures
        split_from(placeholder(n), ph, 0, Seq::empty()) == seq![MathPart::Math(ph[n as int].0, ph[n as int].1)],
{
    let t = placeholder(n);
    let dec = decimal(n);
    lemma_decimal_digits(n);
    let after: int = 23;
    let end: int = 23 + dec.len() as int;
    assert(t.len() == end + 3);
    assert(t.subrange(0, 23) =~= ph_prefix());
    lemma_find_first(t, ph_prefix(), 0, 0);
    assert(t.subrange(end, end + 3) =~= ph_suffix());
    assert forall|y: int| after <= y < end implies !starts_at(t, y, ph_suffix()) by {
        assert(t[y] == dec[y - 23]);
        assert(is_digit(dec[y - 23]));
        if starts_at(t, y, ph_suffix()) {
            assert(t.subrange(y, y + 3)[0] == 'E');
        }
    }
    lemma_find_first(t, ph_suffix(), after, end);
    assert(t.subrange(after, end) =~= dec);
    assert(dec[0] != '+') by { assert(is_digit(dec[0])); }
    assert(parse_usize_spec(dec) == Some(n));
    assert(find_from(t, ph_prefix(), t.len() as int) is None);
    let parts2 = Seq::<MathPart>::empty().push(MathPart::Math(ph[n as int].0, ph[n as int].1));
    assert(split_from(t, ph, end + 3, parts2) == parts2);
    assert(parts2 =~= seq![MathPart::Math(ph[n as int].0, ph[n as int].1)]);
}


/// No proper end of the placeholder prefix is also its beginning.
proof fn lemma_prefix_no_border(L: int)
    requires
        1 <= L <= 22,
    ensures
        ph_prefix().subrange(L, 23) != ph_prefix().subrange(0, 23 - L),
{
    let p = ph_prefix();
    assert(p.len() == 23);
    if L == 1 {
        assert(p.subrange(L, 23)[0] == p[1]);
        assert(p.subrange(0, 23 - L)[0] == p[0]);
    } else if L == 2 {
        assert(p.subrange(L, 23)[0] == p[2]);
        assert(p.subrange(0, 23 - L)[0] == p[0]);
    } else if L == 3 {
        assert(p.subrange(L, 23)[0] == p[3]);
        assert(p.subrange(0, 23 - L)[0] == p[0]);
    } else if L == 4 {
        assert(p.subrange(L, 23)[0] == p[4]);
        assert(p.subrange(0, 23 - L)[0] == p[0]);
    } else if L == 5 {
        assert(p.subrange(L, 23)[0] == p[5]);
        assert(p.subrange(0, 23 - L)[0] == p[0]);
    } else if L == 6 {
        assert(p.subrange(L, 23)[0] == p[6]);
        assert(p.subrange(0, 23 - L)[0] == p[0]);
    } else if L == 7 {
        assert(p.subrange(L, 23)[0] == p[7]);
        assert(p.subrange(0, 23 - L)[0] == p[0]);
    } else if L == 8 {
        assert(p.subrange(L, 23)[0] == p[8]);
        assert(p.subrange(0, 23 - L)[0] == p[0]);
    } else if L == 9 {
        assert(p.subrange(L, 23)[0] == p[9]);
        assert(p.subrange(0, 23 - L)[0] == p[0]);
    } else if L == 10 {
        assert(p.subrange(L, 23)[1] == p[11]);
        assert(p.subrange(0, 23 - L)[1] == p[1]);
    } else if L == 11 {
        assert(p.subrange(L, 23)[0] == p[11]);
        assert(p.subrange(0, 23 - L)[0] == p[0]);
    } else if L == 12 {
        assert(p.subrange(L, 23)[0] == p[12]);
        assert(p.subrange(0, 23 - L)[0] == p[0]);
    } else if L == 13 {
        assert(p.subrange(L, 23)[0] == p[13]);
        assert(p.subrange(0, 23 - L)[0] == p[0]);
    } else if L == 14 {
        assert(p.subrange(L, 23)[0] == p[14]);
        assert(p.subrange(0, 23 - L)[0] == p[0]);
    } else if L == 15 {
        assert(p.subrange(L, 23)[0] == p[15]);
        assert(p.subrange(0, 23 - L)[0] == p[0]);
    } else if L == 16 {
        assert(p.subrange(L, 23)[0] == p[16]);
        assert(p.subrange(0, 23 - L)[0] == p[0]);
    } else if L == 17 {
        assert(p.subrange(L, 23)[0] == p[17]);
        assert(p.subrange(0, 23 - L)[0] == p[0]);
    } else if L == 18 {
        assert(p.subrange(L, 23)[0] == p[18]);
        assert(p.subrange(0, 23 - L)[0] == p[0]);
    } else if L == 19 {
        assert(p.subrange(L, 23)[0] == p[19]);
        assert(p.subrange(0, 23 - L)[0] == p[0]);
    } else if L == 20 {
        assert(p.subrange(L, 23)[0] == p[20]);
        assert(p.subrange(0, 23 - L)[0] == p[0]);
    } else if L == 21 {
        assert(p.subrange(L, 23)[0] == p[21]);
        assert(p.subrange(0, 23 - L)[0] == p[0]);
    } else if L == 22 {
        assert(p.subrange(L, 23)[0] == p[22]);
        assert(p.subrange(0, 23 - L)[0] == p[0]);
    }
}

/// No occurrence of the placeholder prefix.
pub open spec fn no_prefix_in(x: Seq<char>) -> bool {
    forall|y: int| !#[trigger] starts_at(x, y, ph_prefix())
}

/// The text the parts stand for: text as it is, the `k`-th math span as its
/// placeholder.
pub open spec fn parts_text(ps: Seq<MathPart>) -> Seq<char>
    decreases ps.len(),
{
    if ps.len() == 0 {
        Seq::empty()
    } else {
        parts_text(ps.drop_last()) + match ps.last() {
            MathPart::Text(r) => r,
            MathPart::Math(_, _) => placeholder(parts_math(ps.drop_last()).len()),
        }
    }
}

/// The math spans among the parts, in order.
pub open spec fn parts_math(ps: Seq<MathPart>) -> Seq<(bool, Seq<char>)>
    decreases ps.len(),
{
    if ps.len() == 0 {
        Seq::empty()
    } else {
        match ps.last() {
            MathPart::Text(_) => parts_math(ps.drop_last()),
            MathPart::Math(b, c) => parts_math(ps.drop_last()).push((b, c)),
        }
    }
}

/// The parts of `s` from `i` on, after `acc`: runs of text between the math
/// spans, and the spans, as `protect_math` scans them.
pub open spec fn parts_of(s: Seq<char>, i: int, acc: Seq<MathPart>) -> Seq<MathPart>
    decreases s.len() - i,
{
    if i < 0 || i >= s.len() {
        acc
    } else {
        match math_span_at(s, i) {
            Some(m) => if m.3 <= i {
                acc
            } else {
                parts_of(s, m.3, acc.push(MathPart::Math(m.0, s.subrange(m.1, m.2))))
            },
            None => parts_of(s, i + 1, match (if acc.len() > 0 { Some(acc.last()) } else { None }) {
                Some(MathPart::Text(r)) => acc.drop_last().push(MathPart::Text(r.push(s[i]))),
                _ => acc.push(MathPart::Text(seq![s[i]])),
            }),
        }
    }
}

/// Parts as `parts_of` builds them: text runs are non-empty, hold no
/// placeholder prefix and never follow one another, and a trailing run ends
/// at `i` in `s`.
pub open spec fn parts_ok(s: Seq<char>, i: int, ps: Seq<MathPart>) -> bool {
    &&& forall|k: int| 0 <= k < ps.len() ==> (#[trigger] ps[k] matches MathPart::Text(r) ==> r.len() > 0 && no_prefix_in(r))
    &&& forall|k: int| 0 <= k < ps.len() - 1 ==> !((#[trigger] ps[k]) is Text && ps[k + 1] is Text)
    &&& ps.len() > 0 ==> (ps.last() matches MathPart::Text(r) ==> r.len() <= i && r == s.subrange(i - r.len(), i))
    &&& parts_math(ps).len() <= i
}

proof fn lemma_sub_no_prefix(s: Seq<char>, a: int, b: int)
    requires
        0 <= a <= b <= s.len(),
        no_prefix_in(s),
    ensures
        no_prefix_in(s.subrange(a, b)),
{
    let x = s.subrange(a, b);
    assert forall|y: int| !#[trigger] starts_at(x, y, ph_prefix()) by {
        if starts_at(x, y, ph_prefix()) {
            assert(s.subrange(a + y, a + y + 23) =~= x.subrange(y, y + 23));
            assert(starts_at(s, a + y, ph_prefix()));
        }
    }
}

proof fn lemma_math_span_bounds(s: Seq<char>, i: int)
    requires
        0 <= i < s.len(),
    ensures
        math_span_at(s, i) matches Some(m) ==> i < m.1 <= m.2 <= m.3 <= s.len(),
{
    match math_open_at(s, i) {
        Some(d) => {
            assert(d.2 >= 1) by {
                match latex_env_at(s, i) {
                    Some(k) => {
                        assert(env_open(k).len() == 8 + env_name(k).len());
                    },
                    None => {},
                }
            }
        },
        None => {},
    }
}

/// Scanning on from `i` gives the text and spans that the parts stand for.
proof fn lemma_protect_parts(s: Seq<char>, i: int, acc: Seq<MathPart>)
    requires
        0 <= i <= s.len(),
        no_prefix_in(s),
        parts_ok(s, i, acc),
    ensures
        protect_from(s, i, parts_text(acc), parts_math(acc))
            == (parts_text(parts_of(s, i, acc)), parts_math(parts_of(s, i, acc))),
        parts_ok(s, s.len() as int, parts_of(s, i, acc)),
    decreases s.len() - i,
{
    if i < s.len() {
        match math_span_at(s, i) {
            Some(m) => {
                if m.3 > i {
                    let a2 = acc.push(MathPart::Math(m.0, s.subrange(m.1, m.2)));
                    assert(a2.drop_last() =~= acc);
                    assert(m.3 <= s.len()) by { lemma_math_span_bounds(s, i); }
                    assert forall|k: int| 0 <= k < a2.len() implies (#[trigger] a2[k] matches MathPart::Text(r) ==> r.len() > 0 && no_prefix_in(r)) by {
                        if k < acc.len() { assert(a2[k] == acc[k]); }
                    }
                    assert forall|k: int| 0 <= k < a2.len() - 1 implies !((#[trigger] a2[k]) is Text && a2[k + 1] is Text) by {
                        if k < acc.len() - 1 { assert(a2[k] == acc[k]); assert(a2[k + 1] == acc[k + 1]); }
                    }
                    lemma_protect_parts(s, m.3, a2);
                } else {
                    lemma_math_span_bounds(s, i);
                }
            },
            None => {
                let a2 = match (if acc.len() > 0 { Some(acc.last()) } else { None }) {
                    Some(MathPart::Text(r)) => acc.drop_last().push(MathPart::Text(r.push(s[i]))),
                    _ => acc.push(MathPart::Text(seq![s[i]])),
                };
                if acc.len() > 0 && acc.last() is Text {
                    let r = acc.last()->Text_0;
                    assert(a2.drop_last() =~= acc.drop_last());
                    assert(acc.drop_last().push(acc.last()) =~= acc);
                    assert(r.push(s[i]) =~= s.subrange(i + 1 - (r.len() + 1), i + 1));
                    lemma_sub_no_prefix(s, i + 1 - (r.len() + 1), i + 1);
                    assert(parts_text(a2) =~= parts_text(acc).push(s[i]));
                    assert(parts_math(a2) == parts_math(acc));
                    assert forall|k: int| 0 <= k < a2.len() implies (#[trigger] a2[k] matches MathPart::Text(q) ==> q.len() > 0 && no_prefix_in(q)) by {
                        if k < acc.len() - 1 { assert(a2[k] == acc[k]); }
                    }
                    assert forall|k: int| 0 <= k < a2.len() - 1 implies !((#[trigger] a2[k]) is Text && a2[k + 1] is Text) by {
                        if k < acc.len() - 2 { assert(a2[k] == acc[k]); assert(a2[k + 1] == acc[k + 1]); }
                        else { assert(a2[k] == acc[k]); assert(acc[k + 1] == acc.last()); }
                    }
                } else {
                    assert(a2.drop_last() =~= acc);
                    assert(seq![s[i]] =~= s.subrange(i, i + 1));
                    lemma_sub_no_prefix(s, i, i + 1);
                    assert(parts_text(a2) =~= parts_text(acc).push(s[i]));
                    assert forall|k: int| 0 <= k < a2.len() implies (#[trigger] a2[k] matches MathPart::Text(q) ==> q.len() > 0 && no_prefix_in(q)) by {
                        if k < acc.len() { assert(a2[k] == acc[k]); }
                    }
                    assert forall|k: int| 0 <= k < a2.len() - 1 implies !((#[trigger] a2[k]) is Text && a2[k + 1] is Text) by {
                        if k < acc.len() - 1 { assert(a2[k] == acc[k]); assert(a2[k + 1] == acc[k + 1]); }
                        else { assert(a2[k] == acc.last()); }
                    }
                }
                lemma_protect_parts(s, i + 1, a2);
            },
        }
    }
}


proof fn lemma_take_step(ps: Seq<MathPart>, k: int)
    requires
        0 <= k < ps.len(),
    ensures
        parts_text(ps.take(k + 1)) == parts_text(ps.take(k)) + match ps[k] {
            MathPart::Text(r) => r,
            MathPart::Math(_, _) => placeholder(parts_math(ps.take(k)).len()),
        },
        parts_math(ps.take(k + 1)) == match ps[k] {
            MathPart::Text(_) => parts_math(ps.take(k)),
            MathPart::Math(b, c) => parts_math(ps.take(k)).push((b, c)),
        },
{
    assert(ps.take(k + 1).drop_last() =~= ps.take(k));
    assert(ps.take(k + 1).last() == ps[k]);
}

proof fn lemma_parts_prefix(ps: Seq<MathPart>, k: int)
    requires
        0 <= k <= ps.len(),
    ensures
        parts_text(ps.take(k)).len() <= parts_text(ps).len(),
        parts_text(ps).subrange(0, parts_text(ps.take(k)).len() as int) == parts_text(ps.take(k)),
        parts_math(ps.take(k)).len() <= parts_math(ps).len(),
        parts_math(ps).subrange(0, parts_math(ps.take(k)).len() as int) == parts_math(ps.take(k)),
    decreases ps.len(),
{
    if k == ps.len() {
        assert(ps.take(k) =~= ps);
        assert(parts_text(ps).subrange(0, parts_text(ps).len() as int) =~= parts_text(ps));
        assert(parts_math(ps).subrange(0, parts_math(ps).len() as int) =~= parts_math(ps));
    } else {
        let d = ps.drop_last();
        assert(d.take(k) =~= ps.take(k));
        lemma_parts_prefix(d, k);
        let tk = parts_text(ps.take(k));
        assert(parts_text(ps).subrange(0, tk.len() as int) =~= parts_text(d).subrange(0, tk.len() as int));
        let mk = parts_math(ps.take(k));
        assert(parts_math(ps).subrange(0, mk.len() as int) =~= parts_math(d).subrange(0, mk.len() as int));
    }
}

proof fn lemma_find_none(s: Seq<char>, p: Seq<char>, from: int)
    requires
        0 <= from,
        forall|y: int| from <= y ==> !starts_at(s, y, p),
    ensures
        find_from(s, p, from) is None,
    decreases s.len() - from,
{
    if from + p.len() <= s.len() && from < s.len() {
        lemma_find_none(s, p, from + 1);
    }
}

/// Where part `k` starts in the text the parts stand for.
pub open spec fn part_offset(ps: Seq<MathPart>, k: int) -> int {
    parts_text(ps.take(k)).len() as int
}

/// Parts whose text runs are non-empty, hold no placeholder prefix and never
/// follow one another.
pub open spec fn parts_well_formed(ps: Seq<MathPart>) -> bool {
    &&& forall|k: int| 0 <= k < ps.len() ==> (#[trigger] ps[k] matches MathPart::Text(r) ==> r.len() > 0 && no_prefix_in(r))
    &&& forall|k: int| 0 <= k < ps.len() - 1 ==> !((#[trigger] ps[k]) is Text && ps[k + 1] is Text)
}

/// Where the scan finds the prefix at `o`, at the start of the placeholder
/// of span `n`, it reads back span `n` and goes on after the placeholder.
proof fn lemma_split_at_placeholder(t: Seq<char>, ph: Seq<(bool, Seq<char>)>, pos: int, parts: Seq<MathPart>, o: int, n: nat)
    requires
        0 <= pos <= o,
        o + placeholder(n).len() <= t.len(),
        t.subrange(o, o + placeholder(n).len()) == placeholder(n),
        forall|y: int| pos <= y < o ==> !starts_at(t, y, ph_prefix()),
        n < ph.len(),
        n <= usize::MAX,
    ensures
        split_from(t, ph, pos, parts) == split_from(t, ph, o + placeholder(n).len(),
            (if o > pos { parts.push(MathPart::Text(t.subrange(pos, o))) } else { parts })
                .push(MathPart::Math(ph[n as int].0, ph[n as int].1))),
{
    let pl = placeholder(n);
    let o1 = o + pl.len();
    let dec = decimal(n);
    lemma_decimal_digits(n);
    assert(t.subrange(o, o + 23) =~= ph_prefix()) by {
        assert forall|q: int| 0 <= q < 23 implies #[trigger] t.subrange(o, o + 23)[q] == ph_prefix()[q] by {
            assert(t.subrange(o, o + 23)[q] == t.subrange(o, o1)[q]);
        }
    }
    lemma_find_first(t, ph_prefix(), pos, o);
    let after = o + 23;
    let end = o + 23 + dec.len();
    assert(end + 3 == o1);
    assert forall|y: int| after <= y < end implies !starts_at(t, y, ph_suffix()) by {
        assert(t[y] == t.subrange(o, o1)[y - o]);
        assert(t[y] == dec[y - after]);
        assert(is_digit(dec[y - after]));
        if starts_at(t, y, ph_suffix()) {
            assert(t.subrange(y, y + 3)[0] == t[y]);
        }
    }
    assert(t.subrange(end, end + 3) =~= ph_suffix()) by {
        assert forall|q: int| 0 <= q < 3 implies #[trigger] t.subrange(end, end + 3)[q] == ph_suffix()[q] by {
            assert(t.subrange(end, end + 3)[q] == t.subrange(o, o1)[23 + dec.len() + q]);
        }
    }
    lemma_find_first(t, ph_suffix(), after, end);
    assert(t.subrange(after, end) =~= dec) by {
        assert forall|q: int| 0 <= q < dec.len() implies #[trigger] t.subrange(after, end)[q] == dec[q] by {
            assert(t.subrange(after, end)[q] == t.subrange(o, o1)[23 + q]);
        }
    }
    assert(dec[0] != '+') by { assert(is_digit(dec[0])); }
    assert(parse_usize_spec(dec) == Some(n));
}

/// The placeholder of math part `k` stands at its offset, and the span it
/// numbers is that part's.
proof fn lemma_part_placeholder(ps: Seq<MathPart>, k: int)
    requires
        0 <= k < ps.len(),
        ps[k] is Math,
    ensures
        ({
            let n = parts_math(ps.take(k)).len();
            let o = part_offset(ps, k);
            &&& part_offset(ps, k + 1) == o + placeholder(n).len()
            &&& o + placeholder(n).len() <= parts_text(ps).len()
            &&& parts_text(ps).subrange(o, o + placeholder(n).len()) == placeholder(n)
            &&& n < parts_math(ps).len()
            &&& ps[k] == MathPart::Math(parts_math(ps)[n as int].0, parts_math(ps)[n as int].1)
        }),
{
    let t = parts_text(ps);
    let ph = parts_math(ps);
    let n = parts_math(ps.take(k)).len();
    let o = part_offset(ps, k);
    lemma_take_step(ps, k);
    lemma_parts_prefix(ps, k + 1);
    let pl = placeholder(n);
    let o1 = part_offset(ps, k + 1);
    assert(t.subrange(o, o1) =~= pl) by {
        assert forall|q: int| 0 <= q < pl.len() implies #[trigger] t.subrange(o, o1)[q] == pl[q] by {
            assert(t.subrange(o, o1)[q] == t.subrange(0, o1)[o + q]);
        }
    }
    assert(ph.subrange(0, n as int + 1)[n as int] == ph[n as int]);
}

/// A text part `r` at `o..o1` that holds no prefix, followed by a
/// placeholder or by the end of the text, leaves no prefix starting in it.
proof fn lemma_no_prefix_in_run(t: Seq<char>, r: Seq<char>, o: int, o1: int)
    requires
        0 <= o <= o1 <= t.len(),
        t.subrange(o, o1) == r,
        no_prefix_in(r),
        o1 == t.len() || (o1 + 23 <= t.len() && t.subrange(o1, o1 + 23) == ph_prefix()),
    ensures
        forall|y: int| o <= y < o1 ==> !starts_at(t, y, ph_prefix()),
{
    assert forall|y: int| o <= y < o1 implies !starts_at(t, y, ph_prefix()) by {
        if starts_at(t, y, ph_prefix()) {
            if y + 23 <= o1 {
                assert(r.subrange(y - o, y - o + 23) =~= t.subrange(y, y + 23)) by {
                    assert forall|q: int| 0 <= q < 23 implies #[trigger] r.subrange(y - o, y - o + 23)[q] == t.subrange(y, y + 23)[q] by {
                        assert(t.subrange(o, o1)[y - o + q] == t[y + q]);
                    }
                }
                assert(starts_at(r, y - o, ph_prefix()));
            } else {
                let L = o1 - y;
                lemma_prefix_no_border(L);
                assert(ph_prefix().subrange(L, 23) =~= ph_prefix().subrange(0, 23 - L)) by {
                    assert forall|q: int| 0 <= q < 23 - L implies #[trigger] ph_prefix().subrange(L, 23)[q] == ph_prefix().subrange(0, 23 - L)[q] by {
                        assert(t.subrange(y, y + 23)[L + q] == t[o1 + q]);
                        assert(t.subrange(o1, o1 + 23)[q] == t[o1 + q]);
                    }
                }
            }
        }
    }
}

/// A text part ends at `o1` and begins at `o`, the text between being `r`.
proof fn lemma_part_text(ps: Seq<MathPart>, k: int)
    requires
        0 <= k < ps.len(),
        ps[k] is Text,
    ensures
        part_offset(ps, k + 1) == part_offset(ps, k) + ps[k]->Text_0.len(),
        part_offset(ps, k + 1) <= parts_text(ps).len(),
        parts_text(ps).subrange(part_offset(ps, k), part_offset(ps, k + 1)) == ps[k]->Text_0,
        parts_math(ps.take(k + 1)) == parts_math(ps.take(k)),
{
    let t = parts_text(ps);
    let r = ps[k]->Text_0;
    lemma_take_step(ps, k);
    lemma_parts_prefix(ps, k + 1);
    let o = part_offset(ps, k);
    let o1 = part_offset(ps, k + 1);
    assert(t.subrange(o, o1) =~= r) by {
        assert forall|q: int| 0 <= q < r.len() implies #[trigger] t.subrange(o, o1)[q] == r[q] by {
            assert(t.subrange(o, o1)[q] == t.subrange(0, o1)[o + q]);
        }
    }
}

/// Splitting the text the parts stand for, from the start of part `j` on,
/// gives the parts back.
#[verifier::rlimit(50)]
proof fn lemma_split_parts(ps: Seq<MathPart>, j: int)
    requires
        0 <= j <= ps.len(),
        parts_well_formed(ps),
        j > 0 ==> !(ps[j - 1] is Text),
        parts_math(ps).len() <= usize::MAX,
    ensures
        split_from(parts_text(ps), parts_math(ps), part_offset(ps, j), ps.take(j)) == ps,
    decreases ps.len() - j,
{
    let t = parts_text(ps);
    let ph = parts_math(ps);
    lemma_parts_prefix(ps, j);
    let o = part_offset(ps, j);
    if j == ps.len() {
        assert(ps.take(j) =~= ps);
        lemma_find_none(t, ph_prefix(), o);
    } else if ps[j] is Math {
        lemma_part_placeholder(ps, j);
        let n = parts_math(ps.take(j)).len();
        lemma_split_at_placeholder(t, ph, o, ps.take(j), o, n);
        assert(ps.take(j).push(ps[j]) =~= ps.take(j + 1));
        lemma_split_parts(ps, j + 1);
    } else {
        let r = ps[j]->Text_0;
        assert(r.len() > 0 && no_prefix_in(r));
        lemma_part_text(ps, j);
        let o1 = part_offset(ps, j + 1);
        if j + 1 == ps.len() {
            assert(ps.take(j + 1) =~= ps);
            lemma_parts_prefix(ps, j + 1);
            lemma_no_prefix_in_run(t, r, o, o1);
            assert forall|y: int| o <= y implies !starts_at(t, y, ph_prefix()) by {
                if y >= o1 {
                    assert(!starts_at(t, y, ph_prefix()));
                }
            }
            lemma_find_none(t, ph_prefix(), o);
            assert(ps.take(j).push(MathPart::Text(t.subrange(o, t.len() as int))) =~= ps);
        } else {
            assert(ps[j + 1] is Math);
            lemma_part_placeholder(ps, j + 1);
            let n = parts_math(ps.take(j + 1)).len();
            assert(t.subrange(o1, o1 + 23) =~= ph_prefix()) by {
                assert forall|q: int| 0 <= q < 23 implies #[trigger] t.subrange(o1, o1 + 23)[q] == ph_prefix()[q] by {
                    assert(t.subrange(o1, o1 + 23)[q] == t.subrange(o1, o1 + placeholder(n).len())[q]);
                }
            }
            lemma_no_prefix_in_run(t, r, o, o1);
            lemma_split_at_placeholder(t, ph, o, ps.take(j), o1, n);
            assert(ps.take(j).push(MathPart::Text(t.subrange(o, o1))).push(ps[j + 1]) =~= ps.take(j + 2));
            lemma_split_parts(ps, j + 2);
        }
    }
}


/// Protecting math and then splitting the placeholders gives back what was
/// protected, for text that holds no placeholder prefix of its own: the math
/// parts are the spans taken out, in order; every text part is non-empty;
/// and putting the `k`-th placeholder back for the `k`-th math part gives
/// the protected text.
pub proof fn lemma_protect_then_split(s: Seq<char>)
    requires
        no_prefix_in(s),
        s.len() <= usize::MAX,
    ensures
        ({
            let (t, ph) = protect_from(s, 0, Seq::empty(), Seq::empty());
            let ps = split_from(t, ph, 0, Seq::empty());
            &&& parts_math(ps) == ph
            &&& parts_text(ps) == t
            &&& forall|k: int| 0 <= k < ps.len() ==> (#[trigger] ps[k] matches MathPart::Text(r) ==> r.len() > 0)
        }),
{
    let e: Seq<MathPart> = Seq::empty();
    assert(parts_text(e) =~= Seq::<char>::empty());
    assert(parts_math(e) =~= Seq::<(bool, Seq<char>)>::empty());
    assert(parts_ok(s, 0, e));
    lemma_protect_parts(s, 0, e);
    let ps = parts_of(s, 0, e);
    assert(ps.take(0) =~= e);
    lemma_split_parts(ps, 0);
}

} // verus!
