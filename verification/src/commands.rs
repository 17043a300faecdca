use vstd::prelude::*;
use crate::text::{to_chars, string_of_range, string_from, copy_string, trim, trim_spec, is_ws, is_whitespace,
    find_from, find_chars_from, lemma_find_from_bounds, to_ascii_lowercase, ascii_lower, str_eq, graphemes,
    grapheme_clusters, concat_all};
use crate::math::{is_digit, all_digits, digits_value, lemma_digits_value_mono, utf8_len_seq};
use crate::md_doc::{skip_while_ws, lemma_skip_bounds};

verus! {

/// Why a command of the palette was refused.
#[derive(Debug)]
pub enum CommandError {
    /// `:set` without an option and a value.
    Usage,
    /// A value that is not one of the accepted boolean words.
    InvalidBool,
    /// A value that is not an unsigned 64-bit integer; the value as given.
    InvalidInteger(String),
}

impl CommandError {
    /// The message the client shows.
    pub fn message(&self) -> (r: String)
        ensures
            r@ == command_error_text(*self),
    {
        proof {
            reveal_strlit("usage: :set <option> <value>");
            reveal_strlit("expected boolean true/false, on/off, yes/no, or 1/0");
            reveal_strlit("invalid integer '");
            reveal_strlit("'");
        }
        match self {
            CommandError::Usage => string_from("usage: :set <option> <value>"),
            CommandError::InvalidBool => string_from("expected boolean true/false, on/off, yes/no, or 1/0"),
            CommandError::InvalidInteger(v) => {
                let mut s = string_from("invalid integer '");
                crate::text::push_str(&mut s, v.as_str());
                crate::text::push_str(&mut s, "'");
                s
            },
        }
    }
}

pub open spec fn command_error_text(e: CommandError) -> Seq<char> {
    match e {
        CommandError::Usage => "usage: :set <option> <value>"@,
        CommandError::InvalidBool => "expected boolean true/false, on/off, yes/no, or 1/0"@,
        CommandError::InvalidInteger(v) => "invalid integer '"@ + v@ + "'"@,
    }
}

/// The option and value of `:set` arguments: `key=value` or `key value`,
/// each trimmed; `None` when either is missing.
pub open spec fn set_args_spec(args: Seq<char>) -> Option<(Seq<char>, Seq<char>)> {
    let t = trim_spec(args);
    if t.len() == 0 {
        None
    } else {
        let (k, v) = match find_from(t, seq!['='], 0) {
            Some(i) => (trim_spec(t.take(i)), trim_spec(t.skip(i + 1))),
            None => {
                let w = skip_while_ws(t, 0, false);
                (trim_spec(t.take(w)), if w < t.len() { trim_spec(t.skip(w + 1)) } else { Seq::empty() })
            },
        };
        if k.len() == 0 || v.len() == 0 { None } else { Some((k, v)) }
    }
}

/// Splits the arguments of `:set` into option and value.
pub fn parse_set_args(args: &str) -> (r: Result<(String, String), CommandError>)
    ensures
        r is Err <==> set_args_spec(args@) is None,
        r matches Err(e) ==> e is Usage,
        r matches Ok(kv) ==> set_args_spec(args@) == Some((kv.0@, kv.1@)),
{
    let tr = trim(args);
    let t = to_chars(tr.as_str());
    if t.len() == 0 {
        return Err(CommandError::Usage);
    }
    let eq: Vec<char> = vec!['='];
    assert(eq@ =~= seq!['=']);
    let (k, v) = match find_chars_from(&t, &eq, 0) {
        Some(i) => {
            proof { lemma_find_from_bounds(t@, eq@, 0); }
            let k = trim(string_of_range(&t, 0, i).as_str());
            let v = trim(string_of_range(&t, i + 1, t.len()).as_str());
            assert(t@.subrange(0, i as int) =~= t@.take(i as int));
            assert(t@.subrange(i + 1, t@.len() as int) =~= t@.skip(i + 1));
            (k, v)
        },
        None => {
            let mut w: usize = 0;
            while w < t.len() && !is_whitespace(t[w])
                invariant
                    w <= t@.len(),
                    skip_while_ws(t@, 0, false) == skip_while_ws(t@, w as int, false),
                decreases t.len() - w,
            {
                w = w + 1;
            }
            let k = trim(string_of_range(&t, 0, w).as_str());
            assert(t@.subrange(0, w as int) =~= t@.take(w as int));
            let v = if w < t.len() {
                assert(t@.subrange(w + 1, t@.len() as int) =~= t@.skip(w + 1));
                trim(string_of_range(&t, w + 1, t.len()).as_str())
            } else {
                String::new()
            };
            (k, v)
        },
    };
    if k.as_str().is_empty() || v.as_str().is_empty() {
        return Err(CommandError::Usage);
    }
    Ok((k, v))
}

/// The option name of `:set` in canonical form: trimmed, leading colons
/// dropped, dashes turned into underscores.
pub open spec fn drop_leading_colons(s: Seq<char>) -> Seq<char>
    decreases s.len(),
{
    if s.len() > 0 && s[0] == ':' { drop_leading_colons(s.drop_first()) } else { s }
}

pub open spec fn normalize_set_key_spec(key: Seq<char>) -> Seq<char> {
    drop_leading_colons(trim_spec(key)).map_values(|c: char| if c == '-' { '_' } else { c })
}

/// The canonical form of an option name.
pub fn normalize_set_key(key: &str) -> (r: String)
    ensures
        r@ == normalize_set_key_spec(key@),
{
    let t = to_chars(trim(key).as_str());
    let mut i: usize = 0;
    assert(t@.skip(0) =~= t@);
    while i < t.len() && t[i] == ':'
        invariant
            i <= t@.len(),
            drop_leading_colons(t@) == drop_leading_colons(t@.skip(i as int)),
        decreases t.len() - i,
    {
        assert(t@.skip(i as int).drop_first() =~= t@.skip(i + 1));
        i = i + 1;
    }
    assert(i < t@.len() ==> t@.skip(i as int)[0] == t@[i as int]);
    let mut out = String::new();
    let mut j: usize = i;
    while j < t.len()
        invariant
            i <= j <= t@.len(),
            out@ == t@.subrange(i as int, j as int).map_values(|c: char| if c == '-' { '_' } else { c }),
        decreases t.len() - j,
    {
        let c = t[j];
        out.push(if c == '-' { '_' } else { c });
        assert(t@.subrange(i as int, j + 1).map_values(|c: char| if c == '-' { '_' } else { c })
            =~= t@.subrange(i as int, j as int).map_values(|c: char| if c == '-' { '_' } else { c }).push(if c == '-' { '_' } else { c }));
        j = j + 1;
    }
    assert(t@.subrange(i as int, t@.len() as int) =~= t@.skip(i as int));
    out
}

/// `None` for an empty value or one of `none`, `null`, `off`; otherwise the
/// trimmed value.
pub open spec fn optional_string_spec(value: Seq<char>) -> Option<Seq<char>> {
    let t = trim_spec(value);
    if t.len() == 0 || t == "none"@ || t == "null"@ || t == "off"@ { None } else { Some(t) }
}

/// An optional setting: words that mean "nothing" give `None`.
pub fn parse_optional_string(value: &str) -> (r: Option<String>)
    ensures
        r is None <==> optional_string_spec(value@) is None,
        r matches Some(s) ==> optional_string_spec(value@) == Some(s@),
{
    let t = trim(value);
    proof {
        reveal_strlit("none");
        reveal_strlit("null");
        reveal_strlit("off");
    }
    if t.as_str().is_empty() || str_eq(t.as_str(), "none") || str_eq(t.as_str(), "null") || str_eq(t.as_str(), "off") {
        None
    } else {
        Some(t)
    }
}

/// The boolean that a setting's value spells, compared without regard to
/// ASCII case.
pub open spec fn bool_word_spec(value: Seq<char>) -> Option<bool> {
    let t = trim_spec(value).map_values(|c: char| ascii_lower(c));
    if t == "true"@ || t == "on"@ || t == "yes"@ || t == "1"@ {
        Some(true)
    } else if t == "false"@ || t == "off"@ || t == "no"@ || t == "0"@ {
        Some(false)
    } else {
        None
    }
}

/// Parses a boolean setting.
pub fn parse_bool(value: &str) -> (r: Result<bool, CommandError>)
    ensures
        r is Err <==> bool_word_spec(value@) is None,
        r matches Err(e) ==> e is InvalidBool,
        r matches Ok(b) ==> bool_word_spec(value@) == Some(b),
{
    let t = to_ascii_lowercase(trim(value).as_str());
    let s = t.as_str();
    proof {
        reveal_strlit("true");
        reveal_strlit("on");
        reveal_strlit("yes");
        reveal_strlit("1");
        reveal_strlit("false");
        reveal_strlit("off");
        reveal_strlit("no");
        reveal_strlit("0");
    }
    if str_eq(s, "true") || str_eq(s, "on") || str_eq(s, "yes") || str_eq(s, "1") {
        Ok(true)
    } else if str_eq(s, "false") || str_eq(s, "off") || str_eq(s, "no") || str_eq(s, "0") {
        Ok(false)
    } else {
        Err(CommandError::InvalidBool)
    }
}

/// What `u64::from_str` gives for `t`: an optional `+` and then at least one
/// decimal digit, with a value that fits.
pub open spec fn parse_u64_spec(t: Seq<char>) -> Option<nat> {
    let body = if t.len() > 0 && t[0] == '+' { t.drop_first() } else { t };
    if body.len() == 0 || !all_digits(body) {
        None
    } else if digits_value(body) <= u64::MAX {
        Some(digits_value(body))
    } else {
        None
    }
}

/// Parses `t[from..to]` as `u64::from_str` does.
pub fn parse_u64_range(t: &Vec<char>, from: usize, to: usize) -> (r: Option<u64>)
    requires
        from <= to <= t@.len(),
    ensures
        r matches Some(v) ==> parse_u64_spec(t@.subrange(from as int, to as int)) == Some(v as nat),
        r is None ==> parse_u64_spec(t@.subrange(from as int, to as int)) is None,
{
    let ghost whole = t@.subrange(from as int, to as int);
    let mut start = from;
    if from < to && t[from] == '+' {
        start = from + 1;
    }
    let ghost body = t@.subrange(start as int, to as int);
    assert(body =~= (if whole.len() > 0 && whole[0] == '+' { whole.drop_first() } else { whole }));
    if start == to {
        assert(body.len() == 0);
        assert(parse_u64_spec(whole) is None);
        return None;
    }
    let mut i = start;
    while i < to
        invariant
            start <= i <= to <= t@.len(),
            body == t@.subrange(start as int, to as int),
            whole == t@.subrange(from as int, to as int),
            body == (if whole.len() > 0 && whole[0] == '+' { whole.drop_first() } else { whole }),
            all_digits(t@.subrange(start as int, i as int)),
        decreases to - i,
    {
        if !(t[i] >= '0' && t[i] <= '9') {
            assert(body[i - start] == t@[i as int]);
            assert(!is_digit(body[i - start]));
            assert(!all_digits(body));
            assert(parse_u64_spec(whole) is None);
            return None;
        }
        i = i + 1;
        assert(forall|j: int| 0 <= j < i - start ==> t@.subrange(start as int, i as int)[j] == t@[start + j]);
    }
    assert(t@.subrange(start as int, to as int) =~= body);
    let mut v: u64 = 0;
    let mut k = start;
    while k < to
        invariant
            start <= k <= to <= t@.len(),
            body == t@.subrange(start as int, to as int),
            whole == t@.subrange(from as int, to as int),
            body == (if whole.len() > 0 && whole[0] == '+' { whole.drop_first() } else { whole }),
            body.len() > 0,
            all_digits(body),
            v == digits_value(body.subrange(0, k - start)),
        decreases to - k,
    {
        assert(body.subrange(0, k + 1 - start).drop_last() =~= body.subrange(0, k - start));
        assert(body[k - start] == t@[k as int]);
        assert(is_digit(body[k - start]));
        let d = (t[k] as u32 - '0' as u32) as u64;
        assert(digits_value(body.subrange(0, k + 1 - start)) == v * 10 + d);
        match v.checked_mul(10) {
            None => {
                proof {
                    lemma_digits_value_mono(body, k + 1 - start, body.len() as int);
                    assert(body.subrange(0, body.len() as int) =~= body);
                    assert(digits_value(body) > u64::MAX);
                    assert(parse_u64_spec(whole) is None);
                }
                return None;
            },
            Some(v10) => match v10.checked_add(d) {
                None => {
                    proof {
                        lemma_digits_value_mono(body, k + 1 - start, body.len() as int);
                        assert(body.subrange(0, body.len() as int) =~= body);
                        assert(digits_value(body) > u64::MAX);
                        assert(parse_u64_spec(whole) is None);
                    }
                    return None;
                },
                Some(nv) => {
                    v = nv;
                },
            },
        }
        k = k + 1;
    }
    assert(body.subrange(0, body.len() as int) =~= body);
    Some(v)
}


/// Parses an unsigned integer setting (after trimming).
pub fn parse_u64(value: &str) -> (r: Result<u64, CommandError>)
    ensures
        r is Err <==> parse_u64_spec(trim_spec(value@)) is None,
        r matches Err(e) ==> (e matches CommandError::InvalidInteger(v) && v@ == value@),
        r matches Ok(n) ==> parse_u64_spec(trim_spec(value@)) == Some(n as nat),
{
    let t = to_chars(trim(value).as_str());
    assert(t@.subrange(0, t@.len() as int) =~= t@);
    match parse_u64_range(&t, 0, t.len()) {
        Some(n) => Ok(n),
        None => Err(CommandError::InvalidInteger(string_from(value))),
    }
}

/// Byte offset of grapheme number `col` of `input` (the byte length when
/// there are fewer).
pub open spec fn grapheme_prefix_bytes(gs: Seq<Seq<char>>, n: int) -> nat
    decreases n,
{
    if n <= 0 || gs.len() == 0 {
        0
    } else if n > gs.len() {
        grapheme_prefix_bytes(gs, gs.len() as int)
    } else {
        grapheme_prefix_bytes(gs, n - 1) + utf8_len_seq(gs[n - 1])
    }
}

/// The byte index where the cursor at grapheme `col` stands in `input` (a
/// count past `usize::MAX`, which no string in memory reaches, would be cut).
pub fn command_byte_index(input: &str, col: usize) -> (r: usize)
    ensures
        r == crate::chat::min_int(grapheme_prefix_bytes(grapheme_clusters(input@), col as int) as int, usize::MAX as int),
{
    let gs = graphemes(input);
    let ghost g = grapheme_clusters(input@);
    let n = if col < gs.len() { col } else { gs.len() };
    let mut total: usize = 0;
    let mut i: usize = 0;
    while i < n
        invariant
            i <= n <= gs@.len(),
            gs@.len() == g.len(),
            forall|k: int| 0 <= k < gs@.len() ==> (#[trigger] gs@[k])@ == g[k],
            total == crate::chat::min_int(grapheme_prefix_bytes(g, i as int) as int, usize::MAX as int),
        decreases n - i,
    {
        let b = crate::chat::utf8_len_sat(gs[i].as_str());
        assert(gs@[i as int]@ == g[i as int]);
        total = total.saturating_add(b);
        i = i + 1;
    }
    total
}

} // verus!
