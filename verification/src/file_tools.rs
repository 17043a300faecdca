use vstd::prelude::*;
use crate::json::{Json, JsonNumber, JsonV, jv, jv_list, lemma_jv_list, client_arg_str, client_arg_u64, value_get,
    as_str_v, as_u64_v, make_obj1, obj1};
use crate::server::{jstr, json_object, member, tool_error_value};
use crate::agent::convo_v;
use crate::md_render::split_lf;
use crate::client::split_lines;
use crate::chat::strings_view;
use crate::text::{string_from, copy_string, push_str, str_eq, to_chars, string_of_range, to_ascii_lowercase, ascii_lower,
    find_chars_from, find_from};
use crate::storage::{joined_path, path_join};

verus! {

/// Largest file, in bytes, that the client's file tools read.
pub const CLIENT_MAX_FILE_BYTES: u64 = 200000u64;

/// Most entries that `file_list` gives.
pub const LIST_LIMIT: usize = 500;

/// Most files that `file_search` looks at.
pub const SEARCH_FILE_LIMIT: usize = 1000;

/// Most matches that `file_search` gives.
pub const MATCH_LIMIT: usize = 200;

// ---------------------------------------------------------------------------
// Paths.

/// A path with a leading `~/` taken from the home directory (or `~` where
/// the environment names none).
pub open spec fn expand_home_spec(path: Seq<char>, home: Option<Seq<char>>) -> Seq<char> {
    if path.len() >= 2 && path.take(2) == "~/"@ {
        joined_path(match home { Some(h) => h, None => "~"@ }, path.skip(2))
    } else {
        path
    }
}

/// With `HOME` set to `h`, a path `~/rest` names `rest` under `h`; with
/// `HOME` unset, `rest` under `~`; a path that does not begin with `~/` is
/// left as it is.
pub proof fn lemma_home_expansion(rest: Seq<char>, h: Seq<char>, path: Seq<char>, home: Option<Seq<char>>)
    ensures
        expand_home_spec("~/"@ + rest, Some(h)) == joined_path(h, rest),
        expand_home_spec("~/"@ + rest, None) == joined_path("~"@, rest),
        !(path.len() >= 2 && path[0] == '~' && path[1] == '/') ==> expand_home_spec(path, home) == path,
{
    reveal_strlit("~/");
    let p = "~/"@ + rest;
    assert(p.take(2) =~= "~/"@);
    assert(p.skip(2) =~= rest);
    if path.len() >= 2 && path.take(2) == "~/"@ {
        assert(path[0] == path.take(2)[0] && path[1] == path.take(2)[1]);
    }
}

/// A path with a leading `~/` taken from `home`, the value of `HOME`.
pub fn client_expand_home(path: &str, home: Option<String>) -> (r: String)
    ensures
        r@ == expand_home_spec(path@, match home { Some(h) => Some(h@), None => None }),
{
    let v = to_chars(path);
    proof {
        reveal_strlit("~/");
        reveal_strlit("~");
    }
    if v.len() >= 2 && v[0] == '~' && v[1] == '/' {
        let rest = string_of_range(&v, 2, v.len());
        assert(v@.subrange(2, v@.len() as int) =~= path@.skip(2));
        assert(path@.take(2) =~= "~/"@);
        let base = match home {
            Some(h) => h,
            None => string_from("~"),
        };
        path_join(base.as_str(), rest.as_str())
    } else {
        proof {
            if path@.len() >= 2 && path@.take(2) == "~/"@ {
                assert(path@.take(2)[0] == '~' && path@.take(2)[1] == '/');
            }
        }
        string_from(path)
    }
}

// ---------------------------------------------------------------------------
// Lines.

/// A line without the `\r` of a `\r\n` ending.
pub open spec fn strip_cr(l: Seq<char>) -> Seq<char> {
    if l.len() > 0 && l.last() == '\r' { l.drop_last() } else { l }
}

/// `str::lines`: the text cut at each `\n`, each line that ended with
/// `\r\n` without its `\r`, and no empty last line after a final `\n`.
pub open spec fn str_lines_spec(t: Seq<char>) -> Seq<Seq<char>> {
    let p = split_lf(t);
    let init = p.take(p.len() - 1).map_values(|l: Seq<char>| strip_cr(l));
    if p.len() > 0 && p[p.len() - 1].len() > 0 { init.push(p[p.len() - 1]) } else { init }
}

/// The lines of a text, as `str::lines` gives them.
pub fn str_lines(text: &str) -> (r: Vec<String>)
    ensures
        strings_view(r@) == str_lines_spec(text@),
{
    let parts = split_lines(text);
    proof {
        crate::md_render::lemma_split_lf_len(text@);
    }
    let n = parts.len();
    let mut out: Vec<String> = Vec::new();
    let mut i: usize = 0;
    while i + 1 < n
        invariant
            n == parts@.len(),
            n >= 1,
            i <= n - 1,
            strings_view(parts@) == split_lf(text@),
            strings_view(out@) == split_lf(text@).take(i as int).map_values(|l: Seq<char>| strip_cr(l)),
        decreases n - i,
    {
        let v = to_chars(parts[i].as_str());
        let k = if v.len() > 0 && v[v.len() - 1] == '\r' { v.len() - 1 } else { v.len() };
        let line = string_of_range(&v, 0, k);
        proof {
            assert(parts@[i as int]@ == split_lf(text@)[i as int]);
            assert(v@.subrange(0, k as int) =~= strip_cr(split_lf(text@)[i as int]));
        }
        let ghost o0 = out@;
        out.push(line);
        i = i + 1;
        proof {
            assert(strings_view(out@) =~= strings_view(o0).push(line@));
            assert(split_lf(text@).take(i as int).map_values(|l: Seq<char>| strip_cr(l)) =~=
                split_lf(text@).take(i - 1).map_values(|l: Seq<char>| strip_cr(l)).push(strip_cr(split_lf(text@)[i - 1])));
        }
    }
    let last = &parts[n - 1];
    proof {
        assert(last@ == split_lf(text@)[n - 1]);
    }
    if !last.as_str().is_empty() {
        let ghost o0 = out@;
        out.push(copy_string(last));
        assert(strings_view(out@) =~= strings_view(o0).push(last@));
    }
    out
}

// ---------------------------------------------------------------------------
// Results.

/// A non-negative number.
pub fn jnum(n: u64) -> (r: Json)
    ensures
        jv(r) == JsonV::PosInt(n),
{
    Json::Number(JsonNumber::PosInt(n))
}

/// The listing of one file system entry.
pub open spec fn entry_spec(path: Seq<char>, is_dir: bool, size: u64) -> JsonV {
    JsonV::Object(seq![("path"@, JsonV::Str(path)), ("is_dir"@, JsonV::Bool(is_dir)), ("size_bytes"@, JsonV::PosInt(size))])
}

/// The listing of one file system entry: its shown path, whether it is a
/// directory and its size (false and 0 where its metadata cannot be read).
pub fn client_file_entry_json(display_path: &str, is_dir: bool, size_bytes: u64) -> (r: Json)
    ensures
        jv(r) == entry_spec(display_path@, is_dir, size_bytes),
{
    let m = vec![member("path", jstr(display_path)), member("is_dir", Json::Bool(is_dir)), member("size_bytes", jnum(size_bytes))];
    let ghost mv = m@.map_values(|e: (String, Json)| (e.0@, jv(e.1)));
    let r = json_object(m);
    assert(mv =~= seq![("path"@, JsonV::Str(display_path@)), ("is_dir"@, JsonV::Bool(is_dir)), ("size_bytes"@, JsonV::PosInt(size_bytes))]);
    r
}

/// What `file_list` gives: the directory's shown path and its entries.
pub fn file_list_result(display_path: &str, entries: Vec<Json>) -> (r: Json)
    ensures
        jv(r) == JsonV::Object(seq![("path"@, JsonV::Str(display_path@)), ("entries"@, JsonV::Array(convo_v(entries@)))]),
{
    proof {
        lemma_jv_list(entries@, 0);
        assert(jv_list(entries@, 0) =~= convo_v(entries@));
    }
    let m = vec![member("path", jstr(display_path)), member("entries", Json::Array(entries))];
    let ghost mv = m@.map_values(|e: (String, Json)| (e.0@, jv(e.1)));
    let r = json_object(m);
    assert(mv =~= seq![("path"@, JsonV::Str(display_path@)), ("entries"@, JsonV::Array(convo_v(entries@)))]);
    r
}

/// Why `file_read` refuses a path, if it does: it is not a file, or it is
/// larger than `CLIENT_MAX_FILE_BYTES`.
pub fn file_read_refusal(is_file: bool, len: u64) -> (r: Option<String>)
    ensures
        !is_file ==> (r matches Some(m) && m@ == "path is not a file"@),
        is_file && len > CLIENT_MAX_FILE_BYTES ==> (r matches Some(m) && m@ == "file exceeds max byte limit (200000)"@),
        is_file && len <= CLIENT_MAX_FILE_BYTES ==> r is None,
{
    if !is_file {
        Some(string_from("path is not a file"))
    } else if len > CLIENT_MAX_FILE_BYTES {
        Some(string_from("file exceeds max byte limit (200000)"))
    } else {
        None
    }
}

/// The first line `file_read` gives: `start_line`, at least 1.
pub open spec fn read_start(args: JsonV) -> nat {
    match as_u64_v(value_get(args, "start_line"@)) {
        Some(n) => if n < 1 { 1 } else { n as nat },
        None => 1,
    }
}

/// The last line `file_read` gives: `end_line`, or no limit.
pub open spec fn read_end(args: JsonV) -> nat {
    match as_u64_v(value_get(args, "end_line"@)) {
        Some(n) => n as nat,
        None => usize::MAX as nat,
    }
}

/// A numbered line.
pub open spec fn line_spec(n: nat, text: Seq<char>) -> JsonV {
    JsonV::Object(seq![("line"@, JsonV::PosInt(n as u64)), ("text"@, JsonV::Str(text))])
}

/// The lines of `ls[..k]` numbered from 1 whose numbers are within
/// `start..=end`.
pub open spec fn window_lines(ls: Seq<Seq<char>>, start: nat, end: nat, k: int) -> Seq<JsonV>
    decreases k,
{
    if k <= 0 || k > ls.len() {
        Seq::empty()
    } else if start <= k && k <= end {
        window_lines(ls, start, end, k - 1).push(line_spec(k as nat, ls[k - 1]))
    } else {
        window_lines(ls, start, end, k - 1)
    }
}

/// What `file_read` gives for the text of a file: its shown path, the
/// first and last line asked for (the last at most the number of lines),
/// and the lines between, numbered.
pub open spec fn read_result_spec(path: Seq<char>, text: Seq<char>, args: JsonV) -> JsonV {
    let ls = str_lines_spec(text);
    let start = read_start(args);
    let end = read_end(args);
    JsonV::Object(seq![
        ("path"@, JsonV::Str(path)),
        ("start_line"@, JsonV::PosInt(start as u64)),
        ("end_line"@, JsonV::PosInt((if end < ls.len() { end } else { ls.len() }) as u64)),
        ("lines"@, JsonV::Array(window_lines(ls, start, end, ls.len() as int))),
    ])
}

/// What `file_read` gives for the text of a file.
pub fn file_read_result(display_path: &str, text: &str, args: &Json) -> (r: Json)
    ensures
        jv(r) == read_result_spec(display_path@, text@, jv(*args)),
{
    let start: u64 = match client_arg_u64(args, "start_line") {
        Some(n) => if n < 1 { 1 } else { n },
        None => 1,
    };
    let end: u64 = match client_arg_u64(args, "end_line") {
        Some(n) => n,
        None => usize::MAX as u64,
    };
    let ls = str_lines(text);
    let ghost lv = strings_view(ls@);
    let mut out: Vec<Json> = Vec::new();
    let mut i: usize = 0;
    while i < ls.len()
        invariant
            i <= ls@.len(),
            lv == strings_view(ls@),
            convo_v(out@) == window_lines(lv, start as nat, end as nat, i as int),
        decreases ls.len() - i,
    {
        let k = (i + 1) as u64;
        if start <= k && k <= end {
            let m = vec![member("line", jnum(k)), member("text", jstr(ls[i].as_str()))];
            let ghost mv = m@.map_values(|e: (String, Json)| (e.0@, jv(e.1)));
            let lj = json_object(m);
            proof {
                assert(mv =~= seq![("line"@, JsonV::PosInt(k)), ("text"@, JsonV::Str(lv[i as int]))]);
            }
            let ghost o0 = out@;
            out.push(lj);
            proof {
                assert(convo_v(out@) =~= convo_v(o0).push(jv(lj)));
            }
        }
        i = i + 1;
    }
    let count = ls.len() as u64;
    let last: u64 = if end < count { end } else { count };
    proof {
        lemma_jv_list(out@, 0);
        assert(jv_list(out@, 0) =~= convo_v(out@));
    }
    let m = vec![
        member("path", jstr(display_path)),
        member("start_line", jnum(start)),
        member("end_line", jnum(last)),
        member("lines", Json::Array(out)),
    ];
    let ghost mv = m@.map_values(|e: (String, Json)| (e.0@, jv(e.1)));
    let r = json_object(m);
    proof {
        assert(mv =~= seq![
            ("path"@, JsonV::Str(display_path@)),
            ("start_line"@, JsonV::PosInt(start)),
            ("end_line"@, JsonV::PosInt(last)),
            ("lines"@, JsonV::Array(window_lines(lv, start as nat, end as nat, lv.len() as int))),
        ]);
    }
    r
}

// ---------------------------------------------------------------------------
// Search.

/// Whether `regex` builds a case-insensitive matcher from `pattern`.
pub uninterp spec fn ci_regex_valid(pattern: Seq<char>) -> bool;

/// Whether the case-insensitive matcher of `pattern` finds a match in `text`.
pub uninterp spec fn ci_regex_match(pattern: Seq<char>, text: Seq<char>) -> bool;

/// `RegexBuilder::new(pattern).case_insensitive(true).build()` and then
/// `Regex::is_match` on each line: `None` where the pattern does not build
/// (named `ci_regex_valid`), else one flag per line (named
/// `ci_regex_match`).
#[verifier::external_body]
fn ci_regex_flags(pattern: &str, lines: &Vec<String>) -> (r: Option<Vec<bool>>)
    ensures
        r is Some <==> ci_regex_valid(pattern@),
        r matches Some(f) ==> f@.len() == lines@.len()
            && forall|i: int| 0 <= i < lines@.len() ==> f@[i] == ci_regex_match(pattern@, #[trigger] lines@[i]@),
{
    let re = regex::RegexBuilder::new(pattern).case_insensitive(true).build().ok()?;
    Some(lines.iter().map(|l| re.is_match(l)).collect())
}

/// Whether a line matches the query of `file_search`: by the query as a
/// case-insensitive regular expression, or, where it is none, by the query
/// as text with ASCII case aside.
pub open spec fn line_hit(query: Seq<char>, line: Seq<char>) -> bool {
    if ci_regex_valid(query) {
        ci_regex_match(query, line)
    } else {
        find_from(line.map_values(|c: char| ascii_lower(c)), query.map_values(|c: char| ascii_lower(c)), 0) is Some
    }
}

/// A match of `file_search`.
pub open spec fn match_spec(path: Seq<char>, n: nat, text: Seq<char>) -> JsonV {
    JsonV::Object(seq![("path"@, JsonV::Str(path)), ("line"@, JsonV::PosInt(n as u64)), ("text"@, JsonV::Str(text))])
}

/// The matches among the lines `ls[..k]` of a file, numbered from 1.
pub open spec fn file_hits(path: Seq<char>, ls: Seq<Seq<char>>, query: Seq<char>, k: int) -> Seq<JsonV>
    decreases k,
{
    if k <= 0 || k > ls.len() {
        Seq::empty()
    } else if line_hit(query, ls[k - 1]) {
        file_hits(path, ls, query, k - 1).push(match_spec(path, k as nat, ls[k - 1]))
    } else {
        file_hits(path, ls, query, k - 1)
    }
}

/// The matches of fewer lines come first among those of more.
pub proof fn lemma_file_hits_prefix(path: Seq<char>, ls: Seq<Seq<char>>, query: Seq<char>, a: int, b: int)
    requires
        0 <= a <= b <= ls.len(),
    ensures
        file_hits(path, ls, query, a).len() <= file_hits(path, ls, query, b).len(),
        file_hits(path, ls, query, b).take(file_hits(path, ls, query, a).len() as int) == file_hits(path, ls, query, a),
    decreases b - a,
{
    if a < b {
        lemma_file_hits_prefix(path, ls, query, a, b - 1);
        let h = file_hits(path, ls, query, b - 1);
        let ha = file_hits(path, ls, query, a);
        if line_hit(query, ls[b - 1]) {
            assert(h.push(match_spec(path, b as nat, ls[b - 1])).take(ha.len() as int) =~= h.take(ha.len() as int));
        }
    } else {
        assert(file_hits(path, ls, query, b).take(file_hits(path, ls, query, b).len() as int) =~= file_hits(path, ls, query, b));
    }
}

/// At most the first `n` of `s`.
pub open spec fn at_most(s: Seq<JsonV>, n: int) -> Seq<JsonV> {
    if s.len() <= n { s } else { s.take(n) }
}

/// Whether `file_search`, holding `found` matches, goes on to the next file:
/// it stops once it holds `MATCH_LIMIT`.
pub fn search_wants_more(found: usize) -> (r: bool)
    ensures
        r == (found < MATCH_LIMIT),
{
    found < MATCH_LIMIT
}

/// Whether `file_search` reads a file of `len` bytes: it passes over those
/// larger than `CLIENT_MAX_FILE_BYTES`.
pub fn search_reads_file(len: u64) -> (r: bool)
    ensures
        r == (len <= CLIENT_MAX_FILE_BYTES),
{
    len <= CLIENT_MAX_FILE_BYTES
}

/// Adds the matches among the lines of a file to those found so far, up to
/// `MATCH_LIMIT` in all.
pub fn collect_file_matches(matches: &mut Vec<Json>, display_path: &str, text: &str, query: &str)
    requires
        old(matches)@.len() <= MATCH_LIMIT,
    ensures
        ({
            let ls = str_lines_spec(text@);
            convo_v(final(matches)@) == convo_v(old(matches)@) + at_most(
                file_hits(display_path@, ls, query@, ls.len() as int), MATCH_LIMIT - old(matches)@.len())
        }),
        final(matches)@.len() <= MATCH_LIMIT,
{
    let ls = str_lines(text);
    let ghost lv = strings_view(ls@);
    let flags = ci_regex_flags(query, &ls);
    let lq = to_chars(to_ascii_lowercase(query).as_str());
    let ghost m0 = convo_v(matches@);
    let ghost room = MATCH_LIMIT - matches@.len();
    let mut i: usize = 0;
    while i < ls.len() && matches.len() < MATCH_LIMIT
        invariant
            i <= ls@.len(),
            lv == strings_view(ls@),
            lv == str_lines_spec(text@),
            room == MATCH_LIMIT - m0.len(),
            m0.len() <= MATCH_LIMIT,
            matches@.len() <= MATCH_LIMIT,
            lq@ == query@.map_values(|c: char| ascii_lower(c)),
            flags is Some <==> ci_regex_valid(query@),
            flags matches Some(f) ==> f@.len() == ls@.len()
                && forall|k: int| 0 <= k < ls@.len() ==> f@[k] == ci_regex_match(query@, #[trigger] ls@[k]@),
            convo_v(matches@) == m0 + file_hits(display_path@, lv, query@, i as int),
        decreases ls.len() - i,
    {
        let hit = match &flags {
            Some(f) => f[i],
            None => {
                let ll = to_chars(to_ascii_lowercase(ls[i].as_str()).as_str());
                find_chars_from(&ll, &lq, 0).is_some()
            },
        };
        proof {
            assert(ls@[i as int]@ == lv[i as int]);
            assert(hit == line_hit(query@, lv[i as int]));
        }
        if hit {
            let m = vec![member("path", jstr(display_path)), member("line", jnum((i + 1) as u64)), member("text", jstr(ls[i].as_str()))];
            let ghost mv = m@.map_values(|e: (String, Json)| (e.0@, jv(e.1)));
            let mj = json_object(m);
            proof {
                assert(mv =~= seq![("path"@, JsonV::Str(display_path@)), ("line"@, JsonV::PosInt((i + 1) as u64)), ("text"@, JsonV::Str(lv[i as int]))]);
            }
            let ghost o0 = matches@;
            matches.push(mj);
            proof {
                assert(convo_v(matches@) =~= convo_v(o0).push(jv(mj)));
            }
        }
        i = i + 1;
    }
    proof {
        let full = file_hits(display_path@, lv, query@, lv.len() as int);
        let part = file_hits(display_path@, lv, query@, i as int);
        lemma_file_hits_prefix(display_path@, lv, query@, i as int, lv.len() as int);
        if i == ls.len() {
            assert(part == full);
            assert(at_most(full, room) == full);
        } else {
            assert(part.len() == room);
            assert(at_most(full, room) == part);
        }
    }
}

/// What `file_search` gives: the query, the searched directory's shown path
/// and the matches.
pub fn file_search_result(query: &str, display_path: &str, matches: Vec<Json>) -> (r: Json)
    ensures
        jv(r) == JsonV::Object(seq![("query"@, JsonV::Str(query@)), ("path"@, JsonV::Str(display_path@)),
            ("matches"@, JsonV::Array(convo_v(matches@)))]),
{
    proof {
        lemma_jv_list(matches@, 0);
        assert(jv_list(matches@, 0) =~= convo_v(matches@));
    }
    let m = vec![member("query", jstr(query)), member("path", jstr(display_path)), member("matches", Json::Array(matches))];
    let ghost mv = m@.map_values(|e: (String, Json)| (e.0@, jv(e.1)));
    let r = json_object(m);
    assert(mv =~= seq![("query"@, JsonV::Str(query@)), ("path"@, JsonV::Str(display_path@)), ("matches"@, JsonV::Array(convo_v(matches@)))]);
    r
}

// ---------------------------------------------------------------------------
// Dispatch.

/// Which file tool a name asks for.
#[derive(Debug, Clone, Copy, PartialEq, Eq, Structural)]
pub enum FileTool {
    List,
    Read,
    Search,
}

/// The file tool a name asks for: `file_list`, `file_read` or
/// `file_search`; any other name gives the result
/// `{"error": "unsupported client tool: <name>"}`.
pub fn client_file_tool_kind(name: &str) -> (r: Result<FileTool, Json>)
    ensures
        name@ == "file_list"@ ==> r == Ok::<FileTool, Json>(FileTool::List),
        name@ == "file_read"@ ==> r == Ok::<FileTool, Json>(FileTool::Read),
        name@ == "file_search"@ ==> r == Ok::<FileTool, Json>(FileTool::Search),
        name@ != "file_list"@ && name@ != "file_read"@ && name@ != "file_search"@ ==>
            (r matches Err(e) && jv(e) == obj1("error"@, JsonV::Str("unsupported client tool: "@ + name@))),
{
    proof {
        reveal_strlit("file_list");
        reveal_strlit("file_read");
        reveal_strlit("file_search");
        assert("file_list"@[5] != "file_read"@[5]);
    }
    if str_eq(name, "file_list") {
        Ok(FileTool::List)
    } else if str_eq(name, "file_read") {
        Ok(FileTool::Read)
    } else if str_eq(name, "file_search") {
        Ok(FileTool::Search)
    } else {
        let mut msg = string_from("unsupported client tool: ");
        push_str(&mut msg, name);
        Err(tool_error_value(msg.as_str()))
    }
}

/// The path argument of `file_read`, or the error "missing required path".
pub fn read_path_arg(args: &Json) -> (r: Result<String, String>)
    ensures
        match as_str_v(value_get(jv(*args), "path"@)) {
            Some(p) => r matches Ok(x) && x@ == p,
            None => r matches Err(m) && m@ == "missing required path"@,
        },
{
    match client_arg_str(args, "path") {
        Some(p) => Ok(string_from(p)),
        None => Err(string_from("missing required path")),
    }
}

/// The query argument of `file_search`, or the error "missing required query".
pub fn search_query_arg(args: &Json) -> (r: Result<String, String>)
    ensures
        match as_str_v(value_get(jv(*args), "query"@)) {
            Some(q) => r matches Ok(x) && x@ == q,
            None => r matches Err(m) && m@ == "missing required query"@,
        },
{
    match client_arg_str(args, "query") {
        Some(q) => Ok(string_from(q)),
        None => Err(string_from("missing required query")),
    }
}

/// The directory argument of `file_list` and `file_search`, or `.`.
pub fn base_path_arg(args: &Json) -> (r: String)
    ensures
        r@ == match as_str_v(value_get(jv(*args), "path"@)) { Some(p) => p, None => "."@ },
{
    match client_arg_str(args, "path") {
        Some(p) => string_from(p),
        None => string_from("."),
    }
}

/// Directories that a file search does not enter.
pub fn skipped_dir_name(name: &str) -> (r: bool)
    ensures
        r == (name@ == ".git"@ || name@ == "target"@ || name@ == "node_modules"@),
{
    str_eq(name, ".git") || str_eq(name, "target") || str_eq(name, "node_modules")
}


/// What a file walk does with a directory entry.
#[derive(Clone, Copy, Debug, PartialEq, Eq, Structural)]
pub enum WalkStep {
    /// The entry is passed over.
    Skip,
    /// The entry is a directory to walk into.
    Descend,
    /// The entry is a file to take.
    Take,
}

/// Whether a file walk that has found `found` files stops, its limit being
/// `limit`: it stops once it has at least that many.
pub fn walk_full(found: usize, limit: usize) -> (r: bool)
    ensures
        r == (found >= limit),
{
    found >= limit
}

/// What a file walk does with an entry named `name`: it passes over the
/// directories a search does not enter and entries that are neither
/// directory nor file, walks into directories and takes files.
pub fn walk_step(name: &str, is_dir: bool, is_file: bool) -> (r: WalkStep)
    ensures
        (name@ == ".git"@ || name@ == "target"@ || name@ == "node_modules"@) ==> r == WalkStep::Skip,
        !(name@ == ".git"@ || name@ == "target"@ || name@ == "node_modules"@) ==>
            r == (if is_dir { WalkStep::Descend } else if is_file { WalkStep::Take } else { WalkStep::Skip }),
{
    if skipped_dir_name(name) {
        WalkStep::Skip
    } else if is_dir {
        WalkStep::Descend
    } else if is_file {
        WalkStep::Take
    } else {
        WalkStep::Skip
    }
}

} // verus!
