use vstd::prelude::*;
use crate::text::{to_chars, string_of_range, string_from, str_eq, starts_at, occurs_at};

verus! {

/// The last position at or before `i` where `p` occurs in `s`.
pub open spec fn rfind_from(s: Seq<char>, p: Seq<char>, i: int) -> Option<int>
    decreases i + 1,
{
    if i < 0 {
        None
    } else if starts_at(s, i, p) {
        Some(i)
    } else {
        rfind_from(s, p, i - 1)
    }
}

/// `s` without its trailing `c` characters.
pub open spec fn trim_end_char(s: Seq<char>, c: char) -> Seq<char>
    decreases s.len(),
{
    if s.len() > 0 && s.last() == c { trim_end_char(s.drop_last(), c) } else { s }
}

/// The API base of a chat endpoint: what comes before the last
/// "/api/chat", or else the URL without trailing slashes.
pub open spec fn api_base_spec(u: Seq<char>) -> Seq<char> {
    match rfind_from(u, "/api/chat"@, u.len() - "/api/chat"@.len()) {
        Some(i) => u.take(i),
        None => trim_end_char(u, '/'),
    }
}

/// The server's API base for a chat endpoint URL.
pub fn api_base_from_chat_url(api_url: &str) -> (r: String)
    ensures
        r@ == api_base_spec(api_url@),
{
    let v = to_chars(api_url);
    let p = to_chars("/api/chat");
    proof { reveal_strlit("/api/chat"); }
    if p.len() <= v.len() {
        let mut i: usize = v.len() - p.len() + 1;
        while i > 0
            invariant
                i <= v@.len() - p@.len() + 1,
                p@ == "/api/chat"@,
                v@ == api_url@,
                rfind_from(v@, p@, v@.len() - p@.len()) == rfind_from(v@, p@, i - 1),
            decreases i,
        {
            if occurs_at(&v, i - 1, &p) {
                assert(rfind_from(v@, p@, i - 1) == Some((i - 1) as int));
                let r = string_of_range(&v, 0, i - 1);
                assert(r@ =~= v@.take(i - 1));
                return r;
            }
            i = i - 1;
        }
    }
    let mut n = v.len();
    assert(v@.take(n as int) =~= v@);
    while n > 0 && v[n - 1] == '/'
        invariant
            n <= v@.len(),
            trim_end_char(v@, '/') == trim_end_char(v@.take(n as int), '/'),
        decreases n,
    {
        assert(v@.take(n as int).drop_last() =~= v@.take(n - 1));
        n = n - 1;
    }
    let r = string_of_range(&v, 0, n);
    assert(r@ =~= v@.take(n as int));
    r
}

/// Tool names that models write without the underscore, mapped to the
/// registered names; other names as they are.
pub open spec fn tool_name_spec(name: Seq<char>) -> Seq<char> {
    if name == "webfetch"@ {
        "web_fetch"@
    } else if name == "websearch"@ {
        "web_search"@
    } else {
        name
    }
}

/// The registered name of a tool.
pub fn normalize_tool_name<'a>(name: &'a str) -> (r: &'a str)
    ensures
        r@ == tool_name_spec(name@),
{
    if str_eq(name, "webfetch") {
        "web_fetch"
    } else if str_eq(name, "websearch") {
        "web_search"
    } else {
        name
    }
}

/// The tools that read the user's files and so run on the client.
pub open spec fn client_tool_spec(name: Seq<char>) -> bool {
    let n = tool_name_spec(name);
    n == "file_list"@ || n == "file_read"@ || n == "file_search"@
}

/// The tools that run on the client are exactly the three file tools:
/// `file_list`, `file_read` and `file_search`; every other name, the web
/// tools and their aliases among them, runs elsewhere.
pub proof fn lemma_client_tools_are_the_file_tools(name: Seq<char>)
    ensures
        client_tool_spec(name) <==> (name == "file_list"@ || name == "file_read"@ || name == "file_search"@),
{
    reveal_strlit("file_list");
    reveal_strlit("file_read");
    reveal_strlit("file_search");
    reveal_strlit("webfetch");
    reveal_strlit("web_fetch");
    reveal_strlit("websearch");
    reveal_strlit("web_search");
    assert("file_list"@[0] == 'f' && "file_read"@[0] == 'f' && "file_search"@[0] == 'f');
    assert("web_fetch"@[0] == 'w' && "web_search"@[0] == 'w' && "webfetch"@[0] == 'w' && "websearch"@[0] == 'w');
}

/// Whether the tool runs on the client.
pub fn is_client_filesystem_tool(name: &str) -> (r: bool)
    ensures
        r == client_tool_spec(name@),
{
    let n = normalize_tool_name(name);
    str_eq(n, "file_list") || str_eq(n, "file_read") || str_eq(n, "file_search")
}


/// The texts of the successive non-overlapping matches of a regular
/// expression in a text, as the `regex` crate finds them, or `None` when
/// the pattern does not compile.
pub uninterp spec fn regex_matches(pattern: Seq<char>, text: Seq<char>) -> Option<Seq<Seq<char>>>;

/// `regex::Regex::new(pattern)` and then `find_iter(text)`, each match as
/// its text. Which texts match is named `regex_matches`.
#[verifier::external_body]
fn find_all_matches(pattern: &str, text: &str) -> (r: Option<Vec<String>>)
    ensures
        r matches Some(v) ==> regex_matches(pattern@, text@) == Some(v@.map_values(|m: String| m@)),
        r is None ==> regex_matches(pattern@, text@) is None,
{
    regex::Regex::new(pattern).ok().map(|re| re.find_iter(text).map(|m| m.as_str().to_string()).collect())
}

/// The pattern of a URL in free text.
pub open spec fn url_pattern() -> Seq<char> {
    "https?://[^\\s)\\]}>\\\"']+"@
}

/// Sentence punctuation that may follow a URL.
pub open spec fn is_url_tail_punct(c: char) -> bool {
    c == '.' || c == ',' || c == ';' || c == ':' || c == '!' || c == '?'
}

/// `s` without trailing sentence punctuation.
pub open spec fn trim_url_tail(s: Seq<char>) -> Seq<char>
    decreases s.len(),
{
    if s.len() > 0 && is_url_tail_punct(s.last()) { trim_url_tail(s.drop_last()) } else { s }
}

/// The distinct URLs of the matches, in order of first appearance, each
/// without trailing punctuation; empty ones dropped.
pub open spec fn distinct_urls(ms: Seq<Seq<char>>) -> Seq<Seq<char>>
    decreases ms.len(),
{
    if ms.len() == 0 {
        Seq::empty()
    } else {
        let out = distinct_urls(ms.drop_last());
        let u = trim_url_tail(ms.last());
        if u.len() > 0 && !out.contains(u) { out.push(u) } else { out }
    }
}

/// The http(s) URLs written in a text.
pub open spec fn urls_in_text(text: Seq<char>) -> Seq<Seq<char>> {
    match regex_matches(url_pattern(), text) {
        Some(ms) => distinct_urls(ms),
        None => Seq::empty(),
    }
}

/// The distinct http(s) URLs written in `text`, without trailing
/// punctuation, in order of first appearance.
pub fn extract_urls_from_text(text: &str) -> (r: Vec<String>)
    ensures
        r@.map_values(|u: String| u@) == urls_in_text(text@),
{
    let mut urls: Vec<String> = Vec::new();
    let found = find_all_matches("https?://[^\\s)\\]}>\\\"']+", text);
    assert(urls@.map_values(|u: String| u@) =~= Seq::<Seq<char>>::empty());
    if let Some(ms) = found {
        let ghost mv = ms@.map_values(|m: String| m@);
        let mut i: usize = 0;
        while i < ms.len()
            invariant
                i <= ms@.len(),
                mv == ms@.map_values(|m: String| m@),
                urls@.map_values(|u: String| u@) == distinct_urls(mv.take(i as int)),
            decreases ms.len() - i,
        {
            assert(mv.take(i + 1).drop_last() =~= mv.take(i as int));
            assert(mv.take(i + 1).last() == ms@[i as int]@);
            let v = to_chars(ms[i].as_str());
            let mut n = v.len();
            assert(v@.take(n as int) =~= v@);
            while n > 0 && (v[n - 1] == '.' || v[n - 1] == ',' || v[n - 1] == ';' || v[n - 1] == ':' || v[n - 1] == '!' || v[n - 1] == '?')
                invariant
                    n <= v@.len(),
                    trim_url_tail(v@) == trim_url_tail(v@.take(n as int)),
                decreases n,
            {
                assert(v@.take(n as int).drop_last() =~= v@.take(n - 1));
                n = n - 1;
            }
            let u = string_of_range(&v, 0, n);
            assert(u@ =~= v@.take(n as int));
            let ghost uv = urls@.map_values(|x: String| x@);
            if n > 0 && !crate::json::contains_string_pub(&urls, u.as_str()) {
                urls.push(u);
                assert(urls@.map_values(|x: String| x@) =~= uv.push(trim_url_tail(v@)));
            }
            i = i + 1;
        }
        assert(mv.take(ms@.len() as int) =~= mv);
    }
    urls
}
/// The URLs taken from a text are distinct, none empty, none ending in
/// sentence punctuation.
pub proof fn lemma_urls_distinct(text: Seq<char>)
    ensures
        urls_in_text(text).no_duplicates(),
        forall|i: int| 0 <= i < urls_in_text(text).len() ==> (#[trigger] urls_in_text(text)[i]).len() > 0
            && !is_url_tail_punct(urls_in_text(text)[i].last()),
{
    match regex_matches(url_pattern(), text) {
        Some(ms) => lemma_distinct_urls(ms),
        None => {},
    }
}

proof fn lemma_trim_url_tail_end(s: Seq<char>)
    ensures
        trim_url_tail(s).len() > 0 ==> !is_url_tail_punct(trim_url_tail(s).last()),
    decreases s.len(),
{
    if s.len() > 0 && is_url_tail_punct(s.last()) {
        lemma_trim_url_tail_end(s.drop_last());
    }
}

proof fn lemma_distinct_urls(ms: Seq<Seq<char>>)
    ensures
        distinct_urls(ms).no_duplicates(),
        forall|i: int| 0 <= i < distinct_urls(ms).len() ==> (#[trigger] distinct_urls(ms)[i]).len() > 0
            && !is_url_tail_punct(distinct_urls(ms)[i].last()),
    decreases ms.len(),
{
    if ms.len() > 0 {
        lemma_distinct_urls(ms.drop_last());
        lemma_trim_url_tail_end(ms.last());
        let out = distinct_urls(ms.drop_last());
        let u = trim_url_tail(ms.last());
        if u.len() > 0 && !out.contains(u) {
            assert forall|a: int, b: int| 0 <= a < b < out.push(u).len() implies out.push(u)[a] != out.push(u)[b] by {
                if b == out.len() {
                    assert(out.contains(out[a]));
                }
            }
        }
    }
}

} // verus!
