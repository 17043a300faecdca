use vstd::prelude::*;
use crate::text::{to_chars, string_of_range, string_from, copy_string, str_eq, push_str, trim, trim_spec};
use crate::tools::{tool_name_spec, normalize_tool_name};
use serde_json::Value;
use crate::text::{decimal, push_decimal};
use crate::chat::{Source, Message, role_wire_spec, role_to_wire, attachment_images, attachment_image_data, strings_view, truncate_for_context};

verus! {

/// A JSON number as the parser keeps it: a non-negative integer, a negative
/// integer, or a floating-point number in the parser's own text form.
#[derive(Debug, PartialEq)]
pub enum JsonNumber {
    PosInt(u64),
    NegInt(i64),
    Float(String),
}

/// A JSON value. An object keeps its members in order, each key once.
#[derive(Debug, PartialEq)]
pub enum Json {
    Null,
    Bool(bool),
    Number(JsonNumber),
    Str(String),
    Array(Vec<Json>),
    Object(Vec<(String, Json)>),
}

/// The plain-value form of a JSON value.
pub enum JsonV {
    Null,
    Bool(bool),
    PosInt(u64),
    NegInt(i64),
    Float(Seq<char>),
    Str(Seq<char>),
    Array(Seq<JsonV>),
    Object(Seq<(Seq<char>, JsonV)>),
}

/// The plain-value form of `j`.
pub open spec fn jv(j: Json) -> JsonV
    decreases j, 0nat,
{
    match j {
        Json::Null => JsonV::Null,
        Json::Bool(b) => JsonV::Bool(b),
        Json::Number(JsonNumber::PosInt(n)) => JsonV::PosInt(n),
        Json::Number(JsonNumber::NegInt(n)) => JsonV::NegInt(n),
        Json::Number(JsonNumber::Float(t)) => JsonV::Float(t@),
        Json::Str(s) => JsonV::Str(s@),
        Json::Array(v) => JsonV::Array(jv_list(v@, 0)),
        Json::Object(m) => JsonV::Object(jv_entries(m@, 0)),
    }
}

pub open spec fn jv_list(s: Seq<Json>, i: int) -> Seq<JsonV>
    decreases s, s.len() - i,
{
    if i < 0 || i >= s.len() {
        Seq::empty()
    } else {
        seq![jv(s[i])] + jv_list(s, i + 1)
    }
}

pub open spec fn jv_entries(s: Seq<(String, Json)>, i: int) -> Seq<(Seq<char>, JsonV)>
    decreases s, s.len() - i,
{
    if i < 0 || i >= s.len() {
        Seq::empty()
    } else {
        seq![(s[i].0@, jv(s[i].1))] + jv_entries(s, i + 1)
    }
}


pub proof fn lemma_jv_list(s: Seq<Json>, i: int)
    requires
        0 <= i <= s.len(),
    ensures
        jv_list(s, i).len() == s.len() - i,
        forall|k: int| 0 <= k < s.len() - i ==> #[trigger] jv_list(s, i)[k] == jv(s[i + k]),
    decreases s.len() - i,
{
    if i < s.len() {
        lemma_jv_list(s, i + 1);
        assert forall|k: int| 0 <= k < s.len() - i implies #[trigger] jv_list(s, i)[k] == jv(s[i + k]) by {
            if k > 0 {
                assert(jv_list(s, i)[k] == jv_list(s, i + 1)[k - 1]);
            }
        }
    }
}

pub proof fn lemma_jv_entries(s: Seq<(String, Json)>, i: int)
    requires
        0 <= i <= s.len(),
    ensures
        jv_entries(s, i).len() == s.len() - i,
        forall|k: int| 0 <= k < s.len() - i ==> #[trigger] jv_entries(s, i)[k] == (s[i + k].0@, jv(s[i + k].1)),
    decreases s.len() - i,
{
    if i < s.len() {
        lemma_jv_entries(s, i + 1);
        assert forall|k: int| 0 <= k < s.len() - i implies #[trigger] jv_entries(s, i)[k] == (s[i + k].0@, jv(s[i + k].1)) by {
            if k > 0 {
                assert(jv_entries(s, i)[k] == jv_entries(s, i + 1)[k - 1]);
            }
        }
    }
}

/// The members of an object value, as plain values.
pub open spec fn entries_v(m: Seq<(String, Json)>) -> Seq<(Seq<char>, JsonV)> {
    jv_entries(m, 0)
}

/// The value of the first member named `key`.
pub open spec fn obj_get(es: Seq<(Seq<char>, JsonV)>, key: Seq<char>) -> Option<JsonV>
    decreases es.len(),
{
    if es.len() == 0 {
        None
    } else if es[0].0 == key {
        Some(es[0].1)
    } else {
        obj_get(es.drop_first(), key)
    }
}

/// `Value::get(key)`: the member `key` of an object; nothing for other values.
pub open spec fn value_get(v: JsonV, key: Seq<char>) -> Option<JsonV> {
    match v {
        JsonV::Object(es) => obj_get(es, key),
        _ => None,
    }
}

/// `Value::as_str`.
pub open spec fn as_str_v(v: Option<JsonV>) -> Option<Seq<char>> {
    match v {
        Some(JsonV::Str(s)) => Some(s),
        _ => None,
    }
}

/// `Value::as_u64`.
pub open spec fn as_u64_v(v: Option<JsonV>) -> Option<u64> {
    match v {
        Some(JsonV::PosInt(n)) => Some(n),
        _ => None,
    }
}

/// Finds the member `key` of an object.
pub fn json_get<'a>(m: &'a Vec<(String, Json)>, key: &str) -> (r: Option<&'a Json>)
    ensures
        r matches Some(v) ==> obj_get(entries_v(m@), key@) == Some(jv(*v)),
        r is None ==> obj_get(entries_v(m@), key@) is None,
{
    proof { lemma_jv_entries(m@, 0); }
    let mut i: usize = 0;
    assert(entries_v(m@).skip(0) =~= entries_v(m@));
    while i < m.len()
        invariant
            i <= m@.len(),
            entries_v(m@).len() == m@.len(),
            forall|k: int| 0 <= k < m@.len() ==> #[trigger] entries_v(m@)[k] == (m@[k].0@, jv(m@[k].1)),
            obj_get(entries_v(m@), key@) == obj_get(entries_v(m@).skip(i as int), key@),
        decreases m.len() - i,
    {
        let ghost rest = entries_v(m@).skip(i as int);
        assert(rest[0] == entries_v(m@)[i as int]);
        assert(rest.drop_first() =~= entries_v(m@).skip(i + 1));
        if str_eq(m[i].0.as_str(), key) {
            return Some(&m[i].1);
        }
        i = i + 1;
    }
    None
}

/// The member `key` of a value, when the value is an object.
pub fn value_get_ref<'a>(v: &'a Json, key: &str) -> (r: Option<&'a Json>)
    ensures
        r matches Some(x) ==> value_get(jv(*v), key@) == Some(jv(*x)),
        r is None ==> value_get(jv(*v), key@) is None,
{
    match v {
        Json::Object(m) => json_get(m, key),
        _ => None,
    }
}

/// The text of a string value.
pub fn as_str_ref<'a>(v: Option<&'a Json>) -> (r: Option<&'a str>)
    ensures
        (match r { Some(s) => Some(s@), None => None::<Seq<char>> }) == as_str_v(match v { Some(x) => Some(jv(*x)), None => None }),
{
    match v {
        Some(Json::Str(s)) => Some(s.as_str()),
        _ => None,
    }
}

/// `args[key]` as text, when `args` is an object holding a string there.
pub fn client_arg_str<'a>(args: &'a Json, key: &str) -> (r: Option<&'a str>)
    ensures
        (match r { Some(s) => Some(s@), None => None::<Seq<char>> }) == as_str_v(value_get(jv(*args), key@)),
{
    as_str_ref(value_get_ref(args, key))
}

/// `args[key]` as an unsigned integer, when `args` is an object holding one
/// there.
pub fn client_arg_u64(args: &Json, key: &str) -> (r: Option<u64>)
    ensures
        r == as_u64_v(value_get(jv(*args), key@)),
{
    match value_get_ref(args, key) {
        Some(Json::Number(JsonNumber::PosInt(n))) => Some(*n),
        _ => None,
    }
}

#[verifier::external_type_specification]
#[verifier::external_body]
pub struct ExJsonValue(Value);

/// A `serde_json::Value` as a `Json`, variant for variant.
#[verifier::external_body]
pub fn json_from_value(v: Value) -> Json {
    match v {
        Value::Null => Json::Null,
        Value::Bool(b) => Json::Bool(b),
        Value::Number(n) => Json::Number(match (n.as_u64(), n.as_i64()) {
            (Some(u), _) => JsonNumber::PosInt(u),
            (None, Some(i)) => JsonNumber::NegInt(i),
            _ => JsonNumber::Float(n.to_string()),
        }),
        Value::String(s) => Json::Str(s),
        Value::Array(a) => Json::Array(a.into_iter().map(json_from_value).collect()),
        Value::Object(m) => Json::Object(m.into_iter().map(|(k, v)| (k, json_from_value(v))).collect()),
    }
}

/// A `Json` as a `serde_json::Value`, variant for variant.
#[verifier::external_body]
pub fn json_to_value(j: &Json) -> Value {
    match j {
        Json::Null => Value::Null,
        Json::Bool(b) => Value::Bool(*b),
        Json::Number(JsonNumber::PosInt(u)) => Value::from(*u),
        Json::Number(JsonNumber::NegInt(i)) => Value::from(*i),
        Json::Number(JsonNumber::Float(t)) => t.parse::<serde_json::Number>().map(Value::Number).unwrap_or(Value::Null),
        Json::Str(s) => Value::String(s.clone()),
        Json::Array(a) => Value::Array(a.iter().map(json_to_value).collect()),
        Json::Object(m) => Value::Object(m.iter().map(|(k, v)| (k.clone(), json_to_value(v))).collect()),
    }
}

/// The value that `serde_json` parses from a text, or `None` when the text
/// is not JSON.
pub uninterp spec fn parsed_json(text: Seq<char>) -> Option<JsonV>;

/// `serde_json::from_str::<Value>`: the parsed value, converted. What the
/// parser produces is named `parsed_json`.
#[verifier::external_body]
pub fn parse_json(text: &str) -> (r: Option<Json>)
    ensures
        r matches Some(j) ==> parsed_json(text@) == Some(jv(j)),
        r is None ==> parsed_json(text@) is None,
{
    serde_json::from_str::<Value>(text).ok().map(json_from_value)
}

/// The compact JSON text of a value, as `serde_json` prints it.
pub uninterp spec fn json_text(v: JsonV) -> Seq<char>;

/// `Value::to_string`: the compact JSON text of `j`, named `json_text`.
#[verifier::external_body]
pub fn json_to_text(j: &Json) -> (r: String)
    ensures
        r@ == json_text(jv(*j)),
{
    json_to_value(j).to_string()
}

/// An object with one member.
pub open spec fn obj1(k: Seq<char>, v: JsonV) -> JsonV {
    JsonV::Object(seq![(k, v)])
}

/// The value of the first of the keys `a`, `b`, `c` that the object has.
pub open spec fn first_present(es: Seq<(Seq<char>, JsonV)>, a: Seq<char>, b: Seq<char>, c: Seq<char>) -> Option<JsonV> {
    match obj_get(es, a) {
        Some(v) => Some(v),
        None => match obj_get(es, b) {
            Some(v) => Some(v),
            None => obj_get(es, c),
        },
    }
}

/// Tool arguments after a string argument is read: a string that parses
/// as JSON becomes that value; another string becomes the URL of a fetch
/// or the query of any other tool.
pub open spec fn payload_args(n: Seq<char>, raw: JsonV) -> JsonV {
    match raw {
        JsonV::Str(s) => match parsed_json(s) {
            Some(v) => v,
            None => if n == "web_fetch"@ { obj1("url"@, JsonV::Str(s)) } else { obj1("query"@, JsonV::Str(s)) },
        },
        other => other,
    }
}

/// The arguments of a tool call in the form the tool takes: a web search
/// gets `{"query": ..}` from `query`, `text` or `q`; a fetch gets
/// `{"url": ..}` from `url`, `href` or `link`; strings are trimmed.
pub open spec fn normalize_payload_spec(name: Seq<char>, raw: JsonV) -> JsonV {
    let n = tool_name_spec(name);
    let args = payload_args(n, raw);
    if n == "web_search"@ {
        match args {
            JsonV::Object(es) => match as_str_v(first_present(es, "query"@, "text"@, "q"@)) {
                Some(q) => obj1("query"@, JsonV::Str(trim_spec(q))),
                None => JsonV::Object(es),
            },
            JsonV::Str(s) => obj1("query"@, JsonV::Str(trim_spec(s))),
            other => obj1("query"@, other),
        }
    } else if n == "web_fetch"@ {
        match args {
            JsonV::Object(es) => match as_str_v(first_present(es, "url"@, "href"@, "link"@)) {
                Some(u) => obj1("url"@, JsonV::Str(trim_spec(u))),
                None => JsonV::Object(es),
            },
            JsonV::Str(s) => obj1("url"@, JsonV::Str(trim_spec(s))),
            other => obj1("url"@, other),
        }
    } else {
        args
    }
}

/// An object with one member, as a value.
pub fn make_obj1(k: &str, v: Json) -> (r: Json)
    ensures
        jv(r) == obj1(k@, jv(v)),
{
    let key = string_from(k);
    let m: Vec<(String, Json)> = vec![(key, v)];
    let r = Json::Object(m);
    proof {
        reveal_with_fuel(jv_entries, 2);
        assert(jv_entries(m@, 0) =~= seq![(k@, jv(v))]);
    }
    r
}

fn first_present_ref<'a>(m: &'a Vec<(String, Json)>, a: &str, b: &str, c: &str) -> (r: Option<&'a Json>)
    ensures
        (match r { Some(x) => Some(jv(*x)), None => None }) == first_present(entries_v(m@), a@, b@, c@),
{
    match json_get(m, a) {
        Some(v) => Some(v),
        None => match json_get(m, b) {
            Some(v) => Some(v),
            None => json_get(m, c),
        },
    }
}

/// The arguments of a tool call in the form the tool takes.
pub fn normalize_tool_payload(tool_name: &str, raw_args: Json) -> (r: Json)
    ensures
        jv(r) == normalize_payload_spec(tool_name@, jv(raw_args)),
{
    let n = normalize_tool_name(tool_name);
    let is_fetch = str_eq(n, "web_fetch");
    let args = match raw_args {
        Json::Str(s) => match parse_json(s.as_str()) {
            Some(v) => v,
            None => if is_fetch { make_obj1("url", Json::Str(s)) } else { make_obj1("query", Json::Str(s)) },
        },
        other => other,
    };
    assert(jv(args) == payload_args(tool_name_spec(tool_name@), jv(raw_args)));
    if str_eq(n, "web_search") {
        match args {
            Json::Object(m) => {
                let found = match as_str_ref(first_present_ref(&m, "query", "text", "q")) {
                    Some(q) => Some(trim(q)),
                    None => None,
                };
                match found {
                    Some(t) => make_obj1("query", Json::Str(t)),
                    None => Json::Object(m),
                }
            },
            Json::Str(s) => make_obj1("query", Json::Str(trim(s.as_str()))),
            other => make_obj1("query", other),
        }
    } else if is_fetch {
        match args {
            Json::Object(m) => {
                let found = match as_str_ref(first_present_ref(&m, "url", "href", "link")) {
                    Some(u) => Some(trim(u)),
                    None => None,
                };
                match found {
                    Some(t) => make_obj1("url", Json::Str(t)),
                    None => Json::Object(m),
                }
            },
            Json::Str(s) => make_obj1("url", Json::Str(trim(s.as_str()))),
            other => make_obj1("url", other),
        }
    } else {
        args
    }
}

/// `Value::as_array`.
pub open spec fn as_array_v(v: Option<JsonV>) -> Option<Seq<JsonV>> {
    match v {
        Some(JsonV::Array(a)) => Some(a),
        _ => None,
    }
}

/// The first `n` characters of `s` (all of `s` when it is shorter).
pub open spec fn take_chars(s: Seq<char>, n: int) -> Seq<char> {
    if n < s.len() { s.take(n) } else { s }
}

/// A one-line summary of a tool's result for the trace.
pub open spec fn summarize_spec(v: JsonV) -> Seq<char> {
    match as_str_v(value_get(v, "error"@)) {
        Some(e) => "error: "@ + take_chars(e, 180),
        None => match v {
            JsonV::Object(es) => match as_array_v(obj_get(es, "entries"@)) {
                Some(a) => decimal(a.len()) + " entries"@,
                None => match as_array_v(obj_get(es, "matches"@)) {
                    Some(a) => decimal(a.len()) + " matches"@,
                    None => match as_array_v(obj_get(es, "lines"@)) {
                        Some(a) => decimal(a.len()) + " lines"@,
                        None => "object with "@ + decimal(es.len()) + " fields"@,
                    },
                },
            },
            JsonV::Array(a) => decimal(a.len()) + " items"@,
            other => take_chars(json_text(other), 180),
        },
    }
}

fn count_text(n: usize, suffix: &str) -> (r: String)
    ensures
        r@ == decimal(n as nat) + suffix@,
{
    let mut t = String::new();
    push_decimal(&mut t, n as u64);
    push_str(&mut t, suffix);
    t
}

/// A one-line summary of a tool's result.
pub fn summarize_tool_result(value: &Json) -> (r: String)
    ensures
        r@ == summarize_spec(jv(*value)),
{
    if let Some(error) = as_str_ref(value_get_ref(value, "error")) {
        let mut t = string_from("error: ");
        let cut = truncate_for_context(error, 180);
        push_str(&mut t, cut.as_str());
        return t;
    }
    match value {
        Json::Object(m) => {
            proof { lemma_jv_entries(m@, 0); }
            if let Some(Json::Array(a)) = json_get(m, "entries") {
                proof { lemma_jv_list(a@, 0); }
                return count_text(a.len(), " entries");
            }
            if let Some(Json::Array(a)) = json_get(m, "matches") {
                proof { lemma_jv_list(a@, 0); }
                return count_text(a.len(), " matches");
            }
            if let Some(Json::Array(a)) = json_get(m, "lines") {
                proof { lemma_jv_list(a@, 0); }
                return count_text(a.len(), " lines");
            }
            let mut t = string_from("object with ");
            push_decimal(&mut t, m.len() as u64);
            push_str(&mut t, " fields");
            t
        },
        Json::Array(a) => {
            proof { lemma_jv_list(a@, 0); }
            count_text(a.len(), " items")
        },
        other => {
            let text = json_to_text(other);
            truncate_for_context(text.as_str(), 180)
        },
    }
}

/// An http or https URL.
pub open spec fn is_http(u: Seq<char>) -> bool {
    (u.len() >= 7 && u.take(7) == "http://"@) || (u.len() >= 8 && u.take(8) == "https://"@)
}

/// Adds the string under `key` to `out` when it is a new http(s) URL.
pub open spec fn add_url(es: Seq<(Seq<char>, JsonV)>, key: Seq<char>, out: Seq<Seq<char>>) -> Seq<Seq<char>> {
    match as_str_v(obj_get(es, key)) {
        Some(u) => if is_http(u) && !out.contains(u) { out.push(u) } else { out },
        None => out,
    }
}

/// The URLs found in a value, after those in `out`: in each object those
/// under `url`, `link` and `href`, then those of its members in order.
pub open spec fn urls_fold(v: JsonV, out: Seq<Seq<char>>) -> Seq<Seq<char>>
    decreases v, 0nat,
{
    match v {
        JsonV::Object(es) => urls_entries(es, 0, add_url(es, "href"@, add_url(es, "link"@, add_url(es, "url"@, out)))),
        JsonV::Array(a) => urls_list(a, 0, out),
        _ => out,
    }
}

pub open spec fn urls_list(a: Seq<JsonV>, i: int, out: Seq<Seq<char>>) -> Seq<Seq<char>>
    decreases a, a.len() - i,
{
    if i < 0 || i >= a.len() { out } else { urls_list(a, i + 1, urls_fold(a[i], out)) }
}

pub open spec fn urls_entries(es: Seq<(Seq<char>, JsonV)>, i: int, out: Seq<Seq<char>>) -> Seq<Seq<char>>
    decreases es, es.len() - i,
{
    if i < 0 || i >= es.len() { out } else { urls_entries(es, i + 1, urls_fold(es[i].1, out)) }
}

/// Whether `out` holds `u`.
pub fn contains_string_pub(out: &Vec<String>, u: &str) -> (r: bool)
    ensures
        r == out@.map_values(|s: String| s@).contains(u@),
{
    let r = contains_string(out, u);
    assert(strings_view(out@) =~= out@.map_values(|s: String| s@));
    r
}

/// Whether `out` holds `u`.
fn contains_string(out: &Vec<String>, u: &str) -> (r: bool)
    ensures
        r == strings_view(out@).contains(u@),
{
    let mut i: usize = 0;
    while i < out.len()
        invariant
            i <= out@.len(),
            forall|k: int| 0 <= k < i ==> out@[k]@ != u@,
        decreases out.len() - i,
    {
        if str_eq(out[i].as_str(), u) {
            assert(strings_view(out@)[i as int] == u@);
            return true;
        }
        i = i + 1;
    }
    assert(!strings_view(out@).contains(u@)) by {
        if strings_view(out@).contains(u@) {
            let k = choose|k: int| 0 <= k < strings_view(out@).len() && strings_view(out@)[k] == u@;
            assert(out@[k]@ == u@);
        }
    }
    false
}

/// Whether a text is an http or https URL.
pub fn is_http_url(u: &str) -> (r: bool)
    ensures
        r == is_http(u@),
{
    let v = to_chars(u);
    let a = to_chars("http://");
    let b = to_chars("https://");
    proof {
        reveal_strlit("http://");
        reveal_strlit("https://");
    }
    let ra = crate::text::occurs_at(&v, 0, &a);
    let rb = crate::text::occurs_at(&v, 0, &b);
    assert(v@.len() >= 7 ==> v@.subrange(0, 7) =~= v@.take(7));
    assert(v@.len() >= 8 ==> v@.subrange(0, 8) =~= v@.take(8));
    ra || rb
}

fn add_url_exec(m: &Vec<(String, Json)>, key: &str, out: &mut Vec<String>)
    ensures
        strings_view(final(out)@) == add_url(entries_v(m@), key@, strings_view(old(out)@)),
{
    if let Some(u) = as_str_ref(json_get(m, key)) {
        if is_http_url(u) && !contains_string(out, u) {
            let ghost o0 = strings_view(out@);
            out.push(string_from(u));
            assert(strings_view(out@) =~= o0.push(u@));
        }
    }
}

/// Adds to `out` the http(s) URLs that `value` holds under `url`, `link`
/// or `href` keys, at any depth, skipping URLs already there.
pub fn collect_urls(value: &Json, out: &mut Vec<String>)
    ensures
        strings_view(final(out)@) == urls_fold(jv(*value), strings_view(old(out)@)),
    decreases value,
{
    match value {
        Json::Object(m) => {
            add_url_exec(m, "url", out);
            add_url_exec(m, "link", out);
            add_url_exec(m, "href", out);
            proof { lemma_jv_entries(m@, 0); }
            let ghost es = entries_v(m@);
            let ghost start = strings_view(out@);
            let mut i: usize = 0;
            while i < m.len()
                invariant
                    i <= m@.len(),
                    *value == Json::Object(*m),
                    es == entries_v(m@),
                    es.len() == m@.len(),
                    forall|k: int| 0 <= k < m@.len() ==> #[trigger] es[k] == (m@[k].0@, jv(m@[k].1)),
                    urls_entries(es, 0, start) == urls_entries(es, i as int, strings_view(out@)),
                decreases m.len() - i,
            {
                proof {
                    assert(decreases_to!(*value => (*value)->Object_0));
                    assert(decreases_to!((*value)->Object_0 => m@));
                    assert(decreases_to!(m@ => m@[i as int]));
                    assert(decreases_to!(m@[i as int] => m@[i as int].1));
                }
                assert(es[i as int].1 == jv(m@[i as int].1));
                collect_urls(&m[i].1, out);
                i = i + 1;
            }
        },
        Json::Array(a) => {
            proof { lemma_jv_list(a@, 0); }
            let ghost vs = jv_list(a@, 0);
            let ghost start = strings_view(out@);
            let mut i: usize = 0;
            while i < a.len()
                invariant
                    i <= a@.len(),
                    *value == Json::Array(*a),
                    vs == jv_list(a@, 0),
                    vs.len() == a@.len(),
                    forall|k: int| 0 <= k < a@.len() ==> #[trigger] vs[k] == jv(a@[k]),
                    urls_list(vs, 0, start) == urls_list(vs, i as int, strings_view(out@)),
                decreases a.len() - i,
            {
                proof {
                    assert(decreases_to!(*value => (*value)->Array_0));
                    assert(decreases_to!((*value)->Array_0 => a@));
                    assert(decreases_to!(a@ => a@[i as int]));
                }
                assert(vs[i as int] == jv(a@[i as int]));
                collect_urls(&a[i], out);
                i = i + 1;
            }
        },
        _ => {},
    }
}

/// A source as plain values: title, URL, snippet.
pub open spec fn source_v(s: Source) -> (Seq<char>, Seq<char>, Seq<char>) {
    (s.title@, s.url@, s.snippet@)
}

pub open spec fn sources_v(v: Seq<Source>) -> Seq<(Seq<char>, Seq<char>, Seq<char>)> {
    v.map_values(|s: Source| source_v(s))
}

/// The first of `keys` under which the object holds a string, with that
/// string.
pub open spec fn first_str(es: Seq<(Seq<char>, JsonV)>, keys: Seq<Seq<char>>) -> Option<Seq<char>>
    decreases keys.len(),
{
    if keys.len() == 0 {
        None
    } else {
        match as_str_v(obj_get(es, keys[0])) {
            Some(t) => Some(t),
            None => first_str(es, keys.drop_first()),
        }
    }
}

pub open spec fn url_keys() -> Seq<Seq<char>> { seq!["url"@, "link"@, "href"@] }
pub open spec fn title_keys() -> Seq<Seq<char>> { seq!["title"@, "name"@, "site_name"@] }
pub open spec fn snippet_keys() -> Seq<Seq<char>> { seq!["snippet"@, "summary"@, "description"@, "content"@, "text"@] }

/// Whether one of the sources has URL `u`.
pub open spec fn has_source_url(out: Seq<(Seq<char>, Seq<char>, Seq<char>)>, u: Seq<char>) -> bool {
    exists|k: int| 0 <= k < out.len() && (#[trigger] out[k]).1 == u
}

/// Adds the source an object describes, when it names a new http(s) URL:
/// the first string under `url`/`link`/`href`, a title from
/// `title`/`name`/`site_name` (else the URL), a snippet of at most 240
/// characters from `snippet`/`summary`/`description`/`content`/`text`.
pub open spec fn add_source(es: Seq<(Seq<char>, JsonV)>, out: Seq<(Seq<char>, Seq<char>, Seq<char>)>) -> Seq<(Seq<char>, Seq<char>, Seq<char>)> {
    match first_str(es, url_keys()) {
        Some(u) => if is_http(u) && !has_source_url(out, u) {
            let title = match first_str(es, title_keys()) { Some(t) => t, None => u };
            let snippet = match first_str(es, snippet_keys()) { Some(t) => take_chars(t, 240), None => Seq::empty() };
            out.push((title, u, snippet))
        } else {
            out
        },
        None => out,
    }
}

/// The sources found in a value, after those in `out`: each object's own
/// source first, then those of its members in order.
pub open spec fn sources_fold(v: JsonV, out: Seq<(Seq<char>, Seq<char>, Seq<char>)>) -> Seq<(Seq<char>, Seq<char>, Seq<char>)>
    decreases v, 0nat,
{
    match v {
        JsonV::Object(es) => sources_entries(es, 0, add_source(es, out)),
        JsonV::Array(a) => sources_list(a, 0, out),
        _ => out,
    }
}

pub open spec fn sources_list(a: Seq<JsonV>, i: int, out: Seq<(Seq<char>, Seq<char>, Seq<char>)>) -> Seq<(Seq<char>, Seq<char>, Seq<char>)>
    decreases a, a.len() - i,
{
    if i < 0 || i >= a.len() { out } else { sources_list(a, i + 1, sources_fold(a[i], out)) }
}

pub open spec fn sources_entries(es: Seq<(Seq<char>, JsonV)>, i: int, out: Seq<(Seq<char>, Seq<char>, Seq<char>)>) -> Seq<(Seq<char>, Seq<char>, Seq<char>)>
    decreases es, es.len() - i,
{
    if i < 0 || i >= es.len() { out } else { sources_entries(es, i + 1, sources_fold(es[i].1, out)) }
}

/// The first of the keys under which `m` holds a string.
fn first_str_exec<'a>(m: &'a Vec<(String, Json)>, keys: &Vec<&str>) -> (r: Option<&'a str>)
    ensures
        (match r { Some(t) => Some(t@), None => None::<Seq<char>> }) == first_str(entries_v(m@), keys@.map_values(|k: &str| k@)),
{
    let ghost ks = keys@.map_values(|k: &str| k@);
    let mut i: usize = 0;
    assert(ks.skip(0) =~= ks);
    while i < keys.len()
        invariant
            i <= keys@.len(),
            ks == keys@.map_values(|k: &str| k@),
            first_str(entries_v(m@), ks) == first_str(entries_v(m@), ks.skip(i as int)),
        decreases keys.len() - i,
    {
        assert(ks.skip(i as int)[0] == keys@[i as int]@);
        assert(ks.skip(i as int).drop_first() =~= ks.skip(i + 1));
        if let Some(t) = as_str_ref(json_get(m, keys[i])) {
            return Some(t);
        }
        i = i + 1;
    }
    None
}

fn has_url_exec(out: &Vec<Source>, u: &str) -> (r: bool)
    ensures
        r == has_source_url(sources_v(out@), u@),
{
    let mut i: usize = 0;
    while i < out.len()
        invariant
            i <= out@.len(),
            forall|k: int| 0 <= k < i ==> out@[k].url@ != u@,
        decreases out.len() - i,
    {
        if str_eq(out[i].url.as_str(), u) {
            assert(sources_v(out@)[i as int].1 == u@);
            return true;
        }
        i = i + 1;
    }
    assert(!has_source_url(sources_v(out@), u@)) by {
        if has_source_url(sources_v(out@), u@) {
            let k = choose|k: int| 0 <= k < sources_v(out@).len() && (#[trigger] sources_v(out@)[k]).1 == u@;
            assert(out@[k].url@ == u@);
        }
    }
    false
}

fn add_source_exec(m: &Vec<(String, Json)>, out: &mut Vec<Source>)
    ensures
        sources_v(final(out)@) == add_source(entries_v(m@), sources_v(old(out)@)),
{
    let uk: Vec<&str> = vec!["url", "link", "href"];
    let tk: Vec<&str> = vec!["title", "name", "site_name"];
    let sk: Vec<&str> = vec!["snippet", "summary", "description", "content", "text"];
    assert(uk@.map_values(|k: &str| k@) =~= url_keys());
    assert(tk@.map_values(|k: &str| k@) =~= title_keys());
    assert(sk@.map_values(|k: &str| k@) =~= snippet_keys());
    if let Some(u) = first_str_exec(m, &uk) {
        if is_http_url(u) && !has_url_exec(out, u) {
            let title = match first_str_exec(m, &tk) {
                Some(t) => string_from(t),
                None => string_from(u),
            };
            let snippet = match first_str_exec(m, &sk) {
                Some(t) => {
                    let r = truncate_for_context(t, 240);
                    assert(r@ =~= take_chars(t@, 240));
                    r
                },
                None => String::new(),
            };
            let ghost o0 = sources_v(out@);
            out.push(Source { title, url: string_from(u), snippet });
            assert(sources_v(out@) =~= o0.push(source_v(out@.last())));
        }
    }
}

/// Adds to `out` the web sources that `value` describes at any depth,
/// skipping URLs already there.
pub fn collect_sources(value: &Json, out: &mut Vec<Source>)
    ensures
        sources_v(final(out)@) == sources_fold(jv(*value), sources_v(old(out)@)),
    decreases value,
{
    match value {
        Json::Object(m) => {
            add_source_exec(m, out);
            proof { lemma_jv_entries(m@, 0); }
            let ghost es = entries_v(m@);
            let ghost start = sources_v(out@);
            let mut i: usize = 0;
            while i < m.len()
                invariant
                    i <= m@.len(),
                    *value == Json::Object(*m),
                    es == entries_v(m@),
                    es.len() == m@.len(),
                    forall|k: int| 0 <= k < m@.len() ==> #[trigger] es[k] == (m@[k].0@, jv(m@[k].1)),
                    sources_entries(es, 0, start) == sources_entries(es, i as int, sources_v(out@)),
                decreases m.len() - i,
            {
                proof {
                    assert(decreases_to!(*value => (*value)->Object_0));
                    assert(decreases_to!((*value)->Object_0 => m@));
                    assert(decreases_to!(m@ => m@[i as int]));
                    assert(decreases_to!(m@[i as int] => m@[i as int].1));
                }
                assert(es[i as int].1 == jv(m@[i as int].1));
                collect_sources(&m[i].1, out);
                i = i + 1;
            }
        },
        Json::Array(a) => {
            proof { lemma_jv_list(a@, 0); }
            let ghost vs = jv_list(a@, 0);
            let ghost start = sources_v(out@);
            let mut i: usize = 0;
            while i < a.len()
                invariant
                    i <= a@.len(),
                    *value == Json::Array(*a),
                    vs == jv_list(a@, 0),
                    vs.len() == a@.len(),
                    forall|k: int| 0 <= k < a@.len() ==> #[trigger] vs[k] == jv(a@[k]),
                    sources_list(vs, 0, start) == sources_list(vs, i as int, sources_v(out@)),
                decreases a.len() - i,
            {
                proof {
                    assert(decreases_to!(*value => (*value)->Array_0));
                    assert(decreases_to!((*value)->Array_0 => a@));
                    assert(decreases_to!(a@ => a@[i as int]));
                }
                assert(vs[i as int] == jv(a@[i as int]));
                collect_sources(&a[i], out);
                i = i + 1;
            }
        },
        _ => {},
    }
}

/// The web sources a tool result describes.
pub fn sources_from_value(value: &Json) -> (r: Vec<Source>)
    ensures
        sources_v(r@) == sources_fold(jv(*value), Seq::empty()),
{
    let mut out: Vec<Source> = Vec::new();
    assert(sources_v(out@) =~= Seq::<(Seq<char>, Seq<char>, Seq<char>)>::empty());
    collect_sources(value, &mut out);
    out
}

/// A message as a JSON value of the model's chat API: role, content and,
/// when any attachment carries data, the images.
pub open spec fn message_json_spec(m: Message) -> JsonV {
    let base = seq![("role"@, JsonV::Str(role_wire_spec(m.role))), ("content"@, JsonV::Str(m.content@))];
    let images = attachment_images(m.attachments@);
    if images.len() == 0 {
        JsonV::Object(base)
    } else {
        JsonV::Object(base.push(("images"@, JsonV::Array(images.map_values(|t: Seq<char>| JsonV::Str(t))))))
    }
}

/// A message as a JSON value of the model's chat API.
pub fn message_to_ollama_json(message: &Message) -> (r: Json)
    ensures
        jv(r) == message_json_spec(*message),
{
    let images = attachment_image_data(&message.attachments);
    let mut m: Vec<(String, Json)> = Vec::new();
    m.push((string_from("role"), Json::Str(string_from(role_to_wire(&message.role)))));
    m.push((string_from("content"), Json::Str(copy_string(&message.content))));
    if images.len() > 0 {
        let mut arr: Vec<Json> = Vec::new();
        let mut i: usize = 0;
        while i < images.len()
            invariant
                i <= images@.len(),
                arr@.len() == i,
                forall|k: int| 0 <= k < i ==> #[trigger] jv(arr@[k]) == JsonV::Str(images@[k]@),
            decreases images.len() - i,
        {
            arr.push(Json::Str(copy_string(&images[i])));
            i = i + 1;
        }
        proof { lemma_jv_list(arr@, 0); }
        assert(jv_list(arr@, 0) =~= strings_view(images@).map_values(|t: Seq<char>| JsonV::Str(t)));
        m.push((string_from("images"), Json::Array(arr)));
    }
    proof {
        lemma_jv_entries(m@, 0);
        reveal_strlit("role");
        reveal_strlit("content");
        reveal_strlit("images");
        let base = seq![("role"@, JsonV::Str(role_wire_spec(message.role))), ("content"@, JsonV::Str(message.content@))];
        let imgs = attachment_images(message.attachments@);
        if imgs.len() == 0 {
            assert(jv_entries(m@, 0) =~= base);
        } else {
            assert(jv_entries(m@, 0) =~= base.push(("images"@, JsonV::Array(imgs.map_values(|t: Seq<char>| JsonV::Str(t))))));
        }
    }
    Json::Object(m)
}

/// A copy of a value.
pub fn copy_json(j: &Json) -> (r: Json)
    ensures
        jv(r) == jv(*j),
    decreases j,
{
    match j {
        Json::Null => Json::Null,
        Json::Bool(b) => Json::Bool(*b),
        Json::Number(JsonNumber::PosInt(n)) => Json::Number(JsonNumber::PosInt(*n)),
        Json::Number(JsonNumber::NegInt(n)) => Json::Number(JsonNumber::NegInt(*n)),
        Json::Number(JsonNumber::Float(t)) => Json::Number(JsonNumber::Float(copy_string(t))),
        Json::Str(s) => Json::Str(copy_string(s)),
        Json::Array(a) => {
            let mut out: Vec<Json> = Vec::new();
            let mut i: usize = 0;
            while i < a.len()
                invariant
                    i <= a@.len(),
                    *j == Json::Array(*a),
                    out@.len() == i,
                    forall|k: int| 0 <= k < i ==> jv(#[trigger] out@[k]) == jv(a@[k]),
                decreases a.len() - i,
            {
                proof {
                    assert(decreases_to!(*j => (*j)->Array_0));
                    assert(decreases_to!((*j)->Array_0 => a@));
                    assert(decreases_to!(a@ => a@[i as int]));
                }
                out.push(copy_json(&a[i]));
                i = i + 1;
            }
            proof {
                lemma_jv_list(out@, 0);
                lemma_jv_list(a@, 0);
                assert(jv_list(out@, 0) =~= jv_list(a@, 0));
            }
            Json::Array(out)
        },
        Json::Object(m) => {
            let mut out: Vec<(String, Json)> = Vec::new();
            let mut i: usize = 0;
            while i < m.len()
                invariant
                    i <= m@.len(),
                    *j == Json::Object(*m),
                    out@.len() == i,
                    forall|k: int| 0 <= k < i ==> (#[trigger] out@[k]).0@ == m@[k].0@ && jv(out@[k].1) == jv(m@[k].1),
                decreases m.len() - i,
            {
                proof {
                    assert(decreases_to!(*j => (*j)->Object_0));
                    assert(decreases_to!((*j)->Object_0 => m@));
                    assert(decreases_to!(m@ => m@[i as int]));
                    assert(decreases_to!(m@[i as int] => m@[i as int].1));
                }
                out.push((copy_string(&m[i].0), copy_json(&m[i].1)));
                i = i + 1;
            }
            proof {
                lemma_jv_entries(out@, 0);
                lemma_jv_entries(m@, 0);
                assert(jv_entries(out@, 0) =~= jv_entries(m@, 0));
            }
            Json::Object(out)
        },
    }
}
/// Normalising the arguments of a web search or a page fetch a second time
/// changes nothing: what the first pass gives is already in the form the
/// tool takes.
pub proof fn lemma_normalize_payload_idempotent(name: Seq<char>, raw: JsonV)
    requires
        tool_name_spec(name) == "web_search"@ || tool_name_spec(name) == "web_fetch"@,
    ensures
        normalize_payload_spec(name, normalize_payload_spec(name, raw)) == normalize_payload_spec(name, raw),
{
    let n = tool_name_spec(name);
    let once = normalize_payload_spec(name, raw);
    crate::text::lemma_trim_idempotent(match payload_args(n, raw) {
        JsonV::Object(es) => match as_str_v(if n == "web_search"@ { first_present(es, "query"@, "text"@, "q"@) }
            else { first_present(es, "url"@, "href"@, "link"@) }) { Some(q) => q, None => Seq::empty() },
        JsonV::Str(s) => s,
        _ => Seq::empty(),
    });
    assert(payload_args(n, once) == once) by {
        assert(!(once is Str)) by {
            reveal_strlit("web_search");
            reveal_strlit("web_fetch");
        }
    }
    reveal_strlit("query");
    reveal_strlit("url");
    reveal_strlit("text");
    reveal_strlit("q");
    reveal_strlit("href");
    reveal_strlit("link");
    reveal_strlit("web_search");
    reveal_strlit("web_fetch");
    assert("web_search"@.len() != "web_fetch"@.len());
    if n == "web_search"@ {
        match payload_args(n, raw) {
            JsonV::Object(es) => {
                match as_str_v(first_present(es, "query"@, "text"@, "q"@)) {
                    Some(q) => {
                        let es2 = seq![("query"@, JsonV::Str(trim_spec(q)))];
                        assert(obj_get(es2, "query"@) == Some(JsonV::Str(trim_spec(q))));
                    },
                    None => {},
                }
            },
            JsonV::Str(s) => {
                let es2 = seq![("query"@, JsonV::Str(trim_spec(s)))];
                assert(obj_get(es2, "query"@) == Some(JsonV::Str(trim_spec(s))));
            },
            other => {
                let es2 = seq![("query"@, other)];
                assert(obj_get(es2, "query"@) == Some(other));
            },
        }
    } else {
        match payload_args(n, raw) {
            JsonV::Object(es) => {
                match as_str_v(first_present(es, "url"@, "href"@, "link"@)) {
                    Some(u) => {
                        let es2 = seq![("url"@, JsonV::Str(trim_spec(u)))];
                        assert(obj_get(es2, "url"@) == Some(JsonV::Str(trim_spec(u))));
                    },
                    None => {},
                }
            },
            JsonV::Str(s) => {
                let es2 = seq![("url"@, JsonV::Str(trim_spec(s)))];
                assert(obj_get(es2, "url"@) == Some(JsonV::Str(trim_spec(s))));
            },
            other => {
                let es2 = seq![("url"@, other)];
                assert(obj_get(es2, "url"@) == Some(other));
            },
        }
    }
}

} // verus!
