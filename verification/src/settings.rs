use vstd::prelude::*;
use crate::json::{Json, JsonNumber, JsonV, jv, jv_entries, lemma_jv_entries, parse_json, parsed_json};
use crate::text::{to_chars, trim, trim_spec, string_from, copy_string, str_eq, to_ascii_lowercase, ascii_lower};
use crate::math::{all_digits, digits_value, is_digit};
use crate::commands::{parse_u64_range, parse_u64_spec};
use crate::chat::opt_view;
use crate::client::{ClientState, starts_with_str};
use crate::commands::{CommandError, parse_set_args, set_args_spec, normalize_set_key, normalize_set_key_spec,
    parse_optional_string, optional_string_spec, parse_bool, bool_word_spec, parse_u64};
use crate::theme::{ThemeError, color_key_index, color_name_spec, parse_color_name, theme_color_key};
use crate::syn::build_syntect_theme;
use crate::text::{push_str, string_of_range};

verus! {

// ---------------------------------------------------------------------------
// Values of `:set`.

/// What `i64::from_str` gives for `t`: an optional sign and then at least
/// one decimal digit, with a value that fits.
pub open spec fn parse_i64_spec(t: Seq<char>) -> Option<int> {
    let neg = t.len() > 0 && t[0] == '-';
    let body = if t.len() > 0 && (t[0] == '-' || t[0] == '+') { t.drop_first() } else { t };
    if body.len() == 0 || !all_digits(body) {
        None
    } else if neg {
        if digits_value(body) <= 0x8000_0000_0000_0000 { Some(-(digits_value(body) as int)) } else { None }
    } else {
        if digits_value(body) <= i64::MAX { Some(digits_value(body) as int) } else { None }
    }
}

/// Parses `t` as `i64::from_str` does.
pub fn parse_i64(t: &str) -> (r: Option<i64>)
    ensures
        match r {
            Some(v) => parse_i64_spec(t@) == Some(v as int),
            None => parse_i64_spec(t@) is None,
        },
{
    let v = to_chars(t);
    let n = v.len();
    let neg = n > 0 && v[0] == '-';
    let start: usize = if n > 0 && (v[0] == '-' || v[0] == '+') { 1 } else { 0 };
    let ghost body = if t@.len() > 0 && (t@[0] == '-' || t@[0] == '+') { t@.drop_first() } else { t@ };
    proof {
        assert(v@.subrange(start as int, n as int) =~= body);
    }
    if start < n && v[start] == '+' {
        proof {
            assert(!is_digit(body[0]));
        }
        return None;
    }
    match parse_u64_range(&v, start, n) {
        None => None,
        Some(u) => {
            proof {
                assert(!(body.len() > 0 && body[0] == '+'));
                assert(parse_u64_spec(body) == Some(u as nat));
            }
            if neg {
                if u <= 0x8000_0000_0000_0000u64 {
                    if u == 0x8000_0000_0000_0000u64 {
                        Some(i64::MIN)
                    } else {
                        let x: i64 = u as i64;
                        Some(-x)
                    }
                } else {
                    None
                }
            } else if u <= 0x7fff_ffff_ffff_ffffu64 {
                Some(u as i64)
            } else {
                None
            }
        },
    }
}

/// The floating-point number that `t` denotes, as `serde_json` prints it,
/// when `t` parses as one and the value is finite.
pub uninterp spec fn float_number_text(t: Seq<char>) -> Option<Seq<char>>;

/// `str::parse` to a floating-point number followed by
/// `serde_json::Number::from_f64`, printed; the text is named
/// `float_number_text`. The value passes from one call to the next as a
/// floating-point number, which the library does not hold, so the three
/// calls stand behind one name.
#[verifier::external_body]
fn parse_float_number(t: &str) -> (r: Option<String>)
    ensures
        opt_view(r) == float_number_text(t@),
{
    t.parse().ok().and_then(serde_json::Number::from_f64).map(|n| n.to_string())
}

/// The value of an option of the model as `:set` reads it: JSON where the
/// trimmed text is JSON; the words for true, false and null; an integer; a
/// finite floating-point number; else the text itself.
pub open spec fn jsonish_spec(value: Seq<char>) -> JsonV {
    let t = trim_spec(value);
    let w = t.map_values(|c: char| ascii_lower(c));
    match parsed_json(t) {
        Some(j) => j,
        None => if w == "true"@ || w == "on"@ || w == "yes"@ {
            JsonV::Bool(true)
        } else if w == "false"@ || w == "off"@ || w == "no"@ {
            JsonV::Bool(false)
        } else if w == "null"@ || w == "none"@ {
            JsonV::Null
        } else {
            match parse_i64_spec(t) {
                Some(i) => if i >= 0 { JsonV::PosInt(i as u64) } else { JsonV::NegInt(i as i64) },
                None => match float_number_text(t) {
                    Some(f) => JsonV::Float(f),
                    None => JsonV::Str(t),
                },
            }
        },
    }
}

/// The value of an option of the model as `:set` reads it.
pub fn parse_jsonish_value(value: &str) -> (r: Json)
    ensures
        jv(r) == jsonish_spec(value@),
{
    let t = trim(value);
    if let Some(j) = parse_json(t.as_str()) {
        return j;
    }
    let w = to_ascii_lowercase(t.as_str());
    let ws = w.as_str();
    if str_eq(ws, "true") || str_eq(ws, "on") || str_eq(ws, "yes") {
        Json::Bool(true)
    } else if str_eq(ws, "false") || str_eq(ws, "off") || str_eq(ws, "no") {
        Json::Bool(false)
    } else if str_eq(ws, "null") || str_eq(ws, "none") {
        Json::Null
    } else {
        match parse_i64(t.as_str()) {
            Some(i) => if i >= 0 {
                Json::Number(JsonNumber::PosInt(i as u64))
            } else {
                Json::Number(JsonNumber::NegInt(i))
            },
            None => match parse_float_number(t.as_str()) {
                Some(f) => Json::Number(JsonNumber::Float(f)),
                None => Json::Str(t),
            },
        }
    }
}

// ---------------------------------------------------------------------------
// The options object.

/// `i` is where the first member named `k` stands.
pub open spec fn first_key_at(es: Seq<(Seq<char>, JsonV)>, k: Seq<char>, i: int) -> bool {
    0 <= i < es.len() && es[i].0 == k && forall|j: int| 0 <= j < i ==> es[j].0 != k
}

/// The members with `k` set to `v`: the first member named `k` takes the
/// value, or a new member comes last.
pub open spec fn obj_set(es: Seq<(Seq<char>, JsonV)>, k: Seq<char>, v: JsonV) -> Seq<(Seq<char>, JsonV)> {
    if exists|i: int| first_key_at(es, k, i) {
        es.update(choose|i: int| first_key_at(es, k, i), (k, v))
    } else {
        es.push((k, v))
    }
}

/// The members of `es[..n]` not named `k`.
pub open spec fn obj_without(es: Seq<(Seq<char>, JsonV)>, k: Seq<char>, n: int) -> Seq<(Seq<char>, JsonV)>
    decreases n,
{
    if n <= 0 || n > es.len() {
        Seq::empty()
    } else if es[n - 1].0 == k {
        obj_without(es, k, n - 1)
    } else {
        obj_without(es, k, n - 1).push(es[n - 1])
    }
}

/// The options after option `k` is set to `v`: options that are not an
/// object start over as an empty one; `null` removes the option.
pub open spec fn options_after(o: Option<JsonV>, k: Seq<char>, v: JsonV) -> JsonV {
    let es = match o {
        Some(JsonV::Object(es)) => es,
        _ => Seq::empty(),
    };
    if v is Null {
        JsonV::Object(obj_without(es, k, es.len() as int))
    } else {
        JsonV::Object(obj_set(es, k, v))
    }
}

/// Sets option `key` of the model to `value`; `null` removes it.
pub fn set_option_value(options: &mut Option<Json>, key: &str, value: Json)
    ensures
        *final(options) matches Some(o) && jv(o) == options_after(crate::agent::opts_v(*old(options)), key@, jv(value)),
{
    let ghost ov = match *old(options) { Some(x) => Some(jv(x)), None => None };
    let mut m: Vec<(String, Json)> = match options.take() {
        Some(Json::Object(m)) => m,
        _ => Vec::new(),
    };
    let ghost es = jv_entries(m@, 0);
    proof {
        lemma_jv_entries(m@, 0);
        assert(es == match ov { Some(JsonV::Object(es)) => es, _ => Seq::<(Seq<char>, JsonV)>::empty() }) by {
            if !(ov matches Some(JsonV::Object(_))) {
                assert(jv_entries(m@, 0) =~= Seq::<(Seq<char>, JsonV)>::empty());
            }
        }
    }
    let is_null = match value { Json::Null => true, _ => false };
    if is_null {
        let mut out: Vec<(String, Json)> = Vec::new();
        let mut i: usize = 0;
        while i < m.len()
            invariant
                i <= m@.len(),
                es == jv_entries(m@, 0),
                es.len() == m@.len(),
                forall|x: int| 0 <= x < m@.len() ==> #[trigger] es[x] == (m@[x].0@, jv(m@[x].1)),
                jv_entries(out@, 0) == obj_without(es, key@, i as int),
            decreases m.len() - i,
        {
            let same = str_eq(m[i].0.as_str(), key);
            if !same {
                let ghost before = out@;
                out.push((copy_string(&m[i].0), crate::json::copy_json(&m[i].1)));
                proof {
                    lemma_jv_entries(out@, 0);
                    lemma_jv_entries(before, 0);
                    assert(jv_entries(out@, 0) =~= jv_entries(before, 0).push(es[i as int]));
                }
            }
            i = i + 1;
        }
        *options = Some(Json::Object(out));
    } else {
        let mut i: usize = 0;
        while i < m.len()
            invariant
                i <= m@.len(),
                es == jv_entries(m@, 0),
                es.len() == m@.len(),
                forall|x: int| 0 <= x < m@.len() ==> #[trigger] es[x] == (m@[x].0@, jv(m@[x].1)),
                forall|j: int| 0 <= j < i ==> es[j].0 != key@,
            ensures
                i <= m@.len(),
                forall|j: int| 0 <= j < i ==> es[j].0 != key@,
                i < m@.len() ==> es[i as int].0 == key@,
            decreases m.len() - i,
        {
            if str_eq(m[i].0.as_str(), key) {
                break;
            }
            i = i + 1;
        }
        let ghost m0 = m@;
        if i < m.len() {
            proof {
                assert(first_key_at(es, key@, i as int));
                assert forall|j: int| first_key_at(es, key@, j) implies j == i by {
                    if j < i { } else if j > i { assert(es[i as int].0 == key@); }
                }
            }
            m.set(i, (string_from(key), value));
            proof {
                lemma_jv_entries(m@, 0);
                assert(jv_entries(m@, 0) =~= obj_set(es, key@, jv(value)));
            }
        } else {
            proof {
                assert(!exists|j: int| first_key_at(es, key@, j));
            }
            m.push((string_from(key), value));
            proof {
                lemma_jv_entries(m@, 0);
                assert(jv_entries(m@, 0) =~= obj_set(es, key@, jv(value)));
            }
        }
        *options = Some(Json::Object(m));
    }
}

// ---------------------------------------------------------------------------
// `:set`.

/// Why `:set` failed.
#[derive(Debug)]
pub enum SetError {
    /// The arguments, a boolean or an integer did not read.
    Command(CommandError),
    /// A colour of the theme could not be set.
    Theme(ThemeError),
    /// A colour of the custom highlighting theme did not parse.
    SyntaxColor { key: String, value: String },
}

impl SetError {
    /// The message the client shows.
    pub fn message(&self) -> (r: String)
        ensures
            self matches SetError::Command(e) ==> r@ == crate::commands::command_error_text(*e),
            self matches SetError::SyntaxColor { key, value } ==> r@ == "invalid color '"@ + value@ + "' for syntax.custom."@ + key@,
    {
        match self {
            SetError::Command(e) => e.message(),
            SetError::Theme(e) => e.message(),
            SetError::SyntaxColor { key, value } => {
                let mut s = string_from("invalid color '");
                push_str(&mut s, value.as_str());
                push_str(&mut s, "' for syntax.custom.");
                push_str(&mut s, key.as_str());
                s
            },
        }
    }
}

/// The key names a colour of the theme: `colors.<name>`, or a colour's own
/// name.
pub open spec fn color_target(key: Seq<char>) -> Option<Seq<char>> {
    if key.len() >= 7 && key.take(7) == "colors."@ {
        Some(key.skip(7))
    } else if color_key_index(key) is Some {
        Some(key)
    } else {
        None
    }
}

/// The key names a colour of the custom highlighting theme.
pub open spec fn custom_target(key: Seq<char>) -> Option<Seq<char>> {
    if key.len() >= 14 && key.take(14) == "syntax.custom."@ { Some(key.skip(14)) } else { None }
}

/// The option of the model that a key names.
pub open spec fn option_target(key: Seq<char>) -> Seq<char> {
    if key.len() >= 8 && key.take(8) == "options."@ { key.skip(8) } else { key }
}

/// A setting as the environment, else the config file, else the default
/// gives it.
pub open spec fn setting_choice(env: Option<Seq<char>>, cfg: Option<Seq<char>>, default: Seq<char>) -> Seq<char> {
    match env {
        Some(e) => e,
        None => match cfg {
            Some(c) => c,
            None => default,
        },
    }
}

/// The value of a setting: the environment's over the config file's over
/// the default.
pub fn pick_setting(env: Option<String>, cfg: Option<String>, default: &str) -> (r: String)
    ensures
        r@ == setting_choice(opt_view(env), opt_view(cfg), default@),
{
    match env {
        Some(e) => e,
        None => match cfg {
            Some(c) => c,
            None => string_from(default),
        },
    }
}

/// Which of the client's own settings a key names, by number in the order
/// model, api_url, ollama_api_key, server_addr, system_prompt,
/// bold_selection, render_emojis, the syntax theme's name, syntax.enabled,
/// performance.stream_fps, performance.input_poll_ms, preview.preview_fmt,
/// preview.preview_open; 13 for any other key.
pub open spec fn setting_kind(key: Seq<char>) -> int {
    if key == "model"@ { 0 }
    else if key == "api_url"@ { 1 }
    else if key == "ollama_api_key"@ { 2 }
    else if key == "server_addr"@ { 3 }
    else if key == "system_prompt"@ { 4 }
    else if key == "bold_selection"@ { 5 }
    else if key == "render_emojis"@ { 6 }
    else if key == "syntax_theme"@ || key == "syntax.theme_name"@ { 7 }
    else if key == "syntax.enabled"@ { 8 }
    else if key == "performance.stream_fps"@ { 9 }
    else if key == "performance.input_poll_ms"@ { 10 }
    else if key == "preview.preview_fmt"@ { 11 }
    else if key == "preview.preview_open"@ { 12 }
    else { 13 }
}

/// Which of the client's own settings a key names.
pub fn setting_kind_of(key: &str) -> (r: u8)
    ensures
        r as int == setting_kind(key@),
{
    if str_eq(key, "model") { 0 }
    else if str_eq(key, "api_url") { 1 }
    else if str_eq(key, "ollama_api_key") { 2 }
    else if str_eq(key, "server_addr") { 3 }
    else if str_eq(key, "system_prompt") { 4 }
    else if str_eq(key, "bold_selection") { 5 }
    else if str_eq(key, "render_emojis") { 6 }
    else if str_eq(key, "syntax_theme") || str_eq(key, "syntax.theme_name") { 7 }
    else if str_eq(key, "syntax.enabled") { 8 }
    else if str_eq(key, "performance.stream_fps") { 9 }
    else if str_eq(key, "performance.input_poll_ms") { 10 }
    else if str_eq(key, "preview.preview_fmt") { 11 }
    else if str_eq(key, "preview.preview_open") { 12 }
    else { 13 }
}

/// `i` is where the first pair named `k` stands.
pub open spec fn first_pair_at(ps: Seq<(Seq<char>, Seq<char>)>, k: Seq<char>, i: int) -> bool {
    0 <= i < ps.len() && ps[i].0 == k && forall|j: int| 0 <= j < i ==> ps[j].0 != k
}

/// The pairs with `k` set to `v`.
pub open spec fn pair_set(ps: Seq<(Seq<char>, Seq<char>)>, k: Seq<char>, v: Seq<char>) -> Seq<(Seq<char>, Seq<char>)> {
    if exists|i: int| first_pair_at(ps, k, i) {
        ps.update(choose|i: int| first_pair_at(ps, k, i), (k, v))
    } else {
        ps.push((k, v))
    }
}

/// The pairs of a table that may be missing.
pub open spec fn custom_pairs(o: Option<Vec<(String, String)>>) -> Seq<(Seq<char>, Seq<char>)> {
    match o {
        Some(t) => pairs_v(t@),
        None => Seq::empty(),
    }
}

/// Key and value pairs as plain values.
pub open spec fn pairs_v(ps: Seq<(String, String)>) -> Seq<(Seq<char>, Seq<char>)> {
    ps.map_values(|p: (String, String)| (p.0@, p.1@))
}

/// Sets `k` to `v` among the pairs.
fn set_pair(ps: &mut Vec<(String, String)>, k: &str, v: &str)
    ensures
        pairs_v(final(ps)@) == pair_set(pairs_v(old(ps)@), k@, v@),
{
    let ghost pv = pairs_v(ps@);
    let mut i: usize = 0;
    while i < ps.len()
        invariant
            i <= ps@.len(),
            ps@ == old(ps)@,
            pv == pairs_v(ps@),
            forall|j: int| 0 <= j < i ==> pv[j].0 != k@,
        ensures
            i <= ps@.len(),
            ps@ == old(ps)@,
            forall|j: int| 0 <= j < i ==> pv[j].0 != k@,
            i < ps@.len() ==> pv[i as int].0 == k@,
        decreases ps.len() - i,
    {
        if str_eq(ps[i].0.as_str(), k) {
            break;
        }
        i = i + 1;
    }
    if i < ps.len() {
        proof {
            assert(first_pair_at(pv, k@, i as int));
            assert forall|j: int| first_pair_at(pv, k@, j) implies j == i by {
                if j > i { assert(pv[i as int].0 == k@); }
            }
        }
        ps.set(i, (string_from(k), string_from(v)));
        assert(pairs_v(ps@) =~= pair_set(pv, k@, v@));
    } else {
        proof {
            assert(!exists|j: int| first_pair_at(pv, k@, j));
        }
        ps.push((string_from(k), string_from(v)));
        assert(pairs_v(ps@) =~= pair_set(pv, k@, v@));
    }
}

/// Everything but the client's settings.
pub open spec fn same_session(a: ClientState, b: ClientState) -> bool {
    &&& a.current_chat_id == b.current_chat_id
    &&& a.current_created_ts == b.current_created_ts
    &&& a.messages == b.messages
    &&& a.pending_assistant == b.pending_assistant
    &&& a.pending_thinking == b.pending_thinking
    &&& a.pending_sources == b.pending_sources
    &&& a.status_message == b.status_message
    &&& a.pending_request_id == b.pending_request_id
    &&& a.sending == b.sending
    &&& a.active_streams == b.active_streams
    &&& a.chats == b.chats
    &&& a.sidebar_idx == b.sidebar_idx
    &&& a.sidebar_search_query == b.sidebar_search_query
    &&& a.selected_msg == b.selected_msg
    &&& a.focus == b.focus
    &&& a.mode == b.mode
    &&& a.visual_selection == b.visual_selection
    &&& a.chat_scroll == b.chat_scroll
    &&& a.chat_inner_height == b.chat_inner_height
    &&& a.chat_inner_width == b.chat_inner_width
    &&& a.pending_attachments == b.pending_attachments
    &&& a.input == b.input
    &&& a.input_cursor_line == b.input_cursor_line
    &&& a.input_cursor_col == b.input_cursor_col
    &&& a.command_input == b.command_input
    &&& a.command_cursor_col == b.command_cursor_col
    &&& a.web_search == b.web_search
    &&& a.show_thinking == b.show_thinking
    &&& a.show_sidebar == b.show_sidebar
    &&& a.show_stats_panel == b.show_stats_panel
    &&& a.quit == b.quit
    &&& a.popup == b.popup
}

/// The renderings are dropped, to be made again.
pub open spec fn caches_cleared(s: ClientState) -> bool {
    s.render_cache@.len() == 0 && s.pending_cache is None
}

impl ClientState {
    fn clear_render_caches(&mut self)
        ensures
            caches_cleared(*final(self)),
            same_session(*old(self), *final(self)),
            final(self).model == old(self).model,
            final(self).api_url == old(self).api_url,
            final(self).ollama_api_key == old(self).ollama_api_key,
            final(self).server_addr == old(self).server_addr,
            final(self).system_prompt == old(self).system_prompt,
            final(self).bold_selection == old(self).bold_selection,
            final(self).render_emojis == old(self).render_emojis,
            final(self).syntax_theme_name == old(self).syntax_theme_name,
            final(self).syntax_enabled == old(self).syntax_enabled,
            final(self).stream_throttle_ms == old(self).stream_throttle_ms,
            final(self).input_poll_ms == old(self).input_poll_ms,
            final(self).preview_fmt == old(self).preview_fmt,
            final(self).preview_open == old(self).preview_open,
            final(self).theme == old(self).theme,
            final(self).syntax_custom == old(self).syntax_custom,
            final(self).options == old(self).options,
    {
        self.render_cache = Vec::new();
        self.pending_cache = None;
    }

    /// Sets a text setting: model (0), api_url (1), server_addr (3),
    /// preview.preview_fmt (11) or preview.preview_open (12).
    fn set_text_setting(&mut self, kind: u8, v: &str)
        requires
            kind == 0 || kind == 1 || kind == 3 || kind == 11 || kind == 12,
        ensures
            same_session(*old(self), *final(self)),
            final(self).theme == old(self).theme,
            final(self).syntax_custom == old(self).syntax_custom,
            final(self).options == old(self).options,
            own_setting_effect(*old(self), *final(self), kind as int, v@, true),
    {
        if kind == 0 {
            self.model = string_from(v);
        } else if kind == 1 {
            self.api_url = string_from(v);
        } else if kind == 3 {
            self.server_addr = string_from(v);
        } else if kind == 11 {
            self.preview_fmt = string_from(v);
        } else {
            self.preview_open = string_from(v);
        }
    }

    /// Sets a setting that may be switched off: ollama_api_key (2) or
    /// system_prompt (4).
    fn set_optional_setting(&mut self, kind: u8, v: &str)
        requires
            kind == 2 || kind == 4,
        ensures
            same_session(*old(self), *final(self)),
            final(self).theme == old(self).theme,
            final(self).syntax_custom == old(self).syntax_custom,
            final(self).options == old(self).options,
            own_setting_effect(*old(self), *final(self), kind as int, v@, true),
    {
        if kind == 2 {
            self.ollama_api_key = parse_optional_string(v);
        } else {
            self.system_prompt = parse_optional_string(v);
        }
    }

    /// Sets a switch: bold_selection (5), render_emojis (6) or
    /// syntax.enabled (8).
    fn set_bool_setting(&mut self, kind: u8, v: &str) -> (r: Result<(), SetError>)
        requires
            kind == 5 || kind == 6 || kind == 8,
        ensures
            same_session(*old(self), *final(self)),
            final(self).theme == old(self).theme,
            final(self).syntax_custom == old(self).syntax_custom,
            final(self).options == old(self).options,
            r is Err ==> *final(self) == *old(self),
            own_setting_effect(*old(self), *final(self), kind as int, v@, r is Ok),
    {
        let b = match parse_bool(v) {
            Ok(b) => b,
            Err(e) => { return Err(SetError::Command(e)); },
        };
        if kind == 5 {
            self.bold_selection = b;
        } else if kind == 6 {
            self.render_emojis = b;
            self.clear_render_caches();
        } else {
            self.syntax_enabled = b;
            self.clear_render_caches();
        }
        Ok(())
    }

    /// Sets a number: performance.stream_fps (9) or
    /// performance.input_poll_ms (10), each at least 1.
    fn set_number_setting(&mut self, kind: u8, v: &str) -> (r: Result<(), SetError>)
        requires
            kind == 9 || kind == 10,
        ensures
            same_session(*old(self), *final(self)),
            final(self).theme == old(self).theme,
            final(self).syntax_custom == old(self).syntax_custom,
            final(self).options == old(self).options,
            r is Err ==> *final(self) == *old(self),
            own_setting_effect(*old(self), *final(self), kind as int, v@, r is Ok),
    {
        let n = match parse_u64(v) {
            Ok(n) => n,
            Err(e) => { return Err(SetError::Command(e)); },
        };
        let m: u64 = if n == 0 { 1 } else { n };
        if kind == 9 {
            self.stream_throttle_ms = 1000 / m;
        } else {
            self.input_poll_ms = m;
        }
        Ok(())
    }

    /// Sets the name of the highlighting theme (7) and builds the theme again.
    fn set_theme_name(&mut self, v: &str)
        ensures
            same_session(*old(self), *final(self)),
            final(self).theme == old(self).theme,
            final(self).syntax_custom == old(self).syntax_custom,
            final(self).options == old(self).options,
            own_setting_effect(*old(self), *final(self), 7, v@, true),
    {
        self.syntax_theme_name = string_from(v);
        let (t, _) = build_syntect_theme(self.syntax_theme_name.as_str(), self.syntax_custom.as_ref());
        self.syn_theme = t;
        self.clear_render_caches();
    }

    /// Sets one of the client's own settings (kind below 13, see
    /// `setting_kind`) to `v`.
    fn set_own_setting(&mut self, kind: u8, v: &str) -> (r: Result<(), SetError>)
        requires
            kind < 13,
        ensures
            same_session(*old(self), *final(self)),
            final(self).theme == old(self).theme,
            final(self).syntax_custom == old(self).syntax_custom,
            final(self).options == old(self).options,
            r is Err ==> *final(self) == *old(self),
            own_setting_effect(*old(self), *final(self), kind as int, v@, r is Ok),
    {
        if kind == 0 || kind == 1 || kind == 3 || kind == 11 || kind == 12 {
            self.set_text_setting(kind, v);
            Ok(())
        } else if kind == 2 || kind == 4 {
            self.set_optional_setting(kind, v);
            Ok(())
        } else if kind == 5 || kind == 6 || kind == 8 {
            self.set_bool_setting(kind, v)
        } else if kind == 9 || kind == 10 {
            self.set_number_setting(kind, v)
        } else {
            self.set_theme_name(v);
            Ok(())
        }
    }

    /// Sets colour `ck` of the theme.
    fn set_theme_color(&mut self, ck: &str, v: &str) -> (r: Result<(), SetError>)
        ensures
            same_session(*old(self), *final(self)),
            r is Err ==> *final(self) == *old(self),
            own_settings_kept(*old(self), *final(self)),
            final(self).syntax_custom == old(self).syntax_custom,
            final(self).options == old(self).options,
            match color_name_spec(v@) {
                None => r matches Err(SetError::Theme(ThemeError::InvalidColor { key: k2, value: v2 })) && k2@ == ck@ && v2@ == v@,
                Some(c) => match color_key_index(ck@) {
                    None => r matches Err(SetError::Theme(ThemeError::UnknownOption { key: k2 })) && k2@ == ck@,
                    Some(i) => r is Ok && crate::theme::theme_color(final(self).theme, i) == c
                        && (forall|j: int| 0 <= j < crate::theme::THEME_COLOR_COUNT && j != i
                            ==> crate::theme::theme_color(final(self).theme, j) == crate::theme::theme_color(old(self).theme, j))
                        && caches_cleared(*final(self)),
                },
            },
    {
        match self.theme.set_color(ck, v) {
            Ok(()) => {
                self.clear_render_caches();
                Ok(())
            },
            Err(e) => Err(SetError::Theme(e)),
        }
    }

    /// Sets colour `ck` of the custom highlighting theme and builds the
    /// theme again.
    fn set_custom_color(&mut self, ck: String, v: &str) -> (r: Result<(), SetError>)
        ensures
            same_session(*old(self), *final(self)),
            r is Err ==> *final(self) == *old(self),
            own_settings_kept(*old(self), *final(self)),
            final(self).theme == old(self).theme,
            final(self).options == old(self).options,
            match color_name_spec(v@) {
                None => r matches Err(SetError::SyntaxColor { key: k2, value: v2 }) && k2@ == ck@ && v2@ == v@,
                Some(_) => r is Ok && caches_cleared(*final(self))
                    && (final(self).syntax_custom matches Some(t) && pairs_v(t@) == pair_set(custom_pairs(old(self).syntax_custom), ck@, v@)),
            },
    {
        match parse_color_name(v) {
            None => Err(SetError::SyntaxColor { key: ck, value: string_from(v) }),
            Some(_) => {
                let mut custom: Vec<(String, String)> = match self.syntax_custom.take() {
                    Some(t) => t,
                    None => Vec::new(),
                };
                proof {
                    assert(pairs_v(custom@) == custom_pairs(old(self).syntax_custom)) by {
                        if old(self).syntax_custom is None {
                            assert(pairs_v(custom@) =~= Seq::<(Seq<char>, Seq<char>)>::empty());
                        }
                    }
                }
                set_pair(&mut custom, ck.as_str(), v);
                self.syntax_custom = Some(custom);
                let (t, _) = build_syntect_theme(self.syntax_theme_name.as_str(), self.syntax_custom.as_ref());
                self.syn_theme = t;
                self.clear_render_caches();
                Ok(())
            },
        }
    }

    /// Sets option `ok` of the model to the value read from `v`.
    fn set_model_option(&mut self, ok: &str, v: &str)
        ensures
            same_session(*old(self), *final(self)),
            own_settings_kept(*old(self), *final(self)),
            final(self).theme == old(self).theme,
            final(self).syntax_custom == old(self).syntax_custom,
            (final(self).options matches Some(o) && jv(o) == options_after(
                crate::agent::opts_v(old(self).options), ok@, jsonish_spec(v@))),
    {
        let value = parse_jsonish_value(v);
        set_option_value(&mut self.options, ok, value);
    }

    /// Sets a colour of the theme or of the custom highlighting theme, or
    /// an option of the model, by the key of `:set`.
    fn set_other(&mut self, key: &str, v: &str) -> (r: Result<(), SetError>)
        ensures
            same_session(*old(self), *final(self)),
            r is Err ==> *final(self) == *old(self),
            own_settings_kept(*old(self), *final(self)),
            other_setting_effect(*old(self), *final(self), key@, v@, r),
    {
        proof {
            reveal_strlit("colors.");
            reveal_strlit("syntax.custom.");
            reveal_strlit("options.");
        }
        let kv = to_chars(key);
        let color_key: Option<String> = if starts_with_str(&kv, "colors.") {
            assert(kv@.subrange(7, kv@.len() as int) =~= key@.skip(7));
            Some(string_of_range(&kv, 7, kv.len()))
        } else {
            match theme_color_key(key) {
                Some(c) => Some(string_from(c)),
                None => None,
            }
        };
        assert(opt_view(color_key) == color_target(key@));
        match color_key {
            Some(ck) => self.set_theme_color(ck.as_str(), v),
            None => {
                if starts_with_str(&kv, "syntax.custom.") {
                    assert(kv@.subrange(14, kv@.len() as int) =~= key@.skip(14));
                    let custom_key = string_of_range(&kv, 14, kv.len());
                    self.set_custom_color(custom_key, v)
                } else {
                    let option_key = if starts_with_str(&kv, "options.") {
                        assert(kv@.subrange(8, kv@.len() as int) =~= key@.skip(8));
                        string_of_range(&kv, 8, kv.len())
                    } else {
                        string_from(key)
                    };
                    assert(option_key@ == option_target(key@));
                    self.set_model_option(option_key.as_str(), v);
                    Ok(())
                }
            },
        }
    }

    /// `:set <option> <value>` (or `<option>=<value>`): sets one of the
    /// client's own settings, a colour of the theme or of the custom
    /// highlighting theme, or an option of the model, and answers
    /// "Set <option> = <value>". Settings that change how messages look drop
    /// the renderings. Nothing changes when the value does not read.
    pub fn execute_set_command(&mut self, args: &str) -> (r: Result<String, SetError>)
        ensures
            set_state_effect(*old(self), *final(self), args@, unit_result(r)),
            same_session(*old(self), *final(self)),
            r is Err ==> *final(self) == *old(self),
            set_args_spec(args@) is None ==> (r matches Err(SetError::Command(e)) && e is Usage),
            set_args_spec(args@) matches Some((k, v)) ==> {
                let key = normalize_set_key_spec(k);
                &&& (r matches Ok(m) ==> m@ == "Set "@ + key + " = "@ + v)
                &&& setting_kind(key) < 13 ==> {
                    &&& own_setting_effect(*old(self), *final(self), setting_kind(key), v, r is Ok)
                    &&& final(self).theme == old(self).theme
                    &&& final(self).syntax_custom == old(self).syntax_custom
                    &&& final(self).options == old(self).options
                }
                &&& setting_kind(key) == 13 ==> {
                    &&& own_settings_kept(*old(self), *final(self))
                    &&& other_setting_effect(*old(self), *final(self), key, v,
                        match r { Ok(_) => Ok(()), Err(e) => Err(e) })
                }
            },
    {
        let (k, v) = match parse_set_args(args) {
            Ok(kv) => kv,
            Err(e) => { return Err(SetError::Command(e)); },
        };
        let key = normalize_set_key(k.as_str());
        let mut msg = string_from("Set ");
        push_str(&mut msg, key.as_str());
        push_str(&mut msg, " = ");
        push_str(&mut msg, v.as_str());
        let kind = setting_kind_of(key.as_str());
        if kind < 13 {
            match self.set_own_setting(kind, v.as_str()) {
                Ok(()) => Ok(msg),
                Err(e) => Err(e),
            }
        } else {
            match self.set_other(key.as_str(), v.as_str()) {
                Ok(()) => Ok(msg),
                Err(e) => Err(e),
            }
        }
    }
}

/// A result of `:set` without its answer text.
pub open spec fn unit_result(r: Result<String, SetError>) -> Result<(), SetError> {
    match r {
        Ok(_) => Ok(()),
        Err(e) => Err(e),
    }
}

/// What `:set args` does to the client (`a` before, `b` after), its answer
/// text left aside: bad arguments are refused; one of the client's own
/// settings takes the value; any other key sets a colour or an option of the
/// model.
pub open spec fn set_state_effect(a: ClientState, b: ClientState, args: Seq<char>, r: Result<(), SetError>) -> bool {
    match set_args_spec(args) {
        None => r matches Err(SetError::Command(e)) && e is Usage,
        Some((k, v)) => {
            let key = normalize_set_key_spec(k);
            if setting_kind(key) < 13 {
                &&& own_setting_effect(a, b, setting_kind(key), v, r is Ok)
                &&& b.theme == a.theme
                &&& b.syntax_custom == a.syntax_custom
                &&& b.options == a.options
            } else {
                &&& own_settings_kept(a, b)
                &&& other_setting_effect(a, b, key, v, r)
            }
        },
    }
}

/// `:set <key> <value>` and `:set options.<key> <value>` do the same to the
/// client when `<key>` names none of its settings, no colour and no colour
/// of the custom highlighting theme.
pub proof fn lemma_set_spellings_agree(a: ClientState, b: ClientState, args1: Seq<char>, args2: Seq<char>,
    k1: Seq<char>, k2: Seq<char>, v: Seq<char>, r: Result<(), SetError>)
    requires
        set_args_spec(args1) == Some((k1, v)),
        set_args_spec(args2) == Some((k2, v)),
        normalize_set_key_spec(k2) == "options."@ + normalize_set_key_spec(k1),
        setting_kind(normalize_set_key_spec(k1)) == 13,
        color_target(normalize_set_key_spec(k1)) is None,
        custom_target(normalize_set_key_spec(k1)) is None,
        !(normalize_set_key_spec(k1).len() >= 8 && normalize_set_key_spec(k1).take(8) == "options."@),
    ensures
        set_state_effect(a, b, args1, r) == set_state_effect(a, b, args2, r),
{
    lemma_bare_key_is_model_option(a, b, normalize_set_key_spec(k1), v, r);
}

/// What setting one of the client's own settings does: the setting takes
/// the value read from `v` (with `ok` saying whether it read), settings that
/// change how messages look drop the renderings, and the other own settings
/// keep theirs.
pub open spec fn own_setting_effect(a: ClientState, b: ClientState, kind: int, v: Seq<char>, ok: bool) -> bool {
    &&& (kind == 0 ==> ok && b.model@ == v)
    &&& (kind == 1 ==> ok && b.api_url@ == v)
    &&& (kind == 2 ==> ok && opt_view(b.ollama_api_key) == optional_string_spec(v))
    &&& (kind == 3 ==> ok && b.server_addr@ == v)
    &&& (kind == 4 ==> ok && opt_view(b.system_prompt) == optional_string_spec(v))
    &&& (kind == 5 ==> match bool_word_spec(v) {
        Some(x) => ok && b.bold_selection == x,
        None => !ok,
    })
    &&& (kind == 6 ==> match bool_word_spec(v) {
        Some(x) => ok && b.render_emojis == x && caches_cleared(b),
        None => !ok,
    })
    &&& (kind == 7 ==> ok && b.syntax_theme_name@ == v && caches_cleared(b))
    &&& (kind == 8 ==> match bool_word_spec(v) {
        Some(x) => ok && b.syntax_enabled == x && caches_cleared(b),
        None => !ok,
    })
    &&& (kind == 9 ==> match parse_u64_spec(trim_spec(v)) {
        Some(n) => ok && b.stream_throttle_ms == 1000nat / (if n == 0 { 1nat } else { n }),
        None => !ok,
    })
    &&& (kind == 10 ==> match parse_u64_spec(trim_spec(v)) {
        Some(n) => ok && b.input_poll_ms == (if n == 0 { 1nat } else { n }),
        None => !ok,
    })
    &&& (kind == 11 ==> ok && b.preview_fmt@ == v)
    &&& (kind == 12 ==> ok && b.preview_open@ == v)
    &&& (kind != 0 ==> b.model == a.model)
    &&& (kind != 1 ==> b.api_url == a.api_url)
    &&& (kind != 2 ==> b.ollama_api_key == a.ollama_api_key)
    &&& (kind != 3 ==> b.server_addr == a.server_addr)
    &&& (kind != 4 ==> b.system_prompt == a.system_prompt)
    &&& (kind != 5 ==> b.bold_selection == a.bold_selection)
    &&& (kind != 6 ==> b.render_emojis == a.render_emojis)
    &&& (kind != 7 ==> b.syntax_theme_name == a.syntax_theme_name)
    &&& (kind != 8 ==> b.syntax_enabled == a.syntax_enabled)
    &&& (kind != 9 ==> b.stream_throttle_ms == a.stream_throttle_ms)
    &&& (kind != 10 ==> b.input_poll_ms == a.input_poll_ms)
    &&& (kind != 11 ==> b.preview_fmt == a.preview_fmt)
    &&& (kind != 12 ==> b.preview_open == a.preview_open)
}

/// The client's own settings are as they were.
pub open spec fn own_settings_kept(a: ClientState, b: ClientState) -> bool {
    &&& b.model == a.model
    &&& b.api_url == a.api_url
    &&& b.ollama_api_key == a.ollama_api_key
    &&& b.server_addr == a.server_addr
    &&& b.system_prompt == a.system_prompt
    &&& b.bold_selection == a.bold_selection
    &&& b.render_emojis == a.render_emojis
    &&& b.syntax_theme_name == a.syntax_theme_name
    &&& b.syntax_enabled == a.syntax_enabled
    &&& b.stream_throttle_ms == a.stream_throttle_ms
    &&& b.input_poll_ms == a.input_poll_ms
    &&& b.preview_fmt == a.preview_fmt
    &&& b.preview_open == a.preview_open
}

proof fn lemma_options_key_not_color(k2: Seq<char>)
    requires
        k2.len() >= 2,
        k2[0] == 'o',
        k2[1] == 'p',
    ensures
        color_key_index(k2) is None,
{
    reveal_strlit("app_bg");
    reveal_strlit("panel_bg");
    reveal_strlit("panel_alt_bg");
    reveal_strlit("input_bg");
    reveal_strlit("sidebar_title");
    reveal_strlit("sidebar_timestamp");
    reveal_strlit("sidebar_item");
    reveal_strlit("sidebar_item_bg");
    reveal_strlit("sidebar_selected_bg");
    reveal_strlit("title_chat");
    reveal_strlit("title_input");
    reveal_strlit("title_bar_bg");
    reveal_strlit("user_prefix");
    reveal_strlit("assistant_prefix");
    reveal_strlit("system_prefix");
    reveal_strlit("message_meta");
    reveal_strlit("message_rule");
    reveal_strlit("heading1");
    reveal_strlit("heading2");
    reveal_strlit("heading3");
    reveal_strlit("heading4");
    reveal_strlit("blockquote_bar");
    reveal_strlit("list_bullet");
    reveal_strlit("ordered_number");
    reveal_strlit("inline_code");
    reveal_strlit("inline_code_bg");
    reveal_strlit("code_block_fg");
    reveal_strlit("code_block_bg");
    reveal_strlit("hr");
    reveal_strlit("status_hint");
    reveal_strlit("mode_insert");
    reveal_strlit("mode_normal");
    reveal_strlit("mode_visual");
    reveal_strlit("mode_focus");
    reveal_strlit("border_sidebar");
    reveal_strlit("border_chat");
    reveal_strlit("border_input");
    reveal_strlit("popup_title");
    reveal_strlit("popup_accent");
    reveal_strlit("popup_text");
    reveal_strlit("stats_label");
    reveal_strlit("stats_value");
    reveal_strlit("stats_accent");
}

proof fn lemma_options_key_not_setting(k2: Seq<char>)
    requires
        k2.len() >= 2,
        k2[0] == 'o',
        k2[1] == 'p',
    ensures
        setting_kind(k2) == 13,
{
    reveal_strlit("model");
    reveal_strlit("api_url");
    reveal_strlit("ollama_api_key");
    reveal_strlit("server_addr");
    reveal_strlit("system_prompt");
    reveal_strlit("bold_selection");
    reveal_strlit("render_emojis");
    reveal_strlit("syntax_theme");
    reveal_strlit("syntax.theme_name");
    reveal_strlit("syntax.enabled");
    reveal_strlit("performance.stream_fps");
    reveal_strlit("performance.input_poll_ms");
    reveal_strlit("preview.preview_fmt");
    reveal_strlit("preview.preview_open");
}

/// `:set` with a bare key that names none of the client's settings, no
/// colour and no colour of the custom highlighting theme sets the model
/// option of that name, exactly as `:set options.<key>` does.
pub proof fn lemma_bare_key_is_model_option(a: ClientState, b: ClientState, k: Seq<char>, v: Seq<char>, r: Result<(), SetError>)
    requires
        setting_kind(k) == 13,
        color_target(k) is None,
        custom_target(k) is None,
        !(k.len() >= 8 && k.take(8) == "options."@),
    ensures
        setting_kind("options."@ + k) == 13,
        other_setting_effect(a, b, k, v, r) == other_setting_effect(a, b, "options."@ + k, v, r),
{
    reveal_strlit("options.");
    reveal_strlit("colors.");
    reveal_strlit("syntax.custom.");
    let k2 = "options."@ + k;
    assert(k2[0] == 'o');
    assert(k2[1] == 'p');
    lemma_options_key_not_setting(k2);
    lemma_options_key_not_color(k2);
    assert(k2.take(8) =~= "options."@);
    assert(k2.skip(8) =~= k);
    assert(!(k2.take(7) == "colors."@)) by {
        if k2.take(7) == "colors."@ {
            assert(k2.take(7)[0] == 'c');
        }
    }
    assert(!(k2.len() >= 14 && k2.take(14) == "syntax.custom."@)) by {
        if k2.len() >= 14 && k2.take(14) == "syntax.custom."@ {
            assert(k2.take(14)[0] == 's');
        }
    }
    assert(color_target(k2) is None);
    assert(custom_target(k2) is None);
    assert(option_target(k2) == k);
    assert(option_target(k) == k);
}

/// What `:set` does with a key that names none of the client's own
/// settings: a colour of the theme, a colour of the custom highlighting
/// theme, or else an option of the model.
pub open spec fn other_setting_effect(a: ClientState, b: ClientState, key: Seq<char>, v: Seq<char>, r: Result<(), SetError>) -> bool {
    match color_target(key) {
        Some(ck) => {
            &&& b.syntax_custom == a.syntax_custom
            &&& b.options == a.options
            &&& match color_name_spec(v) {
                None => r matches Err(SetError::Theme(ThemeError::InvalidColor { key: k2, value: v2 })) && k2@ == ck && v2@ == v,
                Some(c) => match color_key_index(ck) {
                    None => r matches Err(SetError::Theme(ThemeError::UnknownOption { key: k2 })) && k2@ == ck,
                    Some(i) => r is Ok && crate::theme::theme_color(b.theme, i) == c
                        && (forall|j: int| 0 <= j < crate::theme::THEME_COLOR_COUNT && j != i
                            ==> crate::theme::theme_color(b.theme, j) == crate::theme::theme_color(a.theme, j))
                        && caches_cleared(b),
                },
            }
        },
        None => {
            &&& b.theme == a.theme
            &&& match custom_target(key) {
                Some(ck) => {
                    &&& b.options == a.options
                    &&& match color_name_spec(v) {
                        None => r matches Err(SetError::SyntaxColor { key: k2, value: v2 }) && k2@ == ck && v2@ == v,
                        Some(_) => r is Ok && caches_cleared(b)
                            && (b.syntax_custom matches Some(t) && pairs_v(t@) == pair_set(custom_pairs(a.syntax_custom), ck, v)),
                    }
                },
                None => {
                    &&& b.syntax_custom == a.syntax_custom
                    &&& r is Ok
                    &&& (b.options matches Some(o) && jv(o) == options_after(
                        crate::agent::opts_v(a.options), option_target(key), jsonish_spec(v)))
                },
            }
        },
    }
}

/// An option read back after `:set` gives the value set, and other options
/// keep theirs; setting `null` removes the option.
pub proof fn lemma_option_read_after_set(o: Option<JsonV>, k: Seq<char>, v: JsonV, k2: Seq<char>)
    ensures
        ({
            let es = match o { Some(JsonV::Object(es)) => es, _ => Seq::empty() };
            let after = options_after(o, k, v);
            &&& !(v is Null) ==> crate::json::value_get(after, k) == Some(v)
            &&& v is Null ==> crate::json::value_get(after, k) is None
            &&& k2 != k ==> crate::json::value_get(after, k2) == crate::json::obj_get(es, k2)
        }),
{
    let es = match o { Some(JsonV::Object(es)) => es, _ => Seq::empty() };
    if v is Null {
        lemma_without_get(es, k, k2, es.len() as int);
        assert(es.take(es.len() as int) =~= es);
    } else {
        lemma_set_get(es, k, v, k2);
    }
}

proof fn lemma_obj_get_first(es: Seq<(Seq<char>, JsonV)>, k: Seq<char>, i: int)
    requires
        first_key_at(es, k, i),
    ensures
        crate::json::obj_get(es, k) == Some(es[i].1),
    decreases es.len(),
{
    if i > 0 {
        assert(es[0].0 != k);
        assert(first_key_at(es.drop_first(), k, i - 1));
        lemma_obj_get_first(es.drop_first(), k, i - 1);
    }
}

proof fn lemma_obj_get_none(es: Seq<(Seq<char>, JsonV)>, k: Seq<char>)
    requires
        forall|j: int| 0 <= j < es.len() ==> es[j].0 != k,
    ensures
        crate::json::obj_get(es, k) is None,
    decreases es.len(),
{
    if es.len() > 0 {
        assert forall|j: int| 0 <= j < es.drop_first().len() implies es.drop_first()[j].0 != k by {
            assert(es.drop_first()[j] == es[j + 1]);
        }
        lemma_obj_get_none(es.drop_first(), k);
    }
}

proof fn lemma_obj_get_update(es: Seq<(Seq<char>, JsonV)>, i: int, e: (Seq<char>, JsonV), k2: Seq<char>)
    requires
        0 <= i < es.len(),
        es[i].0 == e.0,
        e.0 != k2,
    ensures
        crate::json::obj_get(es.update(i, e), k2) == crate::json::obj_get(es, k2),
    decreases es.len(),
{
    if i > 0 {
        assert(es.update(i, e)[0] == es[0]);
        assert(es.update(i, e).drop_first() =~= es.drop_first().update(i - 1, e));
        lemma_obj_get_update(es.drop_first(), i - 1, e, k2);
    } else {
        assert(es.update(i, e)[0] == e);
        assert(es.update(i, e).drop_first() =~= es.drop_first());
    }
}

proof fn lemma_obj_get_push(es: Seq<(Seq<char>, JsonV)>, e: (Seq<char>, JsonV), k2: Seq<char>)
    requires
        e.0 != k2,
    ensures
        crate::json::obj_get(es.push(e), k2) == crate::json::obj_get(es, k2),
    decreases es.len(),
{
    if es.len() > 0 {
        assert(es.push(e)[0] == es[0]);
        assert(es.push(e).drop_first() =~= es.drop_first().push(e));
        lemma_obj_get_push(es.drop_first(), e, k2);
    } else {
        assert(es.push(e)[0] == e);
        assert(es.push(e).drop_first() =~= Seq::<(Seq<char>, JsonV)>::empty());
        assert(crate::json::obj_get(Seq::<(Seq<char>, JsonV)>::empty(), k2) is None);
    }
}

proof fn lemma_set_get(es: Seq<(Seq<char>, JsonV)>, k: Seq<char>, v: JsonV, k2: Seq<char>)
    ensures
        crate::json::obj_get(obj_set(es, k, v), k) == Some(v),
        k2 != k ==> crate::json::obj_get(obj_set(es, k, v), k2) == crate::json::obj_get(es, k2),
{
    if exists|i: int| first_key_at(es, k, i) {
        let i = choose|i: int| first_key_at(es, k, i);
        let es2 = es.update(i, (k, v));
        assert(first_key_at(es2, k, i));
        lemma_obj_get_first(es2, k, i);
        if k2 != k {
            lemma_obj_get_update(es, i, (k, v), k2);
        }
    } else {
        let es2 = es.push((k, v));
        assert forall|j: int| 0 <= j < es.len() implies es[j].0 != k by {
            if es[j].0 == k {
                lemma_first_key_exists(es, k, j);
            }
        }
        assert(first_key_at(es2, k, es.len() as int));
        lemma_obj_get_first(es2, k, es.len() as int);
        if k2 != k {
            lemma_obj_get_push(es, (k, v), k2);
        }
    }
}

proof fn lemma_first_key_exists(es: Seq<(Seq<char>, JsonV)>, k: Seq<char>, j: int)
    requires
        0 <= j < es.len(),
        es[j].0 == k,
    ensures
        exists|i: int| first_key_at(es, k, i),
    decreases j,
{
    if exists|m: int| 0 <= m < j && es[m].0 == k {
        let m = choose|m: int| 0 <= m < j && es[m].0 == k;
        lemma_first_key_exists(es, k, m);
    } else {
        assert(first_key_at(es, k, j));
    }
}

proof fn lemma_without_get(es: Seq<(Seq<char>, JsonV)>, k: Seq<char>, k2: Seq<char>, n: int)
    requires
        0 <= n <= es.len(),
    ensures
        crate::json::obj_get(obj_without(es, k, n), k) is None,
        k2 != k ==> crate::json::obj_get(obj_without(es, k, n), k2) == crate::json::obj_get(es.take(n), k2),
    decreases n,
{
    if n > 0 {
        lemma_without_get(es, k, k2, n - 1);
        let w = obj_without(es, k, n - 1);
        assert(es.take(n) =~= es.take(n - 1).push(es[n - 1]));
        if es[n - 1].0 == k {
            if k2 != k {
                lemma_obj_get_push(es.take(n - 1), es[n - 1], k2);
            }
        } else {
            lemma_obj_get_push(w, es[n - 1], k);
            if k2 != k {
                lemma_push_get_same_order(w, es.take(n - 1), es[n - 1], k2);
            }
        }
    } else {
        assert(obj_without(es, k, 0) =~= Seq::<(Seq<char>, JsonV)>::empty());
        assert(es.take(0) =~= Seq::<(Seq<char>, JsonV)>::empty());
    }
}

proof fn lemma_push_get_same_order(a: Seq<(Seq<char>, JsonV)>, b: Seq<(Seq<char>, JsonV)>, e: (Seq<char>, JsonV), k: Seq<char>)
    requires
        crate::json::obj_get(a, k) == crate::json::obj_get(b, k),
    ensures
        crate::json::obj_get(a.push(e), k) == crate::json::obj_get(b.push(e), k),
    decreases a.len() + b.len(),
{
    lemma_get_push(a, e, k);
    lemma_get_push(b, e, k);
}

proof fn lemma_get_push(a: Seq<(Seq<char>, JsonV)>, e: (Seq<char>, JsonV), k: Seq<char>)
    ensures
        crate::json::obj_get(a.push(e), k) == (match crate::json::obj_get(a, k) {
            Some(x) => Some(x),
            None => if e.0 == k { Some(e.1) } else { None },
        }),
    decreases a.len(),
{
    if a.len() > 0 {
        assert(a.push(e)[0] == a[0]);
        assert(a.push(e).drop_first() =~= a.drop_first().push(e));
        lemma_get_push(a.drop_first(), e, k);
    } else {
        assert(a.push(e)[0] == e);
        assert(a.push(e).drop_first() =~= Seq::<(Seq<char>, JsonV)>::empty());
        assert(crate::json::obj_get(Seq::<(Seq<char>, JsonV)>::empty(), k) is None);
    }
}


/// The value of the first pair named `k`.
spec fn pair_get(ps: Seq<(Seq<char>, Seq<char>)>, k: Seq<char>) -> Option<Seq<char>>
    decreases ps.len(),
{
    if ps.len() == 0 {
        None
    } else if ps[0].0 == k {
        Some(ps[0].1)
    } else {
        pair_get(ps.drop_first(), k)
    }
}

/// A colour of the custom highlighting theme read back, as the theme
/// builder reads it, after `:set syntax.custom.<name> <colour>` succeeded
/// gives the colour set; the other colours keep theirs.
pub proof fn lemma_custom_color_read_after_set(a: ClientState, b: ClientState, key: Seq<char>, v: Seq<char>, k2: Seq<char>)
    requires
        color_target(key) is None,
        custom_target(key) is Some,
        other_setting_effect(a, b, key, v, Ok(())),
    ensures
        b.syntax_custom is Some,
        crate::theme::lookup_spec(b.syntax_custom->0@, custom_target(key)->0) == Some(v),
        k2 != custom_target(key)->0 ==> crate::theme::lookup_spec(b.syntax_custom->0@, k2) == (match a.syntax_custom {
            Some(t) => crate::theme::lookup_spec(t@, k2),
            None => None,
        }),
{
    let ck = custom_target(key)->0;
    let t = b.syntax_custom->0;
    let before = custom_pairs(a.syntax_custom);
    lemma_lookup_pairs(t@, ck);
    lemma_lookup_pairs(t@, k2);
    lemma_pair_set_get(before, ck, v, k2);
    match a.syntax_custom {
        Some(t0) => { lemma_lookup_pairs(t0@, k2); },
        None => { assert(pair_get(before, k2) is None); },
    }
}

proof fn lemma_lookup_pairs(t: Seq<(String, String)>, k: Seq<char>)
    ensures
        crate::theme::lookup_spec(t, k) == pair_get(pairs_v(t), k),
    decreases t.len(),
{
    if t.len() > 0 {
        assert(pairs_v(t).drop_first() =~= pairs_v(t.drop_first()));
        lemma_lookup_pairs(t.drop_first(), k);
    }
}

proof fn lemma_pair_get_first(ps: Seq<(Seq<char>, Seq<char>)>, k: Seq<char>, i: int)
    requires
        first_pair_at(ps, k, i),
    ensures
        pair_get(ps, k) == Some(ps[i].1),
    decreases ps.len(),
{
    if i > 0 {
        assert(ps[0].0 != k);
        assert(first_pair_at(ps.drop_first(), k, i - 1));
        lemma_pair_get_first(ps.drop_first(), k, i - 1);
    }
}

proof fn lemma_first_pair_exists(ps: Seq<(Seq<char>, Seq<char>)>, k: Seq<char>, j: int)
    requires
        0 <= j < ps.len(),
        ps[j].0 == k,
    ensures
        exists|i: int| first_pair_at(ps, k, i),
    decreases j,
{
    if exists|m: int| 0 <= m < j && ps[m].0 == k {
        let m = choose|m: int| 0 <= m < j && ps[m].0 == k;
        lemma_first_pair_exists(ps, k, m);
    } else {
        assert(first_pair_at(ps, k, j));
    }
}

proof fn lemma_pair_get_update(ps: Seq<(Seq<char>, Seq<char>)>, i: int, e: (Seq<char>, Seq<char>), k2: Seq<char>)
    requires
        0 <= i < ps.len(),
        ps[i].0 == e.0,
        e.0 != k2,
    ensures
        pair_get(ps.update(i, e), k2) == pair_get(ps, k2),
    decreases ps.len(),
{
    if i > 0 {
        assert(ps.update(i, e)[0] == ps[0]);
        assert(ps.update(i, e).drop_first() =~= ps.drop_first().update(i - 1, e));
        lemma_pair_get_update(ps.drop_first(), i - 1, e, k2);
    } else {
        assert(ps.update(i, e)[0] == e);
        assert(ps.update(i, e).drop_first() =~= ps.drop_first());
    }
}

proof fn lemma_pair_get_push(ps: Seq<(Seq<char>, Seq<char>)>, e: (Seq<char>, Seq<char>), k2: Seq<char>)
    ensures
        pair_get(ps.push(e), k2) == (match pair_get(ps, k2) {
            Some(x) => Some(x),
            None => if e.0 == k2 { Some(e.1) } else { None },
        }),
    decreases ps.len(),
{
    if ps.len() > 0 {
        assert(ps.push(e)[0] == ps[0]);
        assert(ps.push(e).drop_first() =~= ps.drop_first().push(e));
        lemma_pair_get_push(ps.drop_first(), e, k2);
    } else {
        assert(ps.push(e)[0] == e);
        assert(ps.push(e).drop_first() =~= Seq::<(Seq<char>, Seq<char>)>::empty());
        assert(pair_get(Seq::<(Seq<char>, Seq<char>)>::empty(), k2) is None);
    }
}

proof fn lemma_pair_get_none(ps: Seq<(Seq<char>, Seq<char>)>, k: Seq<char>)
    requires
        forall|j: int| 0 <= j < ps.len() ==> ps[j].0 != k,
    ensures
        pair_get(ps, k) is None,
    decreases ps.len(),
{
    if ps.len() > 0 {
        assert forall|j: int| 0 <= j < ps.drop_first().len() implies ps.drop_first()[j].0 != k by {
            assert(ps.drop_first()[j] == ps[j + 1]);
        }
        lemma_pair_get_none(ps.drop_first(), k);
    }
}

proof fn lemma_pair_set_get(ps: Seq<(Seq<char>, Seq<char>)>, k: Seq<char>, v: Seq<char>, k2: Seq<char>)
    ensures
        pair_get(pair_set(ps, k, v), k) == Some(v),
        k2 != k ==> pair_get(pair_set(ps, k, v), k2) == pair_get(ps, k2),
{
    if exists|i: int| first_pair_at(ps, k, i) {
        let i = choose|i: int| first_pair_at(ps, k, i);
        let ps2 = ps.update(i, (k, v));
        assert(first_pair_at(ps2, k, i));
        lemma_pair_get_first(ps2, k, i);
        if k2 != k {
            lemma_pair_get_update(ps, i, (k, v), k2);
        }
    } else {
        assert forall|j: int| 0 <= j < ps.len() implies ps[j].0 != k by {
            if ps[j].0 == k {
                lemma_first_pair_exists(ps, k, j);
            }
        }
        lemma_pair_get_none(ps, k);
        lemma_pair_get_push(ps, (k, v), k);
        lemma_pair_get_push(ps, (k, v), k2);
    }
}

} // verus!
