use vstd::prelude::*;
use vstd::multiset::Multiset;
use directories::ProjectDirs;
use crate::chat::{Chat, ChatMeta, Message, opt_view, search_excerpt_for_text, search_excerpt_spec};
use crate::text::{copy_string, string_from, push_str, trim, trim_spec, to_lowercase, lowercase_of, to_chars,
    find_chars_from, find_from, lemma_find_from_bounds};

verus! {

/// Why a path of the client's storage could not be found.
#[derive(Debug, PartialEq, Eq, Structural)]
pub enum StorageError {
    /// The platform gives no data directory.
    NoDataDir,
    /// The platform gives no configuration directory.
    NoConfigDir,
}

impl StorageError {
    /// The message the client shows.
    pub fn message(&self) -> (r: String)
        ensures
            *self == StorageError::NoDataDir ==> r@ == "unable to resolve data dir"@,
            *self == StorageError::NoConfigDir ==> r@ == "unable to resolve config dir"@,
    {
        match self {
            StorageError::NoDataDir => string_from("unable to resolve data dir"),
            StorageError::NoConfigDir => string_from("unable to resolve config dir"),
        }
    }
}

/// The data directory of the application `application` of `organization`
/// (`qualifier` being its domain), by `ProjectDirs::from`, or `None` when the
/// platform gives none. The directory comes from the environment (the home
/// directory, XDG variables), so nothing is stated of it.
#[verifier::external_body]
fn project_data_dir(qualifier: &str, organization: &str, application: &str) -> Option<String> {
    ProjectDirs::from(qualifier, organization, application).map(|p| p.data_dir().to_string_lossy().into_owned())
}

/// The configuration directory of the same application, found as the data
/// directory is; nothing is stated of it.
#[verifier::external_body]
fn project_config_dir(qualifier: &str, organization: &str, application: &str) -> Option<String> {
    ProjectDirs::from(qualifier, organization, application).map(|p| p.config_dir().to_string_lossy().into_owned())
}

/// The path `part` under `base`, as `Path::join` forms it.
pub uninterp spec fn joined_path(base: Seq<char>, part: Seq<char>) -> Seq<char>;

/// `PathBuf::from(base).join(part)` as text; the result is named
/// `joined_path`.
#[verifier::external_body]
pub(crate) fn path_join(base: &str, part: &str) -> (r: String)
    ensures
        r@ == joined_path(base@, part@),
{
    std::path::PathBuf::from(base).join(part).to_string_lossy().into_owned()
}

/// The data root from the platform's answer.
pub fn data_root_from(dir: Option<String>) -> (r: Result<String, StorageError>)
    ensures
        dir is None <==> r is Err,
        r matches Err(e) ==> e == StorageError::NoDataDir,
        r matches Ok(p) ==> opt_view(dir) == Some(p@),
{
    match dir {
        Some(d) => Ok(d),
        None => Err(StorageError::NoDataDir),
    }
}

/// The directory where the client keeps its data.
pub fn data_root() -> (r: Result<String, StorageError>)
    ensures
        r matches Err(e) ==> e == StorageError::NoDataDir,
{
    data_root_from(project_data_dir("dev", "example", "tuillama"))
}

/// The directory of stored chats: "chats" under the data root.
pub fn chats_dir_path() -> (r: Result<String, StorageError>)
    ensures
        r matches Err(e) ==> e == StorageError::NoDataDir,
        r matches Ok(p) ==> exists|root: Seq<char>| p@ == #[trigger] joined_path(root, "chats"@),
{
    match data_root() {
        Ok(root) => Ok(path_join(root.as_str(), "chats")),
        Err(e) => Err(e),
    }
}

/// The file name of chat `id`.
pub open spec fn chat_file_name(id: Seq<char>) -> Seq<char> {
    id + ".json"@
}

/// The file of chat `id`: "<id>.json" in the chats directory.
pub fn chat_file_path(id: &str) -> (r: Result<String, StorageError>)
    ensures
        r matches Err(e) ==> e == StorageError::NoDataDir,
        r matches Ok(p) ==> exists|dir: Seq<char>| p@ == #[trigger] joined_path(dir, chat_file_name(id@)),
{
    match chats_dir_path() {
        Ok(dir) => {
            let mut name = string_from(id);
            push_str(&mut name, ".json");
            let r = path_join(dir.as_str(), name.as_str());
            proof {
                assert(name@ == chat_file_name(id@));
                assert(r@ == joined_path(dir@, chat_file_name(id@)));
            }
            Ok(r)
        },
        Err(e) => Err(e),
    }
}

/// The configuration file: "config.toml" in the configuration directory.
pub fn config_path() -> (r: Result<String, StorageError>)
    ensures
        r matches Err(e) ==> e == StorageError::NoConfigDir,
        r matches Ok(p) ==> exists|dir: Seq<char>| p@ == #[trigger] joined_path(dir, "config.toml"@),
{
    match project_config_dir("dev", "example", "tuillama") {
        Some(d) => Ok(path_join(d.as_str(), "config.toml")),
        None => Err(StorageError::NoConfigDir),
    }
}

/// A chat as the sidebar lists it.
pub fn chat_meta(chat: Chat) -> (r: ChatMeta)
    ensures
        r.id == chat.id,
        r.title == chat.title,
        r.updated_ts == chat.updated_ts,
        r.search_excerpt is None,
{
    ChatMeta { id: chat.id, title: chat.title, updated_ts: chat.updated_ts, search_excerpt: None }
}

/// The text searched for: the query trimmed and lower-cased.
pub open spec fn needle_spec(query: Seq<char>) -> Seq<char> {
    lowercase_of(trim_spec(query))
}

/// The text searched for.
pub fn search_needle(query: &str) -> (r: String)
    ensures
        r@ == needle_spec(query@),
{
    to_lowercase(trim(query).as_str())
}

/// The excerpt of the first message, in order, whose content (or else
/// thinking) holds the needle.
pub open spec fn first_excerpt(ms: Seq<Message>, needle: Seq<char>, i: int) -> Option<Seq<char>>
    decreases ms.len() - i,
{
    if i < 0 || i >= ms.len() {
        None
    } else {
        match search_excerpt_spec(ms[i].content@, needle) {
            Some(e) => Some(e),
            None => match ms[i].thinking {
                Some(t) => match search_excerpt_spec(t@, needle) {
                    Some(e) => Some(e),
                    None => first_excerpt(ms, needle, i + 1),
                },
                None => first_excerpt(ms, needle, i + 1),
            },
        }
    }
}

/// Whether `s` holds `p`.
pub open spec fn holds(s: Seq<char>, p: Seq<char>) -> bool {
    find_from(s, p, 0) is Some
}

/// The sidebar entry of a chat that matches a search: its lower-cased title
/// holds the needle, or a message does (with an excerpt around the first).
pub fn chat_search_meta(chat: &Chat, needle: &str) -> (r: Option<ChatMeta>)
    ensures
        ({
            let ex = first_excerpt(chat.messages@, needle@, 0);
            let title_hit = holds(lowercase_of(chat.title@), needle@);
            &&& r is Some <==> (title_hit || ex is Some)
            &&& r matches Some(m) ==> m.id@ == chat.id@ && m.title@ == chat.title@ && m.updated_ts == chat.updated_ts
                && opt_view(m.search_excerpt) == ex
        }),
{
    let lt = to_chars(to_lowercase(chat.title.as_str()).as_str());
    let nv = to_chars(needle);
    let title_hit = find_chars_from(&lt, &nv, 0).is_some();
    let mut excerpt: Option<String> = None;
    let mut i: usize = 0;
    while i < chat.messages.len()
        invariant_except_break
            i <= chat.messages@.len(),
            excerpt is None,
            first_excerpt(chat.messages@, needle@, 0) == first_excerpt(chat.messages@, needle@, i as int),
        ensures
            opt_view(excerpt) == first_excerpt(chat.messages@, needle@, 0),
        decreases chat.messages.len() - i,
    {
        let m = &chat.messages[i];
        let e = search_excerpt_for_text(m.content.as_str(), needle);
        if e.is_some() {
            excerpt = e;
            break;
        }
        match &m.thinking {
            Some(t) => {
                let e2 = search_excerpt_for_text(t.as_str(), needle);
                if e2.is_some() {
                    excerpt = e2;
                    break;
                }
            },
            None => {},
        }
        i = i + 1;
    }
    if title_hit || excerpt.is_some() {
        Some(ChatMeta {
            id: copy_string(&chat.id),
            title: copy_string(&chat.title),
            updated_ts: chat.updated_ts,
            search_excerpt: excerpt,
        })
    } else {
        None
    }
}

/// A sidebar entry as plain values: id, title, time of the last change and
/// excerpt.
pub open spec fn meta_v(m: ChatMeta) -> (Seq<char>, Seq<char>, i64, Option<Seq<char>>) {
    (m.id@, m.title@, m.updated_ts, opt_view(m.search_excerpt))
}

/// Sidebar entries as plain values.
pub open spec fn metas_v(s: Seq<ChatMeta>) -> Seq<(Seq<char>, Seq<char>, i64, Option<Seq<char>>)> {
    s.map_values(|m: ChatMeta| meta_v(m))
}

/// The most recently changed chat comes first.
pub open spec fn recency_sorted(s: Seq<ChatMeta>) -> bool {
    forall|i: int, j: int| 0 <= i < j < s.len() ==> s[i].updated_ts >= s[j].updated_ts
}

/// Orders sidebar entries from the most recently changed on; entries
/// changed at the same time keep their order.
pub fn sort_by_recency(metas: Vec<ChatMeta>) -> (r: Vec<ChatMeta>)
    ensures
        recency_sorted(r@),
        metas_v(r@).to_multiset() == metas_v(metas@).to_multiset(),
{
    broadcast use vstd::seq_lib::to_multiset_insert, vstd::seq_lib::to_multiset_remove, vstd::multiset::group_multiset_axioms;
    let ghost orig = metas_v(metas@);
    let mut rest = metas;
    let mut out: Vec<ChatMeta> = Vec::new();
    proof {
        assert(metas_v(out@) =~= Seq::<(Seq<char>, Seq<char>, i64, Option<Seq<char>>)>::empty());
        Seq::<(Seq<char>, Seq<char>, i64, Option<Seq<char>>)>::empty().to_multiset_ensures();
        vstd::multiset::lemma_multiset_empty_len(Seq::<(Seq<char>, Seq<char>, i64, Option<Seq<char>>)>::empty().to_multiset());
        assert(metas_v(out@).to_multiset().add(metas_v(rest@).to_multiset()) =~= orig.to_multiset());
    }
    while rest.len() > 0
        invariant
            recency_sorted(out@),
            metas_v(out@).to_multiset().add(metas_v(rest@).to_multiset()) == orig.to_multiset(),
        decreases rest.len(),
    {
        let ghost r0 = rest@;
        let x = rest.remove(0);
        proof {
            assert(metas_v(rest@) =~= metas_v(r0).remove(0));
            assert(metas_v(r0)[0] == meta_v(x));
        }
        let mut p: usize = 0;
        while p < out.len() && out[p].updated_ts >= x.updated_ts
            invariant
                p <= out@.len(),
                forall|k: int| 0 <= k < p ==> out@[k].updated_ts >= x.updated_ts,
            decreases out.len() - p,
        {
            p = p + 1;
        }
        let ghost o0 = out@;
        out.insert(p, x);
        proof {
            assert(metas_v(out@) =~= metas_v(o0).insert(p as int, meta_v(x)));
            let mx = meta_v(x);
            vstd::seq_lib::to_multiset_insert(metas_v(o0), p as int, mx);
            vstd::seq_lib::to_multiset_remove(metas_v(r0), 0);
            assert(metas_v(out@).to_multiset() == metas_v(o0).to_multiset().insert(mx));
            assert(metas_v(rest@).to_multiset() == metas_v(r0).to_multiset().remove(mx));
            assert(metas_v(r0).to_multiset().count(mx) > 0) by {
                assert(metas_v(r0).contains(mx)) by { assert(metas_v(r0)[0] == mx); }
                metas_v(r0).to_multiset_ensures();
            }
            assert(metas_v(out@).to_multiset().add(metas_v(rest@).to_multiset())
                =~= metas_v(o0).to_multiset().add(metas_v(r0).to_multiset()));
            assert forall|i: int, j: int| 0 <= i < j < out@.len() implies out@[i].updated_ts >= out@[j].updated_ts by {
                if j < p {
                } else if j == p {
                } else if i < p {
                    assert(out@[i] == o0[i]);
                    assert(out@[j] == o0[j - 1]);
                    if p < o0.len() {
                        assert(o0[p as int].updated_ts < x.updated_ts);
                        assert(o0[p as int].updated_ts >= o0[j - 1].updated_ts);
                    }
                } else if i == p {
                    assert(o0[p as int].updated_ts < x.updated_ts);
                    assert(o0[p as int].updated_ts >= o0[j - 1].updated_ts || j - 1 == p);
                } else {
                    assert(out@[i] == o0[i - 1]);
                    assert(out@[j] == o0[j - 1]);
                }
            }
        }
    }
    proof {
        assert(metas_v(rest@) =~= Seq::<(Seq<char>, Seq<char>, i64, Option<Seq<char>>)>::empty());
        Seq::<(Seq<char>, Seq<char>, i64, Option<Seq<char>>)>::empty().to_multiset_ensures();
        vstd::multiset::lemma_multiset_empty_len(Seq::<(Seq<char>, Seq<char>, i64, Option<Seq<char>>)>::empty().to_multiset());
        assert(metas_v(out@).to_multiset().add(Multiset::<(Seq<char>, Seq<char>, i64, Option<Seq<char>>)>::empty()) =~= metas_v(out@).to_multiset());
    }
    out
}

/// The sidebar entry of a chat.
pub open spec fn meta_of(c: Chat) -> (Seq<char>, Seq<char>, i64, Option<Seq<char>>) {
    (c.id@, c.title@, c.updated_ts, None)
}

/// The sidebar entries of the stored chats, the most recently changed first.
pub fn list_chats(chats: Vec<Chat>) -> (r: Vec<ChatMeta>)
    ensures
        recency_sorted(r@),
        metas_v(r@).to_multiset() == chats@.map_values(|c: Chat| meta_of(c)).to_multiset(),
{
    let mut metas: Vec<ChatMeta> = Vec::new();
    let mut rest = chats;
    let ghost orig = rest@;
    proof {
        assert(orig.skip(0) =~= orig);
        assert(metas_v(metas@) =~= orig.take(0).map_values(|c: Chat| meta_of(c)));
    }
    while rest.len() > 0
        invariant
            metas@.len() <= orig.len(),
            rest@ == orig.skip(metas@.len() as int),
            metas_v(metas@) == orig.take(metas@.len() as int).map_values(|c: Chat| meta_of(c)),
        decreases rest.len(),
    {
        let ghost k: int = metas@.len() as int;
        let c = rest.remove(0);
        proof {
            assert(c == orig[k]);
            assert(rest@ =~= orig.skip(k + 1));
        }
        let m = chat_meta(c);
        proof {
            assert(meta_v(m) == meta_of(orig[k]));
        }
        let ghost m0 = metas@;
        metas.push(m);
        proof {
            assert(metas_v(metas@) =~= metas_v(m0).push(meta_v(m)));
            assert(orig.take(k + 1).map_values(|c: Chat| meta_of(c)) =~= orig.take(k).map_values(|c: Chat| meta_of(c)).push(meta_of(orig[k])));
            assert(metas_v(metas@) =~= orig.take(k + 1).map_values(|c: Chat| meta_of(c)));
        }
    }
    proof {
        assert(orig.take(metas@.len() as int) =~= orig);
    }
    sort_by_recency(metas)
}

/// The sidebar entry of a chat that matches the needle, as plain values.
pub open spec fn search_hit(c: Chat, needle: Seq<char>) -> Option<(Seq<char>, Seq<char>, i64, Option<Seq<char>>)> {
    let ex = first_excerpt(c.messages@, needle, 0);
    if holds(lowercase_of(c.title@), needle) || ex is Some {
        Some((c.id@, c.title@, c.updated_ts, ex))
    } else {
        None
    }
}

/// The entries of the chats among `cs[..n]` that match the needle, in order.
pub open spec fn search_hits(cs: Seq<Chat>, needle: Seq<char>, n: int) -> Seq<(Seq<char>, Seq<char>, i64, Option<Seq<char>>)>
    decreases n,
{
    if n <= 0 || n > cs.len() {
        Seq::empty()
    } else {
        match search_hit(cs[n - 1], needle) {
            Some(h) => search_hits(cs, needle, n - 1).push(h),
            None => search_hits(cs, needle, n - 1),
        }
    }
}

/// The sidebar entries for a search of the stored chats: with an empty
/// query every chat; else the chats whose title or messages hold the
/// query, case aside; the most recently changed first.
pub fn search_chats(chats: Vec<Chat>, query: &str) -> (r: Vec<ChatMeta>)
    ensures
        recency_sorted(r@),
        needle_spec(query@).len() == 0 ==>
            metas_v(r@).to_multiset() == chats@.map_values(|c: Chat| meta_of(c)).to_multiset(),
        needle_spec(query@).len() > 0 ==>
            metas_v(r@).to_multiset() == search_hits(chats@, needle_spec(query@), chats@.len() as int).to_multiset(),
{
    let needle = search_needle(query);
    if needle.as_str().is_empty() {
        return list_chats(chats);
    }
    let mut metas: Vec<ChatMeta> = Vec::new();
    let mut i: usize = 0;
    proof {
        assert(metas_v(metas@) =~= search_hits(chats@, needle@, 0));
    }
    while i < chats.len()
        invariant
            i <= chats@.len(),
            metas_v(metas@) == search_hits(chats@, needle@, i as int),
        decreases chats.len() - i,
    {
        match chat_search_meta(&chats[i], needle.as_str()) {
            Some(m) => {
                let ghost m0 = metas@;
                metas.push(m);
                proof {
                    assert(metas_v(metas@) =~= metas_v(m0).push(meta_v(m)));
                }
            },
            None => {},
        }
        i = i + 1;
    }
    sort_by_recency(metas)
}

} // verus!
