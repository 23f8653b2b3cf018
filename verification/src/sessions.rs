//! The rules of a workspace's Sessions and scripts: valid tags and script
//! names, where scripts of each kind live, how a new Session is numbered and
//! named, which Session a routing tag selects, how tags move between Sessions,
//! and the limits of a Session's interceptor chains.
use vstd::prelude::*;
use vstd::string::*;

use crate::model::{
    FilterColumn, FilterOption, InterceptorKind, InterceptorLibraryItem, ResolvedSessionInterceptor,
    ScriptKind, SessionFilter, SessionInterceptor, SessionInterceptors, SessionMetadata, MAX_SESSION_INTERCEPTORS_PER_KIND,
};
use crate::numbers::{decimal_text, u64_text};
use crate::strmap::{has_key, keys_sorted, StrMap};
use crate::text::{lemma_seq_lt_irreflexive, lemma_seq_lt_transitive, seq_lt, str_eq};

verus! {

/// A tag character: a lowercase ASCII letter, a digit or `_`.
pub open spec fn tag_char(c: char) -> bool {
    ('a' <= c && c <= 'z') || ('0' <= c && c <= '9') || c == '_'
}

/// A valid tag: 1 to 20 tag characters.
pub open spec fn valid_tag(tag: Seq<char>) -> bool {
    1 <= tag.len() <= 20 && forall|i: int| 0 <= i < tag.len() ==> tag_char(#[trigger] tag[i])
}

/// A routing tag is 1 to 20 characters, each a lowercase ASCII letter, a
/// digit or `_`: an empty or longer tag, or one holding an uppercase letter,
/// a `-`, a space or a `.`, is invalid; any tag made only of allowed
/// characters within that length is valid.
pub proof fn law_tag_syntax(tag: Seq<char>, i: int)
    ensures
        tag.len() == 0 || tag.len() > 20 ==> !valid_tag(tag),
        0 <= i < tag.len() && (('A' <= tag[i] && tag[i] <= 'Z') || tag[i] == '-' || tag[i] == ' ' || tag[i] == '.')
            ==> !valid_tag(tag),
        1 <= tag.len() <= 20 && (forall|k: int|
            0 <= k < tag.len() ==> ('a' <= #[trigger] tag[k] && tag[k] <= 'z') || ('0' <= tag[k] && tag[k] <= '9')
                || tag[k] == '_') ==> valid_tag(tag),
{
}

/// Checks a routing tag against `^[a-z0-9_]{1,20}$`.
pub fn validate_tag(tag: &str) -> (r: Result<(), String>)
    ensures
        match r {
            Ok(()) => valid_tag(tag@),
            Err(m) => !valid_tag(tag@) && m@ == "tag must match ^[a-z0-9_]{1,20}$"@,
        },
{
    let n = tag.unicode_len();
    let mut ok = 1 <= n && n <= 20;
    let mut i: usize = 0;
    while ok && i < n
        invariant
            n == tag@.len(),
            i <= n,
            ok ==> 1 <= n <= 20,
            ok ==> forall|k: int| 0 <= k < i ==> tag_char(#[trigger] tag@[k]),
            !ok ==> !valid_tag(tag@),
        decreases n - i,
    {
        let c = tag.get_char(i);
        if !(('a' <= c && c <= 'z') || ('0' <= c && c <= '9') || c == '_') {
            assert(!tag_char(tag@[i as int]));
            ok = false;
        }
        i = i + 1;
    }
    if ok {
        Ok(())
    } else {
        Err(String::from_str("tag must match ^[a-z0-9_]{1,20}$"))
    }
}

/// Whether Rust's `char::is_alphanumeric` holds: the character is
/// alphabetic or numeric in Unicode.
pub uninterp spec fn unicode_alphanumeric(c: char) -> bool;

/// `char::is_alphanumeric`: alphabetic or numeric by the Unicode tables of the
/// standard library, a function of the character alone.
#[verifier::external_body]
fn is_alphanumeric(c: char) -> (r: bool)
    ensures
        r == unicode_alphanumeric(c),
{
    c.is_alphanumeric()
}

/// A character allowed in a script name.
pub open spec fn script_name_char(c: char) -> bool {
    unicode_alphanumeric(c) || c == '-' || c == '_' || c == '.'
}

/// The length of a string in bytes, as `str::len` reports it.
pub open spec fn byte_len(s: &str) -> usize {
    s.spec_bytes().len() as usize
}

/// A valid script name: 1 to 128 bytes of allowed characters, and neither
/// `.` nor `..`.
pub open spec fn valid_script_name(name: &str) -> bool {
    &&& name@.len() > 0
    &&& byte_len(name) <= 128
    &&& forall|i: int| 0 <= i < name@.len() ==> script_name_char(#[trigger] name@[i])
    &&& name@ != "."@
    &&& name@ != ".."@
}

/// A script name is never empty, `.`, `..` or longer than 128 bytes; within
/// those bounds, one made of letters, digits, `-`, `_` and `.` is valid.
pub proof fn law_script_name_syntax(name: &str)
    ensures
        name@.len() == 0 ==> !valid_script_name(name),
        name@ == "."@ || name@ == ".."@ ==> !valid_script_name(name),
        byte_len(name) > 128 ==> !valid_script_name(name),
        name@.len() > 0 && byte_len(name) <= 128 && name@ != "."@ && name@ != ".."@ && (forall|k: int|
            0 <= k < name@.len() ==> unicode_alphanumeric(#[trigger] name@[k]) || name@[k] == '-' || name@[k] == '_'
                || name@[k] == '.') ==> valid_script_name(name),
{
}

/// Checks a script name, which becomes a file name.
pub fn validate_script_name(name: &str) -> (r: Result<(), String>)
    ensures
        match r {
            Ok(()) => valid_script_name(name),
            Err(m) => !valid_script_name(name) && m@ == "invalid script name"@,
        },
{
    let n = name.unicode_len();
    let mut ok = n > 0 && name.len() <= 128;
    let mut i: usize = 0;
    while ok && i < n
        invariant
            n == name@.len(),
            i <= n,
            ok ==> name@.len() > 0 && byte_len(name) <= 128,
            ok ==> forall|k: int| 0 <= k < i ==> script_name_char(#[trigger] name@[k]),
            !ok ==> !valid_script_name(name),
        decreases n - i,
    {
        let c = name.get_char(i);
        if !(is_alphanumeric(c) || c == '-' || c == '_' || c == '.') {
            assert(!script_name_char(name@[i as int]));
            ok = false;
        }
        i = i + 1;
    }
    if ok && !str_eq(name, ".") && !str_eq(name, "..") {
        Ok(())
    } else {
        Err(String::from_str("invalid script name"))
    }
}

/// The directory that holds scripts of a kind.
pub fn script_dir_name(kind: ScriptKind) -> (r: &'static str)
    ensures
        r@ == match kind {
            ScriptKind::Column => "column"@,
            ScriptKind::Filter => "filter"@,
            ScriptKind::Routing => "routing"@,
            ScriptKind::RequestInterceptor => "request"@,
            ScriptKind::ResponseInterceptor => "response"@,
        },
{
    match kind {
        ScriptKind::Column => "column",
        ScriptKind::Filter => "filter",
        ScriptKind::Routing => "routing",
        ScriptKind::RequestInterceptor => "request",
        ScriptKind::ResponseInterceptor => "response",
    }
}

/// Whether some Session has this id.
pub open spec fn id_taken(sessions: Seq<SessionMetadata>, id: u64) -> bool {
    exists|i: int| 0 <= i < sessions.len() && #[trigger] sessions[i].id == id
}

/// The id of a new Session: the first id from `start` (the current time in
/// milliseconds) that no Session has.
pub fn next_session_id(sessions: &Vec<SessionMetadata>, start: u64) -> (r: u64)
    requires
        start + sessions@.len() <= u64::MAX,
    ensures
        start <= r <= start + sessions@.len(),
        !id_taken(sessions@, r),
        forall|id: u64| start <= id < r ==> id_taken(sessions@, id),
{
    let mut id = start;
    loop
        invariant
            start <= id,
            start + sessions@.len() <= u64::MAX,
            forall|k: u64| start <= k < id ==> id_taken(sessions@, k),
            id - start <= sessions@.len(),
        decreases sessions@.len() - (id - start),
    {
        let n = sessions.len();
        let mut taken = false;
        let mut i: usize = 0;
        while i < n
            invariant
                n == sessions@.len(),
                i <= n,
                taken == exists|k: int| 0 <= k < i && #[trigger] sessions@[k].id == id,
            decreases n - i,
        {
            if sessions[i].id == id {
                taken = true;
            }
            i = i + 1;
        }
        if !taken {
            return id;
        }
        proof {
            lemma_taken_ids_bound(sessions@, start, id);
        }
        id = id + 1;
    }
}

/// If every id from `start` through `id` is taken, there are more Sessions
/// than that range holds only when the range is shorter than the list.
proof fn lemma_taken_ids_bound(sessions: Seq<SessionMetadata>, start: u64, id: u64)
    requires
        start <= id,
        forall|k: u64| start <= k <= id ==> id_taken(sessions, k),
    ensures
        id - start + 1 <= sessions.len(),
{
    let ids = Set::new(|k: u64| start <= k <= id);
    let held = Set::new(|i: int| 0 <= i < sessions.len());
    let owner = |k: u64| choose|i: int| 0 <= i < sessions.len() && #[trigger] sessions[i].id == k;
    assert forall|k: u64| ids.contains(k) implies held.contains(owner(k)) by {
        assert(id_taken(sessions, k));
    }
    assert forall|a: u64, b: u64| ids.contains(a) && ids.contains(b) && owner(a) == owner(b) implies a == b by {
        assert(id_taken(sessions, a));
        assert(id_taken(sessions, b));
    }
    vstd::set_lib::lemma_int_range(0, sessions.len() as int);
    assert(held =~= vstd::set_lib::set_int_range(0, sessions.len() as int));
    lemma_u64_range_len(start, id);
    let img = ids.map(owner);
    vstd::set_lib::lemma_map_size(ids, img, owner);
    assert(img.subset_of(held)) by {
        assert forall|y: int| img.contains(y) implies held.contains(y) by {
            let k = choose|k: u64| ids.contains(k) && owner(k) == y;
        }
    }
    vstd::set_lib::lemma_len_subset(img, held);
}

proof fn lemma_u64_range_len(start: u64, id: u64)
    requires
        start <= id,
    ensures
        Set::new(|k: u64| start <= k <= id).finite(),
        Set::new(|k: u64| start <= k <= id).len() == id - start + 1,
    decreases id - start,
{
    let s = Set::new(|k: u64| start <= k <= id);
    if id == start {
        assert(s =~= set![start]);
    } else {
        lemma_u64_range_len(start, (id - 1) as u64);
        let t = Set::new(|k: u64| start <= k <= (id - 1) as u64);
        assert(s =~= t.insert(id));
    }
}

/// The name a Session gets unless given one, `Session-{id}`.
pub fn default_session_name(id: u64) -> (r: String)
    ensures
        r@ == "Session-"@ + decimal_text(id as nat),
{
    let mut name = String::from_str("Session-");
    let digits = u64_text(id);
    name.append(digits.as_str());
    name
}

/// The tags a manually created Session starts with: the first Session of a
/// workspace gets `default`, any later one none.
pub fn initial_session_tags(existing_sessions: usize) -> (r: Vec<String>)
    ensures
        existing_sessions == 0 ==> r.deep_view() == seq!["default"@],
        existing_sessions > 0 ==> r@.len() == 0,
{
    let mut tags: Vec<String> = Vec::new();
    if existing_sessions == 0 {
        tags.push(String::from_str("default"));
        assert(tags.deep_view() =~= seq!["default"@]);
    }
    tags
}

/// Whether a Session carries `tag`.
pub open spec fn has_tag(s: SessionMetadata, tag: Seq<char>) -> bool {
    s.tags.deep_view().contains(tag)
}

fn carries_tag(s: &SessionMetadata, tag: &str) -> (r: bool)
    ensures
        r == has_tag(*s, tag@),
{
    let n = s.tags.len();
    let mut i: usize = 0;
    while i < n
        invariant
            n == s.tags@.len(),
            i <= n,
            forall|k: int| 0 <= k < i ==> s.tags@[k]@ != tag@,
        decreases n - i,
    {
        if str_eq(s.tags[i].as_str(), tag) {
            assert(s.tags.deep_view()[i as int] == tag@);
            return true;
        }
        i = i + 1;
    }
    assert forall|k: int| 0 <= k < s.tags.deep_view().len() implies s.tags.deep_view()[k] != tag@ by {
        assert(s.tags.deep_view()[k] == s.tags@[k]@);
    }
    false
}

/// The index of the first Session that carries `tag`, the one a routing tag selects.
pub fn session_for_tag(sessions: &Vec<SessionMetadata>, tag: &str) -> (r: Option<usize>)
    ensures
        match r {
            Some(i) => i < sessions@.len() && has_tag(sessions@[i as int], tag@) && forall|k: int|
                0 <= k < i ==> !has_tag(#[trigger] sessions@[k], tag@),
            None => forall|k: int| 0 <= k < sessions@.len() ==> !has_tag(#[trigger] sessions@[k], tag@),
        },
{
    let n = sessions.len();
    let mut i: usize = 0;
    while i < n
        invariant
            n == sessions@.len(),
            i <= n,
            forall|k: int| 0 <= k < i ==> !has_tag(#[trigger] sessions@[k], tag@),
        decreases n - i,
    {
        if carries_tag(&sessions[i], tag) {
            return Some(i);
        }
        i = i + 1;
    }
    None
}

/// Tags in ascending order, each once.
pub open spec fn sorted_tags(t: Seq<Seq<char>>) -> bool {
    forall|i: int, j: int| 0 <= i < j < t.len() ==> seq_lt(#[trigger] t[i], #[trigger] t[j])
}

/// The tags sorted and without duplicates.
pub fn sort_tags(tags: &Vec<String>) -> (r: Vec<String>)
    ensures
        sorted_tags(r.deep_view()),
        forall|t: Seq<char>| #[trigger] r.deep_view().contains(t) == tags.deep_view().contains(t),
{
    let mut set: StrMap<bool> = StrMap::new();
    let n = tags.len();
    let mut i: usize = 0;
    while i < n
        invariant
            n == tags@.len(),
            i <= n,
            forall|t: Seq<char>| #[trigger] has_key(set@, t) == tags.deep_view().subrange(0, i as int).contains(t),
        decreases n - i,
    {
        let ghost before = tags.deep_view().subrange(0, i as int);
        let ghost after = tags.deep_view().subrange(0, i + 1);
        assert(after == before.push(tags[i as int]@));
        set.insert(tags[i].clone(), true);
        assert forall|t: Seq<char>| #[trigger] has_key(set@, t) == after.contains(t) by {
            if t == tags[i as int]@ {
                assert(after[i as int] == t);
            } else {
                if before.contains(t) {
                    let k = choose|k: int| 0 <= k < before.len() && before[k] == t;
                    assert(after[k] == t);
                }
                if after.contains(t) {
                    let k = choose|k: int| 0 <= k < after.len() && after[k] == t;
                    assert(before[k] == t);
                }
            }
        }
        i = i + 1;
    }
    assert(tags.deep_view().subrange(0, n as int) == tags.deep_view());
    proof {
        use_type_invariant(&set);
        StrMap::lemma_inv(set);
    }
    let m = set.len();
    let mut out: Vec<String> = Vec::new();
    let mut j: usize = 0;
    while j < m
        invariant
            m == set@.len(),
            j <= m,
            keys_sorted(set@),
            out.deep_view() == set@.subrange(0, j as int).map_values(|e: (Seq<char>, bool)| e.0),
        decreases m - j,
    {
        let ghost prev = out.deep_view();
        let key = set.key_at(j).clone();
        assert(key@ == set@[j as int].0);
        out.push(key);
        assert(out.deep_view() =~= prev.push(set@[j as int].0));
        assert(set@.subrange(0, j + 1).map_values(|e: (Seq<char>, bool)| e.0) =~= set@.subrange(0, j as int).map_values(|e: (Seq<char>, bool)| e.0).push(set@[j as int].0));
        j = j + 1;
    }
    assert(set@.subrange(0, m as int) == set@);
    assert forall|t: Seq<char>| #[trigger] out.deep_view().contains(t) == tags.deep_view().contains(t) by {
        if out.deep_view().contains(t) {
            let k = choose|k: int| 0 <= k < out.deep_view().len() && out.deep_view()[k] == t;
            assert(set@[k].0 == t);
            assert(has_key(set@, t));
        }
        if has_key(set@, t) {
            let k = choose|k: int| 0 <= k < set@.len() && #[trigger] set@[k].0 == t;
            assert(out.deep_view()[k] == t);
        }
    }
    out
}

/// The tags of `tags` that are not in `taken`, in order.
pub open spec fn without_tags(tags: Seq<Seq<char>>, taken: Seq<Seq<char>>) -> Seq<Seq<char>> {
    tags.filter(|t: Seq<char>| !taken.contains(t))
}

fn copy_optional(s: &Option<String>) -> (r: Option<String>)
    ensures
        r == *s,
{
    match s {
        Some(v) => Some(v.clone()),
        None => None,
    }
}

/// A copy of a Session's metadata.
pub fn copy_session(s: &SessionMetadata) -> (r: SessionMetadata)
    ensures
        r.id == s.id,
        r.name == s.name,
        r.created_at == s.created_at,
        r.description == s.description,
        r.tags.deep_view() == s.tags.deep_view(),
{
    SessionMetadata {
        id: s.id,
        name: s.name.clone(),
        created_at: s.created_at,
        description: copy_optional(&s.description),
        tags: crate::text::copy_strings(&s.tags),
    }
}

fn retain_tags(tags: &Vec<String>, taken: &Vec<String>) -> (r: Vec<String>)
    ensures
        r.deep_view() == without_tags(tags.deep_view(), taken.deep_view()),
{
    let n = tags.len();
    let mut out: Vec<String> = Vec::new();
    let mut i: usize = 0;
    let ghost all = tags.deep_view();
    let ghost removed = taken.deep_view();
    while i < n
        invariant
            n == all.len(),
            all == tags.deep_view(),
            removed == taken.deep_view(),
            i <= n,
            out.deep_view() == without_tags(all.subrange(0, i as int), removed),
        decreases n - i,
    {
        let ghost sub = all.subrange(0, i + 1);
        assert(sub.drop_last() == all.subrange(0, i as int));
        reveal(Seq::filter);
        let mut found = false;
        let m = taken.len();
        let mut k: usize = 0;
        while k < m
            invariant
                m == removed.len(),
                removed == taken.deep_view(),
                k <= m,
                found == removed.subrange(0, k as int).contains(tags[i as int]@),
                i < tags@.len(),
            decreases m - k,
        {
            let ghost before = removed.subrange(0, k as int);
            assert(removed.subrange(0, k + 1) == before.push(removed[k as int]));
            if str_eq(taken[k].as_str(), tags[i].as_str()) {
                found = true;
            }
            proof {
                if found {
                    if before.contains(tags[i as int]@) {
                        let w = choose|w: int| 0 <= w < before.len() && before[w] == tags[i as int]@;
                        assert(removed.subrange(0, k + 1)[w] == tags[i as int]@);
                    } else {
                        assert(removed.subrange(0, k + 1)[k as int] == tags[i as int]@);
                    }
                } else {
                    if removed.subrange(0, k + 1).contains(tags[i as int]@) {
                        let w = choose|w: int| 0 <= w < k + 1 && #[trigger] removed.subrange(0, k + 1)[w] == tags[i as int]@;
                        if w < k {
                            assert(before[w] == tags[i as int]@);
                        }
                    }
                }
            }
            k = k + 1;
        }
        assert(removed.subrange(0, m as int) == removed);
        let ghost prev = out.deep_view();
        if !found {
            out.push(tags[i].clone());
            assert(out.deep_view() =~= prev.push(all[i as int]));
        }
        assert(out.deep_view() =~= without_tags(sub, removed));
        i = i + 1;
    }
    assert(all.subrange(0, n as int) == all);
    out
}

/// The message for a Session that does not exist, `session {id} not found`.
pub open spec fn session_not_found(id: u64) -> Seq<char> {
    "session "@ + decimal_text(id as nat) + " not found"@
}

fn not_found_message(id: u64) -> (r: String)
    ensures
        r@ == session_not_found(id),
{
    let mut m = String::from_str("session ");
    let digits = u64_text(id);
    m.append(digits.as_str());
    m.append(" not found");
    m
}

fn position_of_session(sessions: &Vec<SessionMetadata>, id: u64) -> (r: Option<usize>)
    ensures
        match r {
            Some(i) => i < sessions@.len() && sessions@[i as int].id == id,
            None => !id_taken(sessions@, id),
        },
{
    let n = sessions.len();
    let mut i: usize = 0;
    while i < n
        invariant
            n == sessions@.len(),
            i <= n,
            forall|k: int| 0 <= k < i ==> #[trigger] sessions@[k].id != id,
        decreases n - i,
    {
        if sessions[i].id == id {
            return Some(i);
        }
        i = i + 1;
    }
    None
}

fn first_invalid_tag(tags: &Vec<String>) -> (r: Result<(), String>)
    ensures
        match r {
            Ok(()) => forall|i: int| 0 <= i < tags@.len() ==> valid_tag(#[trigger] tags@[i]@),
            Err(m) => exists|i: int| 0 <= i < tags@.len() && !valid_tag(#[trigger] tags@[i]@)
                && m@ == "tag must match ^[a-z0-9_]{1,20}$"@,
        },
{
    let n = tags.len();
    let mut i: usize = 0;
    while i < n
        invariant
            n == tags@.len(),
            i <= n,
            forall|k: int| 0 <= k < i ==> valid_tag(#[trigger] tags@[k]@),
        decreases n - i,
    {
        validate_tag(tags[i].as_str())?;
        i = i + 1;
    }
    Ok(())
}

/// A Session's metadata as plain values: id, name, creation time,
/// description and tags.
pub open spec fn meta_view(s: SessionMetadata) -> (u64, Seq<char>, u64, Option<Seq<char>>, Seq<Seq<char>>) {
    (
        s.id,
        s.name@,
        s.created_at,
        match s.description {
            Some(d) => Some(d@),
            None => None,
        },
        s.tags.deep_view(),
    )
}

/// A new Session's record: the first free id from `start`, the given name or
/// `Session-{id}`, and the given creation time, description and tags.
pub fn new_session_record(
    sessions: &Vec<SessionMetadata>,
    start: u64,
    created_at: u64,
    name: Option<String>,
    description: Option<String>,
    tags: Vec<String>,
) -> (r: SessionMetadata)
    requires
        start + sessions@.len() <= u64::MAX,
    ensures
        start <= r.id <= start + sessions@.len(),
        !id_taken(sessions@, r.id),
        forall|id: u64| start <= id < r.id ==> id_taken(sessions@, id),
        r.name@ == match name {
            Some(n) => n@,
            None => "Session-"@ + decimal_text(r.id as nat),
        },
        r.created_at == created_at,
        r.description == description,
        r.tags == tags,
{
    let id = next_session_id(sessions, start);
    let name = match name {
        Some(n) => n,
        None => default_session_name(id),
    };
    SessionMetadata { id, name, created_at, description, tags }
}

/// The description of a Session that a routing script's tag created.
pub open spec fn tag_session_description(script_name: Seq<char>) -> Seq<char> {
    "由分流脚本「"@ + script_name + "」自动创建"@
}

/// Where a routing tag leads: the Session that carries it, or a Session to
/// create for it.
#[derive(Debug, Clone, PartialEq, Eq)]
pub enum TagSession {
    /// The position of the first Session with the tag.
    Existing(usize),
    /// A new Session named after the tag, carrying only that tag.
    Create { name: String, description: String, tags: Vec<String> },
}

/// What resolving `tag` for the routing script `script_name` gives: the error
/// for an invalid tag, else the first Session that carries it, else a Session
/// to create, named after the tag, described by the script's name and
/// carrying only the tag.
pub open spec fn tag_resolved(
    sessions: Seq<SessionMetadata>,
    tag: Seq<char>,
    script_name: Seq<char>,
    r: Result<TagSession, String>,
) -> bool {
    match r {
        Err(m) => !valid_tag(tag) && m@ == "tag must match ^[a-z0-9_]{1,20}$"@,
        Ok(TagSession::Existing(i)) => valid_tag(tag) && i < sessions.len() && has_tag(sessions[i as int], tag)
            && forall|k: int| 0 <= k < i ==> !has_tag(#[trigger] sessions[k], tag),
        Ok(TagSession::Create { name, description, tags }) => valid_tag(tag) && (forall|k: int|
            0 <= k < sessions.len() ==> !has_tag(#[trigger] sessions[k], tag)) && name@ == tag
            && description@ == tag_session_description(script_name) && tags.deep_view() == seq![tag],
    }
}

/// Resolves a tag a routing script named: a valid tag goes to the first
/// Session that carries it; when none does, a Session named after it is
/// created, described by the script's name.
pub fn resolve_tag_session(sessions: &Vec<SessionMetadata>, tag: &str, script_name: &str) -> (r: Result<
    TagSession,
    String,
>)
    ensures
        tag_resolved(sessions@, tag@, script_name@, r),
{
    validate_tag(tag)?;
    match session_for_tag(sessions, tag) {
        Some(i) => Ok(TagSession::Existing(i)),
        None => {
            let mut description = String::from_str("由分流脚本「");
            description.append(script_name);
            description.append("」自动创建");
            let mut tags: Vec<String> = Vec::new();
            tags.push(String::from_str(tag));
            assert(tags.deep_view() =~= seq![tag@]);
            Ok(TagSession::Create { name: String::from_str(tag), description, tags })
        },
    }
}

/// A sorted tag list is fixed by which tags it holds: two sorted lists with
/// the same tags are the same list. So the tags `update_session` stores are
/// exactly the given tags, sorted, each once.
pub proof fn law_sorted_tags_are_determined_by_contents(a: Seq<Seq<char>>, b: Seq<Seq<char>>)
    requires
        sorted_tags(a),
        sorted_tags(b),
        forall|x: Seq<char>| #[trigger] a.contains(x) == b.contains(x),
    ensures
        a == b,
    decreases a.len(),
{
    if a.len() == 0 {
        if b.len() > 0 {
            assert(b.contains(b[0]));
            assert(a.contains(b[0]));
        }
        assert(a =~= b);
    } else {
        assert(a.contains(a[0]));
        assert(b.contains(a[0]));
        assert(b.len() > 0);
        assert(b.contains(b[0]));
        assert(a.contains(b[0]));
        if a[0] != b[0] {
            let k = choose|k: int| 0 <= k < b.len() && b[k] == a[0];
            let m = choose|m: int| 0 <= m < a.len() && a[m] == b[0];
            assert(k > 0 && m > 0);
            assert(seq_lt(b[0], b[k]));
            assert(seq_lt(a[0], a[m]));
            lemma_seq_lt_transitive(a[0], b[0], a[0]);
            lemma_seq_lt_irreflexive(a[0]);
        }
        let ta = a.drop_first();
        let tb = b.drop_first();
        assert(sorted_tags(ta)) by {
            assert forall|i: int, j: int| 0 <= i < j < ta.len() implies seq_lt(#[trigger] ta[i], #[trigger] ta[j]) by {
                assert(ta[i] == a[i + 1] && ta[j] == a[j + 1]);
            }
        }
        assert(sorted_tags(tb)) by {
            assert forall|i: int, j: int| 0 <= i < j < tb.len() implies seq_lt(#[trigger] tb[i], #[trigger] tb[j]) by {
                assert(tb[i] == b[i + 1] && tb[j] == b[j + 1]);
            }
        }
        assert forall|x: Seq<char>| #[trigger] ta.contains(x) == tb.contains(x) by {
            if ta.contains(x) {
                let i = choose|i: int| 0 <= i < ta.len() && ta[i] == x;
                assert(a[i + 1] == x);
                assert(seq_lt(a[0], a[i + 1]));
                lemma_seq_lt_irreflexive(x);
                assert(x != b[0]);
                assert(a.contains(x));
                assert(b.contains(x));
                let j = choose|j: int| 0 <= j < b.len() && b[j] == x;
                assert(j > 0);
                assert(tb[j - 1] == x);
            }
            if tb.contains(x) {
                let i = choose|i: int| 0 <= i < tb.len() && tb[i] == x;
                assert(b[i + 1] == x);
                assert(seq_lt(b[0], b[i + 1]));
                lemma_seq_lt_irreflexive(x);
                assert(x != a[0]);
                assert(b.contains(x));
                assert(a.contains(x));
                let j = choose|j: int| 0 <= j < a.len() && a[j] == x;
                assert(j > 0);
                assert(ta[j - 1] == x);
            }
        }
        law_sorted_tags_are_determined_by_contents(ta, tb);
        assert(a =~= seq![a[0]] + ta);
        assert(b =~= seq![b[0]] + tb);
    }
}

/// Resolve-or-create is idempotent: once the Session a tag asked for is added
/// with the tags it was given, resolving the tag again, from any script,
/// finds that Session and creates nothing.
pub proof fn law_resolve_or_create_is_idempotent(
    sessions: Seq<SessionMetadata>,
    tag: Seq<char>,
    script_name: Seq<char>,
    asked: TagSession,
    created: SessionMetadata,
    later_script: Seq<char>,
    again: Result<TagSession, String>,
)
    requires
        tag_resolved(sessions, tag, script_name, Ok(asked)),
        asked matches TagSession::Create { tags, .. } && created.tags.deep_view() == tags.deep_view(),
        tag_resolved(sessions.push(created), tag, later_script, again),
    ensures
        again == Ok::<TagSession, String>(TagSession::Existing(sessions.len() as usize)),
{
    let all = sessions.push(created);
    assert(all[sessions.len() as int] == created);
    assert(created.tags.deep_view()[0] == tag);
    assert(has_tag(all[sessions.len() as int], tag));
    match again {
        Ok(TagSession::Existing(i)) => {
            if i < sessions.len() {
                assert(all[i as int] == sessions[i as int]);
            }
        },
        Ok(TagSession::Create { .. }) => {
            assert(!has_tag(all[sessions.len() as int], tag));
        },
        Err(_) => {},
    }
}

/// Removes the Session with this id and returns it; fails, changing nothing,
/// when there is none.
pub fn remove_session(sessions: &mut Vec<SessionMetadata>, id: u64) -> (r: Result<SessionMetadata, String>)
    ensures
        match r {
            Ok(s) => exists|i: int|
                0 <= i < old(sessions)@.len() && #[trigger] old(sessions)@[i].id == id && s == old(sessions)@[i]
                    && final(sessions)@ == old(sessions)@.remove(i),
            Err(m) => !id_taken(old(sessions)@, id) && m@ == session_not_found(id) && final(sessions)@ == old(
                sessions,
            )@,
        },
{
    match position_of_session(sessions, id) {
        Some(i) => {
            let removed = sessions.remove(i);
            Ok(removed)
        },
        None => Err(not_found_message(id)),
    }
}

/// Updates a Session's name, description and tags. New tags must be valid;
/// they are stored sorted and without duplicates, and they move to this
/// Session: every other Session loses them.
pub fn update_session(
    sessions: &mut Vec<SessionMetadata>,
    id: u64,
    name: Option<String>,
    description: Option<Option<String>>,
    tags: Option<Vec<String>>,
) -> (r: Result<SessionMetadata, String>)
    ensures
        final(sessions)@.len() == old(sessions)@.len(),
        match r {
            Err(m) => final(sessions)@ == old(sessions)@ && ((!id_taken(old(sessions)@, id) && m@
                == session_not_found(id)) || (id_taken(old(sessions)@, id) && m@
                == "tag must match ^[a-z0-9_]{1,20}$"@ && (tags matches Some(t) && exists|k: int|
                0 <= k < t@.len() && !valid_tag(#[trigger] t@[k]@)))),
            Ok(next) => exists|i: int|
                0 <= i < old(sessions)@.len() && #[trigger] old(sessions)@[i].id == id && meta_view(
                    final(sessions)@[i],
                ) == meta_view(next) && next.id == id && next.created_at == old(sessions)@[i].created_at
                    && next.name@ == match name {
                    Some(n) => n@,
                    None => old(sessions)@[i].name@,
                } && meta_view(next).3 == match description {
                    Some(Some(d)) => Some(d@),
                    Some(None) => None,
                    None => meta_view(old(sessions)@[i]).3,
                } && match tags {
                    None => next.tags.deep_view() == old(sessions)@[i].tags.deep_view() && forall|j: int|
                        0 <= j < final(sessions)@.len() && j != i ==> #[trigger] final(sessions)@[j]
                            == old(sessions)@[j],
                    Some(t) => (forall|k: int| 0 <= k < t@.len() ==> valid_tag(#[trigger] t@[k]@))
                        && sorted_tags(next.tags.deep_view()) && (forall|x: Seq<char>|
                        #[trigger] next.tags.deep_view().contains(x) == t.deep_view().contains(x)) && forall|
                        j: int,
                    |
                        0 <= j < final(sessions)@.len() && j != i ==> #[trigger] meta_view(final(sessions)@[j])
                            == (
                            old(sessions)@[j].id,
                            old(sessions)@[j].name@,
                            old(sessions)@[j].created_at,
                            meta_view(old(sessions)@[j]).3,
                            without_tags(old(sessions)@[j].tags.deep_view(), next.tags.deep_view()),
                        ) && tags_selected_only(final(sessions)@, i, t.deep_view()),
                },
        },
{
    let index = match position_of_session(sessions, id) {
        Some(i) => i,
        None => return Err(not_found_message(id)),
    };
    let mut next = copy_session(&sessions[index]);
    match name {
        Some(n) => next.name = n,
        None => {},
    }
    match description {
        Some(d) => next.description = d,
        None => {},
    }
    match tags {
        None => {
            sessions.set(index, copy_session(&next));
            Ok(next)
        },
        Some(t) => {
            match first_invalid_tag(&t) {
                Ok(()) => {},
                Err(m) => return Err(m),
            }
            let sorted = sort_tags(&t);
            next.tags = sorted;
            let n = sessions.len();
            let mut j: usize = 0;
            let ghost old_sessions = sessions@;
            while j < n
                invariant
                    n == sessions@.len(),
                    n == old_sessions.len(),
                    index < n,
                    j <= n,
                    forall|k: int| j <= k < n ==> #[trigger] sessions@[k] == old_sessions[k],
                    forall|k: int|
                        0 <= k < j && k != index ==> #[trigger] meta_view(sessions@[k]) == (
                            old_sessions[k].id,
                            old_sessions[k].name@,
                            old_sessions[k].created_at,
                            meta_view(old_sessions[k]).3,
                            without_tags(old_sessions[k].tags.deep_view(), next.tags.deep_view()),
                        ),
                decreases n - j,
            {
                if j != index {
                    let mut other = copy_session(&sessions[j]);
                    other.tags = retain_tags(&sessions[j].tags, &next.tags);
                    sessions.set(j, other);
                }
                j = j + 1;
            }
            sessions.set(index, copy_session(&next));
            proof {
                let moved = next.tags.deep_view();
                assert forall|x: Seq<char>, j: int|
                    #![trigger t.deep_view().contains(x), sessions@[j]]
                    t.deep_view().contains(x) && 0 <= j < n && j != index implies !has_tag(sessions@[j], x) by {
                    law_moved_tags_leave_other_sessions(old_sessions[j].tags.deep_view(), moved);
                    assert(meta_view(sessions@[j]).4 == sessions@[j].tags.deep_view());
                    assert(moved.contains(x));
                }
                assert forall|x: Seq<char>| #[trigger] t.deep_view().contains(x) implies has_tag(sessions@[index as int], x) by {
                    assert(meta_view(sessions@[index as int]).4 == sessions@[index as int].tags.deep_view());
                    assert(moved.contains(x));
                }
            }
            Ok(next)
        },
    }
}

/// Each of `tags` is carried by the Session at `i` and by no other, so it
/// selects that Session.
pub open spec fn tags_selected_only(sessions: Seq<SessionMetadata>, i: int, tags: Seq<Seq<char>>) -> bool {
    &&& forall|x: Seq<char>| #[trigger] tags.contains(x) ==> has_tag(sessions[i], x)
    &&& forall|x: Seq<char>, j: int|
        #![trigger tags.contains(x), sessions[j]]
        tags.contains(x) && 0 <= j < sessions.len() && j != i ==> !has_tag(sessions[j], x)
}

/// After tags move to a Session, no other Session keeps any of them.
pub proof fn law_moved_tags_leave_other_sessions(other: Seq<Seq<char>>, moved: Seq<Seq<char>>)
    ensures
        forall|x: Seq<char>| #[trigger] without_tags(other, moved).contains(x) ==> !moved.contains(x),
{
    assert forall|x: Seq<char>| #[trigger] without_tags(other, moved).contains(x) implies !moved.contains(x) by {
        let w = without_tags(other, moved);
        let k = choose|k: int| 0 <= k < w.len() && w[k] == x;
        other.lemma_filter_pred(|t: Seq<char>| !moved.contains(t), k);
    }
}

/// The script kind of an interceptor phase.
pub fn interceptor_script_kind(kind: InterceptorKind) -> (r: ScriptKind)
    ensures
        r == match kind {
            InterceptorKind::Request => ScriptKind::RequestInterceptor,
            InterceptorKind::Response => ScriptKind::ResponseInterceptor,
        },
{
    match kind {
        InterceptorKind::Request => ScriptKind::RequestInterceptor,
        InterceptorKind::Response => ScriptKind::ResponseInterceptor,
    }
}

/// The script names of a chain, in order.
pub open spec fn chain_names(entries: Seq<SessionInterceptor>) -> Seq<Seq<char>> {
    entries.map_values(|e: SessionInterceptor| e.name@)
}

/// A chain's entries marked by whether a script of their name exists among
/// `available`, in chain order.
#[verifier::spinoff_prover]
pub fn resolve_chain(entries: &Vec<SessionInterceptor>, available: &Vec<String>) -> (r: Vec<
    ResolvedSessionInterceptor,
>)
    ensures
        r@.len() == entries@.len(),
        forall|k: int|
            0 <= k < r@.len() ==> #[trigger] r@[k].name@ == entries@[k].name@ && r@[k].enabled
                == entries@[k].enabled && r@[k].valid == available.deep_view().contains(entries@[k].name@),
{
    let n = entries.len();
    let mut out: Vec<ResolvedSessionInterceptor> = Vec::new();
    let mut i: usize = 0;
    while i < n
        invariant
            n == entries@.len(),
            i <= n,
            out@.len() == i,
            forall|k: int|
                0 <= k < i ==> #[trigger] out@[k].name@ == entries@[k].name@ && out@[k].enabled
                    == entries@[k].enabled && out@[k].valid == available.deep_view().contains(entries@[k].name@),
        decreases n - i,
    {
        let name = entries[i].name.as_str();
        let m = available.len();
        let mut found = false;
        let mut j: usize = 0;
        while j < m
            invariant
                m == available@.len(),
                j <= m,
                found == exists|a: int| 0 <= a < j && #[trigger] available@[a]@ == name@,
            decreases m - j,
        {
            if str_eq(available[j].as_str(), name) {
                found = true;
            }
            j = j + 1;
        }
        proof {
            let dv = available.deep_view();
            if found {
                let a = choose|a: int| 0 <= a < m && #[trigger] available@[a]@ == name@;
                assert(dv[a] == name@);
            } else {
                assert forall|a: int| 0 <= a < dv.len() implies dv[a] != name@ by {
                    assert(dv[a] == available@[a]@);
                }
            }
        }
        out.push(
            ResolvedSessionInterceptor { name: entries[i].name.clone(), enabled: entries[i].enabled, valid: found },
        );
        i = i + 1;
    }
    out
}

/// A chain no longer than the limit that names each script once.
pub open spec fn chain_ok(entries: Seq<SessionInterceptor>) -> bool {
    &&& entries.len() <= MAX_SESSION_INTERCEPTORS_PER_KIND
    &&& forall|i: int, j: int| 0 <= i < j < entries.len() ==> #[trigger] entries[i].name@ != #[trigger] entries[j].name@
}

/// An interceptor chain holds at most 12 entries and names each script once:
/// a longer chain, or one naming a script twice, is refused; any shorter chain
/// of distinct scripts is accepted.
pub proof fn law_chain_limits(entries: Seq<SessionInterceptor>, i: int, j: int)
    ensures
        entries.len() > 12 ==> !chain_ok(entries),
        0 <= i < j < entries.len() && entries[i].name@ == entries[j].name@ ==> !chain_ok(entries),
        entries.len() <= 12 && (forall|a: int, b: int|
            0 <= a < b < entries.len() ==> #[trigger] entries[a].name@ != #[trigger] entries[b].name@) ==> chain_ok(
            entries,
        ),
{
}

fn check_chain(entries: &Vec<SessionInterceptor>, label: &str) -> (r: Result<(), String>)
    ensures
        match r {
            Ok(()) => chain_ok(entries@),
            Err(m) => !chain_ok(entries@) && (if entries@.len() > MAX_SESSION_INTERCEPTORS_PER_KIND {
                m@ == label@ + " interceptor chain cannot contain more than 12 entries"@
            } else {
                m@ == label@ + " interceptor chain contains duplicate scripts"@
            }),
        },
{
    let n = entries.len();
    if n > MAX_SESSION_INTERCEPTORS_PER_KIND {
        let mut m = String::from_str(label);
        m.append(" interceptor chain cannot contain more than 12 entries");
        return Err(m);
    }
    let mut i: usize = 0;
    while i < n
        invariant
            n == entries@.len(),
            n <= MAX_SESSION_INTERCEPTORS_PER_KIND,
            i <= n,
            forall|a: int, b: int| 0 <= a < b < i ==> #[trigger] entries@[a].name@ != #[trigger] entries@[b].name@,
        decreases n - i,
    {
        let mut k: usize = 0;
        while k < i
            invariant
                n == entries@.len(),
                n <= MAX_SESSION_INTERCEPTORS_PER_KIND,
                i < n,
                k <= i,
                forall|a: int| 0 <= a < k ==> #[trigger] entries@[a].name@ != entries@[i as int].name@,
            decreases i - k,
        {
            if str_eq(entries[k].name.as_str(), entries[i].name.as_str()) {
                assert(entries@[k as int].name@ == entries@[i as int].name@);
                let mut m = String::from_str(label);
                m.append(" interceptor chain contains duplicate scripts");
                return Err(m);
            }
            k = k + 1;
        }
        i = i + 1;
    }
    Ok(())
}

/// A Session's chains are accepted when each is at most 12 entries long and
/// names each script once; the request chain is checked first.
pub fn validate_session_interceptors(value: &SessionInterceptors) -> (r: Result<(), String>)
    ensures
        r.is_ok() == (chain_ok(value.request@) && chain_ok(value.response@)),
        r matches Err(m) ==> if !chain_ok(value.request@) {
            if value.request@.len() > MAX_SESSION_INTERCEPTORS_PER_KIND {
                m@ == "request interceptor chain cannot contain more than 12 entries"@
            } else {
                m@ == "request interceptor chain contains duplicate scripts"@
            }
        } else if value.response@.len() > MAX_SESSION_INTERCEPTORS_PER_KIND {
            m@ == "response interceptor chain cannot contain more than 12 entries"@
        } else {
            m@ == "response interceptor chain contains duplicate scripts"@
        },
{
    match check_chain(&value.request, "request") {
        Ok(()) => {},
        Err(m) => {
            proof {
                reveal_strlit("request");
                reveal_strlit(" interceptor chain cannot contain more than 12 entries");
                reveal_strlit(" interceptor chain contains duplicate scripts");
                reveal_strlit("request interceptor chain cannot contain more than 12 entries");
                reveal_strlit("request interceptor chain contains duplicate scripts");
                assert("request"@ + " interceptor chain cannot contain more than 12 entries"@
                    =~= "request interceptor chain cannot contain more than 12 entries"@);
                assert("request"@ + " interceptor chain contains duplicate scripts"@
                    =~= "request interceptor chain contains duplicate scripts"@);
            }
            return Err(m);
        },
    }
    let r = check_chain(&value.response, "response");
    proof {
        reveal_strlit("response");
        reveal_strlit(" interceptor chain cannot contain more than 12 entries");
        reveal_strlit(" interceptor chain contains duplicate scripts");
        reveal_strlit("response interceptor chain cannot contain more than 12 entries");
        reveal_strlit("response interceptor chain contains duplicate scripts");
        assert("response"@ + " interceptor chain cannot contain more than 12 entries"@
            =~= "response interceptor chain cannot contain more than 12 entries"@);
        assert("response"@ + " interceptor chain contains duplicate scripts"@
            =~= "response interceptor chain contains duplicate scripts"@);
    }
    r
}

/// A chain without the entries that name `name`.
pub fn remove_chain_entries(entries: &Vec<SessionInterceptor>, name: &str) -> (r: Vec<SessionInterceptor>)
    ensures
        chain_names(r@) == chain_names(entries@).filter(|n: Seq<char>| n != name@),
        forall|k: int| 0 <= k < r@.len() ==> #[trigger] r@[k].name@ != name@,
{
    let n = entries.len();
    let mut out: Vec<SessionInterceptor> = Vec::new();
    let mut i: usize = 0;
    while i < n
        invariant
            n == entries@.len(),
            i <= n,
            chain_names(out@) == chain_names(entries@.subrange(0, i as int)).filter(|m: Seq<char>| m != name@),
            forall|k: int| 0 <= k < out@.len() ==> #[trigger] out@[k].name@ != name@,
        decreases n - i,
    {
        let ghost sub = entries@.subrange(0, i + 1);
        assert(chain_names(sub).drop_last() == chain_names(entries@.subrange(0, i as int)));
        reveal(Seq::filter);
        if !str_eq(entries[i].name.as_str(), name) {
            let ghost prev = out@;
            out.push(SessionInterceptor { name: entries[i].name.clone(), enabled: entries[i].enabled });
            assert(chain_names(out@) =~= chain_names(prev).push(entries@[i as int].name@));
        }
        assert(chain_names(out@) =~= chain_names(sub).filter(|m: Seq<char>| m != name@));
        i = i + 1;
    }
    assert(entries@.subrange(0, n as int) == entries@);
    out
}

/// Whether a Session's filter refers to script `name` of kind `kind`.
pub open spec fn filter_refers_to(filter: SessionFilter, kind: ScriptKind, name: Seq<char>) -> bool {
    match (filter.option, kind) {
        (Some(FilterOption::Column { column: FilterColumn::Script { script_name }, .. }), ScriptKind::Column) =>
            script_name@ == name,
        (Some(FilterOption::Script { script_name }), ScriptKind::Filter) => script_name@ == name,
        _ => false,
    }
}

/// Resets a Session's filter to no filter when it refers to the deleted script.
pub fn replace_filter_reference(filter: &mut SessionFilter, kind: ScriptKind, name: &str)
    ensures
        filter_refers_to(*old(filter), kind, name@) ==> final(filter).option.is_none() && final(filter).input@
            == Seq::<char>::empty(),
        !filter_refers_to(*old(filter), kind, name@) ==> *final(filter) == *old(filter),
{
    let refers = match (&filter.option, kind) {
        (Some(FilterOption::Column { column: FilterColumn::Script { script_name }, .. }), ScriptKind::Column) =>
            str_eq(script_name.as_str(), name),
        (Some(FilterOption::Script { script_name }), ScriptKind::Filter) => str_eq(script_name.as_str(), name),
        _ => false,
    };
    if refers {
        *filter = SessionFilter::default();
    }
}

/// The script a Session filter needs to exist before it is saved: a filter
/// on a column script needs that column script, a script filter its filter
/// script; a built-in column or no filter needs none.
pub fn filter_script_requirement(filter: &SessionFilter) -> (r: Option<(ScriptKind, String)>)
    ensures
        match filter.option {
            Some(FilterOption::Column { column: FilterColumn::Script { script_name }, .. }) => r matches Some(
                (k, n),
            ) && k == ScriptKind::Column && n@ == script_name@,
            Some(FilterOption::Script { script_name }) => r matches Some((k, n)) && k == ScriptKind::Filter && n@
                == script_name@,
            _ => r.is_none(),
        },
{
    match &filter.option {
        Some(FilterOption::Column { column: FilterColumn::Script { script_name }, .. }) => Some(
            (ScriptKind::Column, script_name.clone()),
        ),
        Some(FilterOption::Script { script_name }) => Some((ScriptKind::Filter, script_name.clone())),
        _ => None,
    }
}

/// Whether a Session filter needs a script at all.
pub open spec fn filter_needs_script(filter: SessionFilter) -> bool {
    filter.option matches Some(FilterOption::Column { column: FilterColumn::Script { .. }, .. })
        || filter.option matches Some(FilterOption::Script { .. })
}

/// A filter that refers to a script, as a script filter or a script column,
/// needs that script; one that refers to no script needs none.
pub proof fn law_filters_that_name_scripts_need_them(filter: SessionFilter, kind: ScriptKind, name: Seq<char>)
    ensures
        filter_refers_to(filter, kind, name) ==> filter_needs_script(filter),
        filter.option.is_none() ==> !filter_needs_script(filter),
{
}

/// A stored Session filter as it is read back: kept when it needs no script
/// or its script still exists, reset to no filter when its script is gone.
pub fn repaired_filter(filter: SessionFilter, script_exists: bool) -> (r: SessionFilter)
    ensures
        !filter_needs_script(filter) || script_exists ==> r == filter,
        filter_needs_script(filter) && !script_exists ==> r.option.is_none() && r.input@ == Seq::<char>::empty(),
{
    let needs = match filter_script_requirement(&filter) {
        Some(_) => true,
        None => false,
    };
    if needs && !script_exists {
        SessionFilter::default()
    } else {
        filter
    }
}

/// How many chain entries name `name`.
pub open spec fn uses_of(entries: Seq<SessionInterceptor>, name: Seq<char>) -> nat {
    chain_names(entries).filter(|n: Seq<char>| n == name).len()
}

/// A script's usage counts the chain entries that name it: a chain that never
/// names it uses it zero times, and one more entry adds one use exactly when
/// it names the script.
pub proof fn law_usage_counts(entries: Seq<SessionInterceptor>, e: SessionInterceptor, name: Seq<char>)
    ensures
        (forall|i: int| 0 <= i < entries.len() ==> #[trigger] entries[i].name@ != name) ==> uses_of(entries, name) == 0,
        uses_of(entries.push(e), name) == uses_of(entries, name) + if e.name@ == name {
            1int
        } else {
            0int
        },
{
    reveal(Seq::filter);
    assert(chain_names(entries.push(e)) =~= chain_names(entries).push(e.name@));
    assert(chain_names(entries.push(e)).drop_last() =~= chain_names(entries));
    if forall|i: int| 0 <= i < entries.len() ==> #[trigger] entries[i].name@ != name {
        lemma_name_absent_no_uses(entries, name);
    }
}

proof fn lemma_name_absent_no_uses(entries: Seq<SessionInterceptor>, name: Seq<char>)
    requires
        forall|i: int| 0 <= i < entries.len() ==> #[trigger] entries[i].name@ != name,
    ensures
        uses_of(entries, name) == 0,
    decreases entries.len(),
{
    reveal(Seq::filter);
    if entries.len() > 0 {
        let init = entries.drop_last();
        assert forall|i: int| 0 <= i < init.len() implies #[trigger] init[i].name@ != name by {
            assert(init[i] == entries[i]);
        }
        lemma_name_absent_no_uses(init, name);
        assert(chain_names(entries).drop_last() =~= chain_names(init));
        assert(chain_names(entries).last() == entries[entries.len() - 1].name@);
    }
}

fn count_uses(entries: &Vec<SessionInterceptor>, name: &str) -> (r: usize)
    ensures
        r == uses_of(entries@, name@),
{
    let n = entries.len();
    let mut count: usize = 0;
    let mut i: usize = 0;
    while i < n
        invariant
            n == entries@.len(),
            i <= n,
            count == uses_of(entries@.subrange(0, i as int), name@),
            count <= i,
        decreases n - i,
    {
        let ghost sub = entries@.subrange(0, i + 1);
        assert(chain_names(sub).drop_last() == chain_names(entries@.subrange(0, i as int)));
        reveal(Seq::filter);
        if str_eq(entries[i].name.as_str(), name) {
            count = count + 1;
        }
        i = i + 1;
    }
    assert(entries@.subrange(0, n as int) == entries@);
    count
}

/// The entries of a phase's chain.
pub open spec fn phase_chain(c: SessionInterceptors, kind: InterceptorKind) -> Seq<SessionInterceptor> {
    match kind {
        InterceptorKind::Request => c.request@,
        InterceptorKind::Response => c.response@,
    }
}

/// How many entries name `name` across every Session's chain of a phase.
pub open spec fn total_uses(chains: Seq<SessionInterceptors>, kind: InterceptorKind, name: Seq<char>) -> int
    decreases chains.len(),
{
    if chains.len() == 0 {
        0
    } else {
        total_uses(chains.drop_last(), kind, name) + uses_of(phase_chain(chains.last(), kind), name)
    }
}

/// The interceptor scripts of a phase with how many chain entries across all
/// Sessions use each.
pub fn interceptor_library(
    script_names: &Vec<String>,
    chains: &Vec<SessionInterceptors>,
    kind: InterceptorKind,
) -> (r: Vec<InterceptorLibraryItem>)
    requires
        forall|k: int| 0 <= k < chains@.len() ==> #[trigger] phase_chain(chains@[k], kind).len()
            <= MAX_SESSION_INTERCEPTORS_PER_KIND,
        chains@.len() * MAX_SESSION_INTERCEPTORS_PER_KIND <= usize::MAX,
    ensures
        r@.len() == script_names@.len(),
        forall|k: int|
            0 <= k < r@.len() ==> #[trigger] r@[k].name@ == script_names@[k]@ && r@[k].usage_count
                == total_uses(chains@, kind, script_names@[k]@),
{
    let m = script_names.len();
    let mut out: Vec<InterceptorLibraryItem> = Vec::new();
    let mut j: usize = 0;
    while j < m
        invariant
            m == script_names@.len(),
            j <= m,
            out@.len() == j,
            forall|k: int|
                0 <= k < j ==> #[trigger] out@[k].name@ == script_names@[k]@ && out@[k].usage_count
                    == total_uses(chains@, kind, script_names@[k]@),
            forall|k: int| 0 <= k < chains@.len() ==> #[trigger] phase_chain(chains@[k], kind).len()
                <= MAX_SESSION_INTERCEPTORS_PER_KIND,
            chains@.len() * MAX_SESSION_INTERCEPTORS_PER_KIND <= usize::MAX,
        decreases m - j,
    {
        let name = script_names[j].as_str();
        let n = chains.len();
        let mut total: usize = 0;
        let mut i: usize = 0;
        while i < n
            invariant
                n == chains@.len(),
                i <= n,
                total == total_uses(chains@.subrange(0, i as int), kind, name@),
                total <= i * MAX_SESSION_INTERCEPTORS_PER_KIND,
                forall|k: int| 0 <= k < chains@.len() ==> #[trigger] phase_chain(chains@[k], kind).len()
                    <= MAX_SESSION_INTERCEPTORS_PER_KIND,
                chains@.len() * MAX_SESSION_INTERCEPTORS_PER_KIND <= usize::MAX,
            decreases n - i,
        {
            let ghost sub = chains@.subrange(0, i + 1);
            assert(sub.drop_last() == chains@.subrange(0, i as int));
            let entries = match kind {
                InterceptorKind::Request => &chains[i].request,
                InterceptorKind::Response => &chains[i].response,
            };
            let uses = count_uses(entries, name);
            proof {
                chain_names(entries@).lemma_filter_len(|x: Seq<char>| x == name@);
                assert(phase_chain(chains@[i as int], kind) == entries@);
                assert(uses <= MAX_SESSION_INTERCEPTORS_PER_KIND);
                assert((i + 1) * MAX_SESSION_INTERCEPTORS_PER_KIND <= n * MAX_SESSION_INTERCEPTORS_PER_KIND) by (
                nonlinear_arith)
                    requires
                        i + 1 <= n,
                ;
            }
            total = total + uses;
            i = i + 1;
        }
        assert(chains@.subrange(0, n as int) == chains@);
        out.push(InterceptorLibraryItem { name: script_names[j].clone(), usage_count: total });
        j = j + 1;
    }
    out
}

} // verus!
