//! The state an interceptor script reads and changes, and the journal of the
//! changes it made. Every script operation on a request or response is one of
//! the state transitions below; the scripting engine only calls them.
use vstd::prelude::*;
use vstd::string::*;
use vstd::utf8::encode_utf8;

use crate::asset::Asset;
use crate::headers::{
    ci_eq, find_ci, find_first_ci, header_values, is_first_ci_match, lemma_find_first_ci,
    lemma_find_first_ci_none, no_ci_match, remove_header,
};
use crate::http_syntax::{
    check_method, check_uri, header_name_accepted, header_value_accepted, method_accepted,
    uri_accepted, validate_header_input,
};
use crate::model::{
    BodySourceType, HeaderValues, Modification, RequestData, RequestInterceptorSnapshot,
    RequestTags, ResponseData, ResponseInterceptorSnapshot,
};
use crate::strmap::{has_key, insert_post, keys_sorted, lookup, StrMap};
use crate::text::{copy_strings, lower, lower_char, to_ascii_lowercase};

verus! {

/// A replacement for a message body.
#[derive(Debug, Clone, PartialEq, Eq)]
pub enum BodyReplacement {
    String(String),
    Asset(Asset),
}

/// Where a body comes from, given its replacement if any.
pub open spec fn source_type_of(body: Option<BodyReplacement>) -> BodySourceType {
    match body {
        Some(BodyReplacement::String(content)) => BodySourceType::String { content },
        Some(BodyReplacement::Asset(asset)) => BodySourceType::Asset { asset_id: asset.metadata.id },
        None => BodySourceType::Original,
    }
}

/// A replacement is recorded by what it is: a string by its content, an
/// asset by its identifier; no replacement is the original body.
pub proof fn law_body_sources(content: String, asset: Asset)
    ensures
        source_type_of(Some(BodyReplacement::String(content))) == (BodySourceType::String { content }),
        source_type_of(Some(BodyReplacement::Asset(asset))) == (BodySourceType::Asset {
            asset_id: asset.metadata.id,
        }),
        source_type_of(None) == BodySourceType::Original,
{
}

impl BodyReplacement {
    /// The recorded kind of this replacement.
    pub fn source_type(&self) -> (r: BodySourceType)
        ensures
            r == source_type_of(Some(*self)),
    {
        match self {
            BodyReplacement::String(content) => BodySourceType::String { content: content.clone() },
            BodyReplacement::Asset(asset) => BodySourceType::Asset {
                asset_id: asset.metadata.id.clone(),
            },
        }
    }
}

fn source_type_of_option(body: Option<&BodyReplacement>) -> (r: BodySourceType)
    ensures
        r == match body {
            Some(b) => source_type_of(Some(*b)),
            None => BodySourceType::Original,
        },
{
    match body {
        Some(b) => b.source_type(),
        None => BodySourceType::default(),
    }
}

/// What an interceptor run leaves behind.
#[derive(Debug, Clone)]
pub struct ScriptEffects {
    pub method: Option<String>,
    pub uri: Option<String>,
    pub status: Option<u16>,
    pub headers: HeaderValues,
    pub body: Option<BodyReplacement>,
    pub tags: RequestTags,
    pub modifications: Vec<Modification>,
}

/// Whether a change makes the journal record the state it started from; tag
/// changes do not.
pub open spec fn records_snapshot(m: Modification) -> bool {
    !(m is TagSet)
}

/// One journal entry: the first change that records a snapshot moves the
/// pending snapshot to the front.
pub open spec fn journal_step(
    j: (Option<Modification>, Seq<Modification>),
    m: Modification,
) -> (Option<Modification>, Seq<Modification>) {
    if records_snapshot(m) && j.0.is_some() {
        (None, seq![j.0.unwrap()] + j.1.push(m))
    } else {
        (j.0, j.1.push(m))
    }
}

/// The journal after a sequence of changes.
pub open spec fn journal_replay(
    j: (Option<Modification>, Seq<Modification>),
    ms: Seq<Modification>,
) -> (Option<Modification>, Seq<Modification>)
    decreases ms.len(),
{
    if ms.len() == 0 {
        j
    } else {
        journal_step(journal_replay(j, ms.drop_last()), ms.last())
    }
}

/// Some change in `ms` records a snapshot.
pub open spec fn any_records_snapshot(ms: Seq<Modification>) -> bool {
    exists|i: int| 0 <= i < ms.len() && records_snapshot(#[trigger] ms[i])
}

/// A journal lists the changes in order, preceded by the starting snapshot
/// exactly when some change other than a tag change was made.
pub proof fn law_journal_snapshot_first(initial: Modification, ms: Seq<Modification>)
    ensures
        journal_replay((Some(initial), Seq::empty()), ms) == if any_records_snapshot(ms) {
            (None::<Modification>, seq![initial] + ms)
        } else {
            (Some(initial), ms)
        },
    decreases ms.len(),
{
    if ms.len() > 0 {
        let prefix = ms.drop_last();
        law_journal_snapshot_first(initial, prefix);
        assert(any_records_snapshot(ms) == (any_records_snapshot(prefix) || records_snapshot(ms.last()))) by {
            if any_records_snapshot(ms) {
                let i = choose|i: int| 0 <= i < ms.len() && records_snapshot(#[trigger] ms[i]);
                if i < ms.len() - 1 {
                    assert(prefix[i] == ms[i]);
                }
            }
            if any_records_snapshot(prefix) {
                let i = choose|i: int| 0 <= i < prefix.len() && records_snapshot(#[trigger] prefix[i]);
                assert(prefix[i] == ms[i]);
            }
            if records_snapshot(ms.last()) {
                assert(ms[ms.len() - 1] == ms.last());
            }
        }
        assert(prefix.push(ms.last()) =~= ms);
        assert((seq![initial] + prefix).push(ms.last()) =~= seq![initial] + ms);
    } else {
        assert(!any_records_snapshot(ms));
    }
}

/// What a journal started from `initial` lists after the changes `pushed`:
/// the changes in order, preceded by `initial` exactly when one of them is not
/// a tag change.
pub open spec fn journal_listing(initial: Modification, pushed: Seq<Modification>) -> Seq<Modification> {
    if any_records_snapshot(pushed) {
        seq![initial] + pushed
    } else {
        pushed
    }
}

/// The changes an interceptor made, in order.
pub struct ModificationJournal {
    pending_snapshot: Option<Modification>,
    modifications: Vec<Modification>,
    started_from: Ghost<Modification>,
    changes: Ghost<Seq<Modification>>,
}

impl ModificationJournal {
    /// The snapshot not yet recorded, and the recorded entries.
    pub closed spec fn state(&self) -> (Option<Modification>, Seq<Modification>) {
        (self.pending_snapshot, self.modifications@)
    }

    /// The snapshot the journal was made with.
    pub closed spec fn initial(&self) -> Modification {
        self.started_from@
    }

    /// Every change pushed since the journal was made, in order.
    pub closed spec fn pushed(&self) -> Seq<Modification> {
        self.changes@
    }

    /// The entries are the journal's start replayed through its changes.
    #[verifier::type_invariant]
    spec fn replays_changes(self) -> bool {
        self.state() == journal_replay((Some(self.started_from@), Seq::empty()), self.changes@)
    }

    /// An empty journal that will record `initial_snapshot` before the first
    /// change that is not a tag change.
    pub fn new(initial_snapshot: Modification) -> (r: Self)
        ensures
            r.state() == (Some(initial_snapshot), Seq::<Modification>::empty()),
            r.initial() == initial_snapshot,
            r.pushed() == Seq::<Modification>::empty(),
    {
        ModificationJournal {
            pending_snapshot: Some(initial_snapshot),
            modifications: Vec::new(),
            started_from: Ghost(initial_snapshot),
            changes: Ghost(Seq::empty()),
        }
    }

    /// A journal for a request interceptor, starting from `request` and the
    /// current body replacement.
    pub fn for_request(request: &RequestData, body: Option<&BodyReplacement>) -> (r: Self)
        ensures
            r.state().1.len() == 0,
            r.state().0 matches Some(Modification::Snapshot { request: Some(snapshot), response: None })
                && snapshot.method == request.method && snapshot.uri == request.uri
                && snapshot.version == request.version && snapshot.headers@ == request.headers@
                && snapshot.body == match body {
                Some(b) => source_type_of(Some(*b)),
                None => BodySourceType::Original,
            },
    {
        Self::new(
            Modification::Snapshot {
                request: Some(
                    RequestInterceptorSnapshot {
                        method: request.method.clone(),
                        uri: request.uri.clone(),
                        version: request.version.clone(),
                        headers: request.headers.duplicate(),
                        body: source_type_of_option(body),
                    },
                ),
                response: None,
            },
        )
    }

    /// A journal for a response interceptor, starting from `response` and the
    /// current body replacement.
    pub fn for_response(response: &ResponseData, body: Option<&BodyReplacement>) -> (r: Self)
        ensures
            r.state().1.len() == 0,
            r.state().0 matches Some(Modification::Snapshot { request: None, response: Some(snapshot) })
                && snapshot.status == response.status && snapshot.version == response.version
                && snapshot.headers@ == response.headers@ && snapshot.body == match body {
                Some(b) => source_type_of(Some(*b)),
                None => BodySourceType::Original,
            },
    {
        Self::new(
            Modification::Snapshot {
                request: None,
                response: Some(
                    ResponseInterceptorSnapshot {
                        status: response.status,
                        version: response.version.clone(),
                        headers: response.headers.duplicate(),
                        body: source_type_of_option(body),
                    },
                ),
            },
        )
    }

    /// Records one change.
    pub fn push(&mut self, modification: Modification)
        ensures
            final(self).state() == journal_step(old(self).state(), modification),
            final(self).initial() == old(self).initial(),
            final(self).pushed() == old(self).pushed().push(modification),
    {
        proof {
            use_type_invariant(&*self);
        }
        let records = match &modification {
            Modification::TagSet { .. } => false,
            _ => true,
        };
        let mut taken = ModificationJournal::new(
            Modification::TagSet { key: String::new(), value: String::new() },
        );
        std::mem::swap(self, &mut taken);
        let ModificationJournal { pending_snapshot, mut modifications, started_from, changes } = taken;
        let ghost before = (pending_snapshot, modifications@);
        let mut pending = pending_snapshot;
        if records {
            match pending {
                Some(snapshot) => {
                    modifications.insert(0, snapshot);
                    pending = None;
                },
                None => {},
            }
        }
        modifications.push(modification);
        proof {
            if records && before.0.is_some() {
                assert(modifications@ =~= seq![before.0.unwrap()] + before.1.push(modification));
            }
            assert(changes@.push(modification).drop_last() =~= changes@);
        }
        *self = ModificationJournal {
            pending_snapshot: pending,
            modifications,
            started_from,
            changes: Ghost(changes@.push(modification)),
        };
    }

    /// The recorded entries, in order: the changes pushed since `new`,
    /// preceded by the starting snapshot exactly when one of them is not a
    /// tag change.
    pub fn snapshot(&self) -> (r: &Vec<Modification>)
        ensures
            r@ == self.state().1,
            r@ == journal_listing(self.initial(), self.pushed()),
    {
        proof {
            use_type_invariant(self);
            law_journal_snapshot_first(self.initial(), self.pushed());
        }
        &self.modifications
    }

    /// The recorded entries, in order, as `snapshot` lists them.
    pub fn into_modifications(self) -> (r: Vec<Modification>)
        ensures
            r@ == self.state().1,
            r@ == journal_listing(self.initial(), self.pushed()),
    {
        proof {
            use_type_invariant(&self);
            law_journal_snapshot_first(self.initial(), self.pushed());
        }
        self.modifications
    }
}

/// `a` is `b` without the first header that matches `name` up to ASCII case.
pub open spec fn header_removed_post(
    b: Seq<(Seq<char>, Seq<Seq<char>>)>,
    a: Seq<(Seq<char>, Seq<Seq<char>>)>,
    name: Seq<char>,
) -> bool {
    match find_first_ci(b, name) {
        Some(i) => a == b.remove(i),
        None => a == b,
    }
}

/// `a` is `b` after setting header `name` to the single value `value`: the
/// first header matching `name` is removed and the lowercase name stored.
pub open spec fn header_set_post(
    b: Seq<(Seq<char>, Seq<Seq<char>>)>,
    a: Seq<(Seq<char>, Seq<Seq<char>>)>,
    name: Seq<char>,
    value: Seq<char>,
) -> bool {
    exists|mid: Seq<(Seq<char>, Seq<Seq<char>>)>|
        header_removed_post(b, mid, name) && #[trigger] insert_post(mid, a, lower(name), seq![value])
}

/// `a` is `b` after appending `value` to header `name`: to the values of the
/// first header matching `name`, or as a new lowercase header.
pub open spec fn header_append_post(
    b: Seq<(Seq<char>, Seq<Seq<char>>)>,
    a: Seq<(Seq<char>, Seq<Seq<char>>)>,
    name: Seq<char>,
    value: Seq<char>,
) -> bool {
    match find_first_ci(b, name) {
        Some(i) => a == b.update(i, (b[i].0, b[i].1.push(value))),
        None => insert_post(b, a, lower(name), seq![value]),
    }
}

/// At most one header name matches `name` up to ASCII case.
pub open spec fn at_most_one_ci<V>(s: Seq<(Seq<char>, V)>, name: Seq<char>) -> bool {
    forall|i: int, j: int|
        0 <= i < s.len() && 0 <= j < s.len() && ci_eq(#[trigger] s[i].0, name) && ci_eq(
            #[trigger] s[j].0,
            name,
        ) ==> i == j
}

/// Lowercasing twice is lowercasing once.
pub proof fn lemma_lower_idempotent(s: Seq<char>)
    ensures
        lower(lower(s)) == lower(s),
{
    assert forall|i: int| 0 <= i < s.len() implies lower_char(lower_char(s[i])) == lower_char(s[i]) by {
        let c = s[i];
        if 'A' <= c && c <= 'Z' {
            assert(('a' as u32) <= (lower_char(c) as u32) <= ('z' as u32));
        }
    }
    assert(lower(lower(s)) =~= lower(s));
}

/// Setting a header makes it readable with exactly the value set, whenever at
/// most one stored name matched it before.
pub proof fn law_header_set_then_get(
    b: Seq<(Seq<char>, Seq<Seq<char>>)>,
    a: Seq<(Seq<char>, Seq<Seq<char>>)>,
    name: Seq<char>,
    value: Seq<char>,
)
    requires
        header_set_post(b, a, name, value),
        at_most_one_ci(b, name),
    ensures
        exists|i: int| is_first_ci_match(a, name, i) && #[trigger] a[i].1 == seq![value],
{
    let mid = choose|mid: Seq<(Seq<char>, Seq<Seq<char>>)>|
        header_removed_post(b, mid, name) && #[trigger] insert_post(mid, a, lower(name), seq![value]);
    assert(no_ci_match(mid, name)) by {
        match find_first_ci(b, name) {
            Some(i) => {
                let i0 = choose|i: int| is_first_ci_match(b, name, i);
                assert forall|j: int| 0 <= j < mid.len() implies !ci_eq(#[trigger] mid[j].0, name) by {
                    let j0 = if j < i0 { j } else { j + 1 };
                    assert(mid[j] == b[j0]);
                }
            },
            None => {
                if exists|j: int| 0 <= j < b.len() && ci_eq(#[trigger] b[j].0, name) {
                    let j = choose|j: int| 0 <= j < b.len() && ci_eq(#[trigger] b[j].0, name);
                    assert(is_first_ci_match(b, name, j));
                }
            },
        }
    }
    lemma_lower_idempotent(name);
    assert(!has_key(mid, lower(name))) by {
        if has_key(mid, lower(name)) {
            let j = choose|j: int| 0 <= j < mid.len() && #[trigger] mid[j].0 == lower(name);
            assert(ci_eq(mid[j].0, name));
        }
    }
    let p = choose|p: int| 0 <= p <= mid.len() && a == #[trigger] mid.insert(p, (lower(name), seq![value]));
    assert(a[p] == (lower(name), seq![value]));
    assert forall|j: int| 0 <= j < p implies !ci_eq(#[trigger] a[j].0, name) by {
        assert(a[j] == mid[j]);
    }
    assert(is_first_ci_match(a, name, p));
    assert(is_first_ci_match(a, name, p) && a[p].1 == seq![value]);
}

/// Removing a header leaves no header of that name, whenever at most one
/// stored name matched it before.
pub proof fn law_header_remove_then_absent(
    b: Seq<(Seq<char>, Seq<Seq<char>>)>,
    a: Seq<(Seq<char>, Seq<Seq<char>>)>,
    name: Seq<char>,
)
    requires
        header_removed_post(b, a, name),
        at_most_one_ci(b, name),
    ensures
        no_ci_match(a, name),
{
    match find_first_ci(b, name) {
        Some(i) => {
            let i0 = choose|i: int| is_first_ci_match(b, name, i);
            assert forall|j: int| 0 <= j < a.len() implies !ci_eq(#[trigger] a[j].0, name) by {
                let j0 = if j < i0 { j } else { j + 1 };
                assert(a[j] == b[j0]);
            }
        },
        None => {
            if exists|j: int| 0 <= j < b.len() && ci_eq(#[trigger] b[j].0, name) {
                let j = choose|j: int| 0 <= j < b.len() && ci_eq(#[trigger] b[j].0, name);
                assert(is_first_ci_match(b, name, j));
            }
        },
    }
}

/// The request or response state an interceptor script works on.
#[derive(Debug, Clone)]
pub struct InterceptorState {
    pub method: Option<String>,
    pub uri: Option<String>,
    pub status: Option<u16>,
    pub headers: HeaderValues,
    pub body: Option<BodyReplacement>,
    pub tags: RequestTags,
    pub response_phase: bool,
}

impl InterceptorState {
    /// State with the given headers and tags and nothing else set.
    pub fn new(headers: HeaderValues, tags: RequestTags) -> (r: Self)
        ensures
            r.method.is_none(),
            r.uri.is_none(),
            r.status.is_none(),
            r.headers == headers,
            r.body.is_none(),
            r.tags == tags,
            !r.response_phase,
    {
        InterceptorState {
            method: None,
            uri: None,
            status: None,
            headers,
            body: None,
            tags,
            response_phase: false,
        }
    }

    /// State of a request about to be intercepted.
    pub fn new_request(method: String, uri: String, headers: HeaderValues, tags: RequestTags) -> (r: Self)
        ensures
            r.method == Some(method),
            r.uri == Some(uri),
            r.status.is_none(),
            r.headers == headers,
            r.body.is_none(),
            r.tags == tags,
            !r.response_phase,
    {
        let mut state = Self::new(headers, tags);
        state.method = Some(method);
        state.uri = Some(uri);
        state
    }

    /// State of a response about to be intercepted.
    pub fn new_response(status: u16, headers: HeaderValues, tags: RequestTags) -> (r: Self)
        ensures
            r.method.is_none(),
            r.uri.is_none(),
            r.status == Some(status),
            r.headers == headers,
            r.body.is_none(),
            r.tags == tags,
            r.response_phase,
    {
        let mut state = Self::new(headers, tags);
        state.response_phase = true;
        state.status = Some(status);
        state
    }

    /// Sets the request method, if `hyper` accepts it.
    pub fn set_method(&mut self, journal: &mut ModificationJournal, method: String) -> (r: Result<(), String>)
        ensures
            r.is_ok() == method_accepted(encode_utf8(method@)),
            r.is_ok() ==> *final(self) == (InterceptorState { method: Some(method), ..*old(self) })
                && final(journal).state() == journal_step(old(journal).state(), Modification::MethodSet { method }),
            r.is_err() ==> *final(self) == *old(self) && final(journal).state() == old(journal).state(),
    {
        check_method(method.as_str())?;
        self.method = Some(method.clone());
        journal.push(Modification::MethodSet { method });
        Ok(())
    }

    /// Sets the request URI, if `hyper` parses it.
    pub fn set_uri(&mut self, journal: &mut ModificationJournal, uri: String) -> (r: Result<(), String>)
        ensures
            r.is_ok() == uri_accepted(uri@),
            r.is_ok() ==> *final(self) == (InterceptorState { uri: Some(uri), ..*old(self) })
                && final(journal).state() == journal_step(old(journal).state(), Modification::UriSet { uri }),
            r.is_err() ==> *final(self) == *old(self) && final(journal).state() == old(journal).state(),
    {
        check_uri(uri.as_str())?;
        self.uri = Some(uri.clone());
        journal.push(Modification::UriSet { uri });
        Ok(())
    }

    /// Sets the response status; it must be from 100 to 999.
    pub fn set_status(&mut self, journal: &mut ModificationJournal, status: i64) -> (r: Result<(), String>)
        ensures
            r.is_ok() == (100 <= status <= 999),
            r.is_ok() ==> *final(self) == (InterceptorState { status: Some(status as u16), ..*old(self) })
                && final(journal).state() == journal_step(
                old(journal).state(),
                Modification::StatusSet { status: status as u16 },
            ),
            r matches Err(message) ==> *final(self) == *old(self) && final(journal).state() == old(journal).state()
                && message@ == "response status must be an integer between 100 and 999"@,
    {
        if !(100 <= status && status <= 999) {
            return Err(String::from_str("response status must be an integer between 100 and 999"));
        }
        let status = status as u16;
        self.status = Some(status);
        journal.push(Modification::StatusSet { status });
        Ok(())
    }

    /// The value of tag `key`.
    pub fn get_tag(&self, key: &str) -> (r: Option<String>)
        ensures
            match r {
                Some(v) => lookup(self.tags@, key@) == Some(v@),
                None => lookup(self.tags@, key@).is_none(),
            },
    {
        match self.tags.get(key) {
            Some(v) => Some(v.clone()),
            None => None,
        }
    }

    /// Sets tag `key` to `value`.
    pub fn set_tag(&mut self, journal: &mut ModificationJournal, key: String, value: String)
        ensures
            insert_post(old(self).tags@, final(self).tags@, key@, value@),
            lookup(final(self).tags@, key@) == Some(value@),
            *final(self) == (InterceptorState { tags: final(self).tags, ..*old(self) }),
            final(journal).state() == journal_step(old(journal).state(), Modification::TagSet { key, value }),
    {
        self.tags.insert(key.clone(), value.clone());
        journal.push(Modification::TagSet { key, value });
    }

    /// The first value of the first header matching `name` up to ASCII case.
    pub fn header_get(&self, name: &str) -> (r: Option<String>)
        ensures
            match find_first_ci(self.headers@, name@) {
                Some(i) => if self.headers@[i].1.len() > 0 {
                    r.is_some() && r.unwrap()@ == self.headers@[i].1[0]
                } else {
                    r.is_none()
                },
                None => r.is_none(),
            },
    {
        match crate::headers::first_header(&self.headers, name) {
            Some(v) => Some(v.to_owned()),
            None => None,
        }
    }

    /// All values of the first header matching `name` up to ASCII case.
    pub fn header_get_all(&self, name: &str) -> (r: Vec<String>)
        ensures
            r.deep_view() == match find_first_ci(self.headers@, name@) {
                Some(i) => self.headers@[i].1,
                None => Seq::<Seq<char>>::empty(),
            },
    {
        match find_ci(&self.headers, name) {
            Some(i) => {
                proof {
                    lemma_find_first_ci(self.headers@, name@, i as int);
                }
                copy_strings(self.headers.value_at(i))
            },
            None => {
                proof {
                    lemma_find_first_ci_none(self.headers@, name@);
                }
                let r: Vec<String> = Vec::new();
                assert(r.deep_view() =~= Seq::<Seq<char>>::empty());
                r
            },
        }
    }

    /// Appends `value` to header `name`, if `hyper` accepts both.
    pub fn header_append(&mut self, journal: &mut ModificationJournal, name: String, value: String) -> (r:
        Result<(), String>)
        ensures
            r.is_ok() == (header_name_accepted(encode_utf8(name@)) && header_value_accepted(
                encode_utf8(value@),
            )),
            r.is_ok() ==> header_append_post(old(self).headers@, final(self).headers@, name@, value@)
                && *final(self) == (InterceptorState { headers: final(self).headers, ..*old(self) })
                && final(journal).state() == journal_step(
                old(journal).state(),
                Modification::HeaderAppend { name, value },
            ),
            r.is_err() ==> *final(self) == *old(self) && final(journal).state() == old(journal).state(),
    {
        validate_header_input(name.as_str(), value.as_str())?;
        match find_ci(&self.headers, name.as_str()) {
            Some(i) => {
                proof {
                    lemma_find_first_ci(self.headers@, name@, i as int);
                }
                let mut values = copy_strings(self.headers.value_at(i));
                let ghost before = values.deep_view();
                values.push(value.clone());
                assert(values.deep_view() =~= before.push(value@));
                self.headers.replace_at(i, values);
            },
            None => {
                proof {
                    lemma_find_first_ci_none(self.headers@, name@);
                }
                let key = to_ascii_lowercase(name.as_str());
                let mut values: Vec<String> = Vec::new();
                values.push(value.clone());
                assert(values.deep_view() =~= seq![value@]);
                self.headers.insert(key, values);
            },
        }
        journal.push(Modification::HeaderAppend { name, value });
        Ok(())
    }

    /// Replaces all values of header `name` with `value`, if `hyper` accepts both.
    pub fn header_set(&mut self, journal: &mut ModificationJournal, name: String, value: String) -> (r: Result<
        (),
        String,
    >)
        ensures
            r.is_ok() == (header_name_accepted(encode_utf8(name@)) && header_value_accepted(
                encode_utf8(value@),
            )),
            r.is_ok() ==> header_set_post(old(self).headers@, final(self).headers@, name@, value@)
                && *final(self) == (InterceptorState { headers: final(self).headers, ..*old(self) })
                && final(journal).state() == journal_step(
                old(journal).state(),
                Modification::HeaderSet { name, value },
            ),
            r.is_err() ==> *final(self) == *old(self) && final(journal).state() == old(journal).state(),
    {
        validate_header_input(name.as_str(), value.as_str())?;
        let ghost before = self.headers@;
        let removed = remove_header(&mut self.headers, name.as_str());
        let ghost mid = self.headers@;
        proof {
            match removed {
                Some(v) => {
                    let i = choose|i: int|
                        is_first_ci_match(before, name@, i) && v.deep_view() == #[trigger] before[i].1
                            && mid == before.remove(i);
                    lemma_find_first_ci(before, name@, i);
                },
                None => {
                    lemma_find_first_ci_none(before, name@);
                },
            }
            assert(header_removed_post(before, mid, name@));
        }
        let key = to_ascii_lowercase(name.as_str());
        let mut values: Vec<String> = Vec::new();
        values.push(value.clone());
        assert(values.deep_view() =~= seq![value@]);
        self.headers.insert(key, values);
        assert(insert_post(mid, self.headers@, lower(name@), seq![value@]));
        journal.push(Modification::HeaderSet { name, value });
        Ok(())
    }

    /// Removes the first header matching `name` up to ASCII case; the journal
    /// records the values it held.
    pub fn header_remove(&mut self, journal: &mut ModificationJournal, name: String)
        ensures
            header_removed_post(old(self).headers@, final(self).headers@, name@),
            *final(self) == (InterceptorState { headers: final(self).headers, ..*old(self) }),
            exists|values: Vec<String>|
                #[trigger] values.deep_view() == match find_first_ci(old(self).headers@, name@) {
                    Some(i) => old(self).headers@[i].1,
                    None => Seq::<Seq<char>>::empty(),
                } && final(journal).state() == journal_step(
                    old(journal).state(),
                    Modification::HeaderRemove { name, values },
                ),
    {
        let ghost before = self.headers@;
        let removed = remove_header(&mut self.headers, name.as_str());
        let values = match removed {
            Some(v) => {
                proof {
                    let i = choose|i: int|
                        is_first_ci_match(before, name@, i) && v.deep_view() == #[trigger] before[i].1
                            && self.headers@ == before.remove(i);
                    lemma_find_first_ci(before, name@, i);
                }
                v
            },
            None => {
                proof {
                    lemma_find_first_ci_none(before, name@);
                }
                let v: Vec<String> = Vec::new();
                assert(v.deep_view() =~= Seq::<Seq<char>>::empty());
                v
            },
        };
        let ghost kept = values;
        journal.push(Modification::HeaderRemove { name, values });
        assert(kept.deep_view() == match find_first_ci(before, name@) {
            Some(i) => before[i].1,
            None => Seq::<Seq<char>>::empty(),
        });
    }

    /// Drops the content coding once a body is replaced; the journal records
    /// the removed values if there were any.
    fn remove_content_encoding(&mut self, journal: &mut ModificationJournal)
        ensures
            header_removed_post(old(self).headers@, final(self).headers@, "content-encoding"@),
            *final(self) == (InterceptorState { headers: final(self).headers, ..*old(self) }),
            content_encoding_journal(old(self).headers@, old(journal).state(), final(journal).state()),
    {
        let ghost before = self.headers@;
        let name = "content-encoding";
        match remove_header(&mut self.headers, name) {
            Some(values) => {
                proof {
                    let i = choose|i: int|
                        is_first_ci_match(before, name@, i) && values.deep_view() == #[trigger] before[i].1
                            && self.headers@ == before.remove(i);
                    lemma_find_first_ci(before, name@, i);
                }
                let ghost kept = values;
                let label = String::from_str(name);
                let ghost kept_label = label;
                journal.push(Modification::HeaderRemove { name: label, values });
                assert(kept_label@ == "content-encoding"@);
                assert(kept.deep_view() == before[find_first_ci(before, name@).unwrap()].1);
            },
            None => {
                proof {
                    lemma_find_first_ci_none(before, name@);
                }
            },
        }
    }

    /// Replaces the body with `content` and drops the content coding.
    pub fn replace_body_with_string(&mut self, journal: &mut ModificationJournal, content: String)
        ensures
            final(self).body == Some(BodyReplacement::String(content)),
            header_removed_post(old(self).headers@, final(self).headers@, "content-encoding"@),
            *final(self) == (InterceptorState {
                body: final(self).body,
                headers: final(self).headers,
                ..*old(self)
            }),
            content_encoding_journal(
                old(self).headers@,
                journal_step(old(journal).state(), Modification::BodyReplaceString { content }),
                final(journal).state(),
            ),
    {
        self.body = Some(BodyReplacement::String(content.clone()));
        journal.push(Modification::BodyReplaceString { content });
        self.remove_content_encoding(journal);
    }

    /// Replaces the body with `asset` and drops the content coding.
    pub fn replace_body_with_asset(&mut self, journal: &mut ModificationJournal, asset: Asset)
        ensures
            final(self).body == Some(BodyReplacement::Asset(asset)),
            header_removed_post(old(self).headers@, final(self).headers@, "content-encoding"@),
            *final(self) == (InterceptorState {
                body: final(self).body,
                headers: final(self).headers,
                ..*old(self)
            }),
            content_encoding_journal(
                old(self).headers@,
                journal_step(
                    old(journal).state(),
                    Modification::BodyReplaceAsset { asset_id: asset.metadata.id },
                ),
                final(journal).state(),
            ),
    {
        let asset_id = asset.metadata.id.clone();
        self.body = Some(BodyReplacement::Asset(asset));
        journal.push(Modification::BodyReplaceAsset { asset_id });
        self.remove_content_encoding(journal);
    }

    /// The final method, URI, status, headers, body and tags, with the journal's entries.
    pub fn into_effects(self, journal: ModificationJournal) -> (r: ScriptEffects)
        ensures
            r.method == self.method,
            r.uri == self.uri,
            r.status == self.status,
            r.headers == self.headers,
            r.body == self.body,
            r.tags == self.tags,
            r.modifications@ == journal.state().1,
    {
        ScriptEffects {
            method: self.method,
            uri: self.uri,
            status: self.status,
            headers: self.headers,
            body: self.body,
            tags: self.tags,
            modifications: journal.into_modifications(),
        }
    }
}

/// The journal `after` is `before` plus, when `headers` had a content coding,
/// a record of the removed `content-encoding` values.
pub open spec fn content_encoding_journal(
    headers: Seq<(Seq<char>, Seq<Seq<char>>)>,
    before: (Option<Modification>, Seq<Modification>),
    after: (Option<Modification>, Seq<Modification>),
) -> bool {
    match find_first_ci(headers, "content-encoding"@) {
        Some(i) => exists|label: String, values: Vec<String>|
            #![trigger label@, values.deep_view()]
            label@ == "content-encoding"@ && values.deep_view() == headers[i].1 && after
                == journal_step(before, Modification::HeaderRemove { name: label, values }),
        None => after == before,
    }
}

} // verus!
