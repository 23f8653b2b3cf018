//! Case-insensitive access to header maps, and the header-derived facts the
//! proxy relies on: content encodings, textual content types, bodiless statuses
//! and the lossless text form of binary header values.
use vstd::prelude::*;
use vstd::string::*;

use crate::model::HeaderValues;
use crate::strmap::{has_key, keys_sorted, StrMap};
use crate::text::{
    ascii_lower_char, contains_seq, is_prefix, lower, lower_char, split_char, split_on, str_contains,
    str_eq, str_starts_with, str_trim, to_ascii_lowercase, trim,
};

verus! {

/// Two names are equal up to ASCII case.
pub open spec fn ci_eq(a: Seq<char>, b: Seq<char>) -> bool {
    lower(a) == lower(b)
}

/// `i` is the first entry, in key order, whose key matches `name` up to ASCII case.
pub open spec fn is_first_ci_match<V>(s: Seq<(Seq<char>, V)>, name: Seq<char>, i: int) -> bool {
    &&& 0 <= i < s.len()
    &&& ci_eq(s[i].0, name)
    &&& forall|j: int| 0 <= j < i ==> !ci_eq(#[trigger] s[j].0, name)
}

/// No key matches `name` up to ASCII case.
pub open spec fn no_ci_match<V>(s: Seq<(Seq<char>, V)>, name: Seq<char>) -> bool {
    forall|j: int| 0 <= j < s.len() ==> !ci_eq(#[trigger] s[j].0, name)
}

/// Compares two strings ignoring ASCII case, like `str::eq_ignore_ascii_case`.
pub fn eq_ignore_ascii_case(a: &str, b: &str) -> (r: bool)
    ensures
        r == ci_eq(a@, b@),
{
    let n = a.unicode_len();
    let m = b.unicode_len();
    if n != m {
        assert(lower(a@).len() != lower(b@).len());
        return false;
    }
    let mut i: usize = 0;
    while i < n
        invariant
            n == a@.len(),
            m == b@.len(),
            n == m,
            i <= n,
            forall|j: int| 0 <= j < i ==> lower_char(#[trigger] a@[j]) == lower_char(b@[j]),
        decreases n - i,
    {
        if ascii_lower_char(a.get_char(i)) != ascii_lower_char(b.get_char(i)) {
            assert(lower(a@)[i as int] != lower(b@)[i as int]);
            return false;
        }
        i = i + 1;
    }
    assert(lower(a@) =~= lower(b@));
    true
}

/// Position of the first key equal to `name` up to ASCII case.
pub fn find_ci<V: DeepView>(map: &StrMap<V>, name: &str) -> (r: Option<usize>)
    ensures
        match r {
            Some(i) => is_first_ci_match(map@, name@, i as int),
            None => no_ci_match(map@, name@),
        },
{
    let n = map.len();
    let mut i: usize = 0;
    while i < n
        invariant
            n == map@.len(),
            i <= n,
            forall|j: int| 0 <= j < i ==> !ci_eq(#[trigger] map@[j].0, name@),
        decreases n - i,
    {
        if eq_ignore_ascii_case(map.key_at(i).as_str(), name) {
            return Some(i);
        }
        i = i + 1;
    }
    None
}

/// The values of the first header whose name matches `name` up to ASCII case.
pub fn header_values<'a>(headers: &'a HeaderValues, name: &str) -> (r: Option<&'a Vec<String>>)
    ensures
        match r {
            Some(v) => exists|i: int|
                is_first_ci_match(headers@, name@, i) && v.deep_view() == #[trigger] headers@[i].1,
            None => no_ci_match(headers@, name@),
        },
{
    match find_ci(headers, name) {
        Some(i) => Some(headers.value_at(i)),
        None => None,
    }
}

/// The stored spelling of the first header name that matches `name` up to ASCII case.
pub fn existing_header_name(headers: &HeaderValues, name: &str) -> (r: Option<String>)
    ensures
        match r {
            Some(k) => exists|i: int| is_first_ci_match(headers@, name@, i) && k@ == #[trigger] headers@[i].0,
            None => no_ci_match(headers@, name@),
        },
{
    match find_ci(headers, name) {
        Some(i) => Some(headers.key_at(i).clone()),
        None => None,
    }
}

/// Removes the first header whose name matches `name` up to ASCII case and
/// returns its values.
pub fn remove_header(headers: &mut HeaderValues, name: &str) -> (r: Option<Vec<String>>)
    ensures
        match r {
            Some(v) => exists|i: int|
                is_first_ci_match(old(headers)@, name@, i) && v.deep_view() == #[trigger] old(headers)@[i].1
                    && final(headers)@ == old(headers)@.remove(i),
            None => no_ci_match(old(headers)@, name@) && final(headers)@ == old(headers)@,
        },
{
    match find_ci(headers, name) {
        Some(i) => Some(headers.remove_at(i)),
        None => None,
    }
}

/// Removes the first header whose name matches `name` up to ASCII case.
pub fn remove_header_value(headers: &mut HeaderValues, name: &str)
    ensures
        match find_first_ci(old(headers)@, name@) {
            Some(i) => final(headers)@ == old(headers)@.remove(i),
            None => final(headers)@ == old(headers)@,
        },
{
    let r = remove_header(headers, name);
    proof {
        match r {
            Some(v) => {
                let i = choose|i: int|
                    is_first_ci_match(old(headers)@, name@, i) && v.deep_view() == #[trigger] old(headers)@[i].1
                        && final(headers)@ == old(headers)@.remove(i);
                lemma_find_first_ci(old(headers)@, name@, i);
            },
            None => {
                lemma_find_first_ci_none(old(headers)@, name@);
            },
        }
    }
}

/// The index of the first key that matches `name` up to ASCII case.
pub open spec fn find_first_ci<V>(s: Seq<(Seq<char>, V)>, name: Seq<char>) -> Option<int> {
    if exists|i: int| is_first_ci_match(s, name, i) {
        Some(choose|i: int| is_first_ci_match(s, name, i))
    } else {
        None
    }
}

/// Header names are looked up without regard to ASCII case: two names that
/// differ only in case find the same header.
pub proof fn law_header_names_ignore_case<V>(s: Seq<(Seq<char>, V)>, name: Seq<char>, other: Seq<char>)
    requires
        lower(name) == lower(other),
    ensures
        find_first_ci(s, name) == find_first_ci(s, other),
{
    assert forall|i: int| is_first_ci_match(s, name, i) <==> is_first_ci_match(s, other, i) by {
        if 0 <= i < s.len() {
            assert(ci_eq(s[i].0, name) == ci_eq(s[i].0, other));
            assert forall|j: int| 0 <= j < i implies ci_eq(#[trigger] s[j].0, name) == ci_eq(s[j].0, other) by {}
        }
    }
    if exists|i: int| is_first_ci_match(s, name, i) {
        let i = choose|i: int| is_first_ci_match(s, name, i);
        let k = choose|k: int| is_first_ci_match(s, other, k);
        assert(is_first_ci_match(s, other, i));
        if k < i {
            assert(!ci_eq(s[k].0, name));
        } else if i < k {
            assert(!ci_eq(s[i].0, other));
        }
    }
}

/// The first case-insensitive match is the one `find_first_ci` names.
pub proof fn lemma_find_first_ci<V>(s: Seq<(Seq<char>, V)>, name: Seq<char>, i: int)
    requires
        is_first_ci_match(s, name, i),
    ensures
        find_first_ci(s, name) == Some(i),
{
    let j = choose|j: int| is_first_ci_match(s, name, j);
    assert(is_first_ci_match(s, name, j));
    if j < i {
        assert(!ci_eq(s[j].0, name));
    } else if i < j {
        assert(!ci_eq(s[i].0, name));
    }
}

/// Without a case-insensitive match, `find_first_ci` names none.
pub proof fn lemma_find_first_ci_none<V>(s: Seq<(Seq<char>, V)>, name: Seq<char>)
    requires
        no_ci_match(s, name),
    ensures
        find_first_ci(s, name).is_none(),
{
    if exists|i: int| is_first_ci_match(s, name, i) {
        let i = choose|i: int| is_first_ci_match(s, name, i);
        assert(!ci_eq(s[i].0, name));
    }
}

/// The first value of the first header that matches `name` up to ASCII case.
pub fn first_header<'a>(headers: &'a HeaderValues, name: &str) -> (r: Option<&'a str>)
    ensures
        match find_first_ci(headers@, name@) {
            Some(i) => if headers@[i].1.len() > 0 {
                r.is_some() && r.unwrap()@ == headers@[i].1[0]
            } else {
                r.is_none()
            },
            None => r.is_none(),
        },
{
    match find_ci(headers, name) {
        Some(i) => {
            proof {
                lemma_find_first_ci(headers@, name@, i as int);
            }
            let values = headers.value_at(i);
            if values.len() > 0 {
                Some(values[0].as_str())
            } else {
                None
            }
        },
        None => {
            proof {
                lemma_find_first_ci_none(headers@, name@);
            }
            None
        },
    }
}

/// The tokens a header value lists: its comma-separated parts, trimmed and
/// lowercased, without empty parts and without `identity`.
pub open spec fn keep_tokens(parts: Seq<Seq<char>>) -> Seq<Seq<char>>
    decreases parts.len(),
{
    if parts.len() == 0 {
        Seq::empty()
    } else {
        let t = lower(trim(parts.last()));
        if t.len() > 0 && t != "identity"@ {
            keep_tokens(parts.drop_last()).push(t)
        } else {
            keep_tokens(parts.drop_last())
        }
    }
}

/// The tokens of every value in `values`, in order.
pub open spec fn values_tokens(values: Seq<Seq<char>>) -> Seq<Seq<char>>
    decreases values.len(),
{
    if values.len() == 0 {
        Seq::empty()
    } else {
        values_tokens(values.drop_last()) + keep_tokens(split_on(values.last(), ','))
    }
}

/// Header value tokens never include a blank entry or `identity`, which
/// names no coding.
pub proof fn law_tokens_skip_blank_and_identity(parts: Seq<Seq<char>>)
    ensures
        forall|i: int|
            0 <= i < keep_tokens(parts).len() ==> #[trigger] keep_tokens(parts)[i].len() > 0 && keep_tokens(parts)[i]
                != "identity"@,
    decreases parts.len(),
{
    if parts.len() > 0 {
        let rest = keep_tokens(parts.drop_last());
        law_tokens_skip_blank_and_identity(parts.drop_last());
        let t = lower(trim(parts.last()));
        assert forall|i: int| 0 <= i < keep_tokens(parts).len() implies #[trigger] keep_tokens(parts)[i].len() > 0
            && keep_tokens(parts)[i] != "identity"@ by {
            if t.len() > 0 && t != "identity"@ {
                if i < rest.len() {
                    assert(keep_tokens(parts)[i] == rest[i]);
                }
            } else {
                assert(keep_tokens(parts)[i] == rest[i]);
            }
        }
    }
}

/// The tokens of every header whose name matches `name` up to ASCII case, in key order.
pub open spec fn entries_tokens(s: Seq<(Seq<char>, Seq<Seq<char>>)>, name: Seq<char>) -> Seq<Seq<char>>
    decreases s.len(),
{
    if s.len() == 0 {
        Seq::empty()
    } else if ci_eq(s.last().0, name) {
        entries_tokens(s.drop_last(), name) + values_tokens(s.last().1)
    } else {
        entries_tokens(s.drop_last(), name)
    }
}

/// Appends to `out` the tokens of one header value.
fn push_value_tokens(out: &mut Vec<String>, value: &str)
    ensures
        final(out).deep_view() == old(out).deep_view() + keep_tokens(split_on(value@, ',')),
{
    let parts = split_char(value, ',');
    let n = parts.len();
    let ghost start = out.deep_view();
    let mut i: usize = 0;
    while i < n
        invariant
            n == parts@.len(),
            parts.deep_view() == split_on(value@, ','),
            i <= n,
            out.deep_view() == start + keep_tokens(parts.deep_view().subrange(0, i as int)),
        decreases n - i,
    {
        let token = to_ascii_lowercase(str_trim(parts[i].as_str()));
        let ghost sub = parts.deep_view().subrange(0, i + 1);
        assert(sub.drop_last() == parts.deep_view().subrange(0, i as int));
        assert(sub.last() == parts[i as int]@);
        if token.unicode_len() > 0 && !str_eq(token.as_str(), "identity") {
            let ghost prev = out.deep_view();
            let ghost t = token@;
            assert(t == lower(trim(sub.last())));
            out.push(token);
            assert(out.deep_view() =~= prev.push(t));
            assert(keep_tokens(sub) == keep_tokens(sub.drop_last()).push(t));
            assert(out.deep_view() =~= start + keep_tokens(sub));
        } else {
            assert(token@ == lower(trim(sub.last())));
            assert(keep_tokens(sub) == keep_tokens(sub.drop_last()));
            assert(out.deep_view() =~= start + keep_tokens(sub));
        }
        i = i + 1;
    }
    assert(parts.deep_view().subrange(0, n as int) == parts.deep_view());
}

/// Appends to `out` the tokens of every value in `values`.
fn push_values_tokens(out: &mut Vec<String>, values: &Vec<String>)
    ensures
        final(out).deep_view() == old(out).deep_view() + values_tokens(values.deep_view()),
{
    let n = values.len();
    let ghost start = out.deep_view();
    let mut i: usize = 0;
    while i < n
        invariant
            n == values@.len(),
            i <= n,
            out.deep_view() == start + values_tokens(values.deep_view().subrange(0, i as int)),
        decreases n - i,
    {
        let ghost sub = values.deep_view().subrange(0, i + 1);
        assert(sub.drop_last() == values.deep_view().subrange(0, i as int));
        assert(sub.last() == values[i as int]@);
        push_value_tokens(out, values[i].as_str());
        assert(out.deep_view() =~= start + values_tokens(sub));
        i = i + 1;
    }
    assert(values.deep_view().subrange(0, n as int) == values.deep_view());
}

/// The tokens of a list of header values, in order.
pub fn value_list_tokens(values: &Vec<String>) -> (r: Vec<String>)
    ensures
        r.deep_view() == values_tokens(values.deep_view()),
{
    let mut out: Vec<String> = Vec::new();
    push_values_tokens(&mut out, values);
    assert(out.deep_view() =~= values_tokens(values.deep_view()));
    out
}

/// The tokens listed by every header whose name matches `name` up to ASCII case.
pub fn header_tokens(headers: &HeaderValues, name: &str) -> (r: Vec<String>)
    ensures
        r.deep_view() == entries_tokens(headers@, name@),
{
    let n = headers.len();
    let mut out: Vec<String> = Vec::new();
    let mut i: usize = 0;
    while i < n
        invariant
            n == headers@.len(),
            i <= n,
            out.deep_view() == entries_tokens(headers@.subrange(0, i as int), name@),
        decreases n - i,
    {
        let ghost sub = headers@.subrange(0, i + 1);
        assert(sub.drop_last() == headers@.subrange(0, i as int));
        assert(sub.last() == headers@[i as int]);
        if eq_ignore_ascii_case(headers.key_at(i).as_str(), name) {
            push_values_tokens(&mut out, headers.value_at(i));
        }
        assert(out.deep_view() =~= entries_tokens(sub, name@));
        i = i + 1;
    }
    assert(headers@.subrange(0, n as int) == headers@);
    out
}

/// The content codings a message declares, in the order they were applied.
pub fn content_encodings(headers: &HeaderValues) -> (r: Vec<String>)
    ensures
        r.deep_view() == entries_tokens(headers@, "content-encoding"@),
{
    header_tokens(headers, "content-encoding")
}

/// The tokens of the values of the first header that matches `name` up to ASCII case.
pub fn first_header_tokens(headers: &HeaderValues, name: &str) -> (r: Vec<String>)
    ensures
        r.deep_view() == match find_first_ci(headers@, name@) {
            Some(i) => values_tokens(headers@[i].1),
            None => Seq::<Seq<char>>::empty(),
        },
{
    let mut out: Vec<String> = Vec::new();
    match find_ci(headers, name) {
        Some(i) => {
            proof {
                lemma_find_first_ci(headers@, name@, i as int);
            }
            push_values_tokens(&mut out, headers.value_at(i));
            assert(out.deep_view() =~= values_tokens(headers@[i as int].1));
        },
        None => {
            proof {
                lemma_find_first_ci_none(headers@, name@);
            }
            assert(out.deep_view() =~= Seq::<Seq<char>>::empty());
        },
    }
    out
}

/// A content type whose body is text: `text/*`, or one that mentions JSON,
/// XML, JavaScript or form encoding.
pub open spec fn textual(content_type: Seq<char>) -> bool {
    is_prefix("text/"@, content_type) || contains_seq(content_type, "json"@) || contains_seq(
        content_type,
        "xml"@,
    ) || contains_seq(content_type, "javascript"@) || contains_seq(
        content_type,
        "x-www-form-urlencoded"@,
    )
}

/// `mark` occurs in `before + mark + after`, right after `before`.
proof fn lemma_occurs_between(before: Seq<char>, mark: Seq<char>, after: Seq<char>)
    ensures
        crate::text::occurs_at(before + mark + after, mark, before.len() as int),
        contains_seq(before + mark + after, mark),
{
    let s = before + mark + after;
    assert(s.subrange(before.len() as int, before.len() + mark.len() as int) =~= mark);
}

/// Text bodies are recognised by their content type: every `text/` type is
/// textual, and so is every type that mentions JSON, XML, JavaScript or form
/// encoding anywhere, whatever surrounds the mention.
pub proof fn law_textual_content_types(before: Seq<char>, after: Seq<char>)
    ensures
        textual("text/"@ + after),
        textual(before + "json"@ + after),
        textual(before + "xml"@ + after),
        textual(before + "javascript"@ + after),
        textual(before + "x-www-form-urlencoded"@ + after),
{
    assert(("text/"@ + after).subrange(0, "text/"@.len() as int) =~= "text/"@);
    lemma_occurs_between(before, "json"@, after);
    lemma_occurs_between(before, "xml"@, after);
    lemma_occurs_between(before, "javascript"@, after);
    lemma_occurs_between(before, "x-www-form-urlencoded"@, after);
}

/// Whether a body of this content type is text.
pub fn is_textual(content_type: &str) -> (r: bool)
    ensures
        r == textual(content_type@),
{
    str_starts_with(content_type, "text/") || str_contains(content_type, "json") || str_contains(
        content_type,
        "xml",
    ) || str_contains(content_type, "javascript") || str_contains(
        content_type,
        "x-www-form-urlencoded",
    )
}

/// Whether a response with this status carries a body: not 1xx, 204 or 304.
pub fn response_status_has_body(status: u16) -> (r: bool)
    ensures
        r == !(100 <= status < 200 || status == 204 || status == 304),
{
    !(100 <= status && status < 200) && status != 204 && status != 304
}

/// Whether a request asks to switch protocols: it has an `Upgrade` header, or
/// its first `Connection` value mentions `upgrade` in any letter case.
pub open spec fn upgrade_requested(headers: Seq<(Seq<char>, Seq<Seq<char>>)>) -> bool {
    find_first_ci(headers, "upgrade"@).is_some() || match find_first_ci(headers, "connection"@) {
        Some(i) => headers[i].1.len() > 0 && contains_seq(lower(headers[i].1[0]), "upgrade"@),
        None => false,
    }
}

/// A request asks to switch protocols when it has an `Upgrade` header (in any
/// case), or when its first `Connection` header's first value mentions
/// `upgrade` in any case; with neither header it never does.
pub proof fn law_upgrade_requests(headers: Seq<(Seq<char>, Seq<Seq<char>>)>, before: Seq<char>, after: Seq<char>)
    ensures
        find_first_ci(headers, "upgrade"@).is_some() ==> upgrade_requested(headers),
        find_first_ci(headers, "upgrade"@).is_none() && find_first_ci(headers, "connection"@).is_none()
            ==> !upgrade_requested(headers),
        find_first_ci(headers, "connection"@) matches Some(i) ==> (headers[i].1.len() > 0 && lower(headers[i].1[0])
            == before + "upgrade"@ + after ==> upgrade_requested(headers)),
{
    lemma_occurs_between(before, "upgrade"@, after);
}

/// Whether a request with these headers asks to switch protocols.
pub fn is_upgrade_request(headers: &HeaderValues) -> (r: bool)
    ensures
        r == upgrade_requested(headers@),
{
    if find_ci(headers, "upgrade").is_some() {
        return true;
    }
    match first_header(headers, "connection") {
        Some(value) => {
            let lowered = to_ascii_lowercase(value);
            str_contains(lowered.as_str(), "upgrade")
        },
        None => false,
    }
}

} // verus!
