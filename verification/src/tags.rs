//! Special request tags: the strictly positive decimal values that pace bodies
//! and bound timeouts, and the explicit opt-in to an unverified upstream TLS
//! certificate. A tag that holds anything else is ignored.
use vstd::prelude::*;
use vstd::string::*;

use crate::model::RequestTags;
use crate::strmap::lookup;

verus! {

/// Whether `c` is an ASCII decimal digit.
pub open spec fn is_digit(c: char) -> bool {
    '0' <= c && c <= '9'
}

/// Whether every character of `s` is an ASCII decimal digit.
pub open spec fn all_digits(s: Seq<char>) -> bool {
    forall|i: int| 0 <= i < s.len() ==> is_digit(#[trigger] s[i])
}

/// The number a string of decimal digits spells (leading zeros allowed).
pub open spec fn decimal_value(s: Seq<char>) -> nat
    decreases s.len(),
{
    if s.len() == 0 {
        0
    } else {
        decimal_value(s.drop_last()) * 10 + ((s.last() as int - '0' as int) as nat)
    }
}

/// A digit string is worth at least any of its prefixes.
proof fn lemma_decimal_prefix(s: Seq<char>, i: int)
    requires
        all_digits(s),
        0 <= i <= s.len(),
    ensures
        decimal_value(s.subrange(0, i)) <= decimal_value(s),
    decreases s.len() - i,
{
    if i < s.len() {
        lemma_decimal_prefix(s, i + 1);
        let p = s.subrange(0, i + 1);
        assert(p.drop_last() == s.subrange(0, i));
        assert(is_digit(p.last()));
    } else {
        assert(s.subrange(0, i) == s);
    }
}

/// What a special tag value parses to: `Ok(None)` when absent, `Ok(Some(n))`
/// for a non-empty string of ASCII digits worth `n`, 1 up to `u64::MAX`, and
/// `Err(())` for anything else.
pub open spec fn positive_decimal_spec(value: Option<Seq<char>>) -> Result<Option<u64>, ()> {
    match value {
        None => Ok(None),
        Some(v) => if v.len() > 0 && all_digits(v) && 0 < decimal_value(v) <= u64::MAX {
            Ok(Some(decimal_value(v) as u64))
        } else {
            Err(())
        },
    }
}

/// A special tag's number is read only from a non-empty run of ASCII digits
/// worth at least 1: absent is no value; a number is the value its digits
/// spell; a value with any other character, an empty value, or one worth 0
/// is invalid.
pub proof fn law_special_tag_numbers(v: Seq<char>, i: int)
    ensures
        positive_decimal_spec(None) == Ok::<Option<u64>, ()>(None),
        positive_decimal_spec(Some(v)) matches Ok(Some(n)) ==> n > 0 && n == decimal_value(v) && all_digits(v)
            && v.len() > 0,
        positive_decimal_spec(Some(v)) matches Ok(None) ==> false,
        0 <= i < v.len() && !is_digit(v[i]) ==> positive_decimal_spec(Some(v)) == Err::<Option<u64>, ()>(()),
        v.len() == 0 ==> positive_decimal_spec(Some(v)) == Err::<Option<u64>, ()>(()),
        all_digits(v) && decimal_value(v) == 0 ==> positive_decimal_spec(Some(v)) == Err::<Option<u64>, ()>(()),
        v.len() > 0 && all_digits(v) && 0 < decimal_value(v) <= u64::MAX ==> positive_decimal_spec(Some(v)) == Ok::<
            Option<u64>,
            (),
        >(Some(decimal_value(v) as u64)),
{
}

/// The TLS opt-in is on only for the exact text `true`; absent it is off, and
/// any other text is invalid.
pub proof fn law_tls_opt_in(v: Seq<char>)
    ensures
        tls_insecure_spec(None) == Ok::<bool, ()>(false),
        tls_insecure_spec(Some(v)) == Ok::<bool, ()>(true) <==> v == "true"@,
        tls_insecure_spec(Some(v)) != Ok::<bool, ()>(false),
{
}

/// Parses a strictly positive decimal number made of ASCII digits only.
pub fn parse_positive_decimal(value: Option<&str>) -> (r: Result<Option<u64>, ()>)
    ensures
        r == positive_decimal_spec(match value {
            Some(v) => Some(v@),
            None => None,
        }),
{
    let text = match value {
        None => return Ok(None),
        Some(v) => v,
    };
    assert(value == Some(text));
    let n = text.unicode_len();
    if n == 0 {
        return Err(());
    }
    let mut acc: u64 = 0;
    let mut i: usize = 0;
    while i < n
        invariant
            value == Some(text),
            n == text@.len(),
            i <= n,
            all_digits(text@.subrange(0, i as int)),
            acc as nat == decimal_value(text@.subrange(0, i as int)),
        decreases n - i,
    {
        let c = text.get_char(i);
        if !('0' <= c && c <= '9') {
            assert(!all_digits(text@)) by {
                assert(!is_digit(text@[i as int]));
            }
            assert(positive_decimal_spec(Some(text@)) == Err::<Option<u64>, ()>(()));
            return Err(());
        }
        let prefix = Ghost(text@.subrange(0, i + 1));
        assert(prefix@.drop_last() == text@.subrange(0, i as int));
        assert(prefix@.last() == c);
        let digit = (c as u32 - '0' as u32) as u64;
        if acc > (u64::MAX - digit) / 10 {
            proof {
                assert(acc * 10 + digit > u64::MAX) by (nonlinear_arith)
                    requires
                        acc > (u64::MAX - digit) / 10,
                        digit <= 9,
                ;
                if all_digits(text@) {
                    lemma_decimal_prefix(text@, i + 1);
                    assert(decimal_value(prefix@) == decimal_value(prefix@.drop_last()) * 10 + digit);
                    assert(decimal_value(text@) > u64::MAX);
                }
            }
            assert(positive_decimal_spec(Some(text@)) == Err::<Option<u64>, ()>(()));
            return Err(());
        }
        assert(acc * 10 + digit <= u64::MAX) by (nonlinear_arith)
            requires
                acc <= (u64::MAX - digit) / 10,
                digit <= 9,
        ;
        acc = acc * 10 + digit;
        i = i + 1;
        assert forall|k: int| 0 <= k < i implies is_digit(#[trigger] text@.subrange(0, i as int)[k]) by {
            if k < i - 1 {
                assert(text@.subrange(0, i as int)[k] == text@.subrange(0, i - 1)[k]);
            }
        }
    }
    assert(text@.subrange(0, n as int) == text@);
    if acc == 0 {
        return Err(());
    }
    Ok(Some(acc))
}

/// What the TLS opt-in tag means: absent is `Ok(false)`, exactly `true` is
/// `Ok(true)`, and anything else is `Err(())`.
pub open spec fn tls_insecure_spec(value: Option<Seq<char>>) -> Result<bool, ()> {
    match value {
        None => Ok(false),
        Some(v) => if v == "true"@ {
            Ok(true)
        } else {
            Err(())
        },
    }
}

/// Parses the TLS opt-in tag; only the exact text `true` turns it on.
pub fn parse_tls_insecure_tag(value: Option<&str>) -> (r: Result<bool, ()>)
    ensures
        r == tls_insecure_spec(match value {
            Some(v) => Some(v@),
            None => None,
        }),
{
    match value {
        None => Ok(false),
        Some(v) => {
            if crate::text::str_eq(v, "true") {
                Ok(true)
            } else {
                Err(())
            }
        },
    }
}

/// The tag that paces the request body sent upstream, in bytes per second.
pub fn req_speed_tag() -> (r: &'static str)
    ensures
        r@ == "_crab_req_speed"@,
{
    "_crab_req_speed"
}

/// The tag that paces the response body sent downstream, in bytes per second.
pub fn resp_speed_tag() -> (r: &'static str)
    ensures
        r@ == "_crab_resp_speed"@,
{
    "_crab_resp_speed"
}

/// The tag that bounds the wait for each upstream response body frame, in milliseconds.
pub fn resp_bodyframe_timeout_tag() -> (r: &'static str)
    ensures
        r@ == "_crab_resp_bodyframe_timeout"@,
{
    "_crab_resp_bodyframe_timeout"
}

/// The tag that bounds the wait for the upstream response head, in milliseconds.
pub fn req_timeout_tag() -> (r: &'static str)
    ensures
        r@ == "_crab_req_timeout"@,
{
    "_crab_req_timeout"
}

/// The tag that accepts any upstream TLS certificate for one request.
pub fn tls_insecure_tag() -> (r: &'static str)
    ensures
        r@ == "_crab_tls_insecure"@,
{
    "_crab_tls_insecure"
}

/// The tag that answers a request locally instead of forwarding it.
pub fn skip_tag() -> (r: &'static str)
    ensures
        r@ == "_crab_skip"@,
{
    "_crab_skip"
}

/// The value of a special numeric tag, or `None` when it is absent or invalid.
pub open spec fn special_tag_spec(tags: Seq<(Seq<char>, Seq<char>)>, key: Seq<char>) -> Option<u64> {
    match positive_decimal_spec(lookup(tags, key)) {
        Ok(v) => v,
        Err(_) => None,
    }
}

/// Reads a special numeric tag; an invalid value counts as absent.
pub fn parse_special_tag(tags: &RequestTags, key: &str) -> (r: Option<u64>)
    ensures
        r == special_tag_spec(tags@, key@),
{
    let value = match tags.get(key) {
        Some(v) => Some(v.as_str()),
        None => None,
    };
    match parse_positive_decimal(value) {
        Ok(v) => v,
        Err(()) => None,
    }
}

/// Whether the request's tags opt in to an unverified upstream certificate;
/// an invalid value counts as no.
pub fn tls_insecure_from_tags(tags: &RequestTags) -> (r: bool)
    ensures
        r == (tls_insecure_spec(lookup(tags@, "_crab_tls_insecure"@)) == Ok::<bool, ()>(true)),
{
    let value = match tags.get(tls_insecure_tag()) {
        Some(v) => Some(v.as_str()),
        None => None,
    };
    match parse_tls_insecure_tag(value) {
        Ok(v) => v,
        Err(()) => false,
    }
}

/// Rust's `str::parse::<u64>`: an optional `+`, then one or more ASCII digits
/// worth at most `u64::MAX`.
pub open spec fn rust_u64_spec(s: Seq<char>) -> Option<u64> {
    let digits = if s.len() > 0 && s[0] == '+' {
        s.drop_first()
    } else {
        s
    };
    if digits.len() > 0 && all_digits(digits) && decimal_value(digits) <= u64::MAX {
        Some(decimal_value(digits) as u64)
    } else {
        None
    }
}

/// A `u64` is read like Rust reads one: its digits, optionally after one `+`;
/// a `-`, an empty text or a lone `+` give nothing.
pub proof fn law_unsigned_text(digits: Seq<char>)
    requires
        digits.len() > 0,
        all_digits(digits),
        decimal_value(digits) <= u64::MAX,
    ensures
        rust_u64_spec(digits) == Some(decimal_value(digits) as u64),
        rust_u64_spec(seq!['+'] + digits) == Some(decimal_value(digits) as u64),
        rust_u64_spec(seq!['-'] + digits).is_none(),
        rust_u64_spec(Seq::empty()).is_none(),
        rust_u64_spec(seq!['+']).is_none(),
{
    assert((seq!['+'] + digits).drop_first() =~= digits);
    assert(!is_digit((seq!['-'] + digits)[0]));
    assert(seq!['+'].drop_first() =~= Seq::<char>::empty());
}

/// The number a non-empty string of ASCII digits spells, if it fits a `u64`.
fn parse_digits(text: &str) -> (r: Option<u64>)
    ensures
        r == if text@.len() > 0 && all_digits(text@) && decimal_value(text@) <= u64::MAX {
            Some(decimal_value(text@) as u64)
        } else {
            None::<u64>
        },
{
    let n = text.unicode_len();
    if n == 0 {
        return None;
    }
    let mut acc: u64 = 0;
    let mut i: usize = 0;
    while i < n
        invariant
            n == text@.len(),
            i <= n,
            all_digits(text@.subrange(0, i as int)),
            acc as nat == decimal_value(text@.subrange(0, i as int)),
        decreases n - i,
    {
        let c = text.get_char(i);
        if !('0' <= c && c <= '9') {
            assert(!is_digit(text@[i as int]));
            return None;
        }
        let prefix = Ghost(text@.subrange(0, i + 1));
        assert(prefix@.drop_last() == text@.subrange(0, i as int));
        assert(prefix@.last() == c);
        let digit = (c as u32 - '0' as u32) as u64;
        if acc > (u64::MAX - digit) / 10 {
            proof {
                assert(acc * 10 + digit > u64::MAX) by (nonlinear_arith)
                    requires
                        acc > (u64::MAX - digit) / 10,
                        digit <= 9,
                ;
                if all_digits(text@) {
                    lemma_decimal_prefix(text@, i + 1);
                    assert(decimal_value(prefix@) == decimal_value(prefix@.drop_last()) * 10 + digit);
                }
            }
            return None;
        }
        assert(acc * 10 + digit <= u64::MAX) by (nonlinear_arith)
            requires
                acc <= (u64::MAX - digit) / 10,
                digit <= 9,
        ;
        acc = acc * 10 + digit;
        i = i + 1;
        assert forall|k: int| 0 <= k < i implies is_digit(#[trigger] text@.subrange(0, i as int)[k]) by {
            if k < i - 1 {
                assert(text@.subrange(0, i as int)[k] == text@.subrange(0, i - 1)[k]);
            }
        }
    }
    assert(text@.subrange(0, n as int) == text@);
    Some(acc)
}

/// Parses a `u64` as `str::parse::<u64>` does.
pub fn parse_u64(s: &str) -> (r: Option<u64>)
    ensures
        r == rust_u64_spec(s@),
{
    let n = s.unicode_len();
    if n > 0 && s.get_char(0) == '+' {
        let rest = s.substring_char(1, n);
        assert(rest@ == s@.drop_first());
        parse_digits(rest)
    } else {
        parse_digits(s)
    }
}

} // verus!
