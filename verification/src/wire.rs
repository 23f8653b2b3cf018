//! HTTP wire details the proxy decides on its own: protocol version names,
//! how header values that are not text are kept lossless, which hop-by-hop
//! headers never cross the proxy, and how TLS failures and script errors are
//! reported.
use vstd::prelude::*;
use vstd::string::*;

use crate::text::{
    ascii_lower_char, contains_seq, lower, lower_char, push_char, split_char, split_on, str_contains,
    str_trim, to_ascii_lowercase, trim,
};

verus! {

/// An HTTP protocol version.
#[derive(Debug, Clone, Copy, PartialEq, Eq)]
pub enum HttpVersion {
    Http09,
    Http10,
    Http11,
    Http2,
    Http3,
}

/// The name a version is recorded under.
pub open spec fn version_name_spec(v: HttpVersion) -> Seq<char> {
    match v {
        HttpVersion::Http09 => "HTTP/0.9"@,
        HttpVersion::Http10 => "HTTP/1.0"@,
        HttpVersion::Http11 => "HTTP/1.1"@,
        HttpVersion::Http2 => "HTTP/2"@,
        HttpVersion::Http3 => "HTTP/3"@,
    }
}

/// The version a recorded name stands for; unknown names mean HTTP/1.1.
pub open spec fn parse_version_spec(s: Seq<char>) -> HttpVersion {
    if s == "HTTP/0.9"@ {
        HttpVersion::Http09
    } else if s == "HTTP/1.0"@ {
        HttpVersion::Http10
    } else if s == "HTTP/2.0"@ || s == "HTTP/2"@ {
        HttpVersion::Http2
    } else if s == "HTTP/3.0"@ || s == "HTTP/3"@ {
        HttpVersion::Http3
    } else {
        HttpVersion::Http11
    }
}

/// Versions are read back leniently: `HTTP/2` and `HTTP/2.0` are the same
/// version, as are `HTTP/3` and `HTTP/3.0`, and any name the proxy does not
/// know stands for HTTP/1.1.
pub proof fn law_version_aliases(s: Seq<char>)
    ensures
        parse_version_spec("HTTP/2.0"@) == parse_version_spec("HTTP/2"@),
        parse_version_spec("HTTP/3.0"@) == parse_version_spec("HTTP/3"@),
        s != "HTTP/0.9"@ && s != "HTTP/1.0"@ && s != "HTTP/2.0"@ && s != "HTTP/2"@ && s != "HTTP/3.0"@ && s
            != "HTTP/3"@ ==> parse_version_spec(s) == HttpVersion::Http11,
{
    reveal_strlit("HTTP/0.9");
    reveal_strlit("HTTP/1.0");
    reveal_strlit("HTTP/2.0");
    reveal_strlit("HTTP/2");
    reveal_strlit("HTTP/3.0");
    reveal_strlit("HTTP/3");
    assert("HTTP/2.0"@[5] != "HTTP/0.9"@[5] && "HTTP/2.0"@[5] != "HTTP/1.0"@[5]);
    assert("HTTP/2"@.len() != "HTTP/0.9"@.len() && "HTTP/2"@.len() != "HTTP/1.0"@.len());
    assert("HTTP/3.0"@[5] != "HTTP/0.9"@[5] && "HTTP/3.0"@[5] != "HTTP/1.0"@[5] && "HTTP/3.0"@[5] != "HTTP/2.0"@[5]);
    assert("HTTP/3"@.len() != "HTTP/0.9"@.len() && "HTTP/3"@.len() != "HTTP/1.0"@.len() && "HTTP/3"@.len()
        != "HTTP/2.0"@.len() && "HTTP/3"@[5] != "HTTP/2"@[5]);
}

/// The recorded name of a version.
pub fn version_name(v: HttpVersion) -> (r: &'static str)
    ensures
        r@ == version_name_spec(v),
{
    match v {
        HttpVersion::Http09 => "HTTP/0.9",
        HttpVersion::Http10 => "HTTP/1.0",
        HttpVersion::Http11 => "HTTP/1.1",
        HttpVersion::Http2 => "HTTP/2",
        HttpVersion::Http3 => "HTTP/3",
    }
}

/// The version a recorded name stands for; unknown names mean HTTP/1.1.
pub fn parse_version(s: &str) -> (r: HttpVersion)
    ensures
        r == parse_version_spec(s@),
{
    if crate::text::str_eq(s, "HTTP/0.9") {
        HttpVersion::Http09
    } else if crate::text::str_eq(s, "HTTP/1.0") {
        HttpVersion::Http10
    } else if crate::text::str_eq(s, "HTTP/2.0") || crate::text::str_eq(s, "HTTP/2") {
        HttpVersion::Http2
    } else if crate::text::str_eq(s, "HTTP/3.0") || crate::text::str_eq(s, "HTTP/3") {
        HttpVersion::Http3
    } else {
        HttpVersion::Http11
    }
}

/// Parsing a version's recorded name gives the version back.
pub proof fn law_version_name_round_trip(v: HttpVersion)
    ensures
        parse_version_spec(version_name_spec(v)) == v,
{
    reveal_strlit("HTTP/0.9");
    reveal_strlit("HTTP/1.0");
    reveal_strlit("HTTP/1.1");
    reveal_strlit("HTTP/2");
    reveal_strlit("HTTP/2.0");
    reveal_strlit("HTTP/3");
    reveal_strlit("HTTP/3.0");
    match v {
        HttpVersion::Http09 => {},
        HttpVersion::Http10 => {
            assert("HTTP/1.0"@[5] != "HTTP/0.9"@[5]);
        },
        HttpVersion::Http11 => {
            assert("HTTP/1.1"@[5] != "HTTP/0.9"@[5]);
            assert("HTTP/1.1"@[7] != "HTTP/1.0"@[7]);
            assert("HTTP/1.1"@[5] != "HTTP/2.0"@[5]);
            assert("HTTP/1.1"@[5] != "HTTP/3.0"@[5]);
        },
        HttpVersion::Http2 => {
            assert("HTTP/2"@.len() != "HTTP/0.9"@.len());
        },
        HttpVersion::Http3 => {
            assert("HTTP/3"@[5] != "HTTP/2"@[5]);
        },
    }
}

/// A TLS error message lowercased, without spaces and underscores.
pub open spec fn squash(s: Seq<char>) -> Seq<char>
    decreases s.len(),
{
    if s.len() == 0 {
        Seq::empty()
    } else {
        let c = lower_char(s.last());
        if c == ' ' || c == '_' {
            squash(s.drop_last())
        } else {
            squash(s.drop_last()).push(c)
        }
    }
}

/// The recorded kind of a failed TLS handshake with the client: a client that
/// refused the proxy's CA, or any other protocol error.
pub open spec fn tls_error_kind(message: Seq<char>) -> Seq<char> {
    let n = squash(message);
    if contains_seq(n, "unknownca"@) || contains_seq(n, "badcertificate"@) || contains_seq(
        n,
        "certificateunknown"@,
    ) {
        "client_rejected_ca"@
    } else {
        "tls_protocol_error"@
    }
}

/// A failed handshake is classified as one of two kinds: a client that refused
/// the proxy's CA, when the message (lowercased, without spaces and
/// underscores) names an unknown CA, a bad certificate or an unknown
/// certificate; any other message is a protocol error.
pub proof fn law_tls_error_kinds(message: Seq<char>)
    ensures
        tls_error_kind(message) == "client_rejected_ca"@ || tls_error_kind(message) == "tls_protocol_error"@,
        contains_seq(squash(message), "unknownca"@) ==> tls_error_kind(message) == "client_rejected_ca"@,
        contains_seq(squash(message), "badcertificate"@) ==> tls_error_kind(message) == "client_rejected_ca"@,
        contains_seq(squash(message), "certificateunknown"@) ==> tls_error_kind(message) == "client_rejected_ca"@,
        !contains_seq(squash(message), "unknownca"@) && !contains_seq(squash(message), "badcertificate"@)
            && !contains_seq(squash(message), "certificateunknown"@) ==> tls_error_kind(message)
            == "tls_protocol_error"@,
{
}

/// Classifies a TLS handshake error message.
pub fn normalize_tls_error(message: &str) -> (r: &'static str)
    ensures
        r@ == tls_error_kind(message@),
{
    let n = message.unicode_len();
    let mut out = String::new();
    let mut i: usize = 0;
    while i < n
        invariant
            n == message@.len(),
            i <= n,
            out@ == squash(message@.subrange(0, i as int)),
        decreases n - i,
    {
        let c = ascii_lower_char(message.get_char(i));
        let ghost sub = message@.subrange(0, i + 1);
        assert(sub.drop_last() == message@.subrange(0, i as int));
        if c != ' ' && c != '_' {
            push_char(&mut out, c);
        }
        i = i + 1;
    }
    assert(message@.subrange(0, n as int) == message@);
    let s = out.as_str();
    if str_contains(s, "unknownca") || str_contains(s, "badcertificate") || str_contains(
        s,
        "certificateunknown",
    ) {
        "client_rejected_ca"
    } else {
        "tls_protocol_error"
    }
}

/// Adds `next` to the errors of one interceptor run, separated by `; `.
pub fn append_run_error(current: &mut Option<String>, next: String)
    ensures
        match *old(current) {
            Some(c) => final(current).is_some() && final(current).unwrap()@ == c@ + "; "@ + next@,
            None => *final(current) == Some(next),
        },
{
    match current {
        Some(c) => {
            c.append("; ");
            c.append(next.as_str());
        },
        None => {
            *current = Some(next);
        },
    }
}

/// The lowercase hexadecimal digit for `d`, below 16.
pub open spec fn hex_char(d: int) -> char {
    if d < 10 {
        (('0' as int) + d) as char
    } else {
        (('a' as int) + d - 10) as char
    }
}

/// The value of a hexadecimal digit of either case.
pub open spec fn hex_value(c: char) -> Option<int> {
    if '0' <= c && c <= '9' {
        Some(c as int - '0' as int)
    } else if 'a' <= c && c <= 'f' {
        Some(c as int - 'a' as int + 10)
    } else if 'A' <= c && c <= 'F' {
        Some(c as int - 'A' as int + 10)
    } else {
        None
    }
}

/// Bytes as lowercase hexadecimal, two digits per byte, high digit first.
pub open spec fn hex_encode(b: Seq<u8>) -> Seq<char>
    decreases b.len(),
{
    if b.len() == 0 {
        Seq::empty()
    } else {
        hex_encode(b.drop_last()).push(hex_char((b.last() / 16) as int)).push(hex_char((b.last() % 16) as int))
    }
}

/// The bytes a hexadecimal text stands for; `None` unless it has an even
/// number of characters, all hexadecimal digits.
pub open spec fn hex_decode(s: Seq<char>) -> Option<Seq<u8>>
    decreases s.len(),
{
    if s.len() == 0 {
        Some(Seq::empty())
    } else if s.len() == 1 {
        None
    } else {
        match (hex_decode(s.subrange(0, s.len() - 2)), hex_value(s[s.len() - 2]), hex_value(s[s.len() - 1])) {
            (Some(front), Some(h), Some(l)) => Some(front.push((h * 16 + l) as u8)),
            _ => None,
        }
    }
}

proof fn lemma_hex_encode_len(b: Seq<u8>)
    ensures
        hex_encode(b).len() == 2 * b.len(),
    decreases b.len(),
{
    if b.len() > 0 {
        lemma_hex_encode_len(b.drop_last());
    }
}

/// Decoding hexadecimal text of some bytes gives those bytes back.
pub proof fn law_hex_round_trip(b: Seq<u8>)
    ensures
        hex_decode(hex_encode(b)) == Some(b),
    decreases b.len(),
{
    if b.len() > 0 {
        law_hex_round_trip(b.drop_last());
        lemma_hex_encode_len(b.drop_last());
        let e = hex_encode(b);
        let front = hex_encode(b.drop_last());
        assert(e.subrange(0, e.len() - 2) == front);
        let x = b.last() as int;
        assert(hex_value(hex_char(x / 16)) == Some(x / 16));
        assert(hex_value(hex_char(x % 16)) == Some(x % 16));
        assert((x / 16) * 16 + x % 16 == x);
        assert(b.drop_last().push(b.last()) == b);
    }
}

fn hex_digit_char(d: u8) -> (c: char)
    requires
        d < 16,
    ensures
        c == hex_char(d as int),
{
    if d < 10 {
        (48u8 + d) as char
    } else {
        (87u8 + d) as char
    }
}

/// Lowercase hexadecimal text of `bytes`.
pub fn encode_hex(bytes: &[u8]) -> (r: String)
    ensures
        r@ == hex_encode(bytes@),
{
    let n = bytes.len();
    let mut out = String::new();
    let mut i: usize = 0;
    while i < n
        invariant
            n == bytes@.len(),
            i <= n,
            out@ == hex_encode(bytes@.subrange(0, i as int)),
        decreases n - i,
    {
        let b = bytes[i];
        let ghost sub = bytes@.subrange(0, i + 1);
        assert(sub.drop_last() == bytes@.subrange(0, i as int));
        push_char(&mut out, hex_digit_char(b / 16));
        push_char(&mut out, hex_digit_char(b % 16));
        i = i + 1;
    }
    assert(bytes@.subrange(0, n as int) == bytes@);
    out
}

fn hex_digit(c: char) -> (r: Option<u8>)
    ensures
        match r {
            Some(d) => hex_value(c) == Some(d as int),
            None => hex_value(c).is_none(),
        },
{
    if '0' <= c && c <= '9' {
        Some((c as u32 - '0' as u32) as u8)
    } else if 'a' <= c && c <= 'f' {
        Some((c as u32 - 'a' as u32 + 10) as u8)
    } else if 'A' <= c && c <= 'F' {
        Some((c as u32 - 'A' as u32 + 10) as u8)
    } else {
        None
    }
}

/// The bytes a hexadecimal text stands for.
pub fn decode_hex(encoded: &str) -> (r: Result<Vec<u8>, String>)
    ensures
        match r {
            Ok(b) => hex_decode(encoded@) == Some(b@),
            Err(message) => hex_decode(encoded@).is_none() && message@ == "invalid encoded binary header"@,
        },
{
    let n = encoded.unicode_len();
    if n % 2 == 1 {
        proof {
            lemma_hex_decode_odd(encoded@);
        }
        return Err(String::from_str("invalid encoded binary header"));
    }
    let mut out: Vec<u8> = Vec::new();
    let mut i: usize = 0;
    while i < n
        invariant
            n == encoded@.len(),
            n % 2 == 0,
            i % 2 == 0,
            i <= n,
            hex_decode(encoded@.subrange(0, i as int)) == Some(out@),
        decreases n - i,
    {
        let ghost sub = encoded@.subrange(0, i + 2);
        assert(sub.subrange(0, i as int) == encoded@.subrange(0, i as int));
        assert(sub[i as int] == encoded@[i as int]);
        assert(sub[i + 1] == encoded@[i + 1]);
        let high = hex_digit(encoded.get_char(i));
        let low = hex_digit(encoded.get_char(i + 1));
        match (high, low) {
            (Some(h), Some(l)) => {
                out.push(h * 16 + l);
            },
            _ => {
                proof {
                    lemma_hex_decode_prefix_none(encoded@, i + 2);
                }
                return Err(String::from_str("invalid encoded binary header"));
            },
        }
        i = i + 2;
    }
    assert(encoded@.subrange(0, n as int) == encoded@);
    Ok(out)
}

proof fn lemma_hex_decode_odd(s: Seq<char>)
    requires
        s.len() % 2 == 1,
    ensures
        hex_decode(s).is_none(),
    decreases s.len(),
{
    if s.len() > 1 {
        lemma_hex_decode_odd(s.subrange(0, s.len() - 2));
    }
}

/// Once an even-length prefix fails to decode, the whole text fails.
proof fn lemma_hex_decode_prefix_none(s: Seq<char>, k: int)
    requires
        0 <= k <= s.len(),
        k % 2 == 0,
        s.len() % 2 == 0,
        hex_decode(s.subrange(0, k)).is_none(),
    ensures
        hex_decode(s).is_none(),
    decreases s.len() - k,
{
    if k < s.len() {
        let t = s.subrange(0, k + 2);
        assert(t.subrange(0, k) == s.subrange(0, k));
        assert(hex_decode(t).is_none());
        lemma_hex_decode_prefix_none(s, k + 2);
    } else {
        assert(s.subrange(0, k) == s);
    }
}

/// Whether a header byte is visible ASCII or a tab, so the value reads as text.
pub open spec fn visible_header_byte(b: u8) -> bool {
    b == 9 || (32 <= b && b < 127)
}

/// The marker that starts the text form of a header value that is not text.
pub open spec fn binary_prefix() -> Seq<char> {
    "\u{e000}proxy-crab-binary:v1:"@
}

/// How a raw header value is recorded: as its text when every byte is visible
/// ASCII or a tab, else as the marker followed by its hexadecimal bytes.
pub open spec fn header_text_spec(b: Seq<u8>) -> Seq<char> {
    if forall|i: int| 0 <= i < b.len() ==> visible_header_byte(#[trigger] b[i]) {
        b.map_values(|x: u8| x as char)
    } else {
        binary_prefix() + hex_encode(b)
    }
}

/// The raw bytes a recorded header value stands for; `None` when it carries
/// the marker but no valid hexadecimal bytes.
pub open spec fn header_bytes_spec(v: Seq<char>) -> Option<Seq<u8>> {
    if crate::text::is_prefix(binary_prefix(), v) {
        hex_decode(v.subrange(binary_prefix().len() as int, v.len() as int))
    } else {
        Some(vstd::utf8::encode_utf8(v))
    }
}

/// The marker that starts the text form of a header value that is not text.
pub fn binary_header_prefix() -> (r: &'static str)
    ensures
        r@ == binary_prefix(),
{
    "\u{e000}proxy-crab-binary:v1:"
}

/// The recorded text of a raw header value.
pub fn encode_header_value(bytes: &[u8]) -> (r: String)
    ensures
        r@ == header_text_spec(bytes@),
{
    let n = bytes.len();
    let mut visible = true;
    let mut i: usize = 0;
    while i < n
        invariant
            n == bytes@.len(),
            i <= n,
            visible == forall|k: int| 0 <= k < i ==> visible_header_byte(#[trigger] bytes@[k]),
        decreases n - i,
    {
        let b = bytes[i];
        if !(b == 9 || (32 <= b && b < 127)) {
            visible = false;
        }
        i = i + 1;
    }
    if visible {
        let mut out = String::new();
        let mut j: usize = 0;
        while j < n
            invariant
                n == bytes@.len(),
                j <= n,
                out@ == bytes@.subrange(0, j as int).map_values(|x: u8| x as char),
            decreases n - j,
        {
            push_char(&mut out, bytes[j] as char);
            assert(bytes@.subrange(0, j + 1).map_values(|x: u8| x as char) =~= bytes@.subrange(
                0,
                j as int,
            ).map_values(|x: u8| x as char).push(bytes@[j as int] as char));
            j = j + 1;
        }
        assert(bytes@.subrange(0, n as int) == bytes@);
        out
    } else {
        let mut out = String::from_str(binary_header_prefix());
        let hex = encode_hex(bytes);
        out.append(hex.as_str());
        out
    }
}

/// The raw bytes a recorded header value stands for.
pub fn decode_header_value(value: &str) -> (r: Result<Vec<u8>, String>)
    ensures
        match r {
            Ok(b) => header_bytes_spec(value@) == Some(b@),
            Err(message) => header_bytes_spec(value@).is_none()
                && message@ == "invalid encoded binary header"@,
        },
{
    let prefix = binary_header_prefix();
    if crate::text::str_starts_with(value, prefix) {
        let rest = value.substring_char(prefix.unicode_len(), value.unicode_len());
        decode_hex(rest)
    } else {
        Ok(value.as_bytes_vec())
    }
}

/// Recording a raw header value and reading it back gives the same bytes,
/// whether or not the value is text.
pub proof fn law_header_value_round_trip(b: Seq<u8>)
    ensures
        header_bytes_spec(header_text_spec(b)) == Some(b),
{
    let p = binary_prefix();
    reveal_strlit("\u{e000}proxy-crab-binary:v1:");
    if forall|i: int| 0 <= i < b.len() ==> visible_header_byte(#[trigger] b[i]) {
        let v = b.map_values(|x: u8| x as char);
        assert(v.len() == b.len());
        if crate::text::is_prefix(p, v) {
            assert(v[0] == p[0]);
            assert(visible_header_byte(b[0]));
            assert(false);
        }
        assert(vstd::utf8::is_ascii_chars(v)) by {
            assert forall|i: int| 0 <= i < v.len() implies '\0' <= #[trigger] v[i] <= '\u{7f}' by {
                assert(visible_header_byte(b[i]));
            }
        }
        vstd::utf8::is_ascii_chars_encode_utf8(v);
        assert(vstd::utf8::encode_utf8(v) =~= b);
    } else {
        let v = p + hex_encode(b);
        assert(crate::text::is_prefix(p, v)) by {
            assert(v.subrange(0, p.len() as int) =~= p);
        }
        assert(v.subrange(p.len() as int, v.len() as int) =~= hex_encode(b));
        law_hex_round_trip(b);
    }
}

/// The header names a `Connection` value lists: its comma-separated parts,
/// trimmed and lowercased, without empty parts.
pub open spec fn listed_names(parts: Seq<Seq<char>>) -> Seq<Seq<char>>
    decreases parts.len(),
{
    if parts.len() == 0 {
        Seq::empty()
    } else {
        let t = lower(trim(parts.last()));
        if t.len() > 0 {
            listed_names(parts.drop_last()).push(t)
        } else {
            listed_names(parts.drop_last())
        }
    }
}

/// The names listed by every `Connection` value, in order.
pub open spec fn connection_names(values: Seq<Seq<char>>) -> Seq<Seq<char>>
    decreases values.len(),
{
    if values.len() == 0 {
        Seq::empty()
    } else {
        connection_names(values.drop_last()) + listed_names(split_on(values.last(), ','))
    }
}

/// The names a `Connection` header lists are never blank: empty entries
/// between commas are skipped.
pub proof fn law_listed_names_are_not_blank(parts: Seq<Seq<char>>)
    ensures
        forall|i: int| 0 <= i < listed_names(parts).len() ==> #[trigger] listed_names(parts)[i].len() > 0,
    decreases parts.len(),
{
    if parts.len() > 0 {
        let rest = listed_names(parts.drop_last());
        law_listed_names_are_not_blank(parts.drop_last());
        assert forall|i: int| 0 <= i < listed_names(parts).len() implies #[trigger] listed_names(parts)[i].len() > 0 by {
            if i < rest.len() {
                assert(listed_names(parts)[i] == rest[i]);
            }
        }
    }
}

/// The headers that only concern one connection and are always dropped.
pub open spec fn fixed_hop_headers() -> Seq<Seq<char>> {
    seq![
        "keep-alive"@,
        "proxy-authenticate"@,
        "proxy-authorization"@,
        "proxy-connection"@,
        "te"@,
        "trailer"@,
    ]
}

/// Which headers a message loses before it crosses the proxy: every header the
/// `Connection` values name (but `upgrade` while an upgrade goes through), the
/// fixed hop-by-hop headers, and, unless an upgrade goes through, `connection`
/// and `upgrade` themselves. While an upgrade goes through, `connection` is
/// then set to `upgrade`.
pub struct HopByHopPlan {
    pub remove: Vec<String>,
    pub set_connection_upgrade: bool,
}

/// The names to drop for a given list of `Connection` names.
pub open spec fn hop_removals(names: Seq<Seq<char>>, preserve_upgrade: bool) -> Seq<Seq<char>> {
    names.filter(|n: Seq<char>| !preserve_upgrade || n != "upgrade"@) + fixed_hop_headers() + if preserve_upgrade {
        Seq::<Seq<char>>::empty()
    } else {
        seq!["connection"@, "upgrade"@]
    }
}

/// What crosses the proxy: the fixed hop-by-hop headers never do; `connection`
/// and `upgrade` do not unless an upgrade goes through, and then `upgrade` is
/// kept; every other header the `Connection` values name is removed.
pub proof fn law_hop_by_hop_removals(names: Seq<Seq<char>>, preserve_upgrade: bool, name: Seq<char>)
    ensures
        fixed_hop_headers().contains(name) ==> hop_removals(names, preserve_upgrade).contains(name),
        !preserve_upgrade ==> hop_removals(names, false).contains("connection"@) && hop_removals(
            names,
            false,
        ).contains("upgrade"@),
        names.contains(name) && (!preserve_upgrade || name != "upgrade"@) ==> hop_removals(
            names,
            preserve_upgrade,
        ).contains(name),
        preserve_upgrade && !fixed_hop_headers().contains("upgrade"@) ==> !hop_removals(names, true).contains(
            "upgrade"@,
        ),
{
    let f = |n: Seq<char>| !preserve_upgrade || n != "upgrade"@;
    let kept = names.filter(f);
    let all = hop_removals(names, preserve_upgrade);
    if fixed_hop_headers().contains(name) {
        let k = choose|k: int| 0 <= k < fixed_hop_headers().len() && fixed_hop_headers()[k] == name;
        assert(all[kept.len() + k] == name);
    }
    if !preserve_upgrade {
        assert(all[(kept.len() + fixed_hop_headers().len()) as int] == "connection"@);
        assert(all[(kept.len() + fixed_hop_headers().len() + 1) as int] == "upgrade"@);
    }
    if names.contains(name) && (!preserve_upgrade || name != "upgrade"@) {
        let k = choose|k: int| 0 <= k < names.len() && names[k] == name;
        names.lemma_filter_contains(f, k);
        assert(kept.contains(name));
        let j = choose|j: int| 0 <= j < kept.len() && kept[j] == name;
        assert(all[j] == name);
    }
    if preserve_upgrade && !fixed_hop_headers().contains("upgrade"@) {
        if all.contains("upgrade"@) {
            let j = choose|j: int| 0 <= j < all.len() && all[j] == "upgrade"@;
            if j < kept.len() {
                names.lemma_filter_pred(f, j);
                assert(f(kept[j]));
            } else {
                assert(fixed_hop_headers()[j - kept.len()] == "upgrade"@);
            }
        }
    }
}

fn push_listed_names(out: &mut Vec<String>, value: &str)
    ensures
        final(out).deep_view() == old(out).deep_view() + listed_names(split_on(value@, ',')),
{
    let parts = split_char(value, ',');
    let n = parts.len();
    let ghost start = out.deep_view();
    let mut i: usize = 0;
    while i < n
        invariant
            n == parts@.len(),
            parts.deep_view() == split_on(value@, ','),
            i <= n,
            out.deep_view() == start + listed_names(parts.deep_view().subrange(0, i as int)),
        decreases n - i,
    {
        let token = to_ascii_lowercase(str_trim(parts[i].as_str()));
        let ghost sub = parts.deep_view().subrange(0, i + 1);
        assert(sub.drop_last() == parts.deep_view().subrange(0, i as int));
        assert(sub.last() == parts[i as int]@);
        if token.unicode_len() > 0 {
            let ghost prev = out.deep_view();
            out.push(token);
            assert(out.deep_view() =~= prev.push(lower(trim(sub.last()))));
        }
        assert(out.deep_view() =~= start + listed_names(sub));
        i = i + 1;
    }
    assert(parts.deep_view().subrange(0, n as int) == parts.deep_view());
}

/// The names listed by the given `Connection` values.
pub fn connection_header_names(values: &Vec<String>) -> (r: Vec<String>)
    ensures
        r.deep_view() == connection_names(values.deep_view()),
{
    let n = values.len();
    let mut out: Vec<String> = Vec::new();
    let mut i: usize = 0;
    while i < n
        invariant
            n == values@.len(),
            i <= n,
            out.deep_view() == connection_names(values.deep_view().subrange(0, i as int)),
        decreases n - i,
    {
        let ghost sub = values.deep_view().subrange(0, i + 1);
        assert(sub.drop_last() == values.deep_view().subrange(0, i as int));
        assert(sub.last() == values[i as int]@);
        push_listed_names(&mut out, values[i].as_str());
        i = i + 1;
    }
    assert(values.deep_view().subrange(0, n as int) == values.deep_view());
    out
}

fn push_str_item(out: &mut Vec<String>, s: &str)
    ensures
        final(out).deep_view() == old(out).deep_view().push(s@),
{
    let ghost prev = out.deep_view();
    out.push(String::from_str(s));
    assert(out.deep_view() =~= prev.push(s@));
}

/// Plans the removal of hop-by-hop headers, given the text `Connection` values
/// of the message and whether a protocol upgrade goes through.
pub fn hop_by_hop_plan(connection_values: &Vec<String>, preserve_upgrade: bool) -> (r: HopByHopPlan)
    ensures
        r.remove.deep_view() == hop_removals(connection_names(connection_values.deep_view()), preserve_upgrade),
        r.set_connection_upgrade == preserve_upgrade,
{
    let names = connection_header_names(connection_values);
    let ghost all = names.deep_view();
    let mut remove: Vec<String> = Vec::new();
    let n = names.len();
    let mut i: usize = 0;
    while i < n
        invariant
            n == all.len(),
            all == names.deep_view(),
            i <= n,
            remove.deep_view() == all.subrange(0, i as int).filter(
                |m: Seq<char>| !preserve_upgrade || m != "upgrade"@,
            ),
        decreases n - i,
    {
        let ghost sub = all.subrange(0, i + 1);
        assert(sub.drop_last() == all.subrange(0, i as int));
        reveal(Seq::filter);
        if !preserve_upgrade || !crate::text::str_eq(names[i].as_str(), "upgrade") {
            push_str_item(&mut remove, names[i].as_str());
        }
        assert(remove.deep_view() =~= sub.filter(|m: Seq<char>| !preserve_upgrade || m != "upgrade"@));
        i = i + 1;
    }
    assert(all.subrange(0, n as int) == all);
    let ghost kept = remove.deep_view();
    push_str_item(&mut remove, "keep-alive");
    push_str_item(&mut remove, "proxy-authenticate");
    push_str_item(&mut remove, "proxy-authorization");
    push_str_item(&mut remove, "proxy-connection");
    push_str_item(&mut remove, "te");
    push_str_item(&mut remove, "trailer");
    assert(remove.deep_view() =~= kept + fixed_hop_headers());
    if !preserve_upgrade {
        push_str_item(&mut remove, "connection");
        push_str_item(&mut remove, "upgrade");
    }
    assert(remove.deep_view() =~= hop_removals(all, preserve_upgrade));
    HopByHopPlan { remove, set_connection_upgrade: preserve_upgrade }
}

} // verus!
