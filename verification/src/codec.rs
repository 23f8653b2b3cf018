//! The rules of the `base64` and `json` modules that scripts use: the 16 MiB
//! limits on what goes in and out, the choice of Base64 alphabet and padding,
//! the running estimate that stops a JSON encoding early, the shape a table
//! must have to become a JSON array or object, and the counts of lossy
//! conversions that are reported after a script runs.
use base64::Engine as _;
use vstd::prelude::*;
use vstd::string::*;

use crate::text::{lemma_seq_lt_irreflexive, lemma_seq_lt_transitive, seq_lt, str_eq, str_lt};

verus! {

/// The most bytes a codec call takes in or gives back: 16 MiB.
pub const CODEC_BYTE_LIMIT: usize = 16777216;

/// The deepest nesting of JSON containers accepted either way.
pub const JSON_DEPTH_LIMIT: usize = 128;

/// The message for input over the limit, `{label} input exceeds the 16 MiB limit`.
pub open spec fn input_limit_message(label: Seq<char>) -> Seq<char> {
    label + " input exceeds the 16 MiB limit"@
}

/// The message for output over the limit, `{label} output exceeds the 16 MiB limit`.
pub open spec fn output_limit_message(label: Seq<char>) -> Seq<char> {
    label + " output exceeds the 16 MiB limit"@
}

/// Refuses input larger than the limit.
pub fn ensure_input_limit(size: usize, label: &str) -> (r: Result<(), String>)
    ensures
        match r {
            Ok(()) => size <= CODEC_BYTE_LIMIT,
            Err(m) => size > CODEC_BYTE_LIMIT && m@ == input_limit_message(label@),
        },
{
    if size > CODEC_BYTE_LIMIT {
        let mut m = String::from_str(label);
        m.append(" input exceeds the 16 MiB limit");
        return Err(m);
    }
    Ok(())
}

/// Refuses output larger than the limit.
pub fn ensure_output_limit(size: usize, label: &str) -> (r: Result<(), String>)
    ensures
        match r {
            Ok(()) => size <= CODEC_BYTE_LIMIT,
            Err(m) => size > CODEC_BYTE_LIMIT && m@ == output_limit_message(label@),
        },
{
    if size > CODEC_BYTE_LIMIT {
        let mut m = String::from_str(label);
        m.append(" output exceeds the 16 MiB limit");
        return Err(m);
    }
    Ok(())
}

/// The Base64 engines scripts can reach.
#[derive(Debug, Clone, Copy, PartialEq, Eq, Structural)]
pub enum Base64Engine {
    /// The standard alphabet, padded; decoding requires canonical padding.
    Standard,
    /// The URL-safe alphabet, padded; decoding requires canonical padding.
    UrlSafe,
    /// The URL-safe alphabet without padding; decoding refuses padding.
    UrlSafeNoPad,
}

/// The length of the Base64 text of `n` bytes: four characters per complete
/// group of three bytes, then four more with padding, or two or three without.
pub open spec fn base64_len(n: nat, padding: bool) -> nat {
    let complete = (n / 3) * 4;
    if n % 3 == 0 {
        complete
    } else if padding {
        complete + 4
    } else if n % 3 == 1 {
        complete + 2
    } else {
        complete + 3
    }
}

/// `base64::encoded_len`: the Base64 length of `bytes_len` bytes, or `None`
/// when it does not fit in a `usize`.
#[verifier::external_body]
fn encoded_len(bytes_len: usize, padding: bool) -> (r: Option<usize>)
    ensures
        match r {
            Some(n) => n == base64_len(bytes_len as nat, padding),
            None => base64_len(bytes_len as nat, padding) > usize::MAX,
        },
{
    base64::encoded_len(bytes_len, padding)
}

/// What `base64`'s `Engine::encode` writes for these bytes with this engine.
pub uninterp spec fn base64_encoding(engine: Base64Engine, bytes: Seq<u8>) -> Seq<char>;

/// What `base64`'s `Engine::decode` reads from these bytes with this engine,
/// or `None` when it refuses them.
pub uninterp spec fn base64_decoding(engine: Base64Engine, text: Seq<u8>) -> Option<Seq<u8>>;

/// `Engine::encode` of the chosen engine. Its text is as long as
/// `encoded_len` says, and the same engine decodes it back to the bytes. The
/// padded URL-safe text ends in `=` exactly when the byte count is not a
/// multiple of three; otherwise it has no padding and the unpadded engine
/// reads it too. The unpadded text never holds `=`.
#[verifier::external_body]
fn engine_encode(engine: Base64Engine, bytes: &[u8]) -> (r: String)
    requires
        base64_len(bytes@.len(), !(engine == Base64Engine::UrlSafeNoPad)) <= usize::MAX,
    ensures
        r@ == base64_encoding(engine, bytes@),
        r@.len() == base64_len(bytes@.len(), !(engine == Base64Engine::UrlSafeNoPad)),
        vstd::utf8::is_ascii_chars(r@),
        base64_decoding(engine, vstd::utf8::encode_utf8(r@)) == Some(bytes@),
        engine == Base64Engine::UrlSafe ==> (r@.contains('=') <==> bytes@.len() % 3 != 0),
        engine == Base64Engine::UrlSafeNoPad ==> !r@.contains('='),
        engine == Base64Engine::UrlSafe && bytes@.len() % 3 == 0 ==> base64_decoding(
            Base64Engine::UrlSafeNoPad,
            vstd::utf8::encode_utf8(r@),
        ) == Some(bytes@),
{
    match engine {
        Base64Engine::Standard => base64::engine::general_purpose::STANDARD.encode(bytes),
        Base64Engine::UrlSafe => base64::engine::general_purpose::URL_SAFE.encode(bytes),
        Base64Engine::UrlSafeNoPad => base64::engine::general_purpose::URL_SAFE_NO_PAD.encode(bytes),
    }
}

/// `Engine::decode` of the chosen engine; on refusal, the crate's error text.
#[verifier::external_body]
fn engine_decode(engine: Base64Engine, text: &[u8]) -> (r: Result<Vec<u8>, String>)
    ensures
        match r {
            Ok(b) => base64_decoding(engine, text@) == Some(b@),
            Err(_) => base64_decoding(engine, text@).is_none(),
        },
{
    let decoded = match engine {
        Base64Engine::Standard => base64::engine::general_purpose::STANDARD.decode(text),
        Base64Engine::UrlSafe => base64::engine::general_purpose::URL_SAFE.decode(text),
        Base64Engine::UrlSafeNoPad => base64::engine::general_purpose::URL_SAFE_NO_PAD.decode(text),
    };
    decoded.map_err(|error| error.to_string())
}

/// What encoding bytes for a script gives: input and output within the
/// limit, then the engine's text.
pub open spec fn encode_result(engine: Base64Engine, data: Seq<u8>) -> Result<Seq<char>, Seq<char>> {
    if data.len() > CODEC_BYTE_LIMIT {
        Err(input_limit_message("Base64"@))
    } else if base64_len(data.len(), !(engine == Base64Engine::UrlSafeNoPad)) > CODEC_BYTE_LIMIT {
        Err(output_limit_message("Base64"@))
    } else {
        Ok(base64_encoding(engine, data))
    }
}

/// Encodes bytes for a script, within the limits.
pub fn base64_encode_with(engine: Base64Engine, data: &[u8]) -> (r: Result<String, String>)
    ensures
        match r {
            Ok(t) => encode_result(engine, data@) == Ok::<Seq<char>, Seq<char>>(t@),
            Err(m) => encode_result(engine, data@) == Err::<Seq<char>, Seq<char>>(m@),
        },
        r matches Ok(t) ==> decode_ok(engine, vstd::utf8::encode_utf8(t@)) == Some(data@),
        r matches Ok(t) ==> t@.len() == base64_len(data@.len(), engine != Base64Engine::UrlSafeNoPad),
        engine != Base64Engine::Standard ==> (r matches Ok(t) ==> decode_ok(
            url_engine_for(vstd::utf8::encode_utf8(t@)),
            vstd::utf8::encode_utf8(t@),
        ) == Some(data@)),
{
    ensure_input_limit(data.len(), "Base64")?;
    let padding = match engine {
        Base64Engine::UrlSafeNoPad => false,
        _ => true,
    };
    let output_len = match encoded_len(data.len(), padding) {
        Some(n) => n,
        None => {
            proof {
                assert(base64_len(data@.len(), padding) <= (data@.len() / 3) * 4 + 4);
            }
            return Err(String::from_str("Base64 output size overflow"));
        },
    };
    ensure_output_limit(output_len, "Base64")?;
    let text = engine_encode(engine, data);
    proof {
        vstd::utf8::is_ascii_chars_encode_utf8(text@);
        let bytes = vstd::utf8::encode_utf8(text@);
        lemma_ascii_equals_sign(text@);
        if engine != Base64Engine::Standard {
            assert(bytes.contains(61u8) == text@.contains('='));
        }
    }
    Ok(text)
}

/// An ASCII text holds `=` exactly when its UTF-8 bytes hold byte 61.
proof fn lemma_ascii_equals_sign(text: Seq<char>)
    requires
        vstd::utf8::is_ascii_chars(text),
    ensures
        vstd::utf8::encode_utf8(text).contains(61u8) == text.contains('='),
{
    let bytes = vstd::utf8::encode_utf8(text);
    vstd::utf8::is_ascii_chars_encode_utf8(text);
    if text.contains('=') {
        let i = choose|i: int| 0 <= i < text.len() && text[i] == '=';
        assert(bytes[i] == text[i] as u8);
        assert(bytes[i] == 61u8);
    }
    if bytes.contains(61u8) {
        let i = choose|i: int| 0 <= i < bytes.len() && bytes[i] == 61u8;
        assert(bytes[i] == text[i] as u8);
        assert((text[i] as u8) == 61u8);
        vstd::utf8::is_ascii_chars_nat_bound(text);
        assert((text[i] as nat) < 128);
        assert(text[i] == '=');
    }
}

/// `base64.encode`: standard alphabet with padding. Text it returns decodes
/// back to the same bytes with `base64.decode`.
pub fn base64_encode(data: &[u8]) -> (r: Result<String, String>)
    ensures
        match r {
            Ok(t) => encode_result(Base64Engine::Standard, data@) == Ok::<Seq<char>, Seq<char>>(t@),
            Err(m) => encode_result(Base64Engine::Standard, data@) == Err::<Seq<char>, Seq<char>>(m@),
        },
        r matches Ok(t) ==> decode_ok(Base64Engine::Standard, vstd::utf8::encode_utf8(t@)) == Some(data@),
        r matches Ok(t) ==> t@.len() == 4 * ((data@.len() + 2) / 3),
{
    let r = base64_encode_with(Base64Engine::Standard, data);
    proof {
        law_padded_length(data@.len());
    }
    r
}

/// Padded Base64 text is four characters for every started group of three
/// bytes: `4 * ceil(n / 3)`.
pub proof fn law_padded_length(n: nat)
    ensures
        base64_len(n, true) == 4 * ((n + 2) / 3),
{
    assert(base64_len(n, true) == 4 * ((n + 2) / 3)) by (nonlinear_arith);
}

/// The engine `base64.url_encode` uses, or the error when `with_padding` is
/// not a boolean.
pub fn url_encode_engine(with_padding: Option<bool>) -> (r: Result<Base64Engine, String>)
    ensures
        match with_padding {
            Some(true) => r == Ok::<Base64Engine, String>(Base64Engine::UrlSafe),
            Some(false) => r == Ok::<Base64Engine, String>(Base64Engine::UrlSafeNoPad),
            None => r matches Err(m) && m@ == "base64.url_encode requires a boolean with_padding argument"@,
        },
{
    match with_padding {
        Some(true) => Ok(Base64Engine::UrlSafe),
        Some(false) => Ok(Base64Engine::UrlSafeNoPad),
        None => Err(String::from_str("base64.url_encode requires a boolean with_padding argument")),
    }
}

/// What decoding text for a script gives: input within the limit, then the
/// engine's bytes within the limit. A refused text fails with a message that
/// starts with `prefix`.
pub open spec fn decode_ok(engine: Base64Engine, text: Seq<u8>) -> Option<Seq<u8>> {
    if text.len() > CODEC_BYTE_LIMIT {
        None
    } else {
        match base64_decoding(engine, text) {
            Some(b) => if b.len() > CODEC_BYTE_LIMIT {
                None
            } else {
                Some(b)
            },
            None => None,
        }
    }
}

/// The message of a refused decode: the input limit, then the engine's
/// refusal (`prefix` followed by the crate's error text), then the output limit.
pub open spec fn decode_failure(engine: Base64Engine, text: Seq<u8>, prefix: Seq<char>, m: Seq<char>) -> bool {
    if text.len() > CODEC_BYTE_LIMIT {
        m == input_limit_message("Base64"@)
    } else if base64_decoding(engine, text).is_none() {
        crate::text::is_prefix(prefix, m)
    } else {
        m == output_limit_message("Base64"@)
    }
}

/// Decodes text for a script, within the limits; `prefix` opens the message
/// of a refused text, which the crate's error text completes.
fn base64_decode_with(engine: Base64Engine, text: &[u8], prefix: &str) -> (r: Result<Vec<u8>, String>)
    ensures
        match r {
            Ok(b) => decode_ok(engine, text@) == Some(b@),
            Err(m) => decode_ok(engine, text@).is_none() && decode_failure(engine, text@, prefix@, m@),
        },
{
    ensure_input_limit(text.len(), "Base64")?;
    let decoded = match engine_decode(engine, text) {
        Ok(b) => b,
        Err(e) => {
            let mut m = String::from_str(prefix);
            m.append(e.as_str());
            assert(m@.subrange(0, prefix@.len() as int) =~= prefix@);
            return Err(m);
        },
    };
    ensure_output_limit(decoded.len(), "Base64")?;
    Ok(decoded)
}

/// `base64.decode`: standard alphabet, canonical padding required.
pub fn base64_decode(text: &[u8]) -> (r: Result<Vec<u8>, String>)
    ensures
        match r {
            Ok(b) => decode_ok(Base64Engine::Standard, text@) == Some(b@),
            Err(m) => decode_ok(Base64Engine::Standard, text@).is_none() && decode_failure(
                Base64Engine::Standard,
                text@,
                "invalid standard Base64: "@,
                m@,
            ),
        },
{
    base64_decode_with(Base64Engine::Standard, text, "invalid standard Base64: ")
}

/// The engine `base64.url_decode` picks for a text: padded when the text
/// holds `=`, unpadded otherwise.
pub open spec fn url_engine_for(text: Seq<u8>) -> Base64Engine {
    if text.contains(61u8) {
        Base64Engine::UrlSafe
    } else {
        Base64Engine::UrlSafeNoPad
    }
}

/// The engine `base64.url_decode` uses for a text.
pub fn url_decode_engine(text: &[u8]) -> (r: Base64Engine)
    ensures
        r == url_engine_for(text@),
{
    let n = text.len();
    let mut i: usize = 0;
    while i < n
        invariant
            n == text@.len(),
            i <= n,
            forall|k: int| 0 <= k < i ==> text@[k] != 61u8,
        decreases n - i,
    {
        if text[i] == 61u8 {
            assert(text@[i as int] == 61u8);
            return Base64Engine::UrlSafe;
        }
        i = i + 1;
    }
    Base64Engine::UrlSafeNoPad
}

/// `base64.url_decode`: URL-safe alphabet, padding as the text has it.
pub fn base64_url_decode(text: &[u8]) -> (r: Result<Vec<u8>, String>)
    ensures
        match r {
            Ok(b) => decode_ok(url_engine_for(text@), text@) == Some(b@),
            Err(m) => decode_ok(url_engine_for(text@), text@).is_none() && decode_failure(
                url_engine_for(text@),
                text@,
                "invalid URL-safe Base64: "@,
                m@,
            ),
        },
{
    base64_decode_with(url_decode_engine(text), text, "invalid URL-safe Base64: ")
}

/// A count that stops at `usize::MAX`.
pub open spec fn counted(n: usize) -> usize {
    if n < usize::MAX {
        (n + 1) as usize
    } else {
        n
    }
}

/// A warning count goes up by one each time, and stops at `usize::MAX`.
pub proof fn law_counts_saturate(n: usize)
    ensures
        n < usize::MAX ==> counted(n) == n + 1,
        n == usize::MAX ==> counted(n) == n,
        counted(n) >= n,
{
}

/// The index of the first member named `key`, if any.
pub open spec fn member_index<V>(members: Seq<(String, V)>, key: Seq<char>) -> Option<int> {
    if exists|i: int| 0 <= i < members.len() && #[trigger] members[i].0@ == key {
        Some(choose|i: int| 0 <= i < members.len() && #[trigger] members[i].0@ == key && forall|k: int|
            0 <= k < i ==> members[k].0@ != key)
    } else {
        None
    }
}

/// Adds a decoded object member: a key met before keeps its place, takes the
/// new value and is counted as a duplicate (the last one wins); a new key goes
/// last.
pub fn merge_member<V>(members: &mut Vec<(String, V)>, key: String, value: V, warnings: &mut JsonWarningState)
    ensures
        match member_index(old(members)@, key@) {
            Some(i) => {
                &&& final(members)@.len() == old(members)@.len()
                &&& final(members)@[i].0@ == key@
                &&& final(members)@[i].1 == value
                &&& forall|k: int| 0 <= k < old(members)@.len() && k != i ==> #[trigger] final(members)@[k]
                    == old(members)@[k]
                &&& final(warnings).counts.duplicate_keys == counted(old(warnings).counts.duplicate_keys)
            },
            None => final(members)@ == old(members)@.push((key, value)) && final(warnings).counts.duplicate_keys
                == old(warnings).counts.duplicate_keys,
        },
        final(warnings).counts.lossy_numbers == old(warnings).counts.lossy_numbers,
{
    let n = members.len();
    let mut i: usize = 0;
    while i < n
        invariant
            n == members@.len(),
            members@ == old(members)@,
            *warnings == *old(warnings),
            i <= n,
            forall|k: int| 0 <= k < i ==> members@[k].0@ != key@,
        decreases n - i,
    {
        if str_eq(members[i].0.as_str(), key.as_str()) {
            proof {
                assert(exists|j: int| 0 <= j < members@.len() && #[trigger] members@[j].0@ == key@) by {
                    assert(members@[i as int].0@ == key@);
                }
                let c = member_index(members@, key@).unwrap();
                assert(members@[c].0@ == key@);
                if c < i {
                } else if c > i {
                    assert(members@[i as int].0@ != key@);
                }
                assert(c == i);
            }
            members.set(i, (key, value));
            if warnings.counts.duplicate_keys < usize::MAX {
                warnings.note_duplicate_key();
            }
            return;
        }
        i = i + 1;
    }
    proof {
        if exists|j: int| 0 <= j < members@.len() && #[trigger] members@[j].0@ == key@ {
            let j = choose|j: int| 0 <= j < members@.len() && #[trigger] members@[j].0@ == key@;
            assert(members@[j].0@ != key@);
        }
    }
    members.push((key, value));
}

/// An unsigned JSON number as a script gets it: an integer when it fits in
/// `i64`; otherwise `None`, read as a float with precision lost, and counted.
pub fn decoded_unsigned(value: u64, warnings: &mut JsonWarningState) -> (r: Option<i64>)
    ensures
        value <= i64::MAX ==> r == Some(value as i64) && *final(warnings) == *old(warnings),
        value > i64::MAX ==> r.is_none() && final(warnings).counts.lossy_numbers == counted(
            old(warnings).counts.lossy_numbers,
        ) && final(warnings).counts.duplicate_keys == old(warnings).counts.duplicate_keys,
{
    if value <= 0x7fff_ffff_ffff_ffffu64 {
        Some(value as i64)
    } else {
        if warnings.counts.lossy_numbers < usize::MAX {
            warnings.note_lossy_number();
        }
        None
    }
}

/// How many lossy conversions one script's JSON decoding made: numbers that
/// lost precision, and object keys that appeared twice (the last one wins).
#[derive(Debug, Clone, Copy, Default, PartialEq, Eq, Structural)]
pub struct JsonWarningCounts {
    pub lossy_numbers: usize,
    pub duplicate_keys: usize,
}

impl JsonWarningCounts {
    /// Whether nothing was lost.
    pub fn is_empty(self) -> (r: bool)
        ensures
            r == (self.lossy_numbers == 0 && self.duplicate_keys == 0),
    {
        self.lossy_numbers == 0 && self.duplicate_keys == 0
    }
}

/// The warning counts gathered while a script runs.
#[derive(Debug, Clone, Copy, Default, PartialEq, Eq, Structural)]
pub struct JsonWarningState {
    pub counts: JsonWarningCounts,
}

impl JsonWarningState {
    /// Counts nothing yet.
    pub fn new() -> (r: Self)
        ensures
            r.counts == (JsonWarningCounts { lossy_numbers: 0, duplicate_keys: 0 }),
    {
        JsonWarningState { counts: JsonWarningCounts { lossy_numbers: 0, duplicate_keys: 0 } }
    }

    /// Hands out the counts so far and starts again from zero.
    pub fn take(&mut self) -> (r: JsonWarningCounts)
        ensures
            r == old(self).counts,
            final(self).counts == (JsonWarningCounts { lossy_numbers: 0, duplicate_keys: 0 }),
    {
        let counts = self.counts;
        self.counts = JsonWarningCounts { lossy_numbers: 0, duplicate_keys: 0 };
        counts
    }

    /// Adds the counts of one successful decode.
    pub fn add(&mut self, counts: JsonWarningCounts)
        requires
            old(self).counts.lossy_numbers + counts.lossy_numbers <= usize::MAX,
            old(self).counts.duplicate_keys + counts.duplicate_keys <= usize::MAX,
        ensures
            final(self).counts.lossy_numbers == old(self).counts.lossy_numbers + counts.lossy_numbers,
            final(self).counts.duplicate_keys == old(self).counts.duplicate_keys + counts.duplicate_keys,
    {
        self.counts.lossy_numbers = self.counts.lossy_numbers + counts.lossy_numbers;
        self.counts.duplicate_keys = self.counts.duplicate_keys + counts.duplicate_keys;
    }

    /// Adds the counts of one successful decode when neither total would pass
    /// `usize::MAX`; otherwise keeps the totals as they are. Says whether it
    /// added them.
    pub fn absorb(&mut self, counts: JsonWarningCounts) -> (r: bool)
        ensures
            r == (old(self).counts.lossy_numbers + counts.lossy_numbers <= usize::MAX
                && old(self).counts.duplicate_keys + counts.duplicate_keys <= usize::MAX),
            r ==> final(self).counts.lossy_numbers == old(self).counts.lossy_numbers + counts.lossy_numbers
                && final(self).counts.duplicate_keys == old(self).counts.duplicate_keys + counts.duplicate_keys,
            !r ==> *final(self) == *old(self),
    {
        let fits = self.counts.lossy_numbers.checked_add(counts.lossy_numbers).is_some()
            && self.counts.duplicate_keys.checked_add(counts.duplicate_keys).is_some();
        if fits {
            self.add(counts);
        }
        fits
    }

    /// Counts a number that lost precision.
    pub fn note_lossy_number(&mut self)
        requires
            old(self).counts.lossy_numbers < usize::MAX,
        ensures
            final(self).counts == (JsonWarningCounts {
                lossy_numbers: (old(self).counts.lossy_numbers + 1) as usize,
                ..old(self).counts
            }),
    {
        self.counts.lossy_numbers = self.counts.lossy_numbers + 1;
    }

    /// Counts an object key that appeared twice.
    pub fn note_duplicate_key(&mut self)
        requires
            old(self).counts.duplicate_keys < usize::MAX,
        ensures
            final(self).counts == (JsonWarningCounts {
                duplicate_keys: (old(self).counts.duplicate_keys + 1) as usize,
                ..old(self).counts
            }),
    {
        self.counts.duplicate_keys = self.counts.duplicate_keys + 1;
    }
}

/// Whether a table becomes a JSON array or a JSON object.
#[derive(Debug, Clone, Copy, PartialEq, Eq, Structural)]
pub enum JsonTableKind {
    Array,
    Object,
}

impl JsonTableKind {
    /// The marker text of the kind.
    pub fn as_str(self) -> (r: &'static str)
        ensures
            r@ == match self {
                JsonTableKind::Array => "array"@,
                JsonTableKind::Object => "object"@,
            },
    {
        match self {
            JsonTableKind::Array => "array",
            JsonTableKind::Object => "object",
        }
    }
}

/// The kind a table's marker names, if it names one.
pub fn kind_from_marker(marker: Option<&str>) -> (r: Option<JsonTableKind>)
    ensures
        r == match marker {
            Some(m) => if m@ == "array"@ {
                Some(JsonTableKind::Array)
            } else if m@ == "object"@ {
                Some(JsonTableKind::Object)
            } else {
                None
            },
            None => None,
        },
{
    match marker {
        Some(m) => if str_eq(m, "array") {
            Some(JsonTableKind::Array)
        } else if str_eq(m, "object") {
            Some(JsonTableKind::Object)
        } else {
            None
        },
        None => None,
    }
}

/// The kind a table is encoded as: its marker if it has one; else an empty
/// table is an object, a table of integer keys an array, a table of string
/// keys an object, and a table with both is refused.
pub fn resolve_table_kind(marked: Option<JsonTableKind>, integer_keys: usize, string_keys: usize) -> (r: Result<
    JsonTableKind,
    String,
>)
    ensures
        match marked {
            Some(k) => r == Ok::<JsonTableKind, String>(k),
            None => if integer_keys == 0 {
                r == Ok::<JsonTableKind, String>(JsonTableKind::Object)
            } else if string_keys == 0 {
                r == Ok::<JsonTableKind, String>(JsonTableKind::Array)
            } else {
                r matches Err(m) && m@ == "JSON cannot encode tables with mixed integer and string keys"@
            },
        },
{
    match marked {
        Some(k) => Ok(k),
        None => if integer_keys == 0 {
            Ok(JsonTableKind::Object)
        } else if string_keys == 0 {
            Ok(JsonTableKind::Array)
        } else {
            Err(String::from_str("JSON cannot encode tables with mixed integer and string keys"))
        },
    }
}

/// Whether ascending array indexes are exactly 1 to their count.
pub open spec fn consecutive_from_one(keys: Seq<usize>) -> bool {
    forall|i: int| 0 <= i < keys.len() ==> #[trigger] keys[i] == i + 1
}

/// Strictly ascending positive keys are worth at least their place.
proof fn lemma_ascending_keys_grow(keys: Seq<usize>, i: int)
    requires
        forall|a: int, b: int| 0 <= a < b < keys.len() ==> #[trigger] keys[a] < #[trigger] keys[b],
        keys.len() > 0 ==> keys[0] >= 1,
        0 <= i < keys.len(),
    ensures
        keys[i] >= i + 1,
        keys[keys.len() - 1] >= keys[i] + (keys.len() - 1 - i),
    decreases keys.len() - i,
{
    if i > 0 {
        lemma_ascending_keys_grow_prefix(keys, i);
    }
    if i < keys.len() - 1 {
        lemma_ascending_keys_grow(keys, i + 1);
    }
}

proof fn lemma_ascending_keys_grow_prefix(keys: Seq<usize>, i: int)
    requires
        forall|a: int, b: int| 0 <= a < b < keys.len() ==> #[trigger] keys[a] < #[trigger] keys[b],
        keys.len() > 0 ==> keys[0] >= 1,
        0 <= i < keys.len(),
    ensures
        keys[i] >= i + 1,
    decreases i,
{
    if i > 0 {
        lemma_ascending_keys_grow_prefix(keys, i - 1);
        assert(keys[i - 1] < keys[i]);
    }
}

/// A table encodes as an array only when its integer keys leave no gap: its
/// ascending positive keys are 1 to n exactly when the largest is their
/// count, so a sparse table such as one with keys 1 and 3 is refused.
pub proof fn law_arrays_have_no_gaps(keys: Seq<usize>)
    requires
        forall|a: int, b: int| 0 <= a < b < keys.len() ==> #[trigger] keys[a] < #[trigger] keys[b],
        keys.len() > 0 ==> keys[0] >= 1,
    ensures
        consecutive_from_one(keys) <==> (keys.len() == 0 || keys[keys.len() - 1] == keys.len()),
{
    if keys.len() > 0 && keys[keys.len() - 1] == keys.len() {
        assert forall|i: int| 0 <= i < keys.len() implies #[trigger] keys[i] == i + 1 by {
            lemma_ascending_keys_grow(keys, i);
        }
    }
}

/// The JSON encoder's key rules: a positive integer that fits is an array
/// position, a UTF-8 string is always a member name, and any other key is
/// refused; only non-finite numbers, non-UTF-8 strings and values JSON has no
/// form for are refused among scalars, and every scalar costs at least a byte.
pub proof fn law_json_encoder_rules(k: i64, name: String, value: LuaScalar)
    ensures
        key_error(LuaKey::Integer(k)).is_none() <==> 0 < k <= usize::MAX,
        key_error(LuaKey::Text(Some(name))).is_none(),
        key_error(LuaKey::Text(None)).is_some(),
        key_error(LuaKey::Other).is_some(),
        scalar_cost(value) is Err <==> (value == LuaScalar::Number { finite: false } || value == LuaScalar::Text(None)
            || value is Other),
        scalar_cost(value) matches Ok(c) ==> c >= 1,
{
}

/// `base64.url_decode` reads padded text with the padded engine and any other
/// text with the unpadded one.
pub proof fn law_url_decoding_follows_padding(text: Seq<u8>, i: int)
    ensures
        0 <= i < text.len() && text[i] == 61u8 ==> url_engine_for(text) == Base64Engine::UrlSafe,
        (forall|k: int| 0 <= k < text.len() ==> #[trigger] text[k] != 61u8) ==> url_engine_for(text)
            == Base64Engine::UrlSafeNoPad,
{
    if 0 <= i < text.len() && text[i] == 61u8 {
        assert(text.contains(61u8));
    }
}

/// Encoding refuses input beyond the limit and output beyond the limit, and
/// otherwise gives the engine's text.
pub proof fn law_encoding_limits(engine: Base64Engine, data: Seq<u8>)
    ensures
        data.len() > CODEC_BYTE_LIMIT ==> encode_result(engine, data) is Err,
        data.len() <= CODEC_BYTE_LIMIT && base64_len(data.len(), engine != Base64Engine::UrlSafeNoPad)
            <= CODEC_BYTE_LIMIT ==> encode_result(engine, data) == Ok::<Seq<char>, Seq<char>>(
            base64_encoding(engine, data),
        ),
        data.len() <= CODEC_BYTE_LIMIT && base64_len(data.len(), engine != Base64Engine::UrlSafeNoPad)
            > CODEC_BYTE_LIMIT ==> encode_result(engine, data) is Err,
{
}

/// The running estimate of a JSON encoding's size, which stops the encoding
/// as soon as it passes the limit.
#[derive(Debug, Clone, Copy, Default, PartialEq, Eq, Structural)]
pub struct JsonEncodeBudget {
    pub estimated_output_bytes: usize,
}

impl JsonEncodeBudget {
    /// Adds `size` bytes to the estimate; fails when the sum overflows or
    /// passes the limit (the estimate then keeps the sum when it fits).
    pub fn charge(&mut self, size: usize) -> (r: Result<(), String>)
        ensures
            old(self).estimated_output_bytes + size > usize::MAX ==> (r matches Err(m) && m@
                == "JSON output size overflow"@) && *final(self) == *old(self),
            old(self).estimated_output_bytes + size <= usize::MAX ==> final(self).estimated_output_bytes
                == old(self).estimated_output_bytes + size && match r {
                Ok(()) => old(self).estimated_output_bytes + size <= CODEC_BYTE_LIMIT,
                Err(m) => old(self).estimated_output_bytes + size > CODEC_BYTE_LIMIT && m@
                    == output_limit_message("JSON"@),
            },
    {
        if size > usize::MAX - self.estimated_output_bytes {
            return Err(String::from_str("JSON output size overflow"));
        }
        self.estimated_output_bytes = self.estimated_output_bytes + size;
        ensure_output_limit(self.estimated_output_bytes, "JSON")
    }
}

/// What charging `size` bytes does to an estimate `before`: the new estimate
/// `after`, and the outcome.
pub open spec fn charge_outcome(before: usize, size: int, after: usize, r: Result<(), Seq<char>>) -> bool {
    if before + size > usize::MAX {
        r == Err::<(), Seq<char>>("JSON output size overflow"@) && after == before
    } else {
        after == before + size && match r {
            Ok(()) => before + size <= CODEC_BYTE_LIMIT,
            Err(m) => before + size > CODEC_BYTE_LIMIT && m == output_limit_message("JSON"@),
        }
    }
}

/// Charging the JSON estimate succeeds exactly when the new estimate stays
/// within the limit; a charge that overflows leaves the estimate as it was.
pub proof fn law_json_charges(before: usize, size: int, after: usize, r: Result<(), Seq<char>>)
    requires
        charge_outcome(before, size, after, r),
        size >= 0,
    ensures
        r is Ok ==> after <= CODEC_BYTE_LIMIT && after == before + size,
        before + size <= CODEC_BYTE_LIMIT ==> r is Ok,
        before + size > CODEC_BYTE_LIMIT ==> r is Err,
        before + size > usize::MAX ==> after == before,
{
}

/// An outcome as plain values.
pub open spec fn outcome_view(r: Result<(), String>) -> Result<(), Seq<char>> {
    match r {
        Ok(()) => Ok(()),
        Err(m) => Err(m@),
    }
}

/// The estimated size of a string of `len` bytes: its bytes and two quotes
/// (saturating).
pub open spec fn string_cost_spec(len: int) -> int {
    if len + 2 > usize::MAX {
        usize::MAX as int
    } else {
        len + 2
    }
}

/// The estimated size of an object key of `len` bytes: its bytes, two quotes
/// and a colon (saturating).
pub open spec fn key_cost_spec(len: int) -> int {
    if len + 3 > usize::MAX {
        usize::MAX as int
    } else {
        len + 3
    }
}

/// A key of a Lua table, as the JSON encoder reads it.
#[derive(Debug, Clone, PartialEq, Eq)]
pub enum LuaKey {
    Integer(i64),
    /// A string key; `None` when its bytes are not UTF-8.
    Text(Option<String>),
    /// Any other key.
    Other,
}

/// A table key the JSON encoder keeps.
#[derive(Debug, Clone, PartialEq, Eq)]
pub enum TableKey {
    /// A positive integer key, an array position.
    Index(usize),
    /// A string key, an object member's name.
    Name(String),
}

/// The key error messages of the JSON encoder.
pub open spec fn key_error(key: LuaKey) -> Option<Seq<char>> {
    match key {
        LuaKey::Integer(k) => if k <= 0 {
            Some("JSON table keys must be positive integers or strings"@)
        } else if k > usize::MAX {
            Some("JSON array index is too large"@)
        } else {
            None
        },
        LuaKey::Text(None) => Some("JSON object keys must be valid UTF-8"@),
        LuaKey::Text(Some(_)) => None,
        LuaKey::Other => Some("JSON table keys must be positive integers or strings"@),
    }
}

/// Reads one key of a table being encoded: a positive integer is an array
/// position, a UTF-8 string an object member whose name is charged (its
/// bytes, two quotes and a colon), and any other key is refused.
pub fn table_key(key: LuaKey, budget: &mut JsonEncodeBudget) -> (r: Result<TableKey, String>)
    ensures
        match key_error(key) {
            Some(m) => r matches Err(e) && e@ == m && *final(budget) == *old(budget),
            None => match key {
                LuaKey::Integer(k) => r == Ok::<TableKey, String>(TableKey::Index(k as usize)) && *final(budget)
                    == *old(budget),
                LuaKey::Text(Some(name)) => charge_outcome(
                    old(budget).estimated_output_bytes,
                    key_cost_spec(vstd::utf8::encode_utf8(name@).len() as usize as int),
                    final(budget).estimated_output_bytes,
                    match r {
                        Ok(_) => Ok(()),
                        Err(e) => Err(e@),
                    },
                ) && (r.is_ok() ==> (r matches Ok(TableKey::Name(n)) && n@ == name@)),
                _ => false,
            },
        },
{
    match key {
        LuaKey::Integer(k) => {
            if k <= 0 {
                Err(String::from_str("JSON table keys must be positive integers or strings"))
            } else if k as u64 > usize::MAX as u64 {
                assert(k > usize::MAX);
                Err(String::from_str("JSON array index is too large"))
            } else {
                assert(k <= usize::MAX);
                Ok(TableKey::Index(k as usize))
            }
        },
        LuaKey::Text(None) => Err(String::from_str("JSON object keys must be valid UTF-8")),
        LuaKey::Text(Some(name)) => {
            let text = name.as_str();
            let len = text.len();
            assert(len == vstd::utf8::encode_utf8(name@).len() as usize);
            let cost = key_cost(len);
            assert(cost as int == key_cost_spec(vstd::utf8::encode_utf8(name@).len() as usize as int));
            match budget.charge(cost) {
                Ok(()) => {
                    proof {
                        assert(charge_outcome(
                            old(budget).estimated_output_bytes,
                            cost as int,
                            budget.estimated_output_bytes,
                            Ok(()),
                        ));
                    }
                    Ok(TableKey::Name(name))
                },
                Err(m) => {
                    proof {
                        assert(charge_outcome(
                            old(budget).estimated_output_bytes,
                            cost as int,
                            budget.estimated_output_bytes,
                            Err(m@),
                        ));
                    }
                    Err(m)
                },
            }
        },
        LuaKey::Other => Err(String::from_str("JSON table keys must be positive integers or strings")),
    }
}

/// A Lua value that is not a table, as the JSON encoder reads it.
#[derive(Debug, Clone, PartialEq, Eq)]
pub enum LuaScalar {
    Nil,
    Boolean,
    Integer,
    /// A float; `finite` when it is neither NaN nor infinite.
    Number { finite: bool },
    /// A string of this many bytes; `None` when its bytes are not UTF-8.
    Text(Option<usize>),
    /// The `json.null` sentinel.
    Null,
    /// A value JSON has no form for, by its Lua type name.
    Other(String),
}

/// What encoding a scalar charges, or why it is refused.
pub open spec fn scalar_cost(value: LuaScalar) -> Result<int, Seq<char>> {
    match value {
        LuaScalar::Nil => Ok(4),
        LuaScalar::Boolean => Ok(4),
        LuaScalar::Null => Ok(4),
        LuaScalar::Integer => Ok(1),
        LuaScalar::Number { finite } => if finite {
            Ok(1)
        } else {
            Err("JSON cannot encode NaN or infinite numbers"@)
        },
        LuaScalar::Text(Some(len)) => Ok(string_cost_spec(len as int)),
        LuaScalar::Text(None) => Err("JSON strings must be valid UTF-8"@),
        LuaScalar::Other(t) => Err("JSON cannot encode Lua "@ + t@ + " values"@),
    }
}

/// Charges one scalar of the value being encoded: `null`, `true` and `false`
/// four bytes, a number one, a string its bytes and quotes; a non-finite
/// number, a string that is not UTF-8 and a value JSON has no form for are
/// refused without charging.
pub fn charge_scalar(value: &LuaScalar, budget: &mut JsonEncodeBudget) -> (r: Result<(), String>)
    ensures
        match scalar_cost(*value) {
            Err(m) => r matches Err(e) && e@ == m && *final(budget) == *old(budget),
            Ok(cost) => charge_outcome(
                old(budget).estimated_output_bytes,
                cost,
                final(budget).estimated_output_bytes,
                outcome_view(r),
            ),
        },
{
    let cost: usize = match value {
        LuaScalar::Nil => 4,
        LuaScalar::Boolean => 4,
        LuaScalar::Null => 4,
        LuaScalar::Integer => 1,
        LuaScalar::Number { finite } => {
            if *finite {
                1
            } else {
                return Err(String::from_str("JSON cannot encode NaN or infinite numbers"));
            }
        },
        LuaScalar::Text(Some(len)) => string_cost(*len),
        LuaScalar::Text(None) => return Err(String::from_str("JSON strings must be valid UTF-8")),
        LuaScalar::Other(t) => {
            let mut m = String::from_str("JSON cannot encode Lua ");
            m.append(t.as_str());
            m.append(" values");
            return Err(m);
        },
    };
    budget.charge(cost)
}

/// Enters a table while encoding: refused past the nesting limit or when the
/// table is already being encoded further up (a cycle); otherwise it is
/// marked as being encoded.
pub fn enter_table(active: &mut Vec<usize>, table: usize, depth: usize) -> (r: Result<(), String>)
    ensures
        depth >= JSON_DEPTH_LIMIT ==> (r matches Err(m) && m@ == "JSON value exceeds the maximum nesting depth of 128"@)
            && final(active)@ == old(active)@,
        depth < JSON_DEPTH_LIMIT && old(active)@.contains(table) ==> (r matches Err(m) && m@
            == "JSON cannot encode cyclic tables"@) && final(active)@ == old(active)@,
        depth < JSON_DEPTH_LIMIT && !old(active)@.contains(table) ==> r.is_ok() && final(active)@ == old(
            active,
        )@.push(table),
{
    ensure_depth(depth)?;
    let n = active.len();
    let mut i: usize = 0;
    while i < n
        invariant
            n == active@.len(),
            active@ == old(active)@,
            depth < JSON_DEPTH_LIMIT,
            i <= n,
            forall|k: int| 0 <= k < i ==> active@[k] != table,
        decreases n - i,
    {
        if active[i] == table {
            return Err(String::from_str("JSON cannot encode cyclic tables"));
        }
        i = i + 1;
    }
    active.push(table);
    Ok(())
}

/// Array entries in ascending order of position.
pub open spec fn ascending_positions<V>(s: Seq<(usize, V)>) -> bool {
    forall|i: int, j: int| 0 <= i < j < s.len() ==> #[trigger] s[i].0 <= #[trigger] s[j].0
}

/// Object members in ascending order of name.
pub open spec fn ascending_names<V>(s: Seq<(String, V)>) -> bool {
    forall|i: int, j: int| 0 <= i < j < s.len() ==> !seq_lt(#[trigger] s[j].0@, #[trigger] s[i].0@)
}

/// A table's array entries in the order they are encoded: by position.
pub fn sort_by_position<V>(entries: Vec<(usize, V)>) -> (r: Vec<(usize, V)>)
    ensures
        ascending_positions(r@),
        r@.to_multiset() == entries@.to_multiset(),
{
    broadcast use vstd::seq_lib::group_to_multiset_ensures, vstd::multiset::group_multiset_axioms, vstd::multiset::group_multiset_properties;


    let mut rest = entries;
    let mut out: Vec<(usize, V)> = Vec::new();
    while rest.len() > 0
        invariant
            ascending_positions(out@),
            out@.to_multiset().add(rest@.to_multiset()) == entries@.to_multiset(),
        decreases rest@.len(),
    {
        let ghost before = rest@;
        let e = rest.pop().unwrap();
        proof {
            assert(rest@.push(e) =~= before);
        }
        let n = out.len();
        let mut p: usize = 0;
        while p < n && out[p].0 <= e.0
            invariant
                n == out@.len(),
                p <= n,
                forall|k: int| 0 <= k < p ==> #[trigger] out@[k].0 <= e.0,
            decreases n - p,
        {
            p = p + 1;
        }
        let ghost prior = out@;
        out.insert(p, e);
        proof {
            assert forall|i: int, j: int| 0 <= i < j < out@.len() implies #[trigger] out@[i].0 <= #[trigger] out@[j].0 by {
                if j < p {
                    assert(out@[i] == prior[i] && out@[j] == prior[j]);
                } else if j == p {
                    assert(out@[i] == prior[i]);
                } else if i == p {
                    assert(out@[j] == prior[j - 1]);
                    assert(prior[p as int].0 > e.0);
                    assert(prior[p as int].0 <= prior[j - 1].0 || p as int == j - 1);
                } else if i < p {
                    assert(out@[i] == prior[i] && out@[j] == prior[j - 1]);
                } else {
                    assert(out@[i] == prior[i - 1] && out@[j] == prior[j - 1]);
                }
            }
            vstd::seq_lib::to_multiset_insert(prior, p as int, e);
            vstd::seq_lib::to_multiset_build(rest@, e);
            assert(out@.to_multiset() == prior.to_multiset().insert(e));
            assert(before.to_multiset() == rest@.to_multiset().insert(e));
            assert(out@.to_multiset().add(rest@.to_multiset()) =~= prior.to_multiset().add(before.to_multiset()));
        }
    }
    proof {
        assert(rest@.to_multiset() =~= vstd::multiset::Multiset::empty());
        assert(out@.to_multiset().add(rest@.to_multiset()) =~= out@.to_multiset());
    }
    out
}

/// A table's object members in the order they are encoded: by name.
pub fn sort_by_name<V>(entries: Vec<(String, V)>) -> (r: Vec<(String, V)>)
    ensures
        ascending_names(r@),
        r@.to_multiset() == entries@.to_multiset(),
{
    broadcast use vstd::seq_lib::group_to_multiset_ensures, vstd::multiset::group_multiset_axioms, vstd::multiset::group_multiset_properties;


    let mut rest = entries;
    let mut out: Vec<(String, V)> = Vec::new();
    while rest.len() > 0
        invariant
            ascending_names(out@),
            out@.to_multiset().add(rest@.to_multiset()) == entries@.to_multiset(),
        decreases rest@.len(),
    {
        let ghost before = rest@;
        let e = rest.pop().unwrap();
        proof {
            assert(rest@.push(e) =~= before);
        }
        let n = out.len();
        let mut p: usize = 0;
        while p < n && !str_lt(e.0.as_str(), out[p].0.as_str())
            invariant
                n == out@.len(),
                p <= n,
                forall|k: int| 0 <= k < p ==> !seq_lt(e.0@, #[trigger] out@[k].0@),
            decreases n - p,
        {
            p = p + 1;
        }
        let ghost prior = out@;
        out.insert(p, e);
        proof {
            assert forall|i: int, j: int| 0 <= i < j < out@.len() implies !seq_lt(
                #[trigger] out@[j].0@,
                #[trigger] out@[i].0@,
            ) by {
                if j < p {
                    assert(out@[i] == prior[i] && out@[j] == prior[j]);
                } else if j == p {
                    assert(out@[i] == prior[i]);
                } else if i == p {
                    assert(out@[j] == prior[j - 1]);
                    assert(seq_lt(e.0@, prior[p as int].0@));
                    if seq_lt(prior[j - 1].0@, e.0@) {
                        lemma_seq_lt_transitive(prior[j - 1].0@, e.0@, prior[p as int].0@);
                        if p as int == j - 1 {
                            lemma_seq_lt_irreflexive(prior[p as int].0@);
                        } else {
                            assert(!seq_lt(prior[j - 1].0@, prior[p as int].0@));
                        }
                    }
                } else if i < p {
                    assert(out@[i] == prior[i] && out@[j] == prior[j - 1]);
                } else {
                    assert(out@[i] == prior[i - 1] && out@[j] == prior[j - 1]);
                }
            }
            vstd::seq_lib::to_multiset_insert(prior, p as int, e);
            vstd::seq_lib::to_multiset_build(rest@, e);
            assert(out@.to_multiset() == prior.to_multiset().insert(e));
            assert(before.to_multiset() == rest@.to_multiset().insert(e));
            assert(out@.to_multiset().add(rest@.to_multiset()) =~= prior.to_multiset().add(before.to_multiset()));
        }
    }
    proof {
        assert(rest@.to_multiset() =~= vstd::multiset::Multiset::empty());
        assert(out@.to_multiset().add(rest@.to_multiset()) =~= out@.to_multiset());
    }
    out
}

/// Charges the brackets and separators of a table of the given kind and
/// checks its keys: an array must have only integer keys, exactly 1 to its
/// length; an object only string keys.
pub fn check_table_shape(
    kind: JsonTableKind,
    budget: &mut JsonEncodeBudget,
    integer_keys: &Vec<usize>,
    string_keys: usize,
) -> (r: Result<(), String>)
    requires
        forall|i: int, j: int| 0 <= i < j < integer_keys@.len() ==> #[trigger] integer_keys@[i] < #[trigger] integer_keys@[j],
    ensures
        r.is_ok() == (match kind {
            JsonTableKind::Array => string_keys == 0 && consecutive_from_one(integer_keys@),
            JsonTableKind::Object => integer_keys@.len() == 0,
        } && old(budget).estimated_output_bytes + 2 + match kind {
            JsonTableKind::Array => integer_keys@.len() as int,
            JsonTableKind::Object => string_keys as int,
        } <= CODEC_BYTE_LIMIT),
{
    match kind {
        JsonTableKind::Array => {
            let count = integer_keys.len();
            let cost = if count > usize::MAX - 2 {
                usize::MAX
            } else {
                count + 2
            };
            budget.charge(cost)?;
            if string_keys != 0 {
                return Err(String::from_str("JSON arrays cannot contain string keys"));
            }
            let mut i: usize = 0;
            while i < count
                invariant
                    count == integer_keys@.len(),
                    i <= count,
                    forall|k: int| 0 <= k < i ==> #[trigger] integer_keys@[k] == k + 1,
                decreases count - i,
            {
                if integer_keys[i] != i + 1 {
                    return Err(String::from_str("JSON arrays must use consecutive indexes starting at 1"));
                }
                i = i + 1;
            }
            Ok(())
        },
        JsonTableKind::Object => {
            let cost = if string_keys > usize::MAX - 2 {
                usize::MAX
            } else {
                string_keys + 2
            };
            budget.charge(cost)?;
            if integer_keys.len() != 0 {
                return Err(String::from_str("JSON objects cannot contain integer keys"));
            }
            Ok(())
        },
    }
}

/// Refuses a container nested deeper than the limit.
pub fn ensure_depth(depth: usize) -> (r: Result<(), String>)
    ensures
        match r {
            Ok(()) => depth < JSON_DEPTH_LIMIT,
            Err(m) => depth >= JSON_DEPTH_LIMIT && m@ == "JSON value exceeds the maximum nesting depth of 128"@,
        },
{
    if depth >= JSON_DEPTH_LIMIT {
        return Err(String::from_str("JSON value exceeds the maximum nesting depth of 128"));
    }
    Ok(())
}

/// The estimated output size of one JSON string of `len` bytes: the text and
/// its two quotes (saturating).
pub fn string_cost(len: usize) -> (r: usize)
    ensures
        r == if len + 2 > usize::MAX {
            usize::MAX as int
        } else {
            len + 2
        },
{
    if len > usize::MAX - 2 {
        usize::MAX
    } else {
        len + 2
    }
}

/// The estimated output size of one object key of `len` bytes: the text, its
/// quotes and its colon (saturating).
pub fn key_cost(len: usize) -> (r: usize)
    ensures
        r == if len + 3 > usize::MAX {
            usize::MAX as int
        } else {
            len + 3
        },
{
    if len > usize::MAX - 3 {
        usize::MAX
    } else {
        len + 3
    }
}

/// The bytes of an encoded JSON text, refusing to grow past a limit.
#[derive(Debug, Clone, PartialEq, Eq)]
pub struct LimitedWriter {
    bytes: Vec<u8>,
    limit: usize,
}

impl LimitedWriter {
    /// The bytes written so far.
    pub closed spec fn written(&self) -> Seq<u8> {
        self.bytes@
    }

    /// The most bytes it accepts.
    pub closed spec fn limit(&self) -> usize {
        self.limit
    }

    /// An empty writer that accepts up to `limit` bytes.
    pub fn new(limit: usize) -> (r: Self)
        ensures
            r.written() == Seq::<u8>::empty(),
            r.limit() == limit,
    {
        LimitedWriter { bytes: Vec::new(), limit }
    }

    /// Appends `buffer` when the total stays within the limit; else writes
    /// nothing and fails.
    pub fn write(&mut self, buffer: &[u8]) -> (r: Result<usize, String>)
        ensures
            final(self).limit() == old(self).limit(),
            match r {
                Ok(n) => n == buffer@.len() && old(self).written().len() + buffer@.len() <= old(self).limit()
                    && final(self).written() == old(self).written() + buffer@,
                Err(m) => old(self).written().len() + buffer@.len() > old(self).limit() && final(self).written()
                    == old(self).written() && (m@ == "JSON output exceeds the 16 MiB limit"@ || m@
                    == "JSON output size overflow"@),
            },
    {
        let len = self.bytes.len();
        if buffer.len() > usize::MAX - len {
            return Err(String::from_str("JSON output size overflow"));
        }
        if len + buffer.len() > self.limit {
            return Err(String::from_str("JSON output exceeds the 16 MiB limit"));
        }
        let n = buffer.len();
        let mut i: usize = 0;
        let ghost start = self.bytes@;
        while i < n
            invariant
                n == buffer@.len(),
                i <= n,
                self.bytes@ == start + buffer@.subrange(0, i as int),
                self.limit == old(self).limit,
                start == old(self).bytes@,
            decreases n - i,
        {
            self.bytes.push(buffer[i]);
            assert(buffer@.subrange(0, i + 1) == buffer@.subrange(0, i as int).push(buffer@[i as int]));
            i = i + 1;
        }
        assert(buffer@.subrange(0, n as int) == buffer@);
        Ok(n)
    }

    /// The bytes written.
    pub fn into_inner(self) -> (r: Vec<u8>)
        ensures
            r@ == self.written(),
    {
        self.bytes
    }
}

} // verus!
