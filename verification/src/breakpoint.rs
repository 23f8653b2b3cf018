//! Breakpoints: an interceptor that calls `breakpoint(ms)` holds its request
//! or response until the time runs out or a user releases it. Users list live
//! breakpoints, extend them up to a hard cap, and release them.
//!
//! Times are nanoseconds on one monotonic clock; the I/O layer reads the clock
//! and does the waiting.
use vstd::prelude::*;
use vstd::string::*;

use crate::model::{BreakpointListFilter, BreakpointSummary, InterceptorKind};
use crate::numbers::{decimal_text, u64_text};

verus! {

/// The longest a breakpoint may hold, in milliseconds.
pub const MAX_BREAKPOINT_MS: u64 = 1800000;

/// Nanoseconds in a millisecond.
pub const NANOS_PER_MILLI: u64 = 1000000;

/// How long a `breakpoint(ms)` call holds: the requested time, capped at the
/// maximum; `None` when that is zero and the call returns at once.
pub fn hold_duration_ms(timeout_ms: u64) -> (r: Option<u64>)
    ensures
        r == if timeout_ms == 0 {
            None
        } else if timeout_ms > MAX_BREAKPOINT_MS {
            Some(MAX_BREAKPOINT_MS)
        } else {
            Some(timeout_ms)
        },
{
    let t = if timeout_ms > MAX_BREAKPOINT_MS {
        MAX_BREAKPOINT_MS
    } else {
        timeout_ms
    };
    if t == 0 {
        None
    } else {
        Some(t)
    }
}

/// The deadline of one breakpoint: when it expires, the latest it may ever
/// expire, and whether a user released it.
#[derive(Debug, Clone, Copy, PartialEq, Eq, Structural)]
pub struct Deadline {
    pub created_ns: u64,
    pub expires_ns: u64,
    pub maximum_ns: u64,
    pub released: bool,
}

/// A deadline never passes its hard cap, which is the maximum hold after creation.
pub open spec fn deadline_ok(d: Deadline) -> bool {
    &&& d.created_ns <= d.expires_ns <= d.maximum_ns
    &&& d.maximum_ns == d.created_ns + MAX_BREAKPOINT_MS * NANOS_PER_MILLI
}

/// The expiry after extending by `timeout_ms`: later by the extension (capped
/// at the maximum hold), but never past the hard cap.
pub open spec fn extended_expiry(d: Deadline, timeout_ms: u64) -> u64 {
    let extension = (if timeout_ms > MAX_BREAKPOINT_MS {
        MAX_BREAKPOINT_MS
    } else {
        timeout_ms
    }) * NANOS_PER_MILLI;
    if d.expires_ns + extension > d.maximum_ns {
        d.maximum_ns
    } else {
        (d.expires_ns + extension) as u64
    }
}

/// Whether a breakpoint still holds at time `now`.
pub open spec fn available(d: Deadline, now_ns: u64) -> bool {
    !d.released && now_ns < d.expires_ns
}

impl Deadline {
    /// The deadline of a breakpoint created at `now_ns` that holds for `hold_ms`.
    pub fn new(now_ns: u64, hold_ms: u64) -> (r: Self)
        requires
            0 < hold_ms <= MAX_BREAKPOINT_MS,
            now_ns + MAX_BREAKPOINT_MS * NANOS_PER_MILLI <= u64::MAX,
        ensures
            deadline_ok(r),
            r.created_ns == now_ns,
            r.expires_ns == now_ns + hold_ms * NANOS_PER_MILLI,
            !r.released,
    {
        Deadline {
            created_ns: now_ns,
            expires_ns: now_ns + hold_ms * NANOS_PER_MILLI,
            maximum_ns: now_ns + MAX_BREAKPOINT_MS * NANOS_PER_MILLI,
            released: false,
        }
    }

    /// Whether the breakpoint still holds at `now_ns`; the waiting side keeps
    /// waiting exactly while this is true.
    pub fn is_available(&self, now_ns: u64) -> (r: bool)
        ensures
            r == available(*self, now_ns),
    {
        !self.released && now_ns < self.expires_ns
    }

    /// Whole milliseconds left at `now_ns`, 0 once expired.
    pub fn remaining_ms(&self, now_ns: u64) -> (r: u64)
        ensures
            r == if now_ns < self.expires_ns {
                ((self.expires_ns - now_ns) / NANOS_PER_MILLI as int) as u64
            } else {
                0
            },
    {
        if now_ns < self.expires_ns {
            (self.expires_ns - now_ns) / NANOS_PER_MILLI
        } else {
            0
        }
    }

    /// Extends a breakpoint that still holds; fails once it was released or expired.
    pub fn extend(&mut self, now_ns: u64, timeout_ms: u64) -> (r: Result<(), ()>)
        requires
            deadline_ok(*old(self)),
        ensures
            deadline_ok(*final(self)),
            r.is_ok() == available(*old(self), now_ns),
            r.is_ok() ==> *final(self) == (Deadline { expires_ns: extended_expiry(*old(self), timeout_ms), ..*old(self) }),
            r.is_err() ==> *final(self) == *old(self),
    {
        if self.released || now_ns >= self.expires_ns {
            return Err(());
        }
        let capped = if timeout_ms > MAX_BREAKPOINT_MS {
            MAX_BREAKPOINT_MS
        } else {
            timeout_ms
        };
        let extension = capped * NANOS_PER_MILLI;
        if extension > self.maximum_ns - self.expires_ns {
            self.expires_ns = self.maximum_ns;
        } else {
            self.expires_ns = self.expires_ns + extension;
        }
        Ok(())
    }

    /// Releases a breakpoint that still holds; fails once it was released or expired.
    pub fn release(&mut self, now_ns: u64) -> (r: Result<(), ()>)
        ensures
            r.is_ok() == available(*old(self), now_ns),
            r.is_ok() ==> *final(self) == (Deadline { released: true, ..*old(self) }),
            r.is_err() ==> *final(self) == *old(self),
    {
        if self.released || now_ns >= self.expires_ns {
            return Err(());
        }
        self.released = true;
        Ok(())
    }
}

/// However often a breakpoint is extended, it expires no later than the
/// maximum hold after its creation.
pub proof fn law_extension_never_passes_cap(d: Deadline, timeout_ms: u64)
    requires
        deadline_ok(d),
    ensures
        extended_expiry(d, timeout_ms) <= d.created_ns + MAX_BREAKPOINT_MS * NANOS_PER_MILLI,
        extended_expiry(d, timeout_ms) >= d.expires_ns,
        deadline_ok(Deadline { expires_ns: extended_expiry(d, timeout_ms), ..d }),
{
}

/// A released breakpoint is no longer available, so it can be neither
/// extended nor released again.
pub proof fn law_released_is_gone(d: Deadline, now_ns: u64)
    ensures
        !available(Deadline { released: true, ..d }, now_ns),
{
}

/// A live breakpoint as the registry keeps it.
#[derive(Debug, Clone, PartialEq, Eq)]
pub struct BreakpointRecord {
    pub id: u64,
    pub session_id: u64,
    pub capture_id: u64,
    pub phase: InterceptorKind,
    pub position: usize,
    pub interceptor_name: String,
    pub method: String,
    pub uri: String,
    pub created_at: u64,
    pub deadline: Deadline,
}

/// A record's summary at time `now_ns`: its wall-clock expiry is its creation
/// time plus the whole milliseconds to its expiry.
pub open spec fn summary_spec(r: BreakpointRecord, now_ns: u64) -> (u64, u64, u64, InterceptorKind, usize, Seq<
    char,
>, Seq<char>, Seq<char>, u64, int, int) {
    (
        r.id,
        r.session_id,
        r.capture_id,
        r.phase,
        r.position,
        r.interceptor_name@,
        r.method@,
        r.uri@,
        r.created_at,
        r.created_at + (r.deadline.expires_ns - r.deadline.created_ns) / NANOS_PER_MILLI as int,
        if now_ns < r.deadline.expires_ns {
            (r.deadline.expires_ns - now_ns) / NANOS_PER_MILLI as int
        } else {
            0
        },
    )
}

/// A summary's fields as plain values.
pub open spec fn summary_view(s: BreakpointSummary) -> (u64, u64, u64, InterceptorKind, usize, Seq<char>, Seq<
    char,
>, Seq<char>, u64, int, int) {
    (
        s.id,
        s.session_id,
        s.capture_id,
        s.phase,
        s.position,
        s.interceptor_name@,
        s.method@,
        s.uri@,
        s.created_at,
        s.expires_at as int,
        s.remaining_ms as int,
    )
}

/// A record is well formed: its deadline respects the cap and its wall-clock
/// expiry fits in a `u64`.
pub open spec fn record_ok(r: BreakpointRecord) -> bool {
    deadline_ok(r.deadline) && r.created_at + MAX_BREAKPOINT_MS <= u64::MAX
}

fn summarize(r: &BreakpointRecord, now_ns: u64) -> (s: BreakpointSummary)
    requires
        record_ok(*r),
    ensures
        summary_view(s) == summary_spec(*r, now_ns),
{
    let held_ms = (r.deadline.expires_ns - r.deadline.created_ns) / NANOS_PER_MILLI;
    assert(held_ms <= MAX_BREAKPOINT_MS) by (nonlinear_arith)
        requires
            held_ms == (r.deadline.expires_ns - r.deadline.created_ns) / NANOS_PER_MILLI as int,
            r.deadline.expires_ns - r.deadline.created_ns <= MAX_BREAKPOINT_MS * NANOS_PER_MILLI,
    ;
    BreakpointSummary {
        id: r.id,
        session_id: r.session_id,
        capture_id: r.capture_id,
        phase: r.phase,
        position: r.position,
        interceptor_name: r.interceptor_name.clone(),
        method: r.method.clone(),
        uri: r.uri.clone(),
        created_at: r.created_at,
        expires_at: r.created_at + held_ms,
        remaining_ms: r.deadline.remaining_ms(now_ns),
    }
}

/// Whether a record is listed under `filter` at `now_ns`: same Session, the
/// phase and interceptor asked for (if any), and still holding.
pub open spec fn listed_by(r: BreakpointRecord, filter: BreakpointListFilter, now_ns: u64) -> bool {
    &&& r.session_id == filter.session_id
    &&& match filter.phase {
        Some(p) => r.phase == p,
        None => true,
    }
    &&& match filter.interceptor_name {
        Some(n) => r.interceptor_name@ == n@,
        None => true,
    }
    &&& available(r.deadline, now_ns)
}

/// The summaries a list returns, newest (highest id) first, given records kept
/// oldest first.
pub open spec fn listing(records: Seq<BreakpointRecord>, filter: BreakpointListFilter, now_ns: u64) -> Seq<
    (u64, u64, u64, InterceptorKind, usize, Seq<char>, Seq<char>, Seq<char>, u64, int, int),
>
    decreases records.len(),
{
    if records.len() == 0 {
        Seq::empty()
    } else {
        let rest = listing(records.drop_first(), filter, now_ns);
        if listed_by(records[0], filter, now_ns) {
            rest.push(summary_spec(records[0], now_ns))
        } else {
            rest
        }
    }
}

/// A listing honours its filter: every summary listed is of the filter's
/// Session, of its phase and its interceptor when the filter names them, and
/// of a record that is still holding; and every record that matches the
/// filter and still holds is listed.
pub proof fn law_listing_honours_filter(
    records: Seq<BreakpointRecord>,
    filter: BreakpointListFilter,
    now_ns: u64,
)
    ensures
        forall|i: int|
            0 <= i < listing(records, filter, now_ns).len() ==> {
                let e = #[trigger] listing(records, filter, now_ns)[i];
                &&& e.1 == filter.session_id
                &&& (filter.phase matches Some(p) ==> e.3 == p)
                &&& (filter.interceptor_name matches Some(n) ==> e.5 == n@)
                &&& exists|k: int|
                    0 <= k < records.len() && e == summary_spec(#[trigger] records[k], now_ns) && available(
                        records[k].deadline,
                        now_ns,
                    )
            },
        forall|k: int|
            0 <= k < records.len() && #[trigger] records[k].session_id == filter.session_id && (
            filter.phase matches Some(p) ==> records[k].phase == p) && (filter.interceptor_name matches Some(n)
                ==> records[k].interceptor_name@ == n@) && available(records[k].deadline, now_ns) ==> listing(
                records,
                filter,
                now_ns,
            ).contains(summary_spec(records[k], now_ns)),
    decreases records.len(),
{
    if records.len() > 0 {
        let rest = records.drop_first();
        law_listing_honours_filter(rest, filter, now_ns);
        let l = listing(records, filter, now_ns);
        let lr = listing(rest, filter, now_ns);
        assert forall|i: int| 0 <= i < l.len() implies {
            let e = #[trigger] l[i];
            &&& e.1 == filter.session_id
            &&& (filter.phase matches Some(p) ==> e.3 == p)
            &&& (filter.interceptor_name matches Some(n) ==> e.5 == n@)
            &&& exists|k: int|
                0 <= k < records.len() && e == summary_spec(#[trigger] records[k], now_ns) && available(
                    records[k].deadline,
                    now_ns,
                )
        } by {
            if i < lr.len() {
                assert(l[i] == lr[i]);
                let k = choose|k: int|
                    0 <= k < rest.len() && lr[i] == summary_spec(#[trigger] rest[k], now_ns) && available(
                        rest[k].deadline,
                        now_ns,
                    );
                assert(records[k + 1] == rest[k]);
            } else {
                assert(l[i] == summary_spec(records[0], now_ns));
            }
        }
        assert forall|k: int|
            0 <= k < records.len() && #[trigger] records[k].session_id == filter.session_id && (
            filter.phase matches Some(p) ==> records[k].phase == p) && (filter.interceptor_name matches Some(n)
                ==> records[k].interceptor_name@ == n@) && available(records[k].deadline, now_ns) implies l.contains(
            summary_spec(records[k], now_ns),
        ) by {
            if k == 0 {
                assert(l[l.len() - 1] == summary_spec(records[0], now_ns));
            } else {
                assert(records[k] == rest[k - 1]);
                assert(lr.contains(summary_spec(rest[k - 1], now_ns)));
                let j = choose|j: int| 0 <= j < lr.len() && lr[j] == summary_spec(rest[k - 1], now_ns);
                assert(l[j] == lr[j]);
            }
        }
    }
}

/// The message of an operation on a breakpoint that is gone.
pub open spec fn not_found_message(id: u64) -> Seq<char> {
    "breakpoint "@ + decimal_text(id as nat) + " not found"@
}

fn not_found(id: u64) -> (r: String)
    ensures
        r@ == not_found_message(id),
{
    let mut m = String::from_str("breakpoint ");
    let n = u64_text(id);
    m.append(n.as_str());
    m.append(" not found");
    m
}

/// Whether a record is not breakpoint `id`.
pub open spec fn other_than(id: u64) -> spec_fn(BreakpointRecord) -> bool {
    |r: BreakpointRecord| r.id != id
}

/// Records ascend by id, all ids are at most `last_id`, and every deadline
/// respects its cap.
pub open spec fn records_ok(s: Seq<BreakpointRecord>, last_id: u64) -> bool {
    &&& forall|i: int, j: int| 0 <= i < j < s.len() ==> #[trigger] s[i].id < #[trigger] s[j].id
    &&& forall|i: int| 0 <= i < s.len() ==> #[trigger] s[i].id <= last_id
    &&& forall|i: int| 0 <= i < s.len() ==> record_ok(#[trigger] s[i])
}

proof fn lemma_filter_keeps_order(s: Seq<BreakpointRecord>, id: u64, last_id: u64)
    requires
        records_ok(s, last_id),
    ensures
        records_ok(s.filter(other_than(id)), last_id),
        forall|k: int|
            0 <= k < s.filter(other_than(id)).len() ==> exists|j: int|
                0 <= j < s.len() && #[trigger] s.filter(other_than(id))[k] == s[j],
    decreases s.len(),
{
    reveal(Seq::filter);
    let f = s.filter(other_than(id));
    if s.len() > 0 {
        let d = s.drop_last();
        lemma_filter_keeps_order(d, id, last_id);
        let g = d.filter(other_than(id));
        assert forall|k: int| 0 <= k < f.len() implies exists|j: int| 0 <= j < s.len() && #[trigger] f[k] == s[j] by {
            if k < g.len() {
                let j = choose|j: int| 0 <= j < d.len() && g[k] == d[j];
                assert(f[k] == s[j]);
            } else {
                assert(f[k] == s[s.len() - 1]);
            }
        }
        assert forall|a: int, b: int| 0 <= a < b < f.len() implies #[trigger] f[a].id < #[trigger] f[b].id by {
            if b < g.len() {
                assert(f[a] == g[a] && f[b] == g[b]);
            } else {
                let j = choose|j: int| 0 <= j < d.len() && g[a] == d[j];
                assert(f[a] == s[j]);
                assert(f[b] == s[s.len() - 1]);
            }
        }
        assert forall|k: int| 0 <= k < f.len() implies #[trigger] f[k].id <= last_id && record_ok(f[k]) by {
            let j = choose|j: int| 0 <= j < s.len() && f[k] == s[j];
        }
    }
}

/// The live breakpoints, oldest first, with the last id handed out.
pub struct BreakpointRegistry {
    records: Vec<BreakpointRecord>,
    last_id: u64,
}

impl BreakpointRegistry {
    /// Records ascend by id, all ids are at most the last one handed out, and
    /// every deadline respects its cap.
    pub closed spec fn wf(&self) -> bool {
        records_ok(self.records@, self.last_id)
    }

    /// The live breakpoints, oldest first.
    pub closed spec fn records(&self) -> Seq<BreakpointRecord> {
        self.records@
    }

    /// The last id handed out; the next breakpoint gets the one after.
    pub closed spec fn last_id(&self) -> u64 {
        self.last_id
    }

    /// An empty registry; the first breakpoint gets id 1.
    pub fn new() -> (r: Self)
        ensures
            r.wf(),
            r.records() == Seq::<BreakpointRecord>::empty(),
            r.last_id() == 0,
    {
        BreakpointRegistry { records: Vec::new(), last_id: 0 }
    }

    /// Whether another breakpoint can still get an id of its own.
    pub fn has_free_id(&self) -> (r: bool)
        ensures
            r == (self.last_id() < u64::MAX),
    {
        self.last_id < u64::MAX
    }

    fn position_of(&self, id: u64) -> (r: Option<usize>)
        ensures
            match r {
                Some(i) => i < self.records@.len() && self.records@[i as int].id == id,
                None => forall|i: int| 0 <= i < self.records@.len() ==> #[trigger] self.records@[i].id != id,
            },
    {
        let n = self.records.len();
        let mut i: usize = 0;
        while i < n
            invariant
                n == self.records@.len(),
                i <= n,
                forall|k: int| 0 <= k < i ==> #[trigger] self.records@[k].id != id,
            decreases n - i,
        {
            if self.records[i].id == id {
                return Some(i);
            }
            i = i + 1;
        }
        None
    }

    /// Registers a breakpoint created at `now_ns` (wall clock `created_at`)
    /// that holds for `hold_ms`, and returns its id.
    pub fn register(
        &mut self,
        session_id: u64,
        capture_id: u64,
        phase: InterceptorKind,
        position: usize,
        interceptor_name: String,
        method: String,
        uri: String,
        created_at: u64,
        now_ns: u64,
        hold_ms: u64,
    ) -> (r: u64)
        requires
            old(self).wf(),
            old(self).last_id() < u64::MAX,
            0 < hold_ms <= MAX_BREAKPOINT_MS,
            now_ns + MAX_BREAKPOINT_MS * NANOS_PER_MILLI <= u64::MAX,
            created_at + MAX_BREAKPOINT_MS <= u64::MAX,
        ensures
            final(self).wf(),
            r == old(self).last_id() + 1,
            final(self).last_id() == r,
            final(self).records() == old(self).records().push(
                BreakpointRecord {
                    id: r,
                    session_id,
                    capture_id,
                    phase,
                    position,
                    interceptor_name,
                    method,
                    uri,
                    created_at,
                    deadline: Deadline {
                        created_ns: now_ns,
                        expires_ns: (now_ns + hold_ms * NANOS_PER_MILLI) as u64,
                        maximum_ns: (now_ns + MAX_BREAKPOINT_MS * NANOS_PER_MILLI) as u64,
                        released: false,
                    },
                },
            ),
    {
        let id = self.last_id + 1;
        self.last_id = id;
        let deadline = Deadline::new(now_ns, hold_ms);
        self.records.push(
            BreakpointRecord {
                id,
                session_id,
                capture_id,
                phase,
                position,
                interceptor_name,
                method,
                uri,
                created_at,
                deadline,
            },
        );
        id
    }

    /// Whether breakpoint `id` still holds at `now_ns`.
    pub fn is_available(&self, id: u64, now_ns: u64) -> (r: bool)
        requires
            self.wf(),
        ensures
            r == exists|i: int|
                0 <= i < self.records().len() && #[trigger] self.records()[i].id == id && available(
                    self.records()[i].deadline,
                    now_ns,
                ),
    {
        match self.position_of(id) {
            Some(i) => {
                let ok = self.records[i].deadline.is_available(now_ns);
                proof {
                    if !ok {
                        assert forall|j: int|
                            0 <= j < self.records().len() && #[trigger] self.records()[j].id == id implies !available(
                            self.records()[j].deadline,
                            now_ns,
                        ) by {
                            if j < i {
                                assert(self.records()[j].id < self.records()[i as int].id);
                            } else if j > i {
                                assert(self.records()[i as int].id < self.records()[j].id);
                            }
                        }
                    }
                }
                ok
            },
            None => false,
        }
    }

    /// The live breakpoints of one Session, newest first.
    pub fn list(&self, filter: &BreakpointListFilter, now_ns: u64) -> (r: Vec<BreakpointSummary>)
        requires
            self.wf(),
        ensures
            r@.map_values(|s: BreakpointSummary| summary_view(s)) == listing(self.records(), *filter, now_ns),
    {
        let n = self.records.len();
        let mut out: Vec<BreakpointSummary> = Vec::new();
        let mut i: usize = n;
        while i > 0
            invariant
                n == self.records@.len(),
                i <= n,
                self.wf(),
                out@.map_values(|s: BreakpointSummary| summary_view(s)) == listing(
                    self.records@.subrange(i as int, n as int),
                    *filter,
                    now_ns,
                ),
            decreases i,
        {
            let k = i - 1;
            let r = &self.records[k];
            let ghost sub = self.records@.subrange(k as int, n as int);
            assert(sub.drop_first() == self.records@.subrange(i as int, n as int));
            assert(sub[0] == self.records@[k as int]);
            let phase_ok = match filter.phase {
                Some(p) => r.phase == p,
                None => true,
            };
            let name_ok = match &filter.interceptor_name {
                Some(name) => crate::text::str_eq(r.interceptor_name.as_str(), name.as_str()),
                None => true,
            };
            if r.session_id == filter.session_id && phase_ok && name_ok && r.deadline.is_available(now_ns) {
                let ghost before = out@;
                out.push(summarize(r, now_ns));
                assert(out@.map_values(|s: BreakpointSummary| summary_view(s)) =~= before.map_values(
                    |s: BreakpointSummary| summary_view(s),
                ).push(summary_spec(*r, now_ns)));
            }
            i = k;
        }
        assert(self.records@.subrange(0, n as int) == self.records@);
        out
    }

    /// Extends breakpoint `id` by `timeout_ms` and returns its summary; fails
    /// when it is gone, released or expired.
    pub fn extend(&mut self, id: u64, now_ns: u64, timeout_ms: u64) -> (r: Result<BreakpointSummary, String>)
        requires
            old(self).wf(),
        ensures
            final(self).wf(),
            final(self).last_id() == old(self).last_id(),
            match r {
                Ok(s) => exists|i: int|
                    0 <= i < old(self).records().len() && #[trigger] old(self).records()[i].id == id
                        && available(old(self).records()[i].deadline, now_ns) && final(self).records()
                        == old(self).records().update(
                        i,
                        BreakpointRecord {
                            deadline: Deadline {
                                expires_ns: extended_expiry(old(self).records()[i].deadline, timeout_ms),
                                ..old(self).records()[i].deadline
                            },
                            ..old(self).records()[i]
                        },
                    ) && summary_view(s) == summary_spec(final(self).records()[i], now_ns),
                Err(m) => m@ == not_found_message(id) && final(self).records() == old(self).records() && !(
                exists|i: int|
                    0 <= i < old(self).records().len() && #[trigger] old(self).records()[i].id == id
                        && available(old(self).records()[i].deadline, now_ns)),
            },
    {
        let i = match self.position_of(id) {
            Some(i) => i,
            None => return Err(not_found(id)),
        };
        let mut record = self.records[i].clone_record();
        match record.deadline.extend(now_ns, timeout_ms) {
            Ok(()) => {},
            Err(()) => {
                proof {
                    assert forall|j: int|
                        0 <= j < old(self).records().len() && #[trigger] old(self).records()[j].id == id implies !available(
                        old(self).records()[j].deadline,
                        now_ns,
                    ) by {
                        if j != i {
                            if j < i {
                                assert(old(self).records()[j].id < old(self).records()[i as int].id);
                            } else {
                                assert(old(self).records()[i as int].id < old(self).records()[j].id);
                            }
                        }
                    }
                }
                return Err(not_found(id));
            },
        }
        let summary = summarize(&record, now_ns);
        self.records.set(i, record);
        Ok(summary)
    }

    /// Releases breakpoint `id`, so its hold ends; fails when it is gone,
    /// released or expired.
    pub fn release(&mut self, id: u64, now_ns: u64) -> (r: Result<(), String>)
        requires
            old(self).wf(),
        ensures
            final(self).wf(),
            final(self).last_id() == old(self).last_id(),
            match r {
                Ok(()) => exists|i: int|
                    0 <= i < old(self).records().len() && #[trigger] old(self).records()[i].id == id
                        && available(old(self).records()[i].deadline, now_ns) && final(self).records()
                        == old(self).records().update(
                        i,
                        BreakpointRecord {
                            deadline: Deadline { released: true, ..old(self).records()[i].deadline },
                            ..old(self).records()[i]
                        },
                    ),
                Err(m) => m@ == not_found_message(id) && final(self).records() == old(self).records() && !(
                exists|i: int|
                    0 <= i < old(self).records().len() && #[trigger] old(self).records()[i].id == id
                        && available(old(self).records()[i].deadline, now_ns)),
            },
    {
        let i = match self.position_of(id) {
            Some(i) => i,
            None => return Err(not_found(id)),
        };
        let mut record = self.records[i].clone_record();
        match record.deadline.release(now_ns) {
            Ok(()) => {},
            Err(()) => {
                proof {
                    assert forall|j: int|
                        0 <= j < old(self).records().len() && #[trigger] old(self).records()[j].id == id implies !available(
                        old(self).records()[j].deadline,
                        now_ns,
                    ) by {
                        if j != i {
                            if j < i {
                                assert(old(self).records()[j].id < old(self).records()[i as int].id);
                            } else {
                                assert(old(self).records()[i as int].id < old(self).records()[j].id);
                            }
                        }
                    }
                }
                return Err(not_found(id));
            },
        }
        self.records.set(i, record);
        Ok(())
    }

    /// Releases every live breakpoint, as when the proxy stops.
    pub fn release_all(&mut self)
        requires
            old(self).wf(),
        ensures
            final(self).wf(),
            final(self).last_id() == old(self).last_id(),
            final(self).records().len() == old(self).records().len(),
            forall|i: int|
                0 <= i < final(self).records().len() ==> #[trigger] final(self).records()[i] == (
                BreakpointRecord {
                    deadline: Deadline { released: true, ..old(self).records()[i].deadline },
                    ..old(self).records()[i]
                }),
    {
        let n = self.records.len();
        let mut i: usize = 0;
        while i < n
            invariant
                n == self.records@.len(),
                n == old(self).records@.len(),
                i <= n,
                self.last_id == old(self).last_id,
                forall|k: int| 0 <= k < i ==> #[trigger] self.records@[k] == (BreakpointRecord {
                    deadline: Deadline { released: true, ..old(self).records@[k].deadline },
                    ..old(self).records@[k]
                }),
                forall|k: int| i <= k < n ==> #[trigger] self.records@[k] == old(self).records@[k],
                old(self).wf(),
            decreases n - i,
        {
            let mut record = self.records[i].clone_record();
            record.deadline.released = true;
            self.records.set(i, record);
            i = i + 1;
        }
    }

    /// Forgets breakpoint `id` once its hold is over.
    pub fn remove(&mut self, id: u64)
        requires
            old(self).wf(),
        ensures
            final(self).wf(),
            final(self).last_id() == old(self).last_id(),
            final(self).records() == old(self).records().filter(other_than(id)),
    {
        let ghost before = self.records@;
        let mut kept: Vec<BreakpointRecord> = Vec::new();
        let n = self.records.len();
        let mut i: usize = 0;
        while i < n
            invariant
                n == self.records@.len(),
                before == self.records@,
                i <= n,
                kept@ == before.subrange(0, i as int).filter(other_than(id)),
            decreases n - i,
        {
            let ghost sub = before.subrange(0, i + 1);
            assert(sub.drop_last() == before.subrange(0, i as int));
            reveal(Seq::filter);
            if self.records[i].id != id {
                kept.push(self.records[i].clone_record());
            }
            assert(kept@ =~= sub.filter(other_than(id)));
            i = i + 1;
        }
        assert(before.subrange(0, n as int) == before);
        proof {
            lemma_filter_keeps_order(before, id, self.last_id);
        }
        self.records = kept;
    }
}

impl BreakpointRecord {
    /// A copy of the record.
    pub fn clone_record(&self) -> (r: Self)
        ensures
            r == *self,
    {
        BreakpointRecord {
            id: self.id,
            session_id: self.session_id,
            capture_id: self.capture_id,
            phase: self.phase,
            position: self.position,
            interceptor_name: self.interceptor_name.clone(),
            method: self.method.clone(),
            uri: self.uri.clone(),
            created_at: self.created_at,
            deadline: self.deadline,
        }
    }
}

} // verus!
