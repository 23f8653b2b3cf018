//! The in-memory system log: a bounded buffer of numbered entries that a
//! viewer can read incrementally by sequence number.
use std::collections::VecDeque;
use vstd::prelude::*;

use crate::clock::now_millis;
use crate::model::SystemLogEntry;

verus! {

/// How many entries a buffer keeps unless told otherwise.
pub const DEFAULT_LOG_CAPACITY: usize = 10000;

/// The entries after one push: a buffer of capacity 0 keeps nothing, a full
/// buffer drops its oldest entry, and the new entry goes last.
pub open spec fn pushed(entries: Seq<SystemLogEntry>, capacity: nat, entry: SystemLogEntry) -> Seq<
    SystemLogEntry,
> {
    if capacity == 0 {
        entries
    } else if entries.len() >= capacity {
        entries.drop_first().push(entry)
    } else {
        entries.push(entry)
    }
}

/// The entries numbered above `after`, oldest first.
pub open spec fn entries_after(entries: Seq<SystemLogEntry>, after: u64) -> Seq<SystemLogEntry> {
    entries.filter(numbered_above(after))
}

/// Whether an entry is numbered above `after`.
pub open spec fn numbered_above(after: u64) -> spec_fn(SystemLogEntry) -> bool {
    |e: SystemLogEntry| e.seq > after
}

/// What a query returns: the first `limit` entries numbered above `after`,
/// and never more than the buffer's capacity.
pub open spec fn query_result(
    entries: Seq<SystemLogEntry>,
    capacity: nat,
    after: u64,
    limit: nat,
) -> Seq<SystemLogEntry> {
    let matching = entries_after(entries, after);
    let n = if limit < capacity { limit } else { capacity };
    if matching.len() <= n {
        matching
    } else {
        matching.take(n as int)
    }
}

/// The sequence number that follows `seq`; numbering wraps after `u64::MAX`.
pub open spec fn next_seq_after(seq: u64) -> u64 {
    if seq == u64::MAX {
        0
    } else {
        (seq + 1) as u64
    }
}

/// Entries numbered in strictly ascending order, all below `next`.
pub open spec fn numbered_in_order(entries: Seq<SystemLogEntry>, next: u64) -> bool {
    &&& forall|i: int, j: int| 0 <= i < j < entries.len() ==> #[trigger] entries[i].seq < #[trigger] entries[j].seq
    &&& forall|i: int| 0 <= i < entries.len() ==> #[trigger] entries[i].seq < next
}

/// The number the `k`-th entry gets, counting from 1; numbering wraps after
/// `u64::MAX`.
pub open spec fn seq_number(k: nat) -> u64 {
    (k % 0x1_0000_0000_0000_0000) as u64
}

/// The last `capacity` of `s`, or all of it when it is shorter.
pub open spec fn last_kept(s: Seq<SystemLogEntry>, capacity: nat) -> Seq<SystemLogEntry> {
    if s.len() <= capacity {
        s
    } else {
        s.skip(s.len() - capacity)
    }
}

/// A buffer keeps the newest entries that fit: as many as the capacity allows
/// (all of them when fewer were pushed), the last ones pushed, in order.
pub proof fn law_buffer_keeps_the_newest(s: Seq<SystemLogEntry>, capacity: nat, i: int)
    ensures
        last_kept(s, capacity).len() == if s.len() <= capacity {
            s.len()
        } else {
            capacity
        },
        0 <= i < last_kept(s, capacity).len() ==> last_kept(s, capacity)[i] == s[s.len() - last_kept(
            s,
            capacity,
        ).len() + i],
{
}

/// Entries numbered in strictly ascending order.
pub open spec fn ascending(entries: Seq<SystemLogEntry>) -> bool {
    forall|i: int, j: int| 0 <= i < j < entries.len() ==> #[trigger] entries[i].seq < #[trigger] entries[j].seq
}

/// `s` holds the entries numbered up to that of the `count`-th entry, one
/// number each, in order.
pub open spec fn numbered_up_to(s: Seq<SystemLogEntry>, count: nat) -> bool {
    &&& s.len() <= count
    &&& forall|i: int| 0 <= i < s.len() ==> #[trigger] s[i].seq == seq_number((count - s.len() + i + 1) as nat)
}

/// A bounded log of numbered entries; the oldest entry goes first once it is full.
pub struct LogBuffer {
    entries: VecDeque<SystemLogEntry>,
    next_seq: u64,
    capacity: usize,
    pushes: Ghost<nat>,
    since_clear: Ghost<Seq<SystemLogEntry>>,
}

fn copy_entry(e: &SystemLogEntry) -> (r: SystemLogEntry)
    ensures
        r == *e,
{
    SystemLogEntry {
        seq: e.seq,
        timestamp: e.timestamp,
        level: e.level.clone(),
        message: e.message.clone(),
    }
}

/// Numbering the entry after the `k`-th gives the next number.
proof fn lemma_next_number(k: nat)
    ensures
        next_seq_after(seq_number(k)) == seq_number(k + 1),
        vstd::wrapping::u64_specs::wrapping_add(seq_number(k), 1) == seq_number(k + 1),
{
    let m: int = 0x1_0000_0000_0000_0000;
    let q: int = k as int / m;
    let r: int = k as int % m;
    vstd::arithmetic::div_mod::lemma_fundamental_div_mod(k as int, m);
    if r == m - 1 {
        vstd::arithmetic::div_mod::lemma_fundamental_div_mod_converse(k + 1int, m, q + 1, 0);
    } else {
        vstd::arithmetic::div_mod::lemma_fundamental_div_mod_converse(k + 1int, m, q, r + 1);
    }
}

/// Below the wrap, an entry's number is its count.
proof fn lemma_number_below_wrap(k: nat)
    requires
        k < 0x1_0000_0000_0000_0000,
    ensures
        seq_number(k) == k,
{
    vstd::arithmetic::div_mod::lemma_small_mod(k, 0x1_0000_0000_0000_0000);
}

impl LogBuffer {
    /// The type invariant: the entries are the last of those pushed since the
    /// last clear that fit, and numbering counts every push.
    #[verifier::type_invariant]
    closed spec fn bounded(self) -> bool {
        &&& self.entries@.len() <= self.capacity
        &&& self.entries@ == last_kept(self.since_clear@, self.capacity as nat)
        &&& self.next_seq == seq_number(self.pushes@ + 1)
        &&& numbered_up_to(self.since_clear@, self.pushes@)
    }

    /// The entries held, oldest first.
    pub closed spec fn entries(&self) -> Seq<SystemLogEntry> {
        self.entries@
    }

    /// The number the next entry gets.
    pub closed spec fn next_seq(&self) -> u64 {
        self.next_seq
    }

    /// The most entries the buffer keeps.
    pub closed spec fn capacity(&self) -> usize {
        self.capacity
    }

    /// How many entries were pushed since the buffer was made.
    pub closed spec fn push_count(&self) -> nat {
        self.pushes@
    }

    /// The entries pushed since the last clear (or since the buffer was
    /// made), oldest first.
    pub closed spec fn since_clear(&self) -> Seq<SystemLogEntry> {
        self.since_clear@
    }

    /// An empty buffer whose first entry will be numbered 1.
    pub fn new(capacity: usize) -> (r: Self)
        ensures
            r.entries() == Seq::<SystemLogEntry>::empty(),
            r.next_seq() == 1,
            r.capacity() == capacity,
            r.push_count() == 0,
            r.since_clear() == Seq::<SystemLogEntry>::empty(),
    {
        proof {
            lemma_number_below_wrap(1);
        }
        LogBuffer {
            entries: VecDeque::with_capacity(capacity),
            next_seq: 1,
            capacity,
            pushes: Ghost(0),
            since_clear: Ghost(Seq::empty()),
        }
    }

    /// Records an entry stamped with the current time and returns it. The
    /// `k`-th push gets number `k` (wrapping after `u64::MAX`); afterwards the
    /// buffer holds the last entries pushed since the last clear, as many as
    /// fit, in the order they were pushed.
    pub fn push(&mut self, level: String, message: String) -> (r: SystemLogEntry)
        ensures
            r.seq == old(self).next_seq(),
            r.seq == seq_number(old(self).push_count() + 1),
            r.level == level,
            r.message == message,
            final(self).next_seq() == next_seq_after(old(self).next_seq()),
            final(self).capacity() == old(self).capacity(),
            final(self).entries() == pushed(old(self).entries(), old(self).capacity() as nat, r),
            final(self).entries().len() <= final(self).capacity(),
            final(self).push_count() == old(self).push_count() + 1,
            final(self).since_clear() == old(self).since_clear().push(r),
            final(self).entries() == last_kept(final(self).since_clear(), final(self).capacity() as nat),
            final(self).push_count() < 0x1_0000_0000_0000_0000 ==> ascending(final(self).entries()),
    {
        proof {
            use_type_invariant(&*self);
        }
        let mut taken = LogBuffer::new(0);
        std::mem::swap(self, &mut taken);
        let LogBuffer { entries, next_seq, capacity, pushes, since_clear } = taken;
        let entry = SystemLogEntry { seq: next_seq, timestamp: now_millis(), level, message };
        proof {
            lemma_next_number(pushes@ + 1);
        }
        let following = next_seq.wrapping_add(1);
        let ghost all = since_clear@.push(entry);
        let ghost count: nat = pushes@ + 1;
        let mut kept = entries;
        if capacity > 0 {
            if kept.len() == capacity {
                let _ = kept.pop_front();
            }
            kept.push_back(copy_entry(&entry));
        }
        proof {
            let before = since_clear@;
            if capacity == 0 {
                assert(all.skip(all.len() as int) =~= Seq::<SystemLogEntry>::empty());
            } else if before.len() < capacity {
                assert(last_kept(before, capacity as nat) == before);
                assert(kept@ =~= all);
            } else {
                assert(kept@ =~= all.skip(all.len() - capacity));
            }
            assert forall|i: int| 0 <= i < all.len() implies #[trigger] all[i].seq == seq_number(
                (count - all.len() + i + 1) as nat,
            ) by {
                if i < before.len() {
                    assert(all[i] == before[i]);
                }
            }
            if count < 0x1_0000_0000_0000_0000 {
                let off = all.len() - kept@.len();
                assert forall|i: int, j: int| 0 <= i < j < kept@.len() implies #[trigger] kept@[i].seq
                    < #[trigger] kept@[j].seq by {
                    assert(kept@[i] == all[off + i]);
                    assert(kept@[j] == all[off + j]);
                    lemma_number_below_wrap((count - all.len() + off + i + 1) as nat);
                    lemma_number_below_wrap((count - all.len() + off + j + 1) as nat);
                }
            }
        }
        assert(kept@.len() <= capacity);
        assert(kept@ == last_kept(all, capacity as nat));
        assert(following == seq_number(count + 1));
        assert(numbered_up_to(all, count));
        *self = LogBuffer {
            entries: kept,
            next_seq: following,
            capacity,
            pushes: Ghost(count),
            since_clear: Ghost(all),
        };
        entry
    }

    /// The first `limit` entries numbered above `after_seq` (above 0 when
    /// absent), oldest first, and never more than the capacity.
    pub fn query(&self, after_seq: Option<u64>, limit: usize) -> (r: Vec<SystemLogEntry>)
        ensures
            r@ == query_result(
                self.entries(),
                self.capacity() as nat,
                match after_seq {
                    Some(s) => s,
                    None => 0,
                },
                limit as nat,
            ),
    {
        let after = match after_seq {
            Some(s) => s,
            None => 0,
        };
        let max = if limit < self.capacity {
            limit
        } else {
            self.capacity
        };
        let ghost all = self.entries@;
        let n = self.entries.len();
        let mut out: Vec<SystemLogEntry> = Vec::new();
        let mut i: usize = 0;
        while i < n && out.len() < max
            invariant
                n == all.len(),
                all == self.entries@,
                i <= n,
                out.len() <= max,
                out@ == entries_after(all.subrange(0, i as int), after),
            decreases n - i,
        {
            let ghost sub = all.subrange(0, i + 1);
            assert(sub.drop_last() == all.subrange(0, i as int));
            reveal(Seq::filter);
            let e = &self.entries[i];
            if e.seq > after {
                out.push(copy_entry(e));
            }
            assert(out@ =~= entries_after(sub, after));
            i = i + 1;
        }
        proof {
            lemma_filter_prefix(all, after, i as int);
            if i < n {
                assert(out.len() == max);
            } else {
                assert(all.subrange(0, n as int) == all);
            }
        }
        out
    }

    /// Drops every entry; numbering continues where it was.
    pub fn clear(&mut self)
        ensures
            final(self).entries() == Seq::<SystemLogEntry>::empty(),
            final(self).next_seq() == old(self).next_seq(),
            final(self).capacity() == old(self).capacity(),
            final(self).push_count() == old(self).push_count(),
            final(self).since_clear() == Seq::<SystemLogEntry>::empty(),
    {
        proof {
            use_type_invariant(&*self);
        }
        let mut taken = LogBuffer::new(0);
        std::mem::swap(self, &mut taken);
        let LogBuffer { entries, next_seq, capacity, pushes, since_clear } = taken;
        *self = LogBuffer {
            entries: VecDeque::new(),
            next_seq,
            capacity,
            pushes,
            since_clear: Ghost(Seq::empty()),
        };
    }
}

/// The entries above `after` in a prefix of the buffer are a prefix of those in
/// the whole buffer.
proof fn lemma_filter_prefix(all: Seq<SystemLogEntry>, after: u64, i: int)
    requires
        0 <= i <= all.len(),
    ensures
        entries_after(all.subrange(0, i), after).len() <= entries_after(all, after).len(),
        entries_after(all, after).take(entries_after(all.subrange(0, i), after).len() as int)
            == entries_after(all.subrange(0, i), after),
    decreases all.len() - i,
{
    reveal(Seq::filter);
    if i < all.len() {
        lemma_filter_prefix(all, after, i + 1);
        let sub = all.subrange(0, i + 1);
        assert(sub.drop_last() == all.subrange(0, i));
        let a = entries_after(all.subrange(0, i), after);
        let b = entries_after(sub, after);
        let w = entries_after(all, after);
        if all[i].seq > after {
            assert(b == a.push(all[i]));
            assert(w.take(b.len() as int).take(a.len() as int) =~= w.take(a.len() as int));
            assert(b.take(a.len() as int) =~= a);
        } else {
            assert(b == a);
        }
    } else {
        assert(all.subrange(0, i) == all);
        assert(entries_after(all, after).take(entries_after(all, after).len() as int) =~= entries_after(
            all,
            after,
        ));
    }
}

impl Default for LogBuffer {
    fn default() -> (r: Self)
        ensures
            r.entries() == Seq::<SystemLogEntry>::empty(),
            r.next_seq() == 1,
            r.capacity() == DEFAULT_LOG_CAPACITY,
    {
        LogBuffer::new(DEFAULT_LOG_CAPACITY)
    }
}

/// Pushing onto a buffer numbered in order keeps it numbered in order, as long
/// as numbering has not reached `u64::MAX`.
pub proof fn law_push_keeps_sequence_order(
    entries: Seq<SystemLogEntry>,
    capacity: nat,
    entry: SystemLogEntry,
    next: u64,
)
    requires
        numbered_in_order(entries, next),
        entry.seq == next,
        next < u64::MAX,
    ensures
        numbered_in_order(pushed(entries, capacity, entry), next_seq_after(next)),
{
    let p = pushed(entries, capacity, entry);
    if capacity == 0 {
    } else if entries.len() >= capacity {
        assert forall|i: int, j: int| 0 <= i < j < p.len() implies #[trigger] p[i].seq < #[trigger] p[j].seq by {
            if j < p.len() - 1 {
                assert(p[i] == entries[i + 1]);
                assert(p[j] == entries[j + 1]);
            } else {
                assert(p[i] == entries[i + 1]);
            }
        }
        assert forall|i: int| 0 <= i < p.len() implies #[trigger] p[i].seq < next_seq_after(next) by {
            if i < p.len() - 1 {
                assert(p[i] == entries[i + 1]);
            }
        }
    } else {
        assert forall|i: int, j: int| 0 <= i < j < p.len() implies #[trigger] p[i].seq < #[trigger] p[j].seq by {
            assert(p[i] == entries[i]);
            if j < p.len() - 1 {
                assert(p[j] == entries[j]);
            }
        }
        assert forall|i: int| 0 <= i < p.len() implies #[trigger] p[i].seq < next_seq_after(next) by {
            if i < p.len() - 1 {
                assert(p[i] == entries[i]);
            }
        }
    }
}

/// A query after the number of an entry returns only entries pushed after it,
/// in the order they were pushed.
pub proof fn law_query_is_incremental(entries: Seq<SystemLogEntry>, capacity: nat, after: u64, limit: nat)
    ensures
        forall|i: int|
            0 <= i < query_result(entries, capacity, after, limit).len() ==> #[trigger] query_result(
                entries,
                capacity,
                after,
                limit,
            )[i].seq > after,
        query_result(entries, capacity, after, limit).len() <= capacity,
        query_result(entries, capacity, after, limit).len() <= limit,
{
    let m = entries_after(entries, after);
    assert forall|i: int| 0 <= i < m.len() implies #[trigger] m[i].seq > after by {
        entries.lemma_filter_pred(numbered_above(after), i);
    }
}

/// `s` without the copies of `c` it starts with.
pub open spec fn strip_leading(s: Seq<char>, c: char) -> Seq<char>
    decreases s.len(),
{
    if s.len() > 0 && s[0] == c {
        strip_leading(s.drop_first(), c)
    } else {
        s
    }
}

/// `s` without the copies of `c` it ends with.
pub open spec fn strip_trailing(s: Seq<char>, c: char) -> Seq<char>
    decreases s.len(),
{
    if s.len() > 0 && s.last() == c {
        strip_trailing(s.drop_last(), c)
    } else {
        s
    }
}

/// `s` without the copies of `c` at either end, as `str::trim_matches` gives it.
pub open spec fn trim_char(s: Seq<char>, c: char) -> Seq<char> {
    strip_trailing(strip_leading(s, c), c)
}

/// The text of an event's `message` field from its `{:?}` form: the quotes
/// around it are dropped.
pub fn message_field_text(formatted: &str) -> (r: String)
    ensures
        r@ == trim_char(formatted@, '"'),
{
    let n = formatted.unicode_len();
    assert(formatted@.subrange(0, n as int) == formatted@);
    let mut i: usize = 0;
    while i < n && formatted.get_char(i) == '"'
        invariant
            n == formatted@.len(),
            i <= n,
            strip_leading(formatted@, '"') == strip_leading(formatted@.subrange(i as int, n as int), '"'),
        decreases n - i,
    {
        assert(formatted@.subrange(i as int, n as int).drop_first() == formatted@.subrange(i + 1, n as int));
        i = i + 1;
    }
    assert(strip_leading(formatted@, '"') == formatted@.subrange(i as int, n as int));
    let mut j: usize = n;
    while j > i && formatted.get_char(j - 1) == '"'
        invariant
            n == formatted@.len(),
            i <= j <= n,
            trim_char(formatted@, '"') == strip_trailing(formatted@.subrange(i as int, j as int), '"'),
        decreases j,
    {
        assert(formatted@.subrange(i as int, j as int).drop_last() == formatted@.subrange(i as int, j - 1));
        j = j - 1;
    }
    formatted.substring_char(i, j).to_string()
}

/// Texts joined with single spaces between them.
pub open spec fn space_joined(parts: Seq<Seq<char>>) -> Seq<char>
    decreases parts.len(),
{
    if parts.len() == 0 {
        Seq::empty()
    } else if parts.len() == 1 {
        parts[0]
    } else {
        space_joined(parts.drop_last()) + " "@ + parts.last()
    }
}

/// The line a log event is kept as: its message, its other fields joined by
/// spaces, or the message, a space and the fields when it has both.
pub open spec fn event_line(message: Seq<char>, fields: Seq<Seq<char>>) -> Seq<char> {
    if message.len() == 0 {
        space_joined(fields)
    } else if fields.len() == 0 {
        message
    } else {
        message + " "@ + space_joined(fields)
    }
}

fn join_with_spaces(parts: &Vec<String>) -> (r: String)
    ensures
        r@ == space_joined(parts.deep_view()),
{
    let n = parts.len();
    let mut out = String::new();
    let mut i: usize = 0;
    let ghost all = parts.deep_view();
    while i < n
        invariant
            n == parts@.len(),
            all == parts.deep_view(),
            i <= n,
            out@ == space_joined(all.subrange(0, i as int)),
        decreases n - i,
    {
        let ghost sub = all.subrange(0, i + 1);
        assert(sub.drop_last() == all.subrange(0, i as int));
        assert(sub.last() == parts@[i as int]@);
        if i > 0 {
            out.append(" ");
        } else {
            assert(sub.len() == 1);
            assert(space_joined(all.subrange(0, 0)) == Seq::<char>::empty());
            assert(out@ == Seq::<char>::empty());
        }
        out.append(parts[i].as_str());
        proof {
            if i == 0 {
                assert(out@ =~= sub[0]);
            }
        }
        i = i + 1;
    }
    assert(all.subrange(0, n as int) == all);
    out
}

/// The line a log event with this message and these other fields is kept as.
pub fn event_message(message: String, fields: &Vec<String>) -> (r: String)
    ensures
        r@ == event_line(message@, fields.deep_view()),
{
    if message.unicode_len() == 0 {
        join_with_spaces(fields)
    } else if fields.len() == 0 {
        message
    } else {
        let mut line = message;
        line.append(" ");
        let rest = join_with_spaces(fields);
        line.append(rest.as_str());
        line
    }
}

} // verus!
