//! The network usage tracker: a mapping from process key to the last
//! observed `(bytes_in, bytes_out)` counters, updated by observing the
//! textual counter table that the platform's per-process network query
//! prints. Each observation filters the table's lines case-insensitively
//! by a target key, parses the counters, and reports a delta for exactly
//! the keys whose counters moved; unchanged keys leave no trace.

use vstd::prelude::*;
use crate::text::{
    contains_ci, contains_ci_str, digits_val, is_u64_numeral, parse_u64_or_zero, split_tokens,
    tokens_of,
};

verus! {

/// Lines of `s` with `cur` as the partial line read so far: the helper
/// behind [`lines_of`].
pub open spec fn lines_acc(s: Seq<char>, cur: Seq<char>) -> Seq<Seq<char>>
    decreases s.len(),
{
    if s.len() == 0 {
        seq![cur]
    } else if s[0] == '\n' {
        seq![cur] + lines_acc(s.drop_first(), seq![])
    } else {
        lines_acc(s.drop_first(), cur.push(s[0]))
    }
}

/// The segments of `s` between newline characters, in order. A trailing
/// carriage return stays on its line; it is whitespace to the tokenizer
/// and changes no reading.
pub open spec fn lines_of(s: Seq<char>) -> Seq<Seq<char>> {
    lines_acc(s, seq![])
}

/// Splits a counter table into its lines.
pub fn split_lines(s: &str) -> (r: Vec<String>)
    ensures
        r.deep_view() == lines_of(s@),
{
    let s_len = s.unicode_len();
    let mut r: Vec<String> = Vec::new();
    let mut start: usize = 0;
    let mut i: usize = 0;
    proof {
        assert(s@.skip(0) =~= s@);
        assert(s@.subrange(0, 0) =~= Seq::<char>::empty());
        assert(r.deep_view() =~= Seq::<Seq<char>>::empty());
        assert(Seq::<Seq<char>>::empty() + lines_acc(s@, seq![]) =~= lines_acc(s@, seq![]));
    }
    while i < s_len
        invariant
            s_len == s@.len(),
            0 <= start <= i <= s_len,
            lines_of(s@) == r.deep_view() + lines_acc(
                s@.skip(i as int),
                s@.subrange(start as int, i as int),
            ),
        decreases s_len - i,
    {
        let c = s.get_char(i);
        proof {
            assert(s@.skip(i as int)[0] == s@[i as int]);
            assert(s@.skip(i as int).drop_first() =~= s@.skip(i + 1));
        }
        if c == '\n' {
            let line = String::from_str(s.substring_char(start, i));
            let ghost prev = r.deep_view();
            r.push(line);
            proof {
                let cur = s@.subrange(start as int, i as int);
                assert(lines_acc(s@.skip(i as int), cur) == seq![cur] + lines_acc(
                    s@.skip(i + 1),
                    seq![],
                ));
                assert(r.deep_view() =~= prev.push(cur));
                assert(prev.push(cur) + lines_acc(s@.skip(i + 1), seq![]) =~= prev + (seq![cur]
                    + lines_acc(s@.skip(i + 1), seq![])));
                assert(s@.subrange(i + 1, i + 1) =~= Seq::<char>::empty());
            }
            start = i + 1;
        } else {
            proof {
                assert(s@.subrange(start as int, i as int).push(s@[i as int]) =~= s@.subrange(
                    start as int,
                    i + 1,
                ));
            }
        }
        i = i + 1;
    }
    let line = String::from_str(s.substring_char(start, s_len));
    let ghost prev = r.deep_view();
    r.push(line);
    proof {
        let cur = s@.subrange(start as int, s_len as int);
        assert(s@.skip(s_len as int) =~= Seq::<char>::empty());
        assert(lines_acc(Seq::<char>::empty(), cur) == seq![cur]);
        assert(r.deep_view() =~= prev.push(cur));
        assert(prev.push(cur) =~= prev + seq![cur]);
    }
    r
}

/// The counters stored under `key`, scanning from the front.
pub open spec fn lookup_key(m: Seq<(Seq<char>, u64, u64)>, key: Seq<char>) -> Option<(u64, u64)>
    decreases m.len(),
{
    if m.len() == 0 {
        None
    } else if m[0].0 == key {
        Some((m[0].1, m[0].2))
    } else {
        lookup_key(m.drop_first(), key)
    }
}

/// The mapping after `key`'s counters are overwritten in place, or
/// appended when the key was not yet observed.
pub open spec fn store_key(
    m: Seq<(Seq<char>, u64, u64)>,
    key: Seq<char>,
    bytes_in: u64,
    bytes_out: u64,
) -> Seq<(Seq<char>, u64, u64)>
    decreases m.len(),
{
    if m.len() == 0 {
        seq![(key, bytes_in, bytes_out)]
    } else if m[0].0 == key {
        seq![(key, bytes_in, bytes_out)] + m.drop_first()
    } else {
        seq![m[0]] + store_key(m.drop_first(), key, bytes_in, bytes_out)
    }
}

/// One entry per distinct process key.
pub open spec fn unique_keys(m: Seq<(Seq<char>, u64, u64)>) -> bool {
    forall|i: int, j: int| 0 <= i < j < m.len() ==> m[i].0 != m[j].0
}

proof fn lemma_lookup_at(m: Seq<(Seq<char>, u64, u64)>, key: Seq<char>, j: int)
    requires
        0 <= j < m.len(),
        m[j].0 == key,
        forall|k: int| 0 <= k < j ==> m[k].0 != key,
    ensures
        lookup_key(m, key) == Some((m[j].1, m[j].2)),
    decreases m.len(),
{
    if j > 0 {
        assert(forall|k: int|
            0 <= k < j - 1 ==> m.drop_first()[k].0 == m[k + 1].0 && m[k + 1].0 != key);
        lemma_lookup_at(m.drop_first(), key, j - 1);
    }
}

proof fn lemma_lookup_none(m: Seq<(Seq<char>, u64, u64)>, key: Seq<char>)
    requires
        forall|k: int| 0 <= k < m.len() ==> m[k].0 != key,
    ensures
        lookup_key(m, key) is None,
    decreases m.len(),
{
    if m.len() > 0 {
        assert(forall|k: int|
            0 <= k < m.len() - 1 ==> m.drop_first()[k].0 == m[k + 1].0 && m[k + 1].0 != key);
        lemma_lookup_none(m.drop_first(), key);
    }
}

proof fn lemma_store_at(
    m: Seq<(Seq<char>, u64, u64)>,
    key: Seq<char>,
    bytes_in: u64,
    bytes_out: u64,
    j: int,
)
    requires
        0 <= j < m.len(),
        m[j].0 == key,
        forall|k: int| 0 <= k < j ==> m[k].0 != key,
    ensures
        store_key(m, key, bytes_in, bytes_out) =~= m.update(j, (key, bytes_in, bytes_out)),
    decreases m.len(),
{
    if j == 0 {
        assert(seq![(key, bytes_in, bytes_out)] + m.drop_first() =~= m.update(
            0,
            (key, bytes_in, bytes_out),
        ));
    } else {
        assert(forall|k: int|
            0 <= k < j - 1 ==> m.drop_first()[k].0 == m[k + 1].0 && m[k + 1].0 != key);
        lemma_store_at(m.drop_first(), key, bytes_in, bytes_out, j - 1);
        assert(seq![m[0]] + m.drop_first().update(j - 1, (key, bytes_in, bytes_out)) =~= m.update(
            j,
            (key, bytes_in, bytes_out),
        ));
    }
}

proof fn lemma_store_new(m: Seq<(Seq<char>, u64, u64)>, key: Seq<char>, bytes_in: u64, bytes_out: u64)
    requires
        forall|k: int| 0 <= k < m.len() ==> m[k].0 != key,
    ensures
        store_key(m, key, bytes_in, bytes_out) =~= m.push((key, bytes_in, bytes_out)),
    decreases m.len(),
{
    if m.len() > 0 {
        assert(forall|k: int|
            0 <= k < m.len() - 1 ==> m.drop_first()[k].0 == m[k + 1].0 && m[k + 1].0 != key);
        lemma_store_new(m.drop_first(), key, bytes_in, bytes_out);
        assert(seq![m[0]] + m.drop_first().push((key, bytes_in, bytes_out)) =~= m.push(
            (key, bytes_in, bytes_out),
        ));
    }
}

/// Saturating subtraction of counters: the delta between a current and a
/// previous reading, clamped at zero.
pub open spec fn sat_sub(current: u64, previous: u64) -> u64 {
    if current >= previous {
        (current - previous) as u64
    } else {
        0
    }
}

/// Subtraction clamped at zero: the delta between a current and a
/// previous counter reading. Never negative, never wraps, even when the
/// counter reset.
pub fn saturating_delta(current: u64, previous: u64) -> (r: u64)
    ensures
        r == sat_sub(current, previous),
        r == if current >= previous {
            current - previous
        } else {
            0
        },
{
    if current >= previous {
        current - previous
    } else {
        0
    }
}

/// The value a counter field reads as: its numeral's value, or 0 for a
/// malformed or out-of-range field.
pub open spec fn numeral_or_zero(s: Seq<char>) -> u64 {
    if is_u64_numeral(s) {
        digits_val(s) as u64
    } else {
        0u64
    }
}

/// What a counter-table line reads as against a target key: the process
/// key and both counters when the line matches the key case-insensitively
/// and has at least three columns; nothing otherwise.
pub open spec fn line_reading(line: Seq<char>, target: Seq<char>) -> Option<(Seq<char>, u64, u64)> {
    if contains_ci(line, target) && tokens_of(line).len() >= 3 {
        Some(
            (
                tokens_of(line)[0],
                numeral_or_zero(tokens_of(line)[1]),
                numeral_or_zero(tokens_of(line)[2]),
            ),
        )
    } else {
        None
    }
}

/// The previous counters for a key: the stored entry, or `(0, 0)` on first
/// observation.
pub open spec fn previous_counters(m: Seq<(Seq<char>, u64, u64)>, key: Seq<char>) -> (u64, u64) {
    match lookup_key(m, key) {
        Some(p) => p,
        None => (0u64, 0u64),
    }
}

/// Effect of one line on the mapping: the delta it emits, if any, and the
/// mapping afterwards. A line whose counters both equal the stored entry
/// emits nothing and changes nothing.
pub open spec fn line_effect(
    m: Seq<(Seq<char>, u64, u64)>,
    target: Seq<char>,
    line: Seq<char>,
) -> (Option<(Seq<char>, u64, u64, u64, u64)>, Seq<(Seq<char>, u64, u64)>) {
    match line_reading(line, target) {
        None => (None, m),
        Some(r) => {
            let prev = previous_counters(m, r.0);
            if r.1 != prev.0 || r.2 != prev.1 {
                (
                    Some((r.0, r.1, r.2, sat_sub(r.1, prev.0), sat_sub(r.2, prev.1))),
                    store_key(m, r.0, r.1, r.2),
                )
            } else {
                (None, m)
            }
        },
    }
}

/// Effect of a whole observation: the deltas emitted for each line in
/// order, and the mapping afterwards.
pub open spec fn observe_effect(
    m: Seq<(Seq<char>, u64, u64)>,
    target: Seq<char>,
    lines: Seq<Seq<char>>,
) -> (Seq<(Seq<char>, u64, u64, u64, u64)>, Seq<(Seq<char>, u64, u64)>)
    decreases lines.len(),
{
    if lines.len() == 0 {
        (seq![], m)
    } else {
        let head = observe_effect(m, target, lines.drop_last());
        let last = line_effect(head.1, target, lines.last());
        match last.0 {
            Some(d) => (head.0.push(d), last.1),
            None => (head.0, last.1),
        }
    }
}

/// Law: a reported delta is the saturating difference of the current and
/// the previous counter: `max(current - previous, 0)`. When a counter
/// reset makes the current reading smaller, the delta is zero — it never
/// goes negative and never wraps.
pub proof fn lemma_saturating_delta(current: u64, previous: u64)
    ensures
        sat_sub(current, previous) == if current as int - previous as int >= 0 {
            current as int - previous as int
        } else {
            0
        },
        current < previous ==> sat_sub(current, previous) == 0,
        sat_sub(current, previous) >= 0,
{
}

/// Law: an observation whose matching lines all read exactly the stored
/// counters reports no delta and leaves the mapping untouched — repeated
/// observation with no counter movement is idempotent.
pub proof fn lemma_observe_no_change(
    m: Seq<(Seq<char>, u64, u64)>,
    target: Seq<char>,
    lines: Seq<Seq<char>>,
)
    requires
        forall|i: int| 0 <= i < lines.len() ==> match line_reading(#[trigger] lines[i], target) {
            Some(r) => previous_counters(m, r.0) == (r.1, r.2),
            None => true,
        },
    ensures
        observe_effect(m, target, lines).0 =~= Seq::<(Seq<char>, u64, u64, u64, u64)>::empty(),
        observe_effect(m, target, lines).1 == m,
    decreases lines.len(),
{
    if lines.len() > 0 {
        assert(forall|i: int|
            0 <= i < lines.len() - 1 ==> lines.drop_last()[i] == #[trigger] lines[i]);
        lemma_observe_no_change(m, target, lines.drop_last());
        assert(lines.last() == lines[lines.len() - 1]);
    }
}

/// The counters stored for `key` after a store of `key` are the stored
/// ones.
proof fn lemma_store_lookup_same(
    m: Seq<(Seq<char>, u64, u64)>,
    key: Seq<char>,
    bytes_in: u64,
    bytes_out: u64,
)
    ensures
        lookup_key(store_key(m, key, bytes_in, bytes_out), key) == Some((bytes_in, bytes_out)),
    decreases m.len(),
{
    if m.len() == 0 {
        assert(seq![(key, bytes_in, bytes_out)][0] == (key, bytes_in, bytes_out));
    } else if m[0].0 == key {
        assert((seq![(key, bytes_in, bytes_out)] + m.drop_first())[0] == (
        key,
        bytes_in,
        bytes_out,
        ));
    } else {
        lemma_store_lookup_same(m.drop_first(), key, bytes_in, bytes_out);
        assert((seq![m[0]] + store_key(m.drop_first(), key, bytes_in, bytes_out))[0] == m[0]);
        assert((seq![m[0]] + store_key(m.drop_first(), key, bytes_in, bytes_out)).drop_first()
            =~= store_key(m.drop_first(), key, bytes_in, bytes_out));
    }
}

/// A store of one key leaves every other key's counters as they were.
proof fn lemma_store_lookup_other(
    m: Seq<(Seq<char>, u64, u64)>,
    key: Seq<char>,
    bytes_in: u64,
    bytes_out: u64,
    other: Seq<char>,
)
    requires
        other != key,
    ensures
        lookup_key(store_key(m, key, bytes_in, bytes_out), other) == lookup_key(m, other),
    decreases m.len(),
{
    if m.len() == 0 {
        assert(seq![(key, bytes_in, bytes_out)][0] == (key, bytes_in, bytes_out));
        assert(seq![(key, bytes_in, bytes_out)].drop_first() =~= m);
    } else if m[0].0 == key {
        assert((seq![(key, bytes_in, bytes_out)] + m.drop_first())[0] == (
        key,
        bytes_in,
        bytes_out,
        ));
        assert((seq![(key, bytes_in, bytes_out)] + m.drop_first()).drop_first()
            =~= m.drop_first());
    } else {
        lemma_store_lookup_other(m.drop_first(), key, bytes_in, bytes_out, other);
        assert((seq![m[0]] + store_key(m.drop_first(), key, bytes_in, bytes_out))[0] == m[0]);
        assert((seq![m[0]] + store_key(m.drop_first(), key, bytes_in, bytes_out)).drop_first()
            =~= store_key(m.drop_first(), key, bytes_in, bytes_out));
    }
}

/// After an observation, the counters stored for each key some line read
/// are that line's readings, provided no two matching lines carry the
/// same key (the counter table prints one row per process key).
proof fn lemma_observe_records_reading(
    m: Seq<(Seq<char>, u64, u64)>,
    target: Seq<char>,
    lines: Seq<Seq<char>>,
    i: int,
)
    requires
        0 <= i < lines.len(),
        line_reading(lines[i], target) is Some,
        forall|j: int|
            i < j < lines.len() ==> match line_reading(#[trigger] lines[j], target) {
                Some(r) => r.0 != (line_reading(lines[i], target)->0).0,
                None => true,
            },
    ensures
        ({
            let r = line_reading(lines[i], target)->0;
            previous_counters(observe_effect(m, target, lines).1, r.0) == (r.1, r.2)
        }),
    decreases lines.len(),
{
    let r = line_reading(lines[i], target)->0;
    let m1 = observe_effect(m, target, lines.drop_last()).1;
    let last = lines.last();
    assert(last == lines[lines.len() - 1]);
    if i == lines.len() - 1 {
        if r.1 != previous_counters(m1, r.0).0 || r.2 != previous_counters(m1, r.0).1 {
            lemma_store_lookup_same(m1, r.0, r.1, r.2);
        }
    } else {
        assert(forall|j: int|
            0 <= j < lines.len() - 1 ==> lines.drop_last()[j] == #[trigger] lines[j]);
        lemma_observe_records_reading(m, target, lines.drop_last(), i);
        match line_reading(last, target) {
            Some(r2) => {
                assert(r2.0 != r.0);
                if r2.1 != previous_counters(m1, r2.0).0 || r2.2 != previous_counters(
                    m1,
                    r2.0,
                ).1 {
                    lemma_store_lookup_other(m1, r2.0, r2.1, r2.2, r.0);
                }
            },
            None => {},
        }
    }
}

/// No two matching lines of the table read as the same key.
pub open spec fn distinct_read_keys(lines: Seq<Seq<char>>, target: Seq<char>) -> bool {
    forall|i: int, j: int|
        0 <= i < j < lines.len() ==> match (
            line_reading(#[trigger] lines[i], target),
            line_reading(#[trigger] lines[j], target),
        ) {
            (Some(a), Some(b)) => a.0 != b.0,
            _ => true,
        }
}

/// Law: observing the same counter table twice in a row reports deltas at
/// most once. The second observation emits nothing and leaves the mapping
/// exactly as the first left it, provided the table carries one row per
/// process key.
pub proof fn lemma_observe_twice_idempotent(
    m: Seq<(Seq<char>, u64, u64)>,
    target: Seq<char>,
    lines: Seq<Seq<char>>,
)
    requires
        distinct_read_keys(lines, target),
    ensures
        ({
            let after_first = observe_effect(m, target, lines).1;
            observe_effect(after_first, target, lines).0 =~= Seq::<
                (Seq<char>, u64, u64, u64, u64),
            >::empty() && observe_effect(after_first, target, lines).1 == after_first
        }),
{
    let after_first = observe_effect(m, target, lines).1;
    assert forall|i: int| 0 <= i < lines.len() implies match line_reading(
        #[trigger] lines[i],
        target,
    ) {
        Some(r) => previous_counters(after_first, r.0) == (r.1, r.2),
        None => true,
    } by {
        match line_reading(lines[i], target) {
            Some(r) => {
                lemma_observe_records_reading(m, target, lines, i);
            },
            None => {},
        }
    }
    lemma_observe_no_change(after_first, target, lines);
}

/// One stored observation: a process key and its last seen counters.
#[derive(Clone, Debug)]
pub struct NetworkUsageEntry {
    pub process_key: String,
    pub bytes_in: u64,
    pub bytes_out: u64,
}

/// One reported movement of a key's counters: the cumulative readings and
/// the saturating deltas against the previous snapshot.
#[derive(Clone, Debug)]
pub struct NetworkUsageDelta {
    pub process_key: String,
    pub bytes_in: u64,
    pub bytes_out: u64,
    pub delta_in: u64,
    pub delta_out: u64,
}

/// Mathematical reading of a stored entry.
pub open spec fn entry_model(e: NetworkUsageEntry) -> (Seq<char>, u64, u64) {
    (e.process_key@, e.bytes_in, e.bytes_out)
}

/// Mathematical reading of a reported delta.
pub open spec fn delta_model(d: NetworkUsageDelta) -> (Seq<char>, u64, u64, u64, u64) {
    (d.process_key@, d.bytes_in, d.bytes_out, d.delta_in, d.delta_out)
}

/// The tracker: one entry per observed process key, owned by the caller
/// that drives enrichment and alive for the daemon's lifetime.
pub struct NetworkTracker {
    entries: Vec<NetworkUsageEntry>,
}

impl NetworkTracker {
    /// The mapping the tracker holds, as a sequence of key/counter rows.
    pub closed spec fn model(&self) -> Seq<(Seq<char>, u64, u64)> {
        self.entries@.map_values(|e: NetworkUsageEntry| entry_model(e))
    }

    /// Well-formed: no key is stored twice.
    pub open spec fn wf(&self) -> bool {
        unique_keys(self.model())
    }

    /// The stored counters for a key, if it was ever observed.
    pub open spec fn snapshot(&self, key: Seq<char>) -> Option<(u64, u64)> {
        lookup_key(self.model(), key)
    }

    /// An empty tracker: nothing observed yet.
    pub fn new() -> (t: Self)
        ensures
            t.wf(),
            t.model() == Seq::<(Seq<char>, u64, u64)>::empty(),
    {
        let t = NetworkTracker { entries: Vec::new() };
        proof {
            assert(t.model() =~= Seq::<(Seq<char>, u64, u64)>::empty());
        }
        t
    }

    /// Index of the entry stored under `key`, scanning from the front.
    fn find_index(&self, key: &String) -> (r: Option<usize>)
        ensures
            match r {
                Some(j) => j < self.model().len() && self.model()[j as int].0 == key@ && forall|
                    k: int,
                |
                    0 <= k < j ==> self.model()[k].0 != key@,
                None => forall|k: int| 0 <= k < self.model().len() ==> self.model()[k].0 != key@,
            },
    {
        let n = self.entries.len();
        let mut j: usize = 0;
        while j < n
            invariant
                n == self.entries@.len(),
                0 <= j <= n,
                forall|k: int| 0 <= k < j ==> self.model()[k].0 != key@,
            decreases n - j,
        {
            if self.entries[j].process_key == *key {
                return Some(j);
            }
            j = j + 1;
        }
        None
    }

    /// Overwrites or appends the entry for `key`.
    fn upsert(&mut self, key: &String, bytes_in: u64, bytes_out: u64)
        requires
            old(self).wf(),
        ensures
            final(self).wf(),
            final(self).model() == store_key(old(self).model(), key@, bytes_in, bytes_out),
    {
        let entry = NetworkUsageEntry { process_key: key.clone(), bytes_in, bytes_out };
        let ghost m0 = self.model();
        match self.find_index(key) {
            Some(j) => {
                self.entries[j] = entry;
                proof {
                    lemma_store_at(m0, key@, bytes_in, bytes_out, j as int);
                    assert(self.model() =~= m0.update(j as int, (key@, bytes_in, bytes_out)));
                    assert(forall|i: int| 0 <= i < self.model().len() ==> #[trigger] self.model()[i].0
                        == m0[i].0);
                }
            },
            None => {
                self.entries.push(entry);
                proof {
                    lemma_store_new(m0, key@, bytes_in, bytes_out);
                    assert(self.model() =~= m0.push((key@, bytes_in, bytes_out)));
                }
            },
        }
    }

    /// The last observed counters for a key, if it was ever stored.
    pub fn stored(&self, key: &String) -> (r: Option<(u64, u64)>)
        ensures
            r == self.snapshot(key@),
    {
        match self.find_index(key) {
            Some(j) => {
                proof {
                    lemma_lookup_at(self.model(), key@, j as int);
                }
                Some((self.entries[j].bytes_in, self.entries[j].bytes_out))
            },
            None => {
                proof {
                    lemma_lookup_none(self.model(), key@);
                }
                None
            },
        }
    }

    /// One observation: filters the counter table's lines by `target`,
    /// parses the matching rows, reports a delta for each key whose
    /// counters moved, and overwrites the stored entries with the new
    /// readings. Unchanged keys emit nothing and mutate nothing; a table
    /// with no matching line leaves the tracker exactly as it was.
    pub fn observe(&mut self, target: &str, table: &str) -> (deltas: Vec<NetworkUsageDelta>)
        requires
            old(self).wf(),
        ensures
            final(self).wf(),
            deltas@.map_values(|d: NetworkUsageDelta| delta_model(d)) == observe_effect(
                old(self).model(),
                target@,
                lines_of(table@),
            ).0,
            final(self).model() == observe_effect(old(self).model(), target@, lines_of(table@)).1,
    {
        let ghost m0 = self.model();
        let lines = split_lines(table);
        let n = lines.len();
        let mut deltas: Vec<NetworkUsageDelta> = Vec::new();
        proof {
            assert(deltas@.map_values(|d: NetworkUsageDelta| delta_model(d)) =~= Seq::<
                (Seq<char>, u64, u64, u64, u64),
            >::empty());
            assert(lines_of(table@).take(0) =~= Seq::<Seq<char>>::empty());
        }
        let mut li: usize = 0;
        while li < n
            invariant
                old(self).wf(),
                m0 == old(self).model(),
                self.wf(),
                n == lines@.len(),
                lines.deep_view() == lines_of(table@),
                0 <= li <= n,
                deltas@.map_values(|d: NetworkUsageDelta| delta_model(d)) == observe_effect(
                    m0,
                    target@,
                    lines_of(table@).take(li as int),
                ).0,
                self.model() == observe_effect(m0, target@, lines_of(table@).take(li as int)).1,
            decreases n - li,
        {
            let ghost taken = lines_of(table@).take(li as int);
            let ghost cur_model = self.model();
            let ghost line_view = lines_of(table@)[li as int];
            proof {
                assert(lines.deep_view()[li as int] == lines@[li as int]@);
                assert(lines_of(table@).take(li + 1).drop_last() =~= taken);
                assert(lines_of(table@).take(li + 1).last() == line_view);
            }
            let line = &lines[li];
            if contains_ci_str(line.as_str(), target) {
                let toks = split_tokens(line.as_str());
                proof {
                    assert(toks.deep_view().len() == toks@.len());
                }
                if toks.len() >= 3 {
                    proof {
                        assert(toks.deep_view()[0] == toks@[0]@);
                        assert(toks.deep_view()[1] == toks@[1]@);
                        assert(toks.deep_view()[2] == toks@[2]@);
                    }
                    let bytes_in = parse_u64_or_zero(toks[1].as_str());
                    let bytes_out = parse_u64_or_zero(toks[2].as_str());
                    let key = &toks[0];
                    let prev = match self.find_index(key) {
                        Some(j) => {
                            proof {
                                lemma_lookup_at(cur_model, key@, j as int);
                            }
                            (self.entries[j].bytes_in, self.entries[j].bytes_out)
                        },
                        None => {
                            proof {
                                lemma_lookup_none(cur_model, key@);
                            }
                            (0u64, 0u64)
                        },
                    };
                    if bytes_in != prev.0 || bytes_out != prev.1 {
                        let delta_in = saturating_delta(bytes_in, prev.0);
                        let delta_out = saturating_delta(bytes_out, prev.1);
                        let ghost prev_deltas = deltas@.map_values(
                            |d: NetworkUsageDelta| delta_model(d),
                        );
                        deltas.push(
                            NetworkUsageDelta {
                                process_key: key.clone(),
                                bytes_in,
                                bytes_out,
                                delta_in,
                                delta_out,
                            },
                        );
                        self.upsert(key, bytes_in, bytes_out);
                        proof {
                            assert(deltas@.map_values(|d: NetworkUsageDelta| delta_model(d))
                                =~= prev_deltas.push(
                                (key@, bytes_in, bytes_out, delta_in, delta_out),
                            ));
                        }
                    }
                }
            }
            li = li + 1;
        }
        proof {
            assert(lines_of(table@).take(n as int) =~= lines_of(table@));
        }
        deltas
    }
}

} // verus!
