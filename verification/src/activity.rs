//! Daily downloaded-bytes log behind the dashboard's activity heatmap.

use std::collections::HashMap;
use vstd::prelude::*;
use vstd::std_specs::hash::*;
use vstd::std_specs::iter::IteratorSpec;

use crate::calendar::trunc_div;
use crate::text::{i64_from_decimal, i64_to_decimal, spec_parse_i64, dec_i64};

verus! {

broadcast use vstd::std_specs::hash::group_hash_axioms;

/// Number of recorded poll ticks after which the log asks to be persisted.
pub const SAVE_EVERY_TICKS: u32 = 30;

/// Sum of the byte counts of all days in `m`.
pub open spec fn map_total(m: Map<i64, u64>) -> nat
    decreases m.dom().len(),
    when m.dom().finite()
{
    if m.dom().len() == 0 {
        0
    } else {
        let k = m.dom().choose();
        proof {
            lemma_nonempty_choose(m.dom());
        }
        m[k] as nat + map_total(m.remove(k))
    }
}

pub proof fn lemma_nonempty_choose(s: Set<i64>)
    requires
        s.finite(),
        s.len() != 0,
    ensures
        s.contains(s.choose()),
{
    if !s.contains(s.choose()) {
        assert(s =~= Set::empty());
    }
}

/// Taking any one day out of the sum.
pub proof fn lemma_map_total_remove(m: Map<i64, u64>, k: i64)
    requires
        m.dom().finite(),
        m.contains_key(k),
    ensures
        map_total(m) == m[k] as nat + map_total(m.remove(k)),
    decreases m.dom().len(),
{
    lemma_nonempty_choose(m.dom());
    let c = m.dom().choose();
    if c != k {
        lemma_map_total_remove(m.remove(c), k);
        lemma_map_total_remove(m.remove(k), c);
        assert(m.remove(c).remove(k) =~= m.remove(k).remove(c));
    }
}

/// Setting one day's count changes the sum by the difference.
pub proof fn lemma_map_total_insert(m: Map<i64, u64>, k: i64, v: u64)
    requires
        m.dom().finite(),
    ensures
        map_total(m.insert(k, v)) == v as nat + map_total(m) - (if m.contains_key(k) {
            m[k] as int
        } else {
            0int
        }),
{
    let n = m.insert(k, v);
    lemma_map_total_remove(n, k);
    assert(n.remove(k) =~= m.remove(k));
    if m.contains_key(k) {
        lemma_map_total_remove(m, k);
    } else {
        assert(m.remove(k) =~= m);
    }
}

/// Sum of the second components of a sequence of pairs.
pub open spec fn pairs_total(s: Seq<(i64, u64)>) -> nat
    decreases s.len(),
{
    if s.len() == 0 {
        0
    } else {
        pairs_total(s.drop_last()) + s.last().1 as nat
    }
}

pub open spec fn keys_of(s: Seq<(i64, u64)>) -> Seq<i64> {
    s.map_values(|p: (i64, u64)| p.0)
}

/// A listing of the map's entries without repeated days sums to the map's total.
proof fn lemma_pairs_total_listing(s: Seq<(i64, u64)>, m: Map<i64, u64>)
    requires
        m.dom().finite(),
        keys_of(s).no_duplicates(),
        forall|i: int| 0 <= i < s.len() ==> #[trigger] m.contains_key(s[i].0) && m[s[i].0] == s[i].1,
        forall|k: i64| m.contains_key(k) ==> exists|i: int| 0 <= i < s.len() && #[trigger] s[i].0 == k,
    ensures
        pairs_total(s) == map_total(m),
    decreases s.len(),
{
    if s.len() == 0 {
        if m.dom().len() != 0 {
            lemma_nonempty_choose(m.dom());
            let k = m.dom().choose();
            assert(m.contains_key(k));
        }
    } else {
        let p = s.drop_last();
        let (k, v) = s.last();
        let n = m.remove(k);
        assert(keys_of(p) =~= keys_of(s).drop_last());
        assert forall|i: int| 0 <= i < p.len() implies #[trigger] n.contains_key(p[i].0) && n[p[i].0]
            == p[i].1 by {
            assert(keys_of(s)[i] == p[i].0);
            assert(keys_of(s)[s.len() - 1] == k);
        }
        assert forall|j: i64| n.contains_key(j) implies exists|i: int|
            0 <= i < p.len() && #[trigger] p[i].0 == j by {
            let i = choose|i: int| 0 <= i < s.len() && #[trigger] s[i].0 == j;
            assert(p[i].0 == j);
        }
        lemma_pairs_total_listing(p, n);
        lemma_map_total_remove(m, k);
    }
}

/// The pending tick count after a poll that saw `bytes` downloaded: a
/// transfer counts a tick; an idle poll counts one only while ticks are
/// pending (saturating at `u32::MAX`).
pub open spec fn ticks_after(ticks: u32, bytes: u64) -> int {
    if bytes > 0 {
        ticks + 1
    } else if ticks > 0 {
        if ticks == u32::MAX {
            u32::MAX as int
        } else {
            ticks + 1
        }
    } else {
        0
    }
}

/// The pending tick count after one recorded poll: `ticks_after`, cleared
/// when it reaches 30 (the log is then saved).
pub open spec fn tick_step(ticks: u32, bytes: u64) -> u32 {
    if ticks_after(ticks, bytes) >= SAVE_EVERY_TICKS {
        0
    } else {
        ticks_after(ticks, bytes) as u32
    }
}

/// A poll counts towards the next save when it saw a transfer or ticks are
/// already pending.
pub open spec fn tick_counted(ticks: u32, bytes: u64) -> bool {
    bytes > 0 || ticks > 0
}

/// Pending ticks after recording the polls `bs` from `ticks` pending.
pub open spec fn run_ticks(ticks: u32, bs: Seq<u64>) -> u32
    decreases bs.len(),
{
    if bs.len() == 0 {
        ticks
    } else {
        tick_step(run_ticks(ticks, bs.drop_last()), bs.last())
    }
}

/// Saves asked for while recording the polls `bs` from `ticks` pending.
pub open spec fn run_saves(ticks: u32, bs: Seq<u64>) -> nat
    decreases bs.len(),
{
    if bs.len() == 0 {
        0
    } else {
        run_saves(ticks, bs.drop_last()) + if ticks_after(run_ticks(ticks, bs.drop_last()), bs.last())
            >= SAVE_EVERY_TICKS {
            1nat
        } else {
            0nat
        }
    }
}

/// Polls of `bs` that counted towards a save, from `ticks` pending.
pub open spec fn run_counted(ticks: u32, bs: Seq<u64>) -> nat
    decreases bs.len(),
{
    if bs.len() == 0 {
        0
    } else {
        run_counted(ticks, bs.drop_last()) + if tick_counted(run_ticks(ticks, bs.drop_last()), bs.last()) {
            1nat
        } else {
            0nat
        }
    }
}

/// Over any run of recorded polls, each poll that counts (one with a
/// transfer, or any poll once ticks are pending) adds one pending tick, each
/// save clears thirty, and fewer than thirty stay pending: the log is saved
/// at every thirtieth counted poll, and idle polls with nothing pending
/// never count.
pub proof fn lemma_save_cycle(ticks: u32, bs: Seq<u64>)
    requires
        ticks < SAVE_EVERY_TICKS,
    ensures
        run_ticks(ticks, bs) < SAVE_EVERY_TICKS,
        run_ticks(ticks, bs) + SAVE_EVERY_TICKS * run_saves(ticks, bs) == ticks + run_counted(ticks, bs),
    decreases bs.len(),
{
    if bs.len() > 0 {
        lemma_save_cycle(ticks, bs.drop_last());
    }
}

/// With nothing pending, idle polls never count and never ask for a save.
pub proof fn lemma_idle_at_rest(bs: Seq<u64>)
    requires
        forall|i: int| 0 <= i < bs.len() ==> bs[i] == 0,
    ensures
        run_ticks(0, bs) == 0,
        run_saves(0, bs) == 0,
        run_counted(0, bs) == 0,
    decreases bs.len(),
{
    if bs.len() > 0 {
        lemma_idle_at_rest(bs.drop_last());
    }
}

/// Index of the first poll of `bs` that saw a transfer (`bs.len()` when none
/// did).
pub open spec fn first_transfer(bs: Seq<u64>) -> int
    decreases bs.len(),
{
    if bs.len() == 0 {
        0
    } else {
        let p = first_transfer(bs.drop_last());
        if p < bs.len() - 1 {
            p
        } else if bs.last() > 0 {
            bs.len() - 1
        } else {
            bs.len() as int
        }
    }
}

/// From a save (nothing pending), until the next save: the idle polls before
/// the first transfer never count, and every poll from the first transfer
/// on counts, each adding one pending tick.
pub proof fn lemma_counting_starts_at_first_transfer(bs: Seq<u64>)
    requires
        run_saves(0, bs) == 0,
    ensures
        0 <= first_transfer(bs) <= bs.len(),
        run_counted(0, bs) == bs.len() - first_transfer(bs),
        run_ticks(0, bs) == run_counted(0, bs),
    decreases bs.len(),
{
    if bs.len() > 0 {
        let prefix = bs.drop_last();
        assert(run_saves(0, prefix) == 0);
        lemma_counting_starts_at_first_transfer(prefix);
        lemma_save_cycle(0, prefix);
    }
}

/// Daily downloaded-bytes log: day number (days since the Unix epoch) to the
/// bytes downloaded on that day, plus the count of poll ticks not yet saved.
pub struct ActivityLog {
    days: HashMap<i64, u64>,
    dirty_ticks: u32,
}

impl ActivityLog {
    /// Bytes recorded per day.
    pub closed spec fn days(&self) -> Map<i64, u64> {
        self.days@
    }

    /// Poll ticks recorded since the log was last handed out for saving.
    pub closed spec fn pending_ticks(&self) -> u32 {
        self.dirty_ticks
    }

    /// The map is finite and fewer than 30 ticks are pending: every log
    /// keeps this.
    #[verifier::type_invariant]
    pub closed spec fn wf(&self) -> bool {
        self.days@.dom().finite() && self.dirty_ticks < SAVE_EVERY_TICKS
    }

    /// Bytes recorded on `day` in the abstract log (0 when nothing was).
    pub open spec fn bytes_of(&self, day: i64) -> u64 {
        if self.days().contains_key(day) {
            self.days()[day]
        } else {
            0
        }
    }

    /// An empty log.
    pub fn new() -> (log: ActivityLog)
        ensures
            log.wf(),
            log.days() == Map::<i64, u64>::empty(),
            log.pending_ticks() == 0,
    {
        broadcast use vstd::std_specs::hash::group_hash_axioms;
        ActivityLog { days: HashMap::new(), dirty_ticks: 0 }
    }

    /// Builds the log from the persisted `(day, bytes)` entries, whose days
    /// are decimal strings; entries whose day does not parse are skipped and
    /// a later entry for the same day replaces an earlier one.
    pub fn from_entries(entries: Vec<(String, u64)>) -> (log: ActivityLog)
        ensures
            log.wf(),
            log.days() == entries_map(entries@),
            log.days().dom().finite(),
            log.pending_ticks() == 0,
    {
        let mut days: HashMap<i64, u64> = HashMap::new();
        let mut i: usize = 0;
        while i < entries.len()
            invariant
                i <= entries.len(),
                days@ == entries_map(entries@.take(i as int)),
                days@.dom().finite(),
            decreases entries.len() - i,
        {
            let parsed = i64_from_decimal(entries[i].0.as_str());
            proof {
                assert(entries@.take(i + 1).drop_last() =~= entries@.take(i as int));
            }
            match parsed {
                Some(day) => {
                    days.insert(day, entries[i].1);
                },
                None => {},
            }
            i = i + 1;
        }
        assert(entries@.take(entries.len() as int) =~= entries@);
        ActivityLog { days, dirty_ticks: 0 }
    }

    /// The entries to persist: each day as a decimal string with its bytes,
    /// every recorded day exactly once.
    pub fn to_entries(&self) -> (entries: Vec<(String, u64)>)
        ensures
            self.wf(),
            exists|keys: Seq<i64>| lists_days(keys, self.days(), entries@),
    {
        proof {
            use_type_invariant(self);
        }
        let ghost v = spec_hash_map_iter(&self.days).remaining();
        let ghost keys = v.map_values(|p: (&i64, &u64)| *p.0);
        proof {
            lemma_iter_keys(&self.days);
        }
        let mut out: Vec<(String, u64)> = Vec::new();
        for pair in it: self.days.iter()
            invariant
                it.seq() == v,
                keys == v.map_values(|p: (&i64, &u64)| *p.0),
                out@.len() == it.index(),
                forall|i: int|
                    #![trigger out@[i]]
                    0 <= i < it.index() ==> out@[i].0@ == dec_i64(*v[i].0) && out@[i].1 == *v[i].1,
        {
            let (k, b) = pair;
            let text = i64_to_decimal(*k);
            out.push((text, *b));

        }
        proof {
            assert forall|i: int| 0 <= i < out@.len() implies #[trigger] out@[i].0@ == dec_i64(keys[i])
                && out@[i].1 == self.days()[keys[i]] by {
                assert(self.days@.contains_key(*v[i].0));
                assert(keys[i] == *v[i].0);
            }
            assert(lists_days(keys, self.days(), out@));
        }
        out
    }

    /// Records `bytes` downloaded on `day` since the last poll tick. Returns
    /// true when the log should now be persisted (every 30th tick counted from
    /// the first transfer after the last save).
    pub fn record_on(&mut self, day: i64, bytes: u64) -> (save_now: bool)
        requires
            bytes > 0 ==> old(self).bytes_of(day) + bytes <= u64::MAX,
        ensures
            final(self).wf(),
            final(self).days() == add_bytes(old(self).days(), day, bytes),
            save_now == (ticks_after(old(self).pending_ticks(), bytes) >= SAVE_EVERY_TICKS),
            final(self).pending_ticks() == if save_now {
                0
            } else {
                ticks_after(old(self).pending_ticks(), bytes)
            },
            final(self).pending_ticks() == tick_step(old(self).pending_ticks(), bytes),
            final(self).days().dom().finite(),
            map_total(final(self).days()) == map_total(old(self).days()) + bytes,
    {
        proof {
            use_type_invariant(&*self);
            lemma_add_bytes_total(self.days(), day, bytes);
        }
        let ticks: u32 = if bytes > 0 {
            let mut days: HashMap<i64, u64> = HashMap::new();
            std::mem::swap(&mut days, &mut self.days);
            let current = match days.get(&day) {
                Some(b) => *b,
                None => 0,
            };
            days.insert(day, current + bytes);
            self.days = days;
            self.dirty_ticks + 1
        } else {
            let step: u32 = if self.dirty_ticks > 0 {
                1
            } else {
                0
            };
            self.dirty_ticks.saturating_add(step)
        };
        if ticks >= SAVE_EVERY_TICKS {
            self.dirty_ticks = 0;
            true
        } else {
            self.dirty_ticks = ticks;
            false
        }
    }

    /// Records `bytes` downloaded today (the local day given by the clock and
    /// `utc_offset_secs`); returns true when the log should be persisted.
    /// Since the clock may show any instant, no day that it can yield may
    /// overflow.
    pub fn record(&mut self, bytes: u64, utc_offset_secs: i64) -> (save_now: bool)
        requires
            forall|secs: i64|
                bytes > 0 ==> old(self).bytes_of(#[trigger] day_number(secs, utc_offset_secs)) + bytes
                    <= u64::MAX,
        ensures
            final(self).wf(),
            exists|secs: i64|
                final(self).days() == add_bytes(
                    old(self).days(),
                    #[trigger] day_number(secs, utc_offset_secs),
                    bytes,
                ),
            save_now == (ticks_after(old(self).pending_ticks(), bytes) >= SAVE_EVERY_TICKS),
            final(self).pending_ticks() == if save_now {
                0
            } else {
                ticks_after(old(self).pending_ticks(), bytes)
            },
            final(self).days().dom().finite(),
            map_total(final(self).days()) == map_total(old(self).days()) + bytes,
    {
        let day = today(utc_offset_secs);
        self.record_on(day, bytes)
    }

    /// Bytes recorded on `day` (0 when nothing was).
    pub fn bytes_on(&self, day: i64) -> (b: u64)
        ensures
            b == self.bytes_of(day),
    {
        match self.days.get(&day) {
            Some(b) => *b,
            None => 0,
        }
    }

    /// Bytes recorded today (the local day given by the clock and
    /// `utc_offset_secs`).
    pub fn today_bytes(&self, utc_offset_secs: i64) -> (b: u64)
        ensures
            exists|secs: i64| b == self.bytes_of(day_number(secs, utc_offset_secs)),
    {
        self.bytes_on(today(utc_offset_secs))
    }

    /// Bytes recorded over all days.
    pub fn total_bytes(&self) -> (total: u64)
        requires
            map_total(self.days()) <= u64::MAX,
        ensures
            total == map_total(self.days()),
    {
        proof {
            use_type_invariant(self);
        }
        let ghost v = spec_hash_map_iter(&self.days).remaining();
        let ghost pairs = v.map_values(|p: (&i64, &u64)| (*p.0, *p.1));
        proof {
            lemma_iter_keys(&self.days);
            let keys = v.map_values(|p: (&i64, &u64)| *p.0);
            assert(keys_of(pairs) =~= keys);
            assert forall|i: int| 0 <= i < pairs.len() implies #[trigger] self.days@.contains_key(pairs[i].0)
                && self.days@[pairs[i].0] == pairs[i].1 by {
                assert(self.days@.contains_key(*v[i].0));
            }
            assert forall|k: i64| self.days@.contains_key(k) implies exists|i: int|
                0 <= i < pairs.len() && #[trigger] pairs[i].0 == k by {
                assert(keys.to_set().contains(k));
                let i = choose|i: int| 0 <= i < keys.len() && keys[i] == k;
                assert(pairs[i].0 == k);
            }
            lemma_pairs_total_listing(pairs, self.days@);
        }
        let mut total: u64 = 0;
        for pair in it: self.days.iter()
            invariant
                it.seq() == v,
                pairs == v.map_values(|p: (&i64, &u64)| (*p.0, *p.1)),
                pairs_total(pairs) <= u64::MAX,
                total == pairs_total(pairs.take(it.index() as int)),
        {
            proof {
                lemma_pairs_total_prefix(pairs, it.index() as int);
            }
            let (_, b) = pair;
            total = total + *b;
        }
        proof {
            assert(pairs.take(pairs.len() as int) =~= pairs);
        }
        total
    }
}

proof fn lemma_pairs_total_prefix(s: Seq<(i64, u64)>, i: int)
    requires
        0 <= i < s.len(),
    ensures
        pairs_total(s.take(i + 1)) == pairs_total(s.take(i)) + s[i].1,
        pairs_total(s.take(i + 1)) <= pairs_total(s),
    decreases s.len(),
{
    assert(s.take(i + 1).drop_last() =~= s.take(i));
    if i + 1 < s.len() {
        lemma_pairs_total_prefix(s.drop_last(), i);
        assert(s.drop_last().take(i + 1) =~= s.take(i + 1));
    } else {
        assert(s.take(i + 1) =~= s);
    }
}

/// `m` with `bytes` more recorded on `day` (unchanged when `bytes` is 0).
pub open spec fn add_bytes(m: Map<i64, u64>, day: i64, bytes: u64) -> Map<i64, u64> {
    if bytes > 0 {
        let before: int = if m.contains_key(day) {
            m[day] as int
        } else {
            0
        };
        m.insert(day, (before + bytes) as u64)
    } else {
        m
    }
}

/// `entries` lists each day of `m` once, in the order `keys`, with the day
/// as a decimal string and its byte count.
pub open spec fn lists_days(keys: Seq<i64>, m: Map<i64, u64>, entries: Seq<(String, u64)>) -> bool {
    &&& keys.len() == entries.len()
    &&& keys.no_duplicates()
    &&& keys.to_set() == m.dom()
    &&& forall|i: int|
        #![trigger entries[i]]
        0 <= i < entries.len() ==> entries[i].0@ == dec_i64(keys[i]) && entries[i].1 == m[keys[i]]
}

/// One entry of a listing of `m`.
proof fn lemma_lists_days_at(keys: Seq<i64>, m: Map<i64, u64>, entries: Seq<(String, u64)>, i: int)
    requires
        lists_days(keys, m, entries),
        0 <= i < entries.len(),
    ensures
        entries[i].0@ == dec_i64(keys[i]),
        entries[i].1 == m[keys[i]],
{
}

/// The first `n` entries of a listing of `m` give back `m` on their days.
#[verifier::spinoff_prover]
proof fn lemma_entries_prefix(keys: Seq<i64>, m: Map<i64, u64>, entries: Seq<(String, u64)>, n: int)
    requires
        lists_days(keys, m, entries),
        0 <= n <= entries.len(),
    ensures
        entries_map(entries.take(n)) == m.restrict(keys.take(n).to_set()),
    decreases n,
{
    if n == 0 {
        assert(entries_map(entries.take(0)) =~= Map::<i64, u64>::empty());
        assert(m.restrict(keys.take(0).to_set()) =~= Map::<i64, u64>::empty());
    } else {
        lemma_entries_prefix(keys, m, entries, n - 1);
        let k = keys[n - 1];
        assert(entries.take(n).drop_last() =~= entries.take(n - 1));
        assert(entries.take(n).last() == entries[n - 1]);
        let i = n - 1;
        lemma_lists_days_at(keys, m, entries, i);
        crate::text::lemma_parse_dec_i64(k);
        assert(keys.contains(k)) by {
            assert(keys[n - 1] == k);
        }
        assert(keys.to_set().contains(k));
        assert(m.dom().contains(k));
        assert(keys.take(n).to_set() =~= keys.take(n - 1).to_set().insert(k)) by {
            assert forall|x: i64| keys.take(n).to_set().contains(x) implies keys.take(n - 1).to_set().insert(
                k,
            ).contains(x) by {
                let i = choose|i: int| 0 <= i < keys.take(n).len() && #[trigger] keys.take(n)[i] == x;
                if i < n - 1 {
                    assert(keys.take(n - 1)[i] == x);
                }
            }
            assert forall|x: i64| keys.take(n - 1).to_set().insert(k).contains(x) implies keys.take(
                n,
            ).to_set().contains(x) by {
                if x == k {
                    assert(keys.take(n)[n - 1] == x);
                } else {
                    let i = choose|i: int| 0 <= i < keys.take(n - 1).len() && #[trigger] keys.take(n - 1)[i] == x;
                    assert(keys.take(n)[i] == x);
                }
            }
        }
        assert(m.restrict(keys.take(n).to_set()) =~= m.restrict(keys.take(n - 1).to_set()).insert(k, m[k]));
    }
}

/// Saving the log and loading it back gives the same log: reading back a
/// listing of every day of `m` (as `to_entries` writes it) rebuilds `m`.
pub proof fn lemma_entries_round_trip(keys: Seq<i64>, m: Map<i64, u64>, entries: Seq<(String, u64)>)
    requires
        lists_days(keys, m, entries),
    ensures
        entries_map(entries) == m,
{
    lemma_entries_prefix(keys, m, entries, entries.len() as int);
    assert(entries.take(entries.len() as int) =~= entries);
    assert(keys.take(keys.len() as int) =~= keys);
    assert(m.restrict(m.dom()) =~= m);
}

/// The total of a log is at least the bytes of each of its days, and 0 for
/// a log with no day.
pub proof fn lemma_total_bounds_days(log: ActivityLog, day: i64)
    requires
        log.wf(),
    ensures
        log.bytes_of(day) <= map_total(log.days()),
        log.days().dom().len() == 0 ==> map_total(log.days()) == 0,
{
    if log.days().contains_key(day) {
        lemma_map_total_remove(log.days(), day);
    }
}

/// Recording `bytes` on a day adds exactly `bytes` to the total and to that
/// day, and leaves every other day as it was.
pub proof fn lemma_add_bytes_total(m: Map<i64, u64>, day: i64, bytes: u64)
    requires
        m.dom().finite(),
        bytes > 0 ==> (if m.contains_key(day) {
            m[day] as int
        } else {
            0
        }) + bytes <= u64::MAX,
    ensures
        add_bytes(m, day, bytes).dom().finite(),
        map_total(add_bytes(m, day, bytes)) == map_total(m) + bytes,
        add_bytes(m, day, bytes).contains_key(day) ==> add_bytes(m, day, bytes)[day] == (if m.contains_key(day) {
            m[day] as int
        } else {
            0
        }) + bytes,
        bytes > 0 ==> add_bytes(m, day, bytes).contains_key(day),
        forall|d: i64|
            d != day ==> (#[trigger] add_bytes(m, day, bytes).contains_key(d) == m.contains_key(d) && (
            m.contains_key(d) ==> add_bytes(m, day, bytes)[d] == m[d])),
{
    if bytes > 0 {
        let before: int = if m.contains_key(day) {
            m[day] as int
        } else {
            0
        };
        lemma_map_total_insert(m, day, (before + bytes) as u64);
    }
}

/// The keys in the order `HashMap::iter` yields them: each key of the map
/// exactly once.
proof fn lemma_iter_keys(m: &HashMap<i64, u64>)
    requires
        m@.dom().finite(),
    ensures
        ({
            let v = spec_hash_map_iter(m).remaining();
            let keys = v.map_values(|p: (&i64, &u64)| *p.0);
            &&& keys.no_duplicates()
            &&& keys.to_set() == m@.dom()
            &&& forall|i: int| 0 <= i < v.len() ==> #[trigger] m@.contains_key(*v[i].0) && m@[*v[i].0] == *v[i].1
        }),
{
    let v = spec_hash_map_iter(m).remaining();
    let keys = v.map_values(|p: (&i64, &u64)| *p.0);
    assert forall|i: int| 0 <= i < v.len() implies #[trigger] m@.contains_key(*v[i].0) && m@[*v[i].0] == *v[i].1 by {
        assert(m@.contains_key(*v[i].0));
    }
    assert forall|k: i64| keys.to_set().contains(k) implies m@.dom().contains(k) by {
        let i = choose|i: int| 0 <= i < keys.len() && keys[i] == k;
        assert(m@.contains_key(*v[i].0));
    }
    assert forall|k: i64| m@.dom().contains(k) implies keys.to_set().contains(k) by {
        assert(v.contains((&k, &m@[k])));
        let i = choose|i: int| 0 <= i < v.len() && v[i] == (&k, &m@[k]);
        assert(keys[i] == k);
    }
    assert(keys.to_set() =~= m@.dom());
    keys.lemma_no_dup_set_cardinality();
}

/// The map that results from inserting, in order, each entry whose day
/// parses as a decimal `i64`.
pub open spec fn entries_map(entries: Seq<(String, u64)>) -> Map<i64, u64>
    decreases entries.len(),
{
    if entries.len() == 0 {
        Map::empty()
    } else {
        let prev = entries_map(entries.drop_last());
        match spec_parse_i64(entries.last().0@) {
            Some(day) => prev.insert(day, entries.last().1),
            None => prev,
        }
    }
}

/// The local day number of the instant `secs` (seconds since the Unix epoch)
/// in a time zone `utc_offset_secs` east of UTC.
pub open spec fn day_number(secs: i64, utc_offset_secs: i64) -> i64 {
    trunc_div(vstd::wrapping::i64_specs::wrapping_add(secs, utc_offset_secs) as int, 86400) as i64
}

/// The local day of an instant is the number of whole days from the epoch
/// to it: day `d` holds the local times `d*86400 ..< (d+1)*86400` (for an
/// instant at or after the epoch in local time).
pub proof fn lemma_day_number_bounds(secs: i64, utc_offset_secs: i64)
    requires
        0 <= secs + utc_offset_secs <= i64::MAX,
    ensures
        day_number(secs, utc_offset_secs) * 86400 <= secs + utc_offset_secs < (day_number(
            secs,
            utc_offset_secs,
        ) + 1) * 86400,
{
    let t: int = secs + utc_offset_secs;
    assert(vstd::wrapping::i64_specs::wrapping_add(secs, utc_offset_secs) == t);
    let d = t / 86400;
    assert(d * 86400 <= t < (d + 1) * 86400) by (nonlinear_arith)
        requires
            t >= 0,
            d == t / 86400,
    ;
}

/// Seconds since the Unix epoch read from the system clock (0 when the
/// clock is before the epoch).
#[verifier::external_body]
pub(crate) fn unix_time_secs() -> u64 {
    std::time::SystemTime::now().duration_since(std::time::UNIX_EPOCH).map(|d| d.as_secs()).unwrap_or(0)
}

/// Today's local day number: the clock's seconds since the epoch, shifted by
/// `utc_offset_secs`, divided into days.
pub fn today(utc_offset_secs: i64) -> (day: i64)
    ensures
        exists|secs: i64| day == day_number(secs, utc_offset_secs),
{
    let secs = unix_time_secs() as i64;
    local_day(secs, utc_offset_secs)
}

/// The local day number of `secs` seconds after the epoch in a time zone
/// `utc_offset_secs` east of UTC.
pub fn local_day(secs: i64, utc_offset_secs: i64) -> (day: i64)
    ensures
        day == day_number(secs, utc_offset_secs),
{
    secs.wrapping_add(utc_offset_secs) / 86400
}

pub open spec fn is_ascii_char(c: char) -> bool {
    (c as u32) < 128
}

/// Number of bytes of `c` in UTF-8.
pub open spec fn utf8_len(c: char) -> nat {
    let u = c as u32;
    if u < 0x80 {
        1
    } else if u < 0x800 {
        2
    } else if u < 0x10000 {
        3
    } else {
        4
    }
}

/// Number of bytes of `s` in UTF-8.
pub open spec fn utf8_total(s: Seq<char>) -> nat
    decreases s.len(),
{
    if s.len() == 0 {
        0
    } else {
        utf8_total(s.drop_last()) + utf8_len(s.last())
    }
}

/// The offset text `t` is cut at bytes 1 and 3 (and, once the hours have
/// parsed, at bytes 3 and 5) inside a char: slicing it there is not possible.
pub open spec fn offset_cut_inside_char(t: Seq<char>) -> bool {
    &&& utf8_total(t) >= 5
    &&& {
        ||| !is_ascii_char(t[0])
        ||| utf8_len(t[1]) >= 3
        ||| is_ascii_char(t[1]) && !is_ascii_char(t[2])
        ||| is_ascii_char(t[1]) && is_ascii_char(t[2]) && spec_parse_i64(t.subrange(1, 3)) is Some && (
        utf8_len(t[3]) >= 3 || (is_ascii_char(t[3]) && !is_ascii_char(t[4])))
    }
}

/// The offset east of UTC, in seconds, that `date +%z` prints ("+0530",
/// "-0800"): the trimmed output's sign, then two digits of hours and two of
/// minutes. `None` when the output is shorter or the fields do not parse
/// (which is always the case when one of its first five chars is not ASCII).
pub open spec fn utc_offset_of(output: Seq<char>) -> Option<i64> {
    let t = crate::text::trimmed(output);
    if t.len() >= 5 && forall|i: int| 0 <= i < 5 ==> is_ascii_char(#[trigger] t[i]) {
        let sign: int = if t[0] == '-' {
            -1
        } else {
            1
        };
        match (spec_parse_i64(t.subrange(1, 3)), spec_parse_i64(t.subrange(3, 5))) {
            (Some(h), Some(m)) => Some((sign * (h * 3600 + m * 60)) as i64),
            _ => None,
        }
    } else {
        None
    }
}

/// Parses the output of `date +%z` (see `utc_offset_of`). The fields are cut
/// out of the text by byte position, so a text cut inside a char is left out.
pub fn parse_utc_offset(output: &str) -> (r: Option<i64>)
    requires
        !offset_cut_inside_char(crate::text::trimmed(output@)),
    ensures
        r == utc_offset_of(output@),
{
    let t = crate::text::trim(output);
    let chars = crate::text::chars_of(t.as_str());
    if chars.len() >= 5 && (chars[0] as u32) < 128 && (chars[1] as u32) < 128 && (chars[2] as u32) < 128
        && (chars[3] as u32) < 128 && (chars[4] as u32) < 128 {
        proof {
            assert forall|i: int| 0 <= i < 5 implies is_ascii_char(#[trigger] chars@[i]) by {
                if i == 0 {
                } else if i == 1 {
                } else if i == 2 {
                } else if i == 3 {
                } else {
                }
            }
        }
        let sign: i64 = if chars[0] == '-' {
            -1
        } else {
            1
        };
        let hours = i64_from_decimal(crate::text::string_from_chars(&chars, 1, 3).as_str());
        let mins = i64_from_decimal(crate::text::string_from_chars(&chars, 3, 5).as_str());
        match (hours, mins) {
            (Some(h), Some(m)) => {
                proof {
                    lemma_two_digit_bound(chars@.subrange(1, 3));
                    lemma_two_digit_bound(chars@.subrange(3, 5));
                    assert(-100 < h < 100 && -100 < m < 100);
                    assert(-360000 < h * 3600 < 360000) by (nonlinear_arith)
                        requires
                            -100 < h < 100,
                    ;
                    assert(-6000 < m * 60 < 6000) by (nonlinear_arith)
                        requires
                            -100 < m < 100,
                    ;
                    let x = h * 3600 + m * 60;
                    assert(-400000 < sign * x < 400000) by (nonlinear_arith)
                        requires
                            sign == 1 || sign == -1,
                            -400000 < x < 400000,
                    ;
                }
                Some(sign * (h * 3600 + m * 60))
            },
            _ => None,
        }
    } else {
        proof {
            if chars@.len() >= 5 {
                let k: int = if !is_ascii_char(chars@[0]) {
                    0
                } else if !is_ascii_char(chars@[1]) {
                    1
                } else if !is_ascii_char(chars@[2]) {
                    2
                } else if !is_ascii_char(chars@[3]) {
                    3
                } else {
                    4
                };
                assert(!is_ascii_char(chars@[k]));
            }
        }
        None
    }
}

/// A two-char field parses to a value below 100 in size.
proof fn lemma_two_digit_bound(s: Seq<char>)
    requires
        s.len() == 2,
    ensures
        spec_parse_i64(s) matches Some(v) ==> -100 < v < 100,
{
    reveal_with_fuel(crate::text::digits_value, 3);
    if s[0] == '+' || s[0] == '-' {
        assert(s.drop_first().drop_last() =~= Seq::<char>::empty());
    } else {
        assert(s.drop_last().drop_last() =~= Seq::<char>::empty());
    }
}


// ---- JSON persistence ----

/// The string-keyed map of byte counts that the JSON text `text` holds, as
/// `serde_json` reads it into a `HashMap<String, u64>` (`None` when the text
/// is not such an object).
pub uninterp spec fn activity_json(text: Seq<char>) -> Option<Map<Seq<char>, u64>>;

/// The map of the pairs `v`, a later pair replacing an earlier one.
pub open spec fn pairs_map(v: Seq<(String, u64)>) -> Map<Seq<char>, u64>
    decreases v.len(),
{
    if v.len() == 0 {
        Map::empty()
    } else {
        pairs_map(v.drop_last()).insert(v.last().0@, v.last().1)
    }
}

/// No key occurs twice among the pairs `v`.
pub open spec fn distinct_keys(v: Seq<(String, u64)>) -> bool {
    forall|i: int, j: int| 0 <= i < j < v.len() ==> v[i].0@ != v[j].0@
}

/// Every key of `m` that reads as a day number is that day's decimal form.
pub open spec fn canonical_days(m: Map<Seq<char>, u64>) -> bool {
    forall|k: Seq<char>|
        #[trigger] m.contains_key(k) ==> match spec_parse_i64(k) {
            Some(d) => dec_i64(d) == k,
            None => true,
        }
}

/// The days of a string-keyed map whose day keys are in decimal form.
pub open spec fn json_days(m: Map<Seq<char>, u64>) -> Map<i64, u64> {
    Map::new(|d: i64| m.contains_key(dec_i64(d)), |d: i64| m[dec_i64(d)])
}

/// The string-keyed map of `days`: each day's decimal form to its bytes.
pub open spec fn days_json(days: Map<i64, u64>) -> Map<Seq<char>, u64> {
    Map::new(
        |k: Seq<char>|
            spec_parse_i64(k) is Some && dec_i64(spec_parse_i64(k).unwrap()) == k && days.contains_key(
                spec_parse_i64(k).unwrap(),
            ),
        |k: Seq<char>| days[spec_parse_i64(k).unwrap()],
    )
}

/// `serde_json::from_str::<HashMap<String, u64>>` of `text`, the map handed
/// out as its pairs: `Some` exactly when the text is a JSON object whose
/// values are all `u64`s, its pairs then having distinct keys and listing
/// the map `activity_json` names. The order of the pairs (the map's
/// iteration order) is left unsaid.
#[verifier::external_body]
fn parse_activity_json(text: &str) -> (r: Option<Vec<(String, u64)>>)
    ensures
        r is Some <==> activity_json(text@) is Some,
        match r {
            Some(v) => distinct_keys(v@) && pairs_map(v@) == activity_json(text@).unwrap(),
            None => true,
        },
{
    serde_json::from_str::<HashMap<String, u64>>(text).ok().map(|m| m.into_iter().collect())
}

/// `serde_json::to_string` of the pairs gathered in a `HashMap<String, u64>`:
/// when the keys are distinct, the text read back by `serde_json` is that
/// map. The text itself (its key order follows the map's iteration order)
/// is left unsaid, and so is whether serialization succeeds.
#[verifier::external_body]
fn activity_json_text(entries: Vec<(String, u64)>) -> (r: Option<String>)
    ensures
        match r {
            Some(t) => distinct_keys(entries@) ==> activity_json(t@) == Some(pairs_map(entries@)),
            None => true,
        },
{
    serde_json::to_string(&entries.into_iter().collect::<HashMap<String, u64>>()).ok()
}

/// With distinct keys, each pair's key maps to its value, and every key of
/// the map is a pair's key.
proof fn lemma_pairs_map_distinct(v: Seq<(String, u64)>)
    requires
        distinct_keys(v),
    ensures
        forall|i: int|
            0 <= i < v.len() ==> #[trigger] pairs_map(v).contains_key(v[i].0@) && pairs_map(v)[v[i].0@]
                == v[i].1,
        forall|k: Seq<char>|
            #[trigger] pairs_map(v).contains_key(k) ==> exists|i: int| 0 <= i < v.len() && v[i].0@ == k,
    decreases v.len(),
{
    if v.len() > 0 {
        let p = v.drop_last();
        assert(distinct_keys(p)) by {
            assert forall|i: int, j: int| 0 <= i < j < p.len() implies p[i].0@ != p[j].0@ by {
                assert(p[i] == v[i] && p[j] == v[j]);
            }
        }
        lemma_pairs_map_distinct(p);
        let n = v.len() - 1;
        assert forall|i: int| 0 <= i < v.len() implies #[trigger] pairs_map(v).contains_key(v[i].0@)
            && pairs_map(v)[v[i].0@] == v[i].1 by {
            assert(v.last() == v[n]);
            assert(pairs_map(v) == pairs_map(p).insert(v[n].0@, v[n].1));
            if i < n {
                assert(p[i] == v[i]);
                assert(pairs_map(p).contains_key(p[i].0@));
                assert(v[i].0@ != v[n].0@);
            }
        }
        assert forall|k: Seq<char>| #[trigger] pairs_map(v).contains_key(k) implies exists|i: int|
            0 <= i < v.len() && v[i].0@ == k by {
            if k != v[n].0@ {
                assert(pairs_map(p).contains_key(k));
                let i = choose|i: int| 0 <= i < p.len() && p[i].0@ == k;
                assert(v[i] == p[i]);
            }
        }
    }
}

/// Reading pairs with distinct keys, each in the decimal form of its day
/// when it reads as one, gives the days of their map.
proof fn lemma_entries_map_canonical(v: Seq<(String, u64)>)
    requires
        distinct_keys(v),
        forall|i: int|
            0 <= i < v.len() ==> match spec_parse_i64(#[trigger] v[i].0@) {
                Some(d) => dec_i64(d) == v[i].0@,
                None => true,
            },
    ensures
        entries_map(v) == json_days(pairs_map(v)),
    decreases v.len(),
{
    if v.len() == 0 {
        assert(json_days(pairs_map(v)) =~= Map::<i64, u64>::empty());
    } else {
        let p = v.drop_last();
        let n = v.len() - 1;
        assert(distinct_keys(p)) by {
            assert forall|i: int, j: int| 0 <= i < j < p.len() implies p[i].0@ != p[j].0@ by {
                assert(p[i] == v[i] && p[j] == v[j]);
            }
        }
        assert forall|i: int| 0 <= i < p.len() implies match spec_parse_i64(#[trigger] p[i].0@) {
            Some(d) => dec_i64(d) == p[i].0@,
            None => true,
        } by {
            assert(p[i] == v[i]);
        }
        lemma_entries_map_canonical(p);
        let k = v[n].0@;
        let m = pairs_map(p);
        assert(v.last() == v[n]);
        match spec_parse_i64(k) {
            Some(d) => {
                assert(dec_i64(d) == k);
                assert forall|e: i64| #[trigger] json_days(m.insert(k, v[n].1)).contains_key(e) <==> json_days(
                    m,
                ).insert(d, v[n].1).contains_key(e) by {
                    crate::text::lemma_parse_dec_i64(e);
                }
                assert forall|e: i64| #[trigger] json_days(m.insert(k, v[n].1)).contains_key(e) implies json_days(
                    m.insert(k, v[n].1),
                )[e] == json_days(m).insert(d, v[n].1)[e] by {
                    crate::text::lemma_parse_dec_i64(e);
                }
                assert(json_days(m.insert(k, v[n].1)) =~= json_days(m).insert(d, v[n].1));
            },
            None => {
                assert forall|e: i64| #[trigger] json_days(m.insert(k, v[n].1)).contains_key(e) <==> json_days(
                    m,
                ).contains_key(e) by {
                    crate::text::lemma_parse_dec_i64(e);
                }
                assert forall|e: i64| #[trigger] json_days(m.insert(k, v[n].1)).contains_key(e) implies json_days(
                    m.insert(k, v[n].1),
                )[e] == json_days(m)[e] by {
                    crate::text::lemma_parse_dec_i64(e);
                }
                assert(json_days(m.insert(k, v[n].1)) =~= json_days(m));
            },
        }
    }
}

/// Saving a log and loading the saved text back gives the same days: the
/// map that is written has every key in decimal form, and reading its keys
/// as day numbers rebuilds the days.
pub proof fn lemma_save_load(days: Map<i64, u64>)
    ensures
        canonical_days(days_json(days)),
        json_days(days_json(days)) == days,
{
    assert forall|d: i64| #[trigger] json_days(days_json(days)).contains_key(d) <==> days.contains_key(d) by {
        crate::text::lemma_parse_dec_i64(d);
    }
    assert forall|d: i64| #[trigger] json_days(days_json(days)).contains_key(d) implies json_days(
        days_json(days),
    )[d] == days[d] by {
        crate::text::lemma_parse_dec_i64(d);
    }
    assert(json_days(days_json(days)) =~= days);
}

impl ActivityLog {
    /// Builds the log from the saved JSON text, if any: an object mapping
    /// decimal day numbers to bytes. With no text, or a text that is not such
    /// an object, the log is empty; keys that are not day numbers are
    /// skipped.
    pub fn load(text: Option<String>) -> (log: ActivityLog)
        ensures
            log.pending_ticks() == 0,
            log.days().dom().finite(),
            match text {
                Some(t) => match activity_json(t@) {
                    Some(m) => (exists|v: Seq<(String, u64)>|
                        distinct_keys(v) && pairs_map(v) == m && log.days() == #[trigger] entries_map(v))
                        && (canonical_days(m) ==> log.days() == json_days(m)),
                    None => log.days() == Map::<i64, u64>::empty(),
                },
                None => log.days() == Map::<i64, u64>::empty(),
            },
    {
        let parsed = match &text {
            Some(t) => parse_activity_json(t.as_str()),
            None => None,
        };
        match parsed {
            Some(v) => {
                let ghost pairs = v@;
                let log = ActivityLog::from_entries(v);
                proof {
                    assert(entries_map(pairs) == log.days());
                    let m = pairs_map(pairs);
                    if canonical_days(m) {
                        lemma_pairs_map_distinct(pairs);
                        assert forall|i: int| 0 <= i < pairs.len() implies match spec_parse_i64(
                            #[trigger] pairs[i].0@,
                        ) {
                            Some(d) => dec_i64(d) == pairs[i].0@,
                            None => true,
                        } by {
                            assert(m.contains_key(pairs[i].0@));
                        }
                        lemma_entries_map_canonical(pairs);
                    }
                }
                log
            },
            None => {
                let log = ActivityLog::from_entries(Vec::new());
                proof {
                    assert(entries_map(Seq::<(String, u64)>::empty()) =~= Map::<i64, u64>::empty());
                }
                log
            },
        }
    }

    /// The JSON text to save: an object mapping each day's decimal form to
    /// its bytes (`None` when it cannot be written).
    pub fn save(&self) -> (text: Option<String>)
        ensures
            match text {
                Some(t) => activity_json(t@) == Some(days_json(self.days())),
                None => true,
            },
    {
        let entries = self.to_entries();
        let ghost e = entries@;
        proof {
            let keys = choose|keys: Seq<i64>| lists_days(keys, self.days(), e);
            let days = self.days();
            assert forall|i: int, j: int| 0 <= i < j < e.len() implies e[i].0@ != e[j].0@ by {
                lemma_lists_days_at(keys, days, e, i);
                lemma_lists_days_at(keys, days, e, j);
                crate::text::lemma_parse_dec_i64(keys[i]);
                crate::text::lemma_parse_dec_i64(keys[j]);
            }
            lemma_pairs_map_distinct(e);
            let pm = pairs_map(e);
            assert forall|k: Seq<char>| #[trigger] pm.contains_key(k) <==> days_json(days).contains_key(k) by {
                if pm.contains_key(k) {
                    let i = choose|i: int| 0 <= i < e.len() && e[i].0@ == k;
                    lemma_lists_days_at(keys, days, e, i);
                    crate::text::lemma_parse_dec_i64(keys[i]);
                    assert(keys.to_set().contains(keys[i]));
                }
                if days_json(days).contains_key(k) {
                    let d = spec_parse_i64(k).unwrap();
                    assert(keys.to_set().contains(d));
                    let i = choose|i: int| 0 <= i < keys.len() && keys[i] == d;
                    lemma_lists_days_at(keys, days, e, i);
                    assert(pm.contains_key(e[i].0@));
                }
            }
            assert forall|k: Seq<char>| #[trigger] pm.contains_key(k) implies pm[k] == days_json(days)[k] by {
                let i = choose|i: int| 0 <= i < e.len() && e[i].0@ == k;
                lemma_lists_days_at(keys, days, e, i);
                crate::text::lemma_parse_dec_i64(keys[i]);
            }
            assert(pm =~= days_json(days));
        }
        activity_json_text(entries)
    }
}

} // verus!
