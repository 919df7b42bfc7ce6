//! Per-message-type frequency bookkeeping: maps a type name to the instant
//! it was last observed and derives an instantaneous rate from the elapsed
//! interval between consecutive observations of the same type.
use vstd::prelude::*;
use vstd::string::StringExecFns;

verus! {

/// Timestamp granularity: observation instants are counted in microseconds.
pub const MICROS_PER_SEC: u64 = 1000000;

/// An instantaneous message rate, as the exact rational `num / den` hertz.
/// `den` is never zero, so the rate is always a finite number; a zero
/// elapsed interval saturates to the exact rate zero.
#[derive(PartialEq, Eq, Structural, Clone, Copy, Debug)]
pub struct RateHz {
    pub num: u64,
    pub den: u64,
}

impl RateHz {
    /// The saturation value reported when two observations of one type
    /// share the same instant.
    pub open spec fn zero() -> RateHz {
        RateHz { num: 0, den: 1 }
    }

    /// A rate is well formed when its denominator is positive.
    pub open spec fn wf(self) -> bool {
        self.den > 0
    }
}

/// The rate derived from an elapsed interval in microseconds: `1 / interval`
/// hertz for a positive interval, and exactly zero for a zero interval
/// (a clock-resolution collision), never a division by zero.
pub open spec fn rate_of_interval(interval_micros: u64) -> RateHz {
    if interval_micros == 0 {
        RateHz::zero()
    } else {
        RateHz { num: MICROS_PER_SEC, den: interval_micros }
    }
}

/// The elapsed interval between the stored instant and `now`; a clock that
/// reads earlier than the stored instant counts as no elapsed time.
pub open spec fn elapsed(last: u64, now: u64) -> u64 {
    if now >= last {
        (now - last) as u64
    } else {
        0
    }
}

/// What one observation returns, given the tracker's map before the call:
/// no rate at all for a type name never seen before, otherwise the rate
/// derived from the interval since that same name was last seen.
pub open spec fn observed_rate(m: Map<Seq<char>, u64>, name: Seq<char>, now: u64) -> Option<
    RateHz,
> {
    if m.dom().contains(name) {
        Some(rate_of_interval(elapsed(m[name], now)))
    } else {
        None
    }
}

/// The map described by an association list, later entries overriding
/// earlier ones.
pub open spec fn map_of_pairs(s: Seq<(String, u64)>) -> Map<Seq<char>, u64>
    decreases s.len(),
{
    if s.len() == 0 {
        Map::empty()
    } else {
        map_of_pairs(s.drop_last()).insert(s.last().0@, s.last().1)
    }
}

/// No two entries of the list share a key.
pub open spec fn unique_keys(s: Seq<(String, u64)>) -> bool {
    forall|i: int, j: int|
        0 <= i < s.len() && 0 <= j < s.len() && i != j ==> #[trigger] s[i].0@ != #[trigger] s[j].0@
}

proof fn lemma_map_of_pairs_index(s: Seq<(String, u64)>, i: int)
    requires
        unique_keys(s),
        0 <= i < s.len(),
    ensures
        map_of_pairs(s).dom().contains(s[i].0@),
        map_of_pairs(s)[s[i].0@] == s[i].1,
    decreases s.len(),
{
    if i == s.len() - 1 {
    } else {
        assert(unique_keys(s.drop_last()));
        lemma_map_of_pairs_index(s.drop_last(), i);
        assert(s.drop_last()[i] == s[i]);
        assert(s[i].0@ != s.last().0@);
    }
}

proof fn lemma_map_of_pairs_absent(s: Seq<(String, u64)>, k: Seq<char>)
    requires
        forall|i: int| 0 <= i < s.len() ==> #[trigger] s[i].0@ != k,
    ensures
        !map_of_pairs(s).dom().contains(k),
    decreases s.len(),
{
    if s.len() > 0 {
        assert(forall|i: int|
            0 <= i < s.drop_last().len() ==> #[trigger] s.drop_last()[i].0@ != k);
        lemma_map_of_pairs_absent(s.drop_last(), k);
    }
}

proof fn lemma_map_of_pairs_update(s: Seq<(String, u64)>, i: int, p: (String, u64))
    requires
        unique_keys(s),
        0 <= i < s.len(),
        p.0@ == s[i].0@,
    ensures
        map_of_pairs(s.update(i, p)) == map_of_pairs(s).insert(p.0@, p.1),
    decreases s.len(),
{
    let t = s.update(i, p);
    if i == s.len() - 1 {
        assert(t.drop_last() =~= s.drop_last());
        assert(map_of_pairs(t) == map_of_pairs(s.drop_last()).insert(p.0@, p.1));
        assert(map_of_pairs(s).insert(p.0@, p.1) =~= map_of_pairs(s.drop_last()).insert(
            p.0@,
            p.1,
        ));
    } else {
        assert(unique_keys(s.drop_last()));
        assert(s.drop_last()[i] == s[i]);
        lemma_map_of_pairs_update(s.drop_last(), i, p);
        assert(t.drop_last() =~= s.drop_last().update(i, p));
        assert(t.last() == s.last());
        assert(map_of_pairs(t) == map_of_pairs(s.drop_last()).insert(p.0@, p.1).insert(
            s.last().0@,
            s.last().1,
        ));
        assert(s[i].0@ != s.last().0@);
        assert(map_of_pairs(s.drop_last()).insert(p.0@, p.1).insert(s.last().0@, s.last().1)
            =~= map_of_pairs(s.drop_last()).insert(s.last().0@, s.last().1).insert(p.0@, p.1));
    }
}

/// Maps each message-type name to the instant it was last observed.
/// The map only grows: names are inserted, never removed.
pub struct FrequencyTracker {
    entries: Vec<(String, u64)>,
}

impl FrequencyTracker {
    /// The mathematical map this tracker holds.
    pub closed spec fn view(&self) -> Map<Seq<char>, u64> {
        map_of_pairs(self.entries@)
    }

    /// The tracker's internal invariant: one entry per type name.
    pub closed spec fn wf(&self) -> bool {
        unique_keys(self.entries@)
    }

    /// A fresh tracker that has observed nothing.
    pub fn new() -> (r: FrequencyTracker)
        ensures
            r.wf(),
            r@ == Map::<Seq<char>, u64>::empty(),
    {
        FrequencyTracker { entries: Vec::new() }
    }

    /// Records one observation of `name` at instant `now_micros` and
    /// returns the instantaneous rate: nothing on the first observation of
    /// the name, and `1 / elapsed` hertz afterwards, saturating to exactly
    /// zero when no time has elapsed.
    pub fn calculate(&mut self, name: &str, now_micros: u64) -> (r: Option<RateHz>)
        requires
            old(self).wf(),
        ensures
            final(self).wf(),
            final(self)@ == old(self)@.insert(name@, now_micros),
            r == observed_rate(old(self)@, name@, now_micros),
            r is Some ==> r.unwrap().wf(),
    {
        let key: String = name.to_owned();
        let n = self.entries.len();
        let mut i: usize = 0;
        while i < n
            invariant
                0 <= i <= n,
                n == self.entries@.len(),
                self.entries@ == old(self).entries@,
                key@ == name@,
                unique_keys(self.entries@),
                forall|k: int| 0 <= k < i ==> #[trigger] self.entries@[k].0@ != key@,
            decreases n - i,
        {
            if self.entries[i].0 == key {
                let last = self.entries[i].1;
                let ghost entries0 = self.entries@;
                self.entries.set(i, (key, now_micros));
                proof {
                    lemma_map_of_pairs_index(entries0, i as int);
                    lemma_map_of_pairs_update(
                        entries0,
                        i as int,
                        (self.entries@[i as int].0, now_micros),
                    );
                    assert(unique_keys(self.entries@));
                }
                let interval: u64 = if now_micros >= last {
                    now_micros - last
                } else {
                    0
                };
                let rate = if interval == 0 {
                    RateHz { num: 0, den: 1 }
                } else {
                    RateHz { num: MICROS_PER_SEC, den: interval }
                };
                return Some(rate);
            }
            i = i + 1;
        }
        let ghost entries0 = self.entries@;
        self.entries.push((key, now_micros));
        proof {
            assert(self.entries@.drop_last() =~= entries0);
            lemma_map_of_pairs_absent(entries0, self.entries@.last().0@);
            assert(unique_keys(self.entries@));
        }
        None
    }
}

/// The tracker's map grows monotonically with the set of distinct type
/// names observed and is never pruned: an observation only inserts.
pub proof fn lemma_tracker_only_grows(m: Map<Seq<char>, u64>, name: Seq<char>, now: u64)
    ensures
        m.dom().subset_of(m.insert(name, now).dom()),
        m.insert(name, now).dom().contains(name),
{
}

/// The first observation of a type name never yields a rate: a tracker
/// whose map does not yet hold the name reports no rate at all.
pub proof fn lemma_first_observation_has_no_rate(
    m: Map<Seq<char>, u64>,
    name: Seq<char>,
    now: u64,
)
    requires
        !m.dom().contains(name),
    ensures
        observed_rate(m, name, now) is None,
{
}

/// Two observations of one type name separated by a positive interval
/// yield the rate `1 / interval`: after an observation at `t0`, an
/// observation at `t0 + dt` reports the exact rational whose value in
/// hertz is one second over `dt` microseconds.
pub proof fn lemma_rate_is_inverse_of_interval(
    m: Map<Seq<char>, u64>,
    name: Seq<char>,
    t0: u64,
    dt: u64,
)
    requires
        0 < dt,
        t0 + dt <= u64::MAX,
    ensures
        observed_rate(m.insert(name, t0), name, (t0 + dt) as u64) == Some(
            RateHz { num: MICROS_PER_SEC, den: dt },
        ),
{
}

/// A zero interval between two observations of one type name yields the
/// saturation rate, an exact zero, never a division by zero: after an
/// observation at `t0`, a second observation at the same instant reports
/// the rational `0 / 1`.
pub proof fn lemma_zero_interval_saturates(m: Map<Seq<char>, u64>, name: Seq<char>, t0: u64)
    ensures
        observed_rate(m.insert(name, t0), name, t0) == Some(RateHz::zero()),
        observed_rate(m.insert(name, t0), name, t0).unwrap().num == 0,
        observed_rate(m.insert(name, t0), name, t0).unwrap().den == 1,
{
}

} // verus!
