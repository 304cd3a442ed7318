//! Vector clocks: one counter per device, absent entries read as zero.

use std::cmp::Ordering;
use vstd::prelude::*;
use crate::table::StringMap;

verus! {

/// How two clocks relate under the pointwise order.
#[derive(Debug, Clone, Copy, PartialEq, Eq, Structural)]
pub enum ClockOrder {
    Equal,
    Less,
    Greater,
    Concurrent,
}

/// The counter of `device` in `clock`; zero when absent.
pub open spec fn clock_get(clock: Map<Seq<char>, u64>, device: Seq<char>) -> u64 {
    if clock.dom().contains(device) {
        clock[device]
    } else {
        0
    }
}

/// The larger of two counters.
pub open spec fn max_counter(a: u64, b: u64) -> u64 {
    if a >= b {
        a
    } else {
        b
    }
}

/// The pointwise maximum of two clocks, over the devices of either.
pub open spec fn clock_merge(a: Map<Seq<char>, u64>, b: Map<Seq<char>, u64>) -> Map<
    Seq<char>,
    u64,
> {
    Map::new(
        |k: Seq<char>| a.dom().contains(k) || b.dom().contains(k),
        |k: Seq<char>| max_counter(clock_get(a, k), clock_get(b, k)),
    )
}

/// Some device counts strictly more in `a` than in `b`.
pub open spec fn clock_exceeds(a: Map<Seq<char>, u64>, b: Map<Seq<char>, u64>) -> bool {
    exists|k: Seq<char>| #[trigger] clock_get(a, k) > clock_get(b, k)
}

/// The relation of `a` to `b`: equal when no device differs, less when `a`
/// is pointwise at most `b` and somewhere strictly smaller, greater the
/// other way round, concurrent when each exceeds the other somewhere.
pub open spec fn clock_relation(a: Map<Seq<char>, u64>, b: Map<Seq<char>, u64>) -> ClockOrder {
    if clock_exceeds(a, b) {
        if clock_exceeds(b, a) {
            ClockOrder::Concurrent
        } else {
            ClockOrder::Greater
        }
    } else {
        if clock_exceeds(b, a) {
            ClockOrder::Less
        } else {
            ClockOrder::Equal
        }
    }
}

/// The standard ordering that a relation stands for; none when the clocks
/// are concurrent.
pub open spec fn ordering_of(r: ClockOrder) -> Option<Ordering> {
    match r {
        ClockOrder::Equal => Some(Ordering::Equal),
        ClockOrder::Less => Some(Ordering::Less),
        ClockOrder::Greater => Some(Ordering::Greater),
        ClockOrder::Concurrent => None,
    }
}

/// A vector clock.
#[derive(Debug)]
pub struct VectorClock {
    counters: StringMap<u64>,
}

impl View for VectorClock {
    type V = Map<Seq<char>, u64>;

    closed spec fn view(&self) -> Map<Seq<char>, u64> {
        self.counters@
    }
}

impl DeepView for VectorClock {
    type V = Map<Seq<char>, u64>;

    open spec fn deep_view(&self) -> Map<Seq<char>, u64> {
        self.view()
    }
}

impl VectorClock {
    /// The entries in storage order; `@` is the map they stand for.
    pub closed spec fn pairs(&self) -> Seq<(Seq<char>, u64)> {
        self.counters.entries()
    }

    /// The clock in which every device reads zero.
    pub fn new() -> (c: Self)
        ensures
            c@ == Map::<Seq<char>, u64>::empty(),
            c.pairs().len() == 0,
    {
        VectorClock { counters: StringMap::new() }
    }

    /// The counter of `device`, zero when the clock has no entry for it.
    pub fn get(&self, device: &str) -> (n: u64)
        ensures
            n == clock_get(self@, device@),
    {
        match self.counters.get(device) {
            Some(v) => *v,
            None => 0,
        }
    }

    /// Advances the counter of `device` by one.
    pub fn increment(&mut self, device: &str)
        requires
            clock_get(old(self)@, device@) < u64::MAX,
        ensures
            final(self)@ == old(self)@.insert(
                device@,
                (clock_get(old(self)@, device@) + 1) as u64,
            ),
    {
        let count = self.get(device);
        self.counters.insert(device.to_owned(), count + 1);
    }

    /// Sets the counter of `device` to `value`.
    pub fn set(&mut self, device: &str, value: u64)
        ensures
            final(self)@ == old(self)@.insert(device@, value),
    {
        self.counters.insert(device.to_owned(), value);
    }

    /// Replaces every counter by the maximum of itself and the counter of
    /// the same device in `other`; devices only `other` knows are added.
    pub fn merge(&mut self, other: &VectorClock)
        ensures
            final(self)@ == clock_merge(old(self)@, other@),
    {
        let n = other.counters.len();
        let mut i: usize = 0;
        while i < n
            invariant
                i <= n,
                n == other.counters.entries().len(),
                crate::table::keys_unique(other.counters.entries()),
                forall|k: Seq<char>|
                    self@.dom().contains(k) <==> (old(self)@.dom().contains(k) || exists|j: int|
                        0 <= j < i && #[trigger] other.counters.entries()[j].0 == k),
                forall|k: Seq<char>| #[trigger]
                    self@.dom().contains(k) ==> self@[k] == (if exists|j: int|
                        0 <= j < i && #[trigger] other.counters.entries()[j].0 == k {
                        max_counter(clock_get(old(self)@, k), clock_get(other@, k))
                    } else {
                        clock_get(old(self)@, k)
                    }),
            decreases n - i,
        {
            let device = other.counters.key_at(i);
            let count = *other.counters.value_at(i);
            let current = self.get(device.as_str());
            let ghost before = self@;
            let merged = if current >= count {
                current
            } else {
                count
            };
            self.counters.insert(device.clone(), merged);
            proof {
                let es = other.counters.entries();
                assert(self@ == before.insert(device@, merged));
                assert(es[i as int].0 == device@);
                crate::table::lemma_unique_index(es, i as int);
                assert forall|k: Seq<char>|
                    self@.dom().contains(k) <==> (old(self)@.dom().contains(k) || exists|j: int|
                        0 <= j < i + 1 && #[trigger] es[j].0 == k) by {
                    if exists|j: int| 0 <= j < i + 1 && #[trigger] es[j].0 == k {
                        let j = choose|j: int| 0 <= j < i + 1 && #[trigger] es[j].0 == k;
                        if j < i {
                            assert(before.dom().contains(k));
                        }
                    }
                }
                assert forall|k: Seq<char>| #[trigger]
                    self@.dom().contains(k) implies self@[k] == (if exists|j: int|
                        0 <= j < i + 1 && #[trigger] es[j].0 == k {
                        max_counter(clock_get(old(self)@, k), clock_get(other@, k))
                    } else {
                        clock_get(old(self)@, k)
                    }) by {
                    if k == device@ {
                        assert(!(exists|j: int| 0 <= j < i && #[trigger] es[j].0 == k)) by {
                            if exists|j: int| 0 <= j < i && #[trigger] es[j].0 == k {
                                let j = choose|j: int| 0 <= j < i && #[trigger] es[j].0 == k;
                                assert(es[j].0 != es[i as int].0);
                            }
                        }
                        if before.dom().contains(k) {
                            assert(before[k] == clock_get(old(self)@, k));
                        } else {
                            assert(!old(self)@.dom().contains(k));
                        }
                    } else {
                        assert(before.dom().contains(k));
                        if exists|j: int| 0 <= j < i + 1 && #[trigger] es[j].0 == k {
                            let j = choose|j: int| 0 <= j < i + 1 && #[trigger] es[j].0 == k;
                            assert(j < i);
                        }
                    }
                }
            }
            i += 1;
        }
        proof {
            let es = other.counters.entries();
            let target = clock_merge(old(self)@, other@);
            assert forall|k: Seq<char>| other@.dom().contains(k) <==> (exists|j: int|
                0 <= j < n && #[trigger] es[j].0 == k) by {
                if other@.dom().contains(k) {
                    let j = crate::table::index_of_key(es, k);
                    assert(es[j].0 == k);
                }
            }
            assert forall|k: Seq<char>| self@.dom().contains(k) == target.dom().contains(k) by {}
            assert forall|k: Seq<char>| #[trigger]
                self@.dom().contains(k) implies self@[k] == target[k] by {
                if !other@.dom().contains(k) {
                    assert(clock_get(other@, k) == 0);
                }
            }
            assert(self@ =~= target);
        }
    }

    /// The relation of this clock to `other`.
    pub fn relation(&self, other: &VectorClock) -> (r: ClockOrder)
        ensures
            r == clock_relation(self@, other@),
    {
        let greater = self.exceeds(other);
        let less = other.exceeds(self);
        if greater {
            if less {
                ClockOrder::Concurrent
            } else {
                ClockOrder::Greater
            }
        } else {
            if less {
                ClockOrder::Less
            } else {
                ClockOrder::Equal
            }
        }
    }

    /// True when some device counts strictly more here than in `other`.
    pub fn exceeds(&self, other: &VectorClock) -> (r: bool)
        ensures
            r == clock_exceeds(self@, other@),
    {
        let n = self.counters.len();
        let mut i: usize = 0;
        while i < n
            invariant
                i <= n,
                n == self.counters.entries().len(),
                forall|j: int|
                    0 <= j < i ==> clock_get(self@, #[trigger] self.counters.entries()[j].0)
                        <= clock_get(other@, self.counters.entries()[j].0),
            decreases n - i,
        {
            let device = self.counters.key_at(i);
            let mine = *self.counters.value_at(i);
            let theirs = other.get(device.as_str());
            if mine > theirs {
                proof {
                    assert(clock_get(self@, device@) > clock_get(other@, device@));
                }
                return true;
            }
            i += 1;
        }
        proof {
            if clock_exceeds(self@, other@) {
                let k = choose|k: Seq<char>| #[trigger] clock_get(self@, k) > clock_get(other@, k);
                assert(self@.dom().contains(k));
                let j = crate::table::index_of_key(self.counters.entries(), k);
                assert(self.counters.entries()[j].0 == k);
            }
        }
        false
    }

    /// Compares this clock with `other`: none when they are concurrent.
    pub fn compare(&self, other: &VectorClock) -> (r: Option<Ordering>)
        ensures
            r == ordering_of(clock_relation(self@, other@)),
    {
        match self.relation(other) {
            ClockOrder::Equal => Some(Ordering::Equal),
            ClockOrder::Less => Some(Ordering::Less),
            ClockOrder::Greater => Some(Ordering::Greater),
            ClockOrder::Concurrent => None,
        }
    }

    /// True when this clock is strictly before `other`.
    pub fn happens_before(&self, other: &VectorClock) -> (r: bool)
        ensures
            r == (clock_relation(self@, other@) == ClockOrder::Less),
    {
        match self.relation(other) {
            ClockOrder::Less => true,
            _ => false,
        }
    }

    /// True when neither clock is before or equal to the other.
    pub fn concurrent_with(&self, other: &VectorClock) -> (r: bool)
        ensures
            r == (clock_relation(self@, other@) == ClockOrder::Concurrent),
    {
        match self.relation(other) {
            ClockOrder::Concurrent => true,
            _ => false,
        }
    }

    /// The devices with an entry, in storage order.
    pub fn devices(&self) -> (r: Vec<String>)
        ensures
            r.deep_view() == self.pairs().map_values(|e: (Seq<char>, u64)| e.0),
    {
        let n = self.counters.len();
        let mut out: Vec<String> = Vec::new();
        let mut i: usize = 0;
        while i < n
            invariant
                i <= n,
                n == self.counters.entries().len(),
                out.len() == i,
                forall|j: int| 0 <= j < i ==> out[j]@ == self.counters.entries()[j].0,
            decreases n - i,
        {
            out.push(self.counters.key_at(i).clone());
            i += 1;
        }
        proof {
            assert(out.deep_view() =~= self.pairs().map_values(|e: (Seq<char>, u64)| e.0));
        }
        out
    }

    /// The entries, in storage order.
    pub fn entries(&self) -> (r: Vec<(String, u64)>)
        ensures
            r.deep_view() == self.pairs(),
    {
        let n = self.counters.len();
        let mut out: Vec<(String, u64)> = Vec::new();
        let mut i: usize = 0;
        while i < n
            invariant
                i <= n,
                n == self.counters.entries().len(),
                out.len() == i,
                forall|j: int|
                    0 <= j < i ==> out[j].0@ == self.counters.entries()[j].0 && out[j].1
                        == self.counters.entries()[j].1,
            decreases n - i,
        {
            out.push((self.counters.key_at(i).clone(), *self.counters.value_at(i)));
            i += 1;
        }
        proof {
            assert(out.deep_view() =~= self.pairs());
        }
        out
    }

    /// The entries, in storage order.
    pub fn iter(&self) -> (r: Vec<(String, u64)>)
        ensures
            r.deep_view() == self.pairs(),
    {
        self.entries()
    }

    /// The counters as a plain map.
    pub fn to_hashmap(&self) -> (m: StringMap<u64>)
        ensures
            m@ == self@,
            m.entries() == self.pairs(),
    {
        self.counters.duplicate()
    }

    /// The clock that holds exactly the counters of `map`.
    pub fn from_map(map: StringMap<u64>) -> (c: Self)
        ensures
            c@ == map@,
            c.pairs() == map.entries(),
    {
        VectorClock { counters: map }
    }

    /// The counters of this clock as a plain map.
    pub fn into_map(self) -> (m: StringMap<u64>)
        ensures
            m@ == self@,
            m.entries() == self.pairs(),
    {
        self.counters
    }
}

impl Clone for VectorClock {
    fn clone(&self) -> (r: Self)
        ensures
            r@ == self@,
            r.pairs() == self.pairs(),
    {
        VectorClock { counters: self.counters.duplicate() }
    }
}

impl Default for VectorClock {
    fn default() -> (c: Self)
        ensures
            c@ == Map::<Seq<char>, u64>::empty(),
    {
        VectorClock::new()
    }
}

impl PartialEq for VectorClock {
    fn eq(&self, other: &Self) -> (r: bool) {
        self.counters.same_map(&other.counters)
    }
}

impl vstd::std_specs::cmp::PartialEqSpecImpl for VectorClock {
    open spec fn obeys_eq_spec() -> bool {
        true
    }

    open spec fn eq_spec(&self, other: &Self) -> bool {
        self@ == other@
    }
}

impl From<StringMap<u64>> for VectorClock {
    fn from(map: StringMap<u64>) -> (c: Self)
        ensures
            c@ == map@,
    {
        VectorClock { counters: map }
    }
}

impl vstd::std_specs::convert::FromSpecImpl<StringMap<u64>> for VectorClock {
    open spec fn obeys_from_spec() -> bool {
        true
    }

    closed spec fn from_spec(map: StringMap<u64>) -> Self {
        VectorClock { counters: map }
    }
}

impl From<VectorClock> for StringMap<u64> {
    fn from(clock: VectorClock) -> (m: Self)
        ensures
            m@ == clock@,
    {
        clock.counters
    }
}

impl vstd::std_specs::convert::FromSpecImpl<VectorClock> for StringMap<u64> {
    open spec fn obeys_from_spec() -> bool {
        true
    }

    closed spec fn from_spec(clock: VectorClock) -> Self {
        clock.counters
    }
}

/// Merging is commutative, and every entry of the merge is the larger of
/// the two counters of its device.
pub proof fn law_merge_commutes(a: Map<Seq<char>, u64>, b: Map<Seq<char>, u64>)
    ensures
        clock_merge(a, b) == clock_merge(b, a),
        forall|k: Seq<char>| #[trigger]
            clock_get(clock_merge(a, b), k) == max_counter(clock_get(a, k), clock_get(b, k)),
{
    assert(clock_merge(a, b) =~= clock_merge(b, a));
}

/// Two clocks without a common device, each with a counter above zero,
/// are concurrent.
pub proof fn law_disjoint_clocks_concurrent(a: Map<Seq<char>, u64>, b: Map<Seq<char>, u64>)
    requires
        a.dom().disjoint(b.dom()),
        exists|k: Seq<char>| a.dom().contains(k) && a[k] > 0,
        exists|k: Seq<char>| b.dom().contains(k) && b[k] > 0,
    ensures
        clock_relation(a, b) == ClockOrder::Concurrent,
        ordering_of(clock_relation(a, b)) is None,
{
    let ka = choose|k: Seq<char>| a.dom().contains(k) && a[k] > 0;
    let kb = choose|k: Seq<char>| b.dom().contains(k) && b[k] > 0;
    assert(!b.dom().contains(ka));
    assert(!a.dom().contains(kb));
    assert(clock_get(a, ka) > clock_get(b, ka));
    assert(clock_get(b, kb) > clock_get(a, kb));
}

} // verus!
