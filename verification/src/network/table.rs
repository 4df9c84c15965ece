//! A map from IPv4 addresses to values that is walked in rising order of the addresses: an
//! ordered map of the standard library, together with the sequence of its entries as the
//! walk gives them, over which the contracts are stated.
use vstd::prelude::*;
use vstd::std_specs::btree::{axiom_increasing_seq_meaning, increasing_seq, spec_btree_map_iter};
use vstd::std_specs::cmp::OrdSpec;
use vstd::std_specs::iter::IteratorSpec;
use std::collections::BTreeMap;
use super::cidr::Ipv4Addr;

verus! {

/// A position or a count as a mathematical integer.
pub open spec fn int_of(n: usize) -> int {
    n as int
}

/// The smaller of two lengths.
pub open spec fn shorter(a: nat, b: nat) -> int {
    if a <= b {
        a as int
    } else {
        b as int
    }
}

/// Entries whose addresses rise strictly from one to the next.
pub open spec fn is_ascending<V>(s: Seq<(Ipv4Addr, V)>) -> bool {
    forall|i: int, j: int| 0 <= i < j < s.len() ==> (#[trigger] s[i]).0 < (#[trigger] s[j]).0
}

/// Whether some entry has the address `key`.
pub open spec fn has_key<V>(s: Seq<(Ipv4Addr, V)>, key: Ipv4Addr) -> bool {
    exists|i: int| 0 <= i < s.len() && (#[trigger] s[i]).0 == key
}

/// The value of the entry with the address `key`, where there is one.
pub open spec fn lookup<V>(s: Seq<(Ipv4Addr, V)>, key: Ipv4Addr) -> Option<V> {
    if has_key(s, key) {
        Some(s[choose|i: int| 0 <= i < s.len() && (#[trigger] s[i]).0 == key].1)
    } else {
        None
    }
}

/// The number of entries at the head of `s` whose address is below `key`.
pub open spec fn lower_bound<V>(s: Seq<(Ipv4Addr, V)>, key: Ipv4Addr) -> int
    decreases s.len(),
{
    if s.len() == 0 || s[0].0 >= key {
        0
    } else {
        1 + lower_bound(s.drop_first(), key)
    }
}

/// The entries after `key` has been given the value `value`: the entry with that address is
/// replaced where there is one, and a new entry takes its place in the order where there is
/// none.
pub open spec fn with_entry<V>(s: Seq<(Ipv4Addr, V)>, key: Ipv4Addr, value: V) -> Seq<
    (Ipv4Addr, V),
> {
    let p = lower_bound(s, key);
    if p < s.len() && s[p].0 == key {
        s.update(p, (key, value))
    } else {
        s.take(p).push((key, value)) + s.skip(p)
    }
}

/// Whether the entries `s` hold exactly what the map `m` holds.
pub open spec fn lists<V>(s: Seq<(Ipv4Addr, V)>, m: Map<Ipv4Addr, V>) -> bool {
    &&& m.dom().finite()
    &&& s.len() == m.len()
    &&& forall|k: Ipv4Addr|
        #[trigger] lookup(s, k) == if m.contains_key(k) {
            Some(m[k])
        } else {
            None
        }
}

/// A map from IPv4 addresses to values. Its view is the sequence of its entries in rising
/// order of their addresses, which is the order in which the map is walked.
pub struct AddrMap<V> {
    map: BTreeMap<Ipv4Addr, V>,
    listing: Ghost<Seq<(Ipv4Addr, V)>>,
}

impl<V> View for AddrMap<V> {
    type V = Seq<(Ipv4Addr, V)>;

    closed spec fn view(&self) -> Seq<(Ipv4Addr, V)> {
        self.listing@
    }
}

impl<V> AddrMap<V> {
    #[verifier::type_invariant]
    spec fn listed(&self) -> bool {
        is_ascending(self.listing@) && lists(self.listing@, self.map@)
    }
}

/// Walks a map and gives its entries in the order of the walk, which rises by address.
fn walk<V: Copy>(m: &BTreeMap<Ipv4Addr, V>) -> (r: Vec<(Ipv4Addr, V)>)
    ensures
        r@.len() == m@.len(),
        is_ascending(r@),
        forall|i: int|
            0 <= i < r@.len() ==> m@.contains_key((#[trigger] r@[i]).0) && m@[r@[i].0] == r@[i].1,
        forall|k: Ipv4Addr| #[trigger] m@.contains_key(k) ==> has_key(r@, k),
{
    broadcast use vstd::std_specs::btree::group_btree_axioms;
    broadcast use vstd::laws_cmp::group_laws_cmp;

    let mut out: Vec<(Ipv4Addr, V)> = Vec::new();
    let ghost full = spec_btree_map_iter(m).remaining();
    for kv in it: m.iter()
        invariant
            it.seq() == full,
            increasing_seq(full.map_values(|kv: (&Ipv4Addr, &V)| *kv.0)),
            out@.len() == it.index(),
            forall|j: int| 0 <= j < out@.len() ==> #[trigger] out@[j] == (*full[j].0, *full[j].1),
    {
        let (k, v) = kv;
        out.push((*k, *v));
    }
    proof {
        let keys = full.map_values(|kv: (&Ipv4Addr, &V)| *kv.0);
        axiom_increasing_seq_meaning::<Ipv4Addr>(keys);
        assert(out@.len() == full.len());
        assert forall|i: int, j: int| 0 <= i < j < out@.len() implies (#[trigger] out@[i]).0 < (
        #[trigger] out@[j]).0 by {
            assert(keys[i] == out@[i].0);
            assert(keys[j] == out@[j].0);
            assert(keys[i].cmp_spec(&keys[j]) is Less);
        }
        assert forall|i: int| 0 <= i < out@.len() implies m@.contains_key((#[trigger] out@[i]).0)
            && m@[out@[i].0] == out@[i].1 by {
            assert(m@.contains_key(*full[i].0));
        }
        assert forall|k: Ipv4Addr| #[trigger] m@.contains_key(k) implies has_key(out@, k) by {
            assert(full.contains((&k, &m@[k])));
            let i = choose|i: int| 0 <= i < full.len() && full[i] == (&k, &m@[k]);
            assert(out@[i].0 == k);
        }
    }
    out
}

impl<V: Copy> AddrMap<V> {
    /// A map without entries.
    pub fn new() -> (r: Self)
        ensures
            r@ == Seq::<(Ipv4Addr, V)>::empty(),
    {
        let map: BTreeMap<Ipv4Addr, V> = BTreeMap::new();
        proof {
            assert(!has_key(Seq::<(Ipv4Addr, V)>::empty(), 0u32));
        }
        AddrMap { map, listing: Ghost(Seq::empty()) }
    }

    /// The number of entries.
    pub fn len(&self) -> (r: usize)
        ensures
            r == self@.len(),
            is_ascending(self@),
    {
        broadcast use vstd::std_specs::btree::group_btree_axioms;

        proof {
            use_type_invariant(self);
        }
        self.map.len()
    }

    /// Whether there is no entry.
    pub fn is_empty(&self) -> (r: bool)
        ensures
            r == (self@.len() == 0),
    {
        self.len() == 0
    }

    /// The entries in rising order of their addresses.
    pub fn entries(&self) -> (r: Vec<(Ipv4Addr, V)>)
        ensures
            r@ == self@,
            is_ascending(self@),
    {
        proof {
            use_type_invariant(self);
        }
        let r = walk(&self.map);
        proof {
            assert forall|k: Ipv4Addr| lookup(r@, k) == lookup(self@, k) by {
                lemma_lookup_at_lower_bound(r@, k);
                lemma_lower_bound(r@, k);
                if has_key(r@, k) {
                    let c = choose|i: int| 0 <= i < r@.len() && (#[trigger] r@[i]).0 == k;
                    assert(self.map@.contains_key(r@[c].0));
                }
                assert(lookup(self@, k) == if self.map@.contains_key(k) {
                    Some(self.map@[k])
                } else {
                    None
                });
            }
            lemma_same_lookups_same_entries(r@, self@);
        }
        r
    }

    /// The entry at position `i` of the rising order.
    pub fn entry(&self, i: usize) -> (r: (Ipv4Addr, V))
        requires
            i < self@.len(),
        ensures
            r == self@[int_of(i)],
            is_ascending(self@),
    {
        let all = self.entries();
        all[i]
    }

    /// The value under `key`, where there is one.
    pub fn get(&self, key: Ipv4Addr) -> (r: Option<V>)
        ensures
            r == lookup(self@, key),
            is_ascending(self@),
    {
        broadcast use vstd::std_specs::btree::group_btree_axioms;
        broadcast use vstd::laws_cmp::group_laws_cmp;

        proof {
            use_type_invariant(self);
            assert(lookup(self@, key) == if self.map@.contains_key(key) {
                Some(self.map@[key])
            } else {
                None
            });
        }
        match self.map.get(&key) {
            Some(value) => Some(*value),
            None => None,
        }
    }

    /// Whether there is an entry under `key`.
    pub fn contains_key(&self, key: Ipv4Addr) -> (r: bool)
        ensures
            r == has_key(self@, key),
    {
        self.get(key).is_some()
    }

    /// Puts `value` under `key` and returns the value that stood there before.
    pub fn insert(&mut self, key: Ipv4Addr, value: V) -> (r: Option<V>)
        ensures
            final(self)@ == with_entry(old(self)@, key, value),
            r == lookup(old(self)@, key),
            is_ascending(final(self)@),
            lookup(final(self)@, key) == Some(value),
            forall|k: Ipv4Addr| k != key ==> lookup(final(self)@, k) == lookup(old(self)@, k),
    {
        broadcast use vstd::std_specs::btree::group_btree_axioms;
        broadcast use vstd::laws_cmp::group_laws_cmp;

        proof {
            use_type_invariant(&*self);
        }
        let mut taken = AddrMap::new();
        core::mem::swap(self, &mut taken);
        let AddrMap { map, listing } = taken;
        let mut map = map;
        let ghost before = map@;
        let ghost entries = listing@;
        proof {
            lemma_with_entry(entries, key, value);
            assert(lookup(entries, key) == if before.contains_key(key) {
                Some(before[key])
            } else {
                None
            });
        }
        let r = map.insert(key, value);
        proof {
            let after = with_entry(entries, key, value);
            assert(map@ == before.insert(key, value));
            assert forall|k: Ipv4Addr|
                #[trigger] lookup(after, k) == if map@.contains_key(k) {
                    Some(map@[k])
                } else {
                    None
                } by {
                if k != key {
                    assert(lookup(after, k) == lookup(entries, k));
                    assert(lookup(entries, k) == if before.contains_key(k) {
                        Some(before[k])
                    } else {
                        None
                    });
                }
            }
            assert(has_key(entries, key) == before.contains_key(key));
        }
        *self = AddrMap { map, listing: Ghost(with_entry(entries, key, value)) };
        r
    }

    /// Takes all entries out.
    pub fn clear(&mut self)
        ensures
            final(self)@ == Seq::<(Ipv4Addr, V)>::empty(),
    {
        *self = AddrMap::new();
    }
}

/// Where `lower_bound` cuts an ascending sequence: below it every address is under `key`, from
/// it on none is.
pub proof fn lemma_lower_bound<V>(s: Seq<(Ipv4Addr, V)>, key: Ipv4Addr)
    requires
        is_ascending(s),
    ensures
        0 <= lower_bound(s, key) <= s.len(),
        forall|i: int| 0 <= i < lower_bound(s, key) ==> (#[trigger] s[i]).0 < key,
        forall|i: int| lower_bound(s, key) <= i < s.len() ==> (#[trigger] s[i]).0 >= key,
    decreases s.len(),
{
    if s.len() == 0 || s[0].0 >= key {
    } else {
        let t = s.drop_first();
        assert forall|i: int, j: int| 0 <= i < j < t.len() implies (#[trigger] t[i]).0 < (
        #[trigger] t[j]).0 by {
            assert(t[i] == s[i + 1] && t[j] == s[j + 1]);
        }
        lemma_lower_bound(t, key);
        assert forall|i: int| 0 <= i < lower_bound(s, key) implies (#[trigger] s[i]).0 < key by {
            if i > 0 {
                assert(s[i] == t[i - 1]);
            }
        }
        assert forall|i: int| lower_bound(s, key) <= i < s.len() implies (#[trigger] s[i]).0
            >= key by {
            assert(s[i] == t[i - 1]);
        }
    }
}

/// The one position that cuts an ascending sequence as `lower_bound` does is `lower_bound`.
pub proof fn lemma_lower_bound_is<V>(s: Seq<(Ipv4Addr, V)>, key: Ipv4Addr, p: int)
    requires
        is_ascending(s),
        0 <= p <= s.len(),
        forall|i: int| 0 <= i < p ==> (#[trigger] s[i]).0 < key,
        p < s.len() ==> s[p].0 >= key,
    ensures
        p == lower_bound(s, key),
{
    lemma_lower_bound(s, key);
    let q = lower_bound(s, key);
    if q < p {
        assert(s[q].0 < key);
    } else if p < q {
        assert(s[p].0 < key);
    }
}

/// In an ascending sequence the entry under `key`, if any, stands at `lower_bound`.
pub proof fn lemma_lookup_at_lower_bound<V>(s: Seq<(Ipv4Addr, V)>, key: Ipv4Addr)
    requires
        is_ascending(s),
    ensures
        ({
            let p = lower_bound(s, key);
            if p < s.len() && s[p].0 == key {
                lookup(s, key) == Some(s[p].1)
            } else {
                lookup(s, key).is_none()
            }
        }),
{
    lemma_lower_bound(s, key);
    let p = lower_bound(s, key);
    if p < s.len() && s[p].0 == key {
        assert(has_key(s, key));
        let c = choose|i: int| 0 <= i < s.len() && (#[trigger] s[i]).0 == key;
        if c < p {
            assert(s[c].0 < s[p].0);
        } else if p < c {
            assert(s[p].0 < s[c].0);
        }
    } else {
        if has_key(s, key) {
            let c = choose|i: int| 0 <= i < s.len() && (#[trigger] s[i]).0 == key;
            if c < p {
                assert(s[c].0 < key);
            } else {
                assert(s[p].0 >= key);
                if p < c {
                    assert(s[p].0 < s[c].0);
                }
            }
        }
    }
}

/// Putting a value under a key keeps the order, finds the value again, and leaves every other
/// key as it was.
pub proof fn lemma_with_entry<V>(s: Seq<(Ipv4Addr, V)>, key: Ipv4Addr, value: V)
    requires
        is_ascending(s),
    ensures
        is_ascending(with_entry(s, key, value)),
        lookup(with_entry(s, key, value), key) == Some(value),
        forall|k: Ipv4Addr| k != key ==> lookup(with_entry(s, key, value), k) == lookup(s, k),
        has_key(s, key) ==> with_entry(s, key, value).len() == s.len(),
        !has_key(s, key) ==> with_entry(s, key, value).len() == s.len() + 1,
        lower_bound(with_entry(s, key, value), key) == lower_bound(s, key),
{
    lemma_lower_bound(s, key);
    lemma_lookup_at_lower_bound(s, key);
    let p = lower_bound(s, key);
    let t = with_entry(s, key, value);
    let replaced = p < s.len() && s[p].0 == key;
    // Every entry of `t` is the new one or an entry of `s`, and the other way round.
    assert forall|i: int| 0 <= i < t.len() implies (#[trigger] t[i]).0 == (if i == p {
        key
    } else if replaced {
        s[i].0
    } else if i < p {
        s[i].0
    } else {
        s[i - 1].0
    }) by {}
    assert forall|i: int, j: int| 0 <= i < j < t.len() implies (#[trigger] t[i]).0 < (
    #[trigger] t[j]).0 by {
        if replaced {
            assert(s[i].0 < s[j].0);
        } else {
            let si = if i < p { i } else { i - 1 };
            let sj = if j < p { j } else { j - 1 };
            if i != p && j != p {
                assert(s[si].0 < s[sj].0);
            } else if i == p {
                assert(s[sj].0 >= key);
            } else {
                assert(s[si].0 < key);
            }
        }
    }
    assert(t[p] == (key, value));
    lemma_lower_bound_is(t, key, p);
    lemma_lookup_at_lower_bound(t, key);
    assert forall|k: Ipv4Addr| k != key implies lookup(t, k) == lookup(s, k) by {
        lemma_lookup_at_lower_bound(s, k);
        lemma_lookup_at_lower_bound(t, k);
        lemma_lower_bound(s, k);
        let q = lower_bound(s, k);
        // The cut for `k` moves by one exactly when the new entry stands before it.
        let qt = if !replaced && key < k { q + 1 } else { q };
        assert forall|i: int| 0 <= i < qt implies (#[trigger] t[i]).0 < k by {
            if i == p {
            } else if replaced {
                assert(s[i].0 < k);
            } else if i < p {
                if i < q {
                    assert(s[i].0 < k);
                } else {
                    assert(s[i].0 < key);
                }
            } else {
                assert(s[i - 1].0 < k);
            }
        }
        if qt < t.len() {
            if qt == p {
                if replaced {
                    assert(s[p].0 >= k);
                } else {
                    assert(key > k) by {
                        if key < k {
                            assert(q + 1 == p);
                            assert(s[q].0 < key);
                        }
                    }
                }
            } else if replaced {
                assert(s[qt].0 >= k);
            } else if qt < p {
                assert(s[qt].0 >= k);
            } else {
                assert(s[qt - 1].0 >= k);
                if key < k {
                } else {
                    assert(q >= p);
                    assert(s[q - 1].0 < k);
                    assert(q - 1 >= p ==> s[q - 1].0 >= key);
                }
            }
        }
        lemma_lower_bound_is(t, k, qt);
        if qt < t.len() && qt != p {
            if replaced || qt < p {
                assert(t[qt] == s[qt]);
            } else {
                assert(t[qt] == s[qt - 1]);
            }
        }
    }
}

/// Two ascending sequences that hold the same value under every address are the same sequence.
pub proof fn lemma_same_lookups_same_entries<V>(s: Seq<(Ipv4Addr, V)>, t: Seq<(Ipv4Addr, V)>)
    requires
        is_ascending(s),
        is_ascending(t),
        forall|k: Ipv4Addr| lookup(s, k) == lookup(t, k),
    ensures
        s =~= t,
    decreases s.len(),
{
    if s.len() == 0 {
        if t.len() > 0 {
            lemma_lookup_at_lower_bound(t, t[0].0);
            lemma_lower_bound_is(t, t[0].0, 0);
            assert(!has_key(s, t[0].0));
        }
    } else {
        let k = s.last().0;
        lemma_lookup_at_lower_bound(s, k);
        lemma_lower_bound_is(s, k, s.len() - 1);
        assert(lookup(t, k) == Some(s.last().1));
        assert(has_key(t, k));
        let c = choose|i: int| 0 <= i < t.len() && (#[trigger] t[i]).0 == k;
        // `k` is the highest address of `t` as well.
        if c < t.len() - 1 {
            let k2 = t.last().0;
            assert(t[c].0 < k2);
            lemma_lookup_at_lower_bound(t, k2);
            lemma_lower_bound_is(t, k2, t.len() - 1);
            assert(has_key(s, k2));
            let d = choose|i: int| 0 <= i < s.len() && (#[trigger] s[i]).0 == k2;
            if d < s.len() - 1 {
                assert(s[d].0 < s[s.len() - 1].0);
            }
            assert(false);
        }
        lemma_lookup_at_lower_bound(t, k);
        lemma_lower_bound_is(t, k, t.len() - 1);
        let s1 = s.drop_last();
        let t1 = t.drop_last();
        assert forall|k1: Ipv4Addr| lookup(s1, k1) == lookup(t1, k1) by {
            lemma_drop_last_lookup(s, k1);
            lemma_drop_last_lookup(t, k1);
        }
        lemma_same_lookups_same_entries(s1, t1);
        assert(s =~= s1.push(s.last()));
        assert(t =~= t1.push(t.last()));
    }
}

/// Dropping the last entry of an ascending sequence forgets its address and no other.
pub proof fn lemma_drop_last_lookup<V>(s: Seq<(Ipv4Addr, V)>, key: Ipv4Addr)
    requires
        is_ascending(s),
        s.len() > 0,
    ensures
        is_ascending(s.drop_last()),
        lookup(s.drop_last(), key) == if key == s.last().0 {
            None
        } else {
            lookup(s, key)
        },
{
    let d = s.drop_last();
    assert forall|i: int, j: int| 0 <= i < j < d.len() implies (#[trigger] d[i]).0 < (
    #[trigger] d[j]).0 by {
        assert(d[i] == s[i] && d[j] == s[j]);
    }
    lemma_lookup_at_lower_bound(s, key);
    lemma_lookup_at_lower_bound(d, key);
    lemma_lower_bound(s, key);
    let p = lower_bound(s, key);
    if p <= d.len() {
        assert forall|i: int| 0 <= i < p implies (#[trigger] d[i]).0 < key by {
            assert(d[i] == s[i]);
        }
        if p < d.len() {
            assert(d[p] == s[p]);
        }
        lemma_lower_bound_is(d, key, p);
    }
}

/// Putting the same value under the same address twice is the same as putting it once, and of
/// two values put under one address the later one stays.
pub proof fn lemma_insert_twice<V>(s: Seq<(Ipv4Addr, V)>, key: Ipv4Addr, first: V, second: V)
    requires
        is_ascending(s),
    ensures
        with_entry(with_entry(s, key, first), key, first) == with_entry(s, key, first),
        with_entry(with_entry(s, key, first), key, second) == with_entry(s, key, second),
        with_entry(with_entry(s, key, first), key, second).len() == with_entry(s, key, first).len(),
{
    lemma_with_entry(s, key, first);
    lemma_with_entry(s, key, second);
    let once = with_entry(s, key, first);
    lemma_with_entry(once, key, first);
    lemma_with_entry(once, key, second);
    let twice = with_entry(once, key, first);
    let changed = with_entry(once, key, second);
    let direct = with_entry(s, key, second);
    assert forall|k: Ipv4Addr| lookup(twice, k) == lookup(once, k) by {
        if k != key {
            assert(lookup(twice, k) == lookup(once, k));
        }
    }
    lemma_same_lookups_same_entries(twice, once);
    assert forall|k: Ipv4Addr| lookup(changed, k) == lookup(direct, k) by {
        if k != key {
            assert(lookup(changed, k) == lookup(once, k));
            assert(lookup(once, k) == lookup(s, k));
            assert(lookup(direct, k) == lookup(s, k));
        }
    }
    lemma_same_lookups_same_entries(changed, direct);
}

} // verus!
