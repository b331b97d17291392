//! A map that keeps at most `capacity` entries. When a new key arrives and
//! the map is full, the key that was inserted first is dropped.
use std::collections::HashMap;
use std::collections::VecDeque;
use std::hash::Hash;
use vstd::prelude::*;
use vstd::std_specs::hash::obeys_key_model;

verus! {

broadcast use {vstd::std_specs::hash::group_hash_axioms, vstd::std_specs::vecdeque::group_vec_dequeue_axioms};

/// The capacity that `new` and `default` give.
pub const DEFAULT_CAPACITY: usize = 100;

#[verifier::reject_recursive_types(K)]
pub struct MruHashmap<K, V> {
    hash_map: HashMap<K, V>,
    deque: VecDeque<K>,
    capacity: usize,
}

/// The key that a full map with insertion order `order` drops for a new key.
pub open spec fn evicted_key<K>(order: Seq<K>) -> K {
    order[0]
}

/// The entries after `insert(k, v)` on a map with entries `entries`,
/// insertion order `order` and capacity `cap`.
pub open spec fn entries_after_insert<K, V>(
    entries: Map<K, V>,
    order: Seq<K>,
    cap: nat,
    k: K,
    v: V,
) -> Map<K, V> {
    if !entries.contains_key(k) && order.len() == cap {
        entries.remove(evicted_key(order)).insert(k, v)
    } else {
        entries.insert(k, v)
    }
}

/// The insertion order after `insert(k, v)`.
pub open spec fn order_after_insert<K, V>(entries: Map<K, V>, order: Seq<K>, cap: nat, k: K) -> Seq<K> {
    if entries.contains_key(k) {
        order
    } else if order.len() == cap {
        order.drop_first().push(k)
    } else {
        order.push(k)
    }
}

/// The value that `insert(k, v)` returns: the one that `k` had.
pub open spec fn previous_value<K, V>(entries: Map<K, V>, k: K) -> Option<V> {
    if entries.contains_key(k) {
        Some(entries[k])
    } else {
        None
    }
}

/// Each stored key occurs once in the order, the order holds exactly the
/// stored keys, and there are at most `cap` of them.
pub open spec fn consistent<K, V>(entries: Map<K, V>, order: Seq<K>, cap: nat) -> bool {
    &&& order.no_duplicates()
    &&& order.to_set() == entries.dom()
    &&& order.len() <= cap
}

impl<K, V> MruHashmap<K, V> {
    /// The entries that the map holds.
    pub closed spec fn view(&self) -> Map<K, V> {
        self.hash_map@
    }

    /// The stored keys, the one inserted first at the front.
    pub closed spec fn order(&self) -> Seq<K> {
        self.deque@
    }

    /// The most entries that the map keeps.
    pub closed spec fn spec_capacity(&self) -> nat {
        self.capacity as nat
    }

    /// The well-formedness of the map. Where the key type obeys the hash
    /// table model of vstd (all integer types do), entries and order agree.
    pub open spec fn wf(&self) -> bool {
        &&& self.order().len() <= self.spec_capacity()
        &&& obeys_key_model::<K>() ==> consistent(self@, self.order(), self.spec_capacity())
    }
}

impl<K: Copy + Eq + Hash, V> MruHashmap<K, V> {
    /// An empty map of capacity `DEFAULT_CAPACITY`.
    pub fn new() -> (m: Self)
        ensures
            m.wf(),
            m@ == Map::<K, V>::empty(),
            m.order() == Seq::<K>::empty(),
            m.spec_capacity() == DEFAULT_CAPACITY,
    {
        Self::with_capacity(DEFAULT_CAPACITY)
    }

    /// An empty map that holds at most `capacity` entries.
    pub fn with_capacity(capacity: usize) -> (m: Self)
        ensures
            m.wf(),
            m@ == Map::<K, V>::empty(),
            m.order() == Seq::<K>::empty(),
            m.spec_capacity() == capacity,
    {
        let m = MruHashmap {
            hash_map: HashMap::with_capacity(capacity),
            deque: VecDeque::with_capacity(capacity),
            capacity,
        };
        proof {
            assert(m.deque@.to_set() =~= m.hash_map@.dom());
        }
        m
    }

    /// Stores `v` under `k` and returns the value that `k` had. A key that
    /// is new to a full map drops the key that was inserted first.
    pub fn insert(&mut self, k: K, v: V) -> (r: Option<V>)
        requires
            old(self).wf(),
            old(self).spec_capacity() > 0,
        ensures
            final(self).wf(),
            final(self).spec_capacity() == old(self).spec_capacity(),
            obeys_key_model::<K>() ==> {
                &&& final(self)@ == entries_after_insert(
                    old(self)@,
                    old(self).order(),
                    old(self).spec_capacity(),
                    k,
                    v,
                )
                &&& final(self).order() == order_after_insert(
                    old(self)@,
                    old(self).order(),
                    old(self).spec_capacity(),
                    k,
                )
                &&& r == previous_value(old(self)@, k)
            },
    {
        let ghost e0 = self.hash_map@;
        let ghost o0 = self.deque@;
        let contains = self.hash_map.contains_key(&k);
        if !contains && self.deque.len() == self.capacity {
            let front = self.deque.pop_front().unwrap();
            self.hash_map.remove(&front);
            proof {
                if obeys_key_model::<K>() {
                    assert(front == o0[0]);
                    assert forall|i: int| 0 <= i < self.deque@.len() implies self.deque@[i]
                        != front by {
                        assert(self.deque@[i] == o0[i + 1]);
                    }
                    assert forall|x: K| self.deque@.to_set().contains(x) implies self.hash_map@.dom().contains(x) by {
                        let i = choose|i: int| 0 <= i < self.deque@.len() && self.deque@[i] == x;
                        assert(o0[i + 1] == x);
                        assert(o0.to_set().contains(x));
                    }
                    assert forall|x: K| self.hash_map@.dom().contains(x) implies self.deque@.to_set().contains(x) by {
                        assert(e0.dom().contains(x));
                        assert(o0.to_set().contains(x));
                        let i = choose|i: int| 0 <= i < o0.len() && o0[i] == x;
                        assert(i != 0);
                        assert(self.deque@[i - 1] == x);
                    }
                    assert(self.deque@.to_set() =~= self.hash_map@.dom());
                }
            }
        }
        let ghost m0 = self.hash_map@;
        let ghost d0 = self.deque@;
        proof {
            if obeys_key_model::<K>() {
                assert(d0.to_set() == m0.dom());
                assert(contains == m0.dom().contains(k));
            }
        }
        if !contains {
            self.deque.push_back(k);
            proof {
                if obeys_key_model::<K>() {
                    assert(!d0.to_set().contains(k));
                    d0.lemma_push_to_set_commute(k);
                }
            }
        }
        let r = self.hash_map.insert(k, v);
        proof {
            if obeys_key_model::<K>() {
                assert(self.deque@.to_set() =~= self.hash_map@.dom());
                if !e0.contains_key(k) && o0.len() == self.capacity {
                    assert(self.deque@ =~= o0.drop_first().push(k));
                }
            }
        }
        r
    }

    /// The value stored under `k`, if any. The map is left as it was.
    pub fn get(&mut self, k: &K) -> (r: Option<&V>)
        requires
            old(self).wf(),
        ensures
            final(self)@ == old(self)@,
            final(self).order() == old(self).order(),
            final(self).spec_capacity() == old(self).spec_capacity(),
            obeys_key_model::<K>() ==> r == (if old(self)@.contains_key(*k) {
                Some(&old(self)@[*k])
            } else {
                None
            }),
    {
        self.hash_map.get(k)
    }

    /// The number of stored entries.
    pub fn len(&self) -> (n: usize)
        requires
            self.wf(),
        ensures
            obeys_key_model::<K>() ==> n == self@.len(),
    {
        self.hash_map.len()
    }

    /// The number of keys in the insertion order.
    pub fn order_len(&self) -> (n: usize)
        ensures
            n == self.order().len(),
    {
        self.deque.len()
    }

    /// The most entries that the map keeps.
    pub fn capacity(&self) -> (c: usize)
        ensures
            c == self.spec_capacity(),
    {
        self.capacity
    }

    /// The number of entries that the underlying hash table can hold
    /// without reallocating: at least as many as it holds. How many more
    /// is the allocator's choice.
    pub fn map_allocation(&self) -> (n: usize)
        ensures
            obeys_key_model::<K>() ==> n >= self@.len(),
    {
        hash_map_allocation(&self.hash_map)
    }

    /// The number of keys that the underlying queue can hold without
    /// reallocating: at least as many as it holds. How many more is the
    /// allocator's choice.
    pub fn order_allocation(&self) -> (n: usize)
        ensures
            n >= self.order().len(),
    {
        vec_deque_allocation(&self.deque)
    }
}

impl<K: Copy + Eq + Hash, V> Default for MruHashmap<K, V> {
    /// An empty map of capacity `DEFAULT_CAPACITY`.
    fn default() -> (m: Self)
        ensures
            m.wf(),
            m@ == Map::<K, V>::empty(),
            m.order() == Seq::<K>::empty(),
            m.spec_capacity() == DEFAULT_CAPACITY,
    {
        Self::new()
    }
}

/// `HashMap::capacity`: how many entries the table can hold without
/// reallocating. Since it holds its entries now, that is at least its
/// length; how much more depends on the allocator and is not stated.
#[verifier::external_body]
fn hash_map_allocation<K, V>(m: &HashMap<K, V>) -> (n: usize)
    ensures
        n >= m.len(),
{
    m.capacity()
}

/// `VecDeque::capacity`: how many items the queue can hold without
/// reallocating. Since it holds its items now, that is at least its length;
/// how much more depends on the allocator and is not stated.
#[verifier::external_body]
fn vec_deque_allocation<K>(d: &VecDeque<K>) -> (n: usize)
    ensures
        n >= d@.len(),
{
    d.capacity()
}

/// Law: whatever the map held, after `insert(k, v)` a read of `k` gives `v`.
pub proof fn law_read_after_write<K, V>(entries: Map<K, V>, order: Seq<K>, cap: nat, k: K, v: V)
    requires
        consistent(entries, order, cap),
        cap > 0,
    ensures
        entries_after_insert(entries, order, cap, k, v).contains_key(k),
        entries_after_insert(entries, order, cap, k, v)[k] == v,
{
}

/// Law: while the map holds fewer entries than its capacity, a new key
/// drops nothing: every stored entry stays with its value, the new key is
/// added, and it goes to the end of the order.
pub proof fn law_below_capacity_drops_nothing<K, V>(
    entries: Map<K, V>,
    order: Seq<K>,
    cap: nat,
    k: K,
    v: V,
)
    requires
        consistent(entries, order, cap),
        !entries.contains_key(k),
        order.len() < cap,
    ensures
        entries_after_insert(entries, order, cap, k, v) == entries.insert(k, v),
        order_after_insert(entries, order, cap, k) == order.push(k),
        forall|x: K|
            #![trigger entries.contains_key(x)]
            entries.contains_key(x) ==> entries_after_insert(entries, order, cap, k, v).contains_key(
                x,
            ) && entries_after_insert(entries, order, cap, k, v)[x] == entries[x],
        entries_after_insert(entries, order, cap, k, v).dom().len() == entries.dom().len() + 1,
{
    order.unique_seq_to_set();
    assert(entries.dom().finite());
}

/// Law: the map never holds more entries than its capacity.
pub proof fn law_size_bounded<K, V>(entries: Map<K, V>, order: Seq<K>, cap: nat)
    requires
        consistent(entries, order, cap),
    ensures
        entries.dom().finite(),
        entries.len() <= cap,
{
    order.unique_seq_to_set();
}

/// Law: storing a new value under a key that is already stored keeps the
/// insertion order and every other entry, and drops nothing.
pub proof fn law_update_keeps_others<K, V>(entries: Map<K, V>, order: Seq<K>, cap: nat, k: K, v: V)
    requires
        consistent(entries, order, cap),
        entries.contains_key(k),
    ensures
        entries_after_insert(entries, order, cap, k, v) == entries.insert(k, v),
        entries_after_insert(entries, order, cap, k, v).dom() == entries.dom(),
        order_after_insert(entries, order, cap, k) == order,
        previous_value(entries, k) == Some(entries[k]),
{
    assert(entries.insert(k, v).dom() =~= entries.dom());
}

/// Law: a new key that reaches a full map drops exactly the key that was
/// inserted first; every other entry keeps its value, and the size stays.
pub proof fn law_new_key_drops_only_the_oldest<K, V>(
    entries: Map<K, V>,
    order: Seq<K>,
    cap: nat,
    k: K,
    v: V,
)
    requires
        consistent(entries, order, cap),
        cap > 0,
        !entries.contains_key(k),
        order.len() == cap,
    ensures
        ({
            let after = entries_after_insert(entries, order, cap, k, v);
            &&& !after.contains_key(order[0])
            &&& after.dom() == entries.dom().remove(order[0]).insert(k)
            &&& forall|x: K|
                #![trigger entries.contains_key(x)]
                entries.contains_key(x) && x != order[0] ==> after.contains_key(x) && after[x]
                    == entries[x]
            &&& after[k] == v
            &&& order_after_insert(entries, order, cap, k) == order.drop_first().push(k)
            &&& previous_value(entries, k) == None::<V>
        }),
{
    assert(order.to_set().contains(order[0]));
    assert(order[0] != k);
    let after = entries_after_insert(entries, order, cap, k, v);
    assert(after.dom() =~= entries.dom().remove(order[0]).insert(k));
}

} // verus!
