//! Small keyed containers over window addresses.
//!
//! Addresses are strings, and a string-keyed hash table gives Verus nothing to
//! prove its lookups with, so these containers keep their entries in a vector
//! and state, as their invariant, that no key occurs twice.
use vstd::prelude::*;

verus! {

/// The character sequences of a sequence of strings.
pub open spec fn strings_view(v: Seq<String>) -> Seq<Seq<char>> {
    v.map_values(|s: String| s@)
}

/// A set of window addresses.
pub struct AddressSet {
    items: Vec<String>,
}

impl AddressSet {
    /// The members, in insertion order.
    pub closed spec fn members(&self) -> Seq<Seq<char>> {
        strings_view(self.items@)
    }

    /// No member is stored twice.
    pub closed spec fn wf(&self) -> bool {
        self.members().no_duplicates()
    }

    /// The empty set.
    pub fn new() -> (s: Self)
        ensures
            s.wf(),
            s@ == Set::<Seq<char>>::empty(),
    {
        let s = AddressSet { items: Vec::new() };
        assert(s.members().to_set() =~= Set::<Seq<char>>::empty());
        s
    }

    /// Whether `address` is a member.
    pub fn contains(&self, address: &String) -> (found: bool)
        ensures
            found == self@.contains(address@),
    {
        let mut i: usize = 0;
        while i < self.items.len()
            invariant
                i <= self.items@.len(),
                forall|j: int| 0 <= j < i ==> self.items@[j]@ != address@,
            decreases self.items@.len() - i,
        {
            if self.items[i] == *address {
                assert(self.members()[i as int] == address@);
                return true;
            }
            i = i + 1;
        }
        assert forall|j: int| 0 <= j < self.members().len() implies self.members()[j] != address@ by {}
        false
    }

    /// Adds `address`; returns whether it was new.
    pub fn insert(&mut self, address: String) -> (added: bool)
        requires
            old(self).wf(),
        ensures
            final(self).wf(),
            added == !old(self)@.contains(address@),
            final(self)@ == old(self)@.insert(address@),
    {
        if self.contains(&address) {
            return false;
        }
        let ghost a = address@;
        let ghost before = self.members();
        self.items.push(address);
        assert(self.members() =~= before.push(a));
        assert forall|x: Seq<char>|
            #![trigger self.members().to_set().contains(x)]
            self.members().to_set().contains(x) == before.to_set().insert(a).contains(x) by {
            if before.contains(x) {
                let j = choose|j: int| 0 <= j < before.len() && before[j] == x;
                assert(self.members()[j] == x);
            }
            if x == a {
                assert(self.members()[before.len() as int] == a);
            }
        }
        assert(self.members().to_set() =~= before.to_set().insert(a));
        true
    }

    /// Removes `address` if present.
    pub fn remove(&mut self, address: &String)
        requires
            old(self).wf(),
        ensures
            final(self).wf(),
            final(self)@ == old(self)@.remove(address@),
    {
        let ghost a = address@;
        let ghost before = self.members();
        let mut i: usize = 0;
        while i < self.items.len()
            invariant
                i <= self.items@.len(),
                before == self.members(),
                before.no_duplicates(),
                a == address@,
                before == old(self).members(),
                forall|j: int| 0 <= j < i ==> self.items@[j]@ != a,
            decreases self.items@.len() - i,
        {
            if self.items[i] == *address {
                assert(before[i as int] == a);
                self.items.remove(i);
                assert(self.members() =~= before.remove(i as int));
                assert forall|x: Seq<char>|
                    #![trigger self.members().to_set().contains(x)]
                    self.members().to_set().contains(x) == before.to_set().remove(a).contains(x) by {
                    if self.members().contains(x) {
                        let j = choose|j: int|
                            0 <= j < self.members().len() && self.members()[j] == x;
                        if j < i {
                            assert(before[j] == x);
                        } else {
                            assert(before[j + 1] == x);
                            assert(j + 1 != i);
                        }
                    }
                    if before.contains(x) && x != a {
                        let j = choose|j: int| 0 <= j < before.len() && before[j] == x;
                        assert(j != i);
                        if j < i {
                            assert(self.members()[j] == x);
                        } else {
                            assert(self.members()[j - 1] == x);
                        }
                    }
                }
                assert(self.members().to_set() =~= before.to_set().remove(a));
                return;
            }
            i = i + 1;
        }
        assert(!before.contains(a));
        assert(before.to_set() =~= before.to_set().remove(a));
    }

    /// Whether both sets have the same members.
    pub fn same_members(&self, other: &AddressSet) -> (same: bool)
        ensures
            same == (self@ == other@),
    {
        let mut i: usize = 0;
        while i < self.items.len()
            invariant
                i <= self.items@.len(),
                forall|j: int| 0 <= j < i ==> other@.contains(#[trigger] self.members()[j]),
            decreases self.items@.len() - i,
        {
            if !other.contains(&self.items[i]) {
                assert(self@.contains(self.members()[i as int]));
                return false;
            }
            i = i + 1;
        }
        let mut k: usize = 0;
        while k < other.items.len()
            invariant
                k <= other.items@.len(),
                forall|j: int| 0 <= j < k ==> self@.contains(#[trigger] other.members()[j]),
            decreases other.items@.len() - k,
        {
            if !self.contains(&other.items[k]) {
                assert(other@.contains(other.members()[k as int]));
                return false;
            }
            k = k + 1;
        }
        assert(self@ =~= other@);
        true
    }

    /// A copy of the set.
    pub fn duplicate(&self) -> (copy: AddressSet)
        requires
            self.wf(),
        ensures
            copy.wf(),
            copy@ == self@,
    {
        let mut items: Vec<String> = Vec::new();
        let mut i: usize = 0;
        while i < self.items.len()
            invariant
                i <= self.items@.len(),
                strings_view(items@) == self.members().take(i as int),
            decreases self.items@.len() - i,
        {
            items.push(self.items[i].clone());
            assert(self.members().take(i as int + 1) =~= self.members().take(i as int).push(
                self.members()[i as int],
            ));
            assert(strings_view(items@) =~= self.members().take(i as int).push(
                self.members()[i as int],
            ));
            i = i + 1;
        }
        assert(self.members().take(i as int) =~= self.members());
        let copy = AddressSet { items };
        assert(copy.members() =~= self.members());
        copy
    }

    /// The members as a vector without repetitions.
    pub fn to_vec(&self) -> (out: Vec<String>)
        requires
            self.wf(),
        ensures
            strings_view(out@).to_set() == self@,
            strings_view(out@).no_duplicates(),
    {
        self.duplicate().items
    }
}

impl View for AddressSet {
    type V = Set<Seq<char>>;

    closed spec fn view(&self) -> Set<Seq<char>> {
        self.members().to_set()
    }
}

/// A finite map from window addresses to small values.
pub struct AddressTable<V: Copy> {
    entries: Vec<(String, V)>,
}

impl<V: Copy> AddressTable<V> {
    /// The keys, in insertion order.
    pub closed spec fn keys(&self) -> Seq<Seq<char>> {
        self.entries@.map_values(|e: (String, V)| e.0@)
    }

    /// No member is stored twice.
    pub closed spec fn wf(&self) -> bool {
        self.keys().no_duplicates()
    }

    /// The empty table.
    pub fn new() -> (t: Self)
        ensures
            t.wf(),
            t@ == Map::<Seq<char>, V>::empty(),
    {
        let t = AddressTable { entries: Vec::new() };
        assert(t@ =~= Map::<Seq<char>, V>::empty());
        t
    }

    /// Index of `key` among the entries, if present.
    fn find(&self, key: &String) -> (found: Option<usize>)
        ensures
            match found {
                Some(i) => i < self.entries@.len() && self.keys()[i as int] == key@,
                None => !self.keys().contains(key@),
            },
    {
        let mut i: usize = 0;
        while i < self.entries.len()
            invariant
                i <= self.entries@.len(),
                forall|j: int| 0 <= j < i ==> self.keys()[j] != key@,
            decreases self.entries@.len() - i,
        {
            if self.entries[i].0 == *key {
                return Some(i);
            }
            i = i + 1;
        }
        None
    }

    proof fn lemma_index(&self, i: int)
        requires
            0 <= i < self.entries@.len(),
            self.wf(),
        ensures
            self@.contains_key(self.keys()[i]),
            self@[self.keys()[i]] == self.entries@[i].1,
    {
        let k = self.keys()[i];
        assert(self.keys().contains(k));
        let j = self.keys().index_of(k);
        assert(self.keys()[j] == k);
    }

    /// The value stored under `key`.
    pub fn get(&self, key: &String) -> (value: Option<V>)
        requires
            self.wf(),
        ensures
            value == (if self@.contains_key(key@) {
                Some(self@[key@])
            } else {
                None::<V>
            }),
    {
        match self.find(key) {
            Some(i) => {
                proof {
                    self.lemma_index(i as int);
                }
                Some(self.entries[i].1)
            },
            None => None,
        }
    }

    /// Stores `value` under `key`, replacing any earlier value.
    pub fn insert(&mut self, key: String, value: V)
        requires
            old(self).wf(),
        ensures
            final(self).wf(),
            final(self)@ == old(self)@.insert(key@, value),
    {
        let ghost old_map = self@;
        let ghost k = key@;
        match self.find(&key) {
            Some(i) => {
                let ghost old_keys = self.keys();
                self.entries.set(i, (key, value));
                assert(self.keys() =~= old_keys);
                assert forall|q: Seq<char>|
                    #![trigger self@.contains_key(q)]
                    self@.contains_key(q) == old_map.insert(k, value).contains_key(q) by {}
                assert forall|q: Seq<char>| self@.contains_key(q) implies self@[q] == old_map.insert(
                    k,
                    value,
                )[q] by {
                    let j = self.keys().index_of(q);
                    self.lemma_index(j);
                    if q != k {
                        assert(j != i);
                        old(self).lemma_index(j);
                    }
                }
                assert(self@ =~= old_map.insert(k, value));
            },
            None => {
                let ghost old_keys = self.keys();
                self.entries.push((key, value));
                assert(self.keys() =~= old_keys.push(k));
                assert forall|q: Seq<char>|
                    #![trigger self@.contains_key(q)]
                    self@.contains_key(q) == old_map.insert(k, value).contains_key(q) by {
                    if old_keys.contains(q) {
                        let j = choose|j: int| 0 <= j < old_keys.len() && old_keys[j] == q;
                        assert(self.keys()[j] == q);
                    }
                    if q == k {
                        assert(self.keys()[old_keys.len() as int] == k);
                    }
                }
                assert forall|q: Seq<char>| self@.contains_key(q) implies self@[q] == old_map.insert(
                    k,
                    value,
                )[q] by {
                    let j = self.keys().index_of(q);
                    self.lemma_index(j);
                    if q != k {
                        old(self).lemma_index(j);
                    } else {
                        self.lemma_index(old_keys.len() as int);
                    }
                }
                assert(self@ =~= old_map.insert(k, value));
            },
        }
    }

    /// Keeps only the entries whose key is in `keep`.
    pub fn retain_keys(&mut self, keep: &AddressSet)
        requires
            old(self).wf(),
        ensures
            final(self).wf(),
            final(self)@ == old(self)@.restrict(keep@),
    {
        let ghost old_map = self@;
        let ghost target = old_map.restrict(keep@);
        let mut kept: Vec<(String, V)> = Vec::new();
        let mut i: usize = 0;
        while i < self.entries.len()
            invariant
                i <= self.entries@.len(),
                self.keys().no_duplicates(),
                old_map == self@,
                target == old_map.restrict(keep@),
                kept@.map_values(|e: (String, V)| e.0@).no_duplicates(),
                forall|j: int|
                    #![trigger kept@[j]]
                    0 <= j < kept@.len() ==> {
                        &&& target.contains_key(kept@[j].0@)
                        &&& target[kept@[j].0@] == kept@[j].1
                        &&& self.keys().take(i as int).contains(kept@[j].0@)
                    },
                forall|m: int|
                    0 <= m < i && keep@.contains(#[trigger] self.keys()[m]) ==> kept@.map_values(
                        |e: (String, V)| e.0@,
                    ).contains(self.keys()[m]),
            decreases self.entries@.len() - i,
        {
            let ghost kept_before = kept@;
            if keep.contains(&self.entries[i].0) {
                proof {
                    self.lemma_index(i as int);
                }
                let key = self.entries[i].0.clone();
                let value = self.entries[i].1;
                assert(self.keys()[i as int] == self.entries@[i as int].0@);
                assert(keep@.contains(self.keys()[i as int]));
                assert(old_map.contains_key(self.keys()[i as int]));
                assert(target.contains_key(self.keys()[i as int]));
                assert(target[self.keys()[i as int]] == value);
                kept.push((key, value));
                let ghost ks = kept@.map_values(|e: (String, V)| e.0@);
                assert(ks =~= kept_before.map_values(|e: (String, V)| e.0@).push(
                    self.keys()[i as int],
                ));
                assert forall|a: int, b: int|
                    0 <= a < ks.len() && 0 <= b < ks.len() && a != b implies ks[a] != ks[b] by {
                    if a == ks.len() - 1 || b == ks.len() - 1 {
                        let other = if a == ks.len() - 1 {
                            b
                        } else {
                            a
                        };
                        assert(ks[other] == kept_before[other].0@);
                        assert(self.keys().take(i as int).contains(kept_before[other].0@));
                        let m = choose|m: int|
                            0 <= m < i && self.keys().take(i as int)[m] == kept_before[other].0@;
                        assert(self.keys()[m] == self.keys().take(i as int)[m]);
                        assert(m != i);
                    }
                }
                assert forall|j: int| 0 <= j < kept@.len() implies self.keys().take(i as int + 1).contains(
                    #[trigger] kept@[j].0@,
                ) by {
                    if j == kept@.len() - 1 {
                        assert(self.keys().take(i as int + 1)[i as int] == kept@[j].0@);
                    } else {
                        assert(kept@[j] == kept_before[j]);
                        assert(self.keys().take(i as int).contains(kept_before[j].0@));
                        let m = choose|m: int|
                            0 <= m < i && self.keys().take(i as int)[m] == kept_before[j].0@;
                        assert(self.keys().take(i as int + 1)[m] == kept@[j].0@);
                    }
                }
                assert forall|m: int|
                    0 <= m < i + 1 && keep@.contains(#[trigger] self.keys()[m]) implies ks.contains(
                    self.keys()[m],
                ) by {
                    if m == i {
                        assert(ks[ks.len() - 1] == self.keys()[m]);
                    } else {
                        let kb = kept_before.map_values(|e: (String, V)| e.0@);
                        let w = choose|w: int| 0 <= w < kb.len() && kb[w] == self.keys()[m];
                        assert(ks[w] == self.keys()[m]);
                    }
                }
            }
            assert forall|j: int| 0 <= j < kept@.len() implies self.keys().take(i as int + 1).contains(
                #[trigger] kept@[j].0@,
            ) by {
                if self.keys().take(i as int).contains(kept@[j].0@) {
                    let m = choose|m: int|
                        0 <= m < i && self.keys().take(i as int)[m] == kept@[j].0@;
                    assert(self.keys().take(i as int + 1)[m] == kept@[j].0@);
                } else {
                    assert(self.keys().take(i as int + 1)[i as int] == kept@[j].0@);
                }
            }
            i = i + 1;
        }
        self.entries = kept;
        assert forall|q: Seq<char>| #![trigger self@.contains_key(q)]
            self@.contains_key(q) == target.contains_key(q) by {
            if target.contains_key(q) {
                assert(old_map.contains_key(q));
                assert(old_map.dom().contains(q));
            }
        }
        assert forall|q: Seq<char>| self@.contains_key(q) implies self@[q] == target[q] by {
            let j = self.keys().index_of(q);
            self.lemma_index(j);
        }
        assert(self@ =~= target);
    }
}

impl<V: Copy> View for AddressTable<V> {
    type V = Map<Seq<char>, V>;

    closed spec fn view(&self) -> Map<Seq<char>, V> {
        Map::new(
            |k: Seq<char>| self.keys().contains(k),
            |k: Seq<char>| self.entries@[self.keys().index_of(k)].1,
        )
    }
}


/// The character sequences of a sequence of string pairs.
pub open spec fn pairs_view(v: Seq<(String, String)>) -> Seq<(Seq<char>, Seq<char>)> {
    v.map_values(|p: (String, String)| (p.0@, p.1@))
}

/// A set of (address, monitor) pairs.
pub struct PairSet {
    items: Vec<(String, String)>,
}

impl PairSet {
    /// The members, in insertion order.
    pub closed spec fn members(&self) -> Seq<(Seq<char>, Seq<char>)> {
        pairs_view(self.items@)
    }

    /// No pair is stored twice.
    pub closed spec fn wf(&self) -> bool {
        self.members().no_duplicates()
    }

    /// The empty set.
    pub fn new() -> (s: Self)
        ensures
            s.wf(),
            s@ == Set::<(Seq<char>, Seq<char>)>::empty(),
    {
        let s = PairSet { items: Vec::new() };
        assert(s.members().to_set() =~= Set::<(Seq<char>, Seq<char>)>::empty());
        s
    }

    fn find(&self, first: &String, second: &String) -> (found: Option<usize>)
        ensures
            match found {
                Some(i) => i < self.items@.len() && self.members()[i as int] == (first@, second@),
                None => !self.members().contains((first@, second@)),
            },
    {
        let mut i: usize = 0;
        while i < self.items.len()
            invariant
                i <= self.items@.len(),
                forall|j: int| 0 <= j < i ==> self.members()[j] != (first@, second@),
            decreases self.items@.len() - i,
        {
            if self.items[i].0 == *first && self.items[i].1 == *second {
                return Some(i);
            }
            i = i + 1;
        }
        None
    }

    /// Adds the pair; returns whether it was new.
    pub fn insert(&mut self, first: String, second: String) -> (added: bool)
        requires
            old(self).wf(),
        ensures
            final(self).wf(),
            added == !old(self)@.contains((first@, second@)),
            final(self)@ == old(self)@.insert((first@, second@)),
    {
        if self.find(&first, &second).is_some() {
            return false;
        }
        let ghost a = (first@, second@);
        let ghost before = self.members();
        self.items.push((first, second));
        assert(self.members() =~= before.push(a));
        assert forall|x: (Seq<char>, Seq<char>)|
            #![trigger self.members().to_set().contains(x)]
            self.members().to_set().contains(x) == before.to_set().insert(a).contains(x) by {
            if before.contains(x) {
                let j = choose|j: int| 0 <= j < before.len() && before[j] == x;
                assert(self.members()[j] == x);
            }
            if x == a {
                assert(self.members()[before.len() as int] == a);
            }
        }
        assert(self.members().to_set() =~= before.to_set().insert(a));
        true
    }

    /// Removes the pair if present.
    pub fn remove(&mut self, first: &String, second: &String)
        requires
            old(self).wf(),
        ensures
            final(self).wf(),
            final(self)@ == old(self)@.remove((first@, second@)),
    {
        let ghost a = (first@, second@);
        let ghost before = self.members();
        match self.find(first, second) {
            Some(i) => {
                self.items.remove(i);
                assert(self.members() =~= before.remove(i as int));
                assert forall|x: (Seq<char>, Seq<char>)|
                    #![trigger self.members().to_set().contains(x)]
                    self.members().to_set().contains(x) == before.to_set().remove(a).contains(x) by {
                    if self.members().contains(x) {
                        let j = choose|j: int|
                            0 <= j < self.members().len() && self.members()[j] == x;
                        if j < i {
                            assert(before[j] == x);
                        } else {
                            assert(before[j + 1] == x);
                            assert(j + 1 != i);
                        }
                    }
                    if before.contains(x) && x != a {
                        let j = choose|j: int| 0 <= j < before.len() && before[j] == x;
                        assert(j != i);
                        if j < i {
                            assert(self.members()[j] == x);
                        } else {
                            assert(self.members()[j - 1] == x);
                        }
                    }
                }
                assert(self.members().to_set() =~= before.to_set().remove(a));
            },
            None => {
                assert(before.to_set() =~= before.to_set().remove(a));
            },
        }
    }

    /// Whether some pair has `first` as its first component.
    pub fn has_first(&self, first: &String) -> (found: bool)
        ensures
            found == exists|m: Seq<char>| self@.contains((first@, m)),
    {
        let mut i: usize = 0;
        while i < self.items.len()
            invariant
                i <= self.items@.len(),
                forall|j: int| 0 <= j < i ==> self.members()[j].0 != first@,
            decreases self.items@.len() - i,
        {
            if self.items[i].0 == *first {
                assert(self.members()[i as int] == (first@, self.members()[i as int].1));
                assert(self@.contains((first@, self.members()[i as int].1)));
                return true;
            }
            i = i + 1;
        }
        assert forall|m: Seq<char>| !self@.contains((first@, m)) by {
            if self.members().contains((first@, m)) {
                let j = choose|j: int|
                    0 <= j < self.members().len() && self.members()[j] == (first@, m);
            }
        }
        false
    }
}

impl View for PairSet {
    type V = Set<(Seq<char>, Seq<char>)>;

    closed spec fn view(&self) -> Set<(Seq<char>, Seq<char>)> {
        self.members().to_set()
    }
}

} // verus!
