//! A map keyed by names, kept as a list of entries with distinct keys.
use vstd::prelude::*;

verus! {

/// Values that can be compared by their views and copied at run time.
pub trait ViewEq: View + Sized {
    fn view_eq(&self, other: &Self) -> (b: bool)
        ensures
            b == (self@ == other@),
    ;

    fn duplicate(&self) -> (r: Self)
        ensures
            r@ == self@,
    ;
}

impl ViewEq for String {
    fn view_eq(&self, other: &Self) -> (b: bool) {
        *self == *other
    }

    fn duplicate(&self) -> (r: Self) {
        self.clone()
    }
}

impl ViewEq for (u32, u32) {
    fn view_eq(&self, other: &Self) -> (b: bool) {
        self.0 == other.0 && self.1 == other.1
    }

    fn duplicate(&self) -> (r: Self) {
        (self.0, self.1)
    }
}

impl ViewEq for crate::glenums::AttribType {
    fn view_eq(&self, other: &Self) -> (b: bool) {
        *self == *other
    }

    fn duplicate(&self) -> (r: Self) {
        *self
    }
}

/// The map that a list of entries stands for; a later entry wins over an earlier one.
pub open spec fn entries_map<V: View>(s: Seq<(String, V)>) -> Map<Seq<char>, V::V>
    decreases s.len(),
{
    if s.len() == 0 {
        Map::empty()
    } else {
        entries_map(s.subrange(0, s.len() - 1)).insert(s[s.len() - 1].0@, s[s.len() - 1].1@)
    }
}

/// No key occurs twice in the entries.
pub open spec fn distinct_keys<V>(s: Seq<(String, V)>) -> bool {
    forall|i: int, j: int| 0 <= i < j < s.len() ==> #[trigger] s[i].0@ != #[trigger] s[j].0@
}

/// A key is in the map exactly when some entry holds it, and then the map
/// holds that entry's value.
pub proof fn lemma_entries_map<V: View>(s: Seq<(String, V)>)
    requires
        distinct_keys(s),
    ensures
        forall|k: Seq<char>| #[trigger]
            entries_map(s).contains_key(k) <==> exists|i: int| 0 <= i < s.len() && s[i].0@ == k,
        forall|i: int| 0 <= i < s.len() ==> #[trigger] entries_map(s)[s[i].0@] == s[i].1@,
    decreases s.len(),
{
    if s.len() > 0 {
        let p = s.subrange(0, s.len() - 1);
        assert(distinct_keys(p)) by {
            assert forall|i: int, j: int| 0 <= i < j < p.len() implies #[trigger] p[i].0@ != #[trigger] p[j].0@ by {
                assert(p[i] == s[i] && p[j] == s[j]);
            }
        }
        lemma_entries_map(p);
        assert(entries_map(s) == entries_map(p).insert(s[s.len() - 1].0@, s[s.len() - 1].1@));
        assert forall|k: Seq<char>| #[trigger]
            entries_map(s).contains_key(k) <==> exists|i: int| 0 <= i < s.len() && s[i].0@ == k by {
            if entries_map(s).contains_key(k) {
                if k != s[s.len() - 1].0@ {
                    assert(entries_map(p).contains_key(k));
                    let i = choose|i: int| 0 <= i < p.len() && p[i].0@ == k;
                    assert(s[i] == p[i]);
                } else {
                    assert(s[s.len() - 1].0@ == k);
                }
            }
            if exists|i: int| 0 <= i < s.len() && s[i].0@ == k {
                let i = choose|i: int| 0 <= i < s.len() && s[i].0@ == k;
                if i < s.len() - 1 {
                    assert(p[i] == s[i]);
                    assert(entries_map(p).contains_key(p[i].0@));
                }
            }
        }
        assert forall|i: int| 0 <= i < s.len() implies #[trigger] entries_map(s)[s[i].0@] == s[i].1@ by {
            if i < s.len() - 1 {
                assert(p[i] == s[i]);
                assert(s[i].0@ != s[s.len() - 1].0@);
                assert(entries_map(p)[p[i].0@] == p[i].1@);
            }
        }
    }
}

pub struct NameMap<V> {
    entries: Vec<(String, V)>,
}

impl<V: View> View for NameMap<V> {
    type V = Map<Seq<char>, V::V>;

    closed spec fn view(&self) -> Map<Seq<char>, V::V> {
        entries_map(self.entries@)
    }
}

impl<V: View> NameMap<V> {
    pub closed spec fn wf(&self) -> bool {
        distinct_keys(self.entries@)
    }

    /// The entries in insertion order.
    pub closed spec fn spec_entries(&self) -> Seq<(String, V)> {
        self.entries@
    }

    pub proof fn lemma_view(&self)
        requires
            self.wf(),
        ensures
            distinct_keys(self.spec_entries()),
            self@ == entries_map(self.spec_entries()),
            forall|k: Seq<char>| #[trigger]
                self@.contains_key(k) <==> exists|i: int|
                    0 <= i < self.spec_entries().len() && self.spec_entries()[i].0@ == k,
            forall|i: int|
                0 <= i < self.spec_entries().len() ==> #[trigger] self@[self.spec_entries()[i].0@]
                    == self.spec_entries()[i].1@,
    {
        lemma_entries_map(self.entries@);
    }

    pub fn new() -> (m: Self)
        ensures
            m.wf(),
            m@ == Map::<Seq<char>, V::V>::empty(),
            m.spec_entries().len() == 0,
    {
        NameMap { entries: Vec::new() }
    }

    /// The entries in insertion order, for iteration.
    pub fn entries(&self) -> (r: &Vec<(String, V)>)
        ensures
            r@ == self.spec_entries(),
    {
        &self.entries
    }

    fn find(&self, key: &String) -> (r: Option<usize>)
        requires
            self.wf(),
        ensures
            r matches Some(i) ==> i < self.entries@.len() && self.entries@[i as int].0@ == key@,
            r is None ==> forall|i: int| 0 <= i < self.entries@.len() ==> self.entries@[i].0@ != key@,
    {
        let mut i: usize = 0;
        while i < self.entries.len()
            invariant
                i <= self.entries@.len(),
                forall|j: int| 0 <= j < i ==> self.entries@[j].0@ != key@,
            decreases self.entries@.len() - i,
        {
            if self.entries[i].0 == *key {
                return Some(i);
            }
            i = i + 1;
        }
        None
    }

    pub fn contains_key(&self, key: &str) -> (b: bool)
        requires
            self.wf(),
        ensures
            b == self@.contains_key(key@),
    {
        proof {
            lemma_entries_map(self.entries@);
        }
        let key = key.to_owned();
        self.find(&key).is_some()
    }

    pub fn get(&self, key: &str) -> (r: Option<&V>)
        requires
            self.wf(),
        ensures
            r is Some <==> self@.contains_key(key@),
            r matches Some(v) ==> v@ == self@[key@],
    {
        proof {
            lemma_entries_map(self.entries@);
        }
        let key = key.to_owned();
        match self.find(&key) {
            Some(i) => Some(&self.entries[i].1),
            None => None,
        }
    }

    /// Sets the value of `key`, replacing an earlier value of the same key.
    pub fn insert(&mut self, key: String, value: V)
        requires
            old(self).wf(),
        ensures
            final(self).wf(),
            final(self)@ == old(self)@.insert(key@, value@),
    {
        let ghost old_entries = self.entries@;
        proof {
            lemma_entries_map(old_entries);
        }
        match self.find(&key) {
            Some(i) => {
                self.entries.set(i, (key, value));
                let ghost s = self.entries@;
                assert(distinct_keys(s)) by {
                    assert forall|a: int, b: int| 0 <= a < b < s.len() implies #[trigger] s[a].0@ != #[trigger] s[b].0@ by {
                        assert(old_entries[a].0@ != old_entries[b].0@);
                    }
                }
                proof {
                    lemma_entries_map(s);
                    assert(entries_map(s) =~= entries_map(old_entries).insert(s[i as int].0@, s[i as int].1@)) by {
                        assert forall|k: Seq<char>| #[trigger] entries_map(s).contains_key(k) implies entries_map(old_entries).insert(s[i as int].0@, s[i as int].1@).contains_key(k) by {
                            let j = choose|j: int| 0 <= j < s.len() && s[j].0@ == k;
                            if j != i {
                                assert(old_entries[j] == s[j]);
                            }
                        }
                        assert forall|k: Seq<char>| #[trigger] entries_map(old_entries).insert(s[i as int].0@, s[i as int].1@).contains_key(k) implies entries_map(s).contains_key(k) && entries_map(s)[k] == entries_map(old_entries).insert(s[i as int].0@, s[i as int].1@)[k] by {
                            if k == s[i as int].0@ {
                            } else {
                                let j = choose|j: int| 0 <= j < old_entries.len() && old_entries[j].0@ == k;
                                assert(s[j] == old_entries[j]);
                            }
                        }
                    }
                }
            },
            None => {
                self.entries.push((key, value));
                let ghost s = self.entries@;
                assert(s.subrange(0, s.len() - 1) =~= old_entries);
                assert(distinct_keys(s)) by {
                    assert forall|a: int, b: int| 0 <= a < b < s.len() implies #[trigger] s[a].0@ != #[trigger] s[b].0@ by {
                        if b < s.len() - 1 {
                            assert(old_entries[a].0@ != old_entries[b].0@);
                        } else {
                            assert(s[a] == old_entries[a]);
                        }
                    }
                }
            },
        }
    }
}


impl ViewEq for (u16, String) {
    fn view_eq(&self, other: &Self) -> (b: bool) {
        self.0 == other.0 && self.1 == other.1
    }

    fn duplicate(&self) -> (r: Self) {
        (self.0, self.1.clone())
    }
}

/// A map whose keys are told apart by their views, kept as a list of entries
/// with distinct keys beside the map they stand for.
pub struct ViewMap<K: View, V: View> {
    entries: Vec<(K, V)>,
    contents: Ghost<Map<K::V, V::V>>,
}

impl<K: View, V: View> View for ViewMap<K, V> {
    type V = Map<K::V, V::V>;

    closed spec fn view(&self) -> Map<K::V, V::V> {
        self.contents@
    }
}

impl<K: ViewEq, V: View> ViewMap<K, V> {
    /// The entries have distinct keys and hold exactly the map.
    pub closed spec fn wf(&self) -> bool {
        &&& forall|i: int, j: int|
            0 <= i < j < self.entries@.len() ==> #[trigger] self.entries@[i].0@ != #[trigger] self.entries@[j].0@
        &&& forall|k: K::V| #[trigger]
            self.contents@.contains_key(k) <==> exists|i: int| 0 <= i < self.entries@.len() && #[trigger] self.entries@[i].0@ == k
        &&& forall|i: int| 0 <= i < self.entries@.len() ==> #[trigger] self.contents@[self.entries@[i].0@] == self.entries@[i].1@
    }

    /// The entries in the order in which their keys were first set.
    pub closed spec fn spec_entries(&self) -> Seq<(K, V)> {
        self.entries@
    }

    pub proof fn lemma_view(&self)
        requires
            self.wf(),
        ensures
            forall|k: K::V| #[trigger]
                self@.contains_key(k) <==> exists|i: int|
                    0 <= i < self.spec_entries().len() && #[trigger] self.spec_entries()[i].0@ == k,
            forall|i: int|
                0 <= i < self.spec_entries().len() ==> #[trigger] self@[self.spec_entries()[i].0@]
                    == self.spec_entries()[i].1@,
    {
    }

    pub fn new() -> (m: Self)
        ensures
            m.wf(),
            m@ == Map::<K::V, V::V>::empty(),
    {
        ViewMap { entries: Vec::new(), contents: Ghost(Map::empty()) }
    }

    /// The entries, for iteration.
    pub fn entries(&self) -> (r: &Vec<(K, V)>)
        ensures
            r@ == self.spec_entries(),
    {
        &self.entries
    }

    fn find(&self, key: &K) -> (r: Option<usize>)
        requires
            self.wf(),
        ensures
            r matches Some(i) ==> i < self.entries@.len() && self.entries@[i as int].0@ == key@,
            r is None ==> !self@.contains_key(key@),
    {
        let mut i: usize = 0;
        while i < self.entries.len()
            invariant
                self.wf(),
                i <= self.entries@.len(),
                forall|j: int| 0 <= j < i ==> self.entries@[j].0@ != key@,
            decreases self.entries@.len() - i,
        {
            if self.entries[i].0.view_eq(key) {
                return Some(i);
            }
            i = i + 1;
        }
        None
    }

    pub fn get(&self, key: &K) -> (r: Option<&V>)
        requires
            self.wf(),
        ensures
            r is Some <==> self@.contains_key(key@),
            r matches Some(v) ==> v@ == self@[key@],
    {
        match self.find(key) {
            Some(i) => Some(&self.entries[i].1),
            None => None,
        }
    }

    /// Sets the value of `key`, replacing an earlier value of the same key.
    pub fn insert(&mut self, key: K, value: V)
        requires
            old(self).wf(),
        ensures
            final(self).wf(),
            final(self)@ == old(self)@.insert(key@, value@),
    {
        let ghost old_entries = self.entries@;
        let ghost m = self.contents@.insert(key@, value@);
        match self.find(&key) {
            Some(i) => {
                self.entries.set(i, (key, value));
                self.contents = Ghost(m);
                assert forall|k: K::V| #[trigger] m.contains_key(k) implies exists|j: int|
                    0 <= j < self.entries@.len() && #[trigger] self.entries@[j].0@ == k by {
                    if k != self.entries@[i as int].0@ {
                        let j = choose|j: int| 0 <= j < old_entries.len() && #[trigger] old_entries[j].0@ == k;
                        assert(self.entries@[j] == old_entries[j]);
                    }
                }
                assert forall|a: int, b: int| 0 <= a < b < self.entries@.len() implies #[trigger] self.entries@[a].0@
                    != #[trigger] self.entries@[b].0@ by {
                    assert(old_entries[a].0@ != old_entries[b].0@);
                }
                assert forall|k: K::V| (exists|j: int| 0 <= j < self.entries@.len() && #[trigger] self.entries@[j].0@ == k)
                    implies #[trigger] m.contains_key(k) by {
                    let j = choose|j: int| 0 <= j < self.entries@.len() && #[trigger] self.entries@[j].0@ == k;
                    if j != i {
                        assert(old_entries[j] == self.entries@[j]);
                    }
                }
                assert forall|j: int| 0 <= j < self.entries@.len() implies #[trigger] m[self.entries@[j].0@]
                    == self.entries@[j].1@ by {
                    if j != i {
                        assert(old_entries[j] == self.entries@[j]);
                        assert(old_entries[j].0@ != old_entries[i as int].0@);
                    }
                }
            },
            None => {
                self.entries.push((key, value));
                self.contents = Ghost(m);
                let ghost n = old_entries.len() as int;
                assert forall|k: K::V| #[trigger] m.contains_key(k) implies exists|j: int|
                    0 <= j < self.entries@.len() && #[trigger] self.entries@[j].0@ == k by {
                    if k != key@ {
                        let j = choose|j: int| 0 <= j < old_entries.len() && #[trigger] old_entries[j].0@ == k;
                        assert(self.entries@[j] == old_entries[j]);
                    } else {
                        assert(self.entries@[n].0@ == k);
                    }
                }
                assert forall|a: int, b: int| 0 <= a < b < self.entries@.len() implies #[trigger] self.entries@[a].0@
                    != #[trigger] self.entries@[b].0@ by {
                    assert(self.entries@[a] == old_entries[a]);
                    if b < n {
                        assert(self.entries@[b] == old_entries[b]);
                    } else {
                        assert(old_entries[a].0@ != key@);
                    }
                }
                assert forall|k: K::V| (exists|j: int| 0 <= j < self.entries@.len() && #[trigger] self.entries@[j].0@ == k)
                    implies #[trigger] m.contains_key(k) by {
                    let j = choose|j: int| 0 <= j < self.entries@.len() && #[trigger] self.entries@[j].0@ == k;
                    if j < n {
                        assert(old_entries[j] == self.entries@[j]);
                    }
                }
                assert forall|j: int| 0 <= j < self.entries@.len() implies #[trigger] m[self.entries@[j].0@]
                    == self.entries@[j].1@ by {
                    if j < n {
                        assert(old_entries[j] == self.entries@[j]);
                        assert(old_entries[j].0@ != key@);
                    }
                }
            },
        }
    }

    /// Removes `key` and its value, if the map holds it.
    pub fn remove(&mut self, key: &K)
        requires
            old(self).wf(),
        ensures
            final(self).wf(),
            final(self)@ == old(self)@.remove(key@),
    {
        let ghost old_entries = self.entries@;
        let ghost m = self.contents@.remove(key@);
        match self.find(key) {
            Some(i) => {
                let _ = self.entries.remove(i);
                self.contents = Ghost(m);
                let ghost e = self.entries@;
                assert forall|j: int| 0 <= j < e.len() implies #[trigger] e[j] == old_entries[if j < i { j } else { j + 1 }] by {}
                assert forall|k: K::V| #[trigger] m.contains_key(k) implies exists|j: int|
                    0 <= j < e.len() && #[trigger] e[j].0@ == k by {
                    let j = choose|j: int| 0 <= j < old_entries.len() && #[trigger] old_entries[j].0@ == k;
                    assert(j != i);
                    if j < i {
                        assert(e[j] == old_entries[j]);
                    } else {
                        assert(e[j - 1] == old_entries[j]);
                    }
                }
                assert forall|a: int, b: int| 0 <= a < b < e.len() implies #[trigger] e[a].0@ != #[trigger] e[b].0@ by {
                    let a1 = if a < i { a } else { a + 1 };
                    let b1 = if b < i { b } else { b + 1 };
                    assert(e[a] == old_entries[a1]);
                    assert(e[b] == old_entries[b1]);
                    assert(old_entries[a1].0@ != old_entries[b1].0@);
                }
                assert forall|k: K::V| (exists|j: int| 0 <= j < e.len() && #[trigger] e[j].0@ == k)
                    implies #[trigger] m.contains_key(k) by {
                    let j = choose|j: int| 0 <= j < e.len() && #[trigger] e[j].0@ == k;
                    let j1 = if j < i { j } else { j + 1 };
                    assert(e[j] == old_entries[j1]);
                    assert(old_entries[j1].0@ != old_entries[i as int].0@);
                }
                assert forall|j: int| 0 <= j < e.len() implies #[trigger] m[e[j].0@] == e[j].1@ by {
                    let j1 = if j < i { j } else { j + 1 };
                    assert(e[j] == old_entries[j1]);
                    assert(old_entries[j1].0@ != old_entries[i as int].0@);
                }
            },
            None => {
                assert(m =~= self.contents@);
            },
        }
    }
}

} // verus!
