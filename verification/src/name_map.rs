//! A small map keyed by borrowed names, kept in insertion order.
//!
//! Schemas, input bindings and outputs are keyed by names. A `NameMap`
//! behaves as a map from the characters of a name to a value; inserting a
//! name that is already present replaces its value in place, and new names
//! are appended, so the entries keep the order in which names first came.
use vstd::prelude::*;

verus! {

/// Equality of two string slices, character by character.
pub fn str_eq(a: &str, b: &str) -> (r: bool)
    ensures
        r == (a@ == b@),
{
    let x = a.to_owned();
    let y = b.to_owned();
    x == y
}

/// The first components of a sequence of pairs.
pub open spec fn firsts<K, V>(s: Seq<(K, V)>) -> Seq<K> {
    s.map_values(|e: (K, V)| e.0)
}

/// The map that a sequence of pairs denotes: later pairs override earlier ones.
pub open spec fn map_of<K, V>(s: Seq<(K, V)>) -> Map<K, V>
    decreases s.len(),
{
    if s.len() == 0 {
        Map::empty()
    } else {
        map_of(s.drop_last()).insert(s.last().0, s.last().1)
    }
}

/// A key is in the denoted map exactly when some pair carries it.
pub proof fn lemma_map_of_dom<K, V>(s: Seq<(K, V)>, k: K)
    ensures
        map_of(s).contains_key(k) <==> exists|i: int| 0 <= i < s.len() && s[i].0 == k,
    decreases s.len(),
{
    if s.len() > 0 {
        lemma_map_of_dom(s.drop_last(), k);
        if map_of(s).contains_key(k) && s.last().0 != k {
            let i = choose|i: int| 0 <= i < s.drop_last().len() && s.drop_last()[i].0 == k;
            assert(s[i].0 == k);
        }
        if exists|i: int| 0 <= i < s.len() && s[i].0 == k {
            let i = choose|i: int| 0 <= i < s.len() && s[i].0 == k;
            if i < s.len() - 1 {
                assert(s.drop_last()[i].0 == k);
            }
        }
    }
}

/// With distinct keys, each pair's key maps to that pair's value.
pub proof fn lemma_map_of_index<K, V>(s: Seq<(K, V)>, i: int)
    requires
        firsts(s).no_duplicates(),
        0 <= i < s.len(),
    ensures
        map_of(s).contains_key(s[i].0),
        map_of(s)[s[i].0] == s[i].1,
    decreases s.len(),
{
    if i < s.len() - 1 {
        assert(firsts(s.drop_last()) =~= firsts(s).drop_last());
        lemma_map_of_index(s.drop_last(), i);
        assert(firsts(s)[i] == s[i].0);
        assert(firsts(s)[s.len() - 1] == s.last().0);
    }
}

/// Replacing the value of a pair updates the denoted map at that key.
pub proof fn lemma_map_of_update<K, V>(s: Seq<(K, V)>, i: int, v: V)
    requires
        firsts(s).no_duplicates(),
        0 <= i < s.len(),
    ensures
        map_of(s.update(i, (s[i].0, v))) == map_of(s).insert(s[i].0, v),
        firsts(s.update(i, (s[i].0, v))) == firsts(s),
    decreases s.len(),
{
    let t = s.update(i, (s[i].0, v));
    assert(firsts(t) =~= firsts(s));
    if i == s.len() - 1 {
        assert(t.drop_last() =~= s.drop_last());
        let m = map_of(s.drop_last());
        assert(map_of(s).insert(s[i].0, v) =~= m.insert(s[i].0, v));
    } else {
        assert(firsts(s.drop_last()) =~= firsts(s).drop_last());
        assert(t.drop_last() =~= s.drop_last().update(i, (s[i].0, v)));
        lemma_map_of_update(s.drop_last(), i, v);
        assert(firsts(s)[i] == s[i].0);
        assert(firsts(s)[s.len() - 1] == s.last().0);
        assert(s.last().0 != s[i].0);
        assert(map_of(t) =~= map_of(s).insert(s[i].0, v));
    }
}

/// Removing a pair removes its key from the denoted map.
pub proof fn lemma_map_of_remove<K, V>(s: Seq<(K, V)>, i: int)
    requires
        firsts(s).no_duplicates(),
        0 <= i < s.len(),
    ensures
        map_of(s.remove(i)) == map_of(s).remove(s[i].0),
        firsts(s.remove(i)) == firsts(s).remove(i),
    decreases s.len(),
{
    let t = s.remove(i);
    assert(firsts(t) =~= firsts(s).remove(i));
    if i == s.len() - 1 {
        assert(t =~= s.drop_last());
        lemma_map_of_dom(s.drop_last(), s[i].0);
        if map_of(s.drop_last()).contains_key(s[i].0) {
            let j = choose|j: int| 0 <= j < s.drop_last().len() && s.drop_last()[j].0 == s[i].0;
            assert(firsts(s)[j] == firsts(s)[i]);
        }
        assert(map_of(t) =~= map_of(s).remove(s[i].0));
    } else {
        assert(firsts(s.drop_last()) =~= firsts(s).drop_last());
        assert(t.drop_last() =~= s.drop_last().remove(i));
        assert(t.last() == s.last());
        lemma_map_of_remove(s.drop_last(), i);
        assert(firsts(s)[i] == s[i].0);
        assert(firsts(s)[s.len() - 1] == s.last().0);
        assert(s.last().0 != s[i].0);
        assert(map_of(t) =~= map_of(s).remove(s[i].0));
    }
}

/// The keys of the denoted map are exactly the first components of the pairs.
pub proof fn lemma_names_are_keys<K, V>(s: Seq<(K, V)>)
    ensures
        firsts(s).to_set() == map_of(s).dom(),
{
    assert forall|k: K| firsts(s).to_set().contains(k) <==> map_of(s).dom().contains(k) by {
        lemma_map_of_dom(s, k);
        if firsts(s).contains(k) {
            let i = choose|i: int| 0 <= i < firsts(s).len() && firsts(s)[i] == k;
            assert(s[i].0 == k);
        }
        if map_of(s).contains_key(k) {
            let i = choose|i: int| 0 <= i < s.len() && s[i].0 == k;
            assert(firsts(s)[i] == k);
        }
    }
    assert(firsts(s).to_set() =~= map_of(s).dom());
}

/// A name that can key a `NameMap`: a borrowed or an owned string.
pub trait NameKey: View<V = Seq<char>> + Sized {
    /// The name as a string slice.
    fn as_name(&self) -> (r: &str)
        ensures
            r@ == self@,
    ;

    /// A copy of the name.
    fn copy_name(&self) -> (r: Self)
        ensures
            r@ == self@,
    ;
}

impl<'a> NameKey for &'a str {
    fn as_name(&self) -> (r: &str) {
        *self
    }

    fn copy_name(&self) -> (r: Self) {
        *self
    }
}

impl NameKey for String {
    fn as_name(&self) -> (r: &str) {
        self.as_str()
    }

    fn copy_name(&self) -> (r: Self) {
        self.clone()
    }
}

/// A map from names to values, in the order in which names were first inserted.
#[derive(Debug)]
pub struct NameMap<K: NameKey, V> {
    entries: Vec<(K, V)>,
}

/// The entries of a name map, each name taken by its characters.
pub open spec fn name_pairs<K: View<V = Seq<char>>, V>(s: Seq<(K, V)>) -> Seq<(Seq<char>, V)> {
    s.map_values(|e: (K, V)| (e.0@, e.1))
}

impl<K: NameKey, V> NameMap<K, V> {
    #[verifier::type_invariant]
    closed spec fn names_distinct(self) -> bool {
        firsts(name_pairs(self.entries@)).no_duplicates()
    }

    /// The entries, in order, each name taken by its characters.
    pub closed spec fn pairs(&self) -> Seq<(Seq<char>, V)> {
        name_pairs(self.entries@)
    }

    /// The names, in order.
    pub open spec fn names(&self) -> Seq<Seq<char>> {
        firsts(self.pairs())
    }

    /// An empty map.
    pub fn new() -> (m: Self)
        ensures
            m.pairs() == Seq::<(Seq<char>, V)>::empty(),
            m@ == Map::<Seq<char>, V>::empty(),
    {
        let m = NameMap { entries: Vec::new() };
        assert(m.pairs() =~= Seq::<(Seq<char>, V)>::empty());
        m
    }

    /// The number of entries; the names are distinct and are the keys of the map.
    pub fn len(&self) -> (n: usize)
        ensures
            n == self.pairs().len(),
            self.names().no_duplicates(),
            self@ == map_of(self.pairs()),
    {
        proof {
            use_type_invariant(self);
        }
        self.entries.len()
    }

    /// The name of the entry at position `i`.
    pub fn key_at(&self, i: usize) -> (k: &K)
        requires
            i < self.pairs().len(),
        ensures
            k@ == self.pairs()[i as int].0,
    {
        &self.entries[i].0
    }

    /// The value of the entry at position `i`.
    pub fn value_at(&self, i: usize) -> (v: &V)
        requires
            i < self.pairs().len(),
        ensures
            *v == self.pairs()[i as int].1,
    {
        &self.entries[i].1
    }

    /// The position of `key`, if it is present.
    fn find(&self, key: &str) -> (r: Option<usize>)
        ensures
            match r {
                Some(i) => i < self.pairs().len() && self.pairs()[i as int].0 == key@,
                None => forall|i: int| 0 <= i < self.pairs().len() ==> self.pairs()[i].0 != key@,
            },
    {
        let n = self.entries.len();
        let mut i: usize = 0;
        while i < n
            invariant
                n == self.entries@.len(),
                n == self.pairs().len(),
                i <= n,
                forall|j: int| 0 <= j < i ==> self.pairs()[j].0 != key@,
            decreases n - i,
        {
            if str_eq(self.entries[i].0.as_name(), key) {
                return Some(i);
            }
            i = i + 1;
        }
        None
    }

    /// Whether `key` is present.
    pub fn contains_key(&self, key: &str) -> (b: bool)
        ensures
            b == self@.contains_key(key@),
    {
        proof {
            lemma_map_of_dom(self.pairs(), key@);
        }
        let r = self.find(key);
        r.is_some()
    }

    /// The value stored under `key`, if any.
    pub fn get(&self, key: &str) -> (r: Option<&V>)
        ensures
            match r {
                Some(v) => self@.contains_key(key@) && *v == self@[key@],
                None => !self@.contains_key(key@),
            },
    {
        proof {
            use_type_invariant(self);
            lemma_map_of_dom(self.pairs(), key@);
        }
        match self.find(key) {
            Some(i) => {
                proof {
                    lemma_map_of_index(self.pairs(), i as int);
                }
                Some(&self.entries[i].1)
            },
            None => None,
        }
    }

    /// Stores `value` under `key`: an existing entry keeps its place, a new one comes last.
    pub fn insert(&mut self, key: K, value: V)
        ensures
            final(self)@ == old(self)@.insert(key@, value),
            old(self).names().contains(key@) ==> final(self).pairs() == old(self).pairs().update(
                old(self).names().index_of(key@),
                (key@, value),
            ),
            !old(self).names().contains(key@) ==> final(self).pairs() == old(self).pairs().push(
                (key@, value),
            ),
            old(self).names().contains(key@) ==> final(self).names() == old(self).names(),
            !old(self).names().contains(key@) ==> final(self).names() == old(self).names().push(
                key@,
            ),
    {
        proof {
            use_type_invariant(&*self);
        }
        match self.find(key.as_name()) {
            Some(i) => {
                let ghost s = self.pairs();
                proof {
                    lemma_map_of_update(s, i as int, value);
                }
                let mut entries: Vec<(K, V)> = Vec::new();
                std::mem::swap(&mut entries, &mut self.entries);
                entries.set(i, (key, value));
                assert(name_pairs(entries@) =~= s.update(i as int, (s[i as int].0, value)));
                self.entries = entries;
                proof {
                    assert(firsts(s)[i as int] == key@);
                    let j = firsts(s).index_of(key@);
                    assert(firsts(s)[j] == key@);
                    assert(j == i);
                }
            },
            None => {
                let ghost s = self.pairs();
                let mut entries: Vec<(K, V)> = Vec::new();
                std::mem::swap(&mut entries, &mut self.entries);
                entries.push((key, value));
                assert(name_pairs(entries@) =~= s.push((key@, value)));
                assert(firsts(s.push((key@, value))) =~= firsts(s).push(key@));
                assert(s.push((key@, value)).drop_last() =~= s);
                proof {
                    if firsts(s).contains(key@) {
                        let j = choose|j: int| 0 <= j < firsts(s).len() && firsts(s)[j] == key@;
                        assert(s[j].0 == key@);
                    }
                }
                self.entries = entries;
            },
        }
    }

    /// Removes the entry for `key`, returning its value; the other entries keep their order.
    pub fn remove(&mut self, key: &str) -> (r: Option<V>)
        ensures
            final(self)@ == old(self)@.remove(key@),
            match r {
                Some(v) => old(self)@.contains_key(key@) && v == old(self)@[key@],
                None => !old(self)@.contains_key(key@),
            },
    {
        proof {
            use_type_invariant(&*self);
            lemma_map_of_dom(self.pairs(), key@);
        }
        match self.find(key) {
            Some(i) => {
                let ghost s = self.pairs();
                proof {
                    lemma_map_of_remove(s, i as int);
                    lemma_map_of_index(s, i as int);
                }
                let mut entries: Vec<(K, V)> = Vec::new();
                std::mem::swap(&mut entries, &mut self.entries);
                let e = entries.remove(i);
                assert(name_pairs(entries@) =~= s.remove(i as int));
                proof {
                    assert forall|a: int, b: int|
                        0 <= a < b < firsts(s).remove(i as int).len() implies firsts(s).remove(
                        i as int,
                    )[a] != firsts(s).remove(i as int)[b] by {
                        let a2 = if a < i { a } else { a + 1 };
                        let b2 = if b < i { b } else { b + 1 };
                        assert(firsts(s)[a2] != firsts(s)[b2]);
                    }
                }
                self.entries = entries;
                Some(e.1)
            },
            None => {
                proof {
                    assert(old(self)@.remove(key@) =~= old(self)@);
                }
                None
            },
        }
    }

    /// The names, in order.
    pub fn keys(&self) -> (r: Vec<&K>)
        ensures
            r@.map_values(|k: &K| k@) == self.names(),
    {
        let n = self.entries.len();
        let mut r: Vec<&K> = Vec::new();
        let mut i: usize = 0;
        while i < n
            invariant
                n == self.entries@.len(),
                n == self.pairs().len(),
                i <= n,
                r@.len() == i,
                forall|j: int| 0 <= j < i ==> r@[j]@ == self.names()[j],
            decreases n - i,
        {
            r.push(&self.entries[i].0);
            i = i + 1;
        }
        assert(r@.map_values(|k: &K| k@) =~= self.names());
        r
    }
}

impl<'a, V> NameMap<&'a str, V> {
    /// The names, in order, as the string slices they were inserted with.
    pub fn key_list(&self) -> (r: Vec<&'a str>)
        ensures
            r@.map_values(|k: &'a str| k@) == self.names(),
    {
        let n = self.entries.len();
        let mut r: Vec<&'a str> = Vec::new();
        let mut i: usize = 0;
        while i < n
            invariant
                n == self.entries@.len(),
                n == self.pairs().len(),
                i <= n,
                r@.len() == i,
                forall|j: int| 0 <= j < i ==> r@[j]@ == self.names()[j],
            decreases n - i,
        {
            r.push(self.entries[i].0);
            i = i + 1;
        }
        assert(r@.map_values(|k: &'a str| k@) =~= self.names());
        r
    }
}

impl<K: NameKey + Clone, V: Clone> Clone for NameMap<K, V> {
    /// A copy with the same names in the same order, each value cloned.
    fn clone(&self) -> (r: Self)
        ensures
            r.names() == self.names(),
            r.pairs().len() == self.pairs().len(),
            forall|j: int| 0 <= j < self.pairs().len() ==> cloned(self.pairs()[j].1, #[trigger] r.pairs()[j].1),
    {
        proof {
            use_type_invariant(self);
        }
        let ghost ps = self.pairs();
        let mut r = NameMap::new();
        let n = self.entries.len();
        let mut i: usize = 0;
        while i < n
            invariant
                n == self.entries@.len(),
                ps == self.pairs(),
                ps.len() == n,
                firsts(ps).no_duplicates(),
                i <= n,
                r.pairs().len() == i,
                r.names() == firsts(ps).take(i as int),
                forall|j: int| 0 <= j < i ==> cloned(ps[j].1, #[trigger] r.pairs()[j].1),
            decreases n - i,
        {
            let key = self.entries[i].0.copy_name();
            let value = self.entries[i].1.clone();
            proof {
                assert(key@ == ps[i as int].0);
                if r.names().contains(key@) {
                    let j = choose|j: int| 0 <= j < r.names().len() && r.names()[j] == key@;
                    assert(firsts(ps)[j] == firsts(ps)[i as int]);
                }
            }
            r.insert(key, value);
            proof {
                assert(firsts(ps).take(i as int + 1) =~= firsts(ps).take(i as int).push(key@));
            }
            i = i + 1;
        }
        assert(firsts(ps).take(n as int) =~= firsts(ps));
        r
    }
}

impl<K: NameKey, V> View for NameMap<K, V> {
    type V = Map<Seq<char>, V>;

    closed spec fn view(&self) -> Map<Seq<char>, V> {
        map_of(self.pairs())
    }
}

} // verus!
