//! Maps and sets keyed by dependency references.
//!
//! A reference is a task or a trigger identifier; each kind is kept in a hash map
//! (or hash set) of its own, keyed by the identifier.
use crate::workflow::DependencyRef;
use std::collections::{HashMap, HashSet};
use vstd::prelude::*;

verus! {

/// A map from dependency references to values.
pub struct RefMap<V> {
    tasks: HashMap<u128, V>,
    triggers: HashMap<u128, V>,
}

impl<V> View for RefMap<V> {
    type V = Map<DependencyRef, V>;

    closed spec fn view(&self) -> Map<DependencyRef, V> {
        Map::new(
            |r: DependencyRef|
                match r {
                    DependencyRef::Task(id) => self.tasks@.contains_key(id),
                    DependencyRef::Trigger(id) => self.triggers@.contains_key(id),
                },
            |r: DependencyRef|
                match r {
                    DependencyRef::Task(id) => self.tasks@[id],
                    DependencyRef::Trigger(id) => self.triggers@[id],
                },
        )
    }
}

impl<V> RefMap<V> {
    /// An empty map.
    pub fn new() -> (m: Self)
        ensures
            m@ == Map::<DependencyRef, V>::empty(),
    {
        let m = RefMap { tasks: HashMap::new(), triggers: HashMap::new() };
        assert(m@ =~= Map::<DependencyRef, V>::empty());
        m
    }

    /// Stores `value` under `key`.
    pub fn insert(&mut self, key: DependencyRef, value: V)
        ensures
            final(self)@ == old(self)@.insert(key, value),
    {
        match key {
            DependencyRef::Task(id) => {
                let _ = self.tasks.insert(id, value);
            },
            DependencyRef::Trigger(id) => {
                let _ = self.triggers.insert(id, value);
            },
        }
        assert(self@ =~= old(self)@.insert(key, value));
    }

    /// Whether `key` is present.
    pub fn contains_key(&self, key: &DependencyRef) -> (b: bool)
        ensures
            b == self@.contains_key(*key),
    {
        match key {
            DependencyRef::Task(id) => self.tasks.contains_key(id),
            DependencyRef::Trigger(id) => self.triggers.contains_key(id),
        }
    }

    /// The value stored under `key`, if any.
    pub fn get(&self, key: &DependencyRef) -> (r: Option<&V>)
        ensures
            match r {
                Some(v) => self@.contains_key(*key) && *v == self@[*key],
                None => !self@.contains_key(*key),
            },
    {
        match key {
            DependencyRef::Task(id) => self.tasks.get(id),
            DependencyRef::Trigger(id) => self.triggers.get(id),
        }
    }
}

/// A set of dependency references that remembers the order of insertion.
pub struct RefSet {
    members: Vec<DependencyRef>,
    tasks: HashSet<u128>,
    triggers: HashSet<u128>,
}

impl RefSet {
    #[verifier::type_invariant]
    closed spec fn consistent(self) -> bool {
        &&& self.members@.no_duplicates()
        &&& forall|r: DependencyRef|
            #![trigger self.members@.contains(r)]
            self.members@.contains(r) <==> match r {
                DependencyRef::Task(id) => self.tasks@.contains(id),
                DependencyRef::Trigger(id) => self.triggers@.contains(id),
            }
    }

    /// The members, in the order of their insertion.
    pub closed spec fn elements(&self) -> Seq<DependencyRef> {
        self.members@
    }

    /// An empty set.
    pub fn new() -> (s: Self)
        ensures
            s.elements() == Seq::<DependencyRef>::empty(),
            s@ == Set::<DependencyRef>::empty(),
    {
        let s = RefSet { members: Vec::new(), tasks: HashSet::new(), triggers: HashSet::new() };
        assert(s.members@.to_set() =~= Set::<DependencyRef>::empty());
        s
    }

    /// Whether `r` is a member.
    pub fn contains(&self, r: &DependencyRef) -> (b: bool)
        ensures
            b == self@.contains(*r),
    {
        proof {
            use_type_invariant(self);
        }
        match r {
            DependencyRef::Task(id) => self.tasks.contains(id),
            DependencyRef::Trigger(id) => self.triggers.contains(id),
        }
    }

    /// Adds `r`; true when it was not a member before.
    pub fn insert(&mut self, r: DependencyRef) -> (added: bool)
        ensures
            added == !old(self)@.contains(r),
            final(self)@ == old(self)@.insert(r),
            added ==> final(self).elements() == old(self).elements().push(r),
            !added ==> final(self).elements() == old(self).elements(),
    {
        proof {
            use_type_invariant(&*self);
        }
        let fresh = match r {
            DependencyRef::Task(id) => !self.tasks.contains(&id),
            DependencyRef::Trigger(id) => !self.triggers.contains(&id),
        };
        if fresh {
            let mut current = RefSet::new();
            std::mem::swap(&mut current, self);
            proof {
                use_type_invariant(&current);
            }
            let RefSet { members, tasks, triggers } = current;
            let ghost old_members = members@;
            let ghost old_tasks = tasks@;
            let ghost old_triggers = triggers@;
            assert(!old_members.contains(r));
            let mut members = members;
            let mut tasks = tasks;
            let mut triggers = triggers;
            members.push(r);
            match r {
                DependencyRef::Task(id) => {
                    let _ = tasks.insert(id);
                },
                DependencyRef::Trigger(id) => {
                    let _ = triggers.insert(id);
                },
            }
            proof {
                assert forall|x: DependencyRef| #[trigger] members@.contains(x) <==> (
                old_members.contains(x) || x == r) by {
                    if members@.contains(x) && x != r {
                        let k = choose|k: int| 0 <= k < members@.len() && members@[k] == x;
                        assert(old_members[k] == x);
                    }
                    if old_members.contains(x) {
                        let k = choose|k: int| 0 <= k < old_members.len() && old_members[k] == x;
                        assert(members@[k] == x);
                    }
                    if x == r {
                        assert(members@[old_members.len() as int] == x);
                    }
                }
                assert(members@.to_set() =~= old_members.to_set().insert(r));
                assert forall|x: DependencyRef| #[trigger] members@.contains(x) <==> match x {
                    DependencyRef::Task(id) => tasks@.contains(id),
                    DependencyRef::Trigger(id) => triggers@.contains(id),
                } by {
                    assert(old_members.contains(x) <==> match x {
                        DependencyRef::Task(id) => old_tasks.contains(id),
                        DependencyRef::Trigger(id) => old_triggers.contains(id),
                    });
                }
                assert forall|a: int, b: int|
                    0 <= a < b < members@.len() implies members@[a] != members@[b] by {
                    if b == old_members.len() {
                        assert(old_members.contains(old_members[a]));
                    }
                }
            }
            *self = RefSet { members, tasks, triggers };
            true
        } else {
            proof {
                assert(old(self)@.insert(r) =~= old(self)@);
            }
            false
        }
    }

    /// Whether the set is empty.
    pub fn is_empty(&self) -> (b: bool)
        ensures
            b == (self@ == Set::<DependencyRef>::empty()),
    {
        proof {
            if self.members@.len() > 0 {
                assert(self@.contains(self.members@[0]));
            }
            if self.members@.len() == 0 {
                assert(self@ =~= Set::<DependencyRef>::empty());
            }
        }
        self.members.len() == 0
    }

    /// The number of members.
    pub fn len(&self) -> (n: usize)
        ensures
            n == self.elements().len(),
            self.elements().no_duplicates(),
    {
        proof {
            use_type_invariant(self);
        }
        self.members.len()
    }

    /// The members, in the order of their insertion, each once.
    pub fn to_vec(&self) -> (v: Vec<DependencyRef>)
        ensures
            v@ == self.elements(),
            v@.no_duplicates(),
            v@.to_set() == self@,
    {
        proof {
            use_type_invariant(self);
        }
        self.members.clone()
    }
}

impl View for RefSet {
    type V = Set<DependencyRef>;

    open spec fn view(&self) -> Set<DependencyRef> {
        self.elements().to_set()
    }
}

} // verus!
