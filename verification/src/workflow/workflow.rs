use crate::builder::BuilderError;
use crate::ids::new_id;
use crate::task::{all_dependencies, Task};
use crate::trigger::Trigger;
use crate::workflow::DependencyRef;
use std::collections::HashMap;
use vstd::std_specs::iter::IteratorSpec;
use vstd::prelude::*;

verus! {

/// A workflow: tasks and triggers, each by its identifier.
pub struct Workflow<'a> {
    id: u128,
    name: &'a str,
    description: Option<&'a str>,
    tasks: HashMap<u128, Task<'a>>,
    triggers: HashMap<u128, Trigger<'a>>,
}

/// Every task is stored under its own identifier.
pub open spec fn tasks_keyed_by_id<'a>(w: Workflow<'a>) -> bool {
    forall|k: u128| #[trigger] w.tasks()@.contains_key(k) ==> w.tasks()@[k].id() == k
}

/// Every task and every trigger is stored under its own identifier.
pub open spec fn keyed_by_id<'a>(w: Workflow<'a>) -> bool {
    &&& tasks_keyed_by_id(w)
    &&& forall|k: u128| #[trigger] w.triggers()@.contains_key(k) ==> w.triggers()@[k].id() == k
}

/// The tasks of the workflow that depend on `r`, explicitly or through an input.
pub open spec fn dependents_of<'a>(w: Workflow<'a>, r: DependencyRef) -> Set<DependencyRef> {
    Set::new(
        |d: DependencyRef|
            exists|k: u128|
                #![trigger w.tasks()@[k]]
                w.tasks()@.contains_key(k) && d == DependencyRef::Task(w.tasks()@[k].id())
                    && all_dependencies(w.tasks()@[k]).contains(r),
    )
}

impl<'a> Workflow<'a> {
    /// A new builder, with nothing set.
    pub fn builder() -> (b: WorkflowBuilder<'a>)
        ensures
            b.id is None,
            b.name is None,
            b.description is None,
            b.tasks@ == Map::<u128, Task<'a>>::empty(),
            b.triggers@ == Map::<u128, Trigger<'a>>::empty(),
    {
        WorkflowBuilder {
            id: None,
            name: None,
            description: None,
            tasks: HashMap::new(),
            triggers: HashMap::new(),
        }
    }

    pub closed spec fn spec_id(&self) -> u128 {
        self.id
    }

    pub closed spec fn spec_name(&self) -> &'a str {
        self.name
    }

    pub closed spec fn spec_description(&self) -> Option<&'a str> {
        self.description
    }

    pub closed spec fn spec_tasks(&self) -> &HashMap<u128, Task<'a>> {
        &self.tasks
    }

    pub closed spec fn spec_triggers(&self) -> &HashMap<u128, Trigger<'a>> {
        &self.triggers
    }

    /// Unique identifier of the workflow.
    #[verifier::when_used_as_spec(spec_id)]
    pub fn id(&self) -> (r: u128)
        returns
            self.spec_id(),
    {
        self.id
    }

    /// Name of the workflow.
    #[verifier::when_used_as_spec(spec_name)]
    pub fn name(&self) -> (r: &'a str)
        returns
            self.spec_name(),
    {
        self.name
    }

    /// Optional description of the workflow.
    #[verifier::when_used_as_spec(spec_description)]
    pub fn description(&self) -> (r: Option<&'a str>)
        returns
            self.spec_description(),
    {
        self.description
    }

    /// Tasks, by identifier.
    #[verifier::when_used_as_spec(spec_tasks)]
    pub fn tasks(&self) -> (r: &HashMap<u128, Task<'a>>)
        returns
            self.spec_tasks(),
    {
        &self.tasks
    }

    /// Triggers, by identifier.
    #[verifier::when_used_as_spec(spec_triggers)]
    pub fn triggers(&self) -> (r: &HashMap<u128, Trigger<'a>>)
        returns
            self.spec_triggers(),
    {
        &self.triggers
    }

    /// Sets the name.
    pub fn set_name(&mut self, name: &'a str)
        ensures
            final(self).name() == name,
            final(self).id() == old(self).id(),
            final(self).description() == old(self).description(),
            final(self).tasks() == old(self).tasks(),
            final(self).triggers() == old(self).triggers(),
    {
        self.name = name;
    }

    /// Sets the description.
    pub fn set_description(&mut self, description: Option<&'a str>)
        ensures
            final(self).description() == description,
            final(self).id() == old(self).id(),
            final(self).name() == old(self).name(),
            final(self).tasks() == old(self).tasks(),
            final(self).triggers() == old(self).triggers(),
    {
        self.description = description;
    }

    /// Adds a task under its identifier, replacing one with the same identifier.
    /// Nothing is validated here: the compiler validates.
    pub fn add_task(&mut self, task: Task<'a>)
        ensures
            final(self).tasks()@ == old(self).tasks()@.insert(task.id(), task),
            final(self).triggers() == old(self).triggers(),
            final(self).id() == old(self).id(),
            final(self).name() == old(self).name(),
            final(self).description() == old(self).description(),
    {
        let task_id = task.id();
        let _ = self.tasks.insert(task_id, task);
    }

    /// Adds a trigger under its identifier, replacing one with the same identifier.
    /// Nothing is validated here: the compiler validates.
    pub fn add_trigger(&mut self, trigger: Trigger<'a>)
        ensures
            final(self).triggers()@ == old(self).triggers()@.insert(trigger.id(), trigger),
            final(self).tasks() == old(self).tasks(),
            final(self).id() == old(self).id(),
            final(self).name() == old(self).name(),
            final(self).description() == old(self).description(),
    {
        let trigger_id = trigger.id();
        let _ = self.triggers.insert(trigger_id, trigger);
    }

    /// Removes a task, without looking at the tasks that depend on it.
    pub fn remove_task(&mut self, task_id: u128)
        ensures
            final(self).tasks()@ == old(self).tasks()@.remove(task_id),
            final(self).triggers() == old(self).triggers(),
            final(self).id() == old(self).id(),
            final(self).name() == old(self).name(),
            final(self).description() == old(self).description(),
    {
        let _ = self.tasks.remove(&task_id);
    }

    /// Removes a trigger, without looking at the tasks that depend on it.
    pub fn remove_trigger(&mut self, trigger_id: u128)
        ensures
            final(self).triggers()@ == old(self).triggers()@.remove(trigger_id),
            final(self).tasks() == old(self).tasks(),
            final(self).id() == old(self).id(),
            final(self).name() == old(self).name(),
            final(self).description() == old(self).description(),
    {
        let _ = self.triggers.remove(&trigger_id);
    }

    /// The tasks that depend on `dep`, explicitly or through an input, each once.
    pub fn find_tasks_depending_on(&self, dep: &DependencyRef) -> (r: Vec<DependencyRef>)
        ensures
            r@.to_set() == dependents_of(*self, *dep),
    {
        let mut r: Vec<DependencyRef> = Vec::new();
        let ghost m = self.tasks@;
        let ghost v = vstd::std_specs::hash::spec_hash_map_iter(&self.tasks).remaining();
        for entry in it: self.tasks.iter()
            invariant
                m == self.tasks@,
                it.seq() == v,
                forall|d: DependencyRef|
                    r@.contains(d) <==> exists|j: int|
                        #![trigger v[j]]
                        0 <= j < it.index() && d == DependencyRef::Task(v[j].1.id())
                            && all_dependencies(*v[j].1).contains(*dep),
        {
            let (_, task) = entry;
            assert(entry == it.seq()[it.index()]);
            let deps = task.get_all_dependencies();
            let mut found = false;
            let mut i: usize = 0;
            while i < deps.len()
                invariant
                    i <= deps@.len(),
                    deps@ == all_dependencies(*task),
                    found <==> exists|j: int| 0 <= j < i && deps@[j] == *dep,
                decreases deps@.len() - i,
            {
                if deps[i] == *dep {
                    found = true;
                }
                i = i + 1;
            }
            let ghost old_r = r@;
            let ghost idx = it.index();
            assert(entry == it.seq()[idx]);
            if found {
                r.push(DependencyRef::Task(task.id()));
            }
            assert forall|d: DependencyRef|
                r@.contains(d) <==> exists|j: int|
                    #![trigger v[j]]
                    0 <= j < idx + 1 && d == DependencyRef::Task(v[j].1.id())
                        && all_dependencies(*v[j].1).contains(*dep) by {
                if found && d == DependencyRef::Task(task.id()) {
                    assert(r@[old_r.len() as int] == d);
                }
                if r@.contains(d) && !old_r.contains(d) {
                    let k = choose|k: int| 0 <= k < r@.len() && r@[k] == d;
                    assert(k == old_r.len());
                }
                if old_r.contains(d) {
                    let k = choose|k: int| 0 <= k < old_r.len() && old_r[k] == d;
                    assert(r@[k] == d);
                }
            }
        }
        proof {
            assert forall|d: DependencyRef| r@.to_set().contains(d) <==> dependents_of(*self, *dep).contains(d) by {
                if r@.contains(d) {
                    let j = choose|j: int|
                        #![trigger v[j]]
                        0 <= j < v.len() && d == DependencyRef::Task(v[j].1.id())
                            && all_dependencies(*v[j].1).contains(*dep);
                    let k = *v[j].0;
                    assert(m.contains_key(k) && m[k] == *v[j].1);
                }
                if dependents_of(*self, *dep).contains(d) {
                    let k = choose|k: u128|
                        #![trigger m[k]]
                        m.contains_key(k) && d == DependencyRef::Task(m[k].id())
                            && all_dependencies(m[k]).contains(*dep);
                    assert(v.contains((&k, &m[k])));
                    let j = choose|j: int| 0 <= j < v.len() && v[j] == (&k, &m[k]);
                    assert(v[j].1 == &m[k]);
                }
            }
            assert(r@.to_set() =~= dependents_of(*self, *dep));
        }
        r
    }
}

impl<'a> Default for Workflow<'a> {
    /// A workflow with the nil identifier, an empty name, and nothing in it.
    fn default() -> (w: Self)
        ensures
            w.id() == 0,
            w.name()@ == Seq::<char>::empty(),
            w.description() is None,
            w.tasks()@ == Map::<u128, Task<'a>>::empty(),
            w.triggers()@ == Map::<u128, Trigger<'a>>::empty(),
    {
        let name = "";
        proof {
            reveal_strlit("");
        }
        Workflow { id: 0, name, description: None, tasks: HashMap::new(), triggers: HashMap::new() }
    }
}

/// Builder of a `Workflow`: the name is required, the identifier defaults to a fresh random one.
pub struct WorkflowBuilder<'a> {
    pub id: Option<u128>,
    pub name: Option<&'a str>,
    pub description: Option<Option<&'a str>>,
    pub tasks: HashMap<u128, Task<'a>>,
    pub triggers: HashMap<u128, Trigger<'a>>,
}

impl<'a> WorkflowBuilder<'a> {
    /// Sets the identifier.
    pub fn id(self, id: u128) -> (b: Self)
        ensures
            b == (WorkflowBuilder { id: Some(id), ..self }),
    {
        WorkflowBuilder { id: Some(id), ..self }
    }

    /// Sets the name.
    pub fn name(self, name: &'a str) -> (b: Self)
        ensures
            b == (WorkflowBuilder { name: Some(name), ..self }),
    {
        WorkflowBuilder { name: Some(name), ..self }
    }

    /// Sets the description.
    pub fn description(self, description: Option<&'a str>) -> (b: Self)
        ensures
            b == (WorkflowBuilder { description: Some(description), ..self }),
    {
        WorkflowBuilder { description: Some(description), ..self }
    }

    /// Adds one task under the given key.
    pub fn task(self, entry: (u128, Task<'a>)) -> (b: Self)
        ensures
            b.tasks@ == self.tasks@.insert(entry.0, entry.1),
            b.id == self.id,
            b.name == self.name,
            b.description == self.description,
            b.triggers == self.triggers,
    {
        let mut b = self;
        let _ = b.tasks.insert(entry.0, entry.1);
        b
    }

    /// Adds one trigger under the given key.
    pub fn trigger(self, entry: (u128, Trigger<'a>)) -> (b: Self)
        ensures
            b.triggers@ == self.triggers@.insert(entry.0, entry.1),
            b.id == self.id,
            b.name == self.name,
            b.description == self.description,
            b.tasks == self.tasks,
    {
        let mut b = self;
        let _ = b.triggers.insert(entry.0, entry.1);
        b
    }

    /// The workflow; the name is required.
    pub fn build(self) -> (r: Result<Workflow<'a>, BuilderError>)
        ensures
            match r {
                Ok(w) => {
                    &&& self.name == Some(w.name())
                    &&& self.id matches Some(id) ==> w.id() == id
                    &&& w.description() == (match self.description {
                        Some(d) => d,
                        None => None,
                    })
                    &&& *w.tasks() == self.tasks
                    &&& *w.triggers() == self.triggers
                },
                Err(e) => self.name is None && (e matches BuilderError::UninitializedField(f)
                    && f@ == "name"@),
            },
    {
        let id = match self.id {
            Some(id) => id,
            None => new_id(),
        };
        let name = match self.name {
            Some(n) => n,
            None => return Err(BuilderError::UninitializedField("name")),
        };
        let description = match self.description {
            Some(d) => d,
            None => None,
        };
        Ok(Workflow { id, name, description, tasks: self.tasks, triggers: self.triggers })
    }
}

} // verus!
