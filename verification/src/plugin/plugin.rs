use crate::builder::BuilderError;
use crate::ids::new_id;
use crate::name_map::NameMap;
use crate::task::TaskDefinition;
use crate::trigger::TriggerDefinition;
use vstd::prelude::*;

verus! {

/// A set of task and trigger definitions, each by its name, that can be registered
/// and used within the workflow system.
pub struct Plugin<'a> {
    id: u128,
    name: &'a str,
    tasks: NameMap<&'a str, TaskDefinition<'a>>,
    triggers: NameMap<&'a str, TriggerDefinition<'a>>,
}

impl<'a> Plugin<'a> {
    /// A new builder, with nothing set.
    pub fn builder() -> (b: PluginBuilder<'a>)
        ensures
            b.id is None,
            b.name is None,
            b.tasks@ == Map::<Seq<char>, TaskDefinition<'a>>::empty(),
            b.triggers@ == Map::<Seq<char>, TriggerDefinition<'a>>::empty(),
    {
        PluginBuilder { id: None, name: None, tasks: NameMap::new(), triggers: NameMap::new() }
    }

    pub closed spec fn spec_id(&self) -> u128 {
        self.id
    }

    pub closed spec fn spec_name(&self) -> &'a str {
        self.name
    }

    pub closed spec fn spec_tasks(&self) -> &NameMap<&'a str, TaskDefinition<'a>> {
        &self.tasks
    }

    pub closed spec fn spec_triggers(&self) -> &NameMap<&'a str, TriggerDefinition<'a>> {
        &self.triggers
    }

    /// Unique identifier of the plugin.
    #[verifier::when_used_as_spec(spec_id)]
    pub fn id(&self) -> (r: u128)
        returns
            self.spec_id(),
    {
        self.id
    }

    /// Name of the plugin.
    #[verifier::when_used_as_spec(spec_name)]
    pub fn name(&self) -> (r: &'a str)
        returns
            self.spec_name(),
    {
        self.name
    }

    /// Task definitions, by name.
    #[verifier::when_used_as_spec(spec_tasks)]
    pub fn tasks(&self) -> (r: &NameMap<&'a str, TaskDefinition<'a>>)
        returns
            self.spec_tasks(),
    {
        &self.tasks
    }

    /// Trigger definitions, by name.
    #[verifier::when_used_as_spec(spec_triggers)]
    pub fn triggers(&self) -> (r: &NameMap<&'a str, TriggerDefinition<'a>>)
        returns
            self.spec_triggers(),
    {
        &self.triggers
    }

    /// Sets the name.
    pub fn set_name(&mut self, name: &'a str)
        ensures
            final(self).name() == name,
            final(self).id() == old(self).id(),
            final(self).tasks() == old(self).tasks(),
            final(self).triggers() == old(self).triggers(),
    {
        self.name = name;
    }

    /// Adds a task definition under its name, replacing one of the same name.
    pub fn add_task(self, task: TaskDefinition<'a>) -> (p: Self)
        ensures
            p.tasks()@ == self.tasks()@.insert(task.name()@, task),
            p.id() == self.id(),
            p.name() == self.name(),
            p.triggers() == self.triggers(),
    {
        let mut p = self;
        p.tasks.insert(task.name(), task);
        p
    }

    /// Adds a trigger definition under its name, replacing one of the same name.
    pub fn add_trigger(self, trigger: TriggerDefinition<'a>) -> (p: Self)
        ensures
            p.triggers()@ == self.triggers()@.insert(trigger.name()@, trigger),
            p.id() == self.id(),
            p.name() == self.name(),
            p.tasks() == self.tasks(),
    {
        let mut p = self;
        p.triggers.insert(trigger.name(), trigger);
        p
    }

    /// The task definition of the given name.
    pub fn get_task(&self, name: &str) -> (r: Option<&TaskDefinition<'a>>)
        ensures
            match r {
                Some(d) => self.tasks()@.contains_key(name@) && *d == self.tasks()@[name@],
                None => !self.tasks()@.contains_key(name@),
            },
    {
        self.tasks.get(name)
    }

    /// The trigger definition of the given name.
    pub fn get_trigger(&self, name: &str) -> (r: Option<&TriggerDefinition<'a>>)
        ensures
            match r {
                Some(d) => self.triggers()@.contains_key(name@) && *d == self.triggers()@[name@],
                None => !self.triggers()@.contains_key(name@),
            },
    {
        self.triggers.get(name)
    }

    /// The names of all task definitions, each once.
    pub fn list_tasks(&self) -> (r: Vec<&'a str>)
        ensures
            r@.map_values(|k: &'a str| k@) == self.tasks().names(),
            r@.map_values(|k: &'a str| k@).no_duplicates(),
            r@.map_values(|k: &'a str| k@).to_set() == self.tasks()@.dom(),
    {
        let _ = self.tasks.len();
        proof {
            crate::name_map::lemma_names_are_keys(self.tasks.pairs());
        }
        self.tasks.key_list()
    }

    /// The names of all trigger definitions, each once.
    pub fn list_triggers(&self) -> (r: Vec<&'a str>)
        ensures
            r@.map_values(|k: &'a str| k@) == self.triggers().names(),
            r@.map_values(|k: &'a str| k@).no_duplicates(),
            r@.map_values(|k: &'a str| k@).to_set() == self.triggers()@.dom(),
    {
        let _ = self.triggers.len();
        proof {
            crate::name_map::lemma_names_are_keys(self.triggers.pairs());
        }
        self.triggers.key_list()
    }
}

/// Builder of a `Plugin`: the name is required, the identifier defaults to a fresh random one.
pub struct PluginBuilder<'a> {
    pub id: Option<u128>,
    pub name: Option<&'a str>,
    pub tasks: NameMap<&'a str, TaskDefinition<'a>>,
    pub triggers: NameMap<&'a str, TriggerDefinition<'a>>,
}

impl<'a> PluginBuilder<'a> {
    /// Sets the identifier.
    pub fn id(self, id: u128) -> (b: Self)
        ensures
            b == (PluginBuilder { id: Some(id), ..self }),
    {
        PluginBuilder { id: Some(id), ..self }
    }

    /// Sets the name.
    pub fn name(self, name: &'a str) -> (b: Self)
        ensures
            b == (PluginBuilder { name: Some(name), ..self }),
    {
        PluginBuilder { name: Some(name), ..self }
    }

    /// Sets all task definitions.
    pub fn tasks(self, tasks: NameMap<&'a str, TaskDefinition<'a>>) -> (b: Self)
        ensures
            b == (PluginBuilder { tasks, ..self }),
    {
        PluginBuilder { tasks, ..self }
    }

    /// Sets all trigger definitions.
    pub fn triggers(self, triggers: NameMap<&'a str, TriggerDefinition<'a>>) -> (b: Self)
        ensures
            b == (PluginBuilder { triggers, ..self }),
    {
        PluginBuilder { triggers, ..self }
    }

    /// Adds a task definition, keyed by its name.
    pub fn task(self, task_def: TaskDefinition<'a>) -> (b: Self)
        ensures
            b.tasks@ == self.tasks@.insert(task_def.name()@, task_def),
            b.id == self.id,
            b.name == self.name,
            b.triggers == self.triggers,
    {
        let name = task_def.name();
        let mut b = self;
        b.tasks.insert(name, task_def);
        b
    }

    /// Adds a trigger definition, keyed by its name.
    pub fn trigger(self, trigger_def: TriggerDefinition<'a>) -> (b: Self)
        ensures
            b.triggers@ == self.triggers@.insert(trigger_def.name()@, trigger_def),
            b.id == self.id,
            b.name == self.name,
            b.tasks == self.tasks,
    {
        let name = trigger_def.name();
        let mut b = self;
        b.triggers.insert(name, trigger_def);
        b
    }

    /// The plugin; the name is required.
    pub fn build(self) -> (r: Result<Plugin<'a>, BuilderError>)
        ensures
            match r {
                Ok(p) => {
                    &&& self.name == Some(p.name())
                    &&& self.id matches Some(id) ==> p.id() == id
                    &&& *p.tasks() == self.tasks
                    &&& *p.triggers() == self.triggers
                },
                Err(e) => self.name is None && (e matches BuilderError::UninitializedField(f)
                    && f@ == "name"@),
            },
    {
        let id = match self.id {
            Some(id) => id,
            None => new_id(),
        };
        let name = match self.name {
            Some(n) => n,
            None => return Err(BuilderError::UninitializedField("name")),
        };
        Ok(Plugin { id, name, tasks: self.tasks, triggers: self.triggers })
    }
}

} // verus!
