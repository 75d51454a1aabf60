use crate::name_map::NameMap;
use crate::plugin::Plugin;
use vstd::prelude::*;

verus! {

/// The registered plugins, each by its name.
pub struct Registry<'a> {
    plugins: NameMap<&'a str, Plugin<'a>>,
}

impl<'a> Registry<'a> {
    /// An empty registry.
    pub fn new() -> (r: Self)
        ensures
            r.plugins()@ == Map::<Seq<char>, Plugin<'a>>::empty(),
    {
        Registry { plugins: NameMap::new() }
    }

    pub closed spec fn spec_plugins(&self) -> &NameMap<&'a str, Plugin<'a>> {
        &self.plugins
    }

    /// The registered plugins, by name.
    #[verifier::when_used_as_spec(spec_plugins)]
    pub fn plugins(&self) -> (r: &NameMap<&'a str, Plugin<'a>>)
        returns
            self.spec_plugins(),
    {
        &self.plugins
    }

    /// Registers a plugin under its name, replacing one of the same name.
    pub fn register_plugin(&mut self, plugin: Plugin<'a>)
        ensures
            final(self).plugins()@ == old(self).plugins()@.insert(plugin.name()@, plugin),
    {
        self.plugins.insert(plugin.name(), plugin);
    }

    /// The plugin of the given name.
    pub fn get_plugin(&self, name: &str) -> (r: Option<&Plugin<'a>>)
        ensures
            match r {
                Some(p) => self.plugins()@.contains_key(name@) && *p == self.plugins()@[name@],
                None => !self.plugins()@.contains_key(name@),
            },
    {
        self.plugins.get(name)
    }

    /// Removes the plugin of the given name, returning it.
    pub fn remove_plugin(&mut self, name: &str) -> (r: Option<Plugin<'a>>)
        ensures
            final(self).plugins()@ == old(self).plugins()@.remove(name@),
            match r {
                Some(p) => old(self).plugins()@.contains_key(name@) && p == old(self).plugins()@[name@],
                None => !old(self).plugins()@.contains_key(name@),
            },
    {
        self.plugins.remove(name)
    }

    /// The names of all registered plugins, each once.
    pub fn list_plugins(&self) -> (r: Vec<&'a str>)
        ensures
            r@.map_values(|k: &'a str| k@).no_duplicates(),
            r@.map_values(|k: &'a str| k@).to_set() == self.plugins()@.dom(),
    {
        let _ = self.plugins.len();
        proof {
            crate::name_map::lemma_names_are_keys(self.plugins.pairs());
        }
        self.plugins.key_list()
    }
}

impl<'a> Default for Registry<'a> {
    /// An empty registry.
    fn default() -> (r: Self)
        ensures
            r.plugins()@ == Map::<Seq<char>, Plugin<'a>>::empty(),
    {
        Registry::new()
    }
}

} // verus!
