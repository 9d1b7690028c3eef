//! An ordered group of plugins, applied together.

use vstd::prelude::*;

verus! {

/// Plugins kept in the order they were added.
pub struct PluginGroup<T> {
    plugins: Vec<T>,
}

impl<T> View for PluginGroup<T> {
    type V = Seq<T>;

    closed spec fn view(&self) -> Seq<T> {
        self.plugins@
    }
}

impl<T> PluginGroup<T> {
    pub fn new() -> (r: PluginGroup<T>)
        ensures
            r@ == Seq::<T>::empty(),
    {
        PluginGroup { plugins: Vec::new() }
    }

    /// The group with `plugin` added last.
    pub fn add(self, plugin: T) -> (r: PluginGroup<T>)
        ensures
            r@ == self@.push(plugin),
    {
        let mut plugins = self.plugins;
        plugins.push(plugin);
        PluginGroup { plugins }
    }

    /// The plugins, in the order they were added.
    pub fn plugins(&self) -> (r: &[T])
        ensures
            r@ == self@,
    {
        self.plugins.as_slice()
    }

    /// A group is applied as a whole and may hold several plugins of one
    /// kind, so it is never unique.
    pub fn is_unique(&self) -> (r: bool)
        ensures
            !r,
    {
        false
    }
}

impl<T> Default for PluginGroup<T> {
    fn default() -> (r: PluginGroup<T>)
        ensures
            r@ == Seq::<T>::empty(),
    {
        PluginGroup::new()
    }
}

} // verus!
