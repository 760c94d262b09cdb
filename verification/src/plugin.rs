//! The plugin registry.

use vstd::prelude::*;
use vstd::string::*;
pub use crate::config::MasterConfig;
pub use crate::error::{PluginError, PluginErrorId};
use crate::error::{already_loaded_message, file_not_found_message};
use crate::error::{not_ready_message, plugin_disabled_message, symbol_not_found_message};
use crate::path::{join_path, joined_path};
use crate::registry_model::{PluginRecord, distinct_names, fresh_record, is_loaded, position_of};
use crate::registry_model::{names, with_state};
use crate::registry_model::{chain_of, outcome_allowed, outcomes_allowed, resolution_gate, successes};
use crate::registry_model::{lemma_position_unique, lemma_successes_push};
use crate::registry_model::{activation_state_gates_resolution, fresh_plugin_is_disabled};
use crate::registry_model::unloaded_plugin_is_not_ready;

verus! {

/// The direction in which a call chain walks the load order.
#[derive(Debug, PartialEq, Eq, Structural, Clone, Copy)]
pub enum CallOrder {
    /// First loaded first.
    Asc,
    /// Last loaded first.
    Desc,
}

/// Whether a plugin's symbols may be resolved.
#[derive(Debug, PartialEq, Eq, Structural, Clone, Copy)]
pub enum PluginActivateState {
    /// Its symbols may be resolved.
    Activate,
    /// It stays loaded, but resolving on it is refused.
    Disable,
}

/// One loaded plugin; its name stands at the same index of the load order.
struct Plugin<H> {
    load_order: usize,
    lib: H,
    ac_state: PluginActivateState,
}

/// The registry of loaded plugins. `H` is the native handle of one loaded
/// library; the registry owns each handle and drops it when the plugin is
/// unloaded.
pub struct PluginManager<H> {
    plugin_list: Vec<Plugin<H>>,
    order: Vec<String>,
    base_path: String,
}

impl<H> View for PluginManager<H> {
    type V = Seq<PluginRecord<H>>;

    /// The records of the loaded plugins, in load order.
    closed spec fn view(&self) -> Seq<PluginRecord<H>> {
        Seq::new(
            self.order@.len(),
            |i: int|
                PluginRecord {
                    name: self.order@[i]@,
                    handle: self.plugin_list@[i].lib,
                    load_order: self.plugin_list@[i].load_order as nat,
                    state: self.plugin_list@[i].ac_state,
                },
        )
    }
}

impl<H> PluginManager<H> {
    /// The registry's invariant: one entry per name in the load order, and
    /// no name twice.
    pub closed spec fn wf(&self) -> bool {
        &&& self.plugin_list@.len() == self.order@.len()
        &&& distinct_names(self@)
    }

    /// The directory against which plugin names are resolved.
    pub closed spec fn base_path(&self) -> Seq<char> {
        self.base_path@
    }

    /// A well-formed registry holds no name twice, so that a name stands for
    /// one place in the load order.
    pub proof fn names_are_distinct(&self)
        requires
            self.wf(),
        ensures
            distinct_names(self@),
    {
    }

    /// An empty registry that resolves plugin names against `base_path`.
    pub fn new(base_path: &str) -> (m: Self)
        ensures
            m.wf(),
            m@ == Seq::<PluginRecord<H>>::empty(),
            m.base_path() == base_path@,
    {
        PluginManager {
            plugin_list: Vec::new(),
            order: Vec::new(),
            base_path: base_path.to_owned(),
        }
    }

    /// The index of `name` in the load order, if it is loaded.
    fn find(&self, name: &str) -> (r: Option<usize>)
        requires
            self.wf(),
        ensures
            r is Some <==> is_loaded(self@, name@),
            r matches Some(i) ==> i < self@.len() && i == position_of(self@, name@),
    {
        let key = name.to_owned();
        let mut i: usize = 0;
        while i < self.order.len()
            invariant
                self.wf(),
                key@ == name@,
                i <= self.order@.len(),
                forall|k: int| 0 <= k < i ==> (#[trigger] self@[k]).name != name@,
            decreases self.order@.len() - i,
        {
            if self.order[i] == key {
                proof {
                    lemma_position_unique(self@, i as int);
                }
                return Some(i);
            }
            i += 1;
        }
        None
    }

    /// Loads the plugin `lib_name`. Its path is `lib_name` joined onto the
    /// base directory; that path is handed to `open`, which returns the handle
    /// of the opened library or the loader's description of why it could not
    /// be opened.
    ///
    /// A name that is already loaded is refused with `AlreadyLoaded` before
    /// anything is opened. A library that cannot be opened is reported as
    /// `FileNotFound`. Either way the registry is unchanged. Otherwise the
    /// plugin is appended to the load order, disabled, whatever state an
    /// earlier plugin of that name was in. Where `open` cannot fail on the
    /// plugin's path the load succeeds, and where it cannot succeed the load
    /// fails.
    pub fn load_plugin<F: FnOnce(&str) -> Result<H, String>>(
        &mut self,
        lib_name: String,
        open: F,
    ) -> (r: Result<(), PluginError>)
        requires
            old(self).wf(),
            !is_loaded(old(self)@, lib_name@) ==> forall|path: &str| call_requires(open, (path,)),
        ensures
            final(self).wf(),
            final(self).base_path() == old(self).base_path(),
            is_loaded(old(self)@, lib_name@) ==> {
                &&& final(self)@ == old(self)@
                &&& r matches Err(e)
                &&& e.id() == PluginErrorId::AlreadyLoaded
                &&& e.message() == already_loaded_message(
                    lib_name@,
                    joined_path(old(self).base_path(), lib_name@),
                )
            },
            !is_loaded(old(self)@, lib_name@) && (forall|path: &str, detail: String|
                path@ == joined_path(old(self).base_path(), lib_name@) ==> !call_ensures(
                    open,
                    (path,),
                    Err::<H, String>(detail),
                )) ==> r is Ok,
            !is_loaded(old(self)@, lib_name@) && (forall|path: &str, lib: H|
                path@ == joined_path(old(self).base_path(), lib_name@) ==> !call_ensures(
                    open,
                    (path,),
                    Ok::<H, String>(lib),
                )) ==> r is Err,
            !is_loaded(old(self)@, lib_name@) ==> match r {
                Ok(()) => {
                    &&& final(self)@ == old(self)@.push(
                        fresh_record(lib_name@, final(self)@.last().handle, old(self)@.len()),
                    )
                    &&& resolution_gate(final(self)@, lib_name@) == Some(
                        PluginErrorId::PluginDisable,
                    )
                    &&& exists|path: &str|
                        path@ == joined_path(old(self).base_path(), lib_name@) && call_ensures(
                            open,
                            (path,),
                            Ok(final(self)@.last().handle),
                        )
                },
                Err(e) => {
                    &&& final(self)@ == old(self)@
                    &&& e.id() == PluginErrorId::FileNotFound
                    &&& exists|path: &str, detail: String|
                        path@ == joined_path(old(self).base_path(), lib_name@) && call_ensures(
                            open,
                            (path,),
                            Err(detail),
                        ) && e.message() == file_not_found_message(
                            lib_name@,
                            joined_path(old(self).base_path(), lib_name@),
                            detail@,
                        )
                },
            },
    {
        let full_path = join_path(self.base_path.as_str(), lib_name.as_str());
        if self.find(lib_name.as_str()).is_some() {
            return Err(PluginError::already_loaded(lib_name.as_str(), full_path.as_str()));
        }
        let lib = match open(full_path.as_str()) {
            Ok(lib) => lib,
            Err(detail) => {
                return Err(
                    PluginError::file_not_found(
                        lib_name.as_str(),
                        full_path.as_str(),
                        detail.as_str(),
                    ),
                );
            },
        };
        let ghost before = self@;
        let load_order = self.order.len();
        self.order.push(lib_name);
        self.plugin_list.push(Plugin { load_order, lib, ac_state: PluginActivateState::Disable });
        proof {
            assert(self@ =~= before.push(fresh_record(lib_name@, lib, before.len())));
            fresh_plugin_is_disabled(before, lib_name@, lib);
        }
        Ok(())
    }

    /// Resolves `function_name` on the plugin at `index` of the load order.
    fn resolve_at<'a, S, F: Fn(&'a H, &str) -> Option<S>>(
        &'a self,
        index: usize,
        function_name: &str,
        lookup: &F,
    ) -> (r: Result<S, PluginError>)
        requires
            self.wf(),
            index < self@.len(),
            self@[index as int].state == PluginActivateState::Activate ==> call_requires(
                *lookup,
                (&self@[index as int].handle, function_name),
            ),
        ensures
            match self@[index as int].state {
                PluginActivateState::Disable => {
                    &&& r matches Err(e)
                    &&& e.id() == PluginErrorId::PluginDisable
                    &&& e.message() == plugin_disabled_message(self@[index as int].name)
                },
                PluginActivateState::Activate => match r {
                    Ok(f) => call_ensures(
                        *lookup,
                        (&self@[index as int].handle, function_name),
                        Some(f),
                    ),
                    Err(e) => {
                        &&& e.id() == PluginErrorId::SymbolNotFound
                        &&& e.message() == symbol_not_found_message(function_name@)
                        &&& call_ensures(
                            *lookup,
                            (&self@[index as int].handle, function_name),
                            None::<S>,
                        )
                    },
                },
            },
    {
        let plugin = &self.plugin_list[index];
        if plugin.ac_state == PluginActivateState::Disable {
            return Err(PluginError::plugin_disabled(self.order[index].as_str()));
        }
        match lookup(&plugin.lib, function_name) {
            Some(f) => Ok(f),
            None => Err(PluginError::symbol_not_found(function_name)),
        }
    }

    /// Resolves `function_name` in the plugin `plugin_name`. `lookup` finds a
    /// symbol by name in an opened library; it is asked only where the plugin
    /// is loaded and active, and what it finds is returned as it is: the
    /// registry checks that the symbol exists, never what it is.
    ///
    /// Fails with `NotReady` where no plugin has that name, with
    /// `PluginDisable` where the plugin is disabled, and with
    /// `SymbolNotFound` where `lookup` finds nothing.
    pub fn get_plugin_function<'a, S, F: Fn(&'a H, &str) -> Option<S>>(
        &'a self,
        plugin_name: &str,
        function_name: &str,
        lookup: F,
    ) -> (r: Result<S, PluginError>)
        requires
            self.wf(),
            resolution_gate(self@, plugin_name@) is None ==> call_requires(
                lookup,
                (&self@[position_of(self@, plugin_name@)].handle, function_name),
            ),
        ensures
            resolution_gate(self@, plugin_name@) == Some(PluginErrorId::NotReady) ==> {
                &&& r matches Err(e)
                &&& e.id() == PluginErrorId::NotReady
                &&& e.message() == not_ready_message(plugin_name@)
            },
            resolution_gate(self@, plugin_name@) == Some(PluginErrorId::PluginDisable) ==> {
                &&& r matches Err(e)
                &&& e.id() == PluginErrorId::PluginDisable
                &&& e.message() == plugin_disabled_message(plugin_name@)
            },
            resolution_gate(self@, plugin_name@) is None ==> match r {
                Ok(f) => call_ensures(
                    lookup,
                    (&self@[position_of(self@, plugin_name@)].handle, function_name),
                    Some(f),
                ),
                Err(e) => {
                    &&& e.id() == PluginErrorId::SymbolNotFound
                    &&& e.message() == symbol_not_found_message(function_name@)
                    &&& call_ensures(
                        lookup,
                        (&self@[position_of(self@, plugin_name@)].handle, function_name),
                        None::<S>,
                    )
                },
            },
    {
        match self.find(plugin_name) {
            None => Err(PluginError::not_ready(plugin_name)),
            Some(index) => self.resolve_at(index, function_name, &lookup),
        }
    }

    /// Builds the call chain for `function_name`: walks the load order in
    /// direction `co`, resolves the function in each plugin, and collects
    /// what was resolved. A plugin that is disabled, or in which `lookup`
    /// finds nothing, is left out; it does not stop the walk.
    pub fn get_all_plugin_func_with_order<'a, S, F: Fn(&'a H, &str) -> Option<S>>(
        &'a self,
        function_name: &str,
        co: CallOrder,
        lookup: F,
    ) -> (chain: Vec<S>)
        requires
            self.wf(),
            forall|i: int|
                0 <= i < self@.len() && (#[trigger] self@[i]).state
                    == PluginActivateState::Activate ==> call_requires(
                    lookup,
                    (&self@[i].handle, function_name),
                ),
        ensures
            chain@.len() <= self@.len(),
            exists|outcomes: Seq<Option<S>>|
                outcomes_allowed(self@, function_name, lookup, outcomes) && chain@ == chain_of(
                    outcomes,
                    co,
                ),
    {
        let mut result: Vec<S> = Vec::new();
        let len = self.order.len();
        let ghost mut walked: Seq<Option<S>> = Seq::empty();
        let mut i: usize = 0;
        while i < len
            invariant
                self.wf(),
                len == self@.len(),
                i <= len,
                forall|k: int|
                    0 <= k < self@.len() && (#[trigger] self@[k]).state
                        == PluginActivateState::Activate ==> call_requires(
                        lookup,
                        (&self@[k].handle, function_name),
                    ),
                walked.len() == i,
                forall|k: int|
                    0 <= k < i ==> outcome_allowed(
                        self@[if co == CallOrder::Asc {
                            k
                        } else {
                            len - 1 - k
                        }],
                        function_name,
                        lookup,
                        #[trigger] walked[k],
                    ),
                result@ == successes(walked),
                result@.len() <= i,
            decreases len - i,
        {
            let index = if co == CallOrder::Asc {
                i
            } else {
                len - 1 - i
            };
            let ghost outcome;
            match self.resolve_at(index, function_name, &lookup) {
                Ok(func) => {
                    proof {
                        outcome = Some(func);
                    }
                    result.push(func);
                },
                Err(_) => {
                    proof {
                        outcome = None;
                    }
                },
            }
            proof {
                lemma_successes_push(walked, outcome);
                walked = walked.push(outcome);
            }
            i += 1;
        }
        proof {
            let outcomes = if co == CallOrder::Asc {
                walked
            } else {
                walked.reverse()
            };
            assert(walked.reverse().reverse() =~= walked);
            assert forall|k: int| 0 <= k < self@.len() implies outcome_allowed(
                #[trigger] self@[k],
                function_name,
                lookup,
                outcomes[k],
            ) by {
                if co == CallOrder::Asc {
                    assert(outcome_allowed(self@[k], function_name, lookup, walked[k]));
                } else {
                    let t = len - 1 - k;
                    assert(outcome_allowed(self@[len - 1 - t], function_name, lookup, walked[t]));
                }
            }
            assert(outcomes_allowed(self@, function_name, lookup, outcomes));
            assert(result@ == chain_of(outcomes, co));
        }
        result
    }

    /// The name and activation state of the plugin at `index` of the load
    /// order, or nothing where `index` is out of range.
    pub fn get_plugin_activate_state_with_order(&self, index: usize) -> (r: Option<
        (String, PluginActivateState),
    >)
        requires
            self.wf(),
        ensures
            r is Some <==> index < self@.len(),
            r matches Some((name, state)) ==> name@ == self@[index as int].name && state
                == self@[index as int].state,
    {
        if self.order.len() <= index {
            return None;
        }
        Some((self.order[index].clone(), self.plugin_list[index].ac_state))
    }

    /// The name and activation state of the plugin `plugin_name`, or nothing
    /// where it is not loaded.
    pub fn get_plugin_activate_state(&self, plugin_name: &str) -> (r: Option<
        (String, PluginActivateState),
    >)
        requires
            self.wf(),
        ensures
            r is Some <==> is_loaded(self@, plugin_name@),
            r matches Some((name, state)) ==> name@ == plugin_name@ && state
                == self@[position_of(self@, plugin_name@)].state,
    {
        match self.find(plugin_name) {
            Some(index) => Some((plugin_name.to_owned(), self.plugin_list[index].ac_state)),
            None => None,
        }
    }

    /// Sets the activation state of the plugin at `index` of the load order
    /// and returns the state applied, or nothing where `index` is out of
    /// range. No other plugin is touched, and nothing is unloaded.
    pub fn set_plugin_activate_state_with_order(
        &mut self,
        index: usize,
        state: PluginActivateState,
    ) -> (r: Option<PluginActivateState>)
        requires
            old(self).wf(),
        ensures
            final(self).wf(),
            final(self).base_path() == old(self).base_path(),
            index < old(self)@.len() ==> r == Some(state) && final(self)@ == old(self)@.update(
                index as int,
                with_state(old(self)@[index as int], state),
            ),
            index >= old(self)@.len() ==> r is None && final(self)@ == old(self)@,
    {
        if self.order.len() <= index {
            return None;
        }
        let ghost before = self@;
        self.plugin_list[index].ac_state = state;
        proof {
            assert(self@ =~= before.update(index as int, with_state(before[index as int], state)));
            assert forall|i: int, j: int| 0 <= i < j < self@.len() implies (#[trigger] self@[i]).name
                != (#[trigger] self@[j]).name by {
                assert(before[i].name != before[j].name);
            }
        }
        Some(state)
    }

    /// Sets the activation state of the plugin `plugin_name` and returns the
    /// state applied, or nothing where it is not loaded. No other plugin is
    /// touched, and nothing is unloaded.
    pub fn set_plugin_activate_state(
        &mut self,
        plugin_name: &str,
        state: PluginActivateState,
    ) -> (r: Option<PluginActivateState>)
        requires
            old(self).wf(),
        ensures
            final(self).wf(),
            final(self).base_path() == old(self).base_path(),
            is_loaded(old(self)@, plugin_name@) ==> r == Some(state) && final(self)@ == old(
                self,
            )@.update(
                position_of(old(self)@, plugin_name@),
                with_state(old(self)@[position_of(old(self)@, plugin_name@)], state),
            ),
            is_loaded(old(self)@, plugin_name@) ==> resolution_gate(final(self)@, plugin_name@)
                == match state {
                PluginActivateState::Activate => None,
                PluginActivateState::Disable => Some(PluginErrorId::PluginDisable),
            },
            !is_loaded(old(self)@, plugin_name@) ==> r is None && final(self)@ == old(self)@,
    {
        proof {
            if is_loaded(self@, plugin_name@) {
                activation_state_gates_resolution(self@, plugin_name@, state);
            }
        }
        match self.find(plugin_name) {
            Some(index) => self.set_plugin_activate_state_with_order(index, state),
            None => None,
        }
    }

    /// The number of loaded plugins.
    pub fn loaded_plugin_counts(&self) -> (n: usize)
        ensures
            n == self@.len(),
    {
        self.order.len()
    }

    /// The names of the loaded plugins, in load order.
    pub fn get_plugin_ordered_list(&self) -> (list: &Vec<String>)
        ensures
            list.deep_view() == names(self@),
    {
        proof {
            assert(self.order.deep_view() =~= names(self@));
        }
        &self.order
    }

    /// Unloads the plugin at `index` of the load order, dropping its handle.
    /// The plugins after it move up by one. Does nothing where `index` is
    /// out of range.
    pub fn unload_specify_plugin_with_index(&mut self, index: usize)
        requires
            old(self).wf(),
        ensures
            final(self).wf(),
            final(self).base_path() == old(self).base_path(),
            index < old(self)@.len() ==> final(self)@ == old(self)@.remove(index as int),
            index < old(self)@.len() ==> final(self)@.len() == old(self)@.len() - 1,
            index < old(self)@.len() ==> !is_loaded(final(self)@, old(self)@[index as int].name),
            index >= old(self)@.len() ==> final(self)@ == old(self)@,
    {
        proof {
            if index < self@.len() {
                lemma_position_unique(self@, index as int);
                unloaded_plugin_is_not_ready(self@, self@[index as int].name);
            }
        }
        if self.order.len() > index {
            let ghost before = self@;
            self.order.remove(index);
            self.plugin_list.remove(index);
            proof {
                assert(self@ =~= before.remove(index as int));
                assert forall|i: int, j: int| 0 <= i < j < self@.len() implies (
                #[trigger] self@[i]).name != (#[trigger] self@[j]).name by {
                    let bi = if i < index { i } else { i + 1 };
                    let bj = if j < index { j } else { j + 1 };
                    assert(before[bi].name != before[bj].name);
                }
            }
        }
    }

    /// Unloads the plugin `name`, dropping its handle. Its place in the load
    /// order is found at the time of the call. Does nothing where `name` is
    /// not loaded.
    pub fn unload_specify_plugin_with_name(&mut self, name: &str)
        requires
            old(self).wf(),
        ensures
            final(self).wf(),
            final(self).base_path() == old(self).base_path(),
            is_loaded(old(self)@, name@) ==> final(self)@ == old(self)@.remove(
                position_of(old(self)@, name@),
            ),
            is_loaded(old(self)@, name@) ==> final(self)@.len() == old(self)@.len() - 1,
            !is_loaded(old(self)@, name@) ==> final(self)@ == old(self)@,
            !is_loaded(final(self)@, name@),
            !names(final(self)@).contains(name@),
            resolution_gate(final(self)@, name@) == Some(PluginErrorId::NotReady),
    {
        proof {
            if is_loaded(self@, name@) {
                unloaded_plugin_is_not_ready(self@, name@);
            } else {
                assert forall|k: int| 0 <= k < names(self@).len() implies names(self@)[k]
                    != name@ by {
                    assert(self@[k].name != name@);
                }
            }
        }
        if let Some(index) = self.find(name) {
            self.unload_specify_plugin_with_index(index);
        }
    }

    /// Unloads every plugin, dropping every handle.
    pub fn unload_all_plugin(&mut self)
        requires
            old(self).wf(),
        ensures
            final(self).wf(),
            final(self).base_path() == old(self).base_path(),
            final(self)@ == Seq::<PluginRecord<H>>::empty(),
            final(self)@.len() == 0,
            names(final(self)@) == Seq::<Seq<char>>::empty(),
    {
        self.plugin_list.clear();
        self.order.clear();
        proof {
            assert(self@ =~= Seq::<PluginRecord<H>>::empty());
            assert(names(self@) =~= Seq::<Seq<char>>::empty());
        }
    }
}

} // verus!
