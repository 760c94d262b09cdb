//! The mathematical model of the registry: a sequence of records in load
//! order, and the functions over it that the registry's contracts use.

use vstd::prelude::*;
use crate::error::PluginErrorId;
use crate::plugin::{CallOrder, PluginActivateState};

verus! {

/// What the registry knows of one loaded plugin.
pub struct PluginRecord<H> {
    /// The plugin's name, unique within the registry.
    pub name: Seq<char>,
    /// The native handle the registry owns for it.
    pub handle: H,
    /// The plugin's index in the load order at the time it was loaded.
    pub load_order: nat,
    /// Whether its symbols may be resolved.
    pub state: PluginActivateState,
}

/// The record of a plugin that has just been loaded at index `load_order`.
pub open spec fn fresh_record<H>(name: Seq<char>, handle: H, load_order: nat) -> PluginRecord<H> {
    PluginRecord { name, handle, load_order, state: PluginActivateState::Disable }
}

/// The names of the records, in load order.
pub open spec fn names<H>(s: Seq<PluginRecord<H>>) -> Seq<Seq<char>> {
    Seq::new(s.len(), |i: int| s[i].name)
}

/// No two records share a name.
pub open spec fn distinct_names<H>(s: Seq<PluginRecord<H>>) -> bool {
    forall|i: int, j: int|
        0 <= i < j < s.len() ==> (#[trigger] s[i]).name != (#[trigger] s[j]).name
}

/// Some record is named `name`.
pub open spec fn is_loaded<H>(s: Seq<PluginRecord<H>>, name: Seq<char>) -> bool {
    exists|i: int| 0 <= i < s.len() && (#[trigger] s[i]).name == name
}

/// The index of the record named `name`; meaningful when `is_loaded`.
pub open spec fn position_of<H>(s: Seq<PluginRecord<H>>, name: Seq<char>) -> int {
    choose|i: int| 0 <= i < s.len() && (#[trigger] s[i]).name == name
}

/// `r` with its activation state replaced by `state`.
pub open spec fn with_state<H>(r: PluginRecord<H>, state: PluginActivateState) -> PluginRecord<H> {
    PluginRecord { name: r.name, handle: r.handle, load_order: r.load_order, state }
}

/// Where the records are distinctly named, a record's name determines its index.
pub proof fn lemma_position_unique<H>(s: Seq<PluginRecord<H>>, i: int)
    requires
        distinct_names(s),
        0 <= i < s.len(),
    ensures
        is_loaded(s, s[i].name),
        position_of(s, s[i].name) == i,
{
    let j = position_of(s, s[i].name);
    assert(s[i].name == s[i].name);
    if j < i {
        assert(s[j].name != s[i].name);
    } else if i < j {
        assert(s[i].name != s[j].name);
    }
}

/// Why resolution on `name` is refused before any symbol is looked up:
/// `NotReady` where no record has that name, `PluginDisable` where the record
/// is disabled. `None` where the plugin is active, so that the lookup decides.
pub open spec fn resolution_gate<H>(s: Seq<PluginRecord<H>>, name: Seq<char>) -> Option<
    PluginErrorId,
> {
    if !is_loaded(s, name) {
        Some(PluginErrorId::NotReady)
    } else if s[position_of(s, name)].state == PluginActivateState::Disable {
        Some(PluginErrorId::PluginDisable)
    } else {
        None
    }
}

/// `outcome` is a possible result of resolving `function_name` on `r`:
/// nothing for a disabled plugin, and for an active one whatever `lookup`
/// may return on its handle.
pub open spec fn outcome_allowed<'a, H, S, F: Fn(&'a H, &str) -> Option<S>>(
    r: PluginRecord<H>,
    function_name: &str,
    lookup: F,
    outcome: Option<S>,
) -> bool {
    match r.state {
        PluginActivateState::Disable => outcome is None,
        PluginActivateState::Activate => call_ensures(lookup, (&r.handle, function_name), outcome),
    }
}

/// `outcomes` holds, for each record in load order, a possible result of
/// resolving `function_name` on it.
pub open spec fn outcomes_allowed<'a, H, S, F: Fn(&'a H, &str) -> Option<S>>(
    s: Seq<PluginRecord<H>>,
    function_name: &str,
    lookup: F,
    outcomes: Seq<Option<S>>,
) -> bool {
    &&& outcomes.len() == s.len()
    &&& forall|i: int|
        0 <= i < s.len() ==> outcome_allowed(#[trigger] s[i], function_name, lookup, outcomes[i])
}

/// The resolved functions among `outcomes`, in the order of `outcomes`.
pub open spec fn successes<S>(outcomes: Seq<Option<S>>) -> Seq<S>
    decreases outcomes.len(),
{
    if outcomes.len() == 0 {
        Seq::empty()
    } else {
        match outcomes.last() {
            Some(f) => successes(outcomes.drop_last()).push(f),
            None => successes(outcomes.drop_last()),
        }
    }
}

/// The call chain that the per-plugin `outcomes`, given in load order, make
/// in direction `co`.
pub open spec fn chain_of<S>(outcomes: Seq<Option<S>>, co: CallOrder) -> Seq<S> {
    match co {
        CallOrder::Asc => successes(outcomes),
        CallOrder::Desc => successes(outcomes.reverse()),
    }
}

/// Appending one outcome appends its function, if it has one.
pub proof fn lemma_successes_push<S>(outcomes: Seq<Option<S>>, next: Option<S>)
    ensures
        successes(outcomes.push(next)) == match next {
            Some(f) => successes(outcomes).push(f),
            None => successes(outcomes),
        },
        successes(outcomes).len() <= outcomes.len(),
    decreases outcomes.len(),
{
    assert(outcomes.push(next).drop_last() =~= outcomes);
    if outcomes.len() > 0 {
        lemma_successes_push(outcomes.drop_last(), outcomes.last());
        assert(outcomes.drop_last().push(outcomes.last()) =~= outcomes);
    }
}

/// Putting one outcome in front puts its function, if it has one, in front.
proof fn lemma_successes_front<S>(first: Option<S>, outcomes: Seq<Option<S>>)
    ensures
        successes(seq![first] + outcomes) == match first {
            Some(f) => seq![f] + successes(outcomes),
            None => successes(outcomes),
        },
    decreases outcomes.len(),
{
    let whole = seq![first] + outcomes;
    if outcomes.len() == 0 {
        assert(whole.drop_last() =~= Seq::<Option<S>>::empty());
        assert(successes(whole.drop_last()) =~= Seq::<S>::empty());
        match first {
            Some(f) => {
                assert(successes(whole) =~= seq![f] + successes(outcomes));
            },
            None => {},
        }
    } else {
        lemma_successes_front(first, outcomes.drop_last());
        assert(whole.drop_last() =~= seq![first] + outcomes.drop_last());
        assert(whole.last() == outcomes.last());
        match (first, outcomes.last()) {
            (Some(f), Some(g)) => {
                assert((seq![f] + successes(outcomes.drop_last())).push(g) =~= seq![f] + successes(
                    outcomes.drop_last(),
                ).push(g));
            },
            _ => {},
        }
    }
}

/// Reversing the outcomes reverses the functions resolved among them.
proof fn lemma_successes_reverse<S>(outcomes: Seq<Option<S>>)
    ensures
        successes(outcomes.reverse()) == successes(outcomes).reverse(),
    decreases outcomes.len(),
{
    if outcomes.len() == 0 {
        assert(successes(outcomes).reverse() =~= Seq::<S>::empty());
    } else {
        let init = outcomes.drop_last();
        lemma_successes_reverse(init);
        lemma_successes_front(outcomes.last(), init.reverse());
        assert(outcomes.reverse() =~= seq![outcomes.last()] + init.reverse());
        match outcomes.last() {
            Some(f) => {
                assert(successes(init).push(f).reverse() =~= seq![f] + successes(init).reverse());
            },
            None => {},
        }
    }
}

/// A descending call chain is the ascending chain over the same outcomes,
/// reversed: both directions hold the same functions, and each is no longer
/// than the number of plugins.
pub proof fn descending_chain_reverses_ascending<S>(outcomes: Seq<Option<S>>)
    ensures
        chain_of(outcomes, CallOrder::Desc) == chain_of(outcomes, CallOrder::Asc).reverse(),
        chain_of(outcomes, CallOrder::Desc).len() == chain_of(outcomes, CallOrder::Asc).len(),
        chain_of(outcomes, CallOrder::Asc).len() <= outcomes.len(),
{
    lemma_successes_reverse(outcomes);
    lemma_successes_push(outcomes, None);
}

/// A plugin without an outcome is left out of the chain without disturbing
/// the others: with it and without it, the chain over the rest is the same.
pub proof fn skipped_plugin_leaves_chain<S>(outcomes: Seq<Option<S>>, i: int, co: CallOrder)
    requires
        0 <= i < outcomes.len(),
        outcomes[i] is None,
    ensures
        chain_of(outcomes, co) == chain_of(outcomes.remove(i), co),
{
    lemma_successes_remove_none(outcomes, i);
    let j = outcomes.len() - 1 - i;
    lemma_successes_remove_none(outcomes.reverse(), j);
    assert(outcomes.reverse().remove(j) =~= outcomes.remove(i).reverse());
}

/// Removing an entry that holds no function changes nothing of `successes`.
proof fn lemma_successes_remove_none<S>(outcomes: Seq<Option<S>>, i: int)
    requires
        0 <= i < outcomes.len(),
        outcomes[i] is None,
    ensures
        successes(outcomes) == successes(outcomes.remove(i)),
    decreases outcomes.len(),
{
    if i == outcomes.len() - 1 {
        assert(outcomes.remove(i) =~= outcomes.drop_last());
    } else {
        lemma_successes_remove_none(outcomes.drop_last(), i);
        assert(outcomes.remove(i).drop_last() =~= outcomes.drop_last().remove(i));
        assert(outcomes.remove(i).last() == outcomes.last());
    }
}

/// A plugin that has just been loaded is found under its name, at the end of
/// the load order, and resolving on it is refused with `PluginDisable`. The
/// plugins loaded before it are where and as they were.
pub proof fn fresh_plugin_is_disabled<H>(s: Seq<PluginRecord<H>>, name: Seq<char>, handle: H)
    requires
        distinct_names(s),
        !is_loaded(s, name),
    ensures
        distinct_names(s.push(fresh_record(name, handle, s.len()))),
        is_loaded(s.push(fresh_record(name, handle, s.len())), name),
        position_of(s.push(fresh_record(name, handle, s.len())), name) == s.len(),
        resolution_gate(s.push(fresh_record(name, handle, s.len())), name) == Some(
            PluginErrorId::PluginDisable,
        ),
        forall|i: int|
            0 <= i < s.len() ==> (#[trigger] s.push(fresh_record(name, handle, s.len()))[i])
                == s[i],
{
    let after = s.push(fresh_record(name, handle, s.len()));
    assert forall|i: int, j: int| 0 <= i < j < after.len() implies (#[trigger] after[i]).name != (
    #[trigger] after[j]).name by {
        if j < s.len() {
            assert(s[i].name != s[j].name);
        } else {
            assert(s[i].name != name);
        }
    }
    lemma_position_unique(after, s.len() as int);
}

/// Setting a loaded plugin's state decides how resolution on it is gated:
/// `Activate` lets the lookup decide, `Disable` refuses with `PluginDisable`.
/// The plugin stays loaded, in its place.
pub proof fn activation_state_gates_resolution<H>(
    s: Seq<PluginRecord<H>>,
    name: Seq<char>,
    state: PluginActivateState,
)
    requires
        distinct_names(s),
        is_loaded(s, name),
    ensures
        ({
            let i = position_of(s, name);
            let after = s.update(i, with_state(s[i], state));
            &&& distinct_names(after)
            &&& names(after) == names(s)
            &&& position_of(after, name) == i
            &&& resolution_gate(after, name) == match state {
                PluginActivateState::Activate => None,
                PluginActivateState::Disable => Some(PluginErrorId::PluginDisable),
            }
        }),
{
    let i = position_of(s, name);
    let after = s.update(i, with_state(s[i], state));
    assert forall|a: int, b: int| 0 <= a < b < after.len() implies (#[trigger] after[a]).name != (
    #[trigger] after[b]).name by {
        assert(s[a].name != s[b].name);
    }
    assert(names(after) =~= names(s));
    lemma_position_unique(after, i);
}

/// Unloading a plugin makes the registry one shorter, takes its name out of
/// the load order and keeps the order of the rest; resolving on that name is
/// then refused with `NotReady`.
pub proof fn unloaded_plugin_is_not_ready<H>(s: Seq<PluginRecord<H>>, name: Seq<char>)
    requires
        distinct_names(s),
        is_loaded(s, name),
    ensures
        ({
            let i = position_of(s, name);
            let after = s.remove(i);
            &&& after.len() == s.len() - 1
            &&& distinct_names(after)
            &&& names(after) == names(s).remove(i)
            &&& !names(after).contains(name)
            &&& !is_loaded(after, name)
            &&& resolution_gate(after, name) == Some(PluginErrorId::NotReady)
        }),
{
    let i = position_of(s, name);
    let after = s.remove(i);
    assert forall|a: int, b: int| 0 <= a < b < after.len() implies (#[trigger] after[a]).name != (
    #[trigger] after[b]).name by {
        let sa = if a < i { a } else { a + 1 };
        let sb = if b < i { b } else { b + 1 };
        assert(s[sa].name != s[sb].name);
    }
    assert(names(after) =~= names(s).remove(i));
    assert forall|k: int| 0 <= k < after.len() implies (#[trigger] after[k]).name != name by {
        let sk = if k < i { k } else { k + 1 };
        if sk < i {
            assert(s[sk].name != s[i].name);
        } else {
            assert(s[i].name != s[sk].name);
        }
    }
    assert forall|k: int| 0 <= k < names(after).len() implies names(after)[k] != name by {
        assert(after[k].name != name);
    }
}

/// An empty registry has no names, and resolving on any name is refused
/// with `NotReady`.
pub proof fn empty_registry_has_nothing<H>(name: Seq<char>)
    ensures
        names(Seq::<PluginRecord<H>>::empty()) == Seq::<Seq<char>>::empty(),
        !is_loaded(Seq::<PluginRecord<H>>::empty(), name),
        resolution_gate(Seq::<PluginRecord<H>>::empty(), name) == Some(PluginErrorId::NotReady),
{
    assert(names(Seq::<PluginRecord<H>>::empty()) =~= Seq::<Seq<char>>::empty());
}

/// Where the records are distinctly named, how resolution on a record's name
/// is gated is read off that record.
proof fn lemma_gate_at<H>(s: Seq<PluginRecord<H>>, i: int)
    requires
        distinct_names(s),
        0 <= i < s.len(),
    ensures
        resolution_gate(s, s[i].name) == match s[i].state {
            PluginActivateState::Activate => None,
            PluginActivateState::Disable => Some(PluginErrorId::PluginDisable),
        },
{
    lemma_position_unique(s, i);
}

/// Loading a plugin changes nothing for any other name: whether it is
/// loaded, and how resolution on it is gated, stay as they were.
pub proof fn load_leaves_other_plugins<H>(
    s: Seq<PluginRecord<H>>,
    name: Seq<char>,
    handle: H,
    other: Seq<char>,
)
    requires
        distinct_names(s),
        !is_loaded(s, name),
        other != name,
    ensures
        is_loaded(s.push(fresh_record(name, handle, s.len())), other) == is_loaded(s, other),
        resolution_gate(s.push(fresh_record(name, handle, s.len())), other) == resolution_gate(
            s,
            other,
        ),
{
    let after = s.push(fresh_record(name, handle, s.len()));
    fresh_plugin_is_disabled(s, name, handle);
    if is_loaded(s, other) {
        let i = position_of(s, other);
        assert(after[i] == s[i]);
        lemma_gate_at(s, i);
        lemma_gate_at(after, i);
    } else {
        assert forall|k: int| 0 <= k < after.len() implies (#[trigger] after[k]).name != other by {
            if k < s.len() {
                assert(s[k].name != other);
            }
        }
    }
}

/// Setting one plugin's activation state changes nothing for any other
/// name.
pub proof fn activation_leaves_other_plugins<H>(
    s: Seq<PluginRecord<H>>,
    name: Seq<char>,
    state: PluginActivateState,
    other: Seq<char>,
)
    requires
        distinct_names(s),
        is_loaded(s, name),
        other != name,
    ensures
        ({
            let i = position_of(s, name);
            let after = s.update(i, with_state(s[i], state));
            &&& is_loaded(after, other) == is_loaded(s, other)
            &&& resolution_gate(after, other) == resolution_gate(s, other)
        }),
{
    let i = position_of(s, name);
    let after = s.update(i, with_state(s[i], state));
    activation_state_gates_resolution(s, name, state);
    if is_loaded(s, other) {
        let j = position_of(s, other);
        assert(after[j] == s[j]);
        lemma_gate_at(s, j);
        lemma_gate_at(after, j);
    } else {
        assert forall|k: int| 0 <= k < after.len() implies (#[trigger] after[k]).name != other by {
            assert(s[k].name != other);
        }
    }
}

/// Unloading one plugin changes nothing for any other name, wherever in the
/// load order the two stand.
pub proof fn unload_leaves_other_plugins<H>(
    s: Seq<PluginRecord<H>>,
    name: Seq<char>,
    other: Seq<char>,
)
    requires
        distinct_names(s),
        is_loaded(s, name),
        other != name,
    ensures
        is_loaded(s.remove(position_of(s, name)), other) == is_loaded(s, other),
        resolution_gate(s.remove(position_of(s, name)), other) == resolution_gate(s, other),
{
    let i = position_of(s, name);
    let after = s.remove(i);
    unloaded_plugin_is_not_ready(s, name);
    if is_loaded(s, other) {
        let j = position_of(s, other);
        let aj = if j < i { j } else { j - 1 };
        assert(after[aj] == s[j]);
        lemma_gate_at(s, j);
        lemma_gate_at(after, aj);
    } else {
        assert forall|k: int| 0 <= k < after.len() implies (#[trigger] after[k]).name != other by {
            let sk = if k < i { k } else { k + 1 };
            assert(s[sk].name != other);
        }
    }
}

/// A lookup that answers alike whenever it is asked the same leaves one
/// vector of outcomes only. Two chains built with it over one registry, one
/// in each direction, are then each other's reverse: the same functions from
/// the same plugins, none gained and none lost.
pub proof fn chains_of_one_lookup_are_reverses<'a, H, S, F: Fn(&'a H, &str) -> Option<S>>(
    s: Seq<PluginRecord<H>>,
    function_name: &str,
    lookup: F,
    first: Seq<Option<S>>,
    second: Seq<Option<S>>,
)
    requires
        outcomes_allowed(s, function_name, lookup, first),
        outcomes_allowed(s, function_name, lookup, second),
        forall|i: int, a: Option<S>, b: Option<S>|
            #![trigger
                call_ensures(lookup, (&s[i].handle, function_name), a),
                call_ensures(lookup, (&s[i].handle, function_name), b)
            ]
            0 <= i < s.len() && call_ensures(lookup, (&s[i].handle, function_name), a)
                && call_ensures(lookup, (&s[i].handle, function_name), b) ==> a == b,
    ensures
        first == second,
        chain_of(second, CallOrder::Desc) == chain_of(first, CallOrder::Asc).reverse(),
        chain_of(second, CallOrder::Asc) == chain_of(first, CallOrder::Desc).reverse(),
{
    assert forall|i: int| 0 <= i < s.len() implies first[i] == second[i] by {
        assert(outcome_allowed(s[i], function_name, lookup, first[i]));
        assert(outcome_allowed(s[i], function_name, lookup, second[i]));
    }
    assert(first =~= second);
    descending_chain_reverses_ascending(first);
    assert(chain_of(first, CallOrder::Asc).reverse().reverse() =~= chain_of(
        first,
        CallOrder::Asc,
    ));
}

} // verus!
