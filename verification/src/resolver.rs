//! Which flags are on for a request: the global flags alone, or an
//! environment's own flags laid over them.

use vstd::prelude::*;
use serde_json::Value;
use crate::json::{json_entries, json_map_contains_key, json_map_insert_bool, json_map_new, JsonModel};
use crate::models::{flag_holds, flag_models, flag_states, has_name, names_distinct, Environment, EnvironmentModel, FeatureFlag, FlagModel};

verus! {

/// The enabled flags of a sequence, in order.
pub open spec fn enabled_only(flags: Seq<FlagModel>) -> Seq<FlagModel> {
    flags.filter(|f: FlagModel| f.enabled)
}

/// The result of a request that names no environment: every enabled global
/// flag with its evaluation. Disabled flags do not appear.
pub open spec fn global_states(global: Seq<FlagModel>, context: Map<Seq<char>, JsonModel>) -> Map<
    Seq<char>,
    JsonModel,
> {
    flag_states(enabled_only(global), context)
}

/// The states `local` with the global flags laid under them: an enabled
/// global flag adds its evaluation unless its name is taken already, by a
/// local state or by an earlier global flag.
pub open spec fn overlay_states(
    local: Map<Seq<char>, JsonModel>,
    global: Seq<FlagModel>,
    context: Map<Seq<char>, JsonModel>,
) -> Map<Seq<char>, JsonModel>
    decreases global.len(),
{
    if global.len() == 0 {
        local
    } else {
        let earlier = overlay_states(local, global.drop_last(), context);
        let flag = global.last();
        if flag.enabled && !earlier.dom().contains(flag.name) {
            earlier.insert(flag.name, JsonModel::Bool(flag_holds(flag, context)))
        } else {
            earlier
        }
    }
}

/// The result of a request that names an environment: each of its own flags
/// with its evaluation, whether enabled or not, and under them the enabled
/// global flags.
pub open spec fn environment_states(
    environment: EnvironmentModel,
    global: Seq<FlagModel>,
    context: Map<Seq<char>, JsonModel>,
) -> Map<Seq<char>, JsonModel> {
    overlay_states(flag_states(environment.flags, context), global, context)
}

/// The result of a request, with or without an environment.
pub open spec fn resolved_states(
    environment: Option<EnvironmentModel>,
    global: Seq<FlagModel>,
    context: Map<Seq<char>, JsonModel>,
) -> Map<Seq<char>, JsonModel> {
    match environment {
        Some(e) => environment_states(e, global, context),
        None => global_states(global, context),
    }
}

/// Evaluates the enabled flags among `global` in a request context.
pub fn global_flags_from_context(
    global: &Vec<FeatureFlag>,
    context: &serde_json::Map<String, Value>,
) -> (r: serde_json::Map<String, Value>)
    ensures
        json_entries(r) == global_states(flag_models(global@), json_entries(*context)),
{
    let ghost all = flag_models(global@);
    let ghost on = |f: FlagModel| f.enabled;
    let mut states = json_map_new();
    let mut i: usize = 0;
    proof {
        reveal(Seq::filter);
        assert(all.take(0).filter(on) =~= Seq::<FlagModel>::empty());
        assert(json_entries(states) =~= flag_states(all.take(0).filter(on), json_entries(*context)));
    }
    while i < global.len()
        invariant
            i <= global.len(),
            all == flag_models(global@),
            on == (|f: FlagModel| f.enabled),
            json_entries(states) == flag_states(all.take(i as int).filter(on), json_entries(*context)),
        decreases global.len() - i,
    {
        proof {
            reveal(Seq::filter);
            assert(all.take(i + 1).drop_last() =~= all.take(i as int));
            assert(all.take(i + 1).last() == global@[i as int]@);
        }
        let flag = &global[i];
        if flag.enabled {
            proof {
                let grown = all.take(i + 1).filter(on);
                assert(grown.drop_last() =~= all.take(i as int).filter(on));
                assert(grown.last() == flag@);
            }
            let state = flag.is_context_valid(context);
            json_map_insert_bool(&mut states, flag.name.clone(), state);
        }
        i += 1;
    }
    assert(all.take(global.len() as int) =~= all);
    states
}

/// Lays the enabled flags among `global` under the states in `local`.
pub fn overlay_global_flags(
    local: serde_json::Map<String, Value>,
    global: &Vec<FeatureFlag>,
    context: &serde_json::Map<String, Value>,
) -> (r: serde_json::Map<String, Value>)
    ensures
        json_entries(r) == overlay_states(
            json_entries(local),
            flag_models(global@),
            json_entries(*context),
        ),
{
    let ghost all = flag_models(global@);
    let ghost start = json_entries(local);
    let mut states = local;
    let mut i: usize = 0;
    while i < global.len()
        invariant
            i <= global.len(),
            all == flag_models(global@),
            json_entries(states) == overlay_states(start, all.take(i as int), json_entries(*context)),
        decreases global.len() - i,
    {
        proof {
            assert(all.take(i + 1).drop_last() =~= all.take(i as int));
            assert(all.take(i + 1).last() == global@[i as int]@);
        }
        let flag = &global[i];
        if flag.enabled && !json_map_contains_key(&states, flag.name.as_str()) {
            let state = flag.is_context_valid(context);
            json_map_insert_bool(&mut states, flag.name.clone(), state);
        }
        i += 1;
    }
    assert(all.take(global.len() as int) =~= all);
    states
}

/// Evaluates an environment's own flags in a request context and lays the
/// enabled global flags under them.
pub fn environment_flags_from_context(
    environment: &Environment,
    global: &Vec<FeatureFlag>,
    context: &serde_json::Map<String, Value>,
) -> (r: serde_json::Map<String, Value>)
    ensures
        json_entries(r) == environment_states(
            environment@,
            flag_models(global@),
            json_entries(*context),
        ),
{
    let local = environment.get_flags_from_context(context);
    overlay_global_flags(local, global, context)
}

/// Resolves a request: with an environment, its flags over the global ones;
/// without, the global ones alone.
pub fn resolve(
    environment: Option<&Environment>,
    global: &Vec<FeatureFlag>,
    context: &serde_json::Map<String, Value>,
) -> (r: serde_json::Map<String, Value>)
    ensures
        json_entries(r) == resolved_states(
            match environment {
                Some(e) => Some(e@),
                None => None,
            },
            flag_models(global@),
            json_entries(*context),
        ),
{
    match environment {
        Some(e) => environment_flags_from_context(e, global, context),
        None => global_flags_from_context(global, context),
    }
}

/// The evaluation of a sequence of flags has a state for exactly the names
/// that occur in it, and each state is a boolean.
pub proof fn lemma_flag_states_domain(flags: Seq<FlagModel>, context: Map<Seq<char>, JsonModel>)
    ensures
        forall|n: Seq<char>| flag_states(flags, context).dom().contains(n) <==> has_name(flags, n),
        forall|n: Seq<char>| #[trigger]
            flag_states(flags, context).dom().contains(n) ==> flag_states(flags, context)[n] is Bool,
    decreases flags.len(),
{
    if flags.len() > 0 {
        let rest = flags.drop_last();
        lemma_flag_states_domain(rest, context);
        assert forall|n: Seq<char>| flag_states(flags, context).dom().contains(n) implies has_name(
            flags,
            n,
        ) by {
            if n == flags.last().name {
                assert(flags[flags.len() - 1].name == n);
            } else {
                assert(has_name(rest, n));
                let k = choose|k: int| 0 <= k < rest.len() && #[trigger] rest[k].name == n;
                assert(flags[k].name == n);
            }
        }
        assert forall|n: Seq<char>| has_name(flags, n) implies flag_states(
            flags,
            context,
        ).dom().contains(n) by {
            let k = choose|k: int| 0 <= k < flags.len() && #[trigger] flags[k].name == n;
            if k < rest.len() {
                assert(rest[k].name == n);
                assert(has_name(rest, n));
            }
        }
    } else {
        assert forall|n: Seq<char>| !has_name(flags, n) by {}
    }
}

/// Where no two flags share a name, the state under a flag's name is that
/// flag's own evaluation.
pub proof fn lemma_flag_states_entry(
    flags: Seq<FlagModel>,
    context: Map<Seq<char>, JsonModel>,
    i: int,
)
    requires
        names_distinct(flags),
        0 <= i < flags.len(),
    ensures
        flag_states(flags, context).dom().contains(flags[i].name),
        flag_states(flags, context)[flags[i].name] == JsonModel::Bool(
            flag_holds(flags[i], context),
        ),
    decreases flags.len(),
{
    let rest = flags.drop_last();
    if i < rest.len() {
        assert(names_distinct(rest)) by {
            assert forall|a: int, b: int| 0 <= a < b < rest.len() implies rest[a].name
                != rest[b].name by {
                assert(flags[a].name != flags[b].name);
            }
        }
        lemma_flag_states_entry(rest, context, i);
        assert(flags[i].name != flags[flags.len() - 1].name);
        assert(rest[i] == flags[i]);
    }
}

/// Local states win: the overlay keeps every state of `local` as it is.
pub proof fn lemma_overlay_keeps_local(
    local: Map<Seq<char>, JsonModel>,
    global: Seq<FlagModel>,
    context: Map<Seq<char>, JsonModel>,
    name: Seq<char>,
)
    requires
        local.dom().contains(name),
    ensures
        overlay_states(local, global, context).dom().contains(name),
        overlay_states(local, global, context)[name] == local[name],
    decreases global.len(),
{
    if global.len() > 0 {
        lemma_overlay_keeps_local(local, global.drop_last(), context, name);
    }
}

/// The overlay has a state for exactly the local names and the names of the
/// enabled global flags.
pub proof fn lemma_overlay_domain(
    local: Map<Seq<char>, JsonModel>,
    global: Seq<FlagModel>,
    context: Map<Seq<char>, JsonModel>,
    name: Seq<char>,
)
    ensures
        overlay_states(local, global, context).dom().contains(name) <==> (local.dom().contains(name)
            || exists|i: int| 0 <= i < global.len() && global[i].enabled && #[trigger] global[i].name == name),
    decreases global.len(),
{
    if global.len() > 0 {
        let rest = global.drop_last();
        lemma_overlay_domain(local, rest, context, name);
        let named_in = |g: Seq<FlagModel>|
            exists|i: int| 0 <= i < g.len() && g[i].enabled && #[trigger] g[i].name == name;
        if named_in(rest) {
            let k = choose|k: int| 0 <= k < rest.len() && rest[k].enabled && #[trigger] rest[k].name == name;
            assert(global[k].enabled && global[k].name == name);
        }
        if named_in(global) {
            let k = choose|k: int| 0 <= k < global.len() && global[k].enabled && #[trigger] global[k].name == name;
            if k < rest.len() {
                assert(rest[k].enabled && rest[k].name == name);
            }
        }
        if global.last().enabled && global.last().name == name {
            assert(global[global.len() - 1].enabled && global[global.len() - 1].name == name);
        }
    }
}

/// A global flag that is enabled and not overridden surfaces with its own
/// evaluation, provided that no two global flags share a name.
pub proof fn lemma_overlay_adds_global(
    local: Map<Seq<char>, JsonModel>,
    global: Seq<FlagModel>,
    context: Map<Seq<char>, JsonModel>,
    i: int,
)
    requires
        names_distinct(global),
        0 <= i < global.len(),
        global[i].enabled,
        !local.dom().contains(global[i].name),
    ensures
        overlay_states(local, global, context).dom().contains(global[i].name),
        overlay_states(local, global, context)[global[i].name] == JsonModel::Bool(
            flag_holds(global[i], context),
        ),
    decreases global.len(),
{
    let rest = global.drop_last();
    if i < rest.len() {
        assert(names_distinct(rest)) by {
            assert forall|a: int, b: int| 0 <= a < b < rest.len() implies rest[a].name
                != rest[b].name by {
                assert(global[a].name != global[b].name);
            }
        }
        assert(rest[i] == global[i]);
        lemma_overlay_adds_global(local, rest, context, i);
        assert(global[i].name != global[global.len() - 1].name);
    } else {
        lemma_overlay_domain(local, rest, context, global[i].name);
        if exists|k: int| 0 <= k < rest.len() && rest[k].enabled && #[trigger] rest[k].name == global[i].name {
            let k = choose|k: int| 0 <= k < rest.len() && rest[k].enabled && #[trigger] rest[k].name == global[i].name;
            assert(global[k].name != global[i].name);
        }
    }
}

} // verus!
