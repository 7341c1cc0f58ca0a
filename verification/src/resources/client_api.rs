//! Answers to the clients that ask which flags are on, and the cache of
//! enabled flags behind them.

use vstd::prelude::*;
use serde_json::Value;
use crate::json::json_entries;
use crate::models::{copy_flags, flag_models, Environment, FeatureFlag, FlagModel};
use crate::repository::RepositoryError;
use crate::resolver::{enabled_only, environment_flags_from_context, environment_states, global_flags_from_context, global_states};
use crate::resources::CustomError;
use crate::services::ServiceError;

verus! {

/// The enabled flags among `source`, copied in order.
pub fn copy_enabled(source: &Vec<FeatureFlag>) -> (r: Vec<FeatureFlag>)
    ensures
        flag_models(r@) == enabled_only(flag_models(source@)),
{
    let ghost on = |f: FlagModel| f.enabled;
    let ghost all = flag_models(source@);
    let mut out: Vec<FeatureFlag> = Vec::new();
    let mut i: usize = 0;
    proof {
        reveal(Seq::filter);
        assert(all.take(0).filter(on) =~= Seq::<FlagModel>::empty());
    }
    while i < source.len()
        invariant
            i <= source.len(),
            all == flag_models(source@),
            on == (|f: FlagModel| f.enabled),
            flag_models(out@) == all.take(i as int).filter(on),
        decreases source.len() - i,
    {
        proof {
            reveal(Seq::filter);
            assert(all.take(i + 1).drop_last() =~= all.take(i as int));
            assert(all.take(i + 1).last() == source@[i as int]@);
        }
        let ghost before = out@;
        if source[i].enabled {
            out.push(source[i].clone());
            assert(flag_models(out@) =~= flag_models(before).push(source@[i as int]@));
        }
        i += 1;
    }
    assert(all.take(source.len() as int) =~= all);
    out
}

/// The enabled flags as they were last fetched. An empty cache holds
/// nothing and asks for a fetch.
#[derive(Debug)]
pub struct FlagCache {
    pub flags: Vec<FeatureFlag>,
}

impl View for FlagCache {
    type V = Seq<FlagModel>;

    open spec fn view(&self) -> Seq<FlagModel> {
        flag_models(self.flags@)
    }
}

impl FlagCache {
    /// A cache that holds nothing.
    pub fn new() -> (r: Self)
        ensures
            r@ == Seq::<FlagModel>::empty(),
    {
        let r = FlagCache { flags: Vec::new() };
        assert(r@ =~= Seq::<FlagModel>::empty());
        r
    }

    /// A copy of the cached flags, or `None` where the cache is empty and
    /// the flags have to be fetched.
    pub fn get_all_flags(&self) -> (r: Option<Vec<FeatureFlag>>)
        ensures
            match r {
                Some(flags) => self@.len() > 0 && flag_models(flags@) == self@,
                None => self@.len() == 0,
            },
    {
        if self.flags.len() == 0 {
            None
        } else {
            Some(copy_flags(&self.flags))
        }
    }

    /// Takes in what a fetch of the flags gave. The enabled flags among
    /// them become the cache's content and are handed back; a disabled flag
    /// is never cached. A failed fetch leaves the cache as it was and is
    /// handed on.
    pub fn refill(&mut self, fetched: Result<Vec<FeatureFlag>, RepositoryError>) -> (r: Result<
        Vec<FeatureFlag>,
        RepositoryError,
    >)
        ensures
            match fetched {
                Ok(flags) => final(self)@ == enabled_only(flag_models(flags@)) && (r matches Ok(
                    out,
                ) && flag_models(out@) == final(self)@),
                Err(e) => final(self)@ == old(self)@ && r == Err::<Vec<FeatureFlag>, RepositoryError>(
                    e,
                ),
            },
    {
        match fetched {
            Ok(flags) => {
                let kept = copy_enabled(&flags);
                let out = copy_flags(&kept);
                self.flags = kept;
                Ok(out)
            },
            Err(e) => Err(e),
        }
    }

    /// Takes note of a change of a flag that was tried: where it succeeded
    /// the cache is emptied, where it failed the cache stays as it was.
    pub fn after_change<T, E>(&mut self, outcome: &Result<T, E>)
        ensures
            outcome is Ok ==> final(self)@ == Seq::<FlagModel>::empty(),
            outcome is Err ==> final(self)@ == old(self)@,
    {
        if outcome.is_ok() {
            self.invalidate();
        }
    }

    /// Empties the cache.
    pub fn invalidate(&mut self)
        ensures
            final(self)@ == Seq::<FlagModel>::empty(),
    {
        self.flags = Vec::new();
        assert(self@ =~= Seq::<FlagModel>::empty());
    }
}

/// The answer to a client that names no environment, from what the fetch of
/// the global flags gave: the evaluation of every enabled flag, or an
/// application error where the fetch failed.
pub fn get_flags_from_context(
    all_flags: Result<Vec<FeatureFlag>, RepositoryError>,
    context: &serde_json::Map<String, Value>,
) -> (r: Result<serde_json::Map<String, Value>, CustomError>)
    ensures
        match all_flags {
            Ok(flags) => r matches Ok(states) && json_entries(states) == global_states(
                flag_models(flags@),
                json_entries(*context),
            ),
            Err(_) => r matches Err(CustomError::ApplicationError),
        },
{
    match all_flags {
        Ok(flags) => Ok(global_flags_from_context(&flags, context)),
        Err(_) => Err(CustomError::ApplicationError),
    }
}

/// The environment that a client named, from the lookup's result. A lookup
/// that failed is answered with `NotFound`: the request is never evaluated
/// as if no environment had been named.
pub fn found_environment(lookup: Result<Environment, ServiceError>) -> (r: Result<
    Environment,
    CustomError,
>)
    ensures
        match lookup {
            Ok(env) => r == Ok::<Environment, CustomError>(env),
            Err(_) => r matches Err(CustomError::NotFound),
        },
{
    match lookup {
        Ok(env) => Ok(env),
        Err(_) => Err(CustomError::NotFound),
    }
}

/// The answer to a client that named `environment`, from what the fetch of
/// the global flags gave: the environment's own flags over the enabled
/// global ones, or an application error where the fetch failed.
pub fn get_environment_flags_from_context(
    environment: &Environment,
    all_flags: Result<Vec<FeatureFlag>, RepositoryError>,
    context: &serde_json::Map<String, Value>,
) -> (r: Result<serde_json::Map<String, Value>, CustomError>)
    ensures
        match all_flags {
            Ok(flags) => r matches Ok(states) && json_entries(states) == environment_states(
                environment@,
                flag_models(flags@),
                json_entries(*context),
            ),
            Err(_) => r matches Err(CustomError::ApplicationError),
        },
{
    match all_flags {
        Ok(flags) => Ok(environment_flags_from_context(environment, &flags, context)),
        Err(_) => Err(CustomError::ApplicationError),
    }
}

} // verus!
