//! Parsed configuration, immutable after startup, and the fatal errors
//! that reject a malformed configuration before the scheduler loop may
//! run. Device names are resolved to identifiers against the first
//! snapshot, and an unresolved name is fatal at startup, never at tick
//! time.

use vstd::prelude::*;

use crate::colourful::ColourfulConfig;
use crate::dailyroutine::DailyRoutineConfig;

verus! {

/// Core scheduling parameters.
pub struct CoreConfig {
    /// How long the scheduler loop sleeps between cycles, in
    /// milliseconds.
    pub sleep_millis: u16,
}

/// The type-specific parameter block of one named programme.
pub enum ProgrammeConfig {
    Colourful(ColourfulConfig),
    DailyRoutine(DailyRoutineConfig),
}

/// The whole configuration: core parameters plus one parameter block
/// per named programme.
pub struct Config {
    pub core: CoreConfig,
    pub programmes: Vec<(String, ProgrammeConfig)>,
}

/// Why a configuration was rejected at startup.
#[derive(Debug, PartialEq, Eq)]
pub enum BuildError {
    /// A random-cycling group holds fewer than two devices, so the
    /// no-repeat selection could never terminate.
    TooFewLights,
    /// Every entry of a random-cycling group resolves to one and the
    /// same device, which likewise starves the no-repeat selection.
    /// Repeated entries are harmless while a second distinct device
    /// remains.
    NoDistinctLights,
    /// A configured device name is missing from the snapshot's
    /// name-to-identifier table.
    UnknownLightName(String),
    /// A light group has no brightness or colour-temperature quadruple
    /// configured under its name.
    MissingGroupValues(String),
    /// A pair of time-of-day boundaries is not strictly increasing, so a
    /// segment would have no positive length.
    BoundariesNotIncreasing,
}

/// The identifier paired with the first occurrence of `name` in the
/// name-to-identifier table, if any.
pub open spec fn lookup_id_spec(names: Seq<(String, String)>, name: Seq<char>) -> Option<Seq<char>>
    decreases names.len(),
{
    if names.len() == 0 {
        None
    } else if names[0].0@ == name {
        Some(names[0].1@)
    } else {
        lookup_id_spec(names.skip(1), name)
    }
}

/// Every configured device name occurs in the table.
pub open spec fn all_resolvable(names: Seq<(String, String)>, lights: Seq<String>) -> bool {
    forall|i: int| 0 <= i < lights.len() ==> #[trigger] lookup_id_spec(names, lights[i]@) is Some
}

/// The character sequences of a list of identifiers, in order.
pub open spec fn id_views(ids: Seq<String>) -> Seq<Seq<char>> {
    ids.map_values(|s: String| s@)
}

/// The identifiers the configured names resolve to, in configured order.
pub open spec fn resolved_ids(names: Seq<(String, String)>, lights: Seq<String>) -> Seq<Seq<char>> {
    Seq::new(lights.len(), |i: int| lookup_id_spec(names, lights[i]@)->0)
}

/// Resolve one device name against the table, taking the first match.
pub fn resolve_light_id(names: &Vec<(String, String)>, name: &String) -> (r: Option<String>)
    ensures
        r is Some <==> lookup_id_spec(names@, name@) is Some,
        r matches Some(s) ==> s@ == lookup_id_spec(names@, name@)->0,
{
    let n = names.len();
    let mut i: usize = 0;
    proof {
        assert(names@.skip(0) =~= names@);
    }
    while i < n
        invariant
            i <= n,
            n == names@.len(),
            lookup_id_spec(names@, name@) == lookup_id_spec(names@.skip(i as int), name@),
        decreases n - i,
    {
        proof {
            assert(names@.skip(i as int)[0] == names@[i as int]);
            assert(names@.skip(i as int).skip(1) =~= names@.skip(i + 1));
        }
        let entry = &names[i];
        if entry.0.eq(name) {
            return Some(entry.1.clone());
        }
        i = i + 1;
    }
    None
}

/// Resolve a whole list of device names, failing on the first name the
/// table does not hold, as startup must.
pub fn resolve_light_ids(names: &Vec<(String, String)>, lights: &Vec<String>) -> (r: Result<
    Vec<String>,
    BuildError,
>)
    ensures
        r is Ok <==> all_resolvable(names@, lights@),
        r matches Ok(ids) ==> {
            &&& ids@.len() == lights@.len()
            &&& forall|i: int|
                0 <= i < lights@.len() ==> #[trigger] ids@[i]@ == resolved_ids(names@, lights@)[i]
        },
        r matches Err(e) ==> {
            &&& e matches BuildError::UnknownLightName(bad)
            &&& exists|i: int|
                {
                    &&& 0 <= i < lights@.len()
                    &&& #[trigger] lights@[i]@ == bad@
                    &&& lookup_id_spec(names@, lights@[i]@) is None
                    &&& forall|j: int|
                        0 <= j < i ==> #[trigger] lookup_id_spec(names@, lights@[j]@) is Some
                }
        },
{
    let n = lights.len();
    let mut ids: Vec<String> = Vec::new();
    let mut i: usize = 0;
    while i < n
        invariant
            i <= n,
            n == lights@.len(),
            ids@.len() == i,
            forall|j: int| 0 <= j < i ==> #[trigger] lookup_id_spec(names@, lights@[j]@) is Some,
            forall|j: int| 0 <= j < i ==> #[trigger] ids@[j]@ == resolved_ids(names@, lights@)[j],
        decreases n - i,
    {
        match resolve_light_id(names, &lights[i]) {
            Some(id) => {
                ids.push(id);
            },
            None => {
                return Err(BuildError::UnknownLightName(lights[i].clone()));
            },
        }
        i = i + 1;
    }
    Ok(ids)
}

} // verus!
