//! The closed set of programme variants behind one interface, and the
//! manager that owns the named collection and presents each cycle's
//! snapshot to every programme.

use vstd::prelude::*;

use crate::delta_is_empty;
use crate::LightStateDelta;
use crate::colourful::ColourfulConfig;
use crate::colourful::ColourfulProgramme;
use crate::colourful::colourful_build_error_fits;
use crate::colourful::colourful_built;
use crate::colourful::colourful_config_ok;
use crate::colourful::colourful_fired;
use crate::config::BuildError;
use crate::config::Config;
use crate::config::ProgrammeConfig;
use crate::dailyroutine::DailyRoutineConfig;
use crate::dailyroutine::DailyRoutineProgramme;
use crate::dailyroutine::daily_actions_spec;
use crate::dailyroutine::daily_build_error_fits;
use crate::dailyroutine::daily_built;
use crate::dailyroutine::daily_config_ok;
use crate::light::DeviceSnapshot;
use crate::light::LightAction;
use crate::light::LightEntry;
use crate::light::actions_model;

verus! {

/// One programme of the closed variant set, dispatched through a
/// single interface.
pub enum Programme {
    Colourful(ColourfulProgramme),
    DailyRoutine(DailyRoutineProgramme),
}

/// One tick of either variant: the colour cycler either slept or
/// fired, and the daily routine emitted exactly its action
/// specification for some time of day — against the one snapshot the
/// whole conjunct speaks of.
pub open spec fn programme_ticked(
    pre: Programme,
    post: Programme,
    acts: Seq<(Seq<char>, LightStateDelta)>,
    snap: DeviceSnapshot,
) -> bool {
    match (pre, post) {
        (Programme::Colourful(a), Programme::Colourful(b)) => {
            ||| (acts.len() == 0 && b == a)
            ||| (acts.len() == 1 && colourful_fired(a, b, acts[0].0, acts[0].1))
        },
        (Programme::DailyRoutine(a), Programme::DailyRoutine(b)) => {
            &&& b == a
            &&& exists|tod: u32| tod < 86400 && acts == daily_actions_spec(a, tod, snap)
        },
        _ => false,
    }
}

impl Programme {
    /// The variant's own well-formedness.
    pub open spec fn wf(self) -> bool {
        match self {
            Programme::Colourful(p) => p.wf(),
            Programme::DailyRoutine(p) => p.wf(),
        }
    }

    /// One tick against the given snapshot: the programme reads the
    /// snapshot and its own state, decides whether to act, and hands
    /// back the deltas it wants pushed, never an empty one.
    pub fn tick(&mut self, snapshot: &DeviceSnapshot) -> (r: Vec<LightAction>)
        requires
            old(self).wf(),
        ensures
            final(self).wf(),
            programme_ticked(*old(self), *final(self), actions_model(r@), *snapshot),
            forall|k: int| 0 <= k < r@.len() ==> !delta_is_empty(#[trigger] r@[k].delta),
    {
        match self {
            Programme::Colourful(p) => {
                let act = p.tick();
                let mut v: Vec<LightAction> = Vec::new();
                match act {
                    Some(a) => {
                        v.push(a);
                        proof {
                            assert(actions_model(v@) =~= seq![(a.light_id@, a.delta)]);
                        }
                    },
                    None => {
                        proof {
                            assert(actions_model(v@) =~= Seq::<(
                                Seq<char>,
                                LightStateDelta,
                            )>::empty());
                        }
                    },
                }
                v
            },
            Programme::DailyRoutine(p) => p.tick(snapshot),
        }
    }

    /// Activation hook of the programme interface; neither variant
    /// takes any action on activation.
    pub fn activate(&self, _snapshot: &DeviceSnapshot) {
    }

    /// Deactivation hook of the programme interface; neither variant
    /// takes any action on deactivation.
    pub fn deactivate(&self, _snapshot: &DeviceSnapshot) {
    }
}

/// The name-to-identifier resolution table built from the first
/// snapshot at startup.
pub open spec fn light_ids_by_name_spec(snap: DeviceSnapshot) -> Seq<(String, String)> {
    snap.lights@.map_values(|e: LightEntry| (e.name, e.id))
}

/// One programme configuration is acceptable against the table.
pub open spec fn programme_config_ok(
    table: Seq<(String, String)>,
    pc: ProgrammeConfig,
) -> bool {
    match pc {
        ProgrammeConfig::Colourful(c) => colourful_config_ok(table, c),
        ProgrammeConfig::DailyRoutine(d) => daily_config_ok(table, d),
    }
}

/// Every named programme's configuration is acceptable.
pub open spec fn manager_config_ok(cfg: Config, snap: DeviceSnapshot) -> bool {
    forall|k: int|
        0 <= k < cfg.programmes@.len() ==> programme_config_ok(
            light_ids_by_name_spec(snap),
            (#[trigger] cfg.programmes@[k]).1,
        )
}

/// One built programme against its configuration entry.
pub open spec fn programme_built(
    prog: Programme,
    table: Seq<(String, String)>,
    name: Seq<char>,
    pc: ProgrammeConfig,
) -> bool {
    match (pc, prog) {
        (ProgrammeConfig::Colourful(c), Programme::Colourful(p)) => colourful_built(
            p,
            table,
            name,
            c,
        ),
        (ProgrammeConfig::DailyRoutine(d), Programme::DailyRoutine(p)) => daily_built(
            p,
            table,
            name,
            d,
        ),
        _ => false,
    }
}

/// The whole manager against the whole configuration.
pub open spec fn manager_built(m: ProgrammeManager, cfg: Config, snap: DeviceSnapshot) -> bool {
    &&& m.programmes@.len() == cfg.programmes@.len()
    &&& forall|k: int|
        0 <= k < cfg.programmes@.len() ==> {
            &&& (#[trigger] m.programmes@[k]).0@ == cfg.programmes@[k].0@
            &&& programme_built(
                m.programmes@[k].1,
                light_ids_by_name_spec(snap),
                cfg.programmes@[k].0@,
                cfg.programmes@[k].1,
            )
        }
    &&& m.wf()
}

/// Which rejection a failed programme construction reports.
pub open spec fn programme_error_fits(
    e: BuildError,
    table: Seq<(String, String)>,
    pc: ProgrammeConfig,
) -> bool {
    match pc {
        ProgrammeConfig::Colourful(c) => colourful_build_error_fits(e, table, c),
        ProgrammeConfig::DailyRoutine(d) => daily_build_error_fits(e, table, d),
    }
}

/// Holds the named set of programme instances and presents one cycle's
/// snapshot to all of them.
pub struct ProgrammeManager {
    pub programmes: Vec<(String, Programme)>,
}

impl ProgrammeManager {
    /// Every owned programme is well formed.
    pub open spec fn wf(self) -> bool {
        forall|i: int|
            0 <= i < self.programmes@.len() ==> (#[trigger] self.programmes@[i]).1.wf()
    }

    /// Build every configured programme, resolving device names
    /// against the given startup snapshot. Construction fails on the
    /// first unacceptable programme configuration, before the
    /// scheduler loop may run.
    pub fn new(config: &Config, all_data: &DeviceSnapshot) -> (r: Result<
        ProgrammeManager,
        BuildError,
    >)
        ensures
            r is Ok <==> manager_config_ok(*config, *all_data),
            r matches Ok(m) ==> manager_built(m, *config, *all_data),
            r matches Err(e) ==> exists|k: int|
                {
                    &&& 0 <= k < config.programmes@.len()
                    &&& !programme_config_ok(
                        light_ids_by_name_spec(*all_data),
                        (#[trigger] config.programmes@[k]).1,
                    )
                    &&& forall|j: int|
                        0 <= j < k ==> programme_config_ok(
                            light_ids_by_name_spec(*all_data),
                            (#[trigger] config.programmes@[j]).1,
                        )
                    &&& programme_error_fits(
                        e,
                        light_ids_by_name_spec(*all_data),
                        config.programmes@[k].1,
                    )
                },
    {
        let nl = all_data.lights.len();
        let mut table: Vec<(String, String)> = Vec::new();
        let mut i: usize = 0;
        while i < nl
            invariant
                i <= nl,
                nl == all_data.lights@.len(),
                table@.len() == i,
                forall|j: int|
                    0 <= j < i ==> #[trigger] table@[j] == (
                        all_data.lights@[j].name,
                        all_data.lights@[j].id,
                    ),
            decreases nl - i,
        {
            let entry = &all_data.lights[i];
            table.push((entry.name.clone(), entry.id.clone()));
            i = i + 1;
        }
        proof {
            assert(table@ =~= light_ids_by_name_spec(*all_data));
        }
        let n = config.programmes.len();
        let mut programmes: Vec<(String, Programme)> = Vec::new();
        let mut k: usize = 0;
        while k < n
            invariant
                k <= n,
                n == config.programmes@.len(),
                table@ == light_ids_by_name_spec(*all_data),
                programmes@.len() == k,
                forall|j: int|
                    0 <= j < k ==> programme_config_ok(
                        light_ids_by_name_spec(*all_data),
                        (#[trigger] config.programmes@[j]).1,
                    ),
                forall|j: int|
                    0 <= j < k ==> {
                        &&& (#[trigger] programmes@[j]).0@ == config.programmes@[j].0@
                        &&& programme_built(
                            programmes@[j].1,
                            light_ids_by_name_spec(*all_data),
                            config.programmes@[j].0@,
                            config.programmes@[j].1,
                        )
                    },
            decreases n - k,
        {
            let entry = &config.programmes[k];
            let prog = match &entry.1 {
                ProgrammeConfig::Colourful(c) => {
                    match ColourfulProgramme::build(&table, entry.0.clone(), c) {
                        Ok(p) => Programme::Colourful(p),
                        Err(e) => {
                            return Err(e);
                        },
                    }
                },
                ProgrammeConfig::DailyRoutine(d) => {
                    match DailyRoutineProgramme::build(&table, entry.0.clone(), d) {
                        Ok(p) => Programme::DailyRoutine(p),
                        Err(e) => {
                            return Err(e);
                        },
                    }
                },
            };
            programmes.push((entry.0.clone(), prog));
            k = k + 1;
        }
        Ok(ProgrammeManager { programmes })
    }

    /// One cycle: present the same snapshot to every owned programme,
    /// in collection order, and hand back what each emitted. A
    /// programme that fails to reach its devices is the bridge
    /// client's concern; nothing here aborts another programme's tick.
    pub fn tick(&mut self, snapshot: &DeviceSnapshot) -> (r: Vec<Vec<LightAction>>)
        requires
            old(self).wf(),
        ensures
            final(self).wf(),
            final(self).programmes@.len() == old(self).programmes@.len(),
            r@.len() == old(self).programmes@.len(),
            forall|i: int|
                0 <= i < old(self).programmes@.len() ==> {
                    &&& (#[trigger] final(self).programmes@[i]).0 == old(self).programmes@[i].0
                    &&& programme_ticked(
                        old(self).programmes@[i].1,
                        final(self).programmes@[i].1,
                        actions_model(r@[i]@),
                        *snapshot,
                    )
                },
            forall|i: int, k: int|
                0 <= i < r@.len() && 0 <= k < r@[i]@.len() ==> !delta_is_empty(
                    (#[trigger] r@[i]@[k]).delta,
                ),
    {
        let ghost orig = self.programmes@;
        let n = self.programmes.len();
        let mut result: Vec<Vec<LightAction>> = Vec::new();
        let mut ticked: Vec<(String, Programme)> = Vec::new();
        let mut i: usize = 0;
        proof {
            assert(self.programmes@ =~= orig.skip(0));
        }
        while i < n
            invariant
                i <= n,
                n == orig.len(),
                self.programmes@ == orig.skip(i as int),
                forall|j: int| 0 <= j < orig.len() ==> (#[trigger] orig[j]).1.wf(),
                ticked@.len() == i,
                result@.len() == i,
                forall|j: int|
                    0 <= j < i ==> {
                        &&& (#[trigger] ticked@[j]).0 == orig[j].0
                        &&& ticked@[j].1.wf()
                        &&& programme_ticked(
                            orig[j].1,
                            ticked@[j].1,
                            actions_model(result@[j]@),
                            *snapshot,
                        )
                    },
                forall|j: int, k: int|
                    0 <= j < i && 0 <= k < result@[j]@.len() ==> !delta_is_empty(
                        (#[trigger] result@[j]@[k]).delta,
                    ),
            decreases n - i,
        {
            proof {
                assert(orig.skip(i as int)[0] == orig[i as int]);
            }
            let (name, mut p) = self.programmes.remove(0);
            let acts = p.tick(snapshot);
            ticked.push((name, p));
            result.push(acts);
            proof {
                assert(orig.skip(i as int).remove(0) =~= orig.skip(i + 1));
            }
            i = i + 1;
        }
        self.programmes = ticked;
        result
    }
}

} // verus!
