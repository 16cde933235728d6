//! The random colour-cycling programme: on a fixed interval it pushes a
//! random hue and a strongly saturated random saturation to one device
//! of a configured group, never the device chosen the time before.

use vstd::prelude::*;

use crate::LightStateDelta;
use crate::light::LightAction;
use crate::config::BuildError;
use crate::config::all_resolvable;
use crate::config::id_views;
use crate::config::lookup_id_spec;
use crate::config::resolve_light_ids;
use crate::config::resolved_ids;
use crate::clock;
use crate::rng;

verus! {

/// Configured parameters of one random colour-cycling programme.
pub struct ColourfulConfig {
    /// Firing interval, in tenths of a second.
    pub interval_time: u16,
    /// Transition duration handed to the device with each change.
    pub transition_time: u16,
    /// Names of the devices of the group.
    pub lights: Vec<String>,
}

/// The programme's private mutable state: its own timer and the device
/// it chose last.
pub struct ColourfulState {
    /// When the programme next fires, in milliseconds since the Unix
    /// epoch.
    pub next_run_millis: i64,
    /// Identifier of the device chosen on the previous fire, empty
    /// before the first.
    pub last_light_id: String,
}

/// One random colour-cycling programme instance.
pub struct ColourfulProgramme {
    pub name: String,
    /// Resolved device identifiers of the group.
    pub light_ids: Vec<String>,
    /// Firing interval in milliseconds.
    pub interval_millis: u32,
    pub transition_time: u16,
    pub state: ColourfulState,
}

/// At least two entries name different devices.
pub open spec fn two_distinct_ids(ids: Seq<Seq<char>>) -> bool {
    exists|i: int, j: int|
        0 <= i < ids.len() && 0 <= j < ids.len() && #[trigger] ids[i] != #[trigger] ids[j]
}

/// A group can sustain no-repeat selection exactly when its entries
/// resolve to at least two distinct devices: whichever device fired
/// last, another remains to choose. A repeated entry is harmless
/// beside a second distinct device.
pub open spec fn colourful_config_ok(names: Seq<(String, String)>, cfg: ColourfulConfig) -> bool {
    &&& cfg.lights@.len() >= 2
    &&& all_resolvable(names, cfg.lights@)
    &&& two_distinct_ids(resolved_ids(names, cfg.lights@))
}

/// What construction from a configuration pins down: everything except
/// the initial timer value, which is read from the clock.
pub open spec fn colourful_built(
    p: ColourfulProgramme,
    names: Seq<(String, String)>,
    name: Seq<char>,
    cfg: ColourfulConfig,
) -> bool {
    &&& p.name@ == name
    &&& id_views(p.light_ids@) == resolved_ids(names, cfg.lights@)
    &&& p.interval_millis == cfg.interval_time * 100
    &&& p.transition_time == cfg.transition_time
    &&& p.state.last_light_id@ == Seq::<char>::empty()
    &&& p.wf()
}

/// Which rejection each startup error reports.
pub open spec fn colourful_build_error_fits(
    e: BuildError,
    names: Seq<(String, String)>,
    cfg: ColourfulConfig,
) -> bool {
    match e {
        BuildError::TooFewLights => cfg.lights@.len() < 2,
        BuildError::UnknownLightName(bad) => {
            &&& cfg.lights@.len() >= 2
            &&& exists|i: int|
                {
                    &&& 0 <= i < cfg.lights@.len()
                    &&& #[trigger] cfg.lights@[i]@ == bad@
                    &&& lookup_id_spec(names, cfg.lights@[i]@) is None
                    &&& forall|j: int|
                        0 <= j < i ==> #[trigger] lookup_id_spec(names, cfg.lights@[j]@) is Some
                }
        },
        BuildError::NoDistinctLights => {
            &&& cfg.lights@.len() >= 2
            &&& all_resolvable(names, cfg.lights@)
            &&& !two_distinct_ids(resolved_ids(names, cfg.lights@))
        },
        _ => false,
    }
}

/// The timer after one fire: advanced by exactly one interval, clamped
/// only at the far end of the representable range.
pub open spec fn advanced_next_run(next: i64, interval: u32) -> i64 {
    if next + interval <= i64::MAX {
        (next + interval) as i64
    } else {
        i64::MAX
    }
}

/// One fire of the programme: the timer advances by one interval, a
/// device of the group other than the previous choice is selected and
/// remembered, and the emitted delta sets exactly hue, a saturation in
/// the upper quarter of its range, and the configured transition time.
pub open spec fn colourful_fired(
    pre: ColourfulProgramme,
    post: ColourfulProgramme,
    id: Seq<char>,
    delta: LightStateDelta,
) -> bool {
    &&& post.name == pre.name
    &&& post.light_ids == pre.light_ids
    &&& post.interval_millis == pre.interval_millis
    &&& post.transition_time == pre.transition_time
    &&& post.state.next_run_millis == advanced_next_run(
        pre.state.next_run_millis,
        pre.interval_millis,
    )
    &&& exists|i: int| 0 <= i < pre.light_ids@.len() && #[trigger] pre.light_ids@[i]@ == id
    &&& id != pre.state.last_light_id@
    &&& post.state.last_light_id@ == id
    &&& delta.on is None
    &&& delta.bri is None
    &&& delta.ct is None
    &&& delta.hue is Some
    &&& delta.sat matches Some(s) && s >= 0xc0
    &&& delta.transition_time == Some(pre.transition_time)
}

/// One tick: either the timer had not elapsed and nothing changed, or
/// the programme fired.
pub open spec fn colourful_ticked(
    pre: ColourfulProgramme,
    post: ColourfulProgramme,
    r: Option<LightAction>,
) -> bool {
    match r {
        None => post == pre,
        Some(a) => colourful_fired(pre, post, a.light_id@, a.delta),
    }
}

/// No two consecutive fires choose the same device, whatever the random
/// draws were.
pub proof fn lemma_no_consecutive_repeat(
    p0: ColourfulProgramme,
    p1: ColourfulProgramme,
    p2: ColourfulProgramme,
    id1: Seq<char>,
    d1: LightStateDelta,
    id2: Seq<char>,
    d2: LightStateDelta,
)
    requires
        colourful_fired(p0, p1, id1, d1),
        colourful_fired(p1, p2, id2, d2),
    ensures
        id2 != id1,
{
}

impl ColourfulProgramme {
    /// The group's entries name at least two distinct devices, so a
    /// choice differing from the previous one always exists.
    pub open spec fn wf(self) -> bool {
        &&& self.light_ids@.len() >= 2
        &&& two_distinct_ids(id_views(self.light_ids@))
    }

    /// Construct the programme from its configuration, resolving device
    /// names and rejecting any group that could starve the no-repeat
    /// selection. The initial timer is the present clock reading, so
    /// the programme fires on its first tick.
    pub fn build(
        light_ids_by_name: &Vec<(String, String)>,
        name: String,
        config: &ColourfulConfig,
    ) -> (r: Result<ColourfulProgramme, BuildError>)
        ensures
            r is Ok <==> colourful_config_ok(light_ids_by_name@, *config),
            r matches Ok(p) ==> colourful_built(p, light_ids_by_name@, name@, *config),
            r matches Err(e) ==> colourful_build_error_fits(e, light_ids_by_name@, *config),
    {
        if config.lights.len() < 2 {
            return Err(BuildError::TooFewLights);
        }
        let ids = match resolve_light_ids(light_ids_by_name, &config.lights) {
            Ok(ids) => ids,
            Err(e) => {
                return Err(e);
            },
        };
        let n = ids.len();
        let mut has_distinct = false;
        let mut j: usize = 1;
        while j < n
            invariant
                1 <= j <= n,
                n == ids@.len(),
                has_distinct <==> exists|k: int|
                    1 <= k < j && #[trigger] ids@[k]@ != ids@[0]@,
            decreases n - j,
        {
            if !ids[j].eq(&ids[0]) {
                has_distinct = true;
            }
            j = j + 1;
        }
        proof {
            assert(id_views(ids@) =~= resolved_ids(light_ids_by_name@, config.lights@));
        }
        if !has_distinct {
            proof {
                let rs = resolved_ids(light_ids_by_name@, config.lights@);
                assert forall|a: int, b: int|
                    0 <= a < rs.len() && 0 <= b < rs.len() implies #[trigger] rs[a] == #[trigger] rs[b] by {
                    assert(ids@[a]@ == ids@[0]@);
                    assert(ids@[b]@ == ids@[0]@);
                }
                assert(!two_distinct_ids(rs));
            }
            return Err(BuildError::NoDistinctLights);
        }
        proof {
            let k = choose|k: int| 1 <= k < n && #[trigger] ids@[k]@ != ids@[0]@;
            assert(id_views(ids@)[0] != id_views(ids@)[k]);
            assert(two_distinct_ids(id_views(ids@)));
        }
        let now = clock::now_utc_millis();
        Ok(
            ColourfulProgramme {
                name,
                light_ids: ids,
                interval_millis: (config.interval_time as u32) * 100,
                transition_time: config.transition_time,
                state: ColourfulState { next_run_millis: now, last_light_id: String::new() },
            },
        )
    }

    /// One tick against the given clock reading: a no-op while the
    /// timer has not elapsed; otherwise the timer advances by exactly
    /// one interval — deliberately not reset to the reading, so a slow
    /// polling cadence leaves the timer lagging and the programme
    /// firing on every poll — and one device other than the previous
    /// choice receives a random hue and a saturation OR'ed with 0xc0.
    pub fn tick_at(&mut self, now_millis: i64) -> (r: Option<LightAction>)
        requires
            old(self).wf(),
        ensures
            final(self).wf(),
            now_millis < old(self).state.next_run_millis ==> r is None && *final(self) == *old(
                self,
            ),
            now_millis >= old(self).state.next_run_millis ==> (r matches Some(a)
                && colourful_fired(*old(self), *final(self), a.light_id@, a.delta)),
            colourful_ticked(*old(self), *final(self), r),
    {
        if now_millis < self.state.next_run_millis {
            return None;
        }
        let n = self.light_ids.len();
        let mut candidates: Vec<String> = Vec::new();
        let mut i: usize = 0;
        while i < n
            invariant
                i <= n,
                *self == *old(self),
                self.wf(),
                n == self.light_ids@.len(),
                forall|k: int|
                    0 <= k < candidates@.len() ==> #[trigger] candidates@[k]@
                        != self.state.last_light_id@,
                forall|k: int|
                    0 <= k < candidates@.len() ==> exists|j: int|
                        0 <= j < n && #[trigger] self.light_ids@[j]@ == #[trigger] candidates@[k]@,
                forall|j: int|
                    0 <= j < i && #[trigger] self.light_ids@[j]@ != self.state.last_light_id@
                        ==> exists|k: int|
                        0 <= k < candidates@.len() && #[trigger] candidates@[k]@
                            == self.light_ids@[j]@,
            decreases n - i,
        {
            let candidate = &self.light_ids[i];
            let ghost pre = candidates@;
            if !candidate.eq(&self.state.last_light_id) {
                candidates.push(candidate.clone());
            }
            proof {
                assert forall|j: int|
                    0 <= j < i + 1 && #[trigger] self.light_ids@[j]@
                        != self.state.last_light_id@ implies exists|k: int|
                    0 <= k < candidates@.len() && #[trigger] candidates@[k]@
                        == self.light_ids@[j]@ by {
                    if j == i {
                        assert(candidates@[candidates@.len() - 1]@ == self.light_ids@[i as int]@);
                    } else {
                        let k = choose|k: int|
                            0 <= k < pre.len() && #[trigger] pre[k]@ == self.light_ids@[j]@;
                        assert(candidates@[k]@ == self.light_ids@[j]@);
                    }
                }
            }
            i = i + 1;
        }
        proof {
            // two entries name distinct devices, so at least one of the
            // two differs from the previous choice and was kept
            let (a, b) = choose|a: int, b: int|
                0 <= a < n && 0 <= b < n && #[trigger] id_views(self.light_ids@)[a]
                    != #[trigger] id_views(self.light_ids@)[b];
            assert(id_views(self.light_ids@)[a] == self.light_ids@[a]@);
            assert(id_views(self.light_ids@)[b] == self.light_ids@[b]@);
            if self.light_ids@[a]@ != self.state.last_light_id@ {
                assert(self.light_ids@[a]@ != self.state.last_light_id@);
            } else {
                assert(self.light_ids@[b]@ != self.state.last_light_id@);
            }
            assert(candidates@.len() >= 1);
        }
        let chosen = match rng::choose_string(&candidates) {
            Some(s) => s,
            None => {
                proof {
                    assert(false);
                }
                return None;
            },
        };
        let hue = rng::random_u16();
        let sat_raw = rng::random_u8();
        let sat = sat_raw | 0xc0;
        proof {
            assert(sat_raw | 0xc0 >= 0xc0) by (bit_vector);
        }
        let interval = self.interval_millis as i64;
        if self.state.next_run_millis <= i64::MAX - interval {
            self.state.next_run_millis = self.state.next_run_millis + interval;
        } else {
            self.state.next_run_millis = i64::MAX;
        }
        self.state.last_light_id = chosen.clone();
        Some(
            LightAction {
                light_id: chosen,
                delta: LightStateDelta {
                    on: None,
                    bri: None,
                    hue: Some(hue),
                    sat: Some(sat),
                    ct: None,
                    transition_time: Some(self.transition_time),
                },
            },
        )
    }

    /// One tick against the clock itself.
    pub fn tick(&mut self) -> (r: Option<LightAction>)
        requires
            old(self).wf(),
        ensures
            final(self).wf(),
            colourful_ticked(*old(self), *final(self), r),
    {
        let now = clock::now_utc_millis();
        self.tick_at(now)
    }
}

} // verus!
