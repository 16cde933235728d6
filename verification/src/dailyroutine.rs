//! The daily-routine programme: for each configured group of devices it
//! continuously interpolates brightness and colour temperature along a
//! fixed set of named time-of-day transitions, updating every device
//! whose reported state differs from the interpolated target and waking
//! already-off devices during the first daytime segment only.

use vstd::prelude::*;

use crate::LightStateDelta;
use crate::delta_is_empty;
use crate::config::BuildError;
use crate::config::all_resolvable;
use crate::config::lookup_id_spec;
use crate::config::resolve_light_ids;
use crate::config::resolved_ids;
use crate::config::id_views;
use crate::clock;
use crate::interp::interp_spec;
use crate::interp::interpolate;
use crate::interp::progress_spec;
use crate::interp::segment_index;
use crate::interp::segment_index_spec;
use crate::interp::segment_progress;
use crate::interp::wf_boundaries;
use crate::light::DeviceSnapshot;
use crate::light::LightAction;
use crate::light::LightState;
use crate::light::actions_model;
use crate::light::lookup_light;

verus! {

/// Start and end times of the four named transitions, as seconds of the
/// local day.
pub struct DailyRoutineTransitionTimesConfig {
    pub morning: (u32, u32),
    pub evening: (u32, u32),
    pub bedtime_1: (u32, u32),
    pub bedtime_2: (u32, u32),
}

/// Configured parameters of one daily-routine programme: transition
/// times, per-group brightness and colour-temperature quadruples (day,
/// evening, first bedtime, second bedtime), and the groups themselves.
pub struct DailyRoutineConfig {
    pub transition_times: DailyRoutineTransitionTimesConfig,
    pub brightness: Vec<(String, (u8, u8, u8, u8))>,
    pub colour_temperature: Vec<(String, (u16, u16, u16, u16))>,
    pub light_groups: Vec<(String, Vec<String>)>,
}

/// One configured group with its resolved device identifiers and its
/// per-boundary target tables, one entry per boundary.
pub struct DailyRoutineLightGroup {
    pub name: String,
    pub light_ids: Vec<String>,
    pub brightnesses: Vec<u8>,
    pub colour_temperatures: Vec<u16>,
}

/// One daily-routine programme instance. It keeps no mutable state: the
/// segment lookup is recomputed fresh on every tick.
pub struct DailyRoutineProgramme {
    pub name: String,
    pub transition_times: Vec<u32>,
    pub light_groups: Vec<DailyRoutineLightGroup>,
}

/// The full boundary list: a start-of-day sentinel, the eight
/// configured transition edges, and an end-of-day sentinel.
pub open spec fn boundaries_of(t: DailyRoutineTransitionTimesConfig) -> Seq<u32> {
    seq![
        0u32,
        t.morning.0,
        t.morning.1,
        t.evening.0,
        t.evening.1,
        t.bedtime_1.0,
        t.bedtime_1.1,
        t.bedtime_2.0,
        t.bedtime_2.1,
        86400u32,
    ]
}

/// Every configured boundary pair strictly increases, and the whole
/// chain stays strictly inside the day, so no segment has zero length.
pub open spec fn boundaries_ok(t: DailyRoutineTransitionTimesConfig) -> bool {
    &&& 0 < t.morning.0
    &&& t.morning.0 < t.morning.1
    &&& t.morning.1 < t.evening.0
    &&& t.evening.0 < t.evening.1
    &&& t.evening.1 < t.bedtime_1.0
    &&& t.bedtime_1.0 < t.bedtime_1.1
    &&& t.bedtime_1.1 < t.bedtime_2.0
    &&& t.bedtime_2.0 < t.bedtime_2.1
    &&& t.bedtime_2.1 < 86400
}

/// Per-boundary brightness targets from one configured quadruple
/// (day, evening, first bedtime, second bedtime): the pre-morning
/// segment holds the second bedtime's tail value, each named transition
/// ramps between its plateau values, and the final segment returns to
/// the tail value so the table is continuous across midnight.
pub open spec fn brightness_table(q: (u8, u8, u8, u8)) -> Seq<u8> {
    seq![q.3, q.3, q.0, q.0, q.1, q.1, q.2, q.2, q.3, q.3]
}

/// Per-boundary colour-temperature targets, laid out as the brightness
/// table is.
pub open spec fn colour_temperature_table(q: (u16, u16, u16, u16)) -> Seq<u16> {
    seq![q.3, q.3, q.0, q.0, q.1, q.1, q.2, q.2, q.3, q.3]
}

/// The quadruple paired with the first occurrence of `name`, if any.
pub open spec fn lookup_brightness(
    list: Seq<(String, (u8, u8, u8, u8))>,
    name: Seq<char>,
) -> Option<(u8, u8, u8, u8)>
    decreases list.len(),
{
    if list.len() == 0 {
        None
    } else if list[0].0@ == name {
        Some(list[0].1)
    } else {
        lookup_brightness(list.skip(1), name)
    }
}

/// The quadruple paired with the first occurrence of `name`, if any.
pub open spec fn lookup_colour_temperature(
    list: Seq<(String, (u16, u16, u16, u16))>,
    name: Seq<char>,
) -> Option<(u16, u16, u16, u16)>
    decreases list.len(),
{
    if list.len() == 0 {
        None
    } else if list[0].0@ == name {
        Some(list[0].1)
    } else {
        lookup_colour_temperature(list.skip(1), name)
    }
}

/// Find a group's brightness quadruple, taking the first match.
pub fn find_brightness(list: &Vec<(String, (u8, u8, u8, u8))>, name: &String) -> (r: Option<
    (u8, u8, u8, u8),
>)
    ensures
        r == lookup_brightness(list@, name@),
{
    let n = list.len();
    let mut i: usize = 0;
    proof {
        assert(list@.skip(0) =~= list@);
    }
    while i < n
        invariant
            i <= n,
            n == list@.len(),
            lookup_brightness(list@, name@) == lookup_brightness(list@.skip(i as int), name@),
        decreases n - i,
    {
        proof {
            assert(list@.skip(i as int)[0] == list@[i as int]);
            assert(list@.skip(i as int).skip(1) =~= list@.skip(i + 1));
        }
        let entry = &list[i];
        if entry.0.eq(name) {
            return Some(entry.1);
        }
        i = i + 1;
    }
    None
}

/// Find a group's colour-temperature quadruple, taking the first match.
pub fn find_colour_temperature(list: &Vec<(String, (u16, u16, u16, u16))>, name: &String) -> (r:
    Option<(u16, u16, u16, u16)>)
    ensures
        r == lookup_colour_temperature(list@, name@),
{
    let n = list.len();
    let mut i: usize = 0;
    proof {
        assert(list@.skip(0) =~= list@);
    }
    while i < n
        invariant
            i <= n,
            n == list@.len(),
            lookup_colour_temperature(list@, name@) == lookup_colour_temperature(
                list@.skip(i as int),
                name@,
            ),
        decreases n - i,
    {
        proof {
            assert(list@.skip(i as int)[0] == list@[i as int]);
            assert(list@.skip(i as int).skip(1) =~= list@.skip(i + 1));
        }
        let entry = &list[i];
        if entry.0.eq(name) {
            return Some(entry.1);
        }
        i = i + 1;
    }
    None
}

/// One group's configuration is complete: value tables under its name
/// and every device name resolvable.
pub open spec fn daily_group_ok(
    names: Seq<(String, String)>,
    cfg: DailyRoutineConfig,
    k: int,
) -> bool {
    &&& lookup_brightness(cfg.brightness@, cfg.light_groups@[k].0@) is Some
    &&& lookup_colour_temperature(cfg.colour_temperature@, cfg.light_groups@[k].0@) is Some
    &&& all_resolvable(names, cfg.light_groups@[k].1@)
}

/// The whole configuration is acceptable at startup.
pub open spec fn daily_config_ok(names: Seq<(String, String)>, cfg: DailyRoutineConfig) -> bool {
    &&& boundaries_ok(cfg.transition_times)
    &&& forall|k: int| 0 <= k < cfg.light_groups@.len() ==> #[trigger] daily_group_ok(names, cfg, k)
}

/// What construction pins down, group by group.
pub open spec fn daily_built(
    p: DailyRoutineProgramme,
    names: Seq<(String, String)>,
    name: Seq<char>,
    cfg: DailyRoutineConfig,
) -> bool {
    &&& p.name@ == name
    &&& p.transition_times@ == boundaries_of(cfg.transition_times)
    &&& p.light_groups@.len() == cfg.light_groups@.len()
    &&& forall|k: int|
        0 <= k < cfg.light_groups@.len() ==> #[trigger] daily_group_built(
            p.light_groups@[k],
            names,
            cfg,
            k,
        )
    &&& p.wf()
}

/// One built group against its configuration entry.
pub open spec fn daily_group_built(
    g: DailyRoutineLightGroup,
    names: Seq<(String, String)>,
    cfg: DailyRoutineConfig,
    k: int,
) -> bool {
    &&& g.name@ == cfg.light_groups@[k].0@
    &&& id_views(g.light_ids@) == resolved_ids(names, cfg.light_groups@[k].1@)
    &&& g.brightnesses@ == brightness_table(
        lookup_brightness(cfg.brightness@, cfg.light_groups@[k].0@)->0,
    )
    &&& g.colour_temperatures@ == colour_temperature_table(
        lookup_colour_temperature(cfg.colour_temperature@, cfg.light_groups@[k].0@)->0,
    )
}

/// Which rejection each startup error reports: the boundary check comes
/// first, then the groups are examined in configured order.
pub open spec fn daily_build_error_fits(
    e: BuildError,
    names: Seq<(String, String)>,
    cfg: DailyRoutineConfig,
) -> bool {
    match e {
        BuildError::BoundariesNotIncreasing => !boundaries_ok(cfg.transition_times),
        BuildError::MissingGroupValues(gn) => {
            &&& boundaries_ok(cfg.transition_times)
            &&& exists|k: int|
                {
                    &&& 0 <= k < cfg.light_groups@.len()
                    &&& #[trigger] cfg.light_groups@[k].0@ == gn@
                    &&& {
                        ||| lookup_brightness(cfg.brightness@, cfg.light_groups@[k].0@) is None
                        ||| lookup_colour_temperature(
                            cfg.colour_temperature@,
                            cfg.light_groups@[k].0@,
                        ) is None
                    }
                    &&& forall|j: int| 0 <= j < k ==> #[trigger] daily_group_ok(names, cfg, j)
                }
        },
        BuildError::UnknownLightName(bad) => {
            &&& boundaries_ok(cfg.transition_times)
            &&& exists|k: int|
                {
                    &&& 0 <= k < cfg.light_groups@.len()
                    &&& lookup_brightness(cfg.brightness@, #[trigger] cfg.light_groups@[k].0@)
                        is Some
                    &&& lookup_colour_temperature(
                        cfg.colour_temperature@,
                        cfg.light_groups@[k].0@,
                    ) is Some
                    &&& !all_resolvable(names, cfg.light_groups@[k].1@)
                    &&& lookup_id_spec(names, bad@) is None
                    &&& exists|i: int|
                        0 <= i < cfg.light_groups@[k].1@.len() && #[trigger] cfg.light_groups@[
                            k
                        ].1@[i]@ == bad@
                    &&& forall|j: int| 0 <= j < k ==> #[trigger] daily_group_ok(names, cfg, j)
                }
        },
        _ => false,
    }
}

impl DailyRoutineLightGroup {
    /// Both target tables carry one value per boundary.
    pub open spec fn wf(self) -> bool {
        &&& self.brightnesses@.len() == 10
        &&& self.colour_temperatures@.len() == 10
    }
}

impl DailyRoutineProgramme {
    /// The boundary table is well formed and every group's target
    /// tables line up with it.
    pub open spec fn wf(self) -> bool {
        &&& self.transition_times@.len() == 10
        &&& wf_boundaries(self.transition_times@)
        &&& forall|k: int|
            0 <= k < self.light_groups@.len() ==> (#[trigger] self.light_groups@[k]).wf()
    }

    /// Construct the programme from its configuration: build the
    /// boundary list once, resolve every group's device names, and lay
    /// out each group's per-boundary target tables. A non-increasing
    /// boundary pair or an incomplete group is rejected here, never
    /// tolerated at tick time.
    #[verifier::rlimit(50)]
    pub fn build(
        light_ids_by_name: &Vec<(String, String)>,
        name: String,
        config: &DailyRoutineConfig,
    ) -> (r: Result<DailyRoutineProgramme, BuildError>)
        ensures
            r is Ok <==> daily_config_ok(light_ids_by_name@, *config),
            r matches Ok(p) ==> daily_built(p, light_ids_by_name@, name@, *config),
            r matches Err(e) ==> daily_build_error_fits(e, light_ids_by_name@, *config),
    {
        let t = &config.transition_times;
        if !(0 < t.morning.0 && t.morning.0 < t.morning.1 && t.morning.1 < t.evening.0
            && t.evening.0 < t.evening.1 && t.evening.1 < t.bedtime_1.0 && t.bedtime_1.0
            < t.bedtime_1.1 && t.bedtime_1.1 < t.bedtime_2.0 && t.bedtime_2.0 < t.bedtime_2.1
            && t.bedtime_2.1 < 86400) {
            return Err(BuildError::BoundariesNotIncreasing);
        }
        let transition_times: Vec<u32> = vec![
            0,
            t.morning.0,
            t.morning.1,
            t.evening.0,
            t.evening.1,
            t.bedtime_1.0,
            t.bedtime_1.1,
            t.bedtime_2.0,
            t.bedtime_2.1,
            86400,
        ];
        proof {
            let ts = transition_times@;
            assert(ts =~= boundaries_of(config.transition_times));
            assert(ts.len() == 10 && ts[0] == 0 && ts[9] == 86400);
            assert forall|i: int| 0 <= i < 9 implies #[trigger] ts[i] < ts[i + 1] by {
                assert(ts[i] == boundaries_of(config.transition_times)[i]);
                assert(ts[i + 1] == boundaries_of(config.transition_times)[i + 1]);
            }
            assert(wf_boundaries(ts));
        }
        let n = config.light_groups.len();
        let mut light_groups: Vec<DailyRoutineLightGroup> = Vec::new();
        let mut k: usize = 0;
        while k < n
            invariant
                k <= n,
                n == config.light_groups@.len(),
                boundaries_ok(config.transition_times),
                light_groups@.len() == k,
                forall|j: int|
                    0 <= j < k ==> #[trigger] daily_group_ok(light_ids_by_name@, *config, j),
                forall|j: int|
                    0 <= j < k ==> #[trigger] daily_group_built(
                        light_groups@[j],
                        light_ids_by_name@,
                        *config,
                        j,
                    ),
                forall|j: int| 0 <= j < k ==> (#[trigger] light_groups@[j]).wf(),
            decreases n - k,
        {
            let entry = &config.light_groups[k];
            let q = match find_brightness(&config.brightness, &entry.0) {
                Some(q) => q,
                None => {
                    proof {
                        assert(!daily_group_ok(light_ids_by_name@, *config, k as int));
                    }
                    return Err(BuildError::MissingGroupValues(entry.0.clone()));
                },
            };
            let c = match find_colour_temperature(&config.colour_temperature, &entry.0) {
                Some(c) => c,
                None => {
                    proof {
                        assert(!daily_group_ok(light_ids_by_name@, *config, k as int));
                    }
                    return Err(BuildError::MissingGroupValues(entry.0.clone()));
                },
            };
            let ids = match resolve_light_ids(light_ids_by_name, &entry.1) {
                Ok(ids) => ids,
                Err(e) => {
                    proof {
                        assert(!all_resolvable(light_ids_by_name@, config.light_groups@[k as int].1@));
                        assert(!daily_group_ok(light_ids_by_name@, *config, k as int));
                        let lights = config.light_groups@[k as int].1@;
                        match &e {
                            BuildError::UnknownLightName(bad) => {
                                let i = choose|i: int|
                                    {
                                        &&& 0 <= i < lights.len()
                                        &&& #[trigger] lights[i]@ == bad@
                                        &&& lookup_id_spec(light_ids_by_name@, lights[i]@) is None
                                        &&& forall|j: int|
                                            0 <= j < i ==> #[trigger] lookup_id_spec(
                                                light_ids_by_name@,
                                                lights[j]@,
                                            ) is Some
                                    };
                                assert(lookup_id_spec(light_ids_by_name@, bad@) is None);
                            },
                            _ => {},
                        }
                    }
                    return Err(e);
                },
            };
            let brightnesses: Vec<u8> = vec![q.3, q.3, q.0, q.0, q.1, q.1, q.2, q.2, q.3, q.3];
            let colour_temperatures: Vec<u16> = vec![
                c.3,
                c.3,
                c.0,
                c.0,
                c.1,
                c.1,
                c.2,
                c.2,
                c.3,
                c.3,
            ];
            proof {
                assert(brightnesses@ =~= brightness_table(q));
                assert(colour_temperatures@ =~= colour_temperature_table(c));
            }
            let g = DailyRoutineLightGroup {
                name: entry.0.clone(),
                light_ids: ids,
                brightnesses,
                colour_temperatures,
            };
            proof {
                assert(id_views(g.light_ids@) =~= resolved_ids(
                    light_ids_by_name@,
                    config.light_groups@[k as int].1@,
                ));
                assert(daily_group_built(g, light_ids_by_name@, *config, k as int));
            }
            light_groups.push(g);
            k = k + 1;
        }
        Ok(DailyRoutineProgramme { name, transition_times, light_groups })
    }
}

/// The delta the routine requests for one device, given the segment
/// index and the interpolated brightness and colour-temperature
/// targets. An unreachable device is skipped; a device reported off is
/// woken, and brought straight to the targets, in the first daytime
/// segment only and is otherwise left alone; a device reported on has
/// each attribute updated only where the relevant control applies and
/// the reported value differs from the target. A delta with every
/// field absent is suppressed.
pub open spec fn daily_delta_spec(st: LightState, index: int, nb: u8, nct: u16) -> Option<
    LightStateDelta,
> {
    if !st.reachable {
        None
    } else if !st.on && index != 1 {
        None
    } else {
        let on_field: Option<bool> = if !st.on {
            Some(true)
        } else {
            None
        };
        let bri_field: Option<u8> = if !st.on || (st.ct is Some && nb != st.bri) {
            Some(nb)
        } else {
            None
        };
        let ct_field: Option<u16> = if !st.on || (st.colour_mode_ct && st.ct != Some(nct)) {
            Some(nct)
        } else {
            None
        };
        if on_field is None && bri_field is None && ct_field is None {
            None
        } else {
            Some(
                LightStateDelta {
                    on: on_field,
                    bri: bri_field,
                    hue: None,
                    sat: None,
                    ct: ct_field,
                    transition_time: None,
                },
            )
        }
    }
}

/// A device whose reported state already matches the interpolated
/// target exactly receives no delta, in any segment.
pub proof fn lemma_matching_device_gets_no_delta(st: LightState, index: int, nb: u8, nct: u16)
    requires
        st.on,
        st.bri == nb,
        st.ct == Some(nct),
    ensures
        daily_delta_spec(st, index, nb, nct) is None,
{
}

/// A device reported off outside the wake segment never receives a
/// delta, however far its reported values are from the targets.
pub proof fn lemma_off_device_untouched_outside_wake(st: LightState, index: int, nb: u8, nct: u16)
    requires
        !st.on,
        index != 1,
    ensures
        daily_delta_spec(st, index, nb, nct) is None,
{
}

/// The routine never requests an empty delta: suppression is part of
/// the per-device rule itself.
pub proof fn lemma_daily_delta_never_empty(st: LightState, index: int, nb: u8, nct: u16)
    ensures
        daily_delta_spec(st, index, nb, nct) matches Some(d) ==> !delta_is_empty(d),
{
}

/// The actions one group emits for its devices in configured order: a
/// device absent from the snapshot is passed over, and every delta the
/// per-device rule suppresses is likewise absent.
pub open spec fn group_actions_spec(
    ids: Seq<String>,
    snap: DeviceSnapshot,
    index: int,
    nb: u8,
    nct: u16,
) -> Seq<(Seq<char>, LightStateDelta)>
    decreases ids.len(),
{
    if ids.len() == 0 {
        Seq::empty()
    } else {
        let rest = group_actions_spec(ids.skip(1), snap, index, nb, nct);
        match lookup_light(snap.lights@, ids[0]@) {
            None => rest,
            Some(st) => match daily_delta_spec(st, index, nb, nct) {
                None => rest,
                Some(d) => seq![(ids[0]@, d)] + rest,
            },
        }
    }
}

/// One group's interpolated brightness and colour-temperature targets
/// at the given time of day.
pub open spec fn group_targets(g: DailyRoutineLightGroup, ts: Seq<u32>, tod: u32) -> (u8, u16) {
    let i = segment_index_spec(ts, tod);
    let p = progress_spec(ts, tod);
    (
        interp_spec(g.brightnesses@[i] as int, g.brightnesses@[i + 1] as int, p) as u8,
        interp_spec(g.colour_temperatures@[i] as int, g.colour_temperatures@[i + 1] as int, p)
            as u16,
    )
}

/// The actions of all groups, in configured order.
pub open spec fn groups_actions_spec(
    groups: Seq<DailyRoutineLightGroup>,
    ts: Seq<u32>,
    tod: u32,
    snap: DeviceSnapshot,
) -> Seq<(Seq<char>, LightStateDelta)>
    decreases groups.len(),
{
    if groups.len() == 0 {
        Seq::empty()
    } else {
        group_actions_spec(
            groups[0].light_ids@,
            snap,
            segment_index_spec(ts, tod),
            group_targets(groups[0], ts, tod).0,
            group_targets(groups[0], ts, tod).1,
        ) + groups_actions_spec(groups.skip(1), ts, tod, snap)
    }
}

/// Everything one tick of the routine emits at a given time of day
/// against a given snapshot: a pure function of the two.
pub open spec fn daily_actions_spec(
    p: DailyRoutineProgramme,
    tod: u32,
    snap: DeviceSnapshot,
) -> Seq<(Seq<char>, LightStateDelta)> {
    groups_actions_spec(p.light_groups@, p.transition_times@, tod, snap)
}

/// A device for which the per-device rule yields nothing — absent from
/// the snapshot, or with its delta suppressed — appears nowhere in a
/// group's emitted actions.
pub proof fn lemma_suppressed_device_gets_no_action(
    ids: Seq<String>,
    snap: DeviceSnapshot,
    index: int,
    nb: u8,
    nct: u16,
    id: Seq<char>,
)
    requires
        match lookup_light(snap.lights@, id) {
            None => true,
            Some(st) => daily_delta_spec(st, index, nb, nct) is None,
        },
    ensures
        forall|k: int|
            0 <= k < group_actions_spec(ids, snap, index, nb, nct).len()
                ==> (#[trigger] group_actions_spec(ids, snap, index, nb, nct)[k]).0 != id,
    decreases ids.len(),
{
    if ids.len() > 0 {
        lemma_suppressed_device_gets_no_action(ids.skip(1), snap, index, nb, nct, id);
        let acts = group_actions_spec(ids, snap, index, nb, nct);
        let rest = group_actions_spec(ids.skip(1), snap, index, nb, nct);
        assert forall|k: int| 0 <= k < acts.len() implies (#[trigger] acts[k]).0 != id by {
            match lookup_light(snap.lights@, ids[0]@) {
                None => {},
                Some(st) => {
                    match daily_delta_spec(st, index, nb, nct) {
                        None => {},
                        Some(d) => {
                            assert(acts == seq![(ids[0]@, d)] + rest);
                            if k == 0 {
                                assert(acts[0].0 == ids[0]@);
                            } else {
                                assert(acts[k] == rest[k - 1]);
                            }
                        },
                    }
                },
            }
        }
    }
}

/// Idempotence at the level of a group's whole emission: a device whose
/// reported state already matches the interpolated targets exactly is
/// named by no action of the group.
pub proof fn lemma_matching_device_gets_no_action(
    ids: Seq<String>,
    snap: DeviceSnapshot,
    index: int,
    nb: u8,
    nct: u16,
    id: Seq<char>,
)
    requires
        lookup_light(snap.lights@, id) matches Some(st) && st.on && st.bri == nb && st.ct == Some(
            nct,
        ),
    ensures
        forall|k: int|
            0 <= k < group_actions_spec(ids, snap, index, nb, nct).len()
                ==> (#[trigger] group_actions_spec(ids, snap, index, nb, nct)[k]).0 != id,
{
    lemma_suppressed_device_gets_no_action(ids, snap, index, nb, nct, id);
}

/// A device reported off outside the wake segment is named by no
/// action of the group, however far its reported values lie from the
/// targets.
pub proof fn lemma_off_device_gets_no_action(
    ids: Seq<String>,
    snap: DeviceSnapshot,
    index: int,
    nb: u8,
    nct: u16,
    id: Seq<char>,
)
    requires
        lookup_light(snap.lights@, id) matches Some(st) && !st.on,
        index != 1,
    ensures
        forall|k: int|
            0 <= k < group_actions_spec(ids, snap, index, nb, nct).len()
                ==> (#[trigger] group_actions_spec(ids, snap, index, nb, nct)[k]).0 != id,
{
    lemma_suppressed_device_gets_no_action(ids, snap, index, nb, nct, id);
}

/// The executable per-device rule.
pub fn delta_for_device(st: &LightState, index: usize, nb: u8, nct: u16) -> (r: Option<
    LightStateDelta,
>)
    ensures
        r == daily_delta_spec(*st, index as int, nb, nct),
{
    if !st.reachable {
        return None;
    }
    if !st.on && index != 1 {
        return None;
    }
    let on_field: Option<bool> = if !st.on {
        Some(true)
    } else {
        None
    };
    let bri_field: Option<u8> = if !st.on || (st.ct.is_some() && nb != st.bri) {
        Some(nb)
    } else {
        None
    };
    let ct_differs = match st.ct {
        Some(c) => c != nct,
        None => true,
    };
    let ct_field: Option<u16> = if !st.on || (st.colour_mode_ct && ct_differs) {
        Some(nct)
    } else {
        None
    };
    if on_field.is_none() && bri_field.is_none() && ct_field.is_none() {
        None
    } else {
        Some(
            LightStateDelta {
                on: on_field,
                bri: bri_field,
                hue: None,
                sat: None,
                ct: ct_field,
                transition_time: None,
            },
        )
    }
}

impl DailyRoutineProgramme {
    /// One tick at the given time of day: look up the current segment,
    /// compute its elapsed fraction, interpolate each group's targets,
    /// and collect the per-device deltas, exactly as the action
    /// specification lays them out.
    pub fn tick_at(&self, tod: u32, snapshot: &DeviceSnapshot) -> (r: Vec<LightAction>)
        requires
            self.wf(),
            tod < 86400,
        ensures
            actions_model(r@) == daily_actions_spec(*self, tod, *snapshot),
            forall|k: int| 0 <= k < r@.len() ==> !delta_is_empty(#[trigger] r@[k].delta),
    {
        let ghost total = daily_actions_spec(*self, tod, *snapshot);
        let mut result: Vec<LightAction> = Vec::new();
        let index = segment_index(&self.transition_times, tod);
        let progress = segment_progress(&self.transition_times, tod);
        let ng = self.light_groups.len();
        let mut gi: usize = 0;
        proof {
            assert(actions_model(result@) =~= Seq::<(Seq<char>, LightStateDelta)>::empty());
            assert(self.light_groups@.skip(0) =~= self.light_groups@);
            assert(actions_model(result@) + groups_actions_spec(
                self.light_groups@.skip(0),
                self.transition_times@,
                tod,
                *snapshot,
            ) =~= total);
        }
        while gi < ng
            invariant
                gi <= ng,
                self.wf(),
                tod < 86400,
                ng == self.light_groups@.len(),
                index == segment_index_spec(self.transition_times@, tod),
                index + 1 < self.transition_times@.len(),
                progress == progress_spec(self.transition_times@, tod),
                progress < 65536,
                total == daily_actions_spec(*self, tod, *snapshot),
                actions_model(result@) + groups_actions_spec(
                    self.light_groups@.skip(gi as int),
                    self.transition_times@,
                    tod,
                    *snapshot,
                ) == total,
                forall|k: int| 0 <= k < result@.len() ==> !delta_is_empty(#[trigger] result@[k].delta),
            decreases ng - gi,
        {
            let g = &self.light_groups[gi];
            let nb16 = interpolate(
                g.brightnesses[index] as u16,
                g.brightnesses[index + 1] as u16,
                progress,
            );
            let nb = nb16 as u8;
            let nct = interpolate(
                g.colour_temperatures[index],
                g.colour_temperatures[index + 1],
                progress,
            );
            proof {
                assert(nb == group_targets(*g, self.transition_times@, tod).0);
                assert(nct == group_targets(*g, self.transition_times@, tod).1);
                assert(self.light_groups@.skip(gi as int)[0] == self.light_groups@[gi as int]);
                assert(self.light_groups@.skip(gi as int).skip(1) =~= self.light_groups@.skip(
                    gi + 1,
                ));
                assert(g.light_ids@.skip(0) =~= g.light_ids@);
                assert(groups_actions_spec(
                    self.light_groups@.skip(gi as int),
                    self.transition_times@,
                    tod,
                    *snapshot,
                ) == group_actions_spec(g.light_ids@, *snapshot, index as int, nb, nct)
                    + groups_actions_spec(
                    self.light_groups@.skip(gi + 1),
                    self.transition_times@,
                    tod,
                    *snapshot,
                ));
                assert(actions_model(result@) + (group_actions_spec(
                    g.light_ids@,
                    *snapshot,
                    index as int,
                    nb,
                    nct,
                ) + groups_actions_spec(
                    self.light_groups@.skip(gi + 1),
                    self.transition_times@,
                    tod,
                    *snapshot,
                )) =~= (actions_model(result@) + group_actions_spec(
                    g.light_ids@,
                    *snapshot,
                    index as int,
                    nb,
                    nct,
                )) + groups_actions_spec(
                    self.light_groups@.skip(gi + 1),
                    self.transition_times@,
                    tod,
                    *snapshot,
                ));
            }
            let nl = g.light_ids.len();
            let mut li: usize = 0;
            while li < nl
                invariant
                    li <= nl,
                    gi < ng,
                    ng == self.light_groups@.len(),
                    g == &self.light_groups@[gi as int],
                    nl == g.light_ids@.len(),
                    total == daily_actions_spec(*self, tod, *snapshot),
                    (actions_model(result@) + group_actions_spec(
                        g.light_ids@.skip(li as int),
                        *snapshot,
                        index as int,
                        nb,
                        nct,
                    )) + groups_actions_spec(
                        self.light_groups@.skip(gi + 1),
                        self.transition_times@,
                        tod,
                        *snapshot,
                    ) == total,
                    forall|k: int|
                        0 <= k < result@.len() ==> !delta_is_empty(#[trigger] result@[k].delta),
                decreases nl - li,
            {
                let id = &g.light_ids[li];
                proof {
                    assert(g.light_ids@.skip(li as int)[0] == g.light_ids@[li as int]);
                    assert(g.light_ids@.skip(li as int).skip(1) =~= g.light_ids@.skip(li + 1));
                }
                match snapshot.lookup(id) {
                    None => {},
                    Some(st) => {
                        match delta_for_device(&st, index, nb, nct) {
                            None => {},
                            Some(d) => {
                                proof {
                                    lemma_daily_delta_never_empty(st, index as int, nb, nct);
                                }
                                let a = LightAction { light_id: id.clone(), delta: d };
                                proof {
                                    assert(actions_model(result@.push(a)) =~= actions_model(
                                        result@,
                                    ).push((id@, d)));
                                    assert(actions_model(result@) + (seq![(id@, d)]
                                        + group_actions_spec(
                                        g.light_ids@.skip(li + 1),
                                        *snapshot,
                                        index as int,
                                        nb,
                                        nct,
                                    )) =~= actions_model(result@.push(a)) + group_actions_spec(
                                        g.light_ids@.skip(li + 1),
                                        *snapshot,
                                        index as int,
                                        nb,
                                        nct,
                                    ));
                                }
                                result.push(a);
                            },
                        }
                    },
                }
                li = li + 1;
            }
            proof {
                assert(group_actions_spec(
                    g.light_ids@.skip(nl as int),
                    *snapshot,
                    index as int,
                    nb,
                    nct,
                ) =~= Seq::<(Seq<char>, LightStateDelta)>::empty());
                assert(actions_model(result@) + group_actions_spec(
                    g.light_ids@.skip(nl as int),
                    *snapshot,
                    index as int,
                    nb,
                    nct,
                ) =~= actions_model(result@));
            }
            gi = gi + 1;
        }
        proof {
            assert(groups_actions_spec(
                self.light_groups@.skip(ng as int),
                self.transition_times@,
                tod,
                *snapshot,
            ) =~= Seq::<(Seq<char>, LightStateDelta)>::empty());
            assert(actions_model(result@) + groups_actions_spec(
                self.light_groups@.skip(ng as int),
                self.transition_times@,
                tod,
                *snapshot,
            ) =~= actions_model(result@));
        }
        result
    }

    /// One tick against the clock itself: whatever time of day the
    /// clock reports, the emitted actions are the action specification
    /// at that time.
    pub fn tick(&self, snapshot: &DeviceSnapshot) -> (r: Vec<LightAction>)
        requires
            self.wf(),
        ensures
            exists|tod: u32|
                tod < 86400 && actions_model(r@) == daily_actions_spec(*self, tod, *snapshot),
            forall|k: int| 0 <= k < r@.len() ==> !delta_is_empty(#[trigger] r@[k].delta),
    {
        let tod = clock::local_seconds_of_day();
        let r = self.tick_at(tod, snapshot);
        proof {
            assert(tod < 86400 && actions_model(r@) == daily_actions_spec(*self, tod, *snapshot));
        }
        r
    }
}

} // verus!
