use hue_programmes::config::BuildError;
use hue_programmes::dailyroutine::DailyRoutineConfig;
use hue_programmes::dailyroutine::DailyRoutineProgramme;
use hue_programmes::dailyroutine::DailyRoutineTransitionTimesConfig;
use hue_programmes::light::DeviceSnapshot;
use hue_programmes::light::LightEntry;
use hue_programmes::light::LightState;

fn times() -> DailyRoutineTransitionTimesConfig {
    DailyRoutineTransitionTimesConfig {
        morning: (21600, 25200),     // 06:00-07:00
        evening: (68400, 72000),     // 19:00-20:00
        bedtime_1: (75600, 79200),   // 21:00-22:00
        bedtime_2: (82800, 84600),   // 23:00-23:30
    }
}

fn name_table() -> Vec<(String, String)> {
    vec![
        ("Lamp".to_string(), "1".to_string()),
        ("Ceiling".to_string(), "2".to_string()),
    ]
}

// brightness day 255, evening 200, first bedtime 100, night tail 64;
// colour temperature day 153, evening 300, first bedtime 400, tail 454
fn config() -> DailyRoutineConfig {
    DailyRoutineConfig {
        transition_times: times(),
        brightness: vec![("living".to_string(), (255, 200, 100, 64))],
        colour_temperature: vec![("living".to_string(), (153, 300, 400, 454))],
        light_groups: vec![("living".to_string(), vec!["Lamp".to_string()])],
    }
}

fn build() -> DailyRoutineProgramme {
    DailyRoutineProgramme::build(&name_table(), "routine".to_string(), &config()).unwrap()
}

fn snapshot_with(state: LightState) -> DeviceSnapshot {
    DeviceSnapshot {
        lights: vec![LightEntry { id: "1".to_string(), name: "Lamp".to_string(), state }],
    }
}

fn on_state(bri: u8, ct: u16) -> LightState {
    LightState { on: true, reachable: true, bri, ct: Some(ct), colour_mode_ct: true }
}

#[test]
fn morning_quarter_interpolates_brightness_to_111() {
    // 06:15 is a quarter through the morning ramp from 64 to 255:
    // 64 + 191 / 4 = 111 with integer truncation
    let p = build();
    let snap = snapshot_with(on_state(50, 454));
    let actions = p.tick_at(22500, &snap);
    assert_eq!(actions.len(), 1);
    assert_eq!(actions[0].light_id, "1");
    assert_eq!(actions[0].delta.bri, Some(111));
    // colour temperature runs 454 down to 153: 454 - 301 / 4 = 378.75,
    // the subtracted part truncates, leaving 379
    assert_eq!(actions[0].delta.ct, Some(379));
    assert_eq!(actions[0].delta.on, None);
    assert_eq!(actions[0].delta.hue, None);
    assert_eq!(actions[0].delta.sat, None);
}

#[test]
fn matching_device_receives_no_delta() {
    // mid-day plateau: targets are exactly 255 and 153 for the whole
    // segment; a device already there is left alone
    let p = build();
    let snap = snapshot_with(on_state(255, 153));
    let actions = p.tick_at(40000, &snap);
    assert_eq!(actions.len(), 0);
}

#[test]
fn off_device_outside_wake_segment_is_skipped() {
    let p = build();
    let mut st = on_state(0, 500);
    st.on = false;
    let snap = snapshot_with(st);
    // pre-morning (01:00) and evening (19:30): never the wake segment
    assert_eq!(p.tick_at(3600, &snap).len(), 0);
    assert_eq!(p.tick_at(70200, &snap).len(), 0);
}

#[test]
fn off_device_is_woken_in_the_morning_segment() {
    let p = build();
    let mut st = on_state(0, 500);
    st.on = false;
    let snap = snapshot_with(st);
    let actions = p.tick_at(22500, &snap);
    assert_eq!(actions.len(), 1);
    assert_eq!(actions[0].delta.on, Some(true));
    assert_eq!(actions[0].delta.bri, Some(111));
    assert_eq!(actions[0].delta.ct, Some(379));
}

#[test]
fn unreachable_device_is_skipped() {
    let p = build();
    let mut st = on_state(0, 500);
    st.reachable = false;
    let snap = snapshot_with(st);
    assert_eq!(p.tick_at(40000, &snap).len(), 0);
}

#[test]
fn device_missing_from_snapshot_is_passed_over() {
    let p = build();
    let snap = DeviceSnapshot { lights: vec![] };
    assert_eq!(p.tick_at(40000, &snap).len(), 0);
}

#[test]
fn brightness_updates_only_with_colour_temperature_control() {
    // reported state has no colour temperature at all: brightness is
    // not touched, and neither is the colour temperature
    let p = build();
    let st = LightState { on: true, reachable: true, bri: 0, ct: None, colour_mode_ct: false };
    let snap = snapshot_with(st);
    assert_eq!(p.tick_at(40000, &snap).len(), 0);
}

#[test]
fn colour_temperature_needs_ct_colour_mode() {
    // device reports a colour temperature but is in another colour
    // mode: brightness is corrected, colour temperature is left alone
    let p = build();
    let st = LightState { on: true, reachable: true, bri: 10, ct: Some(500), colour_mode_ct: false };
    let snap = snapshot_with(st);
    let actions = p.tick_at(40000, &snap);
    assert_eq!(actions.len(), 1);
    assert_eq!(actions[0].delta.bri, Some(255));
    assert_eq!(actions[0].delta.ct, None);
}

#[test]
fn non_increasing_boundaries_are_rejected() {
    let mut cfg = config();
    cfg.transition_times.morning = (25200, 25200);
    let r = DailyRoutineProgramme::build(&name_table(), "routine".to_string(), &cfg);
    assert_eq!(r.err(), Some(BuildError::BoundariesNotIncreasing));
}

#[test]
fn missing_group_values_are_rejected() {
    let mut cfg = config();
    cfg.brightness = vec![("other".to_string(), (1, 2, 3, 4))];
    let r = DailyRoutineProgramme::build(&name_table(), "routine".to_string(), &cfg);
    assert_eq!(r.err(), Some(BuildError::MissingGroupValues("living".to_string())));
}

#[test]
fn unknown_group_light_is_rejected() {
    let mut cfg = config();
    cfg.light_groups = vec![("living".to_string(), vec!["Cellar".to_string()])];
    let r = DailyRoutineProgramme::build(&name_table(), "routine".to_string(), &cfg);
    assert_eq!(r.err(), Some(BuildError::UnknownLightName("Cellar".to_string())));
}

#[test]
fn build_lays_out_boundary_and_target_tables() {
    let p = build();
    assert_eq!(
        p.transition_times,
        vec![0, 21600, 25200, 68400, 72000, 75600, 79200, 82800, 84600, 86400]
    );
    assert_eq!(p.light_groups.len(), 1);
    assert_eq!(p.light_groups[0].name, "living");
    assert_eq!(p.light_groups[0].light_ids, vec!["1".to_string()]);
    assert_eq!(p.light_groups[0].brightnesses, vec![64, 64, 255, 255, 200, 200, 100, 100, 64, 64]);
    assert_eq!(
        p.light_groups[0].colour_temperatures,
        vec![454, 454, 153, 153, 300, 300, 400, 400, 454, 454]
    );
}

#[test]
fn clocked_tick_matches_some_time_of_day() {
    // a group whose targets are the same in every segment: whatever
    // the clock reads, the emitted delta is the same
    let cfg = DailyRoutineConfig {
        transition_times: times(),
        brightness: vec![("living".to_string(), (200, 200, 200, 200))],
        colour_temperature: vec![("living".to_string(), (320, 320, 320, 320))],
        light_groups: vec![("living".to_string(), vec!["Lamp".to_string()])],
    };
    let p = DailyRoutineProgramme::build(&name_table(), "routine".to_string(), &cfg).unwrap();
    let snap = snapshot_with(on_state(0, 320));
    let actions = p.tick(&snap);
    assert_eq!(actions.len(), 1);
    assert_eq!(actions[0].delta.bri, Some(200));
    assert_eq!(actions[0].delta.ct, None);
}
