use hue_programmes::colourful::ColourfulConfig;
use hue_programmes::colourful::ColourfulProgramme;
use hue_programmes::colourful::ColourfulState;
use hue_programmes::config::BuildError;

fn name_table() -> Vec<(String, String)> {
    vec![
        ("Lamp".to_string(), "1".to_string()),
        ("Ceiling".to_string(), "2".to_string()),
        ("Desk".to_string(), "3".to_string()),
        ("Mirror".to_string(), "1".to_string()),
    ]
}

fn two_light_config() -> ColourfulConfig {
    ColourfulConfig {
        interval_time: 40, // tenths of a second: 4000 ms
        transition_time: 10,
        lights: vec!["Lamp".to_string(), "Ceiling".to_string()],
    }
}

fn programme(ids: Vec<&str>, next_run: i64, last: &str) -> ColourfulProgramme {
    ColourfulProgramme {
        name: "cycle".to_string(),
        light_ids: ids.into_iter().map(|s| s.to_string()).collect(),
        interval_millis: 4000,
        transition_time: 10,
        state: ColourfulState { next_run_millis: next_run, last_light_id: last.to_string() },
    }
}

#[test]
fn build_resolves_and_converts_interval() {
    let p = ColourfulProgramme::build(&name_table(), "cycle".to_string(), &two_light_config())
        .unwrap();
    assert_eq!(p.name, "cycle");
    assert_eq!(p.light_ids, vec!["1".to_string(), "2".to_string()]);
    assert_eq!(p.interval_millis, 4000);
    assert_eq!(p.transition_time, 10);
    assert_eq!(p.state.last_light_id, "");
}

#[test]
fn group_of_one_is_rejected() {
    let cfg = ColourfulConfig {
        interval_time: 40,
        transition_time: 10,
        lights: vec!["Lamp".to_string()],
    };
    let r = ColourfulProgramme::build(&name_table(), "cycle".to_string(), &cfg);
    assert_eq!(r.err(), Some(BuildError::TooFewLights));
}

#[test]
fn unknown_light_is_rejected() {
    let cfg = ColourfulConfig {
        interval_time: 40,
        transition_time: 10,
        lights: vec!["Lamp".to_string(), "Cellar".to_string()],
    };
    let r = ColourfulProgramme::build(&name_table(), "cycle".to_string(), &cfg);
    assert_eq!(r.err(), Some(BuildError::UnknownLightName("Cellar".to_string())));
}

#[test]
fn group_resolving_to_a_single_device_is_rejected() {
    // "Lamp" and "Mirror" both resolve to identifier "1": whichever
    // device fired last, no alternative would remain
    let cfg = ColourfulConfig {
        interval_time: 40,
        transition_time: 10,
        lights: vec!["Lamp".to_string(), "Mirror".to_string()],
    };
    let r = ColourfulProgramme::build(&name_table(), "cycle".to_string(), &cfg);
    assert_eq!(r.err(), Some(BuildError::NoDistinctLights));
}

#[test]
fn repeated_entries_are_accepted_beside_a_distinct_device() {
    // "Lamp" and "Mirror" share identifier "1", but "Ceiling" is a
    // second distinct device, so no-repeat selection never starves
    let cfg = ColourfulConfig {
        interval_time: 40,
        transition_time: 10,
        lights: vec!["Lamp".to_string(), "Mirror".to_string(), "Ceiling".to_string()],
    };
    let p = ColourfulProgramme::build(&name_table(), "cycle".to_string(), &cfg).unwrap();
    assert_eq!(p.light_ids, vec!["1".to_string(), "1".to_string(), "2".to_string()]);
}

#[test]
fn no_repeat_holds_with_repeated_entries() {
    // two entries for device 1 and one for device 2: consecutive fires
    // must still alternate between the two devices
    let mut p = programme(vec!["1", "1", "2"], 0, "");
    let mut last = String::new();
    for _ in 0..100 {
        let a = p.tick_at(i64::MAX).unwrap();
        assert_ne!(a.light_id, last);
        assert!(a.light_id == "1" || a.light_id == "2");
        last = a.light_id;
    }
}

#[test]
fn tick_before_next_run_is_a_no_op() {
    let mut p = programme(vec!["1", "2"], 10_000, "1");
    let r = p.tick_at(9_999);
    assert!(r.is_none());
    assert_eq!(p.state.next_run_millis, 10_000);
    assert_eq!(p.state.last_light_id, "1");
}

#[test]
fn next_fire_after_a_selects_b() {
    // group {A, B}, interval 4000 ms, last fired on A: the next fire
    // has only B to choose
    let mut p = programme(vec!["A", "B"], 10_000, "A");
    let a = p.tick_at(10_000).unwrap();
    assert_eq!(a.light_id, "B");
    assert_eq!(p.state.last_light_id, "B");
    assert_eq!(p.state.next_run_millis, 14_000);
    assert_eq!(a.delta.transition_time, Some(10));
    assert!(a.delta.hue.is_some());
    assert!(a.delta.on.is_none() && a.delta.bri.is_none() && a.delta.ct.is_none());
}

#[test]
fn timer_advances_by_one_interval_not_to_now() {
    // polled far behind schedule, the timer still moves one interval
    let mut p = programme(vec!["1", "2"], 10_000, "");
    p.tick_at(1_000_000).unwrap();
    assert_eq!(p.state.next_run_millis, 14_000);
}

#[test]
fn consecutive_fires_never_repeat_a_device() {
    let mut p = programme(vec!["1", "2", "3"], 0, "");
    let mut last = String::new();
    let mut counts = [0usize; 3];
    for _ in 0..300 {
        let a = p.tick_at(i64::MAX).unwrap();
        assert_ne!(a.light_id, last);
        let idx: usize = match a.light_id.as_str() {
            "1" => 0,
            "2" => 1,
            "3" => 2,
            other => panic!("unexpected device {}", other),
        };
        counts[idx] += 1;
        last = a.light_id;
    }
    // long-run selection is roughly uniform over the group
    for &c in counts.iter() {
        assert!(c >= 40, "device chosen only {} times of 300", c);
    }
}

#[test]
fn saturation_stays_in_the_upper_quarter() {
    let mut p = programme(vec!["1", "2"], 0, "");
    for _ in 0..200 {
        let a = p.tick_at(i64::MAX).unwrap();
        let sat = a.delta.sat.unwrap();
        assert!(sat >= 0xc0);
    }
}

#[test]
fn clocked_tick_fires_once_the_interval_elapsed() {
    let mut p = ColourfulProgramme::build(&name_table(), "cycle".to_string(), &two_light_config())
        .unwrap();
    // the timer starts at the clock reading taken during build, so a
    // fire comes as soon as the clock reaches it again
    let mut fired = None;
    for _ in 0..1_000_000 {
        if let Some(a) = p.tick() {
            fired = Some(a);
            break;
        }
    }
    let a = fired.expect("the programme never fired");
    assert!(a.light_id == "1" || a.light_id == "2");
    assert!(a.delta.sat.unwrap() >= 0xc0);
}
