use hue_programmes::colourful::ColourfulConfig;
use hue_programmes::config::BuildError;
use hue_programmes::config::Config;
use hue_programmes::config::CoreConfig;
use hue_programmes::config::ProgrammeConfig;
use hue_programmes::dailyroutine::DailyRoutineConfig;
use hue_programmes::dailyroutine::DailyRoutineTransitionTimesConfig;
use hue_programmes::light::DeviceSnapshot;
use hue_programmes::light::LightEntry;
use hue_programmes::light::LightState;
use hue_programmes::programme::ProgrammeManager;

fn times() -> DailyRoutineTransitionTimesConfig {
    DailyRoutineTransitionTimesConfig {
        morning: (21600, 25200),
        evening: (68400, 72000),
        bedtime_1: (75600, 79200),
        bedtime_2: (82800, 84600),
    }
}

// constant targets in every segment, so the emitted delta does not
// depend on when the test runs
fn steady_routine(light: &str) -> ProgrammeConfig {
    ProgrammeConfig::DailyRoutine(DailyRoutineConfig {
        transition_times: times(),
        brightness: vec![("group".to_string(), (200, 200, 200, 200))],
        colour_temperature: vec![("group".to_string(), (320, 320, 320, 320))],
        light_groups: vec![("group".to_string(), vec![light.to_string()])],
    })
}

fn snapshot() -> DeviceSnapshot {
    let state = LightState { on: true, reachable: true, bri: 0, ct: Some(320), colour_mode_ct: true };
    DeviceSnapshot {
        lights: vec![LightEntry { id: "1".to_string(), name: "Lamp".to_string(), state }],
    }
}

#[test]
fn manager_builds_every_named_programme() {
    let config = Config {
        core: CoreConfig { sleep_millis: 1000 },
        programmes: vec![
            ("one".to_string(), steady_routine("Lamp")),
            (
                "two".to_string(),
                ProgrammeConfig::Colourful(ColourfulConfig {
                    interval_time: 40,
                    transition_time: 10,
                    lights: vec!["Lamp".to_string(), "Lamp2".to_string()],
                }),
            ),
        ],
    };
    let mut snap = snapshot();
    snap.lights.push(LightEntry {
        id: "2".to_string(),
        name: "Lamp2".to_string(),
        state: snapshot().lights[0].state,
    });
    let m = ProgrammeManager::new(&config, &snap).unwrap();
    assert_eq!(m.programmes.len(), 2);
    assert_eq!(m.programmes[0].0, "one");
    assert_eq!(m.programmes[1].0, "two");
}

#[test]
fn manager_rejects_an_unresolvable_programme() {
    let config = Config {
        core: CoreConfig { sleep_millis: 1000 },
        programmes: vec![("one".to_string(), steady_routine("Cellar"))],
    };
    let r = ProgrammeManager::new(&config, &snapshot());
    assert_eq!(r.err(), Some(BuildError::UnknownLightName("Cellar".to_string())));
}

#[test]
fn every_programme_sees_the_same_snapshot() {
    // three programmes over the same device: each must compute its
    // delta from the one snapshot of the cycle, so all three emissions
    // are identical
    let config = Config {
        core: CoreConfig { sleep_millis: 1000 },
        programmes: vec![
            ("a".to_string(), steady_routine("Lamp")),
            ("b".to_string(), steady_routine("Lamp")),
            ("c".to_string(), steady_routine("Lamp")),
        ],
    };
    let snap = snapshot();
    let mut m = ProgrammeManager::new(&config, &snap).unwrap();
    let per_programme = m.tick(&snap);
    assert_eq!(per_programme.len(), 3);
    for actions in per_programme.iter() {
        assert_eq!(actions.len(), 1);
        assert_eq!(actions[0].light_id, "1");
        assert_eq!(actions[0].delta.bri, Some(200));
        assert_eq!(actions[0].delta.on, None);
        assert_eq!(actions[0].delta.ct, None);
    }
}

#[test]
fn manager_ticks_both_programme_kinds_in_one_cycle() {
    let config = Config {
        core: CoreConfig { sleep_millis: 1000 },
        programmes: vec![
            (
                "cycle".to_string(),
                ProgrammeConfig::Colourful(ColourfulConfig {
                    interval_time: 65535,
                    transition_time: 10,
                    lights: vec!["Lamp".to_string(), "Lamp2".to_string()],
                }),
            ),
            ("routine".to_string(), steady_routine("Lamp")),
        ],
    };
    let mut snap = snapshot();
    snap.lights.push(LightEntry {
        id: "2".to_string(),
        name: "Lamp2".to_string(),
        state: snapshot().lights[0].state,
    });
    let mut m = ProgrammeManager::new(&config, &snap).unwrap();
    let per_programme = m.tick(&snap);
    assert_eq!(per_programme.len(), 2);
    // whether or not the cycler's timer had elapsed, its emission is
    // its own; the routine's delta in the same cycle is unaffected
    assert!(per_programme[0].len() <= 1);
    assert_eq!(per_programme[1].len(), 1);
    assert_eq!(per_programme[1][0].delta.bri, Some(200));
}
