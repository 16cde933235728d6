use hue_programmes::LightStateDelta;
use hue_programmes::light::DeviceSnapshot;
use hue_programmes::light::LightEntry;
use hue_programmes::light::LightState;

fn state(bri: u8) -> LightState {
    LightState { on: true, reachable: true, bri, ct: None, colour_mode_ct: false }
}

#[test]
fn snapshot_lookup_finds_a_device_by_identifier() {
    let snap = DeviceSnapshot {
        lights: vec![
            LightEntry { id: "1".to_string(), name: "Lamp".to_string(), state: state(10) },
            LightEntry { id: "2".to_string(), name: "Ceiling".to_string(), state: state(20) },
        ],
    };
    assert_eq!(snap.lookup(&"2".to_string()).unwrap().bri, 20);
    assert_eq!(snap.lookup(&"1".to_string()).unwrap().bri, 10);
    assert!(snap.lookup(&"3".to_string()).is_none());
}

#[test]
fn the_empty_delta_has_every_field_absent() {
    let d = LightStateDelta::none();
    assert_eq!(d.on, None);
    assert_eq!(d.bri, None);
    assert_eq!(d.hue, None);
    assert_eq!(d.sat, None);
    assert_eq!(d.ct, None);
    assert_eq!(d.transition_time, None);
}
