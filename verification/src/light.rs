//! The device-state model: a point-in-time snapshot of every light's
//! reported state, and the actions (sparse deltas) a programme requests.

use vstd::prelude::*;

use crate::LightStateDelta;

verus! {

/// One device's reported state inside a snapshot.
#[derive(Clone, Copy)]
pub struct LightState {
    /// Whether the device reports itself as switched on.
    pub on: bool,
    /// Whether the device is currently reachable on the network.
    pub reachable: bool,
    /// Reported brightness.
    pub bri: u8,
    /// Reported colour temperature, absent on devices without
    /// colour-temperature control.
    pub ct: Option<u16>,
    /// Whether the reported colour mode is colour-temperature control.
    pub colour_mode_ct: bool,
}

/// One device in a snapshot: its identifier, human-readable name and state.
pub struct LightEntry {
    pub id: String,
    pub name: String,
    pub state: LightState,
}

/// An immutable point-in-time read of every device's reported state,
/// built once per scheduling cycle and shown identically to every
/// programme of that cycle.
pub struct DeviceSnapshot {
    pub lights: Vec<LightEntry>,
}

/// The state of the first entry whose identifier equals `id`, if any.
pub open spec fn lookup_light(lights: Seq<LightEntry>, id: Seq<char>) -> Option<LightState>
    decreases lights.len(),
{
    if lights.len() == 0 {
        None
    } else if lights[0].id@ == id {
        Some(lights[0].state)
    } else {
        lookup_light(lights.skip(1), id)
    }
}

impl DeviceSnapshot {
    /// The reported state of the device with the given identifier.
    pub fn lookup(&self, id: &String) -> (r: Option<LightState>)
        ensures
            r == lookup_light(self.lights@, id@),
    {
        let n = self.lights.len();
        let mut i: usize = 0;
        proof {
            assert(self.lights@.skip(0) =~= self.lights@);
        }
        while i < n
            invariant
                i <= n,
                n == self.lights@.len(),
                lookup_light(self.lights@, id@) == lookup_light(self.lights@.skip(i as int), id@),
            decreases n - i,
        {
            let entry = &self.lights[i];
            proof {
                assert(self.lights@.skip(i as int)[0] == self.lights@[i as int]);
                assert(self.lights@.skip(i as int).skip(1) =~= self.lights@.skip(i + 1));
            }
            if entry.id.eq(id) {
                return Some(entry.state);
            }
            i = i + 1;
        }
        None
    }
}

/// What one programme asks the bridge client to change on one device.
pub struct LightAction {
    pub light_id: String,
    pub delta: LightStateDelta,
}

/// The mathematical content of an action: the device identifier's
/// characters paired with the requested delta.
pub open spec fn action_model(a: LightAction) -> (Seq<char>, LightStateDelta) {
    (a.light_id@, a.delta)
}

/// The models of a whole action list, in emission order.
pub open spec fn actions_model(actions: Seq<LightAction>) -> Seq<(Seq<char>, LightStateDelta)> {
    actions.map_values(|a: LightAction| action_model(a))
}

} // verus!
