//! Programme engine for networked smart lights.
//!
//! Each programme computes, from the current clock reading and a
//! point-in-time snapshot of device state, the sparse state changes it
//! wants pushed to devices; the manager presents one snapshot per cycle
//! to every programme.

use vstd::prelude::*;

pub mod clock;
pub mod colourful;
pub mod config;
pub mod dailyroutine;
pub mod interp;
pub mod light;
pub mod programme;
pub mod rng;

verus! {

/// A sparse set of optional attribute changes requested for one device.
#[derive(Clone, Copy, PartialEq, Eq, Debug)]
pub struct LightStateDelta {
    pub on: Option<bool>,
    pub bri: Option<u8>,
    pub hue: Option<u16>,
    pub sat: Option<u8>,
    pub ct: Option<u16>,
    pub transition_time: Option<u16>,
}

/// A delta with every field absent must never be sent to a device.
pub open spec fn delta_is_empty(d: LightStateDelta) -> bool {
    &&& d.on is None
    &&& d.bri is None
    &&& d.hue is None
    &&& d.sat is None
    &&& d.ct is None
    &&& d.transition_time is None
}

impl LightStateDelta {
    /// The all-absent delta, the starting point for every request.
    pub fn none() -> (r: LightStateDelta)
        ensures
            delta_is_empty(r),
    {
        LightStateDelta { on: None, bri: None, hue: None, sat: None, ct: None, transition_time: None }
    }
}

} // verus!
