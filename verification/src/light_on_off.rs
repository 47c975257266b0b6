//! A light of the bridge.

use crate::bridge;
use crate::bridge::default_light_name;
use crate::number;
use crate::number::decimal;
use vstd::prelude::*;

verus! {

/// What a light does when it gets power.
#[derive(Clone, Copy, Debug, PartialEq, Eq, Structural)]
pub enum StartUpOnOff {
    Off,
    On,
    Toggle,
}

/// The state of a light.
#[derive(Clone, Copy, Debug, PartialEq, Eq, Structural)]
pub struct LightState {
    pub on_off: bool,
    pub start_up_on_off: Option<StartUpOnOff>,
}

impl LightState {
    /// A light that is off.
    pub fn new() -> (r: LightState)
        ensures
            r == (LightState { on_off: false, start_up_on_off: None }),
    {
        LightState { on_off: false, start_up_on_off: None }
    }
}

/// What a light that has been switched leads to: a line for the log, and a signal to those who wait
/// for it to be switched on.
#[derive(Debug)]
pub struct Switched {
    pub log: String,
    pub signal: bool,
}

/// The line for the log when a light has been switched.
pub open spec fn switch_log(endpoint: u16, on: bool) -> Seq<char> {
    "bulb_id="@ + number::decimal_text(endpoint as nat) + " bulb_name=\""@ + bridge::light_name(
        endpoint,
    ) + "\" on_off="@ + if on {
        "true"@
    } else {
        "false"@
    }
}

/// A light at an endpoint of the bridge.
#[derive(Clone, Copy, Debug, PartialEq, Eq, Structural)]
pub struct LightOnOffLogic {
    pub endpoint_id: u16,
    pub state: LightState,
}

impl LightOnOffLogic {
    /// A light at an endpoint, which is off.
    pub fn new(endpoint_id: u16) -> (r: LightOnOffLogic)
        ensures
            r.endpoint_id == endpoint_id,
            r.state == (LightState { on_off: false, start_up_on_off: None }),
    {
        LightOnOffLogic { endpoint_id, state: LightState::new() }
    }

    /// The name of the light.
    pub fn light_name(&self) -> (r: String)
        ensures
            r@ == bridge::light_name(self.endpoint_id),
    {
        default_light_name(self.endpoint_id)
    }

    /// Whether the light is on.
    pub fn on_off(&self) -> (r: bool)
        ensures
            r == self.state.on_off,
    {
        self.state.on_off
    }

    /// Switches the light. Only switching it on is signalled.
    pub fn set_on_off(&mut self, on: bool) -> (r: Switched)
        ensures
            *final(self) == (LightOnOffLogic {
                state: LightState { on_off: on, ..old(self).state },
                ..*old(self)
            }),
            r.log@ == switch_log(old(self).endpoint_id, on),
            r.signal == on,
    {
        self.state.on_off = on;
        let mut log: String = "bulb_id=".to_string();
        log.append(decimal(self.endpoint_id as u64).as_str());
        log.append(" bulb_name=\"");
        log.append(self.light_name().as_str());
        log.append("\" on_off=");
        if on {
            log.append("true");
        } else {
            log.append("false");
        }
        Switched { log, signal: on }
    }

    /// What the light does when it gets power.
    pub fn start_up_on_off(&self) -> (r: Option<StartUpOnOff>)
        ensures
            r == self.state.start_up_on_off,
    {
        self.state.start_up_on_off
    }

    /// Sets what the light does when it gets power.
    pub fn set_start_up_on_off(&mut self, value: Option<StartUpOnOff>)
        ensures
            *final(self) == (LightOnOffLogic {
                state: LightState { start_up_on_off: value, ..old(self).state },
                ..*old(self)
            }),
    {
        self.state.start_up_on_off = value;
    }
}

} // verus!
