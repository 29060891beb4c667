use vstd::prelude::*;

verus! {

/// An asset event as the Hakoniwa core reports it to one asset.
#[derive(Debug, Clone, Copy, PartialEq, Eq, Structural)]
pub enum SimulationAssetEventType {
    NoEvent,
    Start,
    Stop,
    Reset,
    Error,
    Invalid,
}

/// The state of the whole simulation as the Hakoniwa core reports it.
#[derive(Debug, Clone, Copy, PartialEq, Eq, Structural)]
pub enum SimulationStateType {
    NoState,
    Stopped,
    Runnable,
    Running,
    Stopping,
    Resetting,
    Error,
    Invalid,
}

/// The event that the core's event code `code` stands for.
pub open spec fn spec_asset_event(code: i32) -> SimulationAssetEventType {
    if code == 0 {
        SimulationAssetEventType::NoEvent
    } else if code == 1 {
        SimulationAssetEventType::Start
    } else if code == 2 {
        SimulationAssetEventType::Stop
    } else if code == 3 {
        SimulationAssetEventType::Reset
    } else if code == 4 {
        SimulationAssetEventType::Error
    } else {
        SimulationAssetEventType::Invalid
    }
}

/// The simulation state that the core's state code `code` stands for.
pub open spec fn spec_simulation_state(code: i32) -> SimulationStateType {
    if code == 0 {
        SimulationStateType::Stopped
    } else if code == 1 {
        SimulationStateType::Runnable
    } else if code == 2 {
        SimulationStateType::Running
    } else if code == 3 {
        SimulationStateType::Stopping
    } else if code == 4 {
        SimulationStateType::Resetting
    } else if code == 5 {
        SimulationStateType::Error
    } else {
        SimulationStateType::Invalid
    }
}

/// Decodes the event code that the core returns for an asset.
pub fn asset_event_from_code(code: i32) -> (ev: SimulationAssetEventType)
    ensures
        ev == spec_asset_event(code),
{
    match code {
        0 => SimulationAssetEventType::NoEvent,
        1 => SimulationAssetEventType::Start,
        2 => SimulationAssetEventType::Stop,
        3 => SimulationAssetEventType::Reset,
        4 => SimulationAssetEventType::Error,
        _ => SimulationAssetEventType::Invalid,
    }
}

/// Decodes the simulation state code that the core returns.
pub fn simulation_state_from_code(code: i32) -> (state: SimulationStateType)
    ensures
        state == spec_simulation_state(code),
{
    match code {
        0 => SimulationStateType::Stopped,
        1 => SimulationStateType::Runnable,
        2 => SimulationStateType::Running,
        3 => SimulationStateType::Stopping,
        4 => SimulationStateType::Resetting,
        5 => SimulationStateType::Error,
        _ => SimulationStateType::Invalid,
    }
}

} // verus!
