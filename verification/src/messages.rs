use vstd::prelude::*;

verus! {

/// The result code that every reply of the conductor service carries.
#[derive(Debug, Clone, Copy, PartialEq, Eq, Structural)]
pub enum ErrorCode {
    Success,
    Exist,
    Inval,
}

/// The state of the simulation as the conductor service reports it.
#[derive(Debug, Clone, Copy, PartialEq, Eq, Structural)]
pub enum SimulationStatus {
    StatusStopped,
    StatusRunnable,
    StatusRunning,
    StatusStopping,
    StatusTerminated,
}

/// An event that the conductor server notifies an asset of.
#[derive(Debug, Clone, Copy, PartialEq, Eq, Structural)]
pub enum AssetNotificationEvent {
    NoEvent,
    Start,
    Stop,
    Reset,
    Error,
    Heartbeat,
}

/// Names an asset.
pub struct AssetInfo {
    pub name: String,
}

/// The assets that the server knows.
pub struct AssetInfoList {
    pub assets: Vec<AssetInfo>,
}

/// A reply that carries nothing but its result code.
pub struct NormalReply {
    pub ercd: ErrorCode,
}

/// The reply to a query of the simulation's state.
pub struct SimStatReply {
    pub ercd: ErrorCode,
    pub status: SimulationStatus,
}

/// One notification of the stream that the server sends an asset.
pub struct AssetNotification {
    pub event: AssetNotificationEvent,
}

/// What an asset answers to a notification.
pub struct AssetNotificationReply {
    pub event: AssetNotificationEvent,
    pub asset: Option<AssetInfo>,
    pub ercd: ErrorCode,
}

/// An asset's report of its simulation time.
pub struct NotifySimtimeRequest {
    pub asset: Option<AssetInfo>,
    pub asset_time: i64,
    pub is_read_pdu_done: bool,
    pub is_write_pdu_done: bool,
}

/// The server's answer to a report of simulation time.
pub struct NotifySimtimeReply {
    pub ercd: ErrorCode,
    pub master_time: i64,
    pub is_pdu_created: bool,
    pub is_simulation_mode: bool,
    pub is_pdu_sync_mode: bool,
    pub status: SimulationStatus,
}

/// A client's request that the server publish a PDU channel to it.
pub struct CreatePduChannelRequest {
    pub asset_name: String,
    pub channel_id: i32,
    pub pdu_size: i32,
    pub method_type: String,
    pub robo_name: String,
}

/// The server's answer to a channel creation, with the port that the data
/// goes to.
pub struct CreatePduChannelReply {
    pub ercd: ErrorCode,
    pub port: i32,
}

/// A client's request to subscribe to a PDU channel that the server holds.
pub struct SubscribePduChannelRequest {
    pub asset_name: String,
    pub channel_id: i32,
    pub pdu_size: i32,
    pub listen_udp_ip_port: String,
    pub method_type: String,
    pub robo_name: String,
}

/// The server's answer to a subscription.
pub struct SubscribePduChannelReply {
    pub ercd: ErrorCode,
}

} // verus!
