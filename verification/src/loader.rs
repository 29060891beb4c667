use vstd::prelude::*;

verus! {

/// A PDU channel that a robot reads: the conductor client subscribes to it.
pub struct RpcPduReader {
    pub pdu_type: String,
    pub org_name: String,
    pub name: String,
    pub channel_id: u32,
    pub pdu_size: u32,
    pub method_type: String,
}

/// A PDU channel that a robot writes: the conductor client publishes it.
pub struct RpcPduWriter {
    pub pdu_type: String,
    pub org_name: String,
    pub name: String,
    pub channel_id: u32,
    pub pdu_size: u32,
    pub write_cycle: u32,
    pub method_type: String,
}

/// A robot and its PDU channels.
pub struct Robot {
    pub name: String,
    pub rpc_pdu_readers: Vec<RpcPduReader>,
    pub rpc_pdu_writers: Vec<RpcPduWriter>,
}

/// The robots of a simulation.
pub struct RobotConfig {
    pub robots: Vec<Robot>,
}

/// The settings of a conductor client.
#[derive(Clone)]
pub struct ConductorConfig {
    pub asset_name: String,
    pub core_ipaddr: String,
    pub core_portno: i32,
    pub delta_msec: i64,
    pub max_delay_msec: i64,
    pub udp_server_ip_port: String,
    pub udp_sender_ip_port: String,
    pub mqtt_portno: i32,
    pub mqtt_pub_client_id: String,
    pub mqtt_sub_client_id: String,
}

} // verus!
