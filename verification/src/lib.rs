//! Verified core of the Hakoniwa conductor: the simulation state and event
//! codes of the Hakoniwa core, the PDU channel registry, the UDP packet
//! framing of PDU data, the MQTT topic naming and the decisions taken by the
//! conductor server and client.
pub mod api;
pub mod pdu;
pub mod text;
pub mod mqtt;
pub mod udp;
pub mod messages;
pub mod server;
pub mod loader;
pub mod client;
