use hakoniwa_conductor::api::{
    asset_event_from_code, simulation_state_from_code, SimulationAssetEventType,
    SimulationStateType,
};
use hakoniwa_conductor::text::{decimal_string, parse_i32, parse_server_port, push_decimal, text_is, udp_address};

#[test]
fn asset_event_codes_decode() {
    assert_eq!(asset_event_from_code(0), SimulationAssetEventType::NoEvent);
    assert_eq!(asset_event_from_code(1), SimulationAssetEventType::Start);
    assert_eq!(asset_event_from_code(2), SimulationAssetEventType::Stop);
    assert_eq!(asset_event_from_code(3), SimulationAssetEventType::Reset);
    assert_eq!(asset_event_from_code(4), SimulationAssetEventType::Error);
    assert_eq!(asset_event_from_code(5), SimulationAssetEventType::Invalid);
    assert_eq!(asset_event_from_code(-1), SimulationAssetEventType::Invalid);
}

#[test]
fn simulation_state_codes_decode() {
    assert_eq!(simulation_state_from_code(0), SimulationStateType::Stopped);
    assert_eq!(simulation_state_from_code(1), SimulationStateType::Runnable);
    assert_eq!(simulation_state_from_code(2), SimulationStateType::Running);
    assert_eq!(simulation_state_from_code(3), SimulationStateType::Stopping);
    assert_eq!(simulation_state_from_code(4), SimulationStateType::Resetting);
    assert_eq!(simulation_state_from_code(5), SimulationStateType::Error);
    assert_eq!(simulation_state_from_code(6), SimulationStateType::Invalid);
    assert_eq!(simulation_state_from_code(99), SimulationStateType::Invalid);
}

#[test]
fn decimal_text_matches_to_string() {
    for n in [0i32, 7, 10, 54001, -1, -45, i32::MAX, i32::MIN] {
        assert_eq!(decimal_string(n), n.to_string());
    }
    let mut s = String::from("port=");
    push_decimal(&mut s, 1883);
    assert_eq!(s, "port=1883");
}

#[test]
fn parse_reads_like_std() {
    for t in ["0", "+7", "-0", "-2147483648", "2147483647", "2147483648", "-2147483649", "", "-", "+", "12a", " 1", "99999999999", "007"] {
        assert_eq!(parse_i32(t), t.parse::<i32>().ok(), "text {:?}", t);
    }
}

#[test]
fn decimal_text_parses_back() {
    for n in [0i32, 1, -1, 123456, -98765, i32::MAX, i32::MIN] {
        assert_eq!(parse_i32(&decimal_string(n)), Some(n));
    }
}

#[test]
fn server_port_is_second_field() {
    assert_eq!(parse_server_port("172.20.0.10:54001"), Some(54001));
    assert_eq!(parse_server_port("host:12:99"), Some(12));
    assert_eq!(parse_server_port("54001"), None);
    assert_eq!(parse_server_port("host:"), None);
    assert_eq!(parse_server_port("host:port"), None);
    assert_eq!(parse_server_port(":-5"), Some(-5));
}

#[test]
fn text_is_compares_whole_text() {
    let s = String::from("MQTT");
    assert!(text_is(&s, "MQTT"));
    assert!(!text_is(&s, "MQT"));
    assert!(!text_is(&s, "UDP"));
}

#[test]
fn udp_address_takes_host_of_grpc_address() {
    assert_eq!(udp_address("172.20.0.10:50051", "54001"), "172.20.0.10:54001");
    assert_eq!(udp_address("172.20.0.10:50051", "127.0.0.1:54002"), "127.0.0.1:54002");
    assert_eq!(udp_address("localhost", "54001"), "localhost:54001");
    assert_eq!(parse_server_port(&udp_address("172.20.0.10:50051", "54001")), Some(54001));
}
