use hakoniwa_conductor::client::{asset_notify_simtime_request, cycle_sends, next_stage, StartupStage};
use hakoniwa_conductor::loader::ConductorConfig;

fn config(mqtt: i32) -> ConductorConfig {
    ConductorConfig {
        asset_name: "ConductorClient-01".to_string(),
        core_ipaddr: "172.20.0.10".to_string(),
        core_portno: 50051,
        delta_msec: 20,
        max_delay_msec: 20,
        udp_server_ip_port: "172.20.0.11:51001".to_string(),
        udp_sender_ip_port: "172.20.0.11:51002".to_string(),
        mqtt_portno: mqtt,
        mqtt_pub_client_id: "pub".to_string(),
        mqtt_sub_client_id: "sub".to_string(),
    }
}

fn run(cfg: &ConductorConfig, fail_at: Option<StartupStage>) -> Vec<StartupStage> {
    let mut seen = vec![StartupStage::InitMaster];
    let mut stage = StartupStage::InitMaster;
    while stage != StartupStage::Running && stage != StartupStage::Failed {
        stage = next_stage(stage, Some(stage) != fail_at, cfg);
        seen.push(stage);
    }
    seen
}

#[test]
fn startup_runs_every_stage_in_order() {
    assert_eq!(
        run(&config(-1), None),
        vec![StartupStage::InitMaster, StartupStage::ConnectServer, StartupStage::RegisterWithCore, StartupStage::RegisterWithServer, StartupStage::LoadRobotConfig, StartupStage::InitializeReaders, StartupStage::InitializeWriters, StartupStage::StartEventMonitor, StartupStage::OpenUdp, StartupStage::Running]
    );
    let with_mqtt = run(&config(1883), None);
    assert_eq!(with_mqtt[9], StartupStage::StartMqtt);
    assert_eq!(with_mqtt[10], StartupStage::Running);
}

#[test]
fn startup_stops_at_first_failure() {
    assert_eq!(run(&config(-1), Some(StartupStage::RegisterWithCore)), vec![StartupStage::InitMaster, StartupStage::ConnectServer, StartupStage::RegisterWithCore, StartupStage::Failed]);
    assert_eq!(run(&config(1883), Some(StartupStage::StartMqtt)).last(), Some(&StartupStage::Failed));
    assert_eq!(next_stage(StartupStage::Failed, true, &config(-1)), StartupStage::Failed);
    assert_eq!(next_stage(StartupStage::Running, false, &config(-1)), StartupStage::Running);
}

#[test]
fn cycle_sends_only_after_a_cycle_that_asks() {
    let s = cycle_sends(Some(true), true, true);
    assert!(s.udp && s.mqtt);
    let s = cycle_sends(Some(true), true, false);
    assert!(s.udp && !s.mqtt);
    let s = cycle_sends(Some(true), false, true);
    assert!(s.udp && !s.mqtt);
    let s = cycle_sends(Some(false), true, true);
    assert!(!s.udp && !s.mqtt);
    let s = cycle_sends(None, true, true);
    assert!(!s.udp && !s.mqtt);
}

#[test]
fn simtime_request_carries_both_flags() {
    let a = "A".to_string();
    let r = asset_notify_simtime_request(&a, 5, true, false);
    assert!(r.is_read_pdu_done && !r.is_write_pdu_done);
    assert_eq!(r.asset_time, 5);
    assert_eq!(r.asset.unwrap().name, "A");
}
