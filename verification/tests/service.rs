use hakoniwa_conductor::api::{SimulationAssetEventType, SimulationStateType};
use hakoniwa_conductor::client::{
    apply_simtime_reply, check_reply, configure_mqtt, create_request, execute_step,
    feedback_request, get_simevent, get_state, msec_to_usec, reader_channels,
    record_notification, register_reader_channel, register_writer_channel, simtime_request,
    subscribe_request, writer_channels, ClientError, ClientSimStatus, ExecuteStep,
    SimulationState,
};
use hakoniwa_conductor::loader::{ConductorConfig, Robot, RobotConfig, RpcPduReader, RpcPduWriter};
use hakoniwa_conductor::messages::{
    AssetInfo, AssetNotificationEvent, AssetNotificationReply, CreatePduChannelRequest,
    ErrorCode, NotifySimtimeReply, NotifySimtimeRequest, SimulationStatus,
    SubscribePduChannelRequest,
};
use hakoniwa_conductor::mqtt::{get_mqtt_url, MqttSettings};
use hakoniwa_conductor::pdu::{get_asset_pub_pdu_channel_robo_name, get_asset_sub_pdu_size, PduChannels};
use hakoniwa_conductor::server::{get_status, stop_service, FeedbackAction, HakoCoreService};

fn s(t: &str) -> String {
    t.to_string()
}

fn config(mqtt: i32) -> ConductorConfig {
    ConductorConfig {
        asset_name: s("ConductorClient-01"),
        core_ipaddr: s("172.20.0.10"),
        core_portno: 50051,
        delta_msec: 20,
        max_delay_msec: 20,
        udp_server_ip_port: s("172.20.0.11:51001"),
        udp_sender_ip_port: s("172.20.0.11:51002"),
        mqtt_portno: mqtt,
        mqtt_pub_client_id: s("pub"),
        mqtt_sub_client_id: s("sub"),
    }
}

fn reader(ch: u32, size: u32, method: &str) -> RpcPduReader {
    RpcPduReader { pdu_type: s("std_msgs/String"), org_name: s("ch"), name: s("n"), channel_id: ch, pdu_size: size, method_type: s(method) }
}

fn writer(ch: u32, size: u32, method: &str) -> RpcPduWriter {
    RpcPduWriter { pdu_type: s("std_msgs/String"), org_name: s("ch"), name: s("n"), channel_id: ch, pdu_size: size, write_cycle: 1, method_type: s(method) }
}

#[test]
fn status_follows_core_state() {
    assert_eq!(get_status(SimulationStateType::Runnable), SimulationStatus::StatusRunnable);
    assert_eq!(get_status(SimulationStateType::Running), SimulationStatus::StatusRunning);
    assert_eq!(get_status(SimulationStateType::Stopped), SimulationStatus::StatusStopped);
    assert_eq!(get_status(SimulationStateType::Stopping), SimulationStatus::StatusStopping);
    assert_eq!(get_status(SimulationStateType::Error), SimulationStatus::StatusTerminated);
    assert_eq!(get_status(SimulationStateType::Resetting), SimulationStatus::StatusTerminated);
    assert_eq!(get_status(SimulationStateType::Invalid), SimulationStatus::StatusTerminated);
}

#[test]
fn client_reads_server_state() {
    for (core, seen) in [
        (SimulationStateType::Stopped, SimulationState::Stopped),
        (SimulationStateType::Runnable, SimulationState::Runnable),
        (SimulationStateType::Running, SimulationState::Running),
        (SimulationStateType::Stopping, SimulationState::Stopping),
        (SimulationStateType::Resetting, SimulationState::Terminated),
        (SimulationStateType::Error, SimulationState::Terminated),
    ] {
        assert_eq!(get_state(get_status(core)), seen);
    }
}

#[test]
fn simple_replies() {
    let svc = HakoCoreService {};
    assert_eq!(svc.register(true).ercd, ErrorCode::Success);
    assert_eq!(svc.register(false).ercd, ErrorCode::Exist);
    assert_eq!(svc.unregister(false).ercd, ErrorCode::Inval);
    assert_eq!(svc.start_simulation(true).ercd, ErrorCode::Success);
    assert_eq!(svc.stop_simulation(false).ercd, ErrorCode::Inval);
    assert_eq!(svc.reset_simulation(false).ercd, ErrorCode::Inval);
    assert_eq!(svc.flush_simulation_time_sync_info().ercd, ErrorCode::Success);
    let list = svc.get_asset_list();
    assert_eq!(list.assets.len(), 1);
    assert_eq!(list.assets[0].name, "TestAsset");
    let st = svc.get_sim_status(SimulationStateType::Running);
    assert_eq!(st.ercd, ErrorCode::Success);
    assert_eq!(st.status, SimulationStatus::StatusRunning);
    stop_service();
}

#[test]
fn notification_steps() {
    let svc = HakoCoreService {};
    let st = svc.asset_notification_step(SimulationAssetEventType::NoEvent, true);
    assert_eq!(st.event, Some(AssetNotificationEvent::Heartbeat));
    assert!(!st.activate_mqtt);
    let st = svc.asset_notification_step(SimulationAssetEventType::Start, true);
    assert_eq!(st.event, Some(AssetNotificationEvent::Start));
    assert!(st.activate_mqtt);
    let st = svc.asset_notification_step(SimulationAssetEventType::Start, false);
    assert!(!st.activate_mqtt);
    assert_eq!(svc.asset_notification_step(SimulationAssetEventType::Stop, true).event, Some(AssetNotificationEvent::Stop));
    assert_eq!(svc.asset_notification_step(SimulationAssetEventType::Reset, true).event, Some(AssetNotificationEvent::Reset));
    assert_eq!(svc.asset_notification_step(SimulationAssetEventType::Error, true).event, Some(AssetNotificationEvent::Error));
    assert_eq!(svc.asset_notification_step(SimulationAssetEventType::Invalid, true).event, None);
}

#[test]
fn feedback_goes_to_the_core() {
    let svc = HakoCoreService {};
    let req = AssetNotificationReply { event: AssetNotificationEvent::Start, asset: Some(AssetInfo { name: s("A") }), ercd: ErrorCode::Success };
    let (action, reply) = svc.asset_notification_feedback(req);
    assert_eq!(reply.ercd, ErrorCode::Success);
    match action {
        FeedbackAction::StartFeedback { asset_name, is_ok } => {
            assert_eq!(asset_name, "A");
            assert!(is_ok);
        }
        _ => panic!("expected a start feedback"),
    }
    let req = AssetNotificationReply { event: AssetNotificationEvent::Reset, asset: Some(AssetInfo { name: s("B") }), ercd: ErrorCode::Inval };
    match svc.asset_notification_feedback(req).0 {
        FeedbackAction::ResetFeedback { asset_name, is_ok } => {
            assert_eq!(asset_name, "B");
            assert!(!is_ok);
        }
        _ => panic!("expected a reset feedback"),
    }
    let req = AssetNotificationReply { event: AssetNotificationEvent::Heartbeat, asset: Some(AssetInfo { name: s("B") }), ercd: ErrorCode::Success };
    assert!(matches!(svc.asset_notification_feedback(req).0, FeedbackAction::NoFeedback));
}

#[test]
fn simtime_report_and_reply() {
    let svc = HakoCoreService {};
    let req = NotifySimtimeRequest { asset: Some(AssetInfo { name: s("A") }), asset_time: 40000, is_read_pdu_done: true, is_write_pdu_done: false };
    let n = svc.simtime_notice(req);
    assert_eq!(n.asset_name, "A");
    assert_eq!(n.asset_time, 40000);
    assert!(n.read_pdu_done);
    assert!(!n.write_pdu_done);
    let r = svc.notify_simtime(60000, true, false, true, SimulationStateType::Running);
    assert_eq!(r.ercd, ErrorCode::Success);
    assert_eq!(r.master_time, 60000);
    assert!(r.is_pdu_created && !r.is_pdu_sync_mode && r.is_simulation_mode);
    assert_eq!(r.status, SimulationStatus::StatusRunning);
}

#[test]
fn channel_requests_register_once() {
    let svc = HakoCoreService {};
    let mut c = PduChannels::new();
    let req = || CreatePduChannelRequest { asset_name: s("A"), channel_id: 1, pdu_size: 256, method_type: s("UDP"), robo_name: s("TB3RoboModel") };
    let r = svc.create_pdu_channel(&mut c, true, 1, req(), 54001, 1883);
    assert_eq!((r.ercd, r.port), (ErrorCode::Success, 54001));
    let r = svc.create_pdu_channel(&mut c, true, 1, req(), 54001, 1883);
    assert_eq!((r.ercd, r.port), (ErrorCode::Inval, -1));
    let r = svc.create_pdu_channel(&mut c, false, 2, req(), 54001, 1883);
    assert_eq!((r.ercd, r.port), (ErrorCode::Inval, -1));
    let mq = CreatePduChannelRequest { asset_name: s("A"), channel_id: 3, pdu_size: 8, method_type: s("MQTT"), robo_name: s("R") };
    let r = svc.create_pdu_channel(&mut c, true, 3, mq, -1, 1883);
    assert_eq!((r.ercd, r.port), (ErrorCode::Success, 1883));
    assert_eq!(get_asset_pub_pdu_channel_robo_name(&c, 1), (1, s("TB3RoboModel")));

    let sreq = || SubscribePduChannelRequest { asset_name: s("A"), channel_id: 2, pdu_size: 256, listen_udp_ip_port: s("172.20.0.11:51001"), method_type: s("UDP"), robo_name: s("TB3RoboModel") };
    assert_eq!(svc.subscribe_pdu_channel(&mut c, 0, sreq()).ercd, ErrorCode::Success);
    assert_eq!(svc.subscribe_pdu_channel(&mut c, 0, sreq()).ercd, ErrorCode::Inval);
    assert_eq!(get_asset_sub_pdu_size(&c, 0), 256);
}

#[test]
fn pending_event_is_handed_out_once() {
    let mut st = ClientSimStatus::new();
    assert_eq!(get_simevent(&mut st), AssetNotificationEvent::NoEvent);
    record_notification(&mut st, AssetNotificationEvent::Start);
    record_notification(&mut st, AssetNotificationEvent::Heartbeat);
    record_notification(&mut st, AssetNotificationEvent::NoEvent);
    assert_eq!(get_simevent(&mut st), AssetNotificationEvent::Start);
    assert_eq!(get_simevent(&mut st), AssetNotificationEvent::NoEvent);
    record_notification(&mut st, AssetNotificationEvent::Stop);
    record_notification(&mut st, AssetNotificationEvent::Error);
    assert_eq!(get_simevent(&mut st), AssetNotificationEvent::Error);
}

#[test]
fn simtime_reply_updates_status() {
    let mut st = ClientSimStatus::new();
    record_notification(&mut st, AssetNotificationEvent::Reset);
    let bad = NotifySimtimeReply { ercd: ErrorCode::Inval, master_time: 5, is_pdu_created: true, is_simulation_mode: true, is_pdu_sync_mode: true, status: SimulationStatus::StatusRunning };
    assert_eq!(apply_simtime_reply(&mut st, &bad).err(), Some(ClientError::SimtimeRejected));
    assert_eq!(st.master_time, 0);
    let good = NotifySimtimeReply { ercd: ErrorCode::Success, master_time: 40000, is_pdu_created: true, is_simulation_mode: true, is_pdu_sync_mode: false, status: SimulationStatus::StatusRunning };
    let now = apply_simtime_reply(&mut st, &good).unwrap();
    assert_eq!(now.master_time, 40000);
    assert_eq!(now.state, SimulationState::Running);
    assert_eq!(now.event, AssetNotificationEvent::Reset);
    assert_eq!(st.master_time, 40000);
}

#[test]
fn cycle_steps() {
    let mut st = ClientSimStatus::new();
    assert_eq!(execute_step(&st), ExecuteStep::Wait);
    st.state = SimulationState::Running;
    assert_eq!(execute_step(&st), ExecuteStep::Wait);
    st.is_pdu_created = true;
    st.is_pdu_sync_mode = true;
    assert_eq!(execute_step(&st), ExecuteStep::SendPdu);
    st.is_pdu_sync_mode = false;
    assert_eq!(execute_step(&st), ExecuteStep::SendPdu);
    st.is_simulation_mode = true;
    st.master_time = 123;
    assert_eq!(execute_step(&st), ExecuteStep::Advance { master_time: 123 });
}

#[test]
fn client_requests_and_checks() {
    let a = s("A");
    let r = feedback_request(&a, AssetNotificationEvent::Stop, false);
    assert_eq!(r.ercd, ErrorCode::Inval);
    assert_eq!(r.event, AssetNotificationEvent::Stop);
    assert_eq!(r.asset.unwrap().name, "A");
    assert_eq!(feedback_request(&a, AssetNotificationEvent::Start, true).ercd, ErrorCode::Success);
    let q = simtime_request(&a, 777, true);
    assert!(q.is_read_pdu_done && q.is_write_pdu_done);
    assert_eq!(q.asset_time, 777);
    assert_eq!(check_reply(ErrorCode::Success, ClientError::RegisterRejected), Ok(()));
    assert_eq!(check_reply(ErrorCode::Exist, ClientError::RegisterRejected), Err(ClientError::RegisterRejected));
    assert_eq!(ClientError::RegisterRejected.message(), "Can not register asset");
    assert_eq!(ClientError::SubscribeRejected.message(), "Can not SubscribePduChannel");
}

#[test]
fn robot_channels_are_planned_in_order() {
    let robots = RobotConfig {
        robots: vec![
            Robot { name: s("R1"), rpc_pdu_readers: vec![reader(2, 256, "UDP"), reader(4, 8, "MQTT")], rpc_pdu_writers: vec![writer(1, 256, "UDP")] },
            Robot { name: s("R2"), rpc_pdu_readers: vec![], rpc_pdu_writers: vec![writer(3, 16, "MQTT"), writer(u32::MAX, 1, "UDP")] },
        ],
    };
    let readers = reader_channels(&robots);
    assert_eq!(readers.len(), 2);
    assert_eq!((readers[0].robo_name.as_str(), readers[0].channel_id, readers[0].pdu_size), ("R1", 2, 256));
    assert_eq!((readers[1].robo_name.as_str(), readers[1].channel_id, readers[1].method_type.as_str()), ("R1", 4, "MQTT"));
    let writers = writer_channels(&robots);
    assert_eq!(writers.len(), 3);
    assert_eq!(writers[0].robo_name, "R1");
    assert_eq!((writers[1].robo_name.as_str(), writers[1].channel_id), ("R2", 3));
    assert_eq!(writers[2].channel_id, -1);

    let cfg = config(-1);
    let sr = subscribe_request(&cfg, &readers[0]);
    assert_eq!(sr.listen_udp_ip_port, "172.20.0.11:51001");
    assert_eq!((sr.channel_id, sr.pdu_size, sr.robo_name.as_str()), (2, 256, "R1"));
    let cr = create_request(&cfg, &writers[0]);
    assert_eq!((cr.asset_name.as_str(), cr.channel_id, cr.method_type.as_str()), ("ConductorClient-01", 1, "UDP"));

    let mut c = PduChannels::new();
    assert_eq!(register_reader_channel(&mut c, 0, &cfg, &readers[0]), Ok(()));
    assert_eq!(register_reader_channel(&mut c, 0, &cfg, &readers[0]), Err(ClientError::PubChannelExists));
    assert_eq!(register_writer_channel(&mut c, 1, &cfg, &writers[0], 54001), Ok(()));
    assert_eq!(register_writer_channel(&mut c, 1, &cfg, &writers[0], 54001), Err(ClientError::SubChannelExists));
    assert_eq!(c.sub_channels.get(&1).unwrap().options.udp_ip_port, "172.20.0.10:54001");
}

#[test]
fn mqtt_only_for_positive_port() {
    let mut m = MqttSettings::new();
    assert!(!configure_mqtt(&mut m, &config(-1)));
    assert_eq!(get_mqtt_url(&m), "None");
    assert!(configure_mqtt(&mut m, &config(1883)));
    assert_eq!(get_mqtt_url(&m), "mqtt://172.20.0.10:1883");
}

#[test]
fn msec_to_usec_checks_overflow() {
    assert_eq!(msec_to_usec(20), Some(20000));
    assert_eq!(msec_to_usec(-3), Some(-3000));
    assert_eq!(msec_to_usec(i64::MAX / 1000 + 1), None);
}
