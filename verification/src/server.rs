use crate::api::{SimulationAssetEventType, SimulationStateType};
use crate::messages::{
    AssetInfo, AssetInfoList, AssetNotificationEvent, AssetNotificationReply,
    CreatePduChannelReply, CreatePduChannelRequest, ErrorCode, NormalReply, NotifySimtimeReply,
    NotifySimtimeRequest, SimStatReply, SimulationStatus, SubscribePduChannelReply,
    SubscribePduChannelRequest,
};
use crate::pdu::{
    asset_create_pdu_channel, create_asset_sub_pdu, is_new_sub_pdu, AssetPubPduType, PduChannels,
};
use crate::text::text_is;
use vstd::prelude::*;

verus! {

/// The status that the service reports for the core's simulation state.
pub open spec fn spec_status(state: SimulationStateType) -> SimulationStatus {
    match state {
        SimulationStateType::Runnable => SimulationStatus::StatusRunnable,
        SimulationStateType::Running => SimulationStatus::StatusRunning,
        SimulationStateType::Stopped => SimulationStatus::StatusStopped,
        SimulationStateType::Stopping => SimulationStatus::StatusStopping,
        _ => SimulationStatus::StatusTerminated,
    }
}

/// The status that the service reports when the core is in `state`.
pub fn get_status(state: SimulationStateType) -> (status: SimulationStatus)
    ensures
        status == spec_status(state),
{
    match state {
        SimulationStateType::Runnable => SimulationStatus::StatusRunnable,
        SimulationStateType::Running => SimulationStatus::StatusRunning,
        SimulationStateType::Stopped => SimulationStatus::StatusStopped,
        SimulationStateType::Stopping => SimulationStatus::StatusStopping,
        SimulationStateType::Error => SimulationStatus::StatusTerminated,
        _ => SimulationStatus::StatusTerminated,
    }
}

/// The result code of a request that the core granted (`done`) or refused
/// with `refusal`.
pub open spec fn outcome(done: bool, refusal: ErrorCode) -> ErrorCode {
    if done {
        ErrorCode::Success
    } else {
        refusal
    }
}

fn reply(done: bool, refusal: ErrorCode) -> (r: NormalReply)
    ensures
        r.ercd == outcome(done, refusal),
{
    if done {
        NormalReply { ercd: ErrorCode::Success }
    } else {
        NormalReply { ercd: refusal }
    }
}

/// The notification that the server streams to an asset for the core's
/// event `ev`; none for an invalid event.
pub open spec fn spec_notification(ev: SimulationAssetEventType) -> Option<AssetNotificationEvent> {
    match ev {
        SimulationAssetEventType::NoEvent => Some(AssetNotificationEvent::Heartbeat),
        SimulationAssetEventType::Start => Some(AssetNotificationEvent::Start),
        SimulationAssetEventType::Stop => Some(AssetNotificationEvent::Stop),
        SimulationAssetEventType::Reset => Some(AssetNotificationEvent::Reset),
        SimulationAssetEventType::Error => Some(AssetNotificationEvent::Error),
        SimulationAssetEventType::Invalid => None,
    }
}

/// What the server does with one polled event of an asset's notification
/// stream.
pub struct NotificationStep {
    /// The notification to send, if any.
    pub event: Option<AssetNotificationEvent>,
    /// Whether to start the MQTT receiver first.
    pub activate_mqtt: bool,
}

/// Which feedback of an asset the server hands to the core.
pub enum FeedbackAction {
    StartFeedback { asset_name: String, is_ok: bool },
    StopFeedback { asset_name: String, is_ok: bool },
    ResetFeedback { asset_name: String, is_ok: bool },
    NoFeedback,
}

/// What the server asks of the core for an asset's report of its
/// simulation time.
pub struct SimtimeNotice {
    pub asset_name: String,
    pub asset_time: i64,
    pub read_pdu_done: bool,
    pub write_pdu_done: bool,
}

/// The conductor's gRPC service: each request's answer, given what the core
/// answered.
#[derive(Debug, Default)]
pub struct HakoCoreService {}

impl HakoCoreService {
    /// The answer to an asset's registration, which the core granted
    /// (`registered`) or refused because the asset exists.
    pub fn register(&self, registered: bool) -> (r: NormalReply)
        ensures
            r.ercd == outcome(registered, ErrorCode::Exist),
    {
        reply(registered, ErrorCode::Exist)
    }

    /// The answer to an asset's deregistration.
    pub fn unregister(&self, unregistered: bool) -> (r: NormalReply)
        ensures
            r.ercd == outcome(unregistered, ErrorCode::Inval),
    {
        reply(unregistered, ErrorCode::Inval)
    }

    /// The asset list: a single asset named `TestAsset`.
    pub fn get_asset_list(&self) -> (r: AssetInfoList)
        ensures
            r.assets@.len() == 1,
            r.assets@[0].name@ == "TestAsset"@,
    {
        let mut assets: Vec<AssetInfo> = Vec::new();
        assets.push(AssetInfo { name: String::from_str("TestAsset") });
        AssetInfoList { assets: assets }
    }

    /// The answer to a start of the simulation.
    pub fn start_simulation(&self, started: bool) -> (r: NormalReply)
        ensures
            r.ercd == outcome(started, ErrorCode::Inval),
    {
        reply(started, ErrorCode::Inval)
    }

    /// The answer to a stop of the simulation.
    pub fn stop_simulation(&self, stopped: bool) -> (r: NormalReply)
        ensures
            r.ercd == outcome(stopped, ErrorCode::Inval),
    {
        reply(stopped, ErrorCode::Inval)
    }

    /// The simulation's status while the core is in `state`.
    pub fn get_sim_status(&self, state: SimulationStateType) -> (r: SimStatReply)
        ensures
            r.ercd == ErrorCode::Success,
            r.status == spec_status(state),
    {
        SimStatReply { ercd: ErrorCode::Success, status: get_status(state) }
    }

    /// The answer to a reset of the simulation.
    pub fn reset_simulation(&self, reset: bool) -> (r: NormalReply)
        ensures
            r.ercd == outcome(reset, ErrorCode::Inval),
    {
        reply(reset, ErrorCode::Inval)
    }

    /// The answer to a request to write out the time synchronisation
    /// record: always a success.
    pub fn flush_simulation_time_sync_info(&self) -> (r: NormalReply)
        ensures
            r.ercd == ErrorCode::Success,
    {
        NormalReply { ercd: ErrorCode::Success }
    }

    /// One step of an asset's notification stream, for the core's event
    /// `ev`: the notification to send and, on a start while MQTT is
    /// configured, starting the MQTT receiver.
    pub fn asset_notification_step(
        &self,
        ev: SimulationAssetEventType,
        mqtt_enabled: bool,
    ) -> (step: NotificationStep)
        ensures
            step.event == spec_notification(ev),
            step.activate_mqtt == (ev == SimulationAssetEventType::Start && mqtt_enabled),
    {
        match ev {
            SimulationAssetEventType::NoEvent => NotificationStep {
                event: Some(AssetNotificationEvent::Heartbeat),
                activate_mqtt: false,
            },
            SimulationAssetEventType::Start => NotificationStep {
                event: Some(AssetNotificationEvent::Start),
                activate_mqtt: mqtt_enabled,
            },
            SimulationAssetEventType::Stop => NotificationStep {
                event: Some(AssetNotificationEvent::Stop),
                activate_mqtt: false,
            },
            SimulationAssetEventType::Reset => NotificationStep {
                event: Some(AssetNotificationEvent::Reset),
                activate_mqtt: false,
            },
            SimulationAssetEventType::Error => NotificationStep {
                event: Some(AssetNotificationEvent::Error),
                activate_mqtt: false,
            },
            SimulationAssetEventType::Invalid => NotificationStep {
                event: None,
                activate_mqtt: false,
            },
        }
    }

    /// The feedback that an asset's answer to a notification hands to the
    /// core, and the reply, which is always a success.
    pub fn asset_notification_feedback(&self, req: AssetNotificationReply) -> (r: (
        FeedbackAction,
        NormalReply,
    ))
        requires
            req.asset is Some,
        ensures
            r.1.ercd == ErrorCode::Success,
            ({
                let name = req.asset->0.name;
                let is_ok = req.ercd == ErrorCode::Success;
                match req.event {
                    AssetNotificationEvent::Start => r.0 == FeedbackAction::StartFeedback {
                        asset_name: name,
                        is_ok,
                    },
                    AssetNotificationEvent::Stop => r.0 == FeedbackAction::StopFeedback {
                        asset_name: name,
                        is_ok,
                    },
                    AssetNotificationEvent::Reset => r.0 == FeedbackAction::ResetFeedback {
                        asset_name: name,
                        is_ok,
                    },
                    _ => r.0 == FeedbackAction::NoFeedback,
                }
            }),
    {
        let asset_info = req.asset.unwrap();
        let result = req.ercd == ErrorCode::Success;
        let action = match req.event {
            AssetNotificationEvent::Start => FeedbackAction::StartFeedback {
                asset_name: asset_info.name,
                is_ok: result,
            },
            AssetNotificationEvent::Stop => FeedbackAction::StopFeedback {
                asset_name: asset_info.name,
                is_ok: result,
            },
            AssetNotificationEvent::Reset => FeedbackAction::ResetFeedback {
                asset_name: asset_info.name,
                is_ok: result,
            },
            _ => FeedbackAction::NoFeedback,
        };
        (action, NormalReply { ercd: ErrorCode::Success })
    }

    /// What an asset's report of its simulation time asks of the core: note
    /// the time, then note that it read and wrote its PDU data where it says
    /// so.
    pub fn simtime_notice(&self, req: NotifySimtimeRequest) -> (n: SimtimeNotice)
        requires
            req.asset is Some,
        ensures
            n.asset_name == req.asset->0.name,
            n.asset_time == req.asset_time,
            n.read_pdu_done == req.is_read_pdu_done,
            n.write_pdu_done == req.is_write_pdu_done,
    {
        let asset_info = req.asset.unwrap();
        SimtimeNotice {
            asset_name: asset_info.name,
            asset_time: req.asset_time,
            read_pdu_done: req.is_read_pdu_done,
            write_pdu_done: req.is_write_pdu_done,
        }
    }

    /// The answer to a report of simulation time, from what the core
    /// answers after it: its world time, its flags and its state.
    pub fn notify_simtime(
        &self,
        master_time: i64,
        is_pdu_created: bool,
        is_pdu_sync_mode: bool,
        is_simulation_mode: bool,
        state: SimulationStateType,
    ) -> (r: NotifySimtimeReply)
        ensures
            r.ercd == ErrorCode::Success,
            r.master_time == master_time,
            r.is_pdu_created == is_pdu_created,
            r.is_pdu_sync_mode == is_pdu_sync_mode,
            r.is_simulation_mode == is_simulation_mode,
            r.status == spec_status(state),
    {
        NotifySimtimeReply {
            ercd: ErrorCode::Success,
            master_time: master_time,
            is_pdu_created: is_pdu_created,
            is_pdu_sync_mode: is_pdu_sync_mode,
            is_simulation_mode: is_simulation_mode,
            status: get_status(state),
        }
    }

    /// Publishes the requested channel (`real_id` as the core names it, once
    /// the core created its logical channel) and answers with the port the
    /// client sends its data to: the UDP server's for UDP, the broker's
    /// otherwise; a refusal carries port -1.
    pub fn create_pdu_channel(
        &self,
        channels: &mut PduChannels,
        lchannel_created: bool,
        real_id: i32,
        req: CreatePduChannelRequest,
        udp_port: i32,
        mqtt_port: i32,
    ) -> (r: CreatePduChannelReply)
        ensures
            ({
                let created = lchannel_created && !old(channels).pub_channels@.contains_key(real_id);
                &&& created ==> r.ercd == ErrorCode::Success && r.port == (if req.method_type@
                    == "UDP"@ {
                    udp_port
                } else {
                    mqtt_port
                }) && final(channels).pub_channels@ == old(channels).pub_channels@.insert(
                    real_id,
                    AssetPubPduType {
                        asset_name: req.asset_name,
                        robo_name: req.robo_name,
                        pdu_size: req.pdu_size,
                        method_type: req.method_type,
                        channel_id: req.channel_id,
                    },
                )
                &&& !created ==> r.ercd == ErrorCode::Inval && r.port == -1
                    && final(channels).pub_channels@ == old(channels).pub_channels@
            }),
            final(channels).sub_channels@ == old(channels).sub_channels@,
    {
        let is_udp = text_is(&req.method_type, "UDP");
        let result = asset_create_pdu_channel(
            channels,
            lchannel_created,
            real_id,
            req.asset_name,
            req.robo_name,
            req.channel_id,
            req.pdu_size,
            req.method_type,
        );
        if result {
            if is_udp {
                CreatePduChannelReply { ercd: ErrorCode::Success, port: udp_port }
            } else {
                CreatePduChannelReply { ercd: ErrorCode::Success, port: mqtt_port }
            }
        } else {
            CreatePduChannelReply { ercd: ErrorCode::Inval, port: -1 }
        }
    }

    /// Subscribes the client to the requested channel (`real_id` as the core
    /// names it); refuses a channel that already has a subscriber.
    pub fn subscribe_pdu_channel(
        &self,
        channels: &mut PduChannels,
        real_id: i32,
        req: SubscribePduChannelRequest,
    ) -> (r: SubscribePduChannelReply)
        ensures
            r.ercd == outcome(!old(channels).sub_channels@.contains_key(real_id), ErrorCode::Inval),
            final(channels).pub_channels@ == old(channels).pub_channels@,
            old(channels).sub_channels@.contains_key(real_id) ==> final(channels).sub_channels@
                == old(channels).sub_channels@,
            !old(channels).sub_channels@.contains_key(real_id) ==> {
                &&& final(channels).sub_channels@.remove(real_id) == old(channels).sub_channels@
                &&& final(channels).sub_channels@.contains_key(real_id)
                &&& is_new_sub_pdu(
                    final(channels).sub_channels@[real_id],
                    req.asset_name,
                    req.robo_name,
                    req.channel_id,
                    req.pdu_size,
                    req.listen_udp_ip_port,
                    req.method_type,
                )
            },
    {
        let result = create_asset_sub_pdu(
            channels,
            real_id,
            req.asset_name,
            req.robo_name,
            req.channel_id,
            req.pdu_size,
            req.listen_udp_ip_port,
            req.method_type,
        );
        if result {
            SubscribePduChannelReply { ercd: ErrorCode::Success }
        } else {
            SubscribePduChannelReply { ercd: ErrorCode::Inval }
        }
    }
}

/// Stops the service; there is nothing to release.
pub fn stop_service() {
}

} // verus!
