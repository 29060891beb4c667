use crate::loader::{ConductorConfig, Robot, RobotConfig};
use crate::messages::{
    AssetInfo, AssetNotificationEvent, AssetNotificationReply, CreatePduChannelRequest, ErrorCode,
    NotifySimtimeReply, NotifySimtimeRequest, SimulationStatus, SubscribePduChannelRequest,
};
use crate::mqtt::{mqtt_url_text, set_mqtt_url, MqttSettings};
use crate::pdu::{
    create_asset_pub_pdu, create_asset_sub_pdu, AssetPubPduType, PduChannels,
};
use crate::text::{decimal_text, push_decimal};
use vstd::prelude::*;

verus! {

/// The state of the simulation as the conductor client sees it.
#[derive(Debug, Clone, Copy, PartialEq, Eq, Structural)]
pub enum SimulationState {
    Stopped,
    Runnable,
    Running,
    Stopping,
    Terminated,
}

/// What the conductor client last learnt from the server: its world time,
/// the event it last notified and not yet handled, its state and flags.
#[derive(Debug, Clone, Copy)]
pub struct ClientSimStatus {
    pub master_time: i64,
    pub event: AssetNotificationEvent,
    pub state: SimulationState,
    pub is_pdu_created: bool,
    pub is_simulation_mode: bool,
    pub is_pdu_sync_mode: bool,
}

impl ClientSimStatus {
    /// What the client knows before it hears from the server.
    pub fn new() -> (s: ClientSimStatus)
        ensures
            s.master_time == 0,
            s.event == AssetNotificationEvent::NoEvent,
            s.state == SimulationState::Terminated,
            !s.is_pdu_created,
            !s.is_simulation_mode,
            !s.is_pdu_sync_mode,
    {
        ClientSimStatus {
            master_time: 0,
            event: AssetNotificationEvent::NoEvent,
            state: SimulationState::Terminated,
            is_pdu_created: false,
            is_simulation_mode: false,
            is_pdu_sync_mode: false,
        }
    }
}

/// The client's reading of the status the server reports.
pub open spec fn spec_state(status: SimulationStatus) -> SimulationState {
    match status {
        SimulationStatus::StatusStopped => SimulationState::Stopped,
        SimulationStatus::StatusStopping => SimulationState::Stopping,
        SimulationStatus::StatusRunnable => SimulationState::Runnable,
        SimulationStatus::StatusRunning => SimulationState::Running,
        _ => SimulationState::Terminated,
    }
}

/// The client's reading of the status the server reports.
pub fn get_state(status: SimulationStatus) -> (state: SimulationState)
    ensures
        state == spec_state(status),
{
    match status {
        SimulationStatus::StatusStopped => SimulationState::Stopped,
        SimulationStatus::StatusStopping => SimulationState::Stopping,
        SimulationStatus::StatusRunnable => SimulationState::Runnable,
        SimulationStatus::StatusRunning => SimulationState::Running,
        _ => SimulationState::Terminated,
    }
}

/// The status once its pending event is handed out.
pub open spec fn after_take(s: ClientSimStatus) -> ClientSimStatus {
    ClientSimStatus { event: AssetNotificationEvent::NoEvent, ..s }
}

/// The status once the notification `ev` is noted.
pub open spec fn after_notification(s: ClientSimStatus, ev: AssetNotificationEvent) -> ClientSimStatus {
    if is_kept_event(ev) {
        ClientSimStatus { event: ev, ..s }
    } else {
        s
    }
}

/// Hands out the event that the server last notified and forgets it.
pub fn get_simevent(status: &mut ClientSimStatus) -> (ev: AssetNotificationEvent)
    ensures
        ev == old(status).event,
        *final(status) == after_take(*old(status)),
{
    let ret = status.event;
    status.event = AssetNotificationEvent::NoEvent;
    ret
}

/// The event is one that the client keeps until it is handled.
pub open spec fn is_kept_event(ev: AssetNotificationEvent) -> bool {
    ev == AssetNotificationEvent::Start || ev == AssetNotificationEvent::Stop || ev
        == AssetNotificationEvent::Reset || ev == AssetNotificationEvent::Error
}

/// Notes a notification from the server's stream: a start, stop, reset or
/// error is kept for `get_simevent`; a heartbeat or no event changes
/// nothing.
pub fn record_notification(status: &mut ClientSimStatus, ev: AssetNotificationEvent)
    ensures
        *final(status) == after_notification(*old(status), ev),
        ev == AssetNotificationEvent::Start ==> final(status).event == AssetNotificationEvent::Start,
        ev == AssetNotificationEvent::Stop ==> final(status).event == AssetNotificationEvent::Stop,
        ev == AssetNotificationEvent::Reset ==> final(status).event == AssetNotificationEvent::Reset,
        ev == AssetNotificationEvent::Error ==> final(status).event == AssetNotificationEvent::Error,
        ev == AssetNotificationEvent::Heartbeat || ev == AssetNotificationEvent::NoEvent
            ==> *final(status) == *old(status),
        final(status).master_time == old(status).master_time,
        final(status).state == old(status).state,
{
    match ev {
        AssetNotificationEvent::Start => {
            status.event = AssetNotificationEvent::Start;
        },
        AssetNotificationEvent::Stop => {
            status.event = AssetNotificationEvent::Stop;
        },
        AssetNotificationEvent::Reset => {
            status.event = AssetNotificationEvent::Reset;
        },
        AssetNotificationEvent::Error => {
            status.event = AssetNotificationEvent::Error;
        },
        AssetNotificationEvent::Heartbeat => {},
        AssetNotificationEvent::NoEvent => {},
    }
}

/// A start, stop, reset or error notification is handed out by the next
/// `get_simevent` and by no later one; a heartbeat or no event leaves the
/// pending event as it was; nothing else of the status changes.
pub proof fn lemma_notification_handed_out_once(s: ClientSimStatus, ev: AssetNotificationEvent)
    ensures
        is_kept_event(ev) ==> after_notification(s, ev).event == ev,
        !is_kept_event(ev) ==> after_notification(s, ev).event == s.event,
        after_take(after_notification(s, ev)).event == AssetNotificationEvent::NoEvent,
        after_take(after_take(s)) == after_take(s),
        after_take(after_notification(s, ev)).master_time == s.master_time,
        after_take(after_notification(s, ev)).state == s.state,
{
}

/// The client reads the state that the server reports from the core as the
/// same state where it knows it (stopped, runnable, running, stopping) and
/// as terminated otherwise.
pub proof fn lemma_client_reads_server_state(state: crate::api::SimulationStateType)
    ensures
        spec_state(crate::server::spec_status(state)) == (match state {
            crate::api::SimulationStateType::Stopped => SimulationState::Stopped,
            crate::api::SimulationStateType::Runnable => SimulationState::Runnable,
            crate::api::SimulationStateType::Running => SimulationState::Running,
            crate::api::SimulationStateType::Stopping => SimulationState::Stopping,
            _ => SimulationState::Terminated,
        }),
{
}

/// Each start, stop, reset or error notification becomes the pending event
/// whatever was pending before, the next hand-out gives it and leaves no
/// event pending; a heartbeat or no event changes nothing.
pub proof fn lemma_recorded_events(s: ClientSimStatus)
    ensures
        after_notification(s, AssetNotificationEvent::Start).event == AssetNotificationEvent::Start,
        after_notification(s, AssetNotificationEvent::Stop).event == AssetNotificationEvent::Stop,
        after_notification(s, AssetNotificationEvent::Reset).event == AssetNotificationEvent::Reset,
        after_notification(s, AssetNotificationEvent::Error).event == AssetNotificationEvent::Error,
        after_notification(s, AssetNotificationEvent::Heartbeat) == s,
        after_notification(s, AssetNotificationEvent::NoEvent) == s,
        after_take(after_notification(s, AssetNotificationEvent::Stop)).event
            == AssetNotificationEvent::NoEvent,
        after_notification(s, AssetNotificationEvent::Stop).master_time == s.master_time,
        after_notification(s, AssetNotificationEvent::Stop).state == s.state,
{
}

/// Why a step of the client failed.
#[derive(Debug, Clone, Copy, PartialEq, Eq, Structural)]
pub enum ClientError {
    RegisterRejected,
    FeedbackRejected,
    SimtimeRejected,
    LchannelNotCreated,
    SubscribeRejected,
    CreateRejected,
    PubChannelExists,
    SubChannelExists,
}

impl ClientError {
    /// The error's message.
    pub fn message(&self) -> (m: String)
        ensures
            m@ == spec_message(*self),
    {
        match self {
            ClientError::RegisterRejected => String::from_str("Can not register asset"),
            ClientError::FeedbackRejected => String::from_str("notification feedback response error"),
            ClientError::SimtimeRejected => String::from_str("notify simtime response error"),
            ClientError::LchannelNotCreated => String::from_str("asset_create_pdu_lchannel error"),
            ClientError::SubscribeRejected => String::from_str("Can not SubscribePduChannel"),
            ClientError::CreateRejected => String::from_str("Can not CreatePduChannel"),
            ClientError::PubChannelExists => String::from_str("Can not create_asset_sub_pdu"),
            ClientError::SubChannelExists => String::from_str("Can not create_asset_sub_pdu"),
        }
    }
}

/// The message of each client error.
pub open spec fn spec_message(e: ClientError) -> Seq<char> {
    match e {
        ClientError::RegisterRejected => "Can not register asset"@,
        ClientError::FeedbackRejected => "notification feedback response error"@,
        ClientError::SimtimeRejected => "notify simtime response error"@,
        ClientError::LchannelNotCreated => "asset_create_pdu_lchannel error"@,
        ClientError::SubscribeRejected => "Can not SubscribePduChannel"@,
        ClientError::CreateRejected => "Can not CreatePduChannel"@,
        ClientError::PubChannelExists => "Can not create_asset_sub_pdu"@,
        ClientError::SubChannelExists => "Can not create_asset_sub_pdu"@,
    }
}

/// Accepts a reply whose code is a success; otherwise fails with `refusal`.
pub fn check_reply(ercd: ErrorCode, refusal: ClientError) -> (r: Result<(), ClientError>)
    ensures
        r == (if ercd == ErrorCode::Success {
            Ok::<(), ClientError>(())
        } else {
            Err(refusal)
        }),
{
    if ercd != ErrorCode::Success {
        return Err(refusal);
    }
    Ok(())
}

/// Takes in the server's answer to a report of simulation time: on a
/// success, its world time, flags and state replace what the client knew
/// (the pending event stays) and the new status is handed back.
pub fn apply_simtime_reply(status: &mut ClientSimStatus, reply: &NotifySimtimeReply) -> (r: Result<
    ClientSimStatus,
    ClientError,
>)
    ensures
        reply.ercd != ErrorCode::Success ==> r == Err::<ClientSimStatus, ClientError>(
            ClientError::SimtimeRejected,
        ) && *final(status) == *old(status),
        reply.ercd == ErrorCode::Success ==> r == Ok::<ClientSimStatus, ClientError>(*final(status))
            && *final(status) == (ClientSimStatus {
            master_time: reply.master_time,
            event: old(status).event,
            state: spec_state(reply.status),
            is_pdu_created: reply.is_pdu_created,
            is_simulation_mode: reply.is_simulation_mode,
            is_pdu_sync_mode: reply.is_pdu_sync_mode,
        }),
{
    if reply.ercd != ErrorCode::Success {
        return Err(ClientError::SimtimeRejected);
    }
    status.master_time = reply.master_time;
    status.is_pdu_created = reply.is_pdu_created;
    status.is_pdu_sync_mode = reply.is_pdu_sync_mode;
    status.is_simulation_mode = reply.is_simulation_mode;
    status.state = get_state(reply.status);
    Ok(*status)
}

/// The client's answer to the notification `ev`: a success, or invalid
/// where handling it failed.
pub fn feedback_request(asset_name: &String, ev: AssetNotificationEvent, result: bool) -> (r:
    AssetNotificationReply)
    ensures
        r.event == ev,
        r.asset == Some(AssetInfo { name: *asset_name }),
        r.ercd == (if result {
            ErrorCode::Success
        } else {
            ErrorCode::Inval
        }),
{
    let mut ercd = ErrorCode::Success;
    if result == false {
        ercd = ErrorCode::Inval;
    }
    AssetNotificationReply {
        event: ev,
        asset: Some(AssetInfo { name: asset_name.clone() }),
        ercd: ercd,
    }
}

/// A report of simulation time: the asset's time and whether it has read
/// and written its PDU data.
pub fn asset_notify_simtime_request(
    asset_name: &String,
    asset_time: i64,
    is_read_pdu_done: bool,
    is_write_pdu_done: bool,
) -> (r: NotifySimtimeRequest)
    ensures
        r.asset == Some(AssetInfo { name: *asset_name }),
        r.asset_time == asset_time,
        r.is_read_pdu_done == is_read_pdu_done,
        r.is_write_pdu_done == is_write_pdu_done,
{
    NotifySimtimeRequest {
        asset: Some(AssetInfo { name: asset_name.clone() }),
        asset_time: asset_time,
        is_read_pdu_done: is_read_pdu_done,
        is_write_pdu_done: is_write_pdu_done,
    }
}

/// The report of simulation time that the client sends each cycle: its
/// asset time, and in simulation mode that it has read and written its
/// PDU data.
pub fn simtime_request(asset_name: &String, asset_time: i64, is_sim_mode: bool) -> (r:
    NotifySimtimeRequest)
    ensures
        r.asset == Some(AssetInfo { name: *asset_name }),
        r.asset_time == asset_time,
        r.is_read_pdu_done == is_sim_mode,
        r.is_write_pdu_done == is_sim_mode,
{
    asset_notify_simtime_request(asset_name, asset_time, is_sim_mode, is_sim_mode)
}

/// What the client does in a cycle, once it knows the server's status.
#[derive(Debug, Clone, Copy, PartialEq, Eq, Structural)]
pub enum ExecuteStep {
    /// Not running, or the server's channels are not ready: send nothing.
    Wait,
    /// Send the PDU data without advancing the simulation.
    SendPdu,
    /// Align the asset's time with the server's world time, advance the
    /// simulation and send the PDU data if it advanced.
    Advance { master_time: i64 },
}

/// The step of a cycle for the server's status `status`.
pub open spec fn spec_execute_step(status: ClientSimStatus) -> ExecuteStep {
    if status.state != SimulationState::Running {
        ExecuteStep::Wait
    } else if !status.is_pdu_created {
        ExecuteStep::Wait
    } else if status.is_pdu_sync_mode {
        ExecuteStep::SendPdu
    } else if !status.is_simulation_mode {
        ExecuteStep::SendPdu
    } else {
        ExecuteStep::Advance { master_time: status.master_time }
    }
}

/// Decides the step of a cycle from the server's status.
pub fn execute_step(status: &ClientSimStatus) -> (step: ExecuteStep)
    ensures
        step == spec_execute_step(*status),
        status.state != SimulationState::Running ==> step == ExecuteStep::Wait,
        status.state == SimulationState::Running && !status.is_pdu_created ==> step
            == ExecuteStep::Wait,
        status.state == SimulationState::Running && status.is_pdu_created
            && status.is_pdu_sync_mode ==> step == ExecuteStep::SendPdu,
        status.state == SimulationState::Running && status.is_pdu_created
            && !status.is_pdu_sync_mode && !status.is_simulation_mode ==> step
            == ExecuteStep::SendPdu,
        status.state == SimulationState::Running && status.is_pdu_created
            && !status.is_pdu_sync_mode && status.is_simulation_mode ==> step
            == (ExecuteStep::Advance { master_time: status.master_time }),
{
    if status.state != SimulationState::Running {
        return ExecuteStep::Wait;
    } else if status.is_pdu_created == false {
        return ExecuteStep::Wait;
    } else if status.is_pdu_sync_mode {
        return ExecuteStep::SendPdu;
    } else if status.is_simulation_mode == false {
        return ExecuteStep::SendPdu;
    }
    ExecuteStep::Advance { master_time: status.master_time }
}

/// The cycle's step from the server's status: nothing happens unless the
/// simulation runs and the server's PDU channels exist; in PDU sync mode, or
/// outside simulation mode, the client only sends its PDU data, whatever the
/// other flag says; only in simulation mode out of sync mode does it advance,
/// to the server's world time.
pub proof fn lemma_execute_step_cases(s: ClientSimStatus)
    ensures
        s.state != SimulationState::Running ==> spec_execute_step(s) == ExecuteStep::Wait,
        !s.is_pdu_created ==> spec_execute_step(s) == ExecuteStep::Wait,
        s.state == SimulationState::Running && s.is_pdu_created && s.is_pdu_sync_mode
            ==> spec_execute_step(s) == ExecuteStep::SendPdu,
        s.state == SimulationState::Running && s.is_pdu_created && !s.is_simulation_mode
            ==> spec_execute_step(s) == ExecuteStep::SendPdu,
        spec_execute_step(s) matches ExecuteStep::Advance { master_time } ==> {
            &&& master_time == s.master_time
            &&& s.state == SimulationState::Running
            &&& s.is_pdu_created
            &&& !s.is_pdu_sync_mode
            &&& s.is_simulation_mode
        },
        s.state == SimulationState::Running && s.is_pdu_created && !s.is_pdu_sync_mode
            && s.is_simulation_mode ==> spec_execute_step(s) == (ExecuteStep::Advance {
            master_time: s.master_time,
        }),
{
}

/// Sets the MQTT broker to the server's address at the configured port when
/// that port is positive; says whether it is.
pub fn configure_mqtt(settings: &mut MqttSettings, config: &ConductorConfig) -> (use_mqtt: bool)
    ensures
        use_mqtt == (config.mqtt_portno > 0),
        use_mqtt && old(settings)@ is None ==> final(settings)@ == Some(
            (mqtt_url_text(config.core_ipaddr@, config.mqtt_portno), config.mqtt_portno),
        ),
        !use_mqtt || old(settings)@ is Some ==> final(settings)@ == old(settings)@,
{
    if config.mqtt_portno > 0 {
        set_mqtt_url(settings, config.core_ipaddr.clone(), config.mqtt_portno);
        return true;
    }
    false
}

/// A duration in microseconds, from milliseconds; `None` where it does not
/// fit an `i64`.
pub fn msec_to_usec(msec: i64) -> (usec: Option<i64>)
    ensures
        usec == (if i64::MIN <= msec * 1000 <= i64::MAX {
            Some((msec * 1000) as i64)
        } else {
            None::<i64>
        }),
{
    msec.checked_mul(1000)
}

/// A PDU channel of the robot configuration that the client sets up.
pub struct ChannelPlan {
    pub robo_name: String,
    pub channel_id: i32,
    pub pdu_size: i32,
    pub method_type: String,
}

/// The channels that the robots read, robot by robot, each robot's in
/// their order: robot name, channel id, PDU size and method.
pub open spec fn reader_plans(robots: Seq<Robot>) -> Seq<(String, u32, u32, String)>
    decreases robots.len(),
{
    if robots.len() == 0 {
        Seq::empty()
    } else {
        let last = robots.last();
        reader_plans(robots.drop_last()) + last.rpc_pdu_readers@.map_values(
            |r: crate::loader::RpcPduReader| (last.name, r.channel_id, r.pdu_size, r.method_type),
        )
    }
}

/// The channels that the robots write, robot by robot, each robot's in
/// their order.
pub open spec fn writer_plans(robots: Seq<Robot>) -> Seq<(String, u32, u32, String)>
    decreases robots.len(),
{
    if robots.len() == 0 {
        Seq::empty()
    } else {
        let last = robots.last();
        writer_plans(robots.drop_last()) + last.rpc_pdu_writers@.map_values(
            |w: crate::loader::RpcPduWriter| (last.name, w.channel_id, w.pdu_size, w.method_type),
        )
    }
}

/// The robot and the reader of that robot that the planned reader channel at `i`
/// comes from.
pub open spec fn reader_origin(robots: Seq<Robot>, i: int) -> (int, int) {
    choose|rj: (int, int)|
        0 <= rj.0 < robots.len() && 0 <= rj.1 < robots[rj.0].rpc_pdu_readers@.len() && #[trigger] reader_plans(robots)[i]
            == (
            robots[rj.0].name,
            robots[rj.0].rpc_pdu_readers@[rj.1].channel_id,
            robots[rj.0].rpc_pdu_readers@[rj.1].pdu_size,
            robots[rj.0].rpc_pdu_readers@[rj.1].method_type,
        )
}

/// The plan at `i` sets up the reader that it comes from: that reader's channel
/// id, PDU size and method, under the name of the robot that owns it.
pub open spec fn is_reader_plan(plans: Seq<ChannelPlan>, robots: Seq<Robot>, i: int) -> bool {
    let (r, j) = reader_origin(robots, i);
    let w = robots[r].rpc_pdu_readers@[j];
    &&& 0 <= r < robots.len()
    &&& 0 <= j < robots[r].rpc_pdu_readers@.len()
    &&& plans[i].robo_name == robots[r].name
    &&& plans[i].channel_id == w.channel_id as i32
    &&& plans[i].pdu_size == w.pdu_size as i32
    &&& plans[i].method_type == w.method_type
}

/// The planned reader channel at `i` is reader `j` of some robot `r`, under
/// that robot's name.
pub proof fn lemma_reader_plan_at(robots: Seq<Robot>, i: int) -> (rj: (int, int))
    requires
        0 <= i < reader_plans(robots).len(),
    ensures
        0 <= rj.0 < robots.len(),
        0 <= rj.1 < robots[rj.0].rpc_pdu_readers@.len(),
        reader_plans(robots)[i] == (
            robots[rj.0].name,
            robots[rj.0].rpc_pdu_readers@[rj.1].channel_id,
            robots[rj.0].rpc_pdu_readers@[rj.1].pdu_size,
            robots[rj.0].rpc_pdu_readers@[rj.1].method_type,
        ),
    decreases robots.len(),
{
    let pre = robots.drop_last();
    let prefix = reader_plans(pre);
    if i < prefix.len() {
        let rj = lemma_reader_plan_at(pre, i);
        assert(pre[rj.0] == robots[rj.0]);
        rj
    } else {
        let n = robots.len() - 1;
        assert(robots.last() == robots[n]);
        (n, i - prefix.len())
    }
}

/// reader `j` of robot `r` is planned, under that robot's name.
pub proof fn lemma_reader_planned(robots: Seq<Robot>, r: int, j: int) -> (i: int)
    requires
        0 <= r < robots.len(),
        0 <= j < robots[r].rpc_pdu_readers@.len(),
    ensures
        0 <= i < reader_plans(robots).len(),
        reader_plans(robots)[i] == (
            robots[r].name,
            robots[r].rpc_pdu_readers@[j].channel_id,
            robots[r].rpc_pdu_readers@[j].pdu_size,
            robots[r].rpc_pdu_readers@[j].method_type,
        ),
    decreases robots.len(),
{
    let pre = robots.drop_last();
    let prefix = reader_plans(pre);
    let n = robots.len() - 1;
    if r < n {
        assert(pre[r] == robots[r]);
        lemma_reader_planned(pre, r, j)
    } else {
        assert(robots.last() == robots[n]);
        prefix.len() + j
    }
}


/// The robot and the writer of that robot that the planned writer channel at `i`
/// comes from.
pub open spec fn writer_origin(robots: Seq<Robot>, i: int) -> (int, int) {
    choose|rj: (int, int)|
        0 <= rj.0 < robots.len() && 0 <= rj.1 < robots[rj.0].rpc_pdu_writers@.len() && #[trigger] writer_plans(robots)[i]
            == (
            robots[rj.0].name,
            robots[rj.0].rpc_pdu_writers@[rj.1].channel_id,
            robots[rj.0].rpc_pdu_writers@[rj.1].pdu_size,
            robots[rj.0].rpc_pdu_writers@[rj.1].method_type,
        )
}

/// The plan at `i` sets up the writer that it comes from: that writer's channel
/// id, PDU size and method, under the name of the robot that owns it.
pub open spec fn is_writer_plan(plans: Seq<ChannelPlan>, robots: Seq<Robot>, i: int) -> bool {
    let (r, j) = writer_origin(robots, i);
    let w = robots[r].rpc_pdu_writers@[j];
    &&& 0 <= r < robots.len()
    &&& 0 <= j < robots[r].rpc_pdu_writers@.len()
    &&& plans[i].robo_name == robots[r].name
    &&& plans[i].channel_id == w.channel_id as i32
    &&& plans[i].pdu_size == w.pdu_size as i32
    &&& plans[i].method_type == w.method_type
}

/// The planned writer channel at `i` is writer `j` of some robot `r`, under
/// that robot's name.
pub proof fn lemma_writer_plan_at(robots: Seq<Robot>, i: int) -> (rj: (int, int))
    requires
        0 <= i < writer_plans(robots).len(),
    ensures
        0 <= rj.0 < robots.len(),
        0 <= rj.1 < robots[rj.0].rpc_pdu_writers@.len(),
        writer_plans(robots)[i] == (
            robots[rj.0].name,
            robots[rj.0].rpc_pdu_writers@[rj.1].channel_id,
            robots[rj.0].rpc_pdu_writers@[rj.1].pdu_size,
            robots[rj.0].rpc_pdu_writers@[rj.1].method_type,
        ),
    decreases robots.len(),
{
    let pre = robots.drop_last();
    let prefix = writer_plans(pre);
    if i < prefix.len() {
        let rj = lemma_writer_plan_at(pre, i);
        assert(pre[rj.0] == robots[rj.0]);
        rj
    } else {
        let n = robots.len() - 1;
        assert(robots.last() == robots[n]);
        (n, i - prefix.len())
    }
}

/// writer `j` of robot `r` is planned, under that robot's name.
pub proof fn lemma_writer_planned(robots: Seq<Robot>, r: int, j: int) -> (i: int)
    requires
        0 <= r < robots.len(),
        0 <= j < robots[r].rpc_pdu_writers@.len(),
    ensures
        0 <= i < writer_plans(robots).len(),
        writer_plans(robots)[i] == (
            robots[r].name,
            robots[r].rpc_pdu_writers@[j].channel_id,
            robots[r].rpc_pdu_writers@[j].pdu_size,
            robots[r].rpc_pdu_writers@[j].method_type,
        ),
    decreases robots.len(),
{
    let pre = robots.drop_last();
    let prefix = writer_plans(pre);
    let n = robots.len() - 1;
    if r < n {
        assert(pre[r] == robots[r]);
        lemma_writer_planned(pre, r, j)
    } else {
        assert(robots.last() == robots[n]);
        prefix.len() + j
    }
}


/// `plans` sets up the channels `entries`, ids and sizes taken as `i32`.
pub open spec fn plans_match(plans: Seq<ChannelPlan>, entries: Seq<(String, u32, u32, String)>) -> bool {
    &&& plans.len() == entries.len()
    &&& forall|i: int|
        0 <= i < plans.len() ==> {
            let p = #[trigger] plans[i];
            &&& p.robo_name == entries[i].0
            &&& p.channel_id == entries[i].1 as i32
            &&& p.pdu_size == entries[i].2 as i32
            &&& p.method_type == entries[i].3
        }
}

/// The channels that the client subscribes to: those the robots read.
pub fn reader_channels(robot_config: &RobotConfig) -> (plans: Vec<ChannelPlan>)
    ensures
        plans_match(plans@, reader_plans(robot_config.robots@)),
        forall|i: int|
            0 <= i < plans@.len() ==> #[trigger] is_reader_plan(plans@, robot_config.robots@, i),
{
    let robots = &robot_config.robots;
    let mut plans: Vec<ChannelPlan> = Vec::new();
    let mut i: usize = 0;
    while i < robots.len()
        invariant
            i <= robots@.len(),
            plans_match(plans@, reader_plans(robots@.take(i as int))),
        decreases robots@.len() - i,
    {
        let robot = &robots[i];
        let ghost before = plans@;
        let ghost done = reader_plans(robots@.take(i as int));
        let ghost entries = robot.rpc_pdu_readers@.map_values(
            |r: crate::loader::RpcPduReader| (robot.name, r.channel_id, r.pdu_size, r.method_type),
        );
        let mut j: usize = 0;
        while j < robot.rpc_pdu_readers.len()
            invariant
                j <= robot.rpc_pdu_readers@.len(),
                plans_match(before, done),
                entries.len() == robot.rpc_pdu_readers@.len(),
                entries == robot.rpc_pdu_readers@.map_values(
                    |r: crate::loader::RpcPduReader| (robot.name, r.channel_id, r.pdu_size, r.method_type),
                ),
                plans_match(plans@, done + entries.take(j as int)),
            decreases robot.rpc_pdu_readers@.len() - j,
        {
            let reader = &robot.rpc_pdu_readers[j];
            plans.push(ChannelPlan {
                robo_name: robot.name.clone(),
                channel_id: reader.channel_id as i32,
                pdu_size: reader.pdu_size as i32,
                method_type: reader.method_type.clone(),
            });
            proof {
                assert(done + entries.take(j + 1) =~= (done + entries.take(j as int)).push(entries[j as int]));
            }
            j = j + 1;
        }
        proof {
            assert(robots@.take(i + 1).drop_last() =~= robots@.take(i as int));
            assert(entries.take(j as int) =~= entries);
            assert(reader_plans(robots@.take(i + 1)) == done + entries);
        }
        i = i + 1;
    }
    proof {
        assert(robots@.take(i as int) =~= robots@);
        assert forall|k: int|
            0 <= k < plans@.len() implies #[trigger] is_reader_plan(plans@, robot_config.robots@, k) by {
            lemma_reader_plan_at(robots@, k);
        }
    }
    plans
}

/// The channels that the client publishes: those the robots write.
pub fn writer_channels(robot_config: &RobotConfig) -> (plans: Vec<ChannelPlan>)
    ensures
        plans_match(plans@, writer_plans(robot_config.robots@)),
        forall|i: int|
            0 <= i < plans@.len() ==> #[trigger] is_writer_plan(plans@, robot_config.robots@, i),
{
    let robots = &robot_config.robots;
    let mut plans: Vec<ChannelPlan> = Vec::new();
    let mut i: usize = 0;
    while i < robots.len()
        invariant
            i <= robots@.len(),
            plans_match(plans@, writer_plans(robots@.take(i as int))),
        decreases robots@.len() - i,
    {
        let robot = &robots[i];
        let ghost before = plans@;
        let ghost done = writer_plans(robots@.take(i as int));
        let ghost entries = robot.rpc_pdu_writers@.map_values(
            |w: crate::loader::RpcPduWriter| (robot.name, w.channel_id, w.pdu_size, w.method_type),
        );
        let mut j: usize = 0;
        while j < robot.rpc_pdu_writers.len()
            invariant
                j <= robot.rpc_pdu_writers@.len(),
                plans_match(before, done),
                entries.len() == robot.rpc_pdu_writers@.len(),
                entries == robot.rpc_pdu_writers@.map_values(
                    |w: crate::loader::RpcPduWriter| (robot.name, w.channel_id, w.pdu_size, w.method_type),
                ),
                plans_match(plans@, done + entries.take(j as int)),
            decreases robot.rpc_pdu_writers@.len() - j,
        {
            let writer = &robot.rpc_pdu_writers[j];
            plans.push(ChannelPlan {
                robo_name: robot.name.clone(),
                channel_id: writer.channel_id as i32,
                pdu_size: writer.pdu_size as i32,
                method_type: writer.method_type.clone(),
            });
            proof {
                assert(done + entries.take(j + 1) =~= (done + entries.take(j as int)).push(entries[j as int]));
            }
            j = j + 1;
        }
        proof {
            assert(robots@.take(i + 1).drop_last() =~= robots@.take(i as int));
            assert(entries.take(j as int) =~= entries);
            assert(writer_plans(robots@.take(i + 1)) == done + entries);
        }
        i = i + 1;
    }
    proof {
        assert(robots@.take(i as int) =~= robots@);
        assert forall|k: int|
            0 <= k < plans@.len() implies #[trigger] is_writer_plan(plans@, robot_config.robots@, k) by {
            lemma_writer_plan_at(robots@, k);
        }
    }
    plans
}

/// The subscription that the client asks of the server for a channel that
/// a robot reads; the data is to come to the client's UDP server.
pub fn subscribe_request(conductor: &ConductorConfig, plan: &ChannelPlan) -> (r:
    SubscribePduChannelRequest)
    ensures
        r.asset_name == conductor.asset_name,
        r.channel_id == plan.channel_id,
        r.pdu_size == plan.pdu_size,
        r.listen_udp_ip_port == conductor.udp_server_ip_port,
        r.method_type == plan.method_type,
        r.robo_name == plan.robo_name,
{
    SubscribePduChannelRequest {
        asset_name: conductor.asset_name.clone(),
        channel_id: plan.channel_id,
        pdu_size: plan.pdu_size,
        listen_udp_ip_port: conductor.udp_server_ip_port.clone(),
        method_type: plan.method_type.clone(),
        robo_name: plan.robo_name.clone(),
    }
}

/// The channel that the client asks the server to create for a channel
/// that a robot writes.
pub fn create_request(conductor: &ConductorConfig, plan: &ChannelPlan) -> (r: CreatePduChannelRequest)
    ensures
        r.asset_name == conductor.asset_name,
        r.channel_id == plan.channel_id,
        r.pdu_size == plan.pdu_size,
        r.method_type == plan.method_type,
        r.robo_name == plan.robo_name,
{
    CreatePduChannelRequest {
        asset_name: conductor.asset_name.clone(),
        channel_id: plan.channel_id,
        pdu_size: plan.pdu_size,
        method_type: plan.method_type.clone(),
        robo_name: plan.robo_name.clone(),
    }
}

/// Once the server accepted the subscription, publishes the read channel
/// locally under the core's id `real_id`; fails where it is published
/// already.
pub fn register_reader_channel(
    channels: &mut PduChannels,
    real_id: i32,
    conductor: &ConductorConfig,
    plan: &ChannelPlan,
) -> (r: Result<(), ClientError>)
    ensures
        old(channels).pub_channels@.contains_key(real_id) ==> r == Err::<(), ClientError>(
            ClientError::PubChannelExists,
        ) && final(channels).pub_channels@ == old(channels).pub_channels@,
        !old(channels).pub_channels@.contains_key(real_id) ==> r is Ok
            && final(channels).pub_channels@ == old(channels).pub_channels@.insert(
            real_id,
            AssetPubPduType {
                asset_name: conductor.asset_name,
                robo_name: plan.robo_name,
                pdu_size: plan.pdu_size,
                method_type: plan.method_type,
                channel_id: plan.channel_id,
            },
        ),
        final(channels).sub_channels@ == old(channels).sub_channels@,
{
    let created = create_asset_pub_pdu(
        channels,
        real_id,
        conductor.asset_name.clone(),
        plan.robo_name.clone(),
        plan.channel_id,
        plan.pdu_size,
        plan.method_type.clone(),
    );
    if !created {
        return Err(ClientError::PubChannelExists);
    }
    Ok(())
}

/// Once the server created the written channel and named the port its data
/// goes to, subscribes that port of the server (at `core_ipaddr`) locally
/// under the core's id `real_id`; fails where the channel has a subscriber
/// already.
pub fn register_writer_channel(
    channels: &mut PduChannels,
    real_id: i32,
    conductor: &ConductorConfig,
    plan: &ChannelPlan,
    port: i32,
) -> (r: Result<(), ClientError>)
    ensures
        old(channels).sub_channels@.contains_key(real_id) ==> r == Err::<(), ClientError>(
            ClientError::SubChannelExists,
        ) && final(channels).sub_channels@ == old(channels).sub_channels@,
        !old(channels).sub_channels@.contains_key(real_id) ==> {
            &&& r is Ok
            &&& final(channels).sub_channels@.remove(real_id) == old(channels).sub_channels@
            &&& final(channels).sub_channels@.contains_key(real_id)
            &&& final(channels).sub_channels@[real_id].options.udp_ip_port@ == conductor.core_ipaddr@ + ":"@
                + decimal_text(port as int)
            &&& final(channels).sub_channels@[real_id].asset_name == conductor.asset_name
            &&& final(channels).sub_channels@[real_id].robo_name == plan.robo_name
            &&& final(channels).sub_channels@[real_id].channel_id == plan.channel_id
            &&& final(channels).sub_channels@[real_id].pdu_size == plan.pdu_size
            &&& final(channels).sub_channels@[real_id].method_type == plan.method_type
            &&& forall|i: int|
                0 <= i < crate::pdu::ASSET_PACKET_MAX_SIZE ==> #[trigger] final(channels).sub_channels@[real_id].buffer@[i]
                    == 0u8
        },
        final(channels).pub_channels@ == old(channels).pub_channels@,
{
    let mut destination = String::new();
    destination.append(conductor.core_ipaddr.as_str());
    destination.append(":");
    push_decimal(&mut destination, port);
    let created = create_asset_sub_pdu(
        channels,
        real_id,
        conductor.asset_name.clone(),
        plan.robo_name.clone(),
        plan.channel_id,
        plan.pdu_size,
        destination,
        plan.method_type.clone(),
    );
    if !created {
        return Err(ClientError::SubChannelExists);
    }
    Ok(())
}

/// The stages of the client's start-up, in order, and where it ends up.
#[derive(Debug, Clone, Copy, PartialEq, Eq, Structural)]
pub enum StartupStage {
    /// Configure the core's master with the cycle and the allowed delay.
    InitMaster,
    /// Connect to the conductor server.
    ConnectServer,
    /// Start the core's asset side and register the asset with the core.
    RegisterWithCore,
    /// Register the asset with the server.
    RegisterWithServer,
    /// Read the robot configuration.
    LoadRobotConfig,
    /// Subscribe to the channels the robots read.
    InitializeReaders,
    /// Create the channels the robots write.
    InitializeWriters,
    /// Follow the server's notifications.
    StartEventMonitor,
    /// Open the UDP sender and receiver.
    OpenUdp,
    /// Connect the MQTT publisher (only with a positive MQTT port).
    StartMqtt,
    /// Run the cycles.
    Running,
    /// A stage failed: the client exits with status 1.
    Failed,
}

/// The stage after `stage` when it succeeded (`ok`) or failed: the next one
/// in order, MQTT only with a positive port; any failure before the cycles
/// ends the start-up; the cycles and a failure stay where they are.
pub open spec fn spec_next_stage(stage: StartupStage, ok: bool, mqtt_portno: i32) -> StartupStage {
    match stage {
        StartupStage::Running => StartupStage::Running,
        StartupStage::Failed => StartupStage::Failed,
        _ => if !ok {
            StartupStage::Failed
        } else {
            match stage {
                StartupStage::InitMaster => StartupStage::ConnectServer,
                StartupStage::ConnectServer => StartupStage::RegisterWithCore,
                StartupStage::RegisterWithCore => StartupStage::RegisterWithServer,
                StartupStage::RegisterWithServer => StartupStage::LoadRobotConfig,
                StartupStage::LoadRobotConfig => StartupStage::InitializeReaders,
                StartupStage::InitializeReaders => StartupStage::InitializeWriters,
                StartupStage::InitializeWriters => StartupStage::StartEventMonitor,
                StartupStage::StartEventMonitor => StartupStage::OpenUdp,
                StartupStage::OpenUdp => if mqtt_portno > 0 {
                    StartupStage::StartMqtt
                } else {
                    StartupStage::Running
                },
                _ => StartupStage::Running,
            }
        },
    }
}

/// The stage that follows `stage` once it succeeded (`ok`) or failed.
pub fn next_stage(stage: StartupStage, ok: bool, config: &ConductorConfig) -> (next: StartupStage)
    ensures
        next == spec_next_stage(stage, ok, config.mqtt_portno),
{
    match stage {
        StartupStage::Running => StartupStage::Running,
        StartupStage::Failed => StartupStage::Failed,
        _ => {
            if !ok {
                return StartupStage::Failed;
            }
            match stage {
                StartupStage::InitMaster => StartupStage::ConnectServer,
                StartupStage::ConnectServer => StartupStage::RegisterWithCore,
                StartupStage::RegisterWithCore => StartupStage::RegisterWithServer,
                StartupStage::RegisterWithServer => StartupStage::LoadRobotConfig,
                StartupStage::LoadRobotConfig => StartupStage::InitializeReaders,
                StartupStage::InitializeReaders => StartupStage::InitializeWriters,
                StartupStage::InitializeWriters => StartupStage::StartEventMonitor,
                StartupStage::StartEventMonitor => StartupStage::OpenUdp,
                StartupStage::OpenUdp => if config.mqtt_portno > 0 {
                    StartupStage::StartMqtt
                } else {
                    StartupStage::Running
                },
                _ => StartupStage::Running,
            }
        },
    }
}

/// The start-up reaches the cycles only through every stage in order, each
/// succeeding: from the first stage, nine successes (ten with MQTT) run
/// the cycles, and a failure at any stage before them ends the start-up
/// for good.
pub proof fn lemma_startup_order(mqtt_portno: i32)
    ensures
        ({
            let s1 = spec_next_stage(StartupStage::InitMaster, true, mqtt_portno);
            let s2 = spec_next_stage(s1, true, mqtt_portno);
            let s3 = spec_next_stage(s2, true, mqtt_portno);
            let s4 = spec_next_stage(s3, true, mqtt_portno);
            let s5 = spec_next_stage(s4, true, mqtt_portno);
            let s6 = spec_next_stage(s5, true, mqtt_portno);
            let s7 = spec_next_stage(s6, true, mqtt_portno);
            let s8 = spec_next_stage(s7, true, mqtt_portno);
            let s9 = spec_next_stage(s8, true, mqtt_portno);
            &&& s8 == StartupStage::OpenUdp
            &&& mqtt_portno > 0 ==> s9 == StartupStage::StartMqtt && spec_next_stage(
                s9,
                true,
                mqtt_portno,
            ) == StartupStage::Running
            &&& mqtt_portno <= 0 ==> s9 == StartupStage::Running
        }),
        forall|stage: StartupStage|
            stage != StartupStage::Running ==> #[trigger] spec_next_stage(stage, false, mqtt_portno)
                == StartupStage::Failed,
        forall|ok: bool| #[trigger] spec_next_stage(StartupStage::Failed, ok, mqtt_portno) == StartupStage::Failed,
{
}

/// What a cycle sends once the server's answer is in: the UDP data after a
/// cycle that asks for it, the MQTT data too where MQTT is enabled and a
/// publisher is connected; nothing after a cycle that does not ask for it
/// or that failed.
pub struct CycleSends {
    pub udp: bool,
    pub mqtt: bool,
}

/// What to send after a cycle whose outcome is `outcome` (`None` for a
/// failed cycle).
pub fn cycle_sends(outcome: Option<bool>, mqtt_enabled: bool, has_publisher: bool) -> (sends: CycleSends)
    ensures
        sends.udp == (outcome == Some(true)),
        sends.mqtt == (outcome == Some(true) && mqtt_enabled && has_publisher),
{
    match outcome {
        Some(true) => CycleSends { udp: true, mqtt: mqtt_enabled && has_publisher },
        _ => CycleSends { udp: false, mqtt: false },
    }
}

} // verus!
