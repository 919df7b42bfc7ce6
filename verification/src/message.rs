//! The message model: a closed tagged union over the message kinds the
//! display formatter special-cases, with a catch-all variant carrying only
//! its derived type name, plus the fixed outgoing requests this tool sends.
//!
//! Fields that the wire protocol carries as floating-point readings are
//! held here in the integer units the formatter needs (centidegrees for
//! attitude angles); the transport layer converts at the boundary.
use vstd::prelude::*;
use vstd::string::StrSliceExecFns;
use vstd::string::StringExecFns;

verus! {

/// A heartbeat's status fields, as the symbolic names of the sender's
/// vehicle type, autopilot and system state.
pub struct HeartbeatStatus {
    pub mavtype: String,
    pub autopilot: String,
    pub system_status: String,
}

/// Attitude angles in centidegrees (hundredths of a degree).
pub struct AttitudeAngles {
    pub roll_cdeg: i32,
    pub pitch_cdeg: i32,
    pub yaw_cdeg: i32,
}

/// A global position fix: latitude and longitude in units of 1e-7 degree,
/// altitude in millimeters.
pub struct PositionFix {
    pub lat: i32,
    pub lon: i32,
    pub alt: i32,
}

/// A reported parameter: its name as the raw fixed-size byte buffer from
/// the wire (padded with trailing zero bytes) and its value already
/// rendered as text.
pub struct ParameterValue {
    pub param_id: Vec<u8>,
    pub value_text: String,
}

/// One received message: the kinds the formatter special-cases, and a
/// catch-all for every other kind, carrying only its derived type name.
pub enum Message {
    Heartbeat(HeartbeatStatus),
    Attitude(AttitudeAngles),
    Position(PositionFix),
    Parameter(ParameterValue),
    Other(String),
}

/// The canonical type name of a message, derived from the variant tag
/// itself. The filter, the frequency tracker and the fallback display
/// label all go through this one definition, so they can never disagree.
pub open spec fn type_name_of(m: Message) -> Seq<char> {
    match m {
        Message::Heartbeat(_) => "HEARTBEAT"@,
        Message::Attitude(_) => "ATTITUDE"@,
        Message::Position(_) => "GLOBAL_POSITION_INT"@,
        Message::Parameter(_) => "PARAM_VALUE"@,
        Message::Other(name) => name@,
    }
}

/// Returns the canonical type name of a message.
pub fn extract_message_type(msg: &Message) -> (r: String)
    ensures
        r@ == type_name_of(*msg),
{
    match msg {
        Message::Heartbeat(_) => String::from_str("HEARTBEAT"),
        Message::Attitude(_) => String::from_str("ATTITUDE"),
        Message::Position(_) => String::from_str("GLOBAL_POSITION_INT"),
        Message::Parameter(_) => String::from_str("PARAM_VALUE"),
        Message::Other(name) => name.clone(),
    }
}

/// The longest prefix of `s` that holds no `(`: the type-name part of a
/// debug rendering such as `HEARTBEAT(..)`. `r` is a prefix of `s` free of
/// `(`, and either all of `s` or cut exactly at the first `(`.
pub open spec fn is_paren_free_prefix(s: Seq<char>, r: Seq<char>) -> bool {
    &&& r.len() <= s.len()
    &&& forall|k: int| 0 <= k < r.len() ==> r[k] == s[k] && s[k] != '('
    &&& (r.len() < s.len() ==> s[r.len() as int] == '(')
}

/// Cuts a debug rendering such as `HEARTBEAT(..)` down to the type name
/// in front of the first opening parenthesis.
pub fn name_from_debug(s: &str) -> (r: String)
    ensures
        is_paren_free_prefix(s@, r@),
{
    let len = s.unicode_len();
    let mut i: usize = 0;
    while i < len && s.get_char(i) != '('
        invariant
            0 <= i <= len,
            len == s@.len(),
            forall|k: int| 0 <= k < i ==> s@[k] != '(',
        decreases len - i,
    {
        i = i + 1;
    }
    let prefix = s.substring_char(0, i);
    prefix.to_owned()
}

/// The fixed system this tool addresses its setup requests to.
pub const TARGET_SYSTEM: u8 = 1;

/// The fixed component this tool addresses its setup requests to.
pub const TARGET_COMPONENT: u8 = 1;

/// The fixed rate, in hertz, at which the stream request asks the vehicle
/// to send telemetry.
pub const STREAM_RATE_HZ: u16 = 10;

/// The vehicle-type identifier announced in outgoing heartbeats: quadrotor.
pub const MAV_TYPE_QUADROTOR: u8 = 2;

/// The autopilot identifier announced in outgoing heartbeats.
pub const MAV_AUTOPILOT_ARDUPILOTMEGA: u8 = 3;

/// The system state announced in outgoing heartbeats: standby.
pub const MAV_STATE_STANDBY: u8 = 3;

/// The outgoing heartbeat's fields, with each protocol enum carried as its
/// wire identifier.
#[derive(PartialEq, Eq, Structural, Clone, Copy, Debug)]
pub struct HeartbeatFields {
    pub custom_mode: u32,
    pub mavtype: u8,
    pub autopilot: u8,
    pub base_mode: u8,
    pub system_status: u8,
    pub mavlink_version: u8,
}

/// A request for the vehicle's full parameter list.
#[derive(PartialEq, Eq, Structural, Clone, Copy, Debug)]
pub struct ParamRequestList {
    pub target_system: u8,
    pub target_component: u8,
}

/// A request that the vehicle enable a telemetry data stream.
#[derive(PartialEq, Eq, Structural, Clone, Copy, Debug)]
pub struct StreamRequest {
    pub target_system: u8,
    pub target_component: u8,
    pub req_stream_id: u8,
    pub req_message_rate: u16,
    pub start_stop: u8,
}

/// The recurring heartbeat this tool announces itself with: a quadrotor
/// on standby, empty mode flags, protocol version 3.
pub fn create_heartbeat() -> (r: HeartbeatFields)
    ensures
        r == (HeartbeatFields {
            custom_mode: 0u32,
            mavtype: MAV_TYPE_QUADROTOR,
            autopilot: MAV_AUTOPILOT_ARDUPILOTMEGA,
            base_mode: 0u8,
            system_status: MAV_STATE_STANDBY,
            mavlink_version: 3u8,
        }),
{
    HeartbeatFields {
        custom_mode: 0,
        mavtype: MAV_TYPE_QUADROTOR,
        autopilot: MAV_AUTOPILOT_ARDUPILOTMEGA,
        base_mode: 0,
        system_status: MAV_STATE_STANDBY,
        mavlink_version: 3,
    }
}

/// The one-shot parameter-list request sent at startup, addressed to the
/// fixed target system and component.
pub fn create_param_request() -> (r: ParamRequestList)
    ensures
        r == (ParamRequestList {
            target_system: TARGET_SYSTEM,
            target_component: TARGET_COMPONENT,
        }),
{
    ParamRequestList { target_system: TARGET_SYSTEM, target_component: TARGET_COMPONENT }
}

/// The one-shot stream-enable request sent at startup: all streams, at the
/// fixed rate, switched on.
pub fn create_stream_request() -> (r: StreamRequest)
    ensures
        r == (StreamRequest {
            target_system: TARGET_SYSTEM,
            target_component: TARGET_COMPONENT,
            req_stream_id: 0u8,
            req_message_rate: STREAM_RATE_HZ,
            start_stop: 1u8,
        }),
{
    StreamRequest {
        target_system: TARGET_SYSTEM,
        target_component: TARGET_COMPONENT,
        req_stream_id: 0,
        req_message_rate: STREAM_RATE_HZ,
        start_stop: 1,
    }
}

} // verus!
