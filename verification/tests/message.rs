use mavlink_dump::message::{
    create_heartbeat, create_param_request, create_stream_request, extract_message_type,
    name_from_debug, AttitudeAngles, HeartbeatStatus, Message, ParameterValue, PositionFix,
    MAV_AUTOPILOT_ARDUPILOTMEGA, MAV_STATE_STANDBY, MAV_TYPE_QUADROTOR, STREAM_RATE_HZ,
    TARGET_COMPONENT, TARGET_SYSTEM,
};
use mavlink_dump::text::{fixed_string, i64_string, pad_left, u64_digits};

#[test]
fn type_names_come_from_the_variant_tag() {
    let hb = Message::Heartbeat(HeartbeatStatus {
        mavtype: String::new(),
        autopilot: String::new(),
        system_status: String::new(),
    });
    assert_eq!(extract_message_type(&hb), "HEARTBEAT");
    let att = Message::Attitude(AttitudeAngles { roll_cdeg: 0, pitch_cdeg: 0, yaw_cdeg: 0 });
    assert_eq!(extract_message_type(&att), "ATTITUDE");
    let pos = Message::Position(PositionFix { lat: 0, lon: 0, alt: 0 });
    assert_eq!(extract_message_type(&pos), "GLOBAL_POSITION_INT");
    let par = Message::Parameter(ParameterValue {
        param_id: Vec::new(),
        value_text: String::new(),
    });
    assert_eq!(extract_message_type(&par), "PARAM_VALUE");
    let other = Message::Other(String::from("STATUSTEXT"));
    assert_eq!(extract_message_type(&other), "STATUSTEXT");
}

#[test]
fn debug_rendering_is_cut_at_the_first_parenthesis() {
    assert_eq!(
        name_from_debug("VFR_HUD(VFR_HUD_DATA { airspeed: 0.0 })"),
        "VFR_HUD"
    );
    assert_eq!(name_from_debug("NO_PAYLOAD"), "NO_PAYLOAD");
    assert_eq!(name_from_debug(""), "");
    assert_eq!(name_from_debug("(leading)"), "");
}

#[test]
fn heartbeat_announces_a_standby_quadrotor() {
    let hb = create_heartbeat();
    assert_eq!(hb.custom_mode, 0);
    assert_eq!(hb.mavtype, MAV_TYPE_QUADROTOR);
    assert_eq!(hb.mavtype, 2);
    assert_eq!(hb.autopilot, MAV_AUTOPILOT_ARDUPILOTMEGA);
    assert_eq!(hb.autopilot, 3);
    assert_eq!(hb.base_mode, 0);
    assert_eq!(hb.system_status, MAV_STATE_STANDBY);
    assert_eq!(hb.system_status, 3);
    assert_eq!(hb.mavlink_version, 3);
}

#[test]
fn setup_requests_address_the_fixed_target() {
    let params = create_param_request();
    assert_eq!(params.target_system, TARGET_SYSTEM);
    assert_eq!(params.target_component, TARGET_COMPONENT);
    assert_eq!((params.target_system, params.target_component), (1, 1));

    let stream = create_stream_request();
    assert_eq!(stream.target_system, 1);
    assert_eq!(stream.target_component, 1);
    assert_eq!(stream.req_stream_id, 0);
    assert_eq!(stream.req_message_rate, STREAM_RATE_HZ);
    assert_eq!(stream.req_message_rate, 10);
    assert_eq!(stream.start_stop, 1);
}

#[test]
fn decimal_rendering_matches_expected_values() {
    assert_eq!(u64_digits(0), "0");
    assert_eq!(u64_digits(907), "907");
    assert_eq!(i64_string(-42), "-42");
    assert_eq!(i64_string(0), "0");
    assert_eq!(fixed_string(1234, 2), "12.34");
    assert_eq!(fixed_string(-1234, 2), "-12.34");
    assert_eq!(fixed_string(5, 2), "0.05");
    assert_eq!(fixed_string(47397742, 6), "47.397742");
    assert_eq!(pad_left(String::from("2.00"), ' ', 6), "  2.00");
    assert_eq!(pad_left(String::from("12345.67"), ' ', 6), "12345.67");
}
