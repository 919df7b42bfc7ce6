use mavlink_dump::RoutingHeader;
use mavlink_dump::display::show;
use mavlink_dump::filter::build_message_filter;
use mavlink_dump::message::{
    AttitudeAngles, HeartbeatStatus, Message, ParameterValue, PositionFix,
};
use mavlink_dump::tracker::{RateHz, MICROS_PER_SEC};

fn header(system_id: u8, component_id: u8) -> RoutingHeader {
    RoutingHeader { system_id, component_id }
}

#[test]
fn position_line_shows_degrees_and_meters() {
    // Latitude 473977420 in 1e-7 degrees is 47.397742 degrees; altitude
    // 123456 mm is 123.456 m, shown to one decimal as 123.5.
    let msg = Message::Position(PositionFix { lat: 473977420, lon: 85455940, alt: 123456 });
    let line = show(&header(1, 1), &msg, &None, None).unwrap();
    assert_eq!(
        line,
        "POSITION  lat= 47.397742 lon=  8.545594 alt=  123.5m [---.-- Hz]"
    );
    assert!(line.contains("47.397742"));
    assert!(line.contains("123.5"));
}

#[test]
fn position_line_negative_coordinates() {
    let msg = Message::Position(PositionFix { lat: -473977420, lon: -5, alt: -1499 });
    let line = show(&header(1, 1), &msg, &None, None).unwrap();
    // -5 in 1e-7 degrees rounds half away from zero to -0.000001;
    // -1499 mm rounds to -1.5 m.
    assert_eq!(
        line,
        "POSITION  lat=-47.397742 lon= -0.000001 alt=   -1.5m [---.-- Hz]"
    );
}

#[test]
fn parameter_name_drops_trailing_null_padding() {
    let msg = Message::Parameter(ParameterValue {
        param_id: b"ALT_HOLD\0\0\0\0\0\0\0\0".to_vec(),
        value_text: String::from("7.5"),
    });
    let line = show(&header(1, 1), &msg, &None, None).unwrap();
    assert_eq!(line, "PARAM     ALT_HOLD = 7.5 [---.-- Hz]");
    assert!(!line.contains('\0'));
}

#[test]
fn heartbeat_line_shows_ids_and_symbolic_names() {
    let msg = Message::Heartbeat(HeartbeatStatus {
        mavtype: String::from("MAV_TYPE_QUADROTOR"),
        autopilot: String::from("MAV_AUTOPILOT_PX4"),
        system_status: String::from("MAV_STATE_ACTIVE"),
    });
    let line = show(&header(1, 190), &msg, &None, None).unwrap();
    assert_eq!(
        line,
        "HEARTBEAT [1/190] type=MAV_TYPE_QUADROTOR, autopilot=MAV_AUTOPILOT_PX4, \
         state=MAV_STATE_ACTIVE [---.-- Hz]"
    );
}

#[test]
fn attitude_line_shows_centidegrees_to_two_decimals() {
    let msg = Message::Attitude(AttitudeAngles {
        roll_cdeg: 1234,
        pitch_cdeg: -567,
        yaw_cdeg: 0,
    });
    let line = show(&header(1, 1), &msg, &None, None).unwrap();
    assert_eq!(
        line,
        "ATTITUDE  roll= 12.34\u{b0} pitch= -5.67\u{b0} yaw=  0.00\u{b0} [---.-- Hz]"
    );
}

#[test]
fn generic_line_shows_type_name_and_ids() {
    let msg = Message::Other(String::from("STATUSTEXT"));
    let line = show(&header(42, 200), &msg, &None, None).unwrap();
    assert_eq!(line, "STATUSTEXT [42/200] [---.-- Hz]");
}

#[test]
fn rejected_message_produces_no_output_at_all() {
    let filter = build_message_filter(Some(vec![String::from("HEARTBEAT")]));
    let msg = Message::Position(PositionFix { lat: 0, lon: 0, alt: 0 });
    assert!(show(&header(1, 1), &msg, &filter, None).is_none());
}

#[test]
fn known_rate_is_rendered_to_two_decimals() {
    let msg = Message::Other(String::from("VFR_HUD"));
    // One observation half a second after the last: 2 Hz.
    let rate = Some(RateHz { num: MICROS_PER_SEC, den: 500_000 });
    let line = show(&header(3, 4), &msg, &None, rate).unwrap();
    assert_eq!(line, "VFR_HUD [3/4] [  2.00 Hz]");
    // A third of a second: 3.00 Hz once rounded to hundredths.
    let rate = Some(RateHz { num: MICROS_PER_SEC, den: 333_333 });
    let line = show(&header(3, 4), &msg, &None, rate).unwrap();
    assert_eq!(line, "VFR_HUD [3/4] [  3.00 Hz]");
}

#[test]
fn zero_rate_renders_as_zero() {
    let msg = Message::Other(String::from("VFR_HUD"));
    let line = show(&header(3, 4), &msg, &None, Some(RateHz { num: 0, den: 1 })).unwrap();
    assert_eq!(line, "VFR_HUD [3/4] [  0.00 Hz]");
}

#[test]
fn placeholder_shown_whenever_rate_is_unknown() {
    let msg = Message::Other(String::from("VFR_HUD"));
    let line = show(&header(3, 4), &msg, &None, None).unwrap();
    assert!(line.ends_with(" [---.-- Hz]"));
}
