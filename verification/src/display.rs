//! The display formatter: renders a received message, its routing header
//! and an optional rate annotation into one human-readable line, after
//! consulting the message filter.
use crate::RoutingHeader;
use crate::filter::MessageFilter;
use crate::filter::should_display;
use crate::filter::spec_should_display;
use crate::message::AttitudeAngles;
use crate::message::HeartbeatStatus;
use crate::message::Message;
use crate::message::ParameterValue;
use crate::message::PositionFix;
use crate::message::extract_message_type;
use crate::message::type_name_of;
use crate::text::dec_digits;
use crate::text::fixed_str;
use crate::text::fixed_string;
use crate::text::left_pad;
use crate::text::pad_left;
use crate::text::push_char;
use crate::text::u64_digits;
use crate::tracker::MICROS_PER_SEC;
use crate::tracker::RateHz;
use vstd::arithmetic::div_mod::lemma_fundamental_div_mod;
use vstd::prelude::*;
use vstd::string::StringExecFns;

verus! {

/// A rate in hundredths of a hertz, rounded half-up from the exact
/// rational `num / den`.
pub open spec fn centihertz(r: RateHz) -> int
    recommends
        r.wf(),
{
    let scaled = 100 * r.num as int;
    let q = scaled / r.den as int;
    let rem = scaled % r.den as int;
    if 2 * rem >= r.den { q + 1 } else { q }
}

/// The rate annotation appended to every displayed line: the rate to two
/// decimals right-aligned in six columns, or a placeholder when no rate
/// is known yet.
pub open spec fn freq_suffix(rate: Option<RateHz>) -> Seq<char> {
    match rate {
        None => " [---.-- Hz]"@,
        Some(r) => " ["@ + left_pad(fixed_str(centihertz(r), 2), ' ', 6) + " Hz]"@,
    }
}

/// A rate representable by this library: the denominator is positive and
/// the numerator at most one second's worth of microseconds, as the
/// frequency tracker produces.
pub open spec fn rate_in_range(rate: Option<RateHz>) -> bool {
    rate is Some ==> rate.unwrap().wf() && rate.unwrap().num <= MICROS_PER_SEC
}

/// Renders the rate annotation.
pub fn freq_string(rate: Option<RateHz>) -> (r: String)
    requires
        rate_in_range(rate),
    ensures
        r@ == freq_suffix(rate),
{
    match rate {
        None => String::from_str(" [---.-- Hz]"),
        Some(rt) => {
            let scaled: u64 = 100 * rt.num;
            let q = scaled / rt.den;
            let rem = scaled % rt.den;
            let centi: u64 = if rem >= rt.den - rem {
                q + 1
            } else {
                q
            };
            proof {
                lemma_fundamental_div_mod(scaled as int, rt.den as int);
                assert(q * rt.den >= q) by (nonlinear_arith)
                    requires
                        q >= 0,
                        rt.den >= 1,
                ;
                assert(centi as int == centihertz(rt));
            }
            let body = pad_left(fixed_string(centi as i64, 2), ' ', 6);
            let mut line = String::from_str(" [");
            line.append(body.as_str());
            line.append(" Hz]");
            proof {
                assert(line@ =~= freq_suffix(rate));
            }
            line
        },
    }
}

/// An integer divided by a power of ten and rounded half away from zero:
/// the value shown for a reading stored in a finer unit than it is
/// displayed in.
pub open spec fn rounded_div(v: int, d: int) -> int
    recommends
        d >= 1,
{
    if v < 0 {
        -(((-v) + d / 2) / d)
    } else {
        (v + d / 2) / d
    }
}

/// Divides a reading by `d`, rounding half away from zero.
fn rounded_div_i32(v: i32, d: u32) -> (r: i64)
    requires
        1 <= d <= 1000,
    ensures
        r == rounded_div(v as int, d as int),
        -3000000000 <= r <= 3000000000,
{
    if v < 0 {
        let a: i64 = -(v as i64);
        -((a + (d / 2) as i64) / (d as i64))
    } else {
        let a: i64 = v as i64;
        (a + (d / 2) as i64) / (d as i64)
    }
}

/// The line shown for a heartbeat: the sender's ids from the routing
/// header and the symbolic vehicle type, autopilot and state names.
pub open spec fn heartbeat_line(h: RoutingHeader, hb: HeartbeatStatus, freq: Seq<char>) -> Seq<
    char,
> {
    "HEARTBEAT ["@ + dec_digits(h.system_id as nat) + "/"@ + dec_digits(h.component_id as nat)
        + "] type="@ + hb.mavtype@ + ", autopilot="@ + hb.autopilot@ + ", state="@
        + hb.system_status@ + freq
}

/// The line shown for an attitude reading: roll, pitch and yaw in degrees
/// to two decimals, each right-aligned in six columns.
pub open spec fn attitude_line(a: AttitudeAngles, freq: Seq<char>) -> Seq<char> {
    "ATTITUDE  roll="@ + left_pad(fixed_str(a.roll_cdeg as int, 2), ' ', 6) + "\u{b0} pitch="@
        + left_pad(fixed_str(a.pitch_cdeg as int, 2), ' ', 6) + "\u{b0} yaw="@ + left_pad(
        fixed_str(a.yaw_cdeg as int, 2),
        ' ',
        6,
    ) + "\u{b0}"@ + freq
}

/// The line shown for a position fix: latitude and longitude in degrees
/// to six decimals, altitude in meters to one decimal.
pub open spec fn position_line(p: PositionFix, freq: Seq<char>) -> Seq<char> {
    "POSITION  lat="@ + left_pad(fixed_str(rounded_div(p.lat as int, 10), 6), ' ', 10) + " lon="@
        + left_pad(fixed_str(rounded_div(p.lon as int, 10), 6), ' ', 10) + " alt="@ + left_pad(
        fixed_str(rounded_div(p.alt as int, 100), 1),
        ' ',
        7,
    ) + "m"@ + freq
}

/// The name held in a parameter's fixed-size buffer: the bytes before the
/// trailing run of zero bytes.
pub open spec fn stripped_nuls(bytes: Seq<u8>) -> Seq<u8>
    decreases bytes.len(),
{
    if bytes.len() > 0 && bytes.last() == 0 {
        stripped_nuls(bytes.drop_last())
    } else {
        bytes
    }
}

/// One parameter-name byte as a character: ASCII bytes stand for
/// themselves and anything else renders as the replacement character.
pub open spec fn byte_char(b: u8) -> char {
    if b < 128 {
        b as char
    } else {
        '\u{fffd}'
    }
}

/// A parameter name decoded from its buffer: trailing zero padding
/// stripped, each remaining byte as a character.
pub open spec fn param_name_chars(bytes: Seq<u8>) -> Seq<char> {
    stripped_nuls(bytes).map_values(|b: u8| byte_char(b))
}

/// The line shown for a reported parameter: its decoded name and its
/// value as text.
pub open spec fn param_line(p: ParameterValue, freq: Seq<char>) -> Seq<char> {
    "PARAM     "@ + param_name_chars(p.param_id@) + " = "@ + p.value_text@ + freq
}

/// The fallback line for every other message kind: its derived type name
/// and the sender's ids.
pub open spec fn generic_line(h: RoutingHeader, name: Seq<char>, freq: Seq<char>) -> Seq<char> {
    name + " ["@ + dec_digits(h.system_id as nat) + "/"@ + dec_digits(h.component_id as nat)
        + "]"@ + freq
}

/// What `show` produces: nothing at all for a filtered-out message, and
/// otherwise the one line its variant calls for, rate annotation included.
pub open spec fn show_line(
    h: RoutingHeader,
    m: Message,
    filter: Option<MessageFilter>,
    rate: Option<RateHz>,
) -> Option<Seq<char>> {
    if !spec_should_display(filter, type_name_of(m)) {
        None
    } else {
        let freq = freq_suffix(rate);
        Some(
            match m {
                Message::Heartbeat(hb) => heartbeat_line(h, hb, freq),
                Message::Attitude(a) => attitude_line(a, freq),
                Message::Position(p) => position_line(p, freq),
                Message::Parameter(p) => param_line(p, freq),
                Message::Other(name) => generic_line(h, name@, freq),
            },
        )
    }
}

proof fn lemma_strip_subrange(bytes: Seq<u8>, j: int)
    requires
        0 <= j <= bytes.len(),
        forall|k: int| j <= k < bytes.len() ==> bytes[k] == 0,
        j > 0 ==> bytes[j - 1] != 0,
    ensures
        stripped_nuls(bytes) =~= bytes.subrange(0, j),
    decreases bytes.len() - j,
{
    if j == bytes.len() {
        if bytes.len() > 0 && bytes.last() == 0 {
            assert(false);
        }
        assert(stripped_nuls(bytes) =~= bytes.subrange(0, j));
    } else {
        let t = bytes.drop_last();
        lemma_strip_subrange(t, j);
        assert(t.subrange(0, j) =~= bytes.subrange(0, j));
    }
}

/// Decodes a parameter name from its fixed-size buffer, stripping the
/// trailing zero padding.
pub fn decode_param_name(bytes: &Vec<u8>) -> (r: String)
    ensures
        r@ == param_name_chars(bytes@),
{
    let mut end: usize = bytes.len();
    while end > 0 && bytes[end - 1] == 0
        invariant
            0 <= end <= bytes@.len(),
            forall|k: int| end <= k < bytes@.len() ==> bytes@[k] == 0,
        decreases end,
    {
        end = end - 1;
    }
    proof {
        lemma_strip_subrange(bytes@, end as int);
    }
    let mut r = String::new();
    let mut i: usize = 0;
    while i < end
        invariant
            0 <= i <= end <= bytes@.len(),
            stripped_nuls(bytes@) =~= bytes@.subrange(0, end as int),
            r@ == bytes@.subrange(0, i as int).map_values(|b: u8| byte_char(b)),
        decreases end - i,
    {
        let b = bytes[i];
        let c = if b < 128 {
            b as char
        } else {
            '\u{fffd}'
        };
        assert(c == byte_char(bytes@[i as int]));
        push_char(&mut r, c);
        proof {
            assert(bytes@.subrange(0, i + 1).drop_last() =~= bytes@.subrange(0, i as int));
            assert(bytes@.subrange(0, i + 1).map_values(|b: u8| byte_char(b)) =~= bytes@.subrange(
                0,
                i as int,
            ).map_values(|b: u8| byte_char(b)).push(byte_char(bytes@[i as int])));
        }
        i = i + 1;
    }
    proof {
        assert(r@ =~= param_name_chars(bytes@));
    }
    r
}

/// Renders a message into its display line, or into nothing when the
/// filter rejects its type name. The rate annotation is part of every
/// line: the placeholder stands in when no rate is known.
pub fn show(
    header: &RoutingHeader,
    msg: &Message,
    filter: &Option<MessageFilter>,
    rate: Option<RateHz>,
) -> (r: Option<String>)
    requires
        rate_in_range(rate),
    ensures
        r is Some <==> show_line(*header, *msg, *filter, rate) is Some,
        r is Some ==> r.unwrap()@ == show_line(*header, *msg, *filter, rate).unwrap(),
{
    let name = extract_message_type(msg);
    if !should_display(filter, name.as_str()) {
        return None;
    }
    let freq = freq_string(rate);
    let line = match msg {
        Message::Heartbeat(hb) => {
            let mut s = String::from_str("HEARTBEAT [");
            s.append(u64_digits(header.system_id as u64).as_str());
            s.append("/");
            s.append(u64_digits(header.component_id as u64).as_str());
            s.append("] type=");
            s.append(hb.mavtype.as_str());
            s.append(", autopilot=");
            s.append(hb.autopilot.as_str());
            s.append(", state=");
            s.append(hb.system_status.as_str());
            s.append(freq.as_str());
            proof {
                assert(s@ =~= heartbeat_line(*header, *hb, freq@));
            }
            s
        },
        Message::Attitude(a) => {
            let mut s = String::from_str("ATTITUDE  roll=");
            s.append(pad_left(fixed_string(a.roll_cdeg as i64, 2), ' ', 6).as_str());
            s.append("\u{b0} pitch=");
            s.append(pad_left(fixed_string(a.pitch_cdeg as i64, 2), ' ', 6).as_str());
            s.append("\u{b0} yaw=");
            s.append(pad_left(fixed_string(a.yaw_cdeg as i64, 2), ' ', 6).as_str());
            s.append("\u{b0}");
            s.append(freq.as_str());
            proof {
                assert(s@ =~= attitude_line(*a, freq@));
            }
            s
        },
        Message::Position(p) => {
            let mut s = String::from_str("POSITION  lat=");
            s.append(pad_left(fixed_string(rounded_div_i32(p.lat, 10), 6), ' ', 10).as_str());
            s.append(" lon=");
            s.append(pad_left(fixed_string(rounded_div_i32(p.lon, 10), 6), ' ', 10).as_str());
            s.append(" alt=");
            s.append(pad_left(fixed_string(rounded_div_i32(p.alt, 100), 1), ' ', 7).as_str());
            s.append("m");
            s.append(freq.as_str());
            proof {
                assert(s@ =~= position_line(*p, freq@));
            }
            s
        },
        Message::Parameter(p) => {
            let mut s = String::from_str("PARAM     ");
            s.append(decode_param_name(&p.param_id).as_str());
            s.append(" = ");
            s.append(p.value_text.as_str());
            s.append(freq.as_str());
            proof {
                assert(s@ =~= param_line(*p, freq@));
            }
            s
        },
        Message::Other(other_name) => {
            let mut s = other_name.clone();
            s.append(" [");
            s.append(u64_digits(header.system_id as u64).as_str());
            s.append("/");
            s.append(u64_digits(header.component_id as u64).as_str());
            s.append("]");
            s.append(freq.as_str());
            proof {
                assert(s@ =~= generic_line(*header, other_name@, freq@));
            }
            s
        },
    };
    Some(line)
}

} // verus!
