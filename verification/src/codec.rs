//! The client wire format: each domain message is one JSON text frame
//! with a `type` discriminator and a `payload` object. The encoder is
//! exact; the strict decoder accepts the canonical form the encoder
//! produces, and decoding is proved to invert encoding.

use vstd::prelude::*;
use vstd::string::StringExecFns;

use crate::domain::{BatteryStatus, CloudRiderMessage, GlobalPosition, Heartbeat, MessageModel};
use crate::text::{
    lemma_add_assoc, lemma_expect_prefix, lemma_parse_int_inverts, lemma_parse_jstring_escaped,
    append_escaped, append_int, expect_lit, parse_int, parse_jstring, spec_escape,
    spec_expect, spec_int_chars, spec_parse_int, spec_parse_jstring, str_chars, ParseIntOutcome,
};

verus! {

/// Keep a parsed integer only when it lies in the carrying field's
/// range.
pub open spec fn spec_bounded_int(r: Option<(int, Seq<char>)>, lo: int, hi: int) -> Option<
    (int, Seq<char>),
> {
    match r {
        Some(p) => if lo <= p.0 <= hi {
            Some(p)
        } else {
            None
        },
        None => None,
    }
}

/// The wire text of one domain message.
pub open spec fn spec_encode(m: MessageModel) -> Seq<char> {
    match m {
        MessageModel::Heartbeat { timestamp } => "{\"type\":\"Heartbeat\",\"payload\":{\"timestamp\":\""@
            + spec_escape(timestamp) + "\""@ + "}}"@,
        MessageModel::GlobalPosition { lat, lon, alt, relative_alt, vx, vy, vz } => "{\"type\":\"GlobalPosition\",\"payload\":{\"lat\":"@
            + spec_int_chars(lat) + ",\"lon\":"@ + spec_int_chars(lon) + ",\"alt\":"@
            + spec_int_chars(alt) + ",\"relative_alt\":"@ + spec_int_chars(relative_alt)
            + ",\"vx\":"@ + spec_int_chars(vx) + ",\"vy\":"@ + spec_int_chars(vy) + ",\"vz\":"@
            + spec_int_chars(vz) + "}}"@,
        MessageModel::BatteryStatus { remaining_percent, temperature_c, current_battery_ma } => "{\"type\":\"BatteryStatus\",\"payload\":{\"remaining_percent\":"@
            + spec_int_chars(remaining_percent) + ",\"temperature_c\":"@ + spec_int_chars(
            temperature_c,
        ) + ",\"current_battery_ma\":"@ + spec_int_chars(current_battery_ma) + "}}"@,
        MessageModel::Error { message } => "{\"type\":\"Error\",\"payload\":\""@ + spec_escape(
            message,
        ) + "\""@ + "}"@,
    }
}

/// Decode the part of a heartbeat frame after its fixed prefix.
pub open spec fn spec_decode_heartbeat_body(s: Seq<char>) -> Option<MessageModel> {
    match spec_parse_jstring(s) {
        None => None,
        Some((ts, s1)) => match spec_expect(s1, "}}"@) {
            None => None,
            Some(s2) => if s2.len() == 0 {
                Some(MessageModel::Heartbeat { timestamp: ts })
            } else {
                None
            },
        },
    }
}

/// Decode the part of a position frame after its fixed prefix.
pub open spec fn spec_decode_position_body(s: Seq<char>) -> Option<MessageModel> {
    match spec_bounded_int(spec_parse_int(s), -2147483648, 2147483647) {
        None => None,
        Some((lat, s1)) => match spec_expect(s1, ",\"lon\":"@) {
            None => None,
            Some(s2) => match spec_bounded_int(spec_parse_int(s2), -2147483648, 2147483647) {
                None => None,
                Some((lon, s3)) => match spec_expect(s3, ",\"alt\":"@) {
                    None => None,
                    Some(s4) => match spec_bounded_int(
                        spec_parse_int(s4),
                        -2147483648,
                        2147483647,
                    ) {
                        None => None,
                        Some((alt, s5)) => match spec_expect(s5, ",\"relative_alt\":"@) {
                            None => None,
                            Some(s6) => match spec_bounded_int(
                                spec_parse_int(s6),
                                -2147483648,
                                2147483647,
                            ) {
                                None => None,
                                Some((relative_alt, s7)) => match spec_expect(s7, ",\"vx\":"@) {
                                    None => None,
                                    Some(s8) => match spec_bounded_int(
                                        spec_parse_int(s8),
                                        -32768,
                                        32767,
                                    ) {
                                        None => None,
                                        Some((vx, s9)) => match spec_expect(s9, ",\"vy\":"@) {
                                            None => None,
                                            Some(s10) => match spec_bounded_int(
                                                spec_parse_int(s10),
                                                -32768,
                                                32767,
                                            ) {
                                                None => None,
                                                Some((vy, s11)) => match spec_expect(
                                                    s11,
                                                    ",\"vz\":"@,
                                                ) {
                                                    None => None,
                                                    Some(s12) => match spec_bounded_int(
                                                        spec_parse_int(s12),
                                                        -32768,
                                                        32767,
                                                    ) {
                                                        None => None,
                                                        Some((vz, s13)) => match spec_expect(
                                                            s13,
                                                            "}}"@,
                                                        ) {
                                                            None => None,
                                                            Some(s14) => if s14.len() == 0 {
                                                                Some(
                                                                    MessageModel::GlobalPosition {
                                                                        lat,
                                                                        lon,
                                                                        alt,
                                                                        relative_alt,
                                                                        vx,
                                                                        vy,
                                                                        vz,
                                                                    },
                                                                )
                                                            } else {
                                                                None
                                                            },
                                                        },
                                                    },
                                                },
                                            },
                                        },
                                    },
                                },
                            },
                        },
                    },
                },
            },
        },
    }
}

/// Decode the part of a battery frame after its fixed prefix.
pub open spec fn spec_decode_battery_body(s: Seq<char>) -> Option<MessageModel> {
    match spec_bounded_int(spec_parse_int(s), -128, 127) {
        None => None,
        Some((remaining_percent, s1)) => match spec_expect(s1, ",\"temperature_c\":"@) {
            None => None,
            Some(s2) => match spec_bounded_int(spec_parse_int(s2), -32768, 32767) {
                None => None,
                Some((temperature_c, s3)) => match spec_expect(s3, ",\"current_battery_ma\":"@) {
                    None => None,
                    Some(s4) => match spec_bounded_int(spec_parse_int(s4), -32768, 32767) {
                        None => None,
                        Some((current_battery_ma, s5)) => match spec_expect(s5, "}}"@) {
                            None => None,
                            Some(s6) => if s6.len() == 0 {
                                Some(
                                    MessageModel::BatteryStatus {
                                        remaining_percent,
                                        temperature_c,
                                        current_battery_ma,
                                    },
                                )
                            } else {
                                None
                            },
                        },
                    },
                },
            },
        },
    }
}

/// Decode the part of an error frame after its fixed prefix.
pub open spec fn spec_decode_error_body(s: Seq<char>) -> Option<MessageModel> {
    match spec_parse_jstring(s) {
        None => None,
        Some((msg, s1)) => match spec_expect(s1, "}"@) {
            None => None,
            Some(s2) => if s2.len() == 0 {
                Some(MessageModel::Error { message: msg })
            } else {
                None
            },
        },
    }
}

/// Decode one wire frame: try each variant's fixed prefix in turn, then
/// its payload fields. Only the canonical form the encoder produces is
/// accepted, and the whole text must be consumed.
pub open spec fn spec_decode(s: Seq<char>) -> Option<MessageModel> {
    match spec_expect(s, "{\"type\":\"Heartbeat\",\"payload\":{\"timestamp\":\""@) {
        Some(s1) => spec_decode_heartbeat_body(s1),
        None => match spec_expect(s, "{\"type\":\"GlobalPosition\",\"payload\":{\"lat\":"@) {
            Some(s1) => spec_decode_position_body(s1),
            None => match spec_expect(
                s,
                "{\"type\":\"BatteryStatus\",\"payload\":{\"remaining_percent\":"@,
            ) {
                Some(s1) => spec_decode_battery_body(s1),
                None => match spec_expect(s, "{\"type\":\"Error\",\"payload\":\""@) {
                    Some(s1) => spec_decode_error_body(s1),
                    None => None,
                },
            },
        },
    }
}

/// The fixed prefixes of the four variants differ in their first tag
/// character, so no frame matches an earlier variant's prefix.
proof fn lemma_prefix_mismatch(e: Seq<char>, p: Seq<char>, g: char, h: char)
    requires
        e.len() > 9,
        p.len() > 9,
        e[9] == g,
        p[9] == h,
        g != h,
    ensures
        spec_expect(e, p) is None,
{
    if p.len() <= e.len() && e.take(p.len() as int) == p {
        assert(e.take(p.len() as int)[9] == e[9]);
        assert(false);
    }
}

/// Round trip for a heartbeat frame.
proof fn lemma_round_trip_heartbeat(timestamp: Seq<char>)
    ensures
        spec_decode(spec_encode(MessageModel::Heartbeat { timestamp })) == Some(
            MessageModel::Heartbeat { timestamp },
        ),
{
    let m = MessageModel::Heartbeat { timestamp };
    let e = spec_encode(m);
    let lit = "{\"type\":\"Heartbeat\",\"payload\":{\"timestamp\":\""@;
    let esc = spec_escape(timestamp);
    let q = "\""@;
    let c2 = "}}"@;
    assert(e == ((lit + esc) + q) + c2);
    lemma_add_assoc(lit + esc, q, c2);
    lemma_add_assoc(lit, esc, q + c2);
    let x = esc + (q + c2);
    assert(e == lit + x);
    lemma_expect_prefix(lit, x);
    reveal_strlit("\"");
    assert(q =~= seq!['"']);
    lemma_add_assoc(esc, q, c2);
    assert((esc + seq!['"']) + c2 == x);
    lemma_parse_jstring_escaped(timestamp, c2);
    assert(c2 =~= c2 + Seq::<char>::empty());
    lemma_expect_prefix(c2, Seq::empty());
}

/// Round trip for a position frame.
#[verifier::rlimit(60)]
proof fn lemma_round_trip_position(
    lat: int,
    lon: int,
    alt: int,
    relative_alt: int,
    vx: int,
    vy: int,
    vz: int,
)
    requires
        -2147483648 <= lat <= 2147483647,
        -2147483648 <= lon <= 2147483647,
        -2147483648 <= alt <= 2147483647,
        -2147483648 <= relative_alt <= 2147483647,
        -32768 <= vx <= 32767,
        -32768 <= vy <= 32767,
        -32768 <= vz <= 32767,
    ensures
        spec_decode(
            spec_encode(
                MessageModel::GlobalPosition { lat, lon, alt, relative_alt, vx, vy, vz },
            ),
        ) == Some(MessageModel::GlobalPosition { lat, lon, alt, relative_alt, vx, vy, vz }),
{
    let m = MessageModel::GlobalPosition { lat, lon, alt, relative_alt, vx, vy, vz };
    let e = spec_encode(m);
    let lit = "{\"type\":\"GlobalPosition\",\"payload\":{\"lat\":"@;
    let lit_hb = "{\"type\":\"Heartbeat\",\"payload\":{\"timestamp\":\""@;
    reveal_strlit("{\"type\":\"GlobalPosition\",\"payload\":{\"lat\":");
    reveal_strlit("{\"type\":\"Heartbeat\",\"payload\":{\"timestamp\":\"");
    reveal_strlit(",\"lon\":");
    reveal_strlit(",\"alt\":");
    reveal_strlit(",\"relative_alt\":");
    reveal_strlit(",\"vx\":");
    reveal_strlit(",\"vy\":");
    reveal_strlit(",\"vz\":");
    reveal_strlit("}}");
    let i1 = spec_int_chars(lat);
    let i2 = spec_int_chars(lon);
    let i3 = spec_int_chars(alt);
    let i4 = spec_int_chars(relative_alt);
    let i5 = spec_int_chars(vx);
    let i6 = spec_int_chars(vy);
    let i7 = spec_int_chars(vz);
    let c1 = ",\"lon\":"@;
    let c2 = ",\"alt\":"@;
    let c3 = ",\"relative_alt\":"@;
    let c4 = ",\"vx\":"@;
    let c5 = ",\"vy\":"@;
    let c6 = ",\"vz\":"@;
    let cl = "}}"@;
    let p1 = lit + i1;
    let p2 = p1 + c1;
    let p3 = p2 + i2;
    let p4 = p3 + c2;
    let p5 = p4 + i3;
    let p6 = p5 + c3;
    let p7 = p6 + i4;
    let p8 = p7 + c4;
    let p9 = p8 + i5;
    let p10 = p9 + c5;
    let p11 = p10 + i6;
    let p12 = p11 + c6;
    let p13 = p12 + i7;
    assert(e == p13 + cl);
    let t7 = i7 + cl;
    lemma_add_assoc(p12, i7, cl);
    let s_vz = c6 + t7;
    lemma_add_assoc(p11, c6, t7);
    let t6 = i6 + s_vz;
    lemma_add_assoc(p10, i6, s_vz);
    let s_vy = c5 + t6;
    lemma_add_assoc(p9, c5, t6);
    let t5 = i5 + s_vy;
    lemma_add_assoc(p8, i5, s_vy);
    let s_vx = c4 + t5;
    lemma_add_assoc(p7, c4, t5);
    let t4 = i4 + s_vx;
    lemma_add_assoc(p6, i4, s_vx);
    let s_ra = c3 + t4;
    lemma_add_assoc(p5, c3, t4);
    let t3 = i3 + s_ra;
    lemma_add_assoc(p4, i3, s_ra);
    let s_alt = c2 + t3;
    lemma_add_assoc(p3, c2, t3);
    let t2 = i2 + s_alt;
    lemma_add_assoc(p2, i2, s_alt);
    let s_lon = c1 + t2;
    lemma_add_assoc(p1, c1, t2);
    let t1 = i1 + s_lon;
    lemma_add_assoc(lit, i1, s_lon);
    assert(e == lit + t1);
    assert(e[9] == 'G');
    lemma_prefix_mismatch(e, lit_hb, 'G', 'H');
    lemma_expect_prefix(lit, t1);
    assert(s_lon[0] == ',');
    lemma_parse_int_inverts(lat, s_lon);
    lemma_expect_prefix(c1, t2);
    assert(s_alt[0] == ',');
    lemma_parse_int_inverts(lon, s_alt);
    lemma_expect_prefix(c2, t3);
    assert(s_ra[0] == ',');
    lemma_parse_int_inverts(alt, s_ra);
    lemma_expect_prefix(c3, t4);
    assert(s_vx[0] == ',');
    lemma_parse_int_inverts(relative_alt, s_vx);
    lemma_expect_prefix(c4, t5);
    assert(s_vy[0] == ',');
    lemma_parse_int_inverts(vx, s_vy);
    lemma_expect_prefix(c5, t6);
    assert(s_vz[0] == ',');
    lemma_parse_int_inverts(vy, s_vz);
    lemma_expect_prefix(c6, t7);
    assert(cl[0] == '}');
    lemma_parse_int_inverts(vz, cl);
    assert(cl =~= cl + Seq::<char>::empty());
    lemma_expect_prefix(cl, Seq::empty());
}

/// Round trip for a battery frame.
#[verifier::rlimit(60)]
proof fn lemma_round_trip_battery(
    remaining_percent: int,
    temperature_c: int,
    current_battery_ma: int,
)
    requires
        -128 <= remaining_percent <= 127,
        -32768 <= temperature_c <= 32767,
        -32768 <= current_battery_ma <= 32767,
    ensures
        spec_decode(
            spec_encode(
                MessageModel::BatteryStatus {
                    remaining_percent,
                    temperature_c,
                    current_battery_ma,
                },
            ),
        ) == Some(
            MessageModel::BatteryStatus { remaining_percent, temperature_c, current_battery_ma },
        ),
{
    let m = MessageModel::BatteryStatus { remaining_percent, temperature_c, current_battery_ma };
    let e = spec_encode(m);
    let lit = "{\"type\":\"BatteryStatus\",\"payload\":{\"remaining_percent\":"@;
    let lit_hb = "{\"type\":\"Heartbeat\",\"payload\":{\"timestamp\":\""@;
    let lit_gp = "{\"type\":\"GlobalPosition\",\"payload\":{\"lat\":"@;
    reveal_strlit("{\"type\":\"BatteryStatus\",\"payload\":{\"remaining_percent\":");
    reveal_strlit("{\"type\":\"Heartbeat\",\"payload\":{\"timestamp\":\"");
    reveal_strlit("{\"type\":\"GlobalPosition\",\"payload\":{\"lat\":");
    reveal_strlit(",\"temperature_c\":");
    reveal_strlit(",\"current_battery_ma\":");
    reveal_strlit("}}");
    let i1 = spec_int_chars(remaining_percent);
    let i2 = spec_int_chars(temperature_c);
    let i3 = spec_int_chars(current_battery_ma);
    let c1 = ",\"temperature_c\":"@;
    let c2 = ",\"current_battery_ma\":"@;
    let cl = "}}"@;
    let p1 = lit + i1;
    let p2 = p1 + c1;
    let p3 = p2 + i2;
    let p4 = p3 + c2;
    let p5 = p4 + i3;
    assert(e == p5 + cl);
    let t3 = i3 + cl;
    lemma_add_assoc(p4, i3, cl);
    let s_cur = c2 + t3;
    lemma_add_assoc(p3, c2, t3);
    let t2 = i2 + s_cur;
    lemma_add_assoc(p2, i2, s_cur);
    let s_tmp = c1 + t2;
    lemma_add_assoc(p1, c1, t2);
    let t1 = i1 + s_tmp;
    lemma_add_assoc(lit, i1, s_tmp);
    assert(e == lit + t1);
    assert(e[9] == 'B');
    lemma_prefix_mismatch(e, lit_hb, 'B', 'H');
    lemma_prefix_mismatch(e, lit_gp, 'B', 'G');
    lemma_expect_prefix(lit, t1);
    assert(s_tmp[0] == ',');
    lemma_parse_int_inverts(remaining_percent, s_tmp);
    lemma_expect_prefix(c1, t2);
    assert(s_cur[0] == ',');
    lemma_parse_int_inverts(temperature_c, s_cur);
    lemma_expect_prefix(c2, t3);
    assert(cl[0] == '}');
    lemma_parse_int_inverts(current_battery_ma, cl);
    assert(cl =~= cl + Seq::<char>::empty());
    lemma_expect_prefix(cl, Seq::empty());
}

/// Round trip for an error frame.
proof fn lemma_round_trip_error(message: Seq<char>)
    ensures
        spec_decode(spec_encode(MessageModel::Error { message })) == Some(
            MessageModel::Error { message },
        ),
{
    let m = MessageModel::Error { message };
    let e = spec_encode(m);
    let lit = "{\"type\":\"Error\",\"payload\":\""@;
    let lit_hb = "{\"type\":\"Heartbeat\",\"payload\":{\"timestamp\":\""@;
    let lit_gp = "{\"type\":\"GlobalPosition\",\"payload\":{\"lat\":"@;
    let lit_bs = "{\"type\":\"BatteryStatus\",\"payload\":{\"remaining_percent\":"@;
    reveal_strlit("{\"type\":\"Error\",\"payload\":\"");
    reveal_strlit("{\"type\":\"Heartbeat\",\"payload\":{\"timestamp\":\"");
    reveal_strlit("{\"type\":\"GlobalPosition\",\"payload\":{\"lat\":");
    reveal_strlit("{\"type\":\"BatteryStatus\",\"payload\":{\"remaining_percent\":");
    let esc = spec_escape(message);
    let q = "\""@;
    let c1 = "}"@;
    assert(e == ((lit + esc) + q) + c1);
    lemma_add_assoc(lit + esc, q, c1);
    lemma_add_assoc(lit, esc, q + c1);
    let x = esc + (q + c1);
    assert(e == lit + x);
    assert(e[9] == 'E');
    lemma_prefix_mismatch(e, lit_hb, 'E', 'H');
    lemma_prefix_mismatch(e, lit_gp, 'E', 'G');
    lemma_prefix_mismatch(e, lit_bs, 'E', 'B');
    lemma_expect_prefix(lit, x);
    reveal_strlit("\"");
    reveal_strlit("}");
    assert(q =~= seq!['"']);
    lemma_add_assoc(esc, q, c1);
    assert((esc + seq!['"']) + c1 == x);
    lemma_parse_jstring_escaped(message, c1);
    assert(c1 =~= c1 + Seq::<char>::empty());
    lemma_expect_prefix(c1, Seq::empty());
}

/// Round trip at the value level: the wire text of any domain message
/// decodes back to that message's model.
pub proof fn lemma_wire_round_trip(m: &CloudRiderMessage)
    ensures
        spec_decode(spec_encode(m@)) == Some(m@),
{
    crate::domain::lemma_message_view_wf(m);
    lemma_round_trip(m@);
}

/// Round trip: decoding the client wire text of any well-formed
/// message model recovers exactly that model.
pub proof fn lemma_round_trip(m: MessageModel)
    requires
        m.wf(),
    ensures
        spec_decode(spec_encode(m)) == Some(m),
{
    match m {
        MessageModel::Heartbeat { timestamp } => {
            lemma_round_trip_heartbeat(timestamp);
        },
        MessageModel::GlobalPosition { lat, lon, alt, relative_alt, vx, vy, vz } => {
            lemma_round_trip_position(lat, lon, alt, relative_alt, vx, vy, vz);
        },
        MessageModel::BatteryStatus { remaining_percent, temperature_c, current_battery_ma } => {
            lemma_round_trip_battery(remaining_percent, temperature_c, current_battery_ma);
        },
        MessageModel::Error { message } => {
            lemma_round_trip_error(message);
        },
    }
}

/// Serialize a domain message to its client wire text.
pub fn encode_message(m: &CloudRiderMessage) -> (r: String)
    ensures
        r@ == spec_encode(m@),
{
    match m {
        CloudRiderMessage::Heartbeat(h) => {
            let mut out = String::from_str("{\"type\":\"Heartbeat\",\"payload\":{\"timestamp\":\"");
            append_escaped(&mut out, h.timestamp.as_str());
            out.append("\"");
            out.append("}}");
            out
        },
        CloudRiderMessage::GlobalPosition(g) => {
            let mut out = String::from_str("{\"type\":\"GlobalPosition\",\"payload\":{\"lat\":");
            append_int(&mut out, g.lat as i64);
            out.append(",\"lon\":");
            append_int(&mut out, g.lon as i64);
            out.append(",\"alt\":");
            append_int(&mut out, g.alt as i64);
            out.append(",\"relative_alt\":");
            append_int(&mut out, g.relative_alt as i64);
            out.append(",\"vx\":");
            append_int(&mut out, g.vx as i64);
            out.append(",\"vy\":");
            append_int(&mut out, g.vy as i64);
            out.append(",\"vz\":");
            append_int(&mut out, g.vz as i64);
            out.append("}}");
            out
        },
        CloudRiderMessage::BatteryStatus(b) => {
            let mut out = String::from_str(
                "{\"type\":\"BatteryStatus\",\"payload\":{\"remaining_percent\":",
            );
            append_int(&mut out, b.remaining_percent as i64);
            out.append(",\"temperature_c\":");
            append_int(&mut out, b.temperature_c as i64);
            out.append(",\"current_battery_ma\":");
            append_int(&mut out, b.current_battery_ma as i64);
            out.append("}}");
            out
        },
        CloudRiderMessage::Error(e) => {
            let mut out = String::from_str("{\"type\":\"Error\",\"payload\":\"");
            append_escaped(&mut out, e.as_str());
            out.append("\"");
            out.append("}");
            out
        },
    }
}

/// Parse one integer field and keep it only within `lo ..= hi`.
fn parse_field(v: &Vec<char>, i: usize, lo: i64, hi: i64) -> (r: Option<(i64, usize)>)
    requires
        i <= v@.len(),
        -10000000000 <= lo <= hi <= 10000000000,
    ensures
        match r {
            Some(p) => i <= p.1 <= v@.len() && lo <= p.0 <= hi && spec_bounded_int(
                spec_parse_int(v@.skip(i as int)),
                lo as int,
                hi as int,
            ) == Some((p.0 as int, v@.skip(p.1 as int))),
            None => spec_bounded_int(spec_parse_int(v@.skip(i as int)), lo as int, hi as int)
                is None,
        },
{
    match parse_int(v, i) {
        ParseIntOutcome::Value(n, j) => if lo <= n && n <= hi {
            Some((n, j))
        } else {
            None
        },
        ParseIntOutcome::TooBig(_) => None,
        ParseIntOutcome::NoParse => None,
    }
}

/// Parse a domain message from its client wire text; yields nothing
/// unless the whole text is one canonical frame.
pub fn decode_message(s: &str) -> (r: Option<CloudRiderMessage>)
    ensures
        match r {
            Some(m) => spec_decode(s@) == Some(m@),
            None => spec_decode(s@) is None,
        },
{
    let v = str_chars(s);
    proof {
        assert(v@.skip(0) =~= s@);
    }
    if let Some(j) = expect_lit(&v, 0, "{\"type\":\"Heartbeat\",\"payload\":{\"timestamp\":\"") {
        match parse_jstring(&v, j) {
            None => None,
            Some((ts, j1)) => {
                match expect_lit(&v, j1, "}}") {
                    None => None,
                    Some(j2) => {
                        if j2 == v.len() {
                            proof {
                                assert(v@.skip(j2 as int).len() == 0);
                            }
                            Some(CloudRiderMessage::Heartbeat(Heartbeat { timestamp: ts }))
                        } else {
                            proof {
                                assert(v@.skip(j2 as int).len() > 0);
                            }
                            None
                        }
                    },
                }
            },
        }
    } else if let Some(j) = expect_lit(&v, 0, "{\"type\":\"GlobalPosition\",\"payload\":{\"lat\":") {
        match parse_field(&v, j, -2147483648, 2147483647) {
            None => None,
            Some((lat, j1)) => match expect_lit(&v, j1, ",\"lon\":") {
                None => None,
                Some(j2) => match parse_field(&v, j2, -2147483648, 2147483647) {
                    None => None,
                    Some((lon, j3)) => match expect_lit(&v, j3, ",\"alt\":") {
                        None => None,
                        Some(j4) => match parse_field(&v, j4, -2147483648, 2147483647) {
                            None => None,
                            Some((alt, j5)) => match expect_lit(&v, j5, ",\"relative_alt\":") {
                                None => None,
                                Some(j6) => match parse_field(&v, j6, -2147483648, 2147483647) {
                                    None => None,
                                    Some((relative_alt, j7)) => match expect_lit(
                                        &v,
                                        j7,
                                        ",\"vx\":",
                                    ) {
                                        None => None,
                                        Some(j8) => match parse_field(&v, j8, -32768, 32767) {
                                            None => None,
                                            Some((vx, j9)) => match expect_lit(&v, j9, ",\"vy\":") {
                                                None => None,
                                                Some(j10) => match parse_field(
                                                    &v,
                                                    j10,
                                                    -32768,
                                                    32767,
                                                ) {
                                                    None => None,
                                                    Some((vy, j11)) => match expect_lit(
                                                        &v,
                                                        j11,
                                                        ",\"vz\":",
                                                    ) {
                                                        None => None,
                                                        Some(j12) => match parse_field(
                                                            &v,
                                                            j12,
                                                            -32768,
                                                            32767,
                                                        ) {
                                                            None => None,
                                                            Some((vz, j13)) => match expect_lit(
                                                                &v,
                                                                j13,
                                                                "}}",
                                                            ) {
                                                                None => None,
                                                                Some(j14) => {
                                                                    if j14 == v.len() {
                                                                        proof {
                                                                            assert(v@.skip(
                                                                                j14 as int,
                                                                            ).len() == 0);
                                                                        }
                                                                        Some(
                                                                            CloudRiderMessage::GlobalPosition(
                                                                                GlobalPosition {
                                                                                    lat: lat as i32,
                                                                                    lon: lon as i32,
                                                                                    alt: alt as i32,
                                                                                    relative_alt: relative_alt as i32,
                                                                                    vx: vx as i16,
                                                                                    vy: vy as i16,
                                                                                    vz: vz as i16,
                                                                                },
                                                                            ),
                                                                        )
                                                                    } else {
                                                                        proof {
                                                                            assert(v@.skip(
                                                                                j14 as int,
                                                                            ).len() > 0);
                                                                        }
                                                                        None
                                                                    }
                                                                },
                                                            },
                                                        },
                                                    },
                                                },
                                            },
                                        },
                                    },
                                },
                            },
                        },
                    },
                },
            },
        }
    } else if let Some(j) = expect_lit(
        &v,
        0,
        "{\"type\":\"BatteryStatus\",\"payload\":{\"remaining_percent\":",
    ) {
        match parse_field(&v, j, -128, 127) {
            None => None,
            Some((remaining_percent, j1)) => match expect_lit(&v, j1, ",\"temperature_c\":") {
                None => None,
                Some(j2) => match parse_field(&v, j2, -32768, 32767) {
                    None => None,
                    Some((temperature_c, j3)) => match expect_lit(
                        &v,
                        j3,
                        ",\"current_battery_ma\":",
                    ) {
                        None => None,
                        Some(j4) => match parse_field(&v, j4, -32768, 32767) {
                            None => None,
                            Some((current_battery_ma, j5)) => match expect_lit(&v, j5, "}}") {
                                None => None,
                                Some(j6) => {
                                    if j6 == v.len() {
                                        proof {
                                            assert(v@.skip(j6 as int).len() == 0);
                                        }
                                        Some(
                                            CloudRiderMessage::BatteryStatus(
                                                BatteryStatus {
                                                    remaining_percent: remaining_percent as i8,
                                                    temperature_c: temperature_c as i16,
                                                    current_battery_ma: current_battery_ma as i16,
                                                },
                                            ),
                                        )
                                    } else {
                                        proof {
                                            assert(v@.skip(j6 as int).len() > 0);
                                        }
                                        None
                                    }
                                },
                            },
                        },
                    },
                },
            },
        }
    } else if let Some(j) = expect_lit(&v, 0, "{\"type\":\"Error\",\"payload\":\"") {
        match parse_jstring(&v, j) {
            None => None,
            Some((msg, j1)) => {
                match expect_lit(&v, j1, "}") {
                    None => None,
                    Some(j2) => {
                        if j2 == v.len() {
                            proof {
                                assert(v@.skip(j2 as int).len() == 0);
                            }
                            Some(CloudRiderMessage::Error(msg))
                        } else {
                            proof {
                                assert(v@.skip(j2 as int).len() > 0);
                            }
                            None
                        }
                    },
                }
            },
        }
    } else {
        None
    }
}

} // verus!
