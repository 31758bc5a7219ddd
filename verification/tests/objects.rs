use spacetrack_gateway::error::GatewayError;
use spacetrack_gateway::object::{
    deserialize_number_from_string, ObjectType, OrbitData, Satellite, WireNumber,
};
use spacetrack_gateway::text::{digit_to_char, parse_id, push_decimal};

#[test]
fn known_object_types_are_read() {
    assert_eq!(ObjectType::deserialize("ROCKET BODY"), ObjectType::RocketBody);
    assert_eq!(ObjectType::deserialize("PAYLOAD"), ObjectType::Payload);
    assert_eq!(ObjectType::deserialize("DEBRIS"), ObjectType::Debris);
    assert_eq!(ObjectType::deserialize("UNKNOWN"), ObjectType::Unknown);
}

#[test]
fn unknown_future_type_is_read_as_unknown() {
    assert_eq!(ObjectType::deserialize("UNKNOWN_FUTURE_TYPE"), ObjectType::Unknown);
    assert_eq!(ObjectType::deserialize("payload"), ObjectType::Unknown);
    assert_eq!(ObjectType::deserialize(""), ObjectType::Unknown);
    let s = Satellite::from_record(
        &WireNumber::Text("25544".to_string()),
        "UNKNOWN_FUTURE_TYPE",
        "ISS (ZARYA)".to_string(),
        "1998-11-20".to_string(),
        None,
        None,
    )
    .unwrap();
    assert_eq!(s.id, 25544);
    assert_eq!(s.object_type, ObjectType::Unknown);
    assert_eq!(s.object_name, "ISS (ZARYA)");
}

#[test]
fn record_keeps_its_fields() {
    let orbit = OrbitData::from_parts(
        Some(92.9f64.to_bits()),
        Some(51.64f64.to_bits()),
        Some(423.0f64.to_bits()),
        Some(414.0f64.to_bits()),
    );
    let s = Satellite::from_record(
        &WireNumber::Number(5),
        "ROCKET BODY",
        "VANGUARD R/B".to_string(),
        "1958-03-17".to_string(),
        Some("2200-01-01".to_string()),
        orbit,
    )
    .unwrap();
    assert_eq!(s.id, 5);
    assert_eq!(s.object_type, ObjectType::RocketBody);
    assert_eq!(s.launch, "1958-03-17");
    assert_eq!(s.decay, Some("2200-01-01".to_string()));
    assert_eq!(f64::from_bits(s.orbit.unwrap().inclination), 51.64);
    let copy = s.clone();
    assert_eq!(copy.id, 5);
    assert_eq!(copy.object_name, "VANGUARD R/B");
    assert_eq!(copy.decay, s.decay);
    assert_eq!(copy.orbit, s.orbit);
}

#[test]
fn record_with_unreadable_identifier_fails() {
    let r = Satellite::from_record(
        &WireNumber::Text("2554x".to_string()),
        "PAYLOAD",
        "ISS".to_string(),
        "1998-11-20".to_string(),
        None,
        None,
    );
    assert_eq!(r.err(), Some(GatewayError::Parse));
}

#[test]
fn identifier_arrives_as_number_or_text() {
    assert_eq!(deserialize_number_from_string(&WireNumber::Number(25544)), Ok(25544));
    assert_eq!(deserialize_number_from_string(&WireNumber::Text("25544".to_string())), Ok(25544));
    assert_eq!(deserialize_number_from_string(&WireNumber::Text("00042".to_string())), Ok(42));
    assert_eq!(
        deserialize_number_from_string(&WireNumber::Text("abc".to_string())),
        Err(GatewayError::Parse)
    );
    assert_eq!(
        deserialize_number_from_string(&WireNumber::Text(String::new())),
        Err(GatewayError::Parse)
    );
}

#[test]
fn orbit_needs_all_four_numbers() {
    let full = OrbitData::from_parts(Some(1), Some(2), Some(3), Some(4));
    assert_eq!(full, Some(OrbitData { period: 1, inclination: 2, apogee: 3, perigee: 4 }));
    assert_eq!(OrbitData::from_parts(None, Some(2), Some(3), Some(4)), None);
    assert_eq!(OrbitData::from_parts(Some(1), None, Some(3), Some(4)), None);
    assert_eq!(OrbitData::from_parts(Some(1), Some(2), None, Some(4)), None);
    assert_eq!(OrbitData::from_parts(Some(1), Some(2), Some(3), None), None);
    assert_eq!(OrbitData::from_parts(None, None, None, None), None);
}

#[test]
fn parse_id_reads_decimal_text() {
    assert_eq!(parse_id("25544"), Some(25544));
    assert_eq!(parse_id("0"), Some(0));
    assert_eq!(parse_id("+7"), Some(7));
    assert_eq!(parse_id("007"), Some(7));
    assert_eq!(parse_id(""), None);
    assert_eq!(parse_id("+"), None);
    assert_eq!(parse_id("-1"), None);
    assert_eq!(parse_id("12a"), None);
    assert_eq!(parse_id(" 12"), None);
    assert_eq!(parse_id("1_000"), None);
    assert_eq!(parse_id("340282366920938463463374607431768211456"), None);
    assert_eq!(parse_id(&usize::MAX.to_string()), Some(usize::MAX));
}

#[test]
fn push_decimal_appends_the_digits() {
    let mut s = String::from("id=");
    push_decimal(&mut s, 0);
    assert_eq!(s, "id=0");
    push_decimal(&mut s, 25544);
    assert_eq!(s, "id=025544");
    let mut t = String::new();
    push_decimal(&mut t, usize::MAX);
    assert_eq!(t, usize::MAX.to_string());
    assert_eq!(digit_to_char(0), '0');
    assert_eq!(digit_to_char(9), '9');
}

#[test]
fn errors_describe_themselves() {
    assert_eq!(
        GatewayError::Transport.describe(),
        "transport error: the remote service could not be reached"
    );
    assert_eq!(GatewayError::Auth.describe(), "authentication failed");
    assert_eq!(GatewayError::Upstream(503).describe(), "upstream error: status 503");
    assert_eq!(
        GatewayError::Parse.describe(),
        "parse error: malformed data from the remote service"
    );
}

#[test]
fn parse_id_agrees_with_the_standard_parser() {
    let max = usize::MAX.to_string();
    let over = format!("{}0", max);
    let next = "18446744073709551616";
    let inputs = [
        "", "+", "-", "0", "+0", "-0", "++1", "+-1", "1+", "9", "10", "0000", "25544", "+25544",
        "25 544", "25544 ", "\u{663}", "1\u{e9}", "\u{e9}1", "+\u{e9}", "0x10", "1e3", "1.0",
        max.as_str(), over.as_str(), next, "18446744073709551615", "18446744073709551614",
        "99999999999999999999", "000000000000000000000000000001",
    ];
    for text in inputs {
        assert_eq!(parse_id(text), text.parse::<usize>().ok(), "on {:?}", text);
    }
}
