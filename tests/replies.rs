use milight::wifi::address::{BridgeAddress, Ipv4Address};
use milight::wifi::reply::{parse_bridge_response, ReplyError};

#[test]
fn parses_plain_reply() {
    let b = parse_bridge_response("192.168.1.50,ACCF23AABBCC,").unwrap();
    assert_eq!(b.ip(), Ipv4Address::from_octets(192, 168, 1, 50));
    assert_eq!(b.ip().0, 0xC0A80132);
    assert_eq!(b.id(), "ACCF23AABBCC");
}

#[test]
fn rejects_text_without_reply() {
    assert_eq!(parse_bridge_response("not-a-reply").unwrap_err(), ReplyError::Format);
    assert_eq!(parse_bridge_response("").unwrap_err(), ReplyError::Format);
}

#[test]
fn finds_reply_inside_text() {
    let b = parse_bridge_response("HF-A11 10.0.0.2,ACCF23000001,XYZ").unwrap();
    assert_eq!(b.ip(), Ipv4Address::from_octets(10, 0, 0, 2));
    assert_eq!(b.id(), "ACCF23000001");
}

#[test]
fn first_match_wins() {
    let b = parse_bridge_response("1.2.3.4,000000000001,5.6.7.8,000000000002,").unwrap();
    assert_eq!(b.ip(), Ipv4Address::from_octets(1, 2, 3, 4));
    assert_eq!(b.id(), "000000000001");
}

#[test]
fn lower_case_identifier_is_no_reply() {
    assert_eq!(
        parse_bridge_response("192.168.1.50,accf23aabbcc,").unwrap_err(),
        ReplyError::Format
    );
    assert_eq!(
        parse_bridge_response("192.168.1.50,ACCF23AABBC,").unwrap_err(),
        ReplyError::Format
    );
    assert_eq!(parse_bridge_response("192.168.1,ACCF23AABBCC,").unwrap_err(), ReplyError::Format);
}

#[test]
fn bad_address_text() {
    assert_eq!(
        parse_bridge_response("192.168.1.256,ACCF23AABBCC,").unwrap_err(),
        ReplyError::Address
    );
    assert_eq!(
        parse_bridge_response("192.168.01.5,ACCF23AABBCC,").unwrap_err(),
        ReplyError::Address
    );
    assert_eq!(
        parse_bridge_response("1920.168.1.5,ACCF23AABBCC,").unwrap_err(),
        ReplyError::Address
    );
}

#[test]
fn zero_and_top_octets() {
    let b = parse_bridge_response("0.255.0.255,FFFFFFFFFFFF,").unwrap();
    assert_eq!(b.ip().0, 0x00FF00FF);
}

#[test]
fn equality_and_order_by_address_only() {
    let a = BridgeAddress::new(Ipv4Address::from_octets(10, 0, 0, 1), "AAAAAAAAAAAA".to_string());
    let b = BridgeAddress::new(Ipv4Address::from_octets(10, 0, 0, 1), "BBBBBBBBBBBB".to_string());
    let c = BridgeAddress::new(Ipv4Address::from_octets(10, 0, 0, 2), "AAAAAAAAAAAA".to_string());
    assert!(a == b);
    assert!(a != c);
    assert!(a < c);
    assert_eq!(a.partial_cmp(&b), Some(std::cmp::Ordering::Equal));
    assert_eq!(c.partial_cmp(&a), Some(std::cmp::Ordering::Greater));
}

#[test]
fn command_target_uses_command_port() {
    let a = BridgeAddress::new(Ipv4Address::from_octets(10, 0, 0, 1), "AAAAAAAAAAAA".to_string());
    assert_eq!(a.command_target(), (Ipv4Address::from_octets(10, 0, 0, 1), 8899));
}

#[test]
fn non_ascii_digit_field_is_an_address_error() {
    assert_eq!(
        parse_bridge_response("\u{661}.1.1.1,ACCF23AABBCC,").unwrap_err(),
        ReplyError::Address
    );
    assert_eq!(
        parse_bridge_response("\u{661}1.2.3.4,ACCF23AABBCC,").unwrap_err(),
        ReplyError::Address
    );
    assert_eq!(
        parse_bridge_response("1.2.3.\u{FF14},ACCF23AABBCC,").unwrap_err(),
        ReplyError::Address
    );
}

#[test]
fn non_digit_before_address_is_skipped() {
    let b = parse_bridge_response("\u{663}x1.2.3.4,ACCF23AABBCC,").unwrap();
    assert_eq!(b.ip(), Ipv4Address::from_octets(1, 2, 3, 4));
}

/// IPv4 text as std reads it: four fields of ASCII digits, each under 256 and
/// without a leading zero.
fn dotted_quad(text: &str) -> Option<u32> {
    let mut value: u32 = 0;
    for field in text.split('.') {
        if field.len() > 1 && field.starts_with('0') {
            return None;
        }
        let octet = field.parse::<u8>().ok()?;
        value = (value << 8) | octet as u32;
    }
    Some(value)
}

#[test]
fn agrees_with_regular_expression() {
    let pattern =
        regex::Regex::new(r"(?P<ip>\d+\.\d+\.\d+\.\d+),(?P<macaddr>[0-9A-F]{12}),").unwrap();
    let samples = [
        "192.168.1.50,ACCF23AABBCC,",
        "not-a-reply",
        "\u{661}.1.1.1,ACCF23AABBCC,",
        "\u{661}1.2.3.4,ACCF23AABBCC,",
        "\u{1D7CE}9.1.1.1,ACCF23AABBCC,",
        "x.1.2.3.4,ACCF23AABBCC,",
        "1.2.3.4.5,ACCF23AABBCC,",
        "01.2.3.4,ACCF23AABBCC,",
        "1.2.3.4,ACCF23AABBCC",
        "1.2.3.4,ACCF23AABBCCD,5.6.7.8,000000000000,",
        "255.255.255.255,FFFFFFFFFFFF,",
    ];
    for text in samples.iter() {
        let expected = match pattern.captures(text) {
            None => Err(ReplyError::Format),
            Some(caps) => match dotted_quad(&caps["ip"]) {
                Some(ip) => Ok((ip, caps["macaddr"].to_string())),
                None => Err(ReplyError::Address),
            },
        };
        let got = parse_bridge_response(text).map(|b| (b.ip().0, b.id().to_string()));
        assert_eq!(got, expected, "reply {:?}", text);
    }
}
