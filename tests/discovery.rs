use milight::wifi::address::{BridgeAddress, Ipv4Address};
use milight::wifi::bridge_set::BridgeSet;
use milight::wifi::discovery::{collect_datagrams, collect_replies, listener_step, ListenerAction, PollOutcome};
use milight::wifi::reply::ReplyError;

fn strings(v: &[&str]) -> Vec<String> {
    v.iter().map(|s| s.to_string()).collect()
}

#[test]
fn same_address_collapses_to_first_reply() {
    let set = collect_replies(&strings(&[
        "192.168.1.50,ACCF23AABBCC,",
        "192.168.1.50,ACCF23DDEEFF,",
    ]))
    .unwrap();
    assert_eq!(set.len(), 1);
    assert_eq!(set.get(0).id(), "ACCF23AABBCC");
}

#[test]
fn replies_come_out_ordered_and_deduplicated() {
    let set = collect_replies(&strings(&[
        "10.0.0.9,000000000009,",
        "10.0.0.1,000000000001,",
        "10.0.0.9,00000000000A,",
        "10.0.0.5,000000000005,",
    ]))
    .unwrap();
    let v = set.into_vec();
    let ips: Vec<u32> = v.iter().map(|b| b.ip().0).collect();
    assert_eq!(ips, vec![0x0A000001, 0x0A000005, 0x0A000009]);
    assert_eq!(v[2].id(), "000000000009");
}

#[test]
fn one_malformed_reply_fails_discovery() {
    let r = collect_replies(&strings(&[
        "10.0.0.1,000000000001,",
        "garbage",
        "10.0.0.2,000000000002,",
    ]));
    assert_eq!(r.unwrap_err(), ReplyError::Format);
    let r = collect_replies(&strings(&["10.0.0.1,000000000001,", "10.0.0.300,000000000002,"]));
    assert_eq!(r.unwrap_err(), ReplyError::Address);
}

#[test]
fn no_replies_no_bridges() {
    let set = collect_replies(&Vec::new()).unwrap();
    assert!(set.is_empty());
}

#[test]
fn datagrams_are_decoded_lossily() {
    let mut first = vec![0xFFu8, 0xFE];
    first.extend_from_slice(b"192.168.1.50,ACCF23AABBCC,");
    let set = collect_datagrams(&vec![first, b"192.168.1.7,ACCF23000007,".to_vec()]).unwrap();
    assert_eq!(set.len(), 2);
    assert_eq!(set.get(0).ip(), Ipv4Address::from_octets(192, 168, 1, 7));
    assert_eq!(set.get(1).id(), "ACCF23AABBCC");
    assert_eq!(collect_datagrams(&vec![vec![0xFF, 0x00]]).unwrap_err(), ReplyError::Format);
}

#[test]
fn bridge_set_insert_keeps_first() {
    let mut set = BridgeSet::new();
    let ip = Ipv4Address::from_octets(10, 0, 0, 1);
    assert!(set.insert(BridgeAddress::new(ip, "AAAAAAAAAAAA".to_string())));
    assert!(!set.insert(BridgeAddress::new(ip, "BBBBBBBBBBBB".to_string())));
    assert!(set.insert(BridgeAddress::new(Ipv4Address::from_octets(9, 0, 0, 1), "CCCCCCCCCCCC".to_string())));
    assert_eq!(set.len(), 2);
    assert!(set.contains(ip));
    assert!(!set.contains(Ipv4Address::from_octets(10, 0, 0, 2)));
    assert_eq!(set.get(1).id(), "AAAAAAAAAAAA");
    assert_eq!(set.get(0).ip(), Ipv4Address::from_octets(9, 0, 0, 1));
}

#[test]
fn listener_decisions() {
    assert_eq!(listener_step(PollOutcome::Failed, false), ListenerAction::Abort);
    assert_eq!(listener_step(PollOutcome::Failed, true), ListenerAction::Abort);
    assert_eq!(listener_step(PollOutcome::Empty, false), ListenerAction::Continue);
    assert_eq!(listener_step(PollOutcome::Received, false), ListenerAction::Continue);
    assert_eq!(listener_step(PollOutcome::Empty, true), ListenerAction::Finish);
    assert_eq!(listener_step(PollOutcome::Received, true), ListenerAction::Finish);
}
