use ads::commands::{AdsHeader, Command};
use ads::error::Error;
use ads::netid::{AmsAddr, AmsNetId};
use ads::notif::Notification;
use ads::reader::{Action, Event, Reader};

fn source() -> AmsAddr {
    AmsAddr::new(AmsNetId::new(10, 0, 0, 7, 1, 1), 0xabcd)
}

fn reader() -> Reader {
    Reader::new(source())
}

/// A packet for us with the given command, flags and data.
fn packet(command: u16, state_flags: u16, data: &[u8]) -> Vec<u8> {
    let header = AdsHeader {
        ams_cmd: 0,
        length: 32 + data.len() as u32,
        dest_netid: source().netid(),
        dest_port: source().port(),
        src_netid: AmsNetId::new(1, 2, 3, 4, 5, 6),
        src_port: 851,
        command,
        state_flags,
        data_length: data.len() as u32,
        error_code: 0,
        invoke_id: 0,
    };
    let mut packet = header.as_bytes();
    packet.extend_from_slice(data);
    packet
}

/// A notification with one stamp of two samples.
fn notification() -> Vec<u8> {
    let mut data = vec![];
    data.extend_from_slice(&[0; 4]); // length
    data.extend_from_slice(&1u32.to_le_bytes()); // stamps
    data.extend_from_slice(&[7; 8]); // timestamp
    data.extend_from_slice(&2u32.to_le_bytes()); // samples
    for (handle, bytes) in [(50u32, &[1u8, 2, 3][..]), (51, &[][..])] {
        data.extend_from_slice(&handle.to_le_bytes());
        data.extend_from_slice(&(bytes.len() as u32).to_le_bytes());
        data.extend_from_slice(bytes);
    }
    let length = data.len() as u32 - 4;
    data[..4].copy_from_slice(&length.to_le_bytes());
    packet(8, 4, &data)
}

#[test]
fn the_address_is_taken_over() {
    assert_eq!(reader().source, [10, 0, 0, 7, 1, 1, 0xcd, 0xab]);
}

#[test]
fn the_header_tells_how_much_to_read() {
    assert!(matches!(reader().run(Event::Started), Action::ReadHeader));
    let action = reader().run(Event::Header([0, 0, 4, 3, 2, 1]));
    assert!(matches!(action, Action::ReadRest(0x01020304)));
}

#[test]
fn failures_stop_the_reader() {
    assert!(matches!(reader().run(Event::NoHeader), Action::Stop));
    assert!(matches!(reader().run(Event::Refused), Action::Stop));
    let action = reader().run(Event::NoRest(Error::Locking("test")));
    assert!(matches!(action, Action::Fail(Error::Locking("test"))));
}

#[test]
fn a_reply_is_delivered() {
    let p = packet(Command::Read.code(), 5, &[1, 2, 3]);
    match reader().run(Event::Packet(p.clone())) {
        Action::Deliver(reply) => assert_eq!(reply, p),
        _ => panic!(),
    }
    assert!(matches!(reader().run(Event::Delivered), Action::ReadHeader));
}

#[test]
fn packets_for_others_are_ignored() {
    for at in [6, 11, 12, 13] {
        let mut p = packet(Command::Read.code(), 5, &[]);
        p[at] ^= 1;
        assert!(matches!(reader().run(Event::Packet(p)), Action::ReadHeader));
    }
}

#[test]
fn router_packets_are_ignored() {
    for ams_cmd in [1u16, 4096, 4097, 4098] {
        let mut p = vec![0; 6];
        p[..2].copy_from_slice(&ams_cmd.to_le_bytes());
        assert!(matches!(reader().run(Event::Packet(p)), Action::ReadHeader));
    }
    let action = reader().run(Event::Packet(vec![2, 0, 0, 0, 0, 0]));
    assert!(matches!(
        action,
        Action::Fail(Error::Reply("reading packet", "invalid packet or unknown AMS command", 2))
    ));
}

#[test]
fn inconsistent_packets_end_the_connection() {
    let mut p = packet(Command::Read.code(), 5, &[1, 2, 3]);
    p[26] = 4;
    let action = reader().run(Event::Packet(p));
    assert!(matches!(action, Action::Fail(Error::Reply("reading packet", "inconsistent packet", 0))));
}

#[test]
fn packets_without_all_fields_end_the_connection() {
    let mut p = packet(Command::Read.code(), 5, &[]);
    p.truncate(37);
    p[2] = 31;
    assert!(matches!(reader().run(Event::Packet(p)), Action::GiveUp));
    let p = packet(Command::Notification.code(), 4, &[1, 2, 3]);
    assert!(matches!(reader().run(Event::Packet(p)), Action::GiveUp));
}

#[test]
fn a_notification_is_passed_on() {
    let p = notification();
    match reader().run(Event::Packet(p.clone())) {
        Action::Notify(notif) => assert_eq!(notif.data(), p),
        _ => panic!(),
    }
    assert!(matches!(reader().run(Event::Notified), Action::ReadHeader));
}

#[test]
fn invalid_notifications_are_ignored() {
    // State flags, error code, length, number of stamps, number of samples,
    // length of a sample.
    for at in [24, 30, 38, 42, 54, 62] {
        let mut p = notification();
        p[at] ^= 1;
        assert!(matches!(reader().run(Event::Packet(p)), Action::ReadHeader));
    }
}

#[test]
fn a_notification_ends_with_its_last_sample() {
    assert!(Notification::new(notification()).is_some());
    let mut longer = notification();
    longer.push(0);
    assert!(Notification::new(longer).is_none());
    let mut shorter = notification();
    shorter.pop();
    assert!(Notification::new(shorter).is_none());
    assert!(Notification::new(vec![0; 46]).is_some());
    assert!(Notification::new(vec![0; 45]).is_none());
}
