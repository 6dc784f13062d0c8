use std::time::Duration;

use ads::closing::Closing;
use ads::commands::{AdsHeader, Command};
use ads::comms::{is_complete, Call, Comms};
use ads::error::Error;
use ads::netid::{AmsAddr, AmsNetId};
use ads::source::{SourceInfo, AUTO_PORT, REQUEST_PORT_MSG};
use ads::timeouts::Timeouts;

fn target() -> AmsAddr {
    AmsAddr::new(AmsNetId::new(5, 32, 116, 5, 1, 1), 851)
}

fn source() -> AmsAddr {
    AmsAddr::new(AmsNetId::new(10, 0, 0, 7, 1, 1), 0xabcd)
}

fn comms() -> Comms {
    Comms::new(Timeouts::none(), SourceInfo::Addr(source())).unwrap()
}

/// The reply of the target to a request, with the given fields behind the
/// header.
fn reply(call: &Call, error_code: u32, data: &[u8]) -> Vec<u8> {
    let header = AdsHeader {
        ams_cmd: 0,
        length: 32 + data.len() as u32,
        dest_netid: source().netid(),
        dest_port: source().port(),
        src_netid: call.target.netid(),
        src_port: call.target.port(),
        command: call.cmd.code(),
        state_flags: 5,
        data_length: data.len() as u32,
        error_code,
        invoke_id: call.invoke_id,
    };
    let mut packet = header.as_bytes();
    packet.extend_from_slice(data);
    packet
}

#[test]
fn a_request_has_all_its_fields() {
    let mut comms = comms();
    comms.invoke_id = 0x01020304;
    let call = comms.request(Command::ReadWrite, target(), &[&[1, 2], &[], &[3]]).unwrap();
    let expected: [u8; 41] = [
        0, 0, 35, 0, 0, 0, // AMS/TCP header
        5, 32, 116, 5, 1, 1, 0x53, 3, // target
        10, 0, 0, 7, 1, 1, 0xcd, 0xab, // source
        9, 0, 4, 0, // command, state flags
        3, 0, 0, 0, // length
        0, 0, 0, 0, // error code
        4, 3, 2, 1, // invoke ID
        1, 2, 3, // data
    ];
    assert_eq!(call.request, expected);
    assert_eq!(call.invoke_id, 0x01020304);
    assert_eq!(call.cmd, Command::ReadWrite);
    assert_eq!(call.target, target());
}

#[test]
fn invoke_ids_count_up_and_start_over() {
    let mut comms = comms();
    assert_eq!(comms.request(Command::Read, target(), &[]).unwrap().invoke_id, 0);
    assert_eq!(comms.request(Command::Read, target(), &[]).unwrap().invoke_id, 1);
    comms.invoke_id = u32::MAX;
    assert_eq!(comms.request(Command::Read, target(), &[]).unwrap().invoke_id, u32::MAX);
    assert_eq!(comms.invoke_id, 0);
}

#[test]
fn the_data_of_a_reply_fills_the_buffers_in_order() {
    let call = comms().request(Command::Read, target(), &[]).unwrap();
    let packet = reply(&call, 0, &[0, 0, 0, 0, 1, 2, 3, 4, 5, 6]);
    let mut a = [9; 2];
    let mut b = [9; 0];
    let mut c = [9; 3];
    let mut d = [9; 3];
    let mut e = [9; 1];
    let n = Comms::communicate(&call, &packet, &mut [&mut a, &mut b, &mut c, &mut d, &mut e]);
    assert_eq!(n.unwrap(), 6);
    assert_eq!(a, [1, 2]);
    assert_eq!(c, [3, 4, 5]);
    assert_eq!(d, [6, 9, 9]);
    assert_eq!(e, [9]);
}

#[test]
fn more_data_than_wanted_is_counted() {
    let call = comms().request(Command::Read, target(), &[]).unwrap();
    let packet = reply(&call, 0, &[0, 0, 0, 0, 1, 2, 3]);
    let mut a = [0; 2];
    assert_eq!(Comms::communicate(&call, &packet, &mut [&mut a]).unwrap(), 3);
    assert_eq!(a, [1, 2]);
}

#[test]
fn no_buffers_no_data() {
    let call = comms().request(Command::Write, target(), &[]).unwrap();
    let packet = reply(&call, 0, &[0, 0, 0, 0, 1, 2, 3]);
    assert_eq!(Comms::communicate(&call, &packet, &mut []).unwrap(), 0);
    let packet = reply(&call, 0, &[]);
    assert_eq!(Comms::communicate(&call, &packet, &mut []).unwrap(), 0);
}

#[test]
fn each_mismatch_has_its_error() {
    let call = comms().request(Command::Read, target(), &[]).unwrap();
    let good = reply(&call, 0, &[0, 0, 0, 0]);
    let action = "read data";
    for (at, what, code) in [
        (14, "unexpected source address", 0),
        (21, "unexpected source address", 0),
        (22, "unexpected command", 3),
        (24, "unexpected state flags", 4),
        (34, "unexpected invoke ID", 1),
    ] {
        let mut bad = good.clone();
        bad[at] ^= 1;
        match Comms::communicate(&call, &bad, &mut []) {
            Err(Error::Reply(a, w, c)) => assert_eq!((a, w, c), (action, what, code)),
            _ => panic!("{} not found", what),
        }
    }
}

#[test]
fn errors_of_the_device_come_back() {
    let call = comms().request(Command::WriteControl, target(), &[]).unwrap();
    let r = Comms::communicate(&call, &reply(&call, 6, &[7, 0, 0, 0]), &mut []);
    assert!(matches!(r, Err(Error::Ads("write control", 6))));
    let r = Comms::communicate(&call, &reply(&call, 0, &[7, 0, 0, 0]), &mut []);
    assert!(matches!(r, Err(Error::Ads("write control", 7))));
    let r = Comms::communicate(&call, &reply(&call, 6, &[]), &mut []);
    assert!(matches!(r, Err(Error::Ads("write control", 6))));
}

#[test]
fn too_little_data_leaves_the_buffers_alone() {
    let call = comms().request(Command::Read, target(), &[]).unwrap();
    let mut a = [9; 4];
    let r = Comms::communicate(&call, &reply(&call, 0, &[0, 0, 0, 0, 1, 2, 3]), &mut [&mut a]);
    assert!(matches!(r, Err(Error::Reply("read data", "got less data than expected", 7))));
    assert_eq!(a, [9; 4]);
    let r = Comms::communicate(&call, &reply(&call, 0, &[]), &mut [&mut []]);
    assert!(matches!(r, Err(Error::Reply("read data", "got less data than expected", 0))));
}

#[test]
fn a_reply_is_for_one_request() {
    let mut comms = comms();
    let first = comms.request(Command::Read, target(), &[]).unwrap();
    let second = comms.request(Command::Read, target(), &[]).unwrap();
    let packet = reply(&first, 0, &[0, 0, 0, 0]);
    assert!(Comms::communicate(&first, &packet, &mut []).is_ok());
    assert!(Comms::communicate(&second, &packet, &mut []).is_err());
}

#[test]
fn a_given_source_is_used() {
    let timeouts = Timeouts::new(Duration::from_secs(3));
    let comms = Comms::new(timeouts, SourceInfo::Addr(source())).unwrap();
    assert_eq!(comms.source(), source());
    assert!(!comms.source_port_opened);
    assert_eq!(comms.read_timeout, Some(Duration::from_secs(3)));
    assert_eq!(timeouts.connect, Some(Duration::from_secs(3)));
    assert_eq!(timeouts.write, Some(Duration::from_secs(3)));
    assert_eq!(comms.invoke_id, 0);
}

#[test]
fn the_local_address_makes_a_source() {
    let comms = Comms::new(Timeouts::none(), SourceInfo::Local(Some([192, 168, 1, 9]))).unwrap();
    assert_eq!(comms.source(), AmsAddr::new(AmsNetId::new(192, 168, 1, 9, 1, 1), 58913));
    assert_eq!(AUTO_PORT, 58913);
    assert_eq!(comms.read_timeout, None);
    let comms = Comms::new(Timeouts::none(), SourceInfo::Local(None)).unwrap();
    assert_eq!(comms.source(), AmsAddr::new(AmsNetId::local(), 58913));
}

#[test]
fn a_router_opens_a_port() {
    assert_eq!(REQUEST_PORT_MSG, [0, 16, 2, 0, 0, 0, 0, 0]);
    let msg = [0, 16, 8, 0, 0, 0, 1, 2, 3, 4, 5, 6, 0x34, 0x12];
    let comms = Comms::new(Timeouts::none(), SourceInfo::Reply(msg)).unwrap();
    assert_eq!(comms.source(), AmsAddr::new(AmsNetId::new(1, 2, 3, 4, 5, 6), 0x1234));
    assert!(comms.source_port_opened);
    let msg = [0, 16, 9, 0, 0, 0, 1, 2, 3, 4, 5, 6, 0x34, 0x12];
    assert!(matches!(
        Comms::new(Timeouts::none(), SourceInfo::Reply(msg)),
        Err(Error::Reply("requesting port", "unexpected reply header", 0))
    ));
}

#[test]
fn closing_deletes_notifications_and_closes_the_port() {
    let msg = [0, 16, 8, 0, 0, 0, 1, 2, 3, 4, 5, 6, 0x34, 0x12];
    let mut comms = Comms::new(Timeouts::none(), SourceInfo::Reply(msg)).unwrap();
    comms.notif_handles.insert(target(), 77);
    comms.notif_handles.insert(target(), 78);
    comms.notif_handles.insert(target(), 77);
    let mut deleted = vec![];
    for _ in 0..2 {
        match comms.close() {
            Closing::DeleteNotification(call) => {
                assert_eq!(call.cmd, Command::DeleteNotification);
                assert_eq!(call.target, target());
                assert_eq!(call.request.len(), 42);
                deleted.push(call.request[38]);
            }
            _ => panic!(),
        }
    }
    deleted.sort();
    assert_eq!(deleted, [77, 78]);
    assert!(matches!(comms.close(), Closing::ClosePort([1, 0, 2, 0, 0, 0, 0x34, 0x12])));
    assert!(matches!(comms.close(), Closing::Shutdown));
    assert!(matches!(comms.close(), Closing::Shutdown));
}

#[test]
fn a_port_that_was_not_opened_is_not_closed() {
    assert!(matches!(comms().close(), Closing::Shutdown));
}

#[test]
fn handles_are_a_set() {
    let mut comms = comms();
    let handles = &mut comms.notif_handles;
    handles.insert(target(), 1);
    handles.insert(source(), 1);
    assert!(handles.contains(target(), 1));
    assert!(!handles.contains(target(), 2));
    handles.remove(target(), 1);
    handles.remove(target(), 1);
    assert!(!handles.contains(target(), 1));
    assert_eq!(handles.pop(), Some((source(), 1)));
    assert_eq!(handles.pop(), None);
}

#[test]
fn a_packet_holds_what_its_header_says() {
    let call = comms().request(Command::Read, target(), &[&[1, 2]]).unwrap();
    assert!(is_complete(&call.request));
    assert!(!is_complete(&call.request[..39]));
    assert!(!is_complete(&[0; 37]));
    assert!(is_complete(&[0; 38]));
}
