use std::time::Duration;

use ads::commands::{AdsHeader, Command};
use ads::comms::{Call, Comms};
use ads::device::Device;
use ads::error::Error;
use ads::netid::{AmsAddr, AmsNetId};
use ads::notif::{Attributes, TransmissionMode};
use ads::source::SourceInfo;
use ads::state::AdsState;
use ads::timeouts::Timeouts;

fn device() -> Device {
    Device::new(AmsAddr::new(AmsNetId::new(1, 2, 3, 4, 5, 6), 851))
}

fn comms() -> Comms {
    Comms::new(Timeouts::none(), SourceInfo::Local(None)).unwrap()
}

/// A successful reply with the given data.
fn reply(call: &Call, data: &[u8]) -> Vec<u8> {
    let header = AdsHeader {
        ams_cmd: 0,
        length: 36 + data.len() as u32,
        dest_netid: AmsNetId::local(),
        dest_port: 58913,
        src_netid: call.target.netid(),
        src_port: call.target.port(),
        command: call.cmd.code(),
        state_flags: 5,
        data_length: 4 + data.len() as u32,
        error_code: 0,
        invoke_id: call.invoke_id,
    };
    let mut packet = header.as_bytes();
    packet.extend_from_slice(&[0; 4]);
    packet.extend_from_slice(data);
    packet
}

/// A reply with an error code.
fn failure(call: &Call, code: u32) -> Vec<u8> {
    let mut packet = reply(call, &[]);
    packet[38..42].copy_from_slice(&code.to_le_bytes());
    packet
}

#[test]
fn device_info() {
    let call = device().get_info_request(&mut comms()).unwrap();
    assert_eq!(call.cmd, Command::DevInfo);
    assert_eq!(call.target, device().address());
    assert_eq!(call.request.len(), 38);
    let mut data = *b"\x03\x01\x22\x11Plc30 App\0\0\0\0\0\0\0";
    let info = Device::get_info(&call, &reply(&call, &data)).unwrap();
    assert_eq!((info.major, info.minor, info.version), (3, 1, 0x1122));
    assert_eq!(info.name, "Plc30 App");
    data[4..].copy_from_slice(b"\xe4xxxxxxxxxxxxxxx");
    let info = Device::get_info(&call, &reply(&call, &data)).unwrap();
    assert_eq!(info.name, "\u{e4}xxxxxxxxxxxxxxx");
    let short = Device::get_info(&call, &reply(&call, &data[..19]));
    assert!(matches!(
        short,
        Err(Error::Reply("get device info", "got less data than expected", 23))
    ));
}

#[test]
fn reading() {
    let call = device().read_request(&mut comms(), 0x4020, 0x10203, 6).unwrap();
    assert_eq!(call.cmd, Command::Read);
    assert_eq!(call.request[38..], [0x20, 0x40, 0, 0, 3, 2, 1, 0, 6, 0, 0, 0]);
    let mut data = [9; 6];
    let n = Device::read(&call, &reply(&call, &[4, 0, 0, 0, 1, 2, 3, 4]), &mut data).unwrap();
    assert_eq!(n, 4);
    assert_eq!(data, [1, 2, 3, 4, 9, 9]);
    let r = Device::read(&call, &failure(&call, 0x703), &mut data);
    assert!(matches!(r, Err(Error::Ads("read data", 0x703))));
    assert_eq!(data, [1, 2, 3, 4, 9, 9]);
}

#[test]
fn reading_exactly() {
    let call = device().read_request(&mut comms(), 1, 2, 3).unwrap();
    let mut data = [0; 3];
    Device::read_exact(&call, &reply(&call, &[3, 0, 0, 0, 7, 8, 9]), &mut data).unwrap();
    assert_eq!(data, [7, 8, 9]);
    let r = Device::read_exact(&call, &reply(&call, &[2, 0, 0, 0, 7, 8]), &mut data);
    assert!(matches!(r, Err(Error::Reply("read data", "got less data than expected", 2))));
}

#[test]
fn writing() {
    let call = device().write_request(&mut comms(), 1, 2, &[5, 6]).unwrap();
    assert_eq!(call.cmd, Command::Write);
    assert_eq!(call.request[38..], [1, 0, 0, 0, 2, 0, 0, 0, 2, 0, 0, 0, 5, 6]);
    assert!(Device::write(&call, &reply(&call, &[])).is_ok());
    let r = Device::write(&call, &failure(&call, 9));
    assert!(matches!(r, Err(Error::Ads("write data", 9))));
}

#[test]
fn writing_and_reading() {
    let call = device().write_read_request(&mut comms(), 1, 2, &[5, 6, 7], 4).unwrap();
    assert_eq!(call.cmd, Command::ReadWrite);
    assert_eq!(
        call.request[38..],
        [1, 0, 0, 0, 2, 0, 0, 0, 4, 0, 0, 0, 3, 0, 0, 0, 5, 6, 7]
    );
    let mut data = [9; 4];
    let packet = reply(&call, &[2, 0, 0, 0, 1, 2]);
    assert_eq!(Device::write_read(&call, &packet, &mut data).unwrap(), 2);
    assert_eq!(data, [1, 2, 9, 9]);
    let r = Device::write_read_exact(&call, &packet, &mut data);
    assert!(matches!(r, Err(Error::Reply("write/read data", "got less data than expected", 2))));
    let packet = reply(&call, &[4, 0, 0, 0, 1, 2, 3, 4]);
    Device::write_read_exact(&call, &packet, &mut data).unwrap();
    assert_eq!(data, [1, 2, 3, 4]);
}

#[test]
fn device_state() {
    let call = device().get_state_request(&mut comms()).unwrap();
    assert_eq!(call.cmd, Command::ReadState);
    let state = Device::get_state(&call, &reply(&call, &[5, 0, 2, 1])).unwrap();
    assert_eq!(state, (AdsState::Run, 0x102));
    let r = Device::get_state(&call, &reply(&call, &[20, 0, 0, 0]));
    assert!(matches!(r, Err(Error::Reply("read state", "invalid state constant", 20))));
}

#[test]
fn setting_the_state() {
    let call = device().write_control_request(&mut comms(), AdsState::Config, 0x102).unwrap();
    assert_eq!(call.cmd, Command::WriteControl);
    assert_eq!(call.request[38..], [15, 0, 2, 1, 0, 0, 0, 0]);
    assert!(Device::write_control(&call, &reply(&call, &[])).is_ok());
    assert!(Device::write_control(&call, &failure(&call, 1)).is_err());
}

#[test]
fn states_have_numbers() {
    for code in 0..20 {
        assert_eq!(AdsState::from_code(code).unwrap().code(), code);
    }
    assert_eq!(AdsState::from_code(20), None);
    assert_eq!(AdsState::Exception.code(), 19);
}

#[test]
fn notifications_come_and_go() {
    let mut comms = comms();
    let attributes = Attributes::new(
        8,
        TransmissionMode::ServerOnChange,
        Duration::from_millis(1500),
        Duration::from_micros(2999),
    );
    let call = device().add_notification_request(&mut comms, 1, 2, &attributes).unwrap();
    assert_eq!(call.cmd, Command::AddNotification);
    let mut expected = vec![1, 0, 0, 0, 2, 0, 0, 0, 8, 0, 0, 0, 4, 0, 0, 0, 0xdc, 5, 0, 0, 2, 0, 0, 0];
    expected.resize(40, 0);
    assert_eq!(call.request[38..], expected);
    let r = Device::add_notification(&mut comms, &call, &failure(&call, 1));
    assert!(matches!(r, Err(Error::Ads("add notification", 1))));
    let handle = Device::add_notification(&mut comms, &call, &reply(&call, &[0x44, 0x33, 0, 0])).unwrap();
    assert_eq!(handle, 0x3344);
    assert!(comms.notif_handles.contains(device().addr, handle));

    let call = device().delete_notification_request(&mut comms, handle).unwrap();
    assert_eq!(call.cmd, Command::DeleteNotification);
    assert_eq!(call.request[38..], [0x44, 0x33, 0, 0]);
    assert!(Device::delete_notification(&mut comms, &call, &failure(&call, 1), handle).is_err());
    assert!(comms.notif_handles.contains(device().addr, handle));
    Device::delete_notification(&mut comms, &call, &reply(&call, &[]), handle).unwrap();
    assert!(!comms.notif_handles.contains(device().addr, handle));
}

#[test]
fn a_delay_that_does_not_fit_is_an_overflow() {
    let mut comms = comms();
    let long = Duration::from_millis(1 << 32);
    let short = Duration::from_millis((1 << 32) - 1);
    let mode = TransmissionMode::ServerCycle;
    for attributes in [Attributes::new(1, mode, long, short), Attributes::new(1, mode, short, long)] {
        let r = device().add_notification_request(&mut comms, 1, 2, &attributes);
        assert!(matches!(r, Err(Error::Overflow(_))));
    }
    assert_eq!(comms.invoke_id, 0);
    let attributes = Attributes::new(1, mode, short, short);
    assert!(device().add_notification_request(&mut comms, 1, 2, &attributes).is_ok());
}

#[test]
fn a_length_that_does_not_fit_is_an_overflow() {
    let mut comms = comms();
    let r = device().read_request(&mut comms, 1, 2, 1 << 32);
    assert!(matches!(r, Err(Error::Overflow(_))));
    let r = device().write_read_request(&mut comms, 1, 2, &[], 1 << 32);
    assert!(matches!(r, Err(Error::Overflow(_))));
    assert_eq!(comms.invoke_id, 0);
}

#[test]
fn the_length_of_a_read_is_that_of_the_data() {
    let call = device().read_request(&mut comms(), 1, 2, 4).unwrap();
    // The length field, the data, and the length that is returned.
    for (field, bytes, n) in [
        (4, &[1u8, 2][..], 2),
        (4, &[][..], 0),
        (2, &[1, 2, 3, 4][..], 2),
        (6, &[1, 2, 3, 4, 5, 6][..], 6),
        (9, &[1, 2, 3, 4, 5, 6][..], 6),
        (4, &[1, 2, 3, 4][..], 4),
    ] {
        let mut data = vec![field, 0, 0, 0];
        data.extend_from_slice(bytes);
        let packet = reply(&call, &data);
        let mut buf = [9; 4];
        assert_eq!(Device::read(&call, &packet, &mut buf).unwrap(), n);
        assert_eq!(buf[..n.min(4)], bytes[..n.min(4)]);
        let mut buf = [9; 4];
        assert_eq!(Device::write_read(&call, &packet, &mut buf).unwrap(), n);
        assert_eq!(buf[..n.min(4)], bytes[..n.min(4)]);
    }
}

#[test]
fn an_exact_read_needs_all_the_data() {
    let call = device().read_request(&mut comms(), 1, 2, 4).unwrap();
    let mut buf = [7; 4];
    for data in [&[4, 0, 0, 0][..], &[4, 0, 0, 0, 1, 2, 3][..], &[4, 0, 0, 0, 1, 2, 3, 4, 5][..]] {
        let packet = reply(&call, data);
        let r = Device::read_exact(&call, &packet, &mut buf);
        assert!(matches!(r, Err(Error::Reply("read data", "got less data than expected", 4))));
        let r = Device::write_read_exact(&call, &packet, &mut buf);
        assert!(matches!(r, Err(Error::Reply("write/read data", "got less data than expected", 4))));
    }
    let packet = reply(&call, &[4, 0, 0, 0, 1, 2, 3, 4]);
    Device::read_exact(&call, &packet, &mut buf).unwrap();
    assert_eq!(buf, [1, 2, 3, 4]);
}
