use ads::client::Client;
use ads::commands::{Command, IndexLength, ReadRequest, ResultLength, WriteReadRequest};
use ads::error::{length_field, Error};
use ads::netid::{AmsAddr, AmsNetId};
use ads::notif::TransmissionMode;
use ads::source::SourceInfo;
use ads::timeouts::Timeouts;

fn client() -> Client {
    let source = AmsAddr::new(AmsNetId::new(10, 0, 0, 7, 1, 1), 4000);
    Client::new(Timeouts::none(), SourceInfo::Addr(source)).unwrap()
}

#[test]
fn the_local_netid_is_that_of_the_client() {
    let mut client = client();
    assert_eq!(client.source().port(), 4000);
    let device = client.device(AmsAddr::new(AmsNetId::local(), 851));
    assert_eq!(device.address(), AmsAddr::new(AmsNetId::new(10, 0, 0, 7, 1, 1), 851));
    let again = client.device(device.address());
    assert_eq!(again.address(), device.address());
}

#[test]
fn other_addresses_are_kept() {
    let mut client = client();
    let addr = AmsAddr::new(AmsNetId::new(127, 0, 0, 1, 1, 2), 851);
    assert_eq!(client.device(addr).address(), addr);
}

#[test]
fn a_client_needs_a_port() {
    assert!(Client::new(Timeouts::none(), SourceInfo::Reply([0; 14])).is_err());
}

#[test]
fn addresses() {
    let id = AmsNetId::new(1, 2, 3, 4, 5, 6);
    assert_eq!(AmsNetId::from_slice(&[1, 2, 3, 4, 5, 6]), Some(id));
    assert_eq!(AmsNetId::from_slice(&[1, 2, 3, 4, 5]), None);
    assert_eq!(AmsNetId::from_slice(&[1, 2, 3, 4, 5, 6, 7]), None);
    let mut out = vec![9];
    AmsAddr::new(id, 0x1234).write_to(&mut out);
    assert_eq!(out, [9, 1, 2, 3, 4, 5, 6, 0x34, 0x12]);
    assert_ne!(AmsAddr::new(id, 1), AmsAddr::new(id, 2));
    assert_eq!(AmsAddr::default(), AmsAddr::new(AmsNetId::new(0, 0, 0, 0, 0, 0), 0));
}

#[test]
fn commands_have_names_and_numbers() {
    for (cmd, code, action) in [
        (Command::DevInfo, 1, "get device info"),
        (Command::Read, 2, "read data"),
        (Command::Write, 3, "write data"),
        (Command::ReadState, 4, "read state"),
        (Command::WriteControl, 5, "write control"),
        (Command::AddNotification, 6, "add notification"),
        (Command::DeleteNotification, 7, "delete notification"),
        (Command::Notification, 8, "notification"),
        (Command::ReadWrite, 9, "write and read data"),
    ] {
        assert_eq!(cmd.code(), code);
        assert_eq!(cmd.action(), action);
    }
}

#[test]
fn structures_have_their_layout() {
    let il = IndexLength { index_group: 0x01020304, index_offset: 5, length: 0xfffefdfc };
    assert_eq!(il.as_bytes(), [4, 3, 2, 1, 5, 0, 0, 0, 0xfc, 0xfd, 0xfe, 0xff]);
    let bytes = [0, 1, 0, 0, 0, 0, 2, 0, 0x80];
    let res = ResultLength::from_bytes(&bytes, 1);
    assert_eq!(res, ResultLength { result: 1, length: 0x80000200 });
    assert_eq!(res.as_bytes(), bytes[1..]);
}

#[test]
fn request_parts() {
    let mut buf = [0; 3];
    let req = ReadRequest::new(1, 2, &mut buf);
    assert_eq!(req.req, IndexLength { index_group: 1, index_offset: 2, length: 3 });
    assert_eq!(req.res, ResultLength { result: 0, length: 0 });
    assert_eq!(req.data().unwrap(), []);
    let mut buf = [0; 3];
    let req = WriteReadRequest::new(1, 2, &[1, 2], &mut buf);
    assert_eq!((req.req.read_length, req.req.write_length), (3, 2));
}

#[test]
fn transmission_modes_have_numbers() {
    assert_eq!(TransmissionMode::NoTrans.code(), 0);
    assert_eq!(TransmissionMode::ServerCycle.code(), 3);
    assert_eq!(TransmissionMode::ServerOnChange.code(), 4);
}

#[test]
fn lengths_have_32_bits() {
    assert_eq!(length_field(0xffff_ffff).unwrap(), 0xffff_ffff);
    assert!(matches!(length_field(0x1_0000_0000), Err(Error::Overflow(_))));
}
