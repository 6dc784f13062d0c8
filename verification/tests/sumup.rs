use std::time::Duration;

use ads::commands::{
    AddNotifRequest, AdsHeader, DelNotifRequest, ReadRequest, WriteReadRequest, WriteRequest,
};
use ads::comms::{Call, Comms};
use ads::device::Device;
use ads::error::Error;
use ads::index;
use ads::netid::{AmsAddr, AmsNetId};
use ads::notif::{Attributes, TransmissionMode};
use ads::source::SourceInfo;
use ads::timeouts::Timeouts;

fn device() -> Device {
    Device::new(AmsAddr::new(AmsNetId::new(1, 2, 3, 4, 5, 6), 851))
}

fn comms() -> Comms {
    Comms::new(Timeouts::none(), SourceInfo::Local(None)).unwrap()
}

/// A successful reply with the given words, and then the given bytes.
fn reply(call: &Call, words: &[u32], bytes: &[u8]) -> Vec<u8> {
    let mut data = vec![0; 4];
    for word in words {
        data.extend_from_slice(&word.to_le_bytes());
    }
    data.extend_from_slice(bytes);
    let header = AdsHeader {
        ams_cmd: 0,
        length: 32 + data.len() as u32,
        dest_netid: AmsNetId::local(),
        dest_port: 58913,
        src_netid: call.target.netid(),
        src_port: call.target.port(),
        command: call.cmd.code(),
        state_flags: 5,
        data_length: data.len() as u32,
        error_code: 0,
        invoke_id: call.invoke_id,
    };
    let mut packet = header.as_bytes();
    packet.extend_from_slice(&data);
    packet
}

/// The words behind the header of a request.
fn words(call: &Call, n: usize) -> Vec<u32> {
    call.request[38..38 + 4 * n]
        .chunks(4)
        .map(|c| u32::from_le_bytes(c.try_into().unwrap()))
        .collect()
}

#[test]
fn several_reads() {
    let mut a = [9; 2];
    let mut b = [9; 3];
    let reqs = &mut [ReadRequest::new(1, 2, &mut a), ReadRequest::new(3, 4, &mut b)];
    let call = device().read_multi_request(&mut comms(), reqs).unwrap();
    assert_eq!(words(&call, 10), [index::SUMUP_READ_EX, 2, 21, 24, 1, 2, 2, 3, 4, 3]);
    assert_eq!(call.request.len(), 38 + 40);
    let packet = reply(&call, &[21, 0, 2, 0x702, 1], &[10, 11, 20, 21, 22]);
    Device::read_multi(&call, &packet, reqs).unwrap();
    assert_eq!(reqs[0].data().unwrap(), [10, 11]);
    assert!(matches!(reqs[1].data(), Err(Error::Ads("multi-read data", 0x702))));
    assert_eq!(a, [10, 11]);
    assert_eq!(b, [20, 21, 22]);
}

#[test]
fn a_short_reply_leaves_the_later_buffers_alone() {
    let mut a = [9; 2];
    let mut b = [9; 3];
    let reqs = &mut [ReadRequest::new(1, 2, &mut a), ReadRequest::new(3, 4, &mut b)];
    let call = device().read_multi_request(&mut comms(), reqs).unwrap();
    Device::read_multi(&call, &reply(&call, &[0, 5, 6, 0, 1], &[10]), reqs).unwrap();
    assert_eq!((reqs[0].res.result, reqs[0].res.length), (5, 6));
    assert_eq!((reqs[1].res.result, reqs[1].res.length), (0, 1));
    assert_eq!(reqs[1].data().unwrap(), [9]);
    assert_eq!(a, [10, 9]);
    assert_eq!(b, [9; 3]);
}

#[test]
fn a_failed_sum_up_leaves_everything_alone() {
    let mut a = [9; 2];
    let reqs = &mut [ReadRequest::new(1, 2, &mut a)];
    let call = device().read_multi_request(&mut comms(), reqs).unwrap();
    let mut packet = reply(&call, &[10, 0, 2], &[1, 2]);
    packet[38] = 1;
    let r = Device::read_multi(&call, &packet, reqs);
    assert!(matches!(r, Err(Error::Ads("write and read data", 1))));
    assert_eq!(reqs[0].res.length, 0);
    assert_eq!(a, [9; 2]);
}

#[test]
fn several_writes() {
    let reqs = &mut [WriteRequest::new(1, 2, &[10, 11]), WriteRequest::new(3, 4, &[20])];
    let call = device().write_multi_request(&mut comms(), reqs).unwrap();
    assert_eq!(words(&call, 10), [index::SUMUP_WRITE, 2, 8, 27, 1, 2, 2, 3, 4, 1]);
    assert_eq!(call.request[78..], [10, 11, 20]);
    Device::write_multi(&call, &reply(&call, &[8, 0, 0x704], &[]), reqs).unwrap();
    assert!(reqs[0].ensure().is_ok());
    assert!(matches!(reqs[1].ensure(), Err(Error::Ads("multi-write data", 0x704))));
}

#[test]
fn several_writes_and_reads() {
    let mut a = [9; 4];
    let mut b = [9; 4];
    let mut c = [9; 4];
    let reqs = &mut [
        WriteReadRequest::new(1, 2, &[100], &mut a),
        WriteReadRequest::new(3, 4, &[], &mut b),
        WriteReadRequest::new(5, 6, &[101, 102], &mut c),
    ];
    let call = device().write_read_multi_request(&mut comms(), reqs).unwrap();
    assert_eq!(
        words(&call, 16),
        [index::SUMUP_READWRITE, 3, 36, 51, 1, 2, 4, 1, 3, 4, 4, 0, 5, 6, 4, 2]
    );
    assert_eq!(call.request[102..], [100, 101, 102]);
    let packet = reply(&call, &[30, 0, 1, 8, 0, 0, 4], &[10, 30, 31, 32, 33]);
    assert!(Device::write_read_multi_fits(&call, &packet, reqs));
    Device::write_read_multi(&call, &packet, reqs).unwrap();
    assert_eq!(reqs[0].data().unwrap(), [10]);
    assert!(matches!(reqs[1].data(), Err(Error::Ads("multi-read/write data", 8))));
    assert_eq!(reqs[2].data().unwrap(), [30, 31, 32, 33]);
}

#[test]
fn more_data_than_a_buffer_holds_does_not_fit() {
    let mut a = [0; 2];
    let mut b = [0; 2];
    let reqs =
        &mut [WriteReadRequest::new(1, 2, &[], &mut a), WriteReadRequest::new(3, 4, &[], &mut b)];
    let call = device().write_read_multi_request(&mut comms(), reqs).unwrap();
    let packet = reply(&call, &[20, 0, 1, 0, 3], &[1, 2, 3, 4]);
    assert!(!Device::write_read_multi_fits(&call, &packet, reqs));
    let mut failed = packet.clone();
    failed[38] = 1;
    assert!(Device::write_read_multi_fits(&call, &failed, reqs));
    let packet = reply(&call, &[20, 0, 2, 0, 2], &[1, 2, 3, 4]);
    assert!(Device::write_read_multi_fits(&call, &packet, reqs));
    let packet = reply(&call, &[], &[]);
    assert!(Device::write_read_multi_fits(&call, &packet, reqs));
}

#[test]
fn several_notifications() {
    let mut comms = comms();
    let attributes = Attributes::new(
        4,
        TransmissionMode::NoTrans,
        Duration::from_millis((1 << 32) + 7),
        Duration::from_secs(1),
    );
    let reqs = &mut [
        AddNotifRequest::with_id(901, 1, 2, &attributes),
        AddNotifRequest::with_id(u64::MAX, 3, 4, &attributes),
    ];
    let call = device().add_notification_multi_request(&mut comms, reqs).unwrap();
    assert_eq!(
        words(&call, 14),
        [index::SUMUP_ADDDEVNOTE, 2, 16, 80, 1, 2, 4, 0, 7, 1000, 0, 0, 0, 0]
    );
    assert_eq!(call.request.len(), 38 + 96);
    let packet = reply(&call, &[16, 0, 50, 0x706, 51], &[]);
    Device::add_notification_multi(&mut comms, &call, &packet, reqs).unwrap();
    assert_eq!(reqs[0].handle().unwrap(), 50);
    assert!(matches!(reqs[1].handle(), Err(Error::Ads("multi-read/write data", 0x706))));
    assert_eq!((reqs[0].id, reqs[1].id), (901, u64::MAX));
    assert!(comms.notif_handles.contains(device().addr, 50));
    assert!(!comms.notif_handles.contains(device().addr, 51));

    comms.notif_handles.insert(device().addr, 51);
    let reqs = &mut [DelNotifRequest::new(50), DelNotifRequest::new(51)];
    let call = device().delete_notification_multi_request(&mut comms, reqs).unwrap();
    assert_eq!(words(&call, 6), [index::SUMUP_DELDEVNOTE, 2, 8, 8, 50, 51]);
    let packet = reply(&call, &[8, 0, 0x706], &[]);
    Device::delete_notification_multi(&mut comms, &call, &packet, reqs).unwrap();
    assert!(reqs[0].ensure().is_ok());
    assert!(matches!(reqs[1].ensure(), Err(Error::Ads("multi-read/write data", 0x706))));
    assert!(!comms.notif_handles.contains(device().addr, 50));
    assert!(comms.notif_handles.contains(device().addr, 51));
}

#[test]
fn a_sum_up_of_nothing() {
    let mut comms = comms();
    let call = device().read_multi_request(&mut comms, &[]).unwrap();
    assert_eq!(words(&call, 4), [index::SUMUP_READ_EX, 0, 0, 0]);
    assert!(Device::read_multi(&call, &reply(&call, &[0], &[]), &mut []).is_ok());
}

#[test]
fn the_id_of_a_notification_request_is_not_sent() {
    let attributes =
        Attributes::new(4, TransmissionMode::ServerCycle, Duration::from_secs(1), Duration::from_secs(2));
    let plain = AddNotifRequest::new(1, 2, &attributes);
    let named = AddNotifRequest::with_id(7, 1, 2, &attributes);
    assert_eq!((plain.id, named.id), (0, 7));
    assert_eq!((named.res.result, named.res.length), (0, 0));
    let a = device().add_notification_multi_request(&mut comms(), &[plain]).unwrap();
    let b = device().add_notification_multi_request(&mut comms(), &[named]).unwrap();
    assert_eq!(a.request, b.request);
}
