use std::time::Duration;

use ads::client::Client;
use ads::commands::AdsHeader;
use ads::comms::{Call, Comms};
use ads::device::Device;
use ads::error::Error;
use ads::netid::{AmsAddr, AmsNetId};
use ads::source::SourceInfo;
use ads::symbol::{Field, Type};
use ads::task_info::{
    decode_task, ReportedTaskCount, Sampling, TaskInfoLayout, TaskInfoLocation, TaskInfoReader, APP_INFO_SYMBOL,
    TASK_INFO_SYMBOL,
};
use ads::timeouts::Timeouts;

fn location(size: usize) -> TaskInfoLocation {
    TaskInfoLocation { index_group: 0x4020, index_offset: 100, size }
}

fn field(name: &str, offset: u32, size: usize, base_type: u32) -> Field {
    Field {
        name: name.into(),
        typ: name.into(),
        offset: Some(offset),
        size,
        array: vec![],
        base_type,
        flags: 0,
        comment: String::new(),
    }
}

fn entry_type(with_name: bool) -> Type {
    let mut fields = vec![
        field("ObjId", 0, 4, 19),
        field("CycleTime", 4, 4, 19),
        field("Priority", 8, 2, 18),
        field("AdsPort", 10, 2, 18),
        field("CycleCount", 12, 4, 19),
        field("DcTaskTime", 16, 8, 20),
        field("LastExecTime", 24, 4, 19),
        field("FirstCycle", 28, 1, 33),
        field("CycleTimeExceeded", 29, 1, 33),
        field("InCallAfterOutputUpdate", 30, 1, 33),
        field("RTViolation", 31, 1, 33),
    ];
    if with_name {
        fields.push(field("TaskName", 32, 64, 30));
    }
    Type {
        name: "PlcTaskSystemInfo".into(),
        typ: "PlcTaskSystemInfo".into(),
        comment: String::new(),
        size: if with_name { 96 } else { 32 },
        array: vec![],
        fields,
        base_type: 65,
        flags: 0,
    }
}

fn reader(size: usize, with_name: bool) -> TaskInfoReader {
    TaskInfoReader::new(
        AmsAddr::default(),
        7,
        location(size),
        (1, 1),
        TaskInfoLayout::from_entry_type(&entry_type(with_name)).expect("layout"),
    )
    .expect("reader")
}

fn entry(size: usize, cycle_ticks: u32) -> Vec<u8> {
    let mut bytes = vec![0; size];
    bytes[0..4].copy_from_slice(&0x0101_0010_u32.to_le_bytes());
    bytes[4..8].copy_from_slice(&cycle_ticks.to_le_bytes());
    bytes[8..10].copy_from_slice(&20_u16.to_le_bytes());
    bytes[10..12].copy_from_slice(&851_u16.to_le_bytes());
    bytes[12..16].copy_from_slice(&42_u32.to_le_bytes());
    bytes[16..24].copy_from_slice(&1234_i64.to_le_bytes());
    bytes[24..28].copy_from_slice(&25_000_u32.to_le_bytes());
    bytes
}

#[test]
fn documented_prefix_decodes() {
    let reader = reader(32, false);
    let tasks = reader.decode_tasks(&entry(32, 100_000)).expect("task");
    assert_eq!(tasks.len(), 1);
    assert_eq!(tasks[0].index, 1);
    assert_eq!(tasks[0].cycle_time, Duration::from_millis(10));
    assert_eq!(tasks[0].last_exec_time, Duration::from_micros(2500));
    assert_eq!(tasks[0].name, None);
}

#[test]
fn documented_name_is_decoded_without_creating_extra_tasks() {
    let reader = reader(96, true);
    let mut bytes = entry(96, 100_000);
    bytes[32..41].copy_from_slice(b"FastTask\0");
    let tasks = reader.decode_tasks(&bytes).expect("task");
    assert_eq!(tasks.len(), 1);
    assert_eq!(tasks[0].name.as_deref(), Some("FastTask"));
}

#[test]
fn plc_name_at_offset_64_uses_128_byte_stride() {
    // Layout captured from uploaded PLC metadata.
    let mut metadata = entry_type(true);
    metadata.size = 128;
    metadata.fields.last_mut().unwrap().offset = Some(64);
    let layout = TaskInfoLayout::from_entry_type(&metadata).expect("PLC layout");
    let reader =
        TaskInfoReader::new(AmsAddr::default(), 7, location(256), (1, 2), layout).expect("reader");
    let mut first = entry(128, 10_000);
    first[32..64].fill(0xff); // The gap must not be decoded as a name or task.
    first[64..73].copy_from_slice(b"FastTask\0");
    let mut second = entry(128, 100_000);
    second[64..73].copy_from_slice(b"SlowTask\0");
    first.extend_from_slice(&second);
    let tasks = reader.decode_tasks(&first).expect("tasks");
    assert_eq!(tasks.len(), 2);
    assert_eq!(tasks[0].index, 1);
    assert_eq!(tasks[0].name.as_deref(), Some("FastTask"));
    assert_eq!(tasks[0].cycle_time, Duration::from_millis(1));
    assert_eq!(tasks[1].index, 2);
    assert_eq!(tasks[1].name.as_deref(), Some("SlowTask"));
    assert_eq!(tasks[1].cycle_time, Duration::from_millis(10));
}

#[test]
fn rejects_invalid_task_name_offsets() {
    for offset in [None, Some(0), Some(31), Some(65), Some(u32::MAX)] {
        let mut metadata = entry_type(true);
        metadata.size = 128;
        metadata.fields.last_mut().unwrap().offset = offset;
        assert!(matches!(TaskInfoLayout::from_entry_type(&metadata), Err(Error::TaskInfoLayout(_))));
    }
}

#[test]
fn layout_requires_metadata_fields_and_array_bounds() {
    let mut invalid = entry_type(false);
    invalid.fields[0].offset = Some(4);
    assert!(TaskInfoLayout::from_entry_type(&invalid).is_err());

    let layout = TaskInfoLayout::from_entry_type(&entry_type(true)).expect("layout");
    assert!(TaskInfoReader::new(AmsAddr::default(), 7, location(96), (1, 1), layout).is_ok());
    // A 96-byte extended entry must not be treated as three 32-byte entries.
    let legacy = TaskInfoLayout::from_entry_type(&entry_type(false)).expect("legacy layout");
    assert!(TaskInfoReader::new(AmsAddr::default(), 7, location(96), (1, 1), legacy).is_err());
    assert!(TaskInfoReader::new(AmsAddr::default(), 7, location(96), (2, 1), layout).is_err());
}

#[test]
fn empty_slots_keep_their_original_index() {
    let layout = TaskInfoLayout::from_entry_type(&entry_type(false)).expect("layout");
    let reader =
        TaskInfoReader::new(AmsAddr::default(), 7, location(96), (1, 3), layout).expect("reader");
    let mut bytes = entry(32, 100_000);
    bytes.extend_from_slice(&entry(32, 0));
    bytes.extend_from_slice(&entry(32, 10_000));
    let tasks = reader.decode_tasks(&bytes).expect("tasks");
    assert_eq!(tasks.iter().map(|task| task.index).collect::<Vec<_>>(), vec![1, 2, 3]);
}

#[test]
fn rejects_task_name_outside_entry() {
    for size in [32, 64, 95] {
        let mut metadata = entry_type(true);
        metadata.size = size;
        assert!(matches!(TaskInfoLayout::from_entry_type(&metadata), Err(Error::TaskInfoLayout(_))));
    }
}

#[test]
fn truncated_data_is_a_reply_error() {
    assert!(matches!(reader(96, true).decode_tasks(&[0; 95]), Err(Error::Reply(..))));
}

/// A device that holds the memory of one index group.
struct Plc {
    memory: Vec<u8>,
}

impl Plc {
    fn new() -> Self {
        Plc { memory: vec![0; 1024] }
    }

    /// Executes a read or write request and answers it.
    fn answer(&mut self, request: &[u8]) -> Vec<u8> {
        let word = |at: usize| u32::from_le_bytes(request[at..at + 4].try_into().unwrap());
        let half = |at: usize| u16::from_le_bytes(request[at..at + 2].try_into().unwrap());
        let (group, offset, length) = (word(38), word(42) as usize, word(46) as usize);
        let mut data = vec![];
        if group != 0x4020 {
            data.extend_from_slice(&0x702u32.to_le_bytes());
        } else if half(22) == 2 {
            data.extend_from_slice(&0u32.to_le_bytes());
            data.extend_from_slice(&(length as u32).to_le_bytes());
            data.extend_from_slice(&self.memory[offset..offset + length]);
        } else {
            self.memory[offset..offset + length].copy_from_slice(&request[50..50 + length]);
            data.extend_from_slice(&0u32.to_le_bytes());
        }
        let header = AdsHeader {
            ams_cmd: 0,
            length: 32 + data.len() as u32,
            dest_netid: AmsNetId::from_slice(&request[14..20]).unwrap(),
            dest_port: half(20),
            src_netid: AmsNetId::from_slice(&request[6..12]).unwrap(),
            src_port: half(12),
            command: half(22),
            state_flags: 5,
            data_length: data.len() as u32,
            error_code: 0,
            invoke_id: word(34),
        };
        let mut reply = header.as_bytes();
        reply.extend_from_slice(&data);
        reply
    }
}

fn write(plc: &mut Plc, comms: &mut Comms, device: Device, offset: u32, data: &[u8]) {
    let call = device.write_request(comms, 0x4020, offset, data).unwrap();
    let reply = plc.answer(&call.request);
    Device::write(&call, &reply).unwrap();
}

fn sample(
    plc: &mut Plc,
    comms: &mut Comms,
    reader: &TaskInfoReader,
    device: Device,
    generation: u64,
) -> Result<ads::task_info::PlcTaskInfoSnapshot, Error> {
    let mut state = reader.read(comms, device, generation)?;
    loop {
        let request: Vec<u8> = match &state {
            Sampling::Tasks(call) => call.request.clone(),
            Sampling::Count(_, call) => call.request.clone(),
            Sampling::Done(_) => vec![],
        };
        if request.is_empty() {
            break;
        }
        let reply = plc.answer(&request);
        state = reader.advance(comms, state, Ok(reply))?;
    }
    match state {
        Sampling::Done(snapshot) => Ok(snapshot),
        _ => unreachable!(),
    }
}

#[test]
fn reader_reads_values_and_preserves_count_failure() {
    let mut plc = Plc::new();
    let mut client = Client::new(Timeouts::none(), SourceInfo::Local(Some([127, 0, 0, 1]))).unwrap();
    let device = client.device(AmsAddr::new(AmsNetId::new(1, 2, 3, 4, 5, 6), 851));
    let layout = TaskInfoLayout::from_entry_type(&entry_type(false)).expect("layout");
    let reader =
        TaskInfoReader::new(device.address(), 7, location(32), (1, 1), layout).expect("reader");
    // The fake server supports value reads here, but no type discovery.
    write(&mut plc, &mut client.comms, device, 100, &entry(32, 100_000));
    write(&mut plc, &mut client.comms, device, 204, &3u32.to_le_bytes());
    let app = TaskInfoLocation { index_group: 0x4020, index_offset: 200, size: 8 };
    let reader = reader.with_app_info(app).unwrap();
    for _ in 0..2 {
        let snapshot = sample(&mut plc, &mut client.comms, &reader, device, 7).unwrap();
        assert_eq!(snapshot.tasks.len(), 1);
        assert!(matches!(snapshot.reported_task_count, Some(ReportedTaskCount::Available(3))));
    }
    let reader = reader.with_app_info(TaskInfoLocation { index_group: 0xffff, ..app }).unwrap();
    let snapshot = sample(&mut plc, &mut client.comms, &reader, device, 7).unwrap();
    assert_eq!(snapshot.tasks[0].cycle_count, 42);
    assert!(matches!(
        snapshot.reported_task_count,
        Some(ReportedTaskCount::Unavailable(Error::Ads(..)))
    ));

    assert!(matches!(
        sample(&mut plc, &mut client.comms, &reader, device, 8),
        Err(Error::TaskInfoInvalidated)
    ));
    let other = client.device(AmsAddr::new(device.address().netid(), 852));
    assert!(matches!(
        sample(&mut plc, &mut client.comms, &reader, other, 7),
        Err(Error::TaskInfoLayout(_))
    ));

    let failed = TaskInfoReader::new(
        device.address(),
        7,
        TaskInfoLocation { index_group: 0xffff, ..location(32) },
        (1, 1),
        layout,
    )
    .expect("reader")
    .with_app_info(TaskInfoLocation { index_group: 0xffff, ..app })
    .unwrap();
    assert!(matches!(
        sample(&mut plc, &mut client.comms, &failed, device, 7),
        Err(Error::Ads(..))
    ));
}

#[test]
fn a_refused_sample_asks_nothing() {
    let mut client = Client::new(Timeouts::none(), SourceInfo::Local(None)).unwrap();
    let device = client.device(AmsAddr::default());
    assert!(reader(32, false).read(&mut client.comms, device, 8).is_err());
    let other = client.device(AmsAddr::new(AmsNetId::new(0, 0, 0, 0, 0, 0), 1));
    assert!(reader(32, false).read(&mut client.comms, other, 7).is_err());
    assert_eq!(client.comms.invoke_id, 0);
}

#[test]
fn an_error_in_place_of_a_reply_ends_the_sample() {
    let mut client = Client::new(Timeouts::none(), SourceInfo::Local(None)).unwrap();
    let device = client.device(AmsAddr::default());
    let reader = reader(32, false);
    let state = reader.read(&mut client.comms, device, 7).unwrap();
    let r = reader.advance(&mut client.comms, state, Err(Error::Locking("test")));
    assert!(matches!(r, Err(Error::Locking("test"))));
}

#[test]
fn an_error_in_place_of_the_count_is_reported() {
    let mut plc = Plc::new();
    let mut client = Client::new(Timeouts::none(), SourceInfo::Local(None)).unwrap();
    let device = client.device(AmsAddr::default());
    let reader = reader(32, false).with_app_info(location(8)).unwrap();
    let state = reader.read(&mut client.comms, device, 7).unwrap();
    let request = match &state {
        Sampling::Tasks(Call { request, .. }) => request.clone(),
        _ => unreachable!(),
    };
    let reply = plc.answer(&request);
    let state = reader.advance(&mut client.comms, state, Ok(reply)).unwrap();
    assert!(matches!(state, Sampling::Count(..)));
    let state = reader.advance(&mut client.comms, state, Err(Error::Locking("test"))).unwrap();
    match state {
        Sampling::Done(snapshot) => {
            assert_eq!(snapshot.tasks.len(), 1);
            assert!(matches!(
                snapshot.reported_task_count,
                Some(ReportedTaskCount::Unavailable(Error::Locking("test")))
            ));
        }
        _ => unreachable!(),
    }
}

#[test]
fn a_short_symbol_read_is_an_error() {
    let mut plc = Plc::new();
    let mut client = Client::new(Timeouts::none(), SourceInfo::Local(None)).unwrap();
    let device = client.device(AmsAddr::default());
    let call = device.read_request(&mut client.comms, 0x4020, 100, 31).unwrap();
    let reply = plc.answer(&call.request);
    let r = reader(32, false).read_tasks(&call, &reply);
    assert!(matches!(r, Err(Error::Reply("read data", "got less data than expected", 31))));
    let r = ads::task_info::read_app_task_count(&call, &reply);
    assert!(matches!(r, Err(Error::Reply("read data", "got less data than expected", 31))));
}

#[test]
fn every_field_of_a_task_is_decoded() {
    let mut bytes = entry(32, 100_000);
    bytes[16..24].copy_from_slice(&(-1234_i64).to_le_bytes());
    bytes[28] = 1;
    bytes[30] = 2;
    let task = decode_task(&bytes, -5, None).unwrap();
    assert_eq!(task.index, -5);
    assert_eq!(task.object_id, 0x0101_0010);
    assert_eq!(task.priority, 20);
    assert_eq!(task.ads_port, 851);
    assert_eq!(task.cycle_count, 42);
    assert_eq!(task.dc_task_time, -1234);
    assert_eq!(task.cycle_time, Duration::from_nanos(10_000_000));
    assert_eq!(task.last_exec_time, Duration::from_nanos(2_500_000));
    assert!(task.first_cycle);
    assert!(!task.cycle_time_exceeded);
    assert!(task.in_call_after_output_update);
    assert!(!task.rt_violation);
    assert_eq!(task.clone(), task);
}

#[test]
fn a_name_without_end_takes_the_whole_field() {
    let mut bytes = entry(96, 1);
    bytes[32..96].fill(b'x');
    let task = decode_task(&bytes, 0, Some(32)).unwrap();
    assert_eq!(task.name, Some("x".repeat(64)));
}

#[test]
fn a_name_that_is_not_utf8_is_replaced() {
    let mut bytes = entry(96, 1);
    bytes[32..36].copy_from_slice(b"a\xffb\0");
    let task = decode_task(&bytes, 0, Some(32)).unwrap();
    assert_eq!(task.name.as_deref(), Some("a\u{fffd}b"));
}

#[test]
fn a_short_entry_is_a_reply_error() {
    assert!(matches!(
        decode_task(&[0; 31], 0, Some(99)),
        Err(Error::Reply("decoding task info", "task entry is shorter than documented prefix", 31))
    ));
}

#[test]
fn layout_errors_name_the_problem() {
    let mut short = entry_type(false);
    short.size = 31;
    assert!(matches!(
        TaskInfoLayout::from_entry_type(&short),
        Err(Error::TaskInfoLayout("task entry is shorter than documented prefix"))
    ));
    let mut missing = entry_type(false);
    missing.fields.remove(10);
    assert!(matches!(
        TaskInfoLayout::from_entry_type(&missing),
        Err(Error::TaskInfoLayout("a required task field is missing"))
    ));
    let mut array = entry_type(false);
    array.fields[3].array.push((0, 1));
    assert!(matches!(
        TaskInfoLayout::from_entry_type(&array),
        Err(Error::TaskInfoLayout("a required task field has an unsupported type, size, or offset"))
    ));
    let mut name = entry_type(true);
    name.fields[11].base_type = 31;
    assert!(matches!(
        TaskInfoLayout::from_entry_type(&name),
        Err(Error::TaskInfoLayout("TaskName has an unsupported type, size, or offset"))
    ));
}

#[test]
fn the_first_field_of_a_name_counts() {
    let mut doubled = entry_type(false);
    doubled.fields.push(field("ObjId", 4, 4, 19));
    assert!(TaskInfoLayout::from_entry_type(&doubled).is_ok());
    doubled.fields.insert(0, field("ObjId", 4, 4, 19));
    assert!(TaskInfoLayout::from_entry_type(&doubled).is_err());
}

#[test]
fn reader_errors_name_the_problem() {
    let layout = TaskInfoLayout::from_entry_type(&entry_type(false)).unwrap();
    assert_eq!(layout.entry_size(), 32);
    for bounds in [(2, 1), (i32::MIN, i32::MAX), (i32::MIN, 0), (0, i32::MAX)] {
        assert!(matches!(
            TaskInfoReader::new(AmsAddr::default(), 7, location(32), bounds, layout),
            Err(Error::TaskInfoLayout("task array bounds are invalid"))
        ));
    }
    for (size, bounds) in [(0, (1, 1)), (33, (1, 1)), (16 * 1024 * 1024 + 32, (0, 524_288))] {
        assert!(matches!(
            TaskInfoReader::new(AmsAddr::default(), 7, location(size), bounds, layout),
            Err(Error::TaskInfoLayout("task array bounds and symbol size disagree"))
        ));
    }
    let reader =
        TaskInfoReader::new(AmsAddr::default(), 9, location(16 * 1024 * 1024), (0, 524_287), layout).unwrap();
    assert_eq!(reader.symbol_generation(), 9);
    assert!(matches!(
        reader.with_app_info(location(7)),
        Err(Error::TaskInfoLayout("app-info symbol is shorter than TaskCnt"))
    ));
}

#[test]
fn the_largest_indices_are_usable() {
    let layout = TaskInfoLayout::from_entry_type(&entry_type(false)).unwrap();
    let bounds = (i32::MAX - 1, i32::MAX);
    let reader = TaskInfoReader::new(AmsAddr::default(), 7, location(64), bounds, layout).unwrap();
    let tasks = reader.decode_tasks(&[0; 64]).unwrap();
    assert_eq!(tasks[0].index, i32::MAX - 1);
    assert_eq!(tasks[1].index, i32::MAX);
}

#[test]
fn symbol_names() {
    assert_eq!(TASK_INFO_SYMBOL, "TwinCAT_SystemInfoVarList._TaskInfo");
    assert_eq!(APP_INFO_SYMBOL, "TwinCAT_SystemInfoVarList._AppInfo");
}

#[test]
fn one_request_for_the_tasks_and_one_for_the_count() {
    let mut plc = Plc::new();
    let mut client = Client::new(Timeouts::none(), SourceInfo::Local(None)).unwrap();
    let device = client.device(AmsAddr::default());
    sample(&mut plc, &mut client.comms, &reader(32, false), device, 7).unwrap();
    assert_eq!(client.comms.invoke_id, 1);
    let with_count = reader(32, false).with_app_info(location(8)).unwrap();
    sample(&mut plc, &mut client.comms, &with_count, device, 7).unwrap();
    assert_eq!(client.comms.invoke_id, 3);
}

#[test]
fn a_sample_that_did_not_arrive_is_an_error() {
    let mut plc = Plc::new();
    let mut client = Client::new(Timeouts::none(), SourceInfo::Local(None)).unwrap();
    let device = client.device(AmsAddr::default());
    let call = device.read_request(&mut client.comms, 0x4020, 100, 31).unwrap();
    let mut reply = plc.answer(&call.request);
    // The length field claims the whole entry.
    reply[42] = 32;
    let r = reader(32, false).read_tasks(&call, &reply);
    assert!(matches!(r, Err(Error::Reply("read data", "got less data than expected", 32))));

    let call = device.read_request(&mut client.comms, 0x4020, 200, 4).unwrap();
    let mut reply = plc.answer(&call.request);
    reply[42] = 8;
    let r = ads::task_info::read_app_task_count(&call, &reply);
    assert!(matches!(r, Err(Error::Reply("read data", "got less data than expected", 8))));
}
