//! ADS commands and the structures that their requests and replies are made of.
use crate::error::{ads_error, Error, Result};
use crate::netid::{field_netid, AmsNetId};
use crate::notif;
use crate::time::{duration_millis, duration_nanos, low_millis};
use crate::wire::{
    append, field_u16, field_u32, low_u32, u16_as_bytes, u16_at, u16_bytes, u16_get, u32_as_bytes, u32_at, u32_bytes,
    u32_get, u32_round_trip,
};
use vstd::prelude::*;

verus! {

/// An ADS protocol command.
#[derive(Clone, Copy, Debug, PartialEq, Eq, Structural)]
pub enum Command {
    /// Return device info
    DevInfo,
    /// Read some data
    Read,
    /// Write some data
    Write,
    /// Write some data, then read back some data
    /// (used as a poor-man's function call)
    ReadWrite,
    /// Read the ADS and device state
    ReadState,
    /// Set the ADS and device state
    WriteControl,
    /// Add a notification for a given index
    AddNotification,
    /// Delete a notification
    DeleteNotification,
    /// Change occurred in a given notification,
    /// can be sent by the PLC only
    Notification,
}

impl Command {
    /// The number by which a packet names this command.
    pub open spec fn spec_code(self) -> u16 {
        match self {
            Command::DevInfo => 1,
            Command::Read => 2,
            Command::Write => 3,
            Command::ReadState => 4,
            Command::WriteControl => 5,
            Command::AddNotification => 6,
            Command::DeleteNotification => 7,
            Command::Notification => 8,
            Command::ReadWrite => 9,
        }
    }

    /// The number by which a packet names this command.
    #[verifier::when_used_as_spec(spec_code)]
    pub fn code(self) -> (r: u16)
        ensures
            r == self.spec_code(),
    {
        match self {
            Command::DevInfo => 1,
            Command::Read => 2,
            Command::Write => 3,
            Command::ReadWrite => 9,
            Command::ReadState => 4,
            Command::WriteControl => 5,
            Command::AddNotification => 6,
            Command::DeleteNotification => 7,
            Command::Notification => 8,
        }
    }

    /// What error messages call this command.
    pub open spec fn spec_action(self) -> &'static str {
        match self {
            Command::DevInfo => "get device info",
            Command::Read => "read data",
            Command::Write => "write data",
            Command::ReadWrite => "write and read data",
            Command::ReadState => "read state",
            Command::WriteControl => "write control",
            Command::AddNotification => "add notification",
            Command::DeleteNotification => "delete notification",
            Command::Notification => "notification",
        }
    }

    /// What error messages call this command.
    #[verifier::when_used_as_spec(spec_action)]
    pub fn action(self) -> (r: &'static str)
        ensures
            r == self.spec_action(),
    {
        match self {
            Command::DevInfo => "get device info",
            Command::Read => "read data",
            Command::Write => "write data",
            Command::ReadWrite => "write and read data",
            Command::ReadState => "read state",
            Command::WriteControl => "write control",
            Command::AddNotification => "add notification",
            Command::DeleteNotification => "delete notification",
            Command::Notification => "notification",
        }
    }
}

/// No two commands share a number.
pub proof fn command_by_code(a: Command, b: Command)
    ensures
        a.spec_code() == b.spec_code() <==> a == b,
{
}

/// Device info returned from an ADS server.
#[derive(Debug)]
pub struct DeviceInfo {
    /// Name of the ADS device/service.
    pub name: String,
    /// Major version.
    pub major: u8,
    /// Minor version.
    pub minor: u8,
    /// Build version.
    pub version: u16,
}

/// The header of an ADS packet, with the AMS/TCP header in front.
#[derive(Clone, Copy, Debug)]
pub struct AdsHeader {
    /// 0x0 - ADS command
    /// 0x1 - close port
    /// 0x1000 - open port
    /// 0x1001 - note from router (router state changed)
    /// 0x1002 - get local netid
    pub ams_cmd: u16,
    /// Number of bytes that follow this field.
    pub length: u32,
    /// NetID of the receiver.
    pub dest_netid: AmsNetId,
    /// AMS port of the receiver.
    pub dest_port: u16,
    /// NetID of the sender.
    pub src_netid: AmsNetId,
    /// AMS port of the sender.
    pub src_port: u16,
    /// Number of the ADS command.
    pub command: u16,
    /// 0x01 - response
    /// 0x02 - no return
    /// 0x04 - ADS command
    /// 0x08 - system command
    /// 0x10 - high priority
    /// 0x20 - with time stamp (8 bytes added)
    /// 0x40 - UDP
    /// 0x80 - command during init phase
    /// 0x8000 - broadcast
    pub state_flags: u16,
    /// Number of bytes that follow the header.
    pub data_length: u32,
    /// Error code of a reply.
    pub error_code: u32,
    /// Identifies the request and its reply.
    pub invoke_id: u32,
}

impl AdsHeader {
    /// The header as it stands in a packet.
    pub open spec fn bytes(self) -> Seq<u8> {
        u16_bytes(self.ams_cmd) + u32_bytes(self.length) + self.dest_netid.0@ + u16_bytes(
            self.dest_port,
        ) + self.src_netid.0@ + u16_bytes(self.src_port) + u16_bytes(self.command) + u16_bytes(
            self.state_flags,
        ) + u32_bytes(self.data_length) + u32_bytes(self.error_code) + u32_bytes(self.invoke_id)
    }

    /// The header as it stands in a packet.
    pub fn as_bytes(&self) -> (r: Vec<u8>)
        ensures
            r@ == self.bytes(),
    {
        let mut out: Vec<u8> = Vec::new();
        append(&mut out, &u16_as_bytes(self.ams_cmd));
        append(&mut out, &u32_as_bytes(self.length));
        append(&mut out, &self.dest_netid.0);
        append(&mut out, &u16_as_bytes(self.dest_port));
        append(&mut out, &self.src_netid.0);
        append(&mut out, &u16_as_bytes(self.src_port));
        append(&mut out, &u16_as_bytes(self.command));
        append(&mut out, &u16_as_bytes(self.state_flags));
        append(&mut out, &u32_as_bytes(self.data_length));
        append(&mut out, &u32_as_bytes(self.error_code));
        append(&mut out, &u32_as_bytes(self.invoke_id));
        assert(out@ =~= self.bytes());
        out
    }
}

/// Every field of a header can be read back at its place in the packet,
/// whatever follows the header.
#[verifier::rlimit(40)]
pub proof fn header_fields(h: AdsHeader, rest: Seq<u8>)
    ensures
        h.bytes().len() == 38,
        ({
            let p = h.bytes() + rest;
            &&& u16_at(p, 0) == h.ams_cmd
            &&& u32_at(p, 2) == h.length
            &&& p.subrange(6, 12) == h.dest_netid.0@
            &&& u16_at(p, 12) == h.dest_port
            &&& p.subrange(14, 20) == h.src_netid.0@
            &&& u16_at(p, 20) == h.src_port
            &&& u16_at(p, 22) == h.command
            &&& u16_at(p, 24) == h.state_flags
            &&& u32_at(p, 26) == h.data_length
            &&& u32_at(p, 30) == h.error_code
            &&& u32_at(p, 34) == h.invoke_id
            &&& p.skip(38) == rest
        }),
{
    let p = h.bytes() + rest;
    let p10 = u32_bytes(h.invoke_id) + rest;
    let p9 = u32_bytes(h.error_code) + p10;
    let p8 = u32_bytes(h.data_length) + p9;
    let p7 = u16_bytes(h.state_flags) + p8;
    let p6 = u16_bytes(h.command) + p7;
    let p5 = u16_bytes(h.src_port) + p6;
    let p4 = h.src_netid.0@ + p5;
    let p3 = u16_bytes(h.dest_port) + p4;
    let p2 = h.dest_netid.0@ + p3;
    let p1 = u32_bytes(h.length) + p2;
    assert(p =~= u16_bytes(h.ams_cmd) + p1);
    assert(p.skip(0) =~= p);
    field_u16(p, 0, h.ams_cmd, p1);
    field_u32(p, 2, h.length, p2);
    field_netid(p, 6, h.dest_netid, p3);
    field_u16(p, 12, h.dest_port, p4);
    field_netid(p, 14, h.src_netid, p5);
    field_u16(p, 20, h.src_port, p6);
    field_u16(p, 22, h.command, p7);
    field_u16(p, 24, h.state_flags, p8);
    field_u32(p, 26, h.data_length, p9);
    field_u32(p, 30, h.error_code, p10);
    field_u32(p, 34, h.invoke_id, rest);
}

/// Name and version of a device as they stand in a reply.
#[derive(Clone, Copy, Debug)]
pub struct DeviceInfoRaw {
    pub major: u8,
    pub minor: u8,
    pub version: u16,
    pub name: [u8; 16],
}

impl DeviceInfoRaw {
    /// The structure as it stands in a reply.
    pub open spec fn bytes(self) -> Seq<u8> {
        seq![self.major, self.minor] + u16_bytes(self.version) + self.name@
    }

    /// Takes the structure apart that stands in `bytes`.
    pub fn from_bytes(bytes: [u8; 20]) -> (r: Self)
        ensures
            r.bytes() == bytes@,
    {
        let r = DeviceInfoRaw {
            major: bytes[0],
            minor: bytes[1],
            version: u16_get([bytes[2], bytes[3]]),
            name: [
                bytes[4], bytes[5], bytes[6], bytes[7], bytes[8], bytes[9], bytes[10], bytes[11],
                bytes[12], bytes[13], bytes[14], bytes[15], bytes[16], bytes[17], bytes[18],
                bytes[19],
            ],
        };
        assert(r.bytes() =~= bytes@);
        r
    }
}

/// Where to read or write, and how many bytes.
#[derive(Clone, Copy, Debug, PartialEq, Eq, Structural)]
pub struct IndexLength {
    pub index_group: u32,
    pub index_offset: u32,
    pub length: u32,
}

impl IndexLength {
    /// The structure as it stands in a request.
    pub open spec fn bytes(self) -> Seq<u8> {
        u32_bytes(self.index_group) + u32_bytes(self.index_offset) + u32_bytes(self.length)
    }

    /// The structure as it stands in a request.
    pub fn as_bytes(&self) -> (r: Vec<u8>)
        ensures
            r@ == self.bytes(),
    {
        let mut out: Vec<u8> = u32_as_bytes(self.index_group);
        append(&mut out, &u32_as_bytes(self.index_offset));
        append(&mut out, &u32_as_bytes(self.length));
        out
    }
}

/// The outcome of one part of a sum-up request.
#[derive(Clone, Copy, Debug, PartialEq, Eq, Structural)]
pub struct ResultLength {
    /// Error code, 0 on success.
    pub result: u32,
    /// Number of bytes returned, or the handle of a new notification.
    pub length: u32,
}

impl ResultLength {
    /// The structure as it stands in a reply.
    pub open spec fn bytes(self) -> Seq<u8> {
        u32_bytes(self.result) + u32_bytes(self.length)
    }

    /// The structure that stands at position `at` of a reply.
    pub open spec fn at(s: Seq<u8>, at: int) -> Self {
        ResultLength { result: u32_at(s, at), length: u32_at(s, at + 4) }
    }

    /// The outcome before there is one.
    pub fn new_zeroed() -> (r: Self)
        ensures
            r == (ResultLength { result: 0, length: 0 }),
    {
        ResultLength { result: 0, length: 0 }
    }

    /// The structure as it stands in a reply.
    pub fn as_bytes(&self) -> (r: Vec<u8>)
        ensures
            r@ == self.bytes(),
    {
        let mut out: Vec<u8> = u32_as_bytes(self.result);
        append(&mut out, &u32_as_bytes(self.length));
        out
    }

    /// Takes the structure apart that stands at position `at` of `s`.
    pub fn from_bytes(s: &[u8], at: usize) -> (r: Self)
        requires
            at + 8 <= s@.len(),
        ensures
            r == Self::at(s@, at as int),
    {
        ResultLength {
            result: u32_get([s[at], s[at + 1], s[at + 2], s[at + 3]]),
            length: u32_get([s[at + 4], s[at + 5], s[at + 6], s[at + 7]]),
        }
    }
}

/// An outcome can be read back where it stands.
pub proof fn result_length_round_trip(res: ResultLength)
    ensures
        ResultLength::at(res.bytes(), 0) == res,
{
    u32_round_trip(res.result);
    u32_round_trip(res.length);
}

/// Where to write and read back, and how many bytes each way.
#[derive(Clone, Copy, Debug, PartialEq, Eq, Structural)]
pub struct IndexLengthRW {
    pub index_group: u32,
    pub index_offset: u32,
    pub read_length: u32,
    pub write_length: u32,
}

impl IndexLengthRW {
    /// The structure as it stands in a request.
    pub open spec fn bytes(self) -> Seq<u8> {
        u32_bytes(self.index_group) + u32_bytes(self.index_offset) + u32_bytes(self.read_length)
            + u32_bytes(self.write_length)
    }

    /// The structure as it stands in a request.
    pub fn as_bytes(&self) -> (r: Vec<u8>)
        ensures
            r@ == self.bytes(),
    {
        let mut out: Vec<u8> = u32_as_bytes(self.index_group);
        append(&mut out, &u32_as_bytes(self.index_offset));
        append(&mut out, &u32_as_bytes(self.read_length));
        append(&mut out, &u32_as_bytes(self.write_length));
        out
    }
}

/// The states of a device as they stand in a reply.
#[derive(Clone, Copy, Debug, PartialEq, Eq, Structural)]
pub struct ReadState {
    pub ads_state: u16,
    pub dev_state: u16,
}

impl ReadState {
    /// The structure as it stands in a reply.
    pub open spec fn bytes(self) -> Seq<u8> {
        u16_bytes(self.ads_state) + u16_bytes(self.dev_state)
    }

    /// Takes the structure apart that stands in `bytes`.
    pub fn from_bytes(bytes: [u8; 4]) -> (r: Self)
        ensures
            r.bytes() == bytes@,
            r.ads_state == u16_at(bytes@, 0),
            r.dev_state == u16_at(bytes@, 2),
    {
        let r = ReadState {
            ads_state: u16_get([bytes[0], bytes[1]]),
            dev_state: u16_get([bytes[2], bytes[3]]),
        };
        assert(r.bytes() =~= bytes@);
        r
    }
}

/// The states to set on a device.
#[derive(Clone, Copy, Debug, PartialEq, Eq, Structural)]
pub struct WriteControl {
    pub ads_state: u16,
    pub dev_state: u16,
    pub data_length: u32,
}

impl WriteControl {
    /// The structure as it stands in a request.
    pub open spec fn bytes(self) -> Seq<u8> {
        u16_bytes(self.ads_state) + u16_bytes(self.dev_state) + u32_bytes(self.data_length)
    }

    /// The structure as it stands in a request.
    pub fn as_bytes(&self) -> (r: Vec<u8>)
        ensures
            r@ == self.bytes(),
    {
        let mut out: Vec<u8> = u16_as_bytes(self.ads_state);
        append(&mut out, &u16_as_bytes(self.dev_state));
        append(&mut out, &u32_as_bytes(self.data_length));
        out
    }
}

/// What to watch for a notification.
#[derive(Clone, Copy, Debug)]
pub struct AddNotif {
    pub index_group: u32,
    pub index_offset: u32,
    pub length: u32,
    pub trans_mode: u32,
    pub max_delay: u32,
    pub cycle_time: u32,
    pub reserved: [u8; 16],
}

impl AddNotif {
    /// The structure as it stands in a request.
    pub open spec fn bytes(self) -> Seq<u8> {
        u32_bytes(self.index_group) + u32_bytes(self.index_offset) + u32_bytes(self.length)
            + u32_bytes(self.trans_mode) + u32_bytes(self.max_delay) + u32_bytes(self.cycle_time)
            + self.reserved@
    }

    /// The structure as it stands in a request.
    pub fn as_bytes(&self) -> (r: Vec<u8>)
        ensures
            r@ == self.bytes(),
    {
        let mut out: Vec<u8> = u32_as_bytes(self.index_group);
        append(&mut out, &u32_as_bytes(self.index_offset));
        append(&mut out, &u32_as_bytes(self.length));
        append(&mut out, &u32_as_bytes(self.trans_mode));
        append(&mut out, &u32_as_bytes(self.max_delay));
        append(&mut out, &u32_as_bytes(self.cycle_time));
        append(&mut out, &self.reserved);
        out
    }
}

/// A single request for a [`crate::device::Device::read_multi`] request.
pub struct ReadRequest<'buf> {
    pub req: IndexLength,
    pub res: ResultLength,
    pub rbuf: &'buf mut [u8],
}

impl<'buf> ReadRequest<'buf> {
    /// What the result buffer holds.
    pub open spec fn buffer(self) -> Seq<u8> {
        self.rbuf@
    }

    /// Create the request with given index group, index offset and result buffer.
    pub fn new(index_group: u32, index_offset: u32, buffer: &'buf mut [u8]) -> (r: Self)
        ensures
            r.req.index_group == index_group,
            r.req.index_offset == index_offset,
            r.req.length == old(buffer)@.len() % 0x1_0000_0000,
            r.res == (ResultLength { result: 0, length: 0 }),
            r.buffer() == old(buffer)@,
            final(r.rbuf)@ == final(buffer)@,
    {
        Self {
            req: IndexLength { index_group, index_offset, length: low_u32(buffer.len()) },
            res: ResultLength::new_zeroed(),
            rbuf: buffer,
        }
    }

    /// Get the actual returned data.
    ///
    /// If the request returned an error, returns Err.
    pub fn data(&self) -> (r: Result<&[u8]>)
        requires
            self.res.result == 0 ==> self.res.length <= self.buffer().len(),
        ensures
            self.res.result != 0 ==> r == Err::<&[u8], Error>(
                Error::Ads("multi-read data", self.res.result),
            ),
            self.res.result == 0 ==> r is Ok && r->Ok_0@ == self.buffer().take(
                self.res.length as int,
            ),
    {
        if self.res.result != 0 {
            ads_error("multi-read data", self.res.result)
        } else {
            let buffer: &[u8] = &*self.rbuf;
            Ok(vstd::slice::slice_subrange(buffer, 0, self.res.length as usize))
        }
    }
}

/// A single request for a [`crate::device::Device::write_multi`] request.
pub struct WriteRequest<'buf> {
    pub req: IndexLength,
    pub res: u32,
    pub wbuf: &'buf [u8],
}

impl<'buf> WriteRequest<'buf> {
    /// Create the request with given index group, index offset and input buffer.
    pub fn new(index_group: u32, index_offset: u32, buffer: &'buf [u8]) -> (r: Self)
        ensures
            r.req.index_group == index_group,
            r.req.index_offset == index_offset,
            r.req.length == buffer@.len() % 0x1_0000_0000,
            r.res == 0,
            r.wbuf == buffer,
    {
        Self {
            req: IndexLength { index_group, index_offset, length: low_u32(buffer.len()) },
            res: 0,
            wbuf: buffer,
        }
    }

    /// Verify that the data was successfully written.
    ///
    /// If the request returned an error, returns Err.
    pub fn ensure(&self) -> (r: Result<()>)
        ensures
            self.res != 0 ==> r == Err::<(), Error>(Error::Ads("multi-write data", self.res)),
            self.res == 0 ==> r == Ok::<(), Error>(()),
    {
        if self.res != 0 {
            ads_error("multi-write data", self.res)
        } else {
            Ok(())
        }
    }
}

/// A single request for a [`crate::device::Device::write_read_multi`] request.
pub struct WriteReadRequest<'buf> {
    pub req: IndexLengthRW,
    pub res: ResultLength,
    pub wbuf: &'buf [u8],
    pub rbuf: &'buf mut [u8],
}

impl<'buf> WriteReadRequest<'buf> {
    /// What the result buffer holds.
    pub open spec fn buffer(self) -> Seq<u8> {
        self.rbuf@
    }

    /// Create the request with given index group, index offset and input and
    /// result buffers.
    pub fn new(
        index_group: u32,
        index_offset: u32,
        write_buffer: &'buf [u8],
        read_buffer: &'buf mut [u8],
    ) -> (r: Self)
        ensures
            r.req.index_group == index_group,
            r.req.index_offset == index_offset,
            r.req.read_length == old(read_buffer)@.len() % 0x1_0000_0000,
            r.req.write_length == write_buffer@.len() % 0x1_0000_0000,
            r.res == (ResultLength { result: 0, length: 0 }),
            r.wbuf == write_buffer,
            r.buffer() == old(read_buffer)@,
            final(r.rbuf)@ == final(read_buffer)@,
    {
        Self {
            req: IndexLengthRW {
                index_group,
                index_offset,
                read_length: low_u32(read_buffer.len()),
                write_length: low_u32(write_buffer.len()),
            },
            res: ResultLength::new_zeroed(),
            wbuf: write_buffer,
            rbuf: read_buffer,
        }
    }

    /// Get the actual returned data.
    ///
    /// If the request returned an error, returns Err.
    pub fn data(&self) -> (r: Result<&[u8]>)
        requires
            self.res.result == 0 ==> self.res.length <= self.buffer().len(),
        ensures
            self.res.result != 0 ==> r == Err::<&[u8], Error>(
                Error::Ads("multi-read/write data", self.res.result),
            ),
            self.res.result == 0 ==> r is Ok && r->Ok_0@ == self.buffer().take(
                self.res.length as int,
            ),
    {
        if self.res.result != 0 {
            ads_error("multi-read/write data", self.res.result)
        } else {
            let buffer: &[u8] = &*self.rbuf;
            Ok(vstd::slice::slice_subrange(buffer, 0, self.res.length as usize))
        }
    }
}

/// A single request for a [`crate::device::Device::add_notification_multi`]
/// request.
pub struct AddNotifRequest {
    /// An ID of the caller's own, by which the outcome can be matched to what
    /// asked for it.  It is not sent.
    pub id: u64,
    pub req: AddNotif,
    /// The length is the handle.
    pub res: ResultLength,
}

impl AddNotifRequest {
    /// Whether the request is for a notification with the given index group,
    /// index offset and attributes.
    pub open spec fn asks_for(
        self,
        index_group: u32,
        index_offset: u32,
        attributes: notif::Attributes,
    ) -> bool {
        &&& self.req.index_group == index_group
        &&& self.req.index_offset == index_offset
        &&& self.req.length == attributes.length as int % 0x1_0000_0000
        &&& self.req.trans_mode == attributes.trans_mode.code()
        &&& self.req.max_delay == duration_millis(attributes.max_delay) % 0x1_0000_0000
        &&& self.req.cycle_time == duration_millis(attributes.cycle_time) % 0x1_0000_0000
        &&& self.req.reserved@ == Seq::new(16, |i: int| 0u8)
    }

    /// Create the request with given index group, index offset and notification
    /// attributes.
    pub fn new(index_group: u32, index_offset: u32, attributes: &notif::Attributes) -> (r: Self)
        ensures
            r.id == 0,
            r.asks_for(index_group, index_offset, *attributes),
            r.res == (ResultLength { result: 0, length: 0 }),
    {
        Self::with_id(0, index_group, index_offset, attributes)
    }

    /// Create the request with given ID, index group, index offset and
    /// notification attributes.
    pub fn with_id(
        id: u64,
        index_group: u32,
        index_offset: u32,
        attributes: &notif::Attributes,
    ) -> (r: Self)
        ensures
            r.id == id,
            r.asks_for(index_group, index_offset, *attributes),
            r.res == (ResultLength { result: 0, length: 0 }),
    {
        let r = Self {
            id,
            req: AddNotif {
                index_group,
                index_offset,
                length: low_u32(attributes.length),
                trans_mode: attributes.trans_mode.code(),
                max_delay: low_millis(&attributes.max_delay),
                cycle_time: low_millis(&attributes.cycle_time),
                reserved: [0; 16],
            },
            res: ResultLength::new_zeroed(),
        };
        assert(r.req.reserved@ =~= Seq::new(16, |i: int| 0u8));
        r
    }

    /// Get the returned notification handle.
    ///
    /// If the request returned an error, returns Err.
    pub fn handle(&self) -> (r: Result<notif::Handle>)
        ensures
            self.res.result != 0 ==> r == Err::<notif::Handle, Error>(
                Error::Ads("multi-read/write data", self.res.result),
            ),
            self.res.result == 0 ==> r == Ok::<notif::Handle, Error>(self.res.length),
    {
        if self.res.result != 0 {
            ads_error("multi-read/write data", self.res.result)
        } else {
            Ok(self.res.length)
        }
    }
}

/// A single request for a
/// [`crate::device::Device::delete_notification_multi`] request.
pub struct DelNotifRequest {
    pub req: u32,
    pub res: u32,
}

impl DelNotifRequest {
    /// Create the request with given notification handle.
    pub fn new(handle: notif::Handle) -> (r: Self)
        ensures
            r.req == handle,
            r.res == 0,
    {
        Self { req: handle, res: 0 }
    }

    /// Verify that the handle was successfully deleted.
    ///
    /// If the request returned an error, returns Err.
    pub fn ensure(&self) -> (r: Result<()>)
        ensures
            self.res != 0 ==> r == Err::<(), Error>(Error::Ads("multi-read/write data", self.res)),
            self.res == 0 ==> r == Ok::<(), Error>(()),
    {
        if self.res != 0 {
            ads_error("multi-read/write data", self.res)
        } else {
            Ok(())
        }
    }
}

/// Each command has the number that the protocol gives it.
pub proof fn commands_have_numbers()
    ensures
        Command::DevInfo.spec_code() == 1,
        Command::Read.spec_code() == 2,
        Command::Write.spec_code() == 3,
        Command::ReadState.spec_code() == 4,
        Command::WriteControl.spec_code() == 5,
        Command::AddNotification.spec_code() == 6,
        Command::DeleteNotification.spec_code() == 7,
        Command::Notification.spec_code() == 8,
        Command::ReadWrite.spec_code() == 9,
{
}

/// Where to read or write, and how many bytes, can be read back at its place,
/// whatever follows.
pub proof fn index_length_fields(h: IndexLength, rest: Seq<u8>)
    ensures
        h.bytes().len() == 12,
        ({
            let p = h.bytes() + rest;
            &&& u32_at(p, 0) == h.index_group
            &&& u32_at(p, 4) == h.index_offset
            &&& u32_at(p, 8) == h.length
            &&& p.skip(12) == rest
        }),
{
    let p = h.bytes() + rest;
    let p2 = u32_bytes(h.length) + rest;
    let p1 = u32_bytes(h.index_offset) + p2;
    assert(p =~= u32_bytes(h.index_group) + p1);
    assert(p.skip(0) =~= p);
    field_u32(p, 0, h.index_group, p1);
    field_u32(p, 4, h.index_offset, p2);
    field_u32(p, 8, h.length, rest);
}

/// Where to write and read back can be read back at its place, whatever follows:
/// the number of bytes to read stands in front of the number of bytes written.
pub proof fn index_length_rw_fields(h: IndexLengthRW, rest: Seq<u8>)
    ensures
        h.bytes().len() == 16,
        ({
            let p = h.bytes() + rest;
            &&& u32_at(p, 0) == h.index_group
            &&& u32_at(p, 4) == h.index_offset
            &&& u32_at(p, 8) == h.read_length
            &&& u32_at(p, 12) == h.write_length
            &&& p.skip(16) == rest
        }),
{
    let p = h.bytes() + rest;
    let p3 = u32_bytes(h.write_length) + rest;
    let p2 = u32_bytes(h.read_length) + p3;
    let p1 = u32_bytes(h.index_offset) + p2;
    assert(p =~= u32_bytes(h.index_group) + p1);
    assert(p.skip(0) =~= p);
    field_u32(p, 0, h.index_group, p1);
    field_u32(p, 4, h.index_offset, p2);
    field_u32(p, 8, h.read_length, p3);
    field_u32(p, 12, h.write_length, rest);
}

/// What to watch can be read back at its place, whatever follows and whatever
/// the transmission mode is: the delay stands in front of the cycle time.
#[verifier::rlimit(40)]
pub proof fn add_notif_fields(h: AddNotif, rest: Seq<u8>)
    ensures
        h.bytes().len() == 40,
        ({
            let p = h.bytes() + rest;
            &&& u32_at(p, 0) == h.index_group
            &&& u32_at(p, 4) == h.index_offset
            &&& u32_at(p, 8) == h.length
            &&& u32_at(p, 12) == h.trans_mode
            &&& u32_at(p, 16) == h.max_delay
            &&& u32_at(p, 20) == h.cycle_time
            &&& p.subrange(24, 40) == h.reserved@
            &&& p.skip(40) == rest
        }),
{
    let p = h.bytes() + rest;
    let p6 = h.reserved@ + rest;
    let p5 = u32_bytes(h.cycle_time) + p6;
    let p4 = u32_bytes(h.max_delay) + p5;
    let p3 = u32_bytes(h.trans_mode) + p4;
    let p2 = u32_bytes(h.length) + p3;
    let p1 = u32_bytes(h.index_offset) + p2;
    assert(p =~= u32_bytes(h.index_group) + p1);
    assert(p.skip(0) =~= p);
    field_u32(p, 0, h.index_group, p1);
    field_u32(p, 4, h.index_offset, p2);
    field_u32(p, 8, h.length, p3);
    field_u32(p, 12, h.trans_mode, p4);
    field_u32(p, 16, h.max_delay, p5);
    field_u32(p, 20, h.cycle_time, p6);
    assert(p.subrange(24, 40) =~= p.skip(24).take(16));
    assert(p6.take(16) =~= h.reserved@);
    assert(p.skip(40) =~= p.skip(24).skip(16));
    assert(p6.skip(16) =~= rest);
}

/// The states to set can be read back at their places, whatever follows.
pub proof fn write_control_fields(h: WriteControl, rest: Seq<u8>)
    ensures
        h.bytes().len() == 8,
        ({
            let p = h.bytes() + rest;
            &&& u16_at(p, 0) == h.ads_state
            &&& u16_at(p, 2) == h.dev_state
            &&& u32_at(p, 4) == h.data_length
            &&& p.skip(8) == rest
        }),
{
    let p = h.bytes() + rest;
    let p2 = u32_bytes(h.data_length) + rest;
    let p1 = u16_bytes(h.dev_state) + p2;
    assert(p =~= u16_bytes(h.ads_state) + p1);
    assert(p.skip(0) =~= p);
    field_u16(p, 0, h.ads_state, p1);
    field_u16(p, 2, h.dev_state, p2);
    field_u32(p, 4, h.data_length, rest);
}

/// The states of a device can be read back at their places.
pub proof fn read_state_fields(state: ReadState)
    ensures
        state.bytes().len() == 4,
        u16_at(state.bytes(), 0) == state.ads_state,
        u16_at(state.bytes(), 2) == state.dev_state,
{
}

/// Name and version of a device can be read back at their places.
pub proof fn device_info_fields(info: DeviceInfoRaw)
    ensures
        info.bytes().len() == 20,
        info.bytes()[0] == info.major,
        info.bytes()[1] == info.minor,
        u16_at(info.bytes(), 2) == info.version,
        info.bytes().subrange(4, 20) == info.name@,
{
    assert(info.bytes().subrange(4, 20) =~= info.name@);
}

/// In an outcome the error code stands in front of the length or handle.
pub proof fn result_length_fields(s: Seq<u8>, at: int, res: ResultLength)
    ensures
        ResultLength::at(s, at).result == u32_at(s, at),
        ResultLength::at(s, at).length == u32_at(s, at + 4),
        res.bytes().len() == 8,
        u32_at(res.bytes(), 0) == res.result,
        u32_at(res.bytes(), 4) == res.length,
{
    u32_round_trip(res.result);
    u32_round_trip(res.length);
}

/// A part of a request for several notifications holds what was asked for,
/// whatever the transmission mode is: index group and offset, and of the
/// attributes the length, the mode, and the whole milliseconds of the delay and
/// then of the cycle time.
#[verifier::rlimit(40)]
pub proof fn notification_part_fields(
    request: AddNotifRequest,
    index_group: u32,
    index_offset: u32,
    attributes: notif::Attributes,
)
    requires
        request.asks_for(index_group, index_offset, attributes),
    ensures
        ({
            let p = request.req.bytes();
            &&& p.len() == 40
            &&& u32_at(p, 0) == index_group
            &&& u32_at(p, 4) == index_offset
            &&& u32_at(p, 8) == attributes.length as int % 0x1_0000_0000
            &&& u32_at(p, 12) == match attributes.trans_mode {
                notif::TransmissionMode::NoTrans => 0u32,
                notif::TransmissionMode::ServerCycle => 3u32,
                notif::TransmissionMode::ServerOnChange => 4u32,
            }
            &&& u32_at(p, 16) == duration_nanos(attributes.max_delay) / 1_000_000 % 0x1_0000_0000
            &&& u32_at(p, 20) == duration_nanos(attributes.cycle_time) / 1_000_000
                % 0x1_0000_0000
            &&& forall|k: int| 24 <= k < 40 ==> #[trigger] p[k] == 0
        }),
{
    let p = request.req.bytes();
    add_notif_fields(request.req, Seq::empty());
    assert(p + Seq::<u8>::empty() =~= p);
    assert forall|k: int| 24 <= k < 40 implies #[trigger] p[k] == 0 by {
        assert(p[k] == p.subrange(24, 40)[k - 24]);
    }
}

} // verus!
