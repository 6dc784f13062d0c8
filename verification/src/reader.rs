//! The reader of a connection: takes replies and notifications, and says where
//! they go.
use crate::commands::{command_by_code, Command};
use crate::comms::{
    answer_comes_back, complete, consistent, reply_packet, Call, AMS_HEADER_SIZE, TCP_HEADER_SIZE,
};
use crate::error::Error;
use crate::netid::AmsAddr;
use crate::notif::{
    a_notification_is_made_of_stamps, is_notification, stamps_bytes, stamps_fit, stamps_make_a_notification,
    Notification, StampParts,
};
use crate::wire::{read_u16, read_u32, same_bytes, u16_at, u32_at, u32_bytes};
use vstd::prelude::*;

verus! {

/// What becomes of a packet.
#[derive(Clone, Copy, Debug, PartialEq, Eq, Structural)]
pub enum Fate {
    /// It is not for us, or not of interest.
    Ignored,
    /// It goes to whoever sent the request.
    Reply,
    /// It goes to whoever wants notifications.
    Notification,
    /// It is no AMS packet that we know.
    Unknown,
    /// Its lengths contradict each other.
    Inconsistent,
    /// It ends before the fields that have to be looked at.
    Truncated,
}

/// Whether the packet length in the AMS/TCP header is the number of bytes
/// behind that header.
pub open spec fn whole(p: Seq<u8>) -> bool {
    &&& p.len() >= 6
    &&& u32_at(p, 2) == p.len() - 6
}

/// Whether a packet without ADS command is one that routers are known to send.
pub open spec fn is_router_packet(ams_cmd: u16) -> bool {
    ams_cmd == 1 || ams_cmd == 4096 || ams_cmd == 4097 || ams_cmd == 4098
}

/// What becomes of a packet, if the bytes of our address are `source`.
pub open spec fn fate(source: Seq<u8>, p: Seq<u8>) -> Fate {
    if u16_at(p, 0) != 0 {
        if is_router_packet(u16_at(p, 0)) {
            Fate::Ignored
        } else {
            Fate::Unknown
        }
    } else if p.len() < 38 {
        Fate::Truncated
    } else if !consistent(p) {
        Fate::Inconsistent
    } else if p.subrange(6, 14) != source {
        Fate::Ignored
    } else if u16_at(p, 22) != Command::Notification.code() {
        Fate::Reply
    } else if p.len() < 42 {
        Fate::Truncated
    } else if u16_at(p, 24) != 4 || u32_at(p, 30) != 0 || u32_at(p, 38) != p.len() - 42 || u32_at(
        p,
        38,
    ) < 4 {
        Fate::Ignored
    } else if is_notification(p) {
        Fate::Notification
    } else {
        Fate::Ignored
    }
}

/// What happened to the reader.
#[derive(Debug)]
pub enum Event {
    /// The reader was started.
    Started,
    /// The AMS/TCP header of a packet was read.
    Header([u8; 6]),
    /// There is no further header.
    NoHeader,
    /// The rest of a packet could not be read.
    NoRest(Error),
    /// A packet is complete.
    Packet(Vec<u8>),
    /// A reply was taken.
    Delivered,
    /// A reply was not taken: the client must have been shut down.
    Refused,
    /// A notification was passed on.
    Notified,
}

/// What the reader does next.
#[derive(Debug)]
pub enum Action {
    /// Read the AMS/TCP header of a packet.
    ReadHeader,
    /// Read so many bytes behind the header.
    ReadRest(u32),
    /// Hand a packet to whoever sent the request.
    Deliver(Vec<u8>),
    /// Hand a notification to whoever wants it.
    Notify(Notification),
    /// Report an error to whoever sent a request, then stop.
    Fail(Error),
    /// Stop.
    Stop,
    /// The packet is too short to be looked at: there is no way to go on.
    GiveUp,
}

/// Takes replies and notifications and distributes them accordingly.
#[derive(Clone, Copy, Debug)]
pub struct Reader {
    /// The bytes of our address.
    pub source: [u8; 8],
}

impl Reader {
    /// Whether `action` is what the reader does when `event` has happened.
    pub open spec fn responds(self, event: Event, action: Action) -> bool {
        match event {
            Event::Started | Event::Delivered | Event::Notified => action is ReadHeader,
            Event::Header(header) => action == Action::ReadRest(u32_at(header@, 2)),
            // Not reporting an error; we don't know if something was requested
            // or the connection was just closed from either side.
            Event::NoHeader | Event::Refused => action is Stop,
            Event::NoRest(e) => action == Action::Fail(e),
            Event::Packet(buf) => match fate(self.source@, buf@) {
                Fate::Ignored => action is ReadHeader,
                Fate::Reply => action matches Action::Deliver(reply) && reply@ == buf@,
                Fate::Notification => action matches Action::Notify(notif) && notif@ == buf@,
                Fate::Unknown => action == Action::Fail(
                    Error::Reply(
                        "reading packet",
                        "invalid packet or unknown AMS command",
                        u16_at(buf@, 0) as u32,
                    ),
                ),
                Fate::Inconsistent => action == Action::Fail(
                    Error::Reply("reading packet", "inconsistent packet", 0),
                ),
                Fate::Truncated => action is GiveUp,
            },
        }
    }

    /// The reader of a client with the given address.
    pub fn new(source: AmsAddr) -> (r: Self)
        ensures
            r.source@ == source.bytes(),
    {
        let mut bytes: Vec<u8> = Vec::new();
        source.write_to(&mut bytes);
        assert(bytes@ =~= source.bytes());
        let r = Reader {
            source: [
                bytes[0],
                bytes[1],
                bytes[2],
                bytes[3],
                bytes[4],
                bytes[5],
                bytes[6],
                bytes[7],
            ],
        };
        assert(r.source@ =~= source.bytes());
        r
    }

    /// Look at a packet.
    fn packet(&self, buf: Vec<u8>) -> (action: Action)
        requires
            whole(buf@),
        ensures
            self.responds(Event::Packet(buf), action),
    {
        // Is it something other than an ADS command packet?
        let ams_cmd: u16 = read_u16(&buf);
        if ams_cmd != 0 {
            // if it's a known packet type, continue
            if ams_cmd == 1 || ams_cmd == 4096 || ams_cmd == 4097 || ams_cmd == 4098 {
                return Action::ReadHeader;
            }
            return Action::Fail(
                Error::Reply(
                    "reading packet",
                    "invalid packet or unknown AMS command",
                    ams_cmd as u32,
                ),
            );
        }
        if buf.len() < AMS_HEADER_SIZE {
            return Action::GiveUp;
        }

        // If the header length fields aren't self-consistent, abort the
        // connection.
        let packet_length: usize = buf.len() - TCP_HEADER_SIZE;
        let rest_length: usize = read_u32(vstd::slice::slice_subrange(&buf, 26, 30)) as usize;
        if rest_length != packet_length + TCP_HEADER_SIZE - AMS_HEADER_SIZE {
            return Action::Fail(Error::Reply("reading packet", "inconsistent packet", 0));
        }

        // Check that the packet is meant for us.
        if !same_bytes(vstd::slice::slice_subrange(&buf, 6, 14), &self.source) {
            return Action::ReadHeader;
        }

        // If it looks like a reply, send it back to the requesting thread, it
        // will handle further validation.
        if read_u16(vstd::slice::slice_subrange(&buf, 22, 24)) != Command::Notification.code() {
            return Action::Deliver(buf);
        }
        if rest_length < 4 {
            return Action::GiveUp;
        }

        // Validate notification message fields.
        let state_flags: u16 = read_u16(vstd::slice::slice_subrange(&buf, 24, 26));
        let error_code: u32 = read_u32(vstd::slice::slice_subrange(&buf, 30, 34));
        let length: usize = read_u32(vstd::slice::slice_subrange(&buf, 38, 42)) as usize;
        if state_flags != 4 || error_code != 0 || length != rest_length - 4 || length < 4 {
            return Action::ReadHeader;
        }

        // Send the notification to whoever wants to receive it.
        match Notification::new(buf) {
            Some(notif) => Action::Notify(notif),
            None => Action::ReadHeader,
        }
    }

    /// Say what to do next.
    pub fn run(&self, event: Event) -> (action: Action)
        requires
            event matches Event::Packet(buf) ==> whole(buf@),
        ensures
            self.responds(event, action),
    {
        match event {
            Event::Started | Event::Delivered | Event::Notified => Action::ReadHeader,
            Event::Header(header) => {
                Action::ReadRest(read_u32(vstd::slice::slice_subrange(&header, 2, 6)))
            },
            Event::NoHeader | Event::Refused => Action::Stop,
            Event::NoRest(e) => Action::Fail(e),
            Event::Packet(buf) => self.packet(buf),
        }
    }
}

/// What the reader hands out is consistent and addressed to us.
pub proof fn handed_out_is_checked(source: Seq<u8>, p: Seq<u8>)
    requires
        fate(source, p) is Reply || fate(source, p) is Notification,
    ensures
        consistent(p),
        complete(p),
        p.subrange(6, 14) == source,
{
}

/// The answer to a request of ours is handed to whoever sent the request.
pub proof fn answer_is_delivered(call: Call, source: AmsAddr, error_code: u32, result: u32, data: Seq<u8>)
    requires
        call.cmd != Command::Notification,
        36 + data.len() <= u32::MAX,
        data.len() <= usize::MAX,
    ensures
        ({
            let reply = reply_packet(
                call.cmd,
                call.target,
                source,
                call.invoke_id,
                error_code,
                result,
                data,
            );
            &&& whole(reply)
            &&& fate(source.bytes(), reply) is Reply
        }),
{
    answer_comes_back(call, source, error_code, result, data, None);
    command_by_code(call.cmd, Command::Notification);
}

/// Every well-formed notification for us is handed on: one with the command,
/// flags, error code and lengths of a notification, made of any number of stamps
/// with any number of samples.
pub proof fn notification_is_handed_on(source: Seq<u8>, p: Seq<u8>, stamps: Seq<StampParts>)
    requires
        p.len() >= 46,
        u16_at(p, 0) == 0,
        p.subrange(6, 14) == source,
        u16_at(p, 22) == 8,
        u16_at(p, 24) == 4,
        u32_at(p, 26) == p.len() - 38,
        u32_at(p, 30) == 0,
        u32_at(p, 38) == p.len() - 42,
        stamps_fit(stamps),
        p.skip(42) == u32_bytes(stamps.len() as u32) + stamps_bytes(stamps),
    ensures
        fate(source, p) is Notification,
{
    stamps_make_a_notification(p, stamps);
}

/// What is handed on as a notification is one: it is for us, has the command,
/// flags, error code and lengths of a notification, and is made of stamps and
/// samples to its end.
pub proof fn handed_on_is_a_notification(source: Seq<u8>, p: Seq<u8>)
    requires
        fate(source, p) is Notification,
    ensures
        p.len() >= 46,
        u16_at(p, 0) == 0,
        p.subrange(6, 14) == source,
        u16_at(p, 22) == 8,
        u16_at(p, 24) == 4,
        u32_at(p, 26) == p.len() - 38,
        u32_at(p, 30) == 0,
        u32_at(p, 38) == p.len() - 42,
        exists|stamps: Seq<StampParts>|
            #![trigger stamps_bytes(stamps)]
            stamps_fit(stamps) && stamps.len() == u32_at(p, 42) && p.skip(46) == stamps_bytes(
                stamps,
            ),
{
    a_notification_is_made_of_stamps(p);
}

/// A packet is delivered as a reply if and only if it is an ADS packet of the
/// length that its header says, for us, and with any command but that of a
/// notification.
pub proof fn reply_is_delivered(source: Seq<u8>, p: Seq<u8>)
    ensures
        fate(source, p) is Reply <==> {
            &&& p.len() >= 38
            &&& u16_at(p, 0) == 0
            &&& u32_at(p, 26) == p.len() - 38
            &&& p.subrange(6, 14) == source
            &&& u16_at(p, 22) != 8
        },
{
}

/// A connection fails on a packet if and only if it is no ADS packet and none
/// that routers are known to send, or an ADS packet whose length is not what its
/// header says.
pub proof fn connection_fails(source: Seq<u8>, p: Seq<u8>)
    ensures
        fate(source, p) is Unknown <==> {
            let cmd = u16_at(p, 0);
            cmd != 0 && cmd != 1 && cmd != 0x1000 && cmd != 0x1001 && cmd != 0x1002
        },
        fate(source, p) is Inconsistent <==> u16_at(p, 0) == 0 && p.len() >= 38 && u32_at(p, 26)
            != p.len() - 38,
        fate(source, p) is Truncated <==> u16_at(p, 0) == 0 && (p.len() < 38 || {
            &&& u32_at(p, 26) == p.len() - 38
            &&& p.subrange(6, 14) == source
            &&& u16_at(p, 22) == 8
            &&& p.len() < 42
        }),
{
}

/// What the reader does depends on nothing but what happened: after its start,
/// and after a reply or notification was taken, it reads a header; a header tells
/// how much to read; without a header or without a taker it stops; an error goes
/// to the client.
pub proof fn reader_goes_on(reader: Reader, event: Event, action: Action)
    requires
        reader.responds(event, action),
    ensures
        event is Started || event is Delivered || event is Notified ==> action is ReadHeader,
        event matches Event::Header(header) ==> action == Action::ReadRest(u32_at(header@, 2)),
        event is NoHeader || event is Refused ==> action is Stop,
        event matches Event::NoRest(e) ==> action == Action::Fail(e),
        event matches Event::Packet(buf) ==> {
            let fate = fate(reader.source@, buf@);
            &&& fate is Reply ==> (action matches Action::Deliver(reply) && reply@ == buf@)
            &&& fate is Notification ==> (action matches Action::Notify(notif) && notif@ == buf@)
            &&& fate is Ignored ==> action is ReadHeader
            &&& fate is Truncated ==> action is GiveUp
            &&& fate is Unknown ==> action == Action::Fail(
                Error::Reply(
                    "reading packet",
                    "invalid packet or unknown AMS command",
                    u16_at(buf@, 0) as u32,
                ),
            )
            &&& fate is Inconsistent ==> action == Action::Fail(
                Error::Reply("reading packet", "inconsistent packet", 0),
            )
        },
{
}

/// A packet is whole if its length is what its first header says.
pub proof fn whole_packet_length(p: Seq<u8>)
    ensures
        whole(p) <==> p.len() >= 6 && p.len() == 6 + u32_at(p, 2),
{
}

} // verus!
