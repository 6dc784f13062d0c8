//! The state of a connection to an ADS server: how requests are built, and how
//! replies are checked and taken apart.
use crate::commands::{header_fields, AdsHeader, Command};
use crate::error::{ads_error, length_field, Error, Result};
use crate::handles::HandleSet;
use crate::netid::AmsAddr;
use crate::notif::Handle;
use crate::source::SourceInfo;
use crate::timeouts::Timeouts;
use crate::utils::{capped, concat, concat_length, lengths, start_of, start_of_monotonic, start_of_prefix};
use crate::wire::{
    append, field_u32, next_u16, next_u32, read_u32, same_bytes, u16_at, u16_bytes_round_trip, u32_at, u32_bytes,
};
use std::time::Duration;
use vstd::prelude::*;

verus! {

/// Size of the AMS/TCP header.
pub const TCP_HEADER_SIZE: usize = 6;

/// Size of the AMS/TCP + AMS headers.
pub const AMS_HEADER_SIZE: usize = 38;

/// Capacity of a fresh packet buffer.
pub const DEFAULT_BUFFER_SIZE: usize = 100;

/// What the given input buffers hold.
pub open spec fn inputs(bufs: Seq<&[u8]>) -> Seq<Seq<u8>> {
    Seq::new(bufs.len(), |i: int| bufs[i]@)
}

/// What the given output buffers hold.
pub open spec fn outputs(bufs: Seq<&mut [u8]>) -> Seq<Seq<u8>> {
    Seq::new(bufs.len(), |i: int| bufs[i]@)
}

/// The header of a request that carries `len` bytes of data.
pub open spec fn request_header(
    cmd: Command,
    target: AmsAddr,
    source: AmsAddr,
    invoke_id: u32,
    len: int,
) -> AdsHeader {
    AdsHeader {
        ams_cmd: 0,
        length: (32 + len) as u32,
        dest_netid: target.spec_netid(),
        dest_port: target.spec_port(),
        src_netid: source.spec_netid(),
        src_port: source.spec_port(),
        command: cmd.code(),
        state_flags: 4,
        data_length: len as u32,
        error_code: 0,
        invoke_id,
    }
}

/// The packet that asks `target` to execute a command on the given data.
pub open spec fn request_packet(
    cmd: Command,
    target: AmsAddr,
    source: AmsAddr,
    invoke_id: u32,
    data: Seq<u8>,
) -> Seq<u8> {
    request_header(cmd, target, source, invoke_id, data.len() as int).bytes() + data
}

/// Whether the data length in the header of a packet is the number of bytes
/// behind the header.
pub open spec fn consistent(packet: Seq<u8>) -> bool {
    &&& packet.len() >= 38
    &&& u32_at(packet, 26) == packet.len() - 38
}

/// Whether a packet holds as much data as its header says.
pub open spec fn complete(packet: Seq<u8>) -> bool {
    &&& packet.len() >= 38
    &&& u32_at(packet, 26) <= packet.len() - 38
}

/// Whether a packet holds as much data as its header says.
pub fn is_complete(packet: &[u8]) -> (r: bool)
    ensures
        r == complete(packet@),
{
    if packet.len() < AMS_HEADER_SIZE {
        return false;
    }
    let data_len: u32 = read_u32(vstd::slice::slice_subrange(packet, 26, 30));
    data_len as usize <= packet.len() - AMS_HEADER_SIZE
}

/// The result field of a reply, which a reply without data lacks because an
/// error code is already set.
pub open spec fn result_field(reply: Seq<u8>) -> u32 {
    if reply.len() >= 42 {
        u32_at(reply, 38)
    } else {
        0
    }
}

/// The user data of a reply, behind the result field.
pub open spec fn payload(reply: Seq<u8>) -> Seq<u8> {
    if u32_at(reply, 26) >= 4 {
        reply.subrange(42, 38 + u32_at(reply, 26))
    } else {
        Seq::empty()
    }
}

/// Why a packet is not a successful reply to a request, or `None` if it is one.
pub open spec fn refusal(
    cmd: Command,
    target: AmsAddr,
    invoke_id: u32,
    reply: Seq<u8>,
) -> Option<Error> {
    let action = cmd.action();
    if reply.subrange(14, 22) != target.bytes() {
        Some(Error::Reply(action, "unexpected source address", 0))
    } else if u16_at(reply, 22) != cmd.code() {
        Some(Error::Reply(action, "unexpected command", u16_at(reply, 22) as u32))
    } else if u16_at(reply, 24) != 5 {
        Some(Error::Reply(action, "unexpected state flags", u16_at(reply, 24) as u32))
    } else if u32_at(reply, 34) != invoke_id {
        Some(Error::Reply(action, "unexpected invoke ID", u32_at(reply, 34)))
    } else if u32_at(reply, 30) != 0 {
        Some(Error::Ads(action, u32_at(reply, 30)))
    } else if result_field(reply) != 0 {
        Some(Error::Ads(action, result_field(reply)))
    } else {
        None
    }
}

/// What a command comes to, given the reply and the length of the first output
/// buffer: the number of bytes of user data, or an error.  Without an output
/// buffer no data is wanted.
pub open spec fn outcome(call: Call, reply: Seq<u8>, first: Option<int>) -> Result<usize> {
    match refusal(call.cmd, call.target, call.invoke_id, reply) {
        Some(e) => Err(e),
        None => match first {
            None => Ok(0),
            Some(n) => if u32_at(reply, 26) < n + 4 {
                Err(
                    Error::Reply(
                        call.cmd.action(),
                        "got less data than expected",
                        u32_at(reply, 26),
                    ),
                )
            } else {
                Ok(payload(reply).len() as usize)
            },
        },
    }
}

/// What is left of `s` from position `n` on.
pub open spec fn rest_of(s: Seq<u8>, n: int) -> Seq<u8> {
    if n <= s.len() {
        s.skip(n)
    } else {
        Seq::empty()
    }
}

/// A buffer after as much of `data` as fits was copied to its front.
pub open spec fn overlay(buf: Seq<u8>, data: Seq<u8>) -> Seq<u8> {
    if data.len() >= buf.len() {
        data.take(buf.len() as int)
    } else {
        data + buf.skip(data.len() as int)
    }
}

/// Copies as much of `data` as fits to the front of `buf`, and returns how many
/// bytes that is.
pub(crate) fn copy_front(buf: &mut [u8], data: &[u8]) -> (n: usize)
    ensures
        final(buf)@ == overlay(old(buf)@, data@),
        n == (if old(buf)@.len() < data@.len() {
            old(buf)@.len()
        } else {
            data@.len()
        }),
{
    let n: usize = if buf.len() < data.len() {
        buf.len()
    } else {
        data.len()
    };
    let ghost orig = buf@;
    let mut i: usize = 0;
    while i < n
        invariant
            i <= n <= data@.len(),
            n <= orig.len(),
            buf@.len() == orig.len(),
            forall|k: int| 0 <= k < i ==> buf@[k] == data@[k],
            forall|k: int| i <= k < orig.len() ==> buf@[k] == orig[k],
        decreases n - i,
    {
        buf[i] = data[i];
        i += 1;
    }
    assert(buf@ =~= overlay(orig, data@));
    n
}

/// A request that was handed out and awaits its reply.
#[derive(Debug)]
pub struct Call {
    /// The command that was requested.
    pub cmd: Command,
    /// The device that was asked.
    pub target: AmsAddr,
    /// Identifies the reply.
    pub invoke_id: u32,
    /// The packet to send.
    pub request: Vec<u8>,
}

/// Represents a connection to an ADS server.
#[derive(Debug)]
pub struct Comms {
    /// Current invoke ID (identifies the request/reply pair), incremented
    /// after each request
    pub invoke_id: u32,
    /// Read timeout
    pub read_timeout: Option<Duration>,
    /// The AMS address of the client
    pub source: AmsAddr,
    /// Active notification handles: these will be closed at the end
    pub notif_handles: HandleSet,
    /// If we opened our local port with the router
    pub source_port_opened: bool,
}

/// The invoke ID that follows the given one.
pub open spec fn next_id(invoke_id: u32) -> u32 {
    if invoke_id == u32::MAX {
        0
    } else {
        (invoke_id + 1) as u32
    }
}

/// Whether `new` is `old` after one more request: only the invoke ID changes.
pub open spec fn one_request_later(new: Comms, old: Comms) -> bool {
    &&& new.invoke_id == next_id(old.invoke_id)
    &&& new.read_timeout == old.read_timeout
    &&& new.source == old.source
    &&& new.notif_handles == old.notif_handles
    &&& new.source_port_opened == old.source_port_opened
}

/// Whether `new` is `old` but for the active notification handles.
pub open spec fn same_but_handles(new: Comms, old: Comms) -> bool {
    &&& new.invoke_id == old.invoke_id
    &&& new.read_timeout == old.read_timeout
    &&& new.source == old.source
    &&& new.source_port_opened == old.source_port_opened
}

/// What asking `target` to execute a command on the given data comes to.
///
/// The length fields of a packet have 32 bits; the invoke ID is used up even if
/// the data is too long for them.
pub open spec fn requested(
    r: Result<Call>,
    new: Comms,
    old: Comms,
    cmd: Command,
    target: AmsAddr,
    data: Seq<u8>,
) -> bool {
    &&& one_request_later(new, old)
    &&& match r {
        Ok(call) => {
            &&& 32 + data.len() <= u32::MAX
            &&& call.cmd == cmd
            &&& call.target == target
            &&& call.invoke_id == old.invoke_id
            &&& call.request@ == request_packet(cmd, target, old.source, old.invoke_id, data)
        },
        Err(e) => 32 + data.len() > u32::MAX && e is Overflow,
    }
}

impl Comms {
    /// The state of a fresh connection.
    ///
    /// Fails if a port was requested and the router did not open one.
    pub fn new(timeouts: Timeouts, source: SourceInfo) -> (r: Result<Self>)
        ensures
            match r {
                Ok(comms) => {
                    &&& source.resolves_to(Ok((comms.source, comms.source_port_opened)))
                    &&& comms.invoke_id == 0
                    &&& comms.read_timeout == timeouts.read
                    &&& comms.notif_handles@ == Set::<(AmsAddr, Handle)>::empty()
                },
                Err(e) => source.resolves_to(Err(e)),
            },
    {
        let (source, source_port_opened): (AmsAddr, bool) = source.resolve()?;
        Ok(
            Comms {
                invoke_id: 0,
                read_timeout: timeouts.read,
                source,
                notif_handles: HandleSet::new(),
                source_port_opened,
            },
        )
    }

    /// Return the source address the client is using.
    pub fn source(&self) -> (r: AmsAddr)
        ensures
            r == self.source,
    {
        self.source
    }

    /// Build the request for an ADS command.
    ///
    /// The data of the request comes from a number of input buffers.
    pub fn request(&mut self, cmd: Command, target: AmsAddr, data_in: &[&[u8]]) -> (r: Result<Call>)
        ensures
            requested(
                r,
                *final(self),
                *old(self),
                cmd,
                target,
                concat(inputs(data_in@)),
            ),
    {
        // Increase the invoke ID.  We could also generate a random u32, but
        // this way the sequence of packets can be tracked.
        let invoke_id: u32 = self.invoke_id;
        self.invoke_id = if invoke_id == u32::MAX {
            0
        } else {
            invoke_id + 1
        };

        // The data we send is the sum of all data_in buffers.
        let ghost bufs = inputs(data_in@);
        let ghost lens = lengths(bufs);
        proof {
            concat_length(bufs);
        }
        let mut data_in_len: u64 = 0;
        let mut i: usize = 0;
        while i < data_in.len()
            invariant
                i <= data_in@.len() == lens.len(),
                bufs == inputs(data_in@),
                lens == lengths(bufs),
                data_in_len == capped(start_of(lens, i as int)),
            decreases data_in@.len() - i,
        {
            proof {
                start_of_monotonic(lens, i as int, i as int);
                assert(lens[i as int] == data_in@[i as int]@.len());
            }
            data_in_len = data_in_len.saturating_add(data_in[i].len() as u64);
            i += 1;
        }

        // Create outgoing header.
        let ads_data_len: u64 = data_in_len.saturating_add(
            (AMS_HEADER_SIZE - TCP_HEADER_SIZE) as u64,
        );
        let length: u32 = length_field(ads_data_len)?;
        let header = AdsHeader {
            ams_cmd: 0,  // send command
            length,
            dest_netid: target.netid(),
            dest_port: target.port(),
            src_netid: self.source.netid(),
            src_port: self.source.port(),
            command: cmd.code(),
            state_flags: 4,  // state flags (4 = send command)
            data_length: data_in_len as u32,  // overflow checked above
            error_code: 0,
            invoke_id,
        };

        // Collect the outgoing data.
        let mut request: Vec<u8> = header.as_bytes();
        let ghost head = request@;
        assert(bufs.take(0) =~= Seq::<Seq<u8>>::empty());
        let mut k: usize = 0;
        while k < data_in.len()
            invariant
                k <= data_in@.len(),
                bufs == inputs(data_in@),
                request@ == head + concat(bufs.take(k as int)),
            decreases data_in@.len() - k,
        {
            proof {
                assert(bufs.take(k + 1).drop_last() =~= bufs.take(k as int));
                assert(bufs.take(k + 1).last() == data_in@[k as int]@);
            }
            append(&mut request, data_in[k]);
            assert(request@ =~= head + concat(bufs.take(k + 1)));
            k += 1;
        }
        assert(bufs.take(k as int) =~= bufs);
        Ok(Call { cmd, target, invoke_id, request })
    }

    /// Take the reply to an ADS command apart.
    ///
    /// Returns data in a number of output buffers.  These might not be filled
    /// completely; the return value specifies the number of total valid bytes.
    /// It is up to the caller to determine what this means in terms of the
    /// passed buffers.
    ///
    /// The reader already made sure that the reply is consistent and addressed
    /// to us.
    pub fn communicate(call: &Call, reply: &[u8], data_out: &mut [&mut [u8]]) -> (r: Result<usize>)
        requires
            complete(reply@),
        ensures
            r == outcome(
                *call,
                reply@,
                if old(data_out)@.len() == 0 {
                    None
                } else {
                    Some(outputs(old(data_out)@)[0].len() as int)
                },
            ),
            final(data_out)@.len() == old(data_out)@.len(),
            r is Err ==> outputs(final(data_out)@) == outputs(old(data_out)@),
            r is Ok ==> forall|m: int|
                0 <= m < old(data_out)@.len() ==> #[trigger] outputs(final(data_out)@)[m] == overlay(
                    outputs(old(data_out)@)[m],
                    rest_of(payload(reply@), start_of(lengths(outputs(old(data_out)@)), m)),
                ),
            forall|m: int|
                #![trigger final(data_out)@[m]]
                0 <= m < old(data_out)@.len() ==> final(final(data_out)@[m])@ == final(
                    old(data_out)@[m]
                )@,
    {
        let cmd = call.cmd;

        // The source netid/port must match what we sent.
        let mut target: Vec<u8> = Vec::new();
        call.target.write_to(&mut target);
        assert(target@ =~= call.target.bytes());
        if !same_bytes(vstd::slice::slice_subrange(reply, 14, 22), &target) {
            return Err(Error::Reply(cmd.action(), "unexpected source address", 0));
        }

        // Read the other fields we need.
        let mut ptr: &[u8] = vstd::slice::slice_subrange(reply, 22, reply.len());
        let ret_cmd: u16 = next_u16(&mut ptr);
        let state_flags: u16 = next_u16(&mut ptr);
        let data_len: u32 = next_u32(&mut ptr);
        let error_code: u32 = next_u32(&mut ptr);
        let response_id: u32 = next_u32(&mut ptr);
        let result: u32 = if reply.len() >= AMS_HEADER_SIZE + 4 {
            next_u32(&mut ptr)
        } else {
            0  // this must be because an error code is already set
        };

        // Command must match.
        if ret_cmd != cmd.code() {
            return Err(Error::Reply(cmd.action(), "unexpected command", ret_cmd as u32));
        }
        // State flags must be "4 | 1".
        if state_flags != 5 {
            return Err(Error::Reply(cmd.action(), "unexpected state flags", state_flags as u32));
        }
        // Invoke ID must match what we sent.
        if response_id != call.invoke_id {
            return Err(Error::Reply(cmd.action(), "unexpected invoke ID", response_id));
        }
        // Check error code in AMS header.
        if error_code != 0 {
            return ads_error(cmd.action(), error_code);
        }
        // Check result field in payload, only relevant if error_code == 0.
        if result != 0 {
            return ads_error(cmd.action(), result);
        }
        // If we don't want return data, we're done.
        let count: usize = data_out.len();
        if count == 0 {
            return Ok(0);
        }
        // Check returned length, it needs to fill at least the first data_out
        // buffer.  This also ensures that we had a result field.
        let first_len: usize = data_out[0].len();
        if (data_len as usize) < 4 || (data_len as usize) - 4 < first_len {
            return Err(Error::Reply(cmd.action(), "got less data than expected", data_len));
        }
        // The pure user data length, without the result field.
        let data_len: usize = data_len as usize - 4;

        // Distribute the data into the user output buffers, up to the returned
        // data length.
        let ghost before = data_out@;
        let ghost bufs = outputs(before);
        let ghost lens = lengths(bufs);
        let ghost data = payload(reply@);
        let end: usize = reply.len();
        let mut offset: usize = AMS_HEADER_SIZE + 4;
        let mut rest_len: usize = data_len;
        let mut k: usize = 0;
        while k < count
            invariant
                k <= count == before.len() == data_out@.len(),
                bufs == outputs(before),
                lens == lengths(bufs),
                data_len == data.len(),
                42 + data_len <= end == reply@.len(),
                data == reply@.subrange(42, 42 + data_len),
                rest_len <= data_len,
                offset + rest_len == 42 + data_len,
                0 <= start_of(lens, k as int),
                rest_len == (if start_of(lens, k as int) <= data.len() {
                    data.len() - start_of(lens, k as int)
                } else {
                    0
                }),
                forall|m: int|
                    0 <= m < k ==> #[trigger] outputs(data_out@)[m] == overlay(
                        bufs[m],
                        rest_of(data, start_of(lens, m)),
                    ),
                forall|m: int| k <= m < count ==> #[trigger] data_out@[m] == before[m],
                forall|m: int|
                    #![trigger data_out@[m]]
                    0 <= m < count ==> final(data_out@[m])@ == final(before[m])@,
            decreases count - k,
        {
            let rest: &[u8] = vstd::slice::slice_subrange(reply, offset, offset + rest_len);
            let ghost at_loop = data_out@;
            proof {
                assert(rest@ =~= rest_of(data, start_of(lens, k as int)));
                assert(data_out@[k as int] == before[k as int]);
                assert(bufs[k as int] == before[k as int]@);
                assert(lens[k as int] == before[k as int]@.len());
            }
            let n: usize = copy_front(&mut *data_out[k], rest);
            offset += n;
            rest_len -= n;
            k += 1;
            assert forall|m: int| 0 <= m < k implies #[trigger] outputs(data_out@)[m] == overlay(
                bufs[m],
                rest_of(data, start_of(lens, m)),
            ) by {
                if m < k - 1 {
                    assert(outputs(at_loop)[m] == overlay(bufs[m], rest_of(data, start_of(lens, m))));
                    assert(data_out@[m] == at_loop[m]);
                }
            }
        }

        // Return the length of data.
        Ok(data_len)
    }
}

/// A single input buffer is the whole input.
pub(crate) proof fn one_input(bufs: Seq<&[u8]>)
    requires
        bufs.len() == 1,
    ensures
        concat(inputs(bufs)) == bufs[0]@,
{
    reveal_with_fuel(concat, 2);
    assert(inputs(bufs).last() == bufs[0]@);
    assert(concat(inputs(bufs)) =~= bufs[0]@);
}

/// Two input buffers make up the whole input.
pub(crate) proof fn two_inputs(bufs: Seq<&[u8]>)
    requires
        bufs.len() == 2,
    ensures
        concat(inputs(bufs)) == bufs[0]@ + bufs[1]@,
{
    reveal_with_fuel(concat, 3);
    assert(inputs(bufs).last() == bufs[1]@);
    assert(inputs(bufs).drop_last().last() == bufs[0]@);
    assert(concat(inputs(bufs)) =~= bufs[0]@ + bufs[1]@);
}

/// The packet by which `target` answers a request of `source`.
pub open spec fn reply_packet(
    cmd: Command,
    target: AmsAddr,
    source: AmsAddr,
    invoke_id: u32,
    error_code: u32,
    result: u32,
    data: Seq<u8>,
) -> Seq<u8> {
    AdsHeader {
        ams_cmd: 0,
        length: (36 + data.len()) as u32,
        dest_netid: source.spec_netid(),
        dest_port: source.spec_port(),
        src_netid: target.spec_netid(),
        src_port: target.spec_port(),
        command: cmd.code(),
        state_flags: 5,
        data_length: (4 + data.len()) as u32,
        error_code,
        invoke_id,
    }.bytes() + (u32_bytes(result) + data)
}

/// The eight bytes of an address stand where its NetID and its port stand.
proof fn address_field(p: Seq<u8>, at: int, addr: AmsAddr)
    requires
        0 <= at,
        at + 8 <= p.len(),
        p.subrange(at, at + 6) == addr.spec_netid().0@,
        u16_at(p, at + 6) == addr.spec_port(),
    ensures
        p.subrange(at, at + 8) == addr.bytes(),
{
    let port = p.subrange(at + 6, at + 8);
    u16_bytes_round_trip(port);
    assert(u16_at(port, 0) == u16_at(p, at + 6));
    assert(p.subrange(at, at + 8) =~= p.subrange(at, at + 6) + port);
}

/// Every request is a consistent packet from the client to the target, and
/// holds the command, the invoke ID and the data that it was made of.
#[verifier::rlimit(40)]
pub proof fn request_fields(
    cmd: Command,
    target: AmsAddr,
    source: AmsAddr,
    invoke_id: u32,
    data: Seq<u8>,
)
    requires
        32 + data.len() <= u32::MAX,
    ensures
        ({
            let p = request_packet(cmd, target, source, invoke_id, data);
            &&& p.len() == 38 + data.len()
            &&& consistent(p)
            &&& u16_at(p, 0) == 0
            &&& u32_at(p, 2) == p.len() - 6
            &&& p.subrange(6, 14) == target.bytes()
            &&& p.subrange(14, 22) == source.bytes()
            &&& u16_at(p, 22) == cmd.code()
            &&& u16_at(p, 24) == 4
            &&& u32_at(p, 30) == 0
            &&& u32_at(p, 34) == invoke_id
            &&& p.skip(38) == data
        }),
{
    let p = request_packet(cmd, target, source, invoke_id, data);
    header_fields(request_header(cmd, target, source, invoke_id, data.len() as int), data);
    address_field(p, 6, target);
    address_field(p, 14, source);
}

/// The answer of the target to a request is accepted, and gives back exactly
/// the data that the target sent.  If the target reports an error, that error
/// comes back.
#[verifier::rlimit(40)]
pub proof fn answer_comes_back(
    call: Call,
    source: AmsAddr,
    error_code: u32,
    result: u32,
    data: Seq<u8>,
    first: Option<int>,
)
    requires
        36 + data.len() <= u32::MAX,
        data.len() <= usize::MAX,
    ensures
        ({
            let reply = reply_packet(
                call.cmd,
                call.target,
                source,
                call.invoke_id,
                error_code,
                result,
                data,
            );
            &&& consistent(reply)
            &&& complete(reply)
            &&& u16_at(reply, 0) == 0
            &&& u32_at(reply, 2) == reply.len() - 6
            &&& reply.subrange(6, 14) == source.bytes()
            &&& u16_at(reply, 22) == call.cmd.code()
            &&& payload(reply) == data
            &&& error_code != 0 ==> outcome(call, reply, first) == Err::<usize, Error>(
                Error::Ads(call.cmd.action(), error_code),
            )
            &&& error_code == 0 && result != 0 ==> outcome(call, reply, first) == Err::<
                usize,
                Error,
            >(Error::Ads(call.cmd.action(), result))
            &&& error_code == 0 && result == 0 ==> match first {
                None => outcome(call, reply, first) == Ok::<usize, Error>(0),
                Some(n) => if n <= data.len() {
                    outcome(call, reply, first) == Ok::<usize, Error>(data.len() as usize)
                } else {
                    outcome(call, reply, first) == Err::<usize, Error>(
                        Error::Reply(
                            call.cmd.action(),
                            "got less data than expected",
                            (4 + data.len()) as u32,
                        ),
                    )
                },
            }
        }),
{
    let reply = reply_packet(
        call.cmd,
        call.target,
        source,
        call.invoke_id,
        error_code,
        result,
        data,
    );
    let header = AdsHeader {
        ams_cmd: 0,
        length: (36 + data.len()) as u32,
        dest_netid: source.spec_netid(),
        dest_port: source.spec_port(),
        src_netid: call.target.spec_netid(),
        src_port: call.target.spec_port(),
        command: call.cmd.code(),
        state_flags: 5,
        data_length: (4 + data.len()) as u32,
        error_code,
        invoke_id: call.invoke_id,
    };
    header_fields(header, u32_bytes(result) + data);
    address_field(reply, 6, source);
    address_field(reply, 14, call.target);
    field_u32(reply, 38, result, data);
    assert(payload(reply) =~= reply.skip(42));
}

/// A reply answers one request only: two calls with different invoke IDs are
/// not both satisfied by it.
pub proof fn reply_answers_one_call(a: Call, b: Call, reply: Seq<u8>, fa: Option<int>, fb: Option<int>)
    requires
        a.invoke_id != b.invoke_id,
        outcome(a, reply, fa) is Ok,
    ensures
        outcome(b, reply, fb) is Err,
{
}

/// The invoke ID that is used `n` requests after the given one.
pub open spec fn id_after(invoke_id: u32, n: nat) -> u32
    decreases n,
{
    if n == 0 {
        invoke_id
    } else {
        next_id(id_after(invoke_id, (n - 1) as nat))
    }
}

/// The invoke ID counts up and starts over at 2^32.
pub proof fn id_counts_up(invoke_id: u32, n: nat)
    ensures
        id_after(invoke_id, n) == (invoke_id + n) % 0x1_0000_0000,
    decreases n,
{
    if n > 0 {
        id_counts_up(invoke_id, (n - 1) as nat);
    }
}

/// Any 2^32 requests in a row have different invoke IDs.
pub proof fn ids_do_not_repeat(invoke_id: u32, i: nat, j: nat)
    requires
        i < j < i + 0x1_0000_0000,
    ensures
        id_after(invoke_id, i) != id_after(invoke_id, j),
{
    id_counts_up(invoke_id, i);
    id_counts_up(invoke_id, j);
}

/// The output buffers take the data in order: laid end to end, they hold the
/// data at the front and behind it what they held before.
pub proof fn output_in_order(old_bufs: Seq<Seq<u8>>, new_bufs: Seq<Seq<u8>>, data: Seq<u8>)
    requires
        new_bufs.len() == old_bufs.len(),
        forall|m: int|
            0 <= m < old_bufs.len() ==> #[trigger] new_bufs[m] == overlay(
                old_bufs[m],
                rest_of(data, start_of(lengths(old_bufs), m)),
            ),
    ensures
        concat(new_bufs) == overlay(concat(old_bufs), data),
    decreases old_bufs.len(),
{
    let n = old_bufs.len() - 1;
    if n >= 0 {
        let front = old_bufs.drop_last();
        assert forall|m: int| 0 <= m < n implies #[trigger] new_bufs.drop_last()[m] == overlay(
            front[m],
            rest_of(data, start_of(lengths(front), m)),
        ) by {
            assert(new_bufs[m] == new_bufs.drop_last()[m]);
            start_of_prefix(lengths(front), lengths(old_bufs), m);
        }
        output_in_order(front, new_bufs.drop_last(), data);
        concat_length(front);
        start_of_prefix(lengths(front), lengths(old_bufs), n);
        assert(new_bufs[n] == overlay(old_bufs[n], rest_of(data, start_of(lengths(old_bufs), n))));
    }
    assert(concat(new_bufs) =~= overlay(concat(old_bufs), data));
}

/// Making a request uses up one invoke ID and changes nothing else of the
/// connection.  It succeeds if and only if the lengths fit in their fields, and
/// then the packet goes from the client to the target and holds the command, the
/// invoke ID and exactly the data.
#[verifier::rlimit(40)]
pub proof fn request_is_as_asked(
    r: Result<Call>,
    new: Comms,
    old: Comms,
    cmd: Command,
    target: AmsAddr,
    data: Seq<u8>,
)
    requires
        requested(r, new, old, cmd, target, data),
    ensures
        new.invoke_id == (old.invoke_id + 1) % 0x1_0000_0000,
        new.source == old.source,
        new.notif_handles == old.notif_handles,
        new.read_timeout == old.read_timeout,
        new.source_port_opened == old.source_port_opened,
        r is Ok <==> 32 + data.len() < 0x1_0000_0000,
        r matches Ok(call) ==> {
            let p = call.request@;
            &&& call.cmd == cmd
            &&& call.target == target
            &&& call.invoke_id == old.invoke_id
            &&& p.len() == 38 + data.len()
            &&& u16_at(p, 0) == 0
            &&& u32_at(p, 2) == 32 + data.len()
            &&& p.subrange(6, 14) == target.bytes()
            &&& p.subrange(14, 22) == old.source.bytes()
            &&& u16_at(p, 22) == cmd.code()
            &&& u16_at(p, 24) == 4
            &&& u32_at(p, 26) == data.len()
            &&& u32_at(p, 30) == 0
            &&& u32_at(p, 34) == old.invoke_id
            &&& p.skip(38) == data
        },
        r matches Err(e) ==> e is Overflow,
{
    if r is Ok {
        request_fields(cmd, target, old.source, old.invoke_id, data);
        let p = request_packet(cmd, target, old.source, old.invoke_id, data);
        header_fields(
            request_header(cmd, target, old.source, old.invoke_id, data.len() as int),
            data,
        );
        assert(p.len() == 38 + data.len());
    }
}

/// A packet is consistent if its data length is what follows the header, and
/// complete if it is no more than that.
pub proof fn packet_lengths(p: Seq<u8>)
    ensures
        consistent(p) <==> p.len() >= 38 && p.len() == 38 + u32_at(p, 26),
        complete(p) <==> p.len() >= 38 && p.len() >= 38 + u32_at(p, 26),
        consistent(p) ==> complete(p),
{
}

/// A reply is accepted if and only if it comes from the target, names the
/// command, is flagged as a reply, has the invoke ID of the request, reports no
/// error in either place, and has enough data for the first output buffer.  The
/// number of bytes of data is then what stands behind the result field.
pub proof fn reply_is_accepted(call: Call, reply: Seq<u8>, first: Option<int>)
    requires
        complete(reply),
        first matches Some(n) ==> n >= 0,
    ensures
        outcome(call, reply, first) is Ok <==> {
            &&& reply.subrange(14, 22) == call.target.bytes()
            &&& u16_at(reply, 22) == call.cmd.code()
            &&& u16_at(reply, 24) == 5
            &&& u32_at(reply, 34) == call.invoke_id
            &&& u32_at(reply, 30) == 0
            &&& reply.len() >= 42 ==> u32_at(reply, 38) == 0
            &&& first matches Some(n) ==> u32_at(reply, 26) >= n + 4
        },
        outcome(call, reply, first) is Ok && first is Some && reply.len() <= usize::MAX ==> outcome(
            call,
            reply,
            first,
        ) == Ok::<usize, Error>((u32_at(reply, 26) - 4) as usize),
        first is None && outcome(call, reply, first) is Ok ==> outcome(call, reply, first) == Ok::<
            usize,
            Error,
        >(0),
{
}

/// The first thing that is wrong with a reply is what is reported: a wrong
/// source, command, state flags or invoke ID, then an error of the device in the
/// header, then one in the result field, then too little data.
pub proof fn first_mismatch_is_reported(call: Call, reply: Seq<u8>, first: Option<int>)
    requires
        complete(reply),
    ensures
        ({
            let action = call.cmd.action();
            let r = outcome(call, reply, first);
            let from = reply.subrange(14, 22) == call.target.bytes();
            let cmd = from && u16_at(reply, 22) == call.cmd.code();
            let flags = cmd && u16_at(reply, 24) == 5;
            let id = flags && u32_at(reply, 34) == call.invoke_id;
            let header = id && u32_at(reply, 30) == 0;
            let result = header && (reply.len() >= 42 ==> u32_at(reply, 38) == 0);
            &&& !from ==> r == Err::<usize, Error>(
                Error::Reply(action, "unexpected source address", 0),
            )
            &&& from && !cmd ==> r == Err::<usize, Error>(
                Error::Reply(action, "unexpected command", u16_at(reply, 22) as u32),
            )
            &&& cmd && !flags ==> r == Err::<usize, Error>(
                Error::Reply(action, "unexpected state flags", u16_at(reply, 24) as u32),
            )
            &&& flags && !id ==> r == Err::<usize, Error>(
                Error::Reply(action, "unexpected invoke ID", u32_at(reply, 34)),
            )
            &&& id && !header ==> r == Err::<usize, Error>(Error::Ads(action, u32_at(reply, 30)))
            &&& header && !result ==> r == Err::<usize, Error>(
                Error::Ads(action, u32_at(reply, 38)),
            )
            &&& result && (first matches Some(n) && u32_at(reply, 26) < n + 4) ==> r == Err::<
                usize,
                Error,
            >(Error::Reply(action, "got less data than expected", u32_at(reply, 26)))
        }),
{
}

/// The user data of a reply starts behind the result field and goes as far as
/// the header says.
pub proof fn payload_bytes(reply: Seq<u8>, k: int)
    requires
        complete(reply),
        0 <= k < u32_at(reply, 26) - 4,
    ensures
        payload(reply).len() == u32_at(reply, 26) - 4,
        payload(reply)[k] == reply[42 + k],
{
}

/// Copying data to the front of a buffer changes no byte behind the data, and
/// keeps the size of the buffer.
pub proof fn overlay_bytes(buf: Seq<u8>, data: Seq<u8>, k: int)
    requires
        0 <= k < buf.len(),
    ensures
        overlay(buf, data).len() == buf.len(),
        overlay(buf, data)[k] == if k < data.len() {
            data[k]
        } else {
            buf[k]
        },
{
}

/// What is left of data starts at the given place.
pub proof fn rest_of_bytes(s: Seq<u8>, n: int, k: int)
    requires
        0 <= n,
        0 <= k,
        n + k < s.len(),
    ensures
        rest_of(s, n).len() == s.len() - n,
        rest_of(s, n)[k] == s[n + k],
        rest_of(s, s.len() + n).len() == 0,
{
}

/// After a reply each byte of each output buffer is the byte of the data that
/// falls there if the buffers are laid end to end, or what it was before if the
/// data ends in front of it.
pub proof fn output_byte(
    old_bufs: Seq<Seq<u8>>,
    new_bufs: Seq<Seq<u8>>,
    data: Seq<u8>,
    m: int,
    k: int,
)
    requires
        new_bufs.len() == old_bufs.len(),
        forall|m: int|
            0 <= m < old_bufs.len() ==> #[trigger] new_bufs[m] == overlay(
                old_bufs[m],
                rest_of(data, start_of(lengths(old_bufs), m)),
            ),
        0 <= m < old_bufs.len(),
        0 <= k < old_bufs[m].len(),
    ensures
        ({
            let at = start_of(lengths(old_bufs), m) + k;
            &&& 0 <= at
            &&& new_bufs[m].len() == old_bufs[m].len()
            &&& new_bufs[m][k] == if at < data.len() {
                data[at]
            } else {
                old_bufs[m][k]
            }
        }),
{
    start_of_monotonic(lengths(old_bufs), m, m);
    assert(new_bufs[m] == overlay(
        old_bufs[m],
        rest_of(data, start_of(lengths(old_bufs), m)),
    ));
}

/// The answer of a device stands in its packet field by field.
#[verifier::rlimit(40)]
pub proof fn reply_fields(
    cmd: Command,
    target: AmsAddr,
    source: AmsAddr,
    invoke_id: u32,
    error_code: u32,
    result: u32,
    data: Seq<u8>,
)
    requires
        36 + data.len() <= u32::MAX,
    ensures
        ({
            let p = reply_packet(cmd, target, source, invoke_id, error_code, result, data);
            &&& p.len() == 42 + data.len()
            &&& u16_at(p, 0) == 0
            &&& u32_at(p, 2) == 36 + data.len()
            &&& p.subrange(6, 14) == source.bytes()
            &&& p.subrange(14, 22) == target.bytes()
            &&& u16_at(p, 22) == cmd.code()
            &&& u16_at(p, 24) == 5
            &&& u32_at(p, 26) == 4 + data.len()
            &&& u32_at(p, 30) == error_code
            &&& u32_at(p, 34) == invoke_id
            &&& u32_at(p, 38) == result
            &&& p.skip(42) == data
        }),
{
    let p = reply_packet(cmd, target, source, invoke_id, error_code, result, data);
    let header = AdsHeader {
        ams_cmd: 0,
        length: (36 + data.len()) as u32,
        dest_netid: source.spec_netid(),
        dest_port: source.spec_port(),
        src_netid: target.spec_netid(),
        src_port: target.spec_port(),
        command: cmd.code(),
        state_flags: 5,
        data_length: (4 + data.len()) as u32,
        error_code,
        invoke_id,
    };
    header_fields(header, u32_bytes(result) + data);
    address_field(p, 6, source);
    address_field(p, 14, target);
    field_u32(p, 38, result, data);
}

/// The buffers of a command are taken in turn, each with all its bytes.
pub proof fn buffers_are_taken_in_turn(ins: Seq<&[u8]>, outs: Seq<&mut [u8]>, i: int)
    ensures
        inputs(ins).len() == ins.len(),
        outputs(outs).len() == outs.len(),
        0 <= i < ins.len() ==> inputs(ins)[i] == ins[i]@,
        0 <= i < outs.len() ==> outputs(outs)[i] == outs[i]@,
{
}

/// Recording handles changes nothing else of the connection.
pub proof fn handles_alone_change(new: Comms, old: Comms)
    requires
        same_but_handles(new, old),
    ensures
        new.invoke_id == old.invoke_id,
        new.source == old.source,
        new.read_timeout == old.read_timeout,
        new.source_port_opened == old.source_port_opened,
{
}

} // verus!
