//! Operations on a specific ADS device.
//!
//! Each operation comes in two parts: one builds the request, the other takes
//! the reply apart.
use crate::closing::deleted_handle;
use crate::commands::{
    index_length_fields, index_length_rw_fields, write_control_fields, AddNotif, Command, DeviceInfo, DeviceInfoRaw, IndexLength, IndexLengthRW, ReadState, WriteControl,
};
use crate::comms::{
    answer_comes_back, complete, inputs, one_input, outcome, outputs, overlay, payload, reply_is_accepted, reply_packet,
    request_fields, request_is_as_asked, request_packet, requested, rest_of, same_but_handles, two_inputs, Call, Comms,
};
use crate::error::{length_field, Error, Result};
use crate::netid::AmsAddr;
use crate::notif::{Attributes, Handle, TransmissionMode};
use crate::state::AdsState;
use crate::text::{byte_text, chars, until_zero};
use crate::time::{duration_millis, duration_nanos, millis_field};
use crate::utils::{concat, lengths, start_of};
use crate::wire::{field_u32, shifted, u16_at, u32_as_bytes, u32_at, u32_bytes, u32_get, u32_round_trip};
use vstd::prelude::*;

verus! {

/// Whether a request was not made because a length does not fit in its field.
pub open spec fn too_long(r: Result<Call>, new: Comms, old: Comms) -> bool {
    &&& r matches Err(Error::Overflow(_))
    &&& new == old
}

/// A specific ADS device.
#[derive(Clone, Copy, Debug)]
pub struct Device {
    /// The address of the device.
    pub addr: AmsAddr,
}

/// The first four bytes of the output buffers and the rest, after a successful
/// reply.
proof fn two_outputs(old_outs: Seq<Seq<u8>>, new_outs: Seq<Seq<u8>>, data: Seq<u8>)
    requires
        old_outs.len() == 2,
        new_outs.len() == 2,
        old_outs[0].len() == 4,
        data.len() >= 4,
        forall|m: int|
            0 <= m < 2 ==> #[trigger] new_outs[m] == overlay(
                old_outs[m],
                rest_of(data, start_of(lengths(old_outs), m)),
            ),
    ensures
        new_outs[0] == data.take(4),
        new_outs[1] == overlay(old_outs[1], rest_of(data, 4)),
{
    reveal_with_fuel(start_of, 2);
    assert(rest_of(data, 0) =~= data);
    assert(lengths(old_outs)[0] == 4);
    assert(new_outs[0] == data.take(4));
    assert(new_outs[1] == overlay(old_outs[1], rest_of(data, 4)));
}

/// The length field in front of the data of a reply to a read.
pub open spec fn reported_length(reply: Seq<u8>) -> u32 {
    u32_at(payload(reply), 0)
}

/// The data of a reply to a read, behind the length field.
pub open spec fn returned_data(reply: Seq<u8>) -> Seq<u8> {
    rest_of(payload(reply), 4)
}

/// How many bytes of data a reply to a read returns: as many as the device
/// reports, but no more than came back.
pub open spec fn returned_length(reply: Seq<u8>) -> nat {
    if reported_length(reply) <= returned_data(reply).len() {
        reported_length(reply) as nat
    } else {
        returned_data(reply).len()
    }
}

/// Takes a reply apart that holds a length and then data.
///
/// Returns the length field and the number of bytes behind it; the data goes to
/// the front of `data`.
pub(crate) fn length_and_data(call: &Call, reply: &[u8], data: &mut [u8]) -> (r: Result<
    (u32, usize),
>)
    requires
        complete(reply@),
    ensures
        match outcome(*call, reply@, Some(4)) {
            Err(e) => r == Err::<(u32, usize), Error>(e) && final(data)@ == old(data)@,
            Ok(_) => {
                &&& r matches Ok((length, came))
                &&& length == reported_length(reply@)
                &&& came == returned_data(reply@).len()
                &&& final(data)@ == overlay(old(data)@, returned_data(reply@))
            },
        },
{
    let mut read_len: [u8; 4] = [0; 4];
    let ghost before = data@;
    let ghost zeros = read_len@;
    let mut outs: [&mut [u8]; 2] = [&mut read_len, data];
    let ghost old_outs = outputs(outs@);
    let r = Comms::communicate(call, reply, &mut outs);
    proof {
        assert(has_resolved(outs@[0]));
        assert(has_resolved(outs@[1]));
        assert(outputs(outs@)[0] == outs@[0]@);
        assert(outputs(outs@)[1] == outs@[1]@);
        assert(old_outs[0] == zeros);
        assert(old_outs[1] == before);
        if r is Ok {
            two_outputs(old_outs, outputs(outs@), payload(reply@));
        }
    }
    match r {
        Err(e) => Err(e),
        Ok(total) => {
            let length: u32 = u32_get(read_len);
            assert(length == reported_length(reply@));
            Ok((length, total - 4))
        },
    }
}

/// The smaller one of the length that is reported and the number of bytes that
/// came.
fn valid_length(length: u32, came: usize) -> (r: usize)
    ensures
        r == if length <= came {
            length as int
        } else {
            came as int
        },
{
    if length as usize <= came {
        length as usize
    } else {
        came
    }
}

impl Device {
    /// The device at the given address.
    pub fn new(addr: AmsAddr) -> (r: Self)
        ensures
            r.addr == addr,
    {
        Device { addr }
    }

    /// The address of the device.
    pub fn address(&self) -> (r: AmsAddr)
        ensures
            r == self.addr,
    {
        self.addr
    }

    /// Ask for the device's name + version.
    pub fn get_info_request(&self, comms: &mut Comms) -> (r: Result<Call>)
        ensures
            requested(
                r,
                *final(comms),
                *old(comms),
                Command::DevInfo,
                self.addr,
                Seq::empty(),
            ),
    {
        let data_in: [&[u8]; 0] = [];
        assert(concat(inputs(data_in@)) =~= Seq::empty());
        comms.request(Command::DevInfo, self.addr, &data_in)
    }

    /// Get the device's name + version out of the reply.
    ///
    /// The name is null-terminated.  Technically it's Windows-1252, but in
    /// practice no non-ASCII occurs.
    pub fn get_info(call: &Call, reply: &[u8]) -> (r: Result<DeviceInfo>)
        requires
            complete(reply@),
        ensures
            match outcome(*call, reply@, Some(20)) {
                Err(e) => r == Err::<DeviceInfo, Error>(e),
                Ok(_) => {
                    &&& r matches Ok(info)
                    &&& info.major == payload(reply@)[0]
                    &&& info.minor == payload(reply@)[1]
                    &&& info.version == u16_at(payload(reply@), 2)
                    &&& info.name@ == chars(until_zero(payload(reply@).subrange(4, 20)))
                },
            },
    {
        let mut data: [u8; 20] = [0; 20];
        let ghost zeros = data@;
        let mut outs: [&mut [u8]; 1] = [&mut data];
        let ghost old_outs = outputs(outs@);
        let r = Comms::communicate(call, reply, &mut outs);
        proof {
            assert(has_resolved(outs@[0]));
            assert(outputs(outs@)[0] == outs@[0]@);
            assert(old_outs[0] == zeros);
            assert(start_of(lengths(old_outs), 0) == 0);
            assert(rest_of(payload(reply@), 0) =~= payload(reply@));
        }
        match r {
            Err(e) => Err(e),
            Ok(_) => {
                assert(data@ == payload(reply@).take(20));
                let raw = DeviceInfoRaw::from_bytes(data);
                assert(raw.name@ =~= payload(reply@).subrange(4, 20));
                Ok(
                    DeviceInfo {
                        major: raw.major,
                        minor: raw.minor,
                        version: raw.version,
                        name: byte_text(&raw.name),
                    },
                )
            },
        }
    }

    /// Ask for some data at a given index group/offset.
    pub fn read_request(
        &self,
        comms: &mut Comms,
        index_group: u32,
        index_offset: u32,
        length: usize,
    ) -> (r: Result<Call>)
        ensures
            if length <= u32::MAX {
                requested(
                    r,
                    *final(comms),
                    *old(comms),
                    Command::Read,
                    self.addr,
                    IndexLength { index_group, index_offset, length: length as u32 }.bytes(),
                )
            } else {
                too_long(r, *final(comms), *old(comms))
            },
    {
        let header = IndexLength {
            index_group,
            index_offset,
            length: length_field(length as u64)?,
        };
        let bytes: Vec<u8> = header.as_bytes();
        let data_in: [&[u8]; 1] = [&bytes];
        proof {
            one_input(data_in@);
        }
        comms.request(Command::Read, self.addr, &data_in)
    }

    /// Get the data out of the reply.  Returned data can be shorter than the
    /// buffer, the length is the return value.  If more comes back than the
    /// buffer holds, the rest is dropped, and the length says so.
    pub fn read(call: &Call, reply: &[u8], data: &mut [u8]) -> (r: Result<usize>)
        requires
            complete(reply@),
        ensures
            match outcome(*call, reply@, Some(4)) {
                Err(e) => r == Err::<usize, Error>(e) && final(data)@ == old(data)@,
                Ok(_) => {
                    &&& r matches Ok(n)
                    &&& n == returned_length(reply@)
                    &&& final(data)@ == overlay(old(data)@, returned_data(reply@))
                },
            },
    {
        let (length, came): (u32, usize) = length_and_data(call, reply, data)?;
        Ok(valid_length(length, came))
    }

    /// Get the data out of the reply, ensuring that the returned data has
    /// exactly the size of the passed buffer.
    pub fn read_exact(call: &Call, reply: &[u8], data: &mut [u8]) -> (r: Result<()>)
        requires
            complete(reply@),
        ensures
            match outcome(*call, reply@, Some(4)) {
                Err(e) => r == Err::<(), Error>(e) && final(data)@ == old(data)@,
                Ok(_) => {
                    &&& r == if returned_data(reply@).len() == old(data)@.len() {
                        Ok::<(), Error>(())
                    } else {
                        Err::<(), Error>(
                            Error::Reply(
                                "read data",
                                "got less data than expected",
                                reported_length(reply@),
                            ),
                        )
                    }
                    &&& final(data)@ == overlay(old(data)@, returned_data(reply@))
                },
            },
            r is Ok ==> final(data)@ == returned_data(reply@),
    {
        let (length, came): (u32, usize) = length_and_data(call, reply, data)?;
        if came != data.len() {
            return Err(Error::Reply("read data", "got less data than expected", length));
        }
        Ok(())
    }

    /// Ask to write some data to a given index group/offset.
    pub fn write_request(
        &self,
        comms: &mut Comms,
        index_group: u32,
        index_offset: u32,
        data: &[u8],
    ) -> (r: Result<Call>)
        ensures
            if data@.len() <= u32::MAX {
                requested(
                    r,
                    *final(comms),
                    *old(comms),
                    Command::Write,
                    self.addr,
                    IndexLength { index_group, index_offset, length: data@.len() as u32 }.bytes()
                        + data@,
                )
            } else {
                too_long(r, *final(comms), *old(comms))
            },
    {
        let header = IndexLength {
            index_group,
            index_offset,
            length: length_field(data.len() as u64)?,
        };
        let bytes: Vec<u8> = header.as_bytes();
        let data_in: [&[u8]; 2] = [&bytes, data];
        proof {
            two_inputs(data_in@);
        }
        comms.request(Command::Write, self.addr, &data_in)
    }

    /// Make sure that the data was written.
    pub fn write(call: &Call, reply: &[u8]) -> (r: Result<()>)
        requires
            complete(reply@),
        ensures
            acknowledged(*call, reply@, r),
    {
        acknowledge(call, reply)
    }

    /// Ask to write some data to a given index group/offset and then read back
    /// some reply from there.  This is not the same as a write followed by a
    /// read; it is used as a kind of RPC call.
    pub fn write_read_request(
        &self,
        comms: &mut Comms,
        index_group: u32,
        index_offset: u32,
        write_data: &[u8],
        read_length: usize,
    ) -> (r: Result<Call>)
        ensures
            if read_length <= u32::MAX && write_data@.len() <= u32::MAX {
                requested(
                    r,
                    *final(comms),
                    *old(comms),
                    Command::ReadWrite,
                    self.addr,
                    IndexLengthRW {
                        index_group,
                        index_offset,
                        read_length: read_length as u32,
                        write_length: write_data@.len() as u32,
                    }.bytes() + write_data@,
                )
            } else {
                too_long(r, *final(comms), *old(comms))
            },
    {
        let header = IndexLengthRW {
            index_group,
            index_offset,
            read_length: length_field(read_length as u64)?,
            write_length: length_field(write_data.len() as u64)?,
        };
        let bytes: Vec<u8> = header.as_bytes();
        let data_in: [&[u8]; 2] = [&bytes, write_data];
        proof {
            two_inputs(data_in@);
        }
        comms.request(Command::ReadWrite, self.addr, &data_in)
    }

    /// Get the data out of the reply.  Returned data can be shorter than the
    /// buffer, the length is the return value.  If more comes back than the
    /// buffer holds, the rest is dropped, and the length says so.
    pub fn write_read(call: &Call, reply: &[u8], read_data: &mut [u8]) -> (r: Result<usize>)
        requires
            complete(reply@),
        ensures
            match outcome(*call, reply@, Some(4)) {
                Err(e) => r == Err::<usize, Error>(e) && final(read_data)@ == old(read_data)@,
                Ok(_) => {
                    &&& r matches Ok(n)
                    &&& n == returned_length(reply@)
                    &&& final(read_data)@ == overlay(old(read_data)@, returned_data(reply@))
                },
            },
    {
        let (length, came): (u32, usize) = length_and_data(call, reply, read_data)?;
        Ok(valid_length(length, came))
    }

    /// Like `write_read`, but ensure the returned data length matches the output
    /// buffer.
    pub fn write_read_exact(call: &Call, reply: &[u8], read_data: &mut [u8]) -> (r: Result<()>)
        requires
            complete(reply@),
        ensures
            match outcome(*call, reply@, Some(4)) {
                Err(e) => r == Err::<(), Error>(e) && final(read_data)@ == old(read_data)@,
                Ok(_) => {
                    &&& r == if returned_data(reply@).len() == old(read_data)@.len() {
                        Ok::<(), Error>(())
                    } else {
                        Err::<(), Error>(
                            Error::Reply(
                                "write/read data",
                                "got less data than expected",
                                reported_length(reply@),
                            ),
                        )
                    }
                    &&& final(read_data)@ == overlay(old(read_data)@, returned_data(reply@))
                },
            },
            r is Ok ==> final(read_data)@ == returned_data(reply@),
    {
        let (length, came): (u32, usize) = length_and_data(call, reply, read_data)?;
        if came != read_data.len() {
            return Err(Error::Reply("write/read data", "got less data than expected", length));
        }
        Ok(())
    }

    /// Ask for the ADS and device state of the device.
    pub fn get_state_request(&self, comms: &mut Comms) -> (r: Result<Call>)
        ensures
            requested(
                r,
                *final(comms),
                *old(comms),
                Command::ReadState,
                self.addr,
                Seq::empty(),
            ),
    {
        let data_in: [&[u8]; 0] = [];
        assert(concat(inputs(data_in@)) =~= Seq::empty());
        comms.request(Command::ReadState, self.addr, &data_in)
    }

    /// Get the ADS and device state of the device out of the reply.
    pub fn get_state(call: &Call, reply: &[u8]) -> (r: Result<(AdsState, u16)>)
        requires
            complete(reply@),
        ensures
            match outcome(*call, reply@, Some(4)) {
                Err(e) => r == Err::<(AdsState, u16), Error>(e),
                Ok(_) => {
                    let code = u16_at(payload(reply@), 0);
                    if code <= 19 {
                        &&& r matches Ok((ads_state, dev_state))
                        &&& ads_state.code() == code
                        &&& dev_state == u16_at(payload(reply@), 2)
                    } else {
                        r == Err::<(AdsState, u16), Error>(
                            Error::Reply("read state", "invalid state constant", code as u32),
                        )
                    }
                },
            },
    {
        let mut data: [u8; 4] = [0; 4];
        let ghost zeros = data@;
        let mut outs: [&mut [u8]; 1] = [&mut data];
        let ghost old_outs = outputs(outs@);
        let r = Comms::communicate(call, reply, &mut outs);
        proof {
            assert(has_resolved(outs@[0]));
            assert(outputs(outs@)[0] == outs@[0]@);
            assert(old_outs[0] == zeros);
            assert(start_of(lengths(old_outs), 0) == 0);
            assert(rest_of(payload(reply@), 0) =~= payload(reply@));
        }
        match r {
            Err(e) => Err(e),
            Ok(_) => {
                assert(data@ == payload(reply@).take(4));
                let state = ReadState::from_bytes(data);
                // Convert ADS state to the enum type
                match AdsState::from_code(state.ads_state) {
                    Some(ads_state) => Ok((ads_state, state.dev_state)),
                    None => Err(
                        Error::Reply("read state", "invalid state constant", state.ads_state as u32),
                    ),
                }
            },
        }
    }

    /// Ask to set the ADS and device state of the device.
    pub fn write_control_request(
        &self,
        comms: &mut Comms,
        ads_state: AdsState,
        dev_state: u16,
    ) -> (r: Result<Call>)
        ensures
            requested(
                r,
                *final(comms),
                *old(comms),
                Command::WriteControl,
                self.addr,
                WriteControl { ads_state: ads_state.code(), dev_state, data_length: 0 }.bytes(),
            ),
    {
        let data = WriteControl { ads_state: ads_state.code(), dev_state, data_length: 0 };
        let bytes: Vec<u8> = data.as_bytes();
        let data_in: [&[u8]; 1] = [&bytes];
        proof {
            one_input(data_in@);
        }
        comms.request(Command::WriteControl, self.addr, &data_in)
    }

    /// Make sure that the state was set.
    pub fn write_control(call: &Call, reply: &[u8]) -> (r: Result<()>)
        requires
            complete(reply@),
        ensures
            acknowledged(*call, reply@, r),
    {
        acknowledge(call, reply)
    }
}

/// The data of a request for a notification.
pub open spec fn notification_data(
    index_group: u32,
    index_offset: u32,
    attributes: Attributes,
) -> Seq<u8> {
    u32_bytes(index_group) + u32_bytes(index_offset) + u32_bytes(attributes.length as u32)
        + u32_bytes(attributes.trans_mode.code()) + u32_bytes(
        duration_millis(attributes.max_delay) as u32,
    ) + u32_bytes(duration_millis(attributes.cycle_time) as u32) + Seq::new(16, |i: int| 0u8)
}

impl Device {
    /// Ask to add a notification handle for some index group/offset.
    pub fn add_notification_request(
        &self,
        comms: &mut Comms,
        index_group: u32,
        index_offset: u32,
        attributes: &Attributes,
    ) -> (r: Result<Call>)
        ensures
            if attributes.length <= u32::MAX && duration_millis(attributes.max_delay) <= u32::MAX
                && duration_millis(attributes.cycle_time) <= u32::MAX {
                requested(
                    r,
                    *final(comms),
                    *old(comms),
                    Command::AddNotification,
                    self.addr,
                    notification_data(index_group, index_offset, *attributes),
                )
            } else {
                too_long(r, *final(comms), *old(comms))
            },
    {
        let data = AddNotif {
            index_group,
            index_offset,
            length: length_field(attributes.length as u64)?,
            trans_mode: attributes.trans_mode.code(),
            max_delay: millis_field(&attributes.max_delay)?,
            cycle_time: millis_field(&attributes.cycle_time)?,
            reserved: [0; 16],
        };
        let bytes: Vec<u8> = data.as_bytes();
        let data_in: [&[u8]; 1] = [&bytes];
        proof {
            assert(data.reserved@ =~= Seq::new(16, |i: int| 0u8));
            one_input(data_in@);
        }
        comms.request(Command::AddNotification, self.addr, &data_in)
    }

    /// Get the handle of the new notification out of the reply.
    ///
    /// The returned `Handle` can be used to check which notification has fired.
    ///
    /// If the notification is not deleted explictly using `delete_notification`
    /// and the `Handle`, it is deleted when the connection is closed.
    pub fn add_notification(comms: &mut Comms, call: &Call, reply: &[u8]) -> (r: Result<Handle>)
        requires
            complete(reply@),
        ensures
            same_but_handles(*final(comms), *old(comms)),
            match outcome(*call, reply@, Some(4)) {
                Err(e) => {
                    &&& r == Err::<Handle, Error>(e)
                    &&& final(comms).notif_handles@ == old(comms).notif_handles@
                },
                Ok(_) => {
                    let handle = u32_at(payload(reply@), 0);
                    &&& r == Ok::<Handle, Error>(handle)
                    &&& final(comms).notif_handles@ == old(comms).notif_handles@.insert(
                        (call.target, handle),
                    )
                },
            },
    {
        let mut nothing: [u8; 0] = [];
        let (handle, _): (u32, usize) = length_and_data(call, reply, &mut nothing)?;
        comms.notif_handles.insert(call.target, handle);
        Ok(handle)
    }

    /// Ask to delete a notification with given handle.
    pub fn delete_notification_request(&self, comms: &mut Comms, handle: Handle) -> (r: Result<
        Call,
    >)
        ensures
            requested(
                r,
                *final(comms),
                *old(comms),
                Command::DeleteNotification,
                self.addr,
                u32_bytes(handle),
            ),
            r matches Ok(call) ==> deleted_handle(call) == (self.addr, handle),
    {
        let bytes: Vec<u8> = u32_as_bytes(handle);
        let data_in: [&[u8]; 1] = [&bytes];
        proof {
            one_input(data_in@);
            request_fields(
                Command::DeleteNotification,
                self.addr,
                comms.source,
                comms.invoke_id,
                u32_bytes(handle),
            );
            u32_round_trip(handle);
        }
        comms.request(Command::DeleteNotification, self.addr, &data_in)
    }

    /// Make sure that the notification with the given handle, which the request
    /// was about, was deleted.
    pub fn delete_notification(
        comms: &mut Comms,
        call: &Call,
        reply: &[u8],
        handle: Handle,
    ) -> (r: Result<()>)
        requires
            complete(reply@),
            deleted_handle(*call) == (call.target, handle),
        ensures
            acknowledged(*call, reply@, r),
            same_but_handles(*final(comms), *old(comms)),
            final(comms).notif_handles@ == if r is Ok {
                old(comms).notif_handles@.remove((call.target, handle))
            } else {
                old(comms).notif_handles@
            },
    {
        acknowledge(call, reply)?;
        comms.notif_handles.remove(call.target, handle);
        Ok(())
    }
}

/// Whether `r` says if a command without return data succeeded.
pub open spec fn acknowledged(call: Call, reply: Seq<u8>, r: Result<()>) -> bool {
    match outcome(call, reply, None) {
        Err(e) => r == Err::<(), Error>(e),
        Ok(_) => r == Ok::<(), Error>(()),
    }
}

/// Checks the reply to a command without return data.
fn acknowledge(call: &Call, reply: &[u8]) -> (r: Result<()>)
    requires
        complete(reply@),
    ensures
        acknowledged(*call, reply@, r),
{
    let mut outs: [&mut [u8]; 0] = [];
    match Comms::communicate(call, reply, &mut outs) {
        Err(e) => Err(e),
        Ok(_) => Ok(()),
    }
}

/// A read gives back what the device sent: its length field and its data, no
/// byte more and no byte less.  If the device reports the length of its data,
/// that is the length which a read returns.  If the data fits, it stands at the
/// front of the buffer, and if it has the size of the buffer, the buffer holds
/// exactly the data.
pub proof fn read_gives_back(call: Call, source: AmsAddr, length: u32, data: Seq<u8>, buf: Seq<u8>)
    requires
        40 + data.len() <= u32::MAX,
        4 + data.len() <= usize::MAX,
    ensures
        ({
            let reply = reply_packet(
                call.cmd,
                call.target,
                source,
                call.invoke_id,
                0,
                0,
                u32_bytes(length) + data,
            );
            &&& complete(reply)
            &&& outcome(call, reply, Some(4)) is Ok
            &&& payload(reply).len() == 4 + data.len()
            &&& reported_length(reply) == length
            &&& returned_data(reply) == data
            &&& length == data.len() ==> returned_length(reply) == data.len()
            &&& data.len() <= buf.len() ==> overlay(buf, returned_data(reply)).take(
                data.len() as int,
            ) == data
            &&& data.len() == buf.len() ==> overlay(buf, returned_data(reply)) == data
        }),
{
    let sent = u32_bytes(length) + data;
    answer_comes_back(call, source, 0, 0, sent, Some(4));
    assert(sent.skip(0) =~= sent);
    field_u32(sent, 0, length, data);
    assert(rest_of(sent, 4) == data);
    if data.len() <= buf.len() {
        assert(overlay(buf, data).take(data.len() as int) =~= data);
    }
    if data.len() == buf.len() {
        assert(overlay(buf, data) =~= data);
    }
}

/// A read never reports more data than came back, and as far as the buffer goes
/// what it reports stands at its front.
pub proof fn read_reports_returned_data(reply: Seq<u8>, buf: Seq<u8>)
    ensures
        returned_length(reply) <= returned_data(reply).len(),
        ({
            let n = if returned_length(reply) <= buf.len() {
                returned_length(reply) as int
            } else {
                buf.len() as int
            };
            overlay(buf, returned_data(reply)).take(n) == returned_data(reply).take(n)
        }),
{
    let n = if returned_length(reply) <= buf.len() {
        returned_length(reply) as int
    } else {
        buf.len() as int
    };
    assert(overlay(buf, returned_data(reply)).take(n) =~= returned_data(reply).take(n));
}

/// A request to write names its place and length, and carries the data.
pub proof fn write_request_fields(
    target: AmsAddr,
    source: AmsAddr,
    invoke_id: u32,
    header: IndexLength,
    data: Seq<u8>,
)
    requires
        44 + data.len() <= u32::MAX,
    ensures
        ({
            let p = request_packet(
                Command::Write,
                target,
                source,
                invoke_id,
                header.bytes() + data,
            );
            &&& p.subrange(6, 14) == target.bytes()
            &&& u32_at(p, 38) == header.index_group
            &&& u32_at(p, 42) == header.index_offset
            &&& u32_at(p, 46) == header.length
            &&& p.skip(50) == data
        }),
{
    let sent = header.bytes() + data;
    let p = request_packet(Command::Write, target, source, invoke_id, sent);
    request_fields(Command::Write, target, source, invoke_id, sent);
    let p2 = u32_bytes(header.length) + data;
    let p1 = u32_bytes(header.index_offset) + p2;
    assert(sent =~= u32_bytes(header.index_group) + p1);
    field_u32(p, 38, header.index_group, p1);
    field_u32(p, 42, header.index_offset, p2);
    field_u32(p, 46, header.length, data);
}

/// Adding a notification and deleting it again leaves the active handles as
/// they were.
pub proof fn add_then_delete(handles: Set<(AmsAddr, Handle)>, target: AmsAddr, handle: Handle)
    requires
        !handles.contains((target, handle)),
    ensures
        handles.insert((target, handle)).remove((target, handle)) == handles,
{
    assert(handles.insert((target, handle)).remove((target, handle)) =~= handles);
}

/// A request to read names its place and how much to read, and holds nothing
/// else.
#[verifier::rlimit(40)]
pub proof fn read_request_fields(
    call: Call,
    new: Comms,
    old: Comms,
    target: AmsAddr,
    header: IndexLength,
)
    requires
        requested(Ok(call), new, old, Command::Read, target, header.bytes()),
    ensures
        ({
            let p = call.request@;
            &&& p.len() == 50
            &&& p.subrange(6, 14) == target.bytes()
            &&& u16_at(p, 22) == 2
            &&& u32_at(p, 38) == header.index_group
            &&& u32_at(p, 42) == header.index_offset
            &&& u32_at(p, 46) == header.length
        }),
{
    let p = call.request@;
    request_is_as_asked(Ok(call), new, old, Command::Read, target, header.bytes());
    index_length_fields(header, Seq::empty());
    assert(header.bytes() + Seq::<u8>::empty() =~= header.bytes());
    shifted(p, 38, 0);
    shifted(p, 38, 4);
    shifted(p, 38, 8);
}

/// A request to write and read back names its place, then how many bytes to read
/// and then how many bytes are written, and carries the bytes that are written.
#[verifier::rlimit(40)]
pub proof fn write_read_request_fields(
    call: Call,
    new: Comms,
    old: Comms,
    target: AmsAddr,
    header: IndexLengthRW,
    data: Seq<u8>,
)
    requires
        requested(Ok(call), new, old, Command::ReadWrite, target, header.bytes() + data),
    ensures
        ({
            let p = call.request@;
            &&& p.len() == 54 + data.len()
            &&& p.subrange(6, 14) == target.bytes()
            &&& u16_at(p, 22) == 9
            &&& u32_at(p, 38) == header.index_group
            &&& u32_at(p, 42) == header.index_offset
            &&& u32_at(p, 46) == header.read_length
            &&& u32_at(p, 50) == header.write_length
            &&& p.skip(54) == data
        }),
{
    let p = call.request@;
    let sent = header.bytes() + data;
    request_is_as_asked(Ok(call), new, old, Command::ReadWrite, target, sent);
    index_length_rw_fields(header, data);
    shifted(p, 38, 0);
    shifted(p, 38, 4);
    shifted(p, 38, 8);
    shifted(p, 38, 12);
    assert(p.skip(54) =~= p.skip(38).skip(16));
}

/// A request for a notification, whatever its mode, names its place, the number
/// of bytes to watch, the mode, and the whole milliseconds of the delay and then
/// of the cycle time.
#[verifier::rlimit(40)]
pub proof fn notification_request_fields(
    call: Call,
    new: Comms,
    old: Comms,
    target: AmsAddr,
    index_group: u32,
    index_offset: u32,
    attributes: Attributes,
)
    requires
        requested(
            Ok(call),
            new,
            old,
            Command::AddNotification,
            target,
            notification_data(index_group, index_offset, attributes),
        ),
        attributes.length <= u32::MAX,
        duration_nanos(attributes.max_delay) / 1_000_000 <= u32::MAX,
        duration_nanos(attributes.cycle_time) / 1_000_000 <= u32::MAX,
    ensures
        ({
            let p = call.request@;
            &&& p.len() == 78
            &&& p.subrange(6, 14) == target.bytes()
            &&& u16_at(p, 22) == 6
            &&& u32_at(p, 38) == index_group
            &&& u32_at(p, 42) == index_offset
            &&& u32_at(p, 46) == attributes.length
            &&& u32_at(p, 50) == match attributes.trans_mode {
                TransmissionMode::NoTrans => 0u32,
                TransmissionMode::ServerCycle => 3u32,
                TransmissionMode::ServerOnChange => 4u32,
            }
            &&& u32_at(p, 54) == duration_nanos(attributes.max_delay) / 1_000_000
            &&& u32_at(p, 58) == duration_nanos(attributes.cycle_time) / 1_000_000
            &&& forall|k: int| 62 <= k < 78 ==> #[trigger] p[k] == 0
        }),
{
    let p = call.request@;
    let data = notification_data(index_group, index_offset, attributes);
    request_is_as_asked(Ok(call), new, old, Command::AddNotification, target, data);
    let p6 = Seq::new(16, |i: int| 0u8);
    let p5 = u32_bytes(duration_millis(attributes.cycle_time) as u32) + p6;
    let p4 = u32_bytes(duration_millis(attributes.max_delay) as u32) + p5;
    let p3 = u32_bytes(attributes.trans_mode.code()) + p4;
    let p2 = u32_bytes(attributes.length as u32) + p3;
    let p1 = u32_bytes(index_offset) + p2;
    assert(data =~= u32_bytes(index_group) + p1);
    field_u32(p, 38, index_group, p1);
    field_u32(p, 42, index_offset, p2);
    field_u32(p, 46, attributes.length as u32, p3);
    field_u32(p, 50, attributes.trans_mode.code(), p4);
    field_u32(p, 54, duration_millis(attributes.max_delay) as u32, p5);
    field_u32(p, 58, duration_millis(attributes.cycle_time) as u32, p6);
    assert forall|k: int| 62 <= k < 78 implies #[trigger] p[k] == 0 by {
        assert(p[k] == p.skip(62)[k - 62]);
    }
}

/// A request to set the state names the ADS state and then the device state, and
/// carries no further data.
#[verifier::rlimit(40)]
pub proof fn control_request_fields(
    call: Call,
    new: Comms,
    old: Comms,
    target: AmsAddr,
    header: WriteControl,
)
    requires
        requested(Ok(call), new, old, Command::WriteControl, target, header.bytes()),
    ensures
        ({
            let p = call.request@;
            &&& p.len() == 46
            &&& p.subrange(6, 14) == target.bytes()
            &&& u16_at(p, 22) == 5
            &&& u16_at(p, 38) == header.ads_state
            &&& u16_at(p, 40) == header.dev_state
            &&& u32_at(p, 42) == header.data_length
        }),
{
    let p = call.request@;
    request_is_as_asked(Ok(call), new, old, Command::WriteControl, target, header.bytes());
    write_control_fields(header, Seq::empty());
    assert(header.bytes() + Seq::<u8>::empty() =~= header.bytes());
    shifted(p, 38, 0);
    shifted(p, 38, 2);
    shifted(p, 38, 4);
}

/// A request to delete a notification names its handle.
pub proof fn delete_request_fields(
    call: Call,
    new: Comms,
    old: Comms,
    target: AmsAddr,
    handle: Handle,
)
    requires
        requested(Ok(call), new, old, Command::DeleteNotification, target, u32_bytes(handle)),
    ensures
        ({
            let p = call.request@;
            &&& p.len() == 42
            &&& p.subrange(6, 14) == target.bytes()
            &&& u16_at(p, 22) == 7
            &&& u32_at(p, 38) == handle
        }),
{
    let p = call.request@;
    request_is_as_asked(
        Ok(call),
        new,
        old,
        Command::DeleteNotification,
        target,
        u32_bytes(handle),
    );
    u32_round_trip(handle);
    shifted(p, 38, 0);
}

/// In the reply to a read the length stands behind the result field, and the
/// data behind the length.  The length of the read is the reported one, or the
/// number of bytes that came if that is less.
pub proof fn read_reply_fields(reply: Seq<u8>)
    requires
        complete(reply),
        u32_at(reply, 26) >= 8,
    ensures
        reported_length(reply) == u32_at(reply, 42),
        returned_data(reply) == reply.subrange(46, 38 + u32_at(reply, 26)),
        returned_data(reply).len() == u32_at(reply, 26) - 8,
        u32_at(reply, 42) <= u32_at(reply, 26) - 8 ==> returned_length(reply) == u32_at(reply, 42),
        u32_at(reply, 42) > u32_at(reply, 26) - 8 ==> returned_length(reply) == u32_at(reply, 26)
            - 8,
{
    let data = payload(reply);
    assert(data[0] == reply[42] && data[1] == reply[43] && data[2] == reply[44] && data[3]
        == reply[45]);
    assert(returned_data(reply) =~= reply.subrange(46, 38 + u32_at(reply, 26)));
}

/// A command without return data succeeds if and only if the reply comes from
/// the target, names the command, is flagged as a reply, has the invoke ID of the
/// request and reports no error in either place.
pub proof fn command_is_acknowledged(call: Call, reply: Seq<u8>, r: Result<()>)
    requires
        complete(reply),
        acknowledged(call, reply, r),
    ensures
        r is Ok <==> {
            &&& reply.subrange(14, 22) == call.target.bytes()
            &&& u16_at(reply, 22) == call.cmd.code()
            &&& u16_at(reply, 24) == 5
            &&& u32_at(reply, 34) == call.invoke_id
            &&& u32_at(reply, 30) == 0
            &&& reply.len() >= 42 ==> u32_at(reply, 38) == 0
        },
        r matches Err(e) ==> outcome(call, reply, None) == Err::<usize, Error>(e),
{
    reply_is_accepted(call, reply, None);
}

/// A request whose length does not fit is refused, and nothing of the connection
/// changes.
pub proof fn refused_request_changes_nothing(r: Result<Call>, new: Comms, old: Comms)
    requires
        too_long(r, new, old),
    ensures
        new == old,
        r matches Err(Error::Overflow(_)),
{
}

} // verus!
