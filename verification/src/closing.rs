//! How a connection is closed.
use crate::commands::Command;
use crate::comms::{next_id, one_input, request_fields, request_packet, Call, Comms};
use crate::handles::handles_are_finite;
use crate::netid::AmsAddr;
use crate::notif::Handle;
use crate::source::SourceInfo;
use crate::wire::{u16_at, u16_bytes, u32_as_bytes, u32_at, u32_bytes, u32_round_trip, write_u16};
use vstd::prelude::*;

verus! {

/// What to do next to close a connection.
#[derive(Debug)]
pub enum Closing {
    /// Delete a notification: send the request, and disregard the reply.
    DeleteNotification(Call),
    /// Remove our port from the router: send these bytes.
    ClosePort([u8; 8]),
    /// Nothing is left to send; shut the connection down.
    Shutdown,
}

/// The message that asks a router to close the given port.
pub open spec fn close_port_message(port: u16) -> Seq<u8> {
    seq![1u8, 0, 2, 0, 0, 0] + u16_bytes(port)
}

/// Whether `call` asks the device at `addr` to delete the notification with the
/// given handle.
pub open spec fn deletes(call: Call, from: Comms, addr: AmsAddr, handle: Handle) -> bool {
    &&& call.cmd == Command::DeleteNotification
    &&& call.target == addr
    &&& call.invoke_id == from.invoke_id
    &&& call.request@ == request_packet(
        Command::DeleteNotification,
        addr,
        from.source,
        from.invoke_id,
        u32_bytes(handle),
    )
}

/// The notification handle that a deletion request is about.
pub open spec fn deleted_handle(call: Call) -> (AmsAddr, Handle) {
    (call.target, u32_at(call.request@, 38))
}

/// Whether `step` is the right thing to do next when a connection is closed,
/// and leads from `old` to `new`.
///
/// First the notifications are deleted, then the port is closed if we opened
/// it.
pub open spec fn closes(old: Comms, step: Closing, new: Comms) -> bool {
    &&& new.source == old.source
    &&& new.read_timeout == old.read_timeout
    &&& match step {
        Closing::DeleteNotification(call) => {
            let (addr, handle) = deleted_handle(call);
            &&& old.notif_handles@.contains((addr, handle))
            &&& new.notif_handles@ == old.notif_handles@.remove((addr, handle))
            &&& new.invoke_id == next_id(old.invoke_id)
            &&& new.source_port_opened == old.source_port_opened
            &&& deletes(call, old, addr, handle)
        },
        Closing::ClosePort(msg) => {
            &&& old.notif_handles@ == Set::<(AmsAddr, Handle)>::empty()
            &&& old.source_port_opened
            &&& msg@ == close_port_message(old.source.spec_port())
            &&& !new.source_port_opened
            &&& new.invoke_id == old.invoke_id
            &&& new.notif_handles@ == old.notif_handles@
        },
        Closing::Shutdown => {
            &&& old.notif_handles@ == Set::<(AmsAddr, Handle)>::empty()
            &&& !old.source_port_opened
            &&& new.source_port_opened == old.source_port_opened
            &&& new.invoke_id == old.invoke_id
            &&& new.notif_handles@ == old.notif_handles@
        },
    }
}

impl Comms {
    /// Say what to do next to close the connection.
    pub fn close(&mut self) -> (step: Closing)
        ensures
            closes(*old(self), step, *final(self)),
    {
        // Delete the notifications that are still active.
        if let Some((addr, handle)) = self.notif_handles.pop() {
            let invoke_id: u32 = self.invoke_id;
            let data: Vec<u8> = u32_as_bytes(handle);
            let data_in: [&[u8]; 1] = [&data];
            proof {
                one_input(data_in@);
                request_fields(
                    Command::DeleteNotification,
                    addr,
                    self.source,
                    invoke_id,
                    u32_bytes(handle),
                );
                u32_round_trip(handle);
            }
            let r = self.request(Command::DeleteNotification, addr, &data_in);
            return Closing::DeleteNotification(r.unwrap());
        }
        // Remove our port from the router, if necessary.
        if self.source_port_opened {
            let mut msg: [u8; 8] = [1, 0, 2, 0, 0, 0, 0, 0];
            let mut port: [u8; 2] = [0, 0];
            write_u16(&mut port, self.source.port());
            msg[6] = port[0];
            msg[7] = port[1];
            assert(msg@ =~= close_port_message(self.source.spec_port()));
            self.source_port_opened = false;
            return Closing::ClosePort(msg);
        }
        Closing::Shutdown
    }
}

/// Whether a connection in state `states[0]` was closed by the given steps, and
/// `states` are the states in between.
pub open spec fn closed_by(states: Seq<Comms>, steps: Seq<Closing>) -> bool {
    &&& states.len() == steps.len() + 1
    &&& steps.len() > 0
    &&& steps.last() is Shutdown
    &&& forall|i: int|
        #![trigger steps[i]]
        0 <= i < steps.len() ==> closes(states[i], steps[i], states[i + 1])
}

/// Whether a step deletes the given notification.
pub open spec fn step_deletes(step: Closing, item: (AmsAddr, Handle)) -> bool {
    &&& step matches Closing::DeleteNotification(call)
    &&& deleted_handle(call) == item
}

/// How many messages are still to be sent when a connection is closed.
pub open spec fn messages_left(comms: Comms) -> nat {
    comms.notif_handles@.len() + if comms.source_port_opened {
        1nat
    } else {
        0nat
    }
}

/// Closing comes to an end: every step but the last leaves one message less.
pub proof fn closing_ends(old: Comms, step: Closing, new: Comms)
    requires
        closes(old, step, new),
    ensures
        step is Shutdown <==> messages_left(old) == 0,
        step !is Shutdown ==> messages_left(new) + 1 == messages_left(old),
{
    handles_are_finite(old.notif_handles);
    assert(old.notif_handles@.len() == 0 <==> old.notif_handles@ =~= Set::<
        (AmsAddr, Handle),
    >::empty()) by {
        if old.notif_handles@.len() == 0 {
            old.notif_handles@.lemma_len0_is_empty();
        }
    }
}

/// A handle that is not in the set does not come back while the connection is
/// being closed.
proof fn handle_stays_away(
    states: Seq<Comms>,
    steps: Seq<Closing>,
    i: int,
    j: int,
    item: (AmsAddr, Handle),
)
    requires
        closed_by(states, steps),
        0 <= i <= j < states.len(),
        !states[i].notif_handles@.contains(item),
    ensures
        !states[j].notif_handles@.contains(item),
    decreases j - i,
{
    if i < j {
        handle_stays_away(states, steps, i, j - 1, item);
        let step = steps[j - 1];
    }
}

/// A handle that is gone was deleted.
proof fn handle_was_deleted(
    states: Seq<Comms>,
    steps: Seq<Closing>,
    j: int,
    item: (AmsAddr, Handle),
)
    requires
        closed_by(states, steps),
        0 <= j < states.len(),
        states[0].notif_handles@.contains(item),
        !states[j].notif_handles@.contains(item),
    ensures
        exists|k: int| 0 <= k < j && step_deletes(#[trigger] steps[k], item),
    decreases j,
{
    if j > 0 {
        if states[j - 1].notif_handles@.contains(item) {
            assert(step_deletes(steps[j - 1], item));
        } else {
            handle_was_deleted(states, steps, j - 1, item);
        }
    }
}

/// A port that is closed stays closed, and was closed by a message.
proof fn port_was_closed(states: Seq<Comms>, steps: Seq<Closing>, i: int, j: int)
    requires
        closed_by(states, steps),
        0 <= i <= j < states.len(),
    ensures
        !states[i].source_port_opened ==> !states[j].source_port_opened,
        states[i].source_port_opened && !states[j].source_port_opened ==> exists|k: int|
            i <= k < j && #[trigger] steps[k] is ClosePort,
    decreases j - i,
{
    if i < j {
        port_was_closed(states, steps, i, j - 1);
        let step = steps[j - 1];
    }
}

/// When a connection is closed, every notification that is still active is
/// deleted, and the port is closed if and only if we opened it; neither is done
/// twice.
pub proof fn closing_leaves_nothing(states: Seq<Comms>, steps: Seq<Closing>)
    requires
        closed_by(states, steps),
    ensures
        forall|item: (AmsAddr, Handle)| #[trigger]
            states[0].notif_handles@.contains(item) ==> exists|k: int|
                0 <= k < steps.len() && step_deletes(#[trigger] steps[k], item),
        forall|i: int, j: int, item: (AmsAddr, Handle)|
            0 <= i < j < steps.len() && #[trigger] step_deletes(steps[i], item)
                ==> !#[trigger] step_deletes(steps[j], item),
        states[0].source_port_opened <==> exists|k: int|
            0 <= k < steps.len() && #[trigger] steps[k] is ClosePort,
        forall|i: int, j: int|
            0 <= i < j < steps.len() && #[trigger] steps[i] is ClosePort
                ==> !(#[trigger] steps[j] is ClosePort),
{
    let n = steps.len() - 1;
    let last = steps[n];
    assert forall|item: (AmsAddr, Handle)| #[trigger]
        states[0].notif_handles@.contains(item) implies exists|k: int|
        0 <= k < steps.len() && step_deletes(#[trigger] steps[k], item) by {
        handle_was_deleted(states, steps, n, item);
    }
    assert forall|i: int, j: int, item: (AmsAddr, Handle)|
        0 <= i < j < steps.len() && #[trigger] step_deletes(
            steps[i],
            item,
        ) implies !#[trigger] step_deletes(steps[j], item) by {
        handle_stays_away(states, steps, i + 1, j, item);
    }
    assert forall|i: int, j: int|
        0 <= i < j < steps.len() && #[trigger] steps[i] is ClosePort implies !(
    #[trigger] steps[j] is ClosePort) by {
        port_was_closed(states, steps, i + 1, j);
    }
    port_was_closed(states, steps, 0, n);
    assert forall|k: int| 0 <= k < steps.len() && #[trigger] steps[k] is ClosePort implies
        states[0].source_port_opened by {
        port_was_closed(states, steps, 0, k);
    }
}

/// The port that is closed is the one that the router opened.
pub proof fn opened_port_is_closed(reply: [u8; 14], addr: AmsAddr)
    requires
        SourceInfo::Reply(reply).resolves_to(Ok((addr, true))),
    ensures
        close_port_message(addr.spec_port()).skip(6) == reply@.skip(12),
{
    assert(addr.bytes().skip(6) =~= u16_bytes(addr.spec_port()));
    assert(reply@.skip(6).skip(6) =~= reply@.skip(12));
    assert(close_port_message(addr.spec_port()).skip(6) =~= u16_bytes(addr.spec_port()));
}

/// The message that closes a port has eight bytes and names the port in the last
/// two.
pub proof fn close_port_fields(port: u16)
    ensures
        ({
            let p = close_port_message(port);
            &&& p.len() == 8
            &&& p[0] == 1 && p[1] == 0 && p[2] == 2 && p[3] == 0 && p[4] == 0 && p[5] == 0
            &&& u16_at(p, 6) == port
        }),
{
}

/// What is done to close a connection: as long as a notification is active, one
/// is deleted; after that, if the port was opened, the port of the client is
/// closed; after that nothing.  Each step changes only what it is about.
pub proof fn closing_step_is_right(old: Comms, step: Closing, new: Comms)
    requires
        closes(old, step, new),
    ensures
        new.source == old.source,
        new.read_timeout == old.read_timeout,
        step !is DeleteNotification ==> forall|item: (AmsAddr, Handle)|
            !#[trigger] old.notif_handles@.contains(item),
        step !is DeleteNotification ==> new.notif_handles@ == old.notif_handles@ && new.invoke_id
            == old.invoke_id && !new.source_port_opened,
        step is DeleteNotification ==> new.source_port_opened == old.source_port_opened,
        step is ClosePort ==> old.source_port_opened,
        step is Shutdown ==> !old.source_port_opened,
        step matches Closing::ClosePort(msg) ==> {
            &&& msg@.len() == 8
            &&& msg@[0] == 1 && msg@[1] == 0 && msg@[2] == 2
            &&& msg@[3] == 0 && msg@[4] == 0 && msg@[5] == 0
            &&& u16_at(msg@, 6) == old.source.spec_port()
        },
{
    if step is ClosePort {
        close_port_fields(old.source.spec_port());
    }
}

/// The request that deletes a notification when a connection is closed goes from
/// the client to the device of an active notification and is about its handle,
/// which is active no longer.
#[verifier::rlimit(40)]
pub proof fn closing_request_fields(old: Comms, call: Call, new: Comms)
    requires
        closes(old, Closing::DeleteNotification(call), new),
    ensures
        ({
            let p = call.request@;
            let item = (call.target, u32_at(p, 38));
            &&& old.notif_handles@.contains(item)
            &&& new.notif_handles@ == old.notif_handles@.remove(item)
            &&& new.invoke_id == (old.invoke_id + 1) % 0x1_0000_0000
            &&& call.invoke_id == old.invoke_id
            &&& call.cmd == Command::DeleteNotification
            &&& p.len() == 42
            &&& p.subrange(6, 14) == call.target.bytes()
            &&& p.subrange(14, 22) == old.source.bytes()
            &&& u16_at(p, 22) == 7
            &&& u16_at(p, 24) == 4
            &&& u32_at(p, 34) == old.invoke_id
        }),
{
    let (addr, handle) = deleted_handle(call);
    deletion_packet(call.request@, addr, old.source, old.invoke_id, handle);
}

/// The fields of a request that deletes a notification.
#[verifier::rlimit(40)]
proof fn deletion_packet(p: Seq<u8>, target: AmsAddr, source: AmsAddr, invoke_id: u32, handle: Handle)
    requires
        p == request_packet(
            Command::DeleteNotification,
            target,
            source,
            invoke_id,
            u32_bytes(handle),
        ),
    ensures
        p.len() == 42,
        p.subrange(6, 14) == target.bytes(),
        p.subrange(14, 22) == source.bytes(),
        u16_at(p, 22) == 7,
        u16_at(p, 24) == 4,
        u32_at(p, 34) == invoke_id,
{
    request_fields(Command::DeleteNotification, target, source, invoke_id, u32_bytes(handle));
}

/// The port is closed only after the last notification was deleted.
pub proof fn port_is_closed_last(states: Seq<Comms>, steps: Seq<Closing>, i: int, j: int)
    requires
        closed_by(states, steps),
        0 <= i < j < steps.len(),
        steps[i] is ClosePort,
    ensures
        steps[j] is Shutdown,
{
    let first = steps[i];
    let later = steps[j];
    port_was_closed(states, steps, i + 1, j);
    if let Closing::DeleteNotification(call) = later {
        handle_stays_away(states, steps, i, j, deleted_handle(call));
    }
}

/// A deletion is about the notification of the device that is asked, with the
/// handle that stands behind the header.
pub proof fn deletion_is_about_its_handle(call: Call)
    ensures
        deleted_handle(call).0 == call.target,
        deleted_handle(call).1 == u32_at(call.request@, 38),
{
}

} // verus!
