//! Several operations on a device with one request (a "sum-up" request).
use crate::commands::{
    add_notif_fields, index_length_fields, index_length_rw_fields, AddNotifRequest, Command, DelNotifRequest, IndexLengthRW, ReadRequest, ResultLength, WriteReadRequest,
    WriteRequest,
};
use crate::comms::{
    complete, copy_front, outcome, overlay, payload, request_fields, request_packet, requested, rest_of,
    same_but_handles, two_inputs, Call, Comms,
};
use crate::device::{length_and_data, too_long, write_read_request_fields, Device};
use crate::error::{length_field, Error, Result};
use crate::index;
use crate::netid::AmsAddr;
use crate::notif::Handle;
use crate::utils::{
    capped, concat, concat_length, concat_next, concat_part, fixup_write_read_return_buffers, lengths, part_of,
    parts_make_the_stream, result_buffers, returned_lengths, same_but_buffer, start_of, start_of_equal,
    start_of_monotonic,
};
use crate::wire::{append, field_u32, u16_at, u32_as_bytes, u32_at, u32_bytes, u32_get, u32_round_trip};
use vstd::prelude::*;

verus! {

/// The header of a sum-up request with `n` parts.
pub open spec fn sum_up_header(
    index_group: u32,
    n: nat,
    read_length: nat,
    write_length: nat,
) -> IndexLengthRW {
    IndexLengthRW {
        index_group,
        index_offset: n as u32,
        read_length: read_length as u32,
        write_length: write_length as u32,
    }
}

/// What making a sum-up request comes to, given the number of its parts, how
/// many bytes are to come back and what is written.
pub open spec fn sum_up_requested(
    r: Result<Call>,
    new: Comms,
    old: Comms,
    target: AmsAddr,
    index_group: u32,
    n: nat,
    read_length: nat,
    written: Seq<u8>,
) -> bool {
    if read_length <= u32::MAX && written.len() <= u32::MAX {
        requested(
            r,
            new,
            old,
            Command::ReadWrite,
            target,
            sum_up_header(index_group, n, read_length, written.len()).bytes() + written,
        )
    } else {
        too_long(r, new, old)
    }
}

/// `n` times `k`, as far as 64 bits can hold it.
fn scaled(n: usize, k: u64) -> (r: u64)
    ensures
        r == capped(n * k),
{
    match (n as u64).checked_mul(k) {
        Some(v) => v,
        None => u64::MAX,
    }
}

/// Makes a sum-up request.
fn sum_up_request(
    device: &Device,
    comms: &mut Comms,
    index_group: u32,
    n: usize,
    read_length: u64,
    written: &[u8],
) -> (r: Result<Call>)
    requires
        n <= read_length,
    ensures
        sum_up_requested(
            r,
            *final(comms),
            *old(comms),
            device.addr,
            index_group,
            n as nat,
            read_length as nat,
            written@,
        ),
{
    let read_length: u32 = length_field(read_length)?;
    let write_length: u32 = length_field(written.len() as u64)?;
    let header = IndexLengthRW { index_group, index_offset: n as u32, read_length, write_length };
    let bytes: Vec<u8> = header.as_bytes();
    let data_in: [&[u8]; 2] = [&bytes, written];
    proof {
        two_inputs(data_in@);
    }
    comms.request(Command::ReadWrite, device.addr, &data_in)
}

/// What a part of a sum-up request is made of.
#[derive(Clone, Copy, Debug, PartialEq, Eq, Structural)]
enum Piece {
    /// What is asked for.
    Part,
    /// The data that is written.
    Input,
    /// The outcome.
    Result,
    /// The buffer for the data that comes back.
    Output,
}

/// A part of a sum-up request.
trait SumUp: Sized {
    /// The bytes of a piece.
    spec fn piece(self, which: Piece) -> Seq<u8>;

    /// The bytes of a piece.
    fn piece_bytes(&self, which: Piece) -> (r: Vec<u8>)
        ensures
            r@ == self.piece(which),
    ;

    /// The size of the buffer for the data that comes back.
    fn output_size(&self) -> (r: usize)
        ensures
            r == self.piece(Piece::Output).len(),
    ;
}

impl<'buf> SumUp for ReadRequest<'buf> {
    spec fn piece(self, which: Piece) -> Seq<u8> {
        match which {
            Piece::Part => self.req.bytes(),
            Piece::Input => Seq::empty(),
            Piece::Result => self.res.bytes(),
            Piece::Output => self.buffer(),
        }
    }

    fn piece_bytes(&self, which: Piece) -> (r: Vec<u8>) {
        match which {
            Piece::Part => self.req.as_bytes(),
            Piece::Input => Vec::new(),
            Piece::Result => self.res.as_bytes(),
            Piece::Output => vstd::slice::slice_to_vec(&*self.rbuf),
        }
    }

    fn output_size(&self) -> (r: usize) {
        self.rbuf.len()
    }
}

impl<'buf> SumUp for WriteRequest<'buf> {
    spec fn piece(self, which: Piece) -> Seq<u8> {
        match which {
            Piece::Part => self.req.bytes(),
            Piece::Input => self.wbuf@,
            Piece::Result => u32_bytes(self.res),
            Piece::Output => Seq::empty(),
        }
    }

    fn piece_bytes(&self, which: Piece) -> (r: Vec<u8>) {
        match which {
            Piece::Part => self.req.as_bytes(),
            Piece::Input => vstd::slice::slice_to_vec(self.wbuf),
            Piece::Result => u32_as_bytes(self.res),
            Piece::Output => Vec::new(),
        }
    }

    fn output_size(&self) -> (r: usize) {
        0
    }
}

impl<'buf> SumUp for WriteReadRequest<'buf> {
    spec fn piece(self, which: Piece) -> Seq<u8> {
        match which {
            Piece::Part => self.req.bytes(),
            Piece::Input => self.wbuf@,
            Piece::Result => self.res.bytes(),
            Piece::Output => self.buffer(),
        }
    }

    fn piece_bytes(&self, which: Piece) -> (r: Vec<u8>) {
        match which {
            Piece::Part => self.req.as_bytes(),
            Piece::Input => vstd::slice::slice_to_vec(self.wbuf),
            Piece::Result => self.res.as_bytes(),
            Piece::Output => vstd::slice::slice_to_vec(&*self.rbuf),
        }
    }

    fn output_size(&self) -> (r: usize) {
        self.rbuf.len()
    }
}

impl SumUp for AddNotifRequest {
    spec fn piece(self, which: Piece) -> Seq<u8> {
        match which {
            Piece::Part => self.req.bytes(),
            Piece::Input => Seq::empty(),
            Piece::Result => self.res.bytes(),
            Piece::Output => Seq::empty(),
        }
    }

    fn piece_bytes(&self, which: Piece) -> (r: Vec<u8>) {
        match which {
            Piece::Part => self.req.as_bytes(),
            Piece::Input => Vec::new(),
            Piece::Result => self.res.as_bytes(),
            Piece::Output => Vec::new(),
        }
    }

    fn output_size(&self) -> (r: usize) {
        0
    }
}

impl SumUp for DelNotifRequest {
    spec fn piece(self, which: Piece) -> Seq<u8> {
        match which {
            Piece::Part => u32_bytes(self.req),
            Piece::Input => Seq::empty(),
            Piece::Result => u32_bytes(self.res),
            Piece::Output => Seq::empty(),
        }
    }

    fn piece_bytes(&self, which: Piece) -> (r: Vec<u8>) {
        match which {
            Piece::Part => u32_as_bytes(self.req),
            Piece::Input => Vec::new(),
            Piece::Result => u32_as_bytes(self.res),
            Piece::Output => Vec::new(),
        }
    }

    fn output_size(&self) -> (r: usize) {
        0
    }
}

/// One piece of each part.
spec fn pieces<T: SumUp>(parts: Seq<T>, which: Piece) -> Seq<Seq<u8>> {
    Seq::new(parts.len(), |i: int| parts[i].piece(which))
}

/// Lays one piece of each part end to end.
fn join<T: SumUp>(parts: &[T], which: Piece) -> (r: Vec<u8>)
    ensures
        r@ == concat(pieces(parts@, which)),
{
    let ghost all = pieces(parts@, which);
    let mut out: Vec<u8> = Vec::new();
    let mut i: usize = 0;
    assert(concat(all.take(0)) =~= Seq::empty());
    while i < parts.len()
        invariant
            i <= parts@.len(),
            all == pieces(parts@, which),
            out@ == concat(all.take(i as int)),
        decreases parts@.len() - i,
    {
        proof {
            concat_next(all, i as int);
        }
        append(&mut out, &parts[i].piece_bytes(which));
        i += 1;
    }
    assert(all.take(i as int) =~= all);
    out
}

/// Lays one piece of each part end to end, and then another piece of each.
fn join_two<T: SumUp>(parts: &[T], first: Piece, second: Piece) -> (r: Vec<u8>)
    ensures
        r@ == concat(pieces(parts@, first)) + concat(pieces(parts@, second)),
{
    let mut out: Vec<u8> = join(parts, first);
    append(&mut out, &join(parts, second));
    out
}

/// The length of a reply with an outcome of eight bytes and the data of a buffer
/// for each part, as far as 64 bits can hold it.
fn sum_up_read_length<T: SumUp>(parts: &[T]) -> (r: u64)
    ensures
        r == capped((8 * parts@.len() + concat(pieces(parts@, Piece::Output)).len()) as int),
{
    let ghost bufs = pieces(parts@, Piece::Output);
    let ghost lens = lengths(bufs);
    let n: usize = parts.len();
    let mut total: u64 = scaled(n, 8);
    let mut i: usize = 0;
    while i < n
        invariant
            i <= n == parts@.len(),
            bufs == pieces(parts@, Piece::Output),
            lens == lengths(bufs),
            total == capped(8 * n + start_of(lens, i as int)),
        decreases n - i,
    {
        let size: usize = parts[i].output_size();
        proof {
            start_of_monotonic(lens, i as int, i as int);
            assert(lens[i as int] == size);
        }
        total = total.saturating_add(size as u64);
        i += 1;
    }
    proof {
        concat_length(bufs);
    }
    total
}

/// Cuts out the part that belongs to each buffer, if result fields of eight
/// bytes stand in front of the buffers.
fn cut_buffers<T: SumUp>(parts: &[T], out: &[u8]) -> (r: Vec<Vec<u8>>)
    requires
        out@.len() == 8 * parts@.len() + concat(pieces(parts@, Piece::Output)).len(),
    ensures
        r@.len() == parts@.len(),
        forall|i: int|
            0 <= i < r@.len() ==> {
                let bufs = pieces(parts@, Piece::Output);
                &&& (#[trigger] r@[i])@ == buffer_part(out@, bufs, i)
                &&& r@[i]@.len() == bufs[i].len()
            },
{
    let ghost bufs = pieces(parts@, Piece::Output);
    let ghost lens = lengths(bufs);
    let n: usize = parts.len();
    let total: usize = out.len();
    let mut cuts: Vec<Vec<u8>> = Vec::new();
    proof {
        concat_length(bufs);
        start_of_monotonic(lens, 0, n as int);
    }
    let mut at: usize = 8 * n;
    let mut i: usize = 0;
    while i < n
        invariant
            i <= n == parts@.len(),
            bufs == pieces(parts@, Piece::Output),
            lens == lengths(bufs),
            total == out@.len() == 8 * n + start_of(lens, n as int),
            at == 8 * n + start_of(lens, i as int),
            cuts@.len() == i,
            forall|k: int|
                0 <= k < i ==> {
                    &&& (#[trigger] cuts@[k])@ == buffer_part(out@, bufs, k)
                    &&& cuts@[k]@.len() == bufs[k].len()
                },
        decreases n - i,
    {
        let len: usize = parts[i].output_size();
        proof {
            assert(lens[i as int] == len);
            start_of_monotonic(lens, i as int, i + 1);
            start_of_monotonic(lens, i + 1, n as int);
        }
        let part: &[u8] = vstd::slice::slice_subrange(out, at, at + len);
        assert(part@ == buffer_part(out@, bufs, i as int));
        cuts.push(vstd::slice::slice_to_vec(part));
        at += len;
        i += 1;
    }
    cuts
}

/// What the result fields and buffers hold after the reply, if they held `old`
/// before: behind the length, the reply fills them one after the other.
pub open spec fn sum_up_after(old: Seq<u8>, reply: Seq<u8>) -> Seq<u8> {
    overlay(old, rest_of(payload(reply), 4))
}

/// What is to be read by each of the given requests.
pub open spec fn read_parts(requests: Seq<ReadRequest>) -> Seq<Seq<u8>> {
    Seq::new(requests.len(), |i: int| requests[i].req.bytes())
}

/// The result fields of the given requests.
pub open spec fn read_results(requests: Seq<ReadRequest>) -> Seq<Seq<u8>> {
    Seq::new(requests.len(), |i: int| requests[i].res.bytes())
}

/// The result buffers of the given requests.
pub open spec fn read_buffers(requests: Seq<ReadRequest>) -> Seq<Seq<u8>> {
    Seq::new(requests.len(), |i: int| requests[i].buffer())
}

/// The result fields of the given requests, and then the result buffers.
pub open spec fn read_outputs(requests: Seq<ReadRequest>) -> Seq<u8> {
    concat(read_results(requests)) + concat(read_buffers(requests))
}

/// The part of the buffers that belongs to buffer `i`, if `n` result fields of
/// eight bytes stand in front of them.
pub open spec fn buffer_part(after: Seq<u8>, bufs: Seq<Seq<u8>>, i: int) -> Seq<u8> {
    let start = 8 * bufs.len() + start_of(lengths(bufs), i);
    after.subrange(start, start + bufs[i].len())
}

/// The lengths of the result fields.
proof fn results_length(results: Seq<Seq<u8>>, width: int)
    requires
        forall|i: int| 0 <= i < results.len() ==> #[trigger] results[i].len() == width,
    ensures
        concat(results).len() == width * results.len(),
{
    concat_length(results);
    start_of_equal(lengths(results), width, results.len() as int);
}

impl Device {
    /// Ask to read multiple index groups/offsets with one ADS request.
    pub fn read_multi_request(&self, comms: &mut Comms, requests: &[ReadRequest]) -> (r: Result<
        Call,
    >)
        ensures
            sum_up_requested(
                r,
                *final(comms),
                *old(comms),
                self.addr,
                index::SUMUP_READ_EX,
                requests@.len(),
                8 * requests@.len() + concat(read_buffers(requests@)).len(),
                concat(read_parts(requests@)),
            ),
    {
        let rlen: u64 = sum_up_read_length(requests);
        let written: Vec<u8> = join(requests, Piece::Part);
        proof {
            assert(pieces(requests@, Piece::Output) =~= read_buffers(requests@));
            assert(pieces(requests@, Piece::Part) =~= read_parts(requests@));
        }
        sum_up_request(self, comms, index::SUMUP_READ_EX, requests.len(), rlen, &written)
    }
}

impl Device {
    /// Get the outcome of each read out of the reply.
    ///
    /// The returned data can be shorter than the buffer in each case, the
    /// `length` member of the `ReadRequest` is set to the returned length.
    ///
    /// This function only returns Err on errors that cause the whole sum-up
    /// request to fail (e.g. if the device doesn't support such requests).  If
    /// the request as a whole succeeds, each single read can have returned its
    /// own error.  The [`ReadRequest::data`] method will return either the
    /// properly truncated returned data or the error for each read.
    pub fn read_multi(call: &Call, reply: &[u8], requests: &mut [ReadRequest]) -> (r: Result<()>)
        requires
            complete(reply@),
        ensures
            final(requests)@.len() == old(requests)@.len(),
            match outcome(*call, reply@, Some(4)) {
                Err(e) => r == Err::<(), Error>(e) && final(requests)@ == old(requests)@,
                Ok(_) => {
                    let after = sum_up_after(read_outputs(old(requests)@), reply@);
                    &&& r == Ok::<(), Error>(())
                    &&& forall|i: int|
                        0 <= i < old(requests)@.len() ==> {
                            &&& (#[trigger] final(requests)@[i]).req == old(requests)@[i].req
                            &&& final(requests)@[i].res == ResultLength::at(after, 8 * i)
                            &&& final(requests)@[i].buffer() == buffer_part(
                                after,
                                read_buffers(old(requests)@),
                                i,
                            )
                            &&& final(final(requests)@[i].rbuf)@ == final(old(requests)@[i].rbuf)@
                        }
                },
            },
    {
        let ghost before = requests@;
        let ghost results = read_results(before);
        let ghost bufs = read_buffers(before);
        let nreq: usize = requests.len();
        let mut out: Vec<u8> = join_two(requests, Piece::Result, Piece::Output);
        proof {
            assert(pieces(before, Piece::Result) =~= results);
            assert(pieces(before, Piece::Output) =~= bufs);
            assert forall|i: int| 0 <= i < results.len() implies #[trigger] results[i].len()
                == 8 by {}
            results_length(results, 8);
        }
        length_and_data(call, reply, out.as_mut_slice())?;
        let cuts: Vec<Vec<u8>> = cut_buffers(requests, &out);
        let total: usize = out.len();
        let mut i: usize = 0;
        while i < nreq
            invariant
                i <= nreq == before.len() == requests@.len() == cuts@.len(),
                8 * nreq <= total == out@.len(),
                bufs == read_buffers(before),
                forall|m: int|
                    0 <= m < nreq ==> {
                        &&& (#[trigger] cuts@[m])@ == buffer_part(out@, bufs, m)
                        &&& cuts@[m]@.len() == bufs[m].len()
                    },
                forall|m: int| i <= m < nreq ==> #[trigger] requests@[m] == before[m],
                forall|m: int|
                    0 <= m < i ==> {
                        &&& (#[trigger] requests@[m]).req == before[m].req
                        &&& requests@[m].res == ResultLength::at(out@, 8 * m)
                        &&& requests@[m].buffer() == buffer_part(out@, bufs, m)
                        &&& final(requests@[m].rbuf)@ == final(before[m].rbuf)@
                    },
            decreases nreq - i,
        {
            let ghost at_loop = requests@;
            assert(requests@[i as int] == before[i as int]);
            requests[i].res = ResultLength::from_bytes(&out, 8 * i);
            copy_front(&mut *requests[i].rbuf, &cuts[i]);
            proof {
                assert(requests@[i as int].buffer() =~= cuts@[i as int]@);
                assert forall|m: int| 0 <= m < nreq && m != i implies #[trigger] requests@[m]
                    == at_loop[m] by {}
            }
            i += 1;
        }
        Ok(())
    }
}

/// Where each of the given requests writes, and how much.
pub open spec fn write_parts(requests: Seq<WriteRequest>) -> Seq<Seq<u8>> {
    Seq::new(requests.len(), |i: int| requests[i].req.bytes())
}

/// What each of the given requests writes.
pub open spec fn write_buffers(requests: Seq<WriteRequest>) -> Seq<Seq<u8>> {
    Seq::new(requests.len(), |i: int| requests[i].wbuf@)
}

/// The result fields of the given requests.
pub open spec fn write_results(requests: Seq<WriteRequest>) -> Seq<Seq<u8>> {
    Seq::new(requests.len(), |i: int| u32_bytes(requests[i].res))
}

/// The number that stands at position `at` of `s`.
fn number_at(s: &[u8], at: usize) -> (r: u32)
    requires
        at + 4 <= s@.len(),
    ensures
        r == u32_at(s@, at as int),
{
    u32_get([s[at], s[at + 1], s[at + 2], s[at + 3]])
}

impl Device {
    /// Ask to write multiple index groups/offsets with one ADS request.
    pub fn write_multi_request(&self, comms: &mut Comms, requests: &[WriteRequest]) -> (r: Result<
        Call,
    >)
        ensures
            sum_up_requested(
                r,
                *final(comms),
                *old(comms),
                self.addr,
                index::SUMUP_WRITE,
                requests@.len(),
                4 * requests@.len(),
                concat(write_parts(requests@)) + concat(write_buffers(requests@)),
            ),
    {
        let nreq: usize = requests.len();
        let rlen: u64 = scaled(nreq, 4);
        let written: Vec<u8> = join_two(requests, Piece::Part, Piece::Input);
        proof {
            assert(pieces(requests@, Piece::Part) =~= write_parts(requests@));
            assert(pieces(requests@, Piece::Input) =~= write_buffers(requests@));
        }
        sum_up_request(self, comms, index::SUMUP_WRITE, nreq, rlen, &written)
    }

    /// Get the outcome of each write out of the reply.
    ///
    /// This function only returns Err on errors that cause the whole sum-up
    /// request to fail (e.g. if the device doesn't support such requests).  If
    /// the request as a whole succeeds, each single write can have returned its
    /// own error.  The [`WriteRequest::ensure`] method will return the error for
    /// each write.
    pub fn write_multi(call: &Call, reply: &[u8], requests: &mut [WriteRequest]) -> (r: Result<()>)
        requires
            complete(reply@),
        ensures
            final(requests)@.len() == old(requests)@.len(),
            match outcome(*call, reply@, Some(4)) {
                Err(e) => r == Err::<(), Error>(e) && final(requests)@ == old(requests)@,
                Ok(_) => {
                    let after = sum_up_after(concat(write_results(old(requests)@)), reply@);
                    &&& r == Ok::<(), Error>(())
                    &&& forall|i: int|
                        0 <= i < old(requests)@.len() ==> {
                            &&& (#[trigger] final(requests)@[i]).req == old(requests)@[i].req
                            &&& final(requests)@[i].res == u32_at(after, 4 * i)
                            &&& final(requests)@[i].wbuf == old(requests)@[i].wbuf
                        }
                },
            },
    {
        let ghost before = requests@;
        let ghost results = write_results(before);
        let nreq: usize = requests.len();
        let mut out: Vec<u8> = join(requests, Piece::Result);
        assert(pieces(before, Piece::Result) =~= results);
        length_and_data(call, reply, out.as_mut_slice())?;
        let total: usize = out.len();
        proof {
            assert forall|i: int| 0 <= i < results.len() implies #[trigger] results[i].len()
                == 4 by {}
            results_length(results, 4);
        }
        let mut i: usize = 0;
        while i < nreq
            invariant
                i <= nreq == before.len() == requests@.len(),
                4 * nreq == total == out@.len(),
                forall|m: int| i <= m < nreq ==> #[trigger] requests@[m] == before[m],
                forall|m: int|
                    0 <= m < i ==> {
                        &&& (#[trigger] requests@[m]).req == before[m].req
                        &&& requests@[m].res == u32_at(out@, 4 * m)
                        &&& requests@[m].wbuf == before[m].wbuf
                    },
            decreases nreq - i,
        {
            let ghost at_loop = requests@;
            requests[i].res = number_at(&out, 4 * i);
            proof {
                assert(at_loop[i as int] == before[i as int]);
                assert forall|m: int| 0 <= m < nreq && m != i implies #[trigger] requests@[m]
                    == at_loop[m] by {}
            }
            i += 1;
        }
        Ok(())
    }
}

/// Where each of the given requests writes and reads, and how much.
pub open spec fn write_read_parts(requests: Seq<WriteReadRequest>) -> Seq<Seq<u8>> {
    Seq::new(requests.len(), |i: int| requests[i].req.bytes())
}

/// What each of the given requests writes.
pub open spec fn write_read_inputs(requests: Seq<WriteReadRequest>) -> Seq<Seq<u8>> {
    Seq::new(requests.len(), |i: int| requests[i].wbuf@)
}

/// The result fields of the given requests.
pub open spec fn write_read_results(requests: Seq<WriteReadRequest>) -> Seq<Seq<u8>> {
    Seq::new(requests.len(), |i: int| requests[i].res.bytes())
}

/// The result fields of the given requests, and then the result buffers.
pub open spec fn write_read_outputs(requests: Seq<WriteReadRequest>) -> Seq<u8> {
    concat(write_read_results(requests)) + concat(result_buffers(requests))
}

/// How many bytes came back for each of `n` requests.
pub open spec fn sum_up_lengths(after: Seq<u8>, n: nat) -> Seq<int> {
    Seq::new(n, |i: int| ResultLength::at(after, 8 * i).length as int)
}

/// Whether the reply claims for none of the requests that more came back than
/// its buffer holds.
pub open spec fn write_read_fits(requests: Seq<WriteReadRequest>, reply: Seq<u8>) -> bool {
    let after = sum_up_after(write_read_outputs(requests), reply);
    forall|i: int|
        0 <= i < requests.len() ==> #[trigger] sum_up_lengths(after, requests.len())[i]
            <= requests[i].buffer().len()
}

/// Lays the result fields and the result buffers end to end.
fn gather_write_reads(requests: &[WriteReadRequest]) -> (r: Vec<u8>)
    ensures
        r@ == write_read_outputs(requests@),
{
    assert(pieces(requests@, Piece::Result) =~= write_read_results(requests@));
    assert(pieces(requests@, Piece::Output) =~= result_buffers(requests@));
    join_two(requests, Piece::Result, Piece::Output)
}

/// The length of what [`gather_write_reads`] gives.
proof fn write_read_outputs_length(requests: Seq<WriteReadRequest>)
    ensures
        write_read_outputs(requests).len() == 8 * requests.len() + start_of(
            lengths(result_buffers(requests)),
            requests.len() as int,
        ),
        concat(result_buffers(requests)).len() == start_of(
            lengths(result_buffers(requests)),
            requests.len() as int,
        ),
{
    let results = write_read_results(requests);
    assert forall|i: int| 0 <= i < results.len() implies #[trigger] results[i].len() == 8 by {}
    results_length(results, 8);
    concat_length(result_buffers(requests));
}

impl Device {
    /// Ask to write and read multiple index groups/offsets with one ADS request.
    pub fn write_read_multi_request(
        &self,
        comms: &mut Comms,
        requests: &[WriteReadRequest],
    ) -> (r: Result<Call>)
        ensures
            sum_up_requested(
                r,
                *final(comms),
                *old(comms),
                self.addr,
                index::SUMUP_READWRITE,
                requests@.len(),
                8 * requests@.len() + concat(result_buffers(requests@)).len(),
                concat(write_read_parts(requests@)) + concat(write_read_inputs(requests@)),
            ),
    {
        let rlen: u64 = sum_up_read_length(requests);
        let written: Vec<u8> = join_two(requests, Piece::Part, Piece::Input);
        proof {
            assert(pieces(requests@, Piece::Output) =~= result_buffers(requests@));
            assert(pieces(requests@, Piece::Part) =~= write_read_parts(requests@));
            assert(pieces(requests@, Piece::Input) =~= write_read_inputs(requests@));
        }
        sum_up_request(self, comms, index::SUMUP_READWRITE, requests.len(), rlen, &written)
    }

    /// Whether a reply can be handed to [`Device::write_read_multi`]: if it is a
    /// successful one, it claims for none of the requests that more came back
    /// than its buffer holds.
    pub fn write_read_multi_fits(call: &Call, reply: &[u8], requests: &[WriteReadRequest]) -> (r:
        bool)
        requires
            complete(reply@),
        ensures
            r == (outcome(*call, reply@, Some(4)) is Ok ==> write_read_fits(requests@, reply@)),
    {
        let mut out: Vec<u8> = gather_write_reads(requests);
        if length_and_data(call, reply, out.as_mut_slice()).is_err() {
            return true;
        }
        let ghost after = sum_up_after(write_read_outputs(requests@), reply@);
        let ghost lens = sum_up_lengths(after, requests@.len());
        let nreq: usize = requests.len();
        let total: usize = out.len();
        proof {
            assert(out@ == after);
            write_read_outputs_length(requests@);
            start_of_monotonic(lengths(result_buffers(requests@)), 0, nreq as int);
        }
        let mut i: usize = 0;
        while i < nreq
            invariant
                i <= nreq == requests@.len(),
                8 * nreq <= total == out@.len(),
                outcome(*call, reply@, Some(4)) is Ok,
                out@ == after,
                after == sum_up_after(write_read_outputs(requests@), reply@),
                lens == sum_up_lengths(after, requests@.len()),
                forall|m: int| 0 <= m < i ==> #[trigger] lens[m] <= requests@[m].buffer().len(),
            decreases nreq - i,
        {
            let res = ResultLength::from_bytes(&out, 8 * i);
            assert(lens[i as int] == res.length);
            if requests[i].rbuf.len() < res.length as usize {
                return false;
            }
            i += 1;
        }
        true
    }

    /// Get the outcome of each write/read out of the reply.
    ///
    /// This function only returns Err on errors that cause the whole sum-up
    /// request to fail (e.g. if the device doesn't support such requests).  If
    /// the request as a whole succeeds, each single write/read can have
    /// returned its own error.  The [`WriteReadRequest::data`] method will
    /// return either the properly truncated returned data or the error for each
    /// write/read.
    ///
    /// The reply must not claim more data than the buffers hold, which
    /// [`Device::write_read_multi_fits`] tells.
    pub fn write_read_multi(call: &Call, reply: &[u8], requests: &mut [WriteReadRequest]) -> (r:
        Result<()>)
        requires
            complete(reply@),
            outcome(*call, reply@, Some(4)) is Ok ==> write_read_fits(old(requests)@, reply@),
        ensures
            final(requests)@.len() == old(requests)@.len(),
            match outcome(*call, reply@, Some(4)) {
                Err(e) => r == Err::<(), Error>(e) && final(requests)@ == old(requests)@,
                Ok(_) => {
                    let n = old(requests)@.len();
                    let after = sum_up_after(write_read_outputs(old(requests)@), reply@);
                    let lens = sum_up_lengths(after, n);
                    &&& r == Ok::<(), Error>(())
                    &&& forall|i: int|
                        0 <= i < n ==> {
                            &&& (#[trigger] final(requests)@[i]).req == old(requests)@[i].req
                            &&& final(requests)@[i].wbuf == old(requests)@[i].wbuf
                            &&& final(requests)@[i].res == ResultLength::at(after, 8 * i)
                            &&& final(requests)@[i].buffer() == part_of(
                                after.skip((8 * n) as int),
                                lens,
                                i,
                            ) + buffer_part(after, result_buffers(old(requests)@), i).skip(lens[i])
                            &&& final(final(requests)@[i].rbuf)@ == final(old(requests)@[i].rbuf)@
                        }
                },
            },
    {
        let ghost before = requests@;
        let ghost bufs = result_buffers(before);
        let ghost blens = lengths(bufs);
        let nreq: usize = requests.len();
        let mut out: Vec<u8> = gather_write_reads(requests);
        length_and_data(call, reply, out.as_mut_slice())?;
        let total: usize = out.len();
        proof {
            write_read_outputs_length(before);
            start_of_monotonic(blens, 0, nreq as int);
            assert(pieces(before, Piece::Output) =~= bufs);
        }
        let cuts: Vec<Vec<u8>> = cut_buffers(requests, &out);
        let mut i: usize = 0;
        while i < nreq
            invariant
                i <= nreq == before.len() == requests@.len() == cuts@.len(),
                8 * nreq <= total == out@.len(),
                bufs == result_buffers(before),
                forall|m: int|
                    0 <= m < nreq ==> {
                        &&& (#[trigger] cuts@[m])@ == buffer_part(out@, bufs, m)
                        &&& cuts@[m]@.len() == bufs[m].len()
                    },
                forall|m: int| i <= m < nreq ==> #[trigger] requests@[m] == before[m],
                forall|m: int|
                    0 <= m < i ==> {
                        &&& (#[trigger] requests@[m]).req == before[m].req
                        &&& requests@[m].wbuf == before[m].wbuf
                        &&& requests@[m].res == ResultLength::at(out@, 8 * m)
                        &&& requests@[m].buffer() == buffer_part(out@, bufs, m)
                        &&& final(requests@[m].rbuf)@ == final(before[m].rbuf)@
                    },
            decreases nreq - i,
        {
            let ghost at_loop = requests@;
            assert(requests@[i as int] == before[i as int]);
            requests[i].res = ResultLength::from_bytes(&out, 8 * i);
            copy_front(&mut *requests[i].rbuf, &cuts[i]);
            proof {
                assert(requests@[i as int].buffer() =~= cuts@[i as int]@);
                assert forall|m: int| 0 <= m < nreq && m != i implies #[trigger] requests@[m]
                    == at_loop[m] by {}
            }
            i += 1;
        }

        // Unfortunately SUMUP_READWRITE returns only the actual read bytes for
        // each request, so if there are short reads the buffers got filled
        // wrongly.
        let ghost filled = requests@;
        let ghost stream = out@.skip(8 * nreq);
        let ghost lens = sum_up_lengths(out@, nreq as nat);
        proof {
            assert(out@ == sum_up_after(write_read_outputs(before), reply@));
            assert(write_read_fits(before, reply@));
            assert(lens == sum_up_lengths(
                sum_up_after(write_read_outputs(before), reply@),
                before.len(),
            ));
            parts_make_the_stream(stream, blens, nreq as int);
            assert forall|m: int| 0 <= m < nreq implies #[trigger] result_buffers(filled)[m]
                == part_of(stream, blens, m) by {
                assert(filled[m].buffer() == buffer_part(out@, bufs, m));
                start_of_monotonic(blens, m, m + 1);
                start_of_monotonic(blens, m + 1, nreq as int);
                assert(part_of(stream, blens, m) =~= buffer_part(out@, bufs, m));
            }
            assert(result_buffers(filled) =~= Seq::new(
                nreq as nat,
                |m: int| part_of(stream, blens, m),
            ));
            assert(concat(result_buffers(filled)) =~= stream);
            assert forall|m: int| 0 <= m < nreq implies (#[trigger] filled[m]).res.length
                <= filled[m].buffer().len() by {
                assert(lens[m] <= before[m].buffer().len());
                assert(result_buffers(filled)[m] == filled[m].buffer());
                start_of_monotonic(blens, m, m + 1);
                start_of_monotonic(blens, m + 1, nreq as int);
            }
            assert(returned_lengths(filled) =~= lens);
        }
        fixup_write_read_return_buffers(requests);
        proof {
            assert forall|m: int| 0 <= m < nreq implies {
                &&& (#[trigger] requests@[m]).req == before[m].req
                &&& requests@[m].wbuf == before[m].wbuf
                &&& requests@[m].res == ResultLength::at(out@, 8 * m)
                &&& requests@[m].buffer() == part_of(stream, lens, m) + buffer_part(
                    out@,
                    bufs,
                    m,
                ).skip(lens[m])
                &&& final(requests@[m].rbuf)@ == final(before[m].rbuf)@
            } by {
                assert(filled[m].req == before[m].req);
                assert(same_but_buffer(requests@[m], filled[m]));
            }
        }
        Ok(())
    }
}

/// What each of the given requests asks for.
pub open spec fn add_parts(requests: Seq<AddNotifRequest>) -> Seq<Seq<u8>> {
    Seq::new(requests.len(), |i: int| requests[i].req.bytes())
}

/// The result fields of the given requests.
pub open spec fn add_results(requests: Seq<AddNotifRequest>) -> Seq<Seq<u8>> {
    Seq::new(requests.len(), |i: int| requests[i].res.bytes())
}

/// Whether one of the first `n` requests was successful and gave this handle.
pub open spec fn added(
    requests: Seq<AddNotifRequest>,
    n: int,
    target: AmsAddr,
    item: (AmsAddr, Handle),
) -> bool {
    exists|i: int|
        0 <= i < n && (#[trigger] requests[i]).res.result == 0 && item == (
            target,
            requests[i].res.length,
        )
}

/// The handles that the given requests are about.
pub open spec fn delete_parts(requests: Seq<DelNotifRequest>) -> Seq<Seq<u8>> {
    Seq::new(requests.len(), |i: int| u32_bytes(requests[i].req))
}

/// The result fields of the given requests.
pub open spec fn delete_results(requests: Seq<DelNotifRequest>) -> Seq<Seq<u8>> {
    Seq::new(requests.len(), |i: int| u32_bytes(requests[i].res))
}

/// Whether one of the first `n` requests was successful and about this handle.
pub open spec fn deleted(
    requests: Seq<DelNotifRequest>,
    n: int,
    target: AmsAddr,
    item: (AmsAddr, Handle),
) -> bool {
    exists|i: int|
        0 <= i < n && (#[trigger] requests[i]).res == 0 && item == (target, requests[i].req)
}

impl Device {
    /// Ask to add multiple notification handles.
    pub fn add_notification_multi_request(
        &self,
        comms: &mut Comms,
        requests: &[AddNotifRequest],
    ) -> (r: Result<Call>)
        ensures
            sum_up_requested(
                r,
                *final(comms),
                *old(comms),
                self.addr,
                index::SUMUP_ADDDEVNOTE,
                requests@.len(),
                8 * requests@.len(),
                concat(add_parts(requests@)),
            ),
    {
        let nreq: usize = requests.len();
        let rlen: u64 = scaled(nreq, 8);
        let written: Vec<u8> = join(requests, Piece::Part);
        assert(pieces(requests@, Piece::Part) =~= add_parts(requests@));
        sum_up_request(self, comms, index::SUMUP_ADDDEVNOTE, nreq, rlen, &written)
    }

    /// Get the outcome of each request for a notification out of the reply.
    ///
    /// This function only returns Err on errors that cause the whole sum-up
    /// request to fail (e.g. if the device doesn't support such requests).  If
    /// the request as a whole succeeds, each single read can have returned its
    /// own error.  The [`AddNotifRequest::handle`] method will return either
    /// the returned handle or the error for each read.  The requests keep their
    /// IDs.
    pub fn add_notification_multi(
        comms: &mut Comms,
        call: &Call,
        reply: &[u8],
        requests: &mut [AddNotifRequest],
    ) -> (r: Result<()>)
        requires
            complete(reply@),
        ensures
            final(requests)@.len() == old(requests)@.len(),
            same_but_handles(*final(comms), *old(comms)),
            match outcome(*call, reply@, Some(4)) {
                Err(e) => {
                    &&& r == Err::<(), Error>(e)
                    &&& final(requests)@ == old(requests)@
                    &&& final(comms).notif_handles@ == old(comms).notif_handles@
                },
                Ok(_) => {
                    let n = old(requests)@.len() as int;
                    let after = sum_up_after(concat(add_results(old(requests)@)), reply@);
                    &&& r == Ok::<(), Error>(())
                    &&& forall|i: int|
                        0 <= i < n ==> {
                            &&& (#[trigger] final(requests)@[i]).id == old(requests)@[i].id
                            &&& final(requests)@[i].req == old(requests)@[i].req
                            &&& final(requests)@[i].res == ResultLength::at(after, 8 * i)
                        }
                    &&& forall|item: (AmsAddr, Handle)| #[trigger]
                        final(comms).notif_handles@.contains(item) <==> old(
                            comms,
                        ).notif_handles@.contains(item) || added(
                            final(requests)@,
                            n,
                            call.target,
                            item,
                        )
                },
            },
    {
        let ghost before = requests@;
        let ghost results = add_results(before);
        let nreq: usize = requests.len();
        let mut out: Vec<u8> = join(requests, Piece::Result);
        assert(pieces(before, Piece::Result) =~= results);
        length_and_data(call, reply, out.as_mut_slice())?;
        let total: usize = out.len();
        proof {
            assert forall|i: int| 0 <= i < results.len() implies #[trigger] results[i].len()
                == 8 by {}
            results_length(results, 8);
        }
        let ghost handles = comms.notif_handles@;
        let ghost start = *comms;
        let mut i: usize = 0;
        while i < nreq
            invariant
                i <= nreq == before.len() == requests@.len(),
                8 * nreq == total == out@.len(),
                forall|m: int| i <= m < nreq ==> #[trigger] requests@[m] == before[m],
                forall|m: int|
                    0 <= m < i ==> {
                        &&& (#[trigger] requests@[m]).id == before[m].id
                        &&& requests@[m].req == before[m].req
                        &&& requests@[m].res == ResultLength::at(out@, 8 * m)
                    },
                same_but_handles(*comms, start),
                forall|item: (AmsAddr, Handle)| #[trigger]
                    comms.notif_handles@.contains(item) <==> handles.contains(item) || added(
                        requests@,
                        i as int,
                        call.target,
                        item,
                    ),
            decreases nreq - i,
        {
            let ghost at_loop = requests@;
            let ghost had = comms.notif_handles@;
            requests[i].res = ResultLength::from_bytes(&out, 8 * i);
            if let Ok(handle) = requests[i].handle() {
                comms.notif_handles.insert(call.target, handle);
            }
            proof {
                assert(at_loop[i as int] == before[i as int]);
                assert forall|m: int| 0 <= m < nreq && m != i implies #[trigger] requests@[m]
                    == at_loop[m] by {}
                assert forall|item: (AmsAddr, Handle)| #[trigger]
                    comms.notif_handles@.contains(item) <==> handles.contains(item) || added(
                    requests@,
                    i + 1,
                    call.target,
                    item,
                ) by {
                    assert(had.contains(item) <==> handles.contains(item) || added(
                        at_loop,
                        i as int,
                        call.target,
                        item,
                    ));
                    if added(at_loop, i as int, call.target, item) {
                        let m = choose|m: int|
                            0 <= m < i && (#[trigger] at_loop[m]).res.result == 0 && item == (
                                call.target,
                                at_loop[m].res.length,
                            );
                        assert(requests@[m] == at_loop[m]);
                    }
                    if added(requests@, i + 1, call.target, item) {
                        let m = choose|m: int|
                            0 <= m < i + 1 && (#[trigger] requests@[m]).res.result == 0 && item == (
                                call.target,
                                requests@[m].res.length,
                            );
                        if m < i {
                            assert(requests@[m] == at_loop[m]);
                        }
                    }
                }
            }
            i += 1;
        }
        Ok(())
    }

    /// Ask to delete multiple notification handles.
    pub fn delete_notification_multi_request(
        &self,
        comms: &mut Comms,
        requests: &[DelNotifRequest],
    ) -> (r: Result<Call>)
        ensures
            sum_up_requested(
                r,
                *final(comms),
                *old(comms),
                self.addr,
                index::SUMUP_DELDEVNOTE,
                requests@.len(),
                4 * requests@.len(),
                concat(delete_parts(requests@)),
            ),
    {
        let nreq: usize = requests.len();
        let rlen: u64 = scaled(nreq, 4);
        let written: Vec<u8> = join(requests, Piece::Part);
        assert(pieces(requests@, Piece::Part) =~= delete_parts(requests@));
        sum_up_request(self, comms, index::SUMUP_DELDEVNOTE, nreq, rlen, &written)
    }

    /// Get the outcome of each deletion out of the reply.
    ///
    /// This function only returns Err on errors that cause the whole sum-up
    /// request to fail (e.g. if the device doesn't support such requests).  If
    /// the request as a whole succeeds, each single read can have returned its
    /// own error.  The [`DelNotifRequest::ensure`] method will return either the
    /// returned data or the error for each read.
    pub fn delete_notification_multi(
        comms: &mut Comms,
        call: &Call,
        reply: &[u8],
        requests: &mut [DelNotifRequest],
    ) -> (r: Result<()>)
        requires
            complete(reply@),
        ensures
            final(requests)@.len() == old(requests)@.len(),
            same_but_handles(*final(comms), *old(comms)),
            match outcome(*call, reply@, Some(4)) {
                Err(e) => {
                    &&& r == Err::<(), Error>(e)
                    &&& final(requests)@ == old(requests)@
                    &&& final(comms).notif_handles@ == old(comms).notif_handles@
                },
                Ok(_) => {
                    let n = old(requests)@.len() as int;
                    let after = sum_up_after(concat(delete_results(old(requests)@)), reply@);
                    &&& r == Ok::<(), Error>(())
                    &&& forall|i: int|
                        0 <= i < n ==> {
                            &&& (#[trigger] final(requests)@[i]).req == old(requests)@[i].req
                            &&& final(requests)@[i].res == u32_at(after, 4 * i)
                        }
                    &&& forall|item: (AmsAddr, Handle)| #[trigger]
                        final(comms).notif_handles@.contains(item) <==> old(
                            comms,
                        ).notif_handles@.contains(item) && !deleted(
                            final(requests)@,
                            n,
                            call.target,
                            item,
                        )
                },
            },
    {
        let ghost before = requests@;
        let ghost results = delete_results(before);
        let nreq: usize = requests.len();
        let mut out: Vec<u8> = join(requests, Piece::Result);
        assert(pieces(before, Piece::Result) =~= results);
        length_and_data(call, reply, out.as_mut_slice())?;
        let total: usize = out.len();
        proof {
            assert forall|i: int| 0 <= i < results.len() implies #[trigger] results[i].len()
                == 4 by {}
            results_length(results, 4);
        }
        let ghost handles = comms.notif_handles@;
        let ghost start = *comms;
        let mut i: usize = 0;
        while i < nreq
            invariant
                i <= nreq == before.len() == requests@.len(),
                4 * nreq == total == out@.len(),
                forall|m: int| i <= m < nreq ==> #[trigger] requests@[m] == before[m],
                forall|m: int|
                    0 <= m < i ==> {
                        &&& (#[trigger] requests@[m]).req == before[m].req
                        &&& requests@[m].res == u32_at(out@, 4 * m)
                    },
                same_but_handles(*comms, start),
                forall|item: (AmsAddr, Handle)| #[trigger]
                    comms.notif_handles@.contains(item) <==> handles.contains(item) && !deleted(
                        requests@,
                        i as int,
                        call.target,
                        item,
                    ),
            decreases nreq - i,
        {
            let ghost at_loop = requests@;
            let ghost had = comms.notif_handles@;
            requests[i].res = number_at(&out, 4 * i);
            if requests[i].ensure().is_ok() {
                comms.notif_handles.remove(call.target, requests[i].req);
            }
            proof {
                assert(at_loop[i as int] == before[i as int]);
                assert forall|m: int| 0 <= m < nreq && m != i implies #[trigger] requests@[m]
                    == at_loop[m] by {}
                assert forall|item: (AmsAddr, Handle)| #[trigger]
                    comms.notif_handles@.contains(item) <==> handles.contains(item) && !deleted(
                    requests@,
                    i + 1,
                    call.target,
                    item,
                ) by {
                    assert(had.contains(item) <==> handles.contains(item) && !deleted(
                        at_loop,
                        i as int,
                        call.target,
                        item,
                    ));
                    if deleted(at_loop, i as int, call.target, item) {
                        let m = choose|m: int|
                            0 <= m < i && (#[trigger] at_loop[m]).res == 0 && item == (
                                call.target,
                                at_loop[m].req,
                            );
                        assert(requests@[m] == at_loop[m]);
                    }
                    if deleted(requests@, i + 1, call.target, item) {
                        let m = choose|m: int|
                            0 <= m < i + 1 && (#[trigger] requests@[m]).res == 0 && item == (
                                call.target,
                                requests@[m].req,
                            );
                        if m < i {
                            assert(requests@[m] == at_loop[m]);
                        }
                    }
                }
            }
            i += 1;
        }
        Ok(())
    }
}

/// The given outcomes as they stand in a reply.
pub open spec fn result_bytes(results: Seq<ResultLength>) -> Seq<Seq<u8>> {
    Seq::new(results.len(), |i: int| results[i].bytes())
}

/// The payload of a reply to a sum-up request: a length, the outcome of each
/// part, and the data of each part.
pub open spec fn sum_up_payload(
    length: u32,
    results: Seq<ResultLength>,
    chunks: Seq<Seq<u8>>,
) -> Seq<u8> {
    u32_bytes(length) + (concat(result_bytes(results)) + concat(chunks))
}

/// Outcomes that are laid end to end can be read back at their places.
proof fn result_at(results: Seq<ResultLength>, tail: Seq<u8>, i: int)
    requires
        0 <= i < results.len(),
    ensures
        concat(result_bytes(results)).len() == 8 * results.len(),
        ResultLength::at(concat(result_bytes(results)) + tail, 8 * i) == results[i],
{
    let bytes = result_bytes(results);
    let all = concat(bytes);
    let s = all + tail;
    assert forall|k: int| 0 <= k < bytes.len() implies #[trigger] bytes[k].len() == 8 by {}
    results_length(bytes, 8);
    concat_part(bytes, i);
    start_of_equal(lengths(bytes), 8, i);
    let rest = s.skip(8 * i + 8);
    assert(s.skip(8 * i) =~= bytes[i] + rest);
    assert(s.skip(8 * i) =~= u32_bytes(results[i].result) + (u32_bytes(results[i].length) + rest));
    field_u32(s, 8 * i, results[i].result, u32_bytes(results[i].length) + rest);
    field_u32(s, 8 * i + 4, results[i].length, rest);
}

/// What the result fields and buffers hold after a reply with this payload.
proof fn after_payload(
    old: Seq<u8>,
    reply: Seq<u8>,
    length: u32,
    results: Seq<ResultLength>,
    chunks: Seq<Seq<u8>>,
)
    requires
        payload(reply) == sum_up_payload(length, results, chunks),
        concat(result_bytes(results)).len() + concat(chunks).len() <= old.len(),
    ensures
        exists|tail: Seq<u8>|
            sum_up_after(old, reply) == concat(result_bytes(results)) + #[trigger] (concat(chunks)
                + tail),
{
    let data = concat(result_bytes(results)) + concat(chunks);
    assert(rest_of(payload(reply), 4) =~= data);
    let tail = old.skip(data.len() as int);
    assert(sum_up_after(old, reply) =~= concat(result_bytes(results)) + (concat(chunks) + tail));
}

/// Each read of a sum-up request gets its own outcome and its own data: if the
/// device answers with one outcome for each request and with data that fills
/// each buffer, that is what the requests hold afterwards.
#[verifier::rlimit(40)]
pub proof fn each_read_gets_its_data(
    requests: Seq<ReadRequest>,
    reply: Seq<u8>,
    length: u32,
    results: Seq<ResultLength>,
    chunks: Seq<Seq<u8>>,
    i: int,
)
    requires
        results.len() == requests.len(),
        chunks.len() == requests.len(),
        forall|k: int|
            0 <= k < chunks.len() ==> (#[trigger] chunks[k]).len() == requests[k].buffer().len(),
        payload(reply) == sum_up_payload(length, results, chunks),
        0 <= i < requests.len(),
    ensures
        ({
            let after = sum_up_after(read_outputs(requests), reply);
            &&& ResultLength::at(after, 8 * i) == results[i]
            &&& buffer_part(after, read_buffers(requests), i) == chunks[i]
        }),
{
    let old = read_outputs(requests);
    let bufs = read_buffers(requests);
    let olds = read_results(requests);
    let after = sum_up_after(old, reply);
    assert forall|k: int| 0 <= k < olds.len() implies #[trigger] olds[k].len() == 8 by {}
    results_length(olds, 8);
    result_at(results, Seq::empty(), i);
    assert(lengths(chunks) =~= lengths(bufs)) by {
        assert forall|k: int| 0 <= k < chunks.len() implies lengths(chunks)[k] == lengths(
            bufs,
        )[k] by {
            assert(chunks[k].len() == requests[k].buffer().len());
        }
    }
    concat_length(bufs);
    concat_length(chunks);
    after_payload(old, reply, length, results, chunks);
    let tail = choose|tail: Seq<u8>|
        after == concat(result_bytes(results)) + #[trigger] (concat(chunks) + tail);
    result_at(results, concat(chunks) + tail, i);
    concat_part(chunks, i);
    assert(chunks[i].len() == requests[i].buffer().len());
    assert(buffer_part(after, bufs, i) =~= concat(chunks).subrange(
        start_of(lengths(chunks), i),
        start_of(lengths(chunks), i) + chunks[i].len(),
    ));
}

/// Each write/read of a sum-up request gets its own outcome and its own data,
/// however short the data of the others is: if the device answers with one
/// outcome for each request and with the data of each, and no data is longer
/// than its buffer, that is what the requests hold afterwards.
#[verifier::rlimit(40)]
pub proof fn each_write_read_gets_its_data(
    requests: Seq<WriteReadRequest>,
    reply: Seq<u8>,
    length: u32,
    results: Seq<ResultLength>,
    chunks: Seq<Seq<u8>>,
    i: int,
)
    requires
        results.len() == requests.len(),
        chunks.len() == requests.len(),
        forall|k: int|
            0 <= k < chunks.len() ==> (#[trigger] chunks[k]).len() == results[k].length
                && chunks[k].len() <= requests[k].buffer().len(),
        payload(reply) == sum_up_payload(length, results, chunks),
        0 <= i < requests.len(),
    ensures
        write_read_fits(requests, reply),
        ({
            let n = requests.len();
            let after = sum_up_after(write_read_outputs(requests), reply);
            let lens = sum_up_lengths(after, n);
            &&& ResultLength::at(after, 8 * i) == results[i]
            &&& part_of(after.skip((8 * n) as int), lens, i) == chunks[i]
        }),
{
    let n = requests.len();
    let old = write_read_outputs(requests);
    let bufs = result_buffers(requests);
    let after = sum_up_after(old, reply);
    let lens = sum_up_lengths(after, n);
    write_read_outputs_length(requests);
    result_at(results, Seq::empty(), i);
    concat_length(chunks);
    shorter_parts(chunks, bufs, n as int);
    after_payload(old, reply, length, results, chunks);
    let tail = choose|tail: Seq<u8>|
        after == concat(result_bytes(results)) + #[trigger] (concat(chunks) + tail);
    assert forall|k: int| 0 <= k < n implies ResultLength::at(after, 8 * k) == results[k]
        && #[trigger] lens[k] == chunks[k].len() by {
        result_at(results, concat(chunks) + tail, k);
        assert(chunks[k].len() == results[k].length);
    }
    assert(lens =~= lengths(chunks));
    assert forall|k: int| 0 <= k < n implies #[trigger] lens[k]
        <= requests[k].buffer().len() by {
        assert(chunks[k].len() <= requests[k].buffer().len());
    }
    concat_part(chunks, i);
    let stream = after.skip((8 * n) as int);
    assert(stream =~= concat(chunks) + tail);
    assert(lens[i] == chunks[i].len());
    assert(part_of(stream, lens, i) =~= concat(chunks).subrange(
        start_of(lengths(chunks), i),
        start_of(lengths(chunks), i) + chunks[i].len(),
    ));
}

/// Each part of a sum-up request that gets nothing but an outcome gets its own:
/// if the device answers with one outcome for each part, that is what the parts
/// hold afterwards.
pub proof fn each_part_gets_its_outcome(
    old: Seq<u8>,
    reply: Seq<u8>,
    length: u32,
    results: Seq<u32>,
    i: int,
)
    requires
        old.len() == 4 * results.len(),
        payload(reply) == u32_bytes(length) + concat(
            Seq::new(results.len(), |k: int| u32_bytes(results[k])),
        ),
        0 <= i < results.len(),
    ensures
        u32_at(sum_up_after(old, reply), 4 * i) == results[i],
{
    let bytes = Seq::new(results.len(), |k: int| u32_bytes(results[k]));
    let all = concat(bytes);
    assert forall|k: int| 0 <= k < bytes.len() implies #[trigger] bytes[k].len() == 4 by {}
    results_length(bytes, 4);
    assert(rest_of(payload(reply), 4) =~= all);
    assert(sum_up_after(old, reply) =~= all);
    concat_part(bytes, i);
    start_of_equal(lengths(bytes), 4, i);
    let rest = all.skip(4 * i + 4);
    assert(all.skip(4 * i) =~= bytes[i] + rest);
    field_u32(all, 4 * i, results[i], rest);
}

/// Each new notification gets its own outcome and handle: if the device answers
/// with one outcome for each, that is what the requests hold afterwards.
pub proof fn each_notification_gets_its_handle(
    requests: Seq<AddNotifRequest>,
    reply: Seq<u8>,
    length: u32,
    results: Seq<ResultLength>,
    i: int,
)
    requires
        results.len() == requests.len(),
        payload(reply) == u32_bytes(length) + concat(result_bytes(results)),
        0 <= i < requests.len(),
    ensures
        ResultLength::at(sum_up_after(concat(add_results(requests)), reply), 8 * i) == results[i],
{
    let olds = add_results(requests);
    assert forall|k: int| 0 <= k < olds.len() implies #[trigger] olds[k].len() == 8 by {}
    results_length(olds, 8);
    let all = concat(result_bytes(results));
    result_at(results, Seq::empty(), i);
    assert(all + Seq::<u8>::empty() =~= all);
    assert(rest_of(payload(reply), 4) =~= all);
    assert(sum_up_after(concat(olds), reply) =~= all);
}

/// The handles that leave the set when several notifications are deleted are
/// those whose deletion was asked for: the request names the handle of each part
/// in turn.
#[verifier::rlimit(40)]
pub proof fn deletion_names_the_handles(
    target: AmsAddr,
    source: AmsAddr,
    invoke_id: u32,
    requests: Seq<DelNotifRequest>,
    i: int,
)
    requires
        48 + 4 * requests.len() <= u32::MAX,
        0 <= i < requests.len(),
    ensures
        ({
            let written = concat(delete_parts(requests));
            let header = sum_up_header(
                index::SUMUP_DELDEVNOTE,
                requests.len(),
                4 * requests.len(),
                written.len(),
            );
            let p = request_packet(
                Command::ReadWrite,
                target,
                source,
                invoke_id,
                header.bytes() + written,
            );
            &&& p.len() == 54 + 4 * requests.len()
            &&& u32_at(p, 54 + 4 * i) == requests[i].req
        }),
{
    let parts = delete_parts(requests);
    let written = concat(parts);
    let header = sum_up_header(
        index::SUMUP_DELDEVNOTE,
        requests.len(),
        4 * requests.len(),
        written.len(),
    );
    let sent = header.bytes() + written;
    let p = request_packet(Command::ReadWrite, target, source, invoke_id, sent);
    assert forall|k: int| 0 <= k < parts.len() implies #[trigger] parts[k].len() == 4 by {}
    results_length(parts, 4);
    concat_part(parts, i);
    start_of_equal(lengths(parts), 4, i);
    request_fields(Command::ReadWrite, target, source, invoke_id, sent);
    let rest = written.skip(4 * i + 4);
    assert(written.skip(4 * i) =~= parts[i] + rest);
    assert(p.skip(54 + 4 * i) =~= p.skip(38).skip(16 + 4 * i));
    assert(sent.skip(16 + 4 * i) =~= written.skip(4 * i));
    field_u32(p, 54 + 4 * i, requests[i].req, rest);
}

/// Shorter buffers take less room.
proof fn shorter_parts(chunks: Seq<Seq<u8>>, bufs: Seq<Seq<u8>>, n: int)
    requires
        chunks.len() == bufs.len(),
        0 <= n <= bufs.len(),
        forall|k: int| 0 <= k < chunks.len() ==> (#[trigger] chunks[k]).len() <= bufs[k].len(),
    ensures
        start_of(lengths(chunks), n) <= start_of(lengths(bufs), n),
    decreases n,
{
    if n > 0 {
        shorter_parts(chunks, bufs, n - 1);
        assert(chunks[n - 1].len() <= bufs[n - 1].len());
    }
}

/// A sum-up request names its index group, the number of its parts, how many
/// bytes are to come back and how many are written, and carries what is written.
/// It is made if and only if the lengths fit in their fields.
#[verifier::rlimit(40)]
pub proof fn sum_up_request_fields(
    r: Result<Call>,
    new: Comms,
    old: Comms,
    target: AmsAddr,
    index_group: u32,
    n: nat,
    read_length: nat,
    written: Seq<u8>,
)
    requires
        sum_up_requested(r, new, old, target, index_group, n, read_length, written),
        n <= read_length,
    ensures
        r is Ok <==> read_length <= u32::MAX && 48 + written.len() <= u32::MAX,
        r matches Err(e) ==> e is Overflow,
        r matches Ok(call) ==> {
            let p = call.request@;
            &&& call.cmd == Command::ReadWrite
            &&& call.target == target
            &&& p.len() == 54 + written.len()
            &&& p.subrange(6, 14) == target.bytes()
            &&& u16_at(p, 22) == 9
            &&& u32_at(p, 38) == index_group
            &&& u32_at(p, 42) == n
            &&& u32_at(p, 46) == read_length
            &&& u32_at(p, 50) == written.len()
            &&& p.skip(54) == written
        },
{
    let header = sum_up_header(index_group, n, read_length, written.len());
    index_length_rw_fields(header, written);
    if let Ok(call) = r {
        write_read_request_fields(call, new, old, target, header, written);
    }
}

/// Parts of one width that are laid end to end can be found at the multiples of
/// that width, whatever follows.
proof fn part_at(parts: Seq<Seq<u8>>, width: int, tail: Seq<u8>, i: int)
    requires
        0 <= i < parts.len(),
        0 <= width,
        forall|k: int| 0 <= k < parts.len() ==> #[trigger] parts[k].len() == width,
    ensures
        0 <= width * i,
        width * i + width <= concat(parts).len(),
        concat(parts).len() == width * parts.len(),
        (concat(parts) + tail).subrange(width * i, width * i + width) == parts[i],
        (concat(parts) + tail).skip(width * parts.len()) == tail,
{
    results_length(parts, width);
    concat_part(parts, i);
    start_of_equal(lengths(parts), width, i);
    assert((concat(parts) + tail).subrange(width * i, width * i + width) =~= concat(
        parts,
    ).subrange(width * i, width * i + width));
    assert((concat(parts) + tail).skip(width * parts.len()) =~= tail);
}

/// Numbers can be read in a part of a sequence as well as in the whole.
proof fn number_in_part(s: Seq<u8>, from: int, to: int, at: int)
    requires
        0 <= from,
        0 <= at,
        from + at + 4 <= to <= s.len(),
    ensures
        u32_at(s.subrange(from, to), at) == u32_at(s, from + at),
{
}

/// What several reads write names the place and length of each in turn.
pub proof fn read_parts_fields(requests: Seq<ReadRequest>, i: int)
    requires
        0 <= i < requests.len(),
    ensures
        ({
            let w = concat(read_parts(requests));
            &&& w.len() == 12 * requests.len()
            &&& u32_at(w, 12 * i) == requests[i].req.index_group
            &&& u32_at(w, 12 * i + 4) == requests[i].req.index_offset
            &&& u32_at(w, 12 * i + 8) == requests[i].req.length
        }),
{
    let parts = read_parts(requests);
    let w = concat(parts);
    assert forall|k: int| 0 <= k < parts.len() implies #[trigger] parts[k].len() == 12 by {}
    part_at(parts, 12, Seq::empty(), i);
    assert(w + Seq::<u8>::empty() =~= w);
    let part = requests[i].req.bytes();
    index_length_fields(requests[i].req, Seq::empty());
    assert(part + Seq::<u8>::empty() =~= part);
    number_in_part(w, 12 * i, 12 * i + 12, 0);
    number_in_part(w, 12 * i, 12 * i + 12, 4);
    number_in_part(w, 12 * i, 12 * i + 12, 8);
}

/// What several writes write names the place and length of each in turn, and
/// then holds the data of each in turn.
#[verifier::rlimit(40)]
pub proof fn write_parts_fields(requests: Seq<WriteRequest>, i: int)
    requires
        0 <= i < requests.len(),
    ensures
        ({
            let n = requests.len();
            let bufs = write_buffers(requests);
            let w = concat(write_parts(requests)) + concat(bufs);
            let at = 12 * n + start_of(lengths(bufs), i);
            &&& u32_at(w, 12 * i) == requests[i].req.index_group
            &&& u32_at(w, 12 * i + 4) == requests[i].req.index_offset
            &&& u32_at(w, 12 * i + 8) == requests[i].req.length
            &&& lengths(bufs)[i] == requests[i].wbuf@.len()
            &&& w.len() == 12 * n + start_of(lengths(bufs), n as int)
            &&& w.subrange(at, at + requests[i].wbuf@.len()) == requests[i].wbuf@
        }),
{
    let parts = write_parts(requests);
    let bufs = write_buffers(requests);
    let w = concat(parts) + concat(bufs);
    assert forall|k: int| 0 <= k < parts.len() implies #[trigger] parts[k].len() == 12 by {}
    part_at(parts, 12, concat(bufs), i);
    let part = requests[i].req.bytes();
    index_length_fields(requests[i].req, Seq::empty());
    assert(part + Seq::<u8>::empty() =~= part);
    number_in_part(w, 12 * i, 12 * i + 12, 0);
    number_in_part(w, 12 * i, 12 * i + 12, 4);
    number_in_part(w, 12 * i, 12 * i + 12, 8);
    concat_part(bufs, i);
    concat_length(bufs);
    let start = start_of(lengths(bufs), i);
    let at = 12 * requests.len() + start;
    assert(w.subrange(at, at + bufs[i].len()) =~= concat(bufs).subrange(start, start + bufs[i].len()));
}

/// What several writes/reads write names of each in turn the place, how many
/// bytes to read and then how many bytes are written, and then holds the data of
/// each in turn.
#[verifier::rlimit(40)]
pub proof fn write_read_parts_fields(requests: Seq<WriteReadRequest>, i: int)
    requires
        0 <= i < requests.len(),
    ensures
        ({
            let n = requests.len();
            let bufs = write_read_inputs(requests);
            let w = concat(write_read_parts(requests)) + concat(bufs);
            let at = 16 * n + start_of(lengths(bufs), i);
            &&& u32_at(w, 16 * i) == requests[i].req.index_group
            &&& u32_at(w, 16 * i + 4) == requests[i].req.index_offset
            &&& u32_at(w, 16 * i + 8) == requests[i].req.read_length
            &&& u32_at(w, 16 * i + 12) == requests[i].req.write_length
            &&& lengths(bufs)[i] == requests[i].wbuf@.len()
            &&& w.len() == 16 * n + start_of(lengths(bufs), n as int)
            &&& w.subrange(at, at + requests[i].wbuf@.len()) == requests[i].wbuf@
        }),
{
    let parts = write_read_parts(requests);
    let bufs = write_read_inputs(requests);
    let w = concat(parts) + concat(bufs);
    assert forall|k: int| 0 <= k < parts.len() implies #[trigger] parts[k].len() == 16 by {}
    part_at(parts, 16, concat(bufs), i);
    let part = requests[i].req.bytes();
    index_length_rw_fields(requests[i].req, Seq::empty());
    assert(part + Seq::<u8>::empty() =~= part);
    number_in_part(w, 16 * i, 16 * i + 16, 0);
    number_in_part(w, 16 * i, 16 * i + 16, 4);
    number_in_part(w, 16 * i, 16 * i + 16, 8);
    number_in_part(w, 16 * i, 16 * i + 16, 12);
    concat_part(bufs, i);
    concat_length(bufs);
    let start = start_of(lengths(bufs), i);
    let at = 16 * requests.len() + start;
    assert(w.subrange(at, at + bufs[i].len()) =~= concat(bufs).subrange(start, start + bufs[i].len()));
}

/// What a request for several notifications writes names of each in turn the
/// place, the number of bytes to watch, the mode, the delay and the cycle time.
pub proof fn add_parts_fields(requests: Seq<AddNotifRequest>, i: int)
    requires
        0 <= i < requests.len(),
    ensures
        ({
            let w = concat(add_parts(requests));
            &&& w.len() == 40 * requests.len()
            &&& w.subrange(40 * i, 40 * i + 40) == requests[i].req.bytes()
            &&& u32_at(w, 40 * i) == requests[i].req.index_group
            &&& u32_at(w, 40 * i + 4) == requests[i].req.index_offset
            &&& u32_at(w, 40 * i + 8) == requests[i].req.length
            &&& u32_at(w, 40 * i + 12) == requests[i].req.trans_mode
            &&& u32_at(w, 40 * i + 16) == requests[i].req.max_delay
            &&& u32_at(w, 40 * i + 20) == requests[i].req.cycle_time
        }),
{
    let parts = add_parts(requests);
    let w = concat(parts);
    assert forall|k: int| 0 <= k < parts.len() implies #[trigger] parts[k].len() == 40 by {}
    part_at(parts, 40, Seq::empty(), i);
    assert(w + Seq::<u8>::empty() =~= w);
    let part = requests[i].req.bytes();
    add_notif_fields(requests[i].req, Seq::empty());
    assert(part + Seq::<u8>::empty() =~= part);
    number_in_part(w, 40 * i, 40 * i + 40, 0);
    number_in_part(w, 40 * i, 40 * i + 40, 4);
    number_in_part(w, 40 * i, 40 * i + 40, 8);
    number_in_part(w, 40 * i, 40 * i + 40, 12);
    number_in_part(w, 40 * i, 40 * i + 40, 16);
    number_in_part(w, 40 * i, 40 * i + 40, 20);
}

/// What a request to delete several notifications writes names the handle of
/// each in turn.
pub proof fn delete_parts_fields(requests: Seq<DelNotifRequest>, i: int)
    requires
        0 <= i < requests.len(),
    ensures
        concat(delete_parts(requests)).len() == 4 * requests.len(),
        u32_at(concat(delete_parts(requests)), 4 * i) == requests[i].req,
{
    let parts = delete_parts(requests);
    let w = concat(parts);
    assert forall|k: int| 0 <= k < parts.len() implies #[trigger] parts[k].len() == 4 by {}
    part_at(parts, 4, Seq::empty(), i);
    assert(w + Seq::<u8>::empty() =~= w);
    u32_round_trip(requests[i].req);
    number_in_part(w, 4 * i, 4 * i + 4, 0);
}

/// Before the reply, what the outcomes and buffers hold is laid end to end in
/// turn: eight bytes for each outcome, and then the buffers.
#[verifier::rlimit(40)]
pub proof fn outputs_in_turn(
    reads: Seq<ReadRequest>,
    write_reads: Seq<WriteReadRequest>,
    i: int,
    j: int,
)
    requires
        0 <= i < reads.len(),
        0 <= j < write_reads.len(),
    ensures
        ({
            let s = read_outputs(reads);
            let bufs = read_buffers(reads);
            &&& ResultLength::at(s, 8 * i) == reads[i].res
            &&& buffer_part(s, bufs, i) == reads[i].buffer()
            &&& bufs[i] == reads[i].buffer()
            &&& s.len() == 8 * reads.len() + concat(bufs).len()
        }),
        ({
            let s = write_read_outputs(write_reads);
            let bufs = result_buffers(write_reads);
            &&& ResultLength::at(s, 8 * j) == write_reads[j].res
            &&& buffer_part(s, bufs, j) == write_reads[j].buffer()
            &&& bufs[j] == write_reads[j].buffer()
            &&& s.len() == 8 * write_reads.len() + concat(bufs).len()
        }),
{
    let bufs = read_buffers(reads);
    let results = Seq::new(reads.len(), |k: int| reads[k].res);
    assert(result_bytes(results) =~= read_results(reads));
    result_at(results, concat(bufs), i);
    concat_part(bufs, i);
    let start = start_of(lengths(bufs), i);
    assert(buffer_part(read_outputs(reads), bufs, i) =~= concat(bufs).subrange(
        start,
        start + bufs[i].len(),
    ));
    let bufs = result_buffers(write_reads);
    let results = Seq::new(write_reads.len(), |k: int| write_reads[k].res);
    assert(result_bytes(results) =~= write_read_results(write_reads));
    result_at(results, concat(bufs), j);
    concat_part(bufs, j);
    let start = start_of(lengths(bufs), j);
    assert(buffer_part(write_read_outputs(write_reads), bufs, j) =~= concat(bufs).subrange(
        start,
        start + bufs[j].len(),
    ));
}

/// A reply fills outcomes and buffers one after the other with what stands behind
/// its length field, and leaves alone what it does not reach.
pub proof fn sum_up_after_bytes(old: Seq<u8>, reply: Seq<u8>, k: int)
    requires
        complete(reply),
        0 <= k < old.len(),
    ensures
        sum_up_after(old, reply).len() == old.len(),
        sum_up_after(old, reply)[k] == if 46 + k < 38 + u32_at(reply, 26) {
            reply[46 + k]
        } else {
            old[k]
        },
{
}

/// The part of a buffer stands behind the outcomes and behind the buffers in
/// front of it.
pub proof fn buffer_part_bytes(after: Seq<u8>, bufs: Seq<Seq<u8>>, i: int, k: int)
    requires
        0 <= i < bufs.len(),
        0 <= k < bufs[i].len(),
        after.len() == 8 * bufs.len() + concat(bufs).len(),
    ensures
        buffer_part(after, bufs, i).len() == bufs[i].len(),
        buffer_part(after, bufs, i)[k] == after[8 * bufs.len() + start_of(lengths(bufs), i) + k],
{
    concat_part(bufs, i);
}

/// A reply to several writes/reads fits if and only if no outcome claims more
/// bytes than its buffer holds.
pub proof fn fits_means_no_overrun(requests: Seq<WriteReadRequest>, reply: Seq<u8>)
    ensures
        write_read_fits(requests, reply) <==> forall|i: int|
            #![trigger requests[i]]
            0 <= i < requests.len() ==> u32_at(
                sum_up_after(write_read_outputs(requests), reply),
                8 * i + 4,
            ) <= requests[i].buffer().len(),
{
    let after = sum_up_after(write_read_outputs(requests), reply);
    let lens = sum_up_lengths(after, requests.len());
    if write_read_fits(requests, reply) {
        assert forall|i: int| #![trigger requests[i]] 0 <= i < requests.len() implies u32_at(
            after,
            8 * i + 4,
        ) <= requests[i].buffer().len() by {
            assert(lens[i] <= requests[i].buffer().len());
        }
    } else {
        let i = choose|i: int|
            0 <= i < requests.len() && !(#[trigger] sum_up_lengths(after, requests.len())[i]
                <= requests[i].buffer().len());
        assert(requests[i].buffer().len() < u32_at(after, 8 * i + 4));
    }
}

/// The handles that are recorded are those of the successful requests, each with
/// the device that was asked.
pub proof fn granted_handles_are_recorded(
    requests: Seq<AddNotifRequest>,
    target: AmsAddr,
    item: (AmsAddr, Handle),
    i: int,
)
    ensures
        0 <= i < requests.len() && requests[i].res.result == 0 ==> added(
            requests,
            requests.len() as int,
            target,
            (target, requests[i].res.length),
        ),
        added(requests, requests.len() as int, target, item) ==> item.0 == target && exists|k: int|
            0 <= k < requests.len() && (#[trigger] requests[k]).res.result == 0
                && requests[k].res.length == item.1,
{
}

/// The handles that are forgotten are those of the successful requests, each with
/// the device that was asked.
pub proof fn deleted_handles_are_forgotten(
    requests: Seq<DelNotifRequest>,
    target: AmsAddr,
    item: (AmsAddr, Handle),
    i: int,
)
    ensures
        0 <= i < requests.len() && requests[i].res == 0 ==> deleted(
            requests,
            requests.len() as int,
            target,
            (target, requests[i].req),
        ),
        deleted(requests, requests.len() as int, target, item) ==> item.0 == target
            && exists|k: int|
            0 <= k < requests.len() && (#[trigger] requests[k]).res == 0 && requests[k].req
                == item.1,
{
}

/// Before the reply, the outcomes of writes, new notifications and deletions are
/// laid end to end in turn.
pub proof fn outcomes_in_turn(
    writes: Seq<WriteRequest>,
    adds: Seq<AddNotifRequest>,
    deletes: Seq<DelNotifRequest>,
    i: int,
)
    ensures
        0 <= i < writes.len() ==> {
            &&& concat(write_results(writes)).len() == 4 * writes.len()
            &&& u32_at(concat(write_results(writes)), 4 * i) == writes[i].res
        },
        0 <= i < adds.len() ==> {
            &&& concat(add_results(adds)).len() == 8 * adds.len()
            &&& ResultLength::at(concat(add_results(adds)), 8 * i) == adds[i].res
        },
        0 <= i < deletes.len() ==> {
            &&& concat(delete_results(deletes)).len() == 4 * deletes.len()
            &&& u32_at(concat(delete_results(deletes)), 4 * i) == deletes[i].res
        },
{
    if 0 <= i < writes.len() {
        let parts = write_results(writes);
        let w = concat(parts);
        assert forall|k: int| 0 <= k < parts.len() implies #[trigger] parts[k].len() == 4 by {}
        part_at(parts, 4, Seq::empty(), i);
        assert(w + Seq::<u8>::empty() =~= w);
        u32_round_trip(writes[i].res);
        number_in_part(w, 4 * i, 4 * i + 4, 0);
    }
    if 0 <= i < adds.len() {
        let results = Seq::new(adds.len(), |k: int| adds[k].res);
        assert(result_bytes(results) =~= add_results(adds));
        result_at(results, Seq::empty(), i);
        assert(concat(add_results(adds)) + Seq::<u8>::empty() =~= concat(add_results(adds)));
    }
    if 0 <= i < deletes.len() {
        let parts = delete_results(deletes);
        let w = concat(parts);
        assert forall|k: int| 0 <= k < parts.len() implies #[trigger] parts[k].len() == 4 by {}
        part_at(parts, 4, Seq::empty(), i);
        assert(w + Seq::<u8>::empty() =~= w);
        u32_round_trip(deletes[i].res);
        number_in_part(w, 4 * i, 4 * i + 4, 0);
    }
}

} // verus!
