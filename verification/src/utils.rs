//! Buffers laid end to end, and how the data of a sum-up reply gets into them.
use crate::commands::WriteReadRequest;
use vstd::prelude::*;

verus! {

/// The given buffers laid end to end.
pub open spec fn concat(bufs: Seq<Seq<u8>>) -> Seq<u8>
    decreases bufs.len(),
{
    if bufs.len() == 0 {
        Seq::empty()
    } else {
        concat(bufs.drop_last()) + bufs.last()
    }
}

/// The sum of the first `n` lengths: where item `n` starts if items of these
/// lengths are laid end to end.
pub open spec fn start_of(lens: Seq<int>, n: int) -> int
    decreases n,
{
    if n <= 0 {
        0
    } else {
        start_of(lens, n - 1) + lens[n - 1]
    }
}

/// The lengths of the given buffers.
pub open spec fn lengths(bufs: Seq<Seq<u8>>) -> Seq<int> {
    Seq::new(bufs.len(), |i: int| bufs[i].len() as int)
}

/// Where a buffer starts in the concatenation is where the lengths say.
pub proof fn concat_length(bufs: Seq<Seq<u8>>)
    ensures
        concat(bufs).len() == start_of(lengths(bufs), bufs.len() as int),
    decreases bufs.len(),
{
    if bufs.len() > 0 {
        concat_length(bufs.drop_last());
        start_of_prefix(lengths(bufs.drop_last()), lengths(bufs), bufs.len() - 1);
    }
}

/// `start_of` looks at the first lengths only.
pub proof fn start_of_prefix(a: Seq<int>, b: Seq<int>, n: int)
    requires
        n <= a.len(),
        n <= b.len(),
        forall|i: int| 0 <= i < n ==> a[i] == b[i],
    ensures
        start_of(a, n) == start_of(b, n),
    decreases n,
{
    if n > 0 {
        start_of_prefix(a, b, n - 1);
    }
}

/// Each byte of a buffer stands in the concatenation at the start of the
/// buffer plus its position there.
pub proof fn concat_byte(bufs: Seq<Seq<u8>>, i: int, p: int)
    requires
        0 <= i < bufs.len(),
        0 <= p < bufs[i].len(),
    ensures
        0 <= start_of(lengths(bufs), i) + p < concat(bufs).len(),
        concat(bufs)[start_of(lengths(bufs), i) + p] == bufs[i][p],
    decreases bufs.len(),
{
    let front = bufs.drop_last();
    concat_length(bufs);
    concat_length(front);
    start_of_prefix(lengths(front), lengths(bufs), front.len() as int);
    start_of_prefix(lengths(front), lengths(bufs), i);
    if i < front.len() {
        concat_byte(front, i, p);
    }
}

/// Later items start later, if no length is negative.
pub proof fn start_of_monotonic(lens: Seq<int>, i: int, j: int)
    requires
        0 <= i <= j <= lens.len(),
        forall|k: int| 0 <= k < lens.len() ==> lens[k] >= 0,
    ensures
        0 <= start_of(lens, i) <= start_of(lens, j),
    decreases j,
{
    if i < j {
        start_of_monotonic(lens, i, j - 1);
    } else if j > 0 {
        start_of_monotonic(lens, j - 1, j - 1);
    }
}

/// One more buffer at the end.
pub proof fn concat_next(bufs: Seq<Seq<u8>>, i: int)
    requires
        0 <= i < bufs.len(),
    ensures
        concat(bufs.take(i + 1)) == concat(bufs.take(i)) + bufs[i],
{
    assert(bufs.take(i + 1).drop_last() =~= bufs.take(i));
}

/// Items of one length start at the multiples of that length.
pub proof fn start_of_equal(lens: Seq<int>, width: int, n: int)
    requires
        0 <= n <= lens.len(),
        forall|k: int| 0 <= k < n ==> lens[k] == width,
    ensures
        start_of(lens, n) == width * n,
    decreases n,
{
    if n > 0 {
        start_of_equal(lens, width, n - 1);
        assert(width * n == width * (n - 1) + width) by (nonlinear_arith);
    } else {
        assert(width * n == 0) by (nonlinear_arith)
            requires
                n == 0,
        ;
    }
}

/// A buffer stands in the concatenation where the lengths say.
pub proof fn concat_part(bufs: Seq<Seq<u8>>, i: int)
    requires
        0 <= i < bufs.len(),
    ensures
        0 <= start_of(lengths(bufs), i),
        start_of(lengths(bufs), i) + bufs[i].len() <= concat(bufs).len(),
        concat(bufs).subrange(
            start_of(lengths(bufs), i),
            start_of(lengths(bufs), i) + bufs[i].len(),
        ) == bufs[i],
{
    let lens = lengths(bufs);
    concat_length(bufs);
    start_of_monotonic(lens, i, i + 1);
    start_of_monotonic(lens, i + 1, bufs.len() as int);
    let part = concat(bufs).subrange(start_of(lens, i), start_of(lens, i) + bufs[i].len());
    assert forall|p: int| 0 <= p < bufs[i].len() implies part[p] == bufs[i][p] by {
        concat_byte(bufs, i, p);
    }
    assert(part =~= bufs[i]);
}

/// The part of a stream that belongs to item `i`, if items of these lengths are
/// laid end to end.
pub open spec fn part_of(stream: Seq<u8>, lens: Seq<int>, i: int) -> Seq<u8> {
    stream.subrange(start_of(lens, i), start_of(lens, i) + lens[i])
}

/// The first `n` parts of a stream, laid end to end, are its start.
pub proof fn parts_make_the_stream(stream: Seq<u8>, lens: Seq<int>, n: int)
    requires
        0 <= n <= lens.len(),
        forall|k: int| 0 <= k < lens.len() ==> lens[k] >= 0,
        start_of(lens, lens.len() as int) <= stream.len(),
    ensures
        concat(Seq::new(n as nat, |i: int| part_of(stream, lens, i))) == stream.take(
            start_of(lens, n),
        ),
    decreases n,
{
    let parts = Seq::new(n as nat, |i: int| part_of(stream, lens, i));
    start_of_monotonic(lens, n, lens.len() as int);
    if n > 0 {
        parts_make_the_stream(stream, lens, n - 1);
        start_of_monotonic(lens, n - 1, n);
        assert(parts.drop_last() =~= Seq::new(
            (n - 1) as nat,
            |i: int| part_of(stream, lens, i),
        ));
        assert(concat(parts) =~= stream.take(start_of(lens, n)));
    } else {
        assert(concat(parts) =~= stream.take(0));
    }
}

/// A length as far as 64 bits can hold it.
pub open spec fn capped(n: int) -> int {
    if n <= u64::MAX {
        n
    } else {
        u64::MAX as int
    }
}

/// What the result buffers of the given requests hold.
pub open spec fn result_buffers(requests: Seq<WriteReadRequest>) -> Seq<Seq<u8>> {
    Seq::new(requests.len(), |i: int| requests[i].buffer())
}

/// How many bytes came back for each of the given requests.
pub open spec fn returned_lengths(requests: Seq<WriteReadRequest>) -> Seq<int> {
    Seq::new(requests.len(), |i: int| requests[i].res.length as int)
}

/// Whether nothing came back that is longer than its buffer.
pub open spec fn results_fit(requests: Seq<WriteReadRequest>) -> bool {
    forall|i: int|
        0 <= i < requests.len() ==> (#[trigger] requests[i]).res.length
            <= requests[i].buffer().len()
}

/// The bytes that came back for request `i`, if `stream` holds what came back
/// for all requests laid end to end.
pub open spec fn returned_bytes(
    requests: Seq<WriteReadRequest>,
    stream: Seq<u8>,
    i: int,
) -> Seq<u8> {
    part_of(stream, returned_lengths(requests), i)
}

/// Whether `new` is `old` but for what the result buffer holds.
pub open spec fn same_but_buffer(new: WriteReadRequest, old: WriteReadRequest) -> bool {
    &&& new.req == old.req
    &&& new.res == old.res
    &&& new.wbuf == old.wbuf
}

/// What came back for a request is never further on in the stream than its
/// buffer.
proof fn returned_before_buffer(requests: Seq<WriteReadRequest>, i: int, j: int)
    requires
        0 <= i <= j <= requests.len(),
        results_fit(requests),
    ensures
        0 <= start_of(lengths(result_buffers(requests)), i) - start_of(
            returned_lengths(requests),
            i,
        ) <= start_of(lengths(result_buffers(requests)), j) - start_of(
            returned_lengths(requests),
            j,
        ),
    decreases j,
{
    if i < j {
        returned_before_buffer(requests, i, j - 1);
        assert(requests[j - 1].res.length <= requests[j - 1].buffer().len());
    } else if j > 0 {
        returned_before_buffer(requests, j - 1, j - 1);
        assert(requests[j - 1].res.length <= requests[j - 1].buffer().len());
    }
}

/// Copies `n` bytes of the result buffer of request `j`, from position `from`
/// on, to position `to` of the result buffer of request `i`.
fn copy_between(
    requests: &mut [WriteReadRequest],
    i: usize,
    j: usize,
    from: usize,
    to: usize,
    n: usize,
)
    requires
        i < old(requests)@.len(),
        j <= i,
        from + n <= old(requests)@[j as int].buffer().len(),
        to + n <= old(requests)@[i as int].buffer().len(),
        i == j ==> from <= to,
    ensures
        final(requests)@.len() == old(requests)@.len(),
        forall|k: int|
            0 <= k < old(requests)@.len() && k != i ==> final(requests)@[k] == old(requests)@[k],
        same_but_buffer(final(requests)@[i as int], old(requests)@[i as int]),
        final(requests)@[i as int].buffer() == old(requests)@[i as int].buffer().take(to as int)
            + old(requests)@[j as int].buffer().subrange(from as int, from + n) + old(
            requests,
        )@[i as int].buffer().skip(to + n),
        final(final(requests)@[i as int].rbuf)@ == final(old(requests)@[i as int].rbuf)@,
{
    let ghost orig = requests@;
    let source_len: usize = requests[j].rbuf.len();
    let target_len: usize = requests[i].rbuf.len();
    let mut left: usize = n;
    while left > 0
        invariant
            left <= n,
            i < orig.len(),
            j <= i,
            from + n <= source_len == orig[j as int].buffer().len(),
            to + n <= target_len == orig[i as int].buffer().len(),
            i == j ==> from <= to,
            requests@.len() == orig.len(),
            forall|k: int| 0 <= k < orig.len() && k != i ==> requests@[k] == orig[k],
            same_but_buffer(requests@[i as int], orig[i as int]),
            final(requests@[i as int].rbuf)@ == final(orig[i as int].rbuf)@,
            requests@[i as int].buffer().len() == orig[i as int].buffer().len(),
            forall|p: int|
                0 <= p < orig[i as int].buffer().len() ==> requests@[i as int].buffer()[p] == (
                if to + left <= p < to + n {
                    orig[j as int].buffer()[from + (p - to)]
                } else {
                    orig[i as int].buffer()[p]
                }),
        decreases left,
    {
        left -= 1;
        let byte: u8 = requests[j].rbuf[from + left];
        assert(byte == orig[j as int].buffer()[from + left]);
        requests[i].rbuf[to + left] = byte;
    }
    assert(requests@[i as int].buffer() =~= orig[i as int].buffer().take(to as int)
        + orig[j as int].buffer().subrange(from as int, from + n)
        + orig[i as int].buffer().skip(to + n));
}

/// Moves the data of a sum-up reply to where it belongs.
///
/// Such a reply holds only the bytes that came back for each request, with no
/// gaps, so filling the result buffers one after the other puts the data of a
/// request too early if an earlier one came back short.  Afterwards the data
/// of each request stands at the front of its own buffer.
pub fn fixup_write_read_return_buffers(requests: &mut [WriteReadRequest])
    requires
        results_fit(old(requests)@),
        concat(result_buffers(old(requests)@)).len() <= usize::MAX,
    ensures
        final(requests)@.len() == old(requests)@.len(),
        forall|i: int|
            0 <= i < old(requests)@.len() ==> {
                &&& same_but_buffer(#[trigger] final(requests)@[i], old(requests)@[i])
                &&& final(requests)@[i].buffer() == returned_bytes(
                    old(requests)@,
                    concat(result_buffers(old(requests)@)),
                    i,
                ) + old(requests)@[i].buffer().skip(old(requests)@[i].res.length as int)
                &&& final(final(requests)@[i].rbuf)@ == final(old(requests)@[i].rbuf)@
            },
{
    let ghost orig = requests@;
    let ghost bufs = result_buffers(orig);
    let ghost stream = concat(bufs);
    let ghost inits = lengths(bufs);
    let ghost acts = returned_lengths(orig);
    proof {
        concat_length(bufs);
    }

    // Calculate the initial (using buffer sizes) and actual (using result
    // sizes) offsets of each request.
    let count: usize = requests.len();
    let mut offsets: Vec<(usize, usize, usize, usize)> = Vec::new();
    let mut init_cum: usize = 0;
    let mut act_cum: usize = 0;
    let mut k: usize = 0;
    while k < count
        invariant
            requests@ == orig,
            count == orig.len(),
            k <= count,
            bufs == result_buffers(orig),
            inits == lengths(bufs),
            acts == returned_lengths(orig),
            results_fit(orig),
            start_of(inits, count as int) <= usize::MAX,
            offsets@.len() == k,
            init_cum == start_of(inits, k as int),
            act_cum == start_of(acts, k as int),
            forall|m: int|
                0 <= m < k ==> {
                    &&& (#[trigger] offsets@[m]).0 == start_of(inits, m)
                    &&& offsets@[m].1 == start_of(acts, m)
                    &&& offsets@[m].2 == inits[m]
                    &&& offsets@[m].3 == acts[m]
                },
        decreases count - k,
    {
        let init: usize = requests[k].rbuf.len();
        let act: usize = requests[k].res.length as usize;
        proof {
            assert(orig[k as int].buffer().len() == init);
            assert(orig[k as int].res.length <= orig[k as int].buffer().len());
            start_of_monotonic(inits, k + 1, count as int);
            returned_before_buffer(orig, k + 1, k + 1);
        }
        offsets.push((init_cum, act_cum, init, act));
        init_cum += init;
        act_cum += act;
        k += 1;
    }

    // Go through the buffers in reverse order.
    let mut i: usize = count;
    while i > 0
        invariant_except_break
            forall|m: int|
                i <= m < count ==> #[trigger] requests@[m].buffer() == returned_bytes(orig, stream, m)
                    + orig[m].buffer().skip(orig[m].res.length as int),
        invariant
            i <= count,
            count == orig.len(),
            requests@.len() == orig.len(),
            bufs == result_buffers(orig),
            stream == concat(bufs),
            stream.len() == start_of(inits, count as int),
            inits == lengths(bufs),
            acts == returned_lengths(orig),
            results_fit(orig),
            stream.len() <= usize::MAX,
            offsets@.len() == count,
            forall|m: int|
                0 <= m < count ==> {
                    &&& (#[trigger] offsets@[m]).0 == start_of(inits, m)
                    &&& offsets@[m].1 == start_of(acts, m)
                    &&& offsets@[m].2 == inits[m]
                    &&& offsets@[m].3 == acts[m]
                },
            forall|m: int| 0 <= m < i ==> requests@[m] == orig[m],
            forall|m: int|
                0 <= m < count ==> {
                    &&& same_but_buffer(#[trigger] requests@[m], orig[m])
                    &&& final(requests@[m].rbuf)@ == final(orig[m].rbuf)@
                },
        ensures
            forall|m: int|
                0 <= m < count ==> #[trigger] requests@[m].buffer() == returned_bytes(orig, stream, m)
                    + orig[m].buffer().skip(orig[m].res.length as int),
        decreases i,
    {
        i -= 1;
        let my_initial: usize = offsets[i].0;
        let my_actual: usize = offsets[i].1;
        let mut size: usize = offsets[i].3;
        let ghost full = size;
        proof {
            assert(orig[i as int].res.length <= orig[i as int].buffer().len());
            returned_before_buffer(orig, i as int, i as int);
            returned_before_buffer(orig, i + 1, i + 1);
            start_of_monotonic(inits, i + 1, count as int);
            start_of_monotonic(acts, i as int, i as int);
        }
        if size == 0 {
            assert(requests@[i as int].buffer() =~= returned_bytes(orig, stream, i as int)
                + orig[i as int].buffer().skip(orig[i as int].res.length as int));
            continue ;
        }
        if my_initial == my_actual {
            // Offsets match, no further action required since all previous
            // buffers must be of full length too.
            assert forall|m: int| 0 <= m <= i implies #[trigger] requests@[m].buffer()
                == returned_bytes(orig, stream, m) + orig[m].buffer().skip(
                orig[m].res.length as int,
            ) by {
                returned_before_buffer(orig, m, i as int);
                in_place(orig, m);
            }
            break ;
        }

        // Check in which buffer our last byte is.
        let mut j: usize = i;
        while offsets[j].0 >= my_actual + size
            invariant
                j <= i < count == offsets@.len(),
                my_actual + size <= usize::MAX,
                size > 0,
                forall|m: int| 0 <= m < count ==> (#[trigger] offsets@[m]).0 == start_of(inits, m),
                j == i || start_of(inits, j + 1) >= my_actual + size,
            decreases j,
        {
            j -= 1;
        }
        let mut j_end: usize = my_actual + size - offsets[j].0;
        proof {
            assert(offsets@[j as int].2 == inits[j as int]);
            assert(start_of(inits, j + 1) == start_of(inits, j as int) + inits[j as int]);
        }

        // Copy the required number of bytes from every buffer from j up to i.
        let ghost at_loop = requests@;
        assert(requests@[i as int].buffer() =~= orig[i as int].buffer().take(size as int)
            + stream.subrange(my_actual + size, my_actual + full)
            + orig[i as int].buffer().skip(full as int));
        loop
            invariant_except_break
                0 < size <= full,
                j_end <= inits[j as int],
                start_of(inits, j as int) + j_end == my_actual + size,
                j == i ==> size == full,
            invariant
                j <= i < count,
                count == orig.len(),
                requests@.len() == orig.len(),
                bufs == result_buffers(orig),
                stream == concat(bufs),
                inits == lengths(bufs),
                acts == returned_lengths(orig),
                offsets@.len() == count,
                forall|m: int|
                    0 <= m < count ==> {
                        &&& (#[trigger] offsets@[m]).0 == start_of(inits, m)
                        &&& offsets@[m].2 == inits[m]
                    },
                my_initial == start_of(inits, i as int),
                my_actual == start_of(acts, i as int),
                my_actual <= my_initial,
                full == acts[i as int] <= inits[i as int],
                my_actual + full <= stream.len(),
                size <= full,
                at_loop.len() == orig.len(),
                forall|m: int|
                    0 <= m < count && m != i ==> #[trigger] requests@[m] == at_loop[m],
                forall|m: int| 0 <= m < i ==> requests@[m] == orig[m],
                same_but_buffer(requests@[i as int], orig[i as int]),
                final(requests@[i as int].rbuf)@ == final(orig[i as int].rbuf)@,
                requests@[i as int].buffer() == orig[i as int].buffer().take(size as int)
                    + stream.subrange(my_actual + size, my_actual + full)
                    + orig[i as int].buffer().skip(full as int),
            ensures
                size == 0,
            decreases size, j,
        {
            let n: usize = if j_end < size {
                j_end
            } else {
                size
            };
            let ghost before = requests@[i as int].buffer();
            let ghost source = requests@[j as int].buffer();
            let ghost end = size;
            proof {
                assert(bufs[i as int] == orig[i as int].buffer());
                assert(bufs[j as int] == orig[j as int].buffer());
                if j == i {
                    assert(before =~= orig[i as int].buffer());
                }
                let piece = source.subrange(j_end - n, j_end as int);
                let wanted = stream.subrange(my_actual + end - n, my_actual + end);
                assert forall|p: int| 0 <= p < n implies #[trigger] piece[p] == wanted[p] by {
                    concat_byte(bufs, j as int, j_end - n + p);
                }
                assert(piece =~= wanted);
            }
            size -= n;
            copy_between(requests, i, j, j_end - n, size, n);
            assert(requests@[i as int].buffer() =~= orig[i as int].buffer().take(size as int)
                + stream.subrange(my_actual + size, my_actual + full)
                + orig[i as int].buffer().skip(full as int));
            if size == 0 {
                break ;
            }
            proof {
                start_of_monotonic(inits, 0, j as int);
            }
            j -= 1;
            j_end = offsets[j].2;
        }
        assert(requests@[i as int].buffer() =~= returned_bytes(orig, stream, i as int)
            + orig[i as int].buffer().skip(orig[i as int].res.length as int));
        assert forall|m: int| 0 <= m < count && m != i implies #[trigger] requests@[m]
            == at_loop[m] by {}
    }
}

/// If nothing before request `m` came back short, its data is in place.
proof fn in_place(requests: Seq<WriteReadRequest>, m: int)
    requires
        0 <= m < requests.len(),
        results_fit(requests),
        start_of(lengths(result_buffers(requests)), m) == start_of(returned_lengths(requests), m),
    ensures
        requests[m].buffer() == returned_bytes(requests, concat(result_buffers(requests)), m)
            + requests[m].buffer().skip(requests[m].res.length as int),
{
    let bufs = result_buffers(requests);
    let stream = concat(bufs);
    let len = requests[m].res.length as int;
    assert(len <= requests[m].buffer().len());
    let data = returned_bytes(requests, stream, m);
    assert(bufs[m] == requests[m].buffer());
    start_of_monotonic(lengths(bufs), m, m);
    start_of_monotonic(lengths(bufs), m + 1, bufs.len() as int);
    concat_length(bufs);
    assert forall|p: int| 0 <= p < len implies data[p] == requests[m].buffer()[p] by {
        concat_byte(bufs, m, p);
    }
    assert(requests[m].buffer() =~= data + requests[m].buffer().skip(len));
}

/// What came back for the first `n` requests, laid end to end, is the start of
/// the stream: nothing is lost, repeated or out of order.
pub proof fn returned_bytes_make_the_stream(
    requests: Seq<WriteReadRequest>,
    stream: Seq<u8>,
    n: int,
)
    requires
        0 <= n <= requests.len(),
        start_of(returned_lengths(requests), requests.len() as int) <= stream.len(),
    ensures
        concat(Seq::new(n as nat, |i: int| returned_bytes(requests, stream, i))) == stream.take(
            start_of(returned_lengths(requests), n),
        ),
{
    parts_make_the_stream(stream, returned_lengths(requests), n);
    assert(Seq::new(n as nat, |i: int| returned_bytes(requests, stream, i)) =~= Seq::new(
        n as nat,
        |i: int| part_of(stream, returned_lengths(requests), i),
    ));
}

/// After [`fixup_write_read_return_buffers`] the valid front of each buffer,
/// which is what [`WriteReadRequest::data`] gives out, is what came back for
/// that request.
pub proof fn fixed_up_data(requests: Seq<WriteReadRequest>, stream: Seq<u8>, i: int)
    requires
        0 <= i < requests.len(),
        results_fit(requests),
        start_of(returned_lengths(requests), requests.len() as int) <= stream.len(),
    ensures
        ({
            let len = requests[i].res.length as int;
            let data = returned_bytes(requests, stream, i);
            (data + requests[i].buffer().skip(len)).take(len) == data
        }),
{
    let lens = returned_lengths(requests);
    start_of_monotonic(lens, i, i + 1);
    start_of_monotonic(lens, i + 1, requests.len() as int);
    let len = requests[i].res.length as int;
    let data = returned_bytes(requests, stream, i);
    assert(requests[i].res.length <= requests[i].buffer().len());
    assert((data + requests[i].buffer().skip(len)).take(len) =~= data);
}

/// The concatenation of no buffers is empty, and one more buffer goes to the
/// end.
pub proof fn concat_steps(bufs: Seq<Seq<u8>>, buf: Seq<u8>)
    ensures
        concat(Seq::empty()) == Seq::<u8>::empty(),
        concat(bufs.push(buf)) == concat(bufs) + buf,
{
    assert(bufs.push(buf).drop_last() =~= bufs);
}

/// The first item starts at 0, and each other one where the item in front of it
/// ends.
pub proof fn start_of_steps(lens: Seq<int>, n: int)
    requires
        0 <= n,
    ensures
        start_of(lens, 0) == 0,
        start_of(lens, n + 1) == start_of(lens, n) + lens[n],
{
}

/// What came back for a request has the length that its outcome says, and stands
/// in the stream behind what came back for the requests in front of it.
pub proof fn returned_bytes_stand_in_order(
    requests: Seq<WriteReadRequest>,
    stream: Seq<u8>,
    i: int,
    k: int,
)
    requires
        0 <= i < requests.len(),
        start_of(returned_lengths(requests), requests.len() as int) <= stream.len(),
        0 <= k < requests[i].res.length,
    ensures
        returned_lengths(requests)[i] == requests[i].res.length,
        returned_bytes(requests, stream, i).len() == requests[i].res.length,
        returned_bytes(requests, stream, i)[k] == stream[start_of(returned_lengths(requests), i)
            + k],
{
    let lens = returned_lengths(requests);
    start_of_monotonic(lens, i, i + 1);
    start_of_monotonic(lens, i + 1, requests.len() as int);
}

/// Filling a buffer changes nothing else of a request.
pub proof fn buffer_alone_changes(new: WriteReadRequest, old: WriteReadRequest)
    requires
        same_but_buffer(new, old),
    ensures
        new.req == old.req,
        new.res == old.res,
        new.wbuf == old.wbuf,
{
}

/// Nothing is longer than its buffer, and the result buffers are those of the
/// requests in turn.
pub proof fn results_fit_their_buffers(requests: Seq<WriteReadRequest>, i: int)
    requires
        results_fit(requests),
        0 <= i < requests.len(),
    ensures
        requests[i].res.length <= requests[i].buffer().len(),
        result_buffers(requests).len() == requests.len(),
        result_buffers(requests)[i] == requests[i].buffer(),
{
}

} // verus!
