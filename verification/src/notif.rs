//! Notifications about changed data.
use crate::wire::{field_u32, read_u32, u32_at, u32_bytes, u32_bytes_round_trip};
use std::time::Duration;
use vstd::prelude::*;

verus! {

/// Identifies a notification on its device.
pub type Handle = u32;

/// When notifications are sent.
#[derive(Clone, Copy, Debug, PartialEq, Eq, Structural)]
pub enum TransmissionMode {
    /// Never.
    NoTrans,
    /// At each cycle of the server.
    ServerCycle,
    /// When the content has changed.
    ServerOnChange,
}

impl TransmissionMode {
    /// The number by which a request names this mode.
    pub open spec fn spec_code(self) -> u32 {
        match self {
            TransmissionMode::NoTrans => 0,
            TransmissionMode::ServerCycle => 3,
            TransmissionMode::ServerOnChange => 4,
        }
    }

    /// The number by which a request names this mode.
    #[verifier::when_used_as_spec(spec_code)]
    pub fn code(self) -> (r: u32)
        ensures
            r == self.spec_code(),
    {
        match self {
            TransmissionMode::NoTrans => 0,
            TransmissionMode::ServerCycle => 3,
            TransmissionMode::ServerOnChange => 4,
        }
    }
}

/// What to watch, and how often to report it.
#[derive(Clone, Copy, Debug)]
pub struct Attributes {
    /// Number of bytes to watch.
    pub length: usize,
    /// When notifications are sent.
    pub trans_mode: TransmissionMode,
    /// How long the server may hold a notification back.
    pub max_delay: Duration,
    /// How often the server looks at the data.
    pub cycle_time: Duration,
}

impl Attributes {
    /// The attributes with the given values.
    pub fn new(
        length: usize,
        trans_mode: TransmissionMode,
        max_delay: Duration,
        cycle_time: Duration,
    ) -> (r: Self)
        ensures
            r.length == length,
            r.trans_mode == trans_mode,
            r.max_delay == max_delay,
            r.cycle_time == cycle_time,
    {
        Attributes { length, trans_mode, max_delay, cycle_time }
    }
}

/// Where `n` samples end that start at position `at` of a message, unless the
/// message ends too early.
///
/// A sample is a handle, the length of its data, and the data.
pub open spec fn samples_end(p: Seq<u8>, at: int, n: nat) -> Option<int>
    decreases n,
{
    if n == 0 {
        Some(at)
    } else if at + 8 > p.len() || at + 8 + u32_at(p, at + 4) > p.len() {
        None
    } else {
        samples_end(p, at + 8 + u32_at(p, at + 4), (n - 1) as nat)
    }
}

/// Where `n` stamps end that start at position `at` of a message, unless the
/// message ends too early.
///
/// A stamp is a 64-bit timestamp, the number of its samples, and the samples.
pub open spec fn stamps_end(p: Seq<u8>, at: int, n: nat) -> Option<int>
    decreases n,
{
    if n == 0 {
        Some(at)
    } else if at + 12 > p.len() {
        None
    } else {
        match samples_end(p, at + 12, u32_at(p, at + 8) as nat) {
            None => None,
            Some(end) => stamps_end(p, end, (n - 1) as nat),
        }
    }
}

/// Whether a packet is a notification message: behind the headers and the
/// length stand the number of stamps and the stamps, and nothing else.
pub open spec fn is_notification(p: Seq<u8>) -> bool {
    &&& p.len() >= 46
    &&& stamps_end(p, 46, u32_at(p, 42) as nat) == Some(p.len() as int)
}

/// A notification message from the server.
#[derive(Debug)]
pub struct Notification {
    data: Vec<u8>,
}

impl View for Notification {
    type V = Seq<u8>;

    closed spec fn view(&self) -> Seq<u8> {
        self.data@
    }
}

/// Skips `n` samples from position `at` on.
fn skip_samples(data: &[u8], at: usize, n: u32) -> (r: Option<usize>)
    requires
        at <= data@.len(),
    ensures
        match r {
            Some(end) => end <= data@.len() && samples_end(data@, at as int, n as nat) == Some(
                end as int,
            ),
            None => samples_end(data@, at as int, n as nat) is None,
        },
{
    let len: usize = data.len();
    let mut pos: usize = at;
    let mut left: u32 = n;
    while left > 0
        invariant
            pos <= len == data@.len(),
            samples_end(data@, pos as int, left as nat) == samples_end(data@, at as int, n as nat),
        decreases left,
    {
        if len - pos < 8 {
            return None;
        }
        let length: u32 = read_u32(vstd::slice::slice_subrange(data, pos + 4, pos + 8));
        assert(length == u32_at(data@, pos + 4));
        if len - pos - 8 < length as usize {
            return None;
        }
        pos += 8 + length as usize;
        left -= 1;
    }
    Some(pos)
}

impl Notification {
    /// Make sure that a packet is a notification message.
    pub fn new(data: Vec<u8>) -> (r: Option<Self>)
        ensures
            r is Some <==> is_notification(data@),
            r matches Some(notif) ==> notif@ == data@,
    {
        let len: usize = data.len();
        if len < 46 {
            return None;
        }
        let nstamps: u32 = read_u32(vstd::slice::slice_subrange(&data, 42, 46));
        assert(nstamps == u32_at(data@, 42));
        let mut pos: usize = 46;
        let mut left: u32 = nstamps;
        while left > 0
            invariant
                46 <= pos <= len == data@.len(),
                nstamps == u32_at(data@, 42),
                stamps_end(data@, pos as int, left as nat) == stamps_end(
                    data@,
                    46,
                    nstamps as nat,
                ),
            decreases left,
        {
            if len - pos < 12 {
                return None;
            }
            let nsamples: u32 = read_u32(vstd::slice::slice_subrange(&data, pos + 8, pos + 12));
            assert(nsamples == u32_at(data@, pos + 8));
            match skip_samples(&data, pos + 12, nsamples) {
                None => {
                    return None;
                },
                Some(end) => {
                    proof {
                        samples_end_later(data@, pos + 12, nsamples as nat);
                    }
                    pos = end;
                },
            }
            left -= 1;
        }
        if pos == len {
            Some(Notification { data })
        } else {
            None
        }
    }

    /// The whole message, with its headers.
    pub fn data(&self) -> (r: &[u8])
        ensures
            r@ == self@,
    {
        &self.data
    }
}

/// Samples do not end before they start.
proof fn samples_end_later(p: Seq<u8>, at: int, n: nat)
    ensures
        samples_end(p, at, n) matches Some(end) ==> at <= end,
    decreases n,
{
    if n > 0 && at + 8 <= p.len() {
        samples_end_later(p, at + 8 + u32_at(p, at + 4), (n - 1) as nat);
    }
}

/// Each mode has the number that the protocol gives it.
pub proof fn modes_have_numbers()
    ensures
        TransmissionMode::NoTrans.spec_code() == 0,
        TransmissionMode::ServerCycle.spec_code() == 3,
        TransmissionMode::ServerOnChange.spec_code() == 4,
{
}

/// A sample of a notification.
pub struct SampleParts {
    /// The handle of the notification.
    pub handle: u32,
    /// The data.
    pub data: Seq<u8>,
}

/// A stamp of a notification.
pub struct StampParts {
    /// The eight bytes of the timestamp.
    pub time: Seq<u8>,
    /// The samples that were taken at that time.
    pub samples: Seq<SampleParts>,
}

/// A sample as it stands in a message.
pub open spec fn sample_bytes(sample: SampleParts) -> Seq<u8> {
    u32_bytes(sample.handle) + u32_bytes(sample.data.len() as u32) + sample.data
}

/// Samples as they stand in a message.
pub open spec fn samples_bytes(samples: Seq<SampleParts>) -> Seq<u8>
    decreases samples.len(),
{
    if samples.len() == 0 {
        Seq::empty()
    } else {
        sample_bytes(samples[0]) + samples_bytes(samples.skip(1))
    }
}

/// A stamp as it stands in a message.
pub open spec fn stamp_bytes(stamp: StampParts) -> Seq<u8> {
    stamp.time + u32_bytes(stamp.samples.len() as u32) + samples_bytes(stamp.samples)
}

/// Stamps as they stand in a message.
pub open spec fn stamps_bytes(stamps: Seq<StampParts>) -> Seq<u8>
    decreases stamps.len(),
{
    if stamps.len() == 0 {
        Seq::empty()
    } else {
        stamp_bytes(stamps[0]) + stamps_bytes(stamps.skip(1))
    }
}

/// Whether the lengths and counts in the samples and stamps fit in their fields.
pub open spec fn stamps_fit(stamps: Seq<StampParts>) -> bool {
    &&& stamps.len() <= u32::MAX
    &&& forall|i: int|
        0 <= i < stamps.len() ==> {
            &&& (#[trigger] stamps[i]).time.len() == 8
            &&& samples_fit(stamps[i].samples)
        }
}

/// Whether the lengths and the number of the samples fit in their fields.
pub open spec fn samples_fit(samples: Seq<SampleParts>) -> bool {
    &&& samples.len() <= u32::MAX
    &&& forall|i: int| 0 <= i < samples.len() ==> (#[trigger] samples[i]).data.len() <= u32::MAX
}

/// Samples that stand at position `at` end where the next bytes start.
#[verifier::rlimit(40)]
proof fn samples_end_at(p: Seq<u8>, at: int, samples: Seq<SampleParts>, rest: Seq<u8>)
    requires
        0 <= at <= p.len(),
        samples_fit(samples),
        p.skip(at) == samples_bytes(samples) + rest,
    ensures
        samples_end(p, at, samples.len()) == Some(at + samples_bytes(samples).len()),
    decreases samples.len(),
{
    assert(p.skip(at).len() == p.len() - at);
    if samples.len() > 0 {
        let first = samples[0];
        let others = samples.skip(1);
        let after = samples_bytes(others) + rest;
        assert(first.data.len() <= u32::MAX);
        assert(p.skip(at) =~= u32_bytes(first.handle) + (u32_bytes(first.data.len() as u32) + (
        first.data + after)));
        field_u32(p, at, first.handle, u32_bytes(first.data.len() as u32) + (first.data + after));
        field_u32(p, at + 4, first.data.len() as u32, first.data + after);
        let next = at + 8 + first.data.len();
        assert(p.skip(at + 8).len() == first.data.len() + after.len());
        assert(p.skip(next) =~= p.skip(at + 8).skip(first.data.len() as int));
        assert((first.data + after).skip(first.data.len() as int) =~= after);
        assert forall|i: int| 0 <= i < others.len() implies (#[trigger] others[i]).data.len()
            <= u32::MAX by {
            assert(others[i] == samples[i + 1]);
        }
        samples_end_at(p, next, others, rest);
    }
}

/// Stamps that stand at position `at` end where the next bytes start.
#[verifier::rlimit(40)]
proof fn stamps_end_at(p: Seq<u8>, at: int, stamps: Seq<StampParts>, rest: Seq<u8>)
    requires
        0 <= at <= p.len(),
        stamps_fit(stamps),
        p.skip(at) == stamps_bytes(stamps) + rest,
    ensures
        stamps_end(p, at, stamps.len()) == Some(at + stamps_bytes(stamps).len()),
    decreases stamps.len(),
{
    assert(p.skip(at).len() == p.len() - at);
    if stamps.len() > 0 {
        let first = stamps[0];
        let others = stamps.skip(1);
        let after = stamps_bytes(others) + rest;
        let n = first.samples.len() as u32;
        assert(first.time.len() == 8 && samples_fit(first.samples));
        assert(p.skip(at) =~= first.time + (u32_bytes(n) + (samples_bytes(first.samples) + after)));
        assert(p.skip(at + 8) =~= p.skip(at).skip(8));
        assert(p.skip(at).skip(8) =~= u32_bytes(n) + (samples_bytes(first.samples) + after));
        field_u32(p, at + 8, n, samples_bytes(first.samples) + after);
        samples_end_at(p, at + 12, first.samples, after);
        let next = at + 12 + samples_bytes(first.samples).len();
        assert(p.skip(at + 12).len() == samples_bytes(first.samples).len() + after.len());
        assert(p.skip(next) =~= p.skip(at + 12).skip(samples_bytes(first.samples).len() as int));
        assert((samples_bytes(first.samples) + after).skip(
            samples_bytes(first.samples).len() as int,
        ) =~= after);
        assert forall|i: int| 0 <= i < others.len() implies {
            &&& (#[trigger] others[i]).time.len() == 8
            &&& samples_fit(others[i].samples)
        } by {
            assert(others[i] == stamps[i + 1]);
        }
        stamps_end_at(p, next, others, rest);
    }
}

/// Every message that is made of any number of stamps, each with any number of
/// samples, is a notification message.
pub proof fn stamps_make_a_notification(p: Seq<u8>, stamps: Seq<StampParts>)
    requires
        p.len() >= 42,
        stamps_fit(stamps),
        p.skip(42) == u32_bytes(stamps.len() as u32) + stamps_bytes(stamps),
    ensures
        is_notification(p),
{
    field_u32(p, 42, stamps.len() as u32, stamps_bytes(stamps));
    assert(stamps_bytes(stamps) + Seq::<u8>::empty() =~= stamps_bytes(stamps));
    stamps_end_at(p, 46, stamps, Seq::empty());
    assert(p.skip(46).len() == p.len() - 46);
}

/// Where samples can be skipped, there are samples.
#[verifier::rlimit(40)]
proof fn skipped_samples(p: Seq<u8>, at: int, n: nat) -> (samples: Seq<SampleParts>)
    requires
        0 <= at <= p.len(),
        n <= u32::MAX,
        samples_end(p, at, n) is Some,
    ensures
        samples.len() == n,
        samples_fit(samples),
        at <= samples_end(p, at, n)->0 <= p.len(),
        p.subrange(at, samples_end(p, at, n)->0) == samples_bytes(samples),
    decreases n,
{
    let end = samples_end(p, at, n)->0;
    if n == 0 {
        assert(p.subrange(at, at) =~= Seq::empty());
        Seq::empty()
    } else {
        let len = u32_at(p, at + 4);
        let next = at + 8 + len;
        let others = skipped_samples(p, next, (n - 1) as nat);
        let first = SampleParts { handle: u32_at(p, at), data: p.subrange(at + 8, next) };
        let samples = seq![first] + others;
        assert(samples.skip(1) =~= others);
        u32_bytes_round_trip(p.subrange(at, at + 4));
        u32_bytes_round_trip(p.subrange(at + 4, at + 8));
        assert(u32_at(p.subrange(at, at + 4), 0) == u32_at(p, at));
        assert(u32_at(p.subrange(at + 4, at + 8), 0) == u32_at(p, at + 4));
        assert(p.subrange(at, end) =~= p.subrange(at, at + 4) + p.subrange(at + 4, at + 8)
            + p.subrange(at + 8, next) + p.subrange(next, end));
        assert(samples[0] == first);
        assert forall|i: int| 0 <= i < samples.len() implies (#[trigger] samples[i]).data.len()
            <= u32::MAX by {
            if i > 0 {
                assert(samples[i] == others[i - 1]);
            }
        }
        samples
    }
}

/// Where stamps can be skipped, there are stamps.
#[verifier::rlimit(40)]
proof fn skipped_stamps(p: Seq<u8>, at: int, n: nat) -> (stamps: Seq<StampParts>)
    requires
        0 <= at <= p.len(),
        n <= u32::MAX,
        stamps_end(p, at, n) is Some,
    ensures
        stamps.len() == n,
        stamps_fit(stamps),
        at <= stamps_end(p, at, n)->0 <= p.len(),
        p.subrange(at, stamps_end(p, at, n)->0) == stamps_bytes(stamps),
    decreases n,
{
    let end = stamps_end(p, at, n)->0;
    if n == 0 {
        assert(p.subrange(at, at) =~= Seq::empty());
        Seq::empty()
    } else {
        let count = u32_at(p, at + 8);
        let samples = skipped_samples(p, at + 12, count as nat);
        let next = samples_end(p, at + 12, count as nat)->0;
        let others = skipped_stamps(p, next, (n - 1) as nat);
        let first = StampParts { time: p.subrange(at, at + 8), samples };
        let stamps = seq![first] + others;
        assert(stamps.skip(1) =~= others);
        u32_bytes_round_trip(p.subrange(at + 8, at + 12));
        assert(u32_at(p.subrange(at + 8, at + 12), 0) == u32_at(p, at + 8));
        assert(p.subrange(at, end) =~= p.subrange(at, at + 8) + p.subrange(at + 8, at + 12)
            + p.subrange(at + 12, next) + p.subrange(next, end));
        assert(stamps[0] == first);
        assert forall|i: int| 0 <= i < stamps.len() implies {
            &&& (#[trigger] stamps[i]).time.len() == 8
            &&& samples_fit(stamps[i].samples)
        } by {
            if i > 0 {
                assert(stamps[i] == others[i - 1]);
            }
        }
        stamps
    }
}

/// Every notification message is made of stamps and samples, and of nothing
/// else.
pub proof fn a_notification_is_made_of_stamps(p: Seq<u8>)
    requires
        is_notification(p),
    ensures
        exists|stamps: Seq<StampParts>|
            #![trigger stamps_bytes(stamps)]
            stamps_fit(stamps) && stamps.len() == u32_at(p, 42) && p.skip(46) == stamps_bytes(
                stamps,
            ),
{
    let stamps = skipped_stamps(p, 46, u32_at(p, 42) as nat);
    assert(p.subrange(46, p.len() as int) =~= p.skip(46));
    assert(p.skip(46) == stamps_bytes(stamps));
}

} // verus!
