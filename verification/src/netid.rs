//! AMS addresses.
use crate::wire::{append, u16_as_bytes, u16_at, u16_bytes};
use vstd::prelude::*;
use vstd::std_specs::cmp::PartialEqSpec;

verus! {

/// Identifies one ADS device on a network: six bytes, by convention an IPv4
/// address with `.1.1` appended.
#[derive(Clone, Copy, Debug, Eq, PartialOrd, Ord, Hash)]
pub struct AmsNetId(pub [u8; 6]);

impl PartialEq for AmsNetId {
    fn eq(&self, other: &Self) -> (r: bool) {
        let r = self.0[0] == other.0[0] && self.0[1] == other.0[1] && self.0[2] == other.0[2]
            && self.0[3] == other.0[3] && self.0[4] == other.0[4] && self.0[5] == other.0[5];
        assert(r ==> self.0 =~= other.0);
        r
    }
}

impl vstd::std_specs::cmp::PartialEqSpecImpl for AmsNetId {
    open spec fn obeys_eq_spec() -> bool {
        true
    }

    open spec fn eq_spec(&self, other: &Self) -> bool {
        *self == *other
    }
}

impl AmsNetId {
    /// The NetID with the given bytes.
    pub fn new(a: u8, b: u8, c: u8, d: u8, e: u8, f: u8) -> (r: Self)
        ensures
            r.0@ == seq![a, b, c, d, e, f],
    {
        let r = AmsNetId([a, b, c, d, e, f]);
        assert(r.0@ =~= seq![a, b, c, d, e, f]);
        r
    }

    /// Whether this is `127.0.0.1.1.1`, which stands for the local machine.
    pub open spec fn is_local(self) -> bool {
        self.0@ == seq![127u8, 0, 0, 1, 1, 1]
    }

    /// `127.0.0.1.1.1`, which stands for the local machine.
    pub fn local() -> (r: Self)
        ensures
            r.is_local(),
    {
        AmsNetId::new(127, 0, 0, 1, 1, 1)
    }

    /// The NetID with the given bytes, if there are exactly six.
    pub fn from_slice(slice: &[u8]) -> (r: Option<Self>)
        ensures
            r is Some <==> slice@.len() == 6,
            r matches Some(id) ==> id.0@ == slice@,
    {
        if slice.len() != 6 {
            return None;
        }
        let id = AmsNetId([slice[0], slice[1], slice[2], slice[3], slice[4], slice[5]]);
        assert(id.0@ =~= slice@);
        Some(id)
    }
}

/// Two NetIDs with the same bytes are the same.
pub proof fn netid_by_bytes(a: AmsNetId, b: AmsNetId)
    requires
        a.0@ == b.0@,
    ensures
        a == b,
{
    assert(a.0 =~= b.0);
}

/// A NetID that stands at position `at` of `p` can be read there.
pub(crate) proof fn field_netid(p: Seq<u8>, at: int, id: AmsNetId, rest: Seq<u8>)
    requires
        0 <= at <= p.len(),
        p.skip(at) == id.0@ + rest,
    ensures
        at + 6 <= p.len(),
        p.subrange(at, at + 6) == id.0@,
        p.skip(at + 6) == rest,
{
    assert(p.skip(at).len() == 6 + rest.len());
    assert(p.subrange(at, at + 6) =~= p.skip(at).take(6));
    assert(p.skip(at).take(6) =~= id.0@);
    assert(p.skip(at + 6) =~= p.skip(at).skip(6));
    assert(p.skip(at).skip(6) =~= rest);
}

/// The address of an ADS service: a NetID and an AMS port.
#[derive(Clone, Copy, Debug, Eq, PartialOrd, Ord, Hash)]
pub struct AmsAddr {
    netid: AmsNetId,
    port: u16,
}

impl PartialEq for AmsAddr {
    fn eq(&self, other: &Self) -> (r: bool) {
        self.netid == other.netid && self.port == other.port
    }
}

impl vstd::std_specs::cmp::PartialEqSpecImpl for AmsAddr {
    open spec fn obeys_eq_spec() -> bool {
        true
    }

    open spec fn eq_spec(&self, other: &Self) -> bool {
        *self == *other
    }
}

impl Default for AmsAddr {
    fn default() -> (r: Self)
        ensures
            r.spec_netid().0@ == seq![0u8, 0, 0, 0, 0, 0],
            r.spec_port() == 0,
    {
        AmsAddr::new(AmsNetId::new(0, 0, 0, 0, 0, 0), 0)
    }
}

impl AmsAddr {
    /// The NetID of this address.
    pub closed spec fn spec_netid(self) -> AmsNetId {
        self.netid
    }

    /// The AMS port of this address.
    pub closed spec fn spec_port(self) -> u16 {
        self.port
    }

    /// The eight bytes by which a packet names this address: the NetID, then
    /// the port.
    pub open spec fn bytes(self) -> Seq<u8> {
        self.spec_netid().0@ + u16_bytes(self.spec_port())
    }

    /// The address with the given NetID and AMS port.
    pub fn new(netid: AmsNetId, port: u16) -> (r: Self)
        ensures
            r.spec_netid() == netid,
            r.spec_port() == port,
    {
        AmsAddr { netid, port }
    }

    /// The NetID of this address.
    pub fn netid(&self) -> (r: AmsNetId)
        ensures
            r == self.spec_netid(),
    {
        self.netid
    }

    /// The AMS port of this address.
    pub fn port(&self) -> (r: u16)
        ensures
            r == self.spec_port(),
    {
        self.port
    }

    /// Appends the eight bytes of this address to `out`.
    pub fn write_to(&self, out: &mut Vec<u8>)
        ensures
            final(out)@ == old(out)@ + self.bytes(),
    {
        append(out, &self.netid.0);
        let port = u16_as_bytes(self.port);
        append(out, &port);
        assert(out@ =~= old(out)@ + self.bytes());
    }
}

/// The bytes of an address name one address only.
pub proof fn address_by_bytes(a: AmsAddr, b: AmsAddr)
    ensures
        a.bytes() == b.bytes() <==> a == b,
{
    if a.bytes() == b.bytes() {
        assert(a.spec_netid().0@ =~= a.bytes().take(6));
        assert(b.spec_netid().0@ =~= b.bytes().take(6));
        netid_by_bytes(a.spec_netid(), b.spec_netid());
        assert(u16_at(a.bytes(), 6) == a.spec_port());
        assert(u16_at(b.bytes(), 6) == b.spec_port());
    }
}

/// Only `127.0.0.1.1.1` stands for the local machine.
pub proof fn local_netid_bytes(id: AmsNetId)
    ensures
        id.is_local() <==> id.0@[0] == 127 && id.0@[1] == 0 && id.0@[2] == 0 && id.0@[3] == 1
            && id.0@[4] == 1 && id.0@[5] == 1,
{
    if id.0@[0] == 127 && id.0@[1] == 0 && id.0@[2] == 0 && id.0@[3] == 1 && id.0@[4] == 1
        && id.0@[5] == 1 {
        assert(id.0@ =~= seq![127u8, 0, 0, 1, 1, 1]);
    }
}

/// The bytes of an address are those of its NetID and then those of its port.
pub proof fn address_fields(addr: AmsAddr)
    ensures
        addr.bytes().len() == 8,
        forall|k: int| 0 <= k < 6 ==> #[trigger] addr.bytes()[k] == addr.spec_netid().0@[k],
        u16_at(addr.bytes(), 6) == addr.spec_port(),
{
}

/// Two addresses are equal if all bytes of their NetIDs and their ports are.
pub proof fn equal_addresses(a: AmsAddr, b: AmsAddr)
    ensures
        a.spec_netid().eq_spec(&b.spec_netid()) <==> (forall|i: int|
            0 <= i < 6 ==> #[trigger] a.spec_netid().0@[i] == b.spec_netid().0@[i]),
        a.eq_spec(&b) <==> a.spec_netid().eq_spec(&b.spec_netid()) && a.spec_port()
            == b.spec_port(),
{
    let (s, t) = (a.spec_netid(), b.spec_netid());
    if forall|i: int| 0 <= i < 6 ==> #[trigger] s.0@[i] == t.0@[i] {
        assert(s.0 =~= t.0);
    }
}

} // verus!
