//! Which address a client takes as its own.
use crate::error::{Error, Result};
use crate::netid::{address_fields, AmsAddr, AmsNetId};
use crate::wire::{read_u16, same_bytes, u16_at, u16_bytes_round_trip};
use vstd::prelude::*;

verus! {

/// Specifies the source AMS address to use.
#[derive(Clone, Copy, Debug)]
pub enum Source {
    /// Auto-generate a source address from the local address and a random port.
    Auto,
    /// Use a specified source address.
    Addr(AmsAddr),
    /// Request to open a port in the connected router and get the address from
    /// it.  This is necessary when connecting to a local PLC on `127.0.0.1`.
    Request,
}

/// What the connection has to say about a [`Source`].
#[derive(Clone, Copy, Debug)]
pub enum SourceInfo {
    /// For [`Source::Auto`]: the local address, if it is an IPv4 address.
    Local(Option<[u8; 4]>),
    /// For [`Source::Addr`]: nothing but the address itself.
    Addr(AmsAddr),
    /// For [`Source::Request`]: what the router replied to
    /// [`REQUEST_PORT_MSG`].
    Reply([u8; 14]),
}

/// The message that asks a router to open a port.
pub const REQUEST_PORT_MSG: [u8; 8] = [0, 16, 2, 0, 0, 0, 0, 0];

/// The AMS port of an auto-generated source address: some ephemeral port.
pub const AUTO_PORT: u16 = 58913;

/// The bytes in front of the address in the reply of a router.
pub open spec fn port_reply_header() -> Seq<u8> {
    seq![0u8, 16, 8, 0, 0, 0]
}

impl SourceInfo {
    /// Whether `r` is the source AMS address that follows, with whether a port
    /// was opened for it.
    pub open spec fn resolves_to(self, r: Result<(AmsAddr, bool)>) -> bool {
        match self {
            SourceInfo::Addr(addr) => r == Ok::<(AmsAddr, bool), Error>((addr, false)),
            SourceInfo::Local(local) => {
                &&& r matches Ok((addr, opened))
                &&& addr.spec_port() == AUTO_PORT
                &&& addr.spec_netid().0@ == match local {
                    Some(ip) => ip@ + seq![1u8, 1],
                    None => seq![127u8, 0, 0, 1, 1, 1],
                }
                &&& !opened
            },
            SourceInfo::Reply(reply) => {
                if reply@.take(6) == port_reply_header() {
                    &&& r matches Ok((addr, opened))
                    &&& addr.bytes() == reply@.skip(6)
                    &&& opened
                } else {
                    r == Err::<(AmsAddr, bool), Error>(
                        Error::Reply("requesting port", "unexpected reply header", 0),
                    )
                }
            },
        }
    }

    /// Determine the source AMS address, and whether a port was opened for it.
    ///
    /// If the address is not specified, use the local IPv4 address with `.1.1`
    /// appended; if that is IPv6, use `127.0.0.1` as the last resort.  If a port
    /// was requested, the router says which address to use.
    pub fn resolve(self) -> (r: Result<(AmsAddr, bool)>)
        ensures
            self.resolves_to(r),
    {
        match self {
            SourceInfo::Addr(addr) => Ok((addr, false)),
            SourceInfo::Local(Some(ip)) => {
                let netid = AmsNetId::new(ip[0], ip[1], ip[2], ip[3], 1, 1);
                assert(netid.0@ =~= ip@ + seq![1u8, 1]);
                Ok((AmsAddr::new(netid, AUTO_PORT), false))
            },
            SourceInfo::Local(None) => {
                Ok((AmsAddr::new(AmsNetId::new(127, 0, 0, 1, 1, 1), AUTO_PORT), false))
            },
            SourceInfo::Reply(reply) => {
                let header: [u8; 6] = [0, 16, 8, 0, 0, 0];
                assert(header@ =~= port_reply_header());
                assert(reply@.subrange(0, 6) =~= reply@.take(6));
                if !same_bytes(vstd::slice::slice_subrange(&reply, 0, 6), &header) {
                    return Err(Error::Reply("requesting port", "unexpected reply header", 0));
                }
                let netid = AmsNetId::from_slice(
                    vstd::slice::slice_subrange(&reply, 6, 12),
                ).unwrap();
                let port: u16 = read_u16(vstd::slice::slice_subrange(&reply, 12, 14));
                let addr = AmsAddr::new(netid, port);
                proof {
                    let tail = reply@.subrange(12, 14);
                    u16_bytes_round_trip(tail);
                    assert(addr.bytes() =~= reply@.skip(6));
                }
                Ok((addr, true))
            },
        }
    }
}

/// A given address is used as it is.
pub proof fn given_source_is_used(addr: AmsAddr, r: Result<(AmsAddr, bool)>)
    requires
        SourceInfo::Addr(addr).resolves_to(r),
    ensures
        r matches Ok((source, opened)) && source == addr && !opened,
{
}

/// An auto-generated source has the four bytes of the local IPv4 address and
/// then 1.1, or 127.0.0.1.1.1 if there is none, and always the port 58913; no
/// port is opened for it.
pub proof fn local_address_is_used(local: Option<[u8; 4]>, r: Result<(AmsAddr, bool)>)
    requires
        SourceInfo::Local(local).resolves_to(r),
    ensures
        r matches Ok((source, opened)) && {
            let id = source.spec_netid().0@;
            &&& !opened
            &&& source.spec_port() == 58913
            &&& local matches Some(ip) ==> forall|k: int| 0 <= k < 4 ==> #[trigger] id[k] == ip@[k]
            &&& local is None ==> id[0] == 127 && id[1] == 0 && id[2] == 0 && id[3] == 1
            &&& id[4] == 1
            &&& id[5] == 1
        },
{
}

/// A router that opens a port says so in the first six bytes of its reply, and
/// the other eight are the address to use.  Any other reply is an error.
#[verifier::rlimit(40)]
pub proof fn router_address_is_used(reply: [u8; 14], r: Result<(AmsAddr, bool)>)
    requires
        SourceInfo::Reply(reply).resolves_to(r),
    ensures
        ({
            let granted = reply@[0] == 0 && reply@[1] == 16 && reply@[2] == 8 && reply@[3] == 0
                && reply@[4] == 0 && reply@[5] == 0;
            &&& granted ==> (r matches Ok((source, opened)) && {
                &&& opened
                &&& source.spec_netid().0@ == reply@.subrange(6, 12)
                &&& source.spec_port() == u16_at(reply@, 12)
            })
            &&& !granted ==> r == Err::<(AmsAddr, bool), Error>(
                Error::Reply("requesting port", "unexpected reply header", 0),
            )
        }),
{
    let head = reply@.take(6);
    assert(head[0] == reply@[0] && head[1] == reply@[1] && head[2] == reply@[2] && head[3]
        == reply@[3] && head[4] == reply@[4] && head[5] == reply@[5]);
    let granted = reply@[0] == 0 && reply@[1] == 16 && reply@[2] == 8 && reply@[3] == 0 && reply@[4]
        == 0 && reply@[5] == 0;
    if granted {
        assert(head =~= port_reply_header());
        let (source, opened) = r->Ok_0;
        let rest = reply@.skip(6);
        address_fields(source);
        assert(rest[6] == reply@[12] && rest[7] == reply@[13]);
        assert forall|k: int| 0 <= k < 6 implies source.spec_netid().0@[k]
            == #[trigger] reply@.subrange(6, 12)[k] by {
            assert(source.bytes()[k] == source.spec_netid().0@[k]);
            assert(rest[k] == reply@[6 + k]);
        }
        assert(source.spec_netid().0@ =~= reply@.subrange(6, 12));
    } else {
        assert(head != port_reply_header());
    }
}

} // verus!
