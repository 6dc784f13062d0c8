//! A client and the devices that it talks to.
use crate::comms::Comms;
use crate::device::Device;
use crate::error::Result;
use crate::netid::{address_by_bytes, local_netid_bytes, AmsAddr, AmsNetId};
use crate::notif::Handle;
use crate::source::SourceInfo;
use crate::timeouts::Timeouts;
use vstd::prelude::*;

verus! {

/// The devices that a client talks to, each known by its address.
#[derive(Debug)]
pub struct DeviceTable {
    devices: Vec<Device>,
}

impl View for DeviceTable {
    type V = Set<AmsAddr>;

    closed spec fn view(&self) -> Set<AmsAddr> {
        Set::new(|addr: AmsAddr| exists|i: int| 0 <= i < self.devices@.len() && self.devices@[i].addr == addr)
    }
}

impl DeviceTable {
    /// No two devices have the same address.
    #[verifier::type_invariant]
    spec fn inv(self) -> bool {
        forall|i: int, j: int|
            0 <= i < j < self.devices@.len() ==> self.devices@[i].addr != self.devices@[j].addr
    }

    /// The table without any device.
    pub fn new() -> (r: Self)
        ensures
            r@ == Set::<AmsAddr>::empty(),
    {
        let r = DeviceTable { devices: Vec::new() };
        assert(r@ =~= Set::<AmsAddr>::empty());
        r
    }

    /// The device at the given address, which is put into the table if it is not
    /// there yet.
    pub fn entry(&mut self, addr: AmsAddr) -> (r: Device)
        ensures
            r.addr == addr,
            final(self)@ == old(self)@.insert(addr),
    {
        proof {
            use_type_invariant(&*self);
        }
        let mut i: usize = 0;
        while i < self.devices.len()
            invariant
                i <= self.devices@.len(),
                *self == *old(self),
                forall|k: int| 0 <= k < i ==> self.devices@[k].addr != addr,
            decreases self.devices@.len() - i,
        {
            if self.devices[i].addr == addr {
                assert(self@ =~= old(self)@.insert(addr));
                return self.devices[i];
            }
            i += 1;
        }
        let device = Device::new(addr);
        let mut devices: Vec<Device> = Vec::new();
        std::mem::swap(&mut devices, &mut self.devices);
        let ghost before = devices@;
        devices.push(device);
        self.devices = devices;
        proof {
            assert forall|a: AmsAddr| #[trigger] self@.contains(a) <==> old(self)@.contains(a) || a
                == addr by {
                if old(self)@.contains(a) {
                    let k = choose|k: int| 0 <= k < before.len() && before[k].addr == a;
                    assert(self.devices@[k].addr == a);
                }
                assert(self.devices@[before.len() as int].addr == addr);
                if self@.contains(a) {
                    let k = choose|k: int|
                        0 <= k < self.devices@.len() && self.devices@[k].addr == a;
                    if k < before.len() {
                        assert(before[k].addr == a);
                    }
                }
            }
            assert(self@ =~= old(self)@.insert(addr));
        }
        device
    }
}

/// Whether a client with the address `source` talks to `r` if it is told to talk
/// to `addr`: the local NetID stands for the NetID of the client.
pub open spec fn maps_to(source: AmsAddr, addr: AmsAddr, r: AmsAddr) -> bool {
    &&& r.spec_port() == addr.spec_port()
    &&& r.spec_netid() == if addr.spec_netid().is_local() {
        source.spec_netid()
    } else {
        addr.spec_netid()
    }
}

/// A connection to an ADS server, and the devices behind it.
#[derive(Debug)]
pub struct Client {
    /// The connection.
    pub comms: Comms,
    /// The devices that were asked for.
    pub devices: DeviceTable,
}

impl Client {
    /// The client for a fresh connection to an ADS server.
    ///
    /// If connecting to a server that has an AMS router, it needs to have a
    /// route set for the source IP and NetID, otherwise the connection will be
    /// closed immediately.  The route can be added from TwinCAT.
    ///
    /// `source` tells the AMS address to use as the source; the NetID needs to
    /// match the route entry in the server.
    ///
    /// The AMS port of `source` is not important, as long as it is not a
    /// well-known service port; an ephemeral port number > 49152 is
    /// recommended.
    ///
    /// Since all communications is supposed to be handled by an ADS router,
    /// only one TCP/ADS connection can exist between two hosts.  Non-TwinCAT
    /// clients should make sure to replicate this behavior, as opening a second
    /// connection will close the first.
    pub fn new(timeouts: Timeouts, source: SourceInfo) -> (r: Result<Self>)
        ensures
            match r {
                Ok(client) => {
                    &&& source.resolves_to(
                        Ok((client.comms.source, client.comms.source_port_opened)),
                    )
                    &&& client.comms.invoke_id == 0
                    &&& client.comms.read_timeout == timeouts.read
                    &&& client.comms.notif_handles@ == Set::<(AmsAddr, Handle)>::empty()
                    &&& client.devices@ == Set::<AmsAddr>::empty()
                },
                Err(e) => source.resolves_to(Err(e)),
            },
    {
        match Comms::new(timeouts, source) {
            Ok(comms) => Ok(Client { comms, devices: DeviceTable::new() }),
            Err(e) => Err(e),
        }
    }

    /// Return a wrapper that executes operations for a target device (known by
    /// NetID and port).
    ///
    /// The local NetID `127.0.0.1.1.1` is mapped to the client's source NetID,
    /// so that you can talk to a local PLC without knowing its NetID.
    pub fn device(&mut self, addr: AmsAddr) -> (r: Device)
        ensures
            maps_to(old(self).comms.source, addr, r.addr),
            final(self).comms == old(self).comms,
            final(self).devices@ == old(self).devices@.insert(r.addr),
    {
        let local = AmsNetId::local();
        let addr = if addr.netid() == local {
            AmsAddr::new(self.comms.source().netid(), addr.port())
        } else {
            proof {
                if addr.spec_netid().is_local() {
                    crate::netid::netid_by_bytes(addr.spec_netid(), local);
                }
            }
            addr
        };
        self.devices.entry(addr)
    }

    /// Return the source address the client is using.
    pub fn source(&self) -> (r: AmsAddr)
        ensures
            r == self.comms.source,
    {
        self.comms.source()
    }
}

/// Asking for the address of a device again leads to the same device.
pub proof fn device_address_is_settled(source: AmsAddr, addr: AmsAddr, r: AmsAddr, again: AmsAddr)
    requires
        maps_to(source, addr, r),
        maps_to(source, r, again),
    ensures
        again == r,
{
    address_by_bytes(r, again);
}

/// The same address always leads to the same device.
pub proof fn one_device_for_an_address(source: AmsAddr, addr: AmsAddr, r: AmsAddr, s: AmsAddr)
    requires
        maps_to(source, addr, r),
        maps_to(source, addr, s),
    ensures
        r == s,
{
    address_by_bytes(r, s);
}

/// Only the NetID 127.0.0.1.1.1 is mapped: with any other NetID the device has
/// exactly the address that was asked for, and with this one it has the NetID of
/// the client and the port that was asked for.
pub proof fn only_the_local_netid_is_mapped(source: AmsAddr, addr: AmsAddr, r: AmsAddr)
    requires
        maps_to(source, addr, r),
    ensures
        ({
            let id = addr.spec_netid().0@;
            let local = id[0] == 127 && id[1] == 0 && id[2] == 0 && id[3] == 1 && id[4] == 1
                && id[5] == 1;
            &&& !local ==> r == addr
            &&& local ==> r.spec_netid() == source.spec_netid() && r.spec_port() == addr.spec_port()
        }),
{
    local_netid_bytes(addr.spec_netid());
    address_by_bytes(r, addr);
}

} // verus!
