//! The notification handles that a connection has open.
use crate::netid::AmsAddr;
use crate::notif::Handle;
use vstd::prelude::*;

verus! {

/// A set of notification handles, each with the address of its device.
#[derive(Debug)]
pub struct HandleSet {
    items: Vec<(AmsAddr, Handle)>,
}

impl View for HandleSet {
    type V = Set<(AmsAddr, Handle)>;

    closed spec fn view(&self) -> Set<(AmsAddr, Handle)> {
        self.items@.to_set()
    }
}

impl HandleSet {
    /// Nothing occurs twice.
    #[verifier::type_invariant]
    spec fn inv(self) -> bool {
        self.items@.no_duplicates()
    }

    /// The set without any handle.
    pub fn new() -> (r: Self)
        ensures
            r@ == Set::<(AmsAddr, Handle)>::empty(),
    {
        let r = HandleSet { items: Vec::new() };
        assert(r@ =~= Set::<(AmsAddr, Handle)>::empty());
        r
    }

    /// Where the given handle is kept.
    fn position(&self, addr: AmsAddr, handle: Handle) -> (r: Option<usize>)
        ensures
            match r {
                Some(i) => i < self.items@.len() && self.items@[i as int] == (addr, handle),
                None => !self.items@.contains((addr, handle)),
            },
    {
        let mut i: usize = 0;
        while i < self.items.len()
            invariant
                i <= self.items@.len(),
                forall|k: int| 0 <= k < i ==> self.items@[k] != (addr, handle),
            decreases self.items@.len() - i,
        {
            if self.items[i].0 == addr && self.items[i].1 == handle {
                return Some(i);
            }
            i += 1;
        }
        None
    }

    /// Whether the given handle is in the set.
    pub fn contains(&self, addr: AmsAddr, handle: Handle) -> (r: bool)
        ensures
            r == self@.contains((addr, handle)),
    {
        match self.position(addr, handle) {
            Some(i) => {
                assert(self.items@.contains(self.items@[i as int]));
                true
            },
            None => false,
        }
    }

    /// Puts a handle into the set.
    pub fn insert(&mut self, addr: AmsAddr, handle: Handle)
        ensures
            final(self)@ == old(self)@.insert((addr, handle)),
    {
        proof {
            use_type_invariant(&*self);
        }
        if self.contains(addr, handle) {
            assert(self@ =~= old(self)@.insert((addr, handle)));
            return ;
        }
        let mut items: Vec<(AmsAddr, Handle)> = Vec::new();
        std::mem::swap(&mut items, &mut self.items);
        let ghost before = items@;
        items.push((addr, handle));
        proof {
            assert forall|x: (AmsAddr, Handle)| #[trigger]
                items@.contains(x) <==> before.contains(x) || x == (addr, handle) by {
                if before.contains(x) {
                    let k = choose|k: int| 0 <= k < before.len() && before[k] == x;
                    assert(items@[k] == x);
                }
                assert(items@[before.len() as int] == (addr, handle));
            }
            assert(items@.no_duplicates());
        }
        self.items = items;
        assert(self@ =~= old(self)@.insert((addr, handle)));
    }

    /// Takes a handle out of the set.
    pub fn remove(&mut self, addr: AmsAddr, handle: Handle)
        ensures
            final(self)@ == old(self)@.remove((addr, handle)),
    {
        proof {
            use_type_invariant(&*self);
        }
        match self.position(addr, handle) {
            Some(i) => {
                let mut items: Vec<(AmsAddr, Handle)> = Vec::new();
                std::mem::swap(&mut items, &mut self.items);
                let ghost before = items@;
                items.remove(i);
                proof {
                    assert forall|x: (AmsAddr, Handle)| #[trigger]
                        items@.contains(x) <==> before.contains(x) && x != (addr, handle) by {
                        if items@.contains(x) {
                            let k = choose|k: int| 0 <= k < items@.len() && items@[k] == x;
                            let m = if k < i {
                                k
                            } else {
                                k + 1
                            };
                            assert(before[m] == x);
                        }
                        if before.contains(x) && x != (addr, handle) {
                            let m = choose|m: int| 0 <= m < before.len() && before[m] == x;
                            let k = if m < i {
                                m
                            } else {
                                m - 1
                            };
                            assert(items@[k] == x);
                        }
                    }
                    assert(items@.no_duplicates());
                }
                self.items = items;
            },
            None => {},
        }
        assert(self@ =~= old(self)@.remove((addr, handle)));
    }

    /// Takes some handle out of the set, as long as there is one.
    pub fn pop(&mut self) -> (r: Option<(AmsAddr, Handle)>)
        ensures
            match r {
                Some(x) => old(self)@.contains(x) && final(self)@ == old(self)@.remove(x),
                None => old(self)@ == Set::<(AmsAddr, Handle)>::empty() && final(self)@ == old(
                    self,
                )@,
            },
    {
        if self.items.len() == 0 {
            assert(self@ =~= Set::<(AmsAddr, Handle)>::empty());
            return None;
        }
        let first: (AmsAddr, Handle) = self.items[0];
        assert(self.items@.contains(self.items@[0]));
        self.remove(first.0, first.1);
        Some(first)
    }
}

/// There are only ever finitely many handles.
pub proof fn handles_are_finite(handles: HandleSet)
    ensures
        handles@.finite(),
{
    vstd::seq_lib::seq_to_set_is_finite(handles.items@);
}

} // verus!
