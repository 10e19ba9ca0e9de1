//! A known address.

use vstd::prelude::*;
use crate::resolvables::plan::Plan;
use crate::resolvables::{Answer, ResolvableExt, ResolvableState, Step};
use crate::target::{IpAddr, Target, DEFAULT_TTL};
use crate::transport::Transport;

verus! {

/// Hands out one target, then nothing. It never needs a lookup.
#[derive(Debug, Clone, Copy, PartialEq, Eq)]
pub struct ResolvableIpAddr {
    target: Target,
    taken: bool,
}

impl ResolvableIpAddr {
    /// A known address with the default TTL.
    pub fn new(ip_addr: IpAddr, port: u16, transport: Transport) -> (r: Self)
        ensures
            r.plan() == (Plan::Ip {
                target: Target { ip_addr, port, transport, ttl: DEFAULT_TTL },
                taken: false,
            }),
    {
        ResolvableIpAddr { target: Target::new(ip_addr, port, transport), taken: false }
    }

    /// A known address with the TTL of the record that it came from.
    pub fn new_with_ttl(ip_addr: IpAddr, port: u16, transport: Transport, ttl: u32) -> (r: Self)
        ensures
            r.plan() == (Plan::Ip {
                target: Target { ip_addr, port, transport, ttl },
                taken: false,
            }),
    {
        ResolvableIpAddr {
            target: Target::new_with_ttl(ip_addr, port, transport, ttl),
            taken: false,
        }
    }
}

impl ResolvableExt for ResolvableIpAddr {
    closed spec fn plan(&self) -> Plan {
        Plan::Ip { target: self.target, taken: self.taken }
    }

    fn state(&self) -> (r: ResolvableState) {
        if self.taken {
            ResolvableState::Empty
        } else {
            ResolvableState::NonEmpty
        }
    }

    fn resolve_next(&mut self) -> (r: Step) {
        if self.taken {
            Step::Done
        } else {
            self.taken = true;
            Step::Target(self.target)
        }
    }

    fn deliver(&mut self, answer: Answer) {
    }
}

} // verus!
