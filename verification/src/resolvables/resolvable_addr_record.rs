//! The addresses of a host.

use vstd::prelude::*;
use crate::records::{view_of, AddrRecord};
use crate::resolvables::plan::{addr_plans, record_plans, Plan};
use crate::resolvables::resolvable_ip_addr::ResolvableIpAddr;
use crate::resolvables::resolvable_vec::ResolvableVec;
use crate::resolvables::{plans_of, Answer, Query, ResolvableExt, ResolvableState, Step};
use crate::transport::Transport;

verus! {

/// Looks up the addresses of a host when it is first driven, then hands
/// them out in the order of the answer, each with the TTL of the answer.
#[derive(Debug, PartialEq, Eq)]
pub struct ResolvableAddrRecord {
    domain: String,
    port: u16,
    transport: Transport,
    resolvable_ip_addrs: ResolvableVec<ResolvableIpAddr>,
}

impl ResolvableAddrRecord {
    /// The addresses of `domain`, to be looked up.
    pub fn new(domain: String, port: u16, transport: Transport) -> (r: Self)
        ensures
            r.plan() == (Plan::Addr { domain: domain@, port, transport }),
    {
        ResolvableAddrRecord {
            domain,
            port,
            transport,
            resolvable_ip_addrs: ResolvableVec::unset(),
        }
    }

    /// An address of `domain` that is known already, as one that came with
    /// an SRV response: no lookup will be made.
    pub fn from_resolvable_ip(
        domain: String,
        port: u16,
        transport: Transport,
        resolvable_ip: ResolvableIpAddr,
    ) -> (r: Self)
        ensures
            r.plan() == Plan::List(seq![resolvable_ip.plan()]),
    {
        let mut items: Vec<ResolvableIpAddr> = Vec::new();
        items.push(resolvable_ip);
        assert(plans_of(items@) =~= seq![resolvable_ip.plan()]);
        ResolvableAddrRecord {
            domain,
            port,
            transport,
            resolvable_ip_addrs: ResolvableVec::non_empty(items),
        }
    }

    /// Takes the answer to the address lookup: each address of the record
    /// becomes a target with this resolvable's port and transport and the
    /// record's TTL; a failed lookup leaves nothing.
    fn resolve_domain(&mut self, answer: Option<AddrRecord>)
        ensures
            final(self).plan() == Plan::List(
                addr_plans(view_of(answer), old(self).port, old(self).transport),
            ),
    {
        match answer {
            Some(record) => {
                let ghost plans = record_plans(record@, self.port, self.transport);
                let mut items: Vec<ResolvableIpAddr> = Vec::new();
                let mut i: usize = 0;
                while i < record.ip_addrs.len()
                    invariant
                        i <= record.ip_addrs.len(),
                        plans == record_plans(record@, self.port, self.transport),
                        plans_of(items@) =~= plans.take(i as int),
                    decreases record.ip_addrs.len() - i,
                {
                    let ip = ResolvableIpAddr::new_with_ttl(
                        record.ip_addrs[i],
                        self.port,
                        self.transport,
                        record.ttl,
                    );
                    items.push(ip);
                    assert(plans_of(items@) =~= plans.take(i as int).push(plans[i as int]));
                    assert(plans.take(i + 1) =~= plans.take(i as int).push(plans[i as int]));
                    i += 1;
                }
                assert(plans.take(i as int) =~= plans);
                self.resolvable_ip_addrs = ResolvableVec::non_empty(items);
            },
            None => {
                self.resolvable_ip_addrs = ResolvableVec::empty();
            },
        }
    }
}

impl Clone for ResolvableAddrRecord {
    fn clone(&self) -> (r: Self)
        ensures
            r.plan() == self.plan(),
    {
        ResolvableAddrRecord {
            domain: self.domain.clone(),
            port: self.port,
            transport: self.transport,
            resolvable_ip_addrs: self.resolvable_ip_addrs.clone(),
        }
    }
}

impl ResolvableExt for ResolvableAddrRecord {
    closed spec fn plan(&self) -> Plan {
        match self.resolvable_ip_addrs.plans() {
            Some(plans) => Plan::List(plans),
            None => Plan::Addr { domain: self.domain@, port: self.port, transport: self.transport },
        }
    }

    fn state(&self) -> (r: ResolvableState) {
        self.resolvable_ip_addrs.state()
    }

    fn resolve_next(&mut self) -> (r: Step) {
        if self.resolvable_ip_addrs.is_unset() {
            return Step::Lookup(Query::Addr(self.domain.clone()));
        }
        self.resolvable_ip_addrs.resolve_next()
    }

    fn deliver(&mut self, answer: Answer) {
        if self.resolvable_ip_addrs.is_unset() {
            match answer {
                Answer::Addr(record) => self.resolve_domain(record),
                _ => {},
            }
        } else {
            self.resolvable_ip_addrs.deliver(answer);
        }
    }
}

} // verus!
