//! The targets of an SRV record.

use vstd::prelude::*;
use crate::records::srv_record::{additional_for, sort_entries, SrvRecord};
use crate::records::{view_of, views, SrvDomain};
use crate::resolvables::plan::{
    srv_answer_plans, srv_entry_plans, srv_plans, srv_plans_upto, Plan,
};
use crate::resolvables::resolvable_addr_record::ResolvableAddrRecord;
use crate::resolvables::resolvable_ip_addr::ResolvableIpAddr;
use crate::resolvables::resolvable_vec::ResolvableVec;
use crate::resolvables::{plans_of, Answer, Query, ResolvableExt, ResolvableState, Step};

verus! {

/// Looks up an SRV record when it is first driven, then drains the hosts
/// that the record names, heaviest entry first.
#[derive(Debug, PartialEq, Eq)]
pub struct ResolvableSrvRecord {
    domain: SrvDomain,
    resolvable_addr_records: ResolvableVec<ResolvableAddrRecord>,
}

/// One resolvable for each host that `record` names, in the order in which
/// they are tried. A host whose addresses came with the record gets one
/// for each address, and will not be looked up.
pub fn addr_resolvables(record: &SrvRecord) -> (r: Vec<ResolvableAddrRecord>)
    ensures
        plans_of(r@) == srv_plans(record@),
{
    let transport = record.transport();
    let entries = sort_entries(&record.entries);
    let ghost sorted = views(entries@);
    let mut out: Vec<ResolvableAddrRecord> = Vec::new();
    let mut i: usize = 0;
    while i < entries.len()
        invariant
            i <= entries.len(),
            sorted == views(entries@),
            transport == record@.transport(),
            plans_of(out@) =~= srv_plans_upto(record@, sorted, i as int),
        decreases entries.len() - i,
    {
        let entry = &entries[i];
        let ghost before = plans_of(out@);
        let ghost added = srv_entry_plans(record@, entry@);
        assert(sorted[i as int] == entry@);
        match record.get_additional_for_target(&entry.target) {
            Some(hosts) => {
                let mut j: usize = 0;
                while j < hosts.ip_addrs.len()
                    invariant
                        j <= hosts.ip_addrs.len(),
                        added == srv_entry_plans(record@, entry@),
                        added.len() == hosts.ip_addrs.len(),
                        additional_for(record@.additional_hosts, entry@.target) == Some(hosts@),
                        transport == record@.transport(),
                        plans_of(out@) =~= before + added.take(j as int),
                    decreases hosts.ip_addrs.len() - j,
                {
                    let ip = ResolvableIpAddr::new_with_ttl(
                        hosts.ip_addrs[j],
                        entry.port,
                        transport,
                        hosts.ttl,
                    );
                    let addr = ResolvableAddrRecord::from_resolvable_ip(
                        entry.target.clone(),
                        entry.port,
                        transport,
                        ip,
                    );
                    assert(addr.plan() == added[j as int]);
                    let ghost prior = plans_of(out@);
                    out.push(addr);
                    assert(plans_of(out@) =~= prior.push(addr.plan()));
                    assert(added.take(j + 1) =~= added.take(j as int).push(added[j as int]));
                    j += 1;
                }
                assert(added.take(j as int) =~= added);
            },
            None => {
                let addr = ResolvableAddrRecord::new(entry.target.clone(), entry.port, transport);
                out.push(addr);
                assert(plans_of(out@) =~= before + added);
            },
        }
        i += 1;
    }
    out
}

impl ResolvableSrvRecord {
    /// The targets of the SRV record of `domain`, to be looked up.
    pub fn new(domain: SrvDomain) -> (r: Self)
        ensures
            r.plan() == (Plan::Srv { srv_domain: domain@ }),
    {
        ResolvableSrvRecord { domain, resolvable_addr_records: ResolvableVec::unset() }
    }

    /// The targets of an SRV record that is known already, as one that came
    /// with a NAPTR response: no SRV lookup will be made.
    pub fn from_srv_record(srv_record: SrvRecord) -> (r: Self)
        ensures
            r.plan() == Plan::List(srv_plans(srv_record@)),
    {
        let items = addr_resolvables(&srv_record);
        ResolvableSrvRecord {
            domain: srv_record.domain,
            resolvable_addr_records: ResolvableVec::non_empty(items),
        }
    }

    /// Takes the answer to the SRV lookup: the hosts of the record are
    /// what is left to do; a failed lookup leaves nothing.
    fn resolve_domain(&mut self, answer: Option<SrvRecord>)
        ensures
            final(self).plan() == Plan::List(srv_answer_plans(view_of(answer))),
    {
        match answer {
            Some(record) => {
                let items = addr_resolvables(&record);
                self.resolvable_addr_records = ResolvableVec::non_empty(items);
            },
            None => {
                self.resolvable_addr_records = ResolvableVec::empty();
            },
        }
    }
}

impl Clone for ResolvableSrvRecord {
    fn clone(&self) -> (r: Self)
        ensures
            r.plan() == self.plan(),
    {
        ResolvableSrvRecord {
            domain: self.domain.clone(),
            resolvable_addr_records: self.resolvable_addr_records.clone(),
        }
    }
}

impl ResolvableExt for ResolvableSrvRecord {
    closed spec fn plan(&self) -> Plan {
        match self.resolvable_addr_records.plans() {
            Some(plans) => Plan::List(plans),
            None => Plan::Srv { srv_domain: self.domain@ },
        }
    }

    fn state(&self) -> (r: ResolvableState) {
        self.resolvable_addr_records.state()
    }

    fn resolve_next(&mut self) -> (r: Step) {
        if self.resolvable_addr_records.is_unset() {
            return Step::Lookup(Query::Srv(self.domain.clone()));
        }
        self.resolvable_addr_records.resolve_next()
    }

    fn deliver(&mut self, answer: Answer) {
        if self.resolvable_addr_records.is_unset() {
            match answer {
                Answer::Srv(record) => self.resolve_domain(record),
                _ => {},
            }
        } else {
            self.resolvable_addr_records.deliver(answer);
        }
    }
}

} // verus!
