//! The targets of a NAPTR record.

use vstd::prelude::*;
use crate::records::naptr_record::{sort_entries, NaptrRecord};
use crate::records::{view_of, views};
use crate::resolvables::plan::{
    naptr_answer_plans, naptr_entry_domain, naptr_entry_plans, naptr_plans, naptr_plans_upto, Plan,
};
use crate::resolvables::resolvable_srv_record::ResolvableSrvRecord;
use crate::resolvables::resolvable_vec::ResolvableVec;
use crate::resolvables::{plans_of, Answer, Query, ResolvableExt, ResolvableState, Step};
use crate::transport::{contains_transport, Transport};

verus! {

/// Looks up a NAPTR record when it is first driven, then drains the SRV
/// names that its entries lead to, by order and preference.
#[derive(Debug, PartialEq, Eq)]
pub struct ResolvableNaptrRecord {
    domain: String,
    available_transports: Vec<Transport>,
    resolvable_srv_records: ResolvableVec<ResolvableSrvRecord>,
}

/// One resolvable for each entry of `record` that is followed: one with the
/// flag S, a service over one of `transports` and an SRV name as its
/// replacement. Where the SRV record of that name came with `record`, it
/// is taken, and no SRV lookup will be made.
pub fn srv_resolvables(record: &NaptrRecord, transports: &Vec<Transport>) -> (r: Vec<
    ResolvableSrvRecord,
>)
    ensures
        plans_of(r@) == naptr_plans(record@, transports@),
{
    let entries = sort_entries(&record.entries);
    let ghost sorted = views(entries@);
    let mut out: Vec<ResolvableSrvRecord> = Vec::new();
    let mut i: usize = 0;
    while i < entries.len()
        invariant
            i <= entries.len(),
            sorted == views(entries@),
            plans_of(out@) =~= naptr_plans_upto(record@, sorted, transports@, i as int),
        decreases entries.len() - i,
    {
        let entry = &entries[i];
        let ghost before = plans_of(out@);
        let ghost added = naptr_entry_plans(record@, entry@, transports@);
        assert(sorted[i as int] == entry@);
        let followed = match entry.services.transport() {
            Some(transport) => contains_transport(transports, transport) && entry.flags.is_s(),
            None => false,
        };
        if followed {
            match entry.srv_domain() {
                Ok(domain) => {
                    assert(naptr_entry_domain(entry@, transports@) == Some(domain@));
                    let srv = match record.get_additional_srv(&domain) {
                        Some(srv_record) => ResolvableSrvRecord::from_srv_record(
                            srv_record.clone(),
                        ),
                        None => ResolvableSrvRecord::new(domain),
                    };
                    out.push(srv);
                    assert(plans_of(out@) =~= before.push(srv.plan()));
                    assert(added =~= seq![srv.plan()]);
                },
                Err(_) => {
                    assert(naptr_entry_domain(entry@, transports@) is None);
                },
            }
        } else {
            assert(naptr_entry_domain(entry@, transports@) is None);
        }
        assert(plans_of(out@) =~= before + added);
        i += 1;
    }
    out
}

impl ResolvableNaptrRecord {
    /// The targets of the NAPTR record of `domain`, to be looked up. Only
    /// entries over one of `available_transports` will be followed.
    pub fn new(domain: String, available_transports: Vec<Transport>) -> (r: Self)
        ensures
            r.plan() == (Plan::Naptr { domain: domain@, transports: available_transports@ }),
    {
        ResolvableNaptrRecord {
            domain,
            available_transports,
            resolvable_srv_records: ResolvableVec::unset(),
        }
    }

    /// Takes the answer to the NAPTR lookup: the entries of the record that
    /// are followed are what is left to do; a failed lookup leaves nothing.
    fn resolve_domain(&mut self, answer: Option<NaptrRecord>)
        ensures
            final(self).plan() == Plan::List(
                naptr_answer_plans(view_of(answer), old(self).available_transports@),
            ),
    {
        match answer {
            Some(record) => {
                let items = srv_resolvables(&record, &self.available_transports);
                self.resolvable_srv_records = ResolvableVec::non_empty(items);
            },
            None => {
                self.resolvable_srv_records = ResolvableVec::empty();
            },
        }
    }
}

impl Clone for ResolvableNaptrRecord {
    fn clone(&self) -> (r: Self)
        ensures
            r.plan() == self.plan(),
    {
        ResolvableNaptrRecord {
            domain: self.domain.clone(),
            available_transports: self.available_transports.clone(),
            resolvable_srv_records: self.resolvable_srv_records.clone(),
        }
    }
}

impl ResolvableExt for ResolvableNaptrRecord {
    closed spec fn plan(&self) -> Plan {
        match self.resolvable_srv_records.plans() {
            Some(plans) => Plan::List(plans),
            None => Plan::Naptr {
                domain: self.domain@,
                transports: self.available_transports@,
            },
        }
    }

    fn state(&self) -> (r: ResolvableState) {
        self.resolvable_srv_records.state()
    }

    fn resolve_next(&mut self) -> (r: Step) {
        if self.resolvable_srv_records.is_unset() {
            return Step::Lookup(Query::Naptr(self.domain.clone()));
        }
        self.resolvable_srv_records.resolve_next()
    }

    fn deliver(&mut self, answer: Answer) {
        if self.resolvable_srv_records.is_unset() {
            match answer {
                Answer::Naptr(record) => self.resolve_domain(record),
                _ => {},
            }
        } else {
            self.resolvable_srv_records.deliver(answer);
        }
    }
}

} // verus!
