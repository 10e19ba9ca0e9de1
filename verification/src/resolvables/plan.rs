//! What a resolvable still has to do, as a value: the model that the
//! contracts of the resolvables speak of.

use vstd::prelude::*;
use crate::records::naptr_record::{
    additional_srv_for, lemma_naptr_sorted, naptr_sorted, NaptrEntryView, NaptrFlagsView,
    NaptrRecordView,
};
use crate::records::srv_record::{
    additional_for, lemma_srv_sorted, srv_sorted, SrvEntryView, SrvRecordView,
};
use crate::records::{AddrRecordView, SrvDomainView};
use crate::resolvables::{AnswerView, QueryView, ResolvableState, StepView};
use crate::search::{first_index, lemma_first_index, lemma_first_index_at};
use crate::target::Target;
use crate::transport::Transport;

verus! {

/// The work that is left to a resolvable.
pub enum Plan {
    /// A known address: one target, until it has been taken.
    Ip { target: Target, taken: bool },
    /// The addresses of `domain` have yet to be looked up; they are to be
    /// reached at `port` over `transport`.
    Addr { domain: Seq<char>, port: u16, transport: Transport },
    /// The SRV record of `srv_domain` has yet to be looked up.
    Srv { srv_domain: SrvDomainView },
    /// The NAPTR record of `domain` has yet to be looked up; of its entries,
    /// those over one of `transports` will be followed.
    Naptr { domain: Seq<char>, transports: Seq<Transport> },
    /// Resolvables that are drained one after the other.
    List(Seq<Plan>),
}

/// What tells the plans that have something left from the others.
pub open spec fn is_live() -> spec_fn(Plan) -> bool {
    |plan: Plan| !plan.exhausted()
}

/// The place in `plans` of the first one that is not exhausted, looking
/// from `from` on; the length of `plans` where all are.
pub open spec fn first_live(plans: Seq<Plan>, from: int) -> int {
    first_index(plans, is_live(), from)
}

impl Plan {
    /// Nothing is left: no target and no lookup.
    pub open spec fn exhausted(self) -> bool
        decreases self,
    {
        match self {
            Plan::Ip { taken, .. } => taken,
            Plan::Addr { .. } => false,
            Plan::Srv { .. } => false,
            Plan::Naptr { .. } => false,
            Plan::List(plans) => forall|i: int|
                0 <= i < plans.len() ==> (#[trigger] plans[i]).exhausted(),
        }
    }

    /// What a resolvable reports of itself.
    pub open spec fn state(self) -> ResolvableState {
        match self {
            Plan::Ip { .. } | Plan::List(_) => if self.exhausted() {
                ResolvableState::Empty
            } else {
                ResolvableState::NonEmpty
            },
            _ => ResolvableState::Unset,
        }
    }

    /// The next step: the lookup that has to be made first, the next target,
    /// or the end.
    pub open spec fn next(self) -> StepView
        decreases self,
    {
        match self {
            Plan::Ip { target, taken } => if taken {
                StepView::Done
            } else {
                StepView::Target(target)
            },
            Plan::Addr { domain, .. } => StepView::Lookup(QueryView::Addr(domain)),
            Plan::Srv { srv_domain } => StepView::Lookup(QueryView::Srv(srv_domain)),
            Plan::Naptr { domain, .. } => StepView::Lookup(QueryView::Naptr(domain)),
            Plan::List(plans) => {
                let k = first_live(plans, 0);
                if 0 <= k < plans.len() {
                    plans[k].next()
                } else {
                    StepView::Done
                }
            },
        }
    }

    /// What is left once the next step has been reported: a target that was
    /// handed out is gone, a lookup stays open until it is answered.
    pub open spec fn advance(self) -> Plan
        decreases self,
    {
        match self {
            Plan::Ip { target, .. } => Plan::Ip { target, taken: true },
            Plan::List(plans) => {
                let k = first_live(plans, 0);
                if 0 <= k < plans.len() {
                    Plan::List(plans.update(k, plans[k].advance()))
                } else {
                    self
                }
            },
            _ => self,
        }
    }

    /// What is left once `answer` has been handed in. It goes to the
    /// resolvable whose turn it is. Where that one waits for an answer of
    /// this kind, the answer is unfolded into what it has to do; any other
    /// answer changes nothing.
    pub open spec fn deliver(self, answer: AnswerView) -> Plan
        decreases self,
    {
        match self {
            Plan::Ip { .. } => self,
            Plan::Addr { port, transport, .. } => match answer {
                AnswerView::Addr(record) => Plan::List(addr_plans(record, port, transport)),
                _ => self,
            },
            Plan::Srv { .. } => match answer {
                AnswerView::Srv(record) => Plan::List(srv_answer_plans(record)),
                _ => self,
            },
            Plan::Naptr { transports, .. } => match answer {
                AnswerView::Naptr(record) => Plan::List(naptr_answer_plans(record, transports)),
                _ => self,
            },
            Plan::List(plans) => {
                let k = first_live(plans, 0);
                if 0 <= k < plans.len() {
                    Plan::List(plans.update(k, plans[k].deliver(answer)))
                } else {
                    self
                }
            },
        }
    }

    /// No lookup is left anywhere in the plan.
    pub open spec fn resolved(self) -> bool
        decreases self,
    {
        match self {
            Plan::Ip { .. } => true,
            Plan::List(plans) => forall|i: int|
                0 <= i < plans.len() ==> (#[trigger] plans[i]).resolved(),
            _ => false,
        }
    }

    /// The targets that the plan still holds, in the order in which they
    /// come out; what a lookup would add is not among them.
    pub open spec fn targets(self) -> Seq<Target>
        decreases self,
    {
        match self {
            Plan::Ip { target, taken } => if taken {
                Seq::empty()
            } else {
                seq![target]
            },
            Plan::List(plans) => targets_upto(plans, plans.len() as int),
            _ => Seq::empty(),
        }
    }
}

/// The targets of the first `n` of `plans`.
pub open spec fn targets_upto(plans: Seq<Plan>, n: int) -> Seq<Target>
    decreases plans, n,
{
    if n <= 0 || n > plans.len() {
        Seq::empty()
    } else {
        targets_upto(plans, n - 1) + plans[n - 1].targets()
    }
}

/// A known address that has not been handed out.
pub open spec fn ip_plan(target: Target) -> Plan {
    Plan::Ip { target, taken: false }
}

/// The addresses of a record, each as a target with the record's TTL.
pub open spec fn record_plans(record: AddrRecordView, port: u16, transport: Transport) -> Seq<
    Plan,
> {
    Seq::new(
        record.ip_addrs.len(),
        |i: int| ip_plan(Target { ip_addr: record.ip_addrs[i], port, transport, ttl: record.ttl }),
    )
}

/// What the answer to an address lookup leaves to do: the addresses in the
/// order of the record; nothing where the lookup failed.
pub open spec fn addr_plans(record: Option<AddrRecordView>, port: u16, transport: Transport) -> Seq<
    Plan,
> {
    match record {
        Some(record) => record_plans(record, port, transport),
        None => Seq::empty(),
    }
}

/// What one entry of an SRV record leaves to do. Where the addresses of
/// its target came along, they are taken, one resolvable for each, with
/// their own TTL and without a lookup; else they are looked up.
pub open spec fn srv_entry_plans(record: SrvRecordView, entry: SrvEntryView) -> Seq<Plan> {
    match additional_for(record.additional_hosts, entry.target) {
        Some(hosts) => Seq::new(
            hosts.ip_addrs.len(),
            |i: int|
                Plan::List(
                    seq![
                        ip_plan(
                            Target {
                                ip_addr: hosts.ip_addrs[i],
                                port: entry.port,
                                transport: record.transport(),
                                ttl: hosts.ttl,
                            },
                        ),
                    ],
                ),
        ),
        None => seq![
            Plan::Addr { domain: entry.target, port: entry.port, transport: record.transport() },
        ],
    }
}

/// What the first `n` of `entries` leave to do.
pub open spec fn srv_plans_upto(record: SrvRecordView, entries: Seq<SrvEntryView>, n: int) -> Seq<
    Plan,
>
    decreases n,
{
    if n <= 0 || n > entries.len() {
        Seq::empty()
    } else {
        srv_plans_upto(record, entries, n - 1) + srv_entry_plans(record, entries[n - 1])
    }
}

/// What an SRV record leaves to do: its entries, heaviest first.
pub open spec fn srv_plans(record: SrvRecordView) -> Seq<Plan> {
    let entries = srv_sorted(record.entries);
    srv_plans_upto(record, entries, entries.len() as int)
}

/// What the answer to an SRV lookup leaves to do.
pub open spec fn srv_answer_plans(record: Option<SrvRecordView>) -> Seq<Plan> {
    match record {
        Some(record) => srv_plans(record),
        None => Seq::empty(),
    }
}

/// The SRV name that a NAPTR entry leads to: for an entry with the flag S
/// whose service runs over one of `transports` and whose replacement is an
/// SRV name.
pub open spec fn naptr_entry_domain(entry: NaptrEntryView, transports: Seq<Transport>) -> Option<
    SrvDomainView,
> {
    match entry.services.transport() {
        Some(transport) => if transports.contains(transport) && entry.flags == NaptrFlagsView::S {
            entry.srv_domain()
        } else {
            None
        },
        None => None,
    }
}

/// What one entry of a NAPTR record leaves to do, if it is followed. Where
/// the SRV record of its name came along, that record is taken without a
/// lookup.
pub open spec fn naptr_entry_plans(
    record: NaptrRecordView,
    entry: NaptrEntryView,
    transports: Seq<Transport>,
) -> Seq<Plan> {
    match naptr_entry_domain(entry, transports) {
        Some(domain) => match additional_srv_for(record.additional_srvs, domain) {
            Some(srv) => seq![Plan::List(srv_plans(srv))],
            None => seq![Plan::Srv { srv_domain: domain }],
        },
        None => Seq::empty(),
    }
}

/// What the first `n` of `entries` leave to do.
pub open spec fn naptr_plans_upto(
    record: NaptrRecordView,
    entries: Seq<NaptrEntryView>,
    transports: Seq<Transport>,
    n: int,
) -> Seq<Plan>
    decreases n,
{
    if n <= 0 || n > entries.len() {
        Seq::empty()
    } else {
        naptr_plans_upto(record, entries, transports, n - 1) + naptr_entry_plans(
            record,
            entries[n - 1],
            transports,
        )
    }
}

/// What a NAPTR record leaves to do: its entries by order and preference.
pub open spec fn naptr_plans(record: NaptrRecordView, transports: Seq<Transport>) -> Seq<Plan> {
    let entries = naptr_sorted(record.entries);
    naptr_plans_upto(record, entries, transports, entries.len() as int)
}

/// What the answer to a NAPTR lookup leaves to do.
pub open spec fn naptr_answer_plans(
    record: Option<NaptrRecordView>,
    transports: Seq<Transport>,
) -> Seq<Plan> {
    match record {
        Some(record) => naptr_plans(record, transports),
        None => Seq::empty(),
    }
}

/// A row is exhausted exactly when each of its plans is: when none is
/// live.
pub proof fn lemma_list_exhausted(plans: Seq<Plan>)
    ensures
        Plan::List(plans).exhausted() <==> forall|i: int|
            0 <= i < plans.len() ==> (#[trigger] plans[i]).exhausted(),
        Plan::List(plans).exhausted() <==> first_live(plans, 0) == plans.len(),
{
    lemma_first_index(plans, is_live(), 0);
    let list = Plan::List(plans);
    match list {
        Plan::List(inner) => {
            assert(inner == plans);
            if first_live(plans, 0) == plans.len() {
                assert(forall|i: int| 0 <= i < inner.len() ==> (#[trigger] inner[i]).exhausted());
            } else {
                assert(!inner[first_live(plans, 0)].exhausted());
            }
        },
        _ => {},
    }
}

/// A plan is exhausted exactly when its next step is the end, and exactly
/// when its state is `Empty`.
pub proof fn lemma_exhausted_is_done(plan: Plan)
    ensures
        plan.exhausted() <==> plan.next() is Done,
        plan.exhausted() <==> plan.state() == ResolvableState::Empty,
    decreases plan,
{
    match plan {
        Plan::List(plans) => {
            lemma_first_index(plans, is_live(), 0);
            let k = first_live(plans, 0);
            if k < plans.len() {
                lemma_exhausted_is_done(plans[k]);
            }
        },
        _ => {},
    }
}

/// Exhaustion is terminal: a resolvable that has reported the end is left
/// unchanged by every further step and by every answer, so it reports the
/// end from then on.
pub proof fn lemma_exhaustion_is_terminal(plan: Plan)
    requires
        plan.next() is Done,
    ensures
        plan.advance() == plan,
        forall|answer: AnswerView| #[trigger] plan.deliver(answer) == plan,
        plan.advance().next() is Done,
{
    lemma_exhausted_is_done(plan);
    match plan {
        Plan::List(plans) => {
            lemma_first_index(plans, is_live(), 0);
        },
        _ => {},
    }
}

/// A step that reports a lookup leaves the plan as it is: the lookup stays
/// open until its answer comes.
pub proof fn lemma_lookup_waits(plan: Plan)
    requires
        plan.next() is Lookup,
    ensures
        plan.advance() == plan,
    decreases plan,
{
    match plan {
        Plan::List(plans) => {
            lemma_first_index(plans, is_live(), 0);
            let k = first_live(plans, 0);
            lemma_lookup_waits(plans[k]);
            assert(plans.update(k, plans[k].advance()) =~= plans);
        },
        _ => {},
    }
}

/// A plan without lookups never asks for one, and stays without.
pub proof fn lemma_resolved_asks_nothing(plan: Plan)
    requires
        plan.resolved(),
    ensures
        !(plan.next() is Lookup),
        plan.advance().resolved(),
    decreases plan,
{
    match plan {
        Plan::List(plans) => {
            lemma_first_index(plans, is_live(), 0);
            let k = first_live(plans, 0);
            if k < plans.len() {
                lemma_resolved_asks_nothing(plans[k]);
            }
        },
        _ => {},
    }
}


/// A row has no lookup left exactly when none of its plans has.
pub proof fn lemma_list_resolved(plans: Seq<Plan>)
    ensures
        Plan::List(plans).resolved() <==> forall|i: int|
            0 <= i < plans.len() ==> (#[trigger] plans[i]).resolved(),
{
    let list = Plan::List(plans);
    match list {
        Plan::List(inner) => {
            assert(inner == plans);
        },
        _ => {},
    }
}

/// The targets that a record of addresses stands for: its addresses in
/// their order, each with the given port and transport and the TTL of
/// the record.
pub open spec fn record_targets(record: AddrRecordView, port: u16, transport: Transport) -> Seq<
    Target,
> {
    Seq::new(
        record.ip_addrs.len(),
        |i: int| Target { ip_addr: record.ip_addrs[i], port, transport, ttl: record.ttl },
    )
}

proof fn lemma_record_targets_upto(
    record: AddrRecordView,
    port: u16,
    transport: Transport,
    n: int,
)
    requires
        0 <= n <= record.ip_addrs.len(),
    ensures
        targets_upto(record_plans(record, port, transport), n) =~= record_targets(
            record,
            port,
            transport,
        ).take(n),
    decreases n,
{
    if n > 0 {
        lemma_record_targets_upto(record, port, transport, n - 1);
        let plans = record_plans(record, port, transport);
        assert(plans[n - 1].targets() =~= seq![
            Target { ip_addr: record.ip_addrs[n - 1], port, transport, ttl: record.ttl },
        ]);
    }
}

/// TTL propagation, for an address lookup: the targets that its answer
/// leaves are the addresses of the record in their order, and each carries
/// the TTL of the record.
pub proof fn lemma_answer_ttl(record: AddrRecordView, port: u16, transport: Transport)
    ensures
        Plan::List(addr_plans(Some(record), port, transport)).targets() == record_targets(
            record,
            port,
            transport,
        ),
        forall|i: int|
            0 <= i < record.ip_addrs.len() ==> (#[trigger] record_targets(
                record,
                port,
                transport,
            )[i]).ttl == record.ttl,
{
    lemma_record_targets_upto(record, port, transport, record.ip_addrs.len() as int);
    assert(record_targets(record, port, transport).take(record.ip_addrs.len() as int)
        =~= record_targets(record, port, transport));
}

/// TTL propagation, for addresses that came with an SRV record: each of
/// them is a target that needs no lookup and carries the TTL under which
/// the addresses came, not that of the SRV record.
pub proof fn lemma_glue_ttl(record: SrvRecordView, entry: SrvEntryView, hosts: AddrRecordView)
    requires
        additional_for(record.additional_hosts, entry.target) == Some(hosts),
    ensures
        srv_entry_plans(record, entry).len() == hosts.ip_addrs.len(),
        forall|i: int|
            0 <= i < hosts.ip_addrs.len() ==> (#[trigger] srv_entry_plans(record, entry)[i]).targets()
                == seq![
                Target {
                    ip_addr: hosts.ip_addrs[i],
                    port: entry.port,
                    transport: record.transport(),
                    ttl: hosts.ttl,
                },
            ],
        forall|i: int|
            0 <= i < hosts.ip_addrs.len() ==> (#[trigger] srv_entry_plans(
                record,
                entry,
            )[i]).resolved(),
{
    let plans = srv_entry_plans(record, entry);
    assert forall|i: int| 0 <= i < hosts.ip_addrs.len() implies (#[trigger] plans[i]).targets()
        == seq![
        Target {
            ip_addr: hosts.ip_addrs[i],
            port: entry.port,
            transport: record.transport(),
            ttl: hosts.ttl,
        },
    ] && plans[i].resolved() by {
        let target = Target {
            ip_addr: hosts.ip_addrs[i],
            port: entry.port,
            transport: record.transport(),
            ttl: hosts.ttl,
        };
        let inner = seq![ip_plan(target)];
        assert(plans[i] == Plan::List(inner));
        lemma_list_resolved(inner);
        assert(targets_upto(inner, 0) =~= Seq::<Target>::empty());
        assert(inner[0].targets() =~= seq![target]);
        assert(targets_upto(inner, 1) =~= seq![target]);
    }
}

/// The addresses of every target of the record came with it.
pub open spec fn srv_complete(record: SrvRecordView) -> bool {
    forall|i: int|
        0 <= i < record.entries.len() ==> additional_for(
            record.additional_hosts,
            (#[trigger] record.entries[i]).target,
        ) is Some
}

/// For every entry of the record that is followed, the SRV record came
/// with it, and with that the addresses of every target.
pub open spec fn naptr_complete(record: NaptrRecordView, transports: Seq<Transport>) -> bool {
    forall|i: int|
        0 <= i < record.entries.len() ==> match naptr_entry_domain(
            #[trigger] record.entries[i],
            transports,
        ) {
            Some(domain) => match additional_srv_for(record.additional_srvs, domain) {
                Some(srv) => srv_complete(srv),
                None => false,
            },
            None => true,
        }
}

proof fn lemma_srv_plans_resolved(record: SrvRecordView, entries: Seq<SrvEntryView>, n: int)
    requires
        0 <= n <= entries.len(),
        forall|i: int|
            0 <= i < entries.len() ==> additional_for(
                record.additional_hosts,
                (#[trigger] entries[i]).target,
            ) is Some,
    ensures
        forall|i: int|
            0 <= i < srv_plans_upto(record, entries, n).len() ==> (#[trigger] srv_plans_upto(
                record,
                entries,
                n,
            )[i]).resolved(),
    decreases n,
{
    if n > 0 {
        lemma_srv_plans_resolved(record, entries, n - 1);
        let entry = entries[n - 1];
        let hosts = additional_for(record.additional_hosts, entry.target)->Some_0;
        lemma_glue_ttl(record, entry, hosts);
        let before = srv_plans_upto(record, entries, n - 1);
        let added = srv_entry_plans(record, entry);
        assert forall|i: int| 0 <= i < (before + added).len() implies (#[trigger] (before
            + added)[i]).resolved() by {
            if i >= before.len() {
                assert((before + added)[i] == added[i - before.len()]);
            }
        }
    }
}

/// An SRV record that came with the addresses of all its targets leaves no
/// lookup to make.
pub proof fn lemma_complete_srv_is_resolved(record: SrvRecordView)
    requires
        srv_complete(record),
    ensures
        Plan::List(srv_plans(record)).resolved(),
{
    let entries = srv_sorted(record.entries);
    lemma_srv_sorted(record.entries);
    assert forall|i: int| 0 <= i < entries.len() implies additional_for(
        record.additional_hosts,
        (#[trigger] entries[i]).target,
    ) is Some by {
        assert(record.entries.contains(entries[i]));
        let j = choose|j: int| 0 <= j < record.entries.len() && record.entries[j] == entries[i];
        assert(additional_for(record.additional_hosts, record.entries[j].target) is Some);
    }
    lemma_srv_plans_resolved(record, entries, entries.len() as int);
    lemma_list_resolved(srv_plans(record));
}

proof fn lemma_naptr_plans_resolved(
    record: NaptrRecordView,
    entries: Seq<NaptrEntryView>,
    transports: Seq<Transport>,
    n: int,
)
    requires
        0 <= n <= entries.len(),
        forall|i: int|
            0 <= i < entries.len() ==> match naptr_entry_domain(
                #[trigger] entries[i],
                transports,
            ) {
                Some(domain) => match additional_srv_for(record.additional_srvs, domain) {
                    Some(srv) => srv_complete(srv),
                    None => false,
                },
                None => true,
            },
    ensures
        forall|i: int|
            0 <= i < naptr_plans_upto(record, entries, transports, n).len()
                ==> (#[trigger] naptr_plans_upto(record, entries, transports, n)[i]).resolved(),
    decreases n,
{
    if n > 0 {
        lemma_naptr_plans_resolved(record, entries, transports, n - 1);
        let entry = entries[n - 1];
        let before = naptr_plans_upto(record, entries, transports, n - 1);
        let added = naptr_entry_plans(record, entry, transports);
        match naptr_entry_domain(entry, transports) {
            Some(domain) => {
                let srv = additional_srv_for(record.additional_srvs, domain)->Some_0;
                lemma_complete_srv_is_resolved(srv);
                assert(added[0] == Plan::List(srv_plans(srv)));
            },
            None => {},
        }
        assert forall|i: int| 0 <= i < (before + added).len() implies (#[trigger] (before
            + added)[i]).resolved() by {
            if i >= before.len() {
                assert((before + added)[i] == added[i - before.len()]);
            }
        }
    }
}

/// A NAPTR record that came with the SRV records of the entries that are
/// followed, and with the addresses of their targets, leaves no lookup to
/// make: its targets come out without another answer.
pub proof fn lemma_complete_naptr_is_resolved(record: NaptrRecordView, transports: Seq<Transport>)
    requires
        naptr_complete(record, transports),
    ensures
        Plan::List(naptr_plans(record, transports)).resolved(),
{
    let entries = naptr_sorted(record.entries);
    lemma_naptr_sorted(record.entries);
    assert forall|i: int| 0 <= i < entries.len() implies match naptr_entry_domain(
        #[trigger] entries[i],
        transports,
    ) {
        Some(domain) => match additional_srv_for(record.additional_srvs, domain) {
            Some(srv) => srv_complete(srv),
            None => false,
        },
        None => true,
    } by {
        assert(record.entries.contains(entries[i]));
        let j = choose|j: int| 0 <= j < record.entries.len() && record.entries[j] == entries[i];
        assert(record.entries[j] == entries[i]);
    }
    lemma_naptr_plans_resolved(record, entries, transports, entries.len() as int);
    lemma_list_resolved(naptr_plans(record, transports));
}


/// A row does what the first of its plans that has something left does:
/// that plan takes the step and the answer, the others stay as they are.
pub proof fn lemma_list_step(plans: Seq<Plan>, k: int, answer: AnswerView)
    requires
        0 <= k < plans.len(),
        forall|i: int| 0 <= i < k ==> (#[trigger] plans[i]).exhausted(),
        !plans[k].exhausted(),
    ensures
        Plan::List(plans).next() == plans[k].next(),
        Plan::List(plans).advance() == Plan::List(plans.update(k, plans[k].advance())),
        Plan::List(plans).deliver(answer) == Plan::List(plans.update(k, plans[k].deliver(answer))),
{
    lemma_first_index_at(plans, is_live(), 0, k);
}

/// A row whose plans are all exhausted is at its end.
pub proof fn lemma_list_done(plans: Seq<Plan>)
    requires
        forall|i: int| 0 <= i < plans.len() ==> (#[trigger] plans[i]).exhausted(),
    ensures
        Plan::List(plans).next() is Done,
        Plan::List(plans).exhausted(),
{
    lemma_first_index_at(plans, is_live(), 0, plans.len() as int);
    lemma_list_exhausted(plans);
}


/// The targets of a row are those of its plans, one plan after the other.
pub proof fn lemma_targets_upto_step(plans: Seq<Plan>, n: int)
    requires
        0 < n <= plans.len(),
    ensures
        targets_upto(plans, n) == targets_upto(plans, n - 1) + plans[n - 1].targets(),
{
}

/// The targets of the first plans of a row do not depend on the later ones.
proof fn lemma_targets_upto_prefix(a: Seq<Plan>, b: Seq<Plan>, n: int)
    requires
        0 <= n <= a.len(),
        n <= b.len(),
        forall|i: int| 0 <= i < n ==> a[i] == b[i],
    ensures
        targets_upto(a, n) == targets_upto(b, n),
    decreases n,
{
    if n > 0 {
        lemma_targets_upto_prefix(a, b, n - 1);
    }
}

/// Plans without targets add nothing to a row.
proof fn lemma_targets_upto_empty(plans: Seq<Plan>, n: int)
    requires
        0 <= n <= plans.len(),
        forall|i: int| 0 <= i < n ==> (#[trigger] plans[i]).targets().len() == 0,
    ensures
        targets_upto(plans, n) =~= Seq::<Target>::empty(),
    decreases n,
{
    if n > 0 {
        lemma_targets_upto_empty(plans, n - 1);
    }
}

/// Where one plan of a row is changed, the targets of the row change by
/// the targets of that plan.
proof fn lemma_targets_upto_update(plans: Seq<Plan>, k: int, plan: Plan, n: int)
    requires
        0 <= k < n <= plans.len(),
    ensures
        targets_upto(plans, n) =~= targets_upto(plans, k) + plans[k].targets() + (targets_upto(
            plans,
            n,
        ).skip(targets_upto(plans, k + 1).len() as int)),
        targets_upto(plans.update(k, plan), n) =~= targets_upto(plans, k) + plan.targets() + (
        targets_upto(plans, n).skip(targets_upto(plans, k + 1).len() as int)),
    decreases n,
{
    let changed = plans.update(k, plan);
    lemma_targets_upto_prefix(plans, changed, k);
    if n == k + 1 {
        assert(targets_upto(plans, n).skip(targets_upto(plans, n).len() as int)
            =~= Seq::<Target>::empty());
    } else {
        lemma_targets_upto_update(plans, k, plan, n - 1);
        assert(changed[n - 1] == plans[n - 1]);
        lemma_targets_upto_len(plans, k + 1, n - 1);
    }
}

/// A longer row has no fewer targets.
proof fn lemma_targets_upto_len(plans: Seq<Plan>, m: int, n: int)
    requires
        0 <= m <= n <= plans.len(),
    ensures
        targets_upto(plans, m).len() <= targets_upto(plans, n).len(),
        targets_upto(plans, n).take(targets_upto(plans, m).len() as int) =~= targets_upto(
            plans,
            m,
        ),
    decreases n - m,
{
    if m < n {
        lemma_targets_upto_len(plans, m, n - 1);
    }
}

/// A plan without lookups is exhausted exactly when it holds no target.
pub proof fn lemma_resolved_exhausted(plan: Plan)
    requires
        plan.resolved(),
    ensures
        plan.exhausted() <==> plan.targets().len() == 0,
    decreases plan,
{
    match plan {
        Plan::List(plans) => {
            lemma_first_index(plans, is_live(), 0);
            let k = first_live(plans, 0);
            assert forall|i: int| 0 <= i < plans.len() implies ((#[trigger] plans[i]).exhausted()
                <==> plans[i].targets().len() == 0) by {
                lemma_resolved_exhausted(plans[i]);
            }
            if k < plans.len() {
                lemma_targets_upto_len(plans, k + 1, plans.len() as int);
            } else {
                lemma_targets_upto_empty(plans, plans.len() as int);
            }
        },
        _ => {},
    }
}

/// A plan without lookups hands out its targets in their order: its next
/// step is its first target, and what is left are the other targets; at
/// the end it holds none.
pub proof fn lemma_resolved_hands_out_targets(plan: Plan)
    requires
        plan.resolved(),
    ensures
        plan.advance().resolved(),
        plan.targets().len() == 0 ==> plan.next() is Done,
        plan.targets().len() > 0 ==> plan.next() == StepView::Target(plan.targets()[0])
            && plan.advance().targets() == plan.targets().skip(1),
    decreases plan,
{
    lemma_resolved_exhausted(plan);
    lemma_exhausted_is_done(plan);
    lemma_resolved_asks_nothing(plan);
    match plan {
        Plan::Ip { target, taken } => {
            if !taken {
                assert(plan.targets().skip(1) =~= Seq::<Target>::empty());
            }
        },
        Plan::List(plans) => {
            lemma_first_index(plans, is_live(), 0);
            let k = first_live(plans, 0);
            if k < plans.len() {
                let n = plans.len() as int;
                lemma_resolved_hands_out_targets(plans[k]);
                lemma_resolved_exhausted(plans[k]);
                assert forall|i: int| 0 <= i < k implies (#[trigger] plans[i]).targets().len()
                    == 0 by {
                    lemma_resolved_exhausted(plans[i]);
                }
                lemma_targets_upto_empty(plans, k);
                lemma_targets_upto_update(plans, k, plans[k].advance(), n);
                let rest = targets_upto(plans, n).skip(targets_upto(plans, k + 1).len() as int);
                let head = plans[k].targets();
                assert(plan.targets() =~= head + rest);
                assert(plan.advance().targets() =~= head.skip(1) + rest);
                assert((head + rest).skip(1) =~= head.skip(1) + rest);
            }
        },
        _ => {},
    }
}

proof fn lemma_glue_targets_upto(
    record: SrvRecordView,
    entry: SrvEntryView,
    hosts: AddrRecordView,
    n: int,
)
    requires
        additional_for(record.additional_hosts, entry.target) == Some(hosts),
        0 <= n <= hosts.ip_addrs.len(),
    ensures
        targets_upto(srv_entry_plans(record, entry), n) =~= record_targets(
            hosts,
            entry.port,
            record.transport(),
        ).take(n),
    decreases n,
{
    if n > 0 {
        lemma_glue_targets_upto(record, entry, hosts, n - 1);
        lemma_glue_ttl(record, entry, hosts);
    }
}

/// Records that came along change how soon the targets come, not which:
/// the addresses that came with an SRV record give the targets that their
/// lookup would have given with the same answer, and the SRV record that
/// came with a NAPTR record leaves to do what its lookup would have left
/// with the same answer.
pub proof fn lemma_glue_is_only_faster(
    naptr: NaptrRecordView,
    domain: SrvDomainView,
    record: SrvRecordView,
    entry: SrvEntryView,
    hosts: AddrRecordView,
)
    requires
        additional_srv_for(naptr.additional_srvs, domain) == Some(record),
        additional_for(record.additional_hosts, entry.target) == Some(hosts),
    ensures
        Plan::List(srv_entry_plans(record, entry)).targets() == (Plan::Addr {
            domain: entry.target,
            port: entry.port,
            transport: record.transport(),
        }).deliver(AnswerView::Addr(Some(hosts))).targets(),
        Plan::List(srv_plans(record)) == (Plan::Srv { srv_domain: domain }).deliver(
            AnswerView::Srv(Some(record)),
        ),
{
    lemma_glue_targets_upto(record, entry, hosts, hosts.ip_addrs.len() as int);
    lemma_answer_ttl(hosts, entry.port, record.transport());
    let targets = record_targets(hosts, entry.port, record.transport());
    assert(targets.take(hosts.ip_addrs.len() as int) =~= targets);
}

} // verus!
