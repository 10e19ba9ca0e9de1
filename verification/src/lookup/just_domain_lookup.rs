//! The lookup for a bare domain: NAPTR first, SRV where NAPTR gave no
//! target, the addresses of the domain itself where SRV gave none either.
//!
//! A fallback is only entered when the method before it has ended without
//! a single target, so no lookup is made that a target has made needless.

use vstd::prelude::*;
use crate::context::{Context, ContextView, Host};
use crate::records::{SrvDomain, SrvDomainView};
use crate::resolvables::plan::{
    first_live, is_live, lemma_exhausted_is_done, lemma_list_exhausted, lemma_list_step,
    lemma_resolved_asks_nothing, Plan,
};
use crate::resolvables::resolvable_addr_record::ResolvableAddrRecord;
use crate::resolvables::resolvable_naptr_record::ResolvableNaptrRecord;
use crate::resolvables::resolvable_srv_record::ResolvableSrvRecord;
use crate::resolvables::resolvable_vec::{drive, live_index, route};
use crate::resolvables::{
    plans_of, Answer, AnswerView, ResolvableExt, ResolvableState, Step, StepView,
};
use crate::search::lemma_first_index;
use crate::transport::Transport;

verus! {

/// What the fallbacks are made from, once they are needed.
#[derive(Debug)]
struct FallbackConfig {
    domain: String,
    available_protocols: Vec<Transport>,
    secure: bool,
    default_transport: Transport,
}

/// What the fallbacks of a lookup are made from.
pub struct FallbackView {
    pub domain: Seq<char>,
    pub available_protocols: Seq<Transport>,
    pub secure: bool,
    pub default_transport: Transport,
}

impl View for FallbackConfig {
    type V = FallbackView;

    closed spec fn view(&self) -> FallbackView {
        FallbackView {
            domain: self.domain@,
            available_protocols: self.available_protocols@,
            secure: self.secure,
            default_transport: self.default_transport,
        }
    }
}

impl Clone for FallbackConfig {
    fn clone(&self) -> (r: Self)
        ensures
            r@ == self@,
    {
        FallbackConfig {
            domain: self.domain.clone(),
            available_protocols: self.available_protocols.clone(),
            secure: self.secure,
            default_transport: self.default_transport,
        }
    }
}

impl FallbackView {
    /// The SRV name of the domain under one protocol.
    pub open spec fn srv_domain(self, protocol: Transport) -> SrvDomainView {
        SrvDomainView {
            domain: self.domain,
            protocol: protocol.spec_protocol(),
            secure: self.secure,
        }
    }

    /// The SRV fallbacks: one lookup for each available protocol, in their
    /// order.
    pub open spec fn srvs(self) -> Seq<Plan> {
        Seq::new(
            self.available_protocols.len(),
            |i: int| Plan::Srv { srv_domain: self.srv_domain(self.available_protocols[i]) },
        )
    }

    /// The last fallback: the addresses of the domain itself, at the
    /// default port of the default transport.
    pub open spec fn addr(self) -> Plan {
        Plan::Addr {
            domain: self.domain,
            port: self.default_transport.spec_default_port(),
            transport: self.default_transport,
        }
    }
}

#[derive(Debug)]
enum JustDomainLookupState {
    /// The NAPTR record of the domain is being followed.
    TryingNaptr { naptr: ResolvableNaptrRecord, produced: bool, fallback_config: FallbackConfig },
    /// NAPTR gave no target: the SRV records of the domain are tried, one
    /// protocol after the other.
    TryingSrvFallbacks {
        srv_lookups: Vec<ResolvableSrvRecord>,
        any_produced_results: bool,
        addr_fallback: ResolvableAddrRecord,
    },
    /// SRV gave no target either: the addresses of the domain are tried.
    TryingAddrFallback { addr: ResolvableAddrRecord },
    /// Nothing is left to try.
    Done,
}

/// Where a lookup for a bare domain stands.
pub enum JustDomainView {
    /// NAPTR is being followed; `produced` once it has given a target.
    TryingNaptr { naptr: Plan, produced: bool, fallback: FallbackView },
    /// The SRV fallbacks are being tried; `any_produced` once one of them
    /// has given a target. `addr` is the fallback behind them.
    TryingSrvFallbacks { srvs: Seq<Plan>, any_produced: bool, addr: Plan },
    /// The address fallback is being tried.
    TryingAddrFallback { addr: Plan },
    Done,
}

/// The next step of the address fallback.
pub open spec fn addr_next(addr: Plan) -> StepView {
    addr.next()
}

/// Where the lookup stands after a step of the address fallback: at its
/// end once the fallback has none left.
pub open spec fn addr_after(addr: Plan) -> JustDomainView {
    if addr.next() is Done {
        JustDomainView::Done
    } else {
        JustDomainView::TryingAddrFallback { addr: addr.advance() }
    }
}

/// The next step while the SRV fallbacks are tried: theirs while one of
/// them has something left; after that the end where one of them has
/// given a target, and the first step of the address fallback where none
/// has.
pub open spec fn srvs_next(srvs: Seq<Plan>, any_produced: bool, addr: Plan) -> StepView {
    let step = Plan::List(srvs).next();
    if !(step is Done) {
        step
    } else if any_produced {
        StepView::Done
    } else {
        addr_next(addr)
    }
}

/// Where the lookup stands after that step.
pub open spec fn srvs_after(srvs: Seq<Plan>, any_produced: bool, addr: Plan) -> JustDomainView {
    let step = Plan::List(srvs).next();
    if !(step is Done) {
        JustDomainView::TryingSrvFallbacks {
            srvs: Plan::List(srvs).advance()->List_0,
            any_produced: any_produced || step is Target,
            addr,
        }
    } else if any_produced {
        JustDomainView::Done
    } else {
        addr_after(addr)
    }
}

/// The state while the SRV fallbacks are tried: that of the first of them
/// that has something left; after that `Empty` where one of them has given
/// a target, and the state of the address fallback where none has.
pub open spec fn srvs_state(srvs: Seq<Plan>, any_produced: bool, addr: Plan) -> ResolvableState {
    let k = first_live(srvs, 0);
    if 0 <= k < srvs.len() {
        srvs[k].state()
    } else if any_produced {
        ResolvableState::Empty
    } else {
        addr.state()
    }
}

impl JustDomainView {
    /// The lookup for a bare domain before its first step.
    pub open spec fn initial(context: ContextView) -> JustDomainView
        recommends
            context.host is Domain,
    {
        JustDomainView::TryingNaptr {
            naptr: Plan::Naptr {
                domain: context.host->Domain_0,
                transports: context.available_transports(),
            },
            produced: false,
            fallback: FallbackView {
                domain: context.host->Domain_0,
                available_protocols: context.available_protocols(),
                secure: context.secure,
                default_transport: context.default_transport(),
            },
        }
    }

    /// The next step: that of the method that is being tried while it has
    /// something left; when it has ended, the end if it has given a target,
    /// else the first step of the fallback behind it.
    pub open spec fn next(self) -> StepView {
        match self {
            JustDomainView::TryingNaptr { naptr, produced, fallback } => {
                let step = naptr.next();
                if !(step is Done) {
                    step
                } else if produced {
                    StepView::Done
                } else {
                    srvs_next(fallback.srvs(), false, fallback.addr())
                }
            },
            JustDomainView::TryingSrvFallbacks { srvs, any_produced, addr } => srvs_next(
                srvs,
                any_produced,
                addr,
            ),
            JustDomainView::TryingAddrFallback { addr } => addr_next(addr),
            JustDomainView::Done => StepView::Done,
        }
    }

    /// Where the lookup stands once the next step has been reported.
    pub open spec fn advance(self) -> JustDomainView {
        match self {
            JustDomainView::TryingNaptr { naptr, produced, fallback } => {
                let step = naptr.next();
                if !(step is Done) {
                    JustDomainView::TryingNaptr {
                        naptr: naptr.advance(),
                        produced: produced || step is Target,
                        fallback,
                    }
                } else if produced {
                    JustDomainView::Done
                } else {
                    srvs_after(fallback.srvs(), false, fallback.addr())
                }
            },
            JustDomainView::TryingSrvFallbacks { srvs, any_produced, addr } => srvs_after(
                srvs,
                any_produced,
                addr,
            ),
            JustDomainView::TryingAddrFallback { addr } => addr_after(addr),
            JustDomainView::Done => JustDomainView::Done,
        }
    }

    /// Where the lookup stands once `answer` has been handed in: it goes to
    /// the method that is being tried.
    pub open spec fn deliver(self, answer: AnswerView) -> JustDomainView {
        match self {
            JustDomainView::TryingNaptr { naptr, produced, fallback } => {
                JustDomainView::TryingNaptr { naptr: naptr.deliver(answer), produced, fallback }
            },
            JustDomainView::TryingSrvFallbacks { srvs, any_produced, addr } => {
                JustDomainView::TryingSrvFallbacks {
                    srvs: Plan::List(srvs).deliver(answer)->List_0,
                    any_produced,
                    addr,
                }
            },
            JustDomainView::TryingAddrFallback { addr } => JustDomainView::TryingAddrFallback {
                addr: addr.deliver(answer),
            },
            JustDomainView::Done => JustDomainView::Done,
        }
    }

    /// The state of the resolvable that the next step will drive; `Empty`
    /// where there is none left.
    pub open spec fn state(self) -> ResolvableState {
        match self {
            JustDomainView::TryingNaptr { naptr, produced, fallback } => {
                if !naptr.exhausted() {
                    naptr.state()
                } else if produced {
                    ResolvableState::Empty
                } else {
                    srvs_state(fallback.srvs(), false, fallback.addr())
                }
            },
            JustDomainView::TryingSrvFallbacks { srvs, any_produced, addr } => srvs_state(
                srvs,
                any_produced,
                addr,
            ),
            JustDomainView::TryingAddrFallback { addr } => addr.state(),
            JustDomainView::Done => ResolvableState::Empty,
        }
    }
}

impl View for JustDomainLookupState {
    type V = JustDomainView;

    closed spec fn view(&self) -> JustDomainView {
        match self {
            JustDomainLookupState::TryingNaptr { naptr, produced, fallback_config } => {
                JustDomainView::TryingNaptr {
                    naptr: naptr.plan(),
                    produced: *produced,
                    fallback: fallback_config@,
                }
            },
            JustDomainLookupState::TryingSrvFallbacks {
                srv_lookups,
                any_produced_results,
                addr_fallback,
            } => JustDomainView::TryingSrvFallbacks {
                srvs: plans_of(srv_lookups@),
                any_produced: *any_produced_results,
                addr: addr_fallback.plan(),
            },
            JustDomainLookupState::TryingAddrFallback { addr } => {
                JustDomainView::TryingAddrFallback { addr: addr.plan() }
            },
            JustDomainLookupState::Done => JustDomainView::Done,
        }
    }
}

impl Clone for JustDomainLookupState {
    fn clone(&self) -> (r: Self)
        ensures
            r@ == self@,
    {
        match self {
            JustDomainLookupState::TryingNaptr { naptr, produced, fallback_config } => {
                JustDomainLookupState::TryingNaptr {
                    naptr: naptr.clone(),
                    produced: *produced,
                    fallback_config: fallback_config.clone(),
                }
            },
            JustDomainLookupState::TryingSrvFallbacks {
                srv_lookups,
                any_produced_results,
                addr_fallback,
            } => {
                let copies = srv_lookups.clone();
                proof {
                    assert forall|i: int| 0 <= i < srv_lookups@.len() implies copies@[i].plan()
                        == srv_lookups@[i].plan() by {
                        assert(cloned(srv_lookups@[i], copies@[i]));
                    }
                    assert(plans_of(copies@) =~= plans_of(srv_lookups@));
                }
                JustDomainLookupState::TryingSrvFallbacks {
                    srv_lookups: copies,
                    any_produced_results: *any_produced_results,
                    addr_fallback: addr_fallback.clone(),
                }
            },
            JustDomainLookupState::TryingAddrFallback { addr } => {
                JustDomainLookupState::TryingAddrFallback { addr: addr.clone() }
            },
            JustDomainLookupState::Done => JustDomainLookupState::Done,
        }
    }
}

/// The lookup for a bare domain, with neither a transport nor a port.
#[derive(Debug)]
pub struct JustDomainLookup {
    state: JustDomainLookupState,
}

impl View for JustDomainLookup {
    type V = JustDomainView;

    closed spec fn view(&self) -> JustDomainView {
        self.state@
    }
}

impl Clone for JustDomainLookup {
    fn clone(&self) -> (r: Self)
        ensures
            r@ == self@,
    {
        JustDomainLookup { state: self.state.clone() }
    }
}

/// One step of the address fallback.
fn step_addr(addr: ResolvableAddrRecord) -> (r: (Step, JustDomainLookupState))
    ensures
        r.0@ == addr_next(addr.plan()),
        r.1@ == addr_after(addr.plan()),
{
    let mut addr = addr;
    let step = addr.resolve_next();
    match step {
        Step::Done => (Step::Done, JustDomainLookupState::Done),
        step => (step, JustDomainLookupState::TryingAddrFallback { addr }),
    }
}

/// One step while the SRV fallbacks are tried.
fn step_srvs(
    srv_lookups: Vec<ResolvableSrvRecord>,
    any_produced_results: bool,
    addr_fallback: ResolvableAddrRecord,
) -> (r: (Step, JustDomainLookupState))
    ensures
        r.0@ == srvs_next(plans_of(srv_lookups@), any_produced_results, addr_fallback.plan()),
        r.1@ == srvs_after(plans_of(srv_lookups@), any_produced_results, addr_fallback.plan()),
{
    let mut srv_lookups = srv_lookups;
    let step = drive(&mut srv_lookups);
    match step {
        Step::Done => {
            if any_produced_results {
                (Step::Done, JustDomainLookupState::Done)
            } else {
                step_addr(addr_fallback)
            }
        },
        Step::Target(target) => (
            Step::Target(target),
            JustDomainLookupState::TryingSrvFallbacks {
                srv_lookups,
                any_produced_results: true,
                addr_fallback,
            },
        ),
        Step::Lookup(query) => (
            Step::Lookup(query),
            JustDomainLookupState::TryingSrvFallbacks {
                srv_lookups,
                any_produced_results,
                addr_fallback,
            },
        ),
    }
}

impl FallbackConfig {
    /// The SRV fallbacks: one for each available protocol.
    fn srv_lookups(&self) -> (r: Vec<ResolvableSrvRecord>)
        ensures
            plans_of(r@) == self@.srvs(),
    {
        let mut out: Vec<ResolvableSrvRecord> = Vec::new();
        let mut i: usize = 0;
        while i < self.available_protocols.len()
            invariant
                i <= self.available_protocols.len(),
                plans_of(out@) =~= self@.srvs().take(i as int),
            decreases self.available_protocols.len() - i,
        {
            let srv_domain = SrvDomain {
                domain: self.domain.clone(),
                protocol: self.available_protocols[i].protocol(),
                secure: self.secure,
            };
            let srv = ResolvableSrvRecord::new(srv_domain);
            let ghost before = plans_of(out@);
            out.push(srv);
            assert(plans_of(out@) =~= before.push(srv.plan()));
            assert(self@.srvs().take(i + 1) =~= self@.srvs().take(i as int).push(
                self@.srvs()[i as int],
            ));
            i += 1;
        }
        assert(self@.srvs().take(i as int) =~= self@.srvs());
        out
    }

    /// The address fallback.
    fn addr_fallback(&self) -> (r: ResolvableAddrRecord)
        ensures
            r.plan() == self@.addr(),
    {
        ResolvableAddrRecord::new(
            self.domain.clone(),
            self.default_transport.default_port(),
            self.default_transport,
        )
    }
}

impl JustDomainLookup {
    /// The lookup for the domain of `ctx`.
    pub fn new(ctx: Context) -> (r: Self)
        requires
            ctx.host is Domain,
        ensures
            r@ == JustDomainView::initial(ctx@),
    {
        let default_transport = ctx.default_transport();
        let available_protocols = ctx.available_protocols();
        let available_transports = ctx.available_transports();
        let domain = match ctx.host {
            Host::Domain(domain) => domain,
            Host::IpAddr(_) => vstd::pervasive::unreached(),
        };
        let fallback_config = FallbackConfig {
            domain: domain.clone(),
            available_protocols,
            secure: ctx.secure,
            default_transport,
        };
        let naptr = ResolvableNaptrRecord::new(domain, available_transports);
        JustDomainLookup {
            state: JustDomainLookupState::TryingNaptr { naptr, produced: false, fallback_config },
        }
    }

    /// The state of the resolvable that the next step will drive: `Unset`
    /// before a lookup, `NonEmpty` while a target may come without one, and
    /// `Empty` when nothing is left to try.
    pub fn state(&self) -> (r: ResolvableState)
        ensures
            r == self@.state(),
            r == ResolvableState::Empty <==> self@.next() is Done,
    {
        proof {
            lemma_state_is_empty_at_the_end(self@);
        }
        match &self.state {
            JustDomainLookupState::TryingNaptr { naptr, produced, fallback_config } => {
                proof {
                    lemma_exhausted_is_done(naptr.plan());
                    lemma_fresh_fallbacks_ask(fallback_config@);
                    lemma_fresh_fallbacks_are_unset(fallback_config@);
                }
                match naptr.state() {
                    ResolvableState::Empty => if *produced {
                        ResolvableState::Empty
                    } else {
                        ResolvableState::Unset
                    },
                    state => state,
                }
            },
            JustDomainLookupState::TryingSrvFallbacks {
                srv_lookups,
                any_produced_results,
                addr_fallback,
            } => {
                match live_index(srv_lookups) {
                    Some(k) => srv_lookups[k].state(),
                    None => if *any_produced_results {
                        ResolvableState::Empty
                    } else {
                        addr_fallback.state()
                    },
                }
            },
            JustDomainLookupState::TryingAddrFallback { addr } => addr.state(),
            JustDomainLookupState::Done => ResolvableState::Empty,
        }
    }

    /// The next step.
    pub fn resolve_next(&mut self) -> (r: Step)
        ensures
            r@ == old(self)@.next(),
            final(self)@ == old(self)@.advance(),
    {
        let mut state = JustDomainLookupState::Done;
        core::mem::swap(&mut self.state, &mut state);
        let (step, state) = match state {
            JustDomainLookupState::TryingNaptr { naptr, produced, fallback_config } => {
                let mut naptr = naptr;
                let step = naptr.resolve_next();
                match step {
                    Step::Done => {
                        if produced {
                            (Step::Done, JustDomainLookupState::Done)
                        } else {
                            let srv_lookups = fallback_config.srv_lookups();
                            let addr_fallback = fallback_config.addr_fallback();
                            step_srvs(srv_lookups, false, addr_fallback)
                        }
                    },
                    Step::Target(target) => (
                        Step::Target(target),
                        JustDomainLookupState::TryingNaptr {
                            naptr,
                            produced: true,
                            fallback_config,
                        },
                    ),
                    Step::Lookup(query) => (
                        Step::Lookup(query),
                        JustDomainLookupState::TryingNaptr { naptr, produced, fallback_config },
                    ),
                }
            },
            JustDomainLookupState::TryingSrvFallbacks {
                srv_lookups,
                any_produced_results,
                addr_fallback,
            } => step_srvs(srv_lookups, any_produced_results, addr_fallback),
            JustDomainLookupState::TryingAddrFallback { addr } => step_addr(addr),
            JustDomainLookupState::Done => (Step::Done, JustDomainLookupState::Done),
        };
        self.state = state;
        step
    }

    /// Hands in the answer to the lookup that was last reported.
    pub fn deliver(&mut self, answer: Answer)
        ensures
            final(self)@ == old(self)@.deliver(answer@),
    {
        let mut state = JustDomainLookupState::Done;
        core::mem::swap(&mut self.state, &mut state);
        let state = match state {
            JustDomainLookupState::TryingNaptr { naptr, produced, fallback_config } => {
                let mut naptr = naptr;
                naptr.deliver(answer);
                JustDomainLookupState::TryingNaptr { naptr, produced, fallback_config }
            },
            JustDomainLookupState::TryingSrvFallbacks {
                srv_lookups,
                any_produced_results,
                addr_fallback,
            } => {
                let mut srv_lookups = srv_lookups;
                route(&mut srv_lookups, answer);
                JustDomainLookupState::TryingSrvFallbacks {
                    srv_lookups,
                    any_produced_results,
                    addr_fallback,
                }
            },
            JustDomainLookupState::TryingAddrFallback { addr } => {
                let mut addr = addr;
                addr.deliver(answer);
                JustDomainLookupState::TryingAddrFallback { addr }
            },
            JustDomainLookupState::Done => JustDomainLookupState::Done,
        };
        self.state = state;
    }
}


impl JustDomainView {
    /// While the SRV fallbacks are tried, the address fallback behind them
    /// has not been started.
    pub open spec fn wf(self) -> bool {
        self matches JustDomainView::TryingSrvFallbacks { addr, .. } ==> addr is Addr
    }
}

/// A lookup is well-formed from its start on.
pub proof fn lemma_wf_is_kept(context: ContextView, lookup: JustDomainView, answer: AnswerView)
    ensures
        JustDomainView::initial(context).wf(),
        lookup.wf() ==> lookup.advance().wf() && lookup.deliver(answer).wf(),
{
}

/// Exhaustion is terminal: a lookup that has reported the end is done,
/// and a lookup that is done reports the end whatever is handed in.
pub proof fn lemma_just_domain_exhaustion_is_terminal(lookup: JustDomainView)
    requires
        lookup.next() is Done,
    ensures
        lookup.advance() == JustDomainView::Done,
        JustDomainView::Done.next() is Done,
        JustDomainView::Done.advance() == JustDomainView::Done,
        forall|answer: AnswerView|
            #[trigger] JustDomainView::Done.deliver(answer) == JustDomainView::Done,
{
}

/// No fallback once NAPTR has given a target. The first target of NAPTR is
/// remembered; from then on every step is a step of NAPTR or the end, and
/// no fallback is ever entered.
pub proof fn lemma_no_fallback_after_naptr_target(lookup: JustDomainView, answer: AnswerView)
    requires
        lookup is TryingNaptr,
    ensures
        lookup.next() is Target ==> lookup.advance() is TryingNaptr
            && lookup.advance()->TryingNaptr_produced,
        lookup->TryingNaptr_produced ==> {
            &&& lookup.next() == lookup->naptr.next()
            &&& lookup.advance() is Done || (lookup.advance() is TryingNaptr
                && lookup.advance()->TryingNaptr_produced)
            &&& lookup.deliver(answer) is TryingNaptr && lookup.deliver(
                answer,
            )->TryingNaptr_produced
        },
{
    let fallback = lookup->fallback;
    lemma_fresh_fallbacks_ask(fallback);
}

/// The fallbacks, before they are entered, are unset.
pub proof fn lemma_fresh_fallbacks_are_unset(fallback: FallbackView)
    ensures
        srvs_state(fallback.srvs(), false, fallback.addr()) == ResolvableState::Unset,
{
    let srvs = fallback.srvs();
    lemma_first_index(srvs, is_live(), 0);
    let k = first_live(srvs, 0);
    if k < srvs.len() {
        assert(srvs[k] is Srv);
    }
}

/// A lookup reports `Empty` exactly when its next step is the end.
pub proof fn lemma_state_is_empty_at_the_end(lookup: JustDomainView)
    ensures
        lookup.state() == ResolvableState::Empty <==> lookup.next() is Done,
{
    match lookup {
        JustDomainView::TryingNaptr { naptr, produced, fallback } => {
            lemma_exhausted_is_done(naptr);
            lemma_first_index(fallback.srvs(), is_live(), 0);
            lemma_srvs_state(fallback.srvs(), false, fallback.addr());
        },
        JustDomainView::TryingSrvFallbacks { srvs, any_produced, addr } => {
            lemma_srvs_state(srvs, any_produced, addr);
        },
        JustDomainView::TryingAddrFallback { addr } => {
            lemma_exhausted_is_done(addr);
        },
        JustDomainView::Done => {},
    }
}

proof fn lemma_srvs_state(srvs: Seq<Plan>, any_produced: bool, addr: Plan)
    ensures
        srvs_state(srvs, any_produced, addr) == ResolvableState::Empty <==> srvs_next(
            srvs,
            any_produced,
            addr,
        ) is Done,
{
    lemma_first_index(srvs, is_live(), 0);
    lemma_exhausted_is_done(addr);
    lemma_exhausted_is_done(Plan::List(srvs));
    lemma_list_exhausted(srvs);
    let k = first_live(srvs, 0);
    if k < srvs.len() {
        lemma_exhausted_is_done(srvs[k]);
        lemma_list_step(srvs, k, AnswerView::Addr(None));
    }
}

/// The fallbacks, when they are entered, begin with a lookup.
pub proof fn lemma_fresh_fallbacks_ask(fallback: FallbackView)
    ensures
        srvs_next(fallback.srvs(), false, fallback.addr()) is Lookup,
{
    let srvs = fallback.srvs();
    lemma_first_index(srvs, is_live(), 0);
    let k = first_live(srvs, 0);
    if k < srvs.len() {
        assert(srvs[k] is Srv);
        assert(srvs[k].next() is Lookup);
    } else {
        assert(fallback.addr().next() is Lookup);
    }
}

/// No address fallback once an SRV fallback has given a target. The
/// first target of an SRV fallback is remembered; from then on every step
/// is a step of the SRV fallbacks or the end, and the address fallback is
/// never entered.
pub proof fn lemma_no_addr_fallback_after_srv_target(lookup: JustDomainView, answer: AnswerView)
    requires
        lookup is TryingSrvFallbacks,
        lookup.wf(),
    ensures
        lookup.next() is Target ==> lookup.advance() is TryingSrvFallbacks
            && lookup.advance()->any_produced,
        lookup->any_produced ==> {
            &&& lookup.next() == Plan::List(lookup->srvs).next()
            &&& lookup.advance() is Done || (lookup.advance() is TryingSrvFallbacks
                && lookup.advance()->any_produced)
            &&& lookup.deliver(answer) is TryingSrvFallbacks && lookup.deliver(
                answer,
            )->any_produced
        },
{
}

/// The address fallback is entered only from the SRV fallbacks, when all
/// of them have ended and none has given a target; and the SRV fallbacks
/// only from NAPTR, when it has ended without a target.
pub proof fn lemma_fallbacks_in_turn(lookup: JustDomainView)
    ensures
        lookup.advance() is TryingAddrFallback ==> lookup is TryingAddrFallback || (lookup
            is TryingSrvFallbacks && !lookup->any_produced && Plan::List(
            lookup->srvs,
        ).exhausted()) || (lookup is TryingNaptr && !lookup->TryingNaptr_produced
            && lookup->naptr.exhausted() && Plan::List(lookup->fallback.srvs()).exhausted()),
        lookup.advance() is TryingSrvFallbacks ==> lookup is TryingSrvFallbacks || (lookup
            is TryingNaptr && !lookup->TryingNaptr_produced && lookup->naptr.exhausted()),
        lookup.advance() is TryingNaptr ==> lookup is TryingNaptr,
{
    match lookup {
        JustDomainView::TryingNaptr { naptr, produced, fallback } => {
            lemma_exhausted_is_done(naptr);
            lemma_exhausted_is_done(Plan::List(fallback.srvs()));
        },
        JustDomainView::TryingSrvFallbacks { srvs, any_produced, addr } => {
            lemma_exhausted_is_done(Plan::List(srvs));
        },
        _ => {},
    }
}

/// What holds of a lookup that needs no further answer: it is done, or
/// NAPTR is being followed, has no lookup left, and has either given a
/// target or one left to give.
pub open spec fn needs_no_answer(lookup: JustDomainView) -> bool {
    match lookup {
        JustDomainView::TryingNaptr { naptr, produced, .. } => naptr.resolved() && (produced
            || !naptr.exhausted()),
        JustDomainView::Done => true,
        _ => false,
    }
}

/// Records that came along save every further lookup: where the NAPTR
/// answer has left no lookup open and at least one target, no step asks
/// for a lookup again, up to the end.
pub proof fn lemma_glue_saves_lookups(lookup: JustDomainView)
    requires
        needs_no_answer(lookup),
    ensures
        !(lookup.next() is Lookup),
        needs_no_answer(lookup.advance()),
{
    match lookup {
        JustDomainView::TryingNaptr { naptr, produced, fallback } => {
            lemma_exhausted_is_done(naptr);
            lemma_resolved_asks_nothing(naptr);
        },
        _ => {},
    }
}

} // verus!
