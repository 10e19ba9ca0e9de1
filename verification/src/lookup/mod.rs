//! The lookup of a request URI.

pub mod just_domain_lookup;

use vstd::prelude::*;
use crate::context::{Context, ContextView, Host, HostView};
use crate::lookup::just_domain_lookup::{
    lemma_just_domain_exhaustion_is_terminal, JustDomainLookup, JustDomainView,
};
use crate::records::{SrvDomain, SrvDomainView};
use crate::resolvables::plan::{lemma_exhausted_is_done, lemma_exhaustion_is_terminal, Plan};
use crate::resolvables::resolvable_addr_record::ResolvableAddrRecord;
use crate::resolvables::resolvable_ip_addr::ResolvableIpAddr;
use crate::resolvables::resolvable_srv_record::ResolvableSrvRecord;
use crate::resolvables::{
    Answer, AnswerView, ResolvableExt, ResolvableState, Step, StepView,
};
use crate::target::{Target, DEFAULT_TTL};
use crate::transport::Transport;

verus! {

/// The targets of a request, in the order in which they should be tried.
///
/// Drive it with `resolve_next` until it reports `Step::Done`. When it
/// reports a lookup, make the lookup, hand the answer to `deliver`, and
/// drive it again.
#[derive(Debug)]
pub enum Lookup {
    /// The URI holds an address.
    IpAddr(ResolvableIpAddr),
    /// The URI holds a domain and a port.
    AddrRecord(ResolvableAddrRecord),
    /// The URI holds a domain and a transport.
    SrvRecord(ResolvableSrvRecord),
    /// The URI holds a domain and nothing else.
    JustDomain(JustDomainLookup),
}

/// What is left of a lookup.
pub enum LookupView {
    Single(Plan),
    JustDomain(JustDomainView),
}

impl View for Lookup {
    type V = LookupView;

    open spec fn view(&self) -> LookupView {
        match self {
            Lookup::IpAddr(ip_addr) => LookupView::Single(ip_addr.plan()),
            Lookup::AddrRecord(addr) => LookupView::Single(addr.plan()),
            Lookup::SrvRecord(srv) => LookupView::Single(srv.plan()),
            Lookup::JustDomain(just_domain) => LookupView::JustDomain(just_domain@),
        }
    }
}

impl Clone for Lookup {
    fn clone(&self) -> (r: Self)
        ensures
            r@ == self@,
    {
        match self {
            Lookup::IpAddr(ip_addr) => Lookup::IpAddr(*ip_addr),
            Lookup::AddrRecord(addr) => Lookup::AddrRecord(addr.clone()),
            Lookup::SrvRecord(srv) => Lookup::SrvRecord(srv.clone()),
            Lookup::JustDomain(just_domain) => Lookup::JustDomain(just_domain.clone()),
        }
    }
}

impl LookupView {
    /// How the lookup of a context starts. An address needs no lookup. A
    /// domain with a port is looked up for its addresses; a domain with a
    /// transport and no port for its SRV record; a domain alone goes the
    /// whole way. A port or a transport that the URI leaves out is the
    /// default one.
    pub open spec fn of_context(context: ContextView) -> LookupView {
        match context.host {
            HostView::IpAddr(ip_addr) => {
                let transport = match context.transport {
                    Some(transport) => transport,
                    None => context.default_transport(),
                };
                let port = match context.port {
                    Some(port) => port,
                    None => transport.spec_default_port(),
                };
                LookupView::Single(
                    Plan::Ip {
                        target: Target { ip_addr, port, transport, ttl: DEFAULT_TTL },
                        taken: false,
                    },
                )
            },
            HostView::Domain(domain) => match (context.transport, context.port) {
                (Some(transport), Some(port)) => LookupView::Single(
                    Plan::Addr { domain, port, transport },
                ),
                (Some(transport), None) => LookupView::Single(
                    Plan::Srv {
                        srv_domain: SrvDomainView {
                            domain,
                            protocol: transport,
                            secure: context.secure,
                        },
                    },
                ),
                (None, Some(port)) => LookupView::Single(
                    Plan::Addr { domain, port, transport: context.default_transport() },
                ),
                (None, None) => LookupView::JustDomain(JustDomainView::initial(context)),
            },
        }
    }

    pub open spec fn next(self) -> StepView {
        match self {
            LookupView::Single(plan) => plan.next(),
            LookupView::JustDomain(just_domain) => just_domain.next(),
        }
    }

    pub open spec fn advance(self) -> LookupView {
        match self {
            LookupView::Single(plan) => LookupView::Single(plan.advance()),
            LookupView::JustDomain(just_domain) => LookupView::JustDomain(just_domain.advance()),
        }
    }

    pub open spec fn deliver(self, answer: AnswerView) -> LookupView {
        match self {
            LookupView::Single(plan) => LookupView::Single(plan.deliver(answer)),
            LookupView::JustDomain(just_domain) => LookupView::JustDomain(
                just_domain.deliver(answer),
            ),
        }
    }

    pub open spec fn state(self) -> ResolvableState {
        match self {
            LookupView::Single(plan) => plan.state(),
            LookupView::JustDomain(just_domain) => just_domain.state(),
        }
    }
}

impl Lookup {
    /// The lookup of a context.
    pub fn from(ctx: Context) -> (r: Lookup)
        ensures
            r@ == LookupView::of_context(ctx@),
    {
        match &ctx.host {
            Host::IpAddr(ip_addr) => {
                let transport = match ctx.transport {
                    Some(transport) => transport,
                    None => ctx.default_transport(),
                };
                let port = match ctx.port {
                    Some(port) => port,
                    None => transport.default_port(),
                };
                Lookup::IpAddr(ResolvableIpAddr::new(*ip_addr, port, transport))
            },
            Host::Domain(domain) => match (ctx.transport, ctx.port) {
                (Some(transport), Some(port)) => Lookup::AddrRecord(
                    ResolvableAddrRecord::new(domain.clone(), port, transport),
                ),
                (Some(transport), None) => Lookup::SrvRecord(
                    ResolvableSrvRecord::new(
                        SrvDomain { domain: domain.clone(), protocol: transport, secure: ctx.secure },
                    ),
                ),
                (None, Some(port)) => Lookup::AddrRecord(
                    ResolvableAddrRecord::new(domain.clone(), port, ctx.default_transport()),
                ),
                (None, None) => Lookup::JustDomain(JustDomainLookup::new(ctx)),
            },
        }
    }

    /// `Unset` before a lookup, `NonEmpty` while a target may come without
    /// one, and `Empty` when nothing is left.
    pub fn state(&self) -> (r: ResolvableState)
        ensures
            r == self@.state(),
            r == ResolvableState::Empty <==> self@.next() is Done,
    {
        proof {
            match self@ {
                LookupView::Single(plan) => {
                    lemma_exhausted_is_done(plan);
                },
                LookupView::JustDomain(_) => {},
            }
        }
        match self {
            Lookup::IpAddr(ip_addr) => ip_addr.state(),
            Lookup::AddrRecord(addr) => addr.state(),
            Lookup::SrvRecord(srv) => srv.state(),
            Lookup::JustDomain(just_domain) => just_domain.state(),
        }
    }

    /// The next step: the next target, the lookup that has to be made
    /// before there can be one, or the end.
    pub fn resolve_next(&mut self) -> (r: Step)
        ensures
            r@ == old(self)@.next(),
            final(self)@ == old(self)@.advance(),
    {
        match self {
            Lookup::IpAddr(ip_addr) => ip_addr.resolve_next(),
            Lookup::AddrRecord(addr) => addr.resolve_next(),
            Lookup::SrvRecord(srv) => srv.resolve_next(),
            Lookup::JustDomain(just_domain) => just_domain.resolve_next(),
        }
    }

    /// Hands in the answer to the lookup that was last reported.
    pub fn deliver(&mut self, answer: Answer)
        ensures
            final(self)@ == old(self)@.deliver(answer@),
    {
        match self {
            Lookup::IpAddr(ip_addr) => ip_addr.deliver(answer),
            Lookup::AddrRecord(addr) => addr.deliver(answer),
            Lookup::SrvRecord(srv) => srv.deliver(answer),
            Lookup::JustDomain(just_domain) => just_domain.deliver(answer),
        }
    }
}


/// A context that asks for a transport over TLS is secure.
pub open spec fn tls_is_secure(context: ContextView) -> bool {
    context.transport matches Some(transport) ==> (transport.spec_is_secure() ==> context.secure)
}

/// Where a lookup starts with a transport over TLS, its context is
/// secure: for the target of an address, for the targets of an address or
/// SRV lookup, and for the fallbacks of a bare domain.
pub proof fn lemma_tls_targets_are_secure(context: ContextView)
    requires
        tls_is_secure(context),
    ensures
        match LookupView::of_context(context) {
            LookupView::Single(Plan::Ip { target, .. }) => target.transport.spec_is_secure()
                ==> context.secure,
            LookupView::Single(Plan::Addr { transport, .. }) => transport.spec_is_secure()
                ==> context.secure,
            LookupView::Single(Plan::Srv { srv_domain }) => srv_domain.transport().spec_is_secure()
                ==> context.secure,
            LookupView::JustDomain(JustDomainView::TryingNaptr { fallback, .. }) => {
                &&& fallback.default_transport.spec_is_secure() ==> context.secure
                &&& forall|protocol: Transport|
                    (#[trigger] fallback.srv_domain(protocol)).transport().spec_is_secure()
                        ==> context.secure
            },
            _ => true,
        },
{
}

/// Exhaustion is terminal: once a lookup has reported the end, every
/// further step reports the end, whatever is handed in between.
pub proof fn lemma_lookup_exhaustion_is_terminal(lookup: LookupView, answer: AnswerView)
    requires
        lookup.next() is Done,
    ensures
        lookup.advance().next() is Done,
        lookup.advance().advance() == lookup.advance(),
        lookup.advance().deliver(answer) == lookup.advance(),
{
    match lookup {
        LookupView::Single(plan) => {
            lemma_exhaustion_is_terminal(plan);
        },
        LookupView::JustDomain(just_domain) => {
            lemma_just_domain_exhaustion_is_terminal(just_domain);
        },
    }
}

} // verus!
