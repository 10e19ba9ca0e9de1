//! What a request URI asks for, and what the caller can speak.

use vstd::prelude::*;
use crate::error::Error;
use crate::target::IpAddr;
use crate::transport::{contains_transport, SupportedTransports, Transport};

verus! {

/// The host of a URI: a name to look up, or an address.
#[derive(Debug, PartialEq, Eq)]
pub enum Host {
    Domain(String),
    IpAddr(IpAddr),
}

pub enum HostView {
    Domain(Seq<char>),
    IpAddr(IpAddr),
}

impl View for Host {
    type V = HostView;

    open spec fn view(&self) -> HostView {
        match self {
            Host::Domain(domain) => HostView::Domain(domain@),
            Host::IpAddr(ip_addr) => HostView::IpAddr(*ip_addr),
        }
    }
}

impl Clone for Host {
    fn clone(&self) -> (r: Self)
        ensures
            r@ == self@,
    {
        match self {
            Host::Domain(domain) => Host::Domain(domain.clone()),
            Host::IpAddr(ip_addr) => Host::IpAddr(*ip_addr),
        }
    }
}

/// The scheme of a URI.
#[derive(Debug, PartialEq, Eq)]
pub enum Scheme {
    Sip,
    Sips,
    Other(String),
}

/// The parts of a request URI that decide where the request goes.
#[derive(Debug, PartialEq, Eq)]
pub struct Uri {
    pub scheme: Option<Scheme>,
    pub host: Option<Host>,
    pub port: Option<u16>,
    pub transport: Option<Transport>,
}

/// What is known before the first lookup.
#[derive(Debug, PartialEq, Eq)]
pub struct Context {
    pub secure: bool,
    pub host: Host,
    pub transport: Option<Transport>,
    pub port: Option<u16>,
    pub supported_transports: SupportedTransports,
}

pub struct ContextView {
    pub secure: bool,
    pub host: HostView,
    pub transport: Option<Transport>,
    pub port: Option<u16>,
    pub supported_transports: Seq<Transport>,
}

impl View for Context {
    type V = ContextView;

    open spec fn view(&self) -> ContextView {
        ContextView {
            secure: self.secure,
            host: self.host@,
            transport: self.transport,
            port: self.port,
            supported_transports: self.supported_transports@,
        }
    }
}

impl Clone for Context {
    fn clone(&self) -> (r: Self)
        ensures
            r@ == self@,
    {
        Context {
            secure: self.secure,
            host: self.host.clone(),
            transport: self.transport,
            port: self.port,
            supported_transports: self.supported_transports.clone(),
        }
    }
}

/// A transport that a context may use: any for a context that is not
/// secure, one over TLS for a secure one.
pub open spec fn admits(secure: bool, transport: Transport) -> bool {
    secure ==> transport.spec_is_secure()
}

/// Those of the first `n` of `transports` that a context admits, in their
/// order.
pub open spec fn admitted(secure: bool, transports: Seq<Transport>, n: int) -> Seq<Transport>
    decreases n,
{
    if n <= 0 || n > transports.len() {
        Seq::empty()
    } else if admits(secure, transports[n - 1]) {
        admitted(secure, transports, n - 1).push(transports[n - 1])
    } else {
        admitted(secure, transports, n - 1)
    }
}

/// The protocols below the first `n` of `transports`, each once, at the
/// place where it first occurs.
pub open spec fn protocols_of(transports: Seq<Transport>, n: int) -> Seq<Transport>
    decreases n,
{
    if n <= 0 || n > transports.len() {
        Seq::empty()
    } else {
        let before = protocols_of(transports, n - 1);
        let protocol = transports[n - 1].spec_protocol();
        if before.contains(protocol) {
            before
        } else {
            before.push(protocol)
        }
    }
}

impl ContextView {
    /// The transports that a NAPTR entry may name: the supported ones that
    /// the context admits, in the order in which they are supported.
    pub open spec fn available_transports(self) -> Seq<Transport> {
        admitted(self.secure, self.supported_transports, self.supported_transports.len() as int)
    }

    /// The protocols under which SRV records are looked for: those below
    /// the available transports.
    pub open spec fn available_protocols(self) -> Seq<Transport> {
        let transports = self.available_transports();
        protocols_of(transports, transports.len() as int)
    }

    /// The transport of a target for which the URI names none.
    pub open spec fn default_transport(self) -> Transport {
        Transport::spec_default_for(self.secure)
    }
}

/// Whether a URI names a host: an address, or a domain that is not empty.
pub open spec fn names_host(host: Option<Host>) -> bool {
    match host {
        Some(Host::Domain(domain)) => domain@.len() > 0,
        Some(Host::IpAddr(_)) => true,
        None => false,
    }
}

impl Context {
    /// The context of a request to `uri`. It is secure where the scheme is
    /// `sips` or the URI asks for a transport over TLS.
    ///
    /// Fails with `InvalidUri` where the URI names no host, and where it
    /// asks for a transport that is not supported.
    pub fn initialize_from(uri: Uri, supported_transports: SupportedTransports) -> (r: Result<
        Context,
        Error,
    >)
        ensures
            r is Ok <==> names_host(uri.host) && (uri.transport matches Some(t)
                ==> supported_transports@.contains(t)),
            r matches Err(e) ==> e == Error::InvalidUri,
            r matches Ok(context) ==> {
                &&& Some(context.host) == uri.host
                &&& context.port == uri.port
                &&& context.transport == uri.transport
                &&& context.supported_transports == supported_transports
                &&& context.secure == (uri.scheme == Some(Scheme::Sips) || (
                uri.transport matches Some(t) && t.spec_is_secure()))
                &&& context.transport matches Some(t) ==> (t.spec_is_secure() ==> context.secure)
            },
    {
        let Uri { scheme, host, port, transport } = uri;
        let host = match host {
            Some(Host::Domain(domain)) => {
                if domain.as_str().unicode_len() == 0 {
                    return Err(Error::InvalidUri);
                }
                Host::Domain(domain)
            },
            Some(Host::IpAddr(ip_addr)) => Host::IpAddr(ip_addr),
            None => {
                return Err(Error::InvalidUri);
            },
        };
        let over_tls = match transport {
            Some(t) => {
                if !supported_transports.contains(t) {
                    return Err(Error::InvalidUri);
                }
                t.is_secure()
            },
            None => false,
        };
        let sips = match scheme {
            Some(Scheme::Sips) => true,
            _ => false,
        };
        Ok(Context { secure: sips || over_tls, host, transport, port, supported_transports })
    }

    /// The transports that a NAPTR entry may name.
    pub fn available_transports(&self) -> (r: Vec<Transport>)
        ensures
            r@ == self@.available_transports(),
    {
        let supported = self.supported_transports.to_vec();
        let mut out: Vec<Transport> = Vec::new();
        let mut i: usize = 0;
        while i < supported.len()
            invariant
                i <= supported.len(),
                supported@ == self@.supported_transports,
                out@ == admitted(self.secure, supported@, i as int),
            decreases supported.len() - i,
        {
            let t = supported[i];
            if !self.secure || t.is_secure() {
                out.push(t);
            }
            i += 1;
        }
        out
    }

    /// The protocols under which SRV records are looked for.
    pub fn available_protocols(&self) -> (r: Vec<Transport>)
        ensures
            r@ == self@.available_protocols(),
    {
        let transports = self.available_transports();
        let mut out: Vec<Transport> = Vec::new();
        let mut i: usize = 0;
        while i < transports.len()
            invariant
                i <= transports.len(),
                out@ == protocols_of(transports@, i as int),
            decreases transports.len() - i,
        {
            let protocol = transports[i].protocol();
            if !contains_transport(&out, protocol) {
                out.push(protocol);
            }
            i += 1;
        }
        out
    }

    /// The transport of a target for which the URI names none: TLS in a
    /// secure context, UDP in any other.
    pub fn default_transport(&self) -> (r: Transport)
        ensures
            r == self@.default_transport(),
    {
        Transport::default_for(self.secure)
    }
}


/// Those that are admitted are the admitted ones among the transports.
pub proof fn lemma_admitted(secure: bool, transports: Seq<Transport>, n: int)
    requires
        0 <= n <= transports.len(),
    ensures
        forall|t: Transport|
            #![trigger admitted(secure, transports, n).contains(t)]
            admitted(secure, transports, n).contains(t) <==> admits(secure, t) && exists|i: int|
                0 <= i < n && transports[i] == t,
        admitted(secure, transports, n).len() <= n,
        !secure ==> admitted(secure, transports, n) == transports.take(n),
    decreases n,
{
    if n > 0 {
        lemma_admitted(secure, transports, n - 1);
        let before = admitted(secure, transports, n - 1);
        let now = admitted(secure, transports, n);
        let last = transports[n - 1];
        assert(transports.take(n) =~= transports.take(n - 1).push(last));
        assert forall|t: Transport| #![trigger now.contains(t)]
            now.contains(t) <==> admits(secure, t) && exists|i: int|
                0 <= i < n && transports[i] == t by {
            if now.contains(t) {
                let i = choose|i: int| 0 <= i < now.len() && now[i] == t;
                if i < before.len() {
                    assert(before[i] == t);
                    assert(before.contains(t));
                    let j = choose|j: int| 0 <= j < n - 1 && transports[j] == t;
                    assert(0 <= j < n && transports[j] == t);
                } else {
                    assert(transports[n - 1] == t);
                }
            }
            if admits(secure, t) && exists|i: int| 0 <= i < n && transports[i] == t {
                let j = choose|j: int| 0 <= j < n && transports[j] == t;
                if j < n - 1 {
                    assert(before.contains(t));
                    let i = choose|i: int| 0 <= i < before.len() && before[i] == t;
                    assert(now[i] == t);
                } else {
                    assert(now[now.len() - 1] == t);
                }
            }
        }
    } else {
        assert(transports.take(0) =~= Seq::<Transport>::empty());
    }
}

/// The protocols of transports are the protocols below them, each once.
pub proof fn lemma_protocols_of(transports: Seq<Transport>, n: int)
    requires
        0 <= n <= transports.len(),
    ensures
        forall|p: Transport|
            protocols_of(transports, n).contains(p) <==> exists|i: int|
                0 <= i < n && (#[trigger] transports[i]).spec_protocol() == p,
        forall|i: int, j: int|
            0 <= i < j < protocols_of(transports, n).len() ==> protocols_of(transports, n)[i]
                != protocols_of(transports, n)[j],
        forall|i: int|
            0 <= i < protocols_of(transports, n).len() ==> !(#[trigger] protocols_of(
                transports,
                n,
            )[i]).spec_is_secure(),
    decreases n,
{
    if n > 0 {
        lemma_protocols_of(transports, n - 1);
        let before = protocols_of(transports, n - 1);
        let now = protocols_of(transports, n);
        let protocol = transports[n - 1].spec_protocol();
        assert forall|p: Transport|
            now.contains(p) <==> exists|i: int|
                0 <= i < n && (#[trigger] transports[i]).spec_protocol() == p by {
            if now.contains(p) {
                let k = choose|k: int| 0 <= k < now.len() && now[k] == p;
                if k < before.len() {
                    assert(before[k] == p);
                    assert(before.contains(p));
                } else {
                    assert(transports[n - 1].spec_protocol() == p);
                }
            }
            if exists|i: int| 0 <= i < n && (#[trigger] transports[i]).spec_protocol() == p {
                let i = choose|i: int| 0 <= i < n && (#[trigger] transports[i]).spec_protocol() == p;
                if i < n - 1 {
                    assert(before.contains(p));
                    let k = choose|k: int| 0 <= k < before.len() && before[k] == p;
                    assert(now[k] == p);
                } else if before.contains(p) {
                } else {
                    assert(now[now.len() - 1] == p);
                }
            }
        }
    }
}

/// What a context makes available: the transports are the supported ones
/// that the context admits; the protocols are those below these
/// transports, each once, and none of them runs over TLS.
pub proof fn lemma_available(context: ContextView)
    ensures
        forall|t: Transport|
            context.available_transports().contains(t) <==> context.supported_transports.contains(
                t,
            ) && admits(context.secure, t),
        forall|p: Transport|
            context.available_protocols().contains(p) <==> exists|i: int|
                0 <= i < context.available_transports().len()
                    && (#[trigger] context.available_transports()[i]).spec_protocol() == p,
        forall|i: int, j: int|
            0 <= i < j < context.available_protocols().len() ==> context.available_protocols()[i]
                != context.available_protocols()[j],
{
    let supported = context.supported_transports;
    lemma_admitted(context.secure, supported, supported.len() as int);
    let transports = context.available_transports();
    assert forall|t: Transport|
        transports.contains(t) <==> supported.contains(t) && admits(context.secure, t) by {
        if supported.contains(t) {
            let i = choose|i: int| 0 <= i < supported.len() && supported[i] == t;
            assert(0 <= i < supported.len() && supported[i] == t);
        }
    }
    lemma_protocols_of(transports, transports.len() as int);
}

} // verus!
