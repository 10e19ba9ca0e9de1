//! The records that a DNS client hands to a lookup.

pub mod naptr_record;
pub mod srv_record;

use vstd::prelude::*;
use crate::error::Error;
use crate::gather::{min_u32, Gathers};
use crate::search::{first_index, lemma_first_index_at};
use crate::target::IpAddr;
use crate::text::{eq_ignore_ascii_case, same_ignoring_case};
use crate::transport::Transport;

verus! {

/// The views of the items of `s`, in their order.
pub open spec fn views<T: View>(s: Seq<T>) -> Seq<T::V> {
    s.map_values(|t: T| t@)
}

/// The view of what an option holds.
pub open spec fn view_of<T: View>(o: Option<T>) -> Option<T::V> {
    match o {
        Some(t) => Some(t@),
        None => None,
    }
}

/// The addresses of a host, with the TTL of the set.
#[derive(Debug, PartialEq, Eq)]
pub struct AddrRecord {
    pub ip_addrs: Vec<IpAddr>,
    pub domain: String,
    pub ttl: u32,
}

pub struct AddrRecordView {
    pub ip_addrs: Seq<IpAddr>,
    pub domain: Seq<char>,
    pub ttl: u32,
}

impl View for AddrRecord {
    type V = AddrRecordView;

    open spec fn view(&self) -> AddrRecordView {
        AddrRecordView { ip_addrs: self.ip_addrs@, domain: self.domain@, ttl: self.ttl }
    }
}

impl Clone for AddrRecord {
    fn clone(&self) -> (r: Self)
        ensures
            r@ == self@,
    {
        let mut ip_addrs: Vec<IpAddr> = Vec::new();
        let mut i: usize = 0;
        while i < self.ip_addrs.len()
            invariant
                i <= self.ip_addrs.len(),
                ip_addrs@ == self.ip_addrs@.take(i as int),
            decreases self.ip_addrs.len() - i,
        {
            ip_addrs.push(self.ip_addrs[i]);
            assert(self.ip_addrs@.take(i + 1) =~= self.ip_addrs@.take(i as int).push(
                self.ip_addrs@[i as int],
            ));
            i += 1;
        }
        assert(self.ip_addrs@.take(i as int) =~= self.ip_addrs@);
        AddrRecord { ip_addrs, domain: self.domain.clone(), ttl: self.ttl }
    }
}

impl Gathers<String, IpAddr> for AddrRecord {
    open spec fn name(view: AddrRecordView) -> Seq<char> {
        view.domain
    }

    open spec fn items(view: AddrRecordView) -> Seq<IpAddr> {
        view.ip_addrs
    }

    open spec fn ttl(view: AddrRecordView) -> u32 {
        view.ttl
    }

    open spec fn fresh(name: Seq<char>, item: IpAddr, ttl: u32) -> AddrRecordView {
        AddrRecordView { ip_addrs: seq![item], domain: name, ttl }
    }

    open spec fn grown(view: AddrRecordView, item: IpAddr, ttl: u32) -> AddrRecordView {
        AddrRecordView {
            ip_addrs: view.ip_addrs.push(item),
            domain: view.domain,
            ttl: min_u32(view.ttl, ttl),
        }
    }

    proof fn lemma_fresh(name: Seq<char>, item: IpAddr, ttl: u32) {
    }

    proof fn lemma_grown(view: AddrRecordView, item: IpAddr, ttl: u32) {
    }

    fn is_under(&self, name: &String) -> (r: bool) {
        let r = self.domain == *name;
        proof {
            if r {
                assert(self@.domain =~= name@);
            }
        }
        r
    }

    fn start(name: String, item: IpAddr, ttl: u32) -> (r: Self) {
        let mut ip_addrs: Vec<IpAddr> = Vec::new();
        ip_addrs.push(item);
        let r = AddrRecord { ip_addrs, domain: name, ttl };
        assert(r@.ip_addrs =~= seq![item]);
        r
    }

    fn grow(&mut self, item: IpAddr, ttl: u32) {
        self.ip_addrs.push(item);
        if ttl < self.ttl {
            self.ttl = ttl;
        }
    }
}

/// The name under which the SRV records of a domain are kept.
#[derive(Debug, PartialEq, Eq)]
pub struct SrvDomain {
    pub domain: String,
    pub protocol: Transport,
    pub secure: bool,
}

pub struct SrvDomainView {
    pub domain: Seq<char>,
    pub protocol: Transport,
    pub secure: bool,
}

impl View for SrvDomain {
    type V = SrvDomainView;

    open spec fn view(&self) -> SrvDomainView {
        SrvDomainView { domain: self.domain@, protocol: self.protocol, secure: self.secure }
    }
}

impl Clone for SrvDomain {
    fn clone(&self) -> (r: Self)
        ensures
            r@ == self@,
    {
        SrvDomain { domain: self.domain.clone(), protocol: self.protocol, secure: self.secure }
    }
}

/// What tells a dot from the other characters.
pub open spec fn is_dot() -> spec_fn(char) -> bool {
    |c: char| c == '.'
}

/// The place of the first dot of `s` at or after `from`; the length of `s`
/// where there is none.
pub open spec fn first_dot(s: Seq<char>, from: int) -> int {
    first_index(s, is_dot(), from)
}

/// What the first label of an SRV name says of security: `_sips` is secure,
/// `_sip` is not, and nothing else is a service.
pub open spec fn service_secure(label: Seq<char>) -> Option<bool> {
    if same_ignoring_case(label, "_sips"@) {
        Some(true)
    } else if same_ignoring_case(label, "_sip"@) {
        Some(false)
    } else {
        None
    }
}

/// The protocol that the second label of an SRV name stands for: an
/// underscore, then a transport's token.
pub open spec fn label_protocol(label: Seq<char>) -> Option<Transport> {
    if label.len() > 0 && label[0] == '_' {
        Transport::spec_from_token(label.skip(1))
    } else {
        None
    }
}

impl SrvDomainView {
    /// The transport of the targets found under this name.
    pub open spec fn transport(self) -> Transport {
        self.protocol.spec_secured(self.secure)
    }

    /// The DNS name: `_sips._tcp.example.com` for a secure lookup of
    /// `example.com` over TCP.
    pub open spec fn name(self) -> Seq<char> {
        (if self.secure {
            "_sips"@
        } else {
            "_sip"@
        }) + "._"@ + self.protocol.spec_token() + "."@ + self.domain
    }

    /// What a DNS name says when read as an SRV name: two labels and, after
    /// the second dot, the domain.
    pub open spec fn parse(s: Seq<char>) -> Option<SrvDomainView> {
        let d1 = first_dot(s, 0);
        let d2 = first_dot(s, d1 + 1);
        if d1 < s.len() && d2 < s.len() {
            match (service_secure(s.subrange(0, d1)), label_protocol(s.subrange(d1 + 1, d2))) {
                (Some(secure), Some(protocol)) => Some(
                    SrvDomainView { domain: s.subrange(d2 + 1, s.len() as int), protocol, secure },
                ),
                _ => None,
            }
        } else {
            None
        }
    }
}

fn find_dot(s: &str, from: usize) -> (r: usize)
    requires
        from <= s@.len(),
    ensures
        r == first_dot(s@, from as int),
        from <= r <= s@.len(),
{
    let n = s.unicode_len();
    let mut i: usize = from;
    while i < n
        invariant
            from <= i <= n,
            n == s@.len(),
            first_dot(s@, from as int) == first_dot(s@, i as int),
        decreases n - i,
    {
        if s.get_char(i) == '.' {
            return i;
        }
        i += 1;
    }
    i
}

impl SrvDomain {
    pub fn new(secure: bool, protocol: Transport, domain: String) -> (r: SrvDomain)
        ensures
            r == (SrvDomain { domain, protocol, secure }),
    {
        SrvDomain { domain, protocol, secure }
    }

    /// The transport of the targets found under this name: the protocol,
    /// or its TLS form where the name is secure.
    pub fn transport(&self) -> (r: Transport)
        ensures
            r == self@.transport(),
            r.spec_is_secure() ==> self.secure || self.protocol.spec_is_secure(),
    {
        self.protocol.secured(self.secure)
    }

    /// Whether both stand for the same name.
    pub fn same(&self, other: &SrvDomain) -> (r: bool)
        ensures
            r == (self@ == other@),
    {
        let r = self.secure == other.secure && self.protocol == other.protocol && self.domain
            == other.domain;
        proof {
            if r {
                assert(self@.domain =~= other@.domain);
            }
        }
        r
    }

    /// The DNS name to ask for.
    pub fn to_string(&self) -> (r: String)
        ensures
            r@ == self@.name(),
    {
        let mut r = if self.secure {
            String::from_str("_sips")
        } else {
            String::from_str("_sip")
        };
        r.append("._");
        r.append(self.protocol.token());
        r.append(".");
        r.append(self.domain.as_str());
        r
    }

    /// Reads a DNS name as an SRV name.
    pub fn try_from(name: &str) -> (r: Result<SrvDomain, Error>)
        ensures
            match SrvDomainView::parse(name@) {
                Some(v) => r is Ok && r->Ok_0@ == v,
                None => r == Err::<SrvDomain, Error>(Error::ConversionFailure),
            },
    {
        let n = name.unicode_len();
        let d1 = find_dot(name, 0);
        if d1 >= n {
            return Err(Error::ConversionFailure);
        }
        let d2 = find_dot(name, d1 + 1);
        if d2 >= n {
            return Err(Error::ConversionFailure);
        }
        let service = name.substring_char(0, d1);
        let secure = if eq_ignore_ascii_case(service, "_sips") {
            true
        } else if eq_ignore_ascii_case(service, "_sip") {
            false
        } else {
            return Err(Error::ConversionFailure);
        };
        let label = name.substring_char(d1 + 1, d2);
        let len = label.unicode_len();
        if len == 0 || label.get_char(0) != '_' {
            return Err(Error::ConversionFailure);
        }
        let token = label.substring_char(1, len);
        assert(token@ =~= label@.skip(1));
        match Transport::from_token(token) {
            Some(protocol) => {
                let domain = String::from_str(name.substring_char(d2 + 1, n));
                Ok(SrvDomain { domain, protocol, secure })
            },
            None => Err(Error::ConversionFailure),
        }
    }
}

/// A name that was written from an SRV domain reads back as that domain.
pub proof fn lemma_srv_name_round_trip(d: SrvDomainView)
    ensures
        SrvDomainView::parse(d.name()) == Some(d),
{
    reveal_strlit("_sips");
    reveal_strlit("_sip");
    reveal_strlit("._");
    reveal_strlit(".");
    let service = if d.secure {
        "_sips"@
    } else {
        "_sip"@
    };
    let token = d.protocol.spec_token();
    let s = d.name();
    d.protocol.lemma_token_has_no_dot();
    d.protocol.lemma_token_round_trip();
    let d1 = service.len() as int;
    let d2 = d1 + 2 + token.len();
    assert(s.len() == d2 + 1 + d.domain.len());
    assert forall|i: int| 0 <= i < d1 implies s[i] != '.' by {
        assert(s[i] == service[i]);
    }
    assert(s[d1] == '.');
    lemma_first_index_at(s, is_dot(), 0, d1);
    assert(s[d1 + 1] == '_');
    assert forall|i: int| d1 + 1 <= i < d2 implies s[i] != '.' by {
        if i > d1 + 1 {
            assert(s[i] == token[i - d1 - 2]);
        }
    }
    assert(s[d2] == '.');
    lemma_first_index_at(s, is_dot(), d1 + 1, d2);
    assert(s.subrange(0, d1) =~= service);
    assert(s.subrange(d1 + 1, d2).skip(1) =~= token);
    assert(s.subrange(d2 + 1, s.len() as int) =~= d.domain);
    assert(same_ignoring_case(service, service));
    assert(!same_ignoring_case("_sip"@, "_sips"@));
}

} // verus!
