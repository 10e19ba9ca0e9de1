//! SIP transports and the defaults that go with them.

use vstd::prelude::*;
use crate::text::{ascii_lower, eq_ignore_ascii_case, same_ignoring_case};

verus! {

/// The transport a SIP hop is reached over.
#[derive(Debug, Clone, Copy, PartialEq, Eq, Hash, Structural)]
pub enum Transport {
    Udp,
    Tcp,
    Tls,
    TlsSctp,
    Sctp,
    Ws,
    Wss,
}

impl Transport {
    /// Every transport, in the order in which they are tried.
    pub open spec fn spec_all() -> Seq<Transport> {
        seq![
            Transport::Udp,
            Transport::Tcp,
            Transport::Tls,
            Transport::Sctp,
            Transport::TlsSctp,
            Transport::Ws,
            Transport::Wss,
        ]
    }

    pub fn all() -> (r: Vec<Transport>)
        ensures
            r@ == Self::spec_all(),
    {
        let mut r: Vec<Transport> = Vec::new();
        r.push(Transport::Udp);
        r.push(Transport::Tcp);
        r.push(Transport::Tls);
        r.push(Transport::Sctp);
        r.push(Transport::TlsSctp);
        r.push(Transport::Ws);
        r.push(Transport::Wss);
        assert(r@ =~= Self::spec_all());
        r
    }

    /// The transports that run over TLS.
    pub open spec fn spec_is_secure(&self) -> bool {
        *self == Transport::Tls || *self == Transport::TlsSctp || *self == Transport::Wss
    }

    #[verifier::when_used_as_spec(spec_is_secure)]
    pub fn is_secure(&self) -> (r: bool)
        ensures
            r == self.spec_is_secure(),
    {
        match self {
            Transport::Tls | Transport::TlsSctp | Transport::Wss => true,
            _ => false,
        }
    }

    /// The protocol below the transport: TLS runs over TCP, TLS-SCTP over
    /// SCTP, WSS over WS; the others are their own protocol.
    pub open spec fn spec_protocol(&self) -> Transport {
        match *self {
            Transport::Tls => Transport::Tcp,
            Transport::TlsSctp => Transport::Sctp,
            Transport::Wss => Transport::Ws,
            t => t,
        }
    }

    #[verifier::when_used_as_spec(spec_protocol)]
    pub fn protocol(&self) -> (r: Transport)
        ensures
            r == self.spec_protocol(),
    {
        match self {
            Transport::Tls => Transport::Tcp,
            Transport::TlsSctp => Transport::Sctp,
            Transport::Wss => Transport::Ws,
            t => *t,
        }
    }

    /// The secured form of a protocol, where `secure` asks for one; a
    /// transport that is no bare protocol, or an insecure request, is kept.
    pub open spec fn spec_secured(&self, secure: bool) -> Transport {
        match (secure, *self) {
            (true, Transport::Tcp) => Transport::Tls,
            (true, Transport::Sctp) => Transport::TlsSctp,
            (true, Transport::Ws) => Transport::Wss,
            (_, t) => t,
        }
    }

    #[verifier::when_used_as_spec(spec_secured)]
    pub fn secured(&self, secure: bool) -> (r: Transport)
        ensures
            r == self.spec_secured(secure),
    {
        match (secure, self) {
            (true, Transport::Tcp) => Transport::Tls,
            (true, Transport::Sctp) => Transport::TlsSctp,
            (true, Transport::Ws) => Transport::Wss,
            (_, t) => *t,
        }
    }

    /// 5061 over TLS, 5060 otherwise.
    pub open spec fn spec_default_port(&self) -> u16 {
        if self.spec_is_secure() {
            5061
        } else {
            5060
        }
    }

    #[verifier::when_used_as_spec(spec_default_port)]
    pub fn default_port(&self) -> (r: u16)
        ensures
            r == self.spec_default_port(),
    {
        if self.is_secure() {
            5061
        } else {
            5060
        }
    }

    pub fn default_secure_transport() -> (r: Transport)
        ensures
            r == Transport::Tls,
    {
        Transport::Tls
    }

    pub fn default_insecure_transport() -> (r: Transport)
        ensures
            r == Transport::Udp,
    {
        Transport::Udp
    }

    /// TLS for a secure context, UDP for any other.
    pub open spec fn spec_default_for(secure: bool) -> Transport {
        if secure {
            Transport::Tls
        } else {
            Transport::Udp
        }
    }

    #[verifier::when_used_as_spec(spec_default_for)]
    pub fn default_for(secure: bool) -> (r: Transport)
        ensures
            r == Self::spec_default_for(secure),
    {
        if secure {
            Self::default_secure_transport()
        } else {
            Self::default_insecure_transport()
        }
    }

    /// The name of the transport in a DNS label, in small letters.
    pub open spec fn spec_token(&self) -> Seq<char> {
        match *self {
            Transport::Udp => "udp"@,
            Transport::Tcp => "tcp"@,
            Transport::Tls => "tls"@,
            Transport::Sctp => "sctp"@,
            Transport::TlsSctp => "tls-sctp"@,
            Transport::Ws => "ws"@,
            Transport::Wss => "wss"@,
        }
    }

    pub fn token(&self) -> (r: &'static str)
        ensures
            r@ == self.spec_token(),
    {
        match self {
            Transport::Udp => "udp",
            Transport::Tcp => "tcp",
            Transport::Tls => "tls",
            Transport::Sctp => "sctp",
            Transport::TlsSctp => "tls-sctp",
            Transport::Ws => "ws",
            Transport::Wss => "wss",
        }
    }

    /// The transport that `token` names, whatever the case of its letters.
    pub open spec fn spec_from_token(token: Seq<char>) -> Option<Transport> {
        if same_ignoring_case(token, "udp"@) {
            Some(Transport::Udp)
        } else if same_ignoring_case(token, "tcp"@) {
            Some(Transport::Tcp)
        } else if same_ignoring_case(token, "tls"@) {
            Some(Transport::Tls)
        } else if same_ignoring_case(token, "sctp"@) {
            Some(Transport::Sctp)
        } else if same_ignoring_case(token, "tls-sctp"@) {
            Some(Transport::TlsSctp)
        } else if same_ignoring_case(token, "ws"@) {
            Some(Transport::Ws)
        } else if same_ignoring_case(token, "wss"@) {
            Some(Transport::Wss)
        } else {
            None
        }
    }

    pub fn from_token(token: &str) -> (r: Option<Transport>)
        ensures
            r == Self::spec_from_token(token@),
    {
        if eq_ignore_ascii_case(token, "udp") {
            Some(Transport::Udp)
        } else if eq_ignore_ascii_case(token, "tcp") {
            Some(Transport::Tcp)
        } else if eq_ignore_ascii_case(token, "tls") {
            Some(Transport::Tls)
        } else if eq_ignore_ascii_case(token, "sctp") {
            Some(Transport::Sctp)
        } else if eq_ignore_ascii_case(token, "tls-sctp") {
            Some(Transport::TlsSctp)
        } else if eq_ignore_ascii_case(token, "ws") {
            Some(Transport::Ws)
        } else if eq_ignore_ascii_case(token, "wss") {
            Some(Transport::Wss)
        } else {
            None
        }
    }

    /// A token holds no dot, so it is one whole DNS label.
    pub proof fn lemma_token_has_no_dot(self)
        ensures
            forall|i: int| 0 <= i < self.spec_token().len() ==> self.spec_token()[i] != '.',
            self.spec_token().len() >= 2,
    {
        reveal_strlit("udp");
        reveal_strlit("tcp");
        reveal_strlit("tls");
        reveal_strlit("sctp");
        reveal_strlit("tls-sctp");
        reveal_strlit("ws");
        reveal_strlit("wss");
    }

    /// Reading a transport's own token gives the transport back.
    pub proof fn lemma_token_round_trip(self)
        ensures
            Self::spec_from_token(self.spec_token()) == Some(self),
    {
        reveal_strlit("udp");
        reveal_strlit("tcp");
        reveal_strlit("tls");
        reveal_strlit("sctp");
        reveal_strlit("tls-sctp");
        reveal_strlit("ws");
        reveal_strlit("wss");
        let t = self.spec_token();
        assert(same_ignoring_case(t, t));
        match self {
            Transport::Udp => {},
            Transport::Tcp => {
                assert(!same_ignoring_case(t, "udp"@)) by {
                    assert(ascii_lower(t[0]) != ascii_lower("udp"@[0]));
                }
            },
            Transport::Tls => {
                assert(!same_ignoring_case(t, "udp"@)) by {
                    assert(ascii_lower(t[0]) != ascii_lower("udp"@[0]));
                }
                assert(!same_ignoring_case(t, "tcp"@)) by {
                    assert(ascii_lower(t[1]) != ascii_lower("tcp"@[1]));
                }
            },
            Transport::Sctp => {},
            Transport::TlsSctp => {},
            Transport::Ws => {},
            Transport::Wss => {
                assert(!same_ignoring_case(t, "udp"@)) by {
                    assert(ascii_lower(t[0]) != ascii_lower("udp"@[0]));
                }
                assert(!same_ignoring_case(t, "tcp"@)) by {
                    assert(ascii_lower(t[0]) != ascii_lower("tcp"@[0]));
                }
                assert(!same_ignoring_case(t, "tls"@)) by {
                    assert(ascii_lower(t[0]) != ascii_lower("tls"@[0]));
                }
            },
        }
    }
}

/// Whether `t` occurs in `list`.
pub fn contains_transport(list: &Vec<Transport>, t: Transport) -> (r: bool)
    ensures
        r == list@.contains(t),
{
    let mut i: usize = 0;
    while i < list.len()
        invariant
            i <= list.len(),
            forall|j: int| 0 <= j < i ==> list@[j] != t,
        decreases list.len() - i,
    {
        if list[i] == t {
            return true;
        }
        i += 1;
    }
    false
}

/// The transports that the caller is able to speak.
#[derive(Debug, PartialEq, Eq)]
pub enum SupportedTransports {
    Any,
    Only(Vec<Transport>),
}

impl View for SupportedTransports {
    type V = Seq<Transport>;

    /// The supported transports, in the order in which they are tried.
    open spec fn view(&self) -> Seq<Transport> {
        match self {
            SupportedTransports::Any => Transport::spec_all(),
            SupportedTransports::Only(list) => list@,
        }
    }
}

impl Clone for SupportedTransports {
    fn clone(&self) -> (r: Self)
        ensures
            r@ == self@,
    {
        match self {
            SupportedTransports::Any => SupportedTransports::Any,
            SupportedTransports::Only(list) => SupportedTransports::Only(list.clone()),
        }
    }
}

impl SupportedTransports {
    pub fn any() -> (r: SupportedTransports)
        ensures
            r == SupportedTransports::Any,
    {
        SupportedTransports::Any
    }

    pub fn only(transports: Vec<Transport>) -> (r: SupportedTransports)
        ensures
            r == SupportedTransports::Only(transports),
    {
        SupportedTransports::Only(transports)
    }

    pub fn contains(&self, t: Transport) -> (r: bool)
        ensures
            r == self@.contains(t),
    {
        match self {
            SupportedTransports::Any => {
                proof {
                    let all = Transport::spec_all();
                    let i: int = match t {
                        Transport::Udp => 0,
                        Transport::Tcp => 1,
                        Transport::Tls => 2,
                        Transport::Sctp => 3,
                        Transport::TlsSctp => 4,
                        Transport::Ws => 5,
                        Transport::Wss => 6,
                    };
                    assert(all[i] == t);
                }
                true
            },
            SupportedTransports::Only(list) => contains_transport(list, t),
        }
    }

    pub fn to_vec(&self) -> (r: Vec<Transport>)
        ensures
            r@ == self@,
    {
        match self {
            SupportedTransports::Any => Transport::all(),
            SupportedTransports::Only(list) => list.clone(),
        }
    }
}

} // verus!
