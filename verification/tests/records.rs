use rsip_dns::records::naptr_record::sort_entries as sort_naptr_entries;
use rsip_dns::records::srv_record::sort_entries as sort_srv_entries;
use rsip_dns::text::{bytes_eq_ignore_ascii_case, eq_ignore_ascii_case, to_ascii_lower};
use rsip_dns::transport::contains_transport;
use rsip_dns::{
    AddrRecord, Error, IpAddr, NaptrEntry, NaptrFlags, NaptrRecord, NaptrServices, SocketAddr,
    SrvDomain, SrvEntry, SrvRecord, SupportedTransports, Target, Transport, DEFAULT_TTL,
};

fn srv_entry(priority: u16, weight: u16, port: u16, target: &str) -> SrvEntry {
    SrvEntry { priority, weight, port, target: target.to_string() }
}

fn naptr_entry(order: u16, preference: u16, replacement: &str) -> NaptrEntry {
    NaptrEntry {
        order,
        preference,
        flags: NaptrFlags::S,
        services: NaptrServices::SipD2u,
        regexp: vec![],
        replacement: replacement.to_string(),
    }
}

fn addr_record(domain: &str, last: u8, ttl: u32) -> AddrRecord {
    AddrRecord { ip_addrs: vec![IpAddr::V4([10, 0, 0, last])], domain: domain.to_string(), ttl }
}

fn srv_domain() -> SrvDomain {
    SrvDomain::new(false, Transport::Udp, "example.com".to_string())
}

#[test]
fn target_defaults_and_socket_addr() {
    assert_eq!(DEFAULT_TTL, 300);
    let ip_addr = IpAddr::V4([192, 0, 2, 1]);
    let target = Target::new(ip_addr, 5060, Transport::Udp);
    assert_eq!(target, Target { ip_addr, port: 5060, transport: Transport::Udp, ttl: 300 });
    let target = Target::new_with_ttl(ip_addr, 5061, Transport::Tls, 17);
    assert_eq!(target, Target { ip_addr, port: 5061, transport: Transport::Tls, ttl: 17 });
    assert_eq!(target.socket_addr(), SocketAddr { ip: ip_addr, port: 5061 });
}

#[test]
fn transport_defaults() {
    assert_eq!(
        Transport::all(),
        vec![
            Transport::Udp,
            Transport::Tcp,
            Transport::Tls,
            Transport::Sctp,
            Transport::TlsSctp,
            Transport::Ws,
            Transport::Wss
        ]
    );
    assert_eq!(Transport::default_secure_transport(), Transport::Tls);
    assert_eq!(Transport::default_insecure_transport(), Transport::Udp);
    assert_eq!(Transport::default_for(true), Transport::Tls);
    assert_eq!(Transport::default_for(false), Transport::Udp);
    let ports: Vec<u16> = Transport::all().iter().map(|t| t.default_port()).collect();
    assert_eq!(ports, vec![5060, 5060, 5061, 5060, 5061, 5060, 5061]);
    let secure: Vec<bool> = Transport::all().iter().map(|t| t.is_secure()).collect();
    assert_eq!(secure, vec![false, false, true, false, true, false, true]);
    let protocols: Vec<Transport> = Transport::all().iter().map(|t| t.protocol()).collect();
    assert_eq!(
        protocols,
        vec![
            Transport::Udp,
            Transport::Tcp,
            Transport::Tcp,
            Transport::Sctp,
            Transport::Sctp,
            Transport::Ws,
            Transport::Ws
        ]
    );
    assert_eq!(Transport::Tcp.secured(true), Transport::Tls);
    assert_eq!(Transport::Sctp.secured(true), Transport::TlsSctp);
    assert_eq!(Transport::Ws.secured(true), Transport::Wss);
    assert_eq!(Transport::Udp.secured(true), Transport::Udp);
    assert_eq!(Transport::Tcp.secured(false), Transport::Tcp);
    assert_eq!(Transport::Tls.secured(false), Transport::Tls);
}

#[test]
fn transport_tokens() {
    let tokens: Vec<&str> = Transport::all().iter().map(|t| t.token()).collect();
    assert_eq!(tokens, vec!["udp", "tcp", "tls", "sctp", "tls-sctp", "ws", "wss"]);
    for transport in Transport::all() {
        assert_eq!(Transport::from_token(transport.token()), Some(transport));
    }
    assert_eq!(Transport::from_token("TCP"), Some(Transport::Tcp));
    assert_eq!(Transport::from_token("Tls-Sctp"), Some(Transport::TlsSctp));
    assert_eq!(Transport::from_token("tc"), None);
    assert_eq!(Transport::from_token("tcpp"), None);
    assert_eq!(Transport::from_token(""), None);
}

#[test]
fn supported_transports() {
    assert!(SupportedTransports::any().contains(Transport::Wss));
    let only = SupportedTransports::only(vec![Transport::Tcp, Transport::Udp]);
    assert!(only.contains(Transport::Udp));
    assert!(!only.contains(Transport::Tls));
    assert_eq!(only.to_vec(), vec![Transport::Tcp, Transport::Udp]);
    assert_eq!(SupportedTransports::any().to_vec(), Transport::all());
    assert!(contains_transport(&vec![Transport::Ws], Transport::Ws));
    assert!(!contains_transport(&vec![], Transport::Ws));
}

#[test]
fn ascii_case() {
    assert_eq!(to_ascii_lower('A'), 'a');
    assert_eq!(to_ascii_lower('Z'), 'z');
    assert_eq!(to_ascii_lower('a'), 'a');
    assert_eq!(to_ascii_lower('['), '[');
    assert_eq!(to_ascii_lower('@'), '@');
    assert_eq!(to_ascii_lower('É'), 'É');
    assert!(eq_ignore_ascii_case("SiP+d2T", "sip+D2t"));
    assert!(!eq_ignore_ascii_case("sip", "sips"));
    assert!(!eq_ignore_ascii_case("sip", "sit"));
    assert!(bytes_eq_ignore_ascii_case(b"SIPS+D2T", "sips+d2t"));
    assert!(!bytes_eq_ignore_ascii_case(b"sips+d2", "sips+d2t"));
    assert!(!bytes_eq_ignore_ascii_case(&[0xc3, 0x89], "É"));
    assert!(bytes_eq_ignore_ascii_case(&[], ""));
}

#[test]
fn srv_domain_is_written_as_a_dns_name() {
    assert_eq!(
        SrvDomain::new(true, Transport::Tcp, "example.com".to_string()).to_string(),
        "_sips._tcp.example.com"
    );
    assert_eq!(
        SrvDomain::new(false, Transport::Udp, "example.com".to_string()).to_string(),
        "_sip._udp.example.com"
    );
    assert_eq!(
        SrvDomain::new(false, Transport::Sctp, "a.b".to_string()).to_string(),
        "_sip._sctp.a.b"
    );
    assert_eq!(SrvDomain::new(true, Transport::Ws, "a".to_string()).to_string(), "_sips._ws.a");
    assert_eq!(SrvDomain::new(true, Transport::Tls, "a".to_string()).to_string(), "_sips._tls.a");
    assert_eq!(SrvDomain::new(true, Transport::Wss, "a".to_string()).to_string(), "_sips._wss.a");
    assert_eq!(
        SrvDomain::new(false, Transport::TlsSctp, "a".to_string()).to_string(),
        "_sip._tls-sctp.a"
    );
}

#[test]
fn srv_domain_is_read_from_a_dns_name() {
    assert_eq!(
        SrvDomain::try_from("_sips._tcp.example.com"),
        Ok(SrvDomain { domain: "example.com".to_string(), protocol: Transport::Tcp, secure: true })
    );
    assert_eq!(
        SrvDomain::try_from("_sip._udp.example.com."),
        Ok(SrvDomain { domain: "example.com.".to_string(), protocol: Transport::Udp, secure: false })
    );
    assert_eq!(
        SrvDomain::try_from("_SIP._TLS-sctp.x"),
        Ok(SrvDomain { domain: "x".to_string(), protocol: Transport::TlsSctp, secure: false })
    );
    assert_eq!(
        SrvDomain::try_from("_sip._ws."),
        Ok(SrvDomain { domain: "".to_string(), protocol: Transport::Ws, secure: false })
    );
    for name in [
        "",
        "example.com",
        "_sip",
        "_sip._udp",
        "_sip.udp.example.com",
        "sip._udp.example.com",
        "_sipx._udp.example.com",
        "_sip._xyz.example.com",
        "_sip._.example.com",
        "_sip..example.com",
        "._sip._udp.example.com",
    ] {
        assert_eq!(SrvDomain::try_from(name), Err(Error::ConversionFailure), "{}", name);
    }
}

#[test]
fn srv_domain_round_trip() {
    for secure in [false, true] {
        for protocol in Transport::all() {
            for domain in ["example.com", "a.b.c.", "x", ""] {
                let srv = SrvDomain::new(secure, protocol, domain.to_string());
                assert_eq!(SrvDomain::try_from(srv.to_string().as_str()), Ok(srv.clone()));
            }
        }
    }
}

#[test]
fn srv_domain_transport() {
    let of = |secure, protocol| SrvDomain::new(secure, protocol, "d".to_string()).transport();
    assert_eq!(of(true, Transport::Tcp), Transport::Tls);
    assert_eq!(of(true, Transport::Sctp), Transport::TlsSctp);
    assert_eq!(of(true, Transport::Ws), Transport::Wss);
    assert_eq!(of(true, Transport::Udp), Transport::Udp);
    assert_eq!(of(false, Transport::Tcp), Transport::Tcp);
    assert_eq!(of(false, Transport::Tls), Transport::Tls);
    let a = SrvDomain::new(true, Transport::Tcp, "d".to_string());
    assert!(a.same(&a.clone()));
    assert!(!a.same(&SrvDomain::new(false, Transport::Tcp, "d".to_string())));
    assert!(!a.same(&SrvDomain::new(true, Transport::Udp, "d".to_string())));
    assert!(!a.same(&SrvDomain::new(true, Transport::Tcp, "e".to_string())));
}

#[test]
fn srv_total_weight() {
    assert_eq!(srv_entry(10, 5, 1, "a").total_weight(), 9995);
    assert_eq!(srv_entry(10, 50, 1, "a").total_weight(), 10040);
    assert_eq!(srv_entry(20, 100, 1, "a").total_weight(), 10080);
    assert_eq!(srv_entry(0, 0, 1, "a").total_weight(), 10000);
    assert_eq!(srv_entry(65535, 0, 1, "a").total_weight(), -55535);
    assert_eq!(srv_entry(0, 65535, 1, "a").total_weight(), 75535);
}

#[test]
fn srv_sorted_by_falling_total_weight() {
    let record = SrvRecord::new(
        vec![srv_entry(10, 5, 1, "a"), srv_entry(10, 50, 2, "b"), srv_entry(20, 100, 3, "c")],
        srv_domain(),
        60,
    )
    .sorted();
    let order: Vec<(u16, u16)> = record.entries.iter().map(|e| (e.priority, e.weight)).collect();
    assert_eq!(order, vec![(20, 100), (10, 50), (10, 5)]);
    assert_eq!(record.ttl, 60);
    assert_eq!(record.domain, srv_domain());
}

#[test]
fn srv_sorted_keeps_the_order_of_equal_weights() {
    let entries = vec![
        srv_entry(1, 2, 1, "first"),
        srv_entry(3, 4, 2, "second"),
        srv_entry(0, 0, 3, "low"),
        srv_entry(2, 3, 4, "third"),
        srv_entry(0, 9, 5, "high"),
    ];
    let targets: Vec<String> = sort_srv_entries(&entries).into_iter().map(|e| e.target).collect();
    assert_eq!(targets, vec!["high", "first", "second", "third", "low"]);
    assert_eq!(sort_srv_entries(&vec![]), vec![]);
}

#[test]
fn srv_record_accessors() {
    let record = SrvRecord::with_additional_hosts(
        vec![srv_entry(1, 1, 5060, "a.example"), srv_entry(1, 1, 5061, "b.example")],
        SrvDomain::new(true, Transport::Tcp, "example.com".to_string()),
        60,
        vec![addr_record("b.example", 2, 10), addr_record("b.example", 3, 20)],
    );
    assert_eq!(record.targets(), vec!["a.example".to_string(), "b.example".to_string()]);
    assert_eq!(
        record.domains_with_ports(),
        vec![("a.example".to_string(), 5060), ("b.example".to_string(), 5061)]
    );
    assert_eq!(record.transport(), Transport::Tls);
    assert_eq!(record.get_additional_for_target(&"a.example".to_string()), None);
    assert_eq!(
        record.get_additional_for_target(&"b.example".to_string()),
        Some(&addr_record("b.example", 2, 10))
    );
    assert!(!record.has_complete_additionals());
    assert_eq!(record.additional_covered(), 1);
    assert_eq!(record.clone(), record);
    assert_eq!(record.into_entries().len(), 2);

    let bare = SrvRecord::new(vec![], srv_domain(), 1);
    assert!(bare.additional_hosts.is_empty());
    assert!(bare.has_complete_additionals());
    assert_eq!(bare.additional_covered(), 0);

    let full = SrvRecord::with_additional_hosts(
        vec![srv_entry(1, 1, 5060, "a.example")],
        srv_domain(),
        60,
        vec![addr_record("a.example", 1, 10)],
    );
    assert!(full.has_complete_additionals());
    assert_eq!(full.additional_covered(), 1);
}

#[test]
fn naptr_sorted_by_order_then_preference() {
    let record = NaptrRecord::new(
        vec![naptr_entry(50, 10, "a"), naptr_entry(10, 99, "b"), naptr_entry(10, 1, "c")],
        "example.com".to_string(),
        60,
    )
    .sorted();
    let order: Vec<(u16, u16)> = record.entries.iter().map(|e| (e.order, e.preference)).collect();
    assert_eq!(order, vec![(10, 1), (10, 99), (50, 10)]);
}

#[test]
fn naptr_sorted_keeps_the_order_of_equal_ranks() {
    let entries = vec![
        naptr_entry(2, 2, "first"),
        naptr_entry(65535, 65535, "last"),
        naptr_entry(2, 2, "second"),
        naptr_entry(0, 65535, "early"),
        naptr_entry(1, 0, "next"),
        naptr_entry(2, 2, "third"),
    ];
    let names: Vec<String> =
        sort_naptr_entries(&entries).into_iter().map(|e| e.replacement).collect();
    assert_eq!(names, vec!["early", "next", "first", "second", "third", "last"]);
    assert_eq!(naptr_entry(1, 2, "x").rank(), 65538);
}

#[test]
fn naptr_flags_from_bytes() {
    assert_eq!(NaptrFlags::from_bytes(b"s"), NaptrFlags::S);
    assert_eq!(NaptrFlags::from_bytes(b"S"), NaptrFlags::S);
    assert_eq!(NaptrFlags::from_bytes(b"a"), NaptrFlags::A);
    assert_eq!(NaptrFlags::from_bytes(b"U"), NaptrFlags::U);
    assert_eq!(NaptrFlags::from_bytes(b"p"), NaptrFlags::P);
    assert_eq!(NaptrFlags::from_bytes(b""), NaptrFlags::Other(vec![]));
    assert_eq!(NaptrFlags::from_bytes(b"ss"), NaptrFlags::Other(b"ss".to_vec()));
    assert_eq!(NaptrFlags::from_bytes(&[0xff]), NaptrFlags::Other(vec![0xff]));
    assert!(NaptrFlags::S.is_s());
    assert!(!NaptrFlags::A.is_s());
    assert!(!NaptrFlags::Other(b"s".to_vec()).is_s());
}

#[test]
fn naptr_services_from_bytes() {
    assert_eq!(NaptrServices::from_bytes(b"sip+d2t"), NaptrServices::SipD2t);
    assert_eq!(NaptrServices::from_bytes(b"SIP+D2U"), NaptrServices::SipD2u);
    assert_eq!(NaptrServices::from_bytes(b"sip+d2s"), NaptrServices::SipD2s);
    assert_eq!(NaptrServices::from_bytes(b"sip+d2w"), NaptrServices::SipD2w);
    assert_eq!(NaptrServices::from_bytes(b"SIPS+D2T"), NaptrServices::SipsD2t);
    assert_eq!(NaptrServices::from_bytes(b"sips+d2u"), NaptrServices::SipsD2u);
    assert_eq!(NaptrServices::from_bytes(b"sips+d2s"), NaptrServices::SipsD2s);
    assert_eq!(NaptrServices::from_bytes(b"sips+d2w"), NaptrServices::SipsD2w);
    assert_eq!(NaptrServices::from_bytes(b"E2U+sip"), NaptrServices::Other("E2U+sip".to_string()));
    assert_eq!(
        NaptrServices::from_bytes(&[b'x', 0xff, b'y']),
        NaptrServices::Other("x\u{fffd}y".to_string())
    );
}

#[test]
fn naptr_services_transport() {
    assert_eq!(NaptrServices::SipD2t.transport(), Some(Transport::Tcp));
    assert_eq!(NaptrServices::SipD2u.transport(), Some(Transport::Udp));
    assert_eq!(NaptrServices::SipD2s.transport(), Some(Transport::Sctp));
    assert_eq!(NaptrServices::SipD2w.transport(), Some(Transport::Ws));
    assert_eq!(NaptrServices::SipsD2t.transport(), Some(Transport::Tls));
    assert_eq!(NaptrServices::SipsD2u.transport(), Some(Transport::Udp));
    assert_eq!(NaptrServices::SipsD2s.transport(), Some(Transport::TlsSctp));
    assert_eq!(NaptrServices::SipsD2w.transport(), Some(Transport::Wss));
    assert_eq!(NaptrServices::Other("x".to_string()).transport(), None);
}

#[test]
fn naptr_record_accessors() {
    let tcp = SrvDomain::new(false, Transport::Tcp, "example.com".to_string());
    let udp = SrvDomain::new(false, Transport::Udp, "example.com".to_string());
    let record = NaptrRecord::with_additional_srvs(
        vec![naptr_entry(1, 1, "_sip._udp.example.com")],
        "example.com".to_string(),
        60,
        vec![SrvRecord::new(vec![], udp.clone(), 1), SrvRecord::new(vec![], udp.clone(), 2)],
    );
    assert_eq!(record.get_additional_srv(&tcp), None);
    assert_eq!(record.get_additional_srv(&udp).map(|srv| srv.ttl), Some(1));
    assert_eq!(record.entries[0].srv_domain(), Ok(udp));
    assert_eq!(naptr_entry(1, 1, "example.com").srv_domain(), Err(Error::ConversionFailure));
    assert_eq!(record.clone(), record);
    assert!(NaptrRecord::new(vec![], "d".to_string(), 1).additional_srvs.is_empty());
}

#[test]
fn srv_entry_sample() {
    assert_eq!(
        SrvEntry::sample(false, Transport::Sctp, 3, 40, 5062, "example.com"),
        srv_entry_with_weight(3, 40, 5062, "_sip._sctp.example.com")
    );
    assert_eq!(
        SrvEntry::sample(true, Transport::Udp, 9, 99, 1001, "a.b"),
        srv_entry_with_weight(9, 99, 1001, "_sip._tls.a.b")
    );
}

fn srv_entry_with_weight(priority: u16, weight: u16, port: u16, target: &str) -> SrvEntry {
    SrvEntry { priority, weight, port, target: target.to_string() }
}

/// A small generator of numbers that look random and are the same on every run.
struct Numbers(u64);

impl Numbers {
    fn next(&mut self, below: u64) -> u64 {
        self.0 = self.0.wrapping_mul(6364136223846793005).wrapping_add(1442695040888963407);
        (self.0 >> 33) % below
    }
}

#[test]
fn srv_sorting_agrees_with_a_stable_sort_by_falling_weight() {
    let mut numbers = Numbers(7);
    for round in 0..200 {
        let len = numbers.next(12) as usize;
        let entries: Vec<SrvEntry> = (0..len)
            .map(|i| SrvEntry {
                priority: numbers.next(4) as u16 * if round % 2 == 0 { 1 } else { 20000 },
                weight: numbers.next(4) as u16 * if round % 3 == 0 { 1 } else { 20000 },
                port: i as u16,
                target: format!("host{}", i),
            })
            .collect();
        let mut expected = entries.clone();
        expected.sort_by_key(|e| std::cmp::Reverse(10000 - e.priority as i32 + e.weight as i32));
        assert_eq!(sort_srv_entries(&entries), expected);
    }
}

#[test]
fn naptr_sorting_agrees_with_a_stable_sort_by_order_and_preference() {
    let mut numbers = Numbers(11);
    for _ in 0..200 {
        let len = numbers.next(12) as usize;
        let entries: Vec<NaptrEntry> = (0..len)
            .map(|i| {
                let order = numbers.next(3) as u16 * 30000;
                let preference = numbers.next(3) as u16 * 30000;
                naptr_entry(order, preference, &format!("r{}", i))
            })
            .collect();
        let mut expected = entries.clone();
        expected.sort_by_key(|e| (e.order, e.preference));
        assert_eq!(sort_naptr_entries(&entries), expected);
    }
}
