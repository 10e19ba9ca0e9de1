use rsip_dns::resolvables::resolvable_addr_record::ResolvableAddrRecord;
use rsip_dns::resolvables::resolvable_ip_addr::ResolvableIpAddr;
use rsip_dns::resolvables::resolvable_naptr_record::ResolvableNaptrRecord;
use rsip_dns::resolvables::resolvable_srv_record::ResolvableSrvRecord;
use rsip_dns::resolvables::resolvable_vec::ResolvableVec;
use rsip_dns::{
    AddrRecord, Answer, IpAddr, NaptrEntry, NaptrFlags, NaptrRecord, NaptrServices, Query,
    ResolvableExt, ResolvableState, SrvDomain, SrvEntry, SrvRecord, Step, Target, Transport,
};

/// A DNS that answers from tables and remembers what it was asked.
struct Dns {
    naptr: Vec<(String, NaptrRecord)>,
    srv: Vec<(String, SrvRecord)>,
    addr: Vec<(String, AddrRecord)>,
    asked: Vec<Query>,
}

impl Dns {
    fn new() -> Dns {
        Dns { naptr: vec![], srv: vec![], addr: vec![], asked: vec![] }
    }

    fn answer(&mut self, query: Query) -> Answer {
        self.asked.push(query.clone());
        match query {
            Query::Naptr(domain) => Answer::Naptr(
                self.naptr.iter().find(|(name, _)| *name == domain).map(|(_, r)| r.clone()),
            ),
            Query::Srv(domain) => Answer::Srv(
                self.srv
                    .iter()
                    .find(|(name, _)| *name == domain.to_string())
                    .map(|(_, r)| r.clone()),
            ),
            Query::Addr(domain) => Answer::Addr(
                self.addr.iter().find(|(name, _)| *name == domain).map(|(_, r)| r.clone()),
            ),
        }
    }
}

/// Drives `resolvable` to its next target, making the lookups it asks for.
fn next_target<R: ResolvableExt>(resolvable: &mut R, dns: &mut Dns) -> Option<Target> {
    loop {
        match resolvable.resolve_next() {
            Step::Target(target) => return Some(target),
            Step::Done => return None,
            Step::Lookup(query) => {
                let answer = dns.answer(query);
                resolvable.deliver(answer);
            },
        }
    }
}

fn v4(a: u8, b: u8, c: u8, d: u8) -> IpAddr {
    IpAddr::V4([a, b, c, d])
}

fn addr_record(domain: &str, ip_addrs: Vec<IpAddr>, ttl: u32) -> AddrRecord {
    AddrRecord { ip_addrs, domain: domain.to_string(), ttl }
}

fn srv_entry(priority: u16, weight: u16, port: u16, target: &str) -> SrvEntry {
    SrvEntry { priority, weight, port, target: target.to_string() }
}

fn naptr_entry(order: u16, preference: u16, services: NaptrServices, replacement: &str) -> NaptrEntry {
    NaptrEntry {
        order,
        preference,
        flags: NaptrFlags::S,
        services,
        regexp: vec![],
        replacement: replacement.to_string(),
    }
}

#[test]
fn resolvable_ip_addr_resolves_correctly() {
    let ip_addr = v4(192, 0, 2, 7);
    let port = 5080;
    let transport = Transport::Tcp;

    let mut resolvable = ResolvableIpAddr::new(ip_addr, port, transport);
    assert_eq!(resolvable.state(), ResolvableState::NonEmpty);

    let target = match resolvable.resolve_next() {
        Step::Target(target) => Some(target),
        _ => None,
    };
    assert!(target.is_some());
    let target = target.unwrap();
    assert_eq!(target.ip_addr, ip_addr);
    assert_eq!(target.port, port);
    assert_eq!(target.transport, transport);
    assert_eq!(target.ttl, 300);

    assert_eq!(resolvable.resolve_next(), Step::Done);
    assert_eq!(resolvable.state(), ResolvableState::Empty);
}

#[test]
fn resolvable_ip_addr_resolves_with_custom_ttl() {
    let ip_addr = IpAddr::V6([0x20, 0x01, 0x0d, 0xb8, 0, 0, 0, 0, 0, 0, 0, 0, 0, 0, 0, 1]);
    let port = 5061;
    let transport = Transport::Tls;
    let custom_ttl = 600u32;

    let mut resolvable = ResolvableIpAddr::new_with_ttl(ip_addr, port, transport, custom_ttl);

    let target = match resolvable.resolve_next() {
        Step::Target(target) => Some(target),
        _ => None,
    };
    assert!(target.is_some());
    let target = target.unwrap();
    assert_eq!(target.ip_addr, ip_addr);
    assert_eq!(target.port, port);
    assert_eq!(target.transport, transport);
    assert_eq!(target.ttl, custom_ttl);

    assert_eq!(resolvable.resolve_next(), Step::Done);
}

#[test]
fn ip_addr_ignores_answers_and_stays_exhausted() {
    let mut resolvable = ResolvableIpAddr::new(v4(10, 0, 0, 1), 5060, Transport::Udp);
    resolvable.deliver(Answer::Addr(Some(addr_record("x.example", vec![v4(1, 1, 1, 1)], 5))));
    assert_eq!(
        resolvable.resolve_next(),
        Step::Target(Target {
            ip_addr: v4(10, 0, 0, 1),
            port: 5060,
            transport: Transport::Udp,
            ttl: 300
        })
    );
    for _ in 0..3 {
        assert_eq!(resolvable.resolve_next(), Step::Done);
        resolvable.deliver(Answer::Addr(Some(addr_record("x.example", vec![v4(1, 1, 1, 1)], 5))));
    }
}

#[test]
fn vec_drains_children_left_to_right() {
    let unset: ResolvableVec<ResolvableIpAddr> = ResolvableVec::unset();
    assert!(unset.is_unset());
    assert_eq!(unset.state(), ResolvableState::Unset);

    let mut empty: ResolvableVec<ResolvableIpAddr> = ResolvableVec::empty();
    assert_eq!(empty.state(), ResolvableState::Empty);
    assert_eq!(empty.resolve_next(), Step::Done);

    let mut row = ResolvableVec::non_empty(vec![
        ResolvableIpAddr::new(v4(10, 0, 0, 1), 1, Transport::Udp),
        ResolvableIpAddr::new(v4(10, 0, 0, 2), 2, Transport::Tcp),
        ResolvableIpAddr::new(v4(10, 0, 0, 3), 3, Transport::Tls),
    ]);
    assert_eq!(row.state(), ResolvableState::NonEmpty);
    let mut ports = vec![];
    while let Step::Target(target) = row.resolve_next() {
        ports.push(target.port);
    }
    assert_eq!(ports, vec![1, 2, 3]);
    assert_eq!(row.state(), ResolvableState::Empty);
    assert_eq!(row.resolve_next(), Step::Done);
}

#[test]
fn unset_vec_yields_nothing() {
    let mut unset: ResolvableVec<ResolvableIpAddr> = ResolvableVec::unset();
    assert_eq!(unset.resolve_next(), Step::Done);
    unset.deliver(Answer::Addr(None));
    assert!(unset.is_unset());
}

#[test]
fn addr_record_asks_once_then_hands_out_in_order() {
    let mut dns = Dns::new();
    dns.addr.push((
        "example.com".to_string(),
        addr_record("example.com", vec![v4(198, 51, 100, 1), v4(198, 51, 100, 2)], 120),
    ));
    let mut resolvable = ResolvableAddrRecord::new("example.com".to_string(), 5060, Transport::Udp);
    assert_eq!(resolvable.state(), ResolvableState::Unset);
    assert_eq!(resolvable.resolve_next(), Step::Lookup(Query::Addr("example.com".to_string())));
    // unanswered, the lookup is asked for again
    assert_eq!(resolvable.resolve_next(), Step::Lookup(Query::Addr("example.com".to_string())));

    let first = next_target(&mut resolvable, &mut dns).unwrap();
    assert_eq!(first, Target { ip_addr: v4(198, 51, 100, 1), port: 5060, transport: Transport::Udp, ttl: 120 });
    assert_eq!(resolvable.state(), ResolvableState::NonEmpty);
    let second = next_target(&mut resolvable, &mut dns).unwrap();
    assert_eq!(second, Target { ip_addr: v4(198, 51, 100, 2), port: 5060, transport: Transport::Udp, ttl: 120 });
    assert_eq!(next_target(&mut resolvable, &mut dns), None);
    assert_eq!(next_target(&mut resolvable, &mut dns), None);
    assert_eq!(resolvable.state(), ResolvableState::Empty);
    assert_eq!(dns.asked.len(), 1);
}

#[test]
fn addr_record_failed_lookup_is_empty() {
    let mut dns = Dns::new();
    let mut resolvable = ResolvableAddrRecord::new("nowhere.example".to_string(), 5060, Transport::Udp);
    assert_eq!(next_target(&mut resolvable, &mut dns), None);
    assert_eq!(resolvable.state(), ResolvableState::Empty);
    assert_eq!(next_target(&mut resolvable, &mut dns), None);
    assert_eq!(dns.asked, vec![Query::Addr("nowhere.example".to_string())]);
}

#[test]
fn addr_record_ignores_an_answer_of_another_kind() {
    let mut resolvable = ResolvableAddrRecord::new("example.com".to_string(), 5060, Transport::Udp);
    resolvable.deliver(Answer::Srv(None));
    assert_eq!(resolvable.state(), ResolvableState::Unset);
    assert_eq!(resolvable.resolve_next(), Step::Lookup(Query::Addr("example.com".to_string())));
}

#[test]
fn addr_record_from_resolvable_ip_needs_no_lookup() {
    let mut dns = Dns::new();
    let ip = ResolvableIpAddr::new_with_ttl(v4(203, 0, 113, 5), 5070, Transport::Tcp, 77);
    let mut resolvable =
        ResolvableAddrRecord::from_resolvable_ip("h.example".to_string(), 5070, Transport::Tcp, ip);
    assert_eq!(resolvable.state(), ResolvableState::NonEmpty);
    assert_eq!(
        next_target(&mut resolvable, &mut dns),
        Some(Target { ip_addr: v4(203, 0, 113, 5), port: 5070, transport: Transport::Tcp, ttl: 77 })
    );
    assert_eq!(next_target(&mut resolvable, &mut dns), None);
    assert!(dns.asked.is_empty());
}

fn two_host_dns() -> (Dns, SrvRecord, Vec<Vec<IpAddr>>) {
    let domain = SrvDomain::new(false, Transport::Tcp, "example.com".to_string());
    let record = SrvRecord::new(
        vec![srv_entry(1, 2, 5062, "one.example.com"), srv_entry(3, 4, 5063, "two.example.com")],
        domain.clone(),
        300,
    );
    let ips = vec![
        vec![v4(192, 0, 2, 1), v4(192, 0, 2, 2)],
        vec![v4(192, 0, 2, 3), v4(192, 0, 2, 4)],
    ];
    let mut dns = Dns::new();
    dns.srv.push((domain.to_string(), record.clone()));
    dns.addr.push(("one.example.com".to_string(), addr_record("one.example.com", ips[0].clone(), 300)));
    dns.addr.push(("two.example.com".to_string(), addr_record("two.example.com", ips[1].clone(), 300)));
    (dns, record, ips)
}

#[test]
fn resolvable_srv_record_resolves_correctly() {
    let (mut dns, record, ips) = two_host_dns();
    let mut resolvable = ResolvableSrvRecord::new(record.domain.clone());

    let target1 = next_target(&mut resolvable, &mut dns);
    assert_eq!(target1.as_ref().map(|t| t.ip_addr), ips[0].first().cloned());
    assert_eq!(target1.unwrap().ttl, 300);

    let target2 = next_target(&mut resolvable, &mut dns);
    assert_eq!(target2.as_ref().map(|t| t.ip_addr), ips[0].last().cloned());
    assert_eq!(target2.unwrap().ttl, 300);

    let target3 = next_target(&mut resolvable, &mut dns);
    assert_eq!(target3.as_ref().map(|t| t.ip_addr), ips[1].first().cloned());
    assert_eq!(target3.unwrap().ttl, 300);

    let target4 = next_target(&mut resolvable, &mut dns);
    assert_eq!(target4.as_ref().map(|t| t.ip_addr), ips[1].last().cloned());
    assert_eq!(target4.unwrap().ttl, 300);
    assert!(next_target(&mut resolvable, &mut dns).is_none());
}

#[test]
fn resolvable_srv_record_resolves_with_custom_ttl() {
    let domain = SrvDomain { domain: "example.com".to_string(), protocol: Transport::Tcp, secure: false };
    let mut dns = Dns::new();
    dns.srv.push((
        domain.to_string(),
        SrvRecord::new(vec![srv_entry(1, 2, 5060, "target1.example.com")], domain.clone(), 600),
    ));
    dns.addr.push((
        "target1.example.com".to_string(),
        addr_record("target1.example.com", vec![v4(192, 0, 2, 9)], 600),
    ));

    let mut resolvable = ResolvableSrvRecord::new(domain);

    let target = next_target(&mut resolvable, &mut dns);
    assert!(target.is_some());
    assert_eq!(target.unwrap().ttl, 600);

    assert!(next_target(&mut resolvable, &mut dns).is_none());
}

#[test]
fn srv_record_targets_carry_the_port_and_transport_of_the_record() {
    let domain = SrvDomain::new(true, Transport::Tcp, "example.com".to_string());
    let mut dns = Dns::new();
    dns.srv.push((
        "_sips._tcp.example.com".to_string(),
        SrvRecord::new(vec![srv_entry(100, 5, 10000, "tcp1.example.com")], domain.clone(), 400),
    ));
    dns.addr.push((
        "tcp1.example.com".to_string(),
        addr_record("tcp1.example.com", vec![v4(203, 0, 113, 10), v4(203, 0, 113, 11)], 300),
    ));
    let mut resolvable = ResolvableSrvRecord::new(domain);
    assert_eq!(
        next_target(&mut resolvable, &mut dns),
        Some(Target { ip_addr: v4(203, 0, 113, 10), port: 10000, transport: Transport::Tls, ttl: 300 })
    );
    assert_eq!(
        next_target(&mut resolvable, &mut dns),
        Some(Target { ip_addr: v4(203, 0, 113, 11), port: 10000, transport: Transport::Tls, ttl: 300 })
    );
    assert_eq!(next_target(&mut resolvable, &mut dns), None);
    assert_eq!(
        dns.asked,
        vec![
            Query::Srv(SrvDomain::new(true, Transport::Tcp, "example.com".to_string())),
            Query::Addr("tcp1.example.com".to_string())
        ]
    );
}

#[test]
fn srv_record_tries_the_heaviest_entry_first() {
    let domain = SrvDomain::new(false, Transport::Udp, "example.com".to_string());
    let mut dns = Dns::new();
    dns.srv.push((
        domain.to_string(),
        SrvRecord::new(
            vec![
                srv_entry(10, 5, 1, "a.example.com"),
                srv_entry(10, 50, 2, "b.example.com"),
                srv_entry(20, 100, 3, "c.example.com"),
            ],
            domain.clone(),
            60,
        ),
    ));
    for (i, host) in ["a.example.com", "b.example.com", "c.example.com"].iter().enumerate() {
        dns.addr.push((host.to_string(), addr_record(host, vec![v4(10, 0, 0, i as u8 + 1)], 60)));
    }
    let mut resolvable = ResolvableSrvRecord::new(domain);
    let mut ports = vec![];
    while let Some(target) = next_target(&mut resolvable, &mut dns) {
        ports.push(target.port);
    }
    assert_eq!(ports, vec![3, 2, 1]);
}

#[test]
fn srv_record_skips_a_host_without_addresses() {
    let domain = SrvDomain::new(false, Transport::Udp, "example.com".to_string());
    let mut dns = Dns::new();
    dns.srv.push((
        domain.to_string(),
        SrvRecord::new(
            vec![srv_entry(1, 0, 1, "dead.example.com"), srv_entry(2, 0, 2, "live.example.com")],
            domain.clone(),
            60,
        ),
    ));
    dns.addr.push(("live.example.com".to_string(), addr_record("live.example.com", vec![v4(10, 0, 0, 2)], 60)));
    let mut resolvable = ResolvableSrvRecord::new(domain);
    assert_eq!(next_target(&mut resolvable, &mut dns).map(|t| t.port), Some(2));
    assert_eq!(next_target(&mut resolvable, &mut dns), None);
    assert_eq!(dns.asked.len(), 3);
}

#[test]
fn srv_record_with_glue_makes_no_address_lookup() {
    let domain = SrvDomain::new(false, Transport::Tcp, "example.com".to_string());
    let record = SrvRecord::with_additional_hosts(
        vec![srv_entry(1, 0, 5060, "glued.example.com"), srv_entry(2, 0, 5061, "bare.example.com")],
        domain,
        900,
        vec![addr_record("glued.example.com", vec![v4(10, 1, 1, 1), v4(10, 1, 1, 2)], 42)],
    );
    let mut dns = Dns::new();
    dns.addr.push(("bare.example.com".to_string(), addr_record("bare.example.com", vec![v4(10, 2, 2, 2)], 17)));
    let mut resolvable = ResolvableSrvRecord::from_srv_record(record);
    assert_eq!(resolvable.state(), ResolvableState::NonEmpty);
    assert_eq!(
        next_target(&mut resolvable, &mut dns),
        Some(Target { ip_addr: v4(10, 1, 1, 1), port: 5060, transport: Transport::Tcp, ttl: 42 })
    );
    assert_eq!(
        next_target(&mut resolvable, &mut dns),
        Some(Target { ip_addr: v4(10, 1, 1, 2), port: 5060, transport: Transport::Tcp, ttl: 42 })
    );
    assert!(dns.asked.is_empty());
    assert_eq!(
        next_target(&mut resolvable, &mut dns),
        Some(Target { ip_addr: v4(10, 2, 2, 2), port: 5061, transport: Transport::Tcp, ttl: 17 })
    );
    assert_eq!(next_target(&mut resolvable, &mut dns), None);
    assert_eq!(dns.asked, vec![Query::Addr("bare.example.com".to_string())]);
}

#[test]
fn srv_record_absent_is_empty() {
    let mut dns = Dns::new();
    let mut resolvable =
        ResolvableSrvRecord::new(SrvDomain::new(false, Transport::Udp, "example.com".to_string()));
    assert_eq!(resolvable.state(), ResolvableState::Unset);
    assert_eq!(next_target(&mut resolvable, &mut dns), None);
    assert_eq!(resolvable.state(), ResolvableState::Empty);
    assert_eq!(next_target(&mut resolvable, &mut dns), None);
    assert_eq!(dns.asked.len(), 1);
}

#[test]
fn resolvable_naptr_record_resolves_correctly() {
    let (mut dns, srv_record, ips) = two_host_dns();
    let naptr = NaptrRecord {
        entries: vec![naptr_entry(50, 50, NaptrServices::SipD2t, "_sips._tcp.example.com.")],
        domain: "example.com".to_string(),
        ttl: 300,
        additional_srvs: vec![],
    };
    dns.naptr.push(("example.com".to_string(), naptr.clone()));
    let srv_domain = naptr.entries[0].srv_domain().unwrap();
    dns.srv.clear();
    dns.srv.push((
        srv_domain.to_string(),
        SrvRecord::new(srv_record.entries.clone(), srv_domain, 300),
    ));

    let mut resolvable =
        ResolvableNaptrRecord::new(naptr.domain.clone(), Transport::all());

    let target1 = next_target(&mut resolvable, &mut dns);
    assert_eq!(target1.as_ref().map(|t| t.ip_addr), ips[0].first().cloned());
    assert_eq!(target1.unwrap().ttl, 300);

    let target2 = next_target(&mut resolvable, &mut dns);
    assert_eq!(target2.as_ref().map(|t| t.ip_addr), ips[0].last().cloned());
    assert_eq!(target2.unwrap().ttl, 300);

    let target3 = next_target(&mut resolvable, &mut dns);
    assert_eq!(target3.as_ref().map(|t| t.ip_addr), ips[1].first().cloned());
    assert_eq!(target3.unwrap().ttl, 300);

    let target4 = next_target(&mut resolvable, &mut dns);
    assert_eq!(target4.as_ref().map(|t| t.ip_addr), ips[1].last().cloned());
    assert_eq!(target4.unwrap().ttl, 300);
    assert!(next_target(&mut resolvable, &mut dns).is_none());
}

#[test]
fn resolvable_naptr_record_resolves_with_custom_ttl() {
    let mut dns = Dns::new();
    dns.naptr.push((
        "example.com".to_string(),
        NaptrRecord {
            entries: vec![naptr_entry(50, 50, NaptrServices::SipD2t, "_sips._tcp.example.com.")],
            domain: "example.com".to_string(),
            ttl: 300,
            additional_srvs: vec![],
        },
    ));
    let srv_domain = SrvDomain::try_from("_sips._tcp.example.com.").unwrap();
    dns.srv.push((
        srv_domain.to_string(),
        SrvRecord::new(vec![srv_entry(1, 2, 5060, "target1.example.com")], srv_domain, 450),
    ));
    dns.addr.push((
        "target1.example.com".to_string(),
        addr_record("target1.example.com", vec![v4(192, 0, 2, 33)], 360),
    ));

    let mut resolvable =
        ResolvableNaptrRecord::new("example.com".to_string(), vec![Transport::Tcp]);

    let target = next_target(&mut resolvable, &mut dns);
    assert!(target.is_some());
    assert_eq!(target.unwrap().ttl, 360);

    assert!(next_target(&mut resolvable, &mut dns).is_none());
}

#[test]
fn naptr_record_follows_entries_by_order_then_preference() {
    let mut dns = Dns::new();
    dns.naptr.push((
        "example.com".to_string(),
        NaptrRecord::new(
            vec![
                naptr_entry(50, 10, NaptrServices::SipD2t, "_sip._tcp.c.example.com"),
                naptr_entry(10, 99, NaptrServices::SipD2u, "_sip._udp.b.example.com"),
                naptr_entry(10, 1, NaptrServices::SipD2s, "_sip._sctp.a.example.com"),
            ],
            "example.com".to_string(),
            300,
        ),
    ));
    let mut resolvable = ResolvableNaptrRecord::new("example.com".to_string(), Transport::all());
    assert_eq!(next_target(&mut resolvable, &mut dns), None);
    assert_eq!(
        dns.asked,
        vec![
            Query::Naptr("example.com".to_string()),
            Query::Srv(SrvDomain::new(false, Transport::Sctp, "a.example.com".to_string())),
            Query::Srv(SrvDomain::new(false, Transport::Udp, "b.example.com".to_string())),
            Query::Srv(SrvDomain::new(false, Transport::Tcp, "c.example.com".to_string())),
        ]
    );
}

#[test]
fn naptr_record_passes_over_what_it_cannot_follow() {
    let mut other_flag = naptr_entry(1, 1, NaptrServices::SipD2t, "_sip._tcp.u.example.com");
    other_flag.flags = NaptrFlags::U;
    let mut dns = Dns::new();
    dns.naptr.push((
        "example.com".to_string(),
        NaptrRecord::new(
            vec![
                other_flag,
                naptr_entry(2, 1, NaptrServices::SipD2u, "_sip._udp.unwanted.example.com"),
                naptr_entry(3, 1, NaptrServices::Other("x".to_string()), "_sip._tcp.o.example.com"),
                naptr_entry(4, 1, NaptrServices::SipD2t, "no.srv.name"),
                naptr_entry(5, 1, NaptrServices::SipD2t, "_sip._tcp.ok.example.com"),
            ],
            "example.com".to_string(),
            300,
        ),
    ));
    let mut resolvable =
        ResolvableNaptrRecord::new("example.com".to_string(), vec![Transport::Tcp]);
    assert_eq!(next_target(&mut resolvable, &mut dns), None);
    assert_eq!(
        dns.asked,
        vec![
            Query::Naptr("example.com".to_string()),
            Query::Srv(SrvDomain::new(false, Transport::Tcp, "ok.example.com".to_string())),
        ]
    );
}

#[test]
fn naptr_record_absent_is_empty() {
    let mut dns = Dns::new();
    let mut resolvable = ResolvableNaptrRecord::new("example.com".to_string(), Transport::all());
    assert_eq!(resolvable.state(), ResolvableState::Unset);
    assert_eq!(
        resolvable.resolve_next(),
        Step::Lookup(Query::Naptr("example.com".to_string()))
    );
    assert_eq!(next_target(&mut resolvable, &mut dns), None);
    assert_eq!(resolvable.state(), ResolvableState::Empty);
    assert_eq!(next_target(&mut resolvable, &mut dns), None);
    assert_eq!(dns.asked.len(), 1);
}

#[test]
fn naptr_record_with_full_glue_asks_once() {
    let srv_domain = SrvDomain::new(true, Transport::Tcp, "example.com".to_string());
    let srv = SrvRecord::with_additional_hosts(
        vec![srv_entry(100, 5, 10000, "tcp1.example.com")],
        srv_domain,
        400,
        vec![addr_record("tcp1.example.com", vec![v4(203, 0, 113, 10), v4(203, 0, 113, 11)], 300)],
    );
    let mut dns = Dns::new();
    dns.naptr.push((
        "example.com".to_string(),
        NaptrRecord::with_additional_srvs(
            vec![naptr_entry(50, 5, NaptrServices::SipsD2t, "_sips._tcp.example.com")],
            "example.com".to_string(),
            600,
            vec![srv],
        ),
    ));
    let mut resolvable =
        ResolvableNaptrRecord::new("example.com".to_string(), vec![Transport::Tls]);
    assert_eq!(
        next_target(&mut resolvable, &mut dns),
        Some(Target { ip_addr: v4(203, 0, 113, 10), port: 10000, transport: Transport::Tls, ttl: 300 })
    );
    assert_eq!(
        next_target(&mut resolvable, &mut dns),
        Some(Target { ip_addr: v4(203, 0, 113, 11), port: 10000, transport: Transport::Tls, ttl: 300 })
    );
    assert_eq!(next_target(&mut resolvable, &mut dns), None);
    assert_eq!(dns.asked, vec![Query::Naptr("example.com".to_string())]);
}
