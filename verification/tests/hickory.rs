use hickory_proto::op::{Message, MessageType, OpCode, ResponseCode};
use hickory_proto::rr::rdata::{A, AAAA, NAPTR, SRV};
use hickory_proto::rr::{Name, RData};
use rsip_dns::hickory_dns::recursive_client::{
    check_name, check_response, new_query, parse_additional_hosts, parse_response, query,
    Response, NO_ERROR, OPCODE_QUERY,
};
use rsip_dns::hickory_dns::{
    calculate_min_ttl, calculate_rrset_ttl, collect_ip_addrs, collect_naptr_entries,
    collect_srv_entries, min_ttl_of_both, no_address, select, NaptrData, Record, RecordData,
    RecordType,
};
use rsip_dns::{
    AddrRecord, Error, IpAddr, NaptrEntry, NaptrFlags, NaptrRecord, NaptrServices, SrvDomain,
    SrvEntry, SrvRecord, Transport,
};

fn name(text: &str) -> Name {
    text.parse().unwrap()
}

fn wire(name_text: &str, ttl: u32, data: RData) -> hickory_proto::rr::Record {
    hickory_proto::rr::Record::from_rdata(name(name_text), ttl, data)
}

fn wire_naptr(order: u16, preference: u16, flags: &[u8], services: &[u8], replacement: &str) -> RData {
    RData::NAPTR(NAPTR::new(
        order,
        preference,
        flags.to_vec().into_boxed_slice(),
        services.to_vec().into_boxed_slice(),
        Vec::new().into_boxed_slice(),
        name(replacement),
    ))
}

fn wire_srv(priority: u16, weight: u16, port: u16, target: &str) -> RData {
    RData::SRV(SRV::new(priority, weight, port, name(target)))
}

fn response(answers: Vec<hickory_proto::rr::Record>, additionals: Vec<hickory_proto::rr::Record>) -> Vec<u8> {
    let mut message = Message::new();
    message.set_id(7).set_message_type(MessageType::Response).set_response_code(ResponseCode::NoError);
    for record in answers {
        message.add_answer(record);
    }
    for record in additionals {
        message.add_additional(record);
    }
    message.to_vec().unwrap()
}

fn a(name: &str, ttl: u32, last: u8) -> Record {
    Record { name: name.to_string(), ttl, data: RecordData::A([10, 0, 0, last]) }
}

fn aaaa(name: &str, ttl: u32, last: u8) -> Record {
    let mut octets = [0u8; 16];
    octets[15] = last;
    Record { name: name.to_string(), ttl, data: RecordData::Aaaa(octets) }
}

fn v6(last: u8) -> IpAddr {
    let mut octets = [0u8; 16];
    octets[15] = last;
    IpAddr::V6(octets)
}

fn srv(name: &str, ttl: u32, priority: u16, port: u16, target: &str) -> Record {
    Record {
        name: name.to_string(),
        ttl,
        data: RecordData::Srv(SrvEntry { priority, weight: 0, port, target: target.to_string() }),
    }
}

fn naptr(name: &str, ttl: u32, order: u16, flags: &[u8], services: &[u8], replacement: &str) -> Record {
    Record {
        name: name.to_string(),
        ttl,
        data: RecordData::Naptr(NaptrData {
            order,
            preference: 1,
            flags: flags.to_vec(),
            services: services.to_vec(),
            regexp: vec![b'!'],
            replacement: replacement.to_string(),
        }),
    }
}

fn other(name: &str, ttl: u32) -> Record {
    Record { name: name.to_string(), ttl, data: RecordData::Other }
}

#[test]
fn query_is_a_standard_query_that_asks_for_recursion() {
    let bytes = query("example.com", RecordType::Naptr, 0x1234).unwrap();
    let message = Message::from_vec(&bytes).unwrap();
    assert_eq!(message.id(), 0x1234);
    assert!(message.recursion_desired());
    assert_eq!(message.op_code(), OpCode::Query);
    assert_eq!(message.message_type(), MessageType::Query);
    assert_eq!(message.queries().len(), 1);
    assert_eq!(message.queries()[0].name().to_string(), "example.com.");
    assert_eq!(message.queries()[0].query_type(), hickory_proto::rr::RecordType::NAPTR);
    assert_eq!(OPCODE_QUERY, 0);
}

#[test]
fn query_asks_for_the_record_type() {
    let kinds = [
        (RecordType::A, hickory_proto::rr::RecordType::A),
        (RecordType::Aaaa, hickory_proto::rr::RecordType::AAAA),
        (RecordType::Srv, hickory_proto::rr::RecordType::SRV),
        (RecordType::Naptr, hickory_proto::rr::RecordType::NAPTR),
    ];
    for (asked, written) in kinds {
        let bytes = query("_sip._udp.example.com", asked, 1).unwrap();
        let message = Message::from_vec(&bytes).unwrap();
        assert_eq!(message.queries()[0].query_type(), written);
        assert_eq!(message.queries()[0].name().to_string(), "_sip._udp.example.com.");
    }
}

#[test]
fn query_of_no_name_fails() {
    let label = "a".repeat(64);
    assert!(matches!(query(&label, RecordType::A, 1), Err(Error::DnsTransportFailure(_))));
    assert!(matches!(new_query(&label, RecordType::A), Err(Error::DnsTransportFailure(_))));
}

#[test]
fn new_query_differs_in_its_id_only() {
    let bytes = new_query("example.com", RecordType::Srv).unwrap();
    let message = Message::from_vec(&bytes).unwrap();
    assert_eq!(query("example.com", RecordType::Srv, message.id()).unwrap(), bytes);
    assert!(message.recursion_desired());
    assert_eq!(message.op_code(), OpCode::Query);
}

#[test]
fn response_is_read_record_by_record() {
    let bytes = response(
        vec![
            wire("example.com.", 600, wire_naptr(50, 5, b"S", b"SIPS+D2T", "_sips._tcp.example.com.")),
            wire("example.com.", 500, RData::A(A::new(192, 0, 2, 1))),
        ],
        vec![
            wire("_sips._tcp.example.com.", 400, wire_srv(100, 5, 10000, "tcp1.example.com.")),
            wire("tcp1.example.com.", 300, RData::AAAA(AAAA::new(0x2001, 0xdb8, 0, 0, 0, 0, 0, 1))),
            wire("tcp1.example.com.", 200, RData::CNAME(hickory_proto::rr::rdata::CNAME(name("x.example.")))),
        ],
    );
    let parsed = parse_response(&bytes).unwrap();
    assert_eq!(
        parsed.answers,
        vec![
            Record {
                name: "example.com.".to_string(),
                ttl: 600,
                data: RecordData::Naptr(NaptrData {
                    order: 50,
                    preference: 5,
                    flags: b"S".to_vec(),
                    services: b"SIPS+D2T".to_vec(),
                    regexp: vec![],
                    replacement: "_sips._tcp.example.com.".to_string(),
                }),
            },
            Record { name: "example.com.".to_string(), ttl: 500, data: RecordData::A([192, 0, 2, 1]) },
        ]
    );
    assert_eq!(
        parsed.additionals,
        vec![
            Record {
                name: "_sips._tcp.example.com.".to_string(),
                ttl: 400,
                data: RecordData::Srv(SrvEntry {
                    priority: 100,
                    weight: 5,
                    port: 10000,
                    target: "tcp1.example.com.".to_string(),
                }),
            },
            Record {
                name: "tcp1.example.com.".to_string(),
                ttl: 300,
                data: RecordData::Aaaa([0x20, 0x01, 0x0d, 0xb8, 0, 0, 0, 0, 0, 0, 0, 0, 0, 0, 0, 1]),
            },
            Record { name: "tcp1.example.com.".to_string(), ttl: 200, data: RecordData::Other },
        ]
    );
}

#[test]
fn response_with_an_error_code_is_refused() {
    let mut message = Message::new();
    message.set_message_type(MessageType::Response).set_response_code(ResponseCode::NXDomain);
    message.add_answer(wire("example.com.", 1, RData::A(A::new(192, 0, 2, 1))));
    assert!(matches!(parse_response(&message.to_vec().unwrap()), Err(Error::DnsTransportFailure(_))));
    message.set_response_code(ResponseCode::ServFail);
    assert!(matches!(parse_response(&message.to_vec().unwrap()), Err(Error::DnsTransportFailure(_))));
    message.set_response_code(ResponseCode::NoError);
    assert_eq!(parse_response(&message.to_vec().unwrap()).unwrap().answers.len(), 1);
}

#[test]
fn bytes_that_are_no_message_are_refused() {
    assert!(matches!(parse_response(&[]), Err(Error::DnsTransportFailure(_))));
    assert!(matches!(parse_response(&[1, 2, 3]), Err(Error::DnsTransportFailure(_))));
}

#[test]
fn check_response_goes_by_the_code() {
    assert_eq!(NO_ERROR, 0);
    assert_eq!(
        check_response(0, vec![a("x", 1, 1)], vec![a("y", 2, 2)]),
        Ok(Response { answers: vec![a("x", 1, 1)], additionals: vec![a("y", 2, 2)] })
    );
    for code in [1u16, 2, 3, 5, 16, 4095, 65535] {
        assert!(matches!(check_response(code, vec![], vec![]), Err(Error::DnsTransportFailure(_))));
    }
}

#[test]
fn min_ttl_of_records() {
    assert_eq!(calculate_min_ttl(&vec![]), 300);
    assert_eq!(calculate_min_ttl(&vec![a("x", 700, 1)]), 700);
    assert_eq!(calculate_min_ttl(&vec![a("x", 30, 1), other("x", 20), a("x", 40, 1)]), 20);
    assert_eq!(calculate_min_ttl(&vec![a("x", u32::MAX, 1)]), u32::MAX);
    assert_eq!(calculate_min_ttl(&vec![a("x", 0, 1), a("x", 5, 1)]), 0);
    assert_eq!(min_ttl_of_both(&vec![], &vec![]), 300);
    assert_eq!(min_ttl_of_both(&vec![a("x", 9, 1)], &vec![]), 9);
    assert_eq!(min_ttl_of_both(&vec![], &vec![a("x", 8, 1)]), 8);
    assert_eq!(min_ttl_of_both(&vec![a("x", 9, 1)], &vec![a("x", 8, 1)]), 8);
    assert_eq!(min_ttl_of_both(&vec![a("x", 7, 1)], &vec![a("x", 8, 1)]), 7);
}

#[test]
fn entries_are_collected_in_their_order() {
    let records = vec![
        srv("n", 1, 1, 5060, "a"),
        a("n", 2, 1),
        naptr("n", 3, 7, b"s", b"sip+d2u", "_sip._udp.n"),
        aaaa("n", 4, 2),
        other("n", 5),
        srv("n", 6, 2, 5061, "b"),
        naptr("n", 7, 8, b"x", b"other", "r"),
    ];
    assert_eq!(
        collect_srv_entries(&records),
        vec![
            SrvEntry { priority: 1, weight: 0, port: 5060, target: "a".to_string() },
            SrvEntry { priority: 2, weight: 0, port: 5061, target: "b".to_string() },
        ]
    );
    assert_eq!(
        collect_naptr_entries(&records),
        vec![
            NaptrEntry {
                order: 7,
                preference: 1,
                flags: NaptrFlags::S,
                services: NaptrServices::SipD2u,
                regexp: vec![b'!'],
                replacement: "_sip._udp.n".to_string(),
            },
            NaptrEntry {
                order: 8,
                preference: 1,
                flags: NaptrFlags::Other(b"x".to_vec()),
                services: NaptrServices::Other("other".to_string()),
                regexp: vec![b'!'],
                replacement: "r".to_string(),
            },
        ]
    );
    let mut ip_addrs = vec![IpAddr::V4([1, 1, 1, 1])];
    collect_ip_addrs(&records, &mut ip_addrs);
    assert_eq!(ip_addrs, vec![IpAddr::V4([1, 1, 1, 1]), IpAddr::V4([10, 0, 0, 1]), v6(2)]);
}

#[test]
fn naptr_entry_of_record_data() {
    let record = naptr("n", 3, 7, b"A", b"SIPS+D2W", "r.example");
    assert_eq!(
        NaptrEntry::try_from(&record.data),
        Ok(NaptrEntry {
            order: 7,
            preference: 1,
            flags: NaptrFlags::A,
            services: NaptrServices::SipsD2w,
            regexp: vec![b'!'],
            replacement: "r.example".to_string(),
        })
    );
    assert_eq!(NaptrEntry::try_from(&RecordData::Other), Err(Error::ConversionFailure));
    assert_eq!(NaptrEntry::try_from(&RecordData::A([1, 2, 3, 4])), Err(Error::ConversionFailure));
    assert_eq!(NaptrEntry::try_from(&srv("n", 1, 1, 1, "t").data), Err(Error::ConversionFailure));
    assert_eq!(record.clone(), record);
}

#[test]
fn resolver_style_lookups() {
    let records = vec![
        naptr("example.com", 30, 2, b"s", b"sip+d2t", "_sip._tcp.example.com"),
        other("example.com", 10),
        naptr("example.com", 20, 1, b"s", b"sip+d2u", "_sip._udp.example.com"),
    ];
    let record = rsip_dns::hickory_dns::naptr_lookup("example.com".to_string(), &records);
    assert_eq!(record.domain, "example.com");
    assert_eq!(record.ttl, 20);
    assert_eq!(record.entries.iter().map(|e| e.order).collect::<Vec<_>>(), vec![2, 1]);
    assert!(record.additional_srvs.is_empty());
    let empty = rsip_dns::hickory_dns::naptr_lookup("example.com".to_string(), &vec![]);
    assert_eq!(empty, NaptrRecord::new(vec![], "example.com".to_string(), 300));

    let domain = SrvDomain::new(false, Transport::Tcp, "example.com".to_string());
    let records = vec![srv("n", 50, 1, 5060, "a"), srv("n", 40, 2, 5061, "b"), a("a", 5, 1)];
    let record = rsip_dns::hickory_dns::srv_lookup(domain.clone(), &records);
    assert_eq!(record.domain, domain);
    assert_eq!(record.ttl, 40);
    assert_eq!(record.targets(), vec!["a".to_string(), "b".to_string()]);
    assert!(record.additional_hosts.is_empty());
    assert_eq!(
        rsip_dns::hickory_dns::srv_lookup(domain.clone(), &vec![]),
        SrvRecord::new(vec![], domain, 300)
    );
}

#[test]
fn resolver_style_ip_lookup() {
    let found = rsip_dns::hickory_dns::ip_lookup(
        "example.com".to_string(),
        &vec![a("example.com", 50, 1), other("example.com", 7), a("example.com", 40, 2)],
        &vec![aaaa("example.com", 30, 3)],
    );
    assert_eq!(
        found,
        Ok(AddrRecord {
            ip_addrs: vec![IpAddr::V4([10, 0, 0, 1]), IpAddr::V4([10, 0, 0, 2]), v6(3)],
            domain: "example.com".to_string(),
            ttl: 30,
        })
    );
    let mixed = rsip_dns::hickory_dns::ip_lookup(
        "h".to_string(),
        &vec![aaaa("h", 1, 9), a("h", 50, 1)],
        &vec![a("h", 2, 8), aaaa("h", 60, 3)],
    );
    assert_eq!(
        mixed,
        Ok(AddrRecord { ip_addrs: vec![IpAddr::V4([10, 0, 0, 1]), v6(3)], domain: "h".to_string(), ttl: 50 })
    );
    let only_v6 = rsip_dns::hickory_dns::ip_lookup("h".to_string(), &vec![], &vec![aaaa("h", 30, 3)]);
    assert_eq!(only_v6, Ok(AddrRecord { ip_addrs: vec![v6(3)], domain: "h".to_string(), ttl: 30 }));
    let none = rsip_dns::hickory_dns::ip_lookup("example.com".to_string(), &vec![other("x", 1)], &vec![]);
    assert_eq!(
        none,
        Err(Error::DnsTransportFailure("No A or AAAA records found for example.com".to_string()))
    );
    assert_eq!(
        no_address(&"h.example".to_string()),
        Error::DnsTransportFailure("No A or AAAA records found for h.example".to_string())
    );
}

#[test]
fn additional_hosts_are_grouped_by_name() {
    let hosts = parse_additional_hosts(&vec![
        a("b.example.", 50, 1),
        srv("b.example.", 1, 1, 1, "t"),
        aaaa("a.example.", 40, 2),
        a("b.example.", 30, 3),
        aaaa("b.example.", 60, 4),
        a("a.example.", 45, 5),
    ]);
    assert_eq!(
        hosts,
        vec![
            AddrRecord {
                ip_addrs: vec![IpAddr::V4([10, 0, 0, 1]), IpAddr::V4([10, 0, 0, 3]), v6(4)],
                domain: "b.example.".to_string(),
                ttl: 30,
            },
            AddrRecord {
                ip_addrs: vec![v6(2), IpAddr::V4([10, 0, 0, 5])],
                domain: "a.example.".to_string(),
                ttl: 40,
            },
        ]
    );
    assert_eq!(parse_additional_hosts(&vec![]), vec![]);
}

#[test]
fn recursive_naptr_lookup_takes_the_glue() {
    let response = Response {
        answers: vec![
            naptr("example.com.", 600, 50, b"s", b"sips+d2t", "_sips._tcp.example.com."),
            other("example.com.", 550),
        ],
        additionals: vec![
            srv("_sips._tcp.example.com.", 400, 1, 10000, "tcp1.example.com."),
            a("tcp1.example.com.", 300, 10),
            srv("_sips._tcp.example.com.", 350, 2, 10001, "tcp2.example.com."),
            a("unrelated.example.com.", 3, 9),
            srv("not-an-srv-name.example.com.", 1, 1, 1, "tcp1.example.com."),
            srv("_sip._udp.example.com.", 77, 3, 5060, "tcp1.example.com."),
            srv("_sips._tcp.example.com.", 450, 3, 10002, "tcp1.example.com."),
            a("tcp1.example.com.", 250, 11),
        ],
    };
    let record =
        rsip_dns::hickory_dns::recursive_client::naptr_lookup("example.com".to_string(), &response)
            .unwrap();
    assert_eq!(record.domain, "example.com");
    assert_eq!(record.ttl, 600);
    assert_eq!(record.entries.len(), 1);
    assert_eq!(record.entries[0].services, NaptrServices::SipsD2t);
    let tcp1 = AddrRecord {
        ip_addrs: vec![IpAddr::V4([10, 0, 0, 10]), IpAddr::V4([10, 0, 0, 11])],
        domain: "tcp1.example.com.".to_string(),
        ttl: 250,
    };
    assert_eq!(
        record.additional_srvs,
        vec![
            SrvRecord::with_additional_hosts(
                vec![
                    SrvEntry { priority: 1, weight: 0, port: 10000, target: "tcp1.example.com.".to_string() },
                    SrvEntry { priority: 2, weight: 0, port: 10001, target: "tcp2.example.com.".to_string() },
                    SrvEntry { priority: 3, weight: 0, port: 10002, target: "tcp1.example.com.".to_string() },
                ],
                SrvDomain::new(true, Transport::Tcp, "example.com.".to_string()),
                350,
                vec![tcp1.clone()],
            ),
            SrvRecord::with_additional_hosts(
                vec![SrvEntry { priority: 3, weight: 0, port: 5060, target: "tcp1.example.com.".to_string() }],
                SrvDomain::new(false, Transport::Udp, "example.com.".to_string()),
                77,
                vec![tcp1],
            ),
        ]
    );
}

#[test]
fn recursive_naptr_lookup_without_entries_is_none() {
    let response = Response { answers: vec![a("example.com.", 1, 1)], additionals: vec![] };
    assert_eq!(
        rsip_dns::hickory_dns::recursive_client::naptr_lookup("example.com".to_string(), &response),
        None
    );
}

#[test]
fn recursive_srv_lookup_takes_the_glue() {
    let domain = SrvDomain::new(false, Transport::Tcp, "example.com".to_string());
    let response = Response {
        answers: vec![srv("n", 50, 1, 5060, "a."), other("n", 45), srv("n", 60, 2, 5061, "b.")],
        additionals: vec![a("a.", 9, 1), a("c.", 8, 3), aaaa("a.", 7, 2)],
    };
    let record =
        rsip_dns::hickory_dns::recursive_client::srv_lookup(domain.clone(), &response).unwrap();
    assert_eq!(
        record,
        SrvRecord::with_additional_hosts(
            vec![
                SrvEntry { priority: 1, weight: 0, port: 5060, target: "a.".to_string() },
                SrvEntry { priority: 2, weight: 0, port: 5061, target: "b.".to_string() },
            ],
            domain.clone(),
            50,
            vec![
                AddrRecord { ip_addrs: vec![IpAddr::V4([10, 0, 0, 1]), v6(2)], domain: "a.".to_string(), ttl: 7 },
                AddrRecord { ip_addrs: vec![IpAddr::V4([10, 0, 0, 3])], domain: "c.".to_string(), ttl: 8 },
            ],
        )
    );
    let empty = Response { answers: vec![a("n", 1, 1)], additionals: vec![a("a.", 9, 1)] };
    assert_eq!(rsip_dns::hickory_dns::recursive_client::srv_lookup(domain, &empty), None);
}

#[test]
fn recursive_ip_lookup_reads_each_answer_for_its_type() {
    let found = rsip_dns::hickory_dns::recursive_client::ip_lookup(
        "h".to_string(),
        &vec![a("h", 50, 1), other("h", 1), aaaa("h", 2, 9), a("h", 40, 2)],
        &vec![a("h", 3, 8), aaaa("h", 30, 3)],
    );
    assert_eq!(
        found,
        Ok(AddrRecord {
            ip_addrs: vec![IpAddr::V4([10, 0, 0, 1]), IpAddr::V4([10, 0, 0, 2]), v6(3)],
            domain: "h".to_string(),
            ttl: 30,
        })
    );
    let none = rsip_dns::hickory_dns::recursive_client::ip_lookup(
        "h".to_string(),
        &vec![aaaa("h", 2, 9)],
        &vec![a("h", 3, 8)],
    );
    assert_eq!(none, Err(Error::DnsTransportFailure("No A or AAAA records found for h".to_string())));
}

#[test]
fn a_response_is_looked_up_end_to_end() {
    let bytes = response(
        vec![wire("example.com.", 600, wire_naptr(50, 5, b"s", b"SIPS+D2T", "_sips._tcp.example.com."))],
        vec![
            wire("_sips._tcp.example.com.", 400, wire_srv(100, 5, 10000, "tcp1.example.com.")),
            wire("tcp1.example.com.", 300, RData::A(A::new(203, 0, 113, 10))),
            wire("tcp1.example.com.", 300, RData::A(A::new(203, 0, 113, 11))),
        ],
    );
    let parsed = parse_response(&bytes).unwrap();
    let record =
        rsip_dns::hickory_dns::recursive_client::naptr_lookup("example.com".to_string(), &parsed)
            .unwrap();
    assert_eq!(record.ttl, 600);
    assert_eq!(record.additional_srvs.len(), 1);
    assert!(record.additional_srvs[0].has_complete_additionals());
    assert_eq!(record.additional_srvs[0].transport(), Transport::Tls);
    assert_eq!(
        record.additional_srvs[0].additional_hosts[0].ip_addrs,
        vec![IpAddr::V4([203, 0, 113, 10]), IpAddr::V4([203, 0, 113, 11])]
    );
}

#[test]
fn ttl_is_that_of_the_record_set() {
    let answers = vec![
        naptr("n", 600, 1, b"s", b"sip+d2u", "_sip._udp.n"),
        other("n", 5),
        srv("n", 400, 1, 5060, "t"),
        a("n", 30, 1),
        naptr("n", 500, 2, b"s", b"sip+d2t", "_sip._tcp.n"),
        aaaa("n", 20, 2),
        srv("n", 450, 2, 5060, "u"),
    ];
    assert_eq!(calculate_rrset_ttl(&answers, RecordType::Naptr), 500);
    assert_eq!(calculate_rrset_ttl(&answers, RecordType::Srv), 400);
    assert_eq!(calculate_rrset_ttl(&answers, RecordType::A), 30);
    assert_eq!(calculate_rrset_ttl(&answers, RecordType::Aaaa), 20);
    assert_eq!(calculate_rrset_ttl(&vec![other("n", 5), a("n", 6, 1)], RecordType::Srv), 300);
    assert_eq!(calculate_rrset_ttl(&vec![], RecordType::A), 300);
    assert_eq!(
        select(&answers, RecordType::Srv),
        vec![srv("n", 400, 1, 5060, "t"), srv("n", 450, 2, 5060, "u")]
    );
    assert_eq!(select(&answers, RecordType::A), vec![a("n", 30, 1)]);
    assert_eq!(answers[1].data.record_type(), None);
    assert_eq!(answers[0].data.record_type(), Some(RecordType::Naptr));

    let response = Response { answers: answers.clone(), additionals: vec![] };
    let naptr_record =
        rsip_dns::hickory_dns::recursive_client::naptr_lookup("n".to_string(), &response).unwrap();
    assert_eq!(naptr_record.ttl, 500);
    let srv_record = rsip_dns::hickory_dns::recursive_client::srv_lookup(
        SrvDomain::new(false, Transport::Udp, "n".to_string()),
        &response,
    )
    .unwrap();
    assert_eq!(srv_record.ttl, 400);
    assert_eq!(rsip_dns::hickory_dns::naptr_lookup("n".to_string(), &answers).ttl, 500);
    assert_eq!(
        rsip_dns::hickory_dns::srv_lookup(SrvDomain::new(false, Transport::Udp, "n".to_string()), &answers)
            .ttl,
        400
    );
    let one_of_each = vec![other("h", 1), a("h", 9, 1)];
    assert_eq!(
        rsip_dns::hickory_dns::ip_lookup("h".to_string(), &one_of_each, &vec![]).map(|r| r.ttl),
        Ok(9)
    );
    assert_eq!(
        rsip_dns::hickory_dns::recursive_client::ip_lookup("h".to_string(), &one_of_each, &vec![])
            .map(|r| r.ttl),
        Ok(9)
    );
}

#[test]
fn a_text_that_is_no_name_is_refused_before_anything_is_sent() {
    assert_eq!(check_name("example.com"), Ok(()));
    assert_eq!(check_name("_sips._tcp.example.com."), Ok(()));
    let label = "a".repeat(64);
    match check_name(&label) {
        Err(Error::DnsTransportFailure(message)) => {
            assert!(message.starts_with("Invalid domain name: "), "{}", message);
            assert!(message.len() > "Invalid domain name: ".len());
        },
        other => panic!("{:?}", other),
    }
    assert!(query(&label, RecordType::A, 1).is_err());
}

#[test]
fn records_of_a_recursive_lookup_hold_each_name_once() {
    let response = Response {
        answers: vec![naptr("example.com.", 600, 50, b"s", b"sips+d2t", "_sips._tcp.example.com.")],
        additionals: vec![
            srv("_sips._tcp.example.com.", 400, 1, 10000, "h.example.com."),
            srv("_SIPS._TCP.example.com.", 300, 2, 10001, "h.example.com."),
            a("h.example.com.", 30, 1),
            a("h.example.com.", 20, 2),
        ],
    };
    let record =
        rsip_dns::hickory_dns::recursive_client::naptr_lookup("example.com".to_string(), &response)
            .unwrap();
    assert_eq!(record.additional_srvs.len(), 1);
    assert_eq!(record.additional_srvs[0].entries.len(), 2);
    assert_eq!(record.additional_srvs[0].ttl, 300);
    assert_eq!(record.additional_srvs[0].additional_hosts.len(), 1);
    assert_eq!(record.additional_srvs[0].additional_hosts[0].ttl, 20);
}

#[test]
fn recursive_lookups_refuse_a_text_that_is_no_name() {
    let label = "a".repeat(64);
    let response = Response {
        answers: vec![
            naptr("n", 600, 1, b"s", b"sip+d2u", "_sip._udp.n"),
            srv("n", 400, 1, 5060, "t"),
            a("n", 30, 1),
        ],
        additionals: vec![],
    };
    assert_eq!(
        rsip_dns::hickory_dns::recursive_client::naptr_lookup(label.clone(), &response),
        None
    );
    assert!(rsip_dns::hickory_dns::recursive_client::naptr_lookup("n".to_string(), &response).is_some());
    assert_eq!(
        rsip_dns::hickory_dns::recursive_client::srv_lookup(
            SrvDomain::new(false, Transport::Udp, label.clone()),
            &response
        ),
        None
    );
    match rsip_dns::hickory_dns::recursive_client::ip_lookup(label.clone(), &response.answers, &vec![]) {
        Err(Error::DnsTransportFailure(message)) => {
            assert!(message.starts_with("Invalid domain name: "), "{}", message)
        },
        other => panic!("{:?}", other),
    }
    assert_eq!(
        rsip_dns::hickory_dns::recursive_client::ip_lookup("n".to_string(), &response.answers, &vec![])
            .map(|r| r.ttl),
        Ok(30)
    );
}
