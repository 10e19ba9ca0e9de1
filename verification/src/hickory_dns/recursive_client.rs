//! Whole DNS responses, with their additional section.
//!
//! A response that brings the SRV records of a NAPTR answer, or the
//! addresses of the hosts of an SRV answer, saves the lookups for them.
//! Sending the query and receiving the response is left to the caller.

use vstd::prelude::*;
use hickory_proto::op::Message;
use crate::error::Error;
use crate::gather::{
    find, gather, gathered_all, items_of, least_ttl, lemma_gathered_all_by_name,
    lemma_gathered_all_distinct, picked_under, Picked,
};
use crate::hickory_dns::{
    calculate_rrset_ttl, collect_naptr_entries, collect_srv_entries, ip_addrs, min_ttl,
    naptr_entries, no_address_message, rrset, rrset_ttl, srv_entries, NaptrData, Record,
    RecordData, RecordDataView, RecordType, RecordView,
};
use crate::records::naptr_record::{
    additional_srv_for, is_for_domain, NaptrRecord, NaptrRecordView,
};
use crate::records::srv_record::{
    additional_for, distinct_hosts, host_index, is_for, SrvEntry, SrvEntryView, SrvRecord,
    SrvRecordView,
};
use crate::records::{view_of, views, AddrRecord, AddrRecordView, SrvDomain, SrvDomainView};
use crate::search::lemma_first_index;
use crate::target::IpAddr;

verus! {

/// A DNS message of hickory-proto.
#[verifier::external_type_specification]
#[verifier::external_body]
pub struct ExMessage(hickory_proto::op::Message);

/// The sections of a response that a lookup reads.
#[derive(Debug, Clone, Copy, PartialEq, Eq, Structural)]
pub enum Section {
    Answer,
    Additional,
}

/// What a response holds, as far as a lookup reads it.
pub struct MessageView {
    pub response_code: u16,
    pub answers: Seq<RecordView>,
    pub additionals: Seq<RecordView>,
}

/// The bytes of the query that hickory-proto writes for a name, a record
/// type, a message id, the recursion-desired flag and an opcode; `None`
/// where it writes none.
pub uninterp spec fn encoded_query(
    name: Seq<char>,
    record_type: RecordType,
    id: u16,
    recursion_desired: bool,
    op_code: u8,
) -> Option<Seq<u8>>;

/// The words with which hickory-proto refuses a text as a domain name;
/// `None` for a text that it takes.
pub uninterp spec fn name_error(name: Seq<char>) -> Option<Seq<char>>;

/// What hickory-proto reads out of the bytes of a message; `None` where it
/// cannot read them.
pub uninterp spec fn decoded(bytes: Seq<u8>) -> Option<MessageView>;

/// The records of one section of a message, in their order.
pub uninterp spec fn section_records(message: Message, section: Section) -> Seq<RecordView>;

/// The response code of a message, as a number.
pub uninterp spec fn message_code(message: Message) -> u16;

/// What a message holds.
pub open spec fn message_view(message: Message) -> MessageView {
    MessageView {
        response_code: message_code(message),
        answers: section_records(message, Section::Answer),
        additionals: section_records(message, Section::Additional),
    }
}

/// The opcode of a standard query.
pub const OPCODE_QUERY: u8 = 0;

/// The response code of a response without error.
pub const NO_ERROR: u16 = 0;

/// `Name::from_str` (by way of `str::parse`), `Message::new`, its setters
/// `set_id`, `set_recursion_desired` and `set_op_code`, `OpCode::from_u8`,
/// `Query::query`, `Message::add_query` and `Message::to_vec` of
/// hickory-proto: the bytes of a message with the given id, flag and
/// opcode and with one question, for `name` and the record type. `None`
/// where `name` is no domain name or the message cannot be written. The
/// contract names the bytes, and says that there are none for a text that
/// `Name::from_str` refuses.
#[verifier::external_body]
fn encode_query(
    name: &str,
    record_type: RecordType,
    id: u16,
    recursion_desired: bool,
    op_code: u8,
) -> (r: Option<Vec<u8>>)
    ensures
        view_of(r) == encoded_query(name@, record_type, id, recursion_desired, op_code),
        name_error(name@) is Some ==> r is None,
{
    let name = name.parse::<hickory_proto::rr::Name>().ok()?;
    let record_type = match record_type {
        RecordType::A => hickory_proto::rr::RecordType::A,
        RecordType::Aaaa => hickory_proto::rr::RecordType::AAAA,
        RecordType::Srv => hickory_proto::rr::RecordType::SRV,
        RecordType::Naptr => hickory_proto::rr::RecordType::NAPTR,
    };
    let mut message = Message::new();
    message.set_id(id).set_recursion_desired(recursion_desired);
    message.set_op_code(hickory_proto::op::OpCode::from_u8(op_code));
    message.add_query(hickory_proto::op::Query::query(name, record_type));
    message.to_vec().ok()
}

/// `Name::from_str` of hickory-proto (by way of `str::parse`) and the
/// `Display` of its error: the words of the refusal where the text is no
/// domain name, `None` where it is one. The contract only names the words.
#[verifier::external_body]
fn name_error_text(name: &str) -> (r: Option<String>)
    ensures
        view_of(r) == name_error(name@),
{
    match name.parse::<hickory_proto::rr::Name>() {
        Ok(_) => None,
        Err(error) => Some(error.to_string()),
    }
}

/// `rand::random`: some 16-bit number. Nothing is claimed of it.
#[verifier::external_body]
fn random_id() -> (r: u16) {
    rand::random()
}

/// `Message::from_vec` of hickory-proto: the message that the bytes
/// stand for, `None` where they stand for none. The contract only names
/// what the message holds.
#[verifier::external_body]
fn decode_message(bytes: &[u8]) -> (r: Option<Message>)
    ensures
        match r {
            Some(message) => decoded(bytes@) == Some(message_view(message)),
            None => decoded(bytes@) is None,
        },
{
    Message::from_vec(bytes).ok()
}

/// `Message::response_code` of hickory-proto, as the number that its
/// `From<ResponseCode> for u16` gives.
#[verifier::external_body]
fn response_code(message: &Message) -> (r: u16)
    ensures
        r == message_code(*message),
{
    u16::from(message.response_code())
}

/// `Message::answers` and `Message::additionals` of hickory-proto: the
/// number of records in a section.
#[verifier::external_body]
fn record_count(message: &Message, section: Section) -> (r: usize)
    ensures
        r == section_records(*message, section).len(),
{
    match section {
        Section::Answer => message.answers().len(),
        Section::Additional => message.additionals().len(),
    }
}

/// `Record::name` of hickory-proto, written out as text.
#[verifier::external_body]
fn record_name(message: &Message, section: Section, i: usize) -> (r: String)
    requires
        i < section_records(*message, section).len(),
    ensures
        r@ == section_records(*message, section)[i as int].name,
{
    let records = match section {
        Section::Answer => message.answers(),
        Section::Additional => message.additionals(),
    };
    records[i].name().to_string()
}

/// `Record::ttl` of hickory-proto.
#[verifier::external_body]
fn record_ttl(message: &Message, section: Section, i: usize) -> (r: u32)
    requires
        i < section_records(*message, section).len(),
    ensures
        r == section_records(*message, section)[i as int].ttl,
{
    let records = match section {
        Section::Answer => message.answers(),
        Section::Additional => message.additionals(),
    };
    records[i].ttl()
}

/// `Record::data` of hickory-proto, for an A record: the octets of its
/// address. `None` for a record of another type.
#[verifier::external_body]
fn record_a(message: &Message, section: Section, i: usize) -> (r: Option<[u8; 4]>)
    requires
        i < section_records(*message, section).len(),
    ensures
        match r {
            Some(octets) => section_records(*message, section)[i as int].data
                == RecordDataView::A(octets),
            None => !(section_records(*message, section)[i as int].data is A),
        },
{
    let records = match section {
        Section::Answer => message.answers(),
        Section::Additional => message.additionals(),
    };
    match records[i].data() {
        hickory_proto::rr::RData::A(a) => Some(a.0.octets()),
        _ => None,
    }
}

/// `Record::data` of hickory-proto, for an AAAA record: the octets of its
/// address. `None` for a record of another type.
#[verifier::external_body]
fn record_aaaa(message: &Message, section: Section, i: usize) -> (r: Option<[u8; 16]>)
    requires
        i < section_records(*message, section).len(),
    ensures
        match r {
            Some(octets) => section_records(*message, section)[i as int].data
                == RecordDataView::Aaaa(octets),
            None => !(section_records(*message, section)[i as int].data is Aaaa),
        },
{
    let records = match section {
        Section::Answer => message.answers(),
        Section::Additional => message.additionals(),
    };
    match records[i].data() {
        hickory_proto::rr::RData::AAAA(aaaa) => Some(aaaa.0.octets()),
        _ => None,
    }
}

/// `Record::data` of hickory-proto, for an SRV record: its priority,
/// weight and port, and its target written out as text. `None` for a
/// record of another type.
#[verifier::external_body]
fn record_srv(message: &Message, section: Section, i: usize) -> (r: Option<SrvEntry>)
    requires
        i < section_records(*message, section).len(),
    ensures
        match r {
            Some(entry) => section_records(*message, section)[i as int].data
                == RecordDataView::Srv(entry@),
            None => !(section_records(*message, section)[i as int].data is Srv),
        },
{
    let records = match section {
        Section::Answer => message.answers(),
        Section::Additional => message.additionals(),
    };
    match records[i].data() {
        hickory_proto::rr::RData::SRV(srv) => Some(SrvEntry {
            priority: srv.priority(),
            weight: srv.weight(),
            port: srv.port(),
            target: srv.target().to_string(),
        }),
        _ => None,
    }
}

/// `Record::data` of hickory-proto, for a NAPTR record: its fields as
/// they stand, the replacement written out as text. `None` for a record
/// of another type.
#[verifier::external_body]
fn record_naptr(message: &Message, section: Section, i: usize) -> (r: Option<NaptrData>)
    requires
        i < section_records(*message, section).len(),
    ensures
        match r {
            Some(data) => section_records(*message, section)[i as int].data
                == RecordDataView::Naptr(data@),
            None => !(section_records(*message, section)[i as int].data is Naptr),
        },
{
    let records = match section {
        Section::Answer => message.answers(),
        Section::Additional => message.additionals(),
    };
    match records[i].data() {
        hickory_proto::rr::RData::NAPTR(naptr) => Some(NaptrData {
            order: naptr.order(),
            preference: naptr.preference(),
            flags: naptr.flags().to_vec(),
            services: naptr.services().to_vec(),
            regexp: naptr.regexp().to_vec(),
            replacement: naptr.replacement().to_string(),
        }),
        _ => None,
    }
}

/// One record of a message.
fn record_at(message: &Message, section: Section, i: usize) -> (r: Record)
    requires
        i < section_records(*message, section).len(),
    ensures
        r@ == section_records(*message, section)[i as int],
{
    let name = record_name(message, section, i);
    let ttl = record_ttl(message, section, i);
    let data = if let Some(octets) = record_a(message, section, i) {
        RecordData::A(octets)
    } else if let Some(octets) = record_aaaa(message, section, i) {
        RecordData::Aaaa(octets)
    } else if let Some(entry) = record_srv(message, section, i) {
        RecordData::Srv(entry)
    } else if let Some(data) = record_naptr(message, section, i) {
        RecordData::Naptr(data)
    } else {
        RecordData::Other
    };
    Record { name, ttl, data }
}

/// The records of one section of a message.
fn records(message: &Message, section: Section) -> (r: Vec<Record>)
    ensures
        views(r@) == section_records(*message, section),
{
    let n = record_count(message, section);
    let mut out: Vec<Record> = Vec::new();
    let mut i: usize = 0;
    while i < n
        invariant
            i <= n,
            n == section_records(*message, section).len(),
            views(out@) =~= section_records(*message, section).take(i as int),
        decreases n - i,
    {
        let record = record_at(message, section, i);
        let ghost before = views(out@);
        out.push(record);
        assert(views(out@) =~= before.push(record@));
        i += 1;
    }
    assert(section_records(*message, section).take(i as int) =~= section_records(
        *message,
        section,
    ));
    out
}

/// The records of a response without error.
#[derive(Debug, PartialEq, Eq)]
pub struct Response {
    pub answers: Vec<Record>,
    pub additionals: Vec<Record>,
}

pub struct ResponseView {
    pub answers: Seq<RecordView>,
    pub additionals: Seq<RecordView>,
}

impl View for Response {
    type V = ResponseView;

    open spec fn view(&self) -> ResponseView {
        ResponseView { answers: views(self.answers@), additionals: views(self.additionals@) }
    }
}

/// The text of the failure of a lookup for a text that is no domain name.
pub open spec fn invalid_name_message(words: Seq<char>) -> Seq<char> {
    "Invalid domain name: "@ + words
}

/// Tells a domain name from a text that is none, before anything is sent.
///
/// Fails with `DnsTransportFailure` on a text that is no domain name.
pub fn check_name(name: &str) -> (r: Result<(), Error>)
    ensures
        match name_error(name@) {
            None => r is Ok,
            Some(words) => r matches Err(Error::DnsTransportFailure(message)) && message@
                == invalid_name_message(words),
        },
{
    match name_error_text(name) {
        None => Ok(()),
        Some(words) => {
            let mut message = String::from_str("Invalid domain name: ");
            message.append(words.as_str());
            Err(Error::DnsTransportFailure(message))
        },
    }
}

/// The bytes of a query for the records of one type under `name`: a
/// standard query that asks for recursion, under the message id `id`.
///
/// Fails with `DnsTransportFailure` where no query can be written for
/// `name`.
pub fn query(name: &str, record_type: RecordType, id: u16) -> (r: Result<Vec<u8>, Error>)
    ensures
        match encoded_query(name@, record_type, id, true, OPCODE_QUERY) {
            Some(bytes) => r is Ok && r->Ok_0@ == bytes,
            None => r matches Err(Error::DnsTransportFailure(message)) && message@
                == "Failed to write DNS query"@,
        },
        name_error(name@) is Some ==> r is Err,
{
    match encode_query(name, record_type, id, true, OPCODE_QUERY) {
        Some(bytes) => Ok(bytes),
        None => Err(Error::DnsTransportFailure(String::from_str("Failed to write DNS query"))),
    }
}

/// The bytes of a query under a message id that is picked at random.
pub fn new_query(name: &str, record_type: RecordType) -> (r: Result<Vec<u8>, Error>)
    ensures
        exists|id: u16|
            match #[trigger] encoded_query(name@, record_type, id, true, OPCODE_QUERY) {
                Some(bytes) => r is Ok && r->Ok_0@ == bytes,
                None => r matches Err(Error::DnsTransportFailure(message)) && message@
                    == "Failed to write DNS query"@,
            },
        name_error(name@) is Some ==> r is Err,
{
    let id = random_id();
    query(name, record_type, id)
}

/// The response that a message stands for: its records, where its
/// response code is that of no error.
pub open spec fn response_of(message: MessageView) -> Option<ResponseView> {
    if message.response_code == NO_ERROR {
        Some(ResponseView { answers: message.answers, additionals: message.additionals })
    } else {
        None
    }
}

/// Tells a response without error from any other.
///
/// Fails with `DnsTransportFailure` on a response code other than that of
/// no error.
pub fn check_response(response_code: u16, answers: Vec<Record>, additionals: Vec<Record>) -> (r:
    Result<Response, Error>)
    ensures
        response_code == NO_ERROR ==> r == Ok::<Response, Error>(Response { answers, additionals }),
        response_code != NO_ERROR ==> (r matches Err(Error::DnsTransportFailure(message))
            && message@ == "DNS query failed with a response code other than NoError"@),
{
    if response_code != NO_ERROR {
        return Err(
            Error::DnsTransportFailure(
                String::from_str("DNS query failed with a response code other than NoError"),
            ),
        );
    }
    Ok(Response { answers, additionals })
}

/// Reads the bytes of a response.
///
/// Fails with `DnsTransportFailure` where the bytes are no DNS message,
/// and where the message has a response code other than that of no error.
pub fn parse_response(bytes: &[u8]) -> (r: Result<Response, Error>)
    ensures
        match decoded(bytes@) {
            Some(message) => match response_of(message) {
                Some(response) => r is Ok && r->Ok_0@ == response,
                None => r matches Err(Error::DnsTransportFailure(text)) && text@
                    == "DNS query failed with a response code other than NoError"@,
            },
            None => r matches Err(Error::DnsTransportFailure(text)) && text@
                == "Failed to parse DNS response"@,
        },
{
    match decode_message(bytes) {
        Some(message) => {
            let code = response_code(&message);
            let answers = records(&message, Section::Answer);
            let additionals = records(&message, Section::Additional);
            check_response(code, answers, additionals)
        },
        None => Err(Error::DnsTransportFailure(String::from_str("Failed to parse DNS response"))),
    }
}

/// What an A or AAAA record adds to the hosts: its address, under its
/// name. A record of another type adds nothing.
pub open spec fn pick_address() -> spec_fn(RecordView) -> Option<Picked<Seq<char>, IpAddr>> {
    |record: RecordView|
        match record.data.ip_addr() {
            Some(ip_addr) => Some(Picked { name: record.name, item: ip_addr, ttl: record.ttl }),
            None => None,
        }
}

/// The address records that the first `n` of `records` make: one for each
/// name that has an A or AAAA record, in the order in which the names first
/// occur, with the addresses of the name in their order and the smallest
/// of their TTLs.
pub open spec fn additional_hosts(records: Seq<RecordView>, n: int) -> Seq<AddrRecordView> {
    gathered_all::<AddrRecord, String, IpAddr, RecordView>(records, pick_address(), n)
}

/// The address records that the A and AAAA records among `records` make.
pub fn parse_additional_hosts(records: &Vec<Record>) -> (r: Vec<AddrRecord>)
    ensures
        views(r@) == additional_hosts(views(records@), records.len() as int),
        distinct_hosts(views(r@)),
{
    let ghost all = views(records@);
    let mut hosts: Vec<AddrRecord> = Vec::new();
    let mut i: usize = 0;
    while i < records.len()
        invariant
            i <= records.len(),
            all == views(records@),
            views(hosts@) =~= additional_hosts(all, i as int),
        decreases records.len() - i,
    {
        let record = &records[i];
        assert(all[i as int] == record@);
        match &record.data {
            RecordData::A(octets) => {
                gather(&mut hosts, record.name.clone(), IpAddr::V4(*octets), record.ttl);
            },
            RecordData::Aaaa(octets) => {
                gather(&mut hosts, record.name.clone(), IpAddr::V6(*octets), record.ttl);
            },
            _ => {},
        }
        i += 1;
    }
    proof {
        lemma_gathered_all_distinct::<AddrRecord, String, IpAddr, RecordView>(
            all,
            pick_address(),
            records.len() as int,
        );
    }
    hosts
}

/// What an SRV record adds to the SRV records: its entry, under the SRV
/// name that its name stands for. A record of another type adds nothing,
/// nor does one under a name that is no SRV name.
pub open spec fn pick_srv() -> spec_fn(RecordView) -> Option<Picked<SrvDomainView, SrvEntryView>> {
    |record: RecordView|
        match (record.data, SrvDomainView::parse(record.name)) {
            (RecordDataView::Srv(entry), Some(domain)) => Some(
                Picked { name: domain, item: entry, ttl: record.ttl },
            ),
            _ => None,
        }
}

/// The SRV records that the first `n` of `records` make: one for each SRV
/// name that has an SRV record, in the order in which the names first
/// occur, with the entries of the name in their order and the smallest of
/// their TTLs.
pub open spec fn additional_srvs(records: Seq<RecordView>, n: int) -> Seq<SrvRecordView> {
    gathered_all::<SrvRecord, SrvDomain, SrvEntry, RecordView>(records, pick_srv(), n)
}

/// The SRV records that the SRV records among `records` make.
fn parse_additional_srvs(records: &Vec<Record>) -> (r: Vec<SrvRecord>)
    ensures
        views(r@) == additional_srvs(views(records@), records.len() as int),
{
    let ghost all = views(records@);
    let mut srvs: Vec<SrvRecord> = Vec::new();
    let mut i: usize = 0;
    while i < records.len()
        invariant
            i <= records.len(),
            all == views(records@),
            views(srvs@) =~= additional_srvs(all, i as int),
        decreases records.len() - i,
    {
        let record = &records[i];
        assert(all[i as int] == record@);
        if let RecordData::Srv(entry) = &record.data {
            if let Ok(domain) = SrvDomain::try_from(record.name.as_str()) {
                gather(&mut srvs, domain, entry.clone(), record.ttl);
            }
        }
        i += 1;
    }
    srvs
}

/// Those of `hosts` that belong to the targets of the first `n` of
/// `entries`, in the order of the entries, each once.
pub open spec fn hosts_of_entries(
    entries: Seq<SrvEntryView>,
    hosts: Seq<AddrRecordView>,
    n: int,
) -> Seq<AddrRecordView>
    decreases n,
{
    if n <= 0 || n > entries.len() {
        Seq::empty()
    } else {
        let before = hosts_of_entries(entries, hosts, n - 1);
        let target = entries[n - 1].target;
        let k = host_index(hosts, target, 0);
        if 0 <= k < hosts.len() && host_index(before, target, 0) >= before.len() {
            before.push(hosts[k])
        } else {
            before
        }
    }
}

/// The hosts of the targets of `entries`.
fn select_hosts(entries: &Vec<SrvEntry>, hosts: &Vec<AddrRecord>) -> (r: Vec<AddrRecord>)
    ensures
        views(r@) == hosts_of_entries(views(entries@), views(hosts@), entries.len() as int),
{
    let ghost all = views(entries@);
    let mut out: Vec<AddrRecord> = Vec::new();
    let mut i: usize = 0;
    while i < entries.len()
        invariant
            i <= entries.len(),
            all == views(entries@),
            views(out@) =~= hosts_of_entries(all, views(hosts@), i as int),
        decreases entries.len() - i,
    {
        assert(all[i as int] == entries@[i as int]@);
        let k = find::<AddrRecord, String, IpAddr>(hosts, &entries[i].target);
        if k < hosts.len() {
            let seen = find::<AddrRecord, String, IpAddr>(&out, &entries[i].target);
            if seen >= out.len() {
                let ghost before = views(out@);
                let host = hosts[k].clone();
                out.push(host);
                assert(views(out@) =~= before.push(hosts@[k as int]@));
            }
        }
        i += 1;
    }
    out
}

/// `srvs`, each with those of `hosts` that belong to its targets.
pub open spec fn with_hosts(srvs: Seq<SrvRecordView>, hosts: Seq<AddrRecordView>) -> Seq<
    SrvRecordView,
> {
    Seq::new(
        srvs.len(),
        |i: int|
            SrvRecordView {
                entries: srvs[i].entries,
                domain: srvs[i].domain,
                ttl: srvs[i].ttl,
                additional_hosts: hosts_of_entries(
                    srvs[i].entries,
                    hosts,
                    srvs[i].entries.len() as int,
                ),
            },
    )
}

/// The NAPTR record that a response stands for: the NAPTR entries of the
/// answer, with the smallest TTL of the NAPTR records of the answer, and
/// with the SRV records and their hosts that the additional section brings. None where the
/// answer holds no NAPTR entry.
pub open spec fn naptr_answer(domain: Seq<char>, response: ResponseView) -> Option<
    NaptrRecordView,
> {
    let entries = naptr_entries(response.answers, response.answers.len() as int);
    if entries.len() == 0 {
        None
    } else {
        Some(
            NaptrRecordView {
                entries,
                domain,
                ttl: rrset_ttl(response.answers, RecordType::Naptr),
                additional_srvs: with_hosts(
                    additional_srvs(response.additionals, response.additionals.len() as int),
                    additional_hosts(response.additionals, response.additionals.len() as int),
                ),
            },
        )
    }
}

/// The NAPTR record that a response to a NAPTR query for `domain` stands
/// for; none where `domain` is no domain name, so that no query can have
/// been made for it.
pub fn naptr_lookup(domain: String, response: &Response) -> (r: Option<NaptrRecord>)
    ensures
        view_of(r) == if name_error(domain@) is Some {
            None
        } else {
            naptr_answer(domain@, response@)
        },
        r matches Some(record) ==> record@.wf(),
{
    proof {
        lemma_naptr_answer_distinct(domain@, response@);
    }
    if check_name(domain.as_str()).is_err() {
        return None;
    }
    let entries = collect_naptr_entries(&response.answers);
    if entries.len() == 0 {
        return None;
    }
    let ttl = calculate_rrset_ttl(&response.answers, RecordType::Naptr);
    let hosts = parse_additional_hosts(&response.additionals);
    let found = parse_additional_srvs(&response.additionals);
    let ghost srvs = views(found@);
    let mut additional_srvs: Vec<SrvRecord> = Vec::new();
    let mut i: usize = 0;
    while i < found.len()
        invariant
            i <= found.len(),
            srvs == views(found@),
            views(additional_srvs@) =~= with_hosts(srvs, views(hosts@)).take(i as int),
        decreases found.len() - i,
    {
        let srv = &found[i];
        assert(srvs[i as int] == srv@);
        let additional_hosts = select_hosts(&srv.entries, &hosts);
        let entries = srv.entries.clone();
        assert(views(entries@) =~= views(srv.entries@));
        let record = SrvRecord::with_additional_hosts(
            entries,
            srv.domain.clone(),
            srv.ttl,
            additional_hosts,
        );
        let ghost before = views(additional_srvs@);
        additional_srvs.push(record);
        assert(views(additional_srvs@) =~= before.push(record@));
        assert(with_hosts(srvs, views(hosts@)).take(i + 1) =~= with_hosts(
            srvs,
            views(hosts@),
        ).take(i as int).push(record@));
        i += 1;
    }
    assert(with_hosts(srvs, views(hosts@)).take(i as int) =~= with_hosts(srvs, views(hosts@)));
    Some(NaptrRecord::with_additional_srvs(entries, domain, ttl, additional_srvs))
}

/// The SRV record that a response stands for: the SRV entries of the
/// answer, with the smallest TTL of the SRV records of the answer, and with
/// the hosts that the additional section brings. None where the answer holds no SRV
/// entry.
pub open spec fn srv_answer(domain: SrvDomainView, response: ResponseView) -> Option<
    SrvRecordView,
> {
    let entries = srv_entries(response.answers, response.answers.len() as int);
    if entries.len() == 0 {
        None
    } else {
        Some(
            SrvRecordView {
                entries,
                domain,
                ttl: rrset_ttl(response.answers, RecordType::Srv),
                additional_hosts: additional_hosts(
                    response.additionals,
                    response.additionals.len() as int,
                ),
            },
        )
    }
}

/// The SRV record that a response to an SRV query for `srv_domain` stands
/// for; none where the name of `srv_domain` is no domain name, so that no
/// query can have been made for it.
pub fn srv_lookup(srv_domain: SrvDomain, response: &Response) -> (r: Option<SrvRecord>)
    ensures
        view_of(r) == if name_error(srv_domain@.name()) is Some {
            None
        } else {
            srv_answer(srv_domain@, response@)
        },
        r matches Some(record) ==> record@.wf(),
{
    if check_name(srv_domain.to_string().as_str()).is_err() {
        return None;
    }
    proof {
        lemma_gathered_all_distinct::<AddrRecord, String, IpAddr, RecordView>(
            response@.additionals,
            pick_address(),
            response@.additionals.len() as int,
        );
    }
    let entries = collect_srv_entries(&response.answers);
    if entries.len() == 0 {
        return None;
    }
    let ttl = calculate_rrset_ttl(&response.answers, RecordType::Srv);
    let additional_hosts = parse_additional_hosts(&response.additionals);
    Some(SrvRecord::with_additional_hosts(entries, srv_domain, ttl, additional_hosts))
}

/// The address record that the answers to an A query and to an AAAA query
/// for `domain` stand for: the addresses of the A records of the first,
/// then those of the AAAA records of the second, with the smallest TTL of
/// these records. An answer that could not be had counts as one without
/// records.
///
/// Fails with `DnsTransportFailure` where `domain` is no domain name, and
/// where there is no address.
pub fn ip_lookup(domain: String, a_answers: &Vec<Record>, aaaa_answers: &Vec<Record>) -> (r:
    Result<AddrRecord, Error>)
    ensures
        match name_error(domain@) {
            Some(words) => r matches Err(Error::DnsTransportFailure(message)) && message@
                == invalid_name_message(words),
            None => {
                let a = rrset(views(a_answers@), RecordType::A);
                let aaaa = rrset(views(aaaa_answers@), RecordType::Aaaa);
                let found = ip_addrs(a, a.len() as int) + ip_addrs(aaaa, aaaa.len() as int);
                match r {
                    Ok(record) => {
                        &&& found.len() > 0
                        &&& record@.ip_addrs == found
                        &&& record@.domain == domain@
                        &&& record@.ttl == min_ttl(a + aaaa)
                    },
                    Err(e) => {
                        &&& found.len() == 0
                        &&& e matches Error::DnsTransportFailure(message)
                        &&& message@ == no_address_message(domain@)
                    },
                }
            },
        },
{
    match check_name(domain.as_str()) {
        Err(error) => Err(error),
        Ok(_) => crate::hickory_dns::ip_lookup(domain, a_answers, aaaa_answers),
    }
}

/// The hosts that are picked for the targets of an SRV record hold each
/// name once, and each is the record of `hosts` for a target.
pub proof fn lemma_hosts_of_entries_distinct(
    entries: Seq<SrvEntryView>,
    hosts: Seq<AddrRecordView>,
    n: int,
)
    ensures
        distinct_hosts(hosts_of_entries(entries, hosts, n)),
        forall|i: int|
            0 <= i < hosts_of_entries(entries, hosts, n).len() ==> hosts.contains(
                #[trigger] hosts_of_entries(entries, hosts, n)[i],
            ),
    decreases n,
{
    if 0 < n <= entries.len() {
        lemma_hosts_of_entries_distinct(entries, hosts, n - 1);
        let before = hosts_of_entries(entries, hosts, n - 1);
        let target = entries[n - 1].target;
        lemma_first_index(hosts, is_for(target), 0);
        lemma_first_index(before, is_for(target), 0);
        let k = host_index(hosts, target, 0);
        if k < hosts.len() && host_index(before, target, 0) >= before.len() {
            let out = before.push(hosts[k]);
            assert forall|i: int| 0 <= i < out.len() implies hosts.contains(#[trigger] out[i]) by {
                if i < before.len() {
                    assert(out[i] == before[i]);
                }
            }
        }
    }
}

/// The records that come with a NAPTR answer are kept as in a map: each
/// SRV name has one record, and in it each host has one.
pub proof fn lemma_naptr_answer_distinct(domain: Seq<char>, response: ResponseView)
    ensures
        naptr_answer(domain, response) matches Some(record) ==> record.wf(),
{
    let n = response.additionals.len() as int;
    lemma_gathered_all_distinct::<SrvRecord, SrvDomain, SrvEntry, RecordView>(
        response.additionals,
        pick_srv(),
        n,
    );
    let srvs = additional_srvs(response.additionals, n);
    let hosts = additional_hosts(response.additionals, n);
    assert forall|i: int| 0 <= i < srvs.len() implies (#[trigger] with_hosts(srvs, hosts)[i]).wf() by {
        lemma_hosts_of_entries_distinct(srvs[i].entries, hosts, srvs[i].entries.len() as int);
    }
}

/// The address records of an additional section are a map from names to
/// hosts: under a name stands what the A and AAAA records of that name
/// say, their addresses in their order and the smallest of their TTLs; a
/// name without such a record has no host.
pub proof fn lemma_additional_hosts_by_name(records: Seq<RecordView>, name: Seq<char>, n: int)
    requires
        0 <= n <= records.len(),
    ensures
        match additional_for(additional_hosts(records, n), name) {
            Some(host) => {
                let picked = picked_under::<String, IpAddr, RecordView>(
                    records,
                    pick_address(),
                    name,
                    n,
                );
                &&& picked.len() > 0
                &&& host.domain == name
                &&& host.ip_addrs == items_of(picked)
                &&& host.ttl == least_ttl(picked)
            },
            None => picked_under::<String, IpAddr, RecordView>(records, pick_address(), name, n).len()
                == 0,
        },
{
    lemma_first_index(additional_hosts(records, n), is_for(name), 0);
    lemma_gathered_all_by_name::<AddrRecord, String, IpAddr, RecordView>(
        records,
        pick_address(),
        name,
        n,
    );
}

/// The SRV records of an additional section are a map from SRV names to
/// records: under a name stands what the SRV records of that name say,
/// their entries in their order and the smallest of their TTLs; a name
/// without such a record has none.
pub proof fn lemma_additional_srvs_by_name(records: Seq<RecordView>, domain: SrvDomainView, n: int)
    requires
        0 <= n <= records.len(),
    ensures
        match additional_srv_for(additional_srvs(records, n), domain) {
            Some(srv) => {
                let picked = picked_under::<SrvDomain, SrvEntry, RecordView>(
                    records,
                    pick_srv(),
                    domain,
                    n,
                );
                &&& picked.len() > 0
                &&& srv.domain == domain
                &&& srv.entries == items_of(picked)
                &&& srv.ttl == least_ttl(picked)
            },
            None => picked_under::<SrvDomain, SrvEntry, RecordView>(records, pick_srv(), domain, n).len()
                == 0,
        },
{
    lemma_first_index(additional_srvs(records, n), is_for_domain(domain), 0);
    lemma_gathered_all_by_name::<SrvRecord, SrvDomain, SrvEntry, RecordView>(
        records,
        pick_srv(),
        domain,
        n,
    );
}

} // verus!
