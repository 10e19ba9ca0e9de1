//! From the resource records of a DNS response to the records of a lookup.
//!
//! The functions of this module take the records that a resolver has handed
//! out. The module `recursive_client` works on whole responses, and makes use
//! of their additional section.

pub mod recursive_client;

use vstd::prelude::*;
use crate::error::Error;
use crate::gather::min_u32;
use crate::records::naptr_record::{
    NaptrEntry, NaptrEntryView, NaptrFlags, NaptrFlagsView, NaptrRecord, NaptrServices,
    NaptrServicesView,
};
use crate::records::srv_record::{SrvEntry, SrvEntryView, SrvRecord};
use crate::records::{views, AddrRecord, SrvDomain};
use crate::target::{IpAddr, DEFAULT_TTL};

verus! {

/// The kinds of record that a lookup asks for.
#[derive(Debug, Clone, Copy, PartialEq, Eq, Structural)]
pub enum RecordType {
    A,
    Aaaa,
    Srv,
    Naptr,
}

/// The data of a NAPTR resource record, as it stands in the response.
#[derive(Debug, PartialEq, Eq)]
pub struct NaptrData {
    pub order: u16,
    pub preference: u16,
    pub flags: Vec<u8>,
    pub services: Vec<u8>,
    pub regexp: Vec<u8>,
    pub replacement: String,
}

pub struct NaptrDataView {
    pub order: u16,
    pub preference: u16,
    pub flags: Seq<u8>,
    pub services: Seq<u8>,
    pub regexp: Seq<u8>,
    pub replacement: Seq<char>,
}

impl View for NaptrData {
    type V = NaptrDataView;

    open spec fn view(&self) -> NaptrDataView {
        NaptrDataView {
            order: self.order,
            preference: self.preference,
            flags: self.flags@,
            services: self.services@,
            regexp: self.regexp@,
            replacement: self.replacement@,
        }
    }
}

impl Clone for NaptrData {
    fn clone(&self) -> (r: Self)
        ensures
            r@ == self@,
    {
        NaptrData {
            order: self.order,
            preference: self.preference,
            flags: vstd::slice::slice_to_vec(self.flags.as_slice()),
            services: vstd::slice::slice_to_vec(self.services.as_slice()),
            regexp: vstd::slice::slice_to_vec(self.regexp.as_slice()),
            replacement: self.replacement.clone(),
        }
    }
}

impl NaptrDataView {
    /// The entry that the data stand for.
    pub open spec fn entry(self) -> NaptrEntryView {
        NaptrEntryView {
            order: self.order,
            preference: self.preference,
            flags: NaptrFlagsView::of_bytes(self.flags),
            services: NaptrServicesView::of_bytes(self.services),
            regexp: self.regexp,
            replacement: self.replacement,
        }
    }
}

/// The data of a resource record, for the kinds that a lookup reads.
#[derive(Debug, PartialEq, Eq)]
pub enum RecordData {
    A([u8; 4]),
    Aaaa([u8; 16]),
    Srv(SrvEntry),
    Naptr(NaptrData),
    Other,
}

pub enum RecordDataView {
    A([u8; 4]),
    Aaaa([u8; 16]),
    Srv(SrvEntryView),
    Naptr(NaptrDataView),
    Other,
}

impl View for RecordData {
    type V = RecordDataView;

    open spec fn view(&self) -> RecordDataView {
        match self {
            RecordData::A(octets) => RecordDataView::A(*octets),
            RecordData::Aaaa(octets) => RecordDataView::Aaaa(*octets),
            RecordData::Srv(entry) => RecordDataView::Srv(entry@),
            RecordData::Naptr(data) => RecordDataView::Naptr(data@),
            RecordData::Other => RecordDataView::Other,
        }
    }
}

impl Clone for RecordData {
    fn clone(&self) -> (r: Self)
        ensures
            r@ == self@,
    {
        match self {
            RecordData::A(octets) => RecordData::A(*octets),
            RecordData::Aaaa(octets) => RecordData::Aaaa(*octets),
            RecordData::Srv(entry) => RecordData::Srv(entry.clone()),
            RecordData::Naptr(data) => RecordData::Naptr(data.clone()),
            RecordData::Other => RecordData::Other,
        }
    }
}

impl RecordDataView {
    /// The type of the record that the data belong to; none for a type
    /// that a lookup does not read.
    pub open spec fn record_type(self) -> Option<RecordType> {
        match self {
            RecordDataView::A(_) => Some(RecordType::A),
            RecordDataView::Aaaa(_) => Some(RecordType::Aaaa),
            RecordDataView::Srv(_) => Some(RecordType::Srv),
            RecordDataView::Naptr(_) => Some(RecordType::Naptr),
            RecordDataView::Other => None,
        }
    }

    /// The address that the data hold, if they are those of an A or AAAA
    /// record.
    pub open spec fn ip_addr(self) -> Option<IpAddr> {
        match self {
            RecordDataView::A(octets) => Some(IpAddr::V4(octets)),
            RecordDataView::Aaaa(octets) => Some(IpAddr::V6(octets)),
            _ => None,
        }
    }
}

/// A resource record of a response.
#[derive(Debug, PartialEq, Eq)]
pub struct Record {
    pub name: String,
    pub ttl: u32,
    pub data: RecordData,
}

pub struct RecordView {
    pub name: Seq<char>,
    pub ttl: u32,
    pub data: RecordDataView,
}

impl View for Record {
    type V = RecordView;

    open spec fn view(&self) -> RecordView {
        RecordView { name: self.name@, ttl: self.ttl, data: self.data@ }
    }
}

impl RecordData {
    pub fn record_type(&self) -> (r: Option<RecordType>)
        ensures
            r == self@.record_type(),
    {
        match self {
            RecordData::A(_) => Some(RecordType::A),
            RecordData::Aaaa(_) => Some(RecordType::Aaaa),
            RecordData::Srv(_) => Some(RecordType::Srv),
            RecordData::Naptr(_) => Some(RecordType::Naptr),
            RecordData::Other => None,
        }
    }
}

impl Clone for Record {
    fn clone(&self) -> (r: Self)
        ensures
            r@ == self@,
    {
        Record { name: self.name.clone(), ttl: self.ttl, data: self.data.clone() }
    }
}

impl NaptrEntry {
    /// The entry that the data of a NAPTR resource record stand for.
    ///
    /// Fails with `ConversionFailure` on the data of any other record.
    pub fn try_from(rdata: &RecordData) -> (r: Result<NaptrEntry, Error>)
        ensures
            match rdata@ {
                RecordDataView::Naptr(data) => r is Ok && r->Ok_0@ == data.entry(),
                _ => r == Err::<NaptrEntry, Error>(Error::ConversionFailure),
            },
    {
        match rdata {
            RecordData::Naptr(data) => Ok(
                NaptrEntry {
                    order: data.order,
                    preference: data.preference,
                    flags: NaptrFlags::from_bytes(data.flags.as_slice()),
                    services: NaptrServices::from_bytes(data.services.as_slice()),
                    regexp: vstd::slice::slice_to_vec(data.regexp.as_slice()),
                    replacement: data.replacement.clone(),
                },
            ),
            _ => Err(Error::ConversionFailure),
        }
    }
}

/// The smallest TTL among the first `n` of `records`, and no more than
/// `start`.
pub open spec fn min_ttl_upto(records: Seq<RecordView>, n: int, start: u32) -> u32
    decreases n,
{
    if n <= 0 || n > records.len() {
        start
    } else {
        min_u32(min_ttl_upto(records, n - 1, start), records[n - 1].ttl)
    }
}

/// The TTL of a set of records: the smallest of theirs; the default for a
/// set without records.
pub open spec fn min_ttl(records: Seq<RecordView>) -> u32 {
    if records.len() == 0 {
        DEFAULT_TTL
    } else {
        min_ttl_upto(records, records.len() as int, u32::MAX)
    }
}

/// The smallest TTL is the TTL of one of the records, and none has less.
pub proof fn lemma_min_ttl(records: Seq<RecordView>, n: int, start: u32)
    requires
        0 <= n <= records.len(),
    ensures
        min_ttl_upto(records, n, start) <= start,
        forall|i: int| 0 <= i < n ==> min_ttl_upto(records, n, start) <= (#[trigger] records[i]).ttl,
        min_ttl_upto(records, n, start) == start || exists|i: int|
            0 <= i < n && min_ttl_upto(records, n, start) == (#[trigger] records[i]).ttl,
    decreases n,
{
    if n > 0 {
        lemma_min_ttl(records, n - 1, start);
        let before = min_ttl_upto(records, n - 1, start);
        if before != start && before <= records[n - 1].ttl {
            let i = choose|i: int| 0 <= i < n - 1 && before == (#[trigger] records[i]).ttl;
            assert(0 <= i < n && min_ttl_upto(records, n, start) == records[i].ttl);
        } else if before > records[n - 1].ttl {
            assert(min_ttl_upto(records, n, start) == records[n - 1].ttl);
        }
    }
}

/// The TTL of a set of records.
pub fn calculate_min_ttl(records: &Vec<Record>) -> (r: u32)
    ensures
        r == min_ttl(views(records@)),
        records.len() == 0 ==> r == DEFAULT_TTL,
        forall|i: int| 0 <= i < records.len() ==> r <= (#[trigger] records@[i]).ttl,
        records.len() > 0 ==> exists|i: int|
            0 <= i < records.len() && r == (#[trigger] records@[i]).ttl,
{
    if records.len() == 0 {
        return DEFAULT_TTL;
    }
    let ghost all = views(records@);
    let mut min: u32 = u32::MAX;
    let mut i: usize = 0;
    while i < records.len()
        invariant
            i <= records.len(),
            all == views(records@),
            min == min_ttl_upto(all, i as int, u32::MAX),
        decreases records.len() - i,
    {
        if records[i].ttl < min {
            min = records[i].ttl;
        }
        i += 1;
    }
    proof {
        lemma_min_ttl(all, i as int, u32::MAX);
        if min == u32::MAX {
            assert(all[0].ttl == u32::MAX);
            assert(records@[0].ttl == min);
        } else {
            let k = choose|k: int| 0 <= k < i && min == (#[trigger] all[k]).ttl;
            assert(records@[k].ttl == min);
        }
        assert forall|j: int| 0 <= j < records.len() implies min <= (#[trigger] records@[j]).ttl by {
            assert(all[j].ttl == records@[j].ttl);
        }
    }
    min
}

/// Those of the first `n` of `records` that are of one type, in their
/// order.
pub open spec fn of_type(records: Seq<RecordView>, record_type: RecordType, n: int) -> Seq<
    RecordView,
>
    decreases n,
{
    if n <= 0 || n > records.len() {
        Seq::empty()
    } else if records[n - 1].data.record_type() == Some(record_type) {
        of_type(records, record_type, n - 1).push(records[n - 1])
    } else {
        of_type(records, record_type, n - 1)
    }
}

/// The record set of one type in an answer: the records of that type.
pub open spec fn rrset(records: Seq<RecordView>, record_type: RecordType) -> Seq<RecordView> {
    of_type(records, record_type, records.len() as int)
}

/// The TTL of the record set of one type in an answer: the smallest TTL of
/// the records of that type, whatever else the answer holds; the default
/// where it holds no record of that type.
pub open spec fn rrset_ttl(records: Seq<RecordView>, record_type: RecordType) -> u32 {
    min_ttl(rrset(records, record_type))
}

/// The records of one type among the first `n` are exactly those: each
/// of them is one of the first `n` and of that type, and each of the first
/// `n` of that type is among them.
pub proof fn lemma_of_type(records: Seq<RecordView>, record_type: RecordType, n: int)
    requires
        0 <= n <= records.len(),
    ensures
        forall|j: int|
            0 <= j < of_type(records, record_type, n).len() ==> exists|i: int|
                0 <= i < n && records[i] == (#[trigger] of_type(records, record_type, n)[j])
                    && records[i].data.record_type() == Some(record_type),
        forall|i: int|
            0 <= i < n && (#[trigger] records[i]).data.record_type() == Some(record_type)
                ==> of_type(records, record_type, n).contains(records[i]),
    decreases n,
{
    if n > 0 {
        lemma_of_type(records, record_type, n - 1);
        let before = of_type(records, record_type, n - 1);
        let now = of_type(records, record_type, n);
        let last = records[n - 1];
        assert forall|j: int| 0 <= j < now.len() implies exists|i: int|
            0 <= i < n && records[i] == (#[trigger] now[j]) && records[i].data.record_type()
                == Some(record_type) by {
            if j < before.len() {
                assert(now[j] == before[j]);
                let i = choose|i: int|
                    0 <= i < n - 1 && records[i] == before[j] && records[i].data.record_type()
                        == Some(record_type);
                assert(0 <= i < n && records[i] == now[j]);
            } else {
                assert(records[n - 1] == now[j]);
            }
        }
        assert forall|i: int|
            0 <= i < n && (#[trigger] records[i]).data.record_type() == Some(
                record_type,
            ) implies now.contains(records[i]) by {
            if i < n - 1 {
                assert(before.contains(records[i]));
                let j = choose|j: int| 0 <= j < before.len() && before[j] == records[i];
                assert(now[j] == records[i]);
            } else {
                assert(now[now.len() - 1] == records[i]);
            }
        }
    }
}

/// The TTL of a record set is the smallest TTL among the records of its
/// type: no record of the type has less, one of them has as much, and
/// records of other types do not count. Without a record of the type it is
/// the default.
pub proof fn lemma_rrset_ttl(records: Seq<RecordView>, record_type: RecordType)
    ensures
        forall|i: int|
            0 <= i < records.len() && (#[trigger] records[i]).data.record_type() == Some(
                record_type,
            ) ==> rrset_ttl(records, record_type) <= records[i].ttl,
        rrset(records, record_type).len() > 0 ==> exists|i: int|
            0 <= i < records.len() && (#[trigger] records[i]).data.record_type() == Some(
                record_type,
            ) && rrset_ttl(records, record_type) == records[i].ttl,
        rrset(records, record_type).len() == 0 ==> rrset_ttl(records, record_type)
            == DEFAULT_TTL,
        rrset(records, record_type).len() == 0 <==> forall|i: int|
            0 <= i < records.len() ==> (#[trigger] records[i]).data.record_type() != Some(
                record_type,
            ),
{
    let set = rrset(records, record_type);
    let ttl = rrset_ttl(records, record_type);
    lemma_of_type(records, record_type, records.len() as int);
    lemma_min_ttl(set, set.len() as int, u32::MAX);
    assert forall|i: int|
        0 <= i < records.len() && (#[trigger] records[i]).data.record_type() == Some(
            record_type,
        ) implies ttl <= records[i].ttl by {
        assert(set.contains(records[i]));
        let j = choose|j: int| 0 <= j < set.len() && set[j] == records[i];
        assert(ttl <= set[j].ttl);
    }
    if set.len() > 0 {
        if ttl == u32::MAX {
            assert(ttl <= set[0].ttl);
            let i = choose|i: int|
                0 <= i < records.len() && records[i] == set[0] && records[i].data.record_type()
                    == Some(record_type);
            assert(ttl == records[i].ttl);
        } else {
            let j = choose|j: int| 0 <= j < set.len() && ttl == (#[trigger] set[j]).ttl;
            let i = choose|i: int|
                0 <= i < records.len() && records[i] == set[j] && records[i].data.record_type()
                    == Some(record_type);
            assert(ttl == records[i].ttl);
        }
        let i = choose|i: int|
            0 <= i < records.len() && records[i] == set[0] && records[i].data.record_type()
                == Some(record_type);
        assert(records[i].data.record_type() == Some(record_type));
    } else {
        assert forall|i: int| 0 <= i < records.len() implies (#[trigger] records[i]).data.record_type()
            != Some(record_type) by {
            if records[i].data.record_type() == Some(record_type) {
                assert(set.contains(records[i]));
            }
        }
    }
}

/// The record set of one type in an answer.
pub fn select(records: &Vec<Record>, record_type: RecordType) -> (r: Vec<Record>)
    ensures
        views(r@) == rrset(views(records@), record_type),
{
    let ghost all = views(records@);
    let mut out: Vec<Record> = Vec::new();
    let mut i: usize = 0;
    while i < records.len()
        invariant
            i <= records.len(),
            all == views(records@),
            views(out@) =~= of_type(all, record_type, i as int),
        decreases records.len() - i,
    {
        assert(all[i as int] == records@[i as int]@);
        let wanted = match records[i].data.record_type() {
            Some(found) => found == record_type,
            None => false,
        };
        if wanted {
            let ghost before = views(out@);
            out.push(records[i].clone());
            assert(views(out@) =~= before.push(records@[i as int]@));
        }
        i += 1;
    }
    out
}

/// The TTL of the record set of one type in an answer.
pub fn calculate_rrset_ttl(records: &Vec<Record>, record_type: RecordType) -> (r: u32)
    ensures
        r == rrset_ttl(views(records@), record_type),
{
    let set = select(records, record_type);
    calculate_min_ttl(&set)
}

/// The NAPTR entries among the first `n` of `records`, in their order.
pub open spec fn naptr_entries(records: Seq<RecordView>, n: int) -> Seq<NaptrEntryView>
    decreases n,
{
    if n <= 0 || n > records.len() {
        Seq::empty()
    } else {
        match records[n - 1].data {
            RecordDataView::Naptr(data) => naptr_entries(records, n - 1).push(data.entry()),
            _ => naptr_entries(records, n - 1),
        }
    }
}

/// The SRV entries among the first `n` of `records`, in their order.
pub open spec fn srv_entries(records: Seq<RecordView>, n: int) -> Seq<SrvEntryView>
    decreases n,
{
    if n <= 0 || n > records.len() {
        Seq::empty()
    } else {
        match records[n - 1].data {
            RecordDataView::Srv(entry) => srv_entries(records, n - 1).push(entry),
            _ => srv_entries(records, n - 1),
        }
    }
}

/// The addresses among the first `n` of `records`, in their order.
pub open spec fn ip_addrs(records: Seq<RecordView>, n: int) -> Seq<IpAddr>
    decreases n,
{
    if n <= 0 || n > records.len() {
        Seq::empty()
    } else {
        match records[n - 1].data.ip_addr() {
            Some(ip_addr) => ip_addrs(records, n - 1).push(ip_addr),
            None => ip_addrs(records, n - 1),
        }
    }
}

/// The NAPTR entries that `records` hold.
pub fn collect_naptr_entries(records: &Vec<Record>) -> (r: Vec<NaptrEntry>)
    ensures
        views(r@) == naptr_entries(views(records@), records.len() as int),
{
    let ghost all = views(records@);
    let mut out: Vec<NaptrEntry> = Vec::new();
    let mut i: usize = 0;
    while i < records.len()
        invariant
            i <= records.len(),
            all == views(records@),
            views(out@) =~= naptr_entries(all, i as int),
        decreases records.len() - i,
    {
        assert(all[i as int] == records@[i as int]@);
        match NaptrEntry::try_from(&records[i].data) {
            Ok(entry) => {
                let ghost before = views(out@);
                out.push(entry);
                assert(views(out@) =~= before.push(entry@));
            },
            Err(_) => {},
        }
        i += 1;
    }
    out
}

/// The SRV entries that `records` hold.
pub fn collect_srv_entries(records: &Vec<Record>) -> (r: Vec<SrvEntry>)
    ensures
        views(r@) == srv_entries(views(records@), records.len() as int),
{
    let ghost all = views(records@);
    let mut out: Vec<SrvEntry> = Vec::new();
    let mut i: usize = 0;
    while i < records.len()
        invariant
            i <= records.len(),
            all == views(records@),
            views(out@) =~= srv_entries(all, i as int),
        decreases records.len() - i,
    {
        assert(all[i as int] == records@[i as int]@);
        match &records[i].data {
            RecordData::Srv(entry) => {
                let ghost before = views(out@);
                out.push(entry.clone());
                assert(views(out@) =~= before.push(entry@));
            },
            _ => {},
        }
        i += 1;
    }
    out
}

/// Adds the addresses that `records` hold to `out`.
pub fn collect_ip_addrs(records: &Vec<Record>, out: &mut Vec<IpAddr>)
    ensures
        final(out)@ == old(out)@ + ip_addrs(views(records@), records.len() as int),
{
    let ghost all = views(records@);
    let ghost start = out@;
    let mut i: usize = 0;
    while i < records.len()
        invariant
            i <= records.len(),
            all == views(records@),
            out@ =~= start + ip_addrs(all, i as int),
        decreases records.len() - i,
    {
        assert(all[i as int] == records@[i as int]@);
        match &records[i].data {
            RecordData::A(octets) => {
                out.push(IpAddr::V4(*octets));
            },
            RecordData::Aaaa(octets) => {
                out.push(IpAddr::V6(*octets));
            },
            _ => {},
        }
        i += 1;
    }
}

/// The NAPTR record that a resolver's answer stands for: the NAPTR entries
/// among `records`, with the TTL of their record set.
pub fn naptr_lookup(domain: String, records: &Vec<Record>) -> (r: NaptrRecord)
    ensures
        r@.entries == naptr_entries(views(records@), records.len() as int),
        r@.domain == domain@,
        r@.ttl == rrset_ttl(views(records@), RecordType::Naptr),
        r@.additional_srvs.len() == 0,
        r@.wf(),
{
    let ttl = calculate_rrset_ttl(records, RecordType::Naptr);
    let entries = collect_naptr_entries(records);
    NaptrRecord::new(entries, domain, ttl)
}

/// The SRV record that a resolver's answer stands for: the SRV entries
/// among `records`, with the TTL of their record set.
pub fn srv_lookup(domain: SrvDomain, records: &Vec<Record>) -> (r: SrvRecord)
    ensures
        r@.entries == srv_entries(views(records@), records.len() as int),
        r@.domain == domain@,
        r@.ttl == rrset_ttl(views(records@), RecordType::Srv),
        r@.additional_hosts.len() == 0,
        r@.wf(),
{
    let ttl = calculate_rrset_ttl(records, RecordType::Srv);
    let entries = collect_srv_entries(records);
    SrvRecord::new(entries, domain, ttl)
}

/// The text of the failure of an address lookup that found no address.
pub open spec fn no_address_message(domain: Seq<char>) -> Seq<char> {
    "No A or AAAA records found for "@ + domain
}

/// The failure of an address lookup that found no address.
pub fn no_address(domain: &String) -> (r: Error)
    ensures
        r matches Error::DnsTransportFailure(message) && message@ == no_address_message(domain@),
{
    let mut message = String::from_str("No A or AAAA records found for ");
    message.append(domain.as_str());
    Error::DnsTransportFailure(message)
}

/// The address record that the answers to an A lookup and to an AAAA
/// lookup stand for: the addresses of the A records of the first, then
/// those of the AAAA records of the second, with the smallest TTL of
/// these records. Records of any other type count for nothing, and an
/// answer that could not be had counts as one without records.
///
/// Fails with `DnsTransportFailure` where there is no address.
pub fn ip_lookup(domain: String, a_records: &Vec<Record>, aaaa_records: &Vec<Record>) -> (r:
    Result<AddrRecord, Error>)
    ensures
        ({
            let a = rrset(views(a_records@), RecordType::A);
            let aaaa = rrset(views(aaaa_records@), RecordType::Aaaa);
            let found = ip_addrs(a, a.len() as int) + ip_addrs(aaaa, aaaa.len() as int);
            match r {
                Ok(record) => {
                    &&& found.len() > 0
                    &&& record@.ip_addrs == found
                    &&& record@.domain == domain@
                    &&& record@.ttl == min_ttl(a + aaaa)
                },
                Err(e) => {
                    &&& found.len() == 0
                    &&& e matches Error::DnsTransportFailure(message)
                    &&& message@ == no_address_message(domain@)
                },
            }
        }),
{
    let a = select(a_records, RecordType::A);
    let aaaa = select(aaaa_records, RecordType::Aaaa);
    let mut ip_addrs: Vec<IpAddr> = Vec::new();
    collect_ip_addrs(&a, &mut ip_addrs);
    collect_ip_addrs(&aaaa, &mut ip_addrs);
    if ip_addrs.len() == 0 {
        return Err(no_address(&domain));
    }
    let ttl = min_ttl_of_both(&a, &aaaa);
    Ok(AddrRecord { ip_addrs, domain, ttl })
}

/// The smallest TTL is the same whether it is taken over one sequence or
/// over its two halves in turn.
pub proof fn lemma_min_ttl_concat(a: Seq<RecordView>, b: Seq<RecordView>, n: int, start: u32)
    requires
        0 <= n <= b.len(),
    ensures
        min_ttl_upto(a + b, a.len() + n, start) == min_ttl_upto(
            b,
            n,
            min_ttl_upto(a, a.len() as int, start),
        ),
    decreases n,
{
    if n > 0 {
        lemma_min_ttl_concat(a, b, n - 1, start);
        assert((a + b)[a.len() + n - 1] == b[n - 1]);
    } else {
        lemma_prefix(a + b, a, a.len() as int, start);
    }
}

/// What is read off the first `n` records of an answer does not depend on
/// the records behind them.
pub proof fn lemma_prefix(a: Seq<RecordView>, b: Seq<RecordView>, n: int, start: u32)
    requires
        0 <= n <= a.len(),
        n <= b.len(),
        forall|i: int| 0 <= i < n ==> a[i] == b[i],
    ensures
        min_ttl_upto(a, n, start) == min_ttl_upto(b, n, start),
        ip_addrs(a, n) == ip_addrs(b, n),
        srv_entries(a, n) == srv_entries(b, n),
        naptr_entries(a, n) == naptr_entries(b, n),
    decreases n,
{
    if n > 0 {
        lemma_prefix(a, b, n - 1, start);
    }
}

/// The TTL of the records of two answers taken together.
pub fn min_ttl_of_both(a_records: &Vec<Record>, b_records: &Vec<Record>) -> (r: u32)
    ensures
        r == min_ttl(views(a_records@) + views(b_records@)),
{
    let ghost a = views(a_records@);
    let ghost b = views(b_records@);
    if a_records.len() == 0 {
        assert(a + b =~= b);
        return calculate_min_ttl(b_records);
    }
    if b_records.len() == 0 {
        assert(a + b =~= a);
        return calculate_min_ttl(a_records);
    }
    let first = calculate_min_ttl(a_records);
    let second = calculate_min_ttl(b_records);
    proof {
        lemma_min_ttl_concat(a, b, b.len() as int, u32::MAX);
        lemma_min_ttl_from(b, b.len() as int, first);
    }
    if first <= second {
        first
    } else {
        second
    }
}

/// Starting from a smaller TTL only caps the result.
pub proof fn lemma_min_ttl_from(records: Seq<RecordView>, n: int, start: u32)
    requires
        0 <= n <= records.len(),
    ensures
        min_ttl_upto(records, n, start) == min_u32(start, min_ttl_upto(records, n, u32::MAX)),
    decreases n,
{
    if n > 0 {
        lemma_min_ttl_from(records, n - 1, start);
    }
}

} // verus!
