//! NAPTR records.

use vstd::prelude::*;
use vstd::slice::slice_to_vec;
use crate::error::Error;
use crate::gather::{distinct, find, under};
use crate::records::srv_record::{SrvEntry, SrvRecord, SrvRecordView};
use crate::records::{views, SrvDomain, SrvDomainView};
use crate::search::{first_index, lemma_first_index_at};
use crate::sorting::{
    key_of, lemma_sort_ascending, lemma_sort_keeps_items, lemma_sort_len, lemma_sort_stable,
    of_key, sort_by_key, stable_sort, Keyed,
};
use crate::text::{bytes_eq_ignore_ascii_case, bytes_spell, string_from_utf8_lossy, utf8_lossy};
use crate::transport::Transport;

verus! {

/// The flags of a NAPTR entry. Only `S`, which says that the replacement
/// is an SRV name, is followed.
#[derive(Debug, PartialEq, Eq)]
pub enum NaptrFlags {
    S,
    A,
    U,
    P,
    Other(Vec<u8>),
}

pub enum NaptrFlagsView {
    S,
    A,
    U,
    P,
    Other(Seq<u8>),
}

impl View for NaptrFlags {
    type V = NaptrFlagsView;

    open spec fn view(&self) -> NaptrFlagsView {
        match self {
            NaptrFlags::S => NaptrFlagsView::S,
            NaptrFlags::A => NaptrFlagsView::A,
            NaptrFlags::U => NaptrFlagsView::U,
            NaptrFlags::P => NaptrFlagsView::P,
            NaptrFlags::Other(bytes) => NaptrFlagsView::Other(bytes@),
        }
    }
}

impl Clone for NaptrFlags {
    fn clone(&self) -> (r: Self)
        ensures
            r@ == self@,
    {
        match self {
            NaptrFlags::S => NaptrFlags::S,
            NaptrFlags::A => NaptrFlags::A,
            NaptrFlags::U => NaptrFlags::U,
            NaptrFlags::P => NaptrFlags::P,
            NaptrFlags::Other(bytes) => NaptrFlags::Other(slice_to_vec(bytes.as_slice())),
        }
    }
}

impl NaptrFlagsView {
    /// The flags that the bytes of a record spell: one letter, in either
    /// case, for the four that are known.
    pub open spec fn of_bytes(bytes: Seq<u8>) -> NaptrFlagsView {
        if bytes_spell(bytes, "s"@) {
            NaptrFlagsView::S
        } else if bytes_spell(bytes, "a"@) {
            NaptrFlagsView::A
        } else if bytes_spell(bytes, "u"@) {
            NaptrFlagsView::U
        } else if bytes_spell(bytes, "p"@) {
            NaptrFlagsView::P
        } else {
            NaptrFlagsView::Other(bytes)
        }
    }
}

impl NaptrFlags {
    pub fn from_bytes(bytes: &[u8]) -> (r: NaptrFlags)
        ensures
            r@ == NaptrFlagsView::of_bytes(bytes@),
    {
        if bytes_eq_ignore_ascii_case(bytes, "s") {
            NaptrFlags::S
        } else if bytes_eq_ignore_ascii_case(bytes, "a") {
            NaptrFlags::A
        } else if bytes_eq_ignore_ascii_case(bytes, "u") {
            NaptrFlags::U
        } else if bytes_eq_ignore_ascii_case(bytes, "p") {
            NaptrFlags::P
        } else {
            NaptrFlags::Other(slice_to_vec(bytes))
        }
    }

    pub fn is_s(&self) -> (r: bool)
        ensures
            r == (self@ == NaptrFlagsView::S),
    {
        match self {
            NaptrFlags::S => true,
            _ => false,
        }
    }
}

/// The service of a NAPTR entry: SIP or SIPS, over one transport.
#[derive(Debug, PartialEq, Eq)]
pub enum NaptrServices {
    SipD2t,
    SipD2u,
    SipD2s,
    SipD2w,
    SipsD2t,
    SipsD2u,
    SipsD2s,
    SipsD2w,
    Other(String),
}

pub enum NaptrServicesView {
    SipD2t,
    SipD2u,
    SipD2s,
    SipD2w,
    SipsD2t,
    SipsD2u,
    SipsD2s,
    SipsD2w,
    Other(Seq<char>),
}

impl View for NaptrServices {
    type V = NaptrServicesView;

    open spec fn view(&self) -> NaptrServicesView {
        match self {
            NaptrServices::SipD2t => NaptrServicesView::SipD2t,
            NaptrServices::SipD2u => NaptrServicesView::SipD2u,
            NaptrServices::SipD2s => NaptrServicesView::SipD2s,
            NaptrServices::SipD2w => NaptrServicesView::SipD2w,
            NaptrServices::SipsD2t => NaptrServicesView::SipsD2t,
            NaptrServices::SipsD2u => NaptrServicesView::SipsD2u,
            NaptrServices::SipsD2s => NaptrServicesView::SipsD2s,
            NaptrServices::SipsD2w => NaptrServicesView::SipsD2w,
            NaptrServices::Other(text) => NaptrServicesView::Other(text@),
        }
    }
}

impl Clone for NaptrServices {
    fn clone(&self) -> (r: Self)
        ensures
            r@ == self@,
    {
        match self {
            NaptrServices::SipD2t => NaptrServices::SipD2t,
            NaptrServices::SipD2u => NaptrServices::SipD2u,
            NaptrServices::SipD2s => NaptrServices::SipD2s,
            NaptrServices::SipD2w => NaptrServices::SipD2w,
            NaptrServices::SipsD2t => NaptrServices::SipsD2t,
            NaptrServices::SipsD2u => NaptrServices::SipsD2u,
            NaptrServices::SipsD2s => NaptrServices::SipsD2s,
            NaptrServices::SipsD2w => NaptrServices::SipsD2w,
            NaptrServices::Other(text) => NaptrServices::Other(text.clone()),
        }
    }
}

impl NaptrServicesView {
    /// The transport that the service runs over; none for a service that
    /// is not known.
    pub open spec fn transport(self) -> Option<Transport> {
        match self {
            NaptrServicesView::SipD2t => Some(Transport::Tcp),
            NaptrServicesView::SipD2u => Some(Transport::Udp),
            NaptrServicesView::SipD2s => Some(Transport::Sctp),
            NaptrServicesView::SipD2w => Some(Transport::Ws),
            NaptrServicesView::SipsD2t => Some(Transport::Tls),
            NaptrServicesView::SipsD2u => Some(Transport::Udp),
            NaptrServicesView::SipsD2s => Some(Transport::TlsSctp),
            NaptrServicesView::SipsD2w => Some(Transport::Wss),
            NaptrServicesView::Other(_) => None,
        }
    }

    /// The service that the bytes of a record spell, in either case.
    pub open spec fn of_bytes(bytes: Seq<u8>) -> NaptrServicesView {
        if bytes_spell(bytes, "sip+d2t"@) {
            NaptrServicesView::SipD2t
        } else if bytes_spell(bytes, "sip+d2u"@) {
            NaptrServicesView::SipD2u
        } else if bytes_spell(bytes, "sip+d2s"@) {
            NaptrServicesView::SipD2s
        } else if bytes_spell(bytes, "sip+d2w"@) {
            NaptrServicesView::SipD2w
        } else if bytes_spell(bytes, "sips+d2t"@) {
            NaptrServicesView::SipsD2t
        } else if bytes_spell(bytes, "sips+d2u"@) {
            NaptrServicesView::SipsD2u
        } else if bytes_spell(bytes, "sips+d2s"@) {
            NaptrServicesView::SipsD2s
        } else if bytes_spell(bytes, "sips+d2w"@) {
            NaptrServicesView::SipsD2w
        } else {
            NaptrServicesView::Other(utf8_lossy(bytes))
        }
    }
}

impl NaptrServices {
    pub fn from_bytes(bytes: &[u8]) -> (r: NaptrServices)
        ensures
            r@ == NaptrServicesView::of_bytes(bytes@),
    {
        if bytes_eq_ignore_ascii_case(bytes, "sip+d2t") {
            NaptrServices::SipD2t
        } else if bytes_eq_ignore_ascii_case(bytes, "sip+d2u") {
            NaptrServices::SipD2u
        } else if bytes_eq_ignore_ascii_case(bytes, "sip+d2s") {
            NaptrServices::SipD2s
        } else if bytes_eq_ignore_ascii_case(bytes, "sip+d2w") {
            NaptrServices::SipD2w
        } else if bytes_eq_ignore_ascii_case(bytes, "sips+d2t") {
            NaptrServices::SipsD2t
        } else if bytes_eq_ignore_ascii_case(bytes, "sips+d2u") {
            NaptrServices::SipsD2u
        } else if bytes_eq_ignore_ascii_case(bytes, "sips+d2s") {
            NaptrServices::SipsD2s
        } else if bytes_eq_ignore_ascii_case(bytes, "sips+d2w") {
            NaptrServices::SipsD2w
        } else {
            NaptrServices::Other(string_from_utf8_lossy(bytes))
        }
    }

    pub fn transport(&self) -> (r: Option<Transport>)
        ensures
            r == self@.transport(),
    {
        match self {
            NaptrServices::SipD2t => Some(Transport::Tcp),
            NaptrServices::SipD2u => Some(Transport::Udp),
            NaptrServices::SipD2s => Some(Transport::Sctp),
            NaptrServices::SipD2w => Some(Transport::Ws),
            NaptrServices::SipsD2t => Some(Transport::Tls),
            NaptrServices::SipsD2u => Some(Transport::Udp),
            NaptrServices::SipsD2s => Some(Transport::TlsSctp),
            NaptrServices::SipsD2w => Some(Transport::Wss),
            NaptrServices::Other(_) => None,
        }
    }
}

/// One entry of a NAPTR record.
#[derive(Debug, PartialEq, Eq)]
pub struct NaptrEntry {
    pub order: u16,
    pub preference: u16,
    pub flags: NaptrFlags,
    pub services: NaptrServices,
    pub regexp: Vec<u8>,
    pub replacement: String,
}

pub struct NaptrEntryView {
    pub order: u16,
    pub preference: u16,
    pub flags: NaptrFlagsView,
    pub services: NaptrServicesView,
    pub regexp: Seq<u8>,
    pub replacement: Seq<char>,
}

impl View for NaptrEntry {
    type V = NaptrEntryView;

    open spec fn view(&self) -> NaptrEntryView {
        NaptrEntryView {
            order: self.order,
            preference: self.preference,
            flags: self.flags@,
            services: self.services@,
            regexp: self.regexp@,
            replacement: self.replacement@,
        }
    }
}

impl Clone for NaptrEntry {
    fn clone(&self) -> (r: Self)
        ensures
            r@ == self@,
    {
        NaptrEntry {
            order: self.order,
            preference: self.preference,
            flags: self.flags.clone(),
            services: self.services.clone(),
            regexp: slice_to_vec(self.regexp.as_slice()),
            replacement: self.replacement.clone(),
        }
    }
}

impl NaptrEntryView {
    /// The SRV name that the entry points to, where its replacement is one.
    pub open spec fn srv_domain(self) -> Option<SrvDomainView> {
        SrvDomainView::parse(self.replacement)
    }

    /// The place of the entry among the entries of its record: by order,
    /// then by preference.
    pub open spec fn rank(self) -> int {
        self.order * 65536 + self.preference
    }

    /// The entry is followed no later than `other`: its order is lower,
    /// or the same with a preference that is no higher.
    pub open spec fn not_after(self, other: NaptrEntryView) -> bool {
        self.order < other.order || (self.order == other.order && self.preference
            <= other.preference)
    }
}

impl NaptrEntry {
    /// The SRV name that the entry points to.
    pub fn srv_domain(&self) -> (r: Result<SrvDomain, Error>)
        ensures
            match self@.srv_domain() {
                Some(v) => r is Ok && r->Ok_0@ == v,
                None => r == Err::<SrvDomain, Error>(Error::ConversionFailure),
            },
    {
        SrvDomain::try_from(self.replacement.as_str())
    }

    pub fn rank(&self) -> (r: u32)
        ensures
            r == self@.rank(),
    {
        self.order as u32 * 65536 + self.preference as u32
    }
}

impl Keyed for NaptrEntry {
    /// The rank of the entry.
    open spec fn key(view: NaptrEntryView) -> int {
        view.rank()
    }

    fn sort_key(&self) -> (k: i64) {
        self.rank() as i64
    }

    fn duplicate(&self) -> (r: Self) {
        self.clone()
    }
}

/// The key that puts the entries of a NAPTR record in the order in which
/// they are followed.
pub open spec fn naptr_key() -> spec_fn(NaptrEntryView) -> int {
    key_of::<NaptrEntry>()
}

/// The entries `s` in the order in which they are followed: by rising
/// order, then by rising preference, then as they stand in `s`.
pub open spec fn naptr_sorted(s: Seq<NaptrEntryView>) -> Seq<NaptrEntryView> {
    stable_sort(s, naptr_key())
}

/// What tells the records for `domain` from the others.
pub open spec fn is_for_domain(domain: SrvDomainView) -> spec_fn(SrvRecordView) -> bool {
    under::<SrvRecord, SrvDomain, SrvEntry>(domain)
}

/// The place in `srvs` of the first record for `domain`, looking from
/// `from` on; the length of `srvs` where there is none.
pub open spec fn srv_index(srvs: Seq<SrvRecordView>, domain: SrvDomainView, from: int) -> int {
    first_index(srvs, is_for_domain(domain), from)
}

/// The SRV record that came along for `domain`, if one did.
pub open spec fn additional_srv_for(srvs: Seq<SrvRecordView>, domain: SrvDomainView) -> Option<
    SrvRecordView,
> {
    let i = srv_index(srvs, domain, 0);
    if i < srvs.len() {
        Some(srvs[i])
    } else {
        None
    }
}

/// No two of `srvs` are for the same name: they can be searched by name
/// as a map can.
pub open spec fn distinct_srvs(srvs: Seq<SrvRecordView>) -> bool {
    distinct::<SrvRecord, SrvDomain, SrvEntry>(srvs)
}

/// A NAPTR record: its entries, and the SRV records that the response
/// brought along.
#[derive(Debug, PartialEq, Eq)]
pub struct NaptrRecord {
    pub entries: Vec<NaptrEntry>,
    pub domain: String,
    pub ttl: u32,
    /// SRV records from the additional section of the response, each
    /// under its own name.
    pub additional_srvs: Vec<SrvRecord>,
}

pub struct NaptrRecordView {
    pub entries: Seq<NaptrEntryView>,
    pub domain: Seq<char>,
    pub ttl: u32,
    pub additional_srvs: Seq<SrvRecordView>,
}

impl View for NaptrRecord {
    type V = NaptrRecordView;

    open spec fn view(&self) -> NaptrRecordView {
        NaptrRecordView {
            entries: views(self.entries@),
            domain: self.domain@,
            ttl: self.ttl,
            additional_srvs: views(self.additional_srvs@),
        }
    }
}

impl NaptrRecordView {
    /// The SRV records that came along are kept as in a map: each SRV
    /// name has one record, and in it each host has one.
    pub open spec fn wf(self) -> bool {
        &&& distinct_srvs(self.additional_srvs)
        &&& forall|i: int|
            0 <= i < self.additional_srvs.len() ==> (#[trigger] self.additional_srvs[i]).wf()
    }
}

impl Clone for NaptrRecord {
    fn clone(&self) -> (r: Self)
        ensures
            r@ == self@,
    {
        let entries = self.entries.clone();
        let additional_srvs = self.additional_srvs.clone();
        assert(views(entries@) =~= views(self.entries@));
        assert(views(additional_srvs@) =~= views(self.additional_srvs@));
        NaptrRecord { entries, domain: self.domain.clone(), ttl: self.ttl, additional_srvs }
    }
}

impl NaptrRecord {
    /// A record that came without SRV records.
    pub fn new(entries: Vec<NaptrEntry>, domain: String, ttl: u32) -> (r: Self)
        ensures
            r.entries == entries,
            r.domain == domain,
            r.ttl == ttl,
            r.additional_srvs@.len() == 0,
            r@.wf(),
    {
        NaptrRecord { entries, domain, ttl, additional_srvs: Vec::new() }
    }

    /// A record with the SRV records that the response brought along.
    pub fn with_additional_srvs(
        entries: Vec<NaptrEntry>,
        domain: String,
        ttl: u32,
        additional_srvs: Vec<SrvRecord>,
    ) -> (r: Self)
        ensures
            r == (NaptrRecord { entries, domain, ttl, additional_srvs }),
    {
        NaptrRecord { entries, domain, ttl, additional_srvs }
    }

    /// The SRV record that came along for `domain`: the first under that
    /// name.
    pub fn get_additional_srv(&self, domain: &SrvDomain) -> (r: Option<&SrvRecord>)
        ensures
            match r {
                Some(s) => additional_srv_for(self@.additional_srvs, domain@) == Some(s@),
                None => additional_srv_for(self@.additional_srvs, domain@) is None,
            },
    {
        let i = find::<SrvRecord, SrvDomain, SrvEntry>(&self.additional_srvs, domain);
        if i < self.additional_srvs.len() {
            Some(&self.additional_srvs[i])
        } else {
            None
        }
    }

    /// The record with its entries in the order in which they are followed.
    pub fn sorted(self) -> (r: Self)
        ensures
            r@.entries == naptr_sorted(self@.entries),
            r@.domain == self@.domain,
            r@.ttl == self@.ttl,
            r@.additional_srvs == self@.additional_srvs,
    {
        let entries = sort_entries(&self.entries);
        NaptrRecord {
            entries,
            domain: self.domain,
            ttl: self.ttl,
            additional_srvs: self.additional_srvs,
        }
    }
}

/// The entries in the order in which they are followed.
pub fn sort_entries(entries: &Vec<NaptrEntry>) -> (r: Vec<NaptrEntry>)
    ensures
        views(r@) == naptr_sorted(views(entries@)),
{
    sort_by_key(entries)
}

/// The order in which the entries of a NAPTR record are followed: by
/// rising order, entries of one order by rising preference, entries of
/// one order and preference in the order of the record; and the entries
/// are those of the record.
pub proof fn lemma_naptr_sorted(s: Seq<NaptrEntryView>)
    ensures
        naptr_sorted(s).len() == s.len(),
        forall|i: int, j: int|
            0 <= i < j < s.len() ==> (#[trigger] naptr_sorted(s)[i]).not_after(
                #[trigger] naptr_sorted(s)[j],
            ),
        forall|rank: int|
            of_key(naptr_sorted(s), naptr_key(), rank)
                == #[trigger] of_key(s, naptr_key(), rank),
        forall|i: int| 0 <= i < s.len() ==> s.contains(#[trigger] naptr_sorted(s)[i]),
{
    let key = naptr_key();
    lemma_sort_len(s, key);
    lemma_sort_ascending(s, key);
    lemma_sort_keeps_items(s, key);
    let sorted = naptr_sorted(s);
    assert forall|i: int, j: int| 0 <= i < j < s.len() implies (#[trigger] sorted[i]).not_after(
        #[trigger] sorted[j],
    ) by {
        assert(key(sorted[i]) <= key(sorted[j]));
    }
    assert forall|rank: int|
        of_key(sorted, key, rank) == #[trigger] of_key(
            s,
            key,
            rank,
        ) by {
        lemma_sort_stable(s, key, rank);
    }
}

/// Where each SRV name has one record, the record of a name is the one
/// that is found under it.
pub proof fn lemma_distinct_srvs_lookup(srvs: Seq<SrvRecordView>, i: int)
    requires
        distinct_srvs(srvs),
        0 <= i < srvs.len(),
    ensures
        additional_srv_for(srvs, srvs[i].domain) == Some(srvs[i]),
{
    lemma_first_index_at(srvs, is_for_domain(srvs[i].domain), 0, i);
}

} // verus!
