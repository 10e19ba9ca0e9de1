//! SRV records.

use vstd::prelude::*;
use crate::gather::{distinct, find, min_u32, under, Gathers};
use crate::records::{views, AddrRecord, AddrRecordView, SrvDomain, SrvDomainView};
use crate::search::{first_index, lemma_first_index_at};
use crate::sorting::{
    key_of, lemma_sort_ascending, lemma_sort_keeps_items, lemma_sort_len, lemma_sort_stable,
    of_key, sort_by_key, stable_sort, Keyed,
};
use crate::target::IpAddr;
use crate::transport::Transport;

verus! {

/// One entry of an SRV record.
#[derive(Debug, PartialEq, Eq)]
pub struct SrvEntry {
    pub priority: u16,
    pub weight: u16,
    pub port: u16,
    pub target: String,
}

pub struct SrvEntryView {
    pub priority: u16,
    pub weight: u16,
    pub port: u16,
    pub target: Seq<char>,
}

impl View for SrvEntry {
    type V = SrvEntryView;

    open spec fn view(&self) -> SrvEntryView {
        SrvEntryView {
            priority: self.priority,
            weight: self.weight,
            port: self.port,
            target: self.target@,
        }
    }
}

impl Clone for SrvEntry {
    fn clone(&self) -> (r: Self)
        ensures
            r@ == self@,
    {
        SrvEntry {
            priority: self.priority,
            weight: self.weight,
            port: self.port,
            target: self.target.clone(),
        }
    }
}

impl SrvEntryView {
    /// The weight by which entries are tried: a low priority number and a
    /// high weight both raise it.
    pub open spec fn total_weight(self) -> int {
        (10000 - self.priority) + self.weight
    }
}

/// The name of a sample target: `_sip._tls.` before the domain where the
/// sample is secure, the token of the transport in place of `tls` where it
/// is not.
pub open spec fn sample_target(secure: bool, transport: Transport, domain: Seq<char>) -> Seq<char> {
    "_sip._"@ + (if secure {
        Transport::Tls
    } else {
        transport
    }).spec_token() + "."@ + domain
}

impl SrvEntry {
    /// An entry for tests, from values that the caller has drawn: its target
    /// is named after the transport and the domain.
    pub fn sample(
        secure: bool,
        transport: Transport,
        priority: u16,
        weight: u16,
        port: u16,
        domain: &str,
    ) -> (r: SrvEntry)
        ensures
            r@ == (SrvEntryView {
                priority,
                weight,
                port,
                target: sample_target(secure, transport, domain@),
            }),
    {
        let transport = if secure {
            Transport::Tls
        } else {
            transport
        };
        let mut target = String::from_str("_sip._");
        target.append(transport.token());
        target.append(".");
        target.append(domain);
        SrvEntry { priority, weight, port, target }
    }

    pub fn total_weight(&self) -> (r: i32)
        ensures
            r == self@.total_weight(),
    {
        (10000 - self.priority as i32) + self.weight as i32
    }
}

impl Keyed for SrvEntry {
    /// The heaviest entry has the smallest key, and so comes first.
    open spec fn key(view: SrvEntryView) -> int {
        -view.total_weight()
    }

    fn sort_key(&self) -> (k: i64) {
        -(self.total_weight() as i64)
    }

    fn duplicate(&self) -> (r: Self) {
        self.clone()
    }
}

/// The key that puts the entries of an SRV record in the order in which they
/// are tried: the heaviest first.
pub open spec fn srv_key() -> spec_fn(SrvEntryView) -> int {
    key_of::<SrvEntry>()
}

/// The entries `s` in the order in which they are tried: by falling total
/// weight, those of one weight as they stand in `s`.
pub open spec fn srv_sorted(s: Seq<SrvEntryView>) -> Seq<SrvEntryView> {
    stable_sort(s, srv_key())
}

/// What tells the records for `target` from the others.
pub open spec fn is_for(target: Seq<char>) -> spec_fn(AddrRecordView) -> bool {
    under::<AddrRecord, String, IpAddr>(target)
}

/// The place in `hosts` of the first record for `target`, looking from
/// `from` on; the length of `hosts` where there is none.
pub open spec fn host_index(hosts: Seq<AddrRecordView>, target: Seq<char>, from: int) -> int {
    first_index(hosts, is_for(target), from)
}

/// The addresses that came along for `target`, if any did.
pub open spec fn additional_for(hosts: Seq<AddrRecordView>, target: Seq<char>) -> Option<
    AddrRecordView,
> {
    let i = host_index(hosts, target, 0);
    if i < hosts.len() {
        Some(hosts[i])
    } else {
        None
    }
}

/// No two of `hosts` are for the same name: they can be searched by name
/// as a map can.
pub open spec fn distinct_hosts(hosts: Seq<AddrRecordView>) -> bool {
    distinct::<AddrRecord, String, IpAddr>(hosts)
}

/// How many of the first `n` entries have their addresses among `hosts`.
pub open spec fn covered(entries: Seq<SrvEntryView>, hosts: Seq<AddrRecordView>, n: int) -> nat
    decreases n,
{
    if n <= 0 || n > entries.len() {
        0
    } else if additional_for(hosts, entries[n - 1].target) is Some {
        covered(entries, hosts, n - 1) + 1
    } else {
        covered(entries, hosts, n - 1)
    }
}

pub proof fn lemma_covered_bound(entries: Seq<SrvEntryView>, hosts: Seq<AddrRecordView>, n: int)
    requires
        0 <= n <= entries.len(),
    ensures
        covered(entries, hosts, n) <= n,
        covered(entries, hosts, n) == n <==> forall|i: int|
            0 <= i < n ==> additional_for(hosts, #[trigger] entries[i].target) is Some,
    decreases n,
{
    if n > 0 {
        lemma_covered_bound(entries, hosts, n - 1);
    }
}

/// An SRV record: its entries, and the addresses of their targets that
/// the response brought along.
#[derive(Debug, PartialEq, Eq)]
pub struct SrvRecord {
    pub entries: Vec<SrvEntry>,
    pub domain: SrvDomain,
    pub ttl: u32,
    /// Address records from the additional section of the response, each
    /// under the name of the host it is for.
    pub additional_hosts: Vec<AddrRecord>,
}

pub struct SrvRecordView {
    pub entries: Seq<SrvEntryView>,
    pub domain: SrvDomainView,
    pub ttl: u32,
    pub additional_hosts: Seq<AddrRecordView>,
}

impl View for SrvRecord {
    type V = SrvRecordView;

    open spec fn view(&self) -> SrvRecordView {
        SrvRecordView {
            entries: views(self.entries@),
            domain: self.domain@,
            ttl: self.ttl,
            additional_hosts: views(self.additional_hosts@),
        }
    }
}

impl Clone for SrvRecord {
    fn clone(&self) -> (r: Self)
        ensures
            r@ == self@,
    {
        let entries = self.entries.clone();
        let additional_hosts = self.additional_hosts.clone();
        assert(views(entries@) =~= views(self.entries@));
        assert(views(additional_hosts@) =~= views(self.additional_hosts@));
        SrvRecord { entries, domain: self.domain.clone(), ttl: self.ttl, additional_hosts }
    }
}

impl Gathers<SrvDomain, SrvEntry> for SrvRecord {
    open spec fn name(view: SrvRecordView) -> SrvDomainView {
        view.domain
    }

    open spec fn items(view: SrvRecordView) -> Seq<SrvEntryView> {
        view.entries
    }

    open spec fn ttl(view: SrvRecordView) -> u32 {
        view.ttl
    }

    open spec fn fresh(name: SrvDomainView, item: SrvEntryView, ttl: u32) -> SrvRecordView {
        SrvRecordView { entries: seq![item], domain: name, ttl, additional_hosts: Seq::empty() }
    }

    open spec fn grown(view: SrvRecordView, item: SrvEntryView, ttl: u32) -> SrvRecordView {
        SrvRecordView {
            entries: view.entries.push(item),
            domain: view.domain,
            ttl: min_u32(view.ttl, ttl),
            additional_hosts: view.additional_hosts,
        }
    }

    proof fn lemma_fresh(name: SrvDomainView, item: SrvEntryView, ttl: u32) {
    }

    proof fn lemma_grown(view: SrvRecordView, item: SrvEntryView, ttl: u32) {
    }

    fn is_under(&self, name: &SrvDomain) -> (r: bool) {
        self.domain.same(name)
    }

    fn start(name: SrvDomain, item: SrvEntry, ttl: u32) -> (r: Self) {
        let mut entries: Vec<SrvEntry> = Vec::new();
        entries.push(item);
        let r = SrvRecord::new(entries, name, ttl);
        assert(r@.entries =~= seq![item@]);
        assert(r@.additional_hosts =~= Seq::empty());
        r
    }

    fn grow(&mut self, item: SrvEntry, ttl: u32) {
        let ghost before = views(self.entries@);
        self.entries.push(item);
        assert(views(self.entries@) =~= before.push(item@));
        if ttl < self.ttl {
            self.ttl = ttl;
        }
    }
}

impl SrvRecordView {
    pub open spec fn transport(self) -> Transport {
        self.domain.transport()
    }

    /// The addresses that came along are kept as in a map: each host has
    /// one record.
    pub open spec fn wf(self) -> bool {
        distinct_hosts(self.additional_hosts)
    }
}

impl SrvRecord {
    /// A record that came without addresses for its targets.
    pub fn new(entries: Vec<SrvEntry>, domain: SrvDomain, ttl: u32) -> (r: Self)
        ensures
            r.entries == entries,
            r.domain == domain,
            r.ttl == ttl,
            r.additional_hosts@.len() == 0,
            r@.wf(),
    {
        SrvRecord { entries, domain, ttl, additional_hosts: Vec::new() }
    }

    /// A record with the addresses that the response brought along.
    pub fn with_additional_hosts(
        entries: Vec<SrvEntry>,
        domain: SrvDomain,
        ttl: u32,
        additional_hosts: Vec<AddrRecord>,
    ) -> (r: Self)
        ensures
            r == (SrvRecord { entries, domain, ttl, additional_hosts }),
    {
        SrvRecord { entries, domain, ttl, additional_hosts }
    }

    /// The addresses that came along for `target`: the first record under
    /// that name.
    pub fn get_additional_for_target(&self, target: &String) -> (r: Option<&AddrRecord>)
        ensures
            match r {
                Some(a) => additional_for(self@.additional_hosts, target@) == Some(a@),
                None => additional_for(self@.additional_hosts, target@) is None,
            },
    {
        let i = find::<AddrRecord, String, IpAddr>(&self.additional_hosts, target);
        if i < self.additional_hosts.len() {
            Some(&self.additional_hosts[i])
        } else {
            None
        }
    }

    /// Whether the addresses of every target came along.
    pub fn has_complete_additionals(&self) -> (r: bool)
        ensures
            r == forall|i: int|
                0 <= i < self@.entries.len() ==> additional_for(
                    self@.additional_hosts,
                    #[trigger] self@.entries[i].target,
                ) is Some,
    {
        let mut i: usize = 0;
        while i < self.entries.len()
            invariant
                i <= self.entries.len(),
                forall|j: int|
                    0 <= j < i ==> additional_for(
                        self@.additional_hosts,
                        #[trigger] self@.entries[j].target,
                    ) is Some,
            decreases self.entries.len() - i,
        {
            if self.get_additional_for_target(&self.entries[i].target).is_none() {
                assert(self@.entries[i as int].target == self.entries@[i as int].target@);
                return false;
            }
            assert(self@.entries[i as int].target == self.entries@[i as int].target@);
            i += 1;
        }
        true
    }

    /// The number of entries whose target's addresses came along.
    pub fn additional_covered(&self) -> (r: usize)
        ensures
            r == covered(self@.entries, self@.additional_hosts, self@.entries.len() as int),
            r <= self.entries.len(),
    {
        let mut n: usize = 0;
        let mut i: usize = 0;
        while i < self.entries.len()
            invariant
                i <= self.entries.len(),
                n <= i,
                n == covered(self@.entries, self@.additional_hosts, i as int),
            decreases self.entries.len() - i,
        {
            assert(self@.entries[i as int].target == self.entries@[i as int].target@);
            if self.get_additional_for_target(&self.entries[i].target).is_some() {
                n += 1;
            }
            i += 1;
        }
        n
    }

    pub fn targets(&self) -> (r: Vec<String>)
        ensures
            r@.len() == self@.entries.len(),
            forall|i: int| 0 <= i < r@.len() ==> (#[trigger] r@[i])@ == self@.entries[i].target,
    {
        let mut r: Vec<String> = Vec::new();
        let mut i: usize = 0;
        while i < self.entries.len()
            invariant
                i <= self.entries.len(),
                r@.len() == i,
                forall|j: int| 0 <= j < i ==> (#[trigger] r@[j])@ == self@.entries[j].target,
            decreases self.entries.len() - i,
        {
            assert(self@.entries[i as int].target == self.entries@[i as int].target@);
            r.push(self.entries[i].target.clone());
            i += 1;
        }
        r
    }

    pub fn domains_with_ports(&self) -> (r: Vec<(String, u16)>)
        ensures
            r@.len() == self@.entries.len(),
            forall|i: int|
                0 <= i < r@.len() ==> (#[trigger] r@[i]).0@ == self@.entries[i].target
                    && r@[i].1 == self@.entries[i].port,
    {
        let mut r: Vec<(String, u16)> = Vec::new();
        let mut i: usize = 0;
        while i < self.entries.len()
            invariant
                i <= self.entries.len(),
                r@.len() == i,
                forall|j: int|
                    0 <= j < i ==> (#[trigger] r@[j]).0@ == self@.entries[j].target
                        && r@[j].1 == self@.entries[j].port,
            decreases self.entries.len() - i,
        {
            assert(self@.entries[i as int] == self.entries@[i as int]@);
            r.push((self.entries[i].target.clone(), self.entries[i].port));
            i += 1;
        }
        r
    }

    /// The transport of every target that comes of this record.
    pub fn transport(&self) -> (r: Transport)
        ensures
            r == self@.transport(),
    {
        self.domain.transport()
    }

    /// The record with its entries in the order in which they are tried.
    pub fn sorted(self) -> (r: Self)
        ensures
            r@.entries == srv_sorted(self@.entries),
            r@.domain == self@.domain,
            r@.ttl == self@.ttl,
            r@.additional_hosts == self@.additional_hosts,
    {
        let entries = sort_entries(&self.entries);
        SrvRecord {
            entries,
            domain: self.domain,
            ttl: self.ttl,
            additional_hosts: self.additional_hosts,
        }
    }

    /// The entries, as they stand in the record.
    pub fn into_entries(self) -> (r: Vec<SrvEntry>)
        ensures
            r == self.entries,
    {
        self.entries
    }
}

/// The entries in the order in which they are tried.
pub fn sort_entries(entries: &Vec<SrvEntry>) -> (r: Vec<SrvEntry>)
    ensures
        views(r@) == srv_sorted(views(entries@)),
{
    sort_by_key(entries)
}

/// The order in which the entries of an SRV record are tried: none comes
/// before a heavier one, entries of one total weight keep the order of the
/// record, and the entries are those of the record.
pub proof fn lemma_srv_sorted(s: Seq<SrvEntryView>)
    ensures
        srv_sorted(s).len() == s.len(),
        forall|i: int, j: int|
            0 <= i < j < s.len() ==> srv_sorted(s)[i].total_weight() >= srv_sorted(
                s,
            )[j].total_weight(),
        forall|k: int|
            of_key(srv_sorted(s), srv_key(), k) == #[trigger] of_key(
                s,
                srv_key(),
                k,
            ),
        forall|i: int| 0 <= i < s.len() ==> s.contains(#[trigger] srv_sorted(s)[i]),
{
    let key = srv_key();
    lemma_sort_len(s, key);
    lemma_sort_ascending(s, key);
    lemma_sort_keeps_items(s, key);
    let sorted = srv_sorted(s);
    assert forall|i: int, j: int| 0 <= i < j < s.len() implies sorted[i].total_weight()
        >= sorted[j].total_weight() by {
        assert(key(sorted[i]) <= key(sorted[j]));
    }
    assert forall|k: int|
        of_key(sorted, key, k) == #[trigger] of_key(s, key, k) by {
        lemma_sort_stable(s, key, k);
    }
}

/// Where each host has one record, the record of a host is the one that is
/// found under its name.
pub proof fn lemma_distinct_hosts_lookup(hosts: Seq<AddrRecordView>, i: int)
    requires
        distinct_hosts(hosts),
        0 <= i < hosts.len(),
    ensures
        additional_for(hosts, hosts[i].domain) == Some(hosts[i]),
{
    lemma_first_index_at(hosts, is_for(hosts[i].domain), 0, i);
}

} // verus!
