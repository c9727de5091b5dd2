//! Status records and the table that holds the latest one of each target.
use crate::table::{entries_map, lemma_entry_lookup, lemma_key_unique, sorted_by_name, Keyed, NameMap};
use vstd::prelude::*;

verus! {

/// The latest echo outcome of one device. No latency means unreachable.
#[derive(Debug, Clone, PartialEq, Eq)]
pub struct DeviceStatus {
    pub name: String,
    pub ip: String,
    pub latency_milliseconds: Option<u128>,
}

/// The latest request outcome of one domain. A status of 0 means that no
/// response came.
#[derive(Debug, Clone, PartialEq, Eq)]
pub struct DomainStatus {
    pub domain: String,
    pub status: usize,
}

impl Keyed for DeviceStatus {
    open spec fn key(&self) -> Seq<char> {
        self.name@
    }

    fn name(&self) -> (r: &String) {
        &self.name
    }

    fn duplicate(&self) -> (r: Self) {
        DeviceStatus {
            name: self.name.clone(),
            ip: self.ip.clone(),
            latency_milliseconds: self.latency_milliseconds,
        }
    }
}

impl Keyed for DomainStatus {
    open spec fn key(&self) -> Seq<char> {
        self.domain@
    }

    fn name(&self) -> (r: &String) {
        &self.domain
    }

    fn duplicate(&self) -> (r: Self) {
        DomainStatus { domain: self.domain.clone(), status: self.status }
    }
}

/// A copy of the whole table, each part in name order.
pub struct Snapshot {
    pub devices: Vec<DeviceStatus>,
    pub domains: Vec<DomainStatus>,
}

impl Snapshot {
    /// This snapshot holds exactly what `t` holds.
    pub open spec fn copies(&self, t: &StatusTable) -> bool {
        &&& self.devices@ == t.devices()
        &&& self.domains@ == t.domains()
    }
}

/// The latest status of every target probed so far, by name.
pub struct StatusTable {
    devices: NameMap<DeviceStatus>,
    domains: NameMap<DomainStatus>,
}

impl StatusTable {
    pub closed spec fn devices(&self) -> Seq<DeviceStatus> {
        self.devices@
    }

    pub closed spec fn domains(&self) -> Seq<DomainStatus> {
        self.domains@
    }

    pub open spec fn wf(&self) -> bool {
        &&& sorted_by_name(self.devices())
        &&& sorted_by_name(self.domains())
    }

    pub open spec fn device_map(&self) -> Map<Seq<char>, DeviceStatus> {
        entries_map(self.devices())
    }

    pub open spec fn domain_map(&self) -> Map<Seq<char>, DomainStatus> {
        entries_map(self.domains())
    }

    /// A table in which nothing has been probed yet.
    pub fn new() -> (r: Self)
        ensures
            r.wf(),
            r.devices() == Seq::<DeviceStatus>::empty(),
            r.domains() == Seq::<DomainStatus>::empty(),
            r.device_map() == Map::<Seq<char>, DeviceStatus>::empty(),
            r.domain_map() == Map::<Seq<char>, DomainStatus>::empty(),
    {
        StatusTable { devices: NameMap::new(), domains: NameMap::new() }
    }

    /// Records the latest status of a device, replacing the one before.
    pub fn put_device(&mut self, s: DeviceStatus)
        requires
            old(self).wf(),
        ensures
            final(self).wf(),
            final(self).device_map() == old(self).device_map().insert(s.name@, s),
            final(self).domains() == old(self).domains(),
    {
        self.devices.put(s);
    }

    /// Records the latest status of a domain, replacing the one before.
    pub fn put_domain(&mut self, s: DomainStatus)
        requires
            old(self).wf(),
        ensures
            final(self).wf(),
            final(self).domain_map() == old(self).domain_map().insert(s.domain@, s),
            final(self).devices() == old(self).devices(),
    {
        self.domains.put(s);
    }

    /// Copies out every status; both parts come sorted by name, and are empty
    /// before any probe has completed.
    pub fn snapshot(&self) -> (r: Snapshot)
        requires
            self.wf(),
        ensures
            r.copies(self),
            sorted_by_name(r.devices@),
            sorted_by_name(r.domains@),
    {
        Snapshot { devices: self.devices.to_vec(), domains: self.domains.to_vec() }
    }
}

/// Once a record has been put, its name is held at one place only, by that
/// record; every other name is still held by the record it had; and every
/// record is either the one put or one that was there before.
pub proof fn lemma_put_replaces_in_place<R: Keyed>(before: Seq<R>, after: Seq<R>, rec: R)
    requires
        sorted_by_name(before),
        sorted_by_name(after),
        entries_map(after) == entries_map(before).insert(rec.key(), rec),
    ensures
        after.contains(rec),
        forall|i: int, j: int|
            0 <= i < after.len() && 0 <= j < after.len() && #[trigger] after[i].key() == rec.key()
                && #[trigger] after[j].key() == rec.key() ==> i == j,
        forall|k: int| 0 <= k < before.len() && #[trigger] before[k].key() != rec.key() ==> after.contains(before[k]),
        forall|k: int| 0 <= k < after.len() ==> #[trigger] after[k] == rec || before.contains(after[k]),
{
    let ma = entries_map(after);
    let mb = entries_map(before);
    assert(ma.contains_key(rec.key()));
    let j = crate::table::index_of(after, rec.key());
    lemma_entry_lookup(after, j);
    assert(after[j] == rec);
    assert forall|i: int, j2: int|
        0 <= i < after.len() && 0 <= j2 < after.len() && #[trigger] after[i].key() == rec.key()
            && #[trigger] after[j2].key() == rec.key() implies i == j2 by {
        lemma_key_unique(after, i, j2);
    }
    assert forall|k: int| 0 <= k < before.len() && #[trigger] before[k].key() != rec.key() implies after.contains(before[k]) by {
        lemma_entry_lookup(before, k);
        let n = before[k].key();
        assert(ma.contains_key(n));
        let a = crate::table::index_of(after, n);
        lemma_entry_lookup(after, a);
        assert(after[a] == before[k]);
    }
    assert forall|k: int| 0 <= k < after.len() implies #[trigger] after[k] == rec || before.contains(after[k]) by {
        lemma_entry_lookup(after, k);
        let n = after[k].key();
        if n != rec.key() {
            assert(mb.contains_key(n));
            let b = crate::table::index_of(before, n);
            lemma_entry_lookup(before, b);
            assert(before[b] == after[k]);
        }
    }
}

/// Two snapshots of one table, with nothing put in between, are equal.
pub proof fn lemma_snapshot_repeatable(t: StatusTable, a: Snapshot, b: Snapshot)
    requires
        a.copies(&t),
        b.copies(&t),
    ensures
        a.devices@ == b.devices@,
        a.domains@ == b.domains@,
{
}

} // verus!
