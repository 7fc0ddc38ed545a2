use vstd::prelude::*;

use crate::address::Address;
use crate::ID_LEN;

verus! {

/// The opaque identity a client claims for itself.
pub type ClientId = [u8; ID_LEN];

/// Compares two identifiers byte by byte.
pub fn same_id(a: &ClientId, b: &ClientId) -> (r: bool)
    ensures
        r == (a@ == b@),
{
    let mut i: usize = 0;
    while i < ID_LEN
        invariant
            i <= ID_LEN,
            a@.len() == ID_LEN,
            b@.len() == ID_LEN,
            forall|j: int| 0 <= j < i ==> a@[j] == b@[j],
        decreases ID_LEN - i,
    {
        if a[i] != b[i] {
            return false;
        }
        i = i + 1;
    }
    assert(a@ =~= b@);
    true
}

/// One known client: where it was last heard from, and when (in nanoseconds
/// since the Unix epoch).
#[derive(Clone, Copy, Debug, PartialEq, Eq)]
pub struct ClientEntry {
    pub id: ClientId,
    pub address: Address,
    pub last_seen: u64,
}

impl ClientEntry {
    /// What the registry records of this client under its identifier.
    pub open spec fn record(self) -> (Address, u64) {
        (self.address, self.last_seen)
    }
}

/// Why a client could not be registered.
#[derive(Clone, Copy, Debug, PartialEq, Eq, Structural)]
pub enum RegistryError {
    /// The identifier is new and the registry already holds as many clients
    /// as its capacity allows.
    Full,
}

/// Whether a client last heard from at `last_seen` may still be chosen as a
/// target at time `now`. A `last_seen` later than `now` counts as fresh.
pub open spec fn is_fresh(last_seen: u64, now: u64, timeout: u64) -> bool {
    now < last_seen || now - last_seen <= timeout
}

/// The registry after `id` was heard from `address` at `now`, or `None` where
/// the identifier is new and the registry is full.
pub open spec fn refreshed(
    m: Map<Seq<u8>, (Address, u64)>,
    capacity: nat,
    id: Seq<u8>,
    address: Address,
    now: u64,
) -> Option<Map<Seq<u8>, (Address, u64)>> {
    if m.contains_key(id) || m.dom().len() < capacity {
        Some(m.insert(id, (address, now)))
    } else {
        None
    }
}

/// The record of `id` where it is fresh at `now`, else `None`.
pub open spec fn fresh_record(
    m: Map<Seq<u8>, (Address, u64)>,
    id: Seq<u8>,
    now: u64,
    timeout: u64,
) -> Option<(Address, u64)> {
    if m.contains_key(id) && is_fresh(m[id].1, now, timeout) {
        Some(m[id])
    } else {
        None
    }
}

/// A bounded table of clients, at most one per identifier. Entries are never
/// removed: one that has gone quiet only stops being chosen as a target.
pub struct Registry {
    entries: Vec<ClientEntry>,
    capacity: usize,
    records: Ghost<Map<Seq<u8>, (Address, u64)>>,
}

impl View for Registry {
    type V = Map<Seq<u8>, (Address, u64)>;

    /// Each registered identifier mapped to its address and last activity.
    closed spec fn view(&self) -> Self::V {
        self.records@
    }
}

impl Registry {
    /// Most clients this registry holds at once.
    pub closed spec fn spec_capacity(&self) -> nat {
        self.capacity as nat
    }

    /// Number of clients registered.
    pub open spec fn size(&self) -> nat {
        self@.dom().len()
    }

    /// The entries hold distinct identifiers, no more than the capacity, and
    /// match the recorded map one for one.
    pub closed spec fn wf(&self) -> bool {
        &&& self.entries.len() <= self.capacity
        &&& self.records@.dom().finite()
        &&& self.records@.dom().len() == self.entries.len()
        &&& forall|i: int|
            #![trigger self.entries@[i]]
            0 <= i < self.entries.len() ==> self.records@.contains_key(self.entries@[i].id@)
                && self.records@[self.entries@[i].id@] == self.entries@[i].record()
        &&& forall|i: int, j: int|
            0 <= i < j < self.entries.len() ==> self.entries@[i].id@ != self.entries@[j].id@
        &&& forall|k: Seq<u8>|
            #![trigger self.records@.contains_key(k)]
            self.records@.contains_key(k) ==> exists|i: int|
                0 <= i < self.entries.len() && self.entries@[i].id@ == k
    }

    /// An empty registry that holds at most `MAX_CLIENTS` clients.
    pub fn new() -> (r: Registry)
        ensures
            r.wf(),
            r@ == Map::<Seq<u8>, (Address, u64)>::empty(),
            r.spec_capacity() == crate::MAX_CLIENTS,
    {
        Registry::with_capacity(crate::MAX_CLIENTS)
    }

    /// An empty registry that holds at most `capacity` clients.
    pub fn with_capacity(capacity: usize) -> (r: Registry)
        ensures
            r.wf(),
            r@ == Map::<Seq<u8>, (Address, u64)>::empty(),
            r.spec_capacity() == capacity,
    {
        Registry { entries: Vec::new(), capacity, records: Ghost(Map::empty()) }
    }

    /// Number of clients registered.
    pub fn len(&self) -> (r: usize)
        requires
            self.wf(),
        ensures
            r == self.size(),
    {
        self.entries.len()
    }

    /// Most clients this registry holds at once.
    pub fn capacity(&self) -> (r: usize)
        ensures
            r == self.spec_capacity(),
    {
        self.capacity
    }

    /// Position of the entry for `id`, if there is one.
    fn position(&self, id: &ClientId) -> (r: Option<usize>)
        requires
            self.wf(),
        ensures
            match r {
                Some(i) => i < self.entries.len() && self.entries@[i as int].id@ == id@,
                None => !self@.contains_key(id@),
            },
    {
        let mut i: usize = 0;
        while i < self.entries.len()
            invariant
                i <= self.entries.len(),
                forall|j: int| 0 <= j < i ==> self.entries@[j].id@ != id@,
            decreases self.entries.len() - i,
        {
            if same_id(&self.entries[i].id, id) {
                return Some(i);
            }
            i = i + 1;
        }
        None
    }

    /// Records `entry` at position `i`, which already holds its identifier.
    fn overwrite(&mut self, i: usize, entry: ClientEntry)
        requires
            old(self).wf(),
            i < old(self).entries.len(),
            old(self).entries@[i as int].id@ == entry.id@,
        ensures
            final(self).wf(),
            final(self)@ == old(self)@.insert(entry.id@, entry.record()),
            final(self).spec_capacity() == old(self).spec_capacity(),
    {
        let ghost old_records = self.records@;
        let ghost old_entries = self.entries@;
        self.entries.set(i, entry);
        self.records = Ghost(old_records.insert(entry.id@, entry.record()));
        proof {
            assert(old_records.contains_key(entry.id@));
            assert(self.records@.dom() =~= old_records.dom());
            assert forall|k: Seq<u8>| #[trigger] self.records@.contains_key(k) implies exists|j: int|
                0 <= j < self.entries.len() && self.entries@[j].id@ == k by {
                assert(old_records.contains_key(k));
                let j = choose|j: int| 0 <= j < old_entries.len() && old_entries[j].id@ == k;
                assert(self.entries@[j].id@ == k);
            }
            assert forall|a: int, b: int|
                0 <= a < b < self.entries.len() implies self.entries@[a].id@ != self.entries@[b].id@ by {
                assert(old_entries[a].id@ != old_entries[b].id@);
            }
        }
    }

    /// Appends `entry`, whose identifier is not registered yet.
    fn append(&mut self, entry: ClientEntry)
        requires
            old(self).wf(),
            old(self).entries.len() < old(self).capacity,
            !old(self)@.contains_key(entry.id@),
        ensures
            final(self).wf(),
            final(self)@ == old(self)@.insert(entry.id@, entry.record()),
            final(self).spec_capacity() == old(self).spec_capacity(),
    {
        let ghost old_records = self.records@;
        let ghost old_entries = self.entries@;
        self.entries.push(entry);
        self.records = Ghost(old_records.insert(entry.id@, entry.record()));
        proof {
            assert(self.records@.dom() =~= old_records.dom().insert(entry.id@));
            assert forall|j: int| 0 <= j < old_entries.len() implies old_entries[j].id@ != entry.id@ by {
                assert(old_records.contains_key(old_entries[j].id@));
            }
            assert forall|k: Seq<u8>| #[trigger] self.records@.contains_key(k) implies exists|j: int|
                0 <= j < self.entries.len() && self.entries@[j].id@ == k by {
                if k == entry.id@ {
                    assert(self.entries@[old_entries.len() as int].id@ == k);
                } else {
                    assert(old_records.contains_key(k));
                    let j = choose|j: int| 0 <= j < old_entries.len() && old_entries[j].id@ == k;
                    assert(self.entries@[j].id@ == k);
                }
            }
            assert forall|i: int|
                #![trigger self.entries@[i]]
                0 <= i < self.entries.len() implies self.records@.contains_key(self.entries@[i].id@)
                    && self.records@[self.entries@[i].id@] == self.entries@[i].record() by {
                if i < old_entries.len() {
                    assert(self.entries@[i] == old_entries[i]);
                }
            }
        }
    }

    /// Where `id` is registered, moves it to `address` with last activity
    /// `now` and returns the updated entry; else changes nothing.
    pub fn find_and_update(&mut self, id: &ClientId, address: Address, now: u64) -> (r: Option<
        ClientEntry,
    >)
        requires
            old(self).wf(),
        ensures
            final(self).wf(),
            final(self).spec_capacity() == old(self).spec_capacity(),
            old(self)@.contains_key(id@) ==> final(self)@ == old(self)@.insert(id@, (address, now))
                && r == Some(ClientEntry { id: *id, address, last_seen: now }),
            !old(self)@.contains_key(id@) ==> final(self)@ == old(self)@ && r.is_none(),
    {
        match self.position(id) {
            Some(i) => {
                let entry = ClientEntry { id: *id, address, last_seen: now };
                self.overwrite(i, entry);
                Some(entry)
            },
            None => None,
        }
    }

    /// Where fewer clients than the capacity are registered, records `id` at
    /// `address` with last activity `now` (replacing what `id` had) and
    /// returns the new entry; else changes nothing.
    pub fn add_client(&mut self, id: ClientId, address: Address, now: u64) -> (r: Option<ClientEntry>)
        requires
            old(self).wf(),
        ensures
            final(self).wf(),
            final(self).spec_capacity() == old(self).spec_capacity(),
            old(self).size() < old(self).spec_capacity() ==> final(self)@ == old(self)@.insert(
                id@,
                (address, now),
            ) && r == Some(ClientEntry { id, address, last_seen: now }),
            old(self).size() >= old(self).spec_capacity() ==> final(self)@ == old(self)@
                && r.is_none(),
    {
        if self.entries.len() < self.capacity {
            let entry = ClientEntry { id, address, last_seen: now };
            match self.position(&id) {
                Some(i) => self.overwrite(i, entry),
                None => self.append(entry),
            }
            Some(entry)
        } else {
            None
        }
    }

    /// Records that `id` was heard from `address` at `now`: an existing entry
    /// is updated, a new one is made where the capacity allows.
    pub fn refresh_or_create(&mut self, id: ClientId, address: Address, now: u64) -> (r: Result<
        ClientEntry,
        RegistryError,
    >)
        requires
            old(self).wf(),
        ensures
            final(self).wf(),
            final(self).spec_capacity() == old(self).spec_capacity(),
            match refreshed(old(self)@, old(self).spec_capacity(), id@, address, now) {
                Some(m) => final(self)@ == m && r == Ok::<ClientEntry, RegistryError>(
                    ClientEntry { id, address, last_seen: now },
                ),
                None => final(self)@ == old(self)@ && r == Err::<ClientEntry, RegistryError>(
                    RegistryError::Full,
                ),
            },
    {
        match self.find_and_update(&id, address, now) {
            Some(entry) => Ok(entry),
            None => match self.add_client(id, address, now) {
                Some(entry) => Ok(entry),
                None => Err(RegistryError::Full),
            },
        }
    }

    /// The entry for `id`, where it was active within `timeout` nanoseconds
    /// before `now` (or later than `now`).
    pub fn find_fresh(&self, id: &ClientId, now: u64, timeout: u64) -> (r: Option<ClientEntry>)
        requires
            self.wf(),
        ensures
            match fresh_record(self@, id@, now, timeout) {
                Some(rec) => r == Some(ClientEntry { id: *id, address: rec.0, last_seen: rec.1 }),
                None => r.is_none(),
            },
    {
        let mut i: usize = 0;
        while i < self.entries.len()
            invariant
                self.wf(),
                i <= self.entries.len(),
                forall|j: int|
                    0 <= j < i ==> !(self.entries@[j].id@ == id@ && is_fresh(
                        self.entries@[j].last_seen,
                        now,
                        timeout,
                    )),
            decreases self.entries.len() - i,
        {
            let entry = self.entries[i];
            if same_id(&entry.id, id) && (now < entry.last_seen || now - entry.last_seen <= timeout) {
                proof {
                    assert(self.entries@[i as int] == entry);
                    assert(entry.id =~= *id);
                }
                return Some(entry);
            }
            i = i + 1;
        }
        proof {
            if self@.contains_key(id@) {
                assert(self.records@.contains_key(id@));
                let j = choose|j: int| 0 <= j < self.entries.len() && self.entries@[j].id@ == id@;
                assert(self.entries@[j].record() == self@[id@]);
            }
        }
        None
    }

    /// A well-formed registry holds finitely many clients, never more than
    /// its capacity.
    pub proof fn lemma_within_capacity(&self)
        requires
            self.wf(),
        ensures
            self@.dom().finite(),
            self.size() <= self.spec_capacity(),
    {
    }
}

} // verus!
