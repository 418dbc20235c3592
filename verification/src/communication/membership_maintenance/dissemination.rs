use vstd::prelude::*;

use crate::communication::membership_maintenance::suspicion::GroupMember;
use crate::net::SocketAddress;

verus! {

/// Members filed by socket address, each address once.
pub struct MemberTable {
    entries: Vec<(SocketAddress, GroupMember)>,
}

/// No address is filed twice.
pub open spec fn addresses_distinct(entries: Seq<(SocketAddress, GroupMember)>) -> bool {
    forall|i: int, j: int|
        0 <= i < entries.len() && 0 <= j < entries.len() && i != j ==> entries[i].0 != entries[j].0
}

/// The map that entries with distinct addresses describe.
pub open spec fn entries_map(entries: Seq<(SocketAddress, GroupMember)>) -> Map<SocketAddress, GroupMember> {
    Map::new(
        |address: SocketAddress| exists|i: int| 0 <= i < entries.len() && entries[i].0 == address,
        |address: SocketAddress|
            entries[choose|i: int| 0 <= i < entries.len() && entries[i].0 == address].1,
    )
}

impl View for MemberTable {
    type V = Map<SocketAddress, GroupMember>;

    closed spec fn view(&self) -> Map<SocketAddress, GroupMember> {
        entries_map(self.entries@)
    }
}

impl MemberTable {
    /// No address is filed twice.
    #[verifier::type_invariant]
    spec fn inv(&self) -> bool {
        addresses_distinct(self.entries@)
    }

    /// An empty table.
    pub fn new() -> (table: MemberTable)
        ensures
            table@ == Map::<SocketAddress, GroupMember>::empty(),
    {
        let table = MemberTable { entries: Vec::new() };
        assert(table@ =~= Map::<SocketAddress, GroupMember>::empty());
        table
    }

    /// The number of members filed.
    pub fn len(&self) -> (n: usize)
        ensures
            n == self@.len(),
    {
        proof {
            use_type_invariant(self);
            self.lemma_len();
        }
        self.entries.len()
    }

    proof fn lemma_len(&self)
        requires
            addresses_distinct(self.entries@),
        ensures
            self@.dom().finite(),
            self@.len() == self.entries@.len(),
    {
        let s = self.entries@;
        let keys = s.map_values(|e: (SocketAddress, GroupMember)| e.0);
        assert(keys.no_duplicates()) by {
            assert forall|i: int, j: int| 0 <= i < keys.len() && 0 <= j < keys.len() && i != j
                implies keys[i] != keys[j] by {}
        }
        keys.unique_seq_to_set();
        assert(keys.to_set() =~= self@.dom()) by {
            assert forall|a: SocketAddress| keys.to_set().contains(a) <==> self@.dom().contains(a) by {
                if self@.dom().contains(a) {
                    let i = choose|i: int| 0 <= i < s.len() && s[i].0 == a;
                    assert(keys[i] == a);
                }
                if keys.to_set().contains(a) {
                    let i = choose|i: int| 0 <= i < keys.len() && keys[i] == a;
                    assert(s[i].0 == a);
                }
            }
        }
    }

    /// The index of the entry filed under `address`.
    fn position(&self, address: &SocketAddress) -> (index: Option<usize>)
        ensures
            match index {
                Some(i) => i < self.entries@.len() && self.entries@[i as int].0 == *address,
                None => forall|i: int|
                    0 <= i < self.entries@.len() ==> self.entries@[i].0 != *address,
            },
    {
        let mut i: usize = 0;
        while i < self.entries.len()
            invariant
                i <= self.entries@.len(),
                forall|j: int| 0 <= j < i ==> self.entries@[j].0 != *address,
            decreases self.entries@.len() - i,
        {
            if self.entries[i].0 == *address {
                return Some(i);
            }
            i = i + 1;
        }
        None
    }

    /// Files `member` under `address`, replacing any member filed there.
    pub fn insert(&mut self, address: SocketAddress, member: GroupMember)
        ensures
            final(self)@ == old(self)@.insert(address, member),
    {
        proof {
            use_type_invariant(&*self);
        }
        let ghost before = self.entries@;
        match self.position(&address) {
            Some(i) => {
                let mut entries: Vec<(SocketAddress, GroupMember)> = Vec::new();
                std::mem::swap(&mut entries, &mut self.entries);
                entries.set(i, (address, member));
                self.entries = entries;
                proof {
                    let after = self.entries@;
                    assert(after == before.update(i as int, (address, member)));
                    assert forall|a: SocketAddress| #[trigger] entries_map(after).contains_key(a)
                        == entries_map(before).insert(address, member).contains_key(a) by {
                        if entries_map(before).contains_key(a) && a != address {
                            let j = choose|j: int| 0 <= j < before.len() && before[j].0 == a;
                            assert(after[j].0 == a);
                        }
                        if entries_map(after).contains_key(a) && a != address {
                            let j = choose|j: int| 0 <= j < after.len() && after[j].0 == a;
                            assert(before[j].0 == a);
                        }
                        if a == address {
                            assert(after[i as int].0 == a);
                        }
                    }
                    assert forall|a: SocketAddress| #[trigger] entries_map(after).contains_key(a)
                        implies entries_map(after)[a] == entries_map(before).insert(address, member)[a] by {
                        let j = choose|j: int| 0 <= j < after.len() && after[j].0 == a;
                        if a != address {
                            let k = choose|k: int| 0 <= k < before.len() && before[k].0 == a;
                            assert(j == k);
                        } else {
                            assert(j == i);
                        }
                    }
                    assert(entries_map(after) =~= entries_map(before).insert(address, member));
                }
            },
            None => {
                let mut entries: Vec<(SocketAddress, GroupMember)> = Vec::new();
                std::mem::swap(&mut entries, &mut self.entries);
                entries.push((address, member));
                self.entries = entries;
                proof {
                    let after = self.entries@;
                    assert(after == before.push((address, member)));
                    assert forall|a: SocketAddress| #[trigger] entries_map(after).contains_key(a)
                        == entries_map(before).insert(address, member).contains_key(a) by {
                        if entries_map(before).contains_key(a) {
                            let j = choose|j: int| 0 <= j < before.len() && before[j].0 == a;
                            assert(after[j].0 == a);
                        }
                        if entries_map(after).contains_key(a) && a != address {
                            let j = choose|j: int| 0 <= j < after.len() && after[j].0 == a;
                            assert(before[j].0 == a);
                        }
                        if a == address {
                            assert(after[before.len() as int].0 == a);
                        }
                    }
                    assert forall|a: SocketAddress| #[trigger] entries_map(after).contains_key(a)
                        implies entries_map(after)[a] == entries_map(before).insert(address, member)[a] by {
                        let j = choose|j: int| 0 <= j < after.len() && after[j].0 == a;
                        if a != address {
                            let k = choose|k: int| 0 <= k < before.len() && before[k].0 == a;
                            assert(j == k);
                        } else {
                            assert(j == before.len());
                        }
                    }
                    assert(entries_map(after) =~= entries_map(before).insert(address, member));
                }
            },
        }
    }

    /// Drops the member filed under `address`, if any.
    pub fn remove(&mut self, address: &SocketAddress)
        ensures
            final(self)@ == old(self)@.remove(*address),
    {
        proof {
            use_type_invariant(&*self);
        }
        let ghost before = self.entries@;
        match self.position(address) {
            Some(i) => {
                let mut entries: Vec<(SocketAddress, GroupMember)> = Vec::new();
                std::mem::swap(&mut entries, &mut self.entries);
                entries.remove(i);
                self.entries = entries;
                proof {
                    let after = self.entries@;
                    assert(after == before.remove(i as int));
                    assert forall|a: SocketAddress| #[trigger] entries_map(after).contains_key(a)
                        == entries_map(before).remove(*address).contains_key(a) by {
                        if entries_map(before).contains_key(a) && a != *address {
                            let j = choose|j: int| 0 <= j < before.len() && before[j].0 == a;
                            if j < i {
                                assert(after[j].0 == a);
                            } else {
                                assert(j != i);
                                assert(after[j - 1].0 == a);
                            }
                        }
                        if entries_map(after).contains_key(a) {
                            let j = choose|j: int| 0 <= j < after.len() && after[j].0 == a;
                            if j < i {
                                assert(before[j].0 == a);
                            } else {
                                assert(before[j + 1].0 == a);
                            }
                        }
                    }
                    assert forall|a: SocketAddress| #[trigger] entries_map(after).contains_key(a)
                        implies entries_map(after)[a] == entries_map(before).remove(*address)[a] by {
                        let j = choose|j: int| 0 <= j < after.len() && after[j].0 == a;
                        let k = choose|k: int| 0 <= k < before.len() && before[k].0 == a;
                        if j < i {
                            assert(before[j].0 == a);
                            assert(j == k);
                        } else {
                            assert(before[j + 1].0 == a);
                            assert(j + 1 == k);
                        }
                    }
                    assert(entries_map(after) =~= entries_map(before).remove(*address));
                }
            },
            None => {
                assert(entries_map(before) =~= entries_map(before).remove(*address));
            },
        }
    }
}

/// The members the dissemination component regards as suspected and as
/// confirmed failed, by address.
pub struct Dissemination {
    pub suspected: MemberTable,
    pub confirmed: MemberTable,
}

impl Dissemination {
    /// Nobody suspected or confirmed yet.
    pub fn init() -> (dissemination: Dissemination)
        ensures
            dissemination.suspected@ == Map::<SocketAddress, GroupMember>::empty(),
            dissemination.confirmed@ == Map::<SocketAddress, GroupMember>::empty(),
    {
        Dissemination { suspected: MemberTable::new(), confirmed: MemberTable::new() }
    }

    /// Files a member as confirmed failed.
    pub fn add_confirmed(&mut self, socket_address: SocketAddress, group_member: GroupMember)
        ensures
            final(self).confirmed@ == old(self).confirmed@.insert(socket_address, group_member),
            final(self).suspected@ == old(self).suspected@,
    {
        self.confirmed.insert(socket_address, group_member);
    }

    /// Files a member as suspected.
    pub fn add_suspected(&mut self, socket_address: SocketAddress, group_member: GroupMember)
        ensures
            final(self).suspected@ == old(self).suspected@.insert(socket_address, group_member),
            final(self).confirmed@ == old(self).confirmed@,
    {
        self.suspected.insert(socket_address, group_member);
    }

    /// Drops a member from the confirmed ones.
    pub fn remove_confirmed(&mut self, socket_address: &SocketAddress)
        ensures
            final(self).confirmed@ == old(self).confirmed@.remove(*socket_address),
            final(self).suspected@ == old(self).suspected@,
    {
        self.confirmed.remove(socket_address);
    }

    /// Drops a member from the suspected ones.
    pub fn remove_suspected(&mut self, socket_address: &SocketAddress)
        ensures
            final(self).suspected@ == old(self).suspected@.remove(*socket_address),
            final(self).confirmed@ == old(self).confirmed@,
    {
        self.suspected.remove(socket_address);
    }
}

} // verus!
