//! The weighted membership list that decides voting power.
//!
//! A stake table is a finite list of `(identity, weight)` entries with
//! pairwise distinct identities. All weights of the protocol are sums over
//! this list: the weight of a set of identities is the sum of the weights of
//! the entries whose identity lies in the set. The quorum threshold is the
//! least weight that is strictly more than two thirds of the total.

use vstd::prelude::*;

verus! {

/// One participant and its voting weight.
#[derive(Clone, Copy, Debug, PartialEq, Eq, Structural)]
pub struct StakeTableEntry {
    pub identity: u64,
    pub weight: u64,
}

/// The least weight that certifies a decision when the whole membership
/// weighs `total`: `floor(2 * total / 3) + 1`, which equals
/// `ceil((2 * total + 1) / 3)`.
pub open spec fn quorum_threshold(total: nat) -> nat {
    2 * total / 3 + 1
}

/// Sum of the weights of the entries whose identity lies in `who`.
pub open spec fn weight_in(entries: Seq<StakeTableEntry>, who: Set<u64>) -> nat
    decreases entries.len(),
{
    if entries.len() == 0 {
        0
    } else {
        weight_in(entries.drop_last(), who) + if who.contains(entries.last().identity) {
            entries.last().weight as nat
        } else {
            0
        }
    }
}

/// Number of entries whose identity lies in `who`.
pub open spec fn members_in(entries: Seq<StakeTableEntry>, who: Set<u64>) -> nat
    decreases entries.len(),
{
    if entries.len() == 0 {
        0
    } else {
        members_in(entries.drop_last(), who) + if who.contains(entries.last().identity) {
            1nat
        } else {
            0
        }
    }
}

/// Sum of all weights.
pub open spec fn total_weight(entries: Seq<StakeTableEntry>) -> nat
    decreases entries.len(),
{
    if entries.len() == 0 {
        0
    } else {
        total_weight(entries.drop_last()) + entries.last().weight as nat
    }
}

/// The weight that the table gives to one identity; zero for a stranger.
pub open spec fn stake_of(entries: Seq<StakeTableEntry>, identity: u64) -> nat {
    weight_in(entries, set![identity])
}

/// No identity occurs in two entries.
pub open spec fn distinct_identities(entries: Seq<StakeTableEntry>) -> bool {
    forall|i: int, j: int|
        0 <= i < j < entries.len() ==> entries[i].identity != entries[j].identity
}

/// Some entry carries `identity`.
pub open spec fn is_member(entries: Seq<StakeTableEntry>, identity: u64) -> bool {
    exists|i: int| 0 <= i < entries.len() && #[trigger] entries[i].identity == identity
}

/// Extending a prefix by one entry adds that entry's weight to the total.
pub proof fn lemma_total_take_step(entries: Seq<StakeTableEntry>, k: int)
    requires
        0 <= k < entries.len(),
    ensures
        total_weight(entries.take(k + 1)) == total_weight(entries.take(k)) + entries[k].weight,
{
    assert(entries.take(k + 1).drop_last() =~= entries.take(k));
}

/// Prefix totals never decrease.
pub proof fn lemma_total_take_monotone(entries: Seq<StakeTableEntry>, i: int, j: int)
    requires
        0 <= i <= j <= entries.len(),
    ensures
        total_weight(entries.take(i)) <= total_weight(entries.take(j)),
    decreases j - i,
{
    if i < j {
        lemma_total_take_monotone(entries, i, j - 1);
        lemma_total_take_step(entries, j - 1);
    }
}

/// No set weighs more than the whole table, and no set has more members than
/// the table has entries.
pub proof fn lemma_weight_le_total(entries: Seq<StakeTableEntry>, who: Set<u64>)
    ensures
        weight_in(entries, who) <= total_weight(entries),
        members_in(entries, who) <= entries.len(),
    decreases entries.len(),
{
    if entries.len() > 0 {
        lemma_weight_le_total(entries.drop_last(), who);
    }
}

/// Inclusion and exclusion: the weights of two sets add up to the weights of
/// their union and their intersection.
pub proof fn lemma_weight_union(entries: Seq<StakeTableEntry>, a: Set<u64>, b: Set<u64>)
    ensures
        weight_in(entries, a.union(b)) + weight_in(entries, a.intersect(b)) == weight_in(
            entries,
            a,
        ) + weight_in(entries, b),
        members_in(entries, a.union(b)) + members_in(entries, a.intersect(b)) == members_in(
            entries,
            a,
        ) + members_in(entries, b),
    decreases entries.len(),
{
    if entries.len() > 0 {
        lemma_weight_union(entries.drop_last(), a, b);
    }
}

/// A larger set weighs at least as much.
pub proof fn lemma_weight_subset(entries: Seq<StakeTableEntry>, a: Set<u64>, b: Set<u64>)
    requires
        a.subset_of(b),
    ensures
        weight_in(entries, a) <= weight_in(entries, b),
        members_in(entries, a) <= members_in(entries, b),
    decreases entries.len(),
{
    if entries.len() > 0 {
        lemma_weight_subset(entries.drop_last(), a, b);
    }
}

/// The empty set weighs nothing.
pub proof fn lemma_weight_empty(entries: Seq<StakeTableEntry>)
    ensures
        weight_in(entries, Set::empty()) == 0,
        members_in(entries, Set::empty()) == 0,
    decreases entries.len(),
{
    if entries.len() > 0 {
        lemma_weight_empty(entries.drop_last());
    }
}

/// Adding a new identity to a set adds exactly that identity's stake.
pub proof fn lemma_weight_insert(entries: Seq<StakeTableEntry>, who: Set<u64>, identity: u64)
    requires
        !who.contains(identity),
    ensures
        weight_in(entries, who.insert(identity)) == weight_in(entries, who) + stake_of(
            entries,
            identity,
        ),
        members_in(entries, who.insert(identity)) == members_in(entries, who) + members_in(
            entries,
            set![identity],
        ),
{
    let single = set![identity];
    lemma_weight_union(entries, who, single);
    lemma_weight_empty(entries);
    assert(who.union(single) =~= who.insert(identity));
    assert(who.intersect(single) =~= Set::<u64>::empty());
}

/// A stranger to the table has no stake.
pub proof fn lemma_stranger_has_no_stake(entries: Seq<StakeTableEntry>, identity: u64)
    requires
        !is_member(entries, identity),
    ensures
        stake_of(entries, identity) == 0,
        members_in(entries, set![identity]) == 0,
    decreases entries.len(),
{
    if entries.len() > 0 {
        let shorter = entries.drop_last();
        assert(!is_member(shorter, identity)) by {
            if is_member(shorter, identity) {
                let i = choose|i: int| 0 <= i < shorter.len() && #[trigger] shorter[i].identity == identity;
                assert(entries[i].identity == identity);
            }
        }
        lemma_stranger_has_no_stake(shorter, identity);
        assert(entries[entries.len() - 1].identity != identity);
    }
}

/// In a table with distinct identities, the stake of an entry's identity is
/// that entry's weight, and exactly one entry carries it.
pub proof fn lemma_stake_of_entry(entries: Seq<StakeTableEntry>, i: int)
    requires
        distinct_identities(entries),
        0 <= i < entries.len(),
    ensures
        stake_of(entries, entries[i].identity) == entries[i].weight,
        members_in(entries, set![entries[i].identity]) == 1,
    decreases entries.len(),
{
    let shorter = entries.drop_last();
    let identity = entries[i].identity;
    if i == entries.len() - 1 {
        assert(!is_member(shorter, identity)) by {
            if is_member(shorter, identity) {
                let j = choose|j: int| 0 <= j < shorter.len() && #[trigger] shorter[j].identity == identity;
                assert(entries[j].identity == entries[i].identity);
            }
        }
        lemma_stranger_has_no_stake(shorter, identity);
    } else {
        assert(distinct_identities(shorter)) by {
            assert forall|a: int, b: int| 0 <= a < b < shorter.len() implies shorter[a].identity
                != shorter[b].identity by {
                assert(entries[a].identity != entries[b].identity);
            }
        }
        assert(shorter[i] == entries[i]);
        lemma_stake_of_entry(shorter, i);
        assert(entries[i].identity != entries[entries.len() - 1].identity);
    }
}

/// A set of positive weight holds the identity of some entry of positive
/// weight.
pub proof fn lemma_positive_weight_has_member(entries: Seq<StakeTableEntry>, who: Set<u64>) -> (i:
    int)
    requires
        weight_in(entries, who) > 0,
    ensures
        0 <= i < entries.len(),
        who.contains(entries[i].identity),
        entries[i].weight > 0,
    decreases entries.len(),
{
    if who.contains(entries.last().identity) && entries.last().weight > 0 {
        entries.len() - 1
    } else {
        let i = lemma_positive_weight_has_member(entries.drop_last(), who);
        assert(entries.drop_last()[i] == entries[i]);
        i
    }
}

/// Quorum intersection: two sets that each reach the threshold share more
/// than a third of the total weight.
pub proof fn lemma_quorum_intersection(entries: Seq<StakeTableEntry>, a: Set<u64>, b: Set<u64>)
    requires
        weight_in(entries, a) >= quorum_threshold(total_weight(entries)),
        weight_in(entries, b) >= quorum_threshold(total_weight(entries)),
    ensures
        3 * weight_in(entries, a.intersect(b)) > total_weight(entries),
{
    lemma_weight_union(entries, a, b);
    lemma_weight_le_total(entries, a.union(b));
}

/// Computes [`quorum_threshold`] without leaving the range of `u64`.
pub fn threshold_for(total: u64) -> (t: u64)
    ensures
        t == quorum_threshold(total as nat),
        t > 0,
{
    let q: u64 = total / 3;
    let r: u64 = total % 3;
    if r == 2 {
        2 * q + 2
    } else {
        2 * q + 1
    }
}

/// A validated stake table: distinct identities, and a total that fits `u64`.
pub struct StakeTable {
    entries: Vec<StakeTableEntry>,
    total: u64,
}

impl View for StakeTable {
    type V = Seq<StakeTableEntry>;

    closed spec fn view(&self) -> Seq<StakeTableEntry> {
        self.entries@
    }
}

impl StakeTable {
    /// The invariant of the type: what [`StakeTable::new`] checked.
    pub closed spec fn wf(&self) -> bool {
        &&& distinct_identities(self.entries@)
        &&& self.total == total_weight(self.entries@)
    }

    /// What every well-formed table satisfies.
    pub proof fn lemma_wf(&self)
        requires
            self.wf(),
        ensures
            distinct_identities(self@),
            total_weight(self@) <= u64::MAX,
            self@.len() <= usize::MAX,
    {
        assert(self.entries.len() <= usize::MAX);
    }

    /// Builds a table from its entries. Fails exactly when an identity
    /// occurs twice or the total weight does not fit `u64`.
    pub fn new(entries: Vec<StakeTableEntry>) -> (table: Option<StakeTable>)
        ensures
            table is Some <==> distinct_identities(entries@) && total_weight(entries@) <= u64::MAX,
            table matches Some(t) ==> t.wf() && t@ == entries@,
    {
        let n = entries.len();
        let mut total: u64 = 0;
        let mut i: usize = 0;
        while i < n
            invariant
                n == entries.len(),
                i <= n,
                total == total_weight(entries@.take(i as int)),
                forall|a: int, b: int| 0 <= a < b < i ==> entries@[a].identity != entries@[b].identity,
            decreases n - i,
        {
            let e = entries[i];
            let mut j: usize = 0;
            while j < i
                invariant
                    j <= i,
                    i < n,
                    n == entries.len(),
                    e == entries@[i as int],
                    forall|a: int| 0 <= a < j ==> entries@[a].identity != e.identity,
                decreases i - j,
            {
                if entries[j].identity == e.identity {
                    assert(entries@[j as int].identity == entries@[i as int].identity);
                    return None;
                }
                j += 1;
            }
            proof {
                lemma_total_take_step(entries@, i as int);
            }
            match total.checked_add(e.weight) {
                Some(sum) => {
                    total = sum;
                },
                None => {
                    proof {
                        lemma_total_take_monotone(entries@, i as int + 1, n as int);
                        assert(entries@.take(n as int) =~= entries@);
                    }
                    return None;
                },
            }
            i += 1;
        }
        proof {
            assert(entries@.take(n as int) =~= entries@);
        }
        Some(StakeTable { entries, total })
    }

    /// Number of entries.
    pub fn len(&self) -> (n: usize)
        ensures
            n == self@.len(),
    {
        self.entries.len()
    }

    /// The entry at position `index`, if there is one.
    pub fn entry(&self, index: usize) -> (e: Option<StakeTableEntry>)
        ensures
            e == if index < self@.len() {
                Some(self@[index as int])
            } else {
                None
            },
    {
        if index < self.entries.len() {
            Some(self.entries[index])
        } else {
            None
        }
    }

    /// Total weight of the membership.
    pub fn total_stake(&self) -> (total: u64)
        requires
            self.wf(),
        ensures
            total == total_weight(self@),
    {
        self.total
    }

    /// The quorum threshold of this membership; never zero.
    pub fn threshold(&self) -> (t: u64)
        requires
            self.wf(),
        ensures
            t == quorum_threshold(total_weight(self@)),
            t > 0,
    {
        threshold_for(self.total)
    }

    /// Whether `identity` belongs to the membership.
    pub fn contains(&self, identity: u64) -> (found: bool)
        ensures
            found == is_member(self@, identity),
    {
        let n = self.entries.len();
        let mut i: usize = 0;
        while i < n
            invariant
                n == self.entries.len(),
                i <= n,
                forall|a: int| 0 <= a < i ==> self.entries@[a].identity != identity,
            decreases n - i,
        {
            if self.entries[i].identity == identity {
                return true;
            }
            i += 1;
        }
        false
    }

    /// The weight of `identity`; zero for a stranger.
    pub fn stake(&self, identity: u64) -> (weight: u64)
        requires
            self.wf(),
        ensures
            weight == stake_of(self@, identity),
            !is_member(self@, identity) ==> weight == 0,
    {
        let n = self.entries.len();
        let mut i: usize = 0;
        while i < n
            invariant
                n == self.entries.len(),
                i <= n,
                self.wf(),
                forall|a: int| 0 <= a < i ==> self.entries@[a].identity != identity,
            decreases n - i,
        {
            if self.entries[i].identity == identity {
                proof {
                    lemma_stake_of_entry(self.entries@, i as int);
                }
                return self.entries[i].weight;
            }
            i += 1;
        }
        proof {
            lemma_stranger_has_no_stake(self.entries@, identity);
        }
        0
    }

    /// An independent copy of the table.
    pub fn snapshot(&self) -> (copy: StakeTable)
        ensures
            copy@ == self@,
            copy.wf() == self.wf(),
    {
        let n = self.entries.len();
        let mut entries: Vec<StakeTableEntry> = Vec::new();
        let mut i: usize = 0;
        while i < n
            invariant
                n == self.entries.len(),
                i <= n,
                entries@ == self.entries@.take(i as int),
            decreases n - i,
        {
            entries.push(self.entries[i]);
            proof {
                assert(self.entries@.take(i as int).push(self.entries@[i as int])
                    =~= self.entries@.take(i as int + 1));
            }
            i += 1;
        }
        proof {
            assert(self.entries@.take(n as int) =~= self.entries@);
        }
        StakeTable { entries, total: self.total }
    }
}

} // verus!
