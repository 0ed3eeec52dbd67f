//! Leader election: a deterministic, stake-weighted draw for each view.
//!
//! The total weight of the table is cut into consecutive intervals, one for
//! each entry and as long as the entry weighs. A view draws a ticket below
//! the total by mixing its number; the entry whose interval holds the ticket
//! leads the view. Every node computes the same leader from the same table.

use crate::stake_table::{
    lemma_total_take_monotone, lemma_total_take_step, total_weight, StakeTable, StakeTableEntry,
};
use vstd::prelude::*;

verus! {

/// The pseudo-random number that a view number is mixed into: an add, two
/// multiply-and-shift rounds and a final shift, all modulo 2^64.
pub open spec fn mixed(view: u64) -> u64 {
    let a = view.wrapping_add(0x9E37_79B9_7F4A_7C15u64);
    let b = (a ^ (a >> 30)).wrapping_mul(0xBF58_476D_1CE4_E5B9u64);
    let c = (b ^ (b >> 27)).wrapping_mul(0x94D0_49BB_1331_11EBu64);
    c ^ (c >> 31)
}

/// Computes [`mixed`].
pub fn mix(view: u64) -> (m: u64)
    ensures
        m == mixed(view),
{
    let a = view.wrapping_add(0x9E37_79B9_7F4A_7C15u64);
    let b = (a ^ (a >> 30)).wrapping_mul(0xBF58_476D_1CE4_E5B9u64);
    let c = (b ^ (b >> 27)).wrapping_mul(0x94D0_49BB_1331_11EBu64);
    c ^ (c >> 31)
}

/// The position of the entry whose interval holds `ticket`: the last entry
/// before which at most `ticket` weight lies. An entry without weight has an
/// empty interval and holds no ticket below the total.
pub open spec fn ticket_index(entries: Seq<StakeTableEntry>, ticket: nat) -> int
    decreases entries.len(),
{
    if entries.len() == 0 {
        0
    } else if total_weight(entries.drop_last()) <= ticket {
        entries.len() - 1
    } else {
        ticket_index(entries.drop_last(), ticket)
    }
}

/// The ticket that a view draws from a table of positive total weight.
pub open spec fn ticket_of(entries: Seq<StakeTableEntry>, view: u64) -> nat {
    (mixed(view) as nat) % total_weight(entries)
}

/// The identity that holds a ticket: none for a ticket that is not below
/// the total.
pub open spec fn holder_of(entries: Seq<StakeTableEntry>, ticket: nat) -> Option<u64> {
    if ticket < total_weight(entries) {
        Some(entries[ticket_index(entries, ticket)].identity)
    } else {
        None
    }
}

/// The leader of a view: the holder of the ticket that the view draws;
/// none when the table has no weight.
pub open spec fn elected(entries: Seq<StakeTableEntry>, view: u64) -> Option<u64> {
    if total_weight(entries) == 0 {
        None
    } else {
        holder_of(entries, ticket_of(entries, view))
    }
}

/// A ticket inside the interval of entry `i` is held by entry `i`.
pub proof fn lemma_ticket_in_interval(entries: Seq<StakeTableEntry>, i: int, ticket: nat)
    requires
        0 <= i < entries.len(),
        total_weight(entries.take(i)) <= ticket < total_weight(entries.take(i + 1)),
    ensures
        ticket_index(entries, ticket) == i,
    decreases entries.len(),
{
    let shorter = entries.drop_last();
    assert(shorter =~= entries.take(entries.len() - 1));
    if i < entries.len() - 1 {
        lemma_total_take_monotone(entries, i + 1, entries.len() - 1);
        assert(shorter.take(i) =~= entries.take(i));
        assert(shorter.take(i + 1) =~= entries.take(i + 1));
        lemma_ticket_in_interval(shorter, i, ticket);
    }
}

/// A ticket below the total lies inside the interval of the entry that
/// holds it.
pub proof fn lemma_ticket_holder_interval(entries: Seq<StakeTableEntry>, ticket: nat)
    requires
        ticket < total_weight(entries),
    ensures
        0 <= ticket_index(entries, ticket) < entries.len(),
        total_weight(entries.take(ticket_index(entries, ticket))) <= ticket < total_weight(
            entries.take(ticket_index(entries, ticket) + 1),
        ),
    decreases entries.len(),
{
    let shorter = entries.drop_last();
    assert(shorter =~= entries.take(entries.len() - 1));
    assert(entries =~= entries.take(entries.len() as int));
    if total_weight(shorter) <= ticket {
    } else {
        lemma_ticket_holder_interval(shorter, ticket);
        let i = ticket_index(shorter, ticket);
        assert(shorter.take(i) =~= entries.take(i));
        assert(shorter.take(i + 1) =~= entries.take(i + 1));
    }
}

/// Proportionality: the tickets below the total that entry `i` holds are
/// exactly those of an interval as long as the entry weighs. Of `total`
/// tickets, `weight` elect the entry.
pub proof fn law_election_proportional(entries: Seq<StakeTableEntry>, i: int, ticket: nat)
    requires
        0 <= i < entries.len(),
    ensures
        (ticket < total_weight(entries) && ticket_index(entries, ticket) == i) <==> (total_weight(
            entries.take(i),
        ) <= ticket < total_weight(entries.take(i)) + entries[i].weight),
{
    lemma_total_take_step(entries, i);
    lemma_total_take_monotone(entries, i + 1, entries.len() as int);
    assert(entries =~= entries.take(entries.len() as int));
    if ticket < total_weight(entries) && ticket_index(entries, ticket) == i {
        lemma_ticket_holder_interval(entries, ticket);
    }
    if total_weight(entries.take(i)) <= ticket < total_weight(entries.take(i)) + entries[i].weight {
        lemma_ticket_in_interval(entries, i, ticket);
    }
}

/// The identity that holds `ticket`: none exactly when the ticket is not
/// below the total weight.
pub fn ticket_holder(ticket: u64, table: &StakeTable) -> (holder: Option<u64>)
    requires
        table.wf(),
    ensures
        holder == holder_of(table@, ticket as nat),
{
    let n = table.len();
    let mut below: u64 = 0;
    let mut i: usize = 0;
    while i < n
        invariant
            n == table@.len(),
            i <= n,
            table.wf(),
            below == total_weight(table@.take(i as int)),
            below <= ticket,
        decreases n - i,
    {
        match table.entry(i) {
            Some(e) => {
                proof {
                    table.lemma_wf();
                    lemma_total_take_step(table@, i as int);
                    lemma_total_take_monotone(table@, i as int + 1, n as int);
                    assert(table@.take(n as int) =~= table@);
                }
                let next = below + e.weight;
                if ticket < next {
                    proof {
                        lemma_ticket_in_interval(table@, i as int, ticket as nat);
                    }
                    return Some(e.identity);
                }
                below = next;
            },
            None => {},
        }
        i += 1;
    }
    proof {
        assert(table@.take(n as int) =~= table@);
    }
    None
}

/// The leader of `view` under `table`: none exactly when the table has no
/// weight.
pub fn leader_for(view: u64, table: &StakeTable) -> (leader: Option<u64>)
    requires
        table.wf(),
    ensures
        leader == elected(table@, view),
{
    let total = table.total_stake();
    if total == 0 {
        None
    } else {
        ticket_holder(mix(view) % total, table)
    }
}

/// Whether `identity` leads `view` under `table`.
pub fn is_leader(view: u64, identity: u64, table: &StakeTable) -> (b: bool)
    requires
        table.wf(),
    ensures
        b == (elected(table@, view) == Some(identity)),
{
    match leader_for(view, table) {
        Some(leader) => leader == identity,
        None => false,
    }
}

} // verus!
