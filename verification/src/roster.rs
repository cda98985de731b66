//! Rosters as sequences of members that ascend by address: looking a
//! member up, filing one, and adding up weights.

use vstd::prelude::*;

use crate::keys::{addr_lt, lemma_addr_order};

verus! {

/// The members with their weights, as pairs of address and weight.
pub type Roster = Seq<(Seq<char>, u64)>;

/// The weight of the first entry for `addr`, if there is one.
pub open spec fn weight_of(roster: Roster, addr: Seq<char>) -> Option<u64>
    decreases roster.len(),
{
    if roster.len() == 0 {
        None
    } else if roster[0].0 == addr {
        Some(roster[0].1)
    } else {
        weight_of(roster.drop_first(), addr)
    }
}

/// The roster with `addr` at weight `weight`: its entry is replaced, or a
/// new one is put before the first address that sorts after it.
pub open spec fn upsert(roster: Roster, addr: Seq<char>, weight: u64) -> Roster
    decreases roster.len(),
{
    if roster.len() == 0 {
        seq![(addr, weight)]
    } else if roster[0].0 == addr {
        seq![(addr, weight)] + roster.drop_first()
    } else if addr_lt(addr, roster[0].0) {
        seq![(addr, weight)] + roster
    } else {
        seq![roster[0]] + upsert(roster.drop_first(), addr, weight)
    }
}

/// Whether the addresses of the roster ascend strictly.
pub open spec fn ascending(roster: Roster) -> bool {
    forall|i: int, j: int| 0 <= i < j < roster.len() ==> addr_lt(roster[i].0, roster[j].0)
}

/// The sum of all weights of the roster.
pub open spec fn total(roster: Roster) -> int
    decreases roster.len(),
{
    if roster.len() == 0 {
        0
    } else {
        total(roster.drop_last()) + roster.last().1
    }
}

/// The roster after each entry of `list` was filed in it, the first one
/// first.
pub open spec fn enrolled(roster: Roster, list: Roster) -> Roster
    decreases list.len(),
{
    if list.len() == 0 {
        roster
    } else {
        upsert(enrolled(roster, list.drop_last()), list.last().0, list.last().1)
    }
}

/// The weight that a list of voters brings: for each, its weight in the
/// roster, or nothing where it is no member.
pub open spec fn tally(voters: Seq<Seq<char>>, roster: Roster) -> int
    decreases voters.len(),
{
    if voters.len() == 0 {
        0
    } else {
        tally(voters.drop_last(), roster) + match weight_of(roster, voters.last()) {
            Some(w) => w as int,
            None => 0,
        }
    }
}

/// After an upsert the roster gives `addr` its new weight and every other
/// address the weight it had.
pub proof fn lemma_weight_of_upsert(roster: Roster, addr: Seq<char>, weight: u64, other: Seq<char>)
    ensures
        weight_of(upsert(roster, addr, weight), other) == if other == addr {
            Some(weight)
        } else {
            weight_of(roster, other)
        },
    decreases roster.len(),
{
    let after = upsert(roster, addr, weight);
    if roster.len() == 0 {
        assert(after.drop_first() =~= roster);
    } else if roster[0].0 == addr {
        assert(after.drop_first() =~= roster.drop_first());
    } else if addr_lt(addr, roster[0].0) {
        assert(after.drop_first() =~= roster);
    } else {
        lemma_weight_of_upsert(roster.drop_first(), addr, weight, other);
        assert(after.drop_first() =~= upsert(roster.drop_first(), addr, weight));
    }
}

/// Every entry of an upserted roster is the new one or an old one.
proof fn lemma_upsert_entries(roster: Roster, addr: Seq<char>, weight: u64, k: int)
    requires
        0 <= k < upsert(roster, addr, weight).len(),
    ensures
        upsert(roster, addr, weight)[k] == (addr, weight) || exists|i: int|
            0 <= i < roster.len() && roster[i] == upsert(roster, addr, weight)[k],
    decreases roster.len(),
{
    let after = upsert(roster, addr, weight);
    if roster.len() == 0 {
    } else if roster[0].0 == addr {
        if k > 0 {
            assert(roster[k] == after[k]);
        }
    } else if addr_lt(addr, roster[0].0) {
        if k > 0 {
            assert(roster[k - 1] == after[k]);
        }
    } else {
        if k == 0 {
            assert(roster[0] == after[0]);
        } else {
            lemma_upsert_entries(roster.drop_first(), addr, weight, k - 1);
            let rest = upsert(roster.drop_first(), addr, weight);
            if rest[k - 1] != (addr, weight) {
                let i = choose|i: int|
                    0 <= i < roster.drop_first().len() && roster.drop_first()[i] == rest[k - 1];
                assert(roster[i + 1] == after[k]);
            }
        }
    }
}

/// An upsert keeps the addresses ascending.
pub proof fn lemma_upsert_ascending(roster: Roster, addr: Seq<char>, weight: u64)
    requires
        ascending(roster),
    ensures
        ascending(upsert(roster, addr, weight)),
        upsert(roster, addr, weight).len() >= 1,
    decreases roster.len(),
{
    let after = upsert(roster, addr, weight);
    if roster.len() == 0 {
    } else if roster[0].0 == addr {
        assert forall|i: int, j: int| 0 <= i < j < after.len() implies addr_lt(
            after[i].0,
            after[j].0,
        ) by {
            assert(after[j] == roster[j]);
            if i > 0 {
                assert(after[i] == roster[i]);
            }
        }
    } else if addr_lt(addr, roster[0].0) {
        assert forall|i: int, j: int| 0 <= i < j < after.len() implies addr_lt(
            after[i].0,
            after[j].0,
        ) by {
            assert(after[j] == roster[j - 1]);
            if i > 0 {
                assert(after[i] == roster[i - 1]);
            } else if j > 1 {
                lemma_addr_order(addr, roster[0].0, roster[j - 1].0);
            }
        }
    } else {
        let tail = roster.drop_first();
        let rest = upsert(tail, addr, weight);
        assert(ascending(tail)) by {
            assert forall|i: int, j: int| 0 <= i < j < tail.len() implies addr_lt(
                tail[i].0,
                tail[j].0,
            ) by {
                assert(tail[i] == roster[i + 1] && tail[j] == roster[j + 1]);
            }
        }
        lemma_upsert_ascending(tail, addr, weight);
        lemma_addr_order(roster[0].0, addr, addr);
        assert forall|i: int, j: int| 0 <= i < j < after.len() implies addr_lt(
            after[i].0,
            after[j].0,
        ) by {
            assert(after[j] == rest[j - 1]);
            if i > 0 {
                assert(after[i] == rest[i - 1]);
            } else {
                lemma_upsert_entries(tail, addr, weight, j - 1);
                if rest[j - 1] != (addr, weight) {
                    let k = choose|k: int| 0 <= k < tail.len() && tail[k] == rest[j - 1];
                    assert(tail[k] == roster[k + 1]);
                }
            }
        }
    }
}

/// An upsert changes no weight to zero and adds none, where the new weight
/// is above zero.
pub proof fn lemma_upsert_positive(roster: Roster, addr: Seq<char>, weight: u64)
    requires
        weight > 0,
        positive(roster),
    ensures
        positive(upsert(roster, addr, weight)),
{
    let after = upsert(roster, addr, weight);
    assert forall|k: int| 0 <= k < after.len() implies after[k].1 > 0 by {
        lemma_upsert_entries(roster, addr, weight, k);
    }
}

/// Whether every weight of the roster is above zero.
pub open spec fn positive(roster: Roster) -> bool {
    forall|i: int| 0 <= i < roster.len() ==> (#[trigger] roster[i]).1 > 0
}

/// Filing members of positive weight keeps a roster ascending and its
/// weights positive, and leaves it with a member if any was filed.
pub proof fn lemma_enrolled(roster: Roster, list: Roster)
    requires
        ascending(roster),
        positive(roster),
        positive(list),
    ensures
        ascending(enrolled(roster, list)),
        positive(enrolled(roster, list)),
        list.len() > 0 ==> enrolled(roster, list).len() > 0,
    decreases list.len(),
{
    if list.len() > 0 {
        let before = enrolled(roster, list.drop_last());
        assert(positive(list.drop_last())) by {
            assert forall|i: int| 0 <= i < list.drop_last().len() implies (
            #[trigger] list.drop_last()[i]).1 > 0 by {
                assert(list.drop_last()[i] == list[i]);
            }
        }
        lemma_enrolled(roster, list.drop_last());
        assert(list.last() == list[list.len() - 1]);
        lemma_upsert_ascending(before, list.last().0, list.last().1);
        lemma_upsert_positive(before, list.last().0, list.last().1);
    }
}

/// Whether no address is listed twice.
pub open spec fn distinct(list: Roster) -> bool {
    forall|i: int, j: int| 0 <= i < j < list.len() ==> list[i].0 != list[j].0
}

/// The weights of two rosters put together sum to the sum of both.
pub proof fn lemma_total_concat(a: Roster, b: Roster)
    ensures
        total(a + b) == total(a) + total(b),
    decreases b.len(),
{
    if b.len() == 0 {
        assert(a + b =~= a);
    } else {
        assert((a + b).drop_last() =~= a + b.drop_last());
        lemma_total_concat(a, b.drop_last());
    }
}

/// Filing a new member adds its weight to the sum of the roster.
pub proof fn lemma_total_upsert(roster: Roster, addr: Seq<char>, weight: u64)
    requires
        weight_of(roster, addr) is None,
    ensures
        total(upsert(roster, addr, weight)) == total(roster) + weight,
    decreases roster.len(),
{
    let one = seq![(addr, weight)];
    assert(total(one) == weight) by {
        assert(one.drop_last().len() == 0);
        assert(total(one.drop_last()) == 0);
        assert(one.last() == (addr, weight));
    }
    if roster.len() == 0 {
    } else if addr_lt(addr, roster[0].0) {
        lemma_total_concat(one, roster);
    } else {
        let head = seq![roster[0]];
        assert(total(head) == roster[0].1) by {
            assert(head.drop_last().len() == 0);
            assert(total(head.drop_last()) == 0);
            assert(head.last() == roster[0]);
        }
        lemma_total_upsert(roster.drop_first(), addr, weight);
        lemma_total_concat(head, upsert(roster.drop_first(), addr, weight));
        lemma_total_concat(head, roster.drop_first());
        assert(head + roster.drop_first() =~= roster);
    }
}

/// After members were filed, an address has a weight if it had one before
/// or was filed.
pub proof fn lemma_enrolled_members(roster: Roster, list: Roster, addr: Seq<char>)
    ensures
        weight_of(enrolled(roster, list), addr) is Some <==> {
            ||| weight_of(roster, addr) is Some
            ||| exists|i: int| 0 <= i < list.len() && (#[trigger] list[i]).0 == addr
        },
    decreases list.len(),
{
    if list.len() > 0 {
        let front = list.drop_last();
        lemma_enrolled_members(roster, front, addr);
        lemma_weight_of_upsert(enrolled(roster, front), list.last().0, list.last().1, addr);
        if exists|i: int| 0 <= i < front.len() && (#[trigger] front[i]).0 == addr {
            let i = choose|i: int| 0 <= i < front.len() && (#[trigger] front[i]).0 == addr;
            assert(list[i].0 == addr);
        }
        if exists|i: int| 0 <= i < list.len() && (#[trigger] list[i]).0 == addr {
            let i = choose|i: int| 0 <= i < list.len() && (#[trigger] list[i]).0 == addr;
            if i < front.len() {
                assert(front[i].0 == addr);
            } else {
                assert(list.last().0 == addr);
            }
        }
    }
}

/// Filing members that are all new, none of them twice, adds the sum of
/// their weights to the sum of the roster.
pub proof fn lemma_total_enrolled(roster: Roster, list: Roster)
    requires
        distinct(list),
        forall|i: int| 0 <= i < list.len() ==> weight_of(roster, (#[trigger] list[i]).0) is None,
    ensures
        total(enrolled(roster, list)) == total(roster) + total(list),
    decreases list.len(),
{
    if list.len() > 0 {
        let front = list.drop_last();
        assert(distinct(front)) by {
            assert forall|i: int, j: int| 0 <= i < j < front.len() implies front[i].0
                != front[j].0 by {
                assert(front[i] == list[i] && front[j] == list[j]);
            }
        }
        assert forall|i: int| 0 <= i < front.len() implies weight_of(
            roster,
            (#[trigger] front[i]).0,
        ) is None by {
            assert(front[i] == list[i]);
        }
        lemma_total_enrolled(roster, front);
        lemma_enrolled_members(roster, front, list.last().0);
        assert(weight_of(enrolled(roster, front), list.last().0) is None) by {
            assert(list[list.len() - 1] == list.last());
            if exists|i: int| 0 <= i < front.len() && (#[trigger] front[i]).0 == list.last().0 {
                let i = choose|i: int|
                    0 <= i < front.len() && (#[trigger] front[i]).0 == list.last().0;
                assert(front[i] == list[i]);
            }
        }
        lemma_total_upsert(enrolled(roster, front), list.last().0, list.last().1);
    }
}

/// Filing a member adds no more than its weight to the sum of the roster.
pub proof fn lemma_total_upsert_bound(roster: Roster, addr: Seq<char>, weight: u64)
    ensures
        total(upsert(roster, addr, weight)) <= total(roster) + weight,
    decreases roster.len(),
{
    let one = seq![(addr, weight)];
    assert(total(one) == weight) by {
        assert(one.drop_last().len() == 0);
        assert(total(one.drop_last()) == 0);
        assert(one.last() == (addr, weight));
    }
    if roster.len() == 0 {
    } else {
        let head = seq![roster[0]];
        assert(total(head) == roster[0].1) by {
            assert(head.drop_last().len() == 0);
            assert(total(head.drop_last()) == 0);
            assert(head.last() == roster[0]);
        }
        lemma_total_concat(head, roster.drop_first());
        assert(head + roster.drop_first() =~= roster);
        if roster[0].0 == addr {
            lemma_total_concat(one, roster.drop_first());
        } else if addr_lt(addr, roster[0].0) {
            lemma_total_concat(one, roster);
        } else {
            lemma_total_upsert_bound(roster.drop_first(), addr, weight);
            lemma_total_concat(head, upsert(roster.drop_first(), addr, weight));
        }
    }
}

/// Filing members adds no more than the sum of their weights to the sum
/// of the roster.
pub proof fn lemma_total_enrolled_bound(roster: Roster, list: Roster)
    ensures
        total(enrolled(roster, list)) <= total(roster) + total(list),
    decreases list.len(),
{
    if list.len() > 0 {
        lemma_total_enrolled_bound(roster, list.drop_last());
        lemma_total_upsert_bound(
            enrolled(roster, list.drop_last()),
            list.last().0,
            list.last().1,
        );
    }
}

/// Whether `k` is the first place at which `addr` stands in the roster.
pub open spec fn entry_at(roster: Roster, addr: Seq<char>, k: int) -> bool {
    &&& 0 <= k < roster.len()
    &&& roster[k].0 == addr
    &&& forall|j: int| 0 <= j < k ==> (#[trigger] roster[j]).0 != addr
}

/// A member has a first entry in the roster, and its weight is that
/// entry's.
pub proof fn lemma_entry_of(roster: Roster, addr: Seq<char>) -> (k: int)
    requires
        weight_of(roster, addr) is Some,
    ensures
        entry_at(roster, addr, k),
        weight_of(roster, addr) == Some(roster[k].1),
    decreases roster.len(),
{
    if roster[0].0 == addr {
        0
    } else {
        let k = lemma_entry_of(roster.drop_first(), addr);
        assert forall|j: int| 0 <= j < k + 1 implies (#[trigger] roster[j]).0 != addr by {
            if j > 0 {
                assert(roster.drop_first()[j - 1] == roster[j]);
            }
        }
        k + 1
    }
}

/// Taking an entry out of the roster leaves every other address the weight
/// it had.
pub proof fn lemma_weight_of_remove(roster: Roster, k: int, other: Seq<char>)
    requires
        0 <= k < roster.len(),
        roster[k].0 != other,
    ensures
        weight_of(roster.remove(k), other) == weight_of(roster, other),
    decreases roster.len(),
{
    if k == 0 {
        assert(roster.remove(0) =~= roster.drop_first());
    } else {
        assert(roster.remove(k)[0] == roster[0]);
        assert(roster.remove(k).drop_first() =~= roster.drop_first().remove(k - 1));
        if roster[0].0 != other {
            lemma_weight_of_remove(roster.drop_first(), k - 1, other);
        }
    }
}

/// Voters that weigh the same in two rosters bring the same weight in
/// both.
pub proof fn lemma_tally_same(voters: Seq<Seq<char>>, a: Roster, b: Roster)
    requires
        forall|i: int|
            0 <= i < voters.len() ==> weight_of(a, #[trigger] voters[i]) == weight_of(
                b,
                voters[i],
            ),
    ensures
        tally(voters, a) == tally(voters, b),
    decreases voters.len(),
{
    if voters.len() > 0 {
        assert forall|i: int| 0 <= i < voters.drop_last().len() implies weight_of(
            a,
            #[trigger] voters.drop_last()[i],
        ) == weight_of(b, voters.drop_last()[i]) by {
            assert(voters.drop_last()[i] == voters[i]);
        }
        lemma_tally_same(voters.drop_last(), a, b);
        assert(voters.last() == voters[voters.len() - 1]);
    }
}

/// Members of whom none is counted twice bring no more weight than the
/// whole roster has.
pub proof fn lemma_tally_bound(voters: Seq<Seq<char>>, roster: Roster)
    requires
        voters.no_duplicates(),
        forall|i: int| 0 <= i < voters.len() ==> weight_of(roster, #[trigger] voters[i]) is Some,
    ensures
        tally(voters, roster) <= total(roster),
    decreases voters.len(),
{
    if voters.len() == 0 {
        lemma_total_nonnegative(roster);
    } else {
        let front = voters.drop_last();
        let last = voters.last();
        assert(last == voters[voters.len() - 1]);
        let k = lemma_entry_of(roster, last);
        let rest = roster.remove(k);
        // The roster is its entry for the last voter and the rest.
        assert(roster =~= roster.take(k) + seq![roster[k]] + roster.skip(k + 1));
        assert(rest =~= roster.take(k) + roster.skip(k + 1));
        lemma_total_concat(roster.take(k), seq![roster[k]]);
        lemma_total_concat(roster.take(k) + seq![roster[k]], roster.skip(k + 1));
        lemma_total_concat(roster.take(k), roster.skip(k + 1));
        assert(total(seq![roster[k]]) == roster[k].1) by {
            assert(seq![roster[k]].drop_last().len() == 0);
            assert(total(seq![roster[k]].drop_last()) == 0);
            assert(seq![roster[k]].last() == roster[k]);
        }
        // The other voters weigh in the rest what they weigh in the roster.
        assert forall|i: int| 0 <= i < front.len() implies weight_of(rest, #[trigger] front[i])
            == weight_of(roster, front[i]) by {
            assert(front[i] == voters[i]);
            assert(voters[i] != voters[voters.len() - 1]);
            lemma_weight_of_remove(roster, k, front[i]);
        }
        assert(front.no_duplicates()) by {
            assert forall|i: int, j: int|
                0 <= i < front.len() && 0 <= j < front.len() && i != j implies front[i]
                != front[j] by {
                assert(front[i] == voters[i] && front[j] == voters[j]);
            }
        }
        assert forall|i: int| 0 <= i < front.len() implies weight_of(
            rest,
            #[trigger] front[i],
        ) is Some by {
            assert(front[i] == voters[i]);
        }
        lemma_tally_same(front, rest, roster);
        lemma_tally_bound(front, rest);
    }
}

/// No roster weighs less than nothing.
pub proof fn lemma_total_nonnegative(roster: Roster)
    ensures
        total(roster) >= 0,
    decreases roster.len(),
{
    if roster.len() > 0 {
        lemma_total_nonnegative(roster.drop_last());
    }
}

} // verus!
