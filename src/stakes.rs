//! Sums of the stakes held in a campaign, over a sequence of contribution
//! records.
use vstd::prelude::*;
use crate::records::Contribution;

verus! {

/// What record `c` adds to the stakes of campaign `id`.
pub open spec fn stake_in(c: Contribution, id: Seq<char>) -> int {
    if c.campaign_id@ == id {
        c.amount as int
    } else {
        0
    }
}

/// Whether record `c` is a stake in campaign `id`: 1 or 0.
pub open spec fn staker_in(c: Contribution, id: Seq<char>) -> int {
    if c.campaign_id@ == id {
        1
    } else {
        0
    }
}

/// The sum of the stakes in campaign `id` among `s`.
pub open spec fn stake_total(s: Seq<Contribution>, id: Seq<char>) -> int
    decreases s.len(),
{
    if s.len() == 0 {
        0
    } else {
        stake_total(s.drop_last(), id) + stake_in(s.last(), id)
    }
}

/// How many of `s` are stakes in campaign `id`.
pub open spec fn stake_count(s: Seq<Contribution>, id: Seq<char>) -> int
    decreases s.len(),
{
    if s.len() == 0 {
        0
    } else {
        stake_count(s.drop_last(), id) + staker_in(s.last(), id)
    }
}

pub proof fn lemma_stakes_push(s: Seq<Contribution>, v: Contribution, id: Seq<char>)
    ensures
        stake_total(s.push(v), id) == stake_total(s, id) + stake_in(v, id),
        stake_count(s.push(v), id) == stake_count(s, id) + staker_in(v, id),
{
    assert(s.push(v).drop_last() =~= s);
}

pub proof fn lemma_stakes_update(s: Seq<Contribution>, i: int, v: Contribution, id: Seq<char>)
    requires
        0 <= i < s.len(),
    ensures
        stake_total(s.update(i, v), id) == stake_total(s, id) - stake_in(s[i], id) + stake_in(v, id),
        stake_count(s.update(i, v), id) == stake_count(s, id) - staker_in(s[i], id) + staker_in(
            v,
            id,
        ),
    decreases s.len(),
{
    let t = s.update(i, v);
    if i == s.len() - 1 {
        assert(t.drop_last() =~= s.drop_last());
    } else {
        assert(t.drop_last() =~= s.drop_last().update(i, v));
        lemma_stakes_update(s.drop_last(), i, v, id);
    }
}

pub proof fn lemma_stakes_remove(s: Seq<Contribution>, i: int, id: Seq<char>)
    requires
        0 <= i < s.len(),
    ensures
        stake_total(s.remove(i), id) == stake_total(s, id) - stake_in(s[i], id),
        stake_count(s.remove(i), id) == stake_count(s, id) - staker_in(s[i], id),
    decreases s.len(),
{
    let t = s.remove(i);
    if i == s.len() - 1 {
        assert(t =~= s.drop_last());
    } else {
        assert(t.drop_last() =~= s.drop_last().remove(i));
        assert(t.last() == s.last());
        lemma_stakes_remove(s.drop_last(), i, id);
    }
}

pub proof fn lemma_stakes_absent(s: Seq<Contribution>, id: Seq<char>)
    requires
        forall|j: int| 0 <= j < s.len() ==> s[j].campaign_id@ != id,
    ensures
        stake_total(s, id) == 0,
        stake_count(s, id) == 0,
    decreases s.len(),
{
    if s.len() > 0 {
        lemma_stakes_absent(s.drop_last(), id);
    }
}

/// With positive stakes, one stake in a campaign is at most their sum, and
/// there is at least one.
pub proof fn lemma_stake_within_total(s: Seq<Contribution>, i: int, id: Seq<char>)
    requires
        0 <= i < s.len(),
        s[i].campaign_id@ == id,
        forall|j: int| 0 <= j < s.len() ==> 0 < #[trigger] s[j].amount,
    ensures
        s[i].amount <= stake_total(s, id),
        1 <= stake_count(s, id),
    decreases s.len(),
{
    lemma_stakes_nonneg(s.drop_last(), id);
    if i < s.len() - 1 {
        assert(s.drop_last()[i] == s[i]);
        assert forall|j: int| 0 <= j < s.drop_last().len() implies 0 < #[trigger] s.drop_last()[j].amount by {
            assert(s.drop_last()[j] == s[j]);
        }
        lemma_stake_within_total(s.drop_last(), i, id);
        assert(0 < s[s.len() - 1].amount);
    }
}

proof fn lemma_stakes_nonneg(s: Seq<Contribution>, id: Seq<char>)
    requires
        forall|j: int| 0 <= j < s.len() ==> 0 < #[trigger] s[j].amount,
    ensures
        0 <= stake_total(s, id),
        0 <= stake_count(s, id),
    decreases s.len(),
{
    if s.len() > 0 {
        assert forall|j: int| 0 <= j < s.drop_last().len() implies 0 < #[trigger] s.drop_last()[j].amount by {
            assert(s.drop_last()[j] == s[j]);
        }
        lemma_stakes_nonneg(s.drop_last(), id);
        assert(0 < s[s.len() - 1].amount);
    }
}

} // verus!
