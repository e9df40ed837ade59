//! The tally engine: from a ledger to the winners of an adventure and their
//! reward, and from the winners of all adventures to the overall winner.

use vstd::prelude::*;
use std::collections::HashMap;
use crate::error::ContractError;
use crate::ledger::lemma_voters_for_push;
use crate::model::{
    is_leader_index, lemma_leader_index_is, lemma_occurrences_push, occurrences, overall_winner,
    tally, voters_for, TallyModel, VoteModel,
};
use crate::state::{option_view, strings_view, winners_view, AdventureState};

verus! {

/// What the tally of one adventure yields.
#[derive(Clone, Debug, PartialEq, Eq)]
pub struct Tally {
    /// How many players voted for the winning option.
    pub winning_votes: u32,
    /// Those players, in ledger order.
    pub winners: Vec<String>,
    /// What each of them receives.
    pub reward: u64,
}

impl View for Tally {
    type V = TallyModel;

    open spec fn view(&self) -> TallyModel {
        TallyModel {
            winning_votes: self.winning_votes as nat,
            winners: strings_view(self.winners@),
            reward: self.reward as nat,
        }
    }
}

/// Buckets the players of a ledger by the option they voted for: each option
/// that has a vote is mapped to its voters, in ledger order.
pub fn bucket_votes(ledger: &AdventureState) -> (buckets: HashMap<u32, Vec<String>>)
    ensures
        forall|option: u32| #[trigger]
            buckets@.contains_key(option) <==> voters_for(ledger@, option as nat).len() > 0,
        forall|option: u32|
            buckets@.contains_key(option) ==> strings_view(#[trigger] buckets@[option]@)
                == voters_for(ledger@, option as nat),
{
    let mut buckets: HashMap<u32, Vec<String>> = HashMap::new();
    let mut i: usize = 0;
    assert(ledger@.take(0) =~= Seq::<VoteModel>::empty());
    while i < ledger.votes.len()
        invariant
            i <= ledger.votes.len(),
            forall|option: u32| #[trigger]
                buckets@.contains_key(option) <==> voters_for(
                    ledger@.take(i as int),
                    option as nat,
                ).len() > 0,
            forall|option: u32|
                buckets@.contains_key(option) ==> strings_view(#[trigger] buckets@[option]@)
                    == voters_for(ledger@.take(i as int), option as nat),
        decreases ledger.votes.len() - i,
    {
        let vote: u32 = ledger.votes[i].vote;
        let player = ledger.votes[i].player.clone();
        let ghost before = buckets@;
        let ghost prefix = ledger@.take(i as int);
        let ghost entry = ledger@[i as int];
        proof {
            assert(prefix.push(entry) =~= ledger@.take(i + 1));
            assert(entry.vote == vote as nat && entry.player == player@);
            assert forall|option: u32|
                voters_for(ledger@.take(i + 1), option as nat) == if option == vote {
                    voters_for(prefix, option as nat).push(player@)
                } else {
                    voters_for(prefix, option as nat)
                } by {
                lemma_voters_for_push(prefix, entry, option as nat);
            }
        }
        let mut bucket = match buckets.remove(&vote) {
            Some(earlier) => earlier,
            None => Vec::new(),
        };
        let ghost earlier = strings_view(bucket@);
        assert(earlier =~= voters_for(prefix, vote as nat));
        bucket.push(player);
        assert(strings_view(bucket@) =~= earlier.push(player@));
        buckets.insert(vote, bucket);
        assert forall|option: u32| #[trigger]
            buckets@.contains_key(option) <==> voters_for(
                ledger@.take(i + 1),
                option as nat,
            ).len() > 0 by {
            if option != vote {
                assert(buckets@.contains_key(option) == before.contains_key(option));
            }
        }
        assert forall|option: u32| buckets@.contains_key(option) implies strings_view(
            #[trigger] buckets@[option]@,
        ) == voters_for(ledger@.take(i + 1), option as nat) by {
            if option != vote {
                assert(before.contains_key(option));
                assert(buckets@[option] == before[option]);
            }
        }
        i = i + 1;
    }
    assert(ledger@.take(i as int) =~= ledger@);
    buckets
}

/// Tallies a ledger. Option 1 wins with strictly more votes than option 2,
/// option 2 otherwise; each winner receives an equal share of one adventure's
/// part of `adventure_funds`. There is no tally without an adventure to share
/// among or without a vote for the winning option.
pub fn tally_ledger(ledger: &AdventureState, adventure_funds: u64, num_of_adventures: u32) -> (res:
    Result<Tally, ContractError>)
    ensures
        match res {
            Ok(t) => tally(ledger@, adventure_funds as nat, num_of_adventures as nat) == Ok::<
                TallyModel,
                ContractError,
            >(t@),
            Err(e) => tally(ledger@, adventure_funds as nat, num_of_adventures as nat) == Err::<
                TallyModel,
                ContractError,
            >(e),
        },
{
    let mut buckets = bucket_votes(ledger);
    let first: usize = match buckets.get(&1) {
        Some(bucket) => bucket.len(),
        None => 0,
    };
    let second: usize = match buckets.get(&2) {
        Some(bucket) => bucket.len(),
        None => 0,
    };
    assert(first == voters_for(ledger@, 1).len()) by {
        if buckets@.contains_key(1u32) {
            assert(strings_view(buckets@[1u32]@).len() == buckets@[1u32]@.len());
        }
    }
    assert(second == voters_for(ledger@, 2).len()) by {
        if buckets@.contains_key(2u32) {
            assert(strings_view(buckets@[2u32]@).len() == buckets@[2u32]@.len());
        }
    }
    let option: u32 = if first > second {
        1
    } else {
        2
    };
    let ghost all = buckets@;
    let winners = match buckets.remove(&option) {
        Some(bucket) => bucket,
        None => {
            assert(!all.contains_key(option));
            return Err(ContractError::Internal);
        },
    };
    assert(all.contains_key(option));
    assert(winners == all[option]);
    assert(strings_view(winners@) == voters_for(ledger@, option as nat));
    assert(strings_view(winners@).len() == winners@.len());
    if num_of_adventures == 0 {
        return Err(ContractError::Internal);
    }
    if winners.len() > u32::MAX as usize {
        return Err(ContractError::Overflow);
    }
    let count: u32 = winners.len() as u32;
    let part: u64 = adventure_funds / (num_of_adventures as u64);
    let reward: u64 = part / (count as u64);
    Ok(Tally { winning_votes: count, winners, reward })
}

/// The winners of all tallies, one after the other.
pub fn flatten_winners(winners: &Vec<Vec<String>>) -> (flat: Vec<String>)
    ensures
        strings_view(flat@) == winners_view(winners@).flatten(),
{
    let ghost model = winners_view(winners@);
    let mut flat: Vec<String> = Vec::new();
    let mut i: usize = 0;
    assert(model.take(0) =~= Seq::<Seq<Seq<char>>>::empty());
    assert(strings_view(flat@) =~= model.take(0).flatten());
    while i < winners.len()
        invariant
            i <= winners.len(),
            model == winners_view(winners@),
            strings_view(flat@) == model.take(i as int).flatten(),
        decreases winners.len() - i,
    {
        let mut j: usize = 0;
        assert(model[i as int].take(0) =~= Seq::<Seq<char>>::empty());
        while j < winners[i].len()
            invariant
                i < winners.len(),
                j <= winners[i as int].len(),
                model == winners_view(winners@),
                strings_view(flat@) == model.take(i as int).flatten() + model[i as int].take(
                    j as int,
                ),
            decreases winners[i as int].len() - j,
        {
            let ghost before = strings_view(flat@);
            flat.push(winners[i][j].clone());
            assert(model[i as int] == strings_view(winners@[i as int]@));
            assert(model[i as int][j as int] == winners@[i as int]@[j as int]@);
            assert(strings_view(flat@) =~= before.push(model[i as int][j as int]));
            assert(model[i as int].take(j + 1) =~= model[i as int].take(j as int).push(
                model[i as int][j as int],
            ));
            assert(strings_view(flat@) =~= model.take(i as int).flatten() + model[i as int].take(
                j + 1,
            ));
            j = j + 1;
        }
        proof {
            assert(model[i as int].take(j as int) =~= model[i as int]);
            model.take(i as int).lemma_flatten_push(model[i as int]);
            assert(model.take(i as int).push(model[i as int]) =~= model.take(i + 1));
        }
        i = i + 1;
    }
    assert(model.take(i as int) =~= model);
    flat
}

/// How often `x` occurs in `names`.
pub fn count_occurrences(names: &Vec<String>, x: &String) -> (n: usize)
    ensures
        n == occurrences(strings_view(names@), x@),
{
    let ghost s = strings_view(names@);
    let mut n: usize = 0;
    let mut i: usize = 0;
    assert(s.take(0) =~= Seq::<Seq<char>>::empty());
    while i < names.len()
        invariant
            i <= names.len(),
            s == strings_view(names@),
            n == occurrences(s.take(i as int), x@),
            n <= i,
        decreases names.len() - i,
    {
        proof {
            lemma_occurrences_push(s.take(i as int), s[i as int], x@);
            assert(s.take(i as int).push(s[i as int]) =~= s.take(i + 1));
        }
        if names[i] == *x {
            n = n + 1;
        }
        i = i + 1;
    }
    assert(s.take(i as int) =~= s);
    n
}

/// The overall winner: the player who is most often among the winners of the
/// tallies, and of several such players the one who appears first.
pub fn find_overall_winner(winners: &Vec<Vec<String>>) -> (found: Option<String>)
    ensures
        option_view(found) == overall_winner(winners_view(winners@).flatten()),
{
    let flat = flatten_winners(winners);
    let ghost s = strings_view(flat@);
    if flat.len() == 0 {
        return None;
    }
    let mut best: usize = 0;
    let mut best_count: usize = count_occurrences(&flat, &flat[0]);
    let mut k: usize = 1;
    while k < flat.len()
        invariant
            1 <= k <= flat.len(),
            best < k,
            s == strings_view(flat@),
            best_count == occurrences(s, s[best as int]),
            forall|j: int| 0 <= j < best ==> occurrences(s, #[trigger] s[j]) < best_count,
            forall|j: int| best <= j < k ==> occurrences(s, #[trigger] s[j]) <= best_count,
        decreases flat.len() - k,
    {
        let count = count_occurrences(&flat, &flat[k]);
        if count > best_count {
            best = k;
            best_count = count;
        }
        k = k + 1;
    }
    proof {
        assert(is_leader_index(s, best as int));
        lemma_leader_index_is(s, best as int);
    }
    Some(flat[best].clone())
}

} // verus!
