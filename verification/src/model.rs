//! The mathematical model of the registry: what each piece of state is, as
//! sequences and natural numbers, and what each transition makes of it.

use vstd::prelude::*;
use crate::error::ContractError;

verus! {

/// One entry of a ledger: a player and the vote that player last cast.
#[verifier::ext_equal]
pub struct VoteModel {
    pub player: Seq<char>,
    pub vote: nat,
}

/// The players of a ledger, in the order in which they first voted.
pub open spec fn ledger_voters(ledger: Seq<VoteModel>) -> Seq<Seq<char>> {
    ledger.map_values(|e: VoteModel| e.player)
}

/// A ledger as the mapping it stands for: each voter's vote. Where a player
/// occurs more than once, the first entry counts.
pub open spec fn ledger_map(ledger: Seq<VoteModel>) -> Map<Seq<char>, nat> {
    Map::new(
        |p: Seq<char>| ledger_voters(ledger).contains(p),
        |p: Seq<char>| ledger[first_index(ledger_voters(ledger), p)].vote,
    )
}

/// `i` is the first position of `x` in `s`.
pub open spec fn is_first_index(s: Seq<Seq<char>>, x: Seq<char>, i: int) -> bool {
    &&& 0 <= i < s.len()
    &&& s[i] == x
    &&& forall|j: int| 0 <= j < i ==> s[j] != x
}

/// The first position of `x` in `s`; meaningful only where `s` contains `x`.
pub open spec fn first_index(s: Seq<Seq<char>>, x: Seq<char>) -> int {
    choose|i: int| is_first_index(s, x, i)
}

/// An element of a sequence has a first position.
pub proof fn lemma_first_index_exists(s: Seq<Seq<char>>, x: Seq<char>)
    requires
        s.contains(x),
    ensures
        is_first_index(s, x, first_index(s, x)),
    decreases s.len(),
{
    let k = choose|k: int| 0 <= k < s.len() && s[k] == x;
    let front = s.drop_last();
    if front.contains(x) {
        lemma_first_index_exists(front, x);
        let i = first_index(front, x);
        assert(front[i] == s[i]);
        assert forall|j: int| 0 <= j < i implies s[j] != x by {
            assert(front[j] == s[j]);
        }
        assert(is_first_index(s, x, i));
    } else {
        assert forall|j: int| 0 <= j < s.len() - 1 implies s[j] != x by {
            if s[j] == x {
                assert(front[j] == x);
            }
        }
        assert(is_first_index(s, x, s.len() - 1));
    }
}

/// The first position of an element is the only index that meets `is_first_index`.
pub proof fn lemma_first_index_is(s: Seq<Seq<char>>, x: Seq<char>, i: int)
    requires
        is_first_index(s, x, i),
    ensures
        s.contains(x),
        first_index(s, x) == i,
{
    let c = first_index(s, x);
    assert(is_first_index(s, x, c));
    if c < i {
        assert(s[c] == x);
    } else if i < c {
        assert(s[i] == x);
    }
}

/// A ledger after `player` has cast `vote`: the player's entry is overwritten
/// where there is one, and a new entry is appended where there is none.
pub open spec fn ledger_cast(ledger: Seq<VoteModel>, player: Seq<char>, vote: nat) -> Seq<
    VoteModel,
> {
    let entry = VoteModel { player, vote };
    if ledger_voters(ledger).contains(player) {
        ledger.update(first_index(ledger_voters(ledger), player), entry)
    } else {
        ledger.push(entry)
    }
}

/// The test for being a vote for `option`.
pub open spec fn is_vote_for(option: nat) -> spec_fn(VoteModel) -> bool {
    |e: VoteModel| e.vote == option
}

/// The players of a ledger who voted for `option`, in ledger order.
pub open spec fn voters_for(ledger: Seq<VoteModel>, option: nat) -> Seq<Seq<char>> {
    ledger.filter(is_vote_for(option)).map_values(|e: VoteModel| e.player)
}

/// What the tally of one adventure yields.
#[verifier::ext_equal]
pub struct TallyModel {
    /// How many players voted for the winning option.
    pub winning_votes: nat,
    /// Those players, in ledger order.
    pub winners: Seq<Seq<char>>,
    /// What each of them receives.
    pub reward: nat,
}

/// The option that wins an adventure: option 1 where it has strictly more
/// votes than option 2, option 2 otherwise, so a tie goes to option 2. Votes
/// for any other option are not counted.
pub open spec fn winning_option(ledger: Seq<VoteModel>) -> nat {
    if voters_for(ledger, 1).len() > voters_for(ledger, 2).len() {
        1
    } else {
        2
    }
}

/// The tally of a ledger. Each winner receives an equal share, rounded down,
/// of one adventure's part of the adventure funds, itself rounded down.
pub open spec fn tally(ledger: Seq<VoteModel>, adventure_funds: nat, num_of_adventures: nat)
    -> Result<TallyModel, ContractError> {
    let winners = voters_for(ledger, winning_option(ledger));
    if num_of_adventures == 0 || winners.len() == 0 {
        Err(ContractError::Internal)
    } else if winners.len() > u32::MAX {
        Err(ContractError::Overflow)
    } else {
        Ok(
            TallyModel {
                winning_votes: winners.len(),
                winners,
                reward: ((adventure_funds / num_of_adventures) / winners.len()) as nat,
            },
        )
    }
}

/// The part of the pool that is set aside for the adventures: four fifths, rounded down.
pub open spec fn adventure_share(total_funds: nat) -> nat {
    ((80 * total_funds) / 100) as nat
}

/// The part of the pool that the overall winner receives: one fifth, rounded down.
pub open spec fn winner_share(total_funds: nat) -> nat {
    ((20 * total_funds) / 100) as nat
}

/// The test for being `x`.
pub open spec fn is_same(x: Seq<char>) -> spec_fn(Seq<char>) -> bool {
    |y: Seq<char>| y == x
}

/// How often `x` occurs in `s`.
pub open spec fn occurrences(s: Seq<Seq<char>>, x: Seq<char>) -> nat {
    s.filter(is_same(x)).len()
}

/// `k` is the first position in `s` whose element occurs as often as any
/// element of `s` does: every element before it occurs strictly less often.
pub open spec fn is_leader_index(s: Seq<Seq<char>>, k: int) -> bool {
    &&& 0 <= k < s.len()
    &&& forall|j: int| 0 <= j < k ==> occurrences(s, #[trigger] s[j]) < occurrences(s, s[k])
    &&& forall|j: int| k <= j < s.len() ==> occurrences(s, #[trigger] s[j]) <= occurrences(s, s[k])
}

/// The position that `is_leader_index` singles out; meaningful for a non-empty `s`.
pub open spec fn leader_index(s: Seq<Seq<char>>) -> int {
    choose|k: int| is_leader_index(s, k)
}

/// The identifier that occurs most often among the winners of all adventures;
/// among several that occur equally often, the one that appears first. There
/// is none where no adventure has a winner.
pub open spec fn overall_winner(winners: Seq<Seq<char>>) -> Option<Seq<char>> {
    if winners.len() == 0 {
        None
    } else {
        Some(winners[leader_index(winners)])
    }
}

/// What one more element adds to the count of `x`.
pub proof fn lemma_occurrences_push(s: Seq<Seq<char>>, e: Seq<char>, x: Seq<char>)
    ensures
        occurrences(s.push(e), x) == occurrences(s, x) + if e == x {
            1nat
        } else {
            0nat
        },
{
    s.lemma_filter_push(e, is_same(x));
}

/// The leader's position is the only index that meets `is_leader_index`.
pub proof fn lemma_leader_index_is(s: Seq<Seq<char>>, k: int)
    requires
        is_leader_index(s, k),
    ensures
        leader_index(s) == k,
{
    let c = leader_index(s);
    assert(is_leader_index(s, c));
    if c < k {
        assert(occurrences(s, s[c]) < occurrences(s, s[k]));
        assert(occurrences(s, s[k]) <= occurrences(s, s[c]));
    } else if k < c {
        assert(occurrences(s, s[k]) < occurrences(s, s[c]));
        assert(occurrences(s, s[c]) <= occurrences(s, s[k]));
    }
}

/// One game.
#[verifier::ext_equal]
pub struct GameModel {
    pub name: Seq<char>,
    pub players: Seq<Seq<char>>,
    pub total_funds: nat,
    pub adventure_funds: nat,
    pub initiated: bool,
    pub started: bool,
    pub ended: bool,
    pub winner: Seq<char>,
    pub winning_reward: nat,
    pub adventure_votes: Seq<Seq<VoteModel>>,
    pub adventure_winners: Seq<Seq<Seq<char>>>,
    pub adventure_rewards: Seq<nat>,
    pub adventure_winning_votes: Seq<nat>,
    pub num_of_adventures: nat,
}

/// The registry: the owner and the games, in the order of their creation.
#[verifier::ext_equal]
pub struct RegistryModel {
    pub games: Seq<GameModel>,
    pub owner: Seq<char>,
}

/// The names of the games, in registry order.
pub open spec fn game_names(games: Seq<GameModel>) -> Seq<Seq<char>> {
    games.map_values(|g: GameModel| g.name)
}

/// A command.
pub enum MsgModel {
    InitGame { name: Seq<char>, player: Seq<char>, game_stake: nat, num_of_adventures: nat },
    AddGamePlayer { name: Seq<char>, player: Seq<char>, game_stake: nat },
    StartGame { name: Seq<char> },
    VoteForAdventure { name: Seq<char>, player: Seq<char>, adventure_number: nat, vote: nat },
    GameAdventureStop { name: Seq<char>, adventure_number: nat },
    EndGame { name: Seq<char> },
}

} // verus!
