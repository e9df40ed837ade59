//! The laws of the registry, proved of the model that the entry points are
//! specified by.

use vstd::prelude::*;
use crate::invariants::{game_wf, names_unique, registry_wf, result_sound};
use crate::model::{
    adventure_share, first_index, game_names, is_first_index, is_leader_index, is_vote_for,
    leader_index, ledger_cast, ledger_map, ledger_voters, lemma_first_index_exists,
    lemma_first_index_is, occurrences, overall_winner, tally, voters_for, winner_share,
    winning_option, GameModel, MsgModel, RegistryModel, VoteModel,
};
use crate::rules::{
    game_end, game_join, game_new, game_position, game_start, game_stop, game_vote, has_game,
    registry_create, registry_end, registry_join, registry_new, registry_start, registry_stop,
    registry_vote, step,
};

verus! {

/// The two parts that are taken out of the pool do not exceed it.
pub proof fn lemma_shares_fit(total_funds: nat)
    ensures
        adventure_share(total_funds) + winner_share(total_funds) <= total_funds,
        adventure_share(total_funds) == (80 * total_funds) / 100,
        winner_share(total_funds) == (20 * total_funds) / 100,
{
}

/// A ledger in which no player has two entries has as many entries as it has
/// distinct voters.
pub proof fn lemma_ledger_counts_voters(ledger: Seq<VoteModel>)
    requires
        ledger_voters(ledger).no_duplicates(),
    ensures
        ledger.len() == ledger_voters(ledger).to_set().len(),
        ledger_map(ledger).dom() == ledger_voters(ledger).to_set(),
{
    ledger_voters(ledger).unique_seq_to_set();
    assert(ledger_map(ledger).dom() =~= ledger_voters(ledger).to_set());
}

/// A vote overwrites: after `player` has cast `vote`, the ledger maps the
/// player to that vote and every other voter to the vote it had; the voters
/// are those of before and the player; and still no player has two entries.
pub proof fn lemma_cast_overwrites(ledger: Seq<VoteModel>, player: Seq<char>, vote: nat)
    requires
        ledger_voters(ledger).no_duplicates(),
    ensures
        ledger_voters(ledger_cast(ledger, player, vote)).no_duplicates(),
        ledger_voters(ledger_cast(ledger, player, vote)).to_set() == ledger_voters(
            ledger,
        ).to_set().insert(player),
        ledger_map(ledger_cast(ledger, player, vote)) == ledger_map(ledger).insert(player, vote),
        forall|j: int|
            0 <= j < ledger_cast(ledger, player, vote).len() ==> {
                ||| #[trigger] ledger_cast(ledger, player, vote)[j].player == player
                ||| ledger_voters(ledger).contains(ledger_cast(ledger, player, vote)[j].player)
            },
{
    let voters = ledger_voters(ledger);
    let after = ledger_cast(ledger, player, vote);
    let voters_after = ledger_voters(after);
    if voters.contains(player) {
        lemma_first_index_exists(voters, player);
        let at = first_index(voters, player);
        assert(voters_after =~= voters);
        assert(voters.to_set().insert(player) =~= voters.to_set());
        assert forall|q: Seq<char>| voters.contains(q) implies #[trigger] ledger_map(after)[q]
            == ledger_map(ledger).insert(player, vote)[q] by {
            lemma_first_index_exists(voters, q);
        }
        assert(ledger_map(after) =~= ledger_map(ledger).insert(player, vote));
        assert forall|j: int| 0 <= j < after.len() implies voters.contains(
            #[trigger] after[j].player,
        ) by {
            assert(voters[j] == after[j].player);
        }
    } else {
        assert(voters_after =~= voters.push(player));
        assert forall|i: int, j: int|
            0 <= i < voters_after.len() && 0 <= j < voters_after.len() && i != j implies
            voters_after[i] != voters_after[j] by {
            if i < voters.len() {
                assert(voters[i] == voters_after[i]);
            }
            if j < voters.len() {
                assert(voters[j] == voters_after[j]);
            }
        }
        assert forall|q: Seq<char>| voters_after.contains(q) <==> (voters.contains(q) || q
            == player) by {
            if voters.contains(q) {
                let k = choose|k: int| 0 <= k < voters.len() && voters[k] == q;
                assert(voters_after[k] == q);
            }
            if q == player {
                assert(voters_after[voters.len() as int] == q);
            }
        }
        assert(voters_after.to_set() =~= voters.to_set().insert(player));
        assert forall|q: Seq<char>| voters_after.contains(q) implies #[trigger] ledger_map(
            after,
        )[q] == ledger_map(ledger).insert(player, vote)[q] by {
            if q == player {
                assert(is_first_index(voters_after, q, voters.len() as int)) by {
                    assert forall|j: int| 0 <= j < voters.len() implies voters_after[j] != q by {
                        assert(voters[j] == voters_after[j]);
                    }
                }
                lemma_first_index_is(voters_after, q, voters.len() as int);
            } else {
                lemma_first_index_exists(voters, q);
                let at = first_index(voters, q);
                assert(is_first_index(voters_after, q, at)) by {
                    assert(voters_after[at] == voters[at]);
                    assert forall|j: int| 0 <= j < at implies voters_after[j] != q by {
                        assert(voters[j] == voters_after[j]);
                    }
                }
                lemma_first_index_is(voters_after, q, at);
            }
        }
        assert(ledger_map(after) =~= ledger_map(ledger).insert(player, vote));
        assert forall|j: int| 0 <= j < after.len() implies (#[trigger] after[j].player == player
            || voters.contains(after[j].player)) by {
            if j < voters.len() {
                assert(voters[j] == after[j].player);
            }
        }
    }
}

/// A tally has as many winners as winning votes and at least one; what the
/// winners receive together is no more than one adventure's part of the
/// adventure funds; and every winner has voted.
pub proof fn lemma_tally_sound(ledger: Seq<VoteModel>, adventure_funds: nat, num_of_adventures: nat)
    requires
        tally(ledger, adventure_funds, num_of_adventures) is Ok,
    ensures
        ({
            let t = tally(ledger, adventure_funds, num_of_adventures)->Ok_0;
            &&& num_of_adventures > 0
            &&& t.winners.len() > 0
            &&& t.winners.len() == t.winning_votes
            &&& t.winning_votes <= u32::MAX
            &&& t.winners == voters_for(ledger, winning_option(ledger))
            &&& t.reward * t.winners.len() <= adventure_funds / num_of_adventures
            &&& t.reward <= adventure_funds
            &&& forall|j: int|
                0 <= j < t.winners.len() ==> ledger_voters(ledger).contains(#[trigger] t.winners[j])
        }),
{
    let t = tally(ledger, adventure_funds, num_of_adventures)->Ok_0;
    let part = adventure_funds / num_of_adventures;
    let n = t.winners.len();
    assert((part / n) * n <= part) by (nonlinear_arith)
        requires
            n > 0,
            part >= 0,
    ;
    assert(part <= adventure_funds) by (nonlinear_arith)
        requires
            part == adventure_funds / num_of_adventures,
            num_of_adventures > 0,
    ;
    assert(part / n <= part) by (nonlinear_arith)
        requires
            n > 0,
            part >= 0,
    ;
    let option = winning_option(ledger);
    let chosen = ledger.filter(is_vote_for(option));
    assert forall|j: int| 0 <= j < t.winners.len() implies ledger_voters(ledger).contains(
        #[trigger] t.winners[j],
    ) by {
        assert(t.winners[j] == chosen[j].player);
        assert(chosen.contains(chosen[j]));
        ledger.lemma_filter_contains_rev(is_vote_for(option), chosen[j]);
        let k = choose|k: int| 0 <= k < ledger.len() && ledger[k] == chosen[j];
        assert(ledger_voters(ledger)[k] == t.winners[j]);
    }
}

/// Among the first `n` elements of `s` one leads: the returned position is
/// the first of them whose element occurs in `s` as often as any of them does.
proof fn lemma_leader_among(s: Seq<Seq<char>>, n: int) -> (k: int)
    requires
        0 < n <= s.len(),
    ensures
        0 <= k < n,
        forall|j: int| 0 <= j < k ==> occurrences(s, #[trigger] s[j]) < occurrences(s, s[k]),
        forall|j: int| k <= j < n ==> occurrences(s, #[trigger] s[j]) <= occurrences(s, s[k]),
    decreases n,
{
    if n == 1 {
        0
    } else {
        let before = lemma_leader_among(s, n - 1);
        if occurrences(s, s[n - 1]) > occurrences(s, s[before]) {
            n - 1
        } else {
            before
        }
    }
}

/// Where there are winners, one of them is the overall winner: an identifier
/// among them that occurs as often as any other, and before every other that
/// occurs as often.
pub proof fn lemma_overall_winner_leads(winners: Seq<Seq<char>>)
    requires
        winners.len() > 0,
    ensures
        is_leader_index(winners, leader_index(winners)),
        overall_winner(winners) == Some(winners[leader_index(winners)]),
        winners.contains(overall_winner(winners)->Some_0),
        forall|x: Seq<char>|
            winners.contains(x) ==> occurrences(winners, x) <= occurrences(
                winners,
                overall_winner(winners)->Some_0,
            ),
{
    let k = lemma_leader_among(winners, winners.len() as int);
    assert(is_leader_index(winners, k));
    let c = leader_index(winners);
    assert(is_leader_index(winners, c));
    assert forall|x: Seq<char>| winners.contains(x) implies occurrences(winners, x) <= occurrences(
        winners,
        winners[c],
    ) by {
        let j = choose|j: int| 0 <= j < winners.len() && winners[j] == x;
        assert(occurrences(winners, winners[j]) <= occurrences(winners, winners[c]));
    }
}

/// What a flattened sequence contains stands in one of its parts.
proof fn lemma_flatten_member(parts: Seq<Seq<Seq<char>>>, x: Seq<char>) -> (at: (int, int))
    requires
        parts.flatten().contains(x),
    ensures
        0 <= at.0 < parts.len(),
        0 <= at.1 < parts[at.0].len(),
        parts[at.0][at.1] == x,
    decreases parts.len(),
{
    let flat = parts.flatten();
    let k = choose|k: int| 0 <= k < flat.len() && flat[k] == x;
    if parts.len() == 0 {
        (0, 0)
    } else if k < parts.first().len() {
        assert(flat[k] == parts.first()[k]);
        (0, k)
    } else {
        let rest = parts.drop_first();
        assert(flat == parts.first() + rest.flatten());
        assert(rest.flatten()[k - parts.first().len()] == x);
        let inner = lemma_flatten_member(rest, x);
        assert(rest[inner.0] == parts[inner.0 + 1]);
        (inner.0 + 1, inner.1)
    }
}

/// A game as it is created is well formed.
pub proof fn lemma_new_game_wf(
    name: Seq<char>,
    player: Seq<char>,
    num_of_adventures: nat,
    stake: nat,
)
    ensures
        game_wf(game_new(name, player, num_of_adventures, stake)),
{
}

/// Joining keeps a game well formed, and keeps its name.
pub proof fn lemma_join_keeps(g: GameModel, player: Option<Seq<char>>, stake: nat)
    requires
        game_wf(g),
        game_join(g, player, stake) is Ok,
    ensures
        game_wf(game_join(g, player, stake)->Ok_0),
        game_join(g, player, stake)->Ok_0.name == g.name,
{
}

/// Starting keeps a game well formed. A second start changes nothing.
pub proof fn lemma_start_keeps(g: GameModel)
    requires
        game_wf(g),
        game_start(g) is Ok,
    ensures
        game_wf(game_start(g)->Ok_0),
        g.started ==> game_start(g)->Ok_0 == g,
{
    let after = game_start(g)->Ok_0;
    lemma_shares_fit(g.total_funds);
    if g.started {
        assert(after =~= g);
    }
    assert forall|i: int| 0 <= i < after.adventure_winners.len() implies #[trigger] result_sound(
        after,
        i,
    ) by {
        assert(result_sound(g, i));
    }
}

/// Voting keeps a game well formed.
pub proof fn lemma_vote_keeps(g: GameModel, player: Seq<char>, adventure_number: nat, vote: nat)
    requires
        game_wf(g),
        game_vote(g, player, adventure_number, vote) is Ok,
    ensures
        game_wf(game_vote(g, player, adventure_number, vote)->Ok_0),
{
    let after = game_vote(g, player, adventure_number, vote)->Ok_0;
    let at = adventure_number as int;
    let before_ledger = if at < g.adventure_votes.len() {
        g.adventure_votes[at]
    } else {
        Seq::<VoteModel>::empty()
    };
    if at < g.adventure_votes.len() {
        assert(ledger_voters(g.adventure_votes[at]).no_duplicates());
    }
    lemma_cast_overwrites(before_ledger, player, vote);
    let ledger = ledger_cast(before_ledger, player, vote);
    assert(after.adventure_votes[at] == ledger);
    assert forall|i: int| 0 <= i < after.adventure_votes.len() implies #[trigger] ledger_voters(
        after.adventure_votes[i],
    ).no_duplicates() by {
        if i != at {
            assert(after.adventure_votes[i] == g.adventure_votes[i]);
            assert(ledger_voters(g.adventure_votes[i]).no_duplicates());
        }
    }
    assert forall|i: int, j: int|
        0 <= i < after.adventure_votes.len() && 0 <= j < after.adventure_votes[i].len() implies
        after.players.contains(#[trigger] after.adventure_votes[i][j].player) by {
        if i != at {
            assert(after.adventure_votes[i] == g.adventure_votes[i]);
            assert(g.players.contains(g.adventure_votes[i][j].player));
        } else {
            let p = ledger[j].player;
            if p != player {
                assert(ledger_voters(before_ledger).contains(p));
                let k = choose|k: int|
                    0 <= k < ledger_voters(before_ledger).len() && ledger_voters(before_ledger)[k]
                        == p;
                assert(g.adventure_votes[at][k].player == p);
                assert(g.players.contains(g.adventure_votes[at][k].player));
            }
        }
    }
    assert forall|i: int| 0 <= i < after.adventure_winners.len() implies #[trigger] result_sound(
        after,
        i,
    ) by {
        assert(result_sound(g, i));
    }
}

/// A tally keeps a game well formed.
pub proof fn lemma_stop_keeps(g: GameModel, adventure_number: nat)
    requires
        game_wf(g),
        game_stop(g, adventure_number) is Ok,
    ensures
        game_wf(game_stop(g, adventure_number)->Ok_0),
{
    let after = game_stop(g, adventure_number)->Ok_0;
    let at = adventure_number as int;
    let ledger = g.adventure_votes[at];
    let t = tally(ledger, g.adventure_funds, g.num_of_adventures)->Ok_0;
    lemma_tally_sound(ledger, g.adventure_funds, g.num_of_adventures);
    let last = g.adventure_winners.len() as int;
    assert forall|i: int| 0 <= i < after.adventure_winners.len() implies #[trigger] result_sound(
        after,
        i,
    ) by {
        if i < last {
            assert(result_sound(g, i));
        }
    }
    assert forall|i: int, j: int|
        0 <= i < after.adventure_winners.len() && 0 <= j < after.adventure_winners[i].len() implies
        after.players.contains(#[trigger] after.adventure_winners[i][j]) by {
        if i < last {
            assert(g.players.contains(g.adventure_winners[i][j]));
        } else {
            assert(ledger_voters(ledger).contains(t.winners[j]));
            let k = choose|k: int|
                0 <= k < ledger_voters(ledger).len() && ledger_voters(ledger)[k] == t.winners[j];
            assert(g.players.contains(g.adventure_votes[at][k].player));
        }
    }
    assert forall|i: int| 0 <= i < after.adventure_votes.len() implies #[trigger] ledger_voters(
        after.adventure_votes[i],
    ).no_duplicates() by {
        assert(ledger_voters(g.adventure_votes[i]).no_duplicates());
    }
    assert forall|i: int, j: int|
        0 <= i < after.adventure_votes.len() && 0 <= j < after.adventure_votes[i].len() implies
        after.players.contains(#[trigger] after.adventure_votes[i][j].player) by {
        assert(g.players.contains(g.adventure_votes[i][j].player));
    }
}

/// Ending keeps a game well formed. The winning reward is then one fifth of
/// the pool, rounded down; and where an adventure has been tallied, the
/// overall winner is a player, and one who has won an adventure at least as
/// often as any other player.
pub proof fn lemma_end_keeps(g: GameModel)
    requires
        game_wf(g),
        game_end(g) is Ok,
    ensures
        game_wf(game_end(g)->Ok_0),
        game_end(g)->Ok_0.ended,
        game_end(g)->Ok_0.winning_reward == (20 * g.total_funds) / 100,
        g.adventure_winners.len() > 0 ==> {
            let w = game_end(g)->Ok_0.winner;
            &&& g.players.contains(w)
            &&& g.adventure_winners.flatten().contains(w)
            &&& forall|x: Seq<char>|
                g.adventure_winners.flatten().contains(x) ==> occurrences(
                    g.adventure_winners.flatten(),
                    x,
                ) <= occurrences(g.adventure_winners.flatten(), w)
        },
        g.adventure_winners.len() == 0 ==> game_end(g)->Ok_0.winner == g.winner,
{
    let after = game_end(g)->Ok_0;
    let flat = g.adventure_winners.flatten();
    lemma_shares_fit(g.total_funds);
    if g.adventure_winners.len() > 0 {
        assert(result_sound(g, 0));
        g.adventure_winners.lemma_flatten_length_ge_single_element_length(0);
        lemma_overall_winner_leads(flat);
        let w = overall_winner(flat)->Some_0;
        let at = lemma_flatten_member(g.adventure_winners, w);
        assert(g.players.contains(g.adventure_winners[at.0][at.1]));
    } else {
        assert(g.adventure_winners =~= Seq::<Seq<Seq<char>>>::empty());
    }
    assert forall|i: int| 0 <= i < after.adventure_winners.len() implies #[trigger] result_sound(
        after,
        i,
    ) by {
        assert(result_sound(g, i));
    }
    assert forall|i: int| 0 <= i < after.adventure_votes.len() implies #[trigger] ledger_voters(
        after.adventure_votes[i],
    ).no_duplicates() by {
        assert(ledger_voters(g.adventure_votes[i]).no_duplicates());
    }
}

/// A registry as it is instantiated is well formed.
pub proof fn lemma_new_registry_wf(owner: Seq<char>)
    ensures
        registry_wf(registry_new(owner)),
{
}

/// A registry stays well formed where a well-formed game takes the place of
/// a game of the same name.
proof fn lemma_replacing_keeps(r: RegistryModel, i: int, g: GameModel)
    requires
        registry_wf(r),
        0 <= i < r.games.len(),
        game_wf(g),
        g.name == r.games[i].name,
    ensures
        registry_wf(RegistryModel { games: r.games.update(i, g), owner: r.owner }),
{
    let after = RegistryModel { games: r.games.update(i, g), owner: r.owner };
    assert(game_names(after.games) =~= game_names(r.games));
    assert forall|k: int| 0 <= k < after.games.len() implies #[trigger] game_wf(
        after.games[k],
    ) by {
        if k != i {
            assert(game_wf(r.games[k]));
        }
    }
}

/// Creating a game keeps the registry well formed.
pub proof fn lemma_create_keeps(
    r: RegistryModel,
    name: Seq<char>,
    player: Option<Seq<char>>,
    num_of_adventures: nat,
    stake: nat,
)
    requires
        registry_wf(r),
        registry_create(r, name, player, num_of_adventures, stake) is Ok,
    ensures
        registry_wf(registry_create(r, name, player, num_of_adventures, stake)->Ok_0),
{
    let after = registry_create(r, name, player, num_of_adventures, stake)->Ok_0;
    lemma_new_game_wf(name, player->Some_0, num_of_adventures, stake);
    let names = game_names(r.games);
    assert(game_names(after.games) =~= names.push(name));
    assert forall|i: int, j: int|
        0 <= i < names.len() + 1 && 0 <= j < names.len() + 1 && i != j implies names.push(
        name,
    )[i] != names.push(name)[j] by {
        if i < names.len() && j < names.len() {
            assert(names[i] != names[j]);
        } else if i < names.len() {
            assert(names[i] != name);
        } else {
            assert(names[j] != name);
        }
    }
    assert forall|k: int| 0 <= k < after.games.len() implies #[trigger] game_wf(
        after.games[k],
    ) by {
        if k < r.games.len() {
            assert(game_wf(r.games[k]));
        }
    }
}

/// A player's joining a game keeps the registry well formed.
pub proof fn lemma_registry_join_keeps(
    r: RegistryModel,
    name: Seq<char>,
    player: Option<Seq<char>>,
    stake: nat,
)
    requires
        registry_wf(r),
        registry_join(r, name, player, stake) is Ok,
    ensures
        registry_wf(registry_join(r, name, player, stake)->Ok_0),
{
    lemma_first_index_exists(game_names(r.games), name);
    let i = game_position(r, name);
    assert(game_wf(r.games[i]));
    lemma_join_keeps(r.games[i], player, stake);
    lemma_replacing_keeps(r, i, game_join(r.games[i], player, stake)->Ok_0);
}

/// Starting a game keeps the registry well formed.
pub proof fn lemma_registry_start_keeps(r: RegistryModel, name: Seq<char>)
    requires
        registry_wf(r),
        registry_start(r, name) is Ok,
    ensures
        registry_wf(registry_start(r, name)->Ok_0),
{
    lemma_first_index_exists(game_names(r.games), name);
    let i = game_position(r, name);
    assert(game_wf(r.games[i]));
    lemma_start_keeps(r.games[i]);
    lemma_replacing_keeps(r, i, game_start(r.games[i])->Ok_0);
}

/// A vote keeps the registry well formed.
pub proof fn lemma_registry_vote_keeps(
    r: RegistryModel,
    name: Seq<char>,
    player: Seq<char>,
    adventure_number: nat,
    vote: nat,
)
    requires
        registry_wf(r),
        registry_vote(r, name, player, adventure_number, vote) is Ok,
    ensures
        registry_wf(registry_vote(r, name, player, adventure_number, vote)->Ok_0),
{
    lemma_first_index_exists(game_names(r.games), name);
    let i = game_position(r, name);
    assert(game_wf(r.games[i]));
    lemma_vote_keeps(r.games[i], player, adventure_number, vote);
    lemma_replacing_keeps(r, i, game_vote(r.games[i], player, adventure_number, vote)->Ok_0);
}

/// A tally keeps the registry well formed.
pub proof fn lemma_registry_stop_keeps(r: RegistryModel, name: Seq<char>, adventure_number: nat)
    requires
        registry_wf(r),
        registry_stop(r, name, adventure_number) is Ok,
    ensures
        registry_wf(registry_stop(r, name, adventure_number)->Ok_0),
{
    lemma_first_index_exists(game_names(r.games), name);
    let i = game_position(r, name);
    assert(game_wf(r.games[i]));
    lemma_stop_keeps(r.games[i], adventure_number);
    lemma_replacing_keeps(r, i, game_stop(r.games[i], adventure_number)->Ok_0);
}

/// Ending a game keeps the registry well formed.
pub proof fn lemma_registry_end_keeps(r: RegistryModel, name: Seq<char>)
    requires
        registry_wf(r),
        registry_end(r, name) is Ok,
    ensures
        registry_wf(registry_end(r, name)->Ok_0),
{
    lemma_first_index_exists(game_names(r.games), name);
    let i = game_position(r, name);
    assert(game_wf(r.games[i]));
    lemma_end_keeps(r.games[i]);
    lemma_replacing_keeps(r, i, game_end(r.games[i])->Ok_0);
}

/// After a game has ended, its winning reward is one fifth of the pool,
/// rounded down; and where one of its adventures has been tallied, its
/// overall winner is one of its players.
pub proof fn lemma_registry_end_names_a_player(r: RegistryModel, name: Seq<char>)
    requires
        registry_wf(r),
        registry_end(r, name) is Ok,
    ensures
        ({
            let i = game_position(r, name);
            let before = r.games[i];
            let after = registry_end(r, name)->Ok_0.games[i];
            &&& 0 <= i < r.games.len()
            &&& after.ended
            &&& after.winning_reward == (20 * before.total_funds) / 100
            &&& after.players == before.players
            &&& before.adventure_winners.len() > 0 ==> after.players.contains(after.winner)
        }),
{
    lemma_first_index_exists(game_names(r.games), name);
    let i = game_position(r, name);
    assert(game_wf(r.games[i]));
    lemma_end_keeps(r.games[i]);
}

/// Every command that is accepted takes a well-formed registry to a
/// well-formed registry: the names stay unique, the phases in order, the
/// results aligned and sound, the funds within the pool, and no player has
/// two entries in a ledger.
pub proof fn lemma_step_keeps_invariants(
    r: RegistryModel,
    msg: MsgModel,
    validated: Option<Seq<char>>,
)
    requires
        registry_wf(r),
        step(r, msg, validated) is Ok,
    ensures
        registry_wf(step(r, msg, validated)->Ok_0),
{
    match msg {
        MsgModel::InitGame { name, player, game_stake, num_of_adventures } => {
            lemma_create_keeps(r, name, validated, num_of_adventures, game_stake);
        },
        MsgModel::AddGamePlayer { name, player, game_stake } => {
            lemma_registry_join_keeps(r, name, validated, game_stake);
        },
        MsgModel::StartGame { name } => {
            lemma_registry_start_keeps(r, name);
        },
        MsgModel::VoteForAdventure { name, player, adventure_number, vote } => {
            lemma_registry_vote_keeps(r, name, player, adventure_number, vote);
        },
        MsgModel::GameAdventureStop { name, adventure_number } => {
            lemma_registry_stop_keeps(r, name, adventure_number);
        },
        MsgModel::EndGame { name } => {
            lemma_registry_end_keeps(r, name);
        },
    }
}

/// No command takes a phase back: every game keeps its place and its name,
/// and a game that was initiated, started or ended is so afterwards. No game
/// leaves the registry.
pub proof fn lemma_phases_never_regress(
    r: RegistryModel,
    msg: MsgModel,
    validated: Option<Seq<char>>,
)
    requires
        step(r, msg, validated) is Ok,
    ensures
        ({
            let after = step(r, msg, validated)->Ok_0;
            &&& after.owner == r.owner
            &&& after.games.len() >= r.games.len()
            &&& forall|i: int|
                0 <= i < r.games.len() ==> {
                    &&& (#[trigger] after.games[i]).name == r.games[i].name
                    &&& r.games[i].initiated ==> after.games[i].initiated
                    &&& r.games[i].started ==> after.games[i].started
                    &&& r.games[i].ended ==> after.games[i].ended
                }
        }),
{
    match msg {
        MsgModel::InitGame { name, .. } => {},
        MsgModel::AddGamePlayer { name, .. } => {
            lemma_first_index_exists(game_names(r.games), name);
        },
        MsgModel::StartGame { name } => {
            lemma_first_index_exists(game_names(r.games), name);
        },
        MsgModel::VoteForAdventure { name, .. } => {
            lemma_first_index_exists(game_names(r.games), name);
        },
        MsgModel::GameAdventureStop { name, .. } => {
            lemma_first_index_exists(game_names(r.games), name);
        },
        MsgModel::EndGame { name } => {
            lemma_first_index_exists(game_names(r.games), name);
        },
    }
}

/// A tally does not close its adventure: tallied a second time with no vote
/// in between, the adventure yields the same outcome, appended once more.
pub proof fn lemma_stop_twice_appends_twice(g: GameModel, adventure_number: nat)
    requires
        game_stop(g, adventure_number) is Ok,
    ensures
        ({
            let once = game_stop(g, adventure_number)->Ok_0;
            let t = tally(
                g.adventure_votes[adventure_number as int],
                g.adventure_funds,
                g.num_of_adventures,
            )->Ok_0;
            &&& game_stop(once, adventure_number) is Ok
            &&& game_stop(once, adventure_number)->Ok_0.adventure_winners
                == g.adventure_winners.push(t.winners).push(t.winners)
            &&& game_stop(once, adventure_number)->Ok_0.adventure_rewards
                == g.adventure_rewards.push(t.reward).push(t.reward)
            &&& game_stop(once, adventure_number)->Ok_0.adventure_winning_votes
                == g.adventure_winning_votes.push(t.winning_votes).push(t.winning_votes)
        }),
{
}

/// In a registry with unique names, a command finds the only game of its name.
pub proof fn lemma_found_game_is_the_only(r: RegistryModel, name: Seq<char>, i: int)
    requires
        names_unique(r),
        0 <= i < r.games.len(),
        r.games[i].name == name,
    ensures
        has_game(r, name),
        game_position(r, name) == i,
{
    let names = game_names(r.games);
    assert(names[i] == name);
    assert forall|j: int| 0 <= j < i implies names[j] != name by {}
    lemma_first_index_is(names, name, i);
}

} // verus!
