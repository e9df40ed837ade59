use movie_magic::contract::{find_game, init_game, instantiate};
use movie_magic::error::ContractError;
use movie_magic::game::{adventure_share_of, winner_share_of};
use movie_magic::msg::GamePlayerVote;
use movie_magic::state::{AdventureState, GameState};
use movie_magic::tally::{
    bucket_votes, count_occurrences, find_overall_winner, flatten_winners, tally_ledger,
};

fn s(text: &str) -> String {
    text.to_string()
}

fn names(list: &[&str]) -> Vec<String> {
    list.iter().map(|n| n.to_string()).collect()
}

fn ledger_of(votes: &[(&str, u32)]) -> AdventureState {
    let mut ledger = AdventureState::new();
    for (player, vote) in votes {
        ledger.cast(player.to_string(), *vote);
    }
    ledger
}

#[test]
fn shares_are_rounded_down() {
    assert_eq!(adventure_share_of(0), 0);
    assert_eq!(winner_share_of(0), 0);
    assert_eq!(adventure_share_of(1), 0);
    assert_eq!(winner_share_of(1), 0);
    assert_eq!(adventure_share_of(4), 3);
    assert_eq!(winner_share_of(4), 0);
    assert_eq!(adventure_share_of(5), 4);
    assert_eq!(winner_share_of(5), 1);
    assert_eq!(adventure_share_of(199), 159);
    assert_eq!(winner_share_of(199), 39);
    assert_eq!(adventure_share_of(200), 160);
    assert_eq!(winner_share_of(200), 40);
}

#[test]
fn shares_of_the_largest_pool_do_not_overflow() {
    assert_eq!(adventure_share_of(u64::MAX), 14757395258967641292);
    assert_eq!(winner_share_of(u64::MAX), 3689348814741910323);
    assert!(adventure_share_of(u64::MAX) as u128 + winner_share_of(u64::MAX) as u128 <= u64::MAX as u128);
}

#[test]
fn a_new_ledger_is_empty() {
    let ledger = AdventureState::new();
    assert!(ledger.votes.is_empty());
    assert_eq!(ledger.position(&s("alice")), None);
    assert!(bucket_votes(&ledger).is_empty());
}

#[test]
fn a_ledger_keeps_one_entry_for_each_voter() {
    let mut ledger = AdventureState::new();
    ledger.cast(s("alice"), 1);
    ledger.cast(s("bob"), 2);
    ledger.cast(s("carol"), 1);
    ledger.cast(s("bob"), 1);
    ledger.cast(s("alice"), 2);
    assert_eq!(
        ledger.votes,
        vec![
            GamePlayerVote { player: s("alice"), vote: 2 },
            GamePlayerVote { player: s("bob"), vote: 1 },
            GamePlayerVote { player: s("carol"), vote: 1 },
        ]
    );
    assert_eq!(ledger.position(&s("alice")), Some(0));
    assert_eq!(ledger.position(&s("carol")), Some(2));
    assert_eq!(ledger.position(&s("dave")), None);
}

#[test]
fn votes_are_bucketed_by_option() {
    let ledger = ledger_of(&[("alice", 2), ("bob", 1), ("carol", 1), ("dave", 7), ("erin", 2)]);
    let buckets = bucket_votes(&ledger);
    assert_eq!(buckets.len(), 3);
    assert_eq!(buckets.get(&1), Some(&names(&["bob", "carol"])));
    assert_eq!(buckets.get(&2), Some(&names(&["alice", "erin"])));
    assert_eq!(buckets.get(&7), Some(&names(&["dave"])));
    assert_eq!(buckets.get(&3), None);
}

#[test]
fn an_overwritten_vote_moves_to_its_new_bucket() {
    let ledger = ledger_of(&[("alice", 1), ("bob", 1), ("alice", 2)]);
    let buckets = bucket_votes(&ledger);
    assert_eq!(buckets.len(), 2);
    assert_eq!(buckets.get(&1), Some(&names(&["bob"])));
    assert_eq!(buckets.get(&2), Some(&names(&["alice"])));
}

#[test]
fn the_majority_wins_a_tally() {
    let ledger = ledger_of(&[("alice", 1), ("bob", 2), ("carol", 1)]);
    let t = tally_ledger(&ledger, 1000, 3).unwrap();
    assert_eq!(t.winning_votes, 2);
    assert_eq!(t.winners, names(&["alice", "carol"]));
    assert_eq!(t.reward, 166);
}

#[test]
fn a_tie_goes_to_the_second_option() {
    let ledger = ledger_of(&[("alice", 1), ("bob", 2), ("carol", 2), ("dave", 1)]);
    let t = tally_ledger(&ledger, 160, 2).unwrap();
    assert_eq!(t.winning_votes, 2);
    assert_eq!(t.winners, names(&["bob", "carol"]));
    assert_eq!(t.reward, 40);
}

#[test]
fn a_reward_is_rounded_down_twice() {
    let ledger = ledger_of(&[("alice", 2), ("bob", 2), ("carol", 2)]);
    let t = tally_ledger(&ledger, 100, 3).unwrap();
    assert_eq!(t.reward, 11);
    assert!(t.reward * 3 <= 100 / 3);
    let none = tally_ledger(&ledger, 2, 3).unwrap();
    assert_eq!(none.reward, 0);
}

#[test]
fn a_tally_needs_a_counted_vote_and_an_adventure() {
    assert_eq!(tally_ledger(&AdventureState::new(), 100, 2), Err(ContractError::Internal));
    let stray = ledger_of(&[("alice", 0), ("bob", 3)]);
    assert_eq!(tally_ledger(&stray, 100, 2), Err(ContractError::Internal));
    let only_first = ledger_of(&[("alice", 1)]);
    assert_eq!(tally_ledger(&only_first, 100, 0), Err(ContractError::Internal));
    assert_eq!(tally_ledger(&only_first, 100, 2).unwrap().winners, names(&["alice"]));
}

#[test]
fn winners_are_flattened_in_order() {
    let winners = vec![names(&["bob"]), vec![], names(&["alice", "bob"])];
    assert_eq!(flatten_winners(&winners), names(&["bob", "alice", "bob"]));
    assert!(flatten_winners(&Vec::new()).is_empty());
}

#[test]
fn occurrences_are_counted() {
    let list = names(&["a", "b", "a", "c", "a"]);
    assert_eq!(count_occurrences(&list, &s("a")), 3);
    assert_eq!(count_occurrences(&list, &s("b")), 1);
    assert_eq!(count_occurrences(&list, &s("z")), 0);
}

#[test]
fn the_most_frequent_winner_is_the_overall_winner() {
    let winners = vec![names(&["alice", "carol"]), names(&["bob", "carol"]), names(&["bob"]), names(&["carol"])];
    assert_eq!(find_overall_winner(&winners), Some(s("carol")));
    let tied = vec![names(&["alice", "bob"]), names(&["bob", "alice"])];
    assert_eq!(find_overall_winner(&tied), Some(s("alice")));
    let later = vec![names(&["alice"]), names(&["bob"]), names(&["bob"])];
    assert_eq!(find_overall_winner(&later), Some(s("bob")));
    assert_eq!(find_overall_winner(&Vec::new()), None);
    assert_eq!(find_overall_winner(&vec![vec![], vec![]]), None);
}

#[test]
fn a_new_game_is_initiated_only() {
    let game = GameState::new(s("g"), s("alice"), 3, 25);
    assert_eq!(game.name, "g");
    assert_eq!(game.players, names(&["alice"]));
    assert_eq!(game.total_funds, 25);
    assert_eq!(game.adventure_funds, 0);
    assert!(game.initiated && !game.started && !game.ended);
    assert_eq!(game.winner, "");
    assert_eq!(game.winning_reward, 0);
    assert!(game.adventure_votes.is_empty());
    assert!(game.adventure_winners.is_empty());
    assert!(game.adventure_rewards.is_empty());
    assert!(game.adventure_winning_votes.is_empty());
    assert_eq!(game.num_of_adventures, 3);
    assert!(game.has_player(&s("alice")));
    assert!(!game.has_player(&s("bob")));
}

#[test]
fn a_game_goes_through_its_phases() {
    let mut game = GameState::new(s("g"), s("alice"), 1, 7);
    assert_eq!(game.start(), Err(ContractError::InsufficientParticipation));
    assert_eq!(game.vote(s("alice"), 0, 1), Err(ContractError::GameNotStarted));
    assert_eq!(game.end(), Err(ContractError::GameNotStarted));
    assert_eq!(game.join(None, 3), Err(ContractError::InvalidAddress));
    game.join(Some(s("bob")), 3).unwrap();
    game.start().unwrap();
    assert_eq!(game.adventure_funds, 8);
    assert_eq!(game.join(Some(s("carol")), 3), Err(ContractError::GameAlreadyStarted));
    assert_eq!(game.join(None, 3), Err(ContractError::InvalidAddress));
    assert_eq!(game.vote(s("carol"), 0, 1), Err(ContractError::PlayerNotInGame));
    assert_eq!(game.stop_adventure(0), Err(ContractError::Internal));
    game.vote(s("alice"), 0, 1).unwrap();
    game.stop_adventure(0).unwrap();
    assert_eq!(game.adventure_rewards, vec![8]);
    game.end().unwrap();
    assert_eq!(game.winner, "alice");
    assert_eq!(game.winning_reward, 2);
    assert!(game.adventure_funds + game.winning_reward <= game.total_funds);
}

#[test]
fn a_game_is_found_by_its_name() {
    let mut state = instantiate(s("A"));
    assert_eq!(find_game(&state, &s("g")), None);
    init_game(&mut state, s("g"), Some(s("alice")), 2, 1).unwrap();
    init_game(&mut state, s("h"), Some(s("alice")), 2, 1).unwrap();
    assert_eq!(find_game(&state, &s("g")), Some(0));
    assert_eq!(find_game(&state, &s("h")), Some(1));
    assert_eq!(find_game(&state, &s("")), None);
}

#[test]
fn every_error_has_its_message() {
    assert_eq!(ContractError::Unauthorized.message(), "Unauthorized");
    assert_eq!(ContractError::GameNotFound.message(), "Game not found");
    assert_eq!(ContractError::DuplicateName.message(), "A game with this name already exists.");
    assert_eq!(ContractError::GameNotStarted.message(), "Game has not been started yet.");
    assert_eq!(ContractError::GameAlreadyStarted.message(), "Game has already been started.");
    assert_eq!(
        ContractError::InsufficientParticipation.message(),
        "Game cannot be started with less than 2 players or zero funds."
    );
    assert_eq!(ContractError::PlayerNotInGame.message(), "This player is not part of the game.");
    assert_eq!(
        ContractError::AdventureNotOpen.message(),
        "Voting has not started for this adventure."
    );
    assert_eq!(ContractError::InvalidAddress.message(), "Invalid player address.");
    assert_eq!(ContractError::Overflow.message(), "Arithmetic overflow.");
    assert_eq!(ContractError::Internal.message(), "Error in counting votes");
}
