use movie_magic::contract::{
    add_player, game_adventure_stop, init_game, instantiate, instantiate_attributes, start_game,
    vote_for_adventure,
};
use movie_magic::msg::GamePlayerVote;
use movie_magic::names::{all_distinct, all_members, contains_name};
use movie_magic::state::{AdventureState, GameState, MovieMagicContractState};

fn s(text: &str) -> String {
    text.to_string()
}

fn names(list: &[&str]) -> Vec<String> {
    list.iter().map(|n| n.to_string()).collect()
}

fn tallied_game() -> MovieMagicContractState {
    let mut state = instantiate(s("A"));
    init_game(&mut state, s("g"), Some(s("alice")), 2, 100).unwrap();
    add_player(&mut state, s("g"), Some(s("bob")), 100).unwrap();
    start_game(&mut state, s("g")).unwrap();
    vote_for_adventure(&mut state, s("g"), s("alice"), 1, 0).unwrap();
    vote_for_adventure(&mut state, s("g"), s("bob"), 2, 0).unwrap();
    game_adventure_stop(&mut state, s("g"), 0).unwrap();
    state
}

fn spoiled(spoil: fn(&mut GameState)) -> GameState {
    let mut game = tallied_game().games.remove(0);
    assert!(game.is_well_formed());
    spoil(&mut game);
    game
}

#[test]
fn instantiation_is_announced() {
    assert_eq!(
        instantiate_attributes(&s("A")),
        vec![(s("method"), s("instantiate")), (s("owner"), s("A"))]
    );
}

#[test]
fn names_are_looked_up() {
    let list = names(&["a", "b", "c"]);
    assert!(contains_name(&list, &s("b")));
    assert!(!contains_name(&list, &s("d")));
    assert!(!contains_name(&Vec::new(), &s("a")));
    assert!(all_members(&names(&["c", "a", "c"]), &list));
    assert!(!all_members(&names(&["c", "d"]), &list));
    assert!(all_members(&Vec::new(), &list));
}

#[test]
fn repeated_names_are_noticed() {
    assert!(all_distinct(&Vec::new()));
    assert!(all_distinct(&names(&["a"])));
    assert!(all_distinct(&names(&["a", "b", "c"])));
    assert!(!all_distinct(&names(&["a", "b", "a"])));
    assert!(!all_distinct(&names(&["a", "b", "b"])));
}

#[test]
fn a_ledger_lists_its_voters() {
    let mut ledger = AdventureState::new();
    assert!(ledger.voters().is_empty());
    ledger.cast(s("bob"), 2);
    ledger.cast(s("alice"), 1);
    ledger.cast(s("bob"), 1);
    assert_eq!(ledger.voters(), names(&["bob", "alice"]));
}

#[test]
fn a_registry_lists_its_names() {
    let mut state = tallied_game();
    init_game(&mut state, s("h"), Some(s("alice")), 1, 1).unwrap();
    assert_eq!(state.names(), names(&["g", "h"]));
    assert!(instantiate(s("A")).names().is_empty());
}

#[test]
fn reachable_registries_are_well_formed() {
    assert!(instantiate(s("A")).is_well_formed());
    let mut state = tallied_game();
    assert!(state.is_well_formed());
    init_game(&mut state, s("h"), Some(s("zoe")), 1, 0).unwrap();
    assert!(state.is_well_formed());
}

#[test]
fn a_repeated_name_spoils_a_registry() {
    let mut state = tallied_game();
    let copy = state.games[0].clone();
    state.games.push(copy);
    assert!(state.games[1].is_well_formed());
    assert!(!state.is_well_formed());
}

#[test]
fn a_spoiled_game_spoils_its_registry() {
    let mut state = tallied_game();
    init_game(&mut state, s("h"), Some(s("zoe")), 1, 0).unwrap();
    state.games[1].adventure_funds = 1;
    assert!(!state.is_well_formed());
}

#[test]
fn phases_out_of_order_are_noticed() {
    assert!(!spoiled(|g| g.initiated = false).is_well_formed());
    assert!(!spoiled(|g| {
        g.started = false;
        g.ended = true;
    })
    .is_well_formed());
}

#[test]
fn misaligned_results_are_noticed() {
    assert!(!spoiled(|g| g.adventure_rewards.push(1)).results_are_sound());
    assert!(!spoiled(|g| g.adventure_rewards.push(1)).is_well_formed());
    assert!(!spoiled(|g| {
        g.adventure_winning_votes.pop();
    })
    .is_well_formed());
    assert!(!spoiled(|g| g.adventure_winners.push(vec![s("bob")])).is_well_formed());
}

#[test]
fn unsound_results_are_noticed() {
    assert!(spoiled(|_| {}).results_are_sound());
    assert!(!spoiled(|g| g.adventure_rewards[0] = 81).results_are_sound());
    assert!(spoiled(|g| g.adventure_rewards[0] = 79).results_are_sound());
    assert!(!spoiled(|g| g.adventure_winning_votes[0] = 2).results_are_sound());
    assert!(!spoiled(|g| g.adventure_winners[0].clear()).results_are_sound());
    assert!(!spoiled(|g| g.num_of_adventures = 0).results_are_sound());
    assert!(!spoiled(|g| g.adventure_rewards[0] = u64::MAX).is_well_formed());
}

#[test]
fn funds_beyond_the_pool_are_noticed() {
    assert!(!spoiled(|g| g.adventure_funds = 161).is_well_formed());
    assert!(!spoiled(|g| g.winning_reward = 41).is_well_formed());
    assert!(!spoiled(|g| g.total_funds = 150).is_well_formed());
}

#[test]
fn unsettled_accounts_are_noticed() {
    assert!(spoiled(|_| {}).accounts_are_settled());
    assert!(!spoiled(|g| g.adventure_funds = 159).accounts_are_settled());
    assert!(!spoiled(|g| g.winning_reward = 40).accounts_are_settled());
    assert!(!spoiled(|g| g.winner = s("bob")).accounts_are_settled());
    assert!(!spoiled(|g| g.started = false).accounts_are_settled());
    assert!(!spoiled(|g| {
        g.players.pop();
    })
    .accounts_are_settled());
    assert!(spoiled(|g| {
        g.ended = true;
        g.winning_reward = 40;
        g.winner = s("bob");
    })
    .is_well_formed());
    assert!(!spoiled(|g| {
        g.ended = true;
        g.winning_reward = 39;
    })
    .is_well_formed());
}

#[test]
fn a_second_entry_for_a_voter_is_noticed() {
    assert!(spoiled(|_| {}).ledgers_are_sound());
    let twice = spoiled(|g| {
        g.adventure_votes[0].votes.push(GamePlayerVote { player: s("alice"), vote: 2 })
    });
    assert!(!twice.ledgers_are_sound());
    assert!(!twice.is_well_formed());
}

#[test]
fn strangers_in_the_books_are_noticed() {
    let voter = spoiled(|g| {
        g.adventure_votes[0].votes.push(GamePlayerVote { player: s("carol"), vote: 2 })
    });
    assert!(!voter.ledgers_are_sound());
    assert!(!voter.is_well_formed());
    let winner = spoiled(|g| g.adventure_winners[0][0] = s("carol"));
    assert!(!winner.winners_are_known());
    assert!(!winner.is_well_formed());
    assert!(spoiled(|_| {}).winners_are_known());
    let named = spoiled(|g| {
        g.ended = true;
        g.winning_reward = 40;
        g.winner = s("carol");
    });
    assert!(!named.is_well_formed());
}
