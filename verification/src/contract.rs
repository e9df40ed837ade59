//! The entry points: instantiation, and the commands, each of which finds its
//! game by name and applies one transition to it. A rejected command leaves
//! everything that the registry holds as it was.

use vstd::prelude::*;
use crate::error::ContractError;
use crate::invariants::registry_wf;
use crate::laws::{
    lemma_create_keeps, lemma_new_registry_wf, lemma_registry_end_keeps,
    lemma_registry_join_keeps, lemma_registry_start_keeps, lemma_registry_stop_keeps,
    lemma_registry_vote_keeps,
};
use crate::model::{game_names, is_first_index, lemma_first_index_is, RegistryModel};
use crate::msg::ExecuteMsg;
use crate::rules::{
    has_game, registry_create, registry_end, registry_join, registry_new, registry_start,
    registry_stop, registry_vote, step,
};
use crate::state::{option_view, GameState, MovieMagicContractState};

verus! {

/// The registry as it is first stored: `owner` is the caller's identity, and
/// there are no games.
pub fn instantiate(owner: String) -> (state: MovieMagicContractState)
    ensures
        state@ == registry_new(owner@),
        registry_wf(state@),
{
    let state = MovieMagicContractState { games: Vec::new(), owner };
    assert(state@ =~~= registry_new(owner@));
    proof {
        lemma_new_registry_wf(owner@);
    }
    state
}

/// The attributes that the response to an instantiation carries: the method,
/// and the owner.
pub fn instantiate_attributes(owner: &String) -> (attributes: Vec<(String, String)>)
    ensures
        attributes@.len() == 2,
        attributes@[0].0@ == "method"@,
        attributes@[0].1@ == "instantiate"@,
        attributes@[1].0@ == "owner"@,
        attributes@[1].1@ == owner@,
{
    let mut attributes: Vec<(String, String)> = Vec::new();
    attributes.push(("method".to_owned(), "instantiate".to_owned()));
    attributes.push(("owner".to_owned(), owner.clone()));
    attributes
}

/// Where the first game of that name stands in the registry.
pub fn find_game(state: &MovieMagicContractState, name: &String) -> (at: Option<usize>)
    ensures
        match at {
            Some(i) => is_first_index(game_names(state@.games), name@, i as int),
            None => !has_game(state@, name@),
        },
{
    let mut i: usize = 0;
    while i < state.games.len()
        invariant
            i <= state.games.len(),
            forall|j: int| 0 <= j < i ==> game_names(state@.games)[j] != name@,
        decreases state.games.len() - i,
    {
        if state.games[i].name == *name {
            return Some(i);
        }
        i = i + 1;
    }
    None
}

/// Creates a game with its first player. `player` is the canonical form that
/// the address validator gave for the first player, `None` where it rejected
/// the address. A rejected address is reported before a name that is taken.
pub fn init_game(
    state: &mut MovieMagicContractState,
    name: String,
    player: Option<String>,
    num_of_adventures: u32,
    game_stake: u64,
) -> (res: Result<(), ContractError>)
    ensures
        match res {
            Ok(()) => registry_create(
                old(state)@,
                name@,
                option_view(player),
                num_of_adventures as nat,
                game_stake as nat,
            ) == Ok::<RegistryModel, ContractError>(final(state)@),
            Err(e) => registry_create(
                old(state)@,
                name@,
                option_view(player),
                num_of_adventures as nat,
                game_stake as nat,
            ) == Err::<RegistryModel, ContractError>(e) && final(state)@ == old(state)@,
        },
        registry_wf(old(state)@) ==> registry_wf(final(state)@),
{
    let first = match player {
        Some(p) => p,
        None => {
            return Err(ContractError::InvalidAddress);
        },
    };
    match find_game(state, &name) {
        Some(i) => {
            proof {
                lemma_first_index_is(game_names(state@.games), name@, i as int);
            }
            Err(ContractError::DuplicateName)
        },
        None => {
            state.games.push(GameState::new(name, first, num_of_adventures, game_stake));
            assert(state@ =~~= registry_create(
                old(state)@,
                name@,
                option_view(player),
                num_of_adventures as nat,
                game_stake as nat,
            )->Ok_0);
            proof {
                if registry_wf(old(state)@) {
                    lemma_create_keeps(
                        old(state)@,
                        name@,
                        option_view(player),
                        num_of_adventures as nat,
                        game_stake as nat,
                    );
                }
            }
            Ok(())
        },
    }
}

/// Adds a player and the player's stake to a game that has not started.
/// `player` is the canonical form that the address validator gave, `None`
/// where it rejected the address. Where the game exists, a rejected address
/// is reported before anything else.
pub fn add_player(
    state: &mut MovieMagicContractState,
    name: String,
    player: Option<String>,
    game_stake: u64,
) -> (res: Result<(), ContractError>)
    ensures
        match res {
            Ok(()) => registry_join(old(state)@, name@, option_view(player), game_stake as nat)
                == Ok::<RegistryModel, ContractError>(final(state)@),
            Err(e) => registry_join(old(state)@, name@, option_view(player), game_stake as nat)
                == Err::<RegistryModel, ContractError>(e) && final(state)@ == old(state)@,
        },
        registry_wf(old(state)@) ==> registry_wf(final(state)@),
{
    match find_game(state, &name) {
        None => Err(ContractError::GameNotFound),
        Some(i) => {
            proof {
                lemma_first_index_is(game_names(state@.games), name@, i as int);
            }
            let res = state.games[i].join(player, game_stake);
            proof {
                lemma_game_replaced(*old(state), *state, i as int);
                if registry_wf(old(state)@) && res is Ok {
                    lemma_registry_join_keeps(
                        old(state)@,
                        name@,
                        option_view(player),
                        game_stake as nat,
                    );
                }
            }
            res
        },
    }
}

/// Starts a game.
pub fn start_game(state: &mut MovieMagicContractState, name: String) -> (res: Result<
    (),
    ContractError,
>)
    ensures
        match res {
            Ok(()) => registry_start(old(state)@, name@) == Ok::<RegistryModel, ContractError>(
                final(state)@,
            ),
            Err(e) => registry_start(old(state)@, name@) == Err::<RegistryModel, ContractError>(e)
                && final(state)@ == old(state)@,
        },
        registry_wf(old(state)@) ==> registry_wf(final(state)@),
{
    match find_game(state, &name) {
        None => Err(ContractError::GameNotFound),
        Some(i) => {
            proof {
                lemma_first_index_is(game_names(state@.games), name@, i as int);
            }
            let res = state.games[i].start();
            proof {
                lemma_game_replaced(*old(state), *state, i as int);
                if registry_wf(old(state)@) && res is Ok {
                    lemma_registry_start_keeps(old(state)@, name@);
                }
            }
            res
        },
    }
}

/// Records a player's vote for an adventure of a game.
pub fn vote_for_adventure(
    state: &mut MovieMagicContractState,
    name: String,
    player: String,
    vote: u32,
    adventure_number: u32,
) -> (res: Result<(), ContractError>)
    ensures
        match res {
            Ok(()) => registry_vote(
                old(state)@,
                name@,
                player@,
                adventure_number as nat,
                vote as nat,
            ) == Ok::<RegistryModel, ContractError>(final(state)@),
            Err(e) => registry_vote(
                old(state)@,
                name@,
                player@,
                adventure_number as nat,
                vote as nat,
            ) == Err::<RegistryModel, ContractError>(e) && final(state)@ == old(state)@,
        },
        registry_wf(old(state)@) ==> registry_wf(final(state)@),
{
    match find_game(state, &name) {
        None => Err(ContractError::GameNotFound),
        Some(i) => {
            proof {
                lemma_first_index_is(game_names(state@.games), name@, i as int);
            }
            let res = state.games[i].vote(player, adventure_number, vote);
            proof {
                lemma_game_replaced(*old(state), *state, i as int);
                if registry_wf(old(state)@) && res is Ok {
                    lemma_registry_vote_keeps(
                        old(state)@,
                        name@,
                        player@,
                        adventure_number as nat,
                        vote as nat,
                    );
                }
            }
            res
        },
    }
}

/// Tallies an adventure of a game.
pub fn game_adventure_stop(
    state: &mut MovieMagicContractState,
    name: String,
    adventure_stop_number: u32,
) -> (res: Result<(), ContractError>)
    ensures
        match res {
            Ok(()) => registry_stop(old(state)@, name@, adventure_stop_number as nat) == Ok::<
                RegistryModel,
                ContractError,
            >(final(state)@),
            Err(e) => registry_stop(old(state)@, name@, adventure_stop_number as nat) == Err::<
                RegistryModel,
                ContractError,
            >(e) && final(state)@ == old(state)@,
        },
        registry_wf(old(state)@) ==> registry_wf(final(state)@),
{
    match find_game(state, &name) {
        None => Err(ContractError::GameNotFound),
        Some(i) => {
            proof {
                lemma_first_index_is(game_names(state@.games), name@, i as int);
            }
            let res = state.games[i].stop_adventure(adventure_stop_number);
            proof {
                lemma_game_replaced(*old(state), *state, i as int);
                if registry_wf(old(state)@) && res is Ok {
                    lemma_registry_stop_keeps(old(state)@, name@, adventure_stop_number as nat);
                }
            }
            res
        },
    }
}

/// Ends a game.
pub fn end_game(state: &mut MovieMagicContractState, name: String) -> (res: Result<
    (),
    ContractError,
>)
    ensures
        match res {
            Ok(()) => registry_end(old(state)@, name@) == Ok::<RegistryModel, ContractError>(
                final(state)@,
            ),
            Err(e) => registry_end(old(state)@, name@) == Err::<RegistryModel, ContractError>(e)
                && final(state)@ == old(state)@,
        },
        registry_wf(old(state)@) ==> registry_wf(final(state)@),
{
    match find_game(state, &name) {
        None => Err(ContractError::GameNotFound),
        Some(i) => {
            proof {
                lemma_first_index_is(game_names(state@.games), name@, i as int);
            }
            let res = state.games[i].end();
            proof {
                lemma_game_replaced(*old(state), *state, i as int);
                if registry_wf(old(state)@) && res is Ok {
                    lemma_registry_end_keeps(old(state)@, name@);
                }
            }
            res
        },
    }
}

/// Applies a command to the registry. `validated` is the canonical form that
/// the address validator gave for the address that
/// [`ExecuteMsg::address_to_validate`] names, `None` where it rejected the
/// address or the command names none.
pub fn execute(state: &mut MovieMagicContractState, msg: ExecuteMsg, validated: Option<String>)
    -> (res: Result<(), ContractError>)
    ensures
        match res {
            Ok(()) => step(old(state)@, msg@, option_view(validated)) == Ok::<
                RegistryModel,
                ContractError,
            >(final(state)@),
            Err(e) => step(old(state)@, msg@, option_view(validated)) == Err::<
                RegistryModel,
                ContractError,
            >(e) && final(state)@ == old(state)@,
        },
        registry_wf(old(state)@) ==> registry_wf(final(state)@),
{
    match msg {
        ExecuteMsg::InitGame { name, player, game_stake, num_of_adventures } => init_game(
            state,
            name,
            validated,
            num_of_adventures,
            game_stake,
        ),
        ExecuteMsg::AddGamePlayer { name, player, game_stake } => add_player(
            state,
            name,
            validated,
            game_stake,
        ),
        ExecuteMsg::StartGame { name } => start_game(state, name),
        ExecuteMsg::VoteForAdventure { name, player, adventure_number, vote } => {
            vote_for_adventure(state, name, player, vote, adventure_number)
        },
        ExecuteMsg::GameAdventureStop { name, adventure_number } => game_adventure_stop(
            state,
            name,
            adventure_number,
        ),
        ExecuteMsg::EndGame { name } => end_game(state, name),
    }
}

/// A registry in which one game has been replaced holds the replaced game's
/// model at that place and the other games as before; where the game is as it
/// was, so is the registry.
proof fn lemma_game_replaced(
    before: MovieMagicContractState,
    after: MovieMagicContractState,
    i: int,
)
    requires
        0 <= i < before.games.len(),
        after.owner == before.owner,
        after.games@ == before.games@.update(i, after.games@[i]),
    ensures
        after@ == (RegistryModel {
            games: before@.games.update(i, after.games@[i]@),
            owner: before@.owner,
        }),
        before@.games[i] == before.games@[i]@,
        after.games@[i] == before.games@[i] ==> after@ == before@,
{
    assert(after@.games =~= before@.games.update(i, after.games@[i]@));
    if after.games@[i] == before.games@[i] {
        assert(after@.games =~= before@.games);
    }
}

} // verus!
