//! The transitions of a game and of the registry, as functions on the model.
//! Each gives the next state, or the error with which the command is rejected.

use vstd::prelude::*;
use crate::error::ContractError;
use crate::model::{
    adventure_share, first_index, game_names, ledger_cast, overall_winner, tally, winner_share,
    GameModel, MsgModel, RegistryModel,
};

verus! {

/// A game as it is created: initiated, with its first player and that player's stake.
pub open spec fn game_new(
    name: Seq<char>,
    player: Seq<char>,
    num_of_adventures: nat,
    stake: nat,
) -> GameModel {
    GameModel {
        name,
        players: seq![player],
        total_funds: stake,
        adventure_funds: 0,
        initiated: true,
        started: false,
        ended: false,
        winner: Seq::empty(),
        winning_reward: 0,
        adventure_votes: Seq::empty(),
        adventure_winners: Seq::empty(),
        adventure_rewards: Seq::empty(),
        adventure_winning_votes: Seq::empty(),
        num_of_adventures,
    }
}

/// A player joins. `player` is the validator's canonical form of the address,
/// or `None` where it rejected the address: a rejected address is reported
/// whatever the phase of the game. Players join only before the start.
pub open spec fn game_join(g: GameModel, player: Option<Seq<char>>, stake: nat) -> Result<
    GameModel,
    ContractError,
> {
    if player is None {
        Err(ContractError::InvalidAddress)
    } else if g.started {
        Err(ContractError::GameAlreadyStarted)
    } else if g.total_funds + stake > u64::MAX {
        Err(ContractError::Overflow)
    } else {
        Ok(
            GameModel {
                players: g.players.push(player->Some_0),
                total_funds: g.total_funds + stake,
                ..g
            },
        )
    }
}

/// The game starts: it needs two players and a non-empty pool, and sets the
/// adventure funds aside.
pub open spec fn game_start(g: GameModel) -> Result<GameModel, ContractError> {
    if g.total_funds == 0 || g.players.len() < 2 {
        Err(ContractError::InsufficientParticipation)
    } else {
        Ok(GameModel { started: true, adventure_funds: adventure_share(g.total_funds), ..g })
    }
}

/// A player votes. The vote goes to an open adventure, or opens the next one.
pub open spec fn game_vote(g: GameModel, player: Seq<char>, adventure_number: nat, vote: nat)
    -> Result<GameModel, ContractError> {
    let n = g.adventure_votes.len();
    if !g.started {
        Err(ContractError::GameNotStarted)
    } else if !g.players.contains(player) {
        Err(ContractError::PlayerNotInGame)
    } else if adventure_number > n {
        Err(ContractError::AdventureNotOpen)
    } else if adventure_number < n {
        let ledger = g.adventure_votes[adventure_number as int];
        Ok(
            GameModel {
                adventure_votes: g.adventure_votes.update(
                    adventure_number as int,
                    ledger_cast(ledger, player, vote),
                ),
                ..g
            },
        )
    } else {
        Ok(
            GameModel {
                adventure_votes: g.adventure_votes.push(
                    ledger_cast(Seq::empty(), player, vote),
                ),
                ..g
            },
        )
    }
}

/// An adventure is tallied: its winning count, winners and reward are appended
/// to the results. The ledger stays open, and a second tally appends again.
pub open spec fn game_stop(g: GameModel, adventure_number: nat) -> Result<
    GameModel,
    ContractError,
> {
    if adventure_number >= g.adventure_votes.len() {
        Err(ContractError::Internal)
    } else {
        match tally(
            g.adventure_votes[adventure_number as int],
            g.adventure_funds,
            g.num_of_adventures,
        ) {
            Err(e) => Err(e),
            Ok(t) => Ok(
                GameModel {
                    adventure_winning_votes: g.adventure_winning_votes.push(t.winning_votes),
                    adventure_winners: g.adventure_winners.push(t.winners),
                    adventure_rewards: g.adventure_rewards.push(t.reward),
                    ..g
                },
            ),
        }
    }
}

/// The game ends: the overall winner is named, where there is one, and the
/// winning reward is fixed. A started game can always end: where no adventure
/// has been tallied there is no winner to name, and the winner stays as it was.
pub open spec fn game_end(g: GameModel) -> Result<GameModel, ContractError> {
    if !g.started {
        Err(ContractError::GameNotStarted)
    } else {
        Ok(
            GameModel {
                winner: match overall_winner(g.adventure_winners.flatten()) {
                    Some(w) => w,
                    None => g.winner,
                },
                winning_reward: winner_share(g.total_funds),
                ended: true,
                ..g
            },
        )
    }
}

/// The registry as it is instantiated: no games.
pub open spec fn registry_new(owner: Seq<char>) -> RegistryModel {
    RegistryModel { games: Seq::empty(), owner }
}

/// Whether the registry has a game of that name.
pub open spec fn has_game(r: RegistryModel, name: Seq<char>) -> bool {
    game_names(r.games).contains(name)
}

/// The position of the first game of that name; meaningful where there is one.
pub open spec fn game_position(r: RegistryModel, name: Seq<char>) -> int {
    first_index(game_names(r.games), name)
}

/// The registry with the game at `i` replaced by the outcome of a transition,
/// or the transition's error.
pub open spec fn with_game(r: RegistryModel, i: int, outcome: Result<GameModel, ContractError>)
    -> Result<RegistryModel, ContractError> {
    match outcome {
        Ok(g) => Ok(RegistryModel { games: r.games.update(i, g), owner: r.owner }),
        Err(e) => Err(e),
    }
}

/// A game is created and appended. The first player's address must have
/// passed the validator: a rejected address is reported whatever the registry
/// holds. Names are unique. The number of adventures is taken
/// as it is given: a game with none can be played, and none of its adventures
/// can be tallied.
pub open spec fn registry_create(
    r: RegistryModel,
    name: Seq<char>,
    player: Option<Seq<char>>,
    num_of_adventures: nat,
    stake: nat,
) -> Result<RegistryModel, ContractError> {
    if player is None {
        Err(ContractError::InvalidAddress)
    } else if has_game(r, name) {
        Err(ContractError::DuplicateName)
    } else {
        Ok(
            RegistryModel {
                games: r.games.push(game_new(name, player->Some_0, num_of_adventures, stake)),
                owner: r.owner,
            },
        )
    }
}

/// A player joins the game of that name.
pub open spec fn registry_join(
    r: RegistryModel,
    name: Seq<char>,
    player: Option<Seq<char>>,
    stake: nat,
) -> Result<RegistryModel, ContractError> {
    if !has_game(r, name) {
        Err(ContractError::GameNotFound)
    } else {
        let i = game_position(r, name);
        with_game(r, i, game_join(r.games[i], player, stake))
    }
}

/// The game of that name starts.
pub open spec fn registry_start(r: RegistryModel, name: Seq<char>) -> Result<
    RegistryModel,
    ContractError,
> {
    if !has_game(r, name) {
        Err(ContractError::GameNotFound)
    } else {
        let i = game_position(r, name);
        with_game(r, i, game_start(r.games[i]))
    }
}

/// A player votes in the game of that name.
pub open spec fn registry_vote(
    r: RegistryModel,
    name: Seq<char>,
    player: Seq<char>,
    adventure_number: nat,
    vote: nat,
) -> Result<RegistryModel, ContractError> {
    if !has_game(r, name) {
        Err(ContractError::GameNotFound)
    } else {
        let i = game_position(r, name);
        with_game(r, i, game_vote(r.games[i], player, adventure_number, vote))
    }
}

/// An adventure of the game of that name is tallied.
pub open spec fn registry_stop(r: RegistryModel, name: Seq<char>, adventure_number: nat)
    -> Result<RegistryModel, ContractError> {
    if !has_game(r, name) {
        Err(ContractError::GameNotFound)
    } else {
        let i = game_position(r, name);
        with_game(r, i, game_stop(r.games[i], adventure_number))
    }
}

/// The game of that name ends.
pub open spec fn registry_end(r: RegistryModel, name: Seq<char>) -> Result<
    RegistryModel,
    ContractError,
> {
    if !has_game(r, name) {
        Err(ContractError::GameNotFound)
    } else {
        let i = game_position(r, name);
        with_game(r, i, game_end(r.games[i]))
    }
}

/// What a command makes of the registry. `validated` is the validator's
/// canonical form of the player's address for the two commands that add a
/// player, `None` where it rejected the address; the other commands ignore it.
pub open spec fn step(r: RegistryModel, msg: MsgModel, validated: Option<Seq<char>>) -> Result<
    RegistryModel,
    ContractError,
> {
    match msg {
        MsgModel::InitGame { name, player, game_stake, num_of_adventures } => registry_create(
            r,
            name,
            validated,
            num_of_adventures,
            game_stake,
        ),
        MsgModel::AddGamePlayer { name, player, game_stake } => registry_join(
            r,
            name,
            validated,
            game_stake,
        ),
        MsgModel::StartGame { name } => registry_start(r, name),
        MsgModel::VoteForAdventure { name, player, adventure_number, vote } => registry_vote(
            r,
            name,
            player,
            adventure_number,
            vote,
        ),
        MsgModel::GameAdventureStop { name, adventure_number } => registry_stop(
            r,
            name,
            adventure_number,
        ),
        MsgModel::EndGame { name } => registry_end(r, name),
    }
}

} // verus!
