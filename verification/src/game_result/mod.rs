//! The records of the ledger: one per finished game, holding the new rating
//! of each player and a link to that player's previous record.

use crate::elo_rating_system::EloRating;
use crate::error::EloError;
use crate::identity::{
    bytes_copy, bytes_equal, duplicate_opt_hash, same_opt_hash, view_opt_hash, ContentHash,
    Participant,
};
use crate::score::Score;
use vstd::prelude::*;

pub mod chain;
pub mod handlers;
pub mod links;
pub mod unpublished;
pub mod validation;

verus! {

/// What one game did to one player.
#[derive(Debug)]
pub struct EloUpdate {
    pub player_address: Participant,
    /// The player's rating after the game.
    pub current_elo: EloRating,
    /// The player's record before this one; `None` in a player's first record.
    pub previous_game_result: Option<ContentHash>,
}

/// An [`EloUpdate`] as a mathematical value.
pub struct EloUpdateView {
    pub player_address: Seq<u8>,
    pub current_elo: int,
    pub previous_game_result: Option<Seq<u8>>,
}

impl View for EloUpdate {
    type V = EloUpdateView;

    open spec fn view(&self) -> EloUpdateView {
        EloUpdateView {
            player_address: self.player_address@,
            current_elo: self.current_elo as int,
            previous_game_result: view_opt_hash(self.previous_game_result),
        }
    }
}

impl EloUpdate {
    pub fn duplicate(&self) -> (copy: EloUpdate)
        ensures
            copy@ == self@,
    {
        EloUpdate {
            player_address: self.player_address.duplicate(),
            current_elo: self.current_elo,
            previous_game_result: duplicate_opt_hash(&self.previous_game_result),
        }
    }

    /// Whether both hold the same player, rating and link.
    pub fn same(&self, other: &EloUpdate) -> (same: bool)
        ensures
            same == (self@ == other@),
    {
        self.player_address.same(&other.player_address) && self.current_elo == other.current_elo
            && same_opt_hash(&self.previous_game_result, &other.previous_game_result)
    }
}

/// The record of one finished game.
#[derive(Debug)]
pub struct GameResult {
    pub player_a: EloUpdate,
    pub player_b: EloUpdate,
    /// The score of `player_a`: 1 for a win, one half for a draw, 0 for a loss.
    pub score_player_a: Score,
    /// What the game itself recorded, opaque to the ledger.
    pub game_info: Vec<u8>,
}

/// A [`GameResult`] as a mathematical value.
pub struct GameResultView {
    pub player_a: EloUpdateView,
    pub player_b: EloUpdateView,
    pub score_player_a: Score,
    pub game_info: Seq<u8>,
}

impl View for GameResult {
    type V = GameResultView;

    open spec fn view(&self) -> GameResultView {
        GameResultView {
            player_a: self.player_a@,
            player_b: self.player_b@,
            score_player_a: self.score_player_a,
            game_info: self.game_info@,
        }
    }
}

impl GameResultView {
    /// What the record holds for `agent`: the first player's update if the
    /// agent is the first player, else the second player's if the agent is
    /// the second.
    pub open spec fn update_for(self, agent: Seq<u8>) -> Option<EloUpdateView> {
        if self.player_a.player_address == agent {
            Some(self.player_a)
        } else if self.player_b.player_address == agent {
            Some(self.player_b)
        } else {
            None
        }
    }

    /// Whether `agent` is one of the two players.
    pub open spec fn has_player(self, agent: Seq<u8>) -> bool {
        self.player_a.player_address == agent || self.player_b.player_address == agent
    }

    /// The other player of the game, seen from `me`.
    pub open spec fn opponent_of(self, me: Seq<u8>) -> Option<Seq<u8>> {
        if self.player_a.player_address == me {
            Some(self.player_b.player_address)
        } else if self.player_b.player_address == me {
            Some(self.player_a.player_address)
        } else {
            None
        }
    }

    /// What every committed record satisfies: two different players, and a
    /// score between 0 and 1.
    pub open spec fn well_formed(self) -> bool {
        &&& self.player_a.player_address != self.player_b.player_address
        &&& self.score_player_a.valid()
    }
}

/// The view of an optional update.
pub open spec fn view_opt_update(u: Option<EloUpdate>) -> Option<EloUpdateView> {
    match u {
        Some(x) => Some(x@),
        None => None,
    }
}

impl GameResult {
    pub fn duplicate(&self) -> (copy: GameResult)
        ensures
            copy@ == self@,
    {
        GameResult {
            player_a: self.player_a.duplicate(),
            player_b: self.player_b.duplicate(),
            score_player_a: self.score_player_a,
            game_info: bytes_copy(&self.game_info),
        }
    }

    /// Whether both records agree in every field.
    pub fn same(&self, other: &GameResult) -> (same: bool)
        ensures
            same == (self@ == other@),
    {
        self.player_a.same(&other.player_a) && self.player_b.same(&other.player_b)
            && self.score_player_a.bits == other.score_player_a.bits && bytes_equal(
            &self.game_info,
            &other.game_info,
        )
    }

    /// The update that the record holds for `agent`, if the agent played.
    pub fn elo_update_for(&self, agent: &Participant) -> (update: Option<EloUpdate>)
        ensures
            view_opt_update(update) == self@.update_for(agent@),
    {
        if self.player_a.player_address.same(agent) {
            Some(self.player_a.duplicate())
        } else if self.player_b.player_address.same(agent) {
            Some(self.player_b.duplicate())
        } else {
            None
        }
    }

    /// The rating that the record gives `agent`.
    pub fn elo_rating_for(&self, agent: &Participant) -> (rating: Result<EloRating, EloError>)
        ensures
            match self@.update_for(agent@) {
                Some(u) => rating == Ok::<EloRating, EloError>(u.current_elo as EloRating),
                None => rating == Err::<EloRating, EloError>(EloError::NotAParticipant),
            },
    {
        if self.player_a.player_address.same(agent) {
            Ok(self.player_a.current_elo)
        } else if self.player_b.player_address.same(agent) {
            Ok(self.player_b.current_elo)
        } else {
            Err(EloError::NotAParticipant)
        }
    }

    /// The other player of the game, seen from `me`.
    pub fn opponent(&self, me: &Participant) -> (other: Result<Participant, EloError>)
        ensures
            match self@.opponent_of(me@) {
                Some(o) => other matches Ok(p) && p@ == o,
                None => other matches Err(e) && e == EloError::NotAParticipant,
            },
    {
        if self.player_a.player_address.same(me) {
            Ok(self.player_b.player_address.duplicate())
        } else if self.player_b.player_address.same(me) {
            Ok(self.player_a.player_address.duplicate())
        } else {
            Err(EloError::NotAParticipant)
        }
    }

    /// Both players, the first one first.
    pub fn agents(&self) -> (players: (Participant, Participant))
        ensures
            players.0@ == self@.player_a.player_address,
            players.1@ == self@.player_b.player_address,
    {
        (self.player_a.player_address.duplicate(), self.player_b.player_address.duplicate())
    }
}

/// What the rules of a game are shown of a record: who played, and the score.
#[derive(Debug)]
pub struct GameResultInfo {
    pub player_a: Participant,
    pub player_b: Participant,
    pub score_player_a: Score,
}

impl GameResultInfo {
    pub fn new(game_result: &GameResult) -> (info: GameResultInfo)
        ensures
            info.player_a@ == game_result@.player_a.player_address,
            info.player_b@ == game_result@.player_b.player_address,
            info.score_player_a == game_result@.score_player_a,
    {
        GameResultInfo {
            player_a: game_result.player_a.player_address.duplicate(),
            player_b: game_result.player_b.player_address.duplicate(),
            score_player_a: game_result.score_player_a,
        }
    }
}

/// A record as it stands in a player's chain: the address of its header, and
/// the record.
#[derive(Debug)]
pub struct CommittedResult {
    pub header_hash: ContentHash,
    pub game_result: GameResult,
}

/// A [`CommittedResult`] as a mathematical value.
pub struct CommittedResultView {
    pub header_hash: Seq<u8>,
    pub game_result: GameResultView,
}

impl View for CommittedResult {
    type V = CommittedResultView;

    open spec fn view(&self) -> CommittedResultView {
        CommittedResultView { header_hash: self.header_hash@, game_result: self.game_result@ }
    }
}

impl CommittedResult {
    pub fn duplicate(&self) -> (copy: CommittedResult)
        ensures
            copy@ == self@,
    {
        CommittedResult {
            header_hash: self.header_hash.duplicate(),
            game_result: self.game_result.duplicate(),
        }
    }
}

/// The view of the head of a chain: the latest record, or none.
pub open spec fn view_head(head: Option<CommittedResult>) -> Option<CommittedResultView> {
    match head {
        Some(c) => Some(c@),
        None => None,
    }
}

/// The link that a new record makes to the head of a chain.
pub open spec fn link_to(head: Option<CommittedResultView>) -> Option<Seq<u8>> {
    match head {
        Some(c) => Some(c.header_hash),
        None => None,
    }
}

/// The rating of `agent` according to the head of the agent's chain: the
/// rating that the latest record gives the agent, or `initial` where there is
/// no record. A head that does not name the agent gives no rating.
pub open spec fn rating_from_head(
    agent: Seq<u8>,
    head: Option<CommittedResultView>,
    initial: int,
) -> Option<int> {
    match head {
        Some(c) => match c.game_result.update_for(agent) {
            Some(u) => Some(u.current_elo),
            None => None,
        },
        None => Some(initial),
    }
}

/// The rating of `agent_pub_key` after the agent's latest record, or
/// `initial_rating` if the agent has none.
pub fn elo_rating_from_last_game_result(
    agent_pub_key: &Participant,
    last_game_result: &Option<CommittedResult>,
    initial_rating: EloRating,
) -> (rating: Result<EloRating, EloError>)
    ensures
        match rating_from_head(agent_pub_key@, view_head(*last_game_result), initial_rating as int) {
            Some(r) => rating == Ok::<EloRating, EloError>(r as EloRating),
            None => rating == Err::<EloRating, EloError>(EloError::NotAParticipant),
        },
{
    match last_game_result {
        Some(committed) => committed.game_result.elo_rating_for(agent_pub_key),
        None => Ok(initial_rating),
    }
}

/// What the ledger tells the user interface.
#[derive(Debug)]
pub enum EloSignal {
    /// A record that names this player was committed.
    NewGameResult { entry_hash: ContentHash, game_result: GameResult },
}

} // verus!
