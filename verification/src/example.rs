//! A policy for chess with the usual numbers, in which every result passes
//! the rules of the game.

use crate::elo_rating_system::{DomainVerdict, EloRatingSystem};
use crate::game_result::GameResultInfo;
use crate::identity::Participant;
use vstd::prelude::*;

verus! {

/// What a game of chess records of itself: the opponent.
#[derive(Debug)]
pub struct GameInfo2 {
    pub opponent: Participant,
}

/// The policy for chess.
#[derive(Debug)]
pub struct ChessEloRating;

impl EloRatingSystem for ChessEloRating {
    /// Chess as it is played here refuses no result.
    fn validate_game_result(game_info: &Vec<u8>, result: &GameResultInfo) -> (verdict:
        DomainVerdict)
        ensures
            verdict is Valid,
    {
        DomainVerdict::Valid
    }
}

} // verus!
