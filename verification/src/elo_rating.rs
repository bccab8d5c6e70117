//! Ratings: what the rating formula is asked, and the ratings of a list of
//! players as their chains stand.
//!
//! The formula itself works on floating-point numbers and is run by the
//! caller. Here its inputs are prepared, with the score checked first, and
//! its result is taken back as two integers.

use crate::elo_rating_system::{EloParameters, EloRating};
use crate::error::EloError;
use crate::game_result::{
    elo_rating_from_last_game_result, rating_from_head, view_head, CommittedResult,
    CommittedResultView,
};
use crate::identity::Participant;
use crate::score::Score;
use vstd::prelude::*;

verus! {

/// One question to the rating formula: both ratings before the game, the
/// score of the first player, and the factor of each.
#[derive(Clone, Copy, Debug, PartialEq, Eq, Structural)]
pub struct RatingInputs {
    pub rating_a: EloRating,
    pub rating_b: EloRating,
    pub score_a: Score,
    pub k_a: u32,
    pub k_b: u32,
}

/// The question that a game between `player_a` and `player_b` puts to the
/// rating formula, given the head of each player's chain.
///
/// The score is looked at before anything else; then the players must
/// differ; then each head, where there is one, must name its player.
pub open spec fn rating_inputs_spec(
    player_a: Seq<u8>,
    player_b: Seq<u8>,
    score_a: Score,
    head_a: Option<CommittedResultView>,
    head_b: Option<CommittedResultView>,
    initial: EloRating,
    k: u32,
) -> Result<RatingInputs, EloError> {
    if !score_a.valid() {
        Err(EloError::InvalidScore)
    } else if player_a == player_b {
        Err(EloError::SelfPlay)
    } else {
        match (
            rating_from_head(player_a, head_a, initial as int),
            rating_from_head(player_b, head_b, initial as int),
        ) {
            (Some(a), Some(b)) => Ok(
                RatingInputs {
                    rating_a: a as EloRating,
                    rating_b: b as EloRating,
                    score_a,
                    k_a: k,
                    k_b: k,
                },
            ),
            _ => Err(EloError::NotAParticipant),
        }
    }
}

/// Prepares the question to the rating formula for a game between
/// `player_a` and `player_b`. No rating is read before the score is known
/// to lie between 0 and 1.
pub fn rating_inputs(
    player_a: &Participant,
    player_b: &Participant,
    score_a: Score,
    head_a: &Option<CommittedResult>,
    head_b: &Option<CommittedResult>,
    initial_rating: EloRating,
    k_factor: u32,
) -> (inputs: Result<RatingInputs, EloError>)
    ensures
        inputs == rating_inputs_spec(
            player_a@,
            player_b@,
            score_a,
            view_head(*head_a),
            view_head(*head_b),
            initial_rating,
            k_factor,
        ),
        !score_a.valid() ==> inputs == Err::<RatingInputs, EloError>(EloError::InvalidScore),
{
    if !score_a.is_valid() {
        return Err(EloError::InvalidScore);
    }
    if player_a.same(player_b) {
        return Err(EloError::SelfPlay);
    }
    let rating_a = match elo_rating_from_last_game_result(player_a, head_a, initial_rating) {
        Ok(r) => r,
        Err(e) => {
            return Err(e);
        },
    };
    let rating_b = match elo_rating_from_last_game_result(player_b, head_b, initial_rating) {
        Ok(r) => r,
        Err(e) => {
            return Err(e);
        },
    };
    Ok(RatingInputs { rating_a, rating_b, score_a, k_a: k_factor, k_b: k_factor })
}

/// A player and the head of that player's chain, as the local view has it.
#[derive(Debug)]
pub struct AgentHead {
    pub agent: Participant,
    pub latest: Option<CommittedResult>,
}

/// A player and that player's current rating.
#[derive(Debug)]
pub struct AgentRating {
    pub agent: Participant,
    pub rating: EloRating,
}

/// Whether every head that is there names its own player.
pub open spec fn heads_name_their_agents(heads: Seq<AgentHead>) -> bool {
    forall|i: int|
        0 <= i < heads.len() ==> rating_from_head(
            (#[trigger] heads[i]).agent@,
            view_head(heads[i].latest),
            0,
        ) is Some
}

/// The current rating of each of the given players, in their order: the
/// rating after the player's latest record, or the policy's initial rating
/// for a player without a record.
///
/// Fails with `NotAParticipant` exactly if some head does not name its
/// player.
pub fn get_elo_rating_for_agents(params: &EloParameters, heads: &Vec<AgentHead>) -> (ratings:
    Result<Vec<AgentRating>, EloError>)
    ensures
        heads_name_their_agents(heads@) ==> ratings is Ok,
        !heads_name_their_agents(heads@) ==> ratings == Err::<Vec<AgentRating>, EloError>(
            EloError::NotAParticipant,
        ),
        ratings matches Ok(list) ==> {
            &&& list@.len() == heads@.len()
            &&& forall|i: int|
                0 <= i < list@.len() ==> {
                    &&& (#[trigger] list@[i]).agent@ == heads@[i].agent@
                    &&& Some(list@[i].rating as int) == rating_from_head(
                        heads@[i].agent@,
                        view_head(heads@[i].latest),
                        params.initial_rating as int,
                    )
                }
        },
{
    let initial = params.initial_rating;
    let mut out: Vec<AgentRating> = Vec::new();
    let n: usize = heads.len();
    let mut i: usize = 0;
    while i < n
        invariant
            n == heads@.len(),
            i <= n,
            initial == params.initial_rating,
            out@.len() == i,
            forall|j: int|
                0 <= j < i ==> rating_from_head(
                    (#[trigger] heads@[j]).agent@,
                    view_head(heads@[j].latest),
                    0,
                ) is Some,
            forall|j: int|
                0 <= j < i ==> {
                    &&& (#[trigger] out@[j]).agent@ == heads@[j].agent@
                    &&& Some(out@[j].rating as int) == rating_from_head(
                        heads@[j].agent@,
                        view_head(heads@[j].latest),
                        initial as int,
                    )
                },
        decreases n - i,
    {
        let head = &heads[i];
        match elo_rating_from_last_game_result(&head.agent, &head.latest, initial) {
            Ok(rating) => {
                out.push(AgentRating { agent: head.agent.duplicate(), rating });
            },
            Err(_) => {
                assert(rating_from_head(heads@[i as int].agent@, view_head(heads@[i as int].latest), 0)
                    is None);
                return Err(EloError::NotAParticipant);
            },
        }
        i = i + 1;
    }
    Ok(out)
}

} // verus!
