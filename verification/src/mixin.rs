//! The entry points of the ledger: what to set up at the start, what to do
//! after a commit, and the two ways of writing the record of a finished
//! game.

use crate::countersigning::sender::{
    is_game_facts_of, proposed, try_create_countersigned_game_result, Session, SessionAction,
    SessionPhase, SessionView,
};
use crate::elo_rating_system::DomainVerdict;
use crate::game_result::GameResultInfo;
use crate::elo_ranking::{put_elo_rating_in_ranking, ranking_update, RankingUpdate};
use crate::elo_rating::rating_inputs_spec;
use crate::elo_rating_system::{EloParameters, EloRating, EloRatingSystem};
use crate::error::EloError;
use crate::game_result::handlers::{assembled, build_new_game_result};
use crate::game_result::{view_head, CommittedResult, GameResult};
use crate::identity::{contains_hash, view_hashes, ContentHash, Participant};
use crate::score::Score;
use vstd::prelude::*;

verus! {

/// The function that the counterparty calls to propose a record.
pub fn request_function_name() -> (name: &'static str)
    ensures
        name@ == "request_publish_game_result"@,
{
    "request_publish_game_result"
}

/// The function that the scheduler calls to try the waiting results again.
pub fn scheduled_function_name() -> (name: &'static str)
    ensures
        name@ == "scheduled_try_resolve_unpublished_game_results"@,
{
    "scheduled_try_resolve_unpublished_game_results"
}

/// What is set up when a player joins.
#[derive(Debug)]
pub struct InitPlan {
    /// The function that every other player may call.
    pub granted_function: &'static str,
    /// The player's first entry in the ranking.
    pub ranking: RankingUpdate,
    /// The function that is called from time to time.
    pub scheduled_function: &'static str,
}

/// Says what is set up when `me` joins: other players may propose records,
/// the player enters the ranking with the policy's initial rating, under
/// the content address `my_entry_hash` of the player's own key, and the
/// retry of the waiting results is scheduled.
pub fn init_elo(params: &EloParameters, me: Participant, my_entry_hash: ContentHash) -> (plan:
    InitPlan)
    ensures
        plan.granted_function@ == "request_publish_game_result"@,
        plan.scheduled_function@ == "scheduled_try_resolve_unpublished_game_results"@,
        plan.ranking@ == ranking_update(
            me@,
            None,
            my_entry_hash@,
            params.initial_rating as int,
        ),
{
    let ranking = put_elo_rating_in_ranking(my_entry_hash, me, None, params.initial_rating);
    InitPlan {
        granted_function: request_function_name(),
        ranking,
        scheduled_function: scheduled_function_name(),
    }
}

/// An element of the own chain that holds a record.
#[derive(Debug)]
pub struct ChainElement {
    pub header_hash: ContentHash,
    /// The content address of the entry, if the header names one.
    pub entry_hash: Option<ContentHash>,
}

/// The entries of the elements whose header is one of `header_hashes`, in
/// the order of the elements. An element whose header names no entry is
/// passed over.
pub open spec fn committed_entries(
    elements: Seq<ChainElement>,
    header_hashes: Seq<Seq<u8>>,
) -> Seq<Seq<u8>>
    decreases elements.len(),
{
    if elements.len() == 0 {
        Seq::empty()
    } else {
        let rest = committed_entries(elements.drop_last(), header_hashes);
        match elements.last().entry_hash {
            Some(h) => if header_hashes.contains(elements.last().header_hash@) {
                rest.push(h@)
            } else {
                rest
            },
            None => rest,
        }
    }
}

/// The entries to index after a commit: those of the own records whose
/// header was just committed. `elements` are the records of the own chain,
/// `header_hashes` the headers of the commit. Where the result is empty,
/// nothing is to be indexed.
pub fn post_commit_elo(
    elements: &Vec<ChainElement>,
    header_hashes: &Vec<ContentHash>,
) -> (new_entry_hashes: Vec<ContentHash>)
    ensures
        view_hashes(new_entry_hashes@) == committed_entries(elements@, view_hashes(header_hashes@)),
{
    let mut found: Vec<ContentHash> = Vec::new();
    let n: usize = elements.len();
    let mut i: usize = 0;
    assert(elements@.take(0) =~= Seq::empty());
    assert(view_hashes(found@) =~= Seq::empty());
    while i < n
        invariant
            n == elements@.len(),
            i <= n,
            view_hashes(found@) == committed_entries(
                elements@.take(i as int),
                view_hashes(header_hashes@),
            ),
        decreases n - i,
    {
        let ghost before = view_hashes(found@);
        assert(elements@.take(i + 1).drop_last() =~= elements@.take(i as int));
        assert(elements@.take(i + 1).last() == elements@[i as int]);
        match &elements[i].entry_hash {
            Some(h) => {
                if contains_hash(header_hashes, &elements[i].header_hash) {
                    found.push(h.duplicate());
                    assert(view_hashes(found@) =~= before.push(h@));
                }
            },
            None => {},
        }
        i = i + 1;
    }
    assert(elements@.take(n as int) =~= elements@);
    found
}

/// Opens a session for a game that `me` has finished against
/// `opponent_address` and builds its first candidate. The session has the
/// policy's number of retries.
///
/// The policy's `validate_game_result` is asked about the game's data and
/// the game facts, and the session and the action are what [`proposed`]
/// gives for a fresh session and for what the policy answered.
pub fn attempt_create_countersigned_game_result<S: EloRatingSystem>(
    params: &EloParameters,
    game_info: Vec<u8>,
    me: Participant,
    opponent_address: Participant,
    my_score: Score,
    my_previous: &Option<CommittedResult>,
    opponent_previous: &Option<CommittedResult>,
    new_ratings: (EloRating, EloRating),
) -> (started: (Session, SessionAction))
    ensures
        ({
            let fresh = SessionView {
                game_info: game_info@,
                me: me@,
                opponent: opponent_address@,
                my_score,
                retries_left: params.stale_retries,
                phase: SessionPhase::Building,
                candidate: None,
            };
            exists|info: GameResultInfo, game: DomainVerdict|
                is_game_facts_of(info, fresh) && #[trigger] call_ensures(
                    S::validate_game_result,
                    (&game_info, &info),
                    game,
                ) && (started.0@, started.1@) == proposed(
                    fresh,
                    game is Invalid,
                    view_head(*my_previous),
                    view_head(*opponent_previous),
                    params.initial_rating,
                    params.k_factor,
                    new_ratings,
                )
        }),
{
    let mut session = Session::new(game_info, me, opponent_address, my_score, params.stale_retries);
    let action = try_create_countersigned_game_result::<S>(
        params,
        &mut session,
        my_previous,
        opponent_previous,
        new_ratings,
    );
    (session, action)
}

/// A record that one player writes alone, and the player for whom it is
/// flagged as waiting.
#[derive(Debug)]
pub struct UnilateralPlan {
    pub game_result: GameResult,
    /// The other player of the record.
    pub flag_for: Participant,
}

/// Plans writing `game_result` by `me` alone: the record is created and
/// flagged as waiting for the other player. Fails with `NotAParticipant`
/// exactly if `me` is not a player of the record.
pub fn create_unilateral_game_result_and_flag(game_result: GameResult, me: &Participant) -> (plan:
    Result<UnilateralPlan, EloError>)
    ensures
        match game_result@.opponent_of(me@) {
            Some(opponent) => plan matches Ok(p) && p.game_result@ == game_result@ && p.flag_for@
                == opponent,
            None => plan matches Err(e) && e == EloError::NotAParticipant,
        },
{
    match game_result.opponent(me) {
        Ok(opponent) => Ok(UnilateralPlan { game_result, flag_for: opponent }),
        Err(e) => Err(e),
    }
}

/// Builds the record of a game that `me` has finished against
/// `opponent_address` and plans writing it alone, flagged for the opponent.
/// `new_ratings` is the answer of the rating formula for the ratings of the
/// two heads.
pub fn create_game_result_and_flag(
    params: &EloParameters,
    game_info: &Vec<u8>,
    me: &Participant,
    opponent_address: &Participant,
    my_score: Score,
    my_previous: &Option<CommittedResult>,
    opponent_previous: &Option<CommittedResult>,
    new_ratings: (EloRating, EloRating),
) -> (plan: Result<UnilateralPlan, EloError>)
    ensures
        match rating_inputs_spec(
            me@,
            opponent_address@,
            my_score,
            view_head(*my_previous),
            view_head(*opponent_previous),
            params.initial_rating,
            params.k_factor,
        ) {
            Ok(_) => plan matches Ok(p) && p.flag_for@ == opponent_address@ && p.game_result@
                == assembled(
                game_info@,
                me@,
                opponent_address@,
                my_score,
                view_head(*my_previous),
                view_head(*opponent_previous),
                new_ratings,
            ),
            Err(e) => plan matches Err(f) && f == e,
        },
{
    match build_new_game_result(
        params,
        game_info,
        me,
        opponent_address,
        my_score,
        my_previous,
        opponent_previous,
        new_ratings,
    ) {
        Ok(game_result) => create_unilateral_game_result_and_flag(game_result, me),
        Err(e) => Err(e),
    }
}

} // verus!
