//! The responding side: it signs a proposal only if the proposal builds on
//! the latest record that the responder itself holds.

use crate::elo_rating_system::{DomainVerdict, EloRating, EloRatingSystem};
use crate::game_result::chain::{declares, head_of, is_chain_of, lemma_chain_grows};
use crate::game_result::handlers::assembled;
use crate::score::Score;
use crate::error::EloError;
use crate::game_result::{
    link_to, view_head, CommittedResult, CommittedResultView, GameResult, GameResultInfo,
    GameResultView,
};
use crate::identity::{ContentHash, Participant};
use vstd::prelude::*;

verus! {

/// Whether a proposal links to an older record than the responder holds.
#[derive(Debug)]
pub enum IsGameResultHashOutdated {
    Yes { latest_game_result_hash: ContentHash },
    No,
}

/// The staleness of the link that the proposal `g` declares for `me`, held
/// against the head of the responder's own chain.
///
/// The proposal is current if its link is the address of the head, or if
/// there is neither link nor head. It is outdated, and the head's address
/// the correction, if the head is another record than the link names or the
/// proposal declares no link. A link where the responder holds no record
/// cannot be corrected.
pub open spec fn staleness(
    g: GameResultView,
    me: Seq<u8>,
    my_latest: Option<CommittedResultView>,
) -> Result<Option<Seq<u8>>, EloError> {
    match g.update_for(me) {
        None => Err(EloError::NotAParticipant),
        Some(update) => match (update.previous_game_result, my_latest) {
            (None, None) => Ok(None),
            (Some(declared), Some(head)) => if declared == head.header_hash {
                Ok(None)
            } else {
                Ok(Some(head.header_hash))
            },
            (None, Some(head)) => Ok(Some(head.header_hash)),
            (Some(_), None) => Err(EloError::StaleReference),
        },
    }
}

/// Compares the link that the proposal declares for `me` with the head of
/// the responder's own chain.
pub fn is_request_game_result_hash_outdated(
    game_result: &GameResult,
    me: &Participant,
    my_latest: &Option<CommittedResult>,
) -> (outdated: Result<IsGameResultHashOutdated, EloError>)
    ensures
        match staleness(game_result@, me@, view_head(*my_latest)) {
            Ok(None) => outdated matches Ok(IsGameResultHashOutdated::No),
            Ok(Some(latest)) => outdated matches Ok(
                IsGameResultHashOutdated::Yes { latest_game_result_hash },
            ) && latest_game_result_hash@ == latest,
            Err(e) => outdated matches Err(f) && f == e,
        },
{
    let my_elo_update = match game_result.elo_update_for(me) {
        Some(u) => u,
        None => {
            return Err(EloError::NotAParticipant);
        },
    };
    match (&my_elo_update.previous_game_result, my_latest) {
        (None, None) => Ok(IsGameResultHashOutdated::No),
        (Some(declared), Some(head)) => {
            if declared.same(&head.header_hash) {
                Ok(IsGameResultHashOutdated::No)
            } else {
                Ok(
                    IsGameResultHashOutdated::Yes {
                        latest_game_result_hash: head.header_hash.duplicate(),
                    },
                )
            }
        },
        (None, Some(head)) => Ok(
            IsGameResultHashOutdated::Yes { latest_game_result_hash: head.header_hash.duplicate() },
        ),
        (Some(_), None) => Err(EloError::StaleReference),
    }
}

/// What the responder does with a proposal.
#[derive(Debug)]
pub enum ResponderDecision {
    /// Issue the local half of the authorisation and return it. The
    /// responder commits nothing: the initiator does, with both halves.
    Sign,
    /// Answer that the proposal is stale, with the address of the
    /// responder's latest record. No half is issued.
    Outdated { latest_game_result_hash: ContentHash },
}

/// A [`ResponderDecision`] as a mathematical value.
pub enum ResponderDecisionView {
    Sign,
    Outdated { latest_game_result_hash: Seq<u8> },
}

impl View for ResponderDecision {
    type V = ResponderDecisionView;

    open spec fn view(&self) -> ResponderDecisionView {
        match self {
            ResponderDecision::Sign => ResponderDecisionView::Sign,
            ResponderDecision::Outdated { latest_game_result_hash } =>
                ResponderDecisionView::Outdated {
                    latest_game_result_hash: latest_game_result_hash@,
                },
        }
    }
}

/// The responder's decision on the proposal `candidate`, where `refused`
/// tells whether the rules of the game refuse it.
///
/// A proposal that does not decode is malformed. One that the game refuses
/// is rejected before the chain is looked at. Else the link decides.
pub open spec fn responder_decision(
    candidate: Option<GameResultView>,
    refused: bool,
    me: Seq<u8>,
    my_latest: Option<CommittedResultView>,
) -> Result<ResponderDecisionView, EloError> {
    match candidate {
        None => Err(EloError::MalformedRecord),
        Some(g) => if refused {
            Err(EloError::DomainRejected)
        } else {
            match staleness(g, me, my_latest) {
                Ok(None) => Ok(ResponderDecisionView::Sign),
                Ok(Some(latest)) => Ok(
                    ResponderDecisionView::Outdated { latest_game_result_hash: latest },
                ),
                Err(e) => Err(e),
            }
        },
    }
}

/// The view of a proposal as it was decoded.
pub open spec fn view_candidate(candidate: Option<GameResult>) -> Option<GameResultView> {
    match candidate {
        Some(g) => Some(g@),
        None => None,
    }
}

/// Decides on a proposal, given what the rules of the game said of it.
pub fn decide_on_request(
    candidate: &Option<GameResult>,
    game: &DomainVerdict,
    me: &Participant,
    my_latest: &Option<CommittedResult>,
) -> (decision: Result<ResponderDecision, EloError>)
    ensures
        match responder_decision(
            view_candidate(*candidate),
            *game is Invalid,
            me@,
            view_head(*my_latest),
        ) {
            Ok(d) => decision matches Ok(e) && e@ == d,
            Err(e) => decision matches Err(f) && f == e,
        },
{
    let game_result = match candidate {
        Some(g) => g,
        None => {
            return Err(EloError::MalformedRecord);
        },
    };
    match game {
        DomainVerdict::Valid => {},
        DomainVerdict::Invalid(_) => {
            return Err(EloError::DomainRejected);
        },
    }
    match is_request_game_result_hash_outdated(game_result, me, my_latest) {
        Ok(IsGameResultHashOutdated::No) => Ok(ResponderDecision::Sign),
        Ok(IsGameResultHashOutdated::Yes { latest_game_result_hash }) => Ok(
            ResponderDecision::Outdated { latest_game_result_hash },
        ),
        Err(e) => Err(e),
    }
}

/// Whether `info` holds the game facts of the record: its two players and
/// its score.
pub open spec fn is_game_facts_of(info: GameResultInfo, g: GameResultView) -> bool {
    &&& info.player_a@ == g.player_a.player_address
    &&& info.player_b@ == g.player_b.player_address
    &&& info.score_player_a == g.score_player_a
}

/// Answers a proposal that arrived from the initiator. `candidate` is the
/// proposed record as it was decoded from the proposal, `None` if it did not
/// decode; `my_latest` is the head of the responder's own chain.
///
/// A proposal that does not decode is malformed, and the policy is not
/// asked. Of every other the policy's `validate_game_result` is asked, with
/// the game's data and the game facts of the record, and the decision is
/// what [`responder_decision`] gives for what the policy answered: what the
/// game refuses is rejected, and else the responder signs a proposal that
/// links to its latest record and answers any other with the address of
/// that record.
pub fn handle_request_publish_game_result<S: EloRatingSystem>(
    candidate: &Option<GameResult>,
    me: &Participant,
    my_latest: &Option<CommittedResult>,
) -> (decision: Result<ResponderDecision, EloError>)
    ensures
        candidate is None ==> (decision matches Err(e) && e == EloError::MalformedRecord),
        candidate matches Some(g) ==> exists|info: GameResultInfo, game: DomainVerdict|
            is_game_facts_of(info, g@) && #[trigger] call_ensures(
                S::validate_game_result,
                (&g.game_info, &info),
                game,
            ) && (match responder_decision(Some(g@), game is Invalid, me@, view_head(*my_latest)) {
                Ok(d) => decision matches Ok(e) && e@ == d,
                Err(e) => decision matches Err(f) && f == e,
            }),
        decision matches Ok(ResponderDecision::Sign) ==> (candidate matches Some(g) && staleness(
            g@,
            me@,
            view_head(*my_latest),
        ) == Ok::<Option<Seq<u8>>, EloError>(None)),
{
    match candidate {
        Some(game_result) => {
            let info = GameResultInfo::new(game_result);
            let game = S::validate_game_result(&game_result.game_info, &info);
            let decision = decide_on_request(candidate, &game, me, my_latest);
            proof {
                assert(call_ensures(
                    S::validate_game_result,
                    (&game_result.game_info, &info),
                    game,
                ));
            }
            decision
        },
        None => decide_on_request(candidate, &DomainVerdict::Valid, me, my_latest),
    }
}

/// A proposal that was built without knowing the responder's latest record
/// is called stale, and the answer carries the address of that record: if
/// the responder `player_b` holds the head `latest` and the proposal was
/// built on another head for the responder, or on none, the staleness is
/// the address of `latest`.
pub proof fn stale_proposal_is_corrected(
    game_info: Seq<u8>,
    player_a: Seq<u8>,
    player_b: Seq<u8>,
    score_a: Score,
    head_a: Option<CommittedResultView>,
    assumed_b: Option<CommittedResultView>,
    latest: CommittedResultView,
    ratings: (EloRating, EloRating),
)
    requires
        player_a != player_b,
        assumed_b matches Some(c) ==> c.header_hash != latest.header_hash,
    ensures
        staleness(
            assembled(game_info, player_a, player_b, score_a, head_a, assumed_b, ratings),
            player_b,
            Some(latest),
        ) == Ok::<Option<Seq<u8>>, EloError>(Some(latest.header_hash)),
{
}

/// A proposal that is built on the responder's latest record is current:
/// the responder `player_b` signs what was built on its own head, be that a
/// record or none.
pub proof fn rebuilt_proposal_is_current(
    game_info: Seq<u8>,
    player_a: Seq<u8>,
    player_b: Seq<u8>,
    score_a: Score,
    head_a: Option<CommittedResultView>,
    head_b: Option<CommittedResultView>,
    ratings: (EloRating, EloRating),
)
    requires
        player_a != player_b,
    ensures
        staleness(
            assembled(game_info, player_a, player_b, score_a, head_a, head_b, ratings),
            player_b,
            head_b,
        ) == Ok::<Option<Seq<u8>>, EloError>(None),
        responder_decision(
            Some(assembled(game_info, player_a, player_b, score_a, head_a, head_b, ratings)),
            false,
            player_b,
            head_b,
        ) == Ok::<ResponderDecisionView, EloError>(ResponderDecisionView::Sign),
{
}

/// The responder signs only what extends its own chain: a proposal that it
/// finds current names the responder and declares the head of the
/// responder's chain, so that the record, once committed, is the new head
/// of a chain again.
pub proof fn signed_proposal_extends_the_chain(
    g: GameResultView,
    me: Seq<u8>,
    chain: Seq<CommittedResultView>,
    header_hash: Seq<u8>,
)
    requires
        is_chain_of(me, chain),
        staleness(g, me, head_of(chain)) == Ok::<Option<Seq<u8>>, EloError>(None),
    ensures
        declares(
            CommittedResultView { header_hash, game_result: g },
            me,
            link_to(head_of(chain)),
        ),
        is_chain_of(me, chain.push(CommittedResultView { header_hash, game_result: g })),
{
    lemma_chain_grows(me, chain, CommittedResultView { header_hash, game_result: g });
}

} // verus!
