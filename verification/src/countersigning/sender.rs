//! The initiating side of a session, as a machine that is told what
//! happened and says what to do next. The caller reads the chains, runs the
//! rating formula, talks to the counterparty and writes to the store.
//!
//! A session starts in `Building`. A candidate record is built and proposed,
//! and the session waits in `AwaitingCounterparty`. The counterparty's half
//! of the authorisation commits the record; a stale proposal is built again
//! as long as retries are left; anything else ends the session in `Failed`,
//! and the game is kept among the results that wait.

use crate::countersigning::common::{
    HalfAuthorization, HalfAuthorizationView, PublishGameResultResponse,
    PublishGameResultResponseView,
};
use crate::elo_rating::rating_inputs_spec;
use crate::elo_rating_system::{DomainVerdict, EloParameters, EloRating, EloRatingSystem};
use crate::error::EloError;
use crate::game_result::handlers::{assembled, build_new_game_result};
use crate::game_result::validation::{structure_verdict, VerdictView};
use crate::game_result::{
    view_head, CommittedResult, CommittedResultView, GameResult, GameResultInfo, GameResultView,
};
use crate::identity::{bytes_copy, ContentHash, Participant};
use crate::score::Score;
use crate::unpublished::{UnpublishedGameResult, UnpublishedGameResultView};
use vstd::prelude::*;

verus! {

/// How an attempt to commit the record of a game ended.
#[derive(Debug)]
pub enum CreateGameResultOutcome {
    /// The record is committed under this content address.
    Published { game_result_hash: ContentHash },
    /// The record could not be committed now; the game is kept among the
    /// results that wait and will be tried again.
    Scheduled,
}

/// Where a session stands.
#[derive(Clone, Copy, Debug, PartialEq, Eq, Structural)]
pub enum SessionPhase {
    Building,
    AwaitingCounterparty,
    Committed,
    Failed,
}

/// One attempt of `me` to commit the record of a finished game against
/// `opponent`.
#[derive(Debug)]
pub struct Session {
    pub game_info: Vec<u8>,
    pub me: Participant,
    pub opponent: Participant,
    pub my_score: Score,
    /// How often the candidate may still be built again after the
    /// counterparty has called it stale.
    pub retries_left: u32,
    pub phase: SessionPhase,
    /// The record that is proposed, once one has been built.
    pub candidate: Option<GameResult>,
}

/// A [`Session`] as a mathematical value.
pub struct SessionView {
    pub game_info: Seq<u8>,
    pub me: Seq<u8>,
    pub opponent: Seq<u8>,
    pub my_score: Score,
    pub retries_left: u32,
    pub phase: SessionPhase,
    pub candidate: Option<GameResultView>,
}

/// The view of an optional record.
pub open spec fn view_opt_record(g: Option<GameResult>) -> Option<GameResultView> {
    match g {
        Some(x) => Some(x@),
        None => None,
    }
}

impl View for Session {
    type V = SessionView;

    open spec fn view(&self) -> SessionView {
        SessionView {
            game_info: self.game_info@,
            me: self.me@,
            opponent: self.opponent@,
            my_score: self.my_score,
            retries_left: self.retries_left,
            phase: self.phase,
            candidate: view_opt_record(self.candidate),
        }
    }
}

impl SessionView {
    /// The game of this session as a result that waits.
    pub open spec fn pending(self) -> UnpublishedGameResultView {
        UnpublishedGameResultView {
            game_info: self.game_info,
            opponent_address: self.opponent,
            my_score: self.my_score,
        }
    }

    /// The session in another phase.
    pub open spec fn in_phase(self, phase: SessionPhase) -> SessionView {
        SessionView { phase, ..self }
    }

    /// Whether the session is over.
    pub open spec fn is_over(self) -> bool {
        self.phase == SessionPhase::Committed || self.phase == SessionPhase::Failed
    }
}

/// What the caller is to do next.
#[derive(Debug)]
pub enum SessionAction {
    /// Nothing: what was reported does not apply to the phase of the session.
    Nothing,
    /// Give up and report this error to whoever asked for the record.
    Abort(EloError),
    /// Sign this candidate and send it to the counterparty.
    Propose(GameResult),
    /// Read the counterparty's record with this address and build the
    /// candidate again on top of it.
    Rebuild { opponent_latest: ContentHash },
    /// Commit the record with both halves of the authorisation.
    Commit { game_result: GameResult, mine: HalfAuthorization, theirs: HalfAuthorization },
    /// Keep the game among the results that wait, and report it as scheduled.
    Schedule(UnpublishedGameResult),
}

/// A [`SessionAction`] as a mathematical value.
pub enum SessionActionView {
    Nothing,
    Abort(EloError),
    Propose(GameResultView),
    Rebuild { opponent_latest: Seq<u8> },
    Commit { game_result: GameResultView, mine: HalfAuthorizationView, theirs: HalfAuthorizationView },
    Schedule(UnpublishedGameResultView),
}

impl View for SessionAction {
    type V = SessionActionView;

    open spec fn view(&self) -> SessionActionView {
        match self {
            SessionAction::Nothing => SessionActionView::Nothing,
            SessionAction::Abort(e) => SessionActionView::Abort(*e),
            SessionAction::Propose(g) => SessionActionView::Propose(g@),
            SessionAction::Rebuild { opponent_latest } => SessionActionView::Rebuild {
                opponent_latest: opponent_latest@,
            },
            SessionAction::Commit { game_result, mine, theirs } => SessionActionView::Commit {
                game_result: game_result@,
                mine: mine@,
                theirs: theirs@,
            },
            SessionAction::Schedule(p) => SessionActionView::Schedule(p@),
        }
    }
}

/// What came back from the counterparty.
#[derive(Debug)]
pub enum CounterpartyReply {
    Answered(PublishGameResultResponse),
    /// No answer within the time of the session, or none at all.
    TransportFailure,
}

/// A [`CounterpartyReply`] as a mathematical value.
pub enum CounterpartyReplyView {
    Answered(PublishGameResultResponseView),
    TransportFailure,
}

impl View for CounterpartyReply {
    type V = CounterpartyReplyView;

    open spec fn view(&self) -> CounterpartyReplyView {
        match self {
            CounterpartyReply::Answered(r) => CounterpartyReplyView::Answered(r@),
            CounterpartyReply::TransportFailure => CounterpartyReplyView::TransportFailure,
        }
    }
}

/// The session and the action after a candidate was built in `Building`.
///
/// `refused` tells whether the rules of the game refuse the game facts;
/// they are asked first. Then the candidate is built on the two heads with
/// the ratings `new_ratings`. A session in another phase stays as it is.
pub open spec fn proposed(
    s: SessionView,
    refused: bool,
    my_previous: Option<CommittedResultView>,
    opponent_previous: Option<CommittedResultView>,
    initial: EloRating,
    k: u32,
    new_ratings: (EloRating, EloRating),
) -> (SessionView, SessionActionView) {
    if s.phase != SessionPhase::Building {
        (s, SessionActionView::Nothing)
    } else if refused {
        (s.in_phase(SessionPhase::Failed), SessionActionView::Abort(EloError::DomainRejected))
    } else {
        match rating_inputs_spec(
            s.me,
            s.opponent,
            s.my_score,
            my_previous,
            opponent_previous,
            initial,
            k,
        ) {
            Err(e) => (s.in_phase(SessionPhase::Failed), SessionActionView::Abort(e)),
            Ok(_) => {
                let g = assembled(
                    s.game_info,
                    s.me,
                    s.opponent,
                    s.my_score,
                    my_previous,
                    opponent_previous,
                    new_ratings,
                );
                (
                    SessionView {
                        phase: SessionPhase::AwaitingCounterparty,
                        candidate: Some(g),
                        ..s
                    },
                    SessionActionView::Propose(g),
                )
            },
        }
    }
}

/// The session and the action after the counterparty's reply, where
/// `my_half` is the initiator's own half of the authorisation.
///
/// Only a session that waits with a candidate reacts. The counterparty's
/// half commits the candidate if both halves sign off the same content
/// address. A stale proposal sends the session back to `Building` with one
/// retry less, as long as one is left. Everything else ends the session in
/// `Failed`, with its game to be kept among the results that wait.
pub open spec fn replied(
    s: SessionView,
    reply: CounterpartyReplyView,
    my_half: HalfAuthorizationView,
) -> (SessionView, SessionActionView) {
    if s.phase != SessionPhase::AwaitingCounterparty {
        (s, SessionActionView::Nothing)
    } else {
        match s.candidate {
            None => (s, SessionActionView::Nothing),
            Some(g) => match reply {
                CounterpartyReplyView::Answered(
                    PublishGameResultResponseView::InSession(theirs),
                ) => if my_half.target == theirs.target {
                    (
                        s.in_phase(SessionPhase::Committed),
                        SessionActionView::Commit { game_result: g, mine: my_half, theirs },
                    )
                } else {
                    (s.in_phase(SessionPhase::Failed), SessionActionView::Schedule(s.pending()))
                },
                CounterpartyReplyView::Answered(
                    PublishGameResultResponseView::OutdatedLastGameResult {
                        latest_game_result_hash,
                    },
                ) => if s.retries_left > 0 {
                    (
                        SessionView {
                            phase: SessionPhase::Building,
                            candidate: None,
                            retries_left: (s.retries_left - 1) as u32,
                            ..s
                        },
                        SessionActionView::Rebuild { opponent_latest: latest_game_result_hash },
                    )
                } else {
                    (s.in_phase(SessionPhase::Failed), SessionActionView::Schedule(s.pending()))
                },
                CounterpartyReplyView::TransportFailure => (
                    s.in_phase(SessionPhase::Failed),
                    SessionActionView::Schedule(s.pending()),
                ),
            },
        }
    }
}

impl Session {
    /// A session for a game that `me` has finished against `opponent`, in
    /// `Building`, with `stale_retries` retries.
    pub fn new(
        game_info: Vec<u8>,
        me: Participant,
        opponent: Participant,
        my_score: Score,
        stale_retries: u32,
    ) -> (session: Session)
        ensures
            session@ == (SessionView {
                game_info: game_info@,
                me: me@,
                opponent: opponent@,
                my_score,
                retries_left: stale_retries,
                phase: SessionPhase::Building,
                candidate: None,
            }),
            session.game_info == game_info,
    {
        Session {
            game_info,
            me,
            opponent,
            my_score,
            retries_left: stale_retries,
            phase: SessionPhase::Building,
            candidate: None,
        }
    }

    /// The game of this session as a result that waits.
    pub fn pending_result(&self) -> (pending: UnpublishedGameResult)
        ensures
            pending@ == self@.pending(),
    {
        UnpublishedGameResult {
            game_info: bytes_copy(&self.game_info),
            opponent_address: self.opponent.duplicate(),
            my_score: self.my_score,
        }
    }

    /// Builds the candidate on the two heads and moves the session on, given
    /// what the rules of the game said of the game facts.
    pub fn propose(
        &mut self,
        params: &EloParameters,
        game: &DomainVerdict,
        my_previous: &Option<CommittedResult>,
        opponent_previous: &Option<CommittedResult>,
        new_ratings: (EloRating, EloRating),
    ) -> (action: SessionAction)
        ensures
            (final(self)@, action@) == proposed(
                old(self)@,
                *game is Invalid,
                view_head(*my_previous),
                view_head(*opponent_previous),
                params.initial_rating,
                params.k_factor,
                new_ratings,
            ),
    {
        match self.phase {
            SessionPhase::Building => {},
            _ => {
                return SessionAction::Nothing;
            },
        }
        match game {
            DomainVerdict::Valid => {},
            DomainVerdict::Invalid(_) => {
                self.phase = SessionPhase::Failed;
                return SessionAction::Abort(EloError::DomainRejected);
            },
        }
        match build_new_game_result(
            params,
            &self.game_info,
            &self.me,
            &self.opponent,
            self.my_score,
            my_previous,
            opponent_previous,
            new_ratings,
        ) {
            Err(e) => {
                self.phase = SessionPhase::Failed;
                SessionAction::Abort(e)
            },
            Ok(candidate) => {
                let copy = candidate.duplicate();
                self.phase = SessionPhase::AwaitingCounterparty;
                self.candidate = Some(candidate);
                SessionAction::Propose(copy)
            },
        }
    }
}

/// Checks that both halves sign off the same content address. Only then may
/// the record be committed, under that address.
pub fn create_countersigned_game_result(
    mine: &HalfAuthorization,
    theirs: &HalfAuthorization,
) -> (outcome: Option<CreateGameResultOutcome>)
    ensures
        mine@.target == theirs@.target ==> (outcome matches Some(
            CreateGameResultOutcome::Published { game_result_hash },
        ) && game_result_hash@ == mine@.target),
        mine@.target != theirs@.target ==> outcome is None,
{
    if mine.target.same(&theirs.target) {
        Some(CreateGameResultOutcome::Published { game_result_hash: mine.target.duplicate() })
    } else {
        None
    }
}

/// Whether `info` holds the game facts of the session: the initiator as the
/// first player, the opponent as the second, and the initiator's score.
pub open spec fn is_game_facts_of(info: GameResultInfo, s: SessionView) -> bool {
    &&& info.player_a@ == s.me
    &&& info.player_b@ == s.opponent
    &&& info.score_player_a == s.my_score
}

/// The game facts of the session, as the rules of the game are shown them.
pub fn game_facts(session: &Session) -> (info: GameResultInfo)
    ensures
        is_game_facts_of(info, session@),
{
    GameResultInfo {
        player_a: session.me.duplicate(),
        player_b: session.opponent.duplicate(),
        score_player_a: session.my_score,
    }
}

/// Starts or resumes the building of a candidate: asks the policy's
/// `validate_game_result` about the game's data and the game facts of the
/// session, builds the candidate on the two heads with the ratings
/// `new_ratings`, and says what to do next.
///
/// The session and the action are what [`proposed`] gives for what the
/// policy answered: a game that the policy refuses aborts the session, and
/// one that it accepts is built and proposed. A session outside `Building`
/// stays as it is.
pub fn try_create_countersigned_game_result<S: EloRatingSystem>(
    params: &EloParameters,
    session: &mut Session,
    my_previous: &Option<CommittedResult>,
    opponent_previous: &Option<CommittedResult>,
    new_ratings: (EloRating, EloRating),
) -> (action: SessionAction)
    ensures
        exists|info: GameResultInfo, game: DomainVerdict|
            is_game_facts_of(info, old(session)@) && #[trigger] call_ensures(
                S::validate_game_result,
                (&old(session).game_info, &info),
                game,
            ) && (final(session)@, action@) == proposed(
                old(session)@,
                game is Invalid,
                view_head(*my_previous),
                view_head(*opponent_previous),
                params.initial_rating,
                params.k_factor,
                new_ratings,
            ),
{
    let info = game_facts(session);
    let game = S::validate_game_result(&session.game_info, &info);
    let ghost data = session.game_info;
    let action = session.propose(params, &game, my_previous, opponent_previous, new_ratings);
    proof {
        assert(call_ensures(S::validate_game_result, (&data, &info), game));
    }
    action
}

/// Takes the counterparty's reply to the proposal and says what to do next.
/// `my_half` is the initiator's own half of the authorisation.
pub fn send_publish_game_result_request(
    session: &mut Session,
    reply: &CounterpartyReply,
    my_half: &HalfAuthorization,
) -> (action: SessionAction)
    ensures
        (final(session)@, action@) == replied(old(session)@, reply@, my_half@),
{
    match session.phase {
        SessionPhase::AwaitingCounterparty => {},
        _ => {
            return SessionAction::Nothing;
        },
    }
    let candidate = match &session.candidate {
        Some(g) => g.duplicate(),
        None => {
            return SessionAction::Nothing;
        },
    };
    match reply {
        CounterpartyReply::Answered(PublishGameResultResponse::InSession(theirs)) => {
            match create_countersigned_game_result(my_half, theirs) {
                Some(_) => {
                    session.phase = SessionPhase::Committed;
                    SessionAction::Commit {
                        game_result: candidate,
                        mine: my_half.duplicate(),
                        theirs: theirs.duplicate(),
                    }
                },
                None => {
                    let pending = session.pending_result();
                    session.phase = SessionPhase::Failed;
                    SessionAction::Schedule(pending)
                },
            }
        },
        CounterpartyReply::Answered(
            PublishGameResultResponse::OutdatedLastGameResult { latest_game_result_hash },
        ) => {
            if session.retries_left > 0 {
                session.retries_left = session.retries_left - 1;
                session.phase = SessionPhase::Building;
                session.candidate = None;
                SessionAction::Rebuild { opponent_latest: latest_game_result_hash.duplicate() }
            } else {
                let pending = session.pending_result();
                session.phase = SessionPhase::Failed;
                SessionAction::Schedule(pending)
            }
        },
        CounterpartyReply::TransportFailure => {
            let pending = session.pending_result();
            session.phase = SessionPhase::Failed;
            SessionAction::Schedule(pending)
        },
    }
}

/// How the attempt ended, if the action ends it: a commit publishes the
/// record under the content address that both halves sign off, and a game
/// that is kept to wait is scheduled.
pub fn outcome_of(action: &SessionAction) -> (outcome: Option<CreateGameResultOutcome>)
    ensures
        match action@ {
            SessionActionView::Commit { game_result, mine, theirs } => outcome matches Some(
                CreateGameResultOutcome::Published { game_result_hash },
            ) && game_result_hash@ == mine.target,
            SessionActionView::Schedule(_) => outcome matches Some(
                CreateGameResultOutcome::Scheduled,
            ),
            _ => outcome is None,
        },
{
    match action {
        SessionAction::Commit { game_result: _, mine, theirs: _ } => Some(
            CreateGameResultOutcome::Published { game_result_hash: mine.target.duplicate() },
        ),
        SessionAction::Schedule(_) => Some(CreateGameResultOutcome::Scheduled),
        _ => None,
    }
}

/// A session commits at most once: once it is over, no reply moves it and
/// no action follows, so that no second record can come of the same game.
pub proof fn finished_session_stays(
    s: SessionView,
    reply: CounterpartyReplyView,
    my_half: HalfAuthorizationView,
    refused: bool,
    my_previous: Option<CommittedResultView>,
    opponent_previous: Option<CommittedResultView>,
    initial: EloRating,
    k: u32,
    new_ratings: (EloRating, EloRating),
)
    requires
        s.is_over(),
    ensures
        replied(s, reply, my_half) == (s, SessionActionView::Nothing),
        proposed(s, refused, my_previous, opponent_previous, initial, k, new_ratings) == (
            s,
            SessionActionView::Nothing,
        ),
{
}

/// The record that a session commits is the candidate that it proposed,
/// and a commit ends the session.
pub proof fn commit_is_of_the_candidate(
    s: SessionView,
    reply: CounterpartyReplyView,
    my_half: HalfAuthorizationView,
)
    requires
        replied(s, reply, my_half).1 is Commit,
    ensures
        s.phase == SessionPhase::AwaitingCounterparty,
        s.candidate == Some(replied(s, reply, my_half).1->Commit_game_result),
        replied(s, reply, my_half).0.phase == SessionPhase::Committed,
        replied(s, reply, my_half).1->Commit_mine.target == replied(s, reply, my_half).1->Commit_theirs.target,
{
}

/// The number of retries never grows, and a stale proposal is built again
/// only while a retry is left.
pub proof fn retries_are_bounded(
    s: SessionView,
    reply: CounterpartyReplyView,
    my_half: HalfAuthorizationView,
)
    ensures
        replied(s, reply, my_half).0.retries_left <= s.retries_left,
        replied(s, reply, my_half).1 is Rebuild ==> s.retries_left > 0 && replied(
            s,
            reply,
            my_half,
        ).0.retries_left == s.retries_left - 1,
{
}

/// What a session proposes is a record of its own game: the initiator is
/// the first player and the opponent the second, the score and the game's
/// data are those of the session, each side links to the head that was
/// given, and the record passes the check of what a record alone shows,
/// with the initiator as its author. The session keeps it as its candidate.
pub proof fn proposed_candidate_is_of_the_session(
    s: SessionView,
    refused: bool,
    my_previous: Option<CommittedResultView>,
    opponent_previous: Option<CommittedResultView>,
    initial: EloRating,
    k: u32,
    new_ratings: (EloRating, EloRating),
)
    requires
        proposed(s, refused, my_previous, opponent_previous, initial, k, new_ratings).1 is Propose,
    ensures
        ({
            let after = proposed(
                s,
                refused,
                my_previous,
                opponent_previous,
                initial,
                k,
                new_ratings,
            );
            let g = after.1->Propose_0;
            &&& g == assembled(
                s.game_info,
                s.me,
                s.opponent,
                s.my_score,
                my_previous,
                opponent_previous,
                new_ratings,
            )
            &&& g.well_formed()
            &&& structure_verdict(g, s.me) == VerdictView::Valid
            &&& after.0.candidate == Some(g)
            &&& after.0.phase == SessionPhase::AwaitingCounterparty
            &&& after.0.retries_left == s.retries_left
        }),
{
}

} // verus!
