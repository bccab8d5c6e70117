//! What the two sides of a session exchange.

use crate::error::EloError;
use crate::game_result::GameResult;
use crate::identity::{bytes_copy, ContentHash, Participant};
use vstd::prelude::*;

verus! {

/// The time that a session stays open, in milliseconds.
pub const SESSION_MILLIS: u64 = 5_000;

/// One party's sign-off on a proposed record.
#[derive(Debug)]
pub struct HalfAuthorization {
    pub signer: Participant,
    /// The content address of the record that is signed off.
    pub target: ContentHash,
    /// The signature, opaque to the ledger.
    pub signature: Vec<u8>,
}

/// A [`HalfAuthorization`] as a mathematical value.
pub struct HalfAuthorizationView {
    pub signer: Seq<u8>,
    pub target: Seq<u8>,
    pub signature: Seq<u8>,
}

impl View for HalfAuthorization {
    type V = HalfAuthorizationView;

    open spec fn view(&self) -> HalfAuthorizationView {
        HalfAuthorizationView {
            signer: self.signer@,
            target: self.target@,
            signature: self.signature@,
        }
    }
}

impl HalfAuthorization {
    pub fn duplicate(&self) -> (copy: HalfAuthorization)
        ensures
            copy@ == self@,
    {
        HalfAuthorization {
            signer: self.signer.duplicate(),
            target: self.target.duplicate(),
            signature: bytes_copy(&self.signature),
        }
    }
}

/// The counterparty's answer to a proposal.
#[derive(Debug)]
pub enum PublishGameResultResponse {
    /// The counterparty signs: here is its half.
    InSession(HalfAuthorization),
    /// The counterparty holds a later record than the proposal links to.
    OutdatedLastGameResult { latest_game_result_hash: ContentHash },
}

/// A [`PublishGameResultResponse`] as a mathematical value.
pub enum PublishGameResultResponseView {
    InSession(HalfAuthorizationView),
    OutdatedLastGameResult { latest_game_result_hash: Seq<u8> },
}

impl View for PublishGameResultResponse {
    type V = PublishGameResultResponseView;

    open spec fn view(&self) -> PublishGameResultResponseView {
        match self {
            PublishGameResultResponse::InSession(half) => PublishGameResultResponseView::InSession(
                half@,
            ),
            PublishGameResultResponse::OutdatedLastGameResult { latest_game_result_hash } =>
                PublishGameResultResponseView::OutdatedLastGameResult {
                    latest_game_result_hash: latest_game_result_hash@,
                },
        }
    }
}

/// A proposal to sign a record together: which record, who signs and in
/// which order, for how long the session stays open, and the record itself
/// in its serialised form.
#[derive(Debug)]
pub struct PreflightPlan {
    /// The content address of the proposed record.
    pub target: ContentHash,
    /// The initiator.
    pub first_signer: Participant,
    /// The counterparty.
    pub second_signer: Participant,
    /// The time that the session stays open, in milliseconds.
    pub session_millis: u64,
    /// The proposed record, serialised.
    pub preflight_bytes: Vec<u8>,
}

/// Plans the proposal of `game_result` by `me`. The caller supplies the
/// content address and the serialised form of the record.
///
/// The initiator signs first and the other player of the record second; the
/// session stays open for [`SESSION_MILLIS`]. Fails with `NotAParticipant`
/// exactly if `me` is not a player of the record.
pub fn build_game_result_preflight(
    game_result: &GameResult,
    me: &Participant,
    game_result_hash: &ContentHash,
    serialized: &Vec<u8>,
) -> (plan: Result<PreflightPlan, EloError>)
    ensures
        match game_result@.opponent_of(me@) {
            Some(opponent) => plan matches Ok(p) && p.target@ == game_result_hash@
                && p.first_signer@ == me@ && p.second_signer@ == opponent && p.session_millis
                == SESSION_MILLIS && p.preflight_bytes@ == serialized@,
            None => plan matches Err(e) && e == EloError::NotAParticipant,
        },
{
    match game_result.opponent(me) {
        Ok(opponent) => Ok(
            PreflightPlan {
                target: game_result_hash.duplicate(),
                first_signer: me.duplicate(),
                second_signer: opponent,
                session_millis: SESSION_MILLIS,
                preflight_bytes: bytes_copy(serialized),
            },
        ),
        Err(e) => Err(e),
    }
}

} // verus!
