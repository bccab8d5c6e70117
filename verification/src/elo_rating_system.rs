//! The policy of a game: where ratings start, how far one game moves them,
//! and which results the game's own rules accept.

use crate::game_result::GameResultInfo;
use vstd::prelude::*;

pub use skill_rating::elo::EloRating;

verus! {

/// The rating of a player who has not played any game, unless the policy
/// says otherwise.
pub const DEFAULT_INITIAL_RATING: EloRating = 1000;

/// The largest gain or loss of rating in one game, unless the policy says
/// otherwise.
pub const DEFAULT_K_FACTOR: u32 = 32;

/// The minutes between two attempts to publish the results that wait, unless
/// the policy says otherwise.
pub const DEFAULT_RETRY_INTERVAL_IN_MINS: u32 = 1;

/// The number of times a proposal is rebuilt after the counterparty has
/// reported a later record, unless the policy says otherwise.
pub const DEFAULT_STALE_RETRIES: u32 = 1;

/// What the rules of a game say of a result.
#[derive(Debug)]
pub enum DomainVerdict {
    Valid,
    /// The result is refused, with the reason in words.
    Invalid(String),
}

/// The numbers of a policy.
#[derive(Clone, Copy, Debug, PartialEq, Eq, Structural)]
pub struct EloParameters {
    /// The rating of a player who has not played any game.
    pub initial_rating: EloRating,
    /// The largest gain or loss of rating that one game can bring.
    pub k_factor: u32,
    /// The minutes between two attempts to publish the results that wait.
    pub retry_interval_in_mins: u32,
    /// How often a proposal is built again after the counterparty has
    /// called it stale.
    pub stale_retries: u32,
}

impl EloParameters {
    /// The usual numbers: players start at 1000, a game moves at most 32
    /// points, waiting results are tried every minute, and a stale proposal
    /// is built again once.
    pub fn standard() -> (params: EloParameters)
        ensures
            params == (EloParameters {
                initial_rating: DEFAULT_INITIAL_RATING,
                k_factor: DEFAULT_K_FACTOR,
                retry_interval_in_mins: DEFAULT_RETRY_INTERVAL_IN_MINS,
                stale_retries: DEFAULT_STALE_RETRIES,
            }),
    {
        EloParameters {
            initial_rating: DEFAULT_INITIAL_RATING,
            k_factor: DEFAULT_K_FACTOR,
            retry_interval_in_mins: DEFAULT_RETRY_INTERVAL_IN_MINS,
            stale_retries: DEFAULT_STALE_RETRIES,
        }
    }
}

/// The policy that a game supplies to the ledger. Only the rules of the
/// game have to be supplied; the numbers have the usual values unless the
/// policy gives others.
///
/// Nothing is assumed of an implementation. The ledger reads the numbers
/// once, through [`parameters`], and its rules are stated for whatever
/// numbers were read and whatever the game said.
pub trait EloRatingSystem {
    /// The rating of a player who has not played any game: 1000, unless
    /// the policy gives another.
    fn initial_rating() -> (rating: EloRating)
        default_ensures
            rating == DEFAULT_INITIAL_RATING,
    {
        DEFAULT_INITIAL_RATING
    }

    /// The largest gain or loss of rating that one game can bring: 32,
    /// unless the policy gives another.
    fn k_factor() -> (k: u32)
        default_ensures
            k == DEFAULT_K_FACTOR,
    {
        DEFAULT_K_FACTOR
    }

    /// The minutes between two attempts to publish the results that wait:
    /// one, unless the policy gives another.
    fn unpublished_games_retry_interval_in_mins() -> (mins: u32)
        default_ensures
            mins == DEFAULT_RETRY_INTERVAL_IN_MINS,
    {
        DEFAULT_RETRY_INTERVAL_IN_MINS
    }

    /// How often a proposal is built again after the counterparty has
    /// called it stale: once, unless the policy gives another.
    fn stale_retries() -> (retries: u32)
        default_ensures
            retries == DEFAULT_STALE_RETRIES,
    {
        DEFAULT_STALE_RETRIES
    }

    /// Whether the rules of the game accept the result. `game_info` is what
    /// the game recorded of it, as the record carries it.
    fn validate_game_result(game_info: &Vec<u8>, result: &GameResultInfo) -> DomainVerdict;
}

/// Reads the numbers of the policy `S`: each number is what the policy's
/// method of that name returned. For a policy that gives no numbers of its
/// own these are the usual ones.
pub fn parameters<S: EloRatingSystem>() -> (params: EloParameters)
    ensures
        call_ensures(S::initial_rating, (), params.initial_rating),
        call_ensures(S::k_factor, (), params.k_factor),
        call_ensures(
            S::unpublished_games_retry_interval_in_mins,
            (),
            params.retry_interval_in_mins,
        ),
        call_ensures(S::stale_retries, (), params.stale_retries),
{
    EloParameters {
        initial_rating: S::initial_rating(),
        k_factor: S::k_factor(),
        retry_interval_in_mins: S::unpublished_games_retry_interval_in_mins(),
        stale_retries: S::stale_retries(),
    }
}

} // verus!
