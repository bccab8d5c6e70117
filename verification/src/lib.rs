//! A peer-replicated ELO rating ledger for two-player games.
//!
//! Every finished game yields one jointly authored record that carries both
//! players' new ratings and links to each player's previous record. This
//! crate holds the rules of that ledger: the data model, the staleness check
//! of the responding player, the session of the initiating player, the
//! validation that any observer runs, the backlog of results that still wait
//! to be published, and the ranking.
//!
//! Storage, transport and the floating-point rating formula are performed by
//! the caller; the functions here decide what is to be done with what they
//! return. Each states in its contract what it returns for every input, and
//! the laws of the ledger are proved as public proof functions beside them.

pub mod countersigning;
pub mod elo_ranking;
pub mod elo_rating;
pub mod elo_rating_system;
pub mod error;
pub mod example;
pub mod game_result;
pub mod identity;
pub mod mixin;
pub mod score;
pub mod unpublished;

pub use crate::countersigning::common::PublishGameResultResponse;
pub use crate::countersigning::receiver::handle_request_publish_game_result;
pub use crate::countersigning::sender::{
    send_publish_game_result_request, try_create_countersigned_game_result,
    CreateGameResultOutcome,
};
pub use crate::elo_ranking::{
    get_elo_ranking_chunk, put_elo_rating_in_ranking, GetEloRankingChunkInput,
};
pub use crate::elo_rating::get_elo_rating_for_agents;
pub use crate::elo_rating_system::{EloRating, EloRatingSystem};
pub use crate::error::EloError;
pub use crate::game_result::handlers::{
    element_to_game_result, entry_to_game_result, game_results_tag, get_game_results_for_agents,
    index_game_result_if_not_exists,
};
pub use crate::game_result::unpublished::unpublished_game_tag;
pub use crate::game_result::validation::validate_entry_game_result;
pub use crate::game_result::{EloSignal, EloUpdate, GameResult, GameResultInfo};
pub use crate::mixin::{
    attempt_create_countersigned_game_result, create_game_result_and_flag, init_elo,
    post_commit_elo,
};
pub use crate::unpublished::UnpublishedGameResult;
