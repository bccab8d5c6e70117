//! Records that were written by one player alone and still wait for their
//! place in the ledger: listing them, and building them again on top of the
//! chains as they stand now.

use crate::elo_rating::{rating_inputs, rating_inputs_spec, RatingInputs};
use crate::elo_rating_system::{EloParameters, EloRating};
use crate::error::EloError;
use crate::game_result::handlers::{assembled, internal_build_new_game_result};
use crate::game_result::validation::{
    honest_record_is_valid, ledger_verdict, Resolution, ResolutionView, VerdictView,
};
use crate::game_result::{
    view_head, CommittedResult, CommittedResultView, GameResult, GameResultView,
};
use crate::identity::{ContentHash, Participant};
use vstd::prelude::*;

verus! {

/// The tag of the flags that mark a record as waiting.
pub fn unpublished_game_tag() -> (tag: &'static str)
    ensures
        tag@ == "unpublished_game"@,
{
    "unpublished_game"
}

/// The head of the opponent's chain as the waiting record `g` of `me`
/// declares it, where `found` is what looking up the declared link gave.
///
/// A record without a link for the opponent builds on no record. A link
/// whose record cannot be read is a dependency that is not resolved.
pub open spec fn opponent_head(
    g: GameResultView,
    me: Seq<u8>,
    found: ResolutionView,
) -> Result<Option<CommittedResultView>, EloError> {
    match g.opponent_of(me) {
        None => Err(EloError::NotAParticipant),
        Some(opponent) => match g.update_for(opponent) {
            None => Err(EloError::NotAParticipant),
            Some(update) => match update.previous_game_result {
                None => Ok(None),
                Some(_) => match found {
                    ResolutionView::Resolved(c) => Ok(Some(c)),
                    ResolutionView::Malformed => Err(EloError::MalformedRecord),
                    _ => Err(EloError::UnresolvedDependency),
                },
            },
        },
    }
}

/// The heads on which the waiting record `g` of `me` is built again, the
/// first player's first: the head of the own chain as it stands now, and
/// the head of the opponent's chain as the record declares it.
pub open spec fn rebase_heads(
    g: GameResultView,
    me: Seq<u8>,
    my_latest: Option<CommittedResultView>,
    found: ResolutionView,
) -> Result<(Option<CommittedResultView>, Option<CommittedResultView>), EloError> {
    match opponent_head(g, me, found) {
        Err(e) => Err(e),
        Ok(theirs) => if g.player_a.player_address == me {
            Ok((my_latest, theirs))
        } else {
            Ok((theirs, my_latest))
        },
    }
}

/// The question to the rating formula when the waiting record `g` of `me`
/// is built again: the ratings of both players as the two heads give them.
pub open spec fn rebase_inputs_spec(
    g: GameResultView,
    me: Seq<u8>,
    my_latest: Option<CommittedResultView>,
    found: ResolutionView,
    initial: EloRating,
    k: u32,
) -> Result<RatingInputs, EloError> {
    match rebase_heads(g, me, my_latest, found) {
        Err(e) => Err(e),
        Ok(heads) => rating_inputs_spec(
            g.player_a.player_address,
            g.player_b.player_address,
            g.score_player_a,
            heads.0,
            heads.1,
            initial,
            k,
        ),
    }
}

/// The waiting record `g` after it was built again on the two heads: the
/// record of the same game, with the same players, score and data, in
/// which both sides hold the new ratings and link to their heads.
pub open spec fn rebased(
    g: GameResultView,
    heads: (Option<CommittedResultView>, Option<CommittedResultView>),
    new_ratings: (EloRating, EloRating),
) -> GameResultView {
    assembled(
        g.game_info,
        g.player_a.player_address,
        g.player_b.player_address,
        g.score_player_a,
        heads.0,
        heads.1,
        new_ratings,
    )
}

/// The head of the opponent's chain, as a value to build on.
fn read_opponent_head(game_result: &GameResult, me: &Participant, found: &Resolution) -> (head:
    Result<Option<CommittedResult>, EloError>)
    ensures
        match opponent_head(game_result@, me@, found@) {
            Ok(h) => head matches Ok(x) && view_head(x) == h,
            Err(e) => head matches Err(f) && f == e,
        },
{
    let opponent = match game_result.opponent(me) {
        Ok(o) => o,
        Err(e) => {
            return Err(e);
        },
    };
    let update = match game_result.elo_update_for(&opponent) {
        Some(u) => u,
        None => {
            return Err(EloError::NotAParticipant);
        },
    };
    match update.previous_game_result {
        None => Ok(None),
        Some(_) => match found {
            Resolution::Resolved(c) => Ok(Some(c.duplicate())),
            Resolution::Malformed => Err(EloError::MalformedRecord),
            _ => Err(EloError::UnresolvedDependency),
        },
    }
}

/// The two heads on which the waiting record is built again, as values.
fn read_heads(
    game_result: &GameResult,
    me: &Participant,
    my_latest: &Option<CommittedResult>,
    found: &Resolution,
) -> (heads: Result<(Option<CommittedResult>, Option<CommittedResult>), EloError>)
    ensures
        match rebase_heads(game_result@, me@, view_head(*my_latest), found@) {
            Ok(h) => heads matches Ok(x) && view_head(x.0) == h.0 && view_head(x.1) == h.1,
            Err(e) => heads matches Err(f) && f == e,
        },
{
    let theirs = match read_opponent_head(game_result, me, found) {
        Ok(h) => h,
        Err(e) => {
            return Err(e);
        },
    };
    let mine = match my_latest {
        Some(c) => Some(c.duplicate()),
        None => None,
    };
    if game_result.player_a.player_address.same(me) {
        Ok((mine, theirs))
    } else {
        Ok((theirs, mine))
    }
}

/// Prepares the question to the rating formula for building the waiting
/// record `old_game_result` of `me` again. `my_latest` is the head of the
/// own chain as it stands now, `opponent_found` what looking up the link
/// gave that the record declares for the opponent.
pub fn rebase_rating_inputs(
    params: &EloParameters,
    old_game_result: &GameResult,
    me: &Participant,
    my_latest: &Option<CommittedResult>,
    opponent_found: &Resolution,
) -> (inputs: Result<RatingInputs, EloError>)
    ensures
        inputs == rebase_inputs_spec(
            old_game_result@,
            me@,
            view_head(*my_latest),
            opponent_found@,
            params.initial_rating,
            params.k_factor,
        ),
{
    let heads = match read_heads(old_game_result, me, my_latest, opponent_found) {
        Ok(h) => h,
        Err(e) => {
            return Err(e);
        },
    };
    rating_inputs(
        &old_game_result.player_a.player_address,
        &old_game_result.player_b.player_address,
        old_game_result.score_player_a,
        &heads.0,
        &heads.1,
        params.initial_rating,
        params.k_factor,
    )
}

/// Builds the waiting record of `me` again on top of both chains as they
/// are seen now. `new_ratings` is the answer of the rating formula to the
/// question that [`rebase_rating_inputs`] prepared.
///
/// Where that question exists, the record becomes the record of the same
/// game built afresh, as [`rebased`] says: both sides hold the new ratings
/// and link to their heads. Where it does not exist, the record stays as it
/// was and the error says why.
pub fn rebase_game_result(
    params: &EloParameters,
    old_game_result: &mut GameResult,
    me: &Participant,
    my_latest: &Option<CommittedResult>,
    opponent_found: &Resolution,
    new_ratings: (EloRating, EloRating),
) -> (done: Result<(), EloError>)
    ensures
        match rebase_heads(old(old_game_result)@, me@, view_head(*my_latest), opponent_found@) {
            Err(e) => done == Err::<(), EloError>(e) && final(old_game_result)@ == old(
                old_game_result,
            )@,
            Ok(heads) => match rebase_inputs_spec(
                old(old_game_result)@,
                me@,
                view_head(*my_latest),
                opponent_found@,
                params.initial_rating,
                params.k_factor,
            ) {
                Ok(_) => done is Ok && final(old_game_result)@ == rebased(
                    old(old_game_result)@,
                    heads,
                    new_ratings,
                ),
                Err(e) => done == Err::<(), EloError>(e) && final(old_game_result)@ == old(
                    old_game_result,
                )@,
            },
        },
{
    let heads = match read_heads(old_game_result, me, my_latest, opponent_found) {
        Ok(h) => h,
        Err(e) => {
            return Err(e);
        },
    };
    let built = match internal_build_new_game_result(
        params,
        &old_game_result.game_info,
        &old_game_result.player_a.player_address,
        &old_game_result.player_b.player_address,
        old_game_result.score_player_a,
        &heads.0,
        &heads.1,
        new_ratings,
    ) {
        Ok(g) => g,
        Err(e) => {
            return Err(e);
        },
    };
    *old_game_result = built;
    Ok(())
}

/// A record that was built again passes the ledger's validation: if the
/// validator finds behind the record's links the two heads on which it was
/// built again, the rating formula answers as it did then, and the author
/// is one of the players, the verdict is `Valid`.
pub proof fn rebased_record_is_valid(
    g: GameResultView,
    me: Seq<u8>,
    my_latest: Option<CommittedResultView>,
    found: ResolutionView,
    found_a: ResolutionView,
    found_b: ResolutionView,
    author: Seq<u8>,
    initial: EloRating,
    k: u32,
    new_ratings: (EloRating, EloRating),
)
    requires
        rebase_inputs_spec(g, me, my_latest, found, initial, k) is Ok,
        rebase_heads(g, me, my_latest, found) matches Ok(heads) && (heads.0 matches Some(c)
            ==> found_a == ResolutionView::Resolved(c)) && (heads.1 matches Some(c) ==> found_b
            == ResolutionView::Resolved(c)),
        author == g.player_a.player_address || author == g.player_b.player_address,
    ensures
        rebase_heads(g, me, my_latest, found) matches Ok(heads) && ledger_verdict(
            rebased(g, heads, new_ratings),
            author,
            found_a,
            found_b,
            initial,
            k,
            new_ratings,
        ) == Ok::<VerdictView, EloError>(VerdictView::Valid),
{
    let heads = rebase_heads(g, me, my_latest, found)->Ok_0;
    honest_record_is_valid(
        g.game_info,
        g.player_a.player_address,
        g.player_b.player_address,
        g.score_player_a,
        heads.0,
        heads.1,
        found_a,
        found_b,
        author,
        initial,
        k,
        new_ratings,
    );
}

/// A flag that marks a record as waiting, and the record as far as it could
/// be read.
#[derive(Debug)]
pub struct Flag {
    /// The address of the flag itself, by which it is taken down.
    pub flag_link_hash: ContentHash,
    /// The flagged record; `None` if it is not there or does not decode.
    pub target: Option<GameResult>,
}

/// A record that waits, with the address of its flag.
#[derive(Debug)]
pub struct FlaggedGameResult {
    pub game_result: GameResult,
    pub flag_link_hash: ContentHash,
}

/// A [`FlaggedGameResult`] as a mathematical value.
pub struct FlaggedGameResultView {
    pub game_result: GameResultView,
    pub flag_link_hash: Seq<u8>,
}

impl View for FlaggedGameResult {
    type V = FlaggedGameResultView;

    open spec fn view(&self) -> FlaggedGameResultView {
        FlaggedGameResultView {
            game_result: self.game_result@,
            flag_link_hash: self.flag_link_hash@,
        }
    }
}

/// The flagged records as mathematical values.
pub open spec fn view_flagged(list: Seq<FlaggedGameResult>) -> Seq<FlaggedGameResultView> {
    list.map_values(|f: FlaggedGameResult| f@)
}

/// The flags whose record could be read, in their order, each with its
/// record.
pub open spec fn readable(flags: Seq<Flag>) -> Seq<FlaggedGameResultView>
    decreases flags.len(),
{
    if flags.len() == 0 {
        Seq::empty()
    } else {
        let rest = readable(flags.drop_last());
        match flags.last().target {
            Some(g) => rest.push(
                FlaggedGameResultView {
                    game_result: g@,
                    flag_link_hash: flags.last().flag_link_hash@,
                },
            ),
            None => rest,
        }
    }
}

/// The records that wait behind the given flags. A flag whose record is not
/// there, or does not decode, is passed over.
pub fn get_my_unpublished_game_results(flags: &Vec<Flag>) -> (waiting: Vec<FlaggedGameResult>)
    ensures
        view_flagged(waiting@) == readable(flags@),
{
    let mut waiting: Vec<FlaggedGameResult> = Vec::new();
    let n: usize = flags.len();
    let mut i: usize = 0;
    assert(flags@.take(0) =~= Seq::empty());
    assert(view_flagged(waiting@) =~= Seq::empty());
    while i < n
        invariant
            n == flags@.len(),
            i <= n,
            view_flagged(waiting@) == readable(flags@.take(i as int)),
        decreases n - i,
    {
        let ghost before = view_flagged(waiting@);
        assert(flags@.take(i + 1).drop_last() =~= flags@.take(i as int));
        assert(flags@.take(i + 1).last() == flags@[i as int]);
        match &flags[i].target {
            Some(g) => {
                let item = FlaggedGameResult {
                    game_result: g.duplicate(),
                    flag_link_hash: flags[i].flag_link_hash.duplicate(),
                };
                let ghost item_view = item@;
                waiting.push(item);
                assert(view_flagged(waiting@) =~= before.push(item_view));
            },
            None => {},
        }
        i = i + 1;
    }
    assert(flags@.take(n as int) =~= flags@);
    waiting
}

} // verus!
