//! The check that every observer of a record runs before taking it into its
//! own view of the ledger. It needs no trust in whoever published the record:
//! the ratings are derived again from the records that the new one links to.

use crate::elo_rating::{rating_inputs_spec, RatingInputs};
use crate::elo_rating_system::{DomainVerdict, EloParameters, EloRating, EloRatingSystem};
use crate::error::EloError;
use crate::game_result::handlers::{
    assembled, internal_build_new_game_result, new_game_rating_inputs,
};
use crate::game_result::{
    CommittedResult, CommittedResultView, GameResult, GameResultInfo, GameResultView,
};
use crate::identity::{ContentHash, Participant};
use vstd::prelude::*;

verus! {

/// Why the ledger itself refuses a record.
#[derive(Clone, Copy, Debug, PartialEq, Eq, Structural)]
pub enum Rejection {
    /// The score does not lie between 0 and 1.
    InvalidScore,
    /// Both players are the same participant.
    SelfPlay,
    /// The author of the record is not one of its two players.
    NotAParticipant,
    /// A previous record is there, but its header names no entry.
    InvalidHeader,
    /// The ratings or links differ from what the previous records give.
    IncorrectRatingUpdate,
}

/// The outcome of validating a record.
#[derive(Debug)]
pub enum Verdict {
    Valid,
    /// The record breaks a rule of the ledger and is never accepted.
    Invalid(Rejection),
    /// The record breaks a rule of the game and is never accepted.
    DomainRejected(String),
    /// A record that this one depends on cannot be read yet: validate again
    /// once the entry with this address has arrived.
    UnresolvedDependencies(ContentHash),
}

/// A [`Verdict`] as a mathematical value.
pub enum VerdictView {
    Valid,
    Invalid(Rejection),
    DomainRejected(Seq<char>),
    UnresolvedDependencies(Seq<u8>),
}

impl View for Verdict {
    type V = VerdictView;

    open spec fn view(&self) -> VerdictView {
        match self {
            Verdict::Valid => VerdictView::Valid,
            Verdict::Invalid(r) => VerdictView::Invalid(*r),
            Verdict::DomainRejected(reason) => VerdictView::DomainRejected(reason@),
            Verdict::UnresolvedDependencies(h) => VerdictView::UnresolvedDependencies(h@),
        }
    }
}

/// What came of looking up a record by the address of its header.
#[derive(Debug)]
pub enum Resolution {
    /// The record is there and can be read.
    Resolved(CommittedResult),
    /// The header is there, the entry with this address is not yet.
    NotYetAvailable(ContentHash),
    /// The header is there and names no entry.
    Absent,
    /// The entry is there and does not decode to a record.
    Malformed,
}

/// A [`Resolution`] as a mathematical value.
pub enum ResolutionView {
    Resolved(CommittedResultView),
    NotYetAvailable(Seq<u8>),
    Absent,
    Malformed,
}

impl View for Resolution {
    type V = ResolutionView;

    open spec fn view(&self) -> ResolutionView {
        match self {
            Resolution::Resolved(c) => ResolutionView::Resolved(c@),
            Resolution::NotYetAvailable(h) => ResolutionView::NotYetAvailable(h@),
            Resolution::Absent => ResolutionView::Absent,
            Resolution::Malformed => ResolutionView::Malformed,
        }
    }
}

/// What a declared link and its lookup give the validator.
pub enum Lookup {
    /// The head to derive the rating from; `None` for a first record.
    Head(Option<CommittedResultView>),
    /// Validation ends here with this verdict.
    Stop(VerdictView),
    /// Validation fails with this error.
    Fail(EloError),
}

/// The head that the validator derives a player's rating from. A record that
/// declares no link is a first record, whatever the lookup holds.
pub open spec fn lookup(declared: Option<Seq<u8>>, found: ResolutionView) -> Lookup {
    match declared {
        None => Lookup::Head(None),
        Some(_) => match found {
            ResolutionView::Resolved(c) => Lookup::Head(Some(c)),
            ResolutionView::NotYetAvailable(h) => Lookup::Stop(
                VerdictView::UnresolvedDependencies(h),
            ),
            ResolutionView::Absent => Lookup::Stop(VerdictView::Invalid(Rejection::InvalidHeader)),
            ResolutionView::Malformed => Lookup::Fail(EloError::MalformedRecord),
        },
    }
}

/// The verdict on what the record alone shows: the score, the two players,
/// and the author.
pub open spec fn structure_verdict(g: GameResultView, author: Seq<u8>) -> VerdictView {
    if !g.score_player_a.valid() {
        VerdictView::Invalid(Rejection::InvalidScore)
    } else if g.player_a.player_address == g.player_b.player_address {
        VerdictView::Invalid(Rejection::SelfPlay)
    } else if !g.has_player(author) {
        VerdictView::Invalid(Rejection::NotAParticipant)
    } else {
        VerdictView::Valid
    }
}

/// Where the derivation of the ratings stands once both links were looked up.
pub enum Derivation {
    /// Both heads are known.
    Heads(Option<CommittedResultView>, Option<CommittedResultView>),
    Stop(VerdictView),
    Fail(EloError),
}

/// Both heads of a record, the first player's link looked at first.
pub open spec fn derivation(
    g: GameResultView,
    found_a: ResolutionView,
    found_b: ResolutionView,
) -> Derivation {
    match lookup(g.player_a.previous_game_result, found_a) {
        Lookup::Stop(v) => Derivation::Stop(v),
        Lookup::Fail(e) => Derivation::Fail(e),
        Lookup::Head(head_a) => match lookup(g.player_b.previous_game_result, found_b) {
            Lookup::Stop(v) => Derivation::Stop(v),
            Lookup::Fail(e) => Derivation::Fail(e),
            Lookup::Head(head_b) => Derivation::Heads(head_a, head_b),
        },
    }
}

/// The verdict on the ratings and links of a record, where `recomputed` is
/// what the rating formula gives for the ratings of the two heads.
pub open spec fn elo_update_verdict(
    g: GameResultView,
    found_a: ResolutionView,
    found_b: ResolutionView,
    initial: EloRating,
    k: u32,
    recomputed: (EloRating, EloRating),
) -> Result<VerdictView, EloError> {
    match derivation(g, found_a, found_b) {
        Derivation::Stop(v) => Ok(v),
        Derivation::Fail(e) => Err(e),
        Derivation::Heads(head_a, head_b) => match rating_inputs_spec(
            g.player_a.player_address,
            g.player_b.player_address,
            g.score_player_a,
            head_a,
            head_b,
            initial,
            k,
        ) {
            Err(e) => Err(e),
            Ok(_) => if assembled(
                g.game_info,
                g.player_a.player_address,
                g.player_b.player_address,
                g.score_player_a,
                head_a,
                head_b,
                recomputed,
            ) == g {
                Ok(VerdictView::Valid)
            } else {
                Ok(VerdictView::Invalid(Rejection::IncorrectRatingUpdate))
            },
        },
    }
}

/// What the validator asks next once both links were looked up.
#[derive(Debug)]
pub enum Recomputation {
    /// Run the rating formula on these inputs, then call
    /// [`validate_elo_update_is_correct`] with its answer.
    Ask(RatingInputs),
    /// The verdict stands without the formula.
    Decided(Verdict),
}

/// The question that validation puts to the rating formula.
pub open spec fn recomputation_spec(
    g: GameResultView,
    found_a: ResolutionView,
    found_b: ResolutionView,
    initial: EloRating,
    k: u32,
) -> Result<Result<RatingInputs, VerdictView>, EloError> {
    match derivation(g, found_a, found_b) {
        Derivation::Stop(v) => Ok(Err(v)),
        Derivation::Fail(e) => Err(e),
        Derivation::Heads(head_a, head_b) => match rating_inputs_spec(
            g.player_a.player_address,
            g.player_b.player_address,
            g.score_player_a,
            head_a,
            head_b,
            initial,
            k,
        ) {
            Err(e) => Err(e),
            Ok(inputs) => Ok(Ok(inputs)),
        },
    }
}

/// The head that a lookup gives, as a value to build on.
enum Found {
    Head(Option<CommittedResult>),
    Stop(Verdict),
    Fail(EloError),
}

fn look_up(declared: &Option<ContentHash>, found: &Resolution) -> (res: Found)
    ensures
        match lookup(crate::identity::view_opt_hash(*declared), found@) {
            Lookup::Head(h) => res matches Found::Head(x) && crate::game_result::view_head(x) == h,
            Lookup::Stop(v) => res matches Found::Stop(w) && w@ == v,
            Lookup::Fail(e) => res matches Found::Fail(f) && f == e,
        },
{
    match declared {
        None => Found::Head(None),
        Some(_) => match found {
            Resolution::Resolved(c) => Found::Head(Some(c.duplicate())),
            Resolution::NotYetAvailable(h) => Found::Stop(
                Verdict::UnresolvedDependencies(h.duplicate()),
            ),
            Resolution::Absent => Found::Stop(Verdict::Invalid(Rejection::InvalidHeader)),
            Resolution::Malformed => Found::Fail(EloError::MalformedRecord),
        },
    }
}

/// Whether the lookup of the first player's link ends the validation of the
/// record's ratings, so that the second player's link need not be looked up:
/// it does where the record declares a link for the first player and the
/// lookup did not give a record.
pub fn first_link_decides(game_result: &GameResult, found_a: &Resolution) -> (decided: bool)
    ensures
        decided == !(lookup(game_result@.player_a.previous_game_result, found_a@) is Head),
        decided ==> forall|found_b: ResolutionView, other: ResolutionView|
            derivation(game_result@, found_a@, found_b) == derivation(
                game_result@,
                found_a@,
                other,
            ),
{
    match look_up(&game_result.player_a.previous_game_result, found_a) {
        Found::Head(_) => false,
        _ => true,
    }
}

/// Checks what the record alone shows, in this order: the score lies between
/// 0 and 1, the players differ, the author is one of them.
pub fn validate_structure(game_result: &GameResult, author: &Participant) -> (verdict: Verdict)
    ensures
        verdict@ == structure_verdict(game_result@, author@),
        game_result@.player_a.player_address == game_result@.player_b.player_address
            ==> verdict is Invalid,
        verdict is Valid ==> game_result@.well_formed(),
{
    if !game_result.score_player_a.is_valid() {
        Verdict::Invalid(Rejection::InvalidScore)
    } else if game_result.player_a.player_address.same(&game_result.player_b.player_address) {
        Verdict::Invalid(Rejection::SelfPlay)
    } else if !(game_result.player_a.player_address.same(author)
        || game_result.player_b.player_address.same(author)) {
        Verdict::Invalid(Rejection::NotAParticipant)
    } else {
        Verdict::Valid
    }
}

/// Prepares the recomputation of a record's ratings from the records it
/// links to. `found_a` and `found_b` are what looking up the two declared
/// links gave; for a player whose record declares no link the lookup is not
/// read.
pub fn elo_update_rating_inputs(
    params: &EloParameters,
    game_result: &GameResult,
    found_a: &Resolution,
    found_b: &Resolution,
) -> (next: Result<Recomputation, EloError>)
    ensures
        match recomputation_spec(
            game_result@,
            found_a@,
            found_b@,
            params.initial_rating,
            params.k_factor,
        ) {
            Ok(Ok(inputs)) => next matches Ok(Recomputation::Ask(i)) && i == inputs,
            Ok(Err(v)) => next matches Ok(Recomputation::Decided(w)) && w@ == v,
            Err(e) => next matches Err(f) && f == e,
        },
{
    let head_a = match look_up(&game_result.player_a.previous_game_result, found_a) {
        Found::Head(h) => h,
        Found::Stop(v) => {
            return Ok(Recomputation::Decided(v));
        },
        Found::Fail(e) => {
            return Err(e);
        },
    };
    let head_b = match look_up(&game_result.player_b.previous_game_result, found_b) {
        Found::Head(h) => h,
        Found::Stop(v) => {
            return Ok(Recomputation::Decided(v));
        },
        Found::Fail(e) => {
            return Err(e);
        },
    };
    match new_game_rating_inputs(
        params,
        &game_result.player_a.player_address,
        &game_result.player_b.player_address,
        game_result.score_player_a,
        &head_a,
        &head_b,
    ) {
        Ok(inputs) => Ok(Recomputation::Ask(inputs)),
        Err(e) => Err(e),
    }
}

/// Derives the record again from the records that it links to and compares
/// the two field by field. `recomputed` is the answer of the rating formula
/// to the question that [`elo_update_rating_inputs`] prepared; it is read
/// only where that function asked.
///
/// A link whose entry has not arrived gives `UnresolvedDependencies`; any
/// difference between the record and its derivation gives
/// `Invalid(IncorrectRatingUpdate)`.
pub fn validate_elo_update_is_correct(
    params: &EloParameters,
    game_result: &GameResult,
    found_a: &Resolution,
    found_b: &Resolution,
    recomputed: (EloRating, EloRating),
) -> (verdict: Result<Verdict, EloError>)
    ensures
        match elo_update_verdict(
            game_result@,
            found_a@,
            found_b@,
            params.initial_rating,
            params.k_factor,
            recomputed,
        ) {
            Ok(v) => verdict matches Ok(w) && w@ == v,
            Err(e) => verdict matches Err(f) && f == e,
        },
{
    let head_a = match look_up(&game_result.player_a.previous_game_result, found_a) {
        Found::Head(h) => h,
        Found::Stop(v) => {
            return Ok(v);
        },
        Found::Fail(e) => {
            return Err(e);
        },
    };
    let head_b = match look_up(&game_result.player_b.previous_game_result, found_b) {
        Found::Head(h) => h,
        Found::Stop(v) => {
            return Ok(v);
        },
        Found::Fail(e) => {
            return Err(e);
        },
    };
    let derived = match internal_build_new_game_result(
        params,
        &game_result.game_info,
        &game_result.player_a.player_address,
        &game_result.player_b.player_address,
        game_result.score_player_a,
        &head_a,
        &head_b,
        recomputed,
    ) {
        Ok(g) => g,
        Err(e) => {
            return Err(e);
        },
    };
    if !derived.same(game_result) {
        return Ok(Verdict::Invalid(Rejection::IncorrectRatingUpdate));
    }
    Ok(Verdict::Valid)
}

/// The verdict on a record once the ledger's own checks and the rules of the
/// game have spoken: the ledger's verdict unless it is `Valid`, else the
/// game's.
pub open spec fn concluded(ledger: VerdictView, game: Option<Seq<char>>) -> VerdictView {
    match ledger {
        VerdictView::Valid => match game {
            None => VerdictView::Valid,
            Some(reason) => VerdictView::DomainRejected(reason),
        },
        other => other,
    }
}

/// The reason for which the game refuses, if it does.
pub open spec fn refusal(game: DomainVerdict) -> Option<Seq<char>> {
    match game {
        DomainVerdict::Valid => None,
        DomainVerdict::Invalid(reason) => Some(reason@),
    }
}

/// Joins the ledger's verdict with that of the game's rules.
pub fn conclude(ledger: Verdict, game: DomainVerdict) -> (verdict: Verdict)
    ensures
        verdict@ == concluded(ledger@, refusal(game)),
{
    match ledger {
        Verdict::Valid => match game {
            DomainVerdict::Valid => Verdict::Valid,
            DomainVerdict::Invalid(reason) => Verdict::DomainRejected(reason),
        },
        other => other,
    }
}

/// The ledger's own verdict on a record: what the record alone shows, then
/// its ratings and links.
pub open spec fn ledger_verdict(
    g: GameResultView,
    author: Seq<u8>,
    found_a: ResolutionView,
    found_b: ResolutionView,
    initial: EloRating,
    k: u32,
    recomputed: (EloRating, EloRating),
) -> Result<VerdictView, EloError> {
    match structure_verdict(g, author) {
        VerdictView::Valid => elo_update_verdict(g, found_a, found_b, initial, k, recomputed),
        other => Ok(other),
    }
}

/// Whether `info` holds the game facts of the record: its two players and
/// its score.
pub open spec fn is_game_facts_of(info: GameResultInfo, g: GameResultView) -> bool {
    &&& info.player_a@ == g.player_a.player_address
    &&& info.player_b@ == g.player_b.player_address
    &&& info.score_player_a == g.score_player_a
}

/// Whether `verdict` is the verdict on the record `game_result` with the
/// ledger's verdict `ledger`: the ledger's own, unless that is `Valid`; and
/// where it is `Valid`, what [`concluded`] gives for an answer of the
/// policy's `validate_game_result` to the game's data and the game facts of
/// the record.
pub open spec fn is_verdict_of<S: EloRatingSystem>(
    game_result: GameResult,
    ledger: Result<VerdictView, EloError>,
    verdict: Result<Verdict, EloError>,
) -> bool {
    match ledger {
        Ok(VerdictView::Valid) => exists|info: GameResultInfo, game: DomainVerdict|
            is_game_facts_of(info, game_result@) && #[trigger] call_ensures(
                S::validate_game_result,
                (&game_result.game_info, &info),
                game,
            ) && (verdict matches Ok(w) && w@ == concluded(VerdictView::Valid, refusal(game))),
        Ok(v) => verdict matches Ok(w) && w@ == v,
        Err(e) => verdict matches Err(f) && f == e,
    }
}

/// Validates a record written by `author`.
///
/// The ledger's own checks come first, and what they refuse the game's rules
/// are never asked about. A record that passes them is handed to the
/// policy's `validate_game_result`, with the game's data and the game facts
/// of the record, and the verdict is `Valid` if the game accepts it and
/// `DomainRejected` with the game's reason if not.
pub fn validate_game_result<S: EloRatingSystem>(
    params: &EloParameters,
    game_result: &GameResult,
    author: &Participant,
    found_a: &Resolution,
    found_b: &Resolution,
    recomputed: (EloRating, EloRating),
) -> (verdict: Result<Verdict, EloError>)
    ensures
        is_verdict_of::<S>(
            *game_result,
            ledger_verdict(
                game_result@,
                author@,
                found_a@,
                found_b@,
                params.initial_rating,
                params.k_factor,
                recomputed,
            ),
            verdict,
        ),
{
    let structure = validate_structure(game_result, author);
    match structure {
        Verdict::Valid => {},
        _ => {
            return Ok(structure);
        },
    }
    let ledger = match validate_elo_update_is_correct(
        params,
        game_result,
        found_a,
        found_b,
        recomputed,
    ) {
        Ok(v) => v,
        Err(e) => {
            return Err(e);
        },
    };
    match ledger {
        Verdict::Valid => {
            let info = GameResultInfo::new(game_result);
            let game = S::validate_game_result(&game_result.game_info, &info);
            let verdict = conclude(Verdict::Valid, game);
            proof {
                assert(call_ensures(
                    S::validate_game_result,
                    (&game_result.game_info, &info),
                    game,
                ));
            }
            Ok(verdict)
        },
        _ => Ok(ledger),
    }
}

/// What an observer holds of the entry that it is asked to validate.
#[derive(Debug)]
pub enum EntryUnderValidation {
    /// The entry is there and decodes to this record.
    Present(GameResult),
    /// The entry has not arrived; its header names it by this address.
    Missing(ContentHash),
    /// The entry has not arrived and its header names no entry.
    Unnamed,
}

/// Validates the entry of a record written by `author`: an entry that has
/// not arrived yet is a dependency to wait for, and one that is there is
/// validated as [`validate_game_result`] says.
pub fn validate_entry_game_result<S: EloRatingSystem>(
    params: &EloParameters,
    entry: &EntryUnderValidation,
    author: &Participant,
    found_a: &Resolution,
    found_b: &Resolution,
    recomputed: (EloRating, EloRating),
) -> (verdict: Result<Verdict, EloError>)
    ensures
        match *entry {
            EntryUnderValidation::Unnamed => verdict matches Err(e) && e
                == EloError::MalformedRecord,
            EntryUnderValidation::Missing(h) => verdict matches Ok(w) && w@
                == VerdictView::UnresolvedDependencies(h@),
            EntryUnderValidation::Present(g) => is_verdict_of::<S>(
                g,
                ledger_verdict(
                    g@,
                    author@,
                    found_a@,
                    found_b@,
                    params.initial_rating,
                    params.k_factor,
                    recomputed,
                ),
                verdict,
            ),
        },
{
    match entry {
        EntryUnderValidation::Present(game_result) => validate_game_result::<S>(
            params,
            game_result,
            author,
            found_a,
            found_b,
            recomputed,
        ),
        EntryUnderValidation::Missing(h) => Ok(Verdict::UnresolvedDependencies(h.duplicate())),
        EntryUnderValidation::Unnamed => Err(EloError::MalformedRecord),
    }
}

/// A record in which both players are the same participant is never
/// accepted, whatever its other fields, its author and the records that it
/// links to: the ledger's verdict is `Invalid`, for the score where that is
/// outside 0 to 1 and for the self-play otherwise, and no question to the
/// rating formula exists for such a game.
pub proof fn self_play_is_never_accepted(
    g: GameResultView,
    author: Seq<u8>,
    found_a: ResolutionView,
    found_b: ResolutionView,
    head_a: Option<CommittedResultView>,
    head_b: Option<CommittedResultView>,
    initial: EloRating,
    k: u32,
    recomputed: (EloRating, EloRating),
)
    requires
        g.player_a.player_address == g.player_b.player_address,
    ensures
        ledger_verdict(g, author, found_a, found_b, initial, k, recomputed) == Ok::<
            VerdictView,
            EloError,
        >(
            if g.score_player_a.valid() {
                VerdictView::Invalid(Rejection::SelfPlay)
            } else {
                VerdictView::Invalid(Rejection::InvalidScore)
            },
        ),
        rating_inputs_spec(
            g.player_a.player_address,
            g.player_b.player_address,
            g.score_player_a,
            head_a,
            head_b,
            initial,
            k,
        ) is Err,
{
}

/// A record with a score outside 0 to 1 is refused for its score before
/// anything else is looked at, and no question to the rating formula exists
/// for it.
pub proof fn invalid_score_is_refused_first(
    g: GameResultView,
    author: Seq<u8>,
    found_a: ResolutionView,
    found_b: ResolutionView,
    head_a: Option<CommittedResultView>,
    head_b: Option<CommittedResultView>,
    initial: EloRating,
    k: u32,
    recomputed: (EloRating, EloRating),
)
    requires
        !g.score_player_a.valid(),
    ensures
        ledger_verdict(g, author, found_a, found_b, initial, k, recomputed) == Ok::<
            VerdictView,
            EloError,
        >(VerdictView::Invalid(Rejection::InvalidScore)),
        rating_inputs_spec(
            g.player_a.player_address,
            g.player_b.player_address,
            g.score_player_a,
            head_a,
            head_b,
            initial,
            k,
        ) == Err::<RatingInputs, EloError>(EloError::InvalidScore),
{
}

/// A record that was built honestly passes the ledger's validation: if the
/// record is what [`assembled`] gives on two heads, the validator finds
/// those heads behind the record's links, the rating formula answers as it
/// did when the record was built, and the author is one of the players, then
/// the derivation reproduces the record field for field and the verdict is
/// `Valid`.
pub proof fn honest_record_is_valid(
    game_info: Seq<u8>,
    player_a: Seq<u8>,
    player_b: Seq<u8>,
    score_a: crate::score::Score,
    head_a: Option<CommittedResultView>,
    head_b: Option<CommittedResultView>,
    found_a: ResolutionView,
    found_b: ResolutionView,
    author: Seq<u8>,
    initial: EloRating,
    k: u32,
    ratings: (EloRating, EloRating),
)
    requires
        rating_inputs_spec(player_a, player_b, score_a, head_a, head_b, initial, k) is Ok,
        head_a matches Some(c) ==> found_a == ResolutionView::Resolved(c),
        head_b matches Some(c) ==> found_b == ResolutionView::Resolved(c),
        author == player_a || author == player_b,
    ensures
        ledger_verdict(
            assembled(game_info, player_a, player_b, score_a, head_a, head_b, ratings),
            author,
            found_a,
            found_b,
            initial,
            k,
            ratings,
        ) == Ok::<VerdictView, EloError>(VerdictView::Valid),
{
    let g = assembled(game_info, player_a, player_b, score_a, head_a, head_b, ratings);
    assert(lookup(g.player_a.previous_game_result, found_a) == Lookup::Head(head_a));
    assert(lookup(g.player_b.previous_game_result, found_b) == Lookup::Head(head_b));
    assert(derivation(g, found_a, found_b) == Derivation::Heads(head_a, head_b));
}

/// A record whose ratings differ from what the rating formula gives for the
/// ratings of its heads is refused as an incorrect rating update.
pub proof fn wrong_ratings_are_refused(
    g: GameResultView,
    found_a: ResolutionView,
    found_b: ResolutionView,
    initial: EloRating,
    k: u32,
    recomputed: (EloRating, EloRating),
)
    requires
        derivation(g, found_a, found_b) matches Derivation::Heads(head_a, head_b)
            && rating_inputs_spec(
            g.player_a.player_address,
            g.player_b.player_address,
            g.score_player_a,
            head_a,
            head_b,
            initial,
            k,
        ) is Ok,
        g.player_a.current_elo != recomputed.0 || g.player_b.current_elo != recomputed.1,
    ensures
        elo_update_verdict(g, found_a, found_b, initial, k, recomputed) == Ok::<
            VerdictView,
            EloError,
        >(VerdictView::Invalid(Rejection::IncorrectRatingUpdate)),
{
}

} // verus!
