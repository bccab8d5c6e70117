//! Reading the chains of records out of what the store returned, and
//! building a new record on top of the two players' chains.

use crate::elo_ranking::{put_elo_rating_in_ranking, ranking_update, RankingUpdate};
use crate::elo_rating::{rating_inputs, rating_inputs_spec, RatingInputs};
use crate::elo_rating_system::{EloParameters, EloRating};
use crate::error::EloError;
use crate::game_result::{
    link_to, view_head, CommittedResult, CommittedResultView, EloSignal, EloUpdate,
    EloUpdateView, GameResult, GameResultView,
};
use crate::identity::{
    bytes_copy, duplicate_opt_hash, view_opt_hash, ContentHash, Participant,
};
use crate::score::Score;
use vstd::prelude::*;

verus! {

/// The record of a game between `player_a` and `player_b` that gives them
/// the ratings `new_ratings` and links to the head of each player's chain.
pub open spec fn assembled(
    game_info: Seq<u8>,
    player_a: Seq<u8>,
    player_b: Seq<u8>,
    score_a: Score,
    head_a: Option<CommittedResultView>,
    head_b: Option<CommittedResultView>,
    new_ratings: (EloRating, EloRating),
) -> GameResultView {
    GameResultView {
        player_a: EloUpdateView {
            player_address: player_a,
            current_elo: new_ratings.0 as int,
            previous_game_result: link_to(head_a),
        },
        player_b: EloUpdateView {
            player_address: player_b,
            current_elo: new_ratings.1 as int,
            previous_game_result: link_to(head_b),
        },
        score_player_a: score_a,
        game_info,
    }
}

/// The address of the head's header, to link a new record to it.
pub fn previous_link(head: &Option<CommittedResult>) -> (link: Option<ContentHash>)
    ensures
        crate::identity::view_opt_hash(link) == link_to(view_head(*head)),
{
    match head {
        Some(c) => Some(c.header_hash.duplicate()),
        None => None,
    }
}

/// The question to the rating formula for a new game, with the policy's
/// initial rating and factor.
pub fn new_game_rating_inputs(
    params: &EloParameters,
    player_a: &Participant,
    player_b: &Participant,
    score_player_a: Score,
    previous_a: &Option<CommittedResult>,
    previous_b: &Option<CommittedResult>,
) -> (inputs: Result<RatingInputs, EloError>)
    ensures
        inputs == rating_inputs_spec(
            player_a@,
            player_b@,
            score_player_a,
            view_head(*previous_a),
            view_head(*previous_b),
            params.initial_rating,
            params.k_factor,
        ),
{
    rating_inputs(
        player_a,
        player_b,
        score_player_a,
        previous_a,
        previous_b,
        params.initial_rating,
        params.k_factor,
    )
}

/// Builds the record of a game between `player_a` and `player_b` on top of
/// their chains. `new_ratings` is what the rating formula answered to the
/// question that [`new_game_rating_inputs`] prepared.
///
/// Fails exactly where no such question exists: with `InvalidScore` for a
/// score outside 0 to 1, else with `SelfPlay` for equal players, else with
/// `NotAParticipant` if a head does not name its player.
pub fn internal_build_new_game_result(
    params: &EloParameters,
    game_info: &Vec<u8>,
    player_a: &Participant,
    player_b: &Participant,
    score_player_a: Score,
    previous_a: &Option<CommittedResult>,
    previous_b: &Option<CommittedResult>,
    new_ratings: (EloRating, EloRating),
) -> (built: Result<GameResult, EloError>)
    ensures
        match rating_inputs_spec(
            player_a@,
            player_b@,
            score_player_a,
            view_head(*previous_a),
            view_head(*previous_b),
            params.initial_rating,
            params.k_factor,
        ) {
            Ok(_) => built matches Ok(g) && g@ == assembled(
                game_info@,
                player_a@,
                player_b@,
                score_player_a,
                view_head(*previous_a),
                view_head(*previous_b),
                new_ratings,
            ) && g@.well_formed(),
            Err(e) => built matches Err(f) && f == e,
        },
{
    match new_game_rating_inputs(
        params,
        player_a,
        player_b,
        score_player_a,
        previous_a,
        previous_b,
    ) {
        Err(e) => Err(e),
        Ok(_) => {
            let update_a = EloUpdate {
                player_address: player_a.duplicate(),
                current_elo: new_ratings.0,
                previous_game_result: previous_link(previous_a),
            };
            let update_b = EloUpdate {
                player_address: player_b.duplicate(),
                current_elo: new_ratings.1,
                previous_game_result: previous_link(previous_b),
            };
            Ok(
                GameResult {
                    player_a: update_a,
                    player_b: update_b,
                    score_player_a,
                    game_info: bytes_copy(game_info),
                },
            )
        },
    }
}

/// Builds the record of a game that `my_address` has finished against
/// `opponent_address`, with the initiator as the first player.
pub fn build_new_game_result(
    params: &EloParameters,
    game_info: &Vec<u8>,
    my_address: &Participant,
    opponent_address: &Participant,
    my_score: Score,
    my_previous: &Option<CommittedResult>,
    opponent_previous: &Option<CommittedResult>,
    new_ratings: (EloRating, EloRating),
) -> (built: Result<GameResult, EloError>)
    ensures
        match rating_inputs_spec(
            my_address@,
            opponent_address@,
            my_score,
            view_head(*my_previous),
            view_head(*opponent_previous),
            params.initial_rating,
            params.k_factor,
        ) {
            Ok(_) => built matches Ok(g) && g@ == assembled(
                game_info@,
                my_address@,
                opponent_address@,
                my_score,
                view_head(*my_previous),
                view_head(*opponent_previous),
                new_ratings,
            ) && g@.well_formed(),
            Err(e) => built matches Err(f) && f == e,
        },
{
    internal_build_new_game_result(
        params,
        game_info,
        my_address,
        opponent_address,
        my_score,
        my_previous,
        opponent_previous,
        new_ratings,
    )
}

/// The tag of the links from a player to the player's records.
pub fn game_results_tag() -> (tag: &'static str)
    ensures
        tag@ == "game_result"@,
{
    "game_result"
}

/// A link from a player to one of the player's records.
#[derive(Debug)]
pub struct LinkInfo {
    /// The content address of the record's entry.
    pub target: ContentHash,
    /// When the link was made, in microseconds.
    pub timestamp: i64,
    /// The address of the link itself.
    pub create_link_hash: ContentHash,
}

/// A header under which an entry was committed.
#[derive(Debug)]
pub struct HeaderInfo {
    pub author: Participant,
    pub header_hash: ContentHash,
}

/// An entry as the store returned it: every header under which it was
/// committed, and the record that it holds.
#[derive(Debug)]
pub struct EntryDetails {
    pub headers: Vec<HeaderInfo>,
    /// The record; `None` if the entry does not decode to one.
    pub game_result: Option<GameResult>,
}

/// The address of the first header that `agent` wrote, if there is one.
pub open spec fn first_header_by(headers: Seq<HeaderInfo>, agent: Seq<u8>) -> Option<Seq<u8>>
    decreases headers.len(),
{
    if headers.len() == 0 {
        None
    } else if headers.first().author@ == agent {
        Some(headers.first().header_hash@)
    } else {
        first_header_by(headers.drop_first(), agent)
    }
}

/// The address of the first header that `agent` wrote, if there is one.
pub fn header_for_author(headers: &Vec<HeaderInfo>, agent: &Participant) -> (hash: Option<
    ContentHash,
>)
    ensures
        view_opt_hash(hash) == first_header_by(headers@, agent@),
{
    let n: usize = headers.len();
    let mut i: usize = 0;
    assert(headers@.skip(0) =~= headers@);
    while i < n
        invariant
            n == headers@.len(),
            i <= n,
            first_header_by(headers@, agent@) == first_header_by(headers@.skip(i as int), agent@),
        decreases n - i,
    {
        assert(headers@.skip(i as int).first() == headers@[i as int]);
        assert(headers@.skip(i as int).drop_first() =~= headers@.skip(i + 1));
        if headers[i].author.same(agent) {
            return Some(headers[i].header_hash.duplicate());
        }
        i = i + 1;
    }
    None
}

/// The records of a list as mathematical values.
pub open spec fn view_results(results: Seq<CommittedResult>) -> Seq<CommittedResultView> {
    results.map_values(|c: CommittedResult| c@)
}

/// The records that `agent` wrote among the fetched entries, in their
/// order. An entry that is not there, or that the agent did not write, is
/// passed over; an entry of the agent that does not decode to a record makes
/// the whole reading fail.
pub open spec fn authored(details: Seq<Option<EntryDetails>>, agent: Seq<u8>) -> Result<
    Seq<CommittedResultView>,
    EloError,
>
    decreases details.len(),
{
    if details.len() == 0 {
        Ok(Seq::empty())
    } else {
        match authored(details.drop_last(), agent) {
            Err(e) => Err(e),
            Ok(rest) => match details.last() {
                None => Ok(rest),
                Some(d) => match first_header_by(d.headers@, agent) {
                    None => Ok(rest),
                    Some(header_hash) => match d.game_result {
                        None => Err(EloError::MalformedRecord),
                        Some(g) => Ok(
                            rest.push(CommittedResultView { header_hash, game_result: g@ }),
                        ),
                    },
                },
            },
        }
    }
}

/// Reads the records that `agent` wrote out of the entries that the store
/// returned for the agent's links, one per link and in the order of the
/// links.
pub fn get_game_results_from_links(
    agent: &Participant,
    details: &Vec<Option<EntryDetails>>,
) -> (results: Result<Vec<CommittedResult>, EloError>)
    ensures
        match authored(details@, agent@) {
            Ok(list) => results matches Ok(r) && view_results(r@) == list,
            Err(e) => results matches Err(f) && f == e,
        },
{
    let mut results: Vec<CommittedResult> = Vec::new();
    let n: usize = details.len();
    let mut i: usize = 0;
    assert(details@.take(0) =~= Seq::empty());
    assert(view_results(results@) =~= Seq::empty());
    while i < n
        invariant
            n == details@.len(),
            i <= n,
            authored(details@.take(i as int), agent@) == Ok::<Seq<CommittedResultView>, EloError>(
                view_results(results@),
            ),
        decreases n - i,
    {
        let ghost before = view_results(results@);
        assert(details@.take(i + 1).drop_last() =~= details@.take(i as int));
        assert(details@.take(i + 1).last() == details@[i as int]);
        match &details[i] {
            None => {},
            Some(d) => match header_for_author(&d.headers, agent) {
                None => {},
                Some(header_hash) => match &d.game_result {
                    None => {
                        proof {
                            lemma_authored_fails_on(details@, agent@, i + 1);
                        }
                        return Err(EloError::MalformedRecord);
                    },
                    Some(g) => {
                        let item = CommittedResult { header_hash, game_result: g.duplicate() };
                        let ghost item_view = item@;
                        results.push(item);
                        assert(view_results(results@) =~= before.push(item_view));
                    },
                },
            },
        }
        i = i + 1;
    }
    assert(details@.take(n as int) =~= details@);
    Ok(results)
}

/// A reading that fails on the first `k` entries fails on all of them, with
/// the same error.
pub proof fn lemma_authored_fails_on(details: Seq<Option<EntryDetails>>, agent: Seq<u8>, k: int)
    requires
        0 <= k <= details.len(),
        authored(details.take(k), agent) is Err,
    ensures
        authored(details, agent) == authored(details.take(k), agent),
    decreases details.len() - k,
{
    if k == details.len() {
        assert(details.take(k) =~= details);
    } else {
        assert(details.take(k + 1).drop_last() =~= details.take(k));
        lemma_authored_fails_on(details, agent, k + 1);
    }
}

/// A player and the entries that the store returned for the player's links.
#[derive(Debug)]
pub struct AgentDetails {
    pub agent: Participant,
    pub details: Vec<Option<EntryDetails>>,
}

/// A player and the records that the player wrote.
#[derive(Debug)]
pub struct AgentResults {
    pub agent: Participant,
    pub results: Vec<CommittedResult>,
}

/// The records of each of the given players, in the order of the players.
/// Fails with `MalformedRecord` exactly if the reading fails for one of
/// them.
pub fn get_game_results_for_agents(fetched: &Vec<AgentDetails>) -> (histories: Result<
    Vec<AgentResults>,
    EloError,
>)
    ensures
        histories matches Ok(list) ==> {
            &&& list@.len() == fetched@.len()
            &&& forall|i: int|
                0 <= i < list@.len() ==> {
                    &&& (#[trigger] list@[i]).agent@ == fetched@[i].agent@
                    &&& authored(fetched@[i].details@, fetched@[i].agent@) == Ok::<
                        Seq<CommittedResultView>,
                        EloError,
                    >(view_results(list@[i].results@))
                }
        },
        histories matches Err(e) ==> e == EloError::MalformedRecord,
        histories is Err <==> exists|i: int|
            0 <= i < fetched@.len() && authored(
                (#[trigger] fetched@[i]).details@,
                fetched@[i].agent@,
            ) is Err,
{
    let mut list: Vec<AgentResults> = Vec::new();
    let n: usize = fetched.len();
    let mut i: usize = 0;
    while i < n
        invariant
            n == fetched@.len(),
            i <= n,
            list@.len() == i,
            forall|j: int|
                0 <= j < i ==> {
                    &&& (#[trigger] list@[j]).agent@ == fetched@[j].agent@
                    &&& authored(fetched@[j].details@, fetched@[j].agent@) == Ok::<
                        Seq<CommittedResultView>,
                        EloError,
                    >(view_results(list@[j].results@))
                },
        decreases n - i,
    {
        match get_game_results_from_links(&fetched[i].agent, &fetched[i].details) {
            Ok(results) => {
                list.push(AgentResults { agent: fetched[i].agent.duplicate(), results });
            },
            Err(e) => {
                assert(authored(fetched@[i as int].details@, fetched@[i as int].agent@) is Err);
                return Err(EloError::MalformedRecord);
            },
        }
        i = i + 1;
    }
    assert forall|k: int| 0 <= k < fetched@.len() implies !(authored(
        (#[trigger] fetched@[k]).details@,
        fetched@[k].agent@,
    ) is Err) by {
        assert(list@[k].agent@ == fetched@[k].agent@);
    }
    Ok(list)
}

/// The head of a chain: the first of the records that were read for the
/// latest link.
pub fn get_my_last_game_result(results: &Vec<CommittedResult>) -> (head: Option<CommittedResult>)
    ensures
        results@.len() == 0 ==> head is None,
        results@.len() > 0 ==> view_head(head) == Some(results@[0]@),
{
    if results.len() == 0 {
        None
    } else {
        Some(results[0].duplicate())
    }
}

/// The kind of an entry.
#[derive(Clone, Copy, Debug, PartialEq, Eq, Structural)]
pub enum EntryKind {
    /// An entry of the application.
    App,
    /// An entry that was signed by several parties.
    CounterSign,
    /// Any other entry.
    Other,
}

/// The record that an entry holds. `decoded` is what decoding the entry's
/// bytes gave. Entries of the application and countersigned entries can
/// hold a record; every other entry, and bytes that do not decode, are
/// malformed.
pub fn entry_to_game_result(kind: EntryKind, decoded: Option<GameResult>) -> (record: Result<
    GameResult,
    EloError,
>)
    ensures
        match decoded {
            Some(g) => if kind == EntryKind::Other {
                record matches Err(e) && e == EloError::MalformedRecord
            } else {
                record matches Ok(r) && r@ == g@
            },
            None => record matches Err(e) && e == EloError::MalformedRecord,
        },
{
    match kind {
        EntryKind::Other => Err(EloError::MalformedRecord),
        _ => match decoded {
            Some(g) => Ok(g),
            None => Err(EloError::MalformedRecord),
        },
    }
}

/// An element as the store returned it: the address of its header, and its
/// entry if the element carries one.
#[derive(Debug)]
pub struct FetchedElement {
    pub header_hash: ContentHash,
    /// The content address of the entry, if the header names one.
    pub entry_hash: Option<ContentHash>,
    /// The kind of the entry, if the element carries it.
    pub entry_kind: Option<EntryKind>,
    /// What decoding the entry's bytes gave.
    pub decoded: Option<GameResult>,
}

/// The record that an element holds, with the address of its header. An
/// element without an entry is malformed.
pub fn element_to_game_result(element: FetchedElement) -> (record: Result<CommittedResult, EloError>)
    ensures
        match (element.entry_kind, element.decoded) {
            (Some(EntryKind::App), Some(g)) | (Some(EntryKind::CounterSign), Some(g)) =>
                record matches Ok(c) && c@ == (CommittedResultView {
                    header_hash: element.header_hash@,
                    game_result: g@,
                }),
            _ => record matches Err(e) && e == EloError::MalformedRecord,
        },
{
    let kind = match element.entry_kind {
        Some(k) => k,
        None => {
            return Err(EloError::MalformedRecord);
        },
    };
    match entry_to_game_result(kind, element.decoded) {
        Ok(game_result) => Ok(CommittedResult { header_hash: element.header_hash, game_result }),
        Err(e) => Err(e),
    }
}

/// The rating of a player before a record, with the entry that brought it.
#[derive(Debug)]
pub struct PreviousRating {
    pub entry_hash: ContentHash,
    pub rating: EloRating,
}

/// What the previous record of `agent` says of the agent's rating, where
/// `declared` is the link to it and `found` what looking it up gave.
pub open spec fn previous_rating_spec(
    agent: Seq<u8>,
    declared: Option<Seq<u8>>,
    found: Option<FetchedElement>,
) -> Result<Option<(Seq<u8>, int)>, EloError> {
    match declared {
        None => Ok(None),
        Some(_) => match found {
            None => Err(EloError::UnresolvedDependency),
            Some(element) => match (element.entry_kind, element.decoded) {
                (Some(EntryKind::App), Some(g)) | (Some(EntryKind::CounterSign), Some(g)) =>
                    match g@.update_for(agent) {
                        None => Err(EloError::NotAParticipant),
                        Some(update) => match element.entry_hash {
                            None => Err(EloError::MalformedRecord),
                            Some(h) => Ok(Some((h@, update.current_elo))),
                        },
                    },
                _ => Err(EloError::MalformedRecord),
            },
        },
    }
}

/// The rating that `agent_pub_key` had before a record that links to
/// `previous_game_result_hash`, with the entry that brought it. `found` is
/// what looking up that link gave; it is not read for a first record.
pub fn get_previous_rating(
    agent_pub_key: &Participant,
    previous_game_result_hash: &Option<ContentHash>,
    found: Option<FetchedElement>,
) -> (previous: Result<Option<PreviousRating>, EloError>)
    ensures
        match previous_rating_spec(
            agent_pub_key@,
            view_opt_hash(*previous_game_result_hash),
            found,
        ) {
            Ok(None) => previous matches Ok(None),
            Ok(Some((h, r))) => previous matches Ok(Some(p)) && p.entry_hash@ == h && p.rating == r,
            Err(e) => previous matches Err(f) && f == e,
        },
{
    match previous_game_result_hash {
        None => Ok(None),
        Some(_) => {
            let element = match found {
                Some(e) => e,
                None => {
                    return Err(EloError::UnresolvedDependency);
                },
            };
            let entry_hash = duplicate_opt_hash(&element.entry_hash);
            let committed = match element_to_game_result(element) {
                Ok(c) => c,
                Err(e) => {
                    return Err(e);
                },
            };
            let rating = match committed.game_result.elo_rating_for(agent_pub_key) {
                Ok(r) => r,
                Err(e) => {
                    return Err(e);
                },
            };
            match entry_hash {
                Some(h) => Ok(Some(PreviousRating { entry_hash: h, rating })),
                None => Err(EloError::MalformedRecord),
            }
        },
    }
}

/// Whether one of the links leads to `target`.
pub open spec fn links_to(links: Seq<LinkInfo>, target: Seq<u8>) -> bool {
    exists|i: int| 0 <= i < links.len() && (#[trigger] links[i]).target@ == target
}

/// Whether one of the links leads to `target`.
pub fn is_linked(links: &Vec<LinkInfo>, target: &ContentHash) -> (found: bool)
    ensures
        found == links_to(links@, target@),
{
    let n: usize = links.len();
    let mut i: usize = 0;
    while i < n
        invariant
            n == links@.len(),
            i <= n,
            forall|j: int| 0 <= j < i ==> (#[trigger] links@[j]).target@ != target@,
        decreases n - i,
    {
        if links[i].target.same(target) {
            return true;
        }
        i = i + 1;
    }
    false
}

/// What taking a committed record into the own index takes.
#[derive(Debug)]
pub enum IndexPlan {
    /// The record is linked already: nothing is to be done.
    AlreadyIndexed,
    /// Link the player to the record, change the ranking, and signal the
    /// new record.
    Index { link_from: Participant, link_to: ContentHash, ranking: RankingUpdate, signal: EloSignal },
}

/// Plans taking the committed record `game_result`, with the content
/// address `game_result_hash`, into the index of `me`. `my_entry_hash` is
/// the content address of the own key, under which `me` entered the ranking
/// on joining. `links` are the links that lead from `me` to records so far,
/// and `previous` is what looking up the own previous record gave.
///
/// A record in which `me` did not play is refused. A record that is linked
/// already is not indexed again. Else the plan links the record, signals
/// it, and puts the own new rating into the ranking in place of the entry
/// before it: that of the previous record, or, for a first record, that of
/// the joining, at the policy's initial rating.
pub fn index_game_result_if_not_exists(
    params: &EloParameters,
    game_result: GameResult,
    game_result_hash: ContentHash,
    me: &Participant,
    my_entry_hash: &ContentHash,
    links: &Vec<LinkInfo>,
    previous: Option<FetchedElement>,
) -> (plan: Result<IndexPlan, EloError>)
    ensures
        match game_result@.update_for(me@) {
            None => plan matches Err(e) && e == EloError::NotAParticipant,
            Some(update) => if links_to(links@, game_result_hash@) {
                plan matches Ok(IndexPlan::AlreadyIndexed)
            } else {
                match previous_rating_spec(me@, update.previous_game_result, previous) {
                    Err(e) => plan matches Err(f) && f == e,
                    Ok(before) => plan matches Ok(
                        IndexPlan::Index { link_from, link_to, ranking, signal },
                    ) && link_from@ == update.player_address && link_to@ == game_result_hash@
                        && ranking@ == ranking_update(
                        update.player_address,
                        Some(
                            match before {
                                Some(entry) => entry,
                                None => (my_entry_hash@, params.initial_rating as int),
                            },
                        ),
                        game_result_hash@,
                        update.current_elo,
                    ) && (signal matches EloSignal::NewGameResult { entry_hash, game_result: g }
                        && entry_hash@ == game_result_hash@ && g@ == game_result@),
                }
            },
        },
{
    let elo_update = match game_result.elo_update_for(me) {
        Some(u) => u,
        None => {
            return Err(EloError::NotAParticipant);
        },
    };
    if is_linked(links, &game_result_hash) {
        return Ok(IndexPlan::AlreadyIndexed);
    }
    let previous_rating = match get_previous_rating(
        &elo_update.player_address,
        &elo_update.previous_game_result,
        previous,
    ) {
        Ok(p) => p,
        Err(e) => {
            return Err(e);
        },
    };
    let before = match previous_rating {
        Some(p) => (p.entry_hash, p.rating),
        None => (my_entry_hash.duplicate(), params.initial_rating),
    };
    let ranking = put_elo_rating_in_ranking(
        game_result_hash.duplicate(),
        elo_update.player_address.duplicate(),
        Some(before),
        elo_update.current_elo,
    );
    Ok(
        IndexPlan::Index {
            link_from: elo_update.player_address,
            link_to: game_result_hash.duplicate(),
            ranking,
            signal: EloSignal::NewGameResult { entry_hash: game_result_hash, game_result },
        },
    )
}

} // verus!
