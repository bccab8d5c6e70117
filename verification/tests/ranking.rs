use elo_ledger::elo_rating_system::parameters;
use elo_ledger::elo_ranking::{
    put_elo_rating_in_ranking, RankingUpdate, ELO_RANKING_INDEX_INTERVAL, ELO_RANKING_INDEX_NAME,
};
use elo_ledger::error::EloError;
use elo_ledger::example::ChessEloRating;
use elo_ledger::game_result::handlers::{
    element_to_game_result, entry_to_game_result, game_results_tag, get_game_results_for_agents,
    get_game_results_from_links, get_my_last_game_result, get_previous_rating, header_for_author,
    index_game_result_if_not_exists, is_linked, AgentDetails,
    EntryDetails, EntryKind, FetchedElement, HeaderInfo, IndexPlan, LinkInfo,
};
use elo_ledger::game_result::unpublished::unpublished_game_tag;
use elo_ledger::game_result::{EloSignal, EloUpdate, GameResult};
use elo_ledger::identity::{ContentHash, Participant};
use elo_ledger::mixin::{
    create_game_result_and_flag, create_unilateral_game_result_and_flag, init_elo,
    post_commit_elo, ChainElement,
};
use elo_ledger::score::Score;

fn kim() -> Participant {
    Participant::new(vec![1, 0])
}

fn lee() -> Participant {
    Participant::new(vec![2, 0])
}

fn max() -> Participant {
    Participant::new(vec![3, 0])
}

fn hash(n: u8) -> ContentHash {
    ContentHash::new(vec![n])
}

fn record(a: Participant, ra: i32, b: Participant, rb: i32) -> GameResult {
    GameResult {
        player_a: EloUpdate { player_address: a, current_elo: ra, previous_game_result: None },
        player_b: EloUpdate { player_address: b, current_elo: rb, previous_game_result: None },
        score_player_a: Score::win(),
        game_info: vec![8],
    }
}

/// A ranking as the store keeps it: the participant, the rating, and the record that brought it.
type Ranking = Vec<(Vec<u8>, i64, Vec<u8>)>;

/// Carries out an update as the store does: the named entry leaves, the new one comes in.
fn carry_out(ranking: &mut Ranking, update: &RankingUpdate) {
    if let Some(removal) = &update.remove {
        ranking.retain(|entry| !(entry.2 == removal.entry_hash.bytes && entry.1 == removal.rating));
    }
    ranking.push((
        update.insert.agent.key.clone(),
        update.insert.rating,
        update.insert.entry_hash.bytes.clone(),
    ));
}

fn entries_of(ranking: &Ranking, agent: &Participant) -> Vec<(i64, Vec<u8>)> {
    ranking
        .iter()
        .filter(|entry| entry.0 == agent.key)
        .map(|entry| (entry.1, entry.2.clone()))
        .collect()
}

/// Indexes the record for `agent` and carries out the plan.
fn index(
    ranking: &mut Ranking,
    game_result: &GameResult,
    entry: u8,
    agent: &Participant,
    key_hash: u8,
    previous: Option<FetchedElement>,
) {
    let plan = index_game_result_if_not_exists(
        &parameters::<ChessEloRating>(),
        game_result.duplicate(),
        hash(entry),
        agent,
        &hash(key_hash),
        &vec![],
        previous,
    )
    .unwrap();
    match plan {
        IndexPlan::Index { ranking: update, .. } => carry_out(ranking, &update),
        IndexPlan::AlreadyIndexed => panic!("the record is not indexed yet"),
    }
}

fn link(target: u8, timestamp: i64) -> LinkInfo {
    LinkInfo { target: hash(target), timestamp, create_link_hash: hash(200) }
}

#[test]
fn joining_and_records_leave_one_entry_with_the_latest_rating() {
    let params = parameters::<ChessEloRating>();
    let mut ranking: Ranking = Vec::new();
    carry_out(&mut ranking, &init_elo(&params, kim(), hash(71)).ranking);
    carry_out(&mut ranking, &init_elo(&params, lee(), hash(72)).ranking);
    assert_eq!(entries_of(&ranking, &kim()), vec![(1000, vec![71])]);

    // The records of Kim's chain, each with its header, its entry, and the opponent's rating.
    let ratings: Vec<i32> = vec![1016, 1003, 1003, 1040, 980];
    let mut previous: Option<(u8, u8, GameResult)> = None;
    for (n, rating) in ratings.iter().enumerate() {
        let header = 100 + n as u8;
        let entry = 10 + n as u8;
        let mut g = record(kim(), *rating, max(), 2000 - *rating);
        g.player_a.previous_game_result = previous.as_ref().map(|p| hash(p.0));
        let found = previous.as_ref().map(|p| FetchedElement {
            header_hash: hash(p.0),
            entry_hash: Some(hash(p.1)),
            entry_kind: Some(EntryKind::CounterSign),
            decoded: Some(p.2.duplicate()),
        });
        index(&mut ranking, &g, entry, &kim(), 71, found);
        assert_eq!(entries_of(&ranking, &kim()), vec![(*rating as i64, vec![entry])]);
        assert_eq!(entries_of(&ranking, &lee()), vec![(1000, vec![72])]);
        previous = Some((header, entry, g));
    }
    assert_eq!(ranking.len(), 2);
}

#[test]
fn first_record_takes_the_joining_entry_away() {
    let g = record(kim(), 1016, lee(), 984);
    let first = index_game_result_if_not_exists(
        &parameters::<ChessEloRating>(),
        g.duplicate(),
        hash(5),
        &lee(),
        &hash(72),
        &vec![],
        None,
    );
    match first {
        Ok(IndexPlan::Index { ranking, .. }) => {
            let removal = ranking.remove.unwrap();
            assert!(removal.entry_hash.same(&hash(72)));
            assert_eq!(removal.rating, 1000);
            assert_eq!(ranking.insert.rating, 984);
            assert!(ranking.insert.agent.same(&lee()));
        }
        _ => panic!("the record should be indexed"),
    }
}

#[test]
fn ranking_update_names_what_leaves_and_what_enters() {
    let first = put_elo_rating_in_ranking(hash(1), kim(), None, 1000);
    assert!(first.remove.is_none());
    assert!(first.insert.agent.same(&kim()));
    assert_eq!(first.insert.rating, 1000);
    assert!(first.insert.entry_hash.same(&hash(1)));
    let next = put_elo_rating_in_ranking(hash(2), kim(), Some((hash(1), 1000)), -16);
    let removal = next.remove.unwrap();
    assert!(removal.entry_hash.same(&hash(1)));
    assert_eq!(removal.rating, 1000);
    assert_eq!(next.insert.rating, -16);
    assert_eq!(ELO_RANKING_INDEX_NAME, "elo_ranking");
    assert_eq!(ELO_RANKING_INDEX_INTERVAL, 200);
}

#[test]
fn joining_enters_the_ranking_with_the_initial_rating() {
    let plan = init_elo(&parameters::<ChessEloRating>(), kim(), hash(7));
    assert_eq!(plan.granted_function, "request_publish_game_result");
    assert_eq!(plan.scheduled_function, "scheduled_try_resolve_unpublished_game_results");
    assert!(plan.ranking.remove.is_none());
    assert_eq!(plan.ranking.insert.rating, 1000);
    assert!(plan.ranking.insert.agent.same(&kim()));
    assert!(plan.ranking.insert.entry_hash.same(&hash(7)));
}

#[test]
fn tags_are_fixed() {
    assert_eq!(game_results_tag(), "game_result");
    assert_eq!(unpublished_game_tag(), "unpublished_game");
}

#[test]
fn links_are_found_by_target() {
    assert!(is_linked(&vec![link(1, 5), link(2, 9)], &hash(2)));
    assert!(!is_linked(&vec![link(1, 5), link(2, 9)], &hash(3)));
    assert!(!is_linked(&vec![], &hash(3)));
}

#[test]
fn records_are_read_by_author() {
    let headers = vec![
        HeaderInfo { author: lee(), header_hash: hash(10) },
        HeaderInfo { author: kim(), header_hash: hash(11) },
        HeaderInfo { author: kim(), header_hash: hash(12) },
    ];
    assert!(header_for_author(&headers, &kim()).unwrap().same(&hash(11)));
    assert!(header_for_author(&headers, &lee()).unwrap().same(&hash(10)));
    assert!(header_for_author(&headers, &max()).is_none());

    let details = vec![
        None,
        Some(EntryDetails {
            headers: vec![
                HeaderInfo { author: lee(), header_hash: hash(10) },
                HeaderInfo { author: kim(), header_hash: hash(11) },
            ],
            game_result: Some(record(kim(), 1016, lee(), 984)),
        }),
        Some(EntryDetails {
            headers: vec![HeaderInfo { author: max(), header_hash: hash(20) }],
            game_result: None,
        }),
        Some(EntryDetails {
            headers: vec![HeaderInfo { author: kim(), header_hash: hash(30) }],
            game_result: Some(record(max(), 990, kim(), 1026)),
        }),
    ];
    let mine = get_game_results_from_links(&kim(), &details).unwrap();
    assert_eq!(mine.len(), 2);
    assert!(mine[0].header_hash.same(&hash(11)));
    assert_eq!(mine[0].game_result.player_a.current_elo, 1016);
    assert!(mine[1].header_hash.same(&hash(30)));
    assert!(get_my_last_game_result(&mine).unwrap().header_hash.same(&hash(11)));
    assert!(get_my_last_game_result(&vec![]).is_none());
    assert_eq!(get_game_results_from_links(&lee(), &details).unwrap().len(), 1);
    assert!(matches!(
        get_game_results_from_links(&max(), &details),
        Err(EloError::MalformedRecord)
    ));

    let fetched = vec![
        AgentDetails { agent: lee(), details: vec![] },
        AgentDetails { agent: kim(), details },
    ];
    let histories = get_game_results_for_agents(&fetched).unwrap();
    assert_eq!(histories.len(), 2);
    assert!(histories[0].agent.same(&lee()) && histories[0].results.is_empty());
    assert!(histories[1].agent.same(&kim()));
    assert_eq!(histories[1].results.len(), 2);
    let broken = vec![AgentDetails {
        agent: max(),
        details: vec![Some(EntryDetails {
            headers: vec![HeaderInfo { author: max(), header_hash: hash(20) }],
            game_result: None,
        })],
    }];
    assert!(matches!(get_game_results_for_agents(&broken), Err(EloError::MalformedRecord)));
}

#[test]
fn entries_hold_records_only_in_two_kinds() {
    let g = record(kim(), 1016, lee(), 984);
    assert!(entry_to_game_result(EntryKind::App, Some(g.duplicate())).unwrap().same(&g));
    assert!(entry_to_game_result(EntryKind::CounterSign, Some(g.duplicate())).unwrap().same(&g));
    assert!(matches!(
        entry_to_game_result(EntryKind::Other, Some(g.duplicate())),
        Err(EloError::MalformedRecord)
    ));
    assert!(matches!(entry_to_game_result(EntryKind::App, None), Err(EloError::MalformedRecord)));
    let element = FetchedElement {
        header_hash: hash(1),
        entry_hash: Some(hash(2)),
        entry_kind: Some(EntryKind::CounterSign),
        decoded: Some(g.duplicate()),
    };
    let committed = element_to_game_result(element).unwrap();
    assert!(committed.header_hash.same(&hash(1)) && committed.game_result.same(&g));
    let bare = FetchedElement {
        header_hash: hash(1),
        entry_hash: Some(hash(2)),
        entry_kind: None,
        decoded: Some(g),
    };
    assert!(matches!(element_to_game_result(bare), Err(EloError::MalformedRecord)));
}

#[test]
fn previous_rating_comes_from_the_previous_record() {
    let g = record(kim(), 1016, lee(), 984);
    let element = |entry_hash: Option<ContentHash>, decoded: Option<GameResult>| FetchedElement {
        header_hash: hash(1),
        entry_hash,
        entry_kind: Some(EntryKind::App),
        decoded,
    };
    assert!(matches!(get_previous_rating(&kim(), &None, None), Ok(None)));
    assert!(matches!(
        get_previous_rating(&kim(), &None, Some(element(None, None))),
        Ok(None)
    ));
    let found =
        get_previous_rating(&lee(), &Some(hash(1)), Some(element(Some(hash(2)), Some(g.duplicate()))))
            .unwrap()
            .unwrap();
    assert_eq!(found.rating, 984);
    assert!(found.entry_hash.same(&hash(2)));
    assert!(matches!(
        get_previous_rating(&kim(), &Some(hash(1)), None),
        Err(EloError::UnresolvedDependency)
    ));
    assert!(matches!(
        get_previous_rating(&kim(), &Some(hash(1)), Some(element(Some(hash(2)), None))),
        Err(EloError::MalformedRecord)
    ));
    assert!(matches!(
        get_previous_rating(&max(), &Some(hash(1)), Some(element(Some(hash(2)), Some(g.duplicate())))),
        Err(EloError::NotAParticipant)
    ));
    assert!(matches!(
        get_previous_rating(&kim(), &Some(hash(1)), Some(element(None, Some(g)))),
        Err(EloError::MalformedRecord)
    ));
}

#[test]
fn committed_record_is_indexed_once() {
    let mut g = record(kim(), 1030, lee(), 970);
    g.player_a.previous_game_result = Some(hash(1));
    let previous = FetchedElement {
        header_hash: hash(1),
        entry_hash: Some(hash(2)),
        entry_kind: Some(EntryKind::App),
        decoded: Some(record(kim(), 1016, max(), 984)),
    };
    let params = parameters::<ChessEloRating>();
    let plan = index_game_result_if_not_exists(
        &params,
        g.duplicate(),
        hash(5),
        &kim(),
        &hash(71),
        &vec![link(2, 1)],
        Some(previous),
    )
    .unwrap();
    match plan {
        IndexPlan::Index { link_from, link_to, ranking, signal } => {
            assert!(link_from.same(&kim()));
            assert!(link_to.same(&hash(5)));
            let removal = ranking.remove.unwrap();
            assert!(removal.entry_hash.same(&hash(2)));
            assert_eq!(removal.rating, 1016);
            assert_eq!(ranking.insert.rating, 1030);
            assert!(ranking.insert.agent.same(&kim()));
            assert!(ranking.insert.entry_hash.same(&hash(5)));
            match signal {
                EloSignal::NewGameResult { entry_hash, game_result } => {
                    assert!(entry_hash.same(&hash(5)));
                    assert!(game_result.same(&g));
                }
            }
        }
        IndexPlan::AlreadyIndexed => panic!("the record is not indexed yet"),
    }
    let again = index_game_result_if_not_exists(
        &params,
        g.duplicate(),
        hash(5),
        &kim(),
        &hash(71),
        &vec![link(5, 1)],
        None,
    );
    assert!(matches!(again, Ok(IndexPlan::AlreadyIndexed)));
    assert!(matches!(
        index_game_result_if_not_exists(
            &params,
            g.duplicate(),
            hash(5),
            &max(),
            &hash(73),
            &vec![],
            None
        ),
        Err(EloError::NotAParticipant)
    ));
    assert!(matches!(
        index_game_result_if_not_exists(&params, g, hash(5), &kim(), &hash(71), &vec![], None),
        Err(EloError::UnresolvedDependency)
    ));
}

#[test]
fn post_commit_picks_the_new_entries() {
    let elements = vec![
        ChainElement { header_hash: hash(1), entry_hash: Some(hash(11)) },
        ChainElement { header_hash: hash(2), entry_hash: Some(hash(12)) },
        ChainElement { header_hash: hash(3), entry_hash: None },
        ChainElement { header_hash: hash(4), entry_hash: Some(hash(14)) },
    ];
    let new = post_commit_elo(&elements, &vec![hash(4), hash(3), hash(1), hash(9)]);
    assert_eq!(new.len(), 2);
    assert!(new[0].same(&hash(11)) && new[1].same(&hash(14)));
    assert!(post_commit_elo(&elements, &vec![]).is_empty());
    assert!(post_commit_elo(&vec![], &vec![hash(1)]).is_empty());
}

#[test]
fn unilateral_record_is_flagged_for_the_opponent() {
    let plan = create_game_result_and_flag(&parameters::<ChessEloRating>(), &vec![8],
        &kim(),
        &lee(),
        Score::win(),
        &None,
        &None,
        (1016, 984),
    )
    .unwrap();
    assert!(plan.flag_for.same(&lee()));
    assert!(plan.game_result.same(&record(kim(), 1016, lee(), 984)));
    let by_lee =
        create_unilateral_game_result_and_flag(record(kim(), 1016, lee(), 984), &lee()).unwrap();
    assert!(by_lee.flag_for.same(&kim()));
    assert!(matches!(
        create_unilateral_game_result_and_flag(record(kim(), 1016, lee(), 984), &max()),
        Err(EloError::NotAParticipant)
    ));
    assert!(matches!(
        create_game_result_and_flag(&parameters::<ChessEloRating>(), &vec![8],
            &kim(),
            &kim(),
            Score::win(),
            &None,
            &None,
            (1016, 984),
        ),
        Err(EloError::SelfPlay)
    ));
}
