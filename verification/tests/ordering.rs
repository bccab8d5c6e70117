use elo_ledger::elo_ranking::{
    get_elo_ranking_chunk, ranking_query, GetEloRankingChunkInput, RankingGroup, RankingTag,
};
use elo_ledger::error::EloError;
use elo_ledger::game_result::handlers::LinkInfo;
use elo_ledger::game_result::links::{
    bytes_less, filter_links_to_same_entry, get_game_results_links_for_agents,
    get_last_game_result_link, link_less,
};
use elo_ledger::identity::{ContentHash, Participant};

fn link(target: Vec<u8>, timestamp: i64, id: u8) -> LinkInfo {
    LinkInfo {
        target: ContentHash::new(target),
        timestamp,
        create_link_hash: ContentHash::new(vec![id]),
    }
}

fn agent(n: u8) -> Participant {
    Participant::new(vec![n])
}

#[test]
fn bytes_are_ordered_as_in_a_dictionary() {
    assert!(bytes_less(&vec![], &vec![0]));
    assert!(!bytes_less(&vec![], &vec![]));
    assert!(!bytes_less(&vec![0], &vec![]));
    assert!(bytes_less(&vec![1, 2], &vec![1, 3]));
    assert!(!bytes_less(&vec![1, 3], &vec![1, 2]));
    assert!(bytes_less(&vec![1, 2], &vec![1, 2, 0]));
    assert!(!bytes_less(&vec![1, 2, 0], &vec![1, 2]));
    assert!(bytes_less(&vec![1, 255], &vec![2]));
    assert!(!bytes_less(&vec![7, 7], &vec![7, 7]));
    let samples: Vec<Vec<u8>> =
        vec![vec![], vec![0], vec![0, 0], vec![0, 1], vec![1], vec![1, 0], vec![200, 3], vec![255]];
    for a in &samples {
        for b in &samples {
            assert_eq!(bytes_less(a, b), a < b);
        }
    }
}

#[test]
fn links_are_ordered_by_time_then_target() {
    assert!(link_less(&link(vec![9], 1, 0), &link(vec![1], 2, 0)));
    assert!(!link_less(&link(vec![1], 2, 0), &link(vec![9], 1, 0)));
    assert!(link_less(&link(vec![1], 5, 0), &link(vec![2], 5, 0)));
    assert!(!link_less(&link(vec![2], 5, 0), &link(vec![1], 5, 0)));
    assert!(!link_less(&link(vec![2], 5, 0), &link(vec![2], 5, 1)));
}

#[test]
fn later_links_to_the_same_record_are_dropped() {
    let links = vec![
        link(vec![3], 30, 1),
        link(vec![1], 10, 2),
        link(vec![3], 5, 3),
        link(vec![2], 10, 4),
        link(vec![1], 99, 5),
    ];
    let kept = filter_links_to_same_entry(&links);
    let ids: Vec<u8> = kept.iter().map(|l| l.create_link_hash.bytes[0]).collect();
    assert_eq!(ids, vec![1, 2, 4]);
    assert!(filter_links_to_same_entry(&vec![]).is_empty());
}

#[test]
fn links_of_a_player_come_out_in_order() {
    let links = vec![
        link(vec![3], 30, 1),
        link(vec![2], 10, 2),
        link(vec![3], 5, 3),
        link(vec![1], 10, 4),
        link(vec![4], -7, 5),
        link(vec![1], 99, 6),
    ];
    let ordered = get_game_results_links_for_agents(&links);
    let seen: Vec<(i64, u8, u8)> = ordered
        .iter()
        .map(|l| (l.timestamp, l.target.bytes[0], l.create_link_hash.bytes[0]))
        .collect();
    assert_eq!(seen, vec![(-7, 4, 5), (10, 1, 4), (10, 2, 2), (30, 3, 1)]);
    // The last link leads to the head of the chain.
    assert_eq!(ordered.last().unwrap().target.bytes, vec![3]);
    assert!(get_game_results_links_for_agents(&vec![]).is_empty());
    let single = get_game_results_links_for_agents(&vec![link(vec![8], 1, 1)]);
    assert_eq!(single.len(), 1);
}

#[test]
fn head_is_behind_the_latest_link() {
    assert!(get_last_game_result_link(&vec![]).is_none());
    let one = get_last_game_result_link(&vec![link(vec![1], 5, 1)]).unwrap();
    assert_eq!(one.create_link_hash.bytes, vec![1]);
    let latest = get_last_game_result_link(&vec![
        link(vec![1], 5, 1),
        link(vec![2], 9, 2),
        link(vec![3], 7, 3),
    ])
    .unwrap();
    assert_eq!(latest.create_link_hash.bytes, vec![2]);
    // Of two links of the latest time, the one with the greater target.
    let tie = get_last_game_result_link(&vec![
        link(vec![7], 9, 1),
        link(vec![2], 9, 2),
        link(vec![3], 7, 3),
    ])
    .unwrap();
    assert_eq!(tie.create_link_hash.bytes, vec![1]);
    // A later link to a record that is linked already does not count.
    let again = get_last_game_result_link(&vec![
        link(vec![1], 5, 1),
        link(vec![2], 9, 2),
        link(vec![1], 50, 3),
    ])
    .unwrap();
    assert_eq!(again.create_link_hash.bytes, vec![2]);
    let early = get_last_game_result_link(&vec![link(vec![1], -3, 1), link(vec![2], -9, 2)]);
    assert_eq!(early.unwrap().create_link_hash.bytes, vec![1]);
}

#[test]
fn query_asks_downwards_from_the_cursor() {
    let query = ranking_query(GetEloRankingChunkInput { from_elo: Some(1200), agent_count: 10 });
    assert!(query.descending);
    assert_eq!(query.count, 10);
    assert_eq!(query.cursor, Some(1200));
    let top = ranking_query(GetEloRankingChunkInput { from_elo: None, agent_count: 3 });
    assert_eq!(top.cursor, None);
    let huge = ranking_query(GetEloRankingChunkInput { from_elo: Some(usize::MAX), agent_count: 3 });
    assert_eq!(huge.cursor, Some(i64::MAX));
}

#[test]
fn rows_list_the_participants_that_the_entries_name() {
    let chunk = vec![
        RankingGroup {
            ranking: 1000,
            tags: vec![RankingTag::Agent(agent(1)), RankingTag::Missing, RankingTag::Agent(agent(2))],
        },
        RankingGroup { ranking: 1200, tags: vec![] },
    ];
    let rows = get_elo_ranking_chunk(&chunk).unwrap();
    assert_eq!(rows.len(), 2);
    assert_eq!(rows[0].rating, 1000);
    assert_eq!(rows[0].agents.len(), 2);
    assert!(rows[0].agents[0].same(&agent(1)) && rows[0].agents[1].same(&agent(2)));
    assert_eq!(rows[1].rating, 1200);
    assert!(rows[1].agents.is_empty());
    let broken = vec![
        RankingGroup { ranking: 1000, tags: vec![RankingTag::Agent(agent(1))] },
        RankingGroup { ranking: 900, tags: vec![RankingTag::Unreadable, RankingTag::Agent(agent(2))] },
    ];
    assert!(matches!(get_elo_ranking_chunk(&broken), Err(EloError::MalformedRecord)));
    assert!(get_elo_ranking_chunk(&vec![]).unwrap().is_empty());
}
