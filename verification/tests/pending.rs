use elo_ledger::countersigning::sender::CreateGameResultOutcome;
use elo_ledger::elo_rating_system::{parameters, DomainVerdict, EloParameters, EloRatingSystem};
use elo_ledger::error::EloError;
use elo_ledger::example::ChessEloRating;
use elo_ledger::game_result::unpublished::{
    get_my_unpublished_game_results, rebase_game_result, rebase_rating_inputs, Flag,
};
use elo_ledger::game_result::validation::{
    validate_elo_update_is_correct, Resolution, Verdict,
};
use elo_ledger::game_result::{CommittedResult, EloUpdate, GameResult};
use elo_ledger::identity::{contains_hash, ContentHash, Participant};
use elo_ledger::score::Score;
use elo_ledger::unpublished::{
    entries_without, get_unpublished_game_results, Attempt, PendingEntry, PendingResultStore,
    UnpublishedGameResult,
};

fn me() -> Participant {
    Participant::new(vec![1])
}

fn you() -> Participant {
    Participant::new(vec![2])
}

fn id(n: u8) -> ContentHash {
    ContentHash::new(vec![n])
}

fn entry(n: u8) -> PendingEntry {
    PendingEntry {
        id: id(n),
        pending: UnpublishedGameResult {
            game_info: vec![n, n],
            opponent_address: you(),
            my_score: Score::win(),
        },
    }
}

fn published(n: u8) -> Attempt {
    Attempt {
        id: id(n),
        outcome: Ok(CreateGameResultOutcome::Published { game_result_hash: id(100 + n) }),
    }
}

fn ids(store: &PendingResultStore) -> Vec<Vec<u8>> {
    store.entries.iter().map(|e| e.id.bytes.clone()).collect()
}

fn record(a: Participant, ra: i32, b: Participant, rb: i32) -> GameResult {
    GameResult {
        player_a: EloUpdate { player_address: a, current_elo: ra, previous_game_result: None },
        player_b: EloUpdate { player_address: b, current_elo: rb, previous_game_result: None },
        score_player_a: Score::win(),
        game_info: vec![8],
    }
}

#[test]
fn resolving_an_empty_queue_does_nothing() {
    let mut store = PendingResultStore::new();
    assert_eq!(store.len(), 0);
    let deleted = store.resolve_all(&vec![]);
    assert!(deleted.is_empty());
    assert_eq!(store.len(), 0);
    let deleted = store.resolve_all(&vec![published(1)]);
    assert!(deleted.is_empty());
    assert_eq!(store.len(), 0);
}

#[test]
fn created_entries_wait_in_order() {
    let mut store = PendingResultStore::new();
    assert!(store.create(id(1), vec![1], you(), Score::win()));
    assert!(store.create(id(2), vec![2], you(), Score::draw()));
    assert!(!store.create(id(1), vec![9], you(), Score::loss()));
    assert_eq!(ids(&store), vec![vec![1], vec![2]]);
    assert!(store.contains(&id(2)));
    assert!(!store.contains(&id(3)));
    assert_eq!(store.entries[0].pending.game_info, vec![1]);
    assert_eq!(store.entries[1].pending.my_score, Score::draw());
}

#[test]
fn success_deletes_exactly_its_entry() {
    let mut store = PendingResultStore::new();
    for n in 1..=4u8 {
        assert!(store.create(id(n), vec![n], you(), Score::win()));
    }
    let attempts = vec![
        Attempt { id: id(1), outcome: Ok(CreateGameResultOutcome::Scheduled) },
        published(3),
        Attempt { id: id(4), outcome: Err(EloError::TransportFailure) },
    ];
    let deleted = store.resolve_all(&attempts);
    assert_eq!(deleted.len(), 1);
    assert!(deleted[0].same(&id(3)));
    assert_eq!(ids(&store), vec![vec![1], vec![2], vec![4]]);
    // The entry is gone: a later round finds nothing to commit for it.
    let deleted = store.resolve_all(&vec![published(3)]);
    assert!(deleted.is_empty());
    assert_eq!(store.len(), 3);
}

#[test]
fn failures_leave_every_entry() {
    let mut store = PendingResultStore::new();
    assert!(store.create(id(1), vec![1], you(), Score::win()));
    assert!(store.create(id(2), vec![2], you(), Score::win()));
    let attempts = vec![
        Attempt { id: id(1), outcome: Err(EloError::StaleReference) },
        Attempt { id: id(2), outcome: Ok(CreateGameResultOutcome::Scheduled) },
    ];
    assert!(store.resolve_all(&attempts).is_empty());
    assert_eq!(ids(&store), vec![vec![1], vec![2]]);
}

#[test]
fn several_successes_in_one_round() {
    let mut store = PendingResultStore::new();
    for n in 1..=3u8 {
        assert!(store.create(id(n), vec![n], you(), Score::win()));
    }
    let deleted = store.resolve_all(&vec![published(3), published(1)]);
    assert_eq!(deleted.len(), 2);
    assert!(deleted[0].same(&id(1)) && deleted[1].same(&id(3)));
    assert_eq!(ids(&store), vec![vec![2]]);
}

#[test]
fn deleted_entries_do_not_wait() {
    let created = vec![entry(1), entry(2), entry(3)];
    let waiting = get_unpublished_game_results(&created, &vec![id(2), id(9)]);
    assert_eq!(waiting.len(), 2);
    assert!(waiting[0].id.same(&id(1)) && waiting[1].id.same(&id(3)));
    assert_eq!(waiting[1].pending.game_info, vec![3, 3]);
    assert_eq!(get_unpublished_game_results(&created, &vec![]).len(), 3);
    assert_eq!(entries_without(&vec![], &vec![id(1)]).len(), 0);
    assert!(contains_hash(&vec![id(2), id(9)], &id(9)));
    assert!(!contains_hash(&vec![id(2), id(9)], &id(1)));
}

#[test]
fn flags_without_a_readable_record_are_passed_over() {
    let flags = vec![
        Flag { flag_link_hash: id(1), target: Some(record(me(), 1016, you(), 984)) },
        Flag { flag_link_hash: id(2), target: None },
        Flag { flag_link_hash: id(3), target: Some(record(you(), 1016, me(), 984)) },
    ];
    let waiting = get_my_unpublished_game_results(&flags);
    assert_eq!(waiting.len(), 2);
    assert!(waiting[0].flag_link_hash.same(&id(1)));
    assert!(waiting[1].flag_link_hash.same(&id(3)));
    assert!(waiting[1].game_result.player_a.player_address.same(&you()));
    assert!(get_my_unpublished_game_results(&vec![]).is_empty());
}

#[test]
fn rebase_builds_the_record_afresh() {
    let params = parameters::<ChessEloRating>();
    // The waiting record was built when I had no record; since then I have one.
    let mut waiting = record(me(), 1016, you(), 984);
    let mine_now = Some(CommittedResult {
        header_hash: id(50),
        game_result: record(me(), 1100, Participant::new(vec![3]), 900),
    });
    let inputs =
        rebase_rating_inputs(&params, &waiting, &me(), &mine_now, &Resolution::Absent).unwrap();
    assert_eq!((inputs.rating_a, inputs.rating_b), (1100, 1000));
    let ratings = skill_rating::elo::game(
        inputs.rating_a,
        inputs.rating_b,
        f32::from_bits(inputs.score_a.bits),
        inputs.k_a,
        inputs.k_b,
    );
    assert_eq!(ratings, skill_rating::elo::game(1100, 1000, 1.0, 32, 32));
    let done =
        rebase_game_result(&params, &mut waiting, &me(), &mine_now, &Resolution::Absent, ratings);
    assert!(done.is_ok());
    assert!(waiting.player_a.player_address.same(&me()));
    assert_eq!(waiting.player_a.current_elo, ratings.0);
    assert!(waiting.player_a.previous_game_result.as_ref().unwrap().same(&id(50)));
    // The opponent's rating is computed from my rating as it is now.
    assert!(waiting.player_b.player_address.same(&you()));
    assert_eq!(waiting.player_b.current_elo, ratings.1);
    assert_ne!(waiting.player_b.current_elo, 984);
    assert!(waiting.player_b.previous_game_result.is_none());
    assert_eq!(waiting.game_info, vec![8]);
    assert_eq!(waiting.score_player_a, Score::win());
    // The rebuilt record passes validation.
    let found_a = Resolution::Resolved(mine_now.as_ref().unwrap().duplicate());
    let verdict =
        validate_elo_update_is_correct(&params, &waiting, &found_a, &Resolution::Absent, ratings);
    assert!(matches!(verdict, Ok(Verdict::Valid)));
}

#[test]
fn rebase_onto_an_own_head_moves_both_ratings() {
    let params = parameters::<ChessEloRating>();
    let mut waiting = record(me(), 1016, you(), 984);
    let mine_now = Some(CommittedResult {
        header_hash: id(50),
        game_result: record(me(), 1016, Participant::new(vec![3]), 984),
    });
    let inputs =
        rebase_rating_inputs(&params, &waiting, &me(), &mine_now, &Resolution::Absent).unwrap();
    assert_eq!((inputs.rating_a, inputs.rating_b), (1016, 1000));
    let ratings = skill_rating::elo::game(1016, 1000, 1.0, 32, 32);
    assert_eq!(ratings, (1031, 985));
    let done =
        rebase_game_result(&params, &mut waiting, &me(), &mine_now, &Resolution::Absent, ratings);
    assert!(done.is_ok());
    assert_eq!((waiting.player_a.current_elo, waiting.player_b.current_elo), (1031, 985));
    let found_a = Resolution::Resolved(mine_now.as_ref().unwrap().duplicate());
    let verdict =
        validate_elo_update_is_correct(&params, &waiting, &found_a, &Resolution::Absent, ratings);
    assert!(matches!(verdict, Ok(Verdict::Valid)));
}

#[test]
fn rebase_as_second_player() {
    let params = parameters::<ChessEloRating>();
    let mut waiting = record(you(), 1016, me(), 984);
    waiting.player_a.previous_game_result = Some(id(60));
    let theirs = Resolution::Resolved(CommittedResult {
        header_hash: id(60),
        game_result: record(you(), 1200, Participant::new(vec![3]), 800),
    });
    let inputs = rebase_rating_inputs(&params, &waiting, &me(), &None, &theirs).unwrap();
    assert_eq!((inputs.rating_a, inputs.rating_b), (1200, 1000));
    let done = rebase_game_result(&params, &mut waiting, &me(), &None, &theirs, (1207, 993));
    assert!(done.is_ok());
    assert_eq!(waiting.player_b.current_elo, 993);
    assert!(waiting.player_b.previous_game_result.is_none());
    assert_eq!(waiting.player_a.current_elo, 1207);
    assert!(waiting.player_a.previous_game_result.as_ref().unwrap().same(&id(60)));
    let verdict =
        validate_elo_update_is_correct(&params, &waiting, &theirs, &Resolution::Absent, (1207, 993));
    assert!(matches!(verdict, Ok(Verdict::Valid)));
}

#[test]
fn rebase_fails_without_touching_the_record() {
    let mut waiting = record(you(), 1016, me(), 984);
    waiting.player_a.previous_game_result = Some(id(60));
    let before = waiting.duplicate();
    let done = rebase_game_result(&parameters::<ChessEloRating>(), &mut waiting,
        &me(),
        &None,
        &Resolution::NotYetAvailable(id(61)),
        (1, 2),
    );
    assert_eq!(done, Err(EloError::UnresolvedDependency));
    assert!(waiting.same(&before));
    let done = rebase_game_result(&parameters::<ChessEloRating>(), &mut waiting,
        &me(),
        &None,
        &Resolution::Malformed,
        (1, 2),
    );
    assert_eq!(done, Err(EloError::MalformedRecord));
    let done = rebase_game_result(&parameters::<ChessEloRating>(), &mut waiting,
        &Participant::new(vec![3]),
        &None,
        &Resolution::Absent,
        (1, 2),
    );
    assert_eq!(done, Err(EloError::NotAParticipant));
    assert!(waiting.same(&before));
}

/// A policy that starts players at 1500.
struct Club;

impl EloRatingSystem for Club {
    fn initial_rating() -> i32 {
        1500
    }

    fn k_factor() -> u32 {
        24
    }

    fn unpublished_games_retry_interval_in_mins() -> u32 {
        10
    }

    fn stale_retries() -> u32 {
        2
    }

    fn validate_game_result(
        _game_info: &Vec<u8>,
        _result: &elo_ledger::game_result::GameResultInfo,
    ) -> DomainVerdict {
        DomainVerdict::Valid
    }
}

#[test]
fn rebase_uses_the_policy() {
    let waiting = record(me(), 1516, you(), 1484);
    let inputs =
        rebase_rating_inputs(&parameters::<Club>(), &waiting, &me(), &None, &Resolution::Absent).unwrap();
    assert_eq!((inputs.rating_a, inputs.rating_b, inputs.k_a, inputs.k_b), (1500, 1500, 24, 24));
    assert_eq!(Club::unpublished_games_retry_interval_in_mins(), 10);
    assert_eq!(parameters::<Club>().stale_retries, 2);
    assert_eq!(parameters::<Club>().retry_interval_in_mins, 10);
    assert_eq!(parameters::<ChessEloRating>(), EloParameters::standard());
    assert_eq!(ChessEloRating::initial_rating(), 1000);
    assert_eq!(ChessEloRating::k_factor(), 32);
    assert_eq!(ChessEloRating::stale_retries(), 1);
    assert_eq!(ChessEloRating::unpublished_games_retry_interval_in_mins(), 1);
}
