use elo_ledger::elo_rating::RatingInputs;
use elo_ledger::elo_rating_system::{parameters, DomainVerdict, EloRatingSystem};
use elo_ledger::error::EloError;
use elo_ledger::example::ChessEloRating;
use elo_ledger::game_result::handlers::build_new_game_result;
use elo_ledger::game_result::validation::{
    conclude, elo_update_rating_inputs, first_link_decides, validate_elo_update_is_correct,
    validate_entry_game_result, validate_game_result, validate_structure, EntryUnderValidation,
    Recomputation, Rejection, Resolution, Verdict,
};
use elo_ledger::game_result::{CommittedResult, EloUpdate, GameResult, GameResultInfo};
use elo_ledger::identity::{ContentHash, Participant};
use elo_ledger::score::Score;

fn ann() -> Participant {
    Participant::new(vec![10])
}

fn ben() -> Participant {
    Participant::new(vec![20])
}

fn cat() -> Participant {
    Participant::new(vec![30])
}

fn formula(inputs: &RatingInputs) -> (i32, i32) {
    skill_rating::elo::game(
        inputs.rating_a,
        inputs.rating_b,
        f32::from_bits(inputs.score_a.bits),
        inputs.k_a,
        inputs.k_b,
    )
}

fn first_record(a: Participant, ra: i32, b: Participant, rb: i32, score: Score) -> GameResult {
    GameResult {
        player_a: EloUpdate { player_address: a, current_elo: ra, previous_game_result: None },
        player_b: EloUpdate { player_address: b, current_elo: rb, previous_game_result: None },
        score_player_a: score,
        game_info: vec![1, 2, 3],
    }
}

/// A policy whose game refuses every result.
struct StrictGame;

impl EloRatingSystem for StrictGame {
    fn initial_rating() -> i32 {
        1000
    }

    fn k_factor() -> u32 {
        32
    }

    fn unpublished_games_retry_interval_in_mins() -> u32 {
        1
    }

    fn stale_retries() -> u32 {
        1
    }

    fn validate_game_result(_game_info: &Vec<u8>, _result: &GameResultInfo) -> DomainVerdict {
        DomainVerdict::Invalid(String::from("illegal move"))
    }
}

#[test]
fn structure_is_checked_in_order() {
    let good = first_record(ann(), 1016, ben(), 984, Score::win());
    assert!(matches!(validate_structure(&good, &ann()), Verdict::Valid));
    assert!(matches!(validate_structure(&good, &ben()), Verdict::Valid));
    assert!(matches!(
        validate_structure(&good, &cat()),
        Verdict::Invalid(Rejection::NotAParticipant)
    ));
    let below = first_record(ann(), 1016, ben(), 984, Score::from_bits((-0.1f32).to_bits()));
    assert!(matches!(
        validate_structure(&below, &ann()),
        Verdict::Invalid(Rejection::InvalidScore)
    ));
    let above = first_record(ann(), 1016, ben(), 984, Score::from_bits(1.1f32.to_bits()));
    assert!(matches!(
        validate_structure(&above, &cat()),
        Verdict::Invalid(Rejection::InvalidScore)
    ));
}

#[test]
fn self_play_is_rejected_whatever_else_the_record_holds() {
    let scores = vec![Score::win(), Score::draw(), Score::loss()];
    for s in scores {
        for author in vec![ann(), ben()] {
            let mut g = first_record(ann(), 1016, ann(), 984, s);
            assert!(matches!(
                validate_structure(&g, &author),
                Verdict::Invalid(Rejection::SelfPlay)
            ));
            g.player_a.previous_game_result = Some(ContentHash::new(vec![5]));
            g.game_info = vec![];
            let verdict = validate_game_result::<ChessEloRating>(&parameters::<ChessEloRating>(), &g,
                &author,
                &Resolution::Absent,
                &Resolution::Malformed,
                (0, 0),
            );
            assert!(matches!(verdict, Ok(Verdict::Invalid(Rejection::SelfPlay))));
        }
    }
    let both = first_record(ann(), 1, ann(), 2, Score::from_bits(1.1f32.to_bits()));
    assert!(matches!(
        validate_structure(&both, &ann()),
        Verdict::Invalid(Rejection::InvalidScore)
    ));
}

#[test]
fn honest_first_record_round_trips() {
    let inputs = match elo_update_rating_inputs(&parameters::<ChessEloRating>(), &first_record(ann(), 0, ben(), 0, Score::win()),
        &Resolution::Absent,
        &Resolution::Absent,
    ) {
        Ok(Recomputation::Ask(i)) => i,
        _ => panic!("the formula should be asked"),
    };
    let ratings = formula(&inputs);
    assert_eq!(ratings, (1016, 984));
    let built = build_new_game_result(&parameters::<ChessEloRating>(), &vec![1, 2, 3],
        &ann(),
        &ben(),
        Score::win(),
        &None,
        &None,
        ratings,
    )
    .unwrap();
    let verdict = validate_game_result::<ChessEloRating>(&parameters::<ChessEloRating>(), &built,
        &ann(),
        &Resolution::Absent,
        &Resolution::Absent,
        ratings,
    );
    assert!(matches!(verdict, Ok(Verdict::Valid)));
}

#[test]
fn honest_second_record_round_trips() {
    let first = build_new_game_result(&parameters::<ChessEloRating>(), &vec![1],
        &ann(),
        &ben(),
        Score::win(),
        &None,
        &None,
        (1016, 984),
    )
    .unwrap();
    let ann_head =
        Some(CommittedResult { header_hash: ContentHash::new(vec![71]), game_result: first });
    let found_a = Resolution::Resolved(ann_head.as_ref().unwrap().duplicate());
    // Ann plays Cat, who is new.
    let probe = build_new_game_result(&parameters::<ChessEloRating>(), &vec![2],
        &ann(),
        &cat(),
        Score::draw(),
        &ann_head,
        &None,
        (0, 0),
    )
    .unwrap();
    let inputs = match elo_update_rating_inputs(&parameters::<ChessEloRating>(), &probe, &found_a, &Resolution::Absent)
    {
        Ok(Recomputation::Ask(i)) => i,
        _ => panic!("the formula should be asked"),
    };
    assert_eq!((inputs.rating_a, inputs.rating_b), (1016, 1000));
    let ratings = formula(&inputs);
    let second = build_new_game_result(&parameters::<ChessEloRating>(), &vec![2],
        &ann(),
        &cat(),
        Score::draw(),
        &ann_head,
        &None,
        ratings,
    )
    .unwrap();
    for author in vec![ann(), cat()] {
        let verdict = validate_game_result::<ChessEloRating>(&parameters::<ChessEloRating>(), &second,
            &author,
            &found_a,
            &Resolution::Absent,
            ratings,
        );
        assert!(matches!(verdict, Ok(Verdict::Valid)));
    }
    // A third party that did not play is not a valid author.
    let verdict = validate_game_result::<ChessEloRating>(&parameters::<ChessEloRating>(), &second,
        &ben(),
        &found_a,
        &Resolution::Absent,
        ratings,
    );
    assert!(matches!(verdict, Ok(Verdict::Invalid(Rejection::NotAParticipant))));
}

#[test]
fn wrong_rating_is_an_incorrect_update() {
    let mut forged = build_new_game_result(&parameters::<ChessEloRating>(), &vec![1],
        &ann(),
        &ben(),
        Score::win(),
        &None,
        &None,
        (1016, 984),
    )
    .unwrap();
    forged.player_a.current_elo = 1100;
    let verdict = validate_elo_update_is_correct(&parameters::<ChessEloRating>(), &forged,
        &Resolution::Absent,
        &Resolution::Absent,
        (1016, 984),
    );
    assert!(matches!(verdict, Ok(Verdict::Invalid(Rejection::IncorrectRatingUpdate))));
}

#[test]
fn link_to_another_record_is_an_incorrect_update() {
    let first = first_record(ann(), 1016, ben(), 984, Score::win());
    let mut second = first_record(ann(), 1030, cat(), 986, Score::win());
    second.player_a.previous_game_result = Some(ContentHash::new(vec![71]));
    // The store hands back a record under another header than the one declared.
    let other = Resolution::Resolved(CommittedResult {
        header_hash: ContentHash::new(vec![72]),
        game_result: first,
    });
    let verdict = validate_elo_update_is_correct(&parameters::<ChessEloRating>(), &second,
        &other,
        &Resolution::Absent,
        (1030, 986),
    );
    assert!(matches!(verdict, Ok(Verdict::Invalid(Rejection::IncorrectRatingUpdate))));
}

#[test]
fn missing_dependency_is_soft() {
    let mut g = first_record(ann(), 1016, ben(), 984, Score::win());
    g.player_b.previous_game_result = Some(ContentHash::new(vec![5]));
    let waiting = Resolution::NotYetAvailable(ContentHash::new(vec![55]));
    let verdict =
        validate_game_result::<ChessEloRating>(&parameters::<ChessEloRating>(), &g, &ann(), &Resolution::Absent, &waiting, (0, 0));
    match verdict {
        Ok(Verdict::UnresolvedDependencies(h)) => assert!(h.same(&ContentHash::new(vec![55]))),
        _ => panic!("expected a dependency to wait for"),
    }
    let next = elo_update_rating_inputs(&parameters::<ChessEloRating>(), &g, &Resolution::Absent, &waiting);
    assert!(matches!(next, Ok(Recomputation::Decided(Verdict::UnresolvedDependencies(_)))));
}

#[test]
fn first_link_can_decide_alone() {
    let mut g = first_record(ann(), 1016, ben(), 984, Score::win());
    // A first record declares no link: the lookup is not read.
    assert!(!first_link_decides(&g, &Resolution::Absent));
    assert!(!first_link_decides(&g, &Resolution::Malformed));
    g.player_a.previous_game_result = Some(ContentHash::new(vec![5]));
    assert!(first_link_decides(&g, &Resolution::Absent));
    assert!(first_link_decides(&g, &Resolution::Malformed));
    assert!(first_link_decides(&g, &Resolution::NotYetAvailable(ContentHash::new(vec![6]))));
    let found = Resolution::Resolved(CommittedResult {
        header_hash: ContentHash::new(vec![5]),
        game_result: first_record(ann(), 1000, cat(), 1000, Score::draw()),
    });
    assert!(!first_link_decides(&g, &found));
}

#[test]
fn header_without_entry_is_invalid() {
    let mut g = first_record(ann(), 1016, ben(), 984, Score::win());
    g.player_a.previous_game_result = Some(ContentHash::new(vec![5]));
    let verdict = validate_elo_update_is_correct(&parameters::<ChessEloRating>(), &g,
        &Resolution::Absent,
        &Resolution::Absent,
        (0, 0),
    );
    assert!(matches!(verdict, Ok(Verdict::Invalid(Rejection::InvalidHeader))));
}

#[test]
fn previous_entry_that_does_not_decode_is_malformed() {
    let mut g = first_record(ann(), 1016, ben(), 984, Score::win());
    g.player_a.previous_game_result = Some(ContentHash::new(vec![5]));
    let verdict = validate_elo_update_is_correct(&parameters::<ChessEloRating>(), &g,
        &Resolution::Malformed,
        &Resolution::Absent,
        (0, 0),
    );
    assert!(matches!(verdict, Err(EloError::MalformedRecord)));
}

#[test]
fn previous_record_of_other_players_is_refused() {
    let foreign = first_record(ben(), 1016, cat(), 984, Score::win());
    let mut g = first_record(ann(), 1016, ben(), 984, Score::win());
    g.player_a.previous_game_result = Some(ContentHash::new(vec![5]));
    let found = Resolution::Resolved(CommittedResult {
        header_hash: ContentHash::new(vec![5]),
        game_result: foreign,
    });
    let verdict =
        validate_elo_update_is_correct(&parameters::<ChessEloRating>(), &g, &found, &Resolution::Absent, (0, 0));
    assert!(matches!(verdict, Err(EloError::NotAParticipant)));
}

#[test]
fn game_rules_speak_last() {
    let built = build_new_game_result(&parameters::<StrictGame>(), &vec![1],
        &ann(),
        &ben(),
        Score::win(),
        &None,
        &None,
        (1016, 984),
    )
    .unwrap();
    let verdict = validate_game_result::<StrictGame>(&parameters::<StrictGame>(), &built,
        &ann(),
        &Resolution::Absent,
        &Resolution::Absent,
        (1016, 984),
    );
    match verdict {
        Ok(Verdict::DomainRejected(reason)) => assert_eq!(reason, "illegal move"),
        _ => panic!("the game should refuse"),
    }
    // What the ledger refuses, the game is not asked about.
    let verdict = validate_game_result::<StrictGame>(&parameters::<StrictGame>(), &built,
        &ann(),
        &Resolution::Absent,
        &Resolution::Absent,
        (1017, 984),
    );
    assert!(matches!(verdict, Ok(Verdict::Invalid(Rejection::IncorrectRatingUpdate))));
}

#[test]
fn conclusion_keeps_the_ledgers_refusal() {
    assert!(matches!(conclude(Verdict::Valid, DomainVerdict::Valid), Verdict::Valid));
    assert!(matches!(
        conclude(Verdict::Valid, DomainVerdict::Invalid(String::from("no"))),
        Verdict::DomainRejected(_)
    ));
    assert!(matches!(
        conclude(
            Verdict::Invalid(Rejection::SelfPlay),
            DomainVerdict::Invalid(String::from("no"))
        ),
        Verdict::Invalid(Rejection::SelfPlay)
    ));
    assert!(matches!(
        conclude(Verdict::UnresolvedDependencies(ContentHash::new(vec![1])), DomainVerdict::Valid),
        Verdict::UnresolvedDependencies(_)
    ));
}

#[test]
fn entry_that_has_not_arrived_is_waited_for() {
    let missing = EntryUnderValidation::Missing(ContentHash::new(vec![9]));
    let verdict = validate_entry_game_result::<ChessEloRating>(&parameters::<ChessEloRating>(), &missing,
        &ann(),
        &Resolution::Absent,
        &Resolution::Absent,
        (0, 0),
    );
    match verdict {
        Ok(Verdict::UnresolvedDependencies(h)) => assert!(h.same(&ContentHash::new(vec![9]))),
        _ => panic!("expected a dependency to wait for"),
    }
    let unnamed = validate_entry_game_result::<ChessEloRating>(&parameters::<ChessEloRating>(), &EntryUnderValidation::Unnamed,
        &ann(),
        &Resolution::Absent,
        &Resolution::Absent,
        (0, 0),
    );
    assert!(matches!(unnamed, Err(EloError::MalformedRecord)));
    let present = EntryUnderValidation::Present(first_record(ann(), 1016, ben(), 984, Score::win()));
    let verdict = validate_entry_game_result::<ChessEloRating>(&parameters::<ChessEloRating>(), &present,
        &ben(),
        &Resolution::Absent,
        &Resolution::Absent,
        (1016, 984),
    );
    assert!(matches!(verdict, Ok(Verdict::Valid)));
}
