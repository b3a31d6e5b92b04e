use passwordle::error::AppError;
use passwordle::game::{
    create_game, evaluate_guess, game_created, get_game_info, make_guess, open_game,
    status_request, GameCreationInfo, GuessStage, GuessStep, GAME_EXPIRE, MAX_GUESS,
    PASSWORD_LENGTH, SALT_LENGTH,
};
use passwordle::scoring::Match;
use passwordle::store::{session_keys, StoreFailure, StoreRequest};
use rand::rngs::StdRng;
use rand::SeedableRng;

const GAME: [u8; 16] = [
    0xa1, 0xa2, 0xa3, 0xa4, 0xb1, 0xb2, 0xc1, 0xc2, 0xd1, 0xd2, 0xd3, 0xd4, 0xd5, 0xd6, 0xd7, 0xd8,
];

fn counted(count: usize, salt: &str, password: &str) -> GuessStage {
    GuessStage::Counted(Ok((Some(count), Some(salt.to_string()), Some(password.to_string()))))
}

fn refusal(step: GuessStep) -> AppError {
    match step {
        GuessStep::Finish(Err(error)) => error,
        other => panic!("not a refusal: {:?}", other),
    }
}

#[test]
fn the_limits_of_the_game() {
    assert_eq!(MAX_GUESS, 64);
    assert_eq!(PASSWORD_LENGTH, 8);
    assert_eq!(SALT_LENGTH, 8);
    assert_eq!(GAME_EXPIRE, 60 * 60 * 24);
}

#[test]
fn status_of_a_stored_session() {
    let info = get_game_info(Ok((Some(3), Some("AbCd1234".to_string())))).unwrap();
    assert_eq!(info.guess_count, 3);
    assert_eq!(info.salt, "AbCd1234");
}

#[test]
fn status_of_a_session_with_a_missing_field_is_not_found() {
    assert_eq!(get_game_info(Ok((None, None))).unwrap_err(), AppError::GameNotFound);
    assert_eq!(
        get_game_info(Ok((Some(1), None))).unwrap_err(),
        AppError::GameNotFound
    );
    assert_eq!(
        get_game_info(Ok((None, Some("AbCd1234".to_string())))).unwrap_err(),
        AppError::GameNotFound
    );
}

#[test]
fn status_when_the_store_fails_is_an_internal_error() {
    assert_eq!(get_game_info(Err(StoreFailure)).unwrap_err(), AppError::InternalServerError);
}

#[test]
fn the_status_request_reads_count_and_salt() {
    match status_request(&GAME) {
        StoreRequest::Read { guess_count_key, salt_key } => {
            assert_eq!(guess_count_key, "game:a1a2a3a4-b1b2-c1c2-d1d2-d3d4d5d6d7d8:guess_count");
            assert_eq!(salt_key, "game:a1a2a3a4-b1b2-c1c2-d1d2-d3d4d5d6d7d8:salt");
        }
        other => panic!("not a read request: {:?}", other),
    }
}

#[test]
fn an_opened_game_stores_the_digest_and_never_the_password() {
    let (info, request) = open_game(GAME, "saltsalt".to_string(), "password");
    assert_eq!(info.id, GAME);
    assert_eq!(info.salt, "saltsalt");
    assert_eq!(info.guess_count, 0);
    match request {
        StoreRequest::Create { keys, guess_count, salt, password_digest, ttl } => {
            assert_eq!(keys.guess_count, "game:a1a2a3a4-b1b2-c1c2-d1d2-d3d4d5d6d7d8:guess_count");
            assert_eq!(keys.salt, "game:a1a2a3a4-b1b2-c1c2-d1d2-d3d4d5d6d7d8:salt");
            assert_eq!(
                keys.password_digest,
                "game:a1a2a3a4-b1b2-c1c2-d1d2-d3d4d5d6d7d8:password_digest"
            );
            assert_eq!(guess_count, 0);
            assert_eq!(salt, "saltsalt");
            assert_eq!(password_digest, "/b3zQZ//mL2wJBOQ9iqdsw==");
            assert_eq!(ttl, 86_400);
        }
        other => panic!("not a create request: {:?}", other),
    }
}

#[test]
fn a_created_game_has_a_random_salt_and_a_digest() {
    let mut rng = StdRng::seed_from_u64(42);
    let (info, request) = create_game(&mut rng);
    assert_eq!(info.guess_count, 0);
    assert_eq!(info.salt.len(), 8);
    assert!(info.salt.bytes().all(|b| b.is_ascii_alphanumeric()));
    match request {
        StoreRequest::Create { keys, guess_count, salt, password_digest, ttl } => {
            assert_eq!(keys.salt, session_keys(&info.id).salt);
            assert_eq!(keys.guess_count, session_keys(&info.id).guess_count);
            assert_eq!(keys.password_digest, session_keys(&info.id).password_digest);
            assert_eq!(guess_count, 0);
            assert_eq!(salt, info.salt);
            assert_eq!(password_digest.len(), 24);
            assert_ne!(password_digest, info.salt);
            assert_eq!(ttl, 86_400);
        }
        other => panic!("not a create request: {:?}", other),
    }
}

#[test]
fn two_created_games_share_nothing() {
    let mut rng = StdRng::from_entropy();
    let (first, first_request) = create_game(&mut rng);
    let mut rng = StdRng::from_entropy();
    let (second, second_request) = create_game(&mut rng);
    assert_ne!(first.id, second.id);
    assert_ne!(first.salt, second.salt);
    match (first_request, second_request) {
        (
            StoreRequest::Create { keys: first_keys, password_digest: first_digest, .. },
            StoreRequest::Create { keys: second_keys, password_digest: second_digest, .. },
        ) => {
            assert_ne!(first_digest, second_digest);
            assert_ne!(first_keys.guess_count, second_keys.guess_count);
            assert_ne!(first_keys.salt, second_keys.salt);
            assert_ne!(first_keys.password_digest, second_keys.password_digest);
        }
        other => panic!("not two create requests: {:?}", other),
    }
}

#[test]
fn two_games_from_one_source_differ() {
    let mut rng = StdRng::seed_from_u64(5);
    let (first, _) = create_game(&mut rng);
    let (second, _) = create_game(&mut rng);
    assert_ne!(first.id, second.id);
    assert_ne!(first.salt, second.salt);
}

#[test]
fn a_stored_game_is_reported_to_the_player() {
    let info = GameCreationInfo { salt: "saltsalt".to_string(), guess_count: 0, id: GAME };
    let told = game_created(info, Ok(())).unwrap();
    assert_eq!(told.id, GAME);
    assert_eq!(told.salt, "saltsalt");
    assert_eq!(told.guess_count, 0);
}

#[test]
fn a_game_that_could_not_be_stored_is_an_internal_error() {
    let info = GameCreationInfo { salt: "saltsalt".to_string(), guess_count: 0, id: GAME };
    assert_eq!(game_created(info, Err(StoreFailure)).unwrap_err(), AppError::InternalServerError);
}

#[test]
fn a_guess_of_the_wrong_length_is_refused_at_once() {
    for guess in ["", "short", "hunter2", "hunter222", "pässwörd"] {
        assert_eq!(refusal(make_guess(&GAME, guess, GuessStage::Submitted)), AppError::BadRequest);
    }
}

#[test]
fn a_guess_of_eight_bytes_is_counted_first() {
    for guess in ["hunter22", "pässwö"] {
        match make_guess(&GAME, guess, GuessStage::Submitted) {
            GuessStep::Ask(StoreRequest::IncrementAndRead { keys }) => {
                assert_eq!(keys.guess_count, session_keys(&GAME).guess_count);
                assert_eq!(keys.salt, session_keys(&GAME).salt);
                assert_eq!(keys.password_digest, session_keys(&GAME).password_digest);
            }
            other => panic!("not an increment: {:?}", other),
        }
    }
}

#[test]
fn a_guess_at_a_missing_session_is_not_found() {
    let stages = [
        GuessStage::Counted(Ok((Some(1), None, None))),
        GuessStage::Counted(Ok((Some(1), Some("AbCd1234".to_string()), None))),
        GuessStage::Counted(Ok((Some(1), None, Some("jDg9LaScAc4+o4RmSD17bw==".to_string())))),
        GuessStage::Counted(Ok((
            None,
            Some("AbCd1234".to_string()),
            Some("jDg9LaScAc4+o4RmSD17bw==".to_string()),
        ))),
        GuessStage::Counted(Ok((None, None, None))),
    ];
    for stage in stages {
        assert_eq!(refusal(make_guess(&GAME, "hunter22", stage)), AppError::GameNotFound);
    }
}

#[test]
fn a_guess_when_the_store_fails_is_an_internal_error() {
    assert_eq!(
        refusal(make_guess(&GAME, "hunter22", GuessStage::Counted(Err(StoreFailure)))),
        AppError::InternalServerError
    );
    assert_eq!(
        refusal(make_guess(&GAME, "hunter22", GuessStage::Deleted(Err(StoreFailure)))),
        AppError::InternalServerError
    );
}

#[test]
fn the_right_guess_wins() {
    let stage = counted(1, "AbCd1234", "jDg9LaScAc4+o4RmSD17bw==");
    match make_guess(&GAME, "hunter22", stage) {
        GuessStep::Finish(Ok(result)) => {
            assert_eq!(result.hash, "jDg9LaScAc4+o4RmSD17bw==");
            assert_eq!(result.guess, vec![Match::Exact; 24]);
            assert_eq!(result.key, Some("31abhtykwu".to_string()));
        }
        other => panic!("not scored: {:?}", other),
    }
}

#[test]
fn a_wrong_guess_is_scored_by_its_digest() {
    let stage = counted(64, "AbCd1234", "jDg9LaScAc4+o4RmSD17bw==");
    match make_guess(&GAME, "hunter23", stage) {
        GuessStep::Finish(Ok(result)) => {
            assert_eq!(result.hash, "2OpSKQigDGA/TPbyqFx4zA==");
            let expected: Vec<Match> = "WWWCWWWCCWCWWWCWWWWCWWEE"
                .chars()
                .map(|c| match c {
                    'E' => Match::Exact,
                    'C' => Match::Close,
                    _ => Match::Wrong,
                })
                .collect();
            assert_eq!(result.guess, expected);
            assert_eq!(result.key, None);
        }
        other => panic!("not scored: {:?}", other),
    }
}

#[test]
fn a_guess_beyond_the_limit_deletes_the_session() {
    for count in [65usize, 66, 1000, usize::MAX] {
        let stage = counted(count, "AbCd1234", "jDg9LaScAc4+o4RmSD17bw==");
        match make_guess(&GAME, "hunter22", stage) {
            GuessStep::Ask(StoreRequest::Delete { keys }) => {
                assert_eq!(keys.guess_count, session_keys(&GAME).guess_count);
                assert_eq!(keys.salt, session_keys(&GAME).salt);
                assert_eq!(keys.password_digest, session_keys(&GAME).password_digest);
            }
            other => panic!("not a deletion: {:?}", other),
        }
    }
}

#[test]
fn a_deleted_session_is_not_found() {
    assert_eq!(
        refusal(make_guess(&GAME, "hunter22", GuessStage::Deleted(Ok(())))),
        AppError::GameNotFound
    );
}

#[test]
fn a_stored_digest_of_another_length_is_a_bad_request() {
    let stage = counted(1, "AbCd1234", "short");
    assert_eq!(refusal(make_guess(&GAME, "hunter22", stage)), AppError::BadRequest);
}

#[test]
fn digests_of_different_lengths_are_not_evaluated() {
    let out = evaluate_guess("ABC".to_string(), "ABCD".to_string());
    assert_eq!(out.unwrap_err(), AppError::BadRequest);
}

#[test]
fn digests_of_one_length_are_evaluated() {
    let result = evaluate_guess("ACCBX".to_string(), "ABCCD".to_string()).unwrap();
    assert_eq!(
        result.guess,
        vec![Match::Exact, Match::Close, Match::Exact, Match::Close, Match::Wrong]
    );
    assert_eq!(result.hash, "ACCBX");
    assert_eq!(result.key, None);
}
