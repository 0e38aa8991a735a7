use guess_number::game_error::GameError;
use guess_number::record::GameRecord;
use guess_number::retry::{RetryPolicy, RetryStep};
use guess_number::stats::BEST_SCORE_UNSET;
use guess_number::storage::{
    cache_recent_record, cached_history, validate_game_record, MockStorageProvider,
};

fn result(game_id: &str, player: &str, attempts: u32, success: bool, timestamp: u64) -> GameRecord {
    GameRecord {
        game_id: game_id.to_string(),
        player_id: player.to_string(),
        target_number: 42,
        attempts,
        guesses: vec![42; attempts as usize],
        duration_seconds: 30,
        timestamp,
        success,
        difficulty: "normal".to_string(),
        score: 0,
    }
}

#[test]
fn test_mock_storage_provider() {
    let mut storage = MockStorageProvider::new();
    assert!(storage.health_check());

    let record = GameRecord {
        game_id: "5f0c3f0e-6a5b-4d0c-9d53-0d2a4c6b7e10".to_string(),
        player_id: "test_player".to_string(),
        target_number: 42,
        attempts: 3,
        guesses: vec![25, 60, 42],
        duration_seconds: 30,
        timestamp: 1234567890,
        success: true,
        difficulty: "normal".to_string(),
        score: 0,
    };
    let tx_hash = storage.store_game_result(&record).unwrap();
    assert!(!tx_hash.is_empty());
    assert_eq!(tx_hash.len(), 64);

    let stats = storage.get_player_stats("test_player");
    assert_eq!(stats.total_games, 1);
    assert_eq!(stats.total_wins, 1);

    let history = storage.get_game_history("test_player", 10);
    assert_eq!(history.len(), 1);
    assert_eq!(history[0].game_id, record.game_id);
}

#[test]
fn memory_storage_answers_for_unknown_players() {
    let storage = MockStorageProvider::new();
    let stats = storage.get_player_stats("nobody");
    assert_eq!(stats.player_id, "nobody");
    assert_eq!(stats.total_games, 0);
    assert_eq!(stats.best_score, BEST_SCORE_UNSET);
    assert!(storage.get_game_history("nobody", 10).is_empty());
    assert!(storage.get_leaderboard(10).is_empty());
}

#[test]
fn memory_storage_history_is_newest_first_and_per_player() {
    let mut storage = MockStorageProvider::new();
    for (id, player, ts) in [
        ("a", "bob", 300u64),
        ("b", "carol", 900),
        ("c", "bob", 100),
        ("d", "bob", 500),
        ("e", "bob", 300),
    ] {
        storage.store_game_result(&result(id, player, 2, true, ts)).unwrap();
    }
    let ids = |games: Vec<GameRecord>| -> Vec<String> { games.into_iter().map(|g| g.game_id).collect() };
    assert_eq!(ids(storage.get_game_history("bob", 10)), vec!["d", "a", "e", "c"]);
    assert_eq!(ids(storage.get_game_history("bob", 2)), vec!["d", "a"]);
    assert!(storage.get_game_history("bob", 0).is_empty());
    assert_eq!(ids(storage.get_game_history("carol", 10)), vec!["b"]);
    // the same identifier may be kept twice: memory does not look at it
    storage.store_game_result(&result("a", "bob", 2, true, 1)).unwrap();
    assert_eq!(storage.get_game_history("bob", 10).len(), 5);
}

#[test]
fn memory_storage_leaderboard_by_rate_then_mean() {
    let mut storage = MockStorageProvider::new();
    storage.store_game_result(&result("1", "loser", 1, false, 1)).unwrap();
    storage.store_game_result(&result("2", "slow", 9, true, 1)).unwrap();
    storage.store_game_result(&result("3", "tie_first", 4, true, 1)).unwrap();
    let mut rich = result("4", "tie_second", 4, true, 1);
    rich.score = 1_000;
    storage.store_game_result(&rich).unwrap();
    storage.store_game_result(&result("5", "sharp", 2, true, 1)).unwrap();
    let names = |limit: usize| -> Vec<String> {
        storage.get_leaderboard(limit).into_iter().map(|s| s.player_id).collect()
    };
    // the score does not count here, so the two ties keep their order
    assert_eq!(names(10), vec!["sharp", "tie_first", "tie_second", "slow", "loser"]);
    assert_eq!(names(2), vec!["sharp", "tie_first"]);
    assert!(names(0).is_empty());
}

#[test]
fn memory_storage_refuses_what_overflows() {
    let mut storage = MockStorageProvider::new();
    let mut long = result("1", "bob", 1, true, 1);
    long.duration_seconds = u64::MAX;
    storage.store_game_result(&long).unwrap();
    assert_eq!(
        storage.store_game_result(&result("2", "bob", 1, true, 1)),
        Err(GameError::StorageError("Player statistics overflow".to_string()))
    );
    assert_eq!(storage.get_player_stats("bob").total_games, 1);
    assert_eq!(storage.get_game_history("bob", 10).len(), 1);
}

#[test]
fn client_checks_a_record_before_sending() {
    assert_eq!(validate_game_record(&result("g", "bob", 2, true, 1)), Ok(()));
    let mut anonymous = result("g", "", 0, true, 1);
    anonymous.guesses = vec![1];
    assert_eq!(
        validate_game_record(&anonymous),
        Err(GameError::InvalidPlayerId(String::new()))
    );
    assert_eq!(
        validate_game_record(&result("g", "bob", 0, true, 1)),
        Err(GameError::UnexpectedError("Game record cannot have zero attempts".to_string()))
    );
    let mut short = result("g", "bob", 3, true, 1);
    short.guesses.pop();
    assert_eq!(
        validate_game_record(&short),
        Err(GameError::UnexpectedError("Guesses count doesn't match attempts".to_string()))
    );
    // what the ledger would refuse is not the client's business
    let mut odd = result("", "bob", 60, true, 1);
    odd.difficulty = "whatever".to_string();
    assert_eq!(validate_game_record(&odd), Ok(()));
}

#[test]
fn client_cache_keeps_the_hundred_newest() {
    let mut cached: Vec<GameRecord> = Vec::new();
    for i in 0..103 {
        cache_recent_record(&mut cached, &result(&format!("g{}", i), "bob", 1, true, i));
    }
    assert_eq!(cached.len(), 100);
    assert_eq!(cached[0].game_id, "g102");
    assert_eq!(cached[99].game_id, "g3");
    let first = cached_history(&cached, 2);
    assert_eq!(first.len(), 2);
    assert_eq!(first[0].game_id, "g102");
    assert_eq!(first[1].game_id, "g101");
    assert_eq!(cached_history(&cached, 1000).len(), 100);
    assert!(cached_history(&cached, 0).is_empty());
}

#[test]
fn retry_policy_decides_the_next_step() {
    let policy = RetryPolicy { max_retries: 2, initial_delay_ms: 10, max_delay_ms: 100 };
    let temporary = GameError::CalimeroConnectionError("temporary failure".to_string());
    assert_eq!(policy.after_failure(0, &temporary, 10), RetryStep::WaitAndRetry { delay_ms: 10 });
    assert_eq!(policy.after_failure(1, &temporary, 20), RetryStep::WaitAndRetry { delay_ms: 20 });
    assert_eq!(policy.after_failure(2, &temporary, 40), RetryStep::GiveUp);
    assert_eq!(policy.after_failure(u32::MAX, &temporary, 40), RetryStep::GiveUp);
    let lasting = GameError::InvalidDifficulty("test".to_string());
    assert_eq!(policy.after_failure(0, &lasting, 10), RetryStep::GiveUp);
    assert_eq!(policy.capped_delay(99), 99);
    assert_eq!(policy.capped_delay(100), 100);
    assert_eq!(policy.capped_delay(101), 100);
    assert_eq!(
        RetryPolicy::default(),
        RetryPolicy { max_retries: 3, initial_delay_ms: 1000, max_delay_ms: 10000 }
    );
    let never = RetryPolicy { max_retries: 0, initial_delay_ms: 10, max_delay_ms: 100 };
    assert_eq!(never.after_failure(0, &temporary, 10), RetryStep::GiveUp);
}

/// Runs `operation` as often as the policy allows, without sleeping, and
/// answers with its last result and the waits that would have been slept.
fn run_with_retry<T>(
    mut operation: impl FnMut() -> Result<T, GameError>,
    policy: RetryPolicy,
    backoff_factor: f64,
) -> (Result<T, GameError>, Vec<u64>) {
    let mut waits = Vec::new();
    let mut delay = policy.initial_delay_ms;
    let mut attempt = 0;
    loop {
        match operation() {
            Ok(result) => return (Ok(result), waits),
            Err(error) => match policy.after_failure(attempt, &error, delay) {
                RetryStep::GiveUp => return (Err(error), waits),
                RetryStep::WaitAndRetry { delay_ms } => {
                    waits.push(delay_ms);
                    delay = policy.capped_delay(((delay as f64) * backoff_factor) as u64);
                    attempt += 1;
                }
            },
        }
    }
}

#[test]
fn test_retry_mechanism() {
    let policy = RetryPolicy { max_retries: 2, initial_delay_ms: 10, max_delay_ms: 100 };

    let mut attempt_count = 0;
    let (result, waits) = run_with_retry(
        || {
            attempt_count += 1;
            if attempt_count < 3 {
                Err(GameError::CalimeroConnectionError("temporary failure".to_string()))
            } else {
                Ok("success".to_string())
            }
        },
        policy,
        2.0,
    );

    assert!(result.is_ok());
    assert_eq!(attempt_count, 3);
    assert_eq!(waits, vec![10, 20]);
}

#[test]
fn test_retry_non_retryable_error() {
    let policy = RetryPolicy::default();

    let mut attempt_count = 0;
    let (result, waits) = run_with_retry(
        || -> Result<(), GameError> {
            attempt_count += 1;
            Err(GameError::InvalidDifficulty("test".to_string()))
        },
        policy,
        2.0,
    );

    assert!(result.is_err());
    assert_eq!(attempt_count, 1);
    assert!(waits.is_empty());
}

#[test]
fn retries_stop_when_they_are_used_up_and_waits_are_capped() {
    let policy = RetryPolicy { max_retries: 4, initial_delay_ms: 30, max_delay_ms: 100 };
    let mut attempt_count = 0;
    let (result, waits) = run_with_retry(
        || -> Result<(), GameError> {
            attempt_count += 1;
            Err(GameError::HttpError("down".to_string()))
        },
        policy,
        2.0,
    );
    assert_eq!(result, Err(GameError::HttpError("down".to_string())));
    assert_eq!(attempt_count, 5);
    assert_eq!(waits, vec![30, 60, 100, 100]);
}
