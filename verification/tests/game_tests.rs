use guess_number::calimero::{
    can_format_tx_hash, estimate_gas_cost, format_tx_hash, is_valid_near_account_id, CalimeroConfig,
    CalimeroHealthStatus, StorageProviderFactory, StorageProviderKind,
};
use guess_number::game::{Difficulty, GameConfig, GameEvent, GameEventType, GuessResult};
use guess_number::game_error::{ErrorResponse, GameError};
use guess_number::manager::GameManager;
use guess_number::record::GameRecord;
use guess_number::stats::PlayerStats;
use guess_number::utils::{calculate_game_score, format_duration, is_valid_player_id};

fn won_game(attempts: u32, duration_seconds: u64, difficulty: &str) -> GameRecord {
    GameRecord {
        game_id: "5f0c3f0e-6a5b-4d0c-9d53-0d2a4c6b7e10".to_string(),
        player_id: "player".to_string(),
        target_number: 42,
        attempts,
        guesses: vec![42; (attempts % 64) as usize],
        duration_seconds,
        timestamp: 1234567890,
        success: true,
        difficulty: difficulty.to_string(),
        score: 0,
    }
}

#[test]
fn test_calimero_config_default() {
    let config = CalimeroConfig::default();
    assert_eq!(config.near_network, "testnet");
    assert!(config.enable_encryption);
}

#[test]
fn test_near_account_id_validation() {
    assert!(is_valid_near_account_id("test-account.testnet"));
    assert!(is_valid_near_account_id("myapp"));
    assert!(!is_valid_near_account_id("-invalid"));
    assert!(!is_valid_near_account_id("invalid-"));
    assert!(!is_valid_near_account_id(""));
    assert!(!is_valid_near_account_id(&"x".repeat(65)));
}

#[test]
fn test_gas_estimation() {
    // the serialized form of a small record
    let data = "{\"game_id\":\"g\",\"player_id\":\"test\",\"target_number\":42,\"attempts\":1}";
    let gas_cost = estimate_gas_cost(data.len() as u64);
    assert!(gas_cost > 2_000_000_000_000);
}

#[test]
fn test_tx_hash_formatting() {
    let long_hash = "abcdefghijklmnopqrstuvwxyz1234567890";
    let formatted = format_tx_hash(long_hash);
    assert!(formatted.contains("..."));
    assert!(formatted.len() < long_hash.len());

    let short_hash = "abc123";
    let formatted_short = format_tx_hash(short_hash);
    assert_eq!(formatted_short, short_hash);
}

#[test]
fn test_error_categories() {
    let game_error = GameError::GameNotFound("5f0c3f0e-6a5b-4d0c-9d53-0d2a4c6b7e10".to_string());
    assert_eq!(game_error.category(), "game");

    let config_error = GameError::InvalidDifficulty("invalid".to_string());
    assert_eq!(config_error.category(), "config");
}

#[test]
fn test_error_recoverability() {
    let recoverable_error = GameError::InvalidGuess { guess: 150, min: 1, max: 100 };
    assert!(recoverable_error.is_recoverable());

    let non_recoverable_error =
        GameError::GameNotFound("5f0c3f0e-6a5b-4d0c-9d53-0d2a4c6b7e10".to_string());
    assert!(!non_recoverable_error.is_recoverable());
}

#[test]
fn test_error_retry_logic() {
    let should_retry = GameError::CalimeroConnectionError("timeout".to_string());
    assert!(should_retry.should_retry());

    let no_retry = GameError::InvalidDifficulty("invalid".to_string());
    assert!(!no_retry.should_retry());
}

#[test]
fn test_error_response_conversion() {
    let error = GameError::InvalidGuess { guess: 150, min: 1, max: 100 };
    let response = ErrorResponse::new(&error, "2024-01-01T00:00:00+00:00".to_string());

    assert_eq!(response.category, "game");
    assert!(response.recoverable);
    assert!(response.message.contains("150"));
}

#[test]
fn test_game_config_creation() {
    let config = GameConfig::for_difficulty("easy", None);
    assert_eq!(config.min_number, 1);
    assert_eq!(config.max_number, 50);
    assert_eq!(config.max_attempts, 8);

    let config = GameConfig::for_difficulty("hard", Some(15));
    assert_eq!(config.max_attempts, 15);
}

#[test]
fn test_game_config_validation() {
    let config = GameConfig::default();
    assert!(config.is_valid_guess(50));
    assert!(!config.is_valid_guess(0));
    assert!(!config.is_valid_guess(101));
}

#[test]
fn test_player_stats_update() {
    let mut stats = PlayerStats::new("test_player".to_string());

    let record = GameRecord {
        game_id: "5f0c3f0e-6a5b-4d0c-9d53-0d2a4c6b7e10".to_string(),
        player_id: "test_player".to_string(),
        target_number: 42,
        attempts: 3,
        guesses: vec![25, 60, 42],
        duration_seconds: 30,
        timestamp: 1234567890,
        success: true,
        difficulty: "normal".to_string(),
        score: 0,
    };

    stats.update_with_game(&record).unwrap();

    assert_eq!(stats.total_games, 1);
    assert_eq!(stats.total_wins, 1);
    let win_rate = stats.win_rate();
    assert_eq!(win_rate.num as f64 / win_rate.den as f64, 100.0);
    assert_eq!(stats.best_score, 3);
    let mean = stats.average_attempts();
    assert_eq!(mean.num as f64 / mean.den as f64, 3.0);
}

#[test]
fn test_guess_result() {
    assert_eq!(GuessResult::Correct.to_string(), "correct");
    assert!(GuessResult::Correct.is_game_ending());
    assert!(!GuessResult::TooSmall.is_game_ending());
}

#[test]
fn test_difficulty_parsing() {
    assert_eq!("easy".parse::<Difficulty>().unwrap(), Difficulty::Easy);
    assert_eq!("NORMAL".parse::<Difficulty>().unwrap(), Difficulty::Normal);
    assert!("invalid".parse::<Difficulty>().is_err());
}

#[test]
fn test_player_id_validation() {
    assert!(is_valid_player_id("player123"));
    assert!(is_valid_player_id("user_test-1"));
    assert!(!is_valid_player_id(""));
    assert!(!is_valid_player_id("player with spaces"));
    assert!(!is_valid_player_id(&"x".repeat(65)));
}

#[test]
fn test_duration_formatting() {
    assert_eq!(format_duration(30), "30 秒");
    assert_eq!(format_duration(90), "1 分 30 秒");
    assert_eq!(format_duration(3660), "1 时 1 分");
}

#[test]
fn test_score_calculation() {
    let config = GameConfig::default();

    let record = won_game(2, 30, "normal");
    let score = calculate_game_score(&record, &config);
    assert!(score > 0);

    let mut failed_record = record.clone();
    failed_record.success = false;
    let failed_score = calculate_game_score(&failed_record, &config);
    assert_eq!(failed_score, 0);
}

#[test]
fn test_game_manager_validation() {
    let manager = GameManager::new();

    let valid_config = GameConfig::default();
    assert!(manager.validate_config(&valid_config).is_ok());

    let invalid_config = GameConfig { min_number: 50, max_number: 50, max_attempts: 10 };
    assert!(manager.validate_config(&invalid_config).is_err());
}

#[test]
fn score_formula_has_exact_values() {
    let config = GameConfig::default();
    // (1000 - 2 * 50 + 100) * 2
    assert_eq!(calculate_game_score(&won_game(2, 30, "normal"), &config), 2000);
    // (1000 - 100 + 0) * 1
    assert_eq!(calculate_game_score(&won_game(2, 60, "easy"), &config), 900);
    // (1000 - 800 + 0) * 3, the penalty being capped at 800
    assert_eq!(calculate_game_score(&won_game(16, 600, "hard"), &config), 600);
    assert_eq!(calculate_game_score(&won_game(u32::MAX, 600, "hard"), &config), 600);
    assert_eq!(calculate_game_score(&won_game(15, 59, "whatever"), &config), 700);
    assert_eq!(calculate_game_score(&won_game(0, 0, "easy"), &config), 1100);
}

#[test]
fn duration_boundaries() {
    assert_eq!(format_duration(0), "0 秒");
    assert_eq!(format_duration(59), "59 秒");
    assert_eq!(format_duration(60), "1 分 0 秒");
    assert_eq!(format_duration(3599), "59 分 59 秒");
    assert_eq!(format_duration(3600), "1 时 0 分");
    assert_eq!(format_duration(u64::MAX), "5124095576030431 时 0 分");
}

#[test]
fn player_ids_follow_unicode_and_byte_length() {
    assert!(is_valid_player_id(&"x".repeat(64)));
    assert!(is_valid_player_id("é"));
    assert!(is_valid_player_id("玩家１"));
    // 22 characters of 3 bytes each are 66 bytes
    assert!(!is_valid_player_id(&"玩".repeat(22)));
    assert!(is_valid_player_id(&"玩".repeat(21)));
    assert!(!is_valid_player_id("a.b"));
    assert!(!is_valid_player_id("a@b"));
    assert!(is_valid_player_id("-"));
}

#[test]
fn near_account_ids_edge_cases() {
    assert!(!is_valid_near_account_id("a"));
    assert!(is_valid_near_account_id("ab"));
    assert!(is_valid_near_account_id(&"x".repeat(64)));
    assert!(is_valid_near_account_id("a.b_c-d"));
    assert!(is_valid_near_account_id(".a."));
    assert!(!is_valid_near_account_id("a b"));
    assert!(!is_valid_near_account_id("--"));
    assert!(is_valid_near_account_id("é"));
}

#[test]
fn tx_hash_is_cut_at_eight_bytes_from_either_end() {
    assert_eq!(format_tx_hash("0123456789abcdefX"), "01234567...9abcdefX");
    assert_eq!(format_tx_hash("0123456789abcdef"), "0123456789abcdef");
    assert_eq!(format_tx_hash(""), "");
    assert!(can_format_tx_hash("0123456789abcdefX"));
    // a two-byte character across the 8th byte cannot be cut
    assert!(!can_format_tx_hash("0123456é89abcdefXYZ"));
    assert!(can_format_tx_hash("é"));
    let ok = "01234567é89abcdefXYZ";
    assert!(can_format_tx_hash(ok));
    assert_eq!(format_tx_hash(ok), "01234567...bcdefXYZ");
}

#[test]
fn gas_estimate_is_base_plus_thousand_per_byte() {
    assert_eq!(estimate_gas_cost(0), 2_000_000_000_000);
    assert_eq!(estimate_gas_cost(250), 2_000_000_250_000);
    assert_eq!(estimate_gas_cost(u64::MAX), u64::MAX);
}

#[test]
fn difficulty_names() {
    assert_eq!(Difficulty::parse("Hard"), Ok(Difficulty::Hard));
    assert_eq!(
        Difficulty::parse("Invalid"),
        Err(GameError::InvalidDifficulty("Invalid".to_string()))
    );
    assert_eq!(Difficulty::Easy.as_str(), "easy");
    assert_eq!(Difficulty::Normal.as_str(), "normal");
    assert_eq!(Difficulty::Hard.as_str(), "hard");
    assert_eq!(Difficulty::from_lowercase("EASY"), None);

    let other = GameConfig::for_difficulty("EASY", None);
    assert_eq!(other, GameConfig { min_number: 1, max_number: 100, max_attempts: 10 });
    assert_eq!(
        GameConfig::for_difficulty("hard", None),
        GameConfig { min_number: 1, max_number: 200, max_attempts: 12 }
    );
}

#[test]
fn guess_result_names() {
    assert_eq!(GuessResult::TooSmall.to_string(), "too_small");
    assert_eq!(GuessResult::TooLarge.to_string(), "too_large");
    assert_eq!(GuessResult::GameOver.to_string(), "game_over");
    assert!(GuessResult::GameOver.is_game_ending());
    assert!(!GuessResult::TooLarge.is_game_ending());
}

#[test]
fn config_defects_are_named() {
    let manager = GameManager::new();
    assert_eq!(manager.game_timeout_seconds, 300);
    assert_eq!(manager.default_config, GameConfig::default());
    let check = |min_number, max_number, max_attempts| {
        manager.validate_config(&GameConfig { min_number, max_number, max_attempts })
    };
    assert_eq!(
        check(5, 4, 10),
        Err(GameError::InvalidConfiguration(
            "Minimum number must be less than maximum number".to_string()
        ))
    );
    assert_eq!(
        check(1, 2, 0),
        Err(GameError::InvalidConfiguration(
            "Maximum attempts must be greater than 0".to_string()
        ))
    );
    assert_eq!(
        check(1, 2, 51),
        Err(GameError::InvalidConfiguration("Maximum attempts cannot exceed 50".to_string()))
    );
    assert_eq!(check(1, 2, 50), Ok(()));
    assert_eq!(check(0, u32::MAX, 1), Ok(()));
}

#[test]
fn error_messages_are_spelled_out() {
    assert_eq!(
        GameError::InvalidGuess { guess: 150, min: 1, max: 100 }.message(),
        "Invalid guess: 150 is outside the valid range 1-100"
    );
    assert_eq!(
        GameError::GameNotFound("abc".to_string()).message(),
        "Game with ID abc not found"
    );
    assert_eq!(GameError::SessionError.message(), "Invalid or expired session");
    assert_eq!(GameError::SessionError.category(), "auth");
    assert_eq!(
        GameError::InvalidDifficulty("x".to_string()).message(),
        "Invalid difficulty level: x. Valid options are: easy, normal, hard"
    );
    assert_eq!(GameError::UnexpectedError("boom".to_string()).category(), "unknown");
    assert_eq!(GameError::RateLimitExceeded("p".to_string()).category(), "rate_limit");
    assert!(GameError::RateLimitExceeded("p".to_string()).is_recoverable());
    assert!(GameError::StorageError("p".to_string()).should_retry());
    assert_eq!(GameError::StorageError("p".to_string()).category(), "storage");
    assert_eq!(GameError::HttpError("p".to_string()).category(), "network");
    assert_eq!(GameError::IoError("p".to_string()).category(), "io");
    assert_eq!(GameError::BlockchainStorageError("p".to_string()).category(), "blockchain");
}

#[test]
fn storage_provider_names() {
    assert_eq!(StorageProviderFactory::provider_kind("near"), Ok(StorageProviderKind::Near));
    assert_eq!(StorageProviderFactory::provider_kind("calimero"), Ok(StorageProviderKind::Near));
    assert_eq!(StorageProviderFactory::provider_kind("mock"), Ok(StorageProviderKind::Mock));
    assert_eq!(StorageProviderFactory::provider_kind("test"), Ok(StorageProviderKind::Mock));
    assert_eq!(
        StorageProviderFactory::provider_kind("disk"),
        Err(GameError::InvalidConfiguration("Unknown storage provider: disk".to_string()))
    );
    let status = CalimeroHealthStatus {
        connected: true,
        context_active: false,
        near_network: "testnet".to_string(),
        block_height: 1,
        node_endpoint: "http://localhost:2428".to_string(),
    };
    assert!(!status.is_healthy());
}

#[test]
fn records_and_log_entries_are_built_field_by_field() {
    let record = GameRecord::new(
        "g".to_string(),
        "bob".to_string(),
        42,
        3,
        vec![25, 60, 42],
        30,
        true,
        "normal".to_string(),
        1234567890,
    );
    assert_eq!(record.game_id, "g");
    assert_eq!(record.guesses, vec![25, 60, 42]);
    assert_eq!(record.timestamp, 1234567890);
    assert_eq!(record.duration_seconds, 30);
    assert_eq!(record.score, 0);
    assert_eq!(record.score(), 3);
    let mut lost = record.clone();
    lost.success = false;
    assert_eq!(lost.score(), 0);
    assert_eq!(record.validate(), Ok(()));

    let entry = GameEvent::new("g".to_string(), "bob".to_string(), GameEventType::GuessMade, 7);
    assert_eq!(entry.data, "{}");
    assert_eq!(entry.timestamp, 7);
    let detailed = entry.with_data("{\"guess\":5}".to_string());
    assert_eq!(detailed.data, "{\"guess\":5}");
    assert_eq!(detailed.event_type, GameEventType::GuessMade);
    assert_eq!(detailed.game_id, "g");
}
