use guess_number::game::{GameConfig, GuessPattern, GuessResult, StrategyAssessment};
use guess_number::game_error::GameError;
use guess_number::manager::GameManager;
use guess_number::random::{generate_mock_tx_hash, generate_player_id};
use guess_number::ratio::Ratio;
use guess_number::server::{ActiveGame, GuessResponse};
use guess_number::session::{ceil_log2, judge_guess, Game};
use guess_number::utils::is_valid_player_id;

const NOW: u64 = 1_700_000_000;

fn value(ratio: Ratio) -> f64 {
    ratio.num as f64 / ratio.den as f64
}

fn new_game(config: GameConfig) -> Game {
    Game::new(config, "test_player".to_string(), "normal".to_string(), NOW)
}

fn game_with(config: GameConfig, target: u32) -> Game {
    Game::with_target(
        "0f8fad5b-d9cb-469f-a165-70867728950e".to_string(),
        config,
        target,
        "test_player".to_string(),
        "normal".to_string(),
        NOW,
    )
}

#[test]
fn game_test_game_creation() {
    let config = GameConfig::default();
    let game = new_game(config.clone());

    assert_eq!(game.attempts, 0);
    assert!(game.guesses.is_empty());
    assert!(game.active);
    assert!(!game.won);
    assert!(game.target_number >= config.min_number && game.target_number <= config.max_number);
}

#[test]
fn test_valid_guess() {
    let config = GameConfig::default();
    let mut game = new_game(config);
    game.target_number = 50;

    let result = game.make_guess(25).unwrap();
    assert_eq!(result, GuessResult::TooSmall);
    assert_eq!(game.attempts, 1);
    assert_eq!(game.guesses.len(), 1);
    assert!(game.active);
}

#[test]
fn test_invalid_guess() {
    let config = GameConfig::default();
    let mut game = new_game(config);

    let result = game.make_guess(150);
    assert!(matches!(result, Err(GameError::InvalidGuess { .. })));
    assert_eq!(game.attempts, 0);
}

#[test]
fn test_winning_guess() {
    let config = GameConfig::default();
    let mut game = new_game(config);

    let target = game.target_number;
    let result = game.make_guess(target).unwrap();

    assert_eq!(result, GuessResult::Correct);
    assert!(!game.active);
    assert!(game.won);
}

#[test]
fn test_max_attempts_exceeded() {
    let config = GameConfig { min_number: 1, max_number: 100, max_attempts: 2 };
    let mut game = new_game(config);
    game.target_number = 50;

    let result1 = game.make_guess(25).unwrap();
    assert_eq!(result1, GuessResult::TooSmall);
    assert!(game.active);

    let result2 = game.make_guess(75).unwrap();
    assert_eq!(result2, GuessResult::GameOver);
    assert!(!game.active);
    assert!(!game.won);
}

#[test]
fn test_game_after_finished() {
    let config = GameConfig::default();
    let mut game = new_game(config);

    game.force_finish();
    let result = game.make_guess(50);

    assert!(matches!(result, Err(GameError::GameAlreadyFinished(_))));
}

#[test]
fn test_search_range_calculation() {
    let config = GameConfig { min_number: 1, max_number: 100, max_attempts: 10 };
    let mut game = new_game(config);
    game.target_number = 75;

    assert_eq!(game.current_search_range(), (1, 100));

    game.make_guess(50).unwrap();
    assert_eq!(game.current_search_range(), (51, 100));

    game.make_guess(90).unwrap();
    assert_eq!(game.current_search_range(), (51, 89));
}

#[test]
fn test_optimal_attempts_calculation() {
    let config = GameConfig { min_number: 1, max_number: 100, max_attempts: 10 };
    let game = new_game(config);

    assert_eq!(game.optimal_attempts(), 7);
}

#[test]
fn test_efficiency_rating() {
    let config = GameConfig::default();
    let mut game = new_game(config);

    assert_eq!(value(game.efficiency_rating()), 1.0);

    game.attempts = 7;
    assert_eq!(value(game.efficiency_rating()), 1.0);

    game.attempts = 14;
    assert_eq!(value(game.efficiency_rating()), 0.5);
}

#[test]
fn test_game_record_conversion() {
    let config = GameConfig::default();
    let mut game = new_game(config);

    game.attempts = 5;
    game.guesses = vec![25, 75, 50, 60, 55];
    game.won = true;

    let record = game.to_record(NOW + 42);

    assert_eq!(record.game_id, game.id);
    assert_eq!(record.player_id, game.player_id);
    assert_eq!(record.attempts, 5);
    assert_eq!(record.guesses.len(), 5);
    assert!(record.success);
    assert_eq!(record.duration_seconds, 42);
    assert_eq!(record.timestamp, NOW + 42);
    // (1000 - 5 * 50 + 100) * 2
    assert_eq!(record.score, 1700);
}

#[test]
fn main_test_game_creation() {
    let config = GameConfig { min_number: 1, max_number: 100, max_attempts: 10 };
    let game = ActiveGame::new("test_player".to_string(), config.clone(), "normal".to_string(), NOW);

    assert_eq!(game.attempts, 0);
    assert!(game.guesses.is_empty());
    assert!(game.target_number >= config.min_number && game.target_number <= config.max_number);
}

#[test]
fn test_game_guess_too_small() {
    let config = GameConfig { min_number: 50, max_number: 50, max_attempts: 10 };
    let mut game = ActiveGame::new("test_player".to_string(), config, "normal".to_string(), NOW);
    game.target_number = 50;

    let result = game.count_guess(25);
    assert_eq!(result, GuessResult::TooSmall);
    assert_eq!(game.attempts, 1);
}

#[test]
fn test_game_guess_correct() {
    let config = GameConfig { min_number: 50, max_number: 50, max_attempts: 10 };
    let mut game = ActiveGame::new("test_player".to_string(), config, "normal".to_string(), NOW);
    game.target_number = 50;

    let result = game.count_guess(50);
    assert_eq!(result, GuessResult::Correct);
    assert_eq!(game.attempts, 1);
}

#[test]
fn new_games_draw_their_target_from_the_range() {
    let narrow = GameConfig { min_number: 7, max_number: 7, max_attempts: 3 };
    for _ in 0..20 {
        let game = new_game(narrow);
        assert_eq!(game.target_number, 7);
        assert_eq!(game.id.len(), 36);
        assert_eq!(game.started_at, NOW);
    }
    let wide = GameConfig { min_number: 10, max_number: 12, max_attempts: 3 };
    let mut seen = [false; 3];
    for _ in 0..200 {
        let game = new_game(wide);
        assert!((10..=12).contains(&game.target_number));
        seen[(game.target_number - 10) as usize] = true;
    }
    assert_eq!(seen, [true, true, true]);
    let a = new_game(wide);
    let b = new_game(wide);
    assert_ne!(a.id, b.id);
}

#[test]
fn guess_errors_carry_their_data_and_change_nothing() {
    let mut game = game_with(GameConfig { min_number: 10, max_number: 20, max_attempts: 3 }, 15);
    assert_eq!(
        game.make_guess(9),
        Err(GameError::InvalidGuess { guess: 9, min: 10, max: 20 })
    );
    assert_eq!(
        game.make_guess(21),
        Err(GameError::InvalidGuess { guess: 21, min: 10, max: 20 })
    );
    assert_eq!(game.attempts, 0);
    assert!(game.guesses.is_empty());
    assert_eq!(game.make_guess(10), Ok(GuessResult::TooSmall));
    assert_eq!(game.make_guess(20), Ok(GuessResult::TooLarge));
    assert_eq!(game.make_guess(15), Ok(GuessResult::Correct));
    assert_eq!(game.guesses, vec![10, 20, 15]);
    assert!(game.won);
    // a finished game refuses before it looks at the guess
    assert_eq!(
        game.make_guess(999),
        Err(GameError::GameAlreadyFinished("0f8fad5b-d9cb-469f-a165-70867728950e".to_string()))
    );
    assert_eq!(game.attempts, 3);
}

#[test]
fn right_guess_on_last_attempt_wins() {
    let mut game = game_with(GameConfig { min_number: 1, max_number: 9, max_attempts: 1 }, 5);
    assert_eq!(game.make_guess(5), Ok(GuessResult::Correct));
    assert!(game.won);
    let mut game = game_with(GameConfig { min_number: 1, max_number: 9, max_attempts: 1 }, 5);
    assert_eq!(game.make_guess(6), Ok(GuessResult::GameOver));
    assert!(!game.won);
    assert!(!game.active);
    assert_eq!(judge_guess(5, 4, 3, 3), GuessResult::GameOver);
    assert_eq!(judge_guess(5, 4, 2, 3), GuessResult::TooSmall);
    assert_eq!(judge_guess(5, 6, 2, 3), GuessResult::TooLarge);
    assert_eq!(judge_guess(5, 5, 9, 3), GuessResult::Correct);
}

#[test]
fn status_and_clock() {
    let mut game = game_with(GameConfig { min_number: 1, max_number: 100, max_attempts: 3 }, 50);
    assert_eq!(game.remaining_attempts(), 3);
    assert_eq!(game.reveal_target(), None);
    game.make_guess(10).unwrap();
    let status = game.status(NOW + 90);
    assert_eq!(status.game_id, game.id);
    assert_eq!(status.attempts, 1);
    assert_eq!(status.max_attempts, 3);
    assert_eq!(status.remaining_attempts, 2);
    assert_eq!(status.duration_seconds, 90);
    assert_eq!(status.guesses, vec![10]);
    assert!(status.active);
    assert_eq!(game.duration_seconds(NOW - 1), 0);
    assert!(!game.is_timed_out(NOW + 300, 300));
    assert!(game.is_timed_out(NOW + 301, 300));
    game.attempts = 7;
    assert_eq!(game.remaining_attempts(), 0);
    game.force_finish();
    assert_eq!(game.reveal_target(), Some(50));
    assert_eq!(game.suggest_next_guess(), None);
}

#[test]
fn search_range_and_suggestion() {
    let mut game = game_with(GameConfig { min_number: 1, max_number: 100, max_attempts: 10 }, 75);
    assert_eq!(game.suggest_next_guess(), Some(50));
    game.make_guess(50).unwrap();
    assert_eq!(game.suggest_next_guess(), Some(75));
    // a guess outside the current range does not widen it
    game.guesses = vec![50, 30, 90, 95];
    assert_eq!(game.current_search_range(), (51, 89));
    // the right guess leaves only itself, whatever comes after
    game.guesses = vec![50, 75, 10];
    assert_eq!(game.current_search_range(), (75, 75));
    // guesses that contradict each other leave nothing
    game.target_number = 60;
    game.config = GameConfig { min_number: 60, max_number: 60, max_attempts: 10 };
    game.guesses = vec![];
    assert_eq!(game.current_search_range(), (60, 60));
    let big = game_with(
        GameConfig { min_number: u32::MAX - 1, max_number: u32::MAX, max_attempts: 10 },
        u32::MAX,
    );
    assert_eq!(big.suggest_next_guess(), Some(u32::MAX - 1));
}

#[test]
fn optimal_attempts_is_the_rounded_up_logarithm() {
    assert_eq!(ceil_log2(1), 0);
    assert_eq!(ceil_log2(2), 1);
    assert_eq!(ceil_log2(3), 2);
    assert_eq!(ceil_log2(4), 2);
    assert_eq!(ceil_log2(5), 3);
    assert_eq!(ceil_log2(50), 6);
    assert_eq!(ceil_log2(64), 6);
    assert_eq!(ceil_log2(65), 7);
    assert_eq!(ceil_log2(200), 8);
    assert_eq!(ceil_log2(1 << 32), 32);
    assert_eq!(ceil_log2((1 << 31) + 1), 32);
    let whole = game_with(GameConfig { min_number: 0, max_number: u32::MAX, max_attempts: 1 }, 1);
    assert_eq!(whole.optimal_attempts(), 32);
    let single = game_with(GameConfig { min_number: 5, max_number: 5, max_attempts: 1 }, 5);
    assert_eq!(single.optimal_attempts(), 0);
}

#[test]
fn guess_patterns() {
    let mut game = game_with(GameConfig { min_number: 1, max_number: 101, max_attempts: 50 }, 75);
    assert_eq!(game.analyze_guess_pattern(), GuessPattern::Insufficient);
    game.guesses = vec![10];
    assert_eq!(game.analyze_guess_pattern(), GuessPattern::Insufficient);
    // range 100, so a jump is a step of more than 20
    game.guesses = vec![10, 20, 30, 40];
    assert_eq!(game.analyze_guess_pattern(), GuessPattern::Methodical);
    game.guesses = vec![10, 30, 50];
    assert_eq!(game.analyze_guess_pattern(), GuessPattern::Methodical);
    game.guesses = vec![10, 31, 52];
    assert_eq!(game.analyze_guess_pattern(), GuessPattern::Mixed);
    game.guesses = vec![10, 10, 10];
    assert_eq!(game.analyze_guess_pattern(), GuessPattern::Mixed);
    game.guesses = vec![90, 80, 70];
    assert_eq!(game.analyze_guess_pattern(), GuessPattern::Mixed);
    game.guesses = vec![90, 10, 90, 10];
    assert_eq!(game.analyze_guess_pattern(), GuessPattern::Mixed);
}

#[test]
fn strategy_assessments() {
    // range of 100 numbers: 7 attempts at best
    let mut game = game_with(GameConfig { min_number: 1, max_number: 100, max_attempts: 50 }, 75);
    game.attempts = 1;
    assert_eq!(game.strategy_assessment(), StrategyAssessment::TooEarlyToTell);
    game.attempts = 8;
    game.guesses = vec![10, 20, 30, 40];
    assert_eq!(game.strategy_assessment(), StrategyAssessment::Excellent);
    game.guesses = vec![10, 10, 10];
    assert_eq!(game.strategy_assessment(), StrategyAssessment::Good);
    // 7 / 9 is below four fifths
    game.attempts = 9;
    assert_eq!(game.strategy_assessment(), StrategyAssessment::Fair);
    game.guesses = vec![10, 20, 30, 40];
    assert_eq!(game.strategy_assessment(), StrategyAssessment::Fair);
    assert_eq!(game.efficiency_rating(), Ratio { num: 7, den: 9 });
}

#[test]
fn state_validation_names_the_first_defect() {
    let mut game = game_with(GameConfig { min_number: 1, max_number: 100, max_attempts: 3 }, 50);
    assert_eq!(game.validate_state(), Ok(()));
    game.make_guess(10).unwrap();
    assert_eq!(game.validate_state(), Ok(()));
    game.attempts = 2;
    assert_eq!(
        game.validate_state(),
        Err(GameError::UnexpectedError("Attempts count doesn't match guesses length".to_string()))
    );
    game.attempts = 4;
    game.guesses = vec![1, 2, 3, 4];
    assert_eq!(
        game.validate_state(),
        Err(GameError::UnexpectedError("Attempts exceed maximum allowed".to_string()))
    );
    game.attempts = 3;
    game.guesses = vec![1, 200, 0];
    game.target_number = 101;
    assert_eq!(
        game.validate_state(),
        Err(GameError::UnexpectedError("Target number is outside valid range".to_string()))
    );
    game.target_number = 100;
    assert_eq!(
        game.validate_state(),
        Err(GameError::UnexpectedError("Invalid guess 200 found in history".to_string()))
    );
}

#[test]
fn server_game_answers_in_sentences() {
    let config = GameConfig { min_number: 1, max_number: 100, max_attempts: 3 };
    let mut game = ActiveGame::with_target(
        "id".to_string(),
        "bob".to_string(),
        config,
        42,
        "normal".to_string(),
        NOW,
    );
    assert_eq!(
        game.make_guess(10),
        GuessResponse {
            result: "too_small".to_string(),
            message: "太小了！尝试一个更大的数字。剩余 2 次机会。".to_string(),
            attempts: 1,
            max_attempts: 3,
            game_over: false,
            success: false,
            target_number: None,
        }
    );
    assert_eq!(
        game.make_guess(1000),
        GuessResponse {
            result: "too_large".to_string(),
            message: "太大了！尝试一个更小的数字。剩余 1 次机会。".to_string(),
            attempts: 2,
            max_attempts: 3,
            game_over: false,
            success: false,
            target_number: None,
        }
    );
    let mut lost = ActiveGame::with_target(
        "id".to_string(),
        "bob".to_string(),
        config,
        42,
        "normal".to_string(),
        NOW,
    );
    lost.attempts = 2;
    assert_eq!(
        lost.make_guess(43),
        GuessResponse {
            result: "game_over".to_string(),
            message: "游戏结束！正确答案是 42。太大了，但你已经用完了所有机会。".to_string(),
            attempts: 3,
            max_attempts: 3,
            game_over: true,
            success: false,
            target_number: Some(42),
        }
    );
    assert!(!lost.active);
    assert_eq!(
        lost.make_guess(42),
        GuessResponse {
            result: "game_over".to_string(),
            message: "游戏已结束".to_string(),
            attempts: 3,
            max_attempts: 3,
            game_over: true,
            success: false,
            target_number: Some(42),
        }
    );
    assert_eq!(lost.guesses, vec![43]);

    let mut small = ActiveGame::with_target(
        "id".to_string(),
        "bob".to_string(),
        GameConfig { min_number: 1, max_number: 100, max_attempts: 1 },
        42,
        "normal".to_string(),
        NOW,
    );
    assert_eq!(
        small.make_guess(41).message,
        "游戏结束！正确答案是 42。太小了，但你已经用完了所有机会。"
    );

    assert_eq!(
        game.make_guess(42),
        GuessResponse {
            result: "correct".to_string(),
            message: "🎉 恭喜！你用 3 次尝试猜对了数字 42！".to_string(),
            attempts: 3,
            max_attempts: 3,
            game_over: true,
            success: true,
            target_number: Some(42),
        }
    );
    assert!(!game.active);
    let record = game.to_record(true, NOW + 5);
    assert_eq!(record.game_id, "id");
    assert_eq!(record.guesses, vec![10, 1000, 42]);
    assert_eq!(record.duration_seconds, 5);
    assert!(record.success);
}

#[test]
fn manager_creates_and_times_out_games() {
    let manager = GameManager::new();
    assert_eq!(
        manager.create_game("bad name".to_string(), None, None, NOW).unwrap_err(),
        GameError::InvalidPlayerId("bad name".to_string())
    );
    let game = manager.create_game("bob".to_string(), None, None, NOW).unwrap();
    assert_eq!(game.difficulty, "normal");
    assert_eq!(game.config, GameConfig { min_number: 1, max_number: 100, max_attempts: 10 });
    assert!((1..=100).contains(&game.target_number));
    let hard = manager
        .create_game("bob".to_string(), Some("hard".to_string()), Some(3), NOW)
        .unwrap();
    assert_eq!(hard.config, GameConfig { min_number: 1, max_number: 200, max_attempts: 3 });
    assert_eq!(hard.difficulty, "hard");

    let at = |started_at: u64, active: bool, name: &str| {
        let mut game = Game::with_target(
            name.to_string(),
            GameConfig::default(),
            5,
            "bob".to_string(),
            "normal".to_string(),
            started_at,
        );
        game.active = active;
        game
    };
    let mut games = vec![
        at(NOW - 301, true, "stale"),
        at(NOW - 300, true, "on the edge"),
        at(NOW - 900, false, "finished long ago"),
        at(NOW - 500, true, "stale too"),
        at(NOW + 10, true, "from the future"),
    ];
    manager.cleanup_timed_out_games(&mut games, NOW);
    let left: Vec<&str> = games.iter().map(|g| g.id.as_str()).collect();
    assert_eq!(left, vec!["on the edge", "finished long ago", "from the future"]);
}

#[test]
fn made_up_names_have_their_shape() {
    let hash = generate_mock_tx_hash();
    assert_eq!(hash.len(), 64);
    assert!(hash.chars().all(|c| c.is_ascii_digit() || ('a'..='f').contains(&c)));
    assert_ne!(hash, generate_mock_tx_hash());
    let player = generate_player_id();
    assert!(player.starts_with("player_"));
    assert_eq!(player.len(), 39);
    assert!(is_valid_player_id(&player));
}

#[test]
fn assessments_have_their_words() {
    assert_eq!(StrategyAssessment::Excellent.label(), "优秀");
    assert_eq!(StrategyAssessment::Good.label(), "良好");
    assert_eq!(StrategyAssessment::Fair.label(), "一般");
    assert_eq!(StrategyAssessment::Poor.label(), "需要改进");
    assert_eq!(StrategyAssessment::TooEarlyToTell.label(), "数据不足");
}
