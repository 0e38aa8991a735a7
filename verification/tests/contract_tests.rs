use guess_number::contract::{CallContext, ContractSnapshot, GuessNumberContract};
use guess_number::player::PlayerEntry;
use guess_number::stats::PlayerStats;
use guess_number::error::ContractError;
use guess_number::event::GameEvent;
use guess_number::ratio::Ratio;
use guess_number::record::GameRecord;
use guess_number::stats::BEST_SCORE_UNSET;

const ONE_NEAR: u128 = 1_000_000_000_000_000_000_000_000;
const BYTE_COST: u128 = 10_000_000_000_000_000_000;

fn value(ratio: Ratio) -> f64 {
    ratio.num as f64 / ratio.den as f64
}

fn call(deposit: u128, now: u64) -> CallContext {
    CallContext {
        attached_deposit: deposit,
        storage_before: 1_000,
        storage_after: 1_400,
        storage_byte_cost: BYTE_COST,
        now,
    }
}

fn record(game_id: &str, player: &str, attempts: u32, success: bool, timestamp: u64) -> GameRecord {
    let mut guesses = Vec::new();
    for i in 0..attempts {
        guesses.push(10 + i);
    }
    GameRecord {
        game_id: game_id.to_string(),
        player_id: player.to_string(),
        target_number: 42,
        attempts,
        guesses,
        duration_seconds: 30,
        timestamp,
        success,
        difficulty: "normal".to_string(),
        score: if success { 500 } else { 0 },
    }
}

#[test]
fn test_contract_initialization() {
    let owner = "alice".to_string();
    let contract = GuessNumberContract::new(owner.clone());

    assert_eq!(contract.owner_id(), &owner);
    assert_eq!(contract.total_games(), 0);
    assert_eq!(contract.total_players(), 0);
    assert_eq!(contract.version(), "1.0.0");
}

#[test]
fn test_store_game_record() {
    let owner = "alice".to_string();
    let player = "bob".to_string();
    let mut contract = GuessNumberContract::new(owner);

    let record = GameRecord {
        game_id: "test_game_1".to_string(),
        player_id: player.clone(),
        target_number: 42,
        attempts: 3,
        guesses: vec![25, 60, 42],
        duration_seconds: 30,
        timestamp: 1234567890,
        success: true,
        difficulty: "normal".to_string(),
        score: 850,
    };

    let result = contract
        .store_game_record(record.clone(), &call(ONE_NEAR, 1234567890))
        .unwrap();
    assert!(result.message.contains("Game record stored successfully"));
    assert_eq!(result.message, "Game record stored successfully: test_game_1");

    let stored_record = contract.get_game_record("test_game_1");
    assert!(stored_record.is_some());

    let stored = stored_record.unwrap();
    assert_eq!(stored.game_id, "test_game_1");
    assert_eq!(stored.player_id, player);
    assert_eq!(stored.success, true);
    assert_eq!(stored, record);

    let stats = contract.get_player_stats(&player).unwrap();
    assert_eq!(stats.total_games, 1);
    assert_eq!(stats.total_wins, 1);
    assert_eq!(value(stats.win_rate()), 100.0);
    assert_eq!(stats.best_score, 3);
}

#[test]
fn test_player_stats_aggregation() {
    let owner = "alice".to_string();
    let player = "bob".to_string();
    let mut contract = GuessNumberContract::new(owner);

    let record1 = GameRecord {
        game_id: "game_1".to_string(),
        player_id: player.clone(),
        target_number: 50,
        attempts: 3,
        guesses: vec![25, 75, 50],
        duration_seconds: 45,
        timestamp: 1234567890,
        success: true,
        difficulty: "normal".to_string(),
        score: 900,
    };
    let record2 = GameRecord {
        game_id: "game_2".to_string(),
        player_id: player.clone(),
        target_number: 25,
        attempts: 10,
        guesses: vec![50, 60, 70, 80, 90, 40, 30, 20, 10, 5],
        duration_seconds: 120,
        timestamp: 1234567950,
        success: false,
        difficulty: "normal".to_string(),
        score: 0,
    };

    contract
        .store_game_record(record1, &call(2 * ONE_NEAR, 1234567890))
        .unwrap();
    contract
        .store_game_record(record2, &call(2 * ONE_NEAR, 1234567950))
        .unwrap();

    let stats = contract.get_player_stats(&player).unwrap();
    assert_eq!(stats.total_games, 2);
    assert_eq!(stats.total_wins, 1);
    assert_eq!(value(stats.win_rate()), 50.0);
    assert_eq!(stats.best_score, 3);
    assert_eq!(value(stats.average_attempts()), 6.5);
    assert_eq!(stats.total_time, 165);
    assert_eq!(stats.total_score, 900);
}

#[test]
fn test_leaderboard() {
    let owner = "alice".to_string();
    let player1 = "bob".to_string();
    let player2 = "charlie".to_string();
    let mut contract = GuessNumberContract::new(owner);

    let record1 = GameRecord {
        game_id: "game_1".to_string(),
        player_id: player1.clone(),
        target_number: 50,
        attempts: 2,
        guesses: vec![25, 50],
        duration_seconds: 30,
        timestamp: 1234567890,
        success: true,
        difficulty: "normal".to_string(),
        score: 950,
    };
    let record2 = GameRecord {
        game_id: "game_2".to_string(),
        player_id: player2.clone(),
        target_number: 75,
        attempts: 5,
        guesses: vec![50, 60, 70, 80, 75],
        duration_seconds: 90,
        timestamp: 1234567950,
        success: true,
        difficulty: "normal".to_string(),
        score: 700,
    };

    contract
        .store_game_record(record1, &call(3 * ONE_NEAR, 1234567890))
        .unwrap();
    contract
        .store_game_record(record2, &call(3 * ONE_NEAR, 1234567950))
        .unwrap();

    let leaderboard = contract.get_leaderboard(None, 1234568000);
    assert_eq!(leaderboard.len(), 2);

    assert_eq!(leaderboard[0].player_id, player1);
    assert_eq!(leaderboard[0].rank, 1);
    assert_eq!(leaderboard[1].player_id, player2);
    assert_eq!(leaderboard[1].rank, 2);
}

#[test]
#[should_panic(expected = "Game record already exists")]
fn test_duplicate_game_id() {
    let owner = "alice".to_string();
    let player = "bob".to_string();
    let mut contract = GuessNumberContract::new(owner);

    let record = GameRecord {
        game_id: "duplicate_game".to_string(),
        player_id: player.clone(),
        target_number: 42,
        attempts: 3,
        guesses: vec![25, 60, 42],
        duration_seconds: 30,
        timestamp: 1234567890,
        success: true,
        difficulty: "normal".to_string(),
        score: 850,
    };

    contract
        .store_game_record(record.clone(), &call(2 * ONE_NEAR, 1234567890))
        .unwrap();
    if let Err(refusal) = contract.store_game_record(record, &call(2 * ONE_NEAR, 1234567890)) {
        panic!("{}", refusal.message());
    }
}

#[test]
#[should_panic(expected = "Invalid difficulty level")]
fn test_invalid_difficulty() {
    let owner = "alice".to_string();
    let player = "bob".to_string();
    let mut contract = GuessNumberContract::new(owner);

    let record = GameRecord {
        game_id: "invalid_difficulty_game".to_string(),
        player_id: player,
        target_number: 42,
        attempts: 3,
        guesses: vec![25, 60, 42],
        duration_seconds: 30,
        timestamp: 1234567890,
        success: true,
        difficulty: "impossible".to_string(),
        score: 850,
    };

    if let Err(refusal) = contract.store_game_record(record, &call(ONE_NEAR, 1234567890)) {
        panic!("{}", refusal.message());
    }
}

#[test]
fn test_admin_functions() {
    let owner = "alice".to_string();
    let admin = "bob".to_string();
    let mut contract = GuessNumberContract::new(owner.clone());

    contract.add_admin(&owner, admin.clone()).unwrap();
    assert!(contract.is_admin(&admin));

    contract.rebuild_leaderboard_admin(&admin, 1_700_000_000).unwrap();
    assert_eq!(contract.leaderboard_last_update(), 1_700_000_000);

    contract.remove_admin(&owner, &admin).unwrap();
    assert!(!contract.is_admin(&admin));
}

#[test]
#[should_panic(expected = "Only contract owner can call this method")]
fn test_non_owner_add_admin() {
    let owner = "alice".to_string();
    let non_owner = "bob".to_string();
    let admin_candidate = "charlie".to_string();
    let mut contract = GuessNumberContract::new(owner);

    if let Err(refusal) = contract.add_admin(&non_owner, admin_candidate) {
        panic!("{}", refusal.message());
    }
}

#[test]
fn second_insert_with_same_id_changes_nothing() {
    let mut contract = GuessNumberContract::new("alice".to_string());
    contract
        .store_game_record(record("g1", "bob", 3, true, 100), &call(ONE_NEAR, 100))
        .unwrap();
    let stats_before = contract.get_player_stats("bob").unwrap();
    let games_before = contract.get_player_games("bob", None, None);

    let mut again = record("g1", "bob", 7, false, 200);
    again.score = 1;
    let refused = contract.store_game_record(again, &call(ONE_NEAR, 200));
    assert_eq!(refused, Err(ContractError::DuplicateGameId));

    assert_eq!(contract.total_games(), 1);
    assert_eq!(contract.total_players(), 1);
    assert_eq!(contract.get_player_stats("bob").unwrap(), stats_before);
    assert_eq!(contract.get_player_games("bob", None, None), games_before);
    assert_eq!(contract.get_game_record("g1").unwrap().attempts, 3);
}

#[test]
fn same_id_for_another_player_is_refused_too() {
    let mut contract = GuessNumberContract::new("alice".to_string());
    contract
        .store_game_record(record("g1", "bob", 3, true, 100), &call(ONE_NEAR, 100))
        .unwrap();
    let refused = contract.store_game_record(record("g1", "carol", 3, true, 100), &call(ONE_NEAR, 100));
    assert_eq!(refused, Err(ContractError::DuplicateGameId));
    assert!(contract.get_player_stats("carol").is_none());
}

#[test]
fn first_win_sets_best_without_event_and_better_win_announces_it() {
    let mut contract = GuessNumberContract::new("alice".to_string());

    let first = contract
        .store_game_record(record("g1", "bob", 5, true, 100), &call(ONE_NEAR, 100))
        .unwrap();
    assert_eq!(contract.get_player_stats("bob").unwrap().best_score, 5);
    assert_eq!(
        first.events,
        vec![
            GameEvent::StatsUpdated {
                player_id: "bob".to_string(),
                total_games: 1,
                win_rate: Ratio { num: 100, den: 1 },
            },
            GameEvent::GameRecorded {
                game_id: "g1".to_string(),
                player_id: "bob".to_string(),
                success: true,
                attempts: 5,
                difficulty: "normal".to_string(),
            },
        ]
    );

    let second = contract
        .store_game_record(record("g2", "bob", 3, true, 200), &call(ONE_NEAR, 200))
        .unwrap();
    assert_eq!(contract.get_player_stats("bob").unwrap().best_score, 3);
    assert_eq!(
        second.events,
        vec![
            GameEvent::NewBestScore {
                player_id: "bob".to_string(),
                new_best: 3,
                previous_best: 5,
            },
            GameEvent::StatsUpdated {
                player_id: "bob".to_string(),
                total_games: 2,
                win_rate: Ratio { num: 200, den: 2 },
            },
            GameEvent::GameRecorded {
                game_id: "g2".to_string(),
                player_id: "bob".to_string(),
                success: true,
                attempts: 3,
                difficulty: "normal".to_string(),
            },
        ]
    );
}

#[test]
fn worse_or_equal_win_and_lost_game_leave_best_alone() {
    let mut contract = GuessNumberContract::new("alice".to_string());
    contract
        .store_game_record(record("g0", "bob", 2, false, 50), &call(ONE_NEAR, 50))
        .unwrap();
    assert_eq!(contract.get_player_stats("bob").unwrap().best_score, BEST_SCORE_UNSET);
    contract
        .store_game_record(record("g1", "bob", 4, true, 100), &call(ONE_NEAR, 100))
        .unwrap();
    let same = contract
        .store_game_record(record("g2", "bob", 4, true, 200), &call(ONE_NEAR, 200))
        .unwrap();
    assert_eq!(same.events.len(), 2);
    let worse = contract
        .store_game_record(record("g3", "bob", 9, true, 300), &call(ONE_NEAR, 300))
        .unwrap();
    assert_eq!(worse.events.len(), 2);
    let lost = contract
        .store_game_record(record("g4", "bob", 1, false, 400), &call(ONE_NEAR, 400))
        .unwrap();
    assert_eq!(lost.events.len(), 2);
    let stats = contract.get_player_stats("bob").unwrap();
    assert_eq!(stats.best_score, 4);
    assert_eq!(stats.total_games, 5);
    assert_eq!(stats.total_wins, 3);
    assert_eq!(stats.total_attempts, 20);
    assert_eq!(stats.last_played, 400);
    assert_eq!(value(stats.win_rate()), 60.0);
    assert_eq!(value(stats.average_attempts()), 4.0);
}

#[test]
fn better_mean_ranks_above_at_equal_win_rate() {
    let mut contract = GuessNumberContract::new("alice".to_string());
    // B is seen first, so only the mean can put A on top.
    contract
        .store_game_record(record("gb", "player_b", 5, true, 100), &call(ONE_NEAR, 100))
        .unwrap();
    contract
        .store_game_record(record("ga", "player_a", 2, true, 200), &call(ONE_NEAR, 200))
        .unwrap();
    let board = contract.get_leaderboard(Some(10), 300);
    assert_eq!(board.len(), 2);
    assert_eq!(board[0].player_id, "player_a");
    assert_eq!(board[0].rank, 1);
    assert_eq!(value(board[0].win_rate), 100.0);
    assert_eq!(value(board[0].average_attempts), 2.0);
    assert_eq!(board[1].player_id, "player_b");
    assert_eq!(board[1].rank, 2);
    assert_eq!(value(board[1].average_attempts), 5.0);
}

#[test]
fn leaderboard_orders_by_rate_then_mean_then_score_and_keeps_ties() {
    let mut contract = GuessNumberContract::new("alice".to_string());
    let mut n = 0;
    let mut play = |contract: &mut GuessNumberContract, player: &str, attempts: u32, success: bool, score: u32| {
        n += 1;
        let mut r = record(&format!("g{}", n), player, attempts, success, 100 + n);
        r.score = score;
        contract.store_game_record(r, &call(ONE_NEAR, 100 + n)).unwrap();
    };
    // loser: win rate 0
    play(&mut contract, "loser", 1, false, 0);
    // half: one win of two
    play(&mut contract, "half", 2, true, 10);
    play(&mut contract, "half", 2, false, 0);
    // tie_first and tie_second: same rate, mean and score
    play(&mut contract, "tie_first", 4, true, 7);
    play(&mut contract, "tie_second", 4, true, 7);
    // rich: same rate and mean as the ties, higher score
    play(&mut contract, "rich", 4, true, 9);
    // sharp: same rate, lower mean
    play(&mut contract, "sharp", 3, true, 1);

    let board = contract.get_leaderboard(None, 1_000);
    let names: Vec<&str> = board.iter().map(|e| e.player_id.as_str()).collect();
    assert_eq!(names, vec!["sharp", "rich", "tie_first", "tie_second", "half", "loser"]);
    let ranks: Vec<u32> = board.iter().map(|e| e.rank).collect();
    assert_eq!(ranks, vec![1, 2, 3, 4, 5, 6]);
    assert_eq!(board[5].best_score, 0);
    assert_eq!(board[4].best_score, 2);
    assert_eq!(board[4].win_rate, Ratio { num: 100, den: 2 });
}

#[test]
fn leaderboard_limit_defaults_to_ten_and_is_capped_at_hundred() {
    let mut contract = GuessNumberContract::new("alice".to_string());
    for i in 0..120u32 {
        contract
            .store_game_record(
                record(&format!("g{}", i), &format!("p{}", i), 1 + i % 50, true, 100),
                &call(ONE_NEAR, 100),
            )
            .unwrap();
    }
    assert_eq!(contract.get_leaderboard(None, 200).len(), 10);
    assert_eq!(contract.get_leaderboard(Some(3), 200).len(), 3);
    assert_eq!(contract.get_leaderboard(Some(0), 200).len(), 0);
    assert_eq!(contract.get_leaderboard(Some(100), 200).len(), 100);
    assert_eq!(contract.get_leaderboard(Some(5000), 200).len(), 100);
}

#[test]
fn leaderboard_is_cached_until_stale_for_reads() {
    let mut contract = GuessNumberContract::new("alice".to_string());
    contract
        .store_game_record(record("g1", "bob", 5, true, 0), &call(ONE_NEAR, 1_000))
        .unwrap();
    let board = contract.get_leaderboard(None, 1_000);
    assert_eq!(board.len(), 1);
    assert_eq!(contract.leaderboard_last_update(), 1_000);

    // a better player arrives; the write happens within the write threshold
    contract
        .store_game_record(record("g2", "carol", 1, true, 0), &call(ONE_NEAR, 1_500))
        .unwrap();
    // exactly at the read threshold the cache is still used
    let board = contract.get_leaderboard(None, 1_000 + 1_800);
    assert_eq!(board.len(), 1);
    assert_eq!(board[0].player_id, "bob");
    assert_eq!(contract.leaderboard_last_update(), 1_000);
    // one second later it is rebuilt
    let board = contract.get_leaderboard(None, 1_000 + 1_801);
    assert_eq!(board.len(), 2);
    assert_eq!(board[0].player_id, "carol");
    assert_eq!(contract.leaderboard_last_update(), 2_801);
}

#[test]
fn accepted_record_drops_a_leaderboard_older_than_the_write_threshold() {
    let mut contract = GuessNumberContract::new("alice".to_string());
    contract
        .store_game_record(record("g1", "bob", 5, true, 0), &call(ONE_NEAR, 10_000))
        .unwrap();
    contract.get_leaderboard(None, 10_000);
    assert_eq!(contract.leaderboard_last_update(), 10_000);

    // exactly at the threshold: kept
    contract
        .store_game_record(record("g2", "carol", 1, true, 0), &call(ONE_NEAR, 13_600))
        .unwrap();
    assert_eq!(contract.leaderboard_last_update(), 10_000);
    // a refused record does not touch the cache even when it is too old
    let refused = contract.store_game_record(record("g2", "dave", 1, true, 0), &call(ONE_NEAR, 99_999));
    assert!(refused.is_err());
    assert_eq!(contract.leaderboard_last_update(), 10_000);
    // past the threshold: dropped
    contract
        .store_game_record(record("g3", "dave", 1, true, 0), &call(ONE_NEAR, 13_601))
        .unwrap();
    assert_eq!(contract.leaderboard_last_update(), 0);
    // the next read rebuilds, even at a time before the old build
    let board = contract.get_leaderboard(None, 5);
    assert_eq!(board.len(), 3);
    assert_eq!(contract.leaderboard_last_update(), 5);
}

#[test]
fn underpaid_call_is_refused_and_changes_nothing() {
    let mut contract = GuessNumberContract::new("alice".to_string());
    let required = 400 * BYTE_COST;
    let refused = contract.store_game_record(record("g1", "bob", 3, true, 100), &call(required - 1, 100));
    assert_eq!(
        refused,
        Err(ContractError::InsufficientPayment { required, provided: required - 1 })
    );
    assert_eq!(contract.total_games(), 0);
    assert_eq!(contract.total_players(), 0);
    assert!(contract.get_game_record("g1").is_none());
    assert!(contract.get_player_stats("bob").is_none());
    assert!(contract.get_player_games("bob", None, None).is_empty());
}

#[test]
fn exact_payment_is_accepted_and_overpayment_is_refunded() {
    let mut contract = GuessNumberContract::new("alice".to_string());
    let required = 400 * BYTE_COST;
    let exact = contract
        .store_game_record(record("g1", "bob", 3, true, 100), &call(required, 100))
        .unwrap();
    assert_eq!(exact.settlement.bytes_added, 400);
    assert_eq!(exact.settlement.required, required);
    assert_eq!(exact.settlement.refund, 0);

    let over = contract
        .store_game_record(record("g2", "bob", 3, true, 100), &call(ONE_NEAR, 100))
        .unwrap();
    assert_eq!(over.settlement.required, required);
    assert_eq!(over.settlement.refund, ONE_NEAR - required);
}

#[test]
fn meter_that_reads_zero_charges_nothing() {
    let mut contract = GuessNumberContract::new("alice".to_string());
    let free = CallContext {
        attached_deposit: 7,
        storage_before: 0,
        storage_after: 0,
        storage_byte_cost: BYTE_COST,
        now: 1,
    };
    let receipt = contract.store_game_record(record("g1", "bob", 3, true, 100), &free).unwrap();
    assert_eq!(receipt.settlement.required, 0);
    assert_eq!(receipt.settlement.refund, 7);
}

#[test]
fn meter_regression_and_fee_overflow_are_refused() {
    let mut contract = GuessNumberContract::new("alice".to_string());
    let backwards = CallContext {
        attached_deposit: ONE_NEAR,
        storage_before: 10,
        storage_after: 9,
        storage_byte_cost: BYTE_COST,
        now: 1,
    };
    assert_eq!(
        contract.store_game_record(record("g1", "bob", 3, true, 100), &backwards),
        Err(ContractError::MeterRegressed)
    );
    let huge = CallContext {
        attached_deposit: u128::MAX,
        storage_before: 0,
        storage_after: 2,
        storage_byte_cost: u128::MAX,
        now: 1,
    };
    assert_eq!(
        contract.store_game_record(record("g1", "bob", 3, true, 100), &huge),
        Err(ContractError::StorageCostOverflow)
    );
    assert_eq!(contract.total_games(), 0);
}

#[test]
fn player_games_are_paged_in_reverse_insertion_order() {
    let mut contract = GuessNumberContract::new("alice".to_string());
    // inserted in an order that differs from the timestamps
    contract
        .store_game_record(record("late", "bob", 3, true, 900), &call(ONE_NEAR, 1))
        .unwrap();
    contract
        .store_game_record(record("early", "bob", 3, true, 100), &call(ONE_NEAR, 2))
        .unwrap();
    contract
        .store_game_record(record("middle", "bob", 3, true, 500), &call(ONE_NEAR, 3))
        .unwrap();
    contract
        .store_game_record(record("other", "carol", 3, true, 999), &call(ONE_NEAR, 4))
        .unwrap();

    let newest = contract.get_player_games("bob", Some(0), Some(1));
    assert_eq!(newest.len(), 1);
    assert_eq!(newest[0].game_id, "middle");

    let ids = |games: Vec<GameRecord>| -> Vec<String> { games.into_iter().map(|g| g.game_id).collect() };
    assert_eq!(ids(contract.get_player_games("bob", None, None)), vec!["middle", "early", "late"]);
    assert_eq!(ids(contract.get_player_games("bob", Some(1), Some(1))), vec!["early"]);
    assert_eq!(ids(contract.get_player_games("bob", Some(1), Some(5))), vec!["early", "late"]);
    assert_eq!(ids(contract.get_player_games("bob", Some(2), None)), vec!["late"]);
    assert!(contract.get_player_games("bob", Some(3), None).is_empty());
    assert!(contract.get_player_games("bob", Some(u32::MAX), Some(u32::MAX)).is_empty());
    assert!(contract.get_player_games("bob", None, Some(0)).is_empty());
    assert!(contract.get_player_games("nobody", None, None).is_empty());
}

#[test]
fn player_games_page_is_capped_at_hundred_and_defaults_to_twenty() {
    let mut contract = GuessNumberContract::new("alice".to_string());
    for i in 0..130u32 {
        contract
            .store_game_record(record(&format!("g{}", i), "bob", 3, true, 100), &call(ONE_NEAR, 1))
            .unwrap();
    }
    assert_eq!(contract.get_player_games("bob", None, None).len(), 20);
    let page = contract.get_player_games("bob", Some(10), Some(1000));
    assert_eq!(page.len(), 100);
    assert_eq!(page[0].game_id, "g119");
    assert_eq!(page[99].game_id, "g20");
}

#[test]
fn point_lookups_never_fail() {
    let mut contract = GuessNumberContract::new("alice".to_string());
    contract
        .store_game_record(record("g1", "bob", 3, true, 100), &call(ONE_NEAR, 1))
        .unwrap();
    contract
        .store_game_record(record("g2", "bob", 4, false, 200), &call(ONE_NEAR, 1))
        .unwrap();
    assert!(contract.get_game_record("missing").is_none());
    assert!(contract.get_game_record("").is_none());
    assert!(contract.get_player_stats("missing").is_none());

    let found = contract.get_game_records(vec!["g2".to_string(), "nope".to_string(), "g1".to_string()]);
    assert_eq!(found.len(), 3);
    assert_eq!(found[0].as_ref().unwrap().attempts, 4);
    assert!(found[1].is_none());
    assert_eq!(found[2].as_ref().unwrap().attempts, 3);
    assert!(contract.get_game_records(Vec::new()).is_empty());
}

#[test]
fn recent_games_are_sorted_by_timestamp_newest_first() {
    let mut contract = GuessNumberContract::new("alice".to_string());
    for (id, ts) in [("a", 300u64), ("b", 100), ("c", 500), ("d", 300), ("e", 200)] {
        contract
            .store_game_record(record(id, "bob", 3, true, ts), &call(ONE_NEAR, 1))
            .unwrap();
    }
    let ids = |games: Vec<GameRecord>| -> Vec<String> { games.into_iter().map(|g| g.game_id).collect() };
    assert_eq!(ids(contract.get_recent_games(None)), vec!["c", "a", "d", "e", "b"]);
    assert_eq!(ids(contract.get_recent_games(Some(2))), vec!["c", "a"]);
    assert!(contract.get_recent_games(Some(0)).is_empty());
}

#[test]
fn recent_games_default_and_cap() {
    let mut contract = GuessNumberContract::new("alice".to_string());
    for i in 0..105u64 {
        contract
            .store_game_record(record(&format!("g{}", i), "bob", 3, true, i), &call(ONE_NEAR, 1))
            .unwrap();
    }
    let recent = contract.get_recent_games(None);
    assert_eq!(recent.len(), 20);
    assert_eq!(recent[0].game_id, "g104");
    assert_eq!(contract.get_recent_games(Some(1000)).len(), 100);
}

#[test]
fn search_is_case_insensitive_and_capped() {
    let mut contract = GuessNumberContract::new("alice".to_string());
    for (i, name) in ["Alice_1", "bob", "ALICIA", "malice", "carol"].iter().enumerate() {
        contract
            .store_game_record(record(&format!("g{}", i), name, 3, true, 1), &call(ONE_NEAR, 1))
            .unwrap();
    }
    assert_eq!(contract.search_players("alic"), vec!["Alice_1", "ALICIA", "malice"]);
    assert_eq!(contract.search_players("ALICE"), vec!["Alice_1", "malice"]);
    assert_eq!(contract.search_players("zed"), Vec::<String>::new());
    assert_eq!(contract.search_players("").len(), 5);

    for i in 0..30 {
        contract
            .store_game_record(
                record(&format!("x{}", i), &format!("extra{}", i), 3, true, 1),
                &call(ONE_NEAR, 1),
            )
            .unwrap();
    }
    let many = contract.search_players("EXTRA");
    assert_eq!(many.len(), 20);
    assert_eq!(many[0], "extra0");
    assert_eq!(many[19], "extra19");
}

#[test]
fn contract_stats_summarise_the_ledger() {
    let mut contract = GuessNumberContract::new("alice".to_string());
    let mut long = record("g1", "bob", 3, true, 1);
    long.duration_seconds = u64::MAX;
    contract.store_game_record(long, &call(ONE_NEAR, 1)).unwrap();
    let mut longer = record("g2", "carol", 3, true, 1);
    longer.duration_seconds = u64::MAX;
    contract.store_game_record(longer, &call(ONE_NEAR, 1)).unwrap();
    contract
        .store_game_record(record("g3", "carol", 3, true, 1), &call(ONE_NEAR, 1))
        .unwrap_err();

    let stats = contract.get_contract_stats(4_321);
    assert_eq!(stats.total_games, 2);
    assert_eq!(stats.total_players, 2);
    assert_eq!(stats.total_play_time, 2 * (u64::MAX as u128));
    assert_eq!(stats.version, "1.0.0");
    assert_eq!(stats.owner, "alice");
    assert_eq!(stats.storage_usage, 4_321);
}

#[test]
fn counter_overflow_refuses_the_record() {
    let mut contract = GuessNumberContract::new("alice".to_string());
    let mut long = record("g1", "bob", 3, true, 1);
    long.duration_seconds = u64::MAX;
    contract.store_game_record(long, &call(ONE_NEAR, 1)).unwrap();
    let refused = contract.store_game_record(record("g2", "bob", 3, true, 1), &call(ONE_NEAR, 1));
    assert_eq!(refused, Err(ContractError::CounterOverflow));
    assert_eq!(contract.total_games(), 1);
    assert_eq!(contract.get_player_stats("bob").unwrap().total_games, 1);
}

#[test]
fn validation_errors_come_in_order() {
    let mut contract = GuessNumberContract::new("alice".to_string());
    let pay = call(ONE_NEAR, 1);
    let good = || record("g1", "bob", 3, true, 1);

    let mut r = good();
    r.game_id = String::new();
    r.attempts = 0;
    assert_eq!(contract.store_game_record(r, &pay), Err(ContractError::EmptyGameId));

    let mut r = good();
    r.attempts = 0;
    r.guesses.clear();
    assert_eq!(contract.store_game_record(r, &pay), Err(ContractError::ZeroAttempts));

    let mut r = good();
    r.attempts = 51;
    assert_eq!(contract.store_game_record(r, &pay), Err(ContractError::TooManyAttempts));

    let mut r = good();
    r.guesses.push(5);
    r.target_number = 0;
    assert_eq!(contract.store_game_record(r, &pay), Err(ContractError::GuessCountMismatch));

    let mut r = good();
    r.guesses = vec![1, 1001, 0];
    r.target_number = 0;
    assert_eq!(
        contract.store_game_record(r, &pay),
        Err(ContractError::GuessOutOfRange { guess: 1001 })
    );

    let mut r = good();
    r.guesses = vec![1, 1000, 0];
    assert_eq!(
        contract.store_game_record(r, &pay),
        Err(ContractError::GuessOutOfRange { guess: 0 })
    );

    let mut r = good();
    r.target_number = 0;
    r.difficulty = "EASY".to_string();
    assert_eq!(
        contract.store_game_record(r, &pay),
        Err(ContractError::TargetOutOfRange { target: 0 })
    );

    let mut r = good();
    r.target_number = 1001;
    assert_eq!(
        contract.store_game_record(r, &pay),
        Err(ContractError::TargetOutOfRange { target: 1001 })
    );

    for bad in ["", "EASY", "medium", "hard "] {
        let mut r = good();
        r.difficulty = bad.to_string();
        assert_eq!(contract.store_game_record(r, &pay), Err(ContractError::InvalidDifficulty));
    }

    // a duplicate is reported before any other defect but an empty identifier
    contract.store_game_record(good(), &pay).unwrap();
    let mut r = good();
    r.attempts = 0;
    assert_eq!(contract.store_game_record(r, &pay), Err(ContractError::DuplicateGameId));

    // validation comes before payment
    let mut r = record("g2", "bob", 3, true, 1);
    r.difficulty = "x".to_string();
    assert_eq!(contract.store_game_record(r, &call(0, 1)), Err(ContractError::InvalidDifficulty));
    assert_eq!(contract.total_games(), 1);
}

#[test]
fn boundary_records_are_accepted() {
    let mut contract = GuessNumberContract::new("alice".to_string());
    let pay = call(ONE_NEAR, 1);
    let mut r = record("low", "bob", 1, true, 1);
    r.guesses = vec![1];
    r.target_number = 1;
    r.difficulty = "easy".to_string();
    contract.store_game_record(r, &pay).unwrap();
    let mut r = record("high", "bob", 50, false, 1);
    r.guesses = vec![1000; 50];
    r.target_number = 1000;
    r.difficulty = "hard".to_string();
    contract.store_game_record(r, &pay).unwrap();
    assert_eq!(contract.total_games(), 2);
}

#[test]
fn roster_rules() {
    let mut contract = GuessNumberContract::new("alice".to_string());
    assert!(contract.is_admin("alice"));
    assert!(!contract.is_admin("bob"));
    assert_eq!(contract.assert_owner("alice"), Ok(()));
    assert_eq!(contract.assert_owner("bob"), Err(ContractError::NotOwner));
    assert_eq!(contract.assert_admin("bob"), Err(ContractError::NotAdmin));

    assert_eq!(contract.add_admin("bob", "bob".to_string()), Err(ContractError::NotOwner));
    assert!(!contract.is_admin("bob"));
    contract.add_admin("alice", "bob".to_string()).unwrap();
    contract.add_admin("alice", "carol".to_string()).unwrap();
    contract.add_admin("alice", "dave".to_string()).unwrap();
    assert_eq!(contract.add_admin("alice", "bob".to_string()), Err(ContractError::AlreadyAdmin));
    assert_eq!(contract.assert_admin("carol"), Ok(()));

    // an admin is not the owner
    assert_eq!(contract.add_admin("bob", "erin".to_string()), Err(ContractError::NotOwner));
    assert_eq!(contract.remove_admin("bob", "carol"), Err(ContractError::NotOwner));
    assert_eq!(contract.set_storage_cost("bob", 5), Err(ContractError::NotOwner));

    assert_eq!(contract.remove_admin("alice", "erin"), Err(ContractError::NotAnAdmin));
    contract.remove_admin("alice", "bob").unwrap();
    assert!(!contract.is_admin("bob"));
    assert!(contract.is_admin("carol"));
    assert!(contract.is_admin("dave"));
    assert_eq!(contract.remove_admin("alice", "bob"), Err(ContractError::NotAnAdmin));

    assert_eq!(contract.storage_cost_per_record(), 10_000_000_000_000_000_000_000);
    contract.set_storage_cost("alice", 5).unwrap();
    assert_eq!(contract.storage_cost_per_record(), 5);
}

#[test]
fn forced_rebuild_needs_admin_rights() {
    let mut contract = GuessNumberContract::new("alice".to_string());
    contract
        .store_game_record(record("g1", "bob", 3, true, 1), &call(ONE_NEAR, 1))
        .unwrap();
    assert_eq!(contract.rebuild_leaderboard_admin("bob", 77), Err(ContractError::NotAdmin));
    assert_eq!(contract.leaderboard_last_update(), 0);
    contract.rebuild_leaderboard_admin("alice", 77).unwrap();
    assert_eq!(contract.leaderboard_last_update(), 77);
    // the rebuilt board is served without another rebuild
    contract
        .store_game_record(record("g2", "carol", 1, true, 1), &call(ONE_NEAR, 78))
        .unwrap();
    assert_eq!(contract.get_leaderboard(None, 78).len(), 1);
}

#[test]
fn cleanup_removes_at_most_limit_old_records() {
    let mut contract = GuessNumberContract::new("alice".to_string());
    for (id, ts) in [("a", 10u64), ("b", 500), ("c", 20), ("d", 30), ("e", 40)] {
        contract
            .store_game_record(record(id, "bob", 3, true, ts), &call(ONE_NEAR, 1))
            .unwrap();
    }
    assert_eq!(contract.cleanup_old_records("mallory", 100, 2), Err(ContractError::NotAdmin));
    assert_eq!(contract.get_recent_games(None).len(), 5);

    assert_eq!(contract.cleanup_old_records("alice", 100, 2), Ok(2));
    assert!(contract.get_game_record("a").is_none());
    assert!(contract.get_game_record("c").is_none());
    assert!(contract.get_game_record("b").is_some());
    assert!(contract.get_game_record("d").is_some());
    assert!(contract.get_game_record("e").is_some());

    // the players' histories and statistics are left as they were
    let stats = contract.get_player_stats("bob").unwrap();
    assert_eq!(stats.total_games, 5);
    assert_eq!(contract.total_games(), 5);
    let history = contract.get_player_games("bob", None, None);
    let ids: Vec<&str> = history.iter().map(|g| g.game_id.as_str()).collect();
    assert_eq!(ids, vec!["e", "d", "b"]);

    assert_eq!(contract.cleanup_old_records("alice", 100, 0), Ok(0));
    // the threshold itself is not old enough
    assert_eq!(contract.cleanup_old_records("alice", 30, 10), Ok(0));
    contract.add_admin("alice", "bob".to_string()).unwrap();
    assert_eq!(contract.cleanup_old_records("bob", 31, 10), Ok(1));
    assert_eq!(contract.cleanup_old_records("bob", u64::MAX, u32::MAX), Ok(2));
    assert!(contract.get_recent_games(None).is_empty());

    // an identifier that was cleaned up can be stored again
    contract
        .store_game_record(record("a", "bob", 3, true, 10), &call(ONE_NEAR, 1))
        .unwrap();
}

#[test]
fn error_messages_name_the_numbers() {
    assert_eq!(
        ContractError::InsufficientPayment { required: 4_000, provided: 39 }.message(),
        "Insufficient payment for storage. Required: 4000, Provided: 39"
    );
    assert_eq!(
        ContractError::InsufficientPayment { required: u128::MAX, provided: 0 }.message(),
        "Insufficient payment for storage. Required: 340282366920938463463374607431768211455, Provided: 0"
    );
    assert_eq!(ContractError::GuessOutOfRange { guess: 1001 }.message(), "Invalid guess value: 1001");
    assert_eq!(
        ContractError::TargetOutOfRange { target: 0 }.message(),
        "Target number must be at least 1"
    );
    assert_eq!(ContractError::TargetOutOfRange { target: 1001 }.message(), "Target number too large");
    assert_eq!(ContractError::EmptyGameId.message(), "Game ID cannot be empty");
    assert_eq!(ContractError::ZeroAttempts.message(), "Attempts must be greater than 0");
    assert_eq!(ContractError::TooManyAttempts.message(), "Too many attempts");
    assert_eq!(ContractError::GuessCountMismatch.message(), "Guesses length must match attempts");
    assert_eq!(
        ContractError::NotAdmin.message(),
        "Only contract owner or admin can call this method"
    );
    assert_eq!(ContractError::AlreadyAdmin.message(), "Account is already an admin");
    assert_eq!(ContractError::NotAnAdmin.message(), "Account is not an admin");
}

fn played_ledger() -> GuessNumberContract {
    let mut contract = GuessNumberContract::new("alice".to_string());
    contract.add_admin("alice", "bob".to_string()).unwrap();
    contract
        .store_game_record(record("g1", "bob", 3, true, 100), &call(ONE_NEAR, 100))
        .unwrap();
    contract
        .store_game_record(record("g2", "carol", 4, false, 200), &call(ONE_NEAR, 200))
        .unwrap();
    contract
        .store_game_record(record("g3", "bob", 2, true, 300), &call(ONE_NEAR, 300))
        .unwrap();
    contract.get_leaderboard(None, 400);
    contract.set_storage_cost("alice", 9).unwrap();
    contract
}

#[test]
fn snapshot_and_restore_round_trip() {
    let contract = played_ledger();
    let saved = contract.snapshot();
    assert_eq!(saved.owner_id, "alice");
    assert_eq!(saved.admins, vec!["bob"]);
    assert_eq!(saved.game_records.len(), 3);
    assert_eq!(saved.players.len(), 2);
    assert_eq!(saved.players[0].game_ids, vec!["g1", "g3"]);
    assert_eq!(saved.leaderboard_cache.len(), 2);
    assert_eq!(saved.leaderboard_last_update, 400);
    assert_eq!(saved.total_games, 3);
    assert_eq!(saved.storage_cost_per_record, 9);

    let mut restored = GuessNumberContract::restore(contract.snapshot()).unwrap();
    assert_eq!(restored.snapshot(), saved);
    assert_eq!(restored.get_player_stats("bob"), contract.get_player_stats("bob"));
    assert!(restored.is_admin("bob"));
    // the restored ledger goes on where the saved one stopped
    assert_eq!(
        restored.store_game_record(record("g1", "dave", 3, true, 1), &call(ONE_NEAR, 500)),
        Err(ContractError::DuplicateGameId)
    );
    restored
        .store_game_record(record("g4", "dave", 1, true, 1), &call(ONE_NEAR, 500))
        .unwrap();
    assert_eq!(restored.total_games(), 4);
    // the cached board is still served
    assert_eq!(restored.get_leaderboard(None, 500).len(), 2);
}

#[test]
fn restore_refuses_states_that_no_ledger_reaches() {
    let good = || played_ledger().snapshot();
    let refused = |snapshot: ContractSnapshot| {
        assert_eq!(
            GuessNumberContract::restore(snapshot).unwrap_err(),
            ContractError::CorruptState
        );
    };
    assert!(GuessNumberContract::restore(good()).is_ok());

    let mut s = good();
    s.admins.push("bob".to_string());
    refused(s);

    let mut s = good();
    let twin = s.game_records[0].clone();
    s.game_records.push(twin);
    refused(s);

    let mut s = good();
    s.game_records[1].difficulty = "medium".to_string();
    refused(s);

    let mut s = good();
    s.game_records[1].game_id = String::new();
    refused(s);

    let mut s = good();
    let twin = s.players[0].clone();
    s.players.push(twin);
    refused(s);

    let mut s = good();
    s.players[0].game_ids.pop();
    refused(s);

    let mut s = good();
    s.players[0].stats.total_wins = 3;
    refused(s);

    let mut s = good();
    s.players[0].stats.best_score = 51;
    refused(s);

    let mut s = good();
    s.players[1].stats.best_score = 4;
    refused(s);

    let mut s = good();
    s.players[0].stats.total_attempts = 101;
    refused(s);

    let mut s = good();
    s.players.push(PlayerEntry { stats: PlayerStats::new("erin".to_string()), game_ids: vec![] });
    refused(s);

    // what no rule speaks of is taken as it is
    let mut s = good();
    s.total_games = 77;
    s.leaderboard_cache.clear();
    s.version = "2.0.0".to_string();
    let restored = GuessNumberContract::restore(s).unwrap();
    assert_eq!(restored.total_games(), 77);
    assert_eq!(restored.version(), "2.0.0");
}
