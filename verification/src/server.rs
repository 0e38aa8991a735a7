//! What the game server exchanges with its clients, and the game as the
//! server plays it: every guess is answered with a sentence for the player.

use vstd::prelude::*;
use vstd::string::StringExecFns;
use crate::game::{GameConfig, GuessResult};
use crate::random::{new_game_id, random_in_range};
use crate::record::{GameRecord, GameRecordView};
use crate::session::{judge, judge_guess};
use crate::text::{decimal, decimal_digits};

verus! {

/// A request to start a game.
#[derive(Debug, PartialEq, Eq)]
pub struct CreateGameRequest {
    pub player_id: String,
    pub difficulty: Option<String>,
    pub max_attempts: Option<u32>,
}

/// A guess.
#[derive(Clone, Copy, Debug, PartialEq, Eq)]
pub struct GuessRequest {
    pub guess: u32,
}

/// The answer to a guess.
#[derive(Debug, PartialEq, Eq)]
pub struct GuessResponse {
    /// The name of the result: `too_small`, `too_large`, `correct` or
    /// `game_over`.
    pub result: String,
    /// A sentence for the player.
    pub message: String,
    /// Guesses made so far.
    pub attempts: u32,
    /// Guesses the game allows.
    pub max_attempts: u32,
    /// Whether the game is over.
    pub game_over: bool,
    /// Whether the player has won.
    pub success: bool,
    /// The target, once the game is over.
    pub target_number: Option<u32>,
}

/// A [`GuessResponse`] as a mathematical value.
pub struct GuessResponseView {
    pub result: Seq<char>,
    pub message: Seq<char>,
    pub attempts: u32,
    pub max_attempts: u32,
    pub game_over: bool,
    pub success: bool,
    pub target_number: Option<u32>,
}

impl View for GuessResponse {
    type V = GuessResponseView;

    open spec fn view(&self) -> GuessResponseView {
        GuessResponseView {
            result: self.result@,
            message: self.message@,
            attempts: self.attempts,
            max_attempts: self.max_attempts,
            game_over: self.game_over,
            success: self.success,
            target_number: self.target_number,
        }
    }
}

/// A game as the server keeps it.
#[derive(Debug, PartialEq, Eq)]
pub struct ActiveGame {
    pub id: String,
    pub player_id: String,
    pub target_number: u32,
    pub attempts: u32,
    pub guesses: Vec<u32>,
    pub config: GameConfig,
    pub started_at: u64,
    pub difficulty: String,
    pub active: bool,
}

/// An [`ActiveGame`] as a mathematical value.
pub struct ActiveGameView {
    pub id: Seq<char>,
    pub player_id: Seq<char>,
    pub target_number: u32,
    pub attempts: u32,
    pub guesses: Seq<u32>,
    pub config: GameConfig,
    pub started_at: u64,
    pub difficulty: Seq<char>,
    pub active: bool,
}

impl View for ActiveGame {
    type V = ActiveGameView;

    open spec fn view(&self) -> ActiveGameView {
        ActiveGameView {
            id: self.id@,
            player_id: self.player_id@,
            target_number: self.target_number,
            attempts: self.attempts,
            guesses: self.guesses@,
            config: self.config,
            started_at: self.started_at,
            difficulty: self.difficulty@,
            active: self.active,
        }
    }
}

/// The sentence that goes with the result of a guess, `attempts` counting
/// the guess.
pub open spec fn sentence(result: GuessResult, guess: u32, target: u32, attempts: u32, max: u32) -> Seq<
    char,
> {
    match result {
        GuessResult::Correct => "🎉 恭喜！你用 "@ + decimal_digits(attempts as nat)
            + " 次尝试猜对了数字 "@ + decimal_digits(target as nat) + "！"@,
        GuessResult::GameOver => if guess < target {
            "游戏结束！正确答案是 "@ + decimal_digits(target as nat)
                + "。太小了，但你已经用完了所有机会。"@
        } else {
            "游戏结束！正确答案是 "@ + decimal_digits(target as nat)
                + "。太大了，但你已经用完了所有机会。"@
        },
        GuessResult::TooSmall => "太小了！尝试一个更大的数字。剩余 "@ + decimal_digits(
            (max - attempts) as nat,
        ) + " 次机会。"@,
        GuessResult::TooLarge => "太大了！尝试一个更小的数字。剩余 "@ + decimal_digits(
            (max - attempts) as nat,
        ) + " 次机会。"@,
    }
}

impl ActiveGameView {
    /// The game after a guess: a finished game stays as it is; in a running
    /// game the guess is counted, and the game ends with the right guess and
    /// with the last attempt.
    pub open spec fn after_guess(self, guess: u32) -> ActiveGameView {
        if !self.active {
            self
        } else {
            let made = (self.attempts + 1) as u32;
            let result = judge(self.target_number, guess, made, self.config.max_attempts);
            ActiveGameView {
                attempts: made,
                guesses: self.guesses.push(guess),
                active: result == GuessResult::TooSmall || result == GuessResult::TooLarge,
                ..self
            }
        }
    }

    /// The answer to a guess.
    pub open spec fn answer(self, guess: u32) -> GuessResponseView {
        if !self.active {
            GuessResponseView {
                result: "game_over"@,
                message: "游戏已结束"@,
                attempts: self.attempts,
                max_attempts: self.config.max_attempts,
                game_over: true,
                success: false,
                target_number: Some(self.target_number),
            }
        } else {
            let made = (self.attempts + 1) as u32;
            let result = judge(self.target_number, guess, made, self.config.max_attempts);
            let over = result == GuessResult::Correct || result == GuessResult::GameOver;
            GuessResponseView {
                result: result.name(),
                message: sentence(
                    result,
                    guess,
                    self.target_number,
                    made,
                    self.config.max_attempts,
                ),
                attempts: made,
                max_attempts: self.config.max_attempts,
                game_over: over,
                success: result == GuessResult::Correct,
                target_number: if over {
                    Some(self.target_number)
                } else {
                    None
                },
            }
        }
    }

    /// The record that the game leaves behind at time `now`.
    pub open spec fn as_record(self, success: bool, now: u64) -> GameRecordView {
        GameRecordView {
            game_id: self.id,
            player_id: self.player_id,
            target_number: self.target_number,
            attempts: self.attempts,
            guesses: self.guesses,
            duration_seconds: if now >= self.started_at {
                (now - self.started_at) as u64
            } else {
                0
            },
            timestamp: now,
            success,
            difficulty: self.difficulty,
            score: 0,
        }
    }
}

impl ActiveGame {
    /// A fresh game with the given identifier and target.
    pub fn with_target(
        id: String,
        player_id: String,
        config: GameConfig,
        target_number: u32,
        difficulty: String,
        now: u64,
    ) -> (game: ActiveGame)
        ensures
            game@ == (ActiveGameView {
                id: id@,
                player_id: player_id@,
                target_number,
                attempts: 0,
                guesses: Seq::empty(),
                config,
                started_at: now,
                difficulty: difficulty@,
                active: true,
            }),
    {
        ActiveGame {
            id,
            player_id,
            target_number,
            attempts: 0,
            guesses: Vec::new(),
            config,
            started_at: now,
            difficulty,
            active: true,
        }
    }

    /// A fresh game with a new identifier and a target drawn at random from
    /// the range of `config`.
    pub fn new(player_id: String, config: GameConfig, difficulty: String, now: u64) -> (game:
        ActiveGame)
        requires
            config.min_number <= config.max_number,
        ensures
            game@.config == config,
            config.min_number <= game@.target_number <= config.max_number,
            game@.attempts == 0,
            game@.guesses == Seq::<u32>::empty(),
            game@.started_at == now,
            game@.player_id == player_id@,
            game@.difficulty == difficulty@,
            game@.active,
            game@.id.len() == 36,
    {
        let target_number = random_in_range(config.min_number, config.max_number);
        ActiveGame::with_target(new_game_id(), player_id, config, target_number, difficulty, now)
    }

    /// Counts a guess and judges it, without regard to whether the game is
    /// still running.
    pub fn count_guess(&mut self, guess: u32) -> (result: GuessResult)
        requires
            old(self).attempts < u32::MAX,
        ensures
            result == judge(
                old(self).target_number,
                guess,
                (old(self).attempts + 1) as u32,
                old(self).config.max_attempts,
            ),
            final(self)@ == (ActiveGameView {
                attempts: (old(self).attempts + 1) as u32,
                guesses: old(self)@.guesses.push(guess),
                ..old(self)@
            }),
    {
        self.attempts = self.attempts + 1;
        self.guesses.push(guess);
        judge_guess(self.target_number, guess, self.attempts, self.config.max_attempts)
    }

    /// Takes a guess and answers it.
    ///
    /// A finished game answers that it is over and stays as it is. A running
    /// game counts the guess; the right guess and the last attempt end it,
    /// and the answer then reveals the target.
    pub fn make_guess(&mut self, guess: u32) -> (response: GuessResponse)
        requires
            old(self).attempts < u32::MAX,
        ensures
            response@ == old(self)@.answer(guess),
            final(self)@ == old(self)@.after_guess(guess),
    {
        if !self.active {
            return GuessResponse {
                result: String::from_str("game_over"),
                message: String::from_str("游戏已结束"),
                attempts: self.attempts,
                max_attempts: self.config.max_attempts,
                game_over: true,
                success: false,
                target_number: Some(self.target_number),
            };
        }
        let result = self.count_guess(guess);
        let target: u32 = self.target_number;
        let max: u32 = self.config.max_attempts;
        match result {
            GuessResult::Correct => {
                self.active = false;
                GuessResponse {
                    result: String::from_str(result.to_string()),
                    message: String::from_str("🎉 恭喜！你用 ").concat(
                        decimal(self.attempts as u128).as_str(),
                    ).concat(" 次尝试猜对了数字 ").concat(decimal(target as u128).as_str()).concat(
                        "！",
                    ),
                    attempts: self.attempts,
                    max_attempts: max,
                    game_over: true,
                    success: true,
                    target_number: Some(target),
                }
            },
            GuessResult::GameOver => {
                self.active = false;
                let ending = if guess < target {
                    "。太小了，但你已经用完了所有机会。"
                } else {
                    "。太大了，但你已经用完了所有机会。"
                };
                GuessResponse {
                    result: String::from_str(result.to_string()),
                    message: String::from_str("游戏结束！正确答案是 ").concat(
                        decimal(target as u128).as_str(),
                    ).concat(ending),
                    attempts: self.attempts,
                    max_attempts: max,
                    game_over: true,
                    success: false,
                    target_number: Some(target),
                }
            },
            GuessResult::TooSmall => GuessResponse {
                result: String::from_str(result.to_string()),
                message: String::from_str("太小了！尝试一个更大的数字。剩余 ").concat(
                    decimal((max - self.attempts) as u128).as_str(),
                ).concat(" 次机会。"),
                attempts: self.attempts,
                max_attempts: max,
                game_over: false,
                success: false,
                target_number: None,
            },
            GuessResult::TooLarge => GuessResponse {
                result: String::from_str(result.to_string()),
                message: String::from_str("太大了！尝试一个更小的数字。剩余 ").concat(
                    decimal((max - self.attempts) as u128).as_str(),
                ).concat(" 次机会。"),
                attempts: self.attempts,
                max_attempts: max,
                game_over: false,
                success: false,
                target_number: None,
            },
        }
    }

    /// The record that the game leaves behind at time `now`.
    pub fn to_record(&self, success: bool, now: u64) -> (record: GameRecord)
        ensures
            record@ == self@.as_record(success, now),
    {
        GameRecord {
            game_id: self.id.clone(),
            player_id: self.player_id.clone(),
            target_number: self.target_number,
            attempts: self.attempts,
            guesses: self.guesses.clone(),
            duration_seconds: if now >= self.started_at {
                now - self.started_at
            } else {
                0
            },
            timestamp: now,
            success,
            difficulty: self.difficulty.clone(),
            score: 0,
        }
    }
}

} // verus!
