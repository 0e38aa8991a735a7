//! The rules of one game of number guessing: the range of numbers, the
//! number of attempts, the difficulty levels and what a guess can result in.

use vstd::prelude::*;
use crate::game_error::GameError;
use crate::text::{lowercase, same_text, to_lowercase};

verus! {

/// The range of numbers and the number of attempts of a game.
#[derive(Clone, Copy, Debug, PartialEq, Eq)]
pub struct GameConfig {
    /// The smallest number that can be the target.
    pub min_number: u32,
    /// The largest number that can be the target.
    pub max_number: u32,
    /// How many guesses the player has.
    pub max_attempts: u32,
}

impl Default for GameConfig {
    /// The rules of a normal game: 1 to 100, ten attempts.
    fn default() -> (config: GameConfig)
        ensures
            config == (GameConfig { min_number: 1, max_number: 100, max_attempts: 10 }),
    {
        GameConfig { min_number: 1, max_number: 100, max_attempts: 10 }
    }
}

impl GameConfig {
    /// The rules that [`GameConfig::for_difficulty`] gives.
    pub open spec fn of_difficulty(difficulty: Seq<char>, max_attempts: Option<u32>) -> GameConfig {
        if difficulty == "easy"@ {
            GameConfig {
                min_number: 1,
                max_number: 50,
                max_attempts: match max_attempts {
                    Some(n) => n,
                    None => 8,
                },
            }
        } else if difficulty == "hard"@ {
            GameConfig {
                min_number: 1,
                max_number: 200,
                max_attempts: match max_attempts {
                    Some(n) => n,
                    None => 12,
                },
            }
        } else {
            GameConfig {
                min_number: 1,
                max_number: 100,
                max_attempts: match max_attempts {
                    Some(n) => n,
                    None => 10,
                },
            }
        }
    }

    /// The rules of a difficulty level: `easy` is 1 to 50 with 8 attempts,
    /// `hard` is 1 to 200 with 12 attempts, and anything else is 1 to 100
    /// with 10 attempts. A given number of attempts replaces the level's own.
    pub fn for_difficulty(difficulty: &str, max_attempts: Option<u32>) -> (config: GameConfig)
        ensures
            config == GameConfig::of_difficulty(difficulty@, max_attempts),
    {
        if same_text(difficulty, "easy") {
            GameConfig {
                min_number: 1,
                max_number: 50,
                max_attempts: match max_attempts {
                    Some(n) => n,
                    None => 8,
                },
            }
        } else if same_text(difficulty, "hard") {
            GameConfig {
                min_number: 1,
                max_number: 200,
                max_attempts: match max_attempts {
                    Some(n) => n,
                    None => 12,
                },
            }
        } else {
            GameConfig {
                min_number: 1,
                max_number: 100,
                max_attempts: match max_attempts {
                    Some(n) => n,
                    None => 10,
                },
            }
        }
    }

    /// Whether `guess` lies in the range of the game.
    pub fn is_valid_guess(&self, guess: u32) -> (valid: bool)
        ensures
            valid == (self.min_number <= guess <= self.max_number),
    {
        guess >= self.min_number && guess <= self.max_number
    }

    /// Why the rules cannot be played by, if so: the range must hold at least
    /// two numbers, and the attempts must be between 1 and 50.
    pub open spec fn defect(self) -> Option<Seq<char>> {
        if self.min_number >= self.max_number {
            Some("Minimum number must be less than maximum number"@)
        } else if self.max_attempts == 0 {
            Some("Maximum attempts must be greater than 0"@)
        } else if self.max_attempts > 50 {
            Some("Maximum attempts cannot exceed 50"@)
        } else {
            None
        }
    }
}

/// What a guess results in.
#[derive(Clone, Copy, Debug, PartialEq, Eq)]
pub enum GuessResult {
    /// The guess is below the target and attempts are left.
    TooSmall,
    /// The guess is above the target and attempts are left.
    TooLarge,
    /// The guess is the target.
    Correct,
    /// The guess is wrong and it was the last attempt.
    GameOver,
}

impl GuessResult {
    /// The name of the result.
    pub open spec fn name(self) -> Seq<char> {
        match self {
            GuessResult::TooSmall => "too_small"@,
            GuessResult::TooLarge => "too_large"@,
            GuessResult::Correct => "correct"@,
            GuessResult::GameOver => "game_over"@,
        }
    }

    /// The name of the result, as it is sent to clients.
    pub fn to_string(&self) -> (name: &'static str)
        ensures
            name@ == self.name(),
    {
        match self {
            GuessResult::TooSmall => "too_small",
            GuessResult::TooLarge => "too_large",
            GuessResult::Correct => "correct",
            GuessResult::GameOver => "game_over",
        }
    }

    /// Whether the game is over after this result.
    pub fn is_game_ending(&self) -> (ending: bool)
        ensures
            ending == (*self == GuessResult::Correct || *self == GuessResult::GameOver),
    {
        match self {
            GuessResult::Correct => true,
            GuessResult::GameOver => true,
            _ => false,
        }
    }
}

/// The difficulty levels.
#[derive(Clone, Copy, Debug, PartialEq, Eq)]
pub enum Difficulty {
    Easy,
    Normal,
    Hard,
}

impl Difficulty {
    /// The level that a lowercase name stands for, if it stands for one.
    pub open spec fn named(lower: Seq<char>) -> Option<Difficulty> {
        if lower == "easy"@ {
            Some(Difficulty::Easy)
        } else if lower == "normal"@ {
            Some(Difficulty::Normal)
        } else if lower == "hard"@ {
            Some(Difficulty::Hard)
        } else {
            None
        }
    }

    /// The level that a lowercase name stands for, if it stands for one.
    pub fn from_lowercase(lower: &str) -> (level: Option<Difficulty>)
        ensures
            level == Difficulty::named(lower@),
    {
        if same_text(lower, "easy") {
            Some(Difficulty::Easy)
        } else if same_text(lower, "normal") {
            Some(Difficulty::Normal)
        } else if same_text(lower, "hard") {
            Some(Difficulty::Hard)
        } else {
            None
        }
    }

    /// Reads a level from its name, whatever the case of its letters.
    pub fn parse(name: &str) -> (result: Result<Difficulty, GameError>)
        ensures
            match result {
                Ok(level) => Difficulty::named(lowercase(name@)) == Some(level),
                Err(e) => {
                    &&& Difficulty::named(lowercase(name@)) is None
                    &&& e matches GameError::InvalidDifficulty(text)
                    &&& text@ == name@
                },
            },
    {
        let lower = to_lowercase(name);
        match Difficulty::from_lowercase(lower.as_str()) {
            Some(level) => Ok(level),
            None => Err(GameError::InvalidDifficulty(name.to_owned())),
        }
    }

    /// The lowercase name of the level.
    pub fn as_str(&self) -> (name: &'static str)
        ensures
            Difficulty::named(name@) == Some(*self),
    {
        proof {
            reveal_strlit("easy");
            reveal_strlit("normal");
            reveal_strlit("hard");
        }
        match self {
            Difficulty::Easy => "easy",
            Difficulty::Normal => {
                assert("normal"@ != "easy"@) by {
                    assert("normal"@.len() != "easy"@.len());
                }
                "normal"
            },
            Difficulty::Hard => {
                assert("hard"@ != "easy"@) by {
                    assert("hard"@[0] != "easy"@[0]);
                }
                assert("hard"@ != "normal"@) by {
                    assert("hard"@.len() != "normal"@.len());
                }
                "hard"
            },
        }
    }
}

impl core::str::FromStr for Difficulty {
    type Err = GameError;

    /// Reads a level from its name, whatever the case of its letters: the
    /// same as [`Difficulty::parse`].
    fn from_str(name: &str) -> (result: Result<Difficulty, GameError>)
        ensures
            match result {
                Ok(level) => Difficulty::named(lowercase(name@)) == Some(level),
                Err(e) => {
                    &&& Difficulty::named(lowercase(name@)) is None
                    &&& e matches GameError::InvalidDifficulty(text)
                    &&& text@ == name@
                },
            },
    {
        Difficulty::parse(name)
    }
}

/// How a player went about guessing.
#[derive(Clone, Copy, Debug, PartialEq, Eq)]
pub enum GuessPattern {
    /// Mostly moving in one direction.
    Methodical,
    /// Mostly large jumps.
    Random,
    /// Neither of the two.
    Mixed,
    /// Fewer than two guesses.
    Insufficient,
}

/// How good a player's strategy looks.
#[derive(Clone, Copy, Debug, PartialEq, Eq)]
pub enum StrategyAssessment {
    Excellent,
    Good,
    Fair,
    Poor,
    TooEarlyToTell,
}

impl StrategyAssessment {
    /// The word for the assessment.
    pub open spec fn label_text(self) -> Seq<char> {
        match self {
            StrategyAssessment::Excellent => "优秀"@,
            StrategyAssessment::Good => "良好"@,
            StrategyAssessment::Fair => "一般"@,
            StrategyAssessment::Poor => "需要改进"@,
            StrategyAssessment::TooEarlyToTell => "数据不足"@,
        }
    }

    /// The word for the assessment, as it is shown to the player.
    pub fn label(&self) -> (word: &'static str)
        ensures
            word@ == self.label_text(),
    {
        match self {
            StrategyAssessment::Excellent => "优秀",
            StrategyAssessment::Good => "良好",
            StrategyAssessment::Fair => "一般",
            StrategyAssessment::Poor => "需要改进",
            StrategyAssessment::TooEarlyToTell => "数据不足",
        }
    }
}

/// What can happen in the course of a game.
#[derive(Clone, Copy, Debug, PartialEq, Eq)]
pub enum GameEventType {
    GameStarted,
    GuessMade,
    GameWon,
    GameLost,
    GameAbandoned,
    GameTimeout,
}

/// An entry of the game's own log.
#[derive(Debug, PartialEq, Eq)]
pub struct GameEvent {
    /// The game the entry is about.
    pub game_id: String,
    /// The player of that game.
    pub player_id: String,
    /// What happened.
    pub event_type: GameEventType,
    /// When it happened, in seconds since the Unix epoch.
    pub timestamp: u64,
    /// Further details, as JSON text.
    pub data: String,
}

impl GameEvent {
    /// An entry without details: its data is the empty JSON object.
    pub fn new(game_id: String, player_id: String, event_type: GameEventType, timestamp: u64) -> (event:
        GameEvent)
        ensures
            event.game_id@ == game_id@,
            event.player_id@ == player_id@,
            event.event_type == event_type,
            event.timestamp == timestamp,
            event.data@ == "{}"@,
    {
        GameEvent { game_id, player_id, event_type, timestamp, data: "{}".to_owned() }
    }

    /// The entry with other details.
    pub fn with_data(self, data: String) -> (event: GameEvent)
        ensures
            event.game_id@ == self.game_id@,
            event.player_id@ == self.player_id@,
            event.event_type == self.event_type,
            event.timestamp == self.timestamp,
            event.data@ == data@,
    {
        GameEvent {
            game_id: self.game_id,
            player_id: self.player_id,
            event_type: self.event_type,
            timestamp: self.timestamp,
            data,
        }
    }
}

} // verus!
