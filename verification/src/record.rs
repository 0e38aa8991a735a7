//! The record of one finished game, and the structural rules it must meet
//! before the ledger accepts it.

use vstd::prelude::*;
use crate::error::ContractError;
use crate::text::same_text;

verus! {

/// The most attempts a recorded game may have.
pub const MAX_ATTEMPTS: u32 = 50;

/// The smallest number that can be a target or a guess.
pub const MIN_NUMBER: u32 = 1;

/// The largest number that can be a target or a guess.
pub const MAX_NUMBER: u32 = 1000;

/// One finished game, as submitted by the game client.
#[derive(Debug, PartialEq, Eq)]
pub struct GameRecord {
    /// Unique identifier of the game.
    pub game_id: String,
    /// Identity of the player.
    pub player_id: String,
    /// The number that had to be guessed.
    pub target_number: u32,
    /// How many guesses the player made.
    pub attempts: u32,
    /// The guesses, in the order they were made.
    pub guesses: Vec<u32>,
    /// How long the game took, in seconds.
    pub duration_seconds: u64,
    /// When the game ended, in seconds since the Unix epoch.
    pub timestamp: u64,
    /// Whether the player found the target.
    pub success: bool,
    /// The level the game was played at: `easy`, `normal` or `hard`.
    pub difficulty: String,
    /// The score the client computed for the game.
    pub score: u32,
}

/// A [`GameRecord`] as a mathematical value.
pub struct GameRecordView {
    pub game_id: Seq<char>,
    pub player_id: Seq<char>,
    pub target_number: u32,
    pub attempts: u32,
    pub guesses: Seq<u32>,
    pub duration_seconds: u64,
    pub timestamp: u64,
    pub success: bool,
    pub difficulty: Seq<char>,
    pub score: u32,
}

impl View for GameRecord {
    type V = GameRecordView;

    open spec fn view(&self) -> GameRecordView {
        GameRecordView {
            game_id: self.game_id@,
            player_id: self.player_id@,
            target_number: self.target_number,
            attempts: self.attempts,
            guesses: self.guesses@,
            duration_seconds: self.duration_seconds,
            timestamp: self.timestamp,
            success: self.success,
            difficulty: self.difficulty@,
            score: self.score,
        }
    }
}

impl Clone for GameRecord {
    fn clone(&self) -> (copy: Self)
        ensures
            copy@ == self@,
    {
        GameRecord {
            game_id: self.game_id.clone(),
            player_id: self.player_id.clone(),
            target_number: self.target_number,
            attempts: self.attempts,
            guesses: self.guesses.clone(),
            duration_seconds: self.duration_seconds,
            timestamp: self.timestamp,
            success: self.success,
            difficulty: self.difficulty.clone(),
            score: self.score,
        }
    }
}

/// Whether `n` can be a target or a guess.
pub open spec fn number_in_range(n: u32) -> bool {
    MIN_NUMBER <= n <= MAX_NUMBER
}

/// Whether `name` is one of the three difficulty levels.
pub open spec fn is_known_difficulty(name: Seq<char>) -> bool {
    name == "easy"@ || name == "normal"@ || name == "hard"@
}

/// Whether `i` is the position of the first guess that is out of range.
pub open spec fn is_first_bad_guess(guesses: Seq<u32>, i: int) -> bool {
    &&& 0 <= i < guesses.len()
    &&& !number_in_range(guesses[i])
    &&& forall|j: int| 0 <= j < i ==> number_in_range(#[trigger] guesses[j])
}

/// Whether every guess is in range.
pub open spec fn all_guesses_in_range(guesses: Seq<u32>) -> bool {
    forall|i: int| 0 <= i < guesses.len() ==> number_in_range(#[trigger] guesses[i])
}

impl GameRecordView {
    /// The first structural rule that the record breaks, if it breaks any.
    ///
    /// The rules are tried in a fixed order: the identifier, the number of
    /// attempts, the length of the list of guesses, the guesses themselves,
    /// the target, the difficulty.
    pub open spec fn defect(self) -> Option<ContractError> {
        if self.game_id.len() == 0 {
            Some(ContractError::EmptyGameId)
        } else if self.attempts == 0 {
            Some(ContractError::ZeroAttempts)
        } else if self.attempts > MAX_ATTEMPTS {
            Some(ContractError::TooManyAttempts)
        } else if self.guesses.len() != self.attempts {
            Some(ContractError::GuessCountMismatch)
        } else if !all_guesses_in_range(self.guesses) {
            Some(
                ContractError::GuessOutOfRange {
                    guess: self.guesses[choose|i: int| is_first_bad_guess(self.guesses, i)],
                },
            )
        } else if !number_in_range(self.target_number) {
            Some(ContractError::TargetOutOfRange { target: self.target_number })
        } else if !is_known_difficulty(self.difficulty) {
            Some(ContractError::InvalidDifficulty)
        } else {
            None
        }
    }

    /// Whether the record meets every structural rule.
    pub open spec fn is_valid(self) -> bool {
        &&& self.game_id.len() > 0
        &&& 1 <= self.attempts <= MAX_ATTEMPTS
        &&& self.guesses.len() == self.attempts
        &&& all_guesses_in_range(self.guesses)
        &&& number_in_range(self.target_number)
        &&& is_known_difficulty(self.difficulty)
    }
}

/// A record is valid exactly when no rule finds a defect in it.
pub proof fn lemma_valid_iff_no_defect(record: GameRecordView)
    ensures
        record.is_valid() <==> record.defect() is None,
{
}

/// Whether `name` is one of the three difficulty levels.
pub fn known_difficulty(name: &str) -> (known: bool)
    ensures
        known == is_known_difficulty(name@),
{
    same_text(name, "easy") || same_text(name, "normal") || same_text(name, "hard")
}

impl GameRecord {
    /// The record of a game that ended at `timestamp`. The score is left at
    /// zero for whoever scores the game.
    pub fn new(
        game_id: String,
        player_id: String,
        target_number: u32,
        attempts: u32,
        guesses: Vec<u32>,
        duration_seconds: u64,
        success: bool,
        difficulty: String,
        timestamp: u64,
    ) -> (record: GameRecord)
        ensures
            record@ == (GameRecordView {
                game_id: game_id@,
                player_id: player_id@,
                target_number,
                attempts,
                guesses: guesses@,
                duration_seconds,
                timestamp,
                success,
                difficulty: difficulty@,
                score: 0,
            }),
    {
        GameRecord {
            game_id,
            player_id,
            target_number,
            attempts,
            guesses,
            duration_seconds,
            timestamp,
            success,
            difficulty,
            score: 0,
        }
    }

    /// The attempts that a won game took, and 0 for a lost game. This is
    /// what a player's best score is taken from; it is not the `score` field,
    /// which holds the points that the client gave the game.
    pub fn score(&self) -> (attempts: u32)
        ensures
            attempts == if self.success {
                self.attempts
            } else {
                0
            },
    {
        if self.success {
            self.attempts
        } else {
            0
        }
    }

    /// Checks the structural rules and reports the first one that is broken.
    pub fn validate(&self) -> (result: Result<(), ContractError>)
        ensures
            result is Ok <==> self@.is_valid(),
            result matches Err(e) ==> self@.defect() == Some(e),
    {
        if self.game_id.as_str().is_empty() {
            return Err(ContractError::EmptyGameId);
        }
        if self.attempts == 0 {
            return Err(ContractError::ZeroAttempts);
        }
        if self.attempts > MAX_ATTEMPTS {
            return Err(ContractError::TooManyAttempts);
        }
        if self.guesses.len() != self.attempts as usize {
            return Err(ContractError::GuessCountMismatch);
        }
        let n: usize = self.guesses.len();
        let mut i: usize = 0;
        while i < n
            invariant
                n == self.guesses@.len(),
                0 <= i <= n,
                self.game_id@.len() > 0,
                1 <= self.attempts <= MAX_ATTEMPTS,
                self.guesses@.len() == self.attempts,
                forall|j: int| 0 <= j < i ==> number_in_range(#[trigger] self.guesses@[j]),
            decreases n - i,
        {
            let guess: u32 = self.guesses[i];
            if guess < MIN_NUMBER || guess > MAX_NUMBER {
                proof {
                    let gs = self.guesses@;
                    assert(is_first_bad_guess(gs, i as int));
                    let k = choose|k: int| is_first_bad_guess(gs, k);
                    assert(k == i) by {
                        if k < i {
                            assert(number_in_range(gs[k]));
                        }
                        if i < k {
                            assert(number_in_range(gs[i as int]));
                        }
                    }
                }
                return Err(ContractError::GuessOutOfRange { guess });
            }
            i = i + 1;
        }
        if self.target_number < MIN_NUMBER || self.target_number > MAX_NUMBER {
            return Err(ContractError::TargetOutOfRange { target: self.target_number });
        }
        if !known_difficulty(self.difficulty.as_str()) {
            return Err(ContractError::InvalidDifficulty);
        }
        Ok(())
    }
}

} // verus!
