//! One game from its first guess to its end.
//!
//! A game holds a hidden target, counts the guesses and ends with the right
//! guess or with the last attempt. The clock is the caller's: every
//! operation that asks for the time takes it as seconds since the Unix epoch.

use vstd::arithmetic::power2::{lemma2_to64, lemma2_to64_rest, lemma_pow2_unfold, pow2};
use vstd::prelude::*;
use vstd::string::StringExecFns;
use crate::game::{GameConfig, GuessPattern, GuessResult, StrategyAssessment};
use crate::game_error::GameError;
use crate::random::{new_game_id, random_in_range};
use crate::ratio::{Fraction, Ratio};
use crate::record::{GameRecord, GameRecordView};
use crate::text::{decimal, decimal_digits};
use crate::utils::{calculate_game_score, game_score};

verus! {

/// A game in progress or finished.
#[derive(Debug, PartialEq, Eq)]
pub struct Game {
    /// Identifier of the game.
    pub id: String,
    /// The rules of the game.
    pub config: GameConfig,
    /// The number to guess.
    pub target_number: u32,
    /// Guesses made so far.
    pub attempts: u32,
    /// The guesses, in the order they were made.
    pub guesses: Vec<u32>,
    /// When the game started, in seconds since the Unix epoch.
    pub started_at: u64,
    /// Identity of the player.
    pub player_id: String,
    /// The difficulty level the game is played at.
    pub difficulty: String,
    /// Whether guesses are still accepted.
    pub active: bool,
    /// Whether the player found the target.
    pub won: bool,
}

/// A [`Game`] as a mathematical value.
pub struct GameView {
    pub id: Seq<char>,
    pub config: GameConfig,
    pub target_number: u32,
    pub attempts: u32,
    pub guesses: Seq<u32>,
    pub started_at: u64,
    pub player_id: Seq<char>,
    pub difficulty: Seq<char>,
    pub active: bool,
    pub won: bool,
}

impl View for Game {
    type V = GameView;

    open spec fn view(&self) -> GameView {
        GameView {
            id: self.id@,
            config: self.config,
            target_number: self.target_number,
            attempts: self.attempts,
            guesses: self.guesses@,
            started_at: self.started_at,
            player_id: self.player_id@,
            difficulty: self.difficulty@,
            active: self.active,
            won: self.won,
        }
    }
}

/// Why a guess is not accepted.
#[derive(Clone, Copy, Debug, PartialEq, Eq)]
pub enum GuessRefusal {
    /// The game is over.
    GameFinished,
    /// The guess lies outside the range of the game.
    OutOfRange,
}

/// What a player sees of a game.
#[derive(Debug, PartialEq, Eq)]
pub struct GameStatus {
    pub game_id: String,
    pub player_id: String,
    pub attempts: u32,
    pub max_attempts: u32,
    pub difficulty: String,
    pub active: bool,
    pub won: bool,
    pub guesses: Vec<u32>,
    pub remaining_attempts: u32,
    pub duration_seconds: u64,
}

/// What a guess results in, once it is counted: the right number wins; a
/// wrong one ends the game if it was the last attempt, and else tells the
/// direction.
pub open spec fn judge(target: u32, guess: u32, attempts_made: u32, max_attempts: u32) -> GuessResult {
    if guess == target {
        GuessResult::Correct
    } else if attempts_made >= max_attempts {
        GuessResult::GameOver
    } else if guess < target {
        GuessResult::TooSmall
    } else {
        GuessResult::TooLarge
    }
}

/// Decides what a guess results in, `attempts_made` counting the guess
/// itself.
pub fn judge_guess(target: u32, guess: u32, attempts_made: u32, max_attempts: u32) -> (result:
    GuessResult)
    ensures
        result == judge(target, guess, attempts_made, max_attempts),
{
    if guess == target {
        GuessResult::Correct
    } else if attempts_made >= max_attempts {
        GuessResult::GameOver
    } else if guess < target {
        GuessResult::TooSmall
    } else {
        GuessResult::TooLarge
    }
}

/// The part of `range` in which the target can still lie after the guesses:
/// a guess below the target moves the lower end above it, a guess above the
/// target moves the upper end below it, and the right guess leaves only
/// itself, whatever is guessed afterwards.
pub open spec fn narrowed(range: (u32, u32), target: u32, guesses: Seq<u32>) -> (u32, u32)
    decreases guesses.len(),
{
    if guesses.len() == 0 {
        range
    } else {
        let guess = guesses[0];
        if guess == target {
            (guess, guess)
        } else if guess < target {
            let low = if guess >= range.0 {
                (guess + 1) as u32
            } else {
                range.0
            };
            narrowed((low, range.1), target, guesses.drop_first())
        } else {
            let high = if guess <= range.1 {
                (guess - 1) as u32
            } else {
                range.1
            };
            narrowed((range.0, high), target, guesses.drop_first())
        }
    }
}

/// How many guesses are larger than the guess before them.
pub open spec fn count_rising(guesses: Seq<u32>) -> nat
    decreases guesses.len(),
{
    if guesses.len() < 2 {
        0
    } else {
        count_rising(guesses.drop_last()) + if guesses[guesses.len() - 1] > guesses[guesses.len()
            - 2] {
            1nat
        } else {
            0nat
        }
    }
}

/// How many guesses are smaller than the guess before them.
pub open spec fn count_falling(guesses: Seq<u32>) -> nat
    decreases guesses.len(),
{
    if guesses.len() < 2 {
        0
    } else {
        count_falling(guesses.drop_last()) + if guesses[guesses.len() - 1] < guesses[guesses.len()
            - 2] {
            1nat
        } else {
            0nat
        }
    }
}

/// Whether two guesses lie more than a fifth of the range apart.
pub open spec fn is_jump(from: u32, to: u32, range_size: u32) -> bool {
    let distance = if from < to {
        to - from
    } else {
        from - to
    };
    distance > range_size / 5
}

/// How many guesses lie more than a fifth of the range away from the guess
/// before them.
pub open spec fn count_jumps(guesses: Seq<u32>, range_size: u32) -> nat
    decreases guesses.len(),
{
    if guesses.len() < 2 {
        0
    } else {
        count_jumps(guesses.drop_last(), range_size) + if is_jump(
            guesses[guesses.len() - 2],
            guesses[guesses.len() - 1],
            range_size,
        ) {
            1nat
        } else {
            0nat
        }
    }
}

/// How the guesses went: methodical where rising steps outnumber falling
/// steps and jumps together, random where jumps outnumber all steps, mixed
/// otherwise, and not to be told from fewer than two guesses.
pub open spec fn pattern_of(guesses: Seq<u32>, range_size: u32) -> GuessPattern {
    if guesses.len() < 2 {
        GuessPattern::Insufficient
    } else if count_rising(guesses) > count_falling(guesses) + count_jumps(guesses, range_size) {
        GuessPattern::Methodical
    } else if count_jumps(guesses, range_size) > count_rising(guesses) + count_falling(guesses) {
        GuessPattern::Random
    } else {
        GuessPattern::Mixed
    }
}

/// Whether `k` is the least number of halvings that singles out one of `n`
/// numbers: the least `k` with `2^k >= n`.
pub open spec fn is_ceil_log2(n: nat, k: nat) -> bool {
    pow2(k) >= n && (k > 0 ==> pow2((k - 1) as nat) < n)
}

/// The least `k` with `2^k >= n`, for `n` up to `2^32`.
pub fn ceil_log2(n: u64) -> (k: u32)
    requires
        1 <= n <= 0x1_0000_0000,
    ensures
        is_ceil_log2(n as nat, k as nat),
        k <= 32,
{
    let mut power: u64 = 1;
    let mut k: u32 = 0;
    proof {
        lemma2_to64();
    }
    while power < n
        invariant
            1 <= n <= 0x1_0000_0000,
            power == pow2(k as nat),
            k <= 32,
            power <= 0x1_0000_0000,
            k > 0 ==> pow2((k - 1) as nat) < n,
        decreases 0x2_0000_0000 - power,
    {
        proof {
            lemma_pow2_unfold((k + 1) as nat);
            lemma2_to64();
            lemma2_to64_rest();
            if k >= 32 {
                assert(pow2(32) == 0x1_0000_0000);
            }
            if k < 32 {
                vstd::arithmetic::power2::lemma_pow2_strictly_increases(k as nat, 32);
            }
        }
        power = power * 2;
        k = k + 1;
    }
    k
}

impl GameView {
    /// The game after one accepted guess.
    pub open spec fn after_guess(self, guess: u32) -> GameView {
        let made = (self.attempts + 1) as u32;
        let result = judge(self.target_number, guess, made, self.config.max_attempts);
        GameView {
            attempts: made,
            guesses: self.guesses.push(guess),
            active: result == GuessResult::TooSmall || result == GuessResult::TooLarge,
            won: self.won || result == GuessResult::Correct,
            ..self
        }
    }

    /// Why a guess is not accepted, if so: the game is over, or the guess is
    /// out of range.
    pub open spec fn guess_refusal(self, guess: u32) -> Option<GuessRefusal> {
        if !self.active {
            Some(GuessRefusal::GameFinished)
        } else if !(self.config.min_number <= guess <= self.config.max_number) {
            Some(GuessRefusal::OutOfRange)
        } else {
            None
        }
    }

    /// The attempts that are left.
    pub open spec fn remaining(self) -> nat {
        if self.attempts >= self.config.max_attempts {
            0
        } else {
            (self.config.max_attempts - self.attempts) as nat
        }
    }

    /// The seconds since the game started; 0 for a clock that reads a time
    /// before that.
    pub open spec fn duration(self, now: u64) -> nat {
        if now >= self.started_at {
            (now - self.started_at) as nat
        } else {
            0
        }
    }

    /// The range in which the target can still lie.
    pub open spec fn search_range(self) -> (u32, u32) {
        narrowed(
            (self.config.min_number, self.config.max_number),
            self.target_number,
            self.guesses,
        )
    }

    /// How many numbers the range of the game holds.
    pub open spec fn range_size(self) -> nat {
        (self.config.max_number - self.config.min_number + 1) as nat
    }

    /// The least number of attempts with which the target can always be
    /// found: the least `k` with `2^k` not below the size of the range.
    pub open spec fn optimal(self) -> nat {
        choose|k: nat| is_ceil_log2(self.range_size(), k)
    }

    /// How close the player came to the least number of attempts: that
    /// number over the attempts made, never more than one, and one before
    /// the first attempt.
    pub open spec fn efficiency(self) -> Fraction {
        if self.attempts == 0 {
            Fraction { num: 1, den: 1 }
        } else if self.optimal() < self.attempts {
            Fraction { num: self.optimal(), den: self.attempts as nat }
        } else {
            Fraction { num: self.attempts as nat, den: self.attempts as nat }
        }
    }

    /// How the guesses went.
    pub open spec fn pattern(self) -> GuessPattern {
        pattern_of(self.guesses, (self.config.max_number - self.config.min_number) as u32)
    }

    /// How good the strategy looks: too early to tell before the second
    /// attempt; with an efficiency above four fifths, excellent for a
    /// methodical player and good otherwise; below that, poor for a random
    /// player and fair otherwise.
    pub open spec fn assessment(self) -> StrategyAssessment {
        if self.attempts < 2 {
            StrategyAssessment::TooEarlyToTell
        } else if 5 * self.optimal() > 4 * self.attempts {
            if self.pattern() == GuessPattern::Methodical {
                StrategyAssessment::Excellent
            } else {
                StrategyAssessment::Good
            }
        } else {
            if self.pattern() == GuessPattern::Random {
                StrategyAssessment::Poor
            } else {
                StrategyAssessment::Fair
            }
        }
    }

    /// What is wrong with the state of the game, if anything: the attempts
    /// do not match the guesses, there are more attempts than allowed, the
    /// target is out of range, or a guess is.
    pub open spec fn state_defect(self) -> Option<Seq<char>> {
        if self.attempts != self.guesses.len() {
            Some("Attempts count doesn't match guesses length"@)
        } else if self.attempts > self.config.max_attempts {
            Some("Attempts exceed maximum allowed"@)
        } else if !(self.config.min_number <= self.target_number <= self.config.max_number) {
            Some("Target number is outside valid range"@)
        } else if exists|i: int| self.is_first_stray_guess(i) {
            let i = choose|i: int| self.is_first_stray_guess(i);
            Some("Invalid guess "@ + decimal_digits(self.guesses[i] as nat) + " found in history"@)
        } else {
            None
        }
    }

    /// Whether the guess at position `i` is the first that is out of range.
    pub open spec fn is_first_stray_guess(self, i: int) -> bool {
        &&& 0 <= i < self.guesses.len()
        &&& !(self.config.min_number <= self.guesses[i] <= self.config.max_number)
        &&& forall|j: int|
            0 <= j < i ==> self.config.min_number <= #[trigger] self.guesses[j]
                <= self.config.max_number
    }

    /// The record that the game leaves behind at time `now`.
    pub open spec fn as_record(self, now: u64) -> GameRecordView {
        let unscored = GameRecordView {
            game_id: self.id,
            player_id: self.player_id,
            target_number: self.target_number,
            attempts: self.attempts,
            guesses: self.guesses,
            duration_seconds: self.duration(now) as u64,
            timestamp: now,
            success: self.won,
            difficulty: self.difficulty,
            score: 0,
        };
        GameRecordView { score: game_score(unscored) as u32, ..unscored }
    }
}

impl Game {
    /// A fresh game with the given identifier and target.
    pub fn with_target(
        id: String,
        config: GameConfig,
        target_number: u32,
        player_id: String,
        difficulty: String,
        now: u64,
    ) -> (game: Game)
        ensures
            game@ == (GameView {
                id: id@,
                config,
                target_number,
                attempts: 0,
                guesses: Seq::empty(),
                started_at: now,
                player_id: player_id@,
                difficulty: difficulty@,
                active: true,
                won: false,
            }),
    {
        Game {
            id,
            config,
            target_number,
            attempts: 0,
            guesses: Vec::new(),
            started_at: now,
            player_id,
            difficulty,
            active: true,
            won: false,
        }
    }

    /// A fresh game with a new identifier and a target drawn at random from
    /// the range of `config`, started at time `now`.
    pub fn new(config: GameConfig, player_id: String, difficulty: String, now: u64) -> (game: Game)
        requires
            config.min_number <= config.max_number,
        ensures
            game@.config == config,
            config.min_number <= game@.target_number <= config.max_number,
            game@.attempts == 0,
            game@.guesses == Seq::<u32>::empty(),
            game@.started_at == now,
            game@.player_id == player_id@,
            game@.difficulty == difficulty@,
            game@.active,
            !game@.won,
            game@.id.len() == 36,
    {
        let target_number = random_in_range(config.min_number, config.max_number);
        Game::with_target(new_game_id(), config, target_number, player_id, difficulty, now)
    }

    /// Takes a guess.
    ///
    /// A guess is refused when the game is over or the guess is out of range;
    /// the game is then unchanged. Otherwise the guess is counted and judged:
    /// the right number wins the game, a wrong one ends it if it was the last
    /// attempt.
    pub fn make_guess(&mut self, guess: u32) -> (result: Result<GuessResult, GameError>)
        requires
            old(self).attempts < u32::MAX,
        ensures
            match result {
                Ok(outcome) => {
                    &&& old(self)@.guess_refusal(guess) is None
                    &&& final(self)@ == old(self)@.after_guess(guess)
                    &&& outcome == judge(
                        old(self).target_number,
                        guess,
                        (old(self).attempts + 1) as u32,
                        old(self).config.max_attempts,
                    )
                },
                Err(GameError::GameAlreadyFinished(id)) => {
                    &&& old(self)@.guess_refusal(guess) == Some(GuessRefusal::GameFinished)
                    &&& id@ == old(self)@.id
                    &&& final(self)@ == old(self)@
                },
                Err(GameError::InvalidGuess { guess: refused, min, max }) => {
                    &&& old(self)@.guess_refusal(guess) == Some(GuessRefusal::OutOfRange)
                    &&& refused == guess
                    &&& min == old(self).config.min_number
                    &&& max == old(self).config.max_number
                    &&& final(self)@ == old(self)@
                },
                Err(_) => false,
            },
    {
        if !self.active {
            return Err(GameError::GameAlreadyFinished(self.id.clone()));
        }
        if !self.config.is_valid_guess(guess) {
            return Err(
                GameError::InvalidGuess {
                    guess,
                    min: self.config.min_number,
                    max: self.config.max_number,
                },
            );
        }
        self.attempts = self.attempts + 1;
        self.guesses.push(guess);
        let outcome = judge_guess(
            self.target_number,
            guess,
            self.attempts,
            self.config.max_attempts,
        );
        match outcome {
            GuessResult::Correct => {
                self.active = false;
                self.won = true;
            },
            GuessResult::GameOver => {
                self.active = false;
            },
            _ => {},
        }
        Ok(outcome)
    }

    /// The attempts that are left.
    pub fn remaining_attempts(&self) -> (left: u32)
        ensures
            left == self@.remaining(),
    {
        if self.attempts >= self.config.max_attempts {
            0
        } else {
            self.config.max_attempts - self.attempts
        }
    }

    /// The seconds since the game started.
    pub fn duration_seconds(&self, now: u64) -> (seconds: u64)
        ensures
            seconds == self@.duration(now),
    {
        if now >= self.started_at {
            now - self.started_at
        } else {
            0
        }
    }

    /// Whether the game has been going on for longer than `timeout_seconds`.
    pub fn is_timed_out(&self, now: u64, timeout_seconds: u64) -> (timed_out: bool)
        ensures
            timed_out == (self@.duration(now) > timeout_seconds),
    {
        self.duration_seconds(now) > timeout_seconds
    }

    /// Ends the game without a result.
    pub fn force_finish(&mut self)
        ensures
            final(self)@ == (GameView { active: false, ..old(self)@ }),
    {
        self.active = false;
    }

    /// The target, once the game is over.
    pub fn reveal_target(&self) -> (target: Option<u32>)
        ensures
            target == if self.active {
                None
            } else {
                Some(self.target_number)
            },
    {
        if !self.active {
            Some(self.target_number)
        } else {
            None
        }
    }

    /// What a player sees of the game at time `now`.
    pub fn status(&self, now: u64) -> (status: GameStatus)
        ensures
            status.game_id@ == self@.id,
            status.player_id@ == self@.player_id,
            status.attempts == self.attempts,
            status.max_attempts == self.config.max_attempts,
            status.difficulty@ == self@.difficulty,
            status.active == self.active,
            status.won == self.won,
            status.guesses@ == self@.guesses,
            status.remaining_attempts == self@.remaining(),
            status.duration_seconds == self@.duration(now),
    {
        GameStatus {
            game_id: self.id.clone(),
            player_id: self.player_id.clone(),
            attempts: self.attempts,
            max_attempts: self.config.max_attempts,
            difficulty: self.difficulty.clone(),
            active: self.active,
            won: self.won,
            guesses: self.guesses.clone(),
            remaining_attempts: self.remaining_attempts(),
            duration_seconds: self.duration_seconds(now),
        }
    }

    /// The record that the game leaves behind at time `now`, with its score.
    pub fn to_record(&self, now: u64) -> (record: GameRecord)
        ensures
            record@ == self@.as_record(now),
    {
        let mut record = GameRecord {
            game_id: self.id.clone(),
            player_id: self.player_id.clone(),
            target_number: self.target_number,
            attempts: self.attempts,
            guesses: self.guesses.clone(),
            duration_seconds: self.duration_seconds(now),
            timestamp: now,
            success: self.won,
            difficulty: self.difficulty.clone(),
            score: 0,
        };
        let score = calculate_game_score(&record, &self.config);
        record.score = score;
        record
    }

    /// The least number of attempts with which the target can always be
    /// found: the least `k` with `2^k` not below the size of the range.
    pub fn optimal_attempts(&self) -> (attempts: u32)
        requires
            self.config.min_number <= self.config.max_number,
        ensures
            attempts == self@.optimal(),
            is_ceil_log2(self@.range_size(), attempts as nat),
            attempts <= 32,
    {
        let range_size: u64 = (self.config.max_number - self.config.min_number) as u64 + 1;
        let attempts = ceil_log2(range_size);
        proof {
            lemma_ceil_log2_unique(self@.range_size(), attempts as nat);
        }
        attempts
    }

    /// The range in which the target can still lie, judging by the guesses
    /// made so far.
    pub fn current_search_range(&self) -> (range: (u32, u32))
        ensures
            range == self@.search_range(),
    {
        let mut low: u32 = self.config.min_number;
        let mut high: u32 = self.config.max_number;
        let n: usize = self.guesses.len();
        let mut i: usize = 0;
        proof {
            assert(self.guesses@.skip(0) =~= self.guesses@);
        }
        while i < n
            invariant
                n == self.guesses@.len(),
                i <= n,
                narrowed((low, high), self.target_number, self.guesses@.skip(i as int))
                    == self@.search_range(),
            decreases n - i,
        {
            let guess: u32 = self.guesses[i];
            proof {
                let rest = self.guesses@.skip(i as int);
                assert(rest[0] == guess);
                assert(rest.drop_first() =~= self.guesses@.skip(i + 1));
            }
            if guess == self.target_number {
                return (guess, guess);
            } else if guess < self.target_number {
                if guess >= low {
                    low = guess + 1;
                }
            } else {
                if guess <= high {
                    high = guess - 1;
                }
            }
            i = i + 1;
        }
        (low, high)
    }

    /// The middle of the range in which the target can still lie; nothing
    /// once the game is over or where the guesses leave no range.
    pub fn suggest_next_guess(&self) -> (guess: Option<u32>)
        ensures
            guess == if !self.active || self@.search_range().0 > self@.search_range().1 {
                None
            } else {
                Some(((self@.search_range().0 + self@.search_range().1) / 2) as u32)
            },
    {
        if !self.active {
            return None;
        }
        let (low, high) = self.current_search_range();
        if low <= high {
            Some(((low as u64 + high as u64) / 2) as u32)
        } else {
            None
        }
    }

    /// How close the player came to the least number of attempts: that
    /// number over the attempts made, and never more than one.
    pub fn efficiency_rating(&self) -> (rating: Ratio)
        requires
            self.config.min_number <= self.config.max_number,
        ensures
            rating@ == self@.efficiency(),
            rating@.wf(),
            rating.num <= rating.den,
    {
        if self.attempts == 0 {
            return Ratio { num: 1, den: 1 };
        }
        let optimal: u32 = self.optimal_attempts();
        if optimal < self.attempts {
            Ratio { num: optimal as u64, den: self.attempts as u64 }
        } else {
            Ratio { num: self.attempts as u64, den: self.attempts as u64 }
        }
    }

    /// How the guesses went.
    pub fn analyze_guess_pattern(&self) -> (pattern: GuessPattern)
        requires
            self.config.min_number <= self.config.max_number,
        ensures
            pattern == self@.pattern(),
    {
        let n: usize = self.guesses.len();
        if n < 2 {
            return GuessPattern::Insufficient;
        }
        let range_size: u32 = self.config.max_number - self.config.min_number;
        let mut rising: usize = 0;
        let mut falling: usize = 0;
        let mut jumps: usize = 0;
        let mut i: usize = 1;
        proof {
            let first = self.guesses@.take(1);
            assert(first.len() == 1);
        }
        while i < n
            invariant
                n == self.guesses@.len(),
                1 <= i <= n,
                rising == count_rising(self.guesses@.take(i as int)),
                falling == count_falling(self.guesses@.take(i as int)),
                jumps == count_jumps(self.guesses@.take(i as int), range_size),
                rising < i,
                falling < i,
                jumps < i,
            decreases n - i,
        {
            proof {
                let next = self.guesses@.take(i + 1);
                assert(next.drop_last() =~= self.guesses@.take(i as int));
                assert(next[next.len() - 1] == self.guesses@[i as int]);
                assert(next[next.len() - 2] == self.guesses@[i - 1]);
            }
            let before: u32 = self.guesses[i - 1];
            let guess: u32 = self.guesses[i];
            if guess > before {
                rising = rising + 1;
            } else if guess < before {
                falling = falling + 1;
            }
            let distance: u32 = if before < guess {
                guess - before
            } else {
                before - guess
            };
            if distance > range_size / 5 {
                jumps = jumps + 1;
            }
            i = i + 1;
        }
        proof {
            assert(self.guesses@.take(n as int) =~= self.guesses@);
        }
        if rising as u128 > falling as u128 + jumps as u128 {
            GuessPattern::Methodical
        } else if jumps as u128 > rising as u128 + falling as u128 {
            GuessPattern::Random
        } else {
            GuessPattern::Mixed
        }
    }

    /// How good the player's strategy looks: too early to tell before the
    /// second attempt; with an efficiency above four fifths, excellent for
    /// a methodical player and good otherwise; below that, poor for a random
    /// player and fair otherwise.
    pub fn strategy_assessment(&self) -> (assessment: StrategyAssessment)
        requires
            self.config.min_number <= self.config.max_number,
        ensures
            assessment == self@.assessment(),
    {
        if self.attempts < 2 {
            return StrategyAssessment::TooEarlyToTell;
        }
        let optimal: u32 = self.optimal_attempts();
        let efficient: bool = 5 * (optimal as u64) > 4 * (self.attempts as u64);
        let pattern = self.analyze_guess_pattern();
        if efficient {
            match pattern {
                GuessPattern::Methodical => StrategyAssessment::Excellent,
                _ => StrategyAssessment::Good,
            }
        } else {
            match pattern {
                GuessPattern::Random => StrategyAssessment::Poor,
                _ => StrategyAssessment::Fair,
            }
        }
    }

    /// Checks that the state of the game is consistent.
    pub fn validate_state(&self) -> (result: Result<(), GameError>)
        ensures
            result is Ok <==> self@.state_defect() is None,
            result matches Err(e) ==> {
                &&& e matches GameError::UnexpectedError(why)
                &&& Some(why@) == self@.state_defect()
            },
    {
        if self.attempts as usize != self.guesses.len() {
            return Err(
                GameError::UnexpectedError(
                    String::from_str("Attempts count doesn't match guesses length"),
                ),
            );
        }
        if self.attempts > self.config.max_attempts {
            return Err(
                GameError::UnexpectedError(String::from_str("Attempts exceed maximum allowed")),
            );
        }
        if !self.config.is_valid_guess(self.target_number) {
            return Err(
                GameError::UnexpectedError(
                    String::from_str("Target number is outside valid range"),
                ),
            );
        }
        let n: usize = self.guesses.len();
        let mut i: usize = 0;
        while i < n
            invariant
                n == self.guesses@.len(),
                i <= n,
                self.attempts == self.guesses@.len(),
                self.attempts <= self.config.max_attempts,
                self.config.min_number <= self.target_number <= self.config.max_number,
                forall|j: int|
                    0 <= j < i ==> self.config.min_number <= #[trigger] self.guesses@[j]
                        <= self.config.max_number,
            decreases n - i,
        {
            let guess: u32 = self.guesses[i];
            if !self.config.is_valid_guess(guess) {
                proof {
                    assert(self@.is_first_stray_guess(i as int));
                    let k = choose|k: int| self@.is_first_stray_guess(k);
                    if k < i {
                        assert(self.config.min_number <= self.guesses@[k]
                            <= self.config.max_number);
                    }
                    if i < k {
                        assert(self.config.min_number <= self.guesses@[i as int]
                            <= self.config.max_number);
                    }
                }
                return Err(
                    GameError::UnexpectedError(
                        String::from_str("Invalid guess ").concat(
                            decimal(guess as u128).as_str(),
                        ).concat(" found in history"),
                    ),
                );
            }
            i = i + 1;
        }
        proof {
            if exists|k: int| self@.is_first_stray_guess(k) {
                let k = choose|k: int| self@.is_first_stray_guess(k);
                assert(self.config.min_number <= self.guesses@[k] <= self.config.max_number);
            }
        }
        Ok(())
    }
}

/// There is only one least `k` with `2^k >= n`.
pub proof fn lemma_ceil_log2_unique(n: nat, k: nat)
    requires
        is_ceil_log2(n, k),
    ensures
        (choose|j: nat| is_ceil_log2(n, j)) == k,
{
    let j = choose|j: nat| is_ceil_log2(n, j);
    if j < k {
        if j < k - 1 {
            vstd::arithmetic::power2::lemma_pow2_strictly_increases(j, (k - 1) as nat);
        }
    }
    if k < j {
        if k < j - 1 {
            vstd::arithmetic::power2::lemma_pow2_strictly_increases(k, (j - 1) as nat);
        }
    }
}

} // verus!
