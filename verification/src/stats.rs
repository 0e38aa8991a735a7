//! Per-player running statistics.
//!
//! The statistics keep exact sums; the win rate and the mean number of
//! attempts are fractions of those sums, so nothing drifts however many
//! records are folded in.

use vstd::prelude::*;
use crate::error::ContractError;
use crate::event::{GameEvent, GameEventView};
use crate::ratio::{Fraction, Ratio};
use crate::record::{GameRecord, GameRecordView, MAX_ATTEMPTS};

verus! {

/// The value of `best_score` while the player has not won a game.
pub const BEST_SCORE_UNSET: u32 = 0xffff_ffff;

/// What the ledger knows of one player.
#[derive(Debug, PartialEq, Eq)]
pub struct PlayerStats {
    /// Identity of the player.
    pub player_id: String,
    /// How many games of the player were recorded.
    pub total_games: u32,
    /// How many of them the player won.
    pub total_wins: u32,
    /// The attempts of all those games together.
    pub total_attempts: u64,
    /// The fewest attempts of a won game, or [`BEST_SCORE_UNSET`].
    pub best_score: u32,
    /// The seconds of all those games together.
    pub total_time: u64,
    /// The timestamp of the record that was folded in last.
    pub last_played: u64,
    /// The scores of all those games together.
    pub total_score: u64,
}

/// A [`PlayerStats`] as a mathematical value.
pub struct PlayerStatsView {
    pub player_id: Seq<char>,
    pub total_games: nat,
    pub total_wins: nat,
    pub total_attempts: nat,
    pub best_score: u32,
    pub total_time: nat,
    pub last_played: u64,
    pub total_score: nat,
}

impl View for PlayerStats {
    type V = PlayerStatsView;

    open spec fn view(&self) -> PlayerStatsView {
        PlayerStatsView {
            player_id: self.player_id@,
            total_games: self.total_games as nat,
            total_wins: self.total_wins as nat,
            total_attempts: self.total_attempts as nat,
            best_score: self.best_score,
            total_time: self.total_time as nat,
            last_played: self.last_played,
            total_score: self.total_score as nat,
        }
    }
}

impl Clone for PlayerStats {
    fn clone(&self) -> (copy: Self)
        ensures
            copy@ == self@,
    {
        PlayerStats {
            player_id: self.player_id.clone(),
            total_games: self.total_games,
            total_wins: self.total_wins,
            total_attempts: self.total_attempts,
            best_score: self.best_score,
            total_time: self.total_time,
            last_played: self.last_played,
            total_score: self.total_score,
        }
    }
}

impl PlayerStatsView {
    /// The statistics of a player of whom no game is recorded yet.
    pub open spec fn fresh(player_id: Seq<char>) -> PlayerStatsView {
        PlayerStatsView {
            player_id,
            total_games: 0,
            total_wins: 0,
            total_attempts: 0,
            best_score: BEST_SCORE_UNSET,
            total_time: 0,
            last_played: 0,
            total_score: 0,
        }
    }

    /// What holds of statistics that were built from valid records only.
    pub open spec fn wf(self) -> bool {
        &&& self.total_wins <= self.total_games
        &&& self.total_attempts <= MAX_ATTEMPTS * self.total_games
        &&& self.total_games <= self.total_attempts
        &&& (self.best_score == BEST_SCORE_UNSET <==> self.total_wins == 0)
        &&& (self.best_score != BEST_SCORE_UNSET ==> 1 <= self.best_score <= MAX_ATTEMPTS)
    }

    /// Whether the record is the player's best win so far.
    pub open spec fn improves_best(self, record: GameRecordView) -> bool {
        record.success && (self.best_score == BEST_SCORE_UNSET || record.attempts
            < self.best_score)
    }

    /// Whether the record beats a best score that was there before. The very
    /// first win sets the best score without beating anything.
    pub open spec fn beats_previous_best(self, record: GameRecordView) -> bool {
        record.success && self.best_score != BEST_SCORE_UNSET && record.attempts < self.best_score
    }

    /// Whether every sum still fits its counter once the record is folded in.
    pub open spec fn has_room_for(self, record: GameRecordView) -> bool {
        &&& self.total_games + 1 <= u32::MAX
        &&& self.total_wins + 1 <= u32::MAX
        &&& self.total_attempts + record.attempts <= u64::MAX
        &&& self.total_time + record.duration_seconds <= u64::MAX
        &&& self.total_score + record.score <= u64::MAX
    }

    /// The statistics after the record is folded in.
    pub open spec fn absorb(self, record: GameRecordView) -> PlayerStatsView {
        PlayerStatsView {
            player_id: self.player_id,
            total_games: self.total_games + 1,
            total_wins: if record.success {
                self.total_wins + 1
            } else {
                self.total_wins
            },
            total_attempts: self.total_attempts + record.attempts as nat,
            best_score: if self.improves_best(record) {
                record.attempts
            } else {
                self.best_score
            },
            total_time: self.total_time + record.duration_seconds as nat,
            last_played: record.timestamp,
            total_score: self.total_score + record.score as nat,
        }
    }

    /// Won games per hundred games played: `total_wins / total_games * 100`,
    /// and zero before the first game.
    pub open spec fn win_rate(self) -> Fraction {
        if self.total_games == 0 {
            Fraction { num: 0, den: 1 }
        } else {
            Fraction { num: self.total_wins * 100, den: self.total_games }
        }
    }

    /// The mean number of attempts per game, and zero before the first game.
    pub open spec fn average_attempts(self) -> Fraction {
        if self.total_games == 0 {
            Fraction { num: 0, den: 1 }
        } else {
            Fraction { num: self.total_attempts, den: self.total_games }
        }
    }

    /// The events that folding the record in gives rise to, in the order in
    /// which they are emitted: the new personal best, if an earlier best was
    /// beaten, then the update of the statistics.
    pub open spec fn update_events(self, record: GameRecordView) -> Seq<GameEventView> {
        let after = self.absorb(record);
        let updated = GameEventView::StatsUpdated {
            player_id: self.player_id,
            total_games: after.total_games as u32,
            win_rate: after.win_rate(),
        };
        if self.beats_previous_best(record) {
            seq![
                GameEventView::NewBestScore {
                    player_id: self.player_id,
                    new_best: record.attempts,
                    previous_best: self.best_score,
                },
                updated,
            ]
        } else {
            seq![updated]
        }
    }
}

impl PlayerStats {
    /// The statistics of a player of whom no game is recorded yet.
    pub fn new(player_id: String) -> (stats: PlayerStats)
        ensures
            stats@ == PlayerStatsView::fresh(player_id@),
    {
        PlayerStats {
            player_id,
            total_games: 0,
            total_wins: 0,
            total_attempts: 0,
            best_score: BEST_SCORE_UNSET,
            total_time: 0,
            last_played: 0,
            total_score: 0,
        }
    }

    /// Won games per hundred games played, as an exact fraction.
    pub fn win_rate(&self) -> (rate: Ratio)
        ensures
            rate@ == self@.win_rate(),
            rate@.wf(),
    {
        if self.total_games == 0 {
            Ratio { num: 0, den: 1 }
        } else {
            Ratio { num: (self.total_wins as u64) * 100, den: self.total_games as u64 }
        }
    }

    /// The mean number of attempts per game, as an exact fraction.
    pub fn average_attempts(&self) -> (mean: Ratio)
        ensures
            mean@ == self@.average_attempts(),
            mean@.wf(),
    {
        if self.total_games == 0 {
            Ratio { num: 0, den: 1 }
        } else {
            Ratio { num: self.total_attempts, den: self.total_games as u64 }
        }
    }

    /// Whether the statistics could have been built from valid records.
    pub fn is_sound(&self) -> (sound: bool)
        ensures
            sound == self@.wf(),
    {
        let games: u64 = self.total_games as u64;
        assert(50 * games <= 50 * 0xffff_ffff) by (nonlinear_arith)
            requires
                games <= 0xffff_ffff,
        ;
        let most: u64 = 50 * games;
        self.total_wins <= self.total_games && self.total_attempts <= most && games
            <= self.total_attempts && ((self.best_score == BEST_SCORE_UNSET) == (
        self.total_wins == 0)) && (self.best_score == BEST_SCORE_UNSET || (1 <= self.best_score
            && self.best_score <= MAX_ATTEMPTS))
    }

    /// Whether every sum still fits its counter once the record is folded in.
    pub fn has_room_for(&self, record: &GameRecord) -> (fits: bool)
        ensures
            fits == self@.has_room_for(record@),
    {
        self.total_games < u32::MAX && self.total_wins < u32::MAX
            && self.total_attempts <= u64::MAX - (record.attempts as u64)
            && self.total_time <= u64::MAX - record.duration_seconds
            && self.total_score <= u64::MAX - (record.score as u64)
    }

    /// Folds one record into the statistics and returns the events that this
    /// gives rise to.
    ///
    /// The counters are advanced first, then the best score, then the win
    /// rate and the mean follow from the new sums. Where a sum would
    /// overflow, nothing is changed and the record is refused.
    pub fn update_with_game(&mut self, record: &GameRecord) -> (result: Result<
        Vec<GameEvent>,
        ContractError,
    >)
        ensures
            result is Ok <==> old(self)@.has_room_for(record@),
            result matches Ok(events) ==> {
                &&& final(self)@ == old(self)@.absorb(record@)
                &&& crate::event::event_views(events@) == old(self)@.update_events(record@)
            },
            result matches Err(e) ==> e == ContractError::CounterOverflow && *final(self) == *old(
                self,
            ),
            old(self)@.wf() && record@.is_valid() && result is Ok ==> final(self)@.wf(),
    {
        if !self.has_room_for(record) {
            return Err(ContractError::CounterOverflow);
        }
        let mut events: Vec<GameEvent> = Vec::new();

        self.total_games = self.total_games + 1;
        self.total_time = self.total_time + record.duration_seconds;
        self.last_played = record.timestamp;
        self.total_score = self.total_score + record.score as u64;
        self.total_attempts = self.total_attempts + record.attempts as u64;

        if record.success {
            self.total_wins = self.total_wins + 1;
            if self.best_score == BEST_SCORE_UNSET || record.attempts < self.best_score {
                let previous_best: u32 = self.best_score;
                self.best_score = record.attempts;
                if previous_best != BEST_SCORE_UNSET {
                    events.push(
                        GameEvent::NewBestScore {
                            player_id: self.player_id.clone(),
                            new_best: record.attempts,
                            previous_best,
                        },
                    );
                }
            }
        }
        let win_rate = self.win_rate();
        events.push(
            GameEvent::StatsUpdated {
                player_id: self.player_id.clone(),
                total_games: self.total_games,
                win_rate,
            },
        );
        proof {
            assert(crate::event::event_views(events@) =~= old(self)@.update_events(record@));
            if old(self)@.wf() && record@.is_valid() {
                let before = old(self)@;
                assert(MAX_ATTEMPTS * (before.total_games + 1) == MAX_ATTEMPTS
                    * before.total_games + MAX_ATTEMPTS) by (nonlinear_arith);
            }
        }
        Ok(events)
    }
}

/// The mean number of attempts follows the running-mean rule: with `n` the
/// number of games after the record is folded in,
/// `mean' = (mean * (n - 1) + attempts) / n`, stated here without division.
pub proof fn lemma_running_mean(stats: PlayerStatsView, record: GameRecordView)
    requires
        stats.wf(),
        stats.has_room_for(record),
    ensures
        ({
            let n = stats.total_games + 1;
            let mean = stats.average_attempts();
            let next = stats.absorb(record).average_attempts();
            next.num * n * mean.den == (mean.num * (n - 1) + record.attempts * mean.den)
                * next.den
        }),
{
    let n = (stats.total_games + 1) as int;
    let mean = stats.average_attempts();
    let next = stats.absorb(record).average_attempts();
    let s = stats.total_attempts as int;
    let x = record.attempts as int;
    assert(next.num == s + x);
    assert(next.den == n);
    if stats.total_games == 0 {
        assert(s == 0) by (nonlinear_arith)
            requires
                0 <= s <= MAX_ATTEMPTS * stats.total_games,
                stats.total_games == 0,
        ;
        assert(x * 1 * 1 == (0 * (1 - 1) + x * 1) * 1) by (nonlinear_arith);
    } else {
        assert(mean.num == s);
        assert(mean.den == n - 1);
        assert((s + x) * n * (n - 1) == (s * (n - 1) + x * (n - 1)) * n) by (nonlinear_arith);
    }
}

/// Statistics that were built from valid records stay sound when another
/// valid record is folded in: there are never more wins than games, the
/// attempts stay within what the games allow, and a best score is set exactly
/// when a game was won.
pub proof fn lemma_absorb_keeps_sound(stats: PlayerStatsView, record: GameRecordView)
    requires
        stats.wf(),
        record.is_valid(),
    ensures
        stats.absorb(record).wf(),
        stats.absorb(record).total_games == stats.total_games + 1,
        stats.absorb(record).player_id == stats.player_id,
{
    assert(MAX_ATTEMPTS * (stats.total_games + 1) == MAX_ATTEMPTS * stats.total_games
        + MAX_ATTEMPTS) by (nonlinear_arith);
}

/// The win rate is recomputed from the two counters after every record: it
/// is `total_wins * 100 / total_games` of the new statistics, whatever it was
/// before.
pub proof fn lemma_win_rate_recomputed(stats: PlayerStatsView, record: GameRecordView)
    requires
        stats.has_room_for(record),
        stats.total_wins <= stats.total_games,
    ensures
        ({
            let after = stats.absorb(record);
            let rate = after.win_rate();
            &&& rate.den == after.total_games
            &&& rate.num == after.total_wins * 100
            &&& rate.num <= 100 * rate.den
        }),
{
}

} // verus!
