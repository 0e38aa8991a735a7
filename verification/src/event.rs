//! The notifications that an accepted record gives rise to.

use vstd::prelude::*;
use crate::ratio::{Fraction, Ratio};

verus! {

/// A notification for indexers and dashboards. The ledger only produces
/// events; it never reads them back.
#[derive(Debug, PartialEq, Eq)]
pub enum GameEvent {
    /// A record was accepted.
    GameRecorded { game_id: String, player_id: String, success: bool, attempts: u32, difficulty: String },
    /// A player beat an earlier personal best.
    NewBestScore { player_id: String, new_best: u32, previous_best: u32 },
    /// A player's statistics changed.
    StatsUpdated { player_id: String, total_games: u32, win_rate: Ratio },
}

/// A [`GameEvent`] as a mathematical value.
pub enum GameEventView {
    GameRecorded {
        game_id: Seq<char>,
        player_id: Seq<char>,
        success: bool,
        attempts: u32,
        difficulty: Seq<char>,
    },
    NewBestScore { player_id: Seq<char>, new_best: u32, previous_best: u32 },
    StatsUpdated { player_id: Seq<char>, total_games: u32, win_rate: Fraction },
}

impl View for GameEvent {
    type V = GameEventView;

    open spec fn view(&self) -> GameEventView {
        match self {
            GameEvent::GameRecorded { game_id, player_id, success, attempts, difficulty } => {
                GameEventView::GameRecorded {
                    game_id: game_id@,
                    player_id: player_id@,
                    success: *success,
                    attempts: *attempts,
                    difficulty: difficulty@,
                }
            },
            GameEvent::NewBestScore { player_id, new_best, previous_best } => {
                GameEventView::NewBestScore {
                    player_id: player_id@,
                    new_best: *new_best,
                    previous_best: *previous_best,
                }
            },
            GameEvent::StatsUpdated { player_id, total_games, win_rate } => {
                GameEventView::StatsUpdated {
                    player_id: player_id@,
                    total_games: *total_games,
                    win_rate: win_rate@,
                }
            },
        }
    }
}

/// The events of a list, as mathematical values.
pub open spec fn event_views(events: Seq<GameEvent>) -> Seq<GameEventView> {
    events.map_values(|e: GameEvent| e@)
}

} // verus!
