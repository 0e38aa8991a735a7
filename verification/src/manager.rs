//! The manager of games: the defaults that new games start from and the
//! checks that rules must pass.

use vstd::prelude::*;
use vstd::string::StringExecFns;
use crate::game::GameConfig;
use crate::game_error::GameError;
use crate::session::{Game, GameView};
use crate::utils::{is_valid_player_id, valid_player_id};

verus! {

/// After how many seconds without a guess a game times out.
pub const GAME_TIMEOUT_SECONDS: u64 = 300;

/// The most games a player can have open at once.
pub const MAX_CONCURRENT_GAMES: usize = 5;

/// The defaults of new games.
#[derive(Clone, Copy, Debug, PartialEq, Eq)]
pub struct GameManager {
    /// The rules of a game for which none are given.
    pub default_config: GameConfig,
    /// After how many seconds an unfinished game times out.
    pub game_timeout_seconds: u64,
}

impl GameManager {
    /// A manager with the normal rules and a timeout of five minutes.
    pub fn new() -> (manager: GameManager)
        ensures
            manager.default_config == (GameConfig {
                min_number: 1,
                max_number: 100,
                max_attempts: 10,
            }),
            manager.game_timeout_seconds == GAME_TIMEOUT_SECONDS,
    {
        GameManager {
            default_config: GameConfig { min_number: 1, max_number: 100, max_attempts: 10 },
            game_timeout_seconds: GAME_TIMEOUT_SECONDS,
        }
    }

    /// Checks that a game can be played by the rules `config`: the range
    /// holds at least two numbers and the attempts are between 1 and 50.
    pub fn validate_config(&self, config: &GameConfig) -> (result: Result<(), GameError>)
        ensures
            result is Ok <==> config.defect() is None,
            result matches Err(e) ==> {
                &&& e matches GameError::InvalidConfiguration(why)
                &&& Some(why@) == config.defect()
            },
    {
        if config.min_number >= config.max_number {
            return Err(
                GameError::InvalidConfiguration(
                    String::from_str("Minimum number must be less than maximum number"),
                ),
            );
        }
        if config.max_attempts == 0 {
            return Err(
                GameError::InvalidConfiguration(
                    String::from_str("Maximum attempts must be greater than 0"),
                ),
            );
        }
        if config.max_attempts > 50 {
            return Err(
                GameError::InvalidConfiguration(
                    String::from_str("Maximum attempts cannot exceed 50"),
                ),
            );
        }
        Ok(())
    }
}

/// Whether a game counts as timed out at time `now`: it is still running
/// and started more than `timeout` seconds ago.
pub open spec fn is_stale(game: GameView, now: u64, timeout: u64) -> bool {
    game.active && game.started_at + timeout < now
}

/// The games that are not timed out, in their order.
pub open spec fn without_stale(games: Seq<GameView>, now: u64, timeout: u64) -> Seq<GameView>
    decreases games.len(),
{
    if games.len() == 0 {
        games
    } else if is_stale(games[0], now, timeout) {
        without_stale(games.drop_first(), now, timeout)
    } else {
        seq![games[0]] + without_stale(games.drop_first(), now, timeout)
    }
}

/// The games of a list, as mathematical values.
pub open spec fn game_views(games: Seq<Game>) -> Seq<GameView> {
    games.map_values(|g: Game| g@)
}

impl GameManager {
    /// Starts a game for `player_id` at time `now`, at the given difficulty
    /// (`normal` where none is given) and with a target drawn at random.
    /// A name that cannot name a player is refused.
    pub fn create_game(
        &self,
        player_id: String,
        difficulty: Option<String>,
        max_attempts: Option<u32>,
        now: u64,
    ) -> (result: Result<Game, GameError>)
        ensures
            result is Ok <==> valid_player_id(player_id@),
            result matches Ok(game) ==> {
                let level = match difficulty {
                    Some(name) => name@,
                    None => "normal"@,
                };
                &&& game@.config == GameConfig::of_difficulty(level, max_attempts)
                &&& game@.config.min_number <= game@.target_number <= game@.config.max_number
                &&& game@.player_id == player_id@
                &&& game@.difficulty == level
                &&& game@.attempts == 0
                &&& game@.guesses.len() == 0
                &&& game@.started_at == now
                &&& game@.active
                &&& !game@.won
            },
            result matches Err(e) ==> {
                &&& e matches GameError::InvalidPlayerId(id)
                &&& id@ == player_id@
            },
    {
        if !is_valid_player_id(player_id.as_str()) {
            return Err(GameError::InvalidPlayerId(player_id));
        }
        let difficulty: String = match difficulty {
            Some(name) => name,
            None => String::from_str("normal"),
        };
        let config = GameConfig::for_difficulty(difficulty.as_str(), max_attempts);
        Ok(Game::new(config, player_id, difficulty, now))
    }

    /// Drops the games that are timed out at time `now`: those that are
    /// still running and started longer ago than the manager's timeout.
    pub fn cleanup_timed_out_games(&self, games: &mut Vec<Game>, now: u64)
        ensures
            game_views(final(games)@) == without_stale(
                game_views(old(games)@),
                now,
                self.game_timeout_seconds,
            ),
    {
        let timeout: u64 = self.game_timeout_seconds;
        let ghost start = game_views(games@);
        let mut i: usize = 0;
        proof {
            assert(start.skip(0) =~= start);
            assert(start.take(0) + without_stale(start.skip(0), now, timeout) =~= without_stale(
                start,
                now,
                timeout,
            ));
        }
        while i < games.len()
            invariant
                i <= games@.len(),
                game_views(games@).take(i as int) + without_stale(
                    game_views(games@).skip(i as int),
                    now,
                    timeout,
                ) == without_stale(start, now, timeout),
            decreases games@.len() - i,
        {
            let ghost views = game_views(games@);
            let ghost tail = views.skip(i as int);
            proof {
                assert(tail[0] == views[i as int]);
                assert(views[i as int] == games@[i as int]@);
            }
            let started: u64 = games[i].started_at;
            let stale: bool = games[i].active && started < now && now - started > timeout;
            if stale {
                let _ = games.remove(i);
                proof {
                    let after = game_views(games@);
                    assert(after =~= views.remove(i as int));
                    assert(after.take(i as int) =~= views.take(i as int));
                    assert(after.skip(i as int) =~= tail.drop_first());
                }
            } else {
                proof {
                    assert(views.take(i + 1) =~= views.take(i as int).push(views[i as int]));
                    assert(views.skip(i + 1) =~= tail.drop_first());
                    assert(views.take(i as int) + (seq![tail[0]] + without_stale(
                        tail.drop_first(),
                        now,
                        timeout,
                    )) =~= views.take(i + 1) + without_stale(views.skip(i + 1), now, timeout));
                }
                i = i + 1;
            }
        }
        proof {
            let views = game_views(games@);
            assert(views.skip(i as int).len() == 0);
            assert(views.take(i as int) + views.skip(i as int) =~= views);
        }
    }
}

impl Default for GameManager {
    fn default() -> (manager: GameManager)
        ensures
            manager.default_config == (GameConfig {
                min_number: 1,
                max_number: 100,
                max_attempts: 10,
            }),
            manager.game_timeout_seconds == GAME_TIMEOUT_SECONDS,
    {
        GameManager::new()
    }
}

} // verus!
