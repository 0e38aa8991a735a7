//! Storage that keeps game results in memory: a stand-in for the network
//! while developing and testing, and the checks and the cache that the
//! network client runs on its own side.

use vstd::prelude::*;
use vstd::string::StringExecFns;
use crate::game_error::GameError;
use crate::leaderboard::RankKey;
use crate::lookup::{lemma_position_of, lemma_push_keeps_unique};
use crate::player::{PlayerEntry, PlayerView, after_record, find_player, id_views, player_ids, player_views, prior_stats, stats_of};
use crate::random::generate_mock_tx_hash;
use crate::ranking::{is_weak_order, positions, ranked_positions, ranking};
use crate::ratio::{lemma_fraction_transitive, lemma_fraction_trichotomy};
use crate::record::{GameRecord, GameRecordView};
use crate::stats::{PlayerStats, PlayerStatsView};
use crate::store::{newest_first, recent, record_views};
use crate::text::same_text;

verus! {

/// The most records that the client's cache keeps per player.
pub const MAX_CACHED_RECORDS: usize = 100;

/// The records of a player among the given ones, in their order.
pub open spec fn games_of(records: Seq<GameRecordView>, player_id: Seq<char>) -> Seq<
    GameRecordView,
>
    decreases records.len(),
{
    if records.len() == 0 {
        Seq::empty()
    } else {
        let rest = games_of(records.drop_last(), player_id);
        if records.last().player_id == player_id {
            rest.push(records.last())
        } else {
            rest
        }
    }
}

/// Whether `a` stands above `b` on the stand-in's leaderboard: a higher win
/// rate, or the same win rate and a lower mean of attempts.
pub open spec fn leads(a: RankKey, b: RankKey) -> bool {
    ||| b.win_rate.less(a.win_rate)
    ||| (a.win_rate.same(b.win_rate) && a.average_attempts.less(b.average_attempts))
}

/// "Stands above" for the players at two positions.
pub open spec fn leads_at(stats: Seq<PlayerStatsView>) -> spec_fn(int, int) -> bool {
    |a: int, b: int| leads(stats[a].rank_key(), stats[b].rank_key())
}

/// The statistics of the `limit` leading players, best first; players that
/// tie stand in the order in which they were first seen.
pub open spec fn leaders(stats: Seq<PlayerStatsView>, limit: nat) -> Seq<PlayerStatsView> {
    let order = ranking(leads_at(stats), stats.len());
    let count = if limit < stats.len() {
        limit
    } else {
        stats.len()
    };
    Seq::new(count, |i: int| stats[order[i]])
}

/// The stand-in's ranking relation is a strict weak order.
pub proof fn lemma_leads_is_weak_order(stats: Seq<PlayerStatsView>)
    ensures
        is_weak_order(leads_at(stats), stats.len()),
{
    let above = leads_at(stats);
    let n = stats.len();
    assert forall|a: int, b: int| 0 <= a < n && 0 <= b < n implies !(#[trigger] above(a, b)
        && above(b, a)) by {
        let (x, y) = (stats[a].rank_key(), stats[b].rank_key());
        lemma_fraction_trichotomy(x.win_rate, y.win_rate);
        lemma_fraction_trichotomy(x.average_attempts, y.average_attempts);
    }
    assert forall|a: int, b: int, c: int|
        0 <= a < n && 0 <= b < n && 0 <= c < n && !#[trigger] above(a, b) && !#[trigger] above(
            b,
            c,
        ) implies !above(a, c) by {
        let (x, y, z) = (stats[a].rank_key(), stats[b].rank_key(), stats[c].rank_key());
        lemma_fraction_trichotomy(x.win_rate, y.win_rate);
        lemma_fraction_trichotomy(y.win_rate, z.win_rate);
        lemma_fraction_trichotomy(x.win_rate, z.win_rate);
        lemma_fraction_trichotomy(x.average_attempts, y.average_attempts);
        lemma_fraction_trichotomy(y.average_attempts, z.average_attempts);
        lemma_fraction_trichotomy(x.average_attempts, z.average_attempts);
        lemma_fraction_transitive(x.win_rate, y.win_rate, z.win_rate);
        if x.win_rate.same(z.win_rate) {
            assert(x.win_rate.same(y.win_rate) && y.win_rate.same(z.win_rate));
            lemma_fraction_transitive(z.average_attempts, y.average_attempts, x.average_attempts);
        }
    }
}

/// The stand-in's leaderboard is in order: nobody on it stands above a player
/// that is listed before them.
pub proof fn lemma_leaders_are_in_order(stats: Seq<PlayerStatsView>, limit: nat, i: int, j: int)
    requires
        0 <= i < j < leaders(stats, limit).len(),
    ensures
        !leads(leaders(stats, limit)[j].rank_key(), leaders(stats, limit)[i].rank_key()),
        leaders(stats, limit).len() <= limit,
        stats.contains(leaders(stats, limit)[i]),
{
    lemma_leads_is_weak_order(stats);
    crate::ranking::lemma_ranking(leads_at(stats), stats.len());
    let order = ranking(leads_at(stats), stats.len());
    assert(!leads_at(stats)(order[j], order[i]));
    assert(0 <= order[i] < stats.len());
}

/// Results kept in memory.
#[derive(Debug)]
pub struct MockStorageProvider {
    records: Vec<GameRecord>,
    players: Vec<PlayerEntry>,
}

/// A [`MockStorageProvider`] as a mathematical value.
pub struct MockStorageView {
    pub records: Seq<GameRecordView>,
    pub players: Seq<PlayerView>,
}

impl View for MockStorageProvider {
    type V = MockStorageView;

    closed spec fn view(&self) -> MockStorageView {
        MockStorageView { records: record_views(self.records@), players: player_views(self.players@) }
    }
}

impl MockStorageProvider {
    #[verifier::type_invariant]
    spec fn players_are_unique(self) -> bool {
        player_ids(player_views(self.players@)).no_duplicates()
    }

    /// Storage that holds nothing.
    pub fn new() -> (storage: MockStorageProvider)
        ensures
            storage@.records == Seq::<GameRecordView>::empty(),
            storage@.players == Seq::<PlayerView>::empty(),
    {
        let records: Vec<GameRecord> = Vec::new();
        let players: Vec<PlayerEntry> = Vec::new();
        assert(record_views(records@) =~= Seq::<GameRecordView>::empty());
        assert(player_views(players@) =~= Seq::<PlayerView>::empty());
        assert(player_ids(player_views(players@)) =~= Seq::<Seq<char>>::empty());
        MockStorageProvider { records, players }
    }

    /// Keeps a result and folds it into the statistics of its player. The
    /// answer is a made-up transaction hash. A result for which a counter of
    /// the player has no room is refused and nothing is kept.
    pub fn store_game_result(&mut self, record: &GameRecord) -> (result: Result<String, GameError>)
        ensures
            result is Ok <==> prior_stats(old(self)@.players, record@.player_id).has_room_for(
                record@,
            ),
            result matches Ok(hash) ==> {
                &&& hash@.len() == 64
                &&& final(self)@.records == old(self)@.records.push(record@)
                &&& final(self)@.players == after_record(old(self)@.players, record@)
            },
            result matches Err(e) ==> {
                &&& final(self)@ == old(self)@
                &&& e matches GameError::StorageError(why)
                &&& why@ == "Player statistics overflow"@
            },
    {
        proof {
            use_type_invariant(&*self);
        }
        let ghost before = self@.players;
        let ghost ids = player_ids(before);
        let found = find_player(&self.players, record.player_id.as_str());
        let fits: bool = match found {
            Some(i) => {
                proof {
                    assert(before[i as int] == self.players@[i as int]@);
                }
                self.players[i].stats.has_room_for(record)
            },
            None => true,
        };
        if !fits {
            return Err(GameError::StorageError(String::from_str("Player statistics overflow")));
        }
        let mut players: Vec<PlayerEntry> = Vec::new();
        core::mem::swap(&mut self.players, &mut players);
        proof {
            assert(player_ids(player_views(Seq::<PlayerEntry>::empty())) =~= Seq::<
                Seq<char>,
            >::empty());
        }
        match found {
            Some(i) => {
                let entry = &mut players[i];
                let _ = entry.stats.update_with_game(record);
                entry.game_ids.push(record.game_id.clone());
                proof {
                    let after = player_views(players@);
                    assert(id_views(players@[i as int].game_ids@) =~= before[i as int].game_ids.push(
                        record@.game_id,
                    ));
                    assert(after =~= after_record(before, record@));
                    assert(player_ids(after) =~= ids);
                }
            },
            None => {
                let mut stats = PlayerStats::new(record.player_id.clone());
                let _ = stats.update_with_game(record);
                let mut game_ids: Vec<String> = Vec::new();
                game_ids.push(record.game_id.clone());
                let entry = PlayerEntry { stats, game_ids };
                proof {
                    assert(id_views(entry.game_ids@) =~= seq![record@.game_id]);
                    assert(entry@ == PlayerView::first(record@));
                    lemma_position_of(ids, record@.player_id);
                    lemma_push_keeps_unique(ids, record@.player_id);
                    let after = player_views(players@.push(entry));
                    assert(after =~= before.push(entry@));
                    assert(player_ids(after) =~= ids.push(record@.player_id));
                }
                players.push(entry);
            },
        }
        self.players = players;
        let mut records: Vec<GameRecord> = Vec::new();
        core::mem::swap(&mut self.records, &mut records);
        let ghost kept = record_views(records@);
        let copy = record.clone();
        proof {
            assert(record_views(records@.push(copy)) =~= kept.push(record@));
        }
        records.push(copy);
        self.records = records;
        Ok(generate_mock_tx_hash())
    }

    /// The statistics of a player; those of a player without games for a
    /// player that is not known.
    pub fn get_player_stats(&self, player_id: &str) -> (stats: PlayerStats)
        ensures
            stats@ == prior_stats(self@.players, player_id@),
    {
        match find_player(&self.players, player_id) {
            Some(i) => {
                proof {
                    assert(self@.players[i as int] == self.players@[i as int]@);
                }
                self.players[i].stats.clone()
            },
            None => PlayerStats::new(player_id.to_owned()),
        }
    }

    /// The `limit` newest results of a player, newest timestamp first.
    pub fn get_game_history(&self, player_id: &str, limit: usize) -> (history: Vec<GameRecord>)
        ensures
            record_views(history@) == recent(games_of(self@.records, player_id@), limit as nat),
    {
        let ghost views = record_views(self.records@);
        let n: usize = self.records.len();
        let mut mine: Vec<GameRecord> = Vec::new();
        let mut i: usize = 0;
        proof {
            assert(views.take(0) =~= Seq::<GameRecordView>::empty());
            assert(record_views(mine@) =~= Seq::<GameRecordView>::empty());
        }
        while i < n
            invariant
                n == self.records@.len(),
                views == record_views(self.records@),
                i <= n,
                record_views(mine@) == games_of(views.take(i as int), player_id@),
            decreases n - i,
        {
            let ghost before = record_views(mine@);
            proof {
                let next = views.take(i + 1);
                assert(next.drop_last() =~= views.take(i as int));
                assert(next.last() == self.records@[i as int]@);
            }
            if same_text(self.records[i].player_id.as_str(), player_id) {
                let copy = self.records[i].clone();
                proof {
                    assert(record_views(mine@.push(copy)) =~= before.push(copy@));
                }
                mine.push(copy);
            }
            i = i + 1;
        }
        proof {
            assert(views.take(n as int) =~= views);
        }
        newest_first(&mine, limit)
    }

    /// The statistics of the `limit` leading players, best first.
    pub fn get_leaderboard(&self, limit: usize) -> (board: Vec<PlayerStats>)
        ensures
            board@.map_values(|s: PlayerStats| s@) == leaders(
                stats_of(self@.players),
                limit as nat,
            ),
    {
        let ghost stats = stats_of(player_views(self.players@));
        let n: usize = self.players.len();
        let is_ahead = |a: usize, b: usize| -> (r: bool)
            requires
                a < n,
                b < n,
            ensures
                r == leads(
                    self.players@[a as int]@.stats.rank_key(),
                    self.players@[b as int]@.stats.rank_key(),
                ),
            { stats_lead(&self.players[a].stats, &self.players[b].stats) };
        let order = ranked_positions(n, is_ahead, Ghost(leads_at(stats)));
        let count: usize = if limit < n {
            limit
        } else {
            n
        };
        let mut board: Vec<PlayerStats> = Vec::new();
        let mut i: usize = 0;
        while i < count
            invariant
                n == self.players@.len(),
                count <= n,
                i <= count,
                order@.len() == n,
                stats == stats_of(player_views(self.players@)),
                forall|j: int| 0 <= j < n ==> #[trigger] order@[j] < n,
                board@.len() == i,
                forall|j: int| 0 <= j < i ==> (#[trigger] board@[j])@ == stats[order@[j] as int],
            decreases count - i,
        {
            let which: usize = order[i];
            board.push(self.players[which].stats.clone());
            i = i + 1;
        }
        proof {
            let goal = leaders(stats, limit as nat);
            let got = board@.map_values(|s: PlayerStats| s@);
            assert forall|j: int| 0 <= j < count implies got[j] == goal[j] by {
                assert(positions(order@)[j] == order@[j] as int);
            }
            assert(got =~= goal);
        }
        board
    }

    /// Whether the storage can be used. Memory always can.
    pub fn health_check(&self) -> (healthy: bool)
        ensures
            healthy,
    {
        true
    }
}

/// Decides whether the player with statistics `a` stands above the player
/// with statistics `b` on the stand-in's leaderboard.
pub fn stats_lead(a: &PlayerStats, b: &PlayerStats) -> (ahead: bool)
    ensures
        ahead == leads(a@.rank_key(), b@.rank_key()),
{
    let rate_a = a.win_rate();
    let rate_b = b.win_rate();
    if rate_b.is_less_than(&rate_a) {
        return true;
    }
    if !rate_a.has_same_value(&rate_b) {
        return false;
    }
    a.average_attempts().is_less_than(&b.average_attempts())
}

/// What keeps the client from sending a record.
#[derive(Clone, Copy, Debug, PartialEq, Eq)]
pub enum SendingDefect {
    /// The record names no player.
    NoPlayer,
    /// The record reports no attempt.
    NoAttempts,
    /// The number of guesses differs from the number of attempts.
    GuessCountMismatch,
}

/// What keeps the client from sending the record, if anything.
pub open spec fn sending_defect(record: GameRecordView) -> Option<SendingDefect> {
    if record.player_id.len() == 0 {
        Some(SendingDefect::NoPlayer)
    } else if record.attempts == 0 {
        Some(SendingDefect::NoAttempts)
    } else if record.guesses.len() != record.attempts {
        Some(SendingDefect::GuessCountMismatch)
    } else {
        None
    }
}

/// Checks a record before the client sends it.
pub fn validate_game_record(record: &GameRecord) -> (result: Result<(), GameError>)
    ensures
        result is Ok <==> sending_defect(record@) is None,
        result matches Err(e) ==> match sending_defect(record@) {
            Some(SendingDefect::NoPlayer) => e matches GameError::InvalidPlayerId(id) && id@
                == record@.player_id,
            Some(SendingDefect::NoAttempts) => e matches GameError::UnexpectedError(why) && why@
                == "Game record cannot have zero attempts"@,
            _ => e matches GameError::UnexpectedError(why) && why@
                == "Guesses count doesn't match attempts"@,
        },
{
    if record.player_id.as_str().is_empty() {
        return Err(GameError::InvalidPlayerId(record.player_id.clone()));
    }
    if record.attempts == 0 {
        return Err(
            GameError::UnexpectedError(String::from_str("Game record cannot have zero attempts")),
        );
    }
    if record.guesses.len() != record.attempts as usize {
        return Err(
            GameError::UnexpectedError(String::from_str("Guesses count doesn't match attempts")),
        );
    }
    Ok(())
}

/// The first `limit` records of a cached history.
pub fn cached_history(records: &Vec<GameRecord>, limit: usize) -> (history: Vec<GameRecord>)
    ensures
        record_views(history@) == record_views(records@).take(
            if limit < records@.len() {
                limit as int
            } else {
                records@.len() as int
            },
        ),
{
    let n: usize = records.len();
    let count: usize = if limit < n {
        limit
    } else {
        n
    };
    let mut history: Vec<GameRecord> = Vec::new();
    let mut i: usize = 0;
    while i < count
        invariant
            n == records@.len(),
            count <= n,
            i <= count,
            history@.len() == i,
            forall|j: int| 0 <= j < i ==> (#[trigger] history@[j])@ == records@[j]@,
        decreases count - i,
    {
        history.push(records[i].clone());
        i = i + 1;
    }
    proof {
        assert(record_views(history@) =~= record_views(records@).take(count as int));
    }
    history
}

/// Puts a new record in front of a cached history and drops what is beyond
/// the [`MAX_CACHED_RECORDS`] newest.
pub fn cache_recent_record(records: &mut Vec<GameRecord>, record: &GameRecord)
    ensures
        record_views(final(records)@) == (seq![record@] + record_views(old(records)@)).take(
            if old(records)@.len() + 1 > MAX_CACHED_RECORDS {
                MAX_CACHED_RECORDS as int
            } else {
                (old(records)@.len() + 1) as int
            },
        ),
{
    let ghost before = record_views(records@);
    let copy = record.clone();
    records.insert(0, copy);
    proof {
        assert(record_views(records@) =~= seq![record@] + before);
    }
    if records.len() > MAX_CACHED_RECORDS {
        let ghost full = record_views(records@);
        records.truncate(MAX_CACHED_RECORDS);
        proof {
            assert(record_views(records@) =~= full.take(MAX_CACHED_RECORDS as int));
        }
    } else {
        proof {
            let full = record_views(records@);
            assert(full.take(full.len() as int) =~= full);
        }
    }
}

} // verus!
