//! The ranking of the players.
//!
//! Players are ranked by win rate, highest first; among equal win rates by
//! the mean number of attempts, lowest first; among those by total score,
//! highest first. Players that tie on all three keep the order in which the
//! ledger first saw them.

use vstd::prelude::*;
use crate::player::{PlayerEntry, player_views, stats_of};
use crate::ranking::{
    index_in, is_weak_order, lemma_above_comes_first, lemma_ranking, lemma_tie_keeps_order, positions,
    ranked_positions, ranking,
};
use crate::ratio::{Fraction, Ratio, lemma_fraction_transitive, lemma_fraction_trichotomy};
use crate::stats::{PlayerStats, PlayerStatsView, BEST_SCORE_UNSET};

verus! {

/// A leaderboard that was built longer ago than this many seconds is rebuilt
/// before it is read.
pub const READ_STALENESS_SECONDS: u64 = 1800;

/// A leaderboard that was built longer ago than this many seconds is dropped
/// when a record is accepted, so that the next read rebuilds it.
pub const WRITE_STALENESS_SECONDS: u64 = 3600;

/// One line of the leaderboard: a rank and a snapshot of the statistics that
/// the rank was computed from.
#[derive(Debug, PartialEq, Eq)]
pub struct LeaderboardEntry {
    /// Position on the board, starting at 1.
    pub rank: u32,
    /// Identity of the player.
    pub player_id: String,
    /// Games recorded for the player.
    pub total_games: u32,
    /// Won games per hundred games.
    pub win_rate: Ratio,
    /// Mean number of attempts per game.
    pub average_attempts: Ratio,
    /// Fewest attempts of a won game, and 0 where the player never won.
    pub best_score: u32,
    /// Sum of the scores of the player's games.
    pub total_score: u64,
}

/// A [`LeaderboardEntry`] as a mathematical value.
pub struct LeaderboardEntryView {
    pub rank: nat,
    pub player_id: Seq<char>,
    pub total_games: nat,
    pub win_rate: Fraction,
    pub average_attempts: Fraction,
    pub best_score: u32,
    pub total_score: nat,
}

impl View for LeaderboardEntry {
    type V = LeaderboardEntryView;

    open spec fn view(&self) -> LeaderboardEntryView {
        LeaderboardEntryView {
            rank: self.rank as nat,
            player_id: self.player_id@,
            total_games: self.total_games as nat,
            win_rate: self.win_rate@,
            average_attempts: self.average_attempts@,
            best_score: self.best_score,
            total_score: self.total_score as nat,
        }
    }
}

impl Clone for LeaderboardEntry {
    fn clone(&self) -> (copy: Self)
        ensures
            copy@ == self@,
    {
        LeaderboardEntry {
            rank: self.rank,
            player_id: self.player_id.clone(),
            total_games: self.total_games,
            win_rate: self.win_rate,
            average_attempts: self.average_attempts,
            best_score: self.best_score,
            total_score: self.total_score,
        }
    }
}

/// The entries of a list, as mathematical values.
pub open spec fn entry_views(entries: Seq<LeaderboardEntry>) -> Seq<LeaderboardEntryView> {
    entries.map_values(|e: LeaderboardEntry| e@)
}

/// The three numbers that decide a player's place.
pub struct RankKey {
    pub win_rate: Fraction,
    pub average_attempts: Fraction,
    pub total_score: nat,
}

impl RankKey {
    /// Both fractions of the key denote numbers.
    pub open spec fn wf(self) -> bool {
        self.win_rate.wf() && self.average_attempts.wf()
    }
}

impl PlayerStatsView {
    /// The numbers that decide the player's place.
    pub open spec fn rank_key(self) -> RankKey {
        RankKey {
            win_rate: self.win_rate(),
            average_attempts: self.average_attempts(),
            total_score: self.total_score,
        }
    }
}

impl LeaderboardEntryView {
    /// The numbers that decided the entry's place.
    pub open spec fn rank_key(self) -> RankKey {
        RankKey {
            win_rate: self.win_rate,
            average_attempts: self.average_attempts,
            total_score: self.total_score,
        }
    }
}

/// Whether `a` ranks strictly above `b`: a higher win rate, or the same win
/// rate and a lower mean of attempts, or both the same and a higher total
/// score.
pub open spec fn outranks(a: RankKey, b: RankKey) -> bool {
    ||| b.win_rate.less(a.win_rate)
    ||| (a.win_rate.same(b.win_rate) && a.average_attempts.less(b.average_attempts))
    ||| (a.win_rate.same(b.win_rate) && a.average_attempts.same(b.average_attempts)
        && a.total_score > b.total_score)
}

/// The keys of a list of statistics, in the same order.
pub open spec fn keys_of(stats: Seq<PlayerStatsView>) -> Seq<RankKey> {
    stats.map_values(|s: PlayerStatsView| s.rank_key())
}

/// The snapshot of a player's statistics that is shown at `rank`.
pub open spec fn entry_of(stats: PlayerStatsView, rank: nat) -> LeaderboardEntryView {
    LeaderboardEntryView {
        rank,
        player_id: stats.player_id,
        total_games: stats.total_games,
        win_rate: stats.win_rate(),
        average_attempts: stats.average_attempts(),
        best_score: if stats.best_score == BEST_SCORE_UNSET {
            0
        } else {
            stats.best_score
        },
        total_score: stats.total_score,
    }
}

/// "Stands above" for the players at two positions of `keys`.
pub open spec fn outranks_at(keys: Seq<RankKey>) -> spec_fn(int, int) -> bool {
    |a: int, b: int| outranks(keys[a], keys[b])
}

/// The leaderboard of the given players: one entry per player, in ranked
/// order, the entry at position `i` carrying rank `i + 1`.
pub open spec fn ranked(stats: Seq<PlayerStatsView>) -> Seq<LeaderboardEntryView> {
    let order = ranking(outranks_at(keys_of(stats)), stats.len());
    Seq::new(stats.len(), |i: int| entry_of(stats[order[i]], (i + 1) as nat))
}

/// The rank that the leaderboard of `stats` gives to the player at position
/// `p` of `stats`.
pub open spec fn rank_of(stats: Seq<PlayerStatsView>, p: int) -> nat {
    (index_in(ranking(outranks_at(keys_of(stats)), stats.len()), p) + 1) as nat
}

/// The ranking relation is a strict weak order: nobody outranks a player that
/// outranks them, and from "`a` is not above `b`" and "`b` is not above `c`"
/// follows "`a` is not above `c`".
pub proof fn lemma_outranks_is_weak_order(a: RankKey, b: RankKey, c: RankKey)
    requires
        a.wf(),
        b.wf(),
        c.wf(),
    ensures
        !(outranks(a, b) && outranks(b, a)),
        !outranks(a, b) && !outranks(b, c) ==> !outranks(a, c),
{
    lemma_fraction_trichotomy(a.win_rate, b.win_rate);
    lemma_fraction_trichotomy(a.average_attempts, b.average_attempts);
    if !outranks(a, b) && !outranks(b, c) {
        lemma_fraction_trichotomy(b.win_rate, c.win_rate);
        lemma_fraction_trichotomy(a.win_rate, c.win_rate);
        lemma_fraction_trichotomy(b.average_attempts, c.average_attempts);
        lemma_fraction_trichotomy(a.average_attempts, c.average_attempts);
        lemma_fraction_transitive(a.win_rate, b.win_rate, c.win_rate);
        if a.win_rate.same(c.win_rate) {
            assert(a.win_rate.same(b.win_rate) && b.win_rate.same(c.win_rate));
            lemma_fraction_transitive(c.average_attempts, b.average_attempts, a.average_attempts);
            if a.average_attempts.same(c.average_attempts) {
                assert(c.average_attempts.same(a.average_attempts));
                assert(a.average_attempts.same(b.average_attempts) && b.average_attempts.same(
                    c.average_attempts,
                ));
            }
        }
    }
}

/// Statistics always give a strict weak order: a rate and a mean have a
/// positive denominator from the first game on, and are `0/1` before.
pub proof fn lemma_stats_rank_weakly(stats: Seq<PlayerStatsView>)
    ensures
        is_weak_order(outranks_at(keys_of(stats)), stats.len()),
{
    let keys = keys_of(stats);
    let above = outranks_at(keys);
    let n = stats.len();
    assert forall|a: int, b: int| 0 <= a < n && 0 <= b < n implies !(#[trigger] above(a, b)
        && above(b, a)) by {
        lemma_outranks_is_weak_order(keys[a], keys[b], keys[a]);
    }
    assert forall|a: int, b: int, c: int|
        0 <= a < n && 0 <= b < n && 0 <= c < n && !#[trigger] above(a, b) && !#[trigger] above(
            b,
            c,
        ) implies !above(a, c) by {
        lemma_outranks_is_weak_order(keys[a], keys[b], keys[c]);
    }
}

/// Every player is on the leaderboard, once, at the rank that [`rank_of`]
/// names, with a snapshot of the player's own statistics.
pub proof fn lemma_leaderboard_lists_every_player(stats: Seq<PlayerStatsView>, p: int)
    requires
        0 <= p < stats.len(),
    ensures
        ranked(stats).len() == stats.len(),
        1 <= rank_of(stats, p) <= stats.len(),
        ranked(stats)[rank_of(stats, p) - 1] == entry_of(stats[p], rank_of(stats, p)),
        forall|q: int| 0 <= q < stats.len() && q != p ==> rank_of(stats, q) != rank_of(stats, p),
{
    let above = outranks_at(keys_of(stats));
    lemma_stats_rank_weakly(stats);
    lemma_ranking(above, stats.len());
    let order = ranking(above, stats.len());
    assert(order.contains(p));
    assert forall|q: int| 0 <= q < stats.len() && q != p implies rank_of(stats, q) != rank_of(
        stats,
        p,
    ) by {
        assert(order.contains(q));
    }
}

/// The leaderboard is in rank order: the entry at position `i` carries rank
/// `i + 1`, and no entry is outranked by one that stands below it.
pub proof fn lemma_leaderboard_ordered(stats: Seq<PlayerStatsView>, i: int, j: int)
    requires
        0 <= i < j < stats.len(),
    ensures
        ranked(stats).len() == stats.len(),
        ranked(stats)[i].rank == i + 1,
        ranked(stats)[j].rank == j + 1,
        !outranks(ranked(stats)[j].rank_key(), ranked(stats)[i].rank_key()),
{
    let keys = keys_of(stats);
    let above = outranks_at(keys);
    lemma_stats_rank_weakly(stats);
    lemma_ranking(above, stats.len());
    let order = ranking(above, stats.len());
    assert(!above(order[j], order[i]));
    assert(0 <= order[i] < stats.len() && 0 <= order[j] < stats.len());
}

/// A player that outranks another stands strictly above it on the
/// leaderboard.
pub proof fn lemma_better_player_ranks_higher(stats: Seq<PlayerStatsView>, a: int, b: int)
    requires
        0 <= a < stats.len(),
        0 <= b < stats.len(),
        outranks(stats[a].rank_key(), stats[b].rank_key()),
    ensures
        rank_of(stats, a) < rank_of(stats, b),
{
    let above = outranks_at(keys_of(stats));
    lemma_stats_rank_weakly(stats);
    assert(above(a, b));
    lemma_above_comes_first(above, stats.len(), a, b);
}

/// Players that tie on all three keys stand on the leaderboard in the order
/// in which they stand in `stats`.
pub proof fn lemma_ties_keep_first_seen_order(stats: Seq<PlayerStatsView>, a: int, b: int)
    requires
        0 <= a < b < stats.len(),
        !outranks(stats[a].rank_key(), stats[b].rank_key()),
        !outranks(stats[b].rank_key(), stats[a].rank_key()),
    ensures
        rank_of(stats, a) < rank_of(stats, b),
{
    let above = outranks_at(keys_of(stats));
    lemma_stats_rank_weakly(stats);
    assert(!above(a, b) && !above(b, a));
    lemma_tie_keeps_order(above, stats.len(), a, b);
}

impl LeaderboardEntry {
    /// The snapshot of `stats` that is shown at `rank`.
    pub fn snapshot(stats: &PlayerStats, rank: u32) -> (entry: LeaderboardEntry)
        ensures
            entry@ == entry_of(stats@, rank as nat),
    {
        LeaderboardEntry {
            rank,
            player_id: stats.player_id.clone(),
            total_games: stats.total_games,
            win_rate: stats.win_rate(),
            average_attempts: stats.average_attempts(),
            best_score: if stats.best_score == BEST_SCORE_UNSET {
                0
            } else {
                stats.best_score
            },
            total_score: stats.total_score,
        }
    }
}

/// Decides whether the player with statistics `a` ranks strictly above the
/// player with statistics `b`.
pub fn ranks_above(a: &PlayerStats, b: &PlayerStats) -> (above: bool)
    ensures
        above == outranks(a@.rank_key(), b@.rank_key()),
{
    let rate_a = a.win_rate();
    let rate_b = b.win_rate();
    if rate_b.is_less_than(&rate_a) {
        return true;
    }
    if !rate_a.has_same_value(&rate_b) {
        return false;
    }
    let mean_a = a.average_attempts();
    let mean_b = b.average_attempts();
    if mean_a.is_less_than(&mean_b) {
        return true;
    }
    if !mean_a.has_same_value(&mean_b) {
        return false;
    }
    a.total_score > b.total_score
}

/// Ranks the players: gathers every player's statistics, orders them and
/// numbers the entries from 1.
pub fn rank_players(players: &Vec<PlayerEntry>) -> (board: Vec<LeaderboardEntry>)
    requires
        players@.len() <= u32::MAX,
    ensures
        entry_views(board@) == ranked(stats_of(player_views(players@))),
{
    let ghost stats = stats_of(player_views(players@));
    let ghost keys = keys_of(stats);
    let n: usize = players.len();
    let stands_above = |a: usize, b: usize| -> (r: bool)
        requires
            a < n,
            b < n,
        ensures
            r == outranks(players@[a as int]@.stats.rank_key(), players@[b as int]@.stats.rank_key()),
        { ranks_above(&players[a].stats, &players[b].stats) };
    let order = ranked_positions(n, stands_above, Ghost(outranks_at(keys)));
    let mut board: Vec<LeaderboardEntry> = Vec::new();
    let mut i: usize = 0;
    while i < n
        invariant
            n == players@.len(),
            n <= u32::MAX,
            i <= n,
            order@.len() == n,
            stats == stats_of(player_views(players@)),
            forall|j: int| 0 <= j < n ==> #[trigger] order@[j] < n,
            board@.len() == i,
            forall|j: int|
                0 <= j < i ==> (#[trigger] board@[j])@ == entry_of(
                    stats[order@[j] as int],
                    (j + 1) as nat,
                ),
        decreases n - i,
    {
        let who: usize = order[i];
        let entry = LeaderboardEntry::snapshot(&players[who].stats, (i + 1) as u32);
        board.push(entry);
        i = i + 1;
    }
    proof {
        let goal = ranked(stats);
        assert(entry_views(board@).len() == goal.len());
        assert forall|j: int| 0 <= j < n implies entry_views(board@)[j] == goal[j] by {
            assert(positions(order@)[j] == order@[j] as int);
        }
        assert(entry_views(board@) =~= goal);
    }
    board
}

/// The leaderboard as it was last built, and when that was.
#[derive(Debug)]
pub struct LeaderboardCache {
    entries: Vec<LeaderboardEntry>,
    last_update: u64,
}

/// A [`LeaderboardCache`] as a mathematical value.
pub struct CacheView {
    pub entries: Seq<LeaderboardEntryView>,
    pub last_update: u64,
}

impl CacheView {
    /// The cache that holds nothing.
    pub open spec fn cleared() -> CacheView {
        CacheView { entries: Seq::empty(), last_update: 0 }
    }

    /// The cache right after it was built from `stats` at time `now`.
    pub open spec fn rebuilt(stats: Seq<PlayerStatsView>, now: u64) -> CacheView {
        CacheView { entries: ranked(stats), last_update: now }
    }

    /// Whether a read at time `now` has to rebuild first: the cache is empty,
    /// or older than [`READ_STALENESS_SECONDS`].
    pub open spec fn needs_rebuild(self, now: u64) -> bool {
        self.entries.len() == 0 || now - self.last_update > READ_STALENESS_SECONDS
    }

    /// Whether an accepted record at time `now` drops the cache: it is older
    /// than [`WRITE_STALENESS_SECONDS`].
    pub open spec fn is_outdated(self, now: u64) -> bool {
        now - self.last_update > WRITE_STALENESS_SECONDS
    }

    /// The cache after a read at time `now` over the players `stats`.
    pub open spec fn after_read(self, stats: Seq<PlayerStatsView>, now: u64) -> CacheView {
        if self.needs_rebuild(now) {
            CacheView::rebuilt(stats, now)
        } else {
            self
        }
    }

    /// The cache after a record was accepted at time `now`.
    pub open spec fn after_write(self, now: u64) -> CacheView {
        if self.is_outdated(now) {
            CacheView::cleared()
        } else {
            self
        }
    }

    /// The first `limit` entries, or all of them where there are fewer.
    pub open spec fn top(self, limit: nat) -> Seq<LeaderboardEntryView> {
        if limit < self.entries.len() {
            self.entries.take(limit as int)
        } else {
            self.entries
        }
    }
}

impl View for LeaderboardCache {
    type V = CacheView;

    closed spec fn view(&self) -> CacheView {
        CacheView { entries: entry_views(self.entries@), last_update: self.last_update }
    }
}

impl LeaderboardCache {
    /// A cache that holds nothing.
    pub fn new() -> (cache: LeaderboardCache)
        ensures
            cache@ == CacheView::cleared(),
    {
        let entries: Vec<LeaderboardEntry> = Vec::new();
        assert(entry_views(entries@) =~= Seq::<LeaderboardEntryView>::empty());
        LeaderboardCache { entries, last_update: 0 }
    }

    /// A cache that holds the given entries, built at the given time.
    pub fn from_parts(entries: Vec<LeaderboardEntry>, last_update: u64) -> (cache:
        LeaderboardCache)
        ensures
            cache@ == (CacheView { entries: entry_views(entries@), last_update }),
    {
        LeaderboardCache { entries, last_update }
    }

    /// The entries, in rank order.
    pub fn entries(&self) -> (entries: &Vec<LeaderboardEntry>)
        ensures
            entry_views(entries@) == self@.entries,
    {
        &self.entries
    }

    /// When the cache was last built, in seconds; 0 for a cache that was
    /// never built or was dropped.
    pub fn last_update(&self) -> (seconds: u64)
        ensures
            seconds == self@.last_update,
    {
        self.last_update
    }

    /// The number of entries.
    pub fn len(&self) -> (n: usize)
        ensures
            n == self@.entries.len(),
    {
        self.entries.len()
    }

    /// Builds the leaderboard anew from all players and notes the time. What
    /// was there before is replaced as a whole.
    pub fn rebuild(&mut self, players: &Vec<PlayerEntry>, now: u64)
        requires
            players@.len() <= u32::MAX,
        ensures
            final(self)@ == CacheView::rebuilt(stats_of(player_views(players@)), now),
    {
        self.entries = rank_players(players);
        self.last_update = now;
    }

    /// Rebuilds the leaderboard if a read at time `now` may not use it as it
    /// stands.
    pub fn refresh_for_read(&mut self, players: &Vec<PlayerEntry>, now: u64)
        requires
            players@.len() <= u32::MAX,
        ensures
            final(self)@ == old(self)@.after_read(stats_of(player_views(players@)), now),
    {
        if self.entries.len() == 0 || (now > self.last_update && now - self.last_update
            > READ_STALENESS_SECONDS) {
            self.rebuild(players, now);
        }
    }

    /// Drops the leaderboard if it is too old at time `now`, so that the next
    /// read rebuilds it.
    pub fn invalidate_if_outdated(&mut self, now: u64)
        ensures
            final(self)@ == old(self)@.after_write(now),
    {
        if now > self.last_update && now - self.last_update > WRITE_STALENESS_SECONDS {
            self.entries.clear();
            self.last_update = 0;
            assert(entry_views(self.entries@) =~= Seq::<LeaderboardEntryView>::empty());
        }
    }

    /// Copies of the first `limit` entries, in rank order.
    pub fn top(&self, limit: u32) -> (entries: Vec<LeaderboardEntry>)
        ensures
            entry_views(entries@) == self@.top(limit as nat),
    {
        let n: usize = self.entries.len();
        let count: usize = if (limit as usize) < n {
            limit as usize
        } else {
            n
        };
        let mut entries: Vec<LeaderboardEntry> = Vec::new();
        let mut i: usize = 0;
        while i < count
            invariant
                n == self.entries@.len(),
                count <= n,
                i <= count,
                entries@.len() == i,
                forall|j: int| 0 <= j < i ==> (#[trigger] entries@[j])@ == self.entries@[j]@,
            decreases count - i,
        {
            entries.push(self.entries[i].clone());
            i = i + 1;
        }
        proof {
            assert(entry_views(entries@) =~= self@.top(limit as nat));
        }
        entries
    }
}

} // verus!
