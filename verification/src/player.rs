//! What the ledger keeps per player: the statistics and the identifiers of
//! the player's games, in the order in which they were accepted.
//!
//! A player appears with the first accepted record and is never removed.

use vstd::prelude::*;
use crate::error::ContractError;
use crate::event::{GameEvent, event_views};
use crate::lookup::{
    lemma_position_absent, lemma_position_found, lemma_position_of, lemma_push_keeps_unique,
    lemma_unique_by_first_positions, position_of,
};
use crate::record::{GameRecord, GameRecordView};
use crate::stats::{PlayerStats, PlayerStatsView};
use crate::text::{contains_text, lowercase, occurs_in, same_text, to_lowercase};

verus! {

/// The most players a search returns.
pub const MAX_SEARCH_RESULTS: usize = 20;

/// The statistics of one player together with the player's history.
#[derive(Debug, PartialEq, Eq)]
pub struct PlayerEntry {
    /// The running statistics.
    pub stats: PlayerStats,
    /// The identifiers of the player's games, oldest insertion first.
    pub game_ids: Vec<String>,
}

/// A [`PlayerEntry`] as a mathematical value.
pub struct PlayerView {
    pub stats: PlayerStatsView,
    pub game_ids: Seq<Seq<char>>,
}

/// The identifiers of a list, as sequences of characters.
pub open spec fn id_views(ids: Seq<String>) -> Seq<Seq<char>> {
    ids.map_values(|id: String| id@)
}

impl View for PlayerEntry {
    type V = PlayerView;

    open spec fn view(&self) -> PlayerView {
        PlayerView { stats: self.stats@, game_ids: id_views(self.game_ids@) }
    }
}

impl Clone for PlayerEntry {
    fn clone(&self) -> (copy: Self)
        ensures
            copy@ == self@,
    {
        let copy = PlayerEntry { stats: self.stats.clone(), game_ids: self.game_ids.clone() };
        assert(id_views(copy.game_ids@) =~= id_views(self.game_ids@));
        copy
    }
}

impl PlayerEntry {
    /// Whether the entry could be one of the ledger's.
    pub fn is_sound(&self) -> (sound: bool)
        ensures
            sound == self@.wf(),
    {
        self.stats.is_sound() && self.stats.total_games >= 1 && self.game_ids.len()
            == self.stats.total_games as usize
    }
}

/// The players of a list, as mathematical values.
pub open spec fn player_views(players: Seq<PlayerEntry>) -> Seq<PlayerView> {
    players.map_values(|p: PlayerEntry| p@)
}

/// The statistics of the players of a list, in the same order.
pub open spec fn stats_of(players: Seq<PlayerView>) -> Seq<PlayerStatsView> {
    players.map_values(|p: PlayerView| p.stats)
}

/// The identities of the players of a list, in the same order.
pub open spec fn player_ids(players: Seq<PlayerView>) -> Seq<Seq<char>> {
    players.map_values(|p: PlayerView| p.stats.player_id)
}

impl PlayerView {
    /// What holds of every player the ledger keeps: the history has one
    /// identifier per recorded game, and the statistics are sound.
    pub open spec fn wf(self) -> bool {
        &&& self.stats.wf()
        &&& self.stats.total_games >= 1
        &&& self.game_ids.len() == self.stats.total_games
    }

    /// The entry of a player whose first record is `record`.
    pub open spec fn first(record: GameRecordView) -> PlayerView {
        PlayerView {
            stats: PlayerStatsView::fresh(record.player_id).absorb(record),
            game_ids: seq![record.game_id],
        }
    }

    /// The entry after one more record of the player.
    pub open spec fn next(self, record: GameRecordView) -> PlayerView {
        PlayerView {
            stats: self.stats.absorb(record),
            game_ids: self.game_ids.push(record.game_id),
        }
    }
}

/// What holds of the players the ledger keeps: no identity twice, every
/// entry sound, and no more players than a rank can number.
pub open spec fn players_wf(players: Seq<PlayerView>) -> bool {
    &&& player_ids(players).no_duplicates()
    &&& forall|i: int| 0 <= i < players.len() ==> (#[trigger] players[i]).wf()
    &&& players.len() <= u32::MAX
}

/// The statistics kept for `player_id`, if the player is known.
pub open spec fn stats_for(players: Seq<PlayerView>, player_id: Seq<char>) -> Option<
    PlayerStatsView,
> {
    match position_of(player_ids(players), player_id) {
        Some(i) => Some(players[i].stats),
        None => None,
    }
}

/// The statistics that a record of `player_id` is folded into: the ones
/// kept, or fresh ones for a player that is not known yet.
pub open spec fn prior_stats(players: Seq<PlayerView>, player_id: Seq<char>) -> PlayerStatsView {
    match position_of(player_ids(players), player_id) {
        Some(i) => players[i].stats,
        None => PlayerStatsView::fresh(player_id),
    }
}

/// Whether the record can be folded in without a counter overflowing: the
/// player's sums have room for it, or, for a player not known yet, the list
/// of players has room for one more.
pub open spec fn has_room_for(players: Seq<PlayerView>, record: GameRecordView) -> bool {
    match position_of(player_ids(players), record.player_id) {
        Some(i) => players[i].stats.has_room_for(record),
        None => players.len() < u32::MAX,
    }
}

/// The players after the record is folded in: the player's entry is
/// advanced in place, and a player not known yet is added at the end.
pub open spec fn after_record(players: Seq<PlayerView>, record: GameRecordView) -> Seq<
    PlayerView,
> {
    match position_of(player_ids(players), record.player_id) {
        Some(i) => players.update(i, players[i].next(record)),
        None => players.push(PlayerView::first(record)),
    }
}

/// One page of a history, newest insertion first: the identifiers at the
/// positions `from .. from + limit` counted back from the end of `ids`.
pub open spec fn page_of(ids: Seq<Seq<char>>, from: nat, limit: nat) -> Seq<Seq<char>> {
    let total = ids.len();
    let end = if from + limit < total {
        from + limit
    } else {
        total
    };
    if from >= end {
        Seq::empty()
    } else {
        Seq::new((end - from) as nat, |k: int| ids[total - 1 - (from + k)])
    }
}

/// One page of the history of `player_id`; empty for a player that is not
/// known.
pub open spec fn history_page(
    players: Seq<PlayerView>,
    player_id: Seq<char>,
    from: nat,
    limit: nat,
) -> Seq<Seq<char>> {
    match position_of(player_ids(players), player_id) {
        Some(i) => page_of(players[i].game_ids, from, limit),
        None => Seq::empty(),
    }
}

/// The seconds that all players together spent playing.
pub open spec fn total_play_time(players: Seq<PlayerView>) -> nat
    decreases players.len(),
{
    if players.len() == 0 {
        0
    } else {
        total_play_time(players.drop_last()) + players.last().stats.total_time
    }
}

/// Whether a player's identity matches a search: the lowercase query occurs
/// in the lowercase identity.
pub open spec fn name_matches(player_id: Seq<char>, query: Seq<char>) -> bool {
    occurs_in(lowercase(query), lowercase(player_id))
}

/// The identities that match the query, in the order of `ids`.
pub open spec fn matching(ids: Seq<Seq<char>>, query: Seq<char>) -> Seq<Seq<char>>
    decreases ids.len(),
{
    if ids.len() == 0 {
        Seq::empty()
    } else {
        let rest = matching(ids.drop_last(), query);
        if name_matches(ids.last(), query) {
            rest.push(ids.last())
        } else {
            rest
        }
    }
}

/// What a search returns: the first matches, up to [`MAX_SEARCH_RESULTS`].
pub open spec fn search_result(ids: Seq<Seq<char>>, query: Seq<char>) -> Seq<Seq<char>> {
    let all = matching(ids, query);
    if all.len() > MAX_SEARCH_RESULTS {
        all.take(MAX_SEARCH_RESULTS as int)
    } else {
        all
    }
}

/// The matches among the first `i` identities are the first matches among
/// all of them.
pub proof fn lemma_matching_prefix(ids: Seq<Seq<char>>, query: Seq<char>, i: int)
    requires
        0 <= i <= ids.len(),
    ensures
        matching(ids.take(i), query).len() <= matching(ids, query).len(),
        matching(ids, query).take(matching(ids.take(i), query).len() as int) == matching(
            ids.take(i),
            query,
        ),
    decreases ids.len() - i,
{
    if i == ids.len() {
        assert(ids.take(i) =~= ids);
        assert(matching(ids, query).take(matching(ids, query).len() as int) =~= matching(
            ids,
            query,
        ));
    } else {
        lemma_matching_prefix(ids, query, i + 1);
        let shorter = matching(ids.take(i), query);
        let longer = matching(ids.take(i + 1), query);
        assert(ids.take(i + 1).drop_last() =~= ids.take(i));
        assert(longer.take(shorter.len() as int) =~= shorter);
        assert(matching(ids, query).take(shorter.len() as int) =~= matching(ids, query).take(
            longer.len() as int,
        ).take(shorter.len() as int));
    }
}

/// The players and their histories.
#[derive(Debug)]
pub struct PlayerBook {
    players: Vec<PlayerEntry>,
}

impl View for PlayerBook {
    type V = Seq<PlayerView>;

    closed spec fn view(&self) -> Seq<PlayerView> {
        player_views(self.players@)
    }
}

/// Finds the player with the given identity in a list of players.
pub fn find_player(players: &Vec<PlayerEntry>, player_id: &str) -> (found: Option<usize>)
    ensures
        found matches Some(i) ==> position_of(player_ids(player_views(players@)), player_id@)
            == Some(i as int) && i < players@.len(),
        found is None ==> position_of(player_ids(player_views(players@)), player_id@) is None,
{
    let ghost ids = player_ids(player_views(players@));
    let n: usize = players.len();
    let mut i: usize = 0;
    while i < n
        invariant
            n == players@.len(),
            ids == player_ids(player_views(players@)),
            i <= n,
            forall|j: int| 0 <= j < i ==> #[trigger] ids[j] != player_id@,
        decreases n - i,
    {
        proof {
            assert(ids[i as int] == players@[i as int]@.stats.player_id);
        }
        if same_text(players[i].stats.player_id.as_str(), player_id) {
            proof {
                lemma_position_found(ids, player_id@, i as int);
            }
            return Some(i);
        }
        i = i + 1;
    }
    proof {
        lemma_position_absent(ids, player_id@);
    }
    None
}

/// Whether the players could be those of a book.
pub fn are_sound_players(players: &Vec<PlayerEntry>) -> (sound: bool)
    ensures
        sound == players_wf(player_views(players@)),
{
    let ghost views = player_views(players@);
    let ghost ids = player_ids(views);
    let n: usize = players.len();
    if n > 0xffff_ffff {
        return false;
    }
    let mut i: usize = 0;
    proof {
        lemma_unique_by_first_positions(ids);
    }
    while i < n
        invariant
            n == players@.len(),
            n <= u32::MAX,
            views == player_views(players@),
            ids == player_ids(views),
            i <= n,
            forall|j: int| 0 <= j < i ==> position_of(ids, #[trigger] ids[j]) == Some(j),
            forall|j: int| 0 <= j < i ==> (#[trigger] views[j]).wf(),
        decreases n - i,
    {
        proof {
            assert(views[i as int] == players@[i as int]@);
            assert(ids[i as int] == players@[i as int]@.stats.player_id);
            lemma_unique_by_first_positions(ids);
        }
        if !players[i].is_sound() {
            return false;
        }
        match find_player(players, players[i].stats.player_id.as_str()) {
            Some(first) => {
                if first != i {
                    return false;
                }
            },
            None => {
                return false;
            },
        }
        i = i + 1;
    }
    true
}

impl PlayerBook {
    #[verifier::type_invariant]
    spec fn sound(self) -> bool {
        players_wf(player_views(self.players@))
    }

    /// A book without players.
    pub fn new() -> (book: PlayerBook)
        ensures
            book@ == Seq::<PlayerView>::empty(),
    {
        let players: Vec<PlayerEntry> = Vec::new();
        assert(player_views(players@) =~= Seq::<PlayerView>::empty());
        assert(player_ids(player_views(players@)) =~= Seq::<Seq<char>>::empty());
        PlayerBook { players }
    }

    /// A book that holds the given players in their order, unless they
    /// could not be those of a book: an identity twice, an entry that is not
    /// sound, or more players than a rank can number.
    pub fn from_entries(players: Vec<PlayerEntry>) -> (result: Option<PlayerBook>)
        ensures
            result is Some <==> players_wf(player_views(players@)),
            result matches Some(book) ==> book@ == player_views(players@),
    {
        if are_sound_players(&players) {
            Some(PlayerBook { players })
        } else {
            None
        }
    }

    /// The players, in the order in which the ledger first saw them.
    pub fn entries(&self) -> (players: &Vec<PlayerEntry>)
        ensures
            player_views(players@) == self@,
            players_wf(self@),
    {
        proof {
            use_type_invariant(self);
        }
        &self.players
    }

    /// The number of players.
    pub fn len(&self) -> (n: usize)
        ensures
            n == self@.len(),
            n <= u32::MAX,
    {
        proof {
            use_type_invariant(self);
        }
        self.players.len()
    }

    /// The statistics kept for `player_id`. An unknown player is no error.
    pub fn get_stats(&self, player_id: &str) -> (found: Option<PlayerStats>)
        ensures
            found is Some == stats_for(self@, player_id@) is Some,
            found matches Some(stats) ==> Some(stats@) == stats_for(self@, player_id@)
                && stats@.wf(),
    {
        proof {
            use_type_invariant(self);
        }
        match find_player(&self.players, player_id) {
            Some(i) => {
                proof {
                    assert(self@[i as int] == self.players@[i as int]@);
                }
                Some(self.players[i].stats.clone())
            },
            None => None,
        }
    }

    /// Whether the record can be folded in without a counter overflowing.
    pub fn has_room_for(&self, record: &GameRecord) -> (fits: bool)
        ensures
            fits == has_room_for(self@, record@),
    {
        match find_player(&self.players, record.player_id.as_str()) {
            Some(i) => {
                proof {
                    assert(self@[i as int] == self.players@[i as int]@);
                }
                self.players[i].stats.has_room_for(record)
            },
            None => self.players.len() < 0xffff_ffff,
        }
    }

    /// Folds a valid record into the statistics of its player, appends its
    /// identifier to the player's history and returns the events that the
    /// update gives rise to. A player that is not known yet is added.
    ///
    /// A record with a defect is refused, and so is one for which a counter
    /// has no room; the book is then unchanged.
    pub fn record_game(&mut self, record: &GameRecord) -> (result: Result<
        Vec<GameEvent>,
        ContractError,
    >)
        ensures
            result is Ok <==> record@.is_valid() && has_room_for(old(self)@, record@),
            result matches Ok(events) ==> {
                &&& final(self)@ == after_record(old(self)@, record@)
                &&& event_views(events@) == prior_stats(
                    old(self)@,
                    record@.player_id,
                ).update_events(record@)
            },
            result matches Err(e) ==> {
                &&& final(self)@ == old(self)@
                &&& e == if record@.is_valid() {
                    ContractError::CounterOverflow
                } else {
                    record@.defect().unwrap()
                }
            },
    {
        proof {
            use_type_invariant(&*self);
        }
        match record.validate() {
            Err(e) => {
                return Err(e);
            },
            Ok(()) => {},
        }
        let ghost before = self@;
        let ghost ids = player_ids(before);
        match find_player(&self.players, record.player_id.as_str()) {
            Some(i) => {
                proof {
                    assert(before[i as int] == self.players@[i as int]@);
                }
                if !self.players[i].stats.has_room_for(record) {
                    return Err(ContractError::CounterOverflow);
                }
                let mut players: Vec<PlayerEntry> = Vec::new();
                core::mem::swap(&mut self.players, &mut players);
                proof {
                    assert(player_ids(player_views(Seq::<PlayerEntry>::empty())) =~= Seq::<
                        Seq<char>,
                    >::empty());
                }
                let entry = &mut players[i];
                let outcome = entry.stats.update_with_game(record);
                entry.game_ids.push(record.game_id.clone());
                proof {
                    let after = player_views(players@);
                    let goal = after_record(before, record@);
                    assert(id_views(players@[i as int].game_ids@) =~= before[i as int].game_ids.push(
                        record@.game_id,
                    ));
                    assert(after =~= goal);
                    assert(player_ids(after) =~= ids);
                    assert forall|k: int| 0 <= k < after.len() implies (#[trigger] after[k]).wf() by {
                        if k != i {
                            assert(after[k] == before[k]);
                        }
                    }
                }
                self.players = players;
                match outcome {
                    Ok(events) => Ok(events),
                    Err(e) => Err(e),
                }
            },
            None => {
                if self.players.len() >= 0xffff_ffff {
                    return Err(ContractError::CounterOverflow);
                }
                let mut stats = PlayerStats::new(record.player_id.clone());
                let outcome = stats.update_with_game(record);
                let mut game_ids: Vec<String> = Vec::new();
                game_ids.push(record.game_id.clone());
                let entry = PlayerEntry { stats, game_ids };
                let mut players: Vec<PlayerEntry> = Vec::new();
                core::mem::swap(&mut self.players, &mut players);
                proof {
                    assert(player_ids(player_views(Seq::<PlayerEntry>::empty())) =~= Seq::<
                        Seq<char>,
                    >::empty());
                    assert(id_views(entry.game_ids@) =~= seq![record@.game_id]);
                    assert(entry@ == PlayerView::first(record@));
                    lemma_position_of(ids, record@.player_id);
                    lemma_push_keeps_unique(ids, record@.player_id);
                    let after = player_views(players@.push(entry));
                    assert(after =~= before.push(entry@));
                    assert(player_ids(after) =~= ids.push(record@.player_id));
                    assert forall|k: int| 0 <= k < after.len() implies (#[trigger] after[k]).wf() by {
                        if k < before.len() {
                            assert(after[k] == before[k]);
                        }
                    }
                }
                players.push(entry);
                self.players = players;
                match outcome {
                    Ok(events) => Ok(events),
                    Err(e) => Err(e),
                }
            },
        }
    }

    /// One page of the history of `player_id`: the identifiers of the
    /// player's games from the `from`-th newest insertion on, at most `limit`
    /// of them, newest insertion first.
    pub fn history_page(&self, player_id: &str, from: u32, limit: u32) -> (page: Vec<String>)
        ensures
            id_views(page@) == history_page(self@, player_id@, from as nat, limit as nat),
    {
        let mut page: Vec<String> = Vec::new();
        proof {
            assert(id_views(page@) =~= Seq::<Seq<char>>::empty());
        }
        match find_player(&self.players, player_id) {
            None => page,
            Some(i) => {
                proof {
                    assert(self@[i as int] == self.players@[i as int]@);
                }
                let ids = &self.players[i].game_ids;
                let ghost views = id_views(ids@);
                let total: usize = ids.len();
                let from: usize = from as usize;
                let wanted: u64 = from as u64 + limit as u64;
                let end: usize = if wanted < total as u64 {
                    wanted as usize
                } else {
                    total
                };
                if from >= end {
                    return page;
                }
                let mut k: usize = from;
                while k < end
                    invariant
                        from <= k <= end <= total,
                        total == ids@.len(),
                        views == id_views(ids@),
                        page@.len() == k - from,
                        forall|j: int|
                            0 <= j < k - from ==> (#[trigger] page@[j])@ == views[total - 1 - (from
                                + j)],
                    decreases end - k,
                {
                    page.push(ids[total - 1 - k].clone());
                    k = k + 1;
                }
                proof {
                    assert(id_views(page@) =~= page_of(views, from as nat, limit as nat));
                }
                page
            },
        }
    }

    /// The seconds that all players together spent playing.
    pub fn total_play_time(&self) -> (seconds: u128)
        ensures
            seconds == total_play_time(self@),
    {
        proof {
            use_type_invariant(self);
        }
        let n: usize = self.players.len();
        let mut seconds: u128 = 0;
        let mut i: usize = 0;
        proof {
            assert(self@.take(0) =~= Seq::<PlayerView>::empty());
        }
        while i < n
            invariant
                n == self.players@.len(),
                n <= u32::MAX,
                i <= n,
                seconds == total_play_time(self@.take(i as int)),
                seconds <= i * u64::MAX,
            decreases n - i,
        {
            proof {
                let next = self@.take(i + 1);
                assert(next.drop_last() =~= self@.take(i as int));
                assert(next.last() == self.players@[i as int]@);
                assert((i + 1) * u64::MAX == i * u64::MAX + u64::MAX) by (nonlinear_arith);
                assert(i * u64::MAX <= 0xffff_ffff * u64::MAX) by (nonlinear_arith)
                    requires
                        i <= 0xffff_ffff,
                ;
            }
            seconds = seconds + self.players[i].stats.total_time as u128;
            i = i + 1;
        }
        proof {
            assert(self@.take(n as int) =~= self@);
        }
        seconds
    }

    /// The identities that contain `query`, compared without regard to case,
    /// in the order in which the ledger first saw them, at most
    /// [`MAX_SEARCH_RESULTS`] of them.
    pub fn search(&self, query: &str) -> (found: Vec<String>)
        ensures
            id_views(found@) == search_result(player_ids(self@), query@),
    {
        let ghost ids = player_ids(self@);
        let needle = to_lowercase(query);
        let n: usize = self.players.len();
        let mut found: Vec<String> = Vec::new();
        let mut i: usize = 0;
        proof {
            assert(ids.take(0) =~= Seq::<Seq<char>>::empty());
            assert(id_views(found@) =~= Seq::<Seq<char>>::empty());
        }
        while i < n && found.len() < MAX_SEARCH_RESULTS
            invariant
                n == self.players@.len(),
                ids == player_ids(self@),
                needle@ == lowercase(query@),
                i <= n,
                found@.len() <= MAX_SEARCH_RESULTS,
                id_views(found@) == matching(ids.take(i as int), query@),
            decreases n - i,
        {
            let ghost before = id_views(found@);
            proof {
                let next = ids.take(i + 1);
                assert(next.drop_last() =~= ids.take(i as int));
                assert(next.last() == self.players@[i as int]@.stats.player_id);
            }
            let name = to_lowercase(self.players[i].stats.player_id.as_str());
            if contains_text(name.as_str(), needle.as_str()) {
                let hit = self.players[i].stats.player_id.clone();
                proof {
                    assert(id_views(found@.push(hit)) =~= before.push(hit@));
                }
                found.push(hit);
            }
            i = i + 1;
        }
        proof {
            lemma_matching_prefix(ids, query@, i as int);
            if i == n {
                assert(ids.take(i as int) =~= ids);
            } else {
                let all = matching(ids, query@);
                assert(found@.len() == MAX_SEARCH_RESULTS);
                if all.len() == MAX_SEARCH_RESULTS {
                    assert(all.take(MAX_SEARCH_RESULTS as int) =~= all);
                }
            }
        }
        found
    }
}

} // verus!
