//! The ledger as a whole: one value that owns the record store, the players,
//! the leaderboard and the access rules, and that every call goes through.
//!
//! A call either takes effect completely or leaves the ledger as it was. The
//! host passes in what only it can know: who is calling, what time it is,
//! what was paid and what its storage meter read.

use vstd::prelude::*;
use vstd::string::StringExecFns;
use crate::access::{AccessControl, AccessView};
use crate::error::ContractError;
use crate::event::{GameEvent, GameEventView, event_views};
use crate::leaderboard::{
    CacheView, LeaderboardCache, LeaderboardEntry, LeaderboardEntryView, entry_views,
};
use crate::player::{
    PlayerBook, PlayerEntry, PlayerView, after_record, has_room_for, history_page, id_views,
    player_ids, player_views, players_wf, prior_stats, search_result, stats_for, stats_of,
    total_play_time,
};
use crate::record::{GameRecord, GameRecordView};
use crate::settlement::{Settlement, settle, settlement_of};
use crate::stats::PlayerStats;
use crate::store::{
    RecordStore, lookup, present, purge, purge_count, recent, record_ids, record_views, records_wf,
};

verus! {

/// The most entries a paged query returns.
pub const MAX_PAGE_SIZE: u32 = 100;

/// The page size of a history or of the recent games where none is asked for.
pub const DEFAULT_PAGE_SIZE: u32 = 20;

/// The number of leaderboard entries where none is asked for.
pub const DEFAULT_LEADERBOARD_SIZE: u32 = 10;

/// The storage cost per record that a new ledger starts with.
pub const INITIAL_STORAGE_COST: u128 = 10_000_000_000_000_000_000_000;

/// What the host knows of one call that submits a record.
#[derive(Clone, Copy, Debug, PartialEq, Eq)]
pub struct CallContext {
    /// The payment attached to the call.
    pub attached_deposit: u128,
    /// The storage meter before the call's writes were staged.
    pub storage_before: u64,
    /// The storage meter after the call's writes were staged.
    pub storage_after: u64,
    /// The price of one byte of storage.
    pub storage_byte_cost: u128,
    /// The time of the call, in seconds since the Unix epoch.
    pub now: u64,
}

/// What an accepted record leaves the caller with.
#[derive(Debug, PartialEq, Eq)]
pub struct StoreReceipt {
    /// A confirmation that names the record.
    pub message: String,
    /// The storage fee and the refund.
    pub settlement: Settlement,
    /// The events of the call, in the order in which they are emitted.
    pub events: Vec<GameEvent>,
}

/// A summary of the ledger.
#[derive(Debug, PartialEq, Eq)]
pub struct ContractStats {
    /// Records accepted so far.
    pub total_games: u64,
    /// Players seen so far.
    pub total_players: u64,
    /// Seconds all players spent playing.
    pub total_play_time: u128,
    /// Version of the ledger.
    pub version: String,
    /// The owner.
    pub owner: String,
    /// The host's current storage reading, in bytes.
    pub storage_usage: u64,
}

/// Everything a ledger holds, as plain values: what a host saves between
/// calls and builds the ledger from again.
#[derive(Debug, PartialEq, Eq)]
pub struct ContractSnapshot {
    pub owner_id: String,
    pub admins: Vec<String>,
    pub game_records: Vec<GameRecord>,
    pub players: Vec<PlayerEntry>,
    pub leaderboard_cache: Vec<LeaderboardEntry>,
    pub leaderboard_last_update: u64,
    pub total_games: u64,
    pub version: String,
    pub storage_cost_per_record: u128,
}

impl View for ContractSnapshot {
    type V = ContractView;

    open spec fn view(&self) -> ContractView {
        ContractView {
            owner_id: self.owner_id@,
            admins: id_views(self.admins@),
            game_records: record_views(self.game_records@),
            players: player_views(self.players@),
            leaderboard_cache: entry_views(self.leaderboard_cache@),
            leaderboard_last_update: self.leaderboard_last_update,
            total_games: self.total_games,
            version: self.version@,
            storage_cost_per_record: self.storage_cost_per_record,
        }
    }
}

/// The ledger as a mathematical value.
pub struct ContractView {
    pub owner_id: Seq<char>,
    pub admins: Seq<Seq<char>>,
    pub game_records: Seq<GameRecordView>,
    pub players: Seq<PlayerView>,
    pub leaderboard_cache: Seq<LeaderboardEntryView>,
    pub leaderboard_last_update: u64,
    pub total_games: u64,
    pub version: Seq<char>,
    pub storage_cost_per_record: u128,
}

/// The size of a page: what was asked for, or `default`, and never more
/// than [`MAX_PAGE_SIZE`].
pub open spec fn page_size(limit: Option<u32>, default: u32) -> u32 {
    let wanted = match limit {
        Some(n) => n,
        None => default,
    };
    if wanted < MAX_PAGE_SIZE {
        wanted
    } else {
        MAX_PAGE_SIZE
    }
}

/// The size of a page: what was asked for, or `default`, and never more
/// than [`MAX_PAGE_SIZE`].
pub fn effective_page_size(limit: Option<u32>, default: u32) -> (size: u32)
    ensures
        size == page_size(limit, default),
        size <= MAX_PAGE_SIZE,
{
    let wanted: u32 = match limit {
        Some(n) => n,
        None => default,
    };
    if wanted < MAX_PAGE_SIZE {
        wanted
    } else {
        MAX_PAGE_SIZE
    }
}

impl ContractView {
    /// A new ledger owned by `owner_id`.
    pub open spec fn initial(owner_id: Seq<char>) -> ContractView {
        ContractView {
            owner_id,
            admins: Seq::empty(),
            game_records: Seq::empty(),
            players: Seq::empty(),
            leaderboard_cache: Seq::empty(),
            leaderboard_last_update: 0,
            total_games: 0,
            version: "1.0.0"@,
            storage_cost_per_record: INITIAL_STORAGE_COST,
        }
    }

    /// What holds of every ledger: no record identifier, no player and no
    /// admin is listed twice, every stored record is valid, and every
    /// player's statistics and history are sound.
    pub open spec fn wf(self) -> bool {
        &&& records_wf(self.game_records)
        &&& players_wf(self.players)
        &&& self.admins.no_duplicates()
    }

    /// The access rules of the ledger.
    pub open spec fn access(self) -> AccessView {
        AccessView { owner_id: self.owner_id, admins: self.admins }
    }

    /// The leaderboard cache of the ledger.
    pub open spec fn cache(self) -> CacheView {
        CacheView { entries: self.leaderboard_cache, last_update: self.leaderboard_last_update }
    }

    /// The number of players.
    pub open spec fn total_players(self) -> nat {
        self.players.len()
    }

    /// Whether a record is stored under `game_id`.
    pub open spec fn has_record(self, game_id: Seq<char>) -> bool {
        record_ids(self.game_records).contains(game_id)
    }

    /// Why a submitted record is refused, if it is. The checks run in this
    /// order: the identifier is not empty and not in use; the record has no
    /// other defect; every counter has room; the payment covers the storage
    /// fee.
    pub open spec fn store_refusal(self, record: GameRecordView, call: CallContext) -> Option<
        ContractError,
    > {
        if record.game_id.len() == 0 {
            Some(ContractError::EmptyGameId)
        } else if self.has_record(record.game_id) {
            Some(ContractError::DuplicateGameId)
        } else if record.defect() is Some {
            record.defect()
        } else if self.total_games == u64::MAX || !has_room_for(self.players, record) {
            Some(ContractError::CounterOverflow)
        } else {
            match settlement_of(
                call.attached_deposit,
                call.storage_before,
                call.storage_after,
                call.storage_byte_cost,
            ) {
                Err(e) => Some(e),
                Ok(_) => None,
            }
        }
    }

    /// The ledger after `record` was accepted at time `now`: the record is
    /// stored, the player's history and statistics are advanced, the count of
    /// games goes up by one, and a leaderboard that is too old is dropped.
    pub open spec fn with_record(self, record: GameRecordView, now: u64) -> ContractView {
        let cache = self.cache().after_write(now);
        ContractView {
            game_records: self.game_records.push(record),
            players: after_record(self.players, record),
            total_games: (self.total_games + 1) as u64,
            leaderboard_cache: cache.entries,
            leaderboard_last_update: cache.last_update,
            ..self
        }
    }

    /// The events of an accepted record, in the order in which they are
    /// emitted: those of the update of the statistics, then the notice that
    /// the record was stored.
    pub open spec fn store_events(self, record: GameRecordView) -> Seq<GameEventView> {
        prior_stats(self.players, record.player_id).update_events(record).push(
            GameEventView::GameRecorded {
                game_id: record.game_id,
                player_id: record.player_id,
                success: record.success,
                attempts: record.attempts,
                difficulty: record.difficulty,
            },
        )
    }

    /// The ledger with another admin roster.
    pub open spec fn with_admins(self, admins: Seq<Seq<char>>) -> ContractView {
        ContractView { admins, ..self }
    }

    /// The ledger with another storage cost per record.
    pub open spec fn with_storage_cost(self, cost: u128) -> ContractView {
        ContractView { storage_cost_per_record: cost, ..self }
    }

    /// The ledger with other records in its store.
    pub open spec fn with_records(self, records: Seq<GameRecordView>) -> ContractView {
        ContractView { game_records: records, ..self }
    }

    /// The ledger after a read of the leaderboard at time `now`.
    pub open spec fn after_leaderboard_read(self, now: u64) -> ContractView {
        let cache = self.cache().after_read(stats_of(self.players), now);
        ContractView {
            leaderboard_cache: cache.entries,
            leaderboard_last_update: cache.last_update,
            ..self
        }
    }

    /// The ledger after the leaderboard was rebuilt at time `now`.
    pub open spec fn with_rebuilt_leaderboard(self, now: u64) -> ContractView {
        let cache = CacheView::rebuilt(stats_of(self.players), now);
        ContractView {
            leaderboard_cache: cache.entries,
            leaderboard_last_update: cache.last_update,
            ..self
        }
    }

    /// One page of a player's games, newest insertion first. Identifiers
    /// whose record is no longer stored are passed over.
    pub open spec fn player_games(self, player_id: Seq<char>, from: nat, limit: nat) -> Seq<
        GameRecordView,
    > {
        present(self.game_records, history_page(self.players, player_id, from, limit))
    }
}

/// The ledger.
#[derive(Debug)]
pub struct GuessNumberContract {
    access: AccessControl,
    records: RecordStore,
    players: PlayerBook,
    leaderboard: LeaderboardCache,
    total_games: u64,
    version: String,
    storage_cost_per_record: u128,
}

impl View for GuessNumberContract {
    type V = ContractView;

    closed spec fn view(&self) -> ContractView {
        ContractView {
            owner_id: self.access@.owner_id,
            admins: self.access@.admins,
            game_records: self.records@,
            players: self.players@,
            leaderboard_cache: self.leaderboard@.entries,
            leaderboard_last_update: self.leaderboard@.last_update,
            total_games: self.total_games,
            version: self.version@,
            storage_cost_per_record: self.storage_cost_per_record,
        }
    }
}

impl GuessNumberContract {
    /// A new, empty ledger owned by `owner_id`.
    pub fn new(owner_id: String) -> (contract: GuessNumberContract)
        ensures
            contract@ == ContractView::initial(owner_id@),
    {
        GuessNumberContract {
            access: AccessControl::new(owner_id),
            records: RecordStore::new(),
            players: PlayerBook::new(),
            leaderboard: LeaderboardCache::new(),
            total_games: 0,
            version: String::from_str("1.0.0"),
            storage_cost_per_record: INITIAL_STORAGE_COST,
        }
    }

    /// Everything the ledger holds, as plain values. What holds of every
    /// ledger holds of the copy.
    pub fn snapshot(&self) -> (snapshot: ContractSnapshot)
        ensures
            snapshot@ == self@,
            self@.wf(),
    {
        let admins = self.access.admins().clone();
        let game_records = self.records.records().clone();
        let players = self.players.entries().clone();
        let leaderboard_cache = self.leaderboard.entries().clone();
        proof {
            assert(id_views(admins@) =~= self@.admins);
            assert(record_views(game_records@) =~= self@.game_records);
            assert(player_views(players@) =~= self@.players);
            assert(entry_views(leaderboard_cache@) =~= self@.leaderboard_cache);
        }
        ContractSnapshot {
            owner_id: self.access.owner_id().clone(),
            admins,
            game_records,
            players,
            leaderboard_cache,
            leaderboard_last_update: self.leaderboard.last_update(),
            total_games: self.total_games,
            version: self.version.clone(),
            storage_cost_per_record: self.storage_cost_per_record,
        }
    }

    /// Builds the ledger from saved values. Values that could not be those
    /// of a ledger are refused.
    pub fn restore(snapshot: ContractSnapshot) -> (result: Result<
        GuessNumberContract,
        ContractError,
    >)
        ensures
            result is Ok <==> snapshot@.wf(),
            result matches Ok(contract) ==> contract@ == snapshot@,
            result matches Err(e) ==> e == ContractError::CorruptState,
    {
        let ghost saved = snapshot@;
        let ContractSnapshot {
            owner_id,
            admins,
            game_records,
            players,
            leaderboard_cache,
            leaderboard_last_update,
            total_games,
            version,
            storage_cost_per_record,
        } = snapshot;
        let access = match AccessControl::from_parts(owner_id, admins) {
            Some(access) => access,
            None => {
                return Err(ContractError::CorruptState);
            },
        };
        let records = match RecordStore::from_records(game_records) {
            Some(records) => records,
            None => {
                return Err(ContractError::CorruptState);
            },
        };
        let players = match PlayerBook::from_entries(players) {
            Some(players) => players,
            None => {
                return Err(ContractError::CorruptState);
            },
        };
        let leaderboard = LeaderboardCache::from_parts(leaderboard_cache, leaderboard_last_update);
        let contract = GuessNumberContract {
            access,
            records,
            players,
            leaderboard,
            total_games,
            version,
            storage_cost_per_record,
        };
        assert(contract@ == saved);
        Ok(contract)
    }

    /// The owner.
    pub fn owner_id(&self) -> (owner: &String)
        ensures
            owner@ == self@.owner_id,
    {
        self.access.owner_id()
    }

    /// Records stored at the moment. What holds of every ledger holds of
    /// this one.
    pub fn record_count(&self) -> (n: usize)
        ensures
            n == self@.game_records.len(),
            self@.wf(),
    {
        let _ = self.players.entries();
        let _ = self.access.admins();
        self.records.len()
    }

    /// Records accepted so far.
    pub fn total_games(&self) -> (n: u64)
        ensures
            n == self@.total_games,
    {
        self.total_games
    }

    /// Players seen so far.
    pub fn total_players(&self) -> (n: u64)
        ensures
            n == self@.total_players(),
    {
        self.players.len() as u64
    }

    /// Version of the ledger.
    pub fn version(&self) -> (version: &String)
        ensures
            version@ == self@.version,
    {
        &self.version
    }

    /// The configured storage cost per record.
    pub fn storage_cost_per_record(&self) -> (cost: u128)
        ensures
            cost == self@.storage_cost_per_record,
    {
        self.storage_cost_per_record
    }

    /// When the leaderboard was last built, in seconds.
    pub fn leaderboard_last_update(&self) -> (seconds: u64)
        ensures
            seconds == self@.leaderboard_last_update,
    {
        self.leaderboard.last_update()
    }

    /// Whether `caller` is the owner or an admin.
    pub fn is_admin(&self, caller: &str) -> (yes: bool)
        ensures
            yes == self@.access().is_admin(caller@),
    {
        self.access.is_admin(caller)
    }

    /// Lets the owner pass and refuses everyone else.
    pub fn assert_owner(&self, caller: &str) -> (result: Result<(), ContractError>)
        ensures
            result is Ok <==> self@.access().is_owner(caller@),
            result matches Err(e) ==> e == ContractError::NotOwner,
    {
        self.access.assert_owner(caller)
    }

    /// Lets the owner and the admins pass and refuses everyone else.
    pub fn assert_admin(&self, caller: &str) -> (result: Result<(), ContractError>)
        ensures
            result is Ok <==> self@.access().is_admin(caller@),
            result matches Err(e) ==> e == ContractError::NotAdmin,
    {
        self.access.assert_admin(caller)
    }

    /// Accepts a finished game.
    ///
    /// The record is checked, then its player's statistics are advanced and
    /// the storage fee is settled against the host's two meter readings. Only
    /// when all of that succeeds does anything change: the record is stored,
    /// the player's history and statistics are updated, a leaderboard that is
    /// too old is dropped, and the receipt carries the refund and the events.
    /// A refused call changes nothing and refunds nothing.
    pub fn store_game_record(&mut self, record: GameRecord, call: &CallContext) -> (result: Result<
        StoreReceipt,
        ContractError,
    >)
        ensures
            match result {
                Ok(receipt) => {
                    &&& old(self)@.store_refusal(record@, *call) is None
                    &&& final(self)@ == old(self)@.with_record(record@, call.now)
                    &&& Ok::<Settlement, ContractError>(receipt.settlement) == settlement_of(
                        call.attached_deposit,
                        call.storage_before,
                        call.storage_after,
                        call.storage_byte_cost,
                    )
                    &&& event_views(receipt.events@) == old(self)@.store_events(record@)
                    &&& receipt.message@ == "Game record stored successfully: "@ + record@.game_id
                },
                Err(e) => {
                    &&& old(self)@.store_refusal(record@, *call) == Some(e)
                    &&& final(self)@ == old(self)@
                },
            },
    {
        if record.game_id.as_str().is_empty() {
            return Err(ContractError::EmptyGameId);
        }
        if self.records.contains(record.game_id.as_str()) {
            return Err(ContractError::DuplicateGameId);
        }
        match record.validate() {
            Err(e) => {
                return Err(e);
            },
            Ok(()) => {},
        }
        if self.total_games == u64::MAX || !self.players.has_room_for(&record) {
            return Err(ContractError::CounterOverflow);
        }
        let settlement = match settle(
            call.attached_deposit,
            call.storage_before,
            call.storage_after,
            call.storage_byte_cost,
        ) {
            Err(e) => {
                return Err(e);
            },
            Ok(settlement) => settlement,
        };
        // Every check has passed: from here on the call takes effect.
        let mut events = match self.players.record_game(&record) {
            Err(e) => {
                return Err(e);
            },
            Ok(events) => events,
        };
        let ghost from_stats = event_views(events@);
        let recorded = GameEvent::GameRecorded {
            game_id: record.game_id.clone(),
            player_id: record.player_id.clone(),
            success: record.success,
            attempts: record.attempts,
            difficulty: record.difficulty.clone(),
        };
        proof {
            assert(event_views(events@.push(recorded)) =~= from_stats.push(recorded@));
        }
        events.push(recorded);
        let message = String::from_str("Game record stored successfully: ").concat(
            record.game_id.as_str(),
        );
        match self.records.insert(record) {
            Err(e) => {
                return Err(e);
            },
            Ok(()) => {},
        }
        self.total_games = self.total_games + 1;
        self.leaderboard.invalidate_if_outdated(call.now);
        Ok(StoreReceipt { message, settlement, events })
    }

    /// The statistics of a player. An unknown player is no error.
    pub fn get_player_stats(&self, player_id: &str) -> (found: Option<PlayerStats>)
        ensures
            found is Some == stats_for(self@.players, player_id@) is Some,
            found matches Some(stats) ==> Some(stats@) == stats_for(self@.players, player_id@)
                && stats@.wf(),
    {
        self.players.get_stats(player_id)
    }

    /// One page of a player's games, most recently inserted first.
    ///
    /// The page starts `from_index` games back from the newest insertion
    /// (0 where none is given) and holds up to `limit` games (20 where none
    /// is given, never more than 100). The order is that of insertion, not
    /// that of the timestamps.
    pub fn get_player_games(
        &self,
        player_id: &str,
        from_index: Option<u32>,
        limit: Option<u32>,
    ) -> (games: Vec<GameRecord>)
        ensures
            record_views(games@) == self@.player_games(
                player_id@,
                match from_index {
                    Some(n) => n as nat,
                    None => 0,
                },
                page_size(limit, DEFAULT_PAGE_SIZE) as nat,
            ),
    {
        let from: u32 = match from_index {
            Some(n) => n,
            None => 0,
        };
        let limit: u32 = effective_page_size(limit, DEFAULT_PAGE_SIZE);
        let page = self.players.history_page(player_id, from, limit);
        self.records.get_present(&page)
    }

    /// The first `limit` entries of the leaderboard (10 where none is given,
    /// never more than 100), in rank order.
    ///
    /// The leaderboard is rebuilt from all players first if it is empty or
    /// was built more than [`crate::leaderboard::READ_STALENESS_SECONDS`]
    /// before `now`.
    pub fn get_leaderboard(&mut self, limit: Option<u32>, now: u64) -> (entries: Vec<
        LeaderboardEntry,
    >)
        ensures
            final(self)@ == old(self)@.after_leaderboard_read(now),
            entry_views(entries@) == final(self)@.cache().top(
                page_size(limit, DEFAULT_LEADERBOARD_SIZE) as nat,
            ),
    {
        let limit: u32 = effective_page_size(limit, DEFAULT_LEADERBOARD_SIZE);
        self.leaderboard.refresh_for_read(self.players.entries(), now);
        self.leaderboard.top(limit)
    }

    /// The players whose identity contains `query`, compared without regard
    /// to case; at most 20, in the order in which the ledger first saw them.
    pub fn search_players(&self, query: &str) -> (found: Vec<String>)
        ensures
            id_views(found@) == search_result(player_ids(self@.players), query@),
    {
        self.players.search(query)
    }

    /// A summary of the ledger. The host passes in its current storage
    /// reading.
    pub fn get_contract_stats(&self, storage_usage: u64) -> (stats: ContractStats)
        ensures
            stats.total_games == self@.total_games,
            stats.total_players == self@.total_players(),
            stats.total_play_time == total_play_time(self@.players),
            stats.version@ == self@.version,
            stats.owner@ == self@.owner_id,
            stats.storage_usage == storage_usage,
    {
        ContractStats {
            total_games: self.total_games,
            total_players: self.players.len() as u64,
            total_play_time: self.players.total_play_time(),
            version: self.version.clone(),
            owner: self.access.owner_id().clone(),
            storage_usage,
        }
    }

    /// The record stored under `game_id`. A missing record is no error.
    pub fn get_game_record(&self, game_id: &str) -> (found: Option<GameRecord>)
        ensures
            found is Some == lookup(self@.game_records, game_id@) is Some,
            found matches Some(record) ==> Some(record@) == lookup(self@.game_records, game_id@)
                && record@.is_valid() && record@.game_id == game_id@,
    {
        self.records.get(game_id)
    }

    /// The records stored under the given identifiers, position by position;
    /// `None` where nothing is stored.
    pub fn get_game_records(&self, game_ids: Vec<String>) -> (found: Vec<Option<GameRecord>>)
        ensures
            found@.len() == game_ids@.len(),
            forall|i: int|
                0 <= i < game_ids@.len() ==> (#[trigger] found@[i]) is Some == lookup(
                    self@.game_records,
                    game_ids@[i]@,
                ) is Some,
            forall|i: int|
                0 <= i < game_ids@.len() ==> ((#[trigger] found@[i]) matches Some(record)
                    ==> Some(record@) == lookup(self@.game_records, game_ids@[i]@)),
    {
        self.records.get_many(&game_ids)
    }

    /// The `limit` newest records of all players (20 where none is given,
    /// never more than 100), newest timestamp first.
    pub fn get_recent_games(&self, limit: Option<u32>) -> (games: Vec<GameRecord>)
        ensures
            record_views(games@) == recent(
                self@.game_records,
                page_size(limit, DEFAULT_PAGE_SIZE) as nat,
            ),
    {
        let limit: u32 = effective_page_size(limit, DEFAULT_PAGE_SIZE);
        self.records.recent(limit as usize)
    }

    /// Puts `admin_id` on the admin roster. Only the owner may do so.
    pub fn add_admin(&mut self, caller: &str, admin_id: String) -> (result: Result<
        (),
        ContractError,
    >)
        ensures
            match result {
                Ok(()) => {
                    &&& old(self)@.access().add_refusal(caller@, admin_id@) is None
                    &&& final(self)@ == old(self)@.with_admins(old(self)@.admins.push(admin_id@))
                },
                Err(e) => {
                    &&& old(self)@.access().add_refusal(caller@, admin_id@) == Some(e)
                    &&& final(self)@ == old(self)@
                },
            },
    {
        self.access.add_admin(caller, admin_id)
    }

    /// Takes `admin_id` off the admin roster. Only the owner may do so.
    pub fn remove_admin(&mut self, caller: &str, admin_id: &str) -> (result: Result<
        (),
        ContractError,
    >)
        ensures
            match result {
                Ok(()) => {
                    &&& old(self)@.access().remove_refusal(caller@, admin_id@) is None
                    &&& final(self)@ == old(self)@.with_admins(
                        old(self)@.access().without_admin(admin_id@).admins,
                    )
                },
                Err(e) => {
                    &&& old(self)@.access().remove_refusal(caller@, admin_id@) == Some(e)
                    &&& final(self)@ == old(self)@
                },
            },
    {
        self.access.remove_admin(caller, admin_id)
    }

    /// Sets the storage cost per record. Only the owner may do so.
    pub fn set_storage_cost(&mut self, caller: &str, cost: u128) -> (result: Result<
        (),
        ContractError,
    >)
        ensures
            result is Ok <==> old(self)@.access().is_owner(caller@),
            result is Ok ==> final(self)@ == old(self)@.with_storage_cost(cost),
            result matches Err(e) ==> e == ContractError::NotOwner && final(self)@ == old(self)@,
    {
        match self.access.assert_owner(caller) {
            Err(e) => Err(e),
            Ok(()) => {
                self.storage_cost_per_record = cost;
                Ok(())
            },
        }
    }

    /// Rebuilds the leaderboard at once. The owner and the admins may do so.
    pub fn rebuild_leaderboard_admin(&mut self, caller: &str, now: u64) -> (result: Result<
        (),
        ContractError,
    >)
        ensures
            result is Ok <==> old(self)@.access().is_admin(caller@),
            result is Ok ==> final(self)@ == old(self)@.with_rebuilt_leaderboard(now),
            result matches Err(e) ==> e == ContractError::NotAdmin && final(self)@ == old(self)@,
    {
        match self.access.assert_admin(caller) {
            Err(e) => Err(e),
            Ok(()) => {
                self.leaderboard.rebuild(self.players.entries(), now);
                Ok(())
            },
        }
    }

    /// Takes away up to `limit` records that are older than
    /// `older_than_timestamp`, going through the store in its order, and
    /// returns how many were taken away. The owner and the admins may do so.
    ///
    /// Only the record store shrinks. The players' histories and statistics
    /// stay as they are and may name records that are gone.
    pub fn cleanup_old_records(
        &mut self,
        caller: &str,
        older_than_timestamp: u64,
        limit: u32,
    ) -> (result: Result<u32, ContractError>)
        ensures
            result is Ok <==> old(self)@.access().is_admin(caller@),
            result matches Ok(removed) ==> {
                &&& removed == purge_count(
                    old(self)@.game_records,
                    older_than_timestamp,
                    limit as nat,
                )
                &&& removed <= limit
                &&& final(self)@ == old(self)@.with_records(
                    purge(old(self)@.game_records, older_than_timestamp, limit as nat),
                )
            },
            result matches Err(e) ==> e == ContractError::NotAdmin && final(self)@ == old(self)@,
    {
        match self.access.assert_admin(caller) {
            Err(e) => Err(e),
            Ok(()) => {
                let removed = self.records.remove_older(older_than_timestamp, limit);
                Ok(removed)
            },
        }
    }
}

} // verus!
