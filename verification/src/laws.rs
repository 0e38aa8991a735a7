//! What follows for the ledger as a whole from the rules of its parts.

use vstd::prelude::*;
use crate::contract::{CallContext, ContractView};
use crate::error::ContractError;
use crate::lookup::{
    is_first_position, lemma_position_found, lemma_position_of, lemma_push_keeps_unique,
    position_of,
};
use crate::player::{
    PlayerView, after_record, history_page, page_of, player_ids, prior_stats, stats_for,
};
use crate::record::GameRecordView;
use crate::settlement::{required_cost, settlement_of};
use crate::stats::{PlayerStatsView, lemma_absorb_keeps_sound};
use crate::store::{lemma_purge_keeps_the_rest, lookup, present, purge, record_ids, records_wf};

verus! {

/// Appending to a list of identifiers leaves every identifier that was there
/// at its place, and the new one is found at the end if it was not there.
pub proof fn lemma_position_after_push(ids: Seq<Seq<char>>, new: Seq<char>, id: Seq<char>)
    ensures
        ids.contains(id) ==> position_of(ids.push(new), id) == position_of(ids, id),
        !ids.contains(id) && id != new ==> position_of(ids.push(new), id) is None,
        !ids.contains(new) ==> position_of(ids.push(new), new) == Some(ids.len() as int),
{
    let grown = ids.push(new);
    lemma_position_of(ids, id);
    lemma_position_of(grown, id);
    if ids.contains(id) {
        let i = position_of(ids, id).unwrap();
        assert(is_first_position(grown, id, i)) by {
            assert(grown[i] == ids[i]);
            assert forall|j: int| 0 <= j < i implies #[trigger] grown[j] != id by {
                assert(grown[j] == ids[j]);
            }
        }
        lemma_position_found(grown, id, i);
    } else if id != new {
        if grown.contains(id) {
            let j = choose|j: int| 0 <= j < grown.len() && grown[j] == id;
            if j < ids.len() {
                assert(ids[j] == id);
            }
        }
    }
    if !ids.contains(new) {
        lemma_position_of(ids, new);
        assert(is_first_position(grown, new, ids.len() as int)) by {
            assert forall|j: int| 0 <= j < ids.len() implies #[trigger] grown[j] != new by {
                assert(grown[j] == ids[j]);
            }
        }
        lemma_position_found(grown, new, ids.len() as int);
    }
}

/// An accepted record can be looked up under its identifier from then on.
pub proof fn lemma_accepted_record_is_stored(ledger: ContractView, record: GameRecordView, now: u64)
    requires
        !ledger.has_record(record.game_id),
    ensures
        lookup(ledger.with_record(record, now).game_records, record.game_id) == Some(record),
{
    let before = ledger.game_records;
    let after = before.push(record);
    assert(record_ids(after) =~= record_ids(before).push(record.game_id));
    lemma_position_after_push(record_ids(before), record.game_id, record.game_id);
}

/// Accepting a record changes no record that is stored already: what is
/// found under any other identifier is what was found before.
pub proof fn lemma_stored_records_stay(
    ledger: ContractView,
    record: GameRecordView,
    now: u64,
    other: Seq<char>,
)
    requires
        other != record.game_id,
    ensures
        lookup(ledger.with_record(record, now).game_records, other) == lookup(
            ledger.game_records,
            other,
        ),
{
    let before = ledger.game_records;
    let after = before.push(record);
    assert(record_ids(after) =~= record_ids(before).push(record.game_id));
    lemma_position_after_push(record_ids(before), record.game_id, other);
    lemma_position_of(record_ids(before), other);
    if record_ids(before).contains(other) {
        let i = position_of(record_ids(before), other).unwrap();
        assert(after[i] == before[i]);
    }
}

/// An identifier is accepted once: after a record was accepted, a second
/// record with the same identifier is refused as a duplicate, whoever sends
/// it and whatever it holds, and so the ledger stays as the first call left
/// it.
pub proof fn lemma_second_insert_is_refused(
    ledger: ContractView,
    first: GameRecordView,
    call: CallContext,
    second: GameRecordView,
    again: CallContext,
)
    requires
        ledger.store_refusal(first, call) is None,
        second.game_id == first.game_id,
    ensures
        ledger.with_record(first, call.now).store_refusal(second, again) == Some(
            ContractError::DuplicateGameId,
        ),
{
    let after = ledger.with_record(first, call.now);
    let ids = record_ids(after.game_records);
    assert(ids =~= record_ids(ledger.game_records).push(first.game_id));
    assert(ids[ids.len() - 1] == first.game_id);
    assert(ids.contains(second.game_id));
}

/// A call that attaches less than the storage fee is refused, whatever the
/// record: nothing is stored and nothing is refunded.
pub proof fn lemma_underpaid_call_is_refused(
    ledger: ContractView,
    record: GameRecordView,
    call: CallContext,
)
    requires
        call.storage_before <= call.storage_after,
        call.attached_deposit < required_cost(
            call.storage_before,
            call.storage_after,
            call.storage_byte_cost,
        ),
    ensures
        ledger.store_refusal(record, call) is Some,
        settlement_of(
            call.attached_deposit,
            call.storage_before,
            call.storage_after,
            call.storage_byte_cost,
        ) is Err,
{
}

/// A call that is accepted is charged the storage fee exactly, and what it
/// attached beyond the fee is refunded.
pub proof fn lemma_accepted_call_is_charged_the_fee(
    ledger: ContractView,
    record: GameRecordView,
    call: CallContext,
)
    requires
        ledger.store_refusal(record, call) is None,
    ensures
        settlement_of(
            call.attached_deposit,
            call.storage_before,
            call.storage_after,
            call.storage_byte_cost,
        ) matches Ok(s) && s.required == required_cost(
            call.storage_before,
            call.storage_after,
            call.storage_byte_cost,
        ) && s.refund == call.attached_deposit - s.required,
{
}

/// Accepting a record keeps the ledger sound: identifiers stay unique, every
/// stored record is valid, and every player's statistics and history stay
/// sound.
pub proof fn lemma_accepting_keeps_the_ledger_sound(
    ledger: ContractView,
    record: GameRecordView,
    call: CallContext,
)
    requires
        ledger.wf(),
        ledger.store_refusal(record, call) is None,
    ensures
        ledger.with_record(record, call.now).wf(),
{
    let after = ledger.with_record(record, call.now);
    crate::record::lemma_valid_iff_no_defect(record);
    // the record store
    let records = ledger.game_records;
    lemma_push_keeps_unique(record_ids(records), record.game_id);
    assert(record_ids(records.push(record)) =~= record_ids(records).push(record.game_id));
    assert forall|i: int| 0 <= i < after.game_records.len() implies (
    #[trigger] after.game_records[i]).is_valid() by {
        if i < records.len() {
            assert(after.game_records[i] == records[i]);
        }
    }
    // the players
    let players = ledger.players;
    let ids = player_ids(players);
    lemma_position_of(ids, record.player_id);
    match position_of(ids, record.player_id) {
        Some(k) => {
            assert(player_ids(after.players) =~= ids);
            lemma_absorb_keeps_sound(players[k].stats, record);
            assert forall|i: int| 0 <= i < after.players.len() implies (
            #[trigger] after.players[i]).wf() by {
                if i != k {
                    assert(after.players[i] == players[i]);
                }
            }
        },
        None => {
            assert(player_ids(after.players) =~= ids.push(record.player_id));
            lemma_push_keeps_unique(ids, record.player_id);
            lemma_absorb_keeps_sound(PlayerStatsView::fresh(record.player_id), record);
            assert forall|i: int| 0 <= i < after.players.len() implies (
            #[trigger] after.players[i]).wf() by {
                if i < players.len() {
                    assert(after.players[i] == players[i]);
                }
            }
        },
    }
}

/// A cleanup keeps the record store sound: what is left has no identifier
/// twice and no record with a defect.
pub proof fn lemma_cleanup_keeps_the_store_sound(
    records: Seq<GameRecordView>,
    older_than: u64,
    limit: nat,
)
    requires
        records_wf(records),
    ensures
        records_wf(purge(records, older_than, limit)),
    decreases records.len(),
{
    if records.len() == 0 || limit == 0 {
    } else {
        let rest = records.drop_first();
        assert(record_ids(rest) =~= record_ids(records).drop_first());
        assert forall|i: int| 0 <= i < rest.len() implies (#[trigger] rest[i]).is_valid() by {
            assert(rest[i] == records[i + 1]);
        }
        assert(record_ids(rest).no_duplicates()) by {
            assert forall|a: int, b: int|
                0 <= a < rest.len() && 0 <= b < rest.len() && a != b implies record_ids(rest)[a]
                != record_ids(rest)[b] by {
                assert(record_ids(rest)[a] == record_ids(records)[a + 1]);
                assert(record_ids(rest)[b] == record_ids(records)[b + 1]);
            }
        }
        if records[0].timestamp < older_than {
            lemma_cleanup_keeps_the_store_sound(rest, older_than, (limit - 1) as nat);
        } else {
            lemma_cleanup_keeps_the_store_sound(rest, older_than, limit);
            let kept = purge(rest, older_than, limit);
            let left = purge(records, older_than, limit);
            assert(left =~= seq![records[0]] + kept);
            if rest.len() > 0 {
                lemma_purge_keeps_the_rest(rest, older_than, limit, 0);
            }
            assert forall|i: int| 0 <= i < left.len() implies (#[trigger] left[i]).is_valid() by {
                if i > 0 {
                    assert(left[i] == kept[i - 1]);
                }
            }
            assert forall|a: int, b: int|
                0 <= a < left.len() && 0 <= b < left.len() && a != b implies record_ids(left)[a]
                != record_ids(left)[b] by {
                if a > 0 && b > 0 {
                    assert(record_ids(left)[a] == record_ids(kept)[a - 1]);
                    assert(record_ids(left)[b] == record_ids(kept)[b - 1]);
                } else {
                    let other = if a == 0 {
                        b
                    } else {
                        a
                    };
                    assert(left[other] == kept[other - 1]);
                    assert(kept.contains(kept[other - 1]));
                    assert(rest.contains(kept[other - 1]));
                    let m = choose|m: int| 0 <= m < rest.len() && rest[m] == kept[other - 1];
                    assert(record_ids(records)[m + 1] == rest[m].game_id);
                    assert(record_ids(records)[0] == records[0].game_id);
                }
            }
        }
    }
}

/// After a record is folded in, its player's statistics are the earlier ones
/// with the record absorbed, and every other player's statistics are what
/// they were.
pub proof fn lemma_only_the_player_changes(
    players: Seq<PlayerView>,
    record: GameRecordView,
    other: Seq<char>,
)
    requires
        other != record.player_id,
    ensures
        stats_for(after_record(players, record), record.player_id) == Some(
            prior_stats(players, record.player_id).absorb(record),
        ),
        stats_for(after_record(players, record), other) == stats_for(players, other),
{
    let ids = player_ids(players);
    let after = after_record(players, record);
    lemma_position_of(ids, record.player_id);
    lemma_position_of(ids, other);
    match position_of(ids, record.player_id) {
        Some(i) => {
            assert(player_ids(after) =~= ids);
            if ids.contains(other) {
                let k = position_of(ids, other).unwrap();
                assert(after[k] == players[k]);
            }
        },
        None => {
            assert(player_ids(after) =~= ids.push(record.player_id));
            lemma_position_after_push(ids, record.player_id, record.player_id);
            lemma_position_after_push(ids, record.player_id, other);
            if ids.contains(other) {
                let k = position_of(ids, other).unwrap();
                assert(after[k] == players[k]);
            }
        },
    }
}

/// The first page of a player's history starts with the record that was
/// accepted last, whatever its timestamp.
pub proof fn lemma_newest_insertion_comes_first(
    ledger: ContractView,
    record: GameRecordView,
    now: u64,
    limit: nat,
)
    requires
        !ledger.has_record(record.game_id),
        limit >= 1,
    ensures
        ledger.with_record(record, now).player_games(record.player_id, 0, limit).len() >= 1,
        ledger.with_record(record, now).player_games(record.player_id, 0, limit)[0] == record,
        ledger.with_record(record, now).player_games(record.player_id, 0, 1) == seq![record],
{
    let players = ledger.players;
    let ids = player_ids(players);
    let after = ledger.with_record(record, now);
    lemma_position_of(ids, record.player_id);
    let history: Seq<Seq<char>> = match position_of(ids, record.player_id) {
        Some(i) => {
            assert(player_ids(after.players) =~= ids);
            players[i].game_ids.push(record.game_id)
        },
        None => {
            assert(player_ids(after.players) =~= ids.push(record.player_id));
            lemma_position_after_push(ids, record.player_id, record.player_id);
            seq![record.game_id]
        },
    };
    assert(history_page(after.players, record.player_id, 0, limit) == page_of(history, 0, limit));
    let page = page_of(history, 0, limit);
    assert(page.len() >= 1);
    assert(page[0] == record.game_id);
    lemma_accepted_record_is_stored(ledger, record, now);
    lemma_first_present(after.game_records, page);
    let single = page_of(history, 0, 1);
    assert(single =~= seq![record.game_id]);
    lemma_first_present(after.game_records, single);
    let none = single.drop_last();
    assert(none.len() == 0);
    assert(present(after.game_records, none).len() == 0);
    assert(present(after.game_records, single) =~= seq![record]);
}

/// Where the first identifier of a list is stored, its record is the first
/// of the records found.
proof fn lemma_first_present(records: Seq<GameRecordView>, ids: Seq<Seq<char>>)
    requires
        ids.len() >= 1,
        lookup(records, ids[0]) is Some,
    ensures
        present(records, ids).len() >= 1,
        present(records, ids)[0] == lookup(records, ids[0]).unwrap(),
    decreases ids.len(),
{
    if ids.len() == 1 {
        let none = ids.drop_last();
        assert(none.len() == 0);
        assert(present(records, none).len() == 0);
        assert(ids.last() == ids[0]);
    } else {
        let rest = ids.drop_last();
        assert(rest[0] == ids[0]);
        lemma_first_present(records, rest);
    }
}

} // verus!
