//! The record store: every accepted record under its identifier.
//!
//! Records are only ever appended, and an identifier is never used twice.
//! The one operation that takes records away is the bounded cleanup that an
//! admin may ask for.

use vstd::prelude::*;
use crate::error::ContractError;
use crate::lookup::{
    lemma_position_absent, lemma_position_found, lemma_position_of, lemma_push_keeps_unique,
    lemma_unique_by_first_positions, position_of,
};
use crate::ranking::{is_weak_order, lemma_ranking, positions, ranked_positions, ranking};
use crate::record::{GameRecord, GameRecordView};
use crate::text::same_text;

verus! {

/// The records of a list, as mathematical values.
pub open spec fn record_views(records: Seq<GameRecord>) -> Seq<GameRecordView> {
    records.map_values(|r: GameRecord| r@)
}

/// The identifiers of the records of a list, in the same order.
pub open spec fn record_ids(records: Seq<GameRecordView>) -> Seq<Seq<char>> {
    records.map_values(|r: GameRecordView| r.game_id)
}

/// What holds of the records of a store: no identifier twice, and no record
/// with a defect.
pub open spec fn records_wf(records: Seq<GameRecordView>) -> bool {
    &&& record_ids(records).no_duplicates()
    &&& forall|i: int| 0 <= i < records.len() ==> (#[trigger] records[i]).is_valid()
}

/// The record stored under `game_id`, if there is one.
pub open spec fn lookup(records: Seq<GameRecordView>, game_id: Seq<char>) -> Option<
    GameRecordView,
> {
    match position_of(record_ids(records), game_id) {
        Some(i) => Some(records[i]),
        None => None,
    }
}

/// The records stored under the given identifiers, in the order of the
/// identifiers; an identifier under which nothing is stored is passed over.
pub open spec fn present(records: Seq<GameRecordView>, ids: Seq<Seq<char>>) -> Seq<
    GameRecordView,
>
    decreases ids.len(),
{
    if ids.len() == 0 {
        Seq::empty()
    } else {
        let rest = present(records, ids.drop_last());
        match lookup(records, ids.last()) {
            Some(record) => rest.push(record),
            None => rest,
        }
    }
}

/// "Is newer than" for the records at two positions.
pub open spec fn newer_at(records: Seq<GameRecordView>) -> spec_fn(int, int) -> bool {
    |a: int, b: int| records[a].timestamp > records[b].timestamp
}

/// The `limit` newest records, newest first; records with the same timestamp
/// stand in the order in which they are stored.
pub open spec fn recent(records: Seq<GameRecordView>, limit: nat) -> Seq<GameRecordView> {
    let order = ranking(newer_at(records), records.len());
    let count = if limit < records.len() {
        limit
    } else {
        records.len()
    };
    Seq::new(count, |i: int| records[order[i]])
}

/// The records that are left when, going through them in stored order, up to
/// `limit` records older than `older_than` are taken away.
pub open spec fn purge(records: Seq<GameRecordView>, older_than: u64, limit: nat) -> Seq<
    GameRecordView,
>
    decreases records.len(),
{
    if records.len() == 0 || limit == 0 {
        records
    } else if records[0].timestamp < older_than {
        purge(records.drop_first(), older_than, (limit - 1) as nat)
    } else {
        seq![records[0]] + purge(records.drop_first(), older_than, limit)
    }
}

/// How many records [`purge`] takes away.
pub open spec fn purge_count(records: Seq<GameRecordView>, older_than: u64, limit: nat) -> nat
    decreases records.len(),
{
    if records.len() == 0 || limit == 0 {
        0
    } else if records[0].timestamp < older_than {
        1 + purge_count(records.drop_first(), older_than, (limit - 1) as nat)
    } else {
        purge_count(records.drop_first(), older_than, limit)
    }
}

/// How many records are older than `older_than`.
pub open spec fn count_older(records: Seq<GameRecordView>, older_than: u64) -> nat
    decreases records.len(),
{
    if records.len() == 0 {
        0
    } else if records[0].timestamp < older_than {
        1 + count_older(records.drop_first(), older_than)
    } else {
        count_older(records.drop_first(), older_than)
    }
}

/// A cleanup takes away as many records as are old enough, but never more
/// than its limit, and what it leaves and what it takes are together what
/// was there.
pub proof fn lemma_purge_is_bounded(records: Seq<GameRecordView>, older_than: u64, limit: nat)
    ensures
        purge_count(records, older_than, limit) <= limit,
        purge_count(records, older_than, limit) == if count_older(records, older_than) < limit {
            count_older(records, older_than)
        } else {
            limit
        },
        purge(records, older_than, limit).len() + purge_count(records, older_than, limit)
            == records.len(),
    decreases records.len(),
{
    if records.len() == 0 || limit == 0 {
    } else if records[0].timestamp < older_than {
        lemma_purge_is_bounded(records.drop_first(), older_than, (limit - 1) as nat);
    } else {
        lemma_purge_is_bounded(records.drop_first(), older_than, limit);
    }
}

/// A cleanup only takes away records that are old enough: every record that
/// is not older than the threshold is still there, and whatever is left was
/// there before, under the same identifier.
pub proof fn lemma_purge_keeps_the_rest(
    records: Seq<GameRecordView>,
    older_than: u64,
    limit: nat,
    i: int,
)
    requires
        0 <= i < records.len(),
    ensures
        records[i].timestamp >= older_than ==> purge(records, older_than, limit).contains(
            records[i],
        ),
        forall|r: GameRecordView| #[trigger]
            purge(records, older_than, limit).contains(r) ==> records.contains(r),
    decreases records.len(),
{
    let left = purge(records, older_than, limit);
    let rest = records.drop_first();
    if limit == 0 {
        assert(left[i] == records[i]);
    } else if records[0].timestamp < older_than {
        let sub = purge(rest, older_than, (limit - 1) as nat);
        if i > 0 {
            lemma_purge_keeps_the_rest(rest, older_than, (limit - 1) as nat, i - 1);
            assert(rest[i - 1] == records[i]);
        } else if rest.len() > 0 {
            lemma_purge_keeps_the_rest(rest, older_than, (limit - 1) as nat, 0);
        }
        assert forall|r: GameRecordView| #[trigger] left.contains(r) implies records.contains(
            r,
        ) by {
            if rest.len() > 0 {
                assert(rest.contains(r));
                let j = choose|j: int| 0 <= j < rest.len() && rest[j] == r;
                assert(records[j + 1] == r);
            }
        }
    } else {
        let sub = purge(rest, older_than, limit);
        if i > 0 {
            lemma_purge_keeps_the_rest(rest, older_than, limit, i - 1);
            assert(rest[i - 1] == records[i]);
            if records[i].timestamp >= older_than {
                let j = choose|j: int| 0 <= j < sub.len() && sub[j] == records[i];
                assert(left[j + 1] == records[i]);
            }
        } else {
            assert(left[0] == records[0]);
            if rest.len() > 0 {
                lemma_purge_keeps_the_rest(rest, older_than, limit, 0);
            }
        }
        assert forall|r: GameRecordView| #[trigger] left.contains(r) implies records.contains(
            r,
        ) by {
            let j = choose|j: int| 0 <= j < left.len() && left[j] == r;
            if j == 0 {
                assert(records[0] == r);
            } else {
                assert(sub[j - 1] == r);
                assert(sub.contains(r));
                assert(rest.contains(r));
                let m = choose|m: int| 0 <= m < rest.len() && rest[m] == r;
                assert(records[m + 1] == r);
            }
        }
    }
}

/// The newest records come first: no listed record is newer than one listed
/// before it, and every record that is left out is at most as new as the
/// last one listed.
pub proof fn lemma_recent_is_newest_first(records: Seq<GameRecordView>, limit: nat, i: int, j: int)
    requires
        0 <= i < j < recent(records, limit).len(),
    ensures
        recent(records, limit)[i].timestamp >= recent(records, limit)[j].timestamp,
        recent(records, limit).len() == if limit < records.len() {
            limit
        } else {
            records.len()
        },
        records.contains(recent(records, limit)[i]),
{
    lemma_newer_is_weak_order(records);
    lemma_ranking(newer_at(records), records.len());
    let order = ranking(newer_at(records), records.len());
    assert(!newer_at(records)(order[j], order[i]));
    assert(0 <= order[i] < records.len());
}

/// "Is newer than" is a strict weak order.
pub proof fn lemma_newer_is_weak_order(records: Seq<GameRecordView>)
    ensures
        is_weak_order(newer_at(records), records.len()),
{
}

/// The set of stored records.
#[derive(Debug)]
pub struct RecordStore {
    records: Vec<GameRecord>,
}

impl View for RecordStore {
    type V = Seq<GameRecordView>;

    closed spec fn view(&self) -> Seq<GameRecordView> {
        record_views(self.records@)
    }
}

/// Finds the record with the given identifier in a list of records.
pub fn find_record(records: &Vec<GameRecord>, game_id: &str) -> (found: Option<usize>)
    ensures
        found matches Some(i) ==> position_of(record_ids(record_views(records@)), game_id@)
            == Some(i as int) && i < records@.len(),
        found is None ==> position_of(record_ids(record_views(records@)), game_id@) is None,
{
    let ghost ids = record_ids(record_views(records@));
    let n: usize = records.len();
    let mut i: usize = 0;
    while i < n
        invariant
            n == records@.len(),
            ids == record_ids(record_views(records@)),
            i <= n,
            forall|j: int| 0 <= j < i ==> #[trigger] ids[j] != game_id@,
        decreases n - i,
    {
        proof {
            assert(ids[i as int] == records@[i as int]@.game_id);
        }
        if same_text(records[i].game_id.as_str(), game_id) {
            proof {
                lemma_position_found(ids, game_id@, i as int);
            }
            return Some(i);
        }
        i = i + 1;
    }
    proof {
        lemma_position_absent(ids, game_id@);
    }
    None
}

/// Whether the records could be those of a store: no identifier twice and
/// no record with a defect.
pub fn are_sound_records(records: &Vec<GameRecord>) -> (sound: bool)
    ensures
        sound == records_wf(record_views(records@)),
{
    let ghost views = record_views(records@);
    let ghost ids = record_ids(views);
    let n: usize = records.len();
    let mut i: usize = 0;
    proof {
        lemma_unique_by_first_positions(ids);
    }
    while i < n
        invariant
            n == records@.len(),
            views == record_views(records@),
            ids == record_ids(views),
            i <= n,
            forall|j: int| 0 <= j < i ==> position_of(ids, #[trigger] ids[j]) == Some(j),
            forall|j: int| 0 <= j < i ==> (#[trigger] views[j]).is_valid(),
        decreases n - i,
    {
        proof {
            assert(views[i as int] == records@[i as int]@);
            assert(ids[i as int] == records@[i as int]@.game_id);
            lemma_unique_by_first_positions(ids);
        }
        if records[i].validate().is_err() {
            return false;
        }
        match find_record(records, records[i].game_id.as_str()) {
            Some(first) => {
                if first != i {
                    return false;
                }
            },
            None => {
                return false;
            },
        }
        i = i + 1;
    }
    true
}

/// Copies of the `limit` newest records of a list, newest first; records
/// with the same timestamp stand in the order of the list.
pub fn newest_first(records: &Vec<GameRecord>, limit: usize) -> (newest: Vec<GameRecord>)
    ensures
        record_views(newest@) == recent(record_views(records@), limit as nat),
{
    let n: usize = records.len();
    let ghost views = record_views(records@);
    let is_newer = |a: usize, b: usize| -> (r: bool)
        requires
            a < n,
            b < n,
        ensures
            r == (records@[a as int]@.timestamp > records@[b as int]@.timestamp),
        { records[a].timestamp > records[b].timestamp };
    let order = ranked_positions(n, is_newer, Ghost(newer_at(views)));
    let count: usize = if limit < n {
        limit
    } else {
        n
    };
    let mut newest: Vec<GameRecord> = Vec::new();
    let mut i: usize = 0;
    while i < count
        invariant
            n == records@.len(),
            count <= n,
            i <= count,
            order@.len() == n,
            views == record_views(records@),
            forall|j: int| 0 <= j < n ==> #[trigger] order@[j] < n,
            newest@.len() == i,
            forall|j: int| 0 <= j < i ==> (#[trigger] newest@[j])@ == views[order@[j] as int],
        decreases count - i,
    {
        let which: usize = order[i];
        newest.push(records[which].clone());
        i = i + 1;
    }
    proof {
        let goal = recent(views, limit as nat);
        assert forall|j: int| 0 <= j < count implies record_views(newest@)[j] == goal[j] by {
            assert(positions(order@)[j] == order@[j] as int);
        }
        assert(record_views(newest@) =~= goal);
    }
    newest
}

impl RecordStore {
    #[verifier::type_invariant]
    spec fn sound(self) -> bool {
        records_wf(record_views(self.records@))
    }

    /// A store without records.
    pub fn new() -> (store: RecordStore)
        ensures
            store@ == Seq::<GameRecordView>::empty(),
    {
        let records: Vec<GameRecord> = Vec::new();
        assert(record_views(records@) =~= Seq::<GameRecordView>::empty());
        assert(record_ids(record_views(records@)) =~= Seq::<Seq<char>>::empty());
        RecordStore { records }
    }

    /// A store that holds the given records in their order, unless two of
    /// them share an identifier or one of them has a defect.
    pub fn from_records(records: Vec<GameRecord>) -> (result: Option<RecordStore>)
        ensures
            result is Some <==> records_wf(record_views(records@)),
            result matches Some(store) ==> store@ == record_views(records@),
    {
        if are_sound_records(&records) {
            Some(RecordStore { records })
        } else {
            None
        }
    }

    /// The stored records, in the order of the store.
    pub fn records(&self) -> (records: &Vec<GameRecord>)
        ensures
            record_views(records@) == self@,
            records_wf(self@),
    {
        proof {
            use_type_invariant(self);
        }
        &self.records
    }

    /// The number of stored records. No two of them share an identifier,
    /// and each of them is valid.
    pub fn len(&self) -> (n: usize)
        ensures
            n == self@.len(),
            records_wf(self@),
    {
        proof {
            use_type_invariant(self);
        }
        self.records.len()
    }

    /// Whether a record is stored under `game_id`.
    pub fn contains(&self, game_id: &str) -> (yes: bool)
        ensures
            yes == lookup(self@, game_id@) is Some,
            yes == record_ids(self@).contains(game_id@),
    {
        proof {
            lemma_position_of(record_ids(self@), game_id@);
        }
        find_record(&self.records, game_id).is_some()
    }

    /// The record stored under `game_id`. A missing record is no error.
    pub fn get(&self, game_id: &str) -> (found: Option<GameRecord>)
        ensures
            found is Some == lookup(self@, game_id@) is Some,
            found matches Some(record) ==> Some(record@) == lookup(self@, game_id@)
                && record@.is_valid() && record@.game_id == game_id@,
    {
        proof {
            use_type_invariant(self);
            lemma_position_of(record_ids(self@), game_id@);
        }
        match find_record(&self.records, game_id) {
            Some(i) => {
                proof {
                    assert(self@[i as int] == self.records@[i as int]@);
                }
                Some(self.records[i].clone())
            },
            None => None,
        }
    }

    /// The records stored under the given identifiers, position by position;
    /// `None` where nothing is stored.
    pub fn get_many(&self, game_ids: &Vec<String>) -> (found: Vec<Option<GameRecord>>)
        ensures
            found@.len() == game_ids@.len(),
            forall|i: int|
                0 <= i < game_ids@.len() ==> (#[trigger] found@[i]) is Some == lookup(
                    self@,
                    game_ids@[i]@,
                ) is Some,
            forall|i: int|
                0 <= i < game_ids@.len() ==> ((#[trigger] found@[i]) matches Some(record)
                    ==> Some(record@) == lookup(self@, game_ids@[i]@)),
    {
        let n: usize = game_ids.len();
        let mut found: Vec<Option<GameRecord>> = Vec::new();
        let mut i: usize = 0;
        while i < n
            invariant
                n == game_ids@.len(),
                i <= n,
                found@.len() == i,
                forall|k: int|
                    0 <= k < i ==> (#[trigger] found@[k]) is Some == lookup(
                        self@,
                        game_ids@[k]@,
                    ) is Some,
                forall|k: int|
                    0 <= k < i ==> ((#[trigger] found@[k]) matches Some(record) ==> Some(record@)
                        == lookup(self@, game_ids@[k]@)),
            decreases n - i,
        {
            let one = self.get(game_ids[i].as_str());
            found.push(one);
            i = i + 1;
        }
        found
    }

    /// The records stored under the given identifiers, in their order; an
    /// identifier under which nothing is stored is passed over.
    pub fn get_present(&self, game_ids: &Vec<String>) -> (found: Vec<GameRecord>)
        ensures
            record_views(found@) == present(self@, crate::player::id_views(game_ids@)),
    {
        let ghost ids = crate::player::id_views(game_ids@);
        let n: usize = game_ids.len();
        let mut found: Vec<GameRecord> = Vec::new();
        let mut i: usize = 0;
        proof {
            assert(ids.take(0) =~= Seq::<Seq<char>>::empty());
            assert(record_views(found@) =~= Seq::<GameRecordView>::empty());
        }
        while i < n
            invariant
                n == game_ids@.len(),
                ids == crate::player::id_views(game_ids@),
                i <= n,
                record_views(found@) == present(self@, ids.take(i as int)),
            decreases n - i,
        {
            let ghost before = record_views(found@);
            proof {
                let next = ids.take(i + 1);
                assert(next.drop_last() =~= ids.take(i as int));
                assert(next.last() == game_ids@[i as int]@);
            }
            match self.get(game_ids[i].as_str()) {
                Some(record) => {
                    proof {
                        assert(record_views(found@.push(record)) =~= before.push(record@));
                    }
                    found.push(record);
                },
                None => {},
            }
            i = i + 1;
        }
        proof {
            assert(ids.take(n as int) =~= ids);
        }
        found
    }

    /// Stores `record` at the end of the store. A record whose identifier is
    /// in use is refused, and so is a record with a defect; the store is then
    /// unchanged.
    pub fn insert(&mut self, record: GameRecord) -> (result: Result<(), ContractError>)
        ensures
            result is Ok <==> record@.is_valid() && !record_ids(old(self)@).contains(
                record@.game_id,
            ),
            result is Ok ==> final(self)@ == old(self)@.push(record@),
            result matches Err(e) ==> {
                &&& final(self)@ == old(self)@
                &&& e == if record_ids(old(self)@).contains(record@.game_id) {
                    ContractError::DuplicateGameId
                } else {
                    record@.defect().unwrap()
                }
            },
    {
        proof {
            use_type_invariant(&*self);
            lemma_position_of(record_ids(self@), record@.game_id);
        }
        if find_record(&self.records, record.game_id.as_str()).is_some() {
            return Err(ContractError::DuplicateGameId);
        }
        match record.validate() {
            Err(e) => {
                return Err(e);
            },
            Ok(()) => {},
        }
        let mut records: Vec<GameRecord> = Vec::new();
        core::mem::swap(&mut self.records, &mut records);
        proof {
            assert(record_ids(record_views(Seq::<GameRecord>::empty())) =~= Seq::<
                Seq<char>,
            >::empty());
            let views = record_views(records@);
            lemma_push_keeps_unique(record_ids(views), record@.game_id);
            assert(record_views(records@.push(record)) =~= views.push(record@));
            assert(record_ids(views.push(record@)) =~= record_ids(views).push(record@.game_id));
            assert forall|i: int| 0 <= i < views.push(record@).len() implies (
            #[trigger] views.push(record@)[i]).is_valid() by {
                if i < views.len() {
                    assert(views.push(record@)[i] == views[i]);
                }
            }
        }
        records.push(record);
        self.records = records;
        Ok(())
    }

    /// The `limit` newest records, newest first.
    pub fn recent(&self, limit: usize) -> (newest: Vec<GameRecord>)
        ensures
            record_views(newest@) == recent(self@, limit as nat),
    {
        newest_first(&self.records, limit)
    }

    /// Goes through the records in stored order and takes away those older
    /// than `older_than`, but no more than `limit` of them. Returns how many
    /// were taken away.
    pub fn remove_older(&mut self, older_than: u64, limit: u32) -> (removed: u32)
        ensures
            final(self)@ == purge(old(self)@, older_than, limit as nat),
            removed == purge_count(old(self)@, older_than, limit as nat),
            removed <= limit,
    {
        proof {
            use_type_invariant(&*self);
        }
        let mut records: Vec<GameRecord> = Vec::new();
        core::mem::swap(&mut self.records, &mut records);
        let ghost start = record_views(records@);
        proof {
            assert(record_ids(record_views(Seq::<GameRecord>::empty())) =~= Seq::<
                Seq<char>,
            >::empty());
            assert(start.take(0) + purge(start.skip(0), older_than, limit as nat) =~= purge(
                start,
                older_than,
                limit as nat,
            )) by {
                assert(start.skip(0) =~= start);
            }
            assert(start.skip(0) =~= start);
        }
        let mut removed: u32 = 0;
        let mut i: usize = 0;
        while i < records.len() && removed < limit
            invariant
                i <= records@.len(),
                removed <= limit,
                records_wf(record_views(records@)),
                record_views(records@).take(i as int) + purge(
                    record_views(records@).skip(i as int),
                    older_than,
                    (limit - removed) as nat,
                ) == purge(start, older_than, limit as nat),
                removed + purge_count(
                    record_views(records@).skip(i as int),
                    older_than,
                    (limit - removed) as nat,
                ) == purge_count(start, older_than, limit as nat),
            decreases records@.len() - i,
        {
            let ghost views = record_views(records@);
            let ghost tail = views.skip(i as int);
            proof {
                assert(tail[0] == views[i as int]);
                assert(views[i as int] == records@[i as int]@);
            }
            if records[i].timestamp < older_than {
                let _ = records.remove(i);
                removed = removed + 1;
                proof {
                    let after = record_views(records@);
                    assert(after =~= views.remove(i as int));
                    assert(after.take(i as int) =~= views.take(i as int));
                    assert(after.skip(i as int) =~= tail.drop_first());
                    let ids = record_ids(views);
                    let ids_after = record_ids(after);
                    assert forall|a: int, b: int|
                        0 <= a < ids_after.len() && 0 <= b < ids_after.len() && a
                            != b implies ids_after[a] != ids_after[b] by {
                        let sa = if a < i { a } else { a + 1 };
                        let sb = if b < i { b } else { b + 1 };
                        assert(ids_after[a] == ids[sa] && ids_after[b] == ids[sb]);
                    }
                    assert forall|a: int| 0 <= a < after.len() implies (#[trigger] after[a]).is_valid() by {
                        let sa = if a < i { a } else { a + 1 };
                        assert(after[a] == views[sa]);
                    }
                }
            } else {
                proof {
                    assert(views.take(i + 1) =~= views.take(i as int).push(views[i as int]));
                    assert(views.skip(i + 1) =~= tail.drop_first());
                    assert(views.take(i as int) + (seq![tail[0]] + purge(
                        tail.drop_first(),
                        older_than,
                        (limit - removed) as nat,
                    )) =~= views.take(i + 1) + purge(
                        views.skip(i + 1),
                        older_than,
                        (limit - removed) as nat,
                    ));
                }
                i = i + 1;
            }
        }
        proof {
            let views = record_views(records@);
            let tail = views.skip(i as int);
            assert(purge(tail, older_than, (limit - removed) as nat) == tail);
            assert(views.take(i as int) + tail =~= views);
        }
        self.records = records;
        removed
    }
}

} // verus!
