//! Finding an identifier in a list of identifiers.

use vstd::prelude::*;

verus! {

/// Whether `i` is the first position of `ids` that holds `id`.
pub open spec fn is_first_position(ids: Seq<Seq<char>>, id: Seq<char>, i: int) -> bool {
    &&& 0 <= i < ids.len()
    &&& ids[i] == id
    &&& forall|j: int| 0 <= j < i ==> #[trigger] ids[j] != id
}

/// The first position of `ids` that holds `id`, if any does.
pub open spec fn position_of(ids: Seq<Seq<char>>, id: Seq<char>) -> Option<int> {
    if ids.contains(id) {
        Some(choose|i: int| is_first_position(ids, id, i))
    } else {
        None
    }
}

/// A position that is the first to hold `id` is the one [`position_of`]
/// names.
pub proof fn lemma_position_found(ids: Seq<Seq<char>>, id: Seq<char>, i: int)
    requires
        is_first_position(ids, id, i),
    ensures
        position_of(ids, id) == Some(i),
{
    assert(ids.contains(id));
    let k = choose|k: int| is_first_position(ids, id, k);
    if k < i {
        assert(ids[k] != id);
    }
    if i < k {
        assert(ids[i] != id);
    }
}

/// Where no position holds `id`, [`position_of`] names none.
pub proof fn lemma_position_absent(ids: Seq<Seq<char>>, id: Seq<char>)
    requires
        forall|j: int| 0 <= j < ids.len() ==> #[trigger] ids[j] != id,
    ensures
        position_of(ids, id) is None,
        !ids.contains(id),
{
    if ids.contains(id) {
        let j = choose|j: int| 0 <= j < ids.len() && ids[j] == id;
        assert(ids[j] != id);
    }
}

/// What [`position_of`] says of its result.
pub proof fn lemma_position_of(ids: Seq<Seq<char>>, id: Seq<char>)
    ensures
        position_of(ids, id) matches Some(i) ==> is_first_position(ids, id, i),
        position_of(ids, id) is None ==> forall|j: int|
            0 <= j < ids.len() ==> #[trigger] ids[j] != id,
        position_of(ids, id) is Some <==> ids.contains(id),
{
    if ids.contains(id) {
        lemma_first_exists(ids, id, ids.len() as int);
    }
}

/// Among the first `n` positions, if one holds `id` then one is the first to
/// hold it.
proof fn lemma_first_exists(ids: Seq<Seq<char>>, id: Seq<char>, n: int)
    requires
        0 <= n <= ids.len(),
    ensures
        (exists|j: int| 0 <= j < n && ids[j] == id) ==> exists|i: int|
            i < n && is_first_position(ids, id, i),
    decreases n,
{
    if n > 0 {
        lemma_first_exists(ids, id, n - 1);
        if exists|j: int| 0 <= j < n - 1 && ids[j] == id {
            let i = choose|i: int| i < n - 1 && is_first_position(ids, id, i);
            assert(i < n && is_first_position(ids, id, i));
        } else if ids[n - 1] == id {
            assert(is_first_position(ids, id, n - 1));
        }
    }
}

/// In a list without duplicates, appending an identifier that is not yet
/// there leaves it without duplicates.
pub proof fn lemma_push_keeps_unique(ids: Seq<Seq<char>>, id: Seq<char>)
    requires
        ids.no_duplicates(),
        !ids.contains(id),
    ensures
        ids.push(id).no_duplicates(),
{
    let grown = ids.push(id);
    assert forall|i: int, j: int| 0 <= i < grown.len() && 0 <= j < grown.len() && i != j implies grown[i]
        != grown[j] by {
        if i < ids.len() {
            assert(ids.contains(ids[i]));
        }
        if j < ids.len() {
            assert(ids.contains(ids[j]));
        }
    }
}

/// A list has no duplicates exactly when every identifier stands at its own
/// first position.
pub proof fn lemma_unique_by_first_positions(ids: Seq<Seq<char>>)
    ensures
        ids.no_duplicates() <==> forall|i: int|
            0 <= i < ids.len() ==> position_of(ids, #[trigger] ids[i]) == Some(i),
{
    if ids.no_duplicates() {
        assert forall|i: int| 0 <= i < ids.len() implies position_of(ids, #[trigger] ids[i])
            == Some(i) by {
            assert(is_first_position(ids, ids[i], i));
            lemma_position_found(ids, ids[i], i);
        }
    }
    if forall|i: int| 0 <= i < ids.len() ==> position_of(ids, #[trigger] ids[i]) == Some(i) {
        assert forall|a: int, b: int|
            0 <= a < ids.len() && 0 <= b < ids.len() && a != b implies ids[a] != ids[b] by {
            if ids[a] == ids[b] {
                assert(position_of(ids, ids[a]) == Some(a));
                assert(position_of(ids, ids[b]) == Some(b));
            }
        }
    }
}

} // verus!
