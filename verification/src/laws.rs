//! What holds of the catalog's operations taken together: how ids are
//! assigned over a run of creations and deletions, and when the ids of a
//! collection stay distinct.

use crate::database::{
    assigned, contains_id, ids, ids_unique, is_first_with_id, next_id, seed_records, without_id,
    Candidate, Record,
};
use vstd::prelude::*;

verus! {

/// The collection after a record has been created for each candidate in
/// turn, each with the next id of the collection that it joins.
pub open spec fn created_in_turn(games: Seq<Record>, candidates: Seq<Candidate>) -> Seq<Record>
    decreases candidates.len(),
{
    if candidates.len() == 0 {
        games
    } else {
        let before = created_in_turn(games, candidates.drop_last());
        before.push(assigned(candidates.last(), next_id(before)))
    }
}

/// The collection after each of the ids has been deleted in turn.
pub open spec fn deleted_in_turn(games: Seq<Record>, gone: Seq<int>) -> Seq<Record>
    decreases gone.len(),
{
    if gone.len() == 0 {
        games
    } else {
        without_id(deleted_in_turn(games, gone.drop_last()), gone.last())
    }
}

/// The next id is larger than every id in the collection and, unless the
/// collection is empty, exactly one more than an id that is present. No
/// record has it.
pub proof fn lemma_next_id_exceeds_ids(games: Seq<Record>)
    ensures
        forall|i: int| 0 <= i < games.len() ==> (#[trigger] games[i]).id < next_id(games),
        games.len() > 0 ==> contains_id(games, next_id(games) - 1),
        !contains_id(games, next_id(games)),
{
    let all = ids(games);
    all.max_ensures();
    assert forall|i: int| 0 <= i < games.len() implies (#[trigger] games[i]).id < next_id(
        games,
    ) by {
        assert(all[i] == games[i].id);
    }
    if games.len() > 0 {
        let k = choose|k: int| 0 <= k < all.len() && all[k] == all.max();
        assert(games[k].id == next_id(games) - 1);
    }
}

/// The seed records carry the ids 1 to 5 in order, so their ids are distinct
/// and the first record created after them receives the id 6.
pub proof fn lemma_seed_ids()
    ensures
        seed_records().len() == 5,
        forall|i: int| 0 <= i < 5 ==> (#[trigger] seed_records()[i]).id == i + 1,
        ids_unique(seed_records()),
        next_id(seed_records()) == 6,
{
    let seed = seed_records();
    lemma_next_id_exceeds_ids(seed);
    assert(seed[4].id < next_id(seed));
    let k = choose|k: int| 0 <= k < seed.len() && seed[k].id == next_id(seed) - 1;
    assert(seed[k].id <= 5);
}

/// Creating a record with the next id keeps the ids distinct.
pub proof fn lemma_create_keeps_ids_unique(games: Seq<Record>, candidate: Candidate)
    requires
        ids_unique(games),
    ensures
        ids_unique(games.push(assigned(candidate, next_id(games)))),
{
    lemma_next_id_exceeds_ids(games);
}

/// A run of creations leaves the records that were there in place. Each new
/// record, in the order of creation, holds its candidate's fields and the
/// next id of the records before it; its id is larger than every id before
/// it, old or new.
pub proof fn lemma_created_ids_increase_from(games: Seq<Record>, candidates: Seq<Candidate>)
    ensures
        ({
            let after = created_in_turn(games, candidates);
            &&& after.len() == games.len() + candidates.len()
            &&& after.take(games.len() as int) == games
            &&& forall|k: int|
                0 <= k < candidates.len() ==> (#[trigger] after[games.len() + k]) == assigned(
                    candidates[k],
                    next_id(after.take(games.len() + k)),
                )
            &&& forall|i: int, j: int|
                0 <= i < j < after.len() && games.len() <= j ==> after[i].id < after[j].id
        }),
    decreases candidates.len(),
{
    let after = created_in_turn(games, candidates);
    if candidates.len() == 0 {
        assert(after.take(games.len() as int) =~= games);
    } else {
        let earlier = candidates.drop_last();
        let before = created_in_turn(games, earlier);
        lemma_created_ids_increase_from(games, earlier);
        lemma_next_id_exceeds_ids(before);
        assert(after.take(games.len() as int) =~= before.take(games.len() as int));
        assert forall|k: int| 0 <= k < candidates.len() implies (#[trigger] after[games.len()
            + k]) == assigned(candidates[k], next_id(after.take(games.len() + k))) by {
            if k < earlier.len() {
                assert(after.take(games.len() + k) =~= before.take(games.len() + k));
                assert(after[games.len() + k] == before[games.len() + k]);
                assert(candidates[k] == earlier[k]);
            } else {
                assert(after.take(games.len() + k) =~= before);
            }
        }
        assert forall|i: int, j: int|
            0 <= i < j < after.len() && games.len() <= j implies after[i].id < after[j].id by {
            if j < before.len() {
                assert(after[i] == before[i] && after[j] == before[j]);
            } else {
                assert(after[i] == before[i]);
            }
        }
    }
}

/// Starting from an empty collection, a run of creations gives the records
/// the ids 1, 2, 3 and so on in the order of their creation: every id is
/// larger than those given before it, and no id is given twice.
pub proof fn lemma_created_ids_increase(candidates: Seq<Candidate>)
    ensures
        ({
            let after = created_in_turn(Seq::empty(), candidates);
            &&& after.len() == candidates.len()
            &&& forall|i: int|
                0 <= i < candidates.len() ==> (#[trigger] after[i]) == assigned(
                    candidates[i],
                    i + 1,
                )
            &&& forall|i: int, j: int| 0 <= i < j < after.len() ==> after[i].id < after[j].id
            &&& ids_unique(after)
        }),
    decreases candidates.len(),
{
    let after = created_in_turn(Seq::<Record>::empty(), candidates);
    if candidates.len() > 0 {
        let earlier = candidates.drop_last();
        let before = created_in_turn(Seq::<Record>::empty(), earlier);
        lemma_created_ids_increase(earlier);
        lemma_next_id_exceeds_ids(before);
        if before.len() > 0 {
            let k = choose|k: int| 0 <= k < before.len() && before[k].id == next_id(before) - 1;
            assert(before[k].id == k + 1);
            assert(before[before.len() - 1].id == before.len());
        }
        assert(next_id(before) == before.len() + 1);
        assert forall|i: int| 0 <= i < candidates.len() implies (#[trigger] after[i]) == assigned(
            candidates[i],
            i + 1,
        ) by {
            if i < earlier.len() {
                assert(after[i] == before[i]);
                assert(candidates[i] == earlier[i]);
            }
        }
    }
}

/// After a deletion no record has the deleted id, and every record that is
/// left was there before.
pub proof fn lemma_deleted_id_is_gone(games: Seq<Record>, id: int)
    ensures
        !contains_id(without_id(games, id), id),
        forall|i: int|
            0 <= i < without_id(games, id).len() ==> games.contains(
                #[trigger] without_id(games, id)[i],
            ),
{
    let kept = without_id(games, id);
    let other = |game: Record| game.id != id;
    assert forall|i: int| 0 <= i < kept.len() implies kept[i].id != id && games.contains(
        #[trigger] kept[i],
    ) by {
        games.lemma_filter_pred(other, i);
        assert(kept.contains(kept[i]));
        games.lemma_filter_contains_rev(other, kept[i]);
    }
}

/// Deleting an id that no record has leaves the collection as it was: the
/// same records in the same order.
pub proof fn lemma_delete_absent(games: Seq<Record>, id: int)
    requires
        !contains_id(games, id),
    ensures
        without_id(games, id) == games,
    decreases games.len(),
{
    reveal(Seq::filter);
    if games.len() > 0 {
        let front = games.drop_last();
        assert forall|i: int| 0 <= i < front.len() implies front[i].id != id by {
            assert(front[i] == games[i]);
        }
        lemma_delete_absent(front, id);
        assert(games.last() == games[games.len() - 1]);
        assert(front.push(games.last()) =~= games);
    }
}

/// What a run of deletions leaves was in the collection before, and has
/// none of the deleted ids.
pub proof fn lemma_deleted_in_turn_members(games: Seq<Record>, gone: Seq<int>)
    ensures
        forall|i: int|
            0 <= i < deleted_in_turn(games, gone).len() ==> games.contains(
                #[trigger] deleted_in_turn(games, gone)[i],
            ) && !gone.contains(deleted_in_turn(games, gone)[i].id),
    decreases gone.len(),
{
    let left = deleted_in_turn(games, gone);
    if gone.len() > 0 {
        let earlier = gone.drop_last();
        let before = deleted_in_turn(games, earlier);
        lemma_deleted_in_turn_members(games, earlier);
        lemma_deleted_id_is_gone(before, gone.last());
        assert forall|i: int| 0 <= i < left.len() implies games.contains(#[trigger] left[i])
            && !gone.contains(left[i].id) by {
            let k = choose|k: int| 0 <= k < before.len() && before[k] == left[i];
            assert(games.contains(before[k]));
            assert(!earlier.contains(before[k].id));
            if gone.contains(left[i].id) {
                let g = choose|g: int| 0 <= g < gone.len() && gone[g] == left[i].id;
                if g < earlier.len() {
                    assert(earlier[g] == gone[g]);
                } else {
                    assert(contains_id(left, gone.last()));
                }
            }
        }
    }
}

/// Once every id of the collection has been deleted, the collection is empty
/// and the next id is 1 again.
pub proof fn lemma_next_id_after_deleting_all(games: Seq<Record>, gone: Seq<int>)
    requires
        forall|i: int| 0 <= i < games.len() ==> gone.contains(#[trigger] games[i].id),
    ensures
        deleted_in_turn(games, gone).len() == 0,
        next_id(deleted_in_turn(games, gone)) == 1,
{
    let left = deleted_in_turn(games, gone);
    lemma_deleted_in_turn_members(games, gone);
    if left.len() > 0 {
        let k = choose|k: int| 0 <= k < games.len() && games[k] == left[0];
        assert(gone.contains(games[k].id));
    }
}

/// Deleting an id below the largest leaves the next id as it was: an id that
/// was given once is not given again while a larger one is present.
pub proof fn lemma_delete_keeps_next_id(games: Seq<Record>, id: int)
    requires
        exists|i: int| 0 <= i < games.len() && (#[trigger] games[i]).id > id,
    ensures
        next_id(without_id(games, id)) == next_id(games),
{
    let left = without_id(games, id);
    let other = |game: Record| game.id != id;
    lemma_next_id_exceeds_ids(games);
    lemma_next_id_exceeds_ids(left);
    lemma_deleted_id_is_gone(games, id);
    let top = choose|k: int| 0 <= k < games.len() && games[k].id == next_id(games) - 1;
    games.lemma_filter_contains(other, top);
    let kept = choose|k: int| 0 <= k < left.len() && left[k] == games[top];
    assert(left[kept].id < next_id(left));
    let last = choose|k: int| 0 <= k < left.len() && left[k].id == next_id(left) - 1;
    let origin = choose|k: int| 0 <= k < games.len() && games[k] == left[last];
    assert(games[origin].id < next_id(games));
}

/// Deleting an id keeps the ids distinct.
pub proof fn lemma_delete_keeps_ids_unique(games: Seq<Record>, id: int)
    requires
        ids_unique(games),
    ensures
        ids_unique(without_id(games, id)),
    decreases games.len(),
{
    reveal(Seq::filter);
    if games.len() > 0 {
        let front = games.drop_last();
        let left = without_id(games, id);
        let kept = without_id(front, id);
        assert(ids_unique(front)) by {
            assert forall|i: int, j: int| 0 <= i < j < front.len() implies front[i].id
                != front[j].id by {
                assert(front[i] == games[i] && front[j] == games[j]);
            }
        }
        lemma_delete_keeps_ids_unique(front, id);
        lemma_deleted_id_is_gone(front, id);
        assert forall|i: int, j: int| 0 <= i < j < left.len() implies left[i].id
            != left[j].id by {
            if j < kept.len() {
                assert(left[i] == kept[i] && left[j] == kept[j]);
            } else {
                assert(left[j] == games[games.len() - 1]);
                assert(left[i] == kept[i]);
                let k = choose|k: int| 0 <= k < front.len() && front[k] == kept[i];
                assert(front[k] == games[k]);
            }
        }
    }
}

/// An update keeps the ids distinct when the new record carries the id that
/// was searched for, or an id that no record has.
pub proof fn lemma_update_keeps_ids_unique(games: Seq<Record>, id: int, i: int, game: Record)
    requires
        ids_unique(games),
        is_first_with_id(games, id, i),
        game.id == id || !contains_id(games, game.id),
    ensures
        ids_unique(games.update(i, game)),
{
    let after = games.update(i, game);
    assert forall|a: int, b: int| 0 <= a < b < after.len() implies after[a].id != after[b].id by {
        if a != i && b != i {
            assert(after[a] == games[a] && after[b] == games[b]);
        } else {
            let other = if a == i {
                b
            } else {
                a
            };
            assert(after[other] == games[other]);
            assert(games[other].id != games[i].id);
        }
    }
}

} // verus!
