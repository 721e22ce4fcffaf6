//! The static databases: item and quest records, each kept by its id.

use vstd::prelude::*;
use std::collections::HashMap;
use crate::item::ItemData;
use crate::quest::QuestData;

verus! {

broadcast use vstd::std_specs::hash::group_hash_axioms;

/// The item records by id.
pub type ItemDatabase = HashMap<u128, ItemData>;

/// The quest records by id.
pub type QuestDatabase = HashMap<u128, QuestData>;

/// The records by the ids that `id_of` reads off them. Of two records with
/// one id the later one counts.
pub open spec fn indexed<T>(records: Seq<T>, id_of: spec_fn(T) -> u128) -> Map<u128, T>
    decreases records.len(),
{
    if records.len() == 0 {
        Map::empty()
    } else {
        indexed(records.drop_last(), id_of).insert(id_of(records.last()), records.last())
    }
}

/// `at` is the place of the last record with id `id`.
pub open spec fn is_last_of_id<T>(
    records: Seq<T>,
    id_of: spec_fn(T) -> u128,
    id: u128,
    at: int,
) -> bool {
    &&& 0 <= at < records.len()
    &&& id_of(records[at]) == id
    &&& forall|later: int| at < later < records.len() ==> id_of(#[trigger] records[later]) != id
}

/// An index holds what the records hold: an entry for each id that occurs
/// among them and for no other, each entry a record of that id, and the last
/// one of them.
pub proof fn lemma_indexed_covers<T>(records: Seq<T>, id_of: spec_fn(T) -> u128)
    ensures
        forall|id: u128| #[trigger]
            indexed(records, id_of).contains_key(id) ==> id_of(indexed(records, id_of)[id]) == id,
        forall|at: int|
            0 <= at < records.len() ==> indexed(records, id_of).contains_key(
                id_of(#[trigger] records[at]),
            ),
        forall|id: u128| #[trigger]
            indexed(records, id_of).contains_key(id) ==> exists|at: int|
                is_last_of_id(records, id_of, id, at) && indexed(records, id_of)[id] == records[at],
    decreases records.len(),
{
    if records.len() > 0 {
        let front = records.drop_last();
        let last = records.len() - 1;
        lemma_indexed_covers(front, id_of);
        assert forall|at: int| 0 <= at < records.len() implies indexed(
            records,
            id_of,
        ).contains_key(id_of(#[trigger] records[at])) by {
            if at < last {
                assert(front[at] == records[at]);
            }
        }
        assert forall|id: u128| #[trigger]
            indexed(records, id_of).contains_key(id) implies exists|at: int|
            is_last_of_id(records, id_of, id, at) && indexed(records, id_of)[id]
                == records[at] by {
            if id == id_of(records.last()) {
                assert(is_last_of_id(records, id_of, id, last));
            } else {
                let at = choose|at: int|
                    is_last_of_id(front, id_of, id, at) && indexed(front, id_of)[id] == front[at];
                assert(front[at] == records[at]);
                assert forall|later: int| at < later < records.len() implies id_of(
                    #[trigger] records[later],
                ) != id by {
                    if later < last {
                        assert(front[later] == records[later]);
                    }
                }
                assert(is_last_of_id(records, id_of, id, at));
            }
        }
    }
}

/// Reads the id off an item record.
pub open spec fn item_id() -> spec_fn(ItemData) -> u128 {
    |record: ItemData| record.id
}

/// Reads the id off a quest record.
pub open spec fn quest_id() -> spec_fn(QuestData) -> u128 {
    |record: QuestData| record.id
}

/// The item records by id.
pub open spec fn indexed_items(records: Seq<ItemData>) -> Map<u128, ItemData> {
    indexed(records, item_id())
}

/// The quest records by id.
pub open spec fn indexed_quests(records: Seq<QuestData>) -> Map<u128, QuestData> {
    indexed(records, quest_id())
}

/// Every record is kept under its own id.
pub open spec fn items_are_keyed(database: Map<u128, ItemData>) -> bool {
    forall|id: u128| #[trigger] database.contains_key(id) ==> database[id].id == id
}

/// Every record is kept under its own id.
pub open spec fn quests_are_keyed(database: Map<u128, QuestData>) -> bool {
    forall|id: u128| #[trigger] database.contains_key(id) ==> database[id].id == id
}

/// Builds the item database from its records, in their order.
pub fn index_items(records: Vec<ItemData>) -> (database: ItemDatabase)
    ensures
        database@ == indexed_items(records@),
        items_are_keyed(database@),
{
    let mut database: ItemDatabase = HashMap::new();
    for record in taken: records
        invariant
            taken.seq() == records@,
            database@ == indexed_items(records@.take(taken.index() as int)),
    {
        assert(records@.take(taken.index() + 1).drop_last() =~= records@.take(
            taken.index() as int,
        ));
        database.insert(record.id, record);
    }
    assert(records@.take(records@.len() as int) =~= records@);
    proof {
        lemma_indexed_covers(records@, item_id());
    }
    database
}

/// Builds the quest database from its records, in their order.
pub fn index_quests(records: Vec<QuestData>) -> (database: QuestDatabase)
    ensures
        database@ == indexed_quests(records@),
        quests_are_keyed(database@),
{
    let mut database: QuestDatabase = HashMap::new();
    for record in taken: records
        invariant
            taken.seq() == records@,
            database@ == indexed_quests(records@.take(taken.index() as int)),
    {
        assert(records@.take(taken.index() + 1).drop_last() =~= records@.take(
            taken.index() as int,
        ));
        database.insert(record.id, record);
    }
    assert(records@.take(records@.len() as int) =~= records@);
    proof {
        lemma_indexed_covers(records@, quest_id());
    }
    database
}

/// The name shown for an item that the database does not know.
pub open spec fn unknown_item() -> Seq<char> {
    "Unknown Item"@
}

/// The name of item `id` as it is shown.
pub fn item_name<'a>(database: &'a ItemDatabase, id: u128) -> (name: &'a str)
    ensures
        name@ == (if database@.contains_key(id) {
            database@[id].name@
        } else {
            unknown_item()
        }),
{
    match database.get(&id) {
        Some(record) => record.name.as_str(),
        None => "Unknown Item",
    }
}

} // verus!
