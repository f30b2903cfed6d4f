use crate::model::{ItemId, ItemInfo, ItemInfoShort, ItemInfoView, NewItem, TableId};
use crate::laws::lemma_without_keeps_wf;
use crate::storage::{
    listing_view, new_items_view, rows_view, rows_wf, stays, Storage, StorageModel,
};
use std::collections::HashMap;
use std::convert::Infallible;
use vstd::prelude::*;

verus! {

broadcast use vstd::std_specs::hash::group_hash_axioms;

/// The error of the in-memory backend. It has no value: no operation of this
/// backend fails.
pub type SimpleMemoryStorageError = Infallible;

/// A storage backend that keeps every table in memory.
///
/// One counter, shared by all tables, numbers the items from 0 upwards, so an
/// identifier is unique across the whole storage. A table's rows stay in the
/// order in which they were added.
pub struct SimpleMemoryStorage {
    next_item_id: i32,
    items: HashMap<i32, Vec<ItemInfo>>,
}

/// Whether `item_ids` holds `item_id`.
pub fn contains_id(item_ids: &Vec<ItemId>, item_id: ItemId) -> (found: bool)
    ensures
        found == item_ids@.contains(item_id),
{
    let mut i: usize = 0;
    while i < item_ids.len()
        invariant
            i <= item_ids.len(),
            forall|j: int| 0 <= j < i ==> item_ids@[j] != item_id,
        decreases item_ids.len() - i,
    {
        if item_ids[i] == item_id {
            return true;
        }
        i += 1;
    }
    false
}

impl SimpleMemoryStorage {
    /// The rows that are kept for table `table_id`: none where the table was
    /// never written to.
    pub closed spec fn rows(&self, table_id: TableId) -> Seq<ItemInfoView> {
        if self.items@.contains_key(table_id.0) {
            rows_view(self.items@[table_id.0]@)
        } else {
            Seq::empty()
        }
    }

    /// The identifier that the next item added will get.
    pub closed spec fn next_id(&self) -> int {
        self.next_item_id as int
    }

    /// A storage that holds nothing; its first item will be number 0.
    pub fn new() -> (storage: SimpleMemoryStorage)
        ensures
            storage.inv(),
            storage@ == StorageModel::empty(),
            storage.next_id() == 0,
            storage.room() == i32::MAX,
    {
        let storage = SimpleMemoryStorage { next_item_id: 0, items: HashMap::new() };
        assert(storage@.tables =~= StorageModel::empty().tables);
        assert(storage@.floors =~= StorageModel::empty().floors);
        storage
    }
}

impl Default for SimpleMemoryStorage {
    fn default() -> (storage: SimpleMemoryStorage)
        ensures
            storage.inv(),
            storage@ == StorageModel::empty(),
            storage.next_id() == 0,
            storage.room() == i32::MAX,
    {
        SimpleMemoryStorage::new()
    }
}

impl Storage for SimpleMemoryStorage {
    type Error = SimpleMemoryStorageError;

    closed spec fn view(&self) -> StorageModel {
        StorageModel {
            tables: Map::new(|t: TableId| true, |t: TableId| self.rows(t)),
            floors: Map::new(|t: TableId| true, |t: TableId| self.next_id()),
        }
    }

    closed spec fn inv(&self) -> bool {
        &&& 0 <= self.next_item_id
        &&& forall|t: TableId| rows_wf(#[trigger] self.rows(t), t, self.next_id())
    }

    closed spec fn room(&self) -> nat {
        (i32::MAX - self.next_item_id) as nat
    }

    open spec fn infallible(&self) -> bool {
        true
    }

    proof fn inv_gives_wf(&self) {
        assert forall|t: TableId| rows_wf(#[trigger] self@.table(t), t, self@.floor(t)) by {
            assert(self@.table(t) == self.rows(t));
        }
    }

    fn has_room(&self, count: usize) -> (yes: bool) {
        count <= (i32::MAX - self.next_item_id) as usize
    }

    fn add_items(&mut self, table_id: TableId, items: Vec<NewItem>) -> (outcome: Result<
        (),
        SimpleMemoryStorageError,
    >)
        ensures
            outcome is Ok,
            final(self).next_id() == old(self).next_id() + items@.len(),
            forall|k: int|
                #![trigger final(self)@.table(table_id)[old(self)@.table(table_id).len() + k]]
                0 <= k < items@.len() ==> final(self)@.table(table_id)[old(self)@.table(
                    table_id,
                ).len() + k].item_id.0 == old(self).next_id() + k,
    {
        let ghost before = *self;
        let ghost old_rows = self.rows(table_id);
        let ghost added = new_items_view(items@);
        let mut rows = match self.items.remove(&table_id.0) {
            Some(rows) => rows,
            None => Vec::new(),
        };
        assert(rows_view(rows@) == old_rows);
        let mut next: i32 = self.next_item_id;
        for item in it: items
            invariant
                it.seq() == items@,
                added == new_items_view(items@),
                0 <= before.next_item_id,
                next == before.next_item_id + it.index(),
                before.next_item_id + items@.len() <= i32::MAX,
                rows@.len() == old_rows.len() + it.index(),
                rows_view(rows@).take(old_rows.len() as int) == old_rows,
                forall|j: int|
                    0 <= j < it.index() ==> #[trigger] rows_view(rows@)[old_rows.len() + j]
                        == ItemInfoView::stored(
                        table_id,
                        ItemId((before.next_item_id + j) as i32),
                        added[j],
                    ),
        {
            let ghost shorter = rows_view(rows@);
            let ghost k = it.index();
            assert(item@ == added[k]);
            rows.push(
                ItemInfo {
                    table_id,
                    item_id: ItemId(next),
                    name: item.name,
                    comment: item.comment,
                    created_at: item.created_at,
                    forecast_ready_at: item.forecast_ready_at,
                },
            );
            proof {
                let longer = rows_view(rows@);
                assert(longer.len() == shorter.len() + 1);
                assert forall|j: int| 0 <= j < shorter.len() implies longer[j] == shorter[j] by {}
                assert(longer.take(old_rows.len() as int) =~= shorter.take(old_rows.len() as int));
                assert(longer[old_rows.len() + k] == ItemInfoView::stored(
                    table_id,
                    ItemId(next),
                    added[k],
                ));
            }
            next = next + 1;
        }
        self.next_item_id = next;
        self.items.insert(table_id.0, rows);
        proof {
            let after = *self;
            assert(after.rows(table_id) == rows_view(rows@));
            assert forall|t: TableId| t != table_id implies #[trigger] after.rows(t)
                == before.rows(t) by {}
            assert forall|t: TableId| rows_wf(#[trigger] after.rows(t), t, after.next_id()) by {
                if t == table_id {
                    let new_rows = after.rows(t);
                    assert(rows_wf(before.rows(t), t, before.next_id()));
                    assert forall|i: int| 0 <= i < new_rows.len() implies (
                    #[trigger] new_rows[i]).table_id == t && new_rows[i].item_id.0
                        < after.next_id() by {
                        if i < old_rows.len() {
                            assert(new_rows[i] == new_rows.take(old_rows.len() as int)[i]);
                        } else {
                            assert(new_rows[i] == new_rows[old_rows.len() + (i - old_rows.len())]);
                        }
                    }
                    assert forall|i: int, j: int| 0 <= i < j < new_rows.len() implies (
                    #[trigger] new_rows[i]).item_id.0 < (#[trigger] new_rows[j]).item_id.0 by {
                        if i < old_rows.len() {
                            assert(new_rows[i] == new_rows.take(old_rows.len() as int)[i]);
                        } else {
                            assert(new_rows[i] == new_rows[old_rows.len() + (i - old_rows.len())]);
                        }
                        if j < old_rows.len() {
                            assert(new_rows[j] == new_rows.take(old_rows.len() as int)[j]);
                        } else {
                            assert(new_rows[j] == new_rows[old_rows.len() + (j - old_rows.len())]);
                        }
                    }
                } else {
                    assert(rows_wf(before.rows(t), t, before.next_id()));
                }
            }
            assert forall|t: TableId| t != table_id implies #[trigger] after@.table(t)
                == before@.table(t) by {
                assert(after.rows(t) == before.rows(t));
            }
            assert(after@.table(table_id) == after.rows(table_id));
            assert(before@.table(table_id) == old_rows);
        }
        Ok(())
    }

    fn remove_items(&mut self, table_id: TableId, item_ids: Vec<ItemId>) -> (outcome: Result<
        (),
        SimpleMemoryStorageError,
    >)
        ensures
            outcome is Ok,
            final(self).next_id() == old(self).next_id(),
    {
        let ghost before = *self;
        let ghost old_rows = self.rows(table_id);
        let ghost keep = stays(item_ids@);
        match self.items.remove(&table_id.0) {
            Some(rows) => {
                assert(rows_view(rows@) == old_rows);
                let mut kept: Vec<ItemInfo> = Vec::new();
                for row in it: rows
                    invariant
                        it.seq() == rows@,
                        rows_view(rows@) == old_rows,
                        keep == stays(item_ids@),
                        rows_view(kept@) == old_rows.take(it.index() as int).filter(keep),
                {
                    proof {
                        let seen = old_rows.take(it.index() + 1);
                        assert(seen.drop_last() =~= old_rows.take(it.index() as int));
                        assert(seen.last() == row@);
                        reveal(Seq::filter);
                    }
                    let ghost shorter = rows_view(kept@);
                    if !contains_id(&item_ids, row.item_id) {
                        kept.push(row);
                        assert(rows_view(kept@) =~= shorter.push(row@));
                    }
                }
                assert(old_rows.take(old_rows.len() as int) =~= old_rows);
                self.items.insert(table_id.0, kept);
                proof {
                    let after = *self;
                    assert(after.rows(table_id) == rows_view(kept@));
                }
            },
            None => {
                proof {
                    assert(old_rows =~= Seq::empty());
                    reveal(Seq::filter);
                    assert(old_rows.filter(keep) =~= Seq::empty());
                    assert(self.items@ =~= before.items@);
                }
            },
        }
        proof {
            let after = *self;
            assert(after.rows(table_id) == old_rows.filter(keep));
            assert forall|t: TableId| t != table_id implies #[trigger] after.rows(t)
                == before.rows(t) by {}
            assert forall|t: TableId| rows_wf(#[trigger] after.rows(t), t, after.next_id()) by {
                assert(rows_wf(before.rows(t), t, before.next_id()));
                if t == table_id {
                    lemma_without_keeps_wf(old_rows, item_ids@, t, before.next_id());
                }
            }
            assert forall|t: TableId| t != table_id implies #[trigger] after@.table(t)
                == before@.table(t) by {
                assert(after.rows(t) == before.rows(t));
            }
            assert(after@.table(table_id) == after.rows(table_id));
            assert(before@.table(table_id) == old_rows);
            assert(after@.floors =~= before@.floors);
        }
        Ok(())
    }

    fn list_items(&self, table_id: TableId) -> (outcome: Result<
        Vec<ItemInfoShort>,
        SimpleMemoryStorageError,
    >)
        ensures
            outcome is Ok,
    {
        let mut listing: Vec<ItemInfoShort> = Vec::new();
        match self.items.get(&table_id.0) {
            Some(rows) => {
                let mut i: usize = 0;
                while i < rows.len()
                    invariant
                        i <= rows.len(),
                        listing@.len() == i,
                        forall|j: int|
                            0 <= j < i ==> (#[trigger] listing@[j])@ == rows@[j]@.short(),
                    decreases rows.len() - i,
                {
                    listing.push(rows[i].to_short());
                    i = i + 1;
                }
                assert(listing_view(listing@) =~= self@.list(table_id));
            },
            None => {
                assert(listing_view(listing@) =~= self@.list(table_id));
            },
        }
        Ok(listing)
    }

    fn get_item(&self, table_id: TableId, item_id: ItemId) -> (outcome: Result<
        Option<ItemInfo>,
        SimpleMemoryStorageError,
    >)
        ensures
            outcome is Ok,
    {
        match self.items.get(&table_id.0) {
            Some(rows) => {
                let mut i: usize = 0;
                while i < rows.len()
                    invariant
                        i <= rows.len(),
                        self@.table(table_id) == rows_view(rows@),
                        forall|j: int| 0 <= j < i ==> rows@[j].item_id != item_id,
                    decreases rows.len() - i,
                {
                    if rows[i].item_id == item_id {
                        let found = rows[i].clone();
                        proof {
                            let table = self@.table(table_id);
                            assert(table == rows_view(rows@));
                            assert(table[i as int].item_id == item_id);
                        }
                        return Ok(Some(found));
                    }
                    i = i + 1;
                }
                proof {
                    let table = self@.table(table_id);
                    assert(table == rows_view(rows@));
                    assert forall|j: int| 0 <= j < table.len() implies table[j].item_id
                        != item_id by {
                        assert(table[j] == rows@[j]@);
                    }
                }
                Ok(None)
            },
            None => Ok(None),
        }
    }
}

} // verus!
