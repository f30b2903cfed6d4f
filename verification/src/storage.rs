use crate::model::{
    ItemId, ItemInfo, ItemInfoShort, ItemInfoShortView, ItemInfoView, NewItem, NewItemView, TableId,
};
use vstd::prelude::*;

verus! {

/// The content of a sequence of items to add.
pub open spec fn new_items_view(items: Seq<NewItem>) -> Seq<NewItemView> {
    items.map_values(|item: NewItem| item@)
}

/// The content of a sequence of stored items.
pub open spec fn rows_view(rows: Seq<ItemInfo>) -> Seq<ItemInfoView> {
    rows.map_values(|row: ItemInfo| row@)
}

/// The content of a listing.
pub open spec fn listing_view(listing: Seq<ItemInfoShort>) -> Seq<ItemInfoShortView> {
    listing.map_values(|entry: ItemInfoShort| entry@)
}

/// What a listing shows of the rows of a table, in their order.
pub open spec fn shorts(rows: Seq<ItemInfoView>) -> Seq<ItemInfoShortView> {
    rows.map_values(|row: ItemInfoView| row.short())
}

/// A listing of rows has an entry for each row, in the rows' order.
pub proof fn lemma_listing_entries(listing: Seq<ItemInfoShort>, rows: Seq<ItemInfoView>)
    requires
        listing_view(listing) == shorts(rows),
    ensures
        listing.len() == rows.len(),
        forall|i: int| 0 <= i < rows.len() ==> (#[trigger] listing[i])@ == rows[i].short(),
{
    assert(listing_view(listing).len() == listing.len());
    assert(shorts(rows).len() == rows.len());
    assert forall|i: int| 0 <= i < rows.len() implies (#[trigger] listing[i])@
        == rows[i].short() by {
        assert(listing_view(listing)[i] == listing[i]@);
        assert(shorts(rows)[i] == rows[i].short());
    }
}

/// The first row with the identifier `item_id`, if there is one.
pub open spec fn find(rows: Seq<ItemInfoView>, item_id: ItemId) -> Option<ItemInfoView> {
    if exists|i: int| 0 <= i < rows.len() && rows[i].item_id == item_id {
        let first = choose|i: int|
            0 <= i < rows.len() && rows[i].item_id == item_id && forall|j: int|
                0 <= j < i ==> rows[j].item_id != item_id;
        Some(rows[first])
    } else {
        None
    }
}

/// The test that a row passes when `item_ids` does not name it.
pub open spec fn stays(item_ids: Seq<ItemId>) -> spec_fn(ItemInfoView) -> bool {
    |row: ItemInfoView| !item_ids.contains(row.item_id)
}

/// The rows that stay when the items named in `item_ids` leave, in their order.
pub open spec fn without(rows: Seq<ItemInfoView>, item_ids: Seq<ItemId>) -> Seq<ItemInfoView> {
    rows.filter(stays(item_ids))
}

/// The rows of table `table_id` are well formed below `floor`: each belongs to
/// the table, identifiers rise strictly along the sequence, and all of them
/// lie below `floor`.
pub open spec fn rows_wf(rows: Seq<ItemInfoView>, table_id: TableId, floor: int) -> bool {
    &&& forall|i: int|
        0 <= i < rows.len() ==> (#[trigger] rows[i]).table_id == table_id && rows[i].item_id.0
            < floor
    &&& forall|i: int, j: int|
        0 <= i < j < rows.len() ==> (#[trigger] rows[i]).item_id.0 < (#[trigger] rows[j]).item_id.0
}

/// What a storage backend holds, as mathematics.
///
/// Every table has a sequence of rows, empty for a table that was never
/// written to, and a floor: a bound above every identifier that the backend
/// ever gave out in that table, whether the item is still there or not.
#[verifier::ext_equal]
pub struct StorageModel {
    pub tables: Map<TableId, Seq<ItemInfoView>>,
    pub floors: Map<TableId, int>,
}

impl StorageModel {
    /// A storage in which no table holds anything and no identifier was given out.
    pub open spec fn empty() -> StorageModel {
        StorageModel {
            tables: Map::new(|t: TableId| true, |t: TableId| Seq::empty()),
            floors: Map::new(|t: TableId| true, |t: TableId| 0int),
        }
    }

    /// The rows of table `table_id`, in listing order.
    pub open spec fn table(self, table_id: TableId) -> Seq<ItemInfoView> {
        self.tables[table_id]
    }

    /// The bound above every identifier ever given out in table `table_id`.
    pub open spec fn floor(self, table_id: TableId) -> int {
        self.floors[table_id]
    }

    /// Both maps are total, and every table is well formed below its floor.
    pub open spec fn wf(self) -> bool {
        &&& forall|t: TableId| self.tables.contains_key(t)
        &&& forall|t: TableId| self.floors.contains_key(t)
        &&& forall|t: TableId| rows_wf(#[trigger] self.table(t), t, self.floor(t))
    }

    /// What listing table `table_id` returns.
    pub open spec fn list(self, table_id: TableId) -> Seq<ItemInfoShortView> {
        shorts(self.table(table_id))
    }

    /// What getting item `item_id` of table `table_id` returns.
    pub open spec fn get(self, table_id: TableId, item_id: ItemId) -> Option<ItemInfoView> {
        find(self.table(table_id), item_id)
    }

    /// `self` is `before` after `items` were added to table `table_id`.
    ///
    /// The old rows of the table stay in front; behind them stand the new
    /// items in the order given, each with an identifier at or above the
    /// table's old floor and above that of the item before it. No other table
    /// changes, and no floor sinks.
    pub open spec fn added(self, before: StorageModel, table_id: TableId, items: Seq<NewItemView>)
        -> bool {
        let old_rows = before.table(table_id);
        let new_rows = self.table(table_id);
        &&& forall|t: TableId| t != table_id ==> #[trigger] self.table(t) == before.table(t)
        &&& forall|t: TableId| #[trigger] self.floor(t) >= before.floor(t)
        &&& new_rows.len() == old_rows.len() + items.len()
        &&& new_rows.take(old_rows.len() as int) == old_rows
        &&& forall|k: int|
            0 <= k < items.len() ==> {
                let row = #[trigger] new_rows[old_rows.len() + k];
                &&& row == ItemInfoView::stored(table_id, row.item_id, items[k])
                &&& before.floor(table_id) <= row.item_id.0 < self.floor(table_id)
            }
        &&& forall|j: int, k: int|
            0 <= j < k < items.len() ==> (#[trigger] new_rows[old_rows.len() + j]).item_id.0 < (
            #[trigger] new_rows[old_rows.len() + k]).item_id.0
    }

    /// `self` is `before` after the items named in `item_ids` were removed
    /// from table `table_id`: the other rows of the table stay, in their
    /// order; no other table changes; the floors stay.
    pub open spec fn removed(self, before: StorageModel, table_id: TableId, item_ids: Seq<ItemId>)
        -> bool {
        &&& forall|t: TableId| t != table_id ==> #[trigger] self.table(t) == before.table(t)
        &&& self.table(table_id) == without(before.table(table_id), item_ids)
        &&& self.floors == before.floors
    }
}

/// Everything that is needed to keep the items of tables.
///
/// Each method is one atomic operation: it either takes effect as a whole or,
/// when it fails, leaves what the storage holds as it was.
pub trait Storage: Sized {
    /// What the backend reports when an operation fails.
    type Error;

    /// What the storage holds.
    spec fn view(&self) -> StorageModel;

    /// The backend's own consistency condition.
    spec fn inv(&self) -> bool;

    /// How many more items the backend can take before it runs out of
    /// identifiers.
    spec fn room(&self) -> nat;

    /// The backend cannot fail: whatever is asked of it within its room
    /// succeeds. A backend that depends on anything that may fail is not
    /// infallible.
    spec fn infallible(&self) -> bool;

    /// A consistent backend holds a well-formed model.
    proof fn inv_gives_wf(&self)
        requires
            self.inv(),
        ensures
            self@.wf(),
    ;

    /// Whether the backend can still take `count` more items.
    fn has_room(&self, count: usize) -> (yes: bool)
        requires
            self.inv(),
        ensures
            yes == (count <= self.room()),
    ;

    /// Adds `items` to table `table_id`, in the order given, each under a
    /// fresh identifier. The table need not exist before.
    fn add_items(&mut self, table_id: TableId, items: Vec<NewItem>) -> (outcome: Result<
        (),
        Self::Error,
    >)
        requires
            old(self).inv(),
            items@.len() <= old(self).room(),
        ensures
            final(self).inv(),
            old(self).infallible() ==> outcome is Ok && final(self).infallible(),
            outcome is Ok ==> final(self)@.added(old(self)@, table_id, new_items_view(items@)),
            outcome is Ok ==> final(self).room() + items@.len() >= old(self).room(),
            outcome is Err ==> final(self)@ == old(self)@ && final(self).room() == old(self).room(),
    ;

    /// Removes from table `table_id` the items named in `item_ids`. A name
    /// that the table does not hold is passed over.
    fn remove_items(&mut self, table_id: TableId, item_ids: Vec<ItemId>) -> (outcome: Result<
        (),
        Self::Error,
    >)
        requires
            old(self).inv(),
        ensures
            final(self).inv(),
            final(self).room() == old(self).room(),
            old(self).infallible() ==> outcome is Ok && final(self).infallible(),
            outcome is Ok ==> final(self)@.removed(old(self)@, table_id, item_ids@),
            outcome is Err ==> final(self)@ == old(self)@,
    ;

    /// Lists the items of table `table_id`: those added first come first.
    fn list_items(&self, table_id: TableId) -> (outcome: Result<Vec<ItemInfoShort>, Self::Error>)
        requires
            self.inv(),
        ensures
            self.infallible() ==> outcome is Ok,
            outcome matches Ok(listing) ==> listing_view(listing@) == self@.list(table_id),
    ;

    /// Gets item `item_id` of table `table_id`, or `None` where the table
    /// holds no such item.
    fn get_item(&self, table_id: TableId, item_id: ItemId) -> (outcome: Result<
        Option<ItemInfo>,
        Self::Error,
    >)
        requires
            self.inv(),
        ensures
            self.infallible() ==> outcome is Ok,
            outcome matches Ok(found) ==> match found {
                Some(item) => self@.get(table_id, item_id) == Some(item@),
                None => self@.get(table_id, item_id) is None,
            },
    ;
}

} // verus!
