use crate::model::{ItemId, ItemInfo, ItemInfoShort, ItemInfoView, NewItemView, TableId};
use crate::storage::{find, listing_view, rows_wf, stays, without, Storage, StorageModel};
use vstd::prelude::*;

verus! {

/// Every row that stays after a removal was a row before it, and is not named.
pub proof fn lemma_without_is_part(rows: Seq<ItemInfoView>, item_ids: Seq<ItemId>, i: int)
    requires
        0 <= i < without(rows, item_ids).len(),
    ensures
        exists|j: int| 0 <= j < rows.len() && rows[j] == without(rows, item_ids)[i],
        !item_ids.contains(without(rows, item_ids)[i].item_id),
{
    let left = without(rows, item_ids);
    assert(left.contains(left[i]));
    rows.lemma_filter_contains_rev(stays(item_ids), left[i]);
    rows.lemma_filter_pred(stays(item_ids), i);
}

/// Removing items from a well-formed table leaves a well-formed table.
pub proof fn lemma_without_keeps_wf(
    rows: Seq<ItemInfoView>,
    item_ids: Seq<ItemId>,
    table_id: TableId,
    floor: int,
)
    requires
        rows_wf(rows, table_id, floor),
    ensures
        rows_wf(without(rows, item_ids), table_id, floor),
    decreases rows.len(),
{
    reveal(Seq::filter);
    if rows.len() > 0 {
        let front = rows.drop_last();
        let left = without(front, item_ids);
        assert(rows_wf(front, table_id, floor)) by {
            assert forall|i: int| 0 <= i < front.len() implies front[i] == rows[i] by {}
        }
        lemma_without_keeps_wf(front, item_ids, table_id, floor);
        assert forall|i: int| 0 <= i < left.len() implies (#[trigger] left[i]).item_id.0
            < rows.last().item_id.0 by {
            lemma_without_is_part(front, item_ids, i);
            let j = choose|j: int| 0 <= j < front.len() && front[j] == left[i];
            assert(rows[j] == front[j]);
        }
    }
}

/// A removal that names no row of the table keeps every row.
pub proof fn lemma_without_strangers(rows: Seq<ItemInfoView>, item_ids: Seq<ItemId>)
    requires
        forall|i: int| 0 <= i < rows.len() ==> !item_ids.contains((#[trigger] rows[i]).item_id),
    ensures
        without(rows, item_ids) == rows,
    decreases rows.len(),
{
    reveal(Seq::filter);
    if rows.len() > 0 {
        let front = rows.drop_last();
        assert forall|i: int| 0 <= i < front.len() implies !item_ids.contains(
            (#[trigger] front[i]).item_id,
        ) by {
            assert(front[i] == rows[i]);
        }
        lemma_without_strangers(front, item_ids);
        assert(stays(item_ids)(rows.last()));
        assert(front.push(rows.last()) =~= rows);
    } else {
        assert(without(rows, item_ids) =~= rows);
    }
}

/// A removal that names every row of the table keeps none.
pub proof fn lemma_without_all(rows: Seq<ItemInfoView>, item_ids: Seq<ItemId>)
    requires
        forall|i: int| 0 <= i < rows.len() ==> item_ids.contains((#[trigger] rows[i]).item_id),
    ensures
        without(rows, item_ids) == Seq::<ItemInfoView>::empty(),
    decreases rows.len(),
{
    reveal(Seq::filter);
    if rows.len() > 0 {
        let front = rows.drop_last();
        assert forall|i: int| 0 <= i < front.len() implies item_ids.contains(
            (#[trigger] front[i]).item_id,
        ) by {
            assert(front[i] == rows[i]);
        }
        lemma_without_all(front, item_ids);
        assert(!stays(item_ids)(rows.last()));
    } else {
        assert(without(rows, item_ids) =~= Seq::<ItemInfoView>::empty());
    }
}

/// A removal that names exactly one row of the table takes out that row and
/// keeps the others where they were.
pub proof fn lemma_without_one(rows: Seq<ItemInfoView>, item_ids: Seq<ItemId>, at: int)
    requires
        0 <= at < rows.len(),
        forall|i: int|
            0 <= i < rows.len() ==> (item_ids.contains((#[trigger] rows[i]).item_id) <==> i == at),
    ensures
        without(rows, item_ids) == rows.remove(at),
    decreases rows.len(),
{
    reveal(Seq::filter);
    let front = rows.drop_last();
    if at == rows.len() - 1 {
        assert forall|i: int| 0 <= i < front.len() implies !item_ids.contains(
            (#[trigger] front[i]).item_id,
        ) by {
            assert(front[i] == rows[i]);
        }
        lemma_without_strangers(front, item_ids);
        assert(!stays(item_ids)(rows.last()));
        assert(rows.remove(at) =~= front);
    } else {
        assert forall|i: int| 0 <= i < front.len() implies (item_ids.contains(
            (#[trigger] front[i]).item_id,
        ) <==> i == at) by {
            assert(front[i] == rows[i]);
        }
        lemma_without_one(front, item_ids, at);
        assert(stays(item_ids)(rows.last()));
        assert(rows.remove(at) =~= front.remove(at).push(rows.last()));
    }
}

/// In a well-formed table an identifier finds the one row that carries it.
pub proof fn lemma_find_row(rows: Seq<ItemInfoView>, table_id: TableId, floor: int, at: int)
    requires
        rows_wf(rows, table_id, floor),
        0 <= at < rows.len(),
    ensures
        find(rows, rows[at].item_id) == Some(rows[at]),
{
    let item_id = rows[at].item_id;
    assert(rows[at].item_id == item_id && forall|j: int|
        0 <= j < at ==> (#[trigger] rows[j]).item_id != item_id);
    let first = choose|i: int|
        0 <= i < rows.len() && rows[i].item_id == item_id && forall|j: int|
            0 <= j < i ==> rows[j].item_id != item_id;
    assert(first == at) by {
        if first < at {
            assert(rows[first].item_id.0 < rows[at].item_id.0);
        }
        if at < first {
            assert(rows[at].item_id.0 < rows[first].item_id.0);
        }
    }
}

/// After a removal from a well-formed table, a named identifier finds nothing
/// and any other identifier finds what it found before.
pub proof fn lemma_find_without(
    rows: Seq<ItemInfoView>,
    item_ids: Seq<ItemId>,
    table_id: TableId,
    floor: int,
    item_id: ItemId,
)
    requires
        rows_wf(rows, table_id, floor),
    ensures
        find(without(rows, item_ids), item_id) == if item_ids.contains(item_id) {
            None
        } else {
            find(rows, item_id)
        },
{
    let left = without(rows, item_ids);
    lemma_without_keeps_wf(rows, item_ids, table_id, floor);
    if exists|i: int| 0 <= i < left.len() && left[i].item_id == item_id {
        let i = choose|i: int| 0 <= i < left.len() && left[i].item_id == item_id;
        lemma_without_is_part(rows, item_ids, i);
        let j = choose|j: int| 0 <= j < rows.len() && rows[j] == left[i];
        lemma_find_row(left, table_id, floor, i);
        lemma_find_row(rows, table_id, floor, j);
    } else {
        if !item_ids.contains(item_id) {
            if exists|j: int| 0 <= j < rows.len() && rows[j].item_id == item_id {
                let j = choose|j: int| 0 <= j < rows.len() && rows[j].item_id == item_id;
                assert(stays(item_ids)(rows[j]));
                rows.lemma_filter_contains(stays(item_ids), j);
                let i = choose|i: int| 0 <= i < left.len() && left[i] == rows[j];
                assert(left[i].item_id == item_id);
            }
        }
    }
}

/// One change to what a storage holds.
pub enum Mutation {
    /// `items` were added to table `table_id`.
    Add { table_id: TableId, items: Seq<NewItemView> },
    /// The items named in `item_ids` were removed from table `table_id`.
    Remove { table_id: TableId, item_ids: Seq<ItemId> },
}

impl Mutation {
    /// This change leads from `before` to `after`.
    pub open spec fn leads(self, before: StorageModel, after: StorageModel) -> bool {
        match self {
            Mutation::Add { table_id, items } => after.added(before, table_id, items),
            Mutation::Remove { table_id, item_ids } => after.removed(before, table_id, item_ids),
        }
    }

    /// This change adds to table `table_id`.
    pub open spec fn writes(self, table_id: TableId) -> bool {
        self matches Mutation::Add { table_id: to, .. } && to == table_id
    }
}

/// `states` is the life of a storage that began empty: `mutations[i]` leads
/// from `states[i]` to `states[i + 1]`.
pub open spec fn history(states: Seq<StorageModel>, mutations: Seq<Mutation>) -> bool {
    &&& states.len() == mutations.len() + 1
    &&& states[0] == StorageModel::empty()
    &&& forall|i: int|
        0 <= i < mutations.len() ==> (#[trigger] mutations[i]).leads(states[i], states[i + 1])
}

/// A table that nothing was ever added to lists as empty, and no identifier
/// finds an item in it, whatever happened to the other tables.
pub proof fn law_unwritten_table_is_empty(
    states: Seq<StorageModel>,
    mutations: Seq<Mutation>,
    table_id: TableId,
    item_id: ItemId,
)
    requires
        history(states, mutations),
        forall|i: int| 0 <= i < mutations.len() ==> !(#[trigger] mutations[i]).writes(table_id),
    ensures
        states.last().list(table_id) == Seq::<crate::model::ItemInfoShortView>::empty(),
        states.last().get(table_id, item_id) is None,
    decreases mutations.len(),
{
    if mutations.len() == 0 {
        assert(states.last().table(table_id) =~= Seq::empty());
    } else {
        let earlier = states.drop_last();
        let first = mutations.drop_last();
        assert(history(earlier, first)) by {
            assert forall|i: int| 0 <= i < first.len() implies (#[trigger] first[i]).leads(
                earlier[i],
                earlier[i + 1],
            ) by {
                assert(mutations[i].leads(states[i], states[i + 1]));
            }
        }
        assert forall|i: int| 0 <= i < first.len() implies !(#[trigger] first[i]).writes(
            table_id,
        ) by {
            assert(!mutations[i].writes(table_id));
        }
        law_unwritten_table_is_empty(earlier, first, table_id, item_id);
        let before = earlier.last();
        let after = states.last();
        assert(before.table(table_id) =~= Seq::empty()) by {
            assert(before.list(table_id).len() == before.table(table_id).len());
        }
        let last = mutations.last();
        assert(last.leads(before, after)) by {
            assert(mutations[mutations.len() - 1].leads(
                states[mutations.len() - 1],
                states[mutations.len() - 1 + 1],
            ));
        }
        assert(!last.writes(table_id));
        match last {
            Mutation::Add { table_id: to, items } => {
                assert(after.table(table_id) == before.table(table_id));
            },
            Mutation::Remove { table_id: from, item_ids } => {
                if from == table_id {
                    lemma_without_strangers(before.table(table_id), item_ids);
                } else {
                    assert(after.table(table_id) == before.table(table_id));
                }
            },
        }
        assert(after.table(table_id) =~= Seq::empty());
    }
    assert(states.last().list(table_id) =~= Seq::empty());
}

/// Items added in one call are listed behind what the table held, in the
/// order in which they were given, under identifiers that differ from one
/// another and from every identifier listed before them.
pub proof fn law_added_items_list_in_order(
    before: StorageModel,
    after: StorageModel,
    table_id: TableId,
    items: Seq<NewItemView>,
)
    requires
        before.wf(),
        after.added(before, table_id, items),
    ensures
        after.list(table_id).len() == before.list(table_id).len() + items.len(),
        after.list(table_id).take(before.list(table_id).len() as int) == before.list(table_id),
        forall|k: int|
            0 <= k < items.len() ==> {
                let entry = #[trigger] after.list(table_id)[before.list(table_id).len() + k];
                entry.table_id == table_id && entry.name == items[k].name
            },
        forall|i: int, j: int|
            0 <= i < j < after.list(table_id).len() ==> (#[trigger] after.list(
                table_id,
            )[i]).item_id != (#[trigger] after.list(table_id)[j]).item_id,
        rows_wf(after.table(table_id), table_id, after.floor(table_id)),
{
    lemma_added_keeps_wf(before, after, table_id, items);
    let old_rows = before.table(table_id);
    let new_rows = after.table(table_id);
    assert(after.list(table_id).take(old_rows.len() as int) =~= before.list(table_id)) by {
        assert forall|i: int| 0 <= i < old_rows.len() implies new_rows[i] == old_rows[i] by {
            assert(new_rows.take(old_rows.len() as int)[i] == new_rows[i]);
        }
    }
    assert forall|k: int| 0 <= k < items.len() implies {
        let entry = #[trigger] after.list(table_id)[before.list(table_id).len() + k];
        entry.table_id == table_id && entry.name == items[k].name
    } by {
        let row = new_rows[old_rows.len() + k];
        assert(row == ItemInfoView::stored(table_id, row.item_id, items[k]));
    }
    assert forall|i: int, j: int| 0 <= i < j < after.list(table_id).len() implies (
    #[trigger] after.list(table_id)[i]).item_id != (#[trigger] after.list(table_id)[j]).item_id by {
        assert(new_rows[i].item_id.0 < new_rows[j].item_id.0);
    }
}

/// The table that items were added to is well formed below its new floor.
pub proof fn lemma_added_keeps_wf(
    before: StorageModel,
    after: StorageModel,
    table_id: TableId,
    items: Seq<NewItemView>,
)
    requires
        before.wf(),
        after.added(before, table_id, items),
    ensures
        rows_wf(after.table(table_id), table_id, after.floor(table_id)),
{
    let old_rows = before.table(table_id);
    let new_rows = after.table(table_id);
    let n = old_rows.len() as int;
    assert(rows_wf(old_rows, table_id, before.floor(table_id)));
    assert(after.floor(table_id) >= before.floor(table_id));
    assert forall|i: int| 0 <= i < n implies new_rows[i] == old_rows[i] by {
        assert(new_rows.take(n)[i] == new_rows[i]);
    }
    assert forall|i: int| n <= i < new_rows.len() implies {
        let row = #[trigger] new_rows[i];
        &&& row.table_id == table_id
        &&& before.floor(table_id) <= row.item_id.0 < after.floor(table_id)
    } by {
        let row = new_rows[n + (i - n)];
        assert(row == ItemInfoView::stored(table_id, row.item_id, items[i - n]));
    }
    assert forall|i: int, j: int| 0 <= i < j < new_rows.len() implies (
    #[trigger] new_rows[i]).item_id.0 < (#[trigger] new_rows[j]).item_id.0 by {
        if j < n {
            assert(old_rows[i].item_id.0 < old_rows[j].item_id.0);
        } else if i < n {
            assert(old_rows[i].item_id.0 < before.floor(table_id));
        } else {
            assert(new_rows[n + (i - n)].item_id.0 < new_rows[n + (j - n)].item_id.0);
        }
    }
}

/// Items added by a later call are listed behind those of an earlier call,
/// and under greater identifiers.
pub proof fn law_later_call_lists_behind(
    before: StorageModel,
    between: StorageModel,
    after: StorageModel,
    table_id: TableId,
    earlier: Seq<NewItemView>,
    later: Seq<NewItemView>,
)
    requires
        before.wf(),
        between.wf(),
        between.added(before, table_id, earlier),
        after.added(between, table_id, later),
    ensures
        after.list(table_id).len() == before.list(table_id).len() + earlier.len() + later.len(),
        forall|j: int|
            0 <= j < earlier.len() ==> (#[trigger] after.list(table_id)[before.list(
                table_id,
            ).len() + j]).name == earlier[j].name,
        forall|k: int|
            0 <= k < later.len() ==> (#[trigger] after.list(table_id)[before.list(table_id).len()
                + earlier.len() + k]).name == later[k].name,
        forall|j: int, k: int|
            0 <= j < earlier.len() && 0 <= k < later.len() ==> (#[trigger] after.list(
                table_id,
            )[before.list(table_id).len() + j]).item_id.0 < (#[trigger] after.list(
                table_id,
            )[before.list(table_id).len() + earlier.len() + k]).item_id.0,
{
    let n = before.table(table_id).len() as int;
    let m = between.table(table_id).len() as int;
    let mid_rows = between.table(table_id);
    let new_rows = after.table(table_id);
    lemma_added_keeps_wf(between, after, table_id, later);
    assert forall|j: int| 0 <= j < earlier.len() implies #[trigger] new_rows[n + j]
        == mid_rows[n + j] by {
        assert(new_rows.take(m)[n + j] == new_rows[n + j]);
    }
    assert forall|j: int| 0 <= j < earlier.len() implies (#[trigger] after.list(table_id)[n
        + j]).name == earlier[j].name by {
        let row = mid_rows[n + j];
        assert(row == ItemInfoView::stored(table_id, row.item_id, earlier[j]));
    }
    assert forall|k: int| 0 <= k < later.len() implies (#[trigger] after.list(table_id)[n
        + earlier.len() + k]).name == later[k].name by {
        let row = new_rows[m + k];
        assert(row == ItemInfoView::stored(table_id, row.item_id, later[k]));
    }
    assert forall|j: int, k: int| 0 <= j < earlier.len() && 0 <= k < later.len() implies (
    #[trigger] after.list(table_id)[n + j]).item_id.0 < (#[trigger] after.list(table_id)[n
        + earlier.len() + k]).item_id.0 by {
        assert(new_rows[n + j].item_id.0 < new_rows[m + k].item_id.0);
    }
}

/// An identifier that was given out in a table is not given out in it again,
/// not even once its item is removed: whatever is added later gets another.
pub proof fn law_identifiers_are_not_reused(
    before: StorageModel,
    between: StorageModel,
    after: StorageModel,
    table_id: TableId,
    at: int,
    item_ids: Seq<ItemId>,
    items: Seq<NewItemView>,
    k: int,
)
    requires
        before.wf(),
        0 <= at < before.table(table_id).len(),
        between.removed(before, table_id, item_ids),
        after.added(between, table_id, items),
        0 <= k < items.len(),
    ensures
        after.table(table_id)[between.table(table_id).len() + k].item_id != before.table(
            table_id,
        )[at].item_id,
{
    let gone = before.table(table_id)[at];
    assert(rows_wf(before.table(table_id), table_id, before.floor(table_id)));
    assert(gone.item_id.0 < before.floor(table_id));
    assert(between.floor(table_id) == before.floor(table_id));
    let row = after.table(table_id)[between.table(table_id).len() + k];
    assert(between.floor(table_id) <= row.item_id.0);
}

/// Two listings of one table, with nothing changed in between, are the same.
pub proof fn law_list_twice_is_same<S: Storage>(
    storage: S,
    table_id: TableId,
    first: Vec<ItemInfoShort>,
    second: Vec<ItemInfoShort>,
)
    requires
        storage.inv(),
        call_ensures(S::list_items, (&storage, table_id), Ok(first)),
        call_ensures(S::list_items, (&storage, table_id), Ok(second)),
    ensures
        listing_view(first@) == listing_view(second@),
{
}

/// Two gets of one item, with nothing changed in between, find the same.
pub proof fn law_get_twice_is_same<S: Storage>(
    storage: S,
    table_id: TableId,
    item_id: ItemId,
    first: Option<ItemInfo>,
    second: Option<ItemInfo>,
)
    requires
        storage.inv(),
        call_ensures(S::get_item, (&storage, table_id, item_id), Ok(first)),
        call_ensures(S::get_item, (&storage, table_id, item_id), Ok(second)),
    ensures
        first is Some <==> second is Some,
        first is Some ==> first->0@ == second->0@,
{
}

/// Adding items and then removing exactly the identifiers they were given
/// puts the table back as it was, and none of those identifiers finds an item.
pub proof fn law_add_then_remove_all(
    before: StorageModel,
    added: StorageModel,
    after: StorageModel,
    table_id: TableId,
    items: Seq<NewItemView>,
    item_ids: Seq<ItemId>,
)
    requires
        before.wf(),
        added.added(before, table_id, items),
        after.removed(added, table_id, item_ids),
        item_ids.len() == items.len(),
        forall|k: int|
            0 <= k < items.len() ==> #[trigger] item_ids[k] == added.table(table_id)[before.table(
                table_id,
            ).len() + k].item_id,
    ensures
        after.table(table_id) == before.table(table_id),
        forall|k: int| 0 <= k < items.len() ==> after.get(table_id, #[trigger] item_ids[k]) is None,
{
    let old_rows = before.table(table_id);
    let all_rows = added.table(table_id);
    let n = old_rows.len() as int;
    let new_rows = all_rows.skip(n);
    lemma_added_keeps_wf(before, added, table_id, items);
    assert(rows_wf(old_rows, table_id, before.floor(table_id)));
    assert(all_rows =~= old_rows + new_rows) by {
        assert forall|i: int| 0 <= i < n implies all_rows[i] == old_rows[i] by {
            assert(all_rows.take(n)[i] == all_rows[i]);
        }
    }
    assert forall|i: int| 0 <= i < old_rows.len() implies !item_ids.contains(
        (#[trigger] old_rows[i]).item_id,
    ) by {
        if item_ids.contains(old_rows[i].item_id) {
            let k = choose|k: int| 0 <= k < item_ids.len() && item_ids[k] == old_rows[i].item_id;
            assert(item_ids[k] == all_rows[n + k].item_id);
            assert(before.floor(table_id) <= all_rows[n + k].item_id.0);
            assert(old_rows[i].item_id.0 < before.floor(table_id));
        }
    }
    assert forall|i: int| 0 <= i < new_rows.len() implies item_ids.contains(
        (#[trigger] new_rows[i]).item_id,
    ) by {
        assert(new_rows[i] == all_rows[n + i]);
        assert(item_ids[i] == all_rows[n + i].item_id);
    }
    lemma_without_strangers(old_rows, item_ids);
    lemma_without_all(new_rows, item_ids);
    Seq::filter_distributes_over_add(old_rows, new_rows, stays(item_ids));
    assert(without(all_rows, item_ids) =~= old_rows);
    assert forall|k: int| 0 <= k < items.len() implies after.get(
        table_id,
        #[trigger] item_ids[k],
    ) is None by {
        lemma_find_without(all_rows, item_ids, table_id, added.floor(table_id), item_ids[k]);
    }
}

/// Adding one item to an empty table and then removing the identifier it was
/// given leaves the table empty, and that identifier finds nothing.
pub proof fn law_add_remove_single(
    before: StorageModel,
    added: StorageModel,
    after: StorageModel,
    table_id: TableId,
    item: NewItemView,
)
    requires
        before.wf(),
        before.table(table_id).len() == 0,
        added.added(before, table_id, seq![item]),
        after.removed(added, table_id, seq![added.table(table_id)[0].item_id]),
    ensures
        after.list(table_id).len() == 0,
        after.get(table_id, added.table(table_id)[0].item_id) is None,
{
    let item_ids = seq![added.table(table_id)[0].item_id];
    law_add_then_remove_all(before, added, after, table_id, seq![item], item_ids);
    assert(after.get(table_id, item_ids[0]) is None);
}

/// Adding two items to an empty table and then removing both identifiers
/// they were given leaves the table empty, and neither identifier finds
/// anything.
pub proof fn law_add_remove_multiple(
    before: StorageModel,
    added: StorageModel,
    after: StorageModel,
    table_id: TableId,
    first: NewItemView,
    second: NewItemView,
)
    requires
        before.wf(),
        before.table(table_id).len() == 0,
        added.added(before, table_id, seq![first, second]),
        after.removed(
            added,
            table_id,
            seq![added.table(table_id)[0].item_id, added.table(table_id)[1].item_id],
        ),
    ensures
        after.list(table_id).len() == 0,
        after.get(table_id, added.table(table_id)[0].item_id) is None,
        after.get(table_id, added.table(table_id)[1].item_id) is None,
{
    let item_ids = seq![added.table(table_id)[0].item_id, added.table(table_id)[1].item_id];
    law_add_then_remove_all(before, added, after, table_id, seq![first, second], item_ids);
    assert(after.get(table_id, item_ids[0]) is None);
    assert(after.get(table_id, item_ids[1]) is None);
}

/// Removing identifiers that the table does not hold changes nothing; so a
/// removal from an empty table leaves it empty.
pub proof fn law_remove_nonexistent(
    before: StorageModel,
    after: StorageModel,
    table_id: TableId,
    item_ids: Seq<ItemId>,
)
    requires
        before.wf(),
        after.wf(),
        after.removed(before, table_id, item_ids),
        forall|k: int| 0 <= k < item_ids.len() ==> before.get(table_id, #[trigger] item_ids[k]) is None,
    ensures
        after == before,
        before.table(table_id).len() == 0 ==> after.list(table_id).len() == 0,
{
    let rows = before.table(table_id);
    assert forall|i: int| 0 <= i < rows.len() implies !item_ids.contains(
        (#[trigger] rows[i]).item_id,
    ) by {
        if item_ids.contains(rows[i].item_id) {
            let k = choose|k: int| 0 <= k < item_ids.len() && item_ids[k] == rows[i].item_id;
            lemma_find_row(rows, table_id, before.floor(table_id), i);
            assert(before.get(table_id, item_ids[k]) is None);
        }
    }
    lemma_without_strangers(rows, item_ids);
    assert(after.tables =~= before.tables) by {
        assert forall|t: TableId| after.tables[t] == before.tables[t] by {
            assert(after.table(t) == before.table(t));
        }
    }
}

/// Removing one identifier that the table holds together with one that it
/// does not takes out the one row and nothing else: the other rows stay where
/// they were, the removed identifier finds nothing, and every other
/// identifier finds what it found before.
pub proof fn law_remove_mixed(
    before: StorageModel,
    after: StorageModel,
    table_id: TableId,
    at: int,
    missing: ItemId,
    other: ItemId,
)
    requires
        before.wf(),
        0 <= at < before.table(table_id).len(),
        before.get(table_id, missing) is None,
        after.removed(before, table_id, seq![before.table(table_id)[at].item_id, missing]),
    ensures
        after.table(table_id) == before.table(table_id).remove(at),
        after.get(table_id, before.table(table_id)[at].item_id) is None,
        other != before.table(table_id)[at].item_id ==> after.get(table_id, other) == before.get(
            table_id,
            other,
        ),
        rows_wf(after.table(table_id), table_id, after.floor(table_id)),
{
    let rows = before.table(table_id);
    let present = rows[at].item_id;
    let item_ids = seq![present, missing];
    let floor = before.floor(table_id);
    assert(rows_wf(rows, table_id, floor));
    assert(item_ids[0] == present && item_ids[1] == missing);
    assert forall|i: int| 0 <= i < rows.len() implies (item_ids.contains(
        (#[trigger] rows[i]).item_id,
    ) <==> i == at) by {
        lemma_find_row(rows, table_id, floor, i);
        if i != at {
            if i < at {
                assert(rows[i].item_id.0 < rows[at].item_id.0);
            } else {
                assert(rows[at].item_id.0 < rows[i].item_id.0);
            }
        }
    }
    lemma_without_one(rows, item_ids, at);
    lemma_find_without(rows, item_ids, table_id, floor, present);
    lemma_find_without(rows, item_ids, table_id, floor, other);
    lemma_without_keeps_wf(rows, item_ids, table_id, floor);
    assert(after.floor(table_id) == floor);
    if other != present && item_ids.contains(other) {
        assert(other == missing);
    }
}

} // verus!
