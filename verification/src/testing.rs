use crate::laws::{
    law_add_then_remove_all, law_remove_mixed, lemma_find_row, lemma_without_strangers,
};
use crate::memory::{SimpleMemoryStorage, SimpleMemoryStorageError};
use crate::model::{
    ItemId, ItemInfo, ItemInfoShort, ItemInfoView, NewItem, NewItemView, TableId, Timestamp,
};
use crate::storage::{
    lemma_listing_entries, listing_view, new_items_view, Storage, StorageModel,
};
use vstd::prelude::*;

verus! {

/// The number of items for which a storage must have room before a scenario
/// runs against it: no scenario adds more.
pub const SUITE_ROOM: usize = 2;

/// The table that the scenarios work on.
pub fn test_table_id() -> (table_id: TableId)
    ensures
        table_id == TableId(1),
{
    TableId(1)
}

/// What the first item that the scenarios add holds.
pub open spec fn spec_test_new_item() -> NewItemView {
    NewItemView {
        name: "test new item"@,
        comment: "test new item comment"@,
        created_at: Timestamp { secs: 0, nanos: 0 },
        forecast_ready_at: Timestamp { secs: 0, nanos: 0 },
    }
}

/// The first item that the scenarios add.
pub fn test_new_item() -> (item: NewItem)
    ensures
        item@ == spec_test_new_item(),
{
    NewItem {
        name: "test new item".to_owned(),
        comment: "test new item comment".to_owned(),
        created_at: Timestamp::unix_epoch(),
        forecast_ready_at: Timestamp::unix_epoch(),
    }
}

/// What the second item that the scenarios add holds.
pub open spec fn spec_test_new_item_2() -> NewItemView {
    NewItemView {
        name: "test other item"@,
        comment: "test other item comment"@,
        created_at: Timestamp { secs: 0, nanos: 0 },
        forecast_ready_at: Timestamp { secs: 0, nanos: 0 },
    }
}

/// The second item that the scenarios add.
pub fn test_new_item_2() -> (item: NewItem)
    ensures
        item@ == spec_test_new_item_2(),
{
    NewItem {
        name: "test other item".to_owned(),
        comment: "test other item comment".to_owned(),
        created_at: Timestamp::unix_epoch(),
        forecast_ready_at: Timestamp::unix_epoch(),
    }
}

/// `listing` is an answer of `storage` to a listing of table `table_id`.
pub open spec fn lists<S: Storage>(
    storage: &S,
    table_id: TableId,
    listing: Vec<ItemInfoShort>,
) -> bool {
    call_ensures(S::list_items, (storage, table_id), Ok::<Vec<ItemInfoShort>, S::Error>(listing))
}

/// `found` is an answer of `storage` to a get of item `item_id` of table
/// `table_id`.
pub open spec fn finds<S: Storage>(
    storage: &S,
    table_id: TableId,
    item_id: ItemId,
    found: Option<ItemInfo>,
) -> bool {
    call_ensures(
        S::get_item,
        (storage, table_id, item_id),
        Ok::<Option<ItemInfo>, S::Error>(found),
    )
}

/// `error` is what `storage` answered to a listing of table `table_id`.
pub open spec fn fails_to_list<S: Storage>(
    storage: &S,
    table_id: TableId,
    error: S::Error,
) -> bool {
    call_ensures(S::list_items, (storage, table_id), Err::<Vec<ItemInfoShort>, S::Error>(error))
}

/// `error` is what `storage` answered to a get of item `item_id` of table
/// `table_id`.
pub open spec fn fails_to_get<S: Storage>(
    storage: &S,
    table_id: TableId,
    item_id: ItemId,
    error: S::Error,
) -> bool {
    call_ensures(
        S::get_item,
        (storage, table_id, item_id),
        Err::<Option<ItemInfo>, S::Error>(error),
    )
}

/// `storage` was asked to list table 1, and `unused` tells whether it
/// listed nothing. Every scenario but the first begins so, and goes on only
/// with a table that is not in use.
pub open spec fn began<S: Storage>(storage: &S, unused: bool) -> bool {
    exists|listing: Vec<ItemInfoShort>| #[trigger]
        lists(storage, TableId(1), listing) && unused == (listing@.len() == 0)
}

/// `storage` was asked to list table `table_id` and to get its item
/// `item_id`, and `yes` tells whether it listed nothing and found nothing.
pub open spec fn looked_gone<S: Storage>(
    storage: &S,
    table_id: TableId,
    item_id: ItemId,
    yes: bool,
) -> bool {
    exists|listing: Vec<ItemInfoShort>, found: Option<ItemInfo>|
        {
            &&& #[trigger] lists(storage, table_id, listing)
            &&& #[trigger] finds(storage, table_id, item_id, found)
            &&& yes == (listing@.len() == 0 && found is None)
        }
}

/// Whether a listing entry is that of `item` in table `table_id`.
pub fn lists_item(entry: &ItemInfoShort, table_id: TableId, item: &NewItem) -> (yes: bool)
    ensures
        yes == (entry.table_id == table_id && entry.name@ == item.name@),
{
    entry.table_id == table_id && entry.name == item.name
}

/// Whether `found` is `item` as table `table_id` keeps it under the
/// identifier `item_id`: the same in every field.
pub fn holds_item(
    found: &Option<ItemInfo>,
    table_id: TableId,
    item_id: ItemId,
    item: &NewItem,
) -> (yes: bool)
    ensures
        yes == (found matches Some(kept) && kept@ == ItemInfoView::stored(
            table_id,
            item_id,
            item@,
        )),
{
    match found {
        Some(kept) => kept.table_id == table_id && kept.item_id == item_id && kept.name == item.name
            && kept.comment == item.comment && kept.created_at == item.created_at
            && kept.forecast_ready_at == item.forecast_ready_at,
        None => false,
    }
}

/// A way to make the storage that a scenario runs against.
pub trait StorageBuilder<S: Storage> {
    /// The builder can be asked, and whatever it builds is consistent and
    /// has room for the items of a scenario.
    spec fn ready(&self) -> bool;

    /// `storage` is something that the builder may build.
    spec fn builds(&self, storage: S) -> bool;

    /// A storage for one scenario.
    fn build(&self) -> (storage: S)
        requires
            self.ready(),
        ensures
            self.builds(storage),
            storage.inv(),
            storage.room() >= SUITE_ROOM,
    ;
}

impl<S: Storage, F: Fn() -> S> StorageBuilder<S> for F {
    open spec fn ready(&self) -> bool {
        &&& call_requires(*self, ())
        &&& forall|storage: S| #[trigger]
            call_ensures(*self, (), storage) ==> storage.inv() && storage.room() >= SUITE_ROOM
    }

    open spec fn builds(&self, storage: S) -> bool {
        call_ensures(*self, (), storage)
    }

    fn build(&self) -> (storage: S) {
        self()
    }
}

/// The table of the scenarios starts out empty: it lists nothing, and a get
/// finds nothing in it.
///
/// Fails only where the storage fails; passes if and only if the table
/// holds nothing.
pub fn initially_empty<S: Storage>(storage: S) -> (outcome: Result<bool, S::Error>)
    requires
        storage.inv(),
    ensures
        storage.infallible() ==> outcome is Ok,
        outcome matches Ok(passed) ==> looked_gone(&storage, TableId(1), ItemId(0), passed),
        outcome matches Err(error) ==> fails_to_list(&storage, TableId(1), error) || fails_to_get(
            &storage,
            TableId(1),
            ItemId(0),
            error,
        ),
        outcome matches Ok(passed) ==> passed == (storage@.table(TableId(1)).len() == 0
            && storage@.get(TableId(1), ItemId(0)) is None),
{
    gone(&storage, test_table_id(), ItemId(0))
}

/// Lists table 1 of `storage` and tells whether it is unused: whether it
/// lists nothing. Fails only where the storage fails.
pub fn begins_unused<S: Storage>(storage: &S) -> (outcome: Result<bool, S::Error>)
    requires
        storage.inv(),
    ensures
        storage.infallible() ==> outcome is Ok,
        outcome matches Ok(unused) ==> began(storage, unused),
        outcome matches Err(error) ==> fails_to_list(storage, TableId(1), error),
        outcome matches Ok(unused) ==> unused == (storage@.table(TableId(1)).len() == 0),
{
    match storage.list_items(test_table_id()) {
        Ok(listing) => {
            proof {
                lemma_listing_entries(listing@, storage@.table(TableId(1)));
            }
            assert(lists(storage, TableId(1), listing));
            Ok(listing.is_empty())
        },
        Err(error) => Err(error),
    }
}

/// What a pass of [`add_single`] on `storage` rests on: a storage that
/// holds what `storage` held and, behind it in table 1, the first item
/// listed that table as one entry, of that table and with the item's name,
/// and a get of the entry's identifier found the item, the same in every
/// field.
pub open spec fn add_single_pass<S: Storage>(storage: S) -> bool {
    exists|after: S, listing: Vec<ItemInfoShort>, found: Option<ItemInfo>|
        {
            &&& after@.added(storage@, TableId(1), seq![spec_test_new_item()])
            &&& #[trigger] lists(&after, TableId(1), listing)
            &&& listing@.len() == 1
            &&& listing@[0].table_id == TableId(1)
            &&& listing@[0].name@ == spec_test_new_item().name
            &&& #[trigger] finds(&after, TableId(1), listing@[0].item_id, found)
            &&& found matches Some(kept) && kept@ == ItemInfoView::stored(
                TableId(1),
                listing@[0].item_id,
                spec_test_new_item(),
            )
        }
}

/// One item added is then listed, and got back with what it was given.
///
/// Fails only where the storage fails. It passes if and only if the table
/// was empty to begin with, and a pass rests on what the storage answered
/// to each call: see [`add_single_pass`].
pub fn add_single<S: Storage>(storage: S) -> (outcome: Result<bool, S::Error>)
    requires
        storage.inv(),
        storage.room() >= 1,
    ensures
        storage.infallible() ==> outcome is Ok,
        outcome matches Ok(passed) ==> began(&storage, passed),
        outcome matches Ok(true) ==> add_single_pass(storage),
        outcome matches Ok(passed) ==> passed == (storage@.table(TableId(1)).len() == 0),
{
    let ghost given = storage;
    let mut storage = storage;
    let ghost before = storage@;
    let table_id = test_table_id();
    match begins_unused(&storage) {
        Ok(true) => {},
        other => {
            return other;
        },
    }
    let item = test_new_item();
    let items = vec![item.clone()];
    assert(new_items_view(items@) =~= seq![item@]);
    match storage.add_items(table_id, items) {
        Ok(()) => {},
        Err(error) => {
            return Err(error);
        },
    }
    proof {
        storage.inv_gives_wf();
        assert(storage@.table(table_id)[before.table(table_id).len() + 0int] == storage@.table(
            table_id,
        )[0]);
        lemma_find_row(storage@.table(table_id), table_id, storage@.floor(table_id), 0);
    }
    let listing = match storage.list_items(table_id) {
        Ok(listing) => listing,
        Err(error) => {
            return Err(error);
        },
    };
    proof {
        lemma_listing_entries(listing@, storage@.table(table_id));
    }
    if !(listing.len() == 1 && lists_item(&listing[0], table_id, &item)) {
        return Ok(false);
    }
    let found = match storage.get_item(table_id, listing[0].item_id) {
        Ok(found) => found,
        Err(error) => {
            return Err(error);
        },
    };
    let passed = holds_item(&found, table_id, listing[0].item_id, &item);
    proof {
        if passed {
            assert(lists(&storage, TableId(1), listing));
            assert(finds(&storage, TableId(1), listing@[0].item_id, found));
            assert(add_single_pass(given));
        }
    }
    Ok(passed)
}

/// What a pass of [`add_multiple`] on `storage` rests on: a storage that
/// holds what `storage` held and, behind it in table 1, the first item and
/// then the second listed that table as two entries, of that table and
/// with the items' names in that order, and a get of the second entry's
/// identifier found the second item, the same in every field.
pub open spec fn add_multiple_pass<S: Storage>(storage: S) -> bool {
    exists|after: S, listing: Vec<ItemInfoShort>, found: Option<ItemInfo>|
        {
            &&& after@.added(
                storage@,
                TableId(1),
                seq![spec_test_new_item(), spec_test_new_item_2()],
            )
            &&& #[trigger] lists(&after, TableId(1), listing)
            &&& listing@.len() == 2
            &&& listing@[0].table_id == TableId(1)
            &&& listing@[0].name@ == spec_test_new_item().name
            &&& listing@[1].table_id == TableId(1)
            &&& listing@[1].name@ == spec_test_new_item_2().name
            &&& #[trigger] finds(&after, TableId(1), listing@[1].item_id, found)
            &&& found matches Some(kept) && kept@ == ItemInfoView::stored(
                TableId(1),
                listing@[1].item_id,
                spec_test_new_item_2(),
            )
        }
}

/// Two items added in one call are listed in the order given, and the second
/// is got back with what it was given.
///
/// Fails only where the storage fails. It passes if and only if the table
/// was empty to begin with, and a pass rests on what the storage answered
/// to each call: see [`add_multiple_pass`].
pub fn add_multiple<S: Storage>(storage: S) -> (outcome: Result<bool, S::Error>)
    requires
        storage.inv(),
        storage.room() >= 2,
    ensures
        storage.infallible() ==> outcome is Ok,
        outcome matches Ok(passed) ==> began(&storage, passed),
        outcome matches Ok(true) ==> add_multiple_pass(storage),
        outcome matches Ok(passed) ==> passed == (storage@.table(TableId(1)).len() == 0),
{
    let ghost given = storage;
    let mut storage = storage;
    let ghost before = storage@;
    let table_id = test_table_id();
    match begins_unused(&storage) {
        Ok(true) => {},
        other => {
            return other;
        },
    }
    let item = test_new_item();
    let item2 = test_new_item_2();
    let items = vec![item.clone(), item2.clone()];
    assert(new_items_view(items@) =~= seq![item@, item2@]);
    match storage.add_items(table_id, items) {
        Ok(()) => {},
        Err(error) => {
            return Err(error);
        },
    }
    proof {
        storage.inv_gives_wf();
        assert(storage@.table(table_id)[before.table(table_id).len() + 0int] == storage@.table(
            table_id,
        )[0]);
        assert(storage@.table(table_id)[before.table(table_id).len() + 1int] == storage@.table(
            table_id,
        )[1]);
        lemma_find_row(storage@.table(table_id), table_id, storage@.floor(table_id), 1);
    }
    let listing = match storage.list_items(table_id) {
        Ok(listing) => listing,
        Err(error) => {
            return Err(error);
        },
    };
    proof {
        lemma_listing_entries(listing@, storage@.table(table_id));
    }
    if !(listing.len() == 2 && lists_item(&listing[0], table_id, &item) && lists_item(
        &listing[1],
        table_id,
        &item2,
    )) {
        return Ok(false);
    }
    let found = match storage.get_item(table_id, listing[1].item_id) {
        Ok(found) => found,
        Err(error) => {
            return Err(error);
        },
    };
    let passed = holds_item(&found, table_id, listing[1].item_id, &item2);
    proof {
        if passed {
            assert(lists(&storage, TableId(1), listing));
            assert(finds(&storage, TableId(1), listing@[1].item_id, found));
            assert(add_multiple_pass(given));
        }
    }
    Ok(passed)
}

/// Whether two listings are the same, entry by entry.
pub fn same_listing(first: &Vec<ItemInfoShort>, second: &Vec<ItemInfoShort>) -> (same: bool)
    ensures
        same == (listing_view(first@) == listing_view(second@)),
{
    if first.len() != second.len() {
        return false;
    }
    let mut i: usize = 0;
    while i < first.len()
        invariant
            i <= first.len(),
            first.len() == second.len(),
            forall|j: int| 0 <= j < i ==> first@[j]@ == second@[j]@,
        decreases first.len() - i,
    {
        if first[i] != second[i] {
            assert(listing_view(first@)[i as int] != listing_view(
                second@,
            )[i as int]);
            return false;
        }
        i = i + 1;
    }
    assert(listing_view(first@) =~= listing_view(second@));
    true
}

/// What a pass of [`list_twice`] on `storage` rests on: a storage that
/// holds what `storage` held and, behind it in table 1, both items listed
/// that table twice, and the two listings are the same.
pub open spec fn list_twice_pass<S: Storage>(storage: S) -> bool {
    exists|after: S, first: Vec<ItemInfoShort>, second: Vec<ItemInfoShort>|
        {
            &&& after@.added(
                storage@,
                TableId(1),
                seq![spec_test_new_item(), spec_test_new_item_2()],
            )
            &&& #[trigger] lists(&after, TableId(1), first)
            &&& #[trigger] lists(&after, TableId(1), second)
            &&& listing_view(first@) == listing_view(second@)
        }
}

/// Two listings in a row are the same.
///
/// Fails only where the storage fails. It passes if and only if the table
/// was empty to begin with, and a pass rests on what the storage answered
/// to each call: see [`list_twice_pass`].
pub fn list_twice<S: Storage>(storage: S) -> (outcome: Result<bool, S::Error>)
    requires
        storage.inv(),
        storage.room() >= 2,
    ensures
        storage.infallible() ==> outcome is Ok,
        outcome matches Ok(passed) ==> began(&storage, passed),
        outcome matches Ok(true) ==> list_twice_pass(storage),
        outcome matches Ok(passed) ==> passed == (storage@.table(TableId(1)).len() == 0),
{
    let ghost given = storage;
    let mut storage = storage;
    let table_id = test_table_id();
    match begins_unused(&storage) {
        Ok(true) => {},
        other => {
            return other;
        },
    }
    let items = vec![test_new_item(), test_new_item_2()];
    match storage.add_items(table_id, items) {
        Ok(()) => {},
        Err(error) => {
            return Err(error);
        },
    }
    let listing = match storage.list_items(table_id) {
        Ok(listing) => listing,
        Err(error) => {
            return Err(error);
        },
    };
    proof {
        lemma_listing_entries(listing@, storage@.table(table_id));
    }
    let second_listing = match storage.list_items(table_id) {
        Ok(listing) => listing,
        Err(error) => {
            return Err(error);
        },
    };
    let passed = same_listing(&listing, &second_listing);
    proof {
        if passed {
            assert(lists(&storage, TableId(1), listing));
            assert(lists(&storage, TableId(1), second_listing));
            assert(list_twice_pass(given));
        }
    }
    Ok(passed)
}

/// Two results of a get are alike: both found nothing, or both found an
/// item, the same in every field.
pub open spec fn alike(first: Option<ItemInfo>, second: Option<ItemInfo>) -> bool {
    match (first, second) {
        (Some(a), Some(b)) => a@ == b@,
        (None, None) => true,
        _ => false,
    }
}

/// Whether two results of a get are the same.
pub fn same_found(first: &Option<ItemInfo>, second: &Option<ItemInfo>) -> (same: bool)
    ensures
        same == alike(*first, *second),
{
    match (first, second) {
        (Some(a), Some(b)) => a == b,
        (None, None) => true,
        _ => false,
    }
}

/// What a pass of [`get_twice`] on `storage` rests on: a storage that
/// holds what `storage` held and, behind it in table 1, both items listed
/// that table, two gets of the first entry's identifier each found
/// something or nothing, and the two are alike.
pub open spec fn get_twice_pass<S: Storage>(storage: S) -> bool {
    exists|
        after: S,
        listing: Vec<ItemInfoShort>,
        first: Option<ItemInfo>,
        second: Option<ItemInfo>,
    |
        {
            &&& after@.added(
                storage@,
                TableId(1),
                seq![spec_test_new_item(), spec_test_new_item_2()],
            )
            &&& #[trigger] lists(&after, TableId(1), listing)
            &&& listing@.len() > 0
            &&& #[trigger] finds(&after, TableId(1), listing@[0].item_id, first)
            &&& #[trigger] finds(&after, TableId(1), listing@[0].item_id, second)
            &&& alike(first, second)
        }
}

/// Two gets of one item in a row find the same.
///
/// Fails only where the storage fails. It passes if and only if the table
/// was empty to begin with, and a pass rests on what the storage answered
/// to each call: see [`get_twice_pass`].
pub fn get_twice<S: Storage>(storage: S) -> (outcome: Result<bool, S::Error>)
    requires
        storage.inv(),
        storage.room() >= 2,
    ensures
        storage.infallible() ==> outcome is Ok,
        outcome matches Ok(passed) ==> began(&storage, passed),
        outcome matches Ok(true) ==> get_twice_pass(storage),
        outcome matches Ok(passed) ==> passed == (storage@.table(TableId(1)).len() == 0),
{
    let ghost given = storage;
    let mut storage = storage;
    let table_id = test_table_id();
    match begins_unused(&storage) {
        Ok(true) => {},
        other => {
            return other;
        },
    }
    let items = vec![test_new_item(), test_new_item_2()];
    match storage.add_items(table_id, items) {
        Ok(()) => {},
        Err(error) => {
            return Err(error);
        },
    }
    let listing = match storage.list_items(table_id) {
        Ok(listing) => listing,
        Err(error) => {
            return Err(error);
        },
    };
    proof {
        lemma_listing_entries(listing@, storage@.table(table_id));
    }
    let first_item = match storage.get_item(table_id, listing[0].item_id) {
        Ok(found) => found,
        Err(error) => {
            return Err(error);
        },
    };
    let second_item = match storage.get_item(table_id, listing[0].item_id) {
        Ok(found) => found,
        Err(error) => {
            return Err(error);
        },
    };
    let passed = same_found(&first_item, &second_item);
    proof {
        if passed {
            assert(lists(&storage, TableId(1), listing));
            assert(finds(&storage, TableId(1), listing@[0].item_id, first_item));
            assert(finds(&storage, TableId(1), listing@[0].item_id, second_item));
            assert(get_twice_pass(given));
        }
    }
    Ok(passed)
}

/// What a pass of [`add_remove_single`] on `storage` rests on: a storage
/// `added` that holds what `storage` held and, behind it in table 1, the
/// first item listed that table; a storage `after` holds what `added` held
/// without the item of the first entry; and `after` listed nothing in the
/// table and found nothing under that identifier.
pub open spec fn add_remove_single_pass<S: Storage>(storage: S) -> bool {
    exists|added: S, after: S, listing: Vec<ItemInfoShort>|
        {
            &&& added@.added(storage@, TableId(1), seq![spec_test_new_item()])
            &&& #[trigger] lists(&added, TableId(1), listing)
            &&& listing@.len() > 0
            &&& after@.removed(added@, TableId(1), seq![listing@[0].item_id])
            &&& #[trigger] looked_gone(&after, TableId(1), listing@[0].item_id, true)
        }
}

/// One item added and then removed is gone.
///
/// Fails only where the storage fails. It passes if and only if the table
/// was empty to begin with, and a pass rests on what the storage answered
/// to each call: see [`add_remove_single_pass`].
pub fn add_remove_single<S: Storage>(storage: S) -> (outcome: Result<bool, S::Error>)
    requires
        storage.inv(),
        storage.room() >= 1,
    ensures
        storage.infallible() ==> outcome is Ok,
        outcome matches Ok(passed) ==> began(&storage, passed),
        outcome matches Ok(true) ==> add_remove_single_pass(storage),
        outcome matches Ok(passed) ==> passed == (storage@.table(TableId(1)).len() == 0),
{
    let ghost given = storage;
    let mut storage = storage;
    let ghost before = storage@;
    proof {
        storage.inv_gives_wf();
    }
    let table_id = test_table_id();
    match begins_unused(&storage) {
        Ok(true) => {},
        other => {
            return other;
        },
    }
    let item = test_new_item();
    let items = vec![item];
    let ghost added_items = new_items_view(items@);
    match storage.add_items(table_id, items) {
        Ok(()) => {},
        Err(error) => {
            return Err(error);
        },
    }
    let ghost added_storage = storage;
    let ghost added = storage@;
    let listing = match storage.list_items(table_id) {
        Ok(listing) => listing,
        Err(error) => {
            return Err(error);
        },
    };
    proof {
        lemma_listing_entries(listing@, storage@.table(table_id));
        assert(lists(&added_storage, TableId(1), listing));
    }
    let item_id = listing[0].item_id;
    let item_ids = vec![item_id];
    match storage.remove_items(table_id, item_ids) {
        Ok(()) => {},
        Err(error) => {
            return Err(error);
        },
    }
    proof {
        assert(added.table(table_id)[before.table(table_id).len() + 0int] == added.table(
            table_id,
        )[0]);
        assert(item_ids@ =~= seq![item_id]);
        law_add_then_remove_all(before, added, storage@, table_id, added_items, item_ids@);
        assert(storage@.get(table_id, item_ids@[0]) is None);
    }
    let outcome = gone(&storage, table_id, item_id);
    proof {
        if outcome == Ok::<bool, S::Error>(true) {
            assert(looked_gone(&storage, TableId(1), listing@[0].item_id, true));
            assert(add_remove_single_pass(given));
        }
    }
    outcome
}

/// Whether table `table_id` lists as empty and `item_id` finds nothing in
/// it. Fails only where the storage fails.
pub fn gone<S: Storage>(storage: &S, table_id: TableId, item_id: ItemId) -> (outcome: Result<
    bool,
    S::Error,
>)
    requires
        storage.inv(),
    ensures
        storage.infallible() ==> outcome is Ok,
        outcome matches Ok(yes) ==> looked_gone(storage, table_id, item_id, yes),
        outcome matches Err(error) ==> fails_to_list(storage, table_id, error) || fails_to_get(
            storage,
            table_id,
            item_id,
            error,
        ),
        outcome matches Ok(yes) ==> yes == (storage@.table(table_id).len() == 0 && storage@.get(
            table_id,
            item_id,
        ) is None),
{
    let listing = match storage.list_items(table_id) {
        Ok(listing) => listing,
        Err(error) => {
            return Err(error);
        },
    };
    proof {
        lemma_listing_entries(listing@, storage@.table(table_id));
    }
    let found = match storage.get_item(table_id, item_id) {
        Ok(found) => found,
        Err(error) => {
            return Err(error);
        },
    };
    assert(lists(storage, table_id, listing) && finds(storage, table_id, item_id, found));
    Ok(listing.is_empty() && found.is_none())
}

/// What a pass of [`add_remove_multiple`] on `storage` rests on: a storage
/// `added` that holds what `storage` held and, behind it in table 1, both
/// items listed that table; a storage `after` holds what `added` held
/// without the items of the first two entries; and `after` listed nothing
/// in the table and found nothing under either identifier.
pub open spec fn add_remove_multiple_pass<S: Storage>(storage: S) -> bool {
    exists|added: S, after: S, listing: Vec<ItemInfoShort>|
        {
            &&& added@.added(
                storage@,
                TableId(1),
                seq![spec_test_new_item(), spec_test_new_item_2()],
            )
            &&& #[trigger] lists(&added, TableId(1), listing)
            &&& listing@.len() > 1
            &&& after@.removed(
                added@,
                TableId(1),
                seq![listing@[0].item_id, listing@[1].item_id],
            )
            &&& #[trigger] looked_gone(&after, TableId(1), listing@[0].item_id, true)
            &&& #[trigger] looked_gone(&after, TableId(1), listing@[1].item_id, true)
        }
}

/// Two items added and then removed together are gone.
///
/// Fails only where the storage fails. It passes if and only if the table
/// was empty to begin with, and a pass rests on what the storage answered
/// to each call: see [`add_remove_multiple_pass`].
pub fn add_remove_multiple<S: Storage>(storage: S) -> (outcome: Result<bool, S::Error>)
    requires
        storage.inv(),
        storage.room() >= 2,
    ensures
        storage.infallible() ==> outcome is Ok,
        outcome matches Ok(passed) ==> began(&storage, passed),
        outcome matches Ok(true) ==> add_remove_multiple_pass(storage),
        outcome matches Ok(passed) ==> passed == (storage@.table(TableId(1)).len() == 0),
{
    let ghost given = storage;
    let mut storage = storage;
    let ghost before = storage@;
    proof {
        storage.inv_gives_wf();
    }
    let table_id = test_table_id();
    match begins_unused(&storage) {
        Ok(true) => {},
        other => {
            return other;
        },
    }
    let items = vec![test_new_item(), test_new_item_2()];
    let ghost added_items = new_items_view(items@);
    match storage.add_items(table_id, items) {
        Ok(()) => {},
        Err(error) => {
            return Err(error);
        },
    }
    let ghost added_storage = storage;
    let ghost added = storage@;
    let listing = match storage.list_items(table_id) {
        Ok(listing) => listing,
        Err(error) => {
            return Err(error);
        },
    };
    proof {
        lemma_listing_entries(listing@, storage@.table(table_id));
        assert(lists(&added_storage, TableId(1), listing));
    }
    let item_id = listing[0].item_id;
    let item2_id = listing[1].item_id;
    let item_ids = vec![item_id, item2_id];
    match storage.remove_items(table_id, item_ids) {
        Ok(()) => {},
        Err(error) => {
            return Err(error);
        },
    }
    proof {
        assert(added.table(table_id)[before.table(table_id).len() + 0int] == added.table(
            table_id,
        )[0]);
        assert(added.table(table_id)[before.table(table_id).len() + 1int] == added.table(
            table_id,
        )[1]);
        assert(item_ids@ =~= seq![item_id, item2_id]);
        law_add_then_remove_all(before, added, storage@, table_id, added_items, item_ids@);
        assert(storage@.get(table_id, item_ids@[0]) is None);
        assert(storage@.get(table_id, item_ids@[1]) is None);
    }
    let first_gone = match gone(&storage, table_id, item_id) {
        Ok(yes) => yes,
        Err(error) => {
            return Err(error);
        },
    };
    let second_gone = match gone(&storage, table_id, item2_id) {
        Ok(yes) => yes,
        Err(error) => {
            return Err(error);
        },
    };
    proof {
        if first_gone && second_gone {
            assert(looked_gone(&storage, TableId(1), listing@[0].item_id, true));
            assert(looked_gone(&storage, TableId(1), listing@[1].item_id, true));
            assert(add_remove_multiple_pass(given));
        }
    }
    Ok(first_gone && second_gone)
}

/// What a pass of [`remove_nonexistent`] on `storage` rests on: a storage
/// that holds what `storage` held without item 0 of table 1 listed nothing
/// in that table and found nothing under that identifier.
pub open spec fn remove_nonexistent_pass<S: Storage>(storage: S) -> bool {
    exists|after: S|
        {
            &&& after@.removed(storage@, TableId(1), seq![ItemId(0)])
            &&& #[trigger] looked_gone(&after, TableId(1), ItemId(0), true)
        }
}

/// Removing an item that is not there does no harm.
///
/// Fails only where the storage fails. It passes if and only if the table
/// was empty to begin with, and a pass rests on what the storage answered
/// to each call: see [`remove_nonexistent_pass`].
pub fn remove_nonexistent<S: Storage>(storage: S) -> (outcome: Result<bool, S::Error>)
    requires
        storage.inv(),
    ensures
        storage.infallible() ==> outcome is Ok,
        outcome matches Ok(passed) ==> began(&storage, passed),
        outcome matches Ok(true) ==> remove_nonexistent_pass(storage),
        outcome matches Ok(passed) ==> passed == (storage@.table(TableId(1)).len() == 0),
{
    let ghost given = storage;
    let mut storage = storage;
    let ghost before = storage@;
    let table_id = test_table_id();
    match begins_unused(&storage) {
        Ok(true) => {},
        other => {
            return other;
        },
    }
    let item_id: ItemId = ItemId(0);
    let item_ids = vec![item_id];
    match storage.remove_items(table_id, item_ids) {
        Ok(()) => {},
        Err(error) => {
            return Err(error);
        },
    }
    proof {
        lemma_without_strangers(before.table(table_id), item_ids@);
    }
    let outcome = gone(&storage, table_id, item_id);
    proof {
        if outcome == Ok::<bool, S::Error>(true) {
            assert(item_ids@ =~= seq![ItemId(0)]);
            assert(looked_gone(&storage, TableId(1), ItemId(0), true));
            assert(remove_nonexistent_pass(given));
        }
    }
    outcome
}

/// An identifier other than `item_id`: 1 beside 0, and 0 beside any other.
pub open spec fn spec_another_id(item_id: ItemId) -> ItemId {
    if item_id == ItemId(0) {
        ItemId(1)
    } else {
        ItemId(0)
    }
}

/// An identifier other than `item_id`.
pub fn another_id(item_id: ItemId) -> (other: ItemId)
    ensures
        other == spec_another_id(item_id),
        other != item_id,
{
    if item_id == ItemId(0) {
        ItemId(1)
    } else {
        ItemId(0)
    }
}

/// What a pass of [`remove_mixed`] on `storage` rests on: a storage `added`
/// that holds what `storage` held and, behind it in table 1, the first item
/// listed that table; a storage `after` holds what `added` held without the
/// item of the first entry and without the one of another identifier, which
/// the table does not hold; and `after` listed nothing in the table and
/// found nothing under the entry's identifier.
pub open spec fn remove_mixed_pass<S: Storage>(storage: S) -> bool {
    exists|added: S, after: S, listing: Vec<ItemInfoShort>|
        {
            &&& added@.added(storage@, TableId(1), seq![spec_test_new_item()])
            &&& #[trigger] lists(&added, TableId(1), listing)
            &&& listing@.len() > 0
            &&& after@.removed(
                added@,
                TableId(1),
                seq![listing@[0].item_id, spec_another_id(listing@[0].item_id)],
            )
            &&& #[trigger] looked_gone(&after, TableId(1), listing@[0].item_id, true)
        }
}

/// Removing an item that is there together with one that is not removes the
/// one and does no harm.
///
/// Fails only where the storage fails. It passes if and only if the table
/// was empty to begin with, and a pass rests on what the storage answered
/// to each call: see [`remove_mixed_pass`].
pub fn remove_mixed<S: Storage>(storage: S) -> (outcome: Result<bool, S::Error>)
    requires
        storage.inv(),
        storage.room() >= 1,
    ensures
        storage.infallible() ==> outcome is Ok,
        outcome matches Ok(passed) ==> began(&storage, passed),
        outcome matches Ok(true) ==> remove_mixed_pass(storage),
        outcome matches Ok(passed) ==> passed == (storage@.table(TableId(1)).len() == 0),
{
    let ghost given = storage;
    let mut storage = storage;
    let ghost before = storage@;
    let table_id = test_table_id();
    match begins_unused(&storage) {
        Ok(true) => {},
        other => {
            return other;
        },
    }
    let items = vec![test_new_item()];
    match storage.add_items(table_id, items) {
        Ok(()) => {},
        Err(error) => {
            return Err(error);
        },
    }
    let ghost added_storage = storage;
    let ghost added = storage@;
    proof {
        storage.inv_gives_wf();
    }
    let listing = match storage.list_items(table_id) {
        Ok(listing) => listing,
        Err(error) => {
            return Err(error);
        },
    };
    proof {
        lemma_listing_entries(listing@, storage@.table(table_id));
        assert(lists(&added_storage, TableId(1), listing));
    }
    let item_id = listing[0].item_id;
    let missing_item_id = another_id(item_id);
    let item_ids = vec![item_id, missing_item_id];
    match storage.remove_items(table_id, item_ids) {
        Ok(()) => {},
        Err(error) => {
            return Err(error);
        },
    }
    proof {
        assert(item_ids@ =~= seq![item_id, missing_item_id]);
        assert(added.get(table_id, missing_item_id) is None) by {
            assert(added.table(table_id).len() == 1);
        }
        law_remove_mixed(added, storage@, table_id, 0, missing_item_id, missing_item_id);
    }
    let outcome = gone(&storage, table_id, item_id);
    proof {
        if outcome == Ok::<bool, S::Error>(true) {
            assert(looked_gone(&storage, TableId(1), listing@[0].item_id, true));
            assert(remove_mixed_pass(given));
        }
    }
    outcome
}

/// `outcome` is what the scenario `test_fn` may give on a storage that
/// `builder` may build.
pub open spec fn gives<S: Storage, B: StorageBuilder<S>, T: Fn(S) -> Result<bool, S::Error>>(
    builder: &B,
    test_fn: T,
    outcome: Result<bool, S::Error>,
) -> bool {
    exists|storage: S|
        builder.builds(storage) && storage.inv() && #[trigger] call_ensures(
            test_fn,
            (storage,),
            outcome,
        )
}

/// Runs one scenario against a storage of its own.
pub fn run_test<S: Storage, B: StorageBuilder<S>, T: Fn(S) -> Result<bool, S::Error>>(
    builder: &B,
    test_fn: T,
) -> (outcome: Result<bool, S::Error>)
    requires
        builder.ready(),
        forall|storage: S|
            storage.inv() && storage.room() >= SUITE_ROOM ==> call_requires(test_fn, (storage,)),
    ensures
        gives(builder, test_fn, outcome),
{
    let storage = builder.build();
    test_fn(storage)
}

/// The number of scenarios in the suite.
pub const SCENARIO_COUNT: usize = 9;

/// `outcome` is what the scenario at place `which` of the suite may give on
/// a storage that `builder` may build. The scenarios stand in the order in
/// which the suite runs them, counted from 0.
pub open spec fn scenario_gives<S: Storage, B: StorageBuilder<S>>(
    builder: &B,
    which: int,
    outcome: Result<bool, S::Error>,
) -> bool {
    if which == 0 {
        gives(builder, initially_empty::<S>, outcome)
    } else if which == 1 {
        gives(builder, add_single::<S>, outcome)
    } else if which == 2 {
        gives(builder, add_multiple::<S>, outcome)
    } else if which == 3 {
        gives(builder, list_twice::<S>, outcome)
    } else if which == 4 {
        gives(builder, get_twice::<S>, outcome)
    } else if which == 5 {
        gives(builder, add_remove_single::<S>, outcome)
    } else if which == 6 {
        gives(builder, add_remove_multiple::<S>, outcome)
    } else if which == 7 {
        gives(builder, remove_nonexistent::<S>, outcome)
    } else if which == 8 {
        gives(builder, remove_mixed::<S>, outcome)
    } else {
        false
    }
}

/// The suite ran the scenarios from the first up to the one at place
/// `last`, each on a storage that `builder` built for it: those before
/// `last` passed, and the one at `last` gave `outcome`. The suite goes on
/// after a scenario that passed, so one that stopped before the end did not
/// pass.
pub open spec fn suite_stops_at<S: Storage, B: StorageBuilder<S>>(
    builder: &B,
    last: int,
    outcome: Result<bool, S::Error>,
) -> bool {
    &&& 0 <= last < SCENARIO_COUNT
    &&& forall|which: int|
        0 <= which < last ==> #[trigger] scenario_gives(
            builder,
            which,
            Ok::<bool, S::Error>(true),
        )
    &&& scenario_gives(builder, last, outcome)
    &&& last < SCENARIO_COUNT - 1 ==> outcome != Ok::<bool, S::Error>(true)
}

/// Whatever `builder` builds cannot fail.
pub open spec fn builds_infallible<S: Storage, B: StorageBuilder<S>>(builder: &B) -> bool {
    forall|storage: S| #[trigger] builder.builds(storage) ==> storage.infallible()
}

/// Whatever `builder` builds has table 1 empty.
pub open spec fn builds_empty<S: Storage, B: StorageBuilder<S>>(builder: &B) -> bool {
    forall|storage: S| #[trigger] builder.builds(storage) ==> storage@.table(TableId(1)).len() == 0
}

/// Runs every scenario in turn, each against a storage of its own, up to the
/// first that does not pass, and hands back what that one gave: its verdict,
/// or the error of the storage that failed under it. Where all pass, the
/// suite passes.
///
/// A scenario passes if and only if the storage that it was given has table
/// 1 empty, so the suite passes where the builder makes such storages only,
/// and it fails only where a storage fails.
pub fn test_suite<S: Storage, B: StorageBuilder<S>>(builder: &B) -> (outcome: Result<
    bool,
    S::Error,
>)
    requires
        builder.ready(),
    ensures
        exists|last: int| #[trigger] suite_stops_at(builder, last, outcome),
        builds_infallible(builder) ==> outcome is Ok,
        builds_empty(builder) ==> !(outcome matches Ok(false)),
{
    match run_test(builder, initially_empty::<S>) {
        Ok(true) => {},
        other => {
            assert(suite_stops_at(builder, 0, other));
            return other;
        },
    }
    match run_test(builder, add_single::<S>) {
        Ok(true) => {},
        other => {
            assert(suite_stops_at(builder, 1, other));
            return other;
        },
    }
    match run_test(builder, add_multiple::<S>) {
        Ok(true) => {},
        other => {
            assert(suite_stops_at(builder, 2, other));
            return other;
        },
    }
    match run_test(builder, list_twice::<S>) {
        Ok(true) => {},
        other => {
            assert(suite_stops_at(builder, 3, other));
            return other;
        },
    }
    match run_test(builder, get_twice::<S>) {
        Ok(true) => {},
        other => {
            assert(suite_stops_at(builder, 4, other));
            return other;
        },
    }
    match run_test(builder, add_remove_single::<S>) {
        Ok(true) => {},
        other => {
            assert(suite_stops_at(builder, 5, other));
            return other;
        },
    }
    match run_test(builder, add_remove_multiple::<S>) {
        Ok(true) => {},
        other => {
            assert(suite_stops_at(builder, 6, other));
            return other;
        },
    }
    match run_test(builder, remove_nonexistent::<S>) {
        Ok(true) => {},
        other => {
            assert(suite_stops_at(builder, 7, other));
            return other;
        },
    }
    let outcome = run_test(builder, remove_mixed::<S>);
    assert(suite_stops_at(builder, 8, outcome));
    outcome
}

/// Builds, for each scenario, an in-memory storage that holds nothing yet.
#[derive(Debug, Clone, Copy)]
pub struct FreshMemoryStorage;

impl StorageBuilder<SimpleMemoryStorage> for FreshMemoryStorage {
    open spec fn ready(&self) -> bool {
        true
    }

    open spec fn builds(&self, storage: SimpleMemoryStorage) -> bool {
        storage@ == StorageModel::empty()
    }

    fn build(&self) -> (storage: SimpleMemoryStorage) {
        SimpleMemoryStorage::new()
    }
}

/// The in-memory storage passes every scenario.
pub fn memory_storage_conforms() -> (outcome: Result<bool, SimpleMemoryStorageError>)
    ensures
        outcome == Ok::<bool, SimpleMemoryStorageError>(true),
{
    let builder = FreshMemoryStorage;
    assert(builds_infallible::<SimpleMemoryStorage, FreshMemoryStorage>(&builder));
    assert(builds_empty::<SimpleMemoryStorage, FreshMemoryStorage>(&builder));
    test_suite(&builder)
}

} // verus!
