use crate::clock::{now, CLOCK_SECS_END};
use crate::model::{
    ItemId, ItemInfo, ItemInfoShort, NewItem as StorageNewItem, NewItemView as StorageNewItemView,
    TableId, Timestamp,
};
use crate::random::draw_in_range;
use crate::storage::{listing_view, new_items_view, Storage, StorageModel};
use vstd::prelude::*;

verus! {

/// The least number of seconds between an item's creation and the time at
/// which it is forecast to be ready.
pub const FORECAST_SECS_MIN: i64 = 300;

/// The bound below which the number of seconds between an item's creation and
/// its forecast stays.
pub const FORECAST_SECS_END: i64 = 900;

/// What a caller of the service gives for one item to add: the service
/// itself supplies the times.
#[derive(Debug)]
pub struct NewItem {
    pub name: String,
    pub comment: String,
}

/// The mathematical content of a [`NewItem`].
pub struct NewItemView {
    pub name: Seq<char>,
    pub comment: Seq<char>,
}

impl View for NewItem {
    type V = NewItemView;

    open spec fn view(&self) -> NewItemView {
        NewItemView { name: self.name@, comment: self.comment@ }
    }
}

impl Clone for NewItem {
    fn clone(&self) -> (copy: NewItem)
        ensures
            copy == *self,
    {
        NewItem { name: self.name.clone(), comment: self.comment.clone() }
    }
}

/// The content of a sequence of items given to the service.
pub open spec fn requests_view(items: Seq<NewItem>) -> Seq<NewItemView> {
    items.map_values(|item: NewItem| item@)
}

/// `item` with the creation time `created_at` and a forecast
/// `forecast_seconds` later.
pub open spec fn stamped(item: NewItemView, created_at: Timestamp, forecast_seconds: int)
    -> StorageNewItemView {
    StorageNewItemView {
        name: item.name,
        comment: item.comment,
        created_at,
        forecast_ready_at: created_at.spec_plus_seconds(forecast_seconds),
    }
}

/// `stamped_item` is `item` created at `created_at` and forecast to be ready
/// from 5 up to, not including, 15 minutes later.
pub open spec fn is_stamped(
    item: NewItemView,
    created_at: Timestamp,
    stamped_item: StorageNewItemView,
) -> bool {
    &&& stamped_item.name == item.name
    &&& stamped_item.comment == item.comment
    &&& stamped_item.created_at == created_at
    &&& stamped_item.forecast_ready_at.nanos == created_at.nanos
    &&& created_at.secs + FORECAST_SECS_MIN <= stamped_item.forecast_ready_at.secs
        < created_at.secs + FORECAST_SECS_END
}

/// `stamped_items` are `items`, in their order, each stamped at `created_at`.
pub open spec fn stamped_at(
    created_at: Timestamp,
    items: Seq<NewItemView>,
    stamped_items: Seq<StorageNewItemView>,
) -> bool {
    &&& stamped_items.len() == items.len()
    &&& forall|i: int|
        0 <= i < items.len() ==> is_stamped(items[i], created_at, #[trigger] stamped_items[i])
}

/// Gives `item` the creation time `created_at` and a forecast
/// `forecast_seconds` later.
pub fn stamp_item(item: NewItem, created_at: Timestamp, forecast_seconds: i64) -> (stamped_item:
    StorageNewItem)
    requires
        i64::MIN <= created_at.secs + forecast_seconds <= i64::MAX,
    ensures
        stamped_item@ == stamped(item@, created_at, forecast_seconds as int),
{
    StorageNewItem {
        name: item.name,
        comment: item.comment,
        created_at,
        forecast_ready_at: created_at.plus_seconds(forecast_seconds),
    }
}

/// The seconds from an item's creation to the time at which it is forecast
/// to be ready: drawn at random from 5 up to, not including, 15 minutes.
pub fn get_forecast() -> (seconds: i64)
    ensures
        FORECAST_SECS_MIN <= seconds < FORECAST_SECS_END,
{
    draw_in_range(5 * 60, 15 * 60)
}

/// Stamps `items`, in their order, with the creation time `created_at` and a
/// forecast drawn for each.
pub fn stamp_items(items: Vec<NewItem>, created_at: Timestamp) -> (stamped_items: Vec<
    StorageNewItem,
>)
    requires
        created_at.secs + FORECAST_SECS_END <= i64::MAX,
    ensures
        stamped_at(created_at, requests_view(items@), new_items_view(stamped_items@)),
{
    let mut stamped_items: Vec<StorageNewItem> = Vec::new();
    for item in it: items
        invariant
            it.seq() == items@,
            created_at.secs + FORECAST_SECS_END <= i64::MAX,
            stamped_items@.len() == it.index(),
            forall|i: int|
                0 <= i < it.index() ==> is_stamped(
                    items@[i]@,
                    created_at,
                    (#[trigger] stamped_items@[i])@,
                ),
    {
        let forecast_seconds = get_forecast();
        let stamped_item = stamp_item(item, created_at, forecast_seconds);
        stamped_items.push(stamped_item);
    }
    stamped_items
}

/// Stamps `items`, in their order, with the present time as their creation
/// time and a forecast drawn for each. The present time is not before the
/// Unix epoch.
pub fn stamp_new_items(items: Vec<NewItem>) -> (stamped_items: Vec<StorageNewItem>)
    ensures
        exists|created_at: Timestamp|
            {
                &&& #[trigger] stamped_at(
                    created_at,
                    requests_view(items@),
                    new_items_view(stamped_items@),
                )
                &&& 0 <= created_at.secs < CLOCK_SECS_END
                &&& created_at.nanos < 1_000_000_000
            },
{
    let created_at = now();
    let stamped_items = stamp_items(items, created_at);
    assert(stamped_at(created_at, requests_view(items@), new_items_view(stamped_items@)));
    stamped_items
}

/// The public face of the restaurant: what a client can ask for.
///
/// An implementation may keep the items in a storage of its own or pass the
/// calls on to a service elsewhere.
pub trait RestaurantService: Sized {
    /// What the service reports when an operation fails.
    type Error;

    /// The items that the service keeps.
    spec fn view(&self) -> StorageModel;

    /// The service's own consistency condition.
    spec fn inv(&self) -> bool;

    /// How many more items the service can take.
    spec fn room(&self) -> nat;

    /// Adds `items` to table `table_id`, in the order given; the service notes
    /// the time of creation and forecasts when each will be ready.
    fn add_items(&mut self, table_id: TableId, items: Vec<NewItem>) -> (outcome: Result<
        (),
        Self::Error,
    >)
        requires
            old(self).inv(),
            items@.len() <= old(self).room(),
        ensures
            final(self).inv(),
            outcome is Ok ==> exists|created_at: Timestamp, stamped_items: Seq<StorageNewItemView>|
                {
                    &&& #[trigger] stamped_at(created_at, requests_view(items@), stamped_items)
                    &&& final(self)@.added(old(self)@, table_id, stamped_items)
                },
            outcome is Err ==> final(self)@ == old(self)@ && final(self).room() == old(self).room(),
    ;

    /// Removes from table `table_id` the items named in `item_ids`; a name
    /// that the table does not hold is passed over.
    fn remove_items(&mut self, table_id: TableId, item_ids: Vec<ItemId>) -> (outcome: Result<
        (),
        Self::Error,
    >)
        requires
            old(self).inv(),
        ensures
            final(self).inv(),
            final(self).room() == old(self).room(),
            outcome is Ok ==> final(self)@.removed(old(self)@, table_id, item_ids@),
            outcome is Err ==> final(self)@ == old(self)@,
    ;

    /// Lists the items of table `table_id`: those added first come first.
    fn list_items(&self, table_id: TableId) -> (outcome: Result<Vec<ItemInfoShort>, Self::Error>)
        requires
            self.inv(),
        ensures
            outcome matches Ok(listing) ==> listing_view(listing@) == self@.list(table_id),
    ;

    /// Gets item `item_id` of table `table_id`, or `None` where the table
    /// holds no such item.
    fn get_item(&self, table_id: TableId, item_id: ItemId) -> (outcome: Result<
        Option<ItemInfo>,
        Self::Error,
    >)
        requires
            self.inv(),
        ensures
            outcome matches Ok(found) ==> match found {
                Some(item) => self@.get(table_id, item_id) == Some(item@),
                None => self@.get(table_id, item_id) is None,
            },
    ;
}

/// The one error of [`DefaultRestaurantService`]: what its storage reported,
/// passed on as it came.
#[derive(Debug)]
pub enum DefaultRestaurantServiceError<SE> {
    StorageError(SE),
}

impl<SE> From<SE> for DefaultRestaurantServiceError<SE> {
    fn from(error: SE) -> (wrapped: DefaultRestaurantServiceError<SE>) {
        DefaultRestaurantServiceError::StorageError(error)
    }
}

impl<SE> vstd::std_specs::convert::FromSpecImpl<SE> for DefaultRestaurantServiceError<SE> {
    open spec fn obeys_from_spec() -> bool {
        true
    }

    open spec fn from_spec(error: SE) -> DefaultRestaurantServiceError<SE> {
        DefaultRestaurantServiceError::StorageError(error)
    }
}

impl<SE> DefaultRestaurantServiceError<SE> {
    /// The storage's error inside.
    pub fn into_storage_error(self) -> (error: SE)
        ensures
            self == DefaultRestaurantServiceError::StorageError(error),
    {
        match self {
            DefaultRestaurantServiceError::StorageError(error) => error,
        }
    }
}

/// The service over a storage backend: it stamps the items it is given and
/// leaves everything else to the storage.
pub struct DefaultRestaurantService<S> {
    storage: S,
}

impl<S> DefaultRestaurantService<S> {
    /// The service over `storage`.
    pub fn new(storage: S) -> (service: DefaultRestaurantService<S>)
        ensures
            service.storage() == storage,
    {
        DefaultRestaurantService { storage }
    }

    /// The storage underneath.
    pub closed spec fn storage(&self) -> S {
        self.storage
    }

    /// The storage underneath, handed back.
    pub fn into_storage(self) -> (storage: S)
        ensures
            storage == self.storage(),
    {
        self.storage
    }
}

/// What the service hands on of an answer of its storage: the answer as it
/// came, with an error wrapped.
pub open spec fn spec_pass_on<T, SE>(answer: Result<T, SE>) -> Result<
    T,
    DefaultRestaurantServiceError<SE>,
> {
    match answer {
        Ok(value) => Ok(value),
        Err(error) => Err(DefaultRestaurantServiceError::StorageError(error)),
    }
}

/// Hands on an answer of the storage: as it came, with an error wrapped.
pub fn pass_on<T, SE>(answer: Result<T, SE>) -> (outcome: Result<
    T,
    DefaultRestaurantServiceError<SE>,
>)
    ensures
        outcome == spec_pass_on(answer),
{
    match answer {
        Ok(value) => Ok(value),
        Err(error) => Err(DefaultRestaurantServiceError::StorageError(error)),
    }
}

impl<S: Storage> RestaurantService for DefaultRestaurantService<S> {
    type Error = DefaultRestaurantServiceError<S::Error>;

    open spec fn view(&self) -> StorageModel {
        self.storage()@
    }

    open spec fn inv(&self) -> bool {
        self.storage().inv()
    }

    open spec fn room(&self) -> nat {
        self.storage().room()
    }

    fn add_items(&mut self, table_id: TableId, items: Vec<NewItem>) -> (outcome: Result<
        (),
        DefaultRestaurantServiceError<S::Error>,
    >)
        ensures
            old(self).storage().infallible() ==> outcome is Ok,
            old(self).storage().infallible() ==> final(self).storage().infallible(),
    {
        let ghost requests = requests_view(items@);
        let stamped_items = stamp_new_items(items);
        let ghost stamps = new_items_view(stamped_items@);
        let outcome = pass_on(self.storage.add_items(table_id, stamped_items));
        proof {
            if outcome is Ok {
                let created_at = choose|at: Timestamp| stamped_at(at, requests, stamps);
                assert(stamped_at(created_at, requests, stamps));
            }
        }
        outcome
    }

    fn remove_items(&mut self, table_id: TableId, item_ids: Vec<ItemId>) -> (outcome: Result<
        (),
        DefaultRestaurantServiceError<S::Error>,
    >)
        ensures
            old(self).storage().infallible() ==> outcome is Ok,
            old(self).storage().infallible() ==> final(self).storage().infallible(),
    {
        pass_on(self.storage.remove_items(table_id, item_ids))
    }

    fn list_items(&self, table_id: TableId) -> (outcome: Result<
        Vec<ItemInfoShort>,
        DefaultRestaurantServiceError<S::Error>,
    >)
        ensures
            self.storage().infallible() ==> outcome is Ok,
            exists|answer: Result<Vec<ItemInfoShort>, S::Error>|
                {
                    &&& #[trigger] call_ensures(
                        S::list_items,
                        (&self.storage(), table_id),
                        answer,
                    )
                    &&& outcome == spec_pass_on(answer)
                },
    {
        pass_on(self.storage.list_items(table_id))
    }

    fn get_item(&self, table_id: TableId, item_id: ItemId) -> (outcome: Result<
        Option<ItemInfo>,
        DefaultRestaurantServiceError<S::Error>,
    >)
        ensures
            self.storage().infallible() ==> outcome is Ok,
            exists|answer: Result<Option<ItemInfo>, S::Error>|
                {
                    &&& #[trigger] call_ensures(
                        S::get_item,
                        (&self.storage(), table_id, item_id),
                        answer,
                    )
                    &&& outcome == spec_pass_on(answer)
                },
    {
        pass_on(self.storage.get_item(table_id, item_id))
    }
}

} // verus!
