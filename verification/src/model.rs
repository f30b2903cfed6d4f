use vstd::prelude::*;

verus! {

/// Names one table's collection of items. Any value is a valid table: a table
/// comes into being with the first item added to it.
#[derive(Debug, PartialEq, Eq, Hash, Clone, Copy, Structural)]
pub struct TableId(pub i32);

/// Names one item. The storage backend assigns it when the item is added; a
/// caller never chooses it.
#[derive(Debug, PartialEq, Eq, Hash, Clone, Copy, Structural)]
pub struct ItemId(pub i32);

impl From<i32> for TableId {
    fn from(raw: i32) -> (id: TableId) {
        TableId(raw)
    }
}

impl vstd::std_specs::convert::FromSpecImpl<i32> for TableId {
    open spec fn obeys_from_spec() -> bool {
        true
    }

    open spec fn from_spec(raw: i32) -> TableId {
        TableId(raw)
    }
}

impl From<i32> for ItemId {
    fn from(raw: i32) -> (id: ItemId) {
        ItemId(raw)
    }
}

impl vstd::std_specs::convert::FromSpecImpl<i32> for ItemId {
    open spec fn obeys_from_spec() -> bool {
        true
    }

    open spec fn from_spec(raw: i32) -> ItemId {
        ItemId(raw)
    }
}

/// An instant on the UTC time line: whole seconds since 1970-01-01T00:00:00Z
/// and the nanoseconds into that second.
#[derive(Debug, PartialEq, Eq, Hash, Clone, Copy, Structural)]
pub struct Timestamp {
    pub secs: i64,
    pub nanos: u32,
}

impl Timestamp {
    /// The instant `secs` seconds and `nanos` nanoseconds after the Unix epoch.
    pub fn new(secs: i64, nanos: u32) -> (at: Timestamp)
        ensures
            at == (Timestamp { secs, nanos }),
    {
        Timestamp { secs, nanos }
    }

    /// 1970-01-01T00:00:00Z.
    pub fn unix_epoch() -> (at: Timestamp)
        ensures
            at == (Timestamp { secs: 0, nanos: 0 }),
    {
        Timestamp { secs: 0, nanos: 0 }
    }

    /// The instant `seconds` whole seconds after this one (before it, where
    /// `seconds` is negative).
    pub open spec fn spec_plus_seconds(self, seconds: int) -> Timestamp {
        Timestamp { secs: (self.secs + seconds) as i64, nanos: self.nanos }
    }

    /// The instant `seconds` whole seconds after this one. Its seconds must
    /// fit in an `i64`.
    pub fn plus_seconds(self, seconds: i64) -> (later: Timestamp)
        requires
            i64::MIN <= self.secs + seconds <= i64::MAX,
        ensures
            later == self.spec_plus_seconds(seconds as int),
    {
        Timestamp { secs: self.secs + seconds, nanos: self.nanos }
    }
}

/// What a caller hands to storage for one item to add.
#[derive(Debug)]
pub struct NewItem {
    pub name: String,
    pub comment: String,
    pub created_at: Timestamp,
    pub forecast_ready_at: Timestamp,
}

/// The mathematical content of a [`NewItem`].
pub struct NewItemView {
    pub name: Seq<char>,
    pub comment: Seq<char>,
    pub created_at: Timestamp,
    pub forecast_ready_at: Timestamp,
}

impl View for NewItem {
    type V = NewItemView;

    open spec fn view(&self) -> NewItemView {
        NewItemView {
            name: self.name@,
            comment: self.comment@,
            created_at: self.created_at,
            forecast_ready_at: self.forecast_ready_at,
        }
    }
}

impl Clone for NewItem {
    fn clone(&self) -> (copy: NewItem)
        ensures
            copy == *self,
    {
        NewItem {
            name: self.name.clone(),
            comment: self.comment.clone(),
            created_at: self.created_at,
            forecast_ready_at: self.forecast_ready_at,
        }
    }
}

/// The projection of a stored item that listings return.
#[derive(Debug)]
pub struct ItemInfoShort {
    pub table_id: TableId,
    pub item_id: ItemId,
    pub name: String,
}

/// The mathematical content of an [`ItemInfoShort`].
pub struct ItemInfoShortView {
    pub table_id: TableId,
    pub item_id: ItemId,
    pub name: Seq<char>,
}

impl View for ItemInfoShort {
    type V = ItemInfoShortView;

    open spec fn view(&self) -> ItemInfoShortView {
        ItemInfoShortView { table_id: self.table_id, item_id: self.item_id, name: self.name@ }
    }
}

impl Clone for ItemInfoShort {
    fn clone(&self) -> (copy: ItemInfoShort)
        ensures
            copy == *self,
    {
        ItemInfoShort { table_id: self.table_id, item_id: self.item_id, name: self.name.clone() }
    }
}

impl PartialEq for ItemInfoShort {
    fn eq(&self, other: &ItemInfoShort) -> (same: bool) {
        self.table_id == other.table_id && self.item_id == other.item_id && self.name == other.name
    }
}

impl vstd::std_specs::cmp::PartialEqSpecImpl for ItemInfoShort {
    open spec fn obeys_eq_spec() -> bool {
        true
    }

    open spec fn eq_spec(&self, other: &ItemInfoShort) -> bool {
        self@ == other@
    }
}

impl Eq for ItemInfoShort {

}

/// A stored item in full.
#[derive(Debug)]
pub struct ItemInfo {
    pub table_id: TableId,
    pub item_id: ItemId,
    pub name: String,
    pub comment: String,
    pub created_at: Timestamp,
    pub forecast_ready_at: Timestamp,
}

/// The mathematical content of an [`ItemInfo`].
pub struct ItemInfoView {
    pub table_id: TableId,
    pub item_id: ItemId,
    pub name: Seq<char>,
    pub comment: Seq<char>,
    pub created_at: Timestamp,
    pub forecast_ready_at: Timestamp,
}

impl ItemInfoView {
    /// The item that storage holds once `item` was added to `table_id` and
    /// given the identifier `item_id`.
    pub open spec fn stored(table_id: TableId, item_id: ItemId, item: NewItemView) -> ItemInfoView {
        ItemInfoView {
            table_id,
            item_id,
            name: item.name,
            comment: item.comment,
            created_at: item.created_at,
            forecast_ready_at: item.forecast_ready_at,
        }
    }

    /// What a listing shows of this item.
    pub open spec fn short(self) -> ItemInfoShortView {
        ItemInfoShortView { table_id: self.table_id, item_id: self.item_id, name: self.name }
    }
}

impl View for ItemInfo {
    type V = ItemInfoView;

    open spec fn view(&self) -> ItemInfoView {
        ItemInfoView {
            table_id: self.table_id,
            item_id: self.item_id,
            name: self.name@,
            comment: self.comment@,
            created_at: self.created_at,
            forecast_ready_at: self.forecast_ready_at,
        }
    }
}

impl Clone for ItemInfo {
    fn clone(&self) -> (copy: ItemInfo)
        ensures
            copy == *self,
    {
        ItemInfo {
            table_id: self.table_id,
            item_id: self.item_id,
            name: self.name.clone(),
            comment: self.comment.clone(),
            created_at: self.created_at,
            forecast_ready_at: self.forecast_ready_at,
        }
    }
}

impl PartialEq for ItemInfo {
    fn eq(&self, other: &ItemInfo) -> (same: bool) {
        self.table_id == other.table_id && self.item_id == other.item_id && self.name == other.name
            && self.comment == other.comment && self.created_at == other.created_at
            && self.forecast_ready_at == other.forecast_ready_at
    }
}

impl vstd::std_specs::cmp::PartialEqSpecImpl for ItemInfo {
    open spec fn obeys_eq_spec() -> bool {
        true
    }

    open spec fn eq_spec(&self, other: &ItemInfo) -> bool {
        self@ == other@
    }
}

impl Eq for ItemInfo {

}

impl ItemInfo {
    /// The listing entry for this item.
    pub fn to_short(&self) -> (short: ItemInfoShort)
        ensures
            short@ == self@.short(),
    {
        ItemInfoShort { table_id: self.table_id, item_id: self.item_id, name: self.name.clone() }
    }
}

} // verus!
