use crate::model::{ItemId, NewItem, NewItemView, TableId, Timestamp};
use vstd::prelude::*;

verus! {

/// Inserts one item into `items`; the database gives it its identifier.
pub const INSERT_ITEM: &'static str =
    "INSERT INTO items (table_id, name, comment, created_at, forecast_ready_at) VALUES ($1, $2, $3, $4, $5)";

/// Deletes the items of one table whose identifier is among those given.
pub const DELETE_ITEMS: &'static str =
    "DELETE FROM items WHERE table_id = $1 AND item_id = ANY($2)";

/// Selects what a listing shows of the items of one table, by rising
/// identifier.
pub const SELECT_ITEMS: &'static str =
    "SELECT table_id, item_id, name FROM items WHERE table_id = $1 ORDER BY item_id";

/// Selects one item of one table in full.
pub const SELECT_ITEM: &'static str =
    "SELECT table_id, item_id, name, comment, created_at, forecast_ready_at FROM items WHERE table_id = $1 AND item_id = $2";

/// A value that takes the place of a placeholder of a statement.
#[derive(Debug)]
pub enum Param {
    Int4(i32),
    Text(String),
    Timestamptz(Timestamp),
    Int4Array(Vec<i32>),
}

/// The mathematical content of a [`Param`].
pub enum ParamView {
    Int4(i32),
    Text(Seq<char>),
    Timestamptz(Timestamp),
    Int4Array(Seq<i32>),
}

impl View for Param {
    type V = ParamView;

    open spec fn view(&self) -> ParamView {
        match self {
            Param::Int4(n) => ParamView::Int4(*n),
            Param::Text(text) => ParamView::Text(text@),
            Param::Timestamptz(at) => ParamView::Timestamptz(*at),
            Param::Int4Array(numbers) => ParamView::Int4Array(numbers@),
        }
    }
}

/// The statements that the relational storage runs against its one table,
/// `items`.
#[derive(Debug, PartialEq, Eq, Clone, Copy, Structural)]
pub enum Query {
    /// Inserts one item; the database gives it its identifier.
    InsertItem,
    /// Deletes the items of one table whose identifier is among those given.
    DeleteItems,
    /// Selects what a listing shows of the items of one table, by rising
    /// identifier.
    SelectItems,
    /// Selects one item of one table in full.
    SelectItem,
}

impl Query {
    /// Whether the statement answers with rows.
    pub open spec fn spec_returns_rows(self) -> bool {
        self == Query::SelectItems || self == Query::SelectItem
    }

    /// Whether the statement answers with rows.
    pub fn returns_rows(self) -> (yes: bool)
        ensures
            yes == self.spec_returns_rows(),
    {
        match self {
            Query::InsertItem => false,
            Query::DeleteItems => false,
            Query::SelectItems => true,
            Query::SelectItem => true,
        }
    }

    /// How many placeholders the statement has.
    pub open spec fn spec_placeholders(self) -> nat {
        match self {
            Query::InsertItem => 5,
            Query::DeleteItems => 2,
            Query::SelectItems => 1,
            Query::SelectItem => 2,
        }
    }

    /// How many placeholders the statement has.
    pub fn placeholders(self) -> (count: usize)
        ensures
            count == self.spec_placeholders(),
    {
        match self {
            Query::InsertItem => 5,
            Query::DeleteItems => 2,
            Query::SelectItems => 1,
            Query::SelectItem => 2,
        }
    }

    /// The text of the statement.
    pub open spec fn spec_sql(self) -> &'static str {
        match self {
            Query::InsertItem => INSERT_ITEM,
            Query::DeleteItems => DELETE_ITEMS,
            Query::SelectItems => SELECT_ITEMS,
            Query::SelectItem => SELECT_ITEM,
        }
    }

    /// The text of the statement.
    pub fn sql(self) -> (text: &'static str)
        ensures
            text == self.spec_sql(),
    {
        match self {
            Query::InsertItem => INSERT_ITEM,
            Query::DeleteItems => DELETE_ITEMS,
            Query::SelectItems => SELECT_ITEMS,
            Query::SelectItem => SELECT_ITEM,
        }
    }
}

/// One statement with the values for its placeholders, in their order.
#[derive(Debug)]
pub struct Statement {
    pub query: Query,
    pub params: Vec<Param>,
}

/// The mathematical content of a [`Statement`].
pub struct StatementView {
    pub query: Query,
    pub params: Seq<ParamView>,
}

impl View for Statement {
    type V = StatementView;

    open spec fn view(&self) -> StatementView {
        StatementView { query: self.query, params: self.params@.map_values(|p: Param| p@) }
    }
}

/// How far a transaction is kept apart from those that run beside it. The
/// storage knows the strictest level only.
#[derive(Debug, PartialEq, Eq, Clone, Copy, Structural)]
pub enum Isolation {
    /// The transactions take effect as if they had run one after another.
    Serializable,
}

/// What one operation of the relational storage does: the statements of one
/// transaction, in the order in which they run. All of it takes effect or
/// none.
#[derive(Debug)]
pub struct TransactionPlan {
    pub isolation: Isolation,
    pub read_only: bool,
    pub statements: Vec<Statement>,
}

impl TransactionPlan {
    /// The statements of the plan, in their order.
    pub open spec fn spec_statements(self) -> Seq<StatementView> {
        self.statements@.map_values(|s: Statement| s@)
    }

    /// Every statement has a value for each of its placeholders.
    pub open spec fn wf(self) -> bool {
        forall|i: int|
            0 <= i < self.spec_statements().len() ==> (#[trigger] self.spec_statements()[i]).params.len()
                == self.spec_statements()[i].query.spec_placeholders()
    }
}

/// The statement that inserts `item` into table `table_id`.
pub open spec fn insert_of(table_id: TableId, item: NewItemView) -> StatementView {
    StatementView {
        query: Query::InsertItem,
        params: seq![
            ParamView::Int4(table_id.0),
            ParamView::Text(item.name),
            ParamView::Text(item.comment),
            ParamView::Timestamptz(item.created_at),
            ParamView::Timestamptz(item.forecast_ready_at),
        ],
    }
}

/// The statement that deletes the items named in `item_ids` from table
/// `table_id`.
pub open spec fn delete_of(table_id: TableId, item_ids: Seq<ItemId>) -> StatementView {
    StatementView {
        query: Query::DeleteItems,
        params: seq![
            ParamView::Int4(table_id.0),
            ParamView::Int4Array(item_ids.map_values(|id: ItemId| id.0)),
        ],
    }
}

/// The statement that selects the listing of table `table_id`.
pub open spec fn select_items_of(table_id: TableId) -> StatementView {
    StatementView { query: Query::SelectItems, params: seq![ParamView::Int4(table_id.0)] }
}

/// The statement that selects item `item_id` of table `table_id`.
pub open spec fn select_item_of(table_id: TableId, item_id: ItemId) -> StatementView {
    StatementView {
        query: Query::SelectItem,
        params: seq![ParamView::Int4(table_id.0), ParamView::Int4(item_id.0)],
    }
}

/// The statement that inserts `item` into table `table_id`.
pub fn insert_statement(table_id: TableId, item: NewItem) -> (statement: Statement)
    ensures
        statement@ == insert_of(table_id, item@),
{
    let params = vec![
        Param::Int4(table_id.0),
        Param::Text(item.name),
        Param::Text(item.comment),
        Param::Timestamptz(item.created_at),
        Param::Timestamptz(item.forecast_ready_at),
    ];
    let statement = Statement { query: Query::InsertItem, params };
    assert(statement@.params =~= insert_of(table_id, item@).params);
    statement
}

/// How items are added to table `table_id`: in one transaction, one insert
/// for each item, in the order of the items, so that the identifiers that the
/// database gives out follow that order.
pub fn add_items_plan(table_id: TableId, items: Vec<NewItem>) -> (plan: TransactionPlan)
    ensures
        plan.isolation == Isolation::Serializable,
        !plan.read_only,
        plan.wf(),
        plan.spec_statements().len() == items@.len(),
        forall|i: int|
            0 <= i < items@.len() ==> #[trigger] plan.spec_statements()[i] == insert_of(
                table_id,
                items@[i]@,
            ),
{
    let mut statements: Vec<Statement> = Vec::new();
    for item in it: items
        invariant
            it.seq() == items@,
            statements@.len() == it.index(),
            forall|i: int|
                0 <= i < it.index() ==> (#[trigger] statements@[i])@ == insert_of(
                    table_id,
                    items@[i]@,
                ),
    {
        statements.push(insert_statement(table_id, item));
    }
    let plan = TransactionPlan { isolation: Isolation::Serializable, read_only: false, statements };
    assert forall|i: int| 0 <= i < items@.len() implies #[trigger] plan.spec_statements()[i]
        == insert_of(table_id, items@[i]@) by {
        assert(plan.spec_statements()[i] == plan.statements@[i]@);
    }
    plan
}

/// The numbers of `item_ids`, in their order.
pub fn raw_item_ids(item_ids: &Vec<ItemId>) -> (raw: Vec<i32>)
    ensures
        raw@ == item_ids@.map_values(|id: ItemId| id.0),
{
    let mut raw: Vec<i32> = Vec::new();
    let mut i: usize = 0;
    while i < item_ids.len()
        invariant
            i <= item_ids.len(),
            raw@.len() == i,
            forall|j: int| 0 <= j < i ==> raw@[j] == item_ids@[j].0,
        decreases item_ids.len() - i,
    {
        raw.push(item_ids[i].0);
        i = i + 1;
    }
    assert(raw@ =~= item_ids@.map_values(|id: ItemId| id.0));
    raw
}

/// How items are removed from table `table_id`: in one transaction, with
/// one statement that names them all. An identifier that the table does not
/// hold matches no row.
pub fn remove_items_plan(table_id: TableId, item_ids: Vec<ItemId>) -> (plan: TransactionPlan)
    ensures
        plan.isolation == Isolation::Serializable,
        !plan.read_only,
        plan.wf(),
        plan.spec_statements() == seq![delete_of(table_id, item_ids@)],
{
    let params = vec![Param::Int4(table_id.0), Param::Int4Array(raw_item_ids(&item_ids))];
    let statement = Statement { query: Query::DeleteItems, params };
    assert(statement@.params =~= delete_of(table_id, item_ids@).params);
    let plan = TransactionPlan {
        isolation: Isolation::Serializable,
        read_only: false,
        statements: vec![statement],
    };
    assert(plan.spec_statements() =~= seq![delete_of(table_id, item_ids@)]);
    plan
}

/// How table `table_id` is listed: in one transaction that only reads, with
/// one statement, whose rows come by rising identifier.
pub fn list_items_plan(table_id: TableId) -> (plan: TransactionPlan)
    ensures
        plan.isolation == Isolation::Serializable,
        plan.read_only,
        plan.wf(),
        plan.spec_statements() == seq![select_items_of(table_id)],
{
    let params = vec![Param::Int4(table_id.0)];
    let statement = Statement { query: Query::SelectItems, params };
    assert(statement@.params =~= select_items_of(table_id).params);
    let plan = TransactionPlan {
        isolation: Isolation::Serializable,
        read_only: true,
        statements: vec![statement],
    };
    assert(plan.spec_statements() =~= seq![select_items_of(table_id)]);
    plan
}

/// How item `item_id` of table `table_id` is got: in one transaction that
/// only reads, with one statement.
pub fn get_item_plan(table_id: TableId, item_id: ItemId) -> (plan: TransactionPlan)
    ensures
        plan.isolation == Isolation::Serializable,
        plan.read_only,
        plan.wf(),
        plan.spec_statements() == seq![select_item_of(table_id, item_id)],
{
    let params = vec![Param::Int4(table_id.0), Param::Int4(item_id.0)];
    let statement = Statement { query: Query::SelectItem, params };
    assert(statement@.params =~= select_item_of(table_id, item_id).params);
    let plan = TransactionPlan {
        isolation: Isolation::Serializable,
        read_only: true,
        statements: vec![statement],
    };
    assert(plan.spec_statements() =~= seq![select_item_of(table_id, item_id)]);
    plan
}

} // verus!
