use restaurant::model::{ItemId, NewItem, TableId, Timestamp};
use restaurant::pg::{
    add_items_plan, get_item_plan, insert_statement, list_items_plan, raw_item_ids,
    remove_items_plan, Isolation, Param, Query, DELETE_ITEMS, INSERT_ITEM, SELECT_ITEM,
    SELECT_ITEMS,
};

fn item(name: &str, comment: &str, created: i64, ready: i64) -> NewItem {
    NewItem {
        name: name.to_string(),
        comment: comment.to_string(),
        created_at: Timestamp::new(created, 1),
        forecast_ready_at: Timestamp::new(ready, 2),
    }
}

fn describe(param: &Param) -> String {
    format!("{:?}", param)
}

#[test]
fn queries_know_their_text_and_shape() {
    assert_eq!(Query::InsertItem.sql(), INSERT_ITEM);
    assert_eq!(Query::DeleteItems.sql(), DELETE_ITEMS);
    assert_eq!(Query::SelectItems.sql(), SELECT_ITEMS);
    assert_eq!(Query::SelectItem.sql(), SELECT_ITEM);
    assert!(INSERT_ITEM.starts_with("INSERT INTO items"));
    assert!(DELETE_ITEMS.contains("item_id = ANY($2)"));
    assert!(SELECT_ITEMS.ends_with("ORDER BY item_id"));
    assert!(SELECT_ITEM.contains("table_id = $1 AND item_id = $2"));
    assert!(!Query::InsertItem.returns_rows());
    assert!(!Query::DeleteItems.returns_rows());
    assert!(Query::SelectItems.returns_rows());
    assert!(Query::SelectItem.returns_rows());
    assert_eq!(Query::InsertItem.placeholders(), 5);
    assert_eq!(Query::DeleteItems.placeholders(), 2);
    assert_eq!(Query::SelectItems.placeholders(), 1);
    assert_eq!(Query::SelectItem.placeholders(), 2);
    for query in [Query::InsertItem, Query::DeleteItems, Query::SelectItems, Query::SelectItem] {
        let highest = format!("${}", query.placeholders());
        let beyond = format!("${}", query.placeholders() + 1);
        assert!(query.sql().contains(&highest));
        assert!(!query.sql().contains(&beyond));
    }
}

#[test]
fn insert_statement_carries_the_item() {
    let statement = insert_statement(TableId(3), item("soup", "hot", 10, 20));
    assert_eq!(statement.query, Query::InsertItem);
    let params: Vec<String> = statement.params.iter().map(describe).collect();
    assert_eq!(
        params,
        vec![
            "Int4(3)",
            "Text(\"soup\")",
            "Text(\"hot\")",
            "Timestamptz(Timestamp { secs: 10, nanos: 1 })",
            "Timestamptz(Timestamp { secs: 20, nanos: 2 })",
        ]
    );
}

#[test]
fn adding_plans_one_insert_per_item_in_order() {
    let plan = add_items_plan(
        TableId(7),
        vec![item("b", "2", 1, 2), item("a", "1", 3, 4), item("c", "3", 5, 6)],
    );
    assert_eq!(plan.isolation, Isolation::Serializable);
    assert!(!plan.read_only);
    assert_eq!(plan.statements.len(), 3);
    let names: Vec<String> = plan.statements.iter().map(|s| describe(&s.params[1])).collect();
    assert_eq!(names, vec!["Text(\"b\")", "Text(\"a\")", "Text(\"c\")"]);
    for statement in &plan.statements {
        assert_eq!(statement.query, Query::InsertItem);
        assert_eq!(statement.params.len(), 5);
        assert_eq!(describe(&statement.params[0]), "Int4(7)");
    }
    let empty = add_items_plan(TableId(7), vec![]);
    assert!(!empty.read_only);
    assert!(empty.statements.is_empty());
}

#[test]
fn removing_plans_a_single_delete() {
    let plan = remove_items_plan(TableId(2), vec![ItemId(9), ItemId(4), ItemId(9)]);
    assert_eq!(plan.isolation, Isolation::Serializable);
    assert!(!plan.read_only);
    assert_eq!(plan.statements.len(), 1);
    assert_eq!(plan.statements[0].query, Query::DeleteItems);
    let params: Vec<String> = plan.statements[0].params.iter().map(describe).collect();
    assert_eq!(params, vec!["Int4(2)", "Int4Array([9, 4, 9])"]);
    let none = remove_items_plan(TableId(2), vec![]);
    assert_eq!(describe(&none.statements[0].params[1]), "Int4Array([])");
    assert_eq!(raw_item_ids(&vec![ItemId(-1), ItemId(5)]), vec![-1, 5]);
}

#[test]
fn reading_plans_only_read() {
    let list = list_items_plan(TableId(5));
    assert_eq!(list.isolation, Isolation::Serializable);
    assert!(list.read_only);
    assert_eq!(list.statements.len(), 1);
    assert_eq!(list.statements[0].query, Query::SelectItems);
    let params: Vec<String> = list.statements[0].params.iter().map(describe).collect();
    assert_eq!(params, vec!["Int4(5)"]);

    let get = get_item_plan(TableId(5), ItemId(11));
    assert_eq!(get.isolation, Isolation::Serializable);
    assert!(get.read_only);
    assert_eq!(get.statements.len(), 1);
    assert_eq!(get.statements[0].query, Query::SelectItem);
    let params: Vec<String> = get.statements[0].params.iter().map(describe).collect();
    assert_eq!(params, vec!["Int4(5)", "Int4(11)"]);
}
