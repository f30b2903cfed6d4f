use restaurant::columns::{
    build_column_map, column_map_for, item_info_columns, item_info_short_columns, position,
    ColumnNotFound,
};
use restaurant::memory::contains_id;
use restaurant::model::{ItemId, ItemInfo, ItemInfoShort, NewItem, TableId, Timestamp};

#[test]
fn ids_come_from_raw_numbers() {
    let table: TableId = 7.into();
    assert_eq!(table, TableId(7));
    let item: ItemId = 0.into();
    assert_eq!(item, ItemId(0));
    assert_eq!(ItemId::from(-3).0, -3);
    assert_ne!(TableId::from(1), TableId::from(2));
}

#[test]
fn timestamps_add_whole_seconds() {
    assert_eq!(Timestamp::unix_epoch(), Timestamp { secs: 0, nanos: 0 });
    assert_eq!(Timestamp::new(5, 6), Timestamp { secs: 5, nanos: 6 });
    assert_eq!(
        Timestamp::new(1_700_000_000, 123).plus_seconds(300),
        Timestamp { secs: 1_700_000_300, nanos: 123 }
    );
    assert_eq!(Timestamp::new(10, 1).plus_seconds(-20), Timestamp { secs: -10, nanos: 1 });
}

#[test]
fn stored_items_compare_field_by_field() {
    let full = ItemInfo {
        table_id: TableId(1),
        item_id: ItemId(2),
        name: "n".to_string(),
        comment: "c".to_string(),
        created_at: Timestamp::new(1, 0),
        forecast_ready_at: Timestamp::new(2, 0),
    };
    assert_eq!(full.clone(), full);
    let mut other = full.clone();
    other.comment = "d".to_string();
    assert_ne!(other, full);
    let mut later = full.clone();
    later.forecast_ready_at = Timestamp::new(3, 0);
    assert_ne!(later, full);
    assert_eq!(
        full.to_short(),
        ItemInfoShort { table_id: TableId(1), item_id: ItemId(2), name: "n".to_string() }
    );
    assert_ne!(
        full.to_short(),
        ItemInfoShort { table_id: TableId(1), item_id: ItemId(3), name: "n".to_string() }
    );
    let new_item = NewItem {
        name: "n".to_string(),
        comment: "c".to_string(),
        created_at: Timestamp::new(1, 0),
        forecast_ready_at: Timestamp::new(2, 0),
    };
    let copy = new_item.clone();
    assert_eq!(copy.name, "n");
    assert_eq!(copy.forecast_ready_at, Timestamp::new(2, 0));
}

#[test]
fn contains_id_looks_through_all_ids() {
    let ids = vec![ItemId(3), ItemId(5)];
    assert!(contains_id(&ids, ItemId(5)));
    assert!(contains_id(&ids, ItemId(3)));
    assert!(!contains_id(&ids, ItemId(4)));
    assert!(!contains_id(&vec![], ItemId(0)));
}

fn names(columns: &[&str]) -> Vec<String> {
    columns.iter().map(|c| c.to_string()).collect()
}

#[test]
fn position_finds_the_first_column_of_a_name() {
    let columns = names(&["a", "b", "a", "c"]);
    assert_eq!(position(&columns, "a"), Some(0));
    assert_eq!(position(&columns, "c"), Some(3));
    assert_eq!(position(&columns, "d"), None);
    assert_eq!(position(&vec![], "a"), None);
}

#[test]
fn column_map_follows_the_order_of_the_result_set() {
    let input = names(&["name", "extra", "item_id", "table_id"]);
    assert_eq!(build_column_map(&item_info_short_columns(), &input), Ok(vec![3, 2, 0]));
    let straight = names(&["table_id", "item_id", "name"]);
    assert_eq!(build_column_map(&item_info_short_columns(), &straight), Ok(vec![0, 1, 2]));
    let full = names(&[
        "forecast_ready_at",
        "created_at",
        "comment",
        "name",
        "item_id",
        "table_id",
    ]);
    assert_eq!(build_column_map(&item_info_columns(), &full), Ok(vec![5, 4, 3, 2, 1, 0]));
    assert_eq!(build_column_map(&vec![], &full), Ok(vec![]));
}

#[test]
fn column_map_fails_with_the_first_missing_column() {
    let input = names(&["table_id", "name"]);
    assert_eq!(
        build_column_map(&item_info_short_columns(), &input),
        Err(ColumnNotFound("item_id"))
    );
    assert_eq!(
        build_column_map(&item_info_columns(), &input),
        Err(ColumnNotFound("item_id"))
    );
    assert_eq!(
        build_column_map(&item_info_columns(), &vec![]),
        Err(ColumnNotFound("table_id"))
    );
    let short = names(&["table_id", "item_id", "name"]);
    assert_eq!(build_column_map(&item_info_columns(), &short), Err(ColumnNotFound("comment")));
}

#[test]
fn column_lists_name_the_columns_of_each_shape() {
    assert_eq!(item_info_short_columns(), vec!["table_id", "item_id", "name"]);
    assert_eq!(
        item_info_columns(),
        vec!["table_id", "item_id", "name", "comment", "created_at", "forecast_ready_at"]
    );
}

#[test]
fn an_empty_result_set_needs_no_column() {
    assert_eq!(column_map_for(&item_info_short_columns(), None), Ok(None));
    assert_eq!(column_map_for(&item_info_columns(), None), Ok(None));
    assert_eq!(column_map_for(&vec!["no such column"], None), Ok(None));
    assert_eq!(column_map_for(&vec![], None), Ok(None));
}

#[test]
fn the_first_row_gives_the_column_map_of_the_result_set() {
    let input = names(&["name", "extra", "item_id", "table_id"]);
    assert_eq!(column_map_for(&item_info_short_columns(), Some(&input)), Ok(Some(vec![3, 2, 0])));
    assert_eq!(column_map_for(&vec![], Some(&input)), Ok(Some(vec![])));
    assert_eq!(
        column_map_for(&item_info_columns(), Some(&input)),
        Err(ColumnNotFound("comment"))
    );
    assert_eq!(
        column_map_for(&item_info_short_columns(), Some(&vec![])),
        Err(ColumnNotFound("table_id"))
    );
}
