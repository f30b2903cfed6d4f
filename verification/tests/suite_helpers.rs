use restaurant::memory::SimpleMemoryStorage;
use restaurant::model::{ItemId, ItemInfo, ItemInfoShort, NewItem, TableId, Timestamp};
use restaurant::storage::Storage;
use restaurant::testing::{
    another_id, begins_unused, gone, holds_item, lists_item, same_found, same_listing,
};

#[test]
fn helpers_of_the_scenarios_compare_what_they_say() {
    let item = NewItem {
        name: "n".to_string(),
        comment: "c".to_string(),
        created_at: Timestamp::new(1, 2),
        forecast_ready_at: Timestamp::new(3, 4),
    };
    let entry = ItemInfoShort { table_id: TableId(1), item_id: ItemId(5), name: "n".to_string() };
    assert!(lists_item(&entry, TableId(1), &item));
    assert!(!lists_item(&entry, TableId(2), &item));
    let other = ItemInfoShort { table_id: TableId(1), item_id: ItemId(5), name: "m".to_string() };
    assert!(!lists_item(&other, TableId(1), &item));

    let kept = ItemInfo {
        table_id: TableId(1),
        item_id: ItemId(5),
        name: "n".to_string(),
        comment: "c".to_string(),
        created_at: Timestamp::new(1, 2),
        forecast_ready_at: Timestamp::new(3, 4),
    };
    assert!(holds_item(&Some(kept.clone()), TableId(1), ItemId(5), &item));
    assert!(!holds_item(&Some(kept.clone()), TableId(9), ItemId(5), &item));
    assert!(!holds_item(&Some(kept.clone()), TableId(1), ItemId(6), &item));
    assert!(!holds_item(&None, TableId(1), ItemId(5), &item));
    let mut renamed = kept.clone();
    renamed.name = "m".to_string();
    assert!(!holds_item(&Some(renamed), TableId(1), ItemId(5), &item));
    let mut reworded = kept.clone();
    reworded.comment = "another comment".to_string();
    assert!(!holds_item(&Some(reworded), TableId(1), ItemId(5), &item));
    let mut late = kept.clone();
    late.forecast_ready_at = Timestamp::new(3, 5);
    assert!(!holds_item(&Some(late.clone()), TableId(1), ItemId(5), &item));
    let mut early = kept.clone();
    early.created_at = Timestamp::new(0, 2);
    assert!(!holds_item(&Some(early), TableId(1), ItemId(5), &item));

    assert!(same_listing(&vec![], &vec![]));
    assert!(same_listing(&vec![entry.clone(), other.clone()], &vec![entry.clone(), other.clone()]));
    assert!(!same_listing(&vec![entry.clone(), other.clone()], &vec![other.clone(), entry.clone()]));
    assert!(!same_listing(&vec![entry.clone()], &vec![entry.clone(), other.clone()]));

    assert!(same_found(&None, &None));
    assert!(same_found(&Some(kept.clone()), &Some(kept.clone())));
    assert!(!same_found(&Some(kept.clone()), &None));
    assert!(!same_found(&None, &Some(kept.clone())));
    assert!(!same_found(&Some(kept.clone()), &Some(late)));

    let mut storage = SimpleMemoryStorage::new();
    assert_eq!(gone(&storage, TableId(1), ItemId(0)), Ok(true));
    storage.add_items(TableId(1), vec![item.clone()]).unwrap();
    assert_eq!(gone(&storage, TableId(1), ItemId(0)), Ok(false));
    assert_eq!(gone(&storage, TableId(1), ItemId(1)), Ok(false));
    assert_eq!(gone(&storage, TableId(2), ItemId(0)), Ok(true));
}

#[test]
fn a_scenario_begins_only_on_an_unused_table() {
    let mut storage = SimpleMemoryStorage::new();
    assert_eq!(begins_unused(&storage), Ok(true));
    let item = NewItem {
        name: "n".to_string(),
        comment: "c".to_string(),
        created_at: Timestamp::new(0, 0),
        forecast_ready_at: Timestamp::new(0, 0),
    };
    storage.add_items(TableId(2), vec![item.clone()]).unwrap();
    assert_eq!(begins_unused(&storage), Ok(true));
    storage.add_items(TableId(1), vec![item]).unwrap();
    assert_eq!(begins_unused(&storage), Ok(false));
    storage.remove_items(TableId(1), vec![ItemId(1)]).unwrap();
    assert_eq!(begins_unused(&storage), Ok(true));
}

#[test]
fn another_id_differs_from_the_one_given() {
    assert_eq!(another_id(ItemId(0)), ItemId(1));
    assert_eq!(another_id(ItemId(1)), ItemId(0));
    assert_eq!(another_id(ItemId(-5)), ItemId(0));
    assert_eq!(another_id(ItemId(i32::MAX)), ItemId(0));
}
