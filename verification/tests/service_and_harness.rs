use restaurant::harness::{
    draw_batch_size, draw_table_id, goes_on, item_ids_of, placeholder_item, placeholder_items,
    verdict, Op, Request, Shutdown, Turn, Verdict, Worker, WorkerExit,
};
use restaurant::memory::SimpleMemoryStorage;
use restaurant::model::{ItemId, ItemInfoShort, TableId, Timestamp};
use restaurant::service::{
    get_forecast, pass_on, stamp_item, stamp_items, stamp_new_items, DefaultRestaurantService,
    DefaultRestaurantServiceError, NewItem, RestaurantService,
};
use restaurant::storage::Storage;

fn request(name: &str, comment: &str) -> NewItem {
    NewItem { name: name.to_string(), comment: comment.to_string() }
}

fn entry(id: i32) -> ItemInfoShort {
    ItemInfoShort { table_id: TableId(0), item_id: ItemId(id), name: "x".to_string() }
}

#[test]
fn stamp_item_sets_both_times() {
    let stamped = stamp_item(request("soup", "hot"), Timestamp::new(1000, 7), 300);
    assert_eq!(stamped.name, "soup");
    assert_eq!(stamped.comment, "hot");
    assert_eq!(stamped.created_at, Timestamp::new(1000, 7));
    assert_eq!(stamped.forecast_ready_at, Timestamp::new(1300, 7));
    let latest = stamp_item(request("a", "b"), Timestamp::new(0, 0), 899);
    assert_eq!(latest.forecast_ready_at, Timestamp::new(899, 0));
}

#[test]
fn forecast_lies_between_five_and_fifteen_minutes() {
    for _ in 0..500 {
        let seconds = get_forecast();
        assert!((300..900).contains(&seconds));
    }
}

#[test]
fn stamp_items_keeps_order_and_stamps_each() {
    let at = Timestamp::new(50, 5);
    let stamped =
        stamp_items(vec![request("a", "1"), request("b", "2"), request("c", "3")], at);
    let names: Vec<&str> = stamped.iter().map(|i| i.name.as_str()).collect();
    assert_eq!(names, vec!["a", "b", "c"]);
    for item in &stamped {
        assert_eq!(item.created_at, at);
        assert_eq!(item.forecast_ready_at.nanos, 5);
        assert!(item.forecast_ready_at.secs >= 350 && item.forecast_ready_at.secs < 950);
    }
    assert_eq!(stamped[1].comment, "2");
}

#[test]
fn service_stamps_with_the_present_time_and_passes_on() {
    let mut service = DefaultRestaurantService::new(SimpleMemoryStorage::new());
    service.add_items(TableId(4), vec![request("a", "1"), request("b", "2")]).unwrap();
    let listing = service.list_items(TableId(4)).unwrap();
    assert_eq!(listing.len(), 2);
    assert_eq!(listing[0].name, "a");
    assert_eq!(listing[1].name, "b");
    let first = service.get_item(TableId(4), listing[0].item_id).unwrap().unwrap();
    let second = service.get_item(TableId(4), listing[1].item_id).unwrap().unwrap();
    assert_eq!(first.comment, "1");
    assert_eq!(first.created_at, second.created_at);
    assert!(first.created_at.secs > 1_600_000_000);
    assert!(first.created_at.nanos < 1_000_000_000);
    for item in [&first, &second] {
        let wait = item.forecast_ready_at.secs - item.created_at.secs;
        assert!((300..900).contains(&wait));
        assert_eq!(item.forecast_ready_at.nanos, item.created_at.nanos);
    }
    service.remove_items(TableId(4), vec![listing[0].item_id, ItemId(99)]).unwrap();
    let left = service.list_items(TableId(4)).unwrap();
    assert_eq!(left.len(), 1);
    assert_eq!(left[0].name, "b");
    assert!(service.get_item(TableId(4), listing[0].item_id).unwrap().is_none());
    assert!(service.list_items(TableId(5)).unwrap().is_empty());
    let storage = service.into_storage();
    assert_eq!(storage.list_items(TableId(4)).unwrap().len(), 1);
}

#[test]
fn service_error_holds_the_storage_error() {
    let error = DefaultRestaurantServiceError::StorageError(17);
    assert_eq!(error.into_storage_error(), 17);
    let wrapped: DefaultRestaurantServiceError<u8> = 4u8.into();
    assert_eq!(wrapped.into_storage_error(), 4);
}

#[test]
fn stamp_new_items_uses_one_present_time() {
    let stamped = stamp_new_items(vec![request("a", "1"), request("b", "2")]);
    assert_eq!(stamped.len(), 2);
    assert_eq!(stamped[0].name, "a");
    assert_eq!(stamped[1].comment, "2");
    assert_eq!(stamped[0].created_at, stamped[1].created_at);
    assert!(stamped[0].created_at.secs > 1_600_000_000);
    for item in &stamped {
        let wait = item.forecast_ready_at.secs - item.created_at.secs;
        assert!((300..900).contains(&wait));
    }
    assert!(stamp_new_items(vec![]).is_empty());
}

#[test]
fn op_from_roll_maps_each_roll() {
    assert_eq!(Op::from_roll(0), Op::Add);
    assert_eq!(Op::from_roll(1), Op::Remove);
    assert_eq!(Op::from_roll(2), Op::List);
    assert_eq!(Op::from_roll(3), Op::Get);
    assert_eq!(Op::from_roll(-1), Op::Get);
    assert_eq!(Op::from_roll(44), Op::Get);
}

#[test]
fn drawn_ops_cover_every_kind() {
    let mut seen = [false; 4];
    for _ in 0..2000 {
        match Op::draw() {
            Op::Add => seen[0] = true,
            Op::Remove => seen[1] = true,
            Op::List => seen[2] = true,
            Op::Get => seen[3] = true,
        }
    }
    assert_eq!(seen, [true; 4]);
}

#[test]
fn drawn_tables_and_batches_stay_in_range() {
    let mut tables = [false; 10];
    let mut sizes = [false; 10];
    for _ in 0..3000 {
        let table = draw_table_id();
        assert!((0..10).contains(&table.0));
        tables[table.0 as usize] = true;
        let size = draw_batch_size();
        assert!(size < 10);
        sizes[size] = true;
    }
    assert_eq!(tables, [true; 10]);
    assert_eq!(sizes, [true; 10]);
}

#[test]
fn placeholder_items_are_new_items_without_comment() {
    let one = placeholder_item();
    assert_eq!(one.name, "new item");
    assert_eq!(one.comment, "");
    assert!(placeholder_items(0).is_empty());
    let three = placeholder_items(3);
    assert_eq!(three.len(), 3);
    for item in three {
        assert_eq!(item.name, "new item");
        assert_eq!(item.comment, "");
    }
}

#[test]
fn item_ids_of_wraps_each_number() {
    assert_eq!(item_ids_of(&vec![4, -1, 4]), vec![ItemId(4), ItemId(-1), ItemId(4)]);
    assert_eq!(item_ids_of(&vec![]), vec![]);
}

#[test]
fn worker_learns_from_listings_and_forgets_on_removal() {
    let mut worker = Worker::new();
    assert_eq!(worker.known_count(), 0);
    worker.observe_listing(&vec![entry(3), entry(5), entry(3)]);
    assert_eq!(worker.known_count(), 2);
    assert!(worker.knows(ItemId(3)));
    assert!(worker.knows(ItemId(5)));
    assert!(!worker.knows(ItemId(4)));
    worker.observe_listing(&vec![]);
    assert_eq!(worker.known_count(), 2);
    match worker.remove_request(TableId(8), vec![5, 9]) {
        Request::Remove { table_id, item_ids } => {
            assert_eq!(table_id, TableId(8));
            assert_eq!(item_ids, vec![ItemId(5), ItemId(9)]);
        }
        other => panic!("{:?}", other),
    }
    assert_eq!(worker.known_count(), 1);
    assert!(worker.knows(ItemId(3)));
    assert!(!worker.knows(ItemId(5)));
}

#[test]
fn add_and_get_requests_carry_what_they_were_given() {
    match Worker::add_request(TableId(2), 4) {
        Request::Add { table_id, items } => {
            assert_eq!(table_id, TableId(2));
            assert_eq!(items.len(), 4);
            assert_eq!(items[3].name, "new item");
        }
        other => panic!("{:?}", other),
    }
    match Worker::get_request(TableId(6), Some(12)) {
        Some(Request::Get { table_id, item_id }) => {
            assert_eq!(table_id, TableId(6));
            assert_eq!(item_id, ItemId(12));
        }
        other => panic!("{:?}", other),
    }
    assert!(Worker::get_request(TableId(6), None).is_none());
    assert_eq!(Request::List { table_id: TableId(3) }.table_id(), TableId(3));
    assert_eq!(Request::Get { table_id: TableId(4), item_id: ItemId(0) }.table_id(), TableId(4));
}

#[test]
fn worker_with_nothing_known_skips_gets_and_removes_nothing() {
    let mut worker = Worker::new();
    for _ in 0..50 {
        assert!(worker.request_for(Op::Get).is_none());
        match worker.request_for(Op::Remove) {
            Some(Request::Remove { table_id, item_ids }) => {
                assert!((0..10).contains(&table_id.0));
                assert!(item_ids.is_empty());
            }
            other => panic!("{:?}", other),
        }
    }
}

#[test]
fn requests_for_each_kind_follow_the_rules() {
    let mut worker = Worker::new();
    let known: Vec<ItemInfoShort> = (100..130).map(entry).collect();
    worker.observe_listing(&known);
    let mut largest = 0;
    for _ in 0..300 {
        match worker.request_for(Op::Add) {
            Some(Request::Add { table_id, items }) => {
                assert!((0..10).contains(&table_id.0));
                assert!(items.len() < 10);
                assert!(items.iter().all(|i| i.name == "new item" && i.comment.is_empty()));
            }
            other => panic!("{:?}", other),
        }
        match worker.request_for(Op::List) {
            Some(Request::List { table_id }) => assert!((0..10).contains(&table_id.0)),
            other => panic!("{:?}", other),
        }
        match worker.request_for(Op::Get) {
            Some(Request::Get { table_id, item_id }) => {
                assert!((0..10).contains(&table_id.0));
                assert!(worker.knows(item_id));
            }
            other => panic!("{:?}", other),
        }
        assert_eq!(worker.known_count(), 30);
        let mut copy = Worker::new();
        copy.observe_listing(&known);
        match copy.request_for(Op::Remove) {
            Some(Request::Remove { table_id, item_ids }) => {
                assert!((0..10).contains(&table_id.0));
                assert!(item_ids.len() < 10);
                largest = largest.max(item_ids.len());
                for (i, id) in item_ids.iter().enumerate() {
                    assert!((100..130).contains(&id.0));
                    assert!(!copy.knows(*id));
                    assert!(!item_ids[..i].contains(id));
                }
                assert_eq!(copy.known_count(), 30 - item_ids.len());
            }
            other => panic!("{:?}", other),
        }
    }
    assert!(largest > 1);
}

#[test]
fn removal_takes_all_that_is_known_when_it_asks_for_more() {
    let mut complete = false;
    for _ in 0..400 {
        let mut worker = Worker::new();
        worker.observe_listing(&vec![entry(1), entry(2)]);
        match worker.request_for(Op::Remove) {
            Some(Request::Remove { item_ids, .. }) => {
                assert!(item_ids.len() <= 2);
                if item_ids.len() == 2 {
                    assert_ne!(item_ids[0], item_ids[1]);
                    assert_eq!(worker.known_count(), 0);
                    complete = true;
                }
            }
            other => panic!("{:?}", other),
        }
    }
    assert!(complete);
}

#[test]
fn next_request_only_ever_forgets() {
    let mut worker = Worker::new();
    worker.observe_listing(&(0..20).map(entry).collect());
    let mut count = worker.known_count();
    for _ in 0..200 {
        match worker.next_request() {
            Some(Request::Remove { item_ids, .. }) => {
                assert_eq!(worker.known_count(), count - item_ids.len());
                count = worker.known_count();
            }
            Some(asked) => {
                assert!((0..10).contains(&asked.table_id().0));
                assert_eq!(worker.known_count(), count);
            }
            None => assert_eq!(count, 0),
        }
    }
}

#[test]
fn verdict_reports_the_first_failure() {
    let finished = WorkerExit::Finished;
    let failed = WorkerExit::Failed;
    let aborted = WorkerExit::Aborted;
    assert_eq!(verdict(Shutdown::Interrupted, &vec![]), Verdict::Clean);
    assert_eq!(verdict(Shutdown::Interrupted, &vec![finished, finished]), Verdict::Clean);
    assert_eq!(verdict(Shutdown::WorkerStopped, &vec![finished, finished]), Verdict::StoppedEarly);
    assert_eq!(verdict(Shutdown::WorkerStopped, &vec![]), Verdict::StoppedEarly);
    assert_eq!(
        verdict(Shutdown::Interrupted, &vec![finished, failed, aborted]),
        Verdict::WorkerFailed { index: 1 }
    );
    assert_eq!(
        verdict(Shutdown::WorkerStopped, &vec![aborted, failed]),
        Verdict::WorkerFailed { index: 0 }
    );
    assert_eq!(
        verdict(Shutdown::Interrupted, &vec![finished, finished, aborted]),
        Verdict::WorkerFailed { index: 2 }
    );
}

#[test]
fn pass_on_keeps_an_answer_and_wraps_an_error() {
    let answer: Result<u8, &str> = Ok(3);
    match pass_on(answer) {
        Ok(value) => assert_eq!(value, 3),
        Err(_) => panic!("an answer became an error"),
    }
    let failure: Result<u8, &str> = Err("down");
    match pass_on(failure) {
        Err(DefaultRestaurantServiceError::StorageError(error)) => assert_eq!(error, "down"),
        Ok(_) => panic!("an error became an answer"),
    }
}

#[test]
fn a_cancelled_worker_stops_without_asking() {
    let mut fresh = Worker::new();
    assert!(matches!(fresh.turn(true), Turn::Stop));
    assert_eq!(fresh.known_count(), 0);

    let mut worker = Worker::new();
    worker.observe_listing(&(0..20).map(entry).collect());
    for _ in 0..50 {
        assert!(matches!(worker.turn(true), Turn::Stop));
        assert_eq!(worker.known_count(), 20);
    }
}

#[test]
fn a_worker_that_is_not_cancelled_asks_or_skips() {
    let mut empty = Worker::new();
    let mut skipped = false;
    let mut asked = false;
    for _ in 0..200 {
        match empty.turn(false) {
            Turn::Stop => panic!("stopped unasked"),
            Turn::Skip => skipped = true,
            Turn::Ask(Request::Get { .. }) => panic!("got an item that it cannot know"),
            Turn::Ask(request) => {
                assert!((0..10).contains(&request.table_id().0));
                asked = true;
            }
        }
        assert_eq!(empty.known_count(), 0);
    }
    assert!(skipped && asked);

    let mut worker = Worker::new();
    worker.observe_listing(&(0..20).map(entry).collect());
    let mut count = worker.known_count();
    for _ in 0..200 {
        match worker.turn(false) {
            Turn::Stop => panic!("stopped unasked"),
            Turn::Skip => assert_eq!(count, 0),
            Turn::Ask(Request::Remove { item_ids, .. }) => {
                assert_eq!(worker.known_count(), count - item_ids.len());
                count = worker.known_count();
            }
            Turn::Ask(Request::Get { item_id, .. }) => assert!(worker.knows(item_id)),
            Turn::Ask(_) => assert_eq!(worker.known_count(), count),
        }
    }
}

#[test]
fn a_worker_goes_on_unless_a_call_failed() {
    assert!(goes_on(false));
    assert!(!goes_on(true));
}

#[test]
fn a_worker_runs_until_the_signal_and_a_call_under_way_completes() {
    let mut service = DefaultRestaurantService::new(SimpleMemoryStorage::new());
    let mut worker = Worker::new();
    let mut calls = 0;
    let mut turns = 0;
    let stopped = loop {
        let cancelled = turns == 100;
        turns += 1;
        let request = match worker.turn(cancelled) {
            Turn::Stop => break cancelled,
            Turn::Skip => continue,
            Turn::Ask(request) => request,
        };
        calls += 1;
        let failed = match request {
            Request::Add { table_id, items } => service.add_items(table_id, items).is_err(),
            Request::Remove { table_id, item_ids } => {
                service.remove_items(table_id, item_ids).is_err()
            }
            Request::List { table_id } => match service.list_items(table_id) {
                Ok(listing) => {
                    worker.observe_listing(&listing);
                    false
                }
                Err(_) => true,
            },
            Request::Get { table_id, item_id } => service.get_item(table_id, item_id).is_err(),
        };
        if !goes_on(failed) {
            break false;
        }
    };
    assert!(stopped);
    assert_eq!(turns, 101);
    assert!(calls <= 100);
}
