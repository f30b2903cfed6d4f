use crate::model::{ItemId, ItemInfoShort, TableId};
use crate::random::{draw_in_range, draw_one, draw_some};
use crate::service::NewItem;
use std::collections::HashSet;
use vstd::prelude::*;

verus! {

broadcast use vstd::std_specs::hash::group_hash_axioms;

/// The tables that a worker addresses are numbered from 0 up to, not
/// including, this.
pub const TABLE_COUNT: i32 = 10;

/// A worker adds or removes fewer items than this in one call.
pub const BATCH_END: usize = 10;

/// The kinds of operation that a worker performs.
#[derive(Debug, PartialEq, Eq, Clone, Copy, Structural)]
pub enum Op {
    Add,
    Remove,
    List,
    Get,
}

impl Op {
    /// The operation for a roll: 0 adds, 1 removes, 2 lists, anything else gets.
    pub fn from_roll(roll: i64) -> (op: Op)
        ensures
            op == Op::spec_from_roll(roll as int),
    {
        if roll == 0 {
            Op::Add
        } else if roll == 1 {
            Op::Remove
        } else if roll == 2 {
            Op::List
        } else {
            Op::Get
        }
    }

    /// The operation for a roll.
    pub open spec fn spec_from_roll(roll: int) -> Op {
        if roll == 0 {
            Op::Add
        } else if roll == 1 {
            Op::Remove
        } else if roll == 2 {
            Op::List
        } else {
            Op::Get
        }
    }

    /// An operation drawn at random, each kind as likely as the others: the
    /// operation for a roll from 0 up to, not including, 4.
    pub fn draw() -> (op: Op)
        ensures
            exists|roll: int| 0 <= roll < 4 && op == #[trigger] Op::spec_from_roll(roll),
    {
        Op::from_roll(draw_in_range(0, 4))
    }
}

/// What a worker asks of the service in one turn.
#[derive(Debug)]
pub enum Request {
    Add { table_id: TableId, items: Vec<NewItem> },
    Remove { table_id: TableId, item_ids: Vec<ItemId> },
    List { table_id: TableId },
    Get { table_id: TableId, item_id: ItemId },
}

impl Request {
    /// The table that the request addresses.
    pub open spec fn spec_table_id(self) -> TableId {
        match self {
            Request::Add { table_id, .. } => table_id,
            Request::Remove { table_id, .. } => table_id,
            Request::List { table_id } => table_id,
            Request::Get { table_id, .. } => table_id,
        }
    }

    /// The table that the request addresses.
    pub fn table_id(&self) -> (table_id: TableId)
        ensures
            table_id == self.spec_table_id(),
    {
        match self {
            Request::Add { table_id, .. } => *table_id,
            Request::Remove { table_id, .. } => *table_id,
            Request::List { table_id } => *table_id,
            Request::Get { table_id, .. } => *table_id,
        }
    }
}

/// What a worker does with one turn of its loop.
#[derive(Debug)]
pub enum Turn {
    /// It was told to stop: it asks nothing more and ends.
    Stop,
    /// It has nothing to ask this time and goes on to its next turn.
    Skip,
    /// It makes this request of the service.
    Ask(Request),
}

impl Turn {
    /// The request of the turn, if it makes one.
    pub open spec fn request(self) -> Option<Request> {
        match self {
            Turn::Ask(request) => Some(request),
            _ => None,
        }
    }
}

/// A table drawn at random from those that workers address.
pub fn draw_table_id() -> (table_id: TableId)
    ensures
        0 <= table_id.0 < TABLE_COUNT,
{
    let roll = draw_in_range(0, 10);
    TableId(roll as i32)
}

/// The size of a batch, drawn at random.
pub fn draw_batch_size() -> (count: usize)
    ensures
        count < BATCH_END,
{
    let roll = draw_in_range(0, 10);
    roll as usize
}

/// The item that a worker adds: a placeholder.
pub fn placeholder_item() -> (item: NewItem)
    ensures
        item.name@ == "new item"@,
        item.comment@ == ""@,
{
    NewItem { name: "new item".to_owned(), comment: "".to_owned() }
}

/// `count` placeholder items.
pub fn placeholder_items(count: usize) -> (items: Vec<NewItem>)
    ensures
        items@.len() == count,
        forall|i: int|
            0 <= i < count ==> (#[trigger] items@[i]).name@ == "new item"@ && items@[i].comment@
                == ""@,
{
    let mut items: Vec<NewItem> = Vec::new();
    let mut i: usize = 0;
    while i < count
        invariant
            i <= count,
            items@.len() == i,
            forall|j: int|
                0 <= j < i ==> (#[trigger] items@[j]).name@ == "new item"@ && items@[j].comment@
                    == ""@,
        decreases count - i,
    {
        items.push(placeholder_item());
        i = i + 1;
    }
    items
}

/// The identifiers with the numbers `raw`, in their order.
pub fn item_ids_of(raw: &Vec<i32>) -> (item_ids: Vec<ItemId>)
    ensures
        item_ids@ == raw@.map_values(|n: i32| ItemId(n)),
{
    let mut item_ids: Vec<ItemId> = Vec::new();
    let mut i: usize = 0;
    while i < raw.len()
        invariant
            i <= raw.len(),
            item_ids@ == raw@.take(i as int).map_values(|n: i32| ItemId(n)),
        decreases raw.len() - i,
    {
        item_ids.push(ItemId(raw[i]));
        i = i + 1;
        assert(item_ids@ =~= raw@.take(i as int).map_values(|n: i32| ItemId(n))) by {
            assert(raw@.take(i as int).drop_last() =~= raw@.take(i - 1));
        }
    }
    assert(raw@.take(raw.len() as int) =~= raw@);
    item_ids
}

/// The first `i + 1` of `numbers`, as a set, are the first `i` with
/// `numbers[i]` put in.
pub proof fn lemma_one_more(numbers: Seq<i32>, i: int)
    requires
        0 <= i < numbers.len(),
    ensures
        numbers.take(i + 1).to_set() == numbers.take(i).to_set().insert(numbers[i]),
{
    let seen = numbers.take(i);
    let more = numbers.take(i + 1);
    assert(more =~= seen.push(numbers[i]));
    assert forall|n: i32| more.to_set().contains(n) <==> seen.to_set().insert(
        numbers[i],
    ).contains(n) by {
        if more.contains(n) {
            let j = choose|j: int| 0 <= j < more.len() && more[j] == n;
            if j < seen.len() {
                assert(seen[j] == n);
            }
        }
        if seen.contains(n) {
            let j = choose|j: int| 0 <= j < seen.len() && seen[j] == n;
            assert(more[j] == n);
        }
        if n == numbers[i] {
            assert(more[i] == n);
        }
    }
    assert(more.to_set() =~= seen.to_set().insert(numbers[i]));
}

/// `request` is a turn of kind `op` for a worker that knew the items numbered
/// `before` and knows those numbered `after`.
///
/// Whatever the kind, the table lies among those that workers address. An
/// addition holds fewer than ten placeholder items. A removal names fewer
/// than ten of the items that the worker knew, each once, and the worker has
/// forgotten exactly those. A get names one item that the worker knows, and
/// the turn is passed over only where it knows none. But for a removal the
/// worker knows what it knew.
pub open spec fn is_turn(op: Op, before: Set<i32>, after: Set<i32>, request: Option<Request>)
    -> bool {
    &&& request matches Some(asked) ==> 0 <= asked.spec_table_id().0 < TABLE_COUNT
    &&& match op {
        Op::Add => {
            &&& after == before
            &&& request matches Some(Request::Add { items, .. })
            &&& items@.len() < BATCH_END
            &&& forall|i: int|
                0 <= i < items@.len() ==> (#[trigger] items@[i]).name@ == "new item"@
                    && items@[i].comment@ == ""@
        },
        Op::Remove => {
            &&& request matches Some(Request::Remove { item_ids, .. })
            &&& item_ids@.len() < BATCH_END
            &&& item_ids@.len() <= before.len()
            &&& item_ids@.no_duplicates()
            &&& forall|i: int|
                0 <= i < item_ids@.len() ==> before.contains((#[trigger] item_ids@[i]).0)
            &&& forall|n: i32|
                after.contains(n) <==> before.contains(n) && !item_ids@.contains(ItemId(n))
        },
        Op::List => {
            &&& after == before
            &&& request matches Some(Request::List { .. })
        },
        Op::Get => {
            &&& after == before
            &&& match request {
                Some(Request::Get { item_id, .. }) => before.contains(item_id.0),
                Some(_) => false,
                None => before.len() == 0,
            }
        },
    }
}

/// One worker of the load harness. It remembers the identifiers of the
/// items that it has seen listed and not asked to remove since.
pub struct Worker {
    known_item_ids: HashSet<i32>,
}

impl Worker {
    /// The numbers of the identifiers that the worker knows.
    pub closed spec fn known(&self) -> Set<i32> {
        self.known_item_ids@
    }

    /// A worker that knows no item yet.
    pub fn new() -> (worker: Worker)
        ensures
            worker.known() == Set::<i32>::empty(),
    {
        Worker { known_item_ids: HashSet::new() }
    }

    /// How many identifiers the worker knows.
    pub fn known_count(&self) -> (count: usize)
        ensures
            count == self.known().len(),
    {
        self.known_item_ids.len()
    }

    /// Whether the worker knows `item_id`.
    pub fn knows(&self, item_id: ItemId) -> (yes: bool)
        ensures
            yes == self.known().contains(item_id.0),
    {
        self.known_item_ids.contains(&item_id.0)
    }

    /// The request to add `count` placeholder items to table `table_id`.
    pub fn add_request(table_id: TableId, count: usize) -> (request: Request)
        ensures
            request matches Request::Add { table_id: to, items } && to == table_id && items@.len()
                == count && forall|i: int|
                0 <= i < count ==> (#[trigger] items@[i]).name@ == "new item"@ && items@[i].comment@
                    == ""@,
    {
        Request::Add { table_id, items: placeholder_items(count) }
    }

    /// The request to remove the items numbered `picked` from table
    /// `table_id`. The worker forgets them at once, whichever table they
    /// belong to.
    pub fn remove_request(&mut self, table_id: TableId, picked: Vec<i32>) -> (request: Request)
        ensures
            request matches Request::Remove { table_id: from, item_ids } && from == table_id
                && item_ids@ == picked@.map_values(|n: i32| ItemId(n)),
            final(self).known() == old(self).known().difference(picked@.to_set()),
    {
        let mut i: usize = 0;
        while i < picked.len()
            invariant
                i <= picked.len(),
                self.known() == old(self).known().difference(picked@.take(i as int).to_set()),
            decreases picked.len() - i,
        {
            self.known_item_ids.remove(&picked[i]);
            proof {
                lemma_one_more(picked@, i as int);
                assert(self.known() =~= old(self).known().difference(
                    picked@.take(i + 1).to_set(),
                ));
            }
            i = i + 1;
        }
        assert(picked@.take(picked.len() as int) =~= picked@);
        Request::Remove { table_id, item_ids: item_ids_of(&picked) }
    }

    /// Takes note of the items of a listing: the worker knows them from now on.
    pub fn observe_listing(&mut self, listing: &Vec<ItemInfoShort>)
        ensures
            final(self).known() == old(self).known().union(
                listing@.map_values(|entry: ItemInfoShort| entry.item_id.0).to_set(),
            ),
    {
        let ghost numbers = listing@.map_values(|entry: ItemInfoShort| entry.item_id.0);
        let mut i: usize = 0;
        while i < listing.len()
            invariant
                i <= listing.len(),
                numbers == listing@.map_values(|entry: ItemInfoShort| entry.item_id.0),
                self.known() == old(self).known().union(numbers.take(i as int).to_set()),
            decreases listing.len() - i,
        {
            self.known_item_ids.insert(listing[i].item_id.0);
            proof {
                lemma_one_more(numbers, i as int);
                assert(self.known() =~= old(self).known().union(numbers.take(i + 1).to_set()));
            }
            i = i + 1;
        }
        assert(numbers.take(listing.len() as int) =~= numbers);
    }

    /// The request to get the item numbered `picked` of table `table_id`;
    /// none where nothing was picked.
    pub fn get_request(table_id: TableId, picked: Option<i32>) -> (request: Option<Request>)
        ensures
            match picked {
                Some(n) => request matches Some(Request::Get { table_id: of, item_id }) && of
                    == table_id && item_id == ItemId(n),
                None => request is None,
            },
    {
        match picked {
            Some(n) => Some(Request::Get { table_id, item_id: ItemId(n) }),
            None => None,
        }
    }

    /// What the worker does in a turn of kind `op`: the request to make of
    /// the service, or `None` where the turn is passed over.
    pub fn request_for(&mut self, op: Op) -> (request: Option<Request>)
        ensures
            is_turn(op, old(self).known(), final(self).known(), request),
    {
        match op {
            Op::Add => {
                let table_id = draw_table_id();
                let count = draw_batch_size();
                Some(Worker::add_request(table_id, count))
            },
            Op::Remove => {
                let table_id = draw_table_id();
                let count = draw_batch_size();
                let picked = draw_some(&self.known_item_ids, count);
                let request = self.remove_request(table_id, picked);
                proof {
                    let item_ids = request->Remove_item_ids@;
                    assert forall|i: int, j: int|
                        0 <= i < item_ids.len() && 0 <= j < item_ids.len() && i != j implies item_ids[i]
                        != item_ids[j] by {
                        assert(picked@[i] != picked@[j]);
                    }
                    assert forall|n: i32|
                        final(self).known().contains(n) <==> old(self).known().contains(n)
                            && !item_ids.contains(ItemId(n)) by {
                        if picked@.contains(n) {
                            let i = choose|i: int| 0 <= i < picked@.len() && picked@[i] == n;
                            assert(item_ids[i] == ItemId(n));
                        }
                        if item_ids.contains(ItemId(n)) {
                            let i = choose|i: int|
                                0 <= i < item_ids.len() && item_ids[i] == ItemId(n);
                            assert(picked@[i] == n);
                        }
                    }
                }
                Some(request)
            },
            Op::List => {
                let table_id = draw_table_id();
                Some(Request::List { table_id })
            },
            Op::Get => {
                let table_id = draw_table_id();
                let picked = draw_one(&self.known_item_ids);
                Worker::get_request(table_id, picked)
            },
        }
    }

    /// What the worker does next: a turn of a kind drawn at random.
    pub fn next_request(&mut self) -> (request: Option<Request>)
        ensures
            exists|op: Op| is_turn(op, old(self).known(), final(self).known(), request),
    {
        let op = Op::draw();
        self.request_for(op)
    }

    /// One turn of the worker's loop. `cancelled` is the signal to stop as it
    /// stands at the top of the turn, the only place where the worker looks
    /// at it: once set it ends the worker before anything else is drawn or
    /// asked, and what the worker knows stays as it is. Otherwise the worker
    /// takes a turn of a kind drawn at random.
    pub fn turn(&mut self, cancelled: bool) -> (turn: Turn)
        ensures
            cancelled ==> turn is Stop && final(self).known() == old(self).known(),
            !cancelled ==> !(turn is Stop) && exists|op: Op|
                is_turn(op, old(self).known(), final(self).known(), turn.request()),
    {
        if cancelled {
            return Turn::Stop;
        }
        match self.next_request() {
            Some(request) => Turn::Ask(request),
            None => Turn::Skip,
        }
    }
}

/// Whether a worker goes on to its next turn after a call of the service:
/// it does unless the call failed. The first failure ends the worker.
pub fn goes_on(failed: bool) -> (yes: bool)
    ensures
        yes == !failed,
{
    !failed
}

/// Why the harness began to shut its workers down.
#[derive(Debug, PartialEq, Eq, Clone, Copy, Structural)]
pub enum Shutdown {
    /// It was interrupted from outside.
    Interrupted,
    /// A worker stopped though nobody had asked it to.
    WorkerStopped,
}

/// How a worker ended.
#[derive(Debug, PartialEq, Eq, Clone, Copy, Structural)]
pub enum WorkerExit {
    /// It saw the signal to stop and returned.
    Finished,
    /// An operation of the service failed.
    Failed,
    /// It ended abnormally, without a result.
    Aborted,
}

/// How a run of the harness ended.
#[derive(Debug, PartialEq, Eq, Clone, Copy, Structural)]
pub enum Verdict {
    /// Interrupted, and every worker finished.
    Clean,
    /// Every worker finished, but one had stopped unasked.
    StoppedEarly,
    /// The worker whose exit stands at `index` failed or ended abnormally,
    /// and none before it did.
    WorkerFailed { index: usize },
}

/// Whether `at` is the place of the first exit in `exits` that is not a
/// finish.
pub open spec fn is_first_failure(exits: Seq<WorkerExit>, at: int) -> bool {
    &&& 0 <= at < exits.len()
    &&& exits[at] != WorkerExit::Finished
    &&& forall|i: int| 0 <= i < at ==> exits[i] == WorkerExit::Finished
}

/// The verdict on a run that shut down for `cause` and whose workers ended
/// as `exits` tells, in the order in which they were joined.
///
/// The run fails where a worker failed or ended abnormally, and the first
/// such worker is reported. Where all finished, the run is clean only if it
/// was interrupted: a worker that stops unasked is a failure of its own.
pub fn verdict(cause: Shutdown, exits: &Vec<WorkerExit>) -> (verdict: Verdict)
    ensures
        match verdict {
            Verdict::WorkerFailed { index } => is_first_failure(exits@, index as int),
            Verdict::StoppedEarly => cause == Shutdown::WorkerStopped && forall|i: int|
                0 <= i < exits@.len() ==> exits@[i] == WorkerExit::Finished,
            Verdict::Clean => cause == Shutdown::Interrupted && forall|i: int|
                0 <= i < exits@.len() ==> exits@[i] == WorkerExit::Finished,
        },
{
    let mut i: usize = 0;
    while i < exits.len()
        invariant
            i <= exits.len(),
            forall|j: int| 0 <= j < i ==> exits@[j] == WorkerExit::Finished,
        decreases exits.len() - i,
    {
        if exits[i] != WorkerExit::Finished {
            return Verdict::WorkerFailed { index: i };
        }
        i = i + 1;
    }
    match cause {
        Shutdown::Interrupted => Verdict::Clean,
        Shutdown::WorkerStopped => Verdict::StoppedEarly,
    }
}

} // verus!
