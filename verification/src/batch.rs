//! How the sender gathers records into batches, step by step.
//!
//! [`NextBatch`] says what to do next and is told what came of it: it never waits, reads a clock
//! or touches the queue itself.

use crate::json::json_of;
use serde_json::Value;
use vstd::prelude::*;

verus! {

/// Maximum records in a single export request.
pub const BATCH_SIZE: usize = 512;

/// Maximum time a record waits in the sender before being exported, in nanoseconds.
pub const BATCH_DELAY_NANOS: u64 = 1_000_000_000;

/// Where the gathering of a batch stands, by what it needs to know next.
#[derive(Debug, Clone, Copy, PartialEq, Eq, Structural)]
pub enum Stage {
    /// What time it is, to set the deadline.
    Start,
    /// Whether shutdown was asked for, before waiting for another record.
    Flag,
    /// What time it is, to see how long is left to wait.
    Clock,
    /// What the queue gives within `wait` nanoseconds.
    Queue { wait: u64 },
    /// Whether shutdown was asked for, now that gathering is over.
    Confirm,
    /// Everything that is still queued.
    Drain,
    /// Nothing: the batch is complete, and the sender stops after it if `stop` is set.
    Done { stop: bool },
}

/// What the gathering of a batch is told.
pub enum Told {
    /// The time, in nanoseconds on a clock that does not go back.
    Now(u64),
    /// Whether shutdown was asked for.
    Shutdown(bool),
    /// The queue gave a record in time.
    Received(Value),
    /// The queue gave nothing in time.
    TimedOut,
    /// The queue is empty and nobody can put records in it any more.
    Disconnected,
    /// What was still queued, in order.
    Queued(Vec<Value>),
}

/// A batch that is being gathered.
pub struct NextBatch {
    pub records: Vec<Value>,
    /// When waiting for records ends.
    pub deadline: u64,
    pub stage: Stage,
}

/// The view of a batch that is being gathered.
pub struct BatchView {
    pub records: Seq<Value>,
    pub deadline: u64,
    pub stage: Stage,
}

impl View for NextBatch {
    type V = BatchView;

    open spec fn view(&self) -> BatchView {
        BatchView { records: self.records@, deadline: self.deadline, stage: self.stage }
    }
}

/// Whether a queued value is a record; `null` is the nudge that wakes the sender at shutdown.
pub open spec fn is_record() -> spec_fn(Value) -> bool {
    |value: Value| !(json_of(value) is Null)
}

/// The records among queued values.
pub open spec fn records_in(values: Seq<Value>) -> Seq<Value> {
    values.filter(is_record())
}

impl BatchView {
    /// A batch of which nothing is known yet.
    pub open spec fn new() -> BatchView {
        BatchView { records: Seq::empty(), deadline: 0, stage: Stage::Start }
    }

    /// Whether `told` answers what the batch needs to know.
    pub open spec fn expects(self, told: Told) -> bool {
        match (self.stage, told) {
            (Stage::Start, Told::Now(now)) => now <= u64::MAX - BATCH_DELAY_NANOS,
            (Stage::Flag, Told::Shutdown(_)) => true,
            (Stage::Clock, Told::Now(_)) => true,
            (Stage::Queue { .. }, Told::Received(_)) => true,
            (Stage::Queue { .. }, Told::TimedOut) => true,
            (Stage::Queue { .. }, Told::Disconnected) => true,
            (Stage::Confirm, Told::Shutdown(_)) => true,
            (Stage::Drain, Told::Queued(_)) => true,
            _ => false,
        }
    }

    /// The batch at another stage.
    pub open spec fn at(self, stage: Stage) -> BatchView {
        BatchView { stage, ..self }
    }

    /// The batch with another value from the queue, open for more until it is full.
    pub open spec fn with_received(self, value: Value) -> BatchView {
        let records = self.records.push(value);
        BatchView {
            records,
            stage: if records.len() < BATCH_SIZE {
                Stage::Flag
            } else {
                Stage::Confirm
            },
            ..self
        }
    }

    /// The batch with `values` behind what it has, the nudges taken out.
    pub open spec fn closed_with(self, values: Seq<Value>, stop: bool) -> BatchView {
        BatchView {
            records: records_in(self.records + values),
            stage: Stage::Done { stop },
            ..self
        }
    }

    /// The batch after it was told something.
    pub open spec fn after(self, told: Told) -> BatchView {
        match (self.stage, told) {
            (Stage::Start, Told::Now(now)) => BatchView {
                deadline: (now + BATCH_DELAY_NANOS) as u64,
                stage: Stage::Flag,
                ..self
            },
            (Stage::Flag, Told::Shutdown(asked)) => if asked {
                self.at(Stage::Confirm)
            } else {
                self.at(Stage::Clock)
            },
            (Stage::Clock, Told::Now(now)) => if now < self.deadline {
                self.at(Stage::Queue { wait: (self.deadline - now) as u64 })
            } else {
                self.at(Stage::Confirm)
            },
            (Stage::Queue { .. }, Told::Received(value)) => self.with_received(value),
            (Stage::Queue { .. }, Told::TimedOut) => self.at(Stage::Confirm),
            (Stage::Queue { .. }, Told::Disconnected) => self.at(Stage::Done { stop: true }),
            (Stage::Confirm, Told::Shutdown(asked)) => if asked {
                self.at(Stage::Drain)
            } else {
                self.closed_with(Seq::empty(), false)
            },
            (Stage::Drain, Told::Queued(values)) => self.closed_with(values@, true),
            _ => self,
        }
    }

    /// Collecting stops at [`BATCH_SIZE`] values: a batch that waits for more has space left.
    pub open spec fn wf(self) -> bool {
        match self.stage {
            Stage::Start => self.records.len() == 0,
            Stage::Flag | Stage::Clock => self.records.len() < BATCH_SIZE,
            Stage::Queue { wait } => self.records.len() < BATCH_SIZE && wait > 0,
            Stage::Confirm | Stage::Drain => self.records.len() <= BATCH_SIZE,
            Stage::Done { stop } => !stop ==> self.records.len() <= BATCH_SIZE,
        }
    }
}

/// Takes the nudges out of queued values.
fn retain_records(values: &mut Vec<Value>)
    ensures
        final(values)@ == records_in(old(values)@),
{
    let ghost all = values@;
    let mut at: usize = 0;
    assert(records_in(all.take(0)) =~= Seq::empty());
    let ghost mut seen: int = 0;
    assert(all.skip(0) =~= all);
    while at < values.len()
        invariant
            0 <= seen <= all.len(),
            at <= values@.len(),
            values@.take(at as int) == records_in(all.take(seen)),
            values@.skip(at as int) == all.skip(seen),
        decreases values@.len() - at,
    {
        let ghost before = values@;
        proof {
            assert(before.skip(at as int).len() == all.skip(seen).len());
            assert(all[seen] == all.skip(seen)[0]);
            assert(before[at as int] == before.skip(at as int)[0]);
            assert(all.take(seen + 1).drop_last() =~= all.take(seen));
            assert(all.skip(seen + 1) =~= all.skip(seen).skip(1));
            reveal_with_fuel(Seq::filter, 1);
        }
        if values[at].is_null() {
            let _ = values.remove(at);
            assert(values@.take(at as int) =~= before.take(at as int));
            assert(values@.skip(at as int) =~= before.skip(at as int).skip(1));
        } else {
            at = at + 1;
            assert(values@.take(at as int) =~= before.take(at - 1).push(before[at - 1]));
            assert(values@.skip(at as int) =~= before.skip(at - 1).skip(1));
        }
        proof {
            seen = seen + 1;
        }
    }
    assert(values@.skip(at as int).len() == 0);
    assert(all.take(seen) =~= all);
    assert(values@.take(at as int) =~= values@);
}

impl NextBatch {
    /// Begins to gather a batch.
    pub fn new() -> (batch: NextBatch)
        ensures
            batch@ == BatchView::new(),
    {
        let batch = NextBatch { records: Vec::new(), deadline: 0, stage: Stage::Start };
        assert(batch@.records =~= Seq::empty());
        batch
    }

    /// Goes on with what the batch was told.
    ///
    /// It collects up to [`BATCH_SIZE`] records or until [`BATCH_DELAY_NANOS`] have passed,
    /// whichever comes first. On shutdown, it takes in everything still queued, and stops.
    pub fn tell(&mut self, told: Told)
        requires
            old(self)@.expects(told),
        ensures
            final(self)@ == old(self)@.after(told),
    {
        match told {
            Told::Now(now) => {
                if self.stage == Stage::Start {
                    self.deadline = now + BATCH_DELAY_NANOS;
                    self.stage = Stage::Flag;
                } else if now < self.deadline {
                    self.stage = Stage::Queue { wait: self.deadline - now };
                } else {
                    self.stage = Stage::Confirm;
                }
            },
            Told::Shutdown(asked) => {
                if self.stage == Stage::Flag {
                    self.stage = if asked {
                        Stage::Confirm
                    } else {
                        Stage::Clock
                    };
                } else if asked {
                    self.stage = Stage::Drain;
                } else {
                    retain_records(&mut self.records);
                    assert(old(self)@.records + Seq::empty() =~= old(self)@.records);
                    self.stage = Stage::Done { stop: false };
                }
            },
            Told::Received(value) => {
                self.records.push(value);
                self.stage = if self.records.len() < BATCH_SIZE {
                    Stage::Flag
                } else {
                    Stage::Confirm
                };
            },
            Told::TimedOut => {
                self.stage = Stage::Confirm;
            },
            Told::Disconnected => {
                self.stage = Stage::Done { stop: true };
            },
            Told::Queued(values) => {
                let mut values = values;
                self.records.append(&mut values);
                retain_records(&mut self.records);
                self.stage = Stage::Done { stop: true };
            },
        }
    }
}

/// A batch after it was told a whole history.
pub open spec fn batch_after(history: Seq<Told>) -> BatchView
    decreases history.len(),
{
    if history.len() == 0 {
        BatchView::new()
    } else {
        batch_after(history.drop_last()).after(history.last())
    }
}

/// Whether everything in a history answered what the batch needed to know at that point.
pub open spec fn is_history(history: Seq<Told>) -> bool
    decreases history.len(),
{
    history.len() > 0 ==> {
        &&& is_history(history.drop_last())
        &&& batch_after(history.drop_last()).expects(history.last())
    }
}

/// The values from the queue that came with something told.
pub open spec fn values_told(told: Told) -> Seq<Value> {
    match told {
        Told::Received(value) => seq![value],
        Told::Queued(values) => values@,
        _ => Seq::empty(),
    }
}

/// The values from the queue that came with a history, in order.
pub open spec fn values_taken(history: Seq<Told>) -> Seq<Value>
    decreases history.len(),
{
    if history.len() == 0 {
        Seq::empty()
    } else {
        values_taken(history.drop_last()) + values_told(history.last())
    }
}

/// A batch that collects has space left, and only one that ends the sender can hold more than
/// [`BATCH_SIZE`] records.
#[verifier::spinoff_prover]
#[verifier::rlimit(60)]
pub proof fn batches_stay_bounded(history: Seq<Told>)
    requires
        is_history(history),
    ensures
        batch_after(history).wf(),
    decreases history.len(),
{
    if history.len() > 0 {
        batches_stay_bounded(history.drop_last());
        let before = batch_after(history.drop_last());
        assert(before.records + Seq::empty() =~= before.records);
        before.records.lemma_filter_len(is_record());
    }
}

/// No record is lost, made up or moved: a batch that is being gathered holds what the queue gave,
/// and a complete one the same records in the same order. Nudges are taken out, unless the queue
/// broke off.
#[verifier::spinoff_prover]
#[verifier::rlimit(60)]
pub proof fn batches_keep_every_record(history: Seq<Told>)
    requires
        is_history(history),
    ensures
        batch_after(history).stage !is Done ==> batch_after(history).records == values_taken(
            history,
        ),
        records_in(batch_after(history).records) == records_in(values_taken(history)),
        batch_after(history).stage is Done ==> batch_after(history).records == if history.last()
            is Disconnected {
            values_taken(history)
        } else {
            records_in(values_taken(history))
        },
    decreases history.len(),
{
    if history.len() > 0 {
        batches_keep_every_record(history.drop_last());
        let before = batch_after(history.drop_last());
        let taken = values_taken(history.drop_last());
        assert(before.records + Seq::empty() =~= before.records);
        assert(taken + Seq::empty() =~= taken);
        if let Told::Received(value) = history.last() {
            assert(taken + seq![value] =~= taken.push(value));
        }
        lemma_records_twice(values_taken(history));
    }
}

/// Taking the nudges out a second time changes nothing.
proof fn lemma_records_twice(values: Seq<Value>)
    ensures
        records_in(records_in(values)) == records_in(values),
    decreases values.len(),
{
    reveal_with_fuel(Seq::filter, 1);
    if values.len() > 0 {
        lemma_records_twice(values.drop_last());
        let shorter = records_in(values.drop_last());
        if is_record()(values.last()) {
            assert(shorter.push(values.last()).drop_last() =~= shorter);
        }
    }
}

/// A complete batch holds no nudge, unless the queue broke off.
pub proof fn complete_batches_hold_records_only(history: Seq<Told>)
    requires
        is_history(history),
        batch_after(history).stage is Done,
        history.last() !is Disconnected,
    ensures
        forall|i: int|
            0 <= i < batch_after(history).records.len() ==> !(json_of(
                #[trigger] batch_after(history).records[i],
            ) is Null),
{
    batches_keep_every_record(history);
    let taken = values_taken(history);
    assert forall|i: int| 0 <= i < batch_after(history).records.len() implies !(json_of(
        #[trigger] batch_after(history).records[i],
    ) is Null) by {
        taken.lemma_filter_pred(is_record(), i);
        assert(is_record()(records_in(taken)[i]));
    }
}

/// The sender goes on after a batch exactly if the last thing it saw was no shutdown; it stops if
/// the queue broke off, or if shutdown was asked for and the queue was emptied.
pub proof fn batches_stop_at_shutdown(history: Seq<Told>)
    requires
        is_history(history),
        batch_after(history).stage is Done,
    ensures
        batch_after(history).stage == (Stage::Done { stop: false }) <==> history.last()
            == Told::Shutdown(false),
        batch_after(history).stage == (Stage::Done { stop: true }) <==> history.last()
            is Disconnected || (history.last() is Queued && history.len() >= 2
            && history[history.len() - 2] == Told::Shutdown(true)),
{
    let before = history.drop_last();
    if history.last() is Queued {
        assert(is_history(before));
        assert(before.len() > 0);
        assert(batch_after(before.drop_last()).expects(before.last()));
        assert(batch_after(before) == batch_after(before.drop_last()).after(before.last()));
        assert(before.last() == history[history.len() - 2]);
    }
}

/// Once shutdown was seen, the sender waits for no more records.
pub proof fn shutdown_ends_the_waiting(history: Seq<Told>, at: int)
    requires
        is_history(history),
        0 <= at < history.len(),
        history[at] == Told::Shutdown(true),
    ensures
        batch_after(history).stage is Confirm || batch_after(history).stage is Drain
            || batch_after(history).stage is Done,
    decreases history.len(),
{
    if at < history.len() - 1 {
        shutdown_ends_the_waiting(history.drop_last(), at);
    }
}

/// Every wait ends at the deadline, which is [`BATCH_DELAY_NANOS`] after the batch was begun.
pub proof fn waits_end_at_the_deadline(history: Seq<Told>)
    requires
        is_history(history),
        history.len() > 0,
    ensures
        history[0] is Now,
        batch_after(history).deadline == history[0]->Now_0 + BATCH_DELAY_NANOS,
        batch_after(history).stage matches Stage::Queue { wait } ==> history.last() is Now
            && history.last()->Now_0 + wait == batch_after(history).deadline,
    decreases history.len(),
{
    let before = history.drop_last();
    if before.len() > 0 {
        waits_end_at_the_deadline(before);
        assert(batch_after(before).stage !is Start) by {
            lemma_started(before);
        }
    } else {
        assert(before =~= Seq::empty());
    }
}

/// A batch that was told anything has begun.
proof fn lemma_started(history: Seq<Told>)
    requires
        is_history(history),
        history.len() > 0,
    ensures
        batch_after(history).stage !is Start,
    decreases history.len(),
{
    let before = history.drop_last();
    if before.len() > 0 {
        lemma_started(before);
    }
}

/// The gathering of a batch ends: after three steps for each record it can hold, and three more.
pub proof fn batches_come_to_an_end(history: Seq<Told>)
    requires
        is_history(history),
    ensures
        history.len() <= 3 * BATCH_SIZE + 3,
{
    lemma_steps(history);
    batches_stay_bounded(history);
}

/// How many steps brought a batch to where it stands.
proof fn lemma_steps(history: Seq<Told>)
    requires
        is_history(history),
    ensures
        match batch_after(history).stage {
            Stage::Start => history.len() == 0,
            Stage::Flag => history.len() == 3 * batch_after(history).records.len() + 1,
            Stage::Clock => history.len() == 3 * batch_after(history).records.len() + 2,
            Stage::Queue { .. } => history.len() == 3 * batch_after(history).records.len() + 3,
            Stage::Confirm => history.len() <= 3 * BATCH_SIZE + 1,
            Stage::Drain => history.len() <= 3 * BATCH_SIZE + 2,
            Stage::Done { .. } => history.len() <= 3 * BATCH_SIZE + 3,
        },
    decreases history.len(),
{
    if history.len() > 0 {
        lemma_steps(history.drop_last());
        batches_stay_bounded(history.drop_last());
    }
}

/// Whether nudges come after shutdown: once one was received, the flag is not seen clear again.
pub open spec fn nudges_follow_shutdown(history: Seq<Told>) -> bool {
    forall|nudge: int, later: int|
        #![trigger history[nudge], history[later]]
        0 <= nudge < later < history.len() && (history[nudge] matches Told::Received(value)
            && json_of(value) is Null) ==> history[later] != Told::Shutdown(false)
}

/// Where only records were received, only records were taken.
proof fn lemma_records_taken(history: Seq<Told>)
    requires
        is_history(history),
        batch_after(history).stage !is Done,
        forall|i: int|
            0 <= i < history.len() ==> ((#[trigger] history[i]) matches Told::Received(value)
                ==> !(json_of(value) is Null)),
    ensures
        forall|i: int|
            0 <= i < values_taken(history).len() ==> !(json_of(
                #[trigger] values_taken(history)[i],
            ) is Null),
    decreases history.len(),
{
    if history.len() > 0 {
        let before = history.drop_last();
        assert forall|i: int| 0 <= i < before.len() implies ((#[trigger] before[i]) matches
            Told::Received(value) ==> !(json_of(value) is Null)) by {
            assert(before[i] == history[i]);
        }
        lemma_records_taken(before);
        assert(history.last() == history[history.len() - 1]);
    }
}

/// No nudge ever leaves with a batch, as long as nudges come after shutdown: it is taken out, or
/// seen too late for the queue to break off while the batch waits.
pub proof fn nudges_never_leave_with_a_batch(history: Seq<Told>)
    requires
        is_history(history),
        nudges_follow_shutdown(history),
        batch_after(history).stage is Done,
    ensures
        forall|i: int|
            0 <= i < batch_after(history).records.len() ==> !(json_of(
                #[trigger] batch_after(history).records[i],
            ) is Null),
{
    if history.last() is Disconnected {
        // The flag was seen clear just before the wait in which the queue broke off.
        let waiting = history.drop_last();
        assert(is_history(waiting) && waiting.len() > 0);
        assert(batch_after(waiting.drop_last()).expects(waiting.last()));
        let timed = waiting.drop_last();
        assert(is_history(timed) && timed.len() > 0);
        assert(batch_after(timed.drop_last()).expects(timed.last()));
        let flag = history.len() - 3;
        assert(history[flag] == timed.last());
        assert(history[flag + 1] == waiting.last());
        assert forall|i: int| 0 <= i < waiting.len() implies ((#[trigger] waiting[i]) matches
            Told::Received(value) ==> !(json_of(value) is Null)) by {
            assert(waiting[i] == history[i]);
        }
        lemma_records_taken(waiting);
        batches_keep_every_record(waiting);
    } else {
        complete_batches_hold_records_only(history);
    }
}

/// The limits of a batch: 512 records, and one second.
pub proof fn limits_of_a_batch()
    ensures
        BATCH_SIZE == 512,
        BATCH_DELAY_NANOS == 1000 * 1000 * 1000,
{
}

/// A new batch has nothing in it, and asks for the time first.
pub proof fn batches_begin_empty(batch: NextBatch)
    requires
        call_ensures(NextBatch::new, (), batch),
    ensures
        batch.records@.len() == 0,
        batch.stage is Start,
        batch@ == batch_after(Seq::empty()),
{
}

/// A batch takes any answer to what it asks for: any time that leaves room for the deadline, the
/// flag up or down, any value from the queue, no value in time, a queue that broke off, and anything
/// that was queued.
pub proof fn batches_take_any_answer(
    batch: BatchView,
    now: u64,
    asked: bool,
    value: Value,
    values: Vec<Value>,
)
    ensures
        batch.stage is Start && now + 1_000_000_000 <= u64::MAX ==> batch.expects(Told::Now(now)),
        batch.stage is Clock ==> batch.expects(Told::Now(now)),
        batch.stage is Flag || batch.stage is Confirm ==> batch.expects(Told::Shutdown(asked)),
        batch.stage is Queue ==> batch.expects(Told::Received(value)) && batch.expects(
            Told::TimedOut,
        ) && batch.expects(Told::Disconnected),
        batch.stage is Drain ==> batch.expects(Told::Queued(values)),
{
}

/// What a batch is told moves it one step along its history.
pub proof fn histories_grow_step_by_step(
    history: Seq<Told>,
    batch: &mut NextBatch,
    told: Told,
)
    requires
        is_history(history),
        old(batch)@ == batch_after(history),
        batch_after(history).expects(told),
        call_ensures(NextBatch::tell, (batch, told), ()),
    ensures
        is_history(history.push(told)),
        final(batch)@ == batch_after(history.push(told)),
        final(batch)@.records == final(batch).records@,
        final(batch)@.deadline == final(batch).deadline,
        final(batch)@.stage == final(batch).stage,
        values_taken(history.push(told)) == values_taken(history) + match told {
            Told::Received(value) => seq![value],
            Told::Queued(values) => values@,
            _ => Seq::<Value>::empty(),
        },
{
    assert(history.push(told).drop_last() =~= history);
}

/// A history answers what was asked, and nothing that was not.
pub proof fn histories_answer_what_was_asked(history: Seq<Told>, told: Told)
    ensures
        is_history(Seq::empty()),
        is_history(history.push(told)) <==> is_history(history) && batch_after(history).expects(
            told,
        ),
        values_taken(Seq::empty()).len() == 0,
        batch_after(Seq::empty()).records.len() == 0,
{
    assert(history.push(told).drop_last() =~= history);
}

/// Records are the values that are not `null`, in order.
pub proof fn records_are_what_is_not_null(values: Seq<Value>, value: Value)
    ensures
        records_in(Seq::empty()).len() == 0,
        json_of(value) is Null ==> records_in(values.push(value)) == records_in(values),
        !(json_of(value) is Null) ==> records_in(values.push(value)) == records_in(values).push(
            value,
        ),
{
    reveal_with_fuel(Seq::filter, 1);
    assert(values.push(value).drop_last() =~= values);
}

/// Gathering goes on exactly as long as there is a reason to: until the batch is full, the time is
/// up, the queue gave nothing in time or broke off, or shutdown was asked for.
pub proof fn gathering_goes_on_while_it_may(history: Seq<Told>)
    requires
        is_history(history),
    ensures
        (batch_after(history).stage is Start || batch_after(history).stage is Flag || batch_after(
            history,
        ).stage is Clock || batch_after(history).stage is Queue) <==> {
            &&& values_taken(history).len() < 512
            &&& forall|i: int|
                0 <= i < history.len() ==> {
                    &&& (#[trigger] history[i]) !is TimedOut
                    &&& history[i] !is Disconnected
                    &&& history[i] != Told::Shutdown(true)
                    &&& i > 0 && history[i] is Now ==> history[i]->Now_0 < history[0]->Now_0
                        + 1_000_000_000
                }
        },
{
    lemma_goes_on(history);
    assert forall|i: int|
        0 <= i < history.len() implies lets_go_on(history, i) == ({
        &&& (#[trigger] history[i]) !is TimedOut
        &&& history[i] !is Disconnected
        &&& history[i] != Told::Shutdown(true)
        &&& i > 0 && history[i] is Now ==> history[i]->Now_0 < history[0]->Now_0 + 1_000_000_000
    }) by {}
    if forall|i: int| 0 <= i < history.len() ==> #[trigger] lets_go_on(history, i) {
        assert forall|i: int| 0 <= i < history.len() implies ({
            &&& (#[trigger] history[i]) !is TimedOut
            &&& history[i] !is Disconnected
            &&& history[i] != Told::Shutdown(true)
            &&& i > 0 && history[i] is Now ==> history[i]->Now_0 < history[0]->Now_0
                + 1_000_000_000
        }) by {
            assert(lets_go_on(history, i));
        }
    }
}

/// Whether what a batch was told at some point is no reason to end gathering.
spec fn lets_go_on(history: Seq<Told>, i: int) -> bool {
    &&& history[i] !is TimedOut
    &&& history[i] !is Disconnected
    &&& history[i] != Told::Shutdown(true)
    &&& i > 0 && history[i] is Now ==> history[i]->Now_0 < history[0]->Now_0 + 1_000_000_000
}

/// Whether a batch is still being gathered.
spec fn is_gathering(history: Seq<Told>) -> bool {
    let stage = batch_after(history).stage;
    stage is Start || stage is Flag || stage is Clock || stage is Queue
}

/// Gathering goes on for one more step unless what was told ends it.
#[verifier::spinoff_prover]
#[verifier::rlimit(60)]
proof fn lemma_goes_on_step(history: Seq<Told>)
    requires
        is_history(history),
        history.len() > 0,
    ensures
        is_gathering(history) <==> is_gathering(history.drop_last()) && values_taken(history).len()
            < 512 && lets_go_on(history, history.len() - 1),
{
    let before = history.drop_last();
    batches_stay_bounded(history);
    batches_keep_every_record(history);
    batches_keep_every_record(before);
    waits_end_at_the_deadline(history);
    if before.len() > 0 {
        lemma_started(before);
        waits_end_at_the_deadline(before);
        assert(before[0] == history[0]);
    } else {
        assert(before =~= Seq::empty());
    }
}

/// Gathering goes on as long as nothing that was told ends it.
proof fn lemma_goes_on(history: Seq<Told>)
    requires
        is_history(history),
    ensures
        is_gathering(history) <==> values_taken(history).len() < 512 && forall|i: int|
            0 <= i < history.len() ==> #[trigger] lets_go_on(history, i),
    decreases history.len(),
{
    if history.len() > 0 {
        let before = history.drop_last();
        let last = history.len() - 1;
        lemma_goes_on(before);
        lemma_goes_on_step(history);
        assert forall|i: int| 0 <= i < before.len() implies #[trigger] lets_go_on(history, i)
            == lets_go_on(before, i) by {
            assert(before[i] == history[i] && before[0] == history[0]);
        }
        if is_gathering(history) {
            assert forall|i: int| 0 <= i < history.len() implies #[trigger] lets_go_on(
                history,
                i,
            ) by {
                if i < last {
                    assert(lets_go_on(before, i));
                }
            }
        } else if !is_gathering(before) && values_taken(before).len() < 512 {
            let i = choose|i: int| 0 <= i < before.len() && !#[trigger] lets_go_on(before, i);
            assert(!lets_go_on(history, i));
        }
    }
}

/// Before every wait for the queue the flag was seen down, and then the clock was read.
pub proof fn waits_come_after_flag_and_clock(history: Seq<Told>)
    requires
        is_history(history),
        batch_after(history).stage is Queue,
    ensures
        history.len() >= 3,
        history[history.len() - 1] is Now,
        history[history.len() - 2] == Told::Shutdown(false),
{
    let timed = history.drop_last();
    assert(is_history(timed));
    assert(batch_after(timed).expects(history.last()));
    assert(batch_after(timed).stage is Clock);
    let flagged = timed.drop_last();
    assert(timed.len() > 0);
    assert(is_history(flagged) && batch_after(flagged).expects(timed.last()));
    assert(batch_after(flagged).stage is Flag);
    assert(flagged.len() > 0);
}

/// When gathering is over the flag is looked at once more. If it is down, the batch is complete and
/// the sender goes on; if it is up, what is queued is taken in, and the sender stops.
#[verifier::spinoff_prover]
#[verifier::rlimit(60)]
pub proof fn gathering_ends_by_the_flag(history: Seq<Told>, told: Told)
    requires
        is_history(history),
        batch_after(history).expects(told),
    ensures
        ({
            let after = batch_after(history.push(told));
            &&& batch_after(history).stage is Confirm && told == Told::Shutdown(false) ==> {
                &&& after.stage == (Stage::Done { stop: false })
                &&& after.records == records_in(values_taken(history))
            }
            &&& batch_after(history).stage is Confirm && told == Told::Shutdown(true)
                ==> after.stage is Drain
            &&& (batch_after(history).stage is Drain && told is Queued) ==> {
                &&& after.stage == (Stage::Done { stop: true })
                &&& after.records == records_in(values_taken(history) + told->Queued_0@)
            }
            &&& told is Disconnected ==> {
                &&& after.stage == (Stage::Done { stop: true })
                &&& after.records == values_taken(history)
            }
            &&& batch_after(history).stage !is Done
        }),
{
    let longer = history.push(told);
    assert(longer.drop_last() =~= history);
    batches_keep_every_record(history);
    batches_keep_every_record(longer);
    assert(values_taken(history) + Seq::empty() =~= values_taken(history));
}

}
