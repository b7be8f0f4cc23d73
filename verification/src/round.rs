//! The turns of the sender: gather a batch, export it in chunks, and start over or stop.

use crate::batch::{
    batch_after, batches_keep_every_record, batches_stay_bounded, batches_stop_at_shutdown,
    is_history, is_record, nudges_follow_shutdown, nudges_never_leave_with_a_batch, records_in, values_taken, BatchView,
    NextBatch, Stage, Told, BATCH_SIZE,
};
use serde_json::Value;
use vstd::prelude::*;

verus! {

/// What the sender does next.
#[derive(Debug, Clone, Copy, PartialEq, Eq, Structural)]
pub enum Turn {
    /// Gather the next batch.
    Gather,
    /// Export the next chunk.
    Export,
    /// Say that it is done, and stop.
    Finish,
}

/// Where the sender stands between two batches.
pub struct Round {
    /// The chunks that are still to be exported, in order.
    pub pending: Vec<Vec<Value>>,
    /// Whether the sender stops once they are.
    pub stop: bool,
}

/// The view of where the sender stands.
#[verifier::ext_equal]
pub struct RoundView {
    pub pending: Seq<Seq<Value>>,
    pub stop: bool,
}

impl View for Round {
    type V = RoundView;

    open spec fn view(&self) -> RoundView {
        RoundView { pending: contents(self.pending@), stop: self.stop }
    }
}

/// `values` cut into chunks of [`BATCH_SIZE`], the last one with what is left.
pub open spec fn chunks_of(values: Seq<Value>) -> Seq<Seq<Value>>
    decreases values.len(),
{
    if values.len() == 0 {
        Seq::empty()
    } else if values.len() <= BATCH_SIZE {
        seq![values]
    } else {
        seq![values.take(BATCH_SIZE as int)] + chunks_of(values.skip(BATCH_SIZE as int))
    }
}

/// The values in each of several vectors.
pub open spec fn contents(vectors: Seq<Vec<Value>>) -> Seq<Seq<Value>> {
    vectors.map_values(|values: Vec<Value>| values@)
}

/// Cuts values into chunks of [`BATCH_SIZE`].
pub fn chunks(values: Vec<Value>) -> (chunks: Vec<Vec<Value>>)
    ensures
        contents(chunks@) == chunks_of(values@),
{
    let ghost all = values@;
    let mut rest = values;
    let mut chunks: Vec<Vec<Value>> = Vec::new();
    assert(contents(chunks@) + chunks_of(rest@) =~= chunks_of(all));
    while rest.len() > BATCH_SIZE
        invariant
            contents(chunks@) + chunks_of(rest@) == chunks_of(all),
        decreases rest@.len(),
    {
        let ghost before = chunks@;
        let ghost uncut = rest@;
        let tail = rest.split_off(BATCH_SIZE);
        assert(rest@ =~= uncut.take(BATCH_SIZE as int));
        assert(tail@ =~= uncut.skip(BATCH_SIZE as int));
        chunks.push(rest);
        rest = tail;
        assert(contents(chunks@) =~= contents(before).push(uncut.take(BATCH_SIZE as int)));
        assert(contents(chunks@) + chunks_of(rest@) =~= contents(before) + chunks_of(uncut));
    }
    let ghost before = chunks@;
    let ghost left = rest@;
    if rest.len() > 0 {
        chunks.push(rest);
        assert(contents(chunks@) =~= contents(before).push(left));
    }
    assert(contents(chunks@) =~= contents(before) + chunks_of(left));
    chunks
}

impl RoundView {
    /// The sender before its first batch.
    pub open spec fn new() -> RoundView {
        RoundView { pending: Seq::empty(), stop: false }
    }

    /// What comes next: first the chunks at hand, and then, unless it was the last batch, the
    /// next one.
    pub open spec fn next_turn(self) -> Turn {
        if self.pending.len() > 0 {
            Turn::Export
        } else if self.stop {
            Turn::Finish
        } else {
            Turn::Gather
        }
    }

    /// The sender after it took over a complete batch.
    pub open spec fn after_batch(self, batch: BatchView) -> RoundView {
        RoundView {
            pending: chunks_of(batch.records),
            stop: batch.stage == (Stage::Done { stop: true }),
        }
    }

    /// The sender after it exported a chunk.
    pub open spec fn after_chunk(self) -> RoundView {
        RoundView { pending: self.pending.skip(1), stop: self.stop }
    }
}

impl Round {
    /// The sender before its first batch.
    pub fn new() -> (round: Round)
        ensures
            round@ == RoundView::new(),
    {
        let round = Round { pending: Vec::new(), stop: false };
        assert(round@ =~= RoundView::new());
        round
    }

    /// What comes next.
    pub fn turn(&self) -> (turn: Turn)
        ensures
            turn == self@.next_turn(),
    {
        if self.pending.len() > 0 {
            Turn::Export
        } else if self.stop {
            Turn::Finish
        } else {
            Turn::Gather
        }
    }

    /// Takes over a complete batch.
    pub fn gathered(&mut self, batch: NextBatch)
        requires
            old(self)@.next_turn() is Gather,
            batch.stage is Done,
        ensures
            final(self)@ == old(self)@.after_batch(batch@),
    {
        self.pending = chunks(batch.records);
        self.stop = batch.stage == Stage::Done { stop: true };
    }

    /// Hands out the chunk to export now.
    pub fn next_chunk(&mut self) -> (chunk: Vec<Value>)
        requires
            old(self)@.next_turn() is Export,
        ensures
            chunk@ == old(self)@.pending[0],
            final(self)@ == old(self)@.after_chunk(),
    {
        let chunk = self.pending.remove(0);
        assert(self@ =~= old(self)@.after_chunk());
        chunk
    }
}

/// The chunks of a batch are the batch: every record is in one of them, once and in its place.
/// None is empty, and none is larger than a request may be.
pub proof fn chunks_cover_the_batch(values: Seq<Value>)
    ensures
        chunks_of(values).flatten() == values,
        forall|i: int|
            0 <= i < chunks_of(values).len() ==> 0 < (#[trigger] chunks_of(values)[i]).len()
                <= BATCH_SIZE,
    decreases values.len(),
{
    let size = BATCH_SIZE as int;
    if values.len() == 0 {
    } else if values.len() <= BATCH_SIZE {
        chunks_of(values).lemma_flatten_one_element();
    } else {
        let rest = chunks_of(values.skip(size));
        chunks_cover_the_batch(values.skip(size));
        let all = chunks_of(values);
        assert(all.drop_first() =~= rest);
        assert(all.flatten() =~= all.first() + rest.flatten());
        assert(values.take(size) + values.skip(size) =~= values);
        assert forall|i: int| 0 <= i < all.len() implies 0 < (#[trigger] all[i]).len()
            <= BATCH_SIZE by {
            if i > 0 {
                assert(all[i] == rest[i - 1]);
            }
        }
    }
}

/// A batch after which the sender goes on fits in one request.
pub proof fn ordinary_batches_are_one_request(history: Seq<Told>)
    requires
        is_history(history),
        batch_after(history).stage == (Stage::Done { stop: false }),
    ensures
        chunks_of(batch_after(history).records).len() <= 1,
{
    batches_stay_bounded(history);
}

/// What the sender exports of a complete batch is what it took from the queue, record by record,
/// up to and with everything that was still queued at shutdown. If the queue broke off, nudges must
/// have come after shutdown for that.
pub proof fn exports_are_what_was_queued(history: Seq<Told>)
    requires
        is_history(history),
        batch_after(history).stage is Done,
        history.last() is Disconnected ==> nudges_follow_shutdown(history),
    ensures
        chunks_of(batch_after(history).records).flatten() == records_in(values_taken(history)),
{
    batches_keep_every_record(history);
    chunks_cover_the_batch(batch_after(history).records);
    if history.last() is Disconnected {
        nudges_never_leave_with_a_batch(history);
        lemma_all_records(batch_after(history).records);
    }
}

/// Where there are no nudges, taking them out changes nothing.
proof fn lemma_all_records(values: Seq<Value>)
    requires
        forall|i: int| 0 <= i < values.len() ==> is_record()(#[trigger] values[i]),
    ensures
        records_in(values) == values,
    decreases values.len(),
{
    reveal_with_fuel(Seq::filter, 1);
    if values.len() > 0 {
        lemma_all_records(values.drop_last());
        assert(is_record()(values[values.len() - 1]));
        assert(values.drop_last().push(values.last()) =~= values);
    }
}

/// A step of the sender.
pub enum Step {
    /// It gathered a batch, which was told this history.
    Gathered(Seq<Told>),
    /// It exported a chunk.
    Exported,
}

/// Where the sender stands after some steps.
pub open spec fn round_after(steps: Seq<Step>) -> RoundView
    decreases steps.len(),
{
    if steps.len() == 0 {
        RoundView::new()
    } else {
        let before = round_after(steps.drop_last());
        match steps.last() {
            Step::Gathered(history) => before.after_batch(batch_after(history)),
            Step::Exported => before.after_chunk(),
        }
    }
}

/// Whether each step was the one to take at that point, and each batch was complete. Nudges came
/// after shutdown, as far as that matters: in a batch that ended because the queue broke off.
pub open spec fn is_run(steps: Seq<Step>) -> bool
    decreases steps.len(),
{
    steps.len() > 0 ==> {
        let before = round_after(steps.drop_last());
        &&& is_run(steps.drop_last())
        &&& match steps.last() {
            Step::Gathered(history) => {
                &&& before.next_turn() is Gather
                &&& is_history(history)
                &&& batch_after(history).stage is Done
                &&& history.last() is Disconnected ==> nudges_follow_shutdown(history)
            },
            Step::Exported => before.next_turn() is Export,
        }
    }
}

/// The chunks that were exported in some steps, one for each request, in order.
pub open spec fn chunks_exported(steps: Seq<Step>) -> Seq<Seq<Value>>
    decreases steps.len(),
{
    if steps.len() == 0 {
        Seq::empty()
    } else {
        let earlier = chunks_exported(steps.drop_last());
        match steps.last() {
            Step::Gathered(_) => earlier,
            Step::Exported => earlier.push(round_after(steps.drop_last()).pending[0]),
        }
    }
}

/// The values that were taken from the queue in some steps, in order.
pub open spec fn all_taken(steps: Seq<Step>) -> Seq<Value>
    decreases steps.len(),
{
    if steps.len() == 0 {
        Seq::empty()
    } else {
        let earlier = all_taken(steps.drop_last());
        match steps.last() {
            Step::Gathered(history) => earlier + values_taken(history),
            Step::Exported => earlier,
        }
    }
}

/// Over a whole run, however many batches it has and however it ends, every record that is taken
/// from the queue is exported once and in its place, and nothing else is: at any point the records
/// taken so far are those exported, followed by those in the chunks at hand. No request is empty,
/// and none is larger than it may be.
pub proof fn runs_export_what_was_queued(steps: Seq<Step>)
    requires
        is_run(steps),
    ensures
        chunks_exported(steps).flatten() + round_after(steps).pending.flatten() == records_in(
            all_taken(steps),
        ),
        round_after(steps).next_turn() !is Export ==> chunks_exported(steps).flatten()
            == records_in(all_taken(steps)),
        forall|i: int|
            0 <= i < chunks_exported(steps).len() ==> 0 < (#[trigger] chunks_exported(
                steps,
            )[i]).len() <= BATCH_SIZE,
{
    lemma_run(steps);
    let exported = chunks_exported(steps).flatten();
    assert(exported + Seq::<Value>::empty() =~= exported);
}

/// What [`runs_export_what_was_queued`] says, with the size of the chunks at hand.
proof fn lemma_run(steps: Seq<Step>)
    requires
        is_run(steps),
    ensures
        chunks_exported(steps).flatten() + round_after(steps).pending.flatten() == records_in(
            all_taken(steps),
        ),
        forall|i: int|
            0 <= i < chunks_exported(steps).len() ==> 0 < (#[trigger] chunks_exported(
                steps,
            )[i]).len() <= BATCH_SIZE,
        forall|i: int|
            0 <= i < round_after(steps).pending.len() ==> 0 < (#[trigger] round_after(
                steps,
            ).pending[i]).len() <= BATCH_SIZE,
    decreases steps.len(),
{
    reveal_with_fuel(Seq::filter, 1);
    if steps.len() > 0 {
        let earlier = steps.drop_last();
        lemma_run(earlier);
        let before = round_after(earlier);
        let exported = chunks_exported(earlier).flatten();
        match steps.last() {
            Step::Gathered(history) => {
                exports_are_what_was_queued(history);
                chunks_cover_the_batch(batch_after(history).records);
                assert(exported + Seq::<Value>::empty() =~= exported);
                Seq::filter_distributes_over_add(
                    all_taken(earlier),
                    values_taken(history),
                    is_record(),
                );
            },
            Step::Exported => {
                let chunk = before.pending[0];
                chunks_exported(earlier).lemma_flatten_push(chunk);
                assert(before.pending.drop_first() =~= before.pending.skip(1));
                assert(before.pending.flatten() == chunk + before.pending.skip(1).flatten());
                assert(exported + (chunk + before.pending.skip(1).flatten()) =~= (exported + chunk)
                    + before.pending.skip(1).flatten());
            },
        }
    }
}

/// What a view shows is what is there: each chunk that is pending, in order, and whether the sender
/// stops.
pub proof fn views_show_rounds(round: Round)
    ensures
        round@.stop == round.stop,
        round@.pending.len() == round.pending@.len(),
        forall|i: int|
            0 <= i < round.pending@.len() ==> #[trigger] round@.pending[i] == round.pending@[i]@,
{
}

/// A new round has nothing to export and does not stop.
pub proof fn rounds_begin_with_a_batch(round: Round, turn: Turn)
    requires
        call_ensures(Round::new, (), round),
        call_ensures(Round::turn, (&round,), turn),
    ensures
        round.pending@.len() == 0,
        !round.stop,
        turn is Gather,
{
    views_show_rounds(round);
}

/// A turn exports as long as there is a chunk; without one it finishes if the sender stops, and
/// gathers if it does not.
pub proof fn turns_export_first(round: &Round, turn: Turn)
    requires
        call_ensures(Round::turn, (round,), turn),
    ensures
        turn is Export <==> round.pending@.len() > 0,
        turn is Finish <==> round.pending@.len() == 0 && round.stop,
        turn is Gather <==> round.pending@.len() == 0 && !round.stop,
{
}

/// After a batch that ended the sender it finishes once all chunks were exported, which is at once
/// if there are none; after any other batch it gathers the next one. What is exported is the batch.
pub proof fn rounds_go_on_as_the_batch_ended(
    round: &mut Round,
    batch: NextBatch,
    after: Round,
    turn: Turn,
)
    requires
        batch.stage is Done,
        call_ensures(Round::gathered, (round, batch), ()),
        after == *final(round),
        call_ensures(Round::turn, (&after,), turn),
    ensures
        after.stop <==> batch.stage == (Stage::Done { stop: true }),
        after.pending@.len() == 0 <==> batch.records@.len() == 0,
        after@.pending.flatten() == batch.records@,
        batch.records@.len() > 0 ==> turn is Export,
        batch.records@.len() == 0 && batch.stage == (Stage::Done { stop: true }) ==> turn is Finish,
        batch.records@.len() == 0 && batch.stage == (Stage::Done { stop: false })
            ==> turn is Gather,
{
    views_show_rounds(after);
    chunks_cover_the_batch(batch.records@);
}

/// The chunk that is exported is the first one that was pending. The others stay, in order, and so
/// does how the round ends.
pub proof fn chunks_leave_in_order(round: &mut Round, chunk: Vec<Value>)
    requires
        old(round).pending@.len() > 0,
        call_ensures(Round::next_chunk, (round,), chunk),
    ensures
        chunk@ == old(round).pending@[0]@,
        final(round).stop == old(round).stop,
        final(round).pending@.len() == old(round).pending@.len() - 1,
        forall|i: int|
            0 <= i < final(round).pending@.len() ==> (#[trigger] final(round).pending@[i])@ == old(
                round,
            ).pending@[i + 1]@,
{
    views_show_rounds(*old(round));
    views_show_rounds(*final(round));
    assert forall|i: int| 0 <= i < final(round).pending@.len() implies (
    #[trigger] final(round).pending@[i])@ == old(round).pending@[i + 1]@ by {
        assert(final(round)@.pending[i] == old(round)@.pending[i + 1]);
    }
}

/// Values are cut into chunks of 512, of which only the last can be shorter, and none is empty.
/// Together they are the values.
pub proof fn chunks_are_full_but_the_last(values: Vec<Value>, cut: Vec<Vec<Value>>)
    requires
        call_ensures(chunks, (values,), cut),
    ensures
        contents(cut@).flatten() == values@,
        cut@.len() == (values@.len() + 511) / 512,
        forall|i: int| 0 <= i < cut@.len() - 1 ==> (#[trigger] cut@[i])@.len() == 512,
        cut@.len() > 0 ==> 0 < cut@.last()@.len() <= 512,
{
    chunks_cover_the_batch(values@);
    lemma_chunk_sizes(values@);
    let all = contents(cut@);
    assert(all.len() == cut@.len());
    assert forall|i: int| 0 <= i < cut@.len() - 1 implies (#[trigger] cut@[i])@.len() == 512 by {
        assert(all[i] == cut@[i]@);
    }
    if cut@.len() > 0 {
        assert(all[cut@.len() - 1] == cut@[cut@.len() - 1]@);
    }
}

/// How many chunks there are, and how long they are.
proof fn lemma_chunk_sizes(values: Seq<Value>)
    ensures
        chunks_of(values).len() == (values.len() + 511) / 512,
        forall|i: int|
            0 <= i < chunks_of(values).len() - 1 ==> (#[trigger] chunks_of(values)[i]).len() == 512,
    decreases values.len(),
{
    if values.len() > BATCH_SIZE {
        let rest = chunks_of(values.skip(512));
        lemma_chunk_sizes(values.skip(512));
        assert forall|i: int| 0 <= i < chunks_of(values).len() - 1 implies (#[trigger] chunks_of(
            values,
        )[i]).len() == 512 by {
            if i > 0 {
                assert(chunks_of(values)[i] == rest[i - 1]);
            }
        }
    }
}

/// What a run is: it starts with nothing, gathers a complete batch when nothing is pending and the
/// sender does not stop, and exports when something is.
pub proof fn runs_grow_step_by_step(steps: Seq<Step>, history: Seq<Told>)
    ensures
        is_run(Seq::empty()),
        chunks_exported(Seq::empty()).len() == 0,
        all_taken(Seq::empty()).len() == 0,
        round_after(Seq::empty()).pending.len() == 0 && !round_after(Seq::empty()).stop,
        is_run(steps.push(Step::Gathered(history))) <==> {
            &&& is_run(steps)
            &&& round_after(steps).pending.len() == 0 && !round_after(steps).stop
            &&& is_history(history)
            &&& batch_after(history).stage is Done
            &&& history.last() is Disconnected ==> nudges_follow_shutdown(history)
        },
        is_run(steps.push(Step::Exported)) <==> is_run(steps) && round_after(steps).pending.len()
            > 0,
        all_taken(steps.push(Step::Gathered(history))) == all_taken(steps) + values_taken(history),
        all_taken(steps.push(Step::Exported)) == all_taken(steps),
        chunks_exported(steps.push(Step::Gathered(history))) == chunks_exported(steps),
        chunks_exported(steps.push(Step::Exported)) == chunks_exported(steps).push(
            round_after(steps).pending[0],
        ),
{
    assert(steps.push(Step::Gathered(history)).drop_last() =~= steps);
    assert(steps.push(Step::Exported).drop_last() =~= steps);
}

/// After its last batch the sender exports every chunk of it, and then finishes exactly if the
/// queue was drained at shutdown or broke off, also if there was no chunk; after any other batch it
/// gathers the next one.
pub proof fn runs_finish_at_shutdown(steps: Seq<Step>, at: int, history: Seq<Told>)
    requires
        is_run(steps),
        0 <= at < steps.len(),
        steps[at] == Step::Gathered(history),
        forall|i: int| at < i < steps.len() ==> (#[trigger] steps[i]) is Exported,
    ensures
        round_after(steps).pending.len() == (batch_after(history).records.len() + 511) / 512 - (
        steps.len() - 1 - at),
        round_after(steps).next_turn() is Export <==> round_after(steps).pending.len() > 0,
        round_after(steps).next_turn() is Finish <==> round_after(steps).pending.len() == 0 && (
        history.last() is Queued || history.last() is Disconnected),
        round_after(steps).next_turn() is Gather <==> round_after(steps).pending.len() == 0 && !(
        history.last() is Queued || history.last() is Disconnected),
{
    lemma_since_batch(steps, at, history);
    lemma_chunk_sizes(batch_after(history).records);
}

/// What is pending, and whether the sender stops, since the last batch.
proof fn lemma_since_batch(steps: Seq<Step>, at: int, history: Seq<Told>)
    requires
        is_run(steps),
        0 <= at < steps.len(),
        steps[at] == Step::Gathered(history),
        forall|i: int| at < i < steps.len() ==> (#[trigger] steps[i]) is Exported,
    ensures
        round_after(steps).pending.len() == chunks_of(batch_after(history).records).len() - (
        steps.len() - 1 - at),
        round_after(steps).stop <==> history.last() is Queued || history.last() is Disconnected,
    decreases steps.len(),
{
    let before = steps.drop_last();
    if at < steps.len() - 1 {
        assert(steps[steps.len() - 1] is Exported);
        lemma_since_batch(before, at, history);
    } else {
        batches_stop_at_shutdown(history);
        assert(is_history(history) && batch_after(history).stage is Done);
    }
}

}
