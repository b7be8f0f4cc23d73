//! The gathering of batches and the turns of the sender.

use florestad::batch::{NextBatch, Stage, Told, BATCH_DELAY_NANOS, BATCH_SIZE};
use florestad::round::{chunks, Round, Turn};
use serde_json::Value;

fn records(count: usize) -> Vec<Value> {
    (0..count).map(|n| Value::from(n as u64)).collect()
}

/// Brings a batch to where it waits for the queue.
fn to_queue(batch: &mut NextBatch, now: u64) {
    batch.tell(Told::Shutdown(false));
    batch.tell(Told::Now(now));
}

/// A batch that was begun at `now`.
fn begun(now: u64) -> NextBatch {
    let mut batch = NextBatch::new();
    assert_eq!(batch.stage, Stage::Start);
    batch.tell(Told::Now(now));
    assert_eq!(batch.stage, Stage::Flag);
    batch
}

#[test]
fn batches_end_at_their_size() {
    let mut batch = begun(0);
    let mut steps = 1;
    for n in 0..BATCH_SIZE {
        assert_eq!(batch.stage, Stage::Flag);
        to_queue(&mut batch, 1);
        batch.tell(Told::Received(Value::from(n as u64)));
        steps += 3;
    }
    assert_eq!(batch.stage, Stage::Confirm);
    batch.tell(Told::Shutdown(false));
    assert_eq!(batch.stage, Stage::Done { stop: false });
    assert_eq!(batch.records, records(512));
    assert_eq!(steps + 1, 3 * 512 + 2);
}

#[test]
fn batches_end_at_their_deadline() {
    let mut batch = begun(50);
    to_queue(&mut batch, 60);
    assert_eq!(
        batch.stage,
        Stage::Queue {
            wait: BATCH_DELAY_NANOS - 10
        }
    );
    batch.tell(Told::Received(Value::from("a")));
    to_queue(&mut batch, 1_000_000_049);
    assert_eq!(batch.stage, Stage::Queue { wait: 1 });
    batch.tell(Told::Received(Value::from("b")));
    to_queue(&mut batch, 1_000_000_050);
    assert_eq!(batch.stage, Stage::Confirm);
    batch.tell(Told::Shutdown(false));
    assert_eq!(batch.stage, Stage::Done { stop: false });
    assert_eq!(batch.records, vec![Value::from("a"), Value::from("b")]);
}

#[test]
fn batches_end_when_the_queue_stays_empty() {
    let mut batch = begun(0);
    to_queue(&mut batch, 0);
    batch.tell(Told::TimedOut);
    batch.tell(Told::Shutdown(false));
    assert_eq!(batch.stage, Stage::Done { stop: false });
    assert!(batch.records.is_empty());
}

#[test]
fn shutdown_drains_the_queue() {
    let mut batch = begun(0);
    to_queue(&mut batch, 0);
    batch.tell(Told::Received(Value::from(1)));
    to_queue(&mut batch, 1);
    // The nudge, sent after the flag was set.
    batch.tell(Told::Received(Value::Null));
    batch.tell(Told::Shutdown(true));
    assert_eq!(batch.stage, Stage::Confirm);
    batch.tell(Told::Shutdown(true));
    assert_eq!(batch.stage, Stage::Drain);
    batch.tell(Told::Queued(vec![
        Value::from(2),
        Value::Null,
        Value::from(3),
    ]));
    assert_eq!(batch.stage, Stage::Done { stop: true });
    assert_eq!(
        batch.records,
        vec![Value::from(1), Value::from(2), Value::from(3)]
    );
}

#[test]
fn shutdown_after_a_full_wait_is_seen() {
    let mut batch = begun(0);
    to_queue(&mut batch, 0);
    batch.tell(Told::TimedOut);
    batch.tell(Told::Shutdown(true));
    batch.tell(Told::Queued(records(600)));
    assert_eq!(batch.stage, Stage::Done { stop: true });
    assert_eq!(batch.records, records(600));
}

#[test]
fn a_broken_queue_stops_the_sender() {
    let mut batch = begun(0);
    to_queue(&mut batch, 0);
    batch.tell(Told::Received(Value::from(1)));
    to_queue(&mut batch, 0);
    batch.tell(Told::Disconnected);
    assert_eq!(batch.stage, Stage::Done { stop: true });
    assert_eq!(batch.records, vec![Value::from(1)]);
}

#[test]
fn nudges_are_no_records() {
    let mut batch = begun(0);
    for value in [Value::Null, Value::from("x"), Value::Null, Value::Null] {
        to_queue(&mut batch, 0);
        batch.tell(Told::Received(value));
    }
    to_queue(&mut batch, 0);
    batch.tell(Told::TimedOut);
    batch.tell(Told::Shutdown(false));
    assert_eq!(batch.records, vec![Value::from("x")]);
}

#[test]
fn chunks_have_the_size_of_a_request() {
    assert!(chunks(vec![]).is_empty());
    assert_eq!(chunks(records(1)), vec![records(1)]);
    assert_eq!(chunks(records(512)).len(), 1);
    let cut = chunks(records(1500));
    assert_eq!(
        cut.iter().map(Vec::len).collect::<Vec<usize>>(),
        vec![512, 512, 476]
    );
    assert_eq!(cut.concat(), records(1500));
    assert_eq!(
        cut,
        records(1500)
            .chunks(512)
            .map(|chunk| chunk.to_vec())
            .collect::<Vec<Vec<Value>>>()
    );
}

#[test]
fn rounds_export_before_they_go_on() {
    let done = |count: usize, stop: bool| NextBatch {
        records: records(count),
        deadline: 0,
        stage: Stage::Done { stop },
    };
    let mut round = Round::new();
    assert_eq!(round.turn(), Turn::Gather);
    round.gathered(done(0, false));
    assert_eq!(round.turn(), Turn::Gather);
    round.gathered(done(2, false));
    assert_eq!(round.turn(), Turn::Export);
    assert_eq!(round.next_chunk(), records(2));
    assert_eq!(round.turn(), Turn::Gather);
    round.gathered(done(513, true));
    assert_eq!(round.turn(), Turn::Export);
    assert_eq!(round.next_chunk(), records(512));
    assert_eq!(round.turn(), Turn::Export);
    assert_eq!(round.next_chunk(), vec![Value::from(512)]);
    assert_eq!(round.turn(), Turn::Finish);
}

#[test]
fn runs_export_every_record_once_and_in_order() {
    let mut round = Round::new();
    let mut exported: Vec<Value> = Vec::new();
    let mut taken = records(BATCH_SIZE + 4).into_iter();

    // A full batch, with no shutdown in sight.
    let mut batch = begun(0);
    for _ in 0..BATCH_SIZE {
        to_queue(&mut batch, 0);
        batch.tell(Told::Received(taken.next().unwrap()));
    }
    batch.tell(Told::Shutdown(false));
    round.gathered(batch);
    while round.turn() == Turn::Export {
        exported.append(&mut round.next_chunk());
    }
    assert_eq!(round.turn(), Turn::Gather);

    // A batch in which the queue breaks off.
    let mut batch = begun(0);
    for record in taken {
        to_queue(&mut batch, 0);
        batch.tell(Told::Received(record));
    }
    to_queue(&mut batch, 0);
    batch.tell(Told::Disconnected);
    round.gathered(batch);
    while round.turn() == Turn::Export {
        exported.append(&mut round.next_chunk());
    }
    assert_eq!(round.turn(), Turn::Finish);

    assert_eq!(exported, records(BATCH_SIZE + 4));
}
