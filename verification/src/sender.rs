//! The sender: what it posts, and what it makes of the answers.

use crate::endpoint::{check_endpoint, refusal_text, InvalidEndpoint, HTTP_SCHEME};
use crate::json::{json_of, json_parsed, json_text, jsons_of, member, parse_value, Json};
use crate::request::{
    instance_id_from, instance_id_text, payload, payload_json, request_body, resource,
    resource_from, resource_json, Build,
};
use crate::text::{decimal, decimal_text, optional_string, parse_u64, parsed_u64};
use serde_json::Value;
use vstd::prelude::*;

verus! {

/// Records buffered between the layer and the sender. Beyond this, drop.
pub const QUEUE_CAPACITY: usize = 4096;

/// Per-request timeout in milliseconds, covering connect, send and response.
pub const EXPORT_TIMEOUT_MILLIS: u64 = 10_000;

/// How long shutdown waits for the sender to flush queued records, in milliseconds.
pub const SHUTDOWN_TIMEOUT_MILLIS: u64 = 2_000;

/// Report export failures on the first one and every so many consecutive ones after it.
pub const FAILURE_REPORT_EVERY: u64 = 100;

/// What became of a record offered to the queue.
#[derive(Debug, Clone, Copy, PartialEq, Eq, Structural)]
pub enum Offer {
    Queued,
    /// The queue was full.
    Full,
    /// Nobody takes records from the queue any more.
    Disconnected,
}

/// How many records an offer adds to the dropped ones: the one for which the queue had no space.
pub open spec fn drops_of(offer: Offer) -> nat {
    if offer == Offer::Full {
        1
    } else {
        0
    }
}

/// How many records several offers add to the dropped ones.
pub open spec fn drops_of_all(offers: Seq<Offer>) -> nat
    decreases offers.len(),
{
    if offers.len() == 0 {
        0
    } else {
        drops_of_all(offers.drop_last()) + drops_of(offers.last())
    }
}

/// How many records an offer adds to the dropped ones.
pub fn dropped_by(offer: Offer) -> (dropped: u64)
    ensures
        dropped == drops_of(offer),
{
    match offer {
        Offer::Full => 1,
        Offer::Queued => 0,
        Offer::Disconnected => 0,
    }
}

/// What is reported at shutdown about dropped records.
pub open spec fn dropped_report_text(dropped: u64) -> Option<Seq<char>> {
    if dropped > 0 {
        Some(
            "OTLP logs: dropped "@ + decimal_text(dropped as nat)
                + " records because the export queue was full"@,
        )
    } else {
        None
    }
}

/// The line to report at shutdown, if records were dropped.
pub fn dropped_report(dropped: u64) -> (line: Option<String>)
    ensures
        optional_string(line) == dropped_report_text(dropped),
{
    if dropped > 0 {
        let mut line = "OTLP logs: dropped ".to_owned();
        line.append(decimal(dropped as u128).as_str());
        line.append(" records because the export queue was full");
        Some(line)
    } else {
        None
    }
}

/// The count of rejected records in a collector's answer, as decimal text or as a number; zero
/// if it is neither.
pub open spec fn rejected_records(response: Json) -> u64 {
    match response.member("partialSuccess"@).member("rejectedLogRecords"@) {
        Json::Text(text) => match parsed_u64(text) {
            Some(count) => count,
            None => 0,
        },
        Json::Unsigned(count) => count,
        _ => 0,
    }
}

/// The reason for a rejection in a collector's answer, empty if there is none.
pub open spec fn rejection_message(response: Json) -> Seq<char> {
    match response.member("partialSuccess"@).member("errorMessage"@) {
        Json::Text(message) => message,
        _ => Seq::empty(),
    }
}

/// What is reported about a collector's answer.
pub open spec fn rejection_report(response: Json) -> Option<Seq<char>> {
    if rejected_records(response) > 0 {
        Some(
            "OTLP logs: collector rejected "@ + decimal_text(rejected_records(response) as nat)
                + " records: "@ + rejection_message(response),
        )
    } else {
        None
    }
}

/// What is reported about the body of a collector's answer: nothing, if it is not JSON.
pub open spec fn body_report(body: Seq<char>) -> Option<Seq<char>> {
    match json_parsed(body) {
        Some(response) => rejection_report(response),
        None => None,
    }
}

/// The line to report about a collector's answer, if it rejected records.
pub fn rejection_line(response: &Value) -> (line: Option<String>)
    ensures
        optional_string(line) == rejection_report(json_of(*response)),
{
    let partial = member(response, "partialSuccess");
    let count = member(partial, "rejectedLogRecords");
    let text: Option<u64> = match count.as_str() {
        Some(text) => parse_u64(text),
        None => None,
    };
    let rejected: u64 = match text {
        Some(rejected) => rejected,
        None => match count.as_u64() {
            Some(rejected) => rejected,
            None => 0,
        },
    };
    if rejected > 0 {
        let mut line = "OTLP logs: collector rejected ".to_owned();
        line.append(decimal(rejected as u128).as_str());
        line.append(" records: ");
        match member(partial, "errorMessage").as_str() {
            Some(message) => line.append(message),
            None => {},
        }
        assert(line@ =~= rejection_report(json_of(*response))->0);
        Some(line)
    } else {
        None
    }
}

/// The line to report about the body of a collector's answer.
///
/// A collector answers `200` even when it rejected some records; the count and the reason are in
/// the body's `partialSuccess` object.
pub fn report_partial_success(body: &str) -> (line: Option<String>)
    ensures
        optional_string(line) == body_report(body@),
{
    match parse_value(body) {
        Some(response) => rejection_line(&response),
        None => None,
    }
}

/// How an export ended.
#[derive(Debug)]
pub enum Outcome {
    /// The collector answered, with a body if it could be read.
    Answered(Option<String>),
    /// The request failed, for this reason.
    Failed(String),
}

/// Whether a failed export is reported, by how many failed in a row with it.
pub open spec fn failure_is_reported(failures: int) -> bool {
    failures == 1 || failures % FAILURE_REPORT_EVERY as int == 0
}

/// The consecutive failures after one more export.
pub open spec fn failures_after(failures: int, outcome: Outcome) -> int {
    match outcome {
        Outcome::Answered(_) => 0,
        Outcome::Failed(_) => failures + 1,
    }
}

/// What is reported of the failed export that makes `failures` of them in a row.
pub open spec fn failure_report(url: Seq<char>, failures: int, error: Seq<char>) -> Option<
    Seq<char>,
> {
    if failure_is_reported(failures) {
        Some(
            "OTLP logs: export to "@ + url + " failed ("@ + decimal_text(failures as nat)
                + " consecutive): "@ + error,
        )
    } else {
        None
    }
}

/// What is reported of an export, after `failures` failed ones in a row.
pub open spec fn outcome_report(url: Seq<char>, failures: int, outcome: Outcome) -> Option<
    Seq<char>,
> {
    match outcome {
        Outcome::Answered(Some(body)) => body_report(body@),
        Outcome::Answered(None) => body_report(Seq::empty()),
        Outcome::Failed(error) => failure_report(url, failures + 1, error@),
    }
}

/// The sender of log batches.
pub struct Sender {
    pub url: String,
    pub resource: Value,
    pub version: String,
    /// Consecutive failed exports, reset on the first success.
    pub failures: u64,
}

impl Sender {
    /// Sets up a sender that posts to `url`, under a random instance identifier.
    ///
    /// Refuses a URL that is not plain `http://`, since the exporter has no TLS.
    pub fn start(url: String, build: &Build) -> (sender: Result<Sender, InvalidEndpoint>)
        ensures
            sender is Ok == HTTP_SCHEME@.is_prefix_of(url@),
            sender matches Err(refused) ==> refused.message@ == refusal_text(url@),
            sender matches Ok(sender) ==> {
                &&& sender.url == url
                &&& sender.version == build.version
                &&& sender.failures == 0
                &&& exists|id: u64|
                    json_of(sender.resource) == resource_json(*build, instance_id_text(id))
            },
    {
        match check_endpoint(url.as_str()) {
            Ok(()) => Ok(
                Sender { url, resource: resource(build), version: build.version.clone(), failures: 0 },
            ),
            Err(refused) => Err(refused),
        }
    }

    /// The body of the request that exports `records`.
    pub fn export(&self, records: &[Value]) -> (body: String)
        ensures
            body@ == json_text(
                payload_json(json_of(self.resource), self.version@, jsons_of(records@)),
            ),
    {
        request_body(&self.resource, self.version.as_str(), records)
    }

    /// Takes note of how an export ended, and gives the line to report about it.
    pub fn settle(&mut self, outcome: &Outcome) -> (line: Option<String>)
        requires
            outcome is Failed ==> old(self).failures < u64::MAX,
        ensures
            final(self).failures == failures_after(old(self).failures as int, *outcome),
            optional_string(line) == outcome_report(
                old(self).url@,
                old(self).failures as int,
                *outcome,
            ),
            final(self).url == old(self).url,
            final(self).resource == old(self).resource,
            final(self).version == old(self).version,
    {
        match outcome {
            Outcome::Answered(body) => {
                self.failures = 0;
                match body {
                    Some(body) => report_partial_success(body.as_str()),
                    None => {
                        proof {
                            reveal_strlit("");
                            assert(""@ =~= Seq::<char>::empty());
                        }
                        report_partial_success("")
                    },
                }
            },
            Outcome::Failed(error) => {
                self.failures = self.failures + 1;
                if self.failures == 1 || self.failures % FAILURE_REPORT_EVERY == 0 {
                    let mut line = "OTLP logs: export to ".to_owned();
                    line.append(self.url.as_str());
                    line.append(" failed (");
                    line.append(decimal(self.failures as u128).as_str());
                    line.append(" consecutive): ");
                    line.append(error.as_str());
                    Some(line)
                } else {
                    None
                }
            },
        }
    }
}

/// A count of rejected records means the same as decimal text and as a number.
pub proof fn text_and_number_count_alike(response: Json, other: Json, count: u64)
    requires
        response.member("partialSuccess"@).member("rejectedLogRecords"@) == Json::Text(
            decimal_text(count as nat),
        ),
        other.member("partialSuccess"@).member("rejectedLogRecords"@) == Json::Unsigned(count),
        rejection_message(response) == rejection_message(other),
    ensures
        rejected_records(response) == count,
        rejection_report(response) == rejection_report(other),
{
    crate::text::decimal_parses_back(count);
}

/// How many of the first `failures` exports to fail in a row are reported.
pub open spec fn reported_failures(failures: nat) -> nat
    decreases failures,
{
    if failures == 0 {
        0
    } else {
        reported_failures((failures - 1) as nat) + if failure_is_reported(failures as int) {
            1nat
        } else {
            0nat
        }
    }
}

/// In a run of failed exports the first is reported, and one in every hundred after it.
pub proof fn failure_reports_stay_rare(failures: nat)
    ensures
        reported_failures(failures) == if failures == 0 {
            0
        } else {
            1 + failures as int / FAILURE_REPORT_EVERY as int
        },
    decreases failures,
{
    if failures > 1 {
        failure_reports_stay_rare((failures - 1) as nat);
    } else if failures == 1 {
        failure_reports_stay_rare(0);
    }
}

/// Every record that was offered is accounted for: it is in the queue, it is counted as dropped
/// because the queue was full, or nobody was there to take it.
pub proof fn offers_are_accounted_for(offers: Seq<Offer>)
    ensures
        offers.len() == offers.filter(|offer: Offer| offer == Offer::Queued).len() + drops_of_all(
            offers,
        ) + offers.filter(|offer: Offer| offer == Offer::Disconnected).len(),
        drops_of_all(offers) == offers.filter(|offer: Offer| offer == Offer::Full).len(),
    decreases offers.len(),
{
    reveal_with_fuel(Seq::filter, 1);
    if offers.len() > 0 {
        offers_are_accounted_for(offers.drop_last());
    }
}

/// What is in the queue between the layer and the sender, and how much it can hold.
pub struct QueueView {
    pub records: Seq<Value>,
    pub capacity: nat,
}

impl QueueView {
    /// What comes of offering a record, while the sender is there to take it sooner or later: a
    /// bounded channel takes it in if it has space, and otherwise says at once that it is full.
    pub open spec fn answer(self) -> Offer {
        if self.records.len() < self.capacity {
            Offer::Queued
        } else {
            Offer::Full
        }
    }

    /// The queue after a record was offered: behind the others, if it was taken in.
    pub open spec fn after(self, record: Value) -> QueueView {
        match self.answer() {
            Offer::Queued => QueueView { records: self.records.push(record), ..self },
            _ => self,
        }
    }

    /// The queue after records arrived one by one, while nothing was taken out.
    pub open spec fn after_all(self, arrivals: Seq<Value>) -> QueueView
        decreases arrivals.len(),
    {
        if arrivals.len() == 0 {
            self
        } else {
            self.after_all(arrivals.drop_last()).after(arrivals.last())
        }
    }

    /// What came of each of these records.
    pub open spec fn answers(self, arrivals: Seq<Value>) -> Seq<Offer>
        decreases arrivals.len(),
    {
        if arrivals.len() == 0 {
            Seq::empty()
        } else {
            self.answers(arrivals.drop_last()).push(self.after_all(arrivals.drop_last()).answer())
        }
    }
}

/// While the sender takes nothing, the queue holds the first records to arrive, in the order they
/// came, as many as it has space for. The others are counted as dropped: every record is either
/// queued or counted, exactly once.
pub proof fn full_queues_keep_the_first_records(queue: QueueView, arrivals: Seq<Value>)
    requires
        queue.records.len() <= queue.capacity,
    ensures
        queue.after_all(arrivals).capacity == queue.capacity,
        queue.after_all(arrivals).records == (queue.records + arrivals).take(
            if queue.records.len() + arrivals.len() <= queue.capacity {
                (queue.records.len() + arrivals.len()) as int
            } else {
                queue.capacity as int
            },
        ),
        queue.answers(arrivals).len() == arrivals.len(),
        queue.after_all(arrivals).records.len() + drops_of_all(queue.answers(arrivals))
            == queue.records.len() + arrivals.len(),
    decreases arrivals.len(),
{
    let all = queue.records + arrivals;
    if arrivals.len() == 0 {
        assert(all.take(queue.records.len() as int) =~= queue.records);
    } else {
        let earlier = arrivals.drop_last();
        full_queues_keep_the_first_records(queue, earlier);
        assert(queue.answers(arrivals).drop_last() =~= queue.answers(earlier));
        assert(queue.records + earlier =~= all.drop_last());
        assert(queue.after_all(arrivals).records =~= all.take(
            queue.after_all(arrivals).records.len() as int,
        ));
    }
}

/// A sender is set up exactly for the endpoints that are accepted, and posts there. It has failed
/// in nothing yet, and says of itself what the build does.
pub proof fn senders_post_to_accepted_endpoints(
    url: String,
    text: &str,
    build: &Build,
    checked: Result<(), InvalidEndpoint>,
    started: Result<Sender, InvalidEndpoint>,
)
    requires
        text@ == url@,
        call_ensures(check_endpoint, (text,), checked),
        call_ensures(Sender::start, (url, build), started),
    ensures
        started is Ok <==> checked is Ok,
        started is Ok <==> url@.len() >= 7 && url@.take(7) == "http://"@,
        started matches Ok(sender) ==> sender.url@ == url@ && sender.version@ == build.version@
            && sender.failures == 0,
        started matches Err(refused) ==> refused.message@ == checked->Err_0.message@,
{
    crate::endpoint::endpoints_are_plain_http(text, checked);
}

/// An export is the request for the sender's resource, its version and the records, as text.
pub proof fn exports_are_requests(
    sender: &Sender,
    records: &[Value],
    version: &str,
    request: Value,
    body: String,
)
    requires
        version@ == sender.version@,
        call_ensures(payload, (&sender.resource, version, records), request),
        call_ensures(Sender::export, (sender, records), body),
    ensures
        body@ == json_text(json_of(request)),
{
}

/// An answer ends a run of failures, however long it was. What is reported of it is what its body
/// says about rejected records; a body that could not be read counts as empty.
pub proof fn answers_end_a_run_of_failures(
    sender: &mut Sender,
    outcome: &Outcome,
    line: Option<String>,
    body: &str,
    reported: Option<String>,
)
    requires
        *outcome is Answered,
        body@ == match *outcome {
            Outcome::Answered(Some(answer)) => answer@,
            _ => Seq::<char>::empty(),
        },
        call_ensures(Sender::settle, (sender, outcome), line),
        call_ensures(report_partial_success, (body,), reported),
    ensures
        final(sender).failures == 0,
        line is Some == reported is Some,
        line is Some ==> line->0@ == reported->0@,
{
}

/// A failure makes the run of failures one longer. The first of a run is reported, and every
/// hundredth; the line names the endpoint, the length of the run and the reason.
pub proof fn failures_are_counted_and_sometimes_reported(
    sender: &mut Sender,
    outcome: &Outcome,
    line: Option<String>,
    count: u64,
    written: String,
)
    requires
        *outcome is Failed,
        call_ensures(Sender::settle, (sender, outcome), line),
        count == old(sender).failures + 1,
        call_ensures(decimal, (count as u128,), written),
    ensures
        final(sender).failures == count,
        line is Some <==> count == 1 || count % 100 == 0,
        line is Some ==> line->0@ == "OTLP logs: export to "@ + old(sender).url@ + " failed ("@
            + written@ + " consecutive): "@ + outcome->Failed_0@,
{
}

/// Whatever comes of an export, the sender goes on posting the same things to the same place.
pub proof fn senders_stay_what_they_are(
    sender: &mut Sender,
    outcome: &Outcome,
    line: Option<String>,
)
    requires
        call_ensures(Sender::settle, (sender, outcome), line),
    ensures
        final(sender).url == old(sender).url,
        final(sender).resource == old(sender).resource,
        final(sender).version == old(sender).version,
{
}

/// Rejected records are reported exactly if there are any, by a count that is a number or the text
/// of one. The line has the count, and the reason if it is a text.
pub proof fn rejections_are_reported_with_count_and_reason(
    response: &Value,
    line: Option<String>,
    count: Json,
    count_text: &str,
    read: Option<u64>,
    rejected: u64,
    written: String,
    reason: Json,
)
    requires
        call_ensures(rejection_line, (response,), line),
        count == json_of(*response).member("partialSuccess"@).member("rejectedLogRecords"@),
        reason == json_of(*response).member("partialSuccess"@).member("errorMessage"@),
        count matches Json::Text(text) ==> count_text@ == text,
        call_ensures(parse_u64, (count_text,), read),
        rejected == match count {
            Json::Text(_) => match read {
                Some(number) => number,
                None => 0,
            },
            Json::Unsigned(number) => number,
            _ => 0,
        },
        call_ensures(decimal, (rejected as u128,), written),
    ensures
        line is Some <==> rejected > 0,
        line is Some ==> line->0@ == "OTLP logs: collector rejected "@ + written@ + " records: "@
            + match reason {
            Json::Text(text) => text,
            _ => Seq::<char>::empty(),
        },
{
}

/// A body that is JSON is reported as what it holds, and any other not at all.
pub proof fn bodies_are_reported_by_what_they_hold(
    body: &str,
    line: Option<String>,
    response: &Value,
    reported: Option<String>,
)
    requires
        call_ensures(report_partial_success, (body,), line),
        call_ensures(rejection_line, (response,), reported),
        json_parsed(body@) matches Some(held) ==> held == json_of(*response),
    ensures
        json_parsed(body@) is None ==> line is None,
        json_parsed(body@) is Some ==> line is Some == reported is Some && (line is Some
            ==> line->0@ == reported->0@),
{
}

/// An offer counts as a drop exactly if the queue was full, and drops are reported exactly if there
/// were any, with their number.
pub proof fn drops_are_counted_and_reported(
    offer: Offer,
    counted: u64,
    dropped: u64,
    written: String,
    line: Option<String>,
)
    requires
        call_ensures(dropped_by, (offer,), counted),
        call_ensures(dropped_report, (dropped,), line),
        call_ensures(decimal, (dropped as u128,), written),
    ensures
        counted == if offer is Full {
            1int
        } else {
            0int
        },
        line is Some <==> dropped > 0,
        line is Some ==> line->0@ == "OTLP logs: dropped "@ + written@
            + " records because the export queue was full"@,
{
}

/// The limits: a queue of 4096 records, ten seconds for a request and two for shutdown, and a
/// report for every hundredth failure.
pub proof fn limits_of_the_sender()
    ensures
        QUEUE_CAPACITY == 4096,
        EXPORT_TIMEOUT_MILLIS == 10 * 1000,
        SHUTDOWN_TIMEOUT_MILLIS == 2 * 1000,
        FAILURE_REPORT_EVERY == 100,
{
}

/// A sender describes the process by the resource of its build, under an identifier of one number.
/// This gives the number.
pub proof fn senders_describe_their_build(url: String, build: &Build, sender: Sender) -> (id: u64)
    requires
        call_ensures(Sender::start, (url, build), Ok(sender)),
    ensures
        forall|instance: &str, text: String, same: Value|
            #![trigger call_ensures(instance_id_from, (id,), text), call_ensures(
                resource_from,
                (build, instance),
                same,
            )]
            call_ensures(instance_id_from, (id,), text) && instance@ == text@ && call_ensures(
                resource_from,
                (build, instance),
                same,
            ) ==> json_of(sender.resource) == json_of(same),
{
    choose|id: u64| json_of(sender.resource) == resource_json(*build, instance_id_text(id))
}

}
