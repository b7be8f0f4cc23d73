//! Endpoints, log records, requests and the reports about them.

use std::collections::hash_map::RandomState;
use std::collections::HashSet;
use std::sync::mpsc::{sync_channel, TrySendError};

use florestad::endpoint::{check_endpoint, resolve_url, resolve_url_from};
use florestad::record::{
    attribute, boolean, double, integer, log_record, severity, string, FieldValue, Fields, Level,
    LogEvent,
};
use florestad::request::{
    instance_id, instance_id_from, payload, request_body, resource, resource_from, Build,
};
use florestad::sender::{
    dropped_by, dropped_report, rejection_line, report_partial_success, Offer, Outcome, Sender,
};
use florestad::text::{decimal, hex, parse_u64, signed_decimal, starts_with, trim_trailing_slashes};
use serde_json::Value;

fn object(members: Vec<(&str, Value)>) -> Value {
    let mut map = serde_json::Map::new();
    for (key, value) in members {
        map.insert(key.to_owned(), value);
    }
    Value::Object(map)
}

fn build() -> Build {
    Build {
        describe: "v0.9.0-12-gabcdef".to_owned(),
        version: "0.9.0".to_owned(),
    }
}

fn event(fields: Vec<(String, FieldValue)>) -> LogEvent {
    LogEvent {
        target: "florestad::otlp::tests".to_owned(),
        level: Level::Warn,
        file: Some("bin/florestad/src/otlp.rs".to_owned()),
        line: Some(483),
        fields,
    }
}

#[test]
fn resolves_endpoint_precedence() {
    assert_eq!(resolve_url_from(None, None, None), None);
    assert_eq!(
        resolve_url_from(Some("http://a:4318/"), Some("http://b/x"), Some("http://c")),
        Some("http://a:4318/v1/logs".to_owned())
    );
    assert_eq!(
        resolve_url_from(None, Some("http://b/x"), Some("http://c")),
        Some("http://b/x".to_owned())
    );
    assert_eq!(
        resolve_url_from(None, None, Some("http://c")),
        Some("http://c/v1/logs".to_owned())
    );
}

#[test]
fn rejects_non_http_endpoint() {
    assert!(Sender::start("https://collector:4318/v1/logs".to_owned(), &build()).is_err());
}

#[test]
fn event_becomes_otlp_log_record() {
    let record = log_record(
        &event(vec![
            ("message".to_owned(), FieldValue::Debug("block rejected".to_owned())),
            ("height".to_owned(), FieldValue::Unsigned(42)),
            ("valid".to_owned(), FieldValue::Bool(false)),
        ]),
        Some(1_700_000_000_123_456_789),
    );

    assert_eq!(record["severityNumber"], 13);
    assert_eq!(record["severityText"], "WARN");
    assert_eq!(record["body"]["stringValue"], "block rejected");
    assert!(
        record["timeUnixNano"].is_string(),
        "int64 must be a JSON string"
    );
    assert_eq!(record["observedTimeUnixNano"], record["timeUnixNano"]);
    assert_eq!(record["timeUnixNano"], "1700000000123456789");

    let attrs = record["attributes"].as_array().expect("attributes array");
    let find = |key: &str| {
        attrs
            .iter()
            .find(|a| a["key"] == key)
            .unwrap_or_else(|| panic!("missing attribute {key}"))["value"]
            .clone()
    };
    assert_eq!(find("height"), object(vec![("intValue", Value::from("42"))]));
    assert_eq!(find("valid"), object(vec![("boolValue", Value::from(false))]));
    assert_eq!(find("target"), string("florestad::otlp::tests"));
    assert_eq!(find("code.file.path"), string("bin/florestad/src/otlp.rs"));
    assert!(find("code.line.number")["intValue"].is_string());
    assert_eq!(find("code.line.number"), integer(483));
    assert_eq!(attrs.len(), 5);
}

#[test]
fn payload_carries_resource_identity() {
    let payload = payload(&resource(&build()), "0.9.0", &[object(vec![])]);
    let attrs = payload["resourceLogs"][0]["resource"]["attributes"]
        .as_array()
        .expect("resource attributes");
    let has = |key: &str| attrs.iter().any(|a| a["key"] == key);
    assert!(has("service.name"));
    assert!(has("service.version"));
    assert!(has("service.instance.id"));
    assert!(has("telemetry.sdk.name"));
    assert_eq!(
        payload["resourceLogs"][0]["scopeLogs"][0]["logRecords"]
            .as_array()
            .map(Vec::len),
        Some(1)
    );
}

#[test]
fn empty_variables_count_as_not_set() {
    assert_eq!(resolve_url(None, Some(""), Some("")), None);
    assert_eq!(
        resolve_url(None, Some(""), Some("http://c//")),
        Some("http://c/v1/logs".to_owned())
    );
    assert_eq!(
        resolve_url(None, Some("http://b/x/"), Some("http://c")),
        Some("http://b/x/".to_owned())
    );
    assert_eq!(
        resolve_url(Some(""), Some("http://b"), None),
        Some("/v1/logs".to_owned())
    );
}

#[test]
fn trailing_slashes_of_a_base_are_cut() {
    assert_eq!(trim_trailing_slashes("http://a///"), "http://a");
    assert_eq!(trim_trailing_slashes("///"), "");
    assert_eq!(trim_trailing_slashes("/a/b"), "/a/b");
    for base in ["http://a", "http://a/", "http://a//"] {
        assert_eq!(
            resolve_url_from(Some(base), None, None),
            Some("http://a/v1/logs".to_owned())
        );
    }
}

#[test]
fn refused_endpoints_are_quoted() {
    let refused = check_endpoint("ftp://x").expect_err("not an http URL");
    assert_eq!(
        refused.message,
        "OTLP logs endpoint must start with http://, got ftp://x"
    );
    assert!(check_endpoint("http:/").is_err());
    assert!(check_endpoint("").is_err());
    assert!(check_endpoint("HTTP://collector").is_err());
    assert!(check_endpoint("http://").is_ok());
    assert!(starts_with("http://collector", "http://"));
}

#[test]
fn senders_start_without_failures() {
    let sender = Sender::start("http://c/v1/logs".to_owned(), &build())
        .unwrap_or_else(|e| panic!("{}", e.message));
    assert_eq!(sender.url, "http://c/v1/logs");
    assert_eq!(sender.version, "0.9.0");
    assert_eq!(sender.failures, 0);
    let id = &sender.resource["attributes"][2]["value"]["stringValue"];
    assert_eq!(id.as_str().map(str::len), Some(16));
    assert_eq!(sender.resource, resource_from(&build(), id.as_str().unwrap_or("")));
}

#[test]
fn severities_of_all_levels() {
    assert_eq!(severity(Level::Trace), (1, "TRACE"));
    assert_eq!(severity(Level::Debug), (5, "DEBUG"));
    assert_eq!(severity(Level::Info), (9, "INFO"));
    assert_eq!(severity(Level::Warn), (13, "WARN"));
    assert_eq!(severity(Level::Error), (17, "ERROR"));
}

#[test]
fn values_have_their_otlp_form() {
    assert_eq!(string("a\"b"), object(vec![("stringValue", Value::from("a\"b"))]));
    assert_eq!(integer(-7), object(vec![("intValue", Value::from("-7"))]));
    assert_eq!(
        integer(i64::MIN),
        object(vec![("intValue", Value::from("-9223372036854775808"))])
    );
    assert_eq!(boolean(true), object(vec![("boolValue", Value::from(true))]));
    assert_eq!(
        double(Value::from(0.5f64)),
        object(vec![("doubleValue", Value::from(0.5f64))])
    );
    assert_eq!(
        attribute("k", string("v")),
        object(vec![("key", Value::from("k")), ("value", string("v"))])
    );
}

#[test]
fn fields_are_typed() {
    let mut fields = Fields {
        body: None,
        attributes: vec![],
    };
    fields.record_str("s", "text");
    fields.record_i64("i", -1);
    fields.record_u64("u", i64::MAX as u64);
    fields.record_u64("big", u64::MAX);
    fields.record_f64("f", Value::from(1.25f64));
    fields.record_bool("b", true);
    fields.record_debug("d", "Some(1)");
    assert_eq!(
        fields.attributes,
        vec![
            attribute("s", string("text")),
            attribute("i", integer(-1)),
            attribute("u", integer(i64::MAX)),
            attribute("big", string("18446744073709551615")),
            attribute("f", double(Value::from(1.25f64))),
            attribute("b", boolean(true)),
            attribute("d", string("Some(1)")),
        ]
    );
    assert_eq!(fields.body, None);
    fields.push("message", string("one"));
    fields.record(
        "message",
        &FieldValue::Str("two".to_owned()),
    );
    assert_eq!(fields.body, Some(string("two")));
    assert_eq!(fields.attributes.len(), 7);
}

#[test]
fn attributes_keep_the_order_of_the_fields() {
    let record = log_record(
        &event(vec![
            ("b".to_owned(), FieldValue::Int(-2)),
            ("message".to_owned(), FieldValue::Str("first".to_owned())),
            ("a".to_owned(), FieldValue::Double(Value::Null)),
            ("message".to_owned(), FieldValue::Str("last".to_owned())),
        ]),
        None,
    );
    let keys: Vec<&str> = record["attributes"]
        .as_array()
        .expect("attributes array")
        .iter()
        .map(|a| a["key"].as_str().expect("a key"))
        .collect();
    assert_eq!(
        keys,
        vec!["target", "b", "a", "code.file.path", "code.line.number"]
    );
    assert_eq!(record["attributes"][2]["value"], double(Value::Null));
    assert_eq!(record["body"], string("last"));
    assert_eq!(record["timeUnixNano"], "0");
}

#[test]
fn events_without_message_or_place() {
    let record = log_record(
        &LogEvent {
            target: "t".to_owned(),
            level: Level::Trace,
            file: None,
            line: None,
            fields: vec![],
        },
        Some(5),
    );
    assert_eq!(
        record,
        object(vec![
            ("timeUnixNano", Value::from("5")),
            ("observedTimeUnixNano", Value::from("5")),
            ("severityNumber", Value::from(1)),
            ("severityText", Value::from("TRACE")),
            ("body", string("")),
            (
                "attributes",
                Value::Array(vec![attribute("target", string("t"))])
            ),
        ])
    );
}

#[test]
fn resources_name_the_build() {
    assert_eq!(
        resource_from(&build(), "00000000000000ff"),
        object(vec![(
            "attributes",
            Value::Array(vec![
                attribute("service.name", string("florestad")),
                attribute("service.version", string("v0.9.0-12-gabcdef")),
                attribute("service.instance.id", string("00000000000000ff")),
                attribute("telemetry.sdk.name", string("florestad-otlp")),
                attribute("telemetry.sdk.language", string("rust")),
                attribute("telemetry.sdk.version", string("0.9.0")),
            ])
        )])
    );
}

#[test]
fn instance_ids_are_sixteen_hex_digits() {
    assert_eq!(instance_id_from(0), "0000000000000000");
    assert_eq!(instance_id_from(0x1234_5678_9abc_def0), "123456789abcdef0");
    assert_eq!(instance_id_from(u64::MAX), "ffffffffffffffff");
    assert_eq!(hex(0xabc, 2), "bc");

    let mut seen: HashSet<String, RandomState> = HashSet::default();
    for _ in 0..8 {
        let id = instance_id();
        assert_eq!(id.len(), 16);
        assert!(id.chars().all(|c| matches!(c, '0'..='9' | 'a'..='f')));
        seen.insert(id);
    }
    assert!(seen.len() > 1);
}

#[test]
fn request_bodies_are_compact_json() {
    let resource = object(vec![("attributes", Value::Array(vec![]))]);
    let record = object(vec![("body", string("a \"quoted\"\nline"))]);
    assert_eq!(
        request_body(&resource, "0.9.0", &[record.clone(), object(vec![])]),
        "{\"resourceLogs\":[{\"resource\":{\"attributes\":[]},\"scopeLogs\":[{\"logRecords\":[\
         {\"body\":{\"stringValue\":\"a \\\"quoted\\\"\\nline\"}},{}],\
         \"scope\":{\"name\":\"florestad\",\"version\":\"0.9.0\"}}]}]}"
    );
    let sender = Sender {
        url: "http://c".to_owned(),
        resource: resource.clone(),
        version: "0.9.0".to_owned(),
        failures: 0,
    };
    assert_eq!(
        sender.export(&[record.clone()]),
        request_body(&resource, "0.9.0", &[record])
    );
}

#[test]
fn partial_success_is_reported() {
    assert_eq!(
        report_partial_success(
            "{\"partialSuccess\":{\"rejectedLogRecords\":\"3\",\"errorMessage\":\"too old\"}}"
        ),
        Some("OTLP logs: collector rejected 3 records: too old".to_owned())
    );
    assert_eq!(
        report_partial_success("{\"partialSuccess\":{\"rejectedLogRecords\":12}}"),
        Some("OTLP logs: collector rejected 12 records: ".to_owned())
    );
    assert_eq!(
        report_partial_success(
            "{\"partialSuccess\":{\"rejectedLogRecords\":1,\"errorMessage\":7}}"
        ),
        Some("OTLP logs: collector rejected 1 records: ".to_owned())
    );
}

#[test]
fn full_success_is_not_reported() {
    for body in [
        "",
        "not json",
        "{}",
        "[]",
        "null",
        "{\"partialSuccess\":{}}",
        "{\"partialSuccess\":[1]}",
        "{\"partialSuccess\":{\"rejectedLogRecords\":\"0\"}}",
        "{\"partialSuccess\":{\"rejectedLogRecords\":0}}",
        "{\"partialSuccess\":{\"rejectedLogRecords\":-3}}",
        "{\"partialSuccess\":{\"rejectedLogRecords\":2.5}}",
        "{\"partialSuccess\":{\"rejectedLogRecords\":\"many\"}}",
        "{\"partialSuccess\":{\"rejectedLogRecords\":\"18446744073709551616\"}}",
    ] {
        assert_eq!(report_partial_success(body), None, "{body}");
    }
}

#[test]
fn counts_as_text_and_as_number_mean_the_same() {
    let answer = |count: Value| {
        object(vec![(
            "partialSuccess",
            object(vec![
                ("rejectedLogRecords", count),
                ("errorMessage", Value::from("why")),
            ]),
        )])
    };
    let line = rejection_line(&answer(Value::from("40")));
    assert_eq!(
        line,
        Some("OTLP logs: collector rejected 40 records: why".to_owned())
    );
    assert_eq!(rejection_line(&answer(Value::from(40))), line);
}

#[test]
fn failures_are_reported_now_and_again() {
    let mut sender = Sender {
        url: "http://c".to_owned(),
        resource: Value::Null,
        version: "0".to_owned(),
        failures: 0,
    };
    let failed = Outcome::Failed("refused".to_owned());
    let mut reported = vec![];
    for attempt in 1..=250 {
        if let Some(line) = sender.settle(&failed) {
            reported.push((attempt, line));
        }
    }
    assert_eq!(
        reported,
        vec![
            (1, "OTLP logs: export to http://c failed (1 consecutive): refused".to_owned()),
            (100, "OTLP logs: export to http://c failed (100 consecutive): refused".to_owned()),
            (200, "OTLP logs: export to http://c failed (200 consecutive): refused".to_owned()),
        ]
    );
    assert_eq!(sender.failures, 250);

    assert_eq!(sender.settle(&Outcome::Answered(None)), None);
    assert_eq!(sender.failures, 0);
    assert!(sender.settle(&failed).is_some());
    assert_eq!(
        sender.settle(&Outcome::Answered(Some(
            "{\"partialSuccess\":{\"rejectedLogRecords\":\"2\"}}".to_owned()
        ))),
        Some("OTLP logs: collector rejected 2 records: ".to_owned())
    );
    assert_eq!(sender.failures, 0);
}

#[test]
fn dropped_records_are_counted_and_reported() {
    assert_eq!(dropped_by(Offer::Full), 1);
    assert_eq!(dropped_by(Offer::Queued), 0);
    assert_eq!(dropped_by(Offer::Disconnected), 0);
    assert_eq!(dropped_report(0), None);
    assert_eq!(
        dropped_report(17),
        Some("OTLP logs: dropped 17 records because the export queue was full".to_owned())
    );
}

#[test]
fn numbers_are_written_in_decimal() {
    assert_eq!(decimal(0), "0");
    assert_eq!(decimal(1_234_567_890), "1234567890");
    assert_eq!(decimal(u128::MAX), "340282366920938463463374607431768211455");
    assert_eq!(signed_decimal(0), "0");
    assert_eq!(signed_decimal(i64::MAX), "9223372036854775807");
    assert_eq!(signed_decimal(i64::MIN), "-9223372036854775808");
}

#[test]
fn numbers_are_read_like_the_standard_library_does() {
    for text in [
        "", "0", "7", "007", "+7", "+", "++7", "-7", "-0", " 7", "7 ", "7a", "a7", "\u{0667}",
        "18446744073709551615", "18446744073709551616", "99999999999999999999999",
        "00000000000000000000000000042",
    ] {
        assert_eq!(parse_u64(text), text.parse::<u64>().ok(), "{text:?}");
    }
    for number in [0u64, 1, 9, 10, 99, 12345, u64::MAX] {
        assert_eq!(parse_u64(&decimal(number as u128)), Some(number));
    }
}

#[test]
fn full_queues_keep_the_first_records_and_count_the_rest() {
    // Three records are queued, seven more arrive, and there is space for five.
    let (tx, rx) = sync_channel(5);
    let mut dropped: u64 = 0;
    for n in 0..10u64 {
        let offer = match tx.try_send(Value::from(n)) {
            Ok(()) => Offer::Queued,
            Err(TrySendError::Full(_)) => Offer::Full,
            Err(TrySendError::Disconnected(_)) => Offer::Disconnected,
        };
        dropped += dropped_by(offer);
    }
    let queued: Vec<Value> = rx.try_iter().collect();
    assert_eq!(queued, (0..5u64).map(Value::from).collect::<Vec<_>>());
    assert_eq!(dropped, 5);
}
