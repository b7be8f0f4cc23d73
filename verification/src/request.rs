//! Export requests: the resource that describes this process, and the envelope around records.

use crate::json::{
    array_value, json_of, json_text, jsons_of, object_value, text_value, value_text, Json,
};
use crate::record::{attribute, attribute_json, string, string_json};
use crate::text::{hex, hex_is_fixed_width, hex_tells_numbers_apart, hex_text};
use serde_json::Value;
use std::collections::hash_map::{DefaultHasher, RandomState};
use std::hash::{BuildHasher, Hasher};
use vstd::prelude::*;

verus! {

/// What names the build that is running.
#[derive(Debug)]
pub struct Build {
    /// The description of the source tree by version control.
    pub describe: String,
    /// The version of the package.
    pub version: String,
}

/// The digits of an instance identifier.
pub const INSTANCE_ID_DIGITS: usize = 16;

/// The identifier written for a random number.
pub open spec fn instance_id_text(id: u64) -> Seq<char> {
    hex_text(id as nat, INSTANCE_ID_DIGITS as nat)
}

/// The attributes of the resource that describes a process.
pub open spec fn resource_attributes(build: Build, instance: Seq<char>) -> Seq<Json> {
    seq![
        attribute_json("service.name"@, string_json("florestad"@)),
        attribute_json("service.version"@, string_json(build.describe@)),
        attribute_json("service.instance.id"@, string_json(instance)),
        attribute_json("telemetry.sdk.name"@, string_json("florestad-otlp"@)),
        attribute_json("telemetry.sdk.language"@, string_json("rust"@)),
        attribute_json("telemetry.sdk.version"@, string_json(build.version@)),
    ]
}

/// The resource that describes a process.
pub open spec fn resource_json(build: Build, instance: Seq<char>) -> Json {
    Json::Object(map!["attributes"@ => Json::Array(resource_attributes(build, instance))])
}

/// The scope that records are sent under.
pub open spec fn scope_json(version: Seq<char>) -> Json {
    Json::Object(map!["name"@ => Json::Text("florestad"@), "version"@ => Json::Text(version)])
}

/// The `ExportLogsServiceRequest` for records.
pub open spec fn payload_json(resource: Json, version: Seq<char>, records: Seq<Json>) -> Json {
    Json::Object(
        map![
            "resourceLogs"@ => Json::Array(seq![Json::Object(map![
                "resource"@ => resource,
                "scopeLogs"@ => Json::Array(seq![Json::Object(map![
                    "scope"@ => scope_json(version),
                    "logRecords"@ => Json::Array(records),
                ])]),
            ])]),
        ],
    )
}

/// `RandomState::new`: keys picked at random, so nothing is known of them.
pub assume_specification[ RandomState::new ]() -> RandomState;

/// `BuildHasher::build_hasher` of `RandomState`: a hasher under the random keys, so nothing is
/// known of what it will give.
pub assume_specification[ <RandomState as BuildHasher>::build_hasher ](
    state: &RandomState,
) -> DefaultHasher;

/// Writes a number as an instance identifier.
pub fn instance_id_from(id: u64) -> (text: String)
    ensures
        text@ == instance_id_text(id),
{
    hex(id, INSTANCE_ID_DIGITS)
}

/// A random identifier for this process, so that several nodes sharing a collector stay apart.
pub fn instance_id() -> (text: String)
    ensures
        exists|id: u64| text@ == instance_id_text(id),
{
    let id: u64 = RandomState::new().build_hasher().finish();
    instance_id_from(id)
}

/// The resource of the process with the given identifier.
pub fn resource_from(build: &Build, instance: &str) -> (resource: Value)
    ensures
        json_of(resource) == resource_json(*build, instance@),
{
    let attributes = vec![
        attribute("service.name", string("florestad")),
        attribute("service.version", string(build.describe.as_str())),
        attribute("service.instance.id", string(instance)),
        attribute("telemetry.sdk.name", string("florestad-otlp")),
        attribute("telemetry.sdk.language", string("rust")),
        attribute("telemetry.sdk.version", string(build.version.as_str())),
    ];
    assert(jsons_of(attributes@) =~= resource_attributes(*build, instance@));
    let mut members = serde_json::Map::new();
    let _ = members.insert("attributes".to_owned(), array_value(attributes));
    object_value(members)
}

/// The resource describing this process, under a random identifier; sent with every export.
pub fn resource(build: &Build) -> (resource: Value)
    ensures
        exists|id: u64| json_of(resource) == resource_json(*build, instance_id_text(id)),
{
    resource_from(build, instance_id().as_str())
}

/// Wraps records in the `ExportLogsServiceRequest` envelope.
pub fn payload(resource: &Value, version: &str, records: &[Value]) -> (request: Value)
    ensures
        json_of(request) == payload_json(json_of(*resource), version@, jsons_of(records@)),
{
    let mut copies: Vec<Value> = Vec::new();
    let mut at: usize = 0;
    while at < records.len()
        invariant
            at <= records@.len(),
            jsons_of(copies@) == jsons_of(records@.take(at as int)),
        decreases records@.len() - at,
    {
        let ghost before = copies@;
        let copy = records[at].clone();
        copies.push(copy);
        assert(jsons_of(copies@) =~= jsons_of(before).push(json_of(copy)));
        assert(jsons_of(records@.take(at + 1)) =~= jsons_of(records@.take(at as int)).push(
            json_of(records@[at as int]),
        ));
        at = at + 1;
    }
    assert(records@.take(at as int) =~= records@);

    let mut scope = serde_json::Map::new();
    let _ = scope.insert("name".to_owned(), text_value("florestad"));
    let _ = scope.insert("version".to_owned(), text_value(version));

    let mut scope_logs = serde_json::Map::new();
    let _ = scope_logs.insert("scope".to_owned(), object_value(scope));
    let _ = scope_logs.insert("logRecords".to_owned(), array_value(copies));
    let scopes = vec![object_value(scope_logs)];
    assert(jsons_of(scopes@) =~= seq![json_of(scopes@[0])]);

    let mut resource_logs = serde_json::Map::new();
    let _ = resource_logs.insert("resource".to_owned(), resource.clone());
    let _ = resource_logs.insert("scopeLogs".to_owned(), array_value(scopes));
    let resources = vec![object_value(resource_logs)];
    assert(jsons_of(resources@) =~= seq![json_of(resources@[0])]);

    let mut members = serde_json::Map::new();
    let _ = members.insert("resourceLogs".to_owned(), array_value(resources));
    object_value(members)
}

/// The body of the request that exports records.
pub fn request_body(resource: &Value, version: &str, records: &[Value]) -> (body: String)
    ensures
        body@ == json_text(payload_json(json_of(*resource), version@, jsons_of(records@))),
{
    value_text(&payload(resource, version, records))
}

/// Every instance identifier is sixteen lowercase hexadecimal digits.
pub proof fn instance_ids_have_one_form(id: u64)
    ensures
        instance_id_text(id).len() == INSTANCE_ID_DIGITS,
        forall|i: int|
            0 <= i < INSTANCE_ID_DIGITS ==> {
                let c = #[trigger] instance_id_text(id)[i];
                ('0' <= c && c <= '9') || ('a' <= c && c <= 'f')
            },
{
    hex_is_fixed_width(id as nat, INSTANCE_ID_DIGITS as nat);
}

/// Processes that drew different numbers have different identifiers.
pub proof fn instance_ids_stay_apart(id: u64, other: u64)
    requires
        id != other,
    ensures
        instance_id_text(id) != instance_id_text(other),
{
    assert(vstd::arithmetic::power::pow(16, 16) == 0x1_0000_0000_0000_0000) by {
        reveal_with_fuel(vstd::arithmetic::power::pow, 17);
    }
    if instance_id_text(id) == instance_id_text(other) {
        hex_tells_numbers_apart(id as nat, other as nat, INSTANCE_ID_DIGITS as nat);
    }
}

/// The only entry that a request has for a resource.
pub open spec fn resource_logs(request: Json) -> Json {
    request.member("resourceLogs"@).item(0)
}

/// The records that a request carries.
pub open spec fn log_records(request: Json) -> Json {
    resource_logs(request).member("scopeLogs"@).item(0).member("logRecords"@)
}

/// Every request carries its resource and its records, unchanged.
pub proof fn requests_carry_resource_and_records(
    resource: Json,
    version: Seq<char>,
    records: Seq<Json>,
)
    ensures
        resource_logs(payload_json(resource, version, records)).member("resource"@) == resource,
        log_records(payload_json(resource, version, records)) == Json::Array(records),
{
    reveal_strlit("resource");
    reveal_strlit("scopeLogs");
    reveal_strlit("scope");
    reveal_strlit("logRecords");
    assert("resource"@.len() != "scopeLogs"@.len());
    assert("scope"@.len() != "logRecords"@.len());
}

/// Every request names the service, its version, the instance and the exporter.
pub proof fn requests_carry_identity(
    build: Build,
    instance: Seq<char>,
    version: Seq<char>,
    records: Seq<Json>,
)
    ensures
        ({
            let request = payload_json(resource_json(build, instance), version, records);
            let attributes = resource_logs(request).member("resource"@).member("attributes"@);
            &&& attributes == Json::Array(resource_attributes(build, instance))
            &&& attributes.item(0) == attribute_json(
                "service.name"@,
                string_json("florestad"@),
            )
            &&& attributes.item(1) == attribute_json(
                "service.version"@,
                string_json(build.describe@),
            )
            &&& attributes.item(2) == attribute_json(
                "service.instance.id"@,
                string_json(instance),
            )
            &&& attributes.item(3) == attribute_json(
                "telemetry.sdk.name"@,
                string_json("florestad-otlp"@),
            )
        }),
{
    requests_carry_resource_and_records(resource_json(build, instance), version, records);
}

/// A request holds one entry, which holds the resource and one more entry, which holds the scope
/// and the records, all of them and in order. There is nothing else in it.
pub proof fn requests_wrap_all_records(
    resource: &Value,
    version: &str,
    records: &[Value],
    request: Value,
)
    requires
        call_ensures(payload, (resource, version, records), request),
    ensures
        ({
            let outer = json_of(request).member("resourceLogs"@);
            let entry = outer.item(0);
            let inner = entry.member("scopeLogs"@);
            let scoped = inner.item(0);
            let carried = scoped.member("logRecords"@);
            &&& json_of(request)->Object_0.dom() == set!["resourceLogs"@]
            &&& outer is Array && outer->Array_0.len() == 1
            &&& entry->Object_0.dom() == set!["resource"@, "scopeLogs"@]
            &&& entry.member("resource"@) == json_of(*resource)
            &&& inner is Array && inner->Array_0.len() == 1
            &&& scoped->Object_0.dom() == set!["scope"@, "logRecords"@]
            &&& scoped.member("scope"@) == Json::Object(
                map!["name"@ => Json::Text("florestad"@), "version"@ => Json::Text(version@)],
            )
            &&& carried is Array && carried->Array_0.len() == records@.len()
            &&& forall|i: int|
                0 <= i < records@.len() ==> #[trigger] carried->Array_0[i] == json_of(records@[i])
        }),
{
    requests_carry_resource_and_records(json_of(*resource), version@, jsons_of(records@));
    let outer = json_of(request).member("resourceLogs"@);
    let entry = outer.item(0);
    let scoped = entry.member("scopeLogs"@).item(0);
    assert("scope"@.len() != "logRecords"@.len()) by {
        reveal_strlit("scope");
        reveal_strlit("logRecords");
    }
    assert("resource"@.len() != "scopeLogs"@.len()) by {
        reveal_strlit("resource");
        reveal_strlit("scopeLogs");
    }
    assert(json_of(request)->Object_0.dom() =~= set!["resourceLogs"@]);
    assert(entry->Object_0.dom() =~= set!["resource"@, "scopeLogs"@]);
    assert(scoped->Object_0.dom() =~= set!["scope"@, "logRecords"@]);
}

/// The body of a request is the text of the request, and nothing else.
pub proof fn bodies_are_requests_as_text(
    resource: &Value,
    version: &str,
    records: &[Value],
    request: Value,
    body: String,
)
    requires
        call_ensures(payload, (resource, version, records), request),
        call_ensures(request_body, (resource, version, records), body),
    ensures
        body@ == json_text(json_of(request)),
{
}

/// A resource has six attributes, which name the service, its build, the instance and the exporter.
pub proof fn resources_have_six_attributes(
    build: &Build,
    instance: &str,
    resource: Value,
    keys: Seq<Seq<char>>,
    values: Seq<Seq<char>>,
)
    requires
        call_ensures(resource_from, (build, instance), resource),
        keys == seq![
            "service.name"@,
            "service.version"@,
            "service.instance.id"@,
            "telemetry.sdk.name"@,
            "telemetry.sdk.language"@,
            "telemetry.sdk.version"@,
        ],
        values == seq![
            "florestad"@,
            build.describe@,
            instance@,
            "florestad-otlp"@,
            "rust"@,
            build.version@,
        ],
    ensures
        json_of(resource)->Object_0.dom() == set!["attributes"@],
        ({
            let attributes = json_of(resource).member("attributes"@);
            &&& attributes is Array && attributes->Array_0.len() == 6
            &&& forall|i: int|
                0 <= i < 6 ==> #[trigger] attributes->Array_0[i] == Json::Object(
                    map![
                        "key"@ => Json::Text(keys[i]),
                        "value"@ => Json::Object(map!["stringValue"@ => Json::Text(values[i])]),
                    ],
                )
        }),
{
    assert(json_of(resource)->Object_0.dom() =~= set!["attributes"@]);
    let attributes = json_of(resource).member("attributes"@)->Array_0;
    assert forall|i: int| 0 <= i < 6 implies #[trigger] attributes[i] == Json::Object(
        map![
            "key"@ => Json::Text(keys[i]),
            "value"@ => Json::Object(map!["stringValue"@ => Json::Text(values[i])]),
        ],
    ) by {
        assert(i == 0 || i == 1 || i == 2 || i == 3 || i == 4 || i == 5);
    }
}

/// The resource of this process is the resource under some identifier of one number. This gives
/// the number.
pub proof fn resources_carry_one_identifier(build: &Build, found: Value) -> (id: u64)
    requires
        call_ensures(resource, (build,), found),
    ensures
        forall|instance: &str, text: String, same: Value|
            #![trigger call_ensures(instance_id_from, (id,), text), call_ensures(
                resource_from,
                (build, instance),
                same,
            )]
            call_ensures(instance_id_from, (id,), text) && instance@ == text@ && call_ensures(
                resource_from,
                (build, instance),
                same,
            ) ==> json_of(found) == json_of(same),
{
    choose|id: u64| json_of(found) == resource_json(*build, instance_id_text(id))
}

/// An identifier is the sixteen hexadecimal digits of its number.
pub proof fn identifiers_are_sixteen_digits(id: u64, text: String, digits: String)
    requires
        call_ensures(instance_id_from, (id,), text),
        call_ensures(hex, (id, 16usize), digits),
    ensures
        text@ == digits@,
        text@.len() == 16,
{
    instance_ids_have_one_form(id);
}

/// The identifier of a process is sixteen lowercase hexadecimal digits, whatever number it drew.
pub proof fn processes_are_named_by_sixteen_digits(text: String)
    requires
        call_ensures(instance_id, (), text),
    ensures
        text@.len() == 16,
        forall|i: int|
            0 <= i < 16 ==> {
                let c = #[trigger] text@[i];
                ('0' <= c && c <= '9') || ('a' <= c && c <= 'f')
            },
{
    let id = choose|id: u64| text@ == instance_id_text(id);
    instance_ids_have_one_form(id);
}

}
