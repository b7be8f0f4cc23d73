//! Log events and the OTLP log records they become.

use crate::json::{
    array_value, bool_value, json_of, jsons_of, number_value, object_value, text_value, Json,
};
use crate::text::{
    decimal, decimal_reads_back, decimal_text, digits_value, optional_string, same_text,
    signed_decimal, signed_decimal_text,
};
use serde_json::Value;
use vstd::prelude::*;

verus! {

/// How grave an event is.
#[derive(Debug, Clone, Copy, PartialEq, Eq, Structural)]
pub enum Level {
    Trace,
    Debug,
    Info,
    Warn,
    Error,
}

/// The value of an event's field.
pub enum FieldValue {
    Str(String),
    Int(i64),
    Unsigned(u64),
    Bool(bool),
    /// A floating-point number, as the JSON number that stands for it (`null` if none does).
    Double(Value),
    /// Any other value, as its debug text.
    Debug(String),
}

/// One log event: where and how grave, and its fields in the order they were given.
pub struct LogEvent {
    pub target: String,
    pub level: Level,
    pub file: Option<String>,
    pub line: Option<u32>,
    pub fields: Vec<(String, FieldValue)>,
}

/// The name of the field that becomes the body of a record.
pub const MESSAGE_FIELD: &'static str = "message";

/// An OTLP `AnyValue` that holds `value` under `kind`.
pub open spec fn any_value_json(kind: Seq<char>, value: Json) -> Json {
    Json::Object(map![kind => value])
}

/// An OTLP `AnyValue` that holds a string.
pub open spec fn string_json(value: Seq<char>) -> Json {
    any_value_json("stringValue"@, Json::Text(value))
}

/// An OTLP `AnyValue` that holds a 64-bit integer, as decimal text.
pub open spec fn int_json(value: i64) -> Json {
    any_value_json("intValue"@, Json::Text(signed_decimal_text(value as int)))
}

/// An OTLP `AnyValue` that holds a boolean.
pub open spec fn bool_json(value: bool) -> Json {
    any_value_json("boolValue"@, Json::Bool(value))
}

/// An OTLP `AnyValue` that holds a double.
pub open spec fn double_json(value: Json) -> Json {
    any_value_json("doubleValue"@, value)
}

/// An OTLP `KeyValue`.
pub open spec fn attribute_json(key: Seq<char>, value: Json) -> Json {
    Json::Object(map!["key"@ => Json::Text(key), "value"@ => value])
}

/// The OTLP value of a field. An unsigned number beyond `i64` is sent as a string.
pub open spec fn field_json(value: FieldValue) -> Json {
    match value {
        FieldValue::Str(text) => string_json(text@),
        FieldValue::Int(number) => int_json(number),
        FieldValue::Unsigned(number) => if number <= i64::MAX {
            int_json(number as i64)
        } else {
            string_json(decimal_text(number as nat))
        },
        FieldValue::Bool(flag) => bool_json(flag),
        FieldValue::Double(number) => double_json(json_of(number)),
        FieldValue::Debug(text) => string_json(text@),
    }
}

/// The body that fields give a record: the value of the last one named `message`.
pub open spec fn fields_body(fields: Seq<(String, FieldValue)>) -> Option<Json>
    decreases fields.len(),
{
    if fields.len() == 0 {
        None
    } else if fields.last().0@ == MESSAGE_FIELD@ {
        Some(field_json(fields.last().1))
    } else {
        fields_body(fields.drop_last())
    }
}

/// The attributes that fields give a record: one for each field not named `message`, in order.
pub open spec fn fields_attributes(fields: Seq<(String, FieldValue)>) -> Seq<Json>
    decreases fields.len(),
{
    if fields.len() == 0 {
        Seq::empty()
    } else {
        let before = fields_attributes(fields.drop_last());
        if fields.last().0@ == MESSAGE_FIELD@ {
            before
        } else {
            before.push(attribute_json(fields.last().0@, field_json(fields.last().1)))
        }
    }
}

/// The attributes that the place of an event in the source code gives its record.
pub open spec fn code_attributes(file: Option<Seq<char>>, line: Option<u32>) -> Seq<Json> {
    (match file {
        Some(file) => seq![attribute_json("code.file.path"@, string_json(file))],
        None => Seq::empty(),
    }) + (match line {
        Some(line) => seq![attribute_json("code.line.number"@, int_json(line as i64))],
        None => Seq::empty(),
    })
}

/// All attributes of an event's record: its target, its fields, its place in the source code.
pub open spec fn event_attributes(event: LogEvent) -> Seq<Json> {
    seq![attribute_json("target"@, string_json(event.target@))] + fields_attributes(event.fields@)
        + code_attributes(optional_string(event.file), event.line)
}

/// The body of an event's record, an empty string if the event has no message.
pub open spec fn event_body(event: LogEvent) -> Json {
    match fields_body(event.fields@) {
        Some(body) => body,
        None => string_json(Seq::empty()),
    }
}

/// The OpenTelemetry severity number of a level.
pub open spec fn severity_number(level: Level) -> u8 {
    match level {
        Level::Trace => 1,
        Level::Debug => 5,
        Level::Info => 9,
        Level::Warn => 13,
        Level::Error => 17,
    }
}

/// The OpenTelemetry severity text of a level.
pub open spec fn severity_text(level: Level) -> Seq<char> {
    match level {
        Level::Trace => "TRACE"@,
        Level::Debug => "DEBUG"@,
        Level::Info => "INFO"@,
        Level::Warn => "WARN"@,
        Level::Error => "ERROR"@,
    }
}

/// The OTLP `LogRecord` of an event seen `nanos` nanoseconds after the Unix epoch.
pub open spec fn log_record_json(event: LogEvent, nanos: nat) -> Json {
    Json::Object(
        map![
            "timeUnixNano"@ => Json::Text(decimal_text(nanos)),
            "observedTimeUnixNano"@ => Json::Text(decimal_text(nanos)),
            "severityNumber"@ => Json::Unsigned(severity_number(event.level) as u64),
            "severityText"@ => Json::Text(severity_text(event.level)),
            "body"@ => event_body(event),
            "attributes"@ => Json::Array(event_attributes(event)),
        ],
    )
}

/// The OpenTelemetry severity number and text for a level.
pub fn severity(level: Level) -> (severity: (u8, &'static str))
    ensures
        severity.0 == severity_number(level),
        severity.1@ == severity_text(level),
{
    match level {
        Level::Trace => (1, "TRACE"),
        Level::Debug => (5, "DEBUG"),
        Level::Info => (9, "INFO"),
        Level::Warn => (13, "WARN"),
        Level::Error => (17, "ERROR"),
    }
}

/// An object with a single member.
fn single(key: &str, value: Value) -> (object: Value)
    ensures
        json_of(object) == Json::Object(map![key@ => json_of(value)]),
{
    let mut members = serde_json::Map::new();
    let _ = members.insert(key.to_owned(), value);
    object_value(members)
}

/// An OTLP `KeyValue`.
pub fn attribute(key: &str, value: Value) -> (attribute: Value)
    ensures
        json_of(attribute) == attribute_json(key@, json_of(value)),
{
    let mut members = serde_json::Map::new();
    let _ = members.insert("key".to_owned(), text_value(key));
    let _ = members.insert("value".to_owned(), value);
    object_value(members)
}

/// An OTLP `AnyValue` that holds a string.
pub fn string(value: &str) -> (any: Value)
    ensures
        json_of(any) == string_json(value@),
{
    single("stringValue", text_value(value))
}

/// An OTLP `AnyValue` that holds a 64-bit integer, which the JSON mapping writes as a string.
pub fn integer(value: i64) -> (any: Value)
    ensures
        json_of(any) == int_json(value),
{
    single("intValue", text_value(signed_decimal(value).as_str()))
}

/// An OTLP `AnyValue` that holds a boolean.
pub fn boolean(value: bool) -> (any: Value)
    ensures
        json_of(any) == bool_json(value),
{
    single("boolValue", bool_value(value))
}

/// An OTLP `AnyValue` that holds a double, given as a JSON number.
pub fn double(value: Value) -> (any: Value)
    ensures
        json_of(any) == double_json(json_of(value)),
{
    single("doubleValue", value)
}

/// Collects the fields of an event: `message` becomes the body, everything else an attribute.
pub struct Fields {
    pub body: Option<Value>,
    pub attributes: Vec<Value>,
}

impl Fields {
    /// What the body holds, if there is one.
    pub open spec fn body_json(self) -> Option<Json> {
        match self.body {
            Some(body) => Some(json_of(body)),
            None => None,
        }
    }

    /// What the attributes hold.
    pub open spec fn attributes_json(self) -> Seq<Json> {
        jsons_of(self.attributes@)
    }

    /// `self` is `before` with one more field.
    pub open spec fn extends(self, before: Fields, name: Seq<char>, value: Json) -> bool {
        if name == MESSAGE_FIELD@ {
            &&& self.body_json() == Some(value)
            &&& self.attributes_json() == before.attributes_json()
        } else {
            &&& self.body_json() == before.body_json()
            &&& self.attributes_json() == before.attributes_json().push(
                attribute_json(name, value),
            )
        }
    }

    /// Takes in a field whose OTLP value is `value`.
    pub fn push(&mut self, name: &str, value: Value)
        ensures
            final(self).extends(*old(self), name@, json_of(value)),
    {
        if same_text(name, MESSAGE_FIELD) {
            self.body = Some(value);
        } else {
            self.add(attribute(name, value));
        }
    }

    /// Appends an attribute.
    fn add(&mut self, attribute: Value)
        ensures
            final(self).body_json() == old(self).body_json(),
            final(self).attributes_json() == old(self).attributes_json().push(json_of(attribute)),
    {
        self.attributes.push(attribute);
        assert(self.attributes_json() =~= old(self).attributes_json().push(json_of(attribute)));
    }

    /// Takes in a field with a string.
    pub fn record_str(&mut self, name: &str, value: &str)
        ensures
            final(self).extends(*old(self), name@, string_json(value@)),
    {
        self.push(name, string(value));
    }

    /// Takes in a field with a signed number.
    pub fn record_i64(&mut self, name: &str, value: i64)
        ensures
            final(self).extends(*old(self), name@, int_json(value)),
    {
        self.push(name, integer(value));
    }

    /// Takes in a field with an unsigned number: as an integer if it fits in an `i64`, else as a
    /// string.
    pub fn record_u64(&mut self, name: &str, value: u64)
        ensures
            value <= i64::MAX ==> final(self).extends(*old(self), name@, int_json(value as i64)),
            value > i64::MAX ==> final(self).extends(
                *old(self),
                name@,
                string_json(decimal_text(value as nat)),
            ),
    {
        if value <= i64::MAX as u64 {
            self.push(name, integer(value as i64));
        } else {
            self.push(name, string(decimal(value as u128).as_str()));
        }
    }

    /// Takes in a field with a floating-point number, given as a JSON number.
    pub fn record_f64(&mut self, name: &str, value: Value)
        ensures
            final(self).extends(*old(self), name@, double_json(json_of(value))),
    {
        self.push(name, double(value));
    }

    /// Takes in a field with a boolean.
    pub fn record_bool(&mut self, name: &str, value: bool)
        ensures
            final(self).extends(*old(self), name@, bool_json(value)),
    {
        self.push(name, boolean(value));
    }

    /// Takes in a field with any other value, given as its debug text.
    pub fn record_debug(&mut self, name: &str, value: &str)
        ensures
            final(self).extends(*old(self), name@, string_json(value@)),
    {
        self.push(name, string(value));
    }

    /// Takes in a field of an event.
    pub fn record(&mut self, name: &str, value: &FieldValue)
        ensures
            final(self).extends(*old(self), name@, field_json(*value)),
    {
        match value {
            FieldValue::Str(text) => self.record_str(name, text.as_str()),
            FieldValue::Int(number) => self.record_i64(name, *number),
            FieldValue::Unsigned(number) => self.record_u64(name, *number),
            FieldValue::Bool(flag) => self.record_bool(name, *flag),
            FieldValue::Double(number) => self.record_f64(name, number.clone()),
            FieldValue::Debug(text) => self.record_debug(name, text.as_str()),
        }
    }
}

/// Builds the OTLP `LogRecord` of an event seen `since_epoch` nanoseconds after the Unix epoch; a
/// clock that is before the epoch counts as at it.
pub fn log_record(event: &LogEvent, since_epoch: Option<u128>) -> (record: Value)
    ensures
        json_of(record) == log_record_json(
            *event,
            match since_epoch {
                Some(nanos) => nanos as nat,
                None => 0,
            },
        ),
{
    let nanos: u128 = match since_epoch {
        Some(nanos) => nanos,
        None => 0,
    };
    // The JSON mapping of Protobuf writes 64-bit integers as strings.
    let time = decimal(nanos);

    let mut fields = Fields {
        body: None,
        attributes: vec![attribute("target", string(event.target.as_str()))],
    };
    let ghost target = seq![attribute_json("target"@, string_json(event.target@))];
    assert(fields.attributes_json() =~= target);
    assert(event.fields@.take(0) =~= Seq::empty());
    let mut at: usize = 0;
    while at < event.fields.len()
        invariant
            at <= event.fields@.len(),
            fields.body_json() == fields_body(event.fields@.take(at as int)),
            fields.attributes_json() == target + fields_attributes(event.fields@.take(at as int)),
        decreases event.fields@.len() - at,
    {
        proof {
            assert(event.fields@.take(at + 1).drop_last() =~= event.fields@.take(at as int));
        }
        fields.record(event.fields[at].0.as_str(), &event.fields[at].1);
        at = at + 1;
        assert(fields.attributes_json() =~= target + fields_attributes(
            event.fields@.take(at as int),
        ));
    }
    assert(event.fields@.take(at as int) =~= event.fields@);

    let ghost recorded = fields.attributes_json();
    if let Some(file) = &event.file {
        fields.add(attribute("code.file.path", string(file.as_str())));
    }
    if let Some(line) = event.line {
        fields.add(attribute("code.line.number", integer(line as i64)));
    }
    assert(fields.attributes_json() =~= recorded + code_attributes(
        optional_string(event.file),
        event.line,
    ));
    assert(fields.attributes_json() =~= event_attributes(*event));

    let (severity_number, severity_text) = severity(event.level);
    let body = match fields.body {
        Some(body) => body,
        None => {
            proof {
                reveal_strlit("");
                assert(""@ =~= Seq::<char>::empty());
            }
            string("")
        },
    };
    let mut members = serde_json::Map::new();
    let _ = members.insert("timeUnixNano".to_owned(), text_value(time.as_str()));
    let _ = members.insert("observedTimeUnixNano".to_owned(), text_value(time.as_str()));
    let _ = members.insert("severityNumber".to_owned(), number_value(severity_number as u64));
    let _ = members.insert("severityText".to_owned(), text_value(severity_text));
    let _ = members.insert("body".to_owned(), body);
    let _ = members.insert("attributes".to_owned(), array_value(fields.attributes));
    object_value(members)
}

/// The graver the level, the higher its severity number.
pub proof fn severity_follows_gravity()
    ensures
        severity_number(Level::Trace) < severity_number(Level::Debug) < severity_number(
            Level::Info,
        ) < severity_number(Level::Warn) < severity_number(Level::Error),
{
}

/// A record says twice when its event was seen, as text, since 64-bit integers are no JSON
/// numbers; its severity is a number.
pub proof fn records_carry_time_and_severity(event: LogEvent, nanos: nat)
    ensures
        ({
            let record = log_record_json(event, nanos);
            &&& record.member("timeUnixNano"@) == Json::Text(decimal_text(nanos))
            &&& record.member("observedTimeUnixNano"@) == record.member("timeUnixNano"@)
            &&& record.member("severityNumber"@) == Json::Unsigned(
                severity_number(event.level) as u64,
            )
            &&& record.member("severityText"@) == Json::Text(severity_text(event.level))
        }),
{
    lemma_record_members();
}

/// A record has its event's message for a body, and all else about the event for attributes.
pub proof fn records_carry_the_event(event: LogEvent, nanos: nat)
    ensures
        ({
            let record = log_record_json(event, nanos);
            &&& record.member("body"@) == event_body(event)
            &&& record.member("attributes"@) == Json::Array(event_attributes(event))
        }),
{
    lemma_record_members();
}

/// The members of a record have different names.
proof fn lemma_record_members()
    ensures
        "timeUnixNano"@.len() == 12,
        "observedTimeUnixNano"@.len() == 20,
        "severityNumber"@.len() == 14,
        "severityText"@.len() == 12,
        "severityText"@[0] != "timeUnixNano"@[0],
        "body"@.len() == 4,
        "attributes"@.len() == 10,
{
    reveal_strlit("timeUnixNano");
    reveal_strlit("observedTimeUnixNano");
    reveal_strlit("severityNumber");
    reveal_strlit("severityText");
    reveal_strlit("body");
    reveal_strlit("attributes");
}

/// Every field but the messages is an attribute of its own: none is lost, and none is made up.
pub proof fn fields_become_attributes(fields: Seq<(String, FieldValue)>)
    ensures
        fields_attributes(fields).len() == fields.filter(
            |field: (String, FieldValue)| field.0@ != MESSAGE_FIELD@,
        ).len(),
        forall|i: int|
            #![trigger fields[i]]
            0 <= i < fields.len() && fields[i].0@ != MESSAGE_FIELD@ ==> fields_attributes(
                fields,
            ).contains(attribute_json(fields[i].0@, field_json(fields[i].1))),
    decreases fields.len(),
{
    reveal_with_fuel(Seq::filter, 1);
    if fields.len() > 0 {
        let before = fields.drop_last();
        fields_become_attributes(before);
        assert forall|i: int|
            #![trigger fields[i]]
            0 <= i < fields.len() && fields[i].0@ != MESSAGE_FIELD@ implies fields_attributes(
            fields,
        ).contains(attribute_json(fields[i].0@, field_json(fields[i].1))) by {
            let attribute = attribute_json(fields[i].0@, field_json(fields[i].1));
            if i < fields.len() - 1 {
                assert(before[i] == fields[i]);
                let at = choose|at: int|
                    0 <= at < fields_attributes(before).len() && fields_attributes(before)[at]
                        == attribute;
                assert(fields_attributes(fields)[at] == attribute);
            } else {
                assert(fields_attributes(fields).last() == attribute);
            }
        }
    }
}

/// Each kind of field keeps its value: it is the only member of an object, under the name of the
/// kind. Numbers are written as text, and those beyond `i64` go as strings.
pub proof fn values_keep_kind_and_content(value: FieldValue, written: String)
    requires
        value matches FieldValue::Int(number) ==> call_ensures(
            signed_decimal,
            (number,),
            written,
        ),
        value matches FieldValue::Unsigned(number) ==> call_ensures(
            decimal,
            (number as u128,),
            written,
        ),
    ensures
        field_json(value) == Json::Object(
            match value {
                FieldValue::Str(text) => map!["stringValue"@ => Json::Text(text@)],
                FieldValue::Int(_) => map!["intValue"@ => Json::Text(written@)],
                FieldValue::Unsigned(number) => if number <= 0x7fff_ffff_ffff_ffff {
                    map!["intValue"@ => Json::Text(written@)]
                } else {
                    map!["stringValue"@ => Json::Text(written@)]
                },
                FieldValue::Bool(flag) => map!["boolValue"@ => Json::Bool(flag)],
                FieldValue::Double(number) => map!["doubleValue"@ => json_of(number)],
                FieldValue::Debug(text) => map!["stringValue"@ => Json::Text(text@)],
            },
        ),
{
}

/// Booleans, texts and numbers that differ give records that differ.
pub proof fn values_are_told_apart(
    flag: bool,
    other_flag: bool,
    text: String,
    other_text: String,
    number: i64,
    other_number: i64,
)
    ensures
        field_json(FieldValue::Bool(flag)) == field_json(FieldValue::Bool(other_flag)) ==> flag
            == other_flag,
        field_json(FieldValue::Str(text)) == field_json(FieldValue::Str(other_text)) ==> text@
            == other_text@,
        field_json(FieldValue::Debug(text)) == field_json(FieldValue::Debug(other_text)) ==> text@
            == other_text@,
        field_json(FieldValue::Int(number)) == field_json(FieldValue::Int(other_number)) ==> number
            == other_number,
{
    if field_json(FieldValue::Bool(flag)) == field_json(FieldValue::Bool(other_flag)) {
        assert(bool_json(flag).member("boolValue"@) == bool_json(other_flag).member("boolValue"@));
    }
    if string_json(text@) == string_json(other_text@) {
        assert(string_json(text@).member("stringValue"@) == string_json(other_text@).member(
            "stringValue"@,
        ));
    }
    if field_json(FieldValue::Int(number)) == field_json(FieldValue::Int(other_number)) {
        assert(int_json(number).member("intValue"@) == int_json(other_number).member("intValue"@));
        let written = signed_decimal_text(number as int);
        assert(written == signed_decimal_text(other_number as int));
        lemma_signed_reads_back(number as int);
        lemma_signed_reads_back(other_number as int);
    }
}

/// A number that is written down can be read back, sign and digits.
proof fn lemma_signed_reads_back(number: int)
    ensures
        number >= 0 ==> digits_value(signed_decimal_text(number)) == Some(number as nat),
        number < 0 ==> signed_decimal_text(number)[0] == '-' && digits_value(
            signed_decimal_text(number).skip(1),
        ) == Some((-number) as nat),
        number >= 0 ==> signed_decimal_text(number)[0] != '-',
{
    if number < 0 {
        decimal_reads_back((-number) as nat);
        assert(signed_decimal_text(number).skip(1) =~= decimal_text((-number) as nat));
    } else {
        decimal_reads_back(number as nat);
        lemma_first_digit(number as nat);
    }
}

/// A number starts with a digit.
proof fn lemma_first_digit(number: nat)
    ensures
        decimal_text(number).len() > 0,
        '0' <= decimal_text(number)[0] <= '9',
    decreases number,
{
    if number >= 10 {
        lemma_first_digit(number / 10);
        assert(decimal_text(number)[0] == decimal_text(number / 10)[0]);
    }
}

/// The functions that make an OTLP value give an object with one member, named after the kind, and
/// an attribute is an object with a key and a value.
pub proof fn values_have_one_member(
    text: &str,
    text_any: Value,
    number: i64,
    written: String,
    number_any: Value,
    flag: bool,
    flag_any: Value,
    double_value: Value,
    double_any: Value,
    key: &str,
    value: Value,
    key_value: Value,
)
    requires
        call_ensures(string, (text,), text_any),
        call_ensures(signed_decimal, (number,), written),
        call_ensures(integer, (number,), number_any),
        call_ensures(boolean, (flag,), flag_any),
        call_ensures(double, (double_value,), double_any),
        call_ensures(attribute, (key, value), key_value),
    ensures
        json_of(text_any) == Json::Object(map!["stringValue"@ => Json::Text(text@)]),
        json_of(number_any) == Json::Object(map!["intValue"@ => Json::Text(written@)]),
        json_of(flag_any) == Json::Object(map!["boolValue"@ => Json::Bool(flag)]),
        json_of(double_any) == Json::Object(map!["doubleValue"@ => json_of(double_value)]),
        json_of(key_value) == Json::Object(
            map!["key"@ => Json::Text(key@), "value"@ => json_of(value)],
        ),
{
}

/// A field named `message` becomes the body, in place of one that there was, and leaves the
/// attributes alone. Any other becomes one more attribute behind the others, under its name, and
/// leaves the body alone. In either case it is its own value that is taken in.
pub proof fn fields_become_body_or_attribute(
    fields: &mut Fields,
    name: &str,
    value: &FieldValue,
    written: String,
)
    requires
        call_ensures(Fields::record, (fields, name, value), ()),
        *value matches FieldValue::Int(number) ==> call_ensures(
            signed_decimal,
            (number,),
            written,
        ),
        *value matches FieldValue::Unsigned(number) ==> call_ensures(
            decimal,
            (number as u128,),
            written,
        ),
    ensures
        ({
            let before = old(fields).attributes@;
            let after = final(fields).attributes@;
            let taken = Json::Object(
                match *value {
                    FieldValue::Str(text) => map!["stringValue"@ => Json::Text(text@)],
                    FieldValue::Int(_) => map!["intValue"@ => Json::Text(written@)],
                    FieldValue::Unsigned(number) => if number <= 0x7fff_ffff_ffff_ffff {
                        map!["intValue"@ => Json::Text(written@)]
                    } else {
                        map!["stringValue"@ => Json::Text(written@)]
                    },
                    FieldValue::Bool(flag) => map!["boolValue"@ => Json::Bool(flag)],
                    FieldValue::Double(number) => map!["doubleValue"@ => json_of(number)],
                    FieldValue::Debug(text) => map!["stringValue"@ => Json::Text(text@)],
                },
            );
            &&& name@ == "message"@ ==> {
                &&& after.len() == before.len()
                &&& final(fields).body is Some
                &&& json_of(final(fields).body->0) == taken
            }
            &&& name@ != "message"@ ==> {
                &&& after.len() == before.len() + 1
                &&& json_of(after.last()) == Json::Object(
                    map!["key"@ => Json::Text(name@), "value"@ => taken],
                )
                &&& final(fields).body is Some == old(fields).body is Some
                &&& old(fields).body is Some ==> json_of(final(fields).body->0) == json_of(
                    old(fields).body->0,
                )
            }
            &&& forall|i: int|
                0 <= i < before.len() ==> json_of(#[trigger] after[i]) == json_of(before[i])
        }),
{
    values_keep_kind_and_content(*value, written);
    lemma_attributes_kept(*old(fields), *final(fields), name@, field_json(*value));
}

/// The attributes that were there stay, and one more is the last.
proof fn lemma_attributes_kept(before: Fields, after: Fields, name: Seq<char>, value: Json)
    requires
        after.extends(before, name, value),
    ensures
        name == MESSAGE_FIELD@ ==> after.attributes@.len() == before.attributes@.len(),
        name != MESSAGE_FIELD@ ==> after.attributes@.len() == before.attributes@.len() + 1
            && json_of(after.attributes@.last()) == attribute_json(name, value),
        forall|i: int|
            0 <= i < before.attributes@.len() ==> json_of(#[trigger] after.attributes@[i])
                == json_of(before.attributes@[i]),
{
    let old_json = before.attributes_json();
    let new_json = after.attributes_json();
    assert(new_json.len() == after.attributes@.len());
    assert(old_json.len() == before.attributes@.len());
    if name != MESSAGE_FIELD@ {
        assert(new_json[old_json.len() as int] == json_of(
            after.attributes@[old_json.len() as int],
        ));
    }
    assert forall|i: int| 0 <= i < before.attributes@.len() implies json_of(
        #[trigger] after.attributes@[i],
    ) == json_of(before.attributes@[i]) by {
        assert(new_json[i] == json_of(after.attributes@[i]));
        assert(old_json[i] == json_of(before.attributes@[i]));
    }
}

/// Taking in a field means that its value is the body, if it is named `message`, and otherwise that
/// there is one more attribute behind the others. What is not changed holds what it did.
pub proof fn taking_in_changes_one_thing(
    before: Fields,
    after: Fields,
    name: Seq<char>,
    value: Json,
)
    ensures
        after.extends(before, name, value) <==> {
            &&& name == "message"@ ==> after.body is Some && json_of(after.body->0) == value
            &&& name != "message"@ ==> after.body is Some == before.body is Some && (
            before.body is Some ==> json_of(after.body->0) == json_of(before.body->0))
            &&& jsons_of(after.attributes@) == if name == "message"@ {
                jsons_of(before.attributes@)
            } else {
                jsons_of(before.attributes@).push(
                    Json::Object(map!["key"@ => Json::Text(name), "value"@ => value]),
                )
            }
        },
{
}

/// Each of the functions for a kind of field takes in the value that it is given.
pub proof fn fields_of_each_kind_are_taken_in(
    name: &str,
    any: Value,
    any_fields: &mut Fields,
    text: &str,
    text_fields: &mut Fields,
    debug_fields: &mut Fields,
    flag: bool,
    flag_fields: &mut Fields,
    double: Value,
    double_fields: &mut Fields,
)
    requires
        call_ensures(Fields::push, (any_fields, name, any), ()),
        call_ensures(Fields::record_str, (text_fields, name, text), ()),
        call_ensures(Fields::record_debug, (debug_fields, name, text), ()),
        call_ensures(Fields::record_bool, (flag_fields, name, flag), ()),
        call_ensures(Fields::record_f64, (double_fields, name, double), ()),
    ensures
        final(any_fields).extends(*old(any_fields), name@, json_of(any)),
        final(text_fields).extends(
            *old(text_fields),
            name@,
            Json::Object(map!["stringValue"@ => Json::Text(text@)]),
        ),
        final(debug_fields).extends(
            *old(debug_fields),
            name@,
            Json::Object(map!["stringValue"@ => Json::Text(text@)]),
        ),
        final(flag_fields).extends(
            *old(flag_fields),
            name@,
            Json::Object(map!["boolValue"@ => Json::Bool(flag)]),
        ),
        final(double_fields).extends(
            *old(double_fields),
            name@,
            Json::Object(map!["doubleValue"@ => json_of(double)]),
        ),
{
}

/// Numbers are taken in as integers, written as text; an unsigned number as the signed one that is
/// the same, and as a string if there is none.
pub proof fn numbers_are_taken_in(
    name: &str,
    number: i64,
    number_text: String,
    number_fields: &mut Fields,
    unsigned: u64,
    unsigned_text: String,
    unsigned_fields: &mut Fields,
)
    requires
        call_ensures(signed_decimal, (number,), number_text),
        call_ensures(decimal, (unsigned as u128,), unsigned_text),
        call_ensures(Fields::record_i64, (number_fields, name, number), ()),
        call_ensures(Fields::record_u64, (unsigned_fields, name, unsigned), ()),
    ensures
        final(number_fields).extends(
            *old(number_fields),
            name@,
            Json::Object(map!["intValue"@ => Json::Text(number_text@)]),
        ),
        final(unsigned_fields).extends(
            *old(unsigned_fields),
            name@,
            Json::Object(
                map![if unsigned <= 0x7fff_ffff_ffff_ffff {
                    "intValue"@
                } else {
                    "stringValue"@
                } => Json::Text(unsigned_text@)],
            ),
        ),
{
}

/// Severities go up in steps of four, from one, with the gravity of the level, and are called what
/// the level is.
pub proof fn severities_follow_the_levels(level: Level, found: (u8, &'static str))
    requires
        call_ensures(severity, (level,), found),
    ensures
        found.1@ == match level {
            Level::Trace => "TRACE"@,
            Level::Debug => "DEBUG"@,
            Level::Info => "INFO"@,
            Level::Warn => "WARN"@,
            Level::Error => "ERROR"@,
        },
        found.0 == 1 + 4 * match level {
            Level::Trace => 0int,
            Level::Debug => 1,
            Level::Info => 2,
            Level::Warn => 3,
            Level::Error => 4,
        },
{
}

/// A record has six members: twice the time at which its event was seen, in nanoseconds since the
/// Unix epoch and at least zero, number and text of its severity, a body and attributes.
pub proof fn records_have_six_members(
    event: &LogEvent,
    since_epoch: Option<u128>,
    record: Value,
    nanos: u128,
    time: String,
    found: (u8, &'static str),
)
    requires
        call_ensures(log_record, (event, since_epoch), record),
        since_epoch matches Some(since) ==> nanos == since,
        since_epoch is None ==> nanos == 0,
        call_ensures(decimal, (nanos,), time),
        call_ensures(severity, (event.level,), found),
    ensures
        json_of(record) is Object,
        json_of(record)->Object_0.dom() == set![
            "timeUnixNano"@,
            "observedTimeUnixNano"@,
            "severityNumber"@,
            "severityText"@,
            "body"@,
            "attributes"@,
        ],
        json_of(record).member("timeUnixNano"@) == Json::Text(time@),
        json_of(record).member("observedTimeUnixNano"@) == Json::Text(time@),
        json_of(record).member("severityNumber"@) == Json::Unsigned(found.0 as u64),
        json_of(record).member("severityText"@) == Json::Text(found.1@),
{
    lemma_record_members();
    assert(json_of(record)->Object_0.dom() =~= set![
        "timeUnixNano"@,
        "observedTimeUnixNano"@,
        "severityNumber"@,
        "severityText"@,
        "body"@,
        "attributes"@,
    ]);
}

/// The body of a record is the value of the last field named `message`.
pub proof fn bodies_are_the_last_message(
    event: &LogEvent,
    since_epoch: Option<u128>,
    record: Value,
    at: int,
)
    requires
        call_ensures(log_record, (event, since_epoch), record),
        0 <= at < event.fields@.len(),
        event.fields@[at].0@ == "message"@,
        forall|i: int| at < i < event.fields@.len() ==> (#[trigger] event.fields@[i]).0@
            != "message"@,
    ensures
        json_of(record).member("body"@) == field_json(event.fields@[at].1),
{
    lemma_record_members();
    lemma_last_message(event.fields@, at);
}

/// A record without a message has an empty string for a body.
pub proof fn bodies_are_empty_without_a_message(
    event: &LogEvent,
    since_epoch: Option<u128>,
    record: Value,
)
    requires
        call_ensures(log_record, (event, since_epoch), record),
        forall|i: int| 0 <= i < event.fields@.len() ==> (#[trigger] event.fields@[i]).0@
            != "message"@,
    ensures
        json_of(record).member("body"@) == Json::Object(map!["stringValue"@ => Json::Text(""@)]),
{
    lemma_record_members();
    lemma_last_message(event.fields@, -1);
    reveal_strlit("");
    assert(""@ =~= Seq::<char>::empty());
}

/// The last message is the body of the fields; there is none if `at` is before the first.
proof fn lemma_last_message(fields: Seq<(String, FieldValue)>, at: int)
    requires
        -1 <= at < fields.len(),
        at >= 0 ==> fields[at].0@ == "message"@,
        forall|i: int| at < i < fields.len() ==> (#[trigger] fields[i]).0@ != "message"@,
    ensures
        fields_body(fields) == if at >= 0 {
            Some(field_json(fields[at].1))
        } else {
            None
        },
    decreases fields.len(),
{
    if fields.len() > 0 && at < fields.len() - 1 {
        assert(fields.last() == fields[fields.len() - 1]);
        lemma_last_message(fields.drop_last(), at);
    }
}

/// Every field that is no message is an attribute of the record, in its place: behind the target
/// and the fields before it. Behind them come the file and the line, if they are known, and
/// nothing else.
pub proof fn attributes_are_target_fields_and_place(
    event: &LogEvent,
    since_epoch: Option<u128>,
    record: Value,
    attributes: Seq<Json>,
    is_attribute: spec_fn((String, FieldValue)) -> bool,
    line_text: String,
)
    requires
        call_ensures(log_record, (event, since_epoch), record),
        json_of(record).member("attributes"@) is Array ==> attributes == json_of(record).member(
            "attributes"@,
        )->Array_0,
        forall|field: (String, FieldValue)| #[trigger]
            is_attribute(field) <==> field.0@ != "message"@,
        event.line matches Some(line) ==> call_ensures(decimal, (line as u128,), line_text),
    ensures
        json_of(record).member("attributes"@) is Array,
        attributes.len() == 1 + event.fields@.filter(is_attribute).len() + (
        if event.file is Some {
            1int
        } else {
            0int
        }) + (if event.line is Some {
            1int
        } else {
            0int
        }),
        attributes[0] == Json::Object(
            map![
                "key"@ => Json::Text("target"@),
                "value"@ => Json::Object(map!["stringValue"@ => Json::Text(event.target@)]),
            ],
        ),
        forall|i: int|
            #![trigger event.fields@[i]]
            0 <= i < event.fields@.len() && event.fields@[i].0@ != "message"@ ==> {
                &&& event.fields@.take(i).filter(is_attribute).len() < event.fields@.filter(
                    is_attribute,
                ).len()
                &&& attributes[1 + event.fields@.take(i).filter(is_attribute).len() as int]
                    == Json::Object(
                    map![
                        "key"@ => Json::Text(event.fields@[i].0@),
                        "value"@ => field_json(event.fields@[i].1),
                    ],
                )
            },
        event.file matches Some(file) ==> attributes[1 + event.fields@.filter(
            is_attribute,
        ).len() as int] == Json::Object(
            map![
                "key"@ => Json::Text("code.file.path"@),
                "value"@ => Json::Object(map!["stringValue"@ => Json::Text(file@)]),
            ],
        ),
        event.line is Some ==> attributes.last() == Json::Object(
            map![
                "key"@ => Json::Text("code.line.number"@),
                "value"@ => Json::Object(map!["intValue"@ => Json::Text(line_text@)]),
            ],
        ),
{
    lemma_record_members();
    let fields = event.fields@;
    let all = fields_attributes(fields);
    assert(attributes == event_attributes(*event));
    lemma_attribute_places(fields, is_attribute, fields.len() as int);
    assert(fields.take(fields.len() as int) =~= fields);
    assert forall|i: int|
        #![trigger event.fields@[i]]
        0 <= i < event.fields@.len() && event.fields@[i].0@ != "message"@ implies {
        &&& fields.take(i).filter(is_attribute).len() < fields.filter(is_attribute).len()
        &&& attributes[1 + fields.take(i).filter(is_attribute).len() as int] == attribute_json(
            fields[i].0@,
            field_json(fields[i].1),
        )
    } by {
        let at = fields.take(i).filter(is_attribute).len() as int;
        lemma_attribute_places(fields, is_attribute, i);
        lemma_attribute_places(fields, is_attribute, i + 1);
        let next = fields.take(i + 1);
        assert(next.drop_last() =~= fields.take(i));
        assert(next.last() == fields[i]);
        assert(fields_attributes(next).last() == attribute_json(
            fields[i].0@,
            field_json(fields[i].1),
        ));
        assert(all.subrange(0, fields_attributes(next).len() as int)[at] == all[at]);
        assert(attributes[1 + at] == all[at]);
    }
}

/// The attributes of the first fields are the first attributes, one for each that is no message.
proof fn lemma_attribute_places(
    fields: Seq<(String, FieldValue)>,
    is_attribute: spec_fn((String, FieldValue)) -> bool,
    len: int,
)
    requires
        0 <= len <= fields.len(),
        forall|field: (String, FieldValue)| #[trigger]
            is_attribute(field) <==> field.0@ != "message"@,
    ensures
        fields_attributes(fields.take(len)).len() == fields.take(len).filter(is_attribute).len(),
        fields_attributes(fields.take(len)).is_prefix_of(fields_attributes(fields)),
    decreases fields.len(),
{
    reveal_with_fuel(Seq::filter, 1);
    let all = fields_attributes(fields);
    if len < fields.len() {
        let shorter = fields.drop_last();
        lemma_attribute_places(shorter, is_attribute, len);
        assert(shorter.take(len) =~= fields.take(len));
        let first = fields_attributes(fields.take(len));
        assert(fields_attributes(shorter).subrange(0, first.len() as int) =~= all.subrange(
            0,
            first.len() as int,
        ));
    } else {
        assert(fields.take(len) =~= fields);
        assert(all.subrange(0, all.len() as int) =~= all);
        if fields.len() > 0 {
            let shorter = fields.drop_last();
            lemma_attribute_places(shorter, is_attribute, shorter.len() as int);
            assert(shorter.take(shorter.len() as int) =~= shorter);
        }
    }
}

}
