//! The JSON form of the bus messages.
//!
//! A message is an object with a member for each field. A field that may be
//! missing is left out where it has no value, and reads as its default where it
//! is left out, so that old messages stay readable. An array of the fields in
//! their order reads as well.

use crate::execution::InstanceId;
use crate::json;
use crate::json::{Json, JsonMember, JsonValue};
use crate::named;
use crate::text;
use crate::wire;
use crate::wire::{ResultMessage, TaskMessage, WIRE_VERSION};
use vstd::prelude::*;

verus! {

/// Why a JSON value is no message.
#[derive(Debug)]
pub enum WireError {
    /// It is neither an object nor an array of as many items as there are fields.
    NotARecord,
    /// A field is missing that every message has.
    Missing(String),
    /// A field has a value of the wrong kind.
    Invalid(String),
}

/// The model of a reading error.
pub enum WireFault {
    NotARecord,
    Missing(Seq<char>),
    Invalid(Seq<char>),
}

impl View for WireError {
    type V = WireFault;

    open spec fn view(&self) -> WireFault {
        match *self {
            WireError::NotARecord => WireFault::NotARecord,
            WireError::Missing(field) => WireFault::Missing(field@),
            WireError::Invalid(field) => WireFault::Invalid(field@),
        }
    }
}

/// The model of a task message.
pub struct TaskModel {
    pub instance_id: Seq<char>,
    pub node_id: Seq<char>,
    pub dispatch_id: Option<Seq<char>>,
    pub plugin_ref: Seq<char>,
    pub config: Option<Seq<(Seq<char>, Json)>>,
    pub input: Option<Seq<(Seq<char>, Json)>>,
    pub parameters: Option<Seq<(Seq<char>, Json)>>,
    pub capabilities: Option<Seq<(Seq<char>, Json)>>,
    pub attempt: i32,
    pub trace_context: Option<Seq<(Seq<char>, Seq<char>)>>,
    pub v: u8,
}

/// The model of a result message.
pub struct ResultModel {
    pub result_id: Option<Seq<char>>,
    pub instance_id: Seq<char>,
    pub node_id: Seq<char>,
    pub attempt: i32,
    pub dispatch_id: Option<Seq<char>>,
    pub output: Option<Seq<(Seq<char>, Json)>>,
    pub error: Option<Seq<char>>,
    pub trace_context: Option<Seq<(Seq<char>, Seq<char>)>>,
    pub v: u8,
}

/// The model of members that may be missing.
pub open spec fn opt_members(v: Option<Vec<JsonMember>>) -> Option<Seq<(Seq<char>, Json)>> {
    match v {
        Some(m) => Some(json::members_view(m@)),
        None => None,
    }
}

/// The texts of a list of pairs.
pub open spec fn pairs_view(v: Seq<(String, String)>) -> Seq<(Seq<char>, Seq<char>)> {
    v.map_values(|p: (String, String)| (p.0@, p.1@))
}

/// The model of pairs that may be missing.
pub open spec fn opt_pairs(v: Option<Vec<(String, String)>>) -> Option<Seq<(Seq<char>, Seq<char>)>> {
    match v {
        Some(p) => Some(pairs_view(p@)),
        None => None,
    }
}

impl View for TaskMessage {
    type V = TaskModel;

    open spec fn view(&self) -> TaskModel {
        TaskModel {
            instance_id: self.instance_id.0@,
            node_id: self.node_id@,
            dispatch_id: text::opt_text(self.dispatch_id),
            plugin_ref: self.plugin_ref@,
            config: opt_members(self.config),
            input: opt_members(self.input),
            parameters: opt_members(self.parameters),
            capabilities: opt_members(self.capabilities),
            attempt: self.attempt,
            trace_context: opt_pairs(self.trace_context),
            v: self.v,
        }
    }
}

impl View for ResultMessage {
    type V = ResultModel;

    open spec fn view(&self) -> ResultModel {
        ResultModel {
            result_id: text::opt_text(self.result_id),
            instance_id: self.instance_id.0@,
            node_id: self.node_id@,
            attempt: self.attempt,
            dispatch_id: text::opt_text(self.dispatch_id),
            output: opt_members(self.output),
            error: text::opt_text(self.error),
            trace_context: opt_pairs(self.trace_context),
            v: self.v,
        }
    }
}

/// A member with the key, where there is a value for it.
pub open spec fn opt_member(key: Seq<char>, value: Option<Json>) -> Seq<(Seq<char>, Json)> {
    match value {
        Some(v) => seq![(key, v)],
        None => Seq::empty(),
    }
}

/// A text as JSON.
pub open spec fn text_json(v: Option<Seq<char>>) -> Option<Json> {
    match v {
        Some(s) => Some(Json::Text(s)),
        None => None,
    }
}

/// Members as JSON.
pub open spec fn members_json(v: Option<Seq<(Seq<char>, Json)>>) -> Option<Json> {
    match v {
        Some(m) => Some(Json::Object(m)),
        None => None,
    }
}

/// Pairs of texts as JSON.
pub open spec fn pairs_json(v: Option<Seq<(Seq<char>, Seq<char>)>>) -> Option<Json> {
    match v {
        Some(p) => Some(
            Json::Object(p.map_values(|e: (Seq<char>, Seq<char>)| (e.0, Json::Text(e.1)))),
        ),
        None => None,
    }
}

/// A signed number as JSON.
pub open spec fn number_json(n: i32) -> Json {
    if n < 0 {
        Json::Negative(n as i64)
    } else {
        Json::Unsigned(n as u64)
    }
}

/// The members of a task message.
pub open spec fn task_members(m: TaskModel) -> Seq<(Seq<char>, Json)> {
    opt_member("instance_id"@, Some(Json::Text(m.instance_id))) + opt_member(
        "node_id"@,
        Some(Json::Text(m.node_id)),
    ) + opt_member("dispatch_id"@, text_json(m.dispatch_id)) + opt_member(
        "plugin_ref"@,
        Some(Json::Text(m.plugin_ref)),
    ) + opt_member("config"@, members_json(m.config)) + opt_member("input"@, members_json(m.input))
        + opt_member("parameters"@, members_json(m.parameters)) + opt_member(
        "capabilities"@,
        members_json(m.capabilities),
    ) + opt_member("attempt"@, Some(number_json(m.attempt))) + opt_member(
        "trace_context"@,
        pairs_json(m.trace_context),
    ) + opt_member("v"@, Some(Json::Unsigned(m.v as u64)))
}

/// The members of a result message.
pub open spec fn result_members(m: ResultModel) -> Seq<(Seq<char>, Json)> {
    opt_member("result_id"@, text_json(m.result_id)) + opt_member(
        "instance_id"@,
        Some(Json::Text(m.instance_id)),
    ) + opt_member("node_id"@, Some(Json::Text(m.node_id))) + opt_member(
        "attempt"@,
        Some(number_json(m.attempt)),
    ) + opt_member("dispatch_id"@, text_json(m.dispatch_id)) + opt_member(
        "output"@,
        members_json(m.output),
    ) + opt_member("error"@, text_json(m.error)) + opt_member(
        "trace_context"@,
        pairs_json(m.trace_context),
    ) + opt_member("v"@, Some(Json::Unsigned(m.v as u64)))
}

/// The bytes that a task message is written as, or why it is not.
pub open spec fn task_written(m: TaskModel) -> Result<Seq<u8>, Seq<char>> {
    json::json_recorded(task_members(m))
}

/// The bytes that a result message is written as, or why it is not.
pub open spec fn result_written(m: ResultModel) -> Result<Seq<u8>, Seq<char>> {
    json::json_recorded(result_members(m))
}

/// The message that was read is the one that was written: the same texts and
/// numbers, and maps that hold the maps that were written.
pub open spec fn same_task(read: TaskModel, m: TaskModel) -> bool {
    &&& read.instance_id == m.instance_id
    &&& read.node_id == m.node_id
    &&& read.dispatch_id == m.dispatch_id
    &&& read.plugin_ref == m.plugin_ref
    &&& json::holds_field(members_json(read.config), members_json(m.config))
    &&& json::holds_field(members_json(read.input), members_json(m.input))
    &&& json::holds_field(members_json(read.parameters), members_json(m.parameters))
    &&& json::holds_field(members_json(read.capabilities), members_json(m.capabilities))
    &&& read.attempt == m.attempt
    &&& json::holds_field(pairs_json(read.trace_context), pairs_json(m.trace_context))
    &&& read.v == m.v
}

/// The message that was read is the one that was written: the same texts and
/// numbers, and maps that hold the maps that were written.
pub open spec fn same_result(read: ResultModel, m: ResultModel) -> bool {
    &&& read.result_id == m.result_id
    &&& read.instance_id == m.instance_id
    &&& read.node_id == m.node_id
    &&& read.attempt == m.attempt
    &&& read.dispatch_id == m.dispatch_id
    &&& json::holds_field(members_json(read.output), members_json(m.output))
    &&& read.error == m.error
    &&& json::holds_field(pairs_json(read.trace_context), pairs_json(m.trace_context))
    &&& read.v == m.v
}

/// The field is left out, or is plain enough to stand in a message that reads back.
pub open spec fn plain_field(field: Option<Json>) -> bool {
    field matches Some(v) ==> json::is_plain(v, 126)
}

/// The maps of the message are plain enough that it reads back from its bytes.
pub open spec fn task_is_plain(m: TaskModel) -> bool {
    &&& plain_field(members_json(m.config))
    &&& plain_field(members_json(m.input))
    &&& plain_field(members_json(m.parameters))
    &&& plain_field(members_json(m.capabilities))
    &&& plain_field(pairs_json(m.trace_context))
}

/// The maps of the message are plain enough that it reads back from its bytes.
pub open spec fn result_is_plain(m: ResultModel) -> bool {
    &&& plain_field(members_json(m.output))
    &&& plain_field(pairs_json(m.trace_context))
}

/// The bytes are read as the message.
pub open spec fn task_reads_back(bytes: Seq<u8>, m: TaskModel) -> bool {
    json::json_parsed(bytes) matches Ok(tree) && read_task(tree) matches Ok(read) && same_task(
        read,
        m,
    )
}

/// The bytes are read as the message.
pub open spec fn result_reads_back(bytes: Seq<u8>, m: ResultModel) -> bool {
    json::json_parsed(bytes) matches Ok(tree) && read_result(tree) matches Ok(read) && same_result(
        read,
        m,
    )
}

/// The field of a record: the member with the key, or the item at its place.
pub open spec fn field_at(record: Json, place: int, key: Seq<char>) -> Option<Json> {
    match record {
        Json::Object(members) => json::member(members, key),
        Json::Array(items) => if place < items.len() {
            Some(items[place])
        } else {
            None
        },
        _ => None,
    }
}

/// The value is a record with at most so many fields.
pub open spec fn is_record(value: Json, fields: int) -> bool {
    match value {
        Json::Object(_) => true,
        Json::Array(items) => items.len() <= fields,
        _ => false,
    }
}

/// Reads a text that must be there.
pub open spec fn read_text(field: Option<Json>, key: Seq<char>) -> Result<Seq<char>, WireFault> {
    match field {
        None => Err(WireFault::Missing(key)),
        Some(Json::Text(s)) => Ok(s),
        Some(_) => Err(WireFault::Invalid(key)),
    }
}

/// Reads a text that may be missing or null.
pub open spec fn read_opt_text(field: Option<Json>, key: Seq<char>) -> Result<
    Option<Seq<char>>,
    WireFault,
> {
    match field {
        None => Ok(None),
        Some(Json::Null) => Ok(None),
        Some(Json::Text(s)) => Ok(Some(s)),
        Some(_) => Err(WireFault::Invalid(key)),
    }
}

/// Reads members that may be missing or null.
pub open spec fn read_opt_members(field: Option<Json>, key: Seq<char>) -> Result<
    Option<Seq<(Seq<char>, Json)>>,
    WireFault,
> {
    match field {
        None => Ok(None),
        Some(Json::Null) => Ok(None),
        Some(Json::Object(m)) => Ok(Some(m)),
        Some(_) => Err(WireFault::Invalid(key)),
    }
}

/// Every member is a text.
pub open spec fn all_texts(members: Seq<(Seq<char>, Json)>) -> bool {
    forall|i: int| 0 <= i < members.len() ==> (#[trigger] members[i]).1 is Text
}

/// Reads pairs of texts that may be missing or null.
pub open spec fn read_opt_pairs(field: Option<Json>, key: Seq<char>) -> Result<
    Option<Seq<(Seq<char>, Seq<char>)>>,
    WireFault,
> {
    match field {
        None => Ok(None),
        Some(Json::Null) => Ok(None),
        Some(Json::Object(m)) => if all_texts(m) {
            Ok(Some(m.map_values(|e: (Seq<char>, Json)| (e.0, e.1->Text_0))))
        } else {
            Err(WireFault::Invalid(key))
        },
        Some(_) => Err(WireFault::Invalid(key)),
    }
}

/// Reads an attempt number, zero where it is missing.
pub open spec fn read_attempt(field: Option<Json>, key: Seq<char>) -> Result<i32, WireFault> {
    match field {
        None => Ok(0i32),
        Some(value) => match json::json_i64(value) {
            Some(n) => if i32::MIN <= n <= i32::MAX {
                Ok(n as i32)
            } else {
                Err(WireFault::Invalid(key))
            },
            None => Err(WireFault::Invalid(key)),
        },
    }
}

/// Reads a version, the current one where it is missing.
pub open spec fn read_version(field: Option<Json>, key: Seq<char>) -> Result<u8, WireFault> {
    match field {
        None => Ok(WIRE_VERSION),
        Some(Json::Unsigned(n)) => if n <= 255 {
            Ok(n as u8)
        } else {
            Err(WireFault::Invalid(key))
        },
        Some(_) => Err(WireFault::Invalid(key)),
    }
}

/// The message that a JSON value is, or the first fault of its fields.
pub open spec fn read_task(value: Json) -> Result<TaskModel, WireFault> {
    let instance_id = read_text(field_at(value, 0, "instance_id"@), "instance_id"@);
    let node_id = read_text(field_at(value, 1, "node_id"@), "node_id"@);
    let dispatch_id = read_opt_text(field_at(value, 2, "dispatch_id"@), "dispatch_id"@);
    let plugin_ref = read_text(field_at(value, 3, "plugin_ref"@), "plugin_ref"@);
    let config = read_opt_members(field_at(value, 4, "config"@), "config"@);
    let input = read_opt_members(field_at(value, 5, "input"@), "input"@);
    let parameters = read_opt_members(field_at(value, 6, "parameters"@), "parameters"@);
    let capabilities = read_opt_members(field_at(value, 7, "capabilities"@), "capabilities"@);
    let attempt = read_attempt(field_at(value, 8, "attempt"@), "attempt"@);
    let trace_context = read_opt_pairs(field_at(value, 9, "trace_context"@), "trace_context"@);
    let v = read_version(field_at(value, 10, "v"@), "v"@);
    if !is_record(value, 11) {
        Err(WireFault::NotARecord)
    } else if instance_id is Err {
        Err(instance_id->Err_0)
    } else if node_id is Err {
        Err(node_id->Err_0)
    } else if dispatch_id is Err {
        Err(dispatch_id->Err_0)
    } else if plugin_ref is Err {
        Err(plugin_ref->Err_0)
    } else if config is Err {
        Err(config->Err_0)
    } else if input is Err {
        Err(input->Err_0)
    } else if parameters is Err {
        Err(parameters->Err_0)
    } else if capabilities is Err {
        Err(capabilities->Err_0)
    } else if attempt is Err {
        Err(attempt->Err_0)
    } else if trace_context is Err {
        Err(trace_context->Err_0)
    } else if v is Err {
        Err(v->Err_0)
    } else {
        Ok(
            TaskModel {
                instance_id: instance_id->Ok_0,
                node_id: node_id->Ok_0,
                dispatch_id: dispatch_id->Ok_0,
                plugin_ref: plugin_ref->Ok_0,
                config: config->Ok_0,
                input: input->Ok_0,
                parameters: parameters->Ok_0,
                capabilities: capabilities->Ok_0,
                attempt: attempt->Ok_0,
                trace_context: trace_context->Ok_0,
                v: v->Ok_0,
            },
        )
    }
}

/// The message that a JSON value is, or the first fault of its fields.
pub open spec fn read_result(value: Json) -> Result<ResultModel, WireFault> {
    let result_id = read_opt_text(field_at(value, 0, "result_id"@), "result_id"@);
    let instance_id = read_text(field_at(value, 1, "instance_id"@), "instance_id"@);
    let node_id = read_text(field_at(value, 2, "node_id"@), "node_id"@);
    let attempt = read_attempt(field_at(value, 3, "attempt"@), "attempt"@);
    let dispatch_id = read_opt_text(field_at(value, 4, "dispatch_id"@), "dispatch_id"@);
    let output = read_opt_members(field_at(value, 5, "output"@), "output"@);
    let error = read_opt_text(field_at(value, 6, "error"@), "error"@);
    let trace_context = read_opt_pairs(field_at(value, 7, "trace_context"@), "trace_context"@);
    let v = read_version(field_at(value, 8, "v"@), "v"@);
    if !is_record(value, 9) {
        Err(WireFault::NotARecord)
    } else if result_id is Err {
        Err(result_id->Err_0)
    } else if instance_id is Err {
        Err(instance_id->Err_0)
    } else if node_id is Err {
        Err(node_id->Err_0)
    } else if attempt is Err {
        Err(attempt->Err_0)
    } else if dispatch_id is Err {
        Err(dispatch_id->Err_0)
    } else if output is Err {
        Err(output->Err_0)
    } else if error is Err {
        Err(error->Err_0)
    } else if trace_context is Err {
        Err(trace_context->Err_0)
    } else if v is Err {
        Err(v->Err_0)
    } else {
        Ok(
            ResultModel {
                result_id: result_id->Ok_0,
                instance_id: instance_id->Ok_0,
                node_id: node_id->Ok_0,
                attempt: attempt->Ok_0,
                dispatch_id: dispatch_id->Ok_0,
                output: output->Ok_0,
                error: error->Ok_0,
                trace_context: trace_context->Ok_0,
                v: v->Ok_0,
            },
        )
    }
}

fn find_field<'a>(record: &'a JsonValue, place: usize, key: &str) -> (r: Option<&'a JsonValue>)
    ensures
        match r {
            Some(v) => field_at(record@, place as int, key@) == Some(v@),
            None => field_at(record@, place as int, key@) is None,
        },
{
    match record {
        JsonValue::Array(items) => {
            proof {
                json::lemma_array_view(*items);
            }
            if place < items.len() {
                Some(&items[place])
            } else {
                None
            }
        },
        _ => record.get(key),
    }
}

fn record(value: &JsonValue, fields: usize) -> (r: bool)
    ensures
        r == is_record(value@, fields as int),
{
    match value {
        JsonValue::Object(_) => true,
        JsonValue::Array(items) => {
            proof {
                json::lemma_array_view(*items);
            }
            items.len() <= fields
        },
        _ => false,
    }
}

fn take_text(value: &JsonValue, place: usize, key: &str) -> (r: Result<String, WireError>)
    ensures
        match r {
            Ok(s) => read_text(field_at(value@, place as int, key@), key@) == Ok::<
                Seq<char>,
                WireFault,
            >(s@),
            Err(e) => read_text(field_at(value@, place as int, key@), key@) == Err::<
                Seq<char>,
                WireFault,
            >(e@),
        },
{
    match find_field(value, place, key) {
        None => Err(WireError::Missing(key.to_owned())),
        Some(found) => match found {
            JsonValue::Text(s) => Ok(s.clone()),
            _ => Err(WireError::Invalid(key.to_owned())),
        },
    }
}

fn take_opt_text(value: &JsonValue, place: usize, key: &str) -> (r: Result<
    Option<String>,
    WireError,
>)
    ensures
        match r {
            Ok(s) => read_opt_text(field_at(value@, place as int, key@), key@) == Ok::<
                Option<Seq<char>>,
                WireFault,
            >(text::opt_text(s)),
            Err(e) => read_opt_text(field_at(value@, place as int, key@), key@) == Err::<
                Option<Seq<char>>,
                WireFault,
            >(e@),
        },
{
    match find_field(value, place, key) {
        None => Ok(None),
        Some(found) => match found {
            JsonValue::Null => Ok(None),
            JsonValue::Text(s) => Ok(Some(s.clone())),
            _ => Err(WireError::Invalid(key.to_owned())),
        },
    }
}

fn take_opt_members(value: &JsonValue, place: usize, key: &str) -> (r: Result<
    Option<Vec<JsonMember>>,
    WireError,
>)
    ensures
        match r {
            Ok(m) => read_opt_members(field_at(value@, place as int, key@), key@) == Ok::<
                Option<Seq<(Seq<char>, Json)>>,
                WireFault,
            >(opt_members(m)),
            Err(e) => read_opt_members(field_at(value@, place as int, key@), key@) == Err::<
                Option<Seq<(Seq<char>, Json)>>,
                WireFault,
            >(e@),
        },
{
    match find_field(value, place, key) {
        None => Ok(None),
        Some(found) => match found {
            JsonValue::Null => Ok(None),
            JsonValue::Object(members) => {
                proof {
                    json::lemma_object_view(*members);
                }
                Ok(Some(json::copy_members(members)))
            },
            _ => Err(WireError::Invalid(key.to_owned())),
        },
    }
}

fn copy_pairs(members: &Vec<JsonMember>) -> (r: Option<Vec<(String, String)>>)
    ensures
        match r {
            Some(pairs) => all_texts(json::members_view(members@)) && pairs_view(pairs@)
                == json::members_view(members@).map_values(
                |e: (Seq<char>, Json)| (e.0, e.1->Text_0),
            ),
            None => !all_texts(json::members_view(members@)),
        },
{
    let ghost all = json::members_view(members@);
    let mut pairs: Vec<(String, String)> = Vec::new();
    let mut i: usize = 0;
    while i < members.len()
        invariant
            i <= members.len(),
            all == json::members_view(members@),
            pairs@.len() == i,
            forall|j: int| 0 <= j < i ==> (#[trigger] all[j]).1 is Text,
            forall|j: int|
                0 <= j < i ==> (#[trigger] pairs@[j]).0@ == all[j].0 && pairs@[j].1@
                    == all[j].1->Text_0,
        decreases members.len() - i,
    {
        match &members[i].value {
            JsonValue::Text(s) => {
                assert(all[i as int].1 == Json::Text(s@));
                pairs.push((members[i].key.clone(), s.clone()));
            },
            _ => {
                assert(!(all[i as int].1 is Text));
                return None;
            },
        }
        i += 1;
    }
    assert(pairs_view(pairs@) =~= all.map_values(|e: (Seq<char>, Json)| (e.0, e.1->Text_0)));
    Some(pairs)
}

fn take_opt_pairs(value: &JsonValue, place: usize, key: &str) -> (r: Result<
    Option<Vec<(String, String)>>,
    WireError,
>)
    ensures
        match r {
            Ok(p) => read_opt_pairs(field_at(value@, place as int, key@), key@) == Ok::<
                Option<Seq<(Seq<char>, Seq<char>)>>,
                WireFault,
            >(opt_pairs(p)),
            Err(e) => read_opt_pairs(field_at(value@, place as int, key@), key@) == Err::<
                Option<Seq<(Seq<char>, Seq<char>)>>,
                WireFault,
            >(e@),
        },
{
    match find_field(value, place, key) {
        None => Ok(None),
        Some(found) => match found {
            JsonValue::Null => Ok(None),
            JsonValue::Object(members) => {
                proof {
                    json::lemma_object_view(*members);
                }
                match copy_pairs(members) {
                    Some(pairs) => Ok(Some(pairs)),
                    None => Err(WireError::Invalid(key.to_owned())),
                }
            },
            _ => Err(WireError::Invalid(key.to_owned())),
        },
    }
}

fn take_attempt(value: &JsonValue, place: usize, key: &str) -> (r: Result<i32, WireError>)
    ensures
        match r {
            Ok(n) => read_attempt(field_at(value@, place as int, key@), key@) == Ok::<
                i32,
                WireFault,
            >(n),
            Err(e) => read_attempt(field_at(value@, place as int, key@), key@) == Err::<
                i32,
                WireFault,
            >(e@),
        },
{
    match find_field(value, place, key) {
        None => Ok(0),
        Some(found) => match found.as_i64() {
            Some(n) => if i32::MIN as i64 <= n && n <= i32::MAX as i64 {
                Ok(n as i32)
            } else {
                Err(WireError::Invalid(key.to_owned()))
            },
            None => Err(WireError::Invalid(key.to_owned())),
        },
    }
}

fn take_version(value: &JsonValue, place: usize, key: &str) -> (r: Result<u8, WireError>)
    ensures
        match r {
            Ok(n) => read_version(field_at(value@, place as int, key@), key@) == Ok::<
                u8,
                WireFault,
            >(n),
            Err(e) => read_version(field_at(value@, place as int, key@), key@) == Err::<
                u8,
                WireFault,
            >(e@),
        },
{
    match find_field(value, place, key) {
        None => Ok(wire::default_wire_version()),
        Some(found) => match found {
            JsonValue::Unsigned(n) => if *n <= 255 {
                Ok(*n as u8)
            } else {
                Err(WireError::Invalid(key.to_owned()))
            },
            _ => Err(WireError::Invalid(key.to_owned())),
        },
    }
}

fn put(out: &mut Vec<JsonMember>, key: &str, value: Option<JsonValue>)
    ensures
        json::members_view(final(out)@) == json::members_view(old(out)@) + opt_member(
            key@,
            match value {
                Some(v) => Some(v@),
                None => None,
            },
        ),
{
    if let Some(value) = value {
        let ghost held = value@;
        out.push(JsonMember { key: key.to_owned(), value });
        assert(json::members_view(out@) =~= json::members_view(old(out)@).push((key@, held)));
        assert(json::members_view(old(out)@).push((key@, held)) =~= json::members_view(old(out)@)
            + seq![(key@, held)]);
    } else {
        assert(json::members_view(out@) =~= json::members_view(old(out)@) + Seq::empty());
    }
}

/// The JSON of a value that may be missing.
pub open spec fn opt_json(v: Option<JsonValue>) -> Option<Json> {
    match v {
        Some(value) => Some(value@),
        None => None,
    }
}

fn text_value(v: &Option<String>) -> (r: Option<JsonValue>)
    ensures
        opt_json(r) == text_json(text::opt_text(*v)),
{
    match v {
        Some(s) => Some(JsonValue::Text(s.clone())),
        None => None,
    }
}

fn members_value(v: &Option<Vec<JsonMember>>) -> (r: Option<JsonValue>)
    ensures
        opt_json(r) == members_json(opt_members(*v)),
{
    match v {
        Some(m) => {
            let copy = json::copy_members(m);
            proof {
                json::lemma_object_view(copy);
            }
            Some(JsonValue::Object(copy))
        },
        None => None,
    }
}

fn pairs_value(v: &Option<Vec<(String, String)>>) -> (r: Option<JsonValue>)
    ensures
        opt_json(r) == pairs_json(opt_pairs(*v)),
{
    let pairs = match v {
        Some(pairs) => pairs,
        None => return None,
    };
    let mut members: Vec<JsonMember> = Vec::new();
    let mut i: usize = 0;
    while i < pairs.len()
        invariant
            i <= pairs.len(),
            members@.len() == i,
            forall|j: int|
                0 <= j < i ==> (#[trigger] members@[j]).key@ == pairs@[j].0@ && members@[j].value@
                    == Json::Text(pairs@[j].1@),
        decreases pairs.len() - i,
    {
        members.push(
            JsonMember { key: pairs[i].0.clone(), value: JsonValue::Text(pairs[i].1.clone()) },
        );
        i += 1;
    }
    proof {
        json::lemma_object_view(members);
        assert(json::members_view(members@) =~= pairs_view(pairs@).map_values(
            |e: (Seq<char>, Seq<char>)| (e.0, Json::Text(e.1)),
        ));
    }
    Some(JsonValue::Object(members))
}

fn number_value(n: i32) -> (r: JsonValue)
    ensures
        r@ == number_json(n),
{
    if n < 0 {
        JsonValue::Negative(n as i64)
    } else {
        JsonValue::Unsigned(n as u64)
    }
}

impl TaskMessage {
    fn members(&self) -> (r: Vec<JsonMember>)
        ensures
            json::members_view(r@) == task_members(self@),
    {
        let mut out: Vec<JsonMember> = Vec::new();
        assert(json::members_view(out@) =~= Seq::<(Seq<char>, Json)>::empty());
        put(&mut out, "instance_id", Some(JsonValue::Text(self.instance_id.0.clone())));
        put(&mut out, "node_id", Some(JsonValue::Text(self.node_id.clone())));
        put(&mut out, "dispatch_id", text_value(&self.dispatch_id));
        put(&mut out, "plugin_ref", Some(JsonValue::Text(self.plugin_ref.clone())));
        put(&mut out, "config", members_value(&self.config));
        put(&mut out, "input", members_value(&self.input));
        put(&mut out, "parameters", members_value(&self.parameters));
        put(&mut out, "capabilities", members_value(&self.capabilities));
        put(&mut out, "attempt", Some(number_value(self.attempt)));
        put(&mut out, "trace_context", pairs_value(&self.trace_context));
        put(&mut out, "v", Some(JsonValue::Unsigned(self.v as u64)));
        assert(json::members_view(out@) =~= task_members(self@));
        out
    }

    /// The message as JSON.
    pub fn to_json(&self) -> (r: JsonValue)
        ensures
            r@ == Json::Object(task_members(self@)),
    {
        let out = self.members();
        proof {
            json::lemma_object_view(out);
        }
        JsonValue::Object(out)
    }

    /// Writes the message, its fields in order and in one line. What is read from the
    /// bytes is the message again.
    pub fn write(&self) -> (r: Result<Vec<u8>, String>)
        ensures
            match r {
                Ok(bytes) => task_written(self@) == Ok::<Seq<u8>, Seq<char>>(bytes@)
                    && json::is_one_line(bytes@),
                Err(e) => task_written(self@) == Err::<Seq<u8>, Seq<char>>(e@),
            },
            r matches Ok(bytes) ==> (task_is_plain(self@) ==> task_reads_back(bytes@, self@)),
    {
        let written = json::write_record(&self.members());
        proof {
            if let Ok(bytes) = &written {
                if task_is_plain(self@) {
                    lemma_plain_task(self@);
                    law_task_bytes_read_back(bytes@, self@);
                }
            }
        }
        written
    }

    /// The message that a JSON value is, or why it is none.
    pub fn from_json(value: &JsonValue) -> (r: Result<TaskMessage, WireError>)
        ensures
            match r {
                Ok(m) => read_task(value@) == Ok::<TaskModel, WireFault>(m@),
                Err(e) => read_task(value@) == Err::<TaskModel, WireFault>(e@),
            },
    {
        if !record(value, 11) {
            return Err(WireError::NotARecord);
        }
        let instance_id = take_text(value, 0, "instance_id")?;
        let node_id = take_text(value, 1, "node_id")?;
        let dispatch_id = take_opt_text(value, 2, "dispatch_id")?;
        let plugin_ref = take_text(value, 3, "plugin_ref")?;
        let config = take_opt_members(value, 4, "config")?;
        let input = take_opt_members(value, 5, "input")?;
        let parameters = take_opt_members(value, 6, "parameters")?;
        let capabilities = take_opt_members(value, 7, "capabilities")?;
        let attempt = take_attempt(value, 8, "attempt")?;
        let trace_context = take_opt_pairs(value, 9, "trace_context")?;
        let v = take_version(value, 10, "v")?;
        Ok(
            TaskMessage {
                instance_id: InstanceId(instance_id),
                node_id,
                dispatch_id,
                plugin_ref,
                config,
                input,
                parameters,
                capabilities,
                attempt,
                trace_context,
                v,
            },
        )
    }
}

impl ResultMessage {
    fn members(&self) -> (r: Vec<JsonMember>)
        ensures
            json::members_view(r@) == result_members(self@),
    {
        let mut out: Vec<JsonMember> = Vec::new();
        assert(json::members_view(out@) =~= Seq::<(Seq<char>, Json)>::empty());
        put(&mut out, "result_id", text_value(&self.result_id));
        put(&mut out, "instance_id", Some(JsonValue::Text(self.instance_id.0.clone())));
        put(&mut out, "node_id", Some(JsonValue::Text(self.node_id.clone())));
        put(&mut out, "attempt", Some(number_value(self.attempt)));
        put(&mut out, "dispatch_id", text_value(&self.dispatch_id));
        put(&mut out, "output", members_value(&self.output));
        put(&mut out, "error", text_value(&self.error));
        put(&mut out, "trace_context", pairs_value(&self.trace_context));
        put(&mut out, "v", Some(JsonValue::Unsigned(self.v as u64)));
        assert(json::members_view(out@) =~= result_members(self@));
        out
    }

    /// The message as JSON.
    pub fn to_json(&self) -> (r: JsonValue)
        ensures
            r@ == Json::Object(result_members(self@)),
    {
        let out = self.members();
        proof {
            json::lemma_object_view(out);
        }
        JsonValue::Object(out)
    }

    /// Writes the message, its fields in order and in one line. What is read from the
    /// bytes is the message again.
    pub fn write(&self) -> (r: Result<Vec<u8>, String>)
        ensures
            match r {
                Ok(bytes) => result_written(self@) == Ok::<Seq<u8>, Seq<char>>(bytes@)
                    && json::is_one_line(bytes@),
                Err(e) => result_written(self@) == Err::<Seq<u8>, Seq<char>>(e@),
            },
            r matches Ok(bytes) ==> (result_is_plain(self@) ==> result_reads_back(bytes@, self@)),
    {
        let written = json::write_record(&self.members());
        proof {
            if let Ok(bytes) = &written {
                if result_is_plain(self@) {
                    lemma_plain_result(self@);
                    law_result_bytes_read_back(bytes@, self@);
                }
            }
        }
        written
    }

    /// The message that a JSON value is, or why it is none.
    pub fn from_json(value: &JsonValue) -> (r: Result<ResultMessage, WireError>)
        ensures
            match r {
                Ok(m) => read_result(value@) == Ok::<ResultModel, WireFault>(m@),
                Err(e) => read_result(value@) == Err::<ResultModel, WireFault>(e@),
            },
    {
        if !record(value, 9) {
            return Err(WireError::NotARecord);
        }
        let result_id = take_opt_text(value, 0, "result_id")?;
        let instance_id = take_text(value, 1, "instance_id")?;
        let node_id = take_text(value, 2, "node_id")?;
        let attempt = take_attempt(value, 3, "attempt")?;
        let dispatch_id = take_opt_text(value, 4, "dispatch_id")?;
        let output = take_opt_members(value, 5, "output")?;
        let error = take_opt_text(value, 6, "error")?;
        let trace_context = take_opt_pairs(value, 7, "trace_context")?;
        let v = take_version(value, 8, "v")?;
        Ok(
            ResultMessage {
                result_id,
                instance_id: InstanceId(instance_id),
                node_id,
                attempt,
                dispatch_id,
                output,
                error,
                trace_context,
                v,
            },
        )
    }
}

proof fn lemma_member_of_sum(
    a: Seq<(Seq<char>, Json)>,
    b: Seq<(Seq<char>, Json)>,
    key: Seq<char>,
)
    ensures
        json::member(a + b, key) == match json::member(a, key) {
            Some(v) => Some(v),
            None => json::member(b, key),
        },
    decreases a.len(),
{
    if a.len() == 0 {
        assert(a + b =~= b);
    } else {
        assert((a + b)[0] == a[0]);
        assert((a + b).drop_first() =~= a.drop_first() + b);
        lemma_member_of_sum(a.drop_first(), b, key);
    }
}

/// What stands under a key behind the members of a list and one more field.
proof fn lemma_field_added(
    before: Seq<(Seq<char>, Json)>,
    name: Seq<char>,
    value: Option<Json>,
    key: Seq<char>,
)
    ensures
        json::member(before + opt_member(name, value), key) == match json::member(before, key) {
            Some(v) => Some(v),
            None => if name == key {
                value
            } else {
                None
            },
        },
{
    lemma_member_of_sum(before, opt_member(name, value), key);
    reveal_with_fuel(json::member, 3);
    if let Some(v) = value {
        assert(seq![(name, v)].drop_first() =~= Seq::<(Seq<char>, Json)>::empty());
    }
}

/// The members of a list of fields.
spec fn fields_in_order(fields: Seq<(Seq<char>, Option<Json>)>) -> Seq<(Seq<char>, Json)>
    decreases fields.len(),
{
    if fields.len() == 0 {
        Seq::empty()
    } else {
        fields_in_order(fields.drop_last()) + opt_member(fields.last().0, fields.last().1)
    }
}

/// A field of a list in which no name stands twice is found under its name.
proof fn lemma_field_found(fields: Seq<(Seq<char>, Option<Json>)>, i: int)
    requires
        0 <= i < fields.len(),
        forall|j: int, k: int|
            0 <= j < k < fields.len() ==> (#[trigger] fields[j]).0 != (#[trigger] fields[k]).0,
    ensures
        json::member(fields_in_order(fields), fields[i].0) == fields[i].1,
    decreases fields.len(),
{
    let rest = fields.drop_last();
    let last = fields.last();
    lemma_field_added(fields_in_order(rest), last.0, last.1, fields[i].0);
    if i < rest.len() {
        assert(rest[i] == fields[i]);
        assert forall|j: int, k: int| 0 <= j < k < rest.len() implies (#[trigger] rest[j]).0 != (
        #[trigger] rest[k]).0 by {
            assert(fields[j].0 != fields[k].0);
        }
        lemma_field_found(rest, i);
        assert(fields[i].0 != fields[fields.len() - 1].0);
    } else {
        lemma_field_absent(rest, last.0);
    }
}

proof fn lemma_field_absent(fields: Seq<(Seq<char>, Option<Json>)>, key: Seq<char>)
    requires
        forall|j: int| 0 <= j < fields.len() ==> (#[trigger] fields[j]).0 != key,
    ensures
        json::member(fields_in_order(fields), key) is None,
    decreases fields.len(),
{
    if fields.len() > 0 {
        let rest = fields.drop_last();
        assert forall|j: int| 0 <= j < rest.len() implies (#[trigger] rest[j]).0 != key by {
            assert(rest[j] == fields[j]);
        }
        lemma_field_absent(rest, key);
        assert(fields[fields.len() - 1].0 != key);
        lemma_field_added(fields_in_order(rest), fields.last().0, fields.last().1, key);
    }
}

spec fn task_fields(m: TaskModel) -> Seq<(Seq<char>, Option<Json>)> {
    seq![
        ("instance_id"@, Some(Json::Text(m.instance_id))),
        ("node_id"@, Some(Json::Text(m.node_id))),
        ("dispatch_id"@, text_json(m.dispatch_id)),
        ("plugin_ref"@, Some(Json::Text(m.plugin_ref))),
        ("config"@, members_json(m.config)),
        ("input"@, members_json(m.input)),
        ("parameters"@, members_json(m.parameters)),
        ("capabilities"@, members_json(m.capabilities)),
        ("attempt"@, Some(number_json(m.attempt))),
        ("trace_context"@, pairs_json(m.trace_context)),
        ("v"@, Some(Json::Unsigned(m.v as u64))),
    ]
}

spec fn result_fields(m: ResultModel) -> Seq<(Seq<char>, Option<Json>)> {
    seq![
        ("result_id"@, text_json(m.result_id)),
        ("instance_id"@, Some(Json::Text(m.instance_id))),
        ("node_id"@, Some(Json::Text(m.node_id))),
        ("attempt"@, Some(number_json(m.attempt))),
        ("dispatch_id"@, text_json(m.dispatch_id)),
        ("output"@, members_json(m.output)),
        ("error"@, text_json(m.error)),
        ("trace_context"@, pairs_json(m.trace_context)),
        ("v"@, Some(Json::Unsigned(m.v as u64))),
    ]
}

/// The place of a task field with the name.
spec fn task_place(name: Seq<char>) -> int {
    if name.len() == 11 {
        if name[0] == 'i' {
            0
        } else {
            2
        }
    } else if name.len() == 7 {
        if name[0] == 'n' {
            1
        } else {
            8
        }
    } else if name.len() == 10 {
        if name[1] == 'l' {
            3
        } else {
            6
        }
    } else if name.len() == 6 {
        4
    } else if name.len() == 5 {
        5
    } else if name.len() == 12 {
        7
    } else if name.len() == 13 {
        9
    } else {
        10
    }
}

/// The place of a result field with the name.
spec fn result_place(name: Seq<char>) -> int {
    if name.len() == 9 {
        0
    } else if name.len() == 11 {
        if name[0] == 'i' {
            1
        } else {
            4
        }
    } else if name.len() == 7 {
        if name[0] == 'n' {
            2
        } else {
            3
        }
    } else if name.len() == 6 {
        5
    } else if name.len() == 5 {
        6
    } else if name.len() == 13 {
        7
    } else {
        8
    }
}

proof fn lemma_task_fields(m: TaskModel)
    ensures
        fields_in_order(task_fields(m)) == task_members(m),
        forall|j: int, k: int|
            0 <= j < k < task_fields(m).len() ==> (#[trigger] task_fields(m)[j]).0 != (
            #[trigger] task_fields(m)[k]).0,
{
    let f = task_fields(m);
    reveal_strlit("instance_id");
    reveal_strlit("node_id");
    reveal_strlit("dispatch_id");
    reveal_strlit("plugin_ref");
    reveal_strlit("config");
    reveal_strlit("input");
    reveal_strlit("parameters");
    reveal_strlit("capabilities");
    reveal_strlit("attempt");
    reveal_strlit("trace_context");
    reveal_strlit("v");
    assert forall|j: int| 0 <= j < 11 implies #[trigger] task_place(f[j].0) == j by {
        if j == 0 {
            assert(f[0].0 == "instance_id"@);
        } else if j == 1 {
            assert(f[1].0 == "node_id"@);
        } else if j == 2 {
            assert(f[2].0 == "dispatch_id"@);
        } else if j == 3 {
            assert(f[3].0 == "plugin_ref"@);
        } else if j == 4 {
            assert(f[4].0 == "config"@);
        } else if j == 5 {
            assert(f[5].0 == "input"@);
        } else if j == 6 {
            assert(f[6].0 == "parameters"@);
        } else if j == 7 {
            assert(f[7].0 == "capabilities"@);
        } else if j == 8 {
            assert(f[8].0 == "attempt"@);
        } else if j == 9 {
            assert(f[9].0 == "trace_context"@);
        } else {
            assert(f[10].0 == "v"@);
        }
    }
    assert forall|j: int, k: int| 0 <= j < k < f.len() implies (#[trigger] f[j]).0 != (
    #[trigger] f[k]).0 by {
        assert(task_place(f[j].0) == j);
        assert(task_place(f[k].0) == k);
    }
    assert forall|n: int| 0 < n <= 11 implies #[trigger] f.take(n).drop_last() == f.take(n - 1) by {
        assert(f.take(n).drop_last() =~= f.take(n - 1));
    }
    reveal_with_fuel(fields_in_order, 12);
    assert(f.take(11) =~= f);
    assert(f.take(0) =~= Seq::<(Seq<char>, Option<Json>)>::empty());
    assert(fields_in_order(f) =~= task_members(m));
}

proof fn lemma_result_fields(m: ResultModel)
    ensures
        fields_in_order(result_fields(m)) == result_members(m),
        forall|j: int, k: int|
            0 <= j < k < result_fields(m).len() ==> (#[trigger] result_fields(m)[j]).0 != (
            #[trigger] result_fields(m)[k]).0,
{
    let f = result_fields(m);
    reveal_strlit("result_id");
    reveal_strlit("instance_id");
    reveal_strlit("node_id");
    reveal_strlit("attempt");
    reveal_strlit("dispatch_id");
    reveal_strlit("output");
    reveal_strlit("error");
    reveal_strlit("trace_context");
    reveal_strlit("v");
    assert forall|j: int| 0 <= j < 9 implies #[trigger] result_place(f[j].0) == j by {
        if j == 0 {
            assert(f[0].0 == "result_id"@);
        } else if j == 1 {
            assert(f[1].0 == "instance_id"@);
        } else if j == 2 {
            assert(f[2].0 == "node_id"@);
        } else if j == 3 {
            assert(f[3].0 == "attempt"@);
        } else if j == 4 {
            assert(f[4].0 == "dispatch_id"@);
        } else if j == 5 {
            assert(f[5].0 == "output"@);
        } else if j == 6 {
            assert(f[6].0 == "error"@);
        } else if j == 7 {
            assert(f[7].0 == "trace_context"@);
        } else {
            assert(f[8].0 == "v"@);
        }
    }
    assert forall|j: int, k: int| 0 <= j < k < f.len() implies (#[trigger] f[j]).0 != (
    #[trigger] f[k]).0 by {
        assert(result_place(f[j].0) == j);
        assert(result_place(f[k].0) == k);
    }
    assert forall|n: int| 0 < n <= 9 implies #[trigger] f.take(n).drop_last() == f.take(n - 1) by {
        assert(f.take(n).drop_last() =~= f.take(n - 1));
    }
    reveal_with_fuel(fields_in_order, 10);
    assert(f.take(9) =~= f);
    assert(f.take(0) =~= Seq::<(Seq<char>, Option<Json>)>::empty());
    assert(fields_in_order(f) =~= result_members(m));
}

proof fn lemma_pairs_read_back(p: Option<Seq<(Seq<char>, Seq<char>)>>, key: Seq<char>)
    ensures
        read_opt_pairs(pairs_json(p), key) == Ok::<Option<Seq<(Seq<char>, Seq<char>)>>, WireFault>(
            p,
        ),
{
    if let Some(pairs) = p {
        let members = pairs.map_values(|e: (Seq<char>, Seq<char>)| (e.0, Json::Text(e.1)));
        assert(all_texts(members));
        assert(members.map_values(|e: (Seq<char>, Json)| (e.0, e.1->Text_0)) =~= pairs);
    }
}

/// A task message reads back from its JSON as it was written.
pub proof fn law_task_message_reads_back(m: TaskModel)
    ensures
        read_task(Json::Object(task_members(m))) == Ok::<TaskModel, WireFault>(m),
{
    lemma_task_fields(m);
    let f = task_fields(m);
    lemma_field_found(f, 0);
    lemma_field_found(f, 1);
    lemma_field_found(f, 2);
    lemma_field_found(f, 3);
    lemma_field_found(f, 4);
    lemma_field_found(f, 5);
    lemma_field_found(f, 6);
    lemma_field_found(f, 7);
    lemma_field_found(f, 8);
    lemma_field_found(f, 9);
    lemma_field_found(f, 10);
    lemma_pairs_read_back(m.trace_context, "trace_context"@);
}

/// A result message reads back from its JSON as it was written.
pub proof fn law_result_message_reads_back(m: ResultModel)
    ensures
        read_result(Json::Object(result_members(m))) == Ok::<ResultModel, WireFault>(m),
{
    lemma_result_fields(m);
    let f = result_fields(m);
    lemma_field_found(f, 0);
    lemma_field_found(f, 1);
    lemma_field_found(f, 2);
    lemma_field_found(f, 3);
    lemma_field_found(f, 4);
    lemma_field_found(f, 5);
    lemma_field_found(f, 6);
    lemma_field_found(f, 7);
    lemma_field_found(f, 8);
    lemma_pairs_read_back(m.trace_context, "trace_context"@);
}

/// No name stands twice among the members of fields that each have their own name.
proof fn lemma_fields_once(fields: Seq<(Seq<char>, Option<Json>)>)
    requires
        forall|j: int, k: int|
            0 <= j < k < fields.len() ==> (#[trigger] fields[j]).0 != (#[trigger] fields[k]).0,
    ensures
        named::names_once(fields_in_order(fields)),
    decreases fields.len(),
{
    if fields.len() > 0 {
        let rest = fields.drop_last();
        let last = fields.last();
        assert forall|j: int, k: int| 0 <= j < k < rest.len() implies (#[trigger] rest[j]).0 != (
        #[trigger] rest[k]).0 by {
            assert(fields[j].0 != fields[k].0);
        }
        lemma_fields_once(rest);
        let before = fields_in_order(rest);
        assert forall|i: int| 0 <= i < before.len() implies (#[trigger] before[i]).0 != last.0 by {
            if before[i].0 == last.0 {
                assert forall|j: int| 0 <= j < rest.len() implies (#[trigger] rest[j]).0 != last.0 by {
                    assert(fields[j].0 != fields[fields.len() - 1].0);
                }
                lemma_field_absent(rest, last.0);
                json::lemma_member_stands(before, last.0);
                assert(json::has_key(before, last.0));
            }
        }
        let all = fields_in_order(fields);
        assert(all == before + opt_member(last.0, last.1));
        assert forall|i: int, j: int| 0 <= i < j < all.len() implies (#[trigger] all[i]).0 != (
        #[trigger] all[j]).0 by {
            if j < before.len() {
                assert(before[i].0 != before[j].0);
            } else {
                assert(before[i].0 != last.0);
            }
        }
    }
}

/// Pairs of texts are read from what holds them.
proof fn lemma_pairs_held(
    field: Option<Json>,
    p: Option<Seq<(Seq<char>, Seq<char>)>>,
    key: Seq<char>,
)
    requires
        json::holds_field(field, pairs_json(p)),
    ensures
        read_opt_pairs(field, key) matches Ok(read) && json::holds_field(
            pairs_json(read),
            pairs_json(p),
        ),
{
    if let Some(pairs) = p {
        let members = pairs.map_values(|e: (Seq<char>, Seq<char>)| (e.0, Json::Text(e.1)));
        let held = field->Some_0->Object_0;
        assert forall|j: int| 0 <= j < held.len() implies (#[trigger] held[j]).1 is Text by {
            let i = choose|i: int|
                0 <= i < members.len() && (#[trigger] members[i]).0 == held[j].0 && json::holds(
                    held[j].1,
                    members[i].1,
                );
            assert(members[i].1 is Text);
        }
        assert(all_texts(held));
        let texts = held.map_values(|e: (Seq<char>, Json)| (e.0, e.1->Text_0));
        assert(texts.map_values(|e: (Seq<char>, Seq<char>)| (e.0, Json::Text(e.1))) =~= held);
    }
}

/// A task message reads back from bytes that are read as its JSON, as those are
/// that it is written as.
pub proof fn law_task_bytes_read_back(bytes: Seq<u8>, m: TaskModel)
    requires
        json::parses_to(bytes, Json::Object(task_members(m))),
    ensures
        task_reads_back(bytes, m),
{
    let tree = json::json_parsed(bytes)->Ok_0;
    lemma_task_fields(m);
    let f = task_fields(m);
    let held = tree->Object_0;
    let members = task_members(m);
    lemma_fields_once(f);
    lemma_field_found(f, 0);
    json::law_members_are_held(held, members, f[0].0);
    lemma_field_found(f, 1);
    json::law_members_are_held(held, members, f[1].0);
    lemma_field_found(f, 2);
    json::law_members_are_held(held, members, f[2].0);
    lemma_field_found(f, 3);
    json::law_members_are_held(held, members, f[3].0);
    lemma_field_found(f, 4);
    json::law_members_are_held(held, members, f[4].0);
    lemma_field_found(f, 5);
    json::law_members_are_held(held, members, f[5].0);
    lemma_field_found(f, 6);
    json::law_members_are_held(held, members, f[6].0);
    lemma_field_found(f, 7);
    json::law_members_are_held(held, members, f[7].0);
    lemma_field_found(f, 8);
    json::law_members_are_held(held, members, f[8].0);
    lemma_field_found(f, 9);
    json::law_members_are_held(held, members, f[9].0);
    lemma_field_found(f, 10);
    json::law_members_are_held(held, members, f[10].0);
    lemma_pairs_held(json::member(held, "trace_context"@), m.trace_context, "trace_context"@);
}

/// A result message reads back from bytes that are read as its JSON, as those are
/// that it is written as.
pub proof fn law_result_bytes_read_back(bytes: Seq<u8>, m: ResultModel)
    requires
        json::parses_to(bytes, Json::Object(result_members(m))),
    ensures
        result_reads_back(bytes, m),
{
    let tree = json::json_parsed(bytes)->Ok_0;
    lemma_result_fields(m);
    let f = result_fields(m);
    let held = tree->Object_0;
    let members = result_members(m);
    lemma_fields_once(f);
    lemma_field_found(f, 0);
    json::law_members_are_held(held, members, f[0].0);
    lemma_field_found(f, 1);
    json::law_members_are_held(held, members, f[1].0);
    lemma_field_found(f, 2);
    json::law_members_are_held(held, members, f[2].0);
    lemma_field_found(f, 3);
    json::law_members_are_held(held, members, f[3].0);
    lemma_field_found(f, 4);
    json::law_members_are_held(held, members, f[4].0);
    lemma_field_found(f, 5);
    json::law_members_are_held(held, members, f[5].0);
    lemma_field_found(f, 6);
    json::law_members_are_held(held, members, f[6].0);
    lemma_field_found(f, 7);
    json::law_members_are_held(held, members, f[7].0);
    lemma_field_found(f, 8);
    json::law_members_are_held(held, members, f[8].0);
    lemma_pairs_held(json::member(held, "trace_context"@), m.trace_context, "trace_context"@);
}

/// Plain fields make plain members.
proof fn lemma_fields_plain(fields: Seq<(Seq<char>, Option<Json>)>)
    requires
        "$serde_json::private::RawValue"@.len() >= 20,
        forall|i: int|
            0 <= i < fields.len() ==> (#[trigger] fields[i]).0.len() < 20 && plain_field(
                fields[i].1,
            ),
    ensures
        json::reads_back(Json::Object(fields_in_order(fields))),
    decreases fields.len(),
{
    if fields.len() > 0 {
        let rest = fields.drop_last();
        assert forall|i: int| 0 <= i < rest.len() implies (#[trigger] rest[i]).0.len() < 20
            && plain_field(rest[i].1) by {
            assert(rest[i] == fields[i]);
        }
        lemma_fields_plain(rest);
        let before = fields_in_order(rest);
        assert(Json::Object(before)->Object_0 == before);
        let all = fields_in_order(fields);
        assert(all == before + opt_member(fields.last().0, fields.last().1));
        assert(fields[fields.len() - 1] == fields.last());
        assert forall|i: int| 0 <= i < all.len() implies (#[trigger] all[i]).0
            != "$serde_json::private::RawValue"@ && json::is_plain(all[i].1, 126) by {
            if i < before.len() {
                assert(all[i] == before[i]);
            } else {
                assert(all[i].0 == fields.last().0);
            }
        }
    }
}

proof fn lemma_plain_task(m: TaskModel)
    requires
        task_is_plain(m),
    ensures
        json::reads_back(Json::Object(task_members(m))),
{
    reveal_strlit("$serde_json::private::RawValue");
    reveal_strlit("instance_id");
    reveal_strlit("node_id");
    reveal_strlit("dispatch_id");
    reveal_strlit("plugin_ref");
    reveal_strlit("config");
    reveal_strlit("input");
    reveal_strlit("parameters");
    reveal_strlit("capabilities");
    reveal_strlit("attempt");
    reveal_strlit("trace_context");
    reveal_strlit("v");
    lemma_task_fields(m);
    let f = task_fields(m);
    assert forall|i: int| 0 <= i < f.len() implies (#[trigger] f[i]).0.len() < 20 && plain_field(
        f[i].1,
    ) by {
        if i == 0 {
            assert(f[0].0 == "instance_id"@);
        } else if i == 1 {
            assert(f[1].0 == "node_id"@);
        } else if i == 2 {
            assert(f[2].0 == "dispatch_id"@);
        } else if i == 3 {
            assert(f[3].0 == "plugin_ref"@);
        } else if i == 4 {
            assert(f[4].0 == "config"@);
        } else if i == 5 {
            assert(f[5].0 == "input"@);
        } else if i == 6 {
            assert(f[6].0 == "parameters"@);
        } else if i == 7 {
            assert(f[7].0 == "capabilities"@);
        } else if i == 8 {
            assert(f[8].0 == "attempt"@);
        } else if i == 9 {
            assert(f[9].0 == "trace_context"@);
        } else if i == 10 {
            assert(f[10].0 == "v"@);
        }
    }
    lemma_fields_plain(f);
}

proof fn lemma_plain_result(m: ResultModel)
    requires
        result_is_plain(m),
    ensures
        json::reads_back(Json::Object(result_members(m))),
{
    reveal_strlit("$serde_json::private::RawValue");
    reveal_strlit("result_id");
    reveal_strlit("instance_id");
    reveal_strlit("node_id");
    reveal_strlit("attempt");
    reveal_strlit("dispatch_id");
    reveal_strlit("output");
    reveal_strlit("error");
    reveal_strlit("trace_context");
    reveal_strlit("v");
    lemma_result_fields(m);
    let f = result_fields(m);
    assert forall|i: int| 0 <= i < f.len() implies (#[trigger] f[i]).0.len() < 20 && plain_field(
        f[i].1,
    ) by {
        if i == 0 {
            assert(f[0].0 == "result_id"@);
        } else if i == 1 {
            assert(f[1].0 == "instance_id"@);
        } else if i == 2 {
            assert(f[2].0 == "node_id"@);
        } else if i == 3 {
            assert(f[3].0 == "attempt"@);
        } else if i == 4 {
            assert(f[4].0 == "dispatch_id"@);
        } else if i == 5 {
            assert(f[5].0 == "output"@);
        } else if i == 6 {
            assert(f[6].0 == "error"@);
        } else if i == 7 {
            assert(f[7].0 == "trace_context"@);
        } else if i == 8 {
            assert(f[8].0 == "v"@);
        }
    }
    lemma_fields_plain(f);
}

/// Messages from before there were trace contexts and versions stay readable:
/// what they leave out reads as nothing, and the version as the first.
pub proof fn law_old_task_messages_are_read(members: Seq<(Seq<char>, Json)>)
    requires
        json::member(members, "instance_id"@) matches Some(v) && v is Text,
        json::member(members, "node_id"@) matches Some(v) && v is Text,
        json::member(members, "plugin_ref"@) matches Some(v) && v is Text,
        json::member(members, "dispatch_id"@) is None,
        json::member(members, "config"@) is None,
        json::member(members, "input"@) is None,
        json::member(members, "parameters"@) is None,
        json::member(members, "capabilities"@) is None,
        json::member(members, "attempt"@) is None,
        json::member(members, "trace_context"@) is None,
        json::member(members, "v"@) is None,
    ensures
        read_task(Json::Object(members)) matches Ok(m) && m.v == 1 && m.attempt == 0
            && m.dispatch_id is None && m.config is None && m.input is None && m.parameters is None
            && m.capabilities is None && m.trace_context is None,
{
}

/// Results from workers that know neither dispatches nor versions stay readable.
pub proof fn law_old_result_messages_are_read(members: Seq<(Seq<char>, Json)>)
    requires
        json::member(members, "instance_id"@) matches Some(v) && v is Text,
        json::member(members, "node_id"@) matches Some(v) && v is Text,
        json::member(members, "result_id"@) is None,
        json::member(members, "attempt"@) is None,
        json::member(members, "dispatch_id"@) is None,
        json::member(members, "output"@) is None,
        json::member(members, "error"@) is None,
        json::member(members, "trace_context"@) is None,
        json::member(members, "v"@) is None,
    ensures
        read_result(Json::Object(members)) matches Ok(m) && m.v == 1 && m.attempt == 0
            && m.result_id is None && m.dispatch_id is None && m.output is None && m.error is None
            && m.trace_context is None,
{
}

/// Nothing stands for the field, or null does.
pub open spec fn is_left_out(field: Option<Json>) -> bool {
    field is None || field == Some(Json::Null)
}

/// The object has a member for each pair, with its name and its text.
pub open spec fn is_object_of(value: Json, pairs: Seq<(Seq<char>, Seq<char>)>) -> bool {
    &&& value is Object
    &&& value->Object_0.len() == pairs.len()
    &&& forall|i: int|
        0 <= i < pairs.len() ==> (#[trigger] value->Object_0[i]).0 == pairs[i].0
            && value->Object_0[i].1 == Json::Text(pairs[i].1)
}

/// The JSON of a task message holds each of its fields under the field's name, and
/// nothing for a field that it does not have.
pub proof fn law_task_json_holds_each_field(m: TaskModel)
    ensures
        ({
            let said = Json::Object(task_members(m));
            &&& json::json_get(said, "instance_id"@) == Some(Json::Text(m.instance_id))
            &&& json::json_get(said, "node_id"@) == Some(Json::Text(m.node_id))
            &&& m.dispatch_id is Some ==> json::json_get(said, "dispatch_id"@) == Some(Json::Text(m.dispatch_id->0))
            &&& m.dispatch_id is None ==> json::json_get(said, "dispatch_id"@) is None
            &&& json::json_get(said, "plugin_ref"@) == Some(Json::Text(m.plugin_ref))
            &&& m.config is Some ==> json::json_get(said, "config"@) == Some(Json::Object(m.config->0))
            &&& m.config is None ==> json::json_get(said, "config"@) is None
            &&& m.input is Some ==> json::json_get(said, "input"@) == Some(Json::Object(m.input->0))
            &&& m.input is None ==> json::json_get(said, "input"@) is None
            &&& m.parameters is Some ==> json::json_get(said, "parameters"@) == Some(Json::Object(m.parameters->0))
            &&& m.parameters is None ==> json::json_get(said, "parameters"@) is None
            &&& m.capabilities is Some ==> json::json_get(said, "capabilities"@) == Some(Json::Object(m.capabilities->0))
            &&& m.capabilities is None ==> json::json_get(said, "capabilities"@) is None
            &&& json::json_get(said, "attempt"@) is Some && json::json_i64(json::json_get(said, "attempt"@)->0) == Some(m.attempt as i64)
            &&& m.trace_context is Some ==> json::json_get(said, "trace_context"@) is Some && is_object_of(json::json_get(said, "trace_context"@)->0, m.trace_context->0)
            &&& m.trace_context is None ==> json::json_get(said, "trace_context"@) is None
            &&& json::json_get(said, "v"@) == Some(Json::Unsigned(m.v as u64))
        }),
{
    lemma_task_fields(m);
    let f = task_fields(m);
    lemma_field_found(f, 0);
    lemma_field_found(f, 1);
    lemma_field_found(f, 2);
    lemma_field_found(f, 3);
    lemma_field_found(f, 4);
    lemma_field_found(f, 5);
    lemma_field_found(f, 6);
    lemma_field_found(f, 7);
    lemma_field_found(f, 8);
    lemma_field_found(f, 9);
    lemma_field_found(f, 10);
}

/// A task message that is read from an object has in each field what the object
/// holds under the field's name; what it leaves out is none, or the default.
pub proof fn law_task_is_read_field_by_field(value: Json)
    requires
        value is Object,
        read_task(value) is Ok,
    ensures
        ({
            let m = read_task(value)->Ok_0;
            &&& json::json_get(value, "instance_id"@) == Some(Json::Text(m.instance_id))
            &&& json::json_get(value, "node_id"@) == Some(Json::Text(m.node_id))
            &&& m.dispatch_id is Some ==> json::json_get(value, "dispatch_id"@) == Some(Json::Text(m.dispatch_id->0))
            &&& m.dispatch_id is None ==> is_left_out(json::json_get(value, "dispatch_id"@))
            &&& json::json_get(value, "plugin_ref"@) == Some(Json::Text(m.plugin_ref))
            &&& m.config is Some ==> json::json_get(value, "config"@) == Some(Json::Object(m.config->0))
            &&& m.config is None ==> is_left_out(json::json_get(value, "config"@))
            &&& m.input is Some ==> json::json_get(value, "input"@) == Some(Json::Object(m.input->0))
            &&& m.input is None ==> is_left_out(json::json_get(value, "input"@))
            &&& m.parameters is Some ==> json::json_get(value, "parameters"@) == Some(Json::Object(m.parameters->0))
            &&& m.parameters is None ==> is_left_out(json::json_get(value, "parameters"@))
            &&& m.capabilities is Some ==> json::json_get(value, "capabilities"@) == Some(Json::Object(m.capabilities->0))
            &&& m.capabilities is None ==> is_left_out(json::json_get(value, "capabilities"@))
            &&& json::json_get(value, "attempt"@) is Some ==> json::json_i64(json::json_get(value, "attempt"@)->0) == Some(m.attempt as i64)
            &&& json::json_get(value, "attempt"@) is None ==> m.attempt == 0
            &&& m.trace_context is Some ==> json::json_get(value, "trace_context"@) is Some && is_object_of(json::json_get(value, "trace_context"@)->0, m.trace_context->0)
            &&& m.trace_context is None ==> is_left_out(json::json_get(value, "trace_context"@))
            &&& json::json_get(value, "v"@) is Some ==> json::json_get(value, "v"@) == Some(Json::Unsigned(m.v as u64))
            &&& json::json_get(value, "v"@) is None ==> m.v == 1
        }),
{
}

/// An object is no task message only where a field that every message has is left
/// out, or the field that is named holds something of the wrong kind.
pub proof fn law_task_is_refused_for_a_field(value: Json)
    requires
        value is Object,
    ensures
        read_task(value) matches Err(WireFault::Missing(field)) ==> (field == "instance_id"@ || field == "node_id"@ || field == "plugin_ref"@) && json::json_get(
            value,
            field,
        ) is None,
        read_task(value) matches Err(WireFault::Invalid(field)) ==> json::json_get(
            value,
            field,
        ) is Some,
        !(read_task(value) matches Err(WireFault::NotARecord)),
{
}

/// What is neither an object nor an array of at most as many items as a task message
/// has fields is none.
pub proof fn law_other_values_are_no_tasks(value: Json)
    requires
        !(value is Object),
        value is Array ==> value->Array_0.len() > 11,
    ensures
        read_task(value) == Err::<TaskModel, WireFault>(WireFault::NotARecord),
{
}

/// The JSON of a result message holds each of its fields under the field's name, and
/// nothing for a field that it does not have.
pub proof fn law_result_json_holds_each_field(m: ResultModel)
    ensures
        ({
            let said = Json::Object(result_members(m));
            &&& m.result_id is Some ==> json::json_get(said, "result_id"@) == Some(Json::Text(m.result_id->0))
            &&& m.result_id is None ==> json::json_get(said, "result_id"@) is None
            &&& json::json_get(said, "instance_id"@) == Some(Json::Text(m.instance_id))
            &&& json::json_get(said, "node_id"@) == Some(Json::Text(m.node_id))
            &&& json::json_get(said, "attempt"@) is Some && json::json_i64(json::json_get(said, "attempt"@)->0) == Some(m.attempt as i64)
            &&& m.dispatch_id is Some ==> json::json_get(said, "dispatch_id"@) == Some(Json::Text(m.dispatch_id->0))
            &&& m.dispatch_id is None ==> json::json_get(said, "dispatch_id"@) is None
            &&& m.output is Some ==> json::json_get(said, "output"@) == Some(Json::Object(m.output->0))
            &&& m.output is None ==> json::json_get(said, "output"@) is None
            &&& m.error is Some ==> json::json_get(said, "error"@) == Some(Json::Text(m.error->0))
            &&& m.error is None ==> json::json_get(said, "error"@) is None
            &&& m.trace_context is Some ==> json::json_get(said, "trace_context"@) is Some && is_object_of(json::json_get(said, "trace_context"@)->0, m.trace_context->0)
            &&& m.trace_context is None ==> json::json_get(said, "trace_context"@) is None
            &&& json::json_get(said, "v"@) == Some(Json::Unsigned(m.v as u64))
        }),
{
    lemma_result_fields(m);
    let f = result_fields(m);
    lemma_field_found(f, 0);
    lemma_field_found(f, 1);
    lemma_field_found(f, 2);
    lemma_field_found(f, 3);
    lemma_field_found(f, 4);
    lemma_field_found(f, 5);
    lemma_field_found(f, 6);
    lemma_field_found(f, 7);
    lemma_field_found(f, 8);
}

/// A result message that is read from an object has in each field what the object
/// holds under the field's name; what it leaves out is none, or the default.
pub proof fn law_result_is_read_field_by_field(value: Json)
    requires
        value is Object,
        read_result(value) is Ok,
    ensures
        ({
            let m = read_result(value)->Ok_0;
            &&& m.result_id is Some ==> json::json_get(value, "result_id"@) == Some(Json::Text(m.result_id->0))
            &&& m.result_id is None ==> is_left_out(json::json_get(value, "result_id"@))
            &&& json::json_get(value, "instance_id"@) == Some(Json::Text(m.instance_id))
            &&& json::json_get(value, "node_id"@) == Some(Json::Text(m.node_id))
            &&& json::json_get(value, "attempt"@) is Some ==> json::json_i64(json::json_get(value, "attempt"@)->0) == Some(m.attempt as i64)
            &&& json::json_get(value, "attempt"@) is None ==> m.attempt == 0
            &&& m.dispatch_id is Some ==> json::json_get(value, "dispatch_id"@) == Some(Json::Text(m.dispatch_id->0))
            &&& m.dispatch_id is None ==> is_left_out(json::json_get(value, "dispatch_id"@))
            &&& m.output is Some ==> json::json_get(value, "output"@) == Some(Json::Object(m.output->0))
            &&& m.output is None ==> is_left_out(json::json_get(value, "output"@))
            &&& m.error is Some ==> json::json_get(value, "error"@) == Some(Json::Text(m.error->0))
            &&& m.error is None ==> is_left_out(json::json_get(value, "error"@))
            &&& m.trace_context is Some ==> json::json_get(value, "trace_context"@) is Some && is_object_of(json::json_get(value, "trace_context"@)->0, m.trace_context->0)
            &&& m.trace_context is None ==> is_left_out(json::json_get(value, "trace_context"@))
            &&& json::json_get(value, "v"@) is Some ==> json::json_get(value, "v"@) == Some(Json::Unsigned(m.v as u64))
            &&& json::json_get(value, "v"@) is None ==> m.v == 1
        }),
{
}

/// An object is no result message only where a field that every message has is left
/// out, or the field that is named holds something of the wrong kind.
pub proof fn law_result_is_refused_for_a_field(value: Json)
    requires
        value is Object,
    ensures
        read_result(value) matches Err(WireFault::Missing(field)) ==> (field == "instance_id"@ || field == "node_id"@) && json::json_get(
            value,
            field,
        ) is None,
        read_result(value) matches Err(WireFault::Invalid(field)) ==> json::json_get(
            value,
            field,
        ) is Some,
        !(read_result(value) matches Err(WireFault::NotARecord)),
{
}

/// What is neither an object nor an array of at most as many items as a result message
/// has fields is none.
pub proof fn law_other_values_are_no_results(value: Json)
    requires
        !(value is Object),
        value is Array ==> value->Array_0.len() > 9,
    ensures
        read_result(value) == Err::<ResultModel, WireFault>(WireFault::NotARecord),
{
}

/// An array is read as a task message by the places of its items.
pub proof fn law_task_arrays_are_read_by_place(items: Seq<Json>)
    requires
        read_task(Json::Array(items)) is Ok,
    ensures
        4 <= items.len() <= 11,
        ({
            let m = read_task(Json::Array(items))->Ok_0;
            &&& items[0] == Json::Text(m.instance_id)
            &&& items[1] == Json::Text(m.node_id)
            &&& m.dispatch_id is Some ==> items.len() > 2 && items[2] == Json::Text(m.dispatch_id->0)
            &&& m.dispatch_id is None ==> items.len() <= 2 || items[2] == Json::Null
            &&& items[3] == Json::Text(m.plugin_ref)
            &&& m.config is Some ==> items.len() > 4 && items[4] == Json::Object(m.config->0)
            &&& m.config is None ==> items.len() <= 4 || items[4] == Json::Null
            &&& m.input is Some ==> items.len() > 5 && items[5] == Json::Object(m.input->0)
            &&& m.input is None ==> items.len() <= 5 || items[5] == Json::Null
            &&& m.parameters is Some ==> items.len() > 6 && items[6] == Json::Object(m.parameters->0)
            &&& m.parameters is None ==> items.len() <= 6 || items[6] == Json::Null
            &&& m.capabilities is Some ==> items.len() > 7 && items[7] == Json::Object(m.capabilities->0)
            &&& m.capabilities is None ==> items.len() <= 7 || items[7] == Json::Null
            &&& items.len() <= 8 ==> m.attempt == 0
            &&& items.len() > 8 ==> json::json_i64(items[8]) == Some(m.attempt as i64)
            &&& m.trace_context is Some ==> items.len() > 9 && is_object_of(items[9], m.trace_context->0)
            &&& m.trace_context is None ==> items.len() <= 9 || items[9] == Json::Null
            &&& items.len() <= 10 ==> m.v == 1
            &&& items.len() > 10 ==> items[10] == Json::Unsigned(m.v as u64)
        }),
{
}

/// An array is read as a result message by the places of its items.
pub proof fn law_result_arrays_are_read_by_place(items: Seq<Json>)
    requires
        read_result(Json::Array(items)) is Ok,
    ensures
        3 <= items.len() <= 9,
        ({
            let m = read_result(Json::Array(items))->Ok_0;
            &&& m.result_id is Some ==> items.len() > 0 && items[0] == Json::Text(m.result_id->0)
            &&& m.result_id is None ==> items.len() <= 0 || items[0] == Json::Null
            &&& items[1] == Json::Text(m.instance_id)
            &&& items[2] == Json::Text(m.node_id)
            &&& items.len() <= 3 ==> m.attempt == 0
            &&& items.len() > 3 ==> json::json_i64(items[3]) == Some(m.attempt as i64)
            &&& m.dispatch_id is Some ==> items.len() > 4 && items[4] == Json::Text(m.dispatch_id->0)
            &&& m.dispatch_id is None ==> items.len() <= 4 || items[4] == Json::Null
            &&& m.output is Some ==> items.len() > 5 && items[5] == Json::Object(m.output->0)
            &&& m.output is None ==> items.len() <= 5 || items[5] == Json::Null
            &&& m.error is Some ==> items.len() > 6 && items[6] == Json::Text(m.error->0)
            &&& m.error is None ==> items.len() <= 6 || items[6] == Json::Null
            &&& m.trace_context is Some ==> items.len() > 7 && is_object_of(items[7], m.trace_context->0)
            &&& m.trace_context is None ==> items.len() <= 7 || items[7] == Json::Null
            &&& items.len() <= 8 ==> m.v == 1
            &&& items.len() > 8 ==> items[8] == Json::Unsigned(m.v as u64)
        }),
{
}

/// The models of messages hold each of their fields.
pub proof fn law_messages_are_modelled(task: TaskMessage, result: ResultMessage)
    ensures
        task@.instance_id == task.instance_id.0@,
        task@.node_id == task.node_id@,
        task@.dispatch_id == text::opt_text(task.dispatch_id),
        task@.plugin_ref == task.plugin_ref@,
        task@.attempt == task.attempt,
        task@.v == task.v,
        task.config is Some ==> task@.config == Some(json::members_view(task.config->0@)),
        task.config is None ==> task@.config is None,
        task.input is Some ==> task@.input == Some(json::members_view(task.input->0@)),
        task.input is None ==> task@.input is None,
        task.parameters is Some ==> task@.parameters == Some(
            json::members_view(task.parameters->0@),
        ),
        task.parameters is None ==> task@.parameters is None,
        task.capabilities is Some ==> task@.capabilities == Some(
            json::members_view(task.capabilities->0@),
        ),
        task.capabilities is None ==> task@.capabilities is None,
        task.trace_context is None ==> task@.trace_context is None,
        task.trace_context is Some ==> task@.trace_context == Some(
            pairs_view(task.trace_context->0@),
        ),
        result@.result_id == text::opt_text(result.result_id),
        result@.instance_id == result.instance_id.0@,
        result@.node_id == result.node_id@,
        result@.attempt == result.attempt,
        result@.dispatch_id == text::opt_text(result.dispatch_id),
        result.output is Some ==> result@.output == Some(json::members_view(result.output->0@)),
        result.output is None ==> result@.output is None,
        result@.error == text::opt_text(result.error),
        result.trace_context is None ==> result@.trace_context is None,
        result.trace_context is Some ==> result@.trace_context == Some(
            pairs_view(result.trace_context->0@),
        ),
        result@.v == result.v,
{
}

/// The pairs of a trace context are modelled one by one.
pub proof fn law_trace_contexts_are_modelled(v: Seq<(String, String)>)
    ensures
        pairs_view(v).len() == v.len(),
        forall|i: int|
            0 <= i < v.len() ==> (#[trigger] pairs_view(v)[i]).0 == v[i].0@ && pairs_view(v)[i].1
                == v[i].1@,
{
}

/// A written message is read as itself: what `same_task` and `same_result` allow is
/// another order within a map, and nothing else.
pub proof fn law_sameness_is_of_every_field(
    read: TaskModel,
    m: TaskModel,
    got: ResultModel,
    r: ResultModel,
)
    requires
        same_task(read, m),
        same_result(got, r),
    ensures
        read.instance_id == m.instance_id,
        read.node_id == m.node_id,
        read.dispatch_id == m.dispatch_id,
        read.plugin_ref == m.plugin_ref,
        read.attempt == m.attempt,
        read.v == m.v,
        read.config is Some <==> m.config is Some,
        read.input is Some <==> m.input is Some,
        read.parameters is Some <==> m.parameters is Some,
        read.capabilities is Some <==> m.capabilities is Some,
        read.trace_context is Some <==> m.trace_context is Some,
        m.config is Some ==> json::holds(Json::Object(read.config->0), Json::Object(m.config->0)),
        m.input is Some ==> json::holds(Json::Object(read.input->0), Json::Object(m.input->0)),
        m.parameters is Some ==> json::holds(
            Json::Object(read.parameters->0),
            Json::Object(m.parameters->0),
        ),
        m.capabilities is Some ==> json::holds(
            Json::Object(read.capabilities->0),
            Json::Object(m.capabilities->0),
        ),
        got.result_id == r.result_id,
        got.instance_id == r.instance_id,
        got.node_id == r.node_id,
        got.attempt == r.attempt,
        got.dispatch_id == r.dispatch_id,
        got.error == r.error,
        got.v == r.v,
        r.output is Some ==> got.output is Some && json::holds(
            Json::Object(got.output->0),
            Json::Object(r.output->0),
        ),
{
}

/// What a value holds for a field: in an object the member with the field's name, in
/// an array the item at its place.
pub open spec fn held(value: Json, place: int, name: Seq<char>) -> Option<Json> {
    if value is Object {
        json::json_get(value, name)
    } else if value is Array && place < value->Array_0.len() {
        Some(value->Array_0[place])
    } else {
        None
    }
}

/// A text is there.
pub open spec fn is_a_text(field: Option<Json>) -> bool {
    field is Some && field->0 is Text
}

/// A text is there, or nothing.
pub open spec fn may_be_a_text(field: Option<Json>) -> bool {
    is_left_out(field) || field->0 is Text
}

/// An object is there, or nothing.
pub open spec fn may_be_an_object(field: Option<Json>) -> bool {
    is_left_out(field) || field->0 is Object
}

/// An object of texts is there, or nothing.
pub open spec fn may_be_texts(field: Option<Json>) -> bool {
    is_left_out(field) || (field->0 is Object && forall|i: int|
        0 <= i < field->0->Object_0.len() ==> (#[trigger] field->0->Object_0[i]).1 is Text)
}

/// A whole number of 32 bits is there, or no field.
pub open spec fn may_be_an_attempt(field: Option<Json>) -> bool {
    field is None || (json::json_i64(field->0) is Some && -0x8000_0000 <= json::json_i64(field->0)->0
        <= 0x7fff_ffff)
}

/// A number of one byte is there, or no field.
pub open spec fn may_be_a_version(field: Option<Json>) -> bool {
    field is None || (field->0 is Unsigned && field->0->Unsigned_0 <= 255)
}

/// A record is a task message exactly where each field is as it may be; else a field is
/// named that is not, or that is missing.
pub proof fn law_task_is_read_where_every_field_fits(value: Json)
    requires
        value is Object || (value is Array && value->Array_0.len() <= 11),
    ensures
        read_task(value) is Ok <==> {
            &&& is_a_text(held(value, 0, "instance_id"@))
            &&& is_a_text(held(value, 1, "node_id"@))
            &&& may_be_a_text(held(value, 2, "dispatch_id"@))
            &&& is_a_text(held(value, 3, "plugin_ref"@))
            &&& may_be_an_object(held(value, 4, "config"@))
            &&& may_be_an_object(held(value, 5, "input"@))
            &&& may_be_an_object(held(value, 6, "parameters"@))
            &&& may_be_an_object(held(value, 7, "capabilities"@))
            &&& may_be_an_attempt(held(value, 8, "attempt"@))
            &&& may_be_texts(held(value, 9, "trace_context"@))
            &&& may_be_a_version(held(value, 10, "v"@))
        },
        read_task(value) == Err::<TaskModel, WireFault>(WireFault::Invalid("instance_id"@)) ==> !is_a_text(
            held(value, 0, "instance_id"@),
        ) && held(value, 0, "instance_id"@) is Some,
        read_task(value) == Err::<TaskModel, WireFault>(WireFault::Invalid("node_id"@)) ==> !is_a_text(
            held(value, 1, "node_id"@),
        ) && held(value, 1, "node_id"@) is Some,
        read_task(value) == Err::<TaskModel, WireFault>(WireFault::Invalid("dispatch_id"@)) ==> !may_be_a_text(
            held(value, 2, "dispatch_id"@),
        ) && held(value, 2, "dispatch_id"@) is Some,
        read_task(value) == Err::<TaskModel, WireFault>(WireFault::Invalid("plugin_ref"@)) ==> !is_a_text(
            held(value, 3, "plugin_ref"@),
        ) && held(value, 3, "plugin_ref"@) is Some,
        read_task(value) == Err::<TaskModel, WireFault>(WireFault::Invalid("config"@)) ==> !may_be_an_object(
            held(value, 4, "config"@),
        ) && held(value, 4, "config"@) is Some,
        read_task(value) == Err::<TaskModel, WireFault>(WireFault::Invalid("input"@)) ==> !may_be_an_object(
            held(value, 5, "input"@),
        ) && held(value, 5, "input"@) is Some,
        read_task(value) == Err::<TaskModel, WireFault>(WireFault::Invalid("parameters"@)) ==> !may_be_an_object(
            held(value, 6, "parameters"@),
        ) && held(value, 6, "parameters"@) is Some,
        read_task(value) == Err::<TaskModel, WireFault>(WireFault::Invalid("capabilities"@)) ==> !may_be_an_object(
            held(value, 7, "capabilities"@),
        ) && held(value, 7, "capabilities"@) is Some,
        read_task(value) == Err::<TaskModel, WireFault>(WireFault::Invalid("attempt"@)) ==> !may_be_an_attempt(
            held(value, 8, "attempt"@),
        ) && held(value, 8, "attempt"@) is Some,
        read_task(value) == Err::<TaskModel, WireFault>(WireFault::Invalid("trace_context"@)) ==> !may_be_texts(
            held(value, 9, "trace_context"@),
        ) && held(value, 9, "trace_context"@) is Some,
        read_task(value) == Err::<TaskModel, WireFault>(WireFault::Invalid("v"@)) ==> !may_be_a_version(
            held(value, 10, "v"@),
        ) && held(value, 10, "v"@) is Some,
        read_task(value) == Err::<TaskModel, WireFault>(WireFault::Missing("instance_id"@)) ==> held(value, 0, "instance_id"@) is None,
        read_task(value) == Err::<TaskModel, WireFault>(WireFault::Missing("node_id"@)) ==> held(value, 1, "node_id"@) is None,
        read_task(value) == Err::<TaskModel, WireFault>(WireFault::Missing("dispatch_id"@)) ==> held(value, 2, "dispatch_id"@) is None,
        read_task(value) == Err::<TaskModel, WireFault>(WireFault::Missing("plugin_ref"@)) ==> held(value, 3, "plugin_ref"@) is None,
        read_task(value) == Err::<TaskModel, WireFault>(WireFault::Missing("config"@)) ==> held(value, 4, "config"@) is None,
        read_task(value) == Err::<TaskModel, WireFault>(WireFault::Missing("input"@)) ==> held(value, 5, "input"@) is None,
        read_task(value) == Err::<TaskModel, WireFault>(WireFault::Missing("parameters"@)) ==> held(value, 6, "parameters"@) is None,
        read_task(value) == Err::<TaskModel, WireFault>(WireFault::Missing("capabilities"@)) ==> held(value, 7, "capabilities"@) is None,
        read_task(value) == Err::<TaskModel, WireFault>(WireFault::Missing("attempt"@)) ==> held(value, 8, "attempt"@) is None,
        read_task(value) == Err::<TaskModel, WireFault>(WireFault::Missing("trace_context"@)) ==> held(value, 9, "trace_context"@) is None,
        read_task(value) == Err::<TaskModel, WireFault>(WireFault::Missing("v"@)) ==> held(value, 10, "v"@) is None,
{
    reveal_strlit("instance_id");
    reveal_strlit("node_id");
    reveal_strlit("dispatch_id");
    reveal_strlit("plugin_ref");
    reveal_strlit("config");
    reveal_strlit("input");
    reveal_strlit("parameters");
    reveal_strlit("capabilities");
    reveal_strlit("attempt");
    reveal_strlit("trace_context");
    reveal_strlit("v");
    assert("instance_id"@.len() == 11 && "node_id"@.len() == 7 && "dispatch_id"@.len() == 11 && "plugin_ref"@.len() == 10 && "config"@.len() == 6 && "input"@.len() == 5 && "parameters"@.len() == 10 && "capabilities"@.len() == 12 && "attempt"@.len() == 7 && "trace_context"@.len() == 13 && "v"@.len() == 1);
    assert("instance_id"@[0] != "dispatch_id"@[0]);
    assert("plugin_ref"@[1] != "parameters"@[1]);
    assert("node_id"@[0] != "attempt"@[0]);
}

/// A record is a result message exactly where each field is as it may be; else a field
/// is named that is not, or that is missing.
pub proof fn law_result_is_read_where_every_field_fits(value: Json)
    requires
        value is Object || (value is Array && value->Array_0.len() <= 9),
    ensures
        read_result(value) is Ok <==> {
            &&& may_be_a_text(held(value, 0, "result_id"@))
            &&& is_a_text(held(value, 1, "instance_id"@))
            &&& is_a_text(held(value, 2, "node_id"@))
            &&& may_be_an_attempt(held(value, 3, "attempt"@))
            &&& may_be_a_text(held(value, 4, "dispatch_id"@))
            &&& may_be_an_object(held(value, 5, "output"@))
            &&& may_be_a_text(held(value, 6, "error"@))
            &&& may_be_texts(held(value, 7, "trace_context"@))
            &&& may_be_a_version(held(value, 8, "v"@))
        },
        read_result(value) == Err::<ResultModel, WireFault>(WireFault::Invalid("result_id"@)) ==> !may_be_a_text(
            held(value, 0, "result_id"@),
        ) && held(value, 0, "result_id"@) is Some,
        read_result(value) == Err::<ResultModel, WireFault>(WireFault::Invalid("instance_id"@)) ==> !is_a_text(
            held(value, 1, "instance_id"@),
        ) && held(value, 1, "instance_id"@) is Some,
        read_result(value) == Err::<ResultModel, WireFault>(WireFault::Invalid("node_id"@)) ==> !is_a_text(
            held(value, 2, "node_id"@),
        ) && held(value, 2, "node_id"@) is Some,
        read_result(value) == Err::<ResultModel, WireFault>(WireFault::Invalid("attempt"@)) ==> !may_be_an_attempt(
            held(value, 3, "attempt"@),
        ) && held(value, 3, "attempt"@) is Some,
        read_result(value) == Err::<ResultModel, WireFault>(WireFault::Invalid("dispatch_id"@)) ==> !may_be_a_text(
            held(value, 4, "dispatch_id"@),
        ) && held(value, 4, "dispatch_id"@) is Some,
        read_result(value) == Err::<ResultModel, WireFault>(WireFault::Invalid("output"@)) ==> !may_be_an_object(
            held(value, 5, "output"@),
        ) && held(value, 5, "output"@) is Some,
        read_result(value) == Err::<ResultModel, WireFault>(WireFault::Invalid("error"@)) ==> !may_be_a_text(
            held(value, 6, "error"@),
        ) && held(value, 6, "error"@) is Some,
        read_result(value) == Err::<ResultModel, WireFault>(WireFault::Invalid("trace_context"@)) ==> !may_be_texts(
            held(value, 7, "trace_context"@),
        ) && held(value, 7, "trace_context"@) is Some,
        read_result(value) == Err::<ResultModel, WireFault>(WireFault::Invalid("v"@)) ==> !may_be_a_version(
            held(value, 8, "v"@),
        ) && held(value, 8, "v"@) is Some,
        read_result(value) == Err::<ResultModel, WireFault>(WireFault::Missing("result_id"@)) ==> held(value, 0, "result_id"@) is None,
        read_result(value) == Err::<ResultModel, WireFault>(WireFault::Missing("instance_id"@)) ==> held(value, 1, "instance_id"@) is None,
        read_result(value) == Err::<ResultModel, WireFault>(WireFault::Missing("node_id"@)) ==> held(value, 2, "node_id"@) is None,
        read_result(value) == Err::<ResultModel, WireFault>(WireFault::Missing("attempt"@)) ==> held(value, 3, "attempt"@) is None,
        read_result(value) == Err::<ResultModel, WireFault>(WireFault::Missing("dispatch_id"@)) ==> held(value, 4, "dispatch_id"@) is None,
        read_result(value) == Err::<ResultModel, WireFault>(WireFault::Missing("output"@)) ==> held(value, 5, "output"@) is None,
        read_result(value) == Err::<ResultModel, WireFault>(WireFault::Missing("error"@)) ==> held(value, 6, "error"@) is None,
        read_result(value) == Err::<ResultModel, WireFault>(WireFault::Missing("trace_context"@)) ==> held(value, 7, "trace_context"@) is None,
        read_result(value) == Err::<ResultModel, WireFault>(WireFault::Missing("v"@)) ==> held(value, 8, "v"@) is None,
{
    reveal_strlit("result_id");
    reveal_strlit("instance_id");
    reveal_strlit("node_id");
    reveal_strlit("attempt");
    reveal_strlit("dispatch_id");
    reveal_strlit("output");
    reveal_strlit("error");
    reveal_strlit("trace_context");
    reveal_strlit("v");
    assert("result_id"@.len() == 9 && "instance_id"@.len() == 11 && "node_id"@.len() == 7 && "attempt"@.len() == 7 && "dispatch_id"@.len() == 11 && "output"@.len() == 6 && "error"@.len() == 5 && "trace_context"@.len() == 13 && "v"@.len() == 1);
    assert("node_id"@[0] != "attempt"@[0]);
    assert("instance_id"@[0] != "dispatch_id"@[0]);
}

/// An attempt is written as the number that it is.
pub proof fn law_attempts_are_written_exactly(n: i32)
    ensures
        n < 0 ==> number_json(n) == Json::Negative(n as i64),
        n >= 0 ==> number_json(n) == Json::Unsigned(n as u64),
{
}

} // verus!
