//! The wire form of messages: each message is one JSON object holding
//! `message_id`, `message_type` and the fields of its kind.
use vstd::prelude::*;
use crate::json::{Json, JsonV, JsonValue, Number, find_key, find_member, lemma_object_view};
use crate::message::{Message, MessageV, MessageInner, InnerV, Function, Sensor, Axis, Stream};

verus! {

broadcast use vstd::std_specs::vec::group_vec_axioms;

/// The fields that messages are written with.
#[derive(Clone, Copy, PartialEq, Eq, Structural, Debug)]
pub enum Field {
    MessageId,
    MessageType,
    Name,
    Functions,
    Sensors,
    Axes,
    Streams,
    Destination,
    Parameters,
    ReplyTo,
    Returns,
    Value,
    Operation,
    Reason,
    Machine,
    Stream,
    IsReply,
    Machines,
    Connected,
    Data,
}

impl Field {
    /// The member name of the field.
    pub open spec fn key(self) -> Seq<char> {
        match self {
            Field::MessageId => "message_id"@,
            Field::MessageType => "message_type"@,
            Field::Name => "name"@,
            Field::Functions => "functions"@,
            Field::Sensors => "sensors"@,
            Field::Axes => "axes"@,
            Field::Streams => "streams"@,
            Field::Destination => "destination"@,
            Field::Parameters => "parameters"@,
            Field::ReplyTo => "reply_to"@,
            Field::Returns => "returns"@,
            Field::Value => "value"@,
            Field::Operation => "operation"@,
            Field::Reason => "reason"@,
            Field::Machine => "machine"@,
            Field::Stream => "stream"@,
            Field::IsReply => "is_reply"@,
            Field::Machines => "machines"@,
            Field::Connected => "connected"@,
            Field::Data => "data"@,
        }
    }

    /// The member name of the field.
    pub fn name(self) -> (r: &'static str)
        ensures
            r@ == self.key(),
    {
        match self {
            Field::MessageId => "message_id",
            Field::MessageType => "message_type",
            Field::Name => "name",
            Field::Functions => "functions",
            Field::Sensors => "sensors",
            Field::Axes => "axes",
            Field::Streams => "streams",
            Field::Destination => "destination",
            Field::Parameters => "parameters",
            Field::ReplyTo => "reply_to",
            Field::Returns => "returns",
            Field::Value => "value",
            Field::Operation => "operation",
            Field::Reason => "reason",
            Field::Machine => "machine",
            Field::Stream => "stream",
            Field::IsReply => "is_reply",
            Field::Machines => "machines",
            Field::Connected => "connected",
            Field::Data => "data",
        }
    }
}

/// Why a JSON value is not a message.
#[derive(Debug, PartialEq)]
pub enum DeserializeError {
    /// The value is not an object.
    NotAnObject,
    /// A field holds a value of the wrong type.
    InvalidType(Field),
    /// A required field is absent.
    MissingField(Field),
    /// A member that the message's kind does not have.
    UnknownField(String),
    /// A `message_type` that no kind of message has.
    UnknownVariant(String),
}

/// The model of a deserialization error.
pub enum DeserializeErrorV {
    NotAnObject,
    InvalidType(Field),
    MissingField(Field),
    UnknownField(Seq<char>),
    UnknownVariant(Seq<char>),
}

impl DeepView for DeserializeError {
    type V = DeserializeErrorV;

    open spec fn deep_view(&self) -> DeserializeErrorV {
        match self {
            DeserializeError::NotAnObject => DeserializeErrorV::NotAnObject,
            DeserializeError::InvalidType(f) => DeserializeErrorV::InvalidType(*f),
            DeserializeError::MissingField(f) => DeserializeErrorV::MissingField(*f),
            DeserializeError::UnknownField(s) => DeserializeErrorV::UnknownField(s@),
            DeserializeError::UnknownVariant(s) => DeserializeErrorV::UnknownVariant(s@),
        }
    }
}

pub type Members = Seq<(Seq<char>, JsonV)>;

/// Removes the first member that is named as `f` and reads its value.
pub open spec fn take<T: JsonValue>(s: Members, f: Field) -> Result<
    (<T as DeepView>::V, Members),
    DeserializeErrorV,
> {
    let i = find_key(s, f.key());
    if i < 0 {
        Err(DeserializeErrorV::MissingField(f))
    } else {
        match T::decode_spec(s[i].1) {
            Some(v) => Ok((v, s.remove(i))),
            None => Err(DeserializeErrorV::InvalidType(f)),
        }
    }
}

/// The payload, provided that no member is left over.
pub open spec fn finish(s: Members, inner: InnerV) -> Result<InnerV, DeserializeErrorV> {
    if s.len() == 0 {
        Ok(inner)
    } else {
        Err(DeserializeErrorV::UnknownField(s[0].0))
    }
}

fn take_field<T: JsonValue>(s: &mut Vec<(String, Json)>, f: Field) -> (r: Result<T, DeserializeError>)
    ensures
        match take::<T>(old(s).deep_view(), f) {
            Ok((v, rest)) => r is Ok && r->Ok_0.deep_view() == v && final(s).deep_view() == rest,
            Err(e) => r is Err && r->Err_0.deep_view() == e,
        },
{
    match find_member(s, f.name()) {
        None => Err(DeserializeError::MissingField(f)),
        Some(i) => match T::decode_json(&s[i].1) {
            Some(v) => {
                let ghost before = s.deep_view();
                let _ = s.remove(i);
                proof {
                    assert(s.deep_view() =~= before.remove(i as int));
                }
                Ok(v)
            },
            None => Err(DeserializeError::InvalidType(f)),
        },
    }
}

fn finish_fields(s: &mut Vec<(String, Json)>, inner: MessageInner) -> (r: Result<
    MessageInner,
    DeserializeError,
>)
    ensures
        match finish(old(s).deep_view(), inner.deep_view()) {
            Ok(v) => r is Ok && r->Ok_0.deep_view() == v,
            Err(e) => r is Err && r->Err_0.deep_view() == e,
        },
{
    if s.len() == 0 {
        Ok(inner)
    } else {
        let (k, _) = s.remove(0);
        Err(DeserializeError::UnknownField(k))
    }
}

/// Reads the fields of a `machine_description` payload.
pub open spec fn decode_machine_description(s: Members) -> Result<InnerV, DeserializeErrorV> {
    match take::<String>(s, Field::Name) {
        Err(e) => Err(e),
        Ok((name, s1)) =>         match take::<Vec<(String, Function)>>(s1, Field::Functions) {
            Err(e) => Err(e),
            Ok((functions, s2)) =>             match take::<Vec<(String, Sensor)>>(s2, Field::Sensors) {
                Err(e) => Err(e),
                Ok((sensors, s3)) =>                 match take::<Vec<(String, Axis)>>(s3, Field::Axes) {
                    Err(e) => Err(e),
                    Ok((axes, s4)) =>                     match take::<Vec<(String, Stream)>>(s4, Field::Streams) {
                        Err(e) => Err(e),
                        Ok((streams, s5)) => finish(s5, InnerV::MachineDescription { name: name, functions: functions, sensors: sensors, axes: axes, streams: streams }),
                    },
                },
            },
        },
    }
}

fn read_machine_description(s: &mut Vec<(String, Json)>) -> (r: Result<MessageInner, DeserializeError>)
    ensures
        match decode_machine_description(old(s).deep_view()) {
            Ok(v) => r is Ok && r->Ok_0.deep_view() == v,
            Err(e) => r is Err && r->Err_0.deep_view() == e,
        },
{
    let name = match take_field::<String>(s, Field::Name) {
        Ok(v) => v,
        Err(e) => {
            return Err(e);
        },
    };
    let functions = match take_field::<Vec<(String, Function)>>(s, Field::Functions) {
        Ok(v) => v,
        Err(e) => {
            return Err(e);
        },
    };
    let sensors = match take_field::<Vec<(String, Sensor)>>(s, Field::Sensors) {
        Ok(v) => v,
        Err(e) => {
            return Err(e);
        },
    };
    let axes = match take_field::<Vec<(String, Axis)>>(s, Field::Axes) {
        Ok(v) => v,
        Err(e) => {
            return Err(e);
        },
    };
    let streams = match take_field::<Vec<(String, Stream)>>(s, Field::Streams) {
        Ok(v) => v,
        Err(e) => {
            return Err(e);
        },
    };
    finish_fields(s, MessageInner::MachineDescription { name: name, functions: functions, sensors: sensors, axes: axes, streams: streams })
}

/// Reads the fields of a `function_call` payload.
pub open spec fn decode_function_call(s: Members) -> Result<InnerV, DeserializeErrorV> {
    match take::<String>(s, Field::Destination) {
        Err(e) => Err(e),
        Ok((destination, s1)) =>         match take::<String>(s1, Field::Name) {
            Err(e) => Err(e),
            Ok((name, s2)) =>             match take::<Vec<(String, Json)>>(s2, Field::Parameters) {
                Err(e) => Err(e),
                Ok((parameters, s3)) => finish(s3, InnerV::FunctionCall { destination: destination, name: name, parameters: parameters }),
            },
        },
    }
}

fn read_function_call(s: &mut Vec<(String, Json)>) -> (r: Result<MessageInner, DeserializeError>)
    ensures
        match decode_function_call(old(s).deep_view()) {
            Ok(v) => r is Ok && r->Ok_0.deep_view() == v,
            Err(e) => r is Err && r->Err_0.deep_view() == e,
        },
{
    let destination = match take_field::<String>(s, Field::Destination) {
        Ok(v) => v,
        Err(e) => {
            return Err(e);
        },
    };
    let name = match take_field::<String>(s, Field::Name) {
        Ok(v) => v,
        Err(e) => {
            return Err(e);
        },
    };
    let parameters = match take_field::<Vec<(String, Json)>>(s, Field::Parameters) {
        Ok(v) => v,
        Err(e) => {
            return Err(e);
        },
    };
    finish_fields(s, MessageInner::FunctionCall { destination: destination, name: name, parameters: parameters })
}

/// Reads the fields of a `function_return` payload.
pub open spec fn decode_function_return(s: Members) -> Result<InnerV, DeserializeErrorV> {
    match take::<i64>(s, Field::ReplyTo) {
        Err(e) => Err(e),
        Ok((reply_to, s1)) =>         match take::<Vec<(String, Json)>>(s1, Field::Returns) {
            Err(e) => Err(e),
            Ok((rets, s2)) => finish(s2, InnerV::FunctionReturn { reply_to: reply_to, returns: rets }),
        },
    }
}

fn read_function_return(s: &mut Vec<(String, Json)>) -> (r: Result<MessageInner, DeserializeError>)
    ensures
        match decode_function_return(old(s).deep_view()) {
            Ok(v) => r is Ok && r->Ok_0.deep_view() == v,
            Err(e) => r is Err && r->Err_0.deep_view() == e,
        },
{
    let reply_to = match take_field::<i64>(s, Field::ReplyTo) {
        Ok(v) => v,
        Err(e) => {
            return Err(e);
        },
    };
    let rets = match take_field::<Vec<(String, Json)>>(s, Field::Returns) {
        Ok(v) => v,
        Err(e) => {
            return Err(e);
        },
    };
    finish_fields(s, MessageInner::FunctionReturn { reply_to: reply_to, returns: rets })
}

/// Reads the fields of a `sensor_read` payload.
pub open spec fn decode_sensor_read(s: Members) -> Result<InnerV, DeserializeErrorV> {
    match take::<String>(s, Field::Destination) {
        Err(e) => Err(e),
        Ok((destination, s1)) =>         match take::<String>(s1, Field::Name) {
            Err(e) => Err(e),
            Ok((name, s2)) => finish(s2, InnerV::SensorRead { destination: destination, name: name }),
        },
    }
}

fn read_sensor_read(s: &mut Vec<(String, Json)>) -> (r: Result<MessageInner, DeserializeError>)
    ensures
        match decode_sensor_read(old(s).deep_view()) {
            Ok(v) => r is Ok && r->Ok_0.deep_view() == v,
            Err(e) => r is Err && r->Err_0.deep_view() == e,
        },
{
    let destination = match take_field::<String>(s, Field::Destination) {
        Ok(v) => v,
        Err(e) => {
            return Err(e);
        },
    };
    let name = match take_field::<String>(s, Field::Name) {
        Ok(v) => v,
        Err(e) => {
            return Err(e);
        },
    };
    finish_fields(s, MessageInner::SensorRead { destination: destination, name: name })
}

/// Reads the fields of a `sensor_return` payload.
pub open spec fn decode_sensor_return(s: Members) -> Result<InnerV, DeserializeErrorV> {
    match take::<i64>(s, Field::ReplyTo) {
        Err(e) => Err(e),
        Ok((reply_to, s1)) =>         match take::<Json>(s1, Field::Value) {
            Err(e) => Err(e),
            Ok((value, s2)) => finish(s2, InnerV::SensorReturn { reply_to: reply_to, value: value }),
        },
    }
}

fn read_sensor_return(s: &mut Vec<(String, Json)>) -> (r: Result<MessageInner, DeserializeError>)
    ensures
        match decode_sensor_return(old(s).deep_view()) {
            Ok(v) => r is Ok && r->Ok_0.deep_view() == v,
            Err(e) => r is Err && r->Err_0.deep_view() == e,
        },
{
    let reply_to = match take_field::<i64>(s, Field::ReplyTo) {
        Ok(v) => v,
        Err(e) => {
            return Err(e);
        },
    };
    let value = match take_field::<Json>(s, Field::Value) {
        Ok(v) => v,
        Err(e) => {
            return Err(e);
        },
    };
    finish_fields(s, MessageInner::SensorReturn { reply_to: reply_to, value: value })
}

/// Reads the fields of a `axis_change` payload.
pub open spec fn decode_axis_change(s: Members) -> Result<InnerV, DeserializeErrorV> {
    match take::<String>(s, Field::Destination) {
        Err(e) => Err(e),
        Ok((destination, s1)) =>         match take::<String>(s1, Field::Name) {
            Err(e) => Err(e),
            Ok((name, s2)) =>             match take::<Number>(s2, Field::Value) {
                Err(e) => Err(e),
                Ok((value, s3)) => finish(s3, InnerV::AxisChange { destination: destination, name: name, value: value }),
            },
        },
    }
}

fn read_axis_change(s: &mut Vec<(String, Json)>) -> (r: Result<MessageInner, DeserializeError>)
    ensures
        match decode_axis_change(old(s).deep_view()) {
            Ok(v) => r is Ok && r->Ok_0.deep_view() == v,
            Err(e) => r is Err && r->Err_0.deep_view() == e,
        },
{
    let destination = match take_field::<String>(s, Field::Destination) {
        Ok(v) => v,
        Err(e) => {
            return Err(e);
        },
    };
    let name = match take_field::<String>(s, Field::Name) {
        Ok(v) => v,
        Err(e) => {
            return Err(e);
        },
    };
    let value = match take_field::<Number>(s, Field::Value) {
        Ok(v) => v,
        Err(e) => {
            return Err(e);
        },
    };
    finish_fields(s, MessageInner::AxisChange { destination: destination, name: name, value: value })
}

/// Reads the fields of a `axis_return` payload.
pub open spec fn decode_axis_return(s: Members) -> Result<InnerV, DeserializeErrorV> {
    match take::<i64>(s, Field::ReplyTo) {
        Err(e) => Err(e),
        Ok((reply_to, s1)) => finish(s1, InnerV::AxisReturn { reply_to: reply_to }),
    }
}

fn read_axis_return(s: &mut Vec<(String, Json)>) -> (r: Result<MessageInner, DeserializeError>)
    ensures
        match decode_axis_return(old(s).deep_view()) {
            Ok(v) => r is Ok && r->Ok_0.deep_view() == v,
            Err(e) => r is Err && r->Err_0.deep_view() == e,
        },
{
    let reply_to = match take_field::<i64>(s, Field::ReplyTo) {
        Ok(v) => v,
        Err(e) => {
            return Err(e);
        },
    };
    finish_fields(s, MessageInner::AxisReturn { reply_to: reply_to })
}

/// Reads the fields of a `unsupported_operation` payload.
pub open spec fn decode_unsupported_operation(s: Members) -> Result<InnerV, DeserializeErrorV> {
    match take::<i64>(s, Field::ReplyTo) {
        Err(e) => Err(e),
        Ok((reply_to, s1)) =>         match take::<String>(s1, Field::Operation) {
            Err(e) => Err(e),
            Ok((operation, s2)) =>             match take::<String>(s2, Field::Reason) {
                Err(e) => Err(e),
                Ok((reason, s3)) => finish(s3, InnerV::UnsupportedOperation { reply_to: reply_to, operation: operation, reason: reason }),
            },
        },
    }
}

fn read_unsupported_operation(s: &mut Vec<(String, Json)>) -> (r: Result<MessageInner, DeserializeError>)
    ensures
        match decode_unsupported_operation(old(s).deep_view()) {
            Ok(v) => r is Ok && r->Ok_0.deep_view() == v,
            Err(e) => r is Err && r->Err_0.deep_view() == e,
        },
{
    let reply_to = match take_field::<i64>(s, Field::ReplyTo) {
        Ok(v) => v,
        Err(e) => {
            return Err(e);
        },
    };
    let operation = match take_field::<String>(s, Field::Operation) {
        Ok(v) => v,
        Err(e) => {
            return Err(e);
        },
    };
    let reason = match take_field::<String>(s, Field::Reason) {
        Ok(v) => v,
        Err(e) => {
            return Err(e);
        },
    };
    finish_fields(s, MessageInner::UnsupportedOperation { reply_to: reply_to, operation: operation, reason: reason })
}

/// Reads the fields of a `reset` payload.
pub open spec fn decode_reset(s: Members) -> Result<InnerV, DeserializeErrorV> {
    match take::<String>(s, Field::Destination) {
        Err(e) => Err(e),
        Ok((destination, s1)) => finish(s1, InnerV::Reset { destination: destination }),
    }
}

fn read_reset(s: &mut Vec<(String, Json)>) -> (r: Result<MessageInner, DeserializeError>)
    ensures
        match decode_reset(old(s).deep_view()) {
            Ok(v) => r is Ok && r->Ok_0.deep_view() == v,
            Err(e) => r is Err && r->Err_0.deep_view() == e,
        },
{
    let destination = match take_field::<String>(s, Field::Destination) {
        Ok(v) => v,
        Err(e) => {
            return Err(e);
        },
    };
    finish_fields(s, MessageInner::Reset { destination: destination })
}

/// Reads the fields of a `disconnect` payload.
pub open spec fn decode_disconnect(s: Members) -> Result<InnerV, DeserializeErrorV> {
    finish(s, InnerV::Disconnect)
}

fn read_disconnect(s: &mut Vec<(String, Json)>) -> (r: Result<MessageInner, DeserializeError>)
    ensures
        match decode_disconnect(old(s).deep_view()) {
            Ok(v) => r is Ok && r->Ok_0.deep_view() == v,
            Err(e) => r is Err && r->Err_0.deep_view() == e,
        },
{
    finish_fields(s, MessageInner::Disconnect)
}

/// Reads the fields of a `stream_descriptor` payload.
pub open spec fn decode_stream_description(s: Members) -> Result<InnerV, DeserializeErrorV> {
    match take::<String>(s, Field::Machine) {
        Err(e) => Err(e),
        Ok((machine, s1)) =>         match take::<String>(s1, Field::Stream) {
            Err(e) => Err(e),
            Ok((stream, s2)) => finish(s2, InnerV::StreamDescription { machine: machine, stream: stream }),
        },
    }
}

fn read_stream_description(s: &mut Vec<(String, Json)>) -> (r: Result<MessageInner, DeserializeError>)
    ensures
        match decode_stream_description(old(s).deep_view()) {
            Ok(v) => r is Ok && r->Ok_0.deep_view() == v,
            Err(e) => r is Err && r->Err_0.deep_view() == e,
        },
{
    let machine = match take_field::<String>(s, Field::Machine) {
        Ok(v) => v,
        Err(e) => {
            return Err(e);
        },
    };
    let stream = match take_field::<String>(s, Field::Stream) {
        Ok(v) => v,
        Err(e) => {
            return Err(e);
        },
    };
    finish_fields(s, MessageInner::StreamDescription { machine: machine, stream: stream })
}

/// Reads the fields of a `heartbeat` payload.
pub open spec fn decode_heartbeat(s: Members) -> Result<InnerV, DeserializeErrorV> {
    match take::<bool>(s, Field::IsReply) {
        Err(e) => Err(e),
        Ok((is_reply, s1)) => finish(s1, InnerV::Heartbeat { is_reply: is_reply }),
    }
}

fn read_heartbeat(s: &mut Vec<(String, Json)>) -> (r: Result<MessageInner, DeserializeError>)
    ensures
        match decode_heartbeat(old(s).deep_view()) {
            Ok(v) => r is Ok && r->Ok_0.deep_view() == v,
            Err(e) => r is Err && r->Err_0.deep_view() == e,
        },
{
    let is_reply = match take_field::<bool>(s, Field::IsReply) {
        Ok(v) => v,
        Err(e) => {
            return Err(e);
        },
    };
    finish_fields(s, MessageInner::Heartbeat { is_reply: is_reply })
}

/// Reads the fields of a `machine_list_request` payload.
pub open spec fn decode_machine_list_request(s: Members) -> Result<InnerV, DeserializeErrorV> {
    finish(s, InnerV::MachineListRequest)
}

fn read_machine_list_request(s: &mut Vec<(String, Json)>) -> (r: Result<MessageInner, DeserializeError>)
    ensures
        match decode_machine_list_request(old(s).deep_view()) {
            Ok(v) => r is Ok && r->Ok_0.deep_view() == v,
            Err(e) => r is Err && r->Err_0.deep_view() == e,
        },
{
    finish_fields(s, MessageInner::MachineListRequest)
}

/// Reads the fields of a `machine_list_reply` payload.
pub open spec fn decode_machine_list_reply(s: Members) -> Result<InnerV, DeserializeErrorV> {
    match take::<Vec<String>>(s, Field::Machines) {
        Err(e) => Err(e),
        Ok((machines, s1)) => finish(s1, InnerV::MachineListReply { machines: machines }),
    }
}

fn read_machine_list_reply(s: &mut Vec<(String, Json)>) -> (r: Result<MessageInner, DeserializeError>)
    ensures
        match decode_machine_list_reply(old(s).deep_view()) {
            Ok(v) => r is Ok && r->Ok_0.deep_view() == v,
            Err(e) => r is Err && r->Err_0.deep_view() == e,
        },
{
    let machines = match take_field::<Vec<String>>(s, Field::Machines) {
        Ok(v) => v,
        Err(e) => {
            return Err(e);
        },
    };
    finish_fields(s, MessageInner::MachineListReply { machines: machines })
}

/// Reads the fields of a `setup_response` payload.
pub open spec fn decode_setup_response(s: Members) -> Result<InnerV, DeserializeErrorV> {
    match take::<bool>(s, Field::Connected) {
        Err(e) => Err(e),
        Ok((connected, s1)) => finish(s1, InnerV::SetupResponse { connected: connected }),
    }
}

fn read_setup_response(s: &mut Vec<(String, Json)>) -> (r: Result<MessageInner, DeserializeError>)
    ensures
        match decode_setup_response(old(s).deep_view()) {
            Ok(v) => r is Ok && r->Ok_0.deep_view() == v,
            Err(e) => r is Err && r->Err_0.deep_view() == e,
        },
{
    let connected = match take_field::<bool>(s, Field::Connected) {
        Ok(v) => v,
        Err(e) => {
            return Err(e);
        },
    };
    finish_fields(s, MessageInner::SetupResponse { connected: connected })
}

/// Reads the fields of a `other` payload.
pub open spec fn decode_other(s: Members) -> Result<InnerV, DeserializeErrorV> {
    match take::<Json>(s, Field::Data) {
        Err(e) => Err(e),
        Ok((data, s1)) => finish(s1, InnerV::Other { data: data }),
    }
}

fn read_other(s: &mut Vec<(String, Json)>) -> (r: Result<MessageInner, DeserializeError>)
    ensures
        match decode_other(old(s).deep_view()) {
            Ok(v) => r is Ok && r->Ok_0.deep_view() == v,
            Err(e) => r is Err && r->Err_0.deep_view() == e,
        },
{
    let data = match take_field::<Json>(s, Field::Data) {
        Ok(v) => v,
        Err(e) => {
            return Err(e);
        },
    };
    finish_fields(s, MessageInner::Other { data: data })
}

/// Reads the fields of the payload that `tag` names.
pub open spec fn decode_inner(tag: Seq<char>, s: Members) -> Result<InnerV, DeserializeErrorV> {
    if tag == "machine_description"@ {
        decode_machine_description(s)
    } else if tag == "function_call"@ {
        decode_function_call(s)
    } else if tag == "function_return"@ {
        decode_function_return(s)
    } else if tag == "sensor_read"@ {
        decode_sensor_read(s)
    } else if tag == "sensor_return"@ {
        decode_sensor_return(s)
    } else if tag == "axis_change"@ {
        decode_axis_change(s)
    } else if tag == "axis_return"@ {
        decode_axis_return(s)
    } else if tag == "unsupported_operation"@ {
        decode_unsupported_operation(s)
    } else if tag == "reset"@ {
        decode_reset(s)
    } else if tag == "disconnect"@ {
        decode_disconnect(s)
    } else if tag == "stream_descriptor"@ {
        decode_stream_description(s)
    } else if tag == "heartbeat"@ {
        decode_heartbeat(s)
    } else if tag == "machine_list_request"@ {
        decode_machine_list_request(s)
    } else if tag == "machine_list_reply"@ {
        decode_machine_list_reply(s)
    } else if tag == "setup_response"@ {
        decode_setup_response(s)
    } else if tag == "other"@ {
        decode_other(s)
    } else {
        Err(DeserializeErrorV::UnknownVariant(tag))
    }
}

fn read_inner(tag: String, s: &mut Vec<(String, Json)>) -> (r: Result<MessageInner, DeserializeError>)
    ensures
        match decode_inner(tag@, old(s).deep_view()) {
            Ok(v) => r is Ok && r->Ok_0.deep_view() == v,
            Err(e) => r is Err && r->Err_0.deep_view() == e,
        },
{
    if tag == String::from_str("machine_description") {
        read_machine_description(s)
    } else if tag == String::from_str("function_call") {
        read_function_call(s)
    } else if tag == String::from_str("function_return") {
        read_function_return(s)
    } else if tag == String::from_str("sensor_read") {
        read_sensor_read(s)
    } else if tag == String::from_str("sensor_return") {
        read_sensor_return(s)
    } else if tag == String::from_str("axis_change") {
        read_axis_change(s)
    } else if tag == String::from_str("axis_return") {
        read_axis_return(s)
    } else if tag == String::from_str("unsupported_operation") {
        read_unsupported_operation(s)
    } else if tag == String::from_str("reset") {
        read_reset(s)
    } else if tag == String::from_str("disconnect") {
        read_disconnect(s)
    } else if tag == String::from_str("stream_descriptor") {
        read_stream_description(s)
    } else if tag == String::from_str("heartbeat") {
        read_heartbeat(s)
    } else if tag == String::from_str("machine_list_request") {
        read_machine_list_request(s)
    } else if tag == String::from_str("machine_list_reply") {
        read_machine_list_reply(s)
    } else if tag == String::from_str("setup_response") {
        read_setup_response(s)
    } else if tag == String::from_str("other") {
        read_other(s)
    } else {
        Err(DeserializeError::UnknownVariant(tag))
    }
}

/// The members that a payload's fields are written as.
pub open spec fn encode_inner(inner: InnerV) -> Members {
    match inner {
        InnerV::MachineDescription { name: name, functions: functions, sensors: sensors, axes: axes, streams: streams } => seq![(Field::Name.key(), String::encode_spec(name)), (Field::Functions.key(), <Vec<(String, Function)>>::encode_spec(functions)), (Field::Sensors.key(), <Vec<(String, Sensor)>>::encode_spec(sensors)), (Field::Axes.key(), <Vec<(String, Axis)>>::encode_spec(axes)), (Field::Streams.key(), <Vec<(String, Stream)>>::encode_spec(streams))],
        InnerV::FunctionCall { destination: destination, name: name, parameters: parameters } => seq![(Field::Destination.key(), String::encode_spec(destination)), (Field::Name.key(), String::encode_spec(name)), (Field::Parameters.key(), <Vec<(String, Json)>>::encode_spec(parameters))],
        InnerV::FunctionReturn { reply_to: reply_to, returns: rets } => seq![(Field::ReplyTo.key(), i64::encode_spec(reply_to)), (Field::Returns.key(), <Vec<(String, Json)>>::encode_spec(rets))],
        InnerV::SensorRead { destination: destination, name: name } => seq![(Field::Destination.key(), String::encode_spec(destination)), (Field::Name.key(), String::encode_spec(name))],
        InnerV::SensorReturn { reply_to: reply_to, value: value } => seq![(Field::ReplyTo.key(), i64::encode_spec(reply_to)), (Field::Value.key(), Json::encode_spec(value))],
        InnerV::AxisChange { destination: destination, name: name, value: value } => seq![(Field::Destination.key(), String::encode_spec(destination)), (Field::Name.key(), String::encode_spec(name)), (Field::Value.key(), Number::encode_spec(value))],
        InnerV::AxisReturn { reply_to: reply_to } => seq![(Field::ReplyTo.key(), i64::encode_spec(reply_to))],
        InnerV::UnsupportedOperation { reply_to: reply_to, operation: operation, reason: reason } => seq![(Field::ReplyTo.key(), i64::encode_spec(reply_to)), (Field::Operation.key(), String::encode_spec(operation)), (Field::Reason.key(), String::encode_spec(reason))],
        InnerV::Reset { destination: destination } => seq![(Field::Destination.key(), String::encode_spec(destination))],
        InnerV::Disconnect => seq![],
        InnerV::StreamDescription { machine: machine, stream: stream } => seq![(Field::Machine.key(), String::encode_spec(machine)), (Field::Stream.key(), String::encode_spec(stream))],
        InnerV::Heartbeat { is_reply: is_reply } => seq![(Field::IsReply.key(), bool::encode_spec(is_reply))],
        InnerV::MachineListRequest => seq![],
        InnerV::MachineListReply { machines: machines } => seq![(Field::Machines.key(), <Vec<String>>::encode_spec(machines))],
        InnerV::SetupResponse { connected: connected } => seq![(Field::Connected.key(), bool::encode_spec(connected))],
        InnerV::Other { data: data } => seq![(Field::Data.key(), Json::encode_spec(data))],
    }
}
/// The JSON object that a message is written as.
pub open spec fn encode_message(m: MessageV) -> JsonV {
    JsonV::Object(
        seq![
            (Field::MessageId.key(), JsonV::Int(m.message_id)),
            (Field::MessageType.key(), JsonV::Str(m.inner.tag())),
        ] + encode_inner(m.inner),
    )
}

/// What reading a JSON value as a message gives. `message_id` may be absent
/// (it is then -1); every other field that the kind has is required, and no
/// other member may be present.
pub open spec fn decode_message(j: JsonV) -> Result<MessageV, DeserializeErrorV> {
    match j {
        JsonV::Object(s) => {
            let i = find_key(s, Field::MessageId.key());
            if i >= 0 && !(s[i].1 is Int) {
                Err(DeserializeErrorV::InvalidType(Field::MessageId))
            } else {
                let id: i64 = if i < 0 {
                    -1i64
                } else {
                    s[i].1->Int_0
                };
                let s1 = if i < 0 {
                    s
                } else {
                    s.remove(i)
                };
                match take::<String>(s1, Field::MessageType) {
                    Err(e) => Err(e),
                    Ok((tag, s2)) => match decode_inner(tag, s2) {
                        Ok(inner) => Ok(MessageV { message_id: id, inner }),
                        Err(e) => Err(e),
                    },
                }
            }
        },
        _ => Err(DeserializeErrorV::NotAnObject),
    }
}

fn copy_members(v: &Vec<(String, Json)>) -> (r: Vec<(String, Json)>)
    ensures
        r.deep_view() == v.deep_view(),
{
    let mut out: Vec<(String, Json)> = Vec::new();
    let mut i: usize = 0;
    while i < v.len()
        invariant
            i <= v.len(),
            out.deep_view() =~= v.deep_view().take(i as int),
        decreases v.len() - i,
    {
        let ghost prev = out.deep_view();
        out.push((v[i].0.clone(), v[i].1.copy()));
        proof {
            assert(out.deep_view() =~= prev.push(v.deep_view()[i as int]));
            assert(v.deep_view().take(i + 1) =~= v.deep_view().take(i as int).push(
                v.deep_view()[i as int],
            ));
        }
        i += 1;
    }
    proof {
        assert(v.deep_view().take(v.len() as int) =~= v.deep_view());
    }
    out
}

impl Message {
    /// Writes the message as a JSON object: `message_id`, `message_type`,
    /// then the fields of its kind.
    pub fn serialize(&self) -> (r: Json)
        ensures
            r.deep_view() == encode_message(self.deep_view()),
    {
        let mut v: Vec<(String, Json)> = Vec::new();
        v.push((String::from_str(Field::MessageId.name()), Json::Int(self.message_id)));
        v.push((String::from_str(Field::MessageType.name()), Json::Str(String::from_str(self.inner.variant_name()))));
        match &self.inner {
            MessageInner::MachineDescription { name: name, functions: functions, sensors: sensors, axes: axes, streams: streams } => {
                v.push((String::from_str(Field::Name.name()), name.encode_json()));
                v.push((String::from_str(Field::Functions.name()), functions.encode_json()));
                v.push((String::from_str(Field::Sensors.name()), sensors.encode_json()));
                v.push((String::from_str(Field::Axes.name()), axes.encode_json()));
                v.push((String::from_str(Field::Streams.name()), streams.encode_json()));
            },
            MessageInner::FunctionCall { destination: destination, name: name, parameters: parameters } => {
                v.push((String::from_str(Field::Destination.name()), destination.encode_json()));
                v.push((String::from_str(Field::Name.name()), name.encode_json()));
                v.push((String::from_str(Field::Parameters.name()), parameters.encode_json()));
            },
            MessageInner::FunctionReturn { reply_to: reply_to, returns: rets } => {
                v.push((String::from_str(Field::ReplyTo.name()), reply_to.encode_json()));
                v.push((String::from_str(Field::Returns.name()), rets.encode_json()));
            },
            MessageInner::SensorRead { destination: destination, name: name } => {
                v.push((String::from_str(Field::Destination.name()), destination.encode_json()));
                v.push((String::from_str(Field::Name.name()), name.encode_json()));
            },
            MessageInner::SensorReturn { reply_to: reply_to, value: value } => {
                v.push((String::from_str(Field::ReplyTo.name()), reply_to.encode_json()));
                v.push((String::from_str(Field::Value.name()), value.encode_json()));
            },
            MessageInner::AxisChange { destination: destination, name: name, value: value } => {
                v.push((String::from_str(Field::Destination.name()), destination.encode_json()));
                v.push((String::from_str(Field::Name.name()), name.encode_json()));
                v.push((String::from_str(Field::Value.name()), value.encode_json()));
            },
            MessageInner::AxisReturn { reply_to: reply_to } => {
                v.push((String::from_str(Field::ReplyTo.name()), reply_to.encode_json()));
            },
            MessageInner::UnsupportedOperation { reply_to: reply_to, operation: operation, reason: reason } => {
                v.push((String::from_str(Field::ReplyTo.name()), reply_to.encode_json()));
                v.push((String::from_str(Field::Operation.name()), operation.encode_json()));
                v.push((String::from_str(Field::Reason.name()), reason.encode_json()));
            },
            MessageInner::Reset { destination: destination } => {
                v.push((String::from_str(Field::Destination.name()), destination.encode_json()));
            },
            MessageInner::Disconnect => {
            },
            MessageInner::StreamDescription { machine: machine, stream: stream } => {
                v.push((String::from_str(Field::Machine.name()), machine.encode_json()));
                v.push((String::from_str(Field::Stream.name()), stream.encode_json()));
            },
            MessageInner::Heartbeat { is_reply: is_reply } => {
                v.push((String::from_str(Field::IsReply.name()), is_reply.encode_json()));
            },
            MessageInner::MachineListRequest => {
            },
            MessageInner::MachineListReply { machines: machines } => {
                v.push((String::from_str(Field::Machines.name()), machines.encode_json()));
            },
            MessageInner::SetupResponse { connected: connected } => {
                v.push((String::from_str(Field::Connected.name()), connected.encode_json()));
            },
            MessageInner::Other { data: data } => {
                v.push((String::from_str(Field::Data.name()), data.encode_json()));
            },
        }
        proof {
            lemma_object_view(v);
            assert(v.deep_view() =~= encode_message(self.deep_view())->Object_0);
        }
        Json::Object(v)
    }

    /// Reads a message from a JSON value; see `decode_message`.
    pub fn deserialize(json: &Json) -> (r: Result<Message, DeserializeError>)
        ensures
            match decode_message(json.deep_view()) {
                Ok(m) => r is Ok && r->Ok_0.deep_view() == m,
                Err(e) => r is Err && r->Err_0.deep_view() == e,
            },
    {
        match json {
            Json::Object(members) => {
                proof {
                    lemma_object_view(*members);
                }
                let mut s = copy_members(members);
                let message_id: i64 = match find_member(&s, Field::MessageId.name()) {
                    None => -1,
                    Some(i) => {
                        let id: i64 = match &s[i].1 {
                            Json::Int(id) => *id,
                            _ => {
                                return Err(DeserializeError::InvalidType(Field::MessageId));
                            },
                        };
                        let ghost before = s.deep_view();
                        let _ = s.remove(i);
                        proof {
                            assert(s.deep_view() =~= before.remove(i as int));
                        }
                        id
                    },
                };
                let tag = match take_field::<String>(&mut s, Field::MessageType) {
                    Ok(t) => t,
                    Err(e) => {
                        return Err(e);
                    },
                };
                match read_inner(tag, &mut s) {
                    Ok(inner) => Ok(Message { message_id, inner }),
                    Err(e) => Err(e),
                }
            },
            _ => Err(DeserializeError::NotAnObject),
        }
    }
}

/// A member named `key` at the front is the one that `take` finds.
proof fn lemma_take_front<T: JsonValue>(s: Members, f: Field, v: <T as DeepView>::V)
    requires
        s.len() > 0,
        s[0] == (f.key(), T::encode_spec(v)),
    ensures
        take::<T>(s, f) == Ok::<(<T as DeepView>::V, Members), DeserializeErrorV>((v, s.drop_first())),
{
    T::lemma_decode_encode(v);
    assert(s.remove(0) =~= s.drop_first());
}

/// Reading back the fields that a payload is written as gives the payload.
pub proof fn lemma_inner_round_trip(inner: InnerV)
    ensures
        decode_inner(inner.tag(), encode_inner(inner)) == Ok::<InnerV, DeserializeErrorV>(inner),
{
    lemma_tags_distinct();
    let s0 = encode_inner(inner);
    match inner {
        InnerV::MachineDescription { name: name, functions: functions, sensors: sensors, axes: axes, streams: streams } => {
            lemma_take_front::<String>(s0, Field::Name, name);
            let s1 = s0.drop_first();
            lemma_take_front::<Vec<(String, Function)>>(s1, Field::Functions, functions);
            let s2 = s1.drop_first();
            lemma_take_front::<Vec<(String, Sensor)>>(s2, Field::Sensors, sensors);
            let s3 = s2.drop_first();
            lemma_take_front::<Vec<(String, Axis)>>(s3, Field::Axes, axes);
            let s4 = s3.drop_first();
            lemma_take_front::<Vec<(String, Stream)>>(s4, Field::Streams, streams);
            let s5 = s4.drop_first();
            assert(s5.len() == 0);
            assert(decode_machine_description(s0) == Ok::<InnerV, DeserializeErrorV>(inner));
        },
        InnerV::FunctionCall { destination: destination, name: name, parameters: parameters } => {
            lemma_take_front::<String>(s0, Field::Destination, destination);
            let s1 = s0.drop_first();
            lemma_take_front::<String>(s1, Field::Name, name);
            let s2 = s1.drop_first();
            lemma_take_front::<Vec<(String, Json)>>(s2, Field::Parameters, parameters);
            let s3 = s2.drop_first();
            assert(s3.len() == 0);
            assert(decode_function_call(s0) == Ok::<InnerV, DeserializeErrorV>(inner));
        },
        InnerV::FunctionReturn { reply_to: reply_to, returns: rets } => {
            lemma_take_front::<i64>(s0, Field::ReplyTo, reply_to);
            let s1 = s0.drop_first();
            lemma_take_front::<Vec<(String, Json)>>(s1, Field::Returns, rets);
            let s2 = s1.drop_first();
            assert(s2.len() == 0);
            assert(decode_function_return(s0) == Ok::<InnerV, DeserializeErrorV>(inner));
        },
        InnerV::SensorRead { destination: destination, name: name } => {
            lemma_take_front::<String>(s0, Field::Destination, destination);
            let s1 = s0.drop_first();
            lemma_take_front::<String>(s1, Field::Name, name);
            let s2 = s1.drop_first();
            assert(s2.len() == 0);
            assert(decode_sensor_read(s0) == Ok::<InnerV, DeserializeErrorV>(inner));
        },
        InnerV::SensorReturn { reply_to: reply_to, value: value } => {
            lemma_take_front::<i64>(s0, Field::ReplyTo, reply_to);
            let s1 = s0.drop_first();
            lemma_take_front::<Json>(s1, Field::Value, value);
            let s2 = s1.drop_first();
            assert(s2.len() == 0);
            assert(decode_sensor_return(s0) == Ok::<InnerV, DeserializeErrorV>(inner));
        },
        InnerV::AxisChange { destination: destination, name: name, value: value } => {
            lemma_take_front::<String>(s0, Field::Destination, destination);
            let s1 = s0.drop_first();
            lemma_take_front::<String>(s1, Field::Name, name);
            let s2 = s1.drop_first();
            lemma_take_front::<Number>(s2, Field::Value, value);
            let s3 = s2.drop_first();
            assert(s3.len() == 0);
            assert(decode_axis_change(s0) == Ok::<InnerV, DeserializeErrorV>(inner));
        },
        InnerV::AxisReturn { reply_to: reply_to } => {
            lemma_take_front::<i64>(s0, Field::ReplyTo, reply_to);
            let s1 = s0.drop_first();
            assert(s1.len() == 0);
            assert(decode_axis_return(s0) == Ok::<InnerV, DeserializeErrorV>(inner));
        },
        InnerV::UnsupportedOperation { reply_to: reply_to, operation: operation, reason: reason } => {
            lemma_take_front::<i64>(s0, Field::ReplyTo, reply_to);
            let s1 = s0.drop_first();
            lemma_take_front::<String>(s1, Field::Operation, operation);
            let s2 = s1.drop_first();
            lemma_take_front::<String>(s2, Field::Reason, reason);
            let s3 = s2.drop_first();
            assert(s3.len() == 0);
            assert(decode_unsupported_operation(s0) == Ok::<InnerV, DeserializeErrorV>(inner));
        },
        InnerV::Reset { destination: destination } => {
            lemma_take_front::<String>(s0, Field::Destination, destination);
            let s1 = s0.drop_first();
            assert(s1.len() == 0);
            assert(decode_reset(s0) == Ok::<InnerV, DeserializeErrorV>(inner));
        },
        InnerV::Disconnect => {
            assert(s0.len() == 0);
            assert(decode_disconnect(s0) == Ok::<InnerV, DeserializeErrorV>(inner));
        },
        InnerV::StreamDescription { machine: machine, stream: stream } => {
            lemma_take_front::<String>(s0, Field::Machine, machine);
            let s1 = s0.drop_first();
            lemma_take_front::<String>(s1, Field::Stream, stream);
            let s2 = s1.drop_first();
            assert(s2.len() == 0);
            assert(decode_stream_description(s0) == Ok::<InnerV, DeserializeErrorV>(inner));
        },
        InnerV::Heartbeat { is_reply: is_reply } => {
            lemma_take_front::<bool>(s0, Field::IsReply, is_reply);
            let s1 = s0.drop_first();
            assert(s1.len() == 0);
            assert(decode_heartbeat(s0) == Ok::<InnerV, DeserializeErrorV>(inner));
        },
        InnerV::MachineListRequest => {
            assert(s0.len() == 0);
            assert(decode_machine_list_request(s0) == Ok::<InnerV, DeserializeErrorV>(inner));
        },
        InnerV::MachineListReply { machines: machines } => {
            lemma_take_front::<Vec<String>>(s0, Field::Machines, machines);
            let s1 = s0.drop_first();
            assert(s1.len() == 0);
            assert(decode_machine_list_reply(s0) == Ok::<InnerV, DeserializeErrorV>(inner));
        },
        InnerV::SetupResponse { connected: connected } => {
            lemma_take_front::<bool>(s0, Field::Connected, connected);
            let s1 = s0.drop_first();
            assert(s1.len() == 0);
            assert(decode_setup_response(s0) == Ok::<InnerV, DeserializeErrorV>(inner));
        },
        InnerV::Other { data: data } => {
            lemma_take_front::<Json>(s0, Field::Data, data);
            let s1 = s0.drop_first();
            assert(s1.len() == 0);
            assert(decode_other(s0) == Ok::<InnerV, DeserializeErrorV>(inner));
        },
    }
}

/// The tags of the kinds of message differ from one another.
proof fn lemma_tags_distinct()
    ensures
        "machine_description"@ != "function_call"@,
        "machine_description"@ != "function_return"@,
        "machine_description"@ != "sensor_read"@,
        "machine_description"@ != "sensor_return"@,
        "machine_description"@ != "axis_change"@,
        "machine_description"@ != "axis_return"@,
        "machine_description"@ != "unsupported_operation"@,
        "machine_description"@ != "reset"@,
        "machine_description"@ != "disconnect"@,
        "machine_description"@ != "stream_descriptor"@,
        "machine_description"@ != "heartbeat"@,
        "machine_description"@ != "machine_list_request"@,
        "machine_description"@ != "machine_list_reply"@,
        "machine_description"@ != "setup_response"@,
        "machine_description"@ != "other"@,
        "function_call"@ != "function_return"@,
        "function_call"@ != "sensor_read"@,
        "function_call"@ != "sensor_return"@,
        "function_call"@ != "axis_change"@,
        "function_call"@ != "axis_return"@,
        "function_call"@ != "unsupported_operation"@,
        "function_call"@ != "reset"@,
        "function_call"@ != "disconnect"@,
        "function_call"@ != "stream_descriptor"@,
        "function_call"@ != "heartbeat"@,
        "function_call"@ != "machine_list_request"@,
        "function_call"@ != "machine_list_reply"@,
        "function_call"@ != "setup_response"@,
        "function_call"@ != "other"@,
        "function_return"@ != "sensor_read"@,
        "function_return"@ != "sensor_return"@,
        "function_return"@ != "axis_change"@,
        "function_return"@ != "axis_return"@,
        "function_return"@ != "unsupported_operation"@,
        "function_return"@ != "reset"@,
        "function_return"@ != "disconnect"@,
        "function_return"@ != "stream_descriptor"@,
        "function_return"@ != "heartbeat"@,
        "function_return"@ != "machine_list_request"@,
        "function_return"@ != "machine_list_reply"@,
        "function_return"@ != "setup_response"@,
        "function_return"@ != "other"@,
        "sensor_read"@ != "sensor_return"@,
        "sensor_read"@ != "axis_change"@,
        "sensor_read"@ != "axis_return"@,
        "sensor_read"@ != "unsupported_operation"@,
        "sensor_read"@ != "reset"@,
        "sensor_read"@ != "disconnect"@,
        "sensor_read"@ != "stream_descriptor"@,
        "sensor_read"@ != "heartbeat"@,
        "sensor_read"@ != "machine_list_request"@,
        "sensor_read"@ != "machine_list_reply"@,
        "sensor_read"@ != "setup_response"@,
        "sensor_read"@ != "other"@,
        "sensor_return"@ != "axis_change"@,
        "sensor_return"@ != "axis_return"@,
        "sensor_return"@ != "unsupported_operation"@,
        "sensor_return"@ != "reset"@,
        "sensor_return"@ != "disconnect"@,
        "sensor_return"@ != "stream_descriptor"@,
        "sensor_return"@ != "heartbeat"@,
        "sensor_return"@ != "machine_list_request"@,
        "sensor_return"@ != "machine_list_reply"@,
        "sensor_return"@ != "setup_response"@,
        "sensor_return"@ != "other"@,
        "axis_change"@ != "axis_return"@,
        "axis_change"@ != "unsupported_operation"@,
        "axis_change"@ != "reset"@,
        "axis_change"@ != "disconnect"@,
        "axis_change"@ != "stream_descriptor"@,
        "axis_change"@ != "heartbeat"@,
        "axis_change"@ != "machine_list_request"@,
        "axis_change"@ != "machine_list_reply"@,
        "axis_change"@ != "setup_response"@,
        "axis_change"@ != "other"@,
        "axis_return"@ != "unsupported_operation"@,
        "axis_return"@ != "reset"@,
        "axis_return"@ != "disconnect"@,
        "axis_return"@ != "stream_descriptor"@,
        "axis_return"@ != "heartbeat"@,
        "axis_return"@ != "machine_list_request"@,
        "axis_return"@ != "machine_list_reply"@,
        "axis_return"@ != "setup_response"@,
        "axis_return"@ != "other"@,
        "unsupported_operation"@ != "reset"@,
        "unsupported_operation"@ != "disconnect"@,
        "unsupported_operation"@ != "stream_descriptor"@,
        "unsupported_operation"@ != "heartbeat"@,
        "unsupported_operation"@ != "machine_list_request"@,
        "unsupported_operation"@ != "machine_list_reply"@,
        "unsupported_operation"@ != "setup_response"@,
        "unsupported_operation"@ != "other"@,
        "reset"@ != "disconnect"@,
        "reset"@ != "stream_descriptor"@,
        "reset"@ != "heartbeat"@,
        "reset"@ != "machine_list_request"@,
        "reset"@ != "machine_list_reply"@,
        "reset"@ != "setup_response"@,
        "reset"@ != "other"@,
        "disconnect"@ != "stream_descriptor"@,
        "disconnect"@ != "heartbeat"@,
        "disconnect"@ != "machine_list_request"@,
        "disconnect"@ != "machine_list_reply"@,
        "disconnect"@ != "setup_response"@,
        "disconnect"@ != "other"@,
        "stream_descriptor"@ != "heartbeat"@,
        "stream_descriptor"@ != "machine_list_request"@,
        "stream_descriptor"@ != "machine_list_reply"@,
        "stream_descriptor"@ != "setup_response"@,
        "stream_descriptor"@ != "other"@,
        "heartbeat"@ != "machine_list_request"@,
        "heartbeat"@ != "machine_list_reply"@,
        "heartbeat"@ != "setup_response"@,
        "heartbeat"@ != "other"@,
        "machine_list_request"@ != "machine_list_reply"@,
        "machine_list_request"@ != "setup_response"@,
        "machine_list_request"@ != "other"@,
        "machine_list_reply"@ != "setup_response"@,
        "machine_list_reply"@ != "other"@,
        "setup_response"@ != "other"@,
{
    reveal_strlit("machine_description");
    reveal_strlit("function_call");
    reveal_strlit("function_return");
    reveal_strlit("sensor_read");
    reveal_strlit("sensor_return");
    reveal_strlit("axis_change");
    reveal_strlit("axis_return");
    reveal_strlit("unsupported_operation");
    reveal_strlit("reset");
    reveal_strlit("disconnect");
    reveal_strlit("stream_descriptor");
    reveal_strlit("heartbeat");
    reveal_strlit("machine_list_request");
    reveal_strlit("machine_list_reply");
    reveal_strlit("setup_response");
    reveal_strlit("other");
    assert("machine_description"@.len() != "function_call"@.len());
    assert("machine_description"@.len() != "function_return"@.len());
    assert("machine_description"@.len() != "sensor_read"@.len());
    assert("machine_description"@.len() != "sensor_return"@.len());
    assert("machine_description"@.len() != "axis_change"@.len());
    assert("machine_description"@.len() != "axis_return"@.len());
    assert("machine_description"@.len() != "unsupported_operation"@.len());
    assert("machine_description"@.len() != "reset"@.len());
    assert("machine_description"@.len() != "disconnect"@.len());
    assert("machine_description"@.len() != "stream_descriptor"@.len());
    assert("machine_description"@.len() != "heartbeat"@.len());
    assert("machine_description"@.len() != "machine_list_request"@.len());
    assert("machine_description"@.len() != "machine_list_reply"@.len());
    assert("machine_description"@.len() != "setup_response"@.len());
    assert("machine_description"@.len() != "other"@.len());
    assert("function_call"@.len() != "function_return"@.len());
    assert("function_call"@.len() != "sensor_read"@.len());
    assert("function_call"@[0] != "sensor_return"@[0]);
    assert("function_call"@.len() != "axis_change"@.len());
    assert("function_call"@.len() != "axis_return"@.len());
    assert("function_call"@.len() != "unsupported_operation"@.len());
    assert("function_call"@.len() != "reset"@.len());
    assert("function_call"@.len() != "disconnect"@.len());
    assert("function_call"@.len() != "stream_descriptor"@.len());
    assert("function_call"@.len() != "heartbeat"@.len());
    assert("function_call"@.len() != "machine_list_request"@.len());
    assert("function_call"@.len() != "machine_list_reply"@.len());
    assert("function_call"@.len() != "setup_response"@.len());
    assert("function_call"@.len() != "other"@.len());
    assert("function_return"@.len() != "sensor_read"@.len());
    assert("function_return"@.len() != "sensor_return"@.len());
    assert("function_return"@.len() != "axis_change"@.len());
    assert("function_return"@.len() != "axis_return"@.len());
    assert("function_return"@.len() != "unsupported_operation"@.len());
    assert("function_return"@.len() != "reset"@.len());
    assert("function_return"@.len() != "disconnect"@.len());
    assert("function_return"@.len() != "stream_descriptor"@.len());
    assert("function_return"@.len() != "heartbeat"@.len());
    assert("function_return"@.len() != "machine_list_request"@.len());
    assert("function_return"@.len() != "machine_list_reply"@.len());
    assert("function_return"@.len() != "setup_response"@.len());
    assert("function_return"@.len() != "other"@.len());
    assert("sensor_read"@.len() != "sensor_return"@.len());
    assert("sensor_read"@[0] != "axis_change"@[0]);
    assert("sensor_read"@[0] != "axis_return"@[0]);
    assert("sensor_read"@.len() != "unsupported_operation"@.len());
    assert("sensor_read"@.len() != "reset"@.len());
    assert("sensor_read"@.len() != "disconnect"@.len());
    assert("sensor_read"@.len() != "stream_descriptor"@.len());
    assert("sensor_read"@.len() != "heartbeat"@.len());
    assert("sensor_read"@.len() != "machine_list_request"@.len());
    assert("sensor_read"@.len() != "machine_list_reply"@.len());
    assert("sensor_read"@.len() != "setup_response"@.len());
    assert("sensor_read"@.len() != "other"@.len());
    assert("sensor_return"@.len() != "axis_change"@.len());
    assert("sensor_return"@.len() != "axis_return"@.len());
    assert("sensor_return"@.len() != "unsupported_operation"@.len());
    assert("sensor_return"@.len() != "reset"@.len());
    assert("sensor_return"@.len() != "disconnect"@.len());
    assert("sensor_return"@.len() != "stream_descriptor"@.len());
    assert("sensor_return"@.len() != "heartbeat"@.len());
    assert("sensor_return"@.len() != "machine_list_request"@.len());
    assert("sensor_return"@.len() != "machine_list_reply"@.len());
    assert("sensor_return"@.len() != "setup_response"@.len());
    assert("sensor_return"@.len() != "other"@.len());
    assert("axis_change"@[5] != "axis_return"@[5]);
    assert("axis_change"@.len() != "unsupported_operation"@.len());
    assert("axis_change"@.len() != "reset"@.len());
    assert("axis_change"@.len() != "disconnect"@.len());
    assert("axis_change"@.len() != "stream_descriptor"@.len());
    assert("axis_change"@.len() != "heartbeat"@.len());
    assert("axis_change"@.len() != "machine_list_request"@.len());
    assert("axis_change"@.len() != "machine_list_reply"@.len());
    assert("axis_change"@.len() != "setup_response"@.len());
    assert("axis_change"@.len() != "other"@.len());
    assert("axis_return"@.len() != "unsupported_operation"@.len());
    assert("axis_return"@.len() != "reset"@.len());
    assert("axis_return"@.len() != "disconnect"@.len());
    assert("axis_return"@.len() != "stream_descriptor"@.len());
    assert("axis_return"@.len() != "heartbeat"@.len());
    assert("axis_return"@.len() != "machine_list_request"@.len());
    assert("axis_return"@.len() != "machine_list_reply"@.len());
    assert("axis_return"@.len() != "setup_response"@.len());
    assert("axis_return"@.len() != "other"@.len());
    assert("unsupported_operation"@.len() != "reset"@.len());
    assert("unsupported_operation"@.len() != "disconnect"@.len());
    assert("unsupported_operation"@.len() != "stream_descriptor"@.len());
    assert("unsupported_operation"@.len() != "heartbeat"@.len());
    assert("unsupported_operation"@.len() != "machine_list_request"@.len());
    assert("unsupported_operation"@.len() != "machine_list_reply"@.len());
    assert("unsupported_operation"@.len() != "setup_response"@.len());
    assert("unsupported_operation"@.len() != "other"@.len());
    assert("reset"@.len() != "disconnect"@.len());
    assert("reset"@.len() != "stream_descriptor"@.len());
    assert("reset"@.len() != "heartbeat"@.len());
    assert("reset"@.len() != "machine_list_request"@.len());
    assert("reset"@.len() != "machine_list_reply"@.len());
    assert("reset"@.len() != "setup_response"@.len());
    assert("reset"@[0] != "other"@[0]);
    assert("disconnect"@.len() != "stream_descriptor"@.len());
    assert("disconnect"@.len() != "heartbeat"@.len());
    assert("disconnect"@.len() != "machine_list_request"@.len());
    assert("disconnect"@.len() != "machine_list_reply"@.len());
    assert("disconnect"@.len() != "setup_response"@.len());
    assert("disconnect"@.len() != "other"@.len());
    assert("stream_descriptor"@.len() != "heartbeat"@.len());
    assert("stream_descriptor"@.len() != "machine_list_request"@.len());
    assert("stream_descriptor"@.len() != "machine_list_reply"@.len());
    assert("stream_descriptor"@.len() != "setup_response"@.len());
    assert("stream_descriptor"@.len() != "other"@.len());
    assert("heartbeat"@.len() != "machine_list_request"@.len());
    assert("heartbeat"@.len() != "machine_list_reply"@.len());
    assert("heartbeat"@.len() != "setup_response"@.len());
    assert("heartbeat"@.len() != "other"@.len());
    assert("machine_list_request"@.len() != "machine_list_reply"@.len());
    assert("machine_list_request"@.len() != "setup_response"@.len());
    assert("machine_list_request"@.len() != "other"@.len());
    assert("machine_list_reply"@.len() != "setup_response"@.len());
    assert("machine_list_reply"@.len() != "other"@.len());
    assert("setup_response"@.len() != "other"@.len());
}

/// Reading back what a message is written as gives the message.
pub proof fn lemma_round_trip(m: MessageV)
    ensures
        decode_message(encode_message(m)) == Ok::<MessageV, DeserializeErrorV>(m),
{
    let s = encode_message(m)->Object_0;
    reveal_strlit("message_id");
    reveal_strlit("message_type");
    assert(Field::MessageId.key() != Field::MessageType.key()) by {
        assert(Field::MessageId.key().len() != Field::MessageType.key().len());
    }
    assert(find_key(s, Field::MessageId.key()) == 0);
    let s1 = s.remove(0);
    assert(s1 =~= seq![(Field::MessageType.key(), JsonV::Str(m.inner.tag()))] + encode_inner(m.inner));
    lemma_take_front::<String>(s1, Field::MessageType, m.inner.tag());
    assert(s1.drop_first() =~= encode_inner(m.inner));
    lemma_inner_round_trip(m.inner);
}

} // verus!
