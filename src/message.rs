//! Messages of the protocol, the capability descriptors they carry, and the
//! routing metadata of each kind of message.
use vstd::prelude::*;
use crate::json::{
    Json, JsonV, JsonValue, Number, NumberV, lookup, member, lemma_lookup_at, lemma_object_view,
};

verus! {

broadcast use vstd::std_specs::vec::group_vec_axioms;

/// The kinds of node that take part in the protocol.
#[derive(Clone, Copy, PartialEq, Eq, Structural, Debug)]
pub enum NodeType {
    Machine,
    Server,
    Environment,
    MachineOrEnvironment,
    Any,
}

/// Names and type codes, in the order given.
pub type Descriptors = Vec<(String, String)>;

/// A callable function: its parameters and returns, each a name and a type code.
#[derive(Debug, PartialEq)]
pub struct Function {
    pub parameters: Descriptors,
    pub returns: Descriptors,
}

pub struct FunctionV {
    pub parameters: Seq<(Seq<char>, Seq<char>)>,
    pub returns: Seq<(Seq<char>, Seq<char>)>,
}

impl DeepView for Function {
    type V = FunctionV;

    open spec fn deep_view(&self) -> FunctionV {
        FunctionV { parameters: self.parameters.deep_view(), returns: self.returns.deep_view() }
    }
}

/// A sensor that can be read: its output type code and its range.
#[derive(Debug, PartialEq)]
pub struct Sensor {
    pub output_type: String,
    pub min: Number,
    pub max: Number,
}

pub struct SensorV {
    pub output_type: Seq<char>,
    pub min: NumberV,
    pub max: NumberV,
}

impl DeepView for Sensor {
    type V = SensorV;

    open spec fn deep_view(&self) -> SensorV {
        SensorV {
            output_type: self.output_type@,
            min: self.min.deep_view(),
            max: self.max.deep_view(),
        }
    }
}

/// An axis that can be set: its input type code, its range, and optional
/// direction and group labels (empty when absent).
#[derive(Debug, PartialEq)]
pub struct Axis {
    pub input_type: String,
    pub min: Number,
    pub max: Number,
    pub direction: String,
    pub group: String,
}

pub struct AxisV {
    pub input_type: Seq<char>,
    pub min: NumberV,
    pub max: NumberV,
    pub direction: Seq<char>,
    pub group: Seq<char>,
}

impl DeepView for Axis {
    type V = AxisV;

    open spec fn deep_view(&self) -> AxisV {
        AxisV {
            input_type: self.input_type@,
            min: self.min.deep_view(),
            max: self.max.deep_view(),
            direction: self.direction@,
            group: self.group@,
        }
    }
}

/// How a stream's contents are buffered.
#[derive(Clone, Copy, PartialEq, Eq, Structural, Debug)]
pub enum BufferMethod {
    /// Buffer a number of frames, then discard.
    Frames,
    /// Buffer a number of bytes, then discard.
    Bytes,
    /// Discard nothing; the stream may be connected to only once.
    NoDiscard,
}

impl Default for BufferMethod {
    fn default() -> (r: Self)
        ensures
            r == BufferMethod::NoDiscard,
    {
        BufferMethod::NoDiscard
    }
}

impl DeepView for BufferMethod {
    type V = BufferMethod;

    open spec fn deep_view(&self) -> BufferMethod {
        *self
    }
}

/// A media stream: its format (such as "mjpeg") and buffer method.
#[derive(Debug, PartialEq)]
pub struct Stream {
    pub format: String,
    pub buffer_method: BufferMethod,
}

pub struct StreamV {
    pub format: Seq<char>,
    pub buffer_method: BufferMethod,
}

impl DeepView for Stream {
    type V = StreamV;

    open spec fn deep_view(&self) -> StreamV {
        StreamV { format: self.format@, buffer_method: self.buffer_method }
    }
}

/// Reads an optional number member, zero where it is absent.
pub open spec fn number_or_zero(s: Seq<(Seq<char>, JsonV)>, key: Seq<char>) -> Option<NumberV> {
    match lookup(s, key) {
        None => Some(NumberV::Int(0)),
        Some(x) => Number::decode_spec(x),
    }
}

/// Reads an optional string member, empty where it is absent.
pub open spec fn string_or_empty(s: Seq<(Seq<char>, JsonV)>, key: Seq<char>) -> Option<Seq<char>> {
    match lookup(s, key) {
        None => Some(Seq::empty()),
        Some(x) => String::decode_spec(x),
    }
}

fn number_member(v: &Vec<(String, Json)>, key: &str) -> (r: Option<Number>)
    ensures
        match number_or_zero(v.deep_view(), key@) {
            Some(n) => r is Some && r.unwrap().deep_view() == n,
            None => r is None,
        },
{
    match member(v, key) {
        None => Some(Number::Int(0)),
        Some(x) => Number::decode_json(x),
    }
}

fn string_member(v: &Vec<(String, Json)>, key: &str) -> (r: Option<String>)
    ensures
        match string_or_empty(v.deep_view(), key@) {
            Some(n) => r is Some && r.unwrap()@ == n,
            None => r is None,
        },
{
    match member(v, key) {
        None => Some(String::new()),
        Some(x) => String::decode_json(x),
    }
}

fn required_member<T: JsonValue>(v: &Vec<(String, Json)>, key: &str) -> (r: Option<T>)
    ensures
        match lookup(v.deep_view(), key@) {
            Some(x) => match T::decode_spec(x) {
                Some(d) => r is Some && r.unwrap().deep_view() == d,
                None => r is None,
            },
            None => r is None,
        },
{
    match member(v, key) {
        None => None,
        Some(x) => T::decode_json(x),
    }
}

impl JsonValue for Function {
    open spec fn decode_spec(j: JsonV) -> Option<FunctionV> {
        match j {
            JsonV::Object(s) => match (lookup(s, "parameters"@), lookup(s, "returns"@)) {
                (Some(p), Some(r)) => match (
                    Descriptors::decode_spec(p),
                    Descriptors::decode_spec(r),
                ) {
                    (Some(parameters), Some(rets)) => Some(FunctionV { parameters, returns: rets }),
                    _ => None,
                },
                _ => None,
            },
            _ => None,
        }
    }

    open spec fn encode_spec(v: FunctionV) -> JsonV {
        JsonV::Object(
            seq![
                ("parameters"@, Descriptors::encode_spec(v.parameters)),
                ("returns"@, Descriptors::encode_spec(v.returns)),
            ],
        )
    }

    fn decode_json(j: &Json) -> (r: Option<Function>) {
        match j {
            Json::Object(v) => {
                proof {
                    lemma_object_view(*v);
                }
                let parameters = match required_member::<Descriptors>(v, "parameters") {
                    Some(p) => p,
                    None => {
                        return None;
                    },
                };
                let rets = match required_member::<Descriptors>(v, "returns") {
                    Some(p) => p,
                    None => {
                        return None;
                    },
                };
                Some(Function { parameters, returns: rets })
            },
            _ => None,
        }
    }

    fn encode_json(&self) -> (r: Json) {
        let mut v: Vec<(String, Json)> = Vec::new();
        v.push((String::from_str("parameters"), self.parameters.encode_json()));
        v.push((String::from_str("returns"), self.returns.encode_json()));
        proof {
            lemma_object_view(v);
            assert(v.deep_view() =~= Self::encode_spec(self.deep_view())->Object_0);
        }
        Json::Object(v)
    }

    proof fn lemma_decode_encode(v: FunctionV) {
        reveal_strlit("parameters");
        reveal_strlit("returns");
        Descriptors::lemma_decode_encode(v.parameters);
        Descriptors::lemma_decode_encode(v.returns);
        let s = Self::encode_spec(v)->Object_0;
        assert("parameters"@ != "returns"@) by {
            assert("parameters"@.len() != "returns"@.len());
        }
        lemma_lookup_at(s, "parameters"@, 0);
        lemma_lookup_at(s, "returns"@, 1);
    }
}

} // verus!

verus! {

impl JsonValue for Sensor {
    open spec fn decode_spec(j: JsonV) -> Option<SensorV> {
        match j {
            JsonV::Object(s) => match (
                lookup(s, "type"@),
                number_or_zero(s, "min"@),
                number_or_zero(s, "max"@),
            ) {
                (Some(t), Some(min), Some(max)) => match String::decode_spec(t) {
                    Some(output_type) => Some(SensorV { output_type, min, max }),
                    None => None,
                },
                _ => None,
            },
            _ => None,
        }
    }

    open spec fn encode_spec(v: SensorV) -> JsonV {
        JsonV::Object(
            seq![
                ("type"@, JsonV::Str(v.output_type)),
                ("min"@, Number::encode_spec(v.min)),
                ("max"@, Number::encode_spec(v.max)),
            ],
        )
    }

    fn decode_json(j: &Json) -> (r: Option<Sensor>) {
        match j {
            Json::Object(v) => {
                proof {
                    lemma_object_view(*v);
                }
                let output_type = match required_member::<String>(v, "type") {
                    Some(t) => t,
                    None => {
                        return None;
                    },
                };
                let min = match number_member(v, "min") {
                    Some(n) => n,
                    None => {
                        return None;
                    },
                };
                let max = match number_member(v, "max") {
                    Some(n) => n,
                    None => {
                        return None;
                    },
                };
                Some(Sensor { output_type, min, max })
            },
            _ => None,
        }
    }

    fn encode_json(&self) -> (r: Json) {
        let mut v: Vec<(String, Json)> = Vec::new();
        v.push((String::from_str("type"), self.output_type.encode_json()));
        v.push((String::from_str("min"), self.min.encode_json()));
        v.push((String::from_str("max"), self.max.encode_json()));
        proof {
            lemma_object_view(v);
            assert(v.deep_view() =~= Self::encode_spec(self.deep_view())->Object_0);
        }
        Json::Object(v)
    }

    proof fn lemma_decode_encode(v: SensorV) {
        reveal_strlit("type");
        reveal_strlit("min");
        reveal_strlit("max");
        Number::lemma_decode_encode(v.min);
        Number::lemma_decode_encode(v.max);
        let s = Self::encode_spec(v)->Object_0;
        assert("type"@ != "min"@ && "type"@ != "max"@) by {
            assert("type"@.len() != "min"@.len());
        }
        assert("min"@ != "max"@) by {
            assert("min"@[1] != "max"@[1]);
        }
        lemma_lookup_at(s, "type"@, 0);
        lemma_lookup_at(s, "min"@, 1);
        lemma_lookup_at(s, "max"@, 2);
    }
}

impl JsonValue for Axis {
    open spec fn decode_spec(j: JsonV) -> Option<AxisV> {
        match j {
            JsonV::Object(s) => match (
                lookup(s, "type"@),
                number_or_zero(s, "min"@),
                number_or_zero(s, "max"@),
                string_or_empty(s, "direction"@),
                string_or_empty(s, "group"@),
            ) {
                (Some(t), Some(min), Some(max), Some(direction), Some(group)) => match String::decode_spec(t) {
                    Some(input_type) => Some(AxisV { input_type, min, max, direction, group }),
                    None => None,
                },
                _ => None,
            },
            _ => None,
        }
    }

    open spec fn encode_spec(v: AxisV) -> JsonV {
        JsonV::Object(
            seq![
                ("type"@, JsonV::Str(v.input_type)),
                ("min"@, Number::encode_spec(v.min)),
                ("max"@, Number::encode_spec(v.max)),
                ("direction"@, JsonV::Str(v.direction)),
                ("group"@, JsonV::Str(v.group)),
            ],
        )
    }

    fn decode_json(j: &Json) -> (r: Option<Axis>) {
        match j {
            Json::Object(v) => {
                proof {
                    lemma_object_view(*v);
                }
                let input_type = match required_member::<String>(v, "type") {
                    Some(t) => t,
                    None => {
                        return None;
                    },
                };
                let min = match number_member(v, "min") {
                    Some(n) => n,
                    None => {
                        return None;
                    },
                };
                let max = match number_member(v, "max") {
                    Some(n) => n,
                    None => {
                        return None;
                    },
                };
                let direction = match string_member(v, "direction") {
                    Some(n) => n,
                    None => {
                        return None;
                    },
                };
                let group = match string_member(v, "group") {
                    Some(n) => n,
                    None => {
                        return None;
                    },
                };
                Some(Axis { input_type, min, max, direction, group })
            },
            _ => None,
        }
    }

    fn encode_json(&self) -> (r: Json) {
        let mut v: Vec<(String, Json)> = Vec::new();
        v.push((String::from_str("type"), self.input_type.encode_json()));
        v.push((String::from_str("min"), self.min.encode_json()));
        v.push((String::from_str("max"), self.max.encode_json()));
        v.push((String::from_str("direction"), self.direction.encode_json()));
        v.push((String::from_str("group"), self.group.encode_json()));
        proof {
            lemma_object_view(v);
            assert(v.deep_view() =~= Self::encode_spec(self.deep_view())->Object_0);
        }
        Json::Object(v)
    }

    proof fn lemma_decode_encode(v: AxisV) {
        reveal_strlit("type");
        reveal_strlit("min");
        reveal_strlit("max");
        reveal_strlit("direction");
        reveal_strlit("group");
        Number::lemma_decode_encode(v.min);
        Number::lemma_decode_encode(v.max);
        let s = Self::encode_spec(v)->Object_0;
        assert("type"@ != "min"@ && "type"@ != "max"@) by {
            assert("type"@.len() != "min"@.len());
        }
        assert("min"@ != "max"@) by {
            assert("min"@[1] != "max"@[1]);
        }
        assert("direction"@ != "type"@ && "direction"@ != "min"@ && "direction"@ != "max"@) by {
            assert("direction"@.len() == 9);
        }
        assert("group"@ != "type"@ && "group"@ != "min"@ && "group"@ != "max"@ && "group"@
            != "direction"@) by {
            assert("group"@.len() == 5);
        }
        lemma_lookup_at(s, "type"@, 0);
        lemma_lookup_at(s, "min"@, 1);
        lemma_lookup_at(s, "max"@, 2);
        lemma_lookup_at(s, "direction"@, 3);
        lemma_lookup_at(s, "group"@, 4);
    }
}

/// The name a buffer method is written as.
pub open spec fn buffer_method_name(b: BufferMethod) -> Seq<char> {
    match b {
        BufferMethod::Frames => "Frames"@,
        BufferMethod::Bytes => "Bytes"@,
        BufferMethod::NoDiscard => "NoDiscard"@,
    }
}

impl JsonValue for BufferMethod {
    open spec fn decode_spec(j: JsonV) -> Option<BufferMethod> {
        match j {
            JsonV::Str(t) => if t == "Frames"@ {
                Some(BufferMethod::Frames)
            } else if t == "Bytes"@ {
                Some(BufferMethod::Bytes)
            } else if t == "NoDiscard"@ {
                Some(BufferMethod::NoDiscard)
            } else {
                None
            },
            _ => None,
        }
    }

    open spec fn encode_spec(v: BufferMethod) -> JsonV {
        JsonV::Str(buffer_method_name(v))
    }

    fn decode_json(j: &Json) -> (r: Option<BufferMethod>) {
        match j {
            Json::Str(t) => {
                if *t == String::from_str("Frames") {
                    Some(BufferMethod::Frames)
                } else if *t == String::from_str("Bytes") {
                    Some(BufferMethod::Bytes)
                } else if *t == String::from_str("NoDiscard") {
                    Some(BufferMethod::NoDiscard)
                } else {
                    None
                }
            },
            _ => None,
        }
    }

    fn encode_json(&self) -> (r: Json) {
        match self {
            BufferMethod::Frames => Json::Str(String::from_str("Frames")),
            BufferMethod::Bytes => Json::Str(String::from_str("Bytes")),
            BufferMethod::NoDiscard => Json::Str(String::from_str("NoDiscard")),
        }
    }

    proof fn lemma_decode_encode(v: BufferMethod) {
        reveal_strlit("Frames");
        reveal_strlit("Bytes");
        reveal_strlit("NoDiscard");
        assert("Frames"@ != "Bytes"@ && "Frames"@ != "NoDiscard"@ && "Bytes"@ != "NoDiscard"@) by {
            assert("Frames"@.len() == 6);
            assert("Bytes"@.len() == 5);
            assert("NoDiscard"@.len() == 9);
        }
    }
}

impl JsonValue for Stream {
    open spec fn decode_spec(j: JsonV) -> Option<StreamV> {
        match j {
            JsonV::Object(s) => match lookup(s, "format"@) {
                Some(f) => match (
                    String::decode_spec(f),
                    match lookup(s, "buffer_method"@) {
                        None => Some(BufferMethod::NoDiscard),
                        Some(b) => BufferMethod::decode_spec(b),
                    },
                ) {
                    (Some(format), Some(buffer_method)) => Some(StreamV { format, buffer_method }),
                    _ => None,
                },
                None => None,
            },
            _ => None,
        }
    }

    open spec fn encode_spec(v: StreamV) -> JsonV {
        JsonV::Object(
            seq![
                ("format"@, JsonV::Str(v.format)),
                ("buffer_method"@, BufferMethod::encode_spec(v.buffer_method)),
            ],
        )
    }

    fn decode_json(j: &Json) -> (r: Option<Stream>) {
        match j {
            Json::Object(v) => {
                proof {
                    lemma_object_view(*v);
                }
                let format = match required_member::<String>(v, "format") {
                    Some(t) => t,
                    None => {
                        return None;
                    },
                };
                let buffer_method = match member(v, "buffer_method") {
                    None => BufferMethod::NoDiscard,
                    Some(b) => match BufferMethod::decode_json(b) {
                        Some(b) => b,
                        None => {
                            return None;
                        },
                    },
                };
                Some(Stream { format, buffer_method })
            },
            _ => None,
        }
    }

    fn encode_json(&self) -> (r: Json) {
        let mut v: Vec<(String, Json)> = Vec::new();
        v.push((String::from_str("format"), self.format.encode_json()));
        v.push((String::from_str("buffer_method"), self.buffer_method.encode_json()));
        proof {
            lemma_object_view(v);
            assert(v.deep_view() =~= Self::encode_spec(self.deep_view())->Object_0);
        }
        Json::Object(v)
    }

    proof fn lemma_decode_encode(v: StreamV) {
        reveal_strlit("format");
        reveal_strlit("buffer_method");
        BufferMethod::lemma_decode_encode(v.buffer_method);
        let s = Self::encode_spec(v)->Object_0;
        assert("format"@ != "buffer_method"@) by {
            assert("format"@.len() != "buffer_method"@.len());
        }
        lemma_lookup_at(s, "format"@, 0);
        lemma_lookup_at(s, "buffer_method"@, 1);
    }
}

} // verus!

verus! {

/// The payload of a message; each kind is written with its own
/// `message_type` tag.
#[derive(Debug, PartialEq)]
pub enum MessageInner {
    /// A machine's first message: its name and what it offers.
    MachineDescription {
        name: String,
        functions: Vec<(String, Function)>,
        sensors: Vec<(String, Sensor)>,
        axes: Vec<(String, Axis)>,
        streams: Vec<(String, Stream)>,
    },
    /// A request to call a function of a machine.
    FunctionCall { destination: String, name: String, parameters: Vec<(String, Json)> },
    /// The results of a function call.
    FunctionReturn { reply_to: i64, returns: Vec<(String, Json)> },
    /// A request to read a sensor of a machine.
    SensorRead { destination: String, name: String },
    /// The value read from a sensor.
    SensorReturn { reply_to: i64, value: Json },
    /// A request to set an axis of a machine.
    AxisChange { destination: String, name: String, value: Number },
    /// The acknowledgement of an axis change.
    AxisReturn { reply_to: i64 },
    /// A request that could not be carried out, and why.
    UnsupportedOperation { reply_to: i64, operation: String, reason: String },
    /// A request that a machine return to a safe state.
    Reset { destination: String },
    /// The sender is going away.
    Disconnect,
    /// The first message on a media connection: which stream it carries.
    StreamDescription { machine: String, stream: String },
    /// A keepalive request or reply.
    Heartbeat { is_reply: bool },
    /// A request for the names of the connected machines.
    MachineListRequest,
    /// The names of the connected machines.
    MachineListReply { machines: Vec<String> },
    /// The server's answer to a machine's description.
    SetupResponse { connected: bool },
    /// Any other payload.
    Other { data: Json },
}

/// The model of a message payload.
pub enum InnerV {
    MachineDescription {
        name: Seq<char>,
        functions: Seq<(Seq<char>, FunctionV)>,
        sensors: Seq<(Seq<char>, SensorV)>,
        axes: Seq<(Seq<char>, AxisV)>,
        streams: Seq<(Seq<char>, StreamV)>,
    },
    FunctionCall { destination: Seq<char>, name: Seq<char>, parameters: Seq<(Seq<char>, JsonV)> },
    FunctionReturn { reply_to: i64, returns: Seq<(Seq<char>, JsonV)> },
    SensorRead { destination: Seq<char>, name: Seq<char> },
    SensorReturn { reply_to: i64, value: JsonV },
    AxisChange { destination: Seq<char>, name: Seq<char>, value: NumberV },
    AxisReturn { reply_to: i64 },
    UnsupportedOperation { reply_to: i64, operation: Seq<char>, reason: Seq<char> },
    Reset { destination: Seq<char> },
    Disconnect,
    StreamDescription { machine: Seq<char>, stream: Seq<char> },
    Heartbeat { is_reply: bool },
    MachineListRequest,
    MachineListReply { machines: Seq<Seq<char>> },
    SetupResponse { connected: bool },
    Other { data: JsonV },
}

impl DeepView for MessageInner {
    type V = InnerV;

    open spec fn deep_view(&self) -> InnerV {
        match self {
            MessageInner::MachineDescription { name, functions, sensors, axes, streams } =>
                InnerV::MachineDescription {
                name: name@,
                functions: functions.deep_view(),
                sensors: sensors.deep_view(),
                axes: axes.deep_view(),
                streams: streams.deep_view(),
            },
            MessageInner::FunctionCall { destination, name, parameters } => InnerV::FunctionCall {
                destination: destination@,
                name: name@,
                parameters: parameters.deep_view(),
            },
            MessageInner::FunctionReturn { reply_to, returns: r } => InnerV::FunctionReturn {
                reply_to: *reply_to,
                returns: r.deep_view(),
            },
            MessageInner::SensorRead { destination, name } => InnerV::SensorRead {
                destination: destination@,
                name: name@,
            },
            MessageInner::SensorReturn { reply_to, value } => InnerV::SensorReturn {
                reply_to: *reply_to,
                value: value.deep_view(),
            },
            MessageInner::AxisChange { destination, name, value } => InnerV::AxisChange {
                destination: destination@,
                name: name@,
                value: value.deep_view(),
            },
            MessageInner::AxisReturn { reply_to } => InnerV::AxisReturn { reply_to: *reply_to },
            MessageInner::UnsupportedOperation { reply_to, operation, reason } =>
                InnerV::UnsupportedOperation {
                reply_to: *reply_to,
                operation: operation@,
                reason: reason@,
            },
            MessageInner::Reset { destination } => InnerV::Reset { destination: destination@ },
            MessageInner::Disconnect => InnerV::Disconnect,
            MessageInner::StreamDescription { machine, stream } => InnerV::StreamDescription {
                machine: machine@,
                stream: stream@,
            },
            MessageInner::Heartbeat { is_reply } => InnerV::Heartbeat { is_reply: *is_reply },
            MessageInner::MachineListRequest => InnerV::MachineListRequest,
            MessageInner::MachineListReply { machines } => InnerV::MachineListReply {
                machines: machines.deep_view(),
            },
            MessageInner::SetupResponse { connected } => InnerV::SetupResponse {
                connected: *connected,
            },
            MessageInner::Other { data } => InnerV::Other { data: data.deep_view() },
        }
    }
}

impl InnerV {
    /// The `message_type` tag of the payload.
    pub open spec fn tag(self) -> Seq<char> {
        match self {
            InnerV::MachineDescription { .. } => "machine_description"@,
            InnerV::FunctionCall { .. } => "function_call"@,
            InnerV::FunctionReturn { .. } => "function_return"@,
            InnerV::SensorRead { .. } => "sensor_read"@,
            InnerV::SensorReturn { .. } => "sensor_return"@,
            InnerV::AxisChange { .. } => "axis_change"@,
            InnerV::AxisReturn { .. } => "axis_return"@,
            InnerV::UnsupportedOperation { .. } => "unsupported_operation"@,
            InnerV::Reset { .. } => "reset"@,
            InnerV::Disconnect => "disconnect"@,
            InnerV::StreamDescription { .. } => "stream_descriptor"@,
            InnerV::Heartbeat { .. } => "heartbeat"@,
            InnerV::MachineListRequest => "machine_list_request"@,
            InnerV::MachineListReply { .. } => "machine_list_reply"@,
            InnerV::SetupResponse { .. } => "setup_response"@,
            InnerV::Other { .. } => "other"@,
        }
    }

    /// Whether the server must remember the sender to forward the reply:
    /// function calls, sensor reads and axis changes.
    pub open spec fn expects_forwarded_reply(self) -> bool {
        match self {
            InnerV::FunctionCall { .. } | InnerV::SensorRead { .. } | InnerV::AxisChange { .. } => true,
            _ => false,
        }
    }

    /// The id of the message that this one answers, for replies.
    pub open spec fn reply_to(self) -> Option<i64> {
        match self {
            InnerV::FunctionReturn { reply_to, .. } => Some(reply_to),
            InnerV::SensorReturn { reply_to, .. } => Some(reply_to),
            InnerV::AxisReturn { reply_to } => Some(reply_to),
            InnerV::UnsupportedOperation { reply_to, .. } => Some(reply_to),
            _ => None,
        }
    }

    /// The machine that the message is addressed to, where it names one.
    pub open spec fn destination(self) -> Option<Seq<char>> {
        match self {
            InnerV::FunctionCall { destination, .. } => Some(destination),
            InnerV::SensorRead { destination, .. } => Some(destination),
            InnerV::AxisChange { destination, .. } => Some(destination),
            InnerV::Reset { destination } => Some(destination),
            _ => None,
        }
    }

    /// Who sends a message of this kind, and to whom.
    pub open spec fn route(self) -> (NodeType, NodeType) {
        match self {
            InnerV::MachineDescription { .. } => (NodeType::Machine, NodeType::Server),
            InnerV::FunctionCall { .. } => (NodeType::Environment, NodeType::Machine),
            InnerV::FunctionReturn { .. } => (NodeType::Machine, NodeType::Environment),
            InnerV::SensorRead { .. } => (NodeType::Environment, NodeType::Machine),
            InnerV::SensorReturn { .. } => (NodeType::Machine, NodeType::Environment),
            InnerV::AxisChange { .. } => (NodeType::Environment, NodeType::Machine),
            InnerV::AxisReturn { .. } => (NodeType::Machine, NodeType::Environment),
            InnerV::UnsupportedOperation { .. } => (NodeType::Any, NodeType::Any),
            InnerV::Reset { .. } => (NodeType::Environment, NodeType::Machine),
            InnerV::Disconnect => (NodeType::Any, NodeType::Any),
            InnerV::StreamDescription { .. } => (NodeType::Machine, NodeType::Server),
            InnerV::Heartbeat { .. } => (NodeType::Any, NodeType::Any),
            InnerV::MachineListRequest => (NodeType::Environment, NodeType::Server),
            InnerV::MachineListReply { .. } => (NodeType::Server, NodeType::Environment),
            InnerV::SetupResponse { .. } => (NodeType::Server, NodeType::Machine),
            InnerV::Other { .. } => (NodeType::Any, NodeType::Any),
        }
    }
}

impl MessageInner {
    /// The `message_type` tag of the payload.
    pub fn variant_name(&self) -> (r: &'static str)
        ensures
            r@ == self.deep_view().tag(),
    {
        match self {
            MessageInner::MachineDescription { .. } => "machine_description",
            MessageInner::FunctionCall { .. } => "function_call",
            MessageInner::FunctionReturn { .. } => "function_return",
            MessageInner::SensorRead { .. } => "sensor_read",
            MessageInner::SensorReturn { .. } => "sensor_return",
            MessageInner::AxisChange { .. } => "axis_change",
            MessageInner::AxisReturn { .. } => "axis_return",
            MessageInner::UnsupportedOperation { .. } => "unsupported_operation",
            MessageInner::Reset { .. } => "reset",
            MessageInner::Disconnect => "disconnect",
            MessageInner::StreamDescription { .. } => "stream_descriptor",
            MessageInner::Heartbeat { .. } => "heartbeat",
            MessageInner::MachineListRequest => "machine_list_request",
            MessageInner::MachineListReply { .. } => "machine_list_reply",
            MessageInner::SetupResponse { .. } => "setup_response",
            MessageInner::Other { .. } => "other",
        }
    }
}

/// A message: the id its originator gave it, and its payload.
#[derive(Debug, PartialEq)]
pub struct Message {
    pub message_id: i64,
    pub inner: MessageInner,
}

/// The model of a message.
pub struct MessageV {
    pub message_id: i64,
    pub inner: InnerV,
}

impl DeepView for Message {
    type V = MessageV;

    open spec fn deep_view(&self) -> MessageV {
        MessageV { message_id: self.message_id, inner: self.inner.deep_view() }
    }
}

impl Message {
    pub fn new(message_id: i64, inner: MessageInner) -> (r: Message)
        ensures
            r.message_id == message_id,
            r.inner == inner,
    {
        Message { message_id, inner }
    }

    /// Whether the server must remember the sender to forward the reply.
    pub fn expects_forwarded_reply(&self) -> (r: bool)
        ensures
            r == self.deep_view().inner.expects_forwarded_reply(),
    {
        match &self.inner {
            MessageInner::FunctionCall { .. } | MessageInner::SensorRead { .. }
            | MessageInner::AxisChange { .. } => true,
            _ => false,
        }
    }

    /// The id of the message that this one answers, for replies.
    pub fn reply_to(&self) -> (r: Option<i64>)
        ensures
            r == self.deep_view().inner.reply_to(),
    {
        match &self.inner {
            MessageInner::FunctionReturn { reply_to, .. } => Some(*reply_to),
            MessageInner::SensorReturn { reply_to, .. } => Some(*reply_to),
            MessageInner::AxisReturn { reply_to } => Some(*reply_to),
            MessageInner::UnsupportedOperation { reply_to, .. } => Some(*reply_to),
            _ => None,
        }
    }

    /// The machine that the message is addressed to, where it names one.
    pub fn destination_machine(&self) -> (r: Option<&String>)
        ensures
            r is Some <==> self.deep_view().inner.destination() is Some,
            r is Some ==> r.unwrap()@ == self.deep_view().inner.destination().unwrap(),
    {
        match &self.inner {
            MessageInner::FunctionCall { destination, .. } => Some(destination),
            MessageInner::SensorRead { destination, .. } => Some(destination),
            MessageInner::AxisChange { destination, .. } => Some(destination),
            MessageInner::Reset { destination } => Some(destination),
            _ => None,
        }
    }

    /// Who sends a message of this kind, and to whom.
    pub fn route(&self) -> (r: (NodeType, NodeType))
        ensures
            r == self.deep_view().inner.route(),
    {
        match &self.inner {
            MessageInner::MachineDescription { .. } => (NodeType::Machine, NodeType::Server),
            MessageInner::FunctionCall { .. } => (NodeType::Environment, NodeType::Machine),
            MessageInner::FunctionReturn { .. } => (NodeType::Machine, NodeType::Environment),
            MessageInner::SensorRead { .. } => (NodeType::Environment, NodeType::Machine),
            MessageInner::SensorReturn { .. } => (NodeType::Machine, NodeType::Environment),
            MessageInner::AxisChange { .. } => (NodeType::Environment, NodeType::Machine),
            MessageInner::AxisReturn { .. } => (NodeType::Machine, NodeType::Environment),
            MessageInner::UnsupportedOperation { .. } => (NodeType::Any, NodeType::Any),
            MessageInner::Reset { .. } => (NodeType::Environment, NodeType::Machine),
            MessageInner::Disconnect => (NodeType::Any, NodeType::Any),
            MessageInner::StreamDescription { .. } => (NodeType::Machine, NodeType::Server),
            MessageInner::Heartbeat { .. } => (NodeType::Any, NodeType::Any),
            MessageInner::MachineListRequest => (NodeType::Environment, NodeType::Server),
            MessageInner::MachineListReply { .. } => (NodeType::Server, NodeType::Environment),
            MessageInner::SetupResponse { .. } => (NodeType::Server, NodeType::Machine),
            MessageInner::Other { .. } => (NodeType::Any, NodeType::Any),
        }
    }
}

/// Hands out message ids: positive, and each larger than the one before.
pub struct IdSource {
    pub next: i64,
}

impl IdSource {
    pub fn new() -> (r: IdSource)
        ensures
            r.next == 1,
    {
        IdSource { next: 1 }
    }

    /// The next id; `None` once every positive `i64` has been handed out.
    pub fn next_id(&mut self) -> (r: Option<i64>)
        requires
            old(self).next >= 1,
        ensures
            final(self).next >= 1,
            old(self).next < i64::MAX ==> r == Some(old(self).next) && final(self).next == old(
                self,
            ).next + 1,
            old(self).next == i64::MAX ==> r is None && final(self).next == old(self).next,
    {
        if self.next < i64::MAX {
            let id = self.next;
            self.next = self.next + 1;
            Some(id)
        } else {
            None
        }
    }
}

} // verus!
