use frontrow::client::{axis_reply, sensor_reply, setup_outcome, Action, ClientHandle, ConnectedClient};
use frontrow::errors::ErrorCode;
use frontrow::json::{Json, Number};
use frontrow::marshall::{InputValue, OutputSlot, RawScalar, Scalar};
use frontrow::message::{Message, MessageInner};
use frontrow::types::{PrimType, Type};

fn s(x: &str) -> String {
    x.to_string()
}

fn pairs(v: &[(&str, &str)]) -> Vec<(String, String)> {
    v.iter().map(|(a, b)| (s(a), s(b))).collect()
}

fn machine() -> ClientHandle<u32> {
    let mut h: ClientHandle<u32> = ClientHandle::new();
    assert_eq!(h.set_name(s("M")), ErrorCode::NoError);
    assert_eq!(
        h.register_function(s("count_bools"), &pairs(&[("values", "bool[]")]), &pairs(&[("count", "int")]), 1),
        ErrorCode::NoError
    );
    assert_eq!(h.register_axis(s("x"), Number::Int(0), Number::Int(1), s(""), s(""), 2), ErrorCode::NoError);
    assert_eq!(h.register_sensor(s("t"), Number::Int(0), Number::Int(100), 3), ErrorCode::NoError);
    assert_eq!(h.set_reset(Some(4)), ErrorCode::NoError);
    assert_eq!(h.connect(), ErrorCode::NoError);
    h
}

fn connected(h: &ClientHandle<u32>) -> &ConnectedClient<u32> {
    match h {
        ClientHandle::Connected(c) => c,
        ClientHandle::Unconnected(_) => panic!("not connected"),
    }
}

#[test]
fn function_dispatch_count_bools() {
    let h = machine();
    let c = connected(&h);
    let values: Vec<Json> = [true, true, false, true, false].iter().map(|b| Json::Bool(*b)).collect();
    let msg = Message::new(
        21,
        MessageInner::FunctionCall {
            destination: s("M"),
            name: s("count_bools"),
            parameters: vec![(s("values"), Json::Array(values))],
        },
    );
    let (index, inputs) = match c.dispatch(&msg) {
        Action::CallFunction { reply_to, index, inputs } => {
            assert_eq!(reply_to, 21);
            (index, inputs)
        }
        other => panic!("unexpected {:?}", other),
    };
    assert_eq!(c.functions[index].1.callback, 1);
    let count = match &inputs[0] {
        InputValue::Array(items) => items.iter().filter(|x| **x == Scalar::Bool(true)).count(),
        other => panic!("unexpected {:?}", other),
    };
    let outs = vec![OutputSlot::Scalar(RawScalar::Int(count as i32))];
    assert_eq!(
        c.function_reply(index, 21, &outs),
        MessageInner::FunctionReturn { reply_to: 21, returns: vec![(s("count"), Json::Int(3))] }
    );
}

#[test]
fn unknown_function_is_refused() {
    let h = machine();
    let msg = Message::new(
        22,
        MessageInner::FunctionCall { destination: s("M"), name: s("nope"), parameters: vec![] },
    );
    assert_eq!(
        connected(&h).dispatch(&msg),
        Action::Send(MessageInner::UnsupportedOperation {
            reply_to: 22,
            operation: s("nope"),
            reason: s("unrecognized function"),
        })
    );
}

#[test]
fn bad_parameters_are_refused() {
    let h = machine();
    let missing = Message::new(
        23,
        MessageInner::FunctionCall { destination: s("M"), name: s("count_bools"), parameters: vec![] },
    );
    let wrong = Message::new(
        24,
        MessageInner::FunctionCall {
            destination: s("M"),
            name: s("count_bools"),
            parameters: vec![(s("values"), Json::Array(vec![Json::Int(1)]))],
        },
    );
    for (m, id) in [(missing, 23), (wrong, 24)] {
        assert_eq!(
            connected(&h).dispatch(&m),
            Action::Send(MessageInner::UnsupportedOperation {
                reply_to: id,
                operation: s("count_bools"),
                reason: s("invalid parameters"),
            })
        );
    }
}

#[test]
fn axis_then_reset() {
    let h = machine();
    let c = connected(&h);
    let axis = Message::new(
        25,
        MessageInner::AxisChange { destination: s("M"), name: s("x"), value: Number::Float(s("0.5")) },
    );
    assert_eq!(
        c.dispatch(&axis),
        Action::SetAxis { reply_to: 25, index: 0, value: Number::Float(s("0.5")) }
    );
    assert_eq!(axis_reply(25), MessageInner::AxisReturn { reply_to: 25 });
    let reset = Message::new(26, MessageInner::Reset { destination: s("M") });
    assert_eq!(c.dispatch(&reset), Action::CallReset(4));
    let unknown = Message::new(
        27,
        MessageInner::AxisChange { destination: s("M"), name: s("y"), value: Number::Int(1) },
    );
    assert_eq!(
        c.dispatch(&unknown),
        Action::Send(MessageInner::UnsupportedOperation {
            reply_to: 27,
            operation: s("y"),
            reason: s("unrecognized axis"),
        })
    );
}

#[test]
fn sensor_read_and_heartbeat() {
    let h = machine();
    let c = connected(&h);
    let read = Message::new(28, MessageInner::SensorRead { destination: s("M"), name: s("t") });
    assert_eq!(c.dispatch(&read), Action::ReadSensor { reply_to: 28, index: 0 });
    assert_eq!(
        sensor_reply(28, Number::Float(s("21.5"))),
        MessageInner::SensorReturn { reply_to: 28, value: Json::Float(s("21.5")) }
    );
    let bad = Message::new(29, MessageInner::SensorRead { destination: s("M"), name: s("u") });
    assert_eq!(
        c.dispatch(&bad),
        Action::Send(MessageInner::UnsupportedOperation {
            reply_to: 29,
            operation: s("u"),
            reason: s("unrecognized sensor"),
        })
    );
    let hb = Message::new(30, MessageInner::Heartbeat { is_reply: false });
    assert_eq!(c.dispatch(&hb), Action::Send(MessageInner::Heartbeat { is_reply: true }));
    let hb = Message::new(31, MessageInner::Heartbeat { is_reply: true });
    assert_eq!(c.dispatch(&hb), Action::Nothing);
}

#[test]
fn registration_errors() {
    let mut h: ClientHandle<u32> = ClientHandle::new();
    assert_eq!(h.connect(), ErrorCode::MissingRequiredValue);
    assert_eq!(h.description(), Err(ErrorCode::MissingRequiredValue));
    assert_eq!(h.register_function(s("f"), &pairs(&[("a", "quux")]), &pairs(&[]), 1), ErrorCode::InvalidParameter);
    assert_eq!(h.register_function(s("f"), &pairs(&[("a", "int")]), &pairs(&[]), 1), ErrorCode::NoError);
    assert_eq!(h.register_function(s("f"), &pairs(&[]), &pairs(&[]), 1), ErrorCode::DuplicateName);
    assert_eq!(h.register_sensor(s("t"), Number::Int(0), Number::Int(1), 2), ErrorCode::NoError);
    assert_eq!(h.register_sensor(s("t"), Number::Int(0), Number::Int(1), 2), ErrorCode::DuplicateName);
    assert_eq!(h.register_stream(s("cam"), s("mjpeg"), -1), ErrorCode::InvalidParameter);
    assert_eq!(h.register_stream(s("cam"), s("mjpeg"), 3), ErrorCode::NoError);
    assert_eq!(h.register_stream(s("cam"), s("mjpeg"), 4), ErrorCode::DuplicateName);
    assert_eq!(h.set_name(s("M")), ErrorCode::NoError);
    assert_eq!(h.connect(), ErrorCode::NoError);
    assert_eq!(h.connect(), ErrorCode::AlreadyConnected);
    assert_eq!(h.set_name(s("N")), ErrorCode::AlreadyConnected);
    assert_eq!(h.register_axis(s("x"), Number::Int(0), Number::Int(1), s(""), s(""), 5), ErrorCode::AlreadyConnected);
    assert_eq!(h.description(), Err(ErrorCode::AlreadyConnected));
    assert_eq!(
        connected(&h).stream_descriptions(),
        vec![MessageInner::StreamDescription { machine: s("M"), stream: s("cam") }]
    );
}

#[test]
fn duplicate_descriptor_names_keep_first_place() {
    let mut h: ClientHandle<u32> = ClientHandle::new();
    assert_eq!(
        h.register_function(s("f"), &pairs(&[("a", "int"), ("b", "bool"), ("a", "string")]), &pairs(&[]), 1),
        ErrorCode::NoError
    );
    match &h {
        ClientHandle::Unconnected(c) => assert_eq!(
            c.functions[0].1.parameters.iter().map(|(k, t)| (k.clone(), *t)).collect::<Vec<_>>(),
            vec![(s("a"), Type::String), (s("b"), Type::Prim(PrimType::Bool))]
        ),
        _ => panic!("connected"),
    }
}

#[test]
fn description_lists_registrations() {
    let mut h: ClientHandle<u32> = ClientHandle::new();
    h.set_name(s("M"));
    h.register_function(s("f"), &pairs(&[("a", "int[]")]), &pairs(&[("r", "string")]), 1);
    h.register_stream(s("cam"), s("mjpeg"), 3);
    match h.description().unwrap() {
        MessageInner::MachineDescription { name, functions, streams, .. } => {
            assert_eq!(name, s("M"));
            assert_eq!(functions[0].0, s("f"));
            assert_eq!(functions[0].1.parameters, pairs(&[("a", "int[]")]));
            assert_eq!(functions[0].1.returns, pairs(&[("r", "string")]));
            assert_eq!(streams[0].1.format, s("mjpeg"));
        }
        other => panic!("unexpected {:?}", other),
    }
}

#[test]
fn setup_response_outcomes() {
    assert_eq!(setup_outcome(&Message::new(1, MessageInner::SetupResponse { connected: true })), ErrorCode::NoError);
    assert_eq!(
        setup_outcome(&Message::new(1, MessageInner::SetupResponse { connected: false })),
        ErrorCode::ConnectionRejected
    );
    assert_eq!(setup_outcome(&Message::new(1, MessageInner::Disconnect)), ErrorCode::InvalidMessageReceived);
    assert_eq!(ErrorCode::ConnectionRejected.code(), 13);
    assert_eq!(ErrorCode::NoError.code(), 0);
    assert_eq!(ErrorCode::OtherError.code(), 16);
}
