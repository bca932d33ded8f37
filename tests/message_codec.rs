use frontrow::framing::{frame, LineBuffer};
use frontrow::json::{Json, Number};
use frontrow::message::{
    Axis, BufferMethod, Function, IdSource, Message, MessageInner, NodeType, Sensor, Stream,
};
use frontrow::wire::{DeserializeError, Field};

fn s(x: &str) -> String {
    x.to_string()
}

fn obj(members: Vec<(&str, Json)>) -> Json {
    Json::Object(members.into_iter().map(|(k, v)| (s(k), v)).collect())
}

fn description() -> Message {
    Message::new(
        7,
        MessageInner::MachineDescription {
            name: s("arm"),
            functions: vec![(
                s("count_bools"),
                Function {
                    parameters: vec![(s("values"), s("bool[]"))],
                    returns: vec![(s("count"), s("int"))],
                },
            )],
            sensors: vec![(
                s("temp"),
                Sensor { output_type: s("double"), min: Number::Int(-5), max: Number::Float(s("40.5")) },
            )],
            axes: vec![(
                s("x"),
                Axis {
                    input_type: s("double"),
                    min: Number::Int(0),
                    max: Number::Int(1),
                    direction: s("x"),
                    group: s("base"),
                },
            )],
            streams: vec![(s("cam"), Stream { format: s("mjpeg"), buffer_method: BufferMethod::Frames })],
        },
    )
}

#[test]
fn round_trip_machine_description() {
    let m = description();
    let j = m.serialize();
    assert_eq!(Message::deserialize(&j), Ok(description()));
}

#[test]
fn round_trip_function_call() {
    let m = Message::new(
        3,
        MessageInner::FunctionCall {
            destination: s("arm"),
            name: s("count_bools"),
            parameters: vec![(s("values"), Json::Array(vec![Json::Bool(true), Json::Bool(false)]))],
        },
    );
    let j = m.serialize();
    let back = Message::deserialize(&j).unwrap();
    assert_eq!(back.message_id, 3);
    assert_eq!(back, m);
}

#[test]
fn round_trip_every_simple_kind() {
    let kinds = vec![
        MessageInner::FunctionReturn { reply_to: 1, returns: vec![(s("count"), Json::Int(3))] },
        MessageInner::SensorRead { destination: s("arm"), name: s("temp") },
        MessageInner::SensorReturn { reply_to: 2, value: Json::Float(s("1.5")) },
        MessageInner::AxisChange { destination: s("arm"), name: s("x"), value: Number::Float(s("0.5")) },
        MessageInner::AxisReturn { reply_to: 4 },
        MessageInner::UnsupportedOperation { reply_to: 5, operation: s("nope"), reason: s("why") },
        MessageInner::Reset { destination: s("arm") },
        MessageInner::Disconnect,
        MessageInner::StreamDescription { machine: s("arm"), stream: s("cam") },
        MessageInner::Heartbeat { is_reply: true },
        MessageInner::MachineListRequest,
        MessageInner::MachineListReply { machines: vec![s("a"), s("b")] },
        MessageInner::SetupResponse { connected: false },
        MessageInner::Other { data: Json::Null },
    ];
    for (i, inner) in kinds.into_iter().enumerate() {
        let m = Message::new(i as i64 + 10, inner);
        let back = Message::deserialize(&m.serialize()).unwrap();
        assert_eq!(back, m);
    }
}

#[test]
fn serialize_writes_id_type_then_fields() {
    let m = Message::new(9, MessageInner::Heartbeat { is_reply: false });
    assert_eq!(
        m.serialize(),
        obj(vec![
            ("message_id", Json::Int(9)),
            ("message_type", Json::Str(s("heartbeat"))),
            ("is_reply", Json::Bool(false)),
        ])
    );
}

#[test]
fn fields_may_come_in_any_order() {
    let j = obj(vec![
        ("name", Json::Str(s("temp"))),
        ("message_type", Json::Str(s("sensor_read"))),
        ("destination", Json::Str(s("arm"))),
        ("message_id", Json::Int(12)),
    ]);
    let m = Message::deserialize(&j).unwrap();
    assert_eq!(m.message_id, 12);
    assert_eq!(m.inner, MessageInner::SensorRead { destination: s("arm"), name: s("temp") });
}

#[test]
fn missing_message_id_reads_as_minus_one() {
    let j = obj(vec![
        ("message_type", Json::Str(s("stream_descriptor"))),
        ("machine", Json::Str(s("arm"))),
        ("stream", Json::Str(s("cam"))),
    ]);
    assert_eq!(Message::deserialize(&j).unwrap().message_id, -1);
}

#[test]
fn deserialize_errors() {
    assert_eq!(Message::deserialize(&Json::Null), Err(DeserializeError::NotAnObject));
    assert_eq!(
        Message::deserialize(&obj(vec![("message_id", Json::Str(s("1")))])),
        Err(DeserializeError::InvalidType(Field::MessageId))
    );
    assert_eq!(
        Message::deserialize(&obj(vec![("message_id", Json::Int(1))])),
        Err(DeserializeError::MissingField(Field::MessageType))
    );
    assert_eq!(
        Message::deserialize(&obj(vec![("message_type", Json::Int(1))])),
        Err(DeserializeError::InvalidType(Field::MessageType))
    );
    assert_eq!(
        Message::deserialize(&obj(vec![("message_type", Json::Str(s("bogus")))])),
        Err(DeserializeError::UnknownVariant(s("bogus")))
    );
    assert_eq!(
        Message::deserialize(&obj(vec![("message_type", Json::Str(s("reset")))])),
        Err(DeserializeError::MissingField(Field::Destination))
    );
    assert_eq!(
        Message::deserialize(&obj(vec![
            ("message_type", Json::Str(s("heartbeat"))),
            ("is_reply", Json::Int(1)),
        ])),
        Err(DeserializeError::InvalidType(Field::IsReply))
    );
    assert_eq!(
        Message::deserialize(&obj(vec![
            ("message_type", Json::Str(s("disconnect"))),
            ("extra", Json::Null),
        ])),
        Err(DeserializeError::UnknownField(s("extra")))
    );
}

#[test]
fn descriptor_defaults() {
    let j = obj(vec![
        ("message_type", Json::Str(s("machine_description"))),
        ("name", Json::Str(s("m"))),
        ("functions", obj(vec![])),
        ("sensors", obj(vec![("t", obj(vec![("type", Json::Str(s("double")))]))])),
        ("axes", obj(vec![("a", obj(vec![("type", Json::Str(s("double")))]))])),
        ("streams", obj(vec![("c", obj(vec![("format", Json::Str(s("jpeg")))]))])),
    ]);
    match Message::deserialize(&j).unwrap().inner {
        MessageInner::MachineDescription { sensors, axes, streams, .. } => {
            assert_eq!(sensors[0].1.min, Number::Int(0));
            assert_eq!(axes[0].1.group, s(""));
            assert_eq!(streams[0].1.buffer_method, BufferMethod::NoDiscard);
        }
        other => panic!("unexpected {:?}", other),
    }
}

#[test]
fn routing_metadata() {
    let call = Message::new(
        1,
        MessageInner::FunctionCall { destination: s("arm"), name: s("f"), parameters: vec![] },
    );
    assert!(call.expects_forwarded_reply());
    assert_eq!(call.reply_to(), None);
    assert_eq!(call.destination_machine(), Some(&s("arm")));
    assert_eq!(call.route(), (NodeType::Environment, NodeType::Machine));
    let ret = Message::new(2, MessageInner::AxisReturn { reply_to: 1 });
    assert!(!ret.expects_forwarded_reply());
    assert_eq!(ret.reply_to(), Some(1));
    assert_eq!(ret.destination_machine(), None);
    let reset = Message::new(3, MessageInner::Reset { destination: s("arm") });
    assert!(!reset.expects_forwarded_reply());
    assert_eq!(reset.destination_machine(), Some(&s("arm")));
    assert_eq!(MessageInner::MachineListRequest.variant_name(), "machine_list_request");
}

#[test]
fn ids_increase() {
    let mut ids = IdSource::new();
    assert_eq!(ids.next_id(), Some(1));
    assert_eq!(ids.next_id(), Some(2));
    let mut last = IdSource { next: i64::MAX };
    assert_eq!(last.next_id(), None);
}

#[test]
fn framing_lines() {
    assert_eq!(frame(&b"{}".to_vec()), b"{}\n".to_vec());
    let mut lb = LineBuffer::new();
    lb.push_bytes(b"ab\ncd");
    assert_eq!(lb.pop_line(), Some(b"ab".to_vec()));
    assert_eq!(lb.pop_line(), None);
    lb.push_bytes(b"\n");
    assert_eq!(lb.pop_line(), Some(b"cd".to_vec()));
    assert_eq!(lb.pop_line(), None);
}
