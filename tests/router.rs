use frontrow::json::Json;
use frontrow::message::{Message, MessageInner};
use frontrow::router::{AdmitError, Decision, DropReason, MessageSource, Router};

fn s(x: &str) -> String {
    x.to_string()
}

fn describe(name: &str) -> Message {
    Message::new(
        1,
        MessageInner::MachineDescription {
            name: s(name),
            functions: vec![],
            sensors: vec![],
            axes: vec![],
            streams: vec![],
        },
    )
}

fn call(id: i64, machine: &str) -> Message {
    Message::new(
        id,
        MessageInner::FunctionCall { destination: s(machine), name: s("f"), parameters: vec![] },
    )
}

fn setup() -> Router {
    let mut r = Router::new();
    assert_eq!(r.admit_machine(&describe("arm")), Ok(s("arm")));
    assert!(r.admit_environment(7));
    r
}

#[test]
fn heartbeat_request_is_answered() {
    let mut r = setup();
    let d = r.route(
        Message::new(5, MessageInner::Heartbeat { is_reply: false }),
        MessageSource::Environment(7),
        100,
    );
    assert_eq!(
        d,
        Decision::Forward {
            to: MessageSource::Environment(7),
            message: Message::new(100, MessageInner::Heartbeat { is_reply: true }),
        }
    );
    let d = r.route(
        Message::new(6, MessageInner::Heartbeat { is_reply: true }),
        MessageSource::Environment(7),
        101,
    );
    assert_eq!(d, Decision::Drop(DropReason::HeartbeatReply));
}

#[test]
fn machine_list_reflects_registry() {
    let mut r = setup();
    assert_eq!(r.admit_machine(&describe("cam")), Ok(s("cam")));
    let d = r.route(Message::new(5, MessageInner::MachineListRequest), MessageSource::Environment(7), 50);
    assert_eq!(
        d,
        Decision::Forward {
            to: MessageSource::Environment(7),
            message: Message::new(50, MessageInner::MachineListReply { machines: vec![s("arm"), s("cam")] }),
        }
    );
    r.route(Message::new(6, MessageInner::Disconnect), MessageSource::Machine(s("cam")), 51);
    let d = r.route(Message::new(7, MessageInner::MachineListRequest), MessageSource::Environment(7), 52);
    assert_eq!(
        d,
        Decision::Forward {
            to: MessageSource::Environment(7),
            message: Message::new(52, MessageInner::MachineListReply { machines: vec![s("arm")] }),
        }
    );
}

#[test]
fn name_collision_keeps_first_machine() {
    let mut r = setup();
    assert_eq!(r.admit_machine(&describe("arm")), Err(AdmitError::NameTaken));
    assert_eq!(r.machine_names(), vec![s("arm")]);
    assert_eq!(
        r.admit_machine(&Message::new(1, MessageInner::Heartbeat { is_reply: false })),
        Err(AdmitError::NotADescription)
    );
}

#[test]
fn reply_goes_back_to_requester_once() {
    let mut r = setup();
    let d = r.route(call(40, "arm"), MessageSource::Environment(7), 1);
    assert_eq!(d, Decision::Forward { to: MessageSource::Machine(s("arm")), message: call(40, "arm") });
    let reply = || Message::new(2, MessageInner::FunctionReturn { reply_to: 40, returns: vec![(s("n"), Json::Int(1))] });
    let d = r.route(reply(), MessageSource::Machine(s("arm")), 3);
    assert_eq!(d, Decision::Forward { to: MessageSource::Environment(7), message: reply() });
    let d = r.route(reply(), MessageSource::Machine(s("arm")), 4);
    assert_eq!(d, Decision::Drop(DropReason::UnknownReplyId));
}

#[test]
fn reply_to_vanished_source_is_dropped() {
    let mut r = setup();
    r.route(call(41, "arm"), MessageSource::Environment(7), 1);
    let d = r.route(Message::new(42, MessageInner::Disconnect), MessageSource::Environment(7), 2);
    assert_eq!(d, Decision::Removed(MessageSource::Environment(7)));
    let d = r.route(
        Message::new(3, MessageInner::FunctionReturn { reply_to: 41, returns: vec![] }),
        MessageSource::Machine(s("arm")),
        4,
    );
    assert_eq!(d, Decision::Drop(DropReason::UnknownReplyId));
}

#[test]
fn unknown_destination_is_dropped() {
    let mut r = setup();
    let d = r.route(call(43, "ghost"), MessageSource::Environment(7), 1);
    assert_eq!(d, Decision::Drop(DropReason::DestinationGone));
    let d = r.route(
        Message::new(4, MessageInner::FunctionReturn { reply_to: 43, returns: vec![] }),
        MessageSource::Machine(s("arm")),
        2,
    );
    assert_eq!(d, Decision::Drop(DropReason::UnknownReplyId));
}

#[test]
fn reset_is_forwarded_without_reply_entry() {
    let mut r = setup();
    let reset = || Message::new(44, MessageInner::Reset { destination: s("arm") });
    let d = r.route(reset(), MessageSource::Environment(7), 1);
    assert_eq!(d, Decision::Forward { to: MessageSource::Machine(s("arm")), message: reset() });
    let d = r.route(
        Message::new(5, MessageInner::AxisReturn { reply_to: 44 }),
        MessageSource::Machine(s("arm")),
        2,
    );
    assert_eq!(d, Decision::Drop(DropReason::UnknownReplyId));
}

#[test]
fn unexpected_messages_are_dropped() {
    let mut r = setup();
    assert_eq!(
        r.route(describe("arm"), MessageSource::Machine(s("arm")), 1),
        Decision::Drop(DropReason::UnexpectedDescription)
    );
    assert_eq!(
        r.route(
            Message::new(2, MessageInner::StreamDescription { machine: s("arm"), stream: s("c") }),
            MessageSource::Machine(s("arm")),
            2
        ),
        Decision::Drop(DropReason::UnexpectedStreamDescription)
    );
    assert_eq!(
        r.route(Message::new(3, MessageInner::MachineListReply { machines: vec![] }), MessageSource::Environment(7), 3),
        Decision::Drop(DropReason::Unexpected)
    );
}

#[test]
fn machine_disconnect_unregisters() {
    let mut r = setup();
    assert!(!r.admit_environment(7));
    let d = r.route(Message::new(1, MessageInner::Disconnect), MessageSource::Machine(s("arm")), 1);
    assert_eq!(d, Decision::Removed(MessageSource::Machine(s("arm"))));
    assert!(r.machine_names().is_empty());
    assert!(!r.is_registered(&MessageSource::Machine(s("arm"))));
    assert_eq!(r.peers(), vec![MessageSource::Environment(7)]);
    assert_eq!(r.admit_machine(&describe("arm")), Ok(s("arm")));
}
