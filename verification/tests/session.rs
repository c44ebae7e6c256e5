use probe_rs_debugadapter::debug_adapter::{
    DebugAdapterMessage, Error, EventBody, EventMessage, MessageKind, Outgoing,
};
use probe_rs_debugadapter::debugger::HandleResult;
use probe_rs_debugadapter::framing::write_frame;
use probe_rs_debugadapter::probe::{ProbeAction, ProbeReply};
use probe_rs_debugadapter::session::{Phase, Session};
use probe_rs_debugadapter::types::{
    Arguments, AttachRequestArguments, Capabilities, Request, Response, ResponseBody,
};

const INITIALIZE: &str = r#"{"command":"initialize","arguments":{"clientID":"vscode","clientName":"Visual Studio Code","adapterID":"probe_rs","pathFormat":"path","linesStartAt1":true,"columnsStartAt1":true,"supportsVariableType":true,"supportsVariablePaging":true,"supportsRunInTerminalRequest":true,"locale":"en-us"},"type":"request","seq":1}"#;

fn initialize(seq: i64) -> DebugAdapterMessage {
    DebugAdapterMessage::Request(Request {
        seq,
        command: "initialize".to_owned(),
        arguments: Arguments::Initialize {
            client_name: Some("Visual Studio Code".to_owned()),
        },
    })
}

fn simple(seq: i64, command: &str) -> DebugAdapterMessage {
    DebugAdapterMessage::Request(Request {
        seq,
        command: command.to_owned(),
        arguments: Arguments::Other,
    })
}

fn running() -> Session {
    let mut session = Session::new("/work");
    session.on_message(&initialize(1)).unwrap();
    session.take_outgoing();
    session
}

#[test]
fn initialize_handshake() {
    let mut session = Session::new("/work");
    assert_eq!(Phase::Uninitialized, session.phase());
    session.feed(format!("Content-Length: 315\r\n\r\n{}", INITIALIZE).as_bytes());
    let received = session.receive_data().unwrap();
    assert_eq!(MessageKind::Request, received.kind);
    assert_eq!(INITIALIZE.as_bytes(), &received.payload[..]);

    let decoded: serde_json::Value = serde_json::from_slice(&received.payload).unwrap();
    let message = DebugAdapterMessage::Request(Request {
        seq: decoded["seq"].as_i64().unwrap(),
        command: decoded["command"].as_str().unwrap().to_owned(),
        arguments: Arguments::Initialize {
            client_name: decoded["arguments"]["clientName"]
                .as_str()
                .map(|name| name.to_owned()),
        },
    });

    assert_eq!(Ok(HandleResult::Continue), session.on_message(&message));
    assert_eq!(Phase::Running, session.phase());
    assert_eq!(
        vec![
            Outgoing::Response(Response {
                seq: 1,
                request_seq: 1,
                command: "initialize".to_owned(),
                success: true,
                message: None,
                body: Some(ResponseBody::Capabilities(Capabilities {
                    supports_configuration_done_request: Some(true),
                })),
            }),
            Outgoing::Event(EventMessage {
                seq: 2,
                event: "initialized".to_owned(),
                body: None,
            }),
        ],
        session.take_outgoing()
    );
}

#[test]
fn first_message_must_be_initialize() {
    let mut session = Session::new("/work");
    assert_eq!(
        Err(Error::Other(
            "Initial command was 'attach', expected 'initialize'".to_owned()
        )),
        session.on_message(&simple(1, "attach"))
    );
    assert_eq!(Phase::Terminated, session.phase());
    assert!(session.take_outgoing().is_empty());
    assert_eq!(
        Err(Error::InvalidRequest),
        session.on_message(&initialize(2))
    );

    let mut session = Session::new("/work");
    let event = DebugAdapterMessage::Event(EventMessage {
        seq: 1,
        event: "initialized".to_owned(),
        body: None,
    });
    assert_eq!(
        Err(Error::Other(
            "Expected request as initial message".to_owned()
        )),
        session.on_message(&event)
    );
    assert_eq!(Phase::Terminated, session.phase());
}

#[test]
fn initialize_without_arguments_is_refused_and_can_be_sent_again() {
    let mut session = Session::new("/work");
    let bare = DebugAdapterMessage::Request(Request {
        seq: 1,
        command: "initialize".to_owned(),
        arguments: Arguments::Missing,
    });
    assert_eq!(Ok(HandleResult::Continue), session.on_message(&bare));
    assert_eq!(Phase::Uninitialized, session.phase());
    assert_eq!(
        vec![Outgoing::Response(Response {
            seq: 1,
            request_seq: 1,
            command: "initialize".to_owned(),
            success: false,
            message: Some("Received an invalid requeset".to_owned()),
            body: None,
        })],
        session.take_outgoing()
    );
    assert_eq!(Ok(HandleResult::Continue), session.on_message(&initialize(2)));
    assert_eq!(Phase::Running, session.phase());
}

#[test]
fn disconnect_ends_the_session_with_terminated() {
    let mut session = running();
    assert_eq!(
        Ok(HandleResult::Stop),
        session.on_message(&simple(2, "disconnect"))
    );
    assert_eq!(Phase::Terminated, session.phase());
    assert_eq!(
        vec![
            Outgoing::Response(Response {
                seq: 3,
                request_seq: 2,
                command: "disconnect".to_owned(),
                success: true,
                message: None,
                body: None,
            }),
            Outgoing::Event(EventMessage {
                seq: 4,
                event: "terminated".to_owned(),
                body: Some(EventBody::Terminated { restart: false }),
            }),
        ],
        session.take_outgoing()
    );
    assert_eq!(
        Err(Error::InvalidRequest),
        session.on_message(&simple(3, "threads"))
    );
    assert!(session.take_outgoing().is_empty());
}

#[test]
fn requests_go_to_the_debug_session() {
    let mut session = running();
    let attach = DebugAdapterMessage::Request(Request {
        seq: 2,
        command: "attach".to_owned(),
        arguments: Arguments::Attach(AttachRequestArguments {
            program: "app.elf".to_owned(),
            chip: "stm32f4".to_owned(),
            cwd: Some("/project".to_owned()),
            reset: None,
            halt_after_reset: None,
        }),
    });
    assert_eq!(
        Ok(HandleResult::Probe(ProbeAction::Attach {
            program: "/project/app.elf".to_owned(),
            chip: "stm32f4".to_owned(),
        })),
        session.on_message(&attach)
    );
    assert_eq!(
        Ok(HandleResult::Continue),
        session.on_reply(ProbeReply::Attached {
            debug_info: false,
            error: None,
        })
    );
    let sent = session.take_outgoing();
    assert_eq!(2, sent.len());
    match &sent[1] {
        Outgoing::Response(response) => {
            assert!(response.success);
            assert_eq!(2, response.request_seq);
            assert_eq!(4, response.seq);
        }
        other => panic!("no response: {:?}", other),
    }
}

#[test]
fn messages_that_are_no_requests_are_passed_over() {
    let mut session = running();
    let response = DebugAdapterMessage::Response(Response {
        seq: 5,
        request_seq: 1,
        command: "runInTerminal".to_owned(),
        success: true,
        message: None,
        body: None,
    });
    assert_eq!(Ok(HandleResult::Continue), session.on_message(&response));
    assert_eq!(Phase::Running, session.phase());
    assert!(session.take_outgoing().is_empty());
}

#[test]
fn reply_without_a_session_is_refused() {
    let mut session = Session::new("/work");
    assert_eq!(Err(Error::InvalidRequest), session.on_reply(ProbeReply::Done));
    let mut session = running();
    assert_eq!(Err(Error::InvalidRequest), session.on_reply(ProbeReply::Done));
}

#[test]
fn written_messages_are_framed() {
    let body = br#"{"seq":1,"type":"event","event":"initialized"}"#;
    let frame = write_frame(body);
    let mut session = Session::new("/work");
    session.feed(&frame);
    let received = session.receive_data().unwrap();
    assert_eq!(MessageKind::Event, received.kind);
    assert_eq!(body.to_vec(), received.payload);
}
