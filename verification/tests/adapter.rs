use probe_rs_debugadapter::debug_adapter::{
    DebugAdapter, DebugAdapterMessage, Error, Event, EventBody, EventMessage, MessageKind,
    Outgoing, Received, RestartRequest,
};
use probe_rs_debugadapter::framing::FramingError;
use probe_rs_debugadapter::types::{
    Arguments, Breakpoint, Capabilities, Request, Response, ResponseBody,
};

fn request(seq: i64, command: &str) -> Request {
    Request {
        seq,
        command: command.to_owned(),
        arguments: Arguments::Other,
    }
}

#[test]
fn sequence_starts_at_one() {
    let adapter = DebugAdapter::new();
    assert_eq!(1, adapter.peek_seq());
}

#[test]
fn response_carries_the_sequence_of_its_request() {
    let mut adapter = DebugAdapter::new();
    let body = ResponseBody::Capabilities(Capabilities {
        supports_configuration_done_request: Some(true),
    });
    adapter
        .send_response(&request(17, "initialize"), Ok(Some(body.clone())))
        .unwrap();
    assert_eq!(2, adapter.peek_seq());
    assert_eq!(
        vec![Outgoing::Response(Response {
            seq: 1,
            request_seq: 17,
            command: "initialize".to_owned(),
            success: true,
            message: None,
            body: Some(body),
        })],
        adapter.take_outgoing()
    );
    assert!(adapter.take_outgoing().is_empty());
}

#[test]
fn failed_response_says_why_and_has_no_body() {
    let mut adapter = DebugAdapter::new();
    adapter
        .send_response(&request(3, "next"), Err(Error::MissingSession))
        .unwrap();
    adapter
        .send_response(&request(4, "evaluate"), Ok(None))
        .unwrap();
    assert_eq!(
        vec![
            Outgoing::Response(Response {
                seq: 1,
                request_seq: 3,
                command: "next".to_owned(),
                success: false,
                message: Some("Missing session for interaction with probe".to_owned()),
                body: None,
            }),
            Outgoing::Response(Response {
                seq: 2,
                request_seq: 4,
                command: "evaluate".to_owned(),
                success: true,
                message: None,
                body: None,
            }),
        ],
        adapter.take_outgoing()
    );
}

#[test]
fn every_message_sent_takes_one_number() {
    let mut adapter = DebugAdapter::new();
    adapter.send_event(&Event::Initialized).unwrap();
    adapter.log_to_console("hello").unwrap();
    adapter
        .send_response(&request(9, "threads"), Ok(None))
        .unwrap();
    adapter
        .send_event(&Event::Terminated(RestartRequest::No))
        .unwrap();
    assert_eq!(5, adapter.peek_seq());
    let sent = adapter.take_outgoing();
    let numbers: Vec<i64> = sent
        .iter()
        .map(|m| match m {
            Outgoing::Response(r) => r.seq,
            Outgoing::Event(e) => e.seq,
        })
        .collect();
    assert_eq!(vec![1, 2, 3, 4], numbers);
    assert_eq!(5, adapter.peek_seq());
}

#[test]
fn send_data_numbers_the_message_itself() {
    let mut adapter = DebugAdapter::new();
    adapter
        .send_data(Outgoing::Event(EventMessage {
            seq: 99,
            event: "initialized".to_owned(),
            body: None,
        }))
        .unwrap();
    assert_eq!(
        vec![Outgoing::Event(EventMessage {
            seq: 1,
            event: "initialized".to_owned(),
            body: None,
        })],
        adapter.take_outgoing()
    );
}

#[test]
fn console_output_event() {
    assert_eq!(
        Event::Output {
            output: "text".to_owned(),
            category: Some("console".to_owned()),
        },
        Event::console_output("text".to_owned())
    );
    let mut adapter = DebugAdapter::new();
    adapter.log_to_console("Attached to probe").unwrap();
    assert_eq!(
        vec![Outgoing::Event(EventMessage {
            seq: 1,
            event: "output".to_owned(),
            body: Some(EventBody::Output {
                output: "Attached to probe".to_owned(),
                category: Some("console".to_owned()),
            }),
        })],
        adapter.take_outgoing()
    );
}

#[test]
fn events_by_kind() {
    let breakpoint = Breakpoint {
        id: Some(4),
        verified: true,
        line: Some(10),
        column: None,
    };
    let cases = vec![
        (Event::Initialized, "initialized", None),
        (
            Event::Process {
                name: "app".to_owned(),
            },
            "process",
            Some(EventBody::Process {
                name: "app".to_owned(),
            }),
        ),
        (
            Event::Thread {
                reason: "started".to_owned(),
                thread_id: 0,
            },
            "thread",
            Some(EventBody::Thread {
                reason: "started".to_owned(),
                thread_id: 0,
            }),
        ),
        (
            Event::Stopped {
                reason: "pause".to_owned(),
                description: None,
                thread_id: Some(0),
            },
            "stopped",
            Some(EventBody::Stopped {
                reason: "pause".to_owned(),
                description: None,
                thread_id: Some(0),
            }),
        ),
        (
            Event::Terminated(RestartRequest::Yes),
            "terminated",
            Some(EventBody::Terminated { restart: true }),
        ),
        (
            Event::Terminated(RestartRequest::No),
            "terminated",
            Some(EventBody::Terminated { restart: false }),
        ),
        (
            Event::Breakpoint {
                reason: "changed".to_owned(),
                breakpoint,
            },
            "breakpoint",
            Some(EventBody::Breakpoint {
                reason: "changed".to_owned(),
                breakpoint,
            }),
        ),
    ];
    for (event, name, body) in cases {
        assert_eq!(
            Ok(EventMessage {
                seq: 7,
                event: name.to_owned(),
                body,
            }),
            event.serialize(7)
        );
    }
}

#[test]
fn every_kind_of_event_has_a_message() {
    let cases = vec![
        (
            Event::Exited(3),
            "exited",
            Some(EventBody::Exited { exit_code: 3 }),
        ),
        (
            Event::Exited(-1),
            "exited",
            Some(EventBody::Exited { exit_code: -1 }),
        ),
        (Event::Module, "module", None),
        (Event::Continued, "continued", None),
        (Event::Capabilities, "capabilities", None),
        (Event::LoadedSource, "loadedSource", None),
    ];
    for (event, name, body) in cases {
        let message = EventMessage {
            seq: 1,
            event: name.to_owned(),
            body,
        };
        assert_eq!(Ok(message.clone()), event.serialize(1));
        assert_eq!(message, event.to_message(1));
        let mut adapter = DebugAdapter::new();
        assert_eq!(Ok(()), adapter.send_event(&event));
        assert_eq!(2, adapter.peek_seq());
        assert_eq!(vec![Outgoing::Event(message)], adapter.take_outgoing());
    }
}

fn framed(payload: &str) -> Vec<u8> {
    format!("Content-Length: {}\r\n\r\n{}", payload.len(), payload).into_bytes()
}

#[test]
fn messages_are_taken_from_the_input_one_by_one() {
    let request = r#"{"seq":1,"type":"request","command":"threads"}"#;
    let response = r#"{"type":"response","seq":2,"request_seq":1,"success":true,"command":"x"}"#;
    let event = r#"{"seq":3,"type":"event","event":"initialized","body":{"a":[1,2.5,null]}}"#;
    let mut stream = framed(request);
    stream.extend(framed(response));
    stream.extend(framed(event));
    let mut adapter = DebugAdapter::new();
    adapter.feed(&stream[..30]);
    adapter.feed(&stream[30..]);
    assert_eq!(
        Ok(Received {
            kind: MessageKind::Request,
            payload: request.as_bytes().to_vec(),
        }),
        adapter.receive_data()
    );
    assert_eq!(
        Ok(Received {
            kind: MessageKind::Response,
            payload: response.as_bytes().to_vec(),
        }),
        adapter.receive_data()
    );
    assert_eq!(
        Ok(Received {
            kind: MessageKind::Event,
            payload: event.as_bytes().to_vec(),
        }),
        adapter.receive_data()
    );
    assert_eq!(
        Err(Error::Framing(FramingError::MissingLength)),
        adapter.receive_data()
    );
    assert_eq!(1, adapter.peek_seq());
}

#[test]
fn a_frame_that_is_not_whole_is_left_in_the_input() {
    let message = r#"{"seq":1,"type":"request","command":"threads"}"#;
    let stream = framed(message);
    let mut adapter = DebugAdapter::new();
    adapter.feed(&stream[..stream.len() - 2]);
    assert_eq!(
        Err(Error::Framing(FramingError::Truncated)),
        adapter.receive_data()
    );
    adapter.feed(&stream[stream.len() - 2..]);
    assert_eq!(
        Ok(Received {
            kind: MessageKind::Request,
            payload: message.as_bytes().to_vec(),
        }),
        adapter.receive_data()
    );
}

#[test]
fn a_message_of_unknown_kind_is_refused() {
    let mut adapter = DebugAdapter::new();
    adapter.feed(&framed(r#"{"seq":1,"type":"reply"}"#));
    adapter.feed(&framed(r#"{"seq":2,"type":"event","event":"x"}"#));
    assert_eq!(
        Err(Error::UnknownMessageType("reply".to_owned())),
        adapter.receive_data()
    );
    assert_eq!(
        Ok(MessageKind::Event),
        adapter.receive_data().map(|received| received.kind)
    );
}

#[test]
fn a_payload_that_is_no_message_is_refused() {
    for payload in ["{}", "null", "{\"seq\":1}", "{\"type\":\"request\"}", "{\"seq\":1,", ""] {
        let mut adapter = DebugAdapter::new();
        adapter.feed(&framed(payload));
        adapter.feed(&framed(r#"{"seq":2,"type":"request","command":"x"}"#));
        match adapter.receive_data() {
            Err(Error::MalformedPayload(why)) => assert!(!why.is_empty()),
            other => panic!("accepted {:?}: {:?}", payload, other),
        }
        assert_eq!(
            Ok(MessageKind::Request),
            adapter.receive_data().map(|received| received.kind)
        );
    }
}

#[test]
fn message_kinds() {
    assert_eq!(
        Ok(MessageKind::Request),
        DebugAdapterMessage::kind_of("request")
    );
    assert_eq!(
        Ok(MessageKind::Response),
        DebugAdapterMessage::kind_of("response")
    );
    assert_eq!(Ok(MessageKind::Event), DebugAdapterMessage::kind_of("event"));
    assert_eq!(
        Err(Error::UnknownMessageType("reply".to_owned())),
        DebugAdapterMessage::kind_of("reply")
    );
    assert_eq!(
        Err(Error::UnknownMessageType("".to_owned())),
        DebugAdapterMessage::kind_of("")
    );
}

#[test]
fn error_words() {
    assert_eq!(
        "Input error",
        Error::Framing(FramingError::Truncated).message()
    );
    assert_eq!(
        "Input error",
        Error::Framing(FramingError::InvalidText).message()
    );
    assert_eq!(
        "Failed to read content length from header",
        Error::Framing(FramingError::MissingLength).message()
    );
    assert_eq!(
        "Unknown message type: reply",
        Error::UnknownMessageType("reply".to_owned()).message()
    );
    assert_eq!(
        "Serialiation error",
        Error::MalformedPayload("missing field".to_owned()).message()
    );
    assert_eq!(
        "Error in interaction with probe",
        Error::ProbeError("usb".to_owned()).message()
    );
    assert_eq!(
        "Missing session for interaction with probe",
        Error::MissingSession.message()
    );
    assert_eq!("Received an invalid requeset", Error::InvalidRequest.message());
    assert_eq!("Request not implemented", Error::Unimplemented.message());
    assert_eq!("Sequence numbers exhausted", Error::Exhausted.message());
    assert_eq!("anything", Error::Other("anything".to_owned()).message());
}
