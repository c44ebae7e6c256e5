use probe_rs_debugadapter::debug_adapter::{
    DebugAdapter, Error, EventBody, EventMessage, Outgoing,
};
use probe_rs_debugadapter::breakpoints::BreakpointInfo;
use probe_rs_debugadapter::debugger::{get_arguments, Debugger, HandleResult};
use probe_rs_debugadapter::probe::{
    ColumnType, Frame, FrameVariable, Location, ProbeAction, ProbeReply, SourceLocation,
};
use probe_rs_debugadapter::command::Command;
use probe_rs_debugadapter::types::{
    Arguments, AttachRequestArguments, Breakpoint, Request, Response, ResponseBody, Scope,
    SetBreakpointsArguments, Source, SourceBreakpoint, StackFrame, Thread, Variable,
};

fn request(seq: i64, command: &str, arguments: Arguments) -> Request {
    Request {
        seq,
        command: command.to_owned(),
        arguments,
    }
}

fn ok(seq: i64, request_seq: i64, command: &str, body: Option<ResponseBody>) -> Outgoing {
    Outgoing::Response(Response {
        seq,
        request_seq,
        command: command.to_owned(),
        success: true,
        message: None,
        body,
    })
}

fn failed(seq: i64, request_seq: i64, command: &str, message: &str) -> Outgoing {
    Outgoing::Response(Response {
        seq,
        request_seq,
        command: command.to_owned(),
        success: false,
        message: Some(message.to_owned()),
        body: None,
    })
}

fn event(seq: i64, name: &str, body: EventBody) -> Outgoing {
    Outgoing::Event(EventMessage {
        seq,
        event: name.to_owned(),
        body: Some(body),
    })
}

fn attach_arguments(cwd: Option<&str>) -> Arguments {
    Arguments::Attach(AttachRequestArguments {
        program: "target/app.elf".to_owned(),
        chip: "nrf52".to_owned(),
        cwd: cwd.map(|c| c.to_owned()),
        reset: None,
        halt_after_reset: None,
    })
}

fn breakpoints_at(path: Option<&str>, lines: &[i64]) -> Arguments {
    Arguments::SetBreakpoints(SetBreakpointsArguments {
        source_path: path.map(|p| p.to_owned()),
        breakpoints: Some(
            lines
                .iter()
                .map(|line| SourceBreakpoint {
                    line: *line,
                    column: None,
                })
                .collect(),
        ),
    })
}

fn unverified(line: i64) -> Breakpoint {
    Breakpoint {
        id: None,
        verified: false,
        line: Some(line),
        column: None,
    }
}

/// A session to which a probe is attached, with or without debug
/// information, and an adapter whose outbox is empty.
fn attached(debug_info: bool) -> (Debugger, DebugAdapter) {
    let mut debugger = Debugger::new("/work");
    let mut adapter = DebugAdapter::new();
    let asked = debugger.handle(&mut adapter, &request(1, "attach", attach_arguments(None)));
    assert_eq!(
        Ok(HandleResult::Probe(ProbeAction::Attach {
            program: "target/app.elf".to_owned(),
            chip: "nrf52".to_owned(),
        })),
        asked
    );
    let next = debugger.resume(
        &mut adapter,
        ProbeReply::Attached {
            debug_info,
            error: None,
        },
    );
    assert_eq!(Ok(HandleResult::Continue), next);
    assert!(debugger.is_attached());
    adapter.take_outgoing();
    (debugger, adapter)
}

fn frame(name: &str, line: Option<u64>, column: Option<ColumnType>) -> Frame {
    Frame {
        function_name: name.to_owned(),
        source_location: Some(SourceLocation {
            line,
            column,
            file: Some("main.rs".to_owned()),
            directory: Some("/work/src".to_owned()),
        }),
        variables: vec![
            FrameVariable {
                name: "x".to_owned(),
                value: "42".to_owned(),
            },
            FrameVariable {
                name: "y".to_owned(),
                value: "<unknown>".to_owned(),
            },
        ],
    }
}

#[test]
fn commands_by_name() {
    let names = [
        ("initialize", Command::Initialize),
        ("launch", Command::Launch),
        ("attach", Command::Attach),
        ("disconnect", Command::Disconnect),
        ("setBreakpoints", Command::SetBreakpoints),
        ("setExceptionBreakpoints", Command::SetExceptionBreakpoints),
        ("configurationDone", Command::ConfigurationDone),
        ("threads", Command::Threads),
        ("pause", Command::Pause),
        ("stackTrace", Command::StackTrace),
        ("scopes", Command::Scopes),
        ("source", Command::Source),
        ("variables", Command::Variables),
        ("continue", Command::Continue),
        ("next", Command::Next),
        ("stepIn", Command::Unsupported),
        ("Attach", Command::Unsupported),
        ("", Command::Unsupported),
    ];
    for (name, command) in names {
        assert_eq!(command, Command::of(name));
    }
}

#[test]
fn arguments_of_a_request() {
    assert_eq!(
        Err(Error::InvalidRequest),
        get_arguments(&request(1, "pause", Arguments::Missing))
    );
    assert_eq!(
        Err(Error::MalformedPayload("missing field `threadId`".to_owned())),
        get_arguments(&request(
            1,
            "pause",
            Arguments::Malformed("missing field `threadId`".to_owned())
        ))
    );
    assert_eq!(
        Ok(&Arguments::Scopes { frame_id: 3 }),
        get_arguments(&request(1, "scopes", Arguments::Scopes { frame_id: 3 }))
    );
}

#[test]
fn two_breakpoints_without_probe_and_debug_info() {
    let mut debugger = Debugger::new("/work");
    let mut adapter = DebugAdapter::new();
    let next = debugger.handle(
        &mut adapter,
        &request(
            5,
            "setBreakpoints",
            breakpoints_at(Some("/work/src/main.rs"), &[10, 20]),
        ),
    );
    assert_eq!(Ok(HandleResult::Continue), next);
    assert_eq!(
        vec![ok(
            1,
            5,
            "setBreakpoints",
            Some(ResponseBody::SetBreakpoints {
                breakpoints: vec![unverified(10), unverified(20)],
            })
        )],
        adapter.take_outgoing()
    );
    assert_eq!(
        &vec![
            BreakpointInfo {
                id: 0,
                verified: false,
                info: SourceBreakpoint {
                    line: 10,
                    column: None
                },
                source: Some("/work/src/main.rs".to_owned()),
                address: None,
            },
            BreakpointInfo {
                id: 1,
                verified: false,
                info: SourceBreakpoint {
                    line: 20,
                    column: None
                },
                source: Some("/work/src/main.rs".to_owned()),
                address: None,
            },
        ],
        debugger.breakpoints()
    );
}

#[test]
fn same_breakpoints_twice_give_the_same_outcome_and_fresh_ids() {
    let mut debugger = Debugger::new("/work");
    let mut adapter = DebugAdapter::new();
    let arguments = breakpoints_at(Some("a.rs"), &[3, 4]);
    debugger
        .handle(&mut adapter, &request(1, "setBreakpoints", arguments.clone()))
        .unwrap();
    let first_ids: Vec<u32> = debugger.breakpoints().iter().map(|b| b.id).collect();
    debugger
        .handle(&mut adapter, &request(2, "setBreakpoints", arguments))
        .unwrap();
    let second_ids: Vec<u32> = debugger.breakpoints().iter().map(|b| b.id).collect();
    assert_eq!(vec![0, 1], first_ids);
    assert_eq!(vec![2, 3], second_ids);
    let body = Some(ResponseBody::SetBreakpoints {
        breakpoints: vec![unverified(3), unverified(4)],
    });
    assert_eq!(
        vec![
            ok(1, 1, "setBreakpoints", body.clone()),
            ok(2, 2, "setBreakpoints", body),
        ],
        adapter.take_outgoing()
    );
}

#[test]
fn breakpoints_are_replaced_for_one_source_only() {
    let mut debugger = Debugger::new("/work");
    let mut adapter = DebugAdapter::new();
    for (seq, path, lines) in [
        (1, "a.rs", vec![1, 2]),
        (2, "b.rs", vec![7]),
        (3, "a.rs", vec![5]),
    ] {
        debugger
            .handle(
                &mut adapter,
                &request(seq, "setBreakpoints", breakpoints_at(Some(path), &lines)),
            )
            .unwrap();
    }
    let table: Vec<(u32, Option<String>, i64)> = debugger
        .breakpoints()
        .iter()
        .map(|b| (b.id, b.source.clone(), b.info.line))
        .collect();
    assert_eq!(
        vec![
            (2, Some("b.rs".to_owned()), 7),
            (3, Some("a.rs".to_owned()), 5),
        ],
        table
    );
    debugger
        .handle(
            &mut adapter,
            &request(
                4,
                "setBreakpoints",
                Arguments::SetBreakpoints(SetBreakpointsArguments {
                    source_path: Some("b.rs".to_owned()),
                    breakpoints: None,
                }),
            ),
        )
        .unwrap();
    assert_eq!(1, debugger.breakpoints().len());
    assert_eq!(3, debugger.breakpoints()[0].id);
}

#[test]
fn breakpoints_with_debug_info_are_resolved_and_armed() {
    let (mut debugger, mut adapter) = attached(true);
    let asked = debugger.handle(
        &mut adapter,
        &request(2, "setBreakpoints", breakpoints_at(Some("main.rs"), &[10, 20, 30])),
    );
    let place = |line| Location {
        source: "main.rs".to_owned(),
        line,
        column: None,
    };
    assert_eq!(
        Ok(HandleResult::Probe(ProbeAction::Resolve {
            locations: vec![place(10), place(20), place(30)],
        })),
        asked
    );
    assert!(adapter.take_outgoing().is_empty());
    let asked = debugger.resume(
        &mut adapter,
        ProbeReply::Resolved {
            addresses: vec![Some(0x100), None, Some(0x300)],
        },
    );
    assert_eq!(
        Ok(HandleResult::Probe(ProbeAction::Arm {
            addresses: vec![0x100, 0x300],
        })),
        asked
    );
    let next = debugger.resume(&mut adapter, ProbeReply::Done);
    assert_eq!(Ok(HandleResult::Continue), next);
    let verified = |line| Breakpoint {
        id: None,
        verified: true,
        line: Some(line),
        column: None,
    };
    assert_eq!(
        vec![ok(
            3,
            2,
            "setBreakpoints",
            Some(ResponseBody::SetBreakpoints {
                breakpoints: vec![verified(10), unverified(20), verified(30)],
            })
        )],
        adapter.take_outgoing()
    );
    let table: Vec<(bool, Option<u64>)> = debugger
        .breakpoints()
        .iter()
        .map(|b| (b.verified, b.address))
        .collect();
    assert_eq!(
        vec![(true, Some(0x100)), (false, None), (true, Some(0x300))],
        table
    );
}

#[test]
fn breakpoints_that_cannot_be_armed_fail_the_request() {
    let (mut debugger, mut adapter) = attached(true);
    debugger
        .handle(
            &mut adapter,
            &request(2, "setBreakpoints", breakpoints_at(Some("main.rs"), &[10])),
        )
        .unwrap();
    debugger
        .resume(
            &mut adapter,
            ProbeReply::Resolved {
                addresses: vec![Some(0x100)],
            },
        )
        .unwrap();
    let next = debugger.resume(&mut adapter, ProbeReply::Failed("no comparator left".to_owned()));
    assert_eq!(Ok(HandleResult::Continue), next);
    assert_eq!(
        vec![failed(3, 2, "setBreakpoints", "Error in interaction with probe")],
        adapter.take_outgoing()
    );
    assert!(!debugger.breakpoints()[0].verified);
}

#[test]
fn breakpoints_without_a_probe_are_resolved_but_not_armed() {
    let mut debugger = Debugger::new("/work");
    let mut adapter = DebugAdapter::new();
    debugger
        .handle(&mut adapter, &request(1, "attach", attach_arguments(None)))
        .unwrap();
    debugger
        .resume(
            &mut adapter,
            ProbeReply::Attached {
                debug_info: true,
                error: Some("no probe".to_owned()),
            },
        )
        .unwrap();
    adapter.take_outgoing();
    debugger
        .handle(
            &mut adapter,
            &request(2, "setBreakpoints", breakpoints_at(Some("main.rs"), &[10])),
        )
        .unwrap();
    let next = debugger.resume(
        &mut adapter,
        ProbeReply::Resolved {
            addresses: vec![Some(0x100)],
        },
    );
    assert_eq!(Ok(HandleResult::Continue), next);
    assert_eq!(
        vec![ok(
            2,
            2,
            "setBreakpoints",
            Some(ResponseBody::SetBreakpoints {
                breakpoints: vec![unverified(10)],
            })
        )],
        adapter.take_outgoing()
    );
    assert_eq!(Some(0x100), debugger.breakpoints()[0].address);
}

#[test]
fn attach_without_a_probe_fails_and_the_session_goes_on() {
    let mut debugger = Debugger::new("/work");
    let mut adapter = DebugAdapter::new();
    let asked = debugger.handle(
        &mut adapter,
        &request(1, "attach", attach_arguments(Some("/project"))),
    );
    assert_eq!(
        Ok(HandleResult::Probe(ProbeAction::Attach {
            program: "/project/target/app.elf".to_owned(),
            chip: "nrf52".to_owned(),
        })),
        asked
    );
    let next = debugger.resume(
        &mut adapter,
        ProbeReply::Attached {
            debug_info: false,
            error: Some("Failed to find probe".to_owned()),
        },
    );
    assert_eq!(Ok(HandleResult::Continue), next);
    assert!(!debugger.is_attached());
    assert_eq!(
        vec![failed(1, 1, "attach", "Failed to attach to probe.")],
        adapter.take_outgoing()
    );
    let next = debugger.handle(&mut adapter, &request(2, "threads", Arguments::Missing));
    assert_eq!(Ok(HandleResult::Continue), next);
    assert_eq!(
        vec![ok(
            2,
            2,
            "threads",
            Some(ResponseBody::Threads {
                threads: vec![Thread {
                    id: 0,
                    name: "Main Thread".to_owned(),
                }],
            })
        )],
        adapter.take_outgoing()
    );
}

#[test]
fn attach_arms_the_breakpoints_that_were_set_before() {
    let mut debugger = Debugger::new("/work");
    let mut adapter = DebugAdapter::new();
    debugger
        .handle(&mut adapter, &request(1, "attach", attach_arguments(None)))
        .unwrap();
    debugger
        .resume(
            &mut adapter,
            ProbeReply::Attached {
                debug_info: true,
                error: Some("no probe".to_owned()),
            },
        )
        .unwrap();
    debugger
        .handle(
            &mut adapter,
            &request(2, "setBreakpoints", breakpoints_at(Some("main.rs"), &[10, 20])),
        )
        .unwrap();
    debugger
        .resume(
            &mut adapter,
            ProbeReply::Resolved {
                addresses: vec![None, Some(0x200)],
            },
        )
        .unwrap();
    adapter.take_outgoing();

    debugger
        .handle(&mut adapter, &request(3, "attach", attach_arguments(None)))
        .unwrap();
    let asked = debugger.resume(
        &mut adapter,
        ProbeReply::Attached {
            debug_info: true,
            error: None,
        },
    );
    assert_eq!(
        Ok(HandleResult::Probe(ProbeAction::Resolve {
            locations: vec![Location {
                source: "main.rs".to_owned(),
                line: 10,
                column: None,
            }],
        })),
        asked
    );
    assert_eq!(
        vec![
            event(
                3,
                "output",
                EventBody::Output {
                    output: "Attached to probe".to_owned(),
                    category: Some("console".to_owned()),
                }
            ),
            ok(4, 3, "attach", None),
        ],
        adapter.take_outgoing()
    );
    let asked = debugger.resume(
        &mut adapter,
        ProbeReply::Resolved {
            addresses: vec![None],
        },
    );
    assert_eq!(
        Ok(HandleResult::Probe(ProbeAction::Arm {
            addresses: vec![0x200],
        })),
        asked
    );
    let next = debugger.resume(&mut adapter, ProbeReply::Done);
    assert_eq!(Ok(HandleResult::Continue), next);
    assert_eq!(
        vec![event(
            5,
            "breakpoint",
            EventBody::Breakpoint {
                reason: "changed".to_owned(),
                breakpoint: Breakpoint {
                    id: Some(1),
                    verified: true,
                    line: Some(20),
                    column: None,
                },
            }
        )],
        adapter.take_outgoing()
    );
    let table: Vec<bool> = debugger.breakpoints().iter().map(|b| b.verified).collect();
    assert_eq!(vec![false, true], table);
}

#[test]
fn attach_resolves_the_breakpoints_that_were_set_without_debug_info() {
    let mut debugger = Debugger::new("/work");
    let mut adapter = DebugAdapter::new();
    debugger
        .handle(
            &mut adapter,
            &request(1, "setBreakpoints", breakpoints_at(Some("a.rs"), &[1, 2])),
        )
        .unwrap();
    debugger
        .handle(
            &mut adapter,
            &request(2, "setBreakpoints", breakpoints_at(None, &[9])),
        )
        .unwrap();
    debugger
        .handle(
            &mut adapter,
            &request(3, "setBreakpoints", breakpoints_at(Some("b.rs"), &[3])),
        )
        .unwrap();
    debugger
        .handle(&mut adapter, &request(4, "attach", attach_arguments(None)))
        .unwrap();
    adapter.take_outgoing();
    let asked = debugger.resume(
        &mut adapter,
        ProbeReply::Attached {
            debug_info: true,
            error: None,
        },
    );
    let place = |source: &str, line| Location {
        source: source.to_owned(),
        line,
        column: None,
    };
    assert_eq!(
        Ok(HandleResult::Probe(ProbeAction::Resolve {
            locations: vec![place("a.rs", 1), place("a.rs", 2), place("b.rs", 3)],
        })),
        asked
    );
    adapter.take_outgoing();
    let asked = debugger.resume(
        &mut adapter,
        ProbeReply::Resolved {
            addresses: vec![Some(0x10), None, Some(0x30)],
        },
    );
    assert_eq!(
        Ok(HandleResult::Probe(ProbeAction::Arm {
            addresses: vec![0x10, 0x30],
        })),
        asked
    );
    assert!(adapter.take_outgoing().is_empty());
    let next = debugger.resume(&mut adapter, ProbeReply::Done);
    assert_eq!(Ok(HandleResult::Continue), next);
    let changed = |seq, id, line| {
        event(
            seq,
            "breakpoint",
            EventBody::Breakpoint {
                reason: "changed".to_owned(),
                breakpoint: Breakpoint {
                    id: Some(id),
                    verified: true,
                    line: Some(line),
                    column: None,
                },
            },
        )
    };
    assert_eq!(
        vec![changed(6, 0, 1), changed(7, 3, 3)],
        adapter.take_outgoing()
    );
    let table: Vec<(u32, bool, Option<u64>)> = debugger
        .breakpoints()
        .iter()
        .map(|b| (b.id, b.verified, b.address))
        .collect();
    assert_eq!(
        vec![
            (0, true, Some(0x10)),
            (1, false, None),
            (2, false, None),
            (3, true, Some(0x30)),
        ],
        table
    );
}

#[test]
fn attach_without_debug_info_leaves_breakpoints_as_they_are() {
    let mut debugger = Debugger::new("/work");
    let mut adapter = DebugAdapter::new();
    debugger
        .handle(
            &mut adapter,
            &request(1, "setBreakpoints", breakpoints_at(Some("a.rs"), &[1])),
        )
        .unwrap();
    debugger
        .handle(&mut adapter, &request(2, "attach", attach_arguments(None)))
        .unwrap();
    let next = debugger.resume(
        &mut adapter,
        ProbeReply::Attached {
            debug_info: false,
            error: None,
        },
    );
    assert_eq!(Ok(HandleResult::Continue), next);
    assert!(!debugger.breakpoints()[0].verified);
}

#[test]
fn attach_with_wrong_arguments_is_refused() {
    let mut debugger = Debugger::new("/work");
    let mut adapter = DebugAdapter::new();
    for (seq, arguments, words) in [
        (1, Arguments::Missing, "Received an invalid requeset"),
        (
            2,
            Arguments::Malformed("missing field `chip`".to_owned()),
            "Serialiation error",
        ),
        (3, Arguments::Other, "Received an invalid requeset"),
    ] {
        let next = debugger.handle(&mut adapter, &request(seq, "attach", arguments));
        assert_eq!(Ok(HandleResult::Continue), next);
        assert_eq!(
            vec![failed(seq, seq, "attach", words)],
            adapter.take_outgoing()
        );
    }
}

#[test]
fn stack_trace_without_a_probe_or_debug_info_fails() {
    let mut debugger = Debugger::new("/work");
    let mut adapter = DebugAdapter::new();
    let next = debugger.handle(&mut adapter, &request(1, "stackTrace", Arguments::Other));
    assert_eq!(Ok(HandleResult::Continue), next);
    assert_eq!(
        vec![failed(
            1,
            1,
            "stackTrace",
            "Missing session for interaction with probe"
        )],
        adapter.take_outgoing()
    );

    let (mut debugger, mut adapter) = attached(false);
    let next = debugger.handle(&mut adapter, &request(2, "stackTrace", Arguments::Other));
    assert_eq!(Ok(HandleResult::Continue), next);
    assert_eq!(
        vec![failed(3, 2, "stackTrace", "No debug information found")],
        adapter.take_outgoing()
    );
}

#[test]
fn stack_trace_scopes_and_variables() {
    let (mut debugger, mut adapter) = attached(true);
    let asked = debugger.handle(&mut adapter, &request(2, "stackTrace", Arguments::Other));
    assert_eq!(Ok(HandleResult::Probe(ProbeAction::ReadProgramCounter)), asked);
    let asked = debugger.resume(&mut adapter, ProbeReply::ProgramCounter(0x0800_1234));
    assert_eq!(
        Ok(HandleResult::Probe(ProbeAction::Unwind { pc: 0x0800_1234 })),
        asked
    );
    let frames = vec![
        frame("inner", Some(12), Some(ColumnType::Column(5))),
        frame("main", None, Some(ColumnType::LeftEdge)),
        Frame {
            function_name: "reset".to_owned(),
            source_location: None,
            variables: vec![],
        },
    ];
    let next = debugger.resume(&mut adapter, ProbeReply::Frames(frames));
    assert_eq!(Ok(HandleResult::Continue), next);
    let source = Some(Source {
        name: Some("main.rs".to_owned()),
        path: Some("/work/src/main.rs".to_owned()),
    });
    let reported = |id, name: &str, source, line, column| StackFrame {
        id,
        name: name.to_owned(),
        source,
        line,
        column,
        presentation_hint: Some("normal".to_owned()),
    };
    assert_eq!(
        vec![ok(
            3,
            2,
            "stackTrace",
            Some(ResponseBody::StackTrace {
                stack_frames: vec![
                    reported(0, "inner", source.clone(), 12, 5),
                    reported(1, "main", source, 0, 0),
                    reported(2, "reset", None, 0, 0),
                ],
                total_frames: Some(3),
            })
        )],
        adapter.take_outgoing()
    );

    debugger
        .handle(&mut adapter, &request(3, "scopes", Arguments::Scopes { frame_id: 0 }))
        .unwrap();
    debugger
        .handle(&mut adapter, &request(4, "scopes", Arguments::Scopes { frame_id: 3 }))
        .unwrap();
    debugger
        .handle(&mut adapter, &request(5, "scopes", Arguments::Scopes { frame_id: -1 }))
        .unwrap();
    assert_eq!(
        vec![
            ok(
                4,
                3,
                "scopes",
                Some(ResponseBody::Scopes {
                    scopes: vec![Scope {
                        name: "Locals".to_owned(),
                        variables_reference: 0,
                        expensive: false,
                        source: Some(Source {
                            name: Some("main.rs".to_owned()),
                            path: Some("/work/src".to_owned()),
                        }),
                        line: Some(12),
                        column: Some(5),
                    }],
                })
            ),
            ok(5, 4, "scopes", Some(ResponseBody::Scopes { scopes: vec![] })),
            ok(6, 5, "scopes", Some(ResponseBody::Scopes { scopes: vec![] })),
        ],
        adapter.take_outgoing()
    );

    debugger
        .handle(
            &mut adapter,
            &request(
                6,
                "variables",
                Arguments::Variables {
                    variables_reference: 1,
                },
            ),
        )
        .unwrap();
    debugger
        .handle(
            &mut adapter,
            &request(
                7,
                "variables",
                Arguments::Variables {
                    variables_reference: 9,
                },
            ),
        )
        .unwrap();
    let variable = |name: &str, value: &str| Variable {
        name: name.to_owned(),
        value: value.to_owned(),
        variables_reference: -1,
    };
    assert_eq!(
        vec![
            ok(
                7,
                6,
                "variables",
                Some(ResponseBody::Variables {
                    variables: vec![variable("x", "42"), variable("y", "<unknown>")],
                })
            ),
            ok(
                8,
                7,
                "variables",
                Some(ResponseBody::Variables { variables: vec![] })
            ),
        ],
        adapter.take_outgoing()
    );
}

#[test]
fn frames_are_forgotten_once_the_target_runs() {
    for (command, action) in [("continue", ProbeAction::Run), ("next", ProbeAction::Step)] {
        let (mut debugger, mut adapter) = attached(true);
        debugger
            .handle(&mut adapter, &request(2, "stackTrace", Arguments::Other))
            .unwrap();
        debugger
            .resume(&mut adapter, ProbeReply::ProgramCounter(4))
            .unwrap();
        debugger
            .resume(
                &mut adapter,
                ProbeReply::Frames(vec![frame("main", Some(1), None)]),
            )
            .unwrap();
        let asked = debugger.handle(&mut adapter, &request(3, command, Arguments::Other));
        assert_eq!(Ok(HandleResult::Probe(action)), asked);
        debugger.resume(&mut adapter, ProbeReply::Done).unwrap();
        adapter.take_outgoing();
        debugger
            .handle(&mut adapter, &request(4, "scopes", Arguments::Scopes { frame_id: 0 }))
            .unwrap();
        match &adapter.take_outgoing()[0] {
            Outgoing::Response(response) => assert_eq!(
                Some(ResponseBody::Scopes { scopes: vec![] }),
                response.body
            ),
            other => panic!("no response: {:?}", other),
        }
    }
}

#[test]
fn continue_and_next_need_a_probe() {
    for command in ["continue", "next"] {
        let mut debugger = Debugger::new("/work");
        let mut adapter = DebugAdapter::new();
        let next = debugger.handle(&mut adapter, &request(1, command, Arguments::Other));
        assert_eq!(Ok(HandleResult::Continue), next);
        assert_eq!(
            vec![failed(
                1,
                1,
                command,
                "Missing session for interaction with probe"
            )],
            adapter.take_outgoing()
        );
    }
}

#[test]
fn continue_with_a_probe() {
    let (mut debugger, mut adapter) = attached(false);
    let asked = debugger.handle(&mut adapter, &request(2, "continue", Arguments::Other));
    assert_eq!(Ok(HandleResult::Probe(ProbeAction::Run)), asked);
    assert!(adapter.take_outgoing().is_empty());
    let next = debugger.resume(&mut adapter, ProbeReply::Done);
    assert_eq!(Ok(HandleResult::Continue), next);
    assert_eq!(
        vec![ok(
            3,
            2,
            "continue",
            Some(ResponseBody::Continue {
                all_threads_continued: Some(true),
            })
        )],
        adapter.take_outgoing()
    );

    debugger
        .handle(&mut adapter, &request(3, "continue", Arguments::Other))
        .unwrap();
    let next = debugger.resume(&mut adapter, ProbeReply::Failed("core locked".to_owned()));
    assert_eq!(Ok(HandleResult::Continue), next);
    assert_eq!(
        vec![failed(4, 3, "continue", "Error in interaction with probe")],
        adapter.take_outgoing()
    );
}

#[test]
fn next_with_a_probe() {
    let (mut debugger, mut adapter) = attached(false);
    let asked = debugger.handle(&mut adapter, &request(2, "next", Arguments::Other));
    assert_eq!(Ok(HandleResult::Probe(ProbeAction::Step)), asked);
    let next = debugger.resume(&mut adapter, ProbeReply::Done);
    assert_eq!(Ok(HandleResult::Continue), next);
    assert_eq!(
        vec![
            ok(3, 2, "next", None),
            event(
                4,
                "stopped",
                EventBody::Stopped {
                    reason: "step".to_owned(),
                    description: Some("Target paused after step.".to_owned()),
                    thread_id: Some(0),
                }
            ),
        ],
        adapter.take_outgoing()
    );
}

#[test]
fn pause_answers_before_the_target_halts() {
    let stopped = |seq| {
        event(
            seq,
            "stopped",
            EventBody::Stopped {
                reason: "pause".to_owned(),
                description: Some("Target paused due to pause request.".to_owned()),
                thread_id: Some(0),
            },
        )
    };
    let (mut debugger, mut adapter) = attached(false);
    let asked = debugger.handle(&mut adapter, &request(2, "pause", Arguments::Other));
    assert_eq!(Ok(HandleResult::Probe(ProbeAction::Halt)), asked);
    assert_eq!(vec![ok(3, 2, "pause", None)], adapter.take_outgoing());
    let next = debugger.resume(&mut adapter, ProbeReply::Done);
    assert_eq!(Ok(HandleResult::Continue), next);
    assert_eq!(vec![stopped(4)], adapter.take_outgoing());

    debugger
        .handle(&mut adapter, &request(3, "pause", Arguments::Other))
        .unwrap();
    adapter.take_outgoing();
    let next = debugger.resume(&mut adapter, ProbeReply::Failed("timeout".to_owned()));
    assert_eq!(Ok(HandleResult::Continue), next);
    assert!(adapter.take_outgoing().is_empty());

    let mut debugger = Debugger::new("/work");
    let mut adapter = DebugAdapter::new();
    let next = debugger.handle(&mut adapter, &request(1, "pause", Arguments::Other));
    assert_eq!(Ok(HandleResult::Continue), next);
    assert_eq!(
        vec![ok(1, 1, "pause", None), stopped(2)],
        adapter.take_outgoing()
    );
}

#[test]
fn configuration_done_resets_where_it_was_asked_to() {
    for (reset, halt_after_reset, actions) in [
        (None, None, vec![]),
        (Some(false), Some(false), vec![]),
        (Some(true), None, vec![ProbeAction::ResetAndHalt]),
        (Some(true), Some(true), vec![ProbeAction::ResetAndHalt]),
        (
            Some(true),
            Some(false),
            vec![ProbeAction::ResetAndHalt, ProbeAction::Run],
        ),
    ] {
        let mut debugger = Debugger::new("/work");
        let mut adapter = DebugAdapter::new();
        let arguments = Arguments::Attach(AttachRequestArguments {
            program: "app.elf".to_owned(),
            chip: "nrf52".to_owned(),
            cwd: None,
            reset,
            halt_after_reset,
        });
        debugger
            .handle(&mut adapter, &request(1, "attach", arguments))
            .unwrap();
        debugger
            .resume(
                &mut adapter,
                ProbeReply::Attached {
                    debug_info: false,
                    error: None,
                },
            )
            .unwrap();
        adapter.take_outgoing();
        let mut next = debugger.handle(
            &mut adapter,
            &request(2, "configurationDone", Arguments::Missing),
        );
        let mut asked = vec![];
        while let Ok(HandleResult::Probe(action)) = next {
            asked.push(action);
            assert!(adapter.take_outgoing().is_empty());
            next = debugger.resume(&mut adapter, ProbeReply::Done);
        }
        assert_eq!(Ok(HandleResult::Continue), next);
        assert_eq!(actions, asked);
        assert_eq!(
            vec![ok(3, 2, "configurationDone", None)],
            adapter.take_outgoing()
        );
    }
}

#[test]
fn configuration_done_without_a_probe_succeeds() {
    let mut debugger = Debugger::new("/work");
    let mut adapter = DebugAdapter::new();
    let next = debugger.handle(
        &mut adapter,
        &request(1, "configurationDone", Arguments::Missing),
    );
    assert_eq!(Ok(HandleResult::Continue), next);
    assert_eq!(
        vec![ok(1, 1, "configurationDone", None)],
        adapter.take_outgoing()
    );
}

#[test]
fn source_is_read_relative_to_the_location() {
    let mut debugger = Debugger::new("/work");
    let mut adapter = DebugAdapter::new();
    let asked = debugger.handle(
        &mut adapter,
        &request(
            1,
            "source",
            Arguments::Source {
                path: Some("src/main.rs".to_owned()),
            },
        ),
    );
    assert_eq!(
        Ok(HandleResult::Probe(ProbeAction::ReadSource {
            path: "/work/src/main.rs".to_owned(),
        })),
        asked
    );
    debugger
        .resume(&mut adapter, ProbeReply::Content("fn main() {}\n".to_owned()))
        .unwrap();
    debugger
        .handle(
            &mut adapter,
            &request(
                2,
                "source",
                Arguments::Source {
                    path: Some("/etc/motd".to_owned()),
                },
            ),
        )
        .unwrap();
    debugger
        .resume(&mut adapter, ProbeReply::Failed("permission denied".to_owned()))
        .unwrap();
    debugger
        .handle(
            &mut adapter,
            &request(3, "source", Arguments::Source { path: None }),
        )
        .unwrap();
    assert_eq!(
        vec![
            ok(
                1,
                1,
                "source",
                Some(ResponseBody::Source {
                    content: "fn main() {}\n".to_owned(),
                })
            ),
            failed(
                2,
                2,
                "source",
                "Unable to open resource: permission denied"
            ),
            failed(3, 3, "source", "Unable to open resource"),
        ],
        adapter.take_outgoing()
    );
}

#[test]
fn launch_is_not_supported() {
    let mut debugger = Debugger::new("/work");
    let mut adapter = DebugAdapter::new();
    let next = debugger.handle(&mut adapter, &request(1, "launch", Arguments::Other));
    assert_eq!(Ok(HandleResult::Continue), next);
    assert_eq!(
        vec![failed(
            1,
            1,
            "launch",
            "Launching a program is not yet supported."
        )],
        adapter.take_outgoing()
    );
}

#[test]
fn unsupported_command_fails_and_tells_the_console() {
    let mut debugger = Debugger::new("/work");
    let mut adapter = DebugAdapter::new();
    let next = debugger.handle(&mut adapter, &request(8, "evaluate", Arguments::Other));
    assert_eq!(Ok(HandleResult::Continue), next);
    assert_eq!(
        vec![
            failed(1, 8, "evaluate", "Request not implemented"),
            event(
                2,
                "output",
                EventBody::Output {
                    output: "Received unsupported request 'evaluate'\n".to_owned(),
                    category: Some("console".to_owned()),
                }
            ),
        ],
        adapter.take_outgoing()
    );
}

#[test]
fn missing_arguments_fail_the_request_only() {
    let mut debugger = Debugger::new("/work");
    let mut adapter = DebugAdapter::new();
    let mut seq = 0;
    for command in [
        "launch",
        "attach",
        "disconnect",
        "setBreakpoints",
        "setExceptionBreakpoints",
        "pause",
        "stackTrace",
        "scopes",
        "source",
        "variables",
        "continue",
        "next",
    ] {
        seq += 1;
        let next = debugger.handle(&mut adapter, &request(seq, command, Arguments::Missing));
        assert_eq!(Ok(HandleResult::Continue), next);
        assert_eq!(
            vec![failed(seq, seq, command, "Received an invalid requeset")],
            adapter.take_outgoing()
        );
    }
}

#[test]
fn exception_breakpoints_are_acknowledged() {
    let mut debugger = Debugger::new("/work");
    let mut adapter = DebugAdapter::new();
    let next = debugger.handle(
        &mut adapter,
        &request(1, "setExceptionBreakpoints", Arguments::Other),
    );
    assert_eq!(Ok(HandleResult::Continue), next);
    assert_eq!(
        vec![ok(1, 1, "setExceptionBreakpoints", None)],
        adapter.take_outgoing()
    );
}

#[test]
fn disconnect_stops() {
    let mut debugger = Debugger::new("/work");
    let mut adapter = DebugAdapter::new();
    let next = debugger.handle(&mut adapter, &request(1, "disconnect", Arguments::Other));
    assert_eq!(Ok(HandleResult::Stop), next);
    assert_eq!(vec![ok(1, 1, "disconnect", None)], adapter.take_outgoing());
}

#[test]
fn a_request_takes_the_place_of_what_the_session_waited_for() {
    let (mut debugger, mut adapter) = attached(false);
    let asked = debugger.handle(&mut adapter, &request(2, "continue", Arguments::Other));
    assert_eq!(Ok(HandleResult::Probe(ProbeAction::Run)), asked);
    let next = debugger.handle(&mut adapter, &request(3, "threads", Arguments::Other));
    assert_eq!(Ok(HandleResult::Continue), next);
    assert_eq!(
        vec![ok(
            3,
            3,
            "threads",
            Some(ResponseBody::Threads {
                threads: vec![Thread {
                    id: 0,
                    name: "Main Thread".to_owned(),
                }],
            })
        )],
        adapter.take_outgoing()
    );
    let next = debugger.resume(&mut adapter, ProbeReply::Done);
    assert_eq!(Err(Error::InvalidRequest), next);
    assert!(adapter.take_outgoing().is_empty());
}

#[test]
fn disconnect_stops_also_while_the_probe_works() {
    let (mut debugger, mut adapter) = attached(false);
    debugger
        .handle(&mut adapter, &request(2, "next", Arguments::Other))
        .unwrap();
    let next = debugger.handle(&mut adapter, &request(3, "disconnect", Arguments::Other));
    assert_eq!(Ok(HandleResult::Stop), next);
    assert_eq!(vec![ok(3, 3, "disconnect", None)], adapter.take_outgoing());
}

#[test]
fn a_reply_that_nothing_waits_for_is_refused() {
    let (mut debugger, mut adapter) = attached(false);
    let next = debugger.resume(&mut adapter, ProbeReply::Done);
    assert_eq!(Err(Error::InvalidRequest), next);
    assert!(adapter.take_outgoing().is_empty());
    assert!(debugger.is_attached());
}

#[test]
fn breakpoint_event_of_a_breakpoint() {
    let info = BreakpointInfo {
        id: 7,
        verified: true,
        info: SourceBreakpoint {
            line: 33,
            column: Some(2),
        },
        source: Some("a.rs".to_owned()),
        address: Some(0x20),
    };
    assert_eq!(
        probe_rs_debugadapter::debug_adapter::Event::Breakpoint {
            reason: "changed".to_owned(),
            breakpoint: Breakpoint {
                id: Some(7),
                verified: true,
                line: Some(33),
                column: Some(2),
            },
        },
        info.get_event_body()
    );
}
