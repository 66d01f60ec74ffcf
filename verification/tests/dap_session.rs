use debugger_sh::dap::adapter::{classify_worker_message, WorkerEvent};
use debugger_sh::dap::json::Json;
use debugger_sh::dap::protocol::respond;
use debugger_sh::dap::session::{classify_command, BackendCall, CommandKind, DapSession, Dispatch};
use debugger_sh::dap::types::{i64_arg, requested_range, Body, ProtocolMessage};

fn obj(members: Vec<(&str, Json)>) -> Json {
    Json::Object(members.into_iter().map(|(k, v)| (k.to_string(), v)).collect())
}

fn reply(d: Dispatch) -> (ProtocolMessage, Option<ProtocolMessage>) {
    match d {
        Dispatch::Reply { response, initialized } => (response, initialized),
        Dispatch::Call { .. } => panic!("expected a reply"),
    }
}

fn response_parts(m: &ProtocolMessage) -> (i64, i64, bool, String, Option<String>) {
    match m {
        ProtocolMessage::Response { seq, request_seq, success, command, message, .. } => {
            (*seq, *request_seq, *success, command.clone(), message.clone())
        }
        _ => panic!("expected a response"),
    }
}

#[test]
fn classify_known_and_unknown_commands() {
    assert_eq!(classify_command("initialize"), CommandKind::Initialize);
    assert_eq!(classify_command("configurationDone"), CommandKind::ConfigurationDone);
    assert_eq!(classify_command("stepOut"), CommandKind::StepOut);
    assert_eq!(classify_command("disconnect"), CommandKind::Disconnect);
    assert_eq!(classify_command("Initialize"), CommandKind::Unknown);
    assert_eq!(classify_command(""), CommandKind::Unknown);
}

#[test]
fn respond_success_and_failure() {
    let ok = respond(7, 3, "threads", Ok(None));
    assert_eq!(response_parts(&ok), (7, 3, true, "threads".to_string(), None));
    let err = respond(8, 4, "scopes", Err("boom".to_string()));
    assert_eq!(response_parts(&err), (8, 4, false, "scopes".to_string(), Some("boom".to_string())));
    match err {
        ProtocolMessage::Response { body, .. } => assert!(body.is_none()),
        _ => panic!(),
    }
}

#[test]
fn configuration_done_before_attach_is_refused() {
    let mut s: DapSession<u8> = DapSession::new();
    let (resp, init) = reply(s.process_request(1, "configurationDone", &Json::Null));
    assert!(init.is_none());
    assert_eq!(
        response_parts(&resp),
        (1, 1, false, "configurationDone".to_string(), Some("configurationDone: debugger not ready".to_string()))
    );
}

#[test]
fn backend_commands_without_debugger_fail() {
    let mut s: DapSession<u8> = DapSession::new();
    let (resp, _) = reply(s.process_request(5, "stackTrace", &Json::Null));
    assert_eq!(
        response_parts(&resp),
        (1, 5, false, "stackTrace".to_string(), Some("No debugger attached".to_string()))
    );
}

#[test]
fn initialize_answers_capabilities() {
    let mut s: DapSession<u8> = DapSession::new();
    let (resp, init) = reply(s.process_request(1, "initialize", &Json::Null));
    assert!(init.is_none());
    match resp {
        ProtocolMessage::Response { seq, success, body, .. } => {
            assert_eq!(seq, 1);
            assert!(success);
            match body {
                Some(Body::Capabilities {
                    supports_configuration_done_request,
                    supports_step_back,
                    supports_function_breakpoints,
                }) => {
                    assert!(supports_configuration_done_request);
                    assert!(!supports_step_back);
                    assert!(!supports_function_breakpoints);
                }
                _ => panic!("expected capabilities"),
            }
        }
        _ => panic!(),
    }
}

#[test]
fn initialized_follows_initialize_when_attached_first() {
    let mut s: DapSession<u8> = DapSession::new();
    s.set_debugger(1);
    let (resp, init) = reply(s.process_request(1, "initialize", &Json::Null));
    assert_eq!(response_parts(&resp).0, 1);
    match init {
        Some(ProtocolMessage::Event { seq, event, body }) => {
            assert_eq!(seq, 2);
            assert_eq!(event, "initialized");
            assert!(body.is_none());
        }
        _ => panic!("expected the initialized event"),
    }
    assert!(s.try_emit_initialized().is_none());
}

#[test]
fn initialized_sent_once_when_attached_later() {
    let mut s: DapSession<u8> = DapSession::new();
    let (_, init) = reply(s.process_request(1, "initialize", &Json::Null));
    assert!(init.is_none());
    assert!(s.try_emit_initialized().is_none());
    s.set_debugger(9);
    match s.try_emit_initialized() {
        Some(ProtocolMessage::Event { seq, event, .. }) => {
            assert_eq!(seq, 2);
            assert_eq!(event, "initialized");
        }
        _ => panic!("expected the initialized event"),
    }
    assert!(s.try_emit_initialized().is_none());
    s.reset_run();
    assert!(s.debugger_mut().is_none());
    s.set_debugger(10);
    match s.try_emit_initialized() {
        Some(ProtocolMessage::Event { seq, .. }) => assert_eq!(seq, 3),
        _ => panic!("a new run sends initialized again"),
    }
}

#[test]
fn sequence_numbers_increase_by_one() {
    let mut s: DapSession<u8> = DapSession::new();
    let a = s.emit_event("output", None);
    let b = s.emit_terminated();
    let c = s.emit_stopped(Body::Stopped { reason: "step".to_string(), thread_id: 1, all_threads_stopped: true });
    let seqs: Vec<i64> = [a, b, c]
        .iter()
        .map(|m| match m {
            ProtocolMessage::Event { seq, .. } => *seq,
            _ => panic!(),
        })
        .collect();
    assert_eq!(seqs, vec![1, 2, 3]);
}

#[test]
fn terminated_event_body() {
    let mut s: DapSession<u8> = DapSession::new();
    match s.emit_terminated() {
        ProtocolMessage::Event { event, body: Some(Body::Terminated { restart }), .. } => {
            assert_eq!(event, "terminated");
            assert!(!restart);
        }
        _ => panic!(),
    }
}

#[test]
fn threads_is_single_main_thread() {
    let mut s: DapSession<u8> = DapSession::new();
    let (resp, _) = reply(s.process_request(4, "threads", &Json::Null));
    match resp {
        ProtocolMessage::Response { success: true, body: Some(Body::Threads(ts)), .. } => {
            assert_eq!(ts.len(), 1);
            assert_eq!(ts[0].id, 1);
            assert_eq!(ts[0].name, "main");
        }
        _ => panic!(),
    }
}

#[test]
fn exception_and_function_breakpoints_are_empty() {
    let mut s: DapSession<u8> = DapSession::new();
    for cmd in ["setExceptionBreakpoints", "setFunctionBreakpoints"] {
        let (resp, _) = reply(s.process_request(2, cmd, &Json::Null));
        match resp {
            ProtocolMessage::Response { success: true, body: Some(Body::Breakpoints(b)), .. } => {
                assert!(b.is_empty())
            }
            _ => panic!(),
        }
    }
}

#[test]
fn unknown_command_is_reported() {
    let mut s: DapSession<u8> = DapSession::new();
    let (resp, _) = reply(s.process_request(3, "evaluate", &Json::Null));
    assert_eq!(
        response_parts(&resp),
        (1, 3, false, "evaluate".to_string(), Some("Unknown command: evaluate".to_string()))
    );
}

#[test]
fn disconnect_succeeds_without_body() {
    let mut s: DapSession<u8> = DapSession::new();
    let (resp, _) = reply(s.process_request(3, "disconnect", &Json::Null));
    match resp {
        ProtocolMessage::Response { success: true, body: None, .. } => {}
        _ => panic!(),
    }
}

#[test]
fn set_breakpoints_goes_to_backend_with_lines() {
    let mut s: DapSession<u8> = DapSession::new();
    s.set_debugger(0);
    let args = obj(vec![
        ("source", obj(vec![("path", Json::Str("/main.c".to_string()))])),
        (
            "breakpoints",
            Json::Array(vec![obj(vec![("line", Json::Int(5))]), obj(vec![("line", Json::Int(9))])]),
        ),
    ]);
    match s.process_request(11, "setBreakpoints", &args) {
        Dispatch::Call { pending, call: BackendCall::SetBreakpoints { source, lines } } => {
            assert_eq!(source, "/main.c");
            assert_eq!(lines, vec![5, 9]);
            assert_eq!(pending.request_seq, 11);
            assert_eq!(pending.response_seq, 1);
            assert_eq!(pending.command, "setBreakpoints");
            let done = pending.complete(Ok(None));
            assert_eq!(response_parts(&done), (1, 11, true, "setBreakpoints".to_string(), None));
        }
        other => panic!("unexpected {:?}", other),
    }
}

#[test]
fn resume_commands_go_to_backend() {
    let mut s: DapSession<u8> = DapSession::new();
    s.set_debugger(0);
    let expect = [
        ("configurationDone", "ConfigurationDone"),
        ("continue", "Continue"),
        ("next", "Next"),
        ("stepIn", "StepIn"),
        ("stepOut", "StepOut"),
        ("stackTrace", "StackTrace"),
        ("scopes", "Scopes"),
        ("variables", "Variables"),
    ];
    for (i, (cmd, call)) in expect.iter().enumerate() {
        match s.process_request(i as i64, cmd, &Json::Null) {
            Dispatch::Call { pending, call: c } => {
                assert_eq!(format!("{:?}", c), *call);
                assert_eq!(pending.response_seq, i as i64 + 1);
            }
            other => panic!("unexpected {:?}", other),
        }
    }
}

#[test]
fn handle_message_ignores_non_requests() {
    let mut s: DapSession<u8> = DapSession::new();
    let ev = ProtocolMessage::Event { seq: 1, event: "x".to_string(), body: None };
    assert!(s.handle_message(&ev).is_none());
    let req = ProtocolMessage::Request { seq: 1, command: "threads".to_string(), arguments: None };
    assert!(s.handle_message(&req).is_some());
}

#[test]
fn requested_range_windows() {
    let none = Json::Null;
    assert_eq!(requested_range(&none, 5), 0..5);
    let w = obj(vec![("start", Json::Int(1)), ("count", Json::Int(2))]);
    assert_eq!(requested_range(&w, 5), 1..3);
    let past = obj(vec![("start", Json::Int(10)), ("count", Json::Int(2))]);
    assert_eq!(requested_range(&past, 5), 5..5);
    let long = obj(vec![("start", Json::Int(3)), ("count", Json::BigUInt(u64::MAX))]);
    assert_eq!(requested_range(&long, 5), 3..5);
    let negative = obj(vec![("start", Json::Int(-1))]);
    assert_eq!(requested_range(&negative, 5), 0..5);
}

#[test]
fn i64_arg_defaults_to_zero() {
    let a = obj(vec![("frameId", Json::Int(4)), ("bad", Json::Str("x".to_string()))]);
    assert_eq!(i64_arg(&a, "frameId"), 4);
    assert_eq!(i64_arg(&a, "bad"), 0);
    assert_eq!(i64_arg(&a, "missing"), 0);
    assert_eq!(i64_arg(&Json::Null, "frameId"), 0);
}

#[test]
fn worker_messages_are_classified() {
    assert_eq!(classify_worker_message("debug"), WorkerEvent::Debug);
    assert_eq!(classify_worker_message("python_debug"), WorkerEvent::PythonDebug);
    assert_eq!(classify_worker_message("paused"), WorkerEvent::Paused);
    assert_eq!(classify_worker_message("stop"), WorkerEvent::Stop);
    assert_eq!(classify_worker_message("ready"), WorkerEvent::Other);
    assert_eq!(classify_worker_message(""), WorkerEvent::Other);
}

#[test]
fn session_sequence_number_is_readable() {
    let mut s: DapSession<u8> = DapSession::new();
    assert_eq!(s.last_seq_number(), 0);
    s.emit_terminated();
    assert_eq!(s.last_seq_number(), 1);
}

#[test]
fn handle_message_passes_arguments() {
    let mut s: DapSession<u8> = DapSession::new();
    s.set_debugger(3);
    let args = obj(vec![
        ("source", obj(vec![("path", Json::Str("/main.py".to_string()))])),
        ("breakpoints", Json::Array(vec![obj(vec![("line", Json::Int(4))]), obj(vec![("column", Json::Int(2))])])),
    ]);
    let req = ProtocolMessage::Request { seq: 6, command: "setBreakpoints".to_string(), arguments: Some(args) };
    match s.handle_message(&req) {
        Some(Dispatch::Call { pending, call: BackendCall::SetBreakpoints { source, lines } }) => {
            assert_eq!(source, "/main.py");
            assert_eq!(lines, vec![4]);
            assert_eq!(pending.request_seq, 6);
        }
        other => panic!("unexpected {:?}", other),
    }
    let bare = ProtocolMessage::Request { seq: 7, command: "setBreakpoints".to_string(), arguments: None };
    match s.handle_message(&bare) {
        Some(Dispatch::Call { call: BackendCall::SetBreakpoints { source, lines }, .. }) => {
            assert_eq!(source, "");
            assert!(lines.is_empty());
        }
        other => panic!("unexpected {:?}", other),
    }
}
