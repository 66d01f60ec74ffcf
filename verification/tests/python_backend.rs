use debugger_sh::dap::json::Json;
use debugger_sh::dap::types::{Body, PauseReason};
use debugger_sh::python::dap::adapter::PythonBackend;
use debugger_sh::python::dap::vars::{duplicate_vars, PythonVar, PythonVars};
use debugger_sh::python::debug::{
    check_request_len, Debugger, PauseInfo, StackFrame, PYTHON_CMD_CONTINUE, PYTHON_CMD_STEP_INTO,
    PYTHON_CMD_STEP_OUT, PYTHON_CMD_STEP_OVER, PYTHON_RESPONSE_MAX,
};
use debugger_sh::python::worker::debuggee::{pause_reason, PendingResponse, READ_READY_DEFAULT};

fn leaf(name: &str, value: &str) -> PythonVar {
    PythonVar { name: name.to_string(), value: value.to_string(), children: Vec::new(), indexed: false }
}

fn list(name: &str, items: Vec<PythonVar>) -> PythonVar {
    let value = format!("list[{}]", items.len());
    PythonVar { name: name.to_string(), value, children: items, indexed: true }
}

fn frame(file: &str, line: i64, function: &str, user: bool, locals: Vec<PythonVar>) -> StackFrame {
    StackFrame { file: file.to_string(), line, function: function.to_string(), user, locals }
}

fn paused_backend(filter_internals: bool) -> PythonBackend {
    let mut b = PythonBackend::new(Debugger::new(), filter_internals);
    let pause = PauseInfo {
        reason: "breakpoint".to_string(),
        frames: vec![
            frame("/_bridge.py", 40, "<module>", false, Vec::new()),
            frame(
                "/main.py",
                3,
                "main",
                true,
                vec![
                    leaf("__name__", "'__main__'"),
                    leaf("x", "1"),
                    leaf("__", "2"),
                    list("xs", vec![leaf("[0]", "10"), leaf("[1]", "20")]),
                    leaf("__builtins__", "<module 'builtins'>"),
                ],
            ),
            frame("/main.py", 7, "__main__", true, Vec::new()),
        ],
    };
    b.handle_paused(pause);
    b
}

fn obj(members: Vec<(&str, Json)>) -> Json {
    Json::Object(members.into_iter().map(|(k, v)| (k.to_string(), v)).collect())
}

#[test]
fn pause_reason_from_report() {
    assert_eq!(pause_reason(Some("breakpoint")), PauseReason::Breakpoint);
    assert_eq!(pause_reason(Some("step")), PauseReason::Step);
    assert_eq!(pause_reason(Some("exception")), PauseReason::Step);
    assert_eq!(pause_reason(None), PauseReason::Step);
}

#[test]
fn handle_paused_reports_breakpoint_or_step() {
    let mut b = PythonBackend::new(Debugger::new(), false);
    let body = b.handle_paused(PauseInfo { reason: "breakpoint".to_string(), frames: Vec::new() });
    match body {
        Body::Stopped { reason, thread_id, all_threads_stopped } => {
            assert_eq!(reason, "breakpoint");
            assert_eq!(thread_id, 1);
            assert!(all_threads_stopped);
        }
        _ => panic!(),
    }
    let body = b.handle_paused(PauseInfo { reason: "line".to_string(), frames: Vec::new() });
    match body {
        Body::Stopped { reason, .. } => assert_eq!(reason, "step"),
        _ => panic!(),
    }
}

#[test]
fn stack_trace_before_pause_fails() {
    let b = PythonBackend::new(Debugger::new(), false);
    assert_eq!(b.stack_trace().unwrap_err(), "No Python frames");
}

#[test]
fn stack_trace_marks_internal_frames_subtle() {
    let b = paused_backend(false);
    match b.stack_trace().unwrap() {
        Body::StackTrace { stack_frames, total_frames } => {
            assert_eq!(total_frames, 3);
            let hints: Vec<_> =
                stack_frames.iter().map(|f| f.presentation_hint.clone().unwrap()).collect();
            assert_eq!(hints, vec!["subtle", "normal", "normal"]);
            let ids: Vec<_> = stack_frames.iter().map(|f| f.id).collect();
            assert_eq!(ids, vec![0, 1, 2]);
            assert_eq!(stack_frames[1].name, "main");
            assert_eq!(stack_frames[1].line, 3);
            assert_eq!(stack_frames[1].column, 0);
            assert_eq!(stack_frames[1].source.as_deref(), Some("/main.py"));
        }
        _ => panic!(),
    }
}

#[test]
fn stack_trace_filters_internal_frames() {
    let b = paused_backend(true);
    match b.stack_trace().unwrap() {
        Body::StackTrace { stack_frames, total_frames } => {
            assert_eq!(total_frames, 2);
            let ids: Vec<_> = stack_frames.iter().map(|f| f.id).collect();
            assert_eq!(ids, vec![1, 2]);
            assert!(stack_frames.iter().all(|f| f.presentation_hint.as_deref() == Some("normal")));
        }
        _ => panic!(),
    }
}

#[test]
fn scopes_and_variables_walk_the_tree() {
    let mut b = paused_backend(false);
    let mut vars = PythonVars::new();
    let scopes = b.scopes(&obj(vec![("frameId", Json::Int(1))]), &mut vars).unwrap();
    let locals_ref = match scopes {
        Body::Scopes(s) => {
            assert_eq!(s.len(), 1);
            assert_eq!(s[0].name, "Locals");
            assert_eq!(s[0].named_variables, 3);
            assert!(!s[0].expensive);
            s[0].variables_reference
        }
        _ => panic!(),
    };
    assert_eq!(locals_ref, 1);
    let body = b.variables(&obj(vec![("variablesReference", Json::Int(locals_ref))]), &mut vars).unwrap();
    let xs_ref = match body {
        Body::Variables(v) => {
            let names: Vec<&str> = v.iter().map(|x| x.name.as_str()).collect();
            assert_eq!(names, vec!["x", "__", "xs"]);
            assert_eq!(v[0].value, "1");
            assert_eq!(v[0].variables_reference, 0);
            assert_eq!(v[0].indexed_variables, None);
            assert_eq!(v[2].value, "list[2]");
            assert_eq!(v[2].indexed_variables, Some(2));
            assert_eq!(v[2].named_variables, None);
            v[2].variables_reference
        }
        _ => panic!(),
    };
    assert_eq!(xs_ref, 2);
    let window = obj(vec![
        ("variablesReference", Json::Int(xs_ref)),
        ("start", Json::Int(1)),
        ("count", Json::Int(5)),
    ]);
    match b.variables(&window, &mut vars).unwrap() {
        Body::Variables(v) => {
            assert_eq!(v.len(), 1);
            assert_eq!(v[0].name, "[1]");
            assert_eq!(v[0].value, "20");
        }
        _ => panic!(),
    }
}

#[test]
fn scopes_with_bad_frame_fails() {
    let mut b = paused_backend(false);
    let mut vars = PythonVars::new();
    let err = b.scopes(&obj(vec![("frameId", Json::Int(7))]), &mut vars).unwrap_err();
    assert_eq!(err, "Invalid frame id");
    assert!(vars.get(1).is_none());
}

#[test]
fn variables_with_unknown_reference_fails() {
    let mut b = paused_backend(false);
    let mut vars = PythonVars::new();
    let err = b.variables(&obj(vec![("variablesReference", Json::Int(3))]), &mut vars).unwrap_err();
    assert_eq!(err, "Unknown variablesReference");
}

#[test]
fn handles_resolve_until_cleared() {
    let mut vars = PythonVars::new();
    let a = vars.allocate(vec![leaf("a", "1")]);
    let b = vars.allocate(vec![leaf("b", "2"), leaf("c", "3")]);
    assert_eq!((a, b), (1, 2));
    assert_eq!(vars.get(1).unwrap()[0].name, "a");
    assert_eq!(vars.get(2).unwrap().len(), 2);
    assert!(vars.get(3).is_none());
    vars.clear();
    assert!(vars.get(1).is_none());
    assert_eq!(vars.allocate(Vec::new()), 1);
}

#[test]
fn to_dap_leaf_and_named_container() {
    let mut vars = PythonVars::default();
    let l = vars.to_dap(&leaf("n", "None"));
    assert_eq!(l.variables_reference, 0);
    assert!(vars.get(1).is_none());
    let d = PythonVar {
        name: "d".to_string(),
        value: "dict[1]".to_string(),
        children: vec![leaf("'k'", "1")],
        indexed: false,
    };
    let info = vars.to_dap(&d);
    assert_eq!(info.variables_reference, 1);
    assert_eq!(info.named_variables, Some(1));
    assert_eq!(info.indexed_variables, None);
    assert_eq!(vars.get(1).unwrap()[0].name, "'k'");
}

#[test]
fn duplicate_copies_subtrees() {
    let v = vec![list("xs", vec![leaf("[0]", "1")])];
    let c = duplicate_vars(&v);
    assert_eq!(c.len(), 1);
    assert_eq!(c[0].children[0].value, "1");
    assert!(c[0].indexed);
}

#[test]
fn breakpoints_replace_per_source() {
    let mut b = PythonBackend::new(Debugger::new(), false);
    match b.set_breakpoints("/main.py", &[3, 5]) {
        Body::Breakpoints(bps) => {
            assert_eq!(bps.len(), 2);
            assert!(bps.iter().all(|bp| bp.verified));
            assert_eq!(bps[1].line, Some(5));
        }
        _ => panic!(),
    }
    b.set_breakpoints("/other.py", &[1]);
    b.set_breakpoints("/main.py", &[8]);
    let r = b.continue_();
    assert_eq!(r.command.cmd, PYTHON_CMD_CONTINUE);
    assert_eq!(r.command.breakpoints.len(), 2);
    assert_eq!(r.command.breakpoints[0], ("/main.py".to_string(), vec![8]));
    assert_eq!(r.command.breakpoints[1], ("/other.py".to_string(), vec![1]));
    match r.body {
        Some(Body::Continued { all_threads_continued }) => assert!(all_threads_continued),
        _ => panic!(),
    }
}

#[test]
fn resume_commands_carry_their_numbers() {
    let mut b = PythonBackend::new(Debugger::new(), false);
    assert!(b.configuration_done().body.is_none());
    assert_eq!(b.configuration_done().command.cmd, PYTHON_CMD_CONTINUE);
    assert_eq!(b.next().command.cmd, PYTHON_CMD_STEP_OVER);
    assert_eq!(b.step_in().command.cmd, PYTHON_CMD_STEP_INTO);
    assert_eq!(b.step_out().command.cmd, PYTHON_CMD_STEP_OUT);
    assert!(matches!(b.next().body, Some(Body::Empty)));
    assert_eq!((PYTHON_CMD_STEP_OVER, PYTHON_CMD_STEP_INTO, PYTHON_CMD_STEP_OUT), (1, 2, 3));
}

#[test]
fn debugger_locals_errors() {
    let mut d = Debugger::new();
    assert_eq!(d.locals(0).unwrap_err(), "No Python frames");
    let r = d.on_pause(PauseInfo { reason: "breakpoint".to_string(), frames: vec![frame("/main.py", 1, "f", true, vec![leaf("a", "1")])] });
    assert_eq!(r, "breakpoint");
    assert_eq!(d.locals(0).unwrap().len(), 1);
    assert_eq!(d.locals(1).unwrap_err(), "Invalid frame id");
    assert_eq!(d.backtrace().unwrap().len(), 1);
}

#[test]
fn request_length_limit() {
    assert_eq!(PYTHON_RESPONSE_MAX, 4084);
    assert!(check_request_len(0).is_ok());
    assert!(check_request_len(4084).is_ok());
    assert_eq!(
        check_request_len(4085).unwrap_err(),
        "Python debug request exceeds SAB (4085 bytes, max 4084)"
    );
}

#[test]
fn pending_response_reads_in_chunks() {
    let mut p = PendingResponse::new(None);
    assert_eq!(p.ready_len(), READ_READY_DEFAULT);
    assert!(p.read(4).is_empty());
    p.load(b"{\"cmd\":0}".to_vec());
    assert_eq!(p.ready_len(), 9);
    let mut got = Vec::new();
    got.extend(p.read(4));
    assert_eq!(p.ready_len(), 5);
    got.extend(p.read(4));
    got.extend(p.read(4));
    assert_eq!(got, b"{\"cmd\":0}".to_vec());
    assert_eq!(p.ready_len(), 0);
    assert!(p.read(4).is_empty());
    assert_eq!(p.ready_len(), READ_READY_DEFAULT);
}

#[test]
fn pending_response_starts_with_initial_payload() {
    let mut p = PendingResponse::new(Some(vec![1, 2, 3]));
    assert_eq!(p.read(10), vec![1, 2, 3]);
    assert!(p.read(10).is_empty());
}

#[test]
fn variables_window_counts_hidden_names() {
    let mut b = paused_backend(false);
    let mut vars = PythonVars::new();
    b.scopes(&obj(vec![("frameId", Json::Int(1))]), &mut vars).unwrap();
    let window = obj(vec![("variablesReference", Json::Int(1)), ("start", Json::Int(0)), ("count", Json::Int(2))]);
    match b.variables(&window, &mut vars).unwrap() {
        Body::Variables(v) => {
            assert_eq!(v.len(), 1);
            assert_eq!(v[0].name, "x");
        }
        _ => panic!(),
    }
}

#[test]
fn dunder_names() {
    use_dunder();
}

fn use_dunder() {
    assert!(debugger_sh::python::dap::adapter::dunder("__init__"));
    assert!(debugger_sh::python::dap::adapter::dunder("____"));
    assert!(!debugger_sh::python::dap::adapter::dunder("___"));
    assert!(!debugger_sh::python::dap::adapter::dunder("__x"));
    assert!(!debugger_sh::python::dap::adapter::dunder("x__"));
}

#[test]
fn resuming_leaves_the_backend_unchanged() {
    let mut b = paused_backend(true);
    b.set_breakpoints("/main.py", &[2]);
    let _ = b.continue_();
    let _ = b.next();
    match b.stack_trace().unwrap() {
        Body::StackTrace { total_frames, .. } => assert_eq!(total_frames, 2),
        _ => panic!(),
    }
    assert_eq!(b.step_out().command.breakpoints.len(), 1);
}
