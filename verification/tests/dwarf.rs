use debugger_sh::dap::json::Json;
use debugger_sh::dap::types::{Body, PauseReason, StackFrameInfo};
use debugger_sh::debug::dap::{
    breakpoints_body, frame_id, requested_children, requested_mixed_children, stack_trace_body,
    ChildWindow, DwarfBackend, DwarfRef, DwarfVars, FrameVariables, ResumeMode, VariableFacts,
};
use debugger_sh::debug::die::{
    AttrValue, Die, DW_AT_BYTE_SIZE, DW_AT_COUNT, DW_AT_DATA_MEMBER_LOCATION, DW_AT_ENCODING,
    DW_AT_UPPER_BOUND, DW_TAG_ARRAY_TYPE, DW_TAG_BASE_TYPE, DW_TAG_CONST_TYPE, DW_TAG_MEMBER,
    DW_TAG_POINTER_TYPE, DW_TAG_STRUCTURE_TYPE, DW_TAG_SUBRANGE_TYPE, DW_TAG_TYPEDEF,
};
use debugger_sh::debug::formatters::default::array::ArrayFormatter;
use debugger_sh::debug::formatters::ChildCounts;
use debugger_sh::debug::types::{
    parse_type_declaration, NamespaceHierarchy, ReferenceKind, TypeDeclaration, TypeGraph, Value,
};

fn obj(members: Vec<(&str, Json)>) -> Json {
    Json::Object(members.into_iter().map(|(k, v)| (k.to_string(), v)).collect())
}

fn die(die_ref: u64, tag: u16, name: Option<&str>, type_ref: Option<u64>, attrs: Vec<(u16, AttrValue)>, children: Vec<Die>) -> Die {
    Die { die_ref, tag, name: name.map(|n| n.to_string()), type_ref, attrs, children }
}

/// A unit: `int` (1), `int*` (2), `const int` (3), `int[10]` (4) with a
/// subrange child, `struct Point { int x; int y; }` (5), a typedef `Id` of
/// `int` (7), and a nested `struct Point::Inner` (8).
fn unit() -> Vec<Die> {
    let int = die(1, DW_TAG_BASE_TYPE, Some("int"), None, vec![(DW_AT_BYTE_SIZE, AttrValue::Udata(4)), (DW_AT_ENCODING, AttrValue::Encoding(5))], Vec::new());
    let ptr = die(2, DW_TAG_POINTER_TYPE, None, Some(1), Vec::new(), Vec::new());
    let cst = die(3, DW_TAG_CONST_TYPE, None, Some(1), Vec::new(), Vec::new());
    let sub = die(40, DW_TAG_SUBRANGE_TYPE, None, None, vec![(DW_AT_UPPER_BOUND, AttrValue::Udata(9))], Vec::new());
    let arr = die(4, DW_TAG_ARRAY_TYPE, None, Some(1), vec![(DW_AT_BYTE_SIZE, AttrValue::Udata(40))], vec![sub]);
    let x = die(51, DW_TAG_MEMBER, Some("x"), Some(1), vec![(DW_AT_DATA_MEMBER_LOCATION, AttrValue::Udata(0))], Vec::new());
    let y = die(52, DW_TAG_MEMBER, Some("y"), Some(1), vec![(DW_AT_DATA_MEMBER_LOCATION, AttrValue::Sdata(4))], Vec::new());
    let inner = die(8, DW_TAG_STRUCTURE_TYPE, Some("Inner"), None, vec![(DW_AT_BYTE_SIZE, AttrValue::Udata(1))], Vec::new());
    let point = die(5, DW_TAG_STRUCTURE_TYPE, Some("Point"), None, vec![(DW_AT_BYTE_SIZE, AttrValue::Udata(8))], vec![x, y, inner]);
    let id = die(7, DW_TAG_TYPEDEF, Some("Id"), Some(1), Vec::new(), Vec::new());
    let root = die(0, 0x11, Some("main.c"), None, Vec::new(), vec![int, ptr, cst, arr, point, id]);
    vec![root]
}

#[test]
fn parse_base_type() {
    let d = die(1, DW_TAG_BASE_TYPE, Some("int"), None, vec![(DW_AT_BYTE_SIZE, AttrValue::Udata(4)), (DW_AT_ENCODING, AttrValue::Encoding(5))], Vec::new());
    match parse_type_declaration(&d) {
        Some(TypeDeclaration::Scalar { name, byte_size, encoding }) => {
            assert_eq!(name, "int");
            assert_eq!(byte_size, 4);
            assert_eq!(encoding, 5);
        }
        other => panic!("unexpected {:?}", other),
    }
}

#[test]
fn parse_base_type_without_size_is_skipped() {
    let d = die(1, DW_TAG_BASE_TYPE, Some("int"), None, vec![(DW_AT_ENCODING, AttrValue::Encoding(5))], Vec::new());
    assert!(parse_type_declaration(&d).is_none());
}

#[test]
fn parse_pointer_needs_target() {
    let d = die(2, DW_TAG_POINTER_TYPE, None, Some(1), Vec::new(), Vec::new());
    match parse_type_declaration(&d) {
        Some(TypeDeclaration::Referential { target, kind }) => {
            assert_eq!(target, 1);
            assert_eq!(kind, ReferenceKind::Pointer);
        }
        other => panic!("unexpected {:?}", other),
    }
    let void_ptr = die(2, DW_TAG_POINTER_TYPE, None, None, Vec::new(), Vec::new());
    assert!(parse_type_declaration(&void_ptr).is_none());
}

#[test]
fn parse_array_bounds() {
    let sub = die(40, DW_TAG_SUBRANGE_TYPE, None, None, vec![(DW_AT_COUNT, AttrValue::Udata(3))], Vec::new());
    let d = die(4, DW_TAG_ARRAY_TYPE, None, Some(1), Vec::new(), vec![sub]);
    match parse_type_declaration(&d) {
        Some(TypeDeclaration::Array { byte_size, element_type, lower_bound, upper_bound }) => {
            assert_eq!(byte_size, None);
            assert_eq!(element_type, 1);
            assert!(matches!(lower_bound, Value::Constant(0)));
            assert!(matches!(upper_bound, Some(Value::Constant(3))));
        }
        other => panic!("unexpected {:?}", other),
    }
    let bare = die(4, DW_TAG_ARRAY_TYPE, None, Some(1), Vec::new(), Vec::new());
    match parse_type_declaration(&bare) {
        Some(TypeDeclaration::Array { lower_bound, upper_bound, .. }) => {
            assert!(matches!(lower_bound, Value::Constant(0)));
            assert!(upper_bound.is_none());
        }
        other => panic!("unexpected {:?}", other),
    }
}

#[test]
fn parse_structure_members() {
    let units = unit();
    let point = &units[0].children[4];
    match parse_type_declaration(point) {
        Some(TypeDeclaration::Structure { name, byte_size, members }) => {
            assert_eq!(name.as_deref(), Some("Point"));
            assert_eq!(byte_size, 8);
            assert_eq!(members.len(), 2);
            assert_eq!(members[0].name.as_deref(), Some("x"));
            assert!(matches!(members[0].location, Some(Value::Constant(0))));
            assert!(matches!(members[1].location, Some(Value::Constant(4))));
            assert_eq!(members[1].ty, 1);
        }
        other => panic!("unexpected {:?}", other),
    }
}

#[test]
fn graph_names_types() {
    let units = unit();
    let g = TypeGraph::new(&units);
    let names: Vec<String> = [1u64, 2, 3, 4, 5, 7].iter().map(|id| g.get(*id).name(&g)).collect();
    assert_eq!(names, vec!["int", "int*", "const int", "int[10]", "Point", "Id"]);
    assert_eq!(g.get(99).name(&g), "<unknown>");
    assert!(g.contains(5));
    assert!(!g.contains(51));
}

#[test]
fn graph_names_are_qualified() {
    let units = unit();
    let mut g = TypeGraph::new(&units);
    g.set_namespace(5, NamespaceHierarchy(vec!["geo".to_string()]));
    g.set_namespace(1, NamespaceHierarchy(vec!["std".to_string(), "__2".to_string()]));
    assert_eq!(g.get(5).name(&g), "geo::Point");
    assert_eq!(g.get(2).name(&g), "std::int*");
}

#[test]
fn graph_sizes_and_modifiers() {
    let units = unit();
    let g = TypeGraph::new(&units);
    assert_eq!(g.get(1).byte_size(&g), Some(4));
    assert_eq!(g.get(2).byte_size(&g), Some(4));
    assert_eq!(g.get(3).byte_size(&g), Some(4));
    assert_eq!(g.get(4).byte_size(&g), Some(40));
    assert_eq!(g.get(5).byte_size(&g), Some(8));
    assert_eq!(g.get(99).byte_size(&g), None);
    assert_eq!(g.get(3).skip_one_modifier(&g).root, 1);
    assert_eq!(g.get(7).skip_modifiers(&g).root, 1);
    assert_eq!(g.get(1).skip_modifiers(&g).root, 1);
    assert_eq!(g.get(2).pointee(&g).map(|t| t.root), Some(1));
    assert_eq!(g.get(1).pointee(&g), None);
    assert!(matches!(g.get(7).resolved(&g), Some(TypeDeclaration::Scalar { .. })));
}

#[test]
fn graph_type_matches_regex() {
    let units = unit();
    let g = TypeGraph::new(&units);
    assert!(g.get(2).matches(&g, r"^int\*$"));
    assert!(!g.get(1).matches(&g, "^Point$"));
    assert!(!g.get(1).matches(&g, "("));
}

#[test]
fn array_formatter_matches_arrays_only() {
    let units = unit();
    let g = TypeGraph::new(&units);
    assert!(ArrayFormatter.matches(&g.get(4), &g));
    assert!(!ArrayFormatter.matches(&g.get(5), &g));
    assert!(ArrayFormatter.num_children().is_empty());
}

#[test]
fn die_lookup_and_nested_types() {
    let units = unit();
    let g = TypeGraph::new(&units);
    let point = g.get(5);
    let entry = point.die(&units).expect("Point's entry");
    assert_eq!(entry.name.as_deref(), Some("Point"));
    assert!(g.get(51).die(&units).is_some());
    assert!(g.get(1234).die(&units).is_none());
    assert_eq!(point.direct_nested_type_with_name(entry, &g, "Inner").map(|t| t.root), Ok(8));
    assert_eq!(
        point.direct_nested_type_with_name(entry, &g, "x").map(|t| t.root),
        Err("No such type named x".to_string())
    );
}

#[test]
fn die_attr_value_finds_first() {
    let d = die(1, DW_TAG_BASE_TYPE, None, None, vec![(DW_AT_BYTE_SIZE, AttrValue::Udata(4)), (DW_AT_BYTE_SIZE, AttrValue::Udata(8))], Vec::new());
    assert!(matches!(d.attr_value(DW_AT_BYTE_SIZE), Some(AttrValue::Udata(4))));
    assert!(d.attr_value(DW_AT_ENCODING).is_none());
}

#[test]
fn dwarf_vars_numbering() {
    let mut v: DwarfVars<u32> = DwarfVars::new();
    assert_eq!(v.allocate(DwarfRef::List(vec![1, 2])), 1);
    assert_eq!(v.allocate(DwarfRef::Variable { var: 3, counts: ChildCounts::none() }), 2);
    assert!(matches!(v.get(1), Some(DwarfRef::List(l)) if l.len() == 2));
    assert!(v.get(3).is_none());
    v.clear();
    assert!(v.get(1).is_none());
    assert_eq!(v.allocate(DwarfRef::List(Vec::new())), 1);
}

#[test]
fn children_windows() {
    let list: DwarfRef<u32> = DwarfRef::List(vec![1, 2, 3, 4]);
    assert_eq!(requested_children(&Json::Null, &list), Ok(ChildWindow::List { start: 0, end: 4 }));
    let named = obj(vec![("filter", Json::Str("named".to_string())), ("start", Json::Int(1)), ("count", Json::Int(2))]);
    assert_eq!(requested_children(&named, &list), Ok(ChildWindow::List { start: 1, end: 3 }));
    let indexed = obj(vec![("filter", Json::Str("indexed".to_string()))]);
    assert_eq!(requested_children(&indexed, &list), Ok(ChildWindow::Empty));
    let var: DwarfRef<u32> = DwarfRef::Variable { var: 0, counts: ChildCounts { indexed: 10, named: 2 } };
    assert_eq!(requested_children(&indexed, &var), Ok(ChildWindow::Indexed { start: 0, end: 10 }));
    assert_eq!(requested_children(&named, &var), Ok(ChildWindow::Named { start: 1, end: 2 }));
    let mixed = obj(vec![("start", Json::Int(1)), ("count", Json::Int(3))]);
    assert_eq!(
        requested_children(&mixed, &var),
        Ok(ChildWindow::Mixed { named_start: 1, named_end: 2, indexed_start: 0, indexed_end: 2 })
    );
}

#[test]
fn children_with_bad_filter_is_refused() {
    let list: DwarfRef<u32> = DwarfRef::List(Vec::new());
    let bad = obj(vec![("filter", Json::Str("all".to_string()))]);
    assert_eq!(requested_children(&bad, &list), Err("Invalid variable filter: '\"all\"'".to_string()));
}

#[test]
fn mixed_children_split() {
    let counts = ChildCounts { indexed: 5, named: 3 };
    assert_eq!(
        requested_mixed_children(0..8, &counts),
        ChildWindow::Mixed { named_start: 0, named_end: 3, indexed_start: 0, indexed_end: 5 }
    );
    assert_eq!(
        requested_mixed_children(4..6, &counts),
        ChildWindow::Mixed { named_start: 3, named_end: 3, indexed_start: 1, indexed_end: 3 }
    );
}

#[test]
fn dwarf_scopes_skip_empty_groups() {
    let mut b: DwarfBackend<(), u32> = DwarfBackend::new(());
    let body = b.scopes(FrameVariables { arguments: Vec::new(), locals: vec![1, 2], globals: vec![3] });
    match body {
        Body::Scopes(s) => {
            assert_eq!(s.len(), 2);
            assert_eq!((s[0].name.as_str(), s[0].variables_reference, s[0].named_variables), ("Locals", 1, 2));
            assert_eq!((s[1].name.as_str(), s[1].variables_reference, s[1].named_variables), ("Globals", 2, 1));
        }
        _ => panic!(),
    }
    let w = b.lookup_children(&obj(vec![("variablesReference", Json::Int(1))])).unwrap();
    assert_eq!(w.1, ChildWindow::List { start: 0, end: 2 });
    assert_eq!(
        b.lookup_children(&obj(vec![("variablesReference", Json::Int(9))])).unwrap_err(),
        "Unknown variablesReference"
    );
}

#[test]
fn dwarf_variable_entries() {
    let mut b: DwarfBackend<(), u32> = DwarfBackend::new(());
    let leaf = b.variable_response(
        7,
        VariableFacts { name: "n".to_string(), display: Ok("42".to_string()), type_label: "int".to_string(), counts: ChildCounts::none(), address: None },
    );
    assert_eq!(leaf.variables_reference, 0);
    assert_eq!(leaf.value, "42");
    assert_eq!(leaf.type_label.as_deref(), Some("int"));
    assert_eq!(leaf.memory_reference, None);
    let arr = b.variable_response(
        8,
        VariableFacts { name: "a".to_string(), display: Err("bad read".to_string()), type_label: "int[3]".to_string(), counts: ChildCounts { indexed: 3, named: 0 }, address: Some(1024) },
    );
    assert_eq!(arr.variables_reference, 1);
    assert_eq!(arr.value, "<error: bad read>");
    assert_eq!(arr.indexed_variables, Some(3));
    assert_eq!(arr.named_variables, None);
    assert_eq!(arr.memory_reference.as_deref(), Some("1024"));
    assert!(matches!(b.vars.get(1), Some(DwarfRef::Variable { var: 8, .. })));
}

#[test]
fn dwarf_pause_drops_handles() {
    let mut b: DwarfBackend<(), u32> = DwarfBackend::new(());
    b.scopes(FrameVariables { arguments: vec![1], locals: Vec::new(), globals: Vec::new() });
    match b.handle_paused(PauseReason::Step) {
        Body::Stopped { reason, thread_id, all_threads_stopped } => {
            assert_eq!(reason, "step");
            assert_eq!(thread_id, 1);
            assert!(all_threads_stopped);
        }
        _ => panic!(),
    }
    assert!(b.vars.get(1).is_none());
    assert!(matches!(b.handle_paused(PauseReason::Breakpoint), Body::Stopped { reason, .. } if reason == "breakpoint"));
}

#[test]
fn dwarf_resume_modes() {
    let mut b: DwarfBackend<(), u32> = DwarfBackend::new(());
    assert!(matches!(b.configuration_done(), (None, ResumeMode::Continue)));
    assert!(matches!(b.continue_(), (Some(Body::Continued { all_threads_continued: true }), ResumeMode::Continue)));
    assert!(matches!(b.next(), (Some(Body::Empty), ResumeMode::StepOver)));
    assert!(matches!(b.step_in(), (Some(Body::Empty), ResumeMode::StepInto)));
    assert!(matches!(b.step_out(), (Some(Body::Empty), ResumeMode::StepOut)));
}

#[test]
fn dwarf_breakpoints_and_stack() {
    match breakpoints_body(&[Some(5), None]) {
        Body::Breakpoints(b) => {
            assert!(b[0].verified);
            assert_eq!(b[0].line, Some(5));
            assert!(!b[1].verified);
            assert_eq!(b[1].line, None);
        }
        _ => panic!(),
    }
    let frames = vec![StackFrameInfo { id: 0, name: "main".to_string(), line: 3, column: 1, source: Some("/main.c".to_string()), presentation_hint: None }];
    match stack_trace_body(Ok(frames)) {
        Ok(Body::StackTrace { stack_frames, total_frames }) => {
            assert_eq!(total_frames, 1);
            assert_eq!(stack_frames[0].name, "main");
        }
        _ => panic!(),
    }
    assert_eq!(stack_trace_body(Err("x".to_string())).unwrap_err(), "Failed to get backtrace");
}

#[test]
fn dwarf_frame_id_argument() {
    assert_eq!(frame_id(&obj(vec![("frameId", Json::Int(3))])), 3);
    assert_eq!(frame_id(&Json::Null), 0);
    assert_eq!(frame_id(&obj(vec![("frameId", Json::Int(0x1_0000_0002))])), 2);
}

#[test]
fn dwarf_resume_drops_handles() {
    let mut b: DwarfBackend<(), u32> = DwarfBackend::new(());
    b.scopes(FrameVariables { arguments: vec![1], locals: Vec::new(), globals: Vec::new() });
    assert!(b.vars.get(1).is_some());
    b.continue_();
    assert!(b.vars.get(1).is_none());
    assert_eq!(
        b.lookup_children(&obj(vec![("variablesReference", Json::Int(1))])).unwrap_err(),
        "Unknown variablesReference"
    );
}

#[test]
fn pointee_drops_target_modifiers() {
    let mut units = unit();
    units[0].children.push(die(9, DW_TAG_POINTER_TYPE, None, Some(3), Vec::new(), Vec::new()));
    units[0].children.push(die(10, DW_TAG_POINTER_TYPE, None, Some(7), Vec::new(), Vec::new()));
    let g = TypeGraph::new(&units);
    assert_eq!(g.get(9).name(&g), "const int*");
    let p = g.get(9).pointee(&g).unwrap();
    assert_eq!(p.root, 1);
    assert_eq!(p.name(&g), "int");
    assert_eq!(g.get(10).pointee(&g).map(|t| t.root), Some(1));
}
