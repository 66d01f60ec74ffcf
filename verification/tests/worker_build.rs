use debugger_sh::prefetch_urls;
use debugger_sh::worker::steps::{
    clang_args, collect_rust_objs, cpp_compile_step, cpp_link_args, cpp_link_step, find_rust_rlibs, missing_rlib,
    next_stage, python_step, run_step, rust_compile_step, rust_link_args, rust_link_step,
    rust_source_dir, rustc_args, BuildStage, CPP_STDLIB_URL, CPP_WASM_URL, PYTHON_STDLIB_URL,
    PYTHON_WASM_URL, RUSTC_WASM_URL, RUST_SYSROOT_URL,
};
use debugger_sh::worker::{
    collect_sources, is_source_ext, join_path, prepare_sources, rust_obj_path, sort_strings, str_lt,
    user_fs_plan, FsNode, FsOp, Lang,
};

fn s(v: &[&str]) -> Vec<String> {
    v.iter().map(|x| x.to_string()).collect()
}

fn file(name: &str) -> (String, FsNode) {
    (name.to_string(), FsNode::File(String::new()))
}

fn dir(name: &str, entries: Vec<(String, FsNode)>) -> (String, FsNode) {
    (name.to_string(), FsNode::Dir(entries))
}

const RLIB_PREFIXES: [&str; 16] = [
    "libpanic_abort-",
    "libstd-",
    "libwasi-",
    "libcfg_if-",
    "librustc_demangle-",
    "libstd_detect-",
    "libhashbrown-",
    "librustc_std_workspace_alloc-",
    "libminiz_oxide-",
    "libadler2-",
    "libunwind-",
    "liblibc-",
    "librustc_std_workspace_core-",
    "liballoc-",
    "libcore-",
    "libcompiler_builtins-",
];

#[test]
fn prefetch_urls_by_language() {
    assert_eq!(prefetch_urls("python"), s(&[PYTHON_WASM_URL, PYTHON_STDLIB_URL]));
    assert_eq!(prefetch_urls("c"), s(&[CPP_WASM_URL, CPP_STDLIB_URL]));
    assert!(prefetch_urls("rust").is_empty());
    assert_eq!(
        prefetch_urls("python")[0],
        "https://runno.dev/langs/python-3.11.3.wasm"
    );
}

#[test]
fn source_extensions() {
    for ext in ["c", "cc", "cp", "cpp", "cxx", "c++", "CPP", "Cc"] {
        assert!(is_source_ext(ext, Lang::C), "{ext}");
    }
    assert!(!is_source_ext("h", Lang::C));
    assert!(!is_source_ext("rs", Lang::C));
    assert!(is_source_ext("rs", Lang::Rust));
    assert!(is_source_ext("RS", Lang::Rust));
    assert!(!is_source_ext("c", Lang::Rust));
}

#[test]
fn path_joining() {
    assert_eq!(join_path("/", "main.c"), "/main.c");
    assert_eq!(join_path("/src", "a.c"), "/src/a.c");
    assert_eq!(join_path("/src/", "a.c"), "/src/a.c");
    assert_eq!(join_path("/src", "/abs.c"), "/abs.c");
    assert_eq!(join_path("", "a.c"), "a.c");
    assert_eq!(join_path("/src", "sub/b.c"), "/src/sub/b.c");
}

#[test]
fn sources_are_found_and_sorted() {
    let fs = vec![
        file("main.cpp"),
        file("notes.txt"),
        dir("lib", vec![file("b.c"), file("a.CC"), file(".c"), file("header.h")]),
        file("Zeta.c"),
    ];
    assert_eq!(
        prepare_sources(&fs, Lang::C),
        Ok(s(&["/Zeta.c", "/lib/a.CC", "/lib/b.c", "/main.cpp"]))
    );
}

#[test]
fn no_sources_is_an_error() {
    let fs = vec![file("main.py"), dir("d", Vec::new())];
    assert_eq!(
        prepare_sources(&fs, Lang::Rust),
        Err("No Rust source files found in provided filesystem".to_string())
    );
    assert_eq!(
        prepare_sources(&Vec::new(), Lang::C),
        Err("No C/C++ source files found in provided filesystem".to_string())
    );
}

#[test]
fn collect_sources_keeps_listing_order() {
    let node = FsNode::Dir(vec![file("b.rs"), file("a.rs"), file("x.c")]);
    let mut out = vec!["/first.rs".to_string()];
    collect_sources(&node, "/", Lang::Rust, &mut out);
    assert_eq!(out, s(&["/first.rs", "/b.rs", "/a.rs"]));
}

#[test]
fn string_order() {
    assert!(str_lt("a", "b"));
    assert!(str_lt("ab", "abc"));
    assert!(!str_lt("abc", "ab"));
    assert!(!str_lt("a", "a"));
    assert!(str_lt("Z", "a"));
    assert_eq!(sort_strings(s(&["b", "a", "c", "a"])), s(&["a", "a", "b", "c"]));
    assert!(sort_strings(Vec::new()).is_empty());
}

#[test]
fn rust_object_paths() {
    assert_eq!(rust_obj_path("/main.rs"), "/main.o");
    assert_eq!(rust_obj_path("/lib.rs.rs"), "/lib.o");
    assert_eq!(rust_obj_path("/main"), "/main.o");
    assert_eq!(rust_source_dir("/src/main.rs"), "/src");
    assert_eq!(rust_source_dir("/main.rs"), "/");
}

#[test]
fn rust_objects_include_codegen_units() {
    let listing = Some(s(&["main.rs", "main.main.abc-cgu.0.rcgu.o", "other.rcgu.o", "main.o"]));
    assert_eq!(
        collect_rust_objs("/main.rs", &listing),
        s(&["/main.o", "//main.main.abc-cgu.0.rcgu.o"])
    );
    assert_eq!(collect_rust_objs("/src/lib.rs", &None), s(&["/src/lib.o"]));
    let nested = Some(s(&["lib.x.rcgu.o"]));
    assert_eq!(collect_rust_objs("/src/lib.rs", &nested), s(&["/src/lib.o", "/src/lib.x.rcgu.o"]));
}

#[test]
fn rlibs_in_link_order() {
    let mut names: Vec<String> = RLIB_PREFIXES.iter().rev().map(|p| format!("{p}0123.rlib")).collect();
    names.push("libstd-9999.rmeta".to_string());
    assert_eq!(missing_rlib(&names), None);
    let found = find_rust_rlibs(&names);
    let expected: Vec<String> = RLIB_PREFIXES
        .iter()
        .map(|p| format!("/lib/rustlib/wasm32-wasip1/lib/{p}0123.rlib"))
        .collect();
    assert_eq!(found, expected);
}

#[test]
fn missing_rlib_is_reported() {
    let names: Vec<String> = RLIB_PREFIXES.iter().skip(1).map(|p| format!("{p}0.rlib")).collect();
    assert_eq!(missing_rlib(&names), Some("missing rlib for prefix libpanic_abort-".to_string()));
}

#[test]
fn clang_arguments() {
    let a = clang_args("/main.c", "/main.c.o", false);
    assert_eq!(a.len(), 23);
    assert_eq!(a[0], "-cc1");
    assert_eq!(a[21], "/main.c.o");
    assert_eq!(a[22], "/main.c");
    let d = clang_args("/main.c", "/main.c.o", true);
    assert_eq!(&d[22..], &s(&["-O0", "-debug-info-kind=standalone", "-dwarf-version=5", "/main.c"])[..]);
}

#[test]
fn link_arguments() {
    let a = cpp_link_args(&s(&["/a.c.o", "/b.c.o"]));
    assert_eq!(
        a,
        s(&[
            "--export-dynamic",
            "-z",
            "stack-size=1048576",
            "-L/lib/wasm32-wasip1",
            "/lib/wasm32-wasip1/crt1.o",
            "/a.c.o",
            "/b.c.o",
            "-lc++",
            "-lc++abi",
            "/lib/wasm32-unknown-wasip1/libclang_rt.builtins.a",
            "-lc",
            "-o",
            "/main.wasm",
        ])
    );
    let r = rust_link_args(&s(&["/main.o"]), &s(&["/lib/x.rlib"]));
    assert_eq!(r[6], "/main.o");
    assert_eq!(r[7], "/lib/x.rlib");
    assert_eq!(r.last().unwrap(), "-O0");
    assert_eq!(r.len(), 14);
}

#[test]
fn rustc_arguments() {
    assert_eq!(
        rustc_args("/main.rs", "/main.o", true),
        s(&[
            "/main.rs",
            "--sysroot",
            "/",
            "--target",
            "wasm32-wasip1",
            "-Cpanic=abort",
            "-Ccodegen-units=1",
            "-Zthreads=1",
            "--emit=obj",
            "-o",
            "/main.o",
            "-g",
            "-Copt-level=0",
        ])
    );
    assert_eq!(rustc_args("/main.rs", "/main.o", false).len(), 11);
}

#[test]
fn build_steps() {
    let sources = s(&["/a.cpp", "/b.cpp"]);
    let first = cpp_compile_step(&sources, 0, true);
    assert_eq!(first.name, "clang");
    assert_eq!(first.binary, CPP_WASM_URL);
    assert_eq!(first.sysroot.as_deref(), Some(CPP_STDLIB_URL));
    assert!(first.with_user_fs);
    let second = cpp_compile_step(&sources, 1, true);
    assert!(second.sysroot.is_none());
    assert!(!second.with_user_fs);
    assert_eq!(second.args[21], "/b.cpp.o");
    let link = cpp_link_step(&sources);
    assert_eq!(link.name, "wasm-ld");
    assert_eq!(&link.args[5..7], &s(&["/a.cpp.o", "/b.cpp.o"])[..]);
    let rc = rust_compile_step(&s(&["/main.rs"]), 0, false);
    assert_eq!(rc.binary, RUSTC_WASM_URL);
    assert_eq!(rc.sysroot.as_deref(), Some(RUST_SYSROOT_URL));
    assert_eq!(rc.args[10], "/main.o");
    let rl = rust_link_step(&s(&["/main.o"]), &Vec::new());
    assert_eq!(rl.binary, CPP_WASM_URL);
    let run = run_step(true);
    assert_eq!((run.name.as_str(), run.binary.as_str(), run.debug), ("main", "/main.wasm", true));
    assert!(run.args.is_empty());
    assert!(run.envs.is_empty());
}

#[test]
fn python_steps() {
    let plain = python_step(false);
    assert_eq!(plain.args, s(&["/main.py"]));
    assert_eq!(plain.binary, PYTHON_WASM_URL);
    assert_eq!(plain.sysroot.as_deref(), Some(PYTHON_STDLIB_URL));
    assert!(plain.device_path.is_none());
    assert_eq!(
        plain.envs,
        vec![
            ("PYTHONUNBUFFERED".to_string(), "1".to_string()),
            ("PYTHONDONTWRITEBYTECODE".to_string(), "1".to_string())
        ]
    );
    let debug = python_step(true);
    assert_eq!(debug.args, s(&["/_bridge.py"]));
    assert_eq!(debug.device_path.as_deref(), Some("/__debug__"));
}

#[test]
fn build_stages_successful_run() {
    let mut st = BuildStage::Compile { index: 0 };
    st = next_stage(st, 2, true, 0);
    assert_eq!(st, BuildStage::Compile { index: 1 });
    st = next_stage(st, 2, true, 0);
    assert_eq!(st, BuildStage::Link);
    st = next_stage(st, 2, true, 0);
    assert_eq!(st, BuildStage::Run);
    st = next_stage(st, 2, false, 3);
    assert_eq!(st, BuildStage::Stopped { exit_code: 3 });
    assert_eq!(next_stage(st, 2, true, 0), BuildStage::Stopped { exit_code: 3 });
}

#[test]
fn build_stages_failed_compile_stops() {
    assert_eq!(
        next_stage(BuildStage::Compile { index: 0 }, 3, false, 1),
        BuildStage::Stopped { exit_code: 1 }
    );
    assert_eq!(next_stage(BuildStage::Link, 3, false, 2), BuildStage::Stopped { exit_code: 2 });
}

#[test]
fn user_fs_plan_creates_dirs_before_contents() {
    let fs = vec![
        ("main.c".to_string(), FsNode::File("int main(){}".to_string())),
        dir("lib", vec![("a.c".to_string(), FsNode::File("x".to_string())), dir("empty", Vec::new())]),
    ];
    let ops: Vec<String> = user_fs_plan(&fs)
        .iter()
        .map(|op| match op {
            FsOp::MakeDir(p) => format!("mkdir {p}"),
            FsOp::WriteFile(p, c) => format!("write {p} {c}"),
        })
        .collect();
    assert_eq!(
        ops,
        s(&[
            "mkdir /",
            "write /main.c int main(){}",
            "mkdir /lib",
            "write /lib/a.c x",
            "mkdir /lib/empty",
        ])
    );
}

#[test]
fn source_paths_follow_path_rules() {
    let f = FsNode::File(String::new());
    let mut out = Vec::new();
    for p in ["/d/a.c/", "/d/b.c/.", "/d/..", "/.c", "/d/c.txt", "/d/e.cpp//", "."] {
        collect_sources(&f, p, Lang::C, &mut out);
    }
    assert_eq!(out, s(&["/d/a.c/", "/d/b.c/.", "/d/e.cpp//"]));
}
