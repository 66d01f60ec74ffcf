//! The steps of a build: compiling each source, linking, and running the
//! program, with the arguments of each and the order in which they run.
use vstd::prelude::*;

use crate::text::{concat, concat3, ends_with, has_prefix, has_suffix, owned, starts_with, views};
use crate::worker::{file_stem, path_file_stem, rust_obj, rust_obj_path, Lang};

verus! {

/// The LLVM toolchain (clang and wasm-ld) compiled to WebAssembly.
pub const CPP_WASM_URL: &'static str = "https://fabioibanez.github.io/website/llvm.core.wasm";

/// The C and C++ headers and libraries clang compiles against.
pub const CPP_STDLIB_URL: &'static str = "https://fabioibanez.github.io/website/llvm-resources.tar.gz";

/// rustc compiled to WebAssembly.
pub const RUSTC_WASM_URL: &'static str =
    "https://github.com/debugger-sh/rust/releases/download/debugger-sh-2026-05-30/rustc.wasm";

/// The Rust sysroot rustc compiles against.
pub const RUST_SYSROOT_URL: &'static str =
    "https://github.com/debugger-sh/rust/releases/download/debugger-sh-2026-05-30/sysroot.tar.gz";

/// The Python interpreter compiled to WebAssembly.
pub const PYTHON_WASM_URL: &'static str = "https://runno.dev/langs/python-3.11.3.wasm";

/// The Python standard library.
pub const PYTHON_STDLIB_URL: &'static str = "https://runno.dev/langs/python-3.11.3.tar.gz";

/// The views of a list of string literals.
pub open spec fn lit_views(v: Seq<&str>) -> Seq<Seq<char>> {
    Seq::new(v.len(), |i: int| v[i]@)
}

fn owned_all(v: &[&str]) -> (r: Vec<String>)
    ensures
        views(r@) == lit_views(v@),
{
    let mut out: Vec<String> = Vec::new();
    let mut i: usize = 0;
    while i < v.len()
        invariant
            i <= v@.len(),
            out@.len() == i,
            forall|j: int| 0 <= j < i ==> #[trigger] out@[j]@ == v@[j]@,
        decreases v.len() - i,
    {
        out.push(owned(v[i]));
        i = i + 1;
    }
    assert(views(out@) =~= lit_views(v@));
    out
}

fn push_all(out: &mut Vec<String>, v: &[&str])
    ensures
        views(final(out)@) == views(old(out)@) + lit_views(v@),
{
    let more = owned_all(v);
    push_strings(out, &more);
}

fn push_strings(out: &mut Vec<String>, v: &Vec<String>)
    ensures
        views(final(out)@) == views(old(out)@) + views(v@),
{
    let ghost start = out@;
    let mut i: usize = 0;
    while i < v.len()
        invariant
            start == old(out)@,
            i <= v@.len(),
            out@.len() == start.len() + i,
            forall|j: int| 0 <= j < start.len() ==> #[trigger] out@[j] == start[j],
            forall|j: int| 0 <= j < i ==> #[trigger] out@[start.len() + j]@ == v@[j]@,
        decreases v.len() - i,
    {
        out.push(v[i].clone());
        i = i + 1;
    }
    assert forall|j: int| 0 <= j < out@.len() implies #[trigger] views(out@)[j] == (views(start)
        + views(v@))[j] by {
        if j >= start.len() {
            assert(out@[start.len() + (j - start.len())]@ == v@[j - start.len()]@);
        }
    }
    assert(views(out@) =~= views(start) + views(v@));
}

/// The clang arguments that compile C++ `source` to `obj_path`, with
/// debug information at `-O0` in a debug build.
pub open spec fn clang_args_spec(source: Seq<char>, obj_path: Seq<char>, is_debug: bool) -> Seq<
    Seq<char>,
> {
    seq![
        "-cc1"@,
        "-triple"@,
        "wasm32-wasip1"@,
        "-Werror"@,
        "-emit-obj"@,
        "-disable-free"@,
        "-isysroot"@,
        "/"@,
        "-internal-isystem"@,
        "/include/c++/v1"@,
        "-internal-isystem"@,
        "/include"@,
        "-internal-isystem"@,
        "/include/wasm32-wasip1"@,
        "-ferror-limit"@,
        "4"@,
        "-fcolor-diagnostics"@,
        "-x"@,
        "c++"@,
        "-std=c++23"@,
        "-o"@,
        obj_path,
    ] + (if is_debug {
        seq!["-O0"@, "-debug-info-kind=standalone"@, "-dwarf-version=5"@]
    } else {
        Seq::empty()
    }) + seq![source]
}

/// The clang arguments that compile C++ `source` to `obj_path`.
pub fn clang_args(source: &str, obj_path: &str, is_debug: bool) -> (r: Vec<String>)
    ensures
        views(r@) == clang_args_spec(source@, obj_path@, is_debug),
{
    let mut args = owned_all(
        &[
            "-cc1",
            "-triple",
            "wasm32-wasip1",
            "-Werror",
            "-emit-obj",
            "-disable-free",
            "-isysroot",
            "/",
            "-internal-isystem",
            "/include/c++/v1",
            "-internal-isystem",
            "/include",
            "-internal-isystem",
            "/include/wasm32-wasip1",
            "-ferror-limit",
            "4",
            "-fcolor-diagnostics",
            "-x",
            "c++",
            "-std=c++23",
            "-o",
        ],
    );
    let ghost a0 = views(args@);
    assert(a0 =~= seq![
        "-cc1"@,
        "-triple"@,
        "wasm32-wasip1"@,
        "-Werror"@,
        "-emit-obj"@,
        "-disable-free"@,
        "-isysroot"@,
        "/"@,
        "-internal-isystem"@,
        "/include/c++/v1"@,
        "-internal-isystem"@,
        "/include"@,
        "-internal-isystem"@,
        "/include/wasm32-wasip1"@,
        "-ferror-limit"@,
        "4"@,
        "-fcolor-diagnostics"@,
        "-x"@,
        "c++"@,
        "-std=c++23"@,
        "-o"@,
    ]);
    let o = owned(obj_path);
    proof {
        crate::text::lemma_views_push(args@, o);
    }
    args.push(o);
    let ghost a1 = views(args@);
    if is_debug {
        push_all(&mut args, &["-O0", "-debug-info-kind=standalone", "-dwarf-version=5"]);
        assert(views(args@) =~= a1 + seq!["-O0"@, "-debug-info-kind=standalone"@, "-dwarf-version=5"@]);
    } else {
        assert(views(args@) =~= a1 + Seq::<Seq<char>>::empty());
    }
    let src = owned(source);
    proof {
        crate::text::lemma_views_push(args@, src);
    }
    args.push(src);
    assert(views(args@) =~= clang_args_spec(source@, obj_path@, is_debug));
    args
}

/// Law of the C++ build: clang compiles every source as C++.  For any
/// source and object path (absolute, as the build gives them), the
/// arguments select the language with `-x`, every `-x` is followed by
/// `c++`, and every language standard named with `-std=` is a C++ one.
pub proof fn law_clang_compiles_cpp(source: Seq<char>, obj: Seq<char>, is_debug: bool)
    requires
        source.len() > 0 && source[0] == '/',
        obj.len() > 0 && obj[0] == '/',
    ensures
        ({
            let a = clang_args_spec(source, obj, is_debug);
            &&& exists|i: int| 0 <= i < a.len() - 1 && #[trigger] a[i] == "-x"@ && a[i + 1] == "c++"@
            &&& forall|i: int| 0 <= i < a.len() && #[trigger] a[i] == "-x"@ ==> i + 1 < a.len() && a[i + 1] == "c++"@
            &&& exists|i: int| 0 <= i < a.len() && #[trigger] has_prefix(a[i], "-std="@)
            &&& forall|i: int| 0 <= i < a.len() && #[trigger] has_prefix(a[i], "-std="@) ==> has_prefix(a[i], "-std=c++"@)
        }),
{
    reveal_strlit("-cc1");
    reveal_strlit("-triple");
    reveal_strlit("wasm32-wasip1");
    reveal_strlit("-Werror");
    reveal_strlit("-emit-obj");
    reveal_strlit("-disable-free");
    reveal_strlit("-isysroot");
    reveal_strlit("/");
    reveal_strlit("-internal-isystem");
    reveal_strlit("/include/c++/v1");
    reveal_strlit("/include");
    reveal_strlit("/include/wasm32-wasip1");
    reveal_strlit("-ferror-limit");
    reveal_strlit("4");
    reveal_strlit("-fcolor-diagnostics");
    reveal_strlit("-x");
    reveal_strlit("c++");
    reveal_strlit("-std=c++23");
    reveal_strlit("-o");
    reveal_strlit("-O0");
    reveal_strlit("-debug-info-kind=standalone");
    reveal_strlit("-dwarf-version=5");
    reveal_strlit("-std=");
    reveal_strlit("-std=c++");
    let a = clang_args_spec(source, obj, is_debug);
    assert(a[17] == "-x"@ && a[18] == "c++"@);
    assert(a[19] == "-std=c++23"@);
    assert(a[19].subrange(0, 5) =~= "-std="@);
    assert(has_prefix(a[19], "-std="@));
    assert(a[19].subrange(0, 8) =~= "-std=c++"@);
    assert forall|i: int| 0 <= i < a.len() && #[trigger] a[i] == "-x"@ implies i + 1 < a.len() && a[i + 1] == "c++"@ by {
        if i != 17 {
            assert(a[i][1] == 'x');
            assert(a[i][0] == '-');
        }
    }
    assert forall|i: int| 0 <= i < a.len() && #[trigger] has_prefix(a[i], "-std="@) implies has_prefix(a[i], "-std=c++"@) by {
        assert(a[i].subrange(0, 5) == "-std="@);
        assert(a[i].subrange(0, 5)[0] == '-' && a[i].subrange(0, 5)[1] == 's');
        assert(a[i][0] == '-' && a[i][1] == 's');
        assert(i == 19);
        assert(a[i].subrange(0, 8) =~= "-std=c++"@);
    }
}

/// Law of the builds: each compile writes the object it is given and
/// reads the source it is given.  For clang and rustc alike, with
/// absolute source and object paths, every `-o` is followed by the object
/// path, and the source is among the arguments (last for clang, first for
/// rustc).
pub proof fn law_compile_writes_its_object(source: Seq<char>, obj: Seq<char>, is_debug: bool)
    requires
        source.len() > 0 && source[0] == '/',
        obj.len() > 0 && obj[0] == '/',
    ensures
        ({
            let c = clang_args_spec(source, obj, is_debug);
            &&& c.last() == source
            &&& forall|i: int| 0 <= i < c.len() && #[trigger] c[i] == "-o"@ ==> i + 1 < c.len() && c[i + 1] == obj
            &&& exists|i: int| 0 <= i < c.len() - 1 && #[trigger] c[i] == "-o"@
        }),
        ({
            let r = rustc_args_spec(source, obj, is_debug);
            &&& r[0] == source
            &&& forall|i: int| 0 <= i < r.len() && #[trigger] r[i] == "-o"@ ==> i + 1 < r.len() && r[i + 1] == obj
            &&& exists|i: int| 0 <= i < r.len() - 1 && #[trigger] r[i] == "-o"@
        }),
{
    reveal_strlit("-cc1");
    reveal_strlit("-triple");
    reveal_strlit("wasm32-wasip1");
    reveal_strlit("-Werror");
    reveal_strlit("-emit-obj");
    reveal_strlit("-disable-free");
    reveal_strlit("-isysroot");
    reveal_strlit("/");
    reveal_strlit("-internal-isystem");
    reveal_strlit("/include/c++/v1");
    reveal_strlit("/include");
    reveal_strlit("/include/wasm32-wasip1");
    reveal_strlit("-ferror-limit");
    reveal_strlit("4");
    reveal_strlit("-fcolor-diagnostics");
    reveal_strlit("-x");
    reveal_strlit("c++");
    reveal_strlit("-std=c++23");
    reveal_strlit("-o");
    reveal_strlit("-O0");
    reveal_strlit("-debug-info-kind=standalone");
    reveal_strlit("-dwarf-version=5");
    reveal_strlit("--sysroot");
    reveal_strlit("--target");
    reveal_strlit("-Cpanic=abort");
    reveal_strlit("-Ccodegen-units=1");
    reveal_strlit("-Zthreads=1");
    reveal_strlit("--emit=obj");
    reveal_strlit("-g");
    reveal_strlit("-Copt-level=0");
    let c = clang_args_spec(source, obj, is_debug);
    let r = rustc_args_spec(source, obj, is_debug);
    assert(c[20] == "-o"@ && c[21] == obj);
    assert(r[9] == "-o"@ && r[10] == obj);
    assert forall|i: int| 0 <= i < c.len() && #[trigger] c[i] == "-o"@ implies i + 1 < c.len() && c[i + 1] == obj by {
        assert(c[i][0] == '-' && c[i][1] == 'o');
    }
    assert forall|i: int| 0 <= i < r.len() && #[trigger] r[i] == "-o"@ implies i + 1 < r.len() && r[i + 1] == obj by {
        assert(r[i][0] == '-' && r[i][1] == 'o');
    }
}

/// The wasm-ld arguments that link C++ objects into `/main.wasm`.
pub open spec fn cpp_link_args_spec(objs: Seq<Seq<char>>) -> Seq<Seq<char>> {
    seq![
        "--export-dynamic"@,
        "-z"@,
        "stack-size=1048576"@,
        "-L/lib/wasm32-wasip1"@,
        "/lib/wasm32-wasip1/crt1.o"@,
    ] + objs + seq![
        "-lc++"@,
        "-lc++abi"@,
        "/lib/wasm32-unknown-wasip1/libclang_rt.builtins.a"@,
        "-lc"@,
        "-o"@,
        "/main.wasm"@,
    ]
}

/// The wasm-ld arguments that link C++ objects into `/main.wasm`.
pub fn cpp_link_args(objs: &Vec<String>) -> (r: Vec<String>)
    ensures
        views(r@) == cpp_link_args_spec(views(objs@)),
{
    let mut args = owned_all(
        &[
            "--export-dynamic",
            "-z",
            "stack-size=1048576",
            "-L/lib/wasm32-wasip1",
            "/lib/wasm32-wasip1/crt1.o",
        ],
    );
    push_strings(&mut args, objs);
    push_all(
        &mut args,
        &[
            "-lc++",
            "-lc++abi",
            "/lib/wasm32-unknown-wasip1/libclang_rt.builtins.a",
            "-lc",
            "-o",
            "/main.wasm",
        ],
    );
    assert(views(args@) =~= cpp_link_args_spec(views(objs@)));
    args
}

/// The rustc arguments that compile `source` to `obj_path`, with debug
/// information at `opt-level=0` in a debug build.
pub open spec fn rustc_args_spec(source: Seq<char>, obj_path: Seq<char>, is_debug: bool) -> Seq<
    Seq<char>,
> {
    seq![
        source,
        "--sysroot"@,
        "/"@,
        "--target"@,
        "wasm32-wasip1"@,
        "-Cpanic=abort"@,
        "-Ccodegen-units=1"@,
        "-Zthreads=1"@,
        "--emit=obj"@,
        "-o"@,
        obj_path,
    ] + if is_debug {
        seq!["-g"@, "-Copt-level=0"@]
    } else {
        Seq::empty()
    }
}

/// The rustc arguments that compile `source` to `obj_path`.
pub fn rustc_args(source: &str, obj_path: &str, is_debug: bool) -> (r: Vec<String>)
    ensures
        views(r@) == rustc_args_spec(source@, obj_path@, is_debug),
{
    let mut args: Vec<String> = Vec::new();
    let src = owned(source);
    proof {
        crate::text::lemma_views_push(args@, src);
    }
    args.push(src);
    let ghost a0 = views(args@);
    assert(a0 =~= seq![source@]);
    push_all(
        &mut args,
        &[
            "--sysroot",
            "/",
            "--target",
            "wasm32-wasip1",
            "-Cpanic=abort",
            "-Ccodegen-units=1",
            "-Zthreads=1",
            "--emit=obj",
            "-o",
        ],
    );
    let o = owned(obj_path);
    proof {
        crate::text::lemma_views_push(args@, o);
    }
    args.push(o);
    let ghost a1 = views(args@);
    if is_debug {
        push_all(&mut args, &["-g", "-Copt-level=0"]);
        assert(views(args@) =~= a1 + seq!["-g"@, "-Copt-level=0"@]);
    } else {
        assert(views(args@) =~= a1 + Seq::<Seq<char>>::empty());
    }
    assert(views(args@) =~= rustc_args_spec(source@, obj_path@, is_debug));
    args
}

/// The wasm-ld arguments that link Rust objects and the sysroot's rlibs
/// into `/main.wasm`.
pub open spec fn rust_link_args_spec(objs: Seq<Seq<char>>, rlibs: Seq<Seq<char>>) -> Seq<
    Seq<char>,
> {
    seq![
        "--export=__main_void"@,
        "-z"@,
        "stack-size=1048576"@,
        "--stack-first"@,
        "--no-demangle"@,
        "/lib/rustlib/wasm32-wasip1/lib/self-contained/crt1-command.o"@,
    ] + objs + rlibs + seq![
        "-L/lib/rustlib/wasm32-wasip1/lib/self-contained"@,
        "-lc"@,
        "-o"@,
        "/main.wasm"@,
        "--gc-sections"@,
        "-O0"@,
    ]
}

/// The wasm-ld arguments that link Rust objects and rlibs.
pub fn rust_link_args(objs: &Vec<String>, rlibs: &Vec<String>) -> (r: Vec<String>)
    ensures
        views(r@) == rust_link_args_spec(views(objs@), views(rlibs@)),
{
    let mut args = owned_all(
        &[
            "--export=__main_void",
            "-z",
            "stack-size=1048576",
            "--stack-first",
            "--no-demangle",
            "/lib/rustlib/wasm32-wasip1/lib/self-contained/crt1-command.o",
        ],
    );
    push_strings(&mut args, objs);
    push_strings(&mut args, rlibs);
    push_all(
        &mut args,
        &[
            "-L/lib/rustlib/wasm32-wasip1/lib/self-contained",
            "-lc",
            "-o",
            "/main.wasm",
            "--gc-sections",
            "-O0",
        ],
    );
    assert(views(args@) =~= rust_link_args_spec(views(objs@), views(rlibs@)));
    args
}


/// The program the run step executes.
pub open spec fn run_binary() -> Seq<char> {
    "/main.wasm"@
}

/// Every path of the list is absolute.
pub open spec fn all_absolute(paths: Seq<Seq<char>>) -> bool {
    forall|i: int| 0 <= i < paths.len() ==> (#[trigger] paths[i]).len() > 0 && paths[i][0] == '/'
}

/// Law of the Rust build: the link writes the program the run step
/// executes.  For any objects and rlibs (absolute paths), an output is
/// named with `-o`, and every `-o` is followed by the run step's binary.
pub proof fn law_rust_link_writes_run_binary(objs: Seq<Seq<char>>, rlibs: Seq<Seq<char>>)
    requires
        all_absolute(objs),
        all_absolute(rlibs),
    ensures
        ({
            let a = rust_link_args_spec(objs, rlibs);
            &&& exists|i: int| 0 <= i < a.len() - 1 && #[trigger] a[i] == "-o"@ && a[i + 1] == run_binary()
            &&& forall|i: int| 0 <= i < a.len() && #[trigger] a[i] == "-o"@ ==> i + 1 < a.len() && a[i + 1] == run_binary()
        }),
{
    reveal_strlit("--export=__main_void");
    reveal_strlit("-z");
    reveal_strlit("stack-size=1048576");
    reveal_strlit("--stack-first");
    reveal_strlit("--no-demangle");
    reveal_strlit("/lib/rustlib/wasm32-wasip1/lib/self-contained/crt1-command.o");
    reveal_strlit("-L/lib/rustlib/wasm32-wasip1/lib/self-contained");
    reveal_strlit("-lc");
    reveal_strlit("-o");
    reveal_strlit("/main.wasm");
    reveal_strlit("--gc-sections");
    reveal_strlit("-O0");
    let a = rust_link_args_spec(objs, rlibs);
    let n: int = 6 + objs.len() as int + rlibs.len() as int;
    assert(a[n + 2] == "-o"@ && a[n + 3] == run_binary());
    assert forall|i: int| 0 <= i < a.len() && #[trigger] a[i] == "-o"@ implies i + 1 < a.len() && a[i + 1] == run_binary() by {
        assert(a[i][0] == '-' && a[i][1] == 'o');
        if 6 <= i < 6 + objs.len() {
            assert(a[i] == objs[i - 6]);
        } else if 6 + objs.len() <= i < n {
            assert(a[i] == rlibs[i - 6 - objs.len()]);
        }
    }
}

/// Law of the C++ build: the link writes the program the run step
/// executes.  For any objects (absolute paths), an output is named with
/// `-o`, and every `-o` is followed by the run step's binary.
pub proof fn law_cpp_link_writes_run_binary(objs: Seq<Seq<char>>)
    requires
        all_absolute(objs),
    ensures
        ({
            let a = cpp_link_args_spec(objs);
            &&& exists|i: int| 0 <= i < a.len() - 1 && #[trigger] a[i] == "-o"@ && a[i + 1] == run_binary()
            &&& forall|i: int| 0 <= i < a.len() && #[trigger] a[i] == "-o"@ ==> i + 1 < a.len() && a[i + 1] == run_binary()
        }),
{
    reveal_strlit("--export-dynamic");
    reveal_strlit("-z");
    reveal_strlit("stack-size=1048576");
    reveal_strlit("-L/lib/wasm32-wasip1");
    reveal_strlit("/lib/wasm32-wasip1/crt1.o");
    reveal_strlit("-lc++");
    reveal_strlit("-lc++abi");
    reveal_strlit("/lib/wasm32-unknown-wasip1/libclang_rt.builtins.a");
    reveal_strlit("-lc");
    reveal_strlit("-o");
    reveal_strlit("/main.wasm");
    let a = cpp_link_args_spec(objs);
    let n: int = 5 + objs.len() as int;
    assert(a[n + 4] == "-o"@ && a[n + 5] == run_binary());
    assert forall|i: int| 0 <= i < a.len() && #[trigger] a[i] == "-o"@ implies i + 1 < a.len() && a[i + 1] == run_binary() by {
        assert(a[i][0] == '-' && a[i][1] == 'o');
        if 5 <= i < n {
            assert(a[i] == objs[i - 5]);
        }
    }
}

/// The prefixes of the sysroot rlibs a Rust program links, in link order.
pub open spec fn rlib_prefixes() -> Seq<Seq<char>> {
    seq![
        "libpanic_abort-"@,
        "libstd-"@,
        "libwasi-"@,
        "libcfg_if-"@,
        "librustc_demangle-"@,
        "libstd_detect-"@,
        "libhashbrown-"@,
        "librustc_std_workspace_alloc-"@,
        "libminiz_oxide-"@,
        "libadler2-"@,
        "libunwind-"@,
        "liblibc-"@,
        "librustc_std_workspace_core-"@,
        "liballoc-"@,
        "libcore-"@,
        "libcompiler_builtins-"@,
    ]
}

/// The first of `names` that begins with `prefix` and ends with `.rlib`.
pub open spec fn first_rlib(names: Seq<Seq<char>>, prefix: Seq<char>) -> Option<Seq<char>>
    decreases names.len(),
{
    if names.len() == 0 {
        None
    } else if has_prefix(names[0], prefix) && has_suffix(names[0], ".rlib"@) {
        Some(names[0])
    } else {
        first_rlib(names.drop_first(), prefix)
    }
}

/// The rlib paths for `prefixes`, in order, or the error for the first
/// prefix no name matches.
pub open spec fn rlibs_for(names: Seq<Seq<char>>, prefixes: Seq<Seq<char>>) -> Result<
    Seq<Seq<char>>,
    Seq<char>,
>
    decreases prefixes.len(),
{
    if prefixes.len() == 0 {
        Ok(Seq::empty())
    } else {
        match first_rlib(names, prefixes[0]) {
            None => Err("missing rlib for prefix "@ + prefixes[0]),
            Some(n) => match rlibs_for(names, prefixes.drop_first()) {
                Ok(rest) => Ok(seq!["/lib/rustlib/wasm32-wasip1/lib/"@ + n] + rest),
                Err(e) => Err(e),
            },
        }
    }
}

fn find_rlib(names: &Vec<String>, prefix: &str) -> (r: Option<usize>)
    ensures
        match r {
            Some(i) => i < names@.len() && first_rlib(views(names@), prefix@) == Some(
                names@[i as int]@,
            ),
            None => first_rlib(views(names@), prefix@) is None,
        },
{
    let ghost ns = views(names@);
    let mut i: usize = 0;
    assert(ns.skip(0) =~= ns);
    while i < names.len()
        invariant
            ns == views(names@),
            i <= names@.len(),
            first_rlib(ns, prefix@) == first_rlib(ns.skip(i as int), prefix@),
        decreases names.len() - i,
    {
        assert(ns.skip(i as int).drop_first() =~= ns.skip(i + 1));
        assert(ns.skip(i as int)[0] == names@[i as int]@);
        if starts_with(names[i].as_str(), prefix) && ends_with(names[i].as_str(), ".rlib") {
            return Some(i);
        }
        i = i + 1;
    }
    assert(ns.skip(i as int).len() == 0);
    None
}

/// The rlib paths in link order, or the message for the first prefix that
/// no name has.
fn lookup_rust_rlibs(names: &Vec<String>) -> (r: Result<Vec<String>, String>)
    ensures
        match (r, rlibs_for(views(names@), rlib_prefixes())) {
            (Ok(v), Ok(w)) => views(v@) == w,
            (Err(e), Err(w)) => e@ == w,
            _ => false,
        },
{
    let prefixes: [&str; 16] = [
        "libpanic_abort-",
        "libstd-",
        "libwasi-",
        "libcfg_if-",
        "librustc_demangle-",
        "libstd_detect-",
        "libhashbrown-",
        "librustc_std_workspace_alloc-",
        "libminiz_oxide-",
        "libadler2-",
        "libunwind-",
        "liblibc-",
        "librustc_std_workspace_core-",
        "liballoc-",
        "libcore-",
        "libcompiler_builtins-",
    ];
    let ghost ps = rlib_prefixes();
    assert(lit_views(prefixes@) =~= ps);
    let ghost ns = views(names@);
    let mut out: Vec<String> = Vec::new();
    let mut i: usize = 0;
    assert(ps.skip(0) =~= ps);
    assert(views(out@) + Seq::<Seq<char>>::empty() =~= views(out@));
    while i < 16
        invariant
            ps == rlib_prefixes(),
            lit_views(prefixes@) == ps,
            ns == views(names@),
            i <= 16,
            rlibs_for(ns, ps) == match rlibs_for(ns, ps.skip(i as int)) {
                Ok(rest) => Ok(views(out@) + rest),
                Err(e) => Err::<Seq<Seq<char>>, Seq<char>>(e),
            },
        decreases 16 - i,
    {
        assert(ps.skip(i as int).drop_first() =~= ps.skip(i + 1));
        assert(ps.skip(i as int)[0] == prefixes@[i as int]@);
        let prefix = prefixes[i];
        match find_rlib(names, prefix) {
            Some(k) => {
                let path = concat("/lib/rustlib/wasm32-wasip1/lib/", names[k].as_str());
                let ghost before = views(out@);
                proof {
                    crate::text::lemma_views_push(out@, path);
                }
                out.push(path);
                proof {
                    match rlibs_for(ns, ps.skip(i + 1)) {
                        Ok(rest) => {
                            assert(views(out@) + rest =~= before + (seq![path@] + rest));
                        },
                        Err(_) => {},
                    }
                }
            },
            None => {
                return Err(concat("missing rlib for prefix ", prefix));
            },
        }
        i = i + 1;
    }
    assert(ps.skip(16) =~= Seq::<Seq<char>>::empty());
    assert(views(out@) + Seq::<Seq<char>>::empty() =~= views(out@));
    Ok(out)
}

/// The paths of the sysroot rlibs to link, chosen among the names in the
/// sysroot's library directory: for each prefix in link order, the first
/// name with that prefix and the `.rlib` extension.  Every prefix must
/// have such a name (see [`missing_rlib`]).
pub fn find_rust_rlibs(names: &Vec<String>) -> (r: Vec<String>)
    requires
        rlibs_for(views(names@), rlib_prefixes()) is Ok,
    ensures
        rlibs_for(views(names@), rlib_prefixes()) == Ok::<Seq<Seq<char>>, Seq<char>>(views(r@)),
{
    match lookup_rust_rlibs(names) {
        Ok(v) => v,
        Err(_) => Vec::new(),
    }
}

/// The message for the first link-order prefix that no name in the
/// listing has (with the `.rlib` extension), `None` when every prefix has
/// one, so that [`find_rust_rlibs`] may be called.
pub fn missing_rlib(names: &Vec<String>) -> (r: Option<String>)
    ensures
        match (r, rlibs_for(views(names@), rlib_prefixes())) {
            (None, Ok(_)) => true,
            (Some(e), Err(w)) => e@ == w,
            _ => false,
        },
{
    match lookup_rust_rlibs(names) {
        Ok(_) => None,
        Err(e) => Some(e),
    }
}

/// The parent of a path, as `Path::parent` finds it, left uninterpreted.
pub uninterp spec fn path_parent_text(p: Seq<char>) -> Option<Seq<char>>;

/// The parent directory of `p`, with `std::path::Path::parent`.  The
/// contract claims only that the result is a function of the path
/// (`path_parent_text`); which prefix it is, is left unsaid.
#[verifier::external_body]
fn path_parent(p: &str) -> (r: Option<String>)
    ensures
        match r {
            Some(d) => path_parent_text(p@) == Some(d@),
            None => path_parent_text(p@) is None,
        },
{
    match std::path::Path::new(p).parent() {
        Some(d) => Some(d.to_string_lossy().into_owned()),
        None => None,
    }
}

/// The directory of a Rust source, where rustc leaves its objects (`/`
/// when the path has no parent).
pub open spec fn source_dir(source: Seq<char>) -> Seq<char> {
    match path_parent_text(source) {
        Some(d) => d,
        None => "/"@,
    }
}

/// The directory of a Rust source, where rustc leaves its objects.
pub fn rust_source_dir(source: &str) -> (r: String)
    ensures
        r@ == source_dir(source@),
{
    match path_parent(source) {
        Some(d) => d,
        None => owned("/"),
    }
}

/// The codegen-unit objects among the names of the source's directory:
/// those that begin with the source's stem and end with `.rcgu.o`, as
/// paths in that directory, in order.
pub open spec fn rcgu_objs(dir: Seq<char>, stem: Seq<char>, names: Seq<Seq<char>>) -> Seq<Seq<char>>
    decreases names.len(),
{
    if names.len() == 0 {
        Seq::empty()
    } else {
        let rest = rcgu_objs(dir, stem, names.drop_last());
        if has_prefix(names.last(), stem) && has_suffix(names.last(), ".rcgu.o"@) {
            rest.push(dir + "/"@ + names.last())
        } else {
            rest
        }
    }
}

/// The objects rustc made for `source`: its object file, then, when the
/// directory could be listed, the codegen units found there.
pub open spec fn rust_objs(source: Seq<char>, listing: Option<Seq<Seq<char>>>) -> Seq<Seq<char>> {
    seq![rust_obj(source)] + match listing {
        Some(names) => rcgu_objs(
            source_dir(source),
            match file_stem(source) {
                Some(s) => s,
                None => Seq::empty(),
            },
            names,
        ),
        None => Seq::empty(),
    }
}

/// The objects rustc made for `source`, given the names in its directory
/// (`None` when the directory could not be read).
pub fn collect_rust_objs(source: &str, listing: &Option<Vec<String>>) -> (r: Vec<String>)
    ensures
        views(r@) == rust_objs(
            source@,
            match listing {
                Some(v) => Some(views(v@)),
                None => None,
            },
        ),
{
    let obj = rust_obj_path(source);
    let mut objs: Vec<String> = Vec::new();
    proof {
        crate::text::lemma_views_push(objs@, obj);
    }
    objs.push(obj);
    match listing {
        None => {
            assert(views(objs@) =~= seq![rust_obj(source@)] + Seq::<Seq<char>>::empty());
            objs
        },
        Some(names) => {
            let dir = rust_source_dir(source);
            let stem = match path_file_stem(source) {
                Some(s) => s,
                None => String::new(),
            };
            let ghost ns = views(names@);
            let mut i: usize = 0;
            while i < names.len()
                invariant
                    ns == views(names@),
                    i <= ns.len(),
                    views(objs@) == seq![rust_obj(source@)] + rcgu_objs(dir@, stem@, ns.take(i as int)),
                decreases names.len() - i,
            {
                assert(ns.take(i + 1).drop_last() =~= ns.take(i as int));
                assert(ns.take(i + 1).last() == names@[i as int]@);
                let name = names[i].as_str();
                if starts_with(name, stem.as_str()) && ends_with(name, ".rcgu.o") {
                    let path = concat3(dir.as_str(), "/", name);
                    let ghost before = views(objs@);
                    proof {
                        crate::text::lemma_views_push(objs@, path);
                    }
                    objs.push(path);
                    assert(views(objs@) =~= seq![rust_obj(source@)] + rcgu_objs(
                        dir@,
                        stem@,
                        ns.take(i + 1),
                    ));
                }
                i = i + 1;
            }
            assert(ns.take(ns.len() as int) =~= ns);
            objs
        },
    }
}


/// Where a build stands.
#[derive(Clone, Copy, PartialEq, Eq, Structural, Debug)]
pub enum BuildStage {
    /// Compiling the source at `index` (in sorted order).
    Compile { index: usize },
    /// Linking the objects into `/main.wasm`.
    Link,
    /// Running `/main.wasm`.
    Run,
    /// Done: the worker reports `exit_code`.
    Stopped { exit_code: i32 },
}

/// The stage after `stage` once its step exited: a failed compile or link
/// stops the build with the step's exit code; after the last compile
/// comes the link, after the link the run, and the run's exit code is the
/// program's.
pub open spec fn next_stage_spec(stage: BuildStage, n_sources: nat, success: bool, exit_code: i32) -> BuildStage {
    match stage {
        BuildStage::Compile { index } => if !success {
            BuildStage::Stopped { exit_code }
        } else if index + 1 < n_sources {
            BuildStage::Compile { index: (index + 1) as usize }
        } else {
            BuildStage::Link
        },
        BuildStage::Link => if !success {
            BuildStage::Stopped { exit_code }
        } else {
            BuildStage::Run
        },
        BuildStage::Run => BuildStage::Stopped { exit_code },
        BuildStage::Stopped { exit_code: e } => BuildStage::Stopped { exit_code: e },
    }
}

/// The stage after a step exited.
pub fn next_stage(stage: BuildStage, n_sources: usize, success: bool, exit_code: i32) -> (r:
    BuildStage)
    ensures
        r == next_stage_spec(stage, n_sources as nat, success, exit_code),
{
    match stage {
        BuildStage::Compile { index } => if !success {
            BuildStage::Stopped { exit_code }
        } else if index < n_sources && index + 1 < n_sources {
            BuildStage::Compile { index: index + 1 }
        } else {
            BuildStage::Link
        },
        BuildStage::Link => if !success {
            BuildStage::Stopped { exit_code }
        } else {
            BuildStage::Run
        },
        BuildStage::Run => BuildStage::Stopped { exit_code },
        BuildStage::Stopped { exit_code: e } => BuildStage::Stopped { exit_code: e },
    }
}

/// The stage reached from `stage` after steps that exited as `exits`
/// (success flag and exit code), in order.
pub open spec fn run_stages(stage: BuildStage, n_sources: nat, exits: Seq<(bool, i32)>) -> BuildStage
    decreases exits.len(),
{
    if exits.len() == 0 {
        stage
    } else {
        run_stages(
            next_stage_spec(stage, n_sources, exits[0].0, exits[0].1),
            n_sources,
            exits.drop_first(),
        )
    }
}

/// A build whose compiles and link all succeed runs the program, and
/// stops with the program's exit code: `n` compiles, a link and a run.
pub proof fn law_successful_build_reports_program_exit(n: nat, exits: Seq<(bool, i32)>)
    requires
        0 < n <= usize::MAX,
        exits.len() == n + 2,
        forall|i: int| 0 <= i <= n ==> #[trigger] exits[i].0,
    ensures
        run_stages(BuildStage::Compile { index: 0 }, n, exits) == (BuildStage::Stopped {
            exit_code: exits[n as int + 1].1,
        }),
{
    lemma_compiles_succeed(n, 0, exits);
    assert(exits.skip(0) =~= exits);
    let rest = exits.skip(n as int);
    assert(rest[0] == exits[n as int]);
    let r1 = rest.drop_first();
    assert(r1[0] == exits[n as int + 1]);
    assert(r1.drop_first().len() == 0);
    assert(run_stages(BuildStage::Link, n, rest) == run_stages(BuildStage::Run, n, r1));
    assert(run_stages(BuildStage::Run, n, r1) == run_stages(
        BuildStage::Stopped { exit_code: exits[n as int + 1].1 },
        n,
        r1.drop_first(),
    ));
}

proof fn lemma_compiles_succeed(n: nat, k: nat, exits: Seq<(bool, i32)>)
    requires
        k < n <= usize::MAX,
        exits.len() >= n,
        forall|i: int| 0 <= i < n ==> #[trigger] exits[i].0,
    ensures
        run_stages(BuildStage::Compile { index: k as usize }, n, exits.skip(k as int)) == run_stages(
            BuildStage::Link,
            n,
            exits.skip(n as int),
        ),
    decreases n - k,
{
    let s = exits.skip(k as int);
    assert(s[0] == exits[k as int]);
    assert(s.drop_first() =~= exits.skip(k as int + 1));
    assert(exits[k as int].0);
    if k + 1 < n {
        assert(next_stage_spec(BuildStage::Compile { index: k as usize }, n, true, s[0].1) == (
        BuildStage::Compile { index: (k + 1) as usize }));
        lemma_compiles_succeed(n, k + 1, exits);
    } else {
        assert(next_stage_spec(BuildStage::Compile { index: k as usize }, n, true, s[0].1)
            == BuildStage::Link);
    }
}

/// A build stops with the exit code of its first failing compile or link.
pub proof fn law_failed_step_stops_build(n: nat, exits: Seq<(bool, i32)>, k: nat)
    requires
        0 < n <= usize::MAX,
        k <= n,
        exits.len() == k + 1,
        forall|i: int| 0 <= i < k ==> #[trigger] exits[i].0,
        !exits[k as int].0,
    ensures
        run_stages(BuildStage::Compile { index: 0 }, n, exits) == (BuildStage::Stopped {
            exit_code: exits[k as int].1,
        }),
{
    assert(exits.skip(0) =~= exits);
    let s = exits.skip(k as int);
    assert(s[0] == exits[k as int]);
    assert(s.drop_first().len() == 0);
    if k < n {
        lemma_compiles_until(n, 0, k, exits);
        assert(run_stages(BuildStage::Compile { index: k as usize }, n, s) == run_stages(
            BuildStage::Stopped { exit_code: exits[k as int].1 },
            n,
            s.drop_first(),
        ));
    } else {
        lemma_compiles_succeed(n, 0, exits);
        assert(run_stages(BuildStage::Link, n, s) == run_stages(
            BuildStage::Stopped { exit_code: exits[k as int].1 },
            n,
            s.drop_first(),
        ));
    }
}

proof fn lemma_compiles_until(n: nat, j: nat, k: nat, exits: Seq<(bool, i32)>)
    requires
        j <= k < n <= usize::MAX,
        exits.len() > k,
        forall|i: int| 0 <= i < k ==> #[trigger] exits[i].0,
    ensures
        run_stages(BuildStage::Compile { index: j as usize }, n, exits.skip(j as int)) == run_stages(
            BuildStage::Compile { index: k as usize },
            n,
            exits.skip(k as int),
        ),
    decreases k - j,
{
    if j < k {
        let s = exits.skip(j as int);
        assert(s[0] == exits[j as int]);
        assert(exits[j as int].0);
        assert(s.drop_first() =~= exits.skip(j as int + 1));
        assert(next_stage_spec(BuildStage::Compile { index: j as usize }, n, true, s[0].1) == (
        BuildStage::Compile { index: (j + 1) as usize }));
        lemma_compiles_until(n, j + 1, k, exits);
    }
}

/// One step the worker runs.
#[derive(Debug)]
pub struct StepSpec {
    /// The step's name, as shown to the user.
    pub name: String,
    /// Where the program to run comes from.
    pub binary: String,
    pub args: Vec<String>,
    /// The archive to unpack as the root filesystem, for the first step
    /// of a toolchain.
    pub sysroot: Option<String>,
    /// Whether the user's files are mounted for this step (the first step
    /// only: the filesystem is handed over once).
    pub with_user_fs: bool,
    /// Whether the program runs under the debugger.
    pub debug: bool,
    /// Environment variables set for the step, in order.
    pub envs: Vec<(String, String)>,
    /// Where the debug device file is mounted, for a Python run under the
    /// debugger.
    pub device_path: Option<String>,
}

/// Step `index` of a C++ build: clang compiling that source to `<source>.o`.
pub fn cpp_compile_step(sources: &Vec<String>, index: usize, is_debug: bool) -> (r: StepSpec)
    requires
        index < sources@.len(),
    ensures
        r.envs@.len() == 0,
        r.device_path is None,
        r.name@ == "clang"@,
        r.binary@ == CPP_WASM_URL@,
        views(r.args@) == clang_args_spec(sources@[index as int]@, sources@[index as int]@ + ".o"@, is_debug),
        index == 0 ==> (r.sysroot matches Some(s) && s@ == CPP_STDLIB_URL@),
        index != 0 ==> r.sysroot is None,
        r.with_user_fs == (index == 0),
        !r.debug,
{
    let source = sources[index].as_str();
    let obj = concat(source, ".o");
    let args = clang_args(source, obj.as_str(), is_debug);
    StepSpec {
        name: owned("clang"),
        binary: owned(CPP_WASM_URL),
        args,
        sysroot: if index == 0 {
            Some(owned(CPP_STDLIB_URL))
        } else {
            None
        },
        with_user_fs: index == 0,
        debug: false,
        envs: Vec::new(),
        device_path: None,
    }
}

/// The objects of a C++ build: `<source>.o` for each source.
pub open spec fn cpp_objs(sources: Seq<Seq<char>>) -> Seq<Seq<char>> {
    Seq::new(sources.len(), |i: int| sources[i] + ".o"@)
}

/// The link step of a C++ build: wasm-ld over every source's object.
pub fn cpp_link_step(sources: &Vec<String>) -> (r: StepSpec)
    ensures
        r.envs@.len() == 0,
        r.device_path is None,
        r.name@ == "wasm-ld"@,
        r.binary@ == CPP_WASM_URL@,
        views(r.args@) == cpp_link_args_spec(cpp_objs(views(sources@))),
        r.sysroot is None,
        !r.with_user_fs,
        !r.debug,
{
    let mut objs: Vec<String> = Vec::new();
    let mut i: usize = 0;
    while i < sources.len()
        invariant
            i <= sources@.len(),
            objs@.len() == i,
            forall|j: int| 0 <= j < i ==> #[trigger] objs@[j]@ == sources@[j]@ + ".o"@,
        decreases sources.len() - i,
    {
        objs.push(concat(sources[i].as_str(), ".o"));
        i = i + 1;
    }
    assert(views(objs@) =~= cpp_objs(views(sources@)));
    StepSpec {
        name: owned("wasm-ld"),
        binary: owned(CPP_WASM_URL),
        args: cpp_link_args(&objs),
        sysroot: None,
        with_user_fs: false,
        debug: false,
        envs: Vec::new(),
        device_path: None,
    }
}

/// Step `index` of a Rust build: rustc compiling that source.
pub fn rust_compile_step(sources: &Vec<String>, index: usize, is_debug: bool) -> (r: StepSpec)
    requires
        index < sources@.len(),
    ensures
        r.envs@.len() == 0,
        r.device_path is None,
        r.name@ == "rustc"@,
        r.binary@ == RUSTC_WASM_URL@,
        views(r.args@) == rustc_args_spec(sources@[index as int]@, rust_obj(sources@[index as int]@), is_debug),
        index == 0 ==> (r.sysroot matches Some(s) && s@ == RUST_SYSROOT_URL@),
        index != 0 ==> r.sysroot is None,
        r.with_user_fs == (index == 0),
        !r.debug,
{
    let source = sources[index].as_str();
    let obj = rust_obj_path(source);
    let args = rustc_args(source, obj.as_str(), is_debug);
    StepSpec {
        name: owned("rustc"),
        binary: owned(RUSTC_WASM_URL),
        args,
        sysroot: if index == 0 {
            Some(owned(RUST_SYSROOT_URL))
        } else {
            None
        },
        with_user_fs: index == 0,
        debug: false,
        envs: Vec::new(),
        device_path: None,
    }
}

/// The link step of a Rust build: wasm-ld over the objects of every
/// source (see [`collect_rust_objs`]) and the sysroot's rlibs.
pub fn rust_link_step(objs: &Vec<String>, rlibs: &Vec<String>) -> (r: StepSpec)
    ensures
        r.envs@.len() == 0,
        r.device_path is None,
        r.name@ == "wasm-ld"@,
        r.binary@ == CPP_WASM_URL@,
        views(r.args@) == rust_link_args_spec(views(objs@), views(rlibs@)),
        r.sysroot is None,
        !r.with_user_fs,
        !r.debug,
{
    StepSpec {
        name: owned("wasm-ld"),
        binary: owned(CPP_WASM_URL),
        args: rust_link_args(objs, rlibs),
        sysroot: None,
        with_user_fs: false,
        debug: false,
        envs: Vec::new(),
        device_path: None,
    }
}

/// The last step of a build: running `/main.wasm`, under the debugger in
/// a debug build.
pub fn run_step(is_debug: bool) -> (r: StepSpec)
    ensures
        r.envs@.len() == 0,
        r.device_path is None,
        r.name@ == "main"@,
        r.binary@ == run_binary(),
        r.args@.len() == 0,
        r.sysroot is None,
        !r.with_user_fs,
        r.debug == is_debug,
{
    StepSpec {
        name: owned("main"),
        binary: owned("/main.wasm"),
        args: Vec::new(),
        sysroot: None,
        with_user_fs: false,
        debug: is_debug,
        envs: Vec::new(),
        device_path: None,
    }
}

/// The step that runs a Python program: the interpreter over the user's
/// files, starting `/_bridge.py` (which runs `/main.py` under Bdb) in a
/// debug run and `/main.py` otherwise.
pub fn python_step(is_debug: bool) -> (r: StepSpec)
    ensures
        r.name@ == "python"@,
        r.binary@ == PYTHON_WASM_URL@,
        r.sysroot matches Some(s) && s@ == PYTHON_STDLIB_URL@,
        r.with_user_fs,
        !r.debug,
        views(r.args@) == if is_debug {
            seq!["/_bridge.py"@]
        } else {
            seq!["/main.py"@]
        },
        r.envs@.len() == 2,
        r.envs@[0].0@ == "PYTHONUNBUFFERED"@ && r.envs@[0].1@ == "1"@,
        r.envs@[1].0@ == "PYTHONDONTWRITEBYTECODE"@ && r.envs@[1].1@ == "1"@,
        is_debug ==> (r.device_path matches Some(p) && p@ == "/__debug__"@),
        !is_debug ==> r.device_path is None,
{
    let mut args: Vec<String> = Vec::new();
    let a = if is_debug {
        owned("/_bridge.py")
    } else {
        owned("/main.py")
    };
    proof {
        crate::text::lemma_views_push(args@, a);
    }
    args.push(a);
    assert(views(args@) =~= seq![a@]);
    let mut envs: Vec<(String, String)> = Vec::new();
    envs.push((owned("PYTHONUNBUFFERED"), owned("1")));
    envs.push((owned("PYTHONDONTWRITEBYTECODE"), owned("1")));
    StepSpec {
        name: owned("python"),
        binary: owned(PYTHON_WASM_URL),
        args,
        sysroot: Some(owned(PYTHON_STDLIB_URL)),
        with_user_fs: true,
        debug: false,
        envs,
        device_path: if is_debug {
            Some(owned("/__debug__"))
        } else {
            None
        },
    }
}

} // verus!
