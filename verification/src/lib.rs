//! A Debug Adapter Protocol engine for programs compiled to WebAssembly:
//! the protocol session, the Python and DWARF debugger back ends, the
//! type graph read from DWARF, value formatters, and the build pipeline
//! that the worker runs.
pub mod text;
pub mod dap;
pub mod python;
pub mod debug;
pub mod worker;

use vstd::prelude::*;

verus! {

/// The runtime assets of a language, binary then sysroot, for the host to
/// warm into its cache before running: Python's interpreter and standard
/// library, or (`c`) the LLVM toolchain and its resources; none for any
/// other language.
pub fn prefetch_urls(lang: &str) -> (r: Vec<String>)
    ensures
        crate::text::views(r@) == if lang@ == "python"@ {
            seq![worker::steps::PYTHON_WASM_URL@, worker::steps::PYTHON_STDLIB_URL@]
        } else if lang@ == "c"@ {
            seq![worker::steps::CPP_WASM_URL@, worker::steps::CPP_STDLIB_URL@]
        } else {
            Seq::empty()
        },
{
    let mut r: Vec<String> = Vec::new();
    if text::str_eq(lang, "python") {
        r.push(text::owned(worker::steps::PYTHON_WASM_URL));
        r.push(text::owned(worker::steps::PYTHON_STDLIB_URL));
    } else if text::str_eq(lang, "c") {
        r.push(text::owned(worker::steps::CPP_WASM_URL));
        r.push(text::owned(worker::steps::CPP_STDLIB_URL));
    }
    assert(crate::text::views(r@) =~= if lang@ == "python"@ {
        seq![worker::steps::PYTHON_WASM_URL@, worker::steps::PYTHON_STDLIB_URL@]
    } else if lang@ == "c"@ {
        seq![worker::steps::CPP_WASM_URL@, worker::steps::CPP_STDLIB_URL@]
    } else {
        Seq::empty()
    });
    r
}

} // verus!
