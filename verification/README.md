# debugger_sh

A Debug Adapter Protocol engine for programs compiled to WebAssembly, with
its logic verified by Verus.

- `src/dap`: the protocol session (sequence numbers, the `initialized`
  handshake, which requests the language back end answers), DAP bodies and
  a plain JSON value type.
- `src/python`: the Python back end (frames reported by the Bdb bridge,
  variable handles, breakpoints, resume commands) and the worker's reader
  of resume payloads.
- `src/debug`: the DWARF back end, the type graph read from debugging
  entries (names, sizes, modifiers) and value formatters.
- `src/worker`: the build pipeline the worker runs: which sources to
  compile, the clang / rustc / wasm-ld arguments, the step sequence and
  the layout of the user's filesystem.
- `app`: the WebAssembly surface (the `DapAdapter` exported to JavaScript),
  JSON (de)serialization and the shared-buffer channel to the Python
  worker.
- `tests`: tests of the library on concrete values.
