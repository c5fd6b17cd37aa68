# ohua_rs

The Rust backend of [Ohua](https://ohua-dev.github.io/): it turns the dataflow
graph that the `ohuac` compiler produces for an algorithm into Rust code that runs
the graph on threads connected by channels, and provides the operators that the
generated code calls.

The library is written in Verus, and Verus checks every function in `src/`
against its contract. Two kinds of function state less:

- the functions marked `#[verifier::external_body]` call `syn`, `quote`,
  `bit-set` or std's channels, and their contracts are believed, not proved;
- the runtime operators (`smapFun`, `collect`, `select`, `ifFun`,
  `smap_dispatch`, `send_once`, `DispatchQueue::dispatch`) and `parse_module`
  have no contract of their own on what they send, receive or parse, as that
  rests on other threads or on the parser. The decisions they make are
  separate functions with exact contracts (`smap_plan`, `Collector`,
  `select_branch`, `if_signals`, `item_from`).

- `src/codegen/` — the code generator: the graph types, the rewrites of a graph
  (dead ends, environment arcs, control, `nth` and recursion operators), and the
  generated code (channels, tasks, imports) as token sequences.
- `src/runtime/` — the runtime: arcs and the operators of the language.
- `src/legacy/` — the earlier generator, which writes a runtime module from
  templates: type extraction from the modules of the stateful functions, the
  wrapper, cast, module and data files, and the runtime's channel layout.
- `src/text.rs`, `src/template.rs`, `src/seqs.rs`, `src/order.rs` — decimal
  rendering, token sequences, template filling, and sorted, duplicate-free
  sequences.
- `app/` — the `#[ohua]` entry point and everything that touches the file system
  or runs `ohuac`, around the library.
- `tests/` — tests of the library on concrete graphs.
