# domius

A reactive UI toolkit whose logic is written in Verus and proved against its
contracts.

- `src/runtime.rs`, `src/signal.rs`, `src/computed.rs`: signals, effects,
  scopes, batching and derived values, over an explicit `Runtime` value.
- `src/codegen.rs`, `src/rsx.rs`: what the `domus!` macro decides: captured
  identifiers, generated variable names, listener types, and the plan of the
  code a tree expands to.
- `src/css_scoper.rs`, `src/scaffold.rs`: scoped CSS and project scaffolding
  for the command-line tool.
- `src/desktop/`: component windows, scope disposal, the context registry and
  the event bridge.
- `src/web/`: the component library's state, class names, labels, paging,
  sorting and filtering.
- `src/text.rs`: string helpers shared by the above.

`app/` holds what stays outside the proofs: the command-line entry point, the
DOM building on `web_sys`, serde copies of the desktop types, the token side of
the macro, and drawing that works in floating point.
