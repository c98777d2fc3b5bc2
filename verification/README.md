# fresh

The core of a terminal text editor, written in Verus: cursors and
selections, viewport scrolling, view-line layout and navigation, rendering
plans for split panes and side-by-side diff views, overlays and LSP
diagnostics, syntax-highlight span handling over syntect, an in-memory
filesystem, the browser editor's buffer, and the TypeScript definitions of
the plugin API.

- `src/` is the verified library. Public functions state their results in
  `ensures`, except where the result is an outside value that nothing
  documents (`compute_diagnostic_hash`, a std hash); laws that relate several
  functions are `law_*` proof functions.
  Calls into std and syntect sit behind small trusted wrappers whose doc
  comments say what is assumed of them.
- Not part of this project: the JavaScript plugin runtime (the QuickJS
  bindings), bundling and transpiling of TypeScript plugins, and checking a
  theme against its JSON schema. Theme validation here covers its first step:
  text that is not JSON gets the invalid-JSON result. The in-memory
  filesystem's "does this path exist" query is `path_exists`.
- `tests/` runs the library on concrete values.
- `app/` holds what the library leaves to its host: the `std::fs`
  filesystem, theme files on disk, drawing on a ratatui frame, the browser
  editor's entry points, and process-wide switches.
