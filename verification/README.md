# fed

`fed` is a small modal text editor drawn with skia that talks to a
language server. This crate holds its editing core, written in Verus and
verified: every function in `src/` carries a contract that Verus proves.

## Layout

- `src/model/`: locations, selections and the line-based text model
  (`text_model.rs`), the tests of when an edit can be made
  (`text_checks.rs`), the laws that tie the edits together
  (`text_laws.rs`), an open file with its undo history (`open_file.rs`),
  and the editor state (`editor_state.rs`).
- `src/input/`: the modal input machine that turns typed chars into editor
  actions.
- `src/gui/`: what the widgets decide on an event: the edits an action
  makes, the keys of the editor and of the file tree, the focus of a row
  of widgets.
- `src/lsp/`: language server requests, the client, and the framing of
  messages (`Content-Length` headers).
- `src/utf8_text.rs`: lines as chars whose columns count UTF-8 bytes.
- `src/ext/`: the declarations and contracts of the calls made into `im`,
  `smallvec` and parts of `std` that Verus has no specification for.
- `tests/`: tests of the library on concrete values.
- `app/`: the program around the library: command line, window and
  drawing, clipboard, files, and the language server process.
