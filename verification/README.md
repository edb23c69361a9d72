# jisho

A tray dictionary for Japanese: press Control+D over selected text, and a
popup shows the entries that the jisho.org word search returns for it.

- `src/` is the verified library: the parsing of a search reply with the
  `json` crate and the model of its document (`document`), the entries read out of it (`dictionary`), the UTF-16 text
  the controls show (`wide`), the popup's layout in pixels (`layout`), the
  popup's state, buttons, fading and messages (`popup`), the main window's
  shortcut, search request and messages (`tray`, `messages`), and the
  conversion of the resource header (`resource_header`).
- `app/` is the Windows program around it: windows, the tray icon, the
  clipboard, and the HTTP request. It links the static resource library
  `jisho` (pass its directory with `-L native=resources`);
  `jisho --gen-resources HEADER OUT` writes `app/resources.rs` from the
  resource script's header.
- `tests/` runs the library on concrete values.
