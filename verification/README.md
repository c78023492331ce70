# ratty

The logic of a terminal emulator that can show its screen flat, on a warped plane
or on a Mobius strip, written in Verus.

- `src/` is the library. Every function states in its contract what it returns or
  changes, and Verus proves it, except of the few functions that wrap a call into
  an outside crate or the standard library.
  - `keys`, `bindings`, `keyboard`, `key_input`, `paste`: from key events to bound
    actions and terminal input.
  - `mouse`, `selection`, `screen`: mouse reports, text selection and what is read
    from the `vt100` screen.
  - `kitty`, `placeholders`, `inline`, `images`: inline images of the Kitty graphics
    protocol.
  - `config`, `model`, `mesh`, `systems`, `presentation`: rules for configuration,
    assets, index buffers and frames.
  - `text`, `numbers`, `sequences`, `maps`: shared pieces.
- `tests/` runs the library with the real outside crates.
- `app/` is the program around it: arguments, files, the shell, the clipboard, the
  renderer and everything in floating point.

What is taken on trust is marked in `src/`: the calls into `vt100`, `base64` and
`image`, and two functions of the standard library.
