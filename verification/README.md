# linux_input

A global dictation hotkey for Linux, with its decisions verified by Verus.

Holding the trigger records, letting it go finishes, two quick taps lock the
recording until the next press, and Escape cancels. Another client may hold
Escape; dictation then works without Escape-cancel.

- `src/` is the verified library.
  - `listener`: the state machine, from what happened to what to do next.
  - `runs`, `laws`: what holds of every run of it.
  - `gestures`: what holding, tapping and cancelling lead to.
  - `keysym`, `keymap`: from key names to keysyms, keycodes and modifiers.
  - `grab`: the masks to grab a key under, and what a refusal means.
  - `event`, `startup`, `error`: delivery of events, reports and errors.
  - `x11`: what is used, and trusted, of `x11rb`.
- `app/` talks to the X server, the clock and the threads.
- `tests/` runs the library.
