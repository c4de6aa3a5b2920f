# vallam

A floating window manager for Wayland, built on the swc compositor library.

The decisions of the window manager are a Verus-verified library (`src/`):

- `swc` — the plain data of the compositor interface (rectangles, screens,
  binding kinds, key and modifier codes).
- `geometry` — coordinate arithmetic: placement size and offset, centring,
  keyboard moves and resizes, all wrapping in `i32` as the compositor does.
- `idlist` — ordered lists of window identifiers.
- `model` — the manager as seen in contracts: its state, the commands it gives
  the compositor, and what every event does.
- `wm` — the manager itself: each handler takes what the compositor reported,
  updates the state and returns the commands to carry out.
- `text` — the background colour and on/off settings read from text.
- `input` — touchpad configuration and the key and button bindings.
- `laws` — properties that hold across events (focus history, destroying,
  cycling, panning, fullscreen round trips, grabs).

`app/` is the program around it: the C interface of swc, libinput and the
Wayland server, the callbacks that query the compositor, call the library and
carry out its commands, process spawning, and zooming.
