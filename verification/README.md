# submarine

The verified core of a cooperative multiplayer submarine game, in which up to
five players crew one boat (captain, pilot, sonar, engineer, weapons officer)
and free stations are kept by bots.

`src/` is a Verus library; every function in it carries a contract that Verus
proves:

- `crew`, `text`: the stations and reading a role from a name or a URL query,
  ignoring ASCII case.
- `protocol`, `room_code`: identifiers, lobby commands and snapshots, protocol
  errors, six-digit room codes.
- `keyed`, `lobby`: the server's room registry, modelled as a map from room
  code to room; unique stations per room, readiness, mission start, leaving,
  and the laws that hold of every registry.
- `policy`: which station may give which order, the pilot bot's orders, and
  which measurements each station receives.
- `submarine`, `alerts`: the propulsion switchboard and its air-intake rule,
  edge-triggered alarms.
- `evidence`, `tracks`: the sonar's track book and contact classification.
- `client`, `hud`, `labels`: the client's session state machine, keyboard
  and button handling, panel visibility, and every text it shows.

`app/` is the WebSocket server around the library: message encoding, the
asynchronous connection handling, and the floating-point parts the library
does not hold: the simulation of the boat, the convoy and what the sonar hears
of it with the measured side of the tracks, and the client's ordered values,
readings and layout breakpoints. The client's floating-point side is
compiled with the server but not run by it: the browser client itself, a
Bevy program over a WebSocket, is not part of this crate, and its logic
(session state, keys and buttons, panels, texts) is the library's `client`,
`hud` and `labels` modules. `tests/` exercises the library.
