# myr

Myr is a Hyprland companion: a daemon that captures voice or takes text,
sends it with the list of open windows to the Saga voice API, and carries out
the window commands that come back (`FOCUS`, `MOVE`, `RESIZE`, `CLOSE`,
`FULLSCREEN`, `SWAP`).

## Layout

- `src/` is the verified library (Verus):
  - `dsl.rs`: the command language, its parser and the Hyprland dispatches;
  - `session.rs`: how one message is handled, as a state machine whose
    step takes what the last call answered and names the next call (with
    its arguments) or the outcome;
  - `daemon.rs`: the socket protocol, and the daemon that makes the calls
    the machine names on its parts and records each with its answer;
  - `client.rs`, `hyprland.rs`, `audio.rs`, `notify.rs`: the interfaces to
    the server, the compositor, the microphone and the desktop, and the
    computations on what they return;
  - `config.rs`, `tunnel.rs`, `cli.rs`: configuration defaults, the steps
    that set up the SSH tunnel, and what the command-line client prints;
  - `text.rs`, `json.rs`: whitespace, lines, words, paths, and the JSON
    members that the library reads;
  - `laws.rs`: properties that span several functions.
- `app/` is the program around it: argument handling, environment
  variables, sockets, processes, HTTP and the audio device.
- `tests/` holds the tests.
