# micro-gui

Runs a graphical application off-screen (a private Xvfb display, a Docker
container, or a remote agent) and shows it inside a terminal through the Kitty
graphics protocol, sending keyboard and mouse input back.

## Layout

- `src/` is the verified library. Every function carries a contract checked
  by Verus:
  - `protocol/`: the agent/client wire format, its incremental decoder, input
    events and the mapping from terminal cells to display pixels;
  - `renderer/`: RGB frames, cropping, dirty-tile detection and the choice
    between full and tiled updates;
  - `terminal/`: Kitty graphics commands, base64, the tiled canvas and the
    renderer that plans and draws each frame, terminal setup/teardown plans,
    key and mouse translation, the doctor report;
  - `session/`: session records, their text format, ids, where the registry
    lives and how a stop ends, and the lifecycle state machine;
  - `runtime/`: the decisions of the agent, the Docker, native, Wayland and
    remote back ends (arguments, parsing of their replies, handshakes);
  - `display/`: reading X11 visuals and decoding captured pixel values into
    frames;
  - `cli.rs`: command-line parsing, table output, render statistics and the
    terminal session loop's policy (when to capture, resync and quit).
- `app/` is the `micro-gui` program: processes, sockets, files, the terminal
  and X11, driven by the library.
- `tests/` exercises the library on concrete values.
