# bevyforge

The core of BevyForge, a two-process editor for the Bevy game engine: the
editor talks to a headless engine process over a length-prefixed TCP link
and keeps its own scene document while the engine is down.

The library (`src/`) is written in Verus and every function in it is
verified against its contract, except four small trusted wrappers in
`clock` around std's system clock (`SystemTime::now`,
`duration_since(UNIX_EPOCH)`, `Duration::as_secs` and
`Duration::subsec_millis`), whose contracts Verus takes on trust:

| module | what it holds |
|---|---|
| `ipc` | the shared vocabulary: mesh primitives, entity and component kinds, fields, log levels, tracks, tonemapping, hierarchy rows |
| `frame` | message framing (`[u32 big-endian length][payload]`), with the round trip of one frame and of a whole stream |
| `undo` | the bounded undo/redo history and its undo/redo laws |
| `names`, `scene` | the offline scene document: positional ids, unique names, spawn, rename, delete of a subtree, duplicate, cycle-safe reparenting, the flattened hierarchy, the save/open round trip of parent links |
| `diagnostics` | the `cargo check` diagnostics model and its counters |
| `runtime`, `lifecycle` | the engine supervisor: binary lookup, backend chain, port handshake, failure reports, and the retry/backoff state machine |
| `paths` | joining paths held as text by the rules of Unix or of Windows |
| `project` | project paths, the manifest defaults and the sorted listing of scene files |
| `editor`, `ui`, `inspector`, `assets`, `report`, `args`, `clock`, `text` | editor rules: log file placement, protocol and frame checks, messages, panel queues, inspector layout, asset browser, the self-test report, the command line, time stamps and the text routines they rest on |

`tests/` exercises the library on concrete values.

`app/` is the program around the library: the command line, the log file,
the TCP transport (postcard), scene files (RON), the manifest (TOML), the
`cargo check` runner (JSON), the engine process and the editor session.
Everything numeric about entities (transforms, colours, light and script
parameters) is floating point and lives there too.

Not built here: the engine runtime itself (the headless Bevy process with
its ECS commands, rendering, frame capture, picking and play-mode scripts),
the egui panels and icons of the desktop editor, and the transform gizmo
math. The editor session runs without a window and works on the offline
document while no engine is connected.
