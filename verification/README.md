# android_sender

The node graph of the Android sender: sources, video generators, mixers and
destinations that are created, linked, scheduled and controlled by JSON
commands, with the HTTP command endpoint that carries them.

- `src/` is the library, verified with Verus: the graph (`node_manager`), its
  nodes and their schedules (`nodes`, `schedule`), control points (`control`),
  the protocol types (`protocol`, `value`, `table`, `strset`), the HTTP
  request reader and answers (`runtime`), the plans of the nodes' live media
  pipelines and what the host does with them (`pipeline`, `live_media`), the
  screen frame layout (`frames`) and the sender's small helpers (`sender`).
- `tests/` runs the library on concrete cases.
- `app/` is the host: the JSON wire format (serde), the threads and TCP
  endpoint that serve the graph, the UI self-tests, and, on Android, the
  GStreamer pipelines built from the library's plans and the Java entry
  points.

The casting application around the graph is not part of this crate: the
Slint user interface, the session with a receiver, and the Java callbacks for
discovered receivers, screen capture and QR scans that drive them. They rest on
the FCast sender SDK and the Slint UI definitions, which this crate does not
depend on. What they decide on plain values stands in `src/sender.rs`: the
addresses a discovered receiver is announced with, the status items, the
capture switch and the frame checks (`src/frames.rs`).
