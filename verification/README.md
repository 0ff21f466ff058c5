# instant_replay

An instant-replay appliance for live sport: a capture card or webcam feeds a
live program output, the last few tens of seconds are kept in a rolling buffer
of short video chunks, and the operator can mark a moment and replay from the
mark (or replay the last seconds) before returning to live.

## Layout

- `src/` — the library, verified with Verus. It holds the replay state machine
  (`fsm`, `engine`), the rolling chunk index and its timeline (`buffer`,
  `chunk_index_actor`), capture device and mode selection (`capture_select`,
  `format_probe`, `device_monitor`, `device_watch`), the pipeline descriptions
  (`pipeline`, `capture_source`, `capture_control`), configuration defaults and
  parsing (`config`, `hotkeys`, `launch`), and the operator and setup panel rules
  (`operator_ui`, `setup_panel`, `gates`, `displays`, `storage_monitor`).
  Laws of the library are public proof functions named `law_*`.
- `tests/` — tests of the library on concrete values.
- `app/` — the program around the library: command line, configuration files,
  GStreamer pipelines, the chunk-index worker thread, global hotkeys, the HTTP
  API and logging.
