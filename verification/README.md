# Roof Control Hub

Vision pipeline and controller bridge for roof-alignment bring-up: a USB
camera pipeline estimates the roof grid's alignment, and an HTTP bridge drives
the RP2350 controller over a serial link, logs its telemetry and exports
metrics.

## Layout

- `src/` — the verified library (Verus). It holds the controller protocol
  (which commands may be sent in which mode, what each one changes, how a
  batch is sent), the telemetry parser for the `key:value`, 4-, 14/15- and
  17/18-column streams and how a reading is folded into the snapshot, the
  serial reader's error policy, the startup gate's decisions, the API routing,
  log file naming, listing and download checks, FOURCC codes and the metrics
  sample window. Each public function carries a contract; the `law_*` proof
  functions state the properties that hold across calls.
- `tests/` — tests of the library on concrete values, several against std's
  own parsing, trimming and splitting.
- `app/` — the program around the library: threads, the OpenCV stages, the
  floating-point statistics, Prometheus metrics, the HTTP server and the
  serial port.

Floating-point readings from the controller are kept in the library as their
text, which is always a literal that `f32::from_str` accepts; the program
turns them into numbers where it needs them.
