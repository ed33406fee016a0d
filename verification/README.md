# mig_gpu_mon

A terminal dashboard for NVIDIA GPUs and MIG instances, with its decision
logic written in Verus and proved against its contracts.

- `src/` is the verified library:
  - `app.rs`: dashboard state, the refresh of snapshots (memory carry-over
    with a failure limit, carry-over of live processes, per-UUID histories
    kept, with the caches, for exactly the devices just reported),
    selection and key handling.
  - `history.rs`: bounded ring buffers and the per-device and system
    histories; a missing reading repeats the last value for a limited run of
    readings, then records zero.
  - `session.rs`: properties of whole runs of refreshes and key presses.
  - `keyed.rs`: a small map keyed by device UUID.
  - `metrics.rs`: GPU snapshot and process types.
  - `processes.rs`: merging, ranking and per-instance selection of processes.
  - `utilization.rs`: utilization fallbacks for MIG instances.
  - `library.rs`: the search order for the NVML library.
  - `labels.rs`, `text.rs`: performance-state, architecture, throttle and
    version labels.
  - `display.rs`: chart data order, colour classes, usage bars, CPU grid layout.
  - `panels.rs`: the text of the detail panel and of the process table.
  - `event.rs`: terminal input to main-loop events.
- `app/` is the program around it: NVML and sysinfo collection, terminal
  input, drawing with ratatui, and the floating-point figures.
- `tests/` exercises the library on concrete values.
