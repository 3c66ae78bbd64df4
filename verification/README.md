# serial_plotter

A multi-plot serial monitor. It polls a device over a serial port with the
commands of a JSON configuration, recognises the lines the device answers
with, plots numeric readings and shows text readings as device states.

- `src/` — the verified library (Verus):
  - `text` — whitespace trimming, first-occurrence search and split, command framing;
  - `table` — a string table with one value per key;
  - `bounded` — a FIFO history that keeps the newest items up to a capacity;
  - `config` — serial settings, commands, plots, product parameters, load errors;
  - `lines` — which plots a received line feeds, and with which reading text;
  - `worker` — the serial worker's decisions (poll, write, publish, stop) per event;
  - `monitor` — the window's state: loading a configuration, taking in readings,
    connection controls, parameter edits, which plots are drawn as graphs;
  - `laws` — properties that span the worker and the monitor.
- `app/main.rs` — the program: configuration file and JSON parsing, the serial
  port and its worker thread, channels, and the egui window.
- `tests/` — tests of the library.
