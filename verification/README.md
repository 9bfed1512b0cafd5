# hypr_xp_magnifier

A docked screen magnifier for Hyprland, split in two:

- `src/` — the verified library. Its contracts state what each decision
  computes, and proof functions state the properties the magnifier relies
  on.
  - `text` — Unicode white space, trimming, and decimal `i32`/`u32`
    parsing with the acceptance rules of `str::parse`.
  - `hyprland` — the IPC socket path and the `cursorpos` reply parser
    (with a proof that a written position reads back).
  - `config` — the settings file path and the `--height` option.
  - `dock` — dock positions, anchors and the layer-surface layout.
  - `geometry` — output offset and size, the bar's footprint, the
    over-the-bar test and the capture region (with proofs that the
    region stays on the output).
  - `magnifier` — the event-driven state: configure, keys, layout
    changes, when to capture, and which frame events end a capture (with
    a proof that, over any run, no capture is asked for while another is
    in flight and requests keep the refresh interval apart).
  - `capture` — the frame events of a capture, what each asks for, and
    when the capture buffer can be reused.
  - `focus` — the aim point, focus rectangles, the active window's
    geometry, which accessibility events move the focus, and the cursor
    poller's state.
  - `pixels` — pixel reads and writes, the placeholder fill, sampling
    taps and nearest-neighbour scaling (with proofs that reads see writes,
    that, where the stride holds a whole row, scaling sets every
    destination pixel lying inside the buffer to its clamped source pixel,
    and that scaling by a factor of 1 copies the image).
- `app/` — the program around it: Wayland (smithay-client-toolkit), the
  AT-SPI listener, the Hyprland socket, the settings file (serde) and its
  settings panel (eframe; run under the name `magnifier-settings`),
  threads, the clock, and the floating-point parts of sampling.
- `tests/` — tests of the library on concrete values.
