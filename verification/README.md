# rotating_terminal

A Bevy scene of vintage terminals whose screens show a live, software-rendered terminal
card, with an exporter that renders the camera moves to numbered PNG sequences.

The crate splits in two:

- `src/` is the verified library (Verus):
  - `pixels.rs`: the RGBA8 pipeline that puts the rendered screen on the model's texture
    atlas (row flip, quarter turn, nearest-neighbour compositing) and its laws;
  - `layout.rs`, `screen.rs`, `terminal.rs`: what each card shows and in which rows, the
    ratatui calls that lay out and draw it, what drawing leaves in the frame's cells, and the
    state of the screen;
  - `progress.rs`, `export.rs`: the exact camera progress of each exported frame and the
    warm-up / capture / finish schedule of an export;
  - `scene.rs`: the placement of the four terminals and what happens to each node of a
    loaded model;
  - `grid.rs`: arithmetic facts about row-major grids.
- `app/` is the Bevy application around it: plugins, assets, lights, cameras, the
  floating-point camera paths, and the systems that act on the library's decisions.
