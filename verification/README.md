# zellij_panes

The tiled panes of a terminal workspace tab, the frames drawn around panes,
and the setup helpers of the program (where configuration, layouts, themes
and data live; what the setup commands print), written in Verus with their
behaviour stated in contracts and proved.

- `src/geom.rs`: geometries, viewports, sizes and content offsets.
- `src/pane.rs`: the state of one pane that the layout reads and changes.
- `src/assoc.rs`: association lists read as maps.
- `src/tiled_panes.rs`: the panes of a tab, who focuses which pane, hidden
  panes and fullscreen, and the terminal resizes asked of the system. Where
  a geometry comes from the pane grid (splits, neighbours, resizes), the
  grid's answer is an argument.
- `src/frame.rs`: the frame of a pane: title row, sides and bottom row.
- `src/setup.rs`: directories, assets, shells and the `--check` report.
- `src/laws.rs`: properties that span several operations.
- `app/lib.rs`: the setup commands as the program runs them (reading the
  environment and the file system, printing, exiting), the terminal
  resizes, and the loop that draws the tiled panes step by step with a
  drawing function its caller supplies. Loading the configuration, layouts
  and themes, and drawing a pane's contents, frame or boundaries, are not
  part of this crate.
