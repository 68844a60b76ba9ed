# mcad_app

The logic of a two-dimensional drawing program, verified with Verus, and the
program around it.

`src/` is the library. It holds no floating-point number and touches neither
files nor windows: lengths on paper are micrometres (halves of them in the middle
of a cell, fractions for the columns of a part list), times are milliseconds,
numbers that the program reads are decimal texts, and points are carried along
without being read.

| module | what it is about |
| --- | --- |
| `session`, `app_frame`, `filing`, `shortcuts`, `canvas` | the state of the program and what each frame does to it |
| `tools`, `select`, `overlay`, `gesture` | tools, the selection and its modes, what is drawn over the drawing, moving the view |
| `layers`, `stacking`, `strokes` | layers, their stacking order, styles, the order of drawing, lines on the screen |
| `dims`, `dim_panel` | annotations of dimensions and the panel that edits them |
| `sheet`, `frame`, `sheet_panel`, `bom` | the sheet, its frame and title block, the panel that edits it, part lists |
| `config` | settings and recent files |
| `paths`, `text`, `iso` | file names, texts and numerals, the faces of isometric drawings |

What is believed without proof are the contracts of a few functions that call
the standard library: `trim` in `text`, and in `paths` those that take a path
apart. Platforms read paths with backslashes or drives differently, so what is
found in a path is stated for *plain* paths, which all read alike.

`tests/` runs the library on concrete values. `app/` is the program: its window,
dialogs and files. Its module `kernel` speaks to the drawing kernel (the crates
`mcad_core`, `mcad_geom` and `mcad_io`).
