# tshirt_checker

Checks artwork meant for printing on a T-shirt: resolution, area used,
partial transparency, how much of the print area is covered ("bib score") and
thin lines, with tools that show where the problems are.

- `src/` is the library, verified with Verus: fixed-point HSLA colours and
  their conversion to and from RGBA, the shirt recolourings, alpha fixing and
  flagging, pixel statistics, the edge heat map and the choice of hot spots,
  report thresholds and texts, the notification panel, the tool and icon
  animation timers, and the small decisions the user interface paints by.
  Time is passed in as a millisecond clock reading, so every timer is a pure
  function of its state and that reading.
- `tests/` runs the library on concrete values.
- `app/` is the egui front end: painting, texture upload,
  file dialogs, background tasks, and the floating-point geometry of the view.
  Decoding image files is in the library, through `egui_extras`; the front
  end uploads the decoded pixels as textures.
