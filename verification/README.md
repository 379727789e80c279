# layerpen

The verified core of Pointory, a screen annotation overlay for teaching:
drawing on a transparent layer above a monitor, boards, a spotlight,
screenshots and GIF replays, classroom file sharing on the local network,
and live captions through local speech-recognition helpers.

- `src/` is the library, written in Verus. Each public function states in
  its contract what it returns or changes; the laws that relate several
  functions (undo and redo, the board cycle, routing, escaping) are public
  proof functions beside them.
- `app/` is the desktop application around it: windows, shortcuts, files,
  sockets, helper processes and the floating-point geometry of strokes.
- `tests/` runs the library on concrete values.

Numbers that are `f64` in the application (coordinates, widths, opacities)
are held by the library as their IEEE 754 bit patterns; their ranges are
checked in the application.
