# barust

A status bar for X11 whose decisions are verified with Verus.

- `src/` is the verified library: the layout of the widgets on the bar (one
  row, or the two-sided variant), which widget a click reaches, where the bar
  and its tray sit on the screen, the schedule of the periodic hooks, the
  system tray's bookkeeping and its reaction to X events, the texts the
  widgets show, and the small parsers they need (desktop names, `apt`
  output, sysfs values). Every public function states its result in its
  contract; the laws that tie several calls together are public proof
  functions next to them.
- `tests/` runs the library on concrete values.
- `app/` is the rest of the bar: the X connection, cairo and pango drawing,
  the async event loop, and the widgets' reads of sysfs, PulseAudio, IMAP,
  the weather service and the window manager. It hands what it reads to the
  library and acts on what the library answers.
