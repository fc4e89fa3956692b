# iced-longbridge

The decision-making core of a component library for iced applications,
verified with Verus: HTML-to-Markdown conversion, hex colors, the
notification stack, calendar grids, tree rows, table navigation and
resizing, OTP boxes, time pickers and the smaller component rules.

- `src/` is the verified library. Each public function states its result
  in its `ensures`; the `law_*` proof functions state properties that span
  calls. Calls into `chrono` and `iced` go through a few trusted wrappers,
  each documented where it is declared.
- `app/` is ordinary Rust around it: conversions to and from iced's,
  chrono's and palette's types, and the floating-point geometry (chart
  scales, number inputs, column widths, pixel offsets).
- `tests/` runs the library on concrete values.
