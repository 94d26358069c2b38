# zlaunch (verified core)

The logic of the zlaunch application launcher as a Verus library: item filtering and
scoring, section layout of the result list, the list delegates (main list, emoji grid,
theme list), dynamic items (calculator, AI, web search), search trigger detection, color
parsing and formatting, file kinds, icon theme selection, and the launcher's mode and
navigation decisions. Every function in `src/` carries a contract that Verus proves.

- `src/` — the verified library.
- `tests/` — tests of the library.
- `app/` — a small command-line front end that does the file, clock and icon lookups
  and the floating-point color conversions.
