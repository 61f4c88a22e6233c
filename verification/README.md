# tuipe

A terminal typing trainer: tests of a number of words or of a time limit,
three difficulties (Normal counts mistakes, Expert ends the test on a
mistyped word, Master on a mistyped character), several word lists, and
statistics of past tests.

`src/` is the verified core, checked with Verus:

- `options` — difficulties, test types, languages and menu entries, their
  names and list positions;
- `session` — the application state machine: menus, the typing test,
  statistics, with the model `TuipeModel` every step is specified against;
- `layout` — the coloured, word-wrapped lines of the typing screen and the
  cursor position;
- `screens` — the text of the menu screens;
- `words` — drawing the words of a test from a word list;
- `flagger` — command line flag parsing;
- `maintenance` — repairing old results tables and naming log files;
- `text` — small string helpers.

`app/` is the program around it: terminal input and drawing, the clock,
files, the SQLite results database, and the screens whose figures are
floating point (end screens, statistics).
