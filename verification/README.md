# tumeto

A keyboard-driven terminal todo manager (groups, subtasks, notes,
priorities, search, undo), whose state machine is verified with Verus.

- `src/` is the verified library. `model` holds the data and its
  mathematical views; `rows` says which rows the list shows; `app`,
  `items`, `input` and `groups` are the operations, each with a contract
  that gives the new state as a function of the old; `keys` maps key
  presses to operations; `layout` decides which group tabs fit and how
  notes wrap; `laws` proves what holds across operations; `text` holds
  the string calls into std and unicode-width.
- `app/` is the terminal program: loading and saving the JSON data file,
  drawing with ratatui, and reading keys with crossterm.
- `tests/` runs the library on concrete cases.
