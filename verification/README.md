# cl

`cl` (short for *command list*) keeps shell commands grouped by namespace
and alias, lets you search, add, edit, delete and run them from a terminal
interface, and runs them from the command line with arguments and named
parameters (`cl exec <alias> -- --name value`).

## Layout

- `src/` is the library, written in Verus and verified: the command
  model and its validation, the stored list and its operations, the
  preparation of a command line from its arguments and named parameters,
  import and export planning, the listing subcommand's output, the search,
  and the state machines of the interface: the fields, forms, popups and
  key handler that the program drives, and the event handler of the
  context-based layout, which the library offers but the program does not
  run. Each public function states what it
  returns or changes; the laws that tie several operations together are
  public proof functions (`law_*`).
- `src/bindings.rs` holds the few calls into outside crates (fuzzy
  matching, formatting, regular expressions, display width, path joining,
  colouring) with the contracts the library relies on.
- `tests/` exercises the library on concrete values.
- `app/` is the program around it: argument parsing, the command and
  settings files, running commands in the shell, and drawing the
  interface in the terminal.
