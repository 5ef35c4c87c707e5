# Vault64

A launcher for games that are published as releases: it lists them, keeps a
library, installs and starts them, and updates itself.

- `src/` is the launcher's logic, written in Verus. Every function carries a
  contract, and the laws of the launcher are public proof functions whose names
  begin with `law_`.
- `app/` is the program around it: windows, files, processes and the network.
- `tests/` runs the library on concrete values.

The jobs that install a game and that prepare an update of the launcher are
state machines. A job says what is to be done next (`action`), the program does
it and tells what came of it (`step`), and the job says what to report. The
launcher's state (`Vault64App`) works the same way: a method changes the state
and returns the effects that the program is to carry out.

What is trusted is marked in the source: the lower-case form of a text and the
extension of a file name as the standard library gives them, appending a
character to a string, and the meaning and the text of a status code as
`reqwest` gives them. Places on disk are named by a known folder and the names
below it; the program knows where the folders lie. Shares of a task are kept as
whole numbers, and the program turns them into fractions.
