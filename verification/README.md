# gitswitch

Manage and switch between multiple GitHub accounts: one keystroke points
git's `user.name` / `user.email` and the GitHub CLI's active account at a
saved profile.

- `src/` is the library, verified with Verus: the account list and its rules
  (`store`, `model`, including the rewrite of the layout before version 1), the git and `gh` commands and how their replies are read
  (`git`, `gh`, `process`), the credential stores (`secrets`), the operations
  both interfaces share (`service`), the interactive interface's state
  machine and what each part of it says (`tui`), and what the command line
  prints (`console`). External processes are reached through the `Runner`
  trait, whose contract records every command and every program lookup;
  `process::Recorder` hands one `Request` per command to a `Spawner` that
  starts real processes and records that same request, and `testing::MockRunner` replays canned replies.
- `tests/` exercises the library on concrete values.
- `app/` is the program around it: argument parsing, the terminal, the file
  on disk and the real processes.
