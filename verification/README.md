# ssh-key-picker

A command-line tool that keeps exactly one SSH key active at a time: the
other keys wait in `~/.ssh/disabled` and are swapped in on request.

Layout:

- `src/` — the verified library: key types and their texts (`key_type`),
  reading public key files (`key_file`, `text`), key file paths (`paths`,
  `tracked_key`), the registry of tracked keys and the decisions about it
  (`tracked_keys`), and properties that hold across its
  operations (`laws`). Operations that touch the disk are split in two: one
  function says which files to move or remove, another records the new state
  once that has been done.
- `app/` — the program: arguments, prompts, the JSON keys file, reading
  which files exist, and the file operations that the library plans.
- `tests/` — tests of the library on concrete values.
