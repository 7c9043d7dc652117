# openssh

Scriptable SSH through OpenSSH, with its logic verified by Verus.

Commands run on the remote host through the `ssh` client and a master
connection, so the user's own `ssh` configuration applies.

Layout:

- `src/` — the verified library:
  - `builder.rs`: session options, `ssh://user@host:port` destinations, and
    the command line of the master connection;
  - `command.rs`, `session.rs`: remote commands and the `ssh` invocations
    that control the master, and how their outcomes are read;
  - `escape.rs`: shell quoting, with the proof that a shell reads a quoted
    word back unchanged;
  - `ssh_error.rs`: the kind and message of what `ssh` reports;
  - `sftp_options.rs`, `sftp_file.rs`, `slices.rs`: sftp request limits, the
    cursor of a remote file, and how buffers are cut into requests;
  - `decimal.rs`, `strings.rs`, `text.rs`: numerals and text helpers.
- `tests/` — tests of the library on concrete values.
- `app/` — the asynchronous surface: it starts the `ssh` processes, reads the
  master's log and maps outcomes to `std::io` errors.
