# chatgpt_shell

The verified core of a desktop client that routes traffic through a VLESS/REALITY tunnel
and takes over the system proxy while it runs.

- `src/` — the library, verified with Verus: reading the output of `networksetup`,
  `reg query` and `gsettings`; the commands that take the system proxy over and give it
  back on macOS, Windows and Linux; the takeover record and the order of steps that makes
  a crash recoverable; the activation server's answer; the sing-box configuration; the
  activation dialogs and their escaping. `takeover.rs` holds the laws: a release after a takeover
  interrupted at any point, and after any further takeovers made while the record is on
  disk, gives the user's settings back exactly; a takeover whose record cannot be
  persisted changes nothing; a release, a disable request and the start-up recovery do
  the same; a second release changes nothing where the first left no mark of the shell.
  The laws are stated from the records, and from what the system tools printed when the
  records were taken (`macos.rs`, `windows.rs` and `linux.rs` model that output), on the
  settings those tools can report and a record can hold: on Windows `ProxyEnable` present
  as 0 or 1 and no value present but empty; on macOS addresses on one line, a PAC address
  other than the text `(null)`.
- `app/` — the application around it: processes, files, HTTP, the window.
- `tests/` — tests of the library on concrete values.
