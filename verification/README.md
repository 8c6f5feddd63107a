# i40e_postlink

Post-link helper for Intel X710 (i40e/iavf) adapters with SR-IOV, written in Verus.

The helper runs once for a physical function, after its link and its virtual functions have come up.
It reads the `I40E_*` properties of the link, brings them together with the environment and the
command line, and sets the functions up with `ethtool` and `ip`. The command line counts before the
environment, the environment before the `.link` file, and the `.link` file before the defaults. All of
`ethtool` comes first, for the physical function and then for the virtual ones; all of `ip` follows.
The addresses of the virtual functions are derived from the one that the physical function has then.

## Layout

- `src/` is the library. It decides everything and touches nothing: an `app::App` is told what the
  host answers, and says what is to be done and what it has to know next.
  - `model.rs` says what a run does, as a function of what it knows and what the host answers.
  - `app.rs` carries that out; `cli.rs`, `props.rs`, `command.rs`, `ethtool.rs`, `mac.rs`, `vf.rs`,
    `number.rs` and `text.rs` hold its parts.
  - `laws.rs`, `whole_run.rs`, `dry_laws.rs` and `device_laws.rs` state and prove what holds of every
    run, from beginning to end, of dry runs, and of every device.
- `app/` is the program around it: it reads the host, runs the commands and writes the log.
- `tests/` runs the library.

## What is taken on trust

Three functions of the standard library have contracts that are not proved: `String::push`,
`char::to_lowercase` beyond ASCII, and `String::from_utf8_lossy`.
