# rig

`rig` sets up a development machine (macOS with Homebrew, Debian/Ubuntu with
apt) from a role (`workstation` or `compute`) and a host file under
`~/.rig-hosts/`.

Layout:

- `src/` — the library, verified with Verus: host and role files, the apply
  plan and its steps (as state machines that decide the next system call from
  the result of the last one), the state manifest, the undo run, key
  distribution, and the text of every command's report.
- `app/` — the `rig` binary: command-line parsing, file and process I/O,
  TOML/JSON decoding, and the loops that perform the calls the library asks
  for.
- `tests/` — tests of the library on concrete values.

Known gap: the generator of `~/.ssh/config.d/rig.conf` (the text written from
the `[[ssh]]` entries of the host files) is not among this project's sources.
The library holds the ssh-config report (`commands/ssh_config.rs`) and the
apply run's ssh-config step, but the binary cannot produce the file: `rig host
ssh-config` stops with an error, and so does `rig apply -y` when it reaches
the ssh-config step, before the feature steps run and before the state
manifest is saved.
