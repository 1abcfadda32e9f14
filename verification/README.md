# oxys

The manifest and planning core of OxysOS, a declarative Gentoo/Portage
system, written in Verus. Every function under `src/` carries a contract
that Verus proves: the system manifest and its validation, graphics,
kernel command line and swap resolution, disk provisioning plans, the
install planner, Portage configuration rendering, config-source editing and
the preflight checks.

## Layout

```text
src/            the verified library
  manifest/     the system manifest: disk, swap, firewall, accounts,
                packages, compiler and settings
  install/      the system install planner and the files it writes
  graphics.rs   graphics policy resolution and its decisions
  disk.rs       ext4 and ZFS provisioning plans
  ...
tests/          tests run against the compiled library
app/            the command-line program: argument handling, TOML, file and
                process I/O around the library
```

What the library cannot do itself (reading the machine, running
commands, TOML parsing) is in `app/`, which hands the library plain values
and acts on the plans it returns.

Verify with Verus from this directory; `tests/` runs with `cargo test`.
