# nnn

A minimal Linux sandbox: run a program with Landlock restricting it to a
whitelist of readable and writable directories, a seccomp deny list, a
sanitised environment and optional TCP restrictions.

- `src/` is the verified library (Verus): command deny rules (`command`),
  path configs and their merging (`config`, `merge`, `settings`), environment
  sanitisation (`sanitize`, `env_policy`), `~` expansion and config locations
  (`paths`), the trust store of approved project configs (`trust`, over the
  TOML document model in `toml_doc`), the Landlock rule plans (`rules`,
  `sandbox_rules`, `landlock`, `landlock_raw`), the seccomp deny list and its
  BPF program (`seccomp`), built-in profiles (`profile`)
  and what the command line prints (`cli`). String helpers with their
  specifications are in `strings`.
- `app/` is the `nnn` binary: argument parsing, files, environment, and the
  kernel calls that carry out the plans the library computes.
- `tests/` exercise the library on concrete values.
