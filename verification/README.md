# heel

The decision logic of the `heel` sandbox, proved with Verus: what a sandboxed
process may reach and how it is started, on Linux (Landlock rule set, Seccomp
filter), macOS (`sandbox-exec`) and Windows (AppContainer profile names, ACL
grants, command lines), the IPC wire format, the command-line front end, and
Python virtual environment handling.

## Layout

- `src/` is the verified library. Each public function states in its
  `ensures` what it returns, over spec functions of plain values; the laws that
  span several functions are public proof functions (`lemma_*`).
- `tests/` runs the library on concrete values.
- `app/` is the `leash` command-line program around the library: argument
  parsing, processes, files, sockets, and the calls into the Landlock and
  Seccomp crates that apply the plans the library computes.

Host facts the library cannot observe itself (what exists on disk, the
environment, what a child process reported) are handed to it as arguments, so
each decision is proved for every value of them.

## Filesystem tiers on Linux

- Strict (`filesystem_strict`, the default): the process reads the system's
  binaries, libraries and configuration, and writes only within the working
  directory and the roots the configuration names. Temporary directories are
  not granted, and device nodes (`/dev/null`, terminals, and the GPU, NPU and
  hardware nodes the security settings allow) are read-only.
  `lemma_strict_tier_writes_only_in_working_dir` states this.
- Default (not strict): the system trees are readable, and `/tmp`,
  `/var/tmp` and the device nodes are writable as well.
- Permissive (`writable_file_system`): `/` is writable.
