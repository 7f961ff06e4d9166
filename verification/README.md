# Cocoon

A small rootless Linux container runtime whose decisions are verified with
[Verus](https://github.com/verus-lang/verus).

Cocoon isolates a process with user, mount, pid, uts and ipc namespaces (and the
network, if asked to), pivots into a bundle's root filesystem, gives up every
privilege and runs a command there, all without root. It can also capture and
measure a run, and serve the sandbox as a tool to an agent over the Model Context
Protocol.

The runtime is split in two. The library in `src/` decides; it makes no system
call. What the system is asked to do, and in which order, comes out of it as data,
and what came of it goes back in as data. Every function there is proved to do
what its contract says. The program in `app/` carries the requests out.

## The bundle

A bundle is a directory with a `rootfs/` subdirectory and a `cocoon.conf`:

```
hostname = cocoonbox
cwd      = /
argv     = /bin/busybox sh -c "hostname; echo pid=$$"
env      = PATH=/bin
# net        = isolated            # a network namespace of its own
# readonly   = true
# timeout    = 5s                  # 5s, 500ms, 2m, or a bare number of seconds
# mount      = /host/dir:/work:rw  # bind a host directory in; may repeat
# memory_max = 67108864            # best effort, by a delegated cgroup v2
# pids_max   = 64
# profile    = strict              # or build
```

```
cocoon spec <dir>    create a bundle skeleton
cocoon plan <dir>    print what running it will do
cocoon run  <dir>    run it
cocoon exec [--json] [--timeout <duration>] <dir>
                     run it, captured and measured
cocoon mcp           serve the sandbox as an MCP tool over stdio
```

## What is proved

- The config parser accepts exactly the files that its grammar describes, says what
  is wrong with each other one and in which line, and a plan carries the config
  over unchanged (`config`, `config_laws`, `plan`).
- Every command without line feeds can be written in the config file: quoted, its
  arguments are read back as they were, whatever quotes, backslashes or `#` they
  hold; and no comment starts where an argument has a quote open (`argv_laws`).
- A child is forked only by a process that has entered its new namespaces
  (`launch`).
- Everything that needs capabilities is done before any are given up; host
  directories are bound while the old root is there; `no_new_privs` is set before
  the seccomp filter is loaded; that is loaded last; and the program is started
  only if every step that must succeed did (`sandbox`, `script`, `sandbox_laws`).
- The seccomp filter denies exactly the system calls that it names (`seccomp`).
- Limits are a best effort that is never silent and never stops a run (`cgroup`,
  `launch`).
- A run is killed when it is seen alive past its time limit, and never before
  (`monitor`).
- A measured run captures all that was read, times out exactly when the child was
  seen alive past its limit, and cannot be held up by what it leaves behind; a child
  that is overdue is killed, and both streams are closed, once, whatever happens
  (`monitor`, `supervisor` and their laws).
- An outcome's JSON is one line, and a parser reads it back, each member to its
  field (`spelling`, `outcome`).
- Notifications are never answered; each request gets one response, with its id; a
  failure of the tool is a result and no protocol error (`mcp`, `mcp_laws`).

What rests on `serde_json`, `seccompiler` and the standard library is stated, and
believed, at the functions that call them: in `json`, `seccomp`, `monitor`, `bundle`,
`text` and `state`.

## Layout

- `src/`: the verified library.
- `tests/`: its tests.
- `app/`: the program: files, processes, system calls, standard input and output.
