# lelouch

lelouch orchestrates coding agents: it polls each configured repository's work
database (beads, `bd`) for ready tasks and hands each one to an executor
(antigravity, cursor-agent, gemini), in a worktree of its own.

## Layout

- `src/` — the verified library (Verus): the orchestrator's rules, command lines and
  state machines, each with its contract:
  - `config` — repositories, defaults, `~` expansion, adding a repository;
  - `scheduler` — which ready tasks go to which free worktree;
  - `dispatch` — the steps of dispatching one task, as a state machine;
  - `daemon` — when the config is reloaded, what a reload stops and starts, worker
    state keys;
  - `status` — the status table and the streamed output of a task;
  - `executor`, `executors` — prompts, agent command lines, reading their outcome;
  - `beads`, `vcs`, `worktree` — the `bd` and `git` command lines, worktree paths,
    which worktrees to create and remove;
  - `shutdown` — the two shutdown phases and what each part does in them;
  - `text`, `path`, `error`, `cli`, `work_db` — shared pieces.
- `app/` — the program: command line parsing, config file I/O, processes, the
  async daemon loop. It performs what the library decides; how it reacts to a failed
  I/O step (a config that does not load, a poll that fails: log it and try again at the
  next tick) is its own.
- `tests/` — tests of the library.
