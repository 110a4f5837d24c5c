# pee

A wrapper around a chat program that runs in a terminal. Installed as
`<program>-pee`, it

- spawns `<program>` in a PTY,
- gives it a fresh `--session-id <UUIDv4>` and a `--settings` JSON with a stop hook,
- forwards every flag that is not its own, verbatim,
- types the prompt given by `-p` once the screen is quiet,
- follows the session's transcript, and
- prints the reply (`text`), the message (`json`) or every line (`stream-json`).

With the `--second-opinion-*` flags it coordinates a review: the reply is bounded by
a deadline, the child and everything that descends from it is cleaned up, a log of
content-free JSON records tells the phases, and the review is printed only when
nothing of the child is left.

## Layout

| Path | What is there |
| --- | --- |
| `src/args.rs`, `src/startup.rs`, `src/config.rs`, `src/names.rs` | the command line, what is done with it, and the configuration of a run |
| `src/hook.rs`, `src/inject.rs`, `src/child.rs` | the stop hook, the course of a prompt, the child's command line and screen |
| `src/transcript.rs`, `src/json.rs` | what the transcript says |
| `src/lifecycle.rs`, `src/coordinator.rs`, `src/session.rs`, `src/processes.rs` | coordinated reviews |
| `src/session/laws.rs` | what holds of every review, whatever happens in it |
| `src/text.rs`, `src/time.rs` | raw text, paths, spans of time |
| `app/` | the program: threads, files, the PTY, `ps` and `kill` |
| `tests/` | the library on concrete values |

The library in `src/` is verified with Verus. It performs nothing itself: its state
machines name the next action, and the program reports what came of it.

## Environment variables

`<PROGRAM>_PEE_EXEC` names the binary to spawn, `<PROGRAM>_PEE_QUIESCE_MS` how long
the screen has to be quiet (500 by default), `<PROGRAM>_PEE_INJECT_CHAR_DELAY_MS`
the delay between two typed characters, and `<PROGRAM>_PEE_PS_EXEC` a replacement for
`ps`.
