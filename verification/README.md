# cargo_compile

Decides what a build command compiles, and proves what it says about that.

Given a workspace, the packages and targets that a command names, a mode and
the resolved dependency graph, the library tells which units of work the build
consists of, or why it is refused and what the user is told.

- `src/` is the library. Every function has a contract that Verus checks.
  `packages`, `filter`, `select`, `resolve`, `units` and `generate` decide over
  packages, targets and units; `session` is the course of a whole build as a
  state machine; `laws` and `runs` state what holds of them together, as do the
  functions named `law_...` in the other modules.
- `app/` runs builds: it performs what the state machine asks for. What depends
  on files, the network or the compiler is behind the trait `Host`.
- `tests/` runs the library on concrete values.

What is taken on trust: that formatting a string with `{:?}` depends on the
string alone (`error::debug_text`), and nothing of what a `PathBuf` holds.
