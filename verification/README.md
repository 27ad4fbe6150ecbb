# llamapilot

The verified core of LlamaPilot, a desktop control panel that builds, inspects and runs
`llama.cpp` servers. The functions under `src/` are proved by Verus against their `requires`
and `ensures`, except the small wrappers marked `#[verifier::external_body]`: each wraps calls
into std, `uuid` or `url`, and its contract, which Verus takes on trust, says only what their
documentation or source shows.

## Layout

- `src/` — the library, checked by Verus:
  - `git/` — parsing `git` output, checkout and fast-forward plans with their exact commands;
  - `build/` — build profiles, CMake plans, build-tree names, toolchain parsing, build decisions;
  - `llama/` — discovery of what a `llama-server` binary supports (`--help`, `--version`,
    `--list-devices`);
  - `gguf/` — the GGUF metadata scan over a byte prefix, and split-file names;
  - `models/` — grouping shards into models, projector pairing, Hugging Face selections;
  - `performance/` — GPU placement candidates, the percentage split, and the sweep state machine;
  - `config/`, `process/`, `agent.rs`, `profiles.rs`, `profile_target.rs` — paths, settings,
    command display, the agent connection checks, and profile targets;
  - `text.rs`, `text_map.rs`, `sorting.rs` — the text, map and ordering specifications the rest
    is stated over.
- `tests/` — tests run against the compiled library.
- `app/` — a command-line front end that does the file, process and network work and hands
  plain values to the library.

Laws of the library stand as public proof functions, for example
`performance::optimizer::percentages_sum_to_one_hundred`,
`gguf::reader::scan_is_stable_under_longer_prefixes`,
`build::directory::different_profiles_get_different_trees` and the sweep laws in
`performance::sweep`.
