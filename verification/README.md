# maika

Maika is a Discord bot. This crate holds its logic as a library verified
with Verus (`src/`), and the bot program that connects it to Discord
(`app/main.rs`).

The library decides what each command answers (`ping`, `userinfo`,
`cleverbot`, `choose`, `coinflip`, `8ball`, `roll`, `roulette`, `anime`),
how arguments are read (decimal integers, splitting and joining, sorting
options), what the join/leave webhook posts, and how log lines are laid
out. Random draws (`rand`), date formatting (`chrono`) and terminal colours
(`colored`) are called through small trusted wrappers whose contracts are
stated in `src/rng.rs`, `src/general.rs` and `src/logger.rs`.

The program in `app/` reads the environment, talks to Discord through
`serenity`, and sends what the library returns.

The program runs on serenity 0.12, which is asynchronous: `tokio` provides
the runtime it needs, and the rotating "playing" status is a `tokio` task.

Two crates that `app/` calls are not in `Cargo.toml`: `cleverbot_io` (the
chat service of `cleverbot`) and `kitsu` (the anime search of `anime`). Every
version the registry here offers needs a `security-framework` release that
it does not carry, so neither can be resolved, and `app/` does not
type-check until they can be added. `typemap` stays listed but is unused:
serenity 0.12 keeps its shared data in its own type map.
