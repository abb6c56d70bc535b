//! The verified core of Maika, a Discord bot: what each command answers,
//! how its arguments are read, and how its log lines and embeds are laid out.
//!
//! - `text`, `decimal`, `order`: strings as character sequences, integers as
//!   decimal text (both ways), and the sorted option lists of `choose`.
//! - `rng`: the random draws the games make.
//! - `random`, `general`, `otaku`: the commands.
//! - `embed`, `webhook`, `logger`, `bot`: embeds, join/leave notices, log
//!   lines, and the decisions of the event handlers and start-up.

pub mod text;
pub mod decimal;
pub mod order;
pub mod rng;
pub mod embed;
pub mod random;
pub mod general;
pub mod otaku;
pub mod logger;
pub mod webhook;
pub mod bot;
