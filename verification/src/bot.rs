//! The decisions of the bot's event handlers and start-up: what it logs when
//! it is ready or joins or leaves a guild, which game it shows as playing,
//! which settings a release reads, and who the rate limit applies to.

use vstd::prelude::*;
use vstd::string::StringExecFns;
use crate::decimal::{nat_digits, u64_text};
use crate::logger::{command, command_dm, command_layout, painted, LogColour};
use crate::rng::{random_choice, drawn_from, lemma_drawn_from_intro};
use crate::text::{owned, text_eq};

verus! {

/// The log line for a shard that is ready: its number, the number of
/// shards, and how many guilds it serves.
pub open spec fn ready_text(shard: u64, shard_count: u64, guilds: u64) -> Seq<char> {
    "I'm back master! This is shard "@ + nat_digits(shard as nat) + "/"@ + nat_digits(shard_count as nat)
        + " which has "@ + nat_digits(guilds as nat) + " guilds"@
}

/// What the bot logs when it is ready: a line when the gateway names the
/// shard (`(this shard, number of shards)`), nothing otherwise.
pub fn ready_message(shard: Option<(u64, u64)>, guild_count: u64) -> (r: Option<String>)
    ensures
        match shard {
            Some((s, count)) => r matches Some(t) && t@ == ready_text(s, count, guild_count),
            None => r is None,
        },
{
    match shard {
        Some((s, count)) => {
            let mut t = owned("I'm back master! This is shard ");
            t.append(u64_text(s).as_str());
            t.append("/");
            t.append(u64_text(count).as_str());
            t.append(" which has ");
            t.append(u64_text(guild_count).as_str());
            t.append(" guilds");
            Some(t)
        },
        None => None,
    }
}

/// The games the bot shows itself playing, one at a time.
pub open spec fn presence_games() -> Seq<Seq<char>> {
    seq![
        "with Senpai"@,
        "with my master"@,
        "visual novels"@,
        "type `n:help`"@,
        "prefix: `n:`"@,
        "with your feelings"@,
    ]
}

/// How long each game is shown before the next is drawn, in seconds.
pub const PRESENCE_PERIOD_SECS: u64 = 1800;

/// The games, in the order of `presence_games`.
pub fn presence_game_list() -> (v: Vec<&'static str>)
    ensures
        v@.len() == presence_games().len(),
        forall|i: int| 0 <= i < v@.len() ==> (#[trigger] v@[i])@ == presence_games()[i],
{
    let mut games: Vec<&'static str> = Vec::new();
    games.push("with Senpai");
    games.push("with my master");
    games.push("visual novels");
    games.push("type `n:help`");
    games.push("prefix: `n:`");
    games.push("with your feelings");
    games
}

/// The game to show next, drawn at random from `presence_game_list`.
pub fn pick_game() -> (r: String)
    ensures
        presence_games().contains(r@),
        exists|games: Seq<&'static str>, g: &'static str|
            games.len() == presence_games().len() && (forall|i: int|
                0 <= i < games.len() ==> (#[trigger] games[i])@ == presence_games()[i]) && drawn_from(
                games,
                Some(g),
            ) && r@ == g@,
{
    let games = presence_game_list();
    let games_slice = games.as_slice();
    let picked = random_choice(games_slice);
    let g = *picked.unwrap();
    proof {
        lemma_drawn_from_intro(games_slice, picked);
        let k = choose|k: int| 0 <= k < games@.len() && games@[k] == g;
        assert(games@[k]@ == presence_games()[k]);
    }
    owned(g)
}

/// `"<what> guild <name> - (<id>)"`.
pub open spec fn guild_text(what: Seq<char>, name: Seq<char>, id: u64) -> Seq<char> {
    what + " guild "@ + name + " - ("@ + nat_digits(id as nat) + ")"@
}

fn guild_line(what: &str, name: &str, id: u64) -> (r: String)
    ensures
        r@ == guild_text(what@, name@, id),
{
    let mut t = owned(what);
    t.append(" guild ");
    t.append(name);
    t.append(" - (");
    t.append(u64_text(id).as_str());
    t.append(")");
    t
}

/// What the bot logs when a guild becomes available: a line (and a notice
/// to the webhook) only when the bot has just joined it.
pub fn guild_create(is_new: bool, name: &str, id: u64) -> (r: Option<String>)
    ensures
        is_new ==> (r matches Some(t) && t@ == guild_text("Joined"@, name@, id)),
        !is_new ==> r is None,
{
    if is_new {
        Some(guild_line("Joined", name, id))
    } else {
        None
    }
}

/// What the bot logs when it leaves a guild.
pub fn guild_delete(name: &str, id: u64) -> (r: String)
    ensures
        r@ == guild_text("Left"@, name@, id),
{
    guild_line("Left", name, id)
}

/// Where a release reads its settings from.
pub struct ReleaseKeys {
    /// The name of the setting that holds the bot token.
    pub token: String,
    /// The name of the setting that holds the command prefix.
    pub prefix: String,
    /// How a missing setting names the release ("dev" or "production").
    pub label: String,
}

/// The settings that a release reads: "dev" and "prod" each have their
/// own; any other release reads none (and the bot starts with an empty token
/// and prefix).
pub fn release_keys(release: &str) -> (r: Option<ReleaseKeys>)
    ensures
        release@ == "dev"@ ==> (r matches Some(k) && k.token@ == "DISCORD_DEV_TOKEN"@ && k.prefix@
            == "DEV_PREFIX"@ && k.label@ == "dev"@),
        release@ == "prod"@ ==> (r matches Some(k) && k.token@ == "DISCORD_TOKEN"@ && k.prefix@
            == "PREFIX"@ && k.label@ == "production"@),
        release@ != "dev"@ && release@ != "prod"@ ==> r is None,
{
    proof {
        reveal_strlit("dev");
        reveal_strlit("prod");
        assert("dev"@ != "prod"@) by {
            assert("dev"@.len() != "prod"@.len());
        }
    }
    if text_eq(release, "dev") {
        Some(
            ReleaseKeys {
                token: owned("DISCORD_DEV_TOKEN"),
                prefix: owned("DEV_PREFIX"),
                label: owned("dev"),
            },
        )
    } else if text_eq(release, "prod") {
        Some(
            ReleaseKeys {
                token: owned("DISCORD_TOKEN"),
                prefix: owned("PREFIX"),
                label: owned("production"),
            },
        )
    } else {
        None
    }
}

/// Whether the command rate limit applies to a user: to everyone but the
/// owner, whose id is given as text.
pub fn is_rate_limited(user_id: u64, owner: &str) -> (r: bool)
    ensures
        r == (nat_digits(user_id as nat) != owner@),
{
    let id = u64_text(user_id);
    !text_eq(id.as_str(), owner)
}

/// The log line after a command: laid out with the guild's name when it
/// was used in a guild, with "DM" otherwise.
pub fn command_log(guild_name: Option<&str>, user: &str, msg: &str) -> (r: String)
    ensures
        exists|g: Seq<char>, u: Seq<char>, m: Seq<char>|
            painted(
                match guild_name {
                    Some(n) => n@,
                    None => "DM"@,
                },
                LogColour::Green,
                g,
            ) && painted(user@, LogColour::Magenta, u) && painted(msg@, LogColour::Cyan, m) && r@
                == command_layout(g, u, m),
{
    match guild_name {
        Some(n) => command(n, user, msg),
        None => command_dm("DM", user, msg),
    }
}

} // verus!
