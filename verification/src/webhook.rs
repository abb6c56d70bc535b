//! The notices the bot posts to its join/leave webhook when it is added to
//! or removed from a guild.

use vstd::prelude::*;
use vstd::string::StringExecFns;
use crate::decimal::{nat_digits, u64_text};
use crate::embed::{Embed, EmbedColour, EmbedView, opt_text, inline_field, text_or};
use crate::text::owned;

verus! {

/// What the notice tells of a guild.
pub struct GuildSummary {
    pub name: String,
    pub id: u64,
    pub member_count: u64,
    pub channel_count: u64,
    pub icon_url: Option<String>,
}

/// A message for the webhook: the name and avatar it is posted under, and
/// its embed.
pub struct WebhookPost {
    pub username: String,
    pub avatar_url: String,
    pub embed: Embed,
}

/// The embed of a join or leave notice.
pub open spec fn guild_embed_view(title: Seq<char>, g: GuildSummary, colour: EmbedColour) -> EmbedView {
    EmbedView {
        title: title,
        description: Some(g.name@ + " ("@ + nat_digits(g.id as nat) + ")"@),
        url: None,
        author_name: None,
        author_icon: None,
        thumbnail: Some(
            match opt_text(g.icon_url) {
                Some(u) => u,
                None => Seq::empty(),
            },
        ),
        image: None,
        footer: None,
        colour: colour,
        fields: seq![
            ("Members"@, nat_digits(g.member_count as nat), true),
            ("Channels"@, nat_digits(g.channel_count as nat), true),
        ],
    }
}

fn guild_embed(title: &str, g: &GuildSummary, colour: EmbedColour) -> (e: Embed)
    ensures
        e@ == guild_embed_view(title@, *g, colour),
{
    proof {
        reveal_strlit("");
    }
    let mut description = g.name.clone();
    description.append(" (");
    let id = u64_text(g.id);
    description.append(id.as_str());
    description.append(")");
    let mut fields: Vec<crate::embed::EmbedField> = Vec::new();
    fields.push(inline_field("Members", u64_text(g.member_count)));
    fields.push(inline_field("Channels", u64_text(g.channel_count)));
    let e = Embed {
        title: owned(title),
        description: Some(description),
        url: None,
        author_name: None,
        author_icon: None,
        thumbnail: Some(text_or(g.icon_url.clone(), "")),
        image: None,
        footer: None,
        colour,
        fields,
    };
    assert(e@.fields =~= guild_embed_view(title@, *g, colour).fields);
    assert(e@.thumbnail == guild_embed_view(title@, *g, colour).thumbnail);
    e
}

/// The notice for a guild the bot joined, posted under the bot's name and
/// avatar, in the colour (246, 219, 216).
pub fn exec_join_webhook(g: &GuildSummary, bot_name: &str, bot_face: &str) -> (p: WebhookPost)
    ensures
        p.username@ == bot_name@,
        p.avatar_url@ == bot_face@,
        p.embed@ == guild_embed_view("Joined Guild:"@, *g, EmbedColour::Rgb(246, 219, 216)),
{
    WebhookPost {
        username: owned(bot_name),
        avatar_url: owned(bot_face),
        embed: guild_embed("Joined Guild:", g, EmbedColour::Rgb(246, 219, 216)),
    }
}

/// The notice for a guild the bot left, in the colour 14038325.
pub fn exec_leave_webhook(g: &GuildSummary, bot_name: &str, bot_face: &str) -> (p: WebhookPost)
    ensures
        p.username@ == bot_name@,
        p.avatar_url@ == bot_face@,
        p.embed@ == guild_embed_view("Left Guild:"@, *g, EmbedColour::Value(14038325)),
{
    WebhookPost {
        username: owned(bot_name),
        avatar_url: owned(bot_face),
        embed: guild_embed("Left Guild:", g, EmbedColour::Value(14038325)),
    }
}

} // verus!
