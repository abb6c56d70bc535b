//! Rich messages ("embeds") as plain values: what the bot fills in, before
//! the chat client turns them into its own builder calls.

use vstd::prelude::*;

verus! {

/// The colour bar of an embed.
#[derive(Clone, Copy)]
pub enum EmbedColour {
    /// Built from red, green and blue components.
    Rgb(u8, u8, u8),
    /// Given as one packed `0xRRGGBB` value.
    Value(u32),
}

/// One titled field of an embed.
pub struct EmbedField {
    pub name: String,
    pub value: String,
    pub inline: bool,
}

/// An embed, with the parts the bot's commands set.
pub struct Embed {
    pub title: String,
    pub description: Option<String>,
    pub url: Option<String>,
    pub author_name: Option<String>,
    pub author_icon: Option<String>,
    pub thumbnail: Option<String>,
    pub image: Option<String>,
    pub footer: Option<String>,
    pub colour: EmbedColour,
    pub fields: Vec<EmbedField>,
}

/// An embed as mathematical values.
pub struct EmbedView {
    pub title: Seq<char>,
    pub description: Option<Seq<char>>,
    pub url: Option<Seq<char>>,
    pub author_name: Option<Seq<char>>,
    pub author_icon: Option<Seq<char>>,
    pub thumbnail: Option<Seq<char>>,
    pub image: Option<Seq<char>>,
    pub footer: Option<Seq<char>>,
    pub colour: EmbedColour,
    pub fields: Seq<(Seq<char>, Seq<char>, bool)>,
}

pub open spec fn opt_text(o: Option<String>) -> Option<Seq<char>> {
    match o {
        Some(s) => Some(s@),
        None => None,
    }
}

pub open spec fn field_view(f: EmbedField) -> (Seq<char>, Seq<char>, bool) {
    (f.name@, f.value@, f.inline)
}

impl View for Embed {
    type V = EmbedView;

    open spec fn view(&self) -> EmbedView {
        EmbedView {
            title: self.title@,
            description: opt_text(self.description),
            url: opt_text(self.url),
            author_name: opt_text(self.author_name),
            author_icon: opt_text(self.author_icon),
            thumbnail: opt_text(self.thumbnail),
            image: opt_text(self.image),
            footer: opt_text(self.footer),
            colour: self.colour,
            fields: self.fields@.map_values(|f: EmbedField| field_view(f)),
        }
    }
}

/// A field shown inline.
pub fn inline_field(name: &str, value: String) -> (f: EmbedField)
    ensures
        field_view(f) == (name@, value@, true),
{
    EmbedField { name: crate::text::owned(name), value, inline: true }
}

/// The text in an optional value, or `fallback` when there is none
/// (`unwrap_or` on an optional string).
pub fn text_or(o: Option<String>, fallback: &str) -> (r: String)
    ensures
        r@ == match opt_text(o) {
            Some(t) => t,
            None => fallback@,
        },
{
    match o {
        Some(t) => t,
        None => crate::text::owned(fallback),
    }
}

} // verus!
