//! The `anime` command.

use vstd::prelude::*;
use vstd::string::StringExecFns;
use crate::decimal::{nat_digits, u64_text};
use crate::embed::{Embed, EmbedColour, EmbedView, opt_text, inline_field, text_or};
use crate::general::{Step, StepView};
use crate::text::{views, join_spec, join, owned};

verus! {

/// The `anime` command: without arguments it asks what to search for;
/// otherwise the arguments, joined with spaces, are the search text.
pub fn anime(args: &Vec<String>) -> (r: Step)
    ensures
        args@.len() == 0 ==> r@ == StepView::Reply("Which anime should I search for?"@),
        args@.len() > 0 ==> r@ == StepView::Query(join_spec(views(args@), " "@)),
{
    if args.len() == 0 {
        Step::Reply(owned("Which anime should I search for?"))
    } else {
        Step::Query(join(args, " "))
    }
}

/// The first anime a search found, as the anime service describes it.
pub struct AnimeInfo {
    pub canonical_title: String,
    pub url: String,
    pub synopsis: String,
    /// The age rating, written as its variant name.
    pub age_rating: Option<String>,
    /// The average rating, rounded to two decimals and written out.
    pub average_rating: Option<String>,
    /// The name of the show's kind, when the service names it.
    pub kind_name: Option<String>,
    pub airing_status_name: String,
    pub episode_count: Option<u64>,
    pub start_date: String,
    pub end_date: Option<String>,
    /// The URL of the largest poster image, if there is one.
    pub poster: Option<String>,
}

pub open spec fn or_text(o: Option<Seq<char>>, fallback: Seq<char>) -> Seq<char> {
    match o {
        Some(t) => t,
        None => fallback,
    }
}

/// The embed of `anime` for what the search found.
pub open spec fn anime_view(a: AnimeInfo) -> EmbedView {
    EmbedView {
        title: a.canonical_title@,
        description: Some(a.synopsis@),
        url: Some(a.url@),
        author_name: None,
        author_icon: None,
        thumbnail: Some(or_text(opt_text(a.poster), "-"@)),
        image: None,
        footer: None,
        colour: EmbedColour::Rgb(246, 219, 216),
        fields: seq![
            ("Average Rating"@, or_text(opt_text(a.average_rating), "-"@), true),
            ("Type"@, or_text(opt_text(a.kind_name), "-"@), true),
            ("Age Rating"@, or_text(opt_text(a.age_rating), "-"@), true),
            ("Episodes"@, match a.episode_count {
                Some(n) => nat_digits(n as nat),
                None => "-"@,
            }, true),
            ("Status"@, a.airing_status_name@, true),
            ("Start/End"@, a.start_date@ + " until "@ + or_text(opt_text(a.end_date), "?"@), true),
        ],
    }
}

/// What `anime` shows for the outcome of the search: the embed of the first
/// anime found, or "Failed to get anime info." when the search failed or
/// found nothing.
pub fn anime_result(found: Option<AnimeInfo>) -> (r: Result<Embed, String>)
    ensures
        match found {
            Some(a) => r matches Ok(e) && e@ == anime_view(a),
            None => r matches Err(t) && t@ == "Failed to get anime info."@,
        },
{
    let a = match found {
        Some(a) => a,
        None => {
            return Err(owned("Failed to get anime info."));
        },
    };
    let ghost av = a;
    let episodes = match a.episode_count {
        Some(n) => u64_text(n),
        None => owned("-"),
    };
    let mut start_end = a.start_date;
    start_end.append(" until ");
    let end = text_or(a.end_date, "?");
    start_end.append(end.as_str());
    let mut fields: Vec<crate::embed::EmbedField> = Vec::new();
    fields.push(inline_field("Average Rating", text_or(a.average_rating, "-")));
    fields.push(inline_field("Type", text_or(a.kind_name, "-")));
    fields.push(inline_field("Age Rating", text_or(a.age_rating, "-")));
    fields.push(inline_field("Episodes", episodes));
    fields.push(inline_field("Status", a.airing_status_name));
    fields.push(inline_field("Start/End", start_end));
    let e = Embed {
        title: a.canonical_title,
        description: Some(a.synopsis),
        url: Some(a.url),
        author_name: None,
        author_icon: None,
        thumbnail: Some(text_or(a.poster, "-")),
        image: None,
        footer: None,
        colour: EmbedColour::Rgb(246, 219, 216),
        fields,
    };
    assert(e@.fields =~= anime_view(av).fields);
    Ok(e)
}

} // verus!
