//! The general commands: `ping`, `userinfo` and `cleverbot`.

use vstd::prelude::*;
use vstd::string::StringExecFns;
use crate::decimal::{int_decimal, nat_digits, i64_text, u64_text};
use crate::embed::{Embed, EmbedColour, opt_text, inline_field};
use crate::text::{views, join_spec, join, owned};

verus! {

/// What a command does next: answer with a text, or send the text as a
/// query to an outside service first.
pub enum Step {
    Reply(String),
    Query(String),
}

/// A step as mathematical values.
pub enum StepView {
    Reply(Seq<char>),
    Query(Seq<char>),
}

impl View for Step {
    type V = StepView;

    open spec fn view(&self) -> StepView {
        match self {
            Step::Reply(t) => StepView::Reply(t@),
            Step::Query(q) => StepView::Query(q@),
        }
    }
}

/// The first answer of `ping`, sent before the round trip is timed.
pub fn ping_first_reply() -> (r: String)
    ensures
        r@ == "Pong!"@,
{
    owned("Pong!")
}

/// What `ping` edits its answer to, once the round trip took `ms` milliseconds.
pub fn ping(ms: i64) -> (r: String)
    ensures
        r@ == "Pong!, "@ + int_decimal(ms as int) + " milliseconds"@,
{
    let mut r = owned("Pong!, ");
    let n = i64_text(ms);
    r.append(n.as_str());
    r.append(" milliseconds");
    r
}

/// The `cleverbot` command: without arguments it asks for a topic;
/// otherwise the arguments, joined with spaces, go to the chat service.
pub fn cleverbot(args: &Vec<String>) -> (r: Step)
    ensures
        args@.len() == 0 ==> r@ == StepView::Reply("What do you want to talk about?"@),
        args@.len() > 0 ==> r@ == StepView::Query(join_spec(views(args@), " "@)),
{
    if args.len() == 0 {
        Step::Reply(owned("What do you want to talk about?"))
    } else {
        Step::Query(join(args, " "))
    }
}

/// Seconds since the Unix epoch that chrono turns into a date and time
/// without panicking: from the start of 1 January -262143 to the end of
/// 31 December 262142, chrono's range of dates.
pub open spec fn chrono_timestamp_ok(secs: int) -> bool {
    -8_334_601_228_800 <= secs <= 8_210_266_876_799
}

/// The text chrono gives for a timestamp under the `%c` format.
pub uninterp spec fn chrono_c_text(secs: int) -> Seq<char>;

/// `NaiveDateTime::from_timestamp(secs, 0).format("%c").to_string()`.
/// chrono's `%c` is the fixed layout `%a %b %e %H:%M:%S %Y` (the crate's
/// locale feature is off), so the text depends on `secs` alone; it is named,
/// not stated. `from_timestamp` panics exactly outside chrono's range of
/// dates, which `chrono_timestamp_ok` excludes.
#[verifier::external_body]
#[allow(deprecated)]
fn format_timestamp(secs: i64) -> (r: String)
    requires
        chrono_timestamp_ok(secs as int),
    ensures
        r@ == chrono_c_text(secs as int),
{
    chrono::NaiveDateTime::from_timestamp(secs, 0).format("%c").to_string()
}

/// Whether a timestamp can be shown by `userinfo`.
pub fn timestamp_ok(secs: i64) -> (r: bool)
    ensures
        r == chrono_timestamp_ok(secs as int),
{
    -8_334_601_228_800 <= secs && secs <= 8_210_266_876_799
}

/// The author of a message, as the chat client reports it.
pub struct Author {
    /// The user's id.
    pub id: u64,
    /// `name#discriminator`.
    pub tag: String,
    /// The user's name.
    pub name: String,
    /// The URL of the user's avatar.
    pub face: String,
    /// When the account was made, in seconds since the Unix epoch.
    pub created_at: i64,
}

/// The author's membership of the guild the message came from.
pub struct Member {
    /// The nickname in this guild, if any.
    pub nick: Option<String>,
    /// When the member joined, in seconds since the Unix epoch, if known.
    pub joined_at: Option<i64>,
    /// The name of each of the member's roles; `None` where the role could
    /// not be found.
    pub role_names: Vec<Option<String>>,
}

pub open spec fn everyone() -> Seq<char> {
    "@every\u{200b}one"@
}

pub open spec fn opt_views(names: Seq<Option<String>>) -> Seq<Option<Seq<char>>> {
    names.map_values(|o: Option<String>| opt_text(o))
}

/// The roles line of `userinfo`: "@everyone" (kept from pinging by a
/// zero-width space), then ", " and the name of each role; `None` when a
/// role has no name.
pub open spec fn roles_spec(names: Seq<Option<Seq<char>>>) -> Option<Seq<char>>
    decreases names.len(),
{
    if names.len() == 0 {
        Some(everyone())
    } else {
        match (roles_spec(names.drop_last()), names.last()) {
            (Some(t), Some(n)) => Some(t + ", "@ + n),
            _ => None,
        }
    }
}

proof fn lemma_roles_none_persists(s: Seq<Option<Seq<char>>>, k: int)
    requires
        0 <= k <= s.len(),
        roles_spec(s.take(k)) is None,
    ensures
        roles_spec(s) is None,
    decreases s.len() - k,
{
    if k < s.len() {
        assert(s.take(k + 1).drop_last() == s.take(k));
        lemma_roles_none_persists(s, k + 1);
    } else {
        assert(s.take(k) == s);
    }
}

/// One more named role adds ", " and its name at the end of the roles line.
pub proof fn law_roles_line_grows(names: Seq<Option<Seq<char>>>, name: Seq<char>)
    ensures
        roles_spec(names) matches Some(t) ==> roles_spec(names.push(Some(name))) == Some(t + ", "@ + name),
{
    assert(names.push(Some(name)).drop_last() == names);
}

/// When every role has a name, the roles line is "@everyone" followed by
/// ", " and the name of each role, every role in its order.
pub proof fn law_roles_line_lists_every_role(names: Seq<Option<Seq<char>>>)
    requires
        forall|i: int| 0 <= i < names.len() ==> (#[trigger] names[i]) is Some,
    ensures
        roles_spec(names) == Some(everyone() + names.map_values(|o: Option<Seq<char>>| ", "@ + o.unwrap()).flatten()),
    decreases names.len(),
{
    let f = |o: Option<Seq<char>>| ", "@ + o.unwrap();
    if names.len() == 0 {
        assert(names.map_values(f) == Seq::<Seq<char>>::empty());
        assert(everyone() + Seq::<char>::empty() == everyone());
    } else {
        let init = names.drop_last();
        assert forall|i: int| 0 <= i < init.len() implies (#[trigger] init[i]) is Some by {
            assert(init[i] == names[i]);
        }
        law_roles_line_lists_every_role(init);
        assert(names.map_values(f) == init.map_values(f).push(f(names.last())));
        init.map_values(f).lemma_flatten_push(f(names.last()));
        assert(names.last() is Some);
    }
}

/// The roles line is missing exactly when some role has no name.
pub proof fn law_roles_missing_exactly_when_a_name_is(names: Seq<Option<Seq<char>>>)
    ensures
        roles_spec(names) is None <==> exists|i: int| 0 <= i < names.len() && names[i] is None,
    decreases names.len(),
{
    if names.len() > 0 {
        let init = names.drop_last();
        law_roles_missing_exactly_when_a_name_is(init);
        if exists|i: int| 0 <= i < names.len() && names[i] is None {
            let i = choose|i: int| 0 <= i < names.len() && names[i] is None;
            if i < names.len() - 1 {
                assert(init[i] is None);
            }
        }
        if exists|i: int| 0 <= i < init.len() && init[i] is None {
            let i = choose|i: int| 0 <= i < init.len() && init[i] is None;
            assert(names[i] is None);
        }
    }
}

/// The roles line of `userinfo`.
pub fn roles_text(names: &Vec<Option<String>>) -> (r: Option<String>)
    ensures
        opt_text(r) == roles_spec(opt_views(names@)),
{
    let ghost all = opt_views(names@);
    let mut r = owned("@every\u{200b}one");
    assert(all.take(0) == Seq::<Option<Seq<char>>>::empty());
    for i in 0..names.len()
        invariant
            all == opt_views(names@),
            roles_spec(all.take(i as int)) == Some(r@),
    {
        assert(all.take(i + 1).drop_last() == all.take(i as int));
        match &names[i] {
            Some(n) => {
                r.append(", ");
                r.append(n.as_str());
            },
            None => {
                proof {
                    lemma_roles_none_persists(all, i + 1);
                }
                return None;
            },
        }
    }
    assert(all.take(names.len() as int) == all);
    Some(r)
}

/// The embed of `userinfo`, given the roles line and the two dates as text.
pub open spec fn userinfo_view(
    author: Author,
    nick: Seq<char>,
    roles: Seq<char>,
    created: Seq<char>,
    joined: Seq<char>,
) -> crate::embed::EmbedView {
    crate::embed::EmbedView {
        title: "Info"@,
        description: None,
        url: None,
        author_name: Some(author.tag@),
        author_icon: Some(author.face@),
        thumbnail: None,
        image: Some(author.face@),
        footer: Some("Member since "@ + joined),
        colour: EmbedColour::Rgb(246, 219, 216),
        fields: seq![
            ("ID"@, nat_digits(author.id as nat), true),
            ("Current Name"@, nick, true),
            ("Created at"@, created, true),
            ("Roles"@, roles, true),
        ],
    }
}

/// The nickname, or else the user's name.
pub open spec fn shown_name(author: Author, member: Member) -> Seq<char> {
    match member.nick {
        Some(n) => n@,
        None => author.name@,
    }
}

/// The embed of `userinfo` once the roles line and the dates are written out.
pub fn userinfo_embed(author: &Author, member: &Member, roles: String, created: String, joined: String) -> (e: Embed)
    ensures
        e@ == userinfo_view(*author, shown_name(*author, *member), roles@, created@, joined@),
{
    let nick = match &member.nick {
        Some(n) => n.clone(),
        None => author.name.clone(),
    };
    let mut footer = owned("Member since ");
    footer.append(joined.as_str());
    let mut fields: Vec<crate::embed::EmbedField> = Vec::new();
    fields.push(inline_field("ID", u64_text(author.id)));
    fields.push(inline_field("Current Name", nick));
    fields.push(inline_field("Created at", created));
    fields.push(inline_field("Roles", roles));
    let e = Embed {
        title: owned("Info"),
        description: None,
        url: None,
        author_name: Some(author.tag.clone()),
        author_icon: Some(author.face.clone()),
        thumbnail: None,
        image: Some(author.face.clone()),
        footer: Some(footer),
        colour: EmbedColour::Rgb(246, 219, 216),
        fields,
    };
    assert(e@.fields =~= userinfo_view(*author, shown_name(*author, *member), roles@, created@, joined@).fields);
    e
}

/// The `userinfo` command, for a message whose author is `author` and,
/// when the message came from a guild the author is a member of, that
/// membership. Outside a guild there is nothing to show (`Ok(None)`); a role
/// without a name is an error, found before any date is written; otherwise
/// the embed, with the account's creation date and the join date (the Unix
/// epoch when unknown) in chrono's `%c` layout. The dates must lie in
/// chrono's range only when they are written.
pub fn userinfo(author: &Author, member: Option<&Member>) -> (r: Result<Option<Embed>, String>)
    requires
        member matches Some(m) ==> (roles_spec(opt_views(m.role_names@)) is Some ==> (chrono_timestamp_ok(
            author.created_at as int,
        ) && (m.joined_at matches Some(j) ==> chrono_timestamp_ok(j as int)))),
    ensures
        member is None ==> r matches Ok(None),
        member matches Some(m) ==> match roles_spec(opt_views(m.role_names@)) {
            None => r matches Err(t) && t@ == "No RoleId for this Role"@,
            Some(roles) => r matches Ok(Some(e)) && e@ == userinfo_view(
                *author,
                shown_name(*author, *m),
                roles,
                chrono_c_text(author.created_at as int),
                chrono_c_text(
                    match m.joined_at {
                        Some(j) => j as int,
                        None => 0,
                    },
                ),
            ),
        },
{
    let m = match member {
        Some(m) => m,
        None => {
            return Ok(None);
        },
    };
    let roles = match roles_text(&m.role_names) {
        Some(t) => t,
        None => {
            return Err(owned("No RoleId for this Role"));
        },
    };
    let joined_secs: i64 = match m.joined_at {
        Some(j) => j,
        None => 0,
    };
    let joined = format_timestamp(joined_secs);
    let created = format_timestamp(author.created_at);
    Ok(Some(userinfo_embed(author, m, roles, created, joined)))
}

} // verus!
