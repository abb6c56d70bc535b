//! The bot's games of chance: `choose`, `coinflip`, `8ball`, `roll` and
//! `roulette`. Each command that draws is split in two: a function that reads
//! the arguments and makes the draw, and a verified function that takes the
//! drawn value and says exactly what the bot answers.

use vstd::prelude::*;
use vstd::string::StringExecFns;
use crate::decimal::{int_decimal, isize_parse_spec, parse_isize, i64_text};
use crate::order::{strictly_sorted, same_elements, sorted_distinct, lemma_lex_irreflexive, law_sorted_list_unique};
use crate::rng::{random_choice, random_u8, random_range, drawn_range, drawn_from, drawn_byte, lemma_drawn_range_intro, lemma_drawn_from_intro, lemma_drawn_byte_intro};
use crate::text::{views, vviews, join_spec, split_spec, split_from, join, split, chars_of, string_of, owned, occurs_at, law_split_of_join, lemma_split_without_separator, lemma_split_from_scan, lemma_split_from_skip};

verus! {

pub open spec fn comma_space() -> Seq<char> {
    seq![',', ' ']
}

pub open spec fn space() -> Seq<char> {
    seq![' ']
}

/// The pieces that `choose` reads from its query: the query split at ", ",
/// or, when that gives fewer than two pieces, split at each space.
pub open spec fn choose_pieces(query: Seq<char>) -> Seq<Seq<char>> {
    let by_comma = split_spec(query, comma_space());
    if by_comma.len() < 2 {
        split_spec(query, space())
    } else {
        by_comma
    }
}

/// The distinct options that `choose` picks among: the pieces of the
/// arguments joined with a space.
pub open spec fn choice_set(args: Seq<Seq<char>>) -> Set<Seq<char>> {
    choose_pieces(join_spec(args, space())).to_set()
}

proof fn lemma_sorted_no_duplicates(s: Seq<Seq<char>>)
    requires
        strictly_sorted(s),
    ensures
        s.no_duplicates(),
        s.len() == s.to_set().len(),
{
    assert forall|i: int, j: int| 0 <= i < s.len() && 0 <= j < s.len() && i != j implies s[i] != s[j] by {
        if i < j {
            assert(crate::order::lex_lt(s[i], s[j]));
        } else {
            assert(crate::order::lex_lt(s[j], s[i]));
        }
        lemma_lex_irreflexive(s[i]);
    }
    s.unique_seq_to_set();
}

/// The options of `choose`: the pieces of the query, sorted, each kept once
/// (as `sort` followed by `dedup` leaves them).
pub fn choice_options(args: &Vec<String>) -> (r: Vec<String>)
    ensures
        strictly_sorted(views(r@)),
        views(r@).to_set() == choice_set(views(args@)),
        r@.len() == choice_set(views(args@)).len(),
{
    let query_text = join(args, " ");
    proof {
        reveal_strlit(" ");
        assert(" "@ =~= space());
    }
    let query = chars_of(query_text.as_str());
    assert(query@ == join_spec(views(args@), space()));
    let mut comma: Vec<char> = Vec::new();
    comma.push(',');
    comma.push(' ');
    let mut sp: Vec<char> = Vec::new();
    sp.push(' ');
    assert(comma@ == comma_space());
    assert(sp@ == space());
    let mut pieces = split(&query, &comma);
    if pieces.len() < 2 {
        pieces = split(&query, &sp);
    }
    let ghost p = vviews(pieces@);
    assert(p == choose_pieces(join_spec(views(args@), space())));
    let sorted = sorted_distinct(pieces);
    let mut out: Vec<String> = Vec::new();
    for i in 0..sorted.len()
        invariant
            views(out@) == vviews(sorted@).take(i as int),
    {
        let s = string_of(&sorted[i]);
        out.push(s);
        assert(vviews(sorted@).take(i + 1) == vviews(sorted@).take(i as int).push(sorted@[i as int]@));
    }
    assert(vviews(sorted@).take(sorted.len() as int) == vviews(sorted@));
    proof {
        let o = views(out@);
        assert(o == vviews(sorted@));
        assert(o.to_set() == p.to_set()) by {
            assert forall|x: Seq<char>| o.to_set().contains(x) <==> p.to_set().contains(x) by {
                assert(same_elements(o, p));
            }
        }
        lemma_sorted_no_duplicates(o);
    }
    out
}

/// What `choose` answers once the draw is made: the drawn option, or
/// "No choice found" when there was nothing to draw from.
pub fn choice_reply(picked: Option<&String>) -> (r: String)
    ensures
        match picked {
            Some(c) => r@ == c@,
            None => r@ == "No choice found"@,
        },
{
    match picked {
        Some(c) => c.clone(),
        None => owned("No choice found"),
    }
}

/// The `choose` command: with fewer than two distinct options it asks for
/// more; otherwise it answers one of the options, drawn at random.
pub fn choose_between(args: &Vec<String>) -> (r: String)
    ensures
        choice_set(views(args@)).len() < 2 ==> r@ == "Must have at least 2 choices"@,
        choice_set(views(args@)).len() >= 2 ==> choice_set(views(args@)).contains(r@),
        choice_set(views(args@)).len() >= 2 ==> exists|options: Seq<String>, c: String|
            strictly_sorted(views(options)) && views(options).to_set() == choice_set(views(args@))
                && drawn_from(options, Some(c)) && r@ == c@,
{
    let options = choice_options(args);
    if options.len() < 2 {
        return owned("Must have at least 2 choices");
    }
    let options_slice = options.as_slice();
    let picked = random_choice(options_slice);
    let r = choice_reply(picked);
    proof {
        let c = *picked.unwrap();
        lemma_drawn_from_intro(options_slice, picked);
        let c = *picked.unwrap();
        let k = choose|k: int| 0 <= k < options@.len() && options@[k] == c;
        assert(views(options@)[k] == c@);
        assert(views(options@).to_set().contains(c@));
    }
    r
}

/// Which options `choose` offers depends only on the set of options given,
/// not on their order or repeats: two option lists that `choice_options`
/// may return for argument lists with the same option set are equal.
pub proof fn law_choice_options_depend_on_set(
    args1: Seq<Seq<char>>,
    args2: Seq<Seq<char>>,
    opts1: Seq<Seq<char>>,
    opts2: Seq<Seq<char>>,
)
    requires
        choice_set(args1) == choice_set(args2),
        strictly_sorted(opts1),
        opts1.to_set() == choice_set(args1),
        strictly_sorted(opts2),
        opts2.to_set() == choice_set(args2),
    ensures
        opts1 == opts2,
{
    assert forall|x: Seq<char>| opts1.contains(x) <==> opts2.contains(x) by {
        assert(opts1.to_set().contains(x) == opts1.contains(x));
        assert(opts2.to_set().contains(x) == opts2.contains(x));
    }
    law_sorted_list_unique(opts1, opts2);
}

/// Whenever the query splits at ", " into two or more pieces, those pieces
/// are the options; only a query with a single comma piece is split at
/// spaces instead.
pub proof fn law_comma_pieces_are_the_options(args: Seq<Seq<char>>)
    ensures
        split_spec(join_spec(args, space()), comma_space()).len() >= 2 ==> choice_set(args)
            == split_spec(join_spec(args, space()), comma_space()).to_set(),
        split_spec(join_spec(args, space()), comma_space()).len() < 2 ==> choice_set(args)
            == split_spec(join_spec(args, space()), space()).to_set(),
{
}

/// A query made of two parts around one ", " (neither part holding ", ")
/// offers exactly those two parts: `choose a, b` chooses between `a` and `b`.
pub proof fn law_one_comma_two_options(args: Seq<Seq<char>>, a: Seq<char>, b: Seq<char>)
    requires
        join_spec(args, space()) == a + comma_space() + b,
        forall|k: int| !occurs_at(a, comma_space(), k),
        forall|k: int| !occurs_at(b, comma_space(), k),
    ensures
        choice_set(args) == set![a, b],
{
    let sep = comma_space();
    let s = a + sep + b;
    let n = a.len() as int;
    assert forall|k: int| 0 <= k < n implies !occurs_at(s, sep, k) by {
        if occurs_at(s, sep, k) {
            if k + 2 <= n {
                assert(a.subrange(k, k + 2) == s.subrange(k, k + 2));
                assert(occurs_at(a, sep, k));
            } else {
                assert(s.subrange(k, k + 2)[1] == s[k + 1]);
                assert(s[k + 1] == ',');
            }
        }
    }
    lemma_split_from_scan(s, sep, 0, n, Seq::empty());
    assert(Seq::<char>::empty() + s.subrange(0, n) == a);
    assert(s.subrange(n, n + 2) == sep);
    assert(occurs_at(s, sep, n));
    lemma_split_from_skip(s, sep, n + 2, Seq::empty());
    assert(s.skip(n + 2) == b);
    assert forall|k: int| 0 <= k < b.len() implies !occurs_at(b, sep, k) by {}
    lemma_split_without_separator(b, sep);
    let pieces = split_spec(s, sep);
    assert(pieces == seq![a, b]);
    assert(pieces.to_set() =~= set![a, b]) by {
        assert forall|x: Seq<char>| pieces.to_set().contains(x) <==> set![a, b].contains(x) by {
            if x == a {
                assert(pieces[0] == x);
            }
            if x == b {
                assert(pieces[1] == x);
            }
        }
    }
}

/// Words without spaces, given as separate arguments, are exactly the
/// options of `choose` (as long as no ", " appears once they are joined).
pub proof fn law_choice_set_of_words(args: Seq<Seq<char>>)
    requires
        args.len() > 0,
        forall|i: int, k: int| 0 <= i < args.len() && 0 <= k < args[i].len() ==> args[i][k] != ' ',
        forall|k: int| !occurs_at(join_spec(args, space()), comma_space(), k),
    ensures
        choice_set(args) == args.to_set(),
{
    let q = join_spec(args, space());
    lemma_split_without_separator(q, comma_space());
    assert(split_spec(q, comma_space()).len() == 1);
    law_split_of_join(args, ' ');
    assert(space() == seq![' ']);
}

/// The face a coin shows for a drawn byte: 0 to 126 is heads, 128 to 255
/// is tails, and 127 lands it on its side.
pub fn coin_face(n: u8) -> (r: String)
    ensures
        n <= 126 ==> r@ == "Heads"@,
        n >= 128 ==> r@ == "Tails"@,
        n == 127 ==> r@ == "On its side"@,
{
    if n <= 126 {
        owned("Heads")
    } else if n >= 128 {
        owned("Tails")
    } else {
        owned("On its side")
    }
}

/// The `coinflip` command: a random byte turned into a face.
pub fn coinflip() -> (r: String)
    ensures
        r@ == "Heads"@ || r@ == "Tails"@ || r@ == "On its side"@,
        exists|n: u8|
            drawn_byte(n) && (n <= 126 ==> r@ == "Heads"@) && (n >= 128 ==> r@ == "Tails"@) && (n == 127
                ==> r@ == "On its side"@),
{
    let n = random_u8();
    proof {
        lemma_drawn_byte_intro(n);
    }
    coin_face(n)
}

/// The fourteen answers of the magic 8-ball.
pub open spec fn eight_ball_answers() -> Seq<Seq<char>> {
    seq![
        "It is certain"@,
        "Most likely"@,
        "Outlook good"@,
        "Without a doubt"@,
        "Yes"@,
        "You may rely on it"@,
        "Better not tell you now"@,
        "Reply hazy, try again"@,
        "Absolutely not"@,
        "Don't count on it"@,
        "My reply is no"@,
        "My sources say no"@,
        "Outlook not so good"@,
        "Very doubtful"@,
    ]
}

/// The answers, in the order of `eight_ball_answers`.
pub fn eight_ball_answer_list() -> (v: Vec<&'static str>)
    ensures
        v@.len() == eight_ball_answers().len(),
        forall|i: int| 0 <= i < v@.len() ==> (#[trigger] v@[i])@ == eight_ball_answers()[i],
{
    let mut v: Vec<&'static str> = Vec::new();
    v.push("It is certain");
    v.push("Most likely");
    v.push("Outlook good");
    v.push("Without a doubt");
    v.push("Yes");
    v.push("You may rely on it");
    v.push("Better not tell you now");
    v.push("Reply hazy, try again");
    v.push("Absolutely not");
    v.push("Don't count on it");
    v.push("My reply is no");
    v.push("My sources say no");
    v.push("Outlook not so good");
    v.push("Very doubtful");
    v
}

/// What the 8-ball answers once the draw is made.
pub fn eight_ball_reply(picked: Option<&&str>) -> (r: String)
    ensures
        match picked {
            Some(a) => r@ == (*a)@,
            None => r@ == "No answer found"@,
        },
{
    match picked {
        Some(a) => owned(*a),
        None => owned("No answer found"),
    }
}

/// `r` is the answer drawn from the list of the fourteen answers.
pub open spec fn eight_ball_draw(r: Seq<char>) -> bool {
    exists|answers: Seq<&'static str>, a: &'static str|
        answers.len() == eight_ball_answers().len() && (forall|i: int|
            0 <= i < answers.len() ==> (#[trigger] answers[i])@ == eight_ball_answers()[i]) && drawn_from(
            answers,
            Some(a),
        ) && r == a@
}

/// The magic 8-ball itself: one of the fourteen answers, drawn at random
/// from `eight_ball_answer_list`. It takes nothing, so what it answers
/// cannot depend on the question.
pub fn eight_ball() -> (r: String)
    ensures
        eight_ball_answers().contains(r@),
        eight_ball_draw(r@),
{
    let answers = eight_ball_answer_list();
    let answers_slice = answers.as_slice();
    let picked = random_choice(answers_slice);
    let r = eight_ball_reply(picked);
    proof {
        lemma_drawn_from_intro(answers_slice, picked);
        let a = *picked.unwrap();
        let k = choose|k: int| 0 <= k < answers@.len() && answers@[k] == a;
        assert(answers@[k]@ == eight_ball_answers()[k]);
    }
    r
}

/// The `8ball` command: without arguments it asks for some; otherwise it
/// shakes the 8-ball, whatever the arguments say.
pub fn magic_eight_ball(args: &Vec<String>) -> (r: String)
    ensures
        args@.len() == 0 ==> r@ == "Please specify some arguments"@,
        args@.len() > 0 ==> eight_ball_answers().contains(r@),
        args@.len() > 0 ==> eight_ball_draw(r@),
{
    if args.len() == 0 {
        return owned("Please specify some arguments");
    }
    eight_ball()
}

/// What `roll` does with its arguments.
pub enum RollPlan {
    /// Neither none nor two arguments were given.
    WrongCount,
    /// This argument is not an integer.
    NotInteger(String),
    /// The two integers are equal.
    Equal,
    /// Draw from `low..high`.
    Range(isize, isize),
}

/// The plan of `roll`, as mathematical values.
pub enum RollPlanView {
    WrongCount,
    NotInteger(Seq<char>),
    Equal,
    Range(isize, isize),
}

impl View for RollPlan {
    type V = RollPlanView;

    open spec fn view(&self) -> RollPlanView {
        match self {
            RollPlan::WrongCount => RollPlanView::WrongCount,
            RollPlan::NotInteger(t) => RollPlanView::NotInteger(t@),
            RollPlan::Equal => RollPlanView::Equal,
            RollPlan::Range(low, high) => RollPlanView::Range(*low, *high),
        }
    }
}

/// What `roll` does with the given arguments: no arguments roll in `1..6`;
/// two integers roll from the smaller (inclusive) to the larger (exclusive);
/// the first argument that is not an integer is reported; equal integers
/// and any other number of arguments are refused.
pub open spec fn roll_plan_spec(args: Seq<Seq<char>>) -> RollPlanView {
    if args.len() == 0 {
        RollPlanView::Range(1, 6)
    } else if args.len() != 2 {
        RollPlanView::WrongCount
    } else {
        match (isize_parse_spec(args[0]), isize_parse_spec(args[1])) {
            (None, _) => RollPlanView::NotInteger(args[0]),
            (Some(_), None) => RollPlanView::NotInteger(args[1]),
            (Some(a), Some(b)) => if a == b {
                RollPlanView::Equal
            } else if a < b {
                RollPlanView::Range(a, b)
            } else {
                RollPlanView::Range(b, a)
            },
        }
    }
}

/// The answer of `roll` for a plan that draws nothing.
pub open spec fn roll_refusal(plan: RollPlanView) -> Seq<char> {
    match plan {
        RollPlanView::WrongCount => "Either 0 or 2 numbers must be given"@,
        RollPlanView::NotInteger(t) => t + " is not an integer"@,
        RollPlanView::Equal => "The given integers can not be equal"@,
        RollPlanView::Range(_, _) => Seq::empty(),
    }
}

/// Reads the arguments of `roll`.
pub fn roll_plan(args: &Vec<String>) -> (r: RollPlan)
    ensures
        r@ == roll_plan_spec(views(args@)),
{
    if args.len() == 0 {
        return RollPlan::Range(1, 6);
    }
    if args.len() != 2 {
        return RollPlan::WrongCount;
    }
    let a = match parse_isize(args[0].as_str()) {
        Some(a) => a,
        None => {
            return RollPlan::NotInteger(args[0].clone());
        },
    };
    let b = match parse_isize(args[1].as_str()) {
        Some(b) => b,
        None => {
            return RollPlan::NotInteger(args[1].clone());
        },
    };
    if a == b {
        RollPlan::Equal
    } else if a < b {
        RollPlan::Range(a, b)
    } else {
        RollPlan::Range(b, a)
    }
}

/// The answer of `roll` once the plan is read and, for a range, the number drawn.
pub fn roll_reply(plan: &RollPlan, drawn: isize) -> (r: String)
    ensures
        plan@ is Range ==> r@ == int_decimal(drawn as int),
        !(plan@ is Range) ==> r@ == roll_refusal(plan@),
{
    match plan {
        RollPlan::WrongCount => owned("Either 0 or 2 numbers must be given"),
        RollPlan::NotInteger(t) => {
            let mut r = t.clone();
            r.append(" is not an integer");
            r
        },
        RollPlan::Equal => owned("The given integers can not be equal"),
        RollPlan::Range(_, _) => i64_text(drawn as i64),
    }
}

/// The `roll` command: a random number from the range its arguments give,
/// or the reason it cannot roll.
pub fn roll(args: &Vec<String>) -> (r: String)
    ensures
        match roll_plan_spec(views(args@)) {
            RollPlanView::Range(low, high) => exists|v: isize|
                low <= v < high && drawn_range(low, high, v) && r@ == int_decimal(v as int),
            plan => r@ == roll_refusal(plan),
        },
{
    let plan = roll_plan(args);
    match plan {
        RollPlan::Range(low, high) => {
            let drawn = random_range(low, high);
            proof {
                lemma_drawn_range_intro(low, high, drawn);
            }
            let r = roll_reply(&plan, drawn);
            assert(low <= drawn < high && r@ == int_decimal(drawn as int));
            r
        },
        _ => roll_reply(&plan, 0),
    }
}

/// The order of the two numbers given to `roll` does not matter.
pub proof fn law_roll_order_free(a: Seq<char>, b: Seq<char>)
    requires
        isize_parse_spec(a) is Some,
        isize_parse_spec(b) is Some,
    ensures
        roll_plan_spec(seq![a, b]) == roll_plan_spec(seq![b, a]),
{
}

/// The answer of `roulette` when the shot goes off.
pub open spec fn roulette_bang(author: Seq<char>) -> Seq<char> {
    "BANG! "@ + author + " was shot"@
}

/// What `roulette` answers for a drawn chamber: chamber 0 fires.
pub fn roulette_reply(chamber: isize, author: &str) -> (r: String)
    ensures
        chamber == 0 ==> r@ == roulette_bang(author@),
        chamber != 0 ==> r@ == "\\*click\\*"@,
{
    if chamber == 0 {
        let mut r = owned("BANG! ");
        r.append(author);
        r.append(" was shot");
        r
    } else {
        owned("\\*click\\*")
    }
}

/// The chambers of the revolver: numbered `0` up to, not including, `6`;
/// the shot is in chamber `0`.
pub fn roulette_chambers() -> (r: (isize, isize))
    ensures
        r == (0isize, 6isize),
{
    (0, 6)
}

/// The `roulette` command: one chamber in six fires at the author; the
/// chamber is drawn from `roulette_chambers`.
pub fn roulette(author: &str) -> (r: String)
    ensures
        r@ == roulette_bang(author@) || r@ == "\\*click\\*"@,
        exists|chamber: isize|
            drawn_range(0, 6, chamber) && (chamber == 0 ==> r@ == roulette_bang(author@)) && (chamber != 0
                ==> r@ == "\\*click\\*"@),
{
    let (first, end) = roulette_chambers();
    let chamber = random_range(first, end);
    proof {
        lemma_drawn_range_intro(first, end, chamber);
    }
    roulette_reply(chamber, author)
}

} // verus!
