use maika::random::{
    choice_options, choice_reply, choose_between, coin_face, coinflip, eight_ball_reply, magic_eight_ball,
    roll, roll_plan, roll_reply, roulette, roulette_reply, RollPlan,
};

fn strings(xs: &[&str]) -> Vec<String> {
    xs.iter().map(|s| s.to_string()).collect()
}

const ANSWERS: [&str; 14] = [
    "It is certain",
    "Most likely",
    "Outlook good",
    "Without a doubt",
    "Yes",
    "You may rely on it",
    "Better not tell you now",
    "Reply hazy, try again",
    "Absolutely not",
    "Don't count on it",
    "My reply is no",
    "My sources say no",
    "Outlook not so good",
    "Very doubtful",
];

#[test]
fn options_split_at_commas_first() {
    assert_eq!(choice_options(&strings(&["red, green, blue"])), vec!["blue", "green", "red"]);
    assert_eq!(choice_options(&strings(&["tea", "coffee"])), vec!["coffee", "tea"]);
}

#[test]
fn options_fall_back_to_spaces_and_drop_repeats() {
    assert_eq!(choice_options(&strings(&["a b a"])), vec!["a", "b"]);
    assert_eq!(choice_options(&strings(&["one"])), vec!["one"]);
    assert_eq!(choice_options(&strings(&[])), vec![""]);
}

#[test]
fn options_ignore_order() {
    assert_eq!(choice_options(&strings(&["x, y, z"])), choice_options(&strings(&["z, x, y, x"])));
}

#[test]
fn choose_needs_two_options() {
    assert_eq!(choose_between(&strings(&["x"])), "Must have at least 2 choices");
    assert_eq!(choose_between(&strings(&["a", "a"])), "Must have at least 2 choices");
    assert_eq!(choose_between(&strings(&[])), "Must have at least 2 choices");
}

#[test]
fn choose_answers_an_option() {
    for _ in 0..50 {
        let r = choose_between(&strings(&["pizza, sushi, tacos"]));
        assert!(["pizza", "sushi", "tacos"].contains(&r.as_str()), "{}", r);
    }
}

#[test]
fn choice_reply_passes_the_pick_on() {
    let pick = "sushi".to_string();
    assert_eq!(choice_reply(Some(&pick)), "sushi");
    assert_eq!(choice_reply(None), "No choice found");
}

#[test]
fn coin_faces() {
    assert_eq!(coin_face(0), "Heads");
    assert_eq!(coin_face(126), "Heads");
    assert_eq!(coin_face(127), "On its side");
    assert_eq!(coin_face(128), "Tails");
    assert_eq!(coin_face(255), "Tails");
}

#[test]
fn coinflip_shows_a_face() {
    for _ in 0..50 {
        let r = coinflip();
        assert!(["Heads", "Tails", "On its side"].contains(&r.as_str()));
    }
}

#[test]
fn eight_ball_wants_a_question() {
    assert_eq!(magic_eight_ball(&strings(&[])), "Please specify some arguments");
}

#[test]
fn eight_ball_answers_from_its_list() {
    for _ in 0..50 {
        let r = magic_eight_ball(&strings(&["will it rain?"]));
        assert!(ANSWERS.contains(&r.as_str()), "{}", r);
    }
    assert_eq!(eight_ball_reply(Some(&"Yes")), "Yes");
    assert_eq!(eight_ball_reply(None), "No answer found");
}

#[test]
fn roll_plans() {
    assert!(matches!(roll_plan(&strings(&[])), RollPlan::Range(1, 6)));
    assert!(matches!(roll_plan(&strings(&["1"])), RollPlan::WrongCount));
    assert!(matches!(roll_plan(&strings(&["1", "2", "3"])), RollPlan::WrongCount));
    assert!(matches!(roll_plan(&strings(&["a", "2"])), RollPlan::NotInteger(ref t) if t == "a"));
    assert!(matches!(roll_plan(&strings(&["b", "c"])), RollPlan::NotInteger(ref t) if t == "b"));
    assert!(matches!(roll_plan(&strings(&["1", "x"])), RollPlan::NotInteger(ref t) if t == "x"));
    assert!(matches!(roll_plan(&strings(&["5", "5"])), RollPlan::Equal));
    assert!(matches!(roll_plan(&strings(&["10", "3"])), RollPlan::Range(3, 10)));
    assert!(matches!(roll_plan(&strings(&["-4", "+4"])), RollPlan::Range(-4, 4)));
}

#[test]
fn roll_refusals() {
    assert_eq!(roll(&strings(&["1"])), "Either 0 or 2 numbers must be given");
    assert_eq!(roll(&strings(&["abc", "2"])), "abc is not an integer");
    assert_eq!(roll(&strings(&["7", "7"])), "The given integers can not be equal");
    assert_eq!(roll_reply(&RollPlan::NotInteger("1.5".to_string()), 0), "1.5 is not an integer");
    assert_eq!(roll_reply(&RollPlan::Range(0, 9), -12), "-12");
}

#[test]
fn roll_draws_in_range() {
    for _ in 0..100 {
        let r: isize = roll(&strings(&["10", "3"])).parse().unwrap();
        assert!((3..10).contains(&r));
        let d: isize = roll(&strings(&[])).parse().unwrap();
        assert!((1..6).contains(&d));
        let n: isize = roll(&strings(&["-1", "0"])).parse().unwrap();
        assert_eq!(n, -1);
    }
}

#[test]
fn roulette_outcomes() {
    assert_eq!(roulette_reply(0, "<@42>"), "BANG! <@42> was shot");
    assert_eq!(roulette_reply(3, "<@42>"), "\\*click\\*");
    for _ in 0..50 {
        let r = roulette("<@42>");
        assert!(r == "BANG! <@42> was shot" || r == "\\*click\\*");
    }
}

#[test]
fn separate_words_are_the_options() {
    assert_eq!(choice_options(&strings(&["cat", "dog", "cat", "bird"])), vec!["bird", "cat", "dog"]);
}

#[test]
fn eight_ball_list_and_draw() {
    assert_eq!(maika::random::eight_ball_answer_list(), ANSWERS.to_vec());
    for _ in 0..30 {
        assert!(ANSWERS.contains(&maika::random::eight_ball().as_str()));
    }
}

#[test]
fn roulette_has_six_chambers() {
    assert_eq!(maika::random::roulette_chambers(), (0, 6));
}
