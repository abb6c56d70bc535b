use maika::embed::EmbedColour;
use maika::general::{cleverbot, ping, ping_first_reply, roles_text, timestamp_ok, userinfo, Author, Member, Step};

fn strings(xs: &[&str]) -> Vec<String> {
    xs.iter().map(|s| s.to_string()).collect()
}

fn author() -> Author {
    Author {
        id: 381870553235193857,
        tag: "maika#0042".to_string(),
        name: "maika".to_string(),
        face: "https://cdn.example/avatar.png".to_string(),
        created_at: 1_511_119_200,
    }
}

#[test]
fn ping_texts() {
    assert_eq!(ping_first_reply(), "Pong!");
    assert_eq!(ping(15), "Pong!, 15 milliseconds");
    assert_eq!(ping(0), "Pong!, 0 milliseconds");
    assert_eq!(ping(-3), "Pong!, -3 milliseconds");
}

#[test]
fn cleverbot_steps() {
    assert!(matches!(cleverbot(&strings(&[])), Step::Reply(ref t) if t == "What do you want to talk about?"));
    assert!(matches!(cleverbot(&strings(&["how", "are you"])), Step::Query(ref q) if q == "how are you"));
}

#[test]
fn roles_lines() {
    assert_eq!(roles_text(&vec![]), Some("@every\u{200b}one".to_string()));
    assert_eq!(
        roles_text(&vec![Some("Mod".to_string()), Some("Admin".to_string())]),
        Some("@every\u{200b}one, Mod, Admin".to_string())
    );
    assert_eq!(roles_text(&vec![Some("Mod".to_string()), None, Some("x".to_string())]), None);
}

#[test]
fn timestamps_in_range() {
    assert!(timestamp_ok(0));
    assert!(timestamp_ok(1_511_119_200));
    assert!(!timestamp_ok(i64::MAX));
    assert!(!timestamp_ok(i64::MIN));
}

#[test]
fn userinfo_outside_a_guild_shows_nothing() {
    assert!(matches!(userinfo(&author(), None), Ok(None)));
}

#[test]
fn userinfo_refuses_a_role_without_name() {
    let m = Member { nick: None, joined_at: None, role_names: vec![None] };
    match userinfo(&author(), Some(&m)) {
        Err(e) => assert_eq!(e, "No RoleId for this Role"),
        Ok(_) => panic!("expected an error"),
    }
}

#[test]
fn userinfo_embed_fields() {
    let m = Member {
        nick: Some("Mai".to_string()),
        joined_at: None,
        role_names: vec![Some("Staff".to_string())],
    };
    let e = userinfo(&author(), Some(&m)).unwrap().unwrap();
    assert_eq!(e.title, "Info");
    assert_eq!(e.author_name.as_deref(), Some("maika#0042"));
    assert_eq!(e.author_icon.as_deref(), Some("https://cdn.example/avatar.png"));
    assert_eq!(e.image.as_deref(), Some("https://cdn.example/avatar.png"));
    assert_eq!(e.footer.as_deref(), Some("Member since Thu Jan  1 00:00:00 1970"));
    assert!(matches!(e.colour, EmbedColour::Rgb(246, 219, 216)));
    let fields: Vec<(&str, &str, bool)> =
        e.fields.iter().map(|f| (f.name.as_str(), f.value.as_str(), f.inline)).collect();
    assert_eq!(
        fields,
        vec![
            ("ID", "381870553235193857", true),
            ("Current Name", "Mai", true),
            ("Created at", "Sun Nov 19 19:20:00 2017", true),
            ("Roles", "@every\u{200b}one, Staff", true),
        ]
    );
}

#[test]
fn userinfo_falls_back_to_the_name() {
    let m = Member { nick: None, joined_at: Some(86_400), role_names: vec![] };
    let e = userinfo(&author(), Some(&m)).unwrap().unwrap();
    assert_eq!(e.fields[1].value, "maika");
    assert_eq!(e.footer.as_deref(), Some("Member since Fri Jan  2 00:00:00 1970"));
}

#[test]
fn timestamp_range_is_chronos() {
    let lo: i64 = -8_334_601_228_800;
    let hi: i64 = 8_210_266_876_799;
    assert!(chrono::DateTime::from_timestamp(lo, 0).is_some());
    assert!(chrono::DateTime::from_timestamp(lo - 1, 0).is_none());
    assert!(chrono::DateTime::from_timestamp(hi, 0).is_some());
    assert!(chrono::DateTime::from_timestamp(hi + 1, 0).is_none());
    assert!(timestamp_ok(lo) && timestamp_ok(hi));
    assert!(!timestamp_ok(lo - 1) && !timestamp_ok(hi + 1));
}

#[test]
fn userinfo_role_error_comes_before_dates() {
    let mut a = author();
    a.created_at = i64::MAX;
    let m = Member { nick: None, joined_at: Some(i64::MIN), role_names: vec![Some("x".to_string()), None] };
    match userinfo(&a, Some(&m)) {
        Err(e) => assert_eq!(e, "No RoleId for this Role"),
        Ok(_) => panic!("expected an error"),
    }
}
