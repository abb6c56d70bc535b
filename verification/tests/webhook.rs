use maika::embed::EmbedColour;
use maika::webhook::{exec_join_webhook, exec_leave_webhook, GuildSummary};

fn guild(icon: Option<&str>) -> GuildSummary {
    GuildSummary {
        name: "Test Guild".to_string(),
        id: 1234,
        member_count: 57,
        channel_count: 9,
        icon_url: icon.map(|s| s.to_string()),
    }
}

#[test]
fn join_notice() {
    let p = exec_join_webhook(&guild(Some("https://cdn.example/icon.png")), "Maika", "https://cdn.example/me.png");
    assert_eq!(p.username, "Maika");
    assert_eq!(p.avatar_url, "https://cdn.example/me.png");
    assert_eq!(p.embed.title, "Joined Guild:");
    assert_eq!(p.embed.description.as_deref(), Some("Test Guild (1234)"));
    assert_eq!(p.embed.thumbnail.as_deref(), Some("https://cdn.example/icon.png"));
    assert!(matches!(p.embed.colour, EmbedColour::Rgb(246, 219, 216)));
    let fields: Vec<(&str, &str, bool)> =
        p.embed.fields.iter().map(|f| (f.name.as_str(), f.value.as_str(), f.inline)).collect();
    assert_eq!(fields, vec![("Members", "57", true), ("Channels", "9", true)]);
}

#[test]
fn leave_notice() {
    let p = exec_leave_webhook(&guild(None), "Maika", "face");
    assert_eq!(p.embed.title, "Left Guild:");
    assert_eq!(p.embed.thumbnail.as_deref(), Some(""));
    assert!(matches!(p.embed.colour, EmbedColour::Value(14038325)));
}
