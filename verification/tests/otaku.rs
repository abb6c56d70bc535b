use maika::embed::EmbedColour;
use maika::general::Step;
use maika::otaku::{anime, anime_result, AnimeInfo};

fn strings(xs: &[&str]) -> Vec<String> {
    xs.iter().map(|s| s.to_string()).collect()
}

fn info(full: bool) -> AnimeInfo {
    AnimeInfo {
        canonical_title: "Cowboy Bebop".to_string(),
        url: "https://kitsu.io/anime/1".to_string(),
        synopsis: "Space bounty hunters.".to_string(),
        age_rating: if full { Some("R".to_string()) } else { None },
        average_rating: if full { Some("82.8".to_string()) } else { None },
        kind_name: if full { Some("TV".to_string()) } else { None },
        airing_status_name: "finished".to_string(),
        episode_count: if full { Some(26) } else { None },
        start_date: "1998-04-03".to_string(),
        end_date: if full { Some("1999-04-24".to_string()) } else { None },
        poster: if full { Some("https://media.kitsu.io/p.jpg".to_string()) } else { None },
    }
}

#[test]
fn anime_steps() {
    assert!(matches!(anime(&strings(&[])), Step::Reply(ref t) if t == "Which anime should I search for?"));
    assert!(matches!(anime(&strings(&["cowboy", "bebop"])), Step::Query(ref q) if q == "cowboy bebop"));
}

#[test]
fn anime_not_found() {
    match anime_result(None) {
        Err(t) => assert_eq!(t, "Failed to get anime info."),
        Ok(_) => panic!("expected the failure text"),
    }
}

#[test]
fn anime_embed_full() {
    let e = anime_result(Some(info(true))).ok().unwrap();
    assert_eq!(e.title, "Cowboy Bebop");
    assert_eq!(e.url.as_deref(), Some("https://kitsu.io/anime/1"));
    assert_eq!(e.description.as_deref(), Some("Space bounty hunters."));
    assert_eq!(e.thumbnail.as_deref(), Some("https://media.kitsu.io/p.jpg"));
    assert!(matches!(e.colour, EmbedColour::Rgb(246, 219, 216)));
    let fields: Vec<(&str, &str)> = e.fields.iter().map(|f| (f.name.as_str(), f.value.as_str())).collect();
    assert_eq!(
        fields,
        vec![
            ("Average Rating", "82.8"),
            ("Type", "TV"),
            ("Age Rating", "R"),
            ("Episodes", "26"),
            ("Status", "finished"),
            ("Start/End", "1998-04-03 until 1999-04-24"),
        ]
    );
    assert!(e.fields.iter().all(|f| f.inline));
}

#[test]
fn anime_embed_defaults() {
    let e = anime_result(Some(info(false))).ok().unwrap();
    assert_eq!(e.thumbnail.as_deref(), Some("-"));
    let values: Vec<&str> = e.fields.iter().map(|f| f.value.as_str()).collect();
    assert_eq!(values, vec!["-", "-", "-", "-", "finished", "1998-04-03 until ?"]);
}
