use getlyricsmcp::error::SiteError;
use getlyricsmcp::id::hit_id;
use getlyricsmcp::json::Json;
use getlyricsmcp::model::Site;
use getlyricsmcp::sites::soundcloud::{
    bundle_urls_in, decimal_string, extract_client_id, next_client_id, no_client_id, soundcloud_answer, hits_from_search, lyrics_from_resolve, resolve_params,
    search_params,
};

fn obj(members: Vec<(&str, Json)>) -> Json {
    Json::Object(members.into_iter().map(|(k, v)| (k.to_string(), v)).collect())
}

fn text(s: &str) -> Json {
    Json::Str(s.to_string())
}

fn track(url: &str, title: &str, user: &str, description: &str) -> Json {
    obj(vec![
        ("description", text(description)),
        ("permalink_url", text(url)),
        ("title", text(title)),
        ("user", obj(vec![("username", text(user))])),
    ])
}

#[test]
fn client_id_between_marker_and_quote() {
    assert_eq!(extract_client_id("a,client_id:\"abc123\",b").unwrap(), "abc123");
    assert_eq!(extract_client_id("client_id:\"\"").unwrap(), "");
    assert_eq!(extract_client_id("x client_id:\"one\" client_id:\"two\"").unwrap(), "one");
    assert!(matches!(extract_client_id("no marker here"), Err(SiteError::ClientId { site: "soundcloud" })));
    assert!(matches!(extract_client_id("client_id:\"unterminated"), Err(SiteError::ClientId { .. })));
}

#[test]
fn bundle_urls_are_filtered() {
    let html = "<html><head>\
        <script src=\"https://a-v2.sndcdn.com/assets/0-abc.js\"></script>\
        <script src=\"https://a-v2.sndcdn.com/assets/1-def.css\"></script>\
        <script src=\"https://example.com/x.js\"></script>\
        <script>inline()</script>\
        </head><body><script src=\"https://a-v2.sndcdn.com/assets/2-ghi.js\"></script></body></html>";
    let urls = bundle_urls_in(html).unwrap();
    assert_eq!(urls, vec!["https://a-v2.sndcdn.com/assets/0-abc.js", "https://a-v2.sndcdn.com/assets/2-ghi.js"]);
}

#[test]
fn search_hits_from_answer() {
    let long = "la ".repeat(40);
    let body = obj(vec![(
        "collection",
        Json::Array(vec![
            track("https://soundcloud.com/a/one", "One", "alice", &long),
            track("https://soundcloud.com/b/two", "Two", "bob", "too short"),
            obj(vec![("title", text("no url"))]),
            track("https://soundcloud.com/c/three", "Three", "carol", &long),
        ]),
    )]);
    let hits = hits_from_search(&body, 5).unwrap();
    assert_eq!(hits.len(), 2);
    assert_eq!(hits[0].url, "https://soundcloud.com/a/one");
    assert_eq!(hits[0].title, "One");
    assert_eq!(hits[0].artist, "alice");
    assert_eq!(hits[0].site, Site::SoundCloud);
    assert_eq!(hits[0].id, hit_id(Site::SoundCloud, "https://soundcloud.com/a/one"));
    assert_eq!(hits[1].artist, "carol");
    // Only the first `max_hits` tracks are looked at.
    assert_eq!(hits_from_search(&body, 3).unwrap().len(), 1);
    assert_eq!(hits_from_search(&body, 0).unwrap().len(), 0);
}

#[test]
fn description_length_counts_trimmed_chars() {
    let exactly = "\u{e9}".repeat(100);
    let padded = format!("   {}   ", "x".repeat(99));
    let body = obj(vec![(
        "collection",
        Json::Array(vec![track("u1", "t1", "a", &exactly), track("u2", "t2", "a", &padded)]),
    )]);
    let hits = hits_from_search(&body, 10).unwrap();
    assert_eq!(hits.len(), 1);
    assert_eq!(hits[0].url, "u1");
}

#[test]
fn search_answer_without_collection() {
    let body = obj(vec![("errors", Json::Array(Vec::new()))]);
    match hits_from_search(&body, 5) {
        Err(SiteError::Layout { site, url }) => {
            assert_eq!(site, "soundcloud");
            assert_eq!(url, "https://api-v2.soundcloud.com/search/tracks");
        }
        _ => panic!("expected a layout error"),
    }
    assert!(matches!(hits_from_search(&Json::Null, 5), Err(SiteError::Layout { .. })));
}

#[test]
fn resolve_answer_to_lyrics() {
    let body = obj(vec![("description", text("  verse one\nverse two  "))]);
    let lyrics = lyrics_from_resolve(&body, "https://soundcloud.com/a/one").unwrap();
    assert_eq!(lyrics.text, "  verse one\nverse two  ");
    assert_eq!(lyrics.site, Site::SoundCloud);
    assert_eq!(lyrics.url, "https://soundcloud.com/a/one");
    assert!(matches!(lyrics_from_resolve(&obj(vec![("description", text(" \n "))]), "u"), Err(SiteError::Layout { .. })));
    assert!(matches!(lyrics_from_resolve(&obj(vec![("description", Json::Null)]), "u"), Err(SiteError::Layout { .. })));
    assert!(matches!(lyrics_from_resolve(&Json::Array(Vec::new()), "u"), Err(SiteError::Layout { .. })));
}

#[test]
fn query_parameters() {
    let p = search_params("Nirvana", "Lithium", "cid", 5);
    assert_eq!(p, vec![
        ("q".to_string(), "Nirvana Lithium".to_string()),
        ("client_id".to_string(), "cid".to_string()),
        ("limit".to_string(), "5".to_string()),
    ]);
    let r = resolve_params("https://soundcloud.com/a", "cid");
    assert_eq!(r, vec![("url".to_string(), "https://soundcloud.com/a".to_string()), ("client_id".to_string(), "cid".to_string())]);
    assert_eq!(decimal_string(0), "0");
    assert_eq!(decimal_string(1234567890), "1234567890");
    assert_eq!(decimal_string(usize::MAX), usize::MAX.to_string());
}

#[test]
fn answers_are_parsed_as_json() {
    let text = format!(
        "{{\"collection\": [{{\"permalink_url\": \"https://soundcloud.com/a/one\", \"title\": \"One\", \"id\": 42, \"user\": {{\"username\": \"alice\"}}, \"description\": \"{}\"}}], \"next_href\": null}}",
        "la ".repeat(40)
    );
    let body = soundcloud_answer(&text).unwrap();
    let hits = hits_from_search(&body, 5).unwrap();
    assert_eq!(hits.len(), 1);
    assert_eq!(hits[0].artist, "alice");
    match soundcloud_answer("[1, true, \"x\", {\"k\": null}]").unwrap() {
        Json::Array(items) => {
            assert_eq!(items.len(), 4);
            assert!(matches!(items[0], Json::Number));
            assert!(matches!(items[1], Json::Bool(true)));
            assert!(matches!(&items[2], Json::Str(s) if s == "x"));
            assert!(matches!(&items[3], Json::Object(m) if m.len() == 1 && m[0].0 == "k" && matches!(m[0].1, Json::Null)));
        }
        other => panic!("unexpected {other:?}"),
    }
}

#[test]
fn malformed_answer_is_api_error() {
    assert!(matches!(soundcloud_answer("{\"collection\": ["), Err(SiteError::Api { site: "soundcloud", .. })));
    assert!(matches!(soundcloud_answer(""), Err(SiteError::Api { .. })));
}

#[test]
fn client_id_search_step() {
    assert_eq!(next_client_id(Some("x client_id:\"abc\" y")), Some("abc".to_string()));
    assert_eq!(next_client_id(Some("nothing")), None);
    assert_eq!(next_client_id(None), None);
    assert!(matches!(no_client_id(), SiteError::ClientId { site: "soundcloud" }));
}
