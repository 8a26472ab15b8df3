use getlyricsmcp::error::SiteError;
use getlyricsmcp::id::hit_id;
use getlyricsmcp::model::Site;
use getlyricsmcp::sites::scrape::{extract, lyrics_from_page, needs_body, page_title, probe_outcome};
use getlyricsmcp::sites::spec::{find_spec, Extract, SiteSpec, Slug};

fn spec(selector: &'static str, extract: Extract, verify_title: bool) -> SiteSpec {
    SiteSpec {
        site: Site::ParolesNet,
        template: "https://x/{artist}/{title}",
        artist_slug: Slug::Hyphen,
        title_slug: Slug::Hyphen,
        selector,
        extract,
        verify_title,
    }
}

#[test]
fn extract_first_match() {
    let html = "<html><body><div id=\"textdiv\"> line one <br>\n line two \n</div><div id=\"textdiv\">other</div></body></html>";
    let s = spec("#textdiv", Extract::First, false);
    assert_eq!(extract(html, &s, "u").unwrap(), "line one\nline two");
}

#[test]
fn extract_all_matches() {
    let html = "<div data-lyrics-container=\"true\">a<br>b</div><p>x</p><div data-lyrics-container=\"true\"><i>c</i></div>";
    let s = spec("[data-lyrics-container=\"true\"]", Extract::All, false);
    assert_eq!(extract(html, &s, "u").unwrap(), "a\nb\nc");
}

#[test]
fn extract_sibling_div() {
    let html = "<div><div class=\"ringtone\">ring</div><!-- comment --><div class=\"ad\">ad</div><div>Verse 1<br>Line 2</div><div>later</div></div>";
    let s = spec("div.ringtone", Extract::SiblingDiv, false);
    assert_eq!(extract(html, &s, "u").unwrap(), "Verse 1\nLine 2");
}

#[test]
fn extract_sibling_div_missing() {
    let html = "<div><div class=\"ringtone\">ring</div><p>no div</p></div>";
    let s = spec("div.ringtone", Extract::SiblingDiv, false);
    assert!(matches!(extract(html, &s, "u"), Err(SiteError::Layout { site: "paroles.net", ref url }) if url == "u"));
}

#[test]
fn extract_bare_div_children() {
    let html = "<article class=\"lyrics\"><div>a<div>nested</div></div><div class=\"ad\">ad</div><section><div>deep</div></section><div>b</div></article>";
    let s = spec("article.lyrics", Extract::BareDivs, false);
    assert_eq!(extract(html, &s, "u").unwrap(), "a\nnested\nb");
}

#[test]
fn extract_walk_skips_noise() {
    let html = "<div class=\"testo\">one<script>var x = 1;</script><div id=\"mobile-banner\">ad <b>more</b></div><p> two </p><span>three</span></div>";
    let s = spec("div.testo", Extract::WalkSkipNoise, false);
    assert_eq!(extract(html, &s, "u").unwrap(), "one\ntwo\nthree");
}

#[test]
fn extract_missing_or_empty_is_layout_error() {
    let s = spec("#textdiv", Extract::First, false);
    assert!(matches!(extract("<p>nothing</p>", &s, "u"), Err(SiteError::Layout { .. })));
    assert!(matches!(extract("<div id=\"textdiv\">  </div>", &s, "u"), Err(SiteError::Layout { .. })));
    let all = spec("p.none", Extract::All, false);
    assert!(matches!(extract("<p>x</p>", &all, "u"), Err(SiteError::Layout { .. })));
}

#[test]
fn invalid_selector_is_selector_error() {
    let s = spec("[[", Extract::First, false);
    assert!(matches!(extract("<p>x</p>", &s, "u"), Err(SiteError::Selector { site: "paroles.net", .. })));
}

#[test]
fn page_title_text() {
    let s = spec("p", Extract::First, true);
    assert_eq!(page_title("<html><head><title>Ne me quitte pas - Brel</title></head></html>", &s, "u").unwrap(), "Ne me quitte pas - Brel");
    // The parser always creates a document, but an empty title element has no text.
    assert_eq!(page_title("<p>no title</p>", &s, "u").unwrap_or_default(), "");
}

#[test]
fn needs_body_only_for_checked_successes() {
    assert!(needs_body(&spec("p", Extract::First, true), true));
    assert!(!needs_body(&spec("p", Extract::First, true), false));
    assert!(!needs_body(&spec("p", Extract::First, false), true));
}

#[test]
fn probe_without_title_check() {
    let s = spec("p", Extract::First, false);
    let hits = probe_outcome(&s, "Nirvana", "Lithium", "https://x/nirvana/lithium".to_string(), true, None).unwrap();
    assert_eq!(hits.len(), 1);
    assert_eq!(hits[0].id, hit_id(Site::ParolesNet, "https://x/nirvana/lithium"));
    assert_eq!(hits[0].site, Site::ParolesNet);
    assert_eq!(hits[0].url, "https://x/nirvana/lithium");
    assert_eq!(hits[0].title, "Lithium");
    assert_eq!(hits[0].artist, "Nirvana");
    let none = probe_outcome(&s, "Nirvana", "Lithium", "u".to_string(), false, None).unwrap();
    assert!(none.is_empty());
}

#[test]
fn probe_with_title_check() {
    let s = spec("p", Extract::First, true);
    let good = "<title>Paroles Lithium - Nirvana</title><p>x</p>";
    let bad = "<title>Nirvana - all songs</title>";
    assert_eq!(probe_outcome(&s, "Nirvana", "Lithium", "u".to_string(), true, Some(good)).unwrap().len(), 1);
    assert!(probe_outcome(&s, "Nirvana", "Lithium", "u".to_string(), true, Some(bad)).unwrap().is_empty());
}

#[test]
fn fetch_checks_title_then_extracts() {
    let s = spec("p", Extract::First, true);
    let good = "<title>Paroles Lithium - Nirvana</title><p>I'm so happy</p>";
    let lyrics = lyrics_from_page(&s, "u", "Lithium", good).unwrap();
    assert_eq!(lyrics.text, "I'm so happy");
    assert_eq!(lyrics.url, "u");
    assert_eq!(lyrics.site, Site::ParolesNet);
    let bad = "<title>Nirvana - all songs</title><p>x</p>";
    match lyrics_from_page(&s, "u", "Lithium", bad) {
        Err(SiteError::Mismatch { site, url, expected }) => {
            assert_eq!(site, "paroles.net");
            assert_eq!(url, "u");
            assert_eq!(expected, "Lithium");
        }
        other => panic!("unexpected {other:?}"),
    }
}

#[test]
fn real_spec_extracts_azlyrics_layout() {
    let s = find_spec(Site::AzLyrics).unwrap();
    let html = "<div class=\"col\"><div class=\"ringtone\"></div><b>\"Lithium\"</b><br><div>\r\nI'm so happy<br>\n'Cause today I found my friends\n</div></div>";
    assert_eq!(extract(html, &s, "u").unwrap(), "I'm so happy\n'Cause today I found my friends");
}
