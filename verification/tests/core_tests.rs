use std::collections::hash_map::DefaultHasher;
use std::hash::{Hash, Hasher};

use getlyricsmcp::cache::{lookup_outcome, HitCache};
use getlyricsmcp::config::Config;
use getlyricsmcp::error::{CacheError, SiteError};
use getlyricsmcp::id::hit_id;
use getlyricsmcp::mcp::server::hits_summary;
use getlyricsmcp::model::{Reliability, SearchHit, Site};
use getlyricsmcp::sites::registry::{merge_hits, route_fetch, FetchRoute};

fn hit(site: Site, url: &str) -> SearchHit {
    SearchHit {
        id: hit_id(site, url),
        site,
        url: url.to_string(),
        title: "T".to_string(),
        artist: "A".to_string(),
    }
}

#[test]
fn labels_and_reliability() {
    assert_eq!(Site::AzLyrics.label(), "azlyrics");
    assert_eq!(Site::Sarkisozum.label(), "sarkisozum.gen.tr");
    assert_eq!(Site::VersuriUs.label(), "versuri.us");
    assert_eq!(Site::Genius.reliability(), Reliability::High);
    assert_eq!(Site::LetrasCom.reliability(), Reliability::Medium);
    assert_eq!(Site::SoundCloud.reliability(), Reliability::Low);
    assert!(Reliability::High > Reliability::Medium && Reliability::Medium > Reliability::Low);
}

#[test]
fn config_values() {
    let c = Config::new();
    assert_eq!(c.user_agent, "Mozilla/5.0 (X11; Linux x86_64; rv:120.0) Gecko/20100101 Firefox/120.0");
    assert_eq!(c.http_timeout_secs, 10);
    assert_eq!(c.cache_ttl_secs, 300);
    assert_eq!(c.max_hits, 20);
    assert_eq!(c.soundcloud_max_hits, 5);
}

#[test]
fn hit_id_matches_std_hashing() {
    let url = "https://genius.com/nirvana-lithium-lyrics";
    let mut hasher = DefaultHasher::new();
    Site::Genius.label().hash(&mut hasher);
    url.hash(&mut hasher);
    let expected = format!("{:016x}", hasher.finish());
    let id = hit_id(Site::Genius, url);
    assert_eq!(id, expected);
    assert_eq!(id.len(), 16);
    assert!(id.chars().all(|c| c.is_ascii_hexdigit() && !c.is_ascii_uppercase()));
    assert_eq!(hit_id(Site::Genius, url), id);
    assert_ne!(hit_id(Site::AzLyrics, url), id);
    assert_ne!(hit_id(Site::Genius, "https://genius.com/other"), id);
}

#[test]
fn merge_ranks_stably_and_caps() {
    let scraped = vec![
        Ok(vec![hit(Site::ParolesNet, "p1")]),
        Ok(vec![hit(Site::Genius, "g1")]),
        Err(SiteError::Unsupported { site: "x" }),
        Ok(vec![hit(Site::LetrasCom, "l1"), hit(Site::Tekstowo, "t1")]),
    ];
    let cloud = Ok(vec![hit(Site::SoundCloud, "s1"), hit(Site::SoundCloud, "s2")]);
    let merged = merge_hits(scraped, cloud, 20);
    let urls: Vec<&str> = merged.iter().map(|h| h.url.as_str()).collect();
    assert_eq!(urls, vec!["g1", "t1", "p1", "l1", "s1", "s2"]);

    let scraped = vec![Ok(vec![hit(Site::SoundCloud, "s0")]), Ok(vec![hit(Site::Genius, "g1"), hit(Site::Klyrics, "k1")])];
    let merged = merge_hits(scraped, Err(SiteError::ClientId { site: "soundcloud" }), 2);
    let urls: Vec<&str> = merged.iter().map(|h| h.url.as_str()).collect();
    assert_eq!(urls, vec!["g1", "k1"]);

    assert!(merge_hits(Vec::new(), Ok(Vec::new()), 5).is_empty());
    assert!(merge_hits(vec![Ok(vec![hit(Site::Genius, "g")])], Ok(Vec::new()), 0).is_empty());
}

#[test]
fn routing() {
    assert!(matches!(route_fetch(&hit(Site::SoundCloud, "s")), Ok(FetchRoute::SoundCloud)));
    match route_fetch(&hit(Site::Klyrics, "k")) {
        Ok(FetchRoute::Scrape(spec)) => assert_eq!(spec.site, Site::Klyrics),
        _ => panic!("expected a scrape route"),
    }
}

#[test]
fn cache_round_trip() {
    let cache = HitCache::new(300);
    let h = hit(Site::Genius, "g1");
    let id = h.id.clone();
    cache.insert(h);
    let got = cache.get(&id).unwrap();
    assert_eq!(got.url, "g1");
    match cache.get("missing") {
        Err(CacheError::NotFound(s)) => assert_eq!(s, "missing"),
        _ => panic!("expected NotFound"),
    }
    let copy = cache.clone();
    assert_eq!(copy.get(&id).unwrap().url, "g1");
}

#[test]
fn summary_pads_like_format() {
    for site in [Site::Genius, Site::LetrasMusBr, Site::Sarkisozum, Site::Lyricshare] {
        let h = hit(site, "u");
        let expected = format!("{} | {:<13} | {} - {} | {}", h.id, site.label(), h.artist, h.title, h.url);
        assert_eq!(hits_summary(&vec![h]), expected);
    }
}

#[test]
fn cache_entries_expire() {
    // With a lifetime of zero seconds an entry is already expired when read.
    let cache = HitCache::new(0);
    let h = hit(Site::Genius, "g1");
    let id = h.id.clone();
    cache.insert(h);
    assert!(matches!(cache.get(&id), Err(CacheError::NotFound(_))));
}

#[test]
fn lookup_outcome_cases() {
    let h = hit(Site::Genius, "g");
    let id = h.id.clone();
    assert_eq!(lookup_outcome(Some(h), &id).unwrap().url, "g");
    assert!(matches!(lookup_outcome(Some(hit(Site::Genius, "g")), "x"), Err(CacheError::NotFound(ref s)) if s == "x"));
    assert!(matches!(lookup_outcome(None, "x"), Err(CacheError::NotFound(ref s)) if s == "x"));
}

#[test]
fn summary_text() {
    assert_eq!(hits_summary(&Vec::new()), "no hits");
    let a = hit(Site::Genius, "https://genius.com/a");
    let b = hit(Site::Tekstowo, "https://www.tekstowo.pl/b");
    let text = hits_summary(&vec![a.clone(), b.clone()]);
    assert_eq!(
        text,
        format!("{} | genius        | A - T | https://genius.com/a\n{} | tekstowo.pl   | A - T | https://www.tekstowo.pl/b", a.id, b.id)
    );
}
