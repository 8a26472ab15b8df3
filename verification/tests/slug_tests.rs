use getlyricsmcp::sites::slug::{compact, fold_turkish, hyphenate_lowered, hyphenated, strip_leading_the, title_matches};
use getlyricsmcp::sites::spec::{find_spec, specs, Extract, SiteSpec, Slug};
use getlyricsmcp::model::Site;

#[test]
fn hyphenated_collapses_separators() {
    assert_eq!(hyphenated("Guns N' Roses"), "guns-n-roses");
    assert_eq!(hyphenated("  Hello,   World!! "), "hello-world");
    assert_eq!(hyphenated("AC/DC"), "ac-dc");
    assert_eq!(hyphenated("Don\u{2019}t Stop"), "dont-stop");
    assert_eq!(hyphenated("It\u{02bc}s"), "its");
}

#[test]
fn hyphenated_edge_cases() {
    assert_eq!(hyphenated(""), "");
    assert_eq!(hyphenated("!!!"), "");
    assert_eq!(hyphenated("-a-"), "a");
    assert_eq!(hyphenated("Beyonc\u{e9}"), "beyonc");
    assert_eq!(hyphenated("caf\u{e9} au lait"), "caf-au-lait");
}

#[test]
fn hyphenated_uses_unicode_lowercase() {
    // The Kelvin sign lowercases to an ASCII 'k'.
    assert_eq!(hyphenated("\u{212a}ing"), "king");
    assert_eq!(hyphenate_lowered("ABC"), "ABC");
}

#[test]
fn hyphenated_has_slug_shape() {
    for input in ["a  b", "--x--y--", "Hello World!", "'quoted' text", "1, 2, 3"] {
        let s = hyphenated(input);
        assert!(s.chars().all(|c| c.is_ascii_alphanumeric() || c == '-'));
        assert!(!s.starts_with('-') && !s.ends_with('-'));
        assert!(!s.contains("--"));
    }
}

#[test]
fn hyphenated_is_idempotent_and_matches_compact() {
    for input in ["Guns N' Roses", "AC/DC", "\u{212a}ing Crimson", "Beyonc\u{e9} & Jay-Z", "  -- x --  ", ""] {
        let h = hyphenated(input);
        assert_eq!(hyphenated(&h), h);
        assert_eq!(h.replace('-', ""), compact(input));
        assert!(h.chars().all(|c| c.is_ascii_lowercase() || c.is_ascii_digit() || c == '-'));
    }
}

#[test]
fn compact_keeps_letters_and_digits() {
    assert_eq!(compact("The Beatles"), "thebeatles");
    assert_eq!(compact("AC/DC"), "acdc");
    assert_eq!(compact("Blink-182"), "blink182");
    assert_eq!(compact(""), "");
}

#[test]
fn title_matches_by_slug_containment() {
    assert!(title_matches("Lithium Lyrics - Nirvana", "Lithium"));
    assert!(title_matches("Paroles Ne me quitte pas - Jacques Brel", "Ne me quitte pas"));
    assert!(!title_matches("Nirvana - Songs", "Lithium"));
    assert!(!title_matches("anything", "!!!"));
    assert!(title_matches("Lithium", "Lithium"));
}

#[test]
fn fold_turkish_folds_letters() {
    assert_eq!(fold_turkish("\u{15e}ark\u{131} S\u{f6}z\u{fc}"), "sarki Sozu");
    assert_eq!(fold_turkish("\u{c7}\u{e7}\u{11e}\u{11f}\u{130}\u{131}\u{d6}\u{f6}\u{15e}\u{15f}\u{dc}\u{fc}"), "ccggiioossuu");
    assert_eq!(fold_turkish("plain"), "plain");
    let once = fold_turkish("Bar\u{131}\u{15f} Man\u{e7}o");
    assert_eq!(fold_turkish(&once), once);
}

#[test]
fn strip_leading_the_cases() {
    assert_eq!(strip_leading_the("  The Beatles "), "Beatles");
    assert_eq!(strip_leading_the("THE   Who"), "Who");
    assert_eq!(strip_leading_the("Theater"), "Theater");
    assert_eq!(strip_leading_the("the"), "the");
    assert_eq!(strip_leading_the("\tthe\u{a0}x"), "the\u{a0}x");
}

#[test]
fn slug_flavours() {
    assert_eq!(Slug::Hyphen.apply("Vasco Rossi"), "vasco-rossi");
    assert_eq!(Slug::CapitalHyphen.apply("vasco rossi"), "Vasco-rossi");
    assert_eq!(Slug::CapitalHyphen.apply("!!!"), "");
    assert_eq!(Slug::Compact.apply("The Beatles"), "thebeatles");
    assert_eq!(Slug::CompactNoThe.apply("The Beatles"), "beatles");
    assert_eq!(Slug::Underscore.apply("Vasco Rossi"), "vasco_rossi");
    assert_eq!(Slug::TurkishHyphen.apply("Bar\u{131}\u{15f} Man\u{e7}o"), "baris-manco");
}

fn spec_of(site: Site) -> SiteSpec {
    find_spec(site).unwrap()
}

#[test]
fn urls_from_templates() {
    assert_eq!(spec_of(Site::AzLyrics).url("The Beatles", "Let It Be"), "https://www.azlyrics.com/lyrics/beatles/letitbe.html");
    assert_eq!(spec_of(Site::Genius).url("Nirvana", "Lithium"), "https://genius.com/Nirvana-lithium-lyrics");
    assert_eq!(spec_of(Site::Genius).url("guns n' roses", "Sweet Child O' Mine"), "https://genius.com/Guns-n-roses-sweet-child-o-mine-lyrics");
    assert_eq!(spec_of(Site::Genius).url("2Pac", "Changes"), "https://genius.com/2pac-changes-lyrics");
    assert_eq!(spec_of(Site::Tekstowo).url("Nirvana", "Lithium"), "https://www.tekstowo.pl/nirvana/lithium");
    assert_eq!(spec_of(Site::ParolesNet).url("Jacques Brel", "Ne me quitte pas"), "https://www.paroles.net/jacques-brel/paroles-ne-me-quitte-pas");
    assert_eq!(
        spec_of(Site::Angolotesti).url("Vasco Rossi", "Albachiara"),
        "https://angolotesti.it/a/testi_canzoni_vasco_rossi/testo_canzone_albachiara.html"
    );
    assert_eq!(
        spec_of(Site::Sarkisozum).url("Bar\u{131}\u{15f} Man\u{e7}o", "Da\u{11f}lar Da\u{11f}lar"),
        "https://www.sarkisozum.gen.tr/en/baris-manco/daglar-daglar-lyrics"
    );
}

#[test]
fn url_replaces_every_placeholder() {
    let spec = SiteSpec {
        site: Site::Genius,
        template: "{artist}/{artist}/{title}{title}",
        artist_slug: Slug::Hyphen,
        title_slug: Slug::Compact,
        selector: "p",
        extract: Extract::First,
        verify_title: false,
    };
    assert_eq!(spec.url("A B", "C D"), "a-b/a-b/cdcd");
}

#[test]
fn table_covers_every_site_but_soundcloud() {
    let table = specs();
    assert_eq!(table.len(), 12);
    assert!(find_spec(Site::SoundCloud).is_none());
    for site in [
        Site::AzLyrics, Site::Genius, Site::VersuriRo, Site::Lyricshare, Site::ParolesNet, Site::Tekstowo,
        Site::LetrasMusBr, Site::Angolotesti, Site::LetrasCom, Site::Sarkisozum, Site::Klyrics, Site::VersuriUs,
    ] {
        assert_eq!(find_spec(site).unwrap().site, site);
        assert_eq!(table.iter().filter(|s| s.site == site).count(), 1);
    }
    let checked: Vec<Site> = table.iter().filter(|s| s.verify_title).map(|s| s.site).collect();
    assert_eq!(checked, vec![Site::ParolesNet, Site::Angolotesti, Site::LetrasCom]);
}
