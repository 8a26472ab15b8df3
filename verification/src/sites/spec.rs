//! One row of data per HTML source: URL template, slug flavours, selector,
//! extraction mode and whether the page title must be checked.
use vstd::prelude::*;
use crate::model::{site_reliability, Reliability, Site};
use crate::sites::slug::{
    compact, compact_spec, fold_turkish, fold_turkish_spec, hyphenated, hyphenated_spec,
    strip_leading_the, strip_leading_the_spec,
};
use crate::text::{chars_of, string_from};

verus! {

/// How a name becomes a path segment.
#[derive(Debug, Clone, Copy, PartialEq, Eq, Structural)]
pub enum Slug {
    Hyphen,
    /// The hyphenated slug with its first letter capitalized.
    CapitalHyphen,
    Compact,
    CompactNoThe,
    Underscore,
    TurkishHyphen,
}

/// Where on the page the lyrics lines are.
#[derive(Debug, Clone, Copy, PartialEq, Eq, Structural)]
pub enum Extract {
    /// The lines of the first match.
    First,
    /// The lines of every match, in order.
    All,
    /// The lines of the first attribute-less `div` after the first match.
    SiblingDiv,
    /// The lines of the attribute-less `div` children of the first match.
    BareDivs,
    /// The text of the first match, skipping scripts and the mobile banner.
    WalkSkipNoise,
}

/// How to probe and scrape one HTML source.
#[derive(Debug, Clone, Copy)]
pub struct SiteSpec {
    pub site: Site,
    pub template: &'static str,
    pub artist_slug: Slug,
    pub title_slug: Slug,
    pub selector: &'static str,
    pub extract: Extract,
    pub verify_title: bool,
}

/// `s` with its first character made an ASCII capital when it is a small
/// ASCII letter.
pub open spec fn capitalize_first(s: Seq<char>) -> Seq<char> {
    if s.len() > 0 && 'a' <= s[0] && s[0] <= 'z' {
        s.update(0, ((s[0] as u32) - 32) as char)
    } else {
        s
    }
}

/// `s` with each hyphen turned into an underscore.
pub open spec fn hyphens_to_underscores(s: Seq<char>) -> Seq<char> {
    s.map_values(|c: char| if c == '-' { '_' } else { c })
}

/// The path segment that `slug` makes of `input`.
pub open spec fn slug_spec(slug: Slug, input: Seq<char>) -> Seq<char> {
    match slug {
        Slug::Hyphen => hyphenated_spec(input),
        Slug::CapitalHyphen => capitalize_first(hyphenated_spec(input)),
        Slug::Compact => compact_spec(input),
        Slug::CompactNoThe => compact_spec(strip_leading_the_spec(input)),
        Slug::Underscore => hyphens_to_underscores(hyphenated_spec(input)),
        Slug::TurkishHyphen => hyphenated_spec(fold_turkish_spec(input)),
    }
}

/// `s` with every occurrence of `pat` replaced by `rep`, matches taken left
/// to right without overlap, as `str::replace` does for a non-empty pattern.
pub open spec fn replace_all(s: Seq<char>, pat: Seq<char>, rep: Seq<char>) -> Seq<char>
    decreases s.len(),
{
    if s.len() == 0 {
        s
    } else if 0 < pat.len() <= s.len() && s.take(pat.len() as int) == pat {
        rep + replace_all(s.skip(pat.len() as int), pat, rep)
    } else {
        seq![s[0]] + replace_all(s.skip(1), pat, rep)
    }
}

/// The URL that `spec` guesses for a song.
pub open spec fn url_spec(spec: SiteSpec, artist: Seq<char>, title: Seq<char>) -> Seq<char> {
    replace_all(
        replace_all(spec.template@, "{artist}"@, slug_spec(spec.artist_slug, artist)),
        "{title}"@,
        slug_spec(spec.title_slug, title),
    )
}

/// `s` with every non-overlapping occurrence of `pat` replaced by `rep`.
pub fn replace_str(s: &str, pat: &str, rep: &str) -> (r: String)
    requires
        pat@.len() > 0,
    ensures
        r@ == replace_all(s@, pat@, rep@),
{
    let cs = chars_of(s);
    let pc = chars_of(pat);
    let rc = chars_of(rep);
    let mut out: Vec<char> = Vec::new();
    let mut i: usize = 0;
    assert(cs@.skip(0) == cs@);
    while i < cs.len()
        invariant
            i <= cs.len(),
            pc@ == pat@,
            rc@ == rep@,
            pat@.len() > 0,
            out@ + replace_all(cs@.skip(i as int), pc@, rc@) == replace_all(cs@, pc@, rc@),
        decreases cs.len() - i,
    {
        let ghost rest = cs@.skip(i as int);
        if crate::text::occurs_at(&cs, &pc, i) {
            assert(rest.take(pc@.len() as int) == cs@.subrange(i as int, i + pc@.len()));
            assert(rest.skip(pc@.len() as int) == cs@.skip(i + pc@.len()));
            let mut k: usize = 0;
            let ghost before = out@;
            while k < rc.len()
                invariant
                    k <= rc.len(),
                    out@ == before + rc@.take(k as int),
                decreases rc.len() - k,
            {
                out.push(rc[k]);
                assert(rc@.take(k + 1) == rc@.take(k as int).push(rc@[k as int]));
                k += 1;
            }
            assert(rc@.take(rc.len() as int) == rc@);
            assert(before + rc@ + replace_all(cs@.skip(i + pc@.len()), pc@, rc@) == out@ + replace_all(cs@.skip(i + pc@.len()), pc@, rc@));
            i = i + pc.len();
        } else {
            proof {
                if 0 < pc@.len() <= rest.len() {
                    assert(rest.take(pc@.len() as int) == cs@.subrange(i as int, i + pc@.len()));
                }
                assert(rest.skip(1) == cs@.skip(i + 1));
                assert(rest[0] == cs@[i as int]);
            }
            let ghost before = out@;
            out.push(cs[i]);
            assert(out@ + replace_all(cs@.skip(i + 1), pc@, rc@) == before + (seq![cs@[i as int]] + replace_all(cs@.skip(i + 1), pc@, rc@)));
            i += 1;
        }
    }
    assert(cs@.skip(cs.len() as int) == Seq::<char>::empty());
    string_from(&out, 0, out.len())
}

/// `s` with each hyphen turned into an underscore.
fn underscores(s: &str) -> (r: String)
    ensures
        r@ == hyphens_to_underscores(s@),
{
    let cs = chars_of(s);
    let mut out = String::new();
    let mut i: usize = 0;
    while i < cs.len()
        invariant
            i <= cs.len(),
            out@ == hyphens_to_underscores(cs@.take(i as int)),
        decreases cs.len() - i,
    {
        let c = if cs[i] == '-' { '_' } else { cs[i] };
        out.push(c);
        assert(hyphens_to_underscores(cs@.take(i + 1)) == hyphens_to_underscores(cs@.take(i as int)).push(c));
        i += 1;
    }
    assert(cs@.take(cs.len() as int) == cs@);
    out
}

/// `s` with its first character capitalized when it is a small ASCII letter.
fn capitalized(s: &str) -> (r: String)
    ensures
        r@ == capitalize_first(s@),
{
    let mut cs = chars_of(s);
    if cs.len() > 0 && 'a' <= cs[0] && cs[0] <= 'z' {
        let c = cs[0];
        let code = c as u8;
        assert(code as u32 == c as u32);
        let upper = (code - 32) as char;
        cs.set(0, upper);
    }
    string_from(&cs, 0, cs.len())
}

impl Slug {
    /// The path segment that this slug flavour makes of `input`.
    pub fn apply(self, input: &str) -> (r: String)
        ensures
            r@ == slug_spec(self, input@),
    {
        match self {
            Slug::Hyphen => hyphenated(input),
            Slug::CapitalHyphen => capitalized(hyphenated(input).as_str()),
            Slug::Compact => compact(input),
            Slug::CompactNoThe => compact(strip_leading_the(input)),
            Slug::Underscore => underscores(hyphenated(input).as_str()),
            Slug::TurkishHyphen => hyphenated(fold_turkish(input).as_str()),
        }
    }
}

impl SiteSpec {
    /// The URL this source's song page would have.
    pub fn url(&self, artist: &str, title: &str) -> (r: String)
        ensures
            r@ == url_spec(*self, artist@, title@),
    {
        proof {
            reveal_strlit("{artist}");
            reveal_strlit("{title}");
        }
        let with_artist = replace_str(self.template, "{artist}", self.artist_slug.apply(artist).as_str());
        replace_str(with_artist.as_str(), "{title}", self.title_slug.apply(title).as_str())
    }
}



/// The table of HTML sources, in the order in which they are probed.
pub open spec fn spec_table() -> Seq<SiteSpec> {
    seq![
        SiteSpec {
            site: Site::AzLyrics,
            template: "https://www.azlyrics.com/lyrics/{artist}/{title}.html",
            artist_slug: Slug::CompactNoThe,
            title_slug: Slug::Compact,
            selector: "div.ringtone",
            extract: Extract::SiblingDiv,
            verify_title: false,
        },
        SiteSpec {
            site: Site::Genius,
            template: "https://genius.com/{artist}-{title}-lyrics",
            artist_slug: Slug::CapitalHyphen,
            title_slug: Slug::Hyphen,
            selector: "[data-lyrics-container=\"true\"]",
            extract: Extract::All,
            verify_title: false,
        },
        SiteSpec {
            site: Site::VersuriRo,
            template: "https://www.versuri.ro/versuri/{artist}-{title}/",
            artist_slug: Slug::Hyphen,
            title_slug: Slug::Hyphen,
            selector: "#textdiv",
            extract: Extract::First,
            verify_title: false,
        },
        SiteSpec {
            site: Site::VersuriUs,
            template: "https://www.versuri.us/{artist}-{title}-lyrics",
            artist_slug: Slug::Hyphen,
            title_slug: Slug::Hyphen,
            selector: "div.post_inside p",
            extract: Extract::All,
            verify_title: false,
        },
        SiteSpec {
            site: Site::Lyricshare,
            template: "https://lyricshare.net/ru/{artist}/{title}.html",
            artist_slug: Slug::Hyphen,
            title_slug: Slug::Hyphen,
            selector: "#lyricSheet",
            extract: Extract::First,
            verify_title: false,
        },
        SiteSpec {
            site: Site::Tekstowo,
            template: "https://www.tekstowo.pl/{artist}/{title}",
            artist_slug: Slug::Hyphen,
            title_slug: Slug::Hyphen,
            selector: "#songText > .inner-text",
            extract: Extract::First,
            verify_title: false,
        },
        SiteSpec {
            site: Site::LetrasMusBr,
            template: "https://www.letras.mus.br/{artist}/{title}/",
            artist_slug: Slug::Hyphen,
            title_slug: Slug::Hyphen,
            selector: "div.lyric-original",
            extract: Extract::First,
            verify_title: false,
        },
        SiteSpec {
            site: Site::Sarkisozum,
            template: "https://www.sarkisozum.gen.tr/en/{artist}/{title}-lyrics",
            artist_slug: Slug::TurkishHyphen,
            title_slug: Slug::TurkishHyphen,
            selector: "#contentArea div.toolbox + div",
            extract: Extract::First,
            verify_title: false,
        },
        SiteSpec {
            site: Site::Klyrics,
            template: "https://klyrics.net/{artist}-{title}/",
            artist_slug: Slug::Hyphen,
            title_slug: Slug::Hyphen,
            selector: "div.hangul-text",
            extract: Extract::First,
            verify_title: false,
        },
        SiteSpec {
            site: Site::ParolesNet,
            template: "https://www.paroles.net/{artist}/paroles-{title}",
            artist_slug: Slug::Hyphen,
            title_slug: Slug::Hyphen,
            selector: "article.lyrics",
            extract: Extract::BareDivs,
            verify_title: true,
        },
        SiteSpec {
            site: Site::Angolotesti,
            template: "https://angolotesti.it/a/testi_canzoni_{artist}/testo_canzone_{title}.html",
            artist_slug: Slug::Underscore,
            title_slug: Slug::Underscore,
            selector: "div.testo",
            extract: Extract::WalkSkipNoise,
            verify_title: true,
        },
        SiteSpec {
            site: Site::LetrasCom,
            template: "https://www.letras.com/{artist}/{title}/",
            artist_slug: Slug::Hyphen,
            title_slug: Slug::Hyphen,
            selector: "div.lyric-original",
            extract: Extract::First,
            verify_title: true,
        },
    ]
}

/// The table of HTML sources, in the order in which they are probed.
pub fn specs() -> (r: [SiteSpec; 12])
    ensures
        r@ == spec_table(),
{
    let r = [
        SiteSpec {
            site: Site::AzLyrics,
            template: "https://www.azlyrics.com/lyrics/{artist}/{title}.html",
            artist_slug: Slug::CompactNoThe,
            title_slug: Slug::Compact,
            selector: "div.ringtone",
            extract: Extract::SiblingDiv,
            verify_title: false,
        },
        SiteSpec {
            site: Site::Genius,
            template: "https://genius.com/{artist}-{title}-lyrics",
            artist_slug: Slug::CapitalHyphen,
            title_slug: Slug::Hyphen,
            selector: "[data-lyrics-container=\"true\"]",
            extract: Extract::All,
            verify_title: false,
        },
        SiteSpec {
            site: Site::VersuriRo,
            template: "https://www.versuri.ro/versuri/{artist}-{title}/",
            artist_slug: Slug::Hyphen,
            title_slug: Slug::Hyphen,
            selector: "#textdiv",
            extract: Extract::First,
            verify_title: false,
        },
        SiteSpec {
            site: Site::VersuriUs,
            template: "https://www.versuri.us/{artist}-{title}-lyrics",
            artist_slug: Slug::Hyphen,
            title_slug: Slug::Hyphen,
            selector: "div.post_inside p",
            extract: Extract::All,
            verify_title: false,
        },
        SiteSpec {
            site: Site::Lyricshare,
            template: "https://lyricshare.net/ru/{artist}/{title}.html",
            artist_slug: Slug::Hyphen,
            title_slug: Slug::Hyphen,
            selector: "#lyricSheet",
            extract: Extract::First,
            verify_title: false,
        },
        SiteSpec {
            site: Site::Tekstowo,
            template: "https://www.tekstowo.pl/{artist}/{title}",
            artist_slug: Slug::Hyphen,
            title_slug: Slug::Hyphen,
            selector: "#songText > .inner-text",
            extract: Extract::First,
            verify_title: false,
        },
        SiteSpec {
            site: Site::LetrasMusBr,
            template: "https://www.letras.mus.br/{artist}/{title}/",
            artist_slug: Slug::Hyphen,
            title_slug: Slug::Hyphen,
            selector: "div.lyric-original",
            extract: Extract::First,
            verify_title: false,
        },
        SiteSpec {
            site: Site::Sarkisozum,
            template: "https://www.sarkisozum.gen.tr/en/{artist}/{title}-lyrics",
            artist_slug: Slug::TurkishHyphen,
            title_slug: Slug::TurkishHyphen,
            selector: "#contentArea div.toolbox + div",
            extract: Extract::First,
            verify_title: false,
        },
        SiteSpec {
            site: Site::Klyrics,
            template: "https://klyrics.net/{artist}-{title}/",
            artist_slug: Slug::Hyphen,
            title_slug: Slug::Hyphen,
            selector: "div.hangul-text",
            extract: Extract::First,
            verify_title: false,
        },
        SiteSpec {
            site: Site::ParolesNet,
            template: "https://www.paroles.net/{artist}/paroles-{title}",
            artist_slug: Slug::Hyphen,
            title_slug: Slug::Hyphen,
            selector: "article.lyrics",
            extract: Extract::BareDivs,
            verify_title: true,
        },
        SiteSpec {
            site: Site::Angolotesti,
            template: "https://angolotesti.it/a/testi_canzoni_{artist}/testo_canzone_{title}.html",
            artist_slug: Slug::Underscore,
            title_slug: Slug::Underscore,
            selector: "div.testo",
            extract: Extract::WalkSkipNoise,
            verify_title: true,
        },
        SiteSpec {
            site: Site::LetrasCom,
            template: "https://www.letras.com/{artist}/{title}/",
            artist_slug: Slug::Hyphen,
            title_slug: Slug::Hyphen,
            selector: "div.lyric-original",
            extract: Extract::First,
            verify_title: true,
        },
    ];
    assert(r@ == spec_table());
    r
}

/// The index of the first row of `table` for `site`, if any.
pub open spec fn first_row_for(table: Seq<SiteSpec>, site: Site) -> Option<int> {
    if exists|i: int| 0 <= i < table.len() && table[i].site == site {
        Some(choose|i: int| 0 <= i < table.len() && table[i].site == site
            && forall|j: int| 0 <= j < i ==> table[j].site != site)
    } else {
        None
    }
}

/// The row of the table for `site`: the first one, if there is one.
pub open spec fn spec_for_site(site: Site) -> Option<SiteSpec> {
    match first_row_for(spec_table(), site) {
        Some(i) => Some(spec_table()[i]),
        None => None,
    }
}

/// The scrape spec for `site`, if the table has one.
pub fn find_spec(site: Site) -> (r: Option<SiteSpec>)
    ensures
        r == spec_for_site(site),
{
    let table = specs();
    let mut i: usize = 0;
    while i < 12
        invariant
            i <= 12,
            table@ == spec_table(),
            forall|j: int| 0 <= j < i ==> spec_table()[j].site != site,
        decreases 12 - i,
    {
        if table[i].site == site {
            let ghost k = first_row_for(spec_table(), site);
            assert(k == Some(i as int)) by {
                let c = choose|c: int| 0 <= c < spec_table().len() && spec_table()[c].site == site
                    && forall|j: int| 0 <= j < c ==> spec_table()[j].site != site;
                assert(0 <= i < spec_table().len() && spec_table()[i as int].site == site);
                if c < i {
                } else if c > i {
                    assert(spec_table()[i as int].site != site);
                }
            }
            return Some(table[i]);
        }
        i += 1;
    }
    None
}

/// Every source but SoundCloud has exactly one row in the table, and
/// SoundCloud has none: a hit from any source can be fetched.
pub proof fn lemma_table_covers_sites(site: Site)
    ensures
        site == Site::SoundCloud <==> spec_for_site(site) is None,
        spec_for_site(site) matches Some(s) ==> s.site == site,
        forall|i: int, j: int| 0 <= i < j < spec_table().len() ==> spec_table()[i].site != spec_table()[j].site,
{
    let t = spec_table();
    if site != Site::SoundCloud {
        let k: int = match site {
            Site::AzLyrics => 0,
            Site::Genius => 1,
            Site::VersuriRo => 2,
            Site::VersuriUs => 3,
            Site::Lyricshare => 4,
            Site::Tekstowo => 5,
            Site::LetrasMusBr => 6,
            Site::Sarkisozum => 7,
            Site::Klyrics => 8,
            Site::ParolesNet => 9,
            Site::Angolotesti => 10,
            Site::LetrasCom => 11,
            Site::SoundCloud => 0,
        };
        assert(t[k].site == site);
    } else {
        assert forall|i: int| 0 <= i < t.len() implies t[i].site != site by {}
    }
    let r = first_row_for(t, site);
    if r is Some {
        let c = r->0;
        assert(t[c].site == site);
    }
}

/// The sources whose pages are title-checked are exactly the ones of medium
/// reliability, which may answer a bad guess with a wrong page.
pub proof fn lemma_title_checked_iff_medium()
    ensures
        forall|i: int| 0 <= i < spec_table().len() ==>
            (#[trigger] spec_table()[i]).verify_title == (site_reliability(spec_table()[i].site) == Reliability::Medium),
{
}

} // verus!
