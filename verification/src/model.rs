//! The sources, their reliability, and what a search and a fetch return.
use vstd::prelude::*;

verus! {

/// A lyrics source.
#[derive(Debug, Clone, Copy, PartialEq, Eq, Structural)]
pub enum Site {
    AzLyrics,
    Genius,
    SoundCloud,
    VersuriRo,
    Lyricshare,
    ParolesNet,
    Tekstowo,
    LetrasMusBr,
    Angolotesti,
    LetrasCom,
    Sarkisozum,
    Klyrics,
    VersuriUs,
}

/// How far a hit from a source can be trusted, from least to most.
#[derive(Debug, Clone, Copy, PartialEq, Eq, PartialOrd, Ord, Structural)]
pub enum Reliability {
    Low,
    Medium,
    High,
}

/// The name under which a source is shown and serialized.
pub open spec fn site_label(s: Site) -> Seq<char> {
    match s {
        Site::AzLyrics => "azlyrics"@,
        Site::Genius => "genius"@,
        Site::SoundCloud => "soundcloud"@,
        Site::VersuriRo => "versuri.ro"@,
        Site::Lyricshare => "lyricshare.net"@,
        Site::ParolesNet => "paroles.net"@,
        Site::Tekstowo => "tekstowo.pl"@,
        Site::LetrasMusBr => "letras.mus.br"@,
        Site::Angolotesti => "angolotesti.it"@,
        Site::LetrasCom => "letras.com"@,
        Site::Sarkisozum => "sarkisozum.gen.tr"@,
        Site::Klyrics => "klyrics.net"@,
        Site::VersuriUs => "versuri.us"@,
    }
}

/// High: a bad guess 404s cleanly. Medium: the site may answer a bad guess
/// with a wrong page, which the title check catches. Low: not a lyrics site.
pub open spec fn site_reliability(s: Site) -> Reliability {
    match s {
        Site::ParolesNet | Site::Angolotesti | Site::LetrasCom => Reliability::Medium,
        Site::SoundCloud => Reliability::Low,
        _ => Reliability::High,
    }
}

impl Site {
    /// The source's display name.
    pub fn label(self) -> (r: &'static str)
        ensures
            r@ == site_label(self),
    {
        match self {
            Site::AzLyrics => "azlyrics",
            Site::Genius => "genius",
            Site::SoundCloud => "soundcloud",
            Site::VersuriRo => "versuri.ro",
            Site::Lyricshare => "lyricshare.net",
            Site::ParolesNet => "paroles.net",
            Site::Tekstowo => "tekstowo.pl",
            Site::LetrasMusBr => "letras.mus.br",
            Site::Angolotesti => "angolotesti.it",
            Site::LetrasCom => "letras.com",
            Site::Sarkisozum => "sarkisozum.gen.tr",
            Site::Klyrics => "klyrics.net",
            Site::VersuriUs => "versuri.us",
        }
    }

    /// How far the source's hits can be trusted.
    pub fn reliability(self) -> (r: Reliability)
        ensures
            r == site_reliability(self),
    {
        match self {
            Site::AzLyrics
            | Site::Genius
            | Site::VersuriRo
            | Site::Lyricshare
            | Site::Tekstowo
            | Site::LetrasMusBr
            | Site::Sarkisozum
            | Site::Klyrics
            | Site::VersuriUs => Reliability::High,
            Site::ParolesNet | Site::Angolotesti | Site::LetrasCom => Reliability::Medium,
            Site::SoundCloud => Reliability::Low,
        }
    }
}

/// A candidate song page that resolved.
#[derive(Debug, Clone)]
pub struct SearchHit {
    pub id: String,
    pub site: Site,
    pub url: String,
    pub title: String,
    pub artist: String,
}

/// The lyrics text of one hit.
#[derive(Debug, Clone)]
pub struct Lyrics {
    pub site: Site,
    pub url: String,
    pub text: String,
}

} // verus!
