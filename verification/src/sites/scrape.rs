//! The generic probe and scrape logic that drives every HTML source.
use vstd::prelude::*;
use crate::dom::{
    all_lines, bare_div_children, bare_div_lines, html_select, lines_of, lines_of_all,
    lines_of_element, match_views, next_sibling_div, select_in_html, sibling_div_from,
    subtree_end, subtree_end_of, text_in, text_in_range, walk_lines, walk_skipping_noise, DomNode,
};
use crate::error::{
    is_mismatch_error, is_page_failure, layout_error, page_failure, SiteError,
};
use crate::id::{hit_id, hit_id_spec};
use crate::model::{Lyrics, SearchHit, Site};
use crate::sites::slug::{title_matches, title_matches_spec};
use crate::sites::spec::{Extract, SiteSpec};
use crate::text::{join_lines, join_with_newlines, lemma_join_nonempty, views};
use crate::dom::{lemma_all_lines_nonempty, lemma_bare_div_lines_nonempty, lemma_lines_in_nonempty, lemma_walk_lines_nonempty};

verus! {

/// The selector of a page's title element.
pub const TITLE_SELECTOR: &'static str = "title";

/// The title of a page: the text of its first `title` element; `Err(Some(m))`
/// when the selector does not parse, `Err(None)` when there is no title.
pub open spec fn page_title_spec(html: Seq<char>) -> Result<Seq<char>, Option<Seq<char>>> {
    match html_select(html, TITLE_SELECTOR@) {
        Err(message) => Err(Some(message)),
        Ok(ms) => if ms.len() == 0 {
            Err(None)
        } else {
            Ok(text_in(ms[0], 0, subtree_end(ms[0], 0)))
        },
    }
}

/// The lyrics lines that `mode` finds among the matches, or `None` when the
/// element it needs is missing.
pub open spec fn extract_lines(mode: Extract, ms: Seq<Seq<DomNode>>) -> Option<Seq<Seq<char>>> {
    match mode {
        Extract::All => Some(all_lines(ms)),
        _ => if ms.len() == 0 {
            None
        } else {
            let m = ms[0];
            match mode {
                Extract::First => Some(lines_of(m, 0)),
                Extract::SiblingDiv => match sibling_div_from(m, m[0].depth as nat, 1) {
                    Some(k) => Some(lines_of(m, k)),
                    None => None,
                },
                Extract::BareDivs => Some(bare_div_lines(m, m[0].depth as nat, 1, subtree_end(m, 0))),
                _ => Some(walk_lines(m, 1, subtree_end(m, 0))),
            }
        },
    }
}

/// The lyrics text of a page: its lines joined by newlines; `Err(Some(m))`
/// when the selector does not parse, `Err(None)` when no line is found.
pub open spec fn extract_spec(spec: SiteSpec, html: Seq<char>) -> Result<Seq<char>, Option<Seq<char>>> {
    match html_select(html, spec.selector@) {
        Err(message) => Err(Some(message)),
        Ok(ms) => match extract_lines(spec.extract, ms) {
            Some(lines) => if lines.len() > 0 { Ok(join_lines(lines)) } else { Err(None) },
            None => Err(None),
        },
    }
}

/// `h` is the hit for `url` at `site`, for the song `title` by `artist`.
pub open spec fn is_hit(h: SearchHit, site: Site, url: Seq<char>, title: Seq<char>, artist: Seq<char>) -> bool {
    &&& h.id@ == hit_id_spec(site, url)
    &&& h.site == site
    &&& h.url@ == url
    &&& h.title@ == title
    &&& h.artist@ == artist
}

/// Whether the probe found the song, once the page (if it was needed) is known.
pub open spec fn probe_accepts(spec: SiteSpec, title: Seq<char>, status_ok: bool, body: Seq<char>) -> bool {
    status_ok && (!spec.verify_title || (page_title_spec(body) matches Ok(t) && title_matches_spec(t, title)))
}

/// The title of the page.
pub fn page_title(html: &str, spec: &SiteSpec, url: &str) -> (r: Result<String, SiteError>)
    ensures
        match page_title_spec(html@) {
            Ok(t) => r matches Ok(s) && s@ == t,
            Err(f) => r matches Err(e) && is_page_failure(e, f, spec.site, url@),
        },
{
    match select_in_html(html, TITLE_SELECTOR) {
        Err(message) => Err(page_failure(Some(message), spec.site, url)),
        Ok(ms) => {
            if ms.len() == 0 {
                Err(layout_error(spec.site, url))
            } else {
                let m = &ms[0];
                let e = subtree_end_of(m, 0);
                Ok(text_in_range(m, 0, e))
            }
        },
    }
}

/// The lyrics text of the page, as the spec's extraction mode finds it.
pub fn extract(html: &str, spec: &SiteSpec, url: &str) -> (r: Result<String, SiteError>)
    ensures
        match extract_spec(*spec, html@) {
            Ok(t) => r matches Ok(s) && s@ == t,
            Err(f) => r matches Err(e) && is_page_failure(e, f, spec.site, url@),
        },
{
    let ms = match select_in_html(html, spec.selector) {
        Err(message) => return Err(page_failure(Some(message), spec.site, url)),
        Ok(ms) => ms,
    };
    let ghost mv = match_views(ms@);
    let lines: Vec<String> = match spec.extract {
        Extract::All => lines_of_all(&ms),
        _ => {
            if ms.len() == 0 {
                return Err(layout_error(spec.site, url));
            }
            let m = &ms[0];
            assert(mv[0] == m@);
            match spec.extract {
                Extract::First => lines_of_element(m, 0),
                Extract::SiblingDiv => match next_sibling_div(m) {
                    Some(k) => lines_of_element(m, k),
                    None => return Err(layout_error(spec.site, url)),
                },
                Extract::BareDivs => {
                    let e = subtree_end_of(m, 0);
                    bare_div_children(m, e)
                },
                _ => {
                    let e = subtree_end_of(m, 0);
                    walk_skipping_noise(m, e)
                },
            }
        },
    };
    assert(extract_lines(spec.extract, mv) == Some(views(lines@)));
    if lines.len() == 0 {
        return Err(layout_error(spec.site, url));
    }
    Ok(join_with_newlines(&lines))
}

/// The hit for `url` at `site`.
pub fn make_hit(site: Site, url: String, title: &str, artist: &str) -> (h: SearchHit)
    ensures
        is_hit(h, site, url@, title@, artist@),
{
    SearchHit { id: hit_id(site, url.as_str()), site, url, title: title.to_owned(), artist: artist.to_owned() }
}

/// Whether the probe must read the page: only for a successful answer from a
/// source whose titles are checked.
pub fn needs_body(spec: &SiteSpec, status_ok: bool) -> (b: bool)
    ensures
        b == (status_ok && spec.verify_title),
{
    status_ok && spec.verify_title
}

/// What a probe of the guessed `url` found: nothing on an unsuccessful
/// answer, nothing when the page's title is not the song's, otherwise the hit.
pub fn probe_outcome(
    spec: &SiteSpec,
    artist: &str,
    title: &str,
    url: String,
    status_ok: bool,
    body: Option<&str>,
) -> (r: Result<Vec<SearchHit>, SiteError>)
    requires
        status_ok && spec.verify_title ==> body is Some,
    ensures
        !status_ok ==> (r matches Ok(v) && v@.len() == 0),
        status_ok && !spec.verify_title ==> (r matches Ok(v) && v@.len() == 1 && is_hit(v@[0], spec.site, url@, title@, artist@)),
        status_ok && spec.verify_title ==> match page_title_spec(body.unwrap()@) {
            Err(f) => r matches Err(e) && is_page_failure(e, f, spec.site, url@),
            Ok(t) => if title_matches_spec(t, title@) {
                r matches Ok(v) && v@.len() == 1 && is_hit(v@[0], spec.site, url@, title@, artist@)
            } else {
                r matches Ok(v) && v@.len() == 0
            },
        },
{
    if !status_ok {
        return Ok(Vec::new());
    }
    if spec.verify_title {
        let page = match body {
            Some(b) => b,
            None => return Ok(Vec::new()),
        };
        let found = page_title(page, spec, url.as_str())?;
        if !title_matches(found.as_str(), title) {
            return Ok(Vec::new());
        }
    }
    let mut hits = Vec::new();
    hits.push(make_hit(spec.site, url, title, artist));
    Ok(hits)
}

/// The lyrics on a fetched page: the title is checked first for sources that
/// need it, then the lines are extracted.
pub fn lyrics_from_page(spec: &SiteSpec, url: &str, expected_title: &str, body: &str) -> (r: Result<Lyrics, SiteError>)
    ensures
        spec.verify_title ==> match page_title_spec(body@) {
            Err(f) => r matches Err(e) && is_page_failure(e, f, spec.site, url@),
            Ok(t) => !title_matches_spec(t, expected_title@) ==> (r matches Err(e) && is_mismatch_error(e, spec.site, url@, expected_title@)),
        },
        probe_accepts(*spec, expected_title@, true, body@) ==> match extract_spec(*spec, body@) {
            Ok(text) => r matches Ok(l) && l.site == spec.site && l.url@ == url@ && l.text@ == text,
            Err(f) => r matches Err(e) && is_page_failure(e, f, spec.site, url@),
        },
{
    if spec.verify_title {
        let found = page_title(body, spec, url)?;
        if !title_matches(found.as_str(), expected_title) {
            return Err(SiteError::Mismatch {
                site: spec.site.label(),
                url: url.to_owned(),
                expected: expected_title.to_owned(),
            });
        }
    }
    let text = extract(body, spec, url)?;
    Ok(Lyrics { site: spec.site, url: url.to_owned(), text })
}

/// Extracted lyrics are never empty: an extraction that finds no line fails.
pub proof fn lemma_extracted_text_nonempty(spec: SiteSpec, html: Seq<char>)
    ensures
        extract_spec(spec, html) matches Ok(text) ==> text.len() > 0,
{
    if let Ok(ms) = html_select(html, spec.selector@) {
        if let Some(lines) = extract_lines(spec.extract, ms) {
            if lines.len() > 0 {
                match spec.extract {
                    Extract::All => lemma_all_lines_nonempty(ms),
                    Extract::First => lemma_lines_in_nonempty(ms[0], 0, subtree_end(ms[0], 0)),
                    Extract::SiblingDiv => {
                        let k = sibling_div_from(ms[0], ms[0][0].depth as nat, 1)->0;
                        lemma_lines_in_nonempty(ms[0], k, subtree_end(ms[0], k));
                    },
                    Extract::BareDivs => lemma_bare_div_lines_nonempty(ms[0], ms[0][0].depth as nat, 1, subtree_end(ms[0], 0)),
                    Extract::WalkSkipNoise => lemma_walk_lines_nonempty(ms[0], 1, subtree_end(ms[0], 0)),
                }
                lemma_join_nonempty(lines);
            }
        }
    }
}

/// A hit that a probe accepted fetches without a title mismatch from the same
/// page: the search and the fetch apply the same title check.
pub proof fn lemma_probe_hit_passes_fetch_check(spec: SiteSpec, title: Seq<char>, body: Seq<char>)
    requires
        probe_accepts(spec, title, true, body),
    ensures
        spec.verify_title ==> (page_title_spec(body) matches Ok(t) && title_matches_spec(t, title)),
{
}

} // verus!
