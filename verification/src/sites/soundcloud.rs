//! SoundCloud: finding the public client id, turning its search and resolve
//! answers into hits and lyrics.
use vstd::prelude::*;
use crate::dom::{attr_lookup, attr_value, html_select, match_views, select_in_html, DomKind, DomNode};
use crate::error::{is_layout_error, is_selector_error, layout_error, SiteError};
use crate::json::{json_get, json_get_opt, json_items, json_parse, json_text, parse_json, Json};
use crate::model::{Lyrics, SearchHit, Site};
use crate::sites::scrape::{is_hit, make_hit};
use crate::text::{chars_of, contains_chars, contains_seq, lemma_trim_shrinks, occurs_at, trim, trim_spec};

verus! {

/// The source these functions serve.
pub const SITE: Site = Site::SoundCloud;

/// What precedes the client id in SoundCloud's script bundles.
pub const CLIENT_ID_MARKER: &'static str = "client_id:\"";

/// A track description shorter than this (once trimmed) is not lyrics.
pub const MIN_DESCRIPTION_LEN: usize = 100;

/// The page whose scripts hold the client id.
pub const HOME_URL: &'static str = "https://soundcloud.com/";

/// The track search endpoint.
pub const SEARCH_URL: &'static str = "https://api-v2.soundcloud.com/search/tracks";

/// The endpoint that resolves a track URL.
pub const RESOLVE_URL: &'static str = "https://api-v2.soundcloud.com/resolve";

/// The selector of script elements with a source.
pub const BUNDLE_SELECTOR: &'static str = "script[src]";

/// The first position from `i` on where `pat` occurs in `s`.
pub open spec fn find_from(s: Seq<char>, pat: Seq<char>, i: int) -> Option<int>
    decreases s.len() - i,
{
    if i < 0 || i + pat.len() > s.len() {
        None
    } else if pat.len() == 0 || s.subrange(i, i + pat.len()) == pat {
        Some(i)
    } else {
        find_from(s, pat, i + 1)
    }
}

/// The client id in a script: the text between the first marker and the next
/// double quote.
pub open spec fn client_id_spec(js: Seq<char>) -> Option<Seq<char>> {
    match find_from(js, CLIENT_ID_MARKER@, 0) {
        Some(i) => match find_from(js, seq!['"'], i + CLIENT_ID_MARKER@.len()) {
            Some(e) => Some(js.subrange(i + CLIENT_ID_MARKER@.len(), e)),
            None => None,
        },
        None => None,
    }
}

/// The value of attribute `key` of an element node.
pub open spec fn element_attr(n: DomNode, key: Seq<char>) -> Option<Seq<char>> {
    match n.kind {
        DomKind::Element(_, attrs) => attr_value(attrs@, key),
        _ => None,
    }
}

/// A script source that is one of SoundCloud's asset bundles.
pub open spec fn is_bundle_src(src: Seq<char>) -> bool {
    contains_seq(src, "sndcdn.com/assets/"@) && src.len() >= 3 && src.skip(src.len() - 3) == ".js"@
}

/// The bundle sources among the matched script elements, in order.
pub open spec fn bundle_srcs(ms: Seq<Seq<DomNode>>) -> Seq<Seq<char>>
    decreases ms.len(),
{
    if ms.len() == 0 {
        Seq::empty()
    } else {
        bundle_srcs(ms.drop_last()) + match element_attr(ms.last()[0], "src"@) {
            Some(src) => if is_bundle_src(src) { seq![src] } else { Seq::<Seq<char>>::empty() },
            None => Seq::<Seq<char>>::empty(),
        }
    }
}

/// The URL, title and uploader of a track, when it has all of them and a
/// description long enough to be lyrics.
pub open spec fn track_fields(item: Json) -> Option<(Seq<char>, Seq<char>, Seq<char>)> {
    let permalink = json_text(json_get(item, "permalink_url"@));
    let title = json_text(json_get(item, "title"@));
    let artist = json_text(json_get_opt(json_get(item, "user"@), "username"@));
    let description = json_text(json_get(item, "description"@));
    if permalink is Some && title is Some && artist is Some && description is Some
        && trim_spec(description->0).len() >= MIN_DESCRIPTION_LEN {
        Some((permalink->0, title->0, artist->0))
    } else {
        None
    }
}

/// The usable tracks among `items`, in order.
pub open spec fn track_list(items: Seq<Json>) -> Seq<(Seq<char>, Seq<char>, Seq<char>)>
    decreases items.len(),
{
    if items.len() == 0 {
        Seq::empty()
    } else {
        track_list(items.drop_last()) + match track_fields(items.last()) {
            Some(f) => seq![f],
            None => Seq::empty(),
        }
    }
}

/// The tracks of a search answer: its `collection` array, or none.
pub open spec fn collection_of(body: Json) -> Seq<Json> {
    match json_items(json_get(body, "collection"@)) {
        Some(items) => items,
        None => Seq::empty(),
    }
}

/// `v` holds exactly the SoundCloud hits for `tracks`, in order.
pub open spec fn hits_for_tracks(v: Seq<SearchHit>, tracks: Seq<(Seq<char>, Seq<char>, Seq<char>)>) -> bool {
    &&& v.len() == tracks.len()
    &&& forall|i: int| 0 <= i < v.len() ==> is_hit(#[trigger] v[i], SITE, tracks[i].0, tracks[i].1, tracks[i].2)
}

/// The decimal digits of `n`.
pub open spec fn decimal(n: nat) -> Seq<char>
    decreases n,
{
    if n < 10 {
        seq![('0' as nat + n) as char]
    } else {
        decimal(n / 10).push(('0' as nat + n % 10) as char)
    }
}

/// The first position from `from` on where `pat` occurs in `cs`.
pub fn find_chars(cs: &Vec<char>, pat: &Vec<char>, from: usize) -> (r: Option<usize>)
    ensures
        match r {
            Some(i) => find_from(cs@, pat@, from as int) == Some(i as int),
            None => find_from(cs@, pat@, from as int) is None,
        },
{
    if pat.len() > cs.len() {
        return None;
    }
    let last = cs.len() - pat.len();
    let mut i = from;
    while i <= last
        invariant
            last == cs.len() - pat.len(),
            from <= i,
            find_from(cs@, pat@, i as int) == find_from(cs@, pat@, from as int),
        decreases last - i,
    {
        if occurs_at(cs, pat, i) {
            return Some(i);
        }
        assert(pat@.len() != 0) by {
            if pat@.len() == 0 {
                assert(cs@.subrange(i as int, i as int) == pat@);
            }
        }
        assert(find_from(cs@, pat@, i as int) == find_from(cs@, pat@, i + 1));
        if i == last {
            assert(find_from(cs@, pat@, i + 1) is None);
            return None;
        }
        i += 1;
    }
    None
}

fn digit_char(d: usize) -> (c: char)
    requires
        d < 10,
    ensures
        c == ('0' as nat + d) as char,
{
    match d {
        0 => '0',
        1 => '1',
        2 => '2',
        3 => '3',
        4 => '4',
        5 => '5',
        6 => '6',
        7 => '7',
        8 => '8',
        _ => '9',
    }
}

/// The decimal digits of `n`, as `usize::to_string` writes them.
pub fn decimal_string(n: usize) -> (r: String)
    ensures
        r@ == decimal(n as nat),
    decreases n,
{
    if n < 10 {
        let mut s = String::new();
        s.push(digit_char(n));
        s
    } else {
        let mut s = decimal_string(n / 10);
        s.push(digit_char(n % 10));
        s
    }
}

/// A SoundCloud API answer parsed as JSON, or the `Api` error when the text
/// is not JSON.
pub fn soundcloud_answer(text: &str) -> (r: Result<Json, SiteError>)
    ensures
        match json_parse(text@) {
            Some(j) => (r matches Ok(v) && v == j),
            None => (r matches Err(SiteError::Api { site, .. }) && site@ == crate::model::site_label(SITE)),
        },
{
    match parse_json(text) {
        Ok(v) => Ok(v),
        Err(source) => Err(SiteError::Api { site: SITE.label(), source }),
    }
}

/// The client id that one fetched script bundle yields: none when the bundle
/// could not be fetched or holds no id. The search for the id stops at the
/// first bundle that yields one.
pub fn next_client_id(bundle: Option<&str>) -> (r: Option<String>)
    ensures
        match bundle {
            Some(js) => match client_id_spec(js@) {
                Some(id) => (r matches Some(s) && s@ == id),
                None => r is None,
            },
            None => r is None,
        },
{
    match bundle {
        Some(js) => match extract_client_id(js) {
            Ok(id) => Some(id.to_owned()),
            Err(_) => None,
        },
        None => None,
    }
}

/// The error when no bundle yields a client id.
pub fn no_client_id() -> (e: SiteError)
    ensures
        e matches SiteError::ClientId { site } && site@ == crate::model::site_label(SITE),
{
    SiteError::ClientId { site: SITE.label() }
}

/// The URLs of SoundCloud's script bundles on its home page.
pub fn bundle_urls_in(body: &str) -> (r: Result<Vec<String>, SiteError>)
    ensures
        match html_select(body@, BUNDLE_SELECTOR@) {
            Err(message) => (r matches Err(e) && is_selector_error(e, SITE, message)),
            Ok(ms) => (r matches Ok(v) && crate::text::views(v@) == bundle_srcs(ms)),
        },
{
    let ms = match select_in_html(body, BUNDLE_SELECTOR) {
        Err(message) => return Err(SiteError::Selector { site: SITE.label(), message }),
        Ok(ms) => ms,
    };
    let assets = chars_of("sndcdn.com/assets/");
    let js = chars_of(".js");
    proof {
        reveal_strlit(".js");
    }
    let mut out: Vec<String> = Vec::new();
    let mut k: usize = 0;
    while k < ms.len()
        invariant
            k <= ms.len(),
            assets@ == "sndcdn.com/assets/"@,
            js@ == ".js"@,
            js@.len() == 3,
            forall|i: int| 0 <= i < ms@.len() ==> (#[trigger] ms@[i])@.len() > 0,
            crate::text::views(out@) == bundle_srcs(match_views(ms@.take(k as int))),
        decreases ms.len() - k,
    {
        assert(match_views(ms@.take(k + 1)).drop_last() == match_views(ms@.take(k as int)));
        assert(match_views(ms@.take(k + 1)).last() == ms@[k as int]@);
        let node = &ms[k][0];
        let src = match &node.kind {
            DomKind::Element(_, attrs) => attr_lookup(attrs, "src"),
            _ => None,
        };
        match src {
            Some(s) => {
                let sc = chars_of(s.as_str());
                let wanted = contains_chars(&sc, &assets) && sc.len() >= 3 && occurs_at(&sc, &js, sc.len() - 3);
                proof {
                    if sc.len() >= 3 {
                        assert(sc@.subrange(sc.len() - 3, sc.len() - 3 + 3) == sc@.skip(sc.len() - 3));
                    }
                }
                if wanted {
                    let ghost before = out@;
                    out.push(s.clone());
                    assert(crate::text::views(out@) == crate::text::views(before) + seq![s@]);
                }
            },
            None => {},
        }
        k += 1;
    }
    assert(ms@.take(ms.len() as int) == ms@);
    Ok(out)
}

/// The client id written in a script bundle.
pub fn extract_client_id(js: &str) -> (r: Result<&str, SiteError>)
    ensures
        match client_id_spec(js@) {
            Some(id) => (r matches Ok(s) && s@ == id),
            None => (r matches Err(e) && e matches SiteError::ClientId { site } && site@ == crate::model::site_label(SITE)),
        },
{
    let cs = chars_of(js);
    let marker = chars_of(CLIENT_ID_MARKER);
    let quote = chars_of("\"");
    proof {
        reveal_strlit("\"");
        assert(quote@ == seq!['"']);
    }
    let start = match find_chars(&cs, &marker, 0) {
        Some(i) => i,
        None => return Err(SiteError::ClientId { site: SITE.label() }),
    };
    assert(start + marker.len() <= cs.len()) by {
        lemma_find_from_bounds(cs@, marker@, 0);
    }
    let begin = start + marker.len();
    match find_chars(&cs, &quote, begin) {
        Some(end) => {
            proof {
                lemma_find_from_bounds(cs@, quote@, begin as int);
            }
            Ok(js.substring_char(begin, end))
        },
        None => Err(SiteError::ClientId { site: SITE.label() }),
    }
}

/// A found position is in bounds and no earlier position from `i` on matches.
pub proof fn lemma_find_from_bounds(s: Seq<char>, pat: Seq<char>, i: int)
    ensures
        find_from(s, pat, i) matches Some(k) ==> i <= k && k + pat.len() <= s.len()
            && s.subrange(k, k + pat.len()) == pat
            && forall|j: int| i <= j < k ==> #[trigger] s.subrange(j, j + pat.len()) != pat,
    decreases s.len() - i,
{
    if !(i < 0 || i + pat.len() > s.len()) && pat.len() != 0 && s.subrange(i, i + pat.len()) != pat {
        lemma_find_from_bounds(s, pat, i + 1);
    }
}

/// A client id never contains a double quote, and the marker precedes it.
pub proof fn lemma_client_id_has_no_quote(js: Seq<char>)
    ensures
        client_id_spec(js) matches Some(id) ==> forall|k: int| 0 <= k < id.len() ==> id[k] != '"',
{
    let m = CLIENT_ID_MARKER@;
    if let Some(i) = find_from(js, m, 0) {
        lemma_find_from_bounds(js, m, 0);
        let b = i + m.len();
        if let Some(e) = find_from(js, seq!['"'], b) {
            lemma_find_from_bounds(js, seq!['"'], b);
            let id = js.subrange(b, e);
            assert forall|k: int| 0 <= k < id.len() implies id[k] != '"' by {
                let j = b + k;
                assert(js.subrange(j, j + 1) != seq!['"']);
                assert(js.subrange(j, j + 1) =~= seq![js[j]]);
            }
        }
    }
}

/// The query of a track search: the artist and title, the client id and the
/// number of tracks wanted.
pub fn search_params(artist: &str, title: &str, client_id: &str, max_hits: usize) -> (r: Vec<(String, String)>)
    ensures
        r@.len() == 3,
        r@[0].0@ == "q"@ && r@[0].1@ == artist@ + " "@ + title@,
        r@[1].0@ == "client_id"@ && r@[1].1@ == client_id@,
        r@[2].0@ == "limit"@ && r@[2].1@ == decimal(max_hits as nat),
{
    let mut q = artist.to_owned();
    q.append(" ");
    q.append(title);
    let mut r = Vec::new();
    r.push(("q".to_owned(), q));
    r.push(("client_id".to_owned(), client_id.to_owned()));
    r.push(("limit".to_owned(), decimal_string(max_hits)));
    r
}

/// The query that resolves a track URL.
pub fn resolve_params(url: &str, client_id: &str) -> (r: Vec<(String, String)>)
    ensures
        r@.len() == 2,
        r@[0].0@ == "url"@ && r@[0].1@ == url@,
        r@[1].0@ == "client_id"@ && r@[1].1@ == client_id@,
{
    let mut r = Vec::new();
    r.push(("url".to_owned(), url.to_owned()));
    r.push(("client_id".to_owned(), client_id.to_owned()));
    r
}

/// The fields of a usable track.
fn track_of(item: &Json) -> (r: Option<(String, String, String)>)
    ensures
        match track_fields(*item) {
            Some(f) => (r matches Some(t) && t.0@ == f.0 && t.1@ == f.1 && t.2@ == f.2),
            None => r is None,
        },
{
    let permalink = match item.get("permalink_url") {
        Some(v) => v.as_str(),
        None => None,
    };
    let title = match item.get("title") {
        Some(v) => v.as_str(),
        None => None,
    };
    let artist = match item.get("user") {
        Some(user) => match user.get("username") {
            Some(v) => v.as_str(),
            None => None,
        },
        None => None,
    };
    let description = match item.get("description") {
        Some(v) => v.as_str(),
        None => None,
    };
    match (permalink, title, artist, description) {
        (Some(p), Some(t), Some(a), Some(d)) => {
            if trim(d.as_str()).unicode_len() < MIN_DESCRIPTION_LEN {
                None
            } else {
                Some((p.clone(), t.clone(), a.clone()))
            }
        },
        _ => None,
    }
}

/// The hits in a track search answer: at most `max_hits` tracks are looked
/// at, and those without a URL, title, uploader or lyrics-long description
/// are dropped.
pub fn hits_from_search(body: &Json, max_hits: usize) -> (r: Result<Vec<SearchHit>, SiteError>)
    ensures
        match json_items(json_get(*body, "collection"@)) {
            None => (r matches Err(e) && is_layout_error(e, SITE, SEARCH_URL@)),
            Some(items) => (r matches Ok(v) && hits_for_tracks(v@, track_list(items.take(
                if max_hits < items.len() { max_hits as int } else { items.len() as int },
            )))),
        },
        r matches Ok(v) ==> hits_have_lyrics_descriptions(collection_of(*body), v@),
{
    let items = match body.get("collection") {
        Some(v) => match v.as_array() {
            Some(items) => items,
            None => return Err(layout_error(SITE, SEARCH_URL)),
        },
        None => return Err(layout_error(SITE, SEARCH_URL)),
    };
    assert(collection_of(*body) == items@);
    let n = if max_hits < items.len() { max_hits } else { items.len() };
    let mut hits: Vec<SearchHit> = Vec::new();
    let mut k: usize = 0;
    while k < n
        invariant
            k <= n <= items.len(),
            hits_for_tracks(hits@, track_list(items@.take(k as int))),
        decreases n - k,
    {
        assert(items@.take(k + 1).drop_last() == items@.take(k as int));
        match track_of(&items[k]) {
            Some((permalink, title, artist)) => {
                let hit = make_hit(SITE, permalink, title.as_str(), artist.as_str());
                hits.push(hit);
            },
            None => {},
        }
        k += 1;
    }
    proof {
        lemma_hits_have_lyrics_descriptions(items@, n as int, hits@);
    }
    Ok(hits)
}

/// The lyrics in a resolved track: its description, when it is not blank.
pub fn lyrics_from_resolve(body: &Json, url: &str) -> (r: Result<Lyrics, SiteError>)
    ensures
        match json_text(json_get(*body, "description"@)) {
            Some(d) => if trim_spec(d).len() > 0 {
                (r matches Ok(l) && l.site == SITE && l.url@ == url@ && l.text@ == d)
            } else {
                (r matches Err(e) && is_layout_error(e, SITE, url@))
            },
            None => (r matches Err(e) && is_layout_error(e, SITE, url@)),
        },
{
    let description = match body.get("description") {
        Some(v) => match v.as_str() {
            Some(d) => d,
            None => return Err(layout_error(SITE, url)),
        },
        None => return Err(layout_error(SITE, url)),
    };
    if trim(description.as_str()).is_empty() {
        return Err(layout_error(SITE, url));
    }
    Ok(Lyrics { site: SITE, url: url.to_owned(), text: description.clone() })
}

/// Lyrics resolved from a track are never empty: a blank description fails.
pub proof fn lemma_resolved_lyrics_nonempty(description: Seq<char>)
    requires
        trim_spec(description).len() > 0,
    ensures
        description.len() > 0,
{
    lemma_trim_shrinks(description);
}

/// There are never more SoundCloud hits than tracks looked at.
pub proof fn lemma_track_list_bounded(items: Seq<Json>)
    ensures
        track_list(items).len() <= items.len(),
    decreases items.len(),
{
    if items.len() > 0 {
        lemma_track_list_bounded(items.drop_last());
    }
}

/// Every usable track comes from an item of the answer that has that URL,
/// title and uploader as strings, and a description that is a string of at
/// least `MIN_DESCRIPTION_LEN` characters once trimmed.
pub proof fn lemma_tracks_have_lyrics_descriptions(items: Seq<Json>)
    ensures
        forall|k: int| #![trigger track_list(items)[k]] 0 <= k < track_list(items).len() ==> exists|j: int| 0 <= j < items.len()
            && json_text(json_get(#[trigger] items[j], "permalink_url"@)) == Some(track_list(items)[k].0)
            && json_text(json_get(items[j], "title"@)) == Some(track_list(items)[k].1)
            && json_text(json_get_opt(json_get(items[j], "user"@), "username"@)) == Some(track_list(items)[k].2)
            && (json_text(json_get(items[j], "description"@)) matches Some(d)
                && trim_spec(d).len() >= MIN_DESCRIPTION_LEN),
    decreases items.len(),
{
    if items.len() > 0 {
        let rest = items.drop_last();
        lemma_tracks_have_lyrics_descriptions(rest);
        let t = track_list(items);
        let t0 = track_list(rest);
        assert forall|k: int| #![trigger t[k]] 0 <= k < t.len() implies exists|j: int| 0 <= j < items.len()
            && json_text(json_get(#[trigger] items[j], "permalink_url"@)) == Some(t[k].0)
            && json_text(json_get(items[j], "title"@)) == Some(t[k].1)
            && json_text(json_get_opt(json_get(items[j], "user"@), "username"@)) == Some(t[k].2)
            && (json_text(json_get(items[j], "description"@)) matches Some(d)
                && trim_spec(d).len() >= MIN_DESCRIPTION_LEN) by {
            if k < t0.len() {
                assert(t[k] == t0[k]);
                let j = choose|j: int| 0 <= j < rest.len()
                    && json_text(json_get(#[trigger] rest[j], "permalink_url"@)) == Some(t0[k].0)
                    && json_text(json_get(rest[j], "title"@)) == Some(t0[k].1)
                    && json_text(json_get_opt(json_get(rest[j], "user"@), "username"@)) == Some(t0[k].2)
                    && (json_text(json_get(rest[j], "description"@)) matches Some(d)
                        && trim_spec(d).len() >= MIN_DESCRIPTION_LEN);
                assert(items[j] == rest[j]);
            } else {
                assert(items[items.len() - 1] == items.last());
            }
        }
    }
}

/// An item whose description is missing, not a string, or shorter than
/// `MIN_DESCRIPTION_LEN` once trimmed adds no track, whatever else it holds.
pub proof fn lemma_short_description_adds_nothing(items: Seq<Json>, item: Json)
    requires
        !(json_text(json_get(item, "description"@)) matches Some(d) && trim_spec(d).len() >= MIN_DESCRIPTION_LEN),
    ensures
        track_list(items.push(item)) == track_list(items),
{
    assert(items.push(item).drop_last() == items);
    assert(items.push(item).last() == item);
}

/// Each hit has, among `items`, a track with the hit's URL whose description
/// is a string of at least `MIN_DESCRIPTION_LEN` characters once trimmed.
pub open spec fn hits_have_lyrics_descriptions(items: Seq<Json>, hits: Seq<SearchHit>) -> bool {
    forall|i: int| #![trigger hits[i]] 0 <= i < hits.len() ==> exists|j: int| 0 <= j < items.len()
        && json_text(json_get(#[trigger] items[j], "permalink_url"@)) == Some(hits[i].url@)
        && (json_text(json_get(items[j], "description"@)) matches Some(d)
            && trim_spec(d).len() >= MIN_DESCRIPTION_LEN)
}

/// Every hit of a SoundCloud search comes from a track of the answer whose
/// description is lyrics-long.
pub proof fn lemma_hits_have_lyrics_descriptions(items: Seq<Json>, n: int, hits: Seq<SearchHit>)
    requires
        0 <= n <= items.len(),
        hits_for_tracks(hits, track_list(items.take(n))),
    ensures
        hits_have_lyrics_descriptions(items, hits),
{
    let seen = items.take(n);
    let t = track_list(seen);
    lemma_tracks_have_lyrics_descriptions(seen);
    assert forall|i: int| #![trigger hits[i]] 0 <= i < hits.len() implies exists|j: int| 0 <= j < items.len()
        && json_text(json_get(#[trigger] items[j], "permalink_url"@)) == Some(hits[i].url@)
        && (json_text(json_get(items[j], "description"@)) matches Some(d)
            && trim_spec(d).len() >= MIN_DESCRIPTION_LEN) by {
        assert(is_hit(hits[i], SITE, t[i].0, t[i].1, t[i].2));
        let j = choose|j: int| 0 <= j < seen.len()
            && json_text(json_get(#[trigger] seen[j], "permalink_url"@)) == Some(t[i].0)
            && json_text(json_get(seen[j], "title"@)) == Some(t[i].1)
            && json_text(json_get_opt(json_get(seen[j], "user"@), "username"@)) == Some(t[i].2)
            && (json_text(json_get(seen[j], "description"@)) matches Some(d)
                && trim_spec(d).len() >= MIN_DESCRIPTION_LEN);
        assert(seen[j] == items[j]);
    }
}

} // verus!
