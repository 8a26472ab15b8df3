//! Gathering the hits of all sources into one ranked list, and choosing how
//! a hit is fetched.
use vstd::prelude::*;
use crate::error::SiteError;
use crate::model::{site_label, site_reliability, Reliability, SearchHit, Site};
use crate::sites::spec::{find_spec, lemma_table_covers_sites, spec_for_site, SiteSpec};

verus! {

/// The hits of the searches that succeeded, in the order of the searches.
pub open spec fn found_hits(results: Seq<Result<Vec<SearchHit>, SiteError>>) -> Seq<SearchHit>
    decreases results.len(),
{
    if results.len() == 0 {
        Seq::empty()
    } else {
        found_hits(results.drop_last()) + match results.last() {
            Ok(v) => v@,
            Err(_) => Seq::<SearchHit>::empty(),
        }
    }
}

/// The hits of reliability `level`, in their order.
pub open spec fn with_reliability(hits: Seq<SearchHit>, level: Reliability) -> Seq<SearchHit>
    decreases hits.len(),
{
    if hits.len() == 0 {
        Seq::empty()
    } else if site_reliability(hits.last().site) == level {
        with_reliability(hits.drop_last(), level).push(hits.last())
    } else {
        with_reliability(hits.drop_last(), level)
    }
}

/// The hits most reliable first, keeping their order within a level (a
/// stable sort by descending reliability).
pub open spec fn ranked(hits: Seq<SearchHit>) -> Seq<SearchHit> {
    with_reliability(hits, Reliability::High) + with_reliability(hits, Reliability::Medium)
        + with_reliability(hits, Reliability::Low)
}

/// At most the first `max` elements of `s`.
pub open spec fn capped<T>(s: Seq<T>, max: usize) -> Seq<T> {
    if max < s.len() {
        s.take(max as int)
    } else {
        s
    }
}

/// The ranked hits of all searches, at most `max_hits` of them.
pub open spec fn merged(
    scraped: Seq<Result<Vec<SearchHit>, SiteError>>,
    cloud: Result<Vec<SearchHit>, SiteError>,
    max_hits: usize,
) -> Seq<SearchHit> {
    capped(ranked(found_hits(scraped.push(cloud))), max_hits)
}

/// The order of reliability levels: higher is more reliable.
pub open spec fn rank(level: Reliability) -> int {
    match level {
        Reliability::High => 2,
        Reliability::Medium => 1,
        Reliability::Low => 0,
    }
}

/// The hits a single search contributes: all of them when it succeeded,
/// none when it failed.
pub open spec fn hits_of(result: Result<Vec<SearchHit>, SiteError>) -> Seq<SearchHit> {
    match result {
        Ok(v) => v@,
        Err(_) => Seq::empty(),
    }
}

/// The hits of all searches, most reliable first and at most `max_hits`;
/// failed searches contribute nothing.
pub fn merge_hits(
    scraped: Vec<Result<Vec<SearchHit>, SiteError>>,
    cloud: Result<Vec<SearchHit>, SiteError>,
    max_hits: usize,
) -> (r: Vec<SearchHit>)
    ensures
        r@ == merged(scraped@, cloud, max_hits),
        found_hits(scraped@.push(cloud)) == found_hits(scraped@) + hits_of(cloud),
        found_hits(scraped@.push(cloud)).len() <= max_hits
            ==> r@.to_multiset() == found_hits(scraped@.push(cloud)).to_multiset(),
{
    proof {
        lemma_found_hits_concat(scraped@, seq![cloud]);
        lemma_found_hits_single(cloud);
        assert(scraped@ + seq![cloud] == scraped@.push(cloud));
        if found_hits(scraped@.push(cloud)).len() <= max_hits {
            lemma_merged_keeps_every_hit(scraped@, cloud, max_hits);
        }
    }
    let ghost results = scraped@.push(cloud);
    let mut scraped = scraped;
    scraped.push(cloud);
    let mut all: Vec<SearchHit> = Vec::new();
    let mut k: usize = 0;
    let ghost total = scraped@;
    assert(total == results);
    assert(total.len() == scraped.len());
    while scraped.len() > 0
        invariant
            results == total,
            k <= total.len(),
            scraped@ == total.skip(k as int),
            scraped.len() + k == total.len(),
            total.len() <= usize::MAX,
            all@ == found_hits(total.take(k as int)),
        decreases scraped.len(),
    {
        assert(k < total.len());
        assert(total.take(k + 1).drop_last() == total.take(k as int));
        assert(total.skip(k as int)[0] == total[k as int]);
        let result = scraped.remove(0);
        assert(scraped@ == total.skip(k + 1));
        match result {
            Ok(mut found) => all.append(&mut found),
            Err(_) => {},
        }
        k += 1;
    }
    assert(total.take(total.len() as int) == total);
    let ghost hits = all@;
    assert(hits.len() == all.len());
    let mut high: Vec<SearchHit> = Vec::new();
    let mut medium: Vec<SearchHit> = Vec::new();
    let mut low: Vec<SearchHit> = Vec::new();
    let mut i: usize = 0;
    while all.len() > 0
        invariant
            i <= hits.len(),
            all@ == hits.skip(i as int),
            all.len() + i == hits.len(),
            hits.len() <= usize::MAX,
            high@ == with_reliability(hits.take(i as int), Reliability::High),
            medium@ == with_reliability(hits.take(i as int), Reliability::Medium),
            low@ == with_reliability(hits.take(i as int), Reliability::Low),
        decreases all.len(),
    {
        assert(i < hits.len());
        assert(hits.take(i + 1).drop_last() == hits.take(i as int));
        assert(hits.skip(i as int)[0] == hits[i as int]);
        let hit = all.remove(0);
        assert(all@ == hits.skip(i + 1));
        match hit.site.reliability() {
            Reliability::High => high.push(hit),
            Reliability::Medium => medium.push(hit),
            Reliability::Low => low.push(hit),
        }
        i += 1;
    }
    assert(hits.take(hits.len() as int) == hits);
    high.append(&mut medium);
    high.append(&mut low);
    if max_hits < high.len() {
        high.truncate(max_hits);
    }
    high
}

/// How a hit's lyrics are fetched.
#[derive(Debug, Clone, Copy)]
pub enum FetchRoute {
    /// Through SoundCloud's API.
    SoundCloud,
    /// By scraping the page with this spec.
    Scrape(SiteSpec),
}

/// How to fetch `hit`: SoundCloud hits through its API, others with their
/// source's scrape spec; a source without a spec is unsupported.
pub fn route_fetch(hit: &SearchHit) -> (r: Result<FetchRoute, SiteError>)
    ensures
        hit.site == Site::SoundCloud ==> r matches Ok(FetchRoute::SoundCloud),
        hit.site != Site::SoundCloud ==> match spec_for_site(hit.site) {
            Some(s) => (r matches Ok(FetchRoute::Scrape(x)) && x == s),
            None => (r matches Err(SiteError::Unsupported { site }) && site@ == site_label(hit.site)),
        },
{
    if hit.site == Site::SoundCloud {
        return Ok(FetchRoute::SoundCloud);
    }
    match find_spec(hit.site) {
        Some(spec) => Ok(FetchRoute::Scrape(spec)),
        None => Err(SiteError::Unsupported { site: hit.site.label() }),
    }
}

/// Every hit can be routed: no source is unsupported.
pub proof fn lemma_every_site_routable(site: Site)
    ensures
        site != Site::SoundCloud ==> spec_for_site(site) is Some,
{
    lemma_table_covers_sites(site);
}

/// Filtering by level keeps order and only hits of that level.
pub proof fn lemma_with_reliability(hits: Seq<SearchHit>, level: Reliability)
    ensures
        with_reliability(hits, level).len() <= hits.len(),
        forall|i: int| 0 <= i < with_reliability(hits, level).len()
            ==> site_reliability(#[trigger] with_reliability(hits, level)[i].site) == level
                && hits.contains(with_reliability(hits, level)[i]),
    decreases hits.len(),
{
    if hits.len() > 0 {
        lemma_with_reliability(hits.drop_last(), level);
        let w0 = with_reliability(hits.drop_last(), level);
        let w = with_reliability(hits, level);
        assert forall|i: int| 0 <= i < w.len() implies site_reliability(#[trigger] w[i].site) == level
            && hits.contains(w[i]) by {
            if i < w0.len() {
                assert(w[i] == w0[i]);
                let j = choose|j: int| 0 <= j < hits.drop_last().len() && hits.drop_last()[j] == w0[i];
                assert(hits[j] == w0[i]);
            } else {
                assert(w[i] == hits.last());
                assert(hits[hits.len() - 1] == hits.last());
            }
        }
    }
}

/// Every hit lands in exactly one level.
pub proof fn lemma_levels_partition(hits: Seq<SearchHit>)
    ensures
        with_reliability(hits, Reliability::High).len() + with_reliability(hits, Reliability::Medium).len()
            + with_reliability(hits, Reliability::Low).len() == hits.len(),
    decreases hits.len(),
{
    if hits.len() > 0 {
        lemma_levels_partition(hits.drop_last());
    }
}

/// The merged list is most reliable first, holds only hits of successful
/// searches, never more than `max_hits`, and loses no hit below the cap.
pub proof fn lemma_merged_ranked(
    scraped: Seq<Result<Vec<SearchHit>, SiteError>>,
    cloud: Result<Vec<SearchHit>, SiteError>,
    max_hits: usize,
)
    ensures
        ({
            let all = found_hits(scraped.push(cloud));
            let m = merged(scraped, cloud, max_hits);
            &&& m.len() == if max_hits < all.len() { max_hits as int } else { all.len() as int }
            &&& forall|i: int, j: int| 0 <= i < j < m.len()
                ==> rank(site_reliability(#[trigger] m[i].site)) >= rank(site_reliability(#[trigger] m[j].site))
            &&& forall|i: int| 0 <= i < m.len() ==> all.contains(#[trigger] m[i])
        }),
{
    let all = found_hits(scraped.push(cloud));
    let h = with_reliability(all, Reliability::High);
    let md = with_reliability(all, Reliability::Medium);
    let l = with_reliability(all, Reliability::Low);
    lemma_with_reliability(all, Reliability::High);
    lemma_with_reliability(all, Reliability::Medium);
    lemma_with_reliability(all, Reliability::Low);
    lemma_levels_partition(all);
    let rk = ranked(all);
    let m = merged(scraped, cloud, max_hits);
    assert forall|i: int| 0 <= i < rk.len() implies
        (i < h.len() ==> rk[i] == h[i])
        && (h.len() <= i < h.len() + md.len() ==> rk[i] == md[i - h.len()])
        && (h.len() + md.len() <= i ==> rk[i] == l[i - h.len() - md.len()]) by {}
    assert forall|i: int| 0 <= i < m.len() implies rk[i] == #[trigger] m[i] by {}
    assert forall|i: int, j: int| 0 <= i < j < m.len()
        implies rank(site_reliability(#[trigger] m[i].site)) >= rank(site_reliability(#[trigger] m[j].site)) by {
        assert(rk[i] == m[i] && rk[j] == m[j]);
        if i < h.len() {
            assert(site_reliability(h[i].site) == Reliability::High);
        } else if i < h.len() + md.len() {
            assert(site_reliability(md[i - h.len()].site) == Reliability::Medium);
            assert(j >= h.len());
        } else {
            assert(site_reliability(l[i - h.len() - md.len()].site) == Reliability::Low);
            assert(site_reliability(l[j - h.len() - md.len()].site) == Reliability::Low);
        }
        if j < h.len() {
            assert(site_reliability(h[j].site) == Reliability::High);
        } else if j < h.len() + md.len() {
            assert(site_reliability(md[j - h.len()].site) == Reliability::Medium);
        } else {
            assert(site_reliability(l[j - h.len() - md.len()].site) == Reliability::Low);
        }
    }
    assert forall|i: int| 0 <= i < m.len() implies all.contains(#[trigger] m[i]) by {
        assert(rk[i] == m[i]);
        if i < h.len() {
            assert(site_reliability(h[i].site) == Reliability::High);
        } else if i < h.len() + md.len() {
            assert(site_reliability(md[i - h.len()].site) == Reliability::Medium);
        } else {
            assert(site_reliability(l[i - h.len() - md.len()].site) == Reliability::Low);
        }
    }
}

/// Gathering is compositional: the hits of two runs of searches are the hits
/// of the first run followed by those of the second, whatever either holds.
pub proof fn lemma_found_hits_concat(
    a: Seq<Result<Vec<SearchHit>, SiteError>>,
    b: Seq<Result<Vec<SearchHit>, SiteError>>,
)
    ensures
        found_hits(a + b) == found_hits(a) + found_hits(b),
    decreases b.len(),
{
    if b.len() == 0 {
        assert(a + b == a);
    } else {
        lemma_found_hits_concat(a, b.drop_last());
        assert((a + b).drop_last() == a + b.drop_last());
        assert((a + b).last() == b.last());
    }
}

/// One search alone gives exactly its own hits: all of them when it
/// succeeded, even if it found nothing, and none when it failed.
pub proof fn lemma_found_hits_single(result: Result<Vec<SearchHit>, SiteError>)
    ensures
        found_hits(seq![result]) == hits_of(result),
{
    let one = seq![result];
    assert(one.drop_last() == Seq::<Result<Vec<SearchHit>, SiteError>>::empty());
    assert(found_hits(one.drop_last()) == Seq::<SearchHit>::empty());
    assert(one.last() == result);
    assert(found_hits(one) == Seq::<SearchHit>::empty() + hits_of(result));
}

/// Every hit of every successful search is among the gathered hits.
pub proof fn lemma_found_hits_has_each(results: Seq<Result<Vec<SearchHit>, SiteError>>, i: int, j: int)
    requires
        0 <= i < results.len(),
        results[i] is Ok,
        0 <= j < results[i]->Ok_0@.len(),
    ensures
        found_hits(results).contains(results[i]->Ok_0@[j]),
{
    let before = results.take(i);
    let after = results.skip(i + 1);
    assert(results == before + seq![results[i]] + after);
    lemma_found_hits_concat(before + seq![results[i]], after);
    lemma_found_hits_concat(before, seq![results[i]]);
    lemma_found_hits_single(results[i]);
    let v = results[i]->Ok_0@;
    let all = found_hits(before) + v + found_hits(after);
    assert(all[found_hits(before).len() + j] == v[j]);
}

/// The three reliability levels together hold each hit exactly as often as
/// the list does.
pub proof fn lemma_levels_same_hits(hits: Seq<SearchHit>)
    ensures
        ranked(hits).to_multiset() == hits.to_multiset(),
    decreases hits.len(),
{
    broadcast use vstd::seq_lib::group_to_multiset_ensures, vstd::seq_lib::lemma_multiset_commutative;
    broadcast use vstd::multiset::group_multiset_axioms;

    let h = with_reliability(hits, Reliability::High);
    let md = with_reliability(hits, Reliability::Medium);
    let l = with_reliability(hits, Reliability::Low);
    if hits.len() == 0 {
        assert(ranked(hits) == Seq::<SearchHit>::empty());
        assert(ranked(hits).to_multiset() =~= hits.to_multiset());
    } else {
        let rest = hits.drop_last();
        let x = hits.last();
        lemma_levels_same_hits(rest);
        assert(hits == rest.push(x));
        let h0 = with_reliability(rest, Reliability::High);
        let m0 = with_reliability(rest, Reliability::Medium);
        let l0 = with_reliability(rest, Reliability::Low);
        assert(ranked(rest).to_multiset() =~= h0.to_multiset().add(m0.to_multiset()).add(l0.to_multiset()));
        assert(ranked(hits).to_multiset() =~= h.to_multiset().add(md.to_multiset()).add(l.to_multiset()));
        assert(ranked(hits).to_multiset() =~= ranked(rest).to_multiset().insert(x));
    }
}

/// Below the cap nothing is lost: the merged hits hold, each as often, exactly
/// the hits of the successful searches.
pub proof fn lemma_merged_keeps_every_hit(
    scraped: Seq<Result<Vec<SearchHit>, SiteError>>,
    cloud: Result<Vec<SearchHit>, SiteError>,
    max_hits: usize,
)
    requires
        found_hits(scraped.push(cloud)).len() <= max_hits,
    ensures
        merged(scraped, cloud, max_hits).to_multiset() == found_hits(scraped.push(cloud)).to_multiset(),
{
    let all = found_hits(scraped.push(cloud));
    lemma_levels_same_hits(all);
    lemma_levels_partition(all);
}

} // verus!
