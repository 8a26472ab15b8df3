//! The tool arguments and the text answer of the lyrics tools.
use vstd::prelude::*;
use crate::model::{site_label, SearchHit};
use crate::text::{join_lines, views};

verus! {

/// The arguments of `search_lyrics`.
pub struct SearchLyricsArgs {
    pub artist: String,
    pub title: String,
}

/// The arguments of `get_lyrics`.
pub struct GetLyricsArgs {
    pub id: String,
}

/// The width to which the source's label is padded in a search answer line.
pub const LABEL_WIDTH: usize = 13;

/// `s` padded with spaces on the right to `width` characters, as
/// `format!("{:<width$}", s)` writes it; a longer text is kept whole.
pub open spec fn pad_right(s: Seq<char>, width: nat) -> Seq<char> {
    if s.len() < width {
        s + Seq::new((width - s.len()) as nat, |i: int| ' ')
    } else {
        s
    }
}

/// One line of the search answer: `id | site | artist - title | url`, with
/// the site's label padded to 13 columns.
pub open spec fn hit_line(h: SearchHit) -> Seq<char> {
    h.id@ + " | "@ + pad_right(site_label(h.site), LABEL_WIDTH as nat) + " | "@ + h.artist@ + " - "@ + h.title@ + " | "@
        + h.url@
}

/// `s` padded with spaces on the right to `width` characters.
pub fn padded(s: &str, width: usize) -> (r: String)
    ensures
        r@ == pad_right(s@, width as nat),
{
    let mut out = s.to_owned();
    let n = s.unicode_len();
    let mut k = n;
    while k < width
        invariant
            n == s@.len(),
            n <= k,
            k <= width || k == n,
            out@ == s@ + Seq::new((k - n) as nat, |i: int| ' '),
        decreases width - k,
    {
        let ghost before = out@;
        out.push(' ');
        assert(s@ + Seq::new((k + 1 - n) as nat, |i: int| ' ') == before.push(' '));
        k += 1;
    }
    assert(n >= width ==> out@ == s@ + Seq::new(0, |i: int| ' '));
    assert(s@ + Seq::new(0, |i: int| ' ') == s@);
    out
}

/// The search answer: one line per hit, or `no hits`.
pub open spec fn summary_spec(hits: Seq<SearchHit>) -> Seq<char> {
    if hits.len() == 0 {
        "no hits"@
    } else {
        join_lines(hits.map_values(|h: SearchHit| hit_line(h)))
    }
}

/// The line of one hit.
pub fn hit_line_of(h: &SearchHit) -> (r: String)
    ensures
        r@ == hit_line(*h),
{
    let mut s = h.id.clone();
    s.append(" | ");
    let label = padded(h.site.label(), LABEL_WIDTH);
    s.append(label.as_str());
    s.append(" | ");
    s.append(h.artist.as_str());
    s.append(" - ");
    s.append(h.title.as_str());
    s.append(" | ");
    s.append(h.url.as_str());
    s
}

/// The text answer of a search.
pub fn hits_summary(hits: &Vec<SearchHit>) -> (r: String)
    ensures
        r@ == summary_spec(hits@),
{
    if hits.len() == 0 {
        return "no hits".to_owned();
    }
    let mut lines: Vec<String> = Vec::new();
    let mut i: usize = 0;
    while i < hits.len()
        invariant
            i <= hits.len(),
            views(lines@) == hits@.take(i as int).map_values(|h: SearchHit| hit_line(h)),
        decreases hits.len() - i,
    {
        let ghost before = lines@;
        lines.push(hit_line_of(&hits[i]));
        assert(hits@.take(i + 1).map_values(|h: SearchHit| hit_line(h))
            == hits@.take(i as int).map_values(|h: SearchHit| hit_line(h)).push(hit_line(hits@[i as int])));
        assert(views(lines@) == views(before).push(hit_line(hits@[i as int])));
        i += 1;
    }
    assert(hits@.take(hits.len() as int) == hits@);
    crate::text::join_with_newlines(&lines)
}

} // verus!
