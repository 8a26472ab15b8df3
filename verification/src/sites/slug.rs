//! Turning artist and song names into the path segments that lyrics sites use.
use vstd::prelude::*;
use crate::text::{
    chars_of, contains_chars, contains_seq, is_ascii_alnum, is_ascii_alphanumeric, is_ascii_upper, all_ascii, ascii_lower,
    lowercase_of, string_from, to_lowercase, trim_bounds,
    trim_spec, trim_start_spec,
};

verus! {

/// Apostrophes that vanish from a slug instead of becoming a separator.
pub open spec fn is_elided(c: char) -> bool {
    c == '\'' || c == '\u{2019}' || c == '\u{2bc}'
}

/// Scans `s` left to right: letters and digits are kept, elided apostrophes
/// vanish, and every other run of characters becomes one `-` (none at the
/// start). Also reports whether the text so far ends at a separator.
pub open spec fn hyphen_scan(s: Seq<char>) -> (Seq<char>, bool)
    decreases s.len(),
{
    if s.len() == 0 {
        (Seq::empty(), true)
    } else {
        let (out, sep) = hyphen_scan(s.drop_last());
        let c = s.last();
        if is_elided(c) {
            (out, sep)
        } else if is_ascii_alnum(c) {
            (out.push(c), false)
        } else if !sep {
            (out.push('-'), true)
        } else {
            (out, sep)
        }
    }
}

/// `s` without its trailing hyphens.
pub open spec fn drop_trailing_hyphens(s: Seq<char>) -> Seq<char>
    decreases s.len(),
{
    if s.len() > 0 && s.last() == '-' {
        drop_trailing_hyphens(s.drop_last())
    } else {
        s
    }
}

/// The hyphenated slug of text that is already lowercase.
pub open spec fn hyphenate_spec(lowered: Seq<char>) -> Seq<char> {
    drop_trailing_hyphens(hyphen_scan(lowered).0)
}

/// The hyphenated slug of `input`: `"Guns N' Roses"` gives `"guns-n-roses"`.
pub open spec fn hyphenated_spec(input: Seq<char>) -> Seq<char> {
    hyphenate_spec(lowercase_of(input))
}

/// The ASCII letters and digits of `s`, in order.
pub open spec fn keep_alnum(s: Seq<char>) -> Seq<char>
    decreases s.len(),
{
    if s.len() == 0 {
        s
    } else if is_ascii_alnum(s.last()) {
        keep_alnum(s.drop_last()).push(s.last())
    } else {
        keep_alnum(s.drop_last())
    }
}

/// The compact slug of `input`: its lowercase letters and digits only.
pub open spec fn compact_spec(input: Seq<char>) -> Seq<char> {
    keep_alnum(lowercase_of(input))
}

/// Whether a page title names the expected song: the expected title's slug is
/// non-empty and occurs in the page title's slug.
pub open spec fn title_matches_spec(page_title: Seq<char>, expected_title: Seq<char>) -> bool {
    let e = hyphenated_spec(expected_title);
    e.len() > 0 && contains_seq(hyphenated_spec(page_title), e)
}

/// The ASCII letter that a Turkish letter folds to; every other character
/// stays as it is.
pub open spec fn fold_turkish_char(c: char) -> char {
    if c == '\u{e7}' || c == '\u{c7}' {
        'c'
    } else if c == '\u{11f}' || c == '\u{11e}' {
        'g'
    } else if c == '\u{131}' || c == '\u{130}' {
        'i'
    } else if c == '\u{f6}' || c == '\u{d6}' {
        'o'
    } else if c == '\u{15f}' || c == '\u{15e}' {
        's'
    } else if c == '\u{fc}' || c == '\u{dc}' {
        'u'
    } else {
        c
    }
}

/// `input` with each Turkish letter folded to ASCII.
pub open spec fn fold_turkish_spec(input: Seq<char>) -> Seq<char> {
    input.map_values(|c: char| fold_turkish_char(c))
}

/// Whether `s` begins with `"the "`.
pub open spec fn starts_with_the(s: Seq<char>) -> bool {
    s.len() >= 4 && s[0] == 't' && s[1] == 'h' && s[2] == 'e' && s[3] == ' '
}

/// Whether the first four characters of `s` are ASCII, so that they take
/// exactly four bytes.
pub open spec fn first_four_ascii(s: Seq<char>) -> bool {
    s.len() >= 4 && s[0] <= '\u{7f}' && s[1] <= '\u{7f}' && s[2] <= '\u{7f}' && s[3] <= '\u{7f}'
}

/// `input` trimmed, and without a leading `"the "` (in any case) and the white
/// space after it.
pub open spec fn strip_leading_the_spec(input: Seq<char>) -> Seq<char> {
    let t = trim_spec(input);
    if starts_with_the(lowercase_of(t)) && first_four_ascii(t) {
        trim_start_spec(t.skip(4))
    } else {
        t
    }
}

/// Whether `s` has the shape of a hyphenated slug: only ASCII letters, digits
/// and hyphens, no hyphen at either end and no two hyphens in a row.
pub open spec fn is_hyphen_slug(s: Seq<char>) -> bool {
    &&& forall|i: int| 0 <= i < s.len() ==> is_ascii_alnum(#[trigger] s[i]) || s[i] == '-'
    &&& s.len() > 0 ==> s[0] != '-' && s.last() != '-'
    &&& forall|i: int| 0 <= i < s.len() - 1 ==> !(#[trigger] s[i] == '-' && s[i + 1] == '-')
}

/// A character of a lowercase slug: a small ASCII letter, a digit or a hyphen.
pub open spec fn is_lower_slug_char(c: char) -> bool {
    ('a' <= c && c <= 'z') || ('0' <= c && c <= '9') || c == '-'
}

/// `s` without its hyphens, as `str::replace('-', "")` gives it.
pub open spec fn drop_hyphens(s: Seq<char>) -> Seq<char>
    decreases s.len(),
{
    if s.len() == 0 {
        s
    } else if s.last() == '-' {
        drop_hyphens(s.drop_last())
    } else {
        drop_hyphens(s.drop_last()).push(s.last())
    }
}

/// The hyphenated slug of text that is already lowercase.
pub fn hyphenate_lowered(lowered: &str) -> (r: String)
    ensures
        r@ == hyphenate_spec(lowered@),
{
    let cs = chars_of(lowered);
    let mut out: Vec<char> = Vec::new();
    let mut last_was_sep = true;
    let mut i: usize = 0;
    while i < cs.len()
        invariant
            i <= cs.len(),
            (out@, last_was_sep) == hyphen_scan(cs@.take(i as int)),
        decreases cs.len() - i,
    {
        let ch = cs[i];
        assert(cs@.take(i + 1).drop_last() == cs@.take(i as int));
        if ch == '\'' || ch == '\u{2019}' || ch == '\u{2bc}' {
        } else if is_ascii_alphanumeric(ch) {
            out.push(ch);
            last_was_sep = false;
        } else if !last_was_sep {
            out.push('-');
            last_was_sep = true;
        }
        i += 1;
    }
    assert(cs@.take(cs.len() as int) == cs@);
    let ghost scanned = out@;
    while out.len() > 0 && out[out.len() - 1] == '-'
        invariant
            drop_trailing_hyphens(out@) == drop_trailing_hyphens(scanned),
        decreases out.len(),
    {
        out.pop();
    }
    string_from(&out, 0, out.len())
}

/// The hyphenated slug of `input`.
pub fn hyphenated(input: &str) -> (r: String)
    ensures
        r@ == hyphenated_spec(input@),
        is_hyphen_slug(r@),
        forall|i: int| 0 <= i < r@.len() ==> is_lower_slug_char(#[trigger] r@[i]),
        hyphenate_spec(r@) == r@,
        all_ascii(input@) ==> r@ == hyphenate_spec(input@.map_values(|c: char| ascii_lower(c))),
{
    let lowered = to_lowercase(input);
    let r = hyphenate_lowered(lowered.as_str());
    proof {
        lemma_hyphenate_shape(lowered@);
        lemma_hyphenate_no_upper(lowered@);
        lemma_slug_is_fixed(r@);
        assert forall|i: int| 0 <= i < r@.len() implies is_lower_slug_char(#[trigger] r@[i]) by {
            assert(is_ascii_alnum(r@[i]) || r@[i] == '-');
            assert(!is_ascii_upper(r@[i]));
        }
    }
    r
}

/// The compact slug of text that is already lowercase.
pub fn compact_lowered(lowered: &str) -> (r: String)
    ensures
        r@ == keep_alnum(lowered@),
{
    let cs = chars_of(lowered);
    let mut out = String::new();
    let mut i: usize = 0;
    while i < cs.len()
        invariant
            i <= cs.len(),
            out@ == keep_alnum(cs@.take(i as int)),
        decreases cs.len() - i,
    {
        assert(cs@.take(i + 1).drop_last() == cs@.take(i as int));
        if is_ascii_alphanumeric(cs[i]) {
            out.push(cs[i]);
        }
        i += 1;
    }
    assert(cs@.take(cs.len() as int) == cs@);
    out
}

/// The compact slug of `input`: lowercase, letters and digits only.
pub fn compact(input: &str) -> (r: String)
    ensures
        r@ == compact_spec(input@),
        forall|i: int| 0 <= i < r@.len() ==> is_ascii_alnum(#[trigger] r@[i]) && !is_ascii_upper(r@[i]),
{
    let lowered = to_lowercase(input);
    let r = compact_lowered(lowered.as_str());
    proof {
        lemma_keep_alnum(lowered@);
        lemma_keep_alnum_no_upper(lowered@);
    }
    r
}

/// Whether the page title names the expected song (slug containment).
pub fn title_matches(page_title: &str, expected_title: &str) -> (b: bool)
    ensures
        b == title_matches_spec(page_title@, expected_title@),
{
    let expected_slug = hyphenated(expected_title);
    if expected_slug.as_str().is_empty() {
        return false;
    }
    let page_slug = hyphenated(page_title);
    let hay = chars_of(page_slug.as_str());
    let needle = chars_of(expected_slug.as_str());
    contains_chars(&hay, &needle)
}

/// `input` with Turkish letters folded to ASCII (`ş` to `s`, `İ` to `i`, ...).
pub fn fold_turkish(input: &str) -> (r: String)
    ensures
        r@ == fold_turkish_spec(input@),
{
    let cs = chars_of(input);
    let mut out = String::new();
    let mut i: usize = 0;
    while i < cs.len()
        invariant
            i <= cs.len(),
            out@ == fold_turkish_spec(cs@.take(i as int)),
        decreases cs.len() - i,
    {
        let c = cs[i];
        let folded = if c == '\u{e7}' || c == '\u{c7}' {
            'c'
        } else if c == '\u{11f}' || c == '\u{11e}' {
            'g'
        } else if c == '\u{131}' || c == '\u{130}' {
            'i'
        } else if c == '\u{f6}' || c == '\u{d6}' {
            'o'
        } else if c == '\u{15f}' || c == '\u{15e}' {
            's'
        } else if c == '\u{fc}' || c == '\u{dc}' {
            'u'
        } else {
            c
        };
        out.push(folded);
        assert(fold_turkish_spec(cs@.take(i + 1)) == fold_turkish_spec(cs@.take(i as int)).push(folded));
        i += 1;
    }
    assert(cs@.take(cs.len() as int) == cs@);
    out
}

/// `input` trimmed and without a leading "the " (any case).
pub fn strip_leading_the(input: &str) -> (r: &str)
    ensures
        r@ == strip_leading_the_spec(input@),
{
    let cs = chars_of(input);
    let (a, b) = trim_bounds(&cs, 0, cs.len());
    assert(cs@.subrange(0, cs@.len() as int) == cs@);
    let trimmed = input.substring_char(a, b);
    let lowered = to_lowercase(trimmed);
    let lc = chars_of(lowered.as_str());
    let ghost t = cs@.subrange(a as int, b as int);
    if lc.len() >= 4 && lc[0] == 't' && lc[1] == 'h' && lc[2] == 'e' && lc[3] == ' ' && b - a >= 4
        && cs[a] <= '\u{7f}' && cs[a + 1] <= '\u{7f}' && cs[a + 2] <= '\u{7f}' && cs[a + 3] <= '\u{7f}' {
        let (c, _) = trim_bounds(&cs, a + 4, b);
        assert(cs@.subrange(a + 4, b as int) == t.skip(4));
        return input.substring_char(c, b);
    }
    trimmed
}

/// The scan keeps only letters, digits and single hyphens, never starts with
/// a hyphen, and is at a separator exactly when it is empty or ends in one.
proof fn lemma_hyphen_scan_shape(s: Seq<char>)
    ensures
        ({
            let (out, sep) = hyphen_scan(s);
            &&& forall|i: int| 0 <= i < out.len() ==> is_ascii_alnum(#[trigger] out[i]) || out[i] == '-'
            &&& out.len() > 0 ==> out[0] != '-'
            &&& forall|i: int| 0 <= i < out.len() - 1 ==> !(#[trigger] out[i] == '-' && out[i + 1] == '-')
            &&& sep == (out.len() == 0 || out.last() == '-')
        }),
    decreases s.len(),
{
    if s.len() > 0 {
        lemma_hyphen_scan_shape(s.drop_last());
        let (out0, sep0) = hyphen_scan(s.drop_last());
        let (out, sep) = hyphen_scan(s);
        assert forall|i: int| 0 <= i < out.len() - 1 implies !(#[trigger] out[i] == '-' && out[i + 1] == '-') by {
            if i < out0.len() - 1 {
                assert(out[i] == out0[i] && out[i + 1] == out0[i + 1]);
            }
        }
        assert forall|i: int| 0 <= i < out.len() implies is_ascii_alnum(#[trigger] out[i]) || out[i] == '-' by {
            if i < out0.len() {
                assert(out[i] == out0[i]);
            }
        }
    }
}

/// Dropping trailing hyphens keeps a prefix.
proof fn lemma_drop_trailing_hyphens(s: Seq<char>)
    ensures
        drop_trailing_hyphens(s).len() <= s.len(),
        drop_trailing_hyphens(s) == s.take(drop_trailing_hyphens(s).len() as int),
        drop_trailing_hyphens(s).len() > 0 ==> drop_trailing_hyphens(s).last() != '-',
    decreases s.len(),
{
    if s.len() > 0 && s.last() == '-' {
        lemma_drop_trailing_hyphens(s.drop_last());
        let d = drop_trailing_hyphens(s.drop_last());
        assert(s.drop_last().take(d.len() as int) == s.take(d.len() as int));
    } else {
        assert(s.take(s.len() as int) == s);
    }
}

/// A hyphenated slug has slug shape, whatever the lowercase text was.
pub proof fn lemma_hyphenate_shape(lowered: Seq<char>)
    ensures
        is_hyphen_slug(hyphenate_spec(lowered)),
{
    lemma_hyphen_scan_shape(lowered);
    let out = hyphen_scan(lowered).0;
    lemma_drop_trailing_hyphens(out);
    let d = hyphenate_spec(lowered);
    assert forall|i: int| 0 <= i < d.len() implies is_ascii_alnum(#[trigger] d[i]) || d[i] == '-' by {
        assert(d[i] == out[i]);
    }
    assert forall|i: int| 0 <= i < d.len() - 1 implies !(#[trigger] d[i] == '-' && d[i + 1] == '-') by {
        assert(d[i] == out[i] && d[i + 1] == out[i + 1]);
    }
    if d.len() > 0 {
        assert(d[0] == out[0]);
    }
}

/// Text without ASCII capitals gives a scan without them.
proof fn lemma_hyphen_scan_no_upper(s: Seq<char>)
    requires
        forall|i: int| 0 <= i < s.len() ==> !is_ascii_upper(#[trigger] s[i]),
    ensures
        forall|i: int| 0 <= i < hyphen_scan(s).0.len() ==> !is_ascii_upper(#[trigger] hyphen_scan(s).0[i]),
    decreases s.len(),
{
    if s.len() > 0 {
        let p = s.drop_last();
        assert forall|i: int| 0 <= i < p.len() implies !is_ascii_upper(#[trigger] p[i]) by {
            assert(p[i] == s[i]);
        }
        lemma_hyphen_scan_no_upper(p);
        let o0 = hyphen_scan(p).0;
        let o = hyphen_scan(s).0;
        assert(!is_ascii_upper(s[s.len() - 1]));
        assert forall|i: int| 0 <= i < o.len() implies !is_ascii_upper(#[trigger] o[i]) by {
            if i < o0.len() {
                assert(o[i] == o0[i]);
            }
        }
    }
}

/// Text without ASCII capitals gives a hyphenated slug without them.
pub proof fn lemma_hyphenate_no_upper(lowered: Seq<char>)
    requires
        forall|i: int| 0 <= i < lowered.len() ==> !is_ascii_upper(#[trigger] lowered[i]),
    ensures
        forall|i: int| 0 <= i < hyphenate_spec(lowered).len() ==> !is_ascii_upper(#[trigger] hyphenate_spec(lowered)[i]),
{
    lemma_hyphen_scan_no_upper(lowered);
    let o = hyphen_scan(lowered).0;
    lemma_drop_trailing_hyphens(o);
    let d = hyphenate_spec(lowered);
    assert forall|i: int| 0 <= i < d.len() implies !is_ascii_upper(#[trigger] d[i]) by {
        assert(d[i] == o[i]);
    }
}

/// Text without ASCII capitals gives a compact slug without them.
pub proof fn lemma_keep_alnum_no_upper(s: Seq<char>)
    requires
        forall|i: int| 0 <= i < s.len() ==> !is_ascii_upper(#[trigger] s[i]),
    ensures
        forall|i: int| 0 <= i < keep_alnum(s).len() ==> !is_ascii_upper(#[trigger] keep_alnum(s)[i]),
    decreases s.len(),
{
    if s.len() > 0 {
        let p = s.drop_last();
        assert forall|i: int| 0 <= i < p.len() implies !is_ascii_upper(#[trigger] p[i]) by {
            assert(p[i] == s[i]);
        }
        lemma_keep_alnum_no_upper(p);
        let k0 = keep_alnum(p);
        let k = keep_alnum(s);
        assert(!is_ascii_upper(s[s.len() - 1]));
        assert forall|i: int| 0 <= i < k.len() implies !is_ascii_upper(#[trigger] k[i]) by {
            if i < k0.len() {
                assert(k[i] == k0[i]);
            }
        }
    }
}

/// Removing the hyphens of the scan leaves the letters and digits of the text.
proof fn lemma_scan_without_hyphens(s: Seq<char>)
    ensures
        drop_hyphens(hyphen_scan(s).0) == keep_alnum(s),
    decreases s.len(),
{
    if s.len() > 0 {
        lemma_scan_without_hyphens(s.drop_last());
        let o0 = hyphen_scan(s.drop_last()).0;
        let c = s.last();
        if !is_elided(c) && is_ascii_alnum(c) {
            assert(o0.push(c).drop_last() == o0);
        } else if !is_elided(c) && !hyphen_scan(s.drop_last()).1 {
            assert(o0.push('-').drop_last() == o0);
        }
    }
}

/// Dropping trailing hyphens does not change the text without hyphens.
proof fn lemma_drop_trailing_keeps_letters(s: Seq<char>)
    ensures
        drop_hyphens(drop_trailing_hyphens(s)) == drop_hyphens(s),
    decreases s.len(),
{
    if s.len() > 0 && s.last() == '-' {
        lemma_drop_trailing_keeps_letters(s.drop_last());
    }
}

/// The two slug flavours keep the same letters and digits in the same order:
/// the hyphenated slug without its hyphens is the compact slug.
pub proof fn lemma_hyphenated_without_hyphens_is_compact(input: Seq<char>)
    ensures
        drop_hyphens(hyphenated_spec(input)) == compact_spec(input),
{
    let l = lowercase_of(input);
    lemma_scan_without_hyphens(l);
    lemma_drop_trailing_keeps_letters(hyphen_scan(l).0);
}

/// Scanning a prefix of a slug-shaped text gives the prefix back.
proof fn lemma_scan_slug_prefix(h: Seq<char>, k: int)
    requires
        is_hyphen_slug(h),
        0 <= k <= h.len(),
    ensures
        hyphen_scan(h.take(k)) == (h.take(k), k == 0 || h[k - 1] == '-'),
    decreases k,
{
    if k > 0 {
        lemma_scan_slug_prefix(h, k - 1);
        assert(h.take(k).drop_last() == h.take(k - 1));
        assert(h.take(k).last() == h[k - 1]);
        let c = h[k - 1];
        assert(is_ascii_alnum(c) || c == '-');
        if c == '-' {
            assert(k - 1 > 0);
            assert(!(h[k - 2] == '-' && h[k - 1] == '-'));
        }
        assert(h.take(k - 1).push(c) == h.take(k));
    }
}

/// A slug-shaped text is its own hyphenated slug.
pub proof fn lemma_slug_is_fixed(h: Seq<char>)
    requires
        is_hyphen_slug(h),
    ensures
        hyphenate_spec(h) == h,
{
    lemma_scan_slug_prefix(h, h.len() as int);
    assert(h.take(h.len() as int) == h);
    if h.len() > 0 {
        assert(h.last() != '-');
    }
}

/// A lowercase slug is ASCII, its ASCII lowercase is itself, and so is its
/// hyphenated slug: together with `hyphenated`'s contract, hyphenating the
/// result of `hyphenated` again gives the same text.
pub proof fn lemma_lower_slug_rescan(h: Seq<char>)
    requires
        is_hyphen_slug(h),
        forall|i: int| 0 <= i < h.len() ==> is_lower_slug_char(#[trigger] h[i]),
    ensures
        all_ascii(h),
        h.map_values(|c: char| ascii_lower(c)) == h,
        hyphenate_spec(h.map_values(|c: char| ascii_lower(c))) == h,
{
    assert forall|i: int| 0 <= i < h.len() implies (#[trigger] h[i]) <= '\u{7f}' by {
        assert(is_lower_slug_char(h[i]));
    }
    assert forall|i: int| 0 <= i < h.len() implies h.map_values(|c: char| ascii_lower(c))[i] == h[i] by {
        assert(is_lower_slug_char(h[i]));
    }
    assert(h.map_values(|c: char| ascii_lower(c)) =~= h);
    lemma_slug_is_fixed(h);
}

/// Hyphenating a hyphenated slug again changes nothing.
pub proof fn lemma_hyphenate_idempotent(lowered: Seq<char>)
    ensures
        hyphenate_spec(hyphenate_spec(lowered)) == hyphenate_spec(lowered),
{
    lemma_hyphenate_shape(lowered);
    lemma_slug_is_fixed(hyphenate_spec(lowered));
}

/// Only ASCII letters and digits survive in a compact slug.
pub proof fn lemma_keep_alnum(s: Seq<char>)
    ensures
        forall|i: int| 0 <= i < keep_alnum(s).len() ==> is_ascii_alnum(#[trigger] keep_alnum(s)[i]),
    decreases s.len(),
{
    if s.len() > 0 {
        lemma_keep_alnum(s.drop_last());
        let k0 = keep_alnum(s.drop_last());
        let k = keep_alnum(s);
        assert forall|i: int| 0 <= i < k.len() implies is_ascii_alnum(#[trigger] k[i]) by {
            if i < k0.len() {
                assert(k[i] == k0[i]);
            }
        }
    }
}

/// A title always matches itself, unless its slug is empty.
pub proof fn lemma_title_matches_itself(title: Seq<char>)
    ensures
        title_matches_spec(title, title) == (hyphenated_spec(title).len() > 0),
{
    let e = hyphenated_spec(title);
    assert(e.subrange(0, 0 + e.len() as int) == e);
}

/// Folding Turkish letters keeps the length, and folding twice is folding once.
pub proof fn lemma_fold_turkish_idempotent(input: Seq<char>)
    ensures
        fold_turkish_spec(input).len() == input.len(),
        fold_turkish_spec(fold_turkish_spec(input)) == fold_turkish_spec(input),
{
    assert(fold_turkish_spec(fold_turkish_spec(input)) =~= fold_turkish_spec(input));
}

} // verus!
