//! Stable ids for search hits.
use vstd::prelude::*;
use std::collections::hash_map::DefaultHasher;
use std::hash::Hasher;
use crate::model::{Site, site_label};
use vstd::std_specs::hash::DefaultHasherAdditionalSpecFns;
use vstd::string::StringSliceAdditionalSpecFns;

verus! {

/// The lowercase hexadecimal digit for `d` (below 16).
pub open spec fn hex_digit(d: nat) -> char {
    if d < 10 {
        ('0' as nat + d) as char
    } else {
        ('a' as nat + d - 10) as char
    }
}

/// The last `n` hexadecimal digits of `x`, most significant first, padded
/// with zeros: what `format!("{:0n$x}", x)` prints when `x` has at most `n` digits.
pub open spec fn hex_digits(x: nat, n: nat) -> Seq<char>
    decreases n,
{
    if n == 0 {
        Seq::empty()
    } else {
        hex_digits(x / 16, (n - 1) as nat).push(hex_digit(x % 16))
    }
}

/// What hashing a string writes into a `DefaultHasher`: its UTF-8 bytes, then
/// the byte `0xff` that keeps the encoding prefix-free.
pub open spec fn str_hash_writes(s: Seq<char>) -> Seq<Seq<u8>> {
    seq![vstd::utf8::encode_utf8(s), seq![0xffu8]]
}

/// The id of the hit for `url` at `site`: the `DefaultHasher` digest of the
/// site's label and the url, as 16 lowercase hexadecimal digits.
pub open spec fn hit_id_spec(site: Site, url: Seq<char>) -> Seq<char> {
    hex_digits(
        DefaultHasher::spec_finish(str_hash_writes(site_label(site)) + str_hash_writes(url)) as nat,
        16,
    )
}

fn hex_digit_of(d: u64) -> (c: char)
    requires
        d < 16,
    ensures
        c == hex_digit(d as nat),
{
    match d {
        0 => '0',
        1 => '1',
        2 => '2',
        3 => '3',
        4 => '4',
        5 => '5',
        6 => '6',
        7 => '7',
        8 => '8',
        9 => '9',
        10 => 'a',
        11 => 'b',
        12 => 'c',
        13 => 'd',
        14 => 'e',
        _ => 'f',
    }
}

fn hex_digits_of(x: u64, n: usize) -> (r: Vec<char>)
    ensures
        r@ == hex_digits(x as nat, n as nat),
    decreases n,
{
    if n == 0 {
        Vec::new()
    } else {
        let mut r = hex_digits_of(x / 16, n - 1);
        r.push(hex_digit_of(x % 16));
        r
    }
}

fn hash_str(hasher: &mut DefaultHasher, s: &str)
    ensures
        final(hasher)@ == old(hasher)@ + str_hash_writes(s@),
{
    hasher.write(s.as_bytes());
    let end: [u8; 1] = [0xffu8];
    hasher.write(&end);
    assert(end@ == seq![0xffu8]);
    assert(old(hasher)@.push(s.spec_bytes()).push(seq![0xffu8]) == old(hasher)@ + str_hash_writes(s@));
}

/// The id of the hit for `url` at `site`.
pub fn hit_id(site: Site, url: &str) -> (r: String)
    ensures
        r@ == hit_id_spec(site, url@),
        r@.len() == 16,
        forall|i: int| 0 <= i < 16 ==> {
            let c = #[trigger] r@[i];
            ('0' <= c && c <= '9') || ('a' <= c && c <= 'f')
        },
{
    let mut hasher = DefaultHasher::new();
    hash_str(&mut hasher, site.label());
    hash_str(&mut hasher, url);
    assert(hasher@ == str_hash_writes(site_label(site)) + str_hash_writes(url@));
    let digest = hasher.finish();
    let digits = hex_digits_of(digest, 16);
    proof {
        lemma_hex_digits_len(digest as nat, 16);
    }
    crate::text::string_from(&digits, 0, digits.len())
}

/// `n` digits are `n` characters, each a lowercase hexadecimal digit.
pub proof fn lemma_hex_digits_len(x: nat, n: nat)
    ensures
        hex_digits(x, n).len() == n,
        forall|i: int| 0 <= i < n ==> {
            let c = #[trigger] hex_digits(x, n)[i];
            ('0' <= c && c <= '9') || ('a' <= c && c <= 'f')
        },
    decreases n,
{
    if n > 0 {
        lemma_hex_digits_len(x / 16, (n - 1) as nat);
        let h = hex_digits(x, n);
        let h0 = hex_digits(x / 16, (n - 1) as nat);
        assert forall|i: int| 0 <= i < n implies {
            let c = #[trigger] h[i];
            ('0' <= c && c <= '9') || ('a' <= c && c <= 'f')
        } by {
            if i < n - 1 {
                assert(h[i] == h0[i]);
            }
        }
    }
}

} // verus!
