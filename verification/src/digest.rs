//! SHA-256 digests and their hexadecimal spelling.

use crate::text::{ascii_lowered, chars_of, is_hex_digit, to_ascii_lowercase};
use sha2::Digest;
use vstd::prelude::*;

verus! {

/// A hasher of the `sha2` crate that is being fed.
#[verifier::external_body]
pub struct Hasher {
    inner: sha2::Sha256,
}

/// The bytes a hasher has been fed since it was made, in order.
pub uninterp spec fn absorbed(hasher: Hasher) -> Seq<u8>;

/// The SHA-256 digest of `bytes`.
pub uninterp spec fn sha256_of(bytes: Seq<u8>) -> Seq<u8>;

/// `sha2::Sha256::new` makes a hasher that has been fed nothing.
#[verifier::external_body]
pub(crate) fn hasher_new() -> (res: Hasher)
    ensures
        absorbed(res) == Seq::<u8>::empty(),
{
    Hasher { inner: sha2::Sha256::new() }
}

/// `sha2::Sha256::update` feeds `bytes` to the hasher, after what it was fed before. How the input
/// is split over calls does not matter.
#[verifier::external_body]
pub(crate) fn hasher_update(hasher: &mut Hasher, bytes: &[u8])
    ensures
        absorbed(*final(hasher)) == absorbed(*old(hasher)) + bytes@,
{
    hasher.inner.update(bytes)
}

/// `sha2::Sha256::finalize` returns the digest of all the bytes the hasher was fed, which is 32
/// bytes long.
#[verifier::external_body]
pub(crate) fn hasher_finalize(hasher: Hasher) -> (res: Vec<u8>)
    ensures
        res@ == sha256_of(absorbed(hasher)),
        res@.len() == 32,
{
    hasher.inner.finalize().to_vec()
}

/// The lowercase hexadecimal digit of value `d`.
pub open spec fn hex_char(d: nat) -> char {
    if d < 10 {
        (d + '0' as nat) as char
    } else {
        (d + 87) as char
    }
}

/// Two lowercase hexadecimal digits for each byte.
pub open spec fn hex_of(bytes: Seq<u8>) -> Seq<char>
    decreases bytes.len(),
{
    if bytes.len() == 0 {
        seq![]
    } else {
        hex_of(bytes.drop_last()).push(hex_char((bytes.last() / 16) as nat)).push(
            hex_char((bytes.last() % 16) as nat),
        )
    }
}

/// Whether `s` spells a SHA-256 digest: 64 hexadecimal digits.
pub open spec fn is_sha256(s: Seq<char>) -> bool {
    s.len() == 64 && forall|i: int| 0 <= i < s.len() ==> is_hex_digit(#[trigger] s[i])
}

/// `s` as a lowercase digest, if it spells one.
pub open spec fn sha256_text(s: Seq<char>) -> Option<Seq<char>> {
    if is_sha256(s) {
        Some(ascii_lowered(s))
    } else {
        None
    }
}

fn hex_digit(d: u8) -> (res: char)
    requires
        d < 16,
    ensures
        res == hex_char(d as nat),
{
    if d < 10 {
        (d + 48) as char
    } else {
        (d + 87) as char
    }
}

/// The bytes in lowercase hexadecimal.
pub fn hex(bytes: &Vec<u8>) -> (res: String)
    ensures
        res@ == hex_of(bytes@),
{
    let mut res = String::new();
    let mut i: usize = 0;
    while i < bytes.len()
        invariant
            i <= bytes.len(),
            res@ == hex_of(bytes@.take(i as int)),
        decreases bytes.len() - i,
    {
        proof {
            assert(bytes@.take(i + 1).drop_last() =~= bytes@.take(i as int));
        }
        res.push(hex_digit(bytes[i] / 16));
        res.push(hex_digit(bytes[i] % 16));
        i += 1;
    }
    proof {
        assert(bytes@.take(i as int) =~= bytes@);
    }
    res
}

/// The SHA-256 digest of `bytes`.
pub fn sha256(bytes: &[u8]) -> (res: Vec<u8>)
    ensures
        res@ == sha256_of(bytes@),
        res@.len() == 32,
{
    let mut hasher = hasher_new();
    hasher_update(&mut hasher, bytes);
    proof {
        assert(Seq::<u8>::empty() + bytes@ =~= bytes@);
    }
    hasher_finalize(hasher)
}

fn char_is_hex_digit(c: char) -> (res: bool)
    ensures
        res == is_hex_digit(c),
{
    ('0' <= c && c <= '9') || ('a' <= c && c <= 'f') || ('A' <= c && c <= 'F')
}

/// `text` as a lowercase SHA-256 hex digest, if it is one.
pub fn parse_sha256(text: &str) -> (res: Option<String>)
    ensures
        crate::text::opt_text(res) == sha256_text(text@),
{
    let cs = chars_of(text);
    if cs.len() != 64 {
        return None;
    }
    let mut i: usize = 0;
    while i < cs.len()
        invariant
            i <= cs.len(),
            cs@ == text@,
            forall|k: int| 0 <= k < i ==> is_hex_digit(#[trigger] text@[k]),
        decreases cs.len() - i,
    {
        if !char_is_hex_digit(cs[i]) {
            return None;
        }
        i += 1;
    }
    Some(to_ascii_lowercase(text))
}

/// The spelling of some bytes: two digits for each, none of them an upper-case letter.
pub proof fn lemma_hex_length(bytes: Seq<u8>)
    ensures
        hex_of(bytes).len() == 2 * bytes.len(),
        forall|i: int|
            0 <= i < hex_of(bytes).len() ==> is_hex_digit(#[trigger] hex_of(bytes)[i])
                && !crate::text::is_upper(hex_of(bytes)[i]),
    decreases bytes.len(),
{
    if bytes.len() > 0 {
        lemma_hex_length(bytes.drop_last());
    }
}

/// A digest as this crate spells it is read back as it is: what is published in the spelling of
/// [`hex`] can be compared with [`parse_sha256`].
pub proof fn law_hex_digest_is_read_back(digest: Seq<u8>)
    requires
        digest.len() == 32,
    ensures
        sha256_text(hex_of(digest)) == Some(hex_of(digest)),
{
    lemma_hex_length(digest);
    assert(ascii_lowered(hex_of(digest)) =~= hex_of(digest));
}

/// Distinct digests are spelled differently, so that comparing the spellings compares the digests.
pub proof fn law_hex_is_injective(a: Seq<u8>, b: Seq<u8>)
    requires
        hex_of(a) == hex_of(b),
    ensures
        a == b,
    decreases a.len(),
{
    lemma_hex_length(a);
    lemma_hex_length(b);
    if a.len() > 0 {
        let x = hex_of(a);
        let n = x.len() as int;
        assert(x[n - 1] == hex_char((a.last() % 16) as nat));
        assert(x[n - 2] == hex_char((a.last() / 16) as nat));
        assert(x[n - 1] == hex_char((b.last() % 16) as nat));
        assert(x[n - 2] == hex_char((b.last() / 16) as nat));
        assert(a.last() == b.last());
        assert(hex_of(a.drop_last()) =~= x.take(n - 2));
        assert(hex_of(b.drop_last()) =~= x.take(n - 2));
        law_hex_is_injective(a.drop_last(), b.drop_last());
        assert(a =~= a.drop_last().push(a.last()));
        assert(b =~= b.drop_last().push(b.last()));
    } else {
        assert(a =~= b);
    }
}

/// A parsed digest is parsed to itself.
pub proof fn law_parsed_digests_are_normal(text: Seq<char>)
    ensures
        sha256_text(text) matches Some(digest) ==> sha256_text(digest) == Some(digest),
{
    if is_sha256(text) {
        let low = ascii_lowered(text);
        assert(low.len() == 64);
        assert forall|i: int| 0 <= i < low.len() implies is_hex_digit(#[trigger] low[i]) by {
            assert(is_hex_digit(text[i]));
        }
        assert(ascii_lowered(low) =~= low);
    }
}

} // verus!
