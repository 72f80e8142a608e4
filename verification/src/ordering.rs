//! The order of URLs: lexicographic by the bytes of their UTF-8 form, as
//! strings are ordered.

use vstd::prelude::*;

verus! {

/// Whether `a` comes strictly before `b` in lexicographic order.
pub open spec fn bytes_before(a: Seq<u8>, b: Seq<u8>) -> bool
    decreases a.len(),
{
    if b.len() == 0 {
        false
    } else if a.len() == 0 {
        true
    } else if a[0] != b[0] {
        a[0] < b[0]
    } else {
        bytes_before(a.drop_first(), b.drop_first())
    }
}

/// Whether `a` comes before `b` or is `b`.
pub open spec fn bytes_at_most(a: Seq<u8>, b: Seq<u8>) -> bool {
    a == b || bytes_before(a, b)
}

/// The bytes by which a URL is ordered.
pub open spec fn url_bytes(url: Seq<char>) -> Seq<u8> {
    vstd::utf8::encode_utf8(url)
}

/// Whether URL `a` sorts before URL `b` or beside it.
pub open spec fn url_at_most(a: Seq<char>, b: Seq<char>) -> bool {
    bytes_at_most(url_bytes(a), url_bytes(b))
}

/// Whether the URLs stand in ascending order.
pub open spec fn ascending_urls(urls: Seq<Seq<char>>) -> bool {
    forall|i: int, j: int| 0 <= i < j < urls.len() ==> url_at_most(urls[i], urls[j])
}

/// The texts of a list of strings.
pub open spec fn texts(urls: Seq<String>) -> Seq<Seq<char>> {
    urls.map_values(|url: String| url@)
}

/// Whether `least` is among the URLs and none of them sorts before it.
pub open spec fn is_least(urls: Seq<Seq<char>>, least: Seq<char>) -> bool {
    &&& urls.contains(least)
    &&& forall|i: int| 0 <= i < urls.len() ==> url_at_most(least, urls[i])
}

/// No sequence of bytes comes before itself.
pub proof fn lemma_before_irreflexive(a: Seq<u8>)
    ensures
        !bytes_before(a, a),
    decreases a.len(),
{
    if a.len() > 0 {
        lemma_before_irreflexive(a.drop_first());
    }
}

/// Of two sequences of bytes, at most one comes before the other.
pub proof fn lemma_before_asymmetric(a: Seq<u8>, b: Seq<u8>)
    requires
        bytes_before(a, b),
    ensures
        !bytes_before(b, a),
    decreases a.len(),
{
    if a.len() > 0 && b.len() > 0 && a[0] == b[0] {
        lemma_before_asymmetric(a.drop_first(), b.drop_first());
    }
}

/// The least of a list of byte strings is unique: two that each come at
/// most the other are the same.
pub proof fn lemma_at_most_antisymmetric(a: Seq<u8>, b: Seq<u8>)
    requires
        bytes_at_most(a, b),
        bytes_at_most(b, a),
    ensures
        a == b,
{
    if a != b {
        lemma_before_asymmetric(a, b);
    }
}

/// Lists with the same members in the same numbers have the same members.
pub proof fn lemma_same_members(a: Seq<Seq<char>>, b: Seq<Seq<char>>, url: Seq<char>)
    requires
        a.to_multiset() == b.to_multiset(),
        a.contains(url),
    ensures
        b.contains(url),
        a.len() == b.len(),
{
    a.to_multiset_ensures();
    b.to_multiset_ensures();
    assert(a.to_multiset().count(url) > 0);
    assert(b.to_multiset().count(url) > 0);
}

/// Sorts the strings with `sort` of std's slices, which orders strings
/// lexicographically by their bytes. The contract claims what std
/// documents: the result holds the same strings, in ascending order.
#[verifier::external_body]
pub(crate) fn sort_urls(urls: &mut Vec<String>)
    ensures
        texts(final(urls)@).to_multiset() == texts(old(urls)@).to_multiset(),
        ascending_urls(texts(final(urls)@)),
{
    urls.sort();
}

} // verus!
