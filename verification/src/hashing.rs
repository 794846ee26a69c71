//! Content fingerprints used to notice clipboard changes, computed with the
//! standard library's `DefaultHasher` exactly as `Hash` for `str` and `[u8]` feeds it.
use std::collections::hash_map::DefaultHasher;
use std::hash::Hasher;
use vstd::prelude::*;
use vstd::std_specs::hash::DefaultHasherAdditionalSpecFns;

verus! {

/// The fingerprint of a text: the hasher is fed the text's UTF-8 bytes, then the
/// byte `0xff` that `Hash` for `str` appends.
pub open spec fn str_hash(s: Seq<char>) -> u64 {
    DefaultHasher::spec_finish(seq![vstd::utf8::encode_utf8(s), seq![0xffu8]])
}

/// The `k` little-endian bytes of `n` (its lowest `k` bytes).
pub open spec fn le_bytes_of(n: nat, k: nat) -> Seq<u8>
    decreases k,
{
    if k == 0 {
        Seq::empty()
    } else {
        seq![(n % 256) as u8] + le_bytes_of(n / 256, (k - 1) as nat)
    }
}

/// The memory representation of the `usize` `n` in little-endian (or, when
/// `big_endian`, big-endian) byte order.
pub open spec fn usize_bytes(n: usize, big_endian: bool) -> Seq<u8> {
    let le = le_bytes_of(n as nat, (usize::BITS / 8) as nat);
    if big_endian {
        le.reverse()
    } else {
        le
    }
}

/// The fingerprint of a byte slice on a machine of the given byte order: the
/// hasher is fed the slice's length as a `usize` in that order, then the bytes, as
/// `Hash` for `[u8]` feeds them.
pub open spec fn bytes_hash(d: Seq<u8>, big_endian: bool) -> u64 {
    DefaultHasher::spec_finish(seq![usize_bytes(d.len() as usize, big_endian), d])
}

/// `usize::to_ne_bytes` (with the array turned into a `Vec`): the integer's memory
/// representation, which is its little-endian or its big-endian bytes, as the
/// machine's byte order is.
#[verifier::external_body]
fn usize_ne_bytes(n: usize) -> (b: Vec<u8>)
    ensures
        b@ == usize_bytes(n, false) || b@ == usize_bytes(n, true),
{
    n.to_ne_bytes().to_vec()
}

/// Fingerprint of a text.
pub fn hash_str(s: &str) -> (h: u64)
    ensures
        h == str_hash(s@),
{
    let mut hasher = DefaultHasher::new();
    feed_str(&mut hasher, s);
    assert(hasher@ =~= seq![vstd::utf8::encode_utf8(s@), seq![0xffu8]]);
    hasher.finish()
}

/// Fingerprint of a byte slice.
pub fn hash_bytes(d: &[u8]) -> (h: u64)
    ensures
        h == bytes_hash(d@, false) || h == bytes_hash(d@, true),
{
    let mut hasher = DefaultHasher::new();
    let prefix = usize_ne_bytes(d.len());
    hasher.write(prefix.as_slice());
    hasher.write(d);
    assert(hasher@ =~= seq![prefix@, d@]);
    hasher.finish()
}


/// What `Hash` for `str` feeds the hasher for each text, in order: its UTF-8 bytes,
/// then the byte `0xff`.
pub open spec fn strs_feed(parts: Seq<Seq<char>>) -> Seq<Seq<u8>>
    decreases parts.len(),
{
    if parts.len() == 0 {
        Seq::empty()
    } else {
        strs_feed(parts.drop_last()) + seq![vstd::utf8::encode_utf8(parts.last()), seq![0xffu8]]
    }
}

/// The fingerprint of a pair of texts, as `Hash` for `(String, String)` feeds it.
pub open spec fn pair_hash(first: Seq<char>, second: Seq<char>) -> u64 {
    DefaultHasher::spec_finish(strs_feed(seq![first, second]))
}

/// The fingerprint of a list of texts on a machine of the given byte order, as
/// `Hash` for `[String]` feeds it: the number of texts as a `usize`, then each text.
pub open spec fn strs_hash(parts: Seq<Seq<char>>, big_endian: bool) -> u64 {
    DefaultHasher::spec_finish(seq![usize_bytes(parts.len() as usize, big_endian)] + strs_feed(parts))
}

/// Feeds one text as `Hash` for `str` does.
fn feed_str(hasher: &mut DefaultHasher, s: &str)
    ensures
        final(hasher)@ == old(hasher)@ + seq![vstd::utf8::encode_utf8(s@), seq![0xffu8]],
{
    hasher.write(s.as_bytes());
    let mut terminator: Vec<u8> = Vec::new();
    terminator.push(0xffu8);
    hasher.write(terminator.as_slice());
    assert(final(hasher)@ =~= old(hasher)@ + seq![vstd::utf8::encode_utf8(s@), seq![0xffu8]]);
}

/// Fingerprint of a pair of texts.
pub fn hash_str_pair(first: &str, second: &str) -> (h: u64)
    ensures
        h == pair_hash(first@, second@),
{
    let mut hasher = DefaultHasher::new();
    feed_str(&mut hasher, first);
    feed_str(&mut hasher, second);
    proof {
        let parts = seq![first@, second@];
        assert(parts.drop_last() =~= seq![first@]);
        assert(seq![first@].drop_last() =~= Seq::<Seq<char>>::empty());
        assert(strs_feed(Seq::<Seq<char>>::empty()) == Seq::<Seq<u8>>::empty());
        assert(strs_feed(seq![first@]) =~= seq![
            vstd::utf8::encode_utf8(first@),
            seq![0xffu8],
        ]);
        assert(strs_feed(parts) == strs_feed(seq![first@]) + seq![
            vstd::utf8::encode_utf8(second@),
            seq![0xffu8],
        ]);
        assert(hasher@ =~= strs_feed(parts));
    }
    hasher.finish()
}

/// Fingerprint of a list of texts.
pub fn hash_strs(parts: &Vec<String>) -> (h: u64)
    ensures
        h == strs_hash(crate::text::string_views(parts@), false) || h == strs_hash(
            crate::text::string_views(parts@),
            true,
        ),
{
    let mut hasher = DefaultHasher::new();
    let prefix = usize_ne_bytes(parts.len());
    hasher.write(prefix.as_slice());
    let ghost start = hasher@;
    let mut i: usize = 0;
    while i < parts.len()
        invariant
            i <= parts@.len(),
            hasher@ == start + strs_feed(crate::text::string_views(parts@.take(i as int))),
        decreases parts@.len() - i,
    {
        feed_str(&mut hasher, parts[i].as_str());
        proof {
            let v = crate::text::string_views(parts@.take(i + 1));
            assert(v.drop_last() =~= crate::text::string_views(parts@.take(i as int)));
            assert(v.last() == parts@[i as int]@);
        }
        i = i + 1;
    }
    assert(parts@.take(i as int) =~= parts@);
    assert(hasher@ =~= seq![prefix@] + strs_feed(crate::text::string_views(parts@)));
    hasher.finish()
}

} // verus!
