//! Searching in bytes.
use vstd::prelude::*;

verus! {

/// `needle` stands in `haystack` at `i`.
pub open spec fn occurs_at(haystack: Seq<u8>, needle: Seq<u8>, i: int) -> bool {
    &&& 0 <= i
    &&& i + needle.len() <= haystack.len()
    &&& haystack.subrange(i, i + needle.len()) == needle
}

/// `needle` stands somewhere in `haystack`.
pub open spec fn occurs(haystack: Seq<u8>, needle: Seq<u8>) -> bool {
    exists|i: int| occurs_at(haystack, needle, i)
}

/// `memchr::memmem::find`: where a needle first stands.
#[verifier::external_body]
pub(crate) fn find(haystack: &[u8], needle: &[u8]) -> (r: Option<usize>)
    ensures
        match r {
            Some(i) => occurs_at(haystack@, needle@, i as int) && forall|j: int|
                0 <= j < i ==> !occurs_at(haystack@, needle@, j),
            None => forall|j: int| !occurs_at(haystack@, needle@, j),
        },
{
    memchr::memmem::find(haystack, needle)
}

/// `memchr::memchr`: where a byte first stands.
#[verifier::external_body]
pub(crate) fn position(byte: u8, haystack: &[u8]) -> (r: Option<usize>)
    ensures
        match r {
            Some(i) => i < haystack@.len() && haystack@[i as int] == byte && forall|j: int|
                0 <= j < i ==> haystack@[j] != byte,
            None => forall|j: int| 0 <= j < haystack@.len() ==> haystack@[j] != byte,
        },
{
    memchr::memchr(byte, haystack)
}

/// Whether a text's bytes stand somewhere in `haystack`.
pub(crate) fn contains(haystack: &[u8], needle: &str) -> (r: bool)
    ensures
        r == occurs(haystack@, vstd::utf8::encode_utf8(needle@)),
{
    find(haystack, needle.as_bytes()).is_some()
}

/// A run of bytes occurs in others exactly where they are something before it, it
/// itself, and something after it.
pub proof fn law_what_occurs_stands_somewhere(haystack: Seq<u8>, needle: Seq<u8>)
    ensures
        occurs(haystack, needle) <==> exists|before: Seq<u8>, after: Seq<u8>|
            haystack == #[trigger] (before + needle + after),
{
    if occurs(haystack, needle) {
        let i = choose|i: int| #[trigger] occurs_at(haystack, needle, i);
        let before = haystack.take(i);
        let after = haystack.skip(i + needle.len());
        assert(haystack =~= before + needle + after);
    }
    if exists|before: Seq<u8>, after: Seq<u8>| haystack == #[trigger] (before + needle + after) {
        let (before, after) = choose|before: Seq<u8>, after: Seq<u8>|
            haystack == #[trigger] (before + needle + after);
        let i = before.len() as int;
        assert(haystack.subrange(i, i + needle.len()) =~= needle);
        assert(occurs_at(haystack, needle, i));
    }
}

} // verus!
