//! Text predicates used by the chat handler: prefix and substring search over
//! UTF-8 bytes, and a name for what lower-casing a string yields.

use vstd::prelude::*;

verus! {

use vstd::utf8::encode_utf8;
use vstd::string::StringSliceAdditionalSpecFns;

/// The UTF-8 bytes of the string that `str::to_lowercase` yields for `s`.
pub uninterp spec fn lower_bytes_of(s: Seq<char>) -> Seq<u8>;

/// Relies on str::to_lowercase: the result depends on the characters alone.
#[verifier::external_body]
pub(crate) fn lowercase_bytes(s: &str) -> (r: Vec<u8>)
    ensures
        r@ == lower_bytes_of(s@),
{
    s.to_lowercase().into_bytes()
}

/// Whether `needle` occurs at position `i` of `hay`.
pub open spec fn match_at(hay: Seq<u8>, needle: Seq<u8>, i: int) -> bool {
    0 <= i && i + needle.len() <= hay.len() && hay.subrange(i, i + needle.len()) == needle
}

/// Whether `needle` occurs anywhere in `hay`.
pub open spec fn bytes_contain(hay: Seq<u8>, needle: Seq<u8>) -> bool {
    exists|i: int| match_at(hay, needle, i)
}

/// Whether `hay` begins with `needle`.
pub open spec fn bytes_start_with(hay: Seq<u8>, needle: Seq<u8>) -> bool {
    match_at(hay, needle, 0)
}

/// Whether the chat message `msg` asks for the player's statistics.
pub open spec fn spec_stats_request(msg: Seq<char>) -> bool {
    bytes_start_with(encode_utf8(msg), encode_utf8("!stats"@))
}

/// Whether the chat message `msg` greets, once lower-cased.
pub open spec fn spec_greeting(msg: Seq<char>) -> bool {
    bytes_contain(lower_bytes_of(msg), encode_utf8("hello"@)) || bytes_contain(
        lower_bytes_of(msg),
        encode_utf8("hi"@),
    )
}

/// Whether `needle` occurs at position `at` of `hay`.
fn match_at_exec(hay: &[u8], needle: &[u8], at: usize) -> (r: bool)
    requires
        at + needle@.len() <= hay@.len(),
    ensures
        r == match_at(hay@, needle@, at as int),
{
    let hay_len: usize = hay.len();
    let needle_len: usize = needle.len();
    let mut j: usize = 0;
    while j < needle_len
        invariant
            j <= needle@.len(),
            hay_len == hay@.len(),
            needle_len == needle@.len(),
            at + needle@.len() <= hay@.len(),
            forall|q: int| 0 <= q < j ==> hay@[at + q] == needle@[q],
        decreases needle@.len() - j,
    {
        if hay[at + j] != needle[j] {
            proof {
                assert(hay@.subrange(at as int, at + needle@.len())[j as int] != needle@[j as int]);
            }
            return false;
        }
        j = j + 1;
    }
    proof {
        assert(hay@.subrange(at as int, at + needle@.len()) =~= needle@);
    }
    true
}

/// Whether `hay` begins with `needle`.
pub fn starts_with_bytes(hay: &[u8], needle: &[u8]) -> (r: bool)
    ensures
        r == bytes_start_with(hay@, needle@),
{
    if needle.len() > hay.len() {
        return false;
    }
    match_at_exec(hay, needle, 0)
}

/// Whether `needle` occurs anywhere in `hay`.
pub fn contains_bytes(hay: &[u8], needle: &[u8]) -> (r: bool)
    ensures
        r == bytes_contain(hay@, needle@),
{
    let hay_len: usize = hay.len();
    let needle_len: usize = needle.len();
    if needle_len > hay_len {
        return false;
    }
    if needle_len == 0 {
        proof {
            assert(hay@.subrange(0, 0) =~= needle@);
            assert(match_at(hay@, needle@, 0));
        }
        return true;
    }
    let mut i: usize = 0;
    while i <= hay_len - needle_len
        invariant
            hay_len == hay@.len(),
            needle_len == needle@.len(),
            0 < needle@.len() <= hay@.len(),
            i <= hay@.len() - needle@.len() + 1,
            forall|q: int| 0 <= q < i ==> !match_at(hay@, needle@, q),
        decreases hay@.len() - i,
    {
        if match_at_exec(hay, needle, i) {
            return true;
        }
        i = i + 1;
    }
    proof {
        assert forall|q: int| !match_at(hay@, needle@, q) by {
            if match_at(hay@, needle@, q) {
                assert(0 <= q < i);
            }
        }
    }
    false
}

/// Whether the chat message `msg` asks for the player's statistics.
pub fn is_stats_request(msg: &str) -> (r: bool)
    ensures
        r == spec_stats_request(msg@),
{
    let pat = "!stats";
    starts_with_bytes(msg.as_bytes(), pat.as_bytes())
}

/// Whether the chat message `msg` greets, once lower-cased.
pub fn is_greeting(msg: &str) -> (r: bool)
    ensures
        r == spec_greeting(msg@),
{
    let low = lowercase_bytes(msg);
    let hello = "hello";
    let hi = "hi";
    contains_bytes(low.as_slice(), hello.as_bytes()) || contains_bytes(
        low.as_slice(),
        hi.as_bytes(),
    )
}

} // verus!
