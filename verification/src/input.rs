//! Choosing the bytes that are hashed for a piece of input.
//!
//! By default whitespace is significant and the key is the input itself, so
//! `"foo"` and `"foo\n"` get different colors.  When trailing whitespace is to
//! be ignored, it is stripped before hashing, so `"foo\n"`, `"foo\r\n"` and
//! `"foo "` all hash like `"foo"`.

use vstd::prelude::*;
use vstd::string::*;
use vstd::utf8::{encode_utf8, encode_utf8_decode_utf8};

use crate::text::{is_white_space, trim_end, trim_end_white_space};

verus! {

/// The hash key of `s`: its UTF-8 bytes, with trailing white space removed
/// first unless whitespace is significant.
pub open spec fn spec_hash_key(s: Seq<char>, whitespace_sensitive: bool) -> Seq<u8> {
    if whitespace_sensitive {
        encode_utf8(s)
    } else {
        encode_utf8(trim_end_white_space(s))
    }
}

/// The bytes to hash for `input`: all of its UTF-8 bytes, or, when
/// whitespace is not significant, those of `input` without its trailing white
/// space.
pub fn hash_key<'a>(input: &'a str, whitespace_sensitive: bool) -> (r: &'a [u8])
    ensures
        r@ == spec_hash_key(input@, whitespace_sensitive),
{
    if whitespace_sensitive {
        input.as_bytes()
    } else {
        trim_end(input).as_bytes()
    }
}

// ─── laws ─────────────────────────────────────────────────────────────────────

/// Appending white space does not change the trimmed text.
proof fn lemma_trim_append_white_space(s: Seq<char>, t: Seq<char>)
    requires
        forall|i: int| 0 <= i < t.len() ==> is_white_space(#[trigger] t[i]),
    ensures
        trim_end_white_space(s + t) == trim_end_white_space(s),
    decreases t.len(),
{
    if t.len() > 0 {
        assert((s + t).drop_last() =~= s + t.drop_last());
        assert((s + t).last() == t.last());
        assert(is_white_space(t[t.len() - 1]));
        lemma_trim_append_white_space(s, t.drop_last());
    } else {
        assert(s + t =~= s);
    }
}

/// When trailing whitespace is ignored, adding any run of white space
/// (`' '`, `'\t'`, `'\n'`, `'\r'`, …) to the end of the input leaves the hash key
/// unchanged.
pub proof fn lemma_trim_ignores_trailing_white_space(s: Seq<char>, t: Seq<char>)
    requires
        forall|i: int| 0 <= i < t.len() ==> is_white_space(#[trigger] t[i]),
    ensures
        spec_hash_key(s + t, false) == spec_hash_key(s, false),
{
    lemma_trim_append_white_space(s, t);
}

/// When whitespace is significant, different texts have different keys (in
/// particular `"foo"`, `"foo\n"` and `"foo\r\n"` all differ).
pub proof fn lemma_sensitive_keys_distinguish(s1: Seq<char>, s2: Seq<char>)
    requires
        s1 != s2,
    ensures
        spec_hash_key(s1, true) != spec_hash_key(s2, true),
{
    encode_utf8_decode_utf8(s1);
    encode_utf8_decode_utf8(s2);
}

/// The trimmed text never ends in white space and is a prefix of the text.
pub proof fn lemma_trimmed_shape(s: Seq<char>)
    ensures
        trim_end_white_space(s).len() <= s.len(),
        trim_end_white_space(s) == s.subrange(0, trim_end_white_space(s).len() as int),
        trim_end_white_space(s).len() > 0 ==> !is_white_space(trim_end_white_space(s).last()),
    decreases s.len(),
{
    if s.len() > 0 && is_white_space(s.last()) {
        lemma_trimmed_shape(s.drop_last());
        assert(s.drop_last().subrange(0, trim_end_white_space(s).len() as int) =~= s.subrange(
            0,
            trim_end_white_space(s).len() as int,
        ));
    } else {
        assert(s.subrange(0, s.len() as int) =~= s);
    }
}

} // verus!
