//! Helpers of the links tool: `kind:id` arguments and short ids.
use vstd::prelude::*;
use vstd::string::StringSliceAdditionalSpecFns;
use vstd::utf8::{decode_utf8, encode_utf8, encode_utf8_decode_utf8, is_char_boundary};
use crate::text::{chars_of, string_of_range};

verus! {

/// Index of the first occurrence of `c` in `s`, if any.
pub open spec fn first_char_index(s: Seq<char>, c: char) -> Option<int>
    decreases s.len(),
{
    if s.len() == 0 {
        None
    } else {
        match first_char_index(s.drop_last(), c) {
            Some(i) => Some(i),
            None => if s.last() == c {
                Some(s.len() - 1)
            } else {
                None
            },
        }
    }
}

/// `kind:id` split at its first `:`; `None` without a `:`.
pub open spec fn kind_id_parts(s: Seq<char>) -> Option<(Seq<char>, Seq<char>)> {
    match first_char_index(s, ':') {
        Some(i) => Some((s.take(i), s.skip(i + 1))),
        None => None,
    }
}

/// Splits a `kind:id` argument at its first `:`.
pub fn parse_kind_id(s: &str) -> (r: Option<(String, String)>)
    ensures
        match kind_id_parts(s@) {
            Some((k, i)) => r matches Some(p) && p.0@ == k && p.1@ == i,
            None => r is None,
        },
{
    let cs = chars_of(s);
    let mut i: usize = 0;
    while i < cs.len()
        invariant
            i <= cs@.len(),
            cs@ == s@,
            first_char_index(cs@.take(i as int), ':') is None,
        decreases cs@.len() - i,
    {
        assert(cs@.take(i + 1).drop_last() =~= cs@.take(i as int));
        if cs[i] == ':' {
            assert(cs@.take(i + 1).last() == ':');
            proof {
                lemma_first_char_prefix(cs@, i as int);
            }
            let k = string_of_range(cs.as_slice(), 0, i);
            let rest = string_of_range(cs.as_slice(), i + 1, cs.len());
            assert(cs@.subrange(0, i as int) =~= cs@.take(i as int));
            assert(cs@.subrange(i + 1, cs@.len() as int) =~= cs@.skip(i + 1));
            return Some((k, rest));
        }
        i = i + 1;
    }
    assert(cs@.take(cs@.len() as int) =~= cs@);
    None
}

proof fn lemma_first_char_prefix(s: Seq<char>, i: int)
    requires
        0 <= i < s.len(),
        first_char_index(s.take(i), ':') is None,
        s[i] == ':',
    ensures
        first_char_index(s, ':') == Some(i),
    decreases s.len(),
{
    if i == s.len() - 1 {
        assert(s.drop_last() =~= s.take(i));
    } else {
        assert(s.drop_last().take(i) =~= s.take(i));
        lemma_first_char_prefix(s.drop_last(), i);
    }
}

/// Where a short id is cut: after the first eight bytes of the UTF-8
/// encoding, or at its end when it is shorter.
pub open spec fn short_cut(id: Seq<char>) -> int {
    let n = encode_utf8(id).len();
    if n < 8 {
        n as int
    } else {
        8
    }
}

/// The text of the first eight bytes of an id (all of it when shorter).
pub open spec fn short_text(id: Seq<char>) -> Seq<char> {
    decode_utf8(encode_utf8(id).subrange(0, short_cut(id)))
}

/// Whether the short id of `id` can be cut: the cut falls on a character
/// boundary.
pub open spec fn short_id_cuttable(id: Seq<char>) -> bool {
    is_char_boundary(encode_utf8(id), short_cut(id))
}

/// The first eight bytes of an id (all of it when shorter). The cut must
/// fall on a character boundary, as byte slicing demands.
pub fn short_id(s: &str) -> (r: &str)
    requires
        short_id_cuttable(s@),
    ensures
        r.spec_bytes() == s.spec_bytes().subrange(0, short_cut(s@)),
        r@ == short_text(s@),
{
    let n = s.as_bytes().len();
    let m = if n < 8 {
        n
    } else {
        8
    };
    let (head, _tail) = s.split_at(m);
    proof {
        encode_utf8_decode_utf8(head@);
    }
    head
}

} // verus!
