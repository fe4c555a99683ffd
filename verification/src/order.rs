//! The order of texts (character by character, by code point), and the
//! distinct session ids of a set of transcripts in that order.
use vstd::prelude::*;
use crate::json::texts;
use crate::l0::L0Entry;
use crate::text::chars_of;

verus! {

/// Lexicographic order on texts, character by character by code point; a
/// proper prefix comes first. On UTF-8 text this is the order of `str`'s
/// `Ord`, which compares the bytes.
pub open spec fn text_less(a: Seq<char>, b: Seq<char>) -> bool
    decreases a.len(),
{
    if a.len() == 0 {
        b.len() > 0
    } else if b.len() == 0 {
        false
    } else if a[0] != b[0] {
        (a[0] as u32) < (b[0] as u32)
    } else {
        text_less(a.drop_first(), b.drop_first())
    }
}

/// No text comes before itself.
pub proof fn lemma_text_less_irreflexive(a: Seq<char>)
    ensures
        !text_less(a, a),
    decreases a.len(),
{
    if a.len() > 0 {
        lemma_text_less_irreflexive(a.drop_first());
    }
}

/// The order is transitive.
pub proof fn lemma_text_less_transitive(a: Seq<char>, b: Seq<char>, c: Seq<char>)
    requires
        text_less(a, b),
        text_less(b, c),
    ensures
        text_less(a, c),
    decreases a.len(),
{
    if a.len() > 0 && b.len() > 0 && c.len() > 0 && a[0] == b[0] && b[0] == c[0] {
        lemma_text_less_transitive(a.drop_first(), b.drop_first(), c.drop_first());
    }
}

/// Of two different texts, one comes before the other.
pub proof fn lemma_text_less_total(a: Seq<char>, b: Seq<char>)
    requires
        a != b,
    ensures
        text_less(a, b) || text_less(b, a),
    decreases a.len(),
{
    if a.len() > 0 && b.len() > 0 && a[0] == b[0] {
        if a.drop_first() == b.drop_first() {
            assert(a =~= seq![a[0]] + a.drop_first());
            assert(b =~= seq![b[0]] + b.drop_first());
        }
        lemma_text_less_total(a.drop_first(), b.drop_first());
    } else if a.len() > 0 && b.len() > 0 {
        let x = a[0] as u32;
        let y = b[0] as u32;
        assert(x != y) by {
            vstd::utf8::char_u32_cast(a[0], x);
            vstd::utf8::char_u32_cast(b[0], y);
        }
    } else if a.len() == 0 && b.len() == 0 {
        assert(a =~= b);
    }
}

/// Whether `a` comes before `b` in the order of texts.
pub fn text_lt(a: &str, b: &str) -> (r: bool)
    ensures
        r == text_less(a@, b@),
{
    let ca = chars_of(a);
    let cb = chars_of(b);
    let mut i: usize = 0;
    assert(a@.skip(0) =~= a@);
    assert(b@.skip(0) =~= b@);
    while i < ca.len() && i < cb.len()
        invariant
            i <= ca@.len(),
            i <= cb@.len(),
            ca@ == a@,
            cb@ == b@,
            text_less(a@, b@) == text_less(a@.skip(i as int), b@.skip(i as int)),
        decreases ca@.len() - i,
    {
        if ca[i] != cb[i] {
            assert(a@.skip(i as int)[0] == ca@[i as int]);
            assert(b@.skip(i as int)[0] == cb@[i as int]);
            return (ca[i] as u32) < (cb[i] as u32);
        }
        assert(a@.skip(i as int).drop_first() =~= a@.skip(i + 1));
        assert(b@.skip(i as int).drop_first() =~= b@.skip(i + 1));
        i = i + 1;
    }
    i == ca.len() && i < cb.len()
}

/// Strictly increasing in the order of texts (so without repetition).
pub open spec fn increasing(s: Seq<Seq<char>>) -> bool {
    forall|i: int, j: int| 0 <= i < j < s.len() ==> text_less(#[trigger] s[i], #[trigger] s[j])
}

/// Whether some transcript belongs to the session `sid`.
pub open spec fn has_session(entries: Seq<L0Entry>, sid: Seq<char>) -> bool {
    exists|k: int| 0 <= k < entries.len() && #[trigger] entries[k].session_id@ == sid
}

/// `s` lists each session of `entries` once, in increasing order.
pub open spec fn orders_sessions(s: Seq<Seq<char>>, entries: Seq<L0Entry>) -> bool {
    &&& increasing(s)
    &&& forall|x: Seq<char>| s.contains(x) <==> has_session(entries, x)
}

/// The distinct session ids of `entries`, in increasing order.
pub open spec fn session_order(entries: Seq<L0Entry>) -> Seq<Seq<char>> {
    choose|s: Seq<Seq<char>>| orders_sessions(s, entries)
}

/// Two increasing sequences with the same elements are equal.
pub proof fn lemma_increasing_unique(a: Seq<Seq<char>>, b: Seq<Seq<char>>)
    requires
        increasing(a),
        increasing(b),
        forall|x: Seq<char>| a.contains(x) <==> b.contains(x),
    ensures
        a == b,
    decreases a.len() + b.len(),
{
    if a.len() == 0 || b.len() == 0 {
        if a.len() > 0 {
            assert(a.contains(a[0]));
        }
        if b.len() > 0 {
            assert(b.contains(b[0]));
        }
        assert(a =~= b);
    } else {
        assert(a.contains(a[0]));
        assert(b.contains(b[0]));
        let i = choose|i: int| 0 <= i < b.len() && b[i] == a[0];
        let j = choose|j: int| 0 <= j < a.len() && a[j] == b[0];
        if a[0] != b[0] {
            assert(i > 0 && j > 0);
            assert(text_less(b[0], b[i]));
            assert(text_less(a[0], a[j]));
            lemma_text_less_transitive(a[0], b[0], a[0]);
            lemma_text_less_irreflexive(a[0]);
        }
        let ra = a.drop_first();
        let rb = b.drop_first();
        assert forall|x: Seq<char>| ra.contains(x) implies rb.contains(x) by {
            let k = choose|k: int| 0 <= k < ra.len() && ra[k] == x;
            assert(a[k + 1] == x);
            assert(text_less(a[0], x));
            assert(a.contains(x));
            let m = choose|m: int| 0 <= m < b.len() && b[m] == x;
            if m == 0 {
                lemma_text_less_irreflexive(x);
            }
            assert(rb[m - 1] == x);
        }
        assert forall|x: Seq<char>| rb.contains(x) implies ra.contains(x) by {
            let k = choose|k: int| 0 <= k < rb.len() && rb[k] == x;
            assert(b[k + 1] == x);
            assert(text_less(b[0], x));
            assert(b.contains(x));
            let m = choose|m: int| 0 <= m < a.len() && a[m] == x;
            if m == 0 {
                lemma_text_less_irreflexive(x);
            }
            assert(ra[m - 1] == x);
        }
        assert(increasing(ra)) by {
            assert forall|p: int, q: int| 0 <= p < q < ra.len() implies text_less(
                #[trigger] ra[p],
                #[trigger] ra[q],
            ) by {
                assert(ra[p] == a[p + 1] && ra[q] == a[q + 1]);
            }
        }
        assert(increasing(rb)) by {
            assert forall|p: int, q: int| 0 <= p < q < rb.len() implies text_less(
                #[trigger] rb[p],
                #[trigger] rb[q],
            ) by {
                assert(rb[p] == b[p + 1] && rb[q] == b[q + 1]);
            }
        }
        lemma_increasing_unique(ra, rb);
        assert(a =~= seq![a[0]] + ra);
        assert(b =~= seq![b[0]] + rb);
    }
}

/// The distinct session ids of the transcripts, each once, in increasing
/// order (the order in which an export lists the sessions).
pub fn sorted_session_ids(entries: &Vec<L0Entry>) -> (r: Vec<String>)
    ensures
        orders_sessions(texts(r@), entries@),
        texts(r@) == session_order(entries@),
{
    let mut out: Vec<String> = Vec::new();
    let mut k: usize = 0;
    while k < entries.len()
        invariant
            k <= entries@.len(),
            increasing(texts(out@)),
            forall|x: Seq<char>|
                texts(out@).contains(x) <==> has_session(entries@.take(k as int), x),
        decreases entries@.len() - k,
    {
        let sid = &entries[k].session_id;
        let ghost before = texts(out@);
        // First position whose id does not come before `sid`.
        let mut p: usize = 0;
        while p < out.len() && text_lt(out[p].as_str(), sid.as_str())
            invariant
                p <= out@.len(),
                texts(out@) == before,
                forall|q: int| 0 <= q < p ==> text_less(#[trigger] before[q], sid@),
            decreases out@.len() - p,
        {
            p = p + 1;
        }
        let present = p < out.len() && out[p] == *sid;
        if !present {
            out.insert(p, sid.clone());
            proof {
                let now = texts(out@);
                assert(now =~= before.insert(p as int, sid@));
                if p < before.len() {
                    assert(!text_less(before[p as int], sid@));
                    lemma_text_less_total(before[p as int], sid@);
                }
                assert forall|i: int, j: int| 0 <= i < j < now.len() implies text_less(
                    #[trigger] now[i],
                    #[trigger] now[j],
                ) by {
                    if j < p {
                        assert(now[i] == before[i] && now[j] == before[j]);
                    } else if j == p {
                        assert(now[i] == before[i]);
                    } else if i < p {
                        assert(now[i] == before[i] && now[j] == before[j - 1]);
                        assert(text_less(before[p as int], before[j - 1]) || j - 1 == p);
                        lemma_text_less_transitive(before[i], sid@, before[p as int]);
                        if j - 1 > p {
                            lemma_text_less_transitive(before[i], before[p as int], before[j - 1]);
                        }
                    } else if i == p {
                        assert(now[j] == before[j - 1]);
                        if j - 1 > p {
                            lemma_text_less_transitive(sid@, before[p as int], before[j - 1]);
                        }
                    } else {
                        assert(now[i] == before[i - 1] && now[j] == before[j - 1]);
                    }
                }
            }
        }
        proof {
            let now = texts(out@);
            let tk = entries@.take(k + 1);
            assert(tk[k as int].session_id@ == sid@);
            assert(now.contains(sid@)) by {
                if present {
                    assert(now[p as int] == sid@);
                } else {
                    assert(now[p as int] == sid@);
                }
            }
            assert forall|x: Seq<char>| now.contains(x) <==> has_session(tk, x) by {
                if now.contains(x) && x != sid@ {
                    let m = choose|m: int| 0 <= m < now.len() && now[m] == x;
                    assert(before.contains(x)) by {
                        if present {
                            assert(before[m] == x);
                        } else if m < p {
                            assert(before[m] == x);
                        } else {
                            assert(m != p);
                            assert(before[m - 1] == x);
                        }
                    }
                    let e = choose|e: int|
                        0 <= e < entries@.take(k as int).len() && #[trigger] entries@.take(
                            k as int,
                        )[e].session_id@ == x;
                    assert(tk[e].session_id@ == x);
                }
                if has_session(tk, x) && x != sid@ {
                    let e = choose|e: int| 0 <= e < tk.len() && #[trigger] tk[e].session_id@ == x;
                    assert(e != k);
                    assert(entries@.take(k as int)[e].session_id@ == x);
                    assert(before.contains(x));
                    let m = choose|m: int| 0 <= m < before.len() && before[m] == x;
                    if present {
                        assert(now[m] == x);
                    } else if m < p {
                        assert(now[m] == x);
                    } else {
                        assert(now[m + 1] == x);
                    }
                }
            }
        }
        k = k + 1;
    }
    proof {
        assert(entries@.take(entries@.len() as int) =~= entries@);
        assert(orders_sessions(texts(out@), entries@));
        lemma_increasing_unique(texts(out@), session_order(entries@));
    }
    out
}

} // verus!
