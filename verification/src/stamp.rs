//! Fresh identifiers and the current time, from the `uuid` and `time` crates.
use vstd::prelude::*;
use crate::text::{is_listed, listed, string_of_range};

verus! {

/// A decimal digit `0`–`9`.
pub open spec fn is_decimal_digit(c: char) -> bool {
    48 <= c as u32 <= 57
}

/// A lower-case hexadecimal digit `0`–`9`, `a`–`f`.
pub open spec fn is_lower_hex_digit(c: char) -> bool {
    is_decimal_digit(c) || 97 <= c as u32 <= 102
}

/// The text of a random (version 4) UUID in its hyphenated lower-case form:
/// 36 characters, hyphens at positions 8, 13, 18 and 23, lower-case hex
/// digits elsewhere, the version digit `4` at position 14 and the variant
/// digit (`8`, `9`, `a` or `b`) at position 19.
pub open spec fn uuid_v4_shape(s: Seq<char>) -> bool {
    &&& s.len() == 36
    &&& forall|i: int|
        0 <= i < 36 ==> if i == 8 || i == 13 || i == 18 || i == 23 {
            s[i] == '-'
        } else {
            is_lower_hex_digit(#[trigger] s[i])
        }
    &&& s[14] == '4'
    &&& (s[19] == '8' || s[19] == '9' || s[19] == 'a' || s[19] == 'b')
}

/// An RFC 3339 UTC timestamp as the `time` crate writes it:
/// `YYYY-MM-DDTHH:MM:SS`, then either nothing or `.` and one to nine digits
/// of the second's fraction, then `Z`.
pub open spec fn rfc3339_utc_shape(s: Seq<char>) -> bool {
    &&& 20 <= s.len() <= 30
    &&& forall|i: int|
        0 <= i < 19 && i != 4 && i != 7 && i != 10 && i != 13 && i != 16 ==> is_decimal_digit(
            #[trigger] s[i],
        )
    &&& s[4] == '-'
    &&& s[7] == '-'
    &&& s[10] == 'T'
    &&& s[13] == ':'
    &&& s[16] == ':'
    &&& s[s.len() - 1] == 'Z'
    &&& (s.len() == 20 || (s.len() >= 22 && s[19] == '.' && forall|i: int|
        20 <= i < s.len() - 1 ==> is_decimal_digit(#[trigger] s[i])))
}

/// `uuid::Uuid::new_v4().to_string()`. Which identifier comes back is a
/// matter of chance; as the crate's code shows (`new_v4` sets the version
/// and variant bits, `Display` writes the hyphenated lower-case form), its
/// text always has the shape `uuid_v4_shape`.
#[verifier::external_body]
fn uuid_v4_text() -> (r: String)
    ensures
        uuid_v4_shape(r@),
{
    uuid::Uuid::new_v4().to_string()
}

/// `time::OffsetDateTime::now_utc().format(&Rfc3339)`, the error turned into
/// its message. The result depends on the clock; as the crate's formatter
/// shows, a success is always text of the shape `rfc3339_utc_shape` (the
/// offset is UTC, written `Z`). Which time, the ranges of its fields, and
/// when formatting fails (a year outside 0–9999) are left unstated.
#[verifier::external_body]
fn now_utc_rfc3339() -> (r: Result<String, String>)
    ensures
        r matches Ok(s) ==> rfc3339_utc_shape(s@),
{
    match time::OffsetDateTime::now_utc().format(&time::format_description::well_known::Rfc3339) {
        Ok(s) => Ok(s),
        Err(e) => Err(e.to_string()),
    }
}

/// A fresh random identifier: the text of a version 4 UUID.
pub fn new_id() -> (r: String)
    ensures
        uuid_v4_shape(r@),
{
    uuid_v4_text()
}

/// The current UTC time as RFC 3339 text (`YYYY-MM-DDTHH:MM:SS`, an optional
/// fraction of the second, `Z`), or the formatting error message.
pub fn now_rfc3339() -> (r: Result<String, String>)
    ensures
        r matches Ok(s) ==> rfc3339_utc_shape(s@),
{
    now_utc_rfc3339()
}

/// A lower-case hexadecimal digit of a value below 16.
pub open spec fn hex_char(d: nat) -> char {
    if d < 10 {
        ((48 + d) as u8) as char
    } else {
        ((87 + d) as u8) as char
    }
}

/// `v` written with exactly `n` lower-case hexadecimal digits (the low
/// `n` digits, most significant first).
pub open spec fn hex_width(v: nat, n: nat) -> Seq<char>
    decreases n,
{
    if n == 0 {
        Seq::empty()
    } else {
        hex_width(v / 16, (n - 1) as nat).push(hex_char(v % 16))
    }
}

/// `16` to the power `n`.
pub open spec fn pow16(n: nat) -> nat
    decreases n,
{
    if n == 0 {
        1
    } else {
        16 * pow16((n - 1) as nat)
    }
}

proof fn lemma_hex_char(d: nat)
    requires
        d < 16,
    ensures
        hex_char(d) as u32 == (if d < 10 {
            48 + d
        } else {
            87 + d
        }),
        is_lower_hex_digit(hex_char(d)),
{
}

/// `hex_width` has `n` lower-case hexadecimal digits.
proof fn lemma_hex_width_digits(v: nat, n: nat)
    ensures
        hex_width(v, n).len() == n,
        forall|i: int| 0 <= i < n ==> is_lower_hex_digit(#[trigger] hex_width(v, n)[i]),
    decreases n,
{
    if n > 0 {
        lemma_hex_width_digits(v / 16, (n - 1) as nat);
        lemma_hex_char(v % 16);
    }
}

/// Two numbers below `16^n` with the same `n` digits are equal.
proof fn lemma_hex_width_injective(v: nat, w: nat, n: nat)
    requires
        v < pow16(n),
        w < pow16(n),
        hex_width(v, n) == hex_width(w, n),
    ensures
        v == w,
    decreases n,
{
    if n > 0 {
        let a = hex_width(v, n);
        let b = hex_width(w, n);
        assert(a.last() == hex_char(v % 16));
        assert(b.last() == hex_char(w % 16));
        lemma_hex_char(v % 16);
        lemma_hex_char(w % 16);
        assert(v % 16 == w % 16);
        assert(a.drop_last() =~= hex_width(v / 16, (n - 1) as nat));
        assert(b.drop_last() =~= hex_width(w / 16, (n - 1) as nat));
        lemma_hex_width_injective(v / 16, w / 16, (n - 1) as nat);
    }
}

/// The `k`-th identifier of the spare family used when a fresh identifier
/// collides: a version 4 UUID text whose 18 free digits are `k` in
/// hexadecimal.
pub open spec fn counter_id(k: nat) -> Seq<char> {
    let h = hex_width(k, 18);
    seq!['0', '0', '0', '0', '0', '0', '0', '0', '-', '0', '0', '0', '0', '-', '4'] + h.subrange(0, 3)
        + seq!['-', '8'] + h.subrange(3, 6) + seq!['-'] + h.subrange(6, 18)
}

proof fn lemma_counter_id_shape(k: nat)
    ensures
        uuid_v4_shape(counter_id(k)),
{
    let h = hex_width(k, 18);
    lemma_hex_width_digits(k, 18);
    let c = counter_id(k);
    assert(c.len() == 36);
    assert forall|i: int|
        0 <= i < 36 implies (if i == 8 || i == 13 || i == 18 || i == 23 {
        c[i] == '-'
    } else {
        is_lower_hex_digit(#[trigger] c[i])
    }) by {
        if 15 <= i < 18 {
            assert(c[i] == h[i - 15]);
        } else if 20 <= i < 23 {
            assert(c[i] == h[i - 17]);
        } else if 24 <= i < 36 {
            assert(c[i] == h[i - 18]);
        }
    }
}

proof fn lemma_pow16_18()
    ensures
        pow16(18) > 0xFFFF_FFFF_FFFF_FFFF,
{
    reveal_with_fuel(pow16, 19);
}

/// Different numbers of the spare family give different identifiers.
proof fn lemma_counter_id_injective(a: nat, b: nat)
    requires
        a <= 0xFFFF_FFFF_FFFF_FFFF,
        b <= 0xFFFF_FFFF_FFFF_FFFF,
        counter_id(a) == counter_id(b),
    ensures
        a == b,
{
    let ha = hex_width(a, 18);
    let hb = hex_width(b, 18);
    lemma_hex_width_digits(a, 18);
    lemma_hex_width_digits(b, 18);
    let ca = counter_id(a);
    let cb = counter_id(b);
    assert forall|j: int| 0 <= j < 18 implies ha[j] == hb[j] by {
        if j < 3 {
            assert(ca[15 + j] == ha[j] && cb[15 + j] == hb[j]);
        } else if j < 6 {
            assert(ca[17 + j] == ha[j] && cb[17 + j] == hb[j]);
        } else {
            assert(ca[18 + j] == ha[j] && cb[18 + j] == hb[j]);
        }
    }
    assert(ha =~= hb);
    lemma_pow16_18();
    lemma_hex_width_injective(a, b, 18);
}

/// A list of `m` identifiers cannot hold `n > m` different members of the
/// spare family.
proof fn lemma_spare_ids_do_not_fit(taken: Seq<String>, n: nat)
    requires
        n <= 0x1_0000_0000_0000_0000,
        forall|k: nat| k < n ==> listed(taken, #[trigger] counter_id(k)),
    ensures
        n <= taken.len(),
    decreases n,
{
    if n > 0 {
        let last: nat = (n - 1) as nat;
        assert(listed(taken, counter_id(last)));
        let j: int = choose|j: int| 0 <= j < taken.len() && #[trigger] taken[j]@ == counter_id(last);
        let rest = taken.remove(j);
        assert forall|k: nat| k < last implies listed(rest, #[trigger] counter_id(k)) by {
            assert(listed(taken, counter_id(k)));
            let m: int = choose|m: int| 0 <= m < taken.len() && #[trigger] taken[m]@ == counter_id(k);
            if m == j {
                lemma_counter_id_injective(k, last);
            }
            if m < j {
                assert(rest[m] == taken[m]);
            } else {
                assert(rest[m - 1] == taken[m]);
            }
        }
        lemma_spare_ids_do_not_fit(rest, last);
    }
}

fn hex_chars(v: u64, n: u64) -> (r: Vec<char>)
    ensures
        r@ == hex_width(v as nat, n as nat),
    decreases n,
{
    if n == 0 {
        Vec::new()
    } else {
        let mut r = hex_chars(v / 16, n - 1);
        let d: u64 = v % 16;
        let c = if d < 10 {
            ((48 + d) as u8) as char
        } else {
            ((87 + d) as u8) as char
        };
        r.push(c);
        r
    }
}

fn counter_text(k: u64) -> (r: String)
    ensures
        r@ == counter_id(k as nat),
{
    let h = hex_chars(k, 18);
    proof {
        lemma_hex_width_digits(k as nat, 18);
    }
    let mut cs: Vec<char> = Vec::new();
    let mut i: usize = 0;
    while i < 8
        invariant
            i <= 8,
            cs@ == Seq::new(i as nat, |j: int| '0'),
        decreases 8 - i,
    {
        cs.push('0');
        i = i + 1;
        assert(cs@ =~= Seq::new(i as nat, |j: int| '0'));
    }
    cs.push('-');
    cs.push('0');
    cs.push('0');
    cs.push('0');
    cs.push('0');
    cs.push('-');
    cs.push('4');
    cs.push(h[0]);
    cs.push(h[1]);
    cs.push(h[2]);
    cs.push('-');
    cs.push('8');
    cs.push(h[3]);
    cs.push(h[4]);
    cs.push(h[5]);
    cs.push('-');
    let mut j: usize = 6;
    while j < 18
        invariant
            6 <= j <= 18,
            h@.len() == 18,
            cs@.len() == 18 + j,
            forall|p: int| 0 <= p < 24 ==> #[trigger] cs@[p] == counter_id(k as nat)[p],
            forall|p: int| 6 <= p < j ==> #[trigger] cs@[18 + p] == h@[p],
        decreases 18 - j,
    {
        let ghost before = cs@;
        cs.push(h[j]);
        assert forall|p: int| 0 <= p < 24 implies #[trigger] cs@[p] == counter_id(k as nat)[p] by {
            assert(cs@[p] == before[p]);
        }
        assert forall|p: int| 6 <= p < j + 1 implies #[trigger] cs@[18 + p] == h@[p] by {
            if p < j {
                assert(cs@[18 + p] == before[18 + p]);
            }
        }
        j = j + 1;
    }
    assert(cs@ =~= counter_id(k as nat)) by {
        assert forall|p: int| 24 <= p < 36 implies cs@[p] == counter_id(k as nat)[p] by {
            assert(cs@[18 + (p - 18)] == h@[p - 18]);
        }
    }
    string_of_range(cs.as_slice(), 0, 36)
}

/// A fresh identifier (the text of a version 4 UUID) that is none of
/// `taken`: a new random one, or, should it collide, the first member of
/// a spare family of UUID texts that is not taken.
pub fn fresh_id_avoiding(taken: &Vec<String>) -> (r: String)
    ensures
        uuid_v4_shape(r@),
        !listed(taken@, r@),
{
    let c = new_id();
    if !is_listed(taken, c.as_str()) {
        return c;
    }
    let n: usize = taken.len();
    let mut k: usize = 0;
    loop
        invariant
            k <= n,
            n == taken@.len(),
            forall|j: nat| j < k ==> listed(taken@, #[trigger] counter_id(j)),
        decreases n - k,
    {
        let cand = counter_text(k as u64);
        if !is_listed(taken, cand.as_str()) {
            proof {
                lemma_counter_id_shape(k as nat);
            }
            return cand;
        }
        proof {
            assert forall|j: nat| j < k + 1 implies listed(taken@, #[trigger] counter_id(j)) by {
                if j == k {
                    assert(cand@ == counter_id(j));
                }
            }
            if k == n {
                lemma_spare_ids_do_not_fit(taken@, (k + 1) as nat);
            }
        }
        k = k + 1;
    }
}

} // verus!
