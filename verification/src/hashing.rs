//! Change detection: a 64-bit content hash over the manifest and the five
//! module files, compared against a prior hash persisted as decimal text in a
//! sidecar state file.
use vstd::prelude::*;

use crate::bytes::{is_digit_byte, rskip_ws, skip_ws, spec_trim, trim_bytes};

verus! {

pub const FNV_OFFSET: u64 = 0xcbf29ce484222325;

pub const FNV_PRIME: u64 = 0x100000001b3;

/// The 64-bit FNV-1a hash of `s`, continued from state `h`.
pub open spec fn fnv1a_from(s: Seq<u8>, h: u64) -> u64
    decreases s.len(),
{
    if s.len() == 0 {
        h
    } else {
        fnv1a_from(s.skip(1), (h ^ (s[0] as u64)).wrapping_mul(FNV_PRIME))
    }
}

/// The 64-bit FNV-1a hash of `s`.
pub open spec fn fnv1a(s: Seq<u8>) -> u64 {
    fnv1a_from(s, FNV_OFFSET)
}

/// The concatenation of all parts from index `i` on, in order.
pub open spec fn concat_from(parts: Seq<Seq<u8>>, i: int) -> Seq<u8>
    decreases parts.len() - i when 0 <= i <= parts.len()
{
    if i >= parts.len() {
        Seq::empty()
    } else {
        parts[i] + concat_from(parts, i + 1)
    }
}

/// The combined content hash: FNV-1a over the concatenation of all parts in
/// the given order.
pub open spec fn spec_content_hash(parts: Seq<Seq<u8>>) -> u64 {
    fnv1a(concat_from(parts, 0))
}

proof fn lemma_fnv_append(a: Seq<u8>, b: Seq<u8>, h: u64)
    ensures
        fnv1a_from(a + b, h) == fnv1a_from(b, fnv1a_from(a, h)),
    decreases a.len(),
{
    if a.len() == 0 {
        assert(a + b =~= b);
    } else {
        assert((a + b).skip(1) =~= a.skip(1) + b);
        lemma_fnv_append(a.skip(1), b, (h ^ (a[0] as u64)).wrapping_mul(FNV_PRIME));
    }
}

fn fnv_feed(s: &Vec<u8>, h: u64) -> (r: u64)
    ensures
        r == fnv1a_from(s@, h),
{
    let mut acc = h;
    let mut i: usize = 0;
    proof {
        assert(s@.skip(0) =~= s@);
    }
    while i < s.len()
        invariant
            i <= s@.len(),
            fnv1a_from(s@, h) == fnv1a_from(s@.skip(i as int), acc),
        decreases s@.len() - i,
    {
        proof {
            assert(s@.skip(i as int).skip(1) =~= s@.skip(i + 1));
            assert(s@.skip(i as int)[0] == s@[i as int]);
        }
        acc = (acc ^ (s[i] as u64)).wrapping_mul(FNV_PRIME);
        i += 1;
    }
    proof {
        assert(s@.skip(s@.len() as int) =~= Seq::<u8>::empty());
    }
    acc
}

/// The combined content hash of the given parts, in order.
pub fn content_hash(parts: &Vec<Vec<u8>>) -> (r: u64)
    ensures
        r == spec_content_hash(parts.deep_view()),
{
    let ghost dv = parts.deep_view();
    let mut h: u64 = FNV_OFFSET;
    let mut i: usize = 0;
    while i < parts.len()
        invariant
            dv == parts.deep_view(),
            dv.len() == parts@.len(),
            forall|k: int| 0 <= k < dv.len() ==> dv[k] == #[trigger] parts@[k]@,
            i <= parts@.len(),
            fnv1a_from(concat_from(dv, i as int), h) == spec_content_hash(dv),
        decreases parts@.len() - i,
    {
        proof {
            lemma_fnv_append(dv[i as int], concat_from(dv, i + 1), h);
        }
        h = fnv_feed(&parts[i], h);
        i += 1;
    }
    h
}

/// Left-to-right decimal accumulation with an overflow check, mirroring how a
/// decimal `u64` literal is read: `None` on a non-digit or on overflow.
pub open spec fn parse_digits(s: Seq<u8>, acc: u64) -> Option<u64>
    decreases s.len(),
{
    if s.len() == 0 {
        Some(acc)
    } else if !is_digit_byte(s[0]) {
        None
    } else if acc as nat * 10 + (s[0] - 48) as nat > u64::MAX as nat {
        None
    } else {
        parse_digits(s.skip(1), (acc * 10 + (s[0] - 48) as u64) as u64)
    }
}

/// A decimal `u64`: optional leading `+`, then one or more digits, no
/// overflow. Anything else is unparsable.
pub open spec fn spec_parse_u64(s: Seq<u8>) -> Option<u64> {
    let body = if s.len() > 0 && s[0] == 43 {
        s.skip(1)
    } else {
        s
    };
    if body.len() == 0 {
        None
    } else {
        parse_digits(body, 0)
    }
}

/// The prior hash recorded in the sidecar state file: its trimmed text read
/// as a decimal `u64`, or `0` when missing or unparsable.
pub open spec fn spec_prior_hash(text: Seq<u8>) -> u64 {
    match spec_parse_u64(spec_trim(text)) {
        Some(v) => v,
        None => 0,
    }
}

pub fn prior_hash(text: &Vec<u8>) -> (r: u64)
    ensures
        r == spec_prior_hash(text@),
{
    let body = trim_bytes(text);
    let ghost trimmed = body@;
    let mut i: usize = 0;
    if body.len() > 0 && body[0] == 43 {
        i = 1;
    }
    if i >= body.len() {
        return 0;
    }
    let ghost digits = if trimmed.len() > 0 && trimmed[0] == 43 {
        trimmed.skip(1)
    } else {
        trimmed
    };
    proof {
        assert(digits =~= trimmed.skip(i as int));
    }
    let mut acc: u64 = 0;
    let mut k = i;
    while k < body.len()
        invariant
            i <= k <= body@.len(),
            body@ == trimmed,
            trimmed == spec_trim(text@),
            digits == trimmed.skip(i as int),
            digits == (if trimmed.len() > 0 && trimmed[0] == 43 {
                trimmed.skip(1)
            } else {
                trimmed
            }),
            digits.len() > 0,
            parse_digits(digits, 0) == parse_digits(trimmed.skip(k as int), acc),
        decreases body@.len() - k,
    {
        proof {
            assert(trimmed.skip(k as int)[0] == trimmed[k as int]);
        }
        let b = body[k];
        if b < 48 || b > 57 {
            proof {
                assert(parse_digits(trimmed.skip(k as int), acc) == None::<u64>);
                assert(spec_parse_u64(trimmed) == None::<u64>);
            }
            return 0;
        }
        let d = (b - 48) as u64;
        if acc > (0xffffffffffffffff - d) / 10 {
            proof {
                assert(acc as nat * 10 + d as nat > u64::MAX as nat) by (nonlinear_arith)
                    requires
                        acc as nat > ((u64::MAX - d) as nat) / 10,
                        d < 10,
                ;
                assert(parse_digits(trimmed.skip(k as int), acc) == None::<u64>);
                assert(spec_parse_u64(trimmed) == None::<u64>);
            }
            return 0;
        }
        proof {
            assert(acc as nat * 10 + d as nat <= u64::MAX as nat) by (nonlinear_arith)
                requires
                    acc as nat <= ((u64::MAX - d) as nat) / 10,
                    d < 10,
            ;
            assert(trimmed.skip(k as int).skip(1) =~= trimmed.skip(k + 1));
        }
        acc = acc * 10 + d;
        k += 1;
    }
    proof {
        assert(trimmed.skip(trimmed.len() as int) =~= Seq::<u8>::empty());
    }
    acc
}

/// Compares the fresh combined hash of the tracked contents against the
/// prior recorded hash: returns `(unchanged, hash)` exactly as the change
/// detector reports them. The sidecar file is to be rewritten only when
/// `unchanged` is false.
pub fn detect_change(parts: &Vec<Vec<u8>>, prior_text: &Vec<u8>) -> (r: (bool, u64))
    ensures
        r.1 == spec_content_hash(parts.deep_view()),
        r.0 == (spec_prior_hash(prior_text@) == spec_content_hash(parts.deep_view())),
{
    let fresh = content_hash(parts);
    let old_hash = prior_hash(prior_text);
    (old_hash == fresh, fresh)
}

/// The decimal text of `h`, most significant digit first.
pub open spec fn spec_u64_dec(h: u64) -> Seq<u8>
    decreases h,
{
    if h < 10 {
        seq![(48 + h) as u8]
    } else {
        spec_u64_dec(h / 10).push((48 + h % 10) as u8)
    }
}

/// The decimal text written to the sidecar state file for hash `h`.
pub fn hash_text(h: u64) -> (r: Vec<u8>)
    ensures
        r@ == spec_u64_dec(h),
    decreases h,
{
    if h < 10 {
        let mut v: Vec<u8> = Vec::new();
        v.push((48 + h) as u8);
        proof {
            assert(v@ =~= seq![(48 + h) as u8]);
        }
        v
    } else {
        let mut v = hash_text(h / 10);
        v.push((48 + h % 10) as u8);
        v
    }
}

proof fn lemma_dec_digits(h: u64)
    ensures
        spec_u64_dec(h).len() >= 1,
        forall|i: int| 0 <= i < spec_u64_dec(h).len() ==> is_digit_byte(#[trigger] spec_u64_dec(
            h,
        )[i]),
    decreases h,
{
    if h >= 10 {
        lemma_dec_digits(h / 10);
    }
}

/// Left-to-right unbounded decimal value of a digit sequence.
spec fn lval(s: Seq<u8>, acc: nat) -> nat
    decreases s.len(),
{
    if s.len() == 0 {
        acc
    } else {
        lval(s.skip(1), acc * 10 + (s[0] - 48) as nat)
    }
}

proof fn lemma_lval_mono(s: Seq<u8>, acc: nat)
    ensures
        lval(s, acc) >= acc,
    decreases s.len(),
{
    if s.len() > 0 {
        lemma_lval_mono(s.skip(1), acc * 10 + (s[0] - 48) as nat);
        assert(acc * 10 >= acc) by (nonlinear_arith);
    }
}

proof fn lemma_parse_digits_lval(s: Seq<u8>, acc: u64)
    requires
        forall|i: int| 0 <= i < s.len() ==> is_digit_byte(#[trigger] s[i]),
    ensures
        parse_digits(s, acc) == if lval(s, acc as nat) <= u64::MAX as nat {
            Some(lval(s, acc as nat) as u64)
        } else {
            None::<u64>
        },
    decreases s.len(),
{
    if s.len() > 0 {
        let step = acc as nat * 10 + (s[0] - 48) as nat;
        if step > u64::MAX as nat {
            lemma_lval_mono(s.skip(1), step);
        } else {
            lemma_parse_digits_lval(s.skip(1), (acc * 10 + (s[0] - 48) as u64) as u64);
        }
    }
}

proof fn lemma_lval_push(s: Seq<u8>, d: u8, acc: nat)
    ensures
        lval(s.push(d), acc) == lval(s, acc) * 10 + (d - 48) as nat,
    decreases s.len(),
{
    reveal_with_fuel(lval, 3);
    assert(s.push(d)[0] == if s.len() == 0 {
        d
    } else {
        s[0]
    });
    if s.len() == 0 {
        assert(s.push(d).skip(1) =~= Seq::<u8>::empty());
    } else {
        assert(s.push(d).skip(1) =~= s.skip(1).push(d));
        lemma_lval_push(s.skip(1), d, acc * 10 + (s[0] - 48) as nat);
    }
}

proof fn lemma_dec_lval(h: u64)
    ensures
        lval(spec_u64_dec(h), 0) == h,
    decreases h,
{
    reveal_with_fuel(lval, 3);
    if h < 10 {
        assert(seq![(48 + h) as u8].skip(1) =~= Seq::<u8>::empty());
    } else {
        lemma_dec_lval(h / 10);
        lemma_lval_push(spec_u64_dec(h / 10), (48 + h % 10) as u8, 0);
    }
}

/// The decimal text of a hash reads back as that hash: the sidecar text
/// written after a run yields the same prior value on the next run.
pub proof fn lemma_hash_text_roundtrip(h: u64)
    ensures
        spec_prior_hash(spec_u64_dec(h)) == h,
{
    let s = spec_u64_dec(h);
    lemma_dec_digits(h);
    assert(skip_ws(s, 0) == 0);
    assert(rskip_ws(s, s.len() as int) == s.len() as int);
    assert(spec_trim(s) =~= s);
    lemma_parse_digits_lval(s, 0);
    lemma_dec_lval(h);
}

/// Hash stability: a second run over unmodified tracked contents, reading the
/// sidecar text the first run left behind, reports the content as unchanged,
/// so the sidecar file is not rewritten.
pub proof fn lemma_change_detection_stable(parts: Seq<Seq<u8>>)
    ensures
        spec_prior_hash(spec_u64_dec(spec_content_hash(parts))) == spec_content_hash(parts),
{
    lemma_hash_text_roundtrip(spec_content_hash(parts));
}


const FNV_PRIME_INV: u64 = 0xce965057aff6957b;

proof fn lemma_mul_prime_cancel(z: u64)
    ensures
        z.wrapping_mul(FNV_PRIME).wrapping_mul(FNV_PRIME_INV) == z,
{
    let m: int = 0x10000000000000000;
    let p: int = FNV_PRIME as int;
    let q: int = FNV_PRIME_INV as int;
    let zi: int = z as int;
    let w1: int = z.wrapping_mul(FNV_PRIME) as int;
    assert(w1 == (zi * p) % m);
    vstd::arithmetic::div_mod::lemma_mul_mod_noop_left(zi * p, q, m);
    vstd::arithmetic::mul::lemma_mul_is_associative(zi, p, q);
    vstd::arithmetic::div_mod::lemma_mul_mod_noop_right(zi, p * q, m);
    assert((p * q) % m == 1);
    assert(z.wrapping_mul(FNV_PRIME).wrapping_mul(FNV_PRIME_INV) as int == (w1 * q) % m);
    assert((w1 * q) % m == zi);
}

proof fn lemma_mul_prime_injective(x: u64, y: u64)
    requires
        x != y,
    ensures
        x.wrapping_mul(FNV_PRIME) != y.wrapping_mul(FNV_PRIME),
{
    if x.wrapping_mul(FNV_PRIME) == y.wrapping_mul(FNV_PRIME) {
        lemma_mul_prime_cancel(x);
        lemma_mul_prime_cancel(y);
    }
}

proof fn lemma_xor_left_diff(h1: u64, h2: u64, c: u64)
    requires
        h1 != h2,
    ensures
        h1 ^ c != h2 ^ c,
{
    assert(h1 != h2 ==> h1 ^ c != h2 ^ c) by (bit_vector);
}

proof fn lemma_xor_right_diff(h: u64, c1: u64, c2: u64)
    requires
        c1 != c2,
    ensures
        h ^ c1 != h ^ c2,
{
    assert(c1 != c2 ==> h ^ c1 != h ^ c2) by (bit_vector);
}

proof fn lemma_fnv_from_injective(s: Seq<u8>, h1: u64, h2: u64)
    requires
        h1 != h2,
    ensures
        fnv1a_from(s, h1) != fnv1a_from(s, h2),
    decreases s.len(),
{
    if s.len() > 0 {
        let c = s[0] as u64;
        lemma_xor_left_diff(h1, h2, c);
        lemma_mul_prime_injective(h1 ^ c, h2 ^ c);
        lemma_fnv_from_injective(
            s.skip(1),
            (h1 ^ c).wrapping_mul(FNV_PRIME),
            (h2 ^ c).wrapping_mul(FNV_PRIME),
        );
    }
}

proof fn lemma_fnv_single_diff(s1: Seq<u8>, s2: Seq<u8>, h: u64, d: int)
    requires
        s1.len() == s2.len(),
        0 <= d < s1.len(),
        s1[d] != s2[d],
        forall|k: int| 0 <= k < s1.len() && k != d ==> s1[k] == s2[k],
    ensures
        fnv1a_from(s1, h) != fnv1a_from(s2, h),
    decreases d,
{
    if d == 0 {
        let c1 = s1[0] as u64;
        let c2 = s2[0] as u64;
        lemma_xor_right_diff(h, c1, c2);
        lemma_mul_prime_injective(h ^ c1, h ^ c2);
        assert(s1.skip(1) =~= s2.skip(1));
        lemma_fnv_from_injective(
            s1.skip(1),
            (h ^ c1).wrapping_mul(FNV_PRIME),
            (h ^ c2).wrapping_mul(FNV_PRIME),
        );
    } else {
        assert(s1[0] == s2[0]);
        assert forall|k: int|
            0 <= k < s1.skip(1).len() && k != d - 1 implies s1.skip(1)[k] == s2.skip(
            1,
        )[k] by {
            assert(s1.skip(1)[k] == s1[k + 1]);
            assert(s2.skip(1)[k] == s2[k + 1]);
        }
        assert(s1.skip(1)[d - 1] == s1[d]);
        assert(s2.skip(1)[d - 1] == s2[d]);
        lemma_fnv_single_diff(
            s1.skip(1),
            s2.skip(1),
            (h ^ (s1[0] as u64)).wrapping_mul(FNV_PRIME),
            d - 1,
        );
    }
}

proof fn lemma_concat_from_equal(p1: Seq<Seq<u8>>, p2: Seq<Seq<u8>>, k: int)
    requires
        p1.len() == p2.len(),
        0 <= k <= p1.len(),
        forall|m: int| k <= m < p1.len() ==> p1[m] == p2[m],
    ensures
        concat_from(p1, k) == concat_from(p2, k),
    decreases p1.len() - k,
{
    if k < p1.len() {
        lemma_concat_from_equal(p1, p2, k + 1);
    }
}

proof fn lemma_content_diff(
    p1: Seq<Seq<u8>>,
    p2: Seq<Seq<u8>>,
    i: int,
    j: int,
    k: int,
    h: u64,
)
    requires
        p1.len() == p2.len(),
        0 <= i < p1.len(),
        forall|m: int| 0 <= m < p1.len() && m != i ==> p1[m] == p2[m],
        p1[i].len() == p2[i].len(),
        0 <= j < p1[i].len(),
        p1[i][j] != p2[i][j],
        forall|m: int| 0 <= m < p1[i].len() && m != j ==> p1[i][m] == p2[i][m],
        0 <= k <= i,
    ensures
        fnv1a_from(concat_from(p1, k), h) != fnv1a_from(concat_from(p2, k), h),
    decreases i - k,
{
    if k == i {
        lemma_concat_from_equal(p1, p2, i + 1);
        let rest = concat_from(p1, i + 1);
        lemma_fnv_append(p1[i], rest, h);
        lemma_fnv_append(p2[i], rest, h);
        lemma_fnv_single_diff(p1[i], p2[i], h, j);
        lemma_fnv_from_injective(rest, fnv1a_from(p1[i], h), fnv1a_from(p2[i], h));
    } else {
        lemma_fnv_append(p1[k], concat_from(p1, k + 1), h);
        lemma_fnv_append(p2[k], concat_from(p2, k + 1), h);
        lemma_content_diff(p1, p2, i, j, k + 1, fnv1a_from(p1[k], h));
    }
}

/// Hash sensitivity: substituting a single byte anywhere in any one of the
/// tracked parts always changes the combined content hash. Each FNV-1a step
/// is injective in the running state -- the xor keeps distinct states
/// distinct, and multiplication by the odd prime is invertible -- so two
/// same-length byte texts differing in one position never collide.
pub proof fn lemma_hash_sensitivity(parts1: Seq<Seq<u8>>, parts2: Seq<Seq<u8>>, i: int, j: int)
    requires
        parts1.len() == parts2.len(),
        0 <= i < parts1.len(),
        forall|m: int| 0 <= m < parts1.len() && m != i ==> parts1[m] == parts2[m],
        parts1[i].len() == parts2[i].len(),
        0 <= j < parts1[i].len(),
        parts1[i][j] != parts2[i][j],
        forall|m: int| 0 <= m < parts1[i].len() && m != j ==> parts1[i][m] == parts2[i][m],
    ensures
        spec_content_hash(parts1) != spec_content_hash(parts2),
{
    lemma_content_diff(parts1, parts2, i, j, 0, FNV_OFFSET);
}

} // verus!
