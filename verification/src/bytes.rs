//! Byte-level text helpers: character classes, literal matching, whitespace
//! runs, substring extraction and placeholder replacement. All module files
//! and the manifest are treated as byte text.
use vstd::prelude::*;

verus! {

/// A word byte: an ASCII letter, digit or underscore.
pub open spec fn is_word_byte(b: u8) -> bool {
    b == 95 || (48 <= b && b <= 57) || (65 <= b && b <= 90) || (97 <= b && b <= 122)
}

/// An ASCII whitespace byte: space, tab, line feed, vertical tab, form feed
/// or carriage return.
pub open spec fn is_space_byte(b: u8) -> bool {
    b == 32 || b == 9 || b == 10 || b == 11 || b == 12 || b == 13
}

/// An ASCII decimal digit.
pub open spec fn is_digit_byte(b: u8) -> bool {
    48 <= b && b <= 57
}

/// The characters of an ASCII byte sequence.
pub open spec fn ascii_view(s: Seq<u8>) -> Seq<char> {
    s.map(|_i: int, b: u8| b as char)
}

/// All bytes of the sequence are ASCII.
pub open spec fn all_ascii(s: Seq<u8>) -> bool {
    forall|i: int| 0 <= i < s.len() ==> s[i] < 128
}

pub fn word_byte(b: u8) -> (r: bool)
    ensures
        r == is_word_byte(b),
{
    b == 95 || (48 <= b && b <= 57) || (65 <= b && b <= 90) || (97 <= b && b <= 122)
}

pub fn space_byte(b: u8) -> (r: bool)
    ensures
        r == is_space_byte(b),
{
    b == 32 || b == 9 || b == 10 || b == 11 || b == 12 || b == 13
}

/// The literal `pat` occurs in `t` starting at index `i`.
pub open spec fn matches_at(t: Seq<u8>, i: int, pat: Seq<u8>) -> bool {
    &&& 0 <= i
    &&& i + pat.len() <= t.len()
    &&& t.subrange(i, i + pat.len() as int) == pat
}

pub fn match_at(t: &Vec<u8>, i: usize, pat: &Vec<u8>) -> (r: bool)
    requires
        i <= t@.len(),
    ensures
        r == matches_at(t@, i as int, pat@),
{
    if t.len() - i < pat.len() {
        return false;
    }
    let n = t.len();
    let mut j: usize = 0;
    while j < pat.len()
        invariant
            n == t@.len(),
            i + pat@.len() <= n,
            j <= pat@.len(),
            forall|k: int| 0 <= k < j ==> t@[i + k] == pat@[k],
        decreases pat@.len() - j,
    {
        if t[i + j] != pat[j] {
            proof {
                assert(t@.subrange(i as int, i + pat@.len() as int)[j as int] != pat@[j as int]);
            }
            return false;
        }
        j += 1;
    }
    proof {
        assert(t@.subrange(i as int, i + pat@.len() as int) =~= pat@);
    }
    true
}

/// The two byte vectors hold the same bytes.
pub fn bytes_eq(a: &Vec<u8>, b: &Vec<u8>) -> (r: bool)
    ensures
        r == (a@ == b@),
{
    if a.len() != b.len() {
        return false;
    }
    let r = match_at(a, 0, b);
    proof {
        assert(a@.subrange(0, a@.len() as int) =~= a@);
    }
    r
}

/// The first index at or after `i` that does not hold a whitespace byte.
pub open spec fn skip_ws(t: Seq<u8>, i: int) -> int
    decreases t.len() - i when 0 <= i <= t.len()
{
    if i < t.len() && is_space_byte(t[i]) {
        skip_ws(t, i + 1)
    } else {
        i
    }
}

pub proof fn lemma_skip_ws_range(t: Seq<u8>, i: int)
    requires
        0 <= i <= t.len(),
    ensures
        i <= skip_ws(t, i) <= t.len(),
    decreases t.len() - i,
{
    if i < t.len() && is_space_byte(t[i]) {
        lemma_skip_ws_range(t, i + 1);
    }
}

pub fn ws_end(t: &Vec<u8>, i: usize) -> (r: usize)
    requires
        i <= t@.len(),
    ensures
        r == skip_ws(t@, i as int),
        i <= r <= t@.len(),
{
    let mut j = i;
    while j < t.len() && space_byte(t[j])
        invariant
            i <= j <= t@.len(),
            skip_ws(t@, i as int) == skip_ws(t@, j as int),
        decreases t@.len() - j,
    {
        j += 1;
    }
    j
}

/// The end of the word-byte run starting at `i`.
pub open spec fn word_end(t: Seq<u8>, i: int) -> int
    decreases t.len() - i when 0 <= i <= t.len()
{
    if i < t.len() && is_word_byte(t[i]) {
        word_end(t, i + 1)
    } else {
        i
    }
}

pub proof fn lemma_word_end_range(t: Seq<u8>, i: int)
    requires
        0 <= i <= t.len(),
    ensures
        i <= word_end(t, i) <= t.len(),
    decreases t.len() - i,
{
    if i < t.len() && is_word_byte(t[i]) {
        lemma_word_end_range(t, i + 1);
    }
}

pub proof fn lemma_word_run(t: Seq<u8>, i: int)
    requires
        0 <= i <= t.len(),
    ensures
        forall|j: int| i <= j < word_end(t, i) ==> is_word_byte(#[trigger] t[j]),
    decreases t.len() - i,
{
    lemma_word_end_range(t, i);
    if i < t.len() && is_word_byte(t[i]) {
        lemma_word_run(t, i + 1);
    }
}

pub fn word_run_end(t: &Vec<u8>, i: usize) -> (r: usize)
    requires
        i <= t@.len(),
    ensures
        r == word_end(t@, i as int),
        i <= r <= t@.len(),
{
    let mut j = i;
    while j < t.len() && word_byte(t[j])
        invariant
            i <= j <= t@.len(),
            word_end(t@, i as int) == word_end(t@, j as int),
        decreases t@.len() - j,
    {
        j += 1;
    }
    j
}

/// A copy of `t[i..j]`.
pub fn sub_bytes(t: &Vec<u8>, i: usize, j: usize) -> (r: Vec<u8>)
    requires
        i <= j <= t@.len(),
    ensures
        r@ == t@.subrange(i as int, j as int),
{
    let mut out: Vec<u8> = Vec::new();
    let mut k = i;
    while k < j
        invariant
            i <= k <= j <= t@.len(),
            out@ == t@.subrange(i as int, k as int),
        decreases j - k,
    {
        out.push(t[k]);
        proof {
            assert(t@.subrange(i as int, k + 1) =~= t@.subrange(i as int, k as int).push(
                t@[k as int],
            ));
        }
        k += 1;
    }
    out
}

pub fn append_bytes(out: &mut Vec<u8>, addition: &Vec<u8>)
    ensures
        final(out)@ == old(out)@ + addition@,
{
    let mut k: usize = 0;
    while k < addition.len()
        invariant
            k <= addition@.len(),
            out@ == old(out)@ + addition@.subrange(0, k as int),
        decreases addition@.len() - k,
    {
        out.push(addition[k]);
        proof {
            assert(addition@.subrange(0, k + 1) =~= addition@.subrange(0, k as int).push(
                addition@[k as int],
            ));
            assert(old(out)@ + addition@.subrange(0, k + 1) =~= (old(out)@ + addition@.subrange(
                0,
                k as int,
            )).push(addition@[k as int]));
        }
        k += 1;
    }
    proof {
        assert(addition@.subrange(0, addition@.len() as int) =~= addition@);
    }
}

/// The index after which only trailing whitespace follows.
pub open spec fn rskip_ws(t: Seq<u8>, j: int) -> int
    decreases j when 0 <= j <= t.len()
{
    if j > 0 && is_space_byte(t[j - 1]) {
        rskip_ws(t, j - 1)
    } else {
        j
    }
}

/// `t` with leading and trailing ASCII whitespace removed.
pub open spec fn spec_trim(t: Seq<u8>) -> Seq<u8> {
    let a = skip_ws(t, 0);
    let b = rskip_ws(t, t.len() as int);
    if a <= b {
        t.subrange(a, b)
    } else {
        Seq::empty()
    }
}

pub fn trim_bytes(t: &Vec<u8>) -> (r: Vec<u8>)
    ensures
        r@ == spec_trim(t@),
{
    let a = crate::bytes::ws_end(t, 0);
    let mut b = t.len();
    while b > 0 && space_byte(t[b - 1])
        invariant
            b <= t@.len(),
            rskip_ws(t@, t@.len() as int) == rskip_ws(t@, b as int),
        decreases b,
    {
        b -= 1;
    }
    if a <= b {
        crate::bytes::sub_bytes(t, a, b)
    } else {
        Vec::new()
    }
}

/// The view of an optional byte vector.
pub open spec fn opt_bytes_view(o: Option<Vec<u8>>) -> Option<Seq<u8>> {
    match o {
        Some(v) => Some(v@),
        None => None,
    }
}

/// A copy of `v`.
pub fn copy_bytes(v: &Vec<u8>) -> (r: Vec<u8>)
    ensures
        r@ == v@,
{
    let r = sub_bytes(v, 0, v.len());
    proof {
        assert(v@.subrange(0, v@.len() as int) =~= v@);
    }
    r
}

/// A copy of the optional byte vector.
pub fn copy_opt_bytes(o: &Option<Vec<u8>>) -> (r: Option<Vec<u8>>)
    ensures
        opt_bytes_view(r) == opt_bytes_view(*o),
{
    match o {
        Some(v) => Some(copy_bytes(v)),
        None => None,
    }
}

/// Relies on `String::from_utf8`: bytes below 128 are ASCII, hence valid
/// UTF-8, and each such byte decodes to the single char with the same code
/// point, so the call cannot fail on the admitted inputs.
#[verifier::external_body]
pub fn ascii_string(bytes: &Vec<u8>) -> (r: String)
    requires
        all_ascii(bytes@),
    ensures
        r@ == ascii_view(bytes@),
{
    String::from_utf8(bytes.clone()).unwrap()
}

/// Every occurrence of `pat` in `t[i..]`, scanned left to right without
/// overlap, replaced by `sub`.
pub open spec fn spec_replace_from(t: Seq<u8>, pat: Seq<u8>, sub: Seq<u8>, i: int) -> Seq<u8>
    decreases t.len() - i when 0 <= i <= t.len() && pat.len() > 0
{
    if i >= t.len() {
        Seq::empty()
    } else if matches_at(t, i, pat) {
        sub + spec_replace_from(t, pat, sub, i + pat.len() as int)
    } else {
        seq![t[i]] + spec_replace_from(t, pat, sub, i + 1)
    }
}

/// Every occurrence of `pat` in `t` replaced by `sub`; `t` itself when the
/// pattern is empty.
pub open spec fn spec_replace(t: Seq<u8>, pat: Seq<u8>, sub: Seq<u8>) -> Seq<u8> {
    if pat.len() == 0 {
        t
    } else {
        spec_replace_from(t, pat, sub, 0)
    }
}

pub fn replace_all(t: &Vec<u8>, pat: &Vec<u8>, sub: &Vec<u8>) -> (r: Vec<u8>)
    ensures
        r@ == spec_replace(t@, pat@, sub@),
{
    if pat.len() == 0 {
        let r = sub_bytes(t, 0, t.len());
        proof {
            assert(t@.subrange(0, t@.len() as int) =~= t@);
        }
        return r;
    }
    let mut out: Vec<u8> = Vec::new();
    let mut i: usize = 0;
    while i < t.len()
        invariant
            pat@.len() > 0,
            i <= t@.len(),
            out@ + spec_replace_from(t@, pat@, sub@, i as int) == spec_replace_from(
                t@,
                pat@,
                sub@,
                0,
            ),
        decreases t@.len() - i,
    {
        let ghost out0 = out@;
        if match_at(t, i, pat) {
            append_bytes(&mut out, sub);
            proof {
                let rest = spec_replace_from(t@, pat@, sub@, i + pat@.len());
                assert(out0 + (sub@ + rest) =~= (out0 + sub@) + rest);
            }
            i += pat.len();
        } else {
            out.push(t[i]);
            proof {
                let rest = spec_replace_from(t@, pat@, sub@, i + 1);
                assert(out0 + (seq![t@[i as int]] + rest) =~= out0.push(t@[i as int]) + rest);
            }
            i += 1;
        }
    }
    proof {
        assert(out@ + spec_replace_from(t@, pat@, sub@, i as int) =~= out@);
    }
    out
}

} // verus!
