//! The annotation scanner: recognizes annotated declarations in a module
//! file's byte text. A declaration is an annotation marker naming one of the
//! five categories, optionally carrying a parenthesized key, standing alone
//! at the start of its line, followed (possibly across lines) by a `fn`,
//! `struct` or `enum` keyword and its identifier; a wrapped optional return
//! type on the identifier's line additionally yields the inner content type.
use vstd::prelude::*;

use crate::bytes::{
    copy_bytes, copy_opt_bytes, is_space_byte, is_word_byte, match_at, matches_at, opt_bytes_view,
    skip_ws, space_byte, sub_bytes, word_byte, word_end, ws_end, word_run_end,
};
use crate::errors::GenError;

verus! {

/// The five architectural roles a handle can play.
#[derive(Debug, Clone, Copy, PartialEq, Eq, Structural)]
pub enum Category {
    Middleware,
    Pipeline,
    Parser,
    Entity,
    Spider,
}

pub open spec fn lit_middleware() -> Seq<u8> {
    seq![109, 105, 100, 100, 108, 101, 119, 97, 114, 101]
}

pub open spec fn lit_pipeline() -> Seq<u8> {
    seq![112, 105, 112, 101, 108, 105, 110, 101]
}

pub open spec fn lit_entity() -> Seq<u8> {
    seq![101, 110, 116, 105, 116, 121]
}

pub open spec fn lit_spider() -> Seq<u8> {
    seq![115, 112, 105, 100, 101, 114]
}

pub open spec fn lit_parser() -> Seq<u8> {
    seq![112, 97, 114, 115, 101, 114]
}

pub open spec fn lit_fn() -> Seq<u8> {
    seq![102, 110]
}

pub open spec fn lit_struct() -> Seq<u8> {
    seq![115, 116, 114, 117, 99, 116]
}

pub open spec fn lit_enum() -> Seq<u8> {
    seq![101, 110, 117, 109]
}

pub open spec fn lit_option_lt() -> Seq<u8> {
    seq![79, 112, 116, 105, 111, 110, 60]
}

pub open spec fn lit_arrow() -> Seq<u8> {
    seq![45, 62]
}

pub open spec fn lit_open_pipeline() -> Seq<u8> {
    seq![111, 112, 101, 110, 95, 112, 105, 112, 101, 108, 105, 110, 101]
}

fn vec_middleware() -> (r: Vec<u8>)
    ensures
        r@ == lit_middleware(),
{
    let mut v: Vec<u8> = Vec::new();
    v.push(109);
    v.push(105);
    v.push(100);
    v.push(100);
    v.push(108);
    v.push(101);
    v.push(119);
    v.push(97);
    v.push(114);
    v.push(101);
    proof {
        assert(v@ =~= lit_middleware());
    }
    v
}

fn vec_pipeline() -> (r: Vec<u8>)
    ensures
        r@ == lit_pipeline(),
{
    let mut v: Vec<u8> = Vec::new();
    v.push(112);
    v.push(105);
    v.push(112);
    v.push(101);
    v.push(108);
    v.push(105);
    v.push(110);
    v.push(101);
    proof {
        assert(v@ =~= lit_pipeline());
    }
    v
}

fn vec_entity() -> (r: Vec<u8>)
    ensures
        r@ == lit_entity(),
{
    let mut v: Vec<u8> = Vec::new();
    v.push(101);
    v.push(110);
    v.push(116);
    v.push(105);
    v.push(116);
    v.push(121);
    proof {
        assert(v@ =~= lit_entity());
    }
    v
}

fn vec_spider() -> (r: Vec<u8>)
    ensures
        r@ == lit_spider(),
{
    let mut v: Vec<u8> = Vec::new();
    v.push(115);
    v.push(112);
    v.push(105);
    v.push(100);
    v.push(101);
    v.push(114);
    proof {
        assert(v@ =~= lit_spider());
    }
    v
}

fn vec_parser() -> (r: Vec<u8>)
    ensures
        r@ == lit_parser(),
{
    let mut v: Vec<u8> = Vec::new();
    v.push(112);
    v.push(97);
    v.push(114);
    v.push(115);
    v.push(101);
    v.push(114);
    proof {
        assert(v@ =~= lit_parser());
    }
    v
}

fn vec_fn() -> (r: Vec<u8>)
    ensures
        r@ == lit_fn(),
{
    let mut v: Vec<u8> = Vec::new();
    v.push(102);
    v.push(110);
    proof {
        assert(v@ =~= lit_fn());
    }
    v
}

fn vec_struct() -> (r: Vec<u8>)
    ensures
        r@ == lit_struct(),
{
    let mut v: Vec<u8> = Vec::new();
    v.push(115);
    v.push(116);
    v.push(114);
    v.push(117);
    v.push(99);
    v.push(116);
    proof {
        assert(v@ =~= lit_struct());
    }
    v
}

fn vec_enum() -> (r: Vec<u8>)
    ensures
        r@ == lit_enum(),
{
    let mut v: Vec<u8> = Vec::new();
    v.push(101);
    v.push(110);
    v.push(117);
    v.push(109);
    proof {
        assert(v@ =~= lit_enum());
    }
    v
}

fn vec_option_lt() -> (r: Vec<u8>)
    ensures
        r@ == lit_option_lt(),
{
    let mut v: Vec<u8> = Vec::new();
    v.push(79);
    v.push(112);
    v.push(116);
    v.push(105);
    v.push(111);
    v.push(110);
    v.push(60);
    proof {
        assert(v@ =~= lit_option_lt());
    }
    v
}

fn vec_arrow() -> (r: Vec<u8>)
    ensures
        r@ == lit_arrow(),
{
    let mut v: Vec<u8> = Vec::new();
    v.push(45);
    v.push(62);
    proof {
        assert(v@ =~= lit_arrow());
    }
    v
}

pub fn vec_open_pipeline() -> (r: Vec<u8>)
    ensures
        r@ == lit_open_pipeline(),
{
    let mut v: Vec<u8> = Vec::new();
    v.push(111);
    v.push(112);
    v.push(101);
    v.push(110);
    v.push(95);
    v.push(112);
    v.push(105);
    v.push(112);
    v.push(101);
    v.push(108);
    v.push(105);
    v.push(110);
    v.push(101);
    proof {
        assert(v@ =~= lit_open_pipeline());
    }
    v
}

/// The start of the line that position `q` lies on.
pub open spec fn line_start(t: Seq<u8>, q: int) -> int
    decreases q when 0 <= q <= t.len()
{
    if q <= 0 {
        0
    } else if t[q - 1] == 10 {
        q
    } else {
        line_start(t, q - 1)
    }
}

/// Only whitespace stands between the start of `q`'s line and `q`.
pub open spec fn ws_prefix(t: Seq<u8>, q: int) -> bool {
    forall|k: int| line_start(t, q) <= k < q ==> is_space_byte(#[trigger] t[k])
}

/// A position where an annotation marker may begin: `#[` at `q`, preceded on
/// its line only by whitespace.
pub open spec fn marker_candidate(t: Seq<u8>, q: int) -> bool {
    &&& 0 <= q
    &&& q + 2 <= t.len()
    &&& t[q] == 35
    &&& t[q + 1] == 91
    &&& ws_prefix(t, q)
}

fn line_begin(t: &Vec<u8>, q: usize) -> (r: usize)
    requires
        q <= t@.len(),
    ensures
        r == line_start(t@, q as int),
        r <= q,
{
    let mut p = q;
    while p > 0 && t[p - 1] != 10
        invariant
            p <= q <= t@.len(),
            line_start(t@, q as int) == line_start(t@, p as int),
        decreases p,
    {
        p -= 1;
    }
    p
}

fn ws_prefix_check(t: &Vec<u8>, q: usize) -> (r: bool)
    requires
        q <= t@.len(),
    ensures
        r == ws_prefix(t@, q as int),
{
    let ls = line_begin(t, q);
    let mut k = ls;
    while k < q
        invariant
            line_start(t@, q as int) == ls,
            ls <= k <= q <= t@.len(),
            forall|j: int| ls <= j < k ==> is_space_byte(#[trigger] t@[j]),
        decreases q - k,
    {
        if !space_byte(t[k]) {
            return false;
        }
        k += 1;
    }
    true
}

/// The category name standing at position `p`, with the position just after
/// it. The five names are prefix-free, so at most one can match.
pub open spec fn spec_category_at(t: Seq<u8>, p: int) -> Option<(Category, int)> {
    if matches_at(t, p, lit_middleware()) {
        Some((Category::Middleware, p + lit_middleware().len() as int))
    } else if matches_at(t, p, lit_pipeline()) {
        Some((Category::Pipeline, p + lit_pipeline().len() as int))
    } else if matches_at(t, p, lit_entity()) {
        Some((Category::Entity, p + lit_entity().len() as int))
    } else if matches_at(t, p, lit_spider()) {
        Some((Category::Spider, p + lit_spider().len() as int))
    } else if matches_at(t, p, lit_parser()) {
        Some((Category::Parser, p + lit_parser().len() as int))
    } else {
        None
    }
}

fn category_at(t: &Vec<u8>, p: usize) -> (r: Option<(Category, usize)>)
    requires
        p <= t@.len(),
    ensures
        r is None ==> spec_category_at(t@, p as int) is None,
        r matches Some(x) ==> (spec_category_at(t@, p as int) matches Some(s) && s.0 == x.0 && s.1
            == x.1 as int && x.1 <= t@.len()),
{
    proof {
        vstd::std_specs::vec::axiom_spec_len(t);
    }
    let m = vec_middleware();
    if match_at(t, p, &m) {
        return Some((Category::Middleware, p + 10));
    }
    let pl = vec_pipeline();
    if match_at(t, p, &pl) {
        return Some((Category::Pipeline, p + 8));
    }
    let en = vec_entity();
    if match_at(t, p, &en) {
        return Some((Category::Entity, p + 6));
    }
    let sp = vec_spider();
    if match_at(t, p, &sp) {
        return Some((Category::Spider, p + 6));
    }
    let pa = vec_parser();
    if match_at(t, p, &pa) {
        return Some((Category::Parser, p + 6));
    }
    None
}

/// A parsed marker: its category, its optional explicit key, and the
/// position just after the closing bracket.
pub struct SpecMarker {
    pub cat: Category,
    pub key: Option<Seq<u8>>,
    pub end: int,
}

/// Parses the marker whose `#[` stands at `q`: the category name directly
/// after `#[`, then either `]` or a parenthesized key `( key )` (whitespace
/// allowed inside the parentheses) followed by `]`.
pub open spec fn parse_marker(t: Seq<u8>, q: int) -> Option<SpecMarker> {
    match spec_category_at(t, q + 2) {
        None => None,
        Some((cat, j0)) => {
            if j0 < t.len() && t[j0] == 40 {
                let k0 = skip_ws(t, j0 + 1);
                if k0 < t.len() && is_word_byte(t[k0]) {
                    let k1 = word_end(t, k0);
                    let k2 = skip_ws(t, k1);
                    if k2 < t.len() && t[k2] == 41 {
                        if k2 + 1 < t.len() && t[k2 + 1] == 93 {
                            Some(
                                SpecMarker {
                                    cat,
                                    key: Some(t.subrange(k0, k1)),
                                    end: k2 + 2,
                                },
                            )
                        } else {
                            None
                        }
                    } else {
                        None
                    }
                } else {
                    None
                }
            } else if j0 < t.len() && t[j0] == 93 {
                Some(SpecMarker { cat, key: None, end: j0 + 1 })
            } else {
                None
            }
        },
    }
}

fn parse_marker_at(t: &Vec<u8>, q: usize) -> (r: Option<(Category, Option<Vec<u8>>, usize)>)
    requires
        q + 2 <= t@.len(),
    ensures
        r is None ==> parse_marker(t@, q as int) is None,
        r matches Some(x) ==> (parse_marker(t@, q as int) matches Some(m) && m.cat == x.0 && m.key
            == opt_bytes_view(x.1) && m.end == x.2 as int && x.2 <= t@.len()),
{
    proof {
        vstd::std_specs::vec::axiom_spec_len(t);
    }
    match category_at(t, q + 2) {
        None => None,
        Some((cat, j0)) => {
            if j0 < t.len() && t[j0] == 40 {
                proof {
                    crate::bytes::lemma_skip_ws_range(t@, j0 + 1);
                }
                let k0 = ws_end(t, j0 + 1);
                if k0 < t.len() && word_byte(t[k0]) {
                    let k1 = word_run_end(t, k0);
                    let k2 = ws_end(t, k1);
                    if k2 < t.len() && t[k2] == 41 {
                        if k2 + 1 < t.len() && t[k2 + 1] == 93 {
                            let key = sub_bytes(t, k0, k1);
                            Some((cat, Some(key), k2 + 2))
                        } else {
                            None
                        }
                    } else {
                        None
                    }
                } else {
                    None
                }
            } else if j0 < t.len() && t[j0] == 93 {
                Some((cat, None, j0 + 1))
            } else {
                None
            }
        },
    }
}

/// The earliest marker at or after `pos` that parses, with its position.
pub open spec fn find_marker(t: Seq<u8>, pos: int) -> Option<(int, SpecMarker)>
    decreases t.len() - pos when 0 <= pos
{
    if pos + 2 > t.len() {
        None
    } else if marker_candidate(t, pos) && parse_marker(t, pos) is Some {
        match parse_marker(t, pos) {
            Some(m) => Some((pos, m)),
            None => None,
        }
    } else {
        find_marker(t, pos + 1)
    }
}

fn find_marker_at(t: &Vec<u8>, pos: usize) -> (r: Option<(usize, Category, Option<Vec<u8>>, usize)>)
    requires
        pos <= t@.len(),
    ensures
        r is None ==> find_marker(t@, pos as int) is None,
        r matches Some(x) ==> (find_marker(t@, pos as int) matches Some(qm) && qm.0 == x.0 as int
            && qm.1.cat == x.1 && qm.1.key == opt_bytes_view(x.2) && qm.1.end == x.3 as int && x.0
            >= pos && x.3 <= t@.len()),
{
    if t.len() < 2 {
        return None;
    }
    let mut i = pos;
    while i <= t.len() - 2
        invariant
            pos <= i,
            i <= t@.len(),
            t@.len() >= 2,
            find_marker(t@, pos as int) == find_marker(t@, i as int),
        decreases t@.len() - i,
    {
        if t[i] == 35 && t[i + 1] == 91 && ws_prefix_check(t, i) {
            match parse_marker_at(t, i) {
                Some((cat, key, end)) => {
                    return Some((i, cat, key, end));
                },
                None => {},
            }
        }
        i += 1;
    }
    None
}

/// The end of a declaration keyword (`fn`, `struct` or `enum`) standing at
/// `i`, if one does.
pub open spec fn keyword_at(t: Seq<u8>, i: int) -> Option<int> {
    if matches_at(t, i, lit_fn()) {
        Some(i + lit_fn().len() as int)
    } else if matches_at(t, i, lit_struct()) {
        Some(i + lit_struct().len() as int)
    } else if matches_at(t, i, lit_enum()) {
        Some(i + lit_enum().len() as int)
    } else {
        None
    }
}

/// The identifier of the earliest declaration keyword at or after `from`
/// that is followed (after whitespace) by a word character: the identifier
/// run `[d, e)`.
pub open spec fn find_decl(t: Seq<u8>, from: int) -> Option<(int, int)>
    decreases t.len() - from when 0 <= from
{
    if from >= t.len() {
        None
    } else {
        match keyword_at(t, from) {
            Some(kend) => {
                let d = skip_ws(t, kend);
                if d < t.len() && is_word_byte(t[d]) {
                    Some((d, word_end(t, d)))
                } else {
                    find_decl(t, from + 1)
                }
            },
            None => find_decl(t, from + 1),
        }
    }
}

fn find_decl_at(t: &Vec<u8>, from: usize) -> (r: Option<(usize, usize)>)
    requires
        from <= t@.len(),
    ensures
        r is None ==> find_decl(t@, from as int) is None,
        r matches Some(x) ==> (find_decl(t@, from as int) matches Some(de) && de.0 == x.0 as int
            && de.1 == x.1 as int && x.0 < x.1 <= t@.len()),
{
    let vfn = vec_fn();
    let vstruct = vec_struct();
    let venum = vec_enum();
    let mut i = from;
    while i < t.len()
        invariant
            from <= i <= t@.len(),
            vfn@ == lit_fn(),
            vstruct@ == lit_struct(),
            venum@ == lit_enum(),
            find_decl(t@, from as int) == find_decl(t@, i as int),
        decreases t@.len() - i,
    {
        let kend: usize = if match_at(t, i, &vfn) {
            i + 2
        } else if match_at(t, i, &vstruct) {
            i + 6
        } else if match_at(t, i, &venum) {
            i + 4
        } else {
            i + 0
        };
        if kend > i {
            proof {
                crate::bytes::lemma_skip_ws_range(t@, kend as int);
            }
            let d = ws_end(t, kend);
            if d < t.len() && word_byte(t[d]) {
                let e = word_run_end(t, d);
                proof {
                    crate::bytes::lemma_word_end_range(t@, d as int + 1);
                    assert(word_end(t@, d as int) == word_end(t@, d as int + 1));
                }
                return Some((d, e));
            }
        }
        i += 1;
    }
    None
}

/// The first line-feed position at or after `i`, or the end of the text.
pub open spec fn line_end(t: Seq<u8>, i: int) -> int
    decreases t.len() - i when 0 <= i <= t.len()
{
    if i < t.len() && t[i] != 10 {
        line_end(t, i + 1)
    } else {
        i
    }
}

pub fn line_finish(t: &Vec<u8>, i: usize) -> (r: usize)
    requires
        i <= t@.len(),
    ensures
        r == line_end(t@, i as int),
        i <= r <= t@.len(),
{
    let mut j = i;
    while j < t.len() && t[j] != 10
        invariant
            i <= j <= t@.len(),
            line_end(t@, i as int) == line_end(t@, j as int),
        decreases t@.len() - j,
    {
        j += 1;
    }
    j
}

/// The earliest occurrence of `pat` at or after `i` that ends by `le`.
pub open spec fn find_lit_before(t: Seq<u8>, i: int, le: int, pat: Seq<u8>) -> Option<int>
    decreases le - i when 0 <= i && pat.len() > 0
{
    if i + pat.len() > le {
        None
    } else if matches_at(t, i, pat) {
        Some(i)
    } else {
        find_lit_before(t, i + 1, le, pat)
    }
}

pub fn find_lit_upto(t: &Vec<u8>, i: usize, le: usize, pat: &Vec<u8>) -> (r: Option<usize>)
    requires
        i <= t@.len(),
        le <= t@.len(),
        pat@.len() > 0,
    ensures
        r is None ==> find_lit_before(t@, i as int, le as int, pat@) is None,
        r matches Some(x) ==> (find_lit_before(t@, i as int, le as int, pat@) == Some(x as int) && i
            <= x && x + pat@.len() <= le),
{
    let mut k = i;
    while k <= le && le - k >= pat.len()
        invariant
            i <= k <= t@.len(),
            le <= t@.len(),
            pat@.len() > 0,
            find_lit_before(t@, i as int, le as int, pat@) == find_lit_before(
                t@,
                k as int,
                le as int,
                pat@,
            ),
        decreases t@.len() - k,
    {
        if match_at(t, k, pat) {
            return Some(k);
        }
        k += 1;
    }
    None
}

/// The earliest position in `[i, le)` holding byte `b`.
pub open spec fn find_byte_before(t: Seq<u8>, i: int, le: int, b: u8) -> Option<int>
    decreases le - i when 0 <= i
{
    if i >= le {
        None
    } else if i < t.len() && t[i] == b {
        Some(i)
    } else {
        find_byte_before(t, i + 1, le, b)
    }
}

pub fn find_byte_upto(t: &Vec<u8>, i: usize, le: usize, b: u8) -> (r: Option<usize>)
    requires
        i <= t@.len(),
        le <= t@.len(),
    ensures
        r is None ==> find_byte_before(t@, i as int, le as int, b) is None,
        r matches Some(x) ==> (find_byte_before(t@, i as int, le as int, b) == Some(x as int) && i
            <= x && x < le),
{
    let mut k = i;
    while k < le
        invariant
            i <= k <= t@.len(),
            le <= t@.len(),
            find_byte_before(t@, i as int, le as int, b) == find_byte_before(
                t@,
                k as int,
                le as int,
                b,
            ),
        decreases le - k,
    {
        if t[k] == b {
            return Some(k);
        }
        k += 1;
    }
    None
}

/// The inline content type after an identifier ending at `e`: on the
/// identifier's own line, an arrow `->`, then `Option<`, then the inner type
/// up to the first `>`. Returns the inner type and the position after that
/// `>`.
pub open spec fn inline_ctype(t: Seq<u8>, e: int) -> Option<(Seq<u8>, int)> {
    let le = line_end(t, e);
    match find_lit_before(t, e, le, lit_arrow()) {
        None => None,
        Some(a) => match find_lit_before(t, a + 2, le, lit_option_lt()) {
            None => None,
            Some(b) => match find_byte_before(t, b + 7, le, 62) {
                None => None,
                Some(c) => Some((t.subrange(b + 7, c), c + 1)),
            },
        },
    }
}

/// A raw scanned declaration, before key defaulting.
pub struct SpecRawDecl {
    pub cat: Category,
    pub key: Option<Seq<u8>>,
    pub ident: Seq<u8>,
    pub ctyp: Option<Seq<u8>>,
}

/// All declarations recognized from `pos` on, in file order: each parsed
/// marker is bound to the next declaration keyword and identifier, and
/// scanning resumes after the matched region. Scanning ends when no further
/// marker parses or no declaration follows the last one.
pub open spec fn scan_records(t: Seq<u8>, pos: int) -> Seq<SpecRawDecl>
    decreases t.len() - pos when 0 <= pos <= t.len()
{
    match find_marker(t, pos) {
        None => Seq::empty(),
        Some((q, m)) => match find_decl(t, m.end) {
            None => Seq::empty(),
            Some((d, e)) => {
                let rec_np = match inline_ctype(t, e) {
                    Some((c, np2)) => (
                        SpecRawDecl { cat: m.cat, key: m.key, ident: t.subrange(d, e), ctyp: Some(c) },
                        np2,
                    ),
                    None => (
                        SpecRawDecl { cat: m.cat, key: m.key, ident: t.subrange(d, e), ctyp: None },
                        e,
                    ),
                };
                if pos < rec_np.1 <= t.len() {
                    seq![rec_np.0] + scan_records(t, rec_np.1)
                } else {
                    seq![rec_np.0]
                }
            },
        },
    }
}

struct RawDecl {
    category: Category,
    key: Option<Vec<u8>>,
    identifier: Vec<u8>,
    ctype: Option<Vec<u8>>,
}

spec fn raw_decl_view(r: RawDecl) -> SpecRawDecl {
    SpecRawDecl {
        cat: r.category,
        key: opt_bytes_view(r.key),
        ident: r.identifier@,
        ctyp: opt_bytes_view(r.ctype),
    }
}

spec fn raw_seq_view(s: Seq<RawDecl>) -> Seq<SpecRawDecl> {
    s.map(|_i: int, r: RawDecl| raw_decl_view(r))
}

fn scan_raw(t: &Vec<u8>) -> (r: Vec<RawDecl>)
    ensures
        raw_seq_view(r@) == scan_records(t@, 0),
{
    let mut out: Vec<RawDecl> = Vec::new();
    let mut pos: usize = 0;
    proof {
        assert(raw_seq_view(out@) + scan_records(t@, 0) =~= scan_records(t@, 0));
    }
    loop
        invariant
            pos <= t@.len(),
            raw_seq_view(out@) + scan_records(t@, pos as int) == scan_records(t@, 0),
        decreases t@.len() - pos,
    {
        let step = find_marker_at(t, pos);
        match step {
            None => {
                proof {
                    assert(raw_seq_view(out@) + scan_records(t@, pos as int) =~= raw_seq_view(
                        out@,
                    ));
                }
                return out;
            },
            Some((q, cat, key, mend)) => {
                match find_decl_at(t, mend) {
                    None => {
                        proof {
                            assert(raw_seq_view(out@) + scan_records(t@, pos as int)
                                =~= raw_seq_view(out@));
                        }
                        return out;
                    },
                    Some((d, e)) => {
                        let ident = sub_bytes(t, d, e);
                        let mut np = e;
                        let ctype: Option<Vec<u8>> = match inline_ctype_at(t, e) {
                            Some((c, after)) => {
                                np = after;
                                Some(c)
                            },
                            None => None,
                        };
                        let rd = RawDecl { category: cat, key, identifier: ident, ctype };
                        let ghost out0 = out@;
                        let ghost rest = scan_records(t@, np as int);
                        proof {
                            assert(scan_records(t@, pos as int) =~= seq![raw_decl_view(rd)]
                                + if pos < np <= t@.len() {
                                scan_records(t@, np as int)
                            } else {
                                Seq::empty()
                            });
                        }
                        out.push(rd);
                        proof {
                            assert(raw_seq_view(out0.push(rd)) =~= raw_seq_view(out0).push(
                                raw_decl_view(rd),
                            ));
                            assert(raw_seq_view(out0).push(raw_decl_view(rd)) + rest
                                =~= raw_seq_view(out0) + (seq![raw_decl_view(rd)] + rest));
                        }
                        if np > pos {
                            pos = np;
                        } else {
                            proof {
                                assert(raw_seq_view(out@) + Seq::<SpecRawDecl>::empty()
                                    =~= raw_seq_view(out@));
                            }
                            return out;
                        }
                    },
                }
            },
        }
    }
}

/// Parses the narrow fallback marker whose `#[` stands at `q`: the pipeline
/// name, a parenthesized `open_pipeline` key, and the closing bracket, with
/// whitespace allowed between every token. Returns the position after `]`.
pub open spec fn parse_narrow_marker(t: Seq<u8>, q: int) -> Option<int> {
    let p1 = skip_ws(t, q + 2);
    if matches_at(t, p1, lit_pipeline()) {
        let p2 = skip_ws(t, p1 + lit_pipeline().len() as int);
        if p2 < t.len() && t[p2] == 40 {
            let p3 = skip_ws(t, p2 + 1);
            if matches_at(t, p3, lit_open_pipeline()) {
                let p4 = skip_ws(t, p3 + lit_open_pipeline().len() as int);
                if p4 < t.len() && t[p4] == 41 {
                    let p5 = skip_ws(t, p4 + 1);
                    if p5 < t.len() && t[p5] == 93 {
                        Some(p5 + 1)
                    } else {
                        None
                    }
                } else {
                    None
                }
            } else {
                None
            }
        } else {
            None
        }
    } else {
        None
    }
}

/// The earliest narrow fallback marker at or after `pos`.
pub open spec fn find_narrow_marker(t: Seq<u8>, pos: int) -> Option<int>
    decreases t.len() - pos when 0 <= pos
{
    if pos + 2 > t.len() {
        None
    } else if marker_candidate(t, pos) && parse_narrow_marker(t, pos) is Some {
        parse_narrow_marker(t, pos)
    } else {
        find_narrow_marker(t, pos + 1)
    }
}

/// The identifier bounds of the earliest `fn` keyword at or after `from`
/// that is followed (after whitespace) by a word character.
pub open spec fn find_fn_decl(t: Seq<u8>, from: int) -> Option<(int, int)>
    decreases t.len() - from when 0 <= from
{
    if from >= t.len() {
        None
    } else if matches_at(t, from, lit_fn()) && {
        let d = skip_ws(t, from + 2);
        d < t.len() && is_word_byte(t[d])
    } {
        let d = skip_ws(t, from + 2);
        Some((d, word_end(t, d)))
    } else {
        find_fn_decl(t, from + 1)
    }
}

/// The narrow fallback search for the open hook's content type: after the
/// narrow marker, the next `fn` declaration, then the first `Option<` and
/// the first `>` after it, anywhere in the remaining text.
pub open spec fn narrow_ctype(t: Seq<u8>) -> Option<Seq<u8>> {
    match find_narrow_marker(t, 0) {
        None => None,
        Some(end) => match find_fn_decl(t, end) {
            None => None,
            Some((d, e)) => match find_lit_before(t, e, t.len() as int, lit_option_lt()) {
                None => None,
                Some(b) => match find_byte_before(t, b + 7, t.len() as int, 62) {
                    None => None,
                    Some(c) => Some(t.subrange(b + 7, c)),
                },
            },
        },
    }
}

fn parse_narrow_marker_at(t: &Vec<u8>, q: usize) -> (r: Option<usize>)
    requires
        q + 2 <= t@.len(),
    ensures
        r is None ==> parse_narrow_marker(t@, q as int) is None,
        r matches Some(x) ==> (parse_narrow_marker(t@, q as int) == Some(x as int) && x
            <= t@.len()),
{
    proof {
        vstd::std_specs::vec::axiom_spec_len(t);
    }
    let pl = vec_pipeline();
    let op = vec_open_pipeline();
    let p1 = ws_end(t, q + 2);
    if match_at(t, p1, &pl) {
        let p2 = ws_end(t, p1 + 8);
        if p2 < t.len() && t[p2] == 40 {
            let p3 = ws_end(t, p2 + 1);
            if match_at(t, p3, &op) {
                let p4 = ws_end(t, p3 + 13);
                if p4 < t.len() && t[p4] == 41 {
                    let p5 = ws_end(t, p4 + 1);
                    if p5 < t.len() && t[p5] == 93 {
                        return Some(p5 + 1);
                    }
                }
            }
        }
    }
    None
}

fn find_narrow_marker_at(t: &Vec<u8>, pos: usize) -> (r: Option<usize>)
    requires
        pos <= t@.len(),
    ensures
        r is None ==> find_narrow_marker(t@, pos as int) is None,
        r matches Some(x) ==> (find_narrow_marker(t@, pos as int) == Some(x as int) && x
            <= t@.len()),
{
    if t.len() < 2 {
        return None;
    }
    let mut i = pos;
    while i <= t.len() - 2
        invariant
            pos <= i,
            i <= t@.len(),
            t@.len() >= 2,
            find_narrow_marker(t@, pos as int) == find_narrow_marker(t@, i as int),
        decreases t@.len() - i,
    {
        if t[i] == 35 && t[i + 1] == 91 && ws_prefix_check(t, i) {
            match parse_narrow_marker_at(t, i) {
                Some(end) => {
                    return Some(end);
                },
                None => {},
            }
        }
        i += 1;
    }
    None
}

fn find_fn_decl_at(t: &Vec<u8>, from: usize) -> (r: Option<(usize, usize)>)
    requires
        from <= t@.len(),
    ensures
        r is None ==> find_fn_decl(t@, from as int) is None,
        r matches Some(x) ==> (find_fn_decl(t@, from as int) matches Some(de) && de.0 == x.0 as int
            && de.1 == x.1 as int && x.0 <= x.1 <= t@.len()),
{
    let vfn = vec_fn();
    let mut i = from;
    while i < t.len()
        invariant
            from <= i <= t@.len(),
            vfn@ == lit_fn(),
            find_fn_decl(t@, from as int) == find_fn_decl(t@, i as int),
        decreases t@.len() - i,
    {
        if match_at(t, i, &vfn) {
            let d = ws_end(t, i + 2);
            if d < t.len() && word_byte(t[d]) {
                let e = word_run_end(t, d);
                return Some((d, e));
            }
        }
        i += 1;
    }
    None
}

/// The narrow fallback scan, on the whole module text.
pub fn narrow_ctype_scan(t: &Vec<u8>) -> (r: Option<Vec<u8>>)
    ensures
        opt_bytes_view(r) == narrow_ctype(t@),
{
    let opt = vec_option_lt();
    match find_narrow_marker_at(t, 0) {
        None => None,
        Some(end) => match find_fn_decl_at(t, end) {
            None => None,
            Some((d, e)) => match find_lit_upto(t, e, t.len(), &opt) {
                None => None,
                Some(b) => match find_byte_upto(t, b + 7, t.len(), 62) {
                    None => None,
                    Some(c) => Some(sub_bytes(t, b + 7, c)),
                },
            },
        },
    }
}

/// A scanned declaration after key defaulting: for the spider and parser
/// categories the key is the identifier itself; the content type is set only
/// on the pipeline file's open-hook declaration.
pub struct SpecDecl {
    pub cat: Category,
    pub key: Seq<u8>,
    pub ident: Seq<u8>,
    pub ctyp: Option<Seq<u8>>,
}

/// Key defaulting: spider and parser declarations take their identifier as
/// key; the other categories require the explicit parenthesized key.
pub open spec fn default_key(r: SpecRawDecl) -> Option<Seq<u8>> {
    if r.cat == Category::Spider || r.cat == Category::Parser {
        Some(r.ident)
    } else {
        r.key
    }
}

/// Processes raw declarations in file order: applies key defaulting, and on
/// the pipeline file resolves the open hook's content type (inline capture
/// first, then the narrow fallback scan), failing when neither yields one.
/// The last open-hook declaration's type wins.
pub open spec fn process_records(
    t: Seq<u8>,
    rs: Seq<SpecRawDecl>,
    is_pipeline: bool,
    i: int,
    ct: Option<Seq<u8>>,
) -> Result<(Seq<SpecDecl>, Option<Seq<u8>>), GenError>
    decreases rs.len() - i when 0 <= i <= rs.len()
{
    if i >= rs.len() {
        Ok((Seq::empty(), ct))
    } else {
        let r = rs[i];
        match default_key(r) {
            None => Err(GenError::AnnotationKeyMissing),
            Some(k) => {
                let open_hook = is_pipeline && k == lit_open_pipeline();
                let resolved = if open_hook {
                    match r.ctyp {
                        Some(c) => Some(c),
                        None => narrow_ctype(t),
                    }
                } else {
                    Option::<Seq<u8>>::None
                };
                if open_hook && resolved is None {
                    Err(GenError::ContentTypeNotFound)
                } else {
                    let rec = SpecDecl { cat: r.cat, key: k, ident: r.ident, ctyp: resolved };
                    let ct2 = if open_hook {
                        resolved
                    } else {
                        ct
                    };
                    match process_records(t, rs, is_pipeline, i + 1, ct2) {
                        Ok((l, c)) => Ok((seq![rec] + l, c)),
                        Err(e) => Err(e),
                    }
                }
            },
        }
    }
}

/// What scanning one module file yields: the processed declarations in file
/// order and, for the pipeline file, the resolved content type. The pipeline
/// file must yield a content type: when no open-hook declaration carries one
/// inline, and when none is keyed `open_pipeline` at all, the narrow fallback
/// scan is consulted, and scanning fails with `ContentTypeNotFound` when it
/// too yields nothing.
pub open spec fn spec_scan_module(t: Seq<u8>, is_pipeline: bool) -> Result<
    (Seq<SpecDecl>, Option<Seq<u8>>),
    GenError,
> {
    match process_records(t, scan_records(t, 0), is_pipeline, 0, None) {
        Ok((l, ct)) => {
            if is_pipeline && ct is None {
                match narrow_ctype(t) {
                    Some(c) => Ok((l, Some(c))),
                    None => Err(GenError::ContentTypeNotFound),
                }
            } else {
                Ok((l, ct))
            }
        },
        Err(e) => Err(e),
    }
}

/// One discovered handle: its category, key, identifier and, for the
/// pipeline open hook, the resolved content type.
#[derive(Debug, Clone, PartialEq, Eq)]
pub struct DeclarationRecord {
    pub category: Category,
    pub key: Vec<u8>,
    pub identifier: Vec<u8>,
    pub content_type: Option<Vec<u8>>,
}

pub open spec fn decl_view(r: DeclarationRecord) -> SpecDecl {
    SpecDecl {
        cat: r.category,
        key: r.key@,
        ident: r.identifier@,
        ctyp: opt_bytes_view(r.content_type),
    }
}

pub open spec fn decl_seq_view(s: Seq<DeclarationRecord>) -> Seq<SpecDecl> {
    s.map(|_i: int, r: DeclarationRecord| decl_view(r))
}

/// The scanner's output for one module file.
#[derive(Debug, Clone, PartialEq, Eq)]
pub struct ScanResult {
    pub records: Vec<DeclarationRecord>,
    pub content_type: Option<Vec<u8>>,
}

/// Scans one module file's text. `is_pipeline` marks the pipeline module
/// file, which must yield the open hook's content type, by the primary scan
/// or by the narrow fallback.
pub fn scan_module(text: &Vec<u8>, is_pipeline: bool) -> (r: Result<ScanResult, GenError>)
    ensures
        spec_scan_module(text@, is_pipeline) is Ok <==> r is Ok,
        (r matches Ok(sr) ==> (spec_scan_module(text@, is_pipeline) matches Ok(p) && decl_seq_view(
            sr.records@,
        ) == p.0 && opt_bytes_view(sr.content_type) == p.1)),
        (r matches Err(e2) ==> (spec_scan_module(text@, is_pipeline) matches Err(e) && e2 == e)),
{
    let raws = scan_raw(text);
    let ghost rv = raw_seq_view(raws@);
    let open_pipeline = vec_open_pipeline();
    let mut out: Vec<DeclarationRecord> = Vec::new();
    let mut ct: Option<Vec<u8>> = None;
    let mut i: usize = 0;
    proof {
        assert(decl_seq_view(out@) =~= Seq::<SpecDecl>::empty());
    }
    while i < raws.len()
        invariant
            i <= raws@.len(),
            rv == raw_seq_view(raws@),
            rv == scan_records(text@, 0),
            rv.len() == raws@.len(),
            open_pipeline@ == lit_open_pipeline(),
            process_records(text@, rv, is_pipeline, 0, None) == (match process_records(
                text@,
                rv,
                is_pipeline,
                i as int,
                opt_bytes_view(ct),
            ) {
                Ok((l, c)) => Ok::<(Seq<SpecDecl>, Option<Seq<u8>>), GenError>(
                    (decl_seq_view(out@) + l, c),
                ),
                Err(e) => Err(e),
            }),
        decreases raws@.len() - i,
    {
        proof {
            assert(rv[i as int] == raw_decl_view(raws@[i as int]));
        }
        let raw = &raws[i];
        let is_sp = match raw.category {
            Category::Spider => true,
            Category::Parser => true,
            _ => false,
        };
        let key: Vec<u8> = if is_sp {
            copy_bytes(&raw.identifier)
        } else {
            match &raw.key {
                Some(k) => copy_bytes(k),
                None => {
                    return Err(GenError::AnnotationKeyMissing);
                },
            }
        };
        proof {
            assert(default_key(rv[i as int]) == Some(key@));
        }
        let open_hook = is_pipeline && crate::bytes::bytes_eq(&key, &open_pipeline);
        let mut resolved: Option<Vec<u8>> = None;
        if open_hook {
            resolved = match &raw.ctype {
                Some(c) => Some(copy_bytes(c)),
                None => narrow_ctype_scan(text),
            };
            if resolved.is_none() {
                return Err(GenError::ContentTypeNotFound);
            }
        }
        proof {
            assert(opt_bytes_view(resolved) == (if is_pipeline && key@ == lit_open_pipeline() {
                match rv[i as int].ctyp {
                    Some(c) => Some(c),
                    None => narrow_ctype(text@),
                }
            } else {
                Option::<Seq<u8>>::None
            }));
        }
        let ident_copy = copy_bytes(&raw.identifier);
        let ct_copy = copy_opt_bytes(&resolved);
        let rec = DeclarationRecord {
            category: raw.category,
            key,
            identifier: ident_copy,
            content_type: resolved,
        };
        let ghost out0 = out@;
        let ghost grec = rec;
        out.push(rec);
        if open_hook {
            ct = ct_copy;
        }
        proof {
            assert(decl_seq_view(out0.push(grec)) =~= decl_seq_view(out0).push(decl_view(grec)));
            match process_records(text@, rv, is_pipeline, i + 1, opt_bytes_view(ct)) {
                Ok((l, c)) => {
                    assert(decl_seq_view(out0).push(decl_view(grec)) + l =~= decl_seq_view(out0) + (
                    seq![decl_view(grec)] + l));
                },
                Err(_) => {},
            }
        }
        i += 1;
    }
    proof {
        match process_records(text@, rv, is_pipeline, rv.len() as int, opt_bytes_view(ct)) {
            Ok((l, c)) => {
                assert(decl_seq_view(out@) + l =~= decl_seq_view(out@));
            },
            Err(_) => {},
        }
    }
    if is_pipeline && ct.is_none() {
        match narrow_ctype_scan(text) {
            Some(c) => {
                ct = Some(c);
            },
            None => {
                return Err(GenError::ContentTypeNotFound);
            },
        }
    }
    Ok(ScanResult { records: out, content_type: ct })
}

fn inline_ctype_at(t: &Vec<u8>, e: usize) -> (r: Option<(Vec<u8>, usize)>)
    requires
        e <= t@.len(),
    ensures
        r is None ==> inline_ctype(t@, e as int) is None,
        r matches Some(x) ==> (inline_ctype(t@, e as int) matches Some(s) && s.0 == x.0@ && s.1
            == x.1 as int && e < x.1 <= t@.len()),
{
    let le = line_finish(t, e);
    let arrow = vec_arrow();
    let opt = vec_option_lt();
    match find_lit_upto(t, e, le, &arrow) {
        None => None,
        Some(a) => match find_lit_upto(t, a + 2, le, &opt) {
            None => None,
            Some(b) => match find_byte_upto(t, b + 7, le, 62) {
                None => None,
                Some(c) => {
                    let inner = sub_bytes(t, b + 7, c);
                    Some((inner, c + 1))
                },
            },
        },
    }
}


/// A raw declaration whose extracted key and identifier are ASCII word text.
pub open spec fn raw_decl_ascii(r: SpecRawDecl) -> bool {
    &&& (r.key matches Some(k) ==> crate::bytes::all_ascii(k))
    &&& crate::bytes::all_ascii(r.ident)
}

proof fn lemma_parse_marker_props(t: Seq<u8>, q: int)
    requires
        0 <= q,
        q + 2 <= t.len(),
    ensures
        parse_marker(t, q) matches Some(m) ==> (m.end >= 0 && (m.key matches Some(ks)
            ==> crate::bytes::all_ascii(ks))),
{
    match spec_category_at(t, q + 2) {
        None => {},
        Some((cat, j0)) => {
            if j0 < t.len() && t[j0] == 40 {
                crate::bytes::lemma_skip_ws_range(t, j0 + 1);
                let k0 = skip_ws(t, j0 + 1);
                if k0 < t.len() && is_word_byte(t[k0]) {
                    crate::bytes::lemma_word_run(t, k0);
                    crate::bytes::lemma_word_end_range(t, k0);
                    let k1 = word_end(t, k0);
                    crate::bytes::lemma_skip_ws_range(t, k1);
                }
            }
        },
    }
}

proof fn lemma_find_marker_props(t: Seq<u8>, pos: int)
    requires
        0 <= pos,
    ensures
        find_marker(t, pos) matches Some(p) ==> (p.1.end >= 0 && (p.1.key matches Some(ks)
            ==> crate::bytes::all_ascii(ks))),
    decreases t.len() - pos,
{
    if pos + 2 > t.len() {
    } else if marker_candidate(t, pos) && parse_marker(t, pos) is Some {
        lemma_parse_marker_props(t, pos);
    } else {
        lemma_find_marker_props(t, pos + 1);
    }
}

proof fn lemma_find_decl_ascii(t: Seq<u8>, from: int)
    requires
        0 <= from,
    ensures
        find_decl(t, from) matches Some(de) ==> (0 <= de.0 <= de.1 <= t.len()
            && crate::bytes::all_ascii(t.subrange(de.0, de.1))),
    decreases t.len() - from,
{
    if from >= t.len() {
    } else {
        match keyword_at(t, from) {
            Some(kend) => {
                crate::bytes::lemma_skip_ws_range(t, kend);
                let d = skip_ws(t, kend);
                if d < t.len() && is_word_byte(t[d]) {
                    crate::bytes::lemma_word_run(t, d);
                    crate::bytes::lemma_word_end_range(t, d);
                } else {
                    lemma_find_decl_ascii(t, from + 1);
                }
            },
            None => {
                lemma_find_decl_ascii(t, from + 1);
            },
        }
    }
}

proof fn lemma_scan_records_ascii(t: Seq<u8>, pos: int)
    requires
        0 <= pos <= t.len(),
    ensures
        forall|j: int| 0 <= j < scan_records(t, pos).len() ==> raw_decl_ascii(
            #[trigger] scan_records(t, pos)[j],
        ),
    decreases t.len() - pos,
{
    match find_marker(t, pos) {
        None => {},
        Some((q, m)) => {
            lemma_find_marker_props(t, pos);
            match find_decl(t, m.end) {
                None => {},
                Some((d, e)) => {
                    lemma_find_decl_ascii(t, m.end);
                    let rec_np = match inline_ctype(t, e) {
                        Some((c, np2)) => (
                            SpecRawDecl {
                                cat: m.cat,
                                key: m.key,
                                ident: t.subrange(d, e),
                                ctyp: Some(c),
                            },
                            np2,
                        ),
                        None => (
                            SpecRawDecl {
                                cat: m.cat,
                                key: m.key,
                                ident: t.subrange(d, e),
                                ctyp: None,
                            },
                            e,
                        ),
                    };
                    assert(raw_decl_ascii(rec_np.0));
                    if pos < rec_np.1 <= t.len() {
                        lemma_scan_records_ascii(t, rec_np.1);
                        assert(scan_records(t, pos) == seq![rec_np.0] + scan_records(t, rec_np.1));
                    } else {
                        assert(scan_records(t, pos) == seq![rec_np.0]);
                    }
                },
            }
        },
    }
}

/// Every key and identifier of the processed declarations is ASCII.
pub open spec fn recs_all_ascii(l: Seq<SpecDecl>) -> bool {
    forall|j: int|
        0 <= j < l.len() ==> crate::bytes::all_ascii((#[trigger] l[j]).key)
            && crate::bytes::all_ascii(l[j].ident)
}

/// Spider and parser declarations carry their identifier as key.
pub open spec fn recs_keys_defaulted(l: Seq<SpecDecl>) -> bool {
    forall|j: int|
        0 <= j < l.len() ==> (((#[trigger] l[j]).cat == Category::Spider || l[j].cat
            == Category::Parser) ==> l[j].key == l[j].ident)
}

/// The processed declarations of a successful run, or the empty sequence on
/// failure.
spec fn ok_records(
    t: Seq<u8>,
    rs: Seq<SpecRawDecl>,
    is_pipeline: bool,
    i: int,
    ct: Option<Seq<u8>>,
) -> Seq<SpecDecl> {
    match process_records(t, rs, is_pipeline, i, ct) {
        Ok(p) => p.0,
        Err(_) => Seq::empty(),
    }
}

proof fn lemma_process_records_props(
    t: Seq<u8>,
    rs: Seq<SpecRawDecl>,
    is_pipeline: bool,
    i: int,
    ct: Option<Seq<u8>>,
)
    requires
        0 <= i <= rs.len(),
        forall|j: int| 0 <= j < rs.len() ==> raw_decl_ascii(#[trigger] rs[j]),
    ensures
        recs_all_ascii(ok_records(t, rs, is_pipeline, i, ct)),
        recs_keys_defaulted(ok_records(t, rs, is_pipeline, i, ct)),
    decreases rs.len() - i,
{
    if i >= rs.len() {
    } else {
        let r = rs[i];
        match default_key(r) {
            None => {},
            Some(k) => {
                let open_hook = is_pipeline && k == lit_open_pipeline();
                let resolved = if open_hook {
                    match r.ctyp {
                        Some(c) => Some(c),
                        None => narrow_ctype(t),
                    }
                } else {
                    Option::<Seq<u8>>::None
                };
                if open_hook && resolved is None {
                } else {
                    let ct2 = if open_hook {
                        resolved
                    } else {
                        ct
                    };
                    let rec = SpecDecl { cat: r.cat, key: k, ident: r.ident, ctyp: resolved };
                    lemma_process_records_props(t, rs, is_pipeline, i + 1, ct2);
                    match process_records(t, rs, is_pipeline, i + 1, ct2) {
                        Ok(q) => {
                            let whole = seq![rec] + q.0;
                            assert(ok_records(t, rs, is_pipeline, i, ct) == whole);
                            assert forall|j: int| 0 <= j < whole.len() implies crate::bytes::all_ascii(
                                (#[trigger] whole[j]).key,
                            ) && crate::bytes::all_ascii(whole[j].ident) && ((whole[j].cat
                                == Category::Spider || whole[j].cat == Category::Parser)
                                ==> whole[j].key == whole[j].ident) by {
                                if j == 0 {
                                    assert(whole[0] == rec);
                                    assert(raw_decl_ascii(rs[i]));
                                    assert(crate::bytes::all_ascii(rec.key));
                                    assert(crate::bytes::all_ascii(rec.ident));
                                } else {
                                    assert(whole[j] == q.0[j - 1]);
                                    assert(crate::bytes::all_ascii(q.0[j - 1].key));
                                    assert(crate::bytes::all_ascii(q.0[j - 1].ident));
                                    assert((q.0[j - 1].cat == Category::Spider || q.0[j - 1].cat
                                        == Category::Parser) ==> q.0[j - 1].key == q.0[j
                                        - 1].ident);
                                }
                            }
                        },
                        Err(_) => {},
                    }
                }
            },
        }
    }
}

/// Every key and identifier a successful scan reports is ASCII word text,
/// extracted from word-character runs of the module file.
pub proof fn lemma_scan_module_ascii(t: Seq<u8>, is_pipeline: bool)
    ensures
        spec_scan_module(t, is_pipeline) matches Ok(p) ==> recs_all_ascii(p.0),
{
    lemma_scan_records_ascii(t, 0);
    lemma_process_records_props(t, scan_records(t, 0), is_pipeline, 0, None);
}

/// Key defaulting: in every successful scan, a spider or parser declaration's
/// key is its identifier itself; no explicit key is required in the marker.
pub proof fn lemma_key_defaulting(t: Seq<u8>, is_pipeline: bool)
    ensures
        spec_scan_module(t, is_pipeline) matches Ok(p) ==> recs_keys_defaulted(p.0),
{
    lemma_scan_records_ascii(t, 0);
    lemma_process_records_props(t, scan_records(t, 0), is_pipeline, 0, None);
}

} // verus!
