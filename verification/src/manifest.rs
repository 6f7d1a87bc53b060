//! The manifest resolver: a line-oriented scan of the dependency manifest.
//! A `[dependencies]` section header turns collection on, any other section
//! header turns it off; while on, each `key = value` line contributes its
//! key, normalized by replacing `-` with `_`, to the dependency list. A
//! top-level `name = ...` line anywhere captures the package's declared
//! name, normalized the same way; the last such line wins.
use vstd::prelude::*;

use crate::bytes::{
    all_ascii, is_word_byte, match_at, matches_at, skip_ws, sub_bytes, word_byte, ws_end,
};
use crate::scan::{find_byte_before, line_end};

verus! {

/// A byte that may stand in a dependency key or package name: a word byte,
/// `|` or `-`.
pub open spec fn is_pkgish_byte(b: u8) -> bool {
    is_word_byte(b) || b == 124 || b == 45
}

fn pkgish_byte(b: u8) -> (r: bool)
    ensures
        r == is_pkgish_byte(b),
{
    word_byte(b) || b == 124 || b == 45
}

/// The end of the run of key bytes starting at `i`.
pub open spec fn pkgish_end(t: Seq<u8>, i: int) -> int
    decreases t.len() - i when 0 <= i <= t.len()
{
    if i < t.len() && is_pkgish_byte(t[i]) {
        pkgish_end(t, i + 1)
    } else {
        i
    }
}

proof fn lemma_pkgish_end_range(t: Seq<u8>, i: int)
    requires
        0 <= i <= t.len(),
    ensures
        i <= pkgish_end(t, i) <= t.len(),
    decreases t.len() - i,
{
    if i < t.len() && is_pkgish_byte(t[i]) {
        lemma_pkgish_end_range(t, i + 1);
    }
}

fn pkgish_run_end(t: &Vec<u8>, i: usize) -> (r: usize)
    requires
        i <= t@.len(),
    ensures
        r == pkgish_end(t@, i as int),
        i <= r <= t@.len(),
{
    let mut j = i;
    while j < t.len() && pkgish_byte(t[j])
        invariant
            i <= j <= t@.len(),
            pkgish_end(t@, i as int) == pkgish_end(t@, j as int),
        decreases t@.len() - j,
    {
        j += 1;
    }
    j
}

/// The first position at or after `i` holding a key byte, if any.
pub open spec fn find_pkgish(t: Seq<u8>, i: int) -> Option<int>
    decreases t.len() - i when 0 <= i
{
    if i >= t.len() {
        None
    } else if is_pkgish_byte(t[i]) {
        Some(i)
    } else {
        find_pkgish(t, i + 1)
    }
}

fn find_pkgish_at(t: &Vec<u8>, i: usize) -> (r: Option<usize>)
    requires
        i <= t@.len(),
    ensures
        r is None ==> find_pkgish(t@, i as int) is None,
        r matches Some(x) ==> (find_pkgish(t@, i as int) == Some(x as int) && x < t@.len()),
{
    let mut k = i;
    while k < t.len()
        invariant
            i <= k <= t@.len(),
            find_pkgish(t@, i as int) == find_pkgish(t@, k as int),
        decreases t@.len() - k,
    {
        if pkgish_byte(t[k]) {
            return Some(k);
        }
        k += 1;
    }
    None
}

pub open spec fn lit_dependencies_header() -> Seq<u8> {
    seq![91, 100, 101, 112, 101, 110, 100, 101, 110, 99, 105, 101, 115, 93]
}

pub open spec fn lit_name() -> Seq<u8> {
    seq![110, 97, 109, 101]
}

fn vec_dependencies_header() -> (r: Vec<u8>)
    ensures
        r@ == lit_dependencies_header(),
{
    let mut v: Vec<u8> = Vec::new();
    v.push(91);
    v.push(100);
    v.push(101);
    v.push(112);
    v.push(101);
    v.push(110);
    v.push(100);
    v.push(101);
    v.push(110);
    v.push(99);
    v.push(105);
    v.push(101);
    v.push(115);
    v.push(93);
    proof {
        assert(v@ =~= lit_dependencies_header());
    }
    v
}

fn vec_name() -> (r: Vec<u8>)
    ensures
        r@ == lit_name(),
{
    let mut v: Vec<u8> = Vec::new();
    v.push(110);
    v.push(97);
    v.push(109);
    v.push(101);
    proof {
        assert(v@ =~= lit_name());
    }
    v
}

/// The line, after leading whitespace, opens the `[dependencies]` section.
pub open spec fn is_deps_header(l: Seq<u8>) -> bool {
    matches_at(l, skip_ws(l, 0), lit_dependencies_header())
}

/// The line, after leading whitespace, is some section header: `[` with a
/// closing `]` somewhere after it.
pub open spec fn is_section_header(l: Seq<u8>) -> bool {
    let a = skip_ws(l, 0);
    &&& a < l.len()
    &&& l[a] == 91
    &&& find_byte_before(l, a + 1, l.len() as int, 93) is Some
}

/// The dependency key of a `key = value` line: the key run after leading
/// whitespace, which must be followed (after whitespace) by `=`.
pub open spec fn key_capture(l: Seq<u8>) -> Option<Seq<u8>> {
    let a = skip_ws(l, 0);
    let b = pkgish_end(l, a);
    let c = skip_ws(l, b);
    if b > a && c < l.len() && l[c] == 61 {
        Some(l.subrange(a, b))
    } else {
        None
    }
}

/// The captured package name of a `name = ...` line: the first key-byte run
/// after the `=`.
pub open spec fn name_capture(l: Seq<u8>) -> Option<Seq<u8>> {
    let a = skip_ws(l, 0);
    if matches_at(l, a, lit_name()) {
        let b = skip_ws(l, a + lit_name().len() as int);
        if b < l.len() && l[b] == 61 {
            match find_pkgish(l, b + 1) {
                Some(d) => Some(l.subrange(d, pkgish_end(l, d))),
                None => None,
            }
        } else {
            None
        }
    } else {
        None
    }
}

///`-` replaced by `_` throughout.
pub open spec fn normalize_name(p: Seq<u8>) -> Seq<u8> {
    p.map(
        |_i: int, b: u8|
            if b == 45 {
                95u8
            } else {
                b
            },
    )
}

fn normalize(p: &Vec<u8>) -> (r: Vec<u8>)
    ensures
        r@ == normalize_name(p@),
{
    let mut out: Vec<u8> = Vec::new();
    let mut i: usize = 0;
    while i < p.len()
        invariant
            i <= p@.len(),
            out@.len() == i,
            forall|j: int| 0 <= j < i ==> out@[j] == normalize_name(p@)[j],
        decreases p@.len() - i,
    {
        if p[i] == 45 {
            out.push(95);
        } else {
            out.push(p[i]);
        }
        i += 1;
    }
    proof {
        assert(out@ =~= normalize_name(p@));
    }
    out
}

/// The resolver's running state: whether the scan stands inside the
/// dependency section, the dependency names collected so far, and the last
/// captured package name, if any.
pub struct SpecManifestState {
    pub in_deps: bool,
    pub pkgs: Seq<Seq<u8>>,
    pub name: Option<Seq<u8>>,
}

/// One line's effect on the resolver state.
pub open spec fn manifest_step(st: SpecManifestState, l: Seq<u8>) -> SpecManifestState {
    let in2 = if is_deps_header(l) {
        true
    } else if is_section_header(l) {
        false
    } else {
        st.in_deps
    };
    let pkgs2 = match key_capture(l) {
        Some(kc) => if in2 {
            st.pkgs.push(normalize_name(kc))
        } else {
            st.pkgs
        },
        None => st.pkgs,
    };
    let name2 = match name_capture(l) {
        Some(nm) => Some(normalize_name(nm)),
        None => st.name,
    };
    SpecManifestState { in_deps: in2, pkgs: pkgs2, name: name2 }
}

/// A trailing carriage return removed, as the line reader strips it.
pub open spec fn strip_cr(l: Seq<u8>) -> Seq<u8> {
    if l.len() > 0 && l[l.len() - 1] == 13 {
        l.drop_last()
    } else {
        l
    }
}

/// The resolver state after folding every line of `t[pos..]`, starting from
/// `st`. Lines end at each line feed; a final line without one still counts.
pub open spec fn spec_manifest_from(t: Seq<u8>, pos: int, st: SpecManifestState) -> SpecManifestState
    decreases t.len() - pos when 0 <= pos <= t.len()
{
    if pos >= t.len() {
        st
    } else {
        let le = line_end(t, pos);
        let st2 = manifest_step(st, strip_cr(t.subrange(pos, le)));
        if pos <= le && le < t.len() {
            spec_manifest_from(t, le + 1, st2)
        } else {
            st2
        }
    }
}

/// The manifest resolution: dependency names in file order and the declared
/// package name, both normalized.
pub open spec fn spec_manifest(t: Seq<u8>) -> SpecManifestState {
    spec_manifest_from(
        t,
        0,
        SpecManifestState { in_deps: false, pkgs: Seq::empty(), name: None },
    )
}

proof fn lemma_line_end_range(t: Seq<u8>, i: int)
    requires
        0 <= i <= t.len(),
    ensures
        i <= line_end(t, i) <= t.len(),
    decreases t.len() - i,
{
    if i < t.len() && t[i] != 10 {
        lemma_line_end_range(t, i + 1);
    }
}

fn step_line(l: &Vec<u8>, in_deps: bool, pkgs: &mut Vec<Vec<u8>>, name: &mut Option<Vec<u8>>) -> (r:
    bool)
    ensures
        ({
            let st2 = manifest_step(
                SpecManifestState {
                    in_deps,
                    pkgs: old(pkgs).deep_view(),
                    name: crate::bytes::opt_bytes_view(*old(name)),
                },
                l@,
            );
            &&& r == st2.in_deps
            &&& final(pkgs).deep_view() == st2.pkgs
            &&& crate::bytes::opt_bytes_view(*final(name)) == st2.name
        }),
{
    proof {
        vstd::std_specs::vec::axiom_spec_len(l);
    }
    let ghost pk0 = pkgs.deep_view();
    let deps_header = vec_dependencies_header();
    let name_lit = vec_name();
    let a = ws_end(l, 0);
    let mut in2 = in_deps;
    if match_at(l, a, &deps_header) {
        in2 = true;
    } else if a < l.len() && l[a] == 91 {
        match crate::scan::find_byte_upto(l, a + 1, l.len(), 93) {
            Some(_) => {
                in2 = false;
            },
            None => {},
        }
    }
    if in2 {
        let b = pkgish_run_end(l, a);
        let c = ws_end(l, b);
        if b > a && c < l.len() && l[c] == 61 {
            let raw = sub_bytes(l, a, b);
            let norm = normalize(&raw);
            pkgs.push(norm);
            proof {
                assert(pkgs.deep_view() =~~= pk0.push(normalize_name(l@.subrange(a as int, b as int))));
            }
        }
    }
    if match_at(l, a, &name_lit) {
        let b = ws_end(l, a + 4);
        if b < l.len() && l[b] == 61 {
            match find_pkgish_at(l, b + 1) {
                Some(d) => {
                    let e = pkgish_run_end(l, d);
                    let raw = sub_bytes(l, d, e);
                    *name = Some(normalize(&raw));
                },
                None => {},
            }
        }
    }
    in2
}

/// Resolves the manifest text: the declared dependency names in file order
/// and the declared package name, if any, both normalized.
pub fn resolve_manifest(t: &Vec<u8>) -> (r: (Vec<Vec<u8>>, Option<Vec<u8>>))
    ensures
        r.0.deep_view() == spec_manifest(t@).pkgs,
        crate::bytes::opt_bytes_view(r.1) == spec_manifest(t@).name,
{
    let mut pkgs: Vec<Vec<u8>> = Vec::new();
    let mut name: Option<Vec<u8>> = None;
    let mut in_deps = false;
    let mut pos: usize = 0;
    let ghost st0 = SpecManifestState { in_deps: false, pkgs: Seq::empty(), name: None };
    proof {
        assert(pkgs.deep_view() =~= Seq::<Seq<u8>>::empty());
    }
    while pos < t.len()
        invariant
            pos <= t@.len(),
            spec_manifest(t@) == spec_manifest_from(
                t@,
                pos as int,
                SpecManifestState {
                    in_deps,
                    pkgs: pkgs.deep_view(),
                    name: crate::bytes::opt_bytes_view(name),
                },
            ),
        decreases t@.len() - pos,
    {
        proof {
            lemma_line_end_range(t@, pos as int);
        }
        let le = crate::scan::line_finish(t, pos);
        let line = sub_bytes(t, pos, le);
        let stripped = if line.len() > 0 && line[line.len() - 1] == 13 {
            sub_bytes(&line, 0, line.len() - 1)
        } else {
            line
        };
        proof {
            assert(stripped@ =~= strip_cr(t@.subrange(pos as int, le as int)));
        }
        in_deps = step_line(&stripped, in_deps, &mut pkgs, &mut name);
        if le < t.len() {
            pos = le + 1;
        } else {
            pos = t.len();
            proof {
                assert(le == t@.len());
            }
        }
    }
    (pkgs, name)
}


proof fn lemma_pkgish_run(t: Seq<u8>, i: int)
    requires
        0 <= i <= t.len(),
    ensures
        forall|j: int| i <= j < pkgish_end(t, i) ==> is_pkgish_byte(#[trigger] t[j]),
    decreases t.len() - i,
{
    lemma_pkgish_end_range(t, i);
    if i < t.len() && is_pkgish_byte(t[i]) {
        lemma_pkgish_run(t, i + 1);
    }
}

proof fn lemma_normalize_ascii(p: Seq<u8>)
    requires
        all_ascii(p),
    ensures
        all_ascii(normalize_name(p)),
{
    assert forall|j: int| 0 <= j < normalize_name(p).len() implies normalize_name(p)[j]
        < 128 by {
        assert(p[j] < 128);
    }
}

proof fn lemma_step_ascii(st: SpecManifestState, l: Seq<u8>)
    requires
        forall|j: int| 0 <= j < st.pkgs.len() ==> all_ascii(#[trigger] st.pkgs[j]),
        st.name matches Some(nm) ==> all_ascii(nm),
    ensures
        forall|j: int|
            0 <= j < manifest_step(st, l).pkgs.len() ==> all_ascii(
                #[trigger] manifest_step(st, l).pkgs[j],
            ),
        manifest_step(st, l).name matches Some(nm2) ==> all_ascii(nm2),
{
    crate::bytes::lemma_skip_ws_range(l, 0);
    let a = skip_ws(l, 0);
    lemma_pkgish_run(l, a);
    lemma_pkgish_end_range(l, a);
    match key_capture(l) {
        Some(kc) => {
            assert(all_ascii(kc));
            lemma_normalize_ascii(kc);
        },
        None => {},
    }
    match name_capture(l) {
        Some(nm) => {
            if matches_at(l, a, lit_name()) {
                let b = skip_ws(l, a + lit_name().len() as int);
                crate::bytes::lemma_skip_ws_range(l, a + lit_name().len() as int);
                if b < l.len() && l[b] == 61 {
                    match find_pkgish(l, b + 1) {
                        Some(d) => {
                            lemma_find_pkgish_range(l, b + 1);
                            lemma_pkgish_run(l, d);
                            lemma_pkgish_end_range(l, d);
                            assert(all_ascii(nm));
                            lemma_normalize_ascii(nm);
                        },
                        None => {},
                    }
                }
            }
        },
        None => {},
    }
}

proof fn lemma_find_pkgish_range(t: Seq<u8>, i: int)
    requires
        0 <= i,
    ensures
        find_pkgish(t, i) matches Some(d) ==> i <= d < t.len(),
    decreases t.len() - i,
{
    if i >= t.len() {
    } else if is_pkgish_byte(t[i]) {
    } else {
        lemma_find_pkgish_range(t, i + 1);
    }
}

/// Every dependency name and the package name a manifest resolution yields
/// are ASCII: key runs admit only word bytes, `|` and `-`.
pub proof fn lemma_manifest_from_ascii(t: Seq<u8>, pos: int, st: SpecManifestState)
    requires
        0 <= pos <= t.len(),
        forall|j: int| 0 <= j < st.pkgs.len() ==> all_ascii(#[trigger] st.pkgs[j]),
        st.name matches Some(nm) ==> all_ascii(nm),
    ensures
        forall|j: int|
            0 <= j < spec_manifest_from(t, pos, st).pkgs.len() ==> all_ascii(
                #[trigger] spec_manifest_from(t, pos, st).pkgs[j],
            ),
        spec_manifest_from(t, pos, st).name matches Some(nm2) ==> all_ascii(nm2),
    decreases t.len() - pos,
{
    if pos >= t.len() {
    } else {
        let le = line_end(t, pos);
        lemma_line_end_range(t, pos);
        let l = strip_cr(t.subrange(pos, le));
        lemma_step_ascii(st, l);
        if pos <= le && le < t.len() {
            lemma_manifest_from_ascii(t, le + 1, manifest_step(st, l));
        }
    }
}

pub proof fn lemma_manifest_ascii(t: Seq<u8>)
    ensures
        forall|j: int|
            0 <= j < spec_manifest(t).pkgs.len() ==> all_ascii(#[trigger] spec_manifest(t).pkgs[j]),
        spec_manifest(t).name matches Some(nm) ==> all_ascii(nm),
{
    lemma_manifest_from_ascii(
        t,
        0,
        SpecManifestState { in_deps: false, pkgs: Seq::empty(), name: None },
    );
}

} // verus!
