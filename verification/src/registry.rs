//! The per-category symbol registry: an ordered key-to-identifier mapping
//! built from the scanner's declarations. Keys are unique; a later
//! declaration with an existing key overwrites the earlier identifier in
//! place (last match wins), keeping the first occurrence's position.
use vstd::prelude::*;

use crate::bytes::{all_ascii, ascii_string, ascii_view, bytes_eq, copy_bytes, opt_bytes_view};
use crate::scan::{decl_seq_view, DeclarationRecord, SpecDecl};

verus! {

pub open spec fn handles_view(h: Seq<(Vec<u8>, Vec<u8>)>) -> Seq<(Seq<u8>, Seq<u8>)> {
    h.map(|_i: int, kv: (Vec<u8>, Vec<u8>)| (kv.0@, kv.1@))
}

/// Well-formed registry contents: ASCII keys and identifiers, unique keys.
pub open spec fn wf_handles(h: Seq<(Seq<u8>, Seq<u8>)>) -> bool {
    &&& forall|i: int| 0 <= i < h.len() ==> all_ascii((#[trigger] h[i]).0) && all_ascii(h[i].1)
    &&& forall|i: int, j: int|
        0 <= i < j < h.len() ==> (#[trigger] h[i]).0 != (#[trigger] h[j]).0
}

/// Binding `k` to `v`: the first entry with key `k` is overwritten in place,
/// or the binding is appended when the key is new.
pub open spec fn spec_insert(h: Seq<(Seq<u8>, Seq<u8>)>, k: Seq<u8>, v: Seq<u8>) -> Seq<
    (Seq<u8>, Seq<u8>),
>
    decreases h.len(),
{
    if h.len() == 0 {
        seq![(k, v)]
    } else if h[0].0 == k {
        seq![(k, v)] + h.skip(1)
    } else {
        seq![h[0]] + spec_insert(h.skip(1), k, v)
    }
}

/// The registry contents after binding every scanned declaration in file
/// order, starting from `acc`.
pub open spec fn spec_registry(recs: Seq<SpecDecl>, i: int, acc: Seq<(Seq<u8>, Seq<u8>)>) -> Seq<
    (Seq<u8>, Seq<u8>),
>
    decreases recs.len() - i when 0 <= i <= recs.len()
{
    if i >= recs.len() {
        acc
    } else {
        spec_registry(recs, i + 1, spec_insert(acc, recs[i].key, recs[i].ident))
    }
}

/// The identifier bound to key `k`, if any.
pub open spec fn spec_get(h: Seq<(Seq<u8>, Seq<u8>)>, k: Seq<u8>) -> Option<Seq<u8>>
    decreases h.len(),
{
    if h.len() == 0 {
        None
    } else if h[0].0 == k {
        Some(h[0].1)
    } else {
        spec_get(h.skip(1), k)
    }
}

proof fn lemma_insert_found(h: Seq<(Seq<u8>, Seq<u8>)>, k: Seq<u8>, v: Seq<u8>, i: int)
    requires
        0 <= i < h.len(),
        h[i].0 == k,
        forall|j: int| 0 <= j < i ==> (#[trigger] h[j]).0 != k,
    ensures
        spec_insert(h, k, v) == h.update(i, (k, v)),
    decreases i,
{
    if i == 0 {
        assert(seq![(k, v)] + h.skip(1) =~= h.update(0, (k, v)));
    } else {
        lemma_insert_found(h.skip(1), k, v, i - 1);
        assert(seq![h[0]] + h.skip(1).update(i - 1, (k, v)) =~= h.update(i, (k, v)));
    }
}

proof fn lemma_insert_absent(h: Seq<(Seq<u8>, Seq<u8>)>, k: Seq<u8>, v: Seq<u8>)
    requires
        forall|j: int| 0 <= j < h.len() ==> (#[trigger] h[j]).0 != k,
    ensures
        spec_insert(h, k, v) == h.push((k, v)),
    decreases h.len(),
{
    if h.len() == 0 {
        assert(seq![(k, v)] =~= h.push((k, v)));
    } else {
        lemma_insert_absent(h.skip(1), k, v);
        assert(seq![h[0]] + h.skip(1).push((k, v)) =~= h.push((k, v)));
    }
}

fn registry_insert(hs: &mut Vec<(Vec<u8>, Vec<u8>)>, k: Vec<u8>, v: Vec<u8>)
    ensures
        handles_view(final(hs)@) == spec_insert(handles_view(old(hs)@), k@, v@),
        wf_handles(handles_view(old(hs)@)) && all_ascii(k@) && all_ascii(v@) ==> wf_handles(
            handles_view(final(hs)@),
        ),
{
    let ghost h0 = handles_view(hs@);
    let mut idx: usize = 0;
    let mut found = false;
    while idx < hs.len()
        invariant
            idx <= hs@.len(),
            h0 == handles_view(hs@),
            h0.len() == hs@.len(),
            !found ==> forall|j: int| 0 <= j < idx ==> (#[trigger] h0[j]).0 != k@,
            found ==> (idx < hs@.len() && h0[idx as int].0 == k@ && forall|j: int|
                0 <= j < idx ==> (#[trigger] h0[j]).0 != k@),
        ensures
            found ==> (idx < hs@.len() && h0[idx as int].0 == k@ && forall|j: int|
                0 <= j < idx ==> (#[trigger] h0[j]).0 != k@),
            !found ==> forall|j: int| 0 <= j < h0.len() ==> (#[trigger] h0[j]).0 != k@,
        decreases hs@.len() - idx,
    {
        if bytes_eq(&hs[idx].0, &k) {
            found = true;
            break ;
        }
        idx += 1;
    }
    if found {
        proof {
            lemma_insert_found(h0, k@, v@, idx as int);
        }
        hs.remove(idx);
        hs.insert(idx, (k, v));
        proof {
            assert(handles_view(hs@) =~= h0.update(idx as int, (k@, v@)));
        }
    } else {
        proof {
            lemma_insert_absent(h0, k@, v@);
        }
        hs.push((k, v));
        proof {
            assert(handles_view(hs@) =~= h0.push((k@, v@)));
        }
    }
    proof {
        if wf_handles(h0) && all_ascii(k@) && all_ascii(v@) {
            assert(wf_handles(handles_view(hs@)));
        }
    }
}

pub open spec fn lit_list_sep() -> Seq<u8> {
    seq![44, 32]
}

pub open spec fn lit_map_sep() -> Seq<u8> {
    seq![44, 10, 32, 32, 32, 32, 32, 32, 32, 32]
}

pub open spec fn lit_kv_sep() -> Seq<u8> {
    seq![58, 32]
}

/// The identifiers of all handles from index `i` on, joined by `", "`.
pub open spec fn spec_list_bytes(h: Seq<(Seq<u8>, Seq<u8>)>, i: int) -> Seq<u8>
    decreases h.len() - i when 0 <= i <= h.len()
{
    if i >= h.len() {
        Seq::empty()
    } else if i + 1 == h.len() {
        h[i].1
    } else {
        h[i].1 + lit_list_sep() + spec_list_bytes(h, i + 1)
    }
}

/// All `key: identifier` pairs from index `i` on, joined by a comma, a line
/// feed and an eight-space indent.
pub open spec fn spec_map_bytes(h: Seq<(Seq<u8>, Seq<u8>)>, i: int) -> Seq<u8>
    decreases h.len() - i when 0 <= i <= h.len()
{
    if i >= h.len() {
        Seq::empty()
    } else if i + 1 == h.len() {
        h[i].0 + lit_kv_sep() + h[i].1
    } else {
        h[i].0 + lit_kv_sep() + h[i].1 + lit_map_sep() + spec_map_bytes(h, i + 1)
    }
}

/// One per-category registry: the module file's path and its discovered
/// handles.
#[derive(Debug)]
pub struct Module {
    path: Vec<u8>,
    handles: Vec<(Vec<u8>, Vec<u8>)>,
}

impl Module {
    pub closed spec fn handles_seq(&self) -> Seq<(Seq<u8>, Seq<u8>)> {
        handles_view(self.handles@)
    }

    pub closed spec fn path_seq(&self) -> Seq<u8> {
        self.path@
    }

    /// Well-formedness: ASCII handle text and unique keys.
    pub open spec fn wf(&self) -> bool {
        wf_handles(self.handles_seq())
    }

    /// An empty registry for the module file at `path`.
    pub fn new(path: Vec<u8>) -> (r: Module)
        ensures
            r.path_seq() == path@,
            r.handles_seq() == Seq::<(Seq<u8>, Seq<u8>)>::empty(),
            r.wf(),
    {
        let r = Module { path, handles: Vec::new() };
        proof {
            assert(r.handles_seq() =~= Seq::<(Seq<u8>, Seq<u8>)>::empty());
        }
        r
    }

    /// The registry for the module file at `path`, built by binding every
    /// scanned declaration in file order.
    pub fn from_records(path: Vec<u8>, records: &Vec<DeclarationRecord>) -> (r: Module)
        requires
            forall|j: int|
                0 <= j < records@.len() ==> all_ascii(
                    (#[trigger] decl_seq_view(records@)[j]).key,
                ) && all_ascii(decl_seq_view(records@)[j].ident),
        ensures
            r.path_seq() == path@,
            r.handles_seq() == spec_registry(
                decl_seq_view(records@),
                0,
                Seq::<(Seq<u8>, Seq<u8>)>::empty(),
            ),
            r.wf(),
    {
        let ghost rv = decl_seq_view(records@);
        let mut m = Module::new(path);
        let mut i: usize = 0;
        while i < records.len()
            invariant
                i <= records@.len(),
                rv == decl_seq_view(records@),
                rv.len() == records@.len(),
                m.path@ == path@,
                m.wf(),
                forall|j: int|
                    0 <= j < rv.len() ==> all_ascii((#[trigger] rv[j]).key) && all_ascii(
                        rv[j].ident,
                    ),
                spec_registry(rv, 0, Seq::<(Seq<u8>, Seq<u8>)>::empty()) == spec_registry(
                    rv,
                    i as int,
                    handles_view(m.handles@),
                ),
            decreases records@.len() - i,
        {
            proof {
                assert(rv[i as int] == crate::scan::decl_view(records@[i as int]));
            }
            let rec = &records[i];
            let k = copy_bytes(&rec.key);
            let v = copy_bytes(&rec.identifier);
            registry_insert(&mut m.handles, k, v);
            i += 1;
        }
        m
    }

    /// Binds `key` to `identifier`, overwriting the identifier of an
    /// existing key in place.
    pub fn insert(&mut self, key: Vec<u8>, identifier: Vec<u8>)
        requires
            old(self).wf(),
            all_ascii(key@),
            all_ascii(identifier@),
        ensures
            final(self).handles_seq() == spec_insert(old(self).handles_seq(), key@, identifier@),
            final(self).path_seq() == old(self).path_seq(),
            final(self).wf(),
    {
        registry_insert(&mut self.handles, key, identifier);
    }

    /// The identifier bound to `key`, if any.
    pub fn get(&self, key: &Vec<u8>) -> (r: Option<Vec<u8>>)
        ensures
            opt_bytes_view(r) == spec_get(self.handles_seq(), key@),
    {
        let ghost h = self.handles_seq();
        let mut i: usize = 0;
        proof {
            assert(h.skip(0) =~= h);
        }
        while i < self.handles.len()
            invariant
                i <= self.handles@.len(),
                h == self.handles_seq(),
                h.len() == self.handles@.len(),
                spec_get(h, key@) == spec_get(h.skip(i as int), key@),
            decreases self.handles@.len() - i,
        {
            proof {
                assert(h.skip(i as int)[0] == h[i as int]);
                assert(h.skip(i as int).skip(1) =~= h.skip(i + 1));
            }
            if bytes_eq(&self.handles[i].0, key) {
                return Some(copy_bytes(&self.handles[i].1));
            }
            i += 1;
        }
        proof {
            assert(h.skip(h.len() as int) =~= Seq::<(Seq<u8>, Seq<u8>)>::empty());
        }
        None
    }

    /// The identifier of the first handle, if any: the sole expected entry
    /// for single-handle categories such as the spider.
    pub fn first_identifier(&self) -> (r: Option<Vec<u8>>)
        ensures
            self.handles_seq().len() == 0 <==> r is None,
            r matches Some(v) ==> (self.handles_seq().len() > 0 && v@ == self.handles_seq()[0].1),
    {
        if self.handles.len() == 0 {
            None
        } else {
            Some(copy_bytes(&self.handles[0].1))
        }
    }

    /// The number of handles.
    pub fn len(&self) -> (r: usize)
        ensures
            r == self.handles_seq().len(),
    {
        self.handles.len()
    }

    /// The joined identifier list as bytes.
    pub fn list_bytes(&self) -> (r: Vec<u8>)
        requires
            self.wf(),
        ensures
            r@ == spec_list_bytes(self.handles_seq(), 0),
            all_ascii(r@),
    {
        let ghost h = self.handles_seq();
        let mut out: Vec<u8> = Vec::new();
        let mut i: usize = 0;
        while i < self.handles.len()
            invariant
                i <= self.handles@.len(),
                h == self.handles_seq(),
                h.len() == self.handles@.len(),
                wf_handles(h),
                all_ascii(out@),
                out@ + spec_list_bytes(h, i as int) == spec_list_bytes(h, 0),
            decreases self.handles@.len() - i,
        {
            let ghost out0 = out@;
            crate::bytes::append_bytes(&mut out, &self.handles[i].1);
            if i + 1 < self.handles.len() {
                out.push(44);
                out.push(32);
                proof {
                    assert(out@ =~= (out0 + h[i as int].1) + lit_list_sep());
                    assert(out0 + (h[i as int].1 + lit_list_sep() + spec_list_bytes(h, i + 1))
                        =~= ((out0 + h[i as int].1) + lit_list_sep()) + spec_list_bytes(h, i + 1));
                }
            } else {
                proof {
                    assert(out0 + h[i as int].1 =~= out0 + (h[i as int].1));
                }
            }
            i += 1;
        }
        proof {
            assert(out@ + spec_list_bytes(h, i as int) =~= out@);
        }
        out
    }

    /// The joined `key: identifier` map body as bytes.
    pub fn map_bytes(&self) -> (r: Vec<u8>)
        requires
            self.wf(),
        ensures
            r@ == spec_map_bytes(self.handles_seq(), 0),
            all_ascii(r@),
    {
        let ghost h = self.handles_seq();
        let mut out: Vec<u8> = Vec::new();
        let mut i: usize = 0;
        while i < self.handles.len()
            invariant
                i <= self.handles@.len(),
                h == self.handles_seq(),
                h.len() == self.handles@.len(),
                wf_handles(h),
                all_ascii(out@),
                out@ + spec_map_bytes(h, i as int) == spec_map_bytes(h, 0),
            decreases self.handles@.len() - i,
        {
            let ghost out0 = out@;
            crate::bytes::append_bytes(&mut out, &self.handles[i].0);
            out.push(58);
            out.push(32);
            crate::bytes::append_bytes(&mut out, &self.handles[i].1);
            let ghost item = h[i as int].0 + lit_kv_sep() + h[i as int].1;
            proof {
                assert(out@ =~= out0 + item);
            }
            if i + 1 < self.handles.len() {
                out.push(44);
                out.push(10);
                let mut sp: usize = 0;
                while sp < 8
                    invariant
                        sp <= 8,
                        out@ == out0 + item + seq![44u8, 10u8] + Seq::new(
                            sp as nat,
                            |x: int| 32u8,
                        ),
                    decreases 8 - sp,
                {
                    let ghost outp = out@;
                    out.push(32);
                    proof {
                        assert(out@ =~= out0 + item + seq![44u8, 10u8] + Seq::new(
                            (sp + 1) as nat,
                            |x: int| 32u8,
                        ));
                    }
                    sp += 1;
                }
                proof {
                    assert(out@ =~= (out0 + item) + lit_map_sep());
                    assert(out0 + (item + lit_map_sep() + spec_map_bytes(h, i + 1)) =~= ((out0
                        + item) + lit_map_sep()) + spec_map_bytes(h, i + 1));
                }
            }
            i += 1;
        }
        proof {
            assert(out@ + spec_map_bytes(h, i as int) =~= out@);
        }
        out
    }

    /// The comma-separated identifier list, for the generated import lines.
    pub fn get_list(&self) -> (r: String)
        requires
            self.wf(),
        ensures
            r@ == ascii_view(spec_list_bytes(self.handles_seq(), 0)),
    {
        let b = self.list_bytes();
        ascii_string(&b)
    }

    /// The `key: identifier` listing, for the generated initializer maps.
    pub fn get_map(&self) -> (r: String)
        requires
            self.wf(),
        ensures
            r@ == ascii_view(spec_map_bytes(self.handles_seq(), 0)),
    {
        let b = self.map_bytes();
        ascii_string(&b)
    }
}

} // verus!
