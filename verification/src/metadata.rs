//! The project metadata: the five per-category registries, the declared
//! dependency set, the resolved content type and package name, and the
//! rendering of the generated entry-point source text from a fixed template.
use vstd::prelude::*;

use crate::bytes::{
    all_ascii, ascii_string, ascii_view, bytes_eq, copy_bytes, replace_all, spec_replace,
    spec_trim, sub_bytes, trim_bytes,
};
use crate::errors::GenError;
use crate::manifest::{spec_manifest, resolve_manifest};
use crate::registry::{
    spec_get, spec_list_bytes, spec_map_bytes, spec_registry, Module,
};
use crate::scan::{find_lit_before, scan_module, spec_scan_module, Category};
use vstd::string::{StrSliceExecFns, StringSliceAdditionalSpecFns};

verus! {

pub open spec fn lit_coloncolon() -> Seq<u8> {
    seq![58, 58]
}

fn vec_coloncolon() -> (r: Vec<u8>)
    ensures
        r@ == lit_coloncolon(),
{
    let mut v: Vec<u8> = Vec::new();
    v.push(58);
    v.push(58);
    proof {
        assert(v@ =~= lit_coloncolon());
    }
    v
}

/// The root segment of a dotted type path: the trimmed text before the first
/// `::`, or the whole trimmed path when there is none.
pub open spec fn spec_ctype_root(ct: Seq<u8>) -> Seq<u8> {
    match find_lit_before(ct, 0, ct.len() as int, lit_coloncolon()) {
        Some(p) => spec_trim(ct.subrange(0, p)),
        None => spec_trim(ct),
    }
}

/// The root is one of the declared dependency names.
pub open spec fn contains_pkg(pkgs: Seq<Seq<u8>>, root: Seq<u8>) -> bool {
    exists|j: int| 0 <= j < pkgs.len() && pkgs[j] == root
}

pub open spec fn lit_std() -> Seq<u8> {
    seq![115, 116, 100]
}

fn vec_std() -> (r: Vec<u8>)
    ensures
        r@ == lit_std(),
{
    let mut v: Vec<u8> = Vec::new();
    v.push(115);
    v.push(116);
    v.push(100);
    proof {
        assert(v@ =~= lit_std());
    }
    v
}

pub open spec fn lit_extern_crate() -> Seq<u8> {
    seq![101, 120, 116, 101, 114, 110, 32, 99, 114, 97, 116, 101, 32]
}

fn vec_extern_crate() -> (r: Vec<u8>)
    ensures
        r@ == lit_extern_crate(),
{
    let mut v: Vec<u8> = Vec::new();
    v.push(101);
    v.push(120);
    v.push(116);
    v.push(101);
    v.push(114);
    v.push(110);
    v.push(32);
    v.push(99);
    v.push(114);
    v.push(97);
    v.push(116);
    v.push(101);
    v.push(32);
    proof {
        assert(v@ =~= lit_extern_crate());
    }
    v
}

/// The generated dependency import lines: one `extern crate name;` line per
/// declared dependency other than the implicit standard-library entry,
/// joined by line feeds.
pub open spec fn spec_pkg_list_from(pkgs: Seq<Seq<u8>>, i: int, first: bool) -> Seq<u8>
    decreases pkgs.len() - i when 0 <= i <= pkgs.len()
{
    if i >= pkgs.len() {
        Seq::empty()
    } else if pkgs[i] == lit_std() {
        spec_pkg_list_from(pkgs, i + 1, first)
    } else {
        (if first {
            Seq::<u8>::empty()
        } else {
            seq![10u8]
        }) + lit_extern_crate() + pkgs[i] + seq![59u8] + spec_pkg_list_from(pkgs, i + 1, false)
    }
}

pub open spec fn spec_pkg_list(pkgs: Seq<Seq<u8>>) -> Seq<u8> {
    spec_pkg_list_from(pkgs, 0, true)
}

pub open spec fn key_entities() -> Seq<u8> {
    ("entities").spec_bytes()
}

pub open spec fn key_targ() -> Seq<u8> {
    ("targ").spec_bytes()
}

pub open spec fn key_parg() -> Seq<u8> {
    ("parg").spec_bytes()
}

pub open spec fn default_targ() -> Seq<u8> {
    ("Targ").spec_bytes()
}

pub open spec fn default_parg() -> Seq<u8> {
    ("Parg").spec_bytes()
}

/// The target-type name: the `targ` handle of the entity registry, or the
/// fixed default.
pub open spec fn spec_targ(enh: Seq<(Seq<u8>, Seq<u8>)>) -> Seq<u8> {
    match spec_get(enh, key_targ()) {
        Some(v) => v,
        None => default_targ(),
    }
}

/// The parameter-type name: the `parg` handle of the entity registry, or the
/// fixed default.
pub open spec fn spec_parg(enh: Seq<(Seq<u8>, Seq<u8>)>) -> Seq<u8> {
    match spec_get(enh, key_parg()) {
        Some(v) => v,
        None => default_parg(),
    }
}

pub open spec fn template_bytes() -> Seq<u8> {
    (r"//#![allow(unused_imports)]

<+get_pkg_list+>
extern crate <+package_name+>; 

use dyer::*;
use <+package_name+>::entity::{<+entities+>, <+targ+>, <+parg+>};
use <+package_name+>::<+spider+>;
use <+package_name+>::middleware::{<+get_middleware_list+>};
use <+package_name+>::pipeline::{<+get_pipeline_list+>};
use std::sync::{Arc, Mutex};
<+ctype_import+>

#[tokio::main]
async fn main() {
    simple_logger::SimpleLogger::new()
        .with_level(log::LevelFilter::Info)
        .init()
        .unwrap();
    let middleware = plug!( MiddleWare<<+entities+>, <+targ+>, <+parg+>> {
        <+get_middleware_map+>
    });
    let pipeline = plug!( PipeLine<<+entities+>, <+ctype+>> {
        <+get_pipeline_map+>
    } );
    let spider = <+spider+>::new();
    let mut app = dyer::App::<<+entities+>, <+targ+>, <+parg+>>::new();
    app.run(&spider, &middleware, pipeline).await.unwrap();
}
        ").spec_bytes()
}

fn template_vec() -> (r: Vec<u8>)
    ensures
        r@ == template_bytes(),
{
    (r"//#![allow(unused_imports)]

<+get_pkg_list+>
extern crate <+package_name+>; 

use dyer::*;
use <+package_name+>::entity::{<+entities+>, <+targ+>, <+parg+>};
use <+package_name+>::<+spider+>;
use <+package_name+>::middleware::{<+get_middleware_list+>};
use <+package_name+>::pipeline::{<+get_pipeline_list+>};
use std::sync::{Arc, Mutex};
<+ctype_import+>

#[tokio::main]
async fn main() {
    simple_logger::SimpleLogger::new()
        .with_level(log::LevelFilter::Info)
        .init()
        .unwrap();
    let middleware = plug!( MiddleWare<<+entities+>, <+targ+>, <+parg+>> {
        <+get_middleware_map+>
    });
    let pipeline = plug!( PipeLine<<+entities+>, <+ctype+>> {
        <+get_pipeline_map+>
    } );
    let spider = <+spider+>::new();
    let mut app = dyer::App::<<+entities+>, <+targ+>, <+parg+>>::new();
    app.run(&spider, &middleware, pipeline).await.unwrap();
}
        ").as_bytes_vec()
}

pub open spec fn p_package_name() -> Seq<u8> {
    ("<+package_name+>").spec_bytes()
}

pub open spec fn p_entities() -> Seq<u8> {
    ("<+entities+>").spec_bytes()
}

pub open spec fn p_targ() -> Seq<u8> {
    ("<+targ+>").spec_bytes()
}

pub open spec fn p_parg() -> Seq<u8> {
    ("<+parg+>").spec_bytes()
}

pub open spec fn p_spider() -> Seq<u8> {
    ("<+spider+>").spec_bytes()
}

pub open spec fn p_pkg_list() -> Seq<u8> {
    ("<+get_pkg_list+>").spec_bytes()
}

pub open spec fn p_mw_list() -> Seq<u8> {
    ("<+get_middleware_list+>").spec_bytes()
}

pub open spec fn p_mw_map() -> Seq<u8> {
    ("<+get_middleware_map+>").spec_bytes()
}

pub open spec fn p_pl_list() -> Seq<u8> {
    ("<+get_pipeline_list+>").spec_bytes()
}

pub open spec fn p_pl_map() -> Seq<u8> {
    ("<+get_pipeline_map+>").spec_bytes()
}

pub open spec fn p_ctype() -> Seq<u8> {
    ("<+ctype+>").spec_bytes()
}

pub open spec fn p_ctype_import() -> Seq<u8> {
    ("<+ctype_import+>").spec_bytes()
}

/// The generated entry-point text: the fixed template with each placeholder
/// substituted, in the fixed order, every occurrence at once.
pub open spec fn spec_render(
    package_name: Seq<u8>,
    entities: Seq<u8>,
    targ: Seq<u8>,
    parg: Seq<u8>,
    spider: Seq<u8>,
    pkg_list: Seq<u8>,
    mw_list: Seq<u8>,
    mw_map: Seq<u8>,
    pl_list: Seq<u8>,
    pl_map: Seq<u8>,
    ctype: Seq<u8>,
    ctype_import: Seq<u8>,
) -> Seq<u8> {
    let t1 = spec_replace(template_bytes(), p_package_name(), package_name);
    let t2 = spec_replace(t1, p_entities(), entities);
    let t3 = spec_replace(t2, p_targ(), targ);
    let t4 = spec_replace(t3, p_parg(), parg);
    let t5 = spec_replace(t4, p_spider(), spider);
    let t6 = spec_replace(t5, p_pkg_list(), pkg_list);
    let t7 = spec_replace(t6, p_mw_list(), mw_list);
    let t8 = spec_replace(t7, p_mw_map(), mw_map);
    let t9 = spec_replace(t8, p_pl_list(), pl_list);
    let t10 = spec_replace(t9, p_pl_map(), pl_map);
    let t11 = spec_replace(t10, p_ctype(), ctype);
    spec_replace(t11, p_ctype_import(), ctype_import)
}

/// The registry a successful scan of `t` yields; meaningful only when the
/// scan succeeds.
pub open spec fn scan_handles(t: Seq<u8>, is_pipeline: bool) -> Seq<(Seq<u8>, Seq<u8>)> {
    match spec_scan_module(t, is_pipeline) {
        Ok(p) => spec_registry(p.0, 0, Seq::empty()),
        Err(_) => Seq::empty(),
    }
}

/// The content type a successful pipeline scan resolves, if any.
pub open spec fn scan_ct(t: Seq<u8>) -> Option<Seq<u8>> {
    match spec_scan_module(t, true) {
        Ok(p) => p.1,
        Err(_) => None,
    }
}

/// The in-memory project metadata, populated once per invocation from the
/// manifest and the five module files.
#[derive(Debug)]
pub struct MetaData {
    middleware: Module,
    pipeline: Module,
    parser: Module,
    entity: Module,
    spider: Module,
    pkgs: Vec<Vec<u8>>,
    ctype: Vec<u8>,
    base_dir: Vec<u8>,
    pub package_name: Vec<u8>,
}

impl MetaData {
    pub closed spec fn module_of(&self, c: Category) -> Module {
        match c {
            Category::Middleware => self.middleware,
            Category::Pipeline => self.pipeline,
            Category::Parser => self.parser,
            Category::Entity => self.entity,
            Category::Spider => self.spider,
        }
    }

    pub closed spec fn pkgs_seq(&self) -> Seq<Seq<u8>> {
        self.pkgs.deep_view()
    }

    pub closed spec fn ctype_seq(&self) -> Seq<u8> {
        self.ctype@
    }

    pub closed spec fn base_dir_seq(&self) -> Seq<u8> {
        self.base_dir@
    }

    pub closed spec fn package_name_seq(&self) -> Seq<u8> {
        self.package_name@
    }

    /// Well-formedness: every registry is well formed, and the dependency
    /// names and package name are ASCII.
    pub open spec fn wf(&self) -> bool {
        &&& self.module_of(Category::Middleware).wf()
        &&& self.module_of(Category::Pipeline).wf()
        &&& self.module_of(Category::Parser).wf()
        &&& self.module_of(Category::Entity).wf()
        &&& self.module_of(Category::Spider).wf()
        &&& forall|j: int| 0 <= j < self.pkgs_seq().len() ==> all_ascii(#[trigger] self.pkgs_seq()[j])
        &&& all_ascii(self.package_name_seq())
    }

    /// Fresh metadata: empty registries, the implicit standard-library
    /// dependency, an empty content type and package name, and the current
    /// directory as base.
    pub fn new() -> (r: MetaData)
        ensures
            r.pkgs_seq() == seq![lit_std()],
            r.ctype_seq() == Seq::<u8>::empty(),
            r.base_dir_seq() == ("./").spec_bytes(),
            r.package_name_seq() == Seq::<u8>::empty(),
            forall|c: Category| (#[trigger] r.module_of(c)).handles_seq() == Seq::<(
                Seq<u8>,
                Seq<u8>,
            )>::empty(),
            r.wf(),
    {
        let mut pkgs: Vec<Vec<u8>> = Vec::new();
        pkgs.push(vec_std());
        let r = MetaData {
            middleware: Module::new(Vec::new()),
            pipeline: Module::new(Vec::new()),
            parser: Module::new(Vec::new()),
            entity: Module::new(Vec::new()),
            spider: Module::new(Vec::new()),
            pkgs,
            ctype: Vec::new(),
            base_dir: ("./").as_bytes_vec(),
            package_name: Vec::new(),
        };
        proof {
            assert(r.pkgs_seq() =~~= seq![lit_std()]);
            assert(all_ascii(lit_std()));
        }
        r
    }

    /// One registry, by its category.
    pub fn module(&self, c: Category) -> (r: &Module)
        ensures
            *r == self.module_of(c),
    {
        match c {
            Category::Middleware => &self.middleware,
            Category::Pipeline => &self.pipeline,
            Category::Parser => &self.parser,
            Category::Entity => &self.entity,
            Category::Spider => &self.spider,
        }
    }

    /// Applies the manifest resolution: the declared dependency names extend
    /// the dependency list, and the declared package name, if one is
    /// captured, replaces the current one.
    pub fn get_pkg(&mut self, manifest_text: &Vec<u8>)
        ensures
            final(self).pkgs_seq() == old(self).pkgs_seq() + spec_manifest(manifest_text@).pkgs,
            final(self).package_name_seq() == (match spec_manifest(manifest_text@).name {
                Some(n) => n,
                None => old(self).package_name_seq(),
            }),
            final(self).ctype_seq() == old(self).ctype_seq(),
            final(self).base_dir_seq() == old(self).base_dir_seq(),
            forall|c: Category| #[trigger] final(self).module_of(c) == old(self).module_of(c),
            old(self).wf() ==> final(self).wf(),
    {
        let (mut found, name) = resolve_manifest(manifest_text);
        let ghost pk0 = self.pkgs.deep_view();
        let ghost fv = found.deep_view();
        let mut i: usize = 0;
        while i < found.len()
            invariant
                i <= found@.len(),
                fv == found.deep_view(),
                fv.len() == found@.len(),
                self.pkgs.deep_view() == pk0 + fv.subrange(0, i as int),
                self.ctype@ == old(self).ctype@,
                self.base_dir@ == old(self).base_dir@,
                self.package_name_seq() == old(self).package_name_seq(),
                self.middleware == old(self).middleware,
                self.pipeline == old(self).pipeline,
                self.parser == old(self).parser,
                self.entity == old(self).entity,
                self.spider == old(self).spider,
            decreases found@.len() - i,
        {
            let ghost before = self.pkgs.deep_view();
            let p = copy_bytes(&found[i]);
            self.pkgs.push(p);
            proof {
                assert(self.pkgs.deep_view() =~~= before.push(fv[i as int]));
                assert(pk0 + fv.subrange(0, i + 1) =~= (pk0 + fv.subrange(0, i as int)).push(
                    fv[i as int],
                ));
            }
            i += 1;
        }
        proof {
            assert(fv.subrange(0, fv.len() as int) =~= fv);
        }
        match name {
            Some(n) => {
                self.package_name = n;
            },
            None => {},
        }
        proof {
            crate::manifest::lemma_manifest_ascii(manifest_text@);
            if old(self).wf() {
                assert forall|j: int| 0 <= j < self.pkgs_seq().len() implies all_ascii(
                    #[trigger] self.pkgs_seq()[j],
                ) by {
                    if j < pk0.len() {
                        assert(self.pkgs_seq()[j] == old(self).pkgs_seq()[j]);
                    } else {
                        assert(self.pkgs_seq()[j] == spec_manifest(manifest_text@).pkgs[j
                            - pk0.len()]);
                    }
                }
            }
        }
    }

    /// Checks that the content-type path's root segment is a declared
    /// dependency. On success the import line to add is empty, since the
    /// type is referred to by its full path; otherwise the offending root
    /// and the full known dependency list are reported.
    pub fn complete_path(&self) -> (r: Result<String, GenError>)
        ensures
            r is Ok <==> contains_pkg(self.pkgs_seq(), spec_ctype_root(self.ctype_seq())),
            r matches Ok(s) ==> s@ == Seq::<char>::empty(),
            r matches Err(e) ==> (e matches GenError::UnresolvedDependencyRoot { root, known }
                && root@ == spec_ctype_root(self.ctype_seq()) && known.deep_view()
                == self.pkgs_seq()),
    {
        let cc = vec_coloncolon();
        let piece = match crate::scan::find_lit_upto(&self.ctype, 0, self.ctype.len(), &cc) {
            Some(p) => sub_bytes(&self.ctype, 0, p),
            None => copy_bytes(&self.ctype),
        };
        let root = trim_bytes(&piece);
        proof {
            assert(self.ctype@.subrange(0, self.ctype@.len() as int) =~= self.ctype@);
        }
        let mut j: usize = 0;
        while j < self.pkgs.len()
            invariant
                j <= self.pkgs@.len(),
                root@ == spec_ctype_root(self.ctype_seq()),
                forall|x: int| 0 <= x < j ==> self.pkgs_seq()[x] != root@,
                self.pkgs_seq().len() == self.pkgs@.len(),
            decreases self.pkgs@.len() - j,
        {
            if bytes_eq(&self.pkgs[j], &root) {
                proof {
                    assert(self.pkgs_seq()[j as int] == root@);
                }
                return Ok(String::new());
            }
            proof {
                assert(self.pkgs_seq()[j as int] == self.pkgs@[j as int]@);
            }
            j += 1;
        }
        let mut known: Vec<Vec<u8>> = Vec::new();
        let mut k: usize = 0;
        while k < self.pkgs.len()
            invariant
                k <= self.pkgs@.len(),
                known.deep_view() == self.pkgs_seq().subrange(0, k as int),
                self.pkgs_seq().len() == self.pkgs@.len(),
            decreases self.pkgs@.len() - k,
        {
            let ghost before = known.deep_view();
            known.push(copy_bytes(&self.pkgs[k]));
            proof {
                assert(known.deep_view() =~~= before.push(self.pkgs_seq()[k as int]));
                assert(self.pkgs_seq().subrange(0, k + 1) =~= self.pkgs_seq().subrange(
                    0,
                    k as int,
                ).push(self.pkgs_seq()[k as int]));
            }
            k += 1;
        }
        proof {
            assert(self.pkgs_seq().subrange(0, self.pkgs_seq().len() as int) =~= self.pkgs_seq());
        }
        Err(GenError::UnresolvedDependencyRoot { root, known })
    }

    /// The joined dependency import lines as bytes.
    pub fn pkg_list_bytes(&self) -> (r: Vec<u8>)
        requires
            self.wf(),
        ensures
            r@ == spec_pkg_list(self.pkgs_seq()),
            all_ascii(r@),
    {
        let ghost pv = self.pkgs_seq();
        let std_lit = vec_std();
        let ext_lit = vec_extern_crate();
        let mut out: Vec<u8> = Vec::new();
        let mut first = true;
        let mut i: usize = 0;
        while i < self.pkgs.len()
            invariant
                i <= self.pkgs@.len(),
                pv == self.pkgs_seq(),
                pv.len() == self.pkgs@.len(),
                std_lit@ == lit_std(),
                ext_lit@ == lit_extern_crate(),
                all_ascii(ext_lit@),
                self.wf(),
                all_ascii(out@),
                out@ + spec_pkg_list_from(pv, i as int, first) == spec_pkg_list(pv),
            decreases self.pkgs@.len() - i,
        {
            proof {
                assert(pv[i as int] == self.pkgs@[i as int]@);
            }
            if !bytes_eq(&self.pkgs[i], &std_lit) {
                let ghost out0 = out@;
                if !first {
                    out.push(10);
                }
                crate::bytes::append_bytes(&mut out, &ext_lit);
                crate::bytes::append_bytes(&mut out, &self.pkgs[i]);
                out.push(59);
                proof {
                    let lead: Seq<u8> = if first {
                        Seq::<u8>::empty()
                    } else {
                        seq![10u8]
                    };
                    assert(out@ =~= out0 + lead + ext_lit@ + pv[i as int] + seq![59u8]);
                    assert(out0 + (lead + lit_extern_crate() + pv[i as int] + seq![59u8]
                        + spec_pkg_list_from(pv, i + 1, false)) =~= (out0 + lead + ext_lit@
                        + pv[i as int] + seq![59u8]) + spec_pkg_list_from(pv, i + 1, false));
                }
                first = false;
            }
            i += 1;
        }
        proof {
            assert(out@ + spec_pkg_list_from(pv, i as int, first) =~= out@);
        }
        out
    }

    /// The dependency import lines for the generated entry point.
    pub fn get_pkg_list(&self) -> (r: String)
        requires
            self.wf(),
        ensures
            r@ == ascii_view(spec_pkg_list(self.pkgs_seq())),
    {
        let b = self.pkg_list_bytes();
        ascii_string(&b)
    }

    /// Renders the generated entry-point text. Fails when the entity
    /// registry lacks the `entities` handle, when the spider registry is
    /// empty, or when the content-type root is not a declared dependency,
    /// in that order.
    pub fn make_main(&self) -> (r: Result<Vec<u8>, GenError>)
        requires
            self.wf(),
        ensures
            r is Ok <==> (spec_get(self.module_of(Category::Entity).handles_seq(), key_entities())
                is Some && self.module_of(Category::Spider).handles_seq().len() > 0 && contains_pkg(
                self.pkgs_seq(),
                spec_ctype_root(self.ctype_seq()),
            )),
            r matches Ok(text) ==> text@ == spec_render(
                self.package_name_seq(),
                spec_get(self.module_of(Category::Entity).handles_seq(), key_entities()).unwrap(),
                spec_targ(self.module_of(Category::Entity).handles_seq()),
                spec_parg(self.module_of(Category::Entity).handles_seq()),
                self.module_of(Category::Spider).handles_seq()[0].1,
                spec_pkg_list(self.pkgs_seq()),
                spec_list_bytes(self.module_of(Category::Middleware).handles_seq(), 0),
                spec_map_bytes(self.module_of(Category::Middleware).handles_seq(), 0),
                spec_list_bytes(self.module_of(Category::Pipeline).handles_seq(), 0),
                spec_map_bytes(self.module_of(Category::Pipeline).handles_seq(), 0),
                self.ctype_seq(),
                Seq::<u8>::empty(),
            ),
            spec_get(self.module_of(Category::Entity).handles_seq(), key_entities()) is None ==> r
                == Err::<Vec<u8>, GenError>(GenError::RequiredKeyMissing),
            (spec_get(self.module_of(Category::Entity).handles_seq(), key_entities()) is Some
                && self.module_of(Category::Spider).handles_seq().len() == 0) ==> r == Err::<
                Vec<u8>,
                GenError,
            >(GenError::RequiredKeyMissing),
            (spec_get(self.module_of(Category::Entity).handles_seq(), key_entities()) is Some
                && self.module_of(Category::Spider).handles_seq().len() > 0 && !contains_pkg(
                self.pkgs_seq(),
                spec_ctype_root(self.ctype_seq()),
            )) ==> (r matches Err(e) && e matches GenError::UnresolvedDependencyRoot {
                root,
                known,
            } && root@ == spec_ctype_root(self.ctype_seq()) && known.deep_view()
                == self.pkgs_seq()),
    {
        let entities = match self.entity.get(&("entities").as_bytes_vec()) {
            Some(v) => v,
            None => {
                return Err(GenError::RequiredKeyMissing);
            },
        };
        let targ = match self.entity.get(&("targ").as_bytes_vec()) {
            Some(v) => v,
            None => ("Targ").as_bytes_vec(),
        };
        let parg = match self.entity.get(&("parg").as_bytes_vec()) {
            Some(v) => v,
            None => ("Parg").as_bytes_vec(),
        };
        let spider = match self.spider.first_identifier() {
            Some(v) => v,
            None => {
                return Err(GenError::RequiredKeyMissing);
            },
        };
        let mw_list = self.middleware.list_bytes();
        let mw_map = self.middleware.map_bytes();
        let pl_list = self.pipeline.list_bytes();
        let pl_map = self.pipeline.map_bytes();
        let ctype_import = match self.complete_path() {
            Ok(_) => Vec::<u8>::new(),
            Err(e) => {
                return Err(e);
            },
        };
        let pkg_list = self.pkg_list_bytes();
        let t0 = template_vec();
        let t1 = replace_all(&t0, &("<+package_name+>").as_bytes_vec(), &self.package_name);
        let t2 = replace_all(&t1, &("<+entities+>").as_bytes_vec(), &entities);
        let t3 = replace_all(&t2, &("<+targ+>").as_bytes_vec(), &targ);
        let t4 = replace_all(&t3, &("<+parg+>").as_bytes_vec(), &parg);
        let t5 = replace_all(&t4, &("<+spider+>").as_bytes_vec(), &spider);
        let t6 = replace_all(&t5, &("<+get_pkg_list+>").as_bytes_vec(), &pkg_list);
        let t7 = replace_all(&t6, &("<+get_middleware_list+>").as_bytes_vec(), &mw_list);
        let t8 = replace_all(&t7, &("<+get_middleware_map+>").as_bytes_vec(), &mw_map);
        let t9 = replace_all(&t8, &("<+get_pipeline_list+>").as_bytes_vec(), &pl_list);
        let t10 = replace_all(&t9, &("<+get_pipeline_map+>").as_bytes_vec(), &pl_map);
        let t11 = replace_all(&t10, &("<+ctype+>").as_bytes_vec(), &self.ctype);
        let t12 = replace_all(&t11, &("<+ctype_import+>").as_bytes_vec(), &ctype_import);
        Ok(t12)
    }

    /// Populates the metadata: resolves the manifest, then scans the five
    /// module files in the fixed order (middleware, pipeline, parser,
    /// entity, spider), builds each registry, and adopts the pipeline's
    /// resolved content type. The first scan failure aborts the run.
    pub fn init(
        &mut self,
        manifest_text: &Vec<u8>,
        middleware_text: &Vec<u8>,
        pipeline_text: &Vec<u8>,
        parser_text: &Vec<u8>,
        entity_text: &Vec<u8>,
        spider_text: &Vec<u8>,
    ) -> (r: Result<(), GenError>)
        ensures
            r is Ok <==> (spec_scan_module(middleware_text@, false) is Ok && spec_scan_module(
                pipeline_text@,
                true,
            ) is Ok && spec_scan_module(parser_text@, false) is Ok && spec_scan_module(
                entity_text@,
                false,
            ) is Ok && spec_scan_module(spider_text@, false) is Ok),
            spec_scan_module(middleware_text@, false) matches Err(e) ==> r == Err::<(), GenError>(
                e,
            ),
            spec_scan_module(middleware_text@, false) is Ok ==> (spec_scan_module(
                pipeline_text@,
                true,
            ) matches Err(e) ==> r == Err::<(), GenError>(e)),
            (spec_scan_module(middleware_text@, false) is Ok && spec_scan_module(
                pipeline_text@,
                true,
            ) is Ok) ==> (spec_scan_module(parser_text@, false) matches Err(e) ==> r == Err::<
                (),
                GenError,
            >(e)),
            (spec_scan_module(middleware_text@, false) is Ok && spec_scan_module(
                pipeline_text@,
                true,
            ) is Ok && spec_scan_module(parser_text@, false) is Ok) ==> (spec_scan_module(
                entity_text@,
                false,
            ) matches Err(e) ==> r == Err::<(), GenError>(e)),
            (spec_scan_module(middleware_text@, false) is Ok && spec_scan_module(
                pipeline_text@,
                true,
            ) is Ok && spec_scan_module(parser_text@, false) is Ok && spec_scan_module(
                entity_text@,
                false,
            ) is Ok) ==> (spec_scan_module(spider_text@, false) matches Err(e) ==> r == Err::<
                (),
                GenError,
            >(e)),
            r is Ok ==> {
                &&& final(self).module_of(Category::Middleware).handles_seq() == scan_handles(
                    middleware_text@,
                    false,
                )
                &&& final(self).module_of(Category::Pipeline).handles_seq() == scan_handles(
                    pipeline_text@,
                    true,
                )
                &&& final(self).module_of(Category::Parser).handles_seq() == scan_handles(
                    parser_text@,
                    false,
                )
                &&& final(self).module_of(Category::Entity).handles_seq() == scan_handles(
                    entity_text@,
                    false,
                )
                &&& final(self).module_of(Category::Spider).handles_seq() == scan_handles(
                    spider_text@,
                    false,
                )
                &&& final(self).ctype_seq() == (match scan_ct(pipeline_text@) {
                    Some(c) => c,
                    None => old(self).ctype_seq(),
                })
                &&& final(self).pkgs_seq() == old(self).pkgs_seq() + spec_manifest(
                    manifest_text@,
                ).pkgs
                &&& final(self).package_name_seq() == (match spec_manifest(manifest_text@).name {
                    Some(n) => n,
                    None => old(self).package_name_seq(),
                })
                &&& final(self).base_dir_seq() == old(self).base_dir_seq()
                &&& (old(self).wf() ==> final(self).wf())
            },
    {
        self.get_pkg(manifest_text);
        let sr_mw = match scan_module(middleware_text, false) {
            Ok(s) => s,
            Err(e) => {
                return Err(e);
            },
        };
        let sr_pl = match scan_module(pipeline_text, true) {
            Ok(s) => s,
            Err(e) => {
                return Err(e);
            },
        };
        let sr_ps = match scan_module(parser_text, false) {
            Ok(s) => s,
            Err(e) => {
                return Err(e);
            },
        };
        let sr_en = match scan_module(entity_text, false) {
            Ok(s) => s,
            Err(e) => {
                return Err(e);
            },
        };
        let sr_sp = match scan_module(spider_text, false) {
            Ok(s) => s,
            Err(e) => {
                return Err(e);
            },
        };
        proof {
            crate::scan::lemma_scan_module_ascii(middleware_text@, false);
            crate::scan::lemma_scan_module_ascii(pipeline_text@, true);
            crate::scan::lemma_scan_module_ascii(parser_text@, false);
            crate::scan::lemma_scan_module_ascii(entity_text@, false);
            crate::scan::lemma_scan_module_ascii(spider_text@, false);
        }
        self.middleware = Module::from_records(
            self.module_file_path("middleware"),
            &sr_mw.records,
        );
        self.pipeline = Module::from_records(self.module_file_path("pipeline"), &sr_pl.records);
        self.parser = Module::from_records(self.module_file_path("parser"), &sr_ps.records);
        self.entity = Module::from_records(self.module_file_path("entity"), &sr_en.records);
        self.spider = Module::from_records(self.module_file_path("spider"), &sr_sp.records);
        match sr_pl.content_type {
            Some(c) => {
                self.ctype = c;
            },
            None => {},
        }
        Ok(())
    }

    /// The path of a category's fixed module file under the base directory.
    fn module_file_path(&self, stem: &str) -> (r: Vec<u8>)
        ensures
            r@ == self.base_dir_seq() + ("src/").spec_bytes() + stem.spec_bytes() + (
            ".rs").spec_bytes(),
    {
        let mut p = copy_bytes(&self.base_dir);
        crate::bytes::append_bytes(&mut p, &("src/").as_bytes_vec());
        crate::bytes::append_bytes(&mut p, &stem.as_bytes_vec());
        crate::bytes::append_bytes(&mut p, &(".rs").as_bytes_vec());
        p
    }
}

/// One full generation run as a function of the six input texts: the
/// rendered entry-point text, or nothing when any step fails.
pub open spec fn spec_generate(
    man: Seq<u8>,
    mwt: Seq<u8>,
    plt: Seq<u8>,
    pst: Seq<u8>,
    ent: Seq<u8>,
    spt: Seq<u8>,
) -> Option<Seq<u8>> {
    if spec_scan_module(mwt, false) is Ok && spec_scan_module(plt, true) is Ok && spec_scan_module(
        pst,
        false,
    ) is Ok && spec_scan_module(ent, false) is Ok && spec_scan_module(spt, false) is Ok {
        let pkgs = seq![lit_std()] + spec_manifest(man).pkgs;
        let pname = match spec_manifest(man).name {
            Some(n) => n,
            None => Seq::<u8>::empty(),
        };
        let ctype = match scan_ct(plt) {
            Some(c) => c,
            None => Seq::<u8>::empty(),
        };
        let enh = scan_handles(ent, false);
        let sph = scan_handles(spt, false);
        match spec_get(enh, key_entities()) {
            None => None,
            Some(entities) => {
                if sph.len() == 0 {
                    None
                } else if !contains_pkg(pkgs, spec_ctype_root(ctype)) {
                    None
                } else {
                    Some(
                        spec_render(
                            pname,
                            entities,
                            spec_targ(enh),
                            spec_parg(enh),
                            sph[0].1,
                            spec_pkg_list(pkgs),
                            spec_list_bytes(scan_handles(mwt, false), 0),
                            spec_map_bytes(scan_handles(mwt, false), 0),
                            spec_list_bytes(scan_handles(plt, true), 0),
                            spec_map_bytes(scan_handles(plt, true), 0),
                            ctype,
                            Seq::<u8>::empty(),
                        ),
                    )
                }
            },
        }
    } else {
        None
    }
}

/// One full generation run: fresh metadata, manifest resolution and module
/// scans, then rendering. The rendered text is written to the generated
/// entry-point file by the caller.
pub fn generate_main(
    manifest_text: &Vec<u8>,
    middleware_text: &Vec<u8>,
    pipeline_text: &Vec<u8>,
    parser_text: &Vec<u8>,
    entity_text: &Vec<u8>,
    spider_text: &Vec<u8>,
) -> (r: Result<Vec<u8>, GenError>)
    ensures
        r is Ok <==> spec_generate(
            manifest_text@,
            middleware_text@,
            pipeline_text@,
            parser_text@,
            entity_text@,
            spider_text@,
        ) is Some,
        r matches Ok(text) ==> Some(text@) == spec_generate(
            manifest_text@,
            middleware_text@,
            pipeline_text@,
            parser_text@,
            entity_text@,
            spider_text@,
        ),
{
    let mut meta = MetaData::new();
    match meta.init(
        manifest_text,
        middleware_text,
        pipeline_text,
        parser_text,
        entity_text,
        spider_text,
    ) {
        Ok(_) => {},
        Err(e) => {
            return Err(e);
        },
    }
    proof {
        assert(meta.pkgs_seq() =~= seq![lit_std()] + spec_manifest(manifest_text@).pkgs);
    }
    meta.make_main()
}

/// Determinism: a generation run is a function of the manifest and module
/// texts alone, so scanning the same unmodified files twice yields
/// byte-identical generated output both times.
pub proof fn lemma_generation_deterministic(
    man1: Seq<u8>,
    mwt1: Seq<u8>,
    plt1: Seq<u8>,
    pst1: Seq<u8>,
    ent1: Seq<u8>,
    spt1: Seq<u8>,
    man2: Seq<u8>,
    mwt2: Seq<u8>,
    plt2: Seq<u8>,
    pst2: Seq<u8>,
    ent2: Seq<u8>,
    spt2: Seq<u8>,
)
    requires
        man1 == man2,
        mwt1 == mwt2,
        plt1 == plt2,
        pst1 == pst2,
        ent1 == ent2,
        spt1 == spt2,
    ensures
        spec_generate(man1, mwt1, plt1, pst1, ent1, spt1) == spec_generate(
            man2,
            mwt2,
            plt2,
            pst2,
            ent2,
            spt2,
        ),
{
}

} // verus!
