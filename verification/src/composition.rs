//! Component composer: links a caller binary with stub binaries by matching
//! the caller's unresolved imports against the stubs' exports, by
//! fully-qualified name and signature equality.
//!
//! A binary is modelled by its typed surface: the exported and imported
//! definitions, each a fully-qualified name plus a signature of canonical
//! type texts. Composition is a pure function of these surfaces: it fails if
//! a required import stays unresolved or if an import's name is exported with
//! two incompatible signatures, and otherwise produces a surface with the
//! caller's exports and only the caller's optional, unaddressed imports left.

use vstd::prelude::*;

verus! {

use crate::seqs::lemma_filter_take_succ;
use crate::text::copy_strings;

/// A function signature as it appears on a binary's surface: the canonical
/// texts of the parameter types and of the result types, in order.
pub struct Sig {
    pub params: Vec<String>,
    pub results: Vec<String>,
}

/// Mathematical image of a `Sig`.
#[verifier::ext_equal]
pub ghost struct SigView {
    pub params: Seq<Seq<char>>,
    pub results: Seq<Seq<char>>,
}

impl DeepView for Sig {
    type V = SigView;

    open spec fn deep_view(&self) -> SigView {
        SigView { params: self.params.deep_view(), results: self.results.deep_view() }
    }
}

/// An exported definition of a binary: fully-qualified name and signature.
pub struct ExportItem {
    pub name: String,
    pub sig: Sig,
}

/// Mathematical image of an `ExportItem`.
#[verifier::ext_equal]
pub ghost struct ExportView {
    pub name: Seq<char>,
    pub sig: SigView,
}

impl DeepView for ExportItem {
    type V = ExportView;

    open spec fn deep_view(&self) -> ExportView {
        ExportView { name: self.name@, sig: self.sig.deep_view() }
    }
}

/// An imported definition of a binary. An optional import is one the
/// platform allows to stay unaddressed; a non-optional import must be
/// satisfied by some stub export for composition to succeed.
pub struct ImportItem {
    pub name: String,
    pub sig: Sig,
    pub optional: bool,
}

/// Mathematical image of an `ImportItem`.
#[verifier::ext_equal]
pub ghost struct ImportView {
    pub name: Seq<char>,
    pub sig: SigView,
    pub optional: bool,
}

impl DeepView for ImportItem {
    type V = ImportView;

    open spec fn deep_view(&self) -> ImportView {
        ImportView { name: self.name@, sig: self.sig.deep_view(), optional: self.optional }
    }
}

/// The typed surface of one compiled binary module.
pub struct Component {
    pub exports: Vec<ExportItem>,
    pub imports: Vec<ImportItem>,
}

/// Mathematical image of a `Component`.
#[verifier::ext_equal]
pub ghost struct ComponentView {
    pub exports: Seq<ExportView>,
    pub imports: Seq<ImportView>,
}

impl DeepView for Component {
    type V = ComponentView;

    open spec fn deep_view(&self) -> ComponentView {
        ComponentView { exports: self.exports.deep_view(), imports: self.imports.deep_view() }
    }
}

/// How one import of the caller fares against the stub exports.
pub enum ImportStatus {
    /// Exactly one export signature carries the import's name and it equals
    /// the import's signature: the import is linked.
    Satisfied,
    /// No export carries the import's name and the import is optional: it
    /// stays on the composed surface.
    Passthrough,
    /// No export satisfies the import and it may not stay: composition fails
    /// naming the import.
    Unresolved,
    /// Two exports carry the import's name with incompatible signatures:
    /// composition fails rather than silently picking one.
    Ambiguous,
}

/// One reason composition failed, naming the offending import.
#[derive(Debug)]
pub enum ComposeFailure {
    UnresolvedImport(String),
    AmbiguousImport(String),
}

/// Mathematical image of a `ComposeFailure`.
#[verifier::ext_equal]
pub ghost enum ComposeFailureView {
    UnresolvedImport(Seq<char>),
    AmbiguousImport(Seq<char>),
}

impl DeepView for ComposeFailure {
    type V = ComposeFailureView;

    open spec fn deep_view(&self) -> ComposeFailureView {
        match self {
            ComposeFailure::UnresolvedImport(n) => ComposeFailureView::UnresolvedImport(n@),
            ComposeFailure::AmbiguousImport(n) => ComposeFailureView::AmbiguousImport(n@),
        }
    }
}

/// A failed composition: every failing import of the caller, in order.
#[derive(Debug)]
pub struct ComposeError {
    pub failures: Vec<ComposeFailure>,
}

/// All exports of the given binaries, in order.
pub open spec fn all_exports(stubs: Seq<ComponentView>) -> Seq<ExportView>
    decreases stubs.len(),
{
    if stubs.len() == 0 {
        Seq::empty()
    } else {
        all_exports(stubs.drop_last()) + stubs.last().exports
    }
}

/// The predicate selecting exports whose fully-qualified name is `name`.
pub open spec fn name_pred(name: Seq<char>) -> spec_fn(ExportView) -> bool {
    |e: ExportView| e.name == name
}

/// The exports whose fully-qualified name equals `name`, in order.
pub open spec fn name_candidates(exports: Seq<ExportView>, name: Seq<char>) -> Seq<ExportView> {
    exports.filter(name_pred(name))
}

/// Whether two of the candidate exports disagree on the signature.
pub open spec fn has_incompatible(c: Seq<ExportView>) -> bool {
    exists|i: int, j: int| 0 <= i < c.len() && 0 <= j < c.len() && c[i].sig != c[j].sig
}

/// The status of one import against the stub exports.
pub open spec fn import_status(exports: Seq<ExportView>, imp: ImportView) -> ImportStatus {
    let c = name_candidates(exports, imp.name);
    if has_incompatible(c) {
        ImportStatus::Ambiguous
    } else if c.len() > 0 && c[0].sig == imp.sig {
        ImportStatus::Satisfied
    } else if c.len() > 0 {
        ImportStatus::Unresolved
    } else if imp.optional {
        ImportStatus::Passthrough
    } else {
        ImportStatus::Unresolved
    }
}

/// The failure reported for one import, if it fails.
pub open spec fn failure_of(exports: Seq<ExportView>, imp: ImportView) -> Option<
    ComposeFailureView,
> {
    match import_status(exports, imp) {
        ImportStatus::Ambiguous => Some(ComposeFailureView::AmbiguousImport(imp.name)),
        ImportStatus::Unresolved => Some(ComposeFailureView::UnresolvedImport(imp.name)),
        _ => None,
    }
}

/// The function mapping an import to its failure, if any.
pub open spec fn failure_fn(exports: Seq<ExportView>) -> spec_fn(ImportView) -> Option<
    ComposeFailureView,
> {
    |imp: ImportView| failure_of(exports, imp)
}

/// Every failing import of the caller, in order.
pub open spec fn compose_failures(exports: Seq<ExportView>, imports: Seq<ImportView>) -> Seq<
    ComposeFailureView,
> {
    imports.filter_map(failure_fn(exports))
}

/// The predicate selecting imports that stay on the composed surface.
pub open spec fn pass_pred(exports: Seq<ExportView>) -> spec_fn(ImportView) -> bool {
    |imp: ImportView| import_status(exports, imp) is Passthrough
}

/// The imports that legitimately stay on the composed surface.
pub open spec fn passthrough_imports(exports: Seq<ExportView>, imports: Seq<ImportView>) -> Seq<
    ImportView,
> {
    imports.filter(pass_pred(exports))
}

/// Appending one export introduces an incompatibility exactly when the
/// sequence was already incompatible or the new signature differs from the
/// first one.
pub proof fn lemma_incompat_push(c: Seq<ExportView>, e: ExportView)
    ensures
        has_incompatible(c.push(e)) == (has_incompatible(c) || (c.len() > 0 && e.sig
            != c[0].sig)),
{
    let cp = c.push(e);
    assert forall|k: int| 0 <= k < c.len() implies cp[k] == c[k] by {}
    if has_incompatible(c) {
        let (i, j) = choose|i: int, j: int|
            0 <= i < c.len() && 0 <= j < c.len() && c[i].sig != c[j].sig;
        assert(cp[i].sig != cp[j].sig);
    }
    if c.len() > 0 && e.sig != c[0].sig {
        assert(cp[c.len() as int].sig != cp[0].sig);
    }
    if has_incompatible(cp) && !has_incompatible(c) {
        let (i, j) = choose|i: int, j: int|
            0 <= i < cp.len() && 0 <= j < cp.len() && cp[i].sig != cp[j].sig;
        if i < c.len() && j < c.len() {
            assert(c[i].sig != c[j].sig);
        } else if i == c.len() && j < c.len() {
            if c[j].sig == c[0].sig {
                assert(e.sig != c[0].sig);
            } else {
                assert(c[j].sig != c[0].sig);
            }
        } else if j == c.len() && i < c.len() {
            if c[i].sig == c[0].sig {
                assert(e.sig != c[0].sig);
            } else {
                assert(c[i].sig != c[0].sig);
            }
        }
    }
}

/// Equality of two vectors of strings, decided by their character sequences.
fn vec_str_eq(a: &Vec<String>, b: &Vec<String>) -> (r: bool)
    ensures
        r == (a.deep_view() == b.deep_view()),
{
    if a.len() != b.len() {
        proof {
            assert(a.deep_view().len() != b.deep_view().len());
        }
        return false;
    }
    let mut i: usize = 0;
    while i < a.len()
        invariant
            i <= a.len(),
            a.len() == b.len(),
            forall|k: int| 0 <= k < i ==> a.deep_view()[k] == b.deep_view()[k],
        decreases a.len() - i,
    {
        if !(a[i] == b[i]) {
            proof {
                assert(a.deep_view()[i as int] != b.deep_view()[i as int]);
            }
            return false;
        }
        i += 1;
    }
    proof {
        assert(a.deep_view() =~= b.deep_view());
    }
    true
}

/// Equality of two signatures, decided by their canonical type texts.
pub fn sig_eq(a: &Sig, b: &Sig) -> (r: bool)
    ensures
        r == (a.deep_view() == b.deep_view()),
{
    let p = vec_str_eq(&a.params, &b.params);
    let q = vec_str_eq(&a.results, &b.results);
    proof {
        if p && q {
            assert(a.deep_view() =~= b.deep_view());
        }
    }
    p && q
}

/// A fresh copy of a signature.
fn copy_sig(s: &Sig) -> (r: Sig)
    ensures
        r.deep_view() == s.deep_view(),
{
    let r = Sig { params: copy_strings(&s.params), results: copy_strings(&s.results) };
    proof {
        assert(r.deep_view() =~= s.deep_view());
    }
    r
}

/// A fresh copy of an exported definition.
fn copy_export(e: &ExportItem) -> (r: ExportItem)
    ensures
        r.deep_view() == e.deep_view(),
{
    let r = ExportItem { name: e.name.clone(), sig: copy_sig(&e.sig) };
    proof {
        assert(r.deep_view() =~= e.deep_view());
    }
    r
}

/// A fresh copy of an imported definition.
fn copy_import(e: &ImportItem) -> (r: ImportItem)
    ensures
        r.deep_view() == e.deep_view(),
{
    let r = ImportItem { name: e.name.clone(), sig: copy_sig(&e.sig), optional: e.optional };
    proof {
        assert(r.deep_view() =~= e.deep_view());
    }
    r
}

/// A fresh copy of a vector of exported definitions.
fn copy_exports(v: &Vec<ExportItem>) -> (r: Vec<ExportItem>)
    ensures
        r.deep_view() == v.deep_view(),
{
    let mut r: Vec<ExportItem> = Vec::new();
    let mut i: usize = 0;
    while i < v.len()
        invariant
            i <= v.len(),
            r.deep_view() == v.deep_view().take(i as int),
        decreases v.len() - i,
    {
        let x = copy_export(&v[i]);
        let ghost prev = r.deep_view();
        let ghost prevv = r@;
        r.push(x);
        proof {
            assert(r@ == prevv.push(x));
            assert(r@.len() == prev.len() + 1);
            assert forall|k: int| 0 <= k < r@.len() implies r.deep_view()[k] == v.deep_view().take(
                i as int + 1,
            )[k] by {
                if k < i as int {
                    assert(r@[k] == prevv[k]);
                    assert(r.deep_view()[k] == prev[k]);
                }
            }
            assert(r.deep_view() =~= v.deep_view().take(i as int + 1));
        }
        i += 1;
    }
    proof {
        assert(v.deep_view().take(v.len() as int) =~= v.deep_view());
    }
    r
}

/// Every export of every stub binary, gathered in order.
fn collect_exports(stubs: &Vec<Component>) -> (r: Vec<ExportItem>)
    ensures
        r.deep_view() == all_exports(stubs.deep_view()),
{
    let mut r: Vec<ExportItem> = Vec::new();
    let mut i: usize = 0;
    while i < stubs.len()
        invariant
            i <= stubs.len(),
            r.deep_view() == all_exports(stubs.deep_view().take(i as int)),
        decreases stubs.len() - i,
    {
        let mut j: usize = 0;
        while j < stubs[i].exports.len()
            invariant
                i < stubs.len(),
                j <= stubs[i as int].exports.len(),
                r.deep_view() == all_exports(stubs.deep_view().take(i as int)) + stubs[
                    i as int
                ].deep_view().exports.take(j as int),
            decreases stubs[i as int].exports.len() - j,
        {
            let x = copy_export(&stubs[i].exports[j]);
            let ghost prev = r.deep_view();
            let ghost prevv = r@;
            r.push(x);
            proof {
                assert(r@ == prevv.push(x));
                assert(r@.len() == prev.len() + 1);
                let goal = all_exports(stubs.deep_view().take(i as int)) + stubs[
                    i as int
                ].deep_view().exports.take(j as int + 1);
                assert forall|k: int| 0 <= k < r@.len() implies r.deep_view()[k] == goal[k] by {
                    if k < prev.len() {
                        assert(r@[k] == prevv[k]);
                        assert(r.deep_view()[k] == prev[k]);
                    } else {
                        assert(r.deep_view()[k] == x.deep_view());
                        assert(goal[k] == stubs[i as int].deep_view().exports[j as int]);
                    }
                }
                assert(r.deep_view() =~= goal);
            }
            j += 1;
        }
        proof {
            let sv = stubs.deep_view();
            assert(sv.take(i + 1 as int).drop_last() =~= sv.take(i as int));
            assert(sv.take(i + 1 as int).last() == sv[i as int]);
            assert(sv[i as int].exports.take(sv[i as int].exports.len() as int) =~= sv[
                i as int
            ].exports);
            assert(r.deep_view() == all_exports(sv.take(i + 1 as int)));
        }
        i += 1;
    }
    proof {
        assert(stubs.deep_view().take(stubs.len() as int) =~= stubs.deep_view());
    }
    r
}

/// Decides how one import of the caller fares against the gathered exports.
fn classify_import(all: &Vec<ExportItem>, imp: &ImportItem) -> (r: ImportStatus)
    ensures
        r == import_status(all.deep_view(), imp.deep_view()),
{
    let ghost av = all.deep_view();
    let ghost name = imp.deep_view().name;
    let mut j: usize = 0;
    let mut first: Option<usize> = None;
    let mut incompat: bool = false;
    while j < all.len()
        invariant
            j <= all.len(),
            av == all.deep_view(),
            name == imp.deep_view().name,
            match first {
                Some(k) => {
                    &&& k < j
                    &&& name_candidates(av.take(j as int), name).len() > 0
                    &&& name_candidates(av.take(j as int), name)[0] == av[k as int]
                    &&& av[k as int].name == name
                },
                None => name_candidates(av.take(j as int), name).len() == 0,
            },
            incompat == has_incompatible(name_candidates(av.take(j as int), name)),
        decreases all.len() - j,
    {
        let ghost cand = name_candidates(av.take(j as int), name);
        let is_match = crate::text::str_eq(all[j].name.as_str(), imp.name.as_str());
        proof {
            lemma_filter_take_succ(av, name_pred(name), j as int);
            if is_match {
                lemma_incompat_push(cand, av[j as int]);
            }
        }
        if is_match {
            match first {
                None => {
                    first = Some(j);
                },
                Some(k) => {
                    if !sig_eq(&all[j].sig, &all[k].sig) {
                        incompat = true;
                    }
                },
            }
        }
        j += 1;
    }
    proof {
        assert(av.take(all.len() as int) =~= av);
    }
    if incompat {
        ImportStatus::Ambiguous
    } else {
        match first {
            Some(k) => {
                if sig_eq(&all[k].sig, &imp.sig) {
                    ImportStatus::Satisfied
                } else {
                    ImportStatus::Unresolved
                }
            },
            None => {
                if imp.optional {
                    ImportStatus::Passthrough
                } else {
                    ImportStatus::Unresolved
                }
            },
        }
    }
}

/// Composes one caller binary with the given stub binaries.
///
/// Succeeds exactly when no import of the caller is unresolved or ambiguous
/// against the stubs' exports; the composed surface then has the caller's
/// exports and keeps only the caller's optional, unaddressed imports. On
/// failure, every failing import is reported, in order, not just the first.
pub fn compose(caller: &Component, stubs: &Vec<Component>) -> (r: Result<Component, ComposeError>)
    ensures
        (r is Ok) <==> compose_failures(
            all_exports(stubs.deep_view()),
            caller.deep_view().imports,
        ).len() == 0,
        r matches Ok(c) ==> c.deep_view().exports == caller.deep_view().exports
            && c.deep_view().imports == passthrough_imports(
            all_exports(stubs.deep_view()),
            caller.deep_view().imports,
        ),
        r matches Err(e) ==> e.failures.deep_view() == compose_failures(
            all_exports(stubs.deep_view()),
            caller.deep_view().imports,
        ),
{
    let all = collect_exports(stubs);
    let ghost ex = all_exports(stubs.deep_view());
    let ghost iv = caller.imports.deep_view();
    let mut failures: Vec<ComposeFailure> = Vec::new();
    let mut remaining: Vec<ImportItem> = Vec::new();
    let mut i: usize = 0;
    while i < caller.imports.len()
        invariant
            i <= caller.imports.len(),
            all.deep_view() == ex,
            ex == all_exports(stubs.deep_view()),
            iv == caller.imports.deep_view(),
            failures.deep_view() == compose_failures(ex, iv.take(i as int)),
            remaining.deep_view() == passthrough_imports(ex, iv.take(i as int)),
        decreases caller.imports.len() - i,
    {
        let imp = &caller.imports[i];
        let st = classify_import(&all, imp);
        proof {
            iv.lemma_filter_map_take_succ(failure_fn(ex), i as int);
            lemma_filter_take_succ(iv, pass_pred(ex), i as int);
        }
        match st {
            ImportStatus::Satisfied => {},
            ImportStatus::Passthrough => {
                remaining.push(copy_import(imp));
                proof {
                    assert(remaining.deep_view() =~= passthrough_imports(
                        ex,
                        iv.take(i + 1 as int),
                    ));
                }
            },
            ImportStatus::Unresolved => {
                failures.push(ComposeFailure::UnresolvedImport(imp.name.clone()));
                proof {
                    assert(failures.deep_view() =~= compose_failures(ex, iv.take(i + 1 as int)));
                }
            },
            ImportStatus::Ambiguous => {
                failures.push(ComposeFailure::AmbiguousImport(imp.name.clone()));
                proof {
                    assert(failures.deep_view() =~= compose_failures(ex, iv.take(i + 1 as int)));
                }
            },
        }
        proof {
            assert(failures.deep_view() =~= compose_failures(ex, iv.take(i + 1 as int)));
            assert(remaining.deep_view() =~= passthrough_imports(ex, iv.take(i + 1 as int)));
        }
        i += 1;
    }
    proof {
        assert(iv.take(caller.imports.len() as int) =~= iv);
    }
    if failures.len() == 0 {
        proof {
            assert(compose_failures(ex, iv).len() == failures.deep_view().len());
        }
        Ok(Component { exports: copy_exports(&caller.exports), imports: remaining })
    } else {
        proof {
            assert(compose_failures(ex, iv).len() == failures.deep_view().len());
        }
        Err(ComposeError { failures })
    }
}

/// Composition totality: when every import of the caller is satisfied by the
/// stubs' exports, composition reports no failure and the composed surface
/// keeps no import at all.
pub proof fn lemma_composition_total(exports: Seq<ExportView>, imports: Seq<ImportView>)
    requires
        forall|k: int|
            0 <= k < imports.len() ==> import_status(exports, #[trigger] imports[k])
                is Satisfied,
    ensures
        compose_failures(exports, imports).len() == 0,
        passthrough_imports(exports, imports).len() == 0,
    decreases imports.len(),
{
    reveal(Seq::filter);
    if imports.len() > 0 {
        assert(imports.drop_last() =~= imports.take(imports.len() - 1));
        assert(forall|k: int|
            0 <= k < imports.drop_last().len() ==> imports.drop_last()[k] == imports[k]);
        lemma_composition_total(exports, imports.drop_last());
        assert(import_status(exports, imports.last()) is Satisfied);
    }
}

/// A failing import is always named in the reported failures; in particular
/// composition fails.
pub proof fn lemma_failing_import_named(exports: Seq<ExportView>, imports: Seq<ImportView>, k: int)
    requires
        0 <= k < imports.len(),
        !(import_status(exports, imports[k]) is Satisfied),
        !(import_status(exports, imports[k]) is Passthrough),
    ensures
        compose_failures(exports, imports).contains(failure_of(exports, imports[k]).unwrap()),
        compose_failures(exports, imports).len() > 0,
    decreases imports.len(),
{
    let elt = failure_of(exports, imports[k]).unwrap();
    let full = compose_failures(exports, imports);
    let pre = compose_failures(exports, imports.drop_last());
    if k == imports.len() - 1 {
        assert(failure_fn(exports)(imports.last()) == Some(elt));
        assert(full == pre + seq![elt]);
        assert(full[full.len() - 1] == elt);
    } else {
        lemma_failing_import_named(exports, imports.drop_last(), k);
        let idx = choose|idx: int| 0 <= idx < pre.len() && pre[idx] == elt;
        assert(full[idx] == elt);
    }
}

/// Ambiguity: two exports carrying the same name with incompatible signatures
/// make any import of that name ambiguous, and composition reports it as
/// ambiguous rather than picking one side.
pub proof fn lemma_ambiguous_export_rejected(
    exports: Seq<ExportView>,
    imports: Seq<ImportView>,
    i: int,
    j: int,
    k: int,
)
    requires
        0 <= i < exports.len(),
        0 <= j < exports.len(),
        0 <= k < imports.len(),
        exports[i].name == imports[k].name,
        exports[j].name == imports[k].name,
        exports[i].sig != exports[j].sig,
    ensures
        import_status(exports, imports[k]) is Ambiguous,
        compose_failures(exports, imports).contains(
            ComposeFailureView::AmbiguousImport(imports[k].name),
        ),
        compose_failures(exports, imports).len() > 0,
{
    let name = imports[k].name;
    let c = name_candidates(exports, name);
    exports.lemma_filter_contains(name_pred(name), i);
    exports.lemma_filter_contains(name_pred(name), j);
    let ci = choose|ci: int| 0 <= ci < c.len() && c[ci] == exports[i];
    let cj = choose|cj: int| 0 <= cj < c.len() && c[cj] == exports[j];
    assert(c[ci].sig != c[cj].sig);
    assert(has_incompatible(c));
    lemma_failing_import_named(exports, imports, k);
}

} // verus!
