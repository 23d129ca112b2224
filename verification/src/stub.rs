//! Stub world synthesizer: derives from a resolved source world a new "stub"
//! world with one interface holding, for every function the source world
//! exports, a stub function of identical signature, addressed for remote
//! invocation. Resource types become handle-forwarding counterparts; any
//! other type that reaches a resource is not supported by the
//! handle-forwarding strategy and is rejected, naming the function and the
//! offending type.

use vstd::prelude::*;

verus! {

use crate::WasmRpcOverride;
use crate::wit_resolve::FuncResults;
use crate::wit_resolve::FuncResultsView;
use crate::wit_resolve::FunctionView;
use crate::wit_resolve::IfaceId;
use crate::wit_resolve::Param;
use crate::wit_resolve::ParamView;
use crate::wit_resolve::Resolved;
use crate::wit_resolve::ResolvedView;
use crate::wit_resolve::TypeId;
use crate::wit_resolve::TypeRef;
use crate::wit_resolve::TypeShape;
use crate::wit_resolve::TypeShapeView;
use crate::wit_resolve::World;
use crate::wit_resolve::WorldView;
use crate::wit_resolve::iface_at;
use crate::wit_resolve::iface_id_wf;
use crate::wit_resolve::resolved_wf;
use crate::wit_resolve::shape_refs;
use crate::wit_resolve::shape_wf;
use crate::wit_resolve::type_at;
use crate::wit_resolve::type_id_wf;
use crate::wit_resolve::type_ref_wf;

/// Immutable configuration of one pipeline run.
pub struct StubConfig {
    /// Root directory of the source interface description.
    pub source_wit_root: String,
    /// Directory the generated stub project is written to.
    pub target_root: String,
    /// The world to stub; may stay unset when the root defines exactly one.
    pub selected_world: Option<String>,
    /// Version given to the generated stub unit.
    pub stub_crate_version: String,
    /// Where the remote-invocation transport library comes from.
    pub wasm_rpc_override: WasmRpcOverride,
    /// Inline all source types into the stub's interface description instead
    /// of depending on the source package.
    pub always_inline_types: bool,
    /// Leave an enclosing multi-project root untouched.
    pub seal_cargo_workspace: bool,
}

/// One function of the stub world: the source function's signature, with
/// resources replaced by handles, plus the remote target it forwards to.
pub struct StubFunction {
    /// Interface-qualified name, equal to the source export's name.
    pub name: String,
    /// Fully qualified remote target the generated body invokes.
    pub target: String,
    pub params: Vec<Param>,
    pub results: FuncResults,
}

/// Mathematical image of a `StubFunction`.
#[verifier::ext_equal]
pub ghost struct StubFunctionView {
    pub name: Seq<char>,
    pub target: Seq<char>,
    pub params: Seq<ParamView>,
    pub results: FuncResultsView,
}

impl DeepView for StubFunction {
    type V = StubFunctionView;

    open spec fn deep_view(&self) -> StubFunctionView {
        StubFunctionView {
            name: self.name@,
            target: self.target@,
            params: self.params.deep_view(),
            results: self.results.deep_view(),
        }
    }
}

/// The derived stub world: one interface, one function per source export.
pub struct StubWorld {
    /// Name of the source world the stub mirrors.
    pub source_world: String,
    /// Name of the single stub interface.
    pub interface_name: String,
    pub functions: Vec<StubFunction>,
}

/// Mathematical image of a `StubWorld`.
#[verifier::ext_equal]
pub ghost struct StubWorldView {
    pub source_world: Seq<char>,
    pub interface_name: Seq<char>,
    pub functions: Seq<StubFunctionView>,
}

impl DeepView for StubWorld {
    type V = StubWorldView;

    open spec fn deep_view(&self) -> StubWorldView {
        StubWorldView {
            source_world: self.source_world@,
            interface_name: self.interface_name@,
            functions: self.functions.deep_view(),
        }
    }
}

/// A signature shape the handle-forwarding strategy does not support: the
/// named type reaches a resource type without being one itself.
#[derive(Debug)]
pub struct SynthError {
    /// Interface-qualified name of the function that cannot be stubbed.
    pub func: String,
    /// Name of the offending type.
    pub ty: String,
}

/// Mathematical image of a `SynthError`.
#[verifier::ext_equal]
pub ghost struct SynthErrorView {
    pub func: Seq<char>,
    pub ty: Seq<char>,
}

impl DeepView for SynthError {
    type V = SynthErrorView;

    open spec fn deep_view(&self) -> SynthErrorView {
        SynthErrorView { func: self.func@, ty: self.ty@ }
    }
}

/// Whether following this reference reaches a resource within `fuel` steps.
pub open spec fn ref_reaches(r: ResolvedView, t: TypeRef, fuel: nat) -> bool
    decreases fuel, 1int,
{
    match t {
        TypeRef::Named(id) => type_id_wf(r, id) && reaches_res(r, id, fuel),
        _ => false,
    }
}

/// Whether the type at `id` is, or refers (transitively, within `fuel`
/// dereferences) to, a resource type. Any fuel at least the number of type
/// definitions is exact on an acyclic model.
pub open spec fn reaches_res(r: ResolvedView, id: TypeId, fuel: nat) -> bool
    decreases fuel, 0int,
{
    if type_at(r, id).shape is Resource {
        true
    } else if fuel == 0 {
        false
    } else {
        exists|k: int|
            0 <= k < shape_refs(type_at(r, id).shape).len() && ref_reaches(
                r,
                #[trigger] shape_refs(type_at(r, id).shape)[k],
                (fuel - 1) as nat,
            )
    }
}

/// The total number of type definitions in the model.
pub open spec fn total_types(r: ResolvedView) -> int {
    total_types_pkgs(r.packages)
}

pub open spec fn total_types_pkgs(pkgs: Seq<crate::wit_resolve::PackageView>) -> int
    decreases pkgs.len(),
{
    if pkgs.len() == 0 {
        0
    } else {
        total_types_pkgs(pkgs.drop_last()) + total_types_ifaces(pkgs.last().interfaces)
    }
}

pub open spec fn total_types_ifaces(ifaces: Seq<crate::wit_resolve::InterfaceView>) -> int
    decreases ifaces.len(),
{
    if ifaces.len() == 0 {
        0
    } else {
        total_types_ifaces(ifaces.drop_last()) + ifaces.last().types.len()
    }
}

/// How the stub carries one source type use: resources become handles,
/// everything else is carried through unchanged.
pub open spec fn stub_ty(r: ResolvedView, t: TypeRef) -> TypeRef {
    match t {
        TypeRef::Named(id) => if type_at(r, id).shape is Resource {
            TypeRef::Handle(id)
        } else {
            TypeRef::Named(id)
        },
        _ => t,
    }
}

/// How the stub carries one parameter: name kept, resources handled.
pub open spec fn stub_param_fn(r: ResolvedView) -> spec_fn(ParamView) -> ParamView {
    |p: ParamView| ParamView { name: p.name, ty: stub_ty(r, p.ty) }
}

/// The stub's parameter list: names kept, resources handled.
pub open spec fn stub_params(r: ResolvedView, ps: Seq<ParamView>) -> Seq<ParamView> {
    ps.map_values(stub_param_fn(r))
}

/// The stub's result shape: same shape, resources handled.
pub open spec fn stub_results(r: ResolvedView, res: FuncResultsView) -> FuncResultsView {
    match res {
        FuncResultsView::NoResult => FuncResultsView::NoResult,
        FuncResultsView::Single(t) => FuncResultsView::Single(stub_ty(r, t)),
        FuncResultsView::NamedResults(ps) => FuncResultsView::NamedResults(stub_params(r, ps)),
    }
}

/// Whether one type use is supported by the handle-forwarding strategy: a
/// primitive, a resource itself, or a type that reaches no resource at all.
pub open spec fn ty_supported(r: ResolvedView, t: TypeRef) -> bool {
    match t {
        TypeRef::Prim(_) => true,
        TypeRef::Named(id) => type_at(r, id).shape is Resource || !reaches_res(
            r,
            id,
            total_types(r) as nat,
        ),
        TypeRef::Handle(_) => true,
    }
}

/// The name of the type a reference denotes, for error reporting.
pub open spec fn ref_ty_name(r: ResolvedView, t: TypeRef) -> Seq<char> {
    match t {
        TypeRef::Named(id) => type_at(r, id).name,
        TypeRef::Handle(id) => type_at(r, id).name,
        TypeRef::Prim(_) => Seq::empty(),
    }
}

/// The first unsupported type among these uses, scanning from `i`.
pub open spec fn first_unsupported_ty(r: ResolvedView, ts: Seq<TypeRef>, i: int) -> Option<
    Seq<char>,
>
    decreases ts.len() - i,
{
    if i < 0 || i >= ts.len() {
        None
    } else if !ty_supported(r, ts[i]) {
        Some(ref_ty_name(r, ts[i]))
    } else {
        first_unsupported_ty(r, ts, i + 1)
    }
}

/// The type a parameter carries.
pub open spec fn param_ty_fn() -> spec_fn(ParamView) -> TypeRef {
    |p: ParamView| p.ty
}

/// Every type use of a signature, parameters first, then results.
pub open spec fn sig_ty_uses(params: Seq<ParamView>, results: FuncResultsView) -> Seq<TypeRef> {
    params.map_values(param_ty_fn()) + (match results {
        FuncResultsView::NoResult => Seq::empty(),
        FuncResultsView::Single(t) => seq![t],
        FuncResultsView::NamedResults(ps) => ps.map_values(param_ty_fn()),
    })
}

/// One function the source world exports, already qualified: the name the
/// stub re-exposes, the remote target it forwards to, and the signature.
pub struct ExportedFn {
    pub name: String,
    pub target: String,
    pub params: Vec<Param>,
    pub results: FuncResults,
}

/// Mathematical image of an `ExportedFn`.
#[verifier::ext_equal]
pub ghost struct ExportedFnView {
    pub name: Seq<char>,
    pub target: Seq<char>,
    pub params: Seq<ParamView>,
    pub results: FuncResultsView,
}

impl DeepView for ExportedFn {
    type V = ExportedFnView;

    open spec fn deep_view(&self) -> ExportedFnView {
        ExportedFnView {
            name: self.name@,
            target: self.target@,
            params: self.params.deep_view(),
            results: self.results.deep_view(),
        }
    }
}

/// The interface-qualified name the stub re-exposes for one source function.
pub open spec fn qualified_name(iface: Seq<char>, func: Seq<char>) -> Seq<char> {
    iface + "."@ + func
}

/// The fully qualified remote target of one source function.
pub open spec fn target_name(
    r: ResolvedView,
    e: IfaceId,
    iface: Seq<char>,
    func: Seq<char>,
) -> Seq<char> {
    r.packages[e.pkg as int].name.namespace + ":"@ + r.packages[e.pkg as int].name.name + "/"@
        + iface + "."@ + func
}

/// The exported, qualified image of one function of one interface.
pub open spec fn export_fn_of(r: ResolvedView, e: IfaceId) -> spec_fn(FunctionView) -> ExportedFnView {
    |f: FunctionView|
        ExportedFnView {
            name: qualified_name(iface_at(r, e).name, f.name),
            target: target_name(r, e, iface_at(r, e).name, f.name),
            params: f.params,
            results: f.results,
        }
}

/// The exported functions of one interface, qualified, in order.
pub open spec fn iface_export_list(r: ResolvedView, e: IfaceId) -> Seq<ExportedFnView> {
    iface_at(r, e).funcs.map_values(export_fn_of(r, e))
}

/// Every function the world exports, interface by interface, in order.
pub open spec fn world_export_funcs(r: ResolvedView, exps: Seq<IfaceId>) -> Seq<ExportedFnView>
    decreases exps.len(),
{
    if exps.len() == 0 {
        Seq::empty()
    } else {
        world_export_funcs(r, exps.drop_last()) + iface_export_list(r, exps.last())
    }
}

/// The stub function derived from one exported source function.
pub open spec fn stub_fn_of(r: ResolvedView, x: ExportedFnView) -> StubFunctionView {
    StubFunctionView {
        name: x.name,
        target: x.target,
        params: stub_params(r, x.params),
        results: stub_results(r, x.results),
    }
}

/// The unsupported-shape error one exported function raises, if any.
pub open spec fn fn_synth_error(r: ResolvedView, x: ExportedFnView) -> Option<SynthErrorView> {
    match first_unsupported_ty(r, sig_ty_uses(x.params, x.results), 0) {
        Some(ty) => Some(SynthErrorView { func: x.name, ty: ty }),
        None => None,
    }
}

/// The first unsupported-shape error among the exported functions, scanning
/// from `i`.
pub open spec fn first_synth_error(r: ResolvedView, xs: Seq<ExportedFnView>, i: int) -> Option<
    SynthErrorView,
>
    decreases xs.len() - i,
{
    if i < 0 || i >= xs.len() {
        None
    } else {
        match fn_synth_error(r, xs[i]) {
            Some(e) => Some(e),
            None => first_synth_error(r, xs, i + 1),
        }
    }
}

/// The name the single stub interface carries for a source world.
pub open spec fn stub_iface_name(world: Seq<char>) -> Seq<char> {
    "stub-"@ + world
}

/// Whether every type use of a stub function points at an existing position.
pub open spec fn stub_fn_wf(r: ResolvedView, f: StubFunctionView) -> bool {
    &&& forall|p: int| 0 <= p < f.params.len() ==> type_ref_wf(r, (#[trigger] f.params[p]).ty)
    &&& match f.results {
        FuncResultsView::NoResult => true,
        FuncResultsView::Single(t) => type_ref_wf(r, t),
        FuncResultsView::NamedResults(ps) => forall|p: int|
            0 <= p < ps.len() ==> type_ref_wf(r, (#[trigger] ps[p]).ty),
    }
}

/// Whether every type use of a stub world points at an existing position.
pub open spec fn stub_world_wf(r: ResolvedView, sw: StubWorldView) -> bool {
    forall|k: int| 0 <= k < sw.functions.len() ==> stub_fn_wf(r, #[trigger] sw.functions[k])
}

/// The number of types of a package prefix never shrinks as the prefix
/// grows, and never exceeds the whole.
pub(crate) proof fn lemma_total_pkgs_take(pkgs: Seq<crate::wit_resolve::PackageView>, i: int)
    requires
        0 <= i <= pkgs.len(),
    ensures
        total_types_pkgs(pkgs.take(i)) <= total_types_pkgs(pkgs),
        total_types_pkgs(pkgs.take(i)) >= 0,
    decreases pkgs.len() - i,
{
    lemma_total_pkgs_nonneg(pkgs.take(i));
    if i == pkgs.len() {
        assert(pkgs.take(i) =~= pkgs);
    } else {
        lemma_total_pkgs_take(pkgs, i + 1);
        assert(pkgs.take(i + 1).drop_last() =~= pkgs.take(i));
        lemma_total_ifaces_nonneg(pkgs[i].interfaces);
    }
}

pub(crate) proof fn lemma_total_pkgs_nonneg(pkgs: Seq<crate::wit_resolve::PackageView>)
    ensures
        total_types_pkgs(pkgs) >= 0,
    decreases pkgs.len(),
{
    if pkgs.len() > 0 {
        lemma_total_pkgs_nonneg(pkgs.drop_last());
        lemma_total_ifaces_nonneg(pkgs.last().interfaces);
    }
}

pub(crate) proof fn lemma_total_ifaces_nonneg(ifaces: Seq<crate::wit_resolve::InterfaceView>)
    ensures
        total_types_ifaces(ifaces) >= 0,
    decreases ifaces.len(),
{
    if ifaces.len() > 0 {
        lemma_total_ifaces_nonneg(ifaces.drop_last());
    }
}

pub(crate) proof fn lemma_total_ifaces_take(ifaces: Seq<crate::wit_resolve::InterfaceView>, i: int)
    requires
        0 <= i <= ifaces.len(),
    ensures
        total_types_ifaces(ifaces.take(i)) <= total_types_ifaces(ifaces),
        total_types_ifaces(ifaces.take(i)) >= 0,
    decreases ifaces.len() - i,
{
    lemma_total_ifaces_nonneg(ifaces.take(i));
    if i == ifaces.len() {
        assert(ifaces.take(i) =~= ifaces);
    } else {
        lemma_total_ifaces_take(ifaces, i + 1);
        assert(ifaces.take(i + 1).drop_last() =~= ifaces.take(i));
    }
}

/// Counts every type definition of the model, refusing a count beyond a
/// machine word.
pub(crate) fn count_types_checked(r: &Resolved) -> (out: Option<usize>)
    ensures
        match out {
            Some(n) => n as int == total_types(r.deep_view()) && total_types(r.deep_view())
                <= usize::MAX,
            None => total_types(r.deep_view()) > usize::MAX,
        },
{
    let ghost rv = r.deep_view();
    let mut n: usize = 0;
    let mut i: usize = 0;
    while i < r.packages.len()
        invariant
            i <= r.packages.len(),
            rv == r.deep_view(),
            n as int == total_types_pkgs(rv.packages.take(i as int)),
        decreases r.packages.len() - i,
    {
        let ifaces = &r.packages[i].interfaces;
        proof {
            assert(ifaces.deep_view() == rv.packages[i as int].interfaces);
        }
        let mut j: usize = 0;
        while j < ifaces.len()
            invariant
                j <= ifaces.len(),
                rv == r.deep_view(),
                i < r.packages.len(),
                ifaces.deep_view() == rv.packages[i as int].interfaces,
                n as int == total_types_pkgs(rv.packages.take(i as int)) + total_types_ifaces(
                    rv.packages[i as int].interfaces.take(j as int),
                ),
            decreases ifaces.len() - j,
        {
            proof {
                let iv = rv.packages[i as int].interfaces;
                assert(iv.take(j as int + 1).drop_last() =~= iv.take(j as int));
                assert(iv.take(j as int + 1).last() == iv[j as int]);
                assert(iv[j as int].types.len() == ifaces[j as int].types@.len());
            }
            let k = ifaces[j].types.len();
            if k > usize::MAX - n {
                proof {
                    let iv = rv.packages[i as int].interfaces;
                    lemma_total_pkgs_take(rv.packages, i as int + 1);
                    assert(rv.packages.take(i as int + 1).drop_last() =~= rv.packages.take(
                        i as int,
                    ));
                    assert(rv.packages.take(i as int + 1).last() == rv.packages[i as int]);
                    lemma_total_ifaces_take(iv, j as int + 1);
                    assert(total_types_ifaces(iv.take(j as int + 1)) <= total_types_ifaces(iv));
                    assert(total_types(rv) >= total_types_pkgs(rv.packages.take(i as int + 1)));
                }
                return None;
            }
            n = n + k;
            j += 1;
        }
        proof {
            let iv = rv.packages[i as int].interfaces;
            assert(iv.take(ifaces.len() as int) =~= iv);
            assert(rv.packages.take(i as int + 1).drop_last() =~= rv.packages.take(i as int));
            assert(rv.packages.take(i as int + 1).last() == rv.packages[i as int]);
        }
        i += 1;
    }
    proof {
        assert(rv.packages.take(r.packages.len() as int) =~= rv.packages);
    }
    Some(n)
}

/// Counts every type definition of the model.
fn count_types(r: &Resolved) -> (n: usize)
    requires
        total_types(r.deep_view()) <= usize::MAX,
    ensures
        n as int == total_types(r.deep_view()),
{
    let ghost rv = r.deep_view();
    let mut n: usize = 0;
    let mut i: usize = 0;
    while i < r.packages.len()
        invariant
            i <= r.packages.len(),
            rv == r.deep_view(),
            total_types(rv) <= usize::MAX,
            n as int == total_types_pkgs(rv.packages.take(i as int)),
        decreases r.packages.len() - i,
    {
        let ifaces = &r.packages[i].interfaces;
        proof {
            assert(ifaces.deep_view() == rv.packages[i as int].interfaces);
        }
        let mut j: usize = 0;
        while j < ifaces.len()
            invariant
                j <= ifaces.len(),
                rv == r.deep_view(),
                total_types(rv) <= usize::MAX,
                i < r.packages.len(),
                ifaces.deep_view() == rv.packages[i as int].interfaces,
                n as int == total_types_pkgs(rv.packages.take(i as int)) + total_types_ifaces(
                    rv.packages[i as int].interfaces.take(j as int),
                ),
            decreases ifaces.len() - j,
        {
            proof {
                let iv = rv.packages[i as int].interfaces;
                assert(iv.take(j as int + 1).drop_last() =~= iv.take(j as int));
                assert(iv.take(j as int + 1).last() == iv[j as int]);
                lemma_total_pkgs_take(rv.packages, i as int + 1);
                assert(rv.packages.take(i as int + 1).drop_last() =~= rv.packages.take(i as int));
                assert(rv.packages.take(i as int + 1).last() == rv.packages[i as int]);
                lemma_total_ifaces_take(iv, j as int + 1);
                assert(iv[j as int].types.len() == ifaces[j as int].types@.len());
            }
            n = n + ifaces[j].types.len();
            j += 1;
        }
        proof {
            let iv = rv.packages[i as int].interfaces;
            assert(iv.take(ifaces.len() as int) =~= iv);
            assert(rv.packages.take(i as int + 1).drop_last() =~= rv.packages.take(i as int));
            assert(rv.packages.take(i as int + 1).last() == rv.packages[i as int]);
        }
        i += 1;
    }
    proof {
        assert(rv.packages.take(r.packages.len() as int) =~= rv.packages);
    }
    n
}

/// The references a shape makes, as `shape_refs` lists them.
pub(crate) fn shape_refs_exec(shape: &TypeShape) -> (r: Vec<TypeRef>)
    ensures
        r@ == shape_refs(shape.deep_view()),
{
    match shape {
        TypeShape::Record(fields) => {
            let mut out: Vec<TypeRef> = Vec::new();
            let mut k: usize = 0;
            while k < fields.len()
                invariant
                    k <= fields.len(),
                    out@ == fields.deep_view().take(k as int).map_values(
                        crate::wit_resolve::field_ty_fn(),
                    ),
                decreases fields.len() - k,
            {
                out.push(fields[k].ty);
                proof {
                    assert(out@ =~= fields.deep_view().take(k as int + 1).map_values(
                        crate::wit_resolve::field_ty_fn(),
                    ));
                }
                k += 1;
            }
            proof {
                assert(fields.deep_view().take(fields.len() as int) =~= fields.deep_view());
            }
            out
        },
        TypeShape::Variant(cases) => {
            let mut out: Vec<TypeRef> = Vec::new();
            let mut k: usize = 0;
            while k < cases.len()
                invariant
                    k <= cases.len(),
                    out@ == cases.deep_view().take(k as int).filter_map(
                        crate::wit_resolve::case_ty_fn(),
                    ),
                decreases cases.len() - k,
            {
                proof {
                    cases.deep_view().lemma_filter_map_take_succ(
                        crate::wit_resolve::case_ty_fn(),
                        k as int,
                    );
                }
                match &cases[k].ty {
                    Some(t) => {
                        out.push(*t);
                    },
                    None => {},
                }
                proof {
                    assert(out@ =~= cases.deep_view().take(k as int + 1).filter_map(
                        crate::wit_resolve::case_ty_fn(),
                    ));
                }
                k += 1;
            }
            proof {
                assert(cases.deep_view().take(cases.len() as int) =~= cases.deep_view());
            }
            out
        },
        TypeShape::EnumShape(_) => Vec::new(),
        TypeShape::FlagsShape(_) => Vec::new(),
        TypeShape::Resource => Vec::new(),
        TypeShape::ListOf(t) => {
            let mut out: Vec<TypeRef> = Vec::new();
            out.push(*t);
            proof {
                assert(out@ =~= seq![*t]);
            }
            out
        },
        TypeShape::OptionOf(t) => {
            let mut out: Vec<TypeRef> = Vec::new();
            out.push(*t);
            proof {
                assert(out@ =~= seq![*t]);
            }
            out
        },
        TypeShape::ResultOf(o, e) => {
            let mut out: Vec<TypeRef> = Vec::new();
            match o {
                Some(t) => {
                    out.push(*t);
                },
                None => {},
            }
            match e {
                Some(t) => {
                    out.push(*t);
                },
                None => {},
            }
            proof {
                assert(out@ =~= shape_refs(shape.deep_view()));
            }
            out
        },
        TypeShape::TupleOf(ts) => {
            let mut out: Vec<TypeRef> = Vec::new();
            let mut k: usize = 0;
            while k < ts.len()
                invariant
                    k <= ts.len(),
                    out@ == ts@.take(k as int),
                decreases ts.len() - k,
            {
                out.push(ts[k]);
                proof {
                    assert(out@ =~= ts@.take(k as int + 1));
                }
                k += 1;
            }
            proof {
                assert(ts@.take(ts.len() as int) =~= ts@);
                assert(ts.deep_view() =~= ts@);
            }
            out
        },
    }
}

/// Decides whether the type at `id` is or reaches a resource within `fuel`
/// dereferences.
fn reaches_resource(r: &Resolved, id: TypeId, fuel: usize) -> (b: bool)
    requires
        resolved_wf(r.deep_view()),
        type_id_wf(r.deep_view(), id),
    ensures
        b == reaches_res(r.deep_view(), id, fuel as nat),
    decreases fuel,
{
    let ghost rv = r.deep_view();
    let td = &r.packages[id.pkg].interfaces[id.iface].types[id.idx];
    proof {
        assert(r.packages.deep_view()[id.pkg as int] == r.packages@[id.pkg as int].deep_view());
        assert(r.packages@[id.pkg as int].interfaces.deep_view()[id.iface as int] == r.packages@[
            id.pkg as int
        ].interfaces@[id.iface as int].deep_view());
        assert(td.deep_view() == type_at(rv, id));
    }
    let is_resource = match &td.shape {
        TypeShape::Resource => true,
        _ => false,
    };
    if is_resource {
        return true;
    }
    if fuel == 0 {
        return false;
    }
    let refs = shape_refs_exec(&td.shape);
    proof {
        assert(shape_wf(rv, type_at(rv, id).shape));
    }
    let mut k: usize = 0;
    let mut found: bool = false;
    while k < refs.len()
        invariant
            k <= refs.len(),
            rv == r.deep_view(),
            resolved_wf(rv),
            type_id_wf(rv, id),
            fuel >= 1,
            refs@ == shape_refs(type_at(rv, id).shape),
            shape_wf(rv, type_at(rv, id).shape),
            found == exists|t: int|
                0 <= t < k && ref_reaches(rv, #[trigger] refs@[t], (fuel - 1) as nat),
        decreases refs.len() - k,
    {
        match refs[k] {
            TypeRef::Named(id2) => {
                proof {
                    assert(type_ref_wf(rv, refs@[k as int]));
                }
                if reaches_resource(r, id2, fuel - 1) {
                    found = true;
                    proof {
                        assert(ref_reaches(rv, refs@[k as int], (fuel - 1) as nat));
                    }
                }
            },
            _ => {},
        }
        k += 1;
    }
    found
}

/// Whether every type use of an exported signature points at an existing
/// position.
pub open spec fn export_wf(r: ResolvedView, x: ExportedFnView) -> bool {
    forall|k: int|
        0 <= k < sig_ty_uses(x.params, x.results).len() ==> type_ref_wf(
            r,
            #[trigger] sig_ty_uses(x.params, x.results)[k],
        )
}

/// A fresh copy of a parameter list.
fn copy_params(v: &Vec<Param>) -> (r: Vec<Param>)
    ensures
        r.deep_view() == v.deep_view(),
{
    let mut r: Vec<Param> = Vec::new();
    let mut i: usize = 0;
    while i < v.len()
        invariant
            i <= v.len(),
            r.deep_view() == v.deep_view().take(i as int),
        decreases v.len() - i,
    {
        let x = Param { name: v[i].name.clone(), ty: v[i].ty };
        proof {
            assert(x.deep_view() =~= v.deep_view()[i as int]);
        }
        crate::seqs::push_dv(&mut r, x);
        proof {
            assert(r.deep_view() =~= v.deep_view().take(i as int + 1));
        }
        i += 1;
    }
    proof {
        assert(v.deep_view().take(v.len() as int) =~= v.deep_view());
    }
    r
}

/// A fresh copy of a result shape.
fn copy_results(res: &FuncResults) -> (r: FuncResults)
    ensures
        r.deep_view() == res.deep_view(),
{
    match res {
        FuncResults::NoResult => FuncResults::NoResult,
        FuncResults::Single(t) => FuncResults::Single(*t),
        FuncResults::NamedResults(ps) => FuncResults::NamedResults(copy_params(ps)),
    }
}

/// The interface-qualified name, as `qualified_name` spells it.
fn qualified_name_exec(iface: &str, func: &str) -> (r: String)
    ensures
        r@ == qualified_name(iface@, func@),
{
    let mut s: String = iface.to_owned();
    s.append(".");
    s.append(func);
    proof {
        assert(s@ =~= qualified_name(iface@, func@));
    }
    s
}

/// The fully qualified remote target, as `target_name` spells it.
fn target_name_exec(ns: &str, pkg: &str, iface: &str, func: &str) -> (r: String)
    ensures
        r@ == ns@ + ":"@ + pkg@ + "/"@ + iface@ + "."@ + func@,
{
    let mut s: String = ns.to_owned();
    s.append(":");
    s.append(pkg);
    s.append("/");
    s.append(iface);
    s.append(".");
    s.append(func);
    proof {
        assert(s@ =~= ns@ + ":"@ + pkg@ + "/"@ + iface@ + "."@ + func@);
    }
    s
}

/// The stub interface's name, as `stub_iface_name` spells it.
fn stub_iface_name_exec(world: &str) -> (r: String)
    ensures
        r@ == stub_iface_name(world@),
{
    let mut s: String = String::from_str("stub-");
    s.append(world);
    proof {
        assert(s@ =~= stub_iface_name(world@));
    }
    s
}

/// Gathers every function the world exports, qualified, in order.
fn gather_exports(r: &Resolved, world: &World) -> (out: Vec<ExportedFn>)
    requires
        resolved_wf(r.deep_view()),
        crate::wit_resolve::world_wf(r.deep_view(), world.deep_view()),
    ensures
        out.deep_view() == world_export_funcs(r.deep_view(), world.deep_view().exports),
        forall|k: int|
            0 <= k < out.deep_view().len() ==> export_wf(r.deep_view(), #[trigger] out.deep_view()[k]),
{
    let ghost rv = r.deep_view();
    let ghost ev = world.deep_view().exports;
    let mut out: Vec<ExportedFn> = Vec::new();
    let mut i: usize = 0;
    while i < world.exports.len()
        invariant
            i <= world.exports.len(),
            rv == r.deep_view(),
            resolved_wf(rv),
            crate::wit_resolve::world_wf(rv, world.deep_view()),
            ev == world.deep_view().exports,
            out.deep_view() == world_export_funcs(rv, ev.take(i as int)),
            forall|k: int|
                0 <= k < out.deep_view().len() ==> export_wf(rv, #[trigger] out.deep_view()[k]),
        decreases world.exports.len() - i,
    {
        let e: IfaceId = world.exports[i];
        proof {
            assert(world.exports@[i as int] == ev[i as int]);
            assert(iface_id_wf(rv, ev[i as int]));
        }
        let pkg = &r.packages[e.pkg];
        let iface = &pkg.interfaces[e.iface];
        proof {
            assert(pkg.deep_view() == rv.packages[e.pkg as int]);
            assert(iface.deep_view() == iface_at(rv, e));
        }
        let mut j: usize = 0;
        while j < iface.funcs.len()
            invariant
                j <= iface.funcs.len(),
                rv == r.deep_view(),
                resolved_wf(rv),
                i < world.exports.len(),
                e == ev[i as int],
                iface_id_wf(rv, e),
                iface.deep_view() == iface_at(rv, e),
                pkg.deep_view() == rv.packages[e.pkg as int],
                out.deep_view() == world_export_funcs(rv, ev.take(i as int)) + iface_at(
                    rv,
                    e,
                ).funcs.take(j as int).map_values(export_fn_of(rv, e)),
                forall|k: int|
                    0 <= k < out.deep_view().len() ==> export_wf(rv, #[trigger] out.deep_view()[k]),
            decreases iface.funcs.len() - j,
        {
            let f = &iface.funcs[j];
            proof {
                assert(f.deep_view() == iface_at(rv, e).funcs[j as int]);
                assert(crate::wit_resolve::func_wf(rv, f.deep_view()));
            }
            let x = ExportedFn {
                name: qualified_name_exec(iface.name.as_str(), f.name.as_str()),
                target: target_name_exec(
                    pkg.name.namespace.as_str(),
                    pkg.name.name.as_str(),
                    iface.name.as_str(),
                    f.name.as_str(),
                ),
                params: copy_params(&f.params),
                results: copy_results(&f.results),
            };
            proof {
                assert(x.deep_view() =~= export_fn_of(rv, e)(iface_at(rv, e).funcs[j as int]));
                let xv = x.deep_view();
                let uses = sig_ty_uses(xv.params, xv.results);
                assert forall|k: int| 0 <= k < uses.len() implies type_ref_wf(
                    rv,
                    #[trigger] uses[k],
                ) by {
                    let fv = f.deep_view();
                    if k < fv.params.len() {
                        assert(uses[k] == fv.params[k].ty);
                    } else {
                        match fv.results {
                            FuncResultsView::NoResult => {},
                            FuncResultsView::Single(t) => {
                                assert(uses[k] == t);
                            },
                            FuncResultsView::NamedResults(ps) => {
                                assert(uses[k] == ps[k - fv.params.len()].ty);
                            },
                        }
                    }
                }
                assert(export_wf(rv, xv));
            }
            crate::seqs::push_dv(&mut out, x);
            proof {
                assert(out.deep_view() =~= world_export_funcs(rv, ev.take(i as int)) + iface_at(
                    rv,
                    e,
                ).funcs.take(j as int + 1).map_values(export_fn_of(rv, e)));
            }
            j += 1;
        }
        proof {
            assert(iface_at(rv, e).funcs.take(iface.funcs.len() as int) =~= iface_at(rv, e).funcs);
            assert(ev.take(i as int + 1).drop_last() =~= ev.take(i as int));
            assert(ev.take(i as int + 1).last() == ev[i as int]);
            assert(out.deep_view() =~= world_export_funcs(rv, ev.take(i as int + 1)));
        }
        i += 1;
    }
    proof {
        assert(ev.take(world.exports.len() as int) =~= ev);
    }
    out
}

/// Every type use of a signature, parameters first, then results.
fn sig_uses_exec(params: &Vec<Param>, results: &FuncResults) -> (r: Vec<TypeRef>)
    ensures
        r@ == sig_ty_uses(params.deep_view(), results.deep_view()),
{
    let mut out: Vec<TypeRef> = Vec::new();
    let mut i: usize = 0;
    while i < params.len()
        invariant
            i <= params.len(),
            out@ == params.deep_view().take(i as int).map_values(param_ty_fn()),
        decreases params.len() - i,
    {
        out.push(params[i].ty);
        proof {
            assert(out@ =~= params.deep_view().take(i as int + 1).map_values(param_ty_fn()));
        }
        i += 1;
    }
    proof {
        assert(params.deep_view().take(params.len() as int) =~= params.deep_view());
    }
    match results {
        FuncResults::NoResult => {
            proof {
                assert(out@ =~= sig_ty_uses(params.deep_view(), results.deep_view()));
            }
        },
        FuncResults::Single(t) => {
            out.push(*t);
            proof {
                assert(out@ =~= sig_ty_uses(params.deep_view(), results.deep_view()));
            }
        },
        FuncResults::NamedResults(ps) => {
            let mut j: usize = 0;
            while j < ps.len()
                invariant
                    j <= ps.len(),
                    out@ == params.deep_view().map_values(param_ty_fn()) + ps.deep_view().take(
                        j as int,
                    ).map_values(param_ty_fn()),
                decreases ps.len() - j,
            {
                out.push(ps[j].ty);
                proof {
                    assert(out@ =~= params.deep_view().map_values(param_ty_fn())
                        + ps.deep_view().take(j as int + 1).map_values(param_ty_fn()));
                }
                j += 1;
            }
            proof {
                assert(ps.deep_view().take(ps.len() as int) =~= ps.deep_view());
                assert(out@ =~= sig_ty_uses(params.deep_view(), results.deep_view()));
            }
        },
    }
    out
}

/// Decides whether one type use is supported by the handle-forwarding
/// strategy.
fn ty_supported_exec(r: &Resolved, t: TypeRef, total: usize) -> (b: bool)
    requires
        resolved_wf(r.deep_view()),
        type_ref_wf(r.deep_view(), t),
        total as int == total_types(r.deep_view()),
    ensures
        b == ty_supported(r.deep_view(), t),
{
    let ghost rv = r.deep_view();
    match t {
        TypeRef::Prim(_) => true,
        TypeRef::Handle(_) => true,
        TypeRef::Named(id) => {
            let td = &r.packages[id.pkg].interfaces[id.iface].types[id.idx];
            proof {
                assert(r.packages.deep_view()[id.pkg as int] == r.packages@[
                    id.pkg as int
                ].deep_view());
                assert(r.packages@[id.pkg as int].interfaces.deep_view()[id.iface as int]
                    == r.packages@[id.pkg as int].interfaces@[id.iface as int].deep_view());
                assert(td.deep_view() == type_at(rv, id));
            }
            let is_resource = match &td.shape {
                TypeShape::Resource => true,
                _ => false,
            };
            if is_resource {
                true
            } else {
                !reaches_resource(r, id, total)
            }
        },
    }
}

/// What synthesis yields for a resolved source world: the derived stub
/// world, or the first unsupported-shape error in export order.
pub open spec fn synth_spec(r: ResolvedView, w: WorldView) -> Result<
    StubWorldView,
    SynthErrorView,
> {
    let xs = world_export_funcs(r, w.exports);
    match first_synth_error(r, xs, 0) {
        Some(e) => Err(e),
        None => Ok(
            StubWorldView {
                source_world: w.name,
                interface_name: stub_iface_name(w.name),
                functions: Seq::new(xs.len(), |k: int| stub_fn_of(r, xs[k])),
            },
        ),
    }
}

/// Finds the first unsupported type among these uses, as
/// `first_unsupported_ty` describes it, and names it.
fn find_unsupported(r: &Resolved, uses: &Vec<TypeRef>, total: usize) -> (res: Option<String>)
    requires
        resolved_wf(r.deep_view()),
        total as int == total_types(r.deep_view()),
        forall|k: int| 0 <= k < uses@.len() ==> type_ref_wf(r.deep_view(), #[trigger] uses@[k]),
    ensures
        match res {
            Some(s) => first_unsupported_ty(r.deep_view(), uses@, 0) == Some(s@),
            None => first_unsupported_ty(r.deep_view(), uses@, 0) is None,
        },
{
    let ghost rv = r.deep_view();
    let mut i: usize = 0;
    while i < uses.len()
        invariant
            i <= uses.len(),
            rv == r.deep_view(),
            resolved_wf(rv),
            total as int == total_types(rv),
            forall|k: int| 0 <= k < uses@.len() ==> type_ref_wf(rv, #[trigger] uses@[k]),
            first_unsupported_ty(rv, uses@, 0) == first_unsupported_ty(rv, uses@, i as int),
        decreases uses.len() - i,
    {
        let t = uses[i];
        if !ty_supported_exec(r, t, total) {
            match t {
                TypeRef::Named(id) => {
                    let name = r.packages[id.pkg].interfaces[id.iface].types[id.idx].name.clone();
                    proof {
                        assert(r.packages.deep_view()[id.pkg as int] == r.packages@[
                            id.pkg as int
                        ].deep_view());
                        assert(r.packages@[id.pkg as int].interfaces.deep_view()[id.iface as int]
                            == r.packages@[id.pkg as int].interfaces@[
                            id.iface as int
                        ].deep_view());
                        assert(name@ == ref_ty_name(rv, uses@[i as int]));
                    }
                    return Some(name);
                },
                _ => {
                    proof {
                        assert(false);
                    }
                },
            }
        }
        i += 1;
    }
    None
}

/// How the stub carries one type use; decides `stub_ty`.
fn stub_ty_exec(r: &Resolved, t: TypeRef) -> (out: TypeRef)
    requires
        resolved_wf(r.deep_view()),
        type_ref_wf(r.deep_view(), t),
    ensures
        out == stub_ty(r.deep_view(), t),
{
    let ghost rv = r.deep_view();
    match t {
        TypeRef::Named(id) => {
            let td = &r.packages[id.pkg].interfaces[id.iface].types[id.idx];
            proof {
                assert(r.packages.deep_view()[id.pkg as int] == r.packages@[
                    id.pkg as int
                ].deep_view());
                assert(r.packages@[id.pkg as int].interfaces.deep_view()[id.iface as int]
                    == r.packages@[id.pkg as int].interfaces@[id.iface as int].deep_view());
                assert(td.deep_view() == type_at(rv, id));
            }
            match &td.shape {
                TypeShape::Resource => TypeRef::Handle(id),
                _ => TypeRef::Named(id),
            }
        },
        _ => t,
    }
}

/// The stub's parameter list, as `stub_params` describes it.
fn stub_params_exec(r: &Resolved, ps: &Vec<Param>) -> (out: Vec<Param>)
    requires
        resolved_wf(r.deep_view()),
        forall|k: int|
            0 <= k < ps.deep_view().len() ==> type_ref_wf(
                r.deep_view(),
                (#[trigger] ps.deep_view()[k]).ty,
            ),
    ensures
        out.deep_view() == stub_params(r.deep_view(), ps.deep_view()),
{
    let ghost rv = r.deep_view();
    let mut out: Vec<Param> = Vec::new();
    let mut i: usize = 0;
    while i < ps.len()
        invariant
            i <= ps.len(),
            rv == r.deep_view(),
            resolved_wf(rv),
            forall|k: int|
                0 <= k < ps.deep_view().len() ==> type_ref_wf(
                    rv,
                    (#[trigger] ps.deep_view()[k]).ty,
                ),
            out.deep_view() == stub_params(rv, ps.deep_view().take(i as int)),
        decreases ps.len() - i,
    {
        proof {
            assert(type_ref_wf(rv, ps.deep_view()[i as int].ty));
            assert(ps.deep_view()[i as int].ty == ps@[i as int].ty);
        }
        let x = Param { name: ps[i].name.clone(), ty: stub_ty_exec(r, ps[i].ty) };
        proof {
            assert(x.deep_view() =~= stub_param_fn(rv)(ps.deep_view()[i as int]));
        }
        crate::seqs::push_dv(&mut out, x);
        proof {
            assert(out.deep_view() =~= stub_params(rv, ps.deep_view().take(i as int + 1)));
        }
        i += 1;
    }
    proof {
        assert(ps.deep_view().take(ps.len() as int) =~= ps.deep_view());
    }
    out
}

/// The stub's result shape, as `stub_results` describes it.
fn stub_results_exec(r: &Resolved, res: &FuncResults) -> (out: FuncResults)
    requires
        resolved_wf(r.deep_view()),
        forall|k: int|
            0 <= k < sig_ty_uses(Seq::empty(), res.deep_view()).len() ==> type_ref_wf(
                r.deep_view(),
                #[trigger] sig_ty_uses(Seq::empty(), res.deep_view())[k],
            ),
    ensures
        out.deep_view() == stub_results(r.deep_view(), res.deep_view()),
{
    let ghost rv = r.deep_view();
    proof {
        assert(Seq::<ParamView>::empty().map_values(param_ty_fn()) =~= Seq::<TypeRef>::empty());
    }
    match res {
        FuncResults::NoResult => FuncResults::NoResult,
        FuncResults::Single(t) => {
            proof {
                assert(sig_ty_uses(Seq::empty(), res.deep_view()) =~= seq![*t]);
                assert(type_ref_wf(rv, sig_ty_uses(Seq::empty(), res.deep_view())[0]));
            }
            FuncResults::Single(stub_ty_exec(r, *t))
        },
        FuncResults::NamedResults(ps) => {
            proof {
                assert(sig_ty_uses(Seq::empty(), res.deep_view()) =~= ps.deep_view().map_values(
                    param_ty_fn(),
                ));
                assert forall|k: int| 0 <= k < ps.deep_view().len() implies type_ref_wf(
                    rv,
                    (#[trigger] ps.deep_view()[k]).ty,
                ) by {
                    assert(sig_ty_uses(Seq::empty(), res.deep_view())[k] == ps.deep_view()[k].ty);
                }
            }
            FuncResults::NamedResults(stub_params_exec(r, ps))
        },
    }
}

/// Derives the stub world from a resolved source world: one stub function of
/// identical signature per source export, resources replaced by handles, or
/// the first unsupported-shape error in export order, naming the function
/// and the offending type.
pub fn synthesize(r: &Resolved, world: &World) -> (out: Result<StubWorld, SynthError>)
    requires
        resolved_wf(r.deep_view()),
        crate::wit_resolve::world_wf(r.deep_view(), world.deep_view()),
        total_types(r.deep_view()) <= usize::MAX,
    ensures
        out matches Ok(sw) ==> synth_spec(r.deep_view(), world.deep_view()) == Ok::<
            StubWorldView,
            SynthErrorView,
        >(sw.deep_view()),
        out matches Err(e) ==> synth_spec(r.deep_view(), world.deep_view()) == Err::<
            StubWorldView,
            SynthErrorView,
        >(e.deep_view()),
        out matches Ok(sw) ==> stub_world_wf(r.deep_view(), sw.deep_view()),
{
    let ghost rv = r.deep_view();
    let ghost wv = world.deep_view();
    let total = count_types(r);
    let exported = gather_exports(r, world);
    let ghost xs = world_export_funcs(rv, wv.exports);
    let mut funcs: Vec<StubFunction> = Vec::new();
    let mut i: usize = 0;
    while i < exported.len()
        invariant
            i <= exported.len(),
            rv == r.deep_view(),
            wv == world.deep_view(),
            resolved_wf(rv),
            total as int == total_types(rv),
            exported.deep_view() == xs,
            xs == world_export_funcs(rv, wv.exports),
            forall|k: int| 0 <= k < xs.len() ==> export_wf(rv, #[trigger] xs[k]),
            first_synth_error(rv, xs, 0) == first_synth_error(rv, xs, i as int),
            funcs.deep_view().len() == i,
            forall|k: int|
                0 <= k < i ==> #[trigger] funcs.deep_view()[k] == stub_fn_of(rv, xs[k]),
            forall|k: int|
                0 <= k < i ==> stub_fn_wf(rv, #[trigger] funcs.deep_view()[k]),
        decreases exported.len() - i,
    {
        let x = &exported[i];
        proof {
            assert(x.deep_view() == xs[i as int]);
        }
        let uses = sig_uses_exec(&x.params, &x.results);
        proof {
            assert(export_wf(rv, xs[i as int]));
            assert(uses@ == sig_ty_uses(xs[i as int].params, xs[i as int].results));
        }
        match find_unsupported(r, &uses, total) {
            Some(tyname) => {
                let err = SynthError { func: x.name.clone(), ty: tyname };
                proof {
                    assert(fn_synth_error(rv, xs[i as int]) == Some(err.deep_view()));
                    assert(first_synth_error(rv, xs, i as int) == Some(err.deep_view()));
                }
                return Err(err);
            },
            None => {
                proof {
                    assert(fn_synth_error(rv, xs[i as int]) is None);
                    assert forall|k: int| 0 <= k < xs[i as int].params.len() implies type_ref_wf(
                        rv,
                        (#[trigger] xs[i as int].params[k]).ty,
                    ) by {
                        assert(sig_ty_uses(xs[i as int].params, xs[i as int].results)[k] == xs[
                            i as int
                        ].params[k].ty);
                    }
                }
                proof {
                    assert(Seq::<ParamView>::empty().map_values(param_ty_fn()) =~= Seq::<
                        TypeRef,
                    >::empty());
                    assert forall|k: int| 0 <= k < sig_ty_uses(
                        Seq::empty(),
                        xs[i as int].results,
                    ).len() implies type_ref_wf(
                        rv,
                        #[trigger] sig_ty_uses(Seq::empty(), xs[i as int].results)[k],
                    ) by {
                        let full = sig_ty_uses(xs[i as int].params, xs[i as int].results);
                        assert(sig_ty_uses(Seq::empty(), xs[i as int].results)[k] == full[k + xs[
                            i as int
                        ].params.len()]);
                    }
                }
                let sf = StubFunction {
                    name: x.name.clone(),
                    target: x.target.clone(),
                    params: stub_params_exec(r, &x.params),
                    results: stub_results_exec(r, &x.results),
                };
                proof {
                    assert(sf.deep_view() =~= stub_fn_of(rv, xs[i as int]));
                    let fv = sf.deep_view();
                    let full = sig_ty_uses(xs[i as int].params, xs[i as int].results);
                    assert forall|p: int| 0 <= p < fv.params.len() implies type_ref_wf(
                        rv,
                        (#[trigger] fv.params[p]).ty,
                    ) by {
                        assert(full[p] == xs[i as int].params[p].ty);
                        assert(fv.params[p].ty == stub_ty(rv, xs[i as int].params[p].ty));
                    }
                    match fv.results {
                        FuncResultsView::NoResult => {},
                        FuncResultsView::Single(t) => {
                            match xs[i as int].results {
                                FuncResultsView::Single(t0) => {
                                    assert(full[xs[i as int].params.len() as int] == t0);
                                    assert(t == stub_ty(rv, t0));
                                },
                                _ => {},
                            }
                        },
                        FuncResultsView::NamedResults(ps) => {
                            match xs[i as int].results {
                                FuncResultsView::NamedResults(qs) => {
                                    assert forall|p: int| 0 <= p < ps.len() implies type_ref_wf(
                                        rv,
                                        (#[trigger] ps[p]).ty,
                                    ) by {
                                        assert(full[p + xs[i as int].params.len()] == qs[p].ty);
                                        assert(ps[p].ty == stub_ty(rv, qs[p].ty));
                                    }
                                },
                                _ => {},
                            }
                        },
                    }
                    assert(stub_fn_wf(rv, fv));
                }
                crate::seqs::push_dv(&mut funcs, sf);
            },
        }
        i += 1;
    }
    proof {
        assert(first_synth_error(rv, xs, 0) is None);
    }
    let sw = StubWorld {
        source_world: world.name.clone(),
        interface_name: stub_iface_name_exec(world.name.as_str()),
        functions: funcs,
    };
    proof {
        assert(sw.deep_view().functions =~= Seq::new(xs.len(), |k: int| stub_fn_of(rv, xs[k])));
        assert(synth_spec(rv, wv) matches Ok(v) && sw.deep_view() =~= v);
    }
    Ok(sw)
}

/// Structural fidelity: for every function the source world exports, the
/// stub world derived from it holds exactly one function of the same
/// qualified name, with the same parameter count, parameter names and result
/// shape; only resource types are replaced by their handle counterparts.
pub proof fn lemma_structural_fidelity(r: ResolvedView, w: WorldView, sw: StubWorldView)
    requires
        synth_spec(r, w) == Ok::<StubWorldView, SynthErrorView>(sw),
    ensures
        sw.functions.len() == world_export_funcs(r, w.exports).len(),
        forall|k: int|
            0 <= k < sw.functions.len() ==> (#[trigger] sw.functions[k]).name
                == world_export_funcs(r, w.exports)[k].name,
        forall|k: int|
            0 <= k < sw.functions.len() ==> (#[trigger] sw.functions[k]).params.len()
                == world_export_funcs(r, w.exports)[k].params.len(),
        forall|k: int, p: int|
            0 <= k < sw.functions.len() && 0 <= p < sw.functions[k].params.len() ==> (#[trigger]
            sw.functions[k].params[p]).name == world_export_funcs(
                r,
                w.exports,
            )[k].params[p].name,
        forall|k: int|
            0 <= k < sw.functions.len() ==> same_result_shape(
                (#[trigger] sw.functions[k]).results,
                world_export_funcs(r, w.exports)[k].results,
            ),
        (forall|k1: int, k2: int|
            0 <= k1 < k2 < world_export_funcs(r, w.exports).len()
                ==> (#[trigger] world_export_funcs(r, w.exports)[k1]).name
                != (#[trigger] world_export_funcs(r, w.exports)[k2]).name) ==> (forall|
            k1: int,
            k2: int,
        |
            0 <= k1 < k2 < sw.functions.len() ==> (#[trigger] sw.functions[k1]).name
                != (#[trigger] sw.functions[k2]).name),
{
    let xs = world_export_funcs(r, w.exports);
    assert(sw.functions == Seq::new(xs.len(), |k: int| stub_fn_of(r, xs[k])));
}

/// Whether two result declarations have the same shape: both absent, both a
/// single type, or named results of equal length with equal names.
pub open spec fn same_result_shape(a: FuncResultsView, b: FuncResultsView) -> bool {
    match (a, b) {
        (FuncResultsView::NoResult, FuncResultsView::NoResult) => true,
        (FuncResultsView::Single(_), FuncResultsView::Single(_)) => true,
        (FuncResultsView::NamedResults(ps), FuncResultsView::NamedResults(qs)) => ps.len()
            == qs.len() && forall|p: int|
            0 <= p < ps.len() ==> (#[trigger] ps[p]).name == qs[p].name,
        _ => false,
    }
}

} // verus!
