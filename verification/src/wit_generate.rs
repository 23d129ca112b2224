//! Code generator: emits the source project implementing a stub world - the
//! regenerated interface description of the stub, the marshaling source that
//! forwards each stub function to its remote target through the transport
//! library, and the generated project's build manifest naming the chosen
//! transport version or path.
//!
//! The emitted interface root is self-describing. With `always_inline_types`
//! set, every named type of the source model is inlined into the stub
//! interface as a flat copy and signatures use the bare names; otherwise
//! signatures reference the source types package-qualified and the source
//! packages are emitted under `wit/deps` as the stub's dependencies. The
//! dependency files are plain source grammar and resolve on their own; the
//! stub's `func` lines use the stub's derived syntax (interface-qualified
//! names and `handle<..>` counterparts), which only the composition side
//! consumes.
//!
//! Generation is deterministic: the emitted files are a pure function of the
//! resolved model, the stub world and the run configuration, so generating
//! twice from the same inputs yields byte-identical files, which is what
//! makes the dependency merger's conflict detection meaningful.

use vstd::prelude::*;

verus! {

use crate::files::FileEntry;
use crate::files::FileEntryView;
use crate::stub::StubConfig;
use crate::stub::StubFunction;
use crate::stub::StubFunctionView;
use crate::stub::StubWorld;
use crate::stub::StubWorldView;
use crate::stub::stub_fn_wf;
use crate::stub::stub_world_wf;
use crate::wit_resolve::CaseView;
use crate::wit_resolve::FieldView;
use crate::wit_resolve::FuncResults;
use crate::wit_resolve::FuncResultsView;
use crate::wit_resolve::Function;
use crate::wit_resolve::FunctionView;
use crate::wit_resolve::Interface;
use crate::wit_resolve::Param;
use crate::wit_resolve::ParamView;
use crate::wit_resolve::Prim;
use crate::wit_resolve::Resolved;
use crate::wit_resolve::ResolvedView;
use crate::wit_resolve::TypeDef;
use crate::wit_resolve::TypeDefView;
use crate::wit_resolve::TypeRef;
use crate::wit_resolve::TypeShape;
use crate::wit_resolve::TypeShapeView;
use crate::wit_resolve::func_wf;
use crate::wit_resolve::resolved_wf;
use crate::wit_resolve::shape_refs;
use crate::wit_resolve::shape_wf;
use crate::wit_resolve::type_at;
use crate::wit_resolve::type_ref_wf;

/// Ghost image of a `StubConfig`, as far as generation reads it.
#[verifier::ext_equal]
pub ghost struct GenConfigView {
    pub stub_crate_version: Seq<char>,
    pub wasm_rpc_path_override: Option<Seq<char>>,
    pub wasm_rpc_version_override: Option<Seq<char>>,
    pub inline_types: bool,
}

/// What generation reads from the run configuration.
pub open spec fn gen_config_view(cfg: &StubConfig) -> GenConfigView {
    GenConfigView {
        stub_crate_version: cfg.stub_crate_version@,
        wasm_rpc_path_override: cfg.wasm_rpc_override.deep_view().wasm_rpc_path_override,
        wasm_rpc_version_override: cfg.wasm_rpc_override.deep_view().wasm_rpc_version_override,
        inline_types: cfg.always_inline_types,
    }
}

/// How a named type is spelled at a use site: by bare name (everything lives
/// in the same interface, as after inlining), fully package-qualified (a use
/// from outside every source interface, as in the stub's signatures), or
/// relative to one home interface (as inside an emitted dependency file).
#[derive(Clone, Copy, PartialEq, Eq, Structural, Debug)]
pub enum PrintMode {
    LocalNames,
    Qualified,
    Home { pkg: usize, iface: usize },
}

/// The fully qualified text of one defined type.
pub open spec fn qualified_ty(r: ResolvedView, id: crate::wit_resolve::TypeId) -> Seq<char> {
    r.packages[id.pkg as int].name.namespace + ":"@ + r.packages[id.pkg as int].name.name + "/"@
        + r.packages[id.pkg as int].interfaces[id.iface as int].name + "."@ + type_at(r, id).name
}

/// The name of one defined type, spelled for the given mode.
pub open spec fn named_text(r: ResolvedView, m: PrintMode, id: crate::wit_resolve::TypeId) -> Seq<
    char,
> {
    match m {
        PrintMode::LocalNames => type_at(r, id).name,
        PrintMode::Qualified => qualified_ty(r, id),
        PrintMode::Home { pkg, iface } => if id.pkg == pkg && id.iface == iface {
            type_at(r, id).name
        } else {
            qualified_ty(r, id)
        },
    }
}

/// The canonical text of one type use, spelled for the given mode.
pub open spec fn print_ty(r: ResolvedView, m: PrintMode, t: TypeRef) -> Seq<char> {
    match t {
        TypeRef::Prim(p) => prim_text(p),
        TypeRef::Named(id) => named_text(r, m, id),
        TypeRef::Handle(id) => "handle<"@ + named_text(r, m, id) + ">"@,
    }
}

/// The canonical name of one primitive type.
pub open spec fn prim_text(p: Prim) -> Seq<char> {
    match p {
        Prim::Bool => "bool"@,
        Prim::U8 => "u8"@,
        Prim::U16 => "u16"@,
        Prim::U32 => "u32"@,
        Prim::U64 => "u64"@,
        Prim::S8 => "s8"@,
        Prim::S16 => "s16"@,
        Prim::S32 => "s32"@,
        Prim::S64 => "s64"@,
        Prim::Float32 => "f32"@,
        Prim::Float64 => "f64"@,
        Prim::CharPrim => "char"@,
        Prim::StringPrim => "string"@,
    }
}

/// The text of a parameter list: one ` name:type` piece per parameter.
pub open spec fn params_text(r: ResolvedView, m: PrintMode, ps: Seq<ParamView>) -> Seq<char>
    decreases ps.len(),
{
    if ps.len() == 0 {
        Seq::empty()
    } else {
        params_text(r, m, ps.drop_last()) + " "@ + ps.last().name + ":"@ + print_ty(
            r,
            m,
            ps.last().ty,
        )
    }
}

/// The text of a result declaration.
pub open spec fn results_text(r: ResolvedView, m: PrintMode, res: FuncResultsView) -> Seq<char> {
    match res {
        FuncResultsView::NoResult => Seq::empty(),
        FuncResultsView::Single(t) => " -> "@ + print_ty(r, m, t),
        FuncResultsView::NamedResults(ps) => " ->"@ + params_text(r, m, ps),
    }
}

/// The interface-description line declaring one stub function.
pub open spec fn func_line(r: ResolvedView, m: PrintMode, f: StubFunctionView) -> Seq<char> {
    "func "@ + f.name + params_text(r, m, f.params) + results_text(r, m, f.results) + "\n"@
}

/// The lines declaring every stub function, in order.
pub open spec fn funcs_text(r: ResolvedView, m: PrintMode, fs: Seq<StubFunctionView>) -> Seq<char>
    decreases fs.len(),
{
    if fs.len() == 0 {
        Seq::empty()
    } else {
        funcs_text(r, m, fs.drop_last()) + func_line(r, m, fs.last())
    }
}

/// The interface-description line declaring one source function.
pub open spec fn src_func_line(r: ResolvedView, m: PrintMode, f: FunctionView) -> Seq<char> {
    "func "@ + f.name + params_text(r, m, f.params) + results_text(r, m, f.results) + "\n"@
}

/// The lines declaring every source function of one interface, in order.
pub open spec fn src_funcs_text(r: ResolvedView, m: PrintMode, fs: Seq<FunctionView>) -> Seq<char>
    decreases fs.len(),
{
    if fs.len() == 0 {
        Seq::empty()
    } else {
        src_funcs_text(r, m, fs.drop_last()) + src_func_line(r, m, fs.last())
    }
}

/// The text of a record field list.
pub open spec fn fields_text(r: ResolvedView, m: PrintMode, fs: Seq<FieldView>) -> Seq<char>
    decreases fs.len(),
{
    if fs.len() == 0 {
        Seq::empty()
    } else {
        fields_text(r, m, fs.drop_last()) + " "@ + fs.last().name + ":"@ + print_ty(
            r,
            m,
            fs.last().ty,
        )
    }
}

/// The text of a variant case list.
pub open spec fn cases_text(r: ResolvedView, m: PrintMode, cs: Seq<CaseView>) -> Seq<char>
    decreases cs.len(),
{
    if cs.len() == 0 {
        Seq::empty()
    } else {
        cases_text(r, m, cs.drop_last()) + " "@ + cs.last().name + (match cs.last().ty {
            Some(t) => ":"@ + print_ty(r, m, t),
            None => Seq::empty(),
        })
    }
}

/// The text of an enum or flags tag list.
pub open spec fn tags_text(ts: Seq<Seq<char>>) -> Seq<char>
    decreases ts.len(),
{
    if ts.len() == 0 {
        Seq::empty()
    } else {
        tags_text(ts.drop_last()) + " "@ + ts.last()
    }
}

/// A `result` constructor side: a type use or `_` for an absent side.
pub open spec fn opt_ref_text(r: ResolvedView, m: PrintMode, t: Option<TypeRef>) -> Seq<char> {
    match t {
        Some(t) => print_ty(r, m, t),
        None => "_"@,
    }
}

/// A comma-separated list of type uses.
pub open spec fn refs_csv(r: ResolvedView, m: PrintMode, ts: Seq<TypeRef>) -> Seq<char>
    decreases ts.len(),
{
    if ts.len() == 0 {
        Seq::empty()
    } else if ts.len() == 1 {
        print_ty(r, m, ts[0])
    } else {
        refs_csv(r, m, ts.drop_last()) + ","@ + print_ty(r, m, ts.last())
    }
}

/// The interface-description line declaring one type.
pub open spec fn typedef_line(r: ResolvedView, m: PrintMode, td: TypeDefView) -> Seq<char> {
    match td.shape {
        TypeShapeView::Record(fs) => "record "@ + td.name + fields_text(r, m, fs) + "\n"@,
        TypeShapeView::Variant(cs) => "variant "@ + td.name + cases_text(r, m, cs) + "\n"@,
        TypeShapeView::EnumShape(ts) => "enum "@ + td.name + tags_text(ts) + "\n"@,
        TypeShapeView::FlagsShape(ts) => "flags "@ + td.name + tags_text(ts) + "\n"@,
        TypeShapeView::Resource => "resource "@ + td.name + "\n"@,
        TypeShapeView::ListOf(t) => "type "@ + td.name + " list<"@ + print_ty(r, m, t) + ">\n"@,
        TypeShapeView::OptionOf(t) => "type "@ + td.name + " option<"@ + print_ty(r, m, t)
            + ">\n"@,
        TypeShapeView::ResultOf(o, e) => "type "@ + td.name + " result<"@ + opt_ref_text(r, m, o)
            + ","@ + opt_ref_text(r, m, e) + ">\n"@,
        TypeShapeView::TupleOf(ts) => "type "@ + td.name + " tuple<"@ + refs_csv(r, m, ts)
            + ">\n"@,
    }
}

/// The lines declaring every type of one interface, in order.
pub open spec fn typedefs_text(r: ResolvedView, m: PrintMode, tds: Seq<TypeDefView>) -> Seq<char>
    decreases tds.len(),
{
    if tds.len() == 0 {
        Seq::empty()
    } else {
        typedefs_text(r, m, tds.drop_last()) + typedef_line(r, m, tds.last())
    }
}

/// Every type definition of the model, package by package, interface by
/// interface, spelled by bare name: the flat copies inlined into the stub
/// interface.
pub open spec fn inline_types_text(r: ResolvedView, p: int) -> Seq<char>
    decreases r.packages.len() - p,
{
    if p < 0 || p >= r.packages.len() {
        Seq::empty()
    } else {
        inline_iface_types_text(r, p, 0) + inline_types_text(r, p + 1)
    }
}

/// The inlined type definitions of one package's interfaces, from `i` on.
pub open spec fn inline_iface_types_text(r: ResolvedView, p: int, i: int) -> Seq<char>
    decreases r.packages[p].interfaces.len() - i,
{
    if p < 0 || p >= r.packages.len() || i < 0 || i >= r.packages[p].interfaces.len() {
        Seq::empty()
    } else {
        typedefs_text(r, PrintMode::LocalNames, r.packages[p].interfaces[i].types)
            + inline_iface_types_text(r, p, i + 1)
    }
}

/// The regenerated interface description of the stub world. With inlining,
/// the source model's type definitions stand inside the stub interface and
/// signatures use bare names; without, signatures are package-qualified and
/// resolve against the dependency files emitted beside this one.
pub open spec fn stub_wit_content(
    r: ResolvedView,
    sw: StubWorldView,
    cfg: GenConfigView,
) -> Seq<char> {
    let pkg = r.packages[r.root].name;
    let m = sig_mode(cfg);
    "package "@ + pkg.namespace + ":"@ + pkg.name + "-stub@"@ + cfg.stub_crate_version + "\n"@
        + "interface "@ + sw.interface_name + "\n"@ + (if cfg.inline_types {
        inline_types_text(r, 0)
    } else {
        Seq::empty()
    }) + funcs_text(r, m, sw.functions) + "end\n"@ + "world "@ + sw.source_world + "-stub\n"@
        + "export "@ + sw.interface_name + "\n"@ + "end\n"@
}

/// How the stub's signatures spell named types, per configuration.
pub open spec fn sig_mode(cfg: GenConfigView) -> PrintMode {
    if cfg.inline_types {
        PrintMode::LocalNames
    } else {
        PrintMode::Qualified
    }
}

/// One dispatch arm of the generated marshaling source: encode the
/// arguments, invoke the remote target, decode the response.
pub open spec fn match_arm(f: StubFunctionView) -> Seq<char> {
    "        \""@ + f.name + "\" => decode(connection.invoke_and_await(\""@ + f.target
        + "\", encode(args))),\n"@
}

/// Every dispatch arm, in order.
pub open spec fn arms_text(fs: Seq<StubFunctionView>) -> Seq<char>
    decreases fs.len(),
{
    if fs.len() == 0 {
        Seq::empty()
    } else {
        arms_text(fs.drop_last()) + match_arm(fs.last())
    }
}

/// The generated marshaling source for the stub world.
pub open spec fn rust_content(sw: StubWorldView) -> Seq<char> {
    "use wasm_rpc::WasmRpc;\n\npub fn invoke(function: &str, args: Vec<wasm_rpc::Value>) -> Result<wasm_rpc::Value, wasm_rpc::RpcError> {\n    let connection = WasmRpc::connect();\n    match function {\n"@
        + arms_text(sw.functions)
        + "        _ => Err(wasm_rpc::RpcError::UnknownFunction(function.to_string())),\n    }\n}\n"@
}

/// The dependency line naming the chosen transport library: a local path
/// override wins, then a pinned version, then the latest published version.
pub open spec fn dep_line(cfg: GenConfigView) -> Seq<char> {
    match cfg.wasm_rpc_path_override {
        Some(p) => "wasm-rpc = { path = \""@ + p + "\" }\n"@,
        None => match cfg.wasm_rpc_version_override {
            Some(v) => "wasm-rpc = \""@ + v + "\"\n"@,
            None => "wasm-rpc = \"*\"\n"@,
        },
    }
}

/// The generated project's build manifest.
pub open spec fn cargo_content(r: ResolvedView, cfg: GenConfigView) -> Seq<char> {
    let pkg = r.packages[r.root].name;
    "[package]\nname = \""@ + pkg.name + "-stub\"\nversion = \""@ + cfg.stub_crate_version
        + "\"\nedition = \"2021\"\n\n[dependencies]\n"@ + dep_line(cfg)
}

/// Where the emitted copy of one source package lives inside the stub root.
pub open spec fn dep_path(r: ResolvedView, p: int) -> Seq<char> {
    "wit/deps/"@ + r.packages[p].name.namespace + "-"@ + r.packages[p].name.name + ".wit"@
}

/// The emitted copy of one source package: its identity and its interfaces
/// with their types and functions. Worlds belong to the root, not to a
/// dependency, and are not carried.
pub open spec fn dep_content(r: ResolvedView, p: int) -> Seq<char> {
    "package "@ + r.packages[p].name.namespace + ":"@ + r.packages[p].name.name + (
    match r.packages[p].name.version {
        Some(v) => "@"@ + v,
        None => Seq::empty(),
    }) + "\n"@ + dep_ifaces_text(r, p, 0)
}

/// The interface blocks of one emitted dependency package, from `i` on.
pub open spec fn dep_ifaces_text(r: ResolvedView, p: int, i: int) -> Seq<char>
    decreases r.packages[p].interfaces.len() - i,
{
    if p < 0 || p >= r.packages.len() || i < 0 || i >= r.packages[p].interfaces.len() {
        Seq::empty()
    } else {
        let ifc = r.packages[p].interfaces[i];
        let m = PrintMode::Home { pkg: p as usize, iface: i as usize };
        "interface "@ + ifc.name + "\n"@ + typedefs_text(r, m, ifc.types) + src_funcs_text(
            r,
            m,
            ifc.funcs,
        ) + "end\n"@ + dep_ifaces_text(r, p, i + 1)
    }
}

/// The emitted dependency files, one per source package, from `p` on.
pub open spec fn dep_files(r: ResolvedView, p: int) -> Seq<FileEntryView>
    decreases r.packages.len() - p,
{
    if p < 0 || p >= r.packages.len() {
        Seq::empty()
    } else {
        seq![FileEntryView { path: dep_path(r, p), content: dep_content(r, p) }] + dep_files(
            r,
            p + 1,
        )
    }
}

/// Every file generation emits, in order: the regenerated interface
/// description of the stub, the marshaling source, the build manifest, and,
/// unless the source types were inlined, one dependency file per source
/// package.
pub open spec fn gen_files(r: ResolvedView, sw: StubWorldView, cfg: GenConfigView) -> Seq<
    FileEntryView,
> {
    seq![
        FileEntryView { path: "wit/_stub.wit"@, content: stub_wit_content(r, sw, cfg) },
        FileEntryView { path: "src/lib.rs"@, content: rust_content(sw) },
        FileEntryView { path: "Cargo.toml"@, content: cargo_content(r, cfg) },
    ] + (if cfg.inline_types {
        Seq::empty()
    } else {
        dep_files(r, 0)
    })
}

/// The canonical text of one type use, as `print_ty` spells it.
fn print_ty_exec(r: &Resolved, m: PrintMode, t: TypeRef) -> (out: String)
    requires
        resolved_wf(r.deep_view()),
        type_ref_wf(r.deep_view(), t),
    ensures
        out@ == print_ty(r.deep_view(), m, t),
{
    match t {
        TypeRef::Prim(p) => {
            let s = match p {
                Prim::Bool => "bool",
                Prim::U8 => "u8",
                Prim::U16 => "u16",
                Prim::U32 => "u32",
                Prim::U64 => "u64",
                Prim::S8 => "s8",
                Prim::S16 => "s16",
                Prim::S32 => "s32",
                Prim::S64 => "s64",
                Prim::Float32 => "f32",
                Prim::Float64 => "f64",
                Prim::CharPrim => "char",
                Prim::StringPrim => "string",
            };
            s.to_owned()
        },
        TypeRef::Named(id) => named_text_exec(r, m, id),
        TypeRef::Handle(id) => {
            let mut s = String::from_str("handle<");
            let inner = named_text_exec(r, m, id);
            s.append(inner.as_str());
            s.append(">");
            proof {
                assert(s@ =~= print_ty(r.deep_view(), m, t));
            }
            s
        },
    }
}

/// The name of one defined type, as `named_text` spells it.
fn named_text_exec(r: &Resolved, m: PrintMode, id: crate::wit_resolve::TypeId) -> (out: String)
    requires
        resolved_wf(r.deep_view()),
        crate::wit_resolve::type_id_wf(r.deep_view(), id),
    ensures
        out@ == named_text(r.deep_view(), m, id),
{
    let ghost rv = r.deep_view();
    let local = match m {
        PrintMode::LocalNames => true,
        PrintMode::Qualified => false,
        PrintMode::Home { pkg, iface } => id.pkg == pkg && id.iface == iface,
    };
    let pkg = &r.packages[id.pkg];
    let iface = &pkg.interfaces[id.iface];
    proof {
        assert(pkg.deep_view() == rv.packages[id.pkg as int]);
        assert(iface.deep_view() == rv.packages[id.pkg as int].interfaces[id.iface as int]);
        assert(iface.types@[id.idx as int].deep_view() == type_at(rv, id));
    }
    if local {
        iface.types[id.idx].name.clone()
    } else {
        let mut s = pkg.name.namespace.clone();
        s.append(":");
        s.append(pkg.name.name.as_str());
        s.append("/");
        s.append(iface.name.as_str());
        s.append(".");
        s.append(iface.types[id.idx].name.as_str());
        proof {
            assert(s@ =~= qualified_ty(rv, id));
        }
        s
    }
}

/// Appends one ` name:type` parameter list, as `params_text` spells it.
fn append_params(r: &Resolved, m: PrintMode, ps: &Vec<Param>, s: &mut String)
    requires
        resolved_wf(r.deep_view()),
        forall|k: int|
            0 <= k < ps.deep_view().len() ==> type_ref_wf(
                r.deep_view(),
                (#[trigger] ps.deep_view()[k]).ty,
            ),
    ensures
        final(s)@ == old(s)@ + params_text(r.deep_view(), m, ps.deep_view()),
{
    let ghost rv = r.deep_view();
    let ghost base = s@;
    let ghost pv = ps.deep_view();
    let mut i: usize = 0;
    while i < ps.len()
        invariant
            i <= ps.len(),
            rv == r.deep_view(),
            resolved_wf(rv),
            pv == ps.deep_view(),
            forall|k: int| 0 <= k < pv.len() ==> type_ref_wf(rv, (#[trigger] pv[k]).ty),
            s@ == base + params_text(rv, m, pv.take(i as int)),
        decreases ps.len() - i,
    {
        proof {
            assert(type_ref_wf(rv, pv[i as int].ty));
            assert(pv[i as int].ty == ps@[i as int].ty);
        }
        let ty = print_ty_exec(r, m, ps[i].ty);
        s.append(" ");
        s.append(ps[i].name.as_str());
        s.append(":");
        s.append(ty.as_str());
        proof {
            assert(pv.take(i as int + 1).drop_last() =~= pv.take(i as int));
            assert(pv.take(i as int + 1).last() == pv[i as int]);
            assert(s@ =~= base + params_text(rv, m, pv.take(i as int + 1)));
        }
        i += 1;
    }
    proof {
        assert(pv.take(ps.len() as int) =~= pv);
    }
}

/// Appends a result declaration, as `results_text` spells it.
fn append_results(r: &Resolved, m: PrintMode, res: &FuncResults, s: &mut String)
    requires
        resolved_wf(r.deep_view()),
        match res.deep_view() {
            FuncResultsView::NoResult => true,
            FuncResultsView::Single(t) => type_ref_wf(r.deep_view(), t),
            FuncResultsView::NamedResults(ps) => forall|k: int|
                0 <= k < ps.len() ==> type_ref_wf(r.deep_view(), (#[trigger] ps[k]).ty),
        },
    ensures
        final(s)@ == old(s)@ + results_text(r.deep_view(), m, res.deep_view()),
{
    let ghost rv = r.deep_view();
    match res {
        FuncResults::NoResult => {
            proof {
                assert(s@ =~= s@ + results_text(rv, m, res.deep_view()));
            }
        },
        FuncResults::Single(t) => {
            let ty = print_ty_exec(r, m, *t);
            s.append(" -> ");
            s.append(ty.as_str());
            proof {
                assert(s@ =~= old(s)@ + results_text(rv, m, res.deep_view()));
            }
        },
        FuncResults::NamedResults(ps) => {
            s.append(" ->");
            proof {
                assert forall|k: int| 0 <= k < ps.deep_view().len() implies type_ref_wf(
                    rv,
                    (#[trigger] ps.deep_view()[k]).ty,
                ) by {
                    assert(res.deep_view() matches FuncResultsView::NamedResults(q) && q
                        == ps.deep_view());
                }
            }
            append_params(r, m, ps, s);
            proof {
                assert(s@ =~= old(s)@ + results_text(rv, m, res.deep_view()));
            }
        },
    }
}

/// The interface-description line of one stub function, as `func_line`
/// spells it.
fn func_line_exec(r: &Resolved, m: PrintMode, f: &StubFunction) -> (out: String)
    requires
        resolved_wf(r.deep_view()),
        stub_fn_wf(r.deep_view(), f.deep_view()),
    ensures
        out@ == func_line(r.deep_view(), m, f.deep_view()),
{
    let ghost rv = r.deep_view();
    let mut s = String::from_str("func ");
    s.append(f.name.as_str());
    append_params(r, m, &f.params, &mut s);
    append_results(r, m, &f.results, &mut s);
    s.append("\n");
    proof {
        assert(s@ =~= func_line(rv, m, f.deep_view()));
    }
    s
}

/// The interface-description line of one source function, as `src_func_line`
/// spells it.
fn src_func_line_exec(r: &Resolved, m: PrintMode, f: &Function) -> (out: String)
    requires
        resolved_wf(r.deep_view()),
        func_wf(r.deep_view(), f.deep_view()),
    ensures
        out@ == src_func_line(r.deep_view(), m, f.deep_view()),
{
    let ghost rv = r.deep_view();
    let mut s = String::from_str("func ");
    s.append(f.name.as_str());
    append_params(r, m, &f.params, &mut s);
    append_results(r, m, &f.results, &mut s);
    s.append("\n");
    proof {
        assert(s@ =~= src_func_line(rv, m, f.deep_view()));
    }
    s
}

/// The interface-description line of one type, as `typedef_line` spells it.
fn typedef_line_exec(r: &Resolved, m: PrintMode, td: &TypeDef) -> (out: String)
    requires
        resolved_wf(r.deep_view()),
        shape_wf(r.deep_view(), td.deep_view().shape),
    ensures
        out@ == typedef_line(r.deep_view(), m, td.deep_view()),
{
    let ghost rv = r.deep_view();
    let ghost sv = td.deep_view().shape;
    match &td.shape {
        TypeShape::Record(fs) => {
            let mut s = String::from_str("record ");
            s.append(td.name.as_str());
            let ghost base = s@;
            let ghost fv = fs.deep_view();
            let mut i: usize = 0;
            while i < fs.len()
                invariant
                    i <= fs.len(),
                    rv == r.deep_view(),
                    resolved_wf(rv),
                    fv == fs.deep_view(),
                    sv == TypeShapeView::Record(fv),
                    shape_wf(rv, sv),
                    s@ == base + fields_text(rv, m, fv.take(i as int)),
                decreases fs.len() - i,
            {
                proof {
                    assert(shape_refs(sv)[i as int] == fv[i as int].ty);
                    assert(type_ref_wf(rv, fv[i as int].ty));
                    assert(fv[i as int].ty == fs@[i as int].ty);
                }
                let ty = print_ty_exec(r, m, fs[i].ty);
                s.append(" ");
                s.append(fs[i].name.as_str());
                s.append(":");
                s.append(ty.as_str());
                proof {
                    assert(fv.take(i as int + 1).drop_last() =~= fv.take(i as int));
                    assert(fv.take(i as int + 1).last() == fv[i as int]);
                    assert(s@ =~= base + fields_text(rv, m, fv.take(i as int + 1)));
                }
                i += 1;
            }
            s.append("\n");
            proof {
                assert(fv.take(fs.len() as int) =~= fv);
                assert(s@ =~= typedef_line(rv, m, td.deep_view()));
            }
            s
        },
        TypeShape::Variant(cs) => {
            let mut s = String::from_str("variant ");
            s.append(td.name.as_str());
            let ghost base = s@;
            let ghost cv = cs.deep_view();
            let mut i: usize = 0;
            while i < cs.len()
                invariant
                    i <= cs.len(),
                    rv == r.deep_view(),
                    resolved_wf(rv),
                    cv == cs.deep_view(),
                    sv == TypeShapeView::Variant(cv),
                    shape_wf(rv, sv),
                    s@ == base + cases_text(rv, m, cv.take(i as int)),
                decreases cs.len() - i,
            {
                s.append(" ");
                s.append(cs[i].name.as_str());
                match &cs[i].ty {
                    Some(t) => {
                        proof {
                            assert(cv[i as int].ty == Some(*t));
                            assert(crate::wit_resolve::case_ty_fn()(cv[i as int]) == Some(*t));
                            crate::seqs::lemma_filter_map_at(
                                cv,
                                crate::wit_resolve::case_ty_fn(),
                                i as int,
                            );
                            let refs = shape_refs(sv);
                            let k = choose|k: int| 0 <= k < refs.len() && refs[k] == *t;
                            assert(type_ref_wf(rv, refs[k]));
                        }
                        let ty = print_ty_exec(r, m, *t);
                        s.append(":");
                        s.append(ty.as_str());
                    },
                    None => {},
                }
                proof {
                    assert(cv.take(i as int + 1).drop_last() =~= cv.take(i as int));
                    assert(cv.take(i as int + 1).last() == cv[i as int]);
                    assert(s@ =~= base + cases_text(rv, m, cv.take(i as int + 1)));
                }
                i += 1;
            }
            s.append("\n");
            proof {
                assert(cv.take(cs.len() as int) =~= cv);
                assert(s@ =~= typedef_line(rv, m, td.deep_view()));
            }
            s
        },
        TypeShape::EnumShape(ts) => {
            let mut s = String::from_str("enum ");
            s.append(td.name.as_str());
            append_tags(ts, &mut s);
            s.append("\n");
            proof {
                assert(s@ =~= typedef_line(rv, m, td.deep_view()));
            }
            s
        },
        TypeShape::FlagsShape(ts) => {
            let mut s = String::from_str("flags ");
            s.append(td.name.as_str());
            append_tags(ts, &mut s);
            s.append("\n");
            proof {
                assert(s@ =~= typedef_line(rv, m, td.deep_view()));
            }
            s
        },
        TypeShape::Resource => {
            let mut s = String::from_str("resource ");
            s.append(td.name.as_str());
            s.append("\n");
            proof {
                assert(s@ =~= typedef_line(rv, m, td.deep_view()));
            }
            s
        },
        TypeShape::ListOf(t) => {
            proof {
                assert(shape_refs(sv)[0] == *t);
                assert(type_ref_wf(rv, *t));
            }
            let ty = print_ty_exec(r, m, *t);
            let mut s = String::from_str("type ");
            s.append(td.name.as_str());
            s.append(" list<");
            s.append(ty.as_str());
            s.append(">\n");
            proof {
                assert(s@ =~= typedef_line(rv, m, td.deep_view()));
            }
            s
        },
        TypeShape::OptionOf(t) => {
            proof {
                assert(shape_refs(sv)[0] == *t);
                assert(type_ref_wf(rv, *t));
            }
            let ty = print_ty_exec(r, m, *t);
            let mut s = String::from_str("type ");
            s.append(td.name.as_str());
            s.append(" option<");
            s.append(ty.as_str());
            s.append(">\n");
            proof {
                assert(s@ =~= typedef_line(rv, m, td.deep_view()));
            }
            s
        },
        TypeShape::ResultOf(o, e) => {
            let mut s = String::from_str("type ");
            s.append(td.name.as_str());
            s.append(" result<");
            match o {
                Some(t) => {
                    proof {
                        assert(shape_refs(sv)[0] == *t);
                        assert(type_ref_wf(rv, *t));
                    }
                    let ty = print_ty_exec(r, m, *t);
                    s.append(ty.as_str());
                },
                None => {
                    s.append("_");
                },
            }
            s.append(",");
            match e {
                Some(t) => {
                    proof {
                        match o {
                            Some(ot) => {
                                assert(shape_refs(sv)[1] == *t);
                            },
                            None => {
                                assert(shape_refs(sv)[0] == *t);
                            },
                        }
                        assert(type_ref_wf(rv, *t));
                    }
                    let ty = print_ty_exec(r, m, *t);
                    s.append(ty.as_str());
                },
                None => {
                    s.append("_");
                },
            }
            s.append(">\n");
            proof {
                assert(s@ =~= typedef_line(rv, m, td.deep_view()));
            }
            s
        },
        TypeShape::TupleOf(ts) => {
            let mut s = String::from_str("type ");
            s.append(td.name.as_str());
            s.append(" tuple<");
            let ghost base = s@;
            let ghost tv = ts.deep_view();
            proof {
                assert(tv =~= ts@);
                assert(shape_refs(sv) =~= tv);
            }
            let mut i: usize = 0;
            while i < ts.len()
                invariant
                    i <= ts.len(),
                    rv == r.deep_view(),
                    resolved_wf(rv),
                    tv == ts@,
                    shape_refs(sv) == tv,
                    shape_wf(rv, sv),
                    s@ == base + refs_csv(rv, m, tv.take(i as int)),
                decreases ts.len() - i,
            {
                proof {
                    assert(type_ref_wf(rv, tv[i as int]));
                }
                let ty = print_ty_exec(r, m, ts[i]);
                if i > 0 {
                    s.append(",");
                }
                s.append(ty.as_str());
                proof {
                    assert(tv.take(i as int + 1).drop_last() =~= tv.take(i as int));
                    assert(tv.take(i as int + 1).last() == tv[i as int]);
                    assert(s@ =~= base + refs_csv(rv, m, tv.take(i as int + 1)));
                }
                i += 1;
            }
            s.append(">\n");
            proof {
                assert(tv.take(ts.len() as int) =~= tv);
                assert(s@ =~= typedef_line(rv, m, td.deep_view()));
            }
            s
        },
    }
}

/// Appends an enum or flags tag list, as `tags_text` spells it.
fn append_tags(ts: &Vec<String>, s: &mut String)
    ensures
        final(s)@ == old(s)@ + tags_text(ts.deep_view()),
{
    let ghost base = s@;
    let ghost tv = ts.deep_view();
    let mut i: usize = 0;
    while i < ts.len()
        invariant
            i <= ts.len(),
            tv == ts.deep_view(),
            s@ == base + tags_text(tv.take(i as int)),
        decreases ts.len() - i,
    {
        s.append(" ");
        s.append(ts[i].as_str());
        proof {
            assert(tv.take(i as int + 1).drop_last() =~= tv.take(i as int));
            assert(tv.take(i as int + 1).last() == tv[i as int]);
            assert(s@ =~= base + tags_text(tv.take(i as int + 1)));
        }
        i += 1;
    }
    proof {
        assert(tv.take(ts.len() as int) =~= tv);
    }
}

/// Appends the type lines of one interface, as `typedefs_text` spells them.
fn append_typedefs(r: &Resolved, m: PrintMode, ifc: &Interface, s: &mut String)
    requires
        resolved_wf(r.deep_view()),
        forall|t: int|
            0 <= t < ifc.deep_view().types.len() ==> shape_wf(
                r.deep_view(),
                (#[trigger] ifc.deep_view().types[t]).shape,
            ),
    ensures
        final(s)@ == old(s)@ + typedefs_text(r.deep_view(), m, ifc.deep_view().types),
{
    let ghost rv = r.deep_view();
    let ghost base = s@;
    let ghost tds = ifc.deep_view().types;
    let mut i: usize = 0;
    while i < ifc.types.len()
        invariant
            i <= ifc.types.len(),
            rv == r.deep_view(),
            resolved_wf(rv),
            tds == ifc.deep_view().types,
            forall|t: int| 0 <= t < tds.len() ==> shape_wf(rv, (#[trigger] tds[t]).shape),
            s@ == base + typedefs_text(rv, m, tds.take(i as int)),
        decreases ifc.types.len() - i,
    {
        proof {
            assert(ifc.types@[i as int].deep_view() == tds[i as int]);
            assert(shape_wf(rv, tds[i as int].shape));
        }
        let line = typedef_line_exec(r, m, &ifc.types[i]);
        s.append(line.as_str());
        proof {
            assert(tds.take(i as int + 1).drop_last() =~= tds.take(i as int));
            assert(tds.take(i as int + 1).last() == tds[i as int]);
            assert(s@ =~= base + typedefs_text(rv, m, tds.take(i as int + 1)));
        }
        i += 1;
    }
    proof {
        assert(tds.take(ifc.types.len() as int) =~= tds);
    }
}

/// One dispatch arm of the marshaling source, as `match_arm` spells it.
fn match_arm_exec(f: &StubFunction) -> (out: String)
    ensures
        out@ == match_arm(f.deep_view()),
{
    let mut s = String::from_str("        \"");
    s.append(f.name.as_str());
    s.append("\" => decode(connection.invoke_and_await(\"");
    s.append(f.target.as_str());
    s.append("\", encode(args))),\n");
    proof {
        assert(s@ =~= match_arm(f.deep_view()));
    }
    s
}

/// Emits the generated source project for a stub world: the regenerated
/// interface description, the marshaling source, the build manifest and, in
/// the depending configuration, one dependency file per source package; a
/// pure function of its inputs.
pub fn generate_project(r: &Resolved, sw: &StubWorld, cfg: &StubConfig) -> (out: Vec<FileEntry>)
    requires
        resolved_wf(r.deep_view()),
        stub_world_wf(r.deep_view(), sw.deep_view()),
    ensures
        out.deep_view() == gen_files(r.deep_view(), sw.deep_view(), gen_config_view(cfg)),
{
    let ghost rv = r.deep_view();
    let ghost swv = sw.deep_view();
    let ghost cv = gen_config_view(cfg);
    proof {
        assert(r.packages.deep_view()[rv.root] == r.packages@[r.root as int].deep_view());
    }
    let pkg_name = &r.packages[r.root].name;
    let mode = if cfg.always_inline_types {
        PrintMode::LocalNames
    } else {
        PrintMode::Qualified
    };

    let mut wit = String::from_str("package ");
    wit.append(pkg_name.namespace.as_str());
    wit.append(":");
    wit.append(pkg_name.name.as_str());
    wit.append("-stub@");
    wit.append(cfg.stub_crate_version.as_str());
    wit.append("\n");
    wit.append("interface ");
    wit.append(sw.interface_name.as_str());
    wit.append("\n");
    if cfg.always_inline_types {
        append_inline_types(r, &mut wit);
    }
    proof {
        assert(wit@ =~= "package "@ + rv.packages[rv.root].name.namespace + ":"@ + rv.packages[
            rv.root
        ].name.name + "-stub@"@ + cv.stub_crate_version + "\n"@ + "interface "@
            + swv.interface_name + "\n"@ + (if cv.inline_types {
            inline_types_text(rv, 0)
        } else {
            Seq::empty()
        }));
    }
    let ghost wit_head = wit@;
    let mut i: usize = 0;
    while i < sw.functions.len()
        invariant
            i <= sw.functions.len(),
            rv == r.deep_view(),
            swv == sw.deep_view(),
            resolved_wf(rv),
            stub_world_wf(rv, swv),
            mode == sig_mode(cv),
            wit@ == wit_head + funcs_text(rv, mode, swv.functions.take(i as int)),
        decreases sw.functions.len() - i,
    {
        proof {
            assert(stub_fn_wf(rv, swv.functions[i as int]));
            assert(sw.functions@[i as int].deep_view() == swv.functions[i as int]);
        }
        let line = func_line_exec(r, mode, &sw.functions[i]);
        wit.append(line.as_str());
        proof {
            assert(swv.functions.take(i as int + 1).drop_last() =~= swv.functions.take(i as int));
            assert(swv.functions.take(i as int + 1).last() == swv.functions[i as int]);
            assert(wit@ =~= wit_head + funcs_text(rv, mode, swv.functions.take(i as int + 1)));
        }
        i += 1;
    }
    proof {
        assert(swv.functions.take(sw.functions.len() as int) =~= swv.functions);
    }
    wit.append("end\n");
    wit.append("world ");
    wit.append(sw.source_world.as_str());
    wit.append("-stub\n");
    wit.append("export ");
    wit.append(sw.interface_name.as_str());
    wit.append("\n");
    wit.append("end\n");
    proof {
        assert(wit@ =~= stub_wit_content(rv, swv, cv));
    }

    let mut src = String::from_str(
        "use wasm_rpc::WasmRpc;\n\npub fn invoke(function: &str, args: Vec<wasm_rpc::Value>) -> Result<wasm_rpc::Value, wasm_rpc::RpcError> {\n    let connection = WasmRpc::connect();\n    match function {\n",
    );
    let ghost src_head = src@;
    let mut j: usize = 0;
    while j < sw.functions.len()
        invariant
            j <= sw.functions.len(),
            swv == sw.deep_view(),
            src@ == src_head + arms_text(swv.functions.take(j as int)),
        decreases sw.functions.len() - j,
    {
        proof {
            assert(sw.functions@[j as int].deep_view() == swv.functions[j as int]);
        }
        let arm = match_arm_exec(&sw.functions[j]);
        src.append(arm.as_str());
        proof {
            assert(swv.functions.take(j as int + 1).drop_last() =~= swv.functions.take(j as int));
            assert(swv.functions.take(j as int + 1).last() == swv.functions[j as int]);
            assert(src@ =~= src_head + arms_text(swv.functions.take(j as int + 1)));
        }
        j += 1;
    }
    proof {
        assert(swv.functions.take(sw.functions.len() as int) =~= swv.functions);
    }
    src.append(
        "        _ => Err(wasm_rpc::RpcError::UnknownFunction(function.to_string())),\n    }\n}\n",
    );
    proof {
        assert(src@ =~= rust_content(swv));
    }

    let mut manifest = String::from_str("[package]\nname = \"");
    manifest.append(pkg_name.name.as_str());
    manifest.append("-stub\"\nversion = \"");
    manifest.append(cfg.stub_crate_version.as_str());
    manifest.append("\"\nedition = \"2021\"\n\n[dependencies]\n");
    match &cfg.wasm_rpc_override.wasm_rpc_path_override {
        Some(p) => {
            manifest.append("wasm-rpc = { path = \"");
            manifest.append(p.as_str());
            manifest.append("\" }\n");
        },
        None => {
            match &cfg.wasm_rpc_override.wasm_rpc_version_override {
                Some(v) => {
                    manifest.append("wasm-rpc = \"");
                    manifest.append(v.as_str());
                    manifest.append("\"\n");
                },
                None => {
                    manifest.append("wasm-rpc = \"*\"\n");
                },
            }
        },
    }
    proof {
        assert(manifest@ =~= cargo_content(rv, cv));
    }

    let mut out: Vec<FileEntry> = Vec::new();
    crate::seqs::push_dv(&mut out, FileEntry { path: String::from_str("wit/_stub.wit"), content: wit });
    crate::seqs::push_dv(&mut out, FileEntry { path: String::from_str("src/lib.rs"), content: src });
    crate::seqs::push_dv(&mut out, FileEntry { path: String::from_str("Cargo.toml"), content: manifest });
    let ghost head3 = out.deep_view();
    proof {
        assert(head3 =~= gen_files(rv, swv, cv).take(3));
    }
    if !cfg.always_inline_types {
        proof {
            lemma_dep_files_index(rv, 0);
            assert(out.deep_view() =~= head3 + dep_files(rv, 0).take(0));
        }
        let mut p: usize = 0;
        while p < r.packages.len()
            invariant
                p <= r.packages.len(),
                rv == r.deep_view(),
                resolved_wf(rv),
                head3 == gen_files(rv, swv, cv).take(3),
                out.deep_view() == head3 + dep_files(rv, 0).take(p as int),
                dep_files(rv, 0).len() == rv.packages.len(),
            decreases r.packages.len() - p,
        {
            let entry = dep_file_exec(r, p);
            crate::seqs::push_dv(&mut out, entry);
            proof {
                lemma_dep_files_index(rv, 0);
                assert(dep_files(rv, 0)[p as int] == entry.deep_view());
                assert(out.deep_view() =~= head3 + dep_files(rv, 0).take(p as int + 1));
            }
            p += 1;
        }
        proof {
            assert(dep_files(rv, 0).take(rv.packages.len() as int) =~= dep_files(rv, 0));
            assert(out.deep_view() =~= gen_files(rv, swv, cv));
        }
    } else {
        proof {
            assert(out.deep_view() =~= gen_files(rv, swv, cv));
        }
    }
    out
}

/// The dependency file list indexes one file per package.
proof fn lemma_dep_files_index(r: ResolvedView, p: int)
    requires
        0 <= p <= r.packages.len(),
    ensures
        dep_files(r, p).len() == r.packages.len() - p,
        forall|k: int|
            p <= k < r.packages.len() ==> dep_files(r, p)[k - p] == (FileEntryView {
                path: dep_path(r, k),
                content: dep_content(r, k),
            }),
    decreases r.packages.len() - p,
{
    if p < r.packages.len() {
        lemma_dep_files_index(r, p + 1);
    }
}

/// Emits the copy of one source package, as `dep_content` spells it.
#[verifier::rlimit(60)]
fn dep_file_exec(r: &Resolved, p: usize) -> (out: FileEntry)
    requires
        resolved_wf(r.deep_view()),
        (p as int) < r.deep_view().packages.len(),
    ensures
        out.deep_view() == (FileEntryView {
            path: dep_path(r.deep_view(), p as int),
            content: dep_content(r.deep_view(), p as int),
        }),
{
    let ghost rv = r.deep_view();
    let pkg = &r.packages[p];
    proof {
        assert(pkg.deep_view() == rv.packages[p as int]);
    }
    let mut path = String::from_str("wit/deps/");
    path.append(pkg.name.namespace.as_str());
    path.append("-");
    path.append(pkg.name.name.as_str());
    path.append(".wit");
    proof {
        assert(path@ =~= dep_path(rv, p as int));
    }
    let mut content = String::from_str("package ");
    content.append(pkg.name.namespace.as_str());
    content.append(":");
    content.append(pkg.name.name.as_str());
    match &pkg.name.version {
        Some(v) => {
            content.append("@");
            content.append(v.as_str());
        },
        None => {},
    }
    content.append("\n");
    let ghost chead = content@;
    let mut i: usize = 0;
    while i < pkg.interfaces.len()
        invariant
            i <= pkg.interfaces.len(),
            rv == r.deep_view(),
            resolved_wf(rv),
            (p as int) < rv.packages.len(),
            pkg == &r.packages@[p as int],
            pkg.deep_view() == rv.packages[p as int],
            content@ + dep_ifaces_text(rv, p as int, i as int) == chead + dep_ifaces_text(
                rv,
                p as int,
                0,
            ),
        decreases pkg.interfaces.len() - i,
    {
        let ifc = &pkg.interfaces[i];
        proof {
            assert(ifc.deep_view() == rv.packages[p as int].interfaces[i as int]);
            assert forall|t: int| 0 <= t < ifc.deep_view().types.len() implies shape_wf(
                rv,
                (#[trigger] ifc.deep_view().types[t]).shape,
            ) by {
                assert(rv.packages[p as int].interfaces[i as int].types[t]
                    == ifc.deep_view().types[t]);
            }
        }
        content.append("interface ");
        content.append(ifc.name.as_str());
        content.append("\n");
        let m = PrintMode::Home { pkg: p, iface: i };
        append_typedefs(r, m, ifc, &mut content);
        let ghost fbase = content@;
        let ghost fs = ifc.deep_view().funcs;
        let mut g: usize = 0;
        while g < ifc.funcs.len()
            invariant
                g <= ifc.funcs.len(),
                rv == r.deep_view(),
                resolved_wf(rv),
                (p as int) < rv.packages.len(),
                i < pkg.interfaces@.len(),
                pkg == &r.packages@[p as int],
                ifc == &pkg.interfaces@[i as int],
                ifc.deep_view() == rv.packages[p as int].interfaces[i as int],
                m == (PrintMode::Home { pkg: p, iface: i }),
                fs == ifc.deep_view().funcs,
                content@ == fbase + src_funcs_text(rv, m, fs.take(g as int)),
            decreases ifc.funcs.len() - g,
        {
            proof {
                assert(ifc.funcs@[g as int].deep_view() == fs[g as int]);
                assert(func_wf(rv, fs[g as int]));
            }
            let line = src_func_line_exec(r, m, &ifc.funcs[g]);
            content.append(line.as_str());
            proof {
                assert(fs.take(g as int + 1).drop_last() =~= fs.take(g as int));
                assert(fs.take(g as int + 1).last() == fs[g as int]);
                assert(content@ =~= fbase + src_funcs_text(rv, m, fs.take(g as int + 1)));
            }
            g += 1;
        }
        content.append("end\n");
        proof {
            assert(fs.take(ifc.funcs.len() as int) =~= fs);
            assert(content@ + dep_ifaces_text(rv, p as int, i as int + 1) =~= chead
                + dep_ifaces_text(rv, p as int, 0));
        }
        i += 1;
    }
    let out = FileEntry { path, content };
    proof {
        assert(dep_ifaces_text(rv, p as int, pkg.interfaces@.len() as int) =~= Seq::<
            char,
        >::empty());
        assert(out.deep_view() =~= (FileEntryView {
            path: dep_path(rv, p as int),
            content: dep_content(rv, p as int),
        }));
    }
    out
}

/// Appends every type definition of the model, as `inline_types_text` spells
/// them.
fn append_inline_types(r: &Resolved, s: &mut String)
    requires
        resolved_wf(r.deep_view()),
    ensures
        final(s)@ == old(s)@ + inline_types_text(r.deep_view(), 0),
{
    let ghost rv = r.deep_view();
    let ghost base = s@;
    let mut p: usize = 0;
    while p < r.packages.len()
        invariant
            p <= r.packages.len(),
            rv == r.deep_view(),
            resolved_wf(rv),
            s@ + inline_types_text(rv, p as int) == base + inline_types_text(rv, 0),
        decreases r.packages.len() - p,
    {
        let pkg = &r.packages[p];
        proof {
            assert(pkg.deep_view() == rv.packages[p as int]);
        }
        let mut i: usize = 0;
        while i < pkg.interfaces.len()
            invariant
                i <= pkg.interfaces.len(),
                rv == r.deep_view(),
                resolved_wf(rv),
                (p as int) < rv.packages.len(),
                pkg == &r.packages@[p as int],
                pkg.deep_view() == rv.packages[p as int],
                s@ + inline_iface_types_text(rv, p as int, i as int) + inline_types_text(
                    rv,
                    p as int + 1,
                ) == base + inline_types_text(rv, 0),
            decreases pkg.interfaces.len() - i,
        {
            let ifc = &pkg.interfaces[i];
            proof {
                assert(ifc.deep_view() == rv.packages[p as int].interfaces[i as int]);
                assert forall|t: int| 0 <= t < ifc.deep_view().types.len() implies shape_wf(
                    rv,
                    (#[trigger] ifc.deep_view().types[t]).shape,
                ) by {
                    assert(rv.packages[p as int].interfaces[i as int].types[t]
                        == ifc.deep_view().types[t]);
                }
            }
            append_typedefs(r, PrintMode::LocalNames, ifc, s);
            i += 1;
        }
        proof {
            assert(inline_iface_types_text(rv, p as int, pkg.interfaces@.len() as int) =~= Seq::<
                char,
            >::empty());
        }
        p += 1;
    }
    proof {
        assert(inline_types_text(rv, r.packages@.len() as int) =~= Seq::<char>::empty());
    }
}

/// Determinism of generation: the emitted files are a function of the
/// resolved model, the stub world and the configuration alone, so two
/// generation runs from the same inputs agree byte for byte.
pub proof fn lemma_generation_deterministic(
    r: ResolvedView,
    sw: StubWorldView,
    cfg: GenConfigView,
    out1: Seq<FileEntryView>,
    out2: Seq<FileEntryView>,
)
    requires
        out1 == gen_files(r, sw, cfg),
        out2 == gen_files(r, sw, cfg),
    ensures
        out1 == out2,
{
}

} // verus!
