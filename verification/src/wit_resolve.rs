//! Resolved interface-description model: packages, worlds, interfaces,
//! functions and types, fully resolved into flat, index-addressed tables.
//! Type and interface references are indices into those tables, so the model
//! itself cannot be cyclic in ownership; cycles in the reference graph are
//! rejected separately during resolution.

use vstd::prelude::*;

verus! {

/// A package identity: namespace, name and optional version.
pub struct PackageName {
    pub namespace: String,
    pub name: String,
    pub version: Option<String>,
}

/// Mathematical image of a `PackageName`.
#[verifier::ext_equal]
pub ghost struct PackageNameView {
    pub namespace: Seq<char>,
    pub name: Seq<char>,
    pub version: Option<Seq<char>>,
}

impl DeepView for PackageName {
    type V = PackageNameView;

    open spec fn deep_view(&self) -> PackageNameView {
        PackageNameView {
            namespace: self.namespace@,
            name: self.name@,
            version: match &self.version {
                Some(v) => Some(v@),
                None => None,
            },
        }
    }
}

/// The primitive types of the interface-description type system.
#[derive(Clone, Copy, PartialEq, Eq, Structural, Debug)]
pub enum Prim {
    Bool,
    U8,
    U16,
    U32,
    U64,
    S8,
    S16,
    S32,
    S64,
    Float32,
    Float64,
    CharPrim,
    StringPrim,
}

/// The position of one type definition: package, interface and type index.
#[derive(Clone, Copy, PartialEq, Eq, Structural, Debug)]
pub struct TypeId {
    pub pkg: usize,
    pub iface: usize,
    pub idx: usize,
}

/// A use of a type: a primitive, a defined type, or the handle-forwarding
/// counterpart of a resource type that the stub synthesizer substitutes.
#[derive(Clone, Copy, PartialEq, Eq, Structural, Debug)]
pub enum TypeRef {
    Prim(Prim),
    Named(TypeId),
    Handle(TypeId),
}

impl DeepView for TypeRef {
    type V = TypeRef;

    open spec fn deep_view(&self) -> TypeRef {
        *self
    }
}

/// A named field of a record type.
pub struct Field {
    pub name: String,
    pub ty: TypeRef,
}

/// Mathematical image of a `Field`.
#[verifier::ext_equal]
pub ghost struct FieldView {
    pub name: Seq<char>,
    pub ty: TypeRef,
}

impl DeepView for Field {
    type V = FieldView;

    open spec fn deep_view(&self) -> FieldView {
        FieldView { name: self.name@, ty: self.ty }
    }
}

/// A named case of a variant type, optionally carrying a payload.
pub struct Case {
    pub name: String,
    pub ty: Option<TypeRef>,
}

/// Mathematical image of a `Case`.
#[verifier::ext_equal]
pub ghost struct CaseView {
    pub name: Seq<char>,
    pub ty: Option<TypeRef>,
}

impl DeepView for Case {
    type V = CaseView;

    open spec fn deep_view(&self) -> CaseView {
        CaseView { name: self.name@, ty: self.ty }
    }
}

/// The shape of one type definition. Constructed types (lists, options,
/// results, tuples) are definitions of their own, referenced by index, so
/// nesting is expressed by naming the inner type.
pub enum TypeShape {
    Record(Vec<Field>),
    Variant(Vec<Case>),
    EnumShape(Vec<String>),
    FlagsShape(Vec<String>),
    Resource,
    ListOf(TypeRef),
    OptionOf(TypeRef),
    ResultOf(Option<TypeRef>, Option<TypeRef>),
    TupleOf(Vec<TypeRef>),
}

/// Mathematical image of a `TypeShape`.
#[verifier::ext_equal]
pub ghost enum TypeShapeView {
    Record(Seq<FieldView>),
    Variant(Seq<CaseView>),
    EnumShape(Seq<Seq<char>>),
    FlagsShape(Seq<Seq<char>>),
    Resource,
    ListOf(TypeRef),
    OptionOf(TypeRef),
    ResultOf(Option<TypeRef>, Option<TypeRef>),
    TupleOf(Seq<TypeRef>),
}

impl DeepView for TypeShape {
    type V = TypeShapeView;

    open spec fn deep_view(&self) -> TypeShapeView {
        match self {
            TypeShape::Record(fields) => TypeShapeView::Record(fields.deep_view()),
            TypeShape::Variant(cases) => TypeShapeView::Variant(cases.deep_view()),
            TypeShape::EnumShape(tags) => TypeShapeView::EnumShape(tags.deep_view()),
            TypeShape::FlagsShape(flags) => TypeShapeView::FlagsShape(flags.deep_view()),
            TypeShape::Resource => TypeShapeView::Resource,
            TypeShape::ListOf(t) => TypeShapeView::ListOf(*t),
            TypeShape::OptionOf(t) => TypeShapeView::OptionOf(*t),
            TypeShape::ResultOf(o, e) => TypeShapeView::ResultOf(*o, *e),
            TypeShape::TupleOf(ts) => TypeShapeView::TupleOf(ts.deep_view()),
        }
    }
}

/// One named type definition.
pub struct TypeDef {
    pub name: String,
    pub shape: TypeShape,
}

/// Mathematical image of a `TypeDef`.
#[verifier::ext_equal]
pub ghost struct TypeDefView {
    pub name: Seq<char>,
    pub shape: TypeShapeView,
}

impl DeepView for TypeDef {
    type V = TypeDefView;

    open spec fn deep_view(&self) -> TypeDefView {
        TypeDefView { name: self.name@, shape: self.shape.deep_view() }
    }
}

/// A named parameter or named result of a function.
pub struct Param {
    pub name: String,
    pub ty: TypeRef,
}

/// Mathematical image of a `Param`.
#[verifier::ext_equal]
pub ghost struct ParamView {
    pub name: Seq<char>,
    pub ty: TypeRef,
}

impl DeepView for Param {
    type V = ParamView;

    open spec fn deep_view(&self) -> ParamView {
        ParamView { name: self.name@, ty: self.ty }
    }
}

/// A function's result: absent, a single anonymous type, or named results.
pub enum FuncResults {
    NoResult,
    Single(TypeRef),
    NamedResults(Vec<Param>),
}

/// Mathematical image of a `FuncResults`.
#[verifier::ext_equal]
pub ghost enum FuncResultsView {
    NoResult,
    Single(TypeRef),
    NamedResults(Seq<ParamView>),
}

impl DeepView for FuncResults {
    type V = FuncResultsView;

    open spec fn deep_view(&self) -> FuncResultsView {
        match self {
            FuncResults::NoResult => FuncResultsView::NoResult,
            FuncResults::Single(t) => FuncResultsView::Single(*t),
            FuncResults::NamedResults(ps) => FuncResultsView::NamedResults(ps.deep_view()),
        }
    }
}

/// One function signature.
pub struct Function {
    pub name: String,
    pub params: Vec<Param>,
    pub results: FuncResults,
}

/// Mathematical image of a `Function`.
#[verifier::ext_equal]
pub ghost struct FunctionView {
    pub name: Seq<char>,
    pub params: Seq<ParamView>,
    pub results: FuncResultsView,
}

impl DeepView for Function {
    type V = FunctionView;

    open spec fn deep_view(&self) -> FunctionView {
        FunctionView {
            name: self.name@,
            params: self.params.deep_view(),
            results: self.results.deep_view(),
        }
    }
}

/// One interface: a named set of type definitions and function signatures.
pub struct Interface {
    pub name: String,
    pub types: Vec<TypeDef>,
    pub funcs: Vec<Function>,
}

/// Mathematical image of an `Interface`.
#[verifier::ext_equal]
pub ghost struct InterfaceView {
    pub name: Seq<char>,
    pub types: Seq<TypeDefView>,
    pub funcs: Seq<FunctionView>,
}

impl DeepView for Interface {
    type V = InterfaceView;

    open spec fn deep_view(&self) -> InterfaceView {
        InterfaceView {
            name: self.name@,
            types: self.types.deep_view(),
            funcs: self.funcs.deep_view(),
        }
    }
}

/// The position of one interface: package and interface index.
#[derive(Clone, Copy, PartialEq, Eq, Structural, Debug)]
pub struct IfaceId {
    pub pkg: usize,
    pub iface: usize,
}

impl DeepView for IfaceId {
    type V = IfaceId;

    open spec fn deep_view(&self) -> IfaceId {
        *self
    }
}

/// One world: the imported and exported interfaces of one compiled unit.
pub struct World {
    pub name: String,
    pub imports: Vec<IfaceId>,
    pub exports: Vec<IfaceId>,
}

/// Mathematical image of a `World`.
#[verifier::ext_equal]
pub ghost struct WorldView {
    pub name: Seq<char>,
    pub imports: Seq<IfaceId>,
    pub exports: Seq<IfaceId>,
}

impl DeepView for World {
    type V = WorldView;

    open spec fn deep_view(&self) -> WorldView {
        WorldView {
            name: self.name@,
            imports: self.imports.deep_view(),
            exports: self.exports.deep_view(),
        }
    }
}

/// One package: identity plus its interfaces and worlds.
pub struct Package {
    pub name: PackageName,
    pub interfaces: Vec<Interface>,
    pub worlds: Vec<World>,
}

/// Mathematical image of a `Package`.
#[verifier::ext_equal]
pub ghost struct PackageView {
    pub name: PackageNameView,
    pub interfaces: Seq<InterfaceView>,
    pub worlds: Seq<WorldView>,
}

impl DeepView for Package {
    type V = PackageView;

    open spec fn deep_view(&self) -> PackageView {
        PackageView {
            name: self.name.deep_view(),
            interfaces: self.interfaces.deep_view(),
            worlds: self.worlds.deep_view(),
        }
    }
}

/// A fully resolved interface-description root: the transitive closure of
/// packages, with the root package the pipeline run works on.
pub struct Resolved {
    pub packages: Vec<Package>,
    pub root: usize,
}

/// Mathematical image of a `Resolved`.
#[verifier::ext_equal]
pub ghost struct ResolvedView {
    pub packages: Seq<PackageView>,
    pub root: int,
}

impl DeepView for Resolved {
    type V = ResolvedView;

    open spec fn deep_view(&self) -> ResolvedView {
        ResolvedView { packages: self.packages.deep_view(), root: self.root as int }
    }
}

/// Whether a type position exists in the model.
pub open spec fn type_id_wf(r: ResolvedView, t: TypeId) -> bool {
    &&& (t.pkg as int) < r.packages.len()
    &&& (t.iface as int) < r.packages[t.pkg as int].interfaces.len()
    &&& (t.idx as int) < r.packages[t.pkg as int].interfaces[t.iface as int].types.len()
}

/// Whether an interface position exists in the model.
pub open spec fn iface_id_wf(r: ResolvedView, t: IfaceId) -> bool {
    &&& (t.pkg as int) < r.packages.len()
    &&& (t.iface as int) < r.packages[t.pkg as int].interfaces.len()
}

/// The type definition a position denotes.
pub open spec fn type_at(r: ResolvedView, t: TypeId) -> TypeDefView {
    r.packages[t.pkg as int].interfaces[t.iface as int].types[t.idx as int]
}

/// The interface a position denotes.
pub open spec fn iface_at(r: ResolvedView, t: IfaceId) -> InterfaceView {
    r.packages[t.pkg as int].interfaces[t.iface as int]
}

/// Whether a type use only mentions positions that exist.
pub open spec fn type_ref_wf(r: ResolvedView, t: TypeRef) -> bool {
    match t {
        TypeRef::Prim(_) => true,
        TypeRef::Named(id) => type_id_wf(r, id),
        TypeRef::Handle(id) => type_id_wf(r, id),
    }
}

/// The type a field carries.
pub open spec fn field_ty_fn() -> spec_fn(FieldView) -> TypeRef {
    |f: FieldView| f.ty
}

/// The payload type a variant case carries, if any.
pub open spec fn case_ty_fn() -> spec_fn(CaseView) -> Option<TypeRef> {
    |c: CaseView| c.ty
}

/// The type positions a shape refers to, in order of appearance.
pub open spec fn shape_refs(shape: TypeShapeView) -> Seq<TypeRef> {
    match shape {
        TypeShapeView::Record(fields) => fields.map_values(field_ty_fn()),
        TypeShapeView::Variant(cases) => cases.filter_map(case_ty_fn()),
        TypeShapeView::EnumShape(_) => Seq::empty(),
        TypeShapeView::FlagsShape(_) => Seq::empty(),
        TypeShapeView::Resource => Seq::empty(),
        TypeShapeView::ListOf(t) => seq![t],
        TypeShapeView::OptionOf(t) => seq![t],
        TypeShapeView::ResultOf(o, e) => {
            let os = match o {
                Some(t) => seq![t],
                None => Seq::empty(),
            };
            let es = match e {
                Some(t) => seq![t],
                None => Seq::empty(),
            };
            os + es
        },
        TypeShapeView::TupleOf(ts) => ts,
    }
}

/// Whether every reference inside every definition of the model points at an
/// existing position.
pub open spec fn resolved_wf(r: ResolvedView) -> bool {
    &&& 0 <= r.root < r.packages.len()
    &&& forall|p: int, i: int, t: int|
        0 <= p < r.packages.len() && 0 <= i < r.packages[p].interfaces.len() && 0 <= t
            < r.packages[p].interfaces[i].types.len() ==> shape_wf(
            r,
            (#[trigger] r.packages[p].interfaces[i].types[t]).shape,
        )
    &&& forall|p: int, i: int, f: int|
        0 <= p < r.packages.len() && 0 <= i < r.packages[p].interfaces.len() && 0 <= f
            < r.packages[p].interfaces[i].funcs.len() ==> func_wf(
            r,
            #[trigger] r.packages[p].interfaces[i].funcs[f],
        )
    &&& forall|p: int, w: int|
        0 <= p < r.packages.len() && 0 <= w < r.packages[p].worlds.len() ==> world_wf(
            r,
            #[trigger] r.packages[p].worlds[w],
        )
}

/// Whether every reference of a shape points at an existing position.
pub open spec fn shape_wf(r: ResolvedView, shape: TypeShapeView) -> bool {
    forall|k: int|
        0 <= k < shape_refs(shape).len() ==> type_ref_wf(r, #[trigger] shape_refs(shape)[k])
}

/// Whether a function's parameter and result types point at existing
/// positions.
pub open spec fn func_wf(r: ResolvedView, f: FunctionView) -> bool {
    &&& forall|k: int| 0 <= k < f.params.len() ==> type_ref_wf(r, (#[trigger] f.params[k]).ty)
    &&& match f.results {
        FuncResultsView::NoResult => true,
        FuncResultsView::Single(t) => type_ref_wf(r, t),
        FuncResultsView::NamedResults(ps) => forall|k: int|
            0 <= k < ps.len() ==> type_ref_wf(r, (#[trigger] ps[k]).ty),
    }
}

/// Whether a world's imported and exported interfaces exist.
pub open spec fn world_wf(r: ResolvedView, w: WorldView) -> bool {
    &&& forall|k: int| 0 <= k < w.imports.len() ==> iface_id_wf(r, #[trigger] w.imports[k])
    &&& forall|k: int| 0 <= k < w.exports.len() ==> iface_id_wf(r, #[trigger] w.exports[k])
}

// ---------------------------------------------------------------------------
// Resolution: raw package fragments to the resolved model.
// ---------------------------------------------------------------------------

/// Why a root could not be resolved.
#[derive(Debug)]
pub enum ResolveError {
    /// The root holds no file at all.
    EmptyRoot,
    /// One file's text is malformed.
    ParseError { path: String, err: crate::wit_parse::ParseErr },
    /// A type or interface reference has no definition; named here.
    Unresolved { name: String },
    /// The type-reference graph has a cycle; the participating types named.
    CyclicType { names: Vec<String> },
    /// The root holds more type definitions than a machine word can count.
    TooManyTypes,
}

/// Mathematical image of a `ResolveError`.
#[verifier::ext_equal]
pub ghost enum ResolveErrorView {
    EmptyRoot,
    ParseError { path: Seq<char>, err: crate::wit_parse::ParseErrView },
    Unresolved { name: Seq<char> },
    CyclicType { names: Seq<Seq<char>> },
    TooManyTypes,
}

impl DeepView for ResolveError {
    type V = ResolveErrorView;

    open spec fn deep_view(&self) -> ResolveErrorView {
        match self {
            ResolveError::EmptyRoot => ResolveErrorView::EmptyRoot,
            ResolveError::ParseError { path, err } => ResolveErrorView::ParseError {
                path: path@,
                err: err.deep_view(),
            },
            ResolveError::Unresolved { name } => ResolveErrorView::Unresolved { name: name@ },
            ResolveError::CyclicType { names } => ResolveErrorView::CyclicType {
                names: names.deep_view(),
            },
            ResolveError::TooManyTypes => ResolveErrorView::TooManyTypes,
        }
    }
}

/// The raw fragments every file of the root parses to, or the first parse
/// error, with its file named.
pub open spec fn parse_all(files: Seq<crate::files::FileEntryView>, i: int) -> Result<
    Seq<crate::wit_parse::RawFileView>,
    ResolveErrorView,
>
    decreases files.len() - i,
{
    if i < 0 || i >= files.len() {
        Ok(Seq::empty())
    } else {
        match crate::wit_parse::parse_file_spec(files[i].content) {
            Ok(f) => match parse_all(files, i + 1) {
                Ok(rest) => Ok(seq![f] + rest),
                Err(e) => Err(e),
            },
            Err(e) => Err(ResolveErrorView::ParseError { path: files[i].path, err: e }),
        }
    }
}

/// Whether two fragments declare the same package.
pub open spec fn same_pkg(
    a: crate::wit_parse::RawFileView,
    b: crate::wit_parse::RawFileView,
) -> bool {
    a.namespace == b.namespace && a.pkg == b.pkg
}

/// Whether fragment `i` is the first declaring its package.
pub open spec fn is_first_frag(frags: Seq<crate::wit_parse::RawFileView>, i: int) -> bool {
    forall|j: int| 0 <= j < i ==> !same_pkg(#[trigger] frags[j], frags[i])
}

/// The predicate form of `is_first_frag`.
pub open spec fn first_pred(frags: Seq<crate::wit_parse::RawFileView>) -> spec_fn(int) -> bool {
    |i: int| is_first_frag(frags, i)
}

/// The indices 0 to n, in order.
pub open spec fn idx_seq(n: int) -> Seq<int> {
    Seq::new(n as nat, |i: int| i)
}

/// The interfaces every fragment of package `ns:pkg` declares, in file order.
pub open spec fn concat_ifaces(
    frags: Seq<crate::wit_parse::RawFileView>,
    ns: Seq<char>,
    pkg: Seq<char>,
) -> Seq<crate::wit_parse::RawInterfaceView>
    decreases frags.len(),
{
    if frags.len() == 0 {
        Seq::empty()
    } else {
        concat_ifaces(frags.drop_last(), ns, pkg) + (
        if frags.last().namespace == ns && frags.last().pkg == pkg {
            frags.last().interfaces
        } else {
            Seq::empty()
        })
    }
}

/// The worlds every fragment of package `ns:pkg` declares, in file order.
pub open spec fn concat_worlds(
    frags: Seq<crate::wit_parse::RawFileView>,
    ns: Seq<char>,
    pkg: Seq<char>,
) -> Seq<crate::wit_parse::RawWorldView>
    decreases frags.len(),
{
    if frags.len() == 0 {
        Seq::empty()
    } else {
        concat_worlds(frags.drop_last(), ns, pkg) + (
        if frags.last().namespace == ns && frags.last().pkg == pkg {
            frags.last().worlds
        } else {
            Seq::empty()
        })
    }
}

/// One merged package: the identity of its first fragment, with the
/// interfaces and worlds of every fragment of that package combined.
pub open spec fn merge_at(
    frags: Seq<crate::wit_parse::RawFileView>,
    i: int,
) -> crate::wit_parse::RawFileView {
    crate::wit_parse::RawFileView {
        namespace: frags[i].namespace,
        pkg: frags[i].pkg,
        version: frags[i].version,
        interfaces: concat_ifaces(frags, frags[i].namespace, frags[i].pkg),
        worlds: concat_worlds(frags, frags[i].namespace, frags[i].pkg),
    }
}

/// The function form of `merge_at`.
pub open spec fn merge_at_fn(frags: Seq<crate::wit_parse::RawFileView>) -> spec_fn(int) -> crate::wit_parse::RawFileView {
    |i: int| merge_at(frags, i)
}

/// The fragments merged by package: trees belonging to the same package
/// combine into one, in order of first declaration.
pub open spec fn merged_frags(frags: Seq<crate::wit_parse::RawFileView>) -> Seq<
    crate::wit_parse::RawFileView,
> {
    idx_seq(frags.len() as int).filter(first_pred(frags)).map_values(merge_at_fn(frags))
}

/// The first fragment declaring package `ns:pkg`, scanning from `i`.
pub open spec fn find_frag(
    frags: Seq<crate::wit_parse::RawFileView>,
    ns: Seq<char>,
    pkg: Seq<char>,
    i: int,
) -> int
    decreases frags.len() - i,
{
    if i < 0 || i >= frags.len() {
        frags.len() as int
    } else if frags[i].namespace == ns && frags[i].pkg == pkg {
        i
    } else {
        find_frag(frags, ns, pkg, i + 1)
    }
}

/// The first interface named `name`, scanning from `i`.
pub open spec fn find_iface(
    ifaces: Seq<crate::wit_parse::RawInterfaceView>,
    name: Seq<char>,
    i: int,
) -> int
    decreases ifaces.len() - i,
{
    if i < 0 || i >= ifaces.len() {
        ifaces.len() as int
    } else if ifaces[i].name == name {
        i
    } else {
        find_iface(ifaces, name, i + 1)
    }
}

/// The first type named `name`, scanning from `i`.
pub open spec fn find_type(
    types: Seq<crate::wit_parse::RawTypeDefView>,
    name: Seq<char>,
    i: int,
) -> int
    decreases types.len() - i,
{
    if i < 0 || i >= types.len() {
        types.len() as int
    } else if types[i].name == name {
        i
    } else {
        find_type(types, name, i + 1)
    }
}

/// Where a textual type reference points, when it resolves: the defining
/// package, interface and type position.
pub open spec fn resolve_ref(
    frags: Seq<crate::wit_parse::RawFileView>,
    p: int,
    i: int,
    t: crate::wit_parse::RawRefView,
) -> TypeRef {
    match t {
        crate::wit_parse::RawRefView::PrimRef(pr) => TypeRef::Prim(pr),
        crate::wit_parse::RawRefView::Local(n) => TypeRef::Named(
            TypeId {
                pkg: p as usize,
                iface: i as usize,
                idx: find_type(frags[p].interfaces[i].types, n, 0) as usize,
            },
        ),
        crate::wit_parse::RawRefView::Qualified { ns, pkg, iface, ty } => {
            let fp = find_frag(frags, ns, pkg, 0);
            if fp >= frags.len() {
                TypeRef::Prim(Prim::Bool)
            } else {
                let fi = find_iface(frags[fp].interfaces, iface, 0);
                if fi >= frags[fp].interfaces.len() {
                    TypeRef::Prim(Prim::Bool)
                } else {
                    TypeRef::Named(
                        TypeId {
                            pkg: fp as usize,
                            iface: fi as usize,
                            idx: find_type(frags[fp].interfaces[fi].types, ty, 0) as usize,
                        },
                    )
                }
            }
        },
    }
}

/// Whether a textual type reference has a definition.
pub open spec fn ref_ok(
    frags: Seq<crate::wit_parse::RawFileView>,
    p: int,
    i: int,
    t: crate::wit_parse::RawRefView,
) -> bool {
    match t {
        crate::wit_parse::RawRefView::PrimRef(_) => true,
        crate::wit_parse::RawRefView::Local(n) => find_type(frags[p].interfaces[i].types, n, 0)
            < frags[p].interfaces[i].types.len(),
        crate::wit_parse::RawRefView::Qualified { ns, pkg, iface, ty } => {
            let fp = find_frag(frags, ns, pkg, 0);
            &&& fp < frags.len()
            &&& find_iface(frags[fp].interfaces, iface, 0) < frags[fp].interfaces.len()
            &&& find_type(
                frags[fp].interfaces[find_iface(frags[fp].interfaces, iface, 0)].types,
                ty,
                0,
            ) < frags[fp].interfaces[find_iface(frags[fp].interfaces, iface, 0)].types.len()
        },
    }
}

/// Where a world's interface reference points, when it resolves.
pub open spec fn resolve_iface_ref(
    frags: Seq<crate::wit_parse::RawFileView>,
    p: int,
    t: crate::wit_parse::RawIfaceRefView,
) -> IfaceId {
    match t {
        crate::wit_parse::RawIfaceRefView::Local(n) => IfaceId {
            pkg: p as usize,
            iface: find_iface(frags[p].interfaces, n, 0) as usize,
        },
        crate::wit_parse::RawIfaceRefView::Qualified { ns, pkg, iface } => {
            let fp = find_frag(frags, ns, pkg, 0);
            if fp >= frags.len() {
                IfaceId { pkg: 0, iface: 0 }
            } else {
                IfaceId {
                    pkg: fp as usize,
                    iface: find_iface(frags[fp].interfaces, iface, 0) as usize,
                }
            }
        },
    }
}

/// Whether a world's interface reference has a definition.
pub open spec fn iface_ref_ok(
    frags: Seq<crate::wit_parse::RawFileView>,
    p: int,
    t: crate::wit_parse::RawIfaceRefView,
) -> bool {
    match t {
        crate::wit_parse::RawIfaceRefView::Local(n) => find_iface(frags[p].interfaces, n, 0)
            < frags[p].interfaces.len(),
        crate::wit_parse::RawIfaceRefView::Qualified { ns, pkg, iface } => {
            let fp = find_frag(frags, ns, pkg, 0);
            &&& fp < frags.len()
            &&& find_iface(frags[fp].interfaces, iface, 0) < frags[fp].interfaces.len()
        },
    }
}

/// The name a textual type reference is reported by.
pub open spec fn raw_ref_name(t: crate::wit_parse::RawRefView) -> Seq<char> {
    match t {
        crate::wit_parse::RawRefView::PrimRef(_) => Seq::empty(),
        crate::wit_parse::RawRefView::Local(n) => n,
        crate::wit_parse::RawRefView::Qualified { ty, .. } => ty,
    }
}

/// The name a world's interface reference is reported by.
pub open spec fn raw_iface_ref_name(t: crate::wit_parse::RawIfaceRefView) -> Seq<char> {
    match t {
        crate::wit_parse::RawIfaceRefView::Local(n) => n,
        crate::wit_parse::RawIfaceRefView::Qualified { iface, .. } => iface,
    }
}

/// Whether `nm` names a reference of this shape that has no definition.
pub open spec fn shape_bad_named(
    frags: Seq<crate::wit_parse::RawFileView>,
    p: int,
    i: int,
    shape: crate::wit_parse::RawShapeView,
    nm: Seq<char>,
) -> bool {
    exists|k: int|
        #![auto]
        0 <= k < raw_shape_refs(shape).len() && !ref_ok(frags, p, i, raw_shape_refs(shape)[k])
            && raw_ref_name(raw_shape_refs(shape)[k]) == nm
}

/// Whether `nm` names a reference of this function that has no definition.
pub open spec fn func_bad_named(
    frags: Seq<crate::wit_parse::RawFileView>,
    p: int,
    i: int,
    f: crate::wit_parse::RawFunctionView,
    nm: Seq<char>,
) -> bool {
    exists|k: int|
        #![auto]
        0 <= k < raw_func_refs(f).len() && !ref_ok(frags, p, i, raw_func_refs(f)[k])
            && raw_ref_name(raw_func_refs(f)[k]) == nm
}

/// Whether `nm` names an interface reference of this world that has no
/// definition.
pub open spec fn world_bad_named(
    frags: Seq<crate::wit_parse::RawFileView>,
    p: int,
    w: crate::wit_parse::RawWorldView,
    nm: Seq<char>,
) -> bool {
    ||| exists|k: int|
        #![auto]
        0 <= k < w.imports.len() && !iface_ref_ok(frags, p, w.imports[k]) && raw_iface_ref_name(
            w.imports[k],
        ) == nm
    ||| exists|k: int|
        #![auto]
        0 <= k < w.exports.len() && !iface_ref_ok(frags, p, w.exports[k]) && raw_iface_ref_name(
            w.exports[k],
        ) == nm
}

/// Whether `nm` names some reference of the fragments that has no
/// definition: what an unresolved-reference error reports.
pub open spec fn names_undefined_ref(
    frags: Seq<crate::wit_parse::RawFileView>,
    nm: Seq<char>,
) -> bool {
    ||| exists|p: int, i: int, t: int|
        #![auto]
        0 <= p < frags.len() && 0 <= i < frags[p].interfaces.len() && 0 <= t
            < frags[p].interfaces[i].types.len() && shape_bad_named(
            frags,
            p,
            i,
            frags[p].interfaces[i].types[t].shape,
            nm,
        )
    ||| exists|p: int, i: int, f: int|
        #![auto]
        0 <= p < frags.len() && 0 <= i < frags[p].interfaces.len() && 0 <= f
            < frags[p].interfaces[i].funcs.len() && func_bad_named(
            frags,
            p,
            i,
            frags[p].interfaces[i].funcs[f],
            nm,
        )
    ||| exists|p: int, w: int|
        #![auto]
        0 <= p < frags.len() && 0 <= w < frags[p].worlds.len() && world_bad_named(
            frags,
            p,
            frags[p].worlds[w],
            nm,
        )
}

/// The textual type references one raw shape makes, in order.
pub open spec fn raw_shape_refs(shape: crate::wit_parse::RawShapeView) -> Seq<
    crate::wit_parse::RawRefView,
> {
    match shape {
        crate::wit_parse::RawShapeView::Record(fs) => fs.map_values(raw_field_ty_fn()),
        crate::wit_parse::RawShapeView::Variant(cs) => cs.filter_map(raw_case_ty_fn()),
        crate::wit_parse::RawShapeView::EnumShape(_) => Seq::empty(),
        crate::wit_parse::RawShapeView::FlagsShape(_) => Seq::empty(),
        crate::wit_parse::RawShapeView::Resource => Seq::empty(),
        crate::wit_parse::RawShapeView::ListOf(t) => seq![t],
        crate::wit_parse::RawShapeView::OptionOf(t) => seq![t],
        crate::wit_parse::RawShapeView::ResultOf(o, e) => {
            let os = match o {
                Some(t) => seq![t],
                None => Seq::empty(),
            };
            let es = match e {
                Some(t) => seq![t],
                None => Seq::empty(),
            };
            os + es
        },
        crate::wit_parse::RawShapeView::TupleOf(ts) => ts,
    }
}

/// The type a raw field carries.
pub open spec fn raw_field_ty_fn() -> spec_fn(crate::wit_parse::RawFieldView) -> crate::wit_parse::RawRefView {
    |f: crate::wit_parse::RawFieldView| f.ty
}

/// The payload a raw case carries, if any.
pub open spec fn raw_case_ty_fn() -> spec_fn(crate::wit_parse::RawCaseView) -> Option<
    crate::wit_parse::RawRefView,
> {
    |c: crate::wit_parse::RawCaseView| c.ty
}

/// The textual type references one raw function makes, in order.
pub open spec fn raw_func_refs(f: crate::wit_parse::RawFunctionView) -> Seq<
    crate::wit_parse::RawRefView,
> {
    f.params.map_values(raw_field_ty_fn()) + (match f.results {
        crate::wit_parse::RawResultsView::NoResult => Seq::empty(),
        crate::wit_parse::RawResultsView::Single(t) => seq![t],
        crate::wit_parse::RawResultsView::NamedResults(fs) => fs.map_values(raw_field_ty_fn()),
    })
}

/// Whether every reference of one raw shape has a definition.
pub open spec fn shape_refs_ok(
    frags: Seq<crate::wit_parse::RawFileView>,
    p: int,
    i: int,
    shape: crate::wit_parse::RawShapeView,
) -> bool {
    forall|k: int|
        0 <= k < raw_shape_refs(shape).len() ==> ref_ok(
            frags,
            p,
            i,
            #[trigger] raw_shape_refs(shape)[k],
        )
}

/// Whether every reference of one raw function has a definition.
pub open spec fn func_refs_ok(
    frags: Seq<crate::wit_parse::RawFileView>,
    p: int,
    i: int,
    f: crate::wit_parse::RawFunctionView,
) -> bool {
    forall|k: int|
        0 <= k < raw_func_refs(f).len() ==> ref_ok(frags, p, i, #[trigger] raw_func_refs(f)[k])
}

/// Whether every interface reference of one raw world has a definition.
pub open spec fn world_refs_ok(
    frags: Seq<crate::wit_parse::RawFileView>,
    p: int,
    w: crate::wit_parse::RawWorldView,
) -> bool {
    &&& forall|k: int|
        0 <= k < w.imports.len() ==> iface_ref_ok(frags, p, #[trigger] w.imports[k])
    &&& forall|k: int|
        0 <= k < w.exports.len() ==> iface_ref_ok(frags, p, #[trigger] w.exports[k])
}

/// Whether every reference of every fragment has a definition.
pub open spec fn refs_ok(frags: Seq<crate::wit_parse::RawFileView>) -> bool {
    &&& forall|p: int, i: int, t: int|
        0 <= p < frags.len() && 0 <= i < frags[p].interfaces.len() && 0 <= t
            < frags[p].interfaces[i].types.len() ==> shape_refs_ok(
            frags,
            p,
            i,
            (#[trigger] frags[p].interfaces[i].types[t]).shape,
        )
    &&& forall|p: int, i: int, f: int|
        0 <= p < frags.len() && 0 <= i < frags[p].interfaces.len() && 0 <= f
            < frags[p].interfaces[i].funcs.len() ==> func_refs_ok(
            frags,
            p,
            i,
            #[trigger] frags[p].interfaces[i].funcs[f],
        )
    &&& forall|p: int, w: int|
        0 <= p < frags.len() && 0 <= w < frags[p].worlds.len() ==> world_refs_ok(
            frags,
            p,
            #[trigger] frags[p].worlds[w],
        )
}

/// The resolved image of one raw type reference, as a function value.
pub open spec fn resolve_tr_fn(
    frags: Seq<crate::wit_parse::RawFileView>,
    p: int,
    i: int,
) -> spec_fn(crate::wit_parse::RawRefView) -> TypeRef {
    |t: crate::wit_parse::RawRefView| resolve_ref(frags, p, i, t)
}

/// The resolved image of one raw field, as a function value.
pub open spec fn resolve_field_fn(
    frags: Seq<crate::wit_parse::RawFileView>,
    p: int,
    i: int,
) -> spec_fn(crate::wit_parse::RawFieldView) -> FieldView {
    |f: crate::wit_parse::RawFieldView|
        FieldView { name: f.name, ty: resolve_ref(frags, p, i, f.ty) }
}

/// The resolved image of one raw case, as a function value.
pub open spec fn resolve_case_fn(
    frags: Seq<crate::wit_parse::RawFileView>,
    p: int,
    i: int,
) -> spec_fn(crate::wit_parse::RawCaseView) -> CaseView {
    |c: crate::wit_parse::RawCaseView|
        CaseView {
            name: c.name,
            ty: match c.ty {
                Some(t) => Some(resolve_ref(frags, p, i, t)),
                None => None,
            },
        }
}

/// The resolved image of one raw parameter, as a function value.
pub open spec fn resolve_param_fn(
    frags: Seq<crate::wit_parse::RawFileView>,
    p: int,
    i: int,
) -> spec_fn(crate::wit_parse::RawFieldView) -> ParamView {
    |f: crate::wit_parse::RawFieldView|
        ParamView { name: f.name, ty: resolve_ref(frags, p, i, f.ty) }
}

/// The resolved image of one raw interface reference, as a function value.
pub open spec fn resolve_iref_fn(
    frags: Seq<crate::wit_parse::RawFileView>,
    p: int,
) -> spec_fn(crate::wit_parse::RawIfaceRefView) -> IfaceId {
    |t: crate::wit_parse::RawIfaceRefView| resolve_iface_ref(frags, p, t)
}

/// The resolved image of one raw shape.
pub open spec fn resolve_shape(
    frags: Seq<crate::wit_parse::RawFileView>,
    p: int,
    i: int,
    shape: crate::wit_parse::RawShapeView,
) -> TypeShapeView {
    match shape {
        crate::wit_parse::RawShapeView::Record(fs) => TypeShapeView::Record(
            fs.map_values(resolve_field_fn(frags, p, i)),
        ),
        crate::wit_parse::RawShapeView::Variant(cs) => TypeShapeView::Variant(
            cs.map_values(resolve_case_fn(frags, p, i)),
        ),
        crate::wit_parse::RawShapeView::EnumShape(ts) => TypeShapeView::EnumShape(ts),
        crate::wit_parse::RawShapeView::FlagsShape(ts) => TypeShapeView::FlagsShape(ts),
        crate::wit_parse::RawShapeView::Resource => TypeShapeView::Resource,
        crate::wit_parse::RawShapeView::ListOf(t) => TypeShapeView::ListOf(
            resolve_ref(frags, p, i, t),
        ),
        crate::wit_parse::RawShapeView::OptionOf(t) => TypeShapeView::OptionOf(
            resolve_ref(frags, p, i, t),
        ),
        crate::wit_parse::RawShapeView::ResultOf(o, e) => TypeShapeView::ResultOf(
            match o {
                Some(t) => Some(resolve_ref(frags, p, i, t)),
                None => None,
            },
            match e {
                Some(t) => Some(resolve_ref(frags, p, i, t)),
                None => None,
            },
        ),
        crate::wit_parse::RawShapeView::TupleOf(ts) => TypeShapeView::TupleOf(
            ts.map_values(resolve_tr_fn(frags, p, i)),
        ),
    }
}

/// The resolved image of one raw function.
pub open spec fn resolve_func(
    frags: Seq<crate::wit_parse::RawFileView>,
    p: int,
    i: int,
    f: crate::wit_parse::RawFunctionView,
) -> FunctionView {
    FunctionView {
        name: f.name,
        params: f.params.map_values(resolve_param_fn(frags, p, i)),
        results: match f.results {
            crate::wit_parse::RawResultsView::NoResult => FuncResultsView::NoResult,
            crate::wit_parse::RawResultsView::Single(t) => FuncResultsView::Single(
                resolve_ref(frags, p, i, t),
            ),
            crate::wit_parse::RawResultsView::NamedResults(fs) => FuncResultsView::NamedResults(
                fs.map_values(resolve_param_fn(frags, p, i)),
            ),
        },
    }
}

/// The resolved image of one raw world.
pub open spec fn resolve_world(
    frags: Seq<crate::wit_parse::RawFileView>,
    p: int,
    w: crate::wit_parse::RawWorldView,
) -> WorldView {
    WorldView {
        name: w.name,
        imports: w.imports.map_values(resolve_iref_fn(frags, p)),
        exports: w.exports.map_values(resolve_iref_fn(frags, p)),
    }
}

/// Whether following this resolved reference bottoms out within `fuel`
/// dereferences.
pub open spec fn ref_grounded(r: ResolvedView, t: TypeRef, fuel: nat) -> bool
    decreases fuel, 0int,
{
    match t {
        TypeRef::Named(id) => fuel > 0 && type_id_wf(r, id) && grounded(
            r,
            id,
            (fuel - 1) as nat,
        ),
        _ => true,
    }
}

/// Whether every reference of the type at `id` bottoms out within `fuel`
/// dereferences. On an acyclic model every type is grounded once `fuel`
/// reaches the number of type definitions; around a cycle no fuel suffices.
pub open spec fn grounded(r: ResolvedView, id: TypeId, fuel: nat) -> bool
    decreases fuel, 1int,
{
    forall|k: int|
        0 <= k < shape_refs(type_at(r, id).shape).len() ==> ref_grounded(
            r,
            #[trigger] shape_refs(type_at(r, id).shape)[k],
            fuel,
        )
}

/// `grounded` at a position given by plain indices.
pub open spec fn grounded_at(r: ResolvedView, p: int, i: int, t: int, fuel: nat) -> bool {
    grounded(r, TypeId { pkg: p as usize, iface: i as usize, idx: t as usize }, fuel)
}

/// Whether the whole type-reference graph is acyclic: every definition
/// bottoms out within as many dereferences as there are definitions.
pub open spec fn all_grounded(r: ResolvedView, fuel: nat) -> bool {
    forall|p: int, i: int, t: int|
        0 <= p < r.packages.len() && 0 <= i < r.packages[p].interfaces.len() && 0 <= t
            < r.packages[p].interfaces[i].types.len() ==> #[trigger] grounded_at(
            r,
            p,
            i,
            t,
            fuel,
        )
}

/// Types arranged in a reference cycle are never grounded, at any fuel: the
/// grounding check is a true acyclicity check.
pub proof fn lemma_cycle_never_grounded(r: ResolvedView, c: Seq<TypeId>, fuel: nat)
    requires
        c.len() > 0,
        forall|j: int| 0 <= j < c.len() ==> type_id_wf(r, #[trigger] c[j]),
        forall|j: int|
            0 <= j < c.len() ==> shape_refs(type_at(r, #[trigger] c[j]).shape).contains(
                TypeRef::Named(
                    c[if j + 1 == c.len() {
                        0int
                    } else {
                        j + 1
                    }],
                ),
            ),
    ensures
        forall|j: int| 0 <= j < c.len() ==> !grounded(r, #[trigger] c[j], fuel),
    decreases fuel,
{
    if fuel > 0 {
        lemma_cycle_never_grounded(r, c, (fuel - 1) as nat);
    }
    assert forall|j: int| 0 <= j < c.len() implies !grounded(r, #[trigger] c[j], fuel) by {
        let nxt = if j + 1 == c.len() {
            0int
        } else {
            j + 1
        };
        let refs = shape_refs(type_at(r, c[j]).shape);
        assert(refs.contains(TypeRef::Named(c[nxt])));
        let k = choose|k: int| 0 <= k < refs.len() && refs[k] == TypeRef::Named(c[nxt]);
        assert(!ref_grounded(r, refs[k], fuel));
    }
}

/// Everything resolution demands of a root: at least one file, every file
/// well-formed, every reference of the merged packages defined, the type
/// graph acyclic, and a type count a machine word can hold.
pub open spec fn resolve_ok(files: Seq<crate::files::FileEntryView>) -> bool {
    &&& files.len() > 0
    &&& parse_all(files, 0) is Ok
    &&& {
        let frags = merged_frags(parse_all(files, 0)->Ok_0);
        &&& refs_ok(frags)
        &&& crate::stub::total_types(resolve_model(frags)) <= usize::MAX
        &&& all_grounded(
            resolve_model(frags),
            crate::stub::total_types(resolve_model(frags)) as nat,
        )
    }
}

/// The resolved model a root denotes when resolution succeeds.
pub open spec fn resolve_spec(files: Seq<crate::files::FileEntryView>) -> ResolvedView {
    resolve_model(merged_frags(parse_all(files, 0)->Ok_0))
}

// ---------------------------------------------------------------------------
// World selection.
// ---------------------------------------------------------------------------

/// Why a world could not be selected.
#[derive(Debug)]
pub enum WorldSelectError {
    /// The requested world is not defined by the root package; every
    /// candidate named.
    WorldNotFound { name: String, candidates: Vec<String> },
    /// No world was requested and the root package does not define exactly
    /// one; every candidate named.
    NoUniqueWorld { candidates: Vec<String> },
}

/// The name of one world.
pub open spec fn world_name_fn() -> spec_fn(WorldView) -> Seq<char> {
    |w: WorldView| w.name
}

/// The names of the root package's worlds, in order.
pub open spec fn world_names(r: ResolvedView) -> Seq<Seq<char>> {
    r.packages[r.root].worlds.map_values(world_name_fn())
}

/// The first world named `name`, scanning from `i`.
pub open spec fn find_world(worlds: Seq<WorldView>, name: Seq<char>, i: int) -> int
    decreases worlds.len() - i,
{
    if i < 0 || i >= worlds.len() {
        worlds.len() as int
    } else if worlds[i].name == name {
        i
    } else {
        find_world(worlds, name, i + 1)
    }
}

/// `find_world` lands between `from` and the length, on a world of the
/// requested name if it is there.
pub proof fn lemma_find_world_hit(worlds: Seq<WorldView>, name: Seq<char>, i: int)
    requires
        0 <= i <= worlds.len(),
    ensures
        i <= find_world(worlds, name, i) <= worlds.len(),
        find_world(worlds, name, i) < worlds.len() ==> worlds[find_world(
            worlds,
            name,
            i,
        )].name == name,
    decreases worlds.len() - i,
{
    if i < worlds.len() && worlds[i].name != name {
        lemma_find_world_hit(worlds, name, i + 1);
    }
}

/// The resolved model the fragments denote: each fragment one package, the
/// first fragment's package the root.
pub open spec fn resolve_model(frags: Seq<crate::wit_parse::RawFileView>) -> ResolvedView {
    ResolvedView {
        packages: Seq::new(
            frags.len(),
            |p: int|
                PackageView {
                    name: PackageNameView {
                        namespace: frags[p].namespace,
                        name: frags[p].pkg,
                        version: frags[p].version,
                    },
                    interfaces: Seq::new(
                        frags[p].interfaces.len(),
                        |i: int|
                            InterfaceView {
                                name: frags[p].interfaces[i].name,
                                types: Seq::new(
                                    frags[p].interfaces[i].types.len(),
                                    |t: int|
                                        TypeDefView {
                                            name: frags[p].interfaces[i].types[t].name,
                                            shape: resolve_shape(
                                                frags,
                                                p,
                                                i,
                                                frags[p].interfaces[i].types[t].shape,
                                            ),
                                        },
                                ),
                                funcs: Seq::new(
                                    frags[p].interfaces[i].funcs.len(),
                                    |f: int|
                                        resolve_func(frags, p, i, frags[p].interfaces[i].funcs[f]),
                                ),
                            },
                    ),
                    worlds: Seq::new(
                        frags[p].worlds.len(),
                        |w: int| resolve_world(frags, p, frags[p].worlds[w]),
                    ),
                },
        ),
        root: 0,
    }
}


// ---------------------------------------------------------------------------
// Resolution, executable.
// ---------------------------------------------------------------------------

/// Finds the fragment declaring package `ns:pkg`.
fn find_frag_exec(frags: &Vec<crate::wit_parse::RawFile>, ns: &str, pkg: &str) -> (r: usize)
    ensures
        r as int == find_frag(frags.deep_view(), ns@, pkg@, 0),
{
    let ghost fv = frags.deep_view();
    let mut i: usize = 0;
    while i < frags.len()
        invariant
            i <= frags.len(),
            fv == frags.deep_view(),
            find_frag(fv, ns@, pkg@, 0) == find_frag(fv, ns@, pkg@, i as int),
        decreases frags.len() - i,
    {
        if crate::text::str_eq(frags[i].namespace.as_str(), ns) && crate::text::str_eq(
            frags[i].pkg.as_str(),
            pkg,
        ) {
            return i;
        }
        i += 1;
    }
    frags.len()
}

/// Finds the interface named `name`.
fn find_iface_exec(ifaces: &Vec<crate::wit_parse::RawInterface>, name: &str) -> (r: usize)
    ensures
        r as int == find_iface(ifaces.deep_view(), name@, 0),
{
    let ghost fv = ifaces.deep_view();
    let mut i: usize = 0;
    while i < ifaces.len()
        invariant
            i <= ifaces.len(),
            fv == ifaces.deep_view(),
            find_iface(fv, name@, 0) == find_iface(fv, name@, i as int),
        decreases ifaces.len() - i,
    {
        if crate::text::str_eq(ifaces[i].name.as_str(), name) {
            return i;
        }
        i += 1;
    }
    ifaces.len()
}

/// Finds the type named `name`.
fn find_type_exec(types: &Vec<crate::wit_parse::RawTypeDef>, name: &str) -> (r: usize)
    ensures
        r as int == find_type(types.deep_view(), name@, 0),
{
    let ghost fv = types.deep_view();
    let mut i: usize = 0;
    while i < types.len()
        invariant
            i <= types.len(),
            fv == types.deep_view(),
            find_type(fv, name@, 0) == find_type(fv, name@, i as int),
        decreases types.len() - i,
    {
        if crate::text::str_eq(types[i].name.as_str(), name) {
            return i;
        }
        i += 1;
    }
    types.len()
}

/// Resolves one textual type reference to its position, or reports that it
/// has no definition.
fn resolve_ref_exec(
    frags: &Vec<crate::wit_parse::RawFile>,
    p: usize,
    i: usize,
    t: &crate::wit_parse::RawRef,
) -> (r: Option<TypeRef>)
    requires
        (p as int) < frags.deep_view().len(),
        (i as int) < frags.deep_view()[p as int].interfaces.len(),
    ensures
        match r {
            Some(tr) => ref_ok(frags.deep_view(), p as int, i as int, t.deep_view()) && tr
                == resolve_ref(frags.deep_view(), p as int, i as int, t.deep_view()),
            None => !ref_ok(frags.deep_view(), p as int, i as int, t.deep_view()),
        },
{
    let ghost fv = frags.deep_view();
    match t {
        crate::wit_parse::RawRef::PrimRef(pr) => Some(TypeRef::Prim(*pr)),
        crate::wit_parse::RawRef::Local(n) => {
            proof {
                assert(frags@[p as int].interfaces@[i as int].types.deep_view() == fv[
                    p as int
                ].interfaces[i as int].types);
            }
            let ft = find_type_exec(&frags[p].interfaces[i].types, n.as_str());
            if ft < frags[p].interfaces[i].types.len() {
                Some(TypeRef::Named(TypeId { pkg: p, iface: i, idx: ft }))
            } else {
                None
            }
        },
        crate::wit_parse::RawRef::Qualified { ns, pkg, iface, ty } => {
            let fp = find_frag_exec(frags, ns.as_str(), pkg.as_str());
            if fp >= frags.len() {
                return None;
            }
            proof {
                assert(frags@[fp as int].interfaces.deep_view() == fv[fp as int].interfaces);
            }
            let fi = find_iface_exec(&frags[fp].interfaces, iface.as_str());
            if fi >= frags[fp].interfaces.len() {
                return None;
            }
            proof {
                assert(frags@[fp as int].interfaces@[fi as int].types.deep_view() == fv[
                    fp as int
                ].interfaces[fi as int].types);
            }
            let ft = find_type_exec(&frags[fp].interfaces[fi].types, ty.as_str());
            if ft < frags[fp].interfaces[fi].types.len() {
                Some(TypeRef::Named(TypeId { pkg: fp, iface: fi, idx: ft }))
            } else {
                None
            }
        },
    }
}

/// Resolves one world interface reference, or reports that it has no
/// definition.
fn resolve_iface_ref_exec(
    frags: &Vec<crate::wit_parse::RawFile>,
    p: usize,
    t: &crate::wit_parse::RawIfaceRef,
) -> (r: Option<IfaceId>)
    requires
        (p as int) < frags.deep_view().len(),
    ensures
        match r {
            Some(id) => iface_ref_ok(frags.deep_view(), p as int, t.deep_view()) && id
                == resolve_iface_ref(frags.deep_view(), p as int, t.deep_view()),
            None => !iface_ref_ok(frags.deep_view(), p as int, t.deep_view()),
        },
{
    let ghost fv = frags.deep_view();
    match t {
        crate::wit_parse::RawIfaceRef::Local(n) => {
            proof {
                assert(frags@[p as int].interfaces.deep_view() == fv[p as int].interfaces);
            }
            let fi = find_iface_exec(&frags[p].interfaces, n.as_str());
            if fi < frags[p].interfaces.len() {
                Some(IfaceId { pkg: p, iface: fi })
            } else {
                None
            }
        },
        crate::wit_parse::RawIfaceRef::Qualified { ns, pkg, iface } => {
            let fp = find_frag_exec(frags, ns.as_str(), pkg.as_str());
            if fp >= frags.len() {
                return None;
            }
            proof {
                assert(frags@[fp as int].interfaces.deep_view() == fv[fp as int].interfaces);
            }
            let fi = find_iface_exec(&frags[fp].interfaces, iface.as_str());
            if fi < frags[fp].interfaces.len() {
                Some(IfaceId { pkg: fp, iface: fi })
            } else {
                None
            }
        },
    }
}

/// Resolves one raw shape, or reports the name of a reference without a
/// definition.
fn resolve_shape_exec(
    frags: &Vec<crate::wit_parse::RawFile>,
    p: usize,
    i: usize,
    shape: &crate::wit_parse::RawShape,
) -> (r: Result<TypeShape, ResolveError>)
    requires
        (p as int) < frags.deep_view().len(),
        (i as int) < frags.deep_view()[p as int].interfaces.len(),
    ensures
        r matches Ok(sh) ==> shape_refs_ok(frags.deep_view(), p as int, i as int, shape.deep_view()),
        r matches Ok(sh) ==> sh.deep_view() == resolve_shape(
            frags.deep_view(),
            p as int,
            i as int,
            shape.deep_view(),
        ),
        r is Err ==> !shape_refs_ok(frags.deep_view(), p as int, i as int, shape.deep_view()),
        r matches Err(e) ==> (e matches ResolveError::Unresolved { name } && shape_bad_named(
            frags.deep_view(),
            p as int,
            i as int,
            shape.deep_view(),
            name@,
        )),
{
    let ghost fv = frags.deep_view();
    let ghost sv = shape.deep_view();
    match shape {
        crate::wit_parse::RawShape::Record(fs) => {
            let ghost fsv = fs.deep_view();
            let mut out: Vec<Field> = Vec::new();
            let mut k: usize = 0;
            while k < fs.len()
                invariant
                    k <= fs.len(),
                    fv == frags.deep_view(),
                    fsv == fs.deep_view(),
                    sv == shape.deep_view(),
                    sv == crate::wit_parse::RawShapeView::Record(fsv),
                    (p as int) < fv.len(),
                    (i as int) < fv[p as int].interfaces.len(),
                    out.deep_view().len() == k,
                    forall|m: int|
                        0 <= m < k ==> #[trigger] out.deep_view()[m] == resolve_field_fn(
                            fv,
                            p as int,
                            i as int,
                        )(fsv[m]),
                    forall|m: int|
                        0 <= m < k ==> ref_ok(fv, p as int, i as int, (#[trigger] fsv[m]).ty),
                decreases fs.len() - k,
            {
                match resolve_ref_exec(frags, p, i, &fs[k].ty) {
                    Some(tr) => {
                        crate::seqs::push_dv(
                            &mut out,
                            Field { name: fs[k].name.clone(), ty: tr },
                        );
                    },
                    None => {
                        proof {
                            assert(raw_shape_refs(sv)[k as int] == fsv[k as int].ty);
                        }
                        proof { assert(!shape_refs_ok(fv, p as int, i as int, sv)); } return Err(
                            ResolveError::Unresolved { name: field_ref_name(&fs[k].ty) },
                        );
                    },
                }
                k += 1;
            }
            proof {
                assert(raw_shape_refs(sv) == fsv.map_values(raw_field_ty_fn()));
                assert forall|m: int| 0 <= m < raw_shape_refs(sv).len() implies ref_ok(
                    fv,
                    p as int,
                    i as int,
                    #[trigger] raw_shape_refs(sv)[m],
                ) by {
                    assert(raw_shape_refs(sv)[m] == fsv[m].ty);
                }
                assert(shape_refs_ok(fv, p as int, i as int, sv));
                assert(out.deep_view() =~= fsv.map_values(resolve_field_fn(fv, p as int, i as int)));
                assert(TypeShape::Record(out).deep_view() == resolve_shape(fv, p as int, i as int, sv));
            }
            Ok(TypeShape::Record(out))
        },
        crate::wit_parse::RawShape::Variant(cs) => {
            let ghost csv = cs.deep_view();
            let mut out: Vec<Case> = Vec::new();
            let mut k: usize = 0;
            while k < cs.len()
                invariant
                    k <= cs.len(),
                    fv == frags.deep_view(),
                    csv == cs.deep_view(),
                    sv == shape.deep_view(),
                    sv == crate::wit_parse::RawShapeView::Variant(csv),
                    (p as int) < fv.len(),
                    (i as int) < fv[p as int].interfaces.len(),
                    out.deep_view().len() == k,
                    forall|m: int|
                        0 <= m < k ==> #[trigger] out.deep_view()[m] == resolve_case_fn(
                            fv,
                            p as int,
                            i as int,
                        )(csv[m]),
                    forall|m: int|
                        0 <= m < k ==> ((#[trigger] csv[m]).ty matches Some(t) ==> ref_ok(
                            fv,
                            p as int,
                            i as int,
                            t,
                        )),
                decreases cs.len() - k,
            {
                match &cs[k].ty {
                    Some(rt) => {
                        match resolve_ref_exec(frags, p, i, rt) {
                            Some(tr) => {
                                crate::seqs::push_dv(
                                    &mut out,
                                    Case { name: cs[k].name.clone(), ty: Some(tr) },
                                );
                            },
                            None => {
                                proof {
                                    assert(raw_case_ty_fn()(csv[k as int]) == Some(
                                        rt.deep_view(),
                                    ));
                                    crate::seqs::lemma_filter_map_at(
                                        csv,
                                        raw_case_ty_fn(),
                                        k as int,
                                    );
                                    let refs = raw_shape_refs(sv);
                                    let m = choose|m: int|
                                        0 <= m < refs.len() && refs[m] == rt.deep_view();
                                    assert(raw_shape_refs(sv)[m] == rt.deep_view());
                                }
                                proof { assert(!shape_refs_ok(fv, p as int, i as int, sv)); } return Err(
                                    ResolveError::Unresolved { name: field_ref_name(rt) },
                                );
                            },
                        }
                    },
                    None => {
                        crate::seqs::push_dv(
                            &mut out,
                            Case { name: cs[k].name.clone(), ty: None },
                        );
                    },
                }
                k += 1;
            }
            proof {
                lemma_variant_raw_refs_ok(fv, p as int, i as int, csv);
                assert(shape_refs_ok(fv, p as int, i as int, sv));
                assert(out.deep_view() =~= csv.map_values(
                    resolve_case_fn(fv, p as int, i as int),
                ));
                assert(TypeShape::Variant(out).deep_view() == resolve_shape(
                    fv,
                    p as int,
                    i as int,
                    sv,
                ));
            }
            Ok(TypeShape::Variant(out))
        },
        crate::wit_parse::RawShape::EnumShape(ts) => {
            let r = TypeShape::EnumShape(crate::text::copy_strings(ts));
            proof {
                assert(raw_shape_refs(sv) =~= Seq::<crate::wit_parse::RawRefView>::empty());
                assert(shape_refs_ok(fv, p as int, i as int, sv));
                assert(r.deep_view() =~= resolve_shape(fv, p as int, i as int, sv));
            }
            Ok(r)
        },
        crate::wit_parse::RawShape::FlagsShape(ts) => {
            let r = TypeShape::FlagsShape(crate::text::copy_strings(ts));
            proof {
                assert(raw_shape_refs(sv) =~= Seq::<crate::wit_parse::RawRefView>::empty());
                assert(shape_refs_ok(fv, p as int, i as int, sv));
                assert(r.deep_view() =~= resolve_shape(fv, p as int, i as int, sv));
            }
            Ok(r)
        },
        crate::wit_parse::RawShape::Resource => {
            proof {
                assert(raw_shape_refs(sv) =~= Seq::<crate::wit_parse::RawRefView>::empty());
                assert(shape_refs_ok(fv, p as int, i as int, sv));
                assert(TypeShape::Resource.deep_view() == resolve_shape(fv, p as int, i as int, sv));
            }
            Ok(TypeShape::Resource)
        },
        crate::wit_parse::RawShape::ListOf(t) => {
            match resolve_ref_exec(frags, p, i, t) {
                Some(tr) => {
                    proof {
                        assert(raw_shape_refs(sv) =~= seq![t.deep_view()]);
                        assert forall|m: int| 0 <= m < raw_shape_refs(sv).len() implies ref_ok(
                            fv,
                            p as int,
                            i as int,
                            #[trigger] raw_shape_refs(sv)[m],
                        ) by {
                            assert(raw_shape_refs(sv)[m] == t.deep_view());
                        }
                        assert(shape_refs_ok(fv, p as int, i as int, sv));
                    }
                    Ok(TypeShape::ListOf(tr))
                },
                None => {
                    proof {
                        assert(raw_shape_refs(sv)[0] == t.deep_view());
                        assert(!shape_refs_ok(fv, p as int, i as int, sv));
                    }
                    Err(ResolveError::Unresolved { name: field_ref_name(t) })
                },
            }
        },
        crate::wit_parse::RawShape::OptionOf(t) => {
            match resolve_ref_exec(frags, p, i, t) {
                Some(tr) => {
                    proof {
                        assert(raw_shape_refs(sv) =~= seq![t.deep_view()]);
                        assert forall|m: int| 0 <= m < raw_shape_refs(sv).len() implies ref_ok(
                            fv,
                            p as int,
                            i as int,
                            #[trigger] raw_shape_refs(sv)[m],
                        ) by {
                            assert(raw_shape_refs(sv)[m] == t.deep_view());
                        }
                        assert(shape_refs_ok(fv, p as int, i as int, sv));
                    }
                    Ok(TypeShape::OptionOf(tr))
                },
                None => {
                    proof {
                        assert(raw_shape_refs(sv)[0] == t.deep_view());
                        assert(!shape_refs_ok(fv, p as int, i as int, sv));
                    }
                    Err(ResolveError::Unresolved { name: field_ref_name(t) })
                },
            }
        },
        crate::wit_parse::RawShape::ResultOf(o, e) => {
            let ro = match o {
                Some(t) => {
                    match resolve_ref_exec(frags, p, i, t) {
                        Some(tr) => Some(tr),
                        None => {
                            proof {
                                assert(raw_shape_refs(sv)[0] == t.deep_view());
                            }
                            proof { assert(!shape_refs_ok(fv, p as int, i as int, sv)); } return Err(ResolveError::Unresolved { name: field_ref_name(t) });
                        },
                    }
                },
                None => None,
            };
            let re = match e {
                Some(t) => {
                    match resolve_ref_exec(frags, p, i, t) {
                        Some(tr) => Some(tr),
                        None => {
                            proof {
                                match o {
                                    Some(ot) => {
                                        assert(raw_shape_refs(sv)[1] == t.deep_view());
                                    },
                                    None => {
                                        assert(raw_shape_refs(sv)[0] == t.deep_view());
                                    },
                                }
                            }
                            proof { assert(!shape_refs_ok(fv, p as int, i as int, sv)); } return Err(ResolveError::Unresolved { name: field_ref_name(t) });
                        },
                    }
                },
                None => None,
            };
            let r = TypeShape::ResultOf(ro, re);
            proof {
                assert forall|m: int| 0 <= m < raw_shape_refs(sv).len() implies ref_ok(
                    fv,
                    p as int,
                    i as int,
                    #[trigger] raw_shape_refs(sv)[m],
                ) by {
                    match (o, e) {
                        (Some(ot), Some(et)) => {
                            assert(raw_shape_refs(sv) =~= seq![ot.deep_view(), et.deep_view()]);
                        },
                        (Some(ot), None) => {
                            assert(raw_shape_refs(sv) =~= seq![ot.deep_view()]);
                        },
                        (None, Some(et)) => {
                            assert(raw_shape_refs(sv) =~= seq![et.deep_view()]);
                        },
                        (None, None) => {
                            assert(raw_shape_refs(sv) =~= Seq::<
                                crate::wit_parse::RawRefView,
                            >::empty());
                        },
                    }
                }
                assert(shape_refs_ok(fv, p as int, i as int, sv));
                assert(r.deep_view() =~= resolve_shape(fv, p as int, i as int, sv));
            }
            Ok(r)
        },
        crate::wit_parse::RawShape::TupleOf(ts) => {
            let ghost tsv = ts.deep_view();
            let mut out: Vec<TypeRef> = Vec::new();
            let mut k: usize = 0;
            while k < ts.len()
                invariant
                    k <= ts.len(),
                    fv == frags.deep_view(),
                    tsv == ts.deep_view(),
                    sv == shape.deep_view(),
                    sv == crate::wit_parse::RawShapeView::TupleOf(tsv),
                    (p as int) < fv.len(),
                    (i as int) < fv[p as int].interfaces.len(),
                    out@.len() == k,
                    forall|m: int|
                        0 <= m < k ==> #[trigger] out@[m] == resolve_tr_fn(fv, p as int, i as int)(
                            tsv[m],
                        ),
                    forall|m: int|
                        0 <= m < k ==> ref_ok(fv, p as int, i as int, #[trigger] tsv[m]),
                decreases ts.len() - k,
            {
                match resolve_ref_exec(frags, p, i, &ts[k]) {
                    Some(tr) => {
                        out.push(tr);
                    },
                    None => {
                        proof {
                            assert(raw_shape_refs(sv) =~= tsv);
                            assert(raw_shape_refs(sv)[k as int] == tsv[k as int]);
                        }
                        proof { assert(!shape_refs_ok(fv, p as int, i as int, sv)); } return Err(ResolveError::Unresolved { name: field_ref_name(&ts[k]) });
                    },
                }
                k += 1;
            }
            let r = TypeShape::TupleOf(out);
            proof {
                assert(raw_shape_refs(sv) =~= tsv);
                assert(shape_refs_ok(fv, p as int, i as int, sv));
                assert(out@ =~= tsv.map_values(resolve_tr_fn(fv, p as int, i as int)));
                assert(out.deep_view() =~= out@);
                assert(r.deep_view() == resolve_shape(fv, p as int, i as int, sv));
            }
            Ok(r)
        },
    }
}

/// Every variant case whose payload is defined makes the whole shape's
/// reference list defined.
proof fn lemma_variant_raw_refs_ok(
    fv: Seq<crate::wit_parse::RawFileView>,
    p: int,
    i: int,
    csv: Seq<crate::wit_parse::RawCaseView>,
)
    requires
        forall|m: int|
            0 <= m < csv.len() ==> ((#[trigger] csv[m]).ty matches Some(t) ==> ref_ok(
                fv,
                p,
                i,
                t,
            )),
    ensures
        forall|m: int|
            0 <= m < raw_shape_refs(crate::wit_parse::RawShapeView::Variant(csv)).len()
                ==> ref_ok(
                fv,
                p,
                i,
                #[trigger] raw_shape_refs(crate::wit_parse::RawShapeView::Variant(csv))[m],
            ),
{
    let refs = raw_shape_refs(crate::wit_parse::RawShapeView::Variant(csv));
    assert forall|m: int| 0 <= m < refs.len() implies ref_ok(fv, p, i, #[trigger] refs[m]) by {
        assert(refs.contains(refs[m]));
        csv.lemma_filter_map_contains(raw_case_ty_fn(), refs[m]);
        let c = choose|c: crate::wit_parse::RawCaseView|
            #[trigger] csv.contains(c) && raw_case_ty_fn()(c) == Some(refs[m]);
        let ci = choose|ci: int| 0 <= ci < csv.len() && csv[ci] == c;
        assert(csv[ci].ty matches Some(t) && t == refs[m]);
    }
}

/// The name carried by a textual reference, for error reporting.
fn field_ref_name(t: &crate::wit_parse::RawRef) -> (r: String)
    ensures
        r@ == raw_ref_name(t.deep_view()),
{
    match t {
        crate::wit_parse::RawRef::PrimRef(_) => String::new(),
        crate::wit_parse::RawRef::Local(n) => n.clone(),
        crate::wit_parse::RawRef::Qualified { ty, .. } => ty.clone(),
    }
}

/// Resolves one raw function, or reports a reference without a definition.
fn resolve_func_exec(
    frags: &Vec<crate::wit_parse::RawFile>,
    p: usize,
    i: usize,
    f: &crate::wit_parse::RawFunction,
) -> (r: Result<Function, ResolveError>)
    requires
        (p as int) < frags.deep_view().len(),
        (i as int) < frags.deep_view()[p as int].interfaces.len(),
    ensures
        r matches Ok(g) ==> func_refs_ok(frags.deep_view(), p as int, i as int, f.deep_view())
            && g.deep_view() == resolve_func(frags.deep_view(), p as int, i as int, f.deep_view()),
        r is Err ==> !func_refs_ok(frags.deep_view(), p as int, i as int, f.deep_view()),
        r matches Err(e) ==> (e matches ResolveError::Unresolved { name } && func_bad_named(
            frags.deep_view(),
            p as int,
            i as int,
            f.deep_view(),
            name@,
        )),
{
    let ghost fv = frags.deep_view();
    let ghost gv = f.deep_view();
    let ghost uses = raw_func_refs(gv);
    let mut params: Vec<Param> = Vec::new();
    let mut k: usize = 0;
    while k < f.params.len()
        invariant
            k <= f.params.len(),
            fv == frags.deep_view(),
            gv == f.deep_view(),
            uses == raw_func_refs(gv),
            (p as int) < fv.len(),
            (i as int) < fv[p as int].interfaces.len(),
            params.deep_view().len() == k,
            forall|m: int|
                0 <= m < k ==> #[trigger] params.deep_view()[m] == resolve_param_fn(
                    fv,
                    p as int,
                    i as int,
                )(gv.params[m]),
            forall|m: int|
                0 <= m < k ==> ref_ok(fv, p as int, i as int, (#[trigger] gv.params[m]).ty),
        decreases f.params.len() - k,
    {
        match resolve_ref_exec(frags, p, i, &f.params[k].ty) {
            Some(tr) => {
                crate::seqs::push_dv(&mut params, Param { name: f.params[k].name.clone(), ty: tr });
            },
            None => {
                proof {
                    assert(uses[k as int] == gv.params[k as int].ty);
                }
                return Err(
                    ResolveError::Unresolved { name: field_ref_name(&f.params[k].ty) },
                );
            },
        }
        k += 1;
    }
    let results = match &f.results {
        crate::wit_parse::RawResults::NoResult => FuncResults::NoResult,
        crate::wit_parse::RawResults::Single(t) => {
            match resolve_ref_exec(frags, p, i, t) {
                Some(tr) => FuncResults::Single(tr),
                None => {
                    proof {
                        assert(uses[gv.params.len() as int] == t.deep_view());
                    }
                    return Err(ResolveError::Unresolved { name: field_ref_name(t) });
                },
            }
        },
        crate::wit_parse::RawResults::NamedResults(fs) => {
            let ghost fsv = fs.deep_view();
            let mut rs: Vec<Param> = Vec::new();
            let mut m: usize = 0;
            while m < fs.len()
                invariant
                    m <= fs.len(),
                    fv == frags.deep_view(),
                    gv == f.deep_view(),
                    fsv == fs.deep_view(),
                    uses == raw_func_refs(gv),
                    gv.results == crate::wit_parse::RawResultsView::NamedResults(fsv),
                    (p as int) < fv.len(),
                    (i as int) < fv[p as int].interfaces.len(),
                    rs.deep_view().len() == m,
                    forall|q: int|
                        0 <= q < m ==> #[trigger] rs.deep_view()[q] == resolve_param_fn(
                            fv,
                            p as int,
                            i as int,
                        )(fsv[q]),
                    forall|q: int|
                        0 <= q < m ==> ref_ok(fv, p as int, i as int, (#[trigger] fsv[q]).ty),
                decreases fs.len() - m,
            {
                match resolve_ref_exec(frags, p, i, &fs[m].ty) {
                    Some(tr) => {
                        crate::seqs::push_dv(
                            &mut rs,
                            Param { name: fs[m].name.clone(), ty: tr },
                        );
                    },
                    None => {
                        proof {
                            assert(uses[gv.params.len() + m] == fsv[m as int].ty);
                        }
                        return Err(
                            ResolveError::Unresolved { name: field_ref_name(&fs[m].ty) },
                        );
                    },
                }
                m += 1;
            }
            proof {
                assert(rs.deep_view() =~= fsv.map_values(
                    resolve_param_fn(fv, p as int, i as int),
                ));
            }
            FuncResults::NamedResults(rs)
        },
    };
    let g = Function { name: f.name.clone(), params, results };
    proof {
        assert forall|m: int| 0 <= m < uses.len() implies ref_ok(
            fv,
            p as int,
            i as int,
            #[trigger] uses[m],
        ) by {
            if m < gv.params.len() {
                assert(uses[m] == gv.params[m].ty);
            } else {
                match gv.results {
                    crate::wit_parse::RawResultsView::NoResult => {},
                    crate::wit_parse::RawResultsView::Single(t) => {
                        assert(uses[m] == t);
                    },
                    crate::wit_parse::RawResultsView::NamedResults(fsv2) => {
                        assert(uses[m] == fsv2[m - gv.params.len()].ty);
                    },
                }
            }
        }
        assert(func_refs_ok(fv, p as int, i as int, gv));
        assert(g.deep_view().params =~= gv.params.map_values(
            resolve_param_fn(fv, p as int, i as int),
        ));
        assert(g.deep_view() =~= resolve_func(fv, p as int, i as int, gv));
    }
    Ok(g)
}

/// Resolves one raw world, or reports a reference without a definition.
fn resolve_world_exec(
    frags: &Vec<crate::wit_parse::RawFile>,
    p: usize,
    w: &crate::wit_parse::RawWorld,
) -> (r: Result<World, ResolveError>)
    requires
        (p as int) < frags.deep_view().len(),
    ensures
        r matches Ok(g) ==> world_refs_ok(frags.deep_view(), p as int, w.deep_view())
            && g.deep_view() == resolve_world(frags.deep_view(), p as int, w.deep_view()),
        r is Err ==> !world_refs_ok(frags.deep_view(), p as int, w.deep_view()),
        r matches Err(e) ==> (e matches ResolveError::Unresolved { name } && world_bad_named(
            frags.deep_view(),
            p as int,
            w.deep_view(),
            name@,
        )),
{
    let ghost fv = frags.deep_view();
    let ghost wv = w.deep_view();
    let mut imports: Vec<IfaceId> = Vec::new();
    let mut k: usize = 0;
    while k < w.imports.len()
        invariant
            k <= w.imports.len(),
            fv == frags.deep_view(),
            wv == w.deep_view(),
            (p as int) < fv.len(),
            imports@.len() == k,
            forall|m: int|
                0 <= m < k ==> #[trigger] imports@[m] == resolve_iref_fn(fv, p as int)(
                    wv.imports[m],
                ),
            forall|m: int|
                0 <= m < k ==> iface_ref_ok(fv, p as int, #[trigger] wv.imports[m]),
        decreases w.imports.len() - k,
    {
        match resolve_iface_ref_exec(frags, p, &w.imports[k]) {
            Some(id) => {
                imports.push(id);
            },
            None => {
                proof {
                    assert(wv.imports[k as int] == w.imports@[k as int].deep_view());
                }
                return Err(ResolveError::Unresolved { name: iface_ref_name(&w.imports[k]) });
            },
        }
        k += 1;
    }
    let mut exports: Vec<IfaceId> = Vec::new();
    let mut k2: usize = 0;
    while k2 < w.exports.len()
        invariant
            k2 <= w.exports.len(),
            fv == frags.deep_view(),
            wv == w.deep_view(),
            (p as int) < fv.len(),
            exports@.len() == k2,
            forall|m: int|
                0 <= m < k2 ==> #[trigger] exports@[m] == resolve_iref_fn(fv, p as int)(
                    wv.exports[m],
                ),
            forall|m: int|
                0 <= m < k2 ==> iface_ref_ok(fv, p as int, #[trigger] wv.exports[m]),
        decreases w.exports.len() - k2,
    {
        match resolve_iface_ref_exec(frags, p, &w.exports[k2]) {
            Some(id) => {
                exports.push(id);
            },
            None => {
                proof {
                    assert(wv.exports[k2 as int] == w.exports@[k2 as int].deep_view());
                }
                return Err(ResolveError::Unresolved { name: iface_ref_name(&w.exports[k2]) });
            },
        }
        k2 += 1;
    }
    let g = World { name: w.name.clone(), imports, exports };
    proof {
        assert(g.deep_view().imports =~= g.imports@);
        assert(g.deep_view().exports =~= g.exports@);
        assert(g.deep_view().imports =~= wv.imports.map_values(resolve_iref_fn(fv, p as int)));
        assert(g.deep_view().exports =~= wv.exports.map_values(resolve_iref_fn(fv, p as int)));
        assert(g.deep_view() =~= resolve_world(fv, p as int, wv));
    }
    Ok(g)
}

/// The name carried by a world's interface reference, for error reporting.
fn iface_ref_name(t: &crate::wit_parse::RawIfaceRef) -> (r: String)
    ensures
        r@ == raw_iface_ref_name(t.deep_view()),
{
    match t {
        crate::wit_parse::RawIfaceRef::Local(n) => n.clone(),
        crate::wit_parse::RawIfaceRef::Qualified { iface, .. } => iface.clone(),
    }
}

/// Builds the resolved model from the fragments, or reports the first
/// reference without a definition.
fn build_model(frags: &Vec<crate::wit_parse::RawFile>) -> (r: Result<Resolved, ResolveError>)
    ensures
        r matches Ok(m) ==> refs_ok(frags.deep_view()) && m.deep_view() == resolve_model(
            frags.deep_view(),
        ),
        r is Err ==> !refs_ok(frags.deep_view()),
        r matches Err(e) ==> (e matches ResolveError::Unresolved { name } && names_undefined_ref(
            frags.deep_view(),
            name@,
        )),
{
    let ghost fv = frags.deep_view();
    let ghost model = resolve_model(fv);
    let mut packages: Vec<Package> = Vec::new();
    let mut p: usize = 0;
    while p < frags.len()
        invariant
            p <= frags.len(),
            fv == frags.deep_view(),
            model == resolve_model(fv),
            packages.deep_view().len() == p,
            forall|a: int|
                0 <= a < p ==> #[trigger] packages.deep_view()[a] == model.packages[a],
            forall|a: int, b: int, t: int|
                0 <= a < p && 0 <= b < fv[a].interfaces.len() && 0 <= t
                    < fv[a].interfaces[b].types.len() ==> shape_refs_ok(
                    fv,
                    a,
                    b,
                    (#[trigger] fv[a].interfaces[b].types[t]).shape,
                ),
            forall|a: int, b: int, g: int|
                0 <= a < p && 0 <= b < fv[a].interfaces.len() && 0 <= g
                    < fv[a].interfaces[b].funcs.len() ==> func_refs_ok(
                    fv,
                    a,
                    b,
                    #[trigger] fv[a].interfaces[b].funcs[g],
                ),
            forall|a: int, ww: int|
                0 <= a < p && 0 <= ww < fv[a].worlds.len() ==> world_refs_ok(
                    fv,
                    a,
                    #[trigger] fv[a].worlds[ww],
                ),
        decreases frags.len() - p,
    {
        let frag = &frags[p];
        proof {
            assert(frag.deep_view() == fv[p as int]);
        }
        let mut interfaces: Vec<Interface> = Vec::new();
        let mut i: usize = 0;
        while i < frag.interfaces.len()
            invariant
                i <= frag.interfaces.len(),
                p < frags@.len(),
                fv == frags.deep_view(),
                model == resolve_model(fv),
                frag == &frags@[p as int],
                frag.deep_view() == fv[p as int],
                interfaces.deep_view().len() == i,
                forall|b: int|
                    0 <= b < i ==> #[trigger] interfaces.deep_view()[b] == model.packages[
                        p as int
                    ].interfaces[b],
                forall|b: int, t: int|
                    0 <= b < i && 0 <= t < fv[p as int].interfaces[b].types.len()
                        ==> shape_refs_ok(
                        fv,
                        p as int,
                        b,
                        (#[trigger] fv[p as int].interfaces[b].types[t]).shape,
                    ),
                forall|b: int, g: int|
                    0 <= b < i && 0 <= g < fv[p as int].interfaces[b].funcs.len()
                        ==> func_refs_ok(
                        fv,
                        p as int,
                        b,
                        #[trigger] fv[p as int].interfaces[b].funcs[g],
                    ),
            decreases frag.interfaces.len() - i,
        {
            let riface = &frag.interfaces[i];
            proof {
                assert(riface.deep_view() == fv[p as int].interfaces[i as int]);
            }
            let mut types: Vec<TypeDef> = Vec::new();
            let mut t: usize = 0;
            while t < riface.types.len()
                invariant
                    t <= riface.types.len(),
                    p < frags@.len(),
                    i < frag.interfaces@.len(),
                    fv == frags.deep_view(),
                    model == resolve_model(fv),
                    frag == &frags@[p as int],
                    riface == &frag.interfaces@[i as int],
                    riface.deep_view() == fv[p as int].interfaces[i as int],
                    types.deep_view().len() == t,
                    forall|c: int|
                        0 <= c < t ==> #[trigger] types.deep_view()[c] == model.packages[
                            p as int
                        ].interfaces[i as int].types[c],
                    forall|c: int|
                        0 <= c < t ==> shape_refs_ok(
                            fv,
                            p as int,
                            i as int,
                            (#[trigger] fv[p as int].interfaces[i as int].types[c]).shape,
                        ),
                decreases riface.types.len() - t,
            {
                proof {
                    assert(riface.types@[t as int].deep_view() == fv[p as int].interfaces[
                        i as int
                    ].types[t as int]);
                }
                match resolve_shape_exec(frags, p, i, &riface.types[t].shape) {
                    Ok(sh) => {
                        crate::seqs::push_dv(
                            &mut types,
                            TypeDef { name: riface.types[t].name.clone(), shape: sh },
                        );
                        proof {
                            assert(types.deep_view()[t as int] =~= model.packages[
                                p as int
                            ].interfaces[i as int].types[t as int]);
                        }
                    },
                    Err(e) => {
                        return Err(e);
                    },
                }
                t += 1;
            }
            let mut funcs: Vec<Function> = Vec::new();
            let mut g: usize = 0;
            while g < riface.funcs.len()
                invariant
                    g <= riface.funcs.len(),
                    p < frags@.len(),
                    i < frag.interfaces@.len(),
                    fv == frags.deep_view(),
                    model == resolve_model(fv),
                    frag == &frags@[p as int],
                    riface == &frag.interfaces@[i as int],
                    riface.deep_view() == fv[p as int].interfaces[i as int],
                    funcs.deep_view().len() == g,
                    forall|c: int|
                        0 <= c < g ==> #[trigger] funcs.deep_view()[c] == model.packages[
                            p as int
                        ].interfaces[i as int].funcs[c],
                    forall|c: int|
                        0 <= c < g ==> func_refs_ok(
                            fv,
                            p as int,
                            i as int,
                            #[trigger] fv[p as int].interfaces[i as int].funcs[c],
                        ),
                decreases riface.funcs.len() - g,
            {
                proof {
                    assert(riface.funcs@[g as int].deep_view() == fv[p as int].interfaces[
                        i as int
                    ].funcs[g as int]);
                }
                match resolve_func_exec(frags, p, i, &riface.funcs[g]) {
                    Ok(rf) => {
                        crate::seqs::push_dv(&mut funcs, rf);
                        proof {
                            assert(funcs.deep_view()[g as int] =~= model.packages[
                                p as int
                            ].interfaces[i as int].funcs[g as int]);
                        }
                    },
                    Err(e) => {
                        return Err(e);
                    },
                }
                g += 1;
            }
            let built = Interface { name: riface.name.clone(), types, funcs };
            proof {
                assert(built.deep_view() =~= model.packages[p as int].interfaces[i as int]);
            }
            crate::seqs::push_dv(&mut interfaces, built);
            i += 1;
        }
        let mut worlds: Vec<World> = Vec::new();
        let mut ww: usize = 0;
        while ww < frag.worlds.len()
            invariant
                ww <= frag.worlds.len(),
                p < frags@.len(),
                fv == frags.deep_view(),
                model == resolve_model(fv),
                frag == &frags@[p as int],
                frag.deep_view() == fv[p as int],
                worlds.deep_view().len() == ww,
                forall|c: int|
                    0 <= c < ww ==> #[trigger] worlds.deep_view()[c] == model.packages[
                        p as int
                    ].worlds[c],
                forall|c: int|
                    0 <= c < ww ==> world_refs_ok(
                        fv,
                        p as int,
                        #[trigger] fv[p as int].worlds[c],
                    ),
            decreases frag.worlds.len() - ww,
        {
            proof {
                assert(frag.worlds@[ww as int].deep_view() == fv[p as int].worlds[ww as int]);
            }
            match resolve_world_exec(frags, p, &frag.worlds[ww]) {
                Ok(rw) => {
                    crate::seqs::push_dv(&mut worlds, rw);
                    proof {
                        assert(worlds.deep_view()[ww as int] =~= model.packages[
                            p as int
                        ].worlds[ww as int]);
                    }
                },
                Err(e) => {
                    return Err(e);
                },
            }
            ww += 1;
        }
        let built_pkg = Package {
            name: PackageName {
                namespace: frag.namespace.clone(),
                name: frag.pkg.clone(),
                version: match &frag.version {
                    Some(v) => Some(v.clone()),
                    None => None,
                },
            },
            interfaces,
            worlds,
        };
        proof {
            assert(built_pkg.deep_view() =~= model.packages[p as int]);
        }
        crate::seqs::push_dv(&mut packages, built_pkg);
        p += 1;
    }
    let m = Resolved { packages, root: 0 };
    proof {
        assert(m.deep_view() =~= model);
        assert(refs_ok(fv));
    }
    Ok(m)
}

/// Whether every table of the fragments fits a machine word, as anything
/// held in vectors does.
pub open spec fn frags_fit(frags: Seq<crate::wit_parse::RawFileView>) -> bool {
    &&& frags.len() <= usize::MAX
    &&& forall|p: int|
        0 <= p < frags.len() ==> (#[trigger] frags[p]).interfaces.len() <= usize::MAX
    &&& forall|p: int, i: int|
        0 <= p < frags.len() && 0 <= i < frags[p].interfaces.len() ==> (#[trigger] frags[
            p
        ].interfaces[i]).types.len() <= usize::MAX
}

/// A resolvable reference resolves to a position that exists in the model.
proof fn lemma_ref_ok_wf(
    frags: Seq<crate::wit_parse::RawFileView>,
    p: int,
    i: int,
    t: crate::wit_parse::RawRefView,
)
    requires
        0 <= p < frags.len(),
        0 <= i < frags[p].interfaces.len(),
        ref_ok(frags, p, i, t),
        frags_fit(frags),
    ensures
        type_ref_wf(resolve_model(frags), resolve_ref(frags, p, i, t)),
{
    let m = resolve_model(frags);
    match t {
        crate::wit_parse::RawRefView::PrimRef(_) => {},
        crate::wit_parse::RawRefView::Local(n) => {
            lemma_find_type_bounds(frags[p].interfaces[i].types, n);
            assert(m.packages[p].interfaces.len() == frags[p].interfaces.len());
            assert(m.packages[p].interfaces[i].types.len() == frags[p].interfaces[i].types.len());
        },
        crate::wit_parse::RawRefView::Qualified { ns, pkg, iface, ty } => {
            let fp = find_frag(frags, ns, pkg, 0);
            let fi = find_iface(frags[fp].interfaces, iface, 0);
            lemma_find_frag_bounds(frags, ns, pkg);
            lemma_find_iface_bounds(frags[fp].interfaces, iface);
            lemma_find_type_bounds(frags[fp].interfaces[fi].types, ty);
            assert(m.packages[fp].interfaces.len() == frags[fp].interfaces.len());
            assert(m.packages[fp].interfaces[fi].types.len() == frags[fp].interfaces[
                fi
            ].types.len());
        },
    }
}

/// `find_frag` never lands past the length.
proof fn lemma_find_frag_bounds(
    frags: Seq<crate::wit_parse::RawFileView>,
    ns: Seq<char>,
    pkg: Seq<char>,
)
    ensures
        0 <= find_frag(frags, ns, pkg, 0) <= frags.len(),
{
    lemma_find_frag_from(frags, ns, pkg, 0);
}

proof fn lemma_find_frag_from(
    frags: Seq<crate::wit_parse::RawFileView>,
    ns: Seq<char>,
    pkg: Seq<char>,
    i: int,
)
    requires
        0 <= i <= frags.len(),
    ensures
        i <= find_frag(frags, ns, pkg, i) <= frags.len(),
    decreases frags.len() - i,
{
    if i < frags.len() && !(frags[i].namespace == ns && frags[i].pkg == pkg) {
        lemma_find_frag_from(frags, ns, pkg, i + 1);
    }
}

/// `find_iface` never lands past the length.
proof fn lemma_find_iface_bounds(
    ifaces: Seq<crate::wit_parse::RawInterfaceView>,
    name: Seq<char>,
)
    ensures
        0 <= find_iface(ifaces, name, 0) <= ifaces.len(),
{
    lemma_find_iface_from(ifaces, name, 0);
}

proof fn lemma_find_iface_from(
    ifaces: Seq<crate::wit_parse::RawInterfaceView>,
    name: Seq<char>,
    i: int,
)
    requires
        0 <= i <= ifaces.len(),
    ensures
        i <= find_iface(ifaces, name, i) <= ifaces.len(),
    decreases ifaces.len() - i,
{
    if i < ifaces.len() && !(ifaces[i].name == name) {
        lemma_find_iface_from(ifaces, name, i + 1);
    }
}

/// `find_type` never lands past the length.
proof fn lemma_find_type_bounds(types: Seq<crate::wit_parse::RawTypeDefView>, name: Seq<char>)
    ensures
        0 <= find_type(types, name, 0) <= types.len(),
{
    lemma_find_type_from(types, name, 0);
}

proof fn lemma_find_type_from(
    types: Seq<crate::wit_parse::RawTypeDefView>,
    name: Seq<char>,
    i: int,
)
    requires
        0 <= i <= types.len(),
    ensures
        i <= find_type(types, name, i) <= types.len(),
    decreases types.len() - i,
{
    if i < types.len() && !(types[i].name == name) {
        lemma_find_type_from(types, name, i + 1);
    }
}

/// A resolvable interface reference resolves to a position that exists.
proof fn lemma_iface_ref_ok_wf(
    frags: Seq<crate::wit_parse::RawFileView>,
    p: int,
    t: crate::wit_parse::RawIfaceRefView,
)
    requires
        0 <= p < frags.len(),
        iface_ref_ok(frags, p, t),
        frags_fit(frags),
    ensures
        iface_id_wf(resolve_model(frags), resolve_iface_ref(frags, p, t)),
{
    let m = resolve_model(frags);
    match t {
        crate::wit_parse::RawIfaceRefView::Local(n) => {
            lemma_find_iface_bounds(frags[p].interfaces, n);
            assert(m.packages[p].interfaces.len() == frags[p].interfaces.len());
        },
        crate::wit_parse::RawIfaceRefView::Qualified { ns, pkg, iface } => {
            let fp = find_frag(frags, ns, pkg, 0);
            lemma_find_frag_bounds(frags, ns, pkg);
            lemma_find_iface_bounds(frags[fp].interfaces, iface);
            assert(m.packages[fp].interfaces.len() == frags[fp].interfaces.len());
        },
    }
}

/// Resolving a variant commutes with listing its references.
proof fn lemma_variant_resolved_refs(
    frags: Seq<crate::wit_parse::RawFileView>,
    p: int,
    i: int,
    cs: Seq<crate::wit_parse::RawCaseView>,
)
    ensures
        cs.map_values(resolve_case_fn(frags, p, i)).filter_map(case_ty_fn())
            =~= cs.filter_map(raw_case_ty_fn()).map_values(resolve_tr_fn(frags, p, i)),
    decreases cs.len(),
{
    let lhs = cs.map_values(resolve_case_fn(frags, p, i)).filter_map(case_ty_fn());
    let rhs = cs.filter_map(raw_case_ty_fn()).map_values(resolve_tr_fn(frags, p, i));
    if cs.len() == 0 {
        assert(cs.map_values(resolve_case_fn(frags, p, i)) =~= Seq::<CaseView>::empty());
        assert(cs.filter_map(raw_case_ty_fn()) =~= Seq::<crate::wit_parse::RawRefView>::empty());
        assert(lhs =~= rhs);
    } else {
        lemma_variant_resolved_refs(frags, p, i, cs.drop_last());
        let m = cs.map_values(resolve_case_fn(frags, p, i));
        assert(m.drop_last() =~= cs.drop_last().map_values(resolve_case_fn(frags, p, i)));
        assert(m.last() == resolve_case_fn(frags, p, i)(cs.last()));
        match cs.last().ty {
            Some(t) => {
                assert(lhs =~= rhs);
            },
            None => {
                assert(lhs =~= rhs);
            },
        }
    }
}

/// Resolving any shape commutes with listing its references.
proof fn lemma_shape_resolved_refs(
    frags: Seq<crate::wit_parse::RawFileView>,
    p: int,
    i: int,
    shape: crate::wit_parse::RawShapeView,
)
    ensures
        shape_refs(resolve_shape(frags, p, i, shape)) =~= raw_shape_refs(shape).map_values(
            resolve_tr_fn(frags, p, i),
        ),
{
    match shape {
        crate::wit_parse::RawShapeView::Variant(cs) => {
            lemma_variant_resolved_refs(frags, p, i, cs);
        },
        _ => {
            assert(shape_refs(resolve_shape(frags, p, i, shape)) =~= raw_shape_refs(
                shape,
            ).map_values(resolve_tr_fn(frags, p, i)));
        },
    }
}

/// A model built from fragments whose references all resolve is well-formed.
pub proof fn lemma_model_wf(frags: Seq<crate::wit_parse::RawFileView>)
    requires
        frags.len() > 0,
        refs_ok(frags),
        frags_fit(frags),
    ensures
        resolved_wf(resolve_model(frags)),
{
    let m = resolve_model(frags);
    assert forall|p: int, i: int, t: int|
        0 <= p < m.packages.len() && 0 <= i < m.packages[p].interfaces.len() && 0 <= t
            < m.packages[p].interfaces[i].types.len() implies shape_wf(
        m,
        (#[trigger] m.packages[p].interfaces[i].types[t]).shape,
    ) by {
        let rshape = frags[p].interfaces[i].types[t].shape;
        assert(m.packages[p].interfaces[i].types[t].shape == resolve_shape(frags, p, i, rshape));
        lemma_shape_resolved_refs(frags, p, i, rshape);
        assert(shape_refs_ok(frags, p, i, rshape));
        assert forall|k: int|
            0 <= k < shape_refs(resolve_shape(frags, p, i, rshape)).len() implies type_ref_wf(
            m,
            #[trigger] shape_refs(resolve_shape(frags, p, i, rshape))[k],
        ) by {
            assert(ref_ok(frags, p, i, raw_shape_refs(rshape)[k]));
            lemma_ref_ok_wf(frags, p, i, raw_shape_refs(rshape)[k]);
        }
    }
    assert forall|p: int, i: int, f: int|
        0 <= p < m.packages.len() && 0 <= i < m.packages[p].interfaces.len() && 0 <= f
            < m.packages[p].interfaces[i].funcs.len() implies func_wf(
        m,
        #[trigger] m.packages[p].interfaces[i].funcs[f],
    ) by {
        let rf = frags[p].interfaces[i].funcs[f];
        assert(m.packages[p].interfaces[i].funcs[f] == resolve_func(frags, p, i, rf));
        assert(func_refs_ok(frags, p, i, rf));
        let g = resolve_func(frags, p, i, rf);
        assert forall|k: int| 0 <= k < g.params.len() implies type_ref_wf(
            m,
            (#[trigger] g.params[k]).ty,
        ) by {
            assert(raw_func_refs(rf)[k] == rf.params[k].ty);
            assert(ref_ok(frags, p, i, rf.params[k].ty));
            lemma_ref_ok_wf(frags, p, i, rf.params[k].ty);
        }
        match rf.results {
            crate::wit_parse::RawResultsView::NoResult => {},
            crate::wit_parse::RawResultsView::Single(t) => {
                assert(raw_func_refs(rf)[rf.params.len() as int] == t);
                assert(ref_ok(frags, p, i, t));
                lemma_ref_ok_wf(frags, p, i, t);
            },
            crate::wit_parse::RawResultsView::NamedResults(fs) => {
                match g.results {
                    FuncResultsView::NamedResults(ps) => {
                        assert forall|k: int| 0 <= k < ps.len() implies type_ref_wf(
                            m,
                            (#[trigger] ps[k]).ty,
                        ) by {
                            assert(raw_func_refs(rf)[rf.params.len() + k] == fs[k].ty);
                            assert(ref_ok(frags, p, i, fs[k].ty));
                            lemma_ref_ok_wf(frags, p, i, fs[k].ty);
                            assert(ps[k].ty == resolve_ref(frags, p, i, fs[k].ty));
                        }
                    },
                    _ => {},
                }
            },
        }
    }
    assert forall|p: int, w: int|
        0 <= p < m.packages.len() && 0 <= w < m.packages[p].worlds.len() implies world_wf(
        m,
        #[trigger] m.packages[p].worlds[w],
    ) by {
        let rw = frags[p].worlds[w];
        assert(m.packages[p].worlds[w] == resolve_world(frags, p, rw));
        assert(world_refs_ok(frags, p, rw));
        let g = resolve_world(frags, p, rw);
        assert forall|k: int| 0 <= k < g.imports.len() implies iface_id_wf(
            m,
            #[trigger] g.imports[k],
        ) by {
            assert(iface_ref_ok(frags, p, rw.imports[k]));
            lemma_iface_ref_ok_wf(frags, p, rw.imports[k]);
        }
        assert forall|k: int| 0 <= k < g.exports.len() implies iface_id_wf(
            m,
            #[trigger] g.exports[k],
        ) by {
            assert(iface_ref_ok(frags, p, rw.exports[k]));
            lemma_iface_ref_ok_wf(frags, p, rw.exports[k]);
        }
    }
}

/// Decides whether every reference of the type at `id` bottoms out within
/// `fuel` dereferences.
fn grounded_exec(r: &Resolved, id: TypeId, fuel: usize) -> (b: bool)
    requires
        resolved_wf(r.deep_view()),
        type_id_wf(r.deep_view(), id),
    ensures
        b == grounded(r.deep_view(), id, fuel as nat),
    decreases fuel,
{
    let ghost rv = r.deep_view();
    let td = &r.packages[id.pkg].interfaces[id.iface].types[id.idx];
    proof {
        assert(r.packages.deep_view()[id.pkg as int] == r.packages@[id.pkg as int].deep_view());
        assert(r.packages@[id.pkg as int].interfaces.deep_view()[id.iface as int] == r.packages@[
            id.pkg as int
        ].interfaces@[id.iface as int].deep_view());
        assert(td.deep_view() == type_at(rv, id));
        assert(shape_wf(rv, type_at(rv, id).shape));
    }
    let refs = crate::stub::shape_refs_exec(&td.shape);
    let mut k: usize = 0;
    while k < refs.len()
        invariant
            k <= refs.len(),
            rv == r.deep_view(),
            resolved_wf(rv),
            type_id_wf(rv, id),
            refs@ == shape_refs(type_at(rv, id).shape),
            shape_wf(rv, type_at(rv, id).shape),
            forall|t: int| 0 <= t < k ==> ref_grounded(rv, #[trigger] refs@[t], fuel as nat),
        decreases refs.len() - k,
    {
        match refs[k] {
            TypeRef::Named(id2) => {
                proof {
                    assert(type_ref_wf(rv, refs@[k as int]));
                }
                if fuel == 0 {
                    proof {
                        assert(!ref_grounded(rv, refs@[k as int], fuel as nat));
                    }
                    return false;
                }
                if !grounded_exec(r, id2, fuel - 1) {
                    proof {
                        assert(!ref_grounded(rv, refs@[k as int], fuel as nat));
                    }
                    return false;
                }
                proof {
                    assert(ref_grounded(rv, refs@[k as int], fuel as nat));
                }
            },
            _ => {},
        }
        k += 1;
    }
    true
}

/// The names of every type definition that does not bottom out within
/// `fuel` dereferences: the participants of reference cycles and everything
/// depending on them, in table order.
pub open spec fn cyclic_names(r: ResolvedView, fuel: nat) -> Seq<Seq<char>> {
    cyc_pkgs(r, 0, fuel)
}

/// The ungrounded type names of the packages from `p` on.
pub open spec fn cyc_pkgs(r: ResolvedView, p: int, fuel: nat) -> Seq<Seq<char>>
    decreases r.packages.len() - p,
{
    if p < 0 || p >= r.packages.len() {
        Seq::empty()
    } else {
        cyc_ifaces(r, p, 0, fuel) + cyc_pkgs(r, p + 1, fuel)
    }
}

/// The ungrounded type names of one package's interfaces from `i` on.
pub open spec fn cyc_ifaces(r: ResolvedView, p: int, i: int, fuel: nat) -> Seq<Seq<char>>
    decreases r.packages[p].interfaces.len() - i,
{
    if p < 0 || p >= r.packages.len() || i < 0 || i >= r.packages[p].interfaces.len() {
        Seq::empty()
    } else {
        cyc_types(r, p, i, 0, fuel) + cyc_ifaces(r, p, i + 1, fuel)
    }
}

/// The ungrounded type names of one interface from `t` on.
pub open spec fn cyc_types(r: ResolvedView, p: int, i: int, t: int, fuel: nat) -> Seq<Seq<char>>
    decreases r.packages[p].interfaces[i].types.len() - t,
{
    if p < 0 || p >= r.packages.len() || i < 0 || i >= r.packages[p].interfaces.len() || t < 0
        || t >= r.packages[p].interfaces[i].types.len() {
        Seq::empty()
    } else {
        (if grounded_at(r, p, i, t, fuel) {
            Seq::empty()
        } else {
            seq![r.packages[p].interfaces[i].types[t].name]
        }) + cyc_types(r, p, i, t + 1, fuel)
    }
}

/// Names every type definition that does not bottom out: the participants of
/// reference cycles and everything depending on them. An empty answer means
/// the graph is acyclic.
fn check_cycles(r: &Resolved, fuel: usize) -> (names: Vec<String>)
    requires
        resolved_wf(r.deep_view()),
    ensures
        names.deep_view() == cyclic_names(r.deep_view(), fuel as nat),
        (names@.len() == 0) <==> all_grounded(r.deep_view(), fuel as nat),
{
    let ghost rv = r.deep_view();
    let mut names: Vec<String> = Vec::new();
    let mut p: usize = 0;
    while p < r.packages.len()
        invariant
            p <= r.packages.len(),
            rv == r.deep_view(),
            resolved_wf(rv),
            (names@.len() == 0) <==> (forall|a: int, b: int, c: int|
                0 <= a < p && 0 <= b < rv.packages[a].interfaces.len() && 0 <= c
                    < rv.packages[a].interfaces[b].types.len() ==> #[trigger] grounded_at(
                    rv,
                    a,
                    b,
                    c,
                    fuel as nat,
                )),
            names.deep_view() + cyc_pkgs(rv, p as int, fuel as nat) == cyclic_names(
                rv,
                fuel as nat,
            ),
        decreases r.packages.len() - p,
    {
        let ifaces = &r.packages[p].interfaces;
        proof {
            assert(ifaces.deep_view() == rv.packages[p as int].interfaces);
            assert(names.deep_view() + cyc_ifaces(rv, p as int, 0, fuel as nat) + cyc_pkgs(
                rv,
                p as int + 1,
                fuel as nat,
            ) =~= cyclic_names(rv, fuel as nat));
        }
        let mut i: usize = 0;
        while i < ifaces.len()
            invariant
                i <= ifaces.len(),
                p < r.packages.len(),
                rv == r.deep_view(),
                resolved_wf(rv),
                ifaces.deep_view() == rv.packages[p as int].interfaces,
                (names@.len() == 0) <==> ((forall|a: int, b: int, c: int|
                    0 <= a < p && 0 <= b < rv.packages[a].interfaces.len() && 0 <= c
                        < rv.packages[a].interfaces[b].types.len() ==> #[trigger] grounded_at(
                        rv,
                        a,
                        b,
                        c,
                        fuel as nat,
                    )) && (forall|b: int, c: int|
                    0 <= b < i && 0 <= c < rv.packages[p as int].interfaces[b].types.len()
                        ==> #[trigger] grounded_at(rv, p as int, b, c, fuel as nat))),
                names.deep_view() + cyc_ifaces(rv, p as int, i as int, fuel as nat) + cyc_pkgs(
                    rv,
                    p as int + 1,
                    fuel as nat,
                ) == cyclic_names(rv, fuel as nat),
            decreases ifaces.len() - i,
        {
            let types = &ifaces[i].types;
            proof {
                assert(types.deep_view() == rv.packages[p as int].interfaces[i as int].types);
                assert(names.deep_view() + cyc_types(rv, p as int, i as int, 0, fuel as nat)
                    + cyc_ifaces(rv, p as int, i as int + 1, fuel as nat) + cyc_pkgs(
                    rv,
                    p as int + 1,
                    fuel as nat,
                ) =~= cyclic_names(rv, fuel as nat));
            }
            let mut t: usize = 0;
            while t < types.len()
                invariant
                    t <= types.len(),
                    p < r.packages.len(),
                    i < ifaces@.len(),
                    rv == r.deep_view(),
                    resolved_wf(rv),
                    ifaces.deep_view() == rv.packages[p as int].interfaces,
                    types == &ifaces@[i as int].types,
                    types.deep_view() == rv.packages[p as int].interfaces[i as int].types,
                    (names@.len() == 0) <==> ((forall|a: int, b: int, c: int|
                        0 <= a < p && 0 <= b < rv.packages[a].interfaces.len() && 0 <= c
                            < rv.packages[a].interfaces[b].types.len() ==> #[trigger] grounded_at(
                            rv,
                            a,
                            b,
                            c,
                            fuel as nat,
                        )) && (forall|b: int, c: int|
                        0 <= b < i && 0 <= c < rv.packages[p as int].interfaces[b].types.len()
                            ==> #[trigger] grounded_at(rv, p as int, b, c, fuel as nat)) && (
                    forall|c: int|
                        0 <= c < t ==> #[trigger] grounded_at(rv, p as int, i as int, c, fuel as nat))),
                    names.deep_view() + cyc_types(rv, p as int, i as int, t as int, fuel as nat)
                        + cyc_ifaces(rv, p as int, i as int + 1, fuel as nat) + cyc_pkgs(
                        rv,
                        p as int + 1,
                        fuel as nat,
                    ) == cyclic_names(rv, fuel as nat),
                decreases types.len() - t,
            {
                let id = TypeId { pkg: p, iface: i, idx: t };
                proof {
                    assert(type_id_wf(rv, id));
                }
                if !grounded_exec(r, id, fuel) {
                    proof {
                        assert(!grounded_at(rv, p as int, i as int, t as int, fuel as nat));
                    }
                    crate::seqs::push_dv(&mut names, types[t].name.clone());
                    proof {
                        assert(names.deep_view() + cyc_types(
                            rv,
                            p as int,
                            i as int,
                            t as int + 1,
                            fuel as nat,
                        ) + cyc_ifaces(rv, p as int, i as int + 1, fuel as nat) + cyc_pkgs(
                            rv,
                            p as int + 1,
                            fuel as nat,
                        ) =~= cyclic_names(rv, fuel as nat));
                    }
                } else {
                    proof {
                        assert(names.deep_view() + cyc_types(
                            rv,
                            p as int,
                            i as int,
                            t as int + 1,
                            fuel as nat,
                        ) + cyc_ifaces(rv, p as int, i as int + 1, fuel as nat) + cyc_pkgs(
                            rv,
                            p as int + 1,
                            fuel as nat,
                        ) =~= cyclic_names(rv, fuel as nat));
                    }
                }
                t += 1;
            }
            proof {
                assert(cyc_types(rv, p as int, i as int, types@.len() as int, fuel as nat) =~= Seq::<
                    Seq<char>,
                >::empty());
                assert(names.deep_view() + cyc_ifaces(rv, p as int, i as int + 1, fuel as nat)
                    + cyc_pkgs(rv, p as int + 1, fuel as nat) =~= cyclic_names(rv, fuel as nat));
            }
            i += 1;
        }
        proof {
            assert(cyc_ifaces(rv, p as int, ifaces@.len() as int, fuel as nat) =~= Seq::<
                Seq<char>,
            >::empty());
            assert(names.deep_view() + cyc_pkgs(rv, p as int + 1, fuel as nat) =~= cyclic_names(
                rv,
                fuel as nat,
            ));
        }
        p += 1;
    }
    proof {
        assert(cyc_pkgs(rv, r.packages@.len() as int, fuel as nat) =~= Seq::<Seq<char>>::empty());
        assert(names.deep_view() =~= cyclic_names(rv, fuel as nat));
    }
    names
}


/// Merges the parsed fragments by package: trees belonging to the same
/// package combine into one package, in order of first declaration.
fn merge_fragments(frags: &Vec<crate::wit_parse::RawFile>) -> (out: Vec<crate::wit_parse::RawFile>)
    ensures
        out.deep_view() == merged_frags(frags.deep_view()),
{
    let ghost fv = frags.deep_view();
    let mut out: Vec<crate::wit_parse::RawFile> = Vec::new();
    let mut i: usize = 0;
    while i < frags.len()
        invariant
            i <= frags.len(),
            fv == frags.deep_view(),
            out.deep_view() == idx_seq(i as int).filter(first_pred(fv)).map_values(
                merge_at_fn(fv),
            ),
        decreases frags.len() - i,
    {
        let mut first: bool = true;
        let mut j: usize = 0;
        while j < i
            invariant
                j <= i,
                i < frags@.len(),
                fv == frags.deep_view(),
                first <==> (forall|k: int| 0 <= k < j ==> !same_pkg(#[trigger] fv[k], fv[i as int])),
            decreases i - j,
        {
            if crate::text::str_eq(frags[j].namespace.as_str(), frags[i].namespace.as_str())
                && crate::text::str_eq(frags[j].pkg.as_str(), frags[i].pkg.as_str()) {
                proof {
                    assert(same_pkg(fv[j as int], fv[i as int]));
                }
                first = false;
            }
            j += 1;
        }
        proof {
            assert(first == is_first_frag(fv, i as int));
            reveal(Seq::filter);
            assert(idx_seq(i as int + 1).drop_last() =~= idx_seq(i as int));
            assert(idx_seq(i as int + 1).last() == i as int);
        }
        if first {
            let ghost ns = fv[i as int].namespace;
            let ghost pkg = fv[i as int].pkg;
            let mut interfaces: Vec<crate::wit_parse::RawInterface> = Vec::new();
            let mut worlds: Vec<crate::wit_parse::RawWorld> = Vec::new();
            let mut k: usize = 0;
            while k < frags.len()
                invariant
                    k <= frags.len(),
                    i < frags@.len(),
                    fv == frags.deep_view(),
                    ns == fv[i as int].namespace,
                    pkg == fv[i as int].pkg,
                    interfaces.deep_view() == concat_ifaces(fv.take(k as int), ns, pkg),
                    worlds.deep_view() == concat_worlds(fv.take(k as int), ns, pkg),
                decreases frags.len() - k,
            {
                proof {
                    assert(fv.take(k as int + 1).drop_last() =~= fv.take(k as int));
                    assert(fv.take(k as int + 1).last() == fv[k as int]);
                }
                if crate::text::str_eq(frags[k].namespace.as_str(), frags[i].namespace.as_str())
                    && crate::text::str_eq(frags[k].pkg.as_str(), frags[i].pkg.as_str()) {
                    let ghost ibase = interfaces.deep_view();
                    let mut m: usize = 0;
                    while m < frags[k].interfaces.len()
                        invariant
                            m <= frags[k as int].interfaces@.len(),
                            k < frags@.len(),
                            fv == frags.deep_view(),
                            ibase == interfaces.deep_view().take(ibase.len() as int),
                            interfaces.deep_view() == ibase + fv[k as int].interfaces.take(
                                m as int,
                            ),
                        decreases frags[k as int].interfaces@.len() - m,
                    {
                        let x = crate::wit_parse::copy_raw_interface(&frags[k].interfaces[m]);
                        proof {
                            assert(x.deep_view() == fv[k as int].interfaces[m as int]);
                        }
                        crate::seqs::push_dv(&mut interfaces, x);
                        proof {
                            assert(interfaces.deep_view() =~= ibase + fv[k as int].interfaces.take(
                                m as int + 1,
                            ));
                        }
                        m += 1;
                    }
                    proof {
                        assert(fv[k as int].interfaces.take(fv[k as int].interfaces.len() as int)
                            =~= fv[k as int].interfaces);
                        assert(interfaces.deep_view() =~= concat_ifaces(
                            fv.take(k as int + 1),
                            ns,
                            pkg,
                        ));
                    }
                    let ghost wbase = worlds.deep_view();
                    let mut q: usize = 0;
                    while q < frags[k].worlds.len()
                        invariant
                            q <= frags[k as int].worlds@.len(),
                            k < frags@.len(),
                            fv == frags.deep_view(),
                            worlds.deep_view() == wbase + fv[k as int].worlds.take(q as int),
                        decreases frags[k as int].worlds@.len() - q,
                    {
                        let x = crate::wit_parse::copy_raw_world(&frags[k].worlds[q]);
                        proof {
                            assert(x.deep_view() == fv[k as int].worlds[q as int]);
                        }
                        crate::seqs::push_dv(&mut worlds, x);
                        proof {
                            assert(worlds.deep_view() =~= wbase + fv[k as int].worlds.take(
                                q as int + 1,
                            ));
                        }
                        q += 1;
                    }
                    proof {
                        assert(fv[k as int].worlds.take(fv[k as int].worlds.len() as int) =~= fv[
                            k as int
                        ].worlds);
                        assert(worlds.deep_view() =~= concat_worlds(fv.take(k as int + 1), ns, pkg));
                    }
                } else {
                    proof {
                        assert(interfaces.deep_view() =~= concat_ifaces(
                            fv.take(k as int + 1),
                            ns,
                            pkg,
                        ));
                        assert(worlds.deep_view() =~= concat_worlds(fv.take(k as int + 1), ns, pkg));
                    }
                }
                k += 1;
            }
            proof {
                assert(fv.take(frags@.len() as int) =~= fv);
            }
            let merged = crate::wit_parse::RawFile {
                namespace: frags[i].namespace.clone(),
                pkg: frags[i].pkg.clone(),
                version: match &frags[i].version {
                    Some(v) => Some(v.clone()),
                    None => None,
                },
                interfaces,
                worlds,
            };
            proof {
                assert(merged.deep_view() =~= merge_at(fv, i as int));
            }
            crate::seqs::push_dv(&mut out, merged);
            proof {
                assert(out.deep_view() =~= idx_seq(i as int + 1).filter(first_pred(fv)).map_values(
                    merge_at_fn(fv),
                ));
            }
        } else {
            proof {
                assert(out.deep_view() =~= idx_seq(i as int + 1).filter(first_pred(fv)).map_values(
                    merge_at_fn(fv),
                ));
            }
        }
        i += 1;
    }
    proof {
        assert(idx_seq(frags@.len() as int) =~= idx_seq(fv.len() as int));
    }
    out
}

/// Resolves an interface-description root: parses every file, merges the
/// trees belonging to the same package, resolves every reference across
/// files and packages, and rejects cyclic type references, naming the
/// participating types. A pure function of the given file contents. The
/// first file's package is the root the run works on.
pub fn resolve(files: &Vec<crate::files::FileEntry>) -> (r: Result<Resolved, ResolveError>)
    ensures
        (r is Ok) <==> resolve_ok(files.deep_view()),
        r matches Ok(m) ==> m.deep_view() == resolve_spec(files.deep_view()),
        r matches Ok(m) ==> resolved_wf(m.deep_view()),
        r matches Ok(m) ==> crate::stub::total_types(m.deep_view()) <= usize::MAX
            && all_grounded(m.deep_view(), crate::stub::total_types(m.deep_view()) as nat),
        files.deep_view().len() == 0 ==> r == Err::<Resolved, ResolveError>(
            ResolveError::EmptyRoot,
        ),
        files.deep_view().len() > 0 && parse_all(files.deep_view(), 0) is Err ==> (
        r matches Err(e) && e.deep_view() == parse_all(files.deep_view(), 0)->Err_0),
        files.deep_view().len() > 0 && parse_all(files.deep_view(), 0) is Ok && !refs_ok(
            merged_frags(parse_all(files.deep_view(), 0)->Ok_0),
        ) ==> (r matches Err(e) && e matches ResolveError::Unresolved { name }
            && names_undefined_ref(
            merged_frags(parse_all(files.deep_view(), 0)->Ok_0),
            name@,
        )),
        files.deep_view().len() > 0 && parse_all(files.deep_view(), 0) is Ok && refs_ok(
            merged_frags(parse_all(files.deep_view(), 0)->Ok_0),
        ) && crate::stub::total_types(resolve_spec(files.deep_view())) > usize::MAX ==> (
        r matches Err(e) && e is TooManyTypes),
        files.deep_view().len() > 0 && parse_all(files.deep_view(), 0) is Ok && refs_ok(
            merged_frags(parse_all(files.deep_view(), 0)->Ok_0),
        ) && crate::stub::total_types(resolve_spec(files.deep_view())) <= usize::MAX
            && !all_grounded(
            resolve_spec(files.deep_view()),
            crate::stub::total_types(resolve_spec(files.deep_view())) as nat,
        ) ==> (r matches Err(e) && e matches ResolveError::CyclicType { names }
            && names.deep_view() == cyclic_names(
            resolve_spec(files.deep_view()),
            crate::stub::total_types(resolve_spec(files.deep_view())) as nat,
        )),
{
    let ghost filesv = files.deep_view();
    if files.len() == 0 {
        return Err(ResolveError::EmptyRoot);
    }
    let mut frags: Vec<crate::wit_parse::RawFile> = Vec::new();
    let mut i: usize = 0;
    while i < files.len()
        invariant
            i <= files.len(),
            filesv == files.deep_view(),
            frags.deep_view().len() == i,
            parse_all(filesv, 0) == (match parse_all(filesv, i as int) {
                Ok(rest) => Ok::<Seq<crate::wit_parse::RawFileView>, ResolveErrorView>(
                    frags.deep_view() + rest,
                ),
                Err(e) => Err(e),
            }),
        decreases files.len() - i,
    {
        proof {
            assert(files@[i as int].deep_view() == filesv[i as int]);
        }
        match crate::wit_parse::parse_file(files[i].content.as_str()) {
            Ok(f) => {
                let ghost fdv = f.deep_view();
                let ghost prev = frags.deep_view();
                crate::seqs::push_dv(&mut frags, f);
                proof {
                    assert forall|rest: Seq<crate::wit_parse::RawFileView>| #[trigger] (
                    frags.deep_view() + rest) == prev + (seq![fdv] + rest) by {
                        assert(frags.deep_view() + rest =~= prev + (seq![fdv] + rest));
                    }
                }
            },
            Err(e) => {
                let err = ResolveError::ParseError { path: files[i].path.clone(), err: e };
                proof {
                    assert(parse_all(filesv, i as int) matches Err(x) && x == err.deep_view());
                    assert(parse_all(filesv, 0) is Err);
                }
                return Err(err);
            },
        }
        i += 1;
    }
    proof {
        assert(parse_all(filesv, files.len() as int) == Ok::<
            Seq<crate::wit_parse::RawFileView>,
            ResolveErrorView,
        >(Seq::empty()));
        assert(frags.deep_view() + Seq::<crate::wit_parse::RawFileView>::empty()
            =~= frags.deep_view());
        assert(parse_all(filesv, 0) == Ok::<Seq<crate::wit_parse::RawFileView>, ResolveErrorView>(
            frags.deep_view(),
        ));
    }
    let ghost rawv = frags.deep_view();
    let merged = merge_fragments(&frags);
    let ghost fragsv = merged.deep_view();
    proof {
        assert(fragsv == merged_frags(parse_all(filesv, 0)->Ok_0));
        assert(rawv.len() == files@.len());
        assert(idx_seq(rawv.len() as int)[0] == 0);
        assert(first_pred(rawv)(0));
        idx_seq(rawv.len() as int).lemma_filter_contains(first_pred(rawv), 0);
        assert(fragsv.len() > 0);
    }
    let model = match build_model(&merged) {
        Ok(m) => m,
        Err(e) => {
            return Err(e);
        },
    };
    proof {
        assert forall|q: int| 0 <= q < fragsv.len() implies (#[trigger] fragsv[q]).interfaces.len()
            <= usize::MAX by {
            assert(fragsv[q] == merged@[q].deep_view());
            assert(merged@[q].interfaces.len() == merged@[q].interfaces@.len());
            assert(fragsv[q].interfaces.len() == merged@[q].interfaces@.len());
        }
        assert forall|q: int, w: int|
            0 <= q < fragsv.len() && 0 <= w < fragsv[q].interfaces.len() implies (#[trigger]
        fragsv[q].interfaces[w]).types.len() <= usize::MAX by {
            assert(fragsv[q] == merged@[q].deep_view());
            assert(fragsv[q].interfaces[w] == merged@[q].interfaces@[w].deep_view());
            assert(merged@[q].interfaces@[w].types.len() == merged@[q].interfaces@[w].types@.len());
            assert(fragsv[q].interfaces[w].types.len() == merged@[q].interfaces@[w].types@.len());
        }
        assert(frags_fit(fragsv));
        lemma_model_wf(fragsv);
    }
    let total = match crate::stub::count_types_checked(&model) {
        Some(n) => n,
        None => {
            return Err(ResolveError::TooManyTypes);
        },
    };
    let names = check_cycles(&model, total);
    if names.len() > 0 {
        return Err(ResolveError::CyclicType { names });
    }
    proof {
        assert(resolve_ok(filesv));
    }
    Ok(model)
}

/// Selects the world a pipeline run works on: the requested one, which must
/// be defined by the root package, or, with none requested, the root
/// package's single world; any failure names every candidate.
pub fn select_world(r: &Resolved, requested: Option<&String>) -> (out: Result<
    usize,
    WorldSelectError,
>)
    requires
        resolved_wf(r.deep_view()),
    ensures
        requested matches Some(n) ==> (match out {
            Ok(i) => (i as int) < r.deep_view().packages[r.deep_view().root].worlds.len()
                && i as int == find_world(
                r.deep_view().packages[r.deep_view().root].worlds,
                n@,
                0,
            ),
            Err(e) => find_world(r.deep_view().packages[r.deep_view().root].worlds, n@, 0)
                >= r.deep_view().packages[r.deep_view().root].worlds.len() && (
            e matches WorldSelectError::WorldNotFound { name, candidates } && name@ == n@
                && candidates.deep_view() == world_names(r.deep_view())),
        }),
        requested is None ==> (match out {
            Ok(i) => r.deep_view().packages[r.deep_view().root].worlds.len() == 1 && i == 0,
            Err(e) => r.deep_view().packages[r.deep_view().root].worlds.len() != 1 && (
            e matches WorldSelectError::NoUniqueWorld { candidates } && candidates.deep_view()
                == world_names(r.deep_view())),
        }),
{
    let ghost rv = r.deep_view();
    let worlds = &r.packages[r.root].worlds;
    proof {
        assert(worlds.deep_view() == rv.packages[rv.root].worlds);
    }
    match requested {
        Some(n) => {
            let ghost wsv = worlds.deep_view();
            let mut i: usize = 0;
            while i < worlds.len()
                invariant
                    i <= worlds.len(),
                    rv == r.deep_view(),
                    requested == Some(n),
                    wsv == worlds.deep_view(),
                    wsv == rv.packages[rv.root].worlds,
                    find_world(wsv, n@, 0) == find_world(wsv, n@, i as int),
                decreases worlds.len() - i,
            {
                if crate::text::str_eq(worlds[i].name.as_str(), n.as_str()) {
                    proof {
                        assert(wsv[i as int] == worlds@[i as int].deep_view());
                        assert(wsv[i as int].name == n@);
                        assert(find_world(wsv, n@, i as int) == i as int);
                        assert((i as int) < rv.packages[rv.root].worlds.len());
                        assert(i as int == find_world(rv.packages[rv.root].worlds, n@, 0));
                    }
                    return Ok(i);
                }
                i += 1;
            }
            Err(
                WorldSelectError::WorldNotFound {
                    name: n.clone(),
                    candidates: world_names_exec(worlds),
                },
            )
        },
        None => {
            if worlds.len() == 1 {
                Ok(0)
            } else {
                Err(WorldSelectError::NoUniqueWorld { candidates: world_names_exec(worlds) })
            }
        },
    }
}

/// The names of these worlds, in order.
fn world_names_exec(worlds: &Vec<World>) -> (r: Vec<String>)
    ensures
        r.deep_view() == worlds.deep_view().map_values(world_name_fn()),
{
    let mut out: Vec<String> = Vec::new();
    let mut i: usize = 0;
    while i < worlds.len()
        invariant
            i <= worlds.len(),
            out.deep_view() == worlds.deep_view().take(i as int).map_values(world_name_fn()),
        decreases worlds.len() - i,
    {
        crate::seqs::push_dv(&mut out, worlds[i].name.clone());
        proof {
            assert(out.deep_view() =~= worlds.deep_view().take(i as int + 1).map_values(
                world_name_fn(),
            ));
        }
        i += 1;
    }
    proof {
        assert(worlds.deep_view().take(worlds.len() as int) =~= worlds.deep_view());
    }
    out
}
} // verus!
