//! Parser for the interface-description language: turns one file's text into
//! a raw syntax tree of packages, interfaces, worlds, functions and types,
//! with references still textual.
//!
//! The language is line-oriented. A file opens with a `package` line, then
//! holds `interface` and `world` blocks closed by `end`. Inside an interface:
//! `record`, `variant`, `enum`, `flags`, `resource` and `type` declarations
//! and `func` signatures; inside a world: `import` and `export` lines. Words
//! are separated by spaces; a line starting with `//` is a comment.
//! Constructed types (`list<t>`, `option<t>`, `result<t,e>`, `tuple<t,..>`)
//! are declared by `type` lines and referenced by name, so every type use is
//! a primitive, a local name, or a package-qualified `ns:pkg/iface.name`.

use vstd::prelude::*;

verus! {

use crate::wit_resolve::Prim;

/// A textual type reference: a primitive, a name of the same interface, or a
/// fully qualified name in another package's interface.
pub enum RawRef {
    PrimRef(Prim),
    Local(String),
    Qualified { ns: String, pkg: String, iface: String, ty: String },
}

/// Mathematical image of a `RawRef`.
#[verifier::ext_equal]
pub ghost enum RawRefView {
    PrimRef(Prim),
    Local(Seq<char>),
    Qualified { ns: Seq<char>, pkg: Seq<char>, iface: Seq<char>, ty: Seq<char> },
}

impl DeepView for RawRef {
    type V = RawRefView;

    open spec fn deep_view(&self) -> RawRefView {
        match self {
            RawRef::PrimRef(p) => RawRefView::PrimRef(*p),
            RawRef::Local(n) => RawRefView::Local(n@),
            RawRef::Qualified { ns, pkg, iface, ty } => RawRefView::Qualified {
                ns: ns@,
                pkg: pkg@,
                iface: iface@,
                ty: ty@,
            },
        }
    }
}

/// A named field or parameter with a textual type.
pub struct RawField {
    pub name: String,
    pub ty: RawRef,
}

/// Mathematical image of a `RawField`.
#[verifier::ext_equal]
pub ghost struct RawFieldView {
    pub name: Seq<char>,
    pub ty: RawRefView,
}

impl DeepView for RawField {
    type V = RawFieldView;

    open spec fn deep_view(&self) -> RawFieldView {
        RawFieldView { name: self.name@, ty: self.ty.deep_view() }
    }
}

/// A named variant case with an optional textual payload type.
pub struct RawCase {
    pub name: String,
    pub ty: Option<RawRef>,
}

/// Mathematical image of a `RawCase`.
#[verifier::ext_equal]
pub ghost struct RawCaseView {
    pub name: Seq<char>,
    pub ty: Option<RawRefView>,
}

impl DeepView for RawCase {
    type V = RawCaseView;

    open spec fn deep_view(&self) -> RawCaseView {
        RawCaseView {
            name: self.name@,
            ty: match &self.ty {
                Some(t) => Some(t.deep_view()),
                None => None,
            },
        }
    }
}

/// The shape of one raw type declaration.
pub enum RawShape {
    Record(Vec<RawField>),
    Variant(Vec<RawCase>),
    EnumShape(Vec<String>),
    FlagsShape(Vec<String>),
    Resource,
    ListOf(RawRef),
    OptionOf(RawRef),
    ResultOf(Option<RawRef>, Option<RawRef>),
    TupleOf(Vec<RawRef>),
}

/// Mathematical image of a `RawShape`.
#[verifier::ext_equal]
pub ghost enum RawShapeView {
    Record(Seq<RawFieldView>),
    Variant(Seq<RawCaseView>),
    EnumShape(Seq<Seq<char>>),
    FlagsShape(Seq<Seq<char>>),
    Resource,
    ListOf(RawRefView),
    OptionOf(RawRefView),
    ResultOf(Option<RawRefView>, Option<RawRefView>),
    TupleOf(Seq<RawRefView>),
}

impl DeepView for RawShape {
    type V = RawShapeView;

    open spec fn deep_view(&self) -> RawShapeView {
        match self {
            RawShape::Record(fs) => RawShapeView::Record(fs.deep_view()),
            RawShape::Variant(cs) => RawShapeView::Variant(cs.deep_view()),
            RawShape::EnumShape(ts) => RawShapeView::EnumShape(ts.deep_view()),
            RawShape::FlagsShape(ts) => RawShapeView::FlagsShape(ts.deep_view()),
            RawShape::Resource => RawShapeView::Resource,
            RawShape::ListOf(t) => RawShapeView::ListOf(t.deep_view()),
            RawShape::OptionOf(t) => RawShapeView::OptionOf(t.deep_view()),
            RawShape::ResultOf(o, e) => RawShapeView::ResultOf(
                match o {
                    Some(t) => Some(t.deep_view()),
                    None => None,
                },
                match e {
                    Some(t) => Some(t.deep_view()),
                    None => None,
                },
            ),
            RawShape::TupleOf(ts) => RawShapeView::TupleOf(ts.deep_view()),
        }
    }
}

/// One raw type declaration.
pub struct RawTypeDef {
    pub name: String,
    pub shape: RawShape,
}

/// Mathematical image of a `RawTypeDef`.
#[verifier::ext_equal]
pub ghost struct RawTypeDefView {
    pub name: Seq<char>,
    pub shape: RawShapeView,
}

impl DeepView for RawTypeDef {
    type V = RawTypeDefView;

    open spec fn deep_view(&self) -> RawTypeDefView {
        RawTypeDefView { name: self.name@, shape: self.shape.deep_view() }
    }
}

/// A raw function's result declaration.
pub enum RawResults {
    NoResult,
    Single(RawRef),
    NamedResults(Vec<RawField>),
}

/// Mathematical image of a `RawResults`.
#[verifier::ext_equal]
pub ghost enum RawResultsView {
    NoResult,
    Single(RawRefView),
    NamedResults(Seq<RawFieldView>),
}

impl DeepView for RawResults {
    type V = RawResultsView;

    open spec fn deep_view(&self) -> RawResultsView {
        match self {
            RawResults::NoResult => RawResultsView::NoResult,
            RawResults::Single(t) => RawResultsView::Single(t.deep_view()),
            RawResults::NamedResults(fs) => RawResultsView::NamedResults(fs.deep_view()),
        }
    }
}

/// One raw function signature.
pub struct RawFunction {
    pub name: String,
    pub params: Vec<RawField>,
    pub results: RawResults,
}

/// Mathematical image of a `RawFunction`.
#[verifier::ext_equal]
pub ghost struct RawFunctionView {
    pub name: Seq<char>,
    pub params: Seq<RawFieldView>,
    pub results: RawResultsView,
}

impl DeepView for RawFunction {
    type V = RawFunctionView;

    open spec fn deep_view(&self) -> RawFunctionView {
        RawFunctionView {
            name: self.name@,
            params: self.params.deep_view(),
            results: self.results.deep_view(),
        }
    }
}

/// One raw interface block.
pub struct RawInterface {
    pub name: String,
    pub types: Vec<RawTypeDef>,
    pub funcs: Vec<RawFunction>,
}

/// Mathematical image of a `RawInterface`.
#[verifier::ext_equal]
pub ghost struct RawInterfaceView {
    pub name: Seq<char>,
    pub types: Seq<RawTypeDefView>,
    pub funcs: Seq<RawFunctionView>,
}

impl DeepView for RawInterface {
    type V = RawInterfaceView;

    open spec fn deep_view(&self) -> RawInterfaceView {
        RawInterfaceView {
            name: self.name@,
            types: self.types.deep_view(),
            funcs: self.funcs.deep_view(),
        }
    }
}

/// A textual interface reference in a world: local or package-qualified.
pub enum RawIfaceRef {
    Local(String),
    Qualified { ns: String, pkg: String, iface: String },
}

/// Mathematical image of a `RawIfaceRef`.
#[verifier::ext_equal]
pub ghost enum RawIfaceRefView {
    Local(Seq<char>),
    Qualified { ns: Seq<char>, pkg: Seq<char>, iface: Seq<char> },
}

impl DeepView for RawIfaceRef {
    type V = RawIfaceRefView;

    open spec fn deep_view(&self) -> RawIfaceRefView {
        match self {
            RawIfaceRef::Local(n) => RawIfaceRefView::Local(n@),
            RawIfaceRef::Qualified { ns, pkg, iface } => RawIfaceRefView::Qualified {
                ns: ns@,
                pkg: pkg@,
                iface: iface@,
            },
        }
    }
}

/// One raw world block.
pub struct RawWorld {
    pub name: String,
    pub imports: Vec<RawIfaceRef>,
    pub exports: Vec<RawIfaceRef>,
}

/// Mathematical image of a `RawWorld`.
#[verifier::ext_equal]
pub ghost struct RawWorldView {
    pub name: Seq<char>,
    pub imports: Seq<RawIfaceRefView>,
    pub exports: Seq<RawIfaceRefView>,
}

impl DeepView for RawWorld {
    type V = RawWorldView;

    open spec fn deep_view(&self) -> RawWorldView {
        RawWorldView {
            name: self.name@,
            imports: self.imports.deep_view(),
            exports: self.exports.deep_view(),
        }
    }
}

/// One parsed file: a package fragment.
pub struct RawFile {
    pub namespace: String,
    pub pkg: String,
    pub version: Option<String>,
    pub interfaces: Vec<RawInterface>,
    pub worlds: Vec<RawWorld>,
}

/// Mathematical image of a `RawFile`.
#[verifier::ext_equal]
pub ghost struct RawFileView {
    pub namespace: Seq<char>,
    pub pkg: Seq<char>,
    pub version: Option<Seq<char>>,
    pub interfaces: Seq<RawInterfaceView>,
    pub worlds: Seq<RawWorldView>,
}

impl DeepView for RawFile {
    type V = RawFileView;

    open spec fn deep_view(&self) -> RawFileView {
        RawFileView {
            namespace: self.namespace@,
            pkg: self.pkg@,
            version: match &self.version {
                Some(v) => Some(v@),
                None => None,
            },
            interfaces: self.interfaces.deep_view(),
            worlds: self.worlds.deep_view(),
        }
    }
}

/// What a malformed declaration is reported as.
#[derive(Clone, Copy, PartialEq, Eq, Structural, Debug)]
pub enum ParseErrKind {
    /// The first meaningful line is not a well-formed `package` line.
    MissingPackage,
    /// A `package` line appeared again.
    DuplicatePackage,
    /// The line's first word declares nothing known here.
    UnknownDeclaration,
    /// The declaration's shape is wrong: missing or extra words.
    BadDeclaration,
    /// A type use could not be read.
    BadReference,
    /// An `interface` or `world` block is not closed by `end`.
    UnclosedBlock,
    /// An `end` with no open block, or a declaration outside its block.
    MisplacedLine,
}

/// A parse error: what went wrong and the offending word or line.
#[derive(Debug)]
pub struct ParseErr {
    pub kind: ParseErrKind,
    pub detail: String,
}

/// Mathematical image of a `ParseErr`.
#[verifier::ext_equal]
pub ghost struct ParseErrView {
    pub kind: ParseErrKind,
    pub detail: Seq<char>,
}

impl DeepView for ParseErr {
    type V = ParseErrView;

    open spec fn deep_view(&self) -> ParseErrView {
        ParseErrView { kind: self.kind, detail: self.detail@ }
    }
}

/// The first position at or after `from` holding `c`, or the length.
pub open spec fn find_char(s: Seq<char>, from: int, c: char) -> int
    decreases s.len() - from,
{
    if from < 0 || from >= s.len() {
        s.len() as int
    } else if s[from] == c {
        from
    } else {
        find_char(s, from + 1, c)
    }
}

/// `find_char` always lands between `from` and the length, on `c` if it is
/// there, skipping nothing that holds `c`.
pub proof fn lemma_find_char(s: Seq<char>, from: int, c: char)
    requires
        0 <= from <= s.len(),
    ensures
        from <= find_char(s, from, c) <= s.len(),
        find_char(s, from, c) < s.len() ==> s[find_char(s, from, c)] == c,
        forall|k: int| from <= k < find_char(s, from, c) ==> s[k] != c,
    decreases s.len() - from,
{
    if from < s.len() && s[from] != c {
        lemma_find_char(s, from + 1, c);
    }
}

/// Finds the first position at or after `from` holding `c`.
pub fn find_char_exec(s: &str, from: usize, c: char) -> (r: usize)
    requires
        from <= s@.len(),
    ensures
        r as int == find_char(s@, from as int, c),
{
    let n = s.unicode_len();
    let mut i: usize = from;
    while i < n
        invariant
            from <= i <= n,
            n == s@.len(),
            find_char(s@, from as int, c) == find_char(s@, i as int, c),
        decreases n - i,
    {
        let ch = s.get_char(i);
        if ch == c {
            return i;
        }
        i += 1;
    }
    n
}

/// The position after `from` where the next piece ends: the first occurrence
/// of `c`, clamped into range.
pub open spec fn next_break(s: Seq<char>, from: int, c: char) -> int {
    let b = find_char(s, from, c);
    if b < from {
        from
    } else if b > s.len() {
        s.len() as int
    } else {
        b
    }
}

/// The pieces of `s` between occurrences of `c`, empty pieces kept.
pub open spec fn split_keep(s: Seq<char>, from: int, c: char) -> Seq<Seq<char>>
    decreases s.len() - from,
{
    if from < 0 || from > s.len() {
        Seq::empty()
    } else {
        let b = next_break(s, from, c);
        if b >= s.len() {
            seq![s.subrange(from, s.len() as int)]
        } else {
            seq![s.subrange(from, b)] + split_keep(s, b + 1, c)
        }
    }
}

/// The nonempty pieces of `s` between occurrences of `c`, in order.
pub open spec fn split_drop(s: Seq<char>, from: int, c: char) -> Seq<Seq<char>>
    decreases s.len() - from,
{
    if from < 0 || from >= s.len() {
        Seq::empty()
    } else {
        let b = next_break(s, from, c);
        if b >= s.len() {
            if b > from {
                seq![s.subrange(from, s.len() as int)]
            } else {
                Seq::empty()
            }
        } else {
            let rest = split_drop(s, b + 1, c);
            if b > from {
                seq![s.subrange(from, b)] + rest
            } else {
                rest
            }
        }
    }
}

/// Splits `s` on `c`, keeping empty pieces.
pub fn split_keep_exec(s: &str, c: char) -> (r: Vec<String>)
    ensures
        r.deep_view() == split_keep(s@, 0, c),
{
    let n = s.unicode_len();
    let mut out: Vec<String> = Vec::new();
    let mut pos: usize = 0;
    loop
        invariant
            pos <= n,
            n == s@.len(),
            out.deep_view() + split_keep(s@, pos as int, c) == split_keep(s@, 0, c),
        decreases n - pos,
    {
        let b = find_char_exec(s, pos, c);
        proof {
            lemma_find_char(s@, pos as int, c);
        }
        let piece = s.substring_char(pos, b).to_owned();
        crate::seqs::push_dv(&mut out, piece);
        if b >= n {
            proof {
                assert(split_keep(s@, pos as int, c) =~= seq![s@.subrange(pos as int, n as int)]);
                assert(out.deep_view() =~= split_keep(s@, 0, c));
            }
            return out;
        }
        proof {
            assert(split_keep(s@, pos as int, c) =~= seq![s@.subrange(pos as int, b as int)]
                + split_keep(s@, b as int + 1, c));
            assert(out.deep_view() + split_keep(s@, b as int + 1, c) =~= split_keep(s@, 0, c));
        }
        pos = b + 1;
    }
}

/// Splits `s` on `c`, dropping empty pieces.
pub fn split_drop_exec(s: &str, c: char) -> (r: Vec<String>)
    ensures
        r.deep_view() == split_drop(s@, 0, c),
{
    let n = s.unicode_len();
    let mut out: Vec<String> = Vec::new();
    let mut pos: usize = 0;
    while pos < n
        invariant
            pos <= n,
            n == s@.len(),
            out.deep_view() + split_drop(s@, pos as int, c) == split_drop(s@, 0, c),
        decreases n - pos,
    {
        let b = find_char_exec(s, pos, c);
        proof {
            lemma_find_char(s@, pos as int, c);
        }
        if b > pos {
            let piece = s.substring_char(pos, b).to_owned();
            crate::seqs::push_dv(&mut out, piece);
            proof {
                assert(split_drop(s@, pos as int, c) =~= seq![s@.subrange(pos as int, b as int)]
                    + split_drop(s@, b as int + 1, c));
                assert(out.deep_view() + split_drop(s@, b as int + 1, c) =~= split_drop(s@, 0, c));
            }
        } else {
            proof {
                assert(split_drop(s@, pos as int, c) =~= split_drop(s@, b as int + 1, c));
            }
        }
        if b >= n {
            proof {
                assert(split_drop(s@, b as int + 1, c) =~= Seq::<Seq<char>>::empty());
                assert(out.deep_view() =~= split_drop(s@, 0, c));
            }
            return out;
        }
        pos = b + 1;
    }
    proof {
        assert(split_drop(s@, pos as int, c) =~= Seq::<Seq<char>>::empty());
        assert(out.deep_view() =~= split_drop(s@, 0, c));
    }
    out
}

/// A parsed `package` line: namespace, name, optional version.
#[verifier::ext_equal]
pub ghost struct PkgWordView {
    pub ns: Seq<char>,
    pub name: Seq<char>,
    pub version: Option<Seq<char>>,
}

/// Reads a package word `ns:name` or `ns:name@version`.
pub open spec fn pkg_word(w: Seq<char>) -> Option<PkgWordView> {
    let colon = find_char(w, 0, ':');
    if colon <= 0 || colon >= w.len() {
        None
    } else {
        let at = find_char(w, colon + 1, '@');
        if at >= w.len() {
            if colon + 1 < w.len() {
                Some(
                    PkgWordView {
                        ns: w.subrange(0, colon),
                        name: w.subrange(colon + 1, w.len() as int),
                        version: None,
                    },
                )
            } else {
                None
            }
        } else if colon + 1 < at && at + 1 < w.len() {
            Some(
                PkgWordView {
                    ns: w.subrange(0, colon),
                    name: w.subrange(colon + 1, at),
                    version: Some(w.subrange(at + 1, w.len() as int)),
                },
            )
        } else {
            None
        }
    }
}

/// The primitive type a word names, if any.
pub open spec fn prim_of_word(w: Seq<char>) -> Option<Prim> {
    if w == "bool"@ {
        Some(Prim::Bool)
    } else if w == "u8"@ {
        Some(Prim::U8)
    } else if w == "u16"@ {
        Some(Prim::U16)
    } else if w == "u32"@ {
        Some(Prim::U32)
    } else if w == "u64"@ {
        Some(Prim::U64)
    } else if w == "s8"@ {
        Some(Prim::S8)
    } else if w == "s16"@ {
        Some(Prim::S16)
    } else if w == "s32"@ {
        Some(Prim::S32)
    } else if w == "s64"@ {
        Some(Prim::S64)
    } else if w == "f32"@ {
        Some(Prim::Float32)
    } else if w == "f64"@ {
        Some(Prim::Float64)
    } else if w == "char"@ {
        Some(Prim::CharPrim)
    } else if w == "string"@ {
        Some(Prim::StringPrim)
    } else {
        None
    }
}

/// Whether a word can stand as a plain local name: nonempty, free of the
/// punctuation that structures references and constructors.
pub open spec fn plain_name(w: Seq<char>) -> bool {
    &&& w.len() > 0
    &&& find_char(w, 0, ':') == w.len()
    &&& find_char(w, 0, '/') == w.len()
    &&& find_char(w, 0, '<') == w.len()
    &&& find_char(w, 0, '>') == w.len()
    &&& find_char(w, 0, ',') == w.len()
    &&& find_char(w, 0, '.') == w.len()
}

/// Reads a type use: a primitive, a plain local name, or a fully qualified
/// `ns:pkg/iface.name`.
pub open spec fn ref_of_word(w: Seq<char>) -> Option<RawRefView> {
    match prim_of_word(w) {
        Some(p) => Some(RawRefView::PrimRef(p)),
        None => {
            let slash = find_char(w, 0, '/');
            if slash >= w.len() {
                if plain_name(w) {
                    Some(RawRefView::Local(w))
                } else {
                    None
                }
            } else {
                let colon = find_char(w, 0, ':');
                let dot = find_char(w, slash + 1, '.');
                if 0 < colon && colon + 1 < slash && slash + 1 < dot && dot < w.len() && dot + 1
                    < w.len() {
                    Some(
                        RawRefView::Qualified {
                            ns: w.subrange(0, colon),
                            pkg: w.subrange(colon + 1, slash),
                            iface: w.subrange(slash + 1, dot),
                            ty: w.subrange(dot + 1, w.len() as int),
                        },
                    )
                } else {
                    None
                }
            }
        },
    }
}

/// Reads an interface reference of a world line: a local interface name or a
/// qualified `ns:pkg/iface`.
pub open spec fn iface_ref_of_word(w: Seq<char>) -> Option<RawIfaceRefView> {
    let slash = find_char(w, 0, '/');
    if slash >= w.len() {
        if plain_name(w) {
            Some(RawIfaceRefView::Local(w))
        } else {
            None
        }
    } else {
        let colon = find_char(w, 0, ':');
        if 0 < colon && colon + 1 < slash && slash + 1 < w.len() {
            Some(
                RawIfaceRefView::Qualified {
                    ns: w.subrange(0, colon),
                    pkg: w.subrange(colon + 1, slash),
                    iface: w.subrange(slash + 1, w.len() as int),
                },
            )
        } else {
            None
        }
    }
}

/// Reads a `name:type` word.
pub open spec fn field_of_word(w: Seq<char>) -> Option<RawFieldView> {
    let colon = find_char(w, 0, ':');
    if 0 < colon && colon < w.len() {
        match ref_of_word(w.subrange(colon + 1, w.len() as int)) {
            Some(t) => Some(RawFieldView { name: w.subrange(0, colon), ty: t }),
            None => None,
        }
    } else {
        None
    }
}

/// Reads a variant case: a bare tag or a `name:type` word.
pub open spec fn case_of_word(w: Seq<char>) -> Option<RawCaseView> {
    let colon = find_char(w, 0, ':');
    if colon >= w.len() {
        if w.len() > 0 {
            Some(RawCaseView { name: w, ty: None })
        } else {
            None
        }
    } else {
        match field_of_word(w) {
            Some(f) => Some(RawCaseView { name: f.name, ty: Some(f.ty) }),
            None => None,
        }
    }
}

/// Reads a `result` constructor argument: `_` for an absent side.
pub open spec fn result_arg_of_word(w: Seq<char>) -> Option<Option<RawRefView>> {
    if w == "_"@ {
        Some(None)
    } else {
        match ref_of_word(w) {
            Some(t) => Some(Some(t)),
            None => None,
        }
    }
}

/// Reads every word of a comma-separated argument list as a type use,
/// scanning from `i`.
pub open spec fn refs_of_words(ws: Seq<Seq<char>>, i: int) -> Option<Seq<RawRefView>>
    decreases ws.len() - i,
{
    if i < 0 || i >= ws.len() {
        Some(Seq::empty())
    } else {
        match ref_of_word(ws[i]) {
            Some(t) => match refs_of_words(ws, i + 1) {
                Some(rest) => Some(seq![t] + rest),
                None => None,
            },
            None => None,
        }
    }
}

/// Reads a constructed type `list<t>`, `option<t>`, `result<t,e>` or
/// `tuple<t,..>`.
pub open spec fn ctor_of_word(w: Seq<char>) -> Option<RawShapeView> {
    let lt = find_char(w, 0, '<');
    if lt <= 0 || lt >= w.len() || w.last() != '>' || lt + 1 > w.len() - 1 {
        None
    } else {
        let head = w.subrange(0, lt);
        let args = split_keep(w.subrange(lt + 1, w.len() - 1), 0, ',');
        if head == "list"@ {
            if args.len() == 1 {
                match ref_of_word(args[0]) {
                    Some(t) => Some(RawShapeView::ListOf(t)),
                    None => None,
                }
            } else {
                None
            }
        } else if head == "option"@ {
            if args.len() == 1 {
                match ref_of_word(args[0]) {
                    Some(t) => Some(RawShapeView::OptionOf(t)),
                    None => None,
                }
            } else {
                None
            }
        } else if head == "result"@ {
            if args.len() == 2 {
                match (result_arg_of_word(args[0]), result_arg_of_word(args[1])) {
                    (Some(o), Some(e)) => Some(RawShapeView::ResultOf(o, e)),
                    _ => None,
                }
            } else {
                None
            }
        } else if head == "tuple"@ {
            if args.len() >= 1 {
                match refs_of_words(args, 0) {
                    Some(ts) => Some(RawShapeView::TupleOf(ts)),
                    None => None,
                }
            } else {
                None
            }
        } else {
            None
        }
    }
}

/// Reads every `name:type` word, scanning from `i` up to `to`.
pub open spec fn fields_of_words(ws: Seq<Seq<char>>, i: int, to: int) -> Option<Seq<RawFieldView>>
    decreases to - i,
{
    if i < 0 || i >= to || i >= ws.len() {
        Some(Seq::empty())
    } else {
        match field_of_word(ws[i]) {
            Some(f) => match fields_of_words(ws, i + 1, to) {
                Some(rest) => Some(seq![f] + rest),
                None => None,
            },
            None => None,
        }
    }
}

/// Reads every variant case word, scanning from `i`.
pub open spec fn cases_of_words(ws: Seq<Seq<char>>, i: int) -> Option<Seq<RawCaseView>>
    decreases ws.len() - i,
{
    if i < 0 || i >= ws.len() {
        Some(Seq::empty())
    } else {
        match case_of_word(ws[i]) {
            Some(c) => match cases_of_words(ws, i + 1) {
                Some(rest) => Some(seq![c] + rest),
                None => None,
            },
            None => None,
        }
    }
}

/// The first position at or after `from` holding exactly the word `w`.
pub open spec fn find_word(ws: Seq<Seq<char>>, from: int, w: Seq<char>) -> int
    decreases ws.len() - from,
{
    if from < 0 || from >= ws.len() {
        ws.len() as int
    } else if ws[from] == w {
        from
    } else {
        find_word(ws, from + 1, w)
    }
}

/// `find_word` always lands between `from` and the length.
pub proof fn lemma_find_word(ws: Seq<Seq<char>>, from: int, w: Seq<char>)
    requires
        0 <= from <= ws.len(),
    ensures
        from <= find_word(ws, from, w) <= ws.len(),
    decreases ws.len() - from,
{
    if from < ws.len() && ws[from] != w {
        lemma_find_word(ws, from + 1, w);
    }
}

/// The block being filled while lines are read.
pub enum ParseCtx {
    Top,
    InIface(RawInterface),
    InWorld(RawWorld),
}

/// Mathematical image of a `ParseCtx`.
#[verifier::ext_equal]
pub ghost enum ParseCtxView {
    Top,
    InIface(RawInterfaceView),
    InWorld(RawWorldView),
}

impl DeepView for ParseCtx {
    type V = ParseCtxView;

    open spec fn deep_view(&self) -> ParseCtxView {
        match self {
            ParseCtx::Top => ParseCtxView::Top,
            ParseCtx::InIface(i) => ParseCtxView::InIface(i.deep_view()),
            ParseCtx::InWorld(w) => ParseCtxView::InWorld(w.deep_view()),
        }
    }
}

/// The parser's state between lines.
pub struct PState {
    pub have_pkg: bool,
    pub file: RawFile,
    pub ctx: ParseCtx,
}

/// Mathematical image of a `PState`.
#[verifier::ext_equal]
pub ghost struct PStateView {
    pub have_pkg: bool,
    pub file: RawFileView,
    pub ctx: ParseCtxView,
}

impl DeepView for PState {
    type V = PStateView;

    open spec fn deep_view(&self) -> PStateView {
        PStateView { have_pkg: self.have_pkg, file: self.file.deep_view(), ctx: self.ctx.deep_view() }
    }
}

/// The state before any line was read.
pub open spec fn init_pstate() -> PStateView {
    PStateView {
        have_pkg: false,
        file: RawFileView {
            namespace: Seq::empty(),
            pkg: Seq::empty(),
            version: None,
            interfaces: Seq::empty(),
            worlds: Seq::empty(),
        },
        ctx: ParseCtxView::Top,
    }
}

/// How one meaningful line changes the parser's state.
pub open spec fn step(st: PStateView, ws: Seq<Seq<char>>) -> Result<PStateView, ParseErrView> {
    let w0 = ws[0];
    if !st.have_pkg {
        if w0 == "package"@ && ws.len() == 2 {
            match pkg_word(ws[1]) {
                Some(p) => Ok(
                    PStateView {
                        have_pkg: true,
                        file: RawFileView {
                            namespace: p.ns,
                            pkg: p.name,
                            version: p.version,
                            interfaces: st.file.interfaces,
                            worlds: st.file.worlds,
                        },
                        ctx: st.ctx,
                    },
                ),
                None => Err(ParseErrView { kind: ParseErrKind::MissingPackage, detail: ws[1] }),
            }
        } else {
            Err(ParseErrView { kind: ParseErrKind::MissingPackage, detail: w0 })
        }
    } else if w0 == "package"@ {
        Err(ParseErrView { kind: ParseErrKind::DuplicatePackage, detail: w0 })
    } else if w0 == "interface"@ {
        match st.ctx {
            ParseCtxView::Top => if ws.len() == 2 && plain_name(ws[1]) {
                Ok(
                    PStateView {
                        have_pkg: st.have_pkg,
                        file: st.file,
                        ctx: ParseCtxView::InIface(
                            RawInterfaceView {
                                name: ws[1],
                                types: Seq::empty(),
                                funcs: Seq::empty(),
                            },
                        ),
                    },
                )
            } else {
                Err(ParseErrView { kind: ParseErrKind::BadDeclaration, detail: w0 })
            },
            _ => Err(ParseErrView { kind: ParseErrKind::MisplacedLine, detail: w0 }),
        }
    } else if w0 == "world"@ {
        match st.ctx {
            ParseCtxView::Top => if ws.len() == 2 && plain_name(ws[1]) {
                Ok(
                    PStateView {
                        have_pkg: st.have_pkg,
                        file: st.file,
                        ctx: ParseCtxView::InWorld(
                            RawWorldView {
                                name: ws[1],
                                imports: Seq::empty(),
                                exports: Seq::empty(),
                            },
                        ),
                    },
                )
            } else {
                Err(ParseErrView { kind: ParseErrKind::BadDeclaration, detail: w0 })
            },
            _ => Err(ParseErrView { kind: ParseErrKind::MisplacedLine, detail: w0 }),
        }
    } else if w0 == "end"@ {
        if ws.len() != 1 {
            Err(ParseErrView { kind: ParseErrKind::BadDeclaration, detail: w0 })
        } else {
            match st.ctx {
                ParseCtxView::Top => Err(
                    ParseErrView { kind: ParseErrKind::MisplacedLine, detail: w0 },
                ),
                ParseCtxView::InIface(ifc) => Ok(
                    PStateView {
                        have_pkg: st.have_pkg,
                        file: RawFileView {
                            interfaces: st.file.interfaces.push(ifc),
                            ..st.file
                        },
                        ctx: ParseCtxView::Top,
                    },
                ),
                ParseCtxView::InWorld(w) => Ok(
                    PStateView {
                        have_pkg: st.have_pkg,
                        file: RawFileView { worlds: st.file.worlds.push(w), ..st.file },
                        ctx: ParseCtxView::Top,
                    },
                ),
            }
        }
    } else if w0 == "record"@ || w0 == "variant"@ || w0 == "enum"@ || w0 == "flags"@ || w0
        == "resource"@ || w0 == "type"@ || w0 == "func"@ {
        match st.ctx {
            ParseCtxView::InIface(ifc) => step_iface(st, ifc, ws),
            _ => Err(ParseErrView { kind: ParseErrKind::MisplacedLine, detail: w0 }),
        }
    } else if w0 == "import"@ || w0 == "export"@ {
        match st.ctx {
            ParseCtxView::InWorld(w) => if ws.len() == 2 {
                match iface_ref_of_word(ws[1]) {
                    Some(ir) => Ok(
                        PStateView {
                            have_pkg: st.have_pkg,
                            file: st.file,
                            ctx: ParseCtxView::InWorld(
                                if w0 == "import"@ {
                                    RawWorldView { imports: w.imports.push(ir), ..w }
                                } else {
                                    RawWorldView { exports: w.exports.push(ir), ..w }
                                },
                            ),
                        },
                    ),
                    None => Err(ParseErrView { kind: ParseErrKind::BadReference, detail: ws[1] }),
                }
            } else {
                Err(ParseErrView { kind: ParseErrKind::BadDeclaration, detail: w0 })
            },
            _ => Err(ParseErrView { kind: ParseErrKind::MisplacedLine, detail: w0 }),
        }
    } else {
        Err(ParseErrView { kind: ParseErrKind::UnknownDeclaration, detail: w0 })
    }
}

/// The state after one declaration inside an interface block.
pub open spec fn step_iface(
    st: PStateView,
    ifc: RawInterfaceView,
    ws: Seq<Seq<char>>,
) -> Result<PStateView, ParseErrView> {
    let w0 = ws[0];
    if ws.len() < 2 || !plain_name(ws[1]) {
        Err(ParseErrView { kind: ParseErrKind::BadDeclaration, detail: w0 })
    } else if w0 == "record"@ {
        match fields_of_words(ws, 2, ws.len() as int) {
            Some(fs) => Ok(
                with_type(st, ifc, RawTypeDefView { name: ws[1], shape: RawShapeView::Record(fs) }),
            ),
            None => Err(ParseErrView { kind: ParseErrKind::BadReference, detail: w0 }),
        }
    } else if w0 == "variant"@ {
        match cases_of_words(ws, 2) {
            Some(cs) => Ok(
                with_type(
                    st,
                    ifc,
                    RawTypeDefView { name: ws[1], shape: RawShapeView::Variant(cs) },
                ),
            ),
            None => Err(ParseErrView { kind: ParseErrKind::BadReference, detail: w0 }),
        }
    } else if w0 == "enum"@ {
        Ok(
            with_type(
                st,
                ifc,
                RawTypeDefView {
                    name: ws[1],
                    shape: RawShapeView::EnumShape(ws.subrange(2, ws.len() as int)),
                },
            ),
        )
    } else if w0 == "flags"@ {
        Ok(
            with_type(
                st,
                ifc,
                RawTypeDefView {
                    name: ws[1],
                    shape: RawShapeView::FlagsShape(ws.subrange(2, ws.len() as int)),
                },
            ),
        )
    } else if w0 == "resource"@ {
        if ws.len() == 2 {
            Ok(with_type(st, ifc, RawTypeDefView { name: ws[1], shape: RawShapeView::Resource }))
        } else {
            Err(ParseErrView { kind: ParseErrKind::BadDeclaration, detail: w0 })
        }
    } else if w0 == "type"@ {
        if ws.len() == 3 {
            match ctor_of_word(ws[2]) {
                Some(shape) => Ok(with_type(st, ifc, RawTypeDefView { name: ws[1], shape })),
                None => Err(ParseErrView { kind: ParseErrKind::BadReference, detail: ws[2] }),
            }
        } else {
            Err(ParseErrView { kind: ParseErrKind::BadDeclaration, detail: w0 })
        }
    } else {
        let arrow = find_word(ws, 2, "->"@);
        match fields_of_words(ws, 2, arrow) {
            Some(ps) => {
                if arrow >= ws.len() {
                    Ok(
                        with_func(
                            st,
                            ifc,
                            RawFunctionView {
                                name: ws[1],
                                params: ps,
                                results: RawResultsView::NoResult,
                            },
                        ),
                    )
                } else if arrow + 1 >= ws.len() {
                    Err(ParseErrView { kind: ParseErrKind::BadDeclaration, detail: w0 })
                } else if arrow + 2 == ws.len() && ref_of_word(ws[arrow + 1]) is Some {
                    Ok(
                        with_func(
                            st,
                            ifc,
                            RawFunctionView {
                                name: ws[1],
                                params: ps,
                                results: RawResultsView::Single(ref_of_word(ws[arrow + 1])->Some_0),
                            },
                        ),
                    )
                } else {
                    match fields_of_words(ws, arrow + 1, ws.len() as int) {
                        Some(rs) => Ok(
                            with_func(
                                st,
                                ifc,
                                RawFunctionView {
                                    name: ws[1],
                                    params: ps,
                                    results: RawResultsView::NamedResults(rs),
                                },
                            ),
                        ),
                        None => Err(ParseErrView { kind: ParseErrKind::BadReference, detail: w0 }),
                    }
                }
            },
            None => Err(ParseErrView { kind: ParseErrKind::BadReference, detail: w0 }),
        }
    }
}

/// The state with one more type declared in the open interface.
pub open spec fn with_type(
    st: PStateView,
    ifc: RawInterfaceView,
    td: RawTypeDefView,
) -> PStateView {
    PStateView {
        have_pkg: st.have_pkg,
        file: st.file,
        ctx: ParseCtxView::InIface(RawInterfaceView { types: ifc.types.push(td), ..ifc }),
    }
}

/// The state with one more function declared in the open interface.
pub open spec fn with_func(
    st: PStateView,
    ifc: RawInterfaceView,
    f: RawFunctionView,
) -> PStateView {
    PStateView {
        have_pkg: st.have_pkg,
        file: st.file,
        ctx: ParseCtxView::InIface(RawInterfaceView { funcs: ifc.funcs.push(f), ..ifc }),
    }
}

/// Whether a word line is meaningful: nonempty and no comment.
pub open spec fn meaningful(ws: Seq<Seq<char>>) -> bool {
    ws.len() > 0 && !(ws[0].len() >= 2 && ws[0][0] == '/' && ws[0][1] == '/')
}

/// The predicate form of `meaningful`.
pub open spec fn meaningful_fn() -> spec_fn(Seq<Seq<char>>) -> bool {
    |ws: Seq<Seq<char>>| meaningful(ws)
}

/// The words of one line.
pub open spec fn words_fn() -> spec_fn(Seq<char>) -> Seq<Seq<char>> {
    |l: Seq<char>| split_drop(l, 0, ' ')
}

/// The meaningful word lines of a file's text.
pub open spec fn word_lines(content: Seq<char>) -> Seq<Seq<Seq<char>>> {
    split_keep(content, 0, '\n').map_values(words_fn()).filter(meaningful_fn())
}

/// The file the remaining lines parse to, starting from state `st`.
pub open spec fn parse_from(wls: Seq<Seq<Seq<char>>>, i: int, st: PStateView) -> Result<
    RawFileView,
    ParseErrView,
>
    decreases wls.len() - i,
{
    if i < 0 || i >= wls.len() {
        if !st.have_pkg {
            Err(ParseErrView { kind: ParseErrKind::MissingPackage, detail: Seq::empty() })
        } else {
            match st.ctx {
                ParseCtxView::Top => Ok(st.file),
                _ => Err(ParseErrView { kind: ParseErrKind::UnclosedBlock, detail: Seq::empty() }),
            }
        }
    } else {
        match step(st, wls[i]) {
            Ok(st2) => parse_from(wls, i + 1, st2),
            Err(e) => Err(e),
        }
    }
}

/// What one file's text parses to.
pub open spec fn parse_file_spec(content: Seq<char>) -> Result<RawFileView, ParseErrView> {
    parse_from(word_lines(content), 0, init_pstate())
}

/// Reads a package word, as `pkg_word` describes it.
fn pkg_word_exec(w: &str) -> (r: Option<(String, String, Option<String>)>)
    ensures
        match r {
            Some(t) => pkg_word(w@) == Some(
                PkgWordView {
                    ns: t.0@,
                    name: t.1@,
                    version: match t.2 {
                        Some(v) => Some(v@),
                        None => None::<Seq<char>>,
                    },
                },
            ),
            None => pkg_word(w@) is None,
        },
{
    let n = w.unicode_len();
    let colon = find_char_exec(w, 0, ':');
    proof {
        lemma_find_char(w@, 0, ':');
    }
    if colon == 0 || colon >= n {
        return None;
    }
    let at = find_char_exec(w, colon + 1, '@');
    proof {
        lemma_find_char(w@, colon as int + 1, '@');
    }
    if at >= n {
        if colon + 1 < n {
            Some(
                (
                    w.substring_char(0, colon).to_owned(),
                    w.substring_char(colon + 1, n).to_owned(),
                    None,
                ),
            )
        } else {
            None
        }
    } else if colon + 1 < at && at + 1 < n {
        Some(
            (
                w.substring_char(0, colon).to_owned(),
                w.substring_char(colon + 1, at).to_owned(),
                Some(w.substring_char(at + 1, n).to_owned()),
            ),
        )
    } else {
        None
    }
}

/// Decides `plain_name`.
fn plain_name_exec(w: &str) -> (r: bool)
    ensures
        r == plain_name(w@),
{
    let n = w.unicode_len();
    proof {
        lemma_find_char(w@, 0, ':');
        lemma_find_char(w@, 0, '/');
        lemma_find_char(w@, 0, '<');
        lemma_find_char(w@, 0, '>');
        lemma_find_char(w@, 0, ',');
        lemma_find_char(w@, 0, '.');
    }
    n > 0 && find_char_exec(w, 0, ':') == n && find_char_exec(w, 0, '/') == n && find_char_exec(
        w,
        0,
        '<',
    ) == n && find_char_exec(w, 0, '>') == n && find_char_exec(w, 0, ',') == n && find_char_exec(
        w,
        0,
        '.',
    ) == n
}

/// Reads the primitive a word names, as `prim_of_word` describes it.
fn prim_of_word_exec(w: &str) -> (r: Option<Prim>)
    ensures
        r == prim_of_word(w@),
{
    let e = crate::text::str_eq;
    if e(w, "bool") {
        Some(Prim::Bool)
    } else if e(w, "u8") {
        Some(Prim::U8)
    } else if e(w, "u16") {
        Some(Prim::U16)
    } else if e(w, "u32") {
        Some(Prim::U32)
    } else if e(w, "u64") {
        Some(Prim::U64)
    } else if e(w, "s8") {
        Some(Prim::S8)
    } else if e(w, "s16") {
        Some(Prim::S16)
    } else if e(w, "s32") {
        Some(Prim::S32)
    } else if e(w, "s64") {
        Some(Prim::S64)
    } else if e(w, "f32") {
        Some(Prim::Float32)
    } else if e(w, "f64") {
        Some(Prim::Float64)
    } else if e(w, "char") {
        Some(Prim::CharPrim)
    } else if e(w, "string") {
        Some(Prim::StringPrim)
    } else {
        None
    }
}

/// Reads a type use, as `ref_of_word` describes it.
fn ref_of_word_exec(w: &str) -> (r: Option<RawRef>)
    ensures
        match r {
            Some(t) => ref_of_word(w@) == Some(t.deep_view()),
            None => ref_of_word(w@) is None,
        },
{
    match prim_of_word_exec(w) {
        Some(p) => Some(RawRef::PrimRef(p)),
        None => {
            let n = w.unicode_len();
            let slash = find_char_exec(w, 0, '/');
            proof {
                lemma_find_char(w@, 0, '/');
            }
            if slash >= n {
                if plain_name_exec(w) {
                    Some(RawRef::Local(w.to_owned()))
                } else {
                    None
                }
            } else {
                let colon = find_char_exec(w, 0, ':');
                let dot = find_char_exec(w, slash + 1, '.');
                proof {
                    lemma_find_char(w@, 0, ':');
                    lemma_find_char(w@, slash as int + 1, '.');
                }
                if 0 < colon && colon < slash && colon + 1 < slash && slash + 1 < dot && dot < n
                    && dot + 1 < n {
                    Some(
                        RawRef::Qualified {
                            ns: w.substring_char(0, colon).to_owned(),
                            pkg: w.substring_char(colon + 1, slash).to_owned(),
                            iface: w.substring_char(slash + 1, dot).to_owned(),
                            ty: w.substring_char(dot + 1, n).to_owned(),
                        },
                    )
                } else {
                    None
                }
            }
        },
    }
}

/// Reads an interface reference, as `iface_ref_of_word` describes it.
fn iface_ref_of_word_exec(w: &str) -> (r: Option<RawIfaceRef>)
    ensures
        match r {
            Some(t) => iface_ref_of_word(w@) == Some(t.deep_view()),
            None => iface_ref_of_word(w@) is None,
        },
{
    let n = w.unicode_len();
    let slash = find_char_exec(w, 0, '/');
    proof {
        lemma_find_char(w@, 0, '/');
    }
    if slash >= n {
        if plain_name_exec(w) {
            Some(RawIfaceRef::Local(w.to_owned()))
        } else {
            None
        }
    } else {
        let colon = find_char_exec(w, 0, ':');
        proof {
            lemma_find_char(w@, 0, ':');
        }
        if 0 < colon && colon < slash && colon + 1 < slash && slash + 1 < n {
            Some(
                RawIfaceRef::Qualified {
                    ns: w.substring_char(0, colon).to_owned(),
                    pkg: w.substring_char(colon + 1, slash).to_owned(),
                    iface: w.substring_char(slash + 1, n).to_owned(),
                },
            )
        } else {
            None
        }
    }
}

/// Reads a `name:type` word, as `field_of_word` describes it.
fn field_of_word_exec(w: &str) -> (r: Option<RawField>)
    ensures
        match r {
            Some(f) => field_of_word(w@) == Some(f.deep_view()),
            None => field_of_word(w@) is None,
        },
{
    let n = w.unicode_len();
    let colon = find_char_exec(w, 0, ':');
    proof {
        lemma_find_char(w@, 0, ':');
    }
    if 0 < colon && colon < n {
        let rest = w.substring_char(colon + 1, n);
        match ref_of_word_exec(rest) {
            Some(t) => Some(RawField { name: w.substring_char(0, colon).to_owned(), ty: t }),
            None => None,
        }
    } else {
        None
    }
}

/// Reads a variant case word, as `case_of_word` describes it.
fn case_of_word_exec(w: &str) -> (r: Option<RawCase>)
    ensures
        match r {
            Some(c) => case_of_word(w@) == Some(c.deep_view()),
            None => case_of_word(w@) is None,
        },
{
    let n = w.unicode_len();
    let colon = find_char_exec(w, 0, ':');
    proof {
        lemma_find_char(w@, 0, ':');
    }
    if colon >= n {
        if n > 0 {
            Some(RawCase { name: w.to_owned(), ty: None })
        } else {
            None
        }
    } else {
        match field_of_word_exec(w) {
            Some(f) => Some(RawCase { name: f.name, ty: Some(f.ty) }),
            None => None,
        }
    }
}

/// Reads a `result` argument, as `result_arg_of_word` describes it.
fn result_arg_exec(w: &str) -> (r: Option<Option<RawRef>>)
    ensures
        match r {
            Some(Some(t)) => result_arg_of_word(w@) == Some(Some(t.deep_view())),
            Some(None) => result_arg_of_word(w@) == Some(None::<RawRefView>),
            None => result_arg_of_word(w@) is None,
        },
{
    if crate::text::str_eq(w, "_") {
        Some(None)
    } else {
        match ref_of_word_exec(w) {
            Some(t) => Some(Some(t)),
            None => None,
        }
    }
}

/// Reads every word of an argument list as a type use, as `refs_of_words`
/// describes it.
fn refs_of_words_exec(ws: &Vec<String>, from: usize) -> (r: Option<Vec<RawRef>>)
    requires
        from <= ws@.len(),
    ensures
        match r {
            Some(ts) => refs_of_words(ws.deep_view(), from as int) == Some(ts.deep_view()),
            None => refs_of_words(ws.deep_view(), from as int) is None,
        },
{
    let ghost wsv = ws.deep_view();
    let mut out: Vec<RawRef> = Vec::new();
    let mut i: usize = from;
    while i < ws.len()
        invariant
            from <= i <= ws.len(),
            wsv == ws.deep_view(),
            refs_of_words(wsv, from as int) == (match refs_of_words(wsv, i as int) {
                Some(rest) => Some(out.deep_view() + rest),
                None => None::<Seq<RawRefView>>,
            }),
        decreases ws.len() - i,
    {
        match ref_of_word_exec(ws[i].as_str()) {
            Some(t) => {
                crate::seqs::push_dv(&mut out, t);
                proof {
                    assert forall|rest2: Seq<RawRefView>|
                        refs_of_words(wsv, i as int + 1) == Some(rest2) implies out.deep_view()
                        + rest2 =~= (match refs_of_words(wsv, i as int) {
                        Some(rest) => out.deep_view().drop_last() + rest,
                        None => rest2,
                    }) by {}
                }
            },
            None => {
                return None;
            },
        }
        i += 1;
    }
    proof {
        assert(refs_of_words(wsv, ws.len() as int) == Some(Seq::<RawRefView>::empty()));
        assert(out.deep_view() + Seq::<RawRefView>::empty() =~= out.deep_view());
    }
    Some(out)
}

/// Reads every `name:type` word up to `to`, as `fields_of_words` describes
/// it.
fn fields_of_words_exec(ws: &Vec<String>, from: usize, to: usize) -> (r: Option<Vec<RawField>>)
    requires
        from <= to || from <= ws@.len(),
        to <= ws@.len(),
    ensures
        match r {
            Some(fs) => fields_of_words(ws.deep_view(), from as int, to as int) == Some(
                fs.deep_view(),
            ),
            None => fields_of_words(ws.deep_view(), from as int, to as int) is None,
        },
{
    let ghost wsv = ws.deep_view();
    let mut out: Vec<RawField> = Vec::new();
    let mut i: usize = from;
    while i < to
        invariant
            i <= to || i == from,
            to <= ws@.len(),
            wsv == ws.deep_view(),
            fields_of_words(wsv, from as int, to as int) == (match fields_of_words(
                wsv,
                i as int,
                to as int,
            ) {
                Some(rest) => Some(out.deep_view() + rest),
                None => None::<Seq<RawFieldView>>,
            }),
        decreases to - i,
    {
        match field_of_word_exec(ws[i].as_str()) {
            Some(f) => {
                crate::seqs::push_dv(&mut out, f);
            },
            None => {
                return None;
            },
        }
        i += 1;
    }
    proof {
        assert(fields_of_words(wsv, i as int, to as int) == Some(Seq::<RawFieldView>::empty()));
        assert(out.deep_view() + Seq::<RawFieldView>::empty() =~= out.deep_view());
    }
    Some(out)
}

/// Reads every variant case word, as `cases_of_words` describes it.
fn cases_of_words_exec(ws: &Vec<String>, from: usize) -> (r: Option<Vec<RawCase>>)
    requires
        from <= ws@.len(),
    ensures
        match r {
            Some(cs) => cases_of_words(ws.deep_view(), from as int) == Some(cs.deep_view()),
            None => cases_of_words(ws.deep_view(), from as int) is None,
        },
{
    let ghost wsv = ws.deep_view();
    let mut out: Vec<RawCase> = Vec::new();
    let mut i: usize = from;
    while i < ws.len()
        invariant
            from <= i <= ws.len(),
            wsv == ws.deep_view(),
            cases_of_words(wsv, from as int) == (match cases_of_words(wsv, i as int) {
                Some(rest) => Some(out.deep_view() + rest),
                None => None::<Seq<RawCaseView>>,
            }),
        decreases ws.len() - i,
    {
        match case_of_word_exec(ws[i].as_str()) {
            Some(c) => {
                crate::seqs::push_dv(&mut out, c);
            },
            None => {
                return None;
            },
        }
        i += 1;
    }
    proof {
        assert(cases_of_words(wsv, ws.len() as int) == Some(Seq::<RawCaseView>::empty()));
        assert(out.deep_view() + Seq::<RawCaseView>::empty() =~= out.deep_view());
    }
    Some(out)
}

/// Reads a constructed type, as `ctor_of_word` describes it.
fn ctor_of_word_exec(w: &str) -> (r: Option<RawShape>)
    ensures
        match r {
            Some(s) => ctor_of_word(w@) == Some(s.deep_view()),
            None => ctor_of_word(w@) is None,
        },
{
    let n = w.unicode_len();
    let lt = find_char_exec(w, 0, '<');
    proof {
        lemma_find_char(w@, 0, '<');
    }
    if lt == 0 || lt >= n {
        return None;
    }
    if !(w.get_char(n - 1) == '>') {
        return None;
    }
    if lt + 1 > n - 1 {
        return None;
    }
    let head = w.substring_char(0, lt);
    let inner = w.substring_char(lt + 1, n - 1);
    let args = split_keep_exec(inner, ',');
    let e = crate::text::str_eq;
    if e(head, "list") {
        if args.len() == 1 {
            match ref_of_word_exec(args[0].as_str()) {
                Some(t) => Some(RawShape::ListOf(t)),
                None => None,
            }
        } else {
            None
        }
    } else if e(head, "option") {
        if args.len() == 1 {
            match ref_of_word_exec(args[0].as_str()) {
                Some(t) => Some(RawShape::OptionOf(t)),
                None => None,
            }
        } else {
            None
        }
    } else if e(head, "result") {
        if args.len() == 2 {
            let a0 = result_arg_exec(args[0].as_str());
            let a1 = result_arg_exec(args[1].as_str());
            match (a0, a1) {
                (Some(o), Some(er)) => Some(RawShape::ResultOf(o, er)),
                _ => None,
            }
        } else {
            None
        }
    } else if e(head, "tuple") {
        if args.len() >= 1 {
            match refs_of_words_exec(&args, 0) {
                Some(ts) => Some(RawShape::TupleOf(ts)),
                None => None,
            }
        } else {
            None
        }
    } else {
        None
    }
}

/// Copies the words from `from` on, as bare tags.
fn tags_exec(ws: &Vec<String>, from: usize) -> (r: Vec<String>)
    requires
        from <= ws@.len(),
    ensures
        r.deep_view() == ws.deep_view().subrange(from as int, ws.deep_view().len() as int),
{
    let ghost wsv = ws.deep_view();
    let mut out: Vec<String> = Vec::new();
    let mut i: usize = from;
    while i < ws.len()
        invariant
            from <= i <= ws.len(),
            wsv == ws.deep_view(),
            out.deep_view() == wsv.subrange(from as int, i as int),
        decreases ws.len() - i,
    {
        crate::seqs::push_dv(&mut out, ws[i].clone());
        proof {
            assert(out.deep_view() =~= wsv.subrange(from as int, i as int + 1));
        }
        i += 1;
    }
    out
}

/// Applies one meaningful line to the parser's state, as `step` describes it.
fn step_exec(st: PState, ws: &Vec<String>) -> (r: Result<PState, ParseErr>)
    requires
        ws@.len() > 0,
    ensures
        match r {
            Ok(s2) => step(st.deep_view(), ws.deep_view()) == Ok::<PStateView, ParseErrView>(
                s2.deep_view(),
            ),
            Err(e) => step(st.deep_view(), ws.deep_view()) == Err::<PStateView, ParseErrView>(
                e.deep_view(),
            ),
        },
{
    let ghost st0 = st.deep_view();
    let ghost wsv = ws.deep_view();
    let e = crate::text::str_eq;
    let w0 = &ws[0];
    let PState { have_pkg, mut file, ctx } = st;
    if !have_pkg {
        if e(w0.as_str(), "package") && ws.len() == 2 {
            match pkg_word_exec(ws[1].as_str()) {
                Some(p) => {
                    let (ns, name, version) = p;
                    file.namespace = ns;
                    file.pkg = name;
                    file.version = version;
                    let s2 = PState { have_pkg: true, file, ctx };
                    proof {
                        assert(step(st0, wsv) matches Ok(v) && v =~= s2.deep_view());
                    }
                    Ok(s2)
                },
                None => Err(
                    ParseErr { kind: ParseErrKind::MissingPackage, detail: ws[1].clone() },
                ),
            }
        } else {
            Err(ParseErr { kind: ParseErrKind::MissingPackage, detail: w0.clone() })
        }
    } else if e(w0.as_str(), "package") {
        Err(ParseErr { kind: ParseErrKind::DuplicatePackage, detail: w0.clone() })
    } else if e(w0.as_str(), "interface") {
        match ctx {
            ParseCtx::Top => {
                if ws.len() == 2 && plain_name_exec(ws[1].as_str()) {
                    let s2 = PState {
                        have_pkg,
                        file,
                        ctx: ParseCtx::InIface(
                            RawInterface {
                                name: ws[1].clone(),
                                types: Vec::new(),
                                funcs: Vec::new(),
                            },
                        ),
                    };
                    proof {
                        assert(step(st0, wsv) matches Ok(v) && v =~= s2.deep_view());
                    }
                    Ok(s2)
                } else {
                    Err(ParseErr { kind: ParseErrKind::BadDeclaration, detail: w0.clone() })
                }
            },
            _ => Err(ParseErr { kind: ParseErrKind::MisplacedLine, detail: w0.clone() }),
        }
    } else if e(w0.as_str(), "world") {
        match ctx {
            ParseCtx::Top => {
                if ws.len() == 2 && plain_name_exec(ws[1].as_str()) {
                    let s2 = PState {
                        have_pkg,
                        file,
                        ctx: ParseCtx::InWorld(
                            RawWorld {
                                name: ws[1].clone(),
                                imports: Vec::new(),
                                exports: Vec::new(),
                            },
                        ),
                    };
                    proof {
                        assert(step(st0, wsv) matches Ok(v) && v =~= s2.deep_view());
                    }
                    Ok(s2)
                } else {
                    Err(ParseErr { kind: ParseErrKind::BadDeclaration, detail: w0.clone() })
                }
            },
            _ => Err(ParseErr { kind: ParseErrKind::MisplacedLine, detail: w0.clone() }),
        }
    } else if e(w0.as_str(), "end") {
        if ws.len() != 1 {
            Err(ParseErr { kind: ParseErrKind::BadDeclaration, detail: w0.clone() })
        } else {
            match ctx {
                ParseCtx::Top => Err(
                    ParseErr { kind: ParseErrKind::MisplacedLine, detail: w0.clone() },
                ),
                ParseCtx::InIface(ifc) => {
                    crate::seqs::push_dv(&mut file.interfaces, ifc);
                    let s2 = PState { have_pkg, file, ctx: ParseCtx::Top };
                    proof {
                        assert(step(st0, wsv) matches Ok(v) && v =~= s2.deep_view());
                    }
                    Ok(s2)
                },
                ParseCtx::InWorld(w) => {
                    crate::seqs::push_dv(&mut file.worlds, w);
                    let s2 = PState { have_pkg, file, ctx: ParseCtx::Top };
                    proof {
                        assert(step(st0, wsv) matches Ok(v) && v =~= s2.deep_view());
                    }
                    Ok(s2)
                },
            }
        }
    } else if e(w0.as_str(), "record") || e(w0.as_str(), "variant") || e(w0.as_str(), "enum") || e(
        w0.as_str(),
        "flags",
    ) || e(w0.as_str(), "resource") || e(w0.as_str(), "type") || e(w0.as_str(), "func") {
        match ctx {
            ParseCtx::InIface(ifc) => {
                let r = step_iface_exec(have_pkg, file, ifc, ws);
                proof {
                    match &r {
                        Ok(s2) => {
                            assert(step(st0, wsv) == Ok::<PStateView, ParseErrView>(
                                s2.deep_view(),
                            ));
                        },
                        Err(er) => {
                            assert(step(st0, wsv) == Err::<PStateView, ParseErrView>(
                                er.deep_view(),
                            ));
                        },
                    }
                }
                r
            },
            _ => Err(ParseErr { kind: ParseErrKind::MisplacedLine, detail: w0.clone() }),
        }
    } else if e(w0.as_str(), "import") || e(w0.as_str(), "export") {
        match ctx {
            ParseCtx::InWorld(mut w) => {
                if ws.len() == 2 {
                    match iface_ref_of_word_exec(ws[1].as_str()) {
                        Some(ir) => {
                            if e(w0.as_str(), "import") {
                                crate::seqs::push_dv(&mut w.imports, ir);
                            } else {
                                crate::seqs::push_dv(&mut w.exports, ir);
                            }
                            let s2 = PState { have_pkg, file, ctx: ParseCtx::InWorld(w) };
                            proof {
                                assert(step(st0, wsv) matches Ok(v) && v =~= s2.deep_view());
                            }
                            Ok(s2)
                        },
                        None => Err(
                            ParseErr { kind: ParseErrKind::BadReference, detail: ws[1].clone() },
                        ),
                    }
                } else {
                    Err(ParseErr { kind: ParseErrKind::BadDeclaration, detail: w0.clone() })
                }
            },
            _ => Err(ParseErr { kind: ParseErrKind::MisplacedLine, detail: w0.clone() }),
        }
    } else {
        Err(ParseErr { kind: ParseErrKind::UnknownDeclaration, detail: w0.clone() })
    }
}

/// Applies one declaration inside an interface block, as `step_iface`
/// describes it.
fn step_iface_exec(have_pkg: bool, file: RawFile, ifc: RawInterface, ws: &Vec<String>) -> (r:
    Result<PState, ParseErr>)
    requires
        ws@.len() > 0,
        have_pkg,
    ensures
        match r {
            Ok(s2) => step_iface(
                PStateView {
                    have_pkg,
                    file: file.deep_view(),
                    ctx: ParseCtxView::InIface(ifc.deep_view()),
                },
                ifc.deep_view(),
                ws.deep_view(),
            ) == Ok::<PStateView, ParseErrView>(s2.deep_view()),
            Err(er) => step_iface(
                PStateView {
                    have_pkg,
                    file: file.deep_view(),
                    ctx: ParseCtxView::InIface(ifc.deep_view()),
                },
                ifc.deep_view(),
                ws.deep_view(),
            ) == Err::<PStateView, ParseErrView>(er.deep_view()),
        },
{
    let ghost st0 = PStateView {
        have_pkg,
        file: file.deep_view(),
        ctx: ParseCtxView::InIface(ifc.deep_view()),
    };
    let ghost ifc0 = ifc.deep_view();
    let ghost wsv = ws.deep_view();
    let e = crate::text::str_eq;
    let w0 = &ws[0];
    if ws.len() < 2 || !plain_name_exec(ws[1].as_str()) {
        return Err(ParseErr { kind: ParseErrKind::BadDeclaration, detail: w0.clone() });
    }
    let mut ifc = ifc;
    if e(w0.as_str(), "record") {
        match fields_of_words_exec(ws, 2, ws.len()) {
            Some(fs) => {
                let td = RawTypeDef { name: ws[1].clone(), shape: RawShape::Record(fs) };
                crate::seqs::push_dv(&mut ifc.types, td);
                let s2 = PState { have_pkg, file, ctx: ParseCtx::InIface(ifc) };
                proof {
                    assert(step_iface(st0, ifc0, wsv) matches Ok(v) && v =~= s2.deep_view());
                }
                Ok(s2)
            },
            None => Err(ParseErr { kind: ParseErrKind::BadReference, detail: w0.clone() }),
        }
    } else if e(w0.as_str(), "variant") {
        match cases_of_words_exec(ws, 2) {
            Some(cs) => {
                let td = RawTypeDef { name: ws[1].clone(), shape: RawShape::Variant(cs) };
                crate::seqs::push_dv(&mut ifc.types, td);
                let s2 = PState { have_pkg, file, ctx: ParseCtx::InIface(ifc) };
                proof {
                    assert(step_iface(st0, ifc0, wsv) matches Ok(v) && v =~= s2.deep_view());
                }
                Ok(s2)
            },
            None => Err(ParseErr { kind: ParseErrKind::BadReference, detail: w0.clone() }),
        }
    } else if e(w0.as_str(), "enum") {
        let td = RawTypeDef { name: ws[1].clone(), shape: RawShape::EnumShape(tags_exec(ws, 2)) };
        crate::seqs::push_dv(&mut ifc.types, td);
        let s2 = PState { have_pkg, file, ctx: ParseCtx::InIface(ifc) };
        proof {
            assert(step_iface(st0, ifc0, wsv) matches Ok(v) && v =~= s2.deep_view());
        }
        Ok(s2)
    } else if e(w0.as_str(), "flags") {
        let td = RawTypeDef { name: ws[1].clone(), shape: RawShape::FlagsShape(tags_exec(ws, 2)) };
        crate::seqs::push_dv(&mut ifc.types, td);
        let s2 = PState { have_pkg, file, ctx: ParseCtx::InIface(ifc) };
        proof {
            assert(step_iface(st0, ifc0, wsv) matches Ok(v) && v =~= s2.deep_view());
        }
        Ok(s2)
    } else if e(w0.as_str(), "resource") {
        if ws.len() == 2 {
            let td = RawTypeDef { name: ws[1].clone(), shape: RawShape::Resource };
            crate::seqs::push_dv(&mut ifc.types, td);
            let s2 = PState { have_pkg, file, ctx: ParseCtx::InIface(ifc) };
            proof {
                assert(step_iface(st0, ifc0, wsv) matches Ok(v) && v =~= s2.deep_view());
            }
            Ok(s2)
        } else {
            Err(ParseErr { kind: ParseErrKind::BadDeclaration, detail: w0.clone() })
        }
    } else if e(w0.as_str(), "type") {
        if ws.len() == 3 {
            match ctor_of_word_exec(ws[2].as_str()) {
                Some(shape) => {
                    let td = RawTypeDef { name: ws[1].clone(), shape };
                    crate::seqs::push_dv(&mut ifc.types, td);
                    let s2 = PState { have_pkg, file, ctx: ParseCtx::InIface(ifc) };
                    proof {
                        assert(step_iface(st0, ifc0, wsv) matches Ok(v) && v =~= s2.deep_view());
                    }
                    Ok(s2)
                },
                None => Err(ParseErr { kind: ParseErrKind::BadReference, detail: ws[2].clone() }),
            }
        } else {
            Err(ParseErr { kind: ParseErrKind::BadDeclaration, detail: w0.clone() })
        }
    } else {
        let arrow = find_word_exec(ws, 2, "->");
        proof {
            lemma_find_word(wsv, 2, "->"@);
        }
        match fields_of_words_exec(ws, 2, arrow) {
            Some(ps) => {
                if arrow >= ws.len() {
                    let f = RawFunction {
                        name: ws[1].clone(),
                        params: ps,
                        results: RawResults::NoResult,
                    };
                    crate::seqs::push_dv(&mut ifc.funcs, f);
                    let s2 = PState { have_pkg, file, ctx: ParseCtx::InIface(ifc) };
                    proof {
                        assert(step_iface(st0, ifc0, wsv) matches Ok(v) && v =~= s2.deep_view());
                    }
                    Ok(s2)
                } else if arrow + 1 >= ws.len() {
                    Err(ParseErr { kind: ParseErrKind::BadDeclaration, detail: w0.clone() })
                } else {
                    let single = if arrow + 2 == ws.len() {
                        ref_of_word_exec(ws[arrow + 1].as_str())
                    } else {
                        None
                    };
                    match single {
                        Some(t) => {
                            let f = RawFunction {
                                name: ws[1].clone(),
                                params: ps,
                                results: RawResults::Single(t),
                            };
                            crate::seqs::push_dv(&mut ifc.funcs, f);
                            let s2 = PState { have_pkg, file, ctx: ParseCtx::InIface(ifc) };
                            proof {
                                assert(step_iface(st0, ifc0, wsv) matches Ok(v) && v
                                    =~= s2.deep_view());
                            }
                            Ok(s2)
                        },
                        None => {
                            match fields_of_words_exec(ws, arrow + 1, ws.len()) {
                                Some(rs) => {
                                    let f = RawFunction {
                                        name: ws[1].clone(),
                                        params: ps,
                                        results: RawResults::NamedResults(rs),
                                    };
                                    crate::seqs::push_dv(&mut ifc.funcs, f);
                                    let s2 = PState {
                                        have_pkg,
                                        file,
                                        ctx: ParseCtx::InIface(ifc),
                                    };
                                    proof {
                                        assert(step_iface(st0, ifc0, wsv) matches Ok(v) && v
                                            =~= s2.deep_view());
                                    }
                                    Ok(s2)
                                },
                                None => Err(
                                    ParseErr {
                                        kind: ParseErrKind::BadReference,
                                        detail: w0.clone(),
                                    },
                                ),
                            }
                        },
                    }
                }
            },
            None => Err(ParseErr { kind: ParseErrKind::BadReference, detail: w0.clone() }),
        }
    }
}

/// Decides `meaningful` for one word line.
fn meaningful_exec(ws: &Vec<String>) -> (r: bool)
    ensures
        r == meaningful(ws.deep_view()),
{
    if ws.len() == 0 {
        return false;
    }
    let first = &ws[0];
    let n = first.as_str().unicode_len();
    if n >= 2 {
        let c0 = first.as_str().get_char(0);
        let c1 = first.as_str().get_char(1);
        !(c0 == '/' && c1 == '/')
    } else {
        true
    }
}

/// Parses one file's text into a raw package fragment, as `parse_file_spec`
/// describes it.
pub fn parse_file(content: &str) -> (r: Result<RawFile, ParseErr>)
    ensures
        match r {
            Ok(f) => parse_file_spec(content@) == Ok::<RawFileView, ParseErrView>(f.deep_view()),
            Err(e) => parse_file_spec(content@) == Err::<RawFileView, ParseErrView>(e.deep_view()),
        },
{
    let ghost cv = content@;
    let lines = split_keep_exec(content, '\n');
    let ghost linesv = lines.deep_view();
    let ghost mapped = linesv.map_values(words_fn());
    let mut wls: Vec<Vec<String>> = Vec::new();
    let mut i: usize = 0;
    while i < lines.len()
        invariant
            i <= lines.len(),
            linesv == lines.deep_view(),
            mapped == linesv.map_values(words_fn()),
            wls.deep_view() == mapped.take(i as int).filter(meaningful_fn()),
        decreases lines.len() - i,
    {
        let words = split_drop_exec(lines[i].as_str(), ' ');
        proof {
            assert(words.deep_view() == mapped[i as int]);
            crate::seqs::lemma_filter_take_succ(mapped, meaningful_fn(), i as int);
        }
        if meaningful_exec(&words) {
            crate::seqs::push_dv(&mut wls, words);
        }
        proof {
            assert(wls.deep_view() =~= mapped.take(i as int + 1).filter(meaningful_fn()));
        }
        i += 1;
    }
    proof {
        assert(mapped.take(lines.len() as int) =~= mapped);
        assert(wls.deep_view() == word_lines(cv));
    }
    let ghost wlv = wls.deep_view();
    let mut st = PState {
        have_pkg: false,
        file: RawFile {
            namespace: String::new(),
            pkg: String::new(),
            version: None,
            interfaces: Vec::new(),
            worlds: Vec::new(),
        },
        ctx: ParseCtx::Top,
    };
    proof {
        assert(st.deep_view() =~= init_pstate());
    }
    let mut j: usize = 0;
    while j < wls.len()
        invariant
            j <= wls.len(),
            wlv == wls.deep_view(),
            wlv == word_lines(content@),
            parse_from(wlv, 0, init_pstate()) == parse_from(wlv, j as int, st.deep_view()),
        decreases wls.len() - j,
    {
        proof {
            assert(wlv[j as int].len() == wls[j as int]@.len());
            assert(meaningful(wlv[j as int])) by {
                let base = split_keep(content@, 0, '\n').map_values(words_fn());
                base.lemma_filter_pred(meaningful_fn(), j as int);
            }
        }
        match step_exec(st, &wls[j]) {
            Ok(s2) => {
                st = s2;
            },
            Err(e) => {
                return Err(e);
            },
        }
        j += 1;
    }
    if !st.have_pkg {
        return Err(ParseErr { kind: ParseErrKind::MissingPackage, detail: String::new() });
    }
    match st.ctx {
        ParseCtx::Top => Ok(st.file),
        _ => Err(ParseErr { kind: ParseErrKind::UnclosedBlock, detail: String::new() }),
    }
}

/// Finds the first position at or after `from` holding exactly the word `w`.
fn find_word_exec(ws: &Vec<String>, from: usize, w: &str) -> (r: usize)
    requires
        from <= ws@.len(),
    ensures
        r as int == find_word(ws.deep_view(), from as int, w@),
{
    let ghost wsv = ws.deep_view();
    let mut i: usize = from;
    while i < ws.len()
        invariant
            from <= i <= ws.len(),
            wsv == ws.deep_view(),
            find_word(wsv, from as int, w@) == find_word(wsv, i as int, w@),
        decreases ws.len() - i,
    {
        if crate::text::str_eq(ws[i].as_str(), w) {
            return i;
        }
        i += 1;
    }
    ws.len()
}


/// A fresh copy of a textual type reference.
pub(crate) fn copy_raw_ref(t: &RawRef) -> (r: RawRef)
    ensures
        r.deep_view() == t.deep_view(),
{
    match t {
        RawRef::PrimRef(p) => RawRef::PrimRef(*p),
        RawRef::Local(n) => RawRef::Local(n.clone()),
        RawRef::Qualified { ns, pkg, iface, ty } => RawRef::Qualified {
            ns: ns.clone(),
            pkg: pkg.clone(),
            iface: iface.clone(),
            ty: ty.clone(),
        },
    }
}

/// A fresh copy of a field list.
fn copy_raw_fields(v: &Vec<RawField>) -> (r: Vec<RawField>)
    ensures
        r.deep_view() == v.deep_view(),
{
    let mut r: Vec<RawField> = Vec::new();
    let mut i: usize = 0;
    while i < v.len()
        invariant
            i <= v.len(),
            r.deep_view() == v.deep_view().take(i as int),
        decreases v.len() - i,
    {
        let x = RawField { name: v[i].name.clone(), ty: copy_raw_ref(&v[i].ty) };
        proof {
            assert(x.deep_view() =~= v.deep_view()[i as int]);
        }
        crate::seqs::push_dv(&mut r, x);
        proof {
            assert(r.deep_view() =~= v.deep_view().take(i as int + 1));
        }
        i += 1;
    }
    proof {
        assert(v.deep_view().take(v.len() as int) =~= v.deep_view());
    }
    r
}

/// A fresh copy of a case list.
fn copy_raw_cases(v: &Vec<RawCase>) -> (r: Vec<RawCase>)
    ensures
        r.deep_view() == v.deep_view(),
{
    let mut r: Vec<RawCase> = Vec::new();
    let mut i: usize = 0;
    while i < v.len()
        invariant
            i <= v.len(),
            r.deep_view() == v.deep_view().take(i as int),
        decreases v.len() - i,
    {
        let x = RawCase {
            name: v[i].name.clone(),
            ty: match &v[i].ty {
                Some(t) => Some(copy_raw_ref(t)),
                None => None,
            },
        };
        proof {
            assert(x.deep_view() =~= v.deep_view()[i as int]);
        }
        crate::seqs::push_dv(&mut r, x);
        proof {
            assert(r.deep_view() =~= v.deep_view().take(i as int + 1));
        }
        i += 1;
    }
    proof {
        assert(v.deep_view().take(v.len() as int) =~= v.deep_view());
    }
    r
}

/// A fresh copy of a reference list.
fn copy_raw_refs(v: &Vec<RawRef>) -> (r: Vec<RawRef>)
    ensures
        r.deep_view() == v.deep_view(),
{
    let mut r: Vec<RawRef> = Vec::new();
    let mut i: usize = 0;
    while i < v.len()
        invariant
            i <= v.len(),
            r.deep_view() == v.deep_view().take(i as int),
        decreases v.len() - i,
    {
        let x = copy_raw_ref(&v[i]);
        crate::seqs::push_dv(&mut r, x);
        proof {
            assert(r.deep_view() =~= v.deep_view().take(i as int + 1));
        }
        i += 1;
    }
    proof {
        assert(v.deep_view().take(v.len() as int) =~= v.deep_view());
    }
    r
}

/// A fresh copy of a raw shape.
fn copy_raw_shape(sh: &RawShape) -> (r: RawShape)
    ensures
        r.deep_view() == sh.deep_view(),
{
    match sh {
        RawShape::Record(fs) => RawShape::Record(copy_raw_fields(fs)),
        RawShape::Variant(cs) => RawShape::Variant(copy_raw_cases(cs)),
        RawShape::EnumShape(ts) => RawShape::EnumShape(crate::text::copy_strings(ts)),
        RawShape::FlagsShape(ts) => RawShape::FlagsShape(crate::text::copy_strings(ts)),
        RawShape::Resource => RawShape::Resource,
        RawShape::ListOf(t) => RawShape::ListOf(copy_raw_ref(t)),
        RawShape::OptionOf(t) => RawShape::OptionOf(copy_raw_ref(t)),
        RawShape::ResultOf(o, e) => RawShape::ResultOf(
            match o {
                Some(t) => Some(copy_raw_ref(t)),
                None => None,
            },
            match e {
                Some(t) => Some(copy_raw_ref(t)),
                None => None,
            },
        ),
        RawShape::TupleOf(ts) => RawShape::TupleOf(copy_raw_refs(ts)),
    }
}

/// A fresh copy of one interface block, member by member.
pub(crate) fn copy_raw_interface(ifc: &RawInterface) -> (r: RawInterface)
    ensures
        r.deep_view() == ifc.deep_view(),
{
    let mut types: Vec<RawTypeDef> = Vec::new();
    let mut i: usize = 0;
    while i < ifc.types.len()
        invariant
            i <= ifc.types.len(),
            types.deep_view() == ifc.types.deep_view().take(i as int),
        decreases ifc.types.len() - i,
    {
        let x = RawTypeDef {
            name: ifc.types[i].name.clone(),
            shape: copy_raw_shape(&ifc.types[i].shape),
        };
        proof {
            assert(x.deep_view() =~= ifc.types.deep_view()[i as int]);
        }
        crate::seqs::push_dv(&mut types, x);
        proof {
            assert(types.deep_view() =~= ifc.types.deep_view().take(i as int + 1));
        }
        i += 1;
    }
    let mut funcs: Vec<RawFunction> = Vec::new();
    let mut j: usize = 0;
    while j < ifc.funcs.len()
        invariant
            j <= ifc.funcs.len(),
            funcs.deep_view() == ifc.funcs.deep_view().take(j as int),
        decreases ifc.funcs.len() - j,
    {
        let f = &ifc.funcs[j];
        let x = RawFunction {
            name: f.name.clone(),
            params: copy_raw_fields(&f.params),
            results: match &f.results {
                RawResults::NoResult => RawResults::NoResult,
                RawResults::Single(t) => RawResults::Single(copy_raw_ref(t)),
                RawResults::NamedResults(fs) => RawResults::NamedResults(copy_raw_fields(fs)),
            },
        };
        proof {
            assert(x.deep_view() =~= ifc.funcs.deep_view()[j as int]);
        }
        crate::seqs::push_dv(&mut funcs, x);
        proof {
            assert(funcs.deep_view() =~= ifc.funcs.deep_view().take(j as int + 1));
        }
        j += 1;
    }
    let r = RawInterface { name: ifc.name.clone(), types, funcs };
    proof {
        assert(ifc.types.deep_view().take(ifc.types.len() as int) =~= ifc.types.deep_view());
        assert(ifc.funcs.deep_view().take(ifc.funcs.len() as int) =~= ifc.funcs.deep_view());
        assert(r.deep_view() =~= ifc.deep_view());
    }
    r
}

/// A fresh copy of one world block, member by member.
pub(crate) fn copy_raw_world(w: &RawWorld) -> (r: RawWorld)
    ensures
        r.deep_view() == w.deep_view(),
{
    let mut imports: Vec<RawIfaceRef> = Vec::new();
    let mut i: usize = 0;
    while i < w.imports.len()
        invariant
            i <= w.imports.len(),
            imports.deep_view() == w.imports.deep_view().take(i as int),
        decreases w.imports.len() - i,
    {
        let x = copy_raw_iface_ref(&w.imports[i]);
        crate::seqs::push_dv(&mut imports, x);
        proof {
            assert(imports.deep_view() =~= w.imports.deep_view().take(i as int + 1));
        }
        i += 1;
    }
    let mut exports: Vec<RawIfaceRef> = Vec::new();
    let mut j: usize = 0;
    while j < w.exports.len()
        invariant
            j <= w.exports.len(),
            exports.deep_view() == w.exports.deep_view().take(j as int),
        decreases w.exports.len() - j,
    {
        let x = copy_raw_iface_ref(&w.exports[j]);
        crate::seqs::push_dv(&mut exports, x);
        proof {
            assert(exports.deep_view() =~= w.exports.deep_view().take(j as int + 1));
        }
        j += 1;
    }
    let r = RawWorld { name: w.name.clone(), imports, exports };
    proof {
        assert(w.imports.deep_view().take(w.imports.len() as int) =~= w.imports.deep_view());
        assert(w.exports.deep_view().take(w.exports.len() as int) =~= w.exports.deep_view());
        assert(r.deep_view() =~= w.deep_view());
    }
    r
}

/// A fresh copy of a world's interface reference.
fn copy_raw_iface_ref(t: &RawIfaceRef) -> (r: RawIfaceRef)
    ensures
        r.deep_view() == t.deep_view(),
{
    match t {
        RawIfaceRef::Local(n) => RawIfaceRef::Local(n.clone()),
        RawIfaceRef::Qualified { ns, pkg, iface } => RawIfaceRef::Qualified {
            ns: ns.clone(),
            pkg: pkg.clone(),
            iface: iface.clone(),
        },
    }
}
} // verus!
