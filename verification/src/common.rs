use vstd::prelude::*;
use vstd::std_specs::convert::FromSpecImpl;

verus! {

/// A half-open byte range `start..end` in the source text.
#[derive(Debug, Clone, Copy, PartialEq, Eq)]
pub struct Span {
    /// inclusive
    pub start: usize,
    /// exclusive
    pub end: usize,
}

impl From<core::ops::Range<usize>> for Span {
    fn from(range: core::ops::Range<usize>) -> (r: Self)
        ensures
            r.start == range.start,
            r.end == range.end,
    {
        Span { start: range.start, end: range.end }
    }
}

impl FromSpecImpl<core::ops::Range<usize>> for Span {
    open spec fn obeys_from_spec() -> bool {
        true
    }

    open spec fn from_spec(v: core::ops::Range<usize>) -> Self {
        Span { start: v.start, end: v.end }
    }
}

impl Span {
    pub fn into_range(self) -> (r: core::ops::Range<usize>)
        ensures
            r.start == self.start,
            r.end == self.end,
    {
        self.start..self.end
    }
}

/// The phase of a syntax tree: what annotations, name references and type
/// annotations its nodes carry.
pub trait Phase {
    /// Annotation
    type Ann: core::fmt::Debug + PartialEq + Eq;
    /// (Parsed: (), Resolved+: SymbolId)
    type NameRef: core::fmt::Debug + PartialEq + Eq;
    /// (Parsed/Resolved: (), Typed: Ty)
    type TypeAnn: core::fmt::Debug + PartialEq + Eq;
}

#[derive(Debug, Clone, PartialEq, Eq)]
pub struct Ident<P: Phase> {
    pub name: String,
    pub id: P::NameRef,
}

#[derive(Debug, Clone, Copy, PartialEq, Eq, Hash)]
pub struct SymbolId(pub u32);

#[derive(Debug, PartialEq, Eq)]
pub enum Ty {
    Int,
    Char,
    Void,
    Ptr(Box<Ty>),
    Span(Box<Ty>),
    ReadonlyPtr(Box<Ty>),
    ReadonlySpan(Box<Ty>),
    Fn { params: Vec<Ty>, ret: Box<Ty> },
    Struct(SymbolId),
}

#[derive(Debug, Clone, Copy, PartialEq, Eq)]
pub struct Parsed;

#[derive(Debug, Clone, Copy, PartialEq, Eq)]
pub struct Resolved;

#[derive(Debug, Clone, Copy, PartialEq, Eq)]
pub struct Typed;

impl Phase for Parsed {
    type Ann = Span;
    type NameRef = ();
    type TypeAnn = ();
}

impl Phase for Resolved {
    type Ann = Span;
    type NameRef = SymbolId;
    type TypeAnn = ();
}

impl Phase for Typed {
    type Ann = Span;
    type NameRef = SymbolId;
    type TypeAnn = Ty;
}

// ── Symbols ──

#[derive(Debug, Clone)]
pub struct ParamInfo {
    pub name: String,
}

#[derive(Debug, Clone)]
pub struct FieldInfo {
    pub name: String,
}

#[derive(Debug, Clone)]
pub struct FnSig {
    pub params: Vec<ParamInfo>,
    /// Debug rendering of the declared return type (used to check `main`'s signature)
    pub ret_ty: String,
}

/// The fields of a struct, and its methods by name. A later entry for a
/// method name replaces an earlier one.
#[derive(Debug, Clone)]
pub struct StructInfo {
    pub fields: Vec<FieldInfo>,
    pub fns: Vec<(String, SymbolId)>,
}

#[derive(Debug, Clone)]
pub enum SymbolKind {
    Var,
    Const,
    Param,
    Fn(FnSig),
    Struct(StructInfo),
}

#[derive(Debug, Clone)]
pub struct Symbol {
    pub id: SymbolId,
    pub name: String,
    pub kind: SymbolKind,
    pub span: Span,
}

pub struct FnSigView {
    pub params: Seq<Seq<char>>,
    pub ret_ty: Seq<char>,
}

pub struct StructInfoView {
    pub fields: Seq<Seq<char>>,
    pub fns: Seq<(Seq<char>, SymbolId)>,
}

pub enum SymbolKindView {
    Var,
    Const,
    Param,
    Fn(FnSigView),
    Struct(StructInfoView),
}

pub struct SymbolView {
    pub id: SymbolId,
    pub name: Seq<char>,
    pub kind: SymbolKindView,
    pub span: Span,
}

/// The names of parameters.
pub open spec fn param_info_names(v: Seq<ParamInfo>) -> Seq<Seq<char>> {
    v.map_values(|p: ParamInfo| p.name@)
}

/// The names of fields.
pub open spec fn field_info_names(v: Seq<FieldInfo>) -> Seq<Seq<char>> {
    v.map_values(|f: FieldInfo| f.name@)
}

/// Name bindings, each name taken as its characters.
pub open spec fn bindings_view(v: Seq<(String, SymbolId)>) -> Seq<(Seq<char>, SymbolId)> {
    v.map_values(|e: (String, SymbolId)| (e.0@, e.1))
}

impl View for FnSig {
    type V = FnSigView;

    open spec fn view(&self) -> FnSigView {
        FnSigView {
            params: param_info_names(self.params@),
            ret_ty: self.ret_ty@,
        }
    }
}

impl View for StructInfo {
    type V = StructInfoView;

    open spec fn view(&self) -> StructInfoView {
        StructInfoView {
            fields: field_info_names(self.fields@),
            fns: bindings_view(self.fns@),
        }
    }
}

impl View for SymbolKind {
    type V = SymbolKindView;

    open spec fn view(&self) -> SymbolKindView {
        match self {
            SymbolKind::Var => SymbolKindView::Var,
            SymbolKind::Const => SymbolKindView::Const,
            SymbolKind::Param => SymbolKindView::Param,
            SymbolKind::Fn(sig) => SymbolKindView::Fn(sig@),
            SymbolKind::Struct(info) => SymbolKindView::Struct(info@),
        }
    }
}

impl View for Symbol {
    type V = SymbolView;

    open spec fn view(&self) -> SymbolView {
        SymbolView { id: self.id, name: self.name@, kind: self.kind@, span: self.span }
    }
}

/// All symbols of a program, indexed by their id: the symbol with id `i`
/// stands at position `i`.
#[derive(Debug, Clone)]
pub struct SymbolTable {
    symbols: Vec<Symbol>,
}

impl View for SymbolTable {
    type V = Seq<SymbolView>;

    closed spec fn view(&self) -> Seq<SymbolView> {
        self.symbols@.map_values(|s: Symbol| s@)
    }
}

impl SymbolTable {
    /// Every symbol stands at the position its id names.
    pub open spec fn wf(&self) -> bool {
        forall|i: int| 0 <= i < self@.len() ==> (#[trigger] self@[i]).id.0 == i
    }

    pub fn new() -> (t: Self)
        ensures
            t@ == Seq::<SymbolView>::empty(),
            t.wf(),
    {
        Self { symbols: Vec::new() }
    }

    /// Appends `symbol`, whose id must be the next free one.
    pub fn insert(&mut self, symbol: Symbol)
        requires
            symbol.id.0 == old(self)@.len(),
        ensures
            final(self)@ == old(self)@.push(symbol@),
            old(self).wf() ==> final(self).wf(),
    {
        self.symbols.push(symbol);
        proof {
            assert(self@ =~= old(self)@.push(symbol@));
            if old(self).wf() {
                assert forall|i: int| 0 <= i < self@.len() implies (#[trigger] self@[i]).id.0 == i by {
                    if i < old(self)@.len() {
                        assert(self@[i] == old(self)@[i]);
                    } else {
                        assert(self@[i] == symbol@);
                    }
                }
            }
        }
    }

    pub fn get(&self, id: SymbolId) -> (s: &Symbol)
        requires
            id.0 < self@.len(),
        ensures
            s@ == self@[id.0 as int],
    {
        &self.symbols[id.0 as usize]
    }

    pub fn get_mut(&mut self, id: SymbolId) -> (s: &mut Symbol)
        requires
            id.0 < old(self)@.len(),
        ensures
            (*s)@ == old(self)@[id.0 as int],
            final(self)@ == old(self)@.update(id.0 as int, (*final(s))@),
    {
        let r = &mut self.symbols[id.0 as usize];
        r
    }

    pub fn get_struct_info(&self, id: SymbolId) -> (r: Option<&StructInfo>)
        requires
            id.0 < self@.len(),
        ensures
            match self@[id.0 as int].kind {
                SymbolKindView::Struct(info) => r matches Some(i) && i@ == info,
                _ => r is None,
            },
    {
        match &self.get(id).kind {
            SymbolKind::Struct(info) => Some(info),
            _ => None,
        }
    }

    pub fn get_fn_sig(&self, id: SymbolId) -> (r: Option<&FnSig>)
        requires
            id.0 < self@.len(),
        ensures
            match self@[id.0 as int].kind {
                SymbolKindView::Fn(sig) => r matches Some(s) && s@ == sig,
                _ => r is None,
            },
    {
        match &self.get(id).kind {
            SymbolKind::Fn(sig) => Some(sig),
            _ => None,
        }
    }

    pub fn len(&self) -> (n: usize)
        ensures
            n == self@.len(),
    {
        self.symbols.len()
    }
}

} // verus!
