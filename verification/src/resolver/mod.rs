//! The resolver: binds every name of a parsed program to the symbol it
//! refers to, builds the symbol table, and reports what does not resolve.
mod expr;
pub mod spec;
mod stmt;
mod decl;
pub mod size;
pub mod laws;
pub mod erase;
pub mod bound;
pub mod reports;
pub mod loops;
pub mod names;

use vstd::prelude::*;
use crate::ast::expr::{is_reserved, is_reserved_name};
use crate::common::{bindings_view, Span, Symbol, SymbolId, SymbolKind, SymbolTable};
use crate::diagnostic::{diags_view, report_view, Diagnostic, Phase};
use crate::errors::ResolverError;
use spec::{define, emit, lookup, pop_scope, push_scope, scope_get, scopes_wf, RState, ScopeView};

verus! {

/// The bindings of one scope, in the order they were made.
struct Scope {
    bindings: Vec<(String, SymbolId)>,
}

spec fn scope_view(s: Scope) -> ScopeView {
    bindings_view(s.bindings@)
}

/// Resolves the names of a parsed program.
pub struct Resolver {
    symbols: SymbolTable,
    scopes: Vec<Scope>,
    next_id: u32,
    loop_depth: u32,
    diagnostics: Vec<Diagnostic>,
}

impl View for Resolver {
    type V = RState;

    closed spec fn view(&self) -> RState {
        RState {
            scopes: self.scopes@.map_values(|s: Scope| scope_view(s)),
            loop_depth: self.loop_depth as int,
            diags: diags_view(self.diagnostics@),
            symbols: self.symbols@,
        }
    }
}

impl Resolver {
    /// The resolver's counters agree with what it holds.
    pub closed spec fn wf(&self) -> bool {
        &&& self.next_id as int == self.symbols@.len()
        &&& self.symbols.wf()
        &&& scopes_wf(self@)
    }

    /// A resolver numbers its symbols with 32-bit ids.
    proof fn lemma_symbols_fit(&self)
        requires
            self.wf(),
        ensures
            self@.symbols.len() <= u32::MAX,
            self@.symbols == self.symbols@,
    {
    }

    /// A resolver with no scope, no symbol and nothing reported.
    pub fn new() -> (r: Self)
        ensures
            r.wf(),
            r@ == spec::initial(),
    {
        let r = Resolver {
            symbols: SymbolTable::new(),
            scopes: Vec::new(),
            next_id: 0,
            loop_depth: 0,
            diagnostics: Vec::new(),
        };
        assert(r@.scopes =~= Seq::<ScopeView>::empty());
        assert(r@.diags =~= Seq::<spec::DV>::empty());
        r
    }

    fn push_scope(&mut self)
        requires
            old(self).wf(),
        ensures
            final(self).wf(),
            final(self)@ == push_scope(old(self)@),
    {
        let ghost old_scopes = self@.scopes;
        let sc = Scope { bindings: Vec::new() };
        assert(scope_view(sc) =~= Seq::<(Seq<char>, SymbolId)>::empty());
        self.scopes.push(sc);
        assert(self@.scopes =~= old_scopes.push(Seq::empty()));
    }

    fn pop_scope(&mut self)
        requires
            old(self).wf(),
            old(self)@.scopes.len() > 0,
        ensures
            final(self).wf(),
            final(self)@ == pop_scope(old(self)@),
    {
        let ghost old_scopes = self@.scopes;
        self.scopes.pop();
        assert(self@.scopes =~= old_scopes.drop_last());
    }

    fn emit(&mut self, error: ResolverError, span: Span)
        requires
            old(self).wf(),
        ensures
            final(self).wf(),
            final(self)@ == emit(old(self)@, report_view(Phase::Resolver, error, span)),
    {
        let ghost old_diags = self.diagnostics@;
        self.diagnostics.push(Diagnostic::from_resolver_error(error, span));
        assert(diags_view(self.diagnostics@) =~= diags_view(old_diags).push(
            report_view(Phase::Resolver, error, span),
        ));
        assert(self@.scopes == old(self)@.scopes);
    }

    /// Defines `name` in the innermost scope as a new symbol of `kind`.
    fn define(&mut self, name: &String, span: Span, kind: SymbolKind) -> (id: SymbolId)
        requires
            old(self).wf(),
            old(self)@.scopes.len() > 0,
            old(self)@.symbols.len() < u32::MAX,
        ensures
            final(self).wf(),
            (id, final(self)@) == define(old(self)@, name@, span, kind@),
    {
        self.check_reserved(name, span);
        let n = self.scopes.len();
        let has_dup = scope_lookup(&self.scopes[n - 1], name).is_some();
        if has_dup {
            self.emit(ResolverError::DuplicateDefinition { name: name.clone() }, span);
        }
        let ghost st2 = self@;
        let id = SymbolId(self.next_id);
        self.next_id = self.next_id + 1;
        let mut sc = self.scopes.pop().unwrap();
        let ghost sv = scope_view(sc);
        sc.bindings.push((name.clone(), id));
        assert(scope_view(sc) =~= sv.push((name@, id)));
        self.scopes.push(sc);
        self.symbols.insert(Symbol { id, name: name.clone(), kind, span });
        proof {
            assert(self@.scopes =~= st2.scopes.update(
                st2.scopes.len() - 1,
                st2.scopes.last().push((name@, id)),
            ));
            assert forall|i: int, j: int|
                0 <= i < self@.scopes.len() && 0 <= j < self@.scopes[i].len() implies (
                #[trigger] self@.scopes[i][j]).1.0 < self@.symbols.len() by {
                if i == self@.scopes.len() - 1 && j == self@.scopes[i].len() - 1 {
                } else {
                    assert(self@.scopes[i][j] == st2.scopes[i][j]);
                }
            }
        }
        id
    }

    fn check_reserved(&mut self, name: &String, span: Span)
        requires
            old(self).wf(),
        ensures
            final(self).wf(),
            final(self)@ == if is_reserved(name@) {
                emit(old(self)@, spec::reserved_identifier(name@, span))
            } else {
                old(self)@
            },
    {
        if is_reserved_name(name) {
            self.emit(ResolverError::ReservedIdentifier { name: name.clone() }, span);
        }
    }

    /// The symbol `name` refers to: its binding in the innermost scope that
    /// has one.
    fn lookup(&self, name: &String) -> (r: Option<SymbolId>)
        requires
            self.wf(),
        ensures
            r == lookup(self@.scopes, name@),
            r matches Some(id) ==> id.0 < self@.symbols.len(),
    {
        let ghost sv = self@.scopes;
        let mut i = self.scopes.len();
        assert(sv.take(i as int) =~= sv);
        while i > 0
            invariant
                self.wf(),
                sv == self@.scopes,
                i <= self.scopes.len(),
                lookup(sv, name@) == lookup(sv.take(i as int), name@),
            decreases i,
        {
            assert(sv.take(i as int).drop_last() =~= sv.take(i - 1));
            assert(sv.take(i as int).last() == sv[i - 1]);
            match scope_lookup(&self.scopes[i - 1], name) {
                Some(id) => {
                    proof {
                        let j = choose|j: int| 0 <= j < sv[i - 1].len() && (#[trigger] sv[i - 1][j]).1 == id;
                        assert(sv[i - 1][j].1.0 < self@.symbols.len());
                    }
                    return Some(id);
                },
                None => {},
            }
            i = i - 1;
        }
        assert(sv.take(0) =~= Seq::<ScopeView>::empty());
        None
    }
}

/// The latest binding of `name` in `sc`.
fn scope_lookup(sc: &Scope, name: &String) -> (r: Option<SymbolId>)
    ensures
        r == scope_get(scope_view(*sc), name@),
        r matches Some(id) ==> exists|j: int|
            0 <= j < scope_view(*sc).len() && (#[trigger] scope_view(*sc)[j]).1 == id,
{
    binding_lookup(&sc.bindings, name)
}

/// The latest binding of `name` among `bs`.
pub(crate) fn binding_lookup(bs: &Vec<(String, SymbolId)>, name: &String) -> (r: Option<SymbolId>)
    ensures
        r == scope_get(bindings_view(bs@), name@),
        r matches Some(id) ==> exists|j: int|
            0 <= j < bindings_view(bs@).len() && (#[trigger] bindings_view(bs@)[j]).1 == id,
{
    let ghost sv = bindings_view(bs@);
    let mut i = bs.len();
    assert(sv.take(i as int) =~= sv);
    while i > 0
        invariant
            sv == bindings_view(bs@),
            i <= bs.len(),
            scope_get(sv, name@) == scope_get(sv.take(i as int), name@),
        decreases i,
    {
        assert(sv.take(i as int).drop_last() =~= sv.take(i - 1));
        assert(sv.take(i as int).last() == sv[i - 1]);
        if bs[i - 1].0 == *name {
            assert(sv[i - 1].1 == bs@[i - 1].1);
            return Some(bs[i - 1].1);
        }
        i = i - 1;
    }
    assert(sv.take(0) =~= Seq::<(Seq<char>, SymbolId)>::empty());
    None
}

} // verus!
