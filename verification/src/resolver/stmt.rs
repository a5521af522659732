//! Resolving the names in statements and blocks.
use vstd::prelude::*;
use crate::ast::expr::Expr;
use crate::ast::stmt::{Block, Stmt, StmtKind};
use crate::ast::view::{
    else_ifs_view, lemma_else_ifs_view_index, lemma_else_ifs_view_push, lemma_stmts_view_index,
    lemma_stmts_view_push, stmts_view, SBlock, SExpr,
};
use crate::common::{Ident, Parsed, Resolved, SymbolKind};
use crate::errors::ResolverError;
use crate::resolver::spec::{
    block_size, else_ifs_size, emit_all, lemma_else_ifs_size_take, lemma_emit_all_assoc,
    lemma_stmts_size_take, pop_scope, push_scope, rs_block, rs_else_ifs, rs_expr, rs_stmt,
    rs_stmts, rs_type, stmt_size, stmts_size, RState, SBP, SEP, SSP,
};
use crate::resolver::Resolver;

verus! {

/// What resolving a statement keeps: the number of scopes and the loop
/// depth; and it defines no more symbols than `size`.
pub open spec fn kept(a: RState, b: RState, size: nat) -> bool {
    &&& b.scopes.len() == a.scopes.len()
    &&& b.loop_depth == a.loop_depth
    &&& a.symbols.len() <= b.symbols.len() <= a.symbols.len() + size
}

/// There is room for `size` more symbols and `size` more nested loops.
pub open spec fn room(st: RState, size: nat) -> bool {
    &&& st.symbols.len() + size <= u32::MAX
    &&& st.loop_depth + size <= u32::MAX
    &&& st.loop_depth >= 0
}

impl Resolver {
    /// A statement with its names resolved.
    #[verifier::spinoff_prover]
    pub(crate) fn resolve_stmt(&mut self, stmt: &Stmt<Parsed>) -> (r: Stmt<Resolved>)
        requires
            old(self).wf(),
            old(self)@.scopes.len() > 0,
            room(old(self)@, stmt_size(stmt@)),
        ensures
            final(self).wf(),
            (r@, final(self)@) == rs_stmt(old(self)@, stmt@),
            kept(old(self)@, final(self)@, stmt_size(stmt@)),
        decreases stmt,
    {
        let ghost st0 = self@;
        proof {
            lemma_emit_all_assoc(st0, Seq::empty(), Seq::empty());
        }
        let kind = match &stmt.kind {
            StmtKind::Expr(e) => StmtKind::Expr(self.resolve_expr(e)),
            StmtKind::VarDecl { name, ty, init } => {
                let init = self.resolve_expr(init);
                let ty = match ty {
                    Some(t) => Some(self.resolve_type_expr(t)),
                    None => None,
                };
                proof {
                    lemma_emit_all_assoc(
                        st0,
                        rs_expr(st0.scopes, st0.symbols, stmt@.kind->VarDecl_init).1,
                        match stmt@.kind->VarDecl_ty {
                            Some(t) => rs_type(st0.scopes, t).1,
                            None => Seq::empty(),
                        },
                    );
                }
                let id = self.define(&name.name, stmt.ann, SymbolKind::Var);
                StmtKind::VarDecl { name: Ident { name: name.name.clone(), id }, ty, init }
            },
            StmtKind::ConstDecl { name, ty, init } => {
                let init = self.resolve_expr(init);
                let ty = self.resolve_type_expr(ty);
                proof {
                    lemma_emit_all_assoc(
                        st0,
                        rs_expr(st0.scopes, st0.symbols, stmt@.kind->ConstDecl_init).1,
                        rs_type(st0.scopes, stmt@.kind->ConstDecl_ty).1,
                    );
                }
                let id = self.define(&name.name, stmt.ann, SymbolKind::Const);
                StmtKind::ConstDecl { name: Ident { name: name.name.clone(), id }, ty, init }
            },
            StmtKind::Return(expr) => match expr {
                Some(e) => StmtKind::Return(Some(self.resolve_expr(e))),
                None => StmtKind::Return(None),
            },
            StmtKind::If { cond, then_block, else_ifs, else_block } => {
                let cond = self.resolve_expr(cond);
                let then_block = self.resolve_block(then_block);
                let else_ifs = self.resolve_else_ifs(else_ifs);
                let else_block = match else_block {
                    Some(b) => Some(self.resolve_block(b)),
                    None => None,
                };
                StmtKind::If { cond, then_block, else_ifs, else_block }
            },
            StmtKind::While { cond, body } => {
                self.loop_depth = self.loop_depth + 1;
                assert(self@.scopes == st0.scopes);
                let cond = self.resolve_expr(cond);
                let body = self.resolve_block(body);
                self.loop_depth = self.loop_depth - 1;
                assert(self@.scopes == self@.scopes);
                StmtKind::While { cond, body }
            },
            StmtKind::Break => {
                if self.loop_depth == 0 {
                    self.emit(ResolverError::BreakOutsideLoop, stmt.ann);
                }
                StmtKind::Break
            },
            StmtKind::Continue => {
                if self.loop_depth == 0 {
                    self.emit(ResolverError::ContinueOutsideLoop, stmt.ann);
                }
                StmtKind::Continue
            },
        };
        Stmt { ann: stmt.ann, kind }
    }

    /// A block, resolved in a scope of its own.
    #[verifier::spinoff_prover]
    pub(crate) fn resolve_block(&mut self, block: &Block<Parsed>) -> (r: Block<Resolved>)
        requires
            old(self).wf(),
            room(old(self)@, block_size(block@)),
        ensures
            final(self).wf(),
            (r@, final(self)@) == rs_block(old(self)@, block@),
            kept(old(self)@, final(self)@, block_size(block@)),
        decreases block,
    {
        let ghost st0 = self@;
        let ghost sv = stmts_view(block.stmts@);
        self.push_scope();
        let ghost st1 = self@;
        let mut stmts: Vec<Stmt<Resolved>> = Vec::new();
        let mut i: usize = 0;
        proof {
            lemma_stmts_view_index(block.stmts@);
            assert(sv.take(0) =~= Seq::<SSP>::empty());
            assert(stmts_view(stmts@) =~= Seq::<crate::ast::view::SStmt<Resolved>>::empty());
        }
        while i < block.stmts.len()
            invariant
                self.wf(),
                i <= block.stmts.len(),
                sv == stmts_view(block.stmts@),
                sv.len() == block.stmts.len(),
                block@.stmts == sv,
                room(st0, block_size(block@)),
                st1 == push_scope(st0),
                (stmts_view(stmts@), self@) == rs_stmts(st1, sv.take(i as int)),
                kept(st1, self@, stmts_size(sv.take(i as int))),
            decreases block.stmts.len() - i,
        {
            proof {
                lemma_stmts_view_index(block.stmts@);
                lemma_stmts_size_take(sv, i as int);
                lemma_stmts_size_take(sv, i + 1);
                assert(sv.take(i + 1).drop_last() =~= sv.take(i as int));
                assert(sv.take(i + 1).last() == block.stmts@[i as int]@);
            }
            let s = self.resolve_stmt(&block.stmts[i]);
            proof {
                lemma_stmts_view_push(stmts@, s);
            }
            stmts.push(s);
            i = i + 1;
        }
        assert(sv.take(i as int) =~= sv);
        self.pop_scope();
        Block { ann: block.ann, stmts }
    }

    /// The `else if` branches of an `if`, in order.
    #[verifier::spinoff_prover]
    fn resolve_else_ifs(&mut self, bs: &Vec<(Expr<Parsed>, Block<Parsed>)>) -> (r: Vec<
        (Expr<Resolved>, Block<Resolved>),
    >)
        requires
            old(self).wf(),
            room(old(self)@, else_ifs_size(else_ifs_view(bs@))),
        ensures
            final(self).wf(),
            (else_ifs_view(r@), final(self)@) == rs_else_ifs(old(self)@, else_ifs_view(bs@)),
            kept(old(self)@, final(self)@, else_ifs_size(else_ifs_view(bs@))),
        decreases bs,
    {
        let ghost st0 = self@;
        let ghost bv = else_ifs_view(bs@);
        let mut r: Vec<(Expr<Resolved>, Block<Resolved>)> = Vec::new();
        let mut i: usize = 0;
        proof {
            lemma_else_ifs_view_index(bs@);
            assert(bv.take(0) =~= Seq::<(SEP, SBP)>::empty());
            assert(else_ifs_view(r@) =~= Seq::<(SExpr<Resolved>, SBlock<Resolved>)>::empty());
        }
        while i < bs.len()
            invariant
                self.wf(),
                i <= bs.len(),
                bv == else_ifs_view(bs@),
                bv.len() == bs.len(),
                room(st0, else_ifs_size(bv)),
                (else_ifs_view(r@), self@) == rs_else_ifs(st0, bv.take(i as int)),
                kept(st0, self@, else_ifs_size(bv.take(i as int))),
            decreases bs.len() - i,
        {
            proof {
                lemma_else_ifs_view_index(bs@);
                lemma_else_ifs_size_take(bv, i as int);
                lemma_else_ifs_size_take(bv, i + 1);
                assert(bv.take(i + 1).drop_last() =~= bv.take(i as int));
                assert(bv.take(i + 1).last() == (bs@[i as int].0@, bs@[i as int].1@));
            }
            let c = self.resolve_expr(&bs[i].0);
            let b = self.resolve_block(&bs[i].1);
            proof {
                lemma_else_ifs_view_push(r@, (c, b));
            }
            r.push((c, b));
            i = i + 1;
        }
        assert(bv.take(i as int) =~= bv);
        r
    }
}

} // verus!
