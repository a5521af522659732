//! Parsing statements and blocks, with recovery after a statement that
//! fails.
use vstd::prelude::*;
use crate::ast::expr::Expr;
use crate::ast::stmt::{Block, Stmt, StmtKind};
use crate::ast::view::{
    block_view, else_ifs_view, lemma_else_ifs_view_push, lemma_stmts_view_push, stmts_view, SBlock,
};
use crate::common::{Ident, Parsed};
use crate::diagnostic::{diags_view, Diagnostic};
use crate::lexer::token::{Token, TokView};
use crate::parser::spec::{
    at_end, group_token_steps, moved, peek_tok, rem, res_view, res_views, sp_block, sp_block_rest,
    sp_const_decl, sp_expr, sp_expr_no_struct_lit, sp_if_rest, sp_if_stmt, sp_return_stmt,
    sp_stmt, sp_type, sp_var_decl, sp_while_stmt, span_from, stmt_keyword, DV, SBl, SE, SSt,
};
use crate::parser::{err_unexpected_eof, Parser};

verus! {

broadcast use group_token_steps;

/// A list of one diagnostic.
pub(crate) fn one(d: Diagnostic) -> (v: Vec<Diagnostic>)
    ensures
        diags_view(v@) == seq![d@],
{
    let v = vec![d];
    assert(diags_view(v@) =~= seq![d@]);
    v
}

/// The view of a block that may be missing.
pub open spec fn opt_block_view(b: Option<Block<Parsed>>) -> Option<SBl> {
    match b {
        Some(b) => Some(block_view(b)),
        None => None,
    }
}

impl Parser {
    /// A statement. A failure gives the diagnostics it produced.
    #[verifier::spinoff_prover]
    pub fn parse_stmt(&mut self) -> (r: Result<Stmt<Parsed>, Vec<Diagnostic>>)
        requires
            old(self).wf(),
        ensures
            (res_views(r), final(self)@) == sp_stmt(old(self)@),
            moved(old(self)@, final(self)@),
            r is Ok ==> final(self)@.pos > old(self)@.pos,
            final(self)@.pos == old(self)@.pos ==> final(self)@ == old(self)@,
            final(self)@.pos == old(self)@.pos ==> match peek_tok(old(self)@) {
                Some(t) => !stmt_keyword(t),
                None => true,
            },
        decreases rem(old(self)@), 83nat,
    {
        reveal(sp_stmt);
        reveal(sp_if_stmt);
        reveal(sp_while_stmt);
        let start = self.mark();
        let token = match self.peek_cloned() {
            Some((t, _)) => t,
            None => {
                return Err(
                    one(err_unexpected_eof(String::from_str("statement"), self.span_from(start))),
                );
            },
        };
        let kind = match token {
            Token::Var => match self.parse_var_decl() {
                Ok(k) => k,
                Err(e) => return Err(one(e)),
            },
            Token::Const => match self.parse_const_decl() {
                Ok(k) => k,
                Err(e) => return Err(one(e)),
            },
            Token::Return => match self.parse_return_stmt() {
                Ok(k) => k,
                Err(e) => return Err(one(e)),
            },
            Token::If => match self.parse_if_stmt() {
                Ok(k) => k,
                Err(es) => return Err(es),
            },
            Token::While => match self.parse_while_stmt() {
                Ok(k) => k,
                Err(es) => return Err(es),
            },
            Token::Break => {
                self.advance();
                if let Err(e) = self.expect_semicolon() {
                    return Err(one(e));
                }
                StmtKind::Break
            },
            Token::Continue => {
                self.advance();
                if let Err(e) = self.expect_semicolon() {
                    return Err(one(e));
                }
                StmtKind::Continue
            },
            _ => {
                let e = match self.parse_expr() {
                    Ok(e) => e,
                    Err(err) => return Err(one(err)),
                };
                if let Err(err) = self.expect_semicolon() {
                    return Err(one(err));
                }
                StmtKind::Expr(e)
            },
        };
        Ok(Stmt { ann: self.span_from(start), kind })
    }

    /// `{ stmt* }`. A statement that fails is skipped by `synchronize` and
    /// parsing goes on; the block then fails with every diagnostic collected.
    #[verifier::spinoff_prover]
    pub fn parse_block(&mut self) -> (r: Result<Block<Parsed>, Vec<Diagnostic>>)
        requires
            old(self).wf(),
        ensures
            (res_views(r), final(self)@) == sp_block(old(self)@),
            moved(old(self)@, final(self)@),
            r is Ok ==> final(self)@.pos > old(self)@.pos,
        decreases rem(old(self)@), 80nat,
    {
        reveal(sp_block);
        reveal(sp_block_rest);
        if let Err(e) = self.expect_block_open() {
            return Err(one(e));
        }
        let start = self.mark();
        let mut stmts: Vec<Stmt<Parsed>> = Vec::new();
        let mut all_errors: Vec<Diagnostic> = Vec::new();
        assert(stmts_view(stmts@) =~= Seq::<SSt>::empty());
        assert(diags_view(all_errors@) =~= Seq::<DV>::empty());
        let ghost target = sp_block_rest(self@, stmts_view(stmts@), diags_view(all_errors@));
        let ghost first = self@;
        while !self.check(&Token::RBrace) && !self.at_end()
            invariant
                self.wf(),
                moved(old(self)@, self@),
                self@.pos >= first.pos,
                first.pos > old(self)@.pos,
                sp_block_rest(self@, stmts_view(stmts@), diags_view(all_errors@)) == target,
            decreases rem(self@),
        {
            reveal(sp_block_rest);
            reveal(sp_stmt);
            let ghost before = self@;
            match self.parse_stmt() {
                Ok(stmt) => {
                    proof {
                        lemma_stmts_view_push(stmts@, stmt);
                    }
                    stmts.push(stmt);
                },
                Err(mut errs) => {
                    let ghost e1 = diags_view(all_errors@);
                    let ghost e2 = diags_view(errs@);
                    all_errors.append(&mut errs);
                    assert(diags_view(all_errors@) =~= e1 + e2);
                    self.synchronize();
                },
            }
            assert(rem(self@) < rem(before));
        }
        if let Err(e) = self.expect(&Token::RBrace) {
            return Err(one(e));
        }
        if all_errors.len() > 0 {
            return Err(all_errors);
        }
        let ghost sv = stmts_view(stmts@);
        let b = Block { ann: self.span_from(start), stmts };
        assert(b@ == SBlock { ann: span_from(self@, start), stmts: sv });
        Ok(b)
    }

    /// `var name [: type] = init;`, at the `var`.
    #[verifier::spinoff_prover]
    fn parse_var_decl(&mut self) -> (r: Result<StmtKind<Parsed>, Diagnostic>)
        requires
            old(self).wf(),
            !at_end(old(self)@),
        ensures
            (res_view(r), final(self)@) == sp_var_decl(old(self)@),
            moved(old(self)@, final(self)@),
            final(self)@.pos > old(self)@.pos,
    {
        reveal(sp_var_decl);
        self.advance();
        let name_str = match self.expect_ident() {
            Ok(n) => n,
            Err(e) => return Err(e),
        };
        let name = Ident { name: name_str, id: () };
        let ty = if self.eat(&Token::Colon).is_some() {
            match self.parse_type() {
                Ok(t) => Some(t),
                Err(e) => return Err(e),
            }
        } else {
            None
        };
        if let Err(e) = self.expect(&Token::Eq) {
            return Err(e);
        }
        let init = match self.parse_expr() {
            Ok(e) => e,
            Err(e) => return Err(e),
        };
        if let Err(e) = self.expect_semicolon() {
            return Err(e);
        }
        Ok(StmtKind::VarDecl { name, ty, init })
    }

    /// `const name: type = init;`, at the `const`.
    #[verifier::spinoff_prover]
    fn parse_const_decl(&mut self) -> (r: Result<StmtKind<Parsed>, Diagnostic>)
        requires
            old(self).wf(),
            !at_end(old(self)@),
        ensures
            (res_view(r), final(self)@) == sp_const_decl(old(self)@),
            moved(old(self)@, final(self)@),
            final(self)@.pos > old(self)@.pos,
    {
        reveal(sp_const_decl);
        self.advance();
        let name_str = match self.expect_ident() {
            Ok(n) => n,
            Err(e) => return Err(e),
        };
        let name = Ident { name: name_str, id: () };
        if let Err(e) = self.expect(&Token::Colon) {
            return Err(e);
        }
        let ty = match self.parse_type() {
            Ok(t) => t,
            Err(e) => return Err(e),
        };
        if let Err(e) = self.expect(&Token::Eq) {
            return Err(e);
        }
        let init = match self.parse_expr() {
            Ok(e) => e,
            Err(e) => return Err(e),
        };
        if let Err(e) = self.expect_semicolon() {
            return Err(e);
        }
        Ok(StmtKind::ConstDecl { name, ty, init })
    }

    /// `return [expr];`, at the `return`.
    #[verifier::spinoff_prover]
    fn parse_return_stmt(&mut self) -> (r: Result<StmtKind<Parsed>, Diagnostic>)
        requires
            old(self).wf(),
            !at_end(old(self)@),
        ensures
            (res_view(r), final(self)@) == sp_return_stmt(old(self)@),
            moved(old(self)@, final(self)@),
            final(self)@.pos > old(self)@.pos,
    {
        reveal(sp_return_stmt);
        self.advance();
        if self.eat(&Token::Semicolon).is_some() {
            return Ok(StmtKind::Return(None));
        }
        let e = match self.parse_expr() {
            Ok(e) => e,
            Err(e) => return Err(e),
        };
        if let Err(err) = self.expect_semicolon() {
            return Err(err);
        }
        Ok(StmtKind::Return(Some(e)))
    }

    /// `if cond block {else if cond block} [else block]`, at the `if`.
    #[verifier::spinoff_prover]
    fn parse_if_stmt(&mut self) -> (r: Result<StmtKind<Parsed>, Vec<Diagnostic>>)
        requires
            old(self).wf(),
            !at_end(old(self)@),
        ensures
            (res_views(r), final(self)@) == sp_if_stmt(old(self)@),
            moved(old(self)@, final(self)@),
            final(self)@.pos > old(self)@.pos,
        decreases rem(old(self)@), 82nat,
    {
        reveal(sp_if_stmt);
        reveal(sp_block);
        reveal(sp_if_rest);
        self.advance();
        let cond = match self.parse_expr_no_struct_lit() {
            Ok(e) => e,
            Err(e) => return Err(one(e)),
        };
        let then_block = match self.parse_block() {
            Ok(b) => b,
            Err(es) => return Err(es),
        };
        let mut else_ifs: Vec<(Expr<Parsed>, Block<Parsed>)> = Vec::new();
        assert(else_ifs_view(else_ifs@) =~= Seq::<(SE, SBl)>::empty());
        let else_block = match self.parse_else_branches(&mut else_ifs) {
            Ok(b) => b,
            Err(es) => return Err(es),
        };
        Ok(StmtKind::If { cond, then_block, else_ifs, else_block })
    }

    /// The `else if` branches after those in `else_ifs`, which it extends,
    /// and the final `else` block if any.
    #[verifier::spinoff_prover]
    fn parse_else_branches(&mut self, else_ifs: &mut Vec<(Expr<Parsed>, Block<Parsed>)>) -> (r:
        Result<Option<Block<Parsed>>, Vec<Diagnostic>>)
        requires
            old(self).wf(),
        ensures
            (
                match r {
                    Ok(b) => Ok((else_ifs_view(final(else_ifs)@), opt_block_view(b))),
                    Err(es) => Err(diags_view(es@)),
                },
                final(self)@,
            ) == sp_if_rest(old(self)@, else_ifs_view(old(else_ifs)@)),
            moved(old(self)@, final(self)@),
        decreases rem(old(self)@), 81nat,
    {
        loop
            invariant_except_break
                self.wf(),
                moved(old(self)@, self@),
                sp_if_rest(self@, else_ifs_view(else_ifs@)) == sp_if_rest(
                    old(self)@,
                    else_ifs_view(old(else_ifs)@),
                ),
            ensures
                moved(old(self)@, self@),
                sp_if_rest(old(self)@, else_ifs_view(old(else_ifs)@)) == (
                    Ok::<(Seq<(SE, SBl)>, Option<SBl>), Seq<DV>>(
                        (else_ifs_view(else_ifs@), None),
                    ),
                    self@,
                ),
            decreases rem(self@),
        {
            reveal(sp_if_rest);
            reveal(sp_block);
            let ghost before = self@;
            if self.eat(&Token::Else).is_none() {
                break;
            }
            if self.check(&Token::If) {
                self.advance();
                let cond = match self.parse_expr_no_struct_lit() {
                    Ok(e) => e,
                    Err(e) => return Err(one(e)),
                };
                let block = match self.parse_block() {
                    Ok(b) => b,
                    Err(es) => return Err(es),
                };
                proof {
                    lemma_else_ifs_view_push(else_ifs@, (cond, block));
                }
                else_ifs.push((cond, block));
            } else {
                let block = match self.parse_block() {
                    Ok(b) => b,
                    Err(es) => return Err(es),
                };
                return Ok(Some(block));
            }
            assert(rem(self@) < rem(before));
        }
        Ok(None)
    }

    /// `while cond block`, at the `while`.
    #[verifier::spinoff_prover]
    fn parse_while_stmt(&mut self) -> (r: Result<StmtKind<Parsed>, Vec<Diagnostic>>)
        requires
            old(self).wf(),
            !at_end(old(self)@),
        ensures
            (res_views(r), final(self)@) == sp_while_stmt(old(self)@),
            moved(old(self)@, final(self)@),
            final(self)@.pos > old(self)@.pos,
        decreases rem(old(self)@), 82nat,
    {
        reveal(sp_while_stmt);
        reveal(sp_block);
        self.advance();
        let cond = match self.parse_expr_no_struct_lit() {
            Ok(e) => e,
            Err(e) => return Err(one(e)),
        };
        let body = match self.parse_block() {
            Ok(b) => b,
            Err(es) => return Err(es),
        };
        Ok(StmtKind::While { cond, body })
    }
}

} // verus!
