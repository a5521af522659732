//! How many symbols and nested loops a program can need, counted up to the
//! number of symbol ids there are.
use vstd::prelude::*;
use crate::ast::decl::{Decl, FnDecl, Program};
use crate::ast::expr::Expr;
use crate::ast::stmt::{Block, Stmt, StmtKind};
use crate::ast::view::{
    decls_view, else_ifs_view, fn_decls_view, lemma_else_ifs_view_index, lemma_stmts_view_index,
    stmts_view,
};
use crate::common::Parsed;
use crate::resolver::spec::{
    block_size, decl_body_size, decl_defs, decls_body_size, decls_defs, else_ifs_size,
    fn_body_size, lemma_decls_size_take, lemma_else_ifs_size_take, lemma_methods_body_size_take,
    lemma_stmts_size_take, methods_body_size, program_size, stmt_size, stmts_size,
};

verus! {

/// `n`, or the number of symbol ids if `n` is larger.
pub open spec fn capped(n: nat) -> nat {
    if n < u32::MAX {
        n
    } else {
        u32::MAX as nat
    }
}

fn add_capped(a: u64, b: u64, Ghost(x): Ghost<nat>, Ghost(y): Ghost<nat>) -> (r: u64)
    requires
        a == capped(x),
        b == capped(y),
    ensures
        r == capped(x + y),
{
    if a + b < u32::MAX as u64 {
        a + b
    } else {
        u32::MAX as u64
    }
}

fn stmt_size_capped(s: &Stmt<Parsed>) -> (r: u64)
    ensures
        r == capped(stmt_size(s@)),
    decreases s,
{
    match &s.kind {
        StmtKind::If { then_block, else_ifs, else_block, .. } => {
            let a = add_capped(1, block_size_capped(then_block), Ghost(1), Ghost(block_size(then_block@)));
            let b = add_capped(
                a,
                else_ifs_size_capped(else_ifs),
                Ghost(1 + block_size(then_block@)),
                Ghost(else_ifs_size(else_ifs_view(else_ifs@))),
            );
            match else_block {
                Some(e) => add_capped(
                    b,
                    block_size_capped(e),
                    Ghost(1 + block_size(then_block@) + else_ifs_size(else_ifs_view(else_ifs@))),
                    Ghost(block_size(e@)),
                ),
                None => b,
            }
        },
        StmtKind::While { body, .. } => add_capped(1, block_size_capped(body), Ghost(1), Ghost(block_size(body@))),
        _ => 1,
    }
}

fn block_size_capped(b: &Block<Parsed>) -> (r: u64)
    ensures
        r == capped(block_size(b@)),
    decreases b,
{
    let ghost sv = stmts_view(b.stmts@);
    let mut r: u64 = 0;
    let mut i: usize = 0;
    proof {
        lemma_stmts_view_index(b.stmts@);
        assert(sv.take(0) =~= Seq::empty());
    }
    while i < b.stmts.len()
        invariant
            i <= b.stmts.len(),
            sv == stmts_view(b.stmts@),
            sv.len() == b.stmts.len(),
            r == capped(stmts_size(sv.take(i as int))),
        decreases b.stmts.len() - i,
    {
        proof {
            lemma_stmts_view_index(b.stmts@);
            lemma_stmts_size_take(sv, i as int);
        }
        let n = stmt_size_capped(&b.stmts[i]);
        r = add_capped(r, n, Ghost(stmts_size(sv.take(i as int))), Ghost(stmt_size(sv[i as int])));
        i = i + 1;
    }
    assert(sv.take(i as int) =~= sv);
    r
}

fn else_ifs_size_capped(bs: &Vec<(Expr<Parsed>, Block<Parsed>)>) -> (r: u64)
    ensures
        r == capped(else_ifs_size(else_ifs_view(bs@))),
    decreases bs,
{
    let ghost bv = else_ifs_view(bs@);
    let mut r: u64 = 0;
    let mut i: usize = 0;
    proof {
        lemma_else_ifs_view_index(bs@);
        assert(bv.take(0) =~= Seq::empty());
    }
    while i < bs.len()
        invariant
            i <= bs.len(),
            bv == else_ifs_view(bs@),
            bv.len() == bs.len(),
            r == capped(else_ifs_size(bv.take(i as int))),
        decreases bs.len() - i,
    {
        proof {
            lemma_else_ifs_view_index(bs@);
            lemma_else_ifs_size_take(bv, i as int);
        }
        let n = block_size_capped(&bs[i].1);
        r = add_capped(r, n, Ghost(else_ifs_size(bv.take(i as int))), Ghost(block_size(bv[i as int].1)));
        i = i + 1;
    }
    assert(bv.take(i as int) =~= bv);
    r
}

fn fn_body_size_capped(f: &FnDecl<Parsed>) -> (r: u64)
    ensures
        r == capped(fn_body_size(f@)),
{
    let p: u64 = if f.params.len() < u32::MAX as usize {
        f.params.len() as u64
    } else {
        u32::MAX as u64
    };
    add_capped(p, block_size_capped(&f.body), Ghost(f@.params.len()), Ghost(block_size(f@.body)))
}

fn decl_sizes_capped(d: &Decl<Parsed>) -> (r: (u64, u64))
    ensures
        r.0 == capped(decl_defs(d@)),
        r.1 == capped(decl_body_size(d@)),
{
    match d {
        Decl::Fn(f) => (1, fn_body_size_capped(f)),
        Decl::Struct(s) => {
            let ghost mv = fn_decls_view(s.methods@);
            let m: u64 = if s.methods.len() < u32::MAX as usize {
                s.methods.len() as u64
            } else {
                u32::MAX as u64
            };
            let mut r: u64 = 0;
            let mut i: usize = 0;
            assert(mv.take(0) =~= Seq::empty());
            while i < s.methods.len()
                invariant
                    i <= s.methods.len(),
                    mv == fn_decls_view(s.methods@),
                    r == capped(methods_body_size(mv.take(i as int))),
                decreases s.methods.len() - i,
            {
                proof {
                    lemma_methods_body_size_take(mv, i as int);
                }
                let n = fn_body_size_capped(&s.methods[i]);
                r = add_capped(r, n, Ghost(methods_body_size(mv.take(i as int))), Ghost(fn_body_size(mv[i as int])));
                i = i + 1;
            }
            assert(mv.take(i as int) =~= mv);
            (add_capped(1, m, Ghost(1), Ghost(s@.methods.len())), r)
        },
    }
}

/// Whether resolving `program` can give each of its symbols an id: it
/// defines, and nests loops, fewer times than there are ids.
pub fn fits_symbol_ids(program: &Program<Parsed>) -> (r: bool)
    ensures
        r == (program_size(program@) < u32::MAX),
{
    let ghost dv = decls_view(program.decls@);
    let mut defs: u64 = 0;
    let mut bodies: u64 = 0;
    let mut i: usize = 0;
    assert(dv.take(0) =~= Seq::empty());
    while i < program.decls.len()
        invariant
            i <= program.decls.len(),
            dv == decls_view(program.decls@),
            defs == capped(decls_defs(dv.take(i as int))),
            bodies == capped(decls_body_size(dv.take(i as int))),
        decreases program.decls.len() - i,
    {
        proof {
            lemma_decls_size_take(dv, i as int);
        }
        let (d, b) = decl_sizes_capped(&program.decls[i]);
        defs = add_capped(defs, d, Ghost(decls_defs(dv.take(i as int))), Ghost(decl_defs(dv[i as int])));
        bodies = add_capped(bodies, b, Ghost(decls_body_size(dv.take(i as int))), Ghost(decl_body_size(dv[i as int])));
        i = i + 1;
    }
    assert(dv.take(i as int) =~= dv);
    add_capped(defs, bodies, Ghost(decls_defs(dv)), Ghost(decls_body_size(dv))) < u32::MAX as u64
}

} // verus!
