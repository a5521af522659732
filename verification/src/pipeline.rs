//! Compiler passes and their composition: a pass turns an input into an
//! output or into the diagnostics that stop compilation.
use vstd::prelude::*;
use crate::ast::decl::Program;
use crate::ast::view::SProgram;
use crate::common::{Parsed, Resolved, Span, SymbolTable, SymbolView};
use crate::diagnostic::{diags_view, Diagnostic, DiagnosticView};
use crate::lexer::token::{Token, TokView};
use crate::lexer::{law_token_spans, lex_all, tokens_view, Lexer};
use crate::parser::spec::{res_views, sp_program, tokens_wf, PState};
use crate::parser::Parser;
use crate::resolver::spec::{program_size, rs_program};
use crate::resolver::Resolver;

verus! {

/// A compiler pass.
pub trait Pass: Sized {
    type Input;
    type Output;

    /// The inputs the pass can be run on.
    spec fn accepts(&self, input: Self::Input) -> bool;

    /// Whether `r` is what running the pass on `input` gives.
    spec fn gives(&self, input: Self::Input, r: Result<Self::Output, Vec<Diagnostic>>) -> bool;

    fn run(self, input: Self::Input) -> (r: Result<Self::Output, Vec<Diagnostic>>)
        requires
            self.accepts(input),
        ensures
            self.gives(input, r),
    ;
}

/// A sequence of passes, each run on what the one before gave.
pub struct Pipeline<P> {
    pub pass: P,
}

impl<P: Pass> Pipeline<P> {
    /// A pipeline of one pass.
    pub fn start(pass: P) -> (r: Self)
        ensures
            r.pass == pass,
    {
        Pipeline { pass }
    }

    /// This pipeline followed by `next`.
    pub fn then<Q: Pass<Input = P::Output>>(self, next: Q) -> (r: Pipeline<Chain<P, Q>>)
        ensures
            r.pass == (Chain { first: self.pass, second: next }),
    {
        Pipeline { pass: Chain { first: self.pass, second: next } }
    }

    /// Runs every pass in turn on `input`.
    pub fn run(self, input: P::Input) -> (r: Result<P::Output, Vec<Diagnostic>>)
        requires
            self.pass.accepts(input),
        ensures
            self.pass.gives(input, r),
    {
        self.pass.run(input)
    }
}

/// Two passes, the second run on what the first gives.
pub struct Chain<A, B> {
    pub first: A,
    pub second: B,
}

impl<A: Pass, B: Pass<Input = A::Output>> Pass for Chain<A, B> {
    type Input = A::Input;
    type Output = B::Output;

    /// The first pass accepts the input, and the second whatever the first
    /// can give.
    open spec fn accepts(&self, input: A::Input) -> bool {
        &&& self.first.accepts(input)
        &&& forall|mid: A::Output| #[trigger]
            self.first.gives(input, Ok(mid)) ==> self.second.accepts(mid)
    }

    /// The first pass fails with those diagnostics, or it gives a value on
    /// which the second gives `r`.
    open spec fn gives(&self, input: A::Input, r: Result<B::Output, Vec<Diagnostic>>) -> bool {
        ||| (r matches Err(e) && self.first.gives(input, Err(e)))
        ||| exists|mid: A::Output| #[trigger]
            self.first.gives(input, Ok(mid)) && self.second.gives(mid, r)
    }

    fn run(self, input: A::Input) -> (r: Result<B::Output, Vec<Diagnostic>>) {
        let mid = match self.first.run(input) {
            Ok(m) => m,
            Err(e) => return Err(e),
        };
        self.second.run(mid)
    }
}

/// The pass gives at most one result on `input`.
pub open spec fn single_result<P: Pass>(p: P, input: P::Input) -> bool {
    forall|r1: Result<P::Output, Vec<Diagnostic>>, r2: Result<P::Output, Vec<Diagnostic>>|
        #[trigger] p.gives(input, r1) && #[trigger] p.gives(input, r2) ==> r1 == r2
}

/// Two passes run in turn: where the first gives `m` (and nothing else), a
/// chain of the two gives what the second gives on `m`'s value, or `m`'s
/// diagnostics unchanged when `m` is an error, and nothing else.
pub proof fn law_chain_runs_in_turn<A: Pass, B: Pass<Input = A::Output>>(
    c: Chain<A, B>,
    input: A::Input,
    m: Result<A::Output, Vec<Diagnostic>>,
    r: Result<B::Output, Vec<Diagnostic>>,
)
    requires
        c.first.gives(input, m),
        single_result(c.first, input),
    ensures
        m matches Err(e) ==> (c.gives(input, r) <==> r == Err::<B::Output, Vec<Diagnostic>>(e)),
        m matches Ok(mid) ==> (c.gives(input, r) <==> c.second.gives(mid, r)),
{
    match m {
        Err(e) => {
            if c.gives(input, r) {
                let via_err = match r {
                    Err(e2) => c.first.gives(input, Err(e2)),
                    Ok(_) => false,
                };
                if via_err {
                    let e2 = r->Err_0;
                    assert(c.first.gives(input, Err(e2)));
                } else {
                    let mid = choose|mid: A::Output| #[trigger]
                        c.first.gives(input, Ok(mid)) && c.second.gives(mid, r);
                    assert(c.first.gives(input, Ok(mid)));
                }
            }
        },
        Ok(mid) => {
            if c.gives(input, r) {
                let via_err = match r {
                    Err(e2) => c.first.gives(input, Err(e2)),
                    Ok(_) => false,
                };
                if via_err {
                    let e2 = r->Err_0;
                    assert(c.first.gives(input, Err(e2)));
                } else {
                    let mid2 = choose|mid2: A::Output| #[trigger]
                        c.first.gives(input, Ok(mid2)) && c.second.gives(mid2, r);
                    assert(c.first.gives(input, Ok(mid2)));
                }
            }
            if c.second.gives(mid, r) {
                assert(c.first.gives(input, Ok(mid)));
            }
        },
    }
}

/// Lexing: source text to tokens.
pub struct Lex;

impl Pass for Lex {
    type Input = String;
    type Output = Vec<(Token, Span)>;

    open spec fn accepts(&self, input: String) -> bool {
        true
    }

    /// All the tokens of the source if it has no lexical error, with spans
    /// a parser can take; else every lexical error.
    open spec fn gives(&self, input: String, r: Result<Vec<(Token, Span)>, Vec<Diagnostic>>) -> bool {
        let (toks, errs) = lex_all(input@, 0);
        match r {
            Ok(t) => errs.len() == 0 && tokens_view(t@) == toks && tokens_wf(t@),
            Err(ds) => errs.len() > 0 && diags_view(ds@) == errs,
        }
    }

    fn run(self, input: String) -> (r: Result<Vec<(Token, Span)>, Vec<Diagnostic>>) {
        let mut lexer = Lexer::new(input.as_str());
        let (tokens, errors) = lexer.tokenize();
        if errors.len() == 0 {
            proof {
                law_token_spans(input@, 0);
                let tv = lex_all(input@, 0).0;
                assert forall|i: int|
                    0 <= i < tokens@.len() && (#[trigger] tokens@[i].0@ is Shr
                        || tokens@[i].0@ is GtEq) implies tokens@[i].1.start < usize::MAX by {
                    assert(tokens_view(tokens@)[i] == (tokens@[i].0@, tokens@[i].1));
                    assert(tv[i].1.start < tv[i].1.end);
                }
            }
            Ok(tokens)
        } else {
            Err(errors)
        }
    }
}

/// Parsing: tokens to a program.
pub struct Parse;

impl Pass for Parse {
    type Input = Vec<(Token, Span)>;
    type Output = Program<Parsed>;

    open spec fn accepts(&self, input: Vec<(Token, Span)>) -> bool {
        tokens_wf(input@)
    }

    open spec fn gives(&self, input: Vec<(Token, Span)>, r: Result<Program<Parsed>, Vec<Diagnostic>>) -> bool {
        res_views(r) == sp_program(PState { toks: input@, pos: 0, allow: true }).0
    }

    fn run(self, input: Vec<(Token, Span)>) -> (r: Result<Program<Parsed>, Vec<Diagnostic>>) {
        let mut parser = Parser::new(input);
        parser.parse()
    }
}

/// Name resolution: a parsed program to a resolved one and its symbols.
pub struct Resolve;

impl Pass for Resolve {
    type Input = Program<Parsed>;
    type Output = (Program<Resolved>, SymbolTable);

    /// The program defines fewer symbols than there are ids.
    open spec fn accepts(&self, input: Program<Parsed>) -> bool {
        program_size(input@) < u32::MAX
    }

    open spec fn gives(&self, input: Program<Parsed>, r: Result<(Program<Resolved>, SymbolTable), Vec<Diagnostic>>) -> bool {
        match r {
            Ok((p, t)) => rs_program(input@) == Ok::<(SProgram<Resolved>, Seq<SymbolView>), Seq<DiagnosticView>>((p@, t@)),
            Err(ds) => rs_program(input@) == Err::<(SProgram<Resolved>, Seq<SymbolView>), Seq<DiagnosticView>>(diags_view(ds@)),
        }
    }

    fn run(self, input: Program<Parsed>) -> (r: Result<(Program<Resolved>, SymbolTable), Vec<Diagnostic>>) {
        Resolver::new().resolve(&input)
    }
}

} // verus!
