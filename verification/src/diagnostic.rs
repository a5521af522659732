//! Diagnostics: what a compiler phase reports about a span of the source.
use vstd::prelude::*;
use crate::common::Span;
use crate::errors::{CompilerError, LexerError, ParserError, ResolverError, TypeCheckerError};

verus! {

#[derive(Debug, Clone, Copy, PartialEq, Eq)]
pub enum Phase {
    Lexer,
    Parser,
    Resolver,
    TypeChecker,
}

impl Phase {
    pub open spec fn spec_name(self) -> Seq<char> {
        match self {
            Phase::Lexer => "lexer"@,
            Phase::Parser => "parser"@,
            Phase::Resolver => "resolver"@,
            Phase::TypeChecker => "type checker"@,
        }
    }

    /// The name under which diagnostics show the phase.
    pub fn name(&self) -> (r: &'static str)
        ensures
            r@ == self.spec_name(),
    {
        match self {
            Phase::Lexer => "lexer",
            Phase::Parser => "parser",
            Phase::Resolver => "resolver",
            Phase::TypeChecker => "type checker",
        }
    }
}

#[derive(Debug, Clone, Copy, PartialEq, Eq)]
pub enum Severity {
    Error,
    Warning,
}

#[derive(Debug, Clone)]
pub struct Diagnostic {
    pub severity: Severity,
    pub phase: Phase,
    pub span: Span,
    pub message: String,
    pub code: Option<&'static str>,
    pub label: Option<String>,
    pub note: Option<String>,
}

/// A diagnostic with its texts as character sequences.
pub struct DiagnosticView {
    pub severity: Severity,
    pub phase: Phase,
    pub span: Span,
    pub message: Seq<char>,
    pub code: Option<Seq<char>>,
    pub label: Option<Seq<char>>,
    pub note: Option<Seq<char>>,
}

pub open spec fn opt_str_view(o: Option<&'static str>) -> Option<Seq<char>> {
    match o {
        Some(s) => Some(s@),
        None => None,
    }
}

pub open spec fn opt_string_view(o: Option<String>) -> Option<Seq<char>> {
    match o {
        Some(s) => Some(s@),
        None => None,
    }
}

impl View for Diagnostic {
    type V = DiagnosticView;

    open spec fn view(&self) -> DiagnosticView {
        DiagnosticView {
            severity: self.severity,
            phase: self.phase,
            span: self.span,
            message: self.message@,
            code: opt_str_view(self.code),
            label: opt_string_view(self.label),
            note: opt_string_view(self.note),
        }
    }
}

/// The views of a sequence of diagnostics.
pub open spec fn diags_view(v: Seq<Diagnostic>) -> Seq<DiagnosticView> {
    v.map_values(|d: Diagnostic| d@)
}

/// The error diagnostic of `phase` at `span` with `message` and `code`, and
/// neither label nor note.
pub open spec fn error_view(phase: Phase, span: Span, message: Seq<char>, code: Seq<char>) -> DiagnosticView {
    DiagnosticView {
        severity: Severity::Error,
        phase,
        span,
        message,
        code: Some(code),
        label: None,
        note: None,
    }
}

/// The diagnostic that reports `e` at `span`.
pub open spec fn report_view<E: CompilerError>(phase: Phase, e: E, span: Span) -> DiagnosticView {
    error_view(phase, span, e.spec_message(), e.spec_code())
}

impl Diagnostic {
    pub fn error(phase: Phase, span: Span, message: String) -> (d: Self)
        ensures
            d@ == (DiagnosticView {
                severity: Severity::Error,
                phase,
                span,
                message: message@,
                code: None,
                label: None,
                note: None,
            }),
    {
        Self {
            severity: Severity::Error,
            phase,
            span,
            message,
            code: None,
            label: None,
            note: None,
        }
    }

    pub fn warning(phase: Phase, span: Span, message: String) -> (d: Self)
        ensures
            d@ == (DiagnosticView {
                severity: Severity::Warning,
                phase,
                span,
                message: message@,
                code: None,
                label: None,
                note: None,
            }),
    {
        Self {
            severity: Severity::Warning,
            phase,
            span,
            message,
            code: None,
            label: None,
            note: None,
        }
    }

    pub fn with_code(self, code: &'static str) -> (d: Self)
        ensures
            d@ == (DiagnosticView { code: Some(code@), ..self@ }),
    {
        let mut d = self;
        d.code = Some(code);
        d
    }

    pub fn with_label(self, label: String) -> (d: Self)
        ensures
            d@ == (DiagnosticView { label: Some(label@), ..self@ }),
    {
        let mut d = self;
        d.label = Some(label);
        d
    }

    pub fn with_note(self, note: String) -> (d: Self)
        ensures
            d@ == (DiagnosticView { note: Some(note@), ..self@ }),
    {
        let mut d = self;
        d.note = Some(note);
        d
    }

    /// The one-line summary of the diagnostic: severity, phase, code if any,
    /// and message.
    pub fn summary(&self) -> (r: String)
        ensures
            r@ == self.spec_summary(),
    {
        let mut s = match self.severity {
            Severity::Error => String::from_str("error["),
            Severity::Warning => String::from_str("warning["),
        };
        s.append(self.phase.name());
        match self.code {
            Some(code) => {
                s.append("][");
                s.append(code);
                s.append("]: ");
            },
            None => {
                s.append("]: ");
            },
        }
        s.append(self.message.as_str());
        s
    }

    pub open spec fn spec_summary(&self) -> Seq<char> {
        let kind = match self.severity {
            Severity::Error => "error["@,
            Severity::Warning => "warning["@,
        };
        match self.code {
            Some(code) => kind + self.phase.spec_name() + "]["@ + code@ + "]: "@
                + self.message@,
            None => kind + self.phase.spec_name() + "]: "@ + self.message@,
        }
    }

    /// The header line of the rendered report: phase, code if any, and message.
    pub fn header(&self) -> (r: String)
        ensures
            r@ == match self.code {
                Some(code) => "["@ + self.phase.spec_name() + "]["@ + code@ + "] "@
                    + self.message@,
                None => "["@ + self.phase.spec_name() + "] "@ + self.message@,
            },
    {
        let mut s = String::from_str("[");
        s.append(self.phase.name());
        match self.code {
            Some(code) => {
                s.append("][");
                s.append(code);
                s.append("] ");
            },
            None => {
                s.append("] ");
            },
        }
        s.append(self.message.as_str());
        s
    }

    pub fn from_lexer_error(error: LexerError, span: Span) -> (d: Self)
        ensures
            d@ == report_view(Phase::Lexer, error, span),
    {
        let code = error.code();
        Diagnostic::error(Phase::Lexer, span, error.message()).with_code(code)
    }

    pub fn from_parser_error(error: ParserError, span: Span) -> (d: Self)
        ensures
            d@ == report_view(Phase::Parser, error, span),
    {
        let code = error.code();
        Diagnostic::error(Phase::Parser, span, error.message()).with_code(code)
    }

    pub fn from_resolver_error(error: ResolverError, span: Span) -> (d: Self)
        ensures
            d@ == report_view(Phase::Resolver, error, span),
    {
        let code = error.code();
        Diagnostic::error(Phase::Resolver, span, error.message()).with_code(code)
    }

    pub fn from_type_checker_error(error: TypeCheckerError, span: Span) -> (d: Self)
        ensures
            d@ == report_view(Phase::TypeChecker, error, span),
    {
        let code = error.code();
        Diagnostic::error(Phase::TypeChecker, span, error.message()).with_code(code)
    }
}

} // verus!
