//! The lexer: turns source text into tokens with byte spans, skipping
//! whitespace and comments, and reports what it cannot read.
pub mod scan;
pub mod token;

use vstd::prelude::*;
use crate::common::Span;
use crate::diagnostic::{diags_view, error_view, Diagnostic, DiagnosticView, Phase};
use crate::errors::LexerError;
use crate::text::chars_of;
use scan::{
    advance_bytes, byte_offset, lemma_byte_offset_mono, overflow_reason, scan, scan_at,
    substring, ScanOutcome, Scanned,
};
use token::{Token, TokView};
use vstd::utf8::encode_utf8;

verus! {

/// The span, in bytes, of the characters `s[i..j]`.
pub open spec fn byte_span(s: Seq<char>, i: int, j: int) -> Span {
    Span { start: byte_offset(s, i) as usize, end: byte_offset(s, j) as usize }
}

/// The diagnostic for the failed lexeme `s[i..j]` with outcome `o`.
pub open spec fn lex_error(s: Seq<char>, i: int, j: int, o: ScanOutcome) -> DiagnosticView {
    let span = byte_span(s, i, j);
    let fragment = s.subrange(i, j);
    match o {
        ScanOutcome::BadInt => error_view(
            Phase::Lexer,
            span,
            "invalid integer literal '"@ + fragment + "': "@ + overflow_reason(),
            "E0002"@,
        ),
        ScanOutcome::BadEscape(c) => error_view(
            Phase::Lexer,
            span,
            "invalid escape sequence: '\\"@ + seq![c] + "'"@,
            "E0004"@,
        ),
        ScanOutcome::BadComment => error_view(
            Phase::Lexer,
            span,
            "unterminated block comment"@,
            "E0006"@,
        ),
        _ => if fragment.len() >= 1 && fragment[0] == '"' {
            error_view(Phase::Lexer, span, "unterminated string literal"@, "E0005"@)
        } else if fragment.len() >= 2 && fragment[0] == '/' && fragment[1] == '*' {
            error_view(Phase::Lexer, span, "unterminated block comment"@, "E0006"@)
        } else {
            error_view(
                Phase::Lexer,
                span,
                "unexpected character: '"@ + fragment + "'"@,
                "E0001"@,
            )
        },
    }
}

/// The next token or error of `s` from position `i` on, skipping whitespace
/// and comments, and the position after it (`i` itself at the end of input).
pub open spec fn lex_next(s: Seq<char>, i: int) -> (
    Option<Result<(TokView, Span), DiagnosticView>>,
    int,
)
    decreases s.len() - i,
{
    if i < 0 || i >= s.len() {
        (None, i)
    } else {
        let (o, j) = scan(s, i);
        if j <= i || j > s.len() {
            (None, i)
        } else {
            match o {
                ScanOutcome::Skip => lex_next(s, j),
                ScanOutcome::Token(t) => (Some(Ok((t, byte_span(s, i, j)))), j),
                _ => (Some(Err(lex_error(s, i, j, o))), j),
            }
        }
    }
}

/// All tokens and all errors of `s` from position `i` on, each in order.
pub open spec fn lex_all(s: Seq<char>, i: int) -> (Seq<(TokView, Span)>, Seq<DiagnosticView>)
    decreases s.len() - i,
{
    let (r, j) = lex_next(s, i);
    match r {
        None => (Seq::empty(), Seq::empty()),
        Some(x) => if i < j <= s.len() {
            let (toks, errs) = lex_all(s, j);
            match x {
                Ok(t) => (seq![t] + toks, errs),
                Err(d) => (toks, seq![d] + errs),
            }
        } else {
            (Seq::empty(), Seq::empty())
        },
    }
}

pub open spec fn next_view(r: Option<Result<(Token, Span), Diagnostic>>) -> Option<
    Result<(TokView, Span), DiagnosticView>,
> {
    match r {
        None => None,
        Some(Ok((t, sp))) => Some(Ok((t@, sp))),
        Some(Err(d)) => Some(Err(d@)),
    }
}

pub open spec fn tokens_view(v: Seq<(Token, Span)>) -> Seq<(TokView, Span)> {
    v.map_values(|p: (Token, Span)| (p.0@, p.1))
}

proof fn lemma_lex_next_progress(s: Seq<char>, i: int)
    ensures
        lex_next(s, i).0 is Some ==> i < lex_next(s, i).1 <= s.len(),
    decreases s.len() - i,
{
    if 0 <= i < s.len() {
        let (o, j) = scan(s, i);
        if i < j <= s.len() {
            if o is Skip {
                lemma_lex_next_progress(s, j);
            }
        }
    }
}

/// Moving forward over characters moves forward over bytes.
proof fn lemma_byte_offset_strict(s: Seq<char>, i: int, j: int)
    requires
        0 <= i < j <= s.len(),
    ensures
        byte_offset(s, i) < byte_offset(s, j),
{
    scan::lemma_byte_offset_step(s, i);
    lemma_byte_offset_mono(s, i + 1, j);
}

/// Where the next token lies: at or after `i`, covering at least one byte,
/// and ending where reading stops.
proof fn lemma_lex_next_span(s: Seq<char>, i: int)
    requires
        0 <= i <= s.len(),
        byte_offset(s, s.len() as int) <= usize::MAX,
    ensures
        i <= lex_next(s, i).1 <= s.len(),
        lex_next(s, i).0 matches Some(Ok(t)) ==> byte_offset(s, i) <= t.1.start < t.1.end
            && t.1.end == byte_offset(s, lex_next(s, i).1),
    decreases s.len() - i,
{
    if i < s.len() {
        let (o, j) = scan(s, i);
        if i < j <= s.len() {
            lemma_byte_offset_mono(s, i, j);
            lemma_byte_offset_mono(s, j, s.len() as int);
            lemma_byte_offset_strict(s, i, j);
            if o is Skip {
                lemma_lex_next_span(s, j);
            }
        }
    }
}

/// The tokens of a source come in order and do not overlap, each covering
/// at least one byte of the source.
pub proof fn law_token_spans(s: Seq<char>, i: int)
    requires
        0 <= i <= s.len(),
        byte_offset(s, s.len() as int) <= usize::MAX,
    ensures
        forall|k: int|
            0 <= k < lex_all(s, i).0.len() ==> byte_offset(s, i) <= (
            #[trigger] lex_all(s, i).0[k]).1.start < lex_all(s, i).0[k].1.end <= byte_offset(
                s,
                s.len() as int,
            ),
        forall|k: int, l: int|
            0 <= k < l < lex_all(s, i).0.len() ==> (#[trigger] lex_all(s, i).0[k]).1.end <= (
            #[trigger] lex_all(s, i).0[l]).1.start,
    decreases s.len() - i,
{
    let (r, j) = lex_next(s, i);
    lemma_lex_next_span(s, i);
    if r is Some && i < j <= s.len() {
        law_token_spans(s, j);
        lemma_byte_offset_mono(s, i, j);
        lemma_byte_offset_mono(s, j, s.len() as int);
        let (toks, errs) = lex_all(s, j);
        match r {
            Some(Ok(t)) => {
                let all = seq![t] + toks;
                assert(lex_all(s, i).0 == all);
                assert forall|k: int, l: int| 0 <= k < l < all.len() implies (
                #[trigger] all[k]).1.end <= (#[trigger] all[l]).1.start by {
                    if k > 0 {
                        assert(all[k] == toks[k - 1]);
                    }
                    assert(all[l] == toks[l - 1]);
                }
                assert forall|k: int| 0 <= k < all.len() implies byte_offset(s, i) <= (
                #[trigger] all[k]).1.start < all[k].1.end <= byte_offset(s, s.len() as int) by {
                    if k > 0 {
                        assert(all[k] == toks[k - 1]);
                    }
                }
            },
            _ => {},
        }
    }
}

/// An identifier that the scanner reads never spells a keyword.
proof fn lemma_scan_ident(s: Seq<char>, i: int)
    requires
        0 <= i < s.len(),
    ensures
        scan(s, i).0 matches ScanOutcome::Token(TokView::Ident(n)) ==> scan::keyword(n) is None,
{
    let c = s[i];
    if i + 1 < s.len() && scan::op2(c, s[i + 1]) is Some {
        assert(!(scan::op2(c, s[i + 1]).unwrap() is Ident));
    }
    if scan::op1(c) is Some {
        assert(!(scan::op1(c).unwrap() is Ident));
    }
}

proof fn lemma_lex_next_ident(s: Seq<char>, i: int)
    ensures
        lex_next(s, i).0 matches Some(Ok((TokView::Ident(n), _))) ==> scan::keyword(n) is None,
    decreases s.len() - i,
{
    if 0 <= i < s.len() {
        lemma_scan_ident(s, i);
        let (o, j) = scan(s, i);
        if i < j <= s.len() && o is Skip {
            lemma_lex_next_ident(s, j);
        }
    }
}

/// Keywords always lex as their own tokens: no identifier token spells a
/// keyword.
pub proof fn law_identifiers_are_not_keywords(s: Seq<char>, i: int)
    ensures
        forall|k: int|
            0 <= k < lex_all(s, i).0.len() ==> ((#[trigger] lex_all(s, i).0[k]).0 matches TokView::Ident(
                n,
            ) ==> scan::keyword(n) is None),
    decreases s.len() - i,
{
    let (r, j) = lex_next(s, i);
    lemma_lex_next_ident(s, i);
    if r is Some && i < j <= s.len() {
        law_identifiers_are_not_keywords(s, j);
        let (toks, errs) = lex_all(s, j);
        match r {
            Some(Ok(t)) => {
                let all = seq![t] + toks;
                assert(lex_all(s, i).0 == all);
                assert forall|k: int| 0 <= k < all.len() implies ((#[trigger] all[k]).0 matches TokView::Ident(
                    n,
                ) ==> scan::keyword(n) is None) by {
                    if k > 0 {
                        assert(all[k] == toks[k - 1]);
                    }
                }
            },
            _ => {},
        }
    }
}

pub struct Lexer<'source> {
    source: &'source str,
    chars: Vec<char>,
    /// Position of the next character to read.
    pos: usize,
    /// Byte offset of `pos`.
    byte_pos: usize,
}

impl<'source> Lexer<'source> {
    /// The characters of the source.
    pub closed spec fn text(&self) -> Seq<char> {
        self.chars@
    }

    /// The position of the next character to read.
    pub closed spec fn position(&self) -> int {
        self.pos as int
    }

    pub closed spec fn wf(&self) -> bool {
        &&& self.chars@ == self.source@
        &&& self.pos <= self.chars@.len()
        &&& self.byte_pos == byte_offset(self.chars@, self.pos as int)
        &&& byte_offset(self.chars@, self.chars@.len() as int) <= usize::MAX
    }

    pub fn new(source: &'source str) -> (l: Self)
        ensures
            l.wf(),
            l.text() == source@,
            l.position() == 0,
            byte_offset(source@, source@.len() as int) <= usize::MAX,
    {
        let chars = chars_of(source);
        let bytes = source.as_bytes();
        let _total = bytes.len();
        proof {
            assert(bytes@ == encode_utf8(source@));
            assert(chars@.take(chars@.len() as int) =~= chars@);
            assert(chars@.take(0) =~= Seq::<char>::empty());
            assert(encode_utf8(Seq::<char>::empty()) =~= Seq::<u8>::empty());
        }
        Self { source, chars, pos: 0, byte_pos: 0 }
    }

    /// Reads the next token, or the error where no token can be read; `None`
    /// at the end of the input.
    pub fn next_token(&mut self) -> (r: Option<Result<(Token, Span), Diagnostic>>)
        requires
            old(self).wf(),
        ensures
            final(self).wf(),
            final(self).text() == old(self).text(),
            next_view(r) == lex_next(old(self).text(), old(self).position()).0,
            final(self).position() == lex_next(old(self).text(), old(self).position()).1,
    {
        loop
            invariant
                self.wf(),
                self.text() == old(self).text(),
                lex_next(self.text(), self.position()) == lex_next(
                    old(self).text(),
                    old(self).position(),
                ),
            decreases self.chars@.len() - self.pos,
        {
            if self.pos >= self.chars.len() {
                return None;
            }
            let start = self.pos;
            let start_byte = self.byte_pos;
            let (scanned, end) = scan_at(&self.chars, start);
            proof {
                lemma_byte_offset_mono(self.chars@, start as int, end as int);
                lemma_byte_offset_mono(self.chars@, end as int, self.chars@.len() as int);
            }
            let end_byte = advance_bytes(&self.chars, start, end, start_byte);
            self.pos = end;
            self.byte_pos = end_byte;
            let span = Span { start: start_byte, end: end_byte };
            match scanned {
                Scanned::Skip => {},
                Scanned::Token(token) => {
                    return Some(Ok((token, span)));
                },
                Scanned::Failed(extras) => {
                    let error = match extras.error {
                        Some(e) => e,
                        None => {
                            let fragment = substring(&self.chars, start, end);
                            if self.chars[start] == '"' {
                                LexerError::UnterminatedString
                            } else if end - start >= 2 && self.chars[start] == '/'
                                && self.chars[start + 1] == '*' {
                                LexerError::UnterminatedBlockComment
                            } else {
                                LexerError::UnexpectedCharacter { character: fragment }
                            }
                        },
                    };
                    let d = Diagnostic::from_lexer_error(error, span);
                    proof {
                        assert(d@ == lex_error(self.chars@, start as int, end as int, scan(self.chars@, start as int).0));
                    }
                    return Some(Err(d));
                },
            }
        }
    }

    /// Reads the whole rest of the input: all tokens and all errors, each in
    /// order.
    pub fn tokenize(&mut self) -> (r: (Vec<(Token, Span)>, Vec<Diagnostic>))
        requires
            old(self).wf(),
        ensures
            final(self).wf(),
            (tokens_view(r.0@), diags_view(r.1@)) == lex_all(old(self).text(), old(self).position()),
    {
        let mut tokens: Vec<(Token, Span)> = Vec::new();
        let mut errors: Vec<Diagnostic> = Vec::new();
        loop
            invariant
                self.wf(),
                self.text() == old(self).text(),
                ({
                    let (t, e) = lex_all(self.text(), self.position());
                    (tokens_view(tokens@) + t, diags_view(errors@) + e)
                }) == lex_all(old(self).text(), old(self).position()),
            decreases self.chars@.len() - self.pos,
        {
            let ghost before = self.position();
            proof {
                lemma_lex_next_progress(self.text(), before);
            }
            match self.next_token() {
                None => {
                    proof {
                        assert(tokens_view(tokens@) + Seq::<(TokView, Span)>::empty() =~= tokens_view(tokens@));
                        assert(diags_view(errors@) + Seq::<DiagnosticView>::empty() =~= diags_view(errors@));
                    }
                    return (tokens, errors);
                },
                Some(Ok(token)) => {
                    let ghost tv = (token.0@, token.1);
                    let ghost prev = tokens@;
                    tokens.push(token);
                    proof {
                        let (t2, e2) = lex_all(self.text(), self.position());
                        assert(tokens_view(tokens@) =~= tokens_view(prev).push(tv));
                        assert(tokens_view(prev) + (seq![tv] + t2) =~= tokens_view(tokens@) + t2);
                    }
                },
                Some(Err(diag)) => {
                    let ghost dv = diag@;
                    let ghost prev = errors@;
                    errors.push(diag);
                    proof {
                        let (t2, e2) = lex_all(self.text(), self.position());
                        assert(diags_view(errors@) =~= diags_view(prev).push(dv));
                        assert(diags_view(prev) + (seq![dv] + e2) =~= diags_view(errors@) + e2);
                    }
                },
            }
        }
    }
}

/// The seven escapes a literal may use: `\n`, `\t`, `\r`, `\\`, `\"`,
/// `\'` and `\0`.
pub open spec fn known_escape(c: char) -> bool {
    c == 'n' || c == 't' || c == 'r' || c == '\\' || c == '"' || c == '\'' || c == '0'
}

/// Literal text in which every backslash starts one of the seven escapes.
pub open spec fn escapes_known(s: Seq<char>) -> bool
    decreases s.len(),
{
    if s.len() == 0 {
        true
    } else if s[0] == '\\' {
        s.len() >= 2 && known_escape(s[1]) && escapes_known(s.subrange(2, s.len() as int))
    } else {
        escapes_known(s.drop_first())
    }
}

/// The escapes stand for newline, tab, carriage return, backslash, double
/// quote, single quote and NUL; any other character after a backslash is
/// no escape.
pub proof fn law_escape_table(c: char)
    ensures
        scan::escape_of('n') == Some('\n'),
        scan::escape_of('t') == Some('\t'),
        scan::escape_of('r') == Some('\r'),
        scan::escape_of('\\') == Some('\\'),
        scan::escape_of('"') == Some('"'),
        scan::escape_of('\'') == Some('\''),
        scan::escape_of('0') == Some('\0'),
        !known_escape(c) ==> scan::escape_of(c) is None,
        scan::unescape(seq!['\\', '"']) == Ok::<Seq<char>, char>(seq!['"']),
        scan::unescape(seq!['\\', 'n']) == Ok::<Seq<char>, char>(seq!['\n']),
{
    reveal_with_fuel(scan::unescape, 2);
    assert(seq!['\\', '"'].subrange(2, 2) =~= Seq::<char>::empty());
    assert(seq!['\\', 'n'].subrange(2, 2) =~= Seq::<char>::empty());
}

/// Text whose escapes are all known has a value: replacing the escapes
/// never fails, and a text without a backslash is its own value.
pub proof fn law_known_escapes_unescape(s: Seq<char>)
    ensures
        escapes_known(s) ==> scan::unescape(s) is Ok,
        (forall|k: int| 0 <= k < s.len() ==> s[k] != '\\') ==> scan::unescape(s) == Ok::<Seq<char>, char>(s),
    decreases s.len(),
{
    if s.len() > 0 {
        if s[0] == '\\' {
            if s.len() >= 2 {
                law_known_escapes_unescape(s.subrange(2, s.len() as int));
            }
        } else {
            law_known_escapes_unescape(s.drop_first());
            if forall|k: int| 0 <= k < s.len() ==> s[k] != '\\' {
                assert forall|k: int| 0 <= k < s.drop_first().len() implies s.drop_first()[k] != '\\' by {
                    assert(s.drop_first()[k] == s[k + 1]);
                }
                assert(seq![s[0]] + s.drop_first() =~= s);
            }
        }
    } else {
        assert(s =~= Seq::<char>::empty());
    }
}

/// Replacing escapes goes left to right, one piece at a time: a character
/// other than a backslash stands for itself, and a known escape for its
/// character from the table, in front of what the rest of the text gives;
/// an unknown escape is the error, whatever follows.
pub proof fn law_unescape_pieces(c: char, r: Seq<char>)
    ensures
        c != '\\' ==> scan::unescape(seq![c] + r) == match scan::unescape(r) {
            Ok(v) => Ok::<Seq<char>, char>(seq![c] + v),
            Err(x) => Err(x),
        },
        known_escape(c) ==> scan::unescape(seq!['\\', c] + r) == match scan::unescape(r) {
            Ok(v) => Ok::<Seq<char>, char>(seq![scan::escape_of(c)->Some_0] + v),
            Err(x) => Err(x),
        },
        !known_escape(c) ==> scan::unescape(seq!['\\', c] + r) == Err::<Seq<char>, char>(c),
{
    assert((seq![c] + r).drop_first() =~= r);
    assert((seq!['\\', c] + r).subrange(2, r.len() as int + 2) =~= r);
    law_escape_table(c);
}

/// A closed string literal whose escapes are all known lexes as one string
/// token, whose text is the literal's with its escapes replaced, and ends
/// after the closing quote.
pub proof fn law_string_literal_lexes(s: Seq<char>, i: int)
    requires
        0 <= i < s.len(),
        s[i] == '"',
        scan::string_scan(s, i + 1).0,
        escapes_known(s.subrange(i + 1, scan::string_scan(s, i + 1).1 - 1)),
    ensures
        ({
            let e = scan::string_scan(s, i + 1).1;
            scan(s, i) == (
                ScanOutcome::Token(TokView::StringLit(
                    scan::unescape(s.subrange(i + 1, e - 1))->Ok_0,
                )),
                e,
            )
        }),
{
    let e = scan::string_scan(s, i + 1).1;
    law_known_escapes_unescape(s.subrange(i + 1, e - 1));
}

} // verus!
