//! The lexical grammar: which lexeme starts at a position of the source, and
//! where it ends. Each rule takes the longest match; a keyword wins over an
//! identifier of the same length.
use vstd::prelude::*;
use vstd::utf8::{encode_scalar, encode_utf8, char_is_scalar, has_width_1_encoding,
    has_width_2_encoding, has_width_3_encoding};
use crate::errors::LexerError;
use crate::lexer::token::{LexerExtras, Token, TokView};
use crate::text::push_char;

verus! {

// ── Unicode identifier classes ──

/// Whether `c` has the Unicode property XID_Start.
pub uninterp spec fn xid_start(c: char) -> bool;

/// Whether `c` has the Unicode property XID_Continue.
pub uninterp spec fn xid_continue(c: char) -> bool;

/// `unicode_ident::is_xid_start`: whether `c` has the Unicode property
/// XID_Start; the result depends on `c` alone. Among ASCII characters the
/// crate's table holds exactly the letters.
#[verifier::external_body]
fn is_xid_start(c: char) -> (r: bool)
    ensures
        r == xid_start(c),
        (c as u32) < 128 ==> (r <==> ('a' <= c <= 'z' || 'A' <= c <= 'Z')),
{
    unicode_ident::is_xid_start(c)
}

/// `unicode_ident::is_xid_continue`: whether `c` has the Unicode property
/// XID_Continue; the result depends on `c` alone. Among ASCII characters the
/// crate's table holds exactly the letters, the digits and `_`.
#[verifier::external_body]
fn is_xid_continue(c: char) -> (r: bool)
    ensures
        r == xid_continue(c),
        (c as u32) < 128 ==> (r <==> ('a' <= c <= 'z' || 'A' <= c <= 'Z' || '0' <= c <= '9'
            || c == '_')),
{
    unicode_ident::is_xid_continue(c)
}

// ── Byte offsets ──

/// The byte offset, in UTF-8, of the character at position `i` of `s`.
pub open spec fn byte_offset(s: Seq<char>, i: int) -> int {
    encode_utf8(s.take(i)).len() as int
}

/// The number of bytes that encode `c` in UTF-8.
pub open spec fn utf8_width(c: char) -> int {
    encode_scalar(c as u32).len() as int
}

pub proof fn lemma_encode_utf8_append(a: Seq<char>, b: Seq<char>)
    ensures
        encode_utf8(a + b) == encode_utf8(a) + encode_utf8(b),
    decreases a.len(),
{
    if a.len() == 0 {
        assert(a + b =~= b);
        assert(encode_utf8(a) =~= Seq::<u8>::empty());
        assert(encode_utf8(a) + encode_utf8(b) =~= encode_utf8(b));
    } else {
        assert((a + b)[0] == a[0]);
        assert((a + b).drop_first() =~= a.drop_first() + b);
        lemma_encode_utf8_append(a.drop_first(), b);
        assert(encode_scalar(a[0] as u32) + (encode_utf8(a.drop_first()) + encode_utf8(b))
            =~= (encode_scalar(a[0] as u32) + encode_utf8(a.drop_first())) + encode_utf8(b));
    }
}

pub proof fn lemma_byte_offset_step(s: Seq<char>, i: int)
    requires
        0 <= i < s.len(),
    ensures
        byte_offset(s, i + 1) == byte_offset(s, i) + utf8_width(s[i]),
{
    assert(s.take(i + 1) =~= s.take(i) + seq![s[i]]);
    lemma_encode_utf8_append(s.take(i), seq![s[i]]);
    assert(seq![s[i]].drop_first() =~= Seq::<char>::empty());
    assert(encode_utf8(seq![s[i]]) =~= encode_scalar(s[i] as u32) + encode_utf8(
        Seq::<char>::empty(),
    ));
    assert(encode_utf8(Seq::<char>::empty()) =~= Seq::<u8>::empty());
}

pub proof fn lemma_byte_offset_mono(s: Seq<char>, i: int, j: int)
    requires
        0 <= i <= j <= s.len(),
    ensures
        0 <= byte_offset(s, i) <= byte_offset(s, j),
{
    assert(s.take(j) =~= s.take(i) + s.subrange(i, j));
    lemma_encode_utf8_append(s.take(i), s.subrange(i, j));
}

fn char_width(c: char) -> (w: usize)
    ensures
        w == utf8_width(c),
        1 <= w <= 4,
{
    proof {
        char_is_scalar(c);
    }
    let u = c as u32;
    if u <= 0x7f {
        1
    } else if u <= 0x7ff {
        2
    } else if u <= 0xffff {
        3
    } else {
        4
    }
}

/// The byte offset of position `j`, counted on from the offset `b` of `i`.
pub fn advance_bytes(s: &Vec<char>, i: usize, j: usize, b: usize) -> (r: usize)
    requires
        i <= j <= s@.len(),
        b == byte_offset(s@, i as int),
        byte_offset(s@, s@.len() as int) <= usize::MAX,
    ensures
        r == byte_offset(s@, j as int),
{
    let mut k = i;
    let mut off = b;
    while k < j
        invariant
            i <= k <= j <= s@.len(),
            off == byte_offset(s@, k as int),
            byte_offset(s@, s@.len() as int) <= usize::MAX,
        decreases j - k,
    {
        proof {
            lemma_byte_offset_step(s@, k as int);
            lemma_byte_offset_mono(s@, k + 1, s@.len() as int);
        }
        off = off + char_width(s[k]);
        k = k + 1;
    }
    off
}

// ── Character classes ──

pub open spec fn is_ws(c: char) -> bool {
    c == ' ' || c == '\t' || c == '\r' || c == '\n'
}

pub open spec fn is_digit(c: char) -> bool {
    '0' <= c && c <= '9'
}

pub open spec fn ident_start(c: char) -> bool {
    c == '_' || xid_start(c)
}

// ── Ends of runs ──

/// The end of the run of whitespace that starts at `j`.
pub open spec fn ws_end(s: Seq<char>, j: int) -> int
    decreases s.len() - j,
{
    if 0 <= j < s.len() && is_ws(s[j]) {
        ws_end(s, j + 1)
    } else {
        j
    }
}

/// The end of the run of digits that starts at `j`.
pub open spec fn digits_end(s: Seq<char>, j: int) -> int
    decreases s.len() - j,
{
    if 0 <= j < s.len() && is_digit(s[j]) {
        digits_end(s, j + 1)
    } else {
        j
    }
}

/// The end of the run of identifier characters that starts at `j`.
pub open spec fn ident_end(s: Seq<char>, j: int) -> int
    decreases s.len() - j,
{
    if 0 <= j < s.len() && xid_continue(s[j]) {
        ident_end(s, j + 1)
    } else {
        j
    }
}

/// The end of the line that contains `j`: the next newline, or the end.
pub open spec fn line_end(s: Seq<char>, j: int) -> int
    decreases s.len() - j,
{
    if 0 <= j < s.len() && s[j] != '\n' {
        line_end(s, j + 1)
    } else {
        j
    }
}

/// The end of the body of a block comment that continues at `j`: any
/// character but `*`, or a `*` followed by a character other than `/`.
pub open spec fn block_body_end(s: Seq<char>, j: int) -> int
    decreases s.len() - j,
{
    if 0 <= j < s.len() && s[j] != '*' {
        block_body_end(s, j + 1)
    } else if 0 <= j && j + 1 < s.len() && s[j] == '*' && s[j + 1] != '/' {
        block_body_end(s, j + 2)
    } else {
        j
    }
}

/// The end of the block comment that starts at `i`: its body, then `*/` when
/// that follows.
pub open spec fn block_comment_end(s: Seq<char>, i: int) -> int {
    let j = block_body_end(s, i + 2);
    if 0 <= j && j + 1 < s.len() && s[j] == '*' && s[j + 1] == '/' {
        j + 2
    } else {
        j
    }
}

/// Scans the rest of a string literal from `j`: whether a closing quote is
/// reached, and the end of what was read.
pub open spec fn string_scan(s: Seq<char>, j: int) -> (bool, int)
    decreases s.len() - j,
{
    if j < 0 || j >= s.len() {
        (false, s.len() as int)
    } else if s[j] == '"' {
        (true, j + 1)
    } else if s[j] == '\\' {
        if j + 1 < s.len() && s[j + 1] != '\n' {
            string_scan(s, j + 2)
        } else {
            (false, j + 1)
        }
    } else {
        string_scan(s, j + 1)
    }
}

// ── Values ──

/// The character that the escape `\c` stands for.
pub open spec fn escape_of(c: char) -> Option<char> {
    if c == 'n' {
        Some('\n')
    } else if c == 't' {
        Some('\t')
    } else if c == 'r' {
        Some('\r')
    } else if c == '\\' {
        Some('\\')
    } else if c == '"' {
        Some('"')
    } else if c == '\'' {
        Some('\'')
    } else if c == '0' {
        Some('\0')
    } else {
        None
    }
}

/// The text of a literal with its escapes replaced, or the first unknown
/// escape character. A backslash at the very end stays as it is.
pub open spec fn unescape(s: Seq<char>) -> Result<Seq<char>, char>
    decreases s.len(),
{
    if s.len() == 0 {
        Ok(Seq::empty())
    } else if s[0] == '\\' {
        if s.len() == 1 {
            Ok(seq!['\\'])
        } else {
            match escape_of(s[1]) {
                Some(c) => match unescape(s.subrange(2, s.len() as int)) {
                    Ok(r) => Ok(seq![c] + r),
                    Err(e) => Err(e),
                },
                None => Err(s[1]),
            }
        }
    } else {
        match unescape(s.drop_first()) {
            Ok(r) => Ok(seq![s[0]] + r),
            Err(e) => Err(e),
        }
    }
}

/// The value of a run of decimal digits.
pub open spec fn digits_value(d: Seq<char>) -> nat
    decreases d.len(),
{
    if d.len() == 0 {
        0
    } else {
        digits_value(d.drop_last()) * 10 + (d.last() as u32 - '0' as u32) as nat
    }
}

/// What `std` says of a decimal literal too large for `i64`.
pub open spec fn overflow_reason() -> Seq<char> {
    "number too large to fit in target type"@
}

// ── Keywords and operators ──

pub open spec fn keyword(w: Seq<char>) -> Option<TokView> {
    if w == seq!['v', 'a', 'r'] {
        Some(TokView::Var)
    } else if w == seq!['c', 'o', 'n', 's', 't'] {
        Some(TokView::Const)
    } else if w == seq!['r', 'e', 't', 'u', 'r', 'n'] {
        Some(TokView::Return)
    } else if w == seq!['i', 'f'] {
        Some(TokView::If)
    } else if w == seq!['e', 'l', 's', 'e'] {
        Some(TokView::Else)
    } else if w == seq!['w', 'h', 'i', 'l', 'e'] {
        Some(TokView::While)
    } else if w == seq!['b', 'r', 'e', 'a', 'k'] {
        Some(TokView::Break)
    } else if w == seq!['c', 'o', 'n', 't', 'i', 'n', 'u', 'e'] {
        Some(TokView::Continue)
    } else if w == seq!['f', 'n'] {
        Some(TokView::Fn)
    } else if w == seq!['s', 't', 'r', 'u', 'c', 't'] {
        Some(TokView::Struct)
    } else if w == seq!['s', 'e', 'l', 'f'] {
        Some(TokView::SelfKw)
    } else if w == seq!['r', 'e', 'a', 'd', 'o', 'n', 'l', 'y'] {
        Some(TokView::Readonly)
    } else if w == seq!['i', 'n', 't'] {
        Some(TokView::Int)
    } else if w == seq!['c', 'h', 'a', 'r'] {
        Some(TokView::Char)
    } else if w == seq!['v', 'o', 'i', 'd'] {
        Some(TokView::Void)
    } else if w == seq!['p', 't', 'r'] {
        Some(TokView::Ptr)
    } else if w == seq!['s', 'p', 'a', 'n'] {
        Some(TokView::Span)
    } else {
        None
    }
}

/// The operator spelled by the two characters `a`, `b`.
pub open spec fn op2(a: char, b: char) -> Option<TokView> {
    if a == '<' && b == '<' {
        Some(TokView::Shl)
    } else if a == '>' && b == '>' {
        Some(TokView::Shr)
    } else if a == '=' && b == '=' {
        Some(TokView::EqEq)
    } else if a == '!' && b == '=' {
        Some(TokView::NotEq)
    } else if a == '<' && b == '=' {
        Some(TokView::LtEq)
    } else if a == '>' && b == '=' {
        Some(TokView::GtEq)
    } else if a == '&' && b == '&' {
        Some(TokView::AndAnd)
    } else if a == '|' && b == '|' {
        Some(TokView::OrOr)
    } else if a == '-' && b == '>' {
        Some(TokView::Arrow)
    } else if a == ':' && b == ':' {
        Some(TokView::ColonColon)
    } else {
        None
    }
}

/// The operator or delimiter spelled by the character `c`.
pub open spec fn op1(c: char) -> Option<TokView> {
    if c == '+' {
        Some(TokView::Plus)
    } else if c == '-' {
        Some(TokView::Minus)
    } else if c == '*' {
        Some(TokView::Star)
    } else if c == '/' {
        Some(TokView::Slash)
    } else if c == '%' {
        Some(TokView::Percent)
    } else if c == '&' {
        Some(TokView::Ampersand)
    } else if c == '|' {
        Some(TokView::Pipe)
    } else if c == '^' {
        Some(TokView::Caret)
    } else if c == '~' {
        Some(TokView::Tilde)
    } else if c == '!' {
        Some(TokView::Bang)
    } else if c == '<' {
        Some(TokView::Lt)
    } else if c == '>' {
        Some(TokView::Gt)
    } else if c == '=' {
        Some(TokView::Eq)
    } else if c == '.' {
        Some(TokView::Dot)
    } else if c == '(' {
        Some(TokView::LParen)
    } else if c == ')' {
        Some(TokView::RParen)
    } else if c == '{' {
        Some(TokView::LBrace)
    } else if c == '}' {
        Some(TokView::RBrace)
    } else if c == '[' {
        Some(TokView::LBracket)
    } else if c == ']' {
        Some(TokView::RBracket)
    } else if c == ',' {
        Some(TokView::Comma)
    } else if c == ':' {
        Some(TokView::Colon)
    } else if c == ';' {
        Some(TokView::Semicolon)
    } else {
        None
    }
}

// ── Lexemes ──

/// What the lexeme at a position is.
pub enum ScanOutcome {
    /// Whitespace or a closed comment.
    Skip,
    Token(TokView),
    /// A decimal literal too large for `i64`.
    BadInt,
    /// A literal with an unknown escape `\c`.
    BadEscape(char),
    /// A block comment that is never closed.
    BadComment,
    /// No rule matches the text up to where reading stopped.
    NoMatch,
}

/// The lexeme of a character literal at `i` (where `s[i]` is a quote).
pub open spec fn char_lit_scan(s: Seq<char>, i: int) -> (ScanOutcome, int) {
    if i + 1 < s.len() && s[i + 1] == '\\' {
        if i + 2 < s.len() && s[i + 2] != '\n' {
            if i + 3 < s.len() && s[i + 3] == '\'' {
                match escape_of(s[i + 2]) {
                    Some(c) => (ScanOutcome::Token(TokView::CharLit(c)), i + 4),
                    None => (ScanOutcome::BadEscape(s[i + 2]), i + 4),
                }
            } else {
                (ScanOutcome::NoMatch, i + 3)
            }
        } else {
            (ScanOutcome::NoMatch, i + 2)
        }
    } else if i + 1 < s.len() && s[i + 1] != '\'' {
        if i + 2 < s.len() && s[i + 2] == '\'' {
            (ScanOutcome::Token(TokView::CharLit(s[i + 1])), i + 3)
        } else {
            (ScanOutcome::NoMatch, i + 2)
        }
    } else {
        (ScanOutcome::NoMatch, i + 1)
    }
}

/// The lexeme that starts at position `i` of `s`, and where it ends.
pub open spec fn scan(s: Seq<char>, i: int) -> (ScanOutcome, int) {
    let c = s[i];
    if is_ws(c) {
        (ScanOutcome::Skip, ws_end(s, i + 1))
    } else if c == '/' && i + 1 < s.len() && s[i + 1] == '/' {
        (ScanOutcome::Skip, line_end(s, i + 2))
    } else if c == '/' && i + 1 < s.len() && s[i + 1] == '*' {
        let e = block_comment_end(s, i);
        if s[e - 2] == '*' && s[e - 1] == '/' {
            (ScanOutcome::Skip, e)
        } else {
            (ScanOutcome::BadComment, e)
        }
    } else if is_digit(c) {
        let e = digits_end(s, i + 1);
        if digits_value(s.subrange(i, e)) <= i64::MAX {
            (ScanOutcome::Token(TokView::IntLit(digits_value(s.subrange(i, e)) as i64)), e)
        } else {
            (ScanOutcome::BadInt, e)
        }
    } else if c == '\'' {
        char_lit_scan(s, i)
    } else if c == '"' {
        let (closed, e) = string_scan(s, i + 1);
        if closed {
            match unescape(s.subrange(i + 1, e - 1)) {
                Ok(v) => (ScanOutcome::Token(TokView::StringLit(v)), e),
                Err(x) => (ScanOutcome::BadEscape(x), e),
            }
        } else {
            (ScanOutcome::NoMatch, e)
        }
    } else if ident_start(c) {
        let e = ident_end(s, i + 1);
        match keyword(s.subrange(i, e)) {
            Some(k) => (ScanOutcome::Token(k), e),
            None => (ScanOutcome::Token(TokView::Ident(s.subrange(i, e))), e),
        }
    } else if i + 1 < s.len() && op2(c, s[i + 1]) is Some {
        (ScanOutcome::Token(op2(c, s[i + 1]).unwrap()), i + 2)
    } else if op1(c) is Some {
        (ScanOutcome::Token(op1(c).unwrap()), i + 1)
    } else {
        (ScanOutcome::NoMatch, i + 1)
    }
}


// ── Scanning ──

/// What the scanner found at a position: trivia to skip, a token, or a
/// lexeme that failed (with the error its own rule found, if any).
pub enum Scanned {
    Skip,
    Token(Token),
    Failed(LexerExtras),
}

/// `x` is what the scanner hands on for the outcome `o` of the lexeme `s[i..j]`.
pub open spec fn scanned_as(x: Scanned, o: ScanOutcome, s: Seq<char>, i: int, j: int) -> bool {
    match o {
        ScanOutcome::Skip => x is Skip,
        ScanOutcome::Token(t) => x matches Scanned::Token(tok) && tok@ == t,
        ScanOutcome::BadInt => x matches Scanned::Failed(e) && e.error matches Some(
            LexerError::InvalidIntLiteral { literal, reason },
        ) && literal@ == s.subrange(i, j) && reason@ == overflow_reason(),
        ScanOutcome::BadEscape(c) => x matches Scanned::Failed(e) && e.error == Some(
            LexerError::InvalidEscapeSequence { sequence: c },
        ),
        ScanOutcome::BadComment => x matches Scanned::Failed(e) && e.error == Some(
            LexerError::UnterminatedBlockComment,
        ),
        ScanOutcome::NoMatch => x matches Scanned::Failed(e) && e.error is None,
    }
}

fn ws_end_exec(s: &Vec<char>, j: usize) -> (r: usize)
    requires
        j <= s@.len(),
    ensures
        r == ws_end(s@, j as int),
        j <= r <= s@.len(),
{
    let mut k = j;
    while k < s.len() && (s[k] == ' ' || s[k] == '\t' || s[k] == '\r' || s[k] == '\n')
        invariant
            j <= k <= s@.len(),
            ws_end(s@, k as int) == ws_end(s@, j as int),
        decreases s@.len() - k,
    {
        k = k + 1;
    }
    k
}

fn ident_end_exec(s: &Vec<char>, j: usize) -> (r: usize)
    requires
        j <= s@.len(),
    ensures
        r == ident_end(s@, j as int),
        j <= r <= s@.len(),
{
    let mut k = j;
    while k < s.len() && is_xid_continue(s[k])
        invariant
            j <= k <= s@.len(),
            ident_end(s@, k as int) == ident_end(s@, j as int),
        decreases s@.len() - k,
    {
        k = k + 1;
    }
    k
}

fn line_end_exec(s: &Vec<char>, j: usize) -> (r: usize)
    requires
        j <= s@.len(),
    ensures
        r == line_end(s@, j as int),
        j <= r <= s@.len(),
{
    let mut k = j;
    while k < s.len() && s[k] != '\n'
        invariant
            j <= k <= s@.len(),
            line_end(s@, k as int) == line_end(s@, j as int),
        decreases s@.len() - k,
    {
        k = k + 1;
    }
    k
}

fn block_body_end_exec(s: &Vec<char>, j: usize) -> (r: usize)
    requires
        j <= s@.len(),
    ensures
        r == block_body_end(s@, j as int),
        j <= r <= s@.len(),
{
    let mut k = j;
    loop
        invariant
            j <= k <= s@.len(),
            block_body_end(s@, k as int) == block_body_end(s@, j as int),
        decreases s@.len() - k,
    {
        if k < s.len() && s[k] != '*' {
            k = k + 1;
        } else if k < s.len() && s[k] == '*' && k + 1 < s.len() && s[k + 1] != '/' {
            k = k + 2;
        } else {
            return k;
        }
    }
}

fn string_scan_exec(s: &Vec<char>, j: usize) -> (r: (bool, usize))
    requires
        j <= s@.len(),
    ensures
        (r.0, r.1 as int) == string_scan(s@, j as int),
        j <= r.1 <= s@.len(),
        r.0 ==> j < r.1,
{
    let mut k = j;
    loop
        invariant
            j <= k <= s@.len(),
            string_scan(s@, k as int) == string_scan(s@, j as int),
        decreases s@.len() - k,
    {
        if k >= s.len() {
            return (false, s.len());
        } else if s[k] == '"' {
            return (true, k + 1);
        } else if s[k] == '\\' {
            if k + 1 < s.len() && s[k + 1] != '\n' {
                k = k + 2;
            } else {
                return (false, k + 1);
            }
        } else {
            k = k + 1;
        }
    }
}

fn escape_of_exec(c: char) -> (r: Option<char>)
    ensures
        r == escape_of(c),
{
    if c == 'n' {
        Some('\n')
    } else if c == 't' {
        Some('\t')
    } else if c == 'r' {
        Some('\r')
    } else if c == '\\' {
        Some('\\')
    } else if c == '"' {
        Some('"')
    } else if c == '\'' {
        Some('\'')
    } else if c == '0' {
        Some('\0')
    } else {
        None
    }
}

/// Replaces the escapes of the literal text `s[a..b]`.
pub fn process_string_escapes(s: &Vec<char>, a: usize, b: usize) -> (r: Result<String, char>)
    requires
        a <= b <= s@.len(),
    ensures
        match (r, unescape(s@.subrange(a as int, b as int))) {
            (Ok(v), Ok(w)) => v@ == w,
            (Err(x), Err(y)) => x == y,
            _ => false,
        },
{
    let mut result = String::new();
    let mut k = a;
    loop
        invariant
            a <= k <= b <= s@.len(),
            match unescape(s@.subrange(k as int, b as int)) {
                Ok(rest) => unescape(s@.subrange(a as int, b as int)) == Ok::<Seq<char>, char>(
                    result@ + rest,
                ),
                Err(e) => unescape(s@.subrange(a as int, b as int)) == Err::<Seq<char>, char>(e),
            },
        decreases b - k,
    {
        let ghost rest = s@.subrange(k as int, b as int);
        if k >= b {
            proof {
                assert(rest.len() == 0);
                assert(result@ + Seq::<char>::empty() =~= result@);
            }
            return Ok(result);
        }
        let ch = s[k];
        if ch == '\\' {
            if k + 1 == b {
                let ghost before = result@;
                push_char(&mut result, '\\');
                proof {
                    assert(rest.len() == 1);
                    assert(unescape(rest) == Ok::<Seq<char>, char>(seq!['\\']));
                    assert(result@ =~= before + seq!['\\']);
                }
                return Ok(result);
            }
            let esc = s[k + 1];
            match escape_of_exec(esc) {
                Some(c) => {
                    proof {
                        assert(rest[0] == '\\');
                        assert(rest[1] == esc);
                        assert(rest.subrange(2, rest.len() as int) =~= s@.subrange(
                            k + 2,
                            b as int,
                        ));
                        match unescape(s@.subrange(k + 2, b as int)) {
                            Ok(r2) => {
                                assert(result@ + (seq![c] + r2) =~= result@.push(c) + r2);
                            },
                            Err(_) => {},
                        }
                    }
                    push_char(&mut result, c);
                    k = k + 2;
                },
                None => {
                    proof {
                        assert(rest[0] == '\\');
                        assert(rest[1] == esc);
                    }
                    return Err(esc);
                },
            }
        } else {
            proof {
                assert(rest[0] == ch);
                assert(rest.drop_first() =~= s@.subrange(k + 1, b as int));
                match unescape(s@.subrange(k + 1, b as int)) {
                    Ok(r2) => {
                        assert(result@ + (seq![ch] + r2) =~= result@.push(ch) + r2);
                    },
                    Err(_) => {},
                }
            }
            push_char(&mut result, ch);
            k = k + 1;
        }
    }
}

fn is_word(s: &Vec<char>, i: usize, j: usize, w: &[char]) -> (r: bool)
    requires
        i <= j <= s@.len(),
    ensures
        r == (s@.subrange(i as int, j as int) == w@),
{
    if j - i != w.len() {
        proof {
            assert(s@.subrange(i as int, j as int).len() != w@.len());
        }
        return false;
    }
    let mut k: usize = 0;
    while k < w.len()
        invariant
            j - i == w@.len(),
            i <= j <= s@.len(),
            k <= w@.len(),
            forall|m: int| 0 <= m < k ==> s@[i + m] == w@[m],
        decreases w@.len() - k,
    {
        if s[i + k] != w[k] {
            proof {
                assert(s@.subrange(i as int, j as int)[k as int] != w@[k as int]);
            }
            return false;
        }
        k = k + 1;
    }
    proof {
        assert(s@.subrange(i as int, j as int) =~= w@);
    }
    true
}

fn keyword_exec(s: &Vec<char>, i: usize, j: usize) -> (r: Option<Token>)
    requires
        i <= j <= s@.len(),
    ensures
        match (r, keyword(s@.subrange(i as int, j as int))) {
            (Some(t), Some(k)) => t@ == k,
            (None, None) => true,
            _ => false,
        },
{
    let ghost w = s@.subrange(i as int, j as int);
    proof {
        assert(['v', 'a', 'r']@ =~= seq!['v', 'a', 'r']);
        assert(['c', 'o', 'n', 's', 't']@ =~= seq!['c', 'o', 'n', 's', 't']);
        assert(['r', 'e', 't', 'u', 'r', 'n']@ =~= seq!['r', 'e', 't', 'u', 'r', 'n']);
        assert(['i', 'f']@ =~= seq!['i', 'f']);
        assert(['e', 'l', 's', 'e']@ =~= seq!['e', 'l', 's', 'e']);
        assert(['w', 'h', 'i', 'l', 'e']@ =~= seq!['w', 'h', 'i', 'l', 'e']);
        assert(['b', 'r', 'e', 'a', 'k']@ =~= seq!['b', 'r', 'e', 'a', 'k']);
        assert(['c', 'o', 'n', 't', 'i', 'n', 'u', 'e']@ =~= seq!['c', 'o', 'n', 't', 'i', 'n', 'u', 'e']);
        assert(['f', 'n']@ =~= seq!['f', 'n']);
        assert(['s', 't', 'r', 'u', 'c', 't']@ =~= seq!['s', 't', 'r', 'u', 'c', 't']);
        assert(['s', 'e', 'l', 'f']@ =~= seq!['s', 'e', 'l', 'f']);
        assert(['r', 'e', 'a', 'd', 'o', 'n', 'l', 'y']@ =~= seq!['r', 'e', 'a', 'd', 'o', 'n', 'l', 'y']);
        assert(['i', 'n', 't']@ =~= seq!['i', 'n', 't']);
        assert(['c', 'h', 'a', 'r']@ =~= seq!['c', 'h', 'a', 'r']);
        assert(['v', 'o', 'i', 'd']@ =~= seq!['v', 'o', 'i', 'd']);
        assert(['p', 't', 'r']@ =~= seq!['p', 't', 'r']);
        assert(['s', 'p', 'a', 'n']@ =~= seq!['s', 'p', 'a', 'n']);
    }
    if is_word(s, i, j, &['v', 'a', 'r']) {
        Some(Token::Var)
    } else if is_word(s, i, j, &['c', 'o', 'n', 's', 't']) {
        Some(Token::Const)
    } else if is_word(s, i, j, &['r', 'e', 't', 'u', 'r', 'n']) {
        Some(Token::Return)
    } else if is_word(s, i, j, &['i', 'f']) {
        Some(Token::If)
    } else if is_word(s, i, j, &['e', 'l', 's', 'e']) {
        Some(Token::Else)
    } else if is_word(s, i, j, &['w', 'h', 'i', 'l', 'e']) {
        Some(Token::While)
    } else if is_word(s, i, j, &['b', 'r', 'e', 'a', 'k']) {
        Some(Token::Break)
    } else if is_word(s, i, j, &['c', 'o', 'n', 't', 'i', 'n', 'u', 'e']) {
        Some(Token::Continue)
    } else if is_word(s, i, j, &['f', 'n']) {
        Some(Token::Fn)
    } else if is_word(s, i, j, &['s', 't', 'r', 'u', 'c', 't']) {
        Some(Token::Struct)
    } else if is_word(s, i, j, &['s', 'e', 'l', 'f']) {
        Some(Token::SelfKw)
    } else if is_word(s, i, j, &['r', 'e', 'a', 'd', 'o', 'n', 'l', 'y']) {
        Some(Token::Readonly)
    } else if is_word(s, i, j, &['i', 'n', 't']) {
        Some(Token::Int)
    } else if is_word(s, i, j, &['c', 'h', 'a', 'r']) {
        Some(Token::Char)
    } else if is_word(s, i, j, &['v', 'o', 'i', 'd']) {
        Some(Token::Void)
    } else if is_word(s, i, j, &['p', 't', 'r']) {
        Some(Token::Ptr)
    } else if is_word(s, i, j, &['s', 'p', 'a', 'n']) {
        Some(Token::Span)
    } else {
        None
    }
}

fn op2_exec(a: char, b: char) -> (r: Option<Token>)
    ensures
        match (r, op2(a, b)) {
            (Some(t), Some(k)) => t@ == k,
            (None, None) => true,
            _ => false,
        },
{
    if a == '<' && b == '<' {
        Some(Token::Shl)
    } else if a == '>' && b == '>' {
        Some(Token::Shr)
    } else if a == '=' && b == '=' {
        Some(Token::EqEq)
    } else if a == '!' && b == '=' {
        Some(Token::NotEq)
    } else if a == '<' && b == '=' {
        Some(Token::LtEq)
    } else if a == '>' && b == '=' {
        Some(Token::GtEq)
    } else if a == '&' && b == '&' {
        Some(Token::AndAnd)
    } else if a == '|' && b == '|' {
        Some(Token::OrOr)
    } else if a == '-' && b == '>' {
        Some(Token::Arrow)
    } else if a == ':' && b == ':' {
        Some(Token::ColonColon)
    } else {
        None
    }
}

fn op1_exec(c: char) -> (r: Option<Token>)
    ensures
        match (r, op1(c)) {
            (Some(t), Some(k)) => t@ == k,
            (None, None) => true,
            _ => false,
        },
{
    if c == '+' {
        Some(Token::Plus)
    } else if c == '-' {
        Some(Token::Minus)
    } else if c == '*' {
        Some(Token::Star)
    } else if c == '/' {
        Some(Token::Slash)
    } else if c == '%' {
        Some(Token::Percent)
    } else if c == '&' {
        Some(Token::Ampersand)
    } else if c == '|' {
        Some(Token::Pipe)
    } else if c == '^' {
        Some(Token::Caret)
    } else if c == '~' {
        Some(Token::Tilde)
    } else if c == '!' {
        Some(Token::Bang)
    } else if c == '<' {
        Some(Token::Lt)
    } else if c == '>' {
        Some(Token::Gt)
    } else if c == '=' {
        Some(Token::Eq)
    } else if c == '.' {
        Some(Token::Dot)
    } else if c == '(' {
        Some(Token::LParen)
    } else if c == ')' {
        Some(Token::RParen)
    } else if c == '{' {
        Some(Token::LBrace)
    } else if c == '}' {
        Some(Token::RBrace)
    } else if c == '[' {
        Some(Token::LBracket)
    } else if c == ']' {
        Some(Token::RBracket)
    } else if c == ',' {
        Some(Token::Comma)
    } else if c == ':' {
        Some(Token::Colon)
    } else if c == ';' {
        Some(Token::Semicolon)
    } else {
        None
    }
}

proof fn lemma_digits_value_big(d: Seq<char>, k: int)
    requires
        0 <= k <= d.len(),
        digits_value(d.take(k)) > i64::MAX,
        forall|m: int| 0 <= m < d.len() ==> is_digit(#[trigger] d[m]),
    ensures
        digits_value(d) > i64::MAX,
    decreases d.len() - k,
{
    if k < d.len() {
        assert(d.take(k + 1).drop_last() =~= d.take(k));
        lemma_digits_value_big(d, k + 1);
    } else {
        assert(d.take(k) =~= d);
    }
}

/// Reads the decimal literal at `i`: its end, and its value when it fits `i64`.
fn scan_digits(s: &Vec<char>, i: usize) -> (r: (usize, Option<i64>))
    requires
        i < s@.len(),
        is_digit(s@[i as int]),
    ensures
        r.0 == digits_end(s@, i + 1),
        i < r.0 <= s@.len(),
        match r.1 {
            Some(v) => digits_value(s@.subrange(i as int, r.0 as int)) == v,
            None => digits_value(s@.subrange(i as int, r.0 as int)) > i64::MAX,
        },
{
    let mut k = i;
    let mut value: u64 = 0;
    let mut fits = true;
    while k < s.len() && '0' <= s[k] && s[k] <= '9'
        invariant
            i <= k <= s@.len(),
            k > i ==> digits_end(s@, k as int) == digits_end(s@, i + 1),
            forall|m: int| i <= m < k ==> is_digit(#[trigger] s@[m]),
            fits ==> value == digits_value(s@.subrange(i as int, k as int)),
            fits ==> value <= i64::MAX,
            !fits ==> digits_value(s@.subrange(i as int, k as int)) > i64::MAX,
        decreases s@.len() - k,
    {
        let d = (s[k] as u32 - '0' as u32) as u64;
        proof {
            assert(s@.subrange(i as int, k + 1).drop_last() =~= s@.subrange(i as int, k as int));
            assert(s@.subrange(i as int, k + 1).last() == s@[k as int]);
            assert(digits_value(s@.subrange(i as int, k + 1)) == digits_value(
                s@.subrange(i as int, k as int),
            ) * 10 + d);
        }
        if fits {
            if value > (9223372036854775807u64 - d) / 10 {
                fits = false;
                assert(value * 10 + d > 9223372036854775807u64) by (nonlinear_arith)
                    requires
                        value > (9223372036854775807u64 - d) / 10,
                        d <= 9,
                ;
            } else {
                assert(value * 10 + d <= 9223372036854775807u64) by (nonlinear_arith)
                    requires
                        value <= (9223372036854775807u64 - d) / 10,
                        d <= 9,
                ;
                value = value * 10 + d;
            }
        } else {
            assert(digits_value(s@.subrange(i as int, k + 1)) >= digits_value(
                s@.subrange(i as int, k as int),
            )) by (nonlinear_arith)
                requires
                    digits_value(s@.subrange(i as int, k + 1)) == digits_value(
                        s@.subrange(i as int, k as int),
                    ) * 10 + d,
            ;
        }
        k = k + 1;
    }
    if fits {
        (k, Some(value as i64))
    } else {
        (k, None)
    }
}


fn char_lit_scan_exec(s: &Vec<char>, i: usize) -> (r: (Scanned, usize))
    requires
        i < s@.len(),
        s@[i as int] == '\'',
    ensures
        r.1 == char_lit_scan(s@, i as int).1,
        scanned_as(r.0, char_lit_scan(s@, i as int).0, s@, i as int, r.1 as int),
        i < r.1 <= s@.len(),
{
    let n = s.len();
    if i + 1 < n && s[i + 1] == '\\' {
        if i + 2 < n && s[i + 2] != '\n' {
            if i + 3 < n && s[i + 3] == '\'' {
                match escape_of_exec(s[i + 2]) {
                    Some(c) => (Scanned::Token(Token::CharLit(c)), i + 4),
                    None => (
                        Scanned::Failed(
                            LexerExtras {
                                error: Some(LexerError::InvalidEscapeSequence { sequence: s[i + 2] }),
                            },
                        ),
                        i + 4,
                    ),
                }
            } else {
                (Scanned::Failed(LexerExtras { error: None }), i + 3)
            }
        } else {
            (Scanned::Failed(LexerExtras { error: None }), i + 2)
        }
    } else if i + 1 < n && s[i + 1] != '\'' {
        if i + 2 < n && s[i + 2] == '\'' {
            (Scanned::Token(Token::CharLit(s[i + 1])), i + 3)
        } else {
            (Scanned::Failed(LexerExtras { error: None }), i + 2)
        }
    } else {
        (Scanned::Failed(LexerExtras { error: None }), i + 1)
    }
}

/// The characters `s[i..j]` as a string.
pub fn substring(s: &Vec<char>, i: usize, j: usize) -> (r: String)
    requires
        i <= j <= s@.len(),
    ensures
        r@ == s@.subrange(i as int, j as int),
{
    let mut r = String::new();
    let mut k = i;
    while k < j
        invariant
            i <= k <= j <= s@.len(),
            r@ == s@.subrange(i as int, k as int),
        decreases j - k,
    {
        push_char(&mut r, s[k]);
        k = k + 1;
        proof {
            assert(r@ =~= s@.subrange(i as int, k as int));
        }
    }
    r
}

/// Scans the lexeme that starts at `i`.
pub fn scan_at(s: &Vec<char>, i: usize) -> (r: (Scanned, usize))
    requires
        i < s@.len(),
    ensures
        r.1 == scan(s@, i as int).1,
        scanned_as(r.0, scan(s@, i as int).0, s@, i as int, r.1 as int),
        i < r.1 <= s@.len(),
{
    let n = s.len();
    let c = s[i];
    if c == ' ' || c == '\t' || c == '\r' || c == '\n' {
        (Scanned::Skip, ws_end_exec(s, i + 1))
    } else if c == '/' && i + 1 < n && s[i + 1] == '/' {
        (Scanned::Skip, line_end_exec(s, i + 2))
    } else if c == '/' && i + 1 < n && s[i + 1] == '*' {
        let j = block_body_end_exec(s, i + 2);
        let e = if j < n && j + 1 < n && s[j] == '*' && s[j + 1] == '/' {
            j + 2
        } else {
            j
        };
        if s[e - 2] == '*' && s[e - 1] == '/' {
            (Scanned::Skip, e)
        } else {
            (Scanned::Failed(LexerExtras { error: Some(LexerError::UnterminatedBlockComment) }), e)
        }
    } else if '0' <= c && c <= '9' {
        let (e, v) = scan_digits(s, i);
        match v {
            Some(v) => (Scanned::Token(Token::IntLit(v)), e),
            None => {
                let literal = substring(s, i, e);
                (
                    Scanned::Failed(
                        LexerExtras {
                            error: Some(
                                LexerError::InvalidIntLiteral {
                                    literal,
                                    reason: String::from_str(
                                        "number too large to fit in target type",
                                    ),
                                },
                            ),
                        },
                    ),
                    e,
                )
            },
        }
    } else if c == '\'' {
        char_lit_scan_exec(s, i)
    } else if c == '"' {
        let (closed, e) = string_scan_exec(s, i + 1);
        if closed {
            match process_string_escapes(s, i + 1, e - 1) {
                Ok(v) => (Scanned::Token(Token::StringLit(v)), e),
                Err(x) => (
                    Scanned::Failed(
                        LexerExtras {
                            error: Some(LexerError::InvalidEscapeSequence { sequence: x }),
                        },
                    ),
                    e,
                ),
            }
        } else {
            (Scanned::Failed(LexerExtras { error: None }), e)
        }
    } else if c == '_' || is_xid_start(c) {
        let e = ident_end_exec(s, i + 1);
        match keyword_exec(s, i, e) {
            Some(k) => (Scanned::Token(k), e),
            None => (Scanned::Token(Token::Ident(substring(s, i, e))), e),
        }
    } else {
        let two = if i + 1 < n {
            op2_exec(c, s[i + 1])
        } else {
            None
        };
        match two {
            Some(t) => (Scanned::Token(t), i + 2),
            None => match op1_exec(c) {
                Some(t) => (Scanned::Token(t), i + 1),
                None => (Scanned::Failed(LexerExtras { error: None }), i + 1),
            },
        }
    }
}

} // verus!
