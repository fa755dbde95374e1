//! Tokenizer for the JSON-like serialization syntax of API specification
//! documents.
//!
//! The lexer walks the input with a forward-only codepoint cursor (one
//! logical advance per step, never a fresh lookup from the start of the
//! text), skips whitespace silently, and emits one token per punctuation
//! character, quoted literal or numeric literal.  Unrecognized characters
//! become `Bad` tokens; a numeric literal with more than one dot is a hard
//! error surfaced to the caller.  The end of the input is reported as an
//! `Eof` token exactly once; afterwards the lexer yields nothing further.

use vstd::prelude::*;
use vstd::slice::slice_subrange;
use vstd::std_specs::iter::IteratorSpec;
use vstd::string::StringExecFns;
use vstd::string::StrSliceExecFns;

use crate::parser::ParserError;

verus! {

/// The start and end positions a token covers in the source text, counted
/// in codepoints, together with the exact text covered.
///
/// Invariant: `end >= start`.
#[derive(Debug)]
pub struct TextSpan {
    pub start: usize,
    pub end: usize,
    pub literal: String,
}

impl TextSpan {
    /// Well-formedness: a span never ends before it starts.
    pub open spec fn wf(&self) -> bool {
        self.start <= self.end
    }

    pub fn new(start: usize, end: usize, literal: String) -> (r: Self)
        ensures
            r.start == start,
            r.end == end,
            r.literal == literal,
    {
        TextSpan { start, end, literal }
    }

    /// The number of codepoints the span covers.
    pub fn length(&self) -> (r: usize)
        requires
            self.wf(),
        ensures
            r == self.end - self.start,
    {
        self.end - self.start
    }
}

impl Clone for TextSpan {
    fn clone(&self) -> (r: Self)
        ensures
            r == *self,
    {
        TextSpan { start: self.start, end: self.end, literal: self.literal.clone() }
    }
}

/// The lexical class of a token.
#[derive(Debug, Clone, Copy, PartialEq, Eq, Structural)]
pub enum TokenKind {
    LeftParen,
    RightParen,
    LeftCurlyBrace,
    RightCurlyBrace,
    LeftSquareBrace,
    RightSquareBrace,
    Colon,
    Comma,
    /// A quoted literal; the span covers the characters between the quotes.
    LiteralStringsKeyOrValue,
    /// A numeric literal: digits with at most one dot.
    Number,
    /// An unrecognized character, or an unterminated quoted literal.
    Bad,
    /// The end of the input, emitted exactly once.
    Eof,
}

/// One lexical token: its class and the exact piece of text it covers.
#[derive(Debug)]
pub struct Token {
    pub kind: TokenKind,
    pub span: TextSpan,
}

impl Token {
    pub fn new(kind: TokenKind, span: TextSpan) -> (r: Self)
        ensures
            r.kind == kind,
            r.span == span,
    {
        Token { kind, span }
    }

    /// The mathematical abstraction of this token.
    pub open spec fn stok(&self) -> SpecTok {
        SpecTok {
            kind: self.kind,
            start: self.span.start as int,
            end: self.span.end as int,
            lit: self.span.literal@,
        }
    }
}

impl Clone for Token {
    fn clone(&self) -> (r: Self)
        ensures
            r == *self,
    {
        Token { kind: self.kind, span: self.span.clone() }
    }
}

/// The abstraction of a token: its class, the codepoint positions it covers
/// and the covered text.
pub ghost struct SpecTok {
    pub kind: TokenKind,
    pub start: int,
    pub end: int,
    pub lit: Seq<char>,
}

/// The whitespace characters the lexer skips silently.
pub open spec fn is_ws_char(c: char) -> bool {
    c == ' ' || c == '\t' || c == '\n' || c == '\r'
}

/// Decimal digits begin and continue numeric literals.
pub open spec fn is_digit_char(c: char) -> bool {
    48 <= c as u32 && c as u32 <= 57
}

/// The token class of a single-character punctuation token, if `c` is one.
pub open spec fn punct_token_kind(c: char) -> Option<TokenKind> {
    if c == ':' {
        Some(TokenKind::Colon)
    } else if c == ',' {
        Some(TokenKind::Comma)
    } else if c == '(' {
        Some(TokenKind::LeftParen)
    } else if c == ')' {
        Some(TokenKind::RightParen)
    } else if c == '{' {
        Some(TokenKind::LeftCurlyBrace)
    } else if c == '}' {
        Some(TokenKind::RightCurlyBrace)
    } else if c == '[' {
        Some(TokenKind::LeftSquareBrace)
    } else if c == ']' {
        Some(TokenKind::RightSquareBrace)
    } else {
        None
    }
}

/// The first position at or after `i` that does not hold whitespace.
pub open spec fn sp_skip_ws(s: Seq<char>, i: int) -> int
    decreases s.len() - i,
{
    if i < 0 || i >= s.len() {
        i
    } else if is_ws_char(s[i]) {
        sp_skip_ws(s, i + 1)
    } else {
        i
    }
}

/// The position of the closing unescaped quote of a literal whose content
/// starts at `i`, or the length of the input if the literal never closes.
/// A backslash escapes the character after it.
pub open spec fn sp_scan_literal(s: Seq<char>, i: int) -> int
    decreases s.len() - i,
{
    if i < 0 || i >= s.len() {
        s.len() as int
    } else if s[i] == '"' {
        i
    } else if s[i] == '\\' {
        if i + 1 < s.len() {
            sp_scan_literal(s, i + 2)
        } else {
            s.len() as int
        }
    } else {
        sp_scan_literal(s, i + 1)
    }
}

/// The end of the numeric literal that starts at `i`, together with the
/// number of dots it contains.
pub open spec fn sp_scan_number(s: Seq<char>, i: int) -> (int, int)
    decreases s.len() - i,
{
    if i < 0 || i >= s.len() {
        (i, 0)
    } else if is_digit_char(s[i]) {
        sp_scan_number(s, i + 1)
    } else if s[i] == '.' {
        let r = sp_scan_number(s, i + 1);
        (r.0, r.1 + 1)
    } else {
        (i, 0)
    }
}

/// What one step of the lexer does at cursor position `pos`.
pub ghost enum LexStep {
    /// Only whitespace remains: the lexer emits the end-of-input token.
    End,
    /// A token of class `kind` covering `[start, end)`; the cursor moves to
    /// `next`.
    Tok { kind: TokenKind, start: int, end: int, next: int },
    /// A numeric literal with more than one dot: a hard error.
    NumErr,
}

/// The full behavior of one call of `next_token` on input `s` at cursor
/// position `pos` (when the end-of-input token has not been emitted yet).
pub open spec fn sp_lex_step(s: Seq<char>, pos: int) -> LexStep {
    let p = sp_skip_ws(s, pos);
    if p >= s.len() {
        LexStep::End
    } else {
        let c = s[p];
        match punct_token_kind(c) {
            Some(kind) => LexStep::Tok { kind, start: p, end: p + 1, next: p + 1 },
            None => {
                if c == '"' {
                    let close = sp_scan_literal(s, p + 1);
                    if close >= s.len() {
                        LexStep::Tok {
                            kind: TokenKind::Bad,
                            start: p,
                            end: s.len() as int,
                            next: s.len() as int,
                        }
                    } else {
                        LexStep::Tok {
                            kind: TokenKind::LiteralStringsKeyOrValue,
                            start: p + 1,
                            end: close,
                            next: close + 1,
                        }
                    }
                } else if is_digit_char(c) {
                    let r = sp_scan_number(s, p);
                    if r.1 > 1 {
                        LexStep::NumErr
                    } else {
                        LexStep::Tok { kind: TokenKind::Number, start: p, end: r.0, next: r.0 }
                    }
                } else {
                    LexStep::Tok { kind: TokenKind::Bad, start: p, end: p + 1, next: p + 1 }
                }
            },
        }
    }
}

/// `sp_skip_ws` never moves the cursor backwards nor past the end.
pub proof fn lemma_skip_ws_bounds(s: Seq<char>, i: int)
    requires
        0 <= i <= s.len(),
    ensures
        i <= sp_skip_ws(s, i) <= s.len(),
    decreases s.len() - i,
{
    if i < s.len() && is_ws_char(s[i]) {
        lemma_skip_ws_bounds(s, i + 1);
    }
}

/// `sp_scan_literal` never moves the cursor backwards nor past the end.
pub proof fn lemma_scan_literal_bounds(s: Seq<char>, i: int)
    requires
        0 <= i <= s.len(),
    ensures
        i <= sp_scan_literal(s, i) <= s.len(),
    decreases s.len() - i,
{
    if i < s.len() && s[i] != '"' {
        if s[i] == '\\' {
            if i + 1 < s.len() {
                lemma_scan_literal_bounds(s, i + 2);
            }
        } else {
            lemma_scan_literal_bounds(s, i + 1);
        }
    }
}

/// A numeric literal scan beginning at a digit or dot makes progress and
/// stays within the input.
pub proof fn lemma_scan_number_bounds(s: Seq<char>, i: int)
    requires
        0 <= i <= s.len(),
    ensures
        i <= sp_scan_number(s, i).0 <= s.len(),
        i < s.len() && (is_digit_char(s[i]) || s[i] == '.') ==> i < sp_scan_number(s, i).0,
        sp_scan_number(s, i).1 >= 0,
    decreases s.len() - i,
{
    if i < s.len() && (is_digit_char(s[i]) || s[i] == '.') {
        lemma_scan_number_bounds(s, i + 1);
    }
}

/// Every emitted token sits inside the input and the cursor advances past it.
pub proof fn lemma_lex_step_bounds(s: Seq<char>, pos: int)
    requires
        0 <= pos <= s.len(),
    ensures
        match sp_lex_step(s, pos) {
            LexStep::Tok { kind, start, end, next } => {
                &&& pos <= start <= end <= s.len()
                &&& pos < next <= s.len()
                &&& end <= next
            },
            _ => true,
        },
{
    lemma_skip_ws_bounds(s, pos);
    let p = sp_skip_ws(s, pos);
    if p < s.len() {
        let c = s[p];
        if punct_token_kind(c) is None && c == '"' {
            lemma_scan_literal_bounds(s, p + 1);
        }
        if punct_token_kind(c) is None && c != '"' && is_digit_char(c) {
            lemma_scan_number_bounds(s, p);
        }
    }
}

/// A lexer over a fixed input text.  The cursor counts codepoints and only
/// ever moves forward.
pub struct Lexer {
    chars: Vec<char>,
    pos: usize,
    done: bool,
}

impl View for Lexer {
    type V = Seq<char>;

    /// The input text as a sequence of codepoints.
    closed spec fn view(&self) -> Seq<char> {
        self.chars@
    }
}

impl Lexer {
    /// The current cursor position.
    pub closed spec fn cursor(&self) -> int {
        self.pos as int
    }

    /// Whether the end-of-input token has already been emitted.
    pub closed spec fn finished(&self) -> bool {
        self.done
    }

    /// Well-formedness: the cursor stays within the input.
    pub open spec fn wf(&self) -> bool {
        0 <= self.cursor() <= self@.len()
    }

    pub fn new(input: &str) -> (r: Self)
        ensures
            r@ == input@,
            r.cursor() == 0,
            !r.finished(),
            r.wf(),
    {
        Lexer { chars: chars_vec(input), pos: 0, done: false }
    }

    /// The next token of the input, the end-of-input token exactly once at
    /// the end of the stream, and nothing after that.  A numeric literal
    /// with more than one dot is returned as a `NumberFormatError`.
    pub fn next_token(&mut self) -> (r: Result<Option<Token>, ParserError>)
        requires
            old(self).wf(),
        ensures
            final(self).wf(),
            final(self)@ == old(self)@,
            old(self).finished() ==> {
                &&& r matches Ok(o) && o is None
                &&& final(self).cursor() == old(self).cursor()
                &&& final(self).finished()
            },
            !old(self).finished() ==> match sp_lex_step(old(self)@, old(self).cursor()) {
                LexStep::End => {
                    &&& r matches Ok(o) && o matches Some(t) && t.stok() == (SpecTok {
                        kind: TokenKind::Eof,
                        start: old(self)@.len() as int,
                        end: old(self)@.len() as int,
                        lit: Seq::<char>::empty(),
                    })
                    &&& final(self).finished()
                },
                LexStep::Tok { kind, start, end, next } => {
                    &&& r matches Ok(o) && o matches Some(t) && t.stok() == (SpecTok {
                        kind,
                        start,
                        end,
                        lit: old(self)@.subrange(start, end),
                    })
                    &&& final(self).cursor() == next
                    &&& !final(self).finished()
                },
                LexStep::NumErr => r matches Err(e) && e is NumberFormatError,
            },
    {
        if self.done {
            return Ok(None);
        }
        let ghost s = self.chars@;
        let len = self.chars.len();

        // Skip whitespace with a forward-only cursor.
        while self.pos < len && is_ws(self.chars[self.pos])
            invariant
                0 <= self.pos <= len,
                len == self.chars.len(),
                sp_skip_ws(self.chars@, old(self).cursor()) == sp_skip_ws(
                    self.chars@,
                    self.pos as int,
                ),
                self.chars@ == s,
                self.done == old(self).done,
            decreases len - self.pos,
        {
            self.pos = self.pos + 1;
        }
        assert(sp_skip_ws(s, self.pos as int) == self.pos as int);
        let p = self.pos;

        if p == len {
            // Only whitespace remained: emit the end-of-input token once.
            self.done = true;
            let span = TextSpan::new(len, len, String::new());
            return Ok(Some(Token::new(TokenKind::Eof, span)));
        }

        let c = self.chars[p];
        match punct_kind(c) {
            Some(kind) => {
                self.pos = p + 1;
                let lit = chars_to_string(slice_subrange(self.chars.as_slice(), p, p + 1));
                let span = TextSpan::new(p, p + 1, lit);
                Ok(Some(Token::new(kind, span)))
            },
            None => {
                if c == '"' {
                    self.scan_literal(p)
                } else if is_digit(c) {
                    self.scan_number(p)
                } else {
                    self.pos = p + 1;
                    let lit = chars_to_string(slice_subrange(self.chars.as_slice(), p, p + 1));
                    let span = TextSpan::new(p, p + 1, lit);
                    Ok(Some(Token::new(TokenKind::Bad, span)))
                }
            },
        }
    }

    /// Consume a quoted literal whose opening quote stands at `p`.
    fn scan_literal(&mut self, p: usize) -> (r: Result<Option<Token>, ParserError>)
        requires
            old(self).wf(),
            !old(self).finished(),
            p < old(self)@.len(),
            old(self)@[p as int] == '"',
            punct_token_kind(old(self)@[p as int]) is None,
            sp_skip_ws(old(self)@, old(self).cursor()) == p as int,
        ensures
            final(self).wf(),
            final(self)@ == old(self)@,
            !final(self).finished(),
            match sp_lex_step(old(self)@, old(self).cursor()) {
                LexStep::Tok { kind, start, end, next } => {
                    &&& r matches Ok(o) && o matches Some(t) && t.stok() == (SpecTok {
                        kind,
                        start,
                        end,
                        lit: old(self)@.subrange(start, end),
                    })
                    &&& final(self).cursor() == next
                },
                _ => false,
            },
    {
        let ghost s = self.chars@;
        let len = self.chars.len();
        let mut j = p + 1;

        loop
            invariant
                p + 1 <= j <= len,
                len == self.chars.len(),
                self.chars@ == s,
                sp_scan_literal(s, (p + 1) as int) == sp_scan_literal(s, j as int),
            ensures
                p + 1 <= j <= len,
                len == self.chars.len(),
                self.chars@ == s,
                j == len ==> sp_scan_literal(s, (p + 1) as int) == len as int,
                j < len ==> s[j as int] == '"' && sp_scan_literal(s, (p + 1) as int) == j as int,
            decreases len - j,
        {
            if j >= len {
                break ;
            }
            let c = self.chars[j];
            if c == '"' {
                break ;
            } else if c == '\\' {
                if j + 1 < len {
                    j = j + 2;
                } else {
                    j = len;
                }
            } else {
                j = j + 1;
            }
        }

        if j == len {
            // No closing quote: a recoverable lexical error, reported as a
            // Bad token covering the rest of the input.
            assert(sp_scan_literal(s, (p + 1) as int) == len as int);
            self.pos = len;
            let lit = chars_to_string(slice_subrange(self.chars.as_slice(), p, len));
            let span = TextSpan::new(p, len, lit);
            Ok(Some(Token::new(TokenKind::Bad, span)))
        } else {
            assert(s[j as int] == '"');
            assert(sp_scan_literal(s, (p + 1) as int) == j as int);
            self.pos = j + 1;
            let lit = chars_to_string(slice_subrange(self.chars.as_slice(), p + 1, j));
            let span = TextSpan::new(p + 1, j, lit);
            Ok(Some(Token::new(TokenKind::LiteralStringsKeyOrValue, span)))
        }
    }

    /// Consume a numeric literal whose first digit stands at `p`.
    fn scan_number(&mut self, p: usize) -> (r: Result<Option<Token>, ParserError>)
        requires
            old(self).wf(),
            !old(self).finished(),
            p < old(self)@.len(),
            is_digit_char(old(self)@[p as int]),
            punct_token_kind(old(self)@[p as int]) is None,
            old(self)@[p as int] != '"',
            sp_skip_ws(old(self)@, old(self).cursor()) == p as int,
        ensures
            final(self).wf(),
            final(self)@ == old(self)@,
            !final(self).finished(),
            match sp_lex_step(old(self)@, old(self).cursor()) {
                LexStep::Tok { kind, start, end, next } => {
                    &&& r matches Ok(o) && o matches Some(t) && t.stok() == (SpecTok {
                        kind,
                        start,
                        end,
                        lit: old(self)@.subrange(start, end),
                    })
                    &&& final(self).cursor() == next
                },
                LexStep::NumErr => r matches Err(e) && e is NumberFormatError,
                LexStep::End => false,
            },
    {
        let ghost s = self.chars@;
        let len = self.chars.len();
        let mut j = p;
        let mut dots: usize = 0;

        while j < len && (is_digit(self.chars[j]) || self.chars[j] == '.')
            invariant
                p <= j <= len,
                len == self.chars.len(),
                self.chars@ == s,
                dots <= j - p,
                sp_scan_number(s, p as int).0 == sp_scan_number(s, j as int).0,
                sp_scan_number(s, p as int).1 == dots + sp_scan_number(s, j as int).1,
            decreases len - j,
        {
            proof {
                lemma_scan_number_bounds(s, j as int + 1);
            }
            if self.chars[j] == '.' {
                dots = dots + 1;
            }
            j = j + 1;
        }
        assert(sp_scan_number(s, j as int) == (j as int, 0int));
        assert(sp_scan_number(s, p as int).0 == j as int);
        assert(sp_scan_number(s, p as int).1 == dots as int);

        if dots > 1 {
            self.pos = j;
            return Err(
                ParserError::NumberFormatError(
                    String::from_str("dots in a decimal number cannot be greater than 1"),
                ),
            );
        }
        self.pos = j;
        let lit = chars_to_string(slice_subrange(self.chars.as_slice(), p, j));
        let span = TextSpan::new(p, j, lit);
        Ok(Some(Token::new(TokenKind::Number, span)))
    }
}

/// The end-of-input token of input `s`.
pub open spec fn sp_eof_tok(s: Seq<char>) -> SpecTok {
    SpecTok { kind: TokenKind::Eof, start: s.len() as int, end: s.len() as int, lit: Seq::empty() }
}

/// The token stream of input `s` from position `pos` on: every token up to
/// and including the end-of-input token, or nothing if the lexer hits a
/// numeric literal with more than one dot.
pub open spec fn sp_tokenize_from(s: Seq<char>, pos: int) -> Option<Seq<SpecTok>>
    decreases s.len() - pos,
{
    if pos < 0 || pos > s.len() {
        None
    } else {
        match sp_lex_step(s, pos) {
            LexStep::End => Some(seq![sp_eof_tok(s)]),
            LexStep::Tok { kind, start, end, next } => {
                if !(pos < next <= s.len()) {
                    None
                } else {
                    match sp_tokenize_from(s, next) {
                        Some(rest) => Some(
                            seq![SpecTok { kind, start, end, lit: s.subrange(start, end) }] + rest,
                        ),
                        None => None,
                    }
                }
            },
            LexStep::NumErr => None,
        }
    }
}

/// The token stream of the whole input `s`.
pub open spec fn sp_tokenize(s: Seq<char>) -> Option<Seq<SpecTok>> {
    sp_tokenize_from(s, 0)
}

/// The abstraction of a sequence of tokens.
pub open spec fn toks_abs(ts: Seq<Token>) -> Seq<SpecTok> {
    Seq::new(ts.len(), |i: int| ts[i].stok())
}

/// Tokenize a whole input text: every token of `text` in order, ending with
/// the end-of-input token; or the lexical error the lexer surfaced.
pub fn tokenize(text: &str) -> (r: Result<Vec<Token>, ParserError>)
    ensures
        r matches Ok(toks) ==> sp_tokenize(text@) matches Some(sts) && toks_abs(toks@) == sts,
        r matches Err(e) ==> sp_tokenize(text@) is None && e is NumberFormatError,
{
    let ghost s = text@;
    let mut lx = Lexer::new(text);
    let mut toks: Vec<Token> = Vec::new();

    loop
        invariant_except_break
            !lx.finished(),
            match sp_tokenize_from(s, lx.cursor()) {
                Some(rest) => sp_tokenize(s) matches Some(all) && all == toks_abs(toks@) + rest,
                None => sp_tokenize(s) is None,
            },
        invariant
            s == text@,
            lx.wf(),
            lx@ == s,
        ensures
            sp_tokenize(s) matches Some(all) && all == toks_abs(toks@),
        decreases s.len() - lx.cursor(),
    {
        let ghost pos0 = lx.cursor();
        proof {
            lemma_lex_step_bounds(s, pos0);
        }
        match lx.next_token() {
            Ok(Some(t)) => {
                let ghost toks0 = toks@;
                let is_eof = matches!(t.kind, TokenKind::Eof);
                toks.push(t);
                proof {
                    assert(toks_abs(toks0 + seq![t]) =~= toks_abs(toks0) + seq![t.stok()]);
                }
                if is_eof {
                    break ;
                }
            },
            Ok(None) => {
                proof {
                    assert(false);
                }
            },
            Err(e) => {
                proof {
                    assert(sp_tokenize_from(s, pos0) is None);
                }
                return Err(e);
            },
        }
    }
    Ok(toks)
}

impl Lexer {
    /// Reserved extension point: extraction of endpoint data (URL, verb,
    /// declared responses) straight from the token stream.  Not wired up
    /// yet; the structural parser covers this today.
    pub fn extract_open_api_path() -> (r: Option<()>)
        ensures
            r is Some,
    {
        Some(())
    }
}

/// Exec mirror of `is_ws_char`.
fn is_ws(c: char) -> (r: bool)
    ensures
        r == is_ws_char(c),
{
    c == ' ' || c == '\t' || c == '\n' || c == '\r'
}

/// Exec mirror of `is_digit_char`.
fn is_digit(c: char) -> (r: bool)
    ensures
        r == is_digit_char(c),
{
    let u = c as u32;
    48 <= u && u <= 57
}

/// Exec mirror of `punct_token_kind`.
fn punct_kind(c: char) -> (r: Option<TokenKind>)
    ensures
        r == punct_token_kind(c),
{
    if c == ':' {
        Some(TokenKind::Colon)
    } else if c == ',' {
        Some(TokenKind::Comma)
    } else if c == '(' {
        Some(TokenKind::LeftParen)
    } else if c == ')' {
        Some(TokenKind::RightParen)
    } else if c == '{' {
        Some(TokenKind::LeftCurlyBrace)
    } else if c == '}' {
        Some(TokenKind::RightCurlyBrace)
    } else if c == '[' {
        Some(TokenKind::LeftSquareBrace)
    } else if c == ']' {
        Some(TokenKind::RightSquareBrace)
    } else {
        None
    }
}

/// The codepoints of `s`, gathered once so a caller can index them in
/// constant time.
pub(crate) fn chars_vec(s: &str) -> (r: Vec<char>)
    ensures
        r@ == s@,
{
    broadcast use vstd::string::group_string_axioms;

    let mut v: Vec<char> = Vec::new();
    let mut it = s.chars();
    loop
        invariant
            it.decrease() is Some,
            v@ + it.remaining() == s@,
        ensures
            v@ == s@,
        decreases it.decrease()->0,
    {
        match it.next() {
            Some(c) => v.push(c),
            None => {
                proof {
                    assert(v@ + it.remaining() =~= v@);
                }
                break ;
            },
        }
    }
    v
}

/// Relies on `String: FromIterator<char>`: collecting an iterator of
/// characters yields a string holding exactly those characters in order.
#[verifier::external_body]
fn chars_to_string(cs: &[char]) -> (r: String)
    ensures
        r@ == cs@,
{
    cs.iter().collect()
}

} // verus!
