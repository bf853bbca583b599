//! Lexical front end for a small scripting language: a `Lexer` walks the
//! source text and classifies runs of characters into tokens, one per call.

use vstd::prelude::*;

verus! {

/// The closed set of reserved words of the language.
#[derive(Clone, Copy, Debug, PartialEq, Eq, Structural)]
pub enum Keyword {
    Const,
    Else,
    For,
    Function,
    If,
    Import,
    Return,
    Var,
}

/// One lexical unit of source text.
///
/// `Number` carries the consumed literal span verbatim; turning the span into
/// a numeric value is left to the caller, so that a malformed literal is the
/// caller's decision rather than a failure inside the scanner.
#[derive(Clone, Debug, PartialEq)]
pub enum TokenKind {
    CloseBrace,
    CloseBracket,
    CloseParen,
    Comma,
    Eof,
    Ident(String),
    Keyword(Keyword),
    LineComment,
    Number(String),
    Op(char),
    OpenBrace,
    OpenBracket,
    OpenParen,
    Semi,
}

/// The mathematical shape of a token: `TokenKind` with every owned string
/// replaced by its character sequence. Contracts speak of this type.
pub enum TokenModel {
    CloseBrace,
    CloseBracket,
    CloseParen,
    Comma,
    Eof,
    Ident(Seq<char>),
    Keyword(Keyword),
    LineComment,
    Number(Seq<char>),
    Op(char),
    OpenBrace,
    OpenBracket,
    OpenParen,
    Semi,
}

impl View for TokenKind {
    type V = TokenModel;

    open spec fn view(&self) -> TokenModel {
        match self {
            TokenKind::CloseBrace => TokenModel::CloseBrace,
            TokenKind::CloseBracket => TokenModel::CloseBracket,
            TokenKind::CloseParen => TokenModel::CloseParen,
            TokenKind::Comma => TokenModel::Comma,
            TokenKind::Eof => TokenModel::Eof,
            TokenKind::Ident(s) => TokenModel::Ident(s@),
            TokenKind::Keyword(k) => TokenModel::Keyword(*k),
            TokenKind::LineComment => TokenModel::LineComment,
            TokenKind::Number(s) => TokenModel::Number(s@),
            TokenKind::Op(c) => TokenModel::Op(*c),
            TokenKind::OpenBrace => TokenModel::OpenBrace,
            TokenKind::OpenBracket => TokenModel::OpenBracket,
            TokenKind::OpenParen => TokenModel::OpenParen,
            TokenKind::Semi => TokenModel::Semi,
        }
    }
}

impl DeepView for TokenKind {
    type V = TokenModel;

    open spec fn deep_view(&self) -> TokenModel {
        self.view()
    }
}

/// An error encountered by the `Lexer`: a message and the offset at which
/// the failure was observed.
pub struct LexerError {
    pub error: &'static str,
    pub index: usize,
}

impl LexerError {
    /// An error at the start of the input.
    pub fn new(msg: &'static str) -> (r: LexerError)
        ensures
            r.error@ == msg@,
            r.index == 0,
    {
        LexerError { error: msg, index: 0 }
    }

    /// An error at the given offset.
    pub fn with_index(msg: &'static str, index: usize) -> (r: LexerError)
        ensures
            r.error@ == msg@,
            r.index == index,
    {
        LexerError { error: msg, index }
    }
}

/// The result of one scan step: a token on success, a `LexerError` on failure.
pub type LexerResult = Result<TokenKind, LexerError>;

// ---------------------------------------------------------------------------
// Character classes
// ---------------------------------------------------------------------------

/// The Unicode White_Space characters: exactly those that end the gap before
/// a token.
pub open spec fn is_whitespace_char(c: char) -> bool {
    let u = c as u32;
    (9 <= u && u <= 13) || u == 32 || u == 0x85 || u == 0xa0 || u == 0x1680 || (0x2000 <= u && u
        <= 0x200a) || u == 0x2028 || u == 0x2029 || u == 0x202f || u == 0x205f || u == 0x3000
}

fn whitespace_char(c: char) -> (r: bool)
    ensures
        r == is_whitespace_char(c),
{
    let u = c as u32;
    (9 <= u && u <= 13) || u == 32 || u == 0x85 || u == 0xa0 || u == 0x1680 || (0x2000 <= u && u
        <= 0x200a) || u == 0x2028 || u == 0x2029 || u == 0x202f || u == 0x205f || u == 0x3000
}

/// An ASCII decimal digit.
pub open spec fn is_digit_char(c: char) -> bool {
    let u = c as u32;
    0x30 <= u && u <= 0x39
}

fn digit_char(c: char) -> (r: bool)
    ensures
        r == is_digit_char(c),
{
    let u = c as u32;
    0x30 <= u && u <= 0x39
}

/// An ASCII hexadecimal digit.
pub open spec fn is_hexdigit_char(c: char) -> bool {
    let u = c as u32;
    (0x30 <= u && u <= 0x39) || (0x41 <= u && u <= 0x46) || (0x61 <= u && u <= 0x66)
}

fn hexdigit_char(c: char) -> (r: bool)
    ensures
        r == is_hexdigit_char(c),
{
    let u = c as u32;
    (0x30 <= u && u <= 0x39) || (0x41 <= u && u <= 0x46) || (0x61 <= u && u <= 0x66)
}

/// Whatever `char::is_alphanumeric` holds true of: a fixed function of the
/// character, far too large to restate here.
pub uninterp spec fn is_alphanumeric_char(c: char) -> bool;

/// Relies on char::is_alphanumeric: whether `c` is alphanumeric depends on
/// the character alone, so its outcome is named `is_alphanumeric_char`.
#[verifier::external_body]
fn alphanumeric_char(c: char) -> (r: bool)
    ensures
        r == is_alphanumeric_char(c),
{
    c.is_alphanumeric()
}

/// A character that may begin an identifier: an ASCII letter or underscore.
pub open spec fn is_ident_start(c: char) -> bool {
    let u = c as u32;
    (0x41 <= u && u <= 0x5a) || (0x61 <= u && u <= 0x7a) || u == 0x5f
}

fn ident_start_char(c: char) -> (r: bool)
    ensures
        r == is_ident_start(c),
{
    let u = c as u32;
    (0x41 <= u && u <= 0x5a) || (0x61 <= u && u <= 0x7a) || u == 0x5f
}

/// A character that may continue an identifier: underscore or alphanumeric.
pub open spec fn is_ident_continue(c: char) -> bool {
    c == '_' || is_alphanumeric_char(c)
}

/// A character that may begin a numeric literal.
pub open spec fn is_number_start(c: char) -> bool {
    c == '.' || is_digit_char(c)
}

/// A character that may continue a numeric literal: deliberately permissive,
/// a dot or any hexadecimal digit.
pub open spec fn is_number_continue(c: char) -> bool {
    c == '.' || is_hexdigit_char(c)
}

// ---------------------------------------------------------------------------
// The scan, as a mathematical function of the source text and the cursor
// ---------------------------------------------------------------------------

/// The first position at or after `pos` holding a non-whitespace character,
/// or the end of the input.
pub open spec fn skip_whitespace(s: Seq<char>, pos: int) -> int
    decreases s.len() - pos,
{
    if pos < 0 || pos >= s.len() {
        s.len() as int
    } else if !is_whitespace_char(s[pos]) {
        pos
    } else {
        skip_whitespace(s, pos + 1)
    }
}

/// The first position at or after `pos` where an identifier ends.
pub open spec fn ident_end(s: Seq<char>, pos: int) -> int
    decreases s.len() - pos,
{
    if pos < 0 || pos >= s.len() {
        s.len() as int
    } else if !is_ident_continue(s[pos]) {
        pos
    } else {
        ident_end(s, pos + 1)
    }
}

/// The first position at or after `pos` where a numeric literal ends.
pub open spec fn number_end(s: Seq<char>, pos: int) -> int
    decreases s.len() - pos,
{
    if pos < 0 || pos >= s.len() {
        s.len() as int
    } else if !is_number_continue(s[pos]) {
        pos
    } else {
        number_end(s, pos + 1)
    }
}

/// The position just past the newline that ends a comment whose text starts
/// at `pos`, or the end of the input when no newline follows.
pub open spec fn comment_end(s: Seq<char>, pos: int) -> int
    decreases s.len() - pos,
{
    if pos < 0 || pos >= s.len() {
        s.len() as int
    } else if s[pos] == '\n' {
        pos + 1
    } else {
        comment_end(s, pos + 1)
    }
}

/// Exact, case-sensitive lookup of an identifier against the keyword set.
pub open spec fn keyword_of(w: Seq<char>) -> Option<Keyword> {
    if w == "const"@ {
        Some(Keyword::Const)
    } else if w == "else"@ {
        Some(Keyword::Else)
    } else if w == "for"@ {
        Some(Keyword::For)
    } else if w == "function"@ {
        Some(Keyword::Function)
    } else if w == "if"@ {
        Some(Keyword::If)
    } else if w == "import"@ {
        Some(Keyword::Import)
    } else if w == "return"@ {
        Some(Keyword::Return)
    } else if w == "var"@ {
        Some(Keyword::Var)
    } else {
        None
    }
}

/// The position just past the token that begins at `start`; the token class
/// is decided by the character at `start` alone.
pub open spec fn token_end(s: Seq<char>, start: int) -> int {
    let c = s[start];
    if c == '#' {
        comment_end(s, start + 1)
    } else if is_number_start(c) {
        number_end(s, start + 1)
    } else if is_ident_start(c) {
        ident_end(s, start + 1)
    } else {
        start + 1
    }
}

/// The token that begins at `start` (a non-whitespace position).
pub open spec fn token_at(s: Seq<char>, start: int) -> TokenModel {
    let c = s[start];
    if c == ';' {
        TokenModel::Semi
    } else if c == ',' {
        TokenModel::Comma
    } else if c == '(' {
        TokenModel::OpenParen
    } else if c == ')' {
        TokenModel::CloseParen
    } else if c == '{' {
        TokenModel::OpenBrace
    } else if c == '}' {
        TokenModel::CloseBrace
    } else if c == '[' {
        TokenModel::OpenBracket
    } else if c == ']' {
        TokenModel::CloseBracket
    } else if c == '#' {
        TokenModel::LineComment
    } else if is_number_start(c) {
        TokenModel::Number(s.subrange(start, number_end(s, start + 1)))
    } else if is_ident_start(c) {
        let w = s.subrange(start, ident_end(s, start + 1));
        match keyword_of(w) {
            Some(k) => TokenModel::Keyword(k),
            None => TokenModel::Ident(w),
        }
    } else {
        TokenModel::Op(c)
    }
}

/// One scan step from `pos`: the token produced and the cursor after it.
/// At end of input the step yields `Eof` with the cursor at the end.
pub open spec fn scan_step(s: Seq<char>, pos: int) -> (TokenModel, int) {
    let start = skip_whitespace(s, pos);
    if start >= s.len() {
        (TokenModel::Eof, s.len() as int)
    } else {
        (token_at(s, start), token_end(s, start))
    }
}

pub proof fn lemma_skip_whitespace_bounds(s: Seq<char>, pos: int)
    requires
        0 <= pos <= s.len(),
    ensures
        pos <= skip_whitespace(s, pos) <= s.len(),
    decreases s.len() - pos,
{
    if pos < s.len() && is_whitespace_char(s[pos]) {
        lemma_skip_whitespace_bounds(s, pos + 1);
    }
}

pub proof fn lemma_ident_end_bounds(s: Seq<char>, pos: int)
    requires
        0 <= pos <= s.len(),
    ensures
        pos <= ident_end(s, pos) <= s.len(),
    decreases s.len() - pos,
{
    if pos < s.len() && is_ident_continue(s[pos]) {
        lemma_ident_end_bounds(s, pos + 1);
    }
}

pub proof fn lemma_number_end_bounds(s: Seq<char>, pos: int)
    requires
        0 <= pos <= s.len(),
    ensures
        pos <= number_end(s, pos) <= s.len(),
    decreases s.len() - pos,
{
    if pos < s.len() && is_number_continue(s[pos]) {
        lemma_number_end_bounds(s, pos + 1);
    }
}

pub proof fn lemma_comment_end_bounds(s: Seq<char>, pos: int)
    requires
        0 <= pos <= s.len(),
    ensures
        pos <= comment_end(s, pos) <= s.len(),
    decreases s.len() - pos,
{
    if pos < s.len() && s[pos] != '\n' {
        lemma_comment_end_bounds(s, pos + 1);
    }
}

/// A scan step never moves the cursor backwards, never past the end, and a
/// step that yields a token (not `Eof`) consumes at least one character.
pub proof fn lemma_scan_step_advances(s: Seq<char>, pos: int)
    requires
        0 <= pos <= s.len(),
    ensures
        pos <= scan_step(s, pos).1 <= s.len(),
        !(scan_step(s, pos).0 is Eof) ==> pos < scan_step(s, pos).1,
{
    lemma_skip_whitespace_bounds(s, pos);
    let start = skip_whitespace(s, pos);
    if start < s.len() {
        lemma_comment_end_bounds(s, start + 1);
        lemma_number_end_bounds(s, start + 1);
        lemma_ident_end_bounds(s, start + 1);
    }
}

/// The full token sequence produced from `pos`: one token per scan step,
/// ending just before the step that yields `Eof`.
pub open spec fn tokens_from(s: Seq<char>, pos: int) -> Seq<TokenModel>
    decreases s.len() - pos,
        when 0 <= pos <= s.len()
        via tokens_from_decreases
{
    let (t, end) = scan_step(s, pos);
    if t is Eof {
        Seq::empty()
    } else {
        seq![t] + tokens_from(s, end)
    }
}

#[via_fn]
proof fn tokens_from_decreases(s: Seq<char>, pos: int) {
    lemma_scan_step_advances(s, pos);
}

/// The character spans consumed by successive scan steps from `pos`: each
/// token's span includes the whitespace skipped before it, and the final
/// `Eof` step consumes whatever trailing whitespace remains.
pub open spec fn spans_from(s: Seq<char>, pos: int) -> Seq<Seq<char>>
    decreases s.len() - pos,
        when 0 <= pos <= s.len()
        via spans_from_decreases
{
    let (t, end) = scan_step(s, pos);
    if t is Eof {
        seq![s.subrange(pos, s.len() as int)]
    } else {
        seq![s.subrange(pos, end)] + spans_from(s, end)
    }
}

#[via_fn]
proof fn spans_from_decreases(s: Seq<char>, pos: int) {
    lemma_scan_step_advances(s, pos);
}

// ---------------------------------------------------------------------------
// The scanner
// ---------------------------------------------------------------------------

/// Character-by-character equality of two string slices.
fn str_equal(a: &str, b: &str) -> (r: bool)
    ensures
        r == (a@ == b@),
{
    let a_len = a.unicode_len();
    let b_len = b.unicode_len();
    if a_len != b_len {
        proof {
            assert(a@ != b@) by {
                assert(a@.len() != b@.len());
            }
        }
        return false;
    }
    let mut i: usize = 0;
    while i < a_len
        invariant
            a_len == a@.len(),
            b_len == b@.len(),
            a_len == b_len,
            0 <= i <= a_len,
            forall|j: int| 0 <= j < i ==> a@[j] == b@[j],
        decreases a_len - i,
    {
        if a.get_char(i) != b.get_char(i) {
            return false;
        }
        i += 1;
    }
    proof {
        assert(a@ =~= b@);
    }
    true
}

fn whitespace_at(src: &str, i: usize) -> (r: bool)
    requires
        i < src@.len(),
    ensures
        r == is_whitespace_char(src@[i as int]),
{
    whitespace_char(src.get_char(i))
}

fn newline_at(src: &str, i: usize) -> (r: bool)
    requires
        i < src@.len(),
    ensures
        r == (src@[i as int] == '\n'),
{
    src.get_char(i) == '\n'
}

fn number_continue_at(src: &str, i: usize) -> (r: bool)
    requires
        i < src@.len(),
    ensures
        r == is_number_continue(src@[i as int]),
{
    let c = src.get_char(i);
    c == '.' || hexdigit_char(c)
}

fn ident_continue_at(src: &str, i: usize) -> (r: bool)
    requires
        i < src@.len(),
    ensures
        r == is_ident_continue(src@[i as int]),
{
    let c = src.get_char(i);
    c == '_' || alphanumeric_char(c)
}

/// The scanner: it borrows the full source text and owns a cursor, a
/// position in the text's character sequence. The cursor starts at zero,
/// never moves backwards, and never passes the end of the text.
pub struct Lexer<'a> {
    input: &'a str,
    pos: usize,
}

impl<'a> Lexer<'a> {
    /// The source text, as the character sequence the contracts speak of.
    pub closed spec fn src(&self) -> Seq<char> {
        self.input@
    }

    /// The cursor: how many characters have been consumed.
    pub closed spec fn cursor(&self) -> int {
        self.pos as int
    }

    /// The cursor lies within the source text.
    pub closed spec fn wf(&self) -> bool {
        0 <= self.pos <= self.input@.len()
    }

    /// Well-formedness bounds the cursor by the source text.
    pub proof fn lemma_wf_bounds(&self)
        requires
            self.wf(),
        ensures
            0 <= self.cursor() <= self.src().len(),
    {
    }

    /// Creates a new `Lexer`, given its source `input`, with the cursor at
    /// the start of the text.
    pub fn new(input: &'a str) -> (l: Lexer<'a>)
        ensures
            l.wf(),
            l.src() == input@,
            l.cursor() == 0,
    {
        Lexer { input, pos: 0 }
    }

    /// Lexes and returns the next token from the source code: exactly the
    /// scan step `scan_step` taken at the current cursor. The cursor moves
    /// to the step's end position and never backwards.
    #[verifier::loop_isolation(false)]
    pub fn lex(&mut self) -> (r: LexerResult)
        requires
            old(self).wf(),
        ensures
            final(self).wf(),
            final(self).src() == old(self).src(),
            r matches Ok(t) && t@ == scan_step(old(self).src(), old(self).cursor()).0,
            final(self).cursor() == scan_step(old(self).src(), old(self).cursor()).1,
            old(self).cursor() <= final(self).cursor(),
    {
        let src = self.input;
        let ghost s = src@;
        let n = src.unicode_len();
        let ghost p0 = self.pos as int;
        let mut pos = self.pos;

        // Skip whitespace.
        while pos < n && whitespace_at(src, pos)
            invariant
                p0 <= pos <= n,
                skip_whitespace(s, p0) == skip_whitespace(s, pos as int),
            decreases n - pos,
        {
            pos += 1;
        }
        if pos >= n {
            self.pos = pos;
            return Ok(TokenKind::Eof);
        }

        let start = pos;
        proof {
            assert(skip_whitespace(s, p0) == start);
        }
        let c = src.get_char(start);
        pos += 1;

        let token = if c == ';' {
            TokenKind::Semi
        } else if c == ',' {
            TokenKind::Comma
        } else if c == '(' {
            TokenKind::OpenParen
        } else if c == ')' {
            TokenKind::CloseParen
        } else if c == '{' {
            TokenKind::OpenBrace
        } else if c == '}' {
            TokenKind::CloseBrace
        } else if c == '[' {
            TokenKind::OpenBracket
        } else if c == ']' {
            TokenKind::CloseBracket
        } else if c == '#' {
            // A comment runs to just past the next newline, or to the end
            // of the input.
            while pos < n && !newline_at(src, pos)
                invariant
                    start + 1 <= pos <= n,
                    comment_end(s, start + 1) == comment_end(s, pos as int),
                decreases n - pos,
            {
                pos += 1;
            }
            if pos < n {
                pos += 1;
            }
            TokenKind::LineComment
        } else if c == '.' || digit_char(c) {
            // A numeric literal: greedily consume dots and hexadecimal
            // digits, and carry the consumed span verbatim.
            while pos < n && number_continue_at(src, pos)
                invariant
                    start + 1 <= pos <= n,
                    number_end(s, start + 1) == number_end(s, pos as int),
                decreases n - pos,
            {
                pos += 1;
            }
            let text = src.substring_char(start, pos).to_owned();
            TokenKind::Number(text)
        } else if ident_start_char(c) {
            // An identifier: greedily consume underscores and alphanumeric
            // characters, then look the word up in the keyword set.
            while pos < n && ident_continue_at(src, pos)
                invariant
                    start + 1 <= pos <= n,
                    ident_end(s, start + 1) == ident_end(s, pos as int),
                decreases n - pos,
            {
                pos += 1;
            }
            let word = src.substring_char(start, pos);
            if str_equal(word, "const") {
                TokenKind::Keyword(Keyword::Const)
            } else if str_equal(word, "else") {
                TokenKind::Keyword(Keyword::Else)
            } else if str_equal(word, "for") {
                TokenKind::Keyword(Keyword::For)
            } else if str_equal(word, "function") {
                TokenKind::Keyword(Keyword::Function)
            } else if str_equal(word, "if") {
                TokenKind::Keyword(Keyword::If)
            } else if str_equal(word, "import") {
                TokenKind::Keyword(Keyword::Import)
            } else if str_equal(word, "return") {
                TokenKind::Keyword(Keyword::Return)
            } else if str_equal(word, "var") {
                TokenKind::Keyword(Keyword::Var)
            } else {
                TokenKind::Ident(word.to_owned())
            }
        } else {
            // Any other single character stands for itself.
            TokenKind::Op(c)
        };

        self.pos = pos;
        Ok(token)
    }

    /// One step of the lazy token sequence: the next token, or `None` once
    /// the sequence is over. A scan step that yields `Eof` — or an error,
    /// had `lex` any way of producing one — ends the sequence silently.
    pub fn next(&mut self) -> (r: Option<TokenKind>)
        requires
            old(self).wf(),
        ensures
            final(self).wf(),
            final(self).src() == old(self).src(),
            old(self).cursor() <= final(self).cursor() <= final(self).src().len(),
            r is None ==> tokens_from(old(self).src(), old(self).cursor())
                == Seq::<TokenModel>::empty() && final(self).cursor() == old(self).src().len(),
            r matches Some(t) ==> tokens_from(old(self).src(), old(self).cursor()) == seq![t@]
                + tokens_from(old(self).src(), final(self).cursor()) && old(self).cursor()
                < final(self).cursor(),
    {
        proof {
            lemma_scan_step_advances(self.src(), self.cursor());
        }
        match self.lex() {
            Ok(TokenKind::Eof) => None,
            Ok(token) => Some(token),
            Err(_) => None,
        }
    }

    /// The remaining tokens, in production order, from the current cursor
    /// to the end of the input. Afterwards the scanner is exhausted: the
    /// cursor stands at the end, and further calls yield nothing.
    pub fn tokens(&mut self) -> (r: Vec<TokenKind>)
        requires
            old(self).wf(),
        ensures
            final(self).wf(),
            final(self).src() == old(self).src(),
            final(self).cursor() == final(self).src().len(),
            r.deep_view() == tokens_from(old(self).src(), old(self).cursor()),
    {
        let ghost s = self.src();
        let ghost p0 = self.cursor();
        let mut out: Vec<TokenKind> = Vec::new();
        proof {
            assert(out.deep_view() + tokens_from(s, p0) =~= tokens_from(s, p0));
        }
        loop
            invariant
                self.wf(),
                self.src() == s,
                0 <= p0 <= self.cursor() <= s.len(),
                tokens_from(s, p0) == out.deep_view() + tokens_from(s, self.cursor()),
            ensures
                self.wf(),
                self.src() == s,
                self.cursor() == s.len(),
                tokens_from(s, p0) == out.deep_view(),
            decreases s.len() - self.cursor(),
        {
            let ghost dv0 = out.deep_view();
            match self.next() {
                None => {
                    proof {
                        assert(tokens_from(s, p0) =~= out.deep_view());
                    }
                    break;
                },
                Some(token) => {
                    let ghost rest = tokens_from(s, self.cursor());
                    out.push(token);
                    proof {
                        assert(out.deep_view() =~= dv0 + seq![token@]);
                        assert(dv0 + (seq![token@] + rest) =~= (dv0 + seq![token@]) + rest);
                    }
                },
            }
        }
        out
    }
}

/// The full ordered token list for the given source text: everything a
/// fresh scanner produces before its sequence ends.
pub fn lex_all(input: &str) -> (r: Vec<TokenKind>)
    ensures
        r.deep_view() == tokens_from(input@, 0),
{
    let mut lexer = Lexer::new(input);
    lexer.tokens()
}

// ---------------------------------------------------------------------------
// Laws of the scan
// ---------------------------------------------------------------------------

proof fn lemma_skip_whitespace_exhausts(s: Seq<char>, pos: int)
    requires
        0 <= pos <= s.len(),
        forall|i: int| pos <= i < s.len() ==> is_whitespace_char(s[i]),
    ensures
        skip_whitespace(s, pos) == s.len(),
    decreases s.len() - pos,
{
    if pos < s.len() {
        lemma_skip_whitespace_exhausts(s, pos + 1);
    }
}

/// A source text consisting only of whitespace — the empty text included —
/// lexes to the empty token sequence.
pub proof fn lemma_whitespace_only_lexes_empty(s: Seq<char>)
    requires
        forall|i: int| 0 <= i < s.len() ==> is_whitespace_char(s[i]),
    ensures
        tokens_from(s, 0) == Seq::<TokenModel>::empty(),
{
    lemma_skip_whitespace_exhausts(s, 0);
}

proof fn lemma_spans_cover(s: Seq<char>, pos: int)
    requires
        0 <= pos <= s.len(),
    ensures
        spans_from(s, pos).flatten() == s.subrange(pos, s.len() as int),
    decreases s.len() - pos,
{
    lemma_scan_step_advances(s, pos);
    let (t, end) = scan_step(s, pos);
    let spans = spans_from(s, pos);
    if t is Eof {
        assert(spans.len() == 1);
        spans.lemma_flatten_one_element();
        assert(spans.first() == s.subrange(pos, s.len() as int));
    } else {
        lemma_spans_cover(s, end);
        assert(spans.drop_first() =~= spans_from(s, end));
        assert(spans.first() == s.subrange(pos, end));
        assert(spans.flatten() == s.subrange(pos, end) + spans_from(s, end).flatten());
        assert(s.subrange(pos, end) + s.subrange(end, s.len() as int) =~= s.subrange(
            pos,
            s.len() as int,
        ));
    }
}

/// Concatenating the character spans consumed by successive scan steps —
/// skipped whitespace and comments included — reconstructs the source text
/// exactly, with no gaps and no overlaps.
pub proof fn lemma_spans_reconstruct_input(s: Seq<char>)
    ensures
        spans_from(s, 0).flatten() == s,
{
    lemma_spans_cover(s, 0);
    assert(s.subrange(0, s.len() as int) =~= s);
}

/// Lexing is a pure function of the source text: scanning equal inputs from
/// fresh scanners yields identical token sequences.
pub proof fn lemma_relex_identical(s1: Seq<char>, s2: Seq<char>)
    requires
        s1 == s2,
    ensures
        tokens_from(s1, 0) == tokens_from(s2, 0),
{
}

} // verus!
