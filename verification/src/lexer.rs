//! Tokens and the lexer.

use crate::text::{chars_of, str_eq};
use vstd::prelude::*;

verus! {

// ---------------------------------------------------------------------------
// Tokens
// ---------------------------------------------------------------------------
/// A token.
#[derive(Debug, PartialEq, Eq)]
pub enum Token {
    Ident(String),
    Int(i64),
    Str(String),
    Bool(bool),
    KwImport,
    KwGlobal,
    KwMut,
    KwType,
    KwIf,
    KwThen,
    KwElse,
    KwCopy,
    LBrace,
    RBrace,
    LParen,
    RParen,
    Colon,
    Comma,
    Dot,
    Assign,
    Arrow,
    Amp,
    Plus,
    Minus,
    Star,
    Slash,
    Lt,
    EqEq,
    AndAnd,
    OrOr,
    Bang,
    Eof,
}

/// Model of [`Token`].
pub enum TokenV {
    Ident(Seq<char>),
    Int(i64),
    Str(Seq<char>),
    Bool(bool),
    KwImport,
    KwGlobal,
    KwMut,
    KwType,
    KwIf,
    KwThen,
    KwElse,
    KwCopy,
    LBrace,
    RBrace,
    LParen,
    RParen,
    Colon,
    Comma,
    Dot,
    Assign,
    Arrow,
    Amp,
    Plus,
    Minus,
    Star,
    Slash,
    Lt,
    EqEq,
    AndAnd,
    OrOr,
    Bang,
    Eof,
}

impl View for Token {
    type V = TokenV;

    open spec fn view(&self) -> TokenV {
        match self {
            Token::Ident(s) => TokenV::Ident(s@),
            Token::Int(i) => TokenV::Int(*i),
            Token::Str(s) => TokenV::Str(s@),
            Token::Bool(b) => TokenV::Bool(*b),
            Token::KwImport => TokenV::KwImport,
            Token::KwGlobal => TokenV::KwGlobal,
            Token::KwMut => TokenV::KwMut,
            Token::KwType => TokenV::KwType,
            Token::KwIf => TokenV::KwIf,
            Token::KwThen => TokenV::KwThen,
            Token::KwElse => TokenV::KwElse,
            Token::KwCopy => TokenV::KwCopy,
            Token::LBrace => TokenV::LBrace,
            Token::RBrace => TokenV::RBrace,
            Token::LParen => TokenV::LParen,
            Token::RParen => TokenV::RParen,
            Token::Colon => TokenV::Colon,
            Token::Comma => TokenV::Comma,
            Token::Dot => TokenV::Dot,
            Token::Assign => TokenV::Assign,
            Token::Arrow => TokenV::Arrow,
            Token::Amp => TokenV::Amp,
            Token::Plus => TokenV::Plus,
            Token::Minus => TokenV::Minus,
            Token::Star => TokenV::Star,
            Token::Slash => TokenV::Slash,
            Token::Lt => TokenV::Lt,
            Token::EqEq => TokenV::EqEq,
            Token::AndAnd => TokenV::AndAnd,
            Token::OrOr => TokenV::OrOr,
            Token::Bang => TokenV::Bang,
            Token::Eof => TokenV::Eof,
        }
    }
}

impl Clone for Token {
    fn clone(&self) -> (r: Self)
        ensures
            r@ == self@,
    {
        match self {
            Token::Ident(s) => Token::Ident(s.clone()),
            Token::Int(i) => Token::Int(*i),
            Token::Str(s) => Token::Str(s.clone()),
            Token::Bool(b) => Token::Bool(*b),
            Token::KwImport => Token::KwImport,
            Token::KwGlobal => Token::KwGlobal,
            Token::KwMut => Token::KwMut,
            Token::KwType => Token::KwType,
            Token::KwIf => Token::KwIf,
            Token::KwThen => Token::KwThen,
            Token::KwElse => Token::KwElse,
            Token::KwCopy => Token::KwCopy,
            Token::LBrace => Token::LBrace,
            Token::RBrace => Token::RBrace,
            Token::LParen => Token::LParen,
            Token::RParen => Token::RParen,
            Token::Colon => Token::Colon,
            Token::Comma => Token::Comma,
            Token::Dot => Token::Dot,
            Token::Assign => Token::Assign,
            Token::Arrow => Token::Arrow,
            Token::Amp => Token::Amp,
            Token::Plus => Token::Plus,
            Token::Minus => Token::Minus,
            Token::Star => Token::Star,
            Token::Slash => Token::Slash,
            Token::Lt => Token::Lt,
            Token::EqEq => Token::EqEq,
            Token::AndAnd => Token::AndAnd,
            Token::OrOr => Token::OrOr,
            Token::Bang => Token::Bang,
            Token::Eof => Token::Eof,
        }
    }
}

/// Whether two tokens have the same model.
pub fn same_token(a: &Token, b: &Token) -> (r: bool)
    ensures
        r == (a@ == b@),
{
    match (a, b) {
        (Token::Ident(x), Token::Ident(y)) => *x == *y,
        (Token::Int(x), Token::Int(y)) => *x == *y,
        (Token::Str(x), Token::Str(y)) => *x == *y,
        (Token::Bool(x), Token::Bool(y)) => *x == *y,
        (Token::KwImport, Token::KwImport) => true,
        (Token::KwGlobal, Token::KwGlobal) => true,
        (Token::KwMut, Token::KwMut) => true,
        (Token::KwType, Token::KwType) => true,
        (Token::KwIf, Token::KwIf) => true,
        (Token::KwThen, Token::KwThen) => true,
        (Token::KwElse, Token::KwElse) => true,
        (Token::KwCopy, Token::KwCopy) => true,
        (Token::LBrace, Token::LBrace) => true,
        (Token::RBrace, Token::RBrace) => true,
        (Token::LParen, Token::LParen) => true,
        (Token::RParen, Token::RParen) => true,
        (Token::Colon, Token::Colon) => true,
        (Token::Comma, Token::Comma) => true,
        (Token::Dot, Token::Dot) => true,
        (Token::Assign, Token::Assign) => true,
        (Token::Arrow, Token::Arrow) => true,
        (Token::Amp, Token::Amp) => true,
        (Token::Plus, Token::Plus) => true,
        (Token::Minus, Token::Minus) => true,
        (Token::Star, Token::Star) => true,
        (Token::Slash, Token::Slash) => true,
        (Token::Lt, Token::Lt) => true,
        (Token::EqEq, Token::EqEq) => true,
        (Token::AndAnd, Token::AndAnd) => true,
        (Token::OrOr, Token::OrOr) => true,
        (Token::Bang, Token::Bang) => true,
        (Token::Eof, Token::Eof) => true,
        _ => false,
    }
}

/// The models of a list of tokens.
pub open spec fn tokens_view(ts: Seq<Token>) -> Seq<TokenV> {
    Seq::new(ts.len(), |i: int| ts[i]@)
}

// ---------------------------------------------------------------------------
// Errors
// ---------------------------------------------------------------------------
/// Model of a lexer error: the text of a number that does not fit, or a
/// message.
pub enum LexErrorV {
    InvalidNumber(Seq<char>),
    Lexer(Seq<char>),
}

// ---------------------------------------------------------------------------
// Characters
// ---------------------------------------------------------------------------
/// White space: the characters with the Unicode property `White_Space`.
pub open spec fn is_space(c: char) -> bool {
    let n = c as u32;
    (0x09 <= n <= 0x0d) || n == 0x20 || n == 0x85 || n == 0xa0 || n == 0x1680 || (0x2000 <= n
        <= 0x200a) || n == 0x2028 || n == 0x2029 || n == 0x202f || n == 0x205f || n == 0x3000
}

/// A decimal digit.
pub open spec fn is_digit(c: char) -> bool {
    '0' <= c <= '9'
}

/// What a word may start with: an ASCII letter or `_`.
pub open spec fn word_start(c: char) -> bool {
    ('a' <= c <= 'z') || ('A' <= c <= 'Z') || c == '_'
}

/// What a word may go on with: an ASCII letter, a digit or `_`.
pub open spec fn word_part(c: char) -> bool {
    word_start(c) || is_digit(c)
}

/// Whether a character is white space.
pub fn space(c: char) -> (r: bool)
    ensures
        r == is_space(c),
{
    let n = c as u32;
    (0x09 <= n && n <= 0x0d) || n == 0x20 || n == 0x85 || n == 0xa0 || n == 0x1680 || (0x2000 <= n
        && n <= 0x200a) || n == 0x2028 || n == 0x2029 || n == 0x202f || n == 0x205f || n
        == 0x3000
}

/// Whether a character is a decimal digit.
pub fn digit(c: char) -> (r: bool)
    ensures
        r == is_digit(c),
{
    '0' <= c && c <= '9'
}

/// Whether a word may start with a character.
pub fn is_ident_start(c: char) -> (r: bool)
    ensures
        r == word_start(c),
{
    ('a' <= c && c <= 'z') || ('A' <= c && c <= 'Z') || c == '_'
}

/// Whether a word may go on with a character.
pub fn is_ident_continue(c: char) -> (r: bool)
    ensures
        r == word_part(c),
{
    is_ident_start(c) || digit(c)
}

// ---------------------------------------------------------------------------
// The lexer, as mathematics
// ---------------------------------------------------------------------------
/// The end of the run of characters from `pos` on that satisfy `pred`.
pub open spec fn run_end(s: Seq<char>, pos: int, pred: spec_fn(char) -> bool) -> int
    decreases s.len() - pos,
{
    if 0 <= pos < s.len() && pred(s[pos]) {
        run_end(s, pos + 1, pred)
    } else {
        pos
    }
}

/// The position after the end of a line comment that is entered at `pos`:
/// after the next line end, or the end of the text.
pub open spec fn comment_end(s: Seq<char>, pos: int) -> int
    decreases s.len() - pos,
{
    if 0 <= pos < s.len() {
        if s[pos] == '\n' {
            pos + 1
        } else {
            comment_end(s, pos + 1)
        }
    } else {
        pos
    }
}

/// The position of the quote that closes a string entered at `pos`, or the
/// end of the text.
pub open spec fn string_end(s: Seq<char>, pos: int) -> int
    decreases s.len() - pos,
{
    if 0 <= pos < s.len() && s[pos] != '"' {
        string_end(s, pos + 1)
    } else {
        pos
    }
}

/// The number that a run of digits writes.
pub open spec fn digits_value(s: Seq<char>) -> nat
    decreases s.len(),
{
    if s.len() == 0 {
        0
    } else {
        digits_value(s.drop_last()) * 10 + (s.last() as u32 - '0' as u32) as nat
    }
}

/// The token that a word stands for: a keyword, a truth value or a name.
pub open spec fn word_token(w: Seq<char>) -> TokenV {
    if w == "import"@ {
        TokenV::KwImport
    } else if w == "global"@ {
        TokenV::KwGlobal
    } else if w == "mut"@ {
        TokenV::KwMut
    } else if w == "type"@ {
        TokenV::KwType
    } else if w == "if"@ {
        TokenV::KwIf
    } else if w == "then"@ {
        TokenV::KwThen
    } else if w == "else"@ {
        TokenV::KwElse
    } else if w == "copy"@ {
        TokenV::KwCopy
    } else if w == "true"@ {
        TokenV::Bool(true)
    } else if w == "false"@ {
        TokenV::Bool(false)
    } else {
        TokenV::Ident(w)
    }
}

/// What the lexer finds at one position.
pub enum StepV {
    /// Nothing to report: white space, a comment, or `=` before `>`.
    Skip(int),
    /// A token, and the position behind it.
    Tok(TokenV, int),
    /// An error.
    Fail(LexErrorV),
}

/// Whether the character at `pos` is `c`.
pub open spec fn at(s: Seq<char>, pos: int, c: char) -> bool {
    0 <= pos < s.len() && s[pos] == c
}

/// The message for a character that starts no token.
pub open spec fn unexpected_char(c: char) -> Seq<char> {
    "unexpected char '"@.push(c).push('\'')
}

/// One step of the lexer at `pos`, which is inside the text.
pub open spec fn lex_step(s: Seq<char>, pos: int) -> StepV
    recommends
        0 <= pos < s.len(),
{
    let c = s[pos];
    if is_space(c) {
        StepV::Skip(pos + 1)
    } else if c == '/' {
        if at(s, pos + 1, '/') {
            StepV::Skip(comment_end(s, pos + 1))
        } else {
            StepV::Tok(TokenV::Slash, pos + 1)
        }
    } else if c == '{' {
        StepV::Tok(TokenV::LBrace, pos + 1)
    } else if c == '}' {
        StepV::Tok(TokenV::RBrace, pos + 1)
    } else if c == '(' {
        StepV::Tok(TokenV::LParen, pos + 1)
    } else if c == ')' {
        StepV::Tok(TokenV::RParen, pos + 1)
    } else if c == ':' {
        StepV::Tok(TokenV::Colon, pos + 1)
    } else if c == ',' {
        StepV::Tok(TokenV::Comma, pos + 1)
    } else if c == '.' {
        StepV::Tok(TokenV::Dot, pos + 1)
    } else if c == '+' {
        StepV::Tok(TokenV::Plus, pos + 1)
    } else if c == '*' {
        StepV::Tok(TokenV::Star, pos + 1)
    } else if c == '<' {
        StepV::Tok(TokenV::Lt, pos + 1)
    } else if c == '!' {
        StepV::Tok(TokenV::Bang, pos + 1)
    } else if c == '=' {
        if at(s, pos + 1, '=') {
            StepV::Tok(TokenV::EqEq, pos + 2)
        } else if at(s, pos + 1, '>') {
            StepV::Skip(pos + 1)
        } else {
            StepV::Tok(TokenV::Assign, pos + 1)
        }
    } else if c == '-' {
        if at(s, pos + 1, '>') {
            StepV::Tok(TokenV::Arrow, pos + 2)
        } else {
            StepV::Tok(TokenV::Minus, pos + 1)
        }
    } else if c == '|' {
        if at(s, pos + 1, '|') {
            StepV::Tok(TokenV::OrOr, pos + 2)
        } else {
            StepV::Fail(LexErrorV::Lexer("unexpected '|'"@))
        }
    } else if c == '&' {
        if at(s, pos + 1, '&') {
            StepV::Tok(TokenV::AndAnd, pos + 2)
        } else {
            StepV::Tok(TokenV::Amp, pos + 1)
        }
    } else if c == '"' {
        let end = string_end(s, pos + 1);
        StepV::Tok(
            TokenV::Str(s.subrange(pos + 1, end)),
            if end < s.len() {
                end + 1
            } else {
                end
            },
        )
    } else if is_digit(c) {
        let end = run_end(s, pos, |c: char| is_digit(c));
        let text = s.subrange(pos, end);
        if digits_value(text) <= i64::MAX {
            StepV::Tok(TokenV::Int(digits_value(text) as i64), end)
        } else {
            StepV::Fail(LexErrorV::InvalidNumber(text))
        }
    } else if word_start(c) {
        let end = run_end(s, pos + 1, |c: char| word_part(c));
        StepV::Tok(word_token(s.subrange(pos, end)), end)
    } else {
        StepV::Fail(LexErrorV::Lexer(unexpected_char(c)))
    }
}

/// The steps of the lexer never go back, and stay inside the text.
pub proof fn lemma_scans_advance(s: Seq<char>, pos: int, pred: spec_fn(char) -> bool)
    requires
        0 <= pos <= s.len(),
    ensures
        pos <= run_end(s, pos, pred) <= s.len(),
        pos <= string_end(s, pos) <= s.len(),
        pos <= comment_end(s, pos) <= s.len(),
        pos < s.len() ==> pos < comment_end(s, pos),
    decreases s.len() - pos,
{
    if pos < s.len() {
        lemma_scans_advance(s, pos + 1, pred);
    }
}

/// Every step of the lexer moves forward.
pub proof fn lemma_step_advances(s: Seq<char>, pos: int)
    requires
        0 <= pos < s.len(),
    ensures
        match lex_step(s, pos) {
            StepV::Skip(next) => pos < next <= s.len(),
            StepV::Tok(_, next) => pos < next <= s.len(),
            StepV::Fail(_) => true,
        },
{
    lemma_scans_advance(s, pos + 1, |c: char| word_part(c));
    lemma_scans_advance(s, pos + 1, |c: char| is_digit(c));
    if pos + 1 < s.len() {
        lemma_scans_advance(s, pos + 2, |c: char| is_digit(c));
    }
}

/// The tokens of the text from `pos` on, after `acc`, with `Eof` at the end.
pub open spec fn lex_from(s: Seq<char>, pos: int, acc: Seq<TokenV>) -> Result<
    Seq<TokenV>,
    LexErrorV,
>
    decreases s.len() - pos,
    via lex_from_decreases
{
    if pos < 0 || pos >= s.len() {
        Ok(acc.push(TokenV::Eof))
    } else {
        match lex_step(s, pos) {
            StepV::Fail(e) => Err(e),
            StepV::Skip(next) => lex_from(s, next, acc),
            StepV::Tok(t, next) => lex_from(s, next, acc.push(t)),
        }
    }
}

#[via_fn]
proof fn lex_from_decreases(s: Seq<char>, pos: int, acc: Seq<TokenV>) {
    if 0 <= pos < s.len() {
        lemma_step_advances(s, pos);
    }
}

/// The tokens of a text.
///
/// White space and line comments (`//` to the end of the line) separate
/// tokens. A string runs from one double quote to the next, or to the end
/// of the text, and has no escapes. A number is a run of decimal digits that
/// fits a signed 64-bit integer. A word starts with an ASCII letter or `_`
/// and goes on with ASCII letters, digits and `_`. The last token is `Eof`.
pub open spec fn lex_spec(s: Seq<char>) -> Result<Seq<TokenV>, LexErrorV> {
    lex_from(s, 0, Seq::empty())
}

// ---------------------------------------------------------------------------
// The lexer
// ---------------------------------------------------------------------------
/// What went wrong in the lexer.
pub enum LexError {
    InvalidNumber(String),
    Lexer(String),
}

impl View for LexError {
    type V = LexErrorV;

    open spec fn view(&self) -> LexErrorV {
        match self {
            LexError::InvalidNumber(s) => LexErrorV::InvalidNumber(s@),
            LexError::Lexer(s) => LexErrorV::Lexer(s@),
        }
    }
}

/// The model of the result of the lexer.
pub open spec fn lex_result(r: Result<Vec<Token>, LexError>) -> Result<Seq<TokenV>, LexErrorV> {
    match r {
        Ok(ts) => Ok(tokens_view(ts@)),
        Err(e) => Err(e@),
    }
}

/// The word token for `w`.
fn word(w: String) -> (t: Token)
    ensures
        t@ == word_token(w@),
{
    let s = w.as_str();
    if str_eq(s, "import") {
        Token::KwImport
    } else if str_eq(s, "global") {
        Token::KwGlobal
    } else if str_eq(s, "mut") {
        Token::KwMut
    } else if str_eq(s, "type") {
        Token::KwType
    } else if str_eq(s, "if") {
        Token::KwIf
    } else if str_eq(s, "then") {
        Token::KwThen
    } else if str_eq(s, "else") {
        Token::KwElse
    } else if str_eq(s, "copy") {
        Token::KwCopy
    } else if str_eq(s, "true") {
        Token::Bool(true)
    } else if str_eq(s, "false") {
        Token::Bool(false)
    } else {
        Token::Ident(w)
    }
}

/// The characters of `s` from `from` to the end of the run that satisfies
/// the class `class`: 0 for digits, 1 for the characters of a word, 2 for
/// the inside of a string.
#[verifier::loop_isolation(false)]
#[verifier::rlimit(40)]
fn take_run(s: &Vec<char>, from: usize, class: u8) -> (r: (String, usize))
    requires
        from <= s.len(),
        class <= 2,
    ensures
        from <= r.1 <= s.len(),
        r.0@ == s@.subrange(from as int, r.1 as int),
        class == 0 ==> r.1 == run_end(s@, from as int, |c: char| is_digit(c)),
        class == 1 ==> r.1 == run_end(s@, from as int, |c: char| word_part(c)),
        class == 2 ==> r.1 == string_end(s@, from as int),
{
    let mut out = String::new();
    let mut i: usize = from;
    loop
        invariant
            from <= i <= s.len(),
            out@ == s@.subrange(from as int, i as int),
            class == 0 ==> run_end(s@, from as int, |c: char| is_digit(c)) == run_end(
                s@,
                i as int,
                |c: char| is_digit(c),
            ),
            class == 1 ==> run_end(s@, from as int, |c: char| word_part(c)) == run_end(
                s@,
                i as int,
                |c: char| word_part(c),
            ),
            class == 2 ==> string_end(s@, from as int) == string_end(s@, i as int),
        decreases s.len() - i,
    {
        if i >= s.len() {
            break ;
        }
        let c = s[i];
        let inside = if class == 0 {
            digit(c)
        } else if class == 1 {
            is_ident_continue(c)
        } else {
            c != '"'
        };
        if !inside {
            break ;
        }
        proof {
            assert(s@.subrange(from as int, i + 1) =~= s@.subrange(from as int, i as int).push(c));
        }
        out.push(c);
        i += 1;
    }
    proof {
        assert(out@ =~= s@.subrange(from as int, i as int));
    }
    (out, i)
}

/// The number that a run of digits writes, where it fits.
#[verifier::loop_isolation(false)]
#[verifier::rlimit(40)]
fn number(text: &str) -> (r: Option<i64>)
    requires
        forall|i: int| 0 <= i < text@.len() ==> is_digit(#[trigger] text@[i]),
    ensures
        r == (if digits_value(text@) <= i64::MAX {
            Some(digits_value(text@) as i64)
        } else {
            None
        }),
{
    let cs = chars_of(text);
    let mut val: i64 = 0;
    let mut i: usize = 0;
    proof {
        assert(cs@.take(0) =~= Seq::<char>::empty());
    }
    while i < cs.len()
        invariant
            i <= cs.len(),
            cs@ == text@,
            0 <= val,
            val == digits_value(cs@.take(i as int)),
        decreases cs.len() - i,
    {
        let d = (cs[i] as u32 - '0' as u32) as i64;
        proof {
            assert(cs@.take(i + 1).drop_last() =~= cs@.take(i as int));
            assert(cs@.take(i + 1).last() == cs@[i as int]);
            lemma_digits_value_grows(cs@, i + 1);
        }
        let next = match val.checked_mul(10) {
            Some(v) => v.checked_add(d),
            None => None,
        };
        match next {
            Some(v) => {
                val = v;
            },
            None => {
                return None;
            },
        }
        i += 1;
    }
    proof {
        assert(cs@.take(cs.len() as int) =~= cs@);
    }
    Some(val)
}

/// A longer prefix of a run of digits writes no smaller number.
pub proof fn lemma_digits_value_grows(s: Seq<char>, n: int)
    requires
        0 <= n <= s.len(),
    ensures
        digits_value(s.take(n)) <= digits_value(s),
    decreases s.len() - n,
{
    if n < s.len() {
        assert(s.take(n + 1).drop_last() =~= s.take(n));
        lemma_digits_value_grows(s, n + 1);
    } else {
        assert(s.take(n) =~= s);
    }
}

/// The lexer: the tokens of a text, with `Eof` at the end.
#[verifier::loop_isolation(false)]
#[verifier::rlimit(40)]
pub fn lex(src: &str) -> (r: Result<Vec<Token>, LexError>)
    ensures
        lex_result(r) == lex_spec(src@),
{
    let s = chars_of(src);
    let mut tokens: Vec<Token> = Vec::new();
    let mut pos: usize = 0;
    proof {
        assert(tokens_view(tokens@) =~= Seq::<TokenV>::empty());
    }
    while pos < s.len()
        invariant
            pos <= s.len(),
            s@ == src@,
            lex_spec(src@) == lex_from(s@, pos as int, tokens_view(tokens@)),
        decreases s.len() - pos,
    {
        let c = s[pos];
        let ghost before = tokens_view(tokens@);
        proof {
            lemma_step_advances(s@, pos as int);
        }
        let mut tok: Option<Token> = None;
        let mut next: usize = pos + 1;
        if space(c) {
        } else if c == '/' {
            if pos + 1 < s.len() && s[pos + 1] == '/' {
                let mut i: usize = pos + 1;
                loop
                    invariant
                        pos + 1 <= i <= s.len(),
                        comment_end(s@, pos + 1) == comment_end(s@, i as int),
                    decreases s.len() - i,
                {
                    if i >= s.len() {
                        break ;
                    }
                    let c2 = s[i];
                    i += 1;
                    if c2 == '\n' {
                        break ;
                    }
                }
                next = i;
            } else {
                tok = Some(Token::Slash);
            }
        } else if c == '{' {
            tok = Some(Token::LBrace);
        } else if c == '}' {
            tok = Some(Token::RBrace);
        } else if c == '(' {
            tok = Some(Token::LParen);
        } else if c == ')' {
            tok = Some(Token::RParen);
        } else if c == ':' {
            tok = Some(Token::Colon);
        } else if c == ',' {
            tok = Some(Token::Comma);
        } else if c == '.' {
            tok = Some(Token::Dot);
        } else if c == '+' {
            tok = Some(Token::Plus);
        } else if c == '*' {
            tok = Some(Token::Star);
        } else if c == '<' {
            tok = Some(Token::Lt);
        } else if c == '!' {
            tok = Some(Token::Bang);
        } else if c == '=' {
            if pos + 1 < s.len() && s[pos + 1] == '=' {
                tok = Some(Token::EqEq);
                next = pos + 2;
            } else if pos + 1 < s.len() && s[pos + 1] == '>' {
            } else {
                tok = Some(Token::Assign);
            }
        } else if c == '-' {
            if pos + 1 < s.len() && s[pos + 1] == '>' {
                tok = Some(Token::Arrow);
                next = pos + 2;
            } else {
                tok = Some(Token::Minus);
            }
        } else if c == '|' {
            if pos + 1 < s.len() && s[pos + 1] == '|' {
                tok = Some(Token::OrOr);
                next = pos + 2;
            } else {
                return Err(LexError::Lexer(String::from_str("unexpected '|'")));
            }
        } else if c == '&' {
            if pos + 1 < s.len() && s[pos + 1] == '&' {
                tok = Some(Token::AndAnd);
                next = pos + 2;
            } else {
                tok = Some(Token::Amp);
            }
        } else if c == '"' {
            let (text, end) = take_run(&s, pos + 1, 2);
            tok = Some(Token::Str(text));
            next = if end < s.len() {
                end + 1
            } else {
                end
            };
        } else if digit(c) {
            let (text, end) = take_run(&s, pos, 0);
            proof {
                lemma_run_holds(s@, pos as int, |c: char| is_digit(c));
            }
            match number(text.as_str()) {
                Some(v) => {
                    tok = Some(Token::Int(v));
                    next = end;
                },
                None => {
                    return Err(LexError::InvalidNumber(text));
                },
            }
        } else if is_ident_start(c) {
            let (rest, end) = take_run(&s, pos + 1, 1);
            let mut text = String::new();
            text.push(c);
            text.append(rest.as_str());
            proof {
                assert(text@ =~= s@.subrange(pos as int, end as int));
            }
            tok = Some(word(text));
            next = end;
        } else {
            let mut msg = String::from_str("unexpected char '");
            msg.push(c);
            msg.push('\'');
            return Err(LexError::Lexer(msg));
        }
        match tok {
            Some(t) => {
                proof {
                    assert(tokens_view(tokens@.push(t)) =~= before.push(t@));
                }
                tokens.push(t);
            },
            None => {},
        }
        pos = next;
    }
    proof {
        assert(tokens_view(tokens@.push(Token::Eof)) =~= tokens_view(tokens@).push(TokenV::Eof));
    }
    tokens.push(Token::Eof);
    Ok(tokens)
}

/// Every character of a run satisfies the class of the run.
pub proof fn lemma_run_holds(s: Seq<char>, pos: int, pred: spec_fn(char) -> bool)
    requires
        0 <= pos <= s.len(),
    ensures
        forall|i: int| pos <= i < run_end(s, pos, pred) ==> pred(#[trigger] s[i]),
        forall|i: int|
            0 <= i < run_end(s, pos, pred) - pos ==> pred(
                #[trigger] s.subrange(pos, run_end(s, pos, pred))[i],
            ),
    decreases s.len() - pos,
{
    lemma_scans_advance(s, pos, pred);
    if pos < s.len() && pred(s[pos]) {
        lemma_run_holds(s, pos + 1, pred);
        lemma_scans_advance(s, pos + 1, pred);
    }
}

} // verus!
