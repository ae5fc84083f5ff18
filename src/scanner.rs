//! The lexer: turns source text into tokens, one per call, on demand.
use peekmore::{PeekMore, PeekMoreIterator};
use std::vec::IntoIter;
use vstd::prelude::*;
use vstd::string::StrSliceExecFns;

verus! {

#[derive(Debug, Ord, PartialOrd, Eq, PartialEq, Copy, Clone, Structural)]
pub enum TokenType {
    // Single-character tokens.
    LeftParen,
    RightParen,
    LeftBrace,
    RightBrace,
    Comma,
    Dot,
    Minus,
    Plus,
    Semicolon,
    Slash,
    Star,
    // One or two character tokens.
    Bang,
    BangEqual,
    Equal,
    EqualEqual,
    Greater,
    GreaterEqual,
    Less,
    LessEqual,
    // Literals.
    Identifier,
    String,
    Number,
    // Keywords.
    And,
    Class,
    Else,
    False,
    For,
    Fn,
    If,
    Let,
    Nil,
    Or,
    Print,
    Return,
    Super,
    This,
    True,
    While,
    // Misc.
    Error,
    Eof,
}

/// A token: its kind and the source text it was scanned from (for an error
/// token, a message instead).
#[derive(Debug, Copy, Clone, Ord, PartialOrd, Eq, PartialEq)]
pub struct Token<'text> {
    pub token_type: TokenType,
    pub text: &'text str,
}

// ---------------------------------------------------------------------------
// The lexical rules, over the characters of the source.
// ---------------------------------------------------------------------------

/// Whether a character outside ASCII has Unicode's `Alphabetic` property.
pub uninterp spec fn alphabetic(c: char) -> bool;

/// What the unconsumed part of a character stream will still yield.
pub uninterp spec fn pending_chars(it: PeekMoreIterator<IntoIter<char>>) -> Seq<char>;

pub open spec fn is_ascii_letter(c: char) -> bool {
    ('a' <= c && c <= 'z') || ('A' <= c && c <= 'Z')
}

/// Characters that may start an identifier.
pub open spec fn is_letter(c: char) -> bool {
    is_ascii_letter(c) || (c as u32 >= 128 && alphabetic(c))
}

pub open spec fn is_digit(c: char) -> bool {
    '0' <= c && c <= '9'
}

pub open spec fn is_whitespace(c: char) -> bool {
    c == ' ' || c == '\r' || c == '\t' || c == '\n'
}

/// The first position at or after `i` that is neither whitespace nor inside a
/// line comment; `comment` says whether `i` lies inside one.
pub open spec fn skip_trivia(s: Seq<char>, i: int, comment: bool) -> int
    decreases s.len() - i,
{
    if i < 0 || i >= s.len() {
        i
    } else if comment {
        skip_trivia(s, i + 1, s[i] != '\n')
    } else if is_whitespace(s[i]) {
        skip_trivia(s, i + 1, false)
    } else if s[i] == '/' && i + 1 < s.len() && s[i + 1] == '/' {
        skip_trivia(s, i + 2, true)
    } else {
        i
    }
}

/// The end of the run of letters and digits that starts at `i`.
pub open spec fn word_end(s: Seq<char>, i: int) -> int
    decreases s.len() - i,
{
    if 0 <= i < s.len() && (is_letter(s[i]) || is_digit(s[i])) {
        word_end(s, i + 1)
    } else {
        i
    }
}

/// The end of the run of digits that starts at `i`.
pub open spec fn digits_end(s: Seq<char>, i: int) -> int
    decreases s.len() - i,
{
    if 0 <= i < s.len() && is_digit(s[i]) {
        digits_end(s, i + 1)
    } else {
        i
    }
}

/// The end of a number whose first digit ends at `i`: more digits, then a
/// `.` only where a digit follows it, then more digits.
pub open spec fn number_end(s: Seq<char>, i: int) -> int {
    let d = digits_end(s, i);
    if d + 1 < s.len() && s[d] == '.' && is_digit(s[d + 1]) {
        digits_end(s, d + 1)
    } else {
        d
    }
}

/// The first position at or after `i` that holds `"`, or the end of the text.
pub open spec fn quote_at_or_after(s: Seq<char>, i: int) -> int
    decreases s.len() - i,
{
    if 0 <= i < s.len() && s[i] != '"' {
        quote_at_or_after(s, i + 1)
    } else {
        i
    }
}

/// The kind of a scanned word: one of the reserved words, or an identifier.
pub open spec fn keyword_kind(w: Seq<char>) -> TokenType {
    if w == "and"@ {
        TokenType::And
    } else if w == "class"@ {
        TokenType::Class
    } else if w == "else"@ {
        TokenType::Else
    } else if w == "false"@ {
        TokenType::False
    } else if w == "for"@ {
        TokenType::For
    } else if w == "fn"@ {
        TokenType::Fn
    } else if w == "if"@ {
        TokenType::If
    } else if w == "let"@ {
        TokenType::Let
    } else if w == "nil"@ {
        TokenType::Nil
    } else if w == "or"@ {
        TokenType::Or
    } else if w == "print"@ {
        TokenType::Print
    } else if w == "return"@ {
        TokenType::Return
    } else if w == "super"@ {
        TokenType::Super
    } else if w == "this"@ {
        TokenType::This
    } else if w == "true"@ {
        TokenType::True
    } else if w == "while"@ {
        TokenType::While
    } else {
        TokenType::Identifier
    }
}

/// The kind of a one-character punctuation token.
pub open spec fn single_kind(c: char) -> Option<TokenType> {
    if c == '(' {
        Some(TokenType::LeftParen)
    } else if c == ')' {
        Some(TokenType::RightParen)
    } else if c == '{' {
        Some(TokenType::LeftBrace)
    } else if c == '}' {
        Some(TokenType::RightBrace)
    } else if c == ';' {
        Some(TokenType::Semicolon)
    } else if c == ',' {
        Some(TokenType::Comma)
    } else if c == '.' {
        Some(TokenType::Dot)
    } else if c == '-' {
        Some(TokenType::Minus)
    } else if c == '+' {
        Some(TokenType::Plus)
    } else if c == '/' {
        Some(TokenType::Slash)
    } else if c == '*' {
        Some(TokenType::Star)
    } else {
        None
    }
}

/// Characters that fuse with a following `=`.
pub open spec fn fuses_with_equal(c: char) -> bool {
    c == '!' || c == '=' || c == '<' || c == '>'
}

/// The kind of `c` alone (`fused` false) or of `c` followed by `=`.
pub open spec fn comparison_kind(c: char, fused: bool) -> TokenType {
    if c == '!' {
        if fused { TokenType::BangEqual } else { TokenType::Bang }
    } else if c == '=' {
        if fused { TokenType::EqualEqual } else { TokenType::Equal }
    } else if c == '<' {
        if fused { TokenType::LessEqual } else { TokenType::Less }
    } else {
        if fused { TokenType::GreaterEqual } else { TokenType::Greater }
    }
}

pub open spec fn unterminated_message() -> Seq<char> {
    "Unterminated string"@
}

pub open spec fn unexpected_message() -> Seq<char> {
    "Unexpected character"@
}

/// The token that a scan from position `pos` of `s` returns: its kind, its
/// text, and the position after it.
pub open spec fn scan_at(s: Seq<char>, pos: int) -> (TokenType, Seq<char>, int) {
    let start = skip_trivia(s, pos, false);
    if start >= s.len() {
        (TokenType::Eof, Seq::empty(), start)
    } else {
        let c = s[start];
        if is_letter(c) {
            let e = word_end(s, start + 1);
            (keyword_kind(s.subrange(start, e)), s.subrange(start, e), e)
        } else if is_digit(c) {
            let e = number_end(s, start + 1);
            (TokenType::Number, s.subrange(start, e), e)
        } else if c == '"' {
            let q = quote_at_or_after(s, start + 1);
            if q < s.len() {
                (TokenType::String, s.subrange(start, q + 1), q + 1)
            } else {
                (TokenType::Error, unterminated_message(), q)
            }
        } else if fuses_with_equal(c) {
            if start + 1 < s.len() && s[start + 1] == '=' {
                (comparison_kind(c, true), s.subrange(start, start + 2), start + 2)
            } else {
                (comparison_kind(c, false), s.subrange(start, start + 1), start + 1)
            }
        } else {
            match single_kind(c) {
                Some(k) => (k, s.subrange(start, start + 1), start + 1),
                None => (TokenType::Error, unexpected_message(), start + 1),
            }
        }
    }
}

// ---------------------------------------------------------------------------
// Facts about the rules.
// ---------------------------------------------------------------------------

pub proof fn lemma_skip_trivia_bounds(s: Seq<char>, i: int, comment: bool)
    requires
        0 <= i <= s.len(),
    ensures
        i <= skip_trivia(s, i, comment) <= s.len(),
    decreases s.len() - i,
{
    if i < s.len() {
        if comment {
            lemma_skip_trivia_bounds(s, i + 1, s[i] != '\n');
        } else if is_whitespace(s[i]) {
            lemma_skip_trivia_bounds(s, i + 1, false);
        } else if s[i] == '/' && i + 1 < s.len() && s[i + 1] == '/' {
            lemma_skip_trivia_bounds(s, i + 2, true);
        }
    }
}

pub proof fn lemma_word_end_bounds(s: Seq<char>, i: int)
    requires
        0 <= i <= s.len(),
    ensures
        i <= word_end(s, i) <= s.len(),
    decreases s.len() - i,
{
    if i < s.len() && (is_letter(s[i]) || is_digit(s[i])) {
        lemma_word_end_bounds(s, i + 1);
    }
}

pub proof fn lemma_digits_end_bounds(s: Seq<char>, i: int)
    requires
        0 <= i <= s.len(),
    ensures
        i <= digits_end(s, i) <= s.len(),
    decreases s.len() - i,
{
    if i < s.len() && is_digit(s[i]) {
        lemma_digits_end_bounds(s, i + 1);
    }
}

pub proof fn lemma_quote_bounds(s: Seq<char>, i: int)
    requires
        0 <= i <= s.len(),
    ensures
        i <= quote_at_or_after(s, i) <= s.len(),
        quote_at_or_after(s, i) < s.len() ==> s[quote_at_or_after(s, i)] == '"',
    decreases s.len() - i,
{
    if i < s.len() && s[i] != '"' {
        lemma_quote_bounds(s, i + 1);
    }
}

/// A scan never moves backwards nor past the end, and every token but `Eof`
/// consumes at least one character.
pub proof fn lemma_scan_progress(s: Seq<char>, pos: int)
    requires
        0 <= pos <= s.len(),
    ensures
        pos <= scan_at(s, pos).2 <= s.len(),
        scan_at(s, pos).0 != TokenType::Eof ==> pos < scan_at(s, pos).2,
        scan_at(s, pos).0 == TokenType::Eof ==> scan_at(s, pos).2 == s.len(),
{
    lemma_skip_trivia_bounds(s, pos, false);
    let start = skip_trivia(s, pos, false);
    if start < s.len() {
        lemma_word_end_bounds(s, start + 1);
        lemma_digits_end_bounds(s, start + 1);
        let d = digits_end(s, start + 1);
        if d + 1 < s.len() {
            lemma_digits_end_bounds(s, d + 1);
        }
        lemma_quote_bounds(s, start + 1);
        assert(keyword_kind(s.subrange(start, word_end(s, start + 1))) != TokenType::Eof);
    }
}

/// Once the input is exhausted, every further scan returns `Eof` again and
/// consumes nothing.
pub proof fn lemma_eof_is_sticky(s: Seq<char>, pos: int)
    requires
        0 <= pos <= s.len(),
        scan_at(s, pos).0 == TokenType::Eof,
    ensures
        scan_at(s, scan_at(s, pos).2) == scan_at(s, pos),
{
    lemma_scan_progress(s, pos);
}

// ---------------------------------------------------------------------------
// Trusted access to `char` and to `peekmore`.
// ---------------------------------------------------------------------------

/// Relies on `char::is_alphabetic`, which decides Unicode's `Alphabetic`
/// property.
#[verifier::external_body]
fn non_ascii_alphabetic(c: char) -> (r: bool)
    requires
        c as u32 >= 128,
    ensures
        r == alphabetic(c),
{
    c.is_alphabetic()
}

#[verifier::external_type_specification]
#[verifier::external_body]
#[verifier::reject_recursive_types(I)]
pub struct ExPeekMoreIterator<I: Iterator>(PeekMoreIterator<I>);

/// Relies on `PeekMore::peekmore` over the text's `chars`: the stream yields
/// the text's characters in order.
#[verifier::external_body]
fn char_stream(text: &str) -> (r: PeekMoreIterator<IntoIter<char>>)
    ensures
        pending_chars(r) == text@,
{
    text.chars().collect::<Vec<char>>().into_iter().peekmore()
}

/// Relies on `PeekMoreIterator::next`: it hands out the first pending
/// character and drops it from what is pending.
#[verifier::external_body]
fn next_char(it: &mut PeekMoreIterator<IntoIter<char>>) -> (r: Option<char>)
    ensures
        pending_chars(*old(it)).len() > 0 ==> r == Some(pending_chars(*old(it))[0])
            && pending_chars(*final(it)) == pending_chars(*old(it)).drop_first(),
        pending_chars(*old(it)).len() == 0 ==> r is None && pending_chars(*final(it))
            == pending_chars(*old(it)),
{
    it.next()
}

/// Relies on `PeekMoreIterator::peek_nth`: it shows the pending character
/// `n` places ahead and consumes nothing.
#[verifier::external_body]
fn peek_nth_char(it: &mut PeekMoreIterator<IntoIter<char>>, n: usize) -> (r: Option<char>)
    ensures
        pending_chars(*final(it)) == pending_chars(*old(it)),
        r == (if n < pending_chars(*old(it)).len() {
            Some(pending_chars(*old(it))[n as int])
        } else {
            None
        }),
{
    it.peek_nth(n).copied()
}

// ---------------------------------------------------------------------------
// The scanner.
// ---------------------------------------------------------------------------

pub struct Scanner<'text> {
    text: &'text str,
    iter: PeekMoreIterator<IntoIter<char>>,
    current: usize,
    len: usize,
}

fn letter(c: char) -> (r: bool)
    ensures
        r == is_letter(c),
{
    if ('a' <= c && c <= 'z') || ('A' <= c && c <= 'Z') {
        true
    } else if (c as u32) < 128 {
        false
    } else {
        non_ascii_alphabetic(c)
    }
}

fn digit(c: char) -> (r: bool)
    ensures
        r == is_digit(c),
{
    '0' <= c && c <= '9'
}

fn peeked_is(p: Option<char>, c: char) -> (r: bool)
    ensures
        r == (p == Some(c)),
{
    match p {
        Some(x) => x == c,
        None => false,
    }
}

impl<'text> Scanner<'text> {
    /// The source text being scanned.
    pub closed spec fn source(&self) -> Seq<char> {
        self.text@
    }

    /// The number of characters consumed so far.
    pub closed spec fn position(&self) -> int {
        self.current as int
    }

    pub closed spec fn wf(&self) -> bool {
        &&& self.len as int == self.text@.len()
        &&& self.current <= self.len
        &&& pending_chars(self.iter) == self.text@.skip(self.current as int)
    }

    pub fn new(text: &'text str) -> (r: Self)
        ensures
            r.wf(),
            r.source() == text@,
            r.position() == 0,
    {
        let iter = char_stream(text);
        let len = text.unicode_len();
        let r = Self { text, iter, current: 0, len };
        assert(text@.skip(0) == text@);
        r
    }

    /// Skips whitespace and comments, then consumes and returns one token.
    /// At the end of the input it returns `Eof`, again on every call.
    pub fn scan(&mut self) -> (r: Token<'text>)
        requires
            old(self).wf(),
        ensures
            final(self).wf(),
            final(self).source() == old(self).source(),
            final(self).position() <= final(self).source().len(),
            (r.token_type, r.text@, final(self).position()) == scan_at(
                old(self).source(),
                old(self).position(),
            ),
    {
        self.skip_whitespace();
        let start = self.current;
        let c = match self.advance() {
            Some(c) => c,
            None => return self.make_token(TokenType::Eof, start),
        };
        if letter(c) {
            return self.identifier(start);
        } else if digit(c) {
            return self.number(start);
        }
        if c == '"' {
            return self.string(start);
        }
        if c == '!' || c == '=' || c == '<' || c == '>' {
            let fused = self.match_char('=');
            let token_type = if c == '!' {
                if fused { TokenType::BangEqual } else { TokenType::Bang }
            } else if c == '=' {
                if fused { TokenType::EqualEqual } else { TokenType::Equal }
            } else if c == '<' {
                if fused { TokenType::LessEqual } else { TokenType::Less }
            } else {
                if fused { TokenType::GreaterEqual } else { TokenType::Greater }
            };
            return self.make_token(token_type, start);
        }
        let token_type = if c == '(' {
            TokenType::LeftParen
        } else if c == ')' {
            TokenType::RightParen
        } else if c == '{' {
            TokenType::LeftBrace
        } else if c == '}' {
            TokenType::RightBrace
        } else if c == ';' {
            TokenType::Semicolon
        } else if c == ',' {
            TokenType::Comma
        } else if c == '.' {
            TokenType::Dot
        } else if c == '-' {
            TokenType::Minus
        } else if c == '+' {
            TokenType::Plus
        } else if c == '/' {
            TokenType::Slash
        } else if c == '*' {
            TokenType::Star
        } else {
            return Self::error_token("Unexpected character");
        };
        self.make_token(token_type, start)
    }

    /// Consumes one character; `None` at the end of the input.
    fn advance(&mut self) -> (r: Option<char>)
        requires
            old(self).wf(),
        ensures
            final(self).wf(),
            final(self).text@ == old(self).text@,
            old(self).current < old(self).len ==> r == Some(old(self).text@[old(self).current as int])
                && final(self).current == old(self).current + 1,
            old(self).current == old(self).len ==> r is None && final(self).current
                == old(self).current,
    {
        let r = next_char(&mut self.iter);
        if r.is_some() {
            self.current = self.current + 1;
        }
        if r.is_some() {
            assert(self.text@.skip(old(self).current as int).drop_first() =~= self.text@.skip(
                old(self).current + 1,
            ));
        }
        r
    }

    /// The next unconsumed character.
    fn peek(&mut self) -> (r: Option<char>)
        requires
            old(self).wf(),
        ensures
            final(self).wf(),
            final(self).text@ == old(self).text@,
            final(self).current == old(self).current,
            r == (if old(self).current < old(self).len {
                Some(old(self).text@[old(self).current as int])
            } else {
                None
            }),
    {
        peek_nth_char(&mut self.iter, 0)
    }

    /// The character after the next unconsumed one.
    fn peek_next(&mut self) -> (r: Option<char>)
        requires
            old(self).wf(),
        ensures
            final(self).wf(),
            final(self).text@ == old(self).text@,
            final(self).current == old(self).current,
            r == (if old(self).current + 1 < old(self).len {
                Some(old(self).text@[old(self).current + 1])
            } else {
                None
            }),
    {
        peek_nth_char(&mut self.iter, 1)
    }

    /// Consumes the next character where it is `c`, and says whether it did.
    fn match_char(&mut self, c: char) -> (r: bool)
        requires
            old(self).wf(),
        ensures
            final(self).wf(),
            final(self).text@ == old(self).text@,
            r == (old(self).current < old(self).len && old(self).text@[old(self).current as int]
                == c),
            final(self).current == old(self).current + if r {
                1int
            } else {
                0int
            },
    {
        let p = self.peek();
        if peeked_is(p, c) {
            self.advance();
            true
        } else {
            false
        }
    }

    /// Skips whitespace and line comments.
    fn skip_whitespace(&mut self)
        requires
            old(self).wf(),
        ensures
            final(self).wf(),
            final(self).text@ == old(self).text@,
            final(self).current == skip_trivia(old(self).text@, old(self).current as int, false),
    {
        let ghost s = self.text@;
        let mut comment = false;
        loop
            invariant
                self.wf(),
                self.text@ == s,
                s == old(self).text@,
                skip_trivia(s, self.current as int, comment) == skip_trivia(
                    s,
                    old(self).current as int,
                    false,
                ),
            decreases self.len - self.current,
        {
            let next = match self.peek() {
                Some(c) => c,
                None => return ,
            };
            if comment {
                self.advance();
                comment = next != '\n';
            } else if next == ' ' || next == '\r' || next == '\t' || next == '\n' {
                self.advance();
            } else if next == '/' && peeked_is(self.peek_next(), '/') {
                self.advance();
                self.advance();
                comment = true;
            } else {
                return ;
            }
        }
    }

    /// Consumes the rest of a keyword or an identifier.
    fn identifier(&mut self, start: usize) -> (r: Token<'text>)
        requires
            old(self).wf(),
            start < old(self).current,
            old(self).current == start + 1,
            is_letter(old(self).text@[start as int]),
        ensures
            final(self).wf(),
            final(self).text@ == old(self).text@,
            final(self).current == word_end(old(self).text@, start + 1),
            r.token_type == keyword_kind(old(self).text@.subrange(start as int, final(self).current as int)),
            r.text@ == old(self).text@.subrange(start as int, final(self).current as int),
    {
        let ghost s = self.text@;
        loop
            invariant
                self.wf(),
                self.text@ == s,
                s == old(self).text@,
                start < self.current,
                word_end(s, self.current as int) == word_end(s, start + 1),
            decreases self.len - self.current,
        {
            let more = match self.peek() {
                Some(c) => letter(c) || digit(c),
                None => false,
            };
            if !more {
                let text = self.text.substring_char(start, self.current);
                let token_type = keyword_type(text);
                return Token { token_type, text };
            }
            self.advance();
        }
    }

    /// Consumes the rest of a number: digits, then a `.` only where a digit
    /// follows it, then digits.
    fn number(&mut self, start: usize) -> (r: Token<'text>)
        requires
            old(self).wf(),
            old(self).current == start + 1,
        ensures
            final(self).wf(),
            final(self).text@ == old(self).text@,
            final(self).current == number_end(old(self).text@, start + 1),
            r.token_type == TokenType::Number,
            r.text@ == old(self).text@.subrange(start as int, final(self).current as int),
    {
        self.digits();
        let p = self.peek();
        if peeked_is(p, '.') {
            let q = self.peek_next();
            let follows = match q {
                Some(c) => digit(c),
                None => false,
            };
            if follows {
                self.advance();
                self.digits();
            }
        }
        self.make_token(TokenType::Number, start)
    }

    /// Consumes a run of digits.
    fn digits(&mut self)
        requires
            old(self).wf(),
        ensures
            final(self).wf(),
            final(self).text@ == old(self).text@,
            final(self).current == digits_end(old(self).text@, old(self).current as int),
            final(self).current >= old(self).current,
    {
        let ghost s = self.text@;
        loop
            invariant
                self.wf(),
                self.text@ == s,
                s == old(self).text@,
                digits_end(s, self.current as int) == digits_end(s, old(self).current as int),
                self.current >= old(self).current,
            decreases self.len - self.current,
        {
            let more = match self.peek() {
                Some(c) => digit(c),
                None => false,
            };
            if !more {
                return ;
            }
            self.advance();
        }
    }

    /// Consumes the rest of a string literal through its closing quote.
    fn string(&mut self, start: usize) -> (r: Token<'text>)
        requires
            old(self).wf(),
            old(self).current == start + 1,
        ensures
            final(self).wf(),
            final(self).text@ == old(self).text@,
            ({
                let q = quote_at_or_after(old(self).text@, start + 1);
                if q < old(self).text@.len() {
                    r.token_type == TokenType::String && final(self).current == q + 1 && r.text@
                        == old(self).text@.subrange(start as int, q + 1)
                } else {
                    r.token_type == TokenType::Error && final(self).current == q && r.text@
                        == unterminated_message()
                }
            }),
    {
        let ghost s = self.text@;
        loop
            invariant
                self.wf(),
                self.text@ == s,
                s == old(self).text@,
                start < self.current,
                quote_at_or_after(s, self.current as int) == quote_at_or_after(s, start + 1),
            decreases self.len - self.current,
        {
            match self.advance() {
                None => return Self::error_token("Unterminated string"),
                Some(c) => {
                    if c == '"' {
                        return self.make_token(TokenType::String, start);
                    }
                },
            }
        }
    }

    fn make_token(&self, token_type: TokenType, start: usize) -> (r: Token<'text>)
        requires
            self.wf(),
            start <= self.current,
        ensures
            r.token_type == token_type,
            r.text@ == self.text@.subrange(start as int, self.current as int),
    {
        Token { token_type, text: self.text.substring_char(start, self.current) }
    }

    fn error_token(text: &'static str) -> (r: Token<'text>)
        ensures
            r.token_type == TokenType::Error,
            r.text@ == text@,
    {
        Token { token_type: TokenType::Error, text }
    }
}

/// Whether `w` spells the word `k`.
fn spells(w: &str, k: &str) -> (r: bool)
    ensures
        r == (w@ == k@),
{
    let n = w.unicode_len();
    if n != k.unicode_len() {
        return false;
    }
    let mut i: usize = 0;
    while i < n
        invariant
            n == w@.len(),
            n == k@.len(),
            i <= n,
            w@.subrange(0, i as int) == k@.subrange(0, i as int),
        decreases n - i,
    {
        if w.get_char(i) != k.get_char(i) {
            return false;
        }
        i = i + 1;
        assert(w@.subrange(0, i as int) =~= w@.subrange(0, i - 1).push(w@[i - 1]));
        assert(k@.subrange(0, i as int) =~= k@.subrange(0, i - 1).push(k@[i - 1]));
    }
    assert(w@ =~= w@.subrange(0, n as int));
    assert(k@ =~= k@.subrange(0, n as int));
    true
}

/// The kind of a scanned word.
fn keyword_type(w: &str) -> (r: TokenType)
    ensures
        r == keyword_kind(w@),
{
    if spells(w, "and") {
        TokenType::And
    } else if spells(w, "class") {
        TokenType::Class
    } else if spells(w, "else") {
        TokenType::Else
    } else if spells(w, "false") {
        TokenType::False
    } else if spells(w, "for") {
        TokenType::For
    } else if spells(w, "fn") {
        TokenType::Fn
    } else if spells(w, "if") {
        TokenType::If
    } else if spells(w, "let") {
        TokenType::Let
    } else if spells(w, "nil") {
        TokenType::Nil
    } else if spells(w, "or") {
        TokenType::Or
    } else if spells(w, "print") {
        TokenType::Print
    } else if spells(w, "return") {
        TokenType::Return
    } else if spells(w, "super") {
        TokenType::Super
    } else if spells(w, "this") {
        TokenType::This
    } else if spells(w, "true") {
        TokenType::True
    } else if spells(w, "while") {
        TokenType::While
    } else {
        TokenType::Identifier
    }
}

} // verus!

verus! {

// ---------------------------------------------------------------------------
// Scanning a whole text.
// ---------------------------------------------------------------------------

/// The tokens that repeated scans from `pos` return, through the first `Eof`.
pub open spec fn tokens_from(s: Seq<char>, pos: int) -> Seq<(TokenType, Seq<char>)>
    decreases s.len() - pos,
{
    let t = scan_at(s, pos);
    if t.0 != TokenType::Eof && 0 <= pos < t.2 <= s.len() {
        seq![(t.0, t.1)] + tokens_from(s, t.2)
    } else {
        seq![(t.0, t.1)]
    }
}

/// The texts of `ts`, one after another.
pub open spec fn joined_texts(ts: Seq<(TokenType, Seq<char>)>) -> Seq<char>
    decreases ts.len(),
{
    if ts.len() == 0 {
        Seq::empty()
    } else {
        ts[0].1 + joined_texts(ts.drop_first())
    }
}

/// The characters of `s` from `i` on with whitespace and line comments taken
/// out; `comment` says whether `i` lies inside a comment.
pub open spec fn visible(s: Seq<char>, i: int, comment: bool) -> Seq<char>
    decreases s.len() - i,
{
    if i < 0 || i >= s.len() {
        Seq::empty()
    } else if comment {
        visible(s, i + 1, s[i] != '\n')
    } else if is_whitespace(s[i]) {
        visible(s, i + 1, false)
    } else if s[i] == '/' && i + 1 < s.len() && s[i + 1] == '/' {
        visible(s, i + 2, true)
    } else {
        seq![s[i]] + visible(s, i + 1, false)
    }
}

/// Punctuation and operator characters.
pub open spec fn is_punctuation(c: char) -> bool {
    single_kind(c) is Some || fuses_with_equal(c)
}

proof fn lemma_visible_skips_trivia(s: Seq<char>, i: int, comment: bool)
    requires
        0 <= i <= s.len(),
    ensures
        visible(s, i, comment) == visible(s, skip_trivia(s, i, comment), false),
        skip_trivia(s, skip_trivia(s, i, comment), false) == skip_trivia(s, i, comment),
    decreases s.len() - i,
{
    if i < s.len() {
        if comment {
            lemma_visible_skips_trivia(s, i + 1, s[i] != '\n');
        } else if is_whitespace(s[i]) {
            lemma_visible_skips_trivia(s, i + 1, false);
        } else if s[i] == '/' && i + 1 < s.len() && s[i + 1] == '/' {
            lemma_visible_skips_trivia(s, i + 2, true);
        }
    }
}

proof fn lemma_joined_concat(a: (TokenType, Seq<char>), rest: Seq<(TokenType, Seq<char>)>)
    ensures
        joined_texts(seq![a] + rest) == a.1 + joined_texts(rest),
{
    assert((seq![a] + rest).drop_first() =~= rest);
}

proof fn lemma_punctuation_tokens(s: Seq<char>, pos: int)
    requires
        0 <= pos <= s.len(),
        forall|k: int| 0 <= k < s.len() ==> is_punctuation(#[trigger] s[k]) || is_whitespace(s[k]),
    ensures
        joined_texts(tokens_from(s, pos)) == visible(s, pos, false),
        tokens_from(s, pos).len() > 0,
        tokens_from(s, pos).last().0 == TokenType::Eof,
        forall|k: int|
            0 <= k < tokens_from(s, pos).len() - 1 ==> #[trigger] tokens_from(s, pos)[k].0
                != TokenType::Eof,
    decreases s.len() - pos,
{
    lemma_skip_trivia_bounds(s, pos, false);
    lemma_visible_skips_trivia(s, pos, false);
    lemma_scan_progress(s, pos);
    let start = skip_trivia(s, pos, false);
    let t = scan_at(s, pos);
    if start >= s.len() {
        assert(joined_texts(seq![(t.0, t.1)]) == t.1 + joined_texts(seq![(t.0, t.1)].drop_first()));
        assert(t.1 + Seq::<char>::empty() =~= t.1);
    } else {
        let c = s[start];
        assert(is_punctuation(c) || is_whitespace(c));
        assert(!is_letter(c) && !is_digit(c) && c != '"');
        lemma_punctuation_tokens(s, t.2);
        let rest = tokens_from(s, t.2);
        lemma_joined_concat((t.0, t.1), rest);
        if fuses_with_equal(c) && start + 1 < s.len() && s[start + 1] == '=' {
            assert(visible(s, start, false) == seq![c] + visible(s, start + 1, false));
            assert(visible(s, start + 1, false) == seq![s[start + 1]] + visible(s, start + 2, false));
            assert(t.1 =~= seq![c, s[start + 1]]);
            assert(visible(s, start, false) =~= t.1 + visible(s, start + 2, false));
        } else {
            if c == '/' && start + 1 < s.len() && s[start + 1] == '/' {
                lemma_skip_trivia_bounds(s, start + 2, true);
            }
            assert(visible(s, start, false) == seq![c] + visible(s, start + 1, false));
            assert(t.1 =~= seq![c]);
        }
        let all = tokens_from(s, pos);
        assert(all == seq![(t.0, t.1)] + rest);
        assert forall|k: int| 0 <= k < all.len() - 1 implies #[trigger] all[k].0 != TokenType::Eof by {
            if k > 0 {
                assert(all[k] == rest[k - 1]);
            }
        }
    }
}

/// A text of punctuation and whitespace scans to tokens whose texts, joined,
/// are the text without its whitespace and comments, followed by exactly one
/// `Eof`.
pub proof fn lemma_punctuation_round_trip(s: Seq<char>)
    requires
        forall|k: int| 0 <= k < s.len() ==> is_punctuation(#[trigger] s[k]) || is_whitespace(s[k]),
    ensures
        joined_texts(tokens_from(s, 0)) == visible(s, 0, false),
        tokens_from(s, 0).len() > 0,
        tokens_from(s, 0).last().0 == TokenType::Eof,
        forall|k: int|
            0 <= k < tokens_from(s, 0).len() - 1 ==> #[trigger] tokens_from(s, 0)[k].0
                != TokenType::Eof,
{
    lemma_punctuation_tokens(s, 0);
}

proof fn lemma_skip_whitespace_run(s: Seq<char>, i: int, j: int)
    requires
        0 <= i <= j <= s.len(),
        forall|k: int| i <= k < j ==> is_whitespace(#[trigger] s[k]),
        j == s.len() || (!is_whitespace(s[j]) && s[j] != '/'),
    ensures
        skip_trivia(s, i, false) == j,
    decreases j - i,
{
    if i < j {
        lemma_skip_whitespace_run(s, i + 1, j);
    }
}

proof fn lemma_word_run(s: Seq<char>, i: int, j: int)
    requires
        0 <= i <= j <= s.len(),
        forall|k: int| i <= k < j ==> is_ascii_letter(#[trigger] s[k]),
        j == s.len() || is_whitespace(s[j]),
    ensures
        word_end(s, i) == j,
    decreases j - i,
{
    if i < j {
        lemma_word_run(s, i + 1, j);
    }
}

/// A reserved word is spelled with lower-case ASCII letters only.
proof fn lemma_keyword_letters(w: Seq<char>)
    requires
        keyword_kind(w) != TokenType::Identifier,
    ensures
        w.len() > 0,
        forall|k: int| 0 <= k < w.len() ==> 'a' <= #[trigger] w[k] && w[k] <= 'z',
{
    reveal_strlit("and");
    reveal_strlit("class");
    reveal_strlit("else");
    reveal_strlit("false");
    reveal_strlit("for");
    reveal_strlit("fn");
    reveal_strlit("if");
    reveal_strlit("let");
    reveal_strlit("nil");
    reveal_strlit("or");
    reveal_strlit("print");
    reveal_strlit("return");
    reveal_strlit("super");
    reveal_strlit("this");
    reveal_strlit("true");
    reveal_strlit("while");
}

/// A reserved word alone, with only whitespace around it, scans to one token
/// of its keyword kind, and then to `Eof`.
pub proof fn lemma_keyword_alone(lead: Seq<char>, w: Seq<char>, trail: Seq<char>)
    requires
        keyword_kind(w) != TokenType::Identifier,
        forall|k: int| 0 <= k < lead.len() ==> is_whitespace(#[trigger] lead[k]),
        forall|k: int| 0 <= k < trail.len() ==> is_whitespace(#[trigger] trail[k]),
    ensures
        scan_at(lead + w + trail, 0) == (keyword_kind(w), w, (lead.len() + w.len()) as int),
        scan_at(lead + w + trail, (lead.len() + w.len()) as int).0 == TokenType::Eof,
{
    let s = lead + w + trail;
    let a = lead.len() as int;
    let e = a + w.len();
    lemma_keyword_letters(w);
    assert forall|k: int| 0 <= k < a implies is_whitespace(#[trigger] s[k]) by {
        assert(s[k] == lead[k]);
    }
    assert(s[a] == w[0]);
    lemma_skip_whitespace_run(s, 0, a);
    assert forall|k: int| a + 1 <= k < e implies is_ascii_letter(#[trigger] s[k]) by {
        assert(s[k] == w[k - a]);
    }
    assert forall|k: int| e <= k < s.len() implies is_whitespace(#[trigger] s[k]) by {
        assert(s[k] == trail[k - e]);
    }
    lemma_word_run(s, a + 1, e);
    assert(s.subrange(a, e) =~= w);
    lemma_skip_whitespace_run(s, e, s.len() as int);
}

} // verus!
