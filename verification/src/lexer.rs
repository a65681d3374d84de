//! The lexer: cuts source text into tokens. Positions count characters.

use std::str::Chars;
use vstd::prelude::*;
use vstd::std_specs::cmp::PartialEqSpecImpl;
use vstd::std_specs::iter::IteratorSpec;
use vstd::string::StrSliceExecFns;

verus! {

/// The kinds of tokens.
#[derive(Debug, Clone, Copy, PartialEq, Eq, Structural)]
pub enum TokenKind {
    Comment,
    Identifier,
    Literal,
    OpenParen,
    CloseParen,
    OpenBrace,
    CloseBrace,
    Add,
    Subtract,
    Multiply,
    Comma,
    Assignment,
    Divide,
    GreaterThan,
    LessThan,
    GreaterThanOrEquals,
    LessThanOrEquals,
    Equal,
    NotEqual,
    Whitespace,
    Colon,
    Dot,
    EndOfLine,
    Not,
    EndOfFile,
}

/// Where a token stands: from the character at `start` up to, not including,
/// the character at `end`, on line `line`.
#[derive(Debug, Clone, Copy, PartialEq, Eq, Structural)]
pub struct Span {
    pub start: usize,
    pub end: usize,
    pub line: usize,
}

/// A token: its kind and where it stands.
#[derive(Debug, Clone, Copy)]
pub struct Token {
    pub kind: TokenKind,
    pub span: Span,
}

impl PartialEq for Token {
    /// Tokens are equal when they are of the same kind, wherever they stand.
    fn eq(&self, other: &Self) -> (r: bool) {
        self.kind == other.kind
    }
}

impl PartialEqSpecImpl for Token {
    open spec fn obeys_eq_spec() -> bool {
        true
    }

    open spec fn eq_spec(&self, other: &Self) -> bool {
        self.kind == other.kind
    }
}

impl Token {
    /// A token of this kind at this place.
    pub fn new(kind: TokenKind, span: Span) -> (token: Self)
        ensures
            token.kind == kind,
            token.span == span,
    {
        Self { kind, span }
    }

    /// The kind of the token.
    pub fn kind(&self) -> (kind: &TokenKind)
        ensures
            *kind == self.kind,
    {
        &self.kind
    }

    /// Where the token stands.
    pub fn span(&self) -> (span: Span)
        ensures
            span == self.span,
    {
        self.span
    }

    /// The characters of `input` that the token covers.
    pub fn text<'a>(&self, input: &'a str) -> (text: &'a str)
        requires
            self.span.start <= self.span.end <= input@.len(),
        ensures
            text@ == input@.subrange(self.span.start as int, self.span.end as int),
    {
        input.substring_char(self.span.start, self.span.end)
    }
}

/// Why the text could not be cut into tokens.
#[derive(Debug, Clone, Copy, PartialEq, Eq, Structural)]
pub enum LexerError {
    /// No token starts with this character.
    UnexpectedCharacter { character: char, position: usize, line: usize },
    /// The string that opens at `start` is never closed.
    UnterminatedString { start: usize, line: usize },
}

/// The decimal digits.
pub open spec fn is_digit(c: char) -> bool {
    '0' <= c <= '9'
}

/// The characters that an identifier can begin with: letters and the
/// underscore.
pub open spec fn is_start_of_identifier(c: char) -> bool {
    ('a' <= c <= 'z') || ('A' <= c <= 'Z') || c == '_'
}

/// The characters that an identifier can go on with: letters, digits and the
/// underscore.
pub open spec fn is_in_identifier(c: char) -> bool {
    is_start_of_identifier(c) || is_digit(c)
}

/// Space, tab, line feed, form feed and carriage return.
pub open spec fn is_whitespace(c: char) -> bool {
    c == ' ' || c == '\t' || c == '\n' || c == '\x0C' || c == '\r'
}

/// The character at `at`, or a zero character behind the end.
pub open spec fn peek_at(chars: Seq<char>, at: int) -> char {
    if 0 <= at < chars.len() {
        chars[at]
    } else {
        '\0'
    }
}

/// One more, where the machine can count that far.
pub open spec fn bump(n: usize) -> usize {
    if n < usize::MAX {
        (n + 1) as usize
    } else {
        n
    }
}

/// The first position at or after `at` that does not continue an identifier.
pub open spec fn identifier_end(chars: Seq<char>, at: int) -> int
    decreases chars.len() - at,
{
    if 0 <= at < chars.len() && is_in_identifier(chars[at]) {
        identifier_end(chars, at + 1)
    } else {
        at
    }
}

/// The first position at or after `at` that holds no digit.
pub open spec fn digits_end(chars: Seq<char>, at: int) -> int
    decreases chars.len() - at,
{
    if 0 <= at < chars.len() && is_digit(chars[at]) {
        digits_end(chars, at + 1)
    } else {
        at
    }
}

/// The end of a number that continues at `at`: digits, then at most one dot
/// with the digits that follow it.
pub open spec fn number_end(chars: Seq<char>, at: int) -> int {
    let whole = digits_end(chars, at);
    if peek_at(chars, whole) == '.' {
        digits_end(chars, whole + 1)
    } else {
        whole
    }
}

/// The position of the first double quote at or after `at`.
pub open spec fn closing_quote(chars: Seq<char>, at: int) -> Option<int>
    decreases chars.len() - at,
{
    if at < 0 || at >= chars.len() {
        None
    } else if chars[at] == '"' {
        Some(at)
    } else {
        closing_quote(chars, at + 1)
    }
}

/// The position of the first line feed at or after `at`, or the end of the
/// text where none follows.
pub open spec fn line_end(chars: Seq<char>, at: int) -> int
    decreases chars.len() - at,
{
    if 0 <= at < chars.len() && chars[at] != '\n' {
        line_end(chars, at + 1)
    } else {
        at
    }
}

/// A token with what the cursor has consumed and the line it is on afterwards.
pub struct Scanned {
    pub kind: TokenKind,
    pub span: Span,
    pub consumed: usize,
    pub line: usize,
}

/// A token of `width` characters that ends where the cursor stands.
pub open spec fn fixed(kind: TokenKind, consumed: int, width: int, line: usize) -> Result<
    Scanned,
    LexerError,
> {
    Ok(
        Scanned {
            kind,
            span: Span { start: (consumed - width) as usize, end: consumed as usize, line },
            consumed: consumed as usize,
            line,
        },
    )
}

/// The kind of the token that consists of the one character `c`, if there is
/// such a token.
pub open spec fn single_character(c: char) -> Option<TokenKind> {
    if c == '=' {
        Some(TokenKind::Assignment)
    } else if c == '>' {
        Some(TokenKind::GreaterThan)
    } else if c == '<' {
        Some(TokenKind::LessThan)
    } else if c == '(' {
        Some(TokenKind::OpenParen)
    } else if c == ')' {
        Some(TokenKind::CloseParen)
    } else if c == '{' {
        Some(TokenKind::OpenBrace)
    } else if c == '}' {
        Some(TokenKind::CloseBrace)
    } else if c == '+' {
        Some(TokenKind::Add)
    } else if c == '-' {
        Some(TokenKind::Subtract)
    } else if c == '*' {
        Some(TokenKind::Multiply)
    } else if c == ',' {
        Some(TokenKind::Comma)
    } else if c == '!' {
        Some(TokenKind::Not)
    } else if c == ';' {
        Some(TokenKind::EndOfLine)
    } else if c == ':' {
        Some(TokenKind::Colon)
    } else if c == '.' {
        Some(TokenKind::Dot)
    } else {
        None
    }
}

/// The kind of the token that consists of `c` and an equals sign, if there is
/// such a token.
pub open spec fn with_equals(c: char) -> Option<TokenKind> {
    if c == '=' {
        Some(TokenKind::Equal)
    } else if c == '>' {
        Some(TokenKind::GreaterThanOrEquals)
    } else if c == '<' {
        Some(TokenKind::LessThanOrEquals)
    } else if c == '!' {
        Some(TokenKind::NotEqual)
    } else {
        None
    }
}

/// The token that starts at `consumed`, the position of the next character not
/// yet consumed, on line `line`.
///
/// Behind the end of the text stands the end-of-file token. White space gives
/// a token without extent, a line feed one on the line that it begins. Two
/// slashes begin a comment that runs up to the end of the line. A double quote
/// begins a string, which runs up to the next double quote.
pub open spec fn scan(chars: Seq<char>, consumed: usize, line: usize) -> Result<
    Scanned,
    LexerError,
> {
    if consumed >= chars.len() {
        Ok(
            Scanned {
                kind: TokenKind::EndOfFile,
                span: Span { start: bump(consumed), end: bump(consumed), line },
                consumed: bump(consumed),
                line,
            },
        )
    } else {
        let c = chars[consumed as int];
        let after = consumed + 1;
        if with_equals(c) is Some && peek_at(chars, after) == '=' {
            fixed(with_equals(c)->0, after + 1, 2, line)
        } else if single_character(c) is Some {
            fixed(single_character(c)->0, after, 1, line)
        } else if c == '"' {
            match closing_quote(chars, after) {
                Some(quote) => fixed(TokenKind::Literal, quote + 1, quote + 1 - consumed, line),
                None => Err(LexerError::UnterminatedString { start: consumed, line }),
            }
        } else if c == '/' {
            if peek_at(chars, after) == '/' {
                fixed(
                    TokenKind::Comment,
                    line_end(chars, after + 1),
                    line_end(chars, after + 1) - consumed,
                    line,
                )
            } else {
                fixed(TokenKind::Divide, after, 1, line)
            }
        } else if is_digit(c) {
            fixed(
                TokenKind::Literal,
                number_end(chars, after),
                number_end(chars, after) - consumed,
                line,
            )
        } else if c == '\n' {
            Ok(
                Scanned {
                    kind: TokenKind::Whitespace,
                    span: Span { start: 0, end: 0, line: bump(line) },
                    consumed: after as usize,
                    line: bump(line),
                },
            )
        } else if is_whitespace(c) {
            Ok(
                Scanned {
                    kind: TokenKind::Whitespace,
                    span: Span { start: 0, end: 0, line },
                    consumed: after as usize,
                    line,
                },
            )
        } else if is_start_of_identifier(c) {
            fixed(
                TokenKind::Identifier,
                identifier_end(chars, after),
                identifier_end(chars, after) - consumed,
                line,
            )
        } else {
            Err(LexerError::UnexpectedCharacter { character: c, position: consumed, line })
        }
    }
}

/// The next token from `consumed` on that is neither white space nor a
/// comment; `None` at the end of the text.
pub open spec fn significant(chars: Seq<char>, consumed: usize, line: usize) -> Result<
    (Option<Token>, usize, usize),
    LexerError,
>
    decreases chars.len() - consumed,
{
    match scan(chars, consumed, line) {
        Err(e) => Err(e),
        Ok(scanned) => if scanned.kind == TokenKind::EndOfFile {
            Ok((None, scanned.consumed, scanned.line))
        } else if scanned.kind == TokenKind::Whitespace || scanned.kind == TokenKind::Comment {
            if consumed < scanned.consumed <= chars.len() {
                significant(chars, scanned.consumed, scanned.line)
            } else {
                Ok((None, scanned.consumed, scanned.line))
            }
        } else {
            Ok(
                (
                    Some(Token { kind: scanned.kind, span: scanned.span }),
                    scanned.consumed,
                    scanned.line,
                ),
            )
        },
    }
}

/// All the tokens from `consumed` on that are neither white space nor
/// comments, in order.
pub open spec fn tokens_from(chars: Seq<char>, consumed: usize, line: usize) -> Result<
    Seq<Token>,
    LexerError,
>
    decreases chars.len() - consumed,
{
    match significant(chars, consumed, line) {
        Err(e) => Err(e),
        Ok((None, _, _)) => Ok(Seq::empty()),
        Ok((Some(token), next, next_line)) => if consumed < next <= chars.len() {
            match tokens_from(chars, next, next_line) {
                Err(e) => Err(e),
                Ok(rest) => Ok(seq![token] + rest),
            }
        } else {
            Ok(seq![token])
        },
    }
}

/// The tokens of a text.
pub open spec fn tokens_of(chars: Seq<char>) -> Result<Seq<Token>, LexerError> {
    tokens_from(chars, 0, 1)
}

/// The scanners of identifiers, digits and lines stop at or after where they
/// start, and inside the text.
pub proof fn lemma_scanners_stay_inside(chars: Seq<char>, at: int)
    requires
        0 <= at <= chars.len(),
    ensures
        at <= identifier_end(chars, at) <= chars.len(),
        at <= digits_end(chars, at) <= chars.len(),
        at <= line_end(chars, at) <= chars.len(),
        closing_quote(chars, at) matches Some(quote) ==> at <= quote < chars.len(),
    decreases chars.len() - at,
{
    if at < chars.len() {
        lemma_scanners_stay_inside(chars, at + 1);
    }
}

/// Every token but the one at the end of the text takes at least one
/// character, and none reaches behind the end of the text.
pub proof fn lemma_scan_advances(chars: Seq<char>, consumed: usize, line: usize)
    requires
        chars.len() <= usize::MAX,
    ensures
        scan(chars, consumed, line) matches Ok(scanned) ==> (scanned.kind != TokenKind::EndOfFile
            ==> consumed < scanned.consumed <= chars.len()) && (scanned.kind
            == TokenKind::EndOfFile <==> consumed >= chars.len()),
{
    if consumed < chars.len() {
        let after = consumed + 1;
        lemma_scanners_stay_inside(chars, after);
        if after < chars.len() {
            lemma_scanners_stay_inside(chars, after + 1);
        }
        let whole = digits_end(chars, after);
        if whole < chars.len() {
            lemma_scanners_stay_inside(chars, whole + 1);
        }
    }
}

fn digit(c: char) -> (r: bool)
    ensures
        r == is_digit(c),
{
    '0' <= c && c <= '9'
}

fn in_identifier(c: char) -> (r: bool)
    ensures
        r == is_in_identifier(c),
{
    ('a' <= c && c <= 'z') || ('A' <= c && c <= 'Z') || c == '_' || digit(c)
}

fn scan_identifier(chars: &Vec<char>, at: usize) -> (end: usize)
    requires
        at <= chars.len(),
    ensures
        end == identifier_end(chars@, at as int),
        at <= end <= chars.len(),
{
    let mut i: usize = at;
    while i < chars.len() && in_identifier(chars[i])
        invariant
            at <= i <= chars.len(),
            identifier_end(chars@, at as int) == identifier_end(chars@, i as int),
        decreases chars.len() - i,
    {
        i = i + 1;
    }
    i
}

fn scan_digits(chars: &Vec<char>, at: usize) -> (end: usize)
    requires
        at <= chars.len(),
    ensures
        end == digits_end(chars@, at as int),
        at <= end <= chars.len(),
{
    let mut i: usize = at;
    while i < chars.len() && digit(chars[i])
        invariant
            at <= i <= chars.len(),
            digits_end(chars@, at as int) == digits_end(chars@, i as int),
        decreases chars.len() - i,
    {
        i = i + 1;
    }
    i
}

fn scan_number(chars: &Vec<char>, at: usize) -> (end: usize)
    requires
        at <= chars.len(),
    ensures
        end == number_end(chars@, at as int),
        at <= end <= chars.len(),
{
    let whole = scan_digits(chars, at);
    if whole < chars.len() && chars[whole] == '.' {
        scan_digits(chars, whole + 1)
    } else {
        whole
    }
}

fn scan_quote(chars: &Vec<char>, at: usize) -> (quote: Option<usize>)
    requires
        at <= chars.len(),
    ensures
        match quote {
            Some(position) => closing_quote(chars@, at as int) == Some(position as int) && at
                <= position < chars.len(),
            None => closing_quote(chars@, at as int) is None,
        },
{
    let mut i: usize = at;
    while i < chars.len()
        invariant
            at <= i <= chars.len(),
            closing_quote(chars@, at as int) == closing_quote(chars@, i as int),
        decreases chars.len() - i,
    {
        if chars[i] == '"' {
            return Some(i);
        }
        i = i + 1;
    }
    None
}

fn scan_line(chars: &Vec<char>, at: usize) -> (end: usize)
    requires
        at <= chars.len(),
    ensures
        end == line_end(chars@, at as int),
        at <= end <= chars.len(),
{
    let mut i: usize = at;
    while i < chars.len() && chars[i] != '\n'
        invariant
            at <= i <= chars.len(),
            line_end(chars@, at as int) == line_end(chars@, i as int),
        decreases chars.len() - i,
    {
        i = i + 1;
    }
    i
}

fn single(c: char) -> (kind: Option<TokenKind>)
    ensures
        kind == single_character(c),
{
    if c == '=' {
        Some(TokenKind::Assignment)
    } else if c == '>' {
        Some(TokenKind::GreaterThan)
    } else if c == '<' {
        Some(TokenKind::LessThan)
    } else if c == '(' {
        Some(TokenKind::OpenParen)
    } else if c == ')' {
        Some(TokenKind::CloseParen)
    } else if c == '{' {
        Some(TokenKind::OpenBrace)
    } else if c == '}' {
        Some(TokenKind::CloseBrace)
    } else if c == '+' {
        Some(TokenKind::Add)
    } else if c == '-' {
        Some(TokenKind::Subtract)
    } else if c == '*' {
        Some(TokenKind::Multiply)
    } else if c == ',' {
        Some(TokenKind::Comma)
    } else if c == '!' {
        Some(TokenKind::Not)
    } else if c == ';' {
        Some(TokenKind::EndOfLine)
    } else if c == ':' {
        Some(TokenKind::Colon)
    } else if c == '.' {
        Some(TokenKind::Dot)
    } else {
        None
    }
}

fn paired(c: char) -> (kind: Option<TokenKind>)
    ensures
        kind == with_equals(c),
{
    if c == '=' {
        Some(TokenKind::Equal)
    } else if c == '>' {
        Some(TokenKind::GreaterThanOrEquals)
    } else if c == '<' {
        Some(TokenKind::LessThanOrEquals)
    } else if c == '!' {
        Some(TokenKind::NotEqual)
    } else {
        None
    }
}

/// The characters of a text, in order.
pub fn characters(contents: &str) -> (collected: Vec<char>)
    ensures
        collected@ == contents@,
{
    let mut chars: Chars<'_> = contents.chars();
    let ghost all = chars.remaining();
    let mut collected: Vec<char> = Vec::new();
    loop
        invariant
            chars.decrease() is Some,
            collected@ + chars.remaining() == all,
        ensures
            collected@ == all,
        decreases chars.decrease()->0,
    {
        let ghost before = chars.remaining();
        match chars.next() {
            Some(c) => {
                collected.push(c);
                assert(collected@ + chars.remaining() =~= all) by {
                    assert(before =~= seq![c] + before.drop_first());
                }
            },
            None => {
                assert(collected@ + chars.remaining() =~= collected@);
                break;
            },
        }
    }
    collected
}

/// A position in a text, which hands out the tokens one by one.
pub struct Cursor {
    chars: Vec<char>,
    current_consumed: usize,
    line: usize,
}

impl Cursor {
    /// The whole text.
    pub closed spec fn text(&self) -> Seq<char> {
        self.chars@
    }

    /// How many characters were consumed; the position of the next character.
    pub closed spec fn consumed(&self) -> usize {
        self.current_consumed
    }

    /// The number of the line that the cursor is on, counted from 1.
    pub closed spec fn line_number(&self) -> usize {
        self.line
    }

    /// A cursor at the start of `contents`, on line 1.
    pub fn new(contents: &str) -> (cursor: Self)
        ensures
            cursor.text() == contents@,
            cursor.consumed() == 0,
            cursor.line_number() == 1,
    {
        Self { chars: characters(contents), current_consumed: 0, line: 1 }
    }

    /// Cuts the next token off the text. White space and comments are tokens
    /// too; behind the end stands the end-of-file token. On an error the
    /// cursor has not moved.
    pub fn next_token(&mut self) -> (r: Result<Token, LexerError>)
        ensures
            final(self).text() == old(self).text(),
            match r {
                Ok(token) => scan(old(self).text(), old(self).consumed(), old(self).line_number())
                    == Ok::<_, LexerError>(
                    Scanned {
                        kind: token.kind,
                        span: token.span,
                        consumed: final(self).consumed(),
                        line: final(self).line_number(),
                    },
                ) && (token.kind != TokenKind::EndOfFile ==> old(self).consumed() < final(self).consumed() <= old(self).text().len()),
                Err(e) => scan(old(self).text(), old(self).consumed(), old(self).line_number())
                    == Err::<Scanned, _>(e) && final(self).consumed() == old(self).consumed()
                    && final(self).line_number() == old(self).line_number(),
            },
    {
        let start = self.current_consumed;
        let line = self.line;
        if start >= self.chars.len() {
            if start < usize::MAX {
                self.current_consumed = start + 1;
            }
            let end = self.current_consumed;
            return Ok(Token::new(TokenKind::EndOfFile, Span { start: end, end, line }));
        }
        let c = self.chars[start];
        let after = start + 1;
        let follower = if after < self.chars.len() {
            self.chars[after]
        } else {
            '\0'
        };
        let (kind, end) = match paired(c) {
            Some(kind) if follower == '=' => (kind, after + 1),
            _ => match single(c) {
                Some(kind) => (kind, after),
                None => {
                    if c == '"' {
                        match scan_quote(&self.chars, after) {
                            Some(quote) => (TokenKind::Literal, quote + 1),
                            None => {
                                return Err(LexerError::UnterminatedString { start, line });
                            },
                        }
                    } else if c == '/' {
                        if follower == '/' {
                            (TokenKind::Comment, scan_line(&self.chars, after + 1))
                        } else {
                            (TokenKind::Divide, after)
                        }
                    } else if digit(c) {
                        (TokenKind::Literal, scan_number(&self.chars, after))
                    } else if c == '\n' {
                        if line < usize::MAX {
                            self.line = line + 1;
                        }
                        self.current_consumed = after;
                        return Ok(
                            Token::new(
                                TokenKind::Whitespace,
                                Span { start: 0, end: 0, line: self.line },
                            ),
                        );
                    } else if c == ' ' || c == '\t' || c == '\x0C' || c == '\r' {
                        self.current_consumed = after;
                        return Ok(
                            Token::new(TokenKind::Whitespace, Span { start: 0, end: 0, line }),
                        );
                    } else if ('a' <= c && c <= 'z') || ('A' <= c && c <= 'Z') || c == '_' {
                        (TokenKind::Identifier, scan_identifier(&self.chars, after))
                    } else {
                        return Err(
                            LexerError::UnexpectedCharacter { character: c, position: start, line },
                        );
                    }
                },
            },
        };
        self.current_consumed = end;
        Ok(Token::new(kind, Span { start, end, line }))
    }
}

/// Hands out the tokens of a text that matter: all but white space and
/// comments.
pub struct Lexer {
    cursor: Cursor,
}

impl Lexer {
    /// The text that is being cut.
    pub closed spec fn text(&self) -> Seq<char> {
        self.cursor.text()
    }

    /// The position of the next character.
    pub closed spec fn consumed(&self) -> usize {
        self.cursor.consumed()
    }

    /// The line that the lexer is on.
    pub closed spec fn line_number(&self) -> usize {
        self.cursor.line_number()
    }

    /// A lexer at the start of `contents`.
    pub fn new(contents: &str) -> (lexer: Self)
        ensures
            lexer.text() == contents@,
            lexer.consumed() == 0,
            lexer.line_number() == 1,
    {
        Self { cursor: Cursor::new(contents) }
    }

    /// The next token that is neither white space nor a comment; `None` at the
    /// end of the text.
    pub fn next(&mut self) -> (r: Result<Option<Token>, LexerError>)
        ensures
            final(self).text() == old(self).text(),
            match r {
                Ok(token) => significant(
                    old(self).text(),
                    old(self).consumed(),
                    old(self).line_number(),
                ) == Ok::<_, LexerError>(
                    (token, final(self).consumed(), final(self).line_number()),
                ) && (token is Some ==> old(self).consumed() < final(self).consumed() <= old(self).text().len()),
                Err(e) => significant(
                    old(self).text(),
                    old(self).consumed(),
                    old(self).line_number(),
                ) == Err::<(Option<Token>, usize, usize), _>(e),
            },
    {
        loop
            invariant
                self.text() == old(self).text(),
                old(self).consumed() <= self.consumed(),
                significant(old(self).text(), old(self).consumed(), old(self).line_number())
                    == significant(self.text(), self.consumed(), self.line_number()),
            decreases self.text().len() - self.consumed(),
        {
            let token = self.cursor.next_token()?;
            match token.kind {
                TokenKind::EndOfFile => {
                    return Ok(None);
                },
                TokenKind::Whitespace => {},
                TokenKind::Comment => {},
                _ => {
                    return Ok(Some(token));
                },
            }
        }
    }
}

/// Cuts a text into its tokens, leaving out white space and comments.
pub fn tokenize(contents: &str) -> (r: Result<Vec<Token>, LexerError>)
    ensures
        match r {
            Ok(tokens) => tokens_of(contents@) == Ok::<_, LexerError>(tokens@),
            Err(e) => tokens_of(contents@) == Err::<Seq<Token>, _>(e),
        },
{
    let mut lexer = Lexer::new(contents);
    let mut tokens: Vec<Token> = Vec::new();
    loop
        invariant
            lexer.text() == contents@,
            match tokens_from(lexer.text(), lexer.consumed(), lexer.line_number()) {
                Ok(rest) => tokens_of(contents@) == Ok::<_, LexerError>(tokens@ + rest),
                Err(e) => tokens_of(contents@) == Err::<Seq<Token>, _>(e),
            },
        decreases lexer.text().len() - lexer.consumed(),
    {
        let ghost collected = tokens@;
        match lexer.next()? {
            Some(token) => {
                tokens.push(token);
                proof {
                    match tokens_from(lexer.text(), lexer.consumed(), lexer.line_number()) {
                        Ok(rest) => {
                            assert(collected + (seq![token] + rest) =~= tokens@ + rest);
                        },
                        Err(e) => {},
                    }
                }
            },
            None => {
                assert(tokens@ + Seq::<Token>::empty() =~= tokens@);
                return Ok(tokens);
            },
        }
    }
}

} // verus!
