//! The parser: builds statement trees from tokens by recursive descent, with
//! binding powers for the operators of expressions.

pub mod error;
pub mod laws;
pub mod model;

use crate::ast::{
    expression_views, field_views, lemma_expression_views_push, lemma_field_views,
    lemma_field_views_push, lemma_field_views_update, lemma_statement_views_push, optional_name,
    parameter_views, path_view, statement_views, Expression, ExpressionView, Function,
    FunctionParameter, Operator, ParameterView, Statement, StatementView,
};
use crate::lexer::{characters, Span, Token, TokenKind};
use crate::parser::error::ParserError;
use crate::parser::model::{
    all_digits, decimal, ends_expression, infix_operator, integer_value, is_decimal_digit,
    is_float_text, left, name_position, next_statement, parse_block, parse_block_statements,
    parse_break, parse_call_arguments, parse_const, parse_expression, parse_expression_identifier,
    parse_function, parse_function_head, parse_if_statement, parse_infix, parse_let,
    parse_let_mutation, parse_literal, parse_object_access, parse_object_fields,
    parse_object_mutation, parse_operand, parse_parameters, parse_program, parse_return,
    parse_statement, parse_statement_identifier, parse_terminated, parse_type_annotation,
    prefix_operator, put_field, token_text, unexpected, unsigned_part, Parsed, Source,
};
use crate::types::{Literal, LiteralView};
use vstd::prelude::*;
use vstd::string::StrSliceExecFns;

verus! {

/// Whether two texts are the same.
pub fn same_text(a: &str, b: &str) -> (r: bool)
    ensures
        r == (a@ == b@),
{
    a.to_owned() == b.to_owned()
}

proof fn lemma_decimal_push(digits: Seq<char>, count: int)
    requires
        0 <= count < digits.len(),
    ensures
        decimal(digits.take(count + 1)) == decimal(digits.take(count)) * 10 + (digits[count] as int
            - '0' as int),
{
    assert(digits.take(count + 1).drop_last() =~= digits.take(count));
}

proof fn lemma_decimal_grows(digits: Seq<char>, count: int)
    requires
        0 <= count <= digits.len(),
        all_digits(digits),
    ensures
        0 <= decimal(digits.take(count)) <= decimal(digits),
    decreases digits.len() - count,
{
    if count == digits.len() {
        assert(digits.take(count) =~= digits);
        lemma_decimal_nonnegative(digits);
    } else {
        lemma_decimal_push(digits, count);
        lemma_decimal_grows(digits, count + 1);
        lemma_decimal_nonnegative(digits.take(count));
    }
}

proof fn lemma_decimal_nonnegative(digits: Seq<char>)
    requires
        all_digits(digits),
    ensures
        0 <= decimal(digits),
    decreases digits.len(),
{
    if digits.len() > 0 {
        lemma_decimal_nonnegative(digits.drop_last());
    }
}

/// The integer of 64 bits that the characters spell: a sign or none, then
/// digits and nothing else.
pub fn parse_integer(text: &Vec<char>) -> (r: Option<i64>)
    ensures
        r == integer_value(text@),
{
    let n = text.len();
    let negative = n > 0 && text[0] == '-';
    let start: usize = if n > 0 && (text[0] == '-' || text[0] == '+') {
        1
    } else {
        0
    };
    let ghost digits = unsigned_part(text@);
    if start == n {
        return None;
    }
    let mut value: i64 = 0;
    let mut i: usize = start;
    while i < n
        invariant
            start <= i <= n,
            n == text.len(),
            start <= 1,
            negative == (text@.len() > 0 && text@[0] == '-'),
            digits == unsigned_part(text@),
            digits.len() == n - start,
            forall|j: int| 0 <= j < i - start ==> is_decimal_digit(digits[j]),
            value == (if negative {
                -decimal(digits.take(i - start))
            } else {
                decimal(digits.take(i - start))
            }),
        decreases n - i,
    {
        let c = text[i];
        assert(digits[i - start] == c);
        assert(forall|j: int| 0 <= j < i - start ==> digits.take(i - start)[j] == digits[j]);
        if !('0' <= c && c <= '9') {
            assert(0 <= i - start < digits.len());
            assert(!is_decimal_digit(digits[i - start]));
            assert(!all_digits(digits));
            return None;
        }
        let digit = (c as u32 - '0' as u32) as i64;
        proof {
            lemma_decimal_push(digits, i - start);
            if all_digits(digits) {
                lemma_decimal_grows(digits, i - start + 1);
                lemma_decimal_grows(digits, i - start);
            }
        }
        let ghost reached = decimal(digits.take(i - start + 1));
        assert(reached == decimal(digits.take(i - start)) * 10 + digit);
        let scaled = match value.checked_mul(10) {
            Some(scaled) => scaled,
            None => {
                assert(reached > i64::MAX + 1 || !all_digits(digits));
                return None;
            },
        };
        let next = if negative {
            scaled.checked_sub(digit)
        } else {
            scaled.checked_add(digit)
        };
        value = match next {
            Some(next) => next,
            None => {
                return None;
            },
        };
        i = i + 1;
    }
    assert(digits.take(n - start) =~= digits);
    Some(value)
}

/// Whether the characters hold `wanted`.
fn holds(text: &Vec<char>, wanted: char) -> (r: bool)
    ensures
        r == text@.contains(wanted),
{
    let mut i: usize = 0;
    while i < text.len()
        invariant
            i <= text.len(),
            forall|j: int| 0 <= j < i ==> text@[j] != wanted,
        decreases text.len() - i,
    {
        if text[i] == wanted {
            return true;
        }
        i = i + 1;
    }
    false
}

/// The text of `input` that `token` covers; nothing where the token does not
/// lie in the text.
pub fn text_of<'a>(input: &'a str, token: &Token) -> (text: &'a str)
    ensures
        text@ == token_text(input@, *token),
{
    let span = token.span();
    if span.start <= span.end && span.end <= input.unicode_len() {
        input.substring_char(span.start, span.end)
    } else {
        let empty = input.substring_char(0, 0);
        assert(empty@ =~= Seq::<char>::empty());
        empty
    }
}

/// Whether `token` is a literal that is written as a float, so that the parser
/// needs its value supplied.
pub fn is_float_literal(input: &str, token: &Token) -> (r: bool)
    ensures
        r == (token.kind == TokenKind::Literal && is_float_text(token_text(input@, *token))),
{
    match token.kind {
        TokenKind::Literal => {},
        _ => {
            return false;
        },
    }
    let text = text_of(input, token);
    if same_text(text, "true") || same_text(text, "false") {
        return false;
    }
    let chars = characters(text);
    let n = chars.len();
    if n >= 2 && chars[0] == '"' && chars[n - 1] == '"' {
        return false;
    }
    holds(&chars, '.')
}

/// What a result of the parser says of an expression: the rule gave its view
/// and ended at `pos`, or failed.
pub open spec fn expression_outcome(r: Result<Expression, ParserError>, pos: int) -> Parsed<
    ExpressionView,
> {
    match r {
        Ok(value) => Ok((value@, pos)),
        Err(e) => Err(e),
    }
}

/// What a result of the parser says of a statement: the rule gave its view and
/// ended at `pos`, or failed.
pub open spec fn statement_outcome(r: Result<Statement, ParserError>, pos: int) -> Parsed<
    StatementView,
> {
    match r {
        Ok(value) => Ok((value@, pos)),
        Err(e) => Err(e),
    }
}

/// The operator that a token of this kind stands for between two operands.
fn infix_operator_of(kind: TokenKind) -> (op: Option<Operator>)
    ensures
        op == infix_operator(kind),
{
    match kind {
        TokenKind::Add => Some(Operator::Plus),
        TokenKind::Subtract => Some(Operator::Minus),
        TokenKind::Multiply => Some(Operator::Multiply),
        TokenKind::Divide => Some(Operator::Divide),
        TokenKind::GreaterThan => Some(Operator::GreaterThan),
        TokenKind::GreaterThanOrEquals => Some(Operator::GreaterThanOrEqual),
        TokenKind::LessThan => Some(Operator::LessThan),
        TokenKind::LessThanOrEquals => Some(Operator::LessThanOrEqual),
        TokenKind::Equal => Some(Operator::Equal),
        TokenKind::NotEqual => Some(Operator::NotEqual),
        _ => None,
    }
}

/// The operator that a token of this kind stands for in front of an operand.
fn prefix_operator_of(kind: TokenKind) -> (op: Option<Operator>)
    ensures
        op == prefix_operator(kind),
{
    match kind {
        TokenKind::Add => Some(Operator::Plus),
        TokenKind::Subtract => Some(Operator::Minus),
        TokenKind::Not => Some(Operator::Not),
        _ => None,
    }
}

fn ends_expression_at(kind: TokenKind) -> (r: bool)
    ensures
        r == ends_expression(kind),
{
    match kind {
        TokenKind::Comma
        | TokenKind::OpenBrace
        | TokenKind::CloseParen
        | TokenKind::CloseBrace
        | TokenKind::EndOfLine => true,
        _ => false,
    }
}

/// Gives the field `name` the value `value`: in the place where the name
/// stands, or at the end where it is new.
pub fn insert_field(fields: &mut Vec<(String, Expression)>, name: String, value: Expression)
    ensures
        field_views(final(fields)@, final(fields)@.len() as int) == put_field(
            field_views(old(fields)@, old(fields)@.len() as int),
            name@,
            value@,
        ),
{
    let ghost before = fields@;
    let ghost views = field_views(before, before.len() as int);
    proof {
        lemma_field_views(before, before.len() as int);
    }
    let mut i: usize = 0;
    while i < fields.len()
        invariant
            i <= fields.len(),
            fields@ == before,
            before == old(fields)@,
            views == field_views(before, before.len() as int),
            views.len() == before.len(),
            forall|j: int| 0 <= j < before.len() ==> views[j].0 == before[j].0@,
            name_position(views, name@, 0) == name_position(views, name@, i as int),
        decreases fields.len() - i,
    {
        if fields[i].0 == name {
            proof {
                lemma_field_views_update(before, i as int, (name, value));
                assert(views[i as int].0 == name@);
                assert(name_position(views, name@, i as int) == Some(i as int));
            }
            let ghost field = (name, value);
            fields.set(i, (name, value));
            assert(fields@ =~= before.update(i as int, field));
            assert(put_field(views, field.0@, field.1@) == views.update(
                i as int,
                (field.0@, field.1@),
            ));
            return;
        }
        i = i + 1;
    }
    proof {
        lemma_field_views_push(before, (name, value));
    }
    fields.push((name, value));
}

/// A position in the tokens of a text, from which statements are parsed one
/// by one.
pub struct Parser<'a> {
    tokens: Vec<Token>,
    floats: Vec<Option<u64>>,
    position: usize,
    input: &'a str,
}

impl<'a> Parser<'a> {
    /// What the parser reads.
    pub closed spec fn source(&self) -> Source {
        Source { tokens: self.tokens@, text: self.input@, floats: self.floats@ }
    }

    /// The position of the next token.
    pub closed spec fn position(&self) -> int {
        self.position as int
    }

    /// A parser at the first of `tokens`, which were cut from `input`. No
    /// float values are known to it: see [`Parser::with_floats`].
    pub fn new(tokens: Vec<Token>, input: &'a str) -> (parser: Self)
        ensures
            parser.source() == (Source {
                tokens: tokens@,
                text: input@,
                floats: Seq::<Option<u64>>::empty(),
            }),
            parser.position() == 0,
    {
        Self { tokens, floats: Vec::new(), position: 0, input }
    }

    /// Supplies the values of the float literals: `floats[i]` holds the bits of
    /// the float that token `i` spells, where it is a float literal and its
    /// text is a float.
    pub fn with_floats(self, floats: Vec<Option<u64>>) -> (parser: Self)
        ensures
            parser.source() == (Source { floats: floats@, ..self.source() }),
            parser.position() == self.position(),
    {
        Self { tokens: self.tokens, floats, position: self.position, input: self.input }
    }

    fn text(&self, token: &Token) -> (text: &'a str)
        ensures
            text@ == token_text(self.source().text, *token),
    {
        text_of(self.input, token)
    }

    fn peek_token(&self) -> (token: Token)
        ensures
            token == self.source().peek_token(self.position()),
    {
        if self.position < self.tokens.len() {
            self.tokens[self.position]
        } else {
            Token::new(TokenKind::EndOfFile, Span { start: 0, end: 0, line: 0 })
        }
    }

    fn peek(&self) -> (kind: TokenKind)
        ensures
            kind == self.source().peek(self.position()),
    {
        self.peek_token().kind
    }

    fn peek_is(&self, kind: TokenKind) -> (r: bool)
        ensures
            r == (self.source().peek(self.position()) == kind),
    {
        self.peek() == kind
    }

    /// Whether the token `ahead` places further on is the identifier `word`.
    fn word_ahead(&self, ahead: usize, word: &str) -> (r: bool)
        ensures
            r == self.source().is_word(self.position() + ahead, word@),
    {
        let count = self.tokens.len();
        if self.position < count && ahead < count - self.position {
            let at = self.position + ahead;
            let token = self.tokens[at];
            token.kind == TokenKind::Identifier && same_text(self.text(&token), word)
        } else {
            assert(token_text(self.source().text, crate::parser::model::end_token()) =~= Seq::<
                char,
            >::empty()) by {
                assert(self.source().text.subrange(0, 0) =~= Seq::<char>::empty());
            }
            false
        }
    }

    fn unexpected(&self) -> (error: ParserError)
        ensures
            error == (ParserError::UnexpectedToken {
                token: self.source().peek_token(self.position()),
            }),
    {
        ParserError::UnexpectedToken { token: self.peek_token() }
    }

    /// Takes the next token, which has to be of kind `expected`. The token is
    /// taken before it is looked at: after an error the parser stands behind
    /// the token that it did not expect, and at the end of the tokens it stays
    /// where it is.
    pub fn consume(&mut self, expected: TokenKind) -> (r: Result<Token, ParserError>)
        ensures
            final(self).source() == old(self).source(),
            final(self).position() == old(self).source().taken(old(self).position()),
            match r {
                Ok(token) => old(self).source().consume(old(self).position(), expected) == Ok::<
                    _,
                    ParserError,
                >((token, final(self).position())) && final(self).position() == old(self).position()
                    + 1 && final(self).position() <= old(self).source().tokens.len() && token
                    == old(self).source().peek_token(old(self).position()),
                Err(e) => old(self).source().consume(old(self).position(), expected) == Err::<
                    (Token, int),
                    _,
                >(e),
            },
    {
        if self.position >= self.tokens.len() {
            return Err(ParserError::ExpectedTokenNotFound { expected });
        }
        let token = self.tokens[self.position];
        self.position = self.position + 1;
        if token.kind == TokenKind::EndOfFile {
            return Err(ParserError::ExpectedTokenNotFound { expected });
        }
        if token.kind != expected {
            return Err(ParserError::InvalidToken { expected, actual: token });
        }
        Ok(token)
    }

    fn parse_literal(&mut self) -> (r: Result<Expression, ParserError>)
        ensures
            final(self).source() == old(self).source(),
            match r {
                Ok(value) => parse_literal(old(self).source(), old(self).position()) == Ok::<
                    _,
                    ParserError,
                >((value@, final(self).position())) && old(self).position() < final(self).position() <= old(self).source().tokens.len(),
                Err(e) => parse_literal(old(self).source(), old(self).position()) == Err::<
                    (ExpressionView, int),
                    _,
                >(e),
            },
    {
        let at = self.position;
        let token = self.consume(TokenKind::Literal)?;
        let text = self.text(&token);
        let literal = if same_text(text, "true") {
            Literal::Boolean(true)
        } else if same_text(text, "false") {
            Literal::Boolean(false)
        } else {
            let chars = characters(text);
            let n = chars.len();
            if n >= 2 && chars[0] == '"' && chars[n - 1] == '"' {
                Literal::String(text.substring_char(1, n - 1).to_owned())
            } else if holds(&chars, '.') {
                let known = if at < self.floats.len() {
                    self.floats[at]
                } else {
                    None
                };
                match known {
                    Some(bits) => Literal::Float(bits),
                    None => {
                        return Err(ParserError::InvalidFloat { token });
                    },
                }
            } else {
                match parse_integer(&chars) {
                    Some(n) => Literal::Integer(n),
                    None => {
                        return Err(ParserError::InvalidInteger { token });
                    },
                }
            }
        };
        Ok(Expression::Literal(literal))
    }

    /// A colon and the name of a type, or nothing.
    fn parse_type_annotation(&mut self) -> (r: Result<Option<String>, ParserError>)
        ensures
            final(self).source() == old(self).source(),
            match r {
                Ok(name) => parse_type_annotation(old(self).source(), old(self).position()) == Ok::<
                    _,
                    ParserError,
                >((optional_name(name), final(self).position())) && old(self).position() <= final(self).position(),
                Err(e) => parse_type_annotation(old(self).source(), old(self).position()) == Err::<
                    (Option<Seq<char>>, int),
                    _,
                >(e),
            },
    {
        if self.peek_is(TokenKind::Colon) {
            self.consume(TokenKind::Colon)?;
            let token = self.consume(TokenKind::Identifier)?;
            let name = self.text(&token).to_owned();
            assert(name@ == old(self).source().text_at(old(self).position() + 1));
            Ok(Some(name))
        } else {
            Ok(None)
        }
    }

    /// Steps over the next token.
    fn advance(&mut self)
        requires
            old(self).position() < old(self).source().tokens.len(),
        ensures
            final(self).source() == old(self).source(),
            final(self).position() == old(self).position() + 1,
    {
        let count = self.tokens.len();
        assert(self.position < count);
        self.position = self.position + 1;
    }

    fn parse_expression(&mut self, binding_power: u8) -> (r: Result<Expression, ParserError>)
        ensures
            final(self).source() == old(self).source(),
            parse_expression(old(self).source(), old(self).position(), binding_power)
                == expression_outcome(r, final(self).position()),
            r is Ok ==> old(self).position() < final(self).position() <= old(self).source().tokens.len(),
        decreases left(old(self).source(), old(self).position()), 3nat,
    {
        let lhs = self.parse_operand()?;
        self.parse_infix(lhs, binding_power)
    }

    fn parse_operand(&mut self) -> (r: Result<Expression, ParserError>)
        ensures
            final(self).source() == old(self).source(),
            parse_operand(old(self).source(), old(self).position()) == expression_outcome(
                r,
                final(self).position(),
            ),
            r is Ok ==> old(self).position() < final(self).position() <= old(self).source().tokens.len(),
        decreases left(old(self).source(), old(self).position()), 2nat,
    {
        let kind = self.peek();
        match kind {
            TokenKind::OpenBrace => {
                self.advance();
                self.parse_object_fields()
            },
            TokenKind::Identifier => self.parse_expression_identifier(),
            TokenKind::OpenParen => {
                self.advance();
                let inner = self.parse_expression(0)?;
                self.consume(TokenKind::CloseParen)?;
                Ok(inner)
            },
            TokenKind::Add | TokenKind::Subtract | TokenKind::Not => {
                let op = prefix_operator_of(kind).unwrap();
                self.advance();
                let ((), right_binding_power) = op.prefix_binding_power();
                let operand = self.parse_expression(right_binding_power)?;
                Ok(Expression::Prefix { op, expr: Box::new(operand) })
            },
            TokenKind::Literal => self.parse_literal(),
            _ => Err(self.unexpected()),
        }
    }

    fn parse_infix(&mut self, lhs: Expression, binding_power: u8) -> (r: Result<
        Expression,
        ParserError,
    >)
        ensures
            final(self).source() == old(self).source(),
            parse_infix(old(self).source(), lhs@, old(self).position(), binding_power)
                == expression_outcome(r, final(self).position()),
            r is Ok ==> old(self).position() <= final(self).position(),
            r is Ok && old(self).position() <= old(self).source().tokens.len() ==> final(self).position() <= old(self).source().tokens.len(),
        decreases left(old(self).source(), old(self).position()), 0nat,
    {
        let kind = self.peek();
        if ends_expression_at(kind) {
            return Ok(lhs);
        }
        let op = match infix_operator_of(kind) {
            Some(op) => op,
            None => {
                return Err(self.unexpected());
            },
        };
        let (left_power, right_power) = match op.infix_binding_power() {
            Some(powers) => powers,
            None => {
                return Err(self.unexpected());
            },
        };
        if left_power < binding_power {
            return Ok(lhs);
        }
        self.advance();
        let rhs = self.parse_expression(right_power)?;
        self.parse_infix(
            Expression::Infix { op, lhs: Box::new(lhs), rhs: Box::new(rhs) },
            binding_power,
        )
    }

    /// The rest of an object literal behind its opening brace.
    fn parse_object_fields(&mut self) -> (r: Result<Expression, ParserError>)
        ensures
            final(self).source() == old(self).source(),
            parse_object_fields(old(self).source(), old(self).position(), Seq::empty())
                == expression_outcome(r, final(self).position()),
            r is Ok ==> old(self).position() < final(self).position() <= old(self).source().tokens.len(),
        decreases left(old(self).source(), old(self).position()), 4nat,
    {
        let mut fields: Vec<(String, Expression)> = Vec::new();
        let ghost src = self.source();
        let ghost start = self.position();
        loop
            invariant
                self.source() == src,
                src == old(self).source(),
                start == old(self).position(),
                start <= self.position(),
                parse_object_fields(src, start, Seq::empty()) == parse_object_fields(
                    src,
                    self.position(),
                    field_views(fields@, fields@.len() as int),
                ),
            decreases left(src, self.position()),
        {
            if self.peek_is(TokenKind::CloseBrace) {
                self.advance();
                return Ok(Expression::Object { fields });
            }
            let key = self.consume(TokenKind::Identifier)?;
            self.consume(TokenKind::Colon)?;
            let value = self.parse_expression(0)?;
            insert_field(&mut fields, self.text(&key).to_owned(), value);
            if self.peek_is(TokenKind::Comma) {
                self.advance();
            } else {
                self.consume(TokenKind::CloseBrace)?;
                return Ok(Expression::Object { fields });
            }
        }
    }

    /// The rest of a path behind its first name.
    fn parse_object_access(&mut self, first: &str) -> (r: Result<Expression, ParserError>)
        ensures
            final(self).source() == old(self).source(),
            parse_object_access(old(self).source(), old(self).position(), seq![first@])
                == expression_outcome(r, final(self).position()),
            r is Ok ==> old(self).position() <= final(self).position(),
            r is Ok && old(self).position() <= old(self).source().tokens.len() ==> final(self).position() <= old(self).source().tokens.len(),
    {
        let mut path: Vec<String> = Vec::new();
        path.push(first.to_owned());
        let ghost src = self.source();
        let ghost start = self.position();
        assert(path_view(path@) =~= seq![first@]);
        loop
            invariant
                self.source() == src,
                src == old(self).source(),
                start == old(self).position(),
                start <= self.position(),
                start <= src.tokens.len() ==> self.position() <= src.tokens.len(),
                parse_object_access(src, start, seq![first@]) == parse_object_access(
                    src,
                    self.position(),
                    path_view(path@),
                ),
            decreases left(src, self.position()),
        {
            if self.peek_is(TokenKind::Dot) {
                self.advance();
            } else {
                return Ok(Expression::ObjectAccess { path });
            }
            let token = self.consume(TokenKind::Identifier)?;
            let ghost before = path@;
            path.push(self.text(&token).to_owned());
            assert(path_view(path@) =~= path_view(before).push(
                src.text_at(self.position() - 1),
            ));
        }
    }

    fn parse_expression_identifier(&mut self) -> (r: Result<Expression, ParserError>)
        ensures
            final(self).source() == old(self).source(),
            parse_expression_identifier(old(self).source(), old(self).position())
                == expression_outcome(r, final(self).position()),
            r is Ok ==> old(self).position() < final(self).position() <= old(self).source().tokens.len(),
        decreases left(old(self).source(), old(self).position()), 1nat,
    {
        let token = self.consume(TokenKind::Identifier)?;
        let name = self.text(&token);
        if same_text(name, "true") {
            Ok(Expression::Literal(Literal::Boolean(true)))
        } else if same_text(name, "false") {
            Ok(Expression::Literal(Literal::Boolean(false)))
        } else if self.peek_is(TokenKind::Dot) {
            self.parse_object_access(name)
        } else if self.peek_is(TokenKind::OpenParen) {
            self.parse_function_call(name, false)
        } else {
            self.parse_variable(name)
        }
    }

    fn parse_variable(&mut self, name: &str) -> (r: Result<Expression, ParserError>)
        ensures
            final(self).source() == old(self).source(),
            final(self).position() == old(self).position(),
            r matches Ok(value) && value@ == ExpressionView::Variable(name@),
    {
        Ok(Expression::Variable(name.to_owned()))
    }

    /// A call behind the name of the function: the arguments in parentheses,
    /// and a semicolon where the call is a statement.
    fn parse_function_call(&mut self, name: &str, is_statement: bool) -> (r: Result<
        Expression,
        ParserError,
    >)
        requires
            old(self).source().peek(old(self).position()) == TokenKind::OpenParen,
        ensures
            final(self).source() == old(self).source(),
            parse_call_arguments(
                old(self).source(),
                old(self).position() + 1,
                name@,
                Seq::empty(),
                is_statement,
            ) == expression_outcome(r, final(self).position()),
            r is Ok ==> old(self).position() < final(self).position() <= old(self).source().tokens.len(),
        decreases left(old(self).source(), old(self).position()), 0nat,
    {
        self.advance();
        let mut args: Vec<Expression> = Vec::new();
        let ghost src = self.source();
        let ghost start = self.position();
        loop
            invariant
                self.source() == src,
                src == old(self).source(),
                start == old(self).position() + 1,
                start <= self.position() <= src.tokens.len(),
                parse_call_arguments(src, start, name@, Seq::empty(), is_statement)
                    == parse_call_arguments(
                    src,
                    self.position(),
                    name@,
                    expression_views(args@, args@.len() as int),
                    is_statement,
                ),
            decreases left(src, self.position()),
        {
            if self.peek_is(TokenKind::CloseParen) {
                self.advance();
                if is_statement {
                    self.consume(TokenKind::EndOfLine)?;
                }
                return Ok(Expression::FunctionCall { name: name.to_owned(), args });
            }
            let expr = self.parse_expression(0)?;
            proof {
                lemma_expression_views_push(args@, expr);
            }
            args.push(expr);
            if self.peek_is(TokenKind::Comma) {
                self.advance();
            }
        }
    }

    /// An expression and the semicolon behind it.
    fn parse_terminated(&mut self) -> (r: Result<Expression, ParserError>)
        ensures
            final(self).source() == old(self).source(),
            parse_terminated(old(self).source(), old(self).position()) == expression_outcome(
                r,
                final(self).position(),
            ),
            r is Ok ==> old(self).position() < final(self).position() <= old(self).source().tokens.len(),
    {
        let value = self.parse_expression(0)?;
        self.consume(TokenKind::EndOfLine)?;
        Ok(value)
    }

    fn parse_const(&mut self) -> (r: Result<Statement, ParserError>)
        ensures
            final(self).source() == old(self).source(),
            parse_const(old(self).source(), old(self).position()) == statement_outcome(
                r,
                final(self).position(),
            ),
            r is Ok ==> old(self).position() < final(self).position() <= old(self).source().tokens.len(),
    {
        let name_token = self.consume(TokenKind::Identifier)?;
        let name = self.text(&name_token).to_owned();
        let type_annotation = self.parse_type_annotation()?;
        self.consume(TokenKind::Assignment)?;
        let literal = self.parse_literal()?;
        self.consume(TokenKind::EndOfLine)?;
        Ok(Statement::Const { name, value: literal, type_annotation })
    }

    fn parse_let(&mut self) -> (r: Result<Statement, ParserError>)
        ensures
            final(self).source() == old(self).source(),
            parse_let(old(self).source(), old(self).position()) == statement_outcome(
                r,
                final(self).position(),
            ),
            r is Ok ==> old(self).position() < final(self).position() <= old(self).source().tokens.len(),
    {
        let has_mutable_token = self.word_ahead(0, "mut");
        if has_mutable_token {
            self.advance();
        }
        let variable_name = self.consume(TokenKind::Identifier)?;
        let type_annotation = self.parse_type_annotation()?;
        self.consume(TokenKind::Assignment)?;
        let expression = self.parse_terminated()?;
        Ok(
            Statement::Let {
                name: self.text(&variable_name).to_owned(),
                value: Box::new(expression),
                is_mutable: has_mutable_token,
                type_annotation,
            },
        )
    }

    fn parse_let_mutation(&mut self, name: &str) -> (r: Result<Statement, ParserError>)
        ensures
            final(self).source() == old(self).source(),
            parse_let_mutation(old(self).source(), old(self).position(), name@)
                == statement_outcome(r, final(self).position()),
            r is Ok ==> old(self).position() < final(self).position() <= old(self).source().tokens.len(),
    {
        self.consume(TokenKind::Assignment)?;
        let expression = self.parse_terminated()?;
        Ok(Statement::Reassignment { name: name.to_owned(), value: Box::new(expression) })
    }

    fn parse_object_mutation(&mut self, first: &str) -> (r: Result<Statement, ParserError>)
        requires
            old(self).position() <= old(self).source().tokens.len(),
        ensures
            final(self).source() == old(self).source(),
            parse_object_mutation(old(self).source(), old(self).position(), first@)
                == statement_outcome(r, final(self).position()),
            r is Ok ==> old(self).position() < final(self).position() <= old(self).source().tokens.len(),
    {
        let object_access = self.parse_object_access(first)?;
        self.consume(TokenKind::Assignment)?;
        let expr = self.parse_terminated()?;
        Ok(Statement::ObjectMutation { path: object_access, value: Box::new(expr) })
    }

    fn parse_return(&mut self) -> (r: Result<Statement, ParserError>)
        ensures
            final(self).source() == old(self).source(),
            parse_return(old(self).source(), old(self).position()) == statement_outcome(
                r,
                final(self).position(),
            ),
            r is Ok ==> old(self).position() < final(self).position() <= old(self).source().tokens.len(),
    {
        let expr = self.parse_terminated()?;
        Ok(Statement::Return(expr))
    }

    fn parse_break(&mut self) -> (r: Result<Statement, ParserError>)
        ensures
            final(self).source() == old(self).source(),
            parse_break(old(self).source(), old(self).position()) == statement_outcome(
                r,
                final(self).position(),
            ),
            r is Ok ==> old(self).position() < final(self).position() <= old(self).source().tokens.len(),
    {
        self.consume(TokenKind::EndOfLine)?;
        Ok(Statement::Break)
    }

    fn parse_parameters(&mut self) -> (r: Result<Vec<FunctionParameter>, ParserError>)
        ensures
            final(self).source() == old(self).source(),
            match r {
                Ok(parameters) => parse_parameters(
                    old(self).source(),
                    old(self).position(),
                    Seq::empty(),
                ) == Ok::<_, ParserError>((parameter_views(parameters@), final(self).position()))
                    && old(self).position() <= final(self).position(),
                Err(e) => parse_parameters(old(self).source(), old(self).position(), Seq::empty())
                    == Err::<(Seq<ParameterView>, int), _>(e),
            },
    {
        let mut args: Vec<FunctionParameter> = Vec::new();
        let ghost src = self.source();
        let ghost start = self.position();
        assert(parameter_views(args@) =~= Seq::<ParameterView>::empty());
        loop
            invariant
                self.source() == src,
                src == old(self).source(),
                start == old(self).position(),
                start <= self.position(),
                parse_parameters(src, start, Seq::empty()) == parse_parameters(
                    src,
                    self.position(),
                    parameter_views(args@),
                ),
            decreases left(src, self.position()),
        {
            if self.peek_is(TokenKind::CloseParen) {
                return Ok(args);
            }
            let identifier = self.consume(TokenKind::Identifier)?;
            let name = self.text(&identifier).to_owned();
            self.consume(TokenKind::Colon)?;
            let type_name_token = self.consume(TokenKind::Identifier)?;
            let type_annotation = self.text(&type_name_token).to_owned();
            let ghost before = args@;
            args.push(FunctionParameter { name, type_annotation });
            assert(parameter_views(args@) =~= parameter_views(before).push(
                ParameterView { name: name@, type_annotation: type_annotation@ },
            ));
            if self.peek_is(TokenKind::Comma) {
                self.advance();
            }
        }
    }

    fn parse_function(&mut self) -> (r: Result<Statement, ParserError>)
        ensures
            final(self).source() == old(self).source(),
            parse_function(old(self).source(), old(self).position()) == statement_outcome(
                r,
                final(self).position(),
            ),
            r is Ok ==> old(self).position() < final(self).position() <= old(self).source().tokens.len(),
        decreases left(old(self).source(), old(self).position()), 4nat,
    {
        let name_token = self.consume(TokenKind::Identifier)?;
        let name = self.text(&name_token).to_owned();
        self.consume(TokenKind::OpenParen)?;
        let args = self.parse_parameters()?;
        self.consume(TokenKind::CloseParen)?;
        let return_type_name = if self.peek_is(TokenKind::Subtract) {
            self.advance();
            self.consume(TokenKind::GreaterThan)?;
            let return_type_name_token = self.consume(TokenKind::Identifier)?;
            Some(self.text(&return_type_name_token).to_owned())
        } else {
            None
        };
        assert(parse_function_head(old(self).source(), old(self).position()) == Ok::<
            _,
            ParserError,
        >(((name@, parameter_views(args@), optional_name(return_type_name)), self.position())));
        let block = self.parse_block()?;
        Ok(Statement::Function(Function::new(name, args, Box::new(block), return_type_name)))
    }

    /// A block: statements in braces.
    fn parse_block(&mut self) -> (r: Result<Statement, ParserError>)
        ensures
            final(self).source() == old(self).source(),
            parse_block(old(self).source(), old(self).position()) == statement_outcome(
                r,
                final(self).position(),
            ),
            r is Ok ==> old(self).position() < final(self).position() <= old(self).source().tokens.len(),
        decreases left(old(self).source(), old(self).position()), 4nat,
    {
        self.consume(TokenKind::OpenBrace)?;
        let mut statements: Vec<Statement> = Vec::new();
        let ghost src = self.source();
        let ghost start = self.position();
        loop
            invariant
                self.source() == src,
                src == old(self).source(),
                start == old(self).position() + 1,
                start <= self.position() <= src.tokens.len(),
                src.consume(start - 1, TokenKind::OpenBrace) is Ok,
                parse_block_statements(src, start, Seq::empty()) == parse_block_statements(
                    src,
                    self.position(),
                    statement_views(statements@, statements@.len() as int),
                ),
            decreases left(src, self.position()),
        {
            if self.peek_is(TokenKind::CloseBrace) {
                self.advance();
                return Ok(Statement::Block { body: statements });
            }
            let statement = self.parse_statement()?;
            proof {
                lemma_statement_views_push(statements@, statement);
            }
            statements.push(statement);
        }
    }

    fn parse_if_statement(&mut self) -> (r: Result<Statement, ParserError>)
        ensures
            final(self).source() == old(self).source(),
            parse_if_statement(old(self).source(), old(self).position()) == statement_outcome(
                r,
                final(self).position(),
            ),
            r is Ok ==> old(self).position() < final(self).position() <= old(self).source().tokens.len(),
        decreases left(old(self).source(), old(self).position()), 5nat,
    {
        let condition = self.parse_expression(0)?;
        let block = self.parse_block()?;
        let else_statement = if self.word_ahead(0, "else") {
            if self.word_ahead(1, "if") {
                self.advance();
                self.advance();
                Some(Box::new(self.parse_if_statement()?))
            } else {
                self.advance();
                Some(Box::new(self.parse_block()?))
            }
        } else {
            None
        };
        Ok(Statement::If { condition: Box::new(condition), body: Box::new(block), else_statement })
    }

    fn parse_statement_identifier(&mut self) -> (r: Result<Statement, ParserError>)
        ensures
            final(self).source() == old(self).source(),
            parse_statement_identifier(old(self).source(), old(self).position())
                == statement_outcome(r, final(self).position()),
            r is Ok ==> old(self).position() < final(self).position() <= old(self).source().tokens.len(),
        decreases left(old(self).source(), old(self).position()), 5nat,
    {
        let identifier = self.consume(TokenKind::Identifier)?;
        let word = self.text(&identifier);
        if same_text(word, "let") {
            self.parse_let()
        } else if same_text(word, "const") {
            self.parse_const()
        } else if same_text(word, "fn") {
            self.parse_function()
        } else if same_text(word, "if") {
            self.parse_if_statement()
        } else if same_text(word, "return") {
            self.parse_return()
        } else if same_text(word, "loop") {
            let block = self.parse_block()?;
            Ok(Statement::Loop { body: Box::new(block) })
        } else if same_text(word, "break") {
            self.parse_break()
        } else if self.peek_is(TokenKind::OpenParen) {
            let call = self.parse_function_call(word, true)?;
            Ok(Statement::Expression(call))
        } else if self.peek_is(TokenKind::Dot) {
            self.parse_object_mutation(word)
        } else if self.peek_is(TokenKind::Assignment) {
            self.parse_let_mutation(word)
        } else {
            let variable = self.parse_variable(word)?;
            Ok(Statement::Expression(variable))
        }
    }

    fn parse_statement(&mut self) -> (r: Result<Statement, ParserError>)
        ensures
            final(self).source() == old(self).source(),
            parse_statement(old(self).source(), old(self).position()) == statement_outcome(
                r,
                final(self).position(),
            ),
            r is Ok ==> old(self).position() < final(self).position() <= old(self).source().tokens.len(),
        decreases left(old(self).source(), old(self).position()), 6nat,
    {
        match self.peek() {
            TokenKind::Literal => {
                let expr = self.parse_terminated()?;
                Ok(Statement::Expression(expr))
            },
            TokenKind::Identifier => self.parse_statement_identifier(),
            TokenKind::OpenBrace => self.parse_block(),
            _ => Err(self.unexpected()),
        }
    }

    /// The next statement of the program; `None` where the program ends.
    pub fn next(&mut self) -> (r: Option<Result<Statement, ParserError>>)
        ensures
            final(self).source() == old(self).source(),
            match r {
                None => next_statement(old(self).source(), old(self).position()) is None,
                Some(parsed) => next_statement(old(self).source(), old(self).position()) == Some(
                    statement_outcome(parsed, final(self).position()),
                ) && (parsed is Ok ==> old(self).position() < final(self).position() <= old(self).source().tokens.len()),
            },
    {
        match self.peek() {
            TokenKind::EndOfFile => None,
            TokenKind::EndOfLine => {
                self.advance();
                None
            },
            TokenKind::Identifier => Some(self.parse_statement_identifier()),
            TokenKind::OpenBrace => Some(self.parse_block()),
            _ => Some(Err(self.unexpected())),
        }
    }

    /// All the statements of the program, or the first error.
    pub fn collect(self) -> (r: Result<Vec<Statement>, ParserError>)
        ensures
            match r {
                Ok(statements) => parse_program(self.source(), self.position(), Seq::empty())
                    == Ok::<_, ParserError>(
                    statement_views(statements@, statements@.len() as int),
                ),
                Err(e) => parse_program(self.source(), self.position(), Seq::empty()) == Err::<
                    Seq<StatementView>,
                    _,
                >(e),
            },
    {
        let mut parser = self;
        let mut statements: Vec<Statement> = Vec::new();
        loop
            invariant
                parser.source() == self.source(),
                parse_program(self.source(), self.position(), Seq::empty()) == parse_program(
                    parser.source(),
                    parser.position(),
                    statement_views(statements@, statements@.len() as int),
                ),
            decreases left(parser.source(), parser.position()),
        {
            match parser.next() {
                None => {
                    return Ok(statements);
                },
                Some(parsed) => {
                    let statement = parsed?;
                    proof {
                        lemma_statement_views_push(statements@, statement);
                    }
                    statements.push(statement);
                },
            }
        }
    }
}

/// The statements that the tokens spell, or the first error: what
/// [`Parser::collect`] gives from the first token on.
pub fn parse(tokens: Vec<Token>, floats: Vec<Option<u64>>, input: &str) -> (r: Result<
    Vec<Statement>,
    ParserError,
>)
    ensures
        match r {
            Ok(statements) => parse_program(
                Source { tokens: tokens@, text: input@, floats: floats@ },
                0,
                Seq::empty(),
            ) == Ok::<_, ParserError>(statement_views(statements@, statements@.len() as int)),
            Err(e) => parse_program(
                Source { tokens: tokens@, text: input@, floats: floats@ },
                0,
                Seq::empty(),
            ) == Err::<Seq<StatementView>, _>(e),
        },
{
    Parser::new(tokens, input).with_floats(floats).collect()
}

} // verus!
