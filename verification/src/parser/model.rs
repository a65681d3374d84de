//! What parsing means, as mathematics: each rule of the grammar is a function
//! from a position in the tokens to what stands there and the position behind
//! it, or to an error.

use crate::ast::{DeclarationView, ExpressionView, Operator, ParameterView, StatementView};
use crate::lexer::{Span, Token, TokenKind};
use crate::parser::error::ParserError;
use crate::types::LiteralView;
use vstd::prelude::*;

verus! {

/// What the parser reads.
pub struct Source {
    /// The tokens, without white space and comments.
    pub tokens: Seq<Token>,
    /// The text that the tokens were cut from.
    pub text: Seq<char>,
    /// For each token that is a float literal, the bits of that float, where
    /// the text is one; properly as long as `tokens`.
    pub floats: Seq<Option<u64>>,
}

/// What a rule gives: what it found and the position behind it.
pub type Parsed<T> = Result<(T, int), ParserError>;

/// The text that a token covers; nothing where the token does not lie in the
/// text.
pub open spec fn token_text(text: Seq<char>, token: Token) -> Seq<char> {
    if token.span.start <= token.span.end <= text.len() {
        text.subrange(token.span.start as int, token.span.end as int)
    } else {
        Seq::empty()
    }
}

/// The token that stands for the end of the tokens.
pub open spec fn end_token() -> Token {
    Token { kind: TokenKind::EndOfFile, span: Span { start: 0, end: 0, line: 0 } }
}

impl Source {
    /// The token at `pos`; the end token behind the last.
    pub open spec fn peek_token(self, pos: int) -> Token {
        if 0 <= pos < self.tokens.len() {
            self.tokens[pos]
        } else {
            end_token()
        }
    }

    /// The kind of the token at `pos`.
    pub open spec fn peek(self, pos: int) -> TokenKind {
        self.peek_token(pos).kind
    }

    /// The text of the token at `pos`.
    pub open spec fn text_at(self, pos: int) -> Seq<char> {
        token_text(self.text, self.peek_token(pos))
    }

    /// Whether the token at `pos` is the identifier `word`.
    pub open spec fn is_word(self, pos: int, word: Seq<char>) -> bool {
        self.peek(pos) == TokenKind::Identifier && self.text_at(pos) == word
    }

    /// Where the parser stands after it took the token at `pos`, whatever the
    /// token was: one token further, or where it stood at the end of the
    /// tokens.
    pub open spec fn taken(self, pos: int) -> int {
        if 0 <= pos < self.tokens.len() {
            pos + 1
        } else {
            pos
        }
    }

    /// Takes the token at `pos`, which has to be of kind `expected`.
    pub open spec fn consume(self, pos: int, expected: TokenKind) -> Parsed<Token> {
        if pos < 0 || pos >= self.tokens.len() || self.tokens[pos].kind == TokenKind::EndOfFile {
            Err(ParserError::ExpectedTokenNotFound { expected })
        } else if self.tokens[pos].kind != expected {
            Err(ParserError::InvalidToken { expected, actual: self.tokens[pos] })
        } else {
            Ok((self.tokens[pos], pos + 1))
        }
    }

    /// The float that the token at `pos` stands for, if one was supplied.
    pub open spec fn float_at(self, pos: int) -> Option<u64> {
        if 0 <= pos < self.floats.len() {
            self.floats[pos]
        } else {
            None
        }
    }
}

/// The error for a token with which nothing can start or go on.
pub open spec fn unexpected<T>(src: Source, pos: int) -> Parsed<T> {
    Err(ParserError::UnexpectedToken { token: src.peek_token(pos) })
}

/// The decimal digits.
pub open spec fn is_decimal_digit(c: char) -> bool {
    '0' <= c <= '9'
}

/// The number that a sequence of decimal digits spells.
pub open spec fn decimal(digits: Seq<char>) -> int
    decreases digits.len(),
{
    if digits.len() == 0 {
        0
    } else {
        decimal(digits.drop_last()) * 10 + (digits.last() as int - '0' as int)
    }
}

/// A text without the sign that it may begin with.
pub open spec fn unsigned_part(text: Seq<char>) -> Seq<char> {
    if text.len() > 0 && (text[0] == '-' || text[0] == '+') {
        text.skip(1)
    } else {
        text
    }
}

/// Whether every character is a decimal digit.
pub open spec fn all_digits(digits: Seq<char>) -> bool {
    forall|i: int| 0 <= i < digits.len() ==> is_decimal_digit(#[trigger] digits[i])
}

/// The integer of 64 bits that a text spells: a sign or none, then digits and
/// nothing else. `None` for any other text and for a number that does not fit.
pub open spec fn integer_value(text: Seq<char>) -> Option<i64> {
    let digits = unsigned_part(text);
    let value = if text.len() > 0 && text[0] == '-' {
        -decimal(digits)
    } else {
        decimal(digits)
    };
    if digits.len() == 0 || !all_digits(digits) || value < i64::MIN || value > i64::MAX {
        None
    } else {
        Some(value as i64)
    }
}

/// Whether a text is a string in double quotes.
pub open spec fn is_quoted(text: Seq<char>) -> bool {
    text.len() >= 2 && text[0] == '"' && text.last() == '"'
}

/// Whether a literal with this text is a float: it is no word and no string,
/// and holds a dot.
pub open spec fn is_float_text(text: Seq<char>) -> bool {
    text != "true"@ && text != "false"@ && !is_quoted(text) && text.contains('.')
}

/// The constant that the literal token at `pos` stands for.
pub open spec fn literal_at(src: Source, pos: int) -> Result<LiteralView, ParserError> {
    let text = src.text_at(pos);
    if text == "true"@ {
        Ok(LiteralView::Boolean(true))
    } else if text == "false"@ {
        Ok(LiteralView::Boolean(false))
    } else if is_quoted(text) {
        Ok(LiteralView::String(text.subrange(1, text.len() - 1)))
    } else if text.contains('.') {
        match src.float_at(pos) {
            Some(bits) => Ok(LiteralView::Float(bits)),
            None => Err(ParserError::InvalidFloat { token: src.peek_token(pos) }),
        }
    } else {
        match integer_value(text) {
            Some(n) => Ok(LiteralView::Integer(n)),
            None => Err(ParserError::InvalidInteger { token: src.peek_token(pos) }),
        }
    }
}

/// A literal.
pub open spec fn parse_literal(src: Source, pos: int) -> Parsed<ExpressionView> {
    match src.consume(pos, TokenKind::Literal) {
        Err(e) => Err(e),
        Ok((_, next)) => match literal_at(src, pos) {
            Err(e) => Err(e),
            Ok(literal) => Ok((ExpressionView::Literal(literal), next)),
        },
    }
}

/// A colon and the name of a type, or nothing.
pub open spec fn parse_type_annotation(src: Source, pos: int) -> Parsed<Option<Seq<char>>> {
    if src.peek(pos) == TokenKind::Colon {
        match src.consume(pos + 1, TokenKind::Identifier) {
            Err(e) => Err(e),
            Ok((_, next)) => Ok((Some(src.text_at(pos + 1)), next)),
        }
    } else {
        Ok((None, pos))
    }
}

/// The operator that a token stands for between two operands.
pub open spec fn infix_operator(kind: TokenKind) -> Option<Operator> {
    match kind {
        TokenKind::Add => Some(Operator::Plus),
        TokenKind::Subtract => Some(Operator::Minus),
        TokenKind::Multiply => Some(Operator::Multiply),
        TokenKind::Divide => Some(Operator::Divide),
        TokenKind::GreaterThan => Some(Operator::GreaterThan),
        TokenKind::GreaterThanOrEquals => Some(Operator::GreaterThanOrEqual),
        TokenKind::LessThan => Some(Operator::LessThan),
        TokenKind::LessThanOrEquals => Some(Operator::LessThanOrEqual),
        TokenKind::Equal => Some(Operator::Equal),
        TokenKind::NotEqual => Some(Operator::NotEqual),
        _ => None,
    }
}

/// The operator that a token stands for in front of an operand.
pub open spec fn prefix_operator(kind: TokenKind) -> Option<Operator> {
    match kind {
        TokenKind::Add => Some(Operator::Plus),
        TokenKind::Subtract => Some(Operator::Minus),
        TokenKind::Not => Some(Operator::Not),
        _ => None,
    }
}

/// Whether an expression ends in front of a token of this kind.
pub open spec fn ends_expression(kind: TokenKind) -> bool {
    kind == TokenKind::Comma || kind == TokenKind::OpenBrace || kind == TokenKind::CloseParen
        || kind == TokenKind::CloseBrace || kind == TokenKind::EndOfLine
}

/// The fields of an object literal after `name: value` was read: a name that
/// is there keeps its place and gets the value, a new name goes to the end.
pub open spec fn put_field(
    fields: Seq<(Seq<char>, ExpressionView)>,
    name: Seq<char>,
    value: ExpressionView,
) -> Seq<(Seq<char>, ExpressionView)> {
    match name_position(fields, name, 0) {
        Some(at) => fields.update(at, (name, value)),
        None => fields.push((name, value)),
    }
}

/// The first position at or after `from` of the field called `name`.
pub open spec fn name_position(
    fields: Seq<(Seq<char>, ExpressionView)>,
    name: Seq<char>,
    from: int,
) -> Option<int>
    decreases fields.len() - from,
{
    if from < 0 || from >= fields.len() {
        None
    } else if fields[from].0 == name {
        Some(from)
    } else {
        name_position(fields, name, from + 1)
    }
}

/// No name stands twice among the fields.
pub open spec fn distinct_names(fields: Seq<(Seq<char>, ExpressionView)>) -> bool {
    forall|i: int, j: int| 0 <= i < j < fields.len() ==> fields[i].0 != fields[j].0
}

/// How much of the tokens is left at `pos`; what the recursion of the grammar
/// goes down by.
pub open spec fn left(src: Source, pos: int) -> nat {
    if pos < src.tokens.len() {
        (src.tokens.len() - pos) as nat
    } else {
        0
    }
}

/// An expression whose infix operators all bind at least as tightly as
/// `binding_power`.
pub open spec fn parse_expression(src: Source, pos: int, binding_power: u8) -> Parsed<
    ExpressionView,
>
    decreases left(src, pos), 3nat,
{
    match parse_operand(src, pos) {
        Err(e) => Err(e),
        Ok((lhs, next)) => if pos < next <= src.tokens.len() {
            parse_infix(src, lhs, next, binding_power)
        } else {
            unexpected(src, pos)
        },
    }
}

/// What an expression begins with: an object literal, a name, an expression
/// in parentheses, a prefix operator with its operand, or a literal.
pub open spec fn parse_operand(src: Source, pos: int) -> Parsed<ExpressionView>
    decreases left(src, pos), 2nat,
{
    let kind = src.peek(pos);
    if pos < 0 || pos >= src.tokens.len() {
        unexpected(src, pos)
    } else if kind == TokenKind::OpenBrace {
        parse_object_fields(src, pos + 1, Seq::empty())
    } else if kind == TokenKind::Identifier {
        parse_expression_identifier(src, pos)
    } else if kind == TokenKind::OpenParen {
        match parse_expression(src, pos + 1, 0) {
            Err(e) => Err(e),
            Ok((inner, next)) => match src.consume(next, TokenKind::CloseParen) {
                Err(e) => Err(e),
                Ok((_, after)) => Ok((inner, after)),
            },
        }
    } else if prefix_operator(kind) is Some {
        match parse_expression(src, pos + 1, 51) {
            Err(e) => Err(e),
            Ok((operand, next)) => Ok(
                (
                    ExpressionView::Prefix { op: prefix_operator(kind)->0, expr: Box::new(operand) },
                    next,
                ),
            ),
        }
    } else if kind == TokenKind::Literal {
        parse_literal(src, pos)
    } else {
        unexpected(src, pos)
    }
}

/// The infix operators that follow the operand `lhs`, as far as they bind at
/// least as tightly as `binding_power`, each with its right operand.
pub open spec fn parse_infix(src: Source, lhs: ExpressionView, pos: int, binding_power: u8) -> Parsed<
    ExpressionView,
>
    decreases left(src, pos), 0nat,
{
    let kind = src.peek(pos);
    if ends_expression(kind) {
        Ok((lhs, pos))
    } else {
        match infix_operator(kind) {
            None => unexpected(src, pos),
            Some(op) => match op.infix_power() {
                None => unexpected(src, pos),
                Some((left_power, right_power)) => if left_power < binding_power {
                    Ok((lhs, pos))
                } else if pos < 0 || pos >= src.tokens.len() {
                    unexpected(src, pos)
                } else {
                    match parse_expression(src, pos + 1, right_power) {
                        Err(e) => Err(e),
                        Ok((rhs, next)) => if pos < next <= src.tokens.len() {
                            parse_infix(
                                src,
                                ExpressionView::Infix {
                                    op,
                                    lhs: Box::new(lhs),
                                    rhs: Box::new(rhs),
                                },
                                next,
                                binding_power,
                            )
                        } else {
                            unexpected(src, pos)
                        },
                    }
                },
            },
        }
    }
}

/// The rest of an object literal behind its opening brace or behind a comma:
/// fields `name: value` with commas between them, and the closing brace.
pub open spec fn parse_object_fields(
    src: Source,
    pos: int,
    fields: Seq<(Seq<char>, ExpressionView)>,
) -> Parsed<ExpressionView>
    decreases left(src, pos), 4nat,
{
    if src.peek(pos) == TokenKind::CloseBrace {
        Ok((ExpressionView::Object { fields }, pos + 1))
    } else {
        match src.consume(pos, TokenKind::Identifier) {
            Err(e) => Err(e),
            Ok((_, colon)) => match src.consume(colon, TokenKind::Colon) {
                Err(e) => Err(e),
                Ok((_, start)) => match parse_expression(src, start, 0) {
                    Err(e) => Err(e),
                    Ok((value, next)) => {
                        let read = put_field(fields, src.text_at(pos), value);
                        if !(pos < next <= src.tokens.len()) {
                            unexpected(src, pos)
                        } else if src.peek(next) == TokenKind::Comma {
                            parse_object_fields(src, next + 1, read)
                        } else {
                            match src.consume(next, TokenKind::CloseBrace) {
                                Err(e) => Err(e),
                                Ok((_, after)) => Ok((ExpressionView::Object { fields: read }, after)),
                            }
                        }
                    },
                },
            },
        }
    }
}

/// The rest of a path `a.b.c` behind one of its names: dots with names.
pub open spec fn parse_object_access(src: Source, pos: int, path: Seq<Seq<char>>) -> Parsed<
    ExpressionView,
>
    decreases left(src, pos),
{
    if src.peek(pos) == TokenKind::Dot {
        match src.consume(pos + 1, TokenKind::Identifier) {
            Err(e) => Err(e),
            Ok((_, next)) => parse_object_access(src, next, path.push(src.text_at(pos + 1))),
        }
    } else {
        Ok((ExpressionView::ObjectAccess { path }, pos))
    }
}

/// An expression that begins with a name: `true`, `false`, a path, a call, or
/// a variable.
pub open spec fn parse_expression_identifier(src: Source, pos: int) -> Parsed<ExpressionView>
    decreases left(src, pos), 1nat,
{
    match src.consume(pos, TokenKind::Identifier) {
        Err(e) => Err(e),
        Ok((_, next)) => {
            let name = src.text_at(pos);
            if name == "true"@ {
                Ok((ExpressionView::Literal(LiteralView::Boolean(true)), next))
            } else if name == "false"@ {
                Ok((ExpressionView::Literal(LiteralView::Boolean(false)), next))
            } else if src.peek(next) == TokenKind::Dot {
                parse_object_access(src, next, seq![name])
            } else if src.peek(next) == TokenKind::OpenParen {
                parse_call_arguments(src, next + 1, name, Seq::empty(), false)
            } else {
                Ok((ExpressionView::Variable(name), next))
            }
        },
    }
}

/// The rest of a call behind its opening parenthesis or behind an argument:
/// arguments, with or without commas between them, and the closing
/// parenthesis; where the call is a statement, a semicolon too.
pub open spec fn parse_call_arguments(
    src: Source,
    pos: int,
    name: Seq<char>,
    args: Seq<ExpressionView>,
    is_statement: bool,
) -> Parsed<ExpressionView>
    decreases left(src, pos), 4nat,
{
    if src.peek(pos) == TokenKind::CloseParen {
        let call = ExpressionView::FunctionCall { name, args };
        if is_statement {
            match src.consume(pos + 1, TokenKind::EndOfLine) {
                Err(e) => Err(e),
                Ok((_, after)) => Ok((call, after)),
            }
        } else {
            Ok((call, pos + 1))
        }
    } else {
        match parse_expression(src, pos, 0) {
            Err(e) => Err(e),
            Ok((argument, next)) => if !(pos < next <= src.tokens.len()) {
                unexpected(src, pos)
            } else {
                parse_call_arguments(
                    src,
                    if src.peek(next) == TokenKind::Comma {
                        next + 1
                    } else {
                        next
                    },
                    name,
                    args.push(argument),
                    is_statement,
                )
            },
        }
    }
}

/// An expression and the semicolon behind it.
pub open spec fn parse_terminated(src: Source, pos: int) -> Parsed<ExpressionView> {
    match parse_expression(src, pos, 0) {
        Err(e) => Err(e),
        Ok((value, next)) => match src.consume(next, TokenKind::EndOfLine) {
            Err(e) => Err(e),
            Ok((_, after)) => Ok((value, after)),
        },
    }
}

/// The rest of `const`: a name, a type or none, `=`, a literal, `;`.
pub open spec fn parse_const(src: Source, pos: int) -> Parsed<StatementView> {
    match src.consume(pos, TokenKind::Identifier) {
        Err(e) => Err(e),
        Ok((_, next)) => match parse_type_annotation(src, next) {
            Err(e) => Err(e),
            Ok((type_annotation, assignment)) => match src.consume(
                assignment,
                TokenKind::Assignment,
            ) {
                Err(e) => Err(e),
                Ok((_, start)) => match parse_literal(src, start) {
                    Err(e) => Err(e),
                    Ok((value, end)) => match src.consume(end, TokenKind::EndOfLine) {
                        Err(e) => Err(e),
                        Ok((_, after)) => Ok(
                            (
                                StatementView::Const {
                                    name: src.text_at(pos),
                                    value,
                                    type_annotation,
                                },
                                after,
                            ),
                        ),
                    },
                },
            },
        },
    }
}

/// The rest of `let`: `mut` or not, a name, a type or none, `=`, an
/// expression, `;`.
pub open spec fn parse_let(src: Source, pos: int) -> Parsed<StatementView> {
    let is_mutable = src.is_word(pos, "mut"@);
    let at = if is_mutable {
        pos + 1
    } else {
        pos
    };
    match src.consume(at, TokenKind::Identifier) {
        Err(e) => Err(e),
        Ok((_, next)) => match parse_type_annotation(src, next) {
            Err(e) => Err(e),
            Ok((type_annotation, assignment)) => match src.consume(
                assignment,
                TokenKind::Assignment,
            ) {
                Err(e) => Err(e),
                Ok((_, start)) => match parse_terminated(src, start) {
                    Err(e) => Err(e),
                    Ok((value, after)) => Ok(
                        (
                            StatementView::Let {
                                name: src.text_at(at),
                                value: Box::new(value),
                                is_mutable,
                                type_annotation,
                            },
                            after,
                        ),
                    ),
                },
            },
        },
    }
}

/// The rest of an assignment behind the name: `=`, an expression, `;`.
pub open spec fn parse_let_mutation(src: Source, pos: int, name: Seq<char>) -> Parsed<
    StatementView,
> {
    match src.consume(pos, TokenKind::Assignment) {
        Err(e) => Err(e),
        Ok((_, start)) => match parse_terminated(src, start) {
            Err(e) => Err(e),
            Ok((value, after)) => Ok(
                (StatementView::Reassignment { name, value: Box::new(value) }, after),
            ),
        },
    }
}

/// The rest of an assignment to a field behind the first name: the path, `=`,
/// an expression, `;`.
pub open spec fn parse_object_mutation(src: Source, pos: int, first: Seq<char>) -> Parsed<
    StatementView,
> {
    match parse_object_access(src, pos, seq![first]) {
        Err(e) => Err(e),
        Ok((path, assignment)) => match src.consume(assignment, TokenKind::Assignment) {
            Err(e) => Err(e),
            Ok((_, start)) => match parse_terminated(src, start) {
                Err(e) => Err(e),
                Ok((value, after)) => Ok(
                    (StatementView::ObjectMutation { path, value: Box::new(value) }, after),
                ),
            },
        },
    }
}

/// The rest of `return`: an expression, `;`.
pub open spec fn parse_return(src: Source, pos: int) -> Parsed<StatementView> {
    match parse_terminated(src, pos) {
        Err(e) => Err(e),
        Ok((value, after)) => Ok((StatementView::Return(value), after)),
    }
}

/// The rest of `break`: `;`.
pub open spec fn parse_break(src: Source, pos: int) -> Parsed<StatementView> {
    match src.consume(pos, TokenKind::EndOfLine) {
        Err(e) => Err(e),
        Ok((_, after)) => Ok((StatementView::Break, after)),
    }
}

/// The parameters of a function up to the closing parenthesis: `name: type`,
/// with or without commas between them.
pub open spec fn parse_parameters(src: Source, pos: int, parameters: Seq<ParameterView>) -> Parsed<
    Seq<ParameterView>,
>
    decreases left(src, pos),
{
    if src.peek(pos) == TokenKind::CloseParen {
        Ok((parameters, pos))
    } else {
        match src.consume(pos, TokenKind::Identifier) {
            Err(e) => Err(e),
            Ok((_, colon)) => match src.consume(colon, TokenKind::Colon) {
                Err(e) => Err(e),
                Ok((_, named)) => match src.consume(named, TokenKind::Identifier) {
                    Err(e) => Err(e),
                    Ok((_, next)) => parse_parameters(
                        src,
                        if src.peek(next) == TokenKind::Comma {
                            next + 1
                        } else {
                            next
                        },
                        parameters.push(
                            ParameterView {
                                name: src.text_at(pos),
                                type_annotation: src.text_at(named),
                            },
                        ),
                    ),
                },
            },
        }
    }
}

/// The head of a function behind `fn`, up to the body: the name, the
/// parameters in parentheses, and `-> type` or nothing.
pub open spec fn parse_function_head(src: Source, pos: int) -> Parsed<
    (Seq<char>, Seq<ParameterView>, Option<Seq<char>>),
> {
    match src.consume(pos, TokenKind::Identifier) {
        Err(e) => Err(e),
        Ok((_, open)) => match src.consume(open, TokenKind::OpenParen) {
            Err(e) => Err(e),
            Ok((_, first)) => match parse_parameters(src, first, Seq::empty()) {
                Err(e) => Err(e),
                Ok((parameters, close)) => match src.consume(close, TokenKind::CloseParen) {
                    Err(e) => Err(e),
                    Ok((_, arrow)) => if src.peek(arrow) == TokenKind::Subtract {
                        match src.consume(arrow + 1, TokenKind::GreaterThan) {
                            Err(e) => Err(e),
                            Ok((_, named)) => match src.consume(named, TokenKind::Identifier) {
                                Err(e) => Err(e),
                                Ok((_, body)) => Ok(
                                    ((src.text_at(pos), parameters, Some(src.text_at(named))), body),
                                ),
                            },
                        }
                    } else {
                        Ok(((src.text_at(pos), parameters, None), arrow))
                    },
                },
            },
        },
    }
}

/// A statement.
pub open spec fn parse_statement(src: Source, pos: int) -> Parsed<StatementView>
    decreases left(src, pos), 6nat,
{
    let kind = src.peek(pos);
    if kind == TokenKind::Literal {
        match parse_terminated(src, pos) {
            Err(e) => Err(e),
            Ok((value, after)) => Ok((StatementView::Expression(value), after)),
        }
    } else if kind == TokenKind::Identifier {
        parse_statement_identifier(src, pos)
    } else if kind == TokenKind::OpenBrace {
        parse_block(src, pos)
    } else {
        unexpected(src, pos)
    }
}

/// A statement that begins with a name: one of the keywords, a call, an
/// assignment, or a lone variable.
pub open spec fn parse_statement_identifier(src: Source, pos: int) -> Parsed<StatementView>
    decreases left(src, pos), 5nat,
{
    match src.consume(pos, TokenKind::Identifier) {
        Err(e) => Err(e),
        Ok((_, next)) => {
            let word = src.text_at(pos);
            if word == "let"@ {
                parse_let(src, next)
            } else if word == "const"@ {
                parse_const(src, next)
            } else if word == "fn"@ {
                parse_function(src, next)
            } else if word == "if"@ {
                parse_if_statement(src, next)
            } else if word == "return"@ {
                parse_return(src, next)
            } else if word == "loop"@ {
                match parse_block(src, next) {
                    Err(e) => Err(e),
                    Ok((body, after)) => Ok((StatementView::Loop { body: Box::new(body) }, after)),
                }
            } else if word == "break"@ {
                parse_break(src, next)
            } else if src.peek(next) == TokenKind::OpenParen {
                match parse_call_arguments(src, next + 1, word, Seq::empty(), true) {
                    Err(e) => Err(e),
                    Ok((call, after)) => Ok((StatementView::Expression(call), after)),
                }
            } else if src.peek(next) == TokenKind::Dot {
                parse_object_mutation(src, next, word)
            } else if src.peek(next) == TokenKind::Assignment {
                parse_let_mutation(src, next, word)
            } else {
                Ok((StatementView::Expression(ExpressionView::Variable(word)), next))
            }
        },
    }
}

/// The rest of a function declaration behind `fn`.
pub open spec fn parse_function(src: Source, pos: int) -> Parsed<StatementView>
    decreases left(src, pos), 4nat,
{
    match parse_function_head(src, pos) {
        Err(e) => Err(e),
        Ok(((name, parameters, return_type_name), body)) => if !(pos < body) {
            unexpected(src, pos)
        } else {
            match parse_block(src, body) {
                Err(e) => Err(e),
                Ok((block, after)) => Ok(
                    (
                        StatementView::Function(
                            DeclarationView {
                                name,
                                parameters,
                                body: Box::new(block),
                                return_type_name,
                            },
                        ),
                        after,
                    ),
                ),
            }
        },
    }
}

/// A block: statements in braces.
pub open spec fn parse_block(src: Source, pos: int) -> Parsed<StatementView>
    decreases left(src, pos), 4nat,
{
    match src.consume(pos, TokenKind::OpenBrace) {
        Err(e) => Err(e),
        Ok((_, first)) => parse_block_statements(src, first, Seq::empty()),
    }
}

/// The rest of a block behind its opening brace or behind a statement.
pub open spec fn parse_block_statements(src: Source, pos: int, body: Seq<StatementView>) -> Parsed<
    StatementView,
>
    decreases left(src, pos), 7nat,
{
    if src.peek(pos) == TokenKind::CloseBrace {
        Ok((StatementView::Block { body }, pos + 1))
    } else {
        match parse_statement(src, pos) {
            Err(e) => Err(e),
            Ok((statement, next)) => if !(pos < next <= src.tokens.len()) {
                unexpected(src, pos)
            } else {
                parse_block_statements(src, next, body.push(statement))
            },
        }
    }
}

/// The rest of `if`: a condition, a block, and `else` with another `if` or a
/// block, or nothing.
pub open spec fn parse_if_statement(src: Source, pos: int) -> Parsed<StatementView>
    decreases left(src, pos), 5nat,
{
    match parse_expression(src, pos, 0) {
        Err(e) => Err(e),
        Ok((condition, open)) => if !(pos < open <= src.tokens.len()) {
            unexpected(src, pos)
        } else {
            match parse_block(src, open) {
                Err(e) => Err(e),
                Ok((body, next)) => if !(open < next <= src.tokens.len()) {
                    unexpected(src, pos)
                } else if src.is_word(next, "else"@) {
                    match if src.is_word(next + 1, "if"@) {
                        parse_if_statement(src, next + 2)
                    } else {
                        parse_block(src, next + 1)
                    } {
                        Err(e) => Err(e),
                        Ok((otherwise, after)) => Ok(
                            (
                                StatementView::If {
                                    condition: Box::new(condition),
                                    body: Box::new(body),
                                    else_statement: Some(Box::new(otherwise)),
                                },
                                after,
                            ),
                        ),
                    }
                } else {
                    Ok(
                        (
                            StatementView::If {
                                condition: Box::new(condition),
                                body: Box::new(body),
                                else_statement: None,
                            },
                            next,
                        ),
                    )
                },
            }
        },
    }
}

/// The next statement of a program: statements begin with a name or are
/// blocks. `None` where the program ends: with the tokens, or at a semicolon
/// that stands between statements.
pub open spec fn next_statement(src: Source, pos: int) -> Option<Parsed<StatementView>> {
    let kind = src.peek(pos);
    if kind == TokenKind::EndOfFile || kind == TokenKind::EndOfLine {
        None
    } else if kind == TokenKind::Identifier || kind == TokenKind::OpenBrace {
        Some(parse_statement(src, pos))
    } else {
        Some(unexpected(src, pos))
    }
}

/// The statements of a program from `pos` on, up to its end or to the first
/// error.
pub open spec fn parse_program(src: Source, pos: int, statements: Seq<StatementView>) -> Result<
    Seq<StatementView>,
    ParserError,
>
    decreases left(src, pos),
{
    match next_statement(src, pos) {
        None => Ok(statements),
        Some(Err(e)) => Err(e),
        Some(Ok((statement, next))) => if !(pos < next <= src.tokens.len()) {
            Ok(statements.push(statement))
        } else {
            parse_program(src, next, statements.push(statement))
        },
    }
}

} // verus!
