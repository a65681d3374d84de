//! What holds of every parse.

use crate::ast::{ExpressionView, ParameterView, StatementView};
use crate::lexer::TokenKind;
use crate::parser::model::{
    left, next_statement, parse_block, parse_block_statements, parse_break,
    parse_call_arguments, parse_const, parse_expression, parse_expression_identifier,
    parse_function, parse_function_head, parse_if_statement, parse_infix, parse_let,
    parse_let_mutation, parse_literal, parse_object_access, parse_object_fields,
    parse_object_mutation, parse_operand, parse_parameters, parse_return, parse_statement,
    parse_statement_identifier, parse_terminated, parse_type_annotation, Parsed, Source,
};
use vstd::prelude::*;

verus! {

/// Whether a rule that succeeded took at least one token and stayed inside
/// the tokens.
pub open spec fn advanced<T>(src: Source, pos: int, parsed: Parsed<T>) -> bool {
    parsed matches Ok((_, next)) ==> pos < next <= src.tokens.len()
}

/// Whether a rule that succeeded did not go back, and stayed inside the tokens
/// where it started inside them.
pub open spec fn reached<T>(src: Source, pos: int, parsed: Parsed<T>) -> bool {
    parsed matches Ok((_, next)) ==> pos <= next && (pos <= src.tokens.len() ==> next
        <= src.tokens.len())
}

/// The rules that do not call themselves take tokens and stay inside them.
pub proof fn lemma_simple_rules_advance(src: Source, pos: int, kind: TokenKind)
    ensures
        advanced(src, pos, src.consume(pos, kind)),
        advanced(src, pos, parse_literal(src, pos)),
        advanced(src, pos, parse_break(src, pos)),
        reached(src, pos, parse_type_annotation(src, pos)),
{
}

/// A path goes on from where it starts.
pub proof fn lemma_object_access_reaches(src: Source, pos: int, path: Seq<Seq<char>>)
    ensures
        reached(src, pos, parse_object_access(src, pos, path)),
    decreases left(src, pos),
{
    if src.peek(pos) == TokenKind::Dot {
        match src.consume(pos + 1, TokenKind::Identifier) {
            Ok((_, next)) => {
                lemma_object_access_reaches(src, next, path.push(src.text_at(pos + 1)));
            },
            Err(_) => {},
        }
    }
}

/// Parameters go on from where they start.
pub proof fn lemma_parameters_reach(src: Source, pos: int, parameters: Seq<ParameterView>)
    ensures
        reached(src, pos, parse_parameters(src, pos, parameters)),
    decreases left(src, pos),
{
    if src.peek(pos) != TokenKind::CloseParen {
        match src.consume(pos, TokenKind::Identifier) {
            Ok((_, colon)) => match src.consume(colon, TokenKind::Colon) {
                Ok((_, named)) => match src.consume(named, TokenKind::Identifier) {
                    Ok((_, next)) => {
                        lemma_parameters_reach(
                            src,
                            if src.peek(next) == TokenKind::Comma {
                                next + 1
                            } else {
                                next
                            },
                            parameters.push(
                                ParameterView {
                                    name: src.text_at(pos),
                                    type_annotation: src.text_at(named),
                                },
                            ),
                        );
                    },
                    Err(_) => {},
                },
                Err(_) => {},
            },
            Err(_) => {},
        }
    }
}

/// The head of a function takes tokens.
pub proof fn lemma_function_head_advances(src: Source, pos: int)
    ensures
        advanced(src, pos, parse_function_head(src, pos)),
{
    match src.consume(pos, TokenKind::Identifier) {
        Ok((_, open)) => match src.consume(open, TokenKind::OpenParen) {
            Ok((_, first)) => {
                lemma_parameters_reach(src, first, Seq::empty());
            },
            Err(_) => {},
        },
        Err(_) => {},
    }
}

/// An expression takes at least one token and stays inside the tokens, and so
/// does every rule for a part of an expression.
pub proof fn lemma_expression_advances(src: Source, pos: int, binding_power: u8)
    ensures
        advanced(src, pos, parse_expression(src, pos, binding_power)),
    decreases left(src, pos), 3nat,
{
    lemma_operand_advances(src, pos);
    match parse_operand(src, pos) {
        Ok((lhs, next)) => {
            if pos < next <= src.tokens.len() {
                lemma_infix_reaches(src, lhs, next, binding_power);
            }
        },
        Err(_) => {},
    }
}

/// An operand takes at least one token.
pub proof fn lemma_operand_advances(src: Source, pos: int)
    ensures
        advanced(src, pos, parse_operand(src, pos)),
    decreases left(src, pos), 2nat,
{
    let kind = src.peek(pos);
    if 0 <= pos < src.tokens.len() {
        if kind == TokenKind::OpenBrace {
            lemma_object_fields_advance(src, pos + 1, Seq::empty());
        } else if kind == TokenKind::Identifier {
            lemma_expression_identifier_advances(src, pos);
        } else if kind == TokenKind::OpenParen {
            lemma_expression_advances(src, pos + 1, 0);
        } else if crate::parser::model::prefix_operator(kind) is Some {
            lemma_expression_advances(src, pos + 1, 51);
        }
    }
}

/// The operators behind an operand go on from where they start.
pub proof fn lemma_infix_reaches(src: Source, lhs: ExpressionView, pos: int, binding_power: u8)
    requires
        0 <= pos <= src.tokens.len(),
    ensures
        reached(src, pos, parse_infix(src, lhs, pos, binding_power)),
    decreases left(src, pos), 0nat,
{
    let kind = src.peek(pos);
    if !crate::parser::model::ends_expression(kind) {
        match crate::parser::model::infix_operator(kind) {
            Some(op) => match op.infix_power() {
                Some((left_power, right_power)) => {
                    if left_power >= binding_power && 0 <= pos < src.tokens.len() {
                        lemma_expression_advances(src, pos + 1, right_power);
                        match parse_expression(src, pos + 1, right_power) {
                            Ok((rhs, next)) => {
                                if pos < next <= src.tokens.len() {
                                    lemma_infix_reaches(
                                        src,
                                        ExpressionView::Infix {
                                            op,
                                            lhs: Box::new(lhs),
                                            rhs: Box::new(rhs),
                                        },
                                        next,
                                        binding_power,
                                    );
                                }
                            },
                            Err(_) => {},
                        }
                    }
                },
                None => {},
            },
            None => {},
        }
    }
}

/// The rest of an object literal takes at least its closing brace.
pub proof fn lemma_object_fields_advance(
    src: Source,
    pos: int,
    fields: Seq<(Seq<char>, ExpressionView)>,
)
    requires
        0 <= pos,
    ensures
        advanced(src, pos, parse_object_fields(src, pos, fields)),
    decreases left(src, pos), 4nat,
{
    if src.peek(pos) != TokenKind::CloseBrace {
        match src.consume(pos, TokenKind::Identifier) {
            Ok((_, colon)) => match src.consume(colon, TokenKind::Colon) {
                Ok((_, start)) => {
                    lemma_expression_advances(src, start, 0);
                    match parse_expression(src, start, 0) {
                        Ok((value, next)) => {
                            let read = crate::parser::model::put_field(
                                fields,
                                src.text_at(pos),
                                value,
                            );
                            if pos < next <= src.tokens.len() && src.peek(next)
                                == TokenKind::Comma {
                                lemma_object_fields_advance(src, next + 1, read);
                            }
                        },
                        Err(_) => {},
                    }
                },
                Err(_) => {},
            },
            Err(_) => {},
        }
    }
}

/// An expression that begins with a name takes at least the name.
pub proof fn lemma_expression_identifier_advances(src: Source, pos: int)
    ensures
        advanced(src, pos, parse_expression_identifier(src, pos)),
    decreases left(src, pos), 1nat,
{
    match src.consume(pos, TokenKind::Identifier) {
        Ok((_, next)) => {
            let name = src.text_at(pos);
            if name != "true"@ && name != "false"@ {
                if src.peek(next) == TokenKind::Dot {
                    lemma_object_access_reaches(src, next, seq![name]);
                } else if src.peek(next) == TokenKind::OpenParen {
                    lemma_call_arguments_advance(src, next + 1, name, Seq::empty(), false);
                }
            }
        },
        Err(_) => {},
    }
}

/// The rest of a call takes at least its closing parenthesis.
pub proof fn lemma_call_arguments_advance(
    src: Source,
    pos: int,
    name: Seq<char>,
    args: Seq<ExpressionView>,
    is_statement: bool,
)
    requires
        0 <= pos,
    ensures
        advanced(src, pos, parse_call_arguments(src, pos, name, args, is_statement)),
    decreases left(src, pos), 4nat,
{
    if src.peek(pos) != TokenKind::CloseParen {
        lemma_expression_advances(src, pos, 0);
        match parse_expression(src, pos, 0) {
            Ok((argument, next)) => {
                if pos < next <= src.tokens.len() {
                    lemma_call_arguments_advance(
                        src,
                        if src.peek(next) == TokenKind::Comma {
                            next + 1
                        } else {
                            next
                        },
                        name,
                        args.push(argument),
                        is_statement,
                    );
                }
            },
            Err(_) => {},
        }
    }
}

/// The statements that hold an expression and no block take tokens.
pub proof fn lemma_plain_statements_advance(src: Source, pos: int, name: Seq<char>)
    requires
        0 <= pos,
    ensures
        advanced(src, pos, parse_terminated(src, pos)),
        advanced(src, pos, parse_const(src, pos)),
        advanced(src, pos, parse_let(src, pos)),
        advanced(src, pos, parse_let_mutation(src, pos, name)),
        advanced(src, pos, parse_object_mutation(src, pos, name)),
        advanced(src, pos, parse_return(src, pos)),
{
    lemma_expression_advances(src, pos, 0);
    match src.consume(pos, TokenKind::Identifier) {
        Ok((_, next)) => match parse_type_annotation(src, next) {
            Ok((_, assignment)) => match src.consume(assignment, TokenKind::Assignment) {
                Ok((_, start)) => {
                    lemma_expression_advances(src, start, 0);
                },
                Err(_) => {},
            },
            Err(_) => {},
        },
        Err(_) => {},
    }
    match src.consume(pos + 1, TokenKind::Identifier) {
        Ok((_, next)) => match parse_type_annotation(src, next) {
            Ok((_, assignment)) => match src.consume(assignment, TokenKind::Assignment) {
                Ok((_, start)) => {
                    lemma_expression_advances(src, start, 0);
                },
                Err(_) => {},
            },
            Err(_) => {},
        },
        Err(_) => {},
    }
    match src.consume(pos, TokenKind::Assignment) {
        Ok((_, start)) => {
            lemma_expression_advances(src, start, 0);
        },
        Err(_) => {},
    }
    lemma_object_access_reaches(src, pos, seq![name]);
    match parse_object_access(src, pos, seq![name]) {
        Ok((_, assignment)) => match src.consume(assignment, TokenKind::Assignment) {
            Ok((_, start)) => {
                lemma_expression_advances(src, start, 0);
            },
            Err(_) => {},
        },
        Err(_) => {},
    }
}

/// A statement takes at least one token and stays inside the tokens.
pub proof fn lemma_statement_advances(src: Source, pos: int)
    requires
        0 <= pos,
    ensures
        advanced(src, pos, parse_statement(src, pos)),
    decreases left(src, pos), 6nat,
{
    let kind = src.peek(pos);
    if kind == TokenKind::Literal {
        lemma_plain_statements_advance(src, pos, Seq::empty());
    } else if kind == TokenKind::Identifier {
        lemma_statement_identifier_advances(src, pos);
    } else if kind == TokenKind::OpenBrace {
        lemma_block_advances(src, pos);
    }
}

/// A statement that begins with a name takes at least the name.
pub proof fn lemma_statement_identifier_advances(src: Source, pos: int)
    requires
        0 <= pos,
    ensures
        advanced(src, pos, parse_statement_identifier(src, pos)),
    decreases left(src, pos), 5nat,
{
    match src.consume(pos, TokenKind::Identifier) {
        Ok((_, next)) => {
            let word = src.text_at(pos);
            lemma_plain_statements_advance(src, next, word);
            if word == "fn"@ {
                lemma_function_advances(src, next);
            } else if word == "if"@ {
                lemma_if_statement_advances(src, next);
            } else if word == "loop"@ {
                lemma_block_advances(src, next);
            } else if src.peek(next) == TokenKind::OpenParen {
                lemma_call_arguments_advance(src, next + 1, word, Seq::empty(), true);
            }
        },
        Err(_) => {},
    }
}

/// A function declaration takes tokens.
pub proof fn lemma_function_advances(src: Source, pos: int)
    requires
        0 <= pos,
    ensures
        advanced(src, pos, parse_function(src, pos)),
    decreases left(src, pos), 4nat,
{
    lemma_function_head_advances(src, pos);
    match parse_function_head(src, pos) {
        Ok((_, body)) => {
            if pos < body {
                lemma_block_advances(src, body);
            }
        },
        Err(_) => {},
    }
}

/// A block takes at least its braces.
pub proof fn lemma_block_advances(src: Source, pos: int)
    requires
        0 <= pos,
    ensures
        advanced(src, pos, parse_block(src, pos)),
    decreases left(src, pos), 4nat,
{
    match src.consume(pos, TokenKind::OpenBrace) {
        Ok((_, first)) => {
            lemma_block_statements_advance(src, first, Seq::empty());
        },
        Err(_) => {},
    }
}

/// The rest of a block takes at least its closing brace.
pub proof fn lemma_block_statements_advance(src: Source, pos: int, body: Seq<StatementView>)
    requires
        0 <= pos,
    ensures
        advanced(src, pos, parse_block_statements(src, pos, body)),
    decreases left(src, pos), 7nat,
{
    if src.peek(pos) != TokenKind::CloseBrace {
        lemma_statement_advances(src, pos);
        match parse_statement(src, pos) {
            Ok((statement, next)) => {
                if pos < next <= src.tokens.len() {
                    lemma_block_statements_advance(src, next, body.push(statement));
                }
            },
            Err(_) => {},
        }
    }
}

/// The rest of an `if` takes tokens.
pub proof fn lemma_if_statement_advances(src: Source, pos: int)
    requires
        0 <= pos,
    ensures
        advanced(src, pos, parse_if_statement(src, pos)),
    decreases left(src, pos), 5nat,
{
    lemma_expression_advances(src, pos, 0);
    match parse_expression(src, pos, 0) {
        Ok((condition, open)) => {
            if pos < open <= src.tokens.len() {
                lemma_block_advances(src, open);
                match parse_block(src, open) {
                    Ok((body, next)) => {
                        if open < next <= src.tokens.len() && src.is_word(next, "else"@) {
                            if src.is_word(next + 1, "if"@) {
                                lemma_if_statement_advances(src, next + 2);
                            } else {
                                lemma_block_advances(src, next + 1);
                            }
                        }
                    },
                    Err(_) => {},
                }
            }
        },
        Err(_) => {},
    }
}

/// Every statement of a program takes at least one token and stays inside the
/// tokens: the parser always comes to an end.
pub proof fn lemma_next_statement_advances(src: Source, pos: int)
    requires
        0 <= pos,
    ensures
        next_statement(src, pos) matches Some(parsed) ==> advanced(src, pos, parsed),
{
    lemma_statement_advances(src, pos);
}

} // verus!
