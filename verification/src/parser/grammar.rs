//! The grammar of the language, as functions from a token sequence and a
//! position to what stands there.
//!
//! Each function says what one construct of the language is: which tree it
//! yields, where the construct ends, and which error is reported when the
//! tokens are not that construct. The parser is proved to compute exactly
//! these functions.

use super::ast::{
    is_unary, operator_of, precedence, ContainerFunctionModel, DeclarationModel,
    EnumVariantModel, ExpressionModel, InterfaceFunctionModel, Operator, StatementModel,
    TypeModel,
};
use super::error::Error;
use super::token::Token;
use crate::util::text::{comes_before, lemma_before_chain, lemma_one_before};
use vstd::prelude::*;

verus! {

/// One token with the text it was read from and the positions in the
/// source, counted in bytes, at which it begins and ends.
pub struct Lexed {
    pub token: Token,
    pub text: Seq<char>,
    pub start: usize,
    pub end: usize,
}

/// What a construct without statements yields: its tree and the position of
/// the token after it.
pub struct Step<T> {
    pub value: T,
    pub pos: int,
}

/// What a construct with statements yields: its tree, the position of the
/// token after it, and the slots of the enclosing conditional expressions.
pub struct Parsed<T> {
    pub value: T,
    pub pos: int,
    pub yields: Seq<Option<ExpressionModel>>,
}

/// An item of the output queue of the expression parser.
pub enum OutputModel {
    Expression(ExpressionModel),
    Operator(Operator),
}

/// The stacks of the expression parser between two tokens. The top of the
/// operator stack is its last element.
pub struct Shunting {
    pub operators: Seq<Operator>,
    pub output: Seq<OutputModel>,
    pub open_parens: int,
    pub last: Option<Token>,
}

/// The token at `pos`, if there is one.
pub open spec fn token_at(tokens: Seq<Lexed>, pos: int) -> Option<Token> {
    if 0 <= pos < tokens.len() {
        Some(tokens[pos].token)
    } else {
        None
    }
}

/// The text of the token at `pos`.
pub open spec fn text_at(tokens: Seq<Lexed>, pos: int) -> Seq<char> {
    tokens[pos].text
}

/// Whether a construct that began at `from` ended at a later position inside
/// the token sequence.
pub open spec fn advanced(tokens: Seq<Lexed>, from: int, to: int) -> bool {
    from < to <= tokens.len()
}

/// The value of a sequence of decimal digits.
pub open spec fn decimal_value(digits: Seq<char>) -> int
    decreases digits.len(),
{
    if digits.len() == 0 {
        0
    } else {
        decimal_value(digits.drop_last()) * 10 + (digits.last() as int - '0' as int)
    }
}

/// Whether every character is a decimal digit.
pub open spec fn all_digits(text: Seq<char>) -> bool {
    forall|i: int| 0 <= i < text.len() ==> '0' <= #[trigger] text[i] <= '9'
}

/// The text between the first and the last character.
pub open spec fn unquoted(text: Seq<char>) -> Seq<char> {
    if text.len() >= 2 {
        text.subrange(1, text.len() - 1)
    } else {
        Seq::empty()
    }
}

// ---------------------------------------------------------------- types

/// The type that begins at `pos`.
pub open spec fn type_at(tokens: Seq<Lexed>, pos: int) -> Result<Step<TypeModel>, Error>
    decreases tokens.len() - pos, 0int,
{
    match token_at(tokens, pos) {
        None => Err(Error::Unknown),
        Some(Token::OpenParan) => match token_at(tokens, pos + 1) {
            None => Err(Error::Unknown),
            Some(Token::CloseParan) => Ok(
                Step { value: TypeModel::Tuple(Seq::empty()), pos: pos + 2 },
            ),
            Some(_) => match tuple_items(tokens, pos + 1, Seq::empty()) {
                Ok(items) => Ok(Step { value: TypeModel::Tuple(items.value), pos: items.pos }),
                Err(error) => Err(error),
            },
        },
        Some(Token::Ref) => match type_at(tokens, pos + 1) {
            Ok(inner) => Ok(Step { value: TypeModel::Ref(Box::new(inner.value)), pos: inner.pos }),
            Err(error) => Err(error),
        },
        Some(Token::Identifier) => Ok(
            Step { value: TypeModel::Named(text_at(tokens, pos)), pos: pos + 1 },
        ),
        Some(Token::PrimitiveType) => {
            let text = text_at(tokens, pos);
            if text == "int"@ {
                Ok(Step { value: TypeModel::Int, pos: pos + 1 })
            } else if text == "float"@ {
                Ok(Step { value: TypeModel::Float, pos: pos + 1 })
            } else if text == "bool"@ {
                Ok(Step { value: TypeModel::Bool, pos: pos + 1 })
            } else if text == "string"@ {
                Ok(Step { value: TypeModel::Str, pos: pos + 1 })
            } else {
                Err(Error::ExpectedType)
            }
        },
        Some(_) => Err(Error::ExpectedType),
    }
}

/// The items of a tuple type from `pos` on, after the items in `items`. A
/// comma or the closing parenthesis follows each item.
pub open spec fn tuple_items(tokens: Seq<Lexed>, pos: int, items: Seq<TypeModel>) -> Result<
    Step<Seq<TypeModel>>,
    Error,
>
    decreases tokens.len() - pos, 1int,
{
    if !(0 <= pos < tokens.len()) {
        Err(Error::Unknown)
    } else {
        match type_at(tokens, pos) {
            Err(error) => Err(error),
            Ok(item) => if !advanced(tokens, pos, item.pos) {
                Err(Error::Unknown)
            } else {
                match token_at(tokens, item.pos) {
                    None => Err(Error::Unknown),
                    Some(Token::Comma) => tuple_items(tokens, item.pos + 1, items.push(item.value)),
                    Some(Token::CloseParan) => Ok(
                        Step { value: items.push(item.value), pos: item.pos + 1 },
                    ),
                    Some(_) => Err(Error::ExpectedType),
                }
            },
        }
    }
}

// ---------------------------------------------------------- expressions

/// The stacks before the first token of an expression.
pub open spec fn shunting_start() -> Shunting {
    Shunting { operators: Seq::empty(), output: Seq::empty(), open_parens: 0, last: None }
}

/// Whether the token before an operator makes a `+` or `-` a sign: there is
/// none, or it is an operator itself.
pub open spec fn follows_operator(last: Option<Token>) -> bool {
    match last {
        None => true,
        Some(token) => operator_of(token) is Some,
    }
}

/// An operator that follows another operator, other than `=`, while
/// operators are pending must be a sign.
pub open spec fn reclassified(state: Shunting, op: Operator) -> Result<Operator, Error> {
    if state.operators.len() > 0 && state.last is Some && operator_of(state.last->0) is Some
        && operator_of(state.last->0) != Some(Operator::Assign) {
        match op {
            Operator::Minus => Ok(Operator::Neg),
            Operator::Plus => Ok(Operator::Pos),
            _ => Err(Error::Unknown),
        }
    } else {
        Ok(op)
    }
}

/// Moves the pending operators that bind tighter than `op` to the output.
pub open spec fn unwound(operators: Seq<Operator>, output: Seq<OutputModel>, op: Operator) -> (
    Seq<Operator>,
    Seq<OutputModel>,
)
    decreases operators.len(),
{
    if operators.len() > 0 && precedence(operators.last()) > precedence(op) {
        unwound(operators.drop_last(), output.push(OutputModel::Operator(operators.last())), op)
    } else {
        (operators, output)
    }
}

/// The operator that is pushed for `op`: a `+` or `-` that follows an
/// operator, or nothing, is a sign.
pub open spec fn pushed_operator(last: Option<Token>, op: Operator) -> Operator {
    match op {
        Operator::Plus => if follows_operator(last) {
            Operator::Pos
        } else {
            Operator::Plus
        },
        Operator::Minus => if follows_operator(last) {
            Operator::Neg
        } else {
            Operator::Minus
        },
        _ => op,
    }
}

/// The stacks after an operator other than a parenthesis.
pub open spec fn after_operator(state: Shunting, op: Operator) -> Result<Shunting, Error> {
    match reclassified(state, op) {
        Err(error) => Err(error),
        Ok(op) => {
            let (operators, output) = unwound(state.operators, state.output, op);
            Ok(
                Shunting {
                    operators: operators.push(pushed_operator(state.last, op)),
                    output,
                    open_parens: state.open_parens,
                    last: state.last,
                },
            )
        },
    }
}

/// Moves the pending operators down to the nearest `(` to the output and
/// drops that `(`. An error when there is none.
pub open spec fn group_closed(operators: Seq<Operator>, output: Seq<OutputModel>) -> Result<
    (Seq<Operator>, Seq<OutputModel>),
    Error,
>
    decreases operators.len(),
{
    if operators.len() == 0 {
        Err(Error::Unknown)
    } else if operators.last() == Operator::OpenParan {
        Ok((operators.drop_last(), output))
    } else {
        group_closed(operators.drop_last(), output.push(OutputModel::Operator(operators.last())))
    }
}

/// The output queue with the pending operators behind it, the top first.
pub open spec fn flushed(operators: Seq<Operator>, output: Seq<OutputModel>) -> Seq<OutputModel>
    decreases operators.len(),
{
    if operators.len() == 0 {
        output
    } else {
        flushed(operators.drop_last(), output.push(OutputModel::Operator(operators.last())))
    }
}

/// The tree that an output queue in postfix order stands for, given the
/// operands in `stack` (the top is its last element). A queue that does not
/// leave exactly one tree is a malformed expression.
pub open spec fn reduced(output: Seq<OutputModel>, stack: Seq<ExpressionModel>) -> Result<
    ExpressionModel,
    Error,
>
    decreases output.len(),
{
    if output.len() == 0 {
        if stack.len() == 1 {
            Ok(stack[0])
        } else {
            Err(Error::MalformedExpression)
        }
    } else {
        match output[0] {
            OutputModel::Expression(expression) => reduced(
                output.skip(1),
                stack.push(expression),
            ),
            OutputModel::Operator(op) => if is_unary(op) {
                if stack.len() < 1 {
                    Err(Error::MalformedExpression)
                } else {
                    reduced(
                        output.skip(1),
                        stack.drop_last().push(ExpressionModel::Unary(op, Box::new(stack.last()))),
                    )
                }
            } else {
                if stack.len() < 2 {
                    Err(Error::MalformedExpression)
                } else {
                    reduced(
                        output.skip(1),
                        stack.drop_last().drop_last().push(
                            ExpressionModel::Binary(
                                Box::new(stack[stack.len() - 2]),
                                op,
                                Box::new(stack.last()),
                            ),
                        ),
                    )
                }
            },
        }
    }
}

/// The delimiters of a call argument.
pub open spec fn argument_delimiters() -> Seq<Token> {
    seq![Token::Comma, Token::CloseParan]
}

/// The delimiter of a block.
pub open spec fn block_delimiters() -> Seq<Token> {
    seq![Token::CloseBlock]
}

/// The slots after a `yield` of `value`: the innermost slot takes the first
/// value that is yielded to it.
pub open spec fn yielded(yields: Seq<Option<ExpressionModel>>, value: ExpressionModel) -> Seq<
    Option<ExpressionModel>,
> {
    if yields.len() > 0 && yields.last() is None {
        yields.update(yields.len() - 1, Some(value))
    } else {
        yields
    }
}

/// The expression that begins at `pos` and ends with one of `delimiters`, or
/// with a `)` that closes no group of the expression, or with the tokens.
pub open spec fn expression_at(
    tokens: Seq<Lexed>,
    pos: int,
    yields: Seq<Option<ExpressionModel>>,
    delimiters: Seq<Token>,
) -> Result<Parsed<ExpressionModel>, Error>
    decreases tokens.len() - pos, 9int,
{
    match token_at(tokens, pos) {
        None => Err(Error::Unknown),
        Some(Token::On) => condition_expression_at(tokens, pos, yields),
        Some(_) => match shunted(tokens, pos, yields, delimiters, shunting_start()) {
            Err(error) => Err(error),
            Ok(end) => match reduced(
                flushed(end.value.operators, end.value.output),
                Seq::empty(),
            ) {
                Err(error) => Err(error),
                Ok(expression) => Ok(
                    Parsed { value: expression, pos: end.pos, yields: end.yields },
                ),
            },
        },
    }
}

/// The stacks at the end of the expression, when they are `state` before the
/// token at `pos`.
pub open spec fn shunted(
    tokens: Seq<Lexed>,
    pos: int,
    yields: Seq<Option<ExpressionModel>>,
    delimiters: Seq<Token>,
    state: Shunting,
) -> Result<Parsed<Shunting>, Error>
    decreases tokens.len() - pos, 8int,
{
    match token_at(tokens, pos) {
        None => Ok(Parsed { value: state, pos, yields }),
        Some(token) => if delimiters.contains(token) || (token == Token::CloseParan
            && state.open_parens == 0) {
            Ok(Parsed { value: state, pos: pos + 1, yields })
        } else {
            match operator_of(token) {
                Some(Operator::OpenParan) => shunted(
                    tokens,
                    pos + 1,
                    yields,
                    delimiters,
                    Shunting {
                        operators: state.operators.push(Operator::OpenParan),
                        output: state.output,
                        open_parens: state.open_parens + 1,
                        last: Some(token),
                    },
                ),
                Some(Operator::CloseParan) => match group_closed(state.operators, state.output) {
                    Err(error) => Err(error),
                    Ok((operators, output)) => shunted(
                        tokens,
                        pos + 1,
                        yields,
                        delimiters,
                        Shunting {
                            operators,
                            output,
                            open_parens: state.open_parens - 1,
                            last: Some(token),
                        },
                    ),
                },
                Some(op) => match after_operator(state, op) {
                    Err(error) => Err(error),
                    Ok(next) => shunted(
                        tokens,
                        pos + 1,
                        yields,
                        delimiters,
                        Shunting { last: Some(token), ..next },
                    ),
                },
                None => match operand_at(tokens, pos, yields) {
                    Err(error) => Err(error),
                    Ok(operand) => if !(pos <= operand.pos < tokens.len()) {
                        Err(Error::Unknown)
                    } else {
                        shunted(
                            tokens,
                            operand.pos + 1,
                            operand.yields,
                            delimiters,
                            Shunting {
                                operators: state.operators,
                                output: state.output.push(OutputModel::Expression(operand.value)),
                                open_parens: state.open_parens,
                                last: token_at(tokens, operand.pos),
                            },
                        )
                    },
                },
            }
        },
    }
}

/// The operand that begins at `pos`. The position of the result is that of
/// the last token of the operand.
pub open spec fn operand_at(
    tokens: Seq<Lexed>,
    pos: int,
    yields: Seq<Option<ExpressionModel>>,
) -> Result<Parsed<ExpressionModel>, Error>
    decreases tokens.len() - pos, 7int,
{
    match token_at(tokens, pos) {
        Some(Token::IntLiteral) => {
            let text = text_at(tokens, pos);
            if all_digits(text) && decimal_value(text) <= i64::MAX {
                Ok(
                    Parsed {
                        value: ExpressionModel::IntLiteral(decimal_value(text) as i64),
                        pos,
                        yields,
                    },
                )
            } else {
                Err(Error::Unknown)
            }
        },
        Some(Token::FloatLiteral) => Ok(
            Parsed { value: ExpressionModel::FloatLiteral(text_at(tokens, pos)), pos, yields },
        ),
        Some(Token::BoolLiteral) => {
            let text = text_at(tokens, pos);
            if text == "true"@ {
                Ok(Parsed { value: ExpressionModel::BoolLiteral(true), pos, yields })
            } else if text == "false"@ {
                Ok(Parsed { value: ExpressionModel::BoolLiteral(false), pos, yields })
            } else {
                Err(Error::Unknown)
            }
        },
        Some(Token::StringLiteral) => Ok(
            Parsed {
                value: ExpressionModel::StringLiteral(unquoted(text_at(tokens, pos))),
                pos,
                yields,
            },
        ),
        Some(Token::Identifier) => match call_at(tokens, pos, yields) {
            Ok(call) => Ok(call),
            Err(_) => Ok(
                Parsed { value: ExpressionModel::Variable(text_at(tokens, pos)), pos, yields },
            ),
        },
        _ => Err(Error::Unknown),
    }
}

/// The call that begins with the identifier at `pos`. The position of the
/// result is that of the token that ended the last argument.
pub open spec fn call_at(
    tokens: Seq<Lexed>,
    pos: int,
    yields: Seq<Option<ExpressionModel>>,
) -> Result<Parsed<ExpressionModel>, Error>
    decreases tokens.len() - pos, 6int,
{
    match token_at(tokens, pos) {
        None => Err(Error::Unknown),
        Some(Token::Identifier) => match token_at(tokens, pos + 1) {
            None => Err(Error::Unknown),
            Some(Token::OpenParan) => match arguments_from(tokens, pos + 2, yields, Seq::empty()) {
                Err(error) => Err(error),
                Ok(arguments) => Ok(
                    Parsed {
                        value: ExpressionModel::Call(text_at(tokens, pos), arguments.value),
                        pos: arguments.pos,
                        yields: arguments.yields,
                    },
                ),
            },
            Some(_) => Err(Error::ExpectedOpenParan),
        },
        Some(_) => Err(Error::ExpectedIdentifier),
    }
}

/// The arguments of a call from `pos` on, after those in `arguments`. The
/// position of the result is that of the token that ended the last one.
pub open spec fn arguments_from(
    tokens: Seq<Lexed>,
    pos: int,
    yields: Seq<Option<ExpressionModel>>,
    arguments: Seq<ExpressionModel>,
) -> Result<Parsed<Seq<ExpressionModel>>, Error>
    decreases tokens.len() - pos, 13int,
{
    if !(0 <= pos < tokens.len()) {
        Ok(Parsed { value: arguments, pos: pos - 1, yields })
    } else {
        match expression_at(tokens, pos, yields, argument_delimiters()) {
            Err(error) => Err(error),
            Ok(argument) => if !advanced(tokens, pos, argument.pos) {
                Err(Error::Unknown)
            } else {
                match token_at(tokens, argument.pos - 1) {
                    Some(Token::Comma) => arguments_from(
                        tokens,
                        argument.pos,
                        argument.yields,
                        arguments.push(argument.value),
                    ),
                    Some(Token::CloseParan) => Ok(
                        Parsed {
                            value: arguments.push(argument.value),
                            pos: argument.pos - 1,
                            yields: argument.yields,
                        },
                    ),
                    _ => Err(Error::Unknown),
                }
            },
        }
    }
}

// ----------------------------------------------------------- statements

/// The statements from `pos` on, after those in `statements`, up to one of
/// `delimiters` or the end of the tokens.
pub open spec fn statements_from(
    tokens: Seq<Lexed>,
    pos: int,
    yields: Seq<Option<ExpressionModel>>,
    delimiters: Seq<Token>,
    statements: Seq<StatementModel>,
) -> Result<Parsed<Seq<StatementModel>>, Error>
    decreases tokens.len() - pos, 12int,
{
    match token_at(tokens, pos) {
        None => Ok(Parsed { value: statements, pos, yields }),
        Some(token) => if delimiters.contains(token) {
            Ok(Parsed { value: statements, pos: pos + 1, yields })
        } else {
            match statement_at(tokens, pos, yields) {
                Err(error) => Err(error),
                Ok(statement) => if !advanced(tokens, pos, statement.pos) {
                    Err(Error::Unknown)
                } else {
                    statements_from(
                        tokens,
                        statement.pos,
                        statement.yields,
                        delimiters,
                        statements.push(statement.value),
                    )
                },
            }
        },
    }
}

/// The value of a `return` or `yield` whose keyword is at `pos`: nothing
/// before a semicolon, else an expression up to the semicolon.
pub open spec fn optional_value_at(
    tokens: Seq<Lexed>,
    pos: int,
    yields: Seq<Option<ExpressionModel>>,
) -> Result<Parsed<Option<ExpressionModel>>, Error>
    decreases tokens.len() - pos, 10int,
{
    match token_at(tokens, pos + 1) {
        None => Err(Error::Unknown),
        Some(Token::Semicolon) => Ok(Parsed { value: None, pos: pos + 2, yields }),
        Some(_) => if pos < 0 {
            Err(Error::Unknown)
        } else {
            match expression_at(tokens, pos + 1, yields, seq![Token::Semicolon]) {
                Err(error) => Err(error),
                Ok(value) => Ok(
                    Parsed { value: Some(value.value), pos: value.pos, yields: value.yields },
                ),
            }
        },
    }
}

/// The statement that begins at `pos`.
pub open spec fn statement_at(
    tokens: Seq<Lexed>,
    pos: int,
    yields: Seq<Option<ExpressionModel>>,
) -> Result<Parsed<StatementModel>, Error>
    decreases tokens.len() - pos, 11int,
{
    match token_at(tokens, pos) {
        None => Err(Error::Unknown),
        Some(Token::Var) => var_declaration_at(tokens, pos, yields),
        Some(Token::On) => condition_statement_at(tokens, pos, yields),
        Some(Token::While) => while_statement_at(tokens, pos, yields),
        Some(Token::Yield) => match optional_value_at(tokens, pos, yields) {
            Err(error) => Err(error),
            Ok(value) => Ok(
                Parsed {
                    value: StatementModel::Yield(value.value),
                    pos: value.pos,
                    yields: match value.value {
                        Some(expression) => yielded(value.yields, expression),
                        None => value.yields,
                    },
                },
            ),
        },
        Some(Token::Return) => match optional_value_at(tokens, pos, yields) {
            Err(error) => Err(error),
            Ok(value) => Ok(
                Parsed {
                    value: StatementModel::Return(value.value),
                    pos: value.pos,
                    yields: value.yields,
                },
            ),
        },
        Some(Token::Continue) => match token_at(tokens, pos + 1) {
            None => Err(Error::Unknown),
            Some(Token::Semicolon) => Ok(
                Parsed { value: StatementModel::Continue, pos: pos + 2, yields },
            ),
            Some(_) => Err(Error::ExpectedSemicolon),
        },
        Some(Token::Break) => match token_at(tokens, pos + 1) {
            None => Err(Error::Unknown),
            Some(Token::Semicolon) => Ok(
                Parsed { value: StatementModel::Break, pos: pos + 2, yields },
            ),
            Some(_) => Err(Error::ExpectedSemicolon),
        },
        Some(_) => match expression_at(tokens, pos, yields, seq![Token::Semicolon]) {
            Err(error) => Err(error),
            Ok(expression) => Ok(
                Parsed {
                    value: StatementModel::ExpressionStmt(expression.value),
                    pos: expression.pos,
                    yields: expression.yields,
                },
            ),
        },
    }
}

/// The type of a variable declaration whose name is at `pos - 1`: what
/// follows a colon, else `Auto`.
pub open spec fn declared_type_at(tokens: Seq<Lexed>, pos: int) -> Result<Step<TypeModel>, Error> {
    match token_at(tokens, pos) {
        None => Err(Error::Unknown),
        Some(Token::Colon) => type_at(tokens, pos + 1),
        Some(_) => Ok(Step { value: TypeModel::Auto, pos }),
    }
}

/// The variable declaration that begins at `pos`. A token follows it.
pub open spec fn var_declaration_at(
    tokens: Seq<Lexed>,
    pos: int,
    yields: Seq<Option<ExpressionModel>>,
) -> Result<Parsed<StatementModel>, Error>
    decreases tokens.len() - pos, 10int,
{
    match token_at(tokens, pos) {
        None => Err(Error::Unknown),
        Some(Token::Var) => match token_at(tokens, pos + 1) {
            None => Err(Error::Unknown),
            Some(Token::Identifier) => match declared_type_at(tokens, pos + 2) {
                Err(error) => Err(error),
                Ok(var_type) => match token_at(tokens, var_type.pos) {
                    None => Err(Error::Unknown),
                    Some(Token::Assign) => if !advanced(tokens, pos, var_type.pos) {
                        Err(Error::Unknown)
                    } else {
                        match expression_at(
                            tokens,
                            var_type.pos + 1,
                            yields,
                            seq![Token::Semicolon],
                        ) {
                            Err(error) => Err(error),
                            Ok(value) => if token_at(tokens, value.pos) is None {
                                Err(Error::Unknown)
                            } else {
                                Ok(
                                    Parsed {
                                        value: StatementModel::VarDeclaration {
                                            name: text_at(tokens, pos + 1),
                                            var_type: var_type.value,
                                            expr: value.value,
                                        },
                                        pos: value.pos,
                                        yields: value.yields,
                                    },
                                )
                            },
                        }
                    },
                    Some(_) => Err(Error::ExpectedAssign),
                },
            },
            Some(_) => Err(Error::ExpectedIdentifier),
        },
        Some(_) => Err(Error::ExpectedVar),
    }
}

/// The branches of a conditional: the condition and body of the `on`, those
/// of each `else on`, and the body of the `else`.
pub struct Branches {
    pub expr: ExpressionModel,
    pub cond_body: Seq<StatementModel>,
    pub cond_chain: Seq<(ExpressionModel, Seq<StatementModel>)>,
    pub else_body: Seq<StatementModel>,
}

/// A condition up to `{` and the block behind it, from `pos` on.
pub open spec fn guarded_block_at(
    tokens: Seq<Lexed>,
    pos: int,
    yields: Seq<Option<ExpressionModel>>,
) -> Result<Parsed<(ExpressionModel, Seq<StatementModel>)>, Error>
    decreases tokens.len() - pos, 14int,
{
    if !(0 <= pos <= tokens.len()) {
        Err(Error::Unknown)
    } else {
        match expression_at(tokens, pos, yields, seq![Token::OpenBlock]) {
            Err(error) => Err(error),
            Ok(condition) => if !advanced(tokens, pos, condition.pos) {
                Err(Error::Unknown)
            } else {
                match statements_from(
                    tokens,
                    condition.pos,
                    condition.yields,
                    block_delimiters(),
                    Seq::empty(),
                ) {
                    Err(error) => Err(error),
                    Ok(body) => Ok(
                        Parsed {
                            value: (condition.value, body.value),
                            pos: body.pos,
                            yields: body.yields,
                        },
                    ),
                }
            },
        }
    }
}

/// The `else on` branches and the `else` body from `pos` on, after the
/// branches in `chain`.
pub open spec fn chain_from(
    tokens: Seq<Lexed>,
    pos: int,
    yields: Seq<Option<ExpressionModel>>,
    chain: Seq<(ExpressionModel, Seq<StatementModel>)>,
) -> Result<Parsed<(Seq<(ExpressionModel, Seq<StatementModel>)>, Seq<StatementModel>)>, Error>
    decreases tokens.len() - pos, 15int,
{
    match token_at(tokens, pos) {
        Some(Token::Else) => match token_at(tokens, pos + 1) {
            None => Err(Error::Unknown),
            Some(Token::On) => match guarded_block_at(tokens, pos + 2, yields) {
                Err(error) => Err(error),
                Ok(branch) => if !advanced(tokens, pos, branch.pos) {
                    Err(Error::Unknown)
                } else if token_at(tokens, branch.pos) is None {
                    Err(Error::Unknown)
                } else {
                    chain_from(tokens, branch.pos, branch.yields, chain.push(branch.value))
                },
            },
            Some(Token::OpenBlock) => match statements_from(
                tokens,
                pos + 2,
                yields,
                block_delimiters(),
                Seq::empty(),
            ) {
                Err(error) => Err(error),
                Ok(body) => Ok(
                    Parsed { value: (chain, body.value), pos: body.pos, yields: body.yields },
                ),
            },
            Some(_) => Err(Error::ExpectedOpenBlock),
        },
        _ => Ok(Parsed { value: (chain, Seq::empty()), pos, yields }),
    }
}

/// The branches of the conditional whose `on` is at `pos`.
pub open spec fn branches_at(
    tokens: Seq<Lexed>,
    pos: int,
    yields: Seq<Option<ExpressionModel>>,
) -> Result<Parsed<Branches>, Error>
    decreases tokens.len() - pos, 5int,
{
    match token_at(tokens, pos) {
        None => Err(Error::Unknown),
        Some(Token::On) => match guarded_block_at(tokens, pos + 1, yields) {
            Err(error) => Err(error),
            Ok(first) => if !advanced(tokens, pos, first.pos) {
                Err(Error::Unknown)
            } else {
                match chain_from(tokens, first.pos, first.yields, Seq::empty()) {
                    Err(error) => Err(error),
                    Ok(rest) => Ok(
                        Parsed {
                            value: Branches {
                                expr: first.value.0,
                                cond_body: first.value.1,
                                cond_chain: rest.value.0,
                                else_body: rest.value.1,
                            },
                            pos: rest.pos,
                            yields: rest.yields,
                        },
                    ),
                }
            },
        },
        Some(_) => Err(Error::ExpectedOn),
    }
}

/// The conditional statement that begins at `pos`.
pub open spec fn condition_statement_at(
    tokens: Seq<Lexed>,
    pos: int,
    yields: Seq<Option<ExpressionModel>>,
) -> Result<Parsed<StatementModel>, Error>
    decreases tokens.len() - pos, 10int,
{
    if !(0 <= pos < tokens.len()) {
        Err(Error::Unknown)
    } else {
        match branches_at(tokens, pos, yields) {
            Err(error) => Err(error),
            Ok(branches) => Ok(
                Parsed {
                    value: StatementModel::Condition {
                        expr: branches.value.expr,
                        cond_body: branches.value.cond_body,
                        cond_chain: branches.value.cond_chain,
                        else_body: branches.value.else_body,
                    },
                    pos: branches.pos,
                    yields: branches.yields,
                },
            ),
        }
    }
}

/// The conditional expression that begins at `pos`. Its value is the first
/// value that a `yield` of its branches gives to its slot.
pub open spec fn condition_expression_at(
    tokens: Seq<Lexed>,
    pos: int,
    yields: Seq<Option<ExpressionModel>>,
) -> Result<Parsed<ExpressionModel>, Error>
    decreases tokens.len() - pos, 8int,
{
    if !(0 <= pos < tokens.len()) {
        Err(Error::Unknown)
    } else {
        match branches_at(tokens, pos, yields.push(None)) {
            Err(error) => Err(error),
            Ok(branches) => if branches.yields.len() == 0 {
                Err(Error::Unknown)
            } else {
                Ok(
                    Parsed {
                        value: ExpressionModel::Condition {
                            expr: Box::new(branches.value.expr),
                            cond_body: branches.value.cond_body,
                            cond_chain: branches.value.cond_chain,
                            else_body: branches.value.else_body,
                            yield_expr: match branches.yields.last() {
                                Some(value) => Some(Box::new(value)),
                                None => None,
                            },
                        },
                        pos: branches.pos,
                        yields: branches.yields.drop_last(),
                    },
                )
            },
        }
    }
}

/// The `while` statement that begins at `pos`.
pub open spec fn while_statement_at(
    tokens: Seq<Lexed>,
    pos: int,
    yields: Seq<Option<ExpressionModel>>,
) -> Result<Parsed<StatementModel>, Error>
    decreases tokens.len() - pos, 10int,
{
    match token_at(tokens, pos) {
        None => Err(Error::Unknown),
        Some(Token::While) => match guarded_block_at(tokens, pos + 1, yields) {
            Err(error) => Err(error),
            Ok(parts) => Ok(
                Parsed {
                    value: StatementModel::While(parts.value.0, parts.value.1),
                    pos: parts.pos,
                    yields: parts.yields,
                },
            ),
        },
        Some(_) => Err(Error::ExpectedWhile),
    }
}

// --------------------------------------------------------- declarations

/// The argument of a function declaration that begins at `pos`.
pub open spec fn argument_at(tokens: Seq<Lexed>, pos: int) -> Result<
    Step<(Seq<char>, TypeModel)>,
    Error,
> {
    match token_at(tokens, pos) {
        None => Err(Error::Unknown),
        Some(Token::This) => Ok(Step { value: ("this"@, TypeModel::This), pos: pos + 1 }),
        Some(Token::ThisRef) => Ok(
            Step { value: ("this"@, TypeModel::Ref(Box::new(TypeModel::This))), pos: pos + 1 },
        ),
        Some(Token::Identifier) => {
            let name = text_at(tokens, pos);
            let type_pos = if name == "this"@ {
                Ok(pos + 1)
            } else {
                match token_at(tokens, pos + 1) {
                    None => Err(Error::Unknown),
                    Some(Token::Colon) => Ok(pos + 2),
                    Some(_) => Err(Error::ExpectedColon),
                }
            };
            match type_pos {
                Err(error) => Err(error),
                Ok(type_pos) => match type_at(tokens, type_pos) {
                    Err(error) => Err(error),
                    Ok(argument_type) => Ok(
                        Step { value: (name, argument_type.value), pos: argument_type.pos },
                    ),
                },
            }
        },
        Some(_) => Err(Error::ExpectedIdentifier),
    }
}

/// The arguments of a function declaration from `pos` on, after those in
/// `arguments`. A comma or the closing parenthesis follows each.
pub open spec fn arguments_after(
    tokens: Seq<Lexed>,
    pos: int,
    arguments: Seq<(Seq<char>, TypeModel)>,
) -> Result<Step<Seq<(Seq<char>, TypeModel)>>, Error>
    decreases tokens.len() - pos,
{
    match argument_at(tokens, pos) {
        Err(error) => Err(error),
        Ok(argument) => if !advanced(tokens, pos, argument.pos) {
            Err(Error::Unknown)
        } else {
            match token_at(tokens, argument.pos) {
                None => Err(Error::Unknown),
                Some(Token::Comma) => arguments_after(
                    tokens,
                    argument.pos + 1,
                    arguments.push(argument.value),
                ),
                Some(Token::CloseParan) => Ok(
                    Step { value: arguments.push(argument.value), pos: argument.pos + 1 },
                ),
                Some(_) => Err(Error::ExpectedCloseParan),
            }
        },
    }
}

/// The argument list whose first token after `(` is at `pos`.
pub open spec fn arguments_at(tokens: Seq<Lexed>, pos: int) -> Result<
    Step<Seq<(Seq<char>, TypeModel)>>,
    Error,
> {
    match token_at(tokens, pos) {
        None => Err(Error::Unknown),
        Some(Token::CloseParan) => Ok(Step { value: Seq::empty(), pos: pos + 1 }),
        Some(_) => arguments_after(tokens, pos, Seq::empty()),
    }
}

/// The return type at `pos`: what follows a `~`, else `Void`.
pub open spec fn return_type_at(tokens: Seq<Lexed>, pos: int) -> Result<Step<TypeModel>, Error> {
    match token_at(tokens, pos) {
        None => Err(Error::Unknown),
        Some(Token::Tilde) => type_at(tokens, pos + 1),
        Some(_) => Ok(Step { value: TypeModel::Void, pos }),
    }
}

/// The head of a function: its name, arguments and return type.
pub struct Signature {
    pub name: Seq<char>,
    pub arguments: Seq<(Seq<char>, TypeModel)>,
    pub return_type: TypeModel,
}

/// The head of the function whose `fun` is at `pos`.
pub open spec fn signature_at(tokens: Seq<Lexed>, pos: int) -> Result<Step<Signature>, Error> {
    match token_at(tokens, pos) {
        None => Err(Error::Unknown),
        Some(Token::Fun) => match token_at(tokens, pos + 1) {
            None => Err(Error::Unknown),
            Some(Token::Identifier) => match token_at(tokens, pos + 2) {
                None => Err(Error::Unknown),
                Some(Token::OpenParan) => match arguments_at(tokens, pos + 3) {
                    Err(error) => Err(error),
                    Ok(arguments) => match return_type_at(tokens, arguments.pos) {
                        Err(error) => Err(error),
                        Ok(return_type) => Ok(
                            Step {
                                value: Signature {
                                    name: text_at(tokens, pos + 1),
                                    arguments: arguments.value,
                                    return_type: return_type.value,
                                },
                                pos: return_type.pos,
                            },
                        ),
                    },
                },
                Some(_) => Err(Error::ExpectedOpenParan),
            },
            Some(_) => Err(Error::ExpectedIdentifier),
        },
        Some(_) => Err(Error::ExpectedFn),
    }
}

/// Whether a token is `pub` or `ext`.
pub open spec fn is_modifier(token: Token) -> bool {
    token == Token::Pub || token == Token::Ext
}

/// The position of the first token from `pos` on that is no modifier.
pub open spec fn modifiers_end(tokens: Seq<Lexed>, pos: int) -> int
    decreases tokens.len() - pos,
{
    if 0 <= pos < tokens.len() && is_modifier(tokens[pos].token) {
        modifiers_end(tokens, pos + 1)
    } else {
        pos
    }
}

/// Whether `modifier` is among the tokens from `from` up to `to`.
pub open spec fn has_modifier(tokens: Seq<Lexed>, from: int, to: int, modifier: Token) -> bool {
    exists|i: int| from <= i < to && #[trigger] token_at(tokens, i) == Some(modifier)
}

/// The function declaration that begins at `pos` with its modifiers.
pub open spec fn function_declaration_at(
    tokens: Seq<Lexed>,
    pos: int,
    yields: Seq<Option<ExpressionModel>>,
) -> Result<Parsed<DeclarationModel>, Error> {
    let head = modifiers_end(tokens, pos);
    let public = has_modifier(tokens, pos, head, Token::Pub);
    let external = has_modifier(tokens, pos, head, Token::Ext);
    match signature_at(tokens, head) {
        Err(error) => Err(error),
        Ok(signature) => match token_at(tokens, signature.pos) {
            None => Err(Error::Unknown),
            Some(Token::Semicolon) => Ok(
                Parsed {
                    value: DeclarationModel::Function {
                        public,
                        external,
                        name: signature.value.name,
                        returns: signature.value.return_type,
                        arguments: signature.value.arguments,
                        body: None,
                    },
                    pos: signature.pos + 1,
                    yields,
                },
            ),
            Some(Token::OpenBlock) => match statements_from(
                tokens,
                signature.pos + 1,
                yields,
                block_delimiters(),
                Seq::empty(),
            ) {
                Err(error) => Err(error),
                Ok(body) => Ok(
                    Parsed {
                        value: DeclarationModel::Function {
                            public,
                            external,
                            name: signature.value.name,
                            returns: signature.value.return_type,
                            arguments: signature.value.arguments,
                            body: Some(body.value),
                        },
                        pos: body.pos,
                        yields: body.yields,
                    },
                ),
            },
            Some(_) => Err(Error::Unknown),
        },
    }
}

/// The function of an interface that begins at `pos`.
pub open spec fn interface_function_at(
    tokens: Seq<Lexed>,
    pos: int,
    yields: Seq<Option<ExpressionModel>>,
) -> Result<Parsed<InterfaceFunctionModel>, Error> {
    match signature_at(tokens, pos) {
        Err(error) => Err(error),
        Ok(signature) => match token_at(tokens, signature.pos) {
            None => Err(Error::Unknown),
            Some(Token::OpenBlock) => match statements_from(
                tokens,
                signature.pos + 1,
                yields,
                block_delimiters(),
                Seq::empty(),
            ) {
                Err(error) => Err(error),
                Ok(body) => Ok(
                    Parsed {
                        value: InterfaceFunctionModel {
                            name: signature.value.name,
                            returns: signature.value.return_type,
                            arguments: signature.value.arguments,
                            body: Some(body.value),
                        },
                        pos: body.pos,
                        yields: body.yields,
                    },
                ),
            },
            Some(Token::Semicolon) => Ok(
                Parsed {
                    value: InterfaceFunctionModel {
                        name: signature.value.name,
                        returns: signature.value.return_type,
                        arguments: signature.value.arguments,
                        body: None,
                    },
                    pos: signature.pos + 1,
                    yields,
                },
            ),
            Some(_) => Err(Error::ExpectedSemicolon),
        },
    }
}

/// The functions of an interface from `pos` on, after those in
/// `functions`, up to the closing `}`.
pub open spec fn interface_functions_from(
    tokens: Seq<Lexed>,
    pos: int,
    yields: Seq<Option<ExpressionModel>>,
    functions: Seq<InterfaceFunctionModel>,
) -> Result<Parsed<Seq<InterfaceFunctionModel>>, Error>
    decreases tokens.len() - pos,
{
    match token_at(tokens, pos) {
        None => Err(Error::Unknown),
        Some(Token::CloseBlock) => Ok(Parsed { value: functions, pos: pos + 1, yields }),
        Some(_) => match interface_function_at(tokens, pos, yields) {
            Err(error) => Err(error),
            Ok(function) => if !advanced(tokens, pos, function.pos) {
                Err(Error::Unknown)
            } else {
                interface_functions_from(
                    tokens,
                    function.pos,
                    function.yields,
                    functions.push(function.value),
                )
            },
        },
    }
}

/// The name and the opening `{` of a declaration whose keyword is at
/// `pos`; the position of the result is that of the token after the `{`.
pub open spec fn named_block_at(tokens: Seq<Lexed>, pos: int) -> Result<Step<Seq<char>>, Error> {
    match token_at(tokens, pos + 1) {
        None => Err(Error::Unknown),
        Some(Token::Identifier) => match token_at(tokens, pos + 2) {
            None => Err(Error::Unknown),
            Some(Token::OpenBlock) => Ok(Step { value: text_at(tokens, pos + 1), pos: pos + 3 }),
            Some(_) => Err(Error::ExpectedOpenBlock),
        },
        Some(_) => Err(Error::ExpectedIdentifier),
    }
}

/// The interface declaration that begins at `pos`.
pub open spec fn interface_declaration_at(
    tokens: Seq<Lexed>,
    pos: int,
    yields: Seq<Option<ExpressionModel>>,
) -> Result<Parsed<DeclarationModel>, Error> {
    match token_at(tokens, pos) {
        None => Err(Error::Unknown),
        Some(Token::Intf) => match named_block_at(tokens, pos) {
            Err(error) => Err(error),
            Ok(name) => match interface_functions_from(tokens, name.pos, yields, Seq::empty()) {
                Err(error) => Err(error),
                Ok(functions) => Ok(
                    Parsed {
                        value: DeclarationModel::Interface {
                            name: name.value,
                            functions: functions.value,
                        },
                        pos: functions.pos,
                        yields: functions.yields,
                    },
                ),
            },
        },
        Some(_) => Err(Error::ExpectedIntf),
    }
}

/// The place of the first item from `from` on whose name does not come
/// before `name`, or the length when there is none.
pub open spec fn place_of(fields: Seq<(Seq<char>, TypeModel)>, name: Seq<char>, from: int) -> int
    decreases fields.len() - from,
{
    if 0 <= from < fields.len() {
        if !comes_before(fields[from].0, name) {
            from
        } else {
            place_of(fields, name, from + 1)
        }
    } else {
        fields.len() as int
    }
}

/// The items after `name` is given the type `item_type`: an item of that
/// name takes the type, else the item is put where its name stands in the
/// order of the names.
pub open spec fn inserted(
    fields: Seq<(Seq<char>, TypeModel)>,
    name: Seq<char>,
    item_type: TypeModel,
) -> Seq<(Seq<char>, TypeModel)> {
    let place = place_of(fields, name, 0);
    if place < fields.len() && fields[place].0 == name {
        fields.update(place, (name, item_type))
    } else {
        fields.insert(place, (name, item_type))
    }
}

/// The names of the items stand in the order of a dictionary, and no name
/// occurs twice.
pub open spec fn in_order(fields: Seq<(Seq<char>, TypeModel)>) -> bool {
    forall|i: int, j: int|
        0 <= i < j < fields.len() ==> comes_before(
            (#[trigger] fields[i]).0,
            (#[trigger] fields[j]).0,
        )
}

/// The named members of a variant stand in the order of their names.
pub open spec fn variant_in_order(variant: EnumVariantModel) -> bool {
    match variant {
        EnumVariantModel::Cont(_, members) => in_order(members),
        _ => true,
    }
}

/// The place of a name lies behind the names that come before it and not
/// behind any other.
pub proof fn lemma_place_of(fields: Seq<(Seq<char>, TypeModel)>, name: Seq<char>, from: int)
    requires
        0 <= from <= fields.len(),
    ensures
        from <= place_of(fields, name, from) <= fields.len(),
        forall|i: int|
            from <= i < place_of(fields, name, from) ==> comes_before(
                (#[trigger] fields[i]).0,
                name,
            ),
        place_of(fields, name, from) < fields.len() ==> !comes_before(
            fields[place_of(fields, name, from)].0,
            name,
        ),
    decreases fields.len() - from,
{
    if from < fields.len() && comes_before(fields[from].0, name) {
        lemma_place_of(fields, name, from + 1);
    }
}

/// Items that stand in order still do after one is inserted.
pub proof fn lemma_inserted_in_order(
    fields: Seq<(Seq<char>, TypeModel)>,
    name: Seq<char>,
    item_type: TypeModel,
)
    requires
        in_order(fields),
    ensures
        in_order(inserted(fields, name, item_type)),
{
    let place = place_of(fields, name, 0);
    let after = inserted(fields, name, item_type);
    lemma_place_of(fields, name, 0);
    if place < fields.len() && fields[place].0 == name {
        assert forall|i: int, j: int| 0 <= i < j < after.len() implies comes_before(
            (#[trigger] after[i]).0,
            (#[trigger] after[j]).0,
        ) by {
            assert(after[i].0 == fields[i].0);
            assert(after[j].0 == fields[j].0);
        }
    } else {
        assert forall|i: int, j: int| 0 <= i < j < after.len() implies comes_before(
            (#[trigger] after[i]).0,
            (#[trigger] after[j]).0,
        ) by {
            if j < place {
                assert(after[i] == fields[i] && after[j] == fields[j]);
            } else if j == place {
                assert(after[i] == fields[i]);
            } else if i == place {
                assert(after[j] == fields[j - 1]);
                lemma_one_before(name, fields[place].0);
                if j - 1 > place {
                    assert(comes_before(fields[place].0, fields[j - 1].0));
                    lemma_before_chain(name, fields[place].0, fields[j - 1].0);
                }
            } else if i < place {
                assert(after[i] == fields[i] && after[j] == fields[j - 1]);
            } else {
                assert(after[i] == fields[i - 1] && after[j] == fields[j - 1]);
            }
        }
    }
}

/// The member variable of a container that begins at `pos`.
pub open spec fn member_variable_at(tokens: Seq<Lexed>, pos: int) -> Result<
    Step<(Seq<char>, TypeModel)>,
    Error,
> {
    match token_at(tokens, pos) {
        None => Err(Error::Unknown),
        Some(Token::Identifier) => match token_at(tokens, pos + 1) {
            None => Err(Error::Unknown),
            Some(Token::Colon) => match type_at(tokens, pos + 2) {
                Err(error) => Err(error),
                Ok(member_type) => match token_at(tokens, member_type.pos) {
                    None => Err(Error::Unknown),
                    Some(Token::Semicolon) => Ok(
                        Step {
                            value: (text_at(tokens, pos), member_type.value),
                            pos: member_type.pos + 1,
                        },
                    ),
                    Some(_) => Err(Error::ExpectedSemicolon),
                },
            },
            Some(_) => Err(Error::ExpectedColon),
        },
        Some(_) => Err(Error::ExpectedIdentifier),
    }
}

/// The member function of a container that begins at `pos`.
pub open spec fn member_function_at(
    tokens: Seq<Lexed>,
    pos: int,
    yields: Seq<Option<ExpressionModel>>,
    public: bool,
) -> Result<Parsed<ContainerFunctionModel>, Error> {
    match signature_at(tokens, pos) {
        Err(error) => Err(error),
        Ok(signature) => match token_at(tokens, signature.pos) {
            None => Err(Error::Unknown),
            Some(Token::OpenBlock) => match statements_from(
                tokens,
                signature.pos + 1,
                yields,
                block_delimiters(),
                Seq::empty(),
            ) {
                Err(error) => Err(error),
                Ok(body) => Ok(
                    Parsed {
                        value: ContainerFunctionModel {
                            public,
                            name: signature.value.name,
                            returns: signature.value.return_type,
                            arguments: signature.value.arguments,
                            body: body.value,
                        },
                        pos: body.pos,
                        yields: body.yields,
                    },
                ),
            },
            Some(_) => Err(Error::ExpectedOpenBlock),
        },
    }
}

/// The members of a container: its variables and its functions.
pub struct Members {
    pub variables: Seq<(Seq<char>, TypeModel)>,
    pub functions: Seq<ContainerFunctionModel>,
}

/// The members of a container from `pos` on, after those in `members`, up
/// to the closing `}`.
pub open spec fn members_from(
    tokens: Seq<Lexed>,
    pos: int,
    yields: Seq<Option<ExpressionModel>>,
    members: Members,
) -> Result<Parsed<Members>, Error>
    decreases tokens.len() - pos,
{
    match token_at(tokens, pos) {
        None => Err(Error::Unknown),
        Some(Token::CloseBlock) => Ok(Parsed { value: members, pos: pos + 1, yields }),
        Some(first) => {
            let public = first == Token::Pub;
            let start = if public {
                pos + 1
            } else {
                pos
            };
            match token_at(tokens, start) {
                None => Err(Error::Unknown),
                Some(Token::Identifier) => match member_variable_at(tokens, start) {
                    Err(error) => Err(error),
                    Ok(variable) => if !advanced(tokens, pos, variable.pos) {
                        Err(Error::Unknown)
                    } else {
                        members_from(
                            tokens,
                            variable.pos,
                            yields,
                            Members {
                                variables: inserted(
                                    members.variables,
                                    variable.value.0,
                                    variable.value.1,
                                ),
                                functions: members.functions,
                            },
                        )
                    },
                },
                Some(Token::Fun) => match member_function_at(tokens, start, yields, public) {
                    Err(error) => Err(error),
                    Ok(function) => if !advanced(tokens, pos, function.pos) {
                        Err(Error::Unknown)
                    } else {
                        members_from(
                            tokens,
                            function.pos,
                            function.yields,
                            Members {
                                variables: members.variables,
                                functions: members.functions.push(function.value),
                            },
                        )
                    },
                },
                Some(_) => Err(Error::Unknown),
            }
        },
    }
}

/// The container declaration that begins at `pos`.
pub open spec fn container_declaration_at(
    tokens: Seq<Lexed>,
    pos: int,
    yields: Seq<Option<ExpressionModel>>,
) -> Result<Parsed<DeclarationModel>, Error> {
    match token_at(tokens, pos) {
        None => Err(Error::Unknown),
        Some(first) => {
            let public = first == Token::Pub;
            let start = if public {
                pos + 1
            } else {
                pos
            };
            match token_at(tokens, start) {
                None => Err(Error::Unknown),
                Some(Token::Cont) => match named_block_at(tokens, start) {
                    Err(error) => Err(error),
                    Ok(name) => match members_from(
                        tokens,
                        name.pos,
                        yields,
                        Members { variables: Seq::empty(), functions: Seq::empty() },
                    ) {
                        Err(error) => Err(error),
                        Ok(members) => Ok(
                            Parsed {
                                value: DeclarationModel::Container {
                                    public,
                                    name: name.value,
                                    member_variables: members.value.variables,
                                    member_functions: members.value.functions,
                                },
                                pos: members.pos,
                                yields: members.yields,
                            },
                        ),
                    },
                },
                Some(_) => Err(Error::ExpectedCont),
            }
        },
    }
}

/// The named members of an enum variant from `pos` on, after those in
/// `members`, up to the closing `}`. A comma may follow each.
pub open spec fn variant_members_from(
    tokens: Seq<Lexed>,
    pos: int,
    members: Seq<(Seq<char>, TypeModel)>,
) -> Result<Step<Seq<(Seq<char>, TypeModel)>>, Error>
    decreases tokens.len() - pos,
{
    match token_at(tokens, pos) {
        None => Err(Error::Unknown),
        Some(Token::CloseBlock) => Ok(Step { value: members, pos: pos + 1 }),
        Some(Token::Identifier) => match token_at(tokens, pos + 1) {
            None => Err(Error::Unknown),
            Some(Token::Colon) => match type_at(tokens, pos + 2) {
                Err(error) => Err(error),
                Ok(member_type) => if !advanced(tokens, pos, member_type.pos) {
                    Err(Error::Unknown)
                } else {
                    let next = inserted(members, text_at(tokens, pos), member_type.value);
                    match token_at(tokens, member_type.pos) {
                        None => Err(Error::Unknown),
                        Some(Token::Comma) => variant_members_from(
                            tokens,
                            member_type.pos + 1,
                            next,
                        ),
                        Some(_) => variant_members_from(tokens, member_type.pos, next),
                    }
                },
            },
            Some(_) => Err(Error::ExpectedColon),
        },
        Some(_) => Err(Error::ExpectedIdentifier),
    }
}

/// The variant of an enum that begins at `pos`.
pub open spec fn variant_at(tokens: Seq<Lexed>, pos: int) -> Result<Step<EnumVariantModel>, Error> {
    match token_at(tokens, pos) {
        None => Err(Error::Unknown),
        Some(Token::Identifier) => {
            let name = text_at(tokens, pos);
            match token_at(tokens, pos + 1) {
                None => Err(Error::Unknown),
                Some(Token::OpenBlock) => match variant_members_from(
                    tokens,
                    pos + 2,
                    Seq::empty(),
                ) {
                    Err(error) => Err(error),
                    Ok(members) => Ok(
                        Step { value: EnumVariantModel::Cont(name, members.value), pos: members.pos },
                    ),
                },
                Some(Token::OpenParan) => match type_at(tokens, pos + 1) {
                    Err(error) => Err(error),
                    Ok(tuple) => match tuple.value {
                        TypeModel::Tuple(types) => if token_at(tokens, tuple.pos) is None {
                            Err(Error::Unknown)
                        } else {
                            Ok(Step { value: EnumVariantModel::Tuple(name, types), pos: tuple.pos })
                        },
                        _ => Err(Error::Unknown),
                    },
                },
                Some(Token::Comma) => Ok(Step { value: EnumVariantModel::Empty(name), pos: pos + 1 }),
                Some(Token::CloseBlock) => Ok(
                    Step { value: EnumVariantModel::Empty(name), pos: pos + 1 },
                ),
                Some(_) => Err(Error::Unknown),
            }
        },
        Some(_) => Err(Error::ExpectedIdentifier),
    }
}

/// The variants of an enum from `pos` on, after those in `variants`, up to
/// the closing `}`. A comma stands between two variants.
pub open spec fn variants_from(
    tokens: Seq<Lexed>,
    pos: int,
    variants: Seq<EnumVariantModel>,
) -> Result<Step<Seq<EnumVariantModel>>, Error>
    decreases tokens.len() - pos,
{
    match token_at(tokens, pos) {
        None => Err(Error::Unknown),
        Some(Token::CloseBlock) => Ok(Step { value: variants, pos: pos + 1 }),
        Some(token) => if variants.len() > 0 && token != Token::Comma {
            Err(Error::ExpectedComma)
        } else {
            let start = if variants.len() > 0 {
                pos + 1
            } else {
                pos
            };
            match variant_at(tokens, start) {
                Err(error) => Err(error),
                Ok(variant) => if !advanced(tokens, pos, variant.pos) {
                    Err(Error::Unknown)
                } else {
                    variants_from(tokens, variant.pos, variants.push(variant.value))
                },
            }
        },
    }
}

/// The enum declaration that begins at `pos`.
pub open spec fn enum_declaration_at(tokens: Seq<Lexed>, pos: int) -> Result<
    Step<DeclarationModel>,
    Error,
> {
    match token_at(tokens, pos) {
        None => Err(Error::Unknown),
        Some(Token::Enum) => match named_block_at(tokens, pos) {
            Err(error) => Err(error),
            Ok(name) => match variants_from(tokens, name.pos, Seq::empty()) {
                Err(error) => Err(error),
                Ok(variants) => Ok(
                    Step {
                        value: DeclarationModel::Enum { name: name.value, variants: variants.value },
                        pos: variants.pos,
                    },
                ),
            },
        },
        Some(_) => Err(Error::ExpectedEnum),
    }
}

// -------------------------------------------------------------- imports

/// Whether a token ends the path of an import.
pub open spec fn ends_import_path(token: Token) -> bool {
    token == Token::Semicolon || token == Token::Comma || token == Token::OpenBlock || token
        == Token::CloseBlock
}

/// Whether a path ends with `::`.
pub open spec fn ends_with_colons(path: Seq<char>) -> bool {
    path.len() >= 2 && path[path.len() - 1] == ':' && path[path.len() - 2] == ':'
}

/// What has been read of the path of an import: the path, the name given
/// behind `=`, and the part of the path behind its last `::`.
pub struct ImportPath {
    pub path: Seq<char>,
    pub alias: Seq<char>,
    pub segment: Seq<char>,
}

/// The path of an import from `pos` on, after what is in `read`, up to a
/// token that ends it.
pub open spec fn import_path_from(tokens: Seq<Lexed>, pos: int, read: ImportPath) -> Result<
    Step<ImportPath>,
    Error,
>
    decreases tokens.len() - pos,
{
    match token_at(tokens, pos) {
        None => Err(Error::Unknown),
        Some(token) => if ends_import_path(token) {
            Ok(Step { value: read, pos })
        } else {
            match token {
                Token::Identifier => import_path_from(
                    tokens,
                    pos + 1,
                    ImportPath {
                        path: read.path + text_at(tokens, pos),
                        alias: read.alias,
                        segment: read.segment + text_at(tokens, pos),
                    },
                ),
                Token::DoubleColon => import_path_from(
                    tokens,
                    pos + 1,
                    ImportPath { path: read.path + "::"@, alias: read.alias, segment: Seq::empty() },
                ),
                Token::Assign => match token_at(tokens, pos + 1) {
                    None => Err(Error::Unknown),
                    Some(Token::Identifier) => import_path_from(
                        tokens,
                        pos + 2,
                        ImportPath {
                            path: read.path,
                            alias: text_at(tokens, pos + 1),
                            segment: read.segment,
                        },
                    ),
                    Some(_) => Err(Error::ExpectedIdentifier),
                },
                _ => Err(Error::MalformedImport),
            }
        },
    }
}

/// The path of an import that begins at `pos`, with the name under which
/// it is imported: the name behind `=`, else the last part of the path.
pub open spec fn import_string_at(tokens: Seq<Lexed>, pos: int) -> Result<
    Step<(Seq<char>, Seq<char>)>,
    Error,
> {
    match import_path_from(
        tokens,
        pos,
        ImportPath { path: Seq::empty(), alias: Seq::empty(), segment: Seq::empty() },
    ) {
        Err(error) => Err(error),
        Ok(read) => if read.value.path.len() == 0 {
            Err(Error::MalformedImport)
        } else if read.value.alias.len() == 0 && !ends_with_colons(read.value.path) {
            Ok(Step { value: (read.value.path, read.value.segment), pos: read.pos })
        } else {
            Ok(Step { value: (read.value.path, read.value.alias), pos: read.pos })
        },
    }
}

/// The position behind a comma at `pos`, else `pos`.
pub open spec fn comma_skipped(tokens: Seq<Lexed>, pos: int) -> int {
    if token_at(tokens, pos) == Some(Token::Comma) {
        pos + 1
    } else {
        pos
    }
}

/// The imports with `prefix` in front of each path.
pub open spec fn prefixed(imports: Seq<(Seq<char>, Seq<char>)>, prefix: Seq<char>) -> Seq<
    (Seq<char>, Seq<char>),
> {
    Seq::new(imports.len(), |i: int| (prefix + imports[i].0, imports[i].1))
}

/// The imports from `pos` on, after those in `imports`, up to one of
/// `delimiters`. The position of the result is that of the delimiter.
pub open spec fn imports_from(
    tokens: Seq<Lexed>,
    pos: int,
    delimiters: Seq<Token>,
    imports: Seq<(Seq<char>, Seq<char>)>,
) -> Result<Step<Seq<(Seq<char>, Seq<char>)>>, Error>
    decreases tokens.len() - pos,
{
    match token_at(tokens, pos) {
        None => Err(Error::Unknown),
        Some(token) => if delimiters.contains(token) {
            Ok(Step { value: imports, pos })
        } else {
            match import_string_at(tokens, pos) {
                Err(error) => Err(error),
                Ok(import) => if !advanced(tokens, pos, import.pos) {
                    Err(Error::Unknown)
                } else if token_at(tokens, import.pos) is None {
                    Err(Error::Unknown)
                } else {
                    let at = comma_skipped(tokens, import.pos);
                    match token_at(tokens, at) {
                        None => Err(Error::Unknown),
                        Some(Token::Assign) => match token_at(tokens, at + 1) {
                            None => Err(Error::Unknown),
                            Some(Token::Identifier) => if token_at(tokens, at + 2) is None {
                                Err(Error::Unknown)
                            } else {
                                imports_from(
                                    tokens,
                                    comma_skipped(tokens, at + 2),
                                    delimiters,
                                    imports.push((import.value.0, text_at(tokens, at + 1))),
                                )
                            },
                            Some(_) => Err(Error::ExpectedIdentifier),
                        },
                        Some(Token::OpenBlock) => if !ends_with_colons(import.value.0) {
                            Err(Error::MalformedImport)
                        } else {
                            match imports_from(tokens, at + 1, block_delimiters(), Seq::empty()) {
                                Err(error) => Err(error),
                                Ok(nested) => if !advanced(tokens, at, nested.pos) {
                                    Err(Error::Unknown)
                                } else if token_at(tokens, nested.pos + 1) is None {
                                    Err(Error::Unknown)
                                } else {
                                    imports_from(
                                        tokens,
                                        comma_skipped(tokens, nested.pos + 1),
                                        delimiters,
                                        imports + prefixed(nested.value, import.value.0),
                                    )
                                },
                            }
                        },
                        Some(_) => imports_from(tokens, at, delimiters, imports.push(import.value)),
                    }
                },
            }
        },
    }
}

/// The import declaration that begins at `pos`, with its semicolon.
pub open spec fn import_declaration_at(tokens: Seq<Lexed>, pos: int) -> Result<
    Step<DeclarationModel>,
    Error,
> {
    match token_at(tokens, pos) {
        None => Err(Error::Unknown),
        Some(Token::Import) => match imports_from(
            tokens,
            pos + 1,
            seq![Token::Semicolon],
            Seq::empty(),
        ) {
            Err(error) => Err(error),
            Ok(imports) => Ok(
                Step { value: DeclarationModel::Import(imports.value), pos: imports.pos + 1 },
            ),
        },
        Some(_) => Err(Error::ExpectedImport),
    }
}

/// A construct without statements leaves the slots as they are.
pub open spec fn with_yields<T>(
    step: Result<Step<T>, Error>,
    yields: Seq<Option<ExpressionModel>>,
) -> Result<Parsed<T>, Error> {
    match step {
        Ok(step) => Ok(Parsed { value: step.value, pos: step.pos, yields }),
        Err(error) => Err(error),
    }
}

/// The declaration that begins at `pos`, by the keyword behind its
/// modifiers. Modules are not parsed yet.
pub open spec fn declaration_at(
    tokens: Seq<Lexed>,
    pos: int,
    yields: Seq<Option<ExpressionModel>>,
) -> Result<Parsed<DeclarationModel>, Error> {
    match token_at(tokens, modifiers_end(tokens, pos)) {
        None => Err(Error::Unknown),
        Some(Token::Fun) => function_declaration_at(tokens, pos, yields),
        Some(Token::Mod) => Err(Error::Unimplemented("mod decl")),
        Some(Token::Cont) => container_declaration_at(tokens, pos, yields),
        Some(Token::Import) => with_yields(import_declaration_at(tokens, pos), yields),
        Some(Token::Intf) => interface_declaration_at(tokens, pos, yields),
        Some(Token::Enum) => with_yields(enum_declaration_at(tokens, pos), yields),
        Some(_) => Err(Error::Unknown),
    }
}

/// The declarations from `pos` on, after those in `declarations`, up to
/// one of `delimiters`, which is left to be read, or the end of the tokens.
pub open spec fn declarations_from(
    tokens: Seq<Lexed>,
    pos: int,
    yields: Seq<Option<ExpressionModel>>,
    delimiters: Seq<Token>,
    declarations: Seq<DeclarationModel>,
) -> Result<Parsed<Seq<DeclarationModel>>, Error>
    decreases tokens.len() - pos,
{
    match token_at(tokens, pos) {
        None => Ok(Parsed { value: declarations, pos, yields }),
        Some(token) => if delimiters.contains(token) {
            Ok(Parsed { value: declarations, pos, yields })
        } else {
            match declaration_at(tokens, pos, yields) {
                Err(error) => Err(error),
                Ok(declaration) => if !advanced(tokens, pos, declaration.pos) {
                    Err(Error::Unknown)
                } else {
                    declarations_from(
                        tokens,
                        declaration.pos,
                        declaration.yields,
                        delimiters,
                        declarations.push(declaration.value),
                    )
                },
            }
        },
    }
}

} // verus!
