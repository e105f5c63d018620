//! Lexer and parser of the language.

/// AST definitions
pub mod ast;
/// Parser errors
pub mod error;
/// The grammar that the parser implements
pub mod grammar;
/// The lexer
pub mod lexer;
/// Token definitions
pub mod token;
/// The texts of the tokens
pub mod tokens;

use ast::{
    chain_model, container_functions_model, declarations_model, expressions_model, fields_model,
    interface_functions_model, optional_model, pairs_model, statements_model, types_model,
    variants_model, ContainerFunction, Declaration, DeclarationModel, EnumVariant, Expression,
    ExpressionModel, InterfaceFunction, Operator, Statement, Type, TypeModel,
};
use error::Error;
use grammar::{
    advanced, after_operator, all_digits, argument_at, argument_delimiters, arguments_after,
    arguments_at, arguments_from, block_delimiters, branches_at, call_at, chain_from,
    condition_expression_at, condition_statement_at, container_declaration_at, decimal_value,
    declaration_at, declarations_from, ends_with_colons, enum_declaration_at, expression_at,
    flushed, function_declaration_at, group_closed, guarded_block_at, has_modifier,
    import_declaration_at, import_path_from, import_string_at, imports_from, in_order, inserted,
    interface_declaration_at, interface_function_at, interface_functions_from,
    lemma_inserted_in_order, member_function_at, member_variable_at, members_from, modifiers_end,
    named_block_at, operand_at, optional_value_at, place_of, prefixed, reduced, shunted,
    shunting_start, signature_at, statement_at, statements_from, text_at, token_at, tuple_items,
    type_at, unwound, var_declaration_at, variant_at, variant_in_order, variant_members_from,
    variants_from, while_statement_at, yielded, Branches, ImportPath, Lexed, Members, OutputModel,
    Parsed, Shunting, Signature, Step,
};
use crate::util::text::{same_text, text_before};
use lexer::{lexemes_model, tokenize, tokens_of, Lexeme};
use std::collections::VecDeque;
use token::Token;
use vstd::prelude::*;

verus! {

/// The Parser
pub struct Parser {
    tokens: Vec<Lexeme>,
    token_pos: usize,
    yield_stack: Vec<Option<Expression>>,
}

/// Whether `token` is one of `delimiters`.
pub fn contains_token(delimiters: &[Token], token: Token) -> (found: bool)
    ensures
        found == delimiters@.contains(token),
{
    let mut i: usize = 0;
    while i < delimiters.len()
        invariant
            i <= delimiters.len(),
            forall|j: int| 0 <= j < i ==> delimiters@[j] != token,
        decreases delimiters.len() - i,
    {
        if delimiters[i] == token {
            return true;
        }
        i += 1;
    }
    false
}

/// What an outcome of the grammar without statements asks of a result and of
/// the position after it.
pub open spec fn meets_step<M>(value: Result<M, Error>, pos: int, expected: Result<Step<M>, Error>) -> bool {
    match expected {
        Ok(step) => value == Ok::<M, Error>(step.value) && pos == step.pos,
        Err(error) => value == Err::<M, Error>(error),
    }
}

/// What an outcome of the grammar with statements asks of a result, of the
/// position after it and of the slots of the conditional expressions.
pub open spec fn meets<M>(
    value: Result<M, Error>,
    pos: int,
    yields: Seq<Option<ExpressionModel>>,
    expected: Result<Parsed<M>, Error>,
) -> bool {
    match expected {
        Ok(parsed) => value == Ok::<M, Error>(parsed.value) && pos == parsed.pos && yields
            == parsed.yields,
        Err(error) => value == Err::<M, Error>(error),
    }
}

/// The model of a parsed type, or the error.
pub open spec fn type_outcome(result: Result<Type, Error>) -> Result<ast::TypeModel, Error> {
    match result {
        Ok(value) => Ok(value@),
        Err(error) => Err(error),
    }
}

/// The model of a parsed expression, or the error.
pub open spec fn expression_outcome(result: Result<Expression, Error>) -> Result<
    ExpressionModel,
    Error,
> {
    match result {
        Ok(value) => Ok(value@),
        Err(error) => Err(error),
    }
}

/// The model of a parsed statement, or the error.
pub open spec fn statement_outcome(result: Result<Statement, Error>) -> Result<
    ast::StatementModel,
    Error,
> {
    match result {
        Ok(value) => Ok(value@),
        Err(error) => Err(error),
    }
}

/// The models of parsed statements, or the error.
pub open spec fn statements_outcome(result: Result<Vec<Statement>, Error>) -> Result<
    Seq<ast::StatementModel>,
    Error,
> {
    match result {
        Ok(value) => Ok(statements_model(&value)),
        Err(error) => Err(error),
    }
}

/// The models of parsed expressions, or the error.
pub open spec fn expressions_outcome(result: Result<Vec<Expression>, Error>) -> Result<
    Seq<ExpressionModel>,
    Error,
> {
    match result {
        Ok(value) => Ok(expressions_model(&value)),
        Err(error) => Err(error),
    }
}

/// The slots in `after` begin with all the slots in `before`.
pub open spec fn extends(
    before: Seq<Option<ExpressionModel>>,
    after: Seq<Option<ExpressionModel>>,
) -> bool {
    before.len() <= after.len() && forall|i: int| 0 <= i < before.len() ==> after[i] == before[i]
}

/// The slots in `after` begin with all the slots in `before` but the
/// innermost, which may have taken a value.
pub open spec fn keeps_outer(
    before: Seq<Option<ExpressionModel>>,
    after: Seq<Option<ExpressionModel>>,
) -> bool {
    before.len() <= after.len() && forall|i: int|
        0 <= i < before.len() - 1 ==> after[i] == before[i]
}

/// An item of the output queue of the expression parser.
#[derive(Debug)]
enum ExprOutput {
    Expression(Expression),
    Operator(Operator),
}

spec fn output_model(output: ExprOutput) -> OutputModel {
    match output {
        ExprOutput::Expression(expression) => OutputModel::Expression(expression@),
        ExprOutput::Operator(op) => OutputModel::Operator(op),
    }
}

spec fn outputs_model(outputs: &VecDeque<ExprOutput>) -> Seq<OutputModel> {
    Seq::new(outputs@.len(), |i: int| output_model(outputs@[i]))
}

/// Moves the pending operators down to the nearest `(` to the output queue.
#[verifier::loop_isolation(false)]
fn close_group(op_stack: &mut Vec<Operator>, out_queue: &mut VecDeque<ExprOutput>) -> (closed:
    Result<(), Error>)
    ensures
        match group_closed(old(op_stack)@, outputs_model(old(out_queue))) {
            Ok((operators, output)) => closed is Ok && final(op_stack)@ == operators
                && outputs_model(final(out_queue)) == output,
            Err(error) => closed == Err::<(), Error>(error),
        },
{
    loop
        invariant
            group_closed(op_stack@, outputs_model(out_queue)) == group_closed(
                old(op_stack)@,
                outputs_model(old(out_queue)),
            ),
        decreases op_stack.len(),
    {
        let ghost output = outputs_model(out_queue);
        match op_stack.pop() {
            None => {
                return Err(Error::Unknown);
            },
            Some(op) => {
                if op == Operator::OpenParan {
                    return Ok(());
                }
                out_queue.push_back(ExprOutput::Operator(op));
                assert(outputs_model(out_queue) =~= output.push(OutputModel::Operator(op)));
            },
        }
    }
}

/// Whether the token before an operator makes a `+` or `-` a sign.
fn after_operator_token(last_token: Option<Token>) -> (sign: bool)
    ensures
        sign == grammar::follows_operator(last_token),
{
    match last_token {
        None => true,
        Some(token) => Operator::from(token).is_some(),
    }
}

/// Puts an operator other than a parenthesis on the operator stack.
#[verifier::loop_isolation(false)]
fn push_operator(
    op_stack: &mut Vec<Operator>,
    out_queue: &mut VecDeque<ExprOutput>,
    last_token: Option<Token>,
    op: Operator,
) -> (pushed: Result<(), Error>)
    ensures
        match after_operator(
            Shunting {
                operators: old(op_stack)@,
                output: outputs_model(old(out_queue)),
                open_parens: 0,
                last: last_token,
            },
            op,
        ) {
            Ok(next) => pushed is Ok && final(op_stack)@ == next.operators && outputs_model(
                final(out_queue),
            ) == next.output,
            Err(error) => pushed == Err::<(), Error>(error),
        },
{
    let mut op = op;
    if op_stack.len() > 0 {
        if let Some(last) = last_token {
            if let Some(last_op) = Operator::from(last) {
                if last_op != Operator::Assign {
                    op =
                    match op {
                        Operator::Minus => Operator::Neg,
                        Operator::Plus => Operator::Pos,
                        _ => {
                            return Err(Error::Unknown);
                        },
                    };
                }
            }
        }
    }
    while op_stack.len() > 0 && op_stack[op_stack.len() - 1].prec() > op.prec()
        invariant
            unwound(op_stack@, outputs_model(out_queue), op) == unwound(
                old(op_stack)@,
                outputs_model(old(out_queue)),
                op,
            ),
        decreases op_stack.len(),
    {
        let ghost output = outputs_model(out_queue);
        let top = op_stack[op_stack.len() - 1];
        op_stack.pop();
        out_queue.push_back(ExprOutput::Operator(top));
        assert(outputs_model(out_queue) =~= output.push(OutputModel::Operator(top)));
    }
    let pushed = match op {
        Operator::Plus => if after_operator_token(last_token) {
            Operator::Pos
        } else {
            Operator::Plus
        },
        Operator::Minus => if after_operator_token(last_token) {
            Operator::Neg
        } else {
            Operator::Minus
        },
        _ => op,
    };
    op_stack.push(pushed);
    Ok(())
}

/// Moves all pending operators to the output queue, the top first.
#[verifier::loop_isolation(false)]
fn flush(op_stack: &mut Vec<Operator>, out_queue: &mut VecDeque<ExprOutput>)
    ensures
        outputs_model(final(out_queue)) == flushed(old(op_stack)@, outputs_model(old(out_queue))),
{
    while op_stack.len() > 0
        invariant
            flushed(op_stack@, outputs_model(out_queue)) == flushed(
                old(op_stack)@,
                outputs_model(old(out_queue)),
            ),
        decreases op_stack.len(),
    {
        let ghost output = outputs_model(out_queue);
        let top = op_stack[op_stack.len() - 1];
        op_stack.pop();
        out_queue.push_back(ExprOutput::Operator(top));
        assert(outputs_model(out_queue) =~= output.push(OutputModel::Operator(top)));
    }
}

/// Builds the tree that an output queue in postfix order stands for.
#[verifier::loop_isolation(false)]
fn reduce(out_queue: VecDeque<ExprOutput>) -> (tree: Result<Expression, Error>)
    ensures
        expression_outcome(tree) == reduced(outputs_model(&out_queue), Seq::empty()),
{
    let mut queue = out_queue;
    let mut stack: Vec<Expression> = Vec::new();
    assert(expressions_model(&stack) =~= Seq::empty());
    while queue.len() > 0
        invariant
            reduced(outputs_model(&queue), expressions_model(&stack)) == reduced(
                outputs_model(&out_queue),
                Seq::empty(),
            ),
        decreases queue.len(),
    {
        let ghost output = outputs_model(&queue);
        let ghost operands = expressions_model(&stack);
        let item = queue.pop_front();
        assert(outputs_model(&queue) =~= output.skip(1));
        match item {
            None => {},
            Some(ExprOutput::Expression(expression)) => {
                stack.push(expression);
                assert(expressions_model(&stack) =~= operands.push(expression@));
            },
            Some(ExprOutput::Operator(op)) => {
                if op.unary() {
                    match stack.pop() {
                        None => {
                            return Err(Error::MalformedExpression);
                        },
                        Some(operand) => {
                            let unary = Expression::Unary(op, Box::new(operand));
                            stack.push(unary);
                            assert(expressions_model(&stack) =~= operands.drop_last().push(
                                unary@,
                            ));
                        },
                    }
                } else {
                    if stack.len() < 2 {
                        return Err(Error::MalformedExpression);
                    }
                    let rhs = stack.pop();
                    let lhs = stack.pop();
                    match (lhs, rhs) {
                        (Some(lhs), Some(rhs)) => {
                            let binary = Expression::Binary(Box::new(lhs), op, Box::new(rhs));
                            stack.push(binary);
                            assert(expressions_model(&stack) =~= operands.drop_last().drop_last().push(
                                binary@,
                            ));
                        },
                        _ => {
                            return Err(Error::MalformedExpression);
                        },
                    }
                }
            },
        }
    }
    if stack.len() != 1 {
        return Err(Error::MalformedExpression);
    }
    match stack.pop() {
        Some(tree) => Ok(tree),
        None => Err(Error::MalformedExpression),
    }
}

/// Digits get larger values when digits are added behind them.
proof fn lemma_decimal_value_grows(digits: Seq<char>, n: int)
    requires
        all_digits(digits),
        0 <= n <= digits.len(),
    ensures
        0 <= decimal_value(digits.take(n)) <= decimal_value(digits),
    decreases digits.len(),
{
    if digits.len() == 0 {
        assert(digits.take(n) =~= digits);
    } else if n == digits.len() {
        assert(digits.take(n) =~= digits);
        lemma_decimal_value_grows(digits.drop_last(), n - 1);
    } else {
        assert(digits.drop_last().take(n) =~= digits.take(n));
        lemma_decimal_value_grows(digits.drop_last(), n);
    }
}

/// The value of a text of decimal digits, if it is one and fits.
#[verifier::loop_isolation(false)]
pub fn parse_integer(text: &str) -> (value: Option<i64>)
    ensures
        match value {
            Some(value) => all_digits(text@) && decimal_value(text@) == value,
            None => !(all_digits(text@) && decimal_value(text@) <= i64::MAX),
        },
{
    let length = text.unicode_len();
    let mut i: usize = 0;
    while i < length
        invariant
            i <= length,
            forall|j: int| 0 <= j < i ==> '0' <= #[trigger] text@[j] <= '9',
        decreases length - i,
    {
        let c = text.get_char(i);
        if !('0' <= c && c <= '9') {
            return None;
        }
        i += 1;
    }
    let mut value: i64 = 0;
    let mut k: usize = 0;
    while k < length
        invariant
            k <= length,
            all_digits(text@),
            value == decimal_value(text@.take(k as int)),
            0 <= value,
        decreases length - k,
    {
        let c = text.get_char(k);
        let digit: i64 = (c as u32 - '0' as u32) as i64;
        proof {
            assert(text@.take(k + 1).drop_last() =~= text@.take(k as int));
            assert(text@.take(k + 1).last() == c);
            lemma_decimal_value_grows(text@, k + 1);
        }
        if value > (i64::MAX - digit) / 10 {
            return None;
        }
        value = value * 10 + digit;
        k += 1;
    }
    assert(text@.take(length as int) =~= text@);
    Some(value)
}

/// The model of a parsed declaration, or the error.
pub open spec fn declaration_outcome(result: Result<Declaration, Error>) -> Result<
    DeclarationModel,
    Error,
> {
    match result {
        Ok(value) => Ok(value@),
        Err(error) => Err(error),
    }
}

/// The models of parsed declarations, or the error.
pub open spec fn declarations_outcome(result: Result<Vec<Declaration>, Error>) -> Result<
    Seq<DeclarationModel>,
    Error,
> {
    match result {
        Ok(value) => Ok(declarations_model(&value)),
        Err(error) => Err(error),
    }
}

/// The model of a parsed named, typed item, or the error.
pub open spec fn field_outcome(result: Result<(String, Type), Error>) -> Result<
    (Seq<char>, TypeModel),
    Error,
> {
    match result {
        Ok(value) => Ok((value.0@, value.1@)),
        Err(error) => Err(error),
    }
}

/// The models of parsed named, typed items, or the error.
pub open spec fn fields_outcome(result: Result<Vec<(String, Type)>, Error>) -> Result<
    Seq<(Seq<char>, TypeModel)>,
    Error,
> {
    match result {
        Ok(value) => Ok(fields_model(&value)),
        Err(error) => Err(error),
    }
}

/// Whether a text ends with `::`.
pub fn ends_with_double_colon(text: &str) -> (ends: bool)
    ensures
        ends == ends_with_colons(text@),
{
    let length = text.unicode_len();
    length >= 2 && text.get_char(length - 1) == ':' && text.get_char(length - 2) == ':'
}

/// Gives the item named `name` the type `item_type`, or puts the item where
/// its name stands in the order of the names when there is none of that
/// name.
#[verifier::loop_isolation(false)]
pub fn insert_field(fields: &mut Vec<(String, Type)>, name: String, item_type: Type)
    ensures
        fields_model(final(fields)) == inserted(fields_model(old(fields)), name@, item_type@),
        in_order(fields_model(old(fields))) ==> in_order(fields_model(final(fields))),
{
    let ghost before = fields_model(fields);
    let mut place: usize = 0;
    while place < fields.len() && text_before(fields[place].0.as_str(), name.as_str())
        invariant
            place <= fields.len(),
            fields_model(fields) == before,
            place_of(before, name@, place as int) == place_of(before, name@, 0),
        decreases fields.len() - place,
    {
        place += 1;
    }
    proof {
        if in_order(before) {
            lemma_inserted_in_order(before, name@, item_type@);
        }
    }
    if place < fields.len() && same_text(fields[place].0.as_str(), name.as_str()) {
        fields.set(place, (name, item_type));
        assert(fields_model(fields) =~= before.update(place as int, (name@, item_type@)));
    } else {
        fields.insert(place, (name, item_type));
        assert(fields_model(fields) =~= before.insert(place as int, (name@, item_type@)));
    }
}

/// Adds `nested` behind `imports`, with `prefix` in front of each path.
#[verifier::loop_isolation(false)]
fn append_prefixed(
    imports: &mut Vec<(String, String)>,
    nested: Vec<(String, String)>,
    prefix: &String,
)
    ensures
        pairs_model(final(imports)) == pairs_model(old(imports)) + prefixed(
            pairs_model(&nested),
            prefix@,
        ),
{
    let ghost before = pairs_model(imports);
    let ghost added = prefixed(pairs_model(&nested), prefix@);
    let mut i: usize = 0;
    while i < nested.len()
        invariant
            i <= nested.len(),
            pairs_model(imports) == before + added.take(i as int),
        decreases nested.len() - i,
    {
        let ghost current = pairs_model(imports);
        let path = prefix.clone().concat(nested[i].0.as_str());
        let name = nested[i].1.clone();
        let ghost pair = (path@, name@);
        imports.push((path, name));
        assert(pairs_model(imports) =~= current.push(pair));
        assert(pair == added[i as int]);
        assert(added.take(i + 1) =~= added.take(i as int).push(added[i as int]));
        assert(pairs_model(imports) =~= before + added.take(i + 1));
        i += 1;
    }
    assert(added.take(nested.len() as int) =~= added);
}

impl Parser {
    /// The tokens that this parser reads.
    pub closed spec fn tokens(&self) -> Seq<Lexed> {
        lexemes_model(&self.tokens)
    }

    /// The position of the token that is read next.
    pub closed spec fn position(&self) -> int {
        self.token_pos as int
    }

    /// The slots of the conditional expressions that are being parsed, the
    /// innermost last.
    pub closed spec fn yields(&self) -> Seq<Option<ExpressionModel>> {
        Seq::new(self.yield_stack.len() as nat, |i: int| optional_model(&self.yield_stack[i]))
    }

    /// The position is inside the tokens or at their end.
    pub closed spec fn wf(&self) -> bool {
        self.token_pos <= self.tokens.len()
    }

    /// Creates a new parser, wrapping the given source
    pub fn new(source: &str) -> (parser: Parser)
        ensures
            parser.wf(),
            parser.tokens() == tokens_of(source@),
            parser.position() == 0,
            parser.yields() == Seq::<Option<ExpressionModel>>::empty(),
    {
        Parser::from_lexemes(tokenize(source))
    }

    /// A parser of the given lexemes.
    pub fn from_lexemes(tokens: Vec<Lexeme>) -> (parser: Parser)
        ensures
            parser.wf(),
            parser.tokens() == lexemes_model(&tokens),
            parser.position() == 0,
            parser.yields() == Seq::<Option<ExpressionModel>>::empty(),
    {
        let parser = Parser { tokens, token_pos: 0, yield_stack: Vec::new() };
        assert(parser.yields() =~= Seq::<Option<ExpressionModel>>::empty());
        parser
    }

    fn get_token(&self) -> (token: Result<Token, Error>)
        ensures
            token == match token_at(self.tokens(), self.position()) {
                Some(token) => Ok::<Token, Error>(token),
                None => Err(Error::Unknown),
            },
    {
        if self.token_pos < self.tokens.len() {
            Ok(self.tokens[self.token_pos].token)
        } else {
            Err(Error::Unknown)
        }
    }

    fn peek_token(&self, offset: isize) -> (token: Result<Token, Error>)
        ensures
            token == match token_at(self.tokens(), self.position() + offset) {
                Some(token) => Ok::<Token, Error>(token),
                None => Err(Error::Unknown),
            },
    {
        let pos: i128 = self.token_pos as i128 + offset as i128;
        if 0 <= pos && pos < self.tokens.len() as i128 {
            Ok(self.tokens[pos as usize].token)
        } else {
            Err(Error::Unknown)
        }
    }

    fn advance(&mut self)
        requires
            old(self).position() < old(self).tokens().len(),
        ensures
            final(self).wf(),
            final(self).tokens() == old(self).tokens(),
            final(self).yields() == old(self).yields(),
            final(self).position() == old(self).position() + 1,
    {
        self.token_pos += 1;
    }

    fn get_value(&self) -> (value: Result<String, Error>)
        ensures
            match value {
                Ok(text) => self.position() < self.tokens().len() && text@ == text_at(
                    self.tokens(),
                    self.position(),
                ),
                Err(error) => error == Error::Unknown && self.position() >= self.tokens().len(),
            },
    {
        if self.token_pos < self.tokens.len() {
            Ok(self.tokens[self.token_pos].text.clone())
        } else {
            Err(Error::Unknown)
        }
    }

    fn get_range(&self) -> (range: Result<(usize, usize), Error>)
        ensures
            match range {
                Ok(found) => self.position() < self.tokens().len() && found == (
                    self.tokens()[self.position()].start,
                    self.tokens()[self.position()].end,
                ),
                Err(error) => error == Error::Unknown && self.position() >= self.tokens().len(),
            },
    {
        if self.token_pos < self.tokens.len() {
            Ok((self.tokens[self.token_pos].start, self.tokens[self.token_pos].end))
        } else {
            Err(Error::Unknown)
        }
    }

    /// The positions in the source, counted in characters, at which the
    /// token that is read next begins and ends.
    pub fn current_range(&self) -> (range: Option<(usize, usize)>)
        ensures
            range is Some <==> self.position() < self.tokens().len(),
            range matches Some(found) ==> found == (
                self.tokens()[self.position()].start,
                self.tokens()[self.position()].end,
            ),
    {
        match self.get_range() {
            Ok(range) => Some(range),
            Err(_) => None,
        }
    }

    /// Parses a type.
    #[verifier::loop_isolation(false)]
    pub fn parse_type(&mut self) -> (parsed: Result<Type, Error>)
        requires
            old(self).wf(),
        ensures
            final(self).wf(),
            final(self).tokens() == old(self).tokens(),
            final(self).yields() == old(self).yields(),
            meets_step(
                type_outcome(parsed),
                final(self).position(),
                type_at(old(self).tokens(), old(self).position()),
            ),
            parsed is Ok ==> advanced(
                old(self).tokens(),
                old(self).position(),
                final(self).position(),
            ),
        decreases old(self).tokens().len() - old(self).position(),
    {
        let token = self.get_token()?;
        match token {
            Token::OpenParan => {
                self.advance();
                let mut types: Vec<Type> = Vec::new();
                let first = self.get_token()?;
                if first == Token::CloseParan {
                    self.advance();
                    assert(types_model(&types) =~= Seq::empty());
                    return Ok(Type::Tuple(types));
                }
                let ghost tokens = self.tokens();
                let ghost start = self.position();
                let ghost yields = self.yields();
                assert(types_model(&types) =~= Seq::empty());
                loop
                    invariant
                        self.wf(),
                        self.tokens() == tokens,
                        self.yields() == yields,
                        start <= self.position() < tokens.len(),
                        old(self).position() + 1 == start,
                        old(self).tokens() == tokens,
                        tuple_items(tokens, self.position(), types_model(&types)) == tuple_items(
                            tokens,
                            start,
                            Seq::empty(),
                        ),
                    decreases tokens.len() - self.position(),
                {
                    let ghost before = types_model(&types);
                    let ghost here = self.position();
                    let item = self.parse_type()?;
                    let next = self.get_token()?;
                    types.push(item);
                    assert(types_model(&types) =~= before.push(item@));
                    if next == Token::Comma {
                        self.advance();
                        if self.token_pos >= self.tokens.len() {
                            return Err(Error::Unknown);
                        }
                    } else if next == Token::CloseParan {
                        self.advance();
                        return Ok(Type::Tuple(types));
                    } else {
                        return Err(Error::ExpectedType);
                    }
                }
            },
            Token::Ref => {
                self.advance();
                let inner = self.parse_type()?;
                Ok(Type::Ref(Box::new(inner)))
            },
            Token::Identifier => {
                let name = self.get_value()?;
                self.advance();
                Ok(Type::Named(name))
            },
            Token::PrimitiveType => {
                let name = self.get_value()?;
                self.advance();
                if same_text(name.as_str(), "int") {
                    Ok(Type::Int)
                } else if same_text(name.as_str(), "float") {
                    Ok(Type::Float)
                } else if same_text(name.as_str(), "bool") {
                    Ok(Type::Bool)
                } else if same_text(name.as_str(), "string") {
                    Ok(Type::Str)
                } else {
                    Err(Error::ExpectedType)
                }
            },
            _ => Err(Error::ExpectedType),
        }
    }
    /// Parses a statement list, breaking on a set of given delimiters
    #[verifier::loop_isolation(false)]
    pub fn parse_stmt_list(&mut self, delims: &[Token]) -> (parsed: Result<Vec<Statement>, Error>)
        requires
            old(self).wf(),
        ensures
            final(self).wf(),
            final(self).tokens() == old(self).tokens(),
            keeps_outer(old(self).yields(), final(self).yields()),
            parsed is Ok ==> old(self).position() <= final(self).position(),
            meets(
                statements_outcome(parsed),
                final(self).position(),
                final(self).yields(),
                statements_from(
                    old(self).tokens(),
                    old(self).position(),
                    old(self).yields(),
                    delims@,
                    Seq::empty(),
                ),
            ),
        decreases old(self).tokens().len() - old(self).position(), 12int,
    {
        let mut statements: Vec<Statement> = Vec::new();
        let ghost tokens = self.tokens();
        let ghost expected = statements_from(
            tokens,
            self.position(),
            self.yields(),
            delims@,
            Seq::empty(),
        );
        assert(statements_model(&statements) =~= Seq::empty());
        let mut done = false;
        while !done && self.token_pos < self.tokens.len()
            invariant
                self.wf(),
                self.tokens() == tokens,
                old(self).position() <= self.position(),
                keeps_outer(old(self).yields(), self.yields()),
                done ==> expected == Ok::<Parsed<Seq<ast::StatementModel>>, Error>(
                    Parsed {
                        value: statements_model(&statements),
                        pos: self.position(),
                        yields: self.yields(),
                    },
                ),
                !done ==> expected == statements_from(
                    tokens,
                    self.position(),
                    self.yields(),
                    delims@,
                    statements_model(&statements),
                ),
            decreases tokens.len() - self.position() + if done { 0int } else { 1int },
        {
            let token = self.get_token()?;
            if contains_token(delims, token) {
                self.advance();
                done = true;
            } else {
                let ghost before = statements_model(&statements);
                let statement = self.parse_stmt()?;
                statements.push(statement);
                assert(statements_model(&statements) =~= before.push(statement@));
            }
        }
        Ok(statements)
    }

    /// Parses the value of a `return` or a `yield` whose keyword is read.
    fn parse_optional_value(&mut self) -> (parsed: Result<Option<Expression>, Error>)
        requires
            old(self).wf(),
            old(self).position() < old(self).tokens().len(),
        ensures
            final(self).wf(),
            final(self).tokens() == old(self).tokens(),
            extends(old(self).yields(), final(self).yields()),
            meets(
                match parsed {
                    Ok(value) => Ok(optional_model(&value)),
                    Err(error) => Err(error),
                },
                final(self).position(),
                final(self).yields(),
                optional_value_at(old(self).tokens(), old(self).position(), old(self).yields()),
            ),
            parsed is Ok ==> advanced(
                old(self).tokens(),
                old(self).position(),
                final(self).position(),
            ),
        decreases old(self).tokens().len() - old(self).position(), 10int,
    {
        self.advance();
        let next_token = self.get_token()?;
        if next_token != Token::Semicolon {
            let delims = [Token::Semicolon];
            assert(delims@ =~= seq![Token::Semicolon]);
            let expr = self.parse_expr(delims.as_slice())?;
            Ok(Some(expr))
        } else {
            self.advance();
            Ok(None)
        }
    }

    /// Parses a single statement
    #[verifier::rlimit(50)]
    pub fn parse_stmt(&mut self) -> (parsed: Result<Statement, Error>)
        requires
            old(self).wf(),
        ensures
            final(self).wf(),
            final(self).tokens() == old(self).tokens(),
            keeps_outer(old(self).yields(), final(self).yields()),
            meets(
                statement_outcome(parsed),
                final(self).position(),
                final(self).yields(),
                statement_at(old(self).tokens(), old(self).position(), old(self).yields()),
            ),
            parsed is Ok ==> advanced(
                old(self).tokens(),
                old(self).position(),
                final(self).position(),
            ),
        decreases old(self).tokens().len() - old(self).position(), 11int,
    {
        let token = self.get_token()?;
        match token {
            Token::Var => self.parse_stmt_var_decl(),
            Token::On => self.parse_stmt_on(),
            Token::While => self.parse_stmt_while(),
            Token::Yield => {
                let expr_opt = self.parse_optional_value()?;
                if let Some(expr) = &expr_opt {
                    let depth = self.yield_stack.len();
                    if depth > 0 && self.yield_stack[depth - 1].is_none() {
                        let ghost before = self.yields();
                        let copy = expr.duplicate();
                        self.yield_stack.set(depth - 1, Some(copy));
                        assert(self.yields() =~= yielded(before, expr@));
                    }
                }
                Ok(Statement::Yield(expr_opt))
            },
            Token::Return => {
                let expr_opt = self.parse_optional_value()?;
                Ok(Statement::Return(expr_opt))
            },
            Token::Continue => {
                self.advance();
                let next_token = self.get_token()?;
                if next_token != Token::Semicolon {
                    Err(Error::ExpectedSemicolon)
                } else {
                    self.advance();
                    Ok(Statement::Continue)
                }
            },
            Token::Break => {
                self.advance();
                let next_token = self.get_token()?;
                if next_token != Token::Semicolon {
                    Err(Error::ExpectedSemicolon)
                } else {
                    self.advance();
                    Ok(Statement::Break)
                }
            },
            _ => {
                let delims = [Token::Semicolon];
                assert(delims@ =~= seq![Token::Semicolon]);
                let expr = self.parse_expr(delims.as_slice())?;
                Ok(Statement::ExpressionStmt(expr))
            },
        }
    }

    /// Parses a variable declaration statement
    #[verifier::rlimit(50)]
    pub fn parse_stmt_var_decl(&mut self) -> (parsed: Result<Statement, Error>)
        requires
            old(self).wf(),
        ensures
            final(self).wf(),
            final(self).tokens() == old(self).tokens(),
            extends(old(self).yields(), final(self).yields()),
            meets(
                statement_outcome(parsed),
                final(self).position(),
                final(self).yields(),
                var_declaration_at(old(self).tokens(), old(self).position(), old(self).yields()),
            ),
            parsed is Ok ==> advanced(
                old(self).tokens(),
                old(self).position(),
                final(self).position(),
            ),
        decreases old(self).tokens().len() - old(self).position(), 10int,
    {
        let mut token = self.get_token()?;
        if token != Token::Var {
            return Err(Error::ExpectedVar);
        }
        self.advance();

        token = self.get_token()?;
        if token != Token::Identifier {
            return Err(Error::ExpectedIdentifier);
        }
        let var_name = self.get_value()?;
        self.advance();

        token = self.get_token()?;
        let var_type = match token {
            Token::Colon => {
                self.advance();
                self.parse_type()?
            },
            _ => Type::Auto,
        };

        token = self.get_token()?;
        if token != Token::Assign {
            return Err(Error::ExpectedAssign);
        }
        self.advance();

        let delims = [Token::Semicolon];
        assert(delims@ =~= seq![Token::Semicolon]);
        let var_expr = self.parse_expr(delims.as_slice())?;

        self.get_token()?;

        Ok(Statement::VarDeclaration { name: var_name, var_type, expr: var_expr })
    }

    /// Parses a condition up to `{` and the block behind it.
    fn parse_guarded_block(&mut self) -> (parsed: Result<(Expression, Vec<Statement>), Error>)
        requires
            old(self).wf(),
        ensures
            final(self).wf(),
            final(self).tokens() == old(self).tokens(),
            keeps_outer(old(self).yields(), final(self).yields()),
            meets(
                match parsed {
                    Ok(value) => Ok((value.0@, statements_model(&value.1))),
                    Err(error) => Err(error),
                },
                final(self).position(),
                final(self).yields(),
                guarded_block_at(old(self).tokens(), old(self).position(), old(self).yields()),
            ),
            parsed is Ok ==> advanced(
                old(self).tokens(),
                old(self).position(),
                final(self).position(),
            ),
        decreases old(self).tokens().len() - old(self).position(), 14int,
    {
        let open = [Token::OpenBlock];
        assert(open@ =~= seq![Token::OpenBlock]);
        let condition = self.parse_expr(open.as_slice())?;
        let close = [Token::CloseBlock];
        assert(close@ =~= block_delimiters());
        let body = self.parse_stmt_list(close.as_slice())?;
        Ok((condition, body))
    }

    /// Parses the branches of a conditional whose `on` is read next.
    #[verifier::loop_isolation(false)]
    #[verifier::rlimit(50)]
    fn parse_branches(&mut self) -> (parsed: Result<
        (Expression, Vec<Statement>, Vec<(Expression, Vec<Statement>)>, Vec<Statement>),
        Error,
    >)
        requires
            old(self).wf(),
        ensures
            final(self).wf(),
            final(self).tokens() == old(self).tokens(),
            keeps_outer(old(self).yields(), final(self).yields()),
            meets(
                match parsed {
                    Ok(value) => Ok(
                        Branches {
                            expr: value.0@,
                            cond_body: statements_model(&value.1),
                            cond_chain: chain_model(&value.2),
                            else_body: statements_model(&value.3),
                        },
                    ),
                    Err(error) => Err(error),
                },
                final(self).position(),
                final(self).yields(),
                branches_at(old(self).tokens(), old(self).position(), old(self).yields()),
            ),
            parsed is Ok ==> advanced(
                old(self).tokens(),
                old(self).position(),
                final(self).position(),
            ),
        decreases old(self).tokens().len() - old(self).position(), 5int,
    {
        let token = self.get_token()?;
        if token != Token::On {
            return Err(Error::ExpectedOn);
        }
        self.advance();
        let (cond_expr, cond_body) = self.parse_guarded_block()?;
        let mut else_body: Vec<Statement> = Vec::new();
        let mut cond_chain: Vec<(Expression, Vec<Statement>)> = Vec::new();
        let ghost tokens = self.tokens();
        let ghost expected = chain_from(tokens, self.position(), self.yields(), Seq::empty());
        assert(chain_model(&cond_chain) =~= Seq::empty());
        assert(statements_model(&else_body) =~= Seq::empty());
        let mut done = false;
        while !done && self.token_pos < self.tokens.len() && self.tokens[self.token_pos].token
            == Token::Else
            invariant
                self.wf(),
                self.tokens() == tokens,
                old(self).position() < self.position(),
                keeps_outer(old(self).yields(), self.yields()),
                done ==> expected == Ok::<
                    Parsed<
                        (Seq<(ExpressionModel, Seq<ast::StatementModel>)>, Seq<ast::StatementModel>),
                    >,
                    Error,
                >(
                    Parsed {
                        value: (chain_model(&cond_chain), statements_model(&else_body)),
                        pos: self.position(),
                        yields: self.yields(),
                    },
                ),
                !done ==> statements_model(&else_body) == Seq::<ast::StatementModel>::empty(),
                !done ==> expected == chain_from(
                    tokens,
                    self.position(),
                    self.yields(),
                    chain_model(&cond_chain),
                ),
            decreases tokens.len() - self.position() + if done { 0int } else { 1int },
        {
            let next_token = self.peek_token(1)?;
            if next_token == Token::On {
                self.advance();
                self.advance();
                let ghost before = chain_model(&cond_chain);
                let (else_if_expr, else_if_body) = self.parse_guarded_block()?;
                self.get_token()?;
                cond_chain.push((else_if_expr, else_if_body));
                assert(chain_model(&cond_chain) =~= before.push(
                    (else_if_expr@, statements_model(&else_if_body)),
                ));
            } else if next_token == Token::OpenBlock {
                self.advance();
                self.advance();
                let close = [Token::CloseBlock];
                assert(close@ =~= block_delimiters());
                else_body = self.parse_stmt_list(close.as_slice())?;
                done = true;
            } else {
                return Err(Error::ExpectedOpenBlock);
            }
        }
        Ok((cond_expr, cond_body, cond_chain, else_body))
    }

    /// Parses a conditional statement
    pub fn parse_stmt_on(&mut self) -> (parsed: Result<Statement, Error>)
        requires
            old(self).wf(),
        ensures
            final(self).wf(),
            final(self).tokens() == old(self).tokens(),
            keeps_outer(old(self).yields(), final(self).yields()),
            meets(
                statement_outcome(parsed),
                final(self).position(),
                final(self).yields(),
                condition_statement_at(
                    old(self).tokens(),
                    old(self).position(),
                    old(self).yields(),
                ),
            ),
            parsed is Ok ==> advanced(
                old(self).tokens(),
                old(self).position(),
                final(self).position(),
            ),
        decreases old(self).tokens().len() - old(self).position(), 10int,
    {
        self.get_token()?;
        let (expr, cond_body, cond_chain, else_body) = self.parse_branches()?;
        Ok(Statement::Condition { expr, cond_body, else_body, cond_chain })
    }

    /// Parses a conditional expression
    #[verifier::rlimit(50)]
    pub fn parse_expr_on(&mut self) -> (parsed: Result<Expression, Error>)
        requires
            old(self).wf(),
        ensures
            final(self).wf(),
            final(self).tokens() == old(self).tokens(),
            extends(old(self).yields(), final(self).yields()),
            meets(
                expression_outcome(parsed),
                final(self).position(),
                final(self).yields(),
                condition_expression_at(
                    old(self).tokens(),
                    old(self).position(),
                    old(self).yields(),
                ),
            ),
            parsed is Ok ==> advanced(
                old(self).tokens(),
                old(self).position(),
                final(self).position(),
            ),
        decreases old(self).tokens().len() - old(self).position(), 8int,
    {
        self.get_token()?;
        let ghost before = self.yields();
        self.yield_stack.push(None);
        assert(self.yields() =~= before.push(None));
        let (expr, cond_body, cond_chain, else_body) = self.parse_branches()?;
        let ghost slots = self.yields();
        let yield_expr = match self.yield_stack.pop() {
            Some(slot) => slot,
            None => {
                return Err(Error::Unknown);
            },
        };
        assert(self.yields() =~= slots.drop_last());
        assert(optional_model(&yield_expr) == slots.last());
        let yield_expr = match yield_expr {
            Some(expr) => Some(Box::new(expr)),
            None => None,
        };
        Ok(Expression::Condition { expr: Box::new(expr), cond_body, else_body, cond_chain, yield_expr })
    }

    /// Parses a while statement
    pub fn parse_stmt_while(&mut self) -> (parsed: Result<Statement, Error>)
        requires
            old(self).wf(),
        ensures
            final(self).wf(),
            final(self).tokens() == old(self).tokens(),
            keeps_outer(old(self).yields(), final(self).yields()),
            meets(
                statement_outcome(parsed),
                final(self).position(),
                final(self).yields(),
                while_statement_at(old(self).tokens(), old(self).position(), old(self).yields()),
            ),
            parsed is Ok ==> advanced(
                old(self).tokens(),
                old(self).position(),
                final(self).position(),
            ),
        decreases old(self).tokens().len() - old(self).position(), 10int,
    {
        let token = self.get_token()?;
        if token != Token::While {
            return Err(Error::ExpectedWhile);
        }
        self.advance();
        let (while_expr, while_body) = self.parse_guarded_block()?;
        Ok(Statement::While(while_expr, while_body))
    }

    /// Parses an expression
    #[verifier::loop_isolation(false)]
    #[verifier::rlimit(50)]
    pub fn parse_expr(&mut self, delims: &[Token]) -> (parsed: Result<Expression, Error>)
        requires
            old(self).wf(),
        ensures
            final(self).wf(),
            final(self).tokens() == old(self).tokens(),
            extends(old(self).yields(), final(self).yields()),
            meets(
                expression_outcome(parsed),
                final(self).position(),
                final(self).yields(),
                expression_at(
                    old(self).tokens(),
                    old(self).position(),
                    old(self).yields(),
                    delims@,
                ),
            ),
            parsed is Ok ==> advanced(
                old(self).tokens(),
                old(self).position(),
                final(self).position(),
            ),
        decreases old(self).tokens().len() - old(self).position(), 9int,
    {
        if let Token::On = self.get_token()? {
            return self.parse_expr_on();
        }
        let mut op_stack: Vec<Operator> = Vec::new();
        let mut out_queue: VecDeque<ExprOutput> = VecDeque::new();
        let mut paran_count: usize = 0;
        let mut last_token: Option<Token> = None;

        let ghost tokens = self.tokens();
        let ghost expected = shunted(
            tokens,
            self.position(),
            self.yields(),
            delims@,
            shunting_start(),
        );
        assert(outputs_model(&out_queue) =~= Seq::empty());
        let mut done = false;
        while !done && self.token_pos < self.tokens.len()
            invariant
                self.wf(),
                self.tokens() == tokens,
                old(self).position() <= self.position(),
                done ==> old(self).position() < self.position(),
                paran_count <= self.position() - old(self).position(),
                extends(old(self).yields(), self.yields()),
                done ==> expected == Ok::<Parsed<Shunting>, Error>(
                    Parsed {
                        value: Shunting {
                            operators: op_stack@,
                            output: outputs_model(&out_queue),
                            open_parens: paran_count as int,
                            last: last_token,
                        },
                        pos: self.position(),
                        yields: self.yields(),
                    },
                ),
                !done ==> expected == shunted(
                    tokens,
                    self.position(),
                    self.yields(),
                    delims@,
                    Shunting {
                        operators: op_stack@,
                        output: outputs_model(&out_queue),
                        open_parens: paran_count as int,
                        last: last_token,
                    },
                ),
            decreases tokens.len() - self.position() + if done { 0int } else { 1int },
        {
            // Read a token
            let token = self.get_token()?;
            if contains_token(delims, token) || (token == Token::CloseParan && paran_count == 0) {
                self.advance();
                done = true;
            } else {
                match Operator::from(token) {
                    // If its an "(", push it onto the operator stack
                    Some(Operator::OpenParan) => {
                        paran_count += 1;
                        op_stack.push(Operator::OpenParan);
                    },
                    // If its an ")", move the operators of the group to the output
                    Some(Operator::CloseParan) => {
                        paran_count -= 1;
                        close_group(&mut op_stack, &mut out_queue)?;
                    },
                    // Any other operator
                    Some(op) => {
                        push_operator(&mut op_stack, &mut out_queue, last_token, op)?;
                    },
                    // If the token is not an operator it is an operand
                    None => {
                        let ghost output = outputs_model(&out_queue);
                        let expr = self.parse_expr_non_arithmetic()?;
                        out_queue.push_back(ExprOutput::Expression(expr));
                        assert(outputs_model(&out_queue) =~= output.push(
                            OutputModel::Expression(expr@),
                        ));
                    },
                }
                last_token = Some(self.get_token()?);
                self.advance();
            }
        }
        flush(&mut op_stack, &mut out_queue);
        reduce(out_queue)
    }

    /// Parses an operand: a literal, a call or a variable. The last token of
    /// the operand is left to be read.
    #[verifier::rlimit(50)]
    fn parse_expr_non_arithmetic(&mut self) -> (parsed: Result<Expression, Error>)
        requires
            old(self).wf(),
        ensures
            final(self).wf(),
            final(self).tokens() == old(self).tokens(),
            extends(old(self).yields(), final(self).yields()),
            meets(
                expression_outcome(parsed),
                final(self).position(),
                final(self).yields(),
                operand_at(old(self).tokens(), old(self).position(), old(self).yields()),
            ),
            parsed is Ok ==> old(self).position() <= final(self).position() < final(self).tokens().len(),
        decreases old(self).tokens().len() - old(self).position(), 7int,
    {
        let token = self.get_token()?;
        let expr = match token {
            Token::IntLiteral => {
                let str_val = self.get_value()?;
                match parse_integer(str_val.as_str()) {
                    Some(int_val) => Expression::IntLiteral(int_val),
                    None => {
                        return Err(Error::Unknown);
                    },
                }
            },
            Token::FloatLiteral => {
                let str_val = self.get_value()?;
                Expression::FloatLiteral(str_val)
            },
            Token::BoolLiteral => {
                let str_val = self.get_value()?;
                if same_text(str_val.as_str(), "true") {
                    Expression::BoolLiteral(true)
                } else if same_text(str_val.as_str(), "false") {
                    Expression::BoolLiteral(false)
                } else {
                    return Err(Error::Unknown);
                }
            },
            Token::StringLiteral => {
                let str_val = self.get_value()?;
                let length = str_val.as_str().unicode_len();
                if length >= 2 {
                    Expression::StringLiteral(
                        String::from_str(str_val.as_str().substring_char(1, length - 1)),
                    )
                } else {
                    Expression::StringLiteral(String::new())
                }
            },
            Token::Identifier => {
                let before_pos = self.token_pos;
                let depth = self.yield_stack.len();
                let ghost slots = self.yields();
                match self.parse_expr_call() {
                    Ok(call) => call,
                    Err(_) => {
                        self.token_pos = before_pos;
                        self.yield_stack.truncate(depth);
                        assert(self.yields() =~= slots);
                        self.parse_expr_variable()?
                    },
                }
            },
            _ => {
                return Err(Error::Unknown);
            },
        };
        Ok(expr)
    }

    fn parse_expr_variable(&self) -> (parsed: Result<Expression, Error>)
        ensures
            match token_at(self.tokens(), self.position()) {
                None => parsed == Err::<Expression, Error>(Error::Unknown),
                Some(Token::Identifier) => parsed is Ok && parsed->Ok_0@
                    == ExpressionModel::Variable(text_at(self.tokens(), self.position())),
                Some(_) => parsed == Err::<Expression, Error>(Error::ExpectedIdentifier),
            },
    {
        let token = self.get_token()?;
        if token != Token::Identifier {
            return Err(Error::ExpectedIdentifier);
        }
        let ident_string = self.get_value()?;
        Ok(Expression::Variable(ident_string))
    }

    fn parse_expr_call(&mut self) -> (parsed: Result<Expression, Error>)
        requires
            old(self).wf(),
        ensures
            final(self).wf(),
            final(self).tokens() == old(self).tokens(),
            extends(old(self).yields(), final(self).yields()),
            meets(
                expression_outcome(parsed),
                final(self).position(),
                final(self).yields(),
                call_at(old(self).tokens(), old(self).position(), old(self).yields()),
            ),
            parsed is Ok ==> old(self).position() < final(self).position() < final(self).tokens().len(),
        decreases old(self).tokens().len() - old(self).position(), 6int,
    {
        let mut token = self.get_token()?;
        if token != Token::Identifier {
            return Err(Error::ExpectedIdentifier);
        }
        let ident_string = self.get_value()?;
        self.advance();

        token = self.get_token()?;
        if token != Token::OpenParan {
            return Err(Error::ExpectedOpenParan);
        }
        self.advance();
        let call_args = self.parse_expr_call_args()?;
        Ok(Expression::Call(ident_string, call_args))
    }

    #[verifier::loop_isolation(false)]
    fn parse_expr_call_args(&mut self) -> (parsed: Result<Vec<Expression>, Error>)
        requires
            old(self).wf(),
            old(self).position() >= 1,
        ensures
            final(self).wf(),
            final(self).tokens() == old(self).tokens(),
            extends(old(self).yields(), final(self).yields()),
            meets(
                expressions_outcome(parsed),
                final(self).position(),
                final(self).yields(),
                arguments_from(
                    old(self).tokens(),
                    old(self).position(),
                    old(self).yields(),
                    Seq::empty(),
                ),
            ),
            parsed is Ok ==> old(self).position() - 1 <= final(self).position() < final(self).tokens().len(),
        decreases old(self).tokens().len() - old(self).position(), 13int,
    {
        let mut args: Vec<Expression> = Vec::new();
        let ghost tokens = self.tokens();
        let ghost expected = arguments_from(tokens, self.position(), self.yields(), Seq::empty());
        assert(expressions_model(&args) =~= Seq::empty());
        let mut done = false;
        while !done && self.token_pos < self.tokens.len()
            invariant
                self.wf(),
                self.tokens() == tokens,
                old(self).position() <= self.position(),
                extends(old(self).yields(), self.yields()),
                done ==> expected == Ok::<Parsed<Seq<ExpressionModel>>, Error>(
                    Parsed {
                        value: expressions_model(&args),
                        pos: self.position() - 1,
                        yields: self.yields(),
                    },
                ),
                !done ==> expected == arguments_from(
                    tokens,
                    self.position(),
                    self.yields(),
                    expressions_model(&args),
                ),
            decreases tokens.len() - self.position() + if done { 0int } else { 1int },
        {
            let ghost before = expressions_model(&args);
            let delims = [Token::Comma, Token::CloseParan];
            assert(delims@ =~= argument_delimiters());
            let arg_expr = self.parse_expr(delims.as_slice())?;
            args.push(arg_expr);
            assert(expressions_model(&args) =~= before.push(arg_expr@));
            let last_token = self.peek_token(-1)?;
            if last_token == Token::Comma {
            } else if last_token == Token::CloseParan {
                done = true;
            } else {
                return Err(Error::Unknown);
            }
        }
        self.token_pos -= 1;
        Ok(args)
    }
    /// Parses a function declarations arguments
    #[verifier::loop_isolation(false)]
    fn parse_fn_args(&mut self) -> (parsed: Result<Vec<(String, Type)>, Error>)
        requires
            old(self).wf(),
        ensures
            final(self).wf(),
            final(self).tokens() == old(self).tokens(),
            final(self).yields() == old(self).yields(),
            meets_step(
                fields_outcome(parsed),
                final(self).position(),
                arguments_at(old(self).tokens(), old(self).position()),
            ),
            parsed is Ok ==> advanced(
                old(self).tokens(),
                old(self).position(),
                final(self).position(),
            ),
    {
        let mut args: Vec<(String, Type)> = Vec::new();
        assert(fields_model(&args) =~= Seq::empty());
        let token = self.get_token()?;
        if token == Token::CloseParan {
            self.advance();
            return Ok(args);
        }
        let ghost tokens = self.tokens();
        let ghost expected = arguments_after(tokens, self.position(), Seq::empty());
        loop
            invariant
                self.wf(),
                self.tokens() == tokens,
                self.yields() == old(self).yields(),
                old(self).position() <= self.position(),
                expected == arguments_after(tokens, self.position(), fields_model(&args)),
            decreases tokens.len() - self.position(),
        {
            let ghost before = fields_model(&args);
            let fn_arg = self.parse_fn_arg()?;
            let ghost added = (fn_arg.0@, fn_arg.1@);
            args.push(fn_arg);
            assert(fields_model(&args) =~= before.push(added));
            let token = self.get_token()?;
            if token == Token::Comma {
                self.advance();
            } else if token == Token::CloseParan {
                self.advance();
                return Ok(args);
            } else {
                return Err(Error::ExpectedCloseParan);
            }
        }
    }

    /// Parses a function declarations argument
    fn parse_fn_arg(&mut self) -> (parsed: Result<(String, Type), Error>)
        requires
            old(self).wf(),
        ensures
            final(self).wf(),
            final(self).tokens() == old(self).tokens(),
            final(self).yields() == old(self).yields(),
            meets_step(
                field_outcome(parsed),
                final(self).position(),
                argument_at(old(self).tokens(), old(self).position()),
            ),
            parsed is Ok ==> advanced(
                old(self).tokens(),
                old(self).position(),
                final(self).position(),
            ),
    {
        let mut token = self.get_token()?;
        if token == Token::This {
            self.advance();
            return Ok((String::from_str("this"), Type::This));
        }
        if token == Token::ThisRef {
            self.advance();
            let this = Type::This;
            assert(this@ == TypeModel::This);
            return Ok((String::from_str("this"), Type::Ref(Box::new(this))));
        }
        if token != Token::Identifier {
            return Err(Error::ExpectedIdentifier);
        }
        let ident_string = self.get_value()?;
        self.advance();

        if !same_text(ident_string.as_str(), "this") {
            token = self.get_token()?;
            if token != Token::Colon {
                return Err(Error::ExpectedColon);
            }
            self.advance();
        }
        let var_type = self.parse_type()?;
        Ok((ident_string, var_type))
    }

    /// Parses the head of a function: `fun`, the name, the arguments and
    /// the return type.
    fn parse_signature(&mut self) -> (parsed: Result<(String, Vec<(String, Type)>, Type), Error>)
        requires
            old(self).wf(),
        ensures
            final(self).wf(),
            final(self).tokens() == old(self).tokens(),
            final(self).yields() == old(self).yields(),
            meets_step(
                match parsed {
                    Ok(value) => Ok(
                        Signature {
                            name: value.0@,
                            arguments: fields_model(&value.1),
                            return_type: value.2@,
                        },
                    ),
                    Err(error) => Err(error),
                },
                final(self).position(),
                signature_at(old(self).tokens(), old(self).position()),
            ),
            parsed is Ok ==> advanced(
                old(self).tokens(),
                old(self).position(),
                final(self).position(),
            ),
    {
        let mut token = self.get_token()?;
        if token != Token::Fun {
            return Err(Error::ExpectedFn);
        }
        self.advance();

        token = self.get_token()?;
        if token != Token::Identifier {
            return Err(Error::ExpectedIdentifier);
        }
        let fn_name = self.get_value()?;
        self.advance();

        token = self.get_token()?;
        if token != Token::OpenParan {
            return Err(Error::ExpectedOpenParan);
        }
        self.advance();

        let fn_args = self.parse_fn_args()?;

        token = self.get_token()?;
        let mut ret_type = Type::Void;
        if token == Token::Tilde {
            self.advance();
            ret_type = self.parse_type()?;
        }
        Ok((fn_name, fn_args, ret_type))
    }

    /// Parses a function declaration
    #[verifier::loop_isolation(false)]
    #[verifier::rlimit(50)]
    pub fn parse_decl_fn(&mut self) -> (parsed: Result<Declaration, Error>)
        requires
            old(self).wf(),
        ensures
            final(self).wf(),
            final(self).tokens() == old(self).tokens(),
            meets(
                declaration_outcome(parsed),
                final(self).position(),
                final(self).yields(),
                function_declaration_at(
                    old(self).tokens(),
                    old(self).position(),
                    old(self).yields(),
                ),
            ),
            parsed is Ok ==> advanced(
                old(self).tokens(),
                old(self).position(),
                final(self).position(),
            ),
    {
        let mut external = false;
        let mut public = false;
        let ghost tokens = self.tokens();
        let ghost start = self.position();
        while self.token_pos < self.tokens.len() && (self.tokens[self.token_pos].token
            == Token::Pub || self.tokens[self.token_pos].token == Token::Ext)
            invariant
                self.wf(),
                self.tokens() == tokens,
                self.yields() == old(self).yields(),
                start <= self.position(),
                modifiers_end(tokens, self.position()) == modifiers_end(tokens, start),
                public == has_modifier(tokens, start, self.position(), Token::Pub),
                external == has_modifier(tokens, start, self.position(), Token::Ext),
            decreases tokens.len() - self.position(),
        {
            let token = self.tokens[self.token_pos].token;
            let ghost here = self.position();
            assert(token_at(tokens, here) == Some(token));
            external = external || token == Token::Ext;
            public = public || token == Token::Pub;
            self.advance();
            assert(has_modifier(tokens, start, here + 1, Token::Pub) == (has_modifier(
                tokens,
                start,
                here,
                Token::Pub,
            ) || token == Token::Pub));
            assert(has_modifier(tokens, start, here + 1, Token::Ext) == (has_modifier(
                tokens,
                start,
                here,
                Token::Ext,
            ) || token == Token::Ext));
        }
        let (ident_string, fn_args, ret_type) = self.parse_signature()?;

        let token = self.get_token()?;
        let stmt_list: Option<Vec<Statement>> = match token {
            Token::Semicolon => {
                self.advance();
                None
            },
            Token::OpenBlock => {
                self.advance();
                let close = [Token::CloseBlock];
                assert(close@ =~= block_delimiters());
                let stmt_list = self.parse_stmt_list(close.as_slice())?;
                Some(stmt_list)
            },
            _ => {
                return Err(Error::Unknown);
            },
        };

        Ok(
            Declaration::Function {
                public,
                external,
                name: ident_string,
                arguments: fn_args,
                returns: ret_type,
                body: stmt_list,
            },
        )
    }

    /// Parses a single interface function
    pub fn parse_intf_function(&mut self) -> (parsed: Result<InterfaceFunction, Error>)
        requires
            old(self).wf(),
        ensures
            final(self).wf(),
            final(self).tokens() == old(self).tokens(),
            meets(
                match parsed {
                    Ok(value) => Ok(value@),
                    Err(error) => Err(error),
                },
                final(self).position(),
                final(self).yields(),
                interface_function_at(old(self).tokens(), old(self).position(), old(self).yields()),
            ),
            parsed is Ok ==> advanced(
                old(self).tokens(),
                old(self).position(),
                final(self).position(),
            ),
    {
        let (fn_name, fn_args, ret_type) = self.parse_signature()?;

        let token = self.get_token()?;
        let mut stmt_list = None;
        if token == Token::OpenBlock {
            self.advance();
            let close = [Token::CloseBlock];
            assert(close@ =~= block_delimiters());
            stmt_list = Some(self.parse_stmt_list(close.as_slice())?);
        } else if token == Token::Semicolon {
            self.advance();
        } else {
            return Err(Error::ExpectedSemicolon);
        }

        Ok(InterfaceFunction { name: fn_name, returns: ret_type, body: stmt_list, arguments: fn_args })
    }

    /// Parses interface functions
    #[verifier::loop_isolation(false)]
    pub fn parse_intf_functions(&mut self) -> (parsed: Result<Vec<InterfaceFunction>, Error>)
        requires
            old(self).wf(),
        ensures
            final(self).wf(),
            final(self).tokens() == old(self).tokens(),
            meets(
                match parsed {
                    Ok(value) => Ok(interface_functions_model(&value)),
                    Err(error) => Err(error),
                },
                final(self).position(),
                final(self).yields(),
                interface_functions_from(
                    old(self).tokens(),
                    old(self).position(),
                    old(self).yields(),
                    Seq::empty(),
                ),
            ),
            parsed is Ok ==> advanced(
                old(self).tokens(),
                old(self).position(),
                final(self).position(),
            ),
    {
        let mut functions: Vec<InterfaceFunction> = Vec::new();
        assert(interface_functions_model(&functions) =~= Seq::empty());
        let ghost tokens = self.tokens();
        let ghost expected = interface_functions_from(
            tokens,
            self.position(),
            self.yields(),
            Seq::empty(),
        );
        loop
            invariant
                self.wf(),
                self.tokens() == tokens,
                old(self).position() <= self.position(),
                expected == interface_functions_from(
                    tokens,
                    self.position(),
                    self.yields(),
                    interface_functions_model(&functions),
                ),
            decreases tokens.len() - self.position(),
        {
            if self.get_token()? == Token::CloseBlock {
                self.advance();
                return Ok(functions);
            }
            let ghost before = interface_functions_model(&functions);
            let intf_fn = self.parse_intf_function()?;
            let ghost added = intf_fn@;
            functions.push(intf_fn);
            assert(interface_functions_model(&functions) =~= before.push(added));
        }
    }

    /// Parses the name and the opening `{` behind the keyword of a
    /// declaration.
    fn parse_named_block(&mut self) -> (parsed: Result<String, Error>)
        requires
            old(self).wf(),
            old(self).position() < old(self).tokens().len(),
        ensures
            final(self).wf(),
            final(self).tokens() == old(self).tokens(),
            final(self).yields() == old(self).yields(),
            meets_step(
                match parsed {
                    Ok(value) => Ok(value@),
                    Err(error) => Err(error),
                },
                final(self).position(),
                named_block_at(old(self).tokens(), old(self).position()),
            ),
    {
        self.advance();
        let mut token = self.get_token()?;
        if token != Token::Identifier {
            return Err(Error::ExpectedIdentifier);
        }
        let name = self.get_value()?;
        self.advance();

        token = self.get_token()?;
        if token != Token::OpenBlock {
            return Err(Error::ExpectedOpenBlock);
        }
        self.advance();
        Ok(name)
    }

    /// Parses an interface declaration
    pub fn parse_decl_intf(&mut self) -> (parsed: Result<Declaration, Error>)
        requires
            old(self).wf(),
        ensures
            final(self).wf(),
            final(self).tokens() == old(self).tokens(),
            meets(
                declaration_outcome(parsed),
                final(self).position(),
                final(self).yields(),
                interface_declaration_at(
                    old(self).tokens(),
                    old(self).position(),
                    old(self).yields(),
                ),
            ),
            parsed is Ok ==> advanced(
                old(self).tokens(),
                old(self).position(),
                final(self).position(),
            ),
    {
        let token = self.get_token()?;
        if token != Token::Intf {
            return Err(Error::ExpectedIntf);
        }
        let intf_name = self.parse_named_block()?;
        let intf_functions = self.parse_intf_functions()?;
        Ok(Declaration::Interface { name: intf_name, functions: intf_functions })
    }

    /// Parses a module declaration
    pub fn parse_decl_mod(&mut self) -> (parsed: Result<Declaration, Error>)
        ensures
            *final(self) == *old(self),
            parsed == Err::<Declaration, Error>(Error::Unimplemented("mod decl")),
    {
        Err(Error::Unimplemented("mod decl"))
    }

    /// Parses a container member variable
    pub fn parse_cont_member_var(&mut self, _public: bool) -> (parsed: Result<(String, Type), Error>)
        requires
            old(self).wf(),
        ensures
            final(self).wf(),
            final(self).tokens() == old(self).tokens(),
            final(self).yields() == old(self).yields(),
            meets_step(
                field_outcome(parsed),
                final(self).position(),
                member_variable_at(old(self).tokens(), old(self).position()),
            ),
            parsed is Ok ==> advanced(
                old(self).tokens(),
                old(self).position(),
                final(self).position(),
            ),
    {
        let mut token = self.get_token()?;
        if token != Token::Identifier {
            return Err(Error::ExpectedIdentifier);
        }
        let var_name = self.get_value()?;
        self.advance();

        token = self.get_token()?;
        if token != Token::Colon {
            return Err(Error::ExpectedColon);
        }
        self.advance();

        let var_type = self.parse_type()?;

        token = self.get_token()?;
        if token != Token::Semicolon {
            return Err(Error::ExpectedSemicolon);
        }
        self.advance();

        Ok((var_name, var_type))
    }

    /// Parses a container member function
    pub fn parse_cont_member_fun(&mut self, public: bool) -> (parsed: Result<
        ContainerFunction,
        Error,
    >)
        requires
            old(self).wf(),
        ensures
            final(self).wf(),
            final(self).tokens() == old(self).tokens(),
            meets(
                match parsed {
                    Ok(value) => Ok(value@),
                    Err(error) => Err(error),
                },
                final(self).position(),
                final(self).yields(),
                member_function_at(
                    old(self).tokens(),
                    old(self).position(),
                    old(self).yields(),
                    public,
                ),
            ),
            parsed is Ok ==> advanced(
                old(self).tokens(),
                old(self).position(),
                final(self).position(),
            ),
    {
        let (fn_name, fn_args, ret_type) = self.parse_signature()?;

        let token = self.get_token()?;
        if token != Token::OpenBlock {
            return Err(Error::ExpectedOpenBlock);
        }
        self.advance();

        let close = [Token::CloseBlock];
        assert(close@ =~= block_delimiters());
        let stmt_list = self.parse_stmt_list(close.as_slice())?;

        Ok(
            ContainerFunction {
                name: fn_name,
                arguments: fn_args,
                public,
                body: stmt_list,
                returns: ret_type,
            },
        )
    }

    /// Parses a container declaration
    #[verifier::loop_isolation(false)]
    #[verifier::rlimit(50)]
    pub fn parse_decl_cont(&mut self) -> (parsed: Result<Declaration, Error>)
        requires
            old(self).wf(),
        ensures
            final(self).wf(),
            final(self).tokens() == old(self).tokens(),
            meets(
                declaration_outcome(parsed),
                final(self).position(),
                final(self).yields(),
                container_declaration_at(
                    old(self).tokens(),
                    old(self).position(),
                    old(self).yields(),
                ),
            ),
            parsed matches Ok(Declaration::Container { member_variables, .. }) ==> in_order(
                fields_model(&member_variables),
            ),
            parsed is Ok ==> advanced(
                old(self).tokens(),
                old(self).position(),
                final(self).position(),
            ),
    {
        let mut token = self.get_token()?;

        let mut public = false;
        if token == Token::Pub {
            public = true;
            self.advance();
            token = self.get_token()?;
        }
        if token != Token::Cont {
            return Err(Error::ExpectedCont);
        }
        let cont_name = self.parse_named_block()?;

        let mut member_vars: Vec<(String, Type)> = Vec::new();
        let mut member_fns: Vec<ContainerFunction> = Vec::new();
        assert(fields_model(&member_vars) =~= Seq::empty());
        assert(container_functions_model(&member_fns) =~= Seq::empty());
        let ghost tokens = self.tokens();
        let ghost expected = members_from(
            tokens,
            self.position(),
            self.yields(),
            Members { variables: Seq::empty(), functions: Seq::empty() },
        );
        loop
            invariant
                self.wf(),
                self.tokens() == tokens,
                old(self).position() < self.position(),
                in_order(fields_model(&member_vars)),
                expected == members_from(
                    tokens,
                    self.position(),
                    self.yields(),
                    Members {
                        variables: fields_model(&member_vars),
                        functions: container_functions_model(&member_fns),
                    },
                ),
            decreases tokens.len() - self.position(),
        {
            token = self.get_token()?;
            if token == Token::CloseBlock {
                self.advance();
                return Ok(
                    Declaration::Container {
                        public,
                        name: cont_name,
                        member_functions: member_fns,
                        member_variables: member_vars,
                    },
                );
            }
            let mut member_public = false;
            if token == Token::Pub {
                member_public = true;
                self.advance();
                token = self.get_token()?;
            }
            match token {
                Token::Identifier => {
                    let member_var = self.parse_cont_member_var(member_public)?;
                    insert_field(&mut member_vars, member_var.0, member_var.1);
                },
                Token::Fun => {
                    let ghost before = container_functions_model(&member_fns);
                    let member_fn = self.parse_cont_member_fun(member_public)?;
                    let ghost added = member_fn@;
                    member_fns.push(member_fn);
                    assert(container_functions_model(&member_fns) =~= before.push(added));
                },
                _ => {
                    return Err(Error::Unknown);
                },
            }
        }
    }

    /// Parses the named members of an enum variant up to the closing `}`.
    #[verifier::loop_isolation(false)]
    fn parse_variant_members(&mut self) -> (parsed: Result<Vec<(String, Type)>, Error>)
        requires
            old(self).wf(),
        ensures
            final(self).wf(),
            final(self).tokens() == old(self).tokens(),
            final(self).yields() == old(self).yields(),
            meets_step(
                fields_outcome(parsed),
                final(self).position(),
                variant_members_from(old(self).tokens(), old(self).position(), Seq::empty()),
            ),
            parsed matches Ok(members) ==> in_order(fields_model(&members)),
            parsed is Ok ==> advanced(
                old(self).tokens(),
                old(self).position(),
                final(self).position(),
            ),
    {
        let mut members: Vec<(String, Type)> = Vec::new();
        assert(fields_model(&members) =~= Seq::empty());
        let ghost tokens = self.tokens();
        let ghost expected = variant_members_from(tokens, self.position(), Seq::empty());
        loop
            invariant
                self.wf(),
                self.tokens() == tokens,
                self.yields() == old(self).yields(),
                old(self).position() <= self.position(),
                in_order(fields_model(&members)),
                expected == variant_members_from(tokens, self.position(), fields_model(&members)),
            decreases tokens.len() - self.position(),
        {
            let mut token = self.get_token()?;
            if token == Token::CloseBlock {
                self.advance();
                return Ok(members);
            }
            if token != Token::Identifier {
                return Err(Error::ExpectedIdentifier);
            }
            let member_name = self.get_value()?;
            self.advance();

            token = self.get_token()?;
            if token != Token::Colon {
                return Err(Error::ExpectedColon);
            }
            self.advance();

            let member_type = self.parse_type()?;
            insert_field(&mut members, member_name, member_type);
            token = self.get_token()?;
            if token == Token::Comma {
                self.advance();
            }
        }
    }

    fn parse_enum_variant(&mut self) -> (parsed: Result<EnumVariant, Error>)
        requires
            old(self).wf(),
        ensures
            final(self).wf(),
            final(self).tokens() == old(self).tokens(),
            final(self).yields() == old(self).yields(),
            meets_step(
                match parsed {
                    Ok(value) => Ok(value@),
                    Err(error) => Err(error),
                },
                final(self).position(),
                variant_at(old(self).tokens(), old(self).position()),
            ),
            parsed matches Ok(variant) ==> variant_in_order(variant@),
            parsed is Ok ==> advanced(
                old(self).tokens(),
                old(self).position(),
                final(self).position(),
            ),
    {
        let mut token = self.get_token()?;
        if token != Token::Identifier {
            return Err(Error::ExpectedIdentifier);
        }
        let ident_string = self.get_value()?;
        self.advance();

        token = self.get_token()?;
        match token {
            Token::OpenBlock => {
                self.advance();
                let members = self.parse_variant_members()?;
                Ok(EnumVariant::Cont(ident_string, members))
            },
            Token::OpenParan => {
                if let Type::Tuple(types) = self.parse_type()? {
                    self.get_token()?;
                    Ok(EnumVariant::Tuple(ident_string, types))
                } else {
                    Err(Error::Unknown)
                }
            },
            Token::Comma => Ok(EnumVariant::Empty(ident_string)),
            Token::CloseBlock => Ok(EnumVariant::Empty(ident_string)),
            _ => Err(Error::Unknown),
        }
    }

    #[verifier::loop_isolation(false)]
    fn parse_enum_variants(&mut self) -> (parsed: Result<Vec<EnumVariant>, Error>)
        requires
            old(self).wf(),
        ensures
            final(self).wf(),
            final(self).tokens() == old(self).tokens(),
            final(self).yields() == old(self).yields(),
            meets_step(
                match parsed {
                    Ok(value) => Ok(variants_model(&value)),
                    Err(error) => Err(error),
                },
                final(self).position(),
                variants_from(old(self).tokens(), old(self).position(), Seq::empty()),
            ),
            parsed matches Ok(variants) ==> forall|i: int|
                0 <= i < variants.len() ==> variant_in_order(#[trigger] variants[i]@),
            parsed is Ok ==> advanced(
                old(self).tokens(),
                old(self).position(),
                final(self).position(),
            ),
    {
        let mut enum_variants: Vec<EnumVariant> = Vec::new();
        assert(variants_model(&enum_variants) =~= Seq::empty());
        let ghost tokens = self.tokens();
        let ghost expected = variants_from(tokens, self.position(), Seq::empty());
        loop
            invariant
                self.wf(),
                self.tokens() == tokens,
                self.yields() == old(self).yields(),
                old(self).position() <= self.position(),
                forall|i: int|
                    0 <= i < enum_variants.len() ==> variant_in_order(#[trigger] enum_variants[i]@),
                expected == variants_from(tokens, self.position(), variants_model(&enum_variants)),
            decreases tokens.len() - self.position(),
        {
            let token = self.get_token()?;
            if token == Token::CloseBlock {
                self.advance();
                return Ok(enum_variants);
            }
            if enum_variants.len() > 0 {
                if token == Token::Comma {
                    self.advance();
                } else {
                    return Err(Error::ExpectedComma);
                }
            }
            let ghost before = variants_model(&enum_variants);
            let enum_variant = self.parse_enum_variant()?;
            let ghost added = enum_variant@;
            enum_variants.push(enum_variant);
            assert(variants_model(&enum_variants) =~= before.push(added));
        }
    }

    /// Parses an enum declaration
    pub fn parse_decl_enum(&mut self) -> (parsed: Result<Declaration, Error>)
        requires
            old(self).wf(),
        ensures
            final(self).wf(),
            final(self).tokens() == old(self).tokens(),
            final(self).yields() == old(self).yields(),
            meets_step(
                declaration_outcome(parsed),
                final(self).position(),
                enum_declaration_at(old(self).tokens(), old(self).position()),
            ),
            parsed matches Ok(Declaration::Enum { variants, .. }) ==> forall|i: int|
                0 <= i < variants.len() ==> variant_in_order(#[trigger] variants[i]@),
            parsed is Ok ==> advanced(
                old(self).tokens(),
                old(self).position(),
                final(self).position(),
            ),
    {
        let token = self.get_token()?;
        if token != Token::Enum {
            return Err(Error::ExpectedEnum);
        }
        let ident_string = self.parse_named_block()?;
        let variants = self.parse_enum_variants()?;
        Ok(Declaration::Enum { name: ident_string, variants })
    }

    #[verifier::loop_isolation(false)]
    #[verifier::rlimit(50)]
    fn parse_import_string(&mut self) -> (parsed: Result<(String, String), Error>)
        requires
            old(self).wf(),
        ensures
            final(self).wf(),
            final(self).tokens() == old(self).tokens(),
            final(self).yields() == old(self).yields(),
            meets_step(
                match parsed {
                    Ok(value) => Ok((value.0@, value.1@)),
                    Err(error) => Err(error),
                },
                final(self).position(),
                import_string_at(old(self).tokens(), old(self).position()),
            ),
            parsed is Ok ==> advanced(
                old(self).tokens(),
                old(self).position(),
                final(self).position(),
            ),
    {
        let mut import_path = String::new();
        let mut import_as = String::new();
        let mut segment = String::new();
        let ghost tokens = self.tokens();
        let ghost expected = import_path_from(
            tokens,
            self.position(),
            ImportPath { path: Seq::empty(), alias: Seq::empty(), segment: Seq::empty() },
        );
        loop
            invariant
                self.wf(),
                self.tokens() == tokens,
                self.yields() == old(self).yields(),
                old(self).position() <= self.position(),
                self.position() == old(self).position() ==> import_path@.len() == 0,
                expected == import_path_from(
                    tokens,
                    self.position(),
                    ImportPath { path: import_path@, alias: import_as@, segment: segment@ },
                ),
            decreases tokens.len() - self.position(),
        {
            let token = self.get_token()?;
            match token {
                Token::Semicolon | Token::Comma | Token::OpenBlock | Token::CloseBlock => {
                    if import_path.as_str().unicode_len() == 0 {
                        return Err(Error::MalformedImport);
                    }
                    if import_as.as_str().unicode_len() == 0 && !ends_with_double_colon(
                        import_path.as_str(),
                    ) {
                        return Ok((import_path, segment));
                    }
                    return Ok((import_path, import_as));
                },
                Token::Identifier => {
                    let text = self.get_value()?;
                    import_path.append(text.as_str());
                    segment.append(text.as_str());
                    self.advance();
                },
                Token::DoubleColon => {
                    import_path.append("::");
                    segment = String::new();
                    self.advance();
                },
                Token::Assign => {
                    self.advance();
                    let next = self.get_token()?;
                    if next != Token::Identifier {
                        return Err(Error::ExpectedIdentifier);
                    }
                    import_as = self.get_value()?;
                    self.advance();
                },
                _ => {
                    return Err(Error::MalformedImport);
                },
            }
        }
    }

    #[verifier::loop_isolation(false)]
    #[verifier::rlimit(50)]
    fn parse_multi_import(&mut self, delims: &[Token]) -> (parsed: Result<
        Vec<(String, String)>,
        Error,
    >)
        requires
            old(self).wf(),
        ensures
            final(self).wf(),
            final(self).tokens() == old(self).tokens(),
            final(self).yields() == old(self).yields(),
            meets_step(
                match parsed {
                    Ok(value) => Ok(pairs_model(&value)),
                    Err(error) => Err(error),
                },
                final(self).position(),
                imports_from(old(self).tokens(), old(self).position(), delims@, Seq::empty()),
            ),
            parsed is Ok ==> old(self).position() <= final(self).position() < final(self).tokens().len(),
        decreases old(self).tokens().len() - old(self).position(),
    {
        let mut imports: Vec<(String, String)> = Vec::new();
        assert(pairs_model(&imports) =~= Seq::empty());
        let ghost tokens = self.tokens();
        let ghost expected = imports_from(tokens, self.position(), delims@, Seq::empty());
        loop
            invariant
                self.wf(),
                self.tokens() == tokens,
                self.yields() == old(self).yields(),
                old(self).position() <= self.position(),
                expected == imports_from(tokens, self.position(), delims@, pairs_model(&imports)),
            decreases tokens.len() - self.position(),
        {
            let mut token = self.get_token()?;
            if contains_token(delims, token) {
                return Ok(imports);
            }
            let ghost before = pairs_model(&imports);
            let (import_path, import_as) = self.parse_import_string()?;
            token = self.get_token()?;
            if token == Token::Comma {
                self.advance();
                token = self.get_token()?;
            }
            match token {
                Token::Assign => {
                    self.advance();
                    token = self.get_token()?;
                    if token != Token::Identifier {
                        return Err(Error::ExpectedIdentifier);
                    }
                    let import_as = self.get_value()?;
                    self.advance();

                    let ghost added = (import_path@, import_as@);
                    imports.push((import_path, import_as));
                    assert(pairs_model(&imports) =~= before.push(added));

                    token = self.get_token()?;
                    if token == Token::Comma {
                        self.advance();
                    }
                },
                Token::OpenBlock => {
                    self.advance();
                    if !ends_with_double_colon(import_path.as_str()) {
                        return Err(Error::MalformedImport);
                    }
                    let close = [Token::CloseBlock];
                    assert(close@ =~= block_delimiters());
                    let nested_imports = self.parse_multi_import(close.as_slice())?;
                    append_prefixed(&mut imports, nested_imports, &import_path);
                    self.advance();

                    token = self.get_token()?;
                    if token == Token::Comma {
                        self.advance();
                    }
                },
                _ => {
                    let ghost added = (import_path@, import_as@);
                    imports.push((import_path, import_as));
                    assert(pairs_model(&imports) =~= before.push(added));
                },
            }
        }
    }

    /// Parses an import declaration
    pub fn parse_decl_import(&mut self) -> (parsed: Result<Declaration, Error>)
        requires
            old(self).wf(),
        ensures
            final(self).wf(),
            final(self).tokens() == old(self).tokens(),
            final(self).yields() == old(self).yields(),
            meets_step(
                declaration_outcome(parsed),
                final(self).position(),
                import_declaration_at(old(self).tokens(), old(self).position()),
            ),
            parsed is Ok ==> advanced(
                old(self).tokens(),
                old(self).position(),
                final(self).position(),
            ),
    {
        let token = self.get_token()?;
        if token != Token::Import {
            return Err(Error::ExpectedImport);
        }
        self.advance();

        let delims = [Token::Semicolon];
        assert(delims@ =~= seq![Token::Semicolon]);
        let import_list = self.parse_multi_import(delims.as_slice())?;
        self.advance();
        Ok(Declaration::Import(import_list))
    }

    /// Parses the declaration that is read next.
    #[verifier::loop_isolation(false)]
    fn parse_decl(&mut self) -> (parsed: Result<Declaration, Error>)
        requires
            old(self).wf(),
        ensures
            final(self).wf(),
            final(self).tokens() == old(self).tokens(),
            meets(
                declaration_outcome(parsed),
                final(self).position(),
                final(self).yields(),
                declaration_at(old(self).tokens(), old(self).position(), old(self).yields()),
            ),
            parsed is Ok ==> advanced(
                old(self).tokens(),
                old(self).position(),
                final(self).position(),
            ),
    {
        let mut head: usize = self.token_pos;
        while head < self.tokens.len() && (self.tokens[head].token == Token::Pub
            || self.tokens[head].token == Token::Ext)
            invariant
                self.position() <= head <= self.tokens().len(),
                modifiers_end(self.tokens(), head as int) == modifiers_end(
                    self.tokens(),
                    self.position(),
                ),
            decreases self.tokens.len() - head,
        {
            head += 1;
        }
        if head >= self.tokens.len() {
            return Err(Error::Unknown);
        }
        match self.tokens[head].token {
            Token::Fun => self.parse_decl_fn(),
            Token::Mod => self.parse_decl_mod(),
            Token::Cont => self.parse_decl_cont(),
            Token::Import => self.parse_decl_import(),
            Token::Intf => self.parse_decl_intf(),
            Token::Enum => self.parse_decl_enum(),
            _ => Err(Error::Unknown),
        }
    }

    /// Parses a declaration list
    #[verifier::loop_isolation(false)]
    pub fn parse_decl_list(&mut self, delims: &[Token]) -> (parsed: Result<Vec<Declaration>, Error>)
        requires
            old(self).wf(),
        ensures
            final(self).wf(),
            final(self).tokens() == old(self).tokens(),
            meets(
                declarations_outcome(parsed),
                final(self).position(),
                final(self).yields(),
                declarations_from(
                    old(self).tokens(),
                    old(self).position(),
                    old(self).yields(),
                    delims@,
                    Seq::empty(),
                ),
            ),
    {
        let mut declarations: Vec<Declaration> = Vec::new();
        assert(declarations_model(&declarations) =~= Seq::empty());
        let ghost tokens = self.tokens();
        let ghost expected = declarations_from(
            tokens,
            self.position(),
            self.yields(),
            delims@,
            Seq::empty(),
        );
        let mut done = false;
        while !done && self.token_pos < self.tokens.len()
            invariant
                self.wf(),
                self.tokens() == tokens,
                done ==> expected == Ok::<Parsed<Seq<DeclarationModel>>, Error>(
                    Parsed {
                        value: declarations_model(&declarations),
                        pos: self.position(),
                        yields: self.yields(),
                    },
                ),
                !done ==> expected == declarations_from(
                    tokens,
                    self.position(),
                    self.yields(),
                    delims@,
                    declarations_model(&declarations),
                ),
            decreases tokens.len() - self.position() + if done { 0int } else { 1int },
        {
            let token = self.get_token()?;
            if contains_token(delims, token) {
                done = true;
            } else {
                let ghost before = declarations_model(&declarations);
                let decl = self.parse_decl()?;
                let ghost added = decl@;
                declarations.push(decl);
                assert(declarations_model(&declarations) =~= before.push(added));
            }
        }
        Ok(declarations)
    }

    /// Parses the source into a root decl list
    pub fn parse(&mut self) -> (parsed: Result<Vec<Declaration>, Error>)
        requires
            old(self).wf(),
        ensures
            final(self).wf(),
            final(self).tokens() == old(self).tokens(),
            meets(
                declarations_outcome(parsed),
                final(self).position(),
                final(self).yields(),
                declarations_from(
                    old(self).tokens(),
                    old(self).position(),
                    old(self).yields(),
                    Seq::empty(),
                    Seq::empty(),
                ),
            ),
    {
        let delims: [Token; 0] = [];
        assert(delims@ =~= Seq::empty());
        self.parse_decl_list(delims.as_slice())
    }
}

} // verus!
