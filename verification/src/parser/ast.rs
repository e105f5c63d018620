//! The abstract syntax tree, and the mathematical model of each of its types.
//!
//! Every tree type has a model in which a `Vec` is a `Seq` and a `String` is
//! the sequence of its characters. Contracts speak of the models.

use super::token::Token;
use vstd::prelude::*;

verus! {

/// An operator of an expression.
#[derive(Debug, Clone, Copy, PartialEq, Eq, Structural)]
pub enum Operator {
    Plus,
    Minus,
    Neg,
    Pos,
    Times,
    Divide,
    Not,
    Ref,
    Deref,
    Assign,
    AddAssign,
    SubAssign,
    MulAssign,
    DivAssign,
    LessThan,
    GreaterThan,
    LessThanEquals,
    GreaterThanEquals,
    Equals,
    NotEquals,
    OpenParan,
    CloseParan,
}

/// The operator that a token stands for, if it stands for one.
pub open spec fn operator_of(token: Token) -> Option<Operator> {
    match token {
        Token::Plus => Some(Operator::Plus),
        Token::Minus => Some(Operator::Minus),
        Token::Times => Some(Operator::Times),
        Token::Divide => Some(Operator::Divide),
        Token::Assign => Some(Operator::Assign),
        Token::LessThan => Some(Operator::LessThan),
        Token::GreaterThan => Some(Operator::GreaterThan),
        Token::LessThanEquals => Some(Operator::LessThanEquals),
        Token::GreaterThanEquals => Some(Operator::GreaterThanEquals),
        Token::Ref => Some(Operator::Ref),
        Token::Tilde => Some(Operator::Deref),
        Token::Equals => Some(Operator::Equals),
        Token::NotEquals => Some(Operator::NotEquals),
        Token::AddAssign => Some(Operator::AddAssign),
        Token::SubAssign => Some(Operator::SubAssign),
        Token::MulAssign => Some(Operator::MulAssign),
        Token::DivAssign => Some(Operator::DivAssign),
        Token::OpenParan => Some(Operator::OpenParan),
        Token::CloseParan => Some(Operator::CloseParan),
        _ => None,
    }
}

/// How tightly an operator binds; a higher number binds tighter.
pub open spec fn precedence(op: Operator) -> int {
    match op {
        Operator::Plus => 2,
        Operator::Minus => 1,
        Operator::Times => 3,
        Operator::Divide => 3,
        Operator::Ref => 4,
        Operator::Deref => 4,
        Operator::Pos => 5,
        Operator::Neg => 5,
        Operator::Not => 5,
        Operator::Assign => -1,
        Operator::AddAssign => -1,
        Operator::SubAssign => -1,
        Operator::MulAssign => -1,
        Operator::DivAssign => -1,
        _ => 0,
    }
}

/// Whether an operator takes one operand.
pub open spec fn is_unary(op: Operator) -> bool {
    op == Operator::Pos || op == Operator::Neg || op == Operator::Ref || op == Operator::Deref
        || op == Operator::Not
}

impl Operator {
    /// The operator that `token` stands for.
    pub fn from(token: Token) -> (op: Option<Self>)
        ensures
            op == operator_of(token),
    {
        match token {
            Token::Plus => Some(Operator::Plus),
            Token::Minus => Some(Operator::Minus),
            Token::Times => Some(Operator::Times),
            Token::Divide => Some(Operator::Divide),
            Token::Assign => Some(Operator::Assign),
            Token::LessThan => Some(Operator::LessThan),
            Token::GreaterThan => Some(Operator::GreaterThan),
            Token::LessThanEquals => Some(Operator::LessThanEquals),
            Token::GreaterThanEquals => Some(Operator::GreaterThanEquals),
            Token::Ref => Some(Operator::Ref),
            Token::Tilde => Some(Operator::Deref),
            Token::Equals => Some(Operator::Equals),
            Token::NotEquals => Some(Operator::NotEquals),
            Token::AddAssign => Some(Operator::AddAssign),
            Token::SubAssign => Some(Operator::SubAssign),
            Token::MulAssign => Some(Operator::MulAssign),
            Token::DivAssign => Some(Operator::DivAssign),
            Token::OpenParan => Some(Operator::OpenParan),
            Token::CloseParan => Some(Operator::CloseParan),
            _ => None,
        }
    }

    /// The precedence of this operator.
    pub fn prec(&self) -> (p: i8)
        ensures
            p == precedence(*self),
    {
        match self {
            Operator::Plus => 2,
            Operator::Minus => 1,
            Operator::LessThan => 0,
            Operator::LessThanEquals => 0,
            Operator::GreaterThan => 0,
            Operator::GreaterThanEquals => 0,
            Operator::Equals => 0,
            Operator::NotEquals => 0,
            Operator::Times => 3,
            Operator::Divide => 3,
            Operator::Ref => 4,
            Operator::Deref => 4,
            Operator::Pos => 5,
            Operator::Neg => 5,
            Operator::Not => 5,
            Operator::Assign => -1,
            Operator::AddAssign => -1,
            Operator::SubAssign => -1,
            Operator::MulAssign => -1,
            Operator::DivAssign => -1,
            _ => 0,
        }
    }

    /// Whether this operator takes one operand.
    pub fn unary(&self) -> (u: bool)
        ensures
            u == is_unary(*self),
    {
        match self {
            Operator::Pos | Operator::Neg | Operator::Ref | Operator::Deref | Operator::Not => true,
            _ => false,
        }
    }
}

/// A type as written in the source.
#[derive(Debug)]
pub enum Type {
    Auto,
    Void,
    Int,
    Float,
    Bool,
    Str,
    This,
    Tuple(Vec<Type>),
    Named(String),
    Ref(Box<Type>),
    Deref(Box<Type>),
    UnsizedArray(Box<Type>),
    SizedArray(Box<Type>),
}

/// The model of a [`Type`].
pub enum TypeModel {
    Auto,
    Void,
    Int,
    Float,
    Bool,
    Str,
    This,
    Tuple(Seq<TypeModel>),
    Named(Seq<char>),
    Ref(Box<TypeModel>),
    Deref(Box<TypeModel>),
    UnsizedArray(Box<TypeModel>),
    SizedArray(Box<TypeModel>),
}

/// The models of a list of types, in order.
pub open spec fn types_model(types: &Vec<Type>) -> Seq<TypeModel>
    decreases types,
{
    Seq::new(
        types.len() as nat,
        |i: int|
            if 0 <= i < types.len() {
                types[i].model()
            } else {
                arbitrary()
            },
    )
}

/// The models of a list of named, typed items, in order.
pub open spec fn fields_model(fields: &Vec<(String, Type)>) -> Seq<(Seq<char>, TypeModel)> {
    Seq::new(fields.len() as nat, |i: int| (fields[i].0@, fields[i].1.model()))
}

/// The models of a list of pairs of strings, in order.
pub open spec fn pairs_model(pairs: &Vec<(String, String)>) -> Seq<(Seq<char>, Seq<char>)> {
    Seq::new(pairs.len() as nat, |i: int| (pairs[i].0@, pairs[i].1@))
}

impl Type {
    /// The model of this type.
    pub open spec fn model(&self) -> TypeModel
        decreases self,
    {
        match self {
            Type::Auto => TypeModel::Auto,
            Type::Void => TypeModel::Void,
            Type::Int => TypeModel::Int,
            Type::Float => TypeModel::Float,
            Type::Bool => TypeModel::Bool,
            Type::Str => TypeModel::Str,
            Type::This => TypeModel::This,
            Type::Tuple(types) => TypeModel::Tuple(types_model(types)),
            Type::Named(name) => TypeModel::Named(name@),
            Type::Ref(inner) => TypeModel::Ref(Box::new(inner.model())),
            Type::Deref(inner) => TypeModel::Deref(Box::new(inner.model())),
            Type::UnsizedArray(inner) => TypeModel::UnsizedArray(Box::new(inner.model())),
            Type::SizedArray(inner) => TypeModel::SizedArray(Box::new(inner.model())),
        }
    }

    /// A copy of this type.
    pub fn duplicate(&self) -> (copy: Type)
        ensures
            copy@ == self@,
        decreases self,
    {
        match self {
            Type::Auto => Type::Auto,
            Type::Void => Type::Void,
            Type::Int => Type::Int,
            Type::Float => Type::Float,
            Type::Bool => Type::Bool,
            Type::Str => Type::Str,
            Type::This => Type::This,
            Type::Tuple(types) => {
                let mut copies: Vec<Type> = Vec::new();
                let mut i: usize = 0;
                while i < types.len()
                    invariant
                        i <= types.len(),
                        copies.len() == i,
                        *self matches Type::Tuple(own) && own == *types,
                        forall|j: int| 0 <= j < i ==> copies[j]@ == types[j]@,
                    decreases types.len() - i,
                {
                    let copy = types[i].duplicate();
                    copies.push(copy);
                    i += 1;
                }
                assert(types_model(&copies) =~= types_model(types));
                Type::Tuple(copies)
            },
            Type::Named(name) => Type::Named(name.clone()),
            Type::Ref(inner) => Type::Ref(Box::new(inner.duplicate())),
            Type::Deref(inner) => Type::Deref(Box::new(inner.duplicate())),
            Type::UnsizedArray(inner) => Type::UnsizedArray(Box::new(inner.duplicate())),
            Type::SizedArray(inner) => Type::SizedArray(Box::new(inner.duplicate())),
        }
    }

    /// Whether this type and `other` are the same type.
    pub fn same(&self, other: &Type) -> (same: bool)
        ensures
            same == (self@ == other@),
        decreases self,
    {
        match self {
            Type::Auto => match other {
                Type::Auto => true,
                _ => false,
            },
            Type::Void => match other {
                Type::Void => true,
                _ => false,
            },
            Type::Int => match other {
                Type::Int => true,
                _ => false,
            },
            Type::Float => match other {
                Type::Float => true,
                _ => false,
            },
            Type::Bool => match other {
                Type::Bool => true,
                _ => false,
            },
            Type::Str => match other {
                Type::Str => true,
                _ => false,
            },
            Type::This => match other {
                Type::This => true,
                _ => false,
            },
            Type::Tuple(types) => match other {
                Type::Tuple(other_types) => {
                    if types.len() != other_types.len() {
                        assert(types_model(types).len() != types_model(other_types).len());
                        return false;
                    }
                    let mut i: usize = 0;
                    while i < types.len()
                        invariant
                            i <= types.len(),
                            types.len() == other_types.len(),
                            *self matches Type::Tuple(own) && own == *types,
                            *other matches Type::Tuple(others) && others == *other_types,
                            forall|j: int| 0 <= j < i ==> types[j]@ == other_types[j]@,
                        decreases types.len() - i,
                    {
                        if !types[i].same(&other_types[i]) {
                            assert(types_model(types)[i as int] != types_model(other_types)[i as int]);
                            return false;
                        }
                        i += 1;
                    }
                    assert(types_model(types) =~= types_model(other_types));
                    true
                },
                _ => false,
            },
            Type::Named(name) => match other {
                Type::Named(other_name) => *name == *other_name,
                _ => false,
            },
            Type::Ref(inner) => match other {
                Type::Ref(other_inner) => inner.same(other_inner),
                _ => false,
            },
            Type::Deref(inner) => match other {
                Type::Deref(other_inner) => inner.same(other_inner),
                _ => false,
            },
            Type::UnsizedArray(inner) => match other {
                Type::UnsizedArray(other_inner) => inner.same(other_inner),
                _ => false,
            },
            Type::SizedArray(inner) => match other {
                Type::SizedArray(other_inner) => inner.same(other_inner),
                _ => false,
            },
        }
    }
}

impl View for Type {
    type V = TypeModel;

    open spec fn view(&self) -> TypeModel {
        self.model()
    }
}

impl Clone for Type {
    fn clone(&self) -> (copy: Self)
        ensures
            copy@ == self@,
    {
        self.duplicate()
    }
}

impl PartialEq for Type {
    fn eq(&self, other: &Self) -> (same: bool) {
        self.same(other)
    }
}

impl vstd::std_specs::cmp::PartialEqSpecImpl for Type {
    open spec fn obeys_eq_spec() -> bool {
        true
    }

    open spec fn eq_spec(&self, other: &Self) -> bool {
        self@ == other@
    }
}

/// A copy of a list of named, typed items.
pub fn duplicate_fields(fields: &Vec<(String, Type)>) -> (copies: Vec<(String, Type)>)
    ensures
        fields_model(&copies) == fields_model(fields),
{
    let mut copies: Vec<(String, Type)> = Vec::new();
    let mut i: usize = 0;
    while i < fields.len()
        invariant
            i <= fields.len(),
            copies.len() == i,
            forall|j: int| 0 <= j < i ==> copies[j].0@ == fields[j].0@ && copies[j].1@ == fields[j].1@,
        decreases fields.len() - i,
    {
        let name = fields[i].0.clone();
        let field_type = fields[i].1.duplicate();
        copies.push((name, field_type));
        i += 1;
    }
    assert(fields_model(&copies) =~= fields_model(fields));
    copies
}

/// A copy of a list of pairs of strings.
pub fn duplicate_pairs(pairs: &Vec<(String, String)>) -> (copies: Vec<(String, String)>)
    ensures
        pairs_model(&copies) == pairs_model(pairs),
{
    let mut copies: Vec<(String, String)> = Vec::new();
    let mut i: usize = 0;
    while i < pairs.len()
        invariant
            i <= pairs.len(),
            copies.len() == i,
            forall|j: int| 0 <= j < i ==> copies[j].0@ == pairs[j].0@ && copies[j].1@ == pairs[j].1@,
        decreases pairs.len() - i,
    {
        let first = pairs[i].0.clone();
        let second = pairs[i].1.clone();
        copies.push((first, second));
        i += 1;
    }
    assert(pairs_model(&copies) =~= pairs_model(pairs));
    copies
}

/// A variant of an enum declaration.
#[derive(Debug)]
pub enum EnumVariant {
    Empty(String),
    Tuple(String, Vec<Type>),
    /// A variant with named members; no name occurs twice.
    Cont(String, Vec<(String, Type)>),
}

/// The model of an [`EnumVariant`].
pub enum EnumVariantModel {
    Empty(Seq<char>),
    Tuple(Seq<char>, Seq<TypeModel>),
    Cont(Seq<char>, Seq<(Seq<char>, TypeModel)>),
}

impl View for EnumVariant {
    type V = EnumVariantModel;

    open spec fn view(&self) -> EnumVariantModel {
        match self {
            EnumVariant::Empty(name) => EnumVariantModel::Empty(name@),
            EnumVariant::Tuple(name, types) => EnumVariantModel::Tuple(name@, types_model(types)),
            EnumVariant::Cont(name, members) => EnumVariantModel::Cont(name@, fields_model(members)),
        }
    }
}

/// The models of a list of enum variants, in order.
pub open spec fn variants_model(variants: &Vec<EnumVariant>) -> Seq<EnumVariantModel> {
    Seq::new(variants.len() as nat, |i: int| variants[i]@)
}

/// A member variable of a container.
#[derive(Debug)]
pub struct ContMember {
    pub public: bool,
    pub name: String,
    pub var_type: Type,
}

/// A statement.
#[derive(Debug)]
pub enum Statement {
    VarDeclaration { name: String, var_type: Type, expr: Expression },
    Import(Vec<(String, String)>),
    Return(Option<Expression>),
    Yield(Option<Expression>),
    Break,
    Continue,
    While(Expression, Vec<Statement>),
    Condition {
        expr: Expression,
        cond_body: Vec<Statement>,
        cond_chain: Vec<(Expression, Vec<Statement>)>,
        else_body: Vec<Statement>,
    },
    ExpressionStmt(Expression),
}

/// An expression. A float literal holds the digits as they were written.
#[derive(Debug)]
pub enum Expression {
    Call(String, Vec<Expression>),
    IntLiteral(i64),
    FloatLiteral(String),
    BoolLiteral(bool),
    StringLiteral(String),
    Variable(String),
    Unary(Operator, Box<Expression>),
    Binary(Box<Expression>, Operator, Box<Expression>),
    Condition {
        expr: Box<Expression>,
        cond_body: Vec<Statement>,
        cond_chain: Vec<(Expression, Vec<Statement>)>,
        else_body: Vec<Statement>,
        yield_expr: Option<Box<Expression>>,
    },
}

/// The model of a [`Statement`].
pub enum StatementModel {
    VarDeclaration { name: Seq<char>, var_type: TypeModel, expr: ExpressionModel },
    Import(Seq<(Seq<char>, Seq<char>)>),
    Return(Option<ExpressionModel>),
    Yield(Option<ExpressionModel>),
    Break,
    Continue,
    While(ExpressionModel, Seq<StatementModel>),
    Condition {
        expr: ExpressionModel,
        cond_body: Seq<StatementModel>,
        cond_chain: Seq<(ExpressionModel, Seq<StatementModel>)>,
        else_body: Seq<StatementModel>,
    },
    ExpressionStmt(ExpressionModel),
}

/// The model of an [`Expression`].
pub enum ExpressionModel {
    Call(Seq<char>, Seq<ExpressionModel>),
    IntLiteral(i64),
    FloatLiteral(Seq<char>),
    BoolLiteral(bool),
    StringLiteral(Seq<char>),
    Variable(Seq<char>),
    Unary(Operator, Box<ExpressionModel>),
    Binary(Box<ExpressionModel>, Operator, Box<ExpressionModel>),
    Condition {
        expr: Box<ExpressionModel>,
        cond_body: Seq<StatementModel>,
        cond_chain: Seq<(ExpressionModel, Seq<StatementModel>)>,
        else_body: Seq<StatementModel>,
        yield_expr: Option<Box<ExpressionModel>>,
    },
}

/// The models of a list of statements, in order.
pub open spec fn statements_model(statements: &Vec<Statement>) -> Seq<StatementModel>
    decreases statements,
{
    Seq::new(
        statements.len() as nat,
        |i: int|
            if 0 <= i < statements.len() {
                statements[i].model()
            } else {
                arbitrary()
            },
    )
}

/// The models of a list of expressions, in order.
pub open spec fn expressions_model(expressions: &Vec<Expression>) -> Seq<ExpressionModel>
    decreases expressions,
{
    Seq::new(
        expressions.len() as nat,
        |i: int|
            if 0 <= i < expressions.len() {
                expressions[i].model()
            } else {
                arbitrary()
            },
    )
}

/// The models of the `else on` branches of a conditional, in order.
pub open spec fn chain_model(chain: &Vec<(Expression, Vec<Statement>)>) -> Seq<
    (ExpressionModel, Seq<StatementModel>),
>
    decreases chain,
{
    Seq::new(
        chain.len() as nat,
        |i: int|
            if 0 <= i < chain.len() {
                (chain[i].0.model(), statements_model(&chain[i].1))
            } else {
                arbitrary()
            },
    )
}

/// The model of an expression that may be absent.
pub open spec fn optional_model(expression: &Option<Expression>) -> Option<ExpressionModel> {
    match expression {
        Some(expression) => Some(expression.model()),
        None => None,
    }
}

impl Statement {
    /// The model of this statement.
    pub open spec fn model(&self) -> StatementModel
        decreases self,
    {
        match self {
            Statement::VarDeclaration { name, var_type, expr } => StatementModel::VarDeclaration {
                name: name@,
                var_type: var_type.model(),
                expr: expr.model(),
            },
            Statement::Import(pairs) => StatementModel::Import(pairs_model(pairs)),
            Statement::Return(Some(expr)) => StatementModel::Return(Some(expr.model())),
            Statement::Return(None) => StatementModel::Return(None),
            Statement::Yield(Some(expr)) => StatementModel::Yield(Some(expr.model())),
            Statement::Yield(None) => StatementModel::Yield(None),
            Statement::Break => StatementModel::Break,
            Statement::Continue => StatementModel::Continue,
            Statement::While(expr, body) => StatementModel::While(
                expr.model(),
                statements_model(body),
            ),
            Statement::Condition { expr, cond_body, cond_chain, else_body } => {
                StatementModel::Condition {
                    expr: expr.model(),
                    cond_body: statements_model(cond_body),
                    cond_chain: chain_model(cond_chain),
                    else_body: statements_model(else_body),
                }
            },
            Statement::ExpressionStmt(expr) => StatementModel::ExpressionStmt(expr.model()),
        }
    }
}

impl Expression {
    /// The model of this expression.
    pub open spec fn model(&self) -> ExpressionModel
        decreases self,
    {
        match self {
            Expression::Call(name, arguments) => ExpressionModel::Call(
                name@,
                expressions_model(arguments),
            ),
            Expression::IntLiteral(value) => ExpressionModel::IntLiteral(*value),
            Expression::FloatLiteral(digits) => ExpressionModel::FloatLiteral(digits@),
            Expression::BoolLiteral(value) => ExpressionModel::BoolLiteral(*value),
            Expression::StringLiteral(text) => ExpressionModel::StringLiteral(text@),
            Expression::Variable(name) => ExpressionModel::Variable(name@),
            Expression::Unary(op, operand) => ExpressionModel::Unary(*op, Box::new(operand.model())),
            Expression::Binary(lhs, op, rhs) => ExpressionModel::Binary(
                Box::new(lhs.model()),
                *op,
                Box::new(rhs.model()),
            ),
            Expression::Condition { expr, cond_body, cond_chain, else_body, yield_expr } => {
                ExpressionModel::Condition {
                    expr: Box::new(expr.model()),
                    cond_body: statements_model(cond_body),
                    cond_chain: chain_model(cond_chain),
                    else_body: statements_model(else_body),
                    yield_expr: match yield_expr {
                        Some(yielded) => Some(Box::new(yielded.model())),
                        None => None,
                    },
                }
            },
        }
    }
}

/// A copy of a list of statements.
pub fn duplicate_statements(statements: &Vec<Statement>) -> (copies: Vec<Statement>)
    ensures
        statements_model(&copies) == statements_model(statements),
    decreases statements,
{
    let mut copies: Vec<Statement> = Vec::new();
    let mut i: usize = 0;
    while i < statements.len()
        invariant
            i <= statements.len(),
            copies.len() == i,
            forall|j: int| 0 <= j < i ==> copies[j]@ == statements[j]@,
        decreases statements.len() - i,
    {
        let copy = statements[i].duplicate();
        copies.push(copy);
        i += 1;
    }
    assert(statements_model(&copies) =~= statements_model(statements));
    copies
}

/// A copy of a list of expressions.
pub fn duplicate_expressions(expressions: &Vec<Expression>) -> (copies: Vec<Expression>)
    ensures
        expressions_model(&copies) == expressions_model(expressions),
    decreases expressions,
{
    let mut copies: Vec<Expression> = Vec::new();
    let mut i: usize = 0;
    while i < expressions.len()
        invariant
            i <= expressions.len(),
            copies.len() == i,
            forall|j: int| 0 <= j < i ==> copies[j]@ == expressions[j]@,
        decreases expressions.len() - i,
    {
        let copy = expressions[i].duplicate();
        copies.push(copy);
        i += 1;
    }
    assert(expressions_model(&copies) =~= expressions_model(expressions));
    copies
}

/// A copy of the `else on` branches of a conditional.
pub fn duplicate_chain(chain: &Vec<(Expression, Vec<Statement>)>) -> (copies: Vec<
    (Expression, Vec<Statement>),
>)
    ensures
        chain_model(&copies) == chain_model(chain),
    decreases chain,
{
    let mut copies: Vec<(Expression, Vec<Statement>)> = Vec::new();
    let mut i: usize = 0;
    while i < chain.len()
        invariant
            i <= chain.len(),
            copies.len() == i,
            forall|j: int|
                0 <= j < i ==> copies[j].0@ == chain[j].0@ && statements_model(&copies[j].1)
                    == statements_model(&chain[j].1),
        decreases chain.len() - i,
    {
        let condition = chain[i].0.duplicate();
        let body = duplicate_statements(&chain[i].1);
        copies.push((condition, body));
        i += 1;
    }
    assert(chain_model(&copies) =~= chain_model(chain));
    copies
}

impl Statement {
    /// A copy of this statement.
    pub fn duplicate(&self) -> (copy: Statement)
        ensures
            copy@ == self@,
        decreases self,
    {
        match self {
            Statement::VarDeclaration { name, var_type, expr } => Statement::VarDeclaration {
                name: name.clone(),
                var_type: var_type.duplicate(),
                expr: expr.duplicate(),
            },
            Statement::Import(pairs) => Statement::Import(duplicate_pairs(pairs)),
            Statement::Return(Some(expr)) => Statement::Return(Some(expr.duplicate())),
            Statement::Return(None) => Statement::Return(None),
            Statement::Yield(Some(expr)) => Statement::Yield(Some(expr.duplicate())),
            Statement::Yield(None) => Statement::Yield(None),
            Statement::Break => Statement::Break,
            Statement::Continue => Statement::Continue,
            Statement::While(expr, body) => Statement::While(
                expr.duplicate(),
                duplicate_statements(body),
            ),
            Statement::Condition { expr, cond_body, cond_chain, else_body } => {
                Statement::Condition {
                    expr: expr.duplicate(),
                    cond_body: duplicate_statements(cond_body),
                    cond_chain: duplicate_chain(cond_chain),
                    else_body: duplicate_statements(else_body),
                }
            },
            Statement::ExpressionStmt(expr) => Statement::ExpressionStmt(expr.duplicate()),
        }
    }
}

impl Expression {
    /// A copy of this expression.
    pub fn duplicate(&self) -> (copy: Expression)
        ensures
            copy@ == self@,
        decreases self,
    {
        match self {
            Expression::Call(name, arguments) => Expression::Call(
                name.clone(),
                duplicate_expressions(arguments),
            ),
            Expression::IntLiteral(value) => Expression::IntLiteral(*value),
            Expression::FloatLiteral(digits) => Expression::FloatLiteral(digits.clone()),
            Expression::BoolLiteral(value) => Expression::BoolLiteral(*value),
            Expression::StringLiteral(text) => Expression::StringLiteral(text.clone()),
            Expression::Variable(name) => Expression::Variable(name.clone()),
            Expression::Unary(op, operand) => Expression::Unary(*op, Box::new(operand.duplicate())),
            Expression::Binary(lhs, op, rhs) => Expression::Binary(
                Box::new(lhs.duplicate()),
                *op,
                Box::new(rhs.duplicate()),
            ),
            Expression::Condition { expr, cond_body, cond_chain, else_body, yield_expr } => {
                Expression::Condition {
                    expr: Box::new(expr.duplicate()),
                    cond_body: duplicate_statements(cond_body),
                    cond_chain: duplicate_chain(cond_chain),
                    else_body: duplicate_statements(else_body),
                    yield_expr: match yield_expr {
                        Some(yielded) => Some(Box::new(yielded.duplicate())),
                        None => None,
                    },
                }
            },
        }
    }
}

impl Clone for Statement {
    fn clone(&self) -> (copy: Self)
        ensures
            copy@ == self@,
    {
        self.duplicate()
    }
}

impl Clone for Expression {
    fn clone(&self) -> (copy: Self)
        ensures
            copy@ == self@,
    {
        self.duplicate()
    }
}

impl View for Statement {
    type V = StatementModel;

    open spec fn view(&self) -> StatementModel {
        self.model()
    }
}

impl View for Expression {
    type V = ExpressionModel;

    open spec fn view(&self) -> ExpressionModel {
        self.model()
    }
}

/// A member function of a container.
#[derive(Debug)]
pub struct ContainerFunction {
    pub public: bool,
    pub name: String,
    pub returns: Type,
    pub arguments: Vec<(String, Type)>,
    pub body: Vec<Statement>,
}

/// The model of a [`ContainerFunction`].
pub struct ContainerFunctionModel {
    pub public: bool,
    pub name: Seq<char>,
    pub returns: TypeModel,
    pub arguments: Seq<(Seq<char>, TypeModel)>,
    pub body: Seq<StatementModel>,
}

impl View for ContainerFunction {
    type V = ContainerFunctionModel;

    open spec fn view(&self) -> ContainerFunctionModel {
        ContainerFunctionModel {
            public: self.public,
            name: self.name@,
            returns: self.returns@,
            arguments: fields_model(&self.arguments),
            body: statements_model(&self.body),
        }
    }
}

/// A function of an interface.
#[derive(Debug)]
pub struct InterfaceFunction {
    pub name: String,
    pub returns: Type,
    pub arguments: Vec<(String, Type)>,
    pub body: Option<Vec<Statement>>,
}

/// The model of an [`InterfaceFunction`].
pub struct InterfaceFunctionModel {
    pub name: Seq<char>,
    pub returns: TypeModel,
    pub arguments: Seq<(Seq<char>, TypeModel)>,
    pub body: Option<Seq<StatementModel>>,
}

/// The model of a statement list that may be absent.
pub open spec fn body_model(body: &Option<Vec<Statement>>) -> Option<Seq<StatementModel>> {
    match body {
        Some(statements) => Some(statements_model(statements)),
        None => None,
    }
}

impl View for InterfaceFunction {
    type V = InterfaceFunctionModel;

    open spec fn view(&self) -> InterfaceFunctionModel {
        InterfaceFunctionModel {
            name: self.name@,
            returns: self.returns@,
            arguments: fields_model(&self.arguments),
            body: body_model(&self.body),
        }
    }
}

/// The models of a list of container functions, in order.
pub open spec fn container_functions_model(functions: &Vec<ContainerFunction>) -> Seq<
    ContainerFunctionModel,
> {
    Seq::new(functions.len() as nat, |i: int| functions[i]@)
}

/// The models of a list of interface functions, in order.
pub open spec fn interface_functions_model(functions: &Vec<InterfaceFunction>) -> Seq<
    InterfaceFunctionModel,
> {
    Seq::new(functions.len() as nat, |i: int| functions[i]@)
}

/// A top-level declaration.
#[derive(Debug)]
pub enum Declaration {
    Function {
        public: bool,
        external: bool,
        name: String,
        returns: Type,
        arguments: Vec<(String, Type)>,
        body: Option<Vec<Statement>>,
    },
    StaticVariable { public: bool, name: String, var_type: Type, expr: Expression },
    Module { name: String, decl_list: Vec<Declaration> },
    /// A container; no member variable name occurs twice.
    Container {
        public: bool,
        name: String,
        member_variables: Vec<(String, Type)>,
        member_functions: Vec<ContainerFunction>,
    },
    Interface { name: String, functions: Vec<InterfaceFunction> },
    Enum { name: String, variants: Vec<EnumVariant> },
    Import(Vec<(String, String)>),
}

/// The model of a [`Declaration`].
pub enum DeclarationModel {
    Function {
        public: bool,
        external: bool,
        name: Seq<char>,
        returns: TypeModel,
        arguments: Seq<(Seq<char>, TypeModel)>,
        body: Option<Seq<StatementModel>>,
    },
    StaticVariable { public: bool, name: Seq<char>, var_type: TypeModel, expr: ExpressionModel },
    Module { name: Seq<char>, decl_list: Seq<DeclarationModel> },
    Container {
        public: bool,
        name: Seq<char>,
        member_variables: Seq<(Seq<char>, TypeModel)>,
        member_functions: Seq<ContainerFunctionModel>,
    },
    Interface { name: Seq<char>, functions: Seq<InterfaceFunctionModel> },
    Enum { name: Seq<char>, variants: Seq<EnumVariantModel> },
    Import(Seq<(Seq<char>, Seq<char>)>),
}

/// The models of a list of declarations, in order.
pub open spec fn declarations_model(declarations: &Vec<Declaration>) -> Seq<DeclarationModel>
    decreases declarations,
{
    Seq::new(
        declarations.len() as nat,
        |i: int|
            if 0 <= i < declarations.len() {
                declarations[i].model()
            } else {
                arbitrary()
            },
    )
}

impl Declaration {
    /// The model of this declaration.
    pub open spec fn model(&self) -> DeclarationModel
        decreases self,
    {
        match self {
            Declaration::Function { public, external, name, returns: return_type, arguments, body } => {
                DeclarationModel::Function {
                    public: *public,
                    external: *external,
                    name: name@,
                    returns: return_type@,
                    arguments: fields_model(arguments),
                    body: body_model(body),
                }
            },
            Declaration::StaticVariable { public, name, var_type, expr } => {
                DeclarationModel::StaticVariable {
                    public: *public,
                    name: name@,
                    var_type: var_type@,
                    expr: expr@,
                }
            },
            Declaration::Module { name, decl_list } => DeclarationModel::Module {
                name: name@,
                decl_list: declarations_model(decl_list),
            },
            Declaration::Container { public, name, member_variables, member_functions } => {
                DeclarationModel::Container {
                    public: *public,
                    name: name@,
                    member_variables: fields_model(member_variables),
                    member_functions: container_functions_model(member_functions),
                }
            },
            Declaration::Interface { name, functions } => DeclarationModel::Interface {
                name: name@,
                functions: interface_functions_model(functions),
            },
            Declaration::Enum { name, variants } => DeclarationModel::Enum {
                name: name@,
                variants: variants_model(variants),
            },
            Declaration::Import(pairs) => DeclarationModel::Import(pairs_model(pairs)),
        }
    }
}

impl View for Declaration {
    type V = DeclarationModel;

    open spec fn view(&self) -> DeclarationModel {
        self.model()
    }
}

} // verus!
