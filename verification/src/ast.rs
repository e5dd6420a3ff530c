//! The syntax model: the tree a parser hands over, every node tagged with the
//! byte range of the source text it was read from.
//!
//! The tree is strictly hierarchical: sub-nodes are owned, never shared.

use std::fmt::Debug;
use std::ops::Range;
use vstd::prelude::*;
use vstd::std_specs::cmp::PartialEqSpec;

verus! {

/// A value together with the byte range of the source text it was read from.
///
/// The range is metadata for diagnostics and no part of what a node is: `==`
/// compares the values alone.
#[derive(Debug)]
pub struct Located<T: Debug + Clone> {
    pub value: T,
    pub loc: Range<usize>,
}

impl<T: Debug + Clone> Located<T> {
    /// The value `value`, read from the bytes `loc` of the source text.
    pub fn new(value: T, loc: Range<usize>) -> (node: Self)
        ensures
            node.value == value,
            node.loc == loc,
    {
        Self { value, loc }
    }

    /// Whether the node's range is a non-empty range of a source text of
    /// `length` bytes, as that of every node read from such a text is.
    pub open spec fn within_spec(&self, length: usize) -> bool {
        self.loc.start < self.loc.end <= length
    }

    #[verifier::when_used_as_spec(within_spec)]
    pub fn within(&self, length: usize) -> (yes: bool)
        ensures
            yes == self.within_spec(length),
    {
        self.loc.start < self.loc.end && self.loc.end <= length
    }

    /// A copy of the node's source range.
    pub fn span(&self) -> (loc: Range<usize>)
        ensures
            loc == self.loc,
    {
        copy_span(&self.loc)
    }
}

/// A copy of a source range.
pub fn copy_span(loc: &Range<usize>) -> (res: Range<usize>)
    ensures
        res == *loc,
{
    Range { start: loc.start, end: loc.end }
}

impl<T: Debug + Clone + PartialEq> PartialEq for Located<T> {
    /// Two nodes are equal where their values are: the range says where a
    /// node was read, not what it is.
    fn eq(&self, other: &Self) -> (equal: bool) {
        self.value == other.value
    }
}

impl<T: Debug + Clone + PartialEq> vstd::std_specs::cmp::PartialEqSpecImpl for Located<T> {
    open spec fn obeys_eq_spec() -> bool {
        T::obeys_eq_spec()
    }

    open spec fn eq_spec(&self, other: &Self) -> bool {
        self.value.eq_spec(&other.value)
    }
}

impl<T: Debug + Clone> Clone for Located<T> {
    fn clone(&self) -> (res: Self)
        ensures
            cloned(self.value, res.value),
            res.loc == self.loc,
    {
        Located { value: self.value.clone(), loc: copy_span(&self.loc) }
    }
}

/// A declared type.
#[derive(Debug, PartialEq)]
pub enum Type {
    /// A named type.
    Ident(String),
    /// A head type applied to a sub-type, such as a container of `sub`.
    Generic { head: Box<Located<Self>>, sub: Box<Located<Self>> },
    /// An array of `head`, of a fixed size where one is given.
    Array { head: Box<Located<Self>>, size: Option<i64> },
}

impl Clone for Type {
    fn clone(&self) -> (res: Self)
        ensures
            res == *self,
        decreases *self,
    {
        match self {
            Type::Ident(name) => Type::Ident(name.clone()),
            Type::Generic { head, sub } => Type::Generic {
                head: Box::new(Located { value: head.value.clone(), loc: copy_span(&head.loc) }),
                sub: Box::new(Located { value: sub.value.clone(), loc: copy_span(&sub.loc) }),
            },
            Type::Array { head, size } => Type::Array {
                head: Box::new(Located { value: head.value.clone(), loc: copy_span(&head.loc) }),
                size: *size,
            },
        }
    }
}

/// A name with its declared type: a function parameter or a binder.
#[derive(Debug, PartialEq)]
pub struct Parameter {
    pub name: Located<String>,
    pub typ: Located<Type>,
}

impl Clone for Parameter {
    fn clone(&self) -> (res: Self)
        ensures
            res == *self,
    {
        Parameter { name: self.name.clone(), typ: self.typ.clone() }
    }
}

/// The operator of an assignment: plain `=` or one of six compound forms.
#[derive(Debug, Clone, Copy, PartialEq, Eq, PartialOrd, Ord, Structural)]
pub enum AssignOperator {
    Equal,
    Plus,
    Minus,
    Star,
    Slash,
    Percent,
    Exponent,
}

#[derive(Debug, Clone, Copy, PartialEq, Eq, PartialOrd, Ord, Structural)]
pub enum BinaryOperator {
    /// Sequencing: evaluates the left operand, discards it, yields the right one.
    Then,
    And,
    Or,
    EqualEqual,
    ExclamationEqual,
    Less,
    Greater,
    LessEqual,
    GreaterEqual,
    Plus,
    Minus,
    Star,
    Slash,
    Percent,
    Exponent,
}

#[derive(Debug, Clone, Copy, PartialEq, Eq, PartialOrd, Ord, Structural)]
pub enum UnaryOperator {
    Minus,
    Not,
}

impl AssignOperator {
    /// The arithmetic operator that a compound assignment applies; `None` for
    /// plain `=`.
    pub open spec fn binary_spec(self) -> Option<BinaryOperator> {
        match self {
            AssignOperator::Equal => None,
            AssignOperator::Plus => Some(BinaryOperator::Plus),
            AssignOperator::Minus => Some(BinaryOperator::Minus),
            AssignOperator::Star => Some(BinaryOperator::Star),
            AssignOperator::Slash => Some(BinaryOperator::Slash),
            AssignOperator::Percent => Some(BinaryOperator::Percent),
            AssignOperator::Exponent => Some(BinaryOperator::Exponent),
        }
    }

    #[verifier::when_used_as_spec(binary_spec)]
    pub fn binary(self) -> (op: Option<BinaryOperator>)
        ensures
            op == self.binary_spec(),
    {
        match self {
            AssignOperator::Equal => None,
            AssignOperator::Plus => Some(BinaryOperator::Plus),
            AssignOperator::Minus => Some(BinaryOperator::Minus),
            AssignOperator::Star => Some(BinaryOperator::Star),
            AssignOperator::Slash => Some(BinaryOperator::Slash),
            AssignOperator::Percent => Some(BinaryOperator::Percent),
            AssignOperator::Exponent => Some(BinaryOperator::Exponent),
        }
    }
}

impl BinaryOperator {
    /// Whether the operator is one of the six arithmetic ones.
    pub open spec fn is_arithmetic(self) -> bool {
        match self {
            BinaryOperator::Plus | BinaryOperator::Minus | BinaryOperator::Star
            | BinaryOperator::Slash | BinaryOperator::Percent | BinaryOperator::Exponent => true,
            _ => false,
        }
    }
}

#[derive(Debug, PartialEq)]
pub enum Atom {
    Null,
    Ident(String),
    Int(i64),
    /// A floating-point literal, held as its IEEE 754 binary64 bit pattern.
    Float(u64),
    Bool(bool),
    Char(char),
    String(String),
    /// A parenthesized expression.
    Expression(Box<Located<Expression>>),
    Tuple(Vec<Located<Expression>>),
    Vector(Vec<Located<Expression>>),
    /// Field names with their values, in source order.
    Object(Vec<(Located<String>, Located<Expression>)>),
}

#[derive(Debug, PartialEq)]
pub enum Expression {
    Atom(Atom),
    Binary { op: BinaryOperator, left: Box<Located<Self>>, right: Box<Located<Self>> },
    Unary { op: UnaryOperator, right: Box<Located<Self>> },
    Call { head: Box<Located<Self>>, args: Vec<Located<Expression>> },
    Field { head: Box<Located<Self>>, field: Located<String> },
    Index { head: Box<Located<Self>>, index: Box<Located<Self>> },
}

/// An assignable location: the left-hand side of an assignment.
#[derive(Debug, PartialEq)]
pub enum Path {
    Ident(String),
    Field { head: Box<Located<Self>>, field: Located<String> },
    Index { head: Box<Located<Self>>, index: Box<Located<Expression>> },
}

#[derive(Debug, PartialEq)]
pub enum Statement {
    /// A nested statement list with a lexical scope of its own.
    Block(Vec<Located<Self>>),
    Let { param: Located<Parameter>, expr: Located<Expression> },
    Assign { op: AssignOperator, path: Located<Path>, expr: Located<Expression> },
    Call { path: Located<Path>, args: Vec<Located<Expression>> },
    If {
        cond: Located<Expression>,
        case: Box<Located<Self>>,
        else_case: Option<Box<Located<Self>>>,
    },
    IfSome {
        param: Located<Parameter>,
        expr: Located<Expression>,
        case: Box<Located<Self>>,
        else_case: Option<Box<Located<Self>>>,
    },
    While { cond: Located<Expression>, body: Box<Located<Self>> },
    WhileSome { param: Located<Parameter>, expr: Located<Expression>, body: Box<Located<Self>> },
    For { param: Located<Parameter>, iter: Located<Expression>, body: Box<Located<Self>> },
    Break,
    Continue,
    Return(Located<Expression>),
}

/// The statements of a function body.
#[derive(Debug, PartialEq)]
pub struct Body(pub Vec<Located<Statement>>);

#[derive(Debug, PartialEq)]
pub enum Definition {
    Fn {
        /// Whether the compiled function is visible to the host.
        export: bool,
        name: Located<String>,
        params: Vec<Located<Parameter>>,
        result: Option<Located<Type>>,
        body: Located<Body>,
    },
}

/// The top-level definitions of a program, in source order.
#[derive(Debug, PartialEq)]
pub struct Module(pub Vec<Located<Definition>>);

/// Whether two atoms are the same tree: equal but for which vectors hold
/// their parts.
pub open spec fn same_atom(one: Atom, other: Atom) -> bool
    decreases one,
{
    match (one, other) {
        (Atom::Expression(a), Atom::Expression(b)) => same_located_expression(*a, *b),
        (Atom::Tuple(a), Atom::Tuple(b)) => same_expressions(a@, b@),
        (Atom::Vector(a), Atom::Vector(b)) => same_expressions(a@, b@),
        (Atom::Object(a), Atom::Object(b)) => same_fields(a@, b@),
        (Atom::Expression(_), _) => false,
        (Atom::Tuple(_), _) => false,
        (Atom::Vector(_), _) => false,
        (Atom::Object(_), _) => false,
        _ => one == other,
    }
}

/// Whether two expressions are the same tree.
pub open spec fn same_expression(one: Expression, other: Expression) -> bool
    decreases one,
{
    match (one, other) {
        (Expression::Atom(a), Expression::Atom(b)) => same_atom(a, b),
        (
            Expression::Binary { op: op_a, left: left_a, right: right_a },
            Expression::Binary { op: op_b, left: left_b, right: right_b },
        ) => op_a == op_b && same_located_expression(*left_a, *left_b) && same_located_expression(
            *right_a,
            *right_b,
        ),
        (
            Expression::Unary { op: op_a, right: right_a },
            Expression::Unary { op: op_b, right: right_b },
        ) => op_a == op_b && same_located_expression(*right_a, *right_b),
        (
            Expression::Call { head: head_a, args: args_a },
            Expression::Call { head: head_b, args: args_b },
        ) => same_located_expression(*head_a, *head_b) && same_expressions(args_a@, args_b@),
        (
            Expression::Field { head: head_a, field: field_a },
            Expression::Field { head: head_b, field: field_b },
        ) => same_located_expression(*head_a, *head_b) && field_a == field_b,
        (
            Expression::Index { head: head_a, index: index_a },
            Expression::Index { head: head_b, index: index_b },
        ) => same_located_expression(*head_a, *head_b) && same_located_expression(
            *index_a,
            *index_b,
        ),
        _ => false,
    }
}

/// Whether two located expressions are the same tree, read from the same
/// range.
pub open spec fn same_located_expression(
    one: Located<Expression>,
    other: Located<Expression>,
) -> bool
    decreases one,
{
    one.loc == other.loc && same_expression(one.value, other.value)
}

/// Whether two lists of expressions are the same trees in the same order.
pub open spec fn same_expressions(
    one: Seq<Located<Expression>>,
    other: Seq<Located<Expression>>,
) -> bool
    decreases one,
{
    one.len() == other.len() && forall|i: int|
        0 <= i < one.len() ==> same_located_expression(#[trigger] one[i], other[i])
}

/// Whether two lists of fields have the same names with the same trees for
/// their values, in the same order.
pub open spec fn same_fields(
    one: Seq<(Located<String>, Located<Expression>)>,
    other: Seq<(Located<String>, Located<Expression>)>,
) -> bool
    decreases one,
{
    one.len() == other.len() && forall|i: int|
        0 <= i < one.len() ==> (#[trigger] one[i]).0 == other[i].0 && same_located_expression(
            one[i].1,
            other[i].1,
        )
}

/// Whether two paths are the same tree.
pub open spec fn same_path(one: Path, other: Path) -> bool
    decreases one,
{
    match (one, other) {
        (Path::Ident(a), Path::Ident(b)) => a == b,
        (
            Path::Field { head: head_a, field: field_a },
            Path::Field { head: head_b, field: field_b },
        ) => same_located_path(*head_a, *head_b) && field_a == field_b,
        (
            Path::Index { head: head_a, index: index_a },
            Path::Index { head: head_b, index: index_b },
        ) => same_located_path(*head_a, *head_b) && same_located_expression(*index_a, *index_b),
        _ => false,
    }
}

/// Whether two located paths are the same tree, read from the same range.
pub open spec fn same_located_path(one: Located<Path>, other: Located<Path>) -> bool
    decreases one,
{
    one.loc == other.loc && same_path(one.value, other.value)
}

/// Whether two statements are the same tree.
pub open spec fn same_statement(one: Statement, other: Statement) -> bool
    decreases one,
{
    match (one, other) {
        (Statement::Block(a), Statement::Block(b)) => same_statements(a@, b@),
        (
            Statement::Let { param: param_a, expr: expr_a },
            Statement::Let { param: param_b, expr: expr_b },
        ) => param_a == param_b && same_located_expression(expr_a, expr_b),
        (
            Statement::Assign { op: op_a, path: path_a, expr: expr_a },
            Statement::Assign { op: op_b, path: path_b, expr: expr_b },
        ) => op_a == op_b && same_located_path(path_a, path_b) && same_located_expression(
            expr_a,
            expr_b,
        ),
        (
            Statement::Call { path: path_a, args: args_a },
            Statement::Call { path: path_b, args: args_b },
        ) => same_located_path(path_a, path_b) && same_expressions(args_a@, args_b@),
        (
            Statement::If { cond: cond_a, case: case_a, else_case: else_a },
            Statement::If { cond: cond_b, case: case_b, else_case: else_b },
        ) => same_located_expression(cond_a, cond_b) && same_located_statement(*case_a, *case_b)
            && same_else(else_a, else_b),
        (
            Statement::IfSome { param: param_a, expr: expr_a, case: case_a, else_case: else_a },
            Statement::IfSome { param: param_b, expr: expr_b, case: case_b, else_case: else_b },
        ) => param_a == param_b && same_located_expression(expr_a, expr_b)
            && same_located_statement(*case_a, *case_b) && same_else(else_a, else_b),
        (
            Statement::While { cond: cond_a, body: body_a },
            Statement::While { cond: cond_b, body: body_b },
        ) => same_located_expression(cond_a, cond_b) && same_located_statement(*body_a, *body_b),
        (
            Statement::WhileSome { param: param_a, expr: expr_a, body: body_a },
            Statement::WhileSome { param: param_b, expr: expr_b, body: body_b },
        ) => param_a == param_b && same_located_expression(expr_a, expr_b)
            && same_located_statement(*body_a, *body_b),
        (
            Statement::For { param: param_a, iter: iter_a, body: body_a },
            Statement::For { param: param_b, iter: iter_b, body: body_b },
        ) => param_a == param_b && same_located_expression(iter_a, iter_b)
            && same_located_statement(*body_a, *body_b),
        (Statement::Break, Statement::Break) => true,
        (Statement::Continue, Statement::Continue) => true,
        (Statement::Return(a), Statement::Return(b)) => same_located_expression(a, b),
        _ => false,
    }
}

/// Whether two located statements are the same tree, read from the same
/// range.
pub open spec fn same_located_statement(one: Located<Statement>, other: Located<Statement>) -> bool
    decreases one,
{
    one.loc == other.loc && same_statement(one.value, other.value)
}

/// Whether two lists of statements are the same trees in the same order.
pub open spec fn same_statements(
    one: Seq<Located<Statement>>,
    other: Seq<Located<Statement>>,
) -> bool
    decreases one,
{
    one.len() == other.len() && forall|i: int|
        0 <= i < one.len() ==> same_located_statement(#[trigger] one[i], other[i])
}

/// Whether two optional branches are both absent or the same tree.
pub open spec fn same_else(
    one: Option<Box<Located<Statement>>>,
    other: Option<Box<Located<Statement>>>,
) -> bool
    decreases one,
{
    match (one, other) {
        (Some(a), Some(b)) => same_located_statement(*a, *b),
        (None, None) => true,
        _ => false,
    }
}

/// Whether two definitions are the same tree.
pub open spec fn same_definition(one: Definition, other: Definition) -> bool {
    match (one, other) {
        (
            Definition::Fn {
                export: export_a,
                name: name_a,
                params: params_a,
                result: result_a,
                body: body_a,
            },
            Definition::Fn {
                export: export_b,
                name: name_b,
                params: params_b,
                result: result_b,
                body: body_b,
            },
        ) => export_a == export_b && name_a == name_b && params_a@ == params_b@ && result_a
            == result_b && body_a.loc == body_b.loc && same_statements(
            body_a.value.0@,
            body_b.value.0@,
        ),
    }
}

/// Whether two located definitions are the same tree, read from the same
/// range.
pub open spec fn same_located_definition(
    one: Located<Definition>,
    other: Located<Definition>,
) -> bool {
    one.loc == other.loc && same_definition(one.value, other.value)
}

/// Whether two modules have the same definitions in the same order.
pub open spec fn same_module(one: Module, other: Module) -> bool {
    one.0@.len() == other.0@.len() && forall|i: int|
        0 <= i < one.0@.len() ==> same_located_definition(#[trigger] one.0@[i], other.0@[i])
}

impl Clone for Atom {
    fn clone(&self) -> (res: Self)
        ensures
            same_atom(*self, res),
        decreases *self,
    {
        match self {
            Atom::Null => Atom::Null,
            Atom::Ident(name) => Atom::Ident(name.clone()),
            Atom::Int(n) => Atom::Int(*n),
            Atom::Float(bits) => Atom::Float(*bits),
            Atom::Bool(b) => Atom::Bool(*b),
            Atom::Char(c) => Atom::Char(*c),
            Atom::String(text) => Atom::String(text.clone()),
            Atom::Expression(inner) => Atom::Expression(clone_boxed_expression(inner)),
            Atom::Tuple(items) => Atom::Tuple(clone_expressions(items)),
            Atom::Vector(items) => Atom::Vector(clone_expressions(items)),
            Atom::Object(fields) => Atom::Object(clone_fields(fields)),
        }
    }
}

impl Clone for Expression {
    fn clone(&self) -> (res: Self)
        ensures
            same_expression(*self, res),
        decreases *self,
    {
        match self {
            Expression::Atom(atom) => Expression::Atom(atom.clone()),
            Expression::Binary { op, left, right } => Expression::Binary {
                op: *op,
                left: clone_boxed_expression(left),
                right: clone_boxed_expression(right),
            },
            Expression::Unary { op, right } => Expression::Unary {
                op: *op,
                right: clone_boxed_expression(right),
            },
            Expression::Call { head, args } => Expression::Call {
                head: clone_boxed_expression(head),
                args: clone_expressions(args),
            },
            Expression::Field { head, field } => Expression::Field {
                head: clone_boxed_expression(head),
                field: field.clone(),
            },
            Expression::Index { head, index } => Expression::Index {
                head: clone_boxed_expression(head),
                index: clone_boxed_expression(index),
            },
        }
    }
}

fn clone_located_expression(node: &Located<Expression>) -> (res: Located<Expression>)
    ensures
        same_located_expression(*node, res),
    decreases *node,
{
    Located { value: node.value.clone(), loc: copy_span(&node.loc) }
}

fn clone_boxed_expression(node: &Box<Located<Expression>>) -> (res: Box<Located<Expression>>)
    ensures
        same_located_expression(**node, *res),
    decreases *node,
{
    Box::new(Located { value: node.value.clone(), loc: copy_span(&node.loc) })
}

fn clone_expressions(items: &Vec<Located<Expression>>) -> (res: Vec<Located<Expression>>)
    ensures
        same_expressions(items@, res@),
    decreases *items,
{
    let mut res: Vec<Located<Expression>> = Vec::new();
    let mut i: usize = 0;
    while i < items.len()
        invariant
            i <= items.len(),
            res.len() == i,
            forall|j: int| 0 <= j < i ==> same_located_expression(#[trigger] items@[j], res@[j]),
        decreases items.len() - i,
    {
        res.push(Located { value: items[i].value.clone(), loc: copy_span(&items[i].loc) });
        i += 1;
    }
    res
}

fn clone_fields(fields: &Vec<(Located<String>, Located<Expression>)>) -> (res: Vec<
    (Located<String>, Located<Expression>),
>)
    ensures
        same_fields(fields@, res@),
    decreases *fields,
{
    let mut res: Vec<(Located<String>, Located<Expression>)> = Vec::new();
    let mut i: usize = 0;
    while i < fields.len()
        invariant
            i <= fields.len(),
            res.len() == i,
            forall|j: int|
                0 <= j < i ==> (#[trigger] fields@[j]).0 == res@[j].0 && same_located_expression(
                    fields@[j].1,
                    res@[j].1,
                ),
        decreases fields.len() - i,
    {
        let value = Located { value: fields[i].1.value.clone(), loc: copy_span(&fields[i].1.loc) };
        res.push((fields[i].0.clone(), value));
        i += 1;
    }
    res
}

fn clone_path(path: &Located<Path>) -> (res: Located<Path>)
    ensures
        same_located_path(*path, res),
    decreases *path,
{
    Located { value: path.value.clone(), loc: copy_span(&path.loc) }
}

impl Clone for Path {
    fn clone(&self) -> (res: Self)
        ensures
            same_path(*self, res),
        decreases *self,
    {
        match self {
            Path::Ident(name) => Path::Ident(name.clone()),
            Path::Field { head, field } => Path::Field {
                head: Box::new(clone_path(head)),
                field: field.clone(),
            },
            Path::Index { head, index } => Path::Index {
                head: Box::new(clone_path(head)),
                index: clone_boxed_expression(index),
            },
        }
    }
}

impl Clone for Statement {
    fn clone(&self) -> (res: Self)
        ensures
            same_statement(*self, res),
        decreases *self,
    {
        match self {
            Statement::Block(items) => Statement::Block(clone_statements(items)),
            Statement::Let { param, expr } => Statement::Let {
                param: param.clone(),
                expr: clone_located_expression(expr),
            },
            Statement::Assign { op, path, expr } => Statement::Assign {
                op: *op,
                path: clone_path(path),
                expr: clone_located_expression(expr),
            },
            Statement::Call { path, args } => Statement::Call {
                path: clone_path(path),
                args: clone_expressions(args),
            },
            Statement::If { cond, case, else_case } => Statement::If {
                cond: clone_located_expression(cond),
                case: clone_boxed_statement(case),
                else_case: match else_case {
                    Some(other) => Some(clone_boxed_statement(other)),
                    None => None,
                },
            },
            Statement::IfSome { param, expr, case, else_case } => Statement::IfSome {
                param: param.clone(),
                expr: clone_located_expression(expr),
                case: clone_boxed_statement(case),
                else_case: match else_case {
                    Some(other) => Some(clone_boxed_statement(other)),
                    None => None,
                },
            },
            Statement::While { cond, body } => Statement::While {
                cond: clone_located_expression(cond),
                body: clone_boxed_statement(body),
            },
            Statement::WhileSome { param, expr, body } => Statement::WhileSome {
                param: param.clone(),
                expr: clone_located_expression(expr),
                body: clone_boxed_statement(body),
            },
            Statement::For { param, iter, body } => Statement::For {
                param: param.clone(),
                iter: clone_located_expression(iter),
                body: clone_boxed_statement(body),
            },
            Statement::Break => Statement::Break,
            Statement::Continue => Statement::Continue,
            Statement::Return(expr) => Statement::Return(clone_located_expression(expr)),
        }
    }
}

fn clone_boxed_statement(node: &Box<Located<Statement>>) -> (res: Box<Located<Statement>>)
    ensures
        same_located_statement(**node, *res),
    decreases *node,
{
    Box::new(Located { value: node.value.clone(), loc: copy_span(&node.loc) })
}

fn clone_statements(items: &Vec<Located<Statement>>) -> (res: Vec<Located<Statement>>)
    ensures
        same_statements(items@, res@),
    decreases *items,
{
    let mut res: Vec<Located<Statement>> = Vec::new();
    let mut i: usize = 0;
    while i < items.len()
        invariant
            i <= items.len(),
            res.len() == i,
            forall|j: int| 0 <= j < i ==> same_located_statement(#[trigger] items@[j], res@[j]),
        decreases items.len() - i,
    {
        res.push(Located { value: items[i].value.clone(), loc: copy_span(&items[i].loc) });
        i += 1;
    }
    res
}

fn clone_parameters(items: &Vec<Located<Parameter>>) -> (res: Vec<Located<Parameter>>)
    ensures
        res@ == items@,
{
    let mut res: Vec<Located<Parameter>> = Vec::new();
    let mut i: usize = 0;
    while i < items.len()
        invariant
            i <= items.len(),
            res@ == items@.take(i as int),
        decreases items.len() - i,
    {
        res.push(items[i].clone());
        i += 1;
        assert(res@ =~= items@.take(i as int));
    }
    assert(items@.take(items.len() as int) =~= items@);
    res
}

impl Clone for Body {
    fn clone(&self) -> (res: Self)
        ensures
            same_statements(self.0@, res.0@),
    {
        Body(clone_statements(&self.0))
    }
}

impl Clone for Definition {
    fn clone(&self) -> (res: Self)
        ensures
            same_definition(*self, res),
    {
        match self {
            Definition::Fn { export, name, params, result, body } => Definition::Fn {
                export: *export,
                name: name.clone(),
                params: clone_parameters(params),
                result: match result {
                    Some(typ) => Some(typ.clone()),
                    None => None,
                },
                body: Located {
                    value: Body(clone_statements(&body.value.0)),
                    loc: copy_span(&body.loc),
                },
            },
        }
    }
}

impl Clone for Module {
    fn clone(&self) -> (res: Self)
        ensures
            same_module(*self, res),
    {
        let mut defs: Vec<Located<Definition>> = Vec::new();
        let mut i: usize = 0;
        while i < self.0.len()
            invariant
                i <= self.0.len(),
                defs.len() == i,
                forall|j: int|
                    0 <= j < i ==> same_located_definition(#[trigger] self.0@[j], defs@[j]),
            decreases self.0.len() - i,
        {
            defs.push(Located { value: self.0[i].value.clone(), loc: copy_span(&self.0[i].loc) });
            i += 1;
        }
        Module(defs)
    }
}

/// The expression that reads the location a path denotes.
pub open spec fn path_expression(path: Located<Path>) -> Located<Expression>
    decreases path,
{
    match path.value {
        Path::Ident(name) => Located { value: Expression::Atom(Atom::Ident(name)), loc: path.loc },
        Path::Field { head, field } => Located {
            value: Expression::Field { head: Box::new(path_expression(*head)), field },
            loc: path.loc,
        },
        Path::Index { head, index } => Located {
            value: Expression::Index { head: Box::new(path_expression(*head)), index },
            loc: path.loc,
        },
    }
}

/// Builds the expression that reads the location `path` denotes: the same
/// tree as [`path_expression`] gives, with a copy of each index expression.
pub fn expression_of(path: &Located<Path>) -> (expr: Located<Expression>)
    ensures
        same_located_expression(path_expression(*path), expr),
    decreases path,
{
    proof {
        reveal_with_fuel(same_located_expression, 2);
        reveal_with_fuel(same_expression, 2);
        reveal_with_fuel(same_atom, 2);
    }
    let value = match &path.value {
        Path::Ident(name) => Expression::Atom(Atom::Ident(name.clone())),
        Path::Field { head, field } => Expression::Field {
            head: Box::new(expression_of(head)),
            field: field.clone(),
        },
        Path::Index { head, index } => Expression::Index {
            head: Box::new(expression_of(head)),
            index: clone_boxed_expression(index),
        },
    };
    Located { value, loc: copy_span(&path.loc) }
}

} // verus!