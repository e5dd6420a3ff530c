//! The lowering rules: what each syntax node compiles to.
//!
//! An expression compiles to code that leaves its value on the stack; the code
//! depends on the scope table alone. A path compiles to code that computes an
//! address, and a descriptor of where the value is kept. A statement changes
//! the frame: it emits code, and it may register locals and bind names.
//!
//! The first failure ends the compilation of the function: the frame is
//! consumed, and no partial instruction sequence remains to be seen.

use crate::ast::{
    copy_span, AssignOperator, Atom, BinaryOperator, Expression, Located, Parameter, Path,
    Statement, UnaryOperator,
};
use crate::compiler::{CompilerError, FrameView, FunctionFrame};
use crate::instr::{Instr, Label, ValueDescriptor};
use crate::scope::{BindingKind, Register, ScopeTableView};
use std::ops::Range;
use vstd::prelude::*;

verus! {

/// An error with the source range of the node that caused it.
pub type Failure = Located<CompilerError>;

pub open spec fn failure(error: CompilerError, loc: Range<usize>) -> Failure {
    Located { value: error, loc }
}

/// The code `prefix` followed by the code `rest`, where there is one.
pub open spec fn after(prefix: Seq<Instr>, rest: Result<Seq<Instr>, Failure>) -> Result<
    Seq<Instr>,
    Failure,
> {
    match rest {
        Ok(code) => Ok(prefix + code),
        Err(error) => Err(error),
    }
}

/// The frame `frame` with the code `code` appended, where there is one.
pub open spec fn emitted(frame: FrameView, code: Result<Seq<Instr>, Failure>) -> Result<
    FrameView,
    Failure,
> {
    match code {
        Ok(code) => Ok(frame.emit_all(code)),
        Err(error) => Err(error),
    }
}

/// The frame with its innermost scope closed, where there is a frame.
pub open spec fn closed(frame: Result<FrameView, Failure>) -> Result<FrameView, Failure> {
    match frame {
        Ok(frame) => Ok(frame.exit_scope()),
        Err(error) => Err(error),
    }
}

/// Where the value of a bound name is kept.
pub open spec fn place_of(kind: BindingKind) -> ValueDescriptor {
    match kind {
        BindingKind::Parameter(slot) => ValueDescriptor::Slot(slot),
        BindingKind::Local(slot) => ValueDescriptor::Slot(slot),
        BindingKind::Function(name) => ValueDescriptor::Global(name),
    }
}

/// Where the value of the name `name`, used at `loc`, is kept.
pub open spec fn identifier_place(table: ScopeTableView, name: String, loc: Range<usize>) -> Result<
    ValueDescriptor,
    Failure,
> {
    match table.resolve(name@) {
        Some(kind) => Ok(place_of(kind)),
        None => Err(failure(CompilerError::NotFound(name), loc)),
    }
}

/// The top-level function that `name` denotes, if it denotes one.
pub open spec fn direct_callee(table: ScopeTableView, name: String) -> Option<String> {
    match table.resolve(name@) {
        Some(BindingKind::Function(function)) => Some(function),
        _ => None,
    }
}

/// The code that leaves the value of `expr` on the stack.
pub open spec fn expression_code(table: ScopeTableView, expr: Located<Expression>) -> Result<
    Seq<Instr>,
    Failure,
>
    decreases expr,
{
    match expr.value {
        Expression::Atom(atom) => atom_code(table, atom, expr.loc),
        Expression::Binary { op, left, right } => match expression_code(table, *left) {
            Err(error) => Err(error),
            Ok(first) => match expression_code(table, *right) {
                Err(error) => Err(error),
                Ok(second) => Ok(
                    if op == BinaryOperator::Then {
                        first + seq![Instr::Drop] + second
                    } else {
                        first + second + seq![Instr::Binary(op)]
                    },
                ),
            },
        },
        Expression::Unary { op, right } => match expression_code(table, *right) {
            Err(error) => Err(error),
            Ok(operand) => Ok(operand + seq![Instr::Unary(op)]),
        },
        Expression::Call { head, args } => {
            let direct = match head.value {
                Expression::Atom(Atom::Ident(name)) => direct_callee(table, name),
                _ => None,
            };
            match direct {
                Some(function) => match expressions_code(table, args@, 0) {
                    Err(error) => Err(error),
                    Ok(arguments) => Ok(arguments + seq![Instr::Call(function)]),
                },
                None => match expression_code(table, *head) {
                    Err(error) => Err(error),
                    Ok(callee) => match expressions_code(table, args@, 0) {
                        Err(error) => Err(error),
                        Ok(arguments) => Ok(
                            callee + arguments + seq![Instr::CallIndirect(args.len())],
                        ),
                    },
                },
            }
        },
        Expression::Field { head, field } => match expression_code(table, *head) {
            Err(error) => Err(error),
            Ok(object) => Ok(object + seq![Instr::FieldGet(field.value)]),
        },
        Expression::Index { head, index } => match expression_code(table, *head) {
            Err(error) => Err(error),
            Ok(container) => match expression_code(table, *index) {
                Err(error) => Err(error),
                Ok(position) => Ok(container + position + seq![Instr::IndexGet]),
            },
        },
    }
}

/// The code that leaves the value of the atom `atom`, read at `loc`, on the
/// stack.
pub open spec fn atom_code(table: ScopeTableView, atom: Atom, loc: Range<usize>) -> Result<
    Seq<Instr>,
    Failure,
>
    decreases atom,
{
    match atom {
        Atom::Null => Ok(seq![Instr::Null]),
        Atom::Ident(name) => match identifier_place(table, name, loc) {
            Err(error) => Err(error),
            Ok(place) => Ok(seq![place.load_spec()]),
        },
        Atom::Int(value) => Ok(seq![Instr::Int(value)]),
        Atom::Float(bits) => Ok(seq![Instr::Float(bits)]),
        Atom::Bool(value) => Ok(seq![Instr::Bool(value)]),
        Atom::Char(value) => Ok(seq![Instr::Char(value)]),
        Atom::String(value) => Ok(seq![Instr::Text(value)]),
        Atom::Expression(inner) => expression_code(table, *inner),
        Atom::Tuple(items) => match expressions_code(table, items@, 0) {
            Err(error) => Err(error),
            Ok(elements) => Ok(elements + seq![Instr::Tuple(items.len())]),
        },
        Atom::Vector(items) => match expressions_code(table, items@, 0) {
            Err(error) => Err(error),
            Ok(elements) => Ok(elements + seq![Instr::Vector(items.len())]),
        },
        Atom::Object(fields) => match fields_code(table, fields@, 0) {
            Err(error) => Err(error),
            Ok(pairs) => Ok(pairs + seq![Instr::Object(fields.len())]),
        },
    }
}

/// The code of the expressions from index `from` on, left to right.
pub open spec fn expressions_code(
    table: ScopeTableView,
    items: Seq<Located<Expression>>,
    from: nat,
) -> Result<Seq<Instr>, Failure>
    decreases items, items.len() - from,
{
    if from >= items.len() {
        Ok(Seq::empty())
    } else {
        match expression_code(table, items[from as int]) {
            Err(error) => Err(error),
            Ok(first) => after(first, expressions_code(table, items, from + 1)),
        }
    }
}

/// The code of the fields of an object from index `from` on: for each, in
/// order, its name as a string and then its value.
pub open spec fn fields_code(
    table: ScopeTableView,
    fields: Seq<(Located<String>, Located<Expression>)>,
    from: nat,
) -> Result<Seq<Instr>, Failure>
    decreases fields, fields.len() - from,
{
    if from >= fields.len() {
        Ok(Seq::empty())
    } else {
        match expression_code(table, fields[from as int].1) {
            Err(error) => Err(error),
            Ok(value) => after(
                seq![Instr::Text(fields[from as int].0.value)] + value,
                fields_code(table, fields, from + 1),
            ),
        }
    }
}

/// The code that computes the address of the location `path` denotes, and
/// where the value is then kept.
pub open spec fn path_address(table: ScopeTableView, path: Located<Path>) -> Result<
    (Seq<Instr>, ValueDescriptor),
    Failure,
>
    decreases path, 0nat,
{
    match path.value {
        Path::Ident(name) => match identifier_place(table, name, path.loc) {
            Err(error) => Err(error),
            Ok(place) => Ok((Seq::empty(), place)),
        },
        Path::Field { head, field } => match path_value(table, *head) {
            Err(error) => Err(error),
            Ok(object) => Ok((object, ValueDescriptor::Field(field.value))),
        },
        Path::Index { head, index } => match path_value(table, *head) {
            Err(error) => Err(error),
            Ok(container) => match expression_code(table, *index) {
                Err(error) => Err(error),
                Ok(position) => Ok((container + position, ValueDescriptor::Element)),
            },
        },
    }
}

/// The code that leaves the value kept at `path` on the stack.
pub open spec fn path_value(table: ScopeTableView, path: Located<Path>) -> Result<
    Seq<Instr>,
    Failure,
>
    decreases path, 1nat,
{
    match path_address(table, path) {
        Err(error) => Err(error),
        Ok((address, place)) => Ok(address + seq![place.load_spec()]),
    }
}

/// The code of an assignment. A plain one computes the address, then the
/// value, and stores. A compound one computes the address, reads the location
/// through a second computation of the address, computes the value, applies
/// the operator and stores.
pub open spec fn assign_code(
    table: ScopeTableView,
    op: AssignOperator,
    path: Located<Path>,
    expr: Located<Expression>,
) -> Result<Seq<Instr>, Failure> {
    match path_address(table, path) {
        Err(error) => Err(error),
        Ok((address, place)) => match expression_code(table, expr) {
            Err(error) => Err(error),
            Ok(value) => match op.binary_spec() {
                None => Ok(address + value + seq![place.store_spec()]),
                Some(operator) => Ok(
                    address + (address + seq![place.load_spec()]) + value + seq![
                        Instr::Binary(operator),
                        place.store_spec(),
                    ],
                ),
            },
        },
    }
}

/// The code of a call in statement position. A callee that names a top-level
/// function is called directly, and what it returns is dropped where it
/// declares a result. Any other callee is read as a value and called through
/// it; such a call always leaves a value, which is dropped.
pub open spec fn call_code(
    table: ScopeTableView,
    path: Located<Path>,
    args: Seq<Located<Expression>>,
) -> Result<Seq<Instr>, Failure> {
    let direct = match path.value {
        Path::Ident(name) => direct_callee(table, name),
        _ => None,
    };
    match direct {
        Some(function) => match expressions_code(table, args, 0) {
            Err(error) => Err(error),
            Ok(arguments) => Ok(
                arguments + seq![Instr::Call(function)] + if table.has_result(function@) {
                    seq![Instr::Drop]
                } else {
                    Seq::empty()
                },
            ),
        },
        None => match path_value(table, path) {
            Err(error) => Err(error),
            Ok(callee) => match expressions_code(table, args, 0) {
                Err(error) => Err(error),
                Ok(arguments) => Ok(
                    callee + arguments + seq![
                        Instr::CallIndirect(args.len() as usize),
                        Instr::Drop,
                    ],
                ),
            },
        },
    }
}

/// The frame with a fresh local for the binder `param`, and the local's slot.
pub open spec fn binder(frame: FrameView, param: Located<Parameter>) -> Result<
    (FrameView, Register),
    Failure,
> {
    match frame.fresh_local(param.value.name.value, param.value.typ.value) {
        Some(registered) => Ok(registered),
        None => Err(failure(CompilerError::TooManyLocals, param.loc)),
    }
}

/// Moves the optional value on top of the stack into `slot` and leaves on the
/// stack whether a value is present.
pub open spec fn presence_test(slot: Register) -> Seq<Instr> {
    seq![Instr::LocalSet(slot), Instr::LocalGet(slot), Instr::IsSome]
}

/// Replaces the optional value in `slot`, which is present, by the value.
pub open spec fn unwrapping(slot: Register) -> Seq<Instr> {
    seq![Instr::LocalGet(slot), Instr::Unwrap, Instr::LocalSet(slot)]
}

/// Opens a loop: a block to leave it by, and inside it the loop itself.
pub open spec fn loop_open(labels: (Label, Label)) -> Seq<Instr> {
    seq![Instr::Block(labels.0), Instr::Loop(labels.1)]
}

/// Leaves the loop unless the condition on top of the stack holds.
pub open spec fn loop_test(labels: (Label, Label)) -> Seq<Instr> {
    seq![Instr::Unary(UnaryOperator::Not), Instr::BrIf(labels.0)]
}

/// Repeats the loop, and closes it and the block around it.
pub open spec fn loop_close(labels: (Label, Label)) -> Seq<Instr> {
    seq![Instr::Br(labels.1), Instr::End, Instr::End]
}

/// The frame after the statement `stmt`.
pub open spec fn lower_statement_spec(frame: FrameView, stmt: Located<Statement>) -> Result<
    FrameView,
    Failure,
>
    decreases stmt, 0nat,
{
    match stmt.value {
        Statement::Block(items) => closed(lower_statements_spec(frame.enter_scope(), items@, 0)),
        Statement::Let { param, expr } => match emitted(
            frame,
            expression_code(frame.scopes, expr),
        ) {
            Err(error) => Err(error),
            Ok(valued) => match binder(valued, param) {
                Err(error) => Err(error),
                Ok((registered, slot)) => Ok(
                    registered.emit(Instr::LocalSet(slot)).bind(
                        param.value.name.value,
                        BindingKind::Local(slot),
                    ),
                ),
            },
        },
        Statement::Assign { op, path, expr } => emitted(
            frame,
            assign_code(frame.scopes, op, path, expr),
        ),
        Statement::Call { path, args } => emitted(frame, call_code(frame.scopes, path, args@)),
        Statement::If { cond, case, else_case } => match emitted(
            frame,
            expression_code(frame.scopes, cond),
        ) {
            Err(error) => Err(error),
            Ok(tested) => match lower_branch_spec(tested.emit(Instr::If), None, *case) {
                Err(error) => Err(error),
                Ok(taken) => lower_else_spec(taken, else_case),
            },
        },
        Statement::IfSome { param, expr, case, else_case } => match emitted(
            frame,
            expression_code(frame.scopes, expr),
        ) {
            Err(error) => Err(error),
            Ok(valued) => match binder(valued, param) {
                Err(error) => Err(error),
                Ok((registered, slot)) => match lower_branch_spec(
                    registered.emit_all(presence_test(slot)).emit(Instr::If).emit_all(
                        unwrapping(slot),
                    ),
                    Some((param.value.name.value, slot)),
                    *case,
                ) {
                    Err(error) => Err(error),
                    Ok(taken) => lower_else_spec(taken, else_case),
                },
            },
        },
        Statement::While { cond, body } => match emitted(
            frame.emit_all(loop_open(frame.loop_labels())),
            expression_code(frame.scopes, cond),
        ) {
            Err(error) => Err(error),
            Ok(tested) => lower_loop_body_spec(
                tested.emit_all(loop_test(frame.loop_labels())),
                None,
                *body,
            ),
        },
        Statement::WhileSome { param, expr, body } => match emitted(
            frame.emit_all(loop_open(frame.loop_labels())),
            expression_code(frame.scopes, expr),
        ) {
            Err(error) => Err(error),
            Ok(valued) => match binder(valued, param) {
                Err(error) => Err(error),
                Ok((registered, slot)) => lower_loop_body_spec(
                    registered.emit_all(presence_test(slot)).emit_all(
                        loop_test(frame.loop_labels()),
                    ).emit_all(unwrapping(slot)),
                    Some((param.value.name.value, slot)),
                    *body,
                ),
            },
        },
        Statement::For { param, iter, body } => match emitted(
            frame,
            expression_code(frame.scopes, iter),
        ) {
            Err(error) => Err(error),
            Ok(valued) => match binder(valued.emit(Instr::Iter), param) {
                Err(error) => Err(error),
                Ok((with_cursor, cursor)) => match binder(
                    with_cursor.emit(Instr::LocalSet(cursor)),
                    param,
                ) {
                    Err(error) => Err(error),
                    Ok((registered, slot)) => lower_loop_body_spec(
                        registered.emit_all(loop_open(frame.loop_labels())).emit(
                            Instr::LocalGet(cursor),
                        ).emit(Instr::Next).emit_all(presence_test(slot)).emit_all(
                            loop_test(frame.loop_labels()),
                        ).emit_all(unwrapping(slot)),
                        Some((param.value.name.value, slot)),
                        *body,
                    ),
                },
            },
        },
        Statement::Break => if frame.labels.len() == 0 {
            Err(failure(CompilerError::BreakOutsideLoop, stmt.loc))
        } else {
            Ok(frame.emit(Instr::Br(frame.labels.last().0)))
        },
        Statement::Continue => if frame.labels.len() == 0 {
            Err(failure(CompilerError::ContinueOutsideLoop, stmt.loc))
        } else {
            Ok(frame.emit(Instr::Br(frame.labels.last().1)))
        },
        Statement::Return(expr) => match emitted(frame, expression_code(frame.scopes, expr)) {
            Err(error) => Err(error),
            Ok(valued) => Ok(valued.emit(Instr::Return)),
        },
    }
}

/// The frame after the statements from index `from` on, in order.
pub open spec fn lower_statements_spec(
    frame: FrameView,
    items: Seq<Located<Statement>>,
    from: nat,
) -> Result<FrameView, Failure>
    decreases items, items.len() - from,
{
    if from >= items.len() {
        Ok(frame)
    } else {
        match lower_statement_spec(frame, items[from as int]) {
            Err(error) => Err(error),
            Ok(next) => lower_statements_spec(next, items, from + 1),
        }
    }
}

/// The frame after `stmt` as a branch or a loop body: in a scope of its own,
/// in which `bound`, where given, names the local in the slot beside it.
pub open spec fn lower_branch_spec(
    frame: FrameView,
    bound: Option<(String, Register)>,
    stmt: Located<Statement>,
) -> Result<FrameView, Failure>
    decreases stmt, 1nat,
{
    closed(
        lower_statement_spec(
            match bound {
                Some((name, slot)) => frame.enter_scope().bind(name, BindingKind::Local(slot)),
                None => frame.enter_scope(),
            },
            stmt,
        ),
    )
}

/// The frame after the rest of a conditional whose first branch has been
/// lowered: the other branch, where there is one, and the end.
pub open spec fn lower_else_spec(
    frame: FrameView,
    else_case: Option<Box<Located<Statement>>>,
) -> Result<FrameView, Failure>
    decreases else_case, 2nat,
{
    match else_case {
        None => Ok(frame.emit(Instr::End)),
        Some(other) => match lower_branch_spec(frame.emit(Instr::Else), None, *other) {
            Err(error) => Err(error),
            Ok(done) => Ok(done.emit(Instr::End)),
        },
    }
}

/// The frame after the body of a loop whose head has been lowered: the body
/// with the loop's labels innermost, the branch that repeats the loop, and
/// the end of the loop and of the block around it.
pub open spec fn lower_loop_body_spec(
    frame: FrameView,
    bound: Option<(String, Register)>,
    body: Located<Statement>,
) -> Result<FrameView, Failure>
    decreases body, 2nat,
{
    match lower_branch_spec(frame.enter_loop(), bound, body) {
        Err(error) => Err(error),
        Ok(done) => Ok(done.exit_loop().emit_all(loop_close(frame.loop_labels()))),
    }
}

/// Whether the outcome of a lowering is the expected one: the frame whose
/// state is `expected`, or the expected failure.
pub open spec fn agrees(lowered: Result<FunctionFrame, Failure>, expected: Result<
    FrameView,
    Failure,
>) -> bool {
    match expected {
        Ok(frame) => lowered is Ok && lowered->Ok_0@ == frame,
        Err(error) => lowered is Err && lowered->Err_0 == error,
    }
}

/// Appending code and then more code appends the two in sequence.
pub proof fn lemma_emitted_after(frame: FrameView, code: Seq<Instr>, rest: Result<
    Seq<Instr>,
    Failure,
>)
    ensures
        emitted(frame.emit_all(code), rest) == emitted(frame, after(code, rest)),
{
    match rest {
        Ok(more) => {
            assert(frame.emit_all(code).emit_all(more) =~= frame.emit_all(code + more));
        },
        Err(_) => {},
    }
}

impl FunctionFrame {
    /// Where the value of the name `name`, used at `loc`, is kept.
    pub fn place_of(&self, name: &String, loc: &Range<usize>) -> (place: Result<
        ValueDescriptor,
        Failure,
    >)
        ensures
            place == identifier_place(self@.scopes, *name, *loc),
    {
        match self.scopes.resolve(name) {
            Ok(BindingKind::Parameter(slot)) => Ok(ValueDescriptor::Slot(slot)),
            Ok(BindingKind::Local(slot)) => Ok(ValueDescriptor::Slot(slot)),
            Ok(BindingKind::Function(function)) => Ok(ValueDescriptor::Global(function)),
            Err(error) => Err(Located::new(error, copy_span(loc))),
        }
    }

    /// The top-level function that `name` denotes, if it denotes one.
    pub fn direct_callee(&self, name: &String) -> (callee: Option<String>)
        ensures
            callee == direct_callee(self@.scopes, *name),
    {
        match self.scopes.resolve(name) {
            Ok(BindingKind::Function(function)) => Some(function),
            _ => None,
        }
    }

    /// Emits the code that leaves the value of `expr` on the stack. Fails
    /// with `NotFound` at the first name, in evaluation order, that nothing
    /// binds.
    pub fn lower_expression(self, expr: &Located<Expression>) -> (lowered: Result<Self, Failure>)
        ensures
            agrees(lowered, emitted(self@, expression_code(self@.scopes, *expr))),
        decreases expr,
    {
        let ghost start = self@;
        match &expr.value {
            Expression::Atom(atom) => self.lower_atom(atom, &expr.loc),
            Expression::Binary { op, left, right } => {
                let mut frame = self.lower_expression(left)?;
                let ghost first = expression_code(start.scopes, **left)->Ok_0;
                match op {
                    BinaryOperator::Then => {
                        frame.emit(Instr::Drop);
                    },
                    _ => {},
                }
                let mut frame = frame.lower_expression(right)?;
                let ghost second = expression_code(start.scopes, **right)->Ok_0;
                match op {
                    BinaryOperator::Then => {
                        assert(frame@ =~= start.emit_all(first + seq![Instr::Drop] + second));
                    },
                    _ => {
                        frame.emit(Instr::Binary(*op));
                        assert(frame@ =~= start.emit_all(
                            first + second + seq![Instr::Binary(*op)],
                        ));
                    },
                }
                Ok(frame)
            },
            Expression::Unary { op, right } => {
                let mut frame = self.lower_expression(right)?;
                frame.emit(Instr::Unary(*op));
                assert(frame@ =~= start.emit_all(
                    expression_code(start.scopes, **right)->Ok_0 + seq![Instr::Unary(*op)],
                ));
                Ok(frame)
            },
            Expression::Call { head, args } => {
                let direct = match &head.value {
                    Expression::Atom(Atom::Ident(name)) => self.direct_callee(name),
                    _ => None,
                };
                match direct {
                    Some(function) => {
                        let mut frame = self.lower_expressions(args)?;
                        frame.emit(Instr::Call(function));
                        assert(frame@ =~= start.emit_all(
                            expressions_code(start.scopes, args@, 0)->Ok_0 + seq![
                                Instr::Call(function),
                            ],
                        ));
                        Ok(frame)
                    },
                    None => {
                        let frame = self.lower_expression(head)?;
                        let mut frame = frame.lower_expressions(args)?;
                        frame.emit(Instr::CallIndirect(args.len()));
                        assert(frame@ =~= start.emit_all(
                            expression_code(start.scopes, **head)->Ok_0 + expressions_code(
                                start.scopes,
                                args@,
                                0,
                            )->Ok_0 + seq![Instr::CallIndirect(args.len())],
                        ));
                        Ok(frame)
                    },
                }
            },
            Expression::Field { head, field } => {
                let mut frame = self.lower_expression(head)?;
                frame.emit(Instr::FieldGet(field.value.clone()));
                assert(frame@ =~= start.emit_all(
                    expression_code(start.scopes, **head)->Ok_0 + seq![
                        Instr::FieldGet(field.value),
                    ],
                ));
                Ok(frame)
            },
            Expression::Index { head, index } => {
                let frame = self.lower_expression(head)?;
                let mut frame = frame.lower_expression(index)?;
                frame.emit(Instr::IndexGet);
                assert(frame@ =~= start.emit_all(
                    expression_code(start.scopes, **head)->Ok_0 + expression_code(
                        start.scopes,
                        **index,
                    )->Ok_0 + seq![Instr::IndexGet],
                ));
                Ok(frame)
            },
        }
    }

    /// Emits the code that leaves the value of `atom`, read at `loc`, on the
    /// stack.
    pub fn lower_atom(self, atom: &Atom, loc: &Range<usize>) -> (lowered: Result<Self, Failure>)
        ensures
            agrees(lowered, emitted(self@, atom_code(self@.scopes, *atom, *loc))),
        decreases atom,
    {
        let ghost start = self@;
        let mut frame = self;
        match atom {
            Atom::Null => {
                frame.emit(Instr::Null);
                assert(frame@ =~= start.emit_all(seq![Instr::Null]));
                Ok(frame)
            },
            Atom::Ident(name) => {
                let place = frame.place_of(name, loc)?;
                frame.emit(place.load());
                assert(frame@ =~= start.emit_all(seq![place.load_spec()]));
                Ok(frame)
            },
            Atom::Int(value) => {
                frame.emit(Instr::Int(*value));
                assert(frame@ =~= start.emit_all(seq![Instr::Int(*value)]));
                Ok(frame)
            },
            Atom::Float(bits) => {
                frame.emit(Instr::Float(*bits));
                assert(frame@ =~= start.emit_all(seq![Instr::Float(*bits)]));
                Ok(frame)
            },
            Atom::Bool(value) => {
                frame.emit(Instr::Bool(*value));
                assert(frame@ =~= start.emit_all(seq![Instr::Bool(*value)]));
                Ok(frame)
            },
            Atom::Char(value) => {
                frame.emit(Instr::Char(*value));
                assert(frame@ =~= start.emit_all(seq![Instr::Char(*value)]));
                Ok(frame)
            },
            Atom::String(value) => {
                frame.emit(Instr::Text(value.clone()));
                assert(frame@ =~= start.emit_all(seq![Instr::Text(*value)]));
                Ok(frame)
            },
            Atom::Expression(inner) => frame.lower_expression(inner),
            Atom::Tuple(items) => {
                let mut frame = frame.lower_expressions(items)?;
                frame.emit(Instr::Tuple(items.len()));
                assert(frame@ =~= start.emit_all(
                    expressions_code(start.scopes, items@, 0)->Ok_0 + seq![
                        Instr::Tuple(items.len()),
                    ],
                ));
                Ok(frame)
            },
            Atom::Vector(items) => {
                let mut frame = frame.lower_expressions(items)?;
                frame.emit(Instr::Vector(items.len()));
                assert(frame@ =~= start.emit_all(
                    expressions_code(start.scopes, items@, 0)->Ok_0 + seq![
                        Instr::Vector(items.len()),
                    ],
                ));
                Ok(frame)
            },
            Atom::Object(fields) => {
                let mut frame = frame.lower_fields(fields)?;
                frame.emit(Instr::Object(fields.len()));
                assert(frame@ =~= start.emit_all(
                    fields_code(start.scopes, fields@, 0)->Ok_0 + seq![
                        Instr::Object(fields.len()),
                    ],
                ));
                Ok(frame)
            },
        }
    }

    /// Emits the code of the expressions `items`, left to right.
    pub fn lower_expressions(self, items: &Vec<Located<Expression>>) -> (lowered: Result<
        Self,
        Failure,
    >)
        ensures
            agrees(lowered, emitted(self@, expressions_code(self@.scopes, items@, 0))),
        decreases items,
    {
        let ghost start = self@;
        let mut frame = self;
        let mut i: usize = 0;
        while i < items.len()
            invariant
                i <= items.len(),
                start == self@,
                frame@.scopes == start.scopes,
                emitted(frame@, expressions_code(start.scopes, items@, i as nat)) == emitted(
                    start,
                    expressions_code(start.scopes, items@, 0),
                ),
            decreases items.len() - i,
        {
            let ghost before = frame@;
            frame = frame.lower_expression(&items[i])?;
            proof {
                lemma_emitted_after(
                    before,
                    expression_code(start.scopes, items@[i as int])->Ok_0,
                    expressions_code(start.scopes, items@, (i + 1) as nat),
                );
            }
            i += 1;
        }
        assert(frame@ =~= frame@.emit_all(Seq::empty()));
        Ok(frame)
    }

    /// Emits the code of the fields of an object: for each, in order, its
    /// name as a string and then its value.
    pub fn lower_fields(self, fields: &Vec<(Located<String>, Located<Expression>)>) -> (lowered:
        Result<Self, Failure>)
        ensures
            agrees(lowered, emitted(self@, fields_code(self@.scopes, fields@, 0))),
        decreases fields,
    {
        let ghost start = self@;
        let mut frame = self;
        let mut i: usize = 0;
        while i < fields.len()
            invariant
                i <= fields.len(),
                start == self@,
                frame@.scopes == start.scopes,
                emitted(frame@, fields_code(start.scopes, fields@, i as nat)) == emitted(
                    start,
                    fields_code(start.scopes, fields@, 0),
                ),
            decreases fields.len() - i,
        {
            let ghost before = frame@;
            let ghost value = expression_code(start.scopes, fields@[i as int].1);
            frame.emit(Instr::Text(fields[i].0.value.clone()));
            frame = frame.lower_expression(&fields[i].1)?;
            proof {
                let name = seq![Instr::Text(fields@[i as int].0.value)];
                assert(frame@ =~= before.emit_all(name + value->Ok_0));
                lemma_emitted_after(
                    before,
                    name + value->Ok_0,
                    fields_code(start.scopes, fields@, (i + 1) as nat),
                );
            }
            i += 1;
        }
        assert(frame@ =~= frame@.emit_all(Seq::empty()));
        Ok(frame)
    }
}

/// Whether the outcome of lowering a path is the expected one: the frame
/// `start` with the address code appended, beside the expected descriptor, or
/// the expected failure.
pub open spec fn addressed(
    lowered: Result<(FunctionFrame, ValueDescriptor), Failure>,
    start: FrameView,
    expected: Result<(Seq<Instr>, ValueDescriptor), Failure>,
) -> bool {
    match expected {
        Ok((address, place)) => lowered is Ok && lowered->Ok_0.0@ == start.emit_all(address)
            && lowered->Ok_0.1 == place,
        Err(error) => lowered is Err && lowered->Err_0 == error,
    }
}

impl FunctionFrame {
    /// Emits the code that computes the address of the location `path`
    /// denotes, and returns where the value is then kept. Fails with
    /// `NotFound` at the first name that nothing binds.
    pub fn lower_path(self, path: &Located<Path>) -> (lowered: Result<
        (Self, ValueDescriptor),
        Failure,
    >)
        ensures
            addressed(lowered, self@, path_address(self@.scopes, *path)),
        decreases path, 0nat,
    {
        let ghost start = self@;
        match &path.value {
            Path::Ident(name) => {
                let place = self.place_of(name, &path.loc)?;
                assert(self@ =~= start.emit_all(Seq::empty()));
                Ok((self, place))
            },
            Path::Field { head, field } => {
                let frame = self.lower_path_value(head)?;
                Ok((frame, ValueDescriptor::Field(field.value.clone())))
            },
            Path::Index { head, index } => {
                let frame = self.lower_path_value(head)?;
                let frame = frame.lower_expression(index)?;
                assert(frame@ =~= start.emit_all(
                    path_value(start.scopes, **head)->Ok_0 + expression_code(
                        start.scopes,
                        **index,
                    )->Ok_0,
                ));
                Ok((frame, ValueDescriptor::Element))
            },
        }
    }

    /// Emits the code that leaves the value kept at `path` on the stack.
    pub fn lower_path_value(self, path: &Located<Path>) -> (lowered: Result<Self, Failure>)
        ensures
            agrees(lowered, emitted(self@, path_value(self@.scopes, *path))),
        decreases path, 1nat,
    {
        let ghost start = self@;
        let (mut frame, place) = self.lower_path(path)?;
        frame.emit(place.load());
        assert(frame@ =~= start.emit_all(
            path_address(start.scopes, *path)->Ok_0.0 + seq![place.load_spec()],
        ));
        Ok(frame)
    }

    /// Emits the code of the assignment of `expr` to `path` by `op`.
    pub fn lower_assign(
        self,
        op: AssignOperator,
        path: &Located<Path>,
        expr: &Located<Expression>,
    ) -> (lowered: Result<Self, Failure>)
        ensures
            agrees(lowered, emitted(self@, assign_code(self@.scopes, op, *path, *expr))),
    {
        let ghost start = self@;
        let ghost address = path_address(start.scopes, *path)->Ok_0.0;
        let ghost value = expression_code(start.scopes, *expr)->Ok_0;
        let (frame, place) = self.lower_path(path)?;
        match op.binary() {
            None => {
                let mut frame = frame.lower_expression(expr)?;
                frame.emit(place.store());
                assert(frame@ =~= start.emit_all(address + value + seq![place.store_spec()]));
                Ok(frame)
            },
            Some(operator) => {
                let frame = frame.lower_path_value(path)?;
                let mut frame = frame.lower_expression(expr)?;
                frame.emit(Instr::Binary(operator));
                frame.emit(place.store());
                assert(frame@ =~= start.emit_all(
                    address + (address + seq![place.load_spec()]) + value + seq![
                        Instr::Binary(operator),
                        place.store_spec(),
                    ],
                ));
                Ok(frame)
            },
        }
    }

    /// Emits the code of a call of `path` with `args` in statement position.
    pub fn lower_call(self, path: &Located<Path>, args: &Vec<Located<Expression>>) -> (lowered:
        Result<Self, Failure>)
        ensures
            agrees(lowered, emitted(self@, call_code(self@.scopes, *path, args@))),
    {
        let ghost start = self@;
        let ghost arguments = expressions_code(start.scopes, args@, 0)->Ok_0;
        let direct = match &path.value {
            Path::Ident(name) => self.direct_callee(name),
            _ => None,
        };
        match direct {
            Some(function) => {
                let mut frame = self.lower_expressions(args)?;
                let drops = frame.scopes.has_result(&function);
                frame.emit(Instr::Call(function));
                if drops {
                    frame.emit(Instr::Drop);
                    assert(frame@ =~= start.emit_all(
                        arguments + seq![Instr::Call(function)] + seq![Instr::Drop],
                    ));
                } else {
                    assert(frame@ =~= start.emit_all(
                        arguments + seq![Instr::Call(function)] + Seq::empty(),
                    ));
                }
                Ok(frame)
            },
            None => {
                let frame = self.lower_path_value(path)?;
                let mut frame = frame.lower_expressions(args)?;
                frame.emit(Instr::CallIndirect(args.len()));
                frame.emit(Instr::Drop);
                assert(frame@ =~= start.emit_all(
                    path_value(start.scopes, *path)->Ok_0 + arguments + seq![
                        Instr::CallIndirect(args.len()),
                        Instr::Drop,
                    ],
                ));
                Ok(frame)
            },
        }
    }

    /// Registers a fresh local for the binder `param` and returns its slot.
    /// Fails with `TooManyLocals` at the binder, changing nothing, where
    /// every slot is taken.
    pub fn register(&mut self, param: &Located<Parameter>) -> (slot: Result<Register, Failure>)
        ensures
            match binder(old(self)@, *param) {
                Ok((frame, next)) => final(self)@ == frame && slot == Ok::<Register, Failure>(
                    next,
                ),
                Err(error) => final(self)@ == old(self)@ && slot == Err::<Register, Failure>(
                    error,
                ),
            },
    {
        match self.fresh_local(param.value.name.value.clone(), param.value.typ.value.clone()) {
            Ok(slot) => Ok(slot),
            Err(error) => Err(Located::new(error, copy_span(&param.loc))),
        }
    }

    fn emit_presence_test(&mut self, slot: Register)
        ensures
            final(self)@ == old(self)@.emit_all(presence_test(slot)),
    {
        self.emit(Instr::LocalSet(slot));
        self.emit(Instr::LocalGet(slot));
        self.emit(Instr::IsSome);
        assert(self@ =~= old(self)@.emit_all(presence_test(slot)));
    }

    fn emit_unwrapping(&mut self, slot: Register)
        ensures
            final(self)@ == old(self)@.emit_all(unwrapping(slot)),
    {
        self.emit(Instr::LocalGet(slot));
        self.emit(Instr::Unwrap);
        self.emit(Instr::LocalSet(slot));
        assert(self@ =~= old(self)@.emit_all(unwrapping(slot)));
    }

    fn emit_loop_open(&mut self, labels: (Label, Label))
        ensures
            final(self)@ == old(self)@.emit_all(loop_open(labels)),
    {
        self.emit(Instr::Block(labels.0));
        self.emit(Instr::Loop(labels.1));
        assert(self@ =~= old(self)@.emit_all(loop_open(labels)));
    }

    fn emit_loop_test(&mut self, labels: (Label, Label))
        ensures
            final(self)@ == old(self)@.emit_all(loop_test(labels)),
    {
        self.emit(Instr::Unary(UnaryOperator::Not));
        self.emit(Instr::BrIf(labels.0));
        assert(self@ =~= old(self)@.emit_all(loop_test(labels)));
    }

    fn emit_loop_close(&mut self, labels: (Label, Label))
        ensures
            final(self)@ == old(self)@.emit_all(loop_close(labels)),
    {
        self.emit(Instr::Br(labels.1));
        self.emit(Instr::End);
        self.emit(Instr::End);
        assert(self@ =~= old(self)@.emit_all(loop_close(labels)));
    }

    /// Lowers one statement: emits its code, registers the locals it needs
    /// and binds the names it declares. Scopes and loops that it opens are
    /// closed again when it is done.
    ///
    /// Fails with `NotFound` at a name that nothing binds, with
    /// `BreakOutsideLoop` or `ContinueOutsideLoop` at a `break` or `continue`
    /// with no loop around it, and with `TooManyLocals` at a binder for which
    /// no slot is left: with the first of these in the order of the code.
    pub fn lower_statement(self, stmt: &Located<Statement>) -> (lowered: Result<Self, Failure>)
        ensures
            agrees(lowered, lower_statement_spec(self@, *stmt)),
        decreases stmt, 0nat,
    {
        let ghost start = self@;
        match &stmt.value {
            Statement::Block(items) => {
                let mut frame = self;
                frame.enter_scope();
                let mut frame = frame.lower_statements(items)?;
                frame.exit_scope();
                Ok(frame)
            },
            Statement::Let { param, expr } => {
                let mut frame = self.lower_expression(expr)?;
                let slot = frame.register(param)?;
                frame.emit(Instr::LocalSet(slot));
                frame.bind(param.value.name.value.clone(), BindingKind::Local(slot));
                Ok(frame)
            },
            Statement::Assign { op, path, expr } => self.lower_assign(*op, path, expr),
            Statement::Call { path, args } => self.lower_call(path, args),
            Statement::If { cond, case, else_case } => {
                let mut frame = self.lower_expression(cond)?;
                frame.emit(Instr::If);
                let frame = frame.lower_branch(None, case)?;
                frame.lower_else(else_case)
            },
            Statement::IfSome { param, expr, case, else_case } => {
                let mut frame = self.lower_expression(expr)?;
                let slot = frame.register(param)?;
                frame.emit_presence_test(slot);
                frame.emit(Instr::If);
                frame.emit_unwrapping(slot);
                let bound = Some((param.value.name.value.clone(), slot));
                let frame = frame.lower_branch(bound, case)?;
                frame.lower_else(else_case)
            },
            Statement::While { cond, body } => {
                let mut frame = self;
                let labels = frame.loop_labels();
                frame.emit_loop_open(labels);
                let mut frame = frame.lower_expression(cond)?;
                frame.emit_loop_test(labels);
                frame.lower_loop_body(None, body)
            },
            Statement::WhileSome { param, expr, body } => {
                let mut frame = self;
                let labels = frame.loop_labels();
                frame.emit_loop_open(labels);
                let mut frame = frame.lower_expression(expr)?;
                let slot = frame.register(param)?;
                frame.emit_presence_test(slot);
                frame.emit_loop_test(labels);
                frame.emit_unwrapping(slot);
                let bound = Some((param.value.name.value.clone(), slot));
                frame.lower_loop_body(bound, body)
            },
            Statement::For { param, iter, body } => {
                let mut frame = self.lower_expression(iter)?;
                frame.emit(Instr::Iter);
                let cursor = frame.register(param)?;
                frame.emit(Instr::LocalSet(cursor));
                let slot = frame.register(param)?;
                let labels = frame.loop_labels();
                frame.emit_loop_open(labels);
                frame.emit(Instr::LocalGet(cursor));
                frame.emit(Instr::Next);
                frame.emit_presence_test(slot);
                frame.emit_loop_test(labels);
                frame.emit_unwrapping(slot);
                let bound = Some((param.value.name.value.clone(), slot));
                frame.lower_loop_body(bound, body)
            },
            Statement::Break => {
                let mut frame = self;
                if frame.labels.len() == 0 {
                    return Err(Located::new(CompilerError::BreakOutsideLoop, copy_span(&stmt.loc)));
                }
                let target = frame.labels[frame.labels.len() - 1].0;
                frame.emit(Instr::Br(target));
                Ok(frame)
            },
            Statement::Continue => {
                let mut frame = self;
                if frame.labels.len() == 0 {
                    return Err(
                        Located::new(CompilerError::ContinueOutsideLoop, copy_span(&stmt.loc)),
                    );
                }
                let target = frame.labels[frame.labels.len() - 1].1;
                frame.emit(Instr::Br(target));
                Ok(frame)
            },
            Statement::Return(expr) => {
                let mut frame = self.lower_expression(expr)?;
                frame.emit(Instr::Return);
                Ok(frame)
            },
        }
    }

    /// Lowers the statements `items` in order, in the current scope.
    pub fn lower_statements(self, items: &Vec<Located<Statement>>) -> (lowered: Result<
        Self,
        Failure,
    >)
        ensures
            agrees(lowered, lower_statements_spec(self@, items@, 0)),
        decreases items,
    {
        let ghost start = self@;
        let mut frame = self;
        let mut i: usize = 0;
        while i < items.len()
            invariant
                i <= items.len(),
                start == self@,
                lower_statements_spec(frame@, items@, i as nat) == lower_statements_spec(
                    start,
                    items@,
                    0,
                ),
            decreases items.len() - i,
        {
            frame = frame.lower_statement(&items[i])?;
            i += 1;
        }
        Ok(frame)
    }

    /// Lowers `stmt` as a branch or a loop body: in a scope of its own, in
    /// which `bound`, where given, names the local in the slot beside it.
    pub fn lower_branch(
        self,
        bound: Option<(String, Register)>,
        stmt: &Located<Statement>,
    ) -> (lowered: Result<Self, Failure>)
        ensures
            agrees(lowered, lower_branch_spec(self@, bound, *stmt)),
        decreases stmt, 1nat,
    {
        let mut frame = self;
        frame.enter_scope();
        match bound {
            Some((name, slot)) => {
                frame.bind(name, BindingKind::Local(slot));
            },
            None => {},
        }
        let mut frame = frame.lower_statement(stmt)?;
        frame.exit_scope();
        Ok(frame)
    }

    /// Lowers the rest of a conditional whose first branch has been lowered:
    /// the other branch, where there is one, and the end.
    pub fn lower_else(self, else_case: &Option<Box<Located<Statement>>>) -> (lowered: Result<
        Self,
        Failure,
    >)
        ensures
            agrees(lowered, lower_else_spec(self@, *else_case)),
        decreases else_case, 2nat,
    {
        let mut frame = self;
        match else_case {
            None => {
                frame.emit(Instr::End);
                Ok(frame)
            },
            Some(other) => {
                frame.emit(Instr::Else);
                let mut frame = frame.lower_branch(None, other)?;
                frame.emit(Instr::End);
                Ok(frame)
            },
        }
    }

    /// Lowers the body of a loop whose head has been lowered: the body with
    /// the loop's labels innermost, the branch that repeats the loop, and the
    /// end of the loop and of the block around it.
    pub fn lower_loop_body(
        self,
        bound: Option<(String, Register)>,
        body: &Located<Statement>,
    ) -> (lowered: Result<Self, Failure>)
        ensures
            agrees(lowered, lower_loop_body_spec(self@, bound, *body)),
        decreases body, 2nat,
    {
        let mut frame = self;
        let labels = frame.enter_loop();
        let mut frame = frame.lower_branch(bound, body)?;
        frame.exit_loop();
        frame.emit_loop_close(labels);
        Ok(frame)
    }
}

} // verus!
