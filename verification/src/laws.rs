//! What holds of the scope table and of the lowering rules, whatever the
//! program.

use crate::ast::{
    path_expression, same_located_expression, AssignOperator, Atom, BinaryOperator, Definition,
    Expression, Located, Module, Parameter, Path, Statement,
};
use crate::compiler::{
    add_parameters_spec, compile_function_spec, initial_frame, Compiler, CompilerError, FrameView,
    WATCompilable, SLOT_LIMIT,
};
use crate::copies::lemma_same_expression_code;
use crate::instr::{Instr, ValueDescriptor};
use crate::lower::{
    assign_code, atom_code, binder, call_code, emitted, expression_code, failure,
    identifier_place, loop_close, loop_open, loop_test, lower_branch_spec, lower_else_spec,
    lower_loop_body_spec, lower_statement_spec, lower_statements_spec, path_address, path_value,
    presence_test, unwrapping, Failure,
};
use crate::scope::{
    lookup, lookup_scopes, Binding, BindingKind, Register, ScopeTableView, Signature,
};
use std::ops::Range;
use vstd::prelude::*;

verus! {

/// In a scope with one more entry, the name of the entry denotes what the
/// entry says, and every other name what it denoted before.
pub proof fn lemma_lookup_push(entries: Seq<Binding>, binding: Binding, name: Seq<char>)
    ensures
        lookup(entries.push(binding), name) == if binding.name@ == name {
            Some(binding.kind)
        } else {
            lookup(entries, name)
        },
{
    assert(entries.push(binding).drop_last() =~= entries);
}

/// A name is looked up in the innermost scope first, and only where that has
/// no entry for it in the scopes around it.
pub proof fn lemma_lookup_scopes_push(
    scopes: Seq<Seq<Binding>>,
    innermost: Seq<Binding>,
    name: Seq<char>,
)
    ensures
        lookup_scopes(scopes.push(innermost), name) == match lookup(innermost, name) {
            Some(kind) => Some(kind),
            None => lookup_scopes(scopes, name),
        },
{
    assert(scopes.push(innermost).drop_last() =~= scopes);
}

/// A name resolves to what it was last bound to.
pub proof fn law_bind_resolves(table: ScopeTableView, name: String, kind: BindingKind)
    ensures
        table.bind(name, kind).resolve(name@) == Some(kind),
{
    let binding = Binding { name, kind };
    if table.scopes.len() == 0 {
        lemma_lookup_push(Seq::empty(), binding, name@);
        assert(seq![binding] =~= Seq::<Binding>::empty().push(binding));
        lemma_lookup_scopes_push(Seq::empty(), seq![binding], name@);
        assert(seq![seq![binding]] =~= Seq::<Seq<Binding>>::empty().push(seq![binding]));
    } else {
        let innermost = table.scopes.last();
        lemma_lookup_push(innermost, binding, name@);
        lemma_lookup_scopes_push(table.scopes.drop_last(), innermost.push(binding), name@);
        assert(table.bind(name, kind).scopes =~= table.scopes.drop_last().push(
            innermost.push(binding),
        ));
    }
}

/// Binding a name leaves what every other name denotes as it was.
pub proof fn law_bind_keeps_others(
    table: ScopeTableView,
    name: String,
    kind: BindingKind,
    other: Seq<char>,
)
    requires
        other != name@,
    ensures
        table.bind(name, kind).resolve(other) == table.resolve(other),
{
    let binding = Binding { name, kind };
    if table.scopes.len() == 0 {
        lemma_lookup_push(Seq::empty(), binding, other);
        assert(seq![binding] =~= Seq::<Binding>::empty().push(binding));
        lemma_lookup_scopes_push(Seq::empty(), seq![binding], other);
        assert(seq![seq![binding]] =~= Seq::<Seq<Binding>>::empty().push(seq![binding]));
    } else {
        let innermost = table.scopes.last();
        lemma_lookup_push(innermost, binding, other);
        lemma_lookup_scopes_push(table.scopes.drop_last(), innermost.push(binding), other);
        assert(table.bind(name, kind).scopes =~= table.scopes.drop_last().push(
            innermost.push(binding),
        ));
    }
}

/// Entering a scope leaves what every name denotes as it was.
pub proof fn law_enter_scope_keeps(table: ScopeTableView, name: Seq<char>)
    ensures
        table.enter_scope().resolve(name) == table.resolve(name),
{
    lemma_lookup_scopes_push(table.scopes, Seq::empty(), name);
}

/// Leaving a scope forgets what was bound in it and nothing else: the table
/// is again what it was when the scope was entered.
pub proof fn law_exit_scope_restores(table: ScopeTableView, name: String, kind: BindingKind)
    ensures
        table.enter_scope().exit_scope() == table,
        table.scopes.len() > 0 ==> table.bind(name, kind).exit_scope() == table.exit_scope(),
{
    assert(table.enter_scope().exit_scope().scopes =~= table.scopes);
    if table.scopes.len() > 0 {
        assert(table.bind(name, kind).exit_scope().scopes =~= table.exit_scope().scopes);
    }
}

/// The compound assignment operators and the arithmetic operators match one
/// to one: every assignment operator but `=` applies an arithmetic operator,
/// no two apply the same, and every arithmetic operator is applied by one.
pub proof fn law_assign_operators(one: AssignOperator, other: AssignOperator, op: BinaryOperator)
    ensures
        one.binary_spec() is None <==> one == AssignOperator::Equal,
        one.binary_spec() matches Some(applied) ==> applied.is_arithmetic(),
        one.binary_spec() == other.binary_spec() ==> one == other,
        op.is_arithmetic() ==> exists|by: AssignOperator| by.binary_spec() == Some(op),
{
    match op {
        BinaryOperator::Plus => {
            assert(AssignOperator::Plus.binary_spec() == Some(op));
        },
        BinaryOperator::Minus => {
            assert(AssignOperator::Minus.binary_spec() == Some(op));
        },
        BinaryOperator::Star => {
            assert(AssignOperator::Star.binary_spec() == Some(op));
        },
        BinaryOperator::Slash => {
            assert(AssignOperator::Slash.binary_spec() == Some(op));
        },
        BinaryOperator::Percent => {
            assert(AssignOperator::Percent.binary_spec() == Some(op));
        },
        BinaryOperator::Exponent => {
            assert(AssignOperator::Exponent.binary_spec() == Some(op));
        },
        _ => {},
    }
}

/// Reading the location that a path denotes is evaluating the path as an
/// expression: both give the same code, or fail alike.
pub proof fn lemma_path_expression(table: ScopeTableView, path: Located<Path>)
    ensures
        expression_code(table, path_expression(path)) == path_value(table, path),
    decreases path,
{
    match path.value {
        Path::Ident(name) => {
            let place = identifier_place(table, name, path.loc);
            assert(expression_code(table, path_expression(path)) == atom_code(
                table,
                Atom::Ident(name),
                path.loc,
            ));
            if place is Ok {
                assert(Seq::<Instr>::empty() + seq![place->Ok_0.load_spec()] =~= seq![
                    place->Ok_0.load_spec(),
                ]);
            }
        },
        Path::Field { head, field } => {
            lemma_path_expression(table, *head);
            assert(path_expression(path).value == Expression::Field {
                head: Box::new(path_expression(*head)),
                field,
            });
        },
        Path::Index { head, index } => {
            lemma_path_expression(table, *head);
            assert(path_expression(path).value == Expression::Index {
                head: Box::new(path_expression(*head)),
                index,
            });
        },
    }
}

/// The plain assignment `p = read op e`, where `read` stands for an
/// expression that reads the location `p`.
pub open spec fn plain_assignment(
    op: AssignOperator,
    path: Located<Path>,
    read: Located<Expression>,
    expr: Located<Expression>,
    loc: Range<usize>,
    inner: Range<usize>,
) -> Located<Statement> {
    Located {
        value: Statement::Assign {
            op: AssignOperator::Equal,
            path,
            expr: Located {
                value: Expression::Binary {
                    op: op.binary_spec()->Some_0,
                    left: Box::new(read),
                    right: Box::new(expr),
                },
                loc: inner,
            },
        },
        loc,
    }
}

proof fn lemma_compound_assignment(
    frame: FrameView,
    op: AssignOperator,
    path: Located<Path>,
    read: Located<Expression>,
    expr: Located<Expression>,
    loc: Range<usize>,
    inner: Range<usize>,
)
    requires
        op != AssignOperator::Equal,
        expression_code(frame.scopes, read) == path_value(frame.scopes, path),
    ensures
        lower_statement_spec(frame, Located { value: Statement::Assign { op, path, expr }, loc })
            == lower_statement_spec(frame, plain_assignment(op, path, read, expr, loc, inner)),
{
    let table = frame.scopes;
    let operator = op.binary_spec()->Some_0;
    let combined = Located {
        value: Expression::Binary { op: operator, left: Box::new(read), right: Box::new(expr) },
        loc: inner,
    };
    let located = path_address(table, path);
    let value = expression_code(table, expr);
    if located is Ok && value is Ok {
        let address = located->Ok_0.0;
        let place = located->Ok_0.1;
        let current = address + seq![place.load_spec()];
        assert(expression_code(table, combined) == Ok::<Seq<Instr>, Failure>(
            current + value->Ok_0 + seq![Instr::Binary(operator)],
        ));
        assert(address + current + value->Ok_0 + seq![
            Instr::Binary(operator),
            place.store_spec(),
        ] =~= address + (current + value->Ok_0 + seq![Instr::Binary(operator)]) + seq![
            place.store_spec(),
        ]);
    }
}

/// A compound assignment `p op= e` compiles as the plain assignment
/// `p = p op e` does: to the same code in the same frame, or to the same
/// failure.
pub proof fn law_compound_assignment(
    frame: FrameView,
    op: AssignOperator,
    path: Located<Path>,
    expr: Located<Expression>,
    loc: Range<usize>,
    inner: Range<usize>,
)
    requires
        op != AssignOperator::Equal,
    ensures
        lower_statement_spec(frame, Located { value: Statement::Assign { op, path, expr }, loc })
            == lower_statement_spec(
            frame,
            plain_assignment(op, path, path_expression(path), expr, loc, inner),
        ),
{
    lemma_path_expression(frame.scopes, path);
    lemma_compound_assignment(frame, op, path, path_expression(path), expr, loc, inner);
}

/// The same holds with any expression that is the path read as an
/// expression, such as the one that [`crate::ast::expression_of`] builds.
pub proof fn law_compound_assignment_built(
    frame: FrameView,
    op: AssignOperator,
    path: Located<Path>,
    read: Located<Expression>,
    expr: Located<Expression>,
    loc: Range<usize>,
    inner: Range<usize>,
)
    requires
        op != AssignOperator::Equal,
        same_located_expression(path_expression(path), read),
    ensures
        lower_statement_spec(frame, Located { value: Statement::Assign { op, path, expr }, loc })
            == lower_statement_spec(frame, plain_assignment(op, path, read, expr, loc, inner)),
{
    lemma_path_expression(frame.scopes, path);
    lemma_same_expression_code(frame.scopes, path_expression(path), read);
    lemma_compound_assignment(frame, op, path, read, expr, loc, inner);
}

/// A `break` or `continue` with no loop around it fails the compilation, with
/// an error of its own kind at the statement.
pub proof fn law_jump_outside_loop(frame: FrameView, loc: Range<usize>)
    requires
        frame.labels.len() == 0,
    ensures
        lower_statement_spec(frame, Located { value: Statement::Break, loc }) == Err::<
            FrameView,
            Failure,
        >(failure(CompilerError::BreakOutsideLoop, loc)),
        lower_statement_spec(frame, Located { value: Statement::Continue, loc }) == Err::<
            FrameView,
            Failure,
        >(failure(CompilerError::ContinueOutsideLoop, loc)),
{
}

/// Compiling a module is a function of the module: two compilations that
/// start from compilers in the same state end with the same outcome and with
/// compilers in the same state.
pub proof fn law_compilation_is_deterministic(
    module: Module,
    before: Compiler,
    again: Compiler,
    first: Compiler,
    second: Compiler,
    one: Result<(), Failure>,
    other: Result<(), Failure>,
)
    requires
        before@ == again@,
        module.compiles(before, first, one),
        module.compiles(again, second, other),
    ensures
        one == other,
        first@ == second@,
{
    if one is Ok {
        assert(one->Ok_0 == other->Ok_0);
    }
}

/// Whether `longer` starts with the items of `shorter`, in their order.
pub open spec fn begins_with<T>(longer: Seq<T>, shorter: Seq<T>) -> bool {
    shorter.len() <= longer.len() && longer.take(shorter.len() as int) =~= shorter
}

/// Whether the frame `after` carries on from the frame `before`: the same
/// function with the same parameters, inside the same loops, with what was
/// emitted and registered before still in place, in front of what came since,
/// and with no more slots than a slot index can number, if that held before.
pub open spec fn carries_on(before: FrameView, after: FrameView) -> bool {
    &&& after.name == before.name
    &&& after.export == before.export
    &&& after.result == before.result
    &&& after.parameter == before.parameter
    &&& after.labels == before.labels
    &&& after.scopes.functions == before.scopes.functions
    &&& begins_with(after.instrs, before.instrs)
    &&& begins_with(after.locals, before.locals)
    &&& before.slots() <= SLOT_LIMIT ==> after.slots() <= SLOT_LIMIT
}

/// The scope table after a statement that was lowered in the frame `before`:
/// a `let` has bound its name, in the innermost scope, to the local in the
/// next slot; any other statement has left the table as it was.
pub open spec fn scopes_after(before: FrameView, stmt: Statement) -> ScopeTableView {
    match stmt {
        Statement::Let { param, expr } => before.scopes.bind(
            param.value.name.value,
            BindingKind::Local(before.slots() as Register),
        ),
        _ => before.scopes,
    }
}

proof fn lemma_carries_on_chain(first: FrameView, second: FrameView, third: FrameView)
    requires
        carries_on(first, second),
        carries_on(second, third),
    ensures
        carries_on(first, third),
{
    assert(third.instrs.take(first.instrs.len() as int) =~= third.instrs.take(
        second.instrs.len() as int,
    ).take(first.instrs.len() as int));
    assert(third.locals.take(first.locals.len() as int) =~= third.locals.take(
        second.locals.len() as int,
    ).take(first.locals.len() as int));
}

proof fn lemma_emit_carries_on(frame: FrameView, code: Seq<Instr>)
    ensures
        carries_on(frame, frame.emit_all(code)),
        frame.emit_all(code).scopes == frame.scopes,
        frame.emit_all(code).slots() == frame.slots(),
{
    assert((frame.instrs + code).take(frame.instrs.len() as int) =~= frame.instrs);
    assert(frame.locals.take(frame.locals.len() as int) =~= frame.locals);
}

proof fn lemma_emit_one_carries_on(frame: FrameView, instr: Instr)
    ensures
        carries_on(frame, frame.emit(instr)),
        frame.emit(instr).scopes == frame.scopes,
        frame.emit(instr).slots() == frame.slots(),
{
    assert(frame.instrs.push(instr).take(frame.instrs.len() as int) =~= frame.instrs);
    assert(frame.locals.take(frame.locals.len() as int) =~= frame.locals);
}

proof fn lemma_emitted_carries_on(frame: FrameView, code: Result<Seq<Instr>, Failure>)
    ensures
        emitted(frame, code) matches Ok(after) ==> carries_on(frame, after) && after.scopes
            == frame.scopes && after.slots() == frame.slots(),
{
    if code is Ok {
        lemma_emit_carries_on(frame, code->Ok_0);
    }
}

proof fn lemma_binder_carries_on(frame: FrameView, param: Located<Parameter>)
    ensures
        binder(frame, param) matches Ok((after, slot)) ==> carries_on(frame, after) && after.scopes
            == frame.scopes && slot == frame.slots() as Register,
{
    if binder(frame, param) is Ok {
        let after = binder(frame, param)->Ok_0.0;
        assert(after.locals.take(frame.locals.len() as int) =~= frame.locals);
        assert(frame.instrs.take(frame.instrs.len() as int) =~= frame.instrs);
    }
}

/// What a statement does to the frame beside emitting code: it keeps the
/// function, its parameters and the loops around it, keeps what was emitted
/// and registered before in front of what it adds, and leaves every name
/// denoting what it did, but for a `let`, which binds its name. Scopes that
/// the statement opens are closed when it is done, so nothing bound in them
/// is seen after it.
pub proof fn law_statement_effect(frame: FrameView, stmt: Located<Statement>)
    ensures
        lower_statement_spec(frame, stmt) matches Ok(after) ==> carries_on(frame, after)
            && after.scopes == scopes_after(frame, stmt.value),
    decreases stmt, 0nat,
{
    let lowered = lower_statement_spec(frame, stmt);
    if lowered is Ok {
        let after = lowered->Ok_0;
        match stmt.value {
            Statement::Block(items) => {
                let inner = frame.enter_scope();
                lemma_statements_effect(inner, items@, 0);
                let done = lower_statements_spec(inner, items@, 0)->Ok_0;
                assert(inner.scopes.scopes.drop_last() =~= frame.scopes.scopes);
                assert(after.scopes =~= frame.scopes);
            },
            Statement::Let { param, expr } => {
                let valued = emitted(frame, expression_code(frame.scopes, expr))->Ok_0;
                lemma_emitted_carries_on(frame, expression_code(frame.scopes, expr));
                lemma_binder_carries_on(valued, param);
                let registered = binder(valued, param)->Ok_0.0;
                let slot = binder(valued, param)->Ok_0.1;
                lemma_emit_one_carries_on(registered, Instr::LocalSet(slot));
                lemma_carries_on_chain(frame, valued, registered);
                lemma_carries_on_chain(frame, registered, registered.emit(Instr::LocalSet(slot)));
            },
            Statement::Assign { op, path, expr } => {
                lemma_emitted_carries_on(frame, assign_code(frame.scopes, op, path, expr));
            },
            Statement::Call { path, args } => {
                lemma_emitted_carries_on(frame, call_code(frame.scopes, path, args@));
            },
            Statement::If { cond, case, else_case } => {
                lemma_emitted_carries_on(frame, expression_code(frame.scopes, cond));
                let tested = emitted(frame, expression_code(frame.scopes, cond))->Ok_0;
                lemma_emit_one_carries_on(tested, Instr::If);
                lemma_branch_effect(tested.emit(Instr::If), None, *case);
                let taken = lower_branch_spec(tested.emit(Instr::If), None, *case)->Ok_0;
                lemma_else_effect(taken, else_case);
                lemma_carries_on_chain(frame, tested, tested.emit(Instr::If));
                lemma_carries_on_chain(frame, tested.emit(Instr::If), taken);
                lemma_carries_on_chain(frame, taken, after);
            },
            Statement::IfSome { param, expr, case, else_case } => {
                lemma_emitted_carries_on(frame, expression_code(frame.scopes, expr));
                let valued = emitted(frame, expression_code(frame.scopes, expr))->Ok_0;
                lemma_binder_carries_on(valued, param);
                let registered = binder(valued, param)->Ok_0.0;
                let slot = binder(valued, param)->Ok_0.1;
                let tested = registered.emit_all(presence_test(slot));
                lemma_emit_carries_on(registered, presence_test(slot));
                lemma_emit_one_carries_on(tested, Instr::If);
                let opened = tested.emit(Instr::If);
                lemma_emit_carries_on(opened, unwrapping(slot));
                let unwrapped = opened.emit_all(unwrapping(slot));
                let bound = Some((param.value.name.value, slot));
                lemma_branch_effect(unwrapped, bound, *case);
                let taken = lower_branch_spec(unwrapped, bound, *case)->Ok_0;
                lemma_else_effect(taken, else_case);
                lemma_carries_on_chain(frame, valued, registered);
                lemma_carries_on_chain(frame, registered, tested);
                lemma_carries_on_chain(frame, tested, opened);
                lemma_carries_on_chain(frame, opened, unwrapped);
                lemma_carries_on_chain(frame, unwrapped, taken);
                lemma_carries_on_chain(frame, taken, after);
            },
            Statement::While { cond, body } => {
                let labels = frame.loop_labels();
                let opened = frame.emit_all(loop_open(labels));
                lemma_emit_carries_on(frame, loop_open(labels));
                lemma_emitted_carries_on(opened, expression_code(frame.scopes, cond));
                let tested = emitted(opened, expression_code(frame.scopes, cond))->Ok_0;
                lemma_emit_carries_on(tested, loop_test(labels));
                let ready = tested.emit_all(loop_test(labels));
                lemma_loop_body_effect(ready, None, *body);
                lemma_carries_on_chain(frame, opened, tested);
                lemma_carries_on_chain(frame, tested, ready);
                lemma_carries_on_chain(frame, ready, after);
            },
            Statement::WhileSome { param, expr, body } => {
                let labels = frame.loop_labels();
                let opened = frame.emit_all(loop_open(labels));
                lemma_emit_carries_on(frame, loop_open(labels));
                lemma_emitted_carries_on(opened, expression_code(frame.scopes, expr));
                let valued = emitted(opened, expression_code(frame.scopes, expr))->Ok_0;
                lemma_binder_carries_on(valued, param);
                let registered = binder(valued, param)->Ok_0.0;
                let slot = binder(valued, param)->Ok_0.1;
                let tested = registered.emit_all(presence_test(slot));
                lemma_emit_carries_on(registered, presence_test(slot));
                let checked = tested.emit_all(loop_test(labels));
                lemma_emit_carries_on(tested, loop_test(labels));
                let ready = checked.emit_all(unwrapping(slot));
                lemma_emit_carries_on(checked, unwrapping(slot));
                let bound = Some((param.value.name.value, slot));
                lemma_loop_body_effect(ready, bound, *body);
                lemma_carries_on_chain(frame, opened, valued);
                lemma_carries_on_chain(frame, valued, registered);
                lemma_carries_on_chain(frame, registered, tested);
                lemma_carries_on_chain(frame, tested, checked);
                lemma_carries_on_chain(frame, checked, ready);
                lemma_carries_on_chain(frame, ready, after);
            },
            Statement::For { param, iter, body } => {
                let labels = frame.loop_labels();
                lemma_emitted_carries_on(frame, expression_code(frame.scopes, iter));
                let valued = emitted(frame, expression_code(frame.scopes, iter))->Ok_0;
                lemma_emit_one_carries_on(valued, Instr::Iter);
                let iterating = valued.emit(Instr::Iter);
                lemma_binder_carries_on(iterating, param);
                let with_cursor = binder(iterating, param)->Ok_0.0;
                let cursor = binder(iterating, param)->Ok_0.1;
                lemma_emit_one_carries_on(with_cursor, Instr::LocalSet(cursor));
                let stored = with_cursor.emit(Instr::LocalSet(cursor));
                lemma_binder_carries_on(stored, param);
                let registered = binder(stored, param)->Ok_0.0;
                let slot = binder(stored, param)->Ok_0.1;
                let opened = registered.emit_all(loop_open(labels));
                lemma_emit_carries_on(registered, loop_open(labels));
                let fetched = opened.emit(Instr::LocalGet(cursor));
                lemma_emit_one_carries_on(opened, Instr::LocalGet(cursor));
                let advanced = fetched.emit(Instr::Next);
                lemma_emit_one_carries_on(fetched, Instr::Next);
                let tested = advanced.emit_all(presence_test(slot));
                lemma_emit_carries_on(advanced, presence_test(slot));
                let checked = tested.emit_all(loop_test(labels));
                lemma_emit_carries_on(tested, loop_test(labels));
                let ready = checked.emit_all(unwrapping(slot));
                lemma_emit_carries_on(checked, unwrapping(slot));
                let bound = Some((param.value.name.value, slot));
                lemma_loop_body_effect(ready, bound, *body);
                lemma_carries_on_chain(frame, valued, iterating);
                lemma_carries_on_chain(frame, iterating, with_cursor);
                lemma_carries_on_chain(frame, with_cursor, stored);
                lemma_carries_on_chain(frame, stored, registered);
                lemma_carries_on_chain(frame, registered, opened);
                lemma_carries_on_chain(frame, opened, fetched);
                lemma_carries_on_chain(frame, fetched, advanced);
                lemma_carries_on_chain(frame, advanced, tested);
                lemma_carries_on_chain(frame, tested, checked);
                lemma_carries_on_chain(frame, checked, ready);
                lemma_carries_on_chain(frame, ready, after);
            },
            Statement::Break => {
                lemma_emit_one_carries_on(frame, Instr::Br(frame.labels.last().0));
            },
            Statement::Continue => {
                lemma_emit_one_carries_on(frame, Instr::Br(frame.labels.last().1));
            },
            Statement::Return(expr) => {
                lemma_emitted_carries_on(frame, expression_code(frame.scopes, expr));
                let valued = emitted(frame, expression_code(frame.scopes, expr))->Ok_0;
                lemma_emit_one_carries_on(valued, Instr::Return);
                lemma_carries_on_chain(frame, valued, after);
            },
        }
    }
}

/// Statements lowered one after another in an open scope add bindings to that
/// scope and leave the scopes around it as they were.
pub proof fn lemma_statements_effect(
    frame: FrameView,
    items: Seq<Located<Statement>>,
    from: nat,
)
    requires
        frame.scopes.scopes.len() > 0,
    ensures
        lower_statements_spec(frame, items, from) matches Ok(after) ==> carries_on(frame, after)
            && after.scopes.scopes.len() == frame.scopes.scopes.len()
            && after.scopes.scopes.drop_last() == frame.scopes.scopes.drop_last(),
    decreases items, items.len() - from,
{
    if from >= items.len() {
        lemma_emit_carries_on(frame, Seq::empty());
        assert(frame.instrs + Seq::<Instr>::empty() =~= frame.instrs);
    } else {
        let lowered = lower_statement_spec(frame, items[from as int]);
        if lowered is Ok {
            let next = lowered->Ok_0;
            law_statement_effect(frame, items[from as int]);
            assert(next.scopes.scopes.len() == frame.scopes.scopes.len());
            assert(next.scopes.scopes.drop_last() =~= frame.scopes.scopes.drop_last());
            lemma_statements_effect(next, items, from + 1);
            let rest = lower_statements_spec(next, items, from + 1);
            if rest is Ok {
                lemma_carries_on_chain(frame, next, rest->Ok_0);
            }
        }
    }
}

/// A branch or a loop body leaves every name denoting what it did before.
pub proof fn lemma_branch_effect(
    frame: FrameView,
    bound: Option<(String, Register)>,
    stmt: Located<Statement>,
)
    ensures
        lower_branch_spec(frame, bound, stmt) matches Ok(after) ==> carries_on(frame, after)
            && after.scopes == frame.scopes,
    decreases stmt, 1nat,
{
    let inner = match bound {
        Some((name, slot)) => frame.enter_scope().bind(name, BindingKind::Local(slot)),
        None => frame.enter_scope(),
    };
    let lowered = lower_statement_spec(inner, stmt);
    if lowered is Ok {
        let done = lowered->Ok_0;
        law_statement_effect(inner, stmt);
        assert(inner.scopes.scopes.len() == frame.scopes.scopes.len() + 1);
        assert(inner.scopes.scopes.drop_last() =~= frame.scopes.scopes);
        assert(done.scopes.scopes.len() == inner.scopes.scopes.len());
        assert(done.scopes.scopes.drop_last() =~= frame.scopes.scopes);
        assert(done.exit_scope().scopes =~= frame.scopes);
        assert(frame.instrs.take(frame.instrs.len() as int) =~= frame.instrs);
        assert(frame.locals.take(frame.locals.len() as int) =~= frame.locals);
        assert(carries_on(frame, inner));
        lemma_carries_on_chain(frame, inner, done);
    }
}

/// The rest of a conditional leaves every name denoting what it did before.
pub proof fn lemma_else_effect(frame: FrameView, else_case: Option<Box<Located<Statement>>>)
    ensures
        lower_else_spec(frame, else_case) matches Ok(after) ==> carries_on(frame, after)
            && after.scopes == frame.scopes,
    decreases else_case, 2nat,
{
    match else_case {
        None => {
            lemma_emit_one_carries_on(frame, Instr::End);
        },
        Some(other) => {
            lemma_emit_one_carries_on(frame, Instr::Else);
            lemma_branch_effect(frame.emit(Instr::Else), None, *other);
            let lowered = lower_branch_spec(frame.emit(Instr::Else), None, *other);
            if lowered is Ok {
                lemma_emit_one_carries_on(lowered->Ok_0, Instr::End);
                lemma_carries_on_chain(frame, frame.emit(Instr::Else), lowered->Ok_0);
                lemma_carries_on_chain(frame, lowered->Ok_0, lowered->Ok_0.emit(Instr::End));
            }
        },
    }
}

/// The body of a loop leaves every name denoting what it did before, and the
/// loops around the loop as they were.
pub proof fn lemma_loop_body_effect(
    frame: FrameView,
    bound: Option<(String, Register)>,
    body: Located<Statement>,
)
    ensures
        lower_loop_body_spec(frame, bound, body) matches Ok(after) ==> carries_on(frame, after)
            && after.scopes == frame.scopes,
    decreases body, 2nat,
{
    let entered = frame.enter_loop();
    lemma_branch_effect(entered, bound, body);
    let lowered = lower_branch_spec(entered, bound, body);
    if lowered is Ok {
        let done = lowered->Ok_0;
        let left = done.exit_loop();
        assert(left.labels =~= frame.labels);
        assert(begins_with(left.instrs, frame.instrs));
        assert(begins_with(left.locals, frame.locals));
        lemma_emit_carries_on(left, loop_close(frame.loop_labels()));
        assert(carries_on(frame, left));
        lemma_carries_on_chain(frame, left, left.emit_all(loop_close(frame.loop_labels())));
    }
}

/// Slots are stable: a statement leaves every parameter and every local
/// registered before it in the slot it had, and adds its own locals behind
/// them.
pub proof fn law_slots_are_stable(frame: FrameView, stmt: Located<Statement>, slot: int)
    requires
        0 <= slot < frame.slots(),
    ensures
        lower_statement_spec(frame, stmt) matches Ok(after) ==> {
            &&& frame.slots() <= after.slots()
            &&& (frame.parameter + frame.locals)[slot] == (after.parameter + after.locals)[slot]
        },
{
    law_statement_effect(frame, stmt);
    if lower_statement_spec(frame, stmt) is Ok {
        let after = lower_statement_spec(frame, stmt)->Ok_0;
        if slot >= frame.parameter.len() {
            let local = slot - frame.parameter.len();
            assert(after.locals.take(frame.locals.len() as int)[local] == after.locals[local]);
        }
    }
}

/// A name bound by a `let` denotes the new local from the `let` on: a
/// reference to it right after the `let` reads the local's slot.
pub proof fn law_let_binds(frame: FrameView, stmt: Located<Statement>, at: Range<usize>)
    requires
        stmt.value is Let,
    ensures
        lower_statement_spec(frame, stmt) matches Ok(after) ==> {
            let name = stmt.value->Let_param.value.name.value;
            let slot = frame.slots() as Register;
            &&& after.scopes.resolve(name@) == Some(BindingKind::Local(slot))
            &&& after.locals == frame.locals.push((name, stmt.value->Let_param.value.typ.value))
            &&& expression_code(
                after.scopes,
                Located { value: Expression::Atom(Atom::Ident(name)), loc: at },
            ) == Ok::<Seq<Instr>, Failure>(seq![Instr::LocalGet(slot)])
        },
{
    if lower_statement_spec(frame, stmt) is Ok {
        let after = lower_statement_spec(frame, stmt)->Ok_0;
        let param = stmt.value->Let_param;
        let expr = stmt.value->Let_expr;
        let name = param.value.name.value;
        let slot = frame.slots() as Register;
        law_statement_effect(frame, stmt);
        law_bind_resolves(frame.scopes, name, BindingKind::Local(slot));
        lemma_emitted_carries_on(frame, expression_code(frame.scopes, expr));
        let valued = emitted(frame, expression_code(frame.scopes, expr))->Ok_0;
        assert(valued.locals == frame.locals);
        assert(binder(valued, param) is Ok);
        assert(after.locals == frame.locals.push((name, param.value.typ.value)));
        let reference = Located { value: Expression::Atom(Atom::Ident(name)), loc: at };
        assert(expression_code(after.scopes, reference) == atom_code(
            after.scopes,
            Atom::Ident(name),
            at,
        ));
        assert(identifier_place(after.scopes, name, at) == Ok::<ValueDescriptor, Failure>(
            ValueDescriptor::Slot(slot),
        ));
    }
}

/// A binding lasts: a statement that is no `let` for the name leaves the name
/// denoting what it did before, whatever the statement binds in scopes of its
/// own.
pub proof fn law_binding_lasts(frame: FrameView, stmt: Located<Statement>, name: Seq<char>)
    requires
        stmt.value is Let ==> stmt.value->Let_param.value.name.value@ != name,
    ensures
        lower_statement_spec(frame, stmt) matches Ok(after) ==> after.scopes.resolve(name)
            == frame.scopes.resolve(name),
{
    if lower_statement_spec(frame, stmt) is Ok {
        law_statement_effect(frame, stmt);
        if stmt.value is Let {
            law_bind_keeps_others(
                frame.scopes,
                stmt.value->Let_param.value.name.value,
                BindingKind::Local(frame.slots() as Register),
                name,
            );
        }
    }
}

/// A scope ends with the statement that opened it. After a block, a
/// conditional or a loop the scope table is what it was before it: a name
/// that it shadowed denotes again what it did outside, and a reference to a
/// name that only it had bound fails with `NotFound`.
pub proof fn law_scope_ends(
    frame: FrameView,
    stmt: Located<Statement>,
    name: String,
    at: Range<usize>,
)
    requires
        !(stmt.value is Let),
    ensures
        lower_statement_spec(frame, stmt) matches Ok(after) ==> {
            let reference = Located { value: Expression::Atom(Atom::Ident(name)), loc: at };
            &&& after.scopes == frame.scopes
            &&& expression_code(after.scopes, reference) == expression_code(
                frame.scopes,
                reference,
            )
            &&& frame.scopes.resolve(name@) is None ==> expression_code(after.scopes, reference)
                == Err::<Seq<Instr>, Failure>(failure(CompilerError::NotFound(name), at))
        },
{
    law_statement_effect(frame, stmt);
    let reference = Located { value: Expression::Atom(Atom::Ident(name)), loc: at };
    assert(expression_code(frame.scopes, reference) == atom_code(
        frame.scopes,
        Atom::Ident(name),
        at,
    ));
}

/// Whether a `break` or `continue` in `stmt` has no loop of `stmt` around it.
pub open spec fn jumps_out(stmt: Located<Statement>) -> bool
    decreases stmt, 0nat,
{
    match stmt.value {
        Statement::Break => true,
        Statement::Continue => true,
        Statement::Block(items) => any_jumps_out(items@, 0),
        Statement::If { cond, case, else_case } => jumps_out(*case) || else_jumps_out(else_case),
        Statement::IfSome { param, expr, case, else_case } => jumps_out(*case) || else_jumps_out(
            else_case,
        ),
        _ => false,
    }
}

/// Whether one of the statements from index `from` on jumps out.
pub open spec fn any_jumps_out(items: Seq<Located<Statement>>, from: nat) -> bool
    decreases items, items.len() - from,
{
    from < items.len() && (jumps_out(items[from as int]) || any_jumps_out(items, from + 1))
}

/// Whether the other branch of a conditional, where there is one, jumps out.
pub open spec fn else_jumps_out(else_case: Option<Box<Located<Statement>>>) -> bool
    decreases else_case, 1nat,
{
    match else_case {
        Some(other) => jumps_out(*other),
        None => false,
    }
}

/// A statement with a `break` or `continue` that no loop encloses, lowered
/// outside any loop, fails the compilation.
pub proof fn law_loop_control(frame: FrameView, stmt: Located<Statement>)
    requires
        frame.labels.len() == 0,
        jumps_out(stmt),
    ensures
        lower_statement_spec(frame, stmt) is Err,
    decreases stmt, 0nat,
{
    match stmt.value {
        Statement::Block(items) => {
            lemma_loop_control_statements(frame.enter_scope(), items@, 0);
        },
        Statement::If { cond, case, else_case } => {
            let tested = emitted(frame, expression_code(frame.scopes, cond));
            if tested is Ok {
                let opened = tested->Ok_0.emit(Instr::If);
                if jumps_out(*case) {
                    lemma_loop_control_branch(opened, None, *case);
                } else {
                    let taken = lower_branch_spec(opened, None, *case);
                    if taken is Ok {
                        lemma_branch_effect(opened, None, *case);
                        lemma_loop_control_else(taken->Ok_0, else_case);
                    }
                }
            }
        },
        Statement::IfSome { param, expr, case, else_case } => {
            let valued = emitted(frame, expression_code(frame.scopes, expr));
            if valued is Ok && binder(valued->Ok_0, param) is Ok {
                let registered = binder(valued->Ok_0, param)->Ok_0.0;
                let slot = binder(valued->Ok_0, param)->Ok_0.1;
                let opened = registered.emit_all(presence_test(slot)).emit(Instr::If).emit_all(
                    unwrapping(slot),
                );
                let bound = Some((param.value.name.value, slot));
                if jumps_out(*case) {
                    lemma_loop_control_branch(opened, bound, *case);
                } else {
                    let taken = lower_branch_spec(opened, bound, *case);
                    if taken is Ok {
                        lemma_branch_effect(opened, bound, *case);
                        lemma_loop_control_else(taken->Ok_0, else_case);
                    }
                }
            }
        },
        _ => {},
    }
}

proof fn lemma_loop_control_branch(
    frame: FrameView,
    bound: Option<(String, Register)>,
    stmt: Located<Statement>,
)
    requires
        frame.labels.len() == 0,
        jumps_out(stmt),
    ensures
        lower_branch_spec(frame, bound, stmt) is Err,
    decreases stmt, 1nat,
{
    let inner = match bound {
        Some((name, slot)) => frame.enter_scope().bind(name, BindingKind::Local(slot)),
        None => frame.enter_scope(),
    };
    law_loop_control(inner, stmt);
}

proof fn lemma_loop_control_else(frame: FrameView, else_case: Option<Box<Located<Statement>>>)
    requires
        frame.labels.len() == 0,
        else_jumps_out(else_case),
    ensures
        lower_else_spec(frame, else_case) is Err,
    decreases else_case, 2nat,
{
    match else_case {
        Some(other) => {
            lemma_loop_control_branch(frame.emit(Instr::Else), None, *other);
        },
        None => {},
    }
}

proof fn lemma_loop_control_statements(
    frame: FrameView,
    items: Seq<Located<Statement>>,
    from: nat,
)
    requires
        frame.labels.len() == 0,
        any_jumps_out(items, from),
    ensures
        lower_statements_spec(frame, items, from) is Err,
    decreases items, items.len() - from,
{
    if jumps_out(items[from as int]) {
        law_loop_control(frame, items[from as int]);
    } else {
        let lowered = lower_statement_spec(frame, items[from as int]);
        if lowered is Ok {
            law_statement_effect(frame, items[from as int]);
            lemma_loop_control_statements(lowered->Ok_0, items, from + 1);
        }
    }
}

/// The parameters of a function take the slots from 0 on in the order of
/// their declaration; there is a slot for each unless they are more than a
/// slot index can number.
pub proof fn lemma_parameters(frame: FrameView, params: Seq<Located<Parameter>>, from: nat)
    requires
        from <= params.len(),
        from <= SLOT_LIMIT,
        frame.parameter.len() == from,
        frame.locals.len() == 0,
        frame.scopes.scopes.len() > 0,
        forall|i: int|
            0 <= i < from ==> frame.parameter[i] == (
                params[i].value.name.value,
                params[i].value.typ.value,
            ),
    ensures
        add_parameters_spec(frame, params, from) matches Ok(after) ==> {
            &&& after.parameter.len() == params.len()
            &&& forall|i: int|
                0 <= i < params.len() ==> after.parameter[i] == (
                    params[i].value.name.value,
                    params[i].value.typ.value,
                )
            &&& after.locals == frame.locals
            &&& after.labels == frame.labels
            &&& after.instrs == frame.instrs
            &&& after.name == frame.name
            &&& after.export == frame.export
            &&& after.result == frame.result
            &&& after.scopes.functions == frame.scopes.functions
            &&& after.scopes.scopes.len() == frame.scopes.scopes.len()
        },
        add_parameters_spec(frame, params, from) is Err <==> params.len() > SLOT_LIMIT,
    decreases params.len() - from,
{
    if from < params.len() {
        let name = params[from as int].value.name.value;
        let typ = params[from as int].value.typ.value;
        let added = frame.add_parameter(name, typ);
        if added is Some {
            let next = added->Some_0;
            assert forall|i: int| 0 <= i < from + 1 implies next.parameter[i] == (
                params[i].value.name.value,
                params[i].value.typ.value,
            ) by {
                if i < from {
                    assert(next.parameter[i] == frame.parameter[i]);
                }
            }
            lemma_parameters(next, params, from + 1);
        }
    }
}

/// A function that compiles ends as it should: with the name, visibility and
/// result type that it declares, its parameters in the slots from 0 on in
/// the order of their declaration, no more slots than a slot index can
/// number, every scope closed and every loop left.
pub proof fn law_finished_function(functions: Seq<Signature>, def: Located<Definition>)
    ensures
        compile_function_spec(functions, def) matches Ok(frame) ==> {
            let params = def.value->Fn_params@;
            &&& frame.name == def.value->Fn_name.value
            &&& frame.export == def.value->Fn_export
            &&& frame.result is Some <==> def.value->Fn_result is Some
            &&& frame.result is Some ==> frame.result->Some_0 == def.value->Fn_result->Some_0.value
            &&& frame.parameter.len() == params.len()
            &&& forall|i: int|
                0 <= i < params.len() ==> frame.parameter[i] == (
                    params[i].value.name.value,
                    params[i].value.typ.value,
                )
            &&& frame.slots() <= SLOT_LIMIT
            &&& frame.scopes.scopes.len() == 0
            &&& frame.scopes.functions == functions
            &&& frame.labels.len() == 0
        },
{
    let compiled = compile_function_spec(functions, def);
    if compiled is Ok {
        let frame = compiled->Ok_0;
        match def.value {
            Definition::Fn { export, name, params, result, body } => {
                let start = initial_frame(
                    name.value,
                    export,
                    match result {
                        Some(typ) => Some(typ.value),
                        None => None,
                    },
                    functions,
                );
                let opened = start.enter_scope();
                lemma_parameters(opened, params@, 0);
                let declared = add_parameters_spec(opened, params@, 0)->Ok_0;
                let inner = declared.enter_scope();
                lemma_statements_effect(inner, body.value.0@, 0);
                let done = lower_statements_spec(inner, body.value.0@, 0)->Ok_0;
                assert(inner.scopes.scopes.drop_last() =~= declared.scopes.scopes);
                assert(done.exit_scope().scopes.scopes =~= declared.scopes.scopes);
                assert(opened.scopes.scopes.len() == 1);
                assert(declared.scopes.scopes.len() == 1);
            },
        }
    }
}

/// A function whose body has a `break` or `continue` that no loop encloses
/// does not compile.
pub proof fn law_loop_control_validity(functions: Seq<Signature>, def: Located<Definition>)
    requires
        any_jumps_out(def.value->Fn_body.value.0@, 0),
    ensures
        compile_function_spec(functions, def) is Err,
{
    match def.value {
        Definition::Fn { export, name, params, result, body } => {
            let start = initial_frame(
                name.value,
                export,
                match result {
                    Some(typ) => Some(typ.value),
                    None => None,
                },
                functions,
            );
            let opened = start.enter_scope();
            let declared = add_parameters_spec(opened, params@, 0);
            if declared is Ok {
                lemma_parameters(opened, params@, 0);
                lemma_loop_control_statements(declared->Ok_0.enter_scope(), body.value.0@, 0);
            }
        },
    }
}

} // verus!
