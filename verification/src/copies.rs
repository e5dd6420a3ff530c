//! A copy of a tree compiles as the tree does: trees that are the same but
//! for which vectors hold their parts give the same code, or fail alike.

use crate::ast::{
    same_atom, same_else, same_expression, same_expressions, same_fields,
    same_located_definition, same_located_expression, same_located_path, same_located_statement,
    same_module, same_path, same_statement, same_statements, Atom, Definition, Expression,
    Located, Module, Path, Statement,
};
use crate::compiler::{
    add_parameters_spec, compile_function_spec, compile_functions_spec, compile_module_spec,
    initial_frame, signature_of, signatures_spec, FrameView,
};
use crate::instr::Instr;
use crate::lower::{
    atom_code, binder, emitted, expression_code, expressions_code, fields_code, loop_open,
    loop_test, lower_branch_spec, lower_else_spec, lower_loop_body_spec, lower_statement_spec,
    lower_statements_spec, path_address, path_value, presence_test, unwrapping,
};
use crate::scope::{BindingKind, Register, ScopeTableView, Signature};
use std::ops::Range;
use vstd::prelude::*;

verus! {

/// The same expression compiles to the same code.
pub proof fn lemma_same_expression_code(
    table: ScopeTableView,
    one: Located<Expression>,
    other: Located<Expression>,
)
    requires
        same_located_expression(one, other),
    ensures
        expression_code(table, one) == expression_code(table, other),
    decreases one,
{
    reveal_with_fuel(same_located_expression, 2);
    reveal_with_fuel(same_expression, 2);
    reveal_with_fuel(same_atom, 2);
    match (one.value, other.value) {
        (Expression::Atom(a), Expression::Atom(b)) => {
            lemma_same_atom_code(table, a, b, one.loc);
        },
        (
            Expression::Binary { op: op_a, left: left_a, right: right_a },
            Expression::Binary { op: op_b, left: left_b, right: right_b },
        ) => {
            lemma_same_expression_code(table, *left_a, *left_b);
            lemma_same_expression_code(table, *right_a, *right_b);
        },
        (
            Expression::Unary { op: op_a, right: right_a },
            Expression::Unary { op: op_b, right: right_b },
        ) => {
            lemma_same_expression_code(table, *right_a, *right_b);
        },
        (
            Expression::Call { head: head_a, args: args_a },
            Expression::Call { head: head_b, args: args_b },
        ) => {
            lemma_same_expression_code(table, *head_a, *head_b);
            lemma_same_expressions_code(table, args_a@, args_b@, 0);
            assert(args_a.len() == args_b.len());
            assert(same_expression(head_a.value, head_b.value));
            match (head_a.value, head_b.value) {
                (Expression::Atom(a), Expression::Atom(b)) => {
                    assert(same_atom(a, b));
                    assert(a is Ident <==> b is Ident);
                    assert(a is Ident ==> a == b);
                },
                _ => {},
            }
        },
        (
            Expression::Field { head: head_a, field: field_a },
            Expression::Field { head: head_b, field: field_b },
        ) => {
            lemma_same_expression_code(table, *head_a, *head_b);
        },
        (
            Expression::Index { head: head_a, index: index_a },
            Expression::Index { head: head_b, index: index_b },
        ) => {
            lemma_same_expression_code(table, *head_a, *head_b);
            lemma_same_expression_code(table, *index_a, *index_b);
        },
        _ => {},
    }
}

/// The same atom compiles to the same code.
pub proof fn lemma_same_atom_code(table: ScopeTableView, one: Atom, other: Atom, loc: Range<usize>)
    requires
        same_atom(one, other),
    ensures
        atom_code(table, one, loc) == atom_code(table, other, loc),
    decreases one,
{
    reveal_with_fuel(same_atom, 2);
    match (one, other) {
        (Atom::Expression(a), Atom::Expression(b)) => {
            lemma_same_expression_code(table, *a, *b);
        },
        (Atom::Tuple(a), Atom::Tuple(b)) => {
            lemma_same_expressions_code(table, a@, b@, 0);
            assert(a.len() == b.len());
        },
        (Atom::Vector(a), Atom::Vector(b)) => {
            lemma_same_expressions_code(table, a@, b@, 0);
            assert(a.len() == b.len());
        },
        (Atom::Object(a), Atom::Object(b)) => {
            lemma_same_fields_code(table, a@, b@, 0);
            assert(a.len() == b.len());
        },
        _ => {},
    }
}

/// The same expressions compile to the same code.
pub proof fn lemma_same_expressions_code(
    table: ScopeTableView,
    one: Seq<Located<Expression>>,
    other: Seq<Located<Expression>>,
    from: nat,
)
    requires
        same_expressions(one, other),
    ensures
        expressions_code(table, one, from) == expressions_code(table, other, from),
    decreases one, one.len() - from,
{
    if from < one.len() {
        assert(same_located_expression(one[from as int], other[from as int]));
        lemma_same_expression_code(table, one[from as int], other[from as int]);
        lemma_same_expressions_code(table, one, other, from + 1);
    }
}

/// The same fields compile to the same code.
pub proof fn lemma_same_fields_code(
    table: ScopeTableView,
    one: Seq<(Located<String>, Located<Expression>)>,
    other: Seq<(Located<String>, Located<Expression>)>,
    from: nat,
)
    requires
        same_fields(one, other),
    ensures
        fields_code(table, one, from) == fields_code(table, other, from),
    decreases one, one.len() - from,
{
    if from < one.len() {
        assert(one[from as int].0 == other[from as int].0);
        assert(same_located_expression(one[from as int].1, other[from as int].1));
        lemma_same_expression_code(table, one[from as int].1, other[from as int].1);
        lemma_same_fields_code(table, one, other, from + 1);
    }
}

/// The same path denotes the same location by the same code.
pub proof fn lemma_same_path_code(table: ScopeTableView, one: Located<Path>, other: Located<Path>)
    requires
        same_located_path(one, other),
    ensures
        path_address(table, one) == path_address(table, other),
        path_value(table, one) == path_value(table, other),
    decreases one,
{
    reveal_with_fuel(same_located_path, 2);
    reveal_with_fuel(same_path, 2);
    match (one.value, other.value) {
        (
            Path::Field { head: head_a, field: field_a },
            Path::Field { head: head_b, field: field_b },
        ) => {
            lemma_same_path_code(table, *head_a, *head_b);
        },
        (
            Path::Index { head: head_a, index: index_a },
            Path::Index { head: head_b, index: index_b },
        ) => {
            lemma_same_path_code(table, *head_a, *head_b);
            lemma_same_expression_code(table, *index_a, *index_b);
        },
        _ => {},
    }
}

/// The same statement does the same to a frame.
pub proof fn lemma_same_statement(
    frame: FrameView,
    one: Located<Statement>,
    other: Located<Statement>,
)
    requires
        same_located_statement(one, other),
    ensures
        lower_statement_spec(frame, one) == lower_statement_spec(frame, other),
    decreases one, 0nat,
{
    reveal_with_fuel(same_located_statement, 2);
    reveal_with_fuel(same_statement, 2);
    let table = frame.scopes;
    match (one.value, other.value) {
        (Statement::Block(a), Statement::Block(b)) => {
            lemma_same_statements(frame.enter_scope(), a@, b@, 0);
        },
        (
            Statement::Let { param: param_a, expr: expr_a },
            Statement::Let { param: param_b, expr: expr_b },
        ) => {
            lemma_same_expression_code(table, expr_a, expr_b);
        },
        (
            Statement::Assign { op: op_a, path: path_a, expr: expr_a },
            Statement::Assign { op: op_b, path: path_b, expr: expr_b },
        ) => {
            lemma_same_path_code(table, path_a, path_b);
            lemma_same_expression_code(table, expr_a, expr_b);
        },
        (
            Statement::Call { path: path_a, args: args_a },
            Statement::Call { path: path_b, args: args_b },
        ) => {
            lemma_same_path_code(table, path_a, path_b);
            lemma_same_expressions_code(table, args_a@, args_b@, 0);
        },
        (
            Statement::If { cond: cond_a, case: case_a, else_case: else_a },
            Statement::If { cond: cond_b, case: case_b, else_case: else_b },
        ) => {
            lemma_same_expression_code(table, cond_a, cond_b);
            let tested = emitted(frame, expression_code(table, cond_a));
            if tested is Ok {
                let opened = tested->Ok_0.emit(Instr::If);
                lemma_same_branch(opened, None, *case_a, *case_b);
                let taken = lower_branch_spec(opened, None, *case_a);
                if taken is Ok {
                    lemma_same_else(taken->Ok_0, else_a, else_b);
                }
            }
        },
        (
            Statement::IfSome { param: param_a, expr: expr_a, case: case_a, else_case: else_a },
            Statement::IfSome { param: param_b, expr: expr_b, case: case_b, else_case: else_b },
        ) => {
            lemma_same_expression_code(table, expr_a, expr_b);
            let valued = emitted(frame, expression_code(table, expr_a));
            if valued is Ok && binder(valued->Ok_0, param_a) is Ok {
                let registered = binder(valued->Ok_0, param_a)->Ok_0.0;
                let slot = binder(valued->Ok_0, param_a)->Ok_0.1;
                let opened = registered.emit_all(presence_test(slot)).emit(Instr::If).emit_all(
                    unwrapping(slot),
                );
                let bound = Some((param_a.value.name.value, slot));
                lemma_same_branch(opened, bound, *case_a, *case_b);
                let taken = lower_branch_spec(opened, bound, *case_a);
                if taken is Ok {
                    lemma_same_else(taken->Ok_0, else_a, else_b);
                }
            }
        },
        (
            Statement::While { cond: cond_a, body: body_a },
            Statement::While { cond: cond_b, body: body_b },
        ) => {
            lemma_same_expression_code(table, cond_a, cond_b);
            let labels = frame.loop_labels();
            let tested = emitted(frame.emit_all(loop_open(labels)), expression_code(table, cond_a));
            if tested is Ok {
                lemma_same_loop_body(
                    tested->Ok_0.emit_all(loop_test(labels)),
                    None,
                    *body_a,
                    *body_b,
                );
            }
        },
        (
            Statement::WhileSome { param: param_a, expr: expr_a, body: body_a },
            Statement::WhileSome { param: param_b, expr: expr_b, body: body_b },
        ) => {
            lemma_same_expression_code(table, expr_a, expr_b);
            let labels = frame.loop_labels();
            let valued = emitted(frame.emit_all(loop_open(labels)), expression_code(table, expr_a));
            if valued is Ok && binder(valued->Ok_0, param_a) is Ok {
                let registered = binder(valued->Ok_0, param_a)->Ok_0.0;
                let slot = binder(valued->Ok_0, param_a)->Ok_0.1;
                lemma_same_loop_body(
                    registered.emit_all(presence_test(slot)).emit_all(loop_test(labels)).emit_all(
                        unwrapping(slot),
                    ),
                    Some((param_a.value.name.value, slot)),
                    *body_a,
                    *body_b,
                );
            }
        },
        (
            Statement::For { param: param_a, iter: iter_a, body: body_a },
            Statement::For { param: param_b, iter: iter_b, body: body_b },
        ) => {
            lemma_same_expression_code(table, iter_a, iter_b);
            let labels = frame.loop_labels();
            let valued = emitted(frame, expression_code(table, iter_a));
            if valued is Ok && binder(valued->Ok_0.emit(Instr::Iter), param_a) is Ok {
                let with_cursor = binder(valued->Ok_0.emit(Instr::Iter), param_a)->Ok_0.0;
                let cursor = binder(valued->Ok_0.emit(Instr::Iter), param_a)->Ok_0.1;
                let stored = with_cursor.emit(Instr::LocalSet(cursor));
                if binder(stored, param_a) is Ok {
                    let registered = binder(stored, param_a)->Ok_0.0;
                    let slot = binder(stored, param_a)->Ok_0.1;
                    lemma_same_loop_body(
                        registered.emit_all(loop_open(labels)).emit(Instr::LocalGet(cursor)).emit(
                            Instr::Next,
                        ).emit_all(presence_test(slot)).emit_all(loop_test(labels)).emit_all(
                            unwrapping(slot),
                        ),
                        Some((param_a.value.name.value, slot)),
                        *body_a,
                        *body_b,
                    );
                }
            }
        },
        (Statement::Return(a), Statement::Return(b)) => {
            lemma_same_expression_code(table, a, b);
        },
        _ => {},
    }
}

/// The same statements do the same to a frame.
pub proof fn lemma_same_statements(
    frame: FrameView,
    one: Seq<Located<Statement>>,
    other: Seq<Located<Statement>>,
    from: nat,
)
    requires
        same_statements(one, other),
    ensures
        lower_statements_spec(frame, one, from) == lower_statements_spec(frame, other, from),
    decreases one, one.len() - from,
{
    if from < one.len() {
        assert(same_located_statement(one[from as int], other[from as int]));
        lemma_same_statement(frame, one[from as int], other[from as int]);
        let lowered = lower_statement_spec(frame, one[from as int]);
        if lowered is Ok {
            lemma_same_statements(lowered->Ok_0, one, other, from + 1);
        }
    }
}

proof fn lemma_same_branch(
    frame: FrameView,
    bound: Option<(String, Register)>,
    one: Located<Statement>,
    other: Located<Statement>,
)
    requires
        same_located_statement(one, other),
    ensures
        lower_branch_spec(frame, bound, one) == lower_branch_spec(frame, bound, other),
    decreases one, 1nat,
{
    let inner = match bound {
        Some((name, slot)) => frame.enter_scope().bind(name, BindingKind::Local(slot)),
        None => frame.enter_scope(),
    };
    lemma_same_statement(inner, one, other);
}

proof fn lemma_same_else(
    frame: FrameView,
    one: Option<Box<Located<Statement>>>,
    other: Option<Box<Located<Statement>>>,
)
    requires
        same_else(one, other),
    ensures
        lower_else_spec(frame, one) == lower_else_spec(frame, other),
    decreases one, 2nat,
{
    match (one, other) {
        (Some(a), Some(b)) => {
            lemma_same_branch(frame.emit(Instr::Else), None, *a, *b);
        },
        _ => {},
    }
}

proof fn lemma_same_loop_body(
    frame: FrameView,
    bound: Option<(String, Register)>,
    one: Located<Statement>,
    other: Located<Statement>,
)
    requires
        same_located_statement(one, other),
    ensures
        lower_loop_body_spec(frame, bound, one) == lower_loop_body_spec(frame, bound, other),
    decreases one, 2nat,
{
    lemma_same_branch(frame.enter_loop(), bound, one, other);
}

/// The same definition compiles to the same function.
pub proof fn lemma_same_function(
    functions: Seq<Signature>,
    one: Located<Definition>,
    other: Located<Definition>,
)
    requires
        same_located_definition(one, other),
    ensures
        compile_function_spec(functions, one) == compile_function_spec(functions, other),
        signature_of(one.value) == signature_of(other.value),
{
    match (one.value, other.value) {
        (
            Definition::Fn {
                export: export_a,
                name: name_a,
                params: params_a,
                result: result_a,
                body: body_a,
            },
            Definition::Fn {
                export: export_b,
                name: name_b,
                params: params_b,
                result: result_b,
                body: body_b,
            },
        ) => {
            let start = initial_frame(
                name_a.value,
                export_a,
                match result_a {
                    Some(typ) => Some(typ.value),
                    None => None,
                },
                functions,
            );
            let declared = add_parameters_spec(start.enter_scope(), params_a@, 0);
            if declared is Ok {
                lemma_same_statements(
                    declared->Ok_0.enter_scope(),
                    body_a.value.0@,
                    body_b.value.0@,
                    0,
                );
            }
        },
    }
}

proof fn lemma_same_functions(
    functions: Seq<Signature>,
    one: Seq<Located<Definition>>,
    other: Seq<Located<Definition>>,
    from: nat,
)
    requires
        one.len() == other.len(),
        forall|i: int| 0 <= i < one.len() ==> same_located_definition(#[trigger] one[i], other[i]),
    ensures
        compile_functions_spec(functions, one, from) == compile_functions_spec(
            functions,
            other,
            from,
        ),
    decreases one.len() - from,
{
    if from < one.len() {
        assert(same_located_definition(one[from as int], other[from as int]));
        lemma_same_function(functions, one[from as int], other[from as int]);
        lemma_same_functions(functions, one, other, from + 1);
    }
}

/// A copy of a program compiles as the program does: modules that are the
/// same trees give the same functions, or fail alike.
pub proof fn law_same_module_compiles_alike(one: Module, other: Module)
    requires
        same_module(one, other),
    ensures
        compile_module_spec(one) == compile_module_spec(other),
{
    assert(signatures_spec(one.0@) =~= signatures_spec(other.0@)) by {
        assert forall|i: int| 0 <= i < one.0@.len() implies signature_of(one.0@[i].value)
            == signature_of(other.0@[i].value) by {
            assert(same_located_definition(one.0@[i], other.0@[i]));
            lemma_same_function(Seq::empty(), one.0@[i], other.0@[i]);
        }
    }
    lemma_same_functions(signatures_spec(one.0@), one.0@, other.0@, 0);
}

} // verus!