use webscript_lang::ast::{
    expression_of, AssignOperator, Atom, BinaryOperator, Body, Definition, Expression, Located,
    Module, Parameter, Path, Statement, Type, UnaryOperator,
};
use webscript_lang::compiler::{Compiler, CompilerError, FunctionFrame, WATCompilable};
use webscript_lang::instr::{Instr, Label, ValueDescriptor};
use webscript_lang::lower::Failure;
use webscript_lang::scope::{BindingKind, Signature};
use webscript_lang::structure::is_well_formed;

fn at<T: std::fmt::Debug + Clone>(value: T, start: usize) -> Located<T> {
    Located::new(value, start..start + 1)
}

fn name(text: &str) -> Located<String> {
    at(text.to_string(), 0)
}

fn typ(text: &str) -> Located<Type> {
    at(Type::Ident(text.to_string()), 0)
}

fn param(text: &str, of: &str) -> Located<Parameter> {
    at(Parameter { name: name(text), typ: typ(of) }, 0)
}

fn ident(text: &str) -> Located<Expression> {
    at(Expression::Atom(Atom::Ident(text.to_string())), 7)
}

fn number(value: i64) -> Located<Expression> {
    at(Expression::Atom(Atom::Int(value)), 0)
}

fn binary(
    op: BinaryOperator,
    left: Located<Expression>,
    right: Located<Expression>,
) -> Located<Expression> {
    at(Expression::Binary { op, left: Box::new(left), right: Box::new(right) }, 0)
}

fn path(text: &str) -> Located<Path> {
    at(Path::Ident(text.to_string()), 3)
}

fn let_(text: &str, expr: Located<Expression>) -> Located<Statement> {
    at(Statement::Let { param: param(text, "i64"), expr }, 0)
}

fn assign(
    op: AssignOperator,
    target: Located<Path>,
    expr: Located<Expression>,
) -> Located<Statement> {
    at(Statement::Assign { op, path: target, expr }, 0)
}

fn ret(expr: Located<Expression>) -> Located<Statement> {
    at(Statement::Return(expr), 0)
}

fn block(items: Vec<Located<Statement>>) -> Located<Statement> {
    at(Statement::Block(items), 0)
}

fn function(
    export: bool,
    text: &str,
    params: Vec<Located<Parameter>>,
    result: Option<Located<Type>>,
    body: Vec<Located<Statement>>,
) -> Located<Definition> {
    at(Definition::Fn { export, name: name(text), params, result, body: at(Body(body), 0) }, 0)
}

fn frame() -> FunctionFrame {
    let mut frame = FunctionFrame::new("f".to_string(), false, None, Vec::new());
    frame.enter_scope();
    frame
}

fn frame_with(locals: &[&str]) -> FunctionFrame {
    let mut frame = frame();
    for local in locals {
        let slot = frame.fresh_local(local.to_string(), Type::Ident("i64".to_string())).unwrap();
        frame.bind(local.to_string(), BindingKind::Local(slot));
    }
    frame
}

fn compile(defs: Vec<Located<Definition>>) -> Result<Compiler, Failure> {
    let mut compiler = Compiler::new();
    compiler.compile_module(&Module(defs))?;
    Ok(compiler)
}

fn body_code(body: Vec<Located<Statement>>) -> Result<Vec<Instr>, Failure> {
    let compiler = compile(vec![function(false, "f", vec![], None, body)])?;
    Ok(compiler.func_frames[0].instrs.clone())
}

#[test]
fn add_compiles_to_two_loads_an_add_and_a_return() {
    let add = function(
        true,
        "add",
        vec![param("a", "i32"), param("b", "i32")],
        Some(typ("i32")),
        vec![ret(binary(BinaryOperator::Plus, ident("a"), ident("b")))],
    );
    let compiler = compile(vec![add]).unwrap();
    assert_eq!(compiler.func_frames.len(), 1);
    let frame = &compiler.func_frames[0];
    assert_eq!(frame.name, "add");
    assert!(frame.export);
    assert_eq!(frame.parameter.len(), 2);
    assert_eq!(frame.parameter[0].0, "a");
    assert!(matches!(&frame.parameter[0].1, Type::Ident(t) if t == "i32"));
    assert_eq!(frame.parameter[1].0, "b");
    assert!(matches!(&frame.parameter[1].1, Type::Ident(t) if t == "i32"));
    assert!(matches!(&frame.result, Some(Type::Ident(t)) if t == "i32"));
    assert!(frame.locals.is_empty());
    assert_eq!(
        frame.instrs,
        vec![
            Instr::LocalGet(0),
            Instr::LocalGet(1),
            Instr::Binary(BinaryOperator::Plus),
            Instr::Return
        ]
    );
    assert!(frame.scopes.scopes.is_empty());
    assert!(frame.labels.is_empty());
}

#[test]
fn add_has_the_expected_text() {
    let add = function(
        true,
        "add",
        vec![param("a", "i32"), param("b", "i32")],
        Some(typ("i32")),
        vec![ret(binary(BinaryOperator::Plus, ident("a"), ident("b")))],
    );
    let compiler = compile(vec![add]).unwrap();
    let expected = [
        "(module",
        "  (func $add (export \"add\") (param i32) (param i32) (result i32)",
        "    local.get 0",
        "    local.get 1",
        "    add",
        "    return",
        "  )",
        ")",
        "",
    ]
    .join("\n");
    assert_eq!(compiler.text(), expected);
}

#[test]
fn assignment_to_an_undeclared_name_is_not_found() {
    let f = function(
        false,
        "f",
        vec![],
        None,
        vec![assign(AssignOperator::Equal, path("x"), number(1))],
    );
    let mut compiler = Compiler::new();
    let error = compiler.compile_module(&Module(vec![f])).unwrap_err();
    assert_eq!(error.value, CompilerError::NotFound("x".to_string()));
    assert_eq!(error.loc, 3..4);
    assert!(compiler.func_frames.is_empty());
}

#[test]
fn inner_let_shadows_and_the_outer_binding_returns() {
    let body = vec![block(vec![
        let_("x", number(1)),
        block(vec![let_("x", number(2)), ret(ident("x"))]),
        ret(ident("x")),
    ])];
    assert_eq!(
        body_code(body).unwrap(),
        vec![
            Instr::Int(1),
            Instr::LocalSet(0),
            Instr::Int(2),
            Instr::LocalSet(1),
            Instr::LocalGet(1),
            Instr::Return,
            Instr::LocalGet(0),
            Instr::Return,
        ]
    );
}

#[test]
fn code_after_continue_leaves_the_branch_targets_alone() {
    let with_dead_code = at(
        Statement::While {
            cond: ident("x"),
            body: Box::new(block(vec![
                at(Statement::Continue, 0),
                assign(AssignOperator::Equal, path("x"), number(0)),
            ])),
        },
        0,
    );
    let without = at(
        Statement::While {
            cond: ident("x"),
            body: Box::new(block(vec![at(Statement::Continue, 0)])),
        },
        0,
    );
    let head = vec![
        Instr::Block(Label::Exit(0)),
        Instr::Loop(Label::Continue(0)),
        Instr::LocalGet(0),
        Instr::Unary(UnaryOperator::Not),
        Instr::BrIf(Label::Exit(0)),
        Instr::Br(Label::Continue(0)),
    ];
    let tail = vec![Instr::Br(Label::Continue(0)), Instr::End, Instr::End];
    let dead = vec![Instr::Int(0), Instr::LocalSet(0)];

    let lowered = frame_with(&["x"]).lower_statement(&with_dead_code).unwrap();
    let mut expected = head.clone();
    expected.extend(dead);
    expected.extend(tail.clone());
    assert_eq!(lowered.instrs, expected);
    assert!(lowered.labels.is_empty());

    let lowered = frame_with(&["x"]).lower_statement(&without).unwrap();
    let mut expected = head;
    expected.extend(tail);
    assert_eq!(lowered.instrs, expected);
}

#[test]
fn compiling_twice_gives_the_same_code_and_text() {
    let defs = || {
        vec![function(
            true,
            "f",
            vec![param("n", "i64")],
            Some(typ("i64")),
            vec![
                let_("sum", number(0)),
                at(
                    Statement::While {
                        cond: binary(BinaryOperator::Greater, ident("n"), number(0)),
                        body: Box::new(block(vec![
                            assign(AssignOperator::Plus, path("sum"), ident("n")),
                            assign(AssignOperator::Minus, path("n"), number(1)),
                        ])),
                    },
                    0,
                ),
                ret(ident("sum")),
            ],
        )]
    };
    let first = compile(defs()).unwrap();
    let second = compile(defs()).unwrap();
    assert_eq!(first.func_frames[0].instrs, second.func_frames[0].instrs);
    assert_eq!(first.text(), second.text());
    assert!(!first.func_frames[0].instrs.is_empty());
}

#[test]
fn a_name_is_not_found_after_its_scope() {
    let body = vec![block(vec![let_("x", number(1)), ret(ident("x"))]), ret(ident("x"))];
    let error = body_code(body).unwrap_err();
    assert_eq!(error.value, CompilerError::NotFound("x".to_string()));
    assert_eq!(error.loc, 7..8);
}

#[test]
fn a_name_is_found_in_nested_scopes() {
    let body = vec![
        let_("x", number(1)),
        block(vec![let_("y", number(2)), block(vec![ret(ident("x"))])]),
    ];
    assert_eq!(
        body_code(body).unwrap(),
        vec![
            Instr::Int(1),
            Instr::LocalSet(0),
            Instr::Int(2),
            Instr::LocalSet(1),
            Instr::LocalGet(0),
            Instr::Return
        ]
    );
}

#[test]
fn a_let_in_the_same_scope_shadows() {
    let body = vec![let_("x", number(1)), let_("x", ident("x")), ret(ident("x"))];
    assert_eq!(
        body_code(body).unwrap(),
        vec![
            Instr::Int(1),
            Instr::LocalSet(0),
            Instr::LocalGet(0),
            Instr::LocalSet(1),
            Instr::LocalGet(1),
            Instr::Return
        ]
    );
}

#[test]
fn a_block_leaves_the_scopes_as_they_were() {
    let before = frame_with(&["x"]);
    let scopes = before.scopes.scopes.len();
    let entries = before.scopes.scopes[0].len();
    let after = before
        .lower_statement(&block(vec![let_("x", number(2)), let_("y", number(3))]))
        .unwrap();
    assert_eq!(after.scopes.scopes.len(), scopes);
    assert_eq!(after.scopes.scopes[0].len(), entries);
    assert_eq!(after.scopes.resolve(&"x".to_string()), Ok(BindingKind::Local(0)));
    assert_eq!(
        after.scopes.resolve(&"y".to_string()),
        Err(CompilerError::NotFound("y".to_string()))
    );
    assert_eq!(after.locals.len(), 3);
}

fn plus_as_plain(target: Located<Path>, as_expr: Located<Expression>) -> Located<Statement> {
    assign(AssignOperator::Equal, target, binary(BinaryOperator::Plus, as_expr, number(2)))
}

#[test]
fn compound_assignment_to_a_local_is_the_plain_one() {
    let compound = assign(AssignOperator::Plus, path("x"), number(2));
    let plain = plus_as_plain(path("x"), ident("x"));
    let first = frame_with(&["x"]).lower_statement(&compound).unwrap();
    let second = frame_with(&["x"]).lower_statement(&plain).unwrap();
    assert_eq!(first.instrs, second.instrs);
    assert_eq!(
        first.instrs,
        vec![
            Instr::LocalGet(0),
            Instr::Int(2),
            Instr::Binary(BinaryOperator::Plus),
            Instr::LocalSet(0)
        ]
    );
}

#[test]
fn compound_assignment_to_a_field_is_the_plain_one() {
    let target = || {
        at(Path::Field { head: Box::new(path("x")), field: name("size") }, 0)
    };
    let compound = assign(AssignOperator::Plus, target(), number(2));
    let plain = plus_as_plain(target(), expression_of(&target()));
    let first = frame_with(&["x"]).lower_statement(&compound).unwrap();
    let second = frame_with(&["x"]).lower_statement(&plain).unwrap();
    assert_eq!(first.instrs, second.instrs);
    assert_eq!(
        first.instrs,
        vec![
            Instr::LocalGet(0),
            Instr::LocalGet(0),
            Instr::FieldGet("size".to_string()),
            Instr::Int(2),
            Instr::Binary(BinaryOperator::Plus),
            Instr::FieldSet("size".to_string()),
        ]
    );
}

#[test]
fn compound_assignment_to_an_element_is_the_plain_one() {
    let target = || {
        at(Path::Index { head: Box::new(path("x")), index: Box::new(ident("i")) }, 0)
    };
    let compound = assign(AssignOperator::Plus, target(), number(2));
    let plain = plus_as_plain(target(), expression_of(&target()));
    let first = frame_with(&["x", "i"]).lower_statement(&compound).unwrap();
    let second = frame_with(&["x", "i"]).lower_statement(&plain).unwrap();
    assert_eq!(first.instrs, second.instrs);
    assert_eq!(
        first.instrs,
        vec![
            Instr::LocalGet(0),
            Instr::LocalGet(1),
            Instr::LocalGet(0),
            Instr::LocalGet(1),
            Instr::IndexGet,
            Instr::Int(2),
            Instr::Binary(BinaryOperator::Plus),
            Instr::IndexSet,
        ]
    );
}

#[test]
fn every_compound_operator_applies_its_arithmetic_operator() {
    let pairs = [
        (AssignOperator::Plus, BinaryOperator::Plus),
        (AssignOperator::Minus, BinaryOperator::Minus),
        (AssignOperator::Star, BinaryOperator::Star),
        (AssignOperator::Slash, BinaryOperator::Slash),
        (AssignOperator::Percent, BinaryOperator::Percent),
        (AssignOperator::Exponent, BinaryOperator::Exponent),
    ];
    for (op, operator) in pairs {
        assert_eq!(op.binary(), Some(operator));
        let lowered = frame_with(&["x"])
            .lower_statement(&assign(op, path("x"), number(2)))
            .unwrap();
        assert_eq!(lowered.instrs[2], Instr::Binary(operator));
    }
    assert_eq!(AssignOperator::Equal.binary(), None);
}

#[test]
fn plain_assignment_stores_the_value() {
    let lowered = frame_with(&["x"])
        .lower_statement(&assign(AssignOperator::Equal, path("x"), number(5)))
        .unwrap();
    assert_eq!(lowered.instrs, vec![Instr::Int(5), Instr::LocalSet(0)]);
}

#[test]
fn break_outside_a_loop_fails() {
    let error = frame().lower_statement(&at(Statement::Break, 4)).unwrap_err();
    assert_eq!(error.value, CompilerError::BreakOutsideLoop);
    assert_eq!(error.loc, 4..5);
}

#[test]
fn continue_outside_a_loop_fails() {
    let error = frame().lower_statement(&at(Statement::Continue, 4)).unwrap_err();
    assert_eq!(error.value, CompilerError::ContinueOutsideLoop);
    assert_eq!(error.loc, 4..5);
}

#[test]
fn break_in_a_conditional_outside_a_loop_fails_the_function() {
    let body = vec![at(
        Statement::If {
            cond: number(1),
            case: Box::new(block(vec![])),
            else_case: Some(Box::new(block(vec![at(Statement::Break, 9)]))),
        },
        0,
    )];
    let error = body_code(body).unwrap_err();
    assert_eq!(error.value, CompilerError::BreakOutsideLoop);
    assert_eq!(error.loc, 9..10);
}

#[test]
fn break_and_continue_in_nested_loops_target_the_innermost() {
    let inner = at(
        Statement::While {
            cond: number(1),
            body: Box::new(block(vec![at(Statement::Break, 0), at(Statement::Continue, 0)])),
        },
        0,
    );
    let outer = at(
        Statement::While {
            cond: number(1),
            body: Box::new(block(vec![inner, at(Statement::Break, 0)])),
        },
        0,
    );
    let lowered = frame().lower_statement(&outer).unwrap();
    assert_eq!(
        lowered.instrs,
        vec![
            Instr::Block(Label::Exit(0)),
            Instr::Loop(Label::Continue(0)),
            Instr::Int(1),
            Instr::Unary(UnaryOperator::Not),
            Instr::BrIf(Label::Exit(0)),
            Instr::Block(Label::Exit(1)),
            Instr::Loop(Label::Continue(1)),
            Instr::Int(1),
            Instr::Unary(UnaryOperator::Not),
            Instr::BrIf(Label::Exit(1)),
            Instr::Br(Label::Exit(1)),
            Instr::Br(Label::Continue(1)),
            Instr::Br(Label::Continue(1)),
            Instr::End,
            Instr::End,
            Instr::Br(Label::Exit(0)),
            Instr::Br(Label::Continue(0)),
            Instr::End,
            Instr::End,
        ]
    );
}

#[test]
fn sibling_loops_share_their_labels() {
    let one = || at(Statement::While { cond: number(1), body: Box::new(block(vec![])) }, 0);
    let lowered = frame().lower_statements(&vec![one(), one()]).unwrap();
    assert_eq!(lowered.instrs[0], Instr::Block(Label::Exit(0)));
    assert_eq!(lowered.instrs[8], Instr::Block(Label::Exit(0)));
    assert_eq!(lowered.instrs.len(), 16);
}

#[test]
fn too_many_locals_fail() {
    let mut body = Vec::new();
    for _ in 0..65536 {
        body.push(let_("x", number(0)));
    }
    let full = compile(vec![function(false, "f", vec![], None, body.clone())]).unwrap();
    assert_eq!(full.func_frames[0].locals.len(), 65536);
    assert_eq!(full.func_frames[0].instrs[2 * 65535 + 1], Instr::LocalSet(65535));

    let last = at(Parameter { name: name("y"), typ: typ("i64") }, 11);
    body.push(at(Statement::Let { param: last, expr: number(0) }, 0));
    let error = compile(vec![function(false, "f", vec![], None, body)]).unwrap_err();
    assert_eq!(error.value, CompilerError::TooManyLocals);
    assert_eq!(error.loc, 11..12);
}

#[test]
fn too_many_parameters_fail() {
    let mut params = Vec::new();
    for _ in 0..65536 {
        params.push(param("p", "i64"));
    }
    params.push(at(Parameter { name: name("q"), typ: typ("i64") }, 13));
    let error = compile(vec![function(false, "f", params, None, vec![])]).unwrap_err();
    assert_eq!(error.value, CompilerError::TooManyLocals);
    assert_eq!(error.loc, 13..14);
}

#[test]
fn parameters_and_locals_share_the_slots() {
    let f = function(
        false,
        "f",
        vec![param("a", "i64"), param("b", "i64")],
        None,
        vec![let_("c", ident("b")), ret(ident("c"))],
    );
    let compiler = compile(vec![f]).unwrap();
    assert_eq!(
        compiler.func_frames[0].instrs,
        vec![Instr::LocalGet(1), Instr::LocalSet(2), Instr::LocalGet(2), Instr::Return]
    );
    assert_eq!(compiler.func_frames[0].locals.len(), 1);
    assert_eq!(compiler.func_frames[0].locals[0].0, "c");
}

#[test]
fn a_later_parameter_of_the_same_name_shadows() {
    let f = function(
        false,
        "f",
        vec![param("a", "i64"), param("a", "i64")],
        None,
        vec![ret(ident("a"))],
    );
    let compiler = compile(vec![f]).unwrap();
    assert_eq!(compiler.func_frames[0].instrs, vec![Instr::LocalGet(1), Instr::Return]);
}

fn call_statement(callee: &str, args: Vec<Located<Expression>>) -> Located<Statement> {
    at(Statement::Call { path: path(callee), args }, 0)
}

#[test]
fn a_call_of_a_function_with_a_result_drops_it() {
    let g = function(false, "g", vec![param("a", "i64")], Some(typ("i64")), vec![ret(ident("a"))]);
    let f = function(false, "f", vec![], None, vec![call_statement("g", vec![number(1)])]);
    let compiler = compile(vec![f, g]).unwrap();
    assert_eq!(
        compiler.func_frames[0].instrs,
        vec![Instr::Int(1), Instr::Call("g".to_string()), Instr::Drop]
    );
    assert_eq!(compiler.func_frames[1].name, "g");
}

#[test]
fn a_call_of_a_function_without_a_result_drops_nothing() {
    let g = function(false, "g", vec![], None, vec![]);
    let call = call_statement("g", vec![number(1), number(2)]);
    let f = function(false, "f", vec![], None, vec![call]);
    let compiler = compile(vec![g, f]).unwrap();
    assert_eq!(
        compiler.func_frames[1].instrs,
        vec![Instr::Int(1), Instr::Int(2), Instr::Call("g".to_string())]
    );
}

#[test]
fn a_call_through_a_local_is_indirect() {
    let lowered = frame_with(&["h"])
        .lower_statement(&call_statement("h", vec![number(1), number(2)]))
        .unwrap();
    assert_eq!(
        lowered.instrs,
        vec![
            Instr::LocalGet(0),
            Instr::Int(1),
            Instr::Int(2),
            Instr::CallIndirect(2),
            Instr::Drop
        ]
    );
}

#[test]
fn a_call_of_an_unknown_name_is_not_found() {
    let error = frame()
        .lower_statement(&call_statement("nothing", vec![ident("also_nothing")]))
        .unwrap_err();
    assert_eq!(error.value, CompilerError::NotFound("nothing".to_string()));
    assert_eq!(error.loc, 3..4);
}

#[test]
fn a_call_in_an_expression_leaves_its_result() {
    let functions = vec![Signature { name: "g".to_string(), has_result: true }];
    let mut frame = FunctionFrame::new("f".to_string(), false, None, functions);
    frame.enter_scope();
    let call = at(Expression::Call { head: Box::new(ident("g")), args: vec![number(3)] }, 0);
    let lowered = frame.lower_expression(&call).unwrap();
    assert_eq!(lowered.instrs, vec![Instr::Int(3), Instr::Call("g".to_string())]);
}

#[test]
fn a_local_shadows_a_function() {
    let functions = vec![Signature { name: "g".to_string(), has_result: true }];
    let mut frame = FunctionFrame::new("f".to_string(), false, None, functions);
    frame.enter_scope();
    let lowered = frame.lower_expression(&ident("g")).unwrap();
    assert_eq!(lowered.instrs, vec![Instr::GlobalGet("g".to_string())]);
    let lowered = lowered.lower_statement(&let_("g", number(1))).unwrap();
    let call = at(Expression::Call { head: Box::new(ident("g")), args: vec![] }, 0);
    let lowered = lowered.lower_expression(&call).unwrap();
    assert_eq!(
        lowered.instrs[3..],
        [Instr::LocalGet(0), Instr::CallIndirect(0)]
    );
}

#[test]
fn the_first_of_two_functions_of_a_name_counts() {
    let first = function(false, "g", vec![], Some(typ("i64")), vec![ret(number(1))]);
    let second = function(false, "g", vec![], None, vec![]);
    let f = function(false, "f", vec![], None, vec![call_statement("g", vec![])]);
    let compiler = compile(vec![first, second, f]).unwrap();
    assert_eq!(
        compiler.func_frames[2].instrs,
        vec![Instr::Call("g".to_string()), Instr::Drop]
    );
}

#[test]
fn a_conditional_lowers_both_branches() {
    let stmt = at(
        Statement::If {
            cond: ident("x"),
            case: Box::new(ret(number(1))),
            else_case: Some(Box::new(ret(number(2)))),
        },
        0,
    );
    let lowered = frame_with(&["x"]).lower_statement(&stmt).unwrap();
    assert_eq!(
        lowered.instrs,
        vec![
            Instr::LocalGet(0),
            Instr::If,
            Instr::Int(1),
            Instr::Return,
            Instr::Else,
            Instr::Int(2),
            Instr::Return,
            Instr::End,
        ]
    );
}

#[test]
fn a_conditional_without_else_ends_after_its_branch() {
    let stmt = at(
        Statement::If { cond: ident("x"), case: Box::new(ret(number(1))), else_case: None },
        0,
    );
    let lowered = frame_with(&["x"]).lower_statement(&stmt).unwrap();
    assert_eq!(
        lowered.instrs,
        vec![Instr::LocalGet(0), Instr::If, Instr::Int(1), Instr::Return, Instr::End]
    );
}

#[test]
fn if_some_binds_its_parameter_in_the_taken_branch_only() {
    let stmt = |else_case: Located<Statement>| {
        at(
            Statement::IfSome {
                param: param("v", "i64"),
                expr: ident("x"),
                case: Box::new(ret(ident("v"))),
                else_case: Some(Box::new(else_case)),
            },
            0,
        )
    };
    let lowered = frame_with(&["x"]).lower_statement(&stmt(ret(number(0)))).unwrap();
    assert_eq!(
        lowered.instrs,
        vec![
            Instr::LocalGet(0),
            Instr::LocalSet(1),
            Instr::LocalGet(1),
            Instr::IsSome,
            Instr::If,
            Instr::LocalGet(1),
            Instr::Unwrap,
            Instr::LocalSet(1),
            Instr::LocalGet(1),
            Instr::Return,
            Instr::Else,
            Instr::Int(0),
            Instr::Return,
            Instr::End,
        ]
    );
    let error = frame_with(&["x"]).lower_statement(&stmt(ret(ident("v")))).unwrap_err();
    assert_eq!(error.value, CompilerError::NotFound("v".to_string()));
}

#[test]
fn while_some_tests_its_expression_each_time_round() {
    let stmt = at(
        Statement::WhileSome {
            param: param("v", "i64"),
            expr: ident("x"),
            body: Box::new(assign(AssignOperator::Equal, path("x"), ident("v"))),
        },
        0,
    );
    let lowered = frame_with(&["x"]).lower_statement(&stmt).unwrap();
    assert_eq!(
        lowered.instrs,
        vec![
            Instr::Block(Label::Exit(0)),
            Instr::Loop(Label::Continue(0)),
            Instr::LocalGet(0),
            Instr::LocalSet(1),
            Instr::LocalGet(1),
            Instr::IsSome,
            Instr::Unary(UnaryOperator::Not),
            Instr::BrIf(Label::Exit(0)),
            Instr::LocalGet(1),
            Instr::Unwrap,
            Instr::LocalSet(1),
            Instr::LocalGet(1),
            Instr::LocalSet(0),
            Instr::Br(Label::Continue(0)),
            Instr::End,
            Instr::End,
        ]
    );
    assert_eq!(
        lowered.scopes.resolve(&"v".to_string()),
        Err(CompilerError::NotFound("v".to_string()))
    );
}

#[test]
fn for_advances_a_cursor() {
    let stmt = at(
        Statement::For {
            param: param("v", "i64"),
            iter: ident("x"),
            body: Box::new(block(vec![at(Statement::Break, 0)])),
        },
        0,
    );
    let lowered = frame_with(&["x"]).lower_statement(&stmt).unwrap();
    assert_eq!(
        lowered.instrs,
        vec![
            Instr::LocalGet(0),
            Instr::Iter,
            Instr::LocalSet(1),
            Instr::Block(Label::Exit(0)),
            Instr::Loop(Label::Continue(0)),
            Instr::LocalGet(1),
            Instr::Next,
            Instr::LocalSet(2),
            Instr::LocalGet(2),
            Instr::IsSome,
            Instr::Unary(UnaryOperator::Not),
            Instr::BrIf(Label::Exit(0)),
            Instr::LocalGet(2),
            Instr::Unwrap,
            Instr::LocalSet(2),
            Instr::Br(Label::Exit(0)),
            Instr::Br(Label::Continue(0)),
            Instr::End,
            Instr::End,
        ]
    );
    assert_eq!(lowered.locals.len(), 3);
}

#[test]
fn atoms_push_their_values() {
    let atoms = vec![
        (Atom::Null, Instr::Null),
        (Atom::Int(-3), Instr::Int(-3)),
        (Atom::Float(1.5f64.to_bits()), Instr::Float(0x3ff8000000000000)),
        (Atom::Bool(true), Instr::Bool(true)),
        (Atom::Char('c'), Instr::Char('c')),
        (Atom::String("s".to_string()), Instr::Text("s".to_string())),
    ];
    for (atom, instr) in atoms {
        let lowered = frame().lower_atom(&atom, &(0..1)).unwrap();
        assert_eq!(lowered.instrs, vec![instr]);
    }
}

#[test]
fn aggregates_evaluate_their_elements_in_order() {
    let tuple = Atom::Tuple(vec![number(1), number(2)]);
    assert_eq!(
        frame().lower_atom(&tuple, &(0..1)).unwrap().instrs,
        vec![Instr::Int(1), Instr::Int(2), Instr::Tuple(2)]
    );
    let vector = Atom::Vector(vec![number(1), number(2), number(3)]);
    assert_eq!(
        frame().lower_atom(&vector, &(0..1)).unwrap().instrs,
        vec![Instr::Int(1), Instr::Int(2), Instr::Int(3), Instr::Vector(3)]
    );
    let object = Atom::Object(vec![(name("a"), number(1)), (name("b"), number(2))]);
    assert_eq!(
        frame().lower_atom(&object, &(0..1)).unwrap().instrs,
        vec![
            Instr::Text("a".to_string()),
            Instr::Int(1),
            Instr::Text("b".to_string()),
            Instr::Int(2),
            Instr::Object(2)
        ]
    );
    let nested = Atom::Expression(Box::new(number(4)));
    assert_eq!(frame().lower_atom(&nested, &(0..1)).unwrap().instrs, vec![Instr::Int(4)]);
}

#[test]
fn operators_follow_their_operands() {
    let sum = binary(BinaryOperator::Less, number(1), number(2));
    assert_eq!(
        frame().lower_expression(&sum).unwrap().instrs,
        vec![Instr::Int(1), Instr::Int(2), Instr::Binary(BinaryOperator::Less)]
    );
    let then = binary(BinaryOperator::Then, number(1), number(2));
    assert_eq!(
        frame().lower_expression(&then).unwrap().instrs,
        vec![Instr::Int(1), Instr::Drop, Instr::Int(2)]
    );
    let not = at(Expression::Unary { op: UnaryOperator::Not, right: Box::new(number(1)) }, 0);
    assert_eq!(
        frame().lower_expression(&not).unwrap().instrs,
        vec![Instr::Int(1), Instr::Unary(UnaryOperator::Not)]
    );
}

#[test]
fn the_first_unresolved_name_is_reported() {
    let sum = binary(
        BinaryOperator::Plus,
        at(Expression::Atom(Atom::Ident("a".to_string())), 20),
        at(Expression::Atom(Atom::Ident("b".to_string())), 30),
    );
    let error = frame().lower_expression(&sum).unwrap_err();
    assert_eq!(error.value, CompilerError::NotFound("a".to_string()));
    assert_eq!(error.loc, 20..21);
}

#[test]
fn a_path_gives_its_address_and_place() {
    let (lowered, place) = frame_with(&["x"]).lower_path(&path("x")).unwrap();
    assert!(lowered.instrs.is_empty());
    assert_eq!(place, ValueDescriptor::Slot(0));
    assert_eq!(place.load(), Instr::LocalGet(0));
    assert_eq!(place.store(), Instr::LocalSet(0));

    let field = at(Path::Field { head: Box::new(path("x")), field: name("size") }, 0);
    let (lowered, place) = frame_with(&["x"]).lower_path(&field).unwrap();
    assert_eq!(lowered.instrs, vec![Instr::LocalGet(0)]);
    assert_eq!(place, ValueDescriptor::Field("size".to_string()));

    let element = at(Path::Index { head: Box::new(path("x")), index: Box::new(number(3)) }, 0);
    let (lowered, place) = frame_with(&["x"]).lower_path(&element).unwrap();
    assert_eq!(lowered.instrs, vec![Instr::LocalGet(0), Instr::Int(3)]);
    assert_eq!(place, ValueDescriptor::Element);
    assert_eq!(place.load(), Instr::IndexGet);
    assert_eq!(place.store(), Instr::IndexSet);
}

#[test]
fn a_failing_function_leaves_no_part_of_the_module() {
    let good = function(false, "good", vec![], None, vec![ret(number(1))]);
    let bad = function(false, "bad", vec![], None, vec![ret(ident("nothing"))]);
    let mut compiler = Compiler::new();
    compiler.compile_module(&Module(vec![good.clone()])).unwrap();
    assert_eq!(compiler.func_frames.len(), 1);
    let error = compiler.compile_module(&Module(vec![good, bad])).unwrap_err();
    assert_eq!(error.value, CompilerError::NotFound("nothing".to_string()));
    assert_eq!(compiler.func_frames.len(), 1);
}

#[test]
fn a_module_compiles_through_the_trait() {
    let module = Module(vec![function(false, "f", vec![], None, vec![ret(number(1))])]);
    let mut compiler = Compiler::new();
    module.compile(&mut compiler).unwrap();
    assert_eq!(compiler.func_frames[0].instrs, vec![Instr::Int(1), Instr::Return]);
}

#[test]
fn located_keeps_value_and_range() {
    let node = Located::new(5u8, 2..9);
    assert_eq!(node.value, 5);
    assert_eq!(node.loc, 2..9);
    assert_eq!(node.span(), 2..9);
    let copy = node.clone();
    assert_eq!(copy.value, 5);
    assert_eq!(copy.loc, 2..9);
    assert!(node.within(9));
    assert!(node.within(100));
    assert!(!node.within(8));
    assert!(!Located::new(5u8, 3..3).within(9));
    assert!(!Located::new(5u8, 4..3).within(9));
}

#[test]
fn a_cloned_program_compiles_alike() {
    let defs = vec![function(
        true,
        "f",
        vec![param("n", "i64")],
        None,
        vec![
            let_("t", at(Expression::Atom(Atom::Tuple(vec![ident("n"), number(1)])), 0)),
            at(
                Statement::For {
                    param: param("v", "i64"),
                    iter: ident("t"),
                    body: Box::new(block(vec![call_statement("f", vec![ident("v")])])),
                },
                0,
            ),
        ],
    )];
    let module = Module(defs);
    let copy = module.clone();
    let mut first = Compiler::new();
    first.compile_module(&module).unwrap();
    let mut second = Compiler::new();
    second.compile_module(&copy).unwrap();
    assert_eq!(first.text(), second.text());
}

fn slots(frame: &FunctionFrame) -> usize {
    frame.parameter.len() + frame.locals.len()
}

#[test]
fn compiled_code_is_well_formed() {
    let loops = at(
        Statement::While {
            cond: ident("n"),
            body: Box::new(block(vec![
                at(
                    Statement::For {
                        param: param("v", "i64"),
                        iter: ident("n"),
                        body: Box::new(block(vec![
                            at(
                                Statement::IfSome {
                                    param: param("w", "i64"),
                                    expr: ident("v"),
                                    case: Box::new(at(Statement::Continue, 0)),
                                    else_case: Some(Box::new(at(Statement::Break, 0))),
                                },
                                0,
                            ),
                            assign(AssignOperator::Plus, path("n"), ident("v")),
                        ])),
                    },
                    0,
                ),
                at(
                    Statement::WhileSome {
                        param: param("u", "i64"),
                        expr: ident("n"),
                        body: Box::new(at(Statement::Break, 0)),
                    },
                    0,
                ),
                at(Statement::Continue, 0),
                ret(ident("n")),
            ])),
        },
        0,
    );
    let f = function(false, "f", vec![param("n", "i64")], None, vec![loops]);
    let compiler = compile(vec![f]).unwrap();
    let frame = &compiler.func_frames[0];
    assert_eq!(slots(frame), 5);
    assert!(is_well_formed(&frame.instrs, slots(frame)));
    assert!(!is_well_formed(&frame.instrs, slots(frame) - 1));
    let mut cut = frame.instrs.clone();
    cut.pop();
    assert!(!is_well_formed(&cut, slots(frame)));
}

#[test]
fn a_path_reads_as_an_expression() {
    let target = at(
        Path::Index {
            head: Box::new(at(Path::Field { head: Box::new(path("x")), field: name("items") }, 5)),
            index: Box::new(number(2)),
        },
        9,
    );
    let read = expression_of(&target);
    assert_eq!(read.loc, 9..10);
    let Expression::Index { head, index } = &read.value else {
        panic!("an index path reads as an index expression");
    };
    assert!(matches!(&index.value, Expression::Atom(Atom::Int(2))));
    assert_eq!(head.loc, 5..6);
    let Expression::Field { head, field } = &head.value else {
        panic!("a field path reads as a field expression");
    };
    assert_eq!(field.value, "items");
    assert_eq!(head.loc, 3..4);
    assert!(matches!(&head.value, Expression::Atom(Atom::Ident(x)) if x == "x"));

    let by_path = frame_with(&["x"]).lower_path_value(&target).unwrap();
    let by_expression = frame_with(&["x"]).lower_expression(&read).unwrap();
    assert_eq!(by_path.instrs, by_expression.instrs);
    assert_eq!(
        by_path.instrs,
        vec![
            Instr::LocalGet(0),
            Instr::FieldGet("items".to_string()),
            Instr::Int(2),
            Instr::IndexGet
        ]
    );
}

#[test]
fn nodes_are_equal_where_their_values_are() {
    assert!(Located::new(5u8, 0..1) == Located::new(5u8, 7..9));
    assert!(Located::new(5u8, 0..1) != Located::new(6u8, 0..1));
    let here = at(Expression::Atom(Atom::Ident("x".to_string())), 0);
    let there = at(Expression::Atom(Atom::Ident("x".to_string())), 40);
    assert!(here == there);
    let sum = |of: Located<Expression>| binary(BinaryOperator::Plus, of, number(1));
    assert!(sum(here) == sum(there));
    assert!(ident("x") != ident("y"));
    assert!(block(vec![ret(number(1))]) != block(vec![ret(number(2))]));
}

#[test]
fn a_copy_is_the_same_tree() {
    let stmt = at(
        Statement::IfSome {
            param: param("v", "i64"),
            expr: at(Expression::Atom(Atom::Object(vec![(name("a"), number(1))])), 0),
            case: Box::new(block(vec![call_statement("f", vec![ident("v"), number(2)])])),
            else_case: Some(Box::new(assign(
                AssignOperator::Star,
                at(Path::Index { head: Box::new(path("x")), index: Box::new(number(0)) }, 0),
                at(Expression::Atom(Atom::Vector(vec![number(1), number(2)])), 0),
            ))),
        },
        21,
    );
    let copy = stmt.clone();
    assert!(copy == stmt);
    assert_eq!(copy.loc, 21..22);
    let f = function(true, "f", vec![param("a", "i64")], Some(typ("i64")), vec![stmt]);
    let module = Module(vec![f]);
    assert!(module.clone() == module);
}
