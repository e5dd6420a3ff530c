use webscript_lang::ast::{BinaryOperator, Located, Type, UnaryOperator};
use webscript_lang::compiler::{CompilerError, FunctionFrame};
use webscript_lang::instr::{Instr, Label};
use webscript_lang::scope::{BindingKind, ScopeTable, Signature};
use webscript_lang::structure::{has_target, is_well_formed, take_step, Open};
use webscript_lang::text::{push_decimal, push_instr, push_signed_decimal, push_type};

fn table() -> ScopeTable {
    ScopeTable::new(vec![
        Signature { name: "f".to_string(), has_result: true },
        Signature { name: "g".to_string(), has_result: false },
        Signature { name: "f".to_string(), has_result: false },
    ])
}

fn key(text: &str) -> String {
    text.to_string()
}

#[test]
fn an_unbound_name_is_not_found() {
    assert_eq!(table().resolve(&key("x")), Err(CompilerError::NotFound(key("x"))));
}

#[test]
fn a_function_name_resolves_to_the_function() {
    assert_eq!(table().resolve(&key("g")), Ok(BindingKind::Function(key("g"))));
    assert!(table().has_result(&key("f")));
    assert!(!table().has_result(&key("g")));
    assert!(!table().has_result(&key("x")));
}

#[test]
fn a_bound_name_resolves_to_its_latest_binding() {
    let mut table = table();
    table.enter_scope();
    table.bind(key("x"), BindingKind::Parameter(0));
    assert_eq!(table.resolve(&key("x")), Ok(BindingKind::Parameter(0)));
    table.bind(key("x"), BindingKind::Local(1));
    assert_eq!(table.resolve(&key("x")), Ok(BindingKind::Local(1)));
    table.bind(key("y"), BindingKind::Local(2));
    assert_eq!(table.resolve(&key("x")), Ok(BindingKind::Local(1)));
    assert_eq!(table.resolve(&key("y")), Ok(BindingKind::Local(2)));
}

#[test]
fn an_inner_binding_shadows_until_its_scope_ends() {
    let mut table = table();
    table.enter_scope();
    table.bind(key("x"), BindingKind::Local(0));
    table.enter_scope();
    assert_eq!(table.resolve(&key("x")), Ok(BindingKind::Local(0)));
    table.bind(key("x"), BindingKind::Local(1));
    table.bind(key("f"), BindingKind::Local(2));
    assert_eq!(table.resolve(&key("x")), Ok(BindingKind::Local(1)));
    assert_eq!(table.resolve(&key("f")), Ok(BindingKind::Local(2)));
    table.exit_scope();
    assert_eq!(table.resolve(&key("x")), Ok(BindingKind::Local(0)));
    assert_eq!(table.resolve(&key("f")), Ok(BindingKind::Function(key("f"))));
    table.exit_scope();
    assert_eq!(table.resolve(&key("x")), Err(CompilerError::NotFound(key("x"))));
}

#[test]
fn leaving_with_no_scope_open_changes_nothing() {
    let mut table = table();
    table.exit_scope();
    assert!(table.scopes.is_empty());
    assert_eq!(table.functions.len(), 3);
}

#[test]
fn binding_with_no_scope_open_opens_one() {
    let mut table = table();
    table.bind(key("x"), BindingKind::Local(7));
    assert_eq!(table.scopes.len(), 1);
    assert_eq!(table.resolve(&key("x")), Ok(BindingKind::Local(7)));
}

#[test]
fn a_copied_table_resolves_alike() {
    let mut table = table();
    table.enter_scope();
    table.bind(key("x"), BindingKind::Local(3));
    let copy = table.clone();
    assert_eq!(copy.resolve(&key("x")), Ok(BindingKind::Local(3)));
    assert_eq!(copy.resolve(&key("g")), Ok(BindingKind::Function(key("g"))));
    assert_eq!(copy.scopes.len(), 1);
}

#[test]
fn fresh_locals_take_the_next_slots() {
    let mut frame = FunctionFrame::new(key("f"), false, None, Vec::new());
    frame.enter_scope();
    assert_eq!(frame.add_parameter(key("a"), Type::Ident(key("i64"))), Ok(()));
    assert_eq!(frame.fresh_local(key("b"), Type::Ident(key("i64"))), Ok(1));
    assert_eq!(frame.fresh_local(key("b"), Type::Ident(key("i64"))), Ok(2));
    assert_eq!(frame.scopes.resolve(&key("a")), Ok(BindingKind::Parameter(0)));
    assert_eq!(frame.scopes.resolve(&key("b")), Err(CompilerError::NotFound(key("b"))));
    assert_eq!(frame.locals.len(), 2);
    assert_eq!(frame.parameter.len(), 1);
}

#[test]
fn the_last_slot_is_the_limit() {
    let mut frame = FunctionFrame::new(key("f"), false, None, Vec::new());
    for slot in 0..65536u32 {
        assert_eq!(frame.fresh_local(key("x"), Type::Ident(key("i64"))), Ok(slot as u16));
    }
    assert_eq!(
        frame.fresh_local(key("x"), Type::Ident(key("i64"))),
        Err(CompilerError::TooManyLocals)
    );
    assert_eq!(
        frame.add_parameter(key("x"), Type::Ident(key("i64"))),
        Err(CompilerError::TooManyLocals)
    );
    assert_eq!(frame.locals.len(), 65536);
}

#[test]
fn emit_appends() {
    let mut frame = FunctionFrame::new(key("f"), false, None, Vec::new());
    frame.emit(Instr::Int(1));
    frame.emit(Instr::Drop);
    assert_eq!(frame.instrs, vec![Instr::Int(1), Instr::Drop]);
}

#[test]
fn loops_are_numbered_by_their_depth() {
    let mut frame = FunctionFrame::new(key("f"), false, None, Vec::new());
    assert_eq!(frame.loop_labels(), (Label::Exit(0), Label::Continue(0)));
    assert_eq!(frame.enter_loop(), (Label::Exit(0), Label::Continue(0)));
    assert_eq!(frame.enter_loop(), (Label::Exit(1), Label::Continue(1)));
    frame.exit_loop();
    assert_eq!(frame.labels, vec![(Label::Exit(0), Label::Continue(0))]);
    frame.exit_loop();
    frame.exit_loop();
    assert!(frame.labels.is_empty());
}

#[test]
fn messages_name_the_error() {
    assert_eq!(CompilerError::NotFound(key("x")).message(), "can't find \"x\"");
    assert_eq!(CompilerError::NotFound(key("a\"b")).message(), "can't find \"a\\\"b\"");
    assert_eq!(CompilerError::BreakOutsideLoop.message(), "break outside of a loop");
    assert_eq!(CompilerError::ContinueOutsideLoop.message(), "continue outside of a loop");
    assert_eq!(CompilerError::TooManyLocals.message(), "too many parameters and locals");
    assert_eq!(CompilerError::not_found_message(&key("<x>")), "can't find <x>");
}

fn decimal(n: u64) -> String {
    let mut out = String::new();
    push_decimal(&mut out, n);
    out
}

fn signed(n: i64) -> String {
    let mut out = key("=");
    push_signed_decimal(&mut out, n);
    out
}

#[test]
fn decimals_have_no_leading_zeros() {
    assert_eq!(decimal(0), "0");
    assert_eq!(decimal(7), "7");
    assert_eq!(decimal(10), "10");
    assert_eq!(decimal(1234567890), "1234567890");
    assert_eq!(decimal(u64::MAX), "18446744073709551615");
}

#[test]
fn signed_decimals_carry_their_sign() {
    assert_eq!(signed(0), "=0");
    assert_eq!(signed(42), "=42");
    assert_eq!(signed(-1), "=-1");
    assert_eq!(signed(i64::MAX), "=9223372036854775807");
    assert_eq!(signed(i64::MIN), "=-9223372036854775808");
}

fn line(instr: Instr) -> String {
    let mut out = String::new();
    push_instr(&mut out, &instr);
    out
}

#[test]
fn instructions_have_their_text() {
    assert_eq!(line(Instr::Null), "ref.null");
    assert_eq!(line(Instr::Int(-5)), "i64.const -5");
    assert_eq!(
        line(Instr::Float(1.0f64.to_bits())),
        "(f64.reinterpret_i64 (i64.const 4607182418800017408))"
    );
    assert_eq!(line(Instr::Bool(true)), "i32.const 1");
    assert_eq!(line(Instr::Bool(false)), "i32.const 0");
    assert_eq!(line(Instr::Char('A')), "i32.const 65");
    assert_eq!(line(Instr::Text(key("a\nb"))), "string.const \"a\\nb\"");
    assert_eq!(line(Instr::LocalGet(65535)), "local.get 65535");
    assert_eq!(line(Instr::LocalSet(3)), "local.set 3");
    assert_eq!(line(Instr::GlobalGet(key("g"))), "global.get $g");
    assert_eq!(line(Instr::GlobalSet(key("g"))), "global.set $g");
    assert_eq!(line(Instr::FieldGet(key("size"))), "struct.get $size");
    assert_eq!(line(Instr::FieldSet(key("size"))), "struct.set $size");
    assert_eq!(line(Instr::IndexGet), "array.get");
    assert_eq!(line(Instr::IndexSet), "array.set");
    assert_eq!(line(Instr::Tuple(2)), "tuple.make 2");
    assert_eq!(line(Instr::Vector(3)), "array.new_fixed 3");
    assert_eq!(line(Instr::Object(4)), "struct.new 4");
    assert_eq!(line(Instr::Call(key("f"))), "call $f");
    assert_eq!(line(Instr::CallIndirect(2)), "call_indirect 2");
    assert_eq!(line(Instr::Drop), "drop");
    assert_eq!(line(Instr::IsSome), "option.is_some");
    assert_eq!(line(Instr::Unwrap), "option.unwrap");
    assert_eq!(line(Instr::Iter), "iter.new");
    assert_eq!(line(Instr::Next), "iter.next");
    assert_eq!(line(Instr::Block(Label::Exit(0))), "block $exit0");
    assert_eq!(line(Instr::Loop(Label::Continue(12))), "loop $continue12");
    assert_eq!(line(Instr::If), "if");
    assert_eq!(line(Instr::Else), "else");
    assert_eq!(line(Instr::End), "end");
    assert_eq!(line(Instr::Br(Label::Continue(1))), "br $continue1");
    assert_eq!(line(Instr::BrIf(Label::Exit(1))), "br_if $exit1");
    assert_eq!(line(Instr::Return), "return");
}

#[test]
fn operators_have_their_mnemonics() {
    let names = [
        (BinaryOperator::Then, "then"),
        (BinaryOperator::And, "and"),
        (BinaryOperator::Or, "or"),
        (BinaryOperator::EqualEqual, "eq"),
        (BinaryOperator::ExclamationEqual, "ne"),
        (BinaryOperator::Less, "lt"),
        (BinaryOperator::Greater, "gt"),
        (BinaryOperator::LessEqual, "le"),
        (BinaryOperator::GreaterEqual, "ge"),
        (BinaryOperator::Plus, "add"),
        (BinaryOperator::Minus, "sub"),
        (BinaryOperator::Star, "mul"),
        (BinaryOperator::Slash, "div"),
        (BinaryOperator::Percent, "rem"),
        (BinaryOperator::Exponent, "pow"),
    ];
    for (op, name) in names {
        assert_eq!(line(Instr::Binary(op)), name);
    }
    assert_eq!(line(Instr::Unary(UnaryOperator::Minus)), "neg");
    assert_eq!(line(Instr::Unary(UnaryOperator::Not)), "not");
}

fn boxed(typ: Type) -> Box<Located<Type>> {
    Box::new(Located::new(typ, 0..1))
}

#[test]
fn types_have_their_text() {
    let text = |typ: &Type| {
        let mut out = String::new();
        push_type(&mut out, typ);
        out
    };
    let int = Type::Ident(key("i64"));
    assert_eq!(text(&int), "i64");
    let list = Type::Generic { head: boxed(Type::Ident(key("List"))), sub: boxed(int.clone()) };
    assert_eq!(text(&list), "List<i64>");
    let fixed = Type::Array { head: boxed(list.clone()), size: Some(4) };
    assert_eq!(text(&fixed), "List<i64>[4]");
    let open = Type::Array { head: boxed(int), size: None };
    assert_eq!(text(&open), "i64[]");
}

#[test]
fn a_function_has_its_text() {
    let mut frame = FunctionFrame::new(key("f"), false, Some(Type::Ident(key("i64"))), Vec::new());
    frame.add_parameter(key("a"), Type::Ident(key("i64"))).unwrap();
    frame.fresh_local(key("b"), Type::Ident(key("bool"))).unwrap();
    frame.emit(Instr::LocalGet(0));
    frame.emit(Instr::Return);
    let mut out = String::new();
    frame.push_text(&mut out);
    assert_eq!(
        out,
        "  (func $f (param i64) (result i64)\n    (local bool)\n    local.get 0\n    return\n  )\n"
    );
}

#[test]
fn well_formed_code_closes_what_it_opens() {
    let exit = Label::Exit(0);
    let next = Label::Continue(0);
    let good = vec![
        Instr::Block(exit),
        Instr::Loop(next),
        Instr::LocalGet(0),
        Instr::BrIf(exit),
        Instr::If,
        Instr::Br(next),
        Instr::Else,
        Instr::Br(exit),
        Instr::End,
        Instr::Br(next),
        Instr::End,
        Instr::End,
        Instr::Return,
    ];
    assert!(is_well_formed(&good, 1));
    assert!(!is_well_formed(&good, 0));
    assert!(is_well_formed(&Vec::new(), 0));
    assert!(!is_well_formed(&vec![Instr::End], 0));
    assert!(!is_well_formed(&vec![Instr::Block(exit)], 0));
    assert!(!is_well_formed(&vec![Instr::Br(exit)], 0));
    assert!(!is_well_formed(&vec![Instr::Block(exit), Instr::Br(next), Instr::End], 0));
    assert!(!is_well_formed(&vec![Instr::Loop(next), Instr::End, Instr::Br(next)], 0));
    assert!(!is_well_formed(&vec![Instr::Else], 0));
    assert!(!is_well_formed(&vec![Instr::If, Instr::Else, Instr::Else, Instr::End], 0));
    assert!(!is_well_formed(&vec![Instr::Block(exit), Instr::Else, Instr::End], 0));
    assert!(is_well_formed(&vec![Instr::If, Instr::Else, Instr::End], 0));
    assert!(!is_well_formed(&vec![Instr::LocalSet(2)], 2));
    assert!(is_well_formed(&vec![Instr::LocalSet(2)], 3));
}

#[test]
fn a_step_follows_the_open_constructs() {
    let mut open = Vec::new();
    assert!(take_step(&mut open, 0, &Instr::Block(Label::Exit(0))));
    assert!(take_step(&mut open, 0, &Instr::If));
    assert_eq!(open, vec![Open::Block(Label::Exit(0)), Open::If]);
    assert!(has_target(&open, Label::Exit(0)));
    assert!(!has_target(&open, Label::Exit(1)));
    assert!(!has_target(&open, Label::Continue(0)));
    assert!(take_step(&mut open, 0, &Instr::Else));
    assert_eq!(open, vec![Open::Block(Label::Exit(0)), Open::Else]);
    assert!(!take_step(&mut open, 0, &Instr::Else));
    assert!(!take_step(&mut open, 0, &Instr::LocalGet(0)));
    assert!(take_step(&mut open, 0, &Instr::End));
    assert!(take_step(&mut open, 0, &Instr::End));
    assert!(!take_step(&mut open, 0, &Instr::End));
    assert!(open.is_empty());
}
