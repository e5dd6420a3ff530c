//! The structure of compiled code: every block, loop and conditional is
//! closed where it should be, every branch targets a construct around it, and
//! every slot that an instruction names is one of the function's.

use crate::ast::{
    AssignOperator, Atom, Definition, Expression, Located, Parameter, Path, Statement,
    UnaryOperator,
};
use crate::compiler::{
    add_parameters_spec, compile_function_spec, initial_frame, FrameView, SLOT_LIMIT,
};
use crate::instr::{Instr, Label};
use crate::laws::lemma_branch_effect;
use crate::lower::{
    assign_code, atom_code, binder, call_code, direct_callee, emitted, expression_code,
    expressions_code,
    fields_code, identifier_place, loop_close, loop_open, loop_test, lower_branch_spec,
    lower_else_spec, lower_loop_body_spec, lower_statement_spec, lower_statements_spec,
    path_address, path_value, presence_test, unwrapping,
};
use crate::scope::{
    lookup, lookup_scopes, Binding, BindingKind, Register, ScopeTableView, Signature,
};
use std::ops::Range;
use vstd::prelude::*;

verus! {

/// A construct that is open around an instruction.
#[derive(Debug, Clone, Copy, PartialEq, Eq, Structural)]
pub enum Open {
    Block(Label),
    Loop(Label),
    /// The first branch of a conditional.
    If,
    /// The other branch of a conditional.
    Else,
}

/// Whether a branch to `label` has a target among the open constructs.
pub open spec fn targets(open: Seq<Open>, label: Label) -> bool {
    open.contains(Open::Block(label)) || open.contains(Open::Loop(label))
}

/// The constructs open after `instr`, given those open before it and the
/// number of slots of the function; `None` where the instruction is out of
/// place: an `else` outside the first branch of a conditional, an `end` with
/// nothing open, a branch without a target, a slot that the function lacks.
pub open spec fn step(open: Seq<Open>, slots: nat, instr: Instr) -> Option<Seq<Open>> {
    match instr {
        Instr::Block(label) => Some(open.push(Open::Block(label))),
        Instr::Loop(label) => Some(open.push(Open::Loop(label))),
        Instr::If => Some(open.push(Open::If)),
        Instr::Else => if open.len() > 0 && open.last() == Open::If {
            Some(open.drop_last().push(Open::Else))
        } else {
            None
        },
        Instr::End => if open.len() > 0 {
            Some(open.drop_last())
        } else {
            None
        },
        Instr::Br(label) => if targets(open, label) {
            Some(open)
        } else {
            None
        },
        Instr::BrIf(label) => if targets(open, label) {
            Some(open)
        } else {
            None
        },
        Instr::LocalGet(slot) => if slot < slots {
            Some(open)
        } else {
            None
        },
        Instr::LocalSet(slot) => if slot < slots {
            Some(open)
        } else {
            None
        },
        _ => Some(open),
    }
}

/// The constructs open after the code `code` of a function with `slots`
/// slots, from its first instruction on; `None` where an instruction is out
/// of place.
pub open spec fn run(code: Seq<Instr>, slots: nat) -> Option<Seq<Open>>
    decreases code.len(),
{
    if code.len() == 0 {
        Some(Seq::empty())
    } else {
        match run(code.drop_last(), slots) {
            Some(open) => step(open, slots, code.last()),
            None => None,
        }
    }
}

/// Whether the code of a function with `slots` slots is well formed: no
/// instruction is out of place, and nothing is left open at the end.
pub open spec fn well_formed(code: Seq<Instr>, slots: nat) -> bool {
    run(code, slots) == Some(Seq::<Open>::empty())
}

/// Whether an instruction opens, closes or leaves no construct and names no
/// slot that the function lacks.
pub open spec fn plain(instr: Instr, slots: nat) -> bool {
    match instr {
        Instr::Block(_) => false,
        Instr::Loop(_) => false,
        Instr::If => false,
        Instr::Else => false,
        Instr::End => false,
        Instr::Br(_) => false,
        Instr::BrIf(_) => false,
        Instr::LocalGet(slot) => slot < slots,
        Instr::LocalSet(slot) => slot < slots,
        _ => true,
    }
}

pub open spec fn all_plain(code: Seq<Instr>, slots: nat) -> bool {
    forall|i: int| 0 <= i < code.len() ==> plain(#[trigger] code[i], slots)
}

/// Whether every slot that the table binds a name to is below `slots`.
pub open spec fn table_within(table: ScopeTableView, slots: nat) -> bool {
    forall|i: int, j: int|
        0 <= i < table.scopes.len() && 0 <= j < table.scopes[i].len() ==> kind_within(
            (#[trigger] table.scopes[i][j]).kind,
            slots,
        )
}

pub open spec fn kind_within(kind: BindingKind, slots: nat) -> bool {
    match kind {
        BindingKind::Parameter(slot) => slot < slots,
        BindingKind::Local(slot) => slot < slots,
        BindingKind::Function(_) => true,
    }
}

/// Whether the labels of every loop entered are those of constructs that
/// are open.
pub open spec fn labels_open(labels: Seq<(Label, Label)>, open: Seq<Open>) -> bool {
    forall|i: int|
        0 <= i < labels.len() ==> open.contains(Open::Block((#[trigger] labels[i]).0))
            && open.contains(Open::Loop(labels[i].1))
}

/// Whether the frame is in order with the constructs `open` around the point
/// it has reached: its code runs to them, its table binds slots in use only,
/// and its loops are among them.
pub open spec fn in_order(frame: FrameView, open: Seq<Open>) -> bool {
    &&& frame.slots() <= SLOT_LIMIT
    &&& run(frame.instrs, frame.slots()) == Some(open)
    &&& table_within(frame.scopes, frame.slots())
    &&& labels_open(frame.labels, open)
}

pub proof fn lemma_run_push(code: Seq<Instr>, instr: Instr, slots: nat)
    ensures
        run(code.push(instr), slots) == match run(code, slots) {
            Some(open) => step(open, slots, instr),
            None => None,
        },
{
    assert(code.push(instr).drop_last() =~= code);
}

/// Code that is in place in a function is in place in one with more slots.
pub proof fn lemma_run_more_slots(code: Seq<Instr>, slots: nat, more: nat)
    requires
        slots <= more,
        run(code, slots) is Some,
    ensures
        run(code, more) == run(code, slots),
    decreases code.len(),
{
    if code.len() > 0 {
        lemma_run_more_slots(code.drop_last(), slots, more);
    }
}

/// Plain code leaves open what was open.
pub proof fn lemma_run_plain(code: Seq<Instr>, more: Seq<Instr>, slots: nat)
    requires
        run(code, slots) is Some,
        all_plain(more, slots),
    ensures
        run(code + more, slots) == run(code, slots),
    decreases more.len(),
{
    if more.len() == 0 {
        assert(code + more =~= code);
    } else {
        lemma_run_plain(code, more.drop_last(), slots);
        assert(code + more =~= (code + more.drop_last()).push(more.last()));
        lemma_run_push(code + more.drop_last(), more.last(), slots);
        assert(plain(more[more.len() - 1], slots));
    }
}

pub proof fn lemma_all_plain_concat(one: Seq<Instr>, other: Seq<Instr>, slots: nat)
    requires
        all_plain(one, slots),
        all_plain(other, slots),
    ensures
        all_plain(one + other, slots),
{
    assert forall|i: int| 0 <= i < (one + other).len() implies plain(
        #[trigger] (one + other)[i],
        slots,
    ) by {
        if i < one.len() {
            assert((one + other)[i] == one[i]);
        } else {
            assert((one + other)[i] == other[i - one.len()]);
        }
    }
}

/// A name that the table binds is bound to a slot in use.
pub proof fn lemma_lookup_within(entries: Seq<Binding>, name: Seq<char>, slots: nat)
    requires
        forall|j: int| 0 <= j < entries.len() ==> kind_within((#[trigger] entries[j]).kind, slots),
    ensures
        lookup(entries, name) matches Some(kind) ==> kind_within(kind, slots),
    decreases entries.len(),
{
    if entries.len() > 0 {
        assert(kind_within(entries[entries.len() - 1].kind, slots));
        if entries.last().name@ != name {
            lemma_lookup_within(entries.drop_last(), name, slots);
        }
    }
}

pub proof fn lemma_lookup_scopes_within(scopes: Seq<Seq<Binding>>, name: Seq<char>, slots: nat)
    requires
        forall|i: int, j: int|
            0 <= i < scopes.len() && 0 <= j < scopes[i].len() ==> kind_within(
                (#[trigger] scopes[i][j]).kind,
                slots,
            ),
    ensures
        lookup_scopes(scopes, name) matches Some(kind) ==> kind_within(kind, slots),
    decreases scopes.len(),
{
    if scopes.len() > 0 {
        let innermost = scopes.last();
        assert forall|j: int| 0 <= j < innermost.len() implies kind_within(
            (#[trigger] innermost[j]).kind,
            slots,
        ) by {
            assert(kind_within(scopes[scopes.len() - 1][j].kind, slots));
        }
        lemma_lookup_within(innermost, name, slots);
        if lookup(innermost, name) is None {
            let rest = scopes.drop_last();
            assert forall|i: int, j: int|
                0 <= i < rest.len() && 0 <= j < rest[i].len() implies kind_within(
                (#[trigger] rest[i][j]).kind,
                slots,
            ) by {
                assert(kind_within(scopes[i][j].kind, slots));
            }
            lemma_lookup_scopes_within(rest, name, slots);
        }
    }
}

/// A name resolves to a slot in use, or to a function.
pub proof fn lemma_resolve_within(table: ScopeTableView, name: Seq<char>, slots: nat)
    requires
        table_within(table, slots),
    ensures
        table.resolve(name) matches Some(kind) ==> kind_within(kind, slots),
{
    lemma_lookup_scopes_within(table.scopes, name, slots);
}

/// The table stays within the slots in use when a scope is entered or left,
/// when a name is bound to a slot in use, and when slots are added.
pub proof fn lemma_table_within(
    table: ScopeTableView,
    slots: nat,
    name: String,
    kind: BindingKind,
    more: nat,
)
    requires
        table_within(table, slots),
        slots <= more,
    ensures
        table_within(table.enter_scope(), slots),
        table_within(table.exit_scope(), slots),
        table_within(table, more),
        kind_within(kind, slots) ==> table_within(table.bind(name, kind), slots),
{
    let entered = table.enter_scope();
    assert forall|i: int, j: int|
        0 <= i < entered.scopes.len() && 0 <= j < entered.scopes[i].len() implies kind_within(
        (#[trigger] entered.scopes[i][j]).kind,
        slots,
    ) by {
        if i < table.scopes.len() {
            assert(entered.scopes[i][j] == table.scopes[i][j]);
        }
    }
    let left = table.exit_scope();
    assert forall|i: int, j: int|
        0 <= i < left.scopes.len() && 0 <= j < left.scopes[i].len() implies kind_within(
        (#[trigger] left.scopes[i][j]).kind,
        slots,
    ) by {
        assert(left.scopes[i][j] == table.scopes[i][j]);
    }
    assert forall|i: int, j: int|
        0 <= i < table.scopes.len() && 0 <= j < table.scopes[i].len() implies kind_within(
        (#[trigger] table.scopes[i][j]).kind,
        more,
    ) by {
        assert(kind_within(table.scopes[i][j].kind, slots));
    }
    if kind_within(kind, slots) {
        let bound = table.bind(name, kind);
        assert forall|i: int, j: int|
            0 <= i < bound.scopes.len() && 0 <= j < bound.scopes[i].len() implies kind_within(
            (#[trigger] bound.scopes[i][j]).kind,
            slots,
        ) by {
            if table.scopes.len() == 0 {
            } else if i == table.scopes.len() - 1 {
                if j < table.scopes[i].len() {
                    assert(bound.scopes[i][j] == table.scopes[i][j]);
                }
            } else {
                assert(bound.scopes[i][j] == table.scopes[i][j]);
            }
        }
    }
}

pub proof fn lemma_one_plain(instr: Instr, slots: nat)
    requires
        plain(instr, slots),
    ensures
        all_plain(seq![instr], slots),
{
}

/// Where the table binds slots in use only, the place of a name is read and
/// written by plain instructions.
pub proof fn lemma_place_plain(table: ScopeTableView, name: String, loc: Range<usize>, slots: nat)
    requires
        table_within(table, slots),
    ensures
        identifier_place(table, name, loc) matches Ok(place) ==> plain(place.load_spec(), slots)
            && plain(place.store_spec(), slots),
{
    lemma_resolve_within(table, name@, slots);
}

/// The code of an expression is plain.
pub proof fn lemma_expression_plain(table: ScopeTableView, expr: Located<Expression>, slots: nat)
    requires
        table_within(table, slots),
    ensures
        expression_code(table, expr) matches Ok(code) ==> all_plain(code, slots),
    decreases expr,
{
    if expression_code(table, expr) is Ok {
        match expr.value {
            Expression::Atom(atom) => {
                lemma_atom_plain(table, atom, expr.loc, slots);
            },
            Expression::Binary { op, left, right } => {
                lemma_expression_plain(table, *left, slots);
                lemma_expression_plain(table, *right, slots);
                let first = expression_code(table, *left)->Ok_0;
                let second = expression_code(table, *right)->Ok_0;
                lemma_one_plain(Instr::Drop, slots);
                lemma_one_plain(Instr::Binary(op), slots);
                lemma_all_plain_concat(first, seq![Instr::Drop], slots);
                lemma_all_plain_concat(first + seq![Instr::Drop], second, slots);
                lemma_all_plain_concat(first, second, slots);
                lemma_all_plain_concat(first + second, seq![Instr::Binary(op)], slots);
            },
            Expression::Unary { op, right } => {
                lemma_expression_plain(table, *right, slots);
                lemma_one_plain(Instr::Unary(op), slots);
                lemma_all_plain_concat(
                    expression_code(table, *right)->Ok_0,
                    seq![Instr::Unary(op)],
                    slots,
                );
            },
            Expression::Call { head, args } => {
                lemma_expressions_plain(table, args@, 0, slots);
                let arguments = expressions_code(table, args@, 0)->Ok_0;
                let direct = match head.value {
                    Expression::Atom(Atom::Ident(name)) => direct_callee(table, name),
                    _ => None,
                };
                match direct {
                    Some(function) => {
                        lemma_one_plain(Instr::Call(function), slots);
                        lemma_all_plain_concat(arguments, seq![Instr::Call(function)], slots);
                    },
                    None => {
                        lemma_expression_plain(table, *head, slots);
                        let callee = expression_code(table, *head)->Ok_0;
                        lemma_one_plain(Instr::CallIndirect(args.len()), slots);
                        lemma_all_plain_concat(callee, arguments, slots);
                        lemma_all_plain_concat(
                            callee + arguments,
                            seq![Instr::CallIndirect(args.len())],
                            slots,
                        );
                    },
                }
            },
            Expression::Field { head, field } => {
                lemma_expression_plain(table, *head, slots);
                lemma_one_plain(Instr::FieldGet(field.value), slots);
                lemma_all_plain_concat(
                    expression_code(table, *head)->Ok_0,
                    seq![Instr::FieldGet(field.value)],
                    slots,
                );
            },
            Expression::Index { head, index } => {
                lemma_expression_plain(table, *head, slots);
                lemma_expression_plain(table, *index, slots);
                let container = expression_code(table, *head)->Ok_0;
                let position = expression_code(table, *index)->Ok_0;
                lemma_one_plain(Instr::IndexGet, slots);
                lemma_all_plain_concat(container, position, slots);
                lemma_all_plain_concat(container + position, seq![Instr::IndexGet], slots);
            },
        }
    }
}

/// The code of an atom is plain.
pub proof fn lemma_atom_plain(
    table: ScopeTableView,
    atom: Atom,
    loc: Range<usize>,
    slots: nat,
)
    requires
        table_within(table, slots),
    ensures
        atom_code(table, atom, loc) matches Ok(code) ==> all_plain(code, slots),
    decreases atom,
{
    if atom_code(table, atom, loc) is Ok {
        match atom {
            Atom::Ident(name) => {
                lemma_place_plain(table, name, loc, slots);
            },
            Atom::Expression(inner) => {
                lemma_expression_plain(table, *inner, slots);
            },
            Atom::Tuple(items) => {
                lemma_expressions_plain(table, items@, 0, slots);
                lemma_one_plain(Instr::Tuple(items.len()), slots);
                lemma_all_plain_concat(
                    expressions_code(table, items@, 0)->Ok_0,
                    seq![Instr::Tuple(items.len())],
                    slots,
                );
            },
            Atom::Vector(items) => {
                lemma_expressions_plain(table, items@, 0, slots);
                lemma_one_plain(Instr::Vector(items.len()), slots);
                lemma_all_plain_concat(
                    expressions_code(table, items@, 0)->Ok_0,
                    seq![Instr::Vector(items.len())],
                    slots,
                );
            },
            Atom::Object(fields) => {
                lemma_fields_plain(table, fields@, 0, slots);
                lemma_one_plain(Instr::Object(fields.len()), slots);
                lemma_all_plain_concat(
                    fields_code(table, fields@, 0)->Ok_0,
                    seq![Instr::Object(fields.len())],
                    slots,
                );
            },
            _ => {},
        }
    }
}

/// The code of a list of expressions is plain.
pub proof fn lemma_expressions_plain(
    table: ScopeTableView,
    items: Seq<Located<Expression>>,
    from: nat,
    slots: nat,
)
    requires
        table_within(table, slots),
    ensures
        expressions_code(table, items, from) matches Ok(code) ==> all_plain(code, slots),
    decreases items, items.len() - from,
{
    if from < items.len() && expressions_code(table, items, from) is Ok {
        lemma_expression_plain(table, items[from as int], slots);
        lemma_expressions_plain(table, items, from + 1, slots);
        lemma_all_plain_concat(
            expression_code(table, items[from as int])->Ok_0,
            expressions_code(table, items, from + 1)->Ok_0,
            slots,
        );
    }
}

/// The code of the fields of an object is plain.
pub proof fn lemma_fields_plain(
    table: ScopeTableView,
    fields: Seq<(Located<String>, Located<Expression>)>,
    from: nat,
    slots: nat,
)
    requires
        table_within(table, slots),
    ensures
        fields_code(table, fields, from) matches Ok(code) ==> all_plain(code, slots),
    decreases fields, fields.len() - from,
{
    if from < fields.len() && fields_code(table, fields, from) is Ok {
        let name = seq![Instr::Text(fields[from as int].0.value)];
        let value = expression_code(table, fields[from as int].1)->Ok_0;
        lemma_expression_plain(table, fields[from as int].1, slots);
        lemma_fields_plain(table, fields, from + 1, slots);
        lemma_one_plain(Instr::Text(fields[from as int].0.value), slots);
        lemma_all_plain_concat(name, value, slots);
        lemma_all_plain_concat(name + value, fields_code(table, fields, from + 1)->Ok_0, slots);
    }
}

/// The code that computes the address of a path is plain, and so are the
/// instructions that read and write the location.
pub proof fn lemma_path_plain(table: ScopeTableView, path: Located<Path>, slots: nat)
    requires
        table_within(table, slots),
    ensures
        path_address(table, path) matches Ok((address, place)) ==> all_plain(address, slots)
            && plain(place.load_spec(), slots) && plain(place.store_spec(), slots),
        path_value(table, path) matches Ok(code) ==> all_plain(code, slots),
    decreases path,
{
    if path_address(table, path) is Ok {
        match path.value {
            Path::Ident(name) => {
                lemma_place_plain(table, name, path.loc, slots);
            },
            Path::Field { head, field } => {
                lemma_path_plain(table, *head, slots);
            },
            Path::Index { head, index } => {
                lemma_path_plain(table, *head, slots);
                lemma_expression_plain(table, *index, slots);
                lemma_all_plain_concat(
                    path_value(table, *head)->Ok_0,
                    expression_code(table, *index)->Ok_0,
                    slots,
                );
            },
        }
        let address = path_address(table, path)->Ok_0.0;
        let place = path_address(table, path)->Ok_0.1;
        lemma_one_plain(place.load_spec(), slots);
        lemma_all_plain_concat(address, seq![place.load_spec()], slots);
    }
}

/// The code of an assignment is plain.
pub proof fn lemma_assign_plain(
    table: ScopeTableView,
    op: AssignOperator,
    path: Located<Path>,
    expr: Located<Expression>,
    slots: nat,
)
    requires
        table_within(table, slots),
    ensures
        assign_code(table, op, path, expr) matches Ok(code) ==> all_plain(code, slots),
{
    if assign_code(table, op, path, expr) is Ok {
        lemma_path_plain(table, path, slots);
        lemma_expression_plain(table, expr, slots);
        let address = path_address(table, path)->Ok_0.0;
        let place = path_address(table, path)->Ok_0.1;
        let value = expression_code(table, expr)->Ok_0;
        match op.binary_spec() {
            None => {
                lemma_one_plain(place.store_spec(), slots);
                lemma_all_plain_concat(address, value, slots);
                lemma_all_plain_concat(address + value, seq![place.store_spec()], slots);
            },
            Some(operator) => {
                let read = address + seq![place.load_spec()];
                let tail = seq![Instr::Binary(operator), place.store_spec()];
                assert(all_plain(tail, slots));
                lemma_all_plain_concat(address, read, slots);
                lemma_all_plain_concat(address + read, value, slots);
                lemma_all_plain_concat(address + read + value, tail, slots);
            },
        }
    }
}

/// The code of a call in statement position is plain.
pub proof fn lemma_call_plain(
    table: ScopeTableView,
    path: Located<Path>,
    args: Seq<Located<Expression>>,
    slots: nat,
)
    requires
        table_within(table, slots),
    ensures
        call_code(table, path, args) matches Ok(code) ==> all_plain(code, slots),
{
    if call_code(table, path, args) is Ok {
        lemma_expressions_plain(table, args, 0, slots);
        let arguments = expressions_code(table, args, 0)->Ok_0;
        let direct = match path.value {
            Path::Ident(name) => direct_callee(table, name),
            _ => None,
        };
        match direct {
            Some(function) => {
                lemma_one_plain(Instr::Call(function), slots);
                lemma_one_plain(Instr::Drop, slots);
                lemma_all_plain_concat(arguments, seq![Instr::Call(function)], slots);
                lemma_all_plain_concat(
                    arguments + seq![Instr::Call(function)],
                    seq![Instr::Drop],
                    slots,
                );
                lemma_all_plain_concat(
                    arguments + seq![Instr::Call(function)],
                    Seq::empty(),
                    slots,
                );
            },
            None => {
                lemma_path_plain(table, path, slots);
                let callee = path_value(table, path)->Ok_0;
                let tail = seq![Instr::CallIndirect(args.len() as usize), Instr::Drop];
                assert(all_plain(tail, slots));
                lemma_all_plain_concat(callee, arguments, slots);
                lemma_all_plain_concat(callee + arguments, tail, slots);
            },
        }
    }
}

proof fn lemma_contains_push(open: Seq<Open>, item: Open, pushed: Open)
    ensures
        open.contains(item) ==> open.push(pushed).contains(item),
        open.push(pushed).contains(pushed),
{
    if open.contains(item) {
        let i = choose|i: int| 0 <= i < open.len() && open[i] == item;
        assert(open.push(pushed)[i] == item);
    }
    assert(open.push(pushed)[open.len() as int] == pushed);
}

proof fn lemma_labels_open_push(labels: Seq<(Label, Label)>, open: Seq<Open>, pushed: Open)
    requires
        labels_open(labels, open),
    ensures
        labels_open(labels, open.push(pushed)),
{
    assert forall|i: int| 0 <= i < labels.len() implies open.push(pushed).contains(
        Open::Block((#[trigger] labels[i]).0),
    ) && open.push(pushed).contains(Open::Loop(labels[i].1)) by {
        lemma_contains_push(open, Open::Block(labels[i].0), pushed);
        lemma_contains_push(open, Open::Loop(labels[i].1), pushed);
    }
}

proof fn lemma_emit_in_order(frame: FrameView, instr: Instr, open: Seq<Open>, next: Seq<Open>)
    requires
        in_order(frame, open),
        step(open, frame.slots(), instr) == Some(next),
        labels_open(frame.labels, next),
    ensures
        in_order(frame.emit(instr), next),
{
    lemma_run_push(frame.instrs, instr, frame.slots());
}

proof fn lemma_emit_plain_in_order(frame: FrameView, code: Seq<Instr>, open: Seq<Open>)
    requires
        in_order(frame, open),
        all_plain(code, frame.slots()),
    ensures
        in_order(frame.emit_all(code), open),
{
    lemma_run_plain(frame.instrs, code, frame.slots());
}

proof fn lemma_expression_in_order(
    frame: FrameView,
    table: ScopeTableView,
    expr: Located<Expression>,
    open: Seq<Open>,
)
    requires
        in_order(frame, open),
        table_within(table, frame.slots()),
    ensures
        emitted(frame, expression_code(table, expr)) matches Ok(after) ==> in_order(after, open),
{
    lemma_expression_plain(table, expr, frame.slots());
    if expression_code(table, expr) is Ok {
        lemma_emit_plain_in_order(frame, expression_code(table, expr)->Ok_0, open);
    }
}

proof fn lemma_binder_in_order(frame: FrameView, param: Located<Parameter>, open: Seq<Open>)
    requires
        in_order(frame, open),
    ensures
        binder(frame, param) matches Ok((after, slot)) ==> in_order(after, open) && slot
            < after.slots() && after.labels == frame.labels && after.scopes == frame.scopes,
{
    if binder(frame, param) is Ok {
        lemma_run_more_slots(frame.instrs, frame.slots(), frame.slots() + 1);
        lemma_table_within(
            frame.scopes,
            frame.slots(),
            param.value.name.value,
            BindingKind::Local(0),
            frame.slots() + 1,
        );
    }
}

proof fn lemma_slot_code_in_order(frame: FrameView, slot: Register, open: Seq<Open>)
    requires
        in_order(frame, open),
        slot < frame.slots(),
    ensures
        in_order(frame.emit_all(presence_test(slot)), open),
        in_order(frame.emit_all(unwrapping(slot)), open),
        in_order(frame.emit(Instr::LocalSet(slot)), open),
        in_order(frame.emit(Instr::LocalGet(slot)), open),
{
    lemma_emit_plain_in_order(frame, presence_test(slot), open);
    lemma_emit_plain_in_order(frame, unwrapping(slot), open);
    lemma_emit_in_order(frame, Instr::LocalSet(slot), open, open);
    lemma_emit_in_order(frame, Instr::LocalGet(slot), open, open);
}

/// The constructs open inside a loop with the labels `labels`, entered with
/// `open` open.
pub open spec fn inside_loop(open: Seq<Open>, labels: (Label, Label)) -> Seq<Open> {
    open.push(Open::Block(labels.0)).push(Open::Loop(labels.1))
}

proof fn lemma_inside_loop(labels: Seq<(Label, Label)>, open: Seq<Open>, pair: (Label, Label))
    requires
        labels_open(labels, open),
    ensures
        labels_open(labels, inside_loop(open, pair)),
        labels_open(labels.push(pair), inside_loop(open, pair)),
        targets(inside_loop(open, pair), pair.0),
        targets(inside_loop(open, pair), pair.1),
{
    let outer = open.push(Open::Block(pair.0));
    lemma_labels_open_push(labels, open, Open::Block(pair.0));
    lemma_labels_open_push(labels, outer, Open::Loop(pair.1));
    lemma_contains_push(open, Open::Block(pair.0), Open::Block(pair.0));
    lemma_contains_push(outer, Open::Block(pair.0), Open::Loop(pair.1));
    assert forall|i: int| 0 <= i < labels.push(pair).len() implies inside_loop(
        open,
        pair,
    ).contains(Open::Block((#[trigger] labels.push(pair)[i]).0)) && inside_loop(
        open,
        pair,
    ).contains(Open::Loop(labels.push(pair)[i].1)) by {
        if i < labels.len() {
            assert(labels.push(pair)[i] == labels[i]);
            assert(inside_loop(open, pair).contains(Open::Block(labels[i].0)));
        }
    }
}

proof fn lemma_loop_open_in_order(frame: FrameView, open: Seq<Open>, labels: (Label, Label))
    requires
        in_order(frame, open),
    ensures
        in_order(frame.emit_all(loop_open(labels)), inside_loop(open, labels)),
{
    let outer = open.push(Open::Block(labels.0));
    lemma_labels_open_push(frame.labels, open, Open::Block(labels.0));
    lemma_labels_open_push(frame.labels, outer, Open::Loop(labels.1));
    lemma_emit_in_order(frame, Instr::Block(labels.0), open, outer);
    lemma_emit_in_order(
        frame.emit(Instr::Block(labels.0)),
        Instr::Loop(labels.1),
        outer,
        inside_loop(open, labels),
    );
    assert(frame.emit_all(loop_open(labels)) =~= frame.emit(Instr::Block(labels.0)).emit(
        Instr::Loop(labels.1),
    ));
}

proof fn lemma_loop_test_in_order(frame: FrameView, inside: Seq<Open>, labels: (Label, Label))
    requires
        in_order(frame, inside),
        targets(inside, labels.0),
    ensures
        in_order(frame.emit_all(loop_test(labels)), inside),
{
    let negated = frame.emit(Instr::Unary(UnaryOperator::Not));
    lemma_emit_in_order(frame, Instr::Unary(UnaryOperator::Not), inside, inside);
    lemma_emit_in_order(negated, Instr::BrIf(labels.0), inside, inside);
    assert(frame.emit_all(loop_test(labels)) =~= negated.emit(Instr::BrIf(labels.0)));
}

proof fn lemma_loop_close_in_order(frame: FrameView, open: Seq<Open>, labels: (Label, Label))
    requires
        in_order(frame, inside_loop(open, labels)),
        labels_open(frame.labels, open),
    ensures
        in_order(frame.emit_all(loop_close(labels)), open),
{
    let inside = inside_loop(open, labels);
    let outer = open.push(Open::Block(labels.0));
    lemma_inside_loop(frame.labels, open, labels);
    lemma_labels_open_push(frame.labels, open, Open::Block(labels.0));
    lemma_emit_in_order(frame, Instr::Br(labels.1), inside, inside);
    let repeated = frame.emit(Instr::Br(labels.1));
    assert(inside.drop_last() =~= outer);
    assert(outer.drop_last() =~= open);
    lemma_emit_in_order(repeated, Instr::End, inside, outer);
    lemma_emit_in_order(repeated.emit(Instr::End), Instr::End, outer, open);
    assert(frame.emit_all(loop_close(labels)) =~= repeated.emit(Instr::End).emit(Instr::End));
}

proof fn lemma_scope_in_order(frame: FrameView, open: Seq<Open>, name: String, slot: Register)
    requires
        in_order(frame, open),
    ensures
        in_order(frame.enter_scope(), open),
        in_order(frame.exit_scope(), open),
        slot < frame.slots() ==> in_order(frame.bind(name, BindingKind::Local(slot)), open),
{
    lemma_table_within(
        frame.scopes,
        frame.slots(),
        name,
        BindingKind::Local(slot),
        frame.slots(),
    );
}

/// A statement keeps the frame in order: the code it emits closes what it
/// opens, branches only to constructs around it, and names slots in use only.
pub proof fn lemma_statement_in_order(frame: FrameView, stmt: Located<Statement>, open: Seq<Open>)
    requires
        in_order(frame, open),
    ensures
        lower_statement_spec(frame, stmt) matches Ok(after) ==> in_order(after, open),
    decreases stmt, 0nat,
{
    let lowered = lower_statement_spec(frame, stmt);
    let table = frame.scopes;
    if lowered is Ok {
        let after = lowered->Ok_0;
        match stmt.value {
            Statement::Block(items) => {
                lemma_scope_in_order(frame, open, frame.name, 0);
                lemma_statements_in_order(frame.enter_scope(), items@, 0, open);
                let done = lower_statements_spec(frame.enter_scope(), items@, 0)->Ok_0;
                lemma_scope_in_order(done, open, frame.name, 0);
            },
            Statement::Let { param, expr } => {
                lemma_expression_in_order(frame, table, expr, open);
                let valued = emitted(frame, expression_code(table, expr))->Ok_0;
                lemma_binder_in_order(valued, param, open);
                let registered = binder(valued, param)->Ok_0.0;
                let slot = binder(valued, param)->Ok_0.1;
                lemma_slot_code_in_order(registered, slot, open);
                lemma_scope_in_order(
                    registered.emit(Instr::LocalSet(slot)),
                    open,
                    param.value.name.value,
                    slot,
                );
            },
            Statement::Assign { op, path, expr } => {
                lemma_assign_plain(table, op, path, expr, frame.slots());
                lemma_emit_plain_in_order(frame, assign_code(table, op, path, expr)->Ok_0, open);
            },
            Statement::Call { path, args } => {
                lemma_call_plain(table, path, args@, frame.slots());
                lemma_emit_plain_in_order(frame, call_code(table, path, args@)->Ok_0, open);
            },
            Statement::If { cond, case, else_case } => {
                lemma_expression_in_order(frame, table, cond, open);
                let tested = emitted(frame, expression_code(table, cond))->Ok_0;
                let inside = open.push(Open::If);
                lemma_labels_open_push(frame.labels, open, Open::If);
                lemma_emit_in_order(tested, Instr::If, open, inside);
                let opened = tested.emit(Instr::If);
                lemma_branch_in_order(opened, None, *case, inside);
                lemma_branch_effect(opened, None, *case);
                let taken = lower_branch_spec(opened, None, *case)->Ok_0;
                lemma_else_in_order(taken, else_case, open);
            },
            Statement::IfSome { param, expr, case, else_case } => {
                lemma_expression_in_order(frame, table, expr, open);
                let valued = emitted(frame, expression_code(table, expr))->Ok_0;
                lemma_binder_in_order(valued, param, open);
                let registered = binder(valued, param)->Ok_0.0;
                let slot = binder(valued, param)->Ok_0.1;
                lemma_slot_code_in_order(registered, slot, open);
                let tested = registered.emit_all(presence_test(slot));
                let inside = open.push(Open::If);
                lemma_labels_open_push(frame.labels, open, Open::If);
                lemma_emit_in_order(tested, Instr::If, open, inside);
                let opened = tested.emit(Instr::If);
                lemma_slot_code_in_order(opened, slot, inside);
                let unwrapped = opened.emit_all(unwrapping(slot));
                let bound = Some((param.value.name.value, slot));
                lemma_branch_in_order(unwrapped, bound, *case, inside);
                lemma_branch_effect(unwrapped, bound, *case);
                let taken = lower_branch_spec(unwrapped, bound, *case)->Ok_0;
                lemma_else_in_order(taken, else_case, open);
            },
            Statement::While { cond, body } => {
                let labels = frame.loop_labels();
                let inside = inside_loop(open, labels);
                lemma_loop_open_in_order(frame, open, labels);
                let opened = frame.emit_all(loop_open(labels));
                lemma_expression_in_order(opened, table, cond, inside);
                let tested = emitted(opened, expression_code(table, cond))->Ok_0;
                lemma_inside_loop(frame.labels, open, labels);
                lemma_loop_test_in_order(tested, inside, labels);
                lemma_loop_body_in_order(tested.emit_all(loop_test(labels)), None, *body, open);
            },
            Statement::WhileSome { param, expr, body } => {
                let labels = frame.loop_labels();
                let inside = inside_loop(open, labels);
                lemma_loop_open_in_order(frame, open, labels);
                let opened = frame.emit_all(loop_open(labels));
                lemma_expression_in_order(opened, table, expr, inside);
                let valued = emitted(opened, expression_code(table, expr))->Ok_0;
                lemma_binder_in_order(valued, param, inside);
                let registered = binder(valued, param)->Ok_0.0;
                let slot = binder(valued, param)->Ok_0.1;
                lemma_slot_code_in_order(registered, slot, inside);
                let tested = registered.emit_all(presence_test(slot));
                lemma_inside_loop(frame.labels, open, labels);
                lemma_loop_test_in_order(tested, inside, labels);
                let checked = tested.emit_all(loop_test(labels));
                lemma_slot_code_in_order(checked, slot, inside);
                lemma_loop_body_in_order(
                    checked.emit_all(unwrapping(slot)),
                    Some((param.value.name.value, slot)),
                    *body,
                    open,
                );
            },
            Statement::For { param, iter, body } => {
                let labels = frame.loop_labels();
                let inside = inside_loop(open, labels);
                lemma_expression_in_order(frame, table, iter, open);
                let valued = emitted(frame, expression_code(table, iter))->Ok_0;
                lemma_emit_in_order(valued, Instr::Iter, open, open);
                let iterating = valued.emit(Instr::Iter);
                lemma_binder_in_order(iterating, param, open);
                let with_cursor = binder(iterating, param)->Ok_0.0;
                let cursor = binder(iterating, param)->Ok_0.1;
                lemma_slot_code_in_order(with_cursor, cursor, open);
                let stored = with_cursor.emit(Instr::LocalSet(cursor));
                lemma_binder_in_order(stored, param, open);
                let registered = binder(stored, param)->Ok_0.0;
                let slot = binder(stored, param)->Ok_0.1;
                lemma_loop_open_in_order(registered, open, labels);
                let opened = registered.emit_all(loop_open(labels));
                lemma_slot_code_in_order(opened, cursor, inside);
                let fetched = opened.emit(Instr::LocalGet(cursor));
                lemma_emit_in_order(fetched, Instr::Next, inside, inside);
                let advanced = fetched.emit(Instr::Next);
                lemma_slot_code_in_order(advanced, slot, inside);
                let tested = advanced.emit_all(presence_test(slot));
                lemma_inside_loop(frame.labels, open, labels);
                lemma_loop_test_in_order(tested, inside, labels);
                let checked = tested.emit_all(loop_test(labels));
                lemma_slot_code_in_order(checked, slot, inside);
                lemma_loop_body_in_order(
                    checked.emit_all(unwrapping(slot)),
                    Some((param.value.name.value, slot)),
                    *body,
                    open,
                );
            },
            Statement::Break => {
                assert(open.contains(Open::Block(frame.labels[frame.labels.len() - 1].0)));
                lemma_emit_in_order(frame, Instr::Br(frame.labels.last().0), open, open);
            },
            Statement::Continue => {
                assert(open.contains(Open::Loop(frame.labels[frame.labels.len() - 1].1)));
                lemma_emit_in_order(frame, Instr::Br(frame.labels.last().1), open, open);
            },
            Statement::Return(expr) => {
                lemma_expression_in_order(frame, table, expr, open);
                let valued = emitted(frame, expression_code(table, expr))->Ok_0;
                lemma_emit_in_order(valued, Instr::Return, open, open);
            },
        }
    }
}

/// Statements lowered one after another keep the frame in order.
pub proof fn lemma_statements_in_order(
    frame: FrameView,
    items: Seq<Located<Statement>>,
    from: nat,
    open: Seq<Open>,
)
    requires
        in_order(frame, open),
    ensures
        lower_statements_spec(frame, items, from) matches Ok(after) ==> in_order(after, open),
    decreases items, items.len() - from,
{
    if from < items.len() {
        lemma_statement_in_order(frame, items[from as int], open);
        let lowered = lower_statement_spec(frame, items[from as int]);
        if lowered is Ok {
            lemma_statements_in_order(lowered->Ok_0, items, from + 1, open);
        }
    }
}

proof fn lemma_branch_in_order(
    frame: FrameView,
    bound: Option<(String, Register)>,
    stmt: Located<Statement>,
    open: Seq<Open>,
)
    requires
        in_order(frame, open),
        bound matches Some((_, slot)) ==> slot < frame.slots(),
    ensures
        lower_branch_spec(frame, bound, stmt) matches Ok(after) ==> in_order(after, open),
    decreases stmt, 1nat,
{
    lemma_scope_in_order(frame, open, frame.name, 0);
    let inner = match bound {
        Some((name, slot)) => {
            lemma_scope_in_order(frame.enter_scope(), open, name, slot);
            frame.enter_scope().bind(name, BindingKind::Local(slot))
        },
        None => frame.enter_scope(),
    };
    lemma_statement_in_order(inner, stmt, open);
    let lowered = lower_statement_spec(inner, stmt);
    if lowered is Ok {
        lemma_scope_in_order(lowered->Ok_0, open, frame.name, 0);
    }
}

proof fn lemma_else_in_order(
    frame: FrameView,
    else_case: Option<Box<Located<Statement>>>,
    open: Seq<Open>,
)
    requires
        in_order(frame, open.push(Open::If)),
        labels_open(frame.labels, open),
    ensures
        lower_else_spec(frame, else_case) matches Ok(after) ==> in_order(after, open),
    decreases else_case, 2nat,
{
    let first = open.push(Open::If);
    let second = open.push(Open::Else);
    assert(first.drop_last() =~= open);
    assert(second.drop_last() =~= open);
    match else_case {
        None => {
            lemma_emit_in_order(frame, Instr::End, first, open);
        },
        Some(other) => {
            lemma_labels_open_push(frame.labels, open, Open::Else);
            lemma_emit_in_order(frame, Instr::Else, first, second);
            let opened = frame.emit(Instr::Else);
            lemma_branch_in_order(opened, None, *other, second);
            lemma_branch_effect(opened, None, *other);
            let lowered = lower_branch_spec(opened, None, *other);
            if lowered is Ok {
                lemma_emit_in_order(lowered->Ok_0, Instr::End, second, open);
            }
        },
    }
}

proof fn lemma_loop_body_in_order(
    frame: FrameView,
    bound: Option<(String, Register)>,
    body: Located<Statement>,
    open: Seq<Open>,
)
    requires
        in_order(frame, inside_loop(open, frame.loop_labels())),
        labels_open(frame.labels, open),
        bound matches Some((_, slot)) ==> slot < frame.slots(),
    ensures
        lower_loop_body_spec(frame, bound, body) matches Ok(after) ==> in_order(after, open),
    decreases body, 2nat,
{
    let labels = frame.loop_labels();
    let inside = inside_loop(open, labels);
    let entered = frame.enter_loop();
    lemma_inside_loop(frame.labels, open, labels);
    assert(in_order(entered, inside));
    lemma_branch_in_order(entered, bound, body, inside);
    lemma_branch_effect(entered, bound, body);
    let lowered = lower_branch_spec(entered, bound, body);
    if lowered is Ok {
        let left = lowered->Ok_0.exit_loop();
        assert(left.labels =~= frame.labels);
        assert(in_order(left, inside));
        lemma_loop_close_in_order(left, open, labels);
    }
}

proof fn lemma_parameters_in_order(frame: FrameView, params: Seq<Located<Parameter>>, from: nat)
    requires
        in_order(frame, Seq::empty()),
        frame.instrs.len() == 0,
    ensures
        add_parameters_spec(frame, params, from) matches Ok(after) ==> in_order(
            after,
            Seq::empty(),
        ),
    decreases params.len() - from,
{
    if from < params.len() {
        let name = params[from as int].value.name.value;
        let typ = params[from as int].value.typ.value;
        let added = frame.add_parameter(name, typ);
        if added is Some {
            let next = added->Some_0;
            lemma_table_within(
                frame.scopes,
                frame.slots(),
                name,
                BindingKind::Parameter(frame.slots() as Register),
                frame.slots() + 1,
            );
            lemma_table_within(
                frame.scopes,
                frame.slots() + 1,
                name,
                BindingKind::Parameter(frame.slots() as Register),
                frame.slots() + 1,
            );
            assert(in_order(next, Seq::empty()));
            lemma_parameters_in_order(next, params, from + 1);
        }
    }
}

/// The code of a function that compiles is well formed: every block, loop
/// and conditional is closed, an `else` stands in a conditional only, every
/// branch targets a block or loop around it, and every slot that an
/// instruction names is one of the function's parameters or locals.
pub proof fn law_compiled_code_is_well_formed(functions: Seq<Signature>, def: Located<Definition>)
    ensures
        compile_function_spec(functions, def) matches Ok(frame) ==> well_formed(
            frame.instrs,
            frame.slots(),
        ),
{
    if compile_function_spec(functions, def) is Ok {
        match def.value {
            Definition::Fn { export, name, params, result, body } => {
                let start = initial_frame(
                    name.value,
                    export,
                    match result {
                        Some(typ) => Some(typ.value),
                        None => None,
                    },
                    functions,
                );
                let empty = Seq::<Open>::empty();
                assert(in_order(start, empty));
                lemma_scope_in_order(start, empty, name.value, 0);
                lemma_parameters_in_order(start.enter_scope(), params@, 0);
                let declared = add_parameters_spec(start.enter_scope(), params@, 0)->Ok_0;
                lemma_scope_in_order(declared, empty, name.value, 0);
                lemma_statements_in_order(declared.enter_scope(), body.value.0@, 0, empty);
            },
        }
    }
}

/// Code that is out of place after some of its instructions stays so.
pub proof fn lemma_run_fails_on(code: Seq<Instr>, upto: int, slots: nat)
    requires
        0 <= upto <= code.len(),
        run(code.take(upto), slots) is None,
    ensures
        run(code, slots) is None,
    decreases code.len() - upto,
{
    if upto < code.len() {
        assert(code.take(upto + 1) =~= code.take(upto).push(code[upto]));
        lemma_run_push(code.take(upto), code[upto], slots);
        lemma_run_fails_on(code, upto + 1, slots);
    } else {
        assert(code.take(upto) =~= code);
    }
}

/// Whether a branch to `label` has a target among the open constructs.
pub fn has_target(open: &Vec<Open>, label: Label) -> (found: bool)
    ensures
        found == targets(open@, label),
{
    let mut i: usize = 0;
    while i < open.len()
        invariant
            i <= open.len(),
            forall|j: int|
                0 <= j < i ==> open@[j] != Open::Block(label) && open@[j] != Open::Loop(label),
        decreases open.len() - i,
    {
        if open[i] == Open::Block(label) || open[i] == Open::Loop(label) {
            assert(open@.contains(open@[i as int]));
            return true;
        }
        i += 1;
    }
    false
}

/// Takes the step of `instr` on the open constructs; returns whether the
/// instruction is in place, and changes nothing where it is not.
pub fn take_step(open: &mut Vec<Open>, slots: usize, instr: &Instr) -> (in_place: bool)
    ensures
        match step(old(open)@, slots as nat, *instr) {
            Some(next) => in_place && final(open)@ == next,
            None => !in_place && final(open)@ == old(open)@,
        },
{
    match instr {
        Instr::Block(label) => {
            open.push(Open::Block(*label));
            true
        },
        Instr::Loop(label) => {
            open.push(Open::Loop(*label));
            true
        },
        Instr::If => {
            open.push(Open::If);
            true
        },
        Instr::Else => {
            if open.len() > 0 && open[open.len() - 1] == Open::If {
                let closed = open.pop();
                open.push(Open::Else);
                true
            } else {
                false
            }
        },
        Instr::End => {
            if open.len() > 0 {
                let closed = open.pop();
                true
            } else {
                false
            }
        },
        Instr::Br(label) => has_target(open, *label),
        Instr::BrIf(label) => has_target(open, *label),
        Instr::LocalGet(slot) => (*slot as usize) < slots,
        Instr::LocalSet(slot) => (*slot as usize) < slots,
        _ => true,
    }
}

/// Whether the code of a function with `slots` slots is well formed: every
/// block, loop and conditional is closed, an `else` stands in a conditional
/// only, every branch targets a block or loop around it, and every slot that
/// an instruction names is below `slots`.
pub fn is_well_formed(code: &Vec<Instr>, slots: usize) -> (yes: bool)
    ensures
        yes == well_formed(code@, slots as nat),
{
    let mut open: Vec<Open> = Vec::new();
    let mut i: usize = 0;
    assert(code@.take(0) =~= Seq::<Instr>::empty());
    while i < code.len()
        invariant
            i <= code.len(),
            run(code@.take(i as int), slots as nat) == Some(open@),
        decreases code.len() - i,
    {
        proof {
            assert(code@.take(i + 1) =~= code@.take(i as int).push(code@[i as int]));
            lemma_run_push(code@.take(i as int), code@[i as int], slots as nat);
        }
        if !take_step(&mut open, slots, &code[i]) {
            proof {
                lemma_run_fails_on(code@, i + 1, slots as nat);
            }
            return false;
        }
        i += 1;
    }
    assert(code@.take(code.len() as int) =~= code@);
    let yes = open.len() == 0;
    assert(yes == (open@ =~= Seq::<Open>::empty()));
    yes
}

} // verus!