//! The textual form of a compiled module: one line for each instruction,
//! inside one `func` for each function, inside one `module`.

use crate::ast::Type;
use crate::ast::{BinaryOperator, UnaryOperator};
use crate::compiler::{Compiler, FrameView, FunctionFrame};
use crate::instr::{Instr, Label};
use vstd::prelude::*;

verus! {

/// The text as Rust's `Debug` writes a string: between double quotes, with
/// the characters that cannot stand for themselves escaped.
pub uninterp spec fn debug_quoted(text: Seq<char>) -> Seq<char>;

/// Calls `format!` with `{:?}` on a string: `Debug` for `str`, whose output is
/// a function of the characters alone. The contract gives that output its
/// name and claims nothing more of it.
#[verifier::external_body]
pub(crate) fn quote(text: &String) -> (quoted: String)
    ensures
        quoted@ == debug_quoted(text@),
{
    format!("{:?}", text)
}

pub open spec fn digit(d: nat) -> char {
    if d == 0 {
        '0'
    } else if d == 1 {
        '1'
    } else if d == 2 {
        '2'
    } else if d == 3 {
        '3'
    } else if d == 4 {
        '4'
    } else if d == 5 {
        '5'
    } else if d == 6 {
        '6'
    } else if d == 7 {
        '7'
    } else if d == 8 {
        '8'
    } else {
        '9'
    }
}

/// The decimal digits of `n`, without leading zeros.
pub open spec fn decimal(n: nat) -> Seq<char>
    decreases n,
{
    if n < 10 {
        seq![digit(n)]
    } else {
        decimal(n / 10).push(digit(n % 10))
    }
}

/// The decimal digits of `n`, after a minus sign where it is negative.
pub open spec fn signed_decimal(n: int) -> Seq<char> {
    if n < 0 {
        seq!['-'] + decimal((-n) as nat)
    } else {
        decimal(n as nat)
    }
}

fn digit_text(d: u64) -> (text: &'static str)
    requires
        d < 10,
    ensures
        text@ == seq![digit(d as nat)],
{
    proof {
        reveal_strlit("0");
        reveal_strlit("1");
        reveal_strlit("2");
        reveal_strlit("3");
        reveal_strlit("4");
        reveal_strlit("5");
        reveal_strlit("6");
        reveal_strlit("7");
        reveal_strlit("8");
        reveal_strlit("9");
    }
    let text = if d == 0 {
        "0"
    } else if d == 1 {
        "1"
    } else if d == 2 {
        "2"
    } else if d == 3 {
        "3"
    } else if d == 4 {
        "4"
    } else if d == 5 {
        "5"
    } else if d == 6 {
        "6"
    } else if d == 7 {
        "7"
    } else if d == 8 {
        "8"
    } else {
        "9"
    };
    assert(text@ =~= seq![digit(d as nat)]);
    text
}

/// Appends the decimal digits of `n`.
pub fn push_decimal(out: &mut String, n: u64)
    ensures
        final(out)@ == old(out)@ + decimal(n as nat),
    decreases n,
{
    if n >= 10 {
        push_decimal(out, n / 10);
    }
    out.append(digit_text(n % 10));
    assert(out@ =~= old(out)@ + decimal(n as nat));
}

/// Appends the decimal digits of `n`, after a minus sign where it is
/// negative.
pub fn push_signed_decimal(out: &mut String, n: i64)
    ensures
        final(out)@ == old(out)@ + signed_decimal(n as int),
{
    if n < 0 {
        proof {
            reveal_strlit("-");
        }
        out.append("-");
        let magnitude: u64 = (-(n as i128)) as u64;
        push_decimal(out, magnitude);
        assert(out@ =~= old(out)@ + signed_decimal(n as int));
    } else {
        push_decimal(out, n as u64);
    }
}

pub open spec fn binary_text(op: BinaryOperator) -> Seq<char> {
    match op {
        BinaryOperator::Then => "then"@,
        BinaryOperator::And => "and"@,
        BinaryOperator::Or => "or"@,
        BinaryOperator::EqualEqual => "eq"@,
        BinaryOperator::ExclamationEqual => "ne"@,
        BinaryOperator::Less => "lt"@,
        BinaryOperator::Greater => "gt"@,
        BinaryOperator::LessEqual => "le"@,
        BinaryOperator::GreaterEqual => "ge"@,
        BinaryOperator::Plus => "add"@,
        BinaryOperator::Minus => "sub"@,
        BinaryOperator::Star => "mul"@,
        BinaryOperator::Slash => "div"@,
        BinaryOperator::Percent => "rem"@,
        BinaryOperator::Exponent => "pow"@,
    }
}

pub open spec fn unary_text(op: UnaryOperator) -> Seq<char> {
    match op {
        UnaryOperator::Minus => "neg"@,
        UnaryOperator::Not => "not"@,
    }
}

/// The mnemonic of a binary operator.
pub fn binary_name(op: BinaryOperator) -> (name: &'static str)
    ensures
        name@ == binary_text(op),
{
    match op {
        BinaryOperator::Then => "then",
        BinaryOperator::And => "and",
        BinaryOperator::Or => "or",
        BinaryOperator::EqualEqual => "eq",
        BinaryOperator::ExclamationEqual => "ne",
        BinaryOperator::Less => "lt",
        BinaryOperator::Greater => "gt",
        BinaryOperator::LessEqual => "le",
        BinaryOperator::GreaterEqual => "ge",
        BinaryOperator::Plus => "add",
        BinaryOperator::Minus => "sub",
        BinaryOperator::Star => "mul",
        BinaryOperator::Slash => "div",
        BinaryOperator::Percent => "rem",
        BinaryOperator::Exponent => "pow",
    }
}

/// The mnemonic of a unary operator.
pub fn unary_name(op: UnaryOperator) -> (name: &'static str)
    ensures
        name@ == unary_text(op),
{
    match op {
        UnaryOperator::Minus => "neg",
        UnaryOperator::Not => "not",
    }
}

pub open spec fn label_text(label: Label) -> Seq<char> {
    match label {
        Label::Exit(depth) => "$exit"@ + decimal(depth as nat),
        Label::Continue(depth) => "$continue"@ + decimal(depth as nat),
    }
}

/// Appends the name of a label.
pub fn push_label(out: &mut String, label: Label)
    ensures
        final(out)@ == old(out)@ + label_text(label),
{
    match label {
        Label::Exit(depth) => {
            out.append("$exit");
            push_decimal(out, depth as u64);
        },
        Label::Continue(depth) => {
            out.append("$continue");
            push_decimal(out, depth as u64);
        },
    }
    assert(out@ =~= old(out)@ + label_text(label));
}

/// The text of a declared type: a name, `head<sub>` for a generic type,
/// `head[size]` or `head[]` for an array.
pub open spec fn type_text(typ: Type) -> Seq<char>
    decreases typ,
{
    match typ {
        Type::Ident(name) => name@,
        Type::Generic { head, sub } => type_text(head.value) + "<"@ + type_text(sub.value) + ">"@,
        Type::Array { head, size } => type_text(head.value) + "["@ + match size {
            Some(length) => signed_decimal(length as int),
            None => Seq::empty(),
        } + "]"@,
    }
}

/// Appends the text of a declared type.
pub fn push_type(out: &mut String, typ: &Type)
    ensures
        final(out)@ == old(out)@ + type_text(*typ),
    decreases typ,
{
    match typ {
        Type::Ident(name) => {
            out.append(name.as_str());
        },
        Type::Generic { head, sub } => {
            push_type(out, &head.value);
            out.append("<");
            push_type(out, &sub.value);
            out.append(">");
            assert(out@ =~= old(out)@ + type_text(*typ));
        },
        Type::Array { head, size } => {
            push_type(out, &head.value);
            out.append("[");
            match size {
                Some(length) => {
                    push_signed_decimal(out, *length);
                },
                None => {},
            }
            out.append("]");
            assert(out@ =~= old(out)@ + type_text(*typ));
        },
    }
}

/// The text of one instruction.
pub open spec fn instr_text(instr: Instr) -> Seq<char> {
    match instr {
        Instr::Null => "ref.null"@,
        Instr::Int(value) => "i64.const "@ + signed_decimal(value as int),
        Instr::Float(bits) => "(f64.reinterpret_i64 (i64.const "@ + decimal(bits as nat) + "))"@,
        Instr::Bool(value) => if value {
            "i32.const 1"@
        } else {
            "i32.const 0"@
        },
        Instr::Char(value) => "i32.const "@ + decimal(value as u32 as nat),
        Instr::Text(text) => "string.const "@ + debug_quoted(text@),
        Instr::LocalGet(slot) => "local.get "@ + decimal(slot as nat),
        Instr::LocalSet(slot) => "local.set "@ + decimal(slot as nat),
        Instr::GlobalGet(name) => "global.get $"@ + name@,
        Instr::GlobalSet(name) => "global.set $"@ + name@,
        Instr::FieldGet(name) => "struct.get $"@ + name@,
        Instr::FieldSet(name) => "struct.set $"@ + name@,
        Instr::IndexGet => "array.get"@,
        Instr::IndexSet => "array.set"@,
        Instr::Binary(op) => binary_text(op),
        Instr::Unary(op) => unary_text(op),
        Instr::Tuple(count) => "tuple.make "@ + decimal(count as nat),
        Instr::Vector(count) => "array.new_fixed "@ + decimal(count as nat),
        Instr::Object(count) => "struct.new "@ + decimal(count as nat),
        Instr::Call(name) => "call $"@ + name@,
        Instr::CallIndirect(count) => "call_indirect "@ + decimal(count as nat),
        Instr::Drop => "drop"@,
        Instr::IsSome => "option.is_some"@,
        Instr::Unwrap => "option.unwrap"@,
        Instr::Iter => "iter.new"@,
        Instr::Next => "iter.next"@,
        Instr::Block(label) => "block "@ + label_text(label),
        Instr::Loop(label) => "loop "@ + label_text(label),
        Instr::If => "if"@,
        Instr::Else => "else"@,
        Instr::End => "end"@,
        Instr::Br(label) => "br "@ + label_text(label),
        Instr::BrIf(label) => "br_if "@ + label_text(label),
        Instr::Return => "return"@,
    }
}

/// Appends the instruction that pushes a string, given the string as
/// `Debug` writes it.
pub fn push_string_const(out: &mut String, quoted: &String)
    ensures
        final(out)@ == old(out)@ + ("string.const "@ + quoted@),
{
    out.append("string.const ");
    out.append(quoted.as_str());
    assert(out@ =~= old(out)@ + ("string.const "@ + quoted@));
}

/// Appends a mnemonic and a number after it.
fn push_counted(out: &mut String, mnemonic: &str, count: u64)
    ensures
        final(out)@ == old(out)@ + (mnemonic@ + decimal(count as nat)),
{
    out.append(mnemonic);
    push_decimal(out, count);
    assert(out@ =~= old(out)@ + (mnemonic@ + decimal(count as nat)));
}

/// Appends a mnemonic and a name after it.
fn push_named(out: &mut String, mnemonic: &str, name: &String)
    ensures
        final(out)@ == old(out)@ + (mnemonic@ + name@),
{
    out.append(mnemonic);
    out.append(name.as_str());
    assert(out@ =~= old(out)@ + (mnemonic@ + name@));
}

/// Appends a mnemonic and a label after it.
fn push_labelled(out: &mut String, mnemonic: &str, label: Label)
    ensures
        final(out)@ == old(out)@ + (mnemonic@ + label_text(label)),
{
    out.append(mnemonic);
    push_label(out, label);
    assert(out@ =~= old(out)@ + (mnemonic@ + label_text(label)));
}

/// Appends the text of one instruction.
pub fn push_instr(out: &mut String, instr: &Instr)
    ensures
        final(out)@ == old(out)@ + instr_text(*instr),
{
    match instr {
        Instr::Null => out.append("ref.null"),
        Instr::Int(value) => {
            out.append("i64.const ");
            push_signed_decimal(out, *value);
            assert(out@ =~= old(out)@ + instr_text(*instr));
        },
        Instr::Float(bits) => {
            out.append("(f64.reinterpret_i64 (i64.const ");
            push_decimal(out, *bits);
            out.append("))");
            assert(out@ =~= old(out)@ + instr_text(*instr));
        },
        Instr::Bool(value) => {
            if *value {
                out.append("i32.const 1");
            } else {
                out.append("i32.const 0");
            }
        },
        Instr::Char(value) => push_counted(out, "i32.const ", *value as u32 as u64),
        Instr::Text(text) => {
            let quoted = quote(text);
            push_string_const(out, &quoted);
        },
        Instr::LocalGet(slot) => push_counted(out, "local.get ", *slot as u64),
        Instr::LocalSet(slot) => push_counted(out, "local.set ", *slot as u64),
        Instr::GlobalGet(name) => push_named(out, "global.get $", name),
        Instr::GlobalSet(name) => push_named(out, "global.set $", name),
        Instr::FieldGet(name) => push_named(out, "struct.get $", name),
        Instr::FieldSet(name) => push_named(out, "struct.set $", name),
        Instr::IndexGet => out.append("array.get"),
        Instr::IndexSet => out.append("array.set"),
        Instr::Binary(op) => out.append(binary_name(*op)),
        Instr::Unary(op) => out.append(unary_name(*op)),
        Instr::Tuple(count) => push_counted(out, "tuple.make ", *count as u64),
        Instr::Vector(count) => push_counted(out, "array.new_fixed ", *count as u64),
        Instr::Object(count) => push_counted(out, "struct.new ", *count as u64),
        Instr::Call(name) => push_named(out, "call $", name),
        Instr::CallIndirect(count) => push_counted(out, "call_indirect ", *count as u64),
        Instr::Drop => out.append("drop"),
        Instr::IsSome => out.append("option.is_some"),
        Instr::Unwrap => out.append("option.unwrap"),
        Instr::Iter => out.append("iter.new"),
        Instr::Next => out.append("iter.next"),
        Instr::Block(label) => push_labelled(out, "block ", *label),
        Instr::Loop(label) => push_labelled(out, "loop ", *label),
        Instr::If => out.append("if"),
        Instr::Else => out.append("else"),
        Instr::End => out.append("end"),
        Instr::Br(label) => push_labelled(out, "br ", *label),
        Instr::BrIf(label) => push_labelled(out, "br_if ", *label),
        Instr::Return => out.append("return"),
    }
}

/// The lines of the instructions from index `from` on, each indented.
pub open spec fn instrs_text(instrs: Seq<Instr>, from: nat) -> Seq<char>
    decreases instrs.len() - from,
{
    if from >= instrs.len() {
        Seq::empty()
    } else {
        "    "@ + instr_text(instrs[from as int]) + "\n"@ + instrs_text(instrs, from + 1)
    }
}

/// The declarations of the parameters from index `from` on, by their types:
/// a parameter is known by its slot, not by its name.
pub open spec fn params_text(params: Seq<(String, Type)>, from: nat) -> Seq<char>
    decreases params.len() - from,
{
    if from >= params.len() {
        Seq::empty()
    } else {
        " (param "@ + type_text(params[from as int].1) + ")"@ + params_text(params, from + 1)
    }
}

/// The declarations of the locals from index `from` on, one on each line.
pub open spec fn locals_text(locals: Seq<(String, Type)>, from: nat) -> Seq<char>
    decreases locals.len() - from,
{
    if from >= locals.len() {
        Seq::empty()
    } else {
        "    (local "@ + type_text(locals[from as int].1) + ")\n"@ + locals_text(locals, from + 1)
    }
}

/// The head of a function: its name, its export where it is visible to the
/// host, its parameters and its result.
pub open spec fn head_text(frame: FrameView) -> Seq<char> {
    "  (func $"@ + frame.name@ + if frame.export {
        " (export "@ + debug_quoted(frame.name@) + ")"@
    } else {
        Seq::empty()
    } + params_text(frame.parameter, 0) + match frame.result {
        Some(typ) => " (result "@ + type_text(typ) + ")"@,
        None => Seq::empty(),
    } + "\n"@
}

/// The text of a compiled function.
pub open spec fn function_text(frame: FrameView) -> Seq<char> {
    head_text(frame) + locals_text(frame.locals, 0) + instrs_text(frame.instrs, 0) + "  )\n"@
}

/// The texts of the functions from index `from` on.
pub open spec fn functions_text(frames: Seq<FrameView>, from: nat) -> Seq<char>
    decreases frames.len() - from,
{
    if from >= frames.len() {
        Seq::empty()
    } else {
        function_text(frames[from as int]) + functions_text(frames, from + 1)
    }
}

/// The text of a compiled module.
pub open spec fn module_text(frames: Seq<FrameView>) -> Seq<char> {
    "(module\n"@ + functions_text(frames, 0) + ")\n"@
}

/// Appends the export clause of a function, given its name as `Debug`
/// writes it.
pub fn push_export(out: &mut String, quoted: &String)
    ensures
        final(out)@ == old(out)@ + (" (export "@ + quoted@ + ")"@),
{
    out.append(" (export ");
    out.append(quoted.as_str());
    out.append(")");
    assert(out@ =~= old(out)@ + (" (export "@ + quoted@ + ")"@));
}

impl FunctionFrame {
    fn push_params(&self, out: &mut String)
        ensures
            final(out)@ == old(out)@ + params_text(self@.parameter, 0),
    {
        let mut i: usize = 0;
        while i < self.parameter.len()
            invariant
                i <= self.parameter.len(),
                out@ + params_text(self@.parameter, i as nat) == old(out)@ + params_text(
                    self@.parameter,
                    0,
                ),
            decreases self.parameter.len() - i,
        {
            let ghost before = out@;
            out.append(" (param ");
            push_type(out, &self.parameter[i].1);
            out.append(")");
            i += 1;
            assert(out@ + params_text(self@.parameter, i as nat) =~= before + params_text(
                self@.parameter,
                (i - 1) as nat,
            ));
        }
        assert(out@ + Seq::<char>::empty() =~= out@);
    }

    fn push_locals(&self, out: &mut String)
        ensures
            final(out)@ == old(out)@ + locals_text(self@.locals, 0),
    {
        let mut i: usize = 0;
        while i < self.locals.len()
            invariant
                i <= self.locals.len(),
                out@ + locals_text(self@.locals, i as nat) == old(out)@ + locals_text(
                    self@.locals,
                    0,
                ),
            decreases self.locals.len() - i,
        {
            let ghost before = out@;
            out.append("    (local ");
            push_type(out, &self.locals[i].1);
            out.append(")\n");
            i += 1;
            assert(out@ + locals_text(self@.locals, i as nat) =~= before + locals_text(
                self@.locals,
                (i - 1) as nat,
            ));
        }
        assert(out@ + Seq::<char>::empty() =~= out@);
    }

    fn push_instrs(&self, out: &mut String)
        ensures
            final(out)@ == old(out)@ + instrs_text(self@.instrs, 0),
    {
        let mut i: usize = 0;
        while i < self.instrs.len()
            invariant
                i <= self.instrs.len(),
                out@ + instrs_text(self@.instrs, i as nat) == old(out)@ + instrs_text(
                    self@.instrs,
                    0,
                ),
            decreases self.instrs.len() - i,
        {
            let ghost before = out@;
            out.append("    ");
            push_instr(out, &self.instrs[i]);
            out.append("\n");
            i += 1;
            assert(out@ + instrs_text(self@.instrs, i as nat) =~= before + instrs_text(
                self@.instrs,
                (i - 1) as nat,
            ));
        }
        assert(out@ + Seq::<char>::empty() =~= out@);
    }

    fn push_head(&self, out: &mut String)
        ensures
            final(out)@ == old(out)@ + head_text(self@),
    {
        out.append("  (func $");
        out.append(self.name.as_str());
        if self.export {
            let quoted = quote(&self.name);
            push_export(out, &quoted);
        }
        self.push_params(out);
        match &self.result {
            Some(typ) => {
                out.append(" (result ");
                push_type(out, typ);
                out.append(")");
            },
            None => {},
        }
        out.append("\n");
        assert(out@ =~= old(out)@ + head_text(self@));
    }

    /// Appends the text of the function: its head, its locals in slot order
    /// and its instructions in the order of their emission.
    pub fn push_text(&self, out: &mut String)
        ensures
            final(out)@ == old(out)@ + function_text(self@),
    {
        self.push_head(out);
        self.push_locals(out);
        self.push_instrs(out);
        out.append("  )\n");
        assert(out@ =~= old(out)@ + function_text(self@));
    }
}

impl Compiler {
    /// The text of the module compiled so far: every function, in the order
    /// of its compilation. The same functions give the same text.
    pub fn text(&self) -> (text: String)
        ensures
            text@ == module_text(self@),
    {
        let mut out = String::new();
        out.append("(module\n");
        let ghost start = out@;
        let mut i: usize = 0;
        while i < self.func_frames.len()
            invariant
                i <= self.func_frames.len(),
                start == "(module\n"@,
                out@ + functions_text(self@, i as nat) == start + functions_text(self@, 0),
            decreases self.func_frames.len() - i,
        {
            let ghost before = out@;
            self.func_frames[i].push_text(&mut out);
            i += 1;
            assert(out@ + functions_text(self@, i as nat) =~= before + functions_text(
                self@,
                (i - 1) as nat,
            ));
        }
        assert(out@ + Seq::<char>::empty() =~= out@);
        out.append(")\n");
        out
    }
}

} // verus!
