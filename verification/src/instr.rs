//! The instruction set: a structured stack machine in the manner of
//! WebAssembly, without a type discipline of its own.
//!
//! Operands live on an evaluation stack. Control flow is structured: a
//! `Block`, `Loop` or `If` runs to its matching `End`, and a branch names the
//! label of a construct that encloses it. A branch to a `Block` leaves the
//! block; a branch to a `Loop` starts its next iteration.

use crate::ast::{BinaryOperator, UnaryOperator};
use crate::scope::Register;
use vstd::prelude::*;

verus! {

/// The target of a branch. The number is the count of loops around the loop
/// that the label belongs to, so nested loops have distinct labels.
#[derive(Debug, Clone, Copy, PartialEq, Eq, Structural)]
pub enum Label {
    /// Past the end of the loop.
    Exit(usize),
    /// The loop's next iteration.
    Continue(usize),
}

#[derive(Debug, PartialEq, Eq)]
pub enum Instr {
    /// Pushes the null value.
    Null,
    /// Pushes an integer.
    Int(i64),
    /// Pushes the float with the given IEEE 754 binary64 bit pattern.
    Float(u64),
    /// Pushes a boolean.
    Bool(bool),
    /// Pushes a character.
    Char(char),
    /// Pushes a string.
    Text(String),
    /// Pushes the value of a parameter or local.
    LocalGet(Register),
    /// Pops a value into a parameter or local.
    LocalSet(Register),
    /// Pushes the value of a top-level name.
    GlobalGet(String),
    /// Pops a value into a top-level name.
    GlobalSet(String),
    /// Pops an object, pushes its named field.
    FieldGet(String),
    /// Pops a value and, beneath it, an object; stores the value in the
    /// object's named field.
    FieldSet(String),
    /// Pops an index and, beneath it, a container; pushes the element.
    IndexGet,
    /// Pops a value, an index and a container; stores the value at the index.
    IndexSet,
    /// Pops the right and the left operand, pushes the result.
    Binary(BinaryOperator),
    /// Pops the operand, pushes the result.
    Unary(UnaryOperator),
    /// Pops the given number of values, pushes the tuple of them.
    Tuple(usize),
    /// Pops the given number of values, pushes the vector of them.
    Vector(usize),
    /// Pops the given number of name and value pairs, pushes the object.
    Object(usize),
    /// Calls the top-level function of the given name.
    Call(String),
    /// Pops the given number of arguments and, beneath them, the callee;
    /// calls it and pushes what it returns.
    CallIndirect(usize),
    /// Pops a value and discards it.
    Drop,
    /// Pops an optional value, pushes whether one is present.
    IsSome,
    /// Pops an optional value that is present, pushes the value.
    Unwrap,
    /// Pops an iterable, pushes a cursor before its first element.
    Iter,
    /// Pops a cursor, advances it, pushes the element passed, if any, as an
    /// optional value.
    Next,
    /// Opens a block that a branch to the label leaves.
    Block(Label),
    /// Opens a loop that a branch to the label repeats.
    Loop(Label),
    /// Pops a condition and opens the branch taken where it holds.
    If,
    /// Ends the branch of an `If` and opens the other one.
    Else,
    /// Closes the innermost open `Block`, `Loop` or `If`.
    End,
    /// Branches to the label.
    Br(Label),
    /// Pops a condition and branches to the label where it holds.
    BrIf(Label),
    /// Returns from the function with the value on top of the stack.
    Return,
}

impl Clone for Instr {
    fn clone(&self) -> (res: Self)
        ensures
            res == *self,
    {
        match self {
            Instr::Null => Instr::Null,
            Instr::Int(n) => Instr::Int(*n),
            Instr::Float(bits) => Instr::Float(*bits),
            Instr::Bool(b) => Instr::Bool(*b),
            Instr::Char(c) => Instr::Char(*c),
            Instr::Text(text) => Instr::Text(text.clone()),
            Instr::LocalGet(slot) => Instr::LocalGet(*slot),
            Instr::LocalSet(slot) => Instr::LocalSet(*slot),
            Instr::GlobalGet(name) => Instr::GlobalGet(name.clone()),
            Instr::GlobalSet(name) => Instr::GlobalSet(name.clone()),
            Instr::FieldGet(name) => Instr::FieldGet(name.clone()),
            Instr::FieldSet(name) => Instr::FieldSet(name.clone()),
            Instr::IndexGet => Instr::IndexGet,
            Instr::IndexSet => Instr::IndexSet,
            Instr::Binary(op) => Instr::Binary(*op),
            Instr::Unary(op) => Instr::Unary(*op),
            Instr::Tuple(n) => Instr::Tuple(*n),
            Instr::Vector(n) => Instr::Vector(*n),
            Instr::Object(n) => Instr::Object(*n),
            Instr::Call(name) => Instr::Call(name.clone()),
            Instr::CallIndirect(n) => Instr::CallIndirect(*n),
            Instr::Drop => Instr::Drop,
            Instr::IsSome => Instr::IsSome,
            Instr::Unwrap => Instr::Unwrap,
            Instr::Iter => Instr::Iter,
            Instr::Next => Instr::Next,
            Instr::Block(label) => Instr::Block(*label),
            Instr::Loop(label) => Instr::Loop(*label),
            Instr::If => Instr::If,
            Instr::Else => Instr::Else,
            Instr::End => Instr::End,
            Instr::Br(label) => Instr::Br(*label),
            Instr::BrIf(label) => Instr::BrIf(*label),
            Instr::Return => Instr::Return,
        }
    }
}

/// Where a path's value is kept, once the instructions that compute its
/// address have run.
#[derive(Debug, PartialEq, Eq)]
pub enum ValueDescriptor {
    /// In a parameter or local; no address is computed.
    Slot(Register),
    /// In a top-level name; no address is computed.
    Global(String),
    /// In the named field of the object on top of the stack.
    Field(String),
    /// At the index on top of the stack, in the container beneath it.
    Element,
}

impl ValueDescriptor {
    /// The instruction that reads the location.
    pub open spec fn load_spec(&self) -> Instr {
        match *self {
            ValueDescriptor::Slot(slot) => Instr::LocalGet(slot),
            ValueDescriptor::Global(name) => Instr::GlobalGet(name),
            ValueDescriptor::Field(name) => Instr::FieldGet(name),
            ValueDescriptor::Element => Instr::IndexGet,
        }
    }

    /// The instruction that writes the value on top of the stack to the
    /// location.
    pub open spec fn store_spec(&self) -> Instr {
        match *self {
            ValueDescriptor::Slot(slot) => Instr::LocalSet(slot),
            ValueDescriptor::Global(name) => Instr::GlobalSet(name),
            ValueDescriptor::Field(name) => Instr::FieldSet(name),
            ValueDescriptor::Element => Instr::IndexSet,
        }
    }

    #[verifier::when_used_as_spec(load_spec)]
    pub fn load(&self) -> (instr: Instr)
        ensures
            instr == self.load_spec(),
    {
        match self {
            ValueDescriptor::Slot(slot) => Instr::LocalGet(*slot),
            ValueDescriptor::Global(name) => Instr::GlobalGet(name.clone()),
            ValueDescriptor::Field(name) => Instr::FieldGet(name.clone()),
            ValueDescriptor::Element => Instr::IndexGet,
        }
    }

    #[verifier::when_used_as_spec(store_spec)]
    pub fn store(&self) -> (instr: Instr)
        ensures
            instr == self.store_spec(),
    {
        match self {
            ValueDescriptor::Slot(slot) => Instr::LocalSet(*slot),
            ValueDescriptor::Global(name) => Instr::GlobalSet(name.clone()),
            ValueDescriptor::Field(name) => Instr::FieldSet(name.clone()),
            ValueDescriptor::Element => Instr::IndexSet,
        }
    }
}

} // verus!
