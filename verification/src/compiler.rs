//! The compiler from the syntax model to instruction sequences: the state of
//! one function's compilation, and the assembly of a module from its functions.

use crate::ast::{copy_span, Definition, Located, Module, Parameter, Type};
use crate::instr::{Instr, Label};
use crate::lower::{agrees, closed, failure, lower_statements_spec, Failure};
pub use crate::scope::Register;
use crate::scope::{copy_signatures, BindingKind, ScopeTable, ScopeTableView, Signature};
use crate::text::{debug_quoted, quote};
use vstd::prelude::*;

verus! {

/// Why a program could not be compiled. Every error is reported with the
/// source range of the node that caused it; see [`Failure`].
///
/// More kinds of error may follow, such as a mismatch of types or of the
/// number of arguments.
#[derive(Debug, PartialEq, Eq)]
#[non_exhaustive]
pub enum CompilerError {
    /// The name denotes no parameter, local or top-level function here.
    NotFound(String),
    /// A `break` with no loop around it.
    BreakOutsideLoop,
    /// A `continue` with no loop around it.
    ContinueOutsideLoop,
    /// The function needs more slots than a slot index can number.
    TooManyLocals,
}

impl Clone for CompilerError {
    fn clone(&self) -> (res: Self)
        ensures
            res == *self,
    {
        match self {
            CompilerError::NotFound(name) => CompilerError::NotFound(name.clone()),
            CompilerError::BreakOutsideLoop => CompilerError::BreakOutsideLoop,
            CompilerError::ContinueOutsideLoop => CompilerError::ContinueOutsideLoop,
            CompilerError::TooManyLocals => CompilerError::TooManyLocals,
        }
    }
}

impl CompilerError {
    /// What [`CompilerError::message`] says of the error.
    pub open spec fn message_text(self) -> Seq<char> {
        match self {
            CompilerError::NotFound(name) => "can't find "@ + debug_quoted(name@),
            CompilerError::BreakOutsideLoop => "break outside of a loop"@,
            CompilerError::ContinueOutsideLoop => "continue outside of a loop"@,
            CompilerError::TooManyLocals => "too many parameters and locals"@,
        }
    }

    /// What is said of a name that nothing binds, given the name as `Debug`
    /// writes it.
    pub fn not_found_message(quoted: &String) -> (message: String)
        ensures
            message@ == "can't find "@ + quoted@,
    {
        let mut message = String::new();
        message.append("can't find ");
        message.append(quoted.as_str());
        assert(message@ =~= "can't find "@ + quoted@);
        message
    }

    /// The error in words, for a diagnostic.
    pub fn message(&self) -> (message: String)
        ensures
            message@ == self.message_text(),
    {
        match self {
            CompilerError::NotFound(name) => {
                let quoted = quote(name);
                CompilerError::not_found_message(&quoted)
            },
            CompilerError::BreakOutsideLoop => String::from_str("break outside of a loop"),
            CompilerError::ContinueOutsideLoop => String::from_str("continue outside of a loop"),
            CompilerError::TooManyLocals => String::from_str("too many parameters and locals"),
        }
    }
}

/// The number of slots a function can have: one for each value of a slot index.
pub const SLOT_LIMIT: usize = 65536;

/// The state of one function's compilation as plain values.
#[verifier::ext_equal]
pub struct FrameView {
    pub name: String,
    pub export: bool,
    pub result: Option<Type>,
    pub instrs: Seq<Instr>,
    pub parameter: Seq<(String, Type)>,
    pub locals: Seq<(String, Type)>,
    pub scopes: ScopeTableView,
    pub labels: Seq<(Label, Label)>,
}

impl FrameView {
    /// The number of slots in use. Parameters take the first slots, in the
    /// order of their declaration; locals follow in the order in which the
    /// compilation came upon them.
    pub open spec fn slots(self) -> nat {
        self.parameter.len() + self.locals.len()
    }

    pub open spec fn emit(self, instr: Instr) -> Self {
        FrameView { instrs: self.instrs.push(instr), ..self }
    }

    pub open spec fn emit_all(self, code: Seq<Instr>) -> Self {
        FrameView { instrs: self.instrs + code, ..self }
    }

    /// The frame with one more local, and the local's slot; `None` where every
    /// slot is taken.
    pub open spec fn fresh_local(self, name: String, typ: Type) -> Option<(Self, Register)> {
        if self.slots() < SLOT_LIMIT {
            Some(
                (
                    FrameView { locals: self.locals.push((name, typ)), ..self },
                    self.slots() as Register,
                ),
            )
        } else {
            None
        }
    }

    /// The frame with one more parameter, bound to its name in the innermost
    /// scope; `None` where every slot is taken.
    pub open spec fn add_parameter(self, name: String, typ: Type) -> Option<Self> {
        if self.slots() < SLOT_LIMIT {
            Some(
                FrameView {
                    parameter: self.parameter.push((name, typ)),
                    scopes: self.scopes.bind(
                        name,
                        BindingKind::Parameter(self.slots() as Register),
                    ),
                    ..self
                },
            )
        } else {
            None
        }
    }

    pub open spec fn enter_scope(self) -> Self {
        FrameView { scopes: self.scopes.enter_scope(), ..self }
    }

    pub open spec fn exit_scope(self) -> Self {
        FrameView { scopes: self.scopes.exit_scope(), ..self }
    }

    pub open spec fn bind(self, name: String, kind: BindingKind) -> Self {
        FrameView { scopes: self.scopes.bind(name, kind), ..self }
    }

    /// The labels of a loop entered here: numbered by the loops around it.
    pub open spec fn loop_labels(self) -> (Label, Label) {
        (Label::Exit(self.labels.len() as usize), Label::Continue(self.labels.len() as usize))
    }

    pub open spec fn enter_loop(self) -> Self {
        FrameView { labels: self.labels.push(self.loop_labels()), ..self }
    }

    pub open spec fn exit_loop(self) -> Self {
        if self.labels.len() == 0 {
            self
        } else {
            FrameView { labels: self.labels.drop_last(), ..self }
        }
    }
}

/// The state of one function's compilation: its parameters and locals in slot
/// order, the instructions emitted so far, the scopes open at this point and
/// the labels of the loops around it, innermost last.
#[derive(Debug)]
pub struct FunctionFrame {
    pub name: String,
    /// Whether the function is visible to the host.
    pub export: bool,
    pub result: Option<Type>,
    pub instrs: Vec<Instr>,
    pub parameter: Vec<(String, Type)>,
    pub locals: Vec<(String, Type)>,
    pub scopes: ScopeTable,
    /// For each loop around this point, the label that leaves it and the
    /// label that repeats it.
    pub labels: Vec<(Label, Label)>,
}

impl View for FunctionFrame {
    type V = FrameView;

    open spec fn view(&self) -> FrameView {
        FrameView {
            name: self.name,
            export: self.export,
            result: self.result,
            instrs: self.instrs@,
            parameter: self.parameter@,
            locals: self.locals@,
            scopes: self.scopes@,
            labels: self.labels@,
        }
    }
}

/// A copy of a list of named types.
fn copy_named_types(items: &Vec<(String, Type)>) -> (res: Vec<(String, Type)>)
    ensures
        res@ == items@,
{
    let mut res: Vec<(String, Type)> = Vec::new();
    let mut i: usize = 0;
    while i < items.len()
        invariant
            i <= items.len(),
            res@ == items@.take(i as int),
        decreases items.len() - i,
    {
        res.push((items[i].0.clone(), items[i].1.clone()));
        i += 1;
        assert(res@ =~= items@.take(i as int));
    }
    assert(items@.take(items.len() as int) =~= items@);
    res
}

impl Clone for FunctionFrame {
    fn clone(&self) -> (res: Self)
        ensures
            res@ == self@,
    {
        let mut instrs: Vec<Instr> = Vec::new();
        let mut i: usize = 0;
        while i < self.instrs.len()
            invariant
                i <= self.instrs.len(),
                instrs@ == self.instrs@.take(i as int),
            decreases self.instrs.len() - i,
        {
            instrs.push(self.instrs[i].clone());
            i += 1;
            assert(instrs@ =~= self.instrs@.take(i as int));
        }
        assert(self.instrs@.take(self.instrs.len() as int) =~= self.instrs@);
        let mut labels: Vec<(Label, Label)> = Vec::new();
        let mut j: usize = 0;
        while j < self.labels.len()
            invariant
                j <= self.labels.len(),
                labels@ == self.labels@.take(j as int),
            decreases self.labels.len() - j,
        {
            labels.push(self.labels[j]);
            j += 1;
            assert(labels@ =~= self.labels@.take(j as int));
        }
        assert(self.labels@.take(self.labels.len() as int) =~= self.labels@);
        FunctionFrame {
            name: self.name.clone(),
            export: self.export,
            result: match &self.result {
                Some(typ) => Some(typ.clone()),
                None => None,
            },
            instrs,
            parameter: copy_named_types(&self.parameter),
            locals: copy_named_types(&self.locals),
            scopes: self.scopes.clone(),
            labels,
        }
    }
}

impl FunctionFrame {
    /// The frame at the start of a function's compilation: nothing emitted, no
    /// parameter, no local, no scope open, no loop entered.
    pub fn new(
        name: String,
        export: bool,
        result: Option<Type>,
        functions: Vec<Signature>,
    ) -> (frame: Self)
        ensures
            frame@ == (FrameView {
                name,
                export,
                result,
                instrs: Seq::empty(),
                parameter: Seq::empty(),
                locals: Seq::empty(),
                scopes: ScopeTableView { scopes: Seq::empty(), functions: functions@ },
                labels: Seq::empty(),
            }),
    {
        FunctionFrame {
            name,
            export,
            result,
            instrs: Vec::new(),
            parameter: Vec::new(),
            locals: Vec::new(),
            scopes: ScopeTable::new(functions),
            labels: Vec::new(),
        }
    }

    /// Appends one instruction; nothing emitted before is moved or changed.
    pub fn emit(&mut self, instr: Instr)
        ensures
            final(self)@ == old(self)@.emit(instr),
    {
        self.instrs.push(instr);
    }

    /// The number of slots in use, where it is below the limit.
    fn free_slot(&self) -> (slot: Option<Register>)
        ensures
            match slot {
                Some(next) => next == self@.slots() && self@.slots() < SLOT_LIMIT,
                None => self@.slots() >= SLOT_LIMIT,
            },
    {
        let parameters = self.parameter.len();
        let locals = self.locals.len();
        if parameters < SLOT_LIMIT && locals < SLOT_LIMIT - parameters {
            Some((parameters + locals) as Register)
        } else {
            None
        }
    }

    /// Registers a new local and returns its slot, the next one not in use.
    /// Fails with `TooManyLocals`, changing nothing, where every slot is
    /// taken. The name is not bound: that is up to the caller. A name that
    /// is in use already is no error: the new local gets a slot of its own,
    /// and binding the name to it shadows the earlier one.
    pub fn fresh_local(&mut self, name: String, typ: Type) -> (slot: Result<
        Register,
        CompilerError,
    >)
        ensures
            match old(self)@.fresh_local(name, typ) {
                Some((frame, next)) => final(self)@ == frame && slot == Ok::<
                    Register,
                    CompilerError,
                >(next),
                None => final(self)@ == old(self)@ && slot == Err::<Register, CompilerError>(
                    CompilerError::TooManyLocals,
                ),
            },
    {
        match self.free_slot() {
            Some(next) => {
                self.locals.push((name, typ));
                Ok(next)
            },
            None => Err(CompilerError::TooManyLocals),
        }
    }

    /// Registers a new parameter in the next slot not in use and binds its
    /// name to it in the innermost scope. Fails with `TooManyLocals`, changing
    /// nothing, where every slot is taken.
    pub fn add_parameter(&mut self, name: String, typ: Type) -> (added: Result<(), CompilerError>)
        ensures
            match old(self)@.add_parameter(name, typ) {
                Some(frame) => final(self)@ == frame && added is Ok,
                None => final(self)@ == old(self)@ && added == Err::<(), CompilerError>(
                    CompilerError::TooManyLocals,
                ),
            },
    {
        match self.free_slot() {
            Some(next) => {
                self.scopes.bind(name.clone(), BindingKind::Parameter(next));
                self.parameter.push((name, typ));
                Ok(())
            },
            None => Err(CompilerError::TooManyLocals),
        }
    }

    /// Opens a fresh, empty scope inside the current one.
    pub fn enter_scope(&mut self)
        ensures
            final(self)@ == old(self)@.enter_scope(),
    {
        self.scopes.enter_scope();
    }

    /// Closes the innermost scope, if one is open.
    pub fn exit_scope(&mut self)
        ensures
            final(self)@ == old(self)@.exit_scope(),
    {
        self.scopes.exit_scope();
    }

    /// Binds `name` in the innermost scope, shadowing what it denoted before.
    pub fn bind(&mut self, name: String, kind: BindingKind)
        ensures
            final(self)@ == old(self)@.bind(name, kind),
    {
        self.scopes.bind(name, kind);
    }

    /// The labels that a loop entered here would get.
    pub fn loop_labels(&self) -> (labels: (Label, Label))
        ensures
            labels == self@.loop_labels(),
    {
        let depth = self.labels.len();
        (Label::Exit(depth), Label::Continue(depth))
    }

    /// Enters a loop: pushes the labels that leave and repeat it, and returns
    /// them.
    pub fn enter_loop(&mut self) -> (labels: (Label, Label))
        ensures
            final(self)@ == old(self)@.enter_loop(),
            labels == old(self)@.loop_labels(),
    {
        let depth = self.labels.len();
        let labels = (Label::Exit(depth), Label::Continue(depth));
        self.labels.push(labels);
        labels
    }

    /// Leaves the innermost loop, if there is one: pops its labels.
    pub fn exit_loop(&mut self)
        ensures
            final(self)@ == old(self)@.exit_loop(),
    {
        let left = self.labels.pop();
    }
}

/// What the bodies of all functions see of the function `def` defines.
pub open spec fn signature_of(def: Definition) -> Signature {
    match def {
        Definition::Fn { export, name, params, result, body } => Signature {
            name: name.value,
            has_result: result is Some,
        },
    }
}

/// The top-level functions of a program, in source order.
pub open spec fn signatures_spec(defs: Seq<Located<Definition>>) -> Seq<Signature> {
    Seq::new(defs.len(), |i: int| signature_of(defs[i].value))
}

/// The frame with the parameters from index `from` on, each in the next slot
/// and bound to its name.
pub open spec fn add_parameters_spec(
    frame: FrameView,
    params: Seq<Located<Parameter>>,
    from: nat,
) -> Result<FrameView, Failure>
    decreases params.len() - from,
{
    if from >= params.len() {
        Ok(frame)
    } else {
        match frame.add_parameter(
            params[from as int].value.name.value,
            params[from as int].value.typ.value,
        ) {
            None => Err(failure(CompilerError::TooManyLocals, params[from as int].loc)),
            Some(next) => add_parameters_spec(next, params, from + 1),
        }
    }
}

/// The frame at the start of the compilation of a function.
pub open spec fn initial_frame(
    name: String,
    export: bool,
    result: Option<Type>,
    functions: Seq<Signature>,
) -> FrameView {
    FrameView {
        name,
        export,
        result,
        instrs: Seq::empty(),
        parameter: Seq::empty(),
        locals: Seq::empty(),
        scopes: ScopeTableView { scopes: Seq::empty(), functions },
        labels: Seq::empty(),
    }
}

/// The finished frame of the function `def` defines, among the top-level
/// functions `functions`. The parameters are bound in a scope of their own,
/// and the body is lowered in a scope inside it; both are closed at the end.
pub open spec fn compile_function_spec(
    functions: Seq<Signature>,
    def: Located<Definition>,
) -> Result<FrameView, Failure> {
    match def.value {
        Definition::Fn { export, name, params, result, body } => {
            let start = initial_frame(
                name.value,
                export,
                match result {
                    Some(typ) => Some(typ.value),
                    None => None,
                },
                functions,
            );
            match add_parameters_spec(start.enter_scope(), params@, 0) {
                Err(error) => Err(error),
                Ok(declared) => closed(
                    closed(lower_statements_spec(declared.enter_scope(), body.value.0@, 0)),
                ),
            }
        },
    }
}

/// The finished frames of the definitions from index `from` on, in order.
pub open spec fn compile_functions_spec(
    functions: Seq<Signature>,
    defs: Seq<Located<Definition>>,
    from: nat,
) -> Result<Seq<FrameView>, Failure>
    decreases defs.len() - from,
{
    if from >= defs.len() {
        Ok(Seq::empty())
    } else {
        match compile_function_spec(functions, defs[from as int]) {
            Err(error) => Err(error),
            Ok(frame) => match compile_functions_spec(functions, defs, from + 1) {
                Err(error) => Err(error),
                Ok(rest) => Ok(seq![frame] + rest),
            },
        }
    }
}

/// The finished frames of a module: one for each definition, in source
/// order, each compiled among the functions that the module defines.
pub open spec fn compile_module_spec(module: Module) -> Result<Seq<FrameView>, Failure> {
    compile_functions_spec(signatures_spec(module.0@), module.0@, 0)
}

/// The states of a list of frames.
pub open spec fn frame_views(frames: Seq<FunctionFrame>) -> Seq<FrameView> {
    Seq::new(frames.len(), |i: int| frames[i]@)
}

/// The top-level functions that `module` defines, in source order.
pub fn signatures(module: &Module) -> (functions: Vec<Signature>)
    ensures
        functions@ == signatures_spec(module.0@),
{
    let mut functions: Vec<Signature> = Vec::new();
    let mut i: usize = 0;
    while i < module.0.len()
        invariant
            i <= module.0.len(),
            functions.len() == i,
            forall|j: int| 0 <= j < i ==> functions@[j] == signature_of(module.0@[j].value),
        decreases module.0.len() - i,
    {
        match &module.0[i].value {
            Definition::Fn { export, name, params, result, body } => {
                functions.push(
                    Signature { name: name.value.clone(), has_result: result.is_some() },
                );
            },
        }
        i += 1;
    }
    assert(functions@ =~= signatures_spec(module.0@));
    functions
}

impl FunctionFrame {
    /// Registers the parameters `params` in order, each in the next slot and
    /// bound to its name in the innermost scope. Fails with `TooManyLocals`
    /// at the first parameter for which no slot is left.
    pub fn add_parameters(self, params: &Vec<Located<Parameter>>) -> (added: Result<Self, Failure>)
        ensures
            agrees(added, add_parameters_spec(self@, params@, 0)),
    {
        let ghost start = self@;
        let mut frame = self;
        let mut i: usize = 0;
        while i < params.len()
            invariant
                i <= params.len(),
                start == self@,
                add_parameters_spec(frame@, params@, i as nat) == add_parameters_spec(
                    start,
                    params@,
                    0,
                ),
            decreases params.len() - i,
        {
            let name = params[i].value.name.value.clone();
            let typ = params[i].value.typ.value.clone();
            match frame.add_parameter(name, typ) {
                Ok(()) => {},
                Err(error) => {
                    return Err(Located::new(error, copy_span(&params[i].loc)));
                },
            }
            i += 1;
        }
        Ok(frame)
    }

    /// Compiles the function that `def` defines, among the top-level
    /// functions `functions`, in a frame of its own.
    ///
    /// The parameters take the first slots in the order of their declaration;
    /// each local takes the next slot when the compilation comes upon its
    /// binder. The finished frame has no scope open and no loop entered.
    /// Fails, with the first error in the order of the code, as the lowering
    /// of the statements does.
    pub fn compile(functions: Vec<Signature>, def: &Located<Definition>) -> (compiled: Result<
        Self,
        Failure,
    >)
        ensures
            agrees(compiled, compile_function_spec(functions@, *def)),
    {
        match &def.value {
            Definition::Fn { export, name, params, result, body } => {
                let result = match result {
                    Some(typ) => Some(typ.value.clone()),
                    None => None,
                };
                let mut frame = FunctionFrame::new(name.value.clone(), *export, result, functions);
                frame.enter_scope();
                let mut frame = frame.add_parameters(params)?;
                frame.enter_scope();
                let mut frame = frame.lower_statements(&body.value.0)?;
                frame.exit_scope();
                frame.exit_scope();
                Ok(frame)
            },
        }
    }
}

/// The functions compiled so far, in the order of their compilation.
#[derive(Debug)]
pub struct Compiler {
    pub func_frames: Vec<FunctionFrame>,
}

impl View for Compiler {
    type V = Seq<FrameView>;

    open spec fn view(&self) -> Seq<FrameView> {
        frame_views(self.func_frames@)
    }
}

impl Compiler {
    /// A compiler that has compiled nothing yet.
    pub fn new() -> (compiler: Self)
        ensures
            compiler@ == Seq::<FrameView>::empty(),
    {
        let compiler = Compiler { func_frames: Vec::new() };
        assert(compiler@ =~= Seq::<FrameView>::empty());
        compiler
    }

    /// Compiles every function of `module`, in source order, and adds the
    /// finished frames to those compiled before. On the first failure nothing
    /// is added: no part of a module that fails is ever to be seen.
    pub fn compile_module(&mut self, module: &Module) -> (done: Result<(), Failure>)
        ensures
            match compile_module_spec(*module) {
                Ok(frames) => done is Ok && final(self)@ == old(self)@ + frames,
                Err(error) => done == Err::<(), Failure>(error) && *final(self) == *old(self),
            },
    {
        let functions = signatures(module);
        let mut frames: Vec<FunctionFrame> = Vec::new();
        let mut i: usize = 0;
        while i < module.0.len()
            invariant
                i <= module.0.len(),
                functions@ == signatures_spec(module.0@),
                *self == *old(self),
                match compile_functions_spec(functions@, module.0@, i as nat) {
                    Ok(rest) => compile_module_spec(*module) == Ok::<Seq<FrameView>, Failure>(
                        frame_views(frames@) + rest,
                    ),
                    Err(error) => compile_module_spec(*module) == Err::<Seq<FrameView>, Failure>(
                        error,
                    ),
                },
            decreases module.0.len() - i,
        {
            let ghost before = frame_views(frames@);
            let frame = FunctionFrame::compile(copy_signatures(&functions), &module.0[i])?;
            frames.push(frame);
            i += 1;
            proof {
                let rest = compile_functions_spec(functions@, module.0@, i as nat);
                if rest is Ok {
                    assert(frame_views(frames@) + rest->Ok_0 =~= before + (seq![frame@]
                        + rest->Ok_0));
                }
            }
        }
        proof {
            assert(frame_views(self.func_frames@ + frames@) =~= frame_views(self.func_frames@)
                + frame_views(frames@));
            assert(frame_views(frames@) + Seq::<FrameView>::empty() =~= frame_views(frames@));
        }
        self.func_frames.append(&mut frames);
        Ok(())
    }
}

/// A syntax node that compiles into a compiler's state.
pub trait WATCompilable: Sized {
    type Output;

    /// Whether compiling the node may take the compiler from `before` to
    /// `after` with the outcome `output`.
    spec fn compiles(&self, before: Compiler, after: Compiler, output: Result<
        Self::Output,
        Failure,
    >) -> bool;

    fn compile(&self, compiler: &mut Compiler) -> (output: Result<Self::Output, Failure>)
        ensures
            self.compiles(*old(compiler), *final(compiler), output),
    ;
}

impl WATCompilable for Module {
    type Output = ();

    open spec fn compiles(&self, before: Compiler, after: Compiler, output: Result<
        (),
        Failure,
    >) -> bool {
        match compile_module_spec(*self) {
            Ok(frames) => output is Ok && after@ == before@ + frames,
            Err(error) => output == Err::<(), Failure>(error) && after == before,
        }
    }

    fn compile(&self, compiler: &mut Compiler) -> (output: Result<(), Failure>) {
        compiler.compile_module(self)
    }
}

} // verus!