//! The scope and binding table: which parameter, local or top-level function a
//! name denotes at the point of use.
//!
//! Scopes nest lexically. A name is looked up from the innermost scope
//! outwards, within a scope from the latest binding backwards, and last among
//! the top-level functions, of which the first of a given name counts.
//! Binding a name again, in the same scope or a nested one, shadows the earlier
//! binding and is no error.

use crate::compiler::CompilerError;
use vstd::prelude::*;

verus! {

/// The index of a parameter's or a local's storage within a function.
pub type Register = u16;

/// What a name denotes.
#[derive(Debug, PartialEq, Eq)]
pub enum BindingKind {
    /// The parameter stored in the given slot.
    Parameter(Register),
    /// The local stored in the given slot.
    Local(Register),
    /// The top-level function of the given name.
    Function(String),
}

impl Clone for BindingKind {
    fn clone(&self) -> (res: Self)
        ensures
            res == *self,
    {
        match self {
            BindingKind::Parameter(slot) => BindingKind::Parameter(*slot),
            BindingKind::Local(slot) => BindingKind::Local(*slot),
            BindingKind::Function(name) => BindingKind::Function(name.clone()),
        }
    }
}

/// One entry of a scope.
#[derive(Debug)]
pub struct Binding {
    pub name: String,
    pub kind: BindingKind,
}

impl Clone for Binding {
    fn clone(&self) -> (res: Self)
        ensures
            res == *self,
    {
        Binding { name: self.name.clone(), kind: self.kind.clone() }
    }
}

/// A top-level function as the bodies of all functions see it.
#[derive(Debug)]
pub struct Signature {
    pub name: String,
    /// Whether the function declares a result type.
    pub has_result: bool,
}

impl Clone for Signature {
    fn clone(&self) -> (res: Self)
        ensures
            res == *self,
    {
        Signature { name: self.name.clone(), has_result: self.has_result }
    }
}

/// The kind that the latest entry for `name` gives it.
pub open spec fn lookup(entries: Seq<Binding>, name: Seq<char>) -> Option<BindingKind>
    decreases entries.len(),
{
    if entries.len() == 0 {
        None
    } else if entries.last().name@ == name {
        Some(entries.last().kind)
    } else {
        lookup(entries.drop_last(), name)
    }
}

/// The kind that the innermost scope with an entry for `name` gives it.
pub open spec fn lookup_scopes(scopes: Seq<Seq<Binding>>, name: Seq<char>) -> Option<BindingKind>
    decreases scopes.len(),
{
    if scopes.len() == 0 {
        None
    } else {
        match lookup(scopes.last(), name) {
            Some(kind) => Some(kind),
            None => lookup_scopes(scopes.drop_last(), name),
        }
    }
}

/// The first function called `name`.
pub open spec fn lookup_function(functions: Seq<Signature>, name: Seq<char>) -> Option<Signature>
    decreases functions.len(),
{
    if functions.len() == 0 {
        None
    } else if functions.first().name@ == name {
        Some(functions.first())
    } else {
        lookup_function(functions.drop_first(), name)
    }
}

/// The table as a stack of scopes, innermost last, over the top-level functions.
#[verifier::ext_equal]
pub struct ScopeTableView {
    pub scopes: Seq<Seq<Binding>>,
    pub functions: Seq<Signature>,
}

impl ScopeTableView {
    pub open spec fn resolve(self, name: Seq<char>) -> Option<BindingKind> {
        match lookup_scopes(self.scopes, name) {
            Some(kind) => Some(kind),
            None => match lookup_function(self.functions, name) {
                Some(function) => Some(BindingKind::Function(function.name)),
                None => None,
            },
        }
    }

    /// Whether `name` denotes a top-level function that declares a result.
    pub open spec fn has_result(self, name: Seq<char>) -> bool {
        match lookup_function(self.functions, name) {
            Some(function) => function.has_result,
            None => false,
        }
    }

    pub open spec fn enter_scope(self) -> Self {
        ScopeTableView { scopes: self.scopes.push(Seq::empty()), ..self }
    }

    pub open spec fn exit_scope(self) -> Self {
        if self.scopes.len() == 0 {
            self
        } else {
            ScopeTableView { scopes: self.scopes.drop_last(), ..self }
        }
    }

    pub open spec fn bind(self, name: String, kind: BindingKind) -> Self {
        let binding = Binding { name, kind };
        if self.scopes.len() == 0 {
            ScopeTableView { scopes: seq![seq![binding]], ..self }
        } else {
            ScopeTableView {
                scopes: self.scopes.update(self.scopes.len() - 1, self.scopes.last().push(binding)),
                ..self
            }
        }
    }
}

/// The entries of each scope of a stack of scopes.
pub open spec fn scope_views(scopes: Seq<Vec<Binding>>) -> Seq<Seq<Binding>> {
    Seq::new(scopes.len(), |i: int| scopes[i]@)
}

/// The scopes open at one point of a function body, and the top-level
/// functions that every body sees.
#[derive(Debug)]
pub struct ScopeTable {
    pub scopes: Vec<Vec<Binding>>,
    pub functions: Vec<Signature>,
}

impl View for ScopeTable {
    type V = ScopeTableView;

    open spec fn view(&self) -> ScopeTableView {
        ScopeTableView {
            scopes: scope_views(self.scopes@),
            functions: self.functions@,
        }
    }
}

/// A copy of a sequence of bindings.
pub fn copy_bindings(entries: &Vec<Binding>) -> (res: Vec<Binding>)
    ensures
        res@ == entries@,
{
    let mut res: Vec<Binding> = Vec::new();
    let mut i: usize = 0;
    while i < entries.len()
        invariant
            i <= entries.len(),
            res@ == entries@.take(i as int),
        decreases entries.len() - i,
    {
        res.push(entries[i].clone());
        i += 1;
        assert(res@ =~= entries@.take(i as int));
    }
    assert(entries@.take(entries.len() as int) =~= entries@);
    res
}

/// A copy of a list of signatures.
pub fn copy_signatures(functions: &Vec<Signature>) -> (res: Vec<Signature>)
    ensures
        res@ == functions@,
{
    let mut res: Vec<Signature> = Vec::new();
    let mut i: usize = 0;
    while i < functions.len()
        invariant
            i <= functions.len(),
            res@ == functions@.take(i as int),
        decreases functions.len() - i,
    {
        res.push(functions[i].clone());
        i += 1;
        assert(res@ =~= functions@.take(i as int));
    }
    assert(functions@.take(functions.len() as int) =~= functions@);
    res
}

impl Clone for ScopeTable {
    fn clone(&self) -> (res: Self)
        ensures
            res@ == self@,
    {
        let mut scopes: Vec<Vec<Binding>> = Vec::new();
        let mut i: usize = 0;
        while i < self.scopes.len()
            invariant
                i <= self.scopes.len(),
                scopes.len() == i,
                forall|j: int| 0 <= j < i ==> scopes@[j]@ == self.scopes@[j]@,
            decreases self.scopes.len() - i,
        {
            scopes.push(copy_bindings(&self.scopes[i]));
            i += 1;
        }
        assert(scope_views(scopes@) =~= scope_views(self.scopes@));
        ScopeTable { scopes, functions: copy_signatures(&self.functions) }
    }
}

/// Looks `name` up among the entries of one scope, latest first.
fn find_binding(entries: &Vec<Binding>, name: &String) -> (found: Option<BindingKind>)
    ensures
        found == lookup(entries@, name@),
{
    let mut i: usize = entries.len();
    assert(entries@.take(i as int) =~= entries@);
    while i > 0
        invariant
            i <= entries.len(),
            lookup(entries@, name@) == lookup(entries@.take(i as int), name@),
        decreases i,
    {
        i -= 1;
        assert(entries@.take(i + 1).drop_last() =~= entries@.take(i as int));
        if entries[i].name == *name {
            return Some(entries[i].kind.clone());
        }
    }
    None
}

/// Looks `name` up among the top-level functions, first declared first.
fn find_function<'a>(functions: &'a Vec<Signature>, name: &String) -> (found: Option<&'a Signature>)
    ensures
        match lookup_function(functions@, name@) {
            Some(function) => found == Some(&function),
            None => found is None,
        },
{
    let mut i: usize = 0;
    assert(functions@.skip(0) =~= functions@);
    while i < functions.len()
        invariant
            i <= functions.len(),
            lookup_function(functions@, name@) == lookup_function(functions@.skip(i as int), name@),
        decreases functions.len() - i,
    {
        assert(functions@.skip(i as int).drop_first() =~= functions@.skip(i + 1));
        if functions[i].name == *name {
            return Some(&functions[i]);
        }
        i += 1;
    }
    None
}

impl ScopeTable {
    /// A table with no scope open, over the given top-level functions.
    pub fn new(functions: Vec<Signature>) -> (table: Self)
        ensures
            table@.scopes == Seq::<Seq<Binding>>::empty(),
            table@.functions == functions@,
    {
        let table = ScopeTable { scopes: Vec::new(), functions };
        assert(table@.scopes =~= Seq::<Seq<Binding>>::empty());
        table
    }

    /// Opens a fresh, empty scope inside the current one.
    pub fn enter_scope(&mut self)
        ensures
            final(self)@ == old(self)@.enter_scope(),
    {
        self.scopes.push(Vec::new());
        assert(self@.scopes =~= old(self)@.scopes.push(Seq::empty()));
    }

    /// Closes the innermost scope: every name it bound denotes again what it
    /// did outside. With no scope open nothing changes.
    pub fn exit_scope(&mut self)
        ensures
            final(self)@ == old(self)@.exit_scope(),
    {
        let closed = self.scopes.pop();
        assert(self@.scopes =~= old(self)@.exit_scope().scopes);
    }

    /// Binds `name` in the innermost scope, shadowing what it denoted before.
    /// With no scope open, the binding opens one.
    pub fn bind(&mut self, name: String, kind: BindingKind)
        ensures
            final(self)@ == old(self)@.bind(name, kind),
    {
        let mut innermost = match self.scopes.pop() {
            Some(scope) => scope,
            None => Vec::new(),
        };
        innermost.push(Binding { name, kind });
        self.scopes.push(innermost);
        assert(self@.scopes =~= old(self)@.bind(name, kind).scopes);
    }

    /// What `name` denotes here, or `NotFound` with the name where neither a
    /// scope nor a top-level function knows it.
    pub fn resolve(&self, name: &String) -> (found: Result<BindingKind, CompilerError>)
        ensures
            match self@.resolve(name@) {
                Some(kind) => found == Ok::<BindingKind, CompilerError>(kind),
                None => found == Err::<BindingKind, CompilerError>(CompilerError::NotFound(*name)),
            },
    {
        let mut i: usize = self.scopes.len();
        assert(self@.scopes.take(i as int) =~= self@.scopes);
        while i > 0
            invariant
                i <= self.scopes.len(),
                lookup_scopes(self@.scopes, name@) == lookup_scopes(
                    self@.scopes.take(i as int),
                    name@,
                ),
            decreases i,
        {
            i -= 1;
            assert(self@.scopes.take(i + 1).drop_last() =~= self@.scopes.take(i as int));
            assert(self@.scopes.take(i + 1).last() == self.scopes@[i as int]@);
            match find_binding(&self.scopes[i], name) {
                Some(kind) => {
                    return Ok(kind);
                },
                None => {},
            }
        }
        match find_function(&self.functions, name) {
            Some(function) => Ok(BindingKind::Function(function.name.clone())),
            None => Err(CompilerError::NotFound(name.clone())),
        }
    }

    /// Whether `name` denotes a top-level function that declares a result.
    pub fn has_result(&self, name: &String) -> (yes: bool)
        ensures
            yes == self@.has_result(name@),
    {
        match find_function(&self.functions, name) {
            Some(function) => function.has_result,
            None => false,
        }
    }
}

} // verus!
