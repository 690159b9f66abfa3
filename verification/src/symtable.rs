//! The symbol table: a stack of lexical scopes.
//!
//! A scope maps the names declared in it to references to their
//! declarations in the syntax tree. Within one scope a name is declared at
//! most once; an inner scope may declare a name of an outer scope again.

use crate::ast::{FuncDecl, GlobalVarDecl, ParamDecl, VarDecl};
use vstd::prelude::*;

verus! {

/// What kind of declaration a name stands for.
#[derive(Debug, Clone, Copy, PartialEq, Eq, Structural)]
pub enum DeclRole {
    GlobalVar,
    Var,
    Param,
    Func,
}

/// How a role reads in a diagnostic.
pub open spec fn role_text(role: DeclRole) -> Seq<char> {
    match role {
        DeclRole::GlobalVar => "global variable"@,
        DeclRole::Var => "local variable"@,
        DeclRole::Param => "function parameter"@,
        DeclRole::Func => "function"@,
    }
}

impl DeclRole {
    /// The text of the role in a diagnostic.
    pub fn format_type(&self) -> (s: &'static str)
        ensures
            s@ == role_text(*self),
    {
        match self {
            DeclRole::GlobalVar => "global variable",
            DeclRole::Var => "local variable",
            DeclRole::Param => "function parameter",
            DeclRole::Func => "function",
        }
    }
}

/// A reference to a declaration in the syntax tree.
#[derive(Debug)]
pub enum DeclRef<'a> {
    GlobalVar(&'a GlobalVarDecl),
    Var(&'a VarDecl),
    Param(&'a ParamDecl),
    Func(&'a FuncDecl),
}

impl<'a> DeclRef<'a> {
    /// The kind of declaration that is referred to.
    pub open spec fn role(&self) -> DeclRole {
        match self {
            DeclRef::GlobalVar(_) => DeclRole::GlobalVar,
            DeclRef::Var(_) => DeclRole::Var,
            DeclRef::Param(_) => DeclRole::Param,
            DeclRef::Func(_) => DeclRole::Func,
        }
    }

    /// The kind of declaration that is referred to.
    pub fn get_role(&self) -> (r: DeclRole)
        ensures
            r == self.role(),
    {
        match self {
            DeclRef::GlobalVar(_) => DeclRole::GlobalVar,
            DeclRef::Var(_) => DeclRole::Var,
            DeclRef::Param(_) => DeclRole::Param,
            DeclRef::Func(_) => DeclRole::Func,
        }
    }

    /// The text of the role in a diagnostic.
    pub fn format_type(&self) -> (s: &'static str)
        ensures
            s@ == role_text(self.role()),
    {
        self.get_role().format_type()
    }
}

/// A declaration that a symbol table can refer to.
pub trait DeclRefCreation<'a> {
    /// The reference to this declaration.
    spec fn decl_ref(&'a self) -> DeclRef<'a>;

    /// Makes the reference to this declaration.
    fn to_decl_ref(&'a self) -> (r: DeclRef<'a>)
        ensures
            r == self.decl_ref(),
    ;
}

impl<'a> DeclRefCreation<'a> for FuncDecl {
    open spec fn decl_ref(&'a self) -> DeclRef<'a> {
        DeclRef::Func(self)
    }

    fn to_decl_ref(&'a self) -> DeclRef<'a> {
        DeclRef::Func(self)
    }
}

impl<'a> DeclRefCreation<'a> for VarDecl {
    open spec fn decl_ref(&'a self) -> DeclRef<'a> {
        DeclRef::Var(self)
    }

    fn to_decl_ref(&'a self) -> DeclRef<'a> {
        DeclRef::Var(self)
    }
}

impl<'a> DeclRefCreation<'a> for GlobalVarDecl {
    open spec fn decl_ref(&'a self) -> DeclRef<'a> {
        DeclRef::GlobalVar(self)
    }

    fn to_decl_ref(&'a self) -> DeclRef<'a> {
        DeclRef::GlobalVar(self)
    }
}

impl<'a> DeclRefCreation<'a> for ParamDecl {
    open spec fn decl_ref(&'a self) -> DeclRef<'a> {
        DeclRef::Param(self)
    }

    fn to_decl_ref(&'a self) -> DeclRef<'a> {
        DeclRef::Param(self)
    }
}

/// A name that is declared twice in one scope.
#[derive(Debug, PartialEq)]
pub struct SemanticError {
    /// The name.
    pub name: String,
    /// The role of the declaration that was refused.
    pub new_role: DeclRole,
    /// The role of the declaration that the scope already holds.
    pub existing: DeclRole,
}

/// Model of a semantic error.
pub struct SemanticErrorView {
    pub name: Seq<char>,
    pub new_role: DeclRole,
    pub existing: DeclRole,
}

impl View for SemanticError {
    type V = SemanticErrorView;

    open spec fn view(&self) -> SemanticErrorView {
        SemanticErrorView { name: self.name@, new_role: self.new_role, existing: self.existing }
    }
}

/// How a semantic error reads.
pub open spec fn semantic_error_text(e: SemanticErrorView) -> Seq<char> {
    role_text(e.new_role) + " '"@ + e.name + "' is already defined as "@ + role_text(e.existing)
}

impl SemanticError {
    /// The text of the error: the name and the roles of both declarations.
    pub fn message(&self) -> (s: String)
        ensures
            s@ == semantic_error_text(self@),
    {
        let mut s = String::from_str(self.new_role.format_type());
        s.append(" '");
        s.append(self.name.as_str());
        s.append("' is already defined as ");
        s.append(self.existing.format_type());
        s
    }
}

/// A name of a scope with the declaration that it stands for.
#[derive(Debug)]
struct ScopeEntry<'a> {
    name: String,
    decl: DeclRef<'a>,
}

/// The declarations of the entries `entries`, by name.
spec fn entries_map<'a>(entries: Seq<ScopeEntry<'a>>) -> Map<Seq<char>, DeclRef<'a>>
    decreases entries.len(),
{
    if entries.len() == 0 {
        Map::empty()
    } else {
        entries_map(entries.drop_last()).insert(entries.last().name@, entries.last().decl)
    }
}

/// The names of `entries` are exactly the names that the map of the
/// entries holds, and each stands for the declaration of its entry.
proof fn lemma_entries_map<'a>(entries: Seq<ScopeEntry<'a>>)
    requires
        forall|i: int, j: int|
            0 <= i < j < entries.len() ==> entries[i].name@ != entries[j].name@,
    ensures
        forall|i: int|
            0 <= i < entries.len() ==> entries_map(entries).dom().contains(
                #[trigger] entries[i].name@,
            ) && entries_map(entries)[entries[i].name@] == entries[i].decl,
        forall|name: Seq<char>| #[trigger]
            entries_map(entries).dom().contains(name) ==> exists|i: int|
                0 <= i < entries.len() && entries[i].name@ == name,
    decreases entries.len(),
{
    if entries.len() > 0 {
        let front = entries.drop_last();
        lemma_entries_map(front);
        assert forall|i: int| 0 <= i < entries.len() implies entries_map(entries).dom().contains(
            #[trigger] entries[i].name@,
        ) && entries_map(entries)[entries[i].name@] == entries[i].decl by {
            if i < entries.len() - 1 {
                assert(front[i] == entries[i]);
            }
        }
        assert forall|name: Seq<char>| #[trigger]
            entries_map(entries).dom().contains(name) implies exists|i: int|
            0 <= i < entries.len() && entries[i].name@ == name by {
            if name == entries.last().name@ {
                assert(entries[entries.len() - 1].name@ == name);
            } else {
                assert(entries_map(front).dom().contains(name));
                let i = choose|i: int| 0 <= i < front.len() && front[i].name@ == name;
                assert(entries[i].name@ == name);
            }
        }
    }
}

/// One lexical scope: the names declared in it.
#[derive(Debug)]
pub struct SymScope<'a> {
    entries: Vec<ScopeEntry<'a>>,
}

impl<'a> View for SymScope<'a> {
    type V = Map<Seq<char>, DeclRef<'a>>;

    closed spec fn view(&self) -> Map<Seq<char>, DeclRef<'a>> {
        entries_map(self.entries@)
    }
}

impl<'a> SymScope<'a> {
    /// No name is declared twice.
    pub closed spec fn wf(&self) -> bool {
        forall|i: int, j: int|
            0 <= i < j < self.entries@.len() ==> self.entries@[i].name@ != self.entries@[j].name@
    }

    /// An empty scope.
    pub fn new() -> (scope: Self)
        ensures
            scope.wf(),
            scope@ == Map::<Seq<char>, DeclRef<'a>>::empty(),
    {
        SymScope { entries: Vec::new() }
    }

    /// Declares `name` in this scope, unless the scope holds the name
    /// already.
    pub fn insert_decl<T>(&mut self, name: &str, decl: &'a T) -> (r: Result<(), SemanticError>) where
        T: DeclRefCreation<'a>,

        requires
            old(self).wf(),
        ensures
            final(self).wf(),
            old(self)@.dom().contains(name@) ==> final(self)@ == old(self)@ && (r matches Err(e)
                && e@ == (SemanticErrorView {
                name: name@,
                new_role: decl.decl_ref().role(),
                existing: old(self)@[name@].role(),
            })),
            !old(self)@.dom().contains(name@) ==> r is Ok && final(self)@ == old(self)@.insert(
                name@,
                decl.decl_ref(),
            ),
    {
        let v: DeclRef<'a> = decl.to_decl_ref();
        let new_role = v.get_role();
        let existing = match self.find(name) {
            Some(i) => Some(self.entries[i].decl.get_role()),
            None => None,
        };
        match existing {
            Some(role) => Err(
                SemanticError { name: String::from_str(name), new_role, existing: role },
            ),
            None => {
                let ghost before = self.entries@;
                self.entries.push(ScopeEntry { name: String::from_str(name), decl: v });
                proof {
                    lemma_entries_map(before);
                    assert(self.entries@.drop_last() =~= before);
                }
                Ok(())
            },
        }
    }

    /// The declaration that `name` stands for in this scope, if the scope
    /// holds the name.
    pub fn lookup_decl<T>(&self, name: &str) -> (r: Option<&DeclRef<'a>>)
        requires
            self.wf(),
        ensures
            match r {
                Some(d) => self@.dom().contains(name@) && *d == self@[name@],
                None => !self@.dom().contains(name@),
            },
    {
        match self.find(name) {
            Some(i) => Some(&self.entries[i].decl),
            None => None,
        }
    }

    /// The index of the entry of `name`, if there is one.
    fn find(&self, name: &str) -> (r: Option<usize>)
        requires
            self.wf(),
        ensures
            match r {
                Some(i) => i < self.entries@.len() && self.entries@[i as int].name@ == name@
                    && self@.dom().contains(name@) && self@[name@] == self.entries@[i as int].decl,
                None => !self@.dom().contains(name@),
            },
    {
        let wanted = String::from_str(name);
        proof {
            lemma_entries_map(self.entries@);
        }
        let mut i: usize = 0;
        while i < self.entries.len()
            invariant
                i <= self.entries.len(),
                wanted@ == name@,
                forall|k: int| 0 <= k < i ==> self.entries@[k].name@ != name@,
                forall|k: int|
                    0 <= k < self.entries@.len() ==> self@.dom().contains(
                        #[trigger] self.entries@[k].name@,
                    ) && self@[self.entries@[k].name@] == self.entries@[k].decl,
            decreases self.entries.len() - i,
        {
            if self.entries[i].name == wanted {
                return Some(i);
            }
            i = i + 1;
        }
        None
    }
}

/// The stack of the scopes that are open, the innermost last.
#[derive(Debug)]
pub struct SymTable<'a> {
    stack: Vec<SymScope<'a>>,
}

impl<'a> View for SymTable<'a> {
    type V = Seq<Map<Seq<char>, DeclRef<'a>>>;

    closed spec fn view(&self) -> Seq<Map<Seq<char>, DeclRef<'a>>> {
        Seq::new(self.stack@.len(), |i: int| self.stack@[i]@)
    }
}

impl<'a> SymTable<'a> {
    /// Every open scope declares each of its names once.
    pub closed spec fn wf(&self) -> bool {
        forall|i: int| 0 <= i < self.stack@.len() ==> (#[trigger] self.stack@[i]).wf()
    }

    /// A table without an open scope.
    pub fn new() -> (table: Self)
        ensures
            table.wf(),
            table@.len() == 0,
    {
        SymTable { stack: Vec::new() }
    }

    /// Opens a new, empty scope inside the current one.
    pub fn push_scope(&mut self)
        requires
            old(self).wf(),
        ensures
            final(self).wf(),
            final(self)@ == old(self)@.push(Map::<Seq<char>, DeclRef<'a>>::empty()),
    {
        let scope = SymScope::new();
        self.stack.push(scope);
    }

    /// Closes the current scope, if there is one.
    pub fn pop_scope(&mut self)
        requires
            old(self).wf(),
        ensures
            final(self).wf(),
            old(self)@.len() > 0 ==> final(self)@ == old(self)@.drop_last(),
            old(self)@.len() == 0 ==> final(self)@ == old(self)@,
    {
        let _ = self.stack.pop();
    }

    /// The current scope: the innermost that is open.
    pub fn cur_scope(&mut self) -> (scope: &mut SymScope<'a>)
        requires
            old(self).wf(),
            old(self)@.len() > 0,
        ensures
            scope.wf(),
            scope@ == old(self)@.last(),
            final(scope).wf() ==> final(self).wf(),
            final(self)@ == old(self)@.update(old(self)@.len() - 1, final(scope)@),
    {
        let len = self.stack.len();
        &mut self.stack[len - 1]
    }
}

} // verus!
