//! Scopes and type errors.
use vstd::hash_map::StringHashMap;
use vstd::prelude::*;
use crate::parser::types::{same_type, Type, TypeView};

verus! {

/// Why a type check failed.
#[derive(Debug)]
pub enum TypeError {
    /// A type that cannot stand where it was found.
    Invalid(Type),
    /// A type other than the one that was needed.
    Unexpected { got: Type, expected: Type },
    /// A name that nothing defines.
    InvalidIdentifier(String),
}

/// The mathematical value of a [`TypeError`].
pub enum TypeErrorView {
    Invalid(TypeView),
    Unexpected { got: TypeView, expected: TypeView },
    InvalidIdentifier(Seq<char>),
}

impl View for TypeError {
    type V = TypeErrorView;

    open spec fn view(&self) -> TypeErrorView {
        match self {
            TypeError::Invalid(ty) => TypeErrorView::Invalid(ty@),
            TypeError::Unexpected { got, expected } => TypeErrorView::Unexpected {
                got: got@,
                expected: expected@,
            },
            TypeError::InvalidIdentifier(name) => TypeErrorView::InvalidIdentifier(name@),
        }
    }
}

/// The mathematical value of the result of a check.
pub open spec fn verdict<T: DeepView>(r: Result<T, TypeError>) -> Result<T::V, TypeErrorView> {
    match r {
        Ok(value) => Ok(value.deep_view()),
        Err(e) => Err(e@),
    }
}

/// What a scope says, with the scopes around it taken into account: the
/// type that each type name stands for and the type of each variable.
pub struct ScopeView {
    pub types: Map<Seq<char>, TypeView>,
    pub vars: Map<Seq<char>, TypeView>,
}

/// The value of every type of a table.
pub open spec fn table_model(table: Map<Seq<char>, Type>) -> Map<Seq<char>, TypeView> {
    table.map_values(|ty: Type| ty@)
}

/// A lexical scope: the type names and variables defined in it, and the
/// scope around it. Names are looked up here first, then outwards; they are
/// defined here only.
pub struct Scope<'a> {
    parent: Option<&'a Scope<'a>>,
    types: StringHashMap<Type>,
    vars: StringHashMap<Type>,
}

impl<'a> Scope<'a> {
    /// What the scope says.
    pub closed spec fn model(&self) -> ScopeView
        decreases self,
    {
        match self.parent {
            None => ScopeView { types: table_model(self.types@), vars: table_model(self.vars@) },
            Some(parent) => ScopeView {
                types: parent.model().types.union_prefer_right(table_model(self.types@)),
                vars: parent.model().vars.union_prefer_right(table_model(self.vars@)),
            },
        }
    }

    /// A scope that defines nothing, with no scope around it.
    pub fn new() -> (r: Scope<'a>)
        ensures
            r@.types == Map::<Seq<char>, TypeView>::empty(),
            r@.vars == Map::<Seq<char>, TypeView>::empty(),
    {
        let r = Scope { parent: None, types: StringHashMap::new(), vars: StringHashMap::new() };
        assert(r.model().types =~= Map::<Seq<char>, TypeView>::empty());
        assert(r.model().vars =~= Map::<Seq<char>, TypeView>::empty());
        r
    }

    /// A scope inside this one, which defines nothing yet.
    pub fn create_child<'b>(&'b self) -> (r: Scope<'b>)
        ensures
            r@ == self@,
    {
        let r = Scope { parent: Some(self), types: StringHashMap::new(), vars: StringHashMap::new() };
        assert(r.model().types =~= self.model().types);
        assert(r.model().vars =~= self.model().vars);
        r
    }

    /// The type that the name stands for, here or in a scope around.
    pub fn get_type(&self, name: &str) -> (r: Option<Type>)
        ensures
            r.deep_view() == (if self@.types.contains_key(name@) {
                Some(self@.types[name@])
            } else {
                None
            }),
        decreases self,
    {
        match self.types.get(name) {
            Some(ty) => Some(ty.clone()),
            None => match self.parent {
                Some(parent) => parent.get_type(name),
                None => None,
            },
        }
    }

    /// Defines a type name in this scope.
    pub fn set_type(&mut self, name: &str, ty: Type)
        ensures
            final(self)@.types == old(self)@.types.insert(name@, ty@),
            final(self)@.vars == old(self)@.vars,
    {
        self.types.insert(name.to_owned(), ty);
        assert(self.model().types =~= old(self).model().types.insert(name@, ty@));
    }

    /// The type of the variable, here or in a scope around.
    pub fn get_var(&self, name: &str) -> (r: Option<Type>)
        ensures
            r.deep_view() == (if self@.vars.contains_key(name@) {
                Some(self@.vars[name@])
            } else {
                None
            }),
        decreases self,
    {
        match self.vars.get(name) {
            Some(ty) => Some(ty.clone()),
            None => match self.parent {
                Some(parent) => parent.get_var(name),
                None => None,
            },
        }
    }

    /// Defines a variable in this scope.
    pub fn set_var(&mut self, name: &str, ty: Type)
        ensures
            final(self)@.vars == old(self)@.vars.insert(name@, ty@),
            final(self)@.types == old(self)@.types,
    {
        self.vars.insert(name.to_owned(), ty);
        assert(self.model().vars =~= old(self).model().vars.insert(name@, ty@));
    }
}

impl<'a> View for Scope<'a> {
    type V = ScopeView;

    open spec fn view(&self) -> ScopeView {
        self.model()
    }
}

/// Accepts `ty` if it is the same type as `expected`.
pub fn expect_type(ty: Type, expected: Type) -> (r: Result<Type, TypeError>)
    ensures
        verdict(r) == (if same_type(ty@, expected@) {
            Ok::<TypeView, TypeErrorView>(ty@)
        } else {
            Err::<TypeView, TypeErrorView>(TypeErrorView::Unexpected { got: ty@, expected: expected@ })
        }),
{
    if ty.same_as(&expected) {
        Ok(ty)
    } else {
        Err(TypeError::Unexpected { got: ty, expected })
    }
}

} // verus!
