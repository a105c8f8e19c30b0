//! Types of the source language: the syntax tree, its mathematical value,
//! and the parser of type expressions.
use vstd::prelude::*;
use vstd::std_specs::cmp::PartialEqSpecImpl;
use crate::lexer::lexer::{expect_ident, expect_int, expect_token, token_at, Lexer};
use crate::lexer::token::{Token, TokenView};
use crate::parser::laws::lemma_parsed_type_well_formed;
use crate::parser::helpers::{
    build_hashmap_from_entries, duplicate_key_error, has_duplicate_key, keyed,
    lemma_duplicate_key_by_keys, parses_as, tokens_left, ParseError, ParseErrorView, Parsed,
};

verus! {

/// A type of the source language.
///
/// The fields of a record are kept in the order in which they were written;
/// no name occurs twice in a record that the parser made. Two records are
/// the same type when they have the same fields, in whatever order.
#[derive(Debug)]
pub enum Type {
    Int,
    Float,
    String,
    Char,
    Bool,
    Void,
    Named(String),
    Ptr(Box<Type>),
    SizedArray { element: Box<Type>, len: i64 },
    Array(Box<Type>),
    Struct(Vec<(String, Type)>),
    Tuple(Vec<Type>),
    Function { args: Vec<Type>, ret: Box<Type> },
}

/// The mathematical value of a [`Type`].
pub enum TypeView {
    Int,
    Float,
    String,
    Char,
    Bool,
    Void,
    Named(Seq<char>),
    Ptr(Box<TypeView>),
    SizedArray { element: Box<TypeView>, len: i64 },
    Array(Box<TypeView>),
    Struct(Seq<(Seq<char>, TypeView)>),
    Tuple(Seq<TypeView>),
    Function { args: Seq<TypeView>, ret: Box<TypeView> },
}

impl Type {
    /// The mathematical value of the type.
    pub open spec fn model(&self) -> TypeView
        decreases self,
    {
        match self {
            Type::Int => TypeView::Int,
            Type::Float => TypeView::Float,
            Type::String => TypeView::String,
            Type::Char => TypeView::Char,
            Type::Bool => TypeView::Bool,
            Type::Void => TypeView::Void,
            Type::Named(name) => TypeView::Named(name@),
            Type::Ptr(inner) => TypeView::Ptr(Box::new(inner.model())),
            Type::SizedArray { element, len } => TypeView::SizedArray {
                element: Box::new(element.model()),
                len: *len,
            },
            Type::Array(element) => TypeView::Array(Box::new(element.model())),
            Type::Struct(fields) => TypeView::Struct(
                Seq::new(
                    fields@.len(),
                    |i: int|
                        if 0 <= i < fields@.len() {
                            (fields@[i].0@, fields@[i].1.model())
                        } else {
                            arbitrary()
                        },
                ),
            ),
            Type::Tuple(items) => TypeView::Tuple(
                Seq::new(
                    items@.len(),
                    |i: int|
                        if 0 <= i < items@.len() {
                            items@[i].model()
                        } else {
                            arbitrary()
                        },
                ),
            ),
            Type::Function { args, ret } => TypeView::Function {
                args: Seq::new(
                    args@.len(),
                    |i: int|
                        if 0 <= i < args@.len() {
                            args@[i].model()
                        } else {
                            arbitrary()
                        },
                ),
                ret: Box::new(ret.model()),
            },
        }
    }

    /// The value of a record is the record of the values of its fields.
    pub proof fn lemma_struct_model(fields: Vec<(String, Type)>)
        ensures
            Type::Struct(fields)@ == TypeView::Struct(fields.deep_view()),
    {
        assert(Type::Struct(fields)@->Struct_0 =~= fields.deep_view());
    }

    /// The value of a tuple is the tuple of the values of its items.
    pub proof fn lemma_tuple_model(items: Vec<Type>)
        ensures
            Type::Tuple(items)@ == TypeView::Tuple(items.deep_view()),
    {
        assert(Type::Tuple(items)@->Tuple_0 =~= items.deep_view());
    }

    /// The value of a function type is made of the values of its parts.
    pub proof fn lemma_function_model(args: Vec<Type>, ret: Box<Type>)
        ensures
            (Type::Function { args, ret })@ == (TypeView::Function {
                args: args.deep_view(),
                ret: Box::new(ret@),
            }),
    {
        assert((Type::Function { args, ret })@->Function_args =~= args.deep_view());
    }
}

impl View for Type {
    type V = TypeView;

    open spec fn view(&self) -> TypeView {
        self.model()
    }
}

impl DeepView for Type {
    type V = TypeView;

    open spec fn deep_view(&self) -> TypeView {
        self.model()
    }
}

/// The position of the first field named `name` at or after `from`, if
/// there is one.
pub open spec fn field_index<V>(fields: Seq<(Seq<char>, V)>, name: Seq<char>, from: int) -> Option<
    int,
>
    decreases fields.len() - from,
{
    if !(0 <= from < fields.len()) {
        None
    } else if fields[from].0 == name {
        Some(from)
    } else {
        field_index(fields, name, from + 1)
    }
}

/// What `field_index` finds is a field of that name, the first one.
pub proof fn lemma_field_index<V>(fields: Seq<(Seq<char>, V)>, name: Seq<char>, from: int)
    requires
        0 <= from,
    ensures
        match field_index(fields, name, from) {
            Some(i) => from <= i < fields.len() && fields[i].0 == name && forall|j: int|
                from <= j < i ==> fields[j].0 != name,
            None => forall|j: int| from <= j < fields.len() ==> fields[j].0 != name,
        },
    decreases fields.len() - from,
{
    if from < fields.len() && fields[from].0 != name {
        lemma_field_index(fields, name, from + 1);
    }
}

/// The value of the first field named `name`, if there is one.
pub open spec fn field_value<V>(fields: Seq<(Seq<char>, V)>, name: Seq<char>) -> Option<V> {
    match field_index(fields, name, 0) {
        Some(i) => Some(fields[i].1),
        None => None,
    }
}

/// Whether all of `items` are pairwise the same type as those of `others`.
pub open spec fn same_types(items: Seq<TypeView>, others: Seq<TypeView>) -> bool
    decreases items, 0nat,
{
    items.len() == others.len() && forall|i: int|
        0 <= i < items.len() ==> same_type(#[trigger] items[i], others[i])
}

/// Whether two types are the same: they are built alike from the same parts,
/// the fields of a record in whatever order.
pub open spec fn same_type(a: TypeView, b: TypeView) -> bool
    decreases a, 1nat,
{
    match (a, b) {
        (TypeView::Int, TypeView::Int) => true,
        (TypeView::Float, TypeView::Float) => true,
        (TypeView::String, TypeView::String) => true,
        (TypeView::Char, TypeView::Char) => true,
        (TypeView::Bool, TypeView::Bool) => true,
        (TypeView::Void, TypeView::Void) => true,
        (TypeView::Named(x), TypeView::Named(y)) => x == y,
        (TypeView::Ptr(x), TypeView::Ptr(y)) => same_type(*x, *y),
        (
            TypeView::SizedArray { element: x, len: n },
            TypeView::SizedArray { element: y, len: m },
        ) => n == m && same_type(*x, *y),
        (TypeView::Array(x), TypeView::Array(y)) => same_type(*x, *y),
        (TypeView::Struct(x), TypeView::Struct(y)) => x.len() == y.len() && forall|i: int|
            0 <= i < x.len() ==> match field_value(y, (#[trigger] x[i]).0) {
                Some(other) => same_type(x[i].1, other),
                None => false,
            },
        (TypeView::Tuple(x), TypeView::Tuple(y)) => same_types(x, y),
        (
            TypeView::Function { args: x, ret: r },
            TypeView::Function { args: y, ret: q },
        ) => same_types(x, y) && same_type(*r, *q),
        _ => false,
    }
}

/// Whether no name occurs twice among the fields.
pub open spec fn distinct_keys<V>(fields: Seq<(Seq<char>, V)>) -> bool {
    forall|i: int, j: int| 0 <= i < j < fields.len() ==> fields[i].0 != fields[j].0
}

/// Whether a type is structurally well formed: in every record in it no
/// field name occurs twice, and no sized array in it has a negative length.
pub open spec fn well_formed_type(t: TypeView) -> bool
    decreases t,
{
    match t {
        TypeView::Ptr(inner) => well_formed_type(*inner),
        TypeView::SizedArray { element, len } => len >= 0 && well_formed_type(*element),
        TypeView::Array(element) => well_formed_type(*element),
        TypeView::Struct(fields) => distinct_keys(fields) && forall|i: int|
            0 <= i < fields.len() ==> well_formed_type((#[trigger] fields[i]).1),
        TypeView::Tuple(items) => forall|i: int|
            0 <= i < items.len() ==> well_formed_type(#[trigger] items[i]),
        TypeView::Function { args, ret } => well_formed_type(*ret) && forall|i: int|
            0 <= i < args.len() ==> well_formed_type(#[trigger] args[i]),
        _ => true,
    }
}

/// Every well-formed type is the same type as itself.
pub proof fn lemma_same_type_reflexive(t: TypeView)
    requires
        well_formed_type(t),
    ensures
        same_type(t, t),
    decreases t,
{
    match t {
        TypeView::Ptr(inner) => {
            lemma_same_type_reflexive(*inner);
            assert(same_type(t, t));
        },
        TypeView::SizedArray { element, len } => {
            lemma_same_type_reflexive(*element);
            assert(same_type(t, t));
        },
        TypeView::Array(element) => {
            lemma_same_type_reflexive(*element);
            assert(same_type(t, t));
        },
        TypeView::Struct(fields) => {
            assert forall|i: int| 0 <= i < fields.len() implies match field_value(
                fields,
                (#[trigger] fields[i]).0,
            ) {
                Some(other) => same_type(fields[i].1, other),
                None => false,
            } by {
                lemma_field_index(fields, fields[i].0, 0);
                lemma_same_type_reflexive(fields[i].1);
            }
            assert(same_type(t, t));
        },
        TypeView::Tuple(items) => {
            assert forall|i: int| 0 <= i < items.len() implies same_type(
                #[trigger] items[i],
                items[i],
            ) by {
                lemma_same_type_reflexive(items[i]);
            }
            assert(same_types(items, items));
            assert(same_type(t, t));
        },
        TypeView::Function { args, ret } => {
            lemma_same_type_reflexive(*ret);
            assert forall|i: int| 0 <= i < args.len() implies same_type(
                #[trigger] args[i],
                args[i],
            ) by {
                lemma_same_type_reflexive(args[i]);
            }
            assert(same_types(args, args));
            assert(same_type(t, t));
        },
        _ => {},
    }
}

/// Looks up the first field named `name`.
pub fn find_field<'a>(fields: &'a Vec<(String, Type)>, name: &String) -> (r: Option<&'a Type>)
    ensures
        r.deep_view() == field_value(fields.deep_view(), name@),
        r matches Some(found) ==> exists|i: int| 0 <= i < fields@.len() && fields@[i].1 == *found,
{
    let mut i: usize = 0;
    while i < fields.len()
        invariant
            i <= fields.len(),
            field_index(fields.deep_view(), name@, 0) == field_index(
                fields.deep_view(),
                name@,
                i as int,
            ),
        decreases fields.len() - i,
    {
        if fields[i].0 == *name {
            return Some(&fields[i].1);
        }
        i += 1;
    }
    None
}

impl Clone for Type {
    #[verifier::loop_isolation(false)]
    fn clone(&self) -> (r: Self)
        ensures
            r@ == self@,
        decreases self,
    {
        match self {
            Type::Int => Type::Int,
            Type::Float => Type::Float,
            Type::String => Type::String,
            Type::Char => Type::Char,
            Type::Bool => Type::Bool,
            Type::Void => Type::Void,
            Type::Named(name) => Type::Named(name.clone()),
            Type::Ptr(inner) => Type::Ptr(Box::new((**inner).clone())),
            Type::SizedArray { element, len } => Type::SizedArray {
                element: Box::new((**element).clone()),
                len: *len,
            },
            Type::Array(element) => Type::Array(Box::new((**element).clone())),
            Type::Struct(fields) => {
                let mut out: Vec<(String, Type)> = Vec::new();
                let mut i: usize = 0;
                while i < fields.len()
                    invariant
                        i <= fields.len(),
                        out@.len() == i,
                        forall|j: int| 0 <= j < i ==> out@[j].deep_view() == fields@[j].deep_view(),
                    decreases fields.len() - i,
                {
                    let name = fields[i].0.clone();
                    let ty = fields[i].1.clone();
                    out.push((name, ty));
                    i += 1;
                }
                proof {
                    Type::lemma_struct_model(out);
                    Type::lemma_struct_model(*fields);
                    assert(out.deep_view() =~= fields.deep_view());
                }
                Type::Struct(out)
            },
            Type::Tuple(items) => {
                let mut out: Vec<Type> = Vec::new();
                let mut i: usize = 0;
                while i < items.len()
                    invariant
                        i <= items.len(),
                        out@.len() == i,
                        forall|j: int| 0 <= j < i ==> out@[j]@ == items@[j]@,
                    decreases items.len() - i,
                {
                    out.push(items[i].clone());
                    i += 1;
                }
                proof {
                    Type::lemma_tuple_model(out);
                    Type::lemma_tuple_model(*items);
                    assert(out.deep_view() =~= items.deep_view());
                }
                Type::Tuple(out)
            },
            Type::Function { args, ret } => {
                let mut out: Vec<Type> = Vec::new();
                let mut i: usize = 0;
                while i < args.len()
                    invariant
                        i <= args.len(),
                        out@.len() == i,
                        forall|j: int| 0 <= j < i ==> out@[j]@ == args@[j]@,
                    decreases args.len() - i,
                {
                    out.push(args[i].clone());
                    i += 1;
                }
                let ret2 = Box::new((**ret).clone());
                proof {
                    Type::lemma_function_model(out, ret2);
                    Type::lemma_function_model(*args, *ret);
                    assert(out.deep_view() =~= args.deep_view());
                }
                Type::Function { args: out, ret: ret2 }
            },
        }
    }
}

/// Whether the types of `a` are pairwise the same as those of `b`.
pub fn types_equal(a: &Vec<Type>, b: &Vec<Type>) -> (r: bool)
    ensures
        r == same_types(a.deep_view(), b.deep_view()),
    decreases a, 0nat,
{
    if a.len() != b.len() {
        return false;
    }
    let mut i: usize = 0;
    while i < a.len()
        invariant
            i <= a.len(),
            a.len() == b.len(),
            forall|j: int| 0 <= j < i ==> same_type(#[trigger] a.deep_view()[j], b.deep_view()[j]),
        decreases a.len() - i,
    {
        if !a[i].same_as(&b[i]) {
            assert(!same_type(a.deep_view()[i as int], b.deep_view()[i as int]));
            return false;
        }
        i += 1;
    }
    true
}

impl Type {
    /// Whether two types are the same type.
    #[verifier::loop_isolation(false)]
    pub fn same_as(&self, other: &Type) -> (r: bool)
        ensures
            r == same_type(self@, other@),
        decreases self, 1nat,
    {
        match (self, other) {
            (Type::Int, Type::Int) => true,
            (Type::Float, Type::Float) => true,
            (Type::String, Type::String) => true,
            (Type::Char, Type::Char) => true,
            (Type::Bool, Type::Bool) => true,
            (Type::Void, Type::Void) => true,
            (Type::Named(x), Type::Named(y)) => *x == *y,
            (Type::Ptr(x), Type::Ptr(y)) => x.same_as(y),
            (Type::SizedArray { element: x, len: n }, Type::SizedArray { element: y, len: m }) => {
                *n == *m && x.same_as(y)
            },
            (Type::Array(x), Type::Array(y)) => x.same_as(y),
            (Type::Struct(x), Type::Struct(y)) => {
                proof {
                    Type::lemma_struct_model(*x);
                    Type::lemma_struct_model(*y);
                }
                if x.len() != y.len() {
                    return false;
                }
                let mut i: usize = 0;
                while i < x.len()
                    invariant
                        i <= x.len(),
                        forall|j: int|
                            0 <= j < i ==> match field_value(
                                y.deep_view(),
                                (#[trigger] x.deep_view()[j]).0,
                            ) {
                                Some(found) => same_type(x.deep_view()[j].1, found),
                                None => false,
                            },
                    decreases x.len() - i,
                {
                    match find_field(y, &x[i].0) {
                        Some(found) => {
                            if !x[i].1.same_as(found) {
                                assert(x.deep_view()[i as int].0 == x@[i as int].0@);
                                return false;
                            }
                        },
                        None => {
                            assert(x.deep_view()[i as int].0 == x@[i as int].0@);
                            return false;
                        },
                    }
                    i += 1;
                }
                true
            },
            (Type::Tuple(x), Type::Tuple(y)) => {
                proof {
                    Type::lemma_tuple_model(*x);
                    Type::lemma_tuple_model(*y);
                }
                types_equal(x, y)
            },
            (Type::Function { args: x, ret: r }, Type::Function { args: y, ret: q }) => {
                proof {
                    Type::lemma_function_model(*x, *r);
                    Type::lemma_function_model(*y, *q);
                }
                types_equal(x, y) && r.same_as(q)
            },
            _ => false,
        }
    }
}

impl PartialEq for Type {
    /// Two types are equal when they are the same type.
    fn eq(&self, other: &Self) -> (r: bool) {
        self.same_as(other)
    }
}

impl PartialEqSpecImpl for Type {
    open spec fn obeys_eq_spec() -> bool {
        true
    }

    open spec fn eq_spec(&self, other: &Self) -> bool {
        same_type(self@, other@)
    }
}

/// One array suffix after a type: `[N]` gives the length `N`, `[]` gives no
/// length. Anything but `[` is an error that uses nothing up; after `[`, a
/// missing `]` is an error that has used up the bracket and the length.
pub open spec fn spec_array_type(tokens: Seq<TokenView>, pos: nat) -> Parsed<Option<i64>> {
    match token_at(tokens, pos) {
        None => Parsed { value: Err(ParseErrorView::UnexpectedEOF), used: 0 },
        Some(TokenView::LBracket) => {
            let len = expect_int(tokens, pos + 1);
            let close = expect_token(tokens, pos + 1 + len.used, TokenView::RBracket);
            match close.value {
                Err(e) => Parsed { value: Err(e), used: 1 + len.used },
                Ok(_) => Parsed {
                    value: Ok(
                        match len.value {
                            Ok(n) => Some(n),
                            Err(_) => None,
                        },
                    ),
                    used: 2 + len.used,
                },
            }
        },
        Some(token) => Parsed { value: Err(ParseErrorView::UnexpectedToken(token)), used: 0 },
    }
}

/// The array type with the given element type and length, unsized where no
/// length is given.
pub open spec fn array_of(element: TypeView, len: Option<i64>) -> TypeView {
    match len {
        Some(n) => TypeView::SizedArray { element: Box::new(element), len: n },
        None => TypeView::Array(Box::new(element)),
    }
}

/// The array suffixes after the type `ty`, applied to it one after the
/// other. The first suffix that fails ends the type, which stands; the
/// tokens that the failed suffix used up stay used up.
#[verifier::opaque]
pub open spec fn spec_array_suffixes(tokens: Seq<TokenView>, pos: nat, ty: TypeView) -> Parsed<
    TypeView,
>
    decreases tokens_left(tokens, pos),
{
    let suffix = spec_array_type(tokens, pos);
    match suffix.value {
        Ok(len) => {
            let rest = spec_array_suffixes(tokens, pos + suffix.used, array_of(ty, len));
            Parsed { value: rest.value, used: suffix.used + rest.used }
        },
        Err(_) => Parsed { value: Ok(ty), used: suffix.used },
    }
}

/// A type: a head, then any number of array suffixes.
#[verifier::opaque]
pub open spec fn spec_parse_type(tokens: Seq<TokenView>, pos: nat) -> Parsed<TypeView>
    decreases tokens_left(tokens, pos), 2nat,
{
    let head = spec_type_head(tokens, pos);
    match head.value {
        Err(e) => Parsed { value: Err(e), used: head.used },
        Ok(ty) => {
            let whole = spec_array_suffixes(tokens, pos + head.used, ty);
            Parsed { value: whole.value, used: head.used + whole.used }
        },
    }
}

/// The head of a type: a primitive type, a name, `&T`, a tuple
/// `(T, ...)`, a function `(T, ...) => R`, or a record `{ name: T, ... }`
/// in which no name occurs twice.
#[verifier::opaque]
pub open spec fn spec_type_head(tokens: Seq<TokenView>, pos: nat) -> Parsed<TypeView>
    decreases tokens_left(tokens, pos), 1nat,
{
    match token_at(tokens, pos) {
        None => Parsed { value: Err(ParseErrorView::UnexpectedEOF), used: 0 },
        Some(TokenView::IntType) => Parsed { value: Ok(TypeView::Int), used: 1 },
        Some(TokenView::FloatType) => Parsed { value: Ok(TypeView::Float), used: 1 },
        Some(TokenView::StringType) => Parsed { value: Ok(TypeView::String), used: 1 },
        Some(TokenView::CharType) => Parsed { value: Ok(TypeView::Char), used: 1 },
        Some(TokenView::BoolType) => Parsed { value: Ok(TypeView::Bool), used: 1 },
        Some(TokenView::VoidType) => Parsed { value: Ok(TypeView::Void), used: 1 },
        Some(TokenView::Identifier(name)) => Parsed { value: Ok(TypeView::Named(name)), used: 1 },
        Some(TokenView::Ref) => {
            let inner = spec_parse_type(tokens, pos + 1);
            Parsed {
                value: match inner.value {
                    Ok(ty) => Ok(TypeView::Ptr(Box::new(ty))),
                    Err(e) => Err(e),
                },
                used: 1 + inner.used,
            }
        },
        Some(TokenView::LParen) => {
            let list = spec_type_list(tokens, pos + 1, Seq::empty());
            match list.value {
                Err(e) => Parsed { value: Err(e), used: 1 + list.used },
                Ok(items) => {
                    let after = pos + 1 + list.used;
                    if token_at(tokens, after) == Some(TokenView::FuncArrow) {
                        let ret = spec_parse_type(tokens, after + 1);
                        Parsed {
                            value: match ret.value {
                                Ok(ty) => Ok(
                                    TypeView::Function { args: items, ret: Box::new(ty) },
                                ),
                                Err(e) => Err(e),
                            },
                            used: 2 + list.used + ret.used,
                        }
                    } else {
                        Parsed { value: Ok(TypeView::Tuple(items)), used: 1 + list.used }
                    }
                },
            }
        },
        Some(TokenView::LBrace) => {
            let list = spec_typed_names(tokens, pos + 1, Seq::empty(), TokenView::RBrace);
            Parsed {
                value: match list.value {
                    Err(e) => Err(e),
                    Ok(fields) => if has_duplicate_key(fields) {
                        Err(duplicate_key_error())
                    } else {
                        Ok(TypeView::Struct(fields))
                    },
                },
                used: 1 + list.used,
            }
        },
        Some(token) => Parsed { value: Err(ParseErrorView::UnexpectedToken(token)), used: 0 },
    }
}

/// The rest of a list of types after its opening parenthesis, `items` being
/// those read so far: types separated by commas, up to the closing
/// parenthesis, which may follow a comma.
#[verifier::opaque]
pub open spec fn spec_type_list(tokens: Seq<TokenView>, pos: nat, items: Seq<TypeView>) -> Parsed<
    Seq<TypeView>,
>
    decreases tokens_left(tokens, pos), 3nat,
{
    if token_at(tokens, pos) == Some(TokenView::RParen) {
        Parsed { value: Ok(items), used: 1 }
    } else {
        let item = spec_parse_type(tokens, pos);
        match item.value {
            Err(e) => Parsed { value: Err(e), used: item.used },
            Ok(ty) => {
                let after = pos + item.used;
                if token_at(tokens, after) == Some(TokenView::RParen) {
                    Parsed { value: Ok(items.push(ty)), used: item.used + 1 }
                } else {
                    match expect_token(tokens, after, TokenView::Comma).value {
                        Err(e) => Parsed { value: Err(e), used: item.used },
                        Ok(_) => {
                            let rest = spec_type_list(tokens, after + 1, items.push(ty));
                            Parsed { value: rest.value, used: item.used + 1 + rest.used }
                        },
                    }
                }
            },
        }
    }
}

/// One `name: T`.
#[verifier::opaque]
pub open spec fn spec_typed_name(tokens: Seq<TokenView>, pos: nat) -> Parsed<
    (Seq<char>, TypeView),
>
    decreases tokens_left(tokens, pos), 3nat,
{
    let name = expect_ident(tokens, pos);
    match name.value {
        Err(e) => Parsed { value: Err(e), used: 0 },
        Ok(name) => match expect_token(tokens, pos + 1, TokenView::Colon).value {
            Err(e) => Parsed { value: Err(e), used: 1 },
            Ok(_) => {
                let ty = spec_parse_type(tokens, pos + 2);
                Parsed {
                    value: match ty.value {
                        Ok(ty) => Ok((name, ty)),
                        Err(e) => Err(e),
                    },
                    used: 2 + ty.used,
                }
            },
        },
    }
}

/// The rest of a list of `name: T` after its opening token, `items` being
/// those read so far: entries separated by commas, up to the token `end`,
/// which may follow a comma.
#[verifier::opaque]
pub open spec fn spec_typed_names(
    tokens: Seq<TokenView>,
    pos: nat,
    items: Seq<(Seq<char>, TypeView)>,
    end: TokenView,
) -> Parsed<Seq<(Seq<char>, TypeView)>>
    decreases tokens_left(tokens, pos), 4nat,
{
    if token_at(tokens, pos) == Some(end) {
        Parsed { value: Ok(items), used: 1 }
    } else {
        let item = spec_typed_name(tokens, pos);
        match item.value {
            Err(e) => Parsed { value: Err(e), used: item.used },
            Ok(entry) => {
                let after = pos + item.used;
                if token_at(tokens, after) == Some(end) {
                    Parsed { value: Ok(items.push(entry)), used: item.used + 1 }
                } else {
                    match expect_token(tokens, after, TokenView::Comma).value {
                        Err(e) => Parsed { value: Err(e), used: item.used },
                        Ok(_) => {
                            let rest = spec_typed_names(tokens, after + 1, items.push(entry), end);
                            Parsed { value: rest.value, used: item.used + 1 + rest.used }
                        },
                    }
                }
            },
        }
    }
}

/// Reads one array suffix, `[N]` or `[]`, and returns the length if one is
/// given.
pub fn parse_array_type(lexer: &mut Lexer) -> (r: Result<Option<i64>, ParseError>)
    ensures
        parses_as(
            r,
            *old(lexer),
            *final(lexer),
            spec_array_type(old(lexer).tokens(), old(lexer).pos()),
        ),
{
    match lexer.expect_peek() {
        Err(e) => Err(e),
        Ok(Token::LBracket) => {
            lexer.next();
            let len = lexer.parse_int();
            match lexer.parse_token(&Token::RBracket) {
                Err(e) => Err(e),
                Ok(_) => match len {
                    Ok(n) => Ok(Some(n)),
                    Err(_) => Ok(None),
                },
            }
        },
        Ok(token) => Err(ParseError::UnexpectedToken(token.clone())),
    }
}

/// Reads a type. The type is well formed.
pub fn parse_type(lexer: &mut Lexer) -> (r: Result<Type, ParseError>)
    ensures
        parses_as(
            r,
            *old(lexer),
            *final(lexer),
            spec_parse_type(old(lexer).tokens(), old(lexer).pos()),
        ),
        r matches Ok(ty) ==> well_formed_type(ty@),
    decreases old(lexer).remaining(), 2nat,
{
    reveal_with_fuel(spec_parse_type, 1);
    reveal_with_fuel(spec_type_head, 1);
    reveal_with_fuel(spec_array_suffixes, 1);
    let ghost tokens = lexer.tokens();
    let ghost start = lexer.pos();
    let mut ty = parse_type_without_array(lexer)?;
    let ghost head = spec_type_head(tokens, start);
    proof {
        lemma_parsed_type_well_formed(tokens, start);
    }
    loop
        invariant
            lexer.tokens() == tokens,
            spec_parse_type(tokens, start).value matches Ok(t) ==> well_formed_type(t),
            tokens == old(lexer).tokens(),
            start == old(lexer).pos(),
            start + head.used <= lexer.pos() <= tokens.len(),
            head == spec_type_head(tokens, start),
            head.value is Ok,
            ({
                let whole = spec_array_suffixes(tokens, start + head.used, head.value->Ok_0);
                let rest = spec_array_suffixes(tokens, lexer.pos(), ty@);
                whole.value == rest.value && whole.used == lexer.pos() - (start + head.used)
                    + rest.used
            }),
        decreases lexer.remaining(),
    {
        reveal_with_fuel(spec_parse_type, 1);
        reveal_with_fuel(spec_type_head, 1);
        reveal_with_fuel(spec_array_suffixes, 1);
        match parse_array_type(lexer) {
            Ok(Some(len)) => {
                ty = Type::SizedArray { element: Box::new(ty), len };
            },
            Ok(None) => {
                ty = Type::Array(Box::new(ty));
            },
            Err(_) => {
                return Ok(ty);
            },
        }
    }
}

/// Reads the head of a type: all of a type but its array suffixes.
pub fn parse_type_without_array(lexer: &mut Lexer) -> (r: Result<Type, ParseError>)
    ensures
        parses_as(
            r,
            *old(lexer),
            *final(lexer),
            spec_type_head(old(lexer).tokens(), old(lexer).pos()),
        ),
    decreases old(lexer).remaining(), 1nat,
{
    reveal_with_fuel(spec_type_head, 1);
    reveal_with_fuel(spec_parse_type, 1);
    reveal_with_fuel(spec_type_list, 1);
    reveal_with_fuel(spec_typed_names, 1);
    let ghost tokens = lexer.tokens();
    let ghost start = lexer.pos();
    match lexer.expect_peek() {
        Err(e) => Err(e),
        Ok(Token::IntType) => {
            lexer.next();
            Ok(Type::Int)
        },
        Ok(Token::FloatType) => {
            lexer.next();
            Ok(Type::Float)
        },
        Ok(Token::StringType) => {
            lexer.next();
            Ok(Type::String)
        },
        Ok(Token::CharType) => {
            lexer.next();
            Ok(Type::Char)
        },
        Ok(Token::BoolType) => {
            lexer.next();
            Ok(Type::Bool)
        },
        Ok(Token::VoidType) => {
            lexer.next();
            Ok(Type::Void)
        },
        Ok(Token::Identifier(_)) => {
            let name = lexer.parse_ident()?;
            Ok(Type::Named(name))
        },
        Ok(Token::Ref) => {
            lexer.next();
            let ty = parse_type(lexer)?;
            Ok(Type::Ptr(Box::new(ty)))
        },
        Ok(Token::LParen) => {
            lexer.next();
            let fields = parse_type_list(lexer)?;
            proof {
                Type::lemma_tuple_model(fields);
            }
            match lexer.parse_token(&Token::FuncArrow) {
                Ok(_) => {
                    let ret = parse_type(lexer)?;
                    let ret = Box::new(ret);
                    proof {
                        Type::lemma_function_model(fields, ret);
                    }
                    Ok(Type::Function { args: fields, ret })
                },
                Err(_) => Ok(Type::Tuple(fields)),
            }
        },
        Ok(Token::LBrace) => {
            lexer.next();
            let fields = parse_typed_names(lexer, &Token::RBrace)?;
            proof {
                lemma_duplicate_key_by_keys(keyed(fields@), fields.deep_view());
            }
            let fields = build_hashmap_from_entries(fields)?;
            proof {
                Type::lemma_struct_model(fields);
            }
            Ok(Type::Struct(fields))
        },
        Ok(token) => Err(ParseError::UnexpectedToken(token.clone())),
    }
}

/// Reads the rest of a list of types after its opening parenthesis.
pub fn parse_type_list(lexer: &mut Lexer) -> (r: Result<Vec<Type>, ParseError>)
    ensures
        parses_as(
            r,
            *old(lexer),
            *final(lexer),
            spec_type_list(old(lexer).tokens(), old(lexer).pos(), Seq::empty()),
        ),
    decreases old(lexer).remaining(), 3nat,
{
    reveal_with_fuel(spec_type_list, 1);
    reveal_with_fuel(spec_parse_type, 1);
    let ghost tokens = lexer.tokens();
    let ghost start = lexer.pos();
    let mut items: Vec<Type> = Vec::new();
    assert(items.deep_view() =~= Seq::empty());
    loop
        invariant
            lexer.tokens() == tokens,
            start <= lexer.pos(),
            tokens == old(lexer).tokens(),
            start == old(lexer).pos(),
            ({
                let whole = spec_type_list(tokens, start, Seq::empty());
                let rest = spec_type_list(tokens, lexer.pos(), items.deep_view());
                whole.value == rest.value && whole.used == lexer.pos() - start + rest.used
            }),
        decreases lexer.remaining(),
    {
        reveal_with_fuel(spec_type_list, 1);
        reveal_with_fuel(spec_parse_type, 1);
        if let Ok(_) = lexer.parse_token(&Token::RParen) {
            return Ok(items);
        }
        let ghost before = items.deep_view();
        let item = parse_type(lexer)?;
        items.push(item);
        assert(items.deep_view() =~= before.push(item@));
        if let Ok(_) = lexer.parse_token(&Token::RParen) {
            return Ok(items);
        }
        lexer.parse_token(&Token::Comma)?;
    }
}

/// Reads the rest of a list of `name: T` after its opening token, up to the
/// token `end`.
pub fn parse_typed_names(lexer: &mut Lexer, end: &Token) -> (r: Result<
    Vec<(String, Type)>,
    ParseError,
>)
    ensures
        parses_as(
            r,
            *old(lexer),
            *final(lexer),
            spec_typed_names(old(lexer).tokens(), old(lexer).pos(), Seq::empty(), end@),
        ),
    decreases old(lexer).remaining(), 4nat,
{
    reveal_with_fuel(spec_typed_names, 1);
    reveal_with_fuel(spec_typed_name, 1);
    let ghost tokens = lexer.tokens();
    let ghost start = lexer.pos();
    let mut items: Vec<(String, Type)> = Vec::new();
    assert(items.deep_view() =~= Seq::empty());
    loop
        invariant
            lexer.tokens() == tokens,
            start <= lexer.pos(),
            tokens == old(lexer).tokens(),
            start == old(lexer).pos(),
            ({
                let whole = spec_typed_names(tokens, start, Seq::empty(), end@);
                let rest = spec_typed_names(tokens, lexer.pos(), items.deep_view(), end@);
                whole.value == rest.value && whole.used == lexer.pos() - start + rest.used
            }),
        decreases lexer.remaining(),
    {
        reveal_with_fuel(spec_typed_names, 1);
        reveal_with_fuel(spec_typed_name, 1);
        if let Ok(_) = lexer.parse_token(end) {
            return Ok(items);
        }
        let ghost before = items.deep_view();
        let item = parse_typed_name(lexer)?;
        let ghost entry = item.deep_view();
        items.push(item);
        assert(items.deep_view() =~= before.push(entry));
        if let Ok(_) = lexer.parse_token(end) {
            return Ok(items);
        }
        lexer.parse_token(&Token::Comma)?;
    }
}

/// Reads one `name: T`.
pub fn parse_typed_name(lexer: &mut Lexer) -> (r: Result<(String, Type), ParseError>)
    ensures
        parses_as(
            r,
            *old(lexer),
            *final(lexer),
            spec_typed_name(old(lexer).tokens(), old(lexer).pos()),
        ),
    decreases old(lexer).remaining(), 3nat,
{
    reveal_with_fuel(spec_typed_name, 1);
    reveal_with_fuel(spec_parse_type, 1);
    let name = lexer.parse_ident()?;
    lexer.parse_token(&Token::Colon)?;
    let ty = parse_type(lexer)?;
    Ok((name, ty))
}

} // verus!
