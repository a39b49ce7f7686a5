//! The declaration of the type that a traversal is derived for.

use crate::derive::ast::typ::BasicType;
use crate::derive::ast::typ::BasicTypeView;
use crate::derive::ast::typ::Type;
use crate::text::append_digits;
use crate::text::digits;
use vstd::prelude::*;
use vstd::string::StringExecFns;

verus! {

/// The texts of a list of strings.
pub open spec fn texts(names: Seq<String>) -> Seq<Seq<char>> {
    Seq::new(names.len(), |i: int| names[i]@)
}

/// A copy of a list of strings.
pub fn clone_texts(names: &Vec<String>) -> (r: Vec<String>)
    ensures
        texts(r@) == texts(names@),
{
    let mut out: Vec<String> = Vec::new();
    let mut i: usize = 0;
    while i < names.len()
        invariant
            i <= names.len(),
            out@.len() == i,
            forall|j: int| 0 <= j < i ==> #[trigger] out@[j]@ == names@[j]@,
        decreases names.len() - i,
    {
        out.push(names[i].clone());
        i += 1;
    }
    assert(texts(out@) =~= texts(names@));
    out
}

/// The name that the unnamed field at place `index` is bound to: an
/// underscore and the place.
pub open spec fn unnamed_ident(index: nat) -> Seq<char> {
    "_"@ + digits(index)
}

/// The name by which a field is reached.
#[derive(Debug, PartialEq, Eq)]
pub enum Member {
    /// A named field.
    Named(String),
    /// An unnamed field, by its place.
    Unnamed(usize),
}

/// The model of a [`Member`].
pub enum MemberView {
    /// A named field.
    Named(Seq<char>),
    /// An unnamed field, by its place.
    Unnamed(nat),
}

impl View for Member {
    type V = MemberView;

    open spec fn view(&self) -> MemberView {
        match self {
            Member::Named(name) => MemberView::Named(name@),
            Member::Unnamed(index) => MemberView::Unnamed(*index as nat),
        }
    }
}

impl Clone for Member {
    fn clone(&self) -> (r: Self)
        ensures
            r@ == self@,
    {
        match self {
            Member::Named(name) => Member::Named(name.clone()),
            Member::Unnamed(index) => Member::Unnamed(*index),
        }
    }
}

/// An unnamed (anonymous) field in a tuple struct or enum variant
/// e.g. `struct TupleLike(i32, i32);`
#[derive(Debug, PartialEq, Eq)]
pub struct TupleField {
    /// The type of the field.
    pub typ: Type,
}

/// A named (non-anonymous) field in a struct or enum variant
/// e.g. `struct Struct { field: i32 };`
#[derive(Debug, PartialEq, Eq)]
pub struct StructField {
    /// The name of the field.
    pub ident: String,
    /// The type of the field.
    pub typ: Type,
}

/// A collection of fields, such as in a struct or enum variant
#[derive(Debug, PartialEq, Eq)]
pub enum Fields {
    /// `{ name: Type, ... }`
    Struct(Vec<StructField>),
    /// `(Type, ...)`
    Tuple(Vec<TupleField>),
    /// Unit-like struct or enum variant
    Unit,
}

impl Fields {
    /// Returns each field as the name by which it is reached and its type,
    /// in order.
    pub fn defs(&self) -> (r: Vec<(Member, &Type)>)
        ensures
            r@.len() == self.len(),
            forall|i: int|
                0 <= i < self.len() ==> (#[trigger] r@[i]).0@ == self.member_at(i) && *r@[i].1
                    == self.type_at(i),
    {
        let members = self.members();
        let types = self.types();
        let mut out: Vec<(Member, &Type)> = Vec::new();
        let mut i: usize = 0;
        while i < members.len()
            invariant
                i <= members.len(),
                members@.len() == self.len(),
                types@.len() == self.len(),
                forall|j: int|
                    0 <= j < self.len() ==> (#[trigger] members@[j])@ == self.member_at(j),
                forall|j: int| 0 <= j < self.len() ==> *(#[trigger] types@[j]) == self.type_at(j),
                out@.len() == i,
                forall|j: int|
                    0 <= j < i ==> (#[trigger] out@[j]).0@ == self.member_at(j) && *out@[j].1
                        == self.type_at(j),
            decreases members.len() - i,
        {
            out.push((members[i].clone(), types[i]));
            i += 1;
        }
        out
    }

    /// The number of fields.
    pub open spec fn len(&self) -> nat {
        match self {
            Fields::Struct(fields) => fields@.len(),
            Fields::Tuple(fields) => fields@.len(),
            Fields::Unit => 0,
        }
    }

    /// The name by which the field at place `i` is reached.
    pub open spec fn member_at(&self, i: int) -> MemberView {
        match self {
            Fields::Struct(fields) => MemberView::Named(fields@[i].ident@),
            Fields::Tuple(fields) => MemberView::Unnamed(i as nat),
            Fields::Unit => arbitrary(),
        }
    }

    /// The name that the field at place `i` is bound to: its name, or for
    /// an unnamed field an underscore and its place.
    pub open spec fn ident_at(&self, i: int) -> Seq<char> {
        match self {
            Fields::Struct(fields) => fields@[i].ident@,
            Fields::Tuple(fields) => unnamed_ident(i as nat),
            Fields::Unit => arbitrary(),
        }
    }

    /// The type of the field at place `i`.
    pub open spec fn type_at(&self, i: int) -> Type {
        match self {
            Fields::Struct(fields) => fields@[i].typ,
            Fields::Tuple(fields) => fields@[i].typ,
            Fields::Unit => arbitrary(),
        }
    }

    /// The tuples within the types of the fields keep the number of their
    /// fields.
    pub open spec fn wf(&self) -> bool {
        forall|i: int| 0 <= i < self.len() ==> (#[trigger] self.type_at(i)).wf()
    }

    /// Returns whether there is no field.
    pub fn is_empty(&self) -> (r: bool)
        ensures
            r == (self.len() == 0),
    {
        match self {
            Fields::Struct(fields) => fields.len() == 0,
            Fields::Tuple(fields) => fields.len() == 0,
            Fields::Unit => true,
        }
    }

    /// Returns the number of fields.
    pub fn count(&self) -> (r: usize)
        ensures
            r == self.len(),
    {
        match self {
            Fields::Struct(fields) => fields.len(),
            Fields::Tuple(fields) => fields.len(),
            Fields::Unit => 0,
        }
    }

    /// Returns the names by which the fields are reached, in order: the
    /// name of a named field, the place of an unnamed one.
    pub fn members(&self) -> (r: Vec<Member>)
        ensures
            r@.len() == self.len(),
            forall|i: int| 0 <= i < self.len() ==> (#[trigger] r@[i])@ == self.member_at(i),
    {
        let mut out: Vec<Member> = Vec::new();
        match self {
            Fields::Struct(fields) => {
                let mut i: usize = 0;
                while i < fields.len()
                    invariant
                        i <= fields.len(),
                        *self == Fields::Struct(*fields),
                        out@.len() == i,
                        forall|j: int| 0 <= j < i ==> (#[trigger] out@[j])@ == self.member_at(j),
                    decreases fields.len() - i,
                {
                    out.push(Member::Named(fields[i].ident.clone()));
                    i += 1;
                }
            },
            Fields::Tuple(fields) => {
                let mut i: usize = 0;
                while i < fields.len()
                    invariant
                        i <= fields.len(),
                        *self == Fields::Tuple(*fields),
                        out@.len() == i,
                        forall|j: int| 0 <= j < i ==> (#[trigger] out@[j])@ == self.member_at(j),
                    decreases fields.len() - i,
                {
                    out.push(Member::Unnamed(i));
                    i += 1;
                }
            },
            Fields::Unit => {},
        }
        out
    }

    /// Returns the names that the fields are bound to, in order: the name
    /// of a named field, and for an unnamed field an underscore and its
    /// place.
    pub fn idents(&self) -> (r: Vec<String>)
        ensures
            r@.len() == self.len(),
            forall|i: int| 0 <= i < self.len() ==> (#[trigger] r@[i])@ == self.ident_at(i),
    {
        let mut out: Vec<String> = Vec::new();
        match self {
            Fields::Struct(fields) => {
                let mut i: usize = 0;
                while i < fields.len()
                    invariant
                        i <= fields.len(),
                        *self == Fields::Struct(*fields),
                        out@.len() == i,
                        forall|j: int| 0 <= j < i ==> (#[trigger] out@[j])@ == self.ident_at(j),
                    decreases fields.len() - i,
                {
                    out.push(fields[i].ident.clone());
                    i += 1;
                }
            },
            Fields::Tuple(fields) => {
                let mut i: usize = 0;
                while i < fields.len()
                    invariant
                        i <= fields.len(),
                        *self == Fields::Tuple(*fields),
                        out@.len() == i,
                        forall|j: int| 0 <= j < i ==> (#[trigger] out@[j])@ == self.ident_at(j),
                    decreases fields.len() - i,
                {
                    let mut ident = String::from_str("_");
                    append_digits(&mut ident, i);
                    out.push(ident);
                    i += 1;
                }
            },
            Fields::Unit => {},
        }
        out
    }

    /// Returns the types of the fields, in order.
    pub fn types(&self) -> (r: Vec<&Type>)
        ensures
            r@.len() == self.len(),
            forall|i: int| 0 <= i < self.len() ==> *(#[trigger] r@[i]) == self.type_at(i),
    {
        let mut out: Vec<&Type> = Vec::new();
        match self {
            Fields::Struct(fields) => {
                let mut i: usize = 0;
                while i < fields.len()
                    invariant
                        i <= fields.len(),
                        *self == Fields::Struct(*fields),
                        out@.len() == i,
                        forall|j: int| 0 <= j < i ==> *(#[trigger] out@[j]) == self.type_at(j),
                    decreases fields.len() - i,
                {
                    out.push(&fields[i].typ);
                    i += 1;
                }
            },
            Fields::Tuple(fields) => {
                let mut i: usize = 0;
                while i < fields.len()
                    invariant
                        i <= fields.len(),
                        *self == Fields::Tuple(*fields),
                        out@.len() == i,
                        forall|j: int| 0 <= j < i ==> *(#[trigger] out@[j]) == self.type_at(j),
                    decreases fields.len() - i,
                {
                    out.push(&fields[i].typ);
                    i += 1;
                }
            },
            Fields::Unit => {},
        }
        out
    }
}

/// A variant of an enum.
#[derive(Debug, PartialEq, Eq)]
pub struct Variant {
    /// The name of the variant.
    pub ident: String,
    /// The fields of the variant.
    pub fields: Fields,
}

/// A type parameter and its bounds.
#[derive(Debug, PartialEq, Eq)]
pub struct TypeParameter {
    /// The name of the parameter.
    pub ident: String,
    /// The bounds on the parameter.
    pub bounds: Vec<String>,
}

/// A lifetime parameter and its bounds.
#[derive(Debug, PartialEq, Eq)]
pub struct LifetimeParameter {
    /// The lifetime.
    pub lifetime: String,
    /// The lifetimes that it outlives.
    pub bounds: Vec<String>,
}

/// A generic parameter of a declaration.
#[derive(Debug, PartialEq, Eq)]
pub enum GenericParam {
    /// A lifetime parameter.
    Lifetime(LifetimeParameter),
    /// A type parameter.
    Type(TypeParameter),
    /// A constant parameter, as written.
    Const(String),
}

/// The generic parameters for a declaration, stored inside angled brackets.
#[derive(Debug, PartialEq, Eq)]
pub struct GenericParameters {
    /// The parameters, in the order of the declaration.
    pub params: Vec<GenericParam>,
}

/// The model of a parameter with bounds: its name and its bounds.
pub struct ParameterView {
    /// The name of the parameter.
    pub name: Seq<char>,
    /// The bounds on the parameter.
    pub bounds: Seq<Seq<char>>,
}

impl View for TypeParameter {
    type V = ParameterView;

    open spec fn view(&self) -> ParameterView {
        ParameterView { name: self.ident@, bounds: texts(self.bounds@) }
    }
}

impl View for LifetimeParameter {
    type V = ParameterView;

    open spec fn view(&self) -> ParameterView {
        ParameterView { name: self.lifetime@, bounds: texts(self.bounds@) }
    }
}

/// The model of [`Generics`].
pub struct GenericsView {
    /// The type parameters and their bounds.
    pub type_parameters: Seq<ParameterView>,
    /// The lifetime parameters and their bounds.
    pub lifetime_parameters: Seq<ParameterView>,
    /// The constant parameters.
    pub const_parameters: Seq<Seq<char>>,
    /// The where predicates.
    pub where_predicates: Seq<Seq<char>>,
}

/// The generics for a declaration, and any bounds or conditions on them.
///
/// This includes generics stored inside angle brackets, as well as
/// conditions on them using where clauses.
#[derive(Debug, PartialEq, Eq)]
pub struct Generics {
    /// type parameters and their bounds
    pub type_parameters: Vec<TypeParameter>,
    /// lifetime parameters and their bounds
    pub lifetime_parameters: Vec<LifetimeParameter>,
    /// constant parameters
    pub const_parameters: Vec<String>,
    /// where predicates
    pub where_predicates: Vec<String>,
}

impl View for Generics {
    type V = GenericsView;

    open spec fn view(&self) -> GenericsView {
        GenericsView {
            type_parameters: Seq::new(
                self.type_parameters@.len(),
                |i: int| self.type_parameters@[i]@,
            ),
            lifetime_parameters: Seq::new(
                self.lifetime_parameters@.len(),
                |i: int| self.lifetime_parameters@[i]@,
            ),
            const_parameters: texts(self.const_parameters@),
            where_predicates: texts(self.where_predicates@),
        }
    }
}

impl GenericsView {
    /// No parameters and no predicates.
    pub open spec fn empty() -> Self {
        GenericsView {
            type_parameters: Seq::empty(),
            lifetime_parameters: Seq::empty(),
            const_parameters: Seq::empty(),
            where_predicates: Seq::empty(),
        }
    }

    /// The generics with one more parameter, at the end of those of its
    /// kind.
    pub open spec fn with_param(self, param: GenericParam) -> Self {
        match param {
            GenericParam::Lifetime(p) => GenericsView {
                lifetime_parameters: self.lifetime_parameters.push(p@),
                ..self
            },
            GenericParam::Type(p) => GenericsView {
                type_parameters: self.type_parameters.push(p@),
                ..self
            },
            GenericParam::Const(c) => GenericsView {
                const_parameters: self.const_parameters.push(c@),
                ..self
            },
        }
    }

    /// The generics with the first `n` of `params`, each with those of its
    /// kind, in the order of the declaration.
    pub open spec fn with_params(self, params: Seq<GenericParam>, n: nat) -> Self
        decreases n,
    {
        if n == 0 || n > params.len() {
            self
        } else {
            self.with_params(params, (n - 1) as nat).with_param(params[n - 1])
        }
    }

    /// Whether the arguments of the type are written out where the type is
    /// named: where it has type parameters and no others.
    pub open spec fn any_generic_params(self) -> bool {
        self.type_parameters.len() > 0 && self.lifetime_parameters.len() == 0
            && self.const_parameters.len() == 0
    }

    /// The names of the parameters: lifetimes, then types, then constants.
    pub open spec fn arguments(self) -> Seq<Seq<char>> {
        Seq::new(self.lifetime_parameters.len(), |i: int| self.lifetime_parameters[i].name)
            + Seq::new(self.type_parameters.len(), |i: int| self.type_parameters[i].name)
            + self.const_parameters
    }

    /// The generics with `bound` added to the bounds of every type
    /// parameter.
    pub open spec fn with_bound(self, bound: Seq<char>) -> Self {
        GenericsView {
            type_parameters: Seq::new(
                self.type_parameters.len(),
                |i: int|
                    ParameterView {
                        name: self.type_parameters[i].name,
                        bounds: self.type_parameters[i].bounds.push(bound),
                    },
            ),
            ..self
        }
    }

    /// The generics with `bound` added to the bounds of the type parameters
    /// named `name`.
    pub open spec fn with_bound_on(self, name: Seq<char>, bound: Seq<char>) -> Self {
        GenericsView {
            type_parameters: Seq::new(
                self.type_parameters.len(),
                |i: int|
                    if self.type_parameters[i].name == name {
                        ParameterView {
                            name: self.type_parameters[i].name,
                            bounds: self.type_parameters[i].bounds.push(bound),
                        }
                    } else {
                        self.type_parameters[i]
                    },
            ),
            ..self
        }
    }
}

impl Clone for TypeParameter {
    fn clone(&self) -> (r: Self)
        ensures
            r@ == self@,
    {
        TypeParameter { ident: self.ident.clone(), bounds: clone_texts(&self.bounds) }
    }
}

impl Clone for LifetimeParameter {
    fn clone(&self) -> (r: Self)
        ensures
            r@ == self@,
    {
        LifetimeParameter { lifetime: self.lifetime.clone(), bounds: clone_texts(&self.bounds) }
    }
}

impl Clone for Generics {
    fn clone(&self) -> (r: Self)
        ensures
            r@ == self@,
    {
        let mut type_parameters: Vec<TypeParameter> = Vec::new();
        let mut i: usize = 0;
        while i < self.type_parameters.len()
            invariant
                i <= self.type_parameters.len(),
                type_parameters@.len() == i,
                forall|j: int|
                    0 <= j < i ==> #[trigger] type_parameters@[j]@ == self.type_parameters@[j]@,
            decreases self.type_parameters.len() - i,
        {
            type_parameters.push(self.type_parameters[i].clone());
            i += 1;
        }
        let mut lifetime_parameters: Vec<LifetimeParameter> = Vec::new();
        let mut i: usize = 0;
        while i < self.lifetime_parameters.len()
            invariant
                i <= self.lifetime_parameters.len(),
                lifetime_parameters@.len() == i,
                forall|j: int|
                    0 <= j < i ==> #[trigger] lifetime_parameters@[j]@
                        == self.lifetime_parameters@[j]@,
            decreases self.lifetime_parameters.len() - i,
        {
            lifetime_parameters.push(self.lifetime_parameters[i].clone());
            i += 1;
        }
        let r = Generics {
            type_parameters,
            lifetime_parameters,
            const_parameters: clone_texts(&self.const_parameters),
            where_predicates: clone_texts(&self.where_predicates),
        };
        assert(r@.type_parameters =~= self@.type_parameters);
        assert(r@.lifetime_parameters =~= self@.lifetime_parameters);
        r
    }
}

impl Generics {
    /// Sorts the parameters of a declaration by their kind, each kind in
    /// the order of the declaration, and keeps the predicates of the where
    /// clause.
    pub fn new(params: GenericParameters, where_predicates: Vec<String>) -> (r: Generics)
        ensures
            r@ == (GenericsView {
                where_predicates: texts(where_predicates@),
                ..GenericsView::empty()
            }).with_params(params.params@, params.params@.len()),
    {
        let mut generics = Generics {
            type_parameters: Vec::new(),
            lifetime_parameters: Vec::new(),
            const_parameters: Vec::new(),
            where_predicates,
        };
        let ghost start = generics@;
        assert(start == (GenericsView {
            where_predicates: texts(where_predicates@),
            ..GenericsView::empty()
        })) by {
            assert(start.type_parameters =~= Seq::empty());
            assert(start.lifetime_parameters =~= Seq::empty());
            assert(start.const_parameters =~= Seq::empty());
        }
        let all = &params.params;
        let mut i: usize = 0;
        while i < all.len()
            invariant
                i <= all.len(),
                generics@ == start.with_params(all@, i as nat),
            decreases all.len() - i,
        {
            let ghost before = generics@;
            match &all[i] {
                GenericParam::Lifetime(lifetime_param) => {
                    generics.lifetime_parameters.push(lifetime_param.clone());
                    assert(generics@.lifetime_parameters =~= before.lifetime_parameters.push(
                        lifetime_param@,
                    ));
                    assert(generics@.type_parameters =~= before.type_parameters);
                },
                GenericParam::Type(type_param) => {
                    generics.type_parameters.push(type_param.clone());
                    assert(generics@.type_parameters =~= before.type_parameters.push(type_param@));
                    assert(generics@.lifetime_parameters =~= before.lifetime_parameters);
                },
                GenericParam::Const(const_param) => {
                    generics.const_parameters.push(const_param.clone());
                    assert(generics@.const_parameters =~= before.const_parameters.push(
                        const_param@,
                    ));
                    assert(generics@.type_parameters =~= before.type_parameters);
                    assert(generics@.lifetime_parameters =~= before.lifetime_parameters);
                },
            }
            i += 1;
        }
        generics
    }

    /// Returns whether the arguments of the type are written out where the
    /// type is named: where it has type parameters and no others.
    pub fn any_generic_params(&self) -> (r: bool)
        ensures
            r == self@.any_generic_params(),
    {
        self.type_parameters.len() > 0 && self.lifetime_parameters.len() == 0
            && self.const_parameters.len() == 0
    }

    /// Returns the generic parameters of the type without bounds, for use
    /// where the type is named: lifetimes, then types, then constants.
    pub fn as_generic_arguments(&self) -> (r: Vec<String>)
        ensures
            texts(r@) == self@.arguments(),
    {
        let mut out: Vec<String> = Vec::new();
        let ghost lifetimes = Seq::new(
            self@.lifetime_parameters.len(),
            |i: int| self@.lifetime_parameters[i].name,
        );
        let ghost types = Seq::new(
            self@.type_parameters.len(),
            |i: int| self@.type_parameters[i].name,
        );
        let mut i: usize = 0;
        while i < self.lifetime_parameters.len()
            invariant
                i <= self.lifetime_parameters.len(),
                out@.len() == i,
                lifetimes.len() == self.lifetime_parameters@.len(),
                forall|j: int|
                    0 <= j < lifetimes.len() ==> #[trigger] lifetimes[j]
                        == self.lifetime_parameters@[j].lifetime@,
                forall|j: int| 0 <= j < i ==> #[trigger] out@[j]@ == lifetimes[j],
            decreases self.lifetime_parameters.len() - i,
        {
            out.push(self.lifetime_parameters[i].lifetime.clone());
            i += 1;
        }
        let mut i: usize = 0;
        while i < self.type_parameters.len()
            invariant
                i <= self.type_parameters.len(),
                out@.len() == lifetimes.len() + i,
                types.len() == self.type_parameters@.len(),
                forall|j: int|
                    0 <= j < types.len() ==> #[trigger] types[j] == self.type_parameters@[j].ident@,
                forall|j: int| 0 <= j < lifetimes.len() ==> #[trigger] out@[j]@ == lifetimes[j],
                forall|j: int| 0 <= j < i ==> #[trigger] out@[lifetimes.len() + j]@ == types[j],
            decreases self.type_parameters.len() - i,
        {
            out.push(self.type_parameters[i].ident.clone());
            i += 1;
        }
        let mut i: usize = 0;
        while i < self.const_parameters.len()
            invariant
                i <= self.const_parameters.len(),
                out@.len() == lifetimes.len() + types.len() + i,
                forall|j: int| 0 <= j < lifetimes.len() ==> #[trigger] out@[j]@ == lifetimes[j],
                forall|j: int|
                    0 <= j < types.len() ==> #[trigger] out@[lifetimes.len() + j]@ == types[j],
                forall|j: int|
                    0 <= j < i ==> #[trigger] out@[lifetimes.len() + types.len() + j]@
                        == self.const_parameters@[j]@,
            decreases self.const_parameters.len() - i,
        {
            out.push(self.const_parameters[i].clone());
            i += 1;
        }
        assert(texts(out@) =~= self@.arguments()) by {
            assert forall|k: int| 0 <= k < out@.len() implies texts(out@)[k]
                == self@.arguments()[k] by {
                if k < lifetimes.len() {
                } else if k < lifetimes.len() + types.len() {
                    assert(out@[lifetimes.len() + (k - lifetimes.len())]@ == types[k
                        - lifetimes.len()]);
                } else {
                    let j = k - lifetimes.len() - types.len();
                    assert(out@[lifetimes.len() + types.len() + j]@
                        == self.const_parameters@[j]@);
                }
            }
        }
        out
    }

    /// Adds `bound` to the bounds of every type parameter.
    pub fn add_bound(&mut self, bound: &str)
        ensures
            final(self)@ == old(self)@.with_bound(bound@),
    {
        let mut i: usize = 0;
        let mut params: Vec<TypeParameter> = Vec::new();
        std::mem::swap(&mut self.type_parameters, &mut params);
        let ghost before = params@;
        let mut out: Vec<TypeParameter> = Vec::new();
        while i < params.len()
            invariant
                i <= params.len(),
                params@ == before,
                out@.len() == i,
                forall|j: int|
                    0 <= j < i ==> (#[trigger] out@[j])@ == (ParameterView {
                        name: before[j]@.name,
                        bounds: before[j]@.bounds.push(bound@),
                    }),
            decreases params.len() - i,
        {
            let mut p = params[i].clone();
            p.bounds.push(String::from_str(bound));
            assert(texts(p.bounds@) =~= before[i as int]@.bounds.push(bound@));
            out.push(p);
            i += 1;
        }
        self.type_parameters = out;
        assert(self@.type_parameters =~= old(self)@.with_bound(bound@).type_parameters);
    }

    /// Adds `bound` to the bounds of the type parameters named `name`.
    pub fn add_bound_on(&mut self, name: &String, bound: &str)
        ensures
            final(self)@ == old(self)@.with_bound_on(name@, bound@),
    {
        let mut i: usize = 0;
        let mut params: Vec<TypeParameter> = Vec::new();
        std::mem::swap(&mut self.type_parameters, &mut params);
        let ghost before = params@;
        let mut out: Vec<TypeParameter> = Vec::new();
        while i < params.len()
            invariant
                i <= params.len(),
                params@ == before,
                out@.len() == i,
                before.len() == old(self)@.type_parameters.len(),
                forall|j: int|
                    0 <= j < before.len() ==> #[trigger] old(self)@.type_parameters[j]
                        == before[j]@,
                forall|j: int|
                    0 <= j < i ==> (#[trigger] out@[j])@ == old(self)@.with_bound_on(
                        name@,
                        bound@,
                    ).type_parameters[j],
            decreases params.len() - i,
        {
            let mut p = params[i].clone();
            if p.ident == *name {
                p.bounds.push(String::from_str(bound));
                assert(texts(p.bounds@) =~= before[i as int]@.bounds.push(bound@));
            }
            out.push(p);
            i += 1;
        }
        self.type_parameters = out;
        assert(self@.type_parameters =~= old(self)@.with_bound_on(name@, bound@).type_parameters);
    }
}

/// An enum declaration.
#[derive(Debug, PartialEq, Eq)]
pub struct DataEnum {
    /// The name of the enum.
    pub ident: String,
    /// The generics of the enum.
    pub generics: Generics,
    /// The variants of the enum, in the order of the declaration.
    pub variants: Vec<Variant>,
}

/// A struct declaration.
#[derive(Debug, PartialEq, Eq)]
pub struct DataStruct {
    /// The name of the struct.
    pub ident: String,
    /// The generics of the struct.
    pub generics: Generics,
    /// The fields of the struct.
    pub fields: Fields,
}

/// A datatype we are deriving uniplate on
#[derive(Debug, PartialEq, Eq)]
pub enum Data {
    /// An enum.
    DataEnum(DataEnum),
    /// A struct.
    DataStruct(DataStruct),
}

impl Data {
    /// The name of the type.
    pub open spec fn name(&self) -> Seq<char> {
        match self {
            Data::DataEnum(x) => x.ident@,
            Data::DataStruct(x) => x.ident@,
        }
    }

    /// The generics of the type.
    pub open spec fn params(&self) -> Generics {
        match self {
            Data::DataEnum(x) => x.generics,
            Data::DataStruct(x) => x.generics,
        }
    }

    /// The tuples within the types of the fields keep the number of their
    /// fields.
    pub open spec fn wf(&self) -> bool {
        match self {
            Data::DataEnum(x) => forall|i: int|
                0 <= i < x.variants@.len() ==> (#[trigger] x.variants@[i]).fields.wf(),
            Data::DataStruct(x) => x.fields.wf(),
        }
    }

    /// Returns the name of the type.
    pub fn ident(&self) -> (r: String)
        ensures
            r@ == self.name(),
    {
        match self {
            Data::DataEnum(x) => x.ident.clone(),
            Data::DataStruct(x) => x.ident.clone(),
        }
    }

    /// Returns the generics of the type.
    pub fn generics(&self) -> (r: &Generics)
        ensures
            *r == self.params(),
    {
        match self {
            Data::DataEnum(data_enum) => &data_enum.generics,
            Data::DataStruct(data_struct) => &data_struct.generics,
        }
    }
}

} // verus!
