//! The types of fields: their form as written, and their classification.

use crate::derive::error::DeriveError;
use vstd::prelude::*;
use vstd::string::StringExecFns;

verus! {

/// A type as it is written in a declaration.
#[derive(Debug, PartialEq, Eq)]
pub enum TypeSyntax {
    /// `[T; n]`
    Array,
    /// `fn(A) -> B`
    BareFn,
    /// A type in an invisible group.
    Group,
    /// `impl Trait`
    ImplTrait,
    /// `_`
    Infer,
    /// A macro in the type position.
    Macro,
    /// `!`
    Never,
    /// `(T)`
    Paren,
    /// `*const T`
    Ptr,
    /// `&T`
    Reference,
    /// `[T]`
    Slice,
    /// `dyn Trait`
    TraitObject,
    /// `(A, B)`, with the types of its fields.
    Tuple(Vec<TypeSyntax>),
    /// Tokens that were not read as a type.
    Verbatim,
    /// A path, such as `std::boxed::Box<T>`.
    Path(PathSyntax),
}

/// A path type as it is written in a declaration.
#[derive(Debug, PartialEq, Eq)]
pub struct PathSyntax {
    /// The type as written.
    pub text: String,
    /// The path without the arguments of its last segment.
    pub prefix: String,
    /// Whether the last segment has arguments in angle brackets.
    pub angle_bracketed: bool,
    /// The arguments of the last segment.
    pub arguments: Vec<GenericArgument>,
}

/// An argument of a path segment.
#[derive(Debug, PartialEq, Eq)]
pub enum GenericArgument {
    /// A type.
    Type(TypeSyntax),
    /// A lifetime, a constant or a constraint.
    Other,
}

/// The model of a [`BasicType`].
pub struct BasicTypeView {
    /// The type as written.
    pub text: Seq<char>,
    /// The name of the type that lies innermost, its containers taken off.
    pub base: Seq<char>,
}

/// The model of a [`Type`].
pub enum TypeView {
    /// A boxed basic type.
    BoxedBasic(BasicTypeView),
    /// A basic type.
    Basic(BasicTypeView),
    /// A tuple type.
    Tuple(Seq<BasicTypeView>),
    /// A boxed tuple type.
    BoxedTuple(Seq<BasicTypeView>),
}

/// A basic type
#[derive(Debug, PartialEq, Eq)]
pub struct BasicType {
    /// The type as written.
    pub text: String,
    /// The name of the type that lies innermost, its containers taken off.
    pub base: String,
}

impl View for BasicType {
    type V = BasicTypeView;

    open spec fn view(&self) -> BasicTypeView {
        BasicTypeView { text: self.text@, base: self.base@ }
    }
}

impl Clone for BasicType {
    fn clone(&self) -> (r: Self)
        ensures
            r@ == self@,
    {
        BasicType { text: self.text.clone(), base: self.base.clone() }
    }
}

impl BasicType {
    /// A basic type written as `text`, whose innermost type is `base`.
    pub fn new(text: String, base: String) -> (r: Self)
        ensures
            r@ == (BasicTypeView { text: text@, base: base@ }),
    {
        BasicType { text, base }
    }
}

/// A tuple type
#[derive(Debug, PartialEq, Eq)]
pub struct TupleType {
    /// the types of the tuple fields
    ///
    /// for now, these must be unboxed basic types, but that restriction may
    /// be lifted later.
    pub fields: Vec<BasicType>,
    /// the number of types this tuple has
    pub n: usize,
}

impl View for TupleType {
    type V = Seq<BasicTypeView>;

    open spec fn view(&self) -> Seq<BasicTypeView> {
        Seq::new(self.fields@.len(), |i: int| self.fields@[i]@)
    }
}

impl TupleType {
    /// The number kept beside the fields is their number.
    pub open spec fn wf(&self) -> bool {
        self.n == self.fields@.len()
    }
}

impl Clone for TupleType {
    fn clone(&self) -> (r: Self)
        ensures
            r@ == self@,
            r.n == self.n,
            r.wf() == self.wf(),
    {
        let mut fields: Vec<BasicType> = Vec::new();
        let mut i: usize = 0;
        while i < self.fields.len()
            invariant
                i <= self.fields.len(),
                fields@.len() == i,
                forall|j: int| 0 <= j < i ==> #[trigger] fields@[j]@ == self.fields@[j]@,
            decreases self.fields.len() - i,
        {
            fields.push(self.fields[i].clone());
            i += 1;
        }
        let r = TupleType { fields, n: self.n };
        assert(r@ =~= self@);
        r
    }
}

/// A type
#[derive(Debug, PartialEq, Eq)]
pub enum Type {
    /// A boxed basic type
    BoxedBasic(BasicType),
    /// A basic type
    Basic(BasicType),
    /// A tuple type
    Tuple(TupleType),
    /// A boxed tuple type
    BoxedTuple(TupleType),
}

impl View for Type {
    type V = TypeView;

    open spec fn view(&self) -> TypeView {
        match self {
            Type::BoxedBasic(b) => TypeView::BoxedBasic(b@),
            Type::Basic(b) => TypeView::Basic(b@),
            Type::Tuple(t) => TypeView::Tuple(t@),
            Type::BoxedTuple(t) => TypeView::BoxedTuple(t@),
        }
    }
}

impl Type {
    /// The tuples within the type keep the number of their fields.
    pub open spec fn wf(&self) -> bool {
        match self {
            Type::BoxedBasic(_) => true,
            Type::Basic(_) => true,
            Type::Tuple(t) => t.wf(),
            Type::BoxedTuple(t) => t.wf(),
        }
    }
}

impl Clone for Type {
    fn clone(&self) -> (r: Self)
        ensures
            r@ == self@,
            r.wf() == self.wf(),
    {
        match self {
            Type::BoxedBasic(b) => Type::BoxedBasic(b.clone()),
            Type::Basic(b) => Type::Basic(b.clone()),
            Type::Tuple(t) => Type::Tuple(t.clone()),
            Type::BoxedTuple(t) => Type::BoxedTuple(t.clone()),
        }
    }
}

/// Whether `prefix` is one of the ways to write the box type.
pub open spec fn is_box_prefix(prefix: Seq<char>) -> bool {
    prefix == "::std::boxed::Box"@ || prefix == "std::boxed::Box"@ || prefix == "Box"@
}

impl GenericArgument {
    /// The nesting depth of the argument.
    pub open spec fn height(self) -> nat
        decreases self,
    {
        match self {
            GenericArgument::Type(t) => t.height(),
            GenericArgument::Other => 0,
        }
    }
}

impl TypeSyntax {
    /// The nesting depth of the type.
    pub open spec fn height(self) -> nat
        decreases self,
    {
        match self {
            TypeSyntax::Tuple(ts) => 1 + Self::height_of(ts@, ts@.len()),
            TypeSyntax::Path(p) => 1 + Self::height_of_args(p.arguments@, p.arguments@.len()),
            _ => 0,
        }
    }

    /// The greatest nesting depth among the first `n` of `ts`.
    pub open spec fn height_of(ts: Seq<TypeSyntax>, n: nat) -> nat
        decreases ts, n,
    {
        if n == 0 || n > ts.len() {
            0
        } else {
            let h = Self::height_of(ts, (n - 1) as nat);
            let l = ts[n - 1].height();
            if h >= l {
                h
            } else {
                l
            }
        }
    }

    /// The greatest nesting depth among the first `n` of `args`.
    pub open spec fn height_of_args(args: Seq<GenericArgument>, n: nat) -> nat
        decreases args, n,
    {
        if n == 0 || n > args.len() {
            0
        } else {
            let h = Self::height_of_args(args, (n - 1) as nat);
            let l = args[n - 1].height();
            if h >= l {
                h
            } else {
                l
            }
        }
    }

    /// None of the first `n` of `ts` is deeper than they are together.
    pub proof fn lemma_height_of(ts: Seq<TypeSyntax>, n: nat, i: int)
        requires
            0 <= i < n <= ts.len(),
        ensures
            ts[i].height() <= Self::height_of(ts, n),
        decreases n,
    {
        if i < n - 1 {
            Self::lemma_height_of(ts, (n - 1) as nat, i);
        }
    }

    /// None of the first `n` of `args` is deeper than they are together.
    pub proof fn lemma_height_of_args(args: Seq<GenericArgument>, n: nat, i: int)
        requires
            0 <= i < n <= args.len(),
        ensures
            args[i].height() <= Self::height_of_args(args, n),
        decreases n,
    {
        if i < n - 1 {
            Self::lemma_height_of_args(args, (n - 1) as nat, i);
        }
    }
}

/// Returns whether `s` is the text `text`.
pub(crate) fn is_text(s: &String, text: &str) -> (r: bool)
    ensures
        r == (s@ == text@),
{
    let other = String::from_str(text);
    *s == other
}

/// Returns whether `prefix` is one of the ways to write the box type.
fn is_box(prefix: &String) -> (r: bool)
    ensures
        r == is_box_prefix(prefix@),
{
    is_text(prefix, "::std::boxed::Box") || is_text(prefix, "std::boxed::Box") || is_text(
        prefix,
        "Box",
    )
}

impl TypeSyntax {
    /// The name of the type that lies innermost in a type written as a
    /// path: where the path has one type for its only argument, and that
    /// type is a path, the innermost of it; else the path itself without
    /// its arguments. A type that is no path has no such name.
    pub open spec fn innermost(self) -> Seq<char>
        decreases self.height(),
    {
        match self {
            TypeSyntax::Path(p) => if p.arguments@.len() == 1 && p.arguments@[0] is Type
                && p.arguments@[0]->Type_0 is Path {
                proof {
                    Self::lemma_height_of_args(p.arguments@, 1, 0);
                }
                p.arguments@[0]->Type_0.innermost()
            } else {
                p.prefix@
            },
            _ => Seq::empty(),
        }
    }

    /// Returns the name of the type that lies innermost in the type, its
    /// containers taken off.
    pub fn base(&self) -> (r: String)
        ensures
            r@ == self.innermost(),
        decreases self.height(),
    {
        match self {
            TypeSyntax::Path(path) => {
                if path.arguments.len() == 1 {
                    proof {
                        Self::lemma_height_of_args(path.arguments@, 1, 0);
                    }
                    match &path.arguments[0] {
                        GenericArgument::Type(inner) => match inner {
                            TypeSyntax::Path(_) => {
                                return inner.base();
                            },
                            _ => {},
                        },
                        GenericArgument::Other => {},
                    }
                }
                path.prefix.clone()
            },
            _ => String::new(),
        }
    }

    /// The number of fields of a tuple type, and nothing of another type.
    pub open spec fn width(self) -> nat {
        match self {
            TypeSyntax::Tuple(ts) => ts@.len(),
            _ => 0,
        }
    }

    /// Once a field of a tuple has no classification, the tuple has none,
    /// for the same reason.
    pub proof fn lemma_tuple_error(ts: Seq<TypeSyntax>, i: nat, n: nat, bound: nat)
        requires
            i <= n <= ts.len(),
            Self::height_of(ts, ts.len()) < bound,
            Self::tuple_classified(ts, i, bound) is Err,
        ensures
            Self::tuple_classified(ts, n, bound) == Self::tuple_classified(ts, i, bound),
        decreases n,
    {
        if i < n {
            Self::lemma_tuple_error(ts, i, (n - 1) as nat, bound);
        }
    }

    /// The classification of a type as written, or why it has none.
    pub open spec fn classified(self) -> Result<TypeView, DeriveError>
        decreases self.height(), self.width() + 1,
    {
        match self {
            TypeSyntax::Array => Err(DeriveError::ArrayType),
            TypeSyntax::BareFn => Err(DeriveError::FnType),
            TypeSyntax::Group => Err(DeriveError::GroupType),
            TypeSyntax::ImplTrait => Err(DeriveError::ImplType),
            TypeSyntax::Infer => Err(DeriveError::InferredType),
            TypeSyntax::Macro => Err(DeriveError::MacroType),
            TypeSyntax::Never => Err(DeriveError::NeverType),
            TypeSyntax::Paren => Err(DeriveError::ParenType),
            TypeSyntax::Ptr => Err(DeriveError::PointerType),
            TypeSyntax::Reference => Err(DeriveError::ReferenceType),
            TypeSyntax::Slice => Err(DeriveError::SliceType),
            TypeSyntax::TraitObject => Err(DeriveError::TraitObjectType),
            TypeSyntax::Verbatim => Err(DeriveError::VerbatimType),
            TypeSyntax::Tuple(ts) => match Self::tuple_classified(ts@, ts@.len(), self.height()) {
                Ok(fields) => Ok(TypeView::Tuple(fields)),
                Err(e) => Err(e),
            },
            TypeSyntax::Path(p) => if is_box_prefix(p.prefix@) {
                if p.angle_bracketed && p.arguments@.len() == 1 && p.arguments@[0] is Type {
                    proof {
                        Self::lemma_height_of_args(p.arguments@, 1, 0);
                    }
                    match p.arguments@[0]->Type_0.classified() {
                        Ok(TypeView::Basic(b)) => Ok(TypeView::BoxedBasic(b)),
                        Ok(TypeView::Tuple(t)) => Ok(TypeView::BoxedTuple(t)),
                        Ok(_) => Err(DeriveError::NestedBox),
                        Err(e) => Err(e),
                    }
                } else {
                    Err(DeriveError::InvalidBox)
                }
            } else {
                Ok(TypeView::Basic(BasicTypeView { text: p.text@, base: self.innermost() }))
            },
        }
    }

    /// The classification of the first `n` fields of a tuple, each of which
    /// must be an unboxed basic type, or why the first of them that has
    /// none has none. `bound` is greater than the nesting depth of every
    /// field.
    pub open spec fn tuple_classified(ts: Seq<TypeSyntax>, n: nat, bound: nat) -> Result<
        Seq<BasicTypeView>,
        DeriveError,
    >
        decreases bound, n,
        when Self::height_of(ts, ts.len()) < bound
    {
        if n == 0 || n > ts.len() {
            Ok(Seq::empty())
        } else {
            match Self::tuple_classified(ts, (n - 1) as nat, bound) {
                Err(e) => Err(e),
                Ok(front) => {
                    proof {
                        Self::lemma_height_of(ts, ts.len(), n - 1);
                    }
                    match ts[n - 1].classified() {
                        Ok(TypeView::Basic(b)) => Ok(front.push(b)),
                        Ok(_) => Err(DeriveError::TupleFieldNotBasic),
                        Err(e) => Err(e),
                    }
                },
            }
        }
    }
}

impl TupleType {
    /// Classifies the fields of a tuple type, each of which must be an
    /// unboxed basic type.
    pub fn from_syn(elems: &Vec<TypeSyntax>) -> (r: Result<Self, DeriveError>)
        ensures
            match r {
                Ok(t) => t.wf() && TypeSyntax::Tuple(*elems).classified() == Ok::<
                    TypeView,
                    DeriveError,
                >(TypeView::Tuple(t@)),
                Err(e) => TypeSyntax::Tuple(*elems).classified() == Err::<TypeView, DeriveError>(e),
            },
        decreases TypeSyntax::Tuple(*elems).height(), 0nat,
    {
        let ghost bound = TypeSyntax::Tuple(*elems).height();
        let mut fields: Vec<BasicType> = Vec::new();
        let mut i: usize = 0;
        assert(Seq::new(0, |j: int| fields@[j]@) =~= Seq::<BasicTypeView>::empty());
        while i < elems.len()
            invariant
                i <= elems.len(),
                fields@.len() == i,
                bound == TypeSyntax::Tuple(*elems).height(),
                TypeSyntax::tuple_classified(elems@, i as nat, bound) == Ok::<
                    Seq<BasicTypeView>,
                    DeriveError,
                >(Seq::new(i as nat, |j: int| fields@[j]@)),
            decreases elems.len() - i,
        {
            proof {
                TypeSyntax::lemma_height_of(elems@, elems@.len(), i as int);
            }
            let ghost front = Seq::new(i as nat, |j: int| fields@[j]@);
            match Type::parse(&elems[i]) {
                Ok(Type::Basic(field_type)) => {
                    fields.push(field_type);
                    assert(Seq::new((i + 1) as nat, |j: int| fields@[j]@) =~= front.push(
                        field_type@,
                    ));
                },
                Ok(_) => {
                    proof {
                        TypeSyntax::lemma_tuple_error(
                            elems@,
                            (i + 1) as nat,
                            elems@.len(),
                            bound,
                        );
                    }
                    return Err(DeriveError::TupleFieldNotBasic);
                },
                Err(e) => {
                    proof {
                        TypeSyntax::lemma_tuple_error(
                            elems@,
                            (i + 1) as nat,
                            elems@.len(),
                            bound,
                        );
                    }
                    return Err(e);
                },
            }
            i += 1;
        }
        let n = fields.len();
        let t = TupleType { fields, n };
        assert(t@ =~= Seq::new(i as nat, |j: int| fields@[j]@));
        Ok(t)
    }
}

impl Type {
    /// Classifies a type as written in a declaration: a basic type or a
    /// tuple of basic types, possibly in a box.
    ///
    /// Fails on every other form of type, on a box within a box, and on a
    /// box that has not exactly one type for its argument.
    pub fn parse(syntax: &TypeSyntax) -> (r: Result<Self, DeriveError>)
        ensures
            match r {
                Ok(t) => t.wf() && syntax.classified() == Ok::<TypeView, DeriveError>(t@),
                Err(e) => syntax.classified() == Err::<TypeView, DeriveError>(e),
            },
        decreases syntax.height(), 1nat,
    {
        match syntax {
            TypeSyntax::Array => Err(DeriveError::ArrayType),
            TypeSyntax::BareFn => Err(DeriveError::FnType),
            TypeSyntax::Group => Err(DeriveError::GroupType),
            TypeSyntax::ImplTrait => Err(DeriveError::ImplType),
            TypeSyntax::Infer => Err(DeriveError::InferredType),
            TypeSyntax::Macro => Err(DeriveError::MacroType),
            TypeSyntax::Never => Err(DeriveError::NeverType),
            TypeSyntax::Paren => Err(DeriveError::ParenType),
            TypeSyntax::Ptr => Err(DeriveError::PointerType),
            TypeSyntax::Reference => Err(DeriveError::ReferenceType),
            TypeSyntax::Slice => Err(DeriveError::SliceType),
            TypeSyntax::TraitObject => Err(DeriveError::TraitObjectType),
            TypeSyntax::Verbatim => Err(DeriveError::VerbatimType),
            TypeSyntax::Tuple(elems) => {
                match TupleType::from_syn(elems) {
                    Ok(tuple_type) => Ok(Type::Tuple(tuple_type)),
                    Err(e) => Err(e),
                }
            },
            TypeSyntax::Path(path) => {
                // Is this type boxed?
                if is_box(&path.prefix) {
                    // Type is inside a box
                    if path.angle_bracketed && path.arguments.len() == 1 {
                        proof {
                            TypeSyntax::lemma_height_of_args(path.arguments@, 1, 0);
                        }
                        match &path.arguments[0] {
                            GenericArgument::Type(inner) => {
                                match Type::parse(inner) {
                                    Ok(Type::Basic(basic_type)) => Ok(Type::BoxedBasic(basic_type)),
                                    Ok(Type::Tuple(tuple_type)) => Ok(Type::BoxedTuple(tuple_type)),
                                    Ok(_) => Err(DeriveError::NestedBox),
                                    Err(e) => Err(e),
                                }
                            },
                            GenericArgument::Other => Err(DeriveError::InvalidBox),
                        }
                    } else {
                        Err(DeriveError::InvalidBox)
                    }
                } else {
                    // Type is not inside a box
                    Ok(Type::Basic(BasicType::new(path.text.clone(), syntax.base())))
                }
            },
        }
    }
}

} // verus!
