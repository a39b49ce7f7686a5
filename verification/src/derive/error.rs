//! Why a traversal cannot be derived for a declaration.

use vstd::prelude::*;

verus! {

/// A declaration that the derivation engine does not take.
#[derive(Debug, Clone, Copy, PartialEq, Eq, Structural)]
pub enum DeriveError {
    /// Array types are not supported.
    ArrayType,
    /// Function types are not supported.
    FnType,
    /// Group types are not supported.
    GroupType,
    /// Impl types are not supported.
    ImplType,
    /// Inferred types are not supported.
    InferredType,
    /// Macros in the type position are not supported.
    MacroType,
    /// Never types are not supported.
    NeverType,
    /// Parenthesised types are not supported.
    ParenType,
    /// Raw pointer types are not supported.
    PointerType,
    /// Reference types are not supported.
    ReferenceType,
    /// Slice types are not supported.
    SliceType,
    /// Trait object types are not supported.
    TraitObjectType,
    /// Verbatim types are not supported.
    VerbatimType,
    /// A box within a box is not supported.
    NestedBox,
    /// A box that has not exactly one type for its argument.
    InvalidBox,
    /// A field of a tuple that is not an unboxed basic type.
    TupleFieldNotBasic,
    /// More than one declaration of the self-traversal for a type.
    DuplicateUniplate,
    /// More than one target type in the declaration of an instance.
    DuplicateTo,
    /// A declaration of a traversal to another type without a target type.
    MissingTo,
    /// A property in the declaration of an instance that is not known.
    UnrecognizedProperty,
    /// A target type that is not an unboxed basic type.
    UnsupportedTarget,
}

impl DeriveError {
    /// What the error says.
    pub open spec fn text(self) -> Seq<char> {
        match self {
            DeriveError::ArrayType => "uniplate_derive: array types are not supported."@,
            DeriveError::FnType => "uniplate_derive: fn types are not supported."@,
            DeriveError::GroupType => "uniplate_derive: group types are not supported."@,
            DeriveError::ImplType => "uniplate_derive: impl types are not supported."@,
            DeriveError::InferredType => "uniplate_derive: inferred types are not supported."@,
            DeriveError::MacroType => "uniplate_derive: macros in the type position are not supported."@,
            DeriveError::NeverType => "uniplate_derive: never types are not supported."@,
            DeriveError::ParenType => "uniplate_derive: paren types are not supported."@,
            DeriveError::PointerType => "uniplate_derive: raw pointer types are not supported."@,
            DeriveError::ReferenceType => "uniplate_derive: reference types are not yet supported."@,
            DeriveError::SliceType => "uniplate_derive: slice types are not supported."@,
            DeriveError::TraitObjectType => "uniplate_derive: trait object types are not supported."@,
            DeriveError::VerbatimType => "uniplate_derive: verbatim types are not yet supported."@,
            DeriveError::NestedBox => "uniplate_derive: nested boxes are not supported."@,
            DeriveError::InvalidBox => "uniplate_derive: invalid box type"@,
            DeriveError::TupleFieldNotBasic => "uniplate_derive: expect tuple field to be an unboxed basic type"@,
            DeriveError::DuplicateUniplate => "only one uniplate declaration is expected per type"@,
            DeriveError::DuplicateTo => "only one to type can be given"@,
            DeriveError::MissingTo => "no to type given"@,
            DeriveError::UnrecognizedProperty => "unrecognized property"@,
            DeriveError::UnsupportedTarget => "uniplate_derive: expect the to type to be an unboxed basic type"@,
        }
    }

    /// Returns what the error says.
    pub fn message(&self) -> (r: &'static str)
        ensures
            r@ == self.text(),
    {
        match self {
            DeriveError::ArrayType => "uniplate_derive: array types are not supported.",
            DeriveError::FnType => "uniplate_derive: fn types are not supported.",
            DeriveError::GroupType => "uniplate_derive: group types are not supported.",
            DeriveError::ImplType => "uniplate_derive: impl types are not supported.",
            DeriveError::InferredType => "uniplate_derive: inferred types are not supported.",
            DeriveError::MacroType => "uniplate_derive: macros in the type position are not supported.",
            DeriveError::NeverType => "uniplate_derive: never types are not supported.",
            DeriveError::ParenType => "uniplate_derive: paren types are not supported.",
            DeriveError::PointerType => "uniplate_derive: raw pointer types are not supported.",
            DeriveError::ReferenceType => "uniplate_derive: reference types are not yet supported.",
            DeriveError::SliceType => "uniplate_derive: slice types are not supported.",
            DeriveError::TraitObjectType => "uniplate_derive: trait object types are not supported.",
            DeriveError::VerbatimType => "uniplate_derive: verbatim types are not yet supported.",
            DeriveError::NestedBox => "uniplate_derive: nested boxes are not supported.",
            DeriveError::InvalidBox => "uniplate_derive: invalid box type",
            DeriveError::TupleFieldNotBasic => "uniplate_derive: expect tuple field to be an unboxed basic type",
            DeriveError::DuplicateUniplate => "only one uniplate declaration is expected per type",
            DeriveError::DuplicateTo => "only one to type can be given",
            DeriveError::MissingTo => "no to type given",
            DeriveError::UnrecognizedProperty => "unrecognized property",
            DeriveError::UnsupportedTarget => "uniplate_derive: expect the to type to be an unboxed basic type",
        }
    }
}

} // verus!
