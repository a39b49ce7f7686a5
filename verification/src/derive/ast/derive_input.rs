//! What is asked of the derivation engine: the declaration of a type and
//! the traversal instances declared for it.

use crate::derive::ast::data::clone_texts;
use crate::derive::ast::data::texts;
use crate::derive::ast::data::Data;
use crate::derive::ast::typ::is_text;
use crate::derive::ast::typ::BasicType;
use crate::derive::ast::typ::BasicTypeView;
use crate::derive::ast::typ::Type;
use crate::derive::ast::typ::TypeSyntax;
use crate::derive::ast::typ::TypeView;
use crate::derive::error::DeriveError;
use vstd::prelude::*;

verus! {

/// The value of a property in the declaration of an instance.
#[derive(Debug, PartialEq, Eq)]
pub enum PropertyValue {
    /// A type, as in `to=T`.
    Type(TypeSyntax),
    /// A list of types, as in `walk_into=[A, B]`.
    Types(Vec<TypeSyntax>),
    /// Anything else.
    Other,
}

/// A property in the declaration of an instance: `key=value`.
#[derive(Debug, PartialEq, Eq)]
pub struct Property {
    /// The key.
    pub key: String,
    /// The value.
    pub value: PropertyValue,
}

/// An attribute on the declaration of a type.
#[derive(Debug, PartialEq, Eq)]
pub struct Attribute {
    /// The name of the attribute, where it is a single word.
    pub name: Option<String>,
    /// The properties in its brackets.
    pub properties: Vec<Property>,
}

/// The declaration of the self-traversal of a type.
#[derive(Debug, PartialEq, Eq)]
pub struct UniplateInstanceMeta {
    /// The names of the types to walk into, besides the type itself.
    pub walk_into: Vec<String>,
}

/// The declaration of the traversal of a type to another type.
#[derive(Debug, PartialEq, Eq)]
pub struct BiplateInstanceMeta {
    /// The target type.
    pub to: BasicType,
    /// The names of the types to walk into, besides the type itself and the
    /// target type.
    pub walk_into: Vec<String>,
}

/// Parsed metadata associated with a Biplate / Uniplate instance.
///
/// These settings are determined through the `uniplate` and `biplate`
/// helper attributes.
#[derive(Debug, PartialEq, Eq)]
pub enum InstanceMeta {
    /// A self-traversal.
    Uniplate(UniplateInstanceMeta),
    /// A traversal to another type.
    Biplate(BiplateInstanceMeta),
}

/// The model of an [`InstanceMeta`].
pub enum InstanceMetaView {
    /// A self-traversal that walks into the types named.
    Uniplate { walk_into: Seq<Seq<char>> },
    /// A traversal to the type `to` that walks into the types named.
    Biplate { to: BasicTypeView, walk_into: Seq<Seq<char>> },
}

impl View for InstanceMeta {
    type V = InstanceMetaView;

    open spec fn view(&self) -> InstanceMetaView {
        match self {
            InstanceMeta::Uniplate(u) => InstanceMetaView::Uniplate {
                walk_into: texts(u.walk_into@),
            },
            InstanceMeta::Biplate(b) => InstanceMetaView::Biplate {
                to: b.to@,
                walk_into: texts(b.walk_into@),
            },
        }
    }
}

impl Clone for InstanceMeta {
    fn clone(&self) -> (r: Self)
        ensures
            r@ == self@,
    {
        match self {
            InstanceMeta::Uniplate(u) => InstanceMeta::Uniplate(
                UniplateInstanceMeta { walk_into: clone_texts(&u.walk_into) },
            ),
            InstanceMeta::Biplate(b) => InstanceMeta::Biplate(
                BiplateInstanceMeta { to: b.to.clone(), walk_into: clone_texts(&b.walk_into) },
            ),
        }
    }
}

/// The views of a list of instances.
pub open spec fn instance_views(metas: Seq<InstanceMeta>) -> Seq<InstanceMetaView> {
    Seq::new(metas.len(), |i: int| metas[i]@)
}

/// The declaration of a type and of the instances to derive for it.
#[derive(Debug, PartialEq, Eq)]
pub struct DeriveInput {
    /// The instances declared, in the order of the attributes.
    pub instance_metadata: Vec<InstanceMeta>,
    /// The declaration of the type.
    pub data: Data,
}

/// What has been read of the properties of a declaration of a traversal to
/// another type.
pub struct TargetView {
    /// The target type, if it was given.
    pub to: Option<BasicTypeView>,
    /// The names of the types to walk into.
    pub walk_into: Seq<Seq<char>>,
}

/// The names of the types that lie innermost in each of `types`.
pub open spec fn innermost_names(types: Seq<TypeSyntax>) -> Seq<Seq<char>> {
    Seq::new(types.len(), |i: int| types[i].innermost())
}

/// Returns the names of the types that lie innermost in each of `types`.
fn base_names(types: &Vec<TypeSyntax>) -> (r: Vec<String>)
    ensures
        texts(r@) == innermost_names(types@),
{
    let mut out: Vec<String> = Vec::new();
    let mut i: usize = 0;
    while i < types.len()
        invariant
            i <= types.len(),
            out@.len() == i,
            forall|j: int| 0 <= j < i ==> #[trigger] out@[j]@ == types@[j].innermost(),
        decreases types.len() - i,
    {
        out.push(types[i].base());
        i += 1;
    }
    assert(texts(out@) =~= innermost_names(types@));
    out
}

/// The target type that a property gives: an unboxed basic type.
pub open spec fn target_of(syntax: TypeSyntax) -> Result<BasicTypeView, DeriveError> {
    match syntax.classified() {
        Ok(TypeView::Basic(b)) => Ok(b),
        Ok(_) => Err(DeriveError::UnsupportedTarget),
        Err(e) => Err(e),
    }
}

/// What is read of the declaration of a self-traversal after one more
/// property: a list of types to walk into replaces the list, each type
/// named by the type that lies innermost in it, and nothing else is known.
pub open spec fn uniplate_step(walk_into: Seq<Seq<char>>, property: Property) -> Result<
    Seq<Seq<char>>,
    DeriveError,
> {
    if property.key@ == "walk_into"@ && property.value is Types {
        Ok(innermost_names(property.value->Types_0@))
    } else {
        Err(DeriveError::UnrecognizedProperty)
    }
}

/// What is read of the first `n` properties of the declaration of a
/// self-traversal.
pub open spec fn uniplate_read(properties: Seq<Property>, n: nat) -> Result<
    Seq<Seq<char>>,
    DeriveError,
>
    decreases n,
{
    if n == 0 || n > properties.len() {
        Ok(Seq::empty())
    } else {
        match uniplate_read(properties, (n - 1) as nat) {
            Err(e) => Err(e),
            Ok(walk_into) => uniplate_step(walk_into, properties[n - 1]),
        }
    }
}

/// What is read of the declaration of a traversal to another type after one
/// more property: the target type may be given once, a list of names to
/// walk into replaces the list, and nothing else is known.
pub open spec fn biplate_step(read: TargetView, property: Property) -> Result<
    TargetView,
    DeriveError,
> {
    if property.key@ == "to"@ {
        if read.to is Some {
            Err(DeriveError::DuplicateTo)
        } else if property.value is Type {
            match target_of(property.value->Type_0) {
                Ok(to) => Ok(TargetView { to: Some(to), walk_into: read.walk_into }),
                Err(e) => Err(e),
            }
        } else {
            Err(DeriveError::UnrecognizedProperty)
        }
    } else if property.key@ == "walk_into"@ && property.value is Types {
        Ok(TargetView { to: read.to, walk_into: innermost_names(property.value->Types_0@) })
    } else {
        Err(DeriveError::UnrecognizedProperty)
    }
}

/// What is read of the first `n` properties of the declaration of a
/// traversal to another type.
pub open spec fn biplate_read(properties: Seq<Property>, n: nat) -> Result<TargetView, DeriveError>
    decreases n,
{
    if n == 0 || n > properties.len() {
        Ok(TargetView { to: None, walk_into: Seq::empty() })
    } else {
        match biplate_read(properties, (n - 1) as nat) {
            Err(e) => Err(e),
            Ok(read) => biplate_step(read, properties[n - 1]),
        }
    }
}

/// The instance that the attribute `uniplate` declares.
pub open spec fn uniplate_declared(attr: Attribute) -> Result<InstanceMetaView, DeriveError> {
    match uniplate_read(attr.properties@, attr.properties@.len()) {
        Ok(walk_into) => Ok(InstanceMetaView::Uniplate { walk_into }),
        Err(e) => Err(e),
    }
}

/// The instance that the attribute `biplate` declares.
pub open spec fn biplate_declared(attr: Attribute) -> Result<InstanceMetaView, DeriveError> {
    match biplate_read(attr.properties@, attr.properties@.len()) {
        Ok(read) => match read.to {
            Some(to) => Ok(InstanceMetaView::Biplate { to, walk_into: read.walk_into }),
            None => Err(DeriveError::MissingTo),
        },
        Err(e) => Err(e),
    }
}

/// The instances read from attributes, and whether the self-traversal is
/// among them.
pub struct DeclaredView {
    /// The instances, in the order of the attributes.
    pub instances: Seq<InstanceMetaView>,
    /// Whether a self-traversal was declared.
    pub has_uniplate: bool,
}

/// What is declared after one more attribute: `uniplate` declares the
/// self-traversal, once; `biplate` declares a traversal to another type;
/// every other attribute is passed over.
pub open spec fn declared_step(read: DeclaredView, attr: Attribute) -> Result<
    DeclaredView,
    DeriveError,
> {
    if attr.name is None {
        Ok(read)
    } else if attr.name->0@ == "uniplate"@ {
        if read.has_uniplate {
            Err(DeriveError::DuplicateUniplate)
        } else {
            match uniplate_declared(attr) {
                Ok(meta) => Ok(
                    DeclaredView { instances: read.instances.push(meta), has_uniplate: true },
                ),
                Err(e) => Err(e),
            }
        }
    } else if attr.name->0@ == "biplate"@ {
        match biplate_declared(attr) {
            Ok(meta) => Ok(
                DeclaredView {
                    instances: read.instances.push(meta),
                    has_uniplate: read.has_uniplate,
                },
            ),
            Err(e) => Err(e),
        }
    } else {
        Ok(read)
    }
}

/// What the first `n` attributes declare.
pub open spec fn declared_read(attrs: Seq<Attribute>, n: nat) -> Result<DeclaredView, DeriveError>
    decreases n,
{
    if n == 0 || n > attrs.len() {
        Ok(DeclaredView { instances: Seq::empty(), has_uniplate: false })
    } else {
        match declared_read(attrs, (n - 1) as nat) {
            Err(e) => Err(e),
            Ok(read) => declared_step(read, attrs[n - 1]),
        }
    }
}

/// The instances that a list of attributes declares: those it names, in
/// order, and after them the self-traversal that walks into nothing where
/// none is named.
pub open spec fn declared(attrs: Seq<Attribute>) -> Result<Seq<InstanceMetaView>, DeriveError> {
    match declared_read(attrs, attrs.len()) {
        Ok(read) => if read.has_uniplate {
            Ok(read.instances)
        } else {
            Ok(read.instances.push(InstanceMetaView::Uniplate { walk_into: Seq::empty() }))
        },
        Err(e) => Err(e),
    }
}

/// Once a property is refused, the declaration is, for the same reason.
pub proof fn lemma_uniplate_read_error(properties: Seq<Property>, i: nat, n: nat)
    requires
        i <= n <= properties.len(),
        uniplate_read(properties, i) is Err,
    ensures
        uniplate_read(properties, n) == uniplate_read(properties, i),
    decreases n,
{
    if i < n {
        lemma_uniplate_read_error(properties, i, (n - 1) as nat);
    }
}

/// Once a property is refused, the declaration is, for the same reason.
pub proof fn lemma_biplate_read_error(properties: Seq<Property>, i: nat, n: nat)
    requires
        i <= n <= properties.len(),
        biplate_read(properties, i) is Err,
    ensures
        biplate_read(properties, n) == biplate_read(properties, i),
    decreases n,
{
    if i < n {
        lemma_biplate_read_error(properties, i, (n - 1) as nat);
    }
}

/// Once an attribute is refused, the list of attributes is, for the same
/// reason.
pub proof fn lemma_declared_read_error(attrs: Seq<Attribute>, i: nat, n: nat)
    requires
        i <= n <= attrs.len(),
        declared_read(attrs, i) is Err,
    ensures
        declared_read(attrs, n) == declared_read(attrs, i),
    decreases n,
{
    if i < n {
        lemma_declared_read_error(attrs, i, (n - 1) as nat);
    }
}

impl UniplateInstanceMeta {
    /// Reads the declaration of the self-traversal from its attribute.
    pub fn from_attribute(attr: &Attribute) -> (r: Result<InstanceMeta, DeriveError>)
        ensures
            match r {
                Ok(meta) => uniplate_declared(*attr) == Ok::<InstanceMetaView, DeriveError>(meta@),
                Err(e) => uniplate_declared(*attr) == Err::<InstanceMetaView, DeriveError>(e),
            },
    {
        let mut walk_into: Vec<String> = Vec::new();
        let mut i: usize = 0;
        assert(texts(walk_into@) =~= Seq::empty());
        while i < attr.properties.len()
            invariant
                i <= attr.properties.len(),
                uniplate_read(attr.properties@, i as nat) == Ok::<Seq<Seq<char>>, DeriveError>(
                    texts(walk_into@),
                ),
            decreases attr.properties.len() - i,
        {
            let property = &attr.properties[i];
            let known = is_text(&property.key, "walk_into");
            match &property.value {
                PropertyValue::Types(types) if known => {
                    walk_into = base_names(types);
                },
                _ => {
                    proof {
                        lemma_uniplate_read_error(
                            attr.properties@,
                            (i + 1) as nat,
                            attr.properties@.len(),
                        );
                    }
                    return Err(DeriveError::UnrecognizedProperty);
                },
            }
            i += 1;
        }
        Ok(InstanceMeta::Uniplate(UniplateInstanceMeta { walk_into }))
    }
}

impl BiplateInstanceMeta {
    /// Reads the declaration of a traversal to another type from its
    /// attribute.
    pub fn from_attribute(attr: &Attribute) -> (r: Result<InstanceMeta, DeriveError>)
        ensures
            match r {
                Ok(meta) => biplate_declared(*attr) == Ok::<InstanceMetaView, DeriveError>(meta@),
                Err(e) => biplate_declared(*attr) == Err::<InstanceMetaView, DeriveError>(e),
            },
    {
        let mut to: Option<BasicType> = None;
        let mut walk_into: Vec<String> = Vec::new();
        let mut i: usize = 0;
        assert(texts(walk_into@) =~= Seq::empty());
        while i < attr.properties.len()
            invariant
                i <= attr.properties.len(),
                biplate_read(attr.properties@, i as nat) == Ok::<TargetView, DeriveError>(
                    TargetView {
                        to: match to {
                            Some(t) => Some(t@),
                            None => None,
                        },
                        walk_into: texts(walk_into@),
                    },
                ),
            decreases attr.properties.len() - i,
        {
            let property = &attr.properties[i];
            let step: Result<(), DeriveError> = if is_text(&property.key, "to") {
                if to.is_some() {
                    Err(DeriveError::DuplicateTo)
                } else {
                    match &property.value {
                        PropertyValue::Type(syntax) => match Type::parse(syntax) {
                            Ok(Type::Basic(basic_type)) => {
                                to = Some(basic_type);
                                Ok(())
                            },
                            Ok(_) => Err(DeriveError::UnsupportedTarget),
                            Err(e) => Err(e),
                        },
                        _ => Err(DeriveError::UnrecognizedProperty),
                    }
                }
            } else if is_text(&property.key, "walk_into") {
                match &property.value {
                    PropertyValue::Types(types) => {
                        walk_into = base_names(types);
                        Ok(())
                    },
                    _ => Err(DeriveError::UnrecognizedProperty),
                }
            } else {
                Err(DeriveError::UnrecognizedProperty)
            };
            match step {
                Ok(_) => {},
                Err(e) => {
                    proof {
                        lemma_biplate_read_error(
                            attr.properties@,
                            (i + 1) as nat,
                            attr.properties@.len(),
                        );
                    }
                    return Err(e);
                },
            }
            i += 1;
        }
        match to {
            Some(to) => Ok(InstanceMeta::Biplate(BiplateInstanceMeta { to, walk_into })),
            None => Err(DeriveError::MissingTo),
        }
    }
}

impl InstanceMeta {
    /// Reads the instances that the attributes on a declaration declare.
    ///
    /// Attributes other than `uniplate` and `biplate` are passed over. The
    /// self-traversal may be declared once; where it is not declared, the
    /// one that walks into nothing is added at the end.
    pub fn parse_many(attrs: &Vec<Attribute>) -> (r: Result<Vec<InstanceMeta>, DeriveError>)
        ensures
            match r {
                Ok(metas) => declared(attrs@) == Ok::<Seq<InstanceMetaView>, DeriveError>(
                    instance_views(metas@),
                ),
                Err(e) => declared(attrs@) == Err::<Seq<InstanceMetaView>, DeriveError>(e),
            },
    {
        let mut has_uniplate: bool = false;
        let mut instance_metadata: Vec<InstanceMeta> = Vec::new();
        let mut i: usize = 0;
        assert(instance_views(instance_metadata@) =~= Seq::empty());
        while i < attrs.len()
            invariant
                i <= attrs.len(),
                declared_read(attrs@, i as nat) == Ok::<DeclaredView, DeriveError>(
                    DeclaredView { instances: instance_views(instance_metadata@), has_uniplate },
                ),
            decreases attrs.len() - i,
        {
            let attr = &attrs[i];
            let ghost before = instance_views(instance_metadata@);
            let meta: Result<Option<InstanceMeta>, DeriveError> = match &attr.name {
                None => Ok(None),
                Some(attr_name) => {
                    if is_text(attr_name, "uniplate") {
                        if has_uniplate {
                            Err(DeriveError::DuplicateUniplate)
                        } else {
                            match UniplateInstanceMeta::from_attribute(attr) {
                                Ok(meta) => {
                                    has_uniplate = true;
                                    Ok(Some(meta))
                                },
                                Err(e) => Err(e),
                            }
                        }
                    } else if is_text(attr_name, "biplate") {
                        match BiplateInstanceMeta::from_attribute(attr) {
                            Ok(meta) => Ok(Some(meta)),
                            Err(e) => Err(e),
                        }
                    } else {
                        Ok(None)
                    }
                },
            };
            match meta {
                Ok(Some(meta)) => {
                    instance_metadata.push(meta);
                    assert(instance_views(instance_metadata@) =~= before.push(meta@));
                },
                Ok(None) => {},
                Err(e) => {
                    proof {
                        lemma_declared_read_error(attrs@, (i + 1) as nat, attrs@.len());
                    }
                    return Err(e);
                },
            }
            i += 1;
        }
        if !has_uniplate {
            // Default implementation of uniplate without walking into anything
            let ghost before = instance_views(instance_metadata@);
            let meta = InstanceMeta::Uniplate(UniplateInstanceMeta { walk_into: Vec::new() });
            assert(texts(Seq::<String>::empty()) =~= Seq::empty());
            instance_metadata.push(meta);
            assert(instance_views(instance_metadata@) =~= before.push(meta@));
        }
        Ok(instance_metadata)
    }
}

} // verus!
