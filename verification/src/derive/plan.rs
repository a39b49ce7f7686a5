//! The plan of the traversal step of each instance: for every variant of
//! the type and every field of the variant, how the field is traversed and
//! how the variant is put together again.

use crate::derive::ast::data::texts;
use crate::derive::ast::data::Data;
use crate::derive::ast::data::DataEnum;
use crate::derive::ast::data::DataStruct;
use crate::derive::ast::data::Fields;
use crate::derive::ast::data::Generics;
use crate::derive::ast::data::GenericsView;
use crate::derive::ast::data::Member;
use crate::derive::ast::data::MemberView;
use crate::derive::ast::derive_input::instance_views;
use crate::derive::ast::derive_input::DeriveInput;
use crate::derive::ast::derive_input::InstanceMeta;
use crate::derive::ast::derive_input::InstanceMetaView;
use crate::derive::ast::typ::BasicType;
use crate::derive::ast::typ::BasicTypeView;
use crate::derive::ast::typ::TupleType;
use crate::derive::ast::typ::Type;
use crate::derive::ast::typ::TypeView;
use crate::derive::state::declared_type;
use crate::derive::state::ParserState;
use crate::derive::state::ParserStateView;
use vstd::prelude::*;
use vstd::string::StringExecFns;

verus! {

/// Which of the ways to traverse a value applies to it.
#[derive(Debug, Clone, Copy, PartialEq, Eq, Structural)]
pub enum Walk {
    /// The value is of the target type: it is itself the one value.
    Identity,
    /// The value is traversed for values of the target type, by the
    /// traversal of its type to the target type where it has one; it is a
    /// leaf where it has none.
    Dispatch,
    /// The value is a leaf: it holds no value of the target type, and is
    /// copied when the node is put together again.
    Opaque,
}

/// How a field is traversed, by the kind of its type.
#[derive(Debug, PartialEq, Eq)]
pub enum FieldStep {
    /// A value that is traversed as it is.
    Basic(Walk),
    /// A value in a box: it is taken out of the box before it is
    /// traversed, and put in a box when the node is put together again.
    Boxed(Walk),
    /// A tuple, each field of which is traversed by itself.
    Tuple(Vec<Walk>),
    /// A tuple in a box.
    BoxedTuple(Vec<Walk>),
}

/// The model of a [`FieldStep`].
pub enum FieldStepView {
    /// A value that is traversed as it is.
    Basic(Walk),
    /// A value in a box.
    Boxed(Walk),
    /// A tuple, each field of which is traversed by itself.
    Tuple(Seq<Walk>),
    /// A tuple in a box.
    BoxedTuple(Seq<Walk>),
}

impl View for FieldStep {
    type V = FieldStepView;

    open spec fn view(&self) -> FieldStepView {
        match self {
            FieldStep::Basic(w) => FieldStepView::Basic(*w),
            FieldStep::Boxed(w) => FieldStepView::Boxed(*w),
            FieldStep::Tuple(ws) => FieldStepView::Tuple(ws@),
            FieldStep::BoxedTuple(ws) => FieldStepView::BoxedTuple(ws@),
        }
    }
}

impl FieldStep {
    /// Returns whether the field is put in a box when the node is put
    /// together again.
    pub fn reboxed(&self) -> (r: bool)
        ensures
            r == (self@ is Boxed || self@ is BoxedTuple),
    {
        match self {
            FieldStep::Basic(_) => false,
            FieldStep::Boxed(_) => true,
            FieldStep::Tuple(_) => false,
            FieldStep::BoxedTuple(_) => true,
        }
    }
}

/// The plan for one field.
#[derive(Debug, PartialEq, Eq)]
pub struct FieldPlan {
    /// The name by which the field is reached.
    pub member: Member,
    /// How the field is traversed.
    pub step: FieldStep,
}

/// The model of a [`FieldPlan`].
pub struct FieldPlanView {
    /// The name by which the field is reached.
    pub member: MemberView,
    /// How the field is traversed.
    pub step: FieldStepView,
}

impl View for FieldPlan {
    type V = FieldPlanView;

    open spec fn view(&self) -> FieldPlanView {
        FieldPlanView { member: self.member@, step: self.step@ }
    }
}

/// How a variant or a struct is written.
#[derive(Debug, Clone, Copy, PartialEq, Eq, Structural)]
pub enum Style {
    /// With named fields in braces.
    Struct,
    /// With unnamed fields in parentheses.
    Tuple,
    /// Without fields.
    Unit,
}

/// The shape of the children of a variant.
#[derive(Debug, Clone, Copy, PartialEq, Eq, Structural)]
pub enum ChildrenPlan {
    /// No children: the variant has no fields.
    Zero,
    /// One shape for each field, in the order of the fields.
    Many(usize),
}

/// The plan for one variant of an enum, or for a struct.
#[derive(Debug, PartialEq, Eq)]
pub struct VariantPlan {
    /// The name of the variant, or nothing for a struct.
    pub ident: Option<String>,
    /// How the variant is written.
    pub style: Style,
    /// The plans for the fields, in the order of the declaration.
    pub fields: Vec<FieldPlan>,
}

/// The model of a [`VariantPlan`].
pub struct VariantPlanView {
    /// The name of the variant, or nothing for a struct.
    pub ident: Option<Seq<char>>,
    /// How the variant is written.
    pub style: Style,
    /// The plans for the fields, in the order of the declaration.
    pub fields: Seq<FieldPlanView>,
}

impl View for VariantPlan {
    type V = VariantPlanView;

    open spec fn view(&self) -> VariantPlanView {
        VariantPlanView {
            ident: match self.ident {
                Some(name) => Some(name@),
                None => None,
            },
            style: self.style,
            fields: Seq::new(self.fields@.len(), |i: int| self.fields@[i]@),
        }
    }
}

impl VariantPlan {
    /// Returns the shape of the children of the variant: nothing where it
    /// has no fields, else one shape for each field.
    pub fn children(&self) -> (r: ChildrenPlan)
        ensures
            r == if self@.fields.len() == 0 {
                ChildrenPlan::Zero
            } else {
                ChildrenPlan::Many(self@.fields.len() as usize)
            },
    {
        if self.fields.len() == 0 {
            ChildrenPlan::Zero
        } else {
            ChildrenPlan::Many(self.fields.len())
        }
    }
}

/// The plan for the body of a traversal step.
#[derive(Debug, PartialEq, Eq)]
pub enum Body {
    /// A struct without fields: no children, and the struct itself for the
    /// rebuilt node.
    UnitStruct,
    /// A struct with fields.
    Struct(VariantPlan),
    /// An enum: one plan for each variant, in the order of the declaration.
    Enum(Vec<VariantPlan>),
}

/// The model of a [`Body`].
pub enum BodyView {
    /// A struct without fields.
    UnitStruct,
    /// A struct with fields.
    Struct(VariantPlanView),
    /// An enum.
    Enum(Seq<VariantPlanView>),
}

impl View for Body {
    type V = BodyView;

    open spec fn view(&self) -> BodyView {
        match self {
            Body::UnitStruct => BodyView::UnitStruct,
            Body::Struct(v) => BodyView::Struct(v@),
            Body::Enum(vs) => BodyView::Enum(Seq::new(vs@.len(), |i: int| vs@[i]@)),
        }
    }
}

/// The plan for one instance.
#[derive(Debug, PartialEq, Eq)]
pub enum InstancePlan {
    /// The traversal of a type to itself: the node is the one value, and
    /// the one value of the replacement is the rebuilt node.
    Identity {
        /// The type.
        from: BasicType,
        /// The generics of the instance.
        generics: Generics,
    },
    /// The self-traversal of a type.
    Uniplate {
        /// The type.
        from: BasicType,
        /// The generics of the instance.
        generics: Generics,
        /// The traversal step.
        body: Body,
    },
    /// The traversal of a type to another type.
    Biplate {
        /// The type.
        from: BasicType,
        /// The target type.
        to: BasicType,
        /// The generics of the instance.
        generics: Generics,
        /// The traversal step.
        body: Body,
    },
}

/// The model of an [`InstancePlan`].
pub enum InstancePlanView {
    /// The traversal of a type to itself.
    Identity { from: BasicTypeView, generics: GenericsView },
    /// The self-traversal of a type.
    Uniplate { from: BasicTypeView, generics: GenericsView, body: BodyView },
    /// The traversal of a type to another type.
    Biplate { from: BasicTypeView, to: BasicTypeView, generics: GenericsView, body: BodyView },
}

impl View for InstancePlan {
    type V = InstancePlanView;

    open spec fn view(&self) -> InstancePlanView {
        match self {
            InstancePlan::Identity { from, generics } => InstancePlanView::Identity {
                from: from@,
                generics: generics@,
            },
            InstancePlan::Uniplate { from, generics, body } => InstancePlanView::Uniplate {
                from: from@,
                generics: generics@,
                body: body@,
            },
            InstancePlan::Biplate { from, to, generics, body } => InstancePlanView::Biplate {
                from: from@,
                to: to@,
                generics: generics@,
                body: body@,
            },
        }
    }
}

/// The views of a list of plans.
pub open spec fn plan_views(plans: Seq<InstancePlan>) -> Seq<InstancePlanView> {
    Seq::new(plans.len(), |i: int| plans[i]@)
}

/// What an instance is about: the type, the target type, and the names of
/// the types to walk into.
pub struct Target {
    /// The type that the traversal is derived for.
    pub from: BasicTypeView,
    /// The target type.
    pub to: BasicTypeView,
    /// The names of the types to walk into, besides the two.
    pub walk_into: Seq<Seq<char>>,
}

impl Target {
    /// What the instance `instance` for the type `from` is about.
    pub open spec fn of(from: BasicTypeView, instance: InstanceMetaView) -> Target {
        match instance {
            InstanceMetaView::Uniplate { walk_into } => Target { from, to: from, walk_into },
            InstanceMetaView::Biplate { to, walk_into } => Target { from, to, walk_into },
        }
    }

    /// How a value of the type `typ` is traversed. Where the type is the
    /// target type as written, the value is the one value. Else it is
    /// walked into where the type that lies innermost in it is the type
    /// itself, the target type, or one of the types to walk into, and is a
    /// leaf where it is none of these.
    pub open spec fn walk(self, typ: BasicTypeView) -> Walk {
        if typ.text == self.to.text {
            Walk::Identity
        } else if typ.base == self.from.base || typ.base == self.to.base
            || self.walk_into.contains(typ.base) {
            Walk::Dispatch
        } else {
            Walk::Opaque
        }
    }

    /// How the fields of a tuple are traversed, each by itself.
    pub open spec fn walks(self, fields: Seq<BasicTypeView>) -> Seq<Walk> {
        Seq::new(fields.len(), |i: int| self.walk(fields[i]))
    }

    /// How a field of type `typ` is traversed.
    pub open spec fn step(self, typ: TypeView) -> FieldStepView {
        match typ {
            TypeView::BoxedBasic(b) => FieldStepView::Boxed(self.walk(b)),
            TypeView::Basic(b) => FieldStepView::Basic(self.walk(b)),
            TypeView::Tuple(t) => FieldStepView::Tuple(self.walks(t)),
            TypeView::BoxedTuple(t) => FieldStepView::BoxedTuple(self.walks(t)),
        }
    }

    /// The plans for the fields of a variant, in the order of the
    /// declaration.
    pub open spec fn fields(self, fields: Fields) -> Seq<FieldPlanView> {
        Seq::new(
            fields.len(),
            |i: int| FieldPlanView { member: fields.member_at(i), step: self.step(fields.type_at(i)@) },
        )
    }

    /// The plan for a variant named `ident`, or for a struct.
    pub open spec fn variant(self, ident: Option<Seq<char>>, fields: Fields) -> VariantPlanView {
        VariantPlanView {
            ident,
            style: match fields {
                Fields::Struct(_) => Style::Struct,
                Fields::Tuple(_) => Style::Tuple,
                Fields::Unit => Style::Unit,
            },
            fields: self.fields(fields),
        }
    }

    /// The plan for the traversal step of the type that `data` declares:
    /// for an enum a plan for each variant, for a struct a plan for the
    /// struct, and for a struct without fields no children.
    pub open spec fn body(self, data: Data) -> BodyView {
        match data {
            Data::DataEnum(x) => BodyView::Enum(
                Seq::new(
                    x.variants@.len(),
                    |i: int| self.variant(Some(x.variants@[i].ident@), x.variants@[i].fields),
                ),
            ),
            Data::DataStruct(x) => if x.fields.len() == 0 {
                BodyView::UnitStruct
            } else {
                BodyView::Struct(self.variant(None, x.fields))
            },
        }
    }
}

impl Target {
    /// What the instance that `state` is at is about.
    pub open spec fn at(state: ParserStateView) -> Target {
        Target {
            from: state.from,
            to: state.to->0,
            walk_into: match state.current_instance {
                Some(InstanceMetaView::Uniplate { walk_into }) => walk_into,
                Some(InstanceMetaView::Biplate { walk_into, .. }) => walk_into,
                None => Seq::empty(),
            },
        }
    }

    /// The generics of every instance: those of the declaration, with the
    /// bound `'static` on every type parameter.
    pub open spec fn generics(data: Data) -> GenericsView {
        data.params()@.with_bound("'static"@)
    }

    /// The plan for the instance: for the traversal of the type to itself
    /// the identity, whatever the type holds; else the traversal step of
    /// the declaration. In a traversal to a type parameter, the parameter
    /// is bound to have a self-traversal.
    pub open spec fn plan(self, data: Data, to_self: bool) -> InstancePlanView {
        if to_self {
            InstancePlanView::Uniplate {
                from: self.from,
                generics: Self::generics(data),
                body: self.body(data),
            }
        } else if self.from.text == self.to.text {
            InstancePlanView::Identity { from: self.from, generics: Self::generics(data) }
        } else {
            InstancePlanView::Biplate {
                from: self.from,
                to: self.to,
                generics: Self::generics(data).with_bound_on(self.to.text, "Uniplate"@),
                body: self.body(data),
            }
        }
    }
}

/// The plan for the instance `instance` of the type that `data` declares.
pub open spec fn instance_plan(data: Data, instance: InstanceMetaView) -> InstancePlanView {
    Target::of(declared_type(data), instance).plan(data, instance is Uniplate)
}

/// The instances in the order in which they are planned: those declared,
/// the last first, and after them the traversal of the type to itself.
pub open spec fn generation_order(from: BasicTypeView, declared: Seq<InstanceMetaView>) -> Seq<
    InstanceMetaView,
> {
    let all = ParserStateView::initial(from, declared).instances_to_generate;
    Seq::new(all.len(), |k: int| all[all.len() - 1 - k])
}

/// The plans for all the instances of `input`, in the order in which they
/// are planned.
pub open spec fn planned(input: DeriveInput) -> Seq<InstancePlanView> {
    let order = generation_order(
        declared_type(input.data),
        instance_views(input.instance_metadata@),
    );
    Seq::new(order.len(), |k: int| instance_plan(input.data, order[k]))
}

/// Returns whether `name` is one of `names`.
fn is_among(name: &String, names: &Vec<String>) -> (r: bool)
    ensures
        r == texts(names@).contains(name@),
{
    let mut i: usize = 0;
    while i < names.len()
        invariant
            i <= names.len(),
            forall|j: int| 0 <= j < i ==> names@[j]@ != name@,
        decreases names.len() - i,
    {
        if names[i] == *name {
            assert(texts(names@)[i as int] == name@);
            return true;
        }
        i += 1;
    }
    assert forall|j: int| 0 <= j < texts(names@).len() implies texts(names@)[j] != name@ by {
        assert(names@[j]@ != name@);
    }
    false
}

/// Returns the names of the types that the instance that `state` is at
/// walks into.
fn walk_into(state: &ParserState) -> (r: Vec<String>)
    ensures
        texts(r@) == Target::at(state@).walk_into,
{
    match &state.current_instance {
        Some(InstanceMeta::Uniplate(u)) => crate::derive::ast::data::clone_texts(&u.walk_into),
        Some(InstanceMeta::Biplate(b)) => crate::derive::ast::data::clone_texts(&b.walk_into),
        None => {
            assert(texts(Seq::<String>::empty()) =~= Seq::empty());
            Vec::new()
        },
    }
}

/// Decides how a value of the type `basic_type` is traversed: as the one
/// value, by walking into it, or not at all.
fn derive_walk(state: &ParserState, basic_type: &BasicType) -> (r: Walk)
    requires
        state.to is Some,
    ensures
        r == Target::at(state@).walk(basic_type@),
{
    let to = match &state.to {
        Some(to) => to,
        None => {
            return Walk::Opaque;
        },
    };
    let names = walk_into(state);
    if basic_type.text == to.text {
        Walk::Identity
    } else if basic_type.base == state.from.base || basic_type.base == to.base || is_among(
        &basic_type.base,
        &names,
    ) {
        Walk::Dispatch
    } else {
        Walk::Opaque
    }
}

/// Decides for each field of a tuple whether it is walked into or is a
/// leaf.
fn derive_walks(state: &ParserState, tuple_type: &TupleType) -> (r: Vec<Walk>)
    requires
        state.to is Some,
    ensures
        r@ == Target::at(state@).walks(tuple_type@),
{
    let mut out: Vec<Walk> = Vec::new();
    let mut i: usize = 0;
    while i < tuple_type.fields.len()
        invariant
            i <= tuple_type.fields.len(),
            state.to is Some,
            out@.len() == i,
            forall|j: int|
                0 <= j < i ==> #[trigger] out@[j] == Target::at(state@).walk(
                    tuple_type.fields@[j]@,
                ),
        decreases tuple_type.fields.len() - i,
    {
        out.push(derive_walk(state, &tuple_type.fields[i]));
        i += 1;
    }
    assert(out@ =~= Target::at(state@).walks(tuple_type@));
    out
}

/// Plans the traversal of one field: by the kind of its type, and for each
/// basic type in it whether it is the one value, is walked into, or is a
/// leaf.
pub fn derive_for_field(state: &ParserState, field_type: &Type, member: Member) -> (r: FieldPlan)
    requires
        state.to is Some,
    ensures
        r@ == (FieldPlanView { member: member@, step: Target::at(state@).step(field_type@) }),
{
    let step = match field_type {
        Type::BoxedBasic(basic_type) => FieldStep::Boxed(derive_walk(state, basic_type)),
        Type::Basic(basic_type) => FieldStep::Basic(derive_walk(state, basic_type)),
        Type::Tuple(tuple_type) => FieldStep::Tuple(derive_walks(state, tuple_type)),
        Type::BoxedTuple(tuple_type) => FieldStep::BoxedTuple(derive_walks(state, tuple_type)),
    };
    FieldPlan { member, step }
}

/// Plans the traversal step of one variant, or of a struct: a plan for each
/// field, in the order of the declaration, and how the variant is written.
pub fn derive_variant(state: &ParserState, ident: Option<String>, fields: &Fields) -> (r:
    VariantPlan)
    requires
        state.to is Some,
    ensures
        r@ == Target::at(state@).variant(
            match ident {
                Some(name) => Some(name@),
                None => None,
            },
            *fields,
        ),
{
    let members = fields.members();
    let types = fields.types();
    let mut plans: Vec<FieldPlan> = Vec::new();
    let mut i: usize = 0;
    while i < members.len()
        invariant
            i <= members.len(),
            state.to is Some,
            members@.len() == fields.len(),
            types@.len() == fields.len(),
            forall|j: int|
                0 <= j < fields.len() ==> (#[trigger] members@[j])@ == fields.member_at(j),
            forall|j: int| 0 <= j < fields.len() ==> *(#[trigger] types@[j]) == fields.type_at(j),
            plans@.len() == i,
            forall|j: int|
                0 <= j < i ==> (#[trigger] plans@[j])@ == Target::at(state@).fields(*fields)[j],
        decreases members.len() - i,
    {
        plans.push(derive_for_field(state, types[i], members[i].clone()));
        i += 1;
    }
    let style = match fields {
        Fields::Struct(_) => Style::Struct,
        Fields::Tuple(_) => Style::Tuple,
        Fields::Unit => Style::Unit,
    };
    let r = VariantPlan { ident, style, fields: plans };
    assert(r@.fields =~= Target::at(state@).fields(*fields));
    r
}

/// Plans the traversal step of an enum: a plan for each variant, in the
/// order of the declaration.
pub fn derive_a_enum_uniplate(state: &ParserState, data: &DataEnum) -> (r: Body)
    requires
        state.to is Some,
    ensures
        r@ == Target::at(state@).body(Data::DataEnum(*data)),
{
    let mut variants: Vec<VariantPlan> = Vec::new();
    let mut i: usize = 0;
    while i < data.variants.len()
        invariant
            i <= data.variants.len(),
            state.to is Some,
            variants@.len() == i,
            forall|j: int|
                0 <= j < i ==> (#[trigger] variants@[j])@ == Target::at(state@).variant(
                    Some(data.variants@[j].ident@),
                    data.variants@[j].fields,
                ),
        decreases data.variants.len() - i,
    {
        let variant = &data.variants[i];
        variants.push(derive_variant(state, Some(variant.ident.clone()), &variant.fields));
        i += 1;
    }
    let r = Body::Enum(variants);
    assert(r@->Enum_0 =~= Target::at(state@).body(Data::DataEnum(*data))->Enum_0);
    r
}

/// Plans the traversal step of a struct: for a struct without fields no
/// children, else a plan for each field.
pub fn derive_a_struct_uniplate(state: &ParserState, data: &DataStruct) -> (r: Body)
    requires
        state.to is Some,
    ensures
        r@ == Target::at(state@).body(Data::DataStruct(*data)),
{
    if data.fields.is_empty() {
        // Unit-like or empty struct
        return Body::UnitStruct;
    }
    Body::Struct(derive_variant(state, None, &data.fields))
}

/// Plans the traversal step of the declaration that `state` holds.
fn derive_body(state: &ParserState) -> (r: Body)
    requires
        state.to is Some,
    ensures
        r@ == Target::at(state@).body(state.data),
{
    match &state.data {
        Data::DataEnum(x) => derive_a_enum_uniplate(state, x),
        Data::DataStruct(x) => derive_a_struct_uniplate(state, x),
    }
}

/// The generics of every instance: those of the declaration, with the
/// bound `'static` on every type parameter.
fn derive_generics(state: &ParserState) -> (r: Generics)
    ensures
        r@ == Target::generics(state.data),
{
    let mut generics = state.data.generics().clone();
    // Add 'static bounds to all generic type parameters.
    generics.add_bound("'static");
    generics
}

/// Plans the self-traversal of the type.
pub fn derive_a_uniplate(state: &ParserState) -> (r: InstancePlan)
    requires
        state.to is Some,
    ensures
        r@ == Target::at(state@).plan(state.data, true),
{
    InstancePlan::Uniplate {
        from: state.from.clone(),
        generics: derive_generics(state),
        body: derive_body(state),
    }
}

/// Plans the traversal of the type to itself: the identity.
pub fn derive_identity_biplate(state: &ParserState) -> (r: InstancePlan)
    ensures
        r@ == (InstancePlanView::Identity {
            from: state.from@,
            generics: Target::generics(state.data),
        }),
{
    InstancePlan::Identity { from: state.from.clone(), generics: derive_generics(state) }
}

/// Plans the traversal of the type to the target type.
///
/// The traversal of a type to itself is the identity, whatever the type
/// holds.
pub fn derive_a_biplate(state: &ParserState) -> (r: InstancePlan)
    requires
        state.to is Some,
    ensures
        r@ == Target::at(state@).plan(state.data, false),
{
    let to = match &state.to {
        Some(to) => to.clone(),
        None => state.from.clone(),
    };
    if state.from.text == to.text {
        return derive_identity_biplate(state);
    }
    let mut generics = derive_generics(state);
    // If we are deriving a traversal to a type parameter, it must have a
    // self-traversal.
    generics.add_bound_on(&to.text, "Uniplate");
    InstancePlan::Biplate { from: state.from.clone(), to, generics, body: derive_body(state) }
}

/// Plans every instance of `input`: those declared, the last first, and
/// after them the traversal of the type to itself.
pub fn uniplate_derive(input: DeriveInput) -> (r: Vec<InstancePlan>)
    ensures
        plan_views(r@) == planned(input),
{
    let ghost from = declared_type(input.data);
    let ghost declared = instance_views(input.instance_metadata@);
    let ghost all = ParserStateView::initial(from, declared).instances_to_generate;
    let ghost order = generation_order(from, declared);
    let mut state = ParserState::new(input);
    let mut plans: Vec<InstancePlan> = Vec::new();
    assert(state@.instances_to_generate.take(all.len() as int) =~= all);
    loop
        invariant
            state.data == input.data,
            state@.from == from,
            from == declared_type(input.data),
            plans@.len() <= all.len(),
            state@.instances_to_generate == all.take(all.len() - plans@.len()),
            order == generation_order(from, declared),
            all == ParserStateView::initial(from, declared).instances_to_generate,
            forall|k: int|
                0 <= k < plans@.len() ==> (#[trigger] plans@[k])@ == instance_plan(
                    input.data,
                    order[k],
                ),
        ensures
            plans@.len() == all.len(),
        decreases all.len() - plans@.len(),
    {
        let ghost done = plans@.len();
        if state.next_instance().is_none() {
            break ;
        }
        assert(state@.current_instance == Some(order[done as int]));
        assert(state@.instances_to_generate =~= all.take(all.len() - done - 1));
        assert(Target::at(state@) == Target::of(from, order[done as int]));
        let plan = match &state.current_instance {
            Some(InstanceMeta::Uniplate(_)) => {
                assert(order[done as int] is Uniplate);
                derive_a_uniplate(&state)
            },
            _ => {
                assert(order[done as int] is Biplate);
                derive_a_biplate(&state)
            },
        };
        assert(plan@ == instance_plan(input.data, order[done as int]));
        plans.push(plan);
    }
    assert(plan_views(plans@) =~= planned(input));
    plans
}

} // verus!
