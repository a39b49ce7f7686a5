use uniplate::derive::ast::data::Data;
use uniplate::derive::ast::data::DataEnum;
use uniplate::derive::ast::data::DataStruct;
use uniplate::derive::ast::data::Fields;
use uniplate::derive::ast::data::GenericParam;
use uniplate::derive::ast::data::GenericParameters;
use uniplate::derive::ast::data::Generics;
use uniplate::derive::ast::data::LifetimeParameter;
use uniplate::derive::ast::data::Member;
use uniplate::derive::ast::data::StructField;
use uniplate::derive::ast::data::TupleField;
use uniplate::derive::ast::data::TypeParameter;
use uniplate::derive::ast::data::Variant;
use uniplate::derive::ast::derive_input::Attribute;
use uniplate::derive::ast::derive_input::BiplateInstanceMeta;
use uniplate::derive::ast::derive_input::DeriveInput;
use uniplate::derive::ast::derive_input::InstanceMeta;
use uniplate::derive::ast::derive_input::Property;
use uniplate::derive::ast::derive_input::PropertyValue;
use uniplate::derive::ast::derive_input::UniplateInstanceMeta;
use uniplate::derive::ast::typ::BasicType;
use uniplate::derive::ast::typ::GenericArgument;
use uniplate::derive::ast::typ::PathSyntax;
use uniplate::derive::ast::typ::TupleType;
use uniplate::derive::ast::typ::Type;
use uniplate::derive::ast::typ::TypeSyntax;
use uniplate::derive::error::DeriveError;
use uniplate::derive::plan::derive_a_biplate;
use uniplate::derive::plan::derive_a_uniplate;
use uniplate::derive::plan::derive_for_field;
use uniplate::derive::plan::uniplate_derive;
use uniplate::derive::plan::Body;
use uniplate::derive::plan::ChildrenPlan;
use uniplate::derive::plan::FieldPlan;
use uniplate::derive::plan::FieldStep;
use uniplate::derive::plan::InstancePlan;
use uniplate::derive::plan::Style;
use uniplate::derive::plan::VariantPlan;
use uniplate::derive::plan::Walk;
use uniplate::derive::state::ParserState;

fn s(text: &str) -> String {
    text.to_string()
}

fn names(texts: &[&str]) -> Vec<String> {
    texts.iter().map(|t| t.to_string()).collect()
}

/// A path without arguments, such as `i32`.
fn plain(name: &str) -> TypeSyntax {
    TypeSyntax::Path(PathSyntax {
        text: s(name),
        prefix: s(name),
        angle_bracketed: false,
        arguments: vec![],
    })
}

/// A path with one type for its argument, such as `Vec < Expr >`.
fn wrapped(prefix: &str, inner: TypeSyntax, inner_text: &str) -> TypeSyntax {
    TypeSyntax::Path(PathSyntax {
        text: format!("{} < {} >", prefix, inner_text),
        prefix: s(prefix),
        angle_bracketed: true,
        arguments: vec![GenericArgument::Type(inner)],
    })
}

fn boxed(inner: TypeSyntax, inner_text: &str) -> TypeSyntax {
    wrapped("Box", inner, inner_text)
}

fn basic(text: &str, base: &str) -> BasicType {
    BasicType::new(s(text), s(base))
}

fn no_generics() -> Generics {
    Generics {
        type_parameters: vec![],
        lifetime_parameters: vec![],
        const_parameters: vec![],
        where_predicates: vec![],
    }
}

fn attribute(name: &str, properties: Vec<Property>) -> Attribute {
    Attribute { name: Some(s(name)), properties }
}

fn to(syntax: TypeSyntax) -> Property {
    Property { key: s("to"), value: PropertyValue::Type(syntax) }
}

fn walk_into(types: &[&str]) -> Property {
    Property {
        key: s("walk_into"),
        value: PropertyValue::Types(types.iter().map(|t| plain(t)).collect()),
    }
}

#[test]
fn parse_basic_type() {
    assert_eq!(Type::parse(&plain("i32")), Ok(Type::Basic(basic("i32", "i32"))));
    assert_eq!(
        Type::parse(&wrapped("Vec", plain("Expr"), "Expr")),
        Ok(Type::Basic(basic("Vec < Expr >", "Expr")))
    );
}

#[test]
fn innermost_type_of_a_path() {
    assert_eq!(plain("Expr").base(), "Expr");
    assert_eq!(wrapped("Vec", plain("Expr"), "Expr").base(), "Expr");
    let nested = wrapped("Option", wrapped("Vec", plain("Expr"), "Expr"), "Vec < Expr >");
    assert_eq!(nested.base(), "Expr");
    assert_eq!(
        Type::parse(&nested),
        Ok(Type::Basic(basic("Option < Vec < Expr > >", "Expr")))
    );
    // A path with more than one argument, or with an argument that is no
    // path, is its own innermost type.
    let map = TypeSyntax::Path(PathSyntax {
        text: s("HashMap < K , V >"),
        prefix: s("HashMap"),
        angle_bracketed: true,
        arguments: vec![GenericArgument::Type(plain("K")), GenericArgument::Type(plain("V"))],
    });
    assert_eq!(map.base(), "HashMap");
    let pairs = wrapped("Vec", TypeSyntax::Tuple(vec![plain("A"), plain("B")]), "(A , B)");
    assert_eq!(pairs.base(), "Vec");
    let lifetime = TypeSyntax::Path(PathSyntax {
        text: s("Cow < 'a >"),
        prefix: s("Cow"),
        angle_bracketed: true,
        arguments: vec![GenericArgument::Other],
    });
    assert_eq!(lifetime.base(), "Cow");
    // A type that is no path has none.
    assert_eq!(TypeSyntax::Tuple(vec![plain("A")]).base(), "");
    assert_eq!(TypeSyntax::Reference.base(), "");
}

#[test]
fn walk_into_names_the_innermost_types() {
    let attr = attribute(
        "uniplate",
        vec![Property {
            key: s("walk_into"),
            value: PropertyValue::Types(vec![
                plain("Expr"),
                wrapped("Option", plain("Stmt"), "Stmt"),
            ]),
        }],
    );
    assert_eq!(
        UniplateInstanceMeta::from_attribute(&attr),
        Ok(InstanceMeta::Uniplate(UniplateInstanceMeta { walk_into: names(&["Expr", "Stmt"]) }))
    );
}

#[test]
fn parse_boxed_type() {
    for prefix in ["Box", "std::boxed::Box", "::std::boxed::Box"] {
        assert_eq!(
            Type::parse(&wrapped(prefix, plain("Expr"), "Expr")),
            Ok(Type::BoxedBasic(basic("Expr", "Expr")))
        );
    }
    // Another path that ends in `Box` is no box.
    assert_eq!(
        Type::parse(&wrapped("my::Box", plain("Expr"), "Expr")),
        Ok(Type::Basic(basic("my::Box < Expr >", "Expr")))
    );
}

#[test]
fn parse_tuple_type() {
    assert_eq!(
        Type::parse(&TypeSyntax::Tuple(vec![plain("i32"), plain("Expr")])),
        Ok(Type::Tuple(TupleType {
            fields: vec![basic("i32", "i32"), basic("Expr", "Expr")],
            n: 2
        }))
    );
    assert_eq!(
        Type::parse(&TypeSyntax::Tuple(vec![])),
        Ok(Type::Tuple(TupleType { fields: vec![], n: 0 }))
    );
    assert_eq!(
        TupleType::from_syn(&vec![plain("A"), plain("B"), plain("C")]),
        Ok(TupleType { fields: vec![basic("A", "A"), basic("B", "B"), basic("C", "C")], n: 3 })
    );
}

#[test]
fn parse_boxed_tuple_type() {
    assert_eq!(
        Type::parse(&boxed(TypeSyntax::Tuple(vec![plain("i32"), plain("Expr")]), "(i32 , Expr)")),
        Ok(Type::BoxedTuple(TupleType {
            fields: vec![basic("i32", "i32"), basic("Expr", "Expr")],
            n: 2
        }))
    );
}

#[test]
fn parse_unsupported_types() {
    assert_eq!(Type::parse(&TypeSyntax::Array), Err(DeriveError::ArrayType));
    assert_eq!(Type::parse(&TypeSyntax::BareFn), Err(DeriveError::FnType));
    assert_eq!(Type::parse(&TypeSyntax::Group), Err(DeriveError::GroupType));
    assert_eq!(Type::parse(&TypeSyntax::ImplTrait), Err(DeriveError::ImplType));
    assert_eq!(Type::parse(&TypeSyntax::Infer), Err(DeriveError::InferredType));
    assert_eq!(Type::parse(&TypeSyntax::Macro), Err(DeriveError::MacroType));
    assert_eq!(Type::parse(&TypeSyntax::Never), Err(DeriveError::NeverType));
    assert_eq!(Type::parse(&TypeSyntax::Paren), Err(DeriveError::ParenType));
    assert_eq!(Type::parse(&TypeSyntax::Ptr), Err(DeriveError::PointerType));
    assert_eq!(Type::parse(&TypeSyntax::Reference), Err(DeriveError::ReferenceType));
    assert_eq!(Type::parse(&TypeSyntax::Slice), Err(DeriveError::SliceType));
    assert_eq!(Type::parse(&TypeSyntax::TraitObject), Err(DeriveError::TraitObjectType));
    assert_eq!(Type::parse(&TypeSyntax::Verbatim), Err(DeriveError::VerbatimType));
}

#[test]
fn parse_nested_box() {
    let inner = boxed(plain("Expr"), "Expr");
    assert_eq!(Type::parse(&boxed(inner, "Box < Expr >")), Err(DeriveError::NestedBox));
    let inner = boxed(TypeSyntax::Tuple(vec![plain("A")]), "(A ,)");
    assert_eq!(Type::parse(&boxed(inner, "Box < (A ,) >")), Err(DeriveError::NestedBox));
}

#[test]
fn parse_invalid_box() {
    // No arguments.
    assert_eq!(Type::parse(&plain("Box")), Err(DeriveError::InvalidBox));
    // Two arguments.
    assert_eq!(
        Type::parse(&TypeSyntax::Path(PathSyntax {
            text: s("Box < A , B >"),
            prefix: s("Box"),
            angle_bracketed: true,
            arguments: vec![GenericArgument::Type(plain("A")), GenericArgument::Type(plain("B"))],
        })),
        Err(DeriveError::InvalidBox)
    );
    // An argument that is no type.
    assert_eq!(
        Type::parse(&TypeSyntax::Path(PathSyntax {
            text: s("Box < 'a >"),
            prefix: s("Box"),
            angle_bracketed: true,
            arguments: vec![GenericArgument::Other],
        })),
        Err(DeriveError::InvalidBox)
    );
    // Arguments in parentheses.
    assert_eq!(
        Type::parse(&TypeSyntax::Path(PathSyntax {
            text: s("Box (A)"),
            prefix: s("Box"),
            angle_bracketed: false,
            arguments: vec![GenericArgument::Type(plain("A"))],
        })),
        Err(DeriveError::InvalidBox)
    );
}

#[test]
fn parse_box_of_unsupported_type() {
    assert_eq!(
        Type::parse(&boxed(TypeSyntax::Reference, "& A")),
        Err(DeriveError::ReferenceType)
    );
}

#[test]
fn parse_tuple_field_not_basic() {
    assert_eq!(
        Type::parse(&TypeSyntax::Tuple(vec![plain("A"), boxed(plain("B"), "B")])),
        Err(DeriveError::TupleFieldNotBasic)
    );
    assert_eq!(
        Type::parse(&TypeSyntax::Tuple(vec![TypeSyntax::Tuple(vec![plain("A")])])),
        Err(DeriveError::TupleFieldNotBasic)
    );
    // The first field that is refused gives the reason.
    assert_eq!(
        Type::parse(&TypeSyntax::Tuple(vec![
            plain("A"),
            TypeSyntax::Slice,
            boxed(plain("B"), "B")
        ])),
        Err(DeriveError::SliceType)
    );
    assert_eq!(
        TupleType::from_syn(&vec![boxed(plain("B"), "B"), TypeSyntax::Slice]),
        Err(DeriveError::TupleFieldNotBasic)
    );
}

#[test]
fn type_clone_is_equal() {
    let t = Type::BoxedTuple(TupleType { fields: vec![basic("A", "A"), basic("B", "B")], n: 2 });
    assert_eq!(t.clone(), t);
    let b = basic("Vec < A >", "A");
    assert_eq!(b.clone(), b);
}

#[test]
fn instances_default_uniplate() {
    assert_eq!(
        InstanceMeta::parse_many(&vec![]),
        Ok(vec![InstanceMeta::Uniplate(UniplateInstanceMeta { walk_into: vec![] })])
    );
    // Other attributes are passed over.
    assert_eq!(
        InstanceMeta::parse_many(&vec![
            attribute("derive", vec![]),
            Attribute { name: None, properties: vec![] },
            attribute("doc", vec![Property { key: s("hidden"), value: PropertyValue::Other }]),
        ]),
        Ok(vec![InstanceMeta::Uniplate(UniplateInstanceMeta { walk_into: vec![] })])
    );
}

#[test]
fn instances_in_order_of_declaration() {
    let attrs = vec![
        attribute("biplate", vec![to(plain("Expr"))]),
        attribute("biplate", vec![to(plain("String")), walk_into(&["Expr"])]),
        attribute("uniplate", vec![walk_into(&["Expr"])]),
    ];
    assert_eq!(
        InstanceMeta::parse_many(&attrs),
        Ok(vec![
            InstanceMeta::Biplate(BiplateInstanceMeta {
                to: basic("Expr", "Expr"),
                walk_into: vec![]
            }),
            InstanceMeta::Biplate(BiplateInstanceMeta {
                to: basic("String", "String"),
                walk_into: names(&["Expr"])
            }),
            InstanceMeta::Uniplate(UniplateInstanceMeta { walk_into: names(&["Expr"]) }),
        ])
    );
}

#[test]
fn instances_default_uniplate_comes_last() {
    let attrs = vec![attribute("biplate", vec![to(plain("Expr"))])];
    assert_eq!(
        InstanceMeta::parse_many(&attrs),
        Ok(vec![
            InstanceMeta::Biplate(BiplateInstanceMeta {
                to: basic("Expr", "Expr"),
                walk_into: vec![]
            }),
            InstanceMeta::Uniplate(UniplateInstanceMeta { walk_into: vec![] }),
        ])
    );
}

#[test]
fn instances_duplicate_uniplate() {
    let attrs = vec![attribute("uniplate", vec![]), attribute("uniplate", vec![])];
    assert_eq!(InstanceMeta::parse_many(&attrs), Err(DeriveError::DuplicateUniplate));
}

#[test]
fn instances_duplicate_to() {
    let attr = attribute("biplate", vec![to(plain("A")), to(plain("B"))]);
    assert_eq!(BiplateInstanceMeta::from_attribute(&attr), Err(DeriveError::DuplicateTo));
    assert_eq!(InstanceMeta::parse_many(&vec![attr]), Err(DeriveError::DuplicateTo));
}

#[test]
fn instances_missing_to() {
    let attr = attribute("biplate", vec![]);
    assert_eq!(BiplateInstanceMeta::from_attribute(&attr), Err(DeriveError::MissingTo));
    let attr = attribute("biplate", vec![walk_into(&["A"])]);
    assert_eq!(InstanceMeta::parse_many(&vec![attr]), Err(DeriveError::MissingTo));
}

#[test]
fn instances_unrecognized_property() {
    let unknown = Property { key: s("from"), value: PropertyValue::Type(plain("A")) };
    let attr = attribute("biplate", vec![to(plain("A")), unknown]);
    assert_eq!(BiplateInstanceMeta::from_attribute(&attr), Err(DeriveError::UnrecognizedProperty));

    let unknown = Property { key: s("to"), value: PropertyValue::Type(plain("A")) };
    let attr = attribute("uniplate", vec![unknown]);
    assert_eq!(UniplateInstanceMeta::from_attribute(&attr), Err(DeriveError::UnrecognizedProperty));
    assert_eq!(InstanceMeta::parse_many(&vec![attr]), Err(DeriveError::UnrecognizedProperty));

    // A known key with a value of the wrong kind.
    let wrong = Property { key: s("to"), value: PropertyValue::Types(vec![plain("A")]) };
    let attr = attribute("biplate", vec![wrong]);
    assert_eq!(BiplateInstanceMeta::from_attribute(&attr), Err(DeriveError::UnrecognizedProperty));
    let wrong = Property { key: s("walk_into"), value: PropertyValue::Other };
    let attr = attribute("uniplate", vec![wrong]);
    assert_eq!(UniplateInstanceMeta::from_attribute(&attr), Err(DeriveError::UnrecognizedProperty));
}

#[test]
fn instances_unsupported_target() {
    let attr = attribute("biplate", vec![to(boxed(plain("A"), "A"))]);
    assert_eq!(BiplateInstanceMeta::from_attribute(&attr), Err(DeriveError::UnsupportedTarget));
    let attr = attribute("biplate", vec![to(TypeSyntax::Tuple(vec![plain("A")]))]);
    assert_eq!(BiplateInstanceMeta::from_attribute(&attr), Err(DeriveError::UnsupportedTarget));
    // A target that has no classification is refused for its own reason.
    let attr = attribute("biplate", vec![to(TypeSyntax::Reference)]);
    assert_eq!(BiplateInstanceMeta::from_attribute(&attr), Err(DeriveError::ReferenceType));
}

#[test]
fn instances_first_error_wins() {
    let attrs = vec![
        attribute("biplate", vec![]),
        attribute("uniplate", vec![]),
        attribute("uniplate", vec![]),
    ];
    assert_eq!(InstanceMeta::parse_many(&attrs), Err(DeriveError::MissingTo));
}

#[test]
fn instances_last_walk_into_wins() {
    let attr = attribute("uniplate", vec![walk_into(&["A"]), walk_into(&["B", "C"])]);
    assert_eq!(
        UniplateInstanceMeta::from_attribute(&attr),
        Ok(InstanceMeta::Uniplate(UniplateInstanceMeta { walk_into: names(&["B", "C"]) }))
    );
    let attr =
        attribute("biplate", vec![walk_into(&["A"]), to(plain("T")), walk_into(&[])]);
    assert_eq!(
        BiplateInstanceMeta::from_attribute(&attr),
        Ok(InstanceMeta::Biplate(BiplateInstanceMeta { to: basic("T", "T"), walk_into: vec![] }))
    );
}

fn expr_data() -> Data {
    let expr = || Type::BoxedBasic(basic("Expr", "Expr"));
    let binary = |name: &str| Variant {
        ident: s(name),
        fields: Fields::Tuple(vec![TupleField { typ: expr() }, TupleField { typ: expr() }]),
    };
    Data::DataEnum(DataEnum {
        ident: s("Expr"),
        generics: no_generics(),
        variants: vec![
            binary("Add"),
            binary("Sub"),
            Variant {
                ident: s("Val"),
                fields: Fields::Tuple(vec![TupleField { typ: Type::Basic(basic("i32", "i32")) }]),
            },
            Variant {
                ident: s("Var"),
                fields: Fields::Tuple(vec![TupleField {
                    typ: Type::Basic(basic("String", "String")),
                }]),
            },
            Variant { ident: s("Nil"), fields: Fields::Unit },
        ],
    })
}

#[test]
fn fields_members_and_types() {
    let fields = Fields::Struct(vec![
        StructField { ident: s("a"), typ: Type::Basic(basic("A", "A")) },
        StructField { ident: s("b"), typ: Type::BoxedBasic(basic("B", "B")) },
    ]);
    assert!(!fields.is_empty());
    assert_eq!(fields.count(), 2);
    assert_eq!(fields.members(), vec![Member::Named(s("a")), Member::Named(s("b"))]);
    assert_eq!(
        fields.types(),
        vec![&Type::Basic(basic("A", "A")), &Type::BoxedBasic(basic("B", "B"))]
    );

    let fields = Fields::Tuple(vec![
        TupleField { typ: Type::Basic(basic("A", "A")) },
        TupleField { typ: Type::Basic(basic("B", "B")) },
        TupleField { typ: Type::Basic(basic("C", "C")) },
    ]);
    assert_eq!(fields.count(), 3);
    assert_eq!(
        fields.members(),
        vec![Member::Unnamed(0), Member::Unnamed(1), Member::Unnamed(2)]
    );

    assert!(Fields::Unit.is_empty());
    assert!(Fields::Tuple(vec![]).is_empty());
    assert!(Fields::Struct(vec![]).is_empty());
    assert_eq!(Fields::Unit.count(), 0);
    assert_eq!(Fields::Unit.members(), vec![]);
    assert_eq!(Fields::Unit.types(), Vec::<&Type>::new());
}

#[test]
fn fields_idents_and_defs() {
    let fields = Fields::Struct(vec![
        StructField { ident: s("a"), typ: Type::Basic(basic("A", "A")) },
        StructField { ident: s("b"), typ: Type::BoxedBasic(basic("B", "B")) },
    ]);
    assert_eq!(fields.idents(), names(&["a", "b"]));
    assert_eq!(
        fields.defs(),
        vec![
            (Member::Named(s("a")), &Type::Basic(basic("A", "A"))),
            (Member::Named(s("b")), &Type::BoxedBasic(basic("B", "B"))),
        ]
    );

    let many = Fields::Tuple(
        (0..123).map(|_| TupleField { typ: Type::Basic(basic("A", "A")) }).collect(),
    );
    let idents = many.idents();
    assert_eq!(idents.len(), 123);
    assert_eq!(idents[0], "_0");
    assert_eq!(idents[1], "_1");
    assert_eq!(idents[9], "_9");
    assert_eq!(idents[10], "_10");
    assert_eq!(idents[11], "_11");
    assert_eq!(idents[99], "_99");
    assert_eq!(idents[100], "_100");
    assert_eq!(idents[122], "_122");
    let expected: Vec<String> = (0..123).map(|i| format!("_{}", i)).collect();
    assert_eq!(idents, expected);
    assert_eq!(many.defs()[7], (Member::Unnamed(7), &Type::Basic(basic("A", "A"))));
    assert_eq!(many.members()[7].clone(), Member::Unnamed(7));

    assert_eq!(Fields::Unit.idents(), Vec::<String>::new());
    assert_eq!(Fields::Unit.defs(), vec![]);
}

fn sample_generics() -> Generics {
    Generics::new(
        GenericParameters {
            params: vec![
                GenericParam::Type(TypeParameter { ident: s("T"), bounds: names(&["Clone"]) }),
                GenericParam::Lifetime(LifetimeParameter { lifetime: s("'a"), bounds: vec![] }),
                GenericParam::Const(s("const N : usize")),
                GenericParam::Type(TypeParameter { ident: s("U"), bounds: vec![] }),
            ],
        },
        names(&["T : Eq"]),
    )
}

#[test]
fn generics_sorted_by_kind() {
    let generics = sample_generics();
    assert_eq!(
        generics,
        Generics {
            type_parameters: vec![
                TypeParameter { ident: s("T"), bounds: names(&["Clone"]) },
                TypeParameter { ident: s("U"), bounds: vec![] },
            ],
            lifetime_parameters: vec![LifetimeParameter { lifetime: s("'a"), bounds: vec![] }],
            const_parameters: names(&["const N : usize"]),
            where_predicates: names(&["T : Eq"]),
        }
    );
    assert_eq!(generics.as_generic_arguments(), names(&["'a", "T", "U", "const N : usize"]));
    assert!(!generics.any_generic_params());
    assert_eq!(generics.clone(), generics);
}

#[test]
fn generics_any_generic_params() {
    assert!(!no_generics().any_generic_params());
    let only_types = Generics::new(
        GenericParameters {
            params: vec![GenericParam::Type(TypeParameter { ident: s("T"), bounds: vec![] })],
        },
        vec![],
    );
    assert!(only_types.any_generic_params());
    let only_lifetimes = Generics::new(
        GenericParameters {
            params: vec![GenericParam::Lifetime(LifetimeParameter {
                lifetime: s("'a"),
                bounds: vec![],
            })],
        },
        vec![],
    );
    assert!(!only_lifetimes.any_generic_params());
}

#[test]
fn generics_add_bounds() {
    let mut generics = sample_generics();
    generics.add_bound("'static");
    assert_eq!(
        generics.type_parameters,
        vec![
            TypeParameter { ident: s("T"), bounds: names(&["Clone", "'static"]) },
            TypeParameter { ident: s("U"), bounds: names(&["'static"]) },
        ]
    );
    generics.add_bound_on(&s("U"), "Uniplate");
    assert_eq!(
        generics.type_parameters,
        vec![
            TypeParameter { ident: s("T"), bounds: names(&["Clone", "'static"]) },
            TypeParameter { ident: s("U"), bounds: names(&["'static", "Uniplate"]) },
        ]
    );
    generics.add_bound_on(&s("V"), "Uniplate");
    assert_eq!(generics.type_parameters.len(), 2);
    assert_eq!(generics.type_parameters[0].bounds, names(&["Clone", "'static"]));
    assert_eq!(generics.lifetime_parameters.len(), 1);
    assert_eq!(generics.where_predicates, names(&["T : Eq"]));
}

fn tree_data(params: Vec<GenericParam>) -> Data {
    Data::DataEnum(DataEnum {
        ident: s("BinaryTree"),
        generics: Generics::new(GenericParameters { params }, vec![]),
        variants: vec![
            Variant {
                ident: s("Leaf"),
                fields: Fields::Tuple(vec![TupleField { typ: Type::Basic(basic("T", "T")) }]),
            },
            Variant {
                ident: s("Branch"),
                fields: Fields::Tuple(vec![
                    TupleField { typ: Type::Basic(basic("T", "T")) },
                    TupleField {
                        typ: Type::BoxedBasic(basic("BinaryTree < T >", "BinaryTree")),
                    },
                    TupleField {
                        typ: Type::BoxedBasic(basic("BinaryTree < T >", "BinaryTree")),
                    },
                ]),
            },
        ],
    })
}

#[test]
fn declared_type_is_written_with_its_arguments() {
    assert_eq!(BasicType::from(&expr_data()), basic("Expr", "Expr"));
    assert_eq!(expr_data().ident(), "Expr");
    assert_eq!(expr_data().generics(), &no_generics());

    let one = tree_data(vec![GenericParam::Type(TypeParameter {
        ident: s("T"),
        bounds: vec![],
    })]);
    assert_eq!(BasicType::from(&one), basic("BinaryTree < T >", "BinaryTree"));

    let two = tree_data(vec![
        GenericParam::Type(TypeParameter { ident: s("T"), bounds: vec![] }),
        GenericParam::Type(TypeParameter { ident: s("U"), bounds: names(&["Eq"]) }),
    ]);
    assert_eq!(BasicType::from(&two), basic("BinaryTree < T , U >", "BinaryTree"));

    // With a lifetime among the parameters the arguments are not written.
    let mixed = tree_data(vec![
        GenericParam::Lifetime(LifetimeParameter { lifetime: s("'a"), bounds: vec![] }),
        GenericParam::Type(TypeParameter { ident: s("T"), bounds: vec![] }),
    ]);
    assert_eq!(BasicType::from(&mixed), basic("BinaryTree", "BinaryTree"));
}

fn stmt_input() -> DeriveInput {
    let attrs = vec![
        attribute("biplate", vec![to(plain("Expr"))]),
        attribute("biplate", vec![to(plain("String")), walk_into(&["Expr"])]),
        attribute("uniplate", vec![walk_into(&["Expr"])]),
    ];
    let stmt = || Type::BoxedBasic(basic("Stmt", "Stmt"));
    let expr = || Type::Basic(basic("Expr", "Expr"));
    DeriveInput {
        instance_metadata: InstanceMeta::parse_many(&attrs).unwrap(),
        data: Data::DataEnum(DataEnum {
            ident: s("Stmt"),
            generics: no_generics(),
            variants: vec![
                Variant {
                    ident: s("Assign"),
                    fields: Fields::Tuple(vec![
                        TupleField { typ: Type::Basic(basic("String", "String")) },
                        TupleField { typ: expr() },
                    ]),
                },
                Variant {
                    ident: s("Sequence"),
                    fields: Fields::Tuple(vec![TupleField {
                        typ: Type::Basic(basic("Vec < Stmt >", "Stmt")),
                    }]),
                },
                Variant {
                    ident: s("If"),
                    fields: Fields::Tuple(vec![
                        TupleField { typ: expr() },
                        TupleField { typ: stmt() },
                        TupleField { typ: stmt() },
                    ]),
                },
                Variant {
                    ident: s("While"),
                    fields: Fields::Tuple(vec![
                        TupleField { typ: expr() },
                        TupleField { typ: stmt() },
                    ]),
                },
            ],
        }),
    }
}

#[test]
fn state_starts_with_the_identity_at_the_front() {
    let state = ParserState::new(stmt_input());
    assert_eq!(state.from, basic("Stmt", "Stmt"));
    assert_eq!(state.to, None);
    assert_eq!(state.current_instance, None);
    assert!(state.instances_generated.is_empty());
    assert_eq!(state.instances_to_generate.len(), 4);
    assert_eq!(
        state.instances_to_generate[0],
        InstanceMeta::Biplate(BiplateInstanceMeta { to: basic("Stmt", "Stmt"), walk_into: vec![] })
    );
    assert_eq!(
        state.instances_to_generate[3],
        InstanceMeta::Uniplate(UniplateInstanceMeta { walk_into: names(&["Expr"]) })
    );
    assert_eq!(state.data, stmt_input().data);
}

#[test]
fn state_steps_from_the_back() {
    let mut state = ParserState::new(stmt_input());

    assert_eq!(state.next_instance(), Some(()));
    assert_eq!(
        state.current_instance,
        Some(InstanceMeta::Uniplate(UniplateInstanceMeta { walk_into: names(&["Expr"]) }))
    );
    assert_eq!(state.to, Some(basic("Stmt", "Stmt")));
    assert!(state.instances_generated.is_empty());

    assert_eq!(state.next_instance(), Some(()));
    assert_eq!(state.to, Some(basic("String", "String")));
    assert_eq!(state.instances_generated.len(), 1);

    assert_eq!(state.next_instance(), Some(()));
    assert_eq!(state.to, Some(basic("Expr", "Expr")));

    assert_eq!(state.next_instance(), Some(()));
    assert_eq!(state.to, Some(basic("Stmt", "Stmt")));
    assert_eq!(
        state.current_instance,
        Some(InstanceMeta::Biplate(BiplateInstanceMeta {
            to: basic("Stmt", "Stmt"),
            walk_into: vec![]
        }))
    );
    assert_eq!(state.instances_generated.len(), 3);
    assert!(state.instances_to_generate.is_empty());

    assert_eq!(state.next_instance(), None);
    assert_eq!(state.current_instance, None);
    assert_eq!(state.to, None);
    assert_eq!(state.instances_generated.len(), 4);
    assert_eq!(
        state.instances_generated[0],
        InstanceMeta::Uniplate(UniplateInstanceMeta { walk_into: names(&["Expr"]) })
    );

    assert_eq!(state.next_instance(), None);
    assert_eq!(state.instances_generated.len(), 4);
}

fn field(index: usize, step: FieldStep) -> FieldPlan {
    FieldPlan { member: Member::Unnamed(index), step }
}

fn tuple_variant(name: &str, fields: Vec<FieldPlan>) -> VariantPlan {
    VariantPlan { ident: Some(s(name)), style: Style::Tuple, fields }
}

#[test]
fn plans_for_every_instance() {
    let plans = uniplate_derive(stmt_input());
    assert_eq!(plans.len(), 4);

    // The self-traversal: a statement in a field is one value; expressions
    // are walked into, as declared, and so is the vector of statements.
    let dispatch = || FieldStep::Basic(Walk::Dispatch);
    let identity = || FieldStep::Basic(Walk::Identity);
    let opaque = || FieldStep::Basic(Walk::Opaque);
    assert_eq!(
        plans[0],
        InstancePlan::Uniplate {
            from: basic("Stmt", "Stmt"),
            generics: no_generics(),
            body: Body::Enum(vec![
                tuple_variant("Assign", vec![field(0, opaque()), field(1, dispatch())]),
                tuple_variant("Sequence", vec![field(0, dispatch())]),
                tuple_variant(
                    "If",
                    vec![
                        field(0, dispatch()),
                        field(1, FieldStep::Boxed(Walk::Identity)),
                        field(2, FieldStep::Boxed(Walk::Identity))
                    ]
                ),
                tuple_variant(
                    "While",
                    vec![field(0, dispatch()), field(1, FieldStep::Boxed(Walk::Identity))]
                ),
            ]),
        }
    );

    // The traversal to strings: a string in a field is one value;
    // statements are walked into, and so are expressions, as declared.
    assert_eq!(
        plans[1],
        InstancePlan::Biplate {
            from: basic("Stmt", "Stmt"),
            to: basic("String", "String"),
            generics: no_generics(),
            body: Body::Enum(vec![
                tuple_variant("Assign", vec![field(0, identity()), field(1, dispatch())]),
                tuple_variant("Sequence", vec![field(0, dispatch())]),
                tuple_variant(
                    "If",
                    vec![
                        field(0, dispatch()),
                        field(1, FieldStep::Boxed(Walk::Dispatch)),
                        field(2, FieldStep::Boxed(Walk::Dispatch))
                    ]
                ),
                tuple_variant(
                    "While",
                    vec![field(0, dispatch()), field(1, FieldStep::Boxed(Walk::Dispatch))]
                ),
            ]),
        }
    );

    // The traversal to expressions: an expression in a field is one value;
    // statements are walked into, and strings are leaves.
    assert_eq!(
        plans[2],
        InstancePlan::Biplate {
            from: basic("Stmt", "Stmt"),
            to: basic("Expr", "Expr"),
            generics: no_generics(),
            body: Body::Enum(vec![
                tuple_variant("Assign", vec![field(0, opaque()), field(1, identity())]),
                tuple_variant("Sequence", vec![field(0, dispatch())]),
                tuple_variant(
                    "If",
                    vec![
                        field(0, identity()),
                        field(1, FieldStep::Boxed(Walk::Dispatch)),
                        field(2, FieldStep::Boxed(Walk::Dispatch))
                    ]
                ),
                tuple_variant(
                    "While",
                    vec![field(0, identity()), field(1, FieldStep::Boxed(Walk::Dispatch))]
                ),
            ]),
        }
    );

    // The traversal of the type to itself comes last, and is the identity.
    assert_eq!(
        plans[3],
        InstancePlan::Identity { from: basic("Stmt", "Stmt"), generics: no_generics() }
    );
}

#[test]
fn plan_without_declared_instances() {
    let input = DeriveInput {
        instance_metadata: InstanceMeta::parse_many(&vec![]).unwrap(),
        data: expr_data(),
    };
    let plans = uniplate_derive(input);
    assert_eq!(plans.len(), 2);
    let InstancePlan::Uniplate { from, body: Body::Enum(variants), .. } = &plans[0] else {
        panic!()
    };
    assert_eq!(from, &basic("Expr", "Expr"));
    assert_eq!(variants.len(), 5);
    assert_eq!(
        variants[0],
        tuple_variant(
            "Add",
            vec![
                field(0, FieldStep::Boxed(Walk::Identity)),
                field(1, FieldStep::Boxed(Walk::Identity))
            ]
        )
    );
    assert_eq!(variants[0].children(), ChildrenPlan::Many(2));
    // Without a list of types to walk into, every other type is a leaf.
    assert_eq!(variants[2], tuple_variant("Val", vec![field(0, FieldStep::Basic(Walk::Opaque))]));
    assert_eq!(variants[3], tuple_variant("Var", vec![field(0, FieldStep::Basic(Walk::Opaque))]));
    // A variant without fields has no children.
    assert_eq!(variants[4], VariantPlan { ident: Some(s("Nil")), style: Style::Unit, fields: vec![] });
    assert_eq!(variants[4].children(), ChildrenPlan::Zero);
    assert_eq!(
        plans[1],
        InstancePlan::Identity { from: basic("Expr", "Expr"), generics: no_generics() }
    );
}

#[test]
fn plan_for_structs() {
    let unit = DeriveInput {
        instance_metadata: InstanceMeta::parse_many(&vec![]).unwrap(),
        data: Data::DataStruct(DataStruct {
            ident: s("Marker"),
            generics: no_generics(),
            fields: Fields::Unit,
        }),
    };
    let plans = uniplate_derive(unit);
    assert_eq!(
        plans[0],
        InstancePlan::Uniplate {
            from: basic("Marker", "Marker"),
            generics: no_generics(),
            body: Body::UnitStruct
        }
    );

    let empty = DeriveInput {
        instance_metadata: InstanceMeta::parse_many(&vec![]).unwrap(),
        data: Data::DataStruct(DataStruct {
            ident: s("Empty"),
            generics: no_generics(),
            fields: Fields::Struct(vec![]),
        }),
    };
    let InstancePlan::Uniplate { body, .. } = &uniplate_derive(empty)[0] else { panic!() };
    assert_eq!(body, &Body::UnitStruct);

    let attrs = vec![attribute("biplate", vec![to(plain("Name")), walk_into(&["Pair"])])];
    let named = DeriveInput {
        instance_metadata: InstanceMeta::parse_many(&attrs).unwrap(),
        data: Data::DataStruct(DataStruct {
            ident: s("Person"),
            generics: no_generics(),
            fields: Fields::Struct(vec![
                StructField { ident: s("name"), typ: Type::Basic(basic("Name", "Name")) },
                StructField { ident: s("age"), typ: Type::Basic(basic("u8", "u8")) },
                StructField {
                    ident: s("parents"),
                    typ: Type::BoxedTuple(TupleType {
                        fields: vec![
                            basic("Person", "Person"),
                            basic("Option < Pair >", "Pair"),
                            basic("u8", "u8"),
                        ],
                        n: 3,
                    }),
                },
                StructField {
                    ident: s("pair"),
                    typ: Type::Tuple(TupleType {
                        fields: vec![basic("Name", "Name"), basic("Other", "Other")],
                        n: 2,
                    }),
                },
            ]),
        }),
    };
    let plans = uniplate_derive(named);
    assert_eq!(plans.len(), 3);
    // First the self-traversal that is added where none is declared.
    let InstancePlan::Uniplate { body: Body::Struct(own), .. } = &plans[0] else { panic!() };
    assert_eq!(own.ident, None);
    assert_eq!(own.style, Style::Struct);
    assert_eq!(own.children(), ChildrenPlan::Many(4));
    assert_eq!(
        own.fields[2],
        FieldPlan {
            member: Member::Named(s("parents")),
            step: FieldStep::BoxedTuple(vec![Walk::Identity, Walk::Opaque, Walk::Opaque]),
        }
    );
    assert!(own.fields[2].step.reboxed());
    assert!(!own.fields[3].step.reboxed());
    // Then the traversal to names.
    let InstancePlan::Biplate { to, body: Body::Struct(plan), .. } = &plans[1] else { panic!() };
    assert_eq!(to, &basic("Name", "Name"));
    assert_eq!(
        plan.fields,
        vec![
            FieldPlan {
                member: Member::Named(s("name")),
                step: FieldStep::Basic(Walk::Identity)
            },
            FieldPlan { member: Member::Named(s("age")), step: FieldStep::Basic(Walk::Opaque) },
            FieldPlan {
                member: Member::Named(s("parents")),
                step: FieldStep::BoxedTuple(vec![Walk::Dispatch, Walk::Dispatch, Walk::Opaque]),
            },
            FieldPlan {
                member: Member::Named(s("pair")),
                step: FieldStep::Tuple(vec![Walk::Identity, Walk::Opaque]),
            },
        ]
    );
}

#[test]
fn plan_generics_get_bounds() {
    let attrs = vec![attribute("biplate", vec![to(plain("T"))])];
    let input = DeriveInput {
        instance_metadata: InstanceMeta::parse_many(&attrs).unwrap(),
        data: tree_data(vec![
            GenericParam::Type(TypeParameter { ident: s("T"), bounds: names(&["Eq"]) }),
            GenericParam::Type(TypeParameter { ident: s("U"), bounds: vec![] }),
        ]),
    };
    let plans = uniplate_derive(input);
    assert_eq!(plans.len(), 3);
    let InstancePlan::Uniplate { generics, .. } = &plans[0] else { panic!() };
    assert_eq!(
        generics.type_parameters,
        vec![
            TypeParameter { ident: s("T"), bounds: names(&["Eq", "'static"]) },
            TypeParameter { ident: s("U"), bounds: names(&["'static"]) },
        ]
    );
    // The target of a traversal is bound to have a self-traversal where it
    // is a parameter of the type.
    let InstancePlan::Biplate { from, to, generics, body } = &plans[1] else { panic!() };
    assert_eq!(from, &basic("BinaryTree < T , U >", "BinaryTree"));
    assert_eq!(to, &basic("T", "T"));
    assert_eq!(
        generics.type_parameters,
        vec![
            TypeParameter { ident: s("T"), bounds: names(&["Eq", "'static", "Uniplate"]) },
            TypeParameter { ident: s("U"), bounds: names(&["'static"]) },
        ]
    );
    let Body::Enum(variants) = body else { panic!() };
    assert_eq!(variants[0], tuple_variant("Leaf", vec![field(0, FieldStep::Basic(Walk::Identity))]));
    assert_eq!(
        variants[1],
        tuple_variant(
            "Branch",
            vec![
                field(0, FieldStep::Basic(Walk::Identity)),
                field(1, FieldStep::Boxed(Walk::Dispatch)),
                field(2, FieldStep::Boxed(Walk::Dispatch))
            ]
        )
    );
    let InstancePlan::Identity { generics, .. } = &plans[2] else { panic!() };
    assert_eq!(generics.type_parameters[1].bounds, names(&["'static"]));
}

#[test]
fn plan_of_one_instance() {
    let mut state = ParserState::new(stmt_input());
    state.next_instance();
    let InstancePlan::Uniplate { from, .. } = derive_a_uniplate(&state) else { panic!() };
    assert_eq!(from, basic("Stmt", "Stmt"));
    state.next_instance();
    let InstancePlan::Biplate { to, .. } = derive_a_biplate(&state) else { panic!() };
    assert_eq!(to, basic("String", "String"));
    assert_eq!(
        derive_for_field(&state, &Type::Basic(basic("Vec < Expr >", "Expr")), Member::Unnamed(3)),
        FieldPlan { member: Member::Unnamed(3), step: FieldStep::Basic(Walk::Dispatch) }
    );
    assert_eq!(
        derive_for_field(&state, &Type::BoxedBasic(basic("i32", "i32")), Member::Named(s("n"))),
        FieldPlan { member: Member::Named(s("n")), step: FieldStep::Boxed(Walk::Opaque) }
    );
    assert_eq!(
        derive_for_field(&state, &Type::Basic(basic("String", "String")), Member::Unnamed(0)),
        FieldPlan { member: Member::Unnamed(0), step: FieldStep::Basic(Walk::Identity) }
    );
    // A vector of the target type is not the target type: it is walked into.
    assert_eq!(
        derive_for_field(
            &state,
            &Type::Basic(basic("Vec < String >", "String")),
            Member::Unnamed(0)
        ),
        FieldPlan { member: Member::Unnamed(0), step: FieldStep::Basic(Walk::Dispatch) }
    );
    state.next_instance();
    state.next_instance();
    let InstancePlan::Identity { from, .. } = derive_a_biplate(&state) else { panic!() };
    assert_eq!(from, basic("Stmt", "Stmt"));
}

#[test]
fn error_messages() {
    assert_eq!(DeriveError::ArrayType.message(), "uniplate_derive: array types are not supported.");
    assert_eq!(DeriveError::FnType.message(), "uniplate_derive: fn types are not supported.");
    assert_eq!(DeriveError::GroupType.message(), "uniplate_derive: group types are not supported.");
    assert_eq!(DeriveError::ImplType.message(), "uniplate_derive: impl types are not supported.");
    assert_eq!(
        DeriveError::InferredType.message(),
        "uniplate_derive: inferred types are not supported."
    );
    assert_eq!(
        DeriveError::MacroType.message(),
        "uniplate_derive: macros in the type position are not supported."
    );
    assert_eq!(DeriveError::NeverType.message(), "uniplate_derive: never types are not supported.");
    assert_eq!(DeriveError::ParenType.message(), "uniplate_derive: paren types are not supported.");
    assert_eq!(
        DeriveError::PointerType.message(),
        "uniplate_derive: raw pointer types are not supported."
    );
    assert_eq!(
        DeriveError::ReferenceType.message(),
        "uniplate_derive: reference types are not yet supported."
    );
    assert_eq!(DeriveError::SliceType.message(), "uniplate_derive: slice types are not supported.");
    assert_eq!(
        DeriveError::TraitObjectType.message(),
        "uniplate_derive: trait object types are not supported."
    );
    assert_eq!(
        DeriveError::VerbatimType.message(),
        "uniplate_derive: verbatim types are not yet supported."
    );
    assert_eq!(DeriveError::NestedBox.message(), "uniplate_derive: nested boxes are not supported.");
    assert_eq!(DeriveError::InvalidBox.message(), "uniplate_derive: invalid box type");
    assert_eq!(
        DeriveError::TupleFieldNotBasic.message(),
        "uniplate_derive: expect tuple field to be an unboxed basic type"
    );
    assert_eq!(
        DeriveError::DuplicateUniplate.message(),
        "only one uniplate declaration is expected per type"
    );
    assert_eq!(DeriveError::DuplicateTo.message(), "only one to type can be given");
    assert_eq!(DeriveError::MissingTo.message(), "no to type given");
    assert_eq!(DeriveError::UnrecognizedProperty.message(), "unrecognized property");
    assert_eq!(
        DeriveError::UnsupportedTarget.message(),
        "uniplate_derive: expect the to type to be an unboxed basic type"
    );
}
