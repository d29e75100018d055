use abi_stable::checker::{check, check_items, IncompatReason};
use abi_stable::errors::GenerationError;
use abi_stable::nonexhaustive_enum::{OperationsTable, OpenEnumInfo};
use abi_stable::type_layout::{
    generate, DataDecl, DiscriminantRepr, FieldDecl, ReprAttr, Tag, TagStrictness, TypeDecl,
    TypeLayout, TypeRegistry, VariantDecl,
};
use abi_stable::type_model::{FieldTy, FieldTyPart, FnDecl, LtArg, ParamTy};

fn plain_field(name: &str, type_ref: usize, offset: usize) -> FieldDecl {
    FieldDecl {
        name: name.to_string(),
        ty: FieldTy { parts: vec![] },
        type_ref,
        offset,
        conditional: false,
    }
}

fn decl(name: &str, size: usize, align: usize, data: DataDecl) -> TypeDecl {
    TypeDecl {
        name: name.to_string(),
        lifetime_params: vec![],
        size,
        alignment: align,
        repr_attr: ReprAttr::C,
        data,
        tags: vec![],
    }
}

fn primitive(name: &str, size: usize, align: usize) -> TypeLayout {
    generate(&decl(name, size, align, DataDecl::Primitive)).unwrap()
}

#[test]
fn generation_is_deterministic() {
    let d = decl(
        "pair",
        16,
        8,
        DataDecl::Struct {
            fields: vec![plain_field("a", 0, 0), plain_field("b", 1, 8)],
        },
    );
    let once = generate(&d).unwrap();
    let twice = generate(&d).unwrap();
    assert_eq!(once, twice);
}

#[test]
fn malformed_reprs_are_rejected() {
    assert_eq!(
        generate(&decl("t", 8, 3, DataDecl::Primitive)).unwrap_err(),
        GenerationError::MalformedRepr
    );
    assert_eq!(
        generate(&decl("t", 9, 4, DataDecl::Primitive)).unwrap_err(),
        GenerationError::MalformedRepr
    );
    assert_eq!(
        generate(&decl("t", 8, 0, DataDecl::Primitive)).unwrap_err(),
        GenerationError::MalformedRepr
    );
}

#[test]
fn duplicate_tag_keys_are_rejected() {
    let mut d = decl("t", 8, 8, DataDecl::Primitive);
    d.tags = vec![
        Tag { key: "k".to_string(), value: "1".to_string(), strictness: TagStrictness::Reject },
        Tag { key: "k".to_string(), value: "2".to_string(), strictness: TagStrictness::Ignore },
    ];
    assert_eq!(generate(&d).unwrap_err(), GenerationError::DuplicateTag);
}

#[test]
fn discriminants_must_fit_their_representation() {
    let d = decl(
        "e",
        4,
        4,
        DataDecl::Enum {
            variants: vec![VariantDecl {
                name: "v".to_string(),
                discriminant: 300,
                fields: vec![],
            }],
            discriminant_repr: DiscriminantRepr::U8,
            open_ops: None,
        },
    );
    assert_eq!(generate(&d).unwrap_err(), GenerationError::DiscriminantOverflow);
}

#[test]
fn publication_boundary_must_lie_within_the_fields() {
    let d = decl(
        "p",
        8,
        8,
        DataDecl::Prefix { fields_at_publish: 2, fields: vec![plain_field("a", 0, 0)] },
    );
    assert_eq!(generate(&d).unwrap_err(), GenerationError::MalformedPrefix);
}

#[test]
fn check_accepts_a_description_against_itself() {
    let reg = TypeRegistry {
        entries: vec![
            primitive("u64", 8, 8),
            generate(&decl(
                "pair",
                16,
                8,
                DataDecl::Struct {
                    fields: vec![plain_field("a", 0, 0), plain_field("b", 0, 8)],
                },
            ))
            .unwrap(),
        ],
    };
    assert!(check(&reg, 1, &reg, 1).is_ok());
    assert!(check(&reg, 0, &reg, 0).is_ok());
}

#[test]
fn check_rejects_differing_identity() {
    let reg = TypeRegistry {
        entries: vec![primitive("u64", 8, 8), primitive("u32", 4, 4), primitive("u64", 16, 8)],
    };
    assert_eq!(
        check(&reg, 0, &reg, 1).unwrap_err().reason,
        IncompatReason::NameMismatch
    );
    assert_eq!(
        check(&reg, 0, &reg, 2).unwrap_err().reason,
        IncompatReason::SizeMismatch
    );
}

#[test]
fn check_rejects_payload_kind_changes() {
    let reg = TypeRegistry {
        entries: vec![
            primitive("t", 8, 8),
            generate(&decl("t", 8, 8, DataDecl::Struct { fields: vec![] })).unwrap(),
        ],
    };
    assert_eq!(
        check(&reg, 0, &reg, 1).unwrap_err().reason,
        IncompatReason::PayloadKindMismatch
    );
}

#[test]
fn open_struct_growth_is_accepted_and_truncation_reported() {
    let old_pair = generate(&decl(
        "pair",
        8,
        8,
        DataDecl::Prefix { fields_at_publish: 1, fields: vec![plain_field("a", 0, 0)] },
    ))
    .unwrap();
    let new_pair = generate(&decl(
        "pair",
        8,
        8,
        DataDecl::Prefix {
            fields_at_publish: 1,
            fields: vec![plain_field("a", 0, 0), plain_field("b", 0, 8)],
        },
    ))
    .unwrap();
    let reg = TypeRegistry { entries: vec![primitive("u64", 8, 8), old_pair, new_pair] };
    // the found description has extra trailing fields: compatible
    assert!(check(&reg, 1, &reg, 2).is_ok());
    // the found description misses field b the expecting side requires
    let err = check(&reg, 2, &reg, 1).unwrap_err();
    assert_eq!(err.reason, IncompatReason::MissingField);
    assert_eq!(err.path, vec!["b".to_string()]);
}

#[test]
fn closed_enums_accept_no_variant_change() {
    let variant = |name: &str, d: u64| VariantDecl {
        name: name.to_string(),
        discriminant: d,
        fields: vec![],
    };
    let one = generate(&decl(
        "e",
        4,
        4,
        DataDecl::Enum {
            variants: vec![variant("x", 0)],
            discriminant_repr: DiscriminantRepr::U32,
            open_ops: None,
        },
    ))
    .unwrap();
    let two = generate(&decl(
        "e",
        4,
        4,
        DataDecl::Enum {
            variants: vec![variant("x", 0), variant("y", 1)],
            discriminant_repr: DiscriminantRepr::U32,
            open_ops: None,
        },
    ))
    .unwrap();
    let reg = TypeRegistry { entries: vec![one, two] };
    // extra variant in the found description
    assert_eq!(
        check(&reg, 0, &reg, 1).unwrap_err().reason,
        IncompatReason::ExtraVariant
    );
    // missing variant in the found description, with the path naming it
    let err = check(&reg, 1, &reg, 0).unwrap_err();
    assert_eq!(err.reason, IncompatReason::MissingVariant);
    assert_eq!(err.path, vec!["y".to_string()]);
}

#[test]
fn open_enums_accept_grown_variant_sets() {
    let variant = |name: &str, d: u64| VariantDecl {
        name: name.to_string(),
        discriminant: d,
        fields: vec![],
    };
    let ops = OperationsTable { clone_op: true, compare_op: false, format_op: false, drop_op: true };
    let one = generate(&decl(
        "e",
        4,
        4,
        DataDecl::Enum {
            variants: vec![variant("x", 0)],
            discriminant_repr: DiscriminantRepr::U32,
            open_ops: Some(ops),
        },
    ))
    .unwrap();
    let two = generate(&decl(
        "e",
        4,
        4,
        DataDecl::Enum {
            variants: vec![variant("x", 0), variant("y", 1)],
            discriminant_repr: DiscriminantRepr::U32,
            open_ops: Some(ops),
        },
    ))
    .unwrap();
    let reg = TypeRegistry { entries: vec![one, two] };
    assert!(check(&reg, 0, &reg, 1).is_ok());
    // a changed discriminant is reported even for open enumerations
    let changed = generate(&decl(
        "e",
        4,
        4,
        DataDecl::Enum {
            variants: vec![variant("x", 7)],
            discriminant_repr: DiscriminantRepr::U32,
            open_ops: Some(ops),
        },
    ))
    .unwrap();
    let reg2 = TypeRegistry { entries: vec![reg.entries[0].clone(), changed] };
    assert_eq!(
        check(&reg2, 0, &reg2, 1).unwrap_err().reason,
        IncompatReason::DiscriminantMismatch
    );
}

#[test]
fn a_missing_capability_is_a_load_time_incompatibility() {
    let needs_compare =
        OperationsTable { clone_op: false, compare_op: true, format_op: false, drop_op: false };
    let offers_none =
        OperationsTable { clone_op: false, compare_op: false, format_op: false, drop_op: false };
    let mk = |ops: OperationsTable| {
        generate(&decl(
            "e",
            4,
            4,
            DataDecl::Enum {
                variants: vec![],
                discriminant_repr: DiscriminantRepr::U32,
                open_ops: Some(ops),
            },
        ))
        .unwrap()
    };
    let reg = TypeRegistry { entries: vec![mk(needs_compare), mk(offers_none)] };
    assert_eq!(
        check(&reg, 0, &reg, 1).unwrap_err().reason,
        IncompatReason::MissingCapability
    );
    // the other direction is fine: the provider may offer more
    assert!(check(&reg, 1, &reg, 0).is_ok());
}

#[test]
fn cyclic_type_graphs_are_compared_by_identity() {
    // a node type holding a reference to itself through its only field
    let node = generate(&decl(
        "node",
        8,
        8,
        DataDecl::Struct { fields: vec![plain_field("next", 0, 0)] },
    ))
    .unwrap();
    let reg = TypeRegistry { entries: vec![node] };
    assert!(check(&reg, 0, &reg, 0).is_ok());
}

#[test]
fn rejecting_tags_must_match_and_warning_ones_need_not() {
    let mut with = decl("t", 8, 8, DataDecl::Primitive);
    with.tags = vec![Tag {
        key: "abi".to_string(),
        value: "1".to_string(),
        strictness: TagStrictness::Reject,
    }];
    let mut other = decl("t", 8, 8, DataDecl::Primitive);
    other.tags = vec![Tag {
        key: "abi".to_string(),
        value: "2".to_string(),
        strictness: TagStrictness::Reject,
    }];
    let reg = TypeRegistry {
        entries: vec![generate(&with).unwrap(), generate(&other).unwrap()],
    };
    assert_eq!(
        check(&reg, 0, &reg, 1).unwrap_err().reason,
        IncompatReason::TagMismatch
    );
    let mut warn = decl("t", 8, 8, DataDecl::Primitive);
    warn.tags = vec![Tag {
        key: "abi".to_string(),
        value: "1".to_string(),
        strictness: TagStrictness::Warn,
    }];
    let mut warn_other = decl("t", 8, 8, DataDecl::Primitive);
    warn_other.tags = vec![Tag {
        key: "abi".to_string(),
        value: "2".to_string(),
        strictness: TagStrictness::Warn,
    }];
    let reg2 = TypeRegistry {
        entries: vec![generate(&warn).unwrap(), generate(&warn_other).unwrap()],
    };
    assert!(check(&reg2, 0, &reg2, 1).is_ok());
}

#[test]
fn lifetime_shape_is_relative_not_absolute() {
    // the expecting binary declared one enclosing lifetime and its
    // function pointer uses it: position 0
    let expected = TypeDecl {
        name: "cb".to_string(),
        lifetime_params: vec![10],
        size: 8,
        alignment: 8,
        repr_attr: ReprAttr::C,
        data: DataDecl::Function(FnDecl {
            c_abi: true,
            bound_lts: vec![],
            params: vec![ParamTy {
                lts: vec![LtArg::NamedLt { name: 10 }],
                type_ref: 0,
                has_nested_fn: false,
            }],
            ret: None,
        }),
        tags: vec![],
    };
    // the providing binary declared two, of which the second is used:
    // position 1 — a different absolute index, but the same structure
    let found = TypeDecl {
        lifetime_params: vec![20, 21],
        data: DataDecl::Function(FnDecl {
            c_abi: true,
            bound_lts: vec![],
            params: vec![ParamTy {
                lts: vec![LtArg::NamedLt { name: 21 }],
                type_ref: 0,
                has_nested_fn: false,
            }],
            ret: None,
        }),
        ..expected.clone()
    };
    // one using the unbounded lifetime instead: a different structure
    let static_user = TypeDecl {
        lifetime_params: vec![20],
        data: DataDecl::Function(FnDecl {
            c_abi: true,
            bound_lts: vec![],
            params: vec![ParamTy { lts: vec![LtArg::StaticLt], type_ref: 0, has_nested_fn: false }],
            ret: None,
        }),
        ..expected.clone()
    };
    let reg = TypeRegistry {
        entries: vec![
            primitive("u64", 8, 8),
            generate(&expected).unwrap(),
            generate(&found).unwrap(),
            generate(&static_user).unwrap(),
        ],
    };
    assert!(check(&reg, 1, &reg, 2).is_ok());
    assert_eq!(
        check(&reg, 1, &reg, 3).unwrap_err().reason,
        IncompatReason::LifetimeShapeMismatch
    );
}

#[test]
fn open_enum_info_records_the_known_discriminants() {
    let variant = |name: &str, d: u64| VariantDecl {
        name: name.to_string(),
        discriminant: d,
        fields: vec![],
    };
    let ops = OperationsTable { clone_op: true, compare_op: true, format_op: true, drop_op: true };
    let e = generate(&decl(
        "e",
        4,
        4,
        DataDecl::Enum {
            variants: vec![variant("x", 3), variant("y", 9)],
            discriminant_repr: DiscriminantRepr::U32,
            open_ops: Some(ops),
        },
    ))
    .unwrap();
    match e.data {
        abi_stable::type_layout::TLData::Enum { open_info: Some(info), .. } => {
            assert_eq!(info, OpenEnumInfo { known_discriminants: vec![3, 9], ops });
        }
        _ => panic!("expected an open enumeration payload"),
    }
}

#[test]
fn a_loader_checks_every_exported_item() {
    let reg = TypeRegistry {
        entries: vec![primitive("u64", 8, 8), primitive("u32", 4, 4)],
    };
    assert!(check_items(&reg, &reg, &vec![(0, 0), (1, 1)]).is_ok());
    assert_eq!(
        check_items(&reg, &reg, &vec![(0, 0), (0, 1)]).unwrap_err().reason,
        IncompatReason::NameMismatch
    );
}

#[test]
fn descriptions_are_found_by_their_stable_name() {
    let reg = TypeRegistry {
        entries: vec![primitive("u64", 8, 8), primitive("u32", 4, 4)],
    };
    assert_eq!(reg.find(&"u32".to_string()), Some(1));
    assert_eq!(reg.find(&"missing".to_string()), None);
}

#[test]
fn incompatibility_paths_descend_through_fields() {
    let inner_ok = primitive("inner", 8, 8);
    let inner_bad = primitive("inner", 16, 8);
    let outer = generate(&decl(
        "outer",
        8,
        8,
        DataDecl::Struct { fields: vec![plain_field("payload", 1, 0)] },
    ))
    .unwrap();
    let expected = TypeRegistry { entries: vec![outer.clone(), inner_ok] };
    let found = TypeRegistry { entries: vec![outer, inner_bad] };
    let err = check(&expected, 0, &found, 0).unwrap_err();
    assert_eq!(err.path, vec!["payload".to_string()]);
    assert_eq!(err.reason, IncompatReason::SizeMismatch);
}

#[test]
fn generated_fields_carry_their_resolved_signatures() {
    // struct Holder<'a> { cb: extern fn(&'a u8, &'_ u8) }
    let cb = FnDecl {
        c_abi: true,
        bound_lts: vec![],
        params: vec![
            ParamTy { lts: vec![LtArg::NamedLt { name: 77 }], type_ref: 0, has_nested_fn: false },
            ParamTy { lts: vec![LtArg::ElidedLt], type_ref: 0, has_nested_fn: false },
        ],
        ret: None,
    };
    let d = TypeDecl {
        name: "holder".to_string(),
        lifetime_params: vec![77],
        size: 8,
        alignment: 8,
        repr_attr: ReprAttr::C,
        data: DataDecl::Struct {
            fields: vec![FieldDecl {
                name: "cb".to_string(),
                ty: FieldTy { parts: vec![abi_stable::type_model::FieldTyPart::FnPointer(cb)] },
                type_ref: 0,
                offset: 0,
                conditional: false,
            }],
        },
        tags: vec![],
    };
    let tl = generate(&d).unwrap();
    match &tl.data {
        abi_stable::type_layout::TLData::Struct { fields } => {
            let f = &fields[0];
            // the field records only the enclosing type's lifetime
            assert_eq!(
                f.lifetime_refs,
                vec![abi_stable::LifetimeIndex::Param { index: 0 }]
            );
            let func = &f.functions[0];
            // the elided parameter introduced one bound lifetime
            assert_eq!(func.bound_lifetimes, 1);
            assert_eq!(
                func.params[0].lifetime_refs,
                vec![abi_stable::LifetimeIndex::Param { index: 0 }]
            );
            // env len is 1 and no lifetime was named by the binder, so
            // the fresh bound lifetime sits at position 1
            assert_eq!(
                func.params[1].lifetime_refs,
                vec![abi_stable::LifetimeIndex::Param { index: 1 }]
            );
            assert!(func.returns.is_none());
        }
        _ => panic!("expected a struct payload"),
    }
}

#[test]
fn every_identity_level_mismatch_is_terminal() {
    let base = decl("t", 8, 8, DataDecl::Primitive);
    let mut misaligned = decl("t", 8, 4, DataDecl::Primitive);
    misaligned.alignment = 4;
    let mut packed = decl("t", 8, 8, DataDecl::Primitive);
    packed.repr_attr = ReprAttr::Packed;
    let reg = TypeRegistry {
        entries: vec![
            generate(&base).unwrap(),
            generate(&misaligned).unwrap(),
            generate(&packed).unwrap(),
        ],
    };
    assert_eq!(
        check(&reg, 0, &reg, 1).unwrap_err().reason,
        IncompatReason::AlignmentMismatch
    );
    assert_eq!(
        check(&reg, 0, &reg, 2).unwrap_err().reason,
        IncompatReason::ReprMismatch
    );
}

#[test]
fn structural_field_mismatches_name_their_field() {
    let mk = |field: FieldDecl| {
        generate(&decl("s", 8, 8, DataDecl::Struct { fields: vec![field] })).unwrap()
    };
    let reg = TypeRegistry {
        entries: vec![
            primitive("u64", 8, 8),
            mk(plain_field("a", 0, 0)),
            mk(plain_field("b", 0, 0)),
            mk(plain_field("a", 0, 8)),
        ],
    };
    let renamed = check(&reg, 1, &reg, 2).unwrap_err();
    assert_eq!(renamed.reason, IncompatReason::FieldNameMismatch);
    assert_eq!(renamed.path, vec!["a".to_string()]);
    let moved = check(&reg, 1, &reg, 3).unwrap_err();
    assert_eq!(moved.reason, IncompatReason::FieldOffsetMismatch);
    assert_eq!(moved.path, vec!["a".to_string()]);
    // a closed struct accepts no extra fields
    let wider = generate(&decl(
        "s",
        8,
        8,
        DataDecl::Struct { fields: vec![plain_field("a", 0, 0), plain_field("c", 0, 8)] },
    ))
    .unwrap();
    let reg2 = TypeRegistry { entries: vec![reg.entries[0].clone(), reg.entries[1].clone(), wider] };
    assert_eq!(
        check(&reg2, 1, &reg2, 2).unwrap_err().reason,
        IncompatReason::FieldCountMismatch
    );
}

#[test]
fn signature_shape_mismatches_are_reported() {
    let mk = |params: usize, with_ret: bool| {
        let p = ParamTy { lts: vec![], type_ref: 0, has_nested_fn: false };
        generate(&decl(
            "cb",
            8,
            8,
            DataDecl::Function(FnDecl {
                c_abi: true,
                bound_lts: vec![],
                params: vec![p; params],
                ret: if with_ret {
                    Some(ParamTy { lts: vec![], type_ref: 0, has_nested_fn: false })
                } else {
                    None
                },
            }),
        ))
        .unwrap()
    };
    let reg = TypeRegistry {
        entries: vec![primitive("u64", 8, 8), mk(1, false), mk(2, false), mk(1, true)],
    };
    assert_eq!(
        check(&reg, 1, &reg, 2).unwrap_err().reason,
        IncompatReason::ParamCountMismatch
    );
    assert_eq!(
        check(&reg, 1, &reg, 3).unwrap_err().reason,
        IncompatReason::ReturnMismatch
    );
}

#[test]
fn remaining_payload_mismatches_are_reported() {
    // a dangling type reference
    let dangling = generate(&decl(
        "s",
        8,
        8,
        DataDecl::Struct { fields: vec![plain_field("a", 9, 0)] },
    ))
    .unwrap();
    let reg = TypeRegistry { entries: vec![dangling] };
    let err = check(&reg, 0, &reg, 0).unwrap_err();
    assert_eq!(err.reason, IncompatReason::MissingTypeReference);
    assert_eq!(err.path, vec!["a".to_string()]);
    // differing publication boundaries
    let p1 = generate(&decl(
        "p",
        8,
        8,
        DataDecl::Prefix { fields_at_publish: 0, fields: vec![] },
    ))
    .unwrap();
    let p2 = generate(&decl(
        "p",
        8,
        8,
        DataDecl::Prefix { fields_at_publish: 1, fields: vec![plain_field("a", 0, 0)] },
    ))
    .unwrap();
    let reg2 = TypeRegistry { entries: vec![p1, p2] };
    assert_eq!(
        check(&reg2, 0, &reg2, 1).unwrap_err().reason,
        IncompatReason::FieldsAtPublishMismatch
    );
    // differing discriminant widths, and openness on one side only
    let mk_enum = |repr: DiscriminantRepr, open: bool| {
        generate(&decl(
            "e",
            4,
            4,
            DataDecl::Enum {
                variants: vec![],
                discriminant_repr: repr,
                open_ops: if open {
                    Some(OperationsTable {
                        clone_op: false,
                        compare_op: false,
                        format_op: false,
                        drop_op: false,
                    })
                } else {
                    None
                },
            },
        ))
        .unwrap()
    };
    let reg3 = TypeRegistry {
        entries: vec![
            mk_enum(DiscriminantRepr::U8, false),
            mk_enum(DiscriminantRepr::U32, false),
            mk_enum(DiscriminantRepr::U8, true),
        ],
    };
    assert_eq!(
        check(&reg3, 0, &reg3, 1).unwrap_err().reason,
        IncompatReason::DiscriminantReprMismatch
    );
    assert_eq!(
        check(&reg3, 0, &reg3, 2).unwrap_err().reason,
        IncompatReason::OpennessMismatch
    );
}

#[test]
fn variant_and_function_shape_changes_are_reported() {
    let variant = |name: &str, nfields: usize| VariantDecl {
        name: name.to_string(),
        discriminant: 0,
        fields: (0..nfields).map(|i| plain_field("f", 0, 8 * i)).collect(),
    };
    let mk_enum = |v: VariantDecl| {
        generate(&decl(
            "e",
            8,
            8,
            DataDecl::Enum {
                variants: vec![v],
                discriminant_repr: DiscriminantRepr::U32,
                open_ops: None,
            },
        ))
        .unwrap()
    };
    let reg = TypeRegistry {
        entries: vec![
            primitive("u64", 8, 8),
            mk_enum(variant("x", 0)),
            mk_enum(variant("y", 0)),
            mk_enum(variant("x", 1)),
        ],
    };
    let renamed = check(&reg, 1, &reg, 2).unwrap_err();
    assert_eq!(renamed.reason, IncompatReason::VariantNameMismatch);
    assert_eq!(renamed.path, vec!["x".to_string()]);
    let reshaped = check(&reg, 1, &reg, 3).unwrap_err();
    assert_eq!(reshaped.reason, IncompatReason::FieldCountMismatch);
    assert_eq!(reshaped.path, vec!["x".to_string()]);
    // a field that gained a function pointer
    let with_fn = FieldDecl {
        name: "cb".to_string(),
        ty: FieldTy {
            parts: vec![FieldTyPart::FnPointer(FnDecl {
                c_abi: true,
                bound_lts: vec![],
                params: vec![],
                ret: None,
            })],
        },
        type_ref: 0,
        offset: 0,
        conditional: false,
    };
    let plain = generate(&decl(
        "s",
        8,
        8,
        DataDecl::Struct { fields: vec![plain_field("cb", 0, 0)] },
    ))
    .unwrap();
    let pointered = generate(&decl("s", 8, 8, DataDecl::Struct { fields: vec![with_fn] })).unwrap();
    let reg2 = TypeRegistry { entries: vec![reg.entries[0].clone(), plain, pointered] };
    let err = check(&reg2, 1, &reg2, 2).unwrap_err();
    assert_eq!(err.reason, IncompatReason::FunctionCountMismatch);
    assert_eq!(err.path, vec!["cb".to_string()]);
}
