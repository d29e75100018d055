use abi_stable::errors::GenerationError;
use abi_stable::fn_lifetimes::{FnParamRet, ParamOrReturn, TypeVisitor};
use abi_stable::lifetimes::LifetimeIndex;
use abi_stable::type_model::{FieldTy, FieldTyPart, FnDecl, LtArg, ParamTy};

fn leaf_part(arg: LtArg) -> FieldTyPart {
    FieldTyPart::Lifetime(arg)
}

fn param(lts: Vec<LtArg>, type_ref: usize) -> ParamTy {
    ParamTy { lts, type_ref, has_nested_fn: false }
}

fn c_fn(bound_lts: Vec<u64>, params: Vec<ParamTy>, ret: Option<ParamTy>) -> FnDecl {
    FnDecl { c_abi: true, bound_lts, params, ret }
}

#[test]
fn field_lifetimes_resolve_positionally() {
    // the enclosing type declares lifetimes 10 and 11
    let mut tv = TypeVisitor::new(vec![10, 11]);
    let field = FieldTy {
        parts: vec![
            leaf_part(LtArg::StaticLt),
            leaf_part(LtArg::NamedLt { name: 11 }),
            leaf_part(LtArg::NamedLt { name: 10 }),
        ],
    };
    let r = tv.visit_field(&field).unwrap();
    assert_eq!(
        r.referenced_lifetimes,
        vec![
            LifetimeIndex::Static,
            LifetimeIndex::Param { index: 1 },
            LifetimeIndex::Param { index: 0 },
        ]
    );
}

#[test]
fn unknown_and_elided_field_lifetimes_are_rejected() {
    let mut tv = TypeVisitor::new(vec![10]);
    let unknown = FieldTy { parts: vec![leaf_part(LtArg::NamedLt { name: 99 })] };
    assert_eq!(
        tv.visit_field(&unknown).unwrap_err(),
        GenerationError::UnknownLifetime { name: 99 }
    );
    let elided = FieldTy { parts: vec![leaf_part(LtArg::ElidedLt)] };
    assert_eq!(
        tv.visit_field(&elided).unwrap_err(),
        GenerationError::ElidedLifetimeInField
    );
}

#[test]
fn elided_parameter_lifetimes_become_fresh_bound_ones() {
    // one env lifetime, a function binding one named lifetime 20
    let mut tv = TypeVisitor::new(vec![10]);
    let decl = c_fn(
        vec![20],
        vec![
            // &'_ x: a fresh bound lifetime after env (1) and the named one
            param(vec![LtArg::ElidedLt], 0),
            // 'a of the enclosing type
            param(vec![LtArg::NamedLt { name: 10 }], 1),
            // the function's own named lifetime
            param(vec![LtArg::NamedLt { name: 20 }], 2),
        ],
        None,
    );
    let field = FieldTy { parts: vec![FieldTyPart::FnPointer(decl)] };
    let r = tv.visit_field(&field).unwrap();
    // only env lifetimes are recorded for the field
    assert_eq!(r.referenced_lifetimes, vec![LifetimeIndex::Param { index: 0 }]);
    let info = tv.into_fn_info();
    assert_eq!(info.initial_bound_lifetime, 1);
    assert_eq!(info.functions.len(), 1);
    let f = &info.functions[0];
    // the named bound lifetime plus one introduced for the elided occurrence
    assert_eq!(f.named_bound_lts_count, 2);
    // env len is 1, named count was 1, so the fresh one sits at 1 + 1 = 2
    assert_eq!(
        f.params[0].lifetime_refs,
        vec![LifetimeIndex::Param { index: 2 }]
    );
    assert_eq!(
        f.params[1].lifetime_refs,
        vec![LifetimeIndex::Param { index: 0 }]
    );
    // the function's named lifetime 20 sits after the env: position 1
    assert_eq!(
        f.params[2].lifetime_refs,
        vec![LifetimeIndex::Param { index: 1 }]
    );
}

#[test]
fn elided_return_resolves_to_the_single_candidate() {
    let mut tv = TypeVisitor::new(vec![]);
    let decl = c_fn(
        vec![],
        vec![param(vec![LtArg::ElidedLt], 0)],
        Some(param(vec![LtArg::ElidedLt], 1)),
    );
    let field = FieldTy { parts: vec![FieldTyPart::FnPointer(decl)] };
    tv.visit_field(&field).unwrap();
    let info = tv.into_fn_info();
    let f = &info.functions[0];
    // exactly one parameter lifetime: the return reuses the first bound one
    let ret = f.returns.as_ref().unwrap();
    assert_eq!(ret.lifetime_refs, vec![LifetimeIndex::Param { index: 0 }]);
    assert_eq!(ret.param_or_ret, ParamOrReturn::Return);
}

#[test]
fn elided_return_without_candidate_is_rejected() {
    let mut tv = TypeVisitor::new(vec![]);
    let decl = c_fn(vec![], vec![], Some(param(vec![LtArg::ElidedLt], 0)));
    let field = FieldTy { parts: vec![FieldTyPart::FnPointer(decl)] };
    assert_eq!(
        tv.visit_field(&field).unwrap_err(),
        GenerationError::ElidedReturnNoCandidate
    );
}

#[test]
fn elided_return_with_two_candidates_is_ambiguous() {
    let mut tv = TypeVisitor::new(vec![]);
    let decl = c_fn(
        vec![],
        vec![param(vec![LtArg::ElidedLt, LtArg::ElidedLt], 0)],
        Some(param(vec![LtArg::ElidedLt], 1)),
    );
    let field = FieldTy { parts: vec![FieldTyPart::FnPointer(decl)] };
    assert_eq!(
        tv.visit_field(&field).unwrap_err(),
        GenerationError::ElidedReturnAmbiguous
    );
}

#[test]
fn nested_function_pointers_are_rejected() {
    let mut tv = TypeVisitor::new(vec![]);
    let decl = c_fn(
        vec![],
        vec![ParamTy { lts: vec![], type_ref: 0, has_nested_fn: true }],
        None,
    );
    let field = FieldTy { parts: vec![FieldTyPart::FnPointer(decl)] };
    assert_eq!(
        tv.visit_field(&field).unwrap_err(),
        GenerationError::NestedFunctionPointer
    );
}

#[test]
fn unsupported_abi_is_rejected() {
    let mut tv = TypeVisitor::new(vec![]);
    let decl = FnDecl { c_abi: false, bound_lts: vec![], params: vec![], ret: None };
    let field = FieldTy { parts: vec![FieldTyPart::FnPointer(decl)] };
    assert_eq!(
        tv.visit_field(&field).unwrap_err(),
        GenerationError::UnsupportedAbi
    );
}

#[test]
fn errors_leave_nothing_recorded() {
    let mut tv = TypeVisitor::new(vec![10]);
    let good = FieldTy { parts: vec![leaf_part(LtArg::NamedLt { name: 10 })] };
    tv.visit_field(&good).unwrap();
    let bad = FieldTy {
        parts: vec![FieldTyPart::FnPointer(c_fn(vec![], vec![], None)), leaf_part(LtArg::ElidedLt)],
    };
    assert!(tv.visit_field(&bad).is_err());
    // the failing field's function was not committed
    assert_eq!(tv.into_fn_info().functions.len(), 0);
}

#[test]
fn remove_generics_rewrites_only_bound_lifetimes() {
    let mut tv = TypeVisitor::new(vec![10]);
    let decl = c_fn(vec![20], vec![param(vec![LtArg::NamedLt { name: 20 }], 0)], None);
    let field = FieldTy { parts: vec![FieldTyPart::FnPointer(decl)] };
    tv.visit_field(&field).unwrap();
    let info = tv.into_fn_info();
    let f = &info.functions[0];
    let mut lts = vec![
        LtArg::NamedLt { name: 20 },
        LtArg::NamedLt { name: 10 },
        LtArg::StaticLt,
    ];
    f.remove_generics_from(&mut lts);
    assert_eq!(
        lts,
        vec![LtArg::ElidedLt, LtArg::NamedLt { name: 10 }, LtArg::StaticLt]
    );
}

#[test]
fn unit_ret_is_an_empty_return_description() {
    let r = FnParamRet::unit_ret(7);
    assert_eq!(r.lifetime_refs, Vec::<LifetimeIndex>::new());
    assert_eq!(r.type_ref, 7);
    assert_eq!(r.param_or_ret, ParamOrReturn::Return);
}

#[test]
fn tokenizer_carries_its_index() {
    let t = LifetimeIndex::Param { index: 3 }.tokenizer();
    assert_eq!(t.li, LifetimeIndex::Param { index: 3 });
    let s = LifetimeIndex::Static.tokenizer();
    assert_eq!(s.li, LifetimeIndex::Static);
}
