//! The general guarantees of the compatibility check, proved once and
//! for all: reflexivity, acceptance of open-struct and open-enumeration
//! growth, and rejection of a missing requirement.
//!
//! Each law places the expected and the provided description in one
//! registry value: it stands for two binaries that agree on every other
//! type, so the comparison of the types the two roots reference runs
//! along the diagonal. The registries must be well formed in the sense
//! of [`registry_wf`], which generated registries are.

use vstd::prelude::*;

use crate::checker::{
    check_measure, lemma_find_tag_unique, lemma_measure_decreases, spec_check, spec_check_entry,
    spec_check_field_fns, spec_check_field_pair, spec_check_fields, spec_check_fn_params,
    spec_check_function, spec_check_prefix_fields, spec_check_tags, spec_check_variants,
    stack_wf, tl_fn_refs, tl_params_refs, lt_shape_eq, param_lens_eq, IncompatReason, IncompatV,
};
use crate::errors::GenerationError;
use crate::fn_lifetimes::{spec_resolve_lts, spec_setup_lt};
use crate::lifetimes::LifetimeIndex;
use crate::type_model::LtArg;
use crate::type_layout::{
    spec_data_eq, spec_field_eq, spec_fields_eq, spec_function_eq, spec_layout_eq, spec_param_eq,
    spec_tag_eq, spec_tags_unique, spec_variant_eq, TLData, TLEnumVariant, TLField, TLFunction,
    Tag, TagStrictness, TypeLayout, TypeRegistry,
};

verus! {

/// Every type a recorded signature references lies in the registry.
pub open spec fn fn_refs_wf(x: TLFunction, n: int) -> bool {
    &&& forall|k: int| 0 <= k < x.params@.len() ==> (#[trigger] x.params@[k]).type_ref < n
    &&& match x.returns {
        Some(r) => r.type_ref < n,
        None => true,
    }
}

/// Every type a recorded field references lies in the registry.
pub open spec fn field_wf(f: TLField, n: int) -> bool {
    &&& f.type_ref < n
    &&& forall|q: int| 0 <= q < f.functions@.len() ==> fn_refs_wf(#[trigger] f.functions@[q], n)
}

/// Every type a field list references lies in the registry.
pub open spec fn fields_wf(fs: Seq<TLField>, n: int) -> bool {
    forall|j: int| 0 <= j < fs.len() ==> field_wf(#[trigger] fs[j], n)
}

/// A description is closed over its registry and its tag keys are
/// unique, as generation guarantees.
pub open spec fn layout_wf(tl: TypeLayout, n: int) -> bool {
    &&& spec_tags_unique(tl.tags@)
    &&& match tl.data {
        TLData::Primitive => true,
        TLData::Struct { fields } => fields_wf(fields@, n),
        TLData::Prefix { fields_at_publish, fields } => fields_wf(fields@, n),
        TLData::Enum { variants, discriminant_repr, open_info } => forall|v: int|
            0 <= v < variants@.len() ==> fields_wf((#[trigger] variants@[v]).fields@, n),
        TLData::Function(x) => fn_refs_wf(x, n),
    }
}

/// Every description in the registry is well formed over it.
pub open spec fn registry_wf(reg: TypeRegistry) -> bool {
    forall|e: int|
        0 <= e < reg.entries@.len() ==> layout_wf(
            #[trigger] reg.entries@[e],
            reg.entries@.len() as int,
        )
}

/// Structural equality is reflexive.
pub proof fn lemma_layout_eq_refl(tl: TypeLayout)
    ensures
        spec_layout_eq(tl, tl),
{
    match tl.data {
        TLData::Struct { fields } => {
            assert forall|k: int| 0 <= k < fields@.len() implies spec_field_eq(
                #[trigger] fields@[k],
                fields@[k],
            ) by {}
        },
        TLData::Prefix { fields_at_publish, fields } => {
            assert forall|k: int| 0 <= k < fields@.len() implies spec_field_eq(
                #[trigger] fields@[k],
                fields@[k],
            ) by {}
        },
        TLData::Enum { variants, discriminant_repr, open_info } => {
            assert forall|k: int| 0 <= k < variants@.len() implies spec_variant_eq(
                #[trigger] variants@[k],
                variants@[k],
            ) by {
                assert forall|j: int| 0 <= j < variants@[k].fields@.len() implies spec_field_eq(
                    #[trigger] variants@[k].fields@[j],
                    variants@[k].fields@[j],
                ) by {}
            }
        },
        _ => {},
    }
}

/// Pointwise tag equality against a unique-keyed expected list passes
/// the tag comparison.
pub proof fn lemma_tags_equal(ta: Seq<Tag>, tb: Seq<Tag>, i: int)
    requires
        0 <= i,
        spec_tags_unique(ta),
        ta.len() == tb.len(),
        forall|k: int| 0 <= k < ta.len() ==> spec_tag_eq(#[trigger] ta[k], tb[k]),
    ensures
        spec_check_tags(ta, tb, i) is Ok,
    decreases ta.len() - i,
{
    if i >= ta.len() {
    } else {
        let t = ta[i];
        if t.strictness == TagStrictness::Reject {
            assert(spec_tag_eq(ta[i], tb[i]));
            assert forall|j: int| 0 <= j < i implies (#[trigger] tb[j]).key@ != t.key@ by {
                assert(spec_tag_eq(ta[j], tb[j]));
            }
            lemma_find_tag_unique(tb, t.key@, i);
        }
        lemma_tags_equal(ta, tb, i + 1);
    }
}

/// Pointwise-equal parameter lists collect equal lifetime references.
pub proof fn lemma_tl_params_refs_congruent(a: Seq<crate::type_layout::TLParamRet>, b: Seq<
    crate::type_layout::TLParamRet,
>)
    requires
        a.len() == b.len(),
        forall|k: int| 0 <= k < a.len() ==> spec_param_eq(#[trigger] a[k], b[k]),
    ensures
        tl_params_refs(a) == tl_params_refs(b),
    decreases a.len(),
{
    if a.len() == 0 {
    } else {
        assert(spec_param_eq(a[0], b[0]));
        assert forall|k: int| 0 <= k < a.drop_first().len() implies spec_param_eq(
            #[trigger] a.drop_first()[k],
            b.drop_first()[k],
        ) by {
            assert(a.drop_first()[k] == a[k + 1]);
            assert(b.drop_first()[k] == b[k + 1]);
            assert(spec_param_eq(a[k + 1], b[k + 1]));
        }
        lemma_tl_params_refs_congruent(a.drop_first(), b.drop_first());
    }
}

/// Comparing two structurally equal signatures succeeds, with every
/// referenced pairing diagonal.
pub proof fn lemma_function_equal(
    reg: TypeRegistry,
    x: TLFunction,
    y: TLFunction,
    stack: Seq<(usize, usize)>,
)
    requires
        registry_wf(reg),
        stack_wf(stack, reg.entries@.len() as int, reg.entries@.len() as int),
        spec_function_eq(x, y),
        fn_refs_wf(x, reg.entries@.len() as int),
    ensures
        spec_check_function(reg, reg, x, y, stack) is Ok,
    decreases check_measure(reg.entries@.len() as int, reg.entries@.len() as int, stack), 2nat,
        0nat,
{
    let n = reg.entries@.len() as int;
    assert(param_lens_eq(x, y)) by {
        assert forall|k: int| 0 <= k < x.params@.len() implies (#[trigger] x.params@[k]).lifetime_refs@.len()
            == y.params@[k].lifetime_refs@.len() by {
            assert(spec_param_eq(x.params@[k], y.params@[k]));
        }
    }
    assert(tl_fn_refs(x) == tl_fn_refs(y)) by {
        lemma_tl_params_refs_congruent(x.params@, y.params@);
    }
    assert(lt_shape_eq(tl_fn_refs(x), tl_fn_refs(y)));
    lemma_fn_params_equal(reg, x.params@, y.params@, stack, 0);
    match (x.returns, y.returns) {
        (Some(rx), Some(ry)) => {
            lemma_entry_diagonal(reg, rx.type_ref, stack);
            assert(spec_param_eq(rx, ry));
        },
        _ => {},
    }
}

/// Comparing the referenced types of pointwise-equal parameter lists
/// succeeds.
pub proof fn lemma_fn_params_equal(
    reg: TypeRegistry,
    xs: Seq<crate::type_layout::TLParamRet>,
    ys: Seq<crate::type_layout::TLParamRet>,
    stack: Seq<(usize, usize)>,
    i: int,
)
    requires
        0 <= i,
        registry_wf(reg),
        stack_wf(stack, reg.entries@.len() as int, reg.entries@.len() as int),
        xs.len() == ys.len(),
        forall|k: int| 0 <= k < xs.len() ==> spec_param_eq(#[trigger] xs[k], ys[k]),
        forall|k: int| 0 <= k < xs.len() ==> (#[trigger] xs[k]).type_ref < reg.entries@.len(),
    ensures
        spec_check_fn_params(reg, reg, xs, ys, stack, i) is Ok,
    decreases check_measure(reg.entries@.len() as int, reg.entries@.len() as int, stack), 1nat,
        xs.len() - i,
{
    if i >= xs.len() {
    } else {
        assert(spec_param_eq(xs[i], ys[i]));
        lemma_entry_diagonal(reg, xs[i].type_ref, stack);
        lemma_fn_params_equal(reg, xs, ys, stack, i + 1);
    }
}

/// Comparing the signature lists of one field pair, pointwise equal,
/// succeeds.
pub proof fn lemma_field_fns_equal(
    reg: TypeRegistry,
    xs: Seq<TLFunction>,
    ys: Seq<TLFunction>,
    stack: Seq<(usize, usize)>,
    i: int,
)
    requires
        0 <= i,
        registry_wf(reg),
        stack_wf(stack, reg.entries@.len() as int, reg.entries@.len() as int),
        xs.len() == ys.len(),
        forall|k: int| 0 <= k < xs.len() ==> spec_function_eq(#[trigger] xs[k], ys[k]),
        forall|k: int| 0 <= k < xs.len() ==> fn_refs_wf(#[trigger] xs[k], reg.entries@.len() as int),
    ensures
        spec_check_field_fns(reg, reg, xs, ys, stack, i) is Ok,
    decreases check_measure(reg.entries@.len() as int, reg.entries@.len() as int, stack), 3nat,
        xs.len() - i,
{
    if i >= xs.len() {
    } else {
        assert(spec_function_eq(xs[i], ys[i]));
        assert(fn_refs_wf(xs[i], reg.entries@.len() as int));
        lemma_function_equal(reg, xs[i], ys[i], stack);
        lemma_field_fns_equal(reg, xs, ys, stack, i + 1);
    }
}

/// Comparing one structurally equal field pair succeeds.
pub proof fn lemma_field_pair_equal(
    reg: TypeRegistry,
    x: TLField,
    y: TLField,
    stack: Seq<(usize, usize)>,
)
    requires
        registry_wf(reg),
        stack_wf(stack, reg.entries@.len() as int, reg.entries@.len() as int),
        spec_field_eq(x, y),
        field_wf(x, reg.entries@.len() as int),
    ensures
        spec_check_field_pair(reg, reg, x, y, stack) is Ok,
    decreases check_measure(reg.entries@.len() as int, reg.entries@.len() as int, stack), 4nat,
        0nat,
{
    assert(lt_shape_eq(x.lifetime_refs@, y.lifetime_refs@));
    assert forall|k: int| 0 <= k < x.functions@.len() implies spec_function_eq(
        #[trigger] x.functions@[k],
        y.functions@[k],
    ) by {}
    lemma_field_fns_equal(reg, x.functions@, y.functions@, stack, 0);
    lemma_entry_diagonal(reg, x.type_ref, stack);
}

/// Comparing pointwise-equal closed field lists succeeds.
pub proof fn lemma_fields_equal(
    reg: TypeRegistry,
    fa: Seq<TLField>,
    fb: Seq<TLField>,
    stack: Seq<(usize, usize)>,
    i: int,
)
    requires
        0 <= i,
        registry_wf(reg),
        stack_wf(stack, reg.entries@.len() as int, reg.entries@.len() as int),
        fa.len() == fb.len(),
        forall|k: int| 0 <= k < fa.len() ==> spec_field_eq(#[trigger] fa[k], fb[k]),
        fields_wf(fa, reg.entries@.len() as int),
    ensures
        spec_check_fields(reg, reg, fa, fb, stack, i) is Ok,
    decreases check_measure(reg.entries@.len() as int, reg.entries@.len() as int, stack), 5nat,
        fa.len() - i,
{
    if i >= fa.len() {
    } else {
        lemma_field_pair_equal(reg, fa[i], fb[i], stack);
        lemma_fields_equal(reg, fa, fb, stack, i + 1);
    }
}

/// Comparing an open struct's fields succeeds when the provided side
/// has at least the expected fields, pointwise equal where both exist.
pub proof fn lemma_prefix_fields_extend(
    reg: TypeRegistry,
    fa: Seq<TLField>,
    fb: Seq<TLField>,
    stack: Seq<(usize, usize)>,
    i: int,
)
    requires
        0 <= i,
        registry_wf(reg),
        stack_wf(stack, reg.entries@.len() as int, reg.entries@.len() as int),
        fa.len() <= fb.len(),
        forall|k: int| 0 <= k < fa.len() ==> spec_field_eq(#[trigger] fa[k], fb[k]),
        fields_wf(fa, reg.entries@.len() as int),
    ensures
        spec_check_prefix_fields(reg, reg, fa, fb, stack, i) is Ok,
    decreases check_measure(reg.entries@.len() as int, reg.entries@.len() as int, stack), 5nat,
        fa.len() - i,
{
    if i >= fa.len() {
    } else {
        lemma_field_pair_equal(reg, fa[i], fb[i], stack);
        lemma_prefix_fields_extend(reg, fa, fb, stack, i + 1);
    }
}

/// Comparing pointwise-equal variants, where the provided side may have
/// more, succeeds.
pub proof fn lemma_variants_equal(
    reg: TypeRegistry,
    va: Seq<TLEnumVariant>,
    vb: Seq<TLEnumVariant>,
    stack: Seq<(usize, usize)>,
    i: int,
)
    requires
        0 <= i,
        registry_wf(reg),
        stack_wf(stack, reg.entries@.len() as int, reg.entries@.len() as int),
        va.len() <= vb.len(),
        forall|k: int| 0 <= k < va.len() ==> spec_variant_eq(#[trigger] va[k], vb[k]),
        forall|k: int| 0 <= k < va.len() ==> fields_wf((#[trigger] va[k]).fields@, reg.entries@.len() as int),
    ensures
        spec_check_variants(reg, reg, va, vb, stack, i) is Ok,
    decreases check_measure(reg.entries@.len() as int, reg.entries@.len() as int, stack), 6nat,
        va.len() - i,
{
    if i >= va.len() {
    } else {
        assert(spec_variant_eq(va[i], vb[i]));
        lemma_fields_equal(reg, va[i].fields@, vb[i].fields@, stack, 0);
        lemma_variants_equal(reg, va, vb, stack, i + 1);
    }
}

/// Comparing a well-formed description with itself, at any point of the
/// recursion, succeeds.
pub proof fn lemma_entry_diagonal(reg: TypeRegistry, e: usize, stack: Seq<(usize, usize)>)
    requires
        registry_wf(reg),
        stack_wf(stack, reg.entries@.len() as int, reg.entries@.len() as int),
        (e as int) < reg.entries@.len(),
    ensures
        spec_check_entry(reg, reg, e, e, stack) is Ok,
    decreases check_measure(reg.entries@.len() as int, reg.entries@.len() as int, stack), 0nat,
        0nat,
{
    let n = reg.entries@.len() as int;
    if stack.contains((e, e)) {
    } else {
        let a = reg.entries@[e as int];
        lemma_measure_decreases(n, n, stack, e, e);
        let stack2 = stack.push((e, e));
        assert(stack_wf(stack2, n, n));
        assert(layout_wf(a, n));
        match a.data {
            TLData::Primitive => {},
            TLData::Struct { fields } => {
                assert forall|k: int| 0 <= k < fields@.len() implies spec_field_eq(
                    #[trigger] fields@[k],
                    fields@[k],
                ) by {}
                lemma_fields_equal(reg, fields@, fields@, stack2, 0);
            },
            TLData::Prefix { fields_at_publish, fields } => {
                assert forall|k: int| 0 <= k < fields@.len() implies spec_field_eq(
                    #[trigger] fields@[k],
                    fields@[k],
                ) by {}
                lemma_prefix_fields_extend(reg, fields@, fields@, stack2, 0);
            },
            TLData::Enum { variants, discriminant_repr, open_info } => {
                assert forall|k: int| 0 <= k < variants@.len() implies spec_variant_eq(
                    #[trigger] variants@[k],
                    variants@[k],
                ) by {
                    assert forall|j: int|
                        0 <= j < variants@[k].fields@.len() implies spec_field_eq(
                        #[trigger] variants@[k].fields@[j],
                        variants@[k].fields@[j],
                    ) by {}
                }
                lemma_variants_equal(reg, variants@, variants@, stack2, 0);
            },
            TLData::Function(x) => {
                lemma_function_equal(reg, x, x, stack2);
            },
        }
        assert forall|k: int| 0 <= k < a.tags@.len() implies spec_tag_eq(
            #[trigger] a.tags@[k],
            a.tags@[k],
        ) by {}
        lemma_tags_equal(a.tags@, a.tags@, 0);
    }
}

/// The check is reflexive: comparing any well-formed description with
/// itself succeeds.
pub proof fn lemma_check_reflexive(reg: TypeRegistry, root: usize)
    requires
        registry_wf(reg),
        (root as int) < reg.entries@.len(),
    ensures
        spec_check(reg, reg, root, root) is Ok,
{
    let n = reg.entries@.len() as int;
    assert(stack_wf(Seq::<(usize, usize)>::empty(), n, n));
    lemma_entry_diagonal(reg, root, Seq::empty());
}

/// The identity-level attributes and tags of two descriptions agree.
pub open spec fn spec_header_eq(a: TypeLayout, b: TypeLayout) -> bool {
    &&& a.name@ == b.name@
    &&& a.size == b.size
    &&& a.alignment == b.alignment
    &&& a.repr_attr == b.repr_attr
    &&& a.tags@.len() == b.tags@.len()
    &&& forall|k: int| 0 <= k < a.tags@.len() ==> spec_tag_eq(#[trigger] a.tags@[k], b.tags@[k])
}

/// `b` is `a` republished with extra trailing open-struct fields: the
/// same identity, the same publication boundary, and `a`'s fields as a
/// pointwise-equal prefix of `b`'s.
pub open spec fn spec_prefix_extends(a: TypeLayout, b: TypeLayout) -> bool {
    &&& spec_header_eq(a, b)
    &&& match (a.data, b.data) {
        (
            TLData::Prefix { fields_at_publish: pa, fields: fa },
            TLData::Prefix { fields_at_publish: pb, fields: fb },
        ) => {
            &&& pa == pb
            &&& fa@.len() <= fb@.len()
            &&& forall|j: int| 0 <= j < fa@.len() ==> spec_field_eq(#[trigger] fa@[j], fb@[j])
        },
        _ => false,
    }
}

/// Checking an expected open struct against a provided description that
/// extends it with trailing fields succeeds.
pub proof fn lemma_open_struct_growth(reg: TypeRegistry, e: usize, f: usize)
    requires
        registry_wf(reg),
        (e as int) < reg.entries@.len(),
        (f as int) < reg.entries@.len(),
        spec_prefix_extends(reg.entries@[e as int], reg.entries@[f as int]),
    ensures
        spec_check(reg, reg, e, f) is Ok,
{
    let n = reg.entries@.len() as int;
    let stack0 = Seq::<(usize, usize)>::empty();
    assert(stack_wf(stack0, n, n));
    let a = reg.entries@[e as int];
    let b = reg.entries@[f as int];
    if stack0.contains((e, f)) {
    } else {
        lemma_measure_decreases(n, n, stack0, e, f);
        let stack2 = stack0.push((e, f));
        assert(stack_wf(stack2, n, n));
        match (a.data, b.data) {
            (
                TLData::Prefix { fields_at_publish: pa, fields: fa },
                TLData::Prefix { fields_at_publish: pb, fields: fb },
            ) => {
                lemma_prefix_fields_extend(reg, fa@, fb@, stack2, 0);
            },
            _ => {},
        }
        lemma_tags_equal(a.tags@, b.tags@, 0);
    }
}

/// `b` is `a` with its trailing fields cut off at `k`, where `a`'s field
/// `k` is not conditional: the provided binary misses a field the
/// expecting one requires.
pub open spec fn spec_prefix_truncated(a: TypeLayout, b: TypeLayout, k: int) -> bool {
    &&& spec_header_eq(a, b)
    &&& match (a.data, b.data) {
        (
            TLData::Prefix { fields_at_publish: pa, fields: fa },
            TLData::Prefix { fields_at_publish: pb, fields: fb },
        ) => {
            &&& pa == pb
            &&& fb@.len() == k
            &&& k < fa@.len()
            &&& forall|j: int| 0 <= j < k ==> spec_field_eq(#[trigger] fa@[j], fb@[j])
            &&& !fa@[k].conditional
        },
        _ => false,
    }
}

/// The open-struct walk reports the first required field the provided
/// description misses, by name.
pub proof fn lemma_prefix_fields_missing(
    reg: TypeRegistry,
    fa: Seq<TLField>,
    fb: Seq<TLField>,
    stack: Seq<(usize, usize)>,
    i: int,
    k: int,
)
    requires
        0 <= i <= k,
        registry_wf(reg),
        stack_wf(stack, reg.entries@.len() as int, reg.entries@.len() as int),
        fb.len() == k,
        k < fa.len(),
        forall|j: int| 0 <= j < k ==> spec_field_eq(#[trigger] fa[j], fb[j]),
        !fa[k].conditional,
        fields_wf(fa, reg.entries@.len() as int),
    ensures
        spec_check_prefix_fields(reg, reg, fa, fb, stack, i) == Err::<(), IncompatV>(
            IncompatV { path: seq![fa[k].name@], reason: IncompatReason::MissingField },
        ),
    decreases k - i,
{
    if i == k {
    } else {
        lemma_field_pair_equal(reg, fa[i], fb[i], stack);
        lemma_prefix_fields_missing(reg, fa, fb, stack, i + 1, k);
    }
}

/// Checking an expected open struct against a provided description that
/// misses a required field fails, with the path pointing at that field.
pub proof fn lemma_missing_field_reported(reg: TypeRegistry, e: usize, f: usize, k: int)
    requires
        registry_wf(reg),
        (e as int) < reg.entries@.len(),
        (f as int) < reg.entries@.len(),
        spec_prefix_truncated(reg.entries@[e as int], reg.entries@[f as int], k),
        0 <= k,
    ensures
        spec_check(reg, reg, e, f) == Err::<(), IncompatV>(
            IncompatV {
                path: seq![
                    reg.entries@[e as int].data->Prefix_fields@[k].name@,
                ],
                reason: IncompatReason::MissingField,
            },
        ),
{
    let n = reg.entries@.len() as int;
    let stack0 = Seq::<(usize, usize)>::empty();
    assert(stack_wf(stack0, n, n));
    let a = reg.entries@[e as int];
    let b = reg.entries@[f as int];
    lemma_measure_decreases(n, n, stack0, e, f);
    let stack2 = stack0.push((e, f));
    assert(stack_wf(stack2, n, n));
    match (a.data, b.data) {
        (
            TLData::Prefix { fields_at_publish: pa, fields: fa },
            TLData::Prefix { fields_at_publish: pb, fields: fb },
        ) => {
            lemma_prefix_fields_missing(reg, fa@, fb@, stack2, 0, k);
        },
        _ => {},
    }
}

/// Two closed enumerations where the provided one has grown variants.
pub open spec fn spec_closed_enum_grown(a: TypeLayout, b: TypeLayout) -> bool {
    &&& spec_header_eq(a, b)
    &&& match (a.data, b.data) {
        (
            TLData::Enum { variants: va, discriminant_repr: ra, open_info: oa },
            TLData::Enum { variants: vb, discriminant_repr: rb, open_info: ob },
        ) => {
            &&& ra == rb
            &&& oa is None
            &&& ob is None
            &&& va@.len() < vb@.len()
        },
        _ => false,
    }
}

/// A closed enumeration that gained variants is rejected outright.
pub proof fn lemma_closed_enum_extra_variant(reg: TypeRegistry, e: usize, f: usize)
    requires
        registry_wf(reg),
        (e as int) < reg.entries@.len(),
        (f as int) < reg.entries@.len(),
        spec_closed_enum_grown(reg.entries@[e as int], reg.entries@[f as int]),
    ensures
        spec_check(reg, reg, e, f) == Err::<(), IncompatV>(
            IncompatV { path: Seq::empty(), reason: IncompatReason::ExtraVariant },
        ),
{
    let n = reg.entries@.len() as int;
    let stack0 = Seq::<(usize, usize)>::empty();
    assert(stack_wf(stack0, n, n));
}

/// Two enumerations where the provided one misses a variant the
/// expecting one knows, the common prefix agreeing.
pub open spec fn spec_enum_truncated(a: TypeLayout, b: TypeLayout, k: int) -> bool {
    &&& spec_header_eq(a, b)
    &&& match (a.data, b.data) {
        (
            TLData::Enum { variants: va, discriminant_repr: ra, open_info: oa },
            TLData::Enum { variants: vb, discriminant_repr: rb, open_info: ob },
        ) => {
            &&& ra == rb
            &&& oa is None
            &&& ob is None
            &&& vb@.len() == k
            &&& k < va@.len()
            &&& forall|j: int| 0 <= j < k ==> spec_variant_eq(#[trigger] va@[j], vb@[j])
        },
        _ => false,
    }
}

/// The variant walk reports the first variant the provided description
/// misses, by name.
pub proof fn lemma_variants_missing(
    reg: TypeRegistry,
    va: Seq<TLEnumVariant>,
    vb: Seq<TLEnumVariant>,
    stack: Seq<(usize, usize)>,
    i: int,
    k: int,
)
    requires
        0 <= i <= k,
        registry_wf(reg),
        stack_wf(stack, reg.entries@.len() as int, reg.entries@.len() as int),
        vb.len() == k,
        k < va.len(),
        forall|j: int| 0 <= j < k ==> spec_variant_eq(#[trigger] va[j], vb[j]),
        forall|j: int| 0 <= j < va.len() ==> fields_wf((#[trigger] va[j]).fields@, reg.entries@.len() as int),
    ensures
        spec_check_variants(reg, reg, va, vb, stack, i) == Err::<(), IncompatV>(
            IncompatV { path: seq![va[k].name@], reason: IncompatReason::MissingVariant },
        ),
    decreases k - i,
{
    if i == k {
    } else {
        assert(spec_variant_eq(va[i], vb[i]));
        lemma_fields_equal(reg, va[i].fields@, vb[i].fields@, stack, 0);
        lemma_variants_missing(reg, va, vb, stack, i + 1, k);
    }
}

/// An enumeration whose provided description misses an expected variant
/// is rejected, with the path naming that variant.
pub proof fn lemma_missing_variant_reported(reg: TypeRegistry, e: usize, f: usize, k: int)
    requires
        registry_wf(reg),
        (e as int) < reg.entries@.len(),
        (f as int) < reg.entries@.len(),
        spec_enum_truncated(reg.entries@[e as int], reg.entries@[f as int], k),
        0 <= k,
    ensures
        spec_check(reg, reg, e, f) == Err::<(), IncompatV>(
            IncompatV {
                path: seq![
                    reg.entries@[e as int].data->Enum_variants@[k].name@,
                ],
                reason: IncompatReason::MissingVariant,
            },
        ),
{
    let n = reg.entries@.len() as int;
    let stack0 = Seq::<(usize, usize)>::empty();
    assert(stack_wf(stack0, n, n));
    let a = reg.entries@[e as int];
    let b = reg.entries@[f as int];
    lemma_measure_decreases(n, n, stack0, e, f);
    let stack2 = stack0.push((e, f));
    assert(stack_wf(stack2, n, n));
    match (a.data, b.data) {
        (
            TLData::Enum { variants: va, discriminant_repr: ra, open_info: oa },
            TLData::Enum { variants: vb, discriminant_repr: rb, open_info: ob },
        ) => {
            lemma_variants_missing(reg, va@, vb@, stack2, 0, k);
        },
        _ => {},
    }
}

/// Two open enumerations where the provided one has a superset of the
/// expected variants and a table with at least the expected operations.
pub open spec fn spec_open_enum_extends(a: TypeLayout, b: TypeLayout) -> bool {
    &&& spec_header_eq(a, b)
    &&& match (a.data, b.data) {
        (
            TLData::Enum { variants: va, discriminant_repr: ra, open_info: oa },
            TLData::Enum { variants: vb, discriminant_repr: rb, open_info: ob },
        ) => {
            &&& ra == rb
            &&& match (oa, ob) {
                (Some(ia), Some(ib)) => forall|op: crate::nonexhaustive_enum::EnumOp|
                    ia.ops.spec_supports(op) ==> ib.ops.spec_supports(op),
                _ => false,
            }
            &&& va@.len() <= vb@.len()
            &&& forall|j: int| 0 <= j < va@.len() ==> spec_variant_eq(#[trigger] va@[j], vb@[j])
        },
        _ => false,
    }
}

/// Checking an expected open enumeration against a provided description
/// with a superset of its variants succeeds.
pub proof fn lemma_open_enum_growth(reg: TypeRegistry, e: usize, f: usize)
    requires
        registry_wf(reg),
        (e as int) < reg.entries@.len(),
        (f as int) < reg.entries@.len(),
        spec_open_enum_extends(reg.entries@[e as int], reg.entries@[f as int]),
    ensures
        spec_check(reg, reg, e, f) is Ok,
{
    let n = reg.entries@.len() as int;
    let stack0 = Seq::<(usize, usize)>::empty();
    assert(stack_wf(stack0, n, n));
    let a = reg.entries@[e as int];
    let b = reg.entries@[f as int];
    lemma_measure_decreases(n, n, stack0, e, f);
    let stack2 = stack0.push((e, f));
    assert(stack_wf(stack2, n, n));
    match (a.data, b.data) {
        (
            TLData::Enum { variants: va, discriminant_repr: ra, open_info: oa },
            TLData::Enum { variants: vb, discriminant_repr: rb, open_info: ob },
        ) => {
            lemma_variants_equal(reg, va@, vb@, stack2, 0);
        },
        _ => {},
    }
    lemma_tags_equal(a.tags@, b.tags@, 0);
}

/// Lifetime elision in a function pointer's return type: with exactly
/// one lifetime bound by the function after its parameters are resolved,
/// the elided return lifetime resolves to that single lifetime, at the
/// first bound position; with none it is rejected for want of a
/// candidate, and with more than one as ambiguous.
pub proof fn lemma_return_elision(env: Seq<u64>, named: Seq<u64>, count: int)
    ensures
        count == 1 ==> spec_resolve_lts(env, named, count, true, seq![LtArg::ElidedLt])
            == Ok::<(Seq<LifetimeIndex>, int), GenerationError>(
            (seq![LifetimeIndex::Param { index: env.len() as usize }], 1int),
        ),
        count == 0 ==> spec_resolve_lts(env, named, count, true, seq![LtArg::ElidedLt])
            == Err::<(Seq<LifetimeIndex>, int), GenerationError>(
            GenerationError::ElidedReturnNoCandidate,
        ),
        count >= 2 ==> spec_resolve_lts(env, named, count, true, seq![LtArg::ElidedLt])
            == Err::<(Seq<LifetimeIndex>, int), GenerationError>(
            GenerationError::ElidedReturnAmbiguous,
        ),
{
    let s = seq![LtArg::ElidedLt];
    assert(s[0] == LtArg::ElidedLt);
    assert(s.drop_first() =~= Seq::<LtArg>::empty());
    if count == 1 {
        let li = LifetimeIndex::Param { index: env.len() as usize };
        assert(spec_setup_lt(env, named, 1, true, LtArg::ElidedLt) == Ok::<
            (LifetimeIndex, int),
            GenerationError,
        >((li, 1int)));
        assert(spec_resolve_lts(env, named, 1, true, Seq::<LtArg>::empty()) == Ok::<
            (Seq<LifetimeIndex>, int),
            GenerationError,
        >((Seq::empty(), 1int)));
        assert(seq![li] + Seq::<LifetimeIndex>::empty() =~= seq![li]);
    }
}

} // verus!
