//! The load-time compatibility check.
//!
//! `check` structurally compares two layout descriptions of one nominal
//! type: the one the loading binary expects and the one the loaded binary
//! provides, each self-contained in its own [`TypeRegistry`]. It is pure
//! and recursive over referenced types, with cycle protection: a pair of
//! type identities reached again while already under comparison is
//! treated as compatible, deferring to the outer comparison. It yields
//! success or an [`Incompatibility`] carrying the path of field and
//! variant names from the root and a reason code.
//!
//! The comparison never repairs anything: name, size, alignment and
//! representation mismatches are terminal. Extra trailing fields in the
//! provided description are accepted only for open structs, extra
//! variants only for open enumerations. Function signatures must match in
//! shape: parameter counts, referenced types, and the relative structure
//! of their lifetime indices — not the absolute positions, which may
//! legitimately differ between the two binaries. Tags are checked last,
//! and only those whose declared strictness rejects deviations can fail
//! the comparison.

use vstd::prelude::*;

use crate::lifetimes::LifetimeIndex;
use crate::type_layout::{
    TLData, TLEnumVariant, TLField, TLFunction, TLParamRet, Tag, TagStrictness, TypeLayout,
    TypeRegistry,
};

verus! {

/// Why two descriptions were found incompatible.
#[derive(Debug, Copy, Clone, PartialEq, Eq, Structural)]
pub enum IncompatReason {
    /// A referenced type's description is missing from its registry.
    MissingTypeReference,
    NameMismatch,
    SizeMismatch,
    AlignmentMismatch,
    ReprMismatch,
    /// The payloads are of different kinds altogether.
    PayloadKindMismatch,
    /// A closed struct's field counts differ.
    FieldCountMismatch,
    FieldNameMismatch,
    FieldOffsetMismatch,
    /// The relative structure of lifetime indices differs.
    LifetimeShapeMismatch,
    /// The number of function signatures in a field differs.
    FunctionCountMismatch,
    ParamCountMismatch,
    /// One signature has a recorded return type, the other does not.
    ReturnMismatch,
    /// The publication boundaries of two open structs differ.
    FieldsAtPublishMismatch,
    /// A field the expecting binary requires is absent from the provided
    /// description.
    MissingField,
    DiscriminantReprMismatch,
    /// One description marks the enumeration open, the other does not.
    OpennessMismatch,
    /// The provided operations table lacks a capability the expecting
    /// side requires.
    MissingCapability,
    VariantNameMismatch,
    DiscriminantMismatch,
    /// The provided enumeration lacks a variant the expecting side knows.
    MissingVariant,
    /// The provided enumeration has extra variants though the type is not
    /// marked open.
    ExtraVariant,
    /// A tag whose strictness rejects deviations differs or is absent.
    TagMismatch,
}

/// A reported, load-time-detected structural mismatch: the path of field
/// and variant names descending from the root type, and the reason.
#[derive(Debug, Clone, PartialEq, Eq)]
pub struct Incompatibility {
    pub path: Vec<String>,
    pub reason: IncompatReason,
}

/// The view of a reported path: the sequence of name character sequences.
pub open spec fn path_view(p: Vec<String>) -> Seq<Seq<char>> {
    p@.map_values(|s: String| s@)
}

/// The specification-level form of an incompatibility.
pub ghost struct IncompatV {
    pub path: Seq<Seq<char>>,
    pub reason: IncompatReason,
}

impl View for Incompatibility {
    type V = IncompatV;

    open spec fn view(&self) -> IncompatV {
        IncompatV { path: path_view(self.path), reason: self.reason }
    }
}

/// Two lifetime-index lists have the same relative structure: the same
/// length, the unbounded lifetime in the same places, and the same
/// equality pattern among positions — though the absolute parameter
/// indices may differ.
pub open spec fn lt_shape_eq(a: Seq<LifetimeIndex>, b: Seq<LifetimeIndex>) -> bool {
    &&& a.len() == b.len()
    &&& forall|i: int| 0 <= i < a.len() ==> ((#[trigger] a[i]) is Static <==> b[i] is Static)
    &&& forall|i: int, j: int|
        0 <= i < a.len() && 0 <= j < a.len() ==> ((#[trigger] a[i] == #[trigger] a[j]) <==> (b[i]
            == b[j]))
}

/// The codes of the pairs currently under comparison, for the
/// termination measure.
pub open spec fn stack_codes(stack: Seq<(usize, usize)>, m: int) -> Set<int> {
    stack.map_values(|p: (usize, usize)| (p.0 as int) * m + (p.1 as int)).to_set()
}

/// Every pair on the stack indexes into the two registries.
pub open spec fn stack_wf(stack: Seq<(usize, usize)>, n: int, m: int) -> bool {
    forall|k: int|
        0 <= k < stack.len() ==> ((#[trigger] stack[k]).0 < n && stack[k].1 < m)
}

/// How many pairs of type identities comparison can still visit: the
/// pairs of registry indices not currently on the stack.
pub open spec fn check_measure(n: int, m: int, stack: Seq<(usize, usize)>) -> nat {
    vstd::set_lib::set_int_range(0, n * m).difference(stack_codes(stack, m)).len()
}

/// Pushing a fresh in-bounds pair strictly shrinks the measure.
pub proof fn lemma_measure_decreases(n: int, m: int, stack: Seq<(usize, usize)>, e: usize, f: usize)
    requires
        stack_wf(stack, n, m),
        (e as int) < n,
        (f as int) < m,
        !stack.contains((e, f)),
    ensures
        check_measure(n, m, stack.push((e, f))) < check_measure(n, m, stack),
{
    broadcast use vstd::set::group_set_axioms;
    broadcast use vstd::seq_lib::group_seq_properties;

    let code = (e as int) * m + (f as int);
    let enc = |p: (usize, usize)| (p.0 as int) * m + (p.1 as int);
    assert(0 <= (e as int) * m + (f as int) < n * m) by (nonlinear_arith)
        requires
            0 <= (e as int) < n,
            0 <= (f as int) < m;
    let range = vstd::set_lib::set_int_range(0, n * m);
    vstd::set_lib::lemma_int_range(0, n * m);
    let codes = stack_codes(stack, m);
    let codes2 = stack_codes(stack.push((e, f)), m);
    // the mapped sequence of the pushed stack is the mapped sequence plus the code
    assert(stack.push((e, f)).map_values(enc) =~= stack.map_values(enc).push(code));
    assert(codes2 =~= codes.insert(code)) by {
        assert forall|x: int| codes2.contains(x) implies codes.insert(code).contains(x) by {
            let s2 = stack.push((e, f)).map_values(enc);
            assert(s2.contains(x));
            let k = choose|k: int| 0 <= k < s2.len() && s2[k] == x;
            if k < stack.len() {
                assert(stack.map_values(enc)[k] == x);
                assert(stack.map_values(enc).contains(x));
            } else {
                assert(x == code);
            }
        }
        assert forall|x: int| codes.insert(code).contains(x) implies codes2.contains(x) by {
            let s2 = stack.push((e, f)).map_values(enc);
            if x == code {
                assert(s2[stack.len() as int] == code);
                assert(s2.contains(x));
            } else {
                assert(stack.map_values(enc).contains(x));
                let k = choose|k: int|
                    0 <= k < stack.map_values(enc).len() && stack.map_values(enc)[k] == x;
                assert(s2[k] == x);
                assert(s2.contains(x));
            }
        }
    }
    // the code of a fresh pair is not among the stack's codes
    assert(!codes.contains(code)) by {
        if codes.contains(code) {
            let s = stack.map_values(enc);
            assert(s.contains(code));
            let k = choose|k: int| 0 <= k < s.len() && s[k] == code;
            let p = stack[k];
            assert((p.0 as int) * m + (p.1 as int) == code);
            assert(p.0 == e && p.1 == f) by (nonlinear_arith)
                requires
                    0 <= (p.0 as int) < n,
                    0 <= (p.1 as int) < m,
                    0 <= (e as int) < n,
                    0 <= (f as int) < m,
                    (p.0 as int) * m + (p.1 as int) == (e as int) * m + (f as int);
            assert(stack.contains((e, f)));
        }
    }
    // the stack's codes form a finite set
    assert(stack.map_values(enc).to_set().finite()) by {
        vstd::seq_lib::seq_to_set_is_finite::<int>(stack.map_values(enc));
    }
    assert(range.difference(codes2) =~= range.difference(codes).remove(code));
    assert(range.difference(codes).contains(code));
    assert(range.difference(codes).finite());
    assert(range.difference(codes).remove(code).len() == range.difference(codes).len() - 1);
}

/// An incompatibility at the current level, with an empty path.
pub open spec fn root_err(reason: IncompatReason) -> Result<(), IncompatV> {
    Err(IncompatV { path: Seq::empty(), reason })
}

/// An incompatibility below the named field or variant.
pub open spec fn named_err(name: Seq<char>, reason: IncompatReason) -> Result<(), IncompatV> {
    Err(IncompatV { path: seq![name], reason })
}

/// Prefixes a nested result's path with the name it was reached through.
pub open spec fn spec_prepend(name: Seq<char>, r: Result<(), IncompatV>) -> Result<
    (),
    IncompatV,
> {
    match r {
        Ok(_) => Ok(()),
        Err(iv) => Err(IncompatV { path: seq![name] + iv.path, reason: iv.reason }),
    }
}

/// All lifetime indices a recorded parameter list references, in order.
pub open spec fn tl_params_refs(ps: Seq<TLParamRet>) -> Seq<LifetimeIndex>
    decreases ps.len(),
{
    if ps.len() == 0 {
        Seq::empty()
    } else {
        ps[0].lifetime_refs@ + tl_params_refs(ps.drop_first())
    }
}

/// All lifetime indices a recorded signature references: parameters in
/// order, then the return.
pub open spec fn tl_fn_refs(x: TLFunction) -> Seq<LifetimeIndex> {
    tl_params_refs(x.params@) + (match x.returns {
        Some(r) => r.lifetime_refs@,
        None => Seq::empty(),
    })
}

/// Pointwise equality of the lifetime-reference counts of two parameter
/// lists, so that their concatenated shapes align parameter by parameter.
pub open spec fn param_lens_eq(x: TLFunction, y: TLFunction) -> bool {
    &&& forall|k: int|
        0 <= k < x.params@.len() ==> (#[trigger] x.params@[k]).lifetime_refs@.len()
            == y.params@[k].lifetime_refs@.len()
    &&& match (x.returns, y.returns) {
        (Some(rx), Some(ry)) => rx.lifetime_refs@.len() == ry.lifetime_refs@.len(),
        _ => true,
    }
}

/// The position of the first tag with the given key, or `-1`.
pub open spec fn spec_find_tag(tb: Seq<Tag>, key: Seq<char>) -> int
    decreases tb.len(),
{
    if tb.len() == 0 {
        -1
    } else if tb[0].key@ == key {
        0
    } else {
        let rest = spec_find_tag(tb.drop_first(), key);
        if rest < 0 {
            -1
        } else {
            1 + rest
        }
    }
}

/// Compares tags, last of all: only a tag whose declared strictness
/// rejects deviations can fail the comparison; one that warns is a
/// logged-but-accepted deviation, which the host may surface, and one
/// that ignores is skipped.
pub open spec fn spec_check_tags(ta: Seq<Tag>, tb: Seq<Tag>, i: int) -> Result<(), IncompatV>
    decreases ta.len() - i,
{
    if i < 0 || i >= ta.len() {
        Ok(())
    } else {
        let t = ta[i];
        if t.strictness == TagStrictness::Reject {
            let j = spec_find_tag(tb, t.key@);
            if j < 0 {
                root_err(IncompatReason::TagMismatch)
            } else if tb[j].value@ != t.value@ {
                root_err(IncompatReason::TagMismatch)
            } else {
                spec_check_tags(ta, tb, i + 1)
            }
        } else {
            spec_check_tags(ta, tb, i + 1)
        }
    }
}

/// The comparison of one expected field against the provided field at
/// the same position, apart from the referenced types.
pub open spec fn field_local_err(x: TLField, y: TLField) -> Result<(), IncompatV> {
    if x.name@ != y.name@ {
        named_err(x.name@, IncompatReason::FieldNameMismatch)
    } else if x.offset != y.offset {
        named_err(x.name@, IncompatReason::FieldOffsetMismatch)
    } else if !lt_shape_eq(x.lifetime_refs@, y.lifetime_refs@) {
        named_err(x.name@, IncompatReason::LifetimeShapeMismatch)
    } else if x.functions@.len() != y.functions@.len() {
        named_err(x.name@, IncompatReason::FunctionCountMismatch)
    } else {
        Ok(())
    }
}

/// Compares the descriptions the expected signature's parameters and
/// return reference, recursively by type identity.
pub open spec fn spec_check_fn_params(
    er: TypeRegistry,
    fr: TypeRegistry,
    xs: Seq<TLParamRet>,
    ys: Seq<TLParamRet>,
    stack: Seq<(usize, usize)>,
    i: int,
) -> Result<(), IncompatV>
    decreases
            check_measure(er.entries@.len() as int, fr.entries@.len() as int, stack),
            1nat,
            xs.len() - i,
{
    if i < 0 || i >= xs.len() || xs.len() != ys.len() {
        Ok(())
    } else {
        match spec_check_entry(er, fr, xs[i].type_ref, ys[i].type_ref, stack) {
            Err(iv) => Err(iv),
            Ok(_) => spec_check_fn_params(er, fr, xs, ys, stack, i + 1),
        }
    }
}

/// Compares two recorded function signatures: parameter and return lists
/// must match in count, referenced-type compatibility, and lifetime-index
/// shape — the same relative structure, not identical absolute indices.
pub open spec fn spec_check_function(
    er: TypeRegistry,
    fr: TypeRegistry,
    x: TLFunction,
    y: TLFunction,
    stack: Seq<(usize, usize)>,
) -> Result<(), IncompatV>
    decreases
            check_measure(er.entries@.len() as int, fr.entries@.len() as int, stack),
            2nat,
            0nat,
{
    if x.params@.len() != y.params@.len() {
        root_err(IncompatReason::ParamCountMismatch)
    } else if !(match (x.returns, y.returns) {
        (Some(_), Some(_)) => true,
        (None, None) => true,
        _ => false,
    }) {
        root_err(IncompatReason::ReturnMismatch)
    } else if !param_lens_eq(x, y) || !lt_shape_eq(tl_fn_refs(x), tl_fn_refs(y)) {
        root_err(IncompatReason::LifetimeShapeMismatch)
    } else {
        match spec_check_fn_params(er, fr, x.params@, y.params@, stack, 0) {
            Err(iv) => Err(iv),
            Ok(_) => match (x.returns, y.returns) {
                (Some(rx), Some(ry)) => spec_check_entry(er, fr, rx.type_ref, ry.type_ref, stack),
                _ => Ok(()),
            },
        }
    }
}

/// Compares the function signatures of one field pair, in order.
pub open spec fn spec_check_field_fns(
    er: TypeRegistry,
    fr: TypeRegistry,
    xs: Seq<TLFunction>,
    ys: Seq<TLFunction>,
    stack: Seq<(usize, usize)>,
    i: int,
) -> Result<(), IncompatV>
    decreases
            check_measure(er.entries@.len() as int, fr.entries@.len() as int, stack),
            3nat,
            xs.len() - i,
{
    if i < 0 || i >= xs.len() || xs.len() != ys.len() {
        Ok(())
    } else {
        match spec_check_function(er, fr, xs[i], ys[i], stack) {
            Err(iv) => Err(iv),
            Ok(_) => spec_check_field_fns(er, fr, xs, ys, stack, i + 1),
        }
    }
}

/// Compares one matched field pair in full: the local comparison, the
/// field's function signatures, and the referenced types.
pub open spec fn spec_check_field_pair(
    er: TypeRegistry,
    fr: TypeRegistry,
    x: TLField,
    y: TLField,
    stack: Seq<(usize, usize)>,
) -> Result<(), IncompatV>
    decreases
            check_measure(er.entries@.len() as int, fr.entries@.len() as int, stack),
            4nat,
            0nat,
{
    match field_local_err(x, y) {
        Err(iv) => Err(iv),
        Ok(_) => match spec_prepend(
            x.name@,
            spec_check_field_fns(er, fr, x.functions@, y.functions@, stack, 0),
        ) {
            Err(iv) => Err(iv),
            Ok(_) => spec_prepend(
                x.name@,
                spec_check_entry(er, fr, x.type_ref, y.type_ref, stack),
            ),
        },
    }
}

/// Compares a closed struct's fields position by position; the caller has
/// already established that the counts agree.
pub open spec fn spec_check_fields(
    er: TypeRegistry,
    fr: TypeRegistry,
    fa: Seq<TLField>,
    fb: Seq<TLField>,
    stack: Seq<(usize, usize)>,
    i: int,
) -> Result<(), IncompatV>
    decreases
            check_measure(er.entries@.len() as int, fr.entries@.len() as int, stack),
            5nat,
            fa.len() - i,
{
    if i < 0 || i >= fa.len() || fa.len() != fb.len() {
        Ok(())
    } else {
        match spec_check_field_pair(er, fr, fa[i], fb[i], stack) {
            Err(iv) => Err(iv),
            Ok(_) => spec_check_fields(er, fr, fa, fb, stack, i + 1),
        }
    }
}

/// Compares an open struct's fields: every field the expected side knows
/// must be matched where the provided description has it; a field past
/// the provided description's end is acceptable only if it is marked
/// conditional, and the provided side's extra trailing fields are
/// compatible by definition.
pub open spec fn spec_check_prefix_fields(
    er: TypeRegistry,
    fr: TypeRegistry,
    fa: Seq<TLField>,
    fb: Seq<TLField>,
    stack: Seq<(usize, usize)>,
    i: int,
) -> Result<(), IncompatV>
    decreases
            check_measure(er.entries@.len() as int, fr.entries@.len() as int, stack),
            5nat,
            fa.len() - i,
{
    if i < 0 || i >= fa.len() {
        Ok(())
    } else if i >= fb.len() {
        if fa[i].conditional {
            spec_check_prefix_fields(er, fr, fa, fb, stack, i + 1)
        } else {
            named_err(fa[i].name@, IncompatReason::MissingField)
        }
    } else {
        match spec_check_field_pair(er, fr, fa[i], fb[i], stack) {
            Err(iv) => Err(iv),
            Ok(_) => spec_check_prefix_fields(er, fr, fa, fb, stack, i + 1),
        }
    }
}

/// Compares enumeration variants position by position: every variant the
/// expected side knows must be reproduced identically, discriminant
/// included.
pub open spec fn spec_check_variants(
    er: TypeRegistry,
    fr: TypeRegistry,
    va: Seq<TLEnumVariant>,
    vb: Seq<TLEnumVariant>,
    stack: Seq<(usize, usize)>,
    i: int,
) -> Result<(), IncompatV>
    decreases
            check_measure(er.entries@.len() as int, fr.entries@.len() as int, stack),
            6nat,
            va.len() - i,
{
    if i < 0 || i >= va.len() {
        Ok(())
    } else if i >= vb.len() {
        named_err(va[i].name@, IncompatReason::MissingVariant)
    } else {
        let x = va[i];
        let y = vb[i];
        if x.name@ != y.name@ {
            named_err(x.name@, IncompatReason::VariantNameMismatch)
        } else if x.discriminant != y.discriminant {
            named_err(x.name@, IncompatReason::DiscriminantMismatch)
        } else if x.fields@.len() != y.fields@.len() {
            named_err(x.name@, IncompatReason::FieldCountMismatch)
        } else {
            match spec_prepend(
                x.name@,
                spec_check_fields(er, fr, x.fields@, y.fields@, stack, 0),
            ) {
                Err(iv) => Err(iv),
                Ok(_) => spec_check_variants(er, fr, va, vb, stack, i + 1),
            }
        }
    }
}

/// Compares the descriptions at two registry indices: a pair already
/// under comparison is compatible by cycle protection; then the
/// identity-level attributes, the payloads, and last the tags.
pub open spec fn spec_check_entry(
    er: TypeRegistry,
    fr: TypeRegistry,
    e: usize,
    f: usize,
    stack: Seq<(usize, usize)>,
) -> Result<(), IncompatV>
    decreases
            check_measure(er.entries@.len() as int, fr.entries@.len() as int, stack),
            0nat,
            0nat,
        when stack_wf(stack, er.entries@.len() as int, fr.entries@.len() as int)
        via spec_check_entry_decreases
{
    if stack.contains((e, f)) {
        Ok(())
    } else if !(e < er.entries@.len() && f < fr.entries@.len()) {
        root_err(IncompatReason::MissingTypeReference)
    } else {
        let a = er.entries@[e as int];
        let b = fr.entries@[f as int];
        if a.name@ != b.name@ {
            root_err(IncompatReason::NameMismatch)
        } else if a.size != b.size {
            root_err(IncompatReason::SizeMismatch)
        } else if a.alignment != b.alignment {
            root_err(IncompatReason::AlignmentMismatch)
        } else if a.repr_attr != b.repr_attr {
            root_err(IncompatReason::ReprMismatch)
        } else {
            let stack2 = stack.push((e, f));
            let payload = match (a.data, b.data) {
                (TLData::Primitive, TLData::Primitive) => Ok(()),
                (TLData::Struct { fields: fa }, TLData::Struct { fields: fb }) => {
                    if fa@.len() != fb@.len() {
                        root_err(IncompatReason::FieldCountMismatch)
                    } else {
                        spec_check_fields(er, fr, fa@, fb@, stack2, 0)
                    }
                },
                (
                    TLData::Prefix { fields_at_publish: pa, fields: fa },
                    TLData::Prefix { fields_at_publish: pb, fields: fb },
                ) => {
                    if pa != pb {
                        root_err(IncompatReason::FieldsAtPublishMismatch)
                    } else {
                        spec_check_prefix_fields(er, fr, fa@, fb@, stack2, 0)
                    }
                },
                (
                    TLData::Enum { variants: va, discriminant_repr: ra, open_info: oa },
                    TLData::Enum { variants: vb, discriminant_repr: rb, open_info: ob },
                ) => {
                    if ra != rb {
                        root_err(IncompatReason::DiscriminantReprMismatch)
                    } else {
                        match (oa, ob) {
                            (None, None) => {
                                if vb@.len() > va@.len() {
                                    root_err(IncompatReason::ExtraVariant)
                                } else {
                                    spec_check_variants(er, fr, va@, vb@, stack2, 0)
                                }
                            },
                            (Some(ia), Some(ib)) => {
                                if !(forall|op: crate::nonexhaustive_enum::EnumOp|
                                    ia.ops.spec_supports(op) ==> ib.ops.spec_supports(op)) {
                                    root_err(IncompatReason::MissingCapability)
                                } else {
                                    spec_check_variants(er, fr, va@, vb@, stack2, 0)
                                }
                            },
                            _ => root_err(IncompatReason::OpennessMismatch),
                        }
                    }
                },
                (TLData::Function(x), TLData::Function(y)) => spec_check_function(
                    er,
                    fr,
                    x,
                    y,
                    stack2,
                ),
                _ => root_err(IncompatReason::PayloadKindMismatch),
            };
            match payload {
                Err(iv) => Err(iv),
                Ok(_) => spec_check_tags(a.tags@, b.tags@, 0),
            }
        }
    }
}

#[via_fn]
proof fn spec_check_entry_decreases(
    er: TypeRegistry,
    fr: TypeRegistry,
    e: usize,
    f: usize,
    stack: Seq<(usize, usize)>,
) {
    let n = er.entries@.len() as int;
    let m = fr.entries@.len() as int;
    if !stack.contains((e, f)) && e < er.entries@.len() && f < fr.entries@.len() {
        lemma_measure_decreases(n, m, stack, e, f);
    }
}

/// Whether an executable outcome is the specified one.
pub open spec fn rr_matches(r: Result<(), Incompatibility>, s: Result<(), IncompatV>) -> bool {
    match (r, s) {
        (Ok(_), Ok(_)) => true,
        (Err(x), Err(iv)) => x@ == iv,
        _ => false,
    }
}

/// Decides whether two lifetime-index lists have the same relative
/// structure.
fn lt_shape_eq_exec(a: &Vec<LifetimeIndex>, b: &Vec<LifetimeIndex>) -> (r: bool)
    ensures
        r == lt_shape_eq(a@, b@),
{
    if a.len() != b.len() {
        return false;
    }
    let mut i: usize = 0;
    while i < a.len()
        invariant
            i <= a@.len(),
            a@.len() == b@.len(),
            forall|p: int| 0 <= p < i ==> ((#[trigger] a@[p]) is Static <==> b@[p] is Static),
        decreases a@.len() - i,
    {
        let sa = match a[i] {
            LifetimeIndex::Static => true,
            LifetimeIndex::Param { .. } => false,
        };
        let sb = match b[i] {
            LifetimeIndex::Static => true,
            LifetimeIndex::Param { .. } => false,
        };
        if sa != sb {
            return false;
        }
        i = i + 1;
    }
    let mut p: usize = 0;
    while p < a.len()
        invariant
            p <= a@.len(),
            a@.len() == b@.len(),
            forall|x: int| 0 <= x < a@.len() ==> ((#[trigger] a@[x]) is Static <==> b@[x] is Static),
            forall|x: int, y: int|
                0 <= x < p && 0 <= y < a@.len() ==> ((#[trigger] a@[x] == #[trigger] a@[y]) <==> (
                b@[x] == b@[y])),
        decreases a@.len() - p,
    {
        let mut q: usize = 0;
        while q < a.len()
            invariant
                p < a@.len(),
                q <= a@.len(),
                a@.len() == b@.len(),
                forall|x: int, y: int|
                    0 <= x < p && 0 <= y < a@.len() ==> ((#[trigger] a@[x] == #[trigger] a@[y])
                        <==> (b@[x] == b@[y])),
                forall|y: int|
                    0 <= y < q ==> ((a@[p as int] == #[trigger] a@[y]) <==> (b@[p as int]
                        == b@[y])),
            decreases a@.len() - q,
        {
            let ea = lt_eq(&a[p], &a[q]);
            let eb = lt_eq(&b[p], &b[q]);
            if ea != eb {
                return false;
            }
            q = q + 1;
        }
        p = p + 1;
    }
    true
}

/// Decides equality of two lifetime indices.
fn lt_eq(a: &LifetimeIndex, b: &LifetimeIndex) -> (r: bool)
    ensures
        r == (a == b),
{
    match (a, b) {
        (LifetimeIndex::Static, LifetimeIndex::Static) => true,
        (LifetimeIndex::Param { index: x }, LifetimeIndex::Param { index: y }) => *x == *y,
        _ => false,
    }
}

/// `spec_find_tag` finds exactly the first tag with the key.
pub proof fn lemma_find_tag(tb: Seq<Tag>, key: Seq<char>)
    ensures
        spec_find_tag(tb, key) == -1 <==> (forall|j: int|
            0 <= j < tb.len() ==> (#[trigger] tb[j]).key@ != key),
        spec_find_tag(tb, key) >= 0 ==> {
            &&& spec_find_tag(tb, key) < tb.len()
            &&& tb[spec_find_tag(tb, key)].key@ == key
            &&& forall|j: int| 0 <= j < spec_find_tag(tb, key) ==> (#[trigger] tb[j]).key@ != key
        },
    decreases tb.len(),
{
    if tb.len() == 0 {
    } else if tb[0].key@ == key {
    } else {
        lemma_find_tag(tb.drop_first(), key);
        let rest = spec_find_tag(tb.drop_first(), key);
        if rest < 0 {
            assert forall|j: int| 0 <= j < tb.len() implies (#[trigger] tb[j]).key@ != key by {
                if j > 0 {
                    assert(tb[j] == tb.drop_first()[j - 1]);
                }
            }
        } else {
            assert(tb.drop_first()[rest] == tb[rest + 1]);
            assert forall|j: int| 0 <= j < rest + 1 implies (#[trigger] tb[j]).key@ != key by {
                if j > 0 {
                    assert(tb[j] == tb.drop_first()[j - 1]);
                }
            }
        }
    }
}

/// A first match by key is the one `spec_find_tag` returns.
pub proof fn lemma_find_tag_unique(tb: Seq<Tag>, key: Seq<char>, p: int)
    requires
        0 <= p < tb.len(),
        tb[p].key@ == key,
        forall|j: int| 0 <= j < p ==> (#[trigger] tb[j]).key@ != key,
    ensures
        spec_find_tag(tb, key) == p,
    decreases tb.len(),
{
    if p == 0 {
    } else {
        assert(tb.drop_first()[p - 1] == tb[p]);
        assert forall|j: int| 0 <= j < p - 1 implies (#[trigger] tb.drop_first()[j]).key@
            != key by {
            assert(tb.drop_first()[j] == tb[j + 1]);
        }
        lemma_find_tag_unique(tb.drop_first(), key, p - 1);
    }
}

/// Finds the first tag with the given key.
fn find_tag<'a>(tb: &'a Vec<Tag>, key: &String) -> (r: Option<usize>)
    ensures
        match r {
            Some(j) => spec_find_tag(tb@, key@) == j,
            None => spec_find_tag(tb@, key@) == -1,
        },
{
    let mut j: usize = 0;
    while j < tb.len()
        invariant
            j <= tb@.len(),
            forall|k: int| 0 <= k < j ==> (#[trigger] tb@[k]).key@ != key@,
        decreases tb@.len() - j,
    {
        if tb[j].key == *key {
            proof {
                lemma_find_tag_unique(tb@, key@, j as int);
            }
            return Some(j);
        }
        j = j + 1;
    }
    proof {
        lemma_find_tag(tb@, key@);
    }
    None
}

/// Compares tags, last of all.
fn check_tags(ta: &Vec<Tag>, tb: &Vec<Tag>) -> (r: Result<(), Incompatibility>)
    ensures
        rr_matches(r, spec_check_tags(ta@, tb@, 0)),
{
    let mut i: usize = 0;
    while i < ta.len()
        invariant
            i <= ta@.len(),
            spec_check_tags(ta@, tb@, 0) == spec_check_tags(ta@, tb@, i as int),
        decreases ta@.len() - i,
    {
        let t = &ta[i];
        let is_reject = match t.strictness {
            TagStrictness::Reject => true,
            _ => false,
        };
        if is_reject {
            match find_tag(tb, &t.key) {
                None => {
                    let out: Vec<String> = Vec::new();
                    proof {
                        assert(path_view(out) =~= Seq::<Seq<char>>::empty());
                    }
                    return Err(
                        Incompatibility { path: out, reason: IncompatReason::TagMismatch },
                    );
                },
                Some(j) => {
                    proof {
                        lemma_find_tag(tb@, t.key@);
                    }
                    if !(tb[j].value == t.value) {
                        let out: Vec<String> = Vec::new();
                        proof {
                            assert(path_view(out) =~= Seq::<Seq<char>>::empty());
                        }
                        return Err(
                            Incompatibility { path: out, reason: IncompatReason::TagMismatch },
                        );
                    }
                },
            }
        }
        i = i + 1;
    }
    Ok(())
}

/// Concatenation distributes through collecting a recorded parameter
/// list's lifetime references.
proof fn lemma_tl_params_refs_add(a: Seq<TLParamRet>, b: Seq<TLParamRet>)
    ensures
        tl_params_refs(a + b) == tl_params_refs(a) + tl_params_refs(b),
    decreases a.len(),
{
    if a.len() == 0 {
        assert(a + b =~= b);
        assert(tl_params_refs(a) + tl_params_refs(b) =~= tl_params_refs(b));
    } else {
        assert((a + b).drop_first() =~= a.drop_first() + b);
        lemma_tl_params_refs_add(a.drop_first(), b);
        assert((a + b)[0] == a[0]);
        assert(a[0].lifetime_refs@ + (tl_params_refs(a.drop_first()) + tl_params_refs(b)) =~= (
        a[0].lifetime_refs@ + tl_params_refs(a.drop_first())) + tl_params_refs(b));
    }
}

/// Collects all lifetime indices a recorded signature references.
fn concat_fn_refs(x: &TLFunction) -> (v: Vec<LifetimeIndex>)
    ensures
        v@ == tl_fn_refs(*x),
{
    let mut v: Vec<LifetimeIndex> = Vec::new();
    let mut k: usize = 0;
    proof {
        assert(x.params@.take(0) =~= Seq::<TLParamRet>::empty());
        assert(v@ =~= tl_params_refs(x.params@.take(0)));
    }
    while k < x.params.len()
        invariant
            k <= x.params@.len(),
            v@ == tl_params_refs(x.params@.take(k as int)),
        decreases x.params@.len() - k,
    {
        proof {
            assert(x.params@.take(k as int + 1) =~= x.params@.take(k as int) + seq![
                x.params@[k as int],
            ]);
            lemma_tl_params_refs_add(x.params@.take(k as int), seq![x.params@[k as int]]);
            assert(seq![x.params@[k as int]].drop_first() =~= Seq::<TLParamRet>::empty());
            assert(tl_params_refs(seq![x.params@[k as int]]) =~= x.params@[k as int].lifetime_refs@
                + tl_params_refs(Seq::<TLParamRet>::empty()));
            assert(x.params@[k as int].lifetime_refs@ + Seq::<LifetimeIndex>::empty()
                =~= x.params@[k as int].lifetime_refs@);
        }
        let mut tmp = x.params[k].lifetime_refs.clone();
        v.append(&mut tmp);
        k = k + 1;
    }
    proof {
        assert(x.params@.take(x.params@.len() as int) =~= x.params@);
    }
    match &x.returns {
        None => {
            proof {
                assert(tl_fn_refs(*x) =~= tl_params_refs(x.params@));
            }
        },
        Some(r) => {
            let mut tmp = r.lifetime_refs.clone();
            v.append(&mut tmp);
        },
    }
    v
}

/// Prefixes a reported path with the name it was reached through.
fn prepend_name(name: &String, inc: Incompatibility) -> (r: Incompatibility)
    ensures
        r@.path == seq![name@] + inc@.path,
        r@.reason == inc@.reason,
{
    let mut out = inc;
    let ghost before = out.path@;
    out.path.insert(0, name.clone());
    proof {
        assert(out.path@ =~= before.insert(0, out.path@[0]));
        assert(path_view(out.path) =~= seq![name@] + inc@.path);
    }
    out
}

/// A path holding one name.
fn named_path(name: &String) -> (v: Vec<String>)
    ensures
        path_view(v) == seq![name@],
{
    let mut v: Vec<String> = Vec::new();
    v.push(name.clone());
    proof {
        assert(path_view(v) =~= seq![name@]);
    }
    v
}

/// An incompatibility at the current level.
fn root_incompat(reason: IncompatReason) -> (r: Incompatibility)
    ensures
        r@ == (IncompatV { path: Seq::empty(), reason }),
{
    let v: Vec<String> = Vec::new();
    proof {
        assert(path_view(v) =~= Seq::<Seq<char>>::empty());
    }
    Incompatibility { path: v, reason }
}

/// Decides pointwise equality of the lifetime-reference counts.
fn param_lens_eq_exec(x: &TLFunction, y: &TLFunction) -> (r: bool)
    requires
        x.params@.len() == y.params@.len(),
    ensures
        r == param_lens_eq(*x, *y),
{
    let mut k: usize = 0;
    while k < x.params.len()
        invariant
            k <= x.params@.len(),
            x.params@.len() == y.params@.len(),
            forall|j: int|
                0 <= j < k ==> (#[trigger] x.params@[j]).lifetime_refs@.len()
                    == y.params@[j].lifetime_refs@.len(),
        decreases x.params@.len() - k,
    {
        if x.params[k].lifetime_refs.len() != y.params[k].lifetime_refs.len() {
            return false;
        }
        k = k + 1;
    }
    match (&x.returns, &y.returns) {
        (Some(rx), Some(ry)) => rx.lifetime_refs.len() == ry.lifetime_refs.len(),
        _ => true,
    }
}

/// Compares two recorded function signatures.
fn check_function(
    er: &TypeRegistry,
    fr: &TypeRegistry,
    x: &TLFunction,
    y: &TLFunction,
    stack: &mut Vec<(usize, usize)>,
) -> (r: Result<(), Incompatibility>)
    requires
        stack_wf(old(stack)@, er.entries@.len() as int, fr.entries@.len() as int),
    ensures
        final(stack)@ == old(stack)@,
        rr_matches(r, spec_check_function(*er, *fr, *x, *y, old(stack)@)),
    decreases
            check_measure(er.entries@.len() as int, fr.entries@.len() as int, old(stack)@),
            2nat,
            0nat,
{
    if x.params.len() != y.params.len() {
        return Err(root_incompat(IncompatReason::ParamCountMismatch));
    }
    let rets_match = match (&x.returns, &y.returns) {
        (Some(_), Some(_)) => true,
        (None, None) => true,
        _ => false,
    };
    if !rets_match {
        return Err(root_incompat(IncompatReason::ReturnMismatch));
    }
    if !param_lens_eq_exec(x, y) {
        return Err(root_incompat(IncompatReason::LifetimeShapeMismatch));
    }
    let xr = concat_fn_refs(x);
    let yr = concat_fn_refs(y);
    if !lt_shape_eq_exec(&xr, &yr) {
        return Err(root_incompat(IncompatReason::LifetimeShapeMismatch));
    }
    let mut i: usize = 0;
    while i < x.params.len()
        invariant
            i <= x.params@.len(),
            x.params@.len() == y.params@.len(),
            (match (x.returns, y.returns) {
                (Some(_), Some(_)) => true,
                (None, None) => true,
                _ => false,
            }),
            param_lens_eq(*x, *y),
            lt_shape_eq(tl_fn_refs(*x), tl_fn_refs(*y)),
            stack@ == old(stack)@,
            stack_wf(stack@, er.entries@.len() as int, fr.entries@.len() as int),
            spec_check_fn_params(*er, *fr, x.params@, y.params@, old(stack)@, 0)
                == spec_check_fn_params(*er, *fr, x.params@, y.params@, old(stack)@, i as int),
        decreases x.params@.len() - i,
    {
        match check_entry(er, fr, x.params[i].type_ref, y.params[i].type_ref, stack) {
            Err(e) => {
                return Err(e);
            },
            Ok(_) => {},
        }
        i = i + 1;
    }
    match (&x.returns, &y.returns) {
        (Some(rx), Some(ry)) => check_entry(er, fr, rx.type_ref, ry.type_ref, stack),
        _ => Ok(()),
    }
}

/// Compares the function signatures of one field pair.
fn check_field_fns(
    er: &TypeRegistry,
    fr: &TypeRegistry,
    xs: &Vec<TLFunction>,
    ys: &Vec<TLFunction>,
    stack: &mut Vec<(usize, usize)>,
) -> (r: Result<(), Incompatibility>)
    requires
        stack_wf(old(stack)@, er.entries@.len() as int, fr.entries@.len() as int),
        xs@.len() == ys@.len(),
    ensures
        final(stack)@ == old(stack)@,
        rr_matches(r, spec_check_field_fns(*er, *fr, xs@, ys@, old(stack)@, 0)),
    decreases
            check_measure(er.entries@.len() as int, fr.entries@.len() as int, old(stack)@),
            3nat,
            0nat,
{
    let mut i: usize = 0;
    while i < xs.len()
        invariant
            i <= xs@.len(),
            xs@.len() == ys@.len(),
            stack@ == old(stack)@,
            stack_wf(stack@, er.entries@.len() as int, fr.entries@.len() as int),
            spec_check_field_fns(*er, *fr, xs@, ys@, old(stack)@, 0) == spec_check_field_fns(
                *er,
                *fr,
                xs@,
                ys@,
                old(stack)@,
                i as int,
            ),
        decreases xs@.len() - i,
    {
        match check_function(er, fr, &xs[i], &ys[i], stack) {
            Err(e) => {
                return Err(e);
            },
            Ok(_) => {},
        }
        i = i + 1;
    }
    Ok(())
}

/// Compares one matched field pair in full.
fn check_field_pair(
    er: &TypeRegistry,
    fr: &TypeRegistry,
    x: &TLField,
    y: &TLField,
    stack: &mut Vec<(usize, usize)>,
) -> (r: Result<(), Incompatibility>)
    requires
        stack_wf(old(stack)@, er.entries@.len() as int, fr.entries@.len() as int),
    ensures
        final(stack)@ == old(stack)@,
        rr_matches(r, spec_check_field_pair(*er, *fr, *x, *y, old(stack)@)),
    decreases
            check_measure(er.entries@.len() as int, fr.entries@.len() as int, old(stack)@),
            4nat,
            0nat,
{
    if !(x.name == y.name) {
        return Err(Incompatibility {
            path: named_path(&x.name),
            reason: IncompatReason::FieldNameMismatch,
        });
    }
    if x.offset != y.offset {
        return Err(Incompatibility {
            path: named_path(&x.name),
            reason: IncompatReason::FieldOffsetMismatch,
        });
    }
    if !lt_shape_eq_exec(&x.lifetime_refs, &y.lifetime_refs) {
        return Err(Incompatibility {
            path: named_path(&x.name),
            reason: IncompatReason::LifetimeShapeMismatch,
        });
    }
    if x.functions.len() != y.functions.len() {
        return Err(Incompatibility {
            path: named_path(&x.name),
            reason: IncompatReason::FunctionCountMismatch,
        });
    }
    match check_field_fns(er, fr, &x.functions, &y.functions, stack) {
        Err(e) => {
            return Err(prepend_name(&x.name, e));
        },
        Ok(_) => {},
    }
    match check_entry(er, fr, x.type_ref, y.type_ref, stack) {
        Err(e) => Err(prepend_name(&x.name, e)),
        Ok(_) => Ok(()),
    }
}

/// Compares a closed struct's fields position by position.
fn check_fields(
    er: &TypeRegistry,
    fr: &TypeRegistry,
    fa: &Vec<TLField>,
    fb: &Vec<TLField>,
    stack: &mut Vec<(usize, usize)>,
) -> (r: Result<(), Incompatibility>)
    requires
        stack_wf(old(stack)@, er.entries@.len() as int, fr.entries@.len() as int),
        fa@.len() == fb@.len(),
    ensures
        final(stack)@ == old(stack)@,
        rr_matches(r, spec_check_fields(*er, *fr, fa@, fb@, old(stack)@, 0)),
    decreases
            check_measure(er.entries@.len() as int, fr.entries@.len() as int, old(stack)@),
            5nat,
            0nat,
{
    let mut i: usize = 0;
    while i < fa.len()
        invariant
            i <= fa@.len(),
            fa@.len() == fb@.len(),
            stack@ == old(stack)@,
            stack_wf(stack@, er.entries@.len() as int, fr.entries@.len() as int),
            spec_check_fields(*er, *fr, fa@, fb@, old(stack)@, 0) == spec_check_fields(
                *er,
                *fr,
                fa@,
                fb@,
                old(stack)@,
                i as int,
            ),
        decreases fa@.len() - i,
    {
        match check_field_pair(er, fr, &fa[i], &fb[i], stack) {
            Err(e) => {
                return Err(e);
            },
            Ok(_) => {},
        }
        i = i + 1;
    }
    Ok(())
}

/// Compares an open struct's fields.
fn check_prefix_fields(
    er: &TypeRegistry,
    fr: &TypeRegistry,
    fa: &Vec<TLField>,
    fb: &Vec<TLField>,
    stack: &mut Vec<(usize, usize)>,
) -> (r: Result<(), Incompatibility>)
    requires
        stack_wf(old(stack)@, er.entries@.len() as int, fr.entries@.len() as int),
    ensures
        final(stack)@ == old(stack)@,
        rr_matches(r, spec_check_prefix_fields(*er, *fr, fa@, fb@, old(stack)@, 0)),
    decreases
            check_measure(er.entries@.len() as int, fr.entries@.len() as int, old(stack)@),
            5nat,
            0nat,
{
    let mut i: usize = 0;
    while i < fa.len()
        invariant
            i <= fa@.len(),
            stack@ == old(stack)@,
            stack_wf(stack@, er.entries@.len() as int, fr.entries@.len() as int),
            spec_check_prefix_fields(*er, *fr, fa@, fb@, old(stack)@, 0)
                == spec_check_prefix_fields(*er, *fr, fa@, fb@, old(stack)@, i as int),
        decreases fa@.len() - i,
    {
        if i >= fb.len() {
            if !fa[i].conditional {
                return Err(Incompatibility {
                    path: named_path(&fa[i].name),
                    reason: IncompatReason::MissingField,
                });
            }
        } else {
            match check_field_pair(er, fr, &fa[i], &fb[i], stack) {
                Err(e) => {
                    return Err(e);
                },
                Ok(_) => {},
            }
        }
        i = i + 1;
    }
    Ok(())
}

/// Compares enumeration variants position by position.
fn check_variants(
    er: &TypeRegistry,
    fr: &TypeRegistry,
    va: &Vec<TLEnumVariant>,
    vb: &Vec<TLEnumVariant>,
    stack: &mut Vec<(usize, usize)>,
) -> (r: Result<(), Incompatibility>)
    requires
        stack_wf(old(stack)@, er.entries@.len() as int, fr.entries@.len() as int),
    ensures
        final(stack)@ == old(stack)@,
        rr_matches(r, spec_check_variants(*er, *fr, va@, vb@, old(stack)@, 0)),
    decreases
            check_measure(er.entries@.len() as int, fr.entries@.len() as int, old(stack)@),
            6nat,
            0nat,
{
    let mut i: usize = 0;
    while i < va.len()
        invariant
            i <= va@.len(),
            stack@ == old(stack)@,
            stack_wf(stack@, er.entries@.len() as int, fr.entries@.len() as int),
            spec_check_variants(*er, *fr, va@, vb@, old(stack)@, 0) == spec_check_variants(
                *er,
                *fr,
                va@,
                vb@,
                old(stack)@,
                i as int,
            ),
        decreases va@.len() - i,
    {
        if i >= vb.len() {
            return Err(Incompatibility {
                path: named_path(&va[i].name),
                reason: IncompatReason::MissingVariant,
            });
        }
        let x = &va[i];
        let y = &vb[i];
        if !(x.name == y.name) {
            return Err(Incompatibility {
                path: named_path(&x.name),
                reason: IncompatReason::VariantNameMismatch,
            });
        }
        if x.discriminant != y.discriminant {
            return Err(Incompatibility {
                path: named_path(&x.name),
                reason: IncompatReason::DiscriminantMismatch,
            });
        }
        if x.fields.len() != y.fields.len() {
            return Err(Incompatibility {
                path: named_path(&x.name),
                reason: IncompatReason::FieldCountMismatch,
            });
        }
        match check_fields(er, fr, &x.fields, &y.fields, stack) {
            Err(e) => {
                return Err(prepend_name(&x.name, e));
            },
            Ok(_) => {},
        }
        i = i + 1;
    }
    Ok(())
}

/// Compares the descriptions at two registry indices, with the pairs
/// already under comparison treated as compatible.
fn check_entry(
    er: &TypeRegistry,
    fr: &TypeRegistry,
    e: usize,
    f: usize,
    stack: &mut Vec<(usize, usize)>,
) -> (r: Result<(), Incompatibility>)
    requires
        stack_wf(old(stack)@, er.entries@.len() as int, fr.entries@.len() as int),
    ensures
        final(stack)@ == old(stack)@,
        rr_matches(r, spec_check_entry(*er, *fr, e, f, old(stack)@)),
    decreases
            check_measure(er.entries@.len() as int, fr.entries@.len() as int, old(stack)@),
            0nat,
            0nat,
{
    let ghost n = er.entries@.len() as int;
    let ghost m = fr.entries@.len() as int;
    let mut k: usize = 0;
    while k < stack.len()
        invariant
            k <= stack@.len(),
            stack@ == old(stack)@,
            stack_wf(stack@, er.entries@.len() as int, fr.entries@.len() as int),
            forall|j: int| 0 <= j < k ==> stack@[j] != (e, f),
        decreases stack@.len() - k,
    {
        if stack[k].0 == e && stack[k].1 == f {
            proof {
                assert(stack@.contains((e, f)));
            }
            return Ok(());
        }
        k = k + 1;
    }
    proof {
        assert(!stack@.contains((e, f)));
    }
    if !(e < er.entries.len() && f < fr.entries.len()) {
        return Err(root_incompat(IncompatReason::MissingTypeReference));
    }
    let a = &er.entries[e];
    let b = &fr.entries[f];
    if !(a.name == b.name) {
        return Err(root_incompat(IncompatReason::NameMismatch));
    }
    if a.size != b.size {
        return Err(root_incompat(IncompatReason::SizeMismatch));
    }
    if a.alignment != b.alignment {
        return Err(root_incompat(IncompatReason::AlignmentMismatch));
    }
    if !(a.repr_attr == b.repr_attr) {
        return Err(root_incompat(IncompatReason::ReprMismatch));
    }
    proof {
        lemma_measure_decreases(n, m, old(stack)@, e, f);
    }
    stack.push((e, f));
    let ghost stack2 = stack@;
    proof {
        assert(stack2 == old(stack)@.push((e, f)));
        assert(stack_wf(stack2, n, m));
    }
    let payload_r: Result<(), Incompatibility> = match (&a.data, &b.data) {
        (TLData::Primitive, TLData::Primitive) => Ok(()),
        (TLData::Struct { fields: fa }, TLData::Struct { fields: fb }) => {
            if fa.len() != fb.len() {
                Err(root_incompat(IncompatReason::FieldCountMismatch))
            } else {
                check_fields(er, fr, fa, fb, stack)
            }
        },
        (
            TLData::Prefix { fields_at_publish: pa, fields: fa },
            TLData::Prefix { fields_at_publish: pb, fields: fb },
        ) => {
            if *pa != *pb {
                Err(root_incompat(IncompatReason::FieldsAtPublishMismatch))
            } else {
                check_prefix_fields(er, fr, fa, fb, stack)
            }
        },
        (
            TLData::Enum { variants: va, discriminant_repr: ra, open_info: oa },
            TLData::Enum { variants: vb, discriminant_repr: rb, open_info: ob },
        ) => {
            if !(*ra == *rb) {
                Err(root_incompat(IncompatReason::DiscriminantReprMismatch))
            } else {
                match (oa, ob) {
                    (None, None) => {
                        if vb.len() > va.len() {
                            Err(root_incompat(IncompatReason::ExtraVariant))
                        } else {
                            check_variants(er, fr, va, vb, stack)
                        }
                    },
                    (Some(ia), Some(ib)) => {
                        if !ia.ops.is_subset_of(&ib.ops) {
                            Err(root_incompat(IncompatReason::MissingCapability))
                        } else {
                            check_variants(er, fr, va, vb, stack)
                        }
                    },
                    _ => Err(root_incompat(IncompatReason::OpennessMismatch)),
                }
            }
        },
        (TLData::Function(x), TLData::Function(y)) => check_function(er, fr, x, y, stack),
        _ => Err(root_incompat(IncompatReason::PayloadKindMismatch)),
    };
    let popped = stack.pop();
    proof {
        assert(stack@ =~= old(stack)@);
    }
    match payload_r {
        Err(x) => Err(x),
        Ok(_) => check_tags(&a.tags, &b.tags),
    }
}

/// The specified outcome of the whole comparison of two descriptions.
pub open spec fn spec_check(
    er: TypeRegistry,
    fr: TypeRegistry,
    e: usize,
    f: usize,
) -> Result<(), IncompatV> {
    spec_check_entry(er, fr, e, f, Seq::empty())
}

/// Structurally compares the description the loading binary expects at
/// `expected_root` with the one the loaded binary provides at
/// `found_root`, and yields success or a detailed incompatibility. Pure
/// and side-effect free; recursion over referenced types is protected
/// against cycles by an in-progress set local to the call.
pub fn check(
    expected: &TypeRegistry,
    expected_root: usize,
    found: &TypeRegistry,
    found_root: usize,
) -> (r: Result<(), Incompatibility>)
    ensures
        rr_matches(r, spec_check(*expected, *found, expected_root, found_root)),
{
    let mut stack: Vec<(usize, usize)> = Vec::new();
    proof {
        assert(stack_wf(stack@, expected.entries@.len() as int, found.entries@.len() as int));
        assert(stack@ =~= Seq::<(usize, usize)>::empty());
    }
    check_entry(expected, found, expected_root, found_root, &mut stack)
}

/// The outcome of checking a whole list of exported items, pair by pair:
/// the first incompatibility, or success.
pub open spec fn spec_check_items(
    er: TypeRegistry,
    fr: TypeRegistry,
    pairs: Seq<(usize, usize)>,
    i: int,
) -> Result<(), IncompatV>
    decreases pairs.len() - i,
{
    if i < 0 || i >= pairs.len() {
        Ok(())
    } else {
        match spec_check(er, fr, pairs[i].0, pairs[i].1) {
            Err(iv) => Err(iv),
            Ok(_) => spec_check_items(er, fr, pairs, i + 1),
        }
    }
}

/// What a loader runs once per exported item before exposing any of a
/// module's functions: compares the expected and provided descriptions of
/// every listed root pair, and reports the first incompatibility. The
/// host decides whether to abort the whole load or reject only the
/// incompatible items; nothing is ever silently substituted.
pub fn check_items(
    expected: &TypeRegistry,
    found: &TypeRegistry,
    pairs: &Vec<(usize, usize)>,
) -> (r: Result<(), Incompatibility>)
    ensures
        rr_matches(r, spec_check_items(*expected, *found, pairs@, 0)),
{
    let mut i: usize = 0;
    while i < pairs.len()
        invariant
            i <= pairs@.len(),
            spec_check_items(*expected, *found, pairs@, 0) == spec_check_items(
                *expected,
                *found,
                pairs@,
                i as int,
            ),
        decreases pairs@.len() - i,
    {
        match check(expected, pairs[i].0, found, pairs[i].1) {
            Err(e) => {
                return Err(e);
            },
            Ok(_) => {},
        }
        i = i + 1;
    }
    Ok(())
}

} // verus!
