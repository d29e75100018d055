//! The layout description model: the tree-shaped, self-contained value
//! describing one type's representation, comparable at runtime between two
//! independently compiled binaries.
//!
//! A description never owns the descriptions of the types it mentions;
//! it refers to them by index into a [`TypeRegistry`], the per-binary
//! table of descriptions, so that cyclic type graphs stay representable
//! and the compatibility check can recurse by identity.
//!
//! For an open struct (a [`TLData::Prefix`] payload) the recorded size and
//! alignment are those of the published prefix — the region holding the
//! fields guaranteed present — since fields added later live past it and
//! are reached only through their recorded offsets.

use vstd::prelude::*;

use crate::errors::GenerationError;
use crate::fn_lifetimes::{
    fns_view, spec_parts_fit, spec_process_fn, spec_visit_parts, FunctionV, TypeVisitor,
};
use crate::lifetimes::LifetimeIndex;
use crate::nonexhaustive_enum::{OpenEnumInfo, OperationsTable};
use crate::type_model::{FieldTy, FnDecl};

verus! {

/// How a type's fields are ordered and padded.
#[derive(Debug, Copy, Clone, PartialEq, Eq, Structural)]
pub enum ReprAttr {
    /// The platform's C layout.
    C,
    /// The layout of the single field.
    Transparent,
    /// The C layout with all padding removed.
    Packed,
}

/// The width and signedness of an enumeration's discriminant.
#[derive(Debug, Copy, Clone, PartialEq, Eq, Structural)]
pub enum DiscriminantRepr {
    U8,
    U16,
    U32,
    U64,
}

/// How strictly a tag mismatch is treated when two descriptions are
/// compared: not at all, as a logged-but-accepted deviation, or as a hard
/// incompatibility.
#[derive(Debug, Copy, Clone, PartialEq, Eq, Structural)]
pub enum TagStrictness {
    Ignore,
    Warn,
    Reject,
}

/// A free-form compatibility annotation attached by the type's author,
/// with its declared strictness.
#[derive(Debug, Clone, PartialEq, Eq)]
pub struct Tag {
    pub key: String,
    pub value: String,
    pub strictness: TagStrictness,
}

/// One parameter or return description of a function-pointer signature:
/// the lifetime indices it references and the registry index of its own
/// type's description.
#[derive(Debug, Clone, PartialEq, Eq)]
pub struct TLParamRet {
    pub lifetime_refs: Vec<LifetimeIndex>,
    pub type_ref: usize,
}

/// A function-pointer signature as recorded in a description. The names
/// of the lifetimes the function binds are local to the binary that
/// generated the description and are deliberately not recorded; only the
/// count and the positional indices cross the boundary.
#[derive(Debug, Clone, PartialEq, Eq)]
pub struct TLFunction {
    /// How many lifetimes the function binds.
    pub bound_lifetimes: usize,
    pub params: Vec<TLParamRet>,
    /// `None` for the unit return left unwritten.
    pub returns: Option<TLParamRet>,
}

/// One field of a struct, prefix or enum-variant payload.
#[derive(Debug, Clone, PartialEq, Eq)]
pub struct TLField {
    pub name: String,
    /// The environment lifetimes the field's type references.
    pub lifetime_refs: Vec<LifetimeIndex>,
    /// The registry index of the field's type.
    pub type_ref: usize,
    /// The field's byte offset within its type.
    pub offset: usize,
    /// Whether the field's presence depends on a capability flag of the
    /// providing binary (meaningful past an open struct's publication
    /// boundary).
    pub conditional: bool,
    /// The function-pointer signatures occurring in the field's type, in
    /// source order.
    pub functions: Vec<TLFunction>,
}

/// One variant of an enumeration payload.
#[derive(Debug, Clone, PartialEq, Eq)]
pub struct TLEnumVariant {
    pub name: String,
    /// The variant's discriminant value.
    pub discriminant: u64,
    pub fields: Vec<TLField>,
}

/// A description's payload.
#[derive(Debug, Clone, PartialEq, Eq)]
pub enum TLData {
    /// A type with no structure of its own.
    Primitive,
    /// A closed struct: its field list is exact.
    Struct { fields: Vec<TLField> },
    /// An open struct: `fields_at_publish` counts the fields guaranteed
    /// present since the earliest published version; trailing fields may
    /// have been added later, and each records whether it is conditional.
    Prefix { fields_at_publish: usize, fields: Vec<TLField> },
    /// An enumeration. `open_info` is present exactly for open
    /// enumerations, which may grow variants after publication.
    Enum {
        variants: Vec<TLEnumVariant>,
        discriminant_repr: DiscriminantRepr,
        open_info: Option<OpenEnumInfo>,
    },
    /// A bare function-pointer type.
    Function(TLFunction),
}

/// The comparable unit for one type: its name, prefix size and alignment,
/// representation attribute, payload, and tags.
#[derive(Debug, Clone, PartialEq, Eq)]
pub struct TypeLayout {
    pub name: String,
    pub size: usize,
    pub alignment: usize,
    pub repr_attr: ReprAttr,
    pub data: TLData,
    pub tags: Vec<Tag>,
}

/// One binary's table of layout descriptions. Type references inside the
/// descriptions are indices into this table.
#[derive(Debug, Clone, PartialEq, Eq)]
pub struct TypeRegistry {
    pub entries: Vec<TypeLayout>,
}

/// A size and alignment no Rust type can fail to have: a power-of-two
/// alignment and a size that is a multiple of it.
pub open spec fn spec_valid_repr(size: usize, alignment: usize) -> bool {
    &&& alignment >= 1
    &&& (alignment & ((alignment - 1) as usize)) == 0
    &&& (size as int) % (alignment as int) == 0
}

/// Whether a discriminant value fits the declared representation width.
pub open spec fn spec_discr_fits(d: u64, repr: DiscriminantRepr) -> bool {
    match repr {
        DiscriminantRepr::U8 => d <= u8::MAX,
        DiscriminantRepr::U16 => d <= u16::MAX,
        DiscriminantRepr::U32 => d <= u32::MAX,
        DiscriminantRepr::U64 => true,
    }
}

/// One field as declared: its name, its type's lifetime observations, the
/// registry index of its type, its byte offset, and whether its presence
/// is conditional on a capability.
#[derive(Debug, Clone, PartialEq, Eq)]
pub struct FieldDecl {
    pub name: String,
    pub ty: FieldTy,
    pub type_ref: usize,
    pub offset: usize,
    pub conditional: bool,
}

/// One enumeration variant as declared.
#[derive(Debug, Clone, PartialEq, Eq)]
pub struct VariantDecl {
    pub name: String,
    pub discriminant: u64,
    pub fields: Vec<FieldDecl>,
}

/// A declared payload.
#[derive(Debug, Clone, PartialEq, Eq)]
pub enum DataDecl {
    Primitive,
    Struct { fields: Vec<FieldDecl> },
    Prefix { fields_at_publish: usize, fields: Vec<FieldDecl> },
    Enum {
        variants: Vec<VariantDecl>,
        discriminant_repr: DiscriminantRepr,
        /// Present exactly when the enumeration opts into forward
        /// compatibility: the operations its table provides.
        open_ops: Option<OperationsTable>,
    },
    Function(FnDecl),
}

/// Everything description generation reads about one type.
#[derive(Debug, Clone, PartialEq, Eq)]
pub struct TypeDecl {
    pub name: String,
    /// Interned identifiers of the type's lifetime parameters, in
    /// declaration order.
    pub lifetime_params: Vec<u64>,
    pub size: usize,
    pub alignment: usize,
    pub repr_attr: ReprAttr,
    pub data: DataDecl,
    pub tags: Vec<Tag>,
}

/// The result of resolving one declared field, disregarding the value.
pub open spec fn spec_field_err(env: Seq<u64>, fd: FieldDecl) -> Result<(), GenerationError> {
    match spec_visit_parts(env, fd.ty.parts@) {
        Ok(_) => Ok(()),
        Err(e) => Err(e),
    }
}

/// The first rule violation among the declared fields, in order.
pub open spec fn spec_fields_err(env: Seq<u64>, fds: Seq<FieldDecl>) -> Result<
    (),
    GenerationError,
>
    decreases fds.len(),
{
    if fds.len() == 0 {
        Ok(())
    } else {
        match spec_field_err(env, fds[0]) {
            Err(e) => Err(e),
            Ok(_) => spec_fields_err(env, fds.drop_first()),
        }
    }
}

/// The first rule violation in one declared variant: its discriminant
/// must fit the representation width, then its fields must resolve.
pub open spec fn spec_variant_err(
    env: Seq<u64>,
    vd: VariantDecl,
    repr: DiscriminantRepr,
) -> Result<(), GenerationError> {
    if !spec_discr_fits(vd.discriminant, repr) {
        Err(GenerationError::DiscriminantOverflow)
    } else {
        spec_fields_err(env, vd.fields@)
    }
}

/// The first rule violation among the declared variants, in order.
pub open spec fn spec_variants_err(
    env: Seq<u64>,
    vds: Seq<VariantDecl>,
    repr: DiscriminantRepr,
) -> Result<(), GenerationError>
    decreases vds.len(),
{
    if vds.len() == 0 {
        Ok(())
    } else {
        match spec_variant_err(env, vds[0], repr) {
            Err(e) => Err(e),
            Ok(_) => spec_variants_err(env, vds.drop_first(), repr),
        }
    }
}

/// A well-formed publication boundary: it lies within the fields, and no
/// field at or before it is conditional.
pub open spec fn spec_prefix_wf(fields_at_publish: int, fds: Seq<FieldDecl>) -> bool {
    &&& fields_at_publish <= fds.len()
    &&& forall|j: int| 0 <= j < fields_at_publish ==> !fds[j].conditional
}

/// Pairwise-distinct tag keys.
pub open spec fn spec_tags_unique(tags: Seq<Tag>) -> bool {
    forall|i: int, j: int|
        0 <= i < j < tags.len() ==> (#[trigger] tags[i]).key@ != (#[trigger] tags[j]).key@
}

/// The first rule violation in a whole declaration: the representation
/// first, then the tags, then the payload in declaration order.
pub open spec fn spec_decl_err(decl: TypeDecl) -> Result<(), GenerationError> {
    let env = decl.lifetime_params@;
    if !spec_valid_repr(decl.size, decl.alignment) {
        Err(GenerationError::MalformedRepr)
    } else if !spec_tags_unique(decl.tags@) {
        Err(GenerationError::DuplicateTag)
    } else {
        match decl.data {
            DataDecl::Primitive => Ok(()),
            DataDecl::Struct { fields } => spec_fields_err(env, fields@),
            DataDecl::Prefix { fields_at_publish, fields } => {
                if !spec_prefix_wf(fields_at_publish as int, fields@) {
                    Err(GenerationError::MalformedPrefix)
                } else {
                    spec_fields_err(env, fields@)
                }
            },
            DataDecl::Enum { variants, discriminant_repr, open_ops } => spec_variants_err(
                env,
                variants@,
                discriminant_repr,
            ),
            DataDecl::Function(d) => match spec_process_fn(env, d) {
                Ok(_) => Ok(()),
                Err(e) => Err(e),
            },
        }
    }
}

/// The machine-size precondition for resolving one declaration.
pub open spec fn spec_decl_fits(decl: TypeDecl) -> bool {
    let el = decl.lifetime_params@.len() as int;
    match decl.data {
        DataDecl::Primitive => true,
        DataDecl::Struct { fields } => spec_fields_fit(el, fields@),
        DataDecl::Prefix { fields_at_publish, fields } => spec_fields_fit(el, fields@),
        DataDecl::Enum { variants, discriminant_repr, open_ops } => forall|v: int|
            0 <= v < variants@.len() ==> spec_fields_fit(el, #[trigger] variants@[v].fields@),
        DataDecl::Function(d) => crate::fn_lifetimes::spec_fn_lt_bound(el, d) <= usize::MAX,
    }
}

/// The machine-size precondition for a field list.
pub open spec fn spec_fields_fit(env_len: int, fds: Seq<FieldDecl>) -> bool {
    forall|j: int| 0 <= j < fds.len() ==> spec_parts_fit(env_len, #[trigger] fds[j].ty.parts@)
}

/// Whether a recorded parameter or return description is the given
/// resolved one.
pub open spec fn spec_tlparam_matches(pv: crate::fn_lifetimes::FnParamRetV, tp: TLParamRet) -> bool {
    &&& tp.lifetime_refs@ == pv.lifetime_refs
    &&& tp.type_ref as int == pv.type_ref
}

/// Whether a recorded function signature is the given resolved one, with
/// the binder's local names dropped.
pub open spec fn spec_tlfunction_matches(fv: FunctionV, tf: TLFunction) -> bool {
    &&& tf.bound_lifetimes as int == fv.named_bound_lts_count
    &&& tf.params@.len() == fv.params.len()
    &&& forall|k: int|
        0 <= k < fv.params.len() ==> spec_tlparam_matches(fv.params[k], #[trigger] tf.params@[k])
    &&& match (fv.returns, tf.returns) {
        (Some(pv), Some(tp)) => spec_tlparam_matches(pv, tp),
        (None, None) => true,
        _ => false,
    }
}

/// Whether a recorded field is what resolving the declared field yields.
pub open spec fn spec_tlfield_from(env: Seq<u64>, fd: FieldDecl, tf: TLField) -> bool {
    match spec_visit_parts(env, fd.ty.parts@) {
        Err(_) => false,
        Ok((refs, fns)) => {
            &&& tf.name@ == fd.name@
            &&& tf.type_ref == fd.type_ref
            &&& tf.offset == fd.offset
            &&& tf.conditional == fd.conditional
            &&& tf.lifetime_refs@ == refs
            &&& tf.functions@.len() == fns.len()
            &&& forall|k: int|
                0 <= k < fns.len() ==> spec_tlfunction_matches(fns[k], #[trigger] tf.functions@[k])
        },
    }
}

/// Pointwise [`spec_tlfield_from`] over whole field lists.
pub open spec fn spec_tlfields_from(env: Seq<u64>, fds: Seq<FieldDecl>, tfs: Seq<TLField>) -> bool {
    &&& tfs.len() == fds.len()
    &&& forall|j: int| 0 <= j < fds.len() ==> spec_tlfield_from(env, fds[j], #[trigger] tfs[j])
}

/// Whether a recorded tag carries the declared key, value and strictness.
pub open spec fn spec_tag_matches(a: Tag, b: Tag) -> bool {
    &&& b.key@ == a.key@
    &&& b.value@ == a.value@
    &&& b.strictness == a.strictness
}

/// Whether a recorded variant is what resolving the declared one yields.
pub open spec fn spec_variant_from(env: Seq<u64>, vd: VariantDecl, tv: TLEnumVariant) -> bool {
    &&& tv.name@ == vd.name@
    &&& tv.discriminant == vd.discriminant
    &&& spec_tlfields_from(env, vd.fields@, tv.fields@)
}

/// The relation between a declaration and the description generated from
/// it. Together with [`spec_decl_err`] this pins generation down
/// completely: every part of the description is determined by the
/// declaration.
pub open spec fn spec_generated_from(decl: TypeDecl, tl: TypeLayout) -> bool {
    let env = decl.lifetime_params@;
    &&& tl.name@ == decl.name@
    &&& tl.size == decl.size
    &&& tl.alignment == decl.alignment
    &&& tl.repr_attr == decl.repr_attr
    &&& tl.tags@.len() == decl.tags@.len()
    &&& forall|k: int|
        0 <= k < decl.tags@.len() ==> spec_tag_matches(decl.tags@[k], #[trigger] tl.tags@[k])
    &&& match (decl.data, tl.data) {
        (DataDecl::Primitive, TLData::Primitive) => true,
        (DataDecl::Struct { fields: fds }, TLData::Struct { fields: tfs }) => spec_tlfields_from(
            env,
            fds@,
            tfs@,
        ),
        (
            DataDecl::Prefix { fields_at_publish: fap, fields: fds },
            TLData::Prefix { fields_at_publish, fields: tfs },
        ) => {
            &&& fields_at_publish == fap
            &&& spec_tlfields_from(env, fds@, tfs@)
        },
        (
            DataDecl::Enum { variants: vds, discriminant_repr: dr, open_ops },
            TLData::Enum { variants: tvs, discriminant_repr, open_info },
        ) => {
            &&& discriminant_repr == dr
            &&& tvs@.len() == vds@.len()
            &&& forall|k: int|
                0 <= k < vds@.len() ==> spec_variant_from(env, vds@[k], #[trigger] tvs@[k])
            &&& match (open_ops, open_info) {
                (None, None) => true,
                (Some(ops), Some(info)) => {
                    &&& info.ops == ops
                    &&& info.known_discriminants@ == vds@.map_values(
                        |v: VariantDecl| v.discriminant,
                    )
                },
                _ => false,
            }
        },
        (DataDecl::Function(d), TLData::Function(tf)) => match spec_process_fn(env, d) {
            Ok(fv) => spec_tlfunction_matches(fv, tf),
            Err(_) => false,
        },
        _ => false,
    }
}

/// Field resolution checked up to a point carries the fold forward.
proof fn lemma_fields_err_skip(env: Seq<u64>, fds: Seq<FieldDecl>, i: int)
    requires
        0 <= i <= fds.len(),
        forall|j: int| 0 <= j < i ==> spec_field_err(env, #[trigger] fds[j]) is Ok,
    ensures
        spec_fields_err(env, fds) == spec_fields_err(env, fds.skip(i)),
    decreases i,
{
    if i == 0 {
        assert(fds.skip(0) =~= fds);
    } else {
        lemma_fields_err_skip(env, fds, i - 1);
        let pre = fds.skip(i - 1);
        assert(pre[0] == fds[i - 1]);
        assert(pre.drop_first() =~= fds.skip(i));
    }
}

/// Variant resolution checked up to a point carries the fold forward.
proof fn lemma_variants_err_skip(
    env: Seq<u64>,
    vds: Seq<VariantDecl>,
    repr: DiscriminantRepr,
    i: int,
)
    requires
        0 <= i <= vds.len(),
        forall|j: int| 0 <= j < i ==> spec_variant_err(env, #[trigger] vds[j], repr) is Ok,
    ensures
        spec_variants_err(env, vds, repr) == spec_variants_err(env, vds.skip(i), repr),
    decreases i,
{
    if i == 0 {
        assert(vds.skip(0) =~= vds);
    } else {
        lemma_variants_err_skip(env, vds, repr, i - 1);
        let pre = vds.skip(i - 1);
        assert(pre[0] == vds[i - 1]);
        assert(pre.drop_first() =~= vds.skip(i));
    }
}

/// Records a resolved function signature, dropping the binder's local
/// lifetime names.
fn convert_function(f: &crate::fn_lifetimes::Function) -> (tf: TLFunction)
    ensures
        spec_tlfunction_matches(f@, tf),
{
    let mut params: Vec<TLParamRet> = Vec::new();
    let mut k: usize = 0;
    while k < f.params.len()
        invariant
            k <= f.params@.len(),
            params@.len() == k,
            forall|j: int|
                0 <= j < k ==> spec_tlparam_matches(f@.params[j], #[trigger] params@[j]),
        decreases f.params@.len() - k,
    {
        let p = &f.params[k];
        params.push(TLParamRet { lifetime_refs: p.lifetime_refs.clone(), type_ref: p.type_ref });
        proof {
            assert(params@[k as int].lifetime_refs@ =~= f@.params[k as int].lifetime_refs);
        }
        k = k + 1;
    }
    let ret = match &f.returns {
        None => None,
        Some(p) => Some(
            TLParamRet { lifetime_refs: p.lifetime_refs.clone(), type_ref: p.type_ref },
        ),
    };
    let tf = TLFunction { bound_lifetimes: f.named_bound_lts_count, params, returns: ret };
    proof {
        match f@.returns {
            Some(pv) => {
                assert(tf.returns matches Some(tp) && tp.lifetime_refs@ =~= pv.lifetime_refs);
            },
            None => {},
        }
    }
    tf
}

/// Resolves one declared field into its recorded form.
fn build_field(env: &Vec<u64>, fd: &FieldDecl) -> (r: Result<TLField, GenerationError>)
    requires
        spec_parts_fit(env@.len() as int, fd.ty.parts@),
    ensures
        match spec_field_err(env@, *fd) {
            Ok(_) => (r matches Ok(tf) && spec_tlfield_from(env@, *fd, tf)),
            Err(e) => (r matches Err(e2) && e2 == e),
        },
{
    let mut tv = TypeVisitor::new(env.clone());
    let vfr = match tv.visit_field(&fd.ty) {
        Err(e) => {
            return Err(e);
        },
        Ok(v) => v,
    };
    let info = tv.into_fn_info();
    let ghost fns = fns_view(info.functions@);
    let mut functions: Vec<TLFunction> = Vec::new();
    let mut k: usize = 0;
    while k < info.functions.len()
        invariant
            k <= info.functions@.len(),
            functions@.len() == k,
            fns == fns_view(info.functions@),
            forall|j: int|
                0 <= j < k ==> spec_tlfunction_matches(
                    fns_view(info.functions@)[j],
                    #[trigger] functions@[j],
                ),
        decreases info.functions@.len() - k,
    {
        let tf = convert_function(&info.functions[k]);
        functions.push(tf);
        k = k + 1;
    }
    Ok(
        TLField {
            name: fd.name.clone(),
            lifetime_refs: vfr.referenced_lifetimes,
            type_ref: fd.type_ref,
            offset: fd.offset,
            conditional: fd.conditional,
            functions,
        },
    )
}

/// Resolves a whole declared field list, in order.
fn build_fields(env: &Vec<u64>, fds: &Vec<FieldDecl>) -> (r: Result<
    Vec<TLField>,
    GenerationError,
>)
    requires
        spec_fields_fit(env@.len() as int, fds@),
    ensures
        match spec_fields_err(env@, fds@) {
            Ok(_) => (r matches Ok(tfs) && spec_tlfields_from(env@, fds@, tfs@)),
            Err(e) => (r matches Err(e2) && e2 == e),
        },
{
    let mut out: Vec<TLField> = Vec::new();
    let mut i: usize = 0;
    while i < fds.len()
        invariant
            i <= fds@.len(),
            out@.len() == i,
            spec_fields_fit(env@.len() as int, fds@),
            forall|j: int| 0 <= j < i ==> spec_field_err(env@, #[trigger] fds@[j]) is Ok,
            forall|j: int| 0 <= j < i ==> spec_tlfield_from(env@, fds@[j], #[trigger] out@[j]),
        decreases fds@.len() - i,
    {
        match build_field(env, &fds[i]) {
            Err(e) => {
                proof {
                    lemma_fields_err_skip(env@, fds@, i as int);
                    assert(fds@.skip(i as int)[0] == fds@[i as int]);
                }
                return Err(e);
            },
            Ok(tf) => {
                out.push(tf);
            },
        }
        i = i + 1;
    }
    proof {
        lemma_fields_err_skip(env@, fds@, fds@.len() as int);
        assert(fds@.skip(fds@.len() as int) =~= Seq::<FieldDecl>::empty());
    }
    Ok(out)
}

/// Resolves a whole declared variant list, in order, checking each
/// discriminant against the representation width.
fn build_variants(
    env: &Vec<u64>,
    vds: &Vec<VariantDecl>,
    repr: DiscriminantRepr,
) -> (r: Result<Vec<TLEnumVariant>, GenerationError>)
    requires
        forall|v: int|
            0 <= v < vds@.len() ==> spec_fields_fit(env@.len() as int, #[trigger] vds@[v].fields@),
    ensures
        match spec_variants_err(env@, vds@, repr) {
            Ok(_) => (r matches Ok(tvs) && tvs@.len() == vds@.len() && forall|k: int|
                0 <= k < vds@.len() ==> spec_variant_from(env@, vds@[k], #[trigger] tvs@[k])),
            Err(e) => (r matches Err(e2) && e2 == e),
        },
{
    let mut out: Vec<TLEnumVariant> = Vec::new();
    let mut i: usize = 0;
    while i < vds.len()
        invariant
            i <= vds@.len(),
            out@.len() == i,
            forall|v: int|
                0 <= v < vds@.len() ==> spec_fields_fit(
                    env@.len() as int,
                    #[trigger] vds@[v].fields@,
                ),
            forall|j: int| 0 <= j < i ==> spec_variant_err(env@, #[trigger] vds@[j], repr) is Ok,
            forall|j: int| 0 <= j < i ==> spec_variant_from(env@, vds@[j], #[trigger] out@[j]),
        decreases vds@.len() - i,
    {
        let vd = &vds[i];
        let fits = match repr {
            DiscriminantRepr::U8 => vd.discriminant <= u8::MAX as u64,
            DiscriminantRepr::U16 => vd.discriminant <= u16::MAX as u64,
            DiscriminantRepr::U32 => vd.discriminant <= u32::MAX as u64,
            DiscriminantRepr::U64 => true,
        };
        if !fits {
            proof {
                lemma_variants_err_skip(env@, vds@, repr, i as int);
                assert(vds@.skip(i as int)[0] == vds@[i as int]);
            }
            return Err(GenerationError::DiscriminantOverflow);
        }
        match build_fields(env, &vd.fields) {
            Err(e) => {
                proof {
                    lemma_variants_err_skip(env@, vds@, repr, i as int);
                    assert(vds@.skip(i as int)[0] == vds@[i as int]);
                }
                return Err(e);
            },
            Ok(tfs) => {
                out.push(
                    TLEnumVariant {
                        name: vd.name.clone(),
                        discriminant: vd.discriminant,
                        fields: tfs,
                    },
                );
            },
        }
        i = i + 1;
    }
    proof {
        lemma_variants_err_skip(env@, vds@, repr, vds@.len() as int);
        assert(vds@.skip(vds@.len() as int) =~= Seq::<VariantDecl>::empty());
    }
    Ok(out)
}

/// Copies a tag, keeping its key, value and strictness.
fn clone_tag(t: &Tag) -> (r: Tag)
    ensures
        spec_tag_matches(*t, r),
{
    Tag { key: t.key.clone(), value: t.value.clone(), strictness: t.strictness }
}

/// Copies a declaration's tags into the description.
fn clone_tags(ts: &Vec<Tag>) -> (r: Vec<Tag>)
    ensures
        r@.len() == ts@.len(),
        forall|k: int| 0 <= k < ts@.len() ==> spec_tag_matches(ts@[k], #[trigger] r@[k]),
{
    let mut out: Vec<Tag> = Vec::new();
    let mut i: usize = 0;
    while i < ts.len()
        invariant
            i <= ts@.len(),
            out@.len() == i,
            forall|k: int| 0 <= k < i ==> spec_tag_matches(ts@[k], #[trigger] out@[k]),
        decreases ts@.len() - i,
    {
        out.push(clone_tag(&ts[i]));
        i = i + 1;
    }
    out
}

/// Generates the layout description of one declared type.
///
/// Generation is a function of the declaration alone: on success the
/// result satisfies [`spec_generated_from`], which pins every part of the
/// description, and it succeeds exactly when [`spec_decl_err`] reports no
/// rule violation; otherwise the first violation, in declaration order,
/// is returned. Nothing is deferred to load time.
pub fn generate(decl: &TypeDecl) -> (r: Result<TypeLayout, GenerationError>)
    requires
        spec_decl_fits(*decl),
    ensures
        match r {
            Ok(tl) => spec_decl_err(*decl) is Ok && spec_generated_from(*decl, tl),
            Err(e) => spec_decl_err(*decl) == Err::<(), GenerationError>(e),
        },
{
    let align_ok = decl.alignment >= 1 && (decl.alignment & (decl.alignment - 1)) == 0;
    let repr_ok = align_ok && decl.size % decl.alignment == 0;
    if !repr_ok {
        return Err(GenerationError::MalformedRepr);
    }
    let mut ti: usize = 0;
    while ti < decl.tags.len()
        invariant
            ti <= decl.tags@.len(),
            spec_valid_repr(decl.size, decl.alignment),
            forall|i: int, j: int|
                0 <= i < j < ti ==> (#[trigger] decl.tags@[i]).key@
                    != (#[trigger] decl.tags@[j]).key@,
        decreases decl.tags@.len() - ti,
    {
        let mut tj: usize = 0;
        while tj < ti
            invariant
                tj <= ti < decl.tags@.len(),
                spec_valid_repr(decl.size, decl.alignment),
                forall|i: int, j: int|
                    0 <= i < j < ti ==> (#[trigger] decl.tags@[i]).key@
                        != (#[trigger] decl.tags@[j]).key@,
                forall|j: int| 0 <= j < tj ==> (#[trigger] decl.tags@[j]).key@
                    != decl.tags@[ti as int].key@,
            decreases ti - tj,
        {
            if decl.tags[tj].key == decl.tags[ti].key {
                proof {
                    assert(decl.tags@[tj as int].key@ == decl.tags@[ti as int].key@);
                    assert(!spec_tags_unique(decl.tags@));
                }
                return Err(GenerationError::DuplicateTag);
            }
            tj = tj + 1;
        }
        ti = ti + 1;
    }
    let data: TLData = match &decl.data {
        DataDecl::Primitive => TLData::Primitive,
        DataDecl::Struct { fields } => {
            match build_fields(&decl.lifetime_params, fields) {
                Err(e) => {
                    return Err(e);
                },
                Ok(tfs) => TLData::Struct { fields: tfs },
            }
        },
        DataDecl::Prefix { fields_at_publish, fields } => {
            if *fields_at_publish > fields.len() {
                return Err(GenerationError::MalformedPrefix);
            }
            let mut j: usize = 0;
            let mut boundary_ok = true;
            while j < *fields_at_publish
                invariant
                    j <= *fields_at_publish,
                    *fields_at_publish <= fields@.len(),
                    boundary_ok == (forall|k: int| 0 <= k < j ==> !fields@[k].conditional),
                decreases *fields_at_publish - j,
            {
                if fields[j].conditional {
                    boundary_ok = false;
                }
                j = j + 1;
            }
            if !boundary_ok {
                return Err(GenerationError::MalformedPrefix);
            }
            match build_fields(&decl.lifetime_params, fields) {
                Err(e) => {
                    return Err(e);
                },
                Ok(tfs) => TLData::Prefix { fields_at_publish: *fields_at_publish, fields: tfs },
            }
        },
        DataDecl::Enum { variants, discriminant_repr, open_ops } => {
            match build_variants(&decl.lifetime_params, variants, *discriminant_repr) {
                Err(e) => {
                    return Err(e);
                },
                Ok(tvs) => {
                    let open_info: Option<OpenEnumInfo> = match open_ops {
                        None => None,
                        Some(ops) => {
                            let mut known: Vec<u64> = Vec::new();
                            let mut v: usize = 0;
                            while v < variants.len()
                                invariant
                                    v <= variants@.len(),
                                    known@.len() == v,
                                    forall|k: int|
                                        0 <= k < v ==> known@[k] == variants@[k].discriminant,
                                decreases variants@.len() - v,
                            {
                                known.push(variants[v].discriminant);
                                v = v + 1;
                            }
                            proof {
                                assert(known@ =~= variants@.map_values(
                                    |vd: VariantDecl| vd.discriminant,
                                ));
                            }
                            Some(OpenEnumInfo { known_discriminants: known, ops: *ops })
                        },
                    };
                    TLData::Enum {
                        variants: tvs,
                        discriminant_repr: *discriminant_repr,
                        open_info,
                    }
                },
            }
        },
        DataDecl::Function(d) => {
            match crate::fn_lifetimes::process_bare_fn_pub(&decl.lifetime_params, d) {
                Err(e) => {
                    return Err(e);
                },
                Ok(func) => TLData::Function(convert_function(&func)),
            }
        },
    };
    Ok(
        TypeLayout {
            name: decl.name.clone(),
            size: decl.size,
            alignment: decl.alignment,
            repr_attr: decl.repr_attr,
            data,
            tags: clone_tags(&decl.tags),
        },
    )
}

/// Structural equality of recorded parameter descriptions.
pub open spec fn spec_param_eq(a: TLParamRet, b: TLParamRet) -> bool {
    &&& a.lifetime_refs@ == b.lifetime_refs@
    &&& a.type_ref == b.type_ref
}

/// Structural equality of recorded function signatures.
pub open spec fn spec_function_eq(a: TLFunction, b: TLFunction) -> bool {
    &&& a.bound_lifetimes == b.bound_lifetimes
    &&& a.params@.len() == b.params@.len()
    &&& forall|k: int|
        0 <= k < a.params@.len() ==> spec_param_eq(#[trigger] a.params@[k], b.params@[k])
    &&& match (a.returns, b.returns) {
        (Some(x), Some(y)) => spec_param_eq(x, y),
        (None, None) => true,
        _ => false,
    }
}

/// Structural equality of recorded fields.
pub open spec fn spec_field_eq(a: TLField, b: TLField) -> bool {
    &&& a.name@ == b.name@
    &&& a.lifetime_refs@ == b.lifetime_refs@
    &&& a.type_ref == b.type_ref
    &&& a.offset == b.offset
    &&& a.conditional == b.conditional
    &&& a.functions@.len() == b.functions@.len()
    &&& forall|k: int|
        0 <= k < a.functions@.len() ==> spec_function_eq(#[trigger] a.functions@[k], b.functions@[k])
}

/// Structural equality of recorded field lists.
pub open spec fn spec_fields_eq(a: Seq<TLField>, b: Seq<TLField>) -> bool {
    &&& a.len() == b.len()
    &&& forall|k: int| 0 <= k < a.len() ==> spec_field_eq(#[trigger] a[k], b[k])
}

/// Structural equality of recorded variants.
pub open spec fn spec_variant_eq(a: TLEnumVariant, b: TLEnumVariant) -> bool {
    &&& a.name@ == b.name@
    &&& a.discriminant == b.discriminant
    &&& spec_fields_eq(a.fields@, b.fields@)
}

/// Structural equality of tags.
pub open spec fn spec_tag_eq(a: Tag, b: Tag) -> bool {
    &&& a.key@ == b.key@
    &&& a.value@ == b.value@
    &&& a.strictness == b.strictness
}

/// Structural equality of payloads.
pub open spec fn spec_data_eq(a: TLData, b: TLData) -> bool {
    match (a, b) {
        (TLData::Primitive, TLData::Primitive) => true,
        (TLData::Struct { fields: fa }, TLData::Struct { fields: fb }) => spec_fields_eq(
            fa@,
            fb@,
        ),
        (
            TLData::Prefix { fields_at_publish: pa, fields: fa },
            TLData::Prefix { fields_at_publish: pb, fields: fb },
        ) => pa == pb && spec_fields_eq(fa@, fb@),
        (
            TLData::Enum { variants: va, discriminant_repr: ra, open_info: oa },
            TLData::Enum { variants: vb, discriminant_repr: rb, open_info: ob },
        ) => {
            &&& ra == rb
            &&& va@.len() == vb@.len()
            &&& forall|k: int|
                0 <= k < va@.len() ==> spec_variant_eq(#[trigger] va@[k], vb@[k])
            &&& match (oa, ob) {
                (Some(x), Some(y)) => x.ops == y.ops && x.known_discriminants@
                    == y.known_discriminants@,
                (None, None) => true,
                _ => false,
            }
        },
        (TLData::Function(x), TLData::Function(y)) => spec_function_eq(x, y),
        _ => false,
    }
}

/// Structural equality of whole descriptions: what "the same description"
/// means between two independently generated copies.
pub open spec fn spec_layout_eq(a: TypeLayout, b: TypeLayout) -> bool {
    &&& a.name@ == b.name@
    &&& a.size == b.size
    &&& a.alignment == b.alignment
    &&& a.repr_attr == b.repr_attr
    &&& spec_data_eq(a.data, b.data)
    &&& a.tags@.len() == b.tags@.len()
    &&& forall|k: int| 0 <= k < a.tags@.len() ==> spec_tag_eq(#[trigger] a.tags@[k], b.tags@[k])
}

/// Generation is deterministic: two descriptions generated from identical
/// declarations are structurally equal, whichever binary generated them.
pub proof fn lemma_generation_deterministic(decl: TypeDecl, tl1: TypeLayout, tl2: TypeLayout)
    requires
        spec_generated_from(decl, tl1),
        spec_generated_from(decl, tl2),
    ensures
        spec_layout_eq(tl1, tl2),
{
    let env = decl.lifetime_params@;
    match (decl.data, tl1.data, tl2.data) {
        (
            DataDecl::Struct { fields: fds },
            TLData::Struct { fields: fa },
            TLData::Struct { fields: fb },
        ) => {
            lemma_fields_from_eq(env, fds@, fa@, fb@);
        },
        (
            DataDecl::Prefix { fields_at_publish: fap, fields: fds },
            TLData::Prefix { fields_at_publish: pa, fields: fa },
            TLData::Prefix { fields_at_publish: pb, fields: fb },
        ) => {
            lemma_fields_from_eq(env, fds@, fa@, fb@);
        },
        (
            DataDecl::Enum { variants: vds, discriminant_repr: dr, open_ops },
            TLData::Enum { variants: va, discriminant_repr: ra, open_info: oa },
            TLData::Enum { variants: vb, discriminant_repr: rb, open_info: ob },
        ) => {
            assert forall|k: int| 0 <= k < va@.len() implies spec_variant_eq(
                #[trigger] va@[k],
                vb@[k],
            ) by {
                assert(spec_variant_from(env, vds@[k], va@[k]));
                assert(spec_variant_from(env, vds@[k], vb@[k]));
                lemma_fields_from_eq(env, vds@[k].fields@, va@[k].fields@, vb@[k].fields@);
            }
        },
        (DataDecl::Function(d), TLData::Function(x), TLData::Function(y)) => {
            match spec_process_fn(env, d) {
                Ok(fv) => {
                    lemma_function_from_eq(fv, x, y);
                },
                Err(_) => {},
            }
        },
        _ => {},
    }
}

/// Two recorded signatures of one resolved function are equal.
proof fn lemma_function_from_eq(fv: FunctionV, x: TLFunction, y: TLFunction)
    requires
        spec_tlfunction_matches(fv, x),
        spec_tlfunction_matches(fv, y),
    ensures
        spec_function_eq(x, y),
{
    assert forall|k: int| 0 <= k < x.params@.len() implies spec_param_eq(
        #[trigger] x.params@[k],
        y.params@[k],
    ) by {
        assert(spec_tlparam_matches(fv.params[k], x.params@[k]));
        assert(spec_tlparam_matches(fv.params[k], y.params@[k]));
    }
}

/// Two recorded forms of one resolved field list are equal.
proof fn lemma_fields_from_eq(env: Seq<u64>, fds: Seq<FieldDecl>, a: Seq<TLField>, b: Seq<
    TLField,
>)
    requires
        spec_tlfields_from(env, fds, a),
        spec_tlfields_from(env, fds, b),
    ensures
        spec_fields_eq(a, b),
{
    assert forall|k: int| 0 <= k < a.len() implies spec_field_eq(#[trigger] a[k], b[k]) by {
        assert(spec_tlfield_from(env, fds[k], a[k]));
        assert(spec_tlfield_from(env, fds[k], b[k]));
        match spec_visit_parts(env, fds[k].ty.parts@) {
            Ok((refs, fns)) => {
                assert forall|q: int| 0 <= q < a[k].functions@.len() implies spec_function_eq(
                    #[trigger] a[k].functions@[q],
                    b[k].functions@[q],
                ) by {
                    lemma_function_from_eq(fns[q], a[k].functions@[q], b[k].functions@[q]);
                }
            },
            Err(_) => {},
        }
    }
}

/// The position of the first description with the given name, or `-1`.
pub open spec fn spec_find_entry(entries: Seq<TypeLayout>, name: Seq<char>) -> int
    decreases entries.len(),
{
    if entries.len() == 0 {
        -1
    } else if entries[0].name@ == name {
        0
    } else {
        let rest = spec_find_entry(entries.drop_first(), name);
        if rest < 0 {
            -1
        } else {
            1 + rest
        }
    }
}

/// A named position is the first one exactly when nothing before it
/// carries the name.
proof fn lemma_find_entry_unique(entries: Seq<TypeLayout>, name: Seq<char>, p: int)
    requires
        0 <= p < entries.len(),
        entries[p].name@ == name,
        forall|j: int| 0 <= j < p ==> (#[trigger] entries[j]).name@ != name,
    ensures
        spec_find_entry(entries, name) == p,
    decreases entries.len(),
{
    if p == 0 {
    } else {
        assert(entries.drop_first()[p - 1] == entries[p]);
        assert forall|j: int| 0 <= j < p - 1 implies (#[trigger] entries.drop_first()[j]).name@
            != name by {
            assert(entries.drop_first()[j] == entries[j + 1]);
        }
        lemma_find_entry_unique(entries.drop_first(), name, p - 1);
    }
}

/// An absent name is found nowhere.
proof fn lemma_find_entry_absent(entries: Seq<TypeLayout>, name: Seq<char>)
    requires
        forall|j: int| 0 <= j < entries.len() ==> (#[trigger] entries[j]).name@ != name,
    ensures
        spec_find_entry(entries, name) == -1,
    decreases entries.len(),
{
    if entries.len() == 0 {
    } else {
        assert forall|j: int| 0 <= j < entries.drop_first().len() implies (#[trigger] entries.drop_first()[j]).name@
            != name by {
            assert(entries.drop_first()[j] == entries[j + 1]);
        }
        lemma_find_entry_absent(entries.drop_first(), name);
    }
}

impl TypeRegistry {
    /// Looks an exported type's description up by its stable name, the
    /// lookup key the module boundary relies on.
    pub fn find(&self, name: &String) -> (r: Option<usize>)
        ensures
            match r {
                Some(i) => spec_find_entry(self.entries@, name@) == i,
                None => spec_find_entry(self.entries@, name@) == -1,
            },
    {
        let mut i: usize = 0;
        while i < self.entries.len()
            invariant
                i <= self.entries@.len(),
                forall|j: int| 0 <= j < i ==> (#[trigger] self.entries@[j]).name@ != name@,
            decreases self.entries@.len() - i,
        {
            if self.entries[i].name == *name {
                proof {
                    lemma_find_entry_unique(self.entries@, name@, i as int);
                }
                return Some(i);
            }
            i = i + 1;
        }
        proof {
            lemma_find_entry_absent(self.entries@, name@);
        }
        None
    }
}

} // verus!
