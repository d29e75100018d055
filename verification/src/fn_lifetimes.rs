//! Resolution of lifetime occurrences at description-generation time.
//!
//! Every lifetime appearing in a field or in a function pointer's
//! parameter/return types is assigned a stable positional
//! [`LifetimeIndex`], relative to the ordered lifetime parameters of the
//! enclosing type followed by those bound by the function pointer itself,
//! so that two independently generated descriptions of equivalent
//! declarations agree. Elided lifetimes inside a function pointer's
//! parameters introduce fresh bound lifetimes; an elided lifetime in the
//! return position resolves to the function's single bound lifetime or is
//! rejected as ambiguous. Every rule violation is reported here, at
//! generation time, never deferred to load time.

use vstd::prelude::*;

use crate::errors::GenerationError;
use crate::lifetimes::LifetimeIndex;
use crate::type_model::{FieldTyPart, FieldTy, FnDecl, LtArg, ParamTy};

verus! {

/// Whether a resolved parameter or return description belongs to the
/// parameter list or to the return position of its function.
#[derive(Debug, Copy, Clone, PartialEq, Eq, Structural)]
pub enum ParamOrReturn {
    Param,
    Return,
}

/// The position of the first occurrence of `x` in `s`, or `-1` if absent.
pub open spec fn spec_position_of(s: Seq<u64>, x: u64) -> int
    decreases s.len(),
{
    if s.len() == 0 {
        -1
    } else if s[0] == x {
        0
    } else {
        let rest = spec_position_of(s.drop_first(), x);
        if rest < 0 {
            -1
        } else {
            1 + rest
        }
    }
}

/// `spec_position_of` finds exactly the first occurrence.
pub proof fn lemma_position_of(s: Seq<u64>, x: u64)
    ensures
        spec_position_of(s, x) == -1 <==> !s.contains(x),
        spec_position_of(s, x) >= 0 ==> {
            &&& spec_position_of(s, x) < s.len()
            &&& s[spec_position_of(s, x)] == x
            &&& forall|j: int| 0 <= j < spec_position_of(s, x) ==> s[j] != x
        },
    decreases s.len(),
{
    if s.len() == 0 {
    } else if s[0] == x {
    } else {
        lemma_position_of(s.drop_first(), x);
        assert(s.contains(x) ==> s.drop_first().contains(x)) by {
            if s.contains(x) {
                let i = choose|i: int| 0 <= i < s.len() && s[i] == x;
                assert(s.drop_first()[i - 1] == x);
            }
        }
        if spec_position_of(s.drop_first(), x) >= 0 {
            let p = spec_position_of(s.drop_first(), x);
            assert(s.drop_first()[p] == s[p + 1]);
            assert(s.drop_first().contains(s.drop_first()[p]));
            assert forall|j: int| 0 <= j < p + 1 implies s[j] != x by {
                if 0 < j {
                    assert(s[j] == s.drop_first()[j - 1]);
                }
            }
        }
    }
}

/// A position that holds `x` after only values other than `x` is the one
/// `spec_position_of` returns.
pub proof fn lemma_position_of_unique(s: Seq<u64>, x: u64, p: int)
    requires
        0 <= p < s.len(),
        s[p] == x,
        forall|j: int| 0 <= j < p ==> s[j] != x,
    ensures
        spec_position_of(s, x) == p,
    decreases s.len(),
{
    if p == 0 {
    } else {
        assert(s.drop_first()[p - 1] == x);
        assert forall|j: int| 0 <= j < p - 1 implies s.drop_first()[j] != x by {
            assert(s.drop_first()[j] == s[j + 1]);
        }
        lemma_position_of_unique(s.drop_first(), x, p - 1);
    }
}

/// Resolves one lifetime occurrence in a field, outside any function
/// pointer: the unbounded lifetime stands for itself, a named lifetime
/// must be a parameter of the enclosing type, and elision is not allowed
/// here.
pub open spec fn spec_resolve_field_lt(env: Seq<u64>, arg: LtArg) -> Result<
    LifetimeIndex,
    GenerationError,
> {
    match arg {
        LtArg::StaticLt => Ok(LifetimeIndex::Static),
        LtArg::NamedLt { name } => {
            let p = spec_position_of(env, name);
            if p < 0 {
                Err(GenerationError::UnknownLifetime { name })
            } else {
                Ok(LifetimeIndex::Param { index: p as usize })
            }
        },
        LtArg::ElidedLt => Err(GenerationError::ElidedLifetimeInField),
    }
}

/// Resolves one lifetime occurrence inside a function pointer, given the
/// enclosing type's lifetimes `env`, the function's named bound lifetimes
/// `named`, and `count`, the number of lifetimes the function binds so far
/// (named ones plus those introduced for earlier elided occurrences).
/// Returns the index and the updated count.
///
/// An elided occurrence in a parameter introduces a fresh bound lifetime
/// positioned after the enclosing type's lifetimes and all earlier bound
/// ones. In the return position it instead reuses the function's single
/// bound lifetime, and is an error when the function binds none or more
/// than one.
pub open spec fn spec_setup_lt(
    env: Seq<u64>,
    named: Seq<u64>,
    count: int,
    is_ret: bool,
    arg: LtArg,
) -> Result<(LifetimeIndex, int), GenerationError> {
    match arg {
        LtArg::StaticLt => Ok((LifetimeIndex::Static, count)),
        LtArg::NamedLt { name } => {
            let p = spec_position_of(env + named, name);
            if p < 0 {
                Err(GenerationError::UnknownLifetime { name })
            } else {
                Ok((LifetimeIndex::Param { index: p as usize }, count))
            }
        },
        LtArg::ElidedLt => {
            if !is_ret {
                Ok((LifetimeIndex::Param { index: (env.len() + count) as usize }, count + 1))
            } else if count == 0 {
                Err(GenerationError::ElidedReturnNoCandidate)
            } else if count == 1 {
                Ok((LifetimeIndex::Param { index: env.len() as usize }, count))
            } else {
                Err(GenerationError::ElidedReturnAmbiguous)
            }
        },
    }
}

/// Resolves a parameter or return type's lifetime occurrences left to
/// right, threading the bound-lifetime count.
pub open spec fn spec_resolve_lts(
    env: Seq<u64>,
    named: Seq<u64>,
    count: int,
    is_ret: bool,
    lts: Seq<LtArg>,
) -> Result<(Seq<LifetimeIndex>, int), GenerationError>
    decreases lts.len(),
{
    if lts.len() == 0 {
        Ok((Seq::empty(), count))
    } else {
        match spec_setup_lt(env, named, count, is_ret, lts[0]) {
            Err(e) => Err(e),
            Ok((li, c2)) => match spec_resolve_lts(env, named, c2, is_ret, lts.drop_first()) {
                Err(e) => Err(e),
                Ok((rest, c3)) => Ok((seq![li] + rest, c3)),
            },
        }
    }
}

/// A resolved parameter or return description: the lifetimes its type
/// references, the registry index of its type's description, and whether
/// it is a parameter or the return.
pub ghost struct FnParamRetV {
    pub lifetime_refs: Seq<LifetimeIndex>,
    pub type_ref: int,
    pub param_or_ret: ParamOrReturn,
}

/// A resolved function-pointer signature: the named lifetimes of its
/// binder, the total number of lifetimes it binds (named plus introduced
/// for elided parameter occurrences), and its resolved parameters and
/// return.
pub ghost struct FunctionV {
    pub named_bound_lts: Seq<u64>,
    pub named_bound_lts_count: int,
    pub params: Seq<FnParamRetV>,
    pub returns: Option<FnParamRetV>,
}

/// Resolves a function's parameters left to right. A parameter containing
/// a nested function pointer is rejected.
pub open spec fn spec_resolve_params(
    env: Seq<u64>,
    named: Seq<u64>,
    count: int,
    params: Seq<ParamTy>,
) -> Result<(Seq<FnParamRetV>, int), GenerationError>
    decreases params.len(),
{
    if params.len() == 0 {
        Ok((Seq::empty(), count))
    } else if params[0].has_nested_fn {
        Err(GenerationError::NestedFunctionPointer)
    } else {
        match spec_resolve_lts(env, named, count, false, params[0].lts@) {
            Err(e) => Err(e),
            Ok((refs, c2)) => match spec_resolve_params(env, named, c2, params.drop_first()) {
                Err(e) => Err(e),
                Ok((rest, c3)) => Ok(
                    (
                        seq![
                            FnParamRetV {
                                lifetime_refs: refs,
                                type_ref: params[0].type_ref as int,
                                param_or_ret: ParamOrReturn::Param,
                            },
                        ] + rest,
                        c3,
                    ),
                ),
            },
        }
    }
}

/// Resolves one declared function-pointer type: its calling convention
/// must be the supported one, its parameters are resolved in order, then
/// its return type, with the return's elision rules using the
/// bound-lifetime count the parameters produced.
pub open spec fn spec_process_fn(env: Seq<u64>, d: FnDecl) -> Result<
    FunctionV,
    GenerationError,
> {
    if !d.c_abi {
        Err(GenerationError::UnsupportedAbi)
    } else {
        match spec_resolve_params(env, d.bound_lts@, d.bound_lts@.len() as int, d.params@) {
            Err(e) => Err(e),
            Ok((params, c)) => match d.ret {
                None => Ok(
                    FunctionV {
                        named_bound_lts: d.bound_lts@,
                        named_bound_lts_count: c,
                        params,
                        returns: None,
                    },
                ),
                Some(rt) => {
                    if rt.has_nested_fn {
                        Err(GenerationError::NestedFunctionPointer)
                    } else {
                        match spec_resolve_lts(env, d.bound_lts@, c, true, rt.lts@) {
                            Err(e) => Err(e),
                            Ok((refs, c2)) => Ok(
                                FunctionV {
                                    named_bound_lts: d.bound_lts@,
                                    named_bound_lts_count: c2,
                                    params,
                                    returns: Some(
                                        FnParamRetV {
                                            lifetime_refs: refs,
                                            type_ref: rt.type_ref as int,
                                            param_or_ret: ParamOrReturn::Return,
                                        },
                                    ),
                                },
                            ),
                        }
                    }
                },
            },
        }
    }
}

/// All lifetime indices a resolved parameter list references, in order.
pub open spec fn spec_fn_params_refs(ps: Seq<FnParamRetV>) -> Seq<LifetimeIndex>
    decreases ps.len(),
{
    if ps.len() == 0 {
        Seq::empty()
    } else {
        ps[0].lifetime_refs + spec_fn_params_refs(ps.drop_first())
    }
}

/// All lifetime indices a resolved function references: parameters in
/// order, then the return.
pub open spec fn spec_fn_all_refs(f: FunctionV) -> Seq<LifetimeIndex> {
    spec_fn_params_refs(f.params) + (match f.returns {
        Some(r) => r.lifetime_refs,
        None => Seq::empty(),
    })
}

/// Whether an index refers to the environment: the unbounded lifetime, or
/// one of the enclosing type's own parameters (as opposed to a lifetime
/// bound by a function pointer).
pub open spec fn is_env_lt(env_len: int, li: LifetimeIndex) -> bool {
    match li {
        LifetimeIndex::Static => true,
        LifetimeIndex::Param { index } => index < env_len,
    }
}

/// The subsequence of indices referring to the environment, in order.
pub open spec fn spec_env_refs(env_len: int, lis: Seq<LifetimeIndex>) -> Seq<LifetimeIndex>
    decreases lis.len(),
{
    if lis.len() == 0 {
        Seq::empty()
    } else {
        let rest = spec_env_refs(env_len, lis.drop_first());
        if is_env_lt(env_len, lis[0]) {
            seq![lis[0]] + rest
        } else {
            rest
        }
    }
}

/// Walks a field's type in source order: lifetime occurrences outside
/// function pointers resolve against the enclosing type's parameters and
/// are all recorded; each function-pointer type is resolved as a whole,
/// and only the environment lifetimes it references are recorded for the
/// field. Returns the field's referenced lifetimes and the resolved
/// functions, or the first rule violation.
pub open spec fn spec_visit_parts(env: Seq<u64>, parts: Seq<FieldTyPart>) -> Result<
    (Seq<LifetimeIndex>, Seq<FunctionV>),
    GenerationError,
>
    decreases parts.len(),
{
    if parts.len() == 0 {
        Ok((Seq::empty(), Seq::empty()))
    } else {
        let head = match parts[0] {
            FieldTyPart::Lifetime(arg) => match spec_resolve_field_lt(env, arg) {
                Err(e) => Err(e),
                Ok(li) => Ok((seq![li], Seq::<FunctionV>::empty())),
            },
            FieldTyPart::FnPointer(d) => match spec_process_fn(env, d) {
                Err(e) => Err(e),
                Ok(f) => Ok((spec_env_refs(env.len() as int, spec_fn_all_refs(f)), seq![f])),
            },
        };
        match head {
            Err(e) => Err(e),
            Ok((refs0, fns0)) => match spec_visit_parts(env, parts.drop_first()) {
                Err(e) => Err(e),
                Ok((refs, fns)) => Ok((refs0 + refs, fns0 + fns)),
            },
        }
    }
}

/// The total number of lifetime occurrences in a parameter list.
pub open spec fn spec_lt_count(params: Seq<ParamTy>) -> int
    decreases params.len(),
{
    if params.len() == 0 {
        0
    } else {
        params[0].lts@.len() + spec_lt_count(params.drop_first())
    }
}

/// An upper bound on every lifetime position a function can give out: the
/// enclosing type's parameters, the function's named bound lifetimes, and
/// one fresh bound lifetime per occurrence in its parameters.
pub open spec fn spec_fn_lt_bound(env_len: int, d: FnDecl) -> int {
    env_len + d.bound_lts@.len() + spec_lt_count(d.params@)
}

/// The machine-size precondition for resolving a field: every
/// function-pointer type in it must keep its lifetime positions
/// representable.
pub open spec fn spec_parts_fit(env_len: int, parts: Seq<FieldTyPart>) -> bool {
    forall|i: int|
        0 <= i < parts.len() ==> match #[trigger] parts[i] {
            FieldTyPart::FnPointer(d) => spec_fn_lt_bound(env_len, d) <= usize::MAX,
            FieldTyPart::Lifetime(_) => true,
        }
}

/// Resolution never shrinks the bound-lifetime count, and grows it by at
/// most one per occurrence.
pub proof fn lemma_resolve_lts_count(
    env: Seq<u64>,
    named: Seq<u64>,
    count: int,
    is_ret: bool,
    lts: Seq<LtArg>,
)
    ensures
        spec_resolve_lts(env, named, count, is_ret, lts) matches Ok((r, c2)) ==> count <= c2
            <= count + lts.len() && r.len() == lts.len(),
    decreases lts.len(),
{
    if lts.len() == 0 {
    } else {
        match spec_setup_lt(env, named, count, is_ret, lts[0]) {
            Err(_) => {},
            Ok((li, c2)) => {
                lemma_resolve_lts_count(env, named, c2, is_ret, lts.drop_first());
            },
        }
    }
}

/// Concatenation distributes through the environment-reference filter.
pub proof fn lemma_env_refs_add(env_len: int, a: Seq<LifetimeIndex>, b: Seq<LifetimeIndex>)
    ensures
        spec_env_refs(env_len, a + b) == spec_env_refs(env_len, a) + spec_env_refs(env_len, b),
    decreases a.len(),
{
    if a.len() == 0 {
        assert(a + b =~= b);
        assert(spec_env_refs(env_len, a) + spec_env_refs(env_len, b) =~= spec_env_refs(
            env_len,
            b,
        ));
    } else {
        assert((a + b).drop_first() =~= a.drop_first() + b);
        lemma_env_refs_add(env_len, a.drop_first(), b);
        assert((a + b)[0] == a[0]);
        if is_env_lt(env_len, a[0]) {
            assert(seq![a[0]] + (spec_env_refs(env_len, a.drop_first()) + spec_env_refs(
                env_len,
                b,
            )) =~= (seq![a[0]] + spec_env_refs(env_len, a.drop_first())) + spec_env_refs(
                env_len,
                b,
            ));
        }
    }
}

/// Concatenation distributes through collecting a parameter list's
/// lifetime references.
pub proof fn lemma_fn_params_refs_add(a: Seq<FnParamRetV>, b: Seq<FnParamRetV>)
    ensures
        spec_fn_params_refs(a + b) == spec_fn_params_refs(a) + spec_fn_params_refs(b),
    decreases a.len(),
{
    if a.len() == 0 {
        assert(a + b =~= b);
        assert(spec_fn_params_refs(a) + spec_fn_params_refs(b) =~= spec_fn_params_refs(b));
    } else {
        assert((a + b).drop_first() =~= a.drop_first() + b);
        lemma_fn_params_refs_add(a.drop_first(), b);
        assert((a + b)[0] == a[0]);
        assert(a[0].lifetime_refs + (spec_fn_params_refs(a.drop_first()) + spec_fn_params_refs(
            b,
        )) =~= (a[0].lifetime_refs + spec_fn_params_refs(a.drop_first())) + spec_fn_params_refs(
            b,
        ));
    }
}

/// Finds the first occurrence of `x` in `a` followed by `b`.
fn position_in_concat(a: &Vec<u64>, b: &Vec<u64>, x: u64) -> (r: Option<usize>)
    requires
        a@.len() + b@.len() <= usize::MAX,
    ensures
        match r {
            Some(i) => spec_position_of(a@ + b@, x) == i,
            None => spec_position_of(a@ + b@, x) == -1,
        },
{
    let ghost s = a@ + b@;
    let mut i: usize = 0;
    while i < a.len()
        invariant
            i <= a@.len(),
            a@.len() + b@.len() <= usize::MAX,
            s == a@ + b@,
            forall|j: int| 0 <= j < i ==> s[j] != x,
        decreases a@.len() - i,
    {
        if a[i] == x {
            proof {
                assert(s[i as int] == a@[i as int]);
                lemma_position_of_unique(s, x, i as int);
            }
            return Some(i);
        }
        proof {
            assert(s[i as int] == a@[i as int]);
        }
        i = i + 1;
    }
    let mut k: usize = 0;
    while k < b.len()
        invariant
            k <= b@.len(),
            a@.len() + b@.len() <= usize::MAX,
            s == a@ + b@,
            forall|j: int| 0 <= j < a@.len() + k ==> s[j] != x,
        decreases b@.len() - k,
    {
        if b[k] == x {
            proof {
                assert(s[a@.len() + k] == b@[k as int]);
                lemma_position_of_unique(s, x, a@.len() + k);
            }
            return Some(a.len() + k);
        }
        proof {
            assert(s[a@.len() + k] == b@[k as int]);
        }
        k = k + 1;
    }
    proof {
        assert(!s.contains(x)) by {
            assert(forall|j: int| 0 <= j < s.len() ==> s[j] != x);
        }
        lemma_position_of(s, x);
    }
    None
}

/// Resolves one lifetime occurrence inside a function pointer, updating
/// the bound-lifetime count.
fn setup_lt(
    env: &Vec<u64>,
    named: &Vec<u64>,
    count: usize,
    is_ret: bool,
    arg: &LtArg,
) -> (r: Result<(LifetimeIndex, usize), GenerationError>)
    requires
        env@.len() + named@.len() <= usize::MAX,
        !is_ret ==> env@.len() + count < usize::MAX,
    ensures
        match spec_setup_lt(env@, named@, count as int, is_ret, *arg) {
            Ok((li, c2)) => (r matches Ok(p) && p.0 == li && p.1 as int == c2),
            Err(e) => (r matches Err(e2) && e2 == e),
        },
{
    match *arg {
        LtArg::StaticLt => Ok((LifetimeIndex::Static, count)),
        LtArg::NamedLt { name } => {
            match position_in_concat(env, named, name) {
                Some(p) => Ok((LifetimeIndex::Param { index: p }, count)),
                None => Err(GenerationError::UnknownLifetime { name }),
            }
        },
        LtArg::ElidedLt => {
            if !is_ret {
                Ok((LifetimeIndex::Param { index: env.len() + count }, count + 1))
            } else if count == 0 {
                Err(GenerationError::ElidedReturnNoCandidate)
            } else if count == 1 {
                Ok((LifetimeIndex::Param { index: env.len() }, count))
            } else {
                Err(GenerationError::ElidedReturnAmbiguous)
            }
        },
    }
}

/// The step relation of `resolve_lts`: the full resolution equals the
/// prefix already produced, composed with resolving the remaining
/// occurrences from the current count.
spec fn lts_loop_inv(
    env: Seq<u64>,
    named: Seq<u64>,
    c0: int,
    count: int,
    is_ret: bool,
    lts: Seq<LtArg>,
    i: int,
    out: Seq<LifetimeIndex>,
) -> bool {
    spec_resolve_lts(env, named, c0, is_ret, lts) == (match spec_resolve_lts(
        env,
        named,
        count,
        is_ret,
        lts.skip(i),
    ) {
        Ok((rest, c3)) => Ok::<_, GenerationError>((out + rest, c3)),
        Err(e) => Err::<(Seq<LifetimeIndex>, int), _>(e),
    })
}

/// Resolves a parameter or return type's lifetime occurrences in order.
fn resolve_lts(
    env: &Vec<u64>,
    named: &Vec<u64>,
    count: &mut usize,
    is_ret: bool,
    lts: &Vec<LtArg>,
) -> (r: Result<Vec<LifetimeIndex>, GenerationError>)
    requires
        env@.len() + named@.len() <= usize::MAX,
        !is_ret ==> env@.len() + (*old(count)) + lts@.len() <= usize::MAX,
    ensures
        match spec_resolve_lts(env@, named@, (*old(count)) as int, is_ret, lts@) {
            Ok((refs, c2)) => (r matches Ok(v) && v@ == refs && (*final(count)) as int == c2),
            Err(e) => (r matches Err(e2) && e2 == e),
        },
{
    let ghost c0 = *count as int;
    let mut out: Vec<LifetimeIndex> = Vec::new();
    let mut i: usize = 0;
    proof {
        assert(lts@.skip(0) =~= lts@);
        match spec_resolve_lts(env@, named@, c0, is_ret, lts@) {
            Ok((rest, c3)) => {
                assert(Seq::<LifetimeIndex>::empty() + rest =~= rest);
            },
            Err(_) => {},
        }
    }
    while i < lts.len()
        invariant
            i <= lts@.len(),
            env@.len() + named@.len() <= usize::MAX,
            c0 == (*old(count)) as int,
            !is_ret ==> env@.len() + (*count) + (lts@.len() - i) <= usize::MAX,
            is_ret ==> (*count) as int == c0,
            lts_loop_inv(env@, named@, c0, (*count) as int, is_ret, lts@, i as int, out@),
        decreases lts@.len() - i,
    {
        let ghost pre = lts@.skip(i as int);
        proof {
            assert(pre.len() == lts@.len() - i);
            assert(pre[0] == lts@[i as int]);
            assert(pre.drop_first() =~= lts@.skip(i as int + 1));
        }
        match setup_lt(env, named, *count, is_ret, &lts[i]) {
            Err(e) => {
                proof {
                    assert(spec_resolve_lts(env@, named@, (*count) as int, is_ret, pre)
                        == Err::<(Seq<LifetimeIndex>, int), GenerationError>(e));
                }
                return Err(e);
            },
            Ok((li, c2)) => {
                let ghost old_out = out@;
                out.push(li);
                *count = c2;
                proof {
                    assert(out@ =~= old_out + seq![li]);
                    match spec_resolve_lts(env@, named@, c2 as int, is_ret, lts@.skip(
                        i as int + 1,
                    )) {
                        Ok((rest, c3)) => {
                            assert(old_out + (seq![li] + rest) =~= (old_out + seq![li]) + rest);
                        },
                        Err(_) => {},
                    }
                }
            },
        }
        i = i + 1;
    }
    proof {
        assert(lts@.skip(i as int) =~= Seq::<LtArg>::empty());
        assert(out@ + Seq::<LifetimeIndex>::empty() =~= out@);
    }
    Ok(out)
}

/// A resolved parameter or return description of a function pointer.
#[derive(Debug, Clone, PartialEq, Eq)]
pub struct FnParamRet {
    /// The lifetimes this type references (including the unbounded one).
    pub lifetime_refs: Vec<LifetimeIndex>,
    /// The registry index of this type's own layout description.
    pub type_ref: usize,
    /// Whether this is a parameter or the return.
    pub param_or_ret: ParamOrReturn,
}

impl View for FnParamRet {
    type V = FnParamRetV;

    open spec fn view(&self) -> FnParamRetV {
        FnParamRetV {
            lifetime_refs: self.lifetime_refs@,
            type_ref: self.type_ref as int,
            param_or_ret: self.param_or_ret,
        }
    }
}

impl FnParamRet {
    /// The description of the unit return type: no lifetimes, the given
    /// registry index for the unit type's description.
    pub fn unit_ret(unit_type_ref: usize) -> (r: FnParamRet)
        ensures
            r@.lifetime_refs == Seq::<LifetimeIndex>::empty(),
            r@.type_ref == unit_type_ref as int,
            r@.param_or_ret == ParamOrReturn::Return,
    {
        FnParamRet {
            lifetime_refs: Vec::new(),
            type_ref: unit_type_ref,
            param_or_ret: ParamOrReturn::Return,
        }
    }
}

/// A resolved function-pointer signature.
#[derive(Debug, Clone, PartialEq, Eq)]
pub struct Function {
    /// The lifetimes named by the function's own binder, in order.
    pub named_bound_lts: Vec<u64>,
    /// How many lifetimes the function binds in all: the named ones plus
    /// one per elided occurrence in its parameters.
    pub named_bound_lts_count: usize,
    pub params: Vec<FnParamRet>,
    /// `None` when the return type is the unit type left unwritten.
    pub returns: Option<FnParamRet>,
}

impl View for Function {
    type V = FunctionV;

    open spec fn view(&self) -> FunctionV {
        FunctionV {
            named_bound_lts: self.named_bound_lts@,
            named_bound_lts_count: self.named_bound_lts_count as int,
            params: pv_view(self.params@),
            returns: match self.returns {
                Some(p) => Some(p@),
                None => None,
            },
        }
    }
}

/// The views of a list of resolved functions.
pub open spec fn fns_view(v: Seq<Function>) -> Seq<FunctionV> {
    v.map_values(|f: Function| f@)
}

/// Appends to `out` the environment lifetimes among `refs`, in order.
fn push_env_refs(env_len: usize, refs: &Vec<LifetimeIndex>, out: &mut Vec<LifetimeIndex>)
    ensures
        final(out)@ == old(out)@ + spec_env_refs(env_len as int, refs@),
{
    let ghost base = out@;
    let mut k: usize = 0;
    proof {
        assert(refs@.take(0) =~= Seq::<LifetimeIndex>::empty());
        assert(base + Seq::<LifetimeIndex>::empty() =~= base);
    }
    while k < refs.len()
        invariant
            k <= refs@.len(),
            base == old(out)@,
            out@ == base + spec_env_refs(env_len as int, refs@.take(k as int)),
        decreases refs@.len() - k,
    {
        let li = refs[k];
        let is_env = match li {
            LifetimeIndex::Static => true,
            LifetimeIndex::Param { index } => index < env_len,
        };
        proof {
            assert(refs@.take(k as int + 1) =~= refs@.take(k as int) + seq![refs@[k as int]]);
            lemma_env_refs_add(env_len as int, refs@.take(k as int), seq![refs@[k as int]]);
            assert(seq![refs@[k as int]].drop_first() =~= Seq::<LifetimeIndex>::empty());
            assert(spec_env_refs(env_len as int, Seq::<LifetimeIndex>::empty())
                =~= Seq::<LifetimeIndex>::empty());
            if is_env_lt(env_len as int, refs@[k as int]) {
                assert(spec_env_refs(env_len as int, seq![refs@[k as int]]) =~= seq![
                    refs@[k as int],
                ]);
            }
        }
        if is_env {
            let ghost pre_out = out@;
            out.push(li);
            proof {
                assert(out@ =~= pre_out + seq![li]);
                assert(base + (spec_env_refs(env_len as int, refs@.take(k as int)) + seq![li])
                    =~= (base + spec_env_refs(env_len as int, refs@.take(k as int))) + seq![li]);
            }
        } else {
            proof {
                assert(spec_env_refs(env_len as int, seq![refs@[k as int]])
                    =~= Seq::<LifetimeIndex>::empty());
                assert(spec_env_refs(env_len as int, refs@.take(k as int))
                    + Seq::<LifetimeIndex>::empty() =~= spec_env_refs(
                    env_len as int,
                    refs@.take(k as int),
                ));
            }
        }
        k = k + 1;
    }
    proof {
        assert(refs@.take(refs@.len() as int) =~= refs@);
    }
}

/// The views of a list of resolved parameters.
pub open spec fn pv_view(v: Seq<FnParamRet>) -> Seq<FnParamRetV> {
    v.map_values(|p: FnParamRet| p@)
}

/// The occurrence count of a parameter list is never negative.
pub proof fn lemma_lt_count_nonneg(params: Seq<ParamTy>)
    ensures
        spec_lt_count(params) >= 0,
    decreases params.len(),
{
    if params.len() == 0 {
    } else {
        lemma_lt_count_nonneg(params.drop_first());
    }
}

/// The step relation of `process_bare_fn`'s parameter loop.
spec fn params_loop_inv(
    env: Seq<u64>,
    named: Seq<u64>,
    c0: int,
    count: int,
    params: Seq<ParamTy>,
    j: int,
    out: Seq<FnParamRetV>,
) -> bool {
    spec_resolve_params(env, named, c0, params) == (match spec_resolve_params(
        env,
        named,
        count,
        params.skip(j),
    ) {
        Ok((rest, c3)) => Ok::<_, GenerationError>((out + rest, c3)),
        Err(e) => Err::<(Seq<FnParamRetV>, int), _>(e),
    })
}

/// Resolves one declared function-pointer type into a [`Function`],
/// together with the environment lifetimes it references, in order.
fn process_bare_fn(env: &Vec<u64>, d: &FnDecl) -> (r: Result<
    (Function, Vec<LifetimeIndex>),
    GenerationError,
>)
    requires
        spec_fn_lt_bound(env@.len() as int, *d) <= usize::MAX,
    ensures
        match spec_process_fn(env@, *d) {
            Ok(fv) => (r matches Ok(p) && p.0@ == fv && p.1@ == spec_env_refs(
                env@.len() as int,
                spec_fn_all_refs(fv),
            )),
            Err(e) => (r matches Err(e2) && e2 == e),
        },
{
    if !d.c_abi {
        return Err(GenerationError::UnsupportedAbi);
    }
    let mut count: usize = d.bound_lts.len();
    let ghost c0 = count as int;
    let mut params_out: Vec<FnParamRet> = Vec::new();
    let mut j: usize = 0;
    proof {
        lemma_lt_count_nonneg(d.params@);
        assert(d.params@.skip(0) =~= d.params@);
        match spec_resolve_params(env@, d.bound_lts@, c0, d.params@) {
            Ok((rest, c3)) => {
                assert(Seq::<FnParamRetV>::empty() + rest =~= rest);
            },
            Err(_) => {},
        }
        assert(pv_view(params_out@) =~= Seq::<FnParamRetV>::empty());
    }
    while j < d.params.len()
        invariant
            d.c_abi,
            j <= d.params@.len(),
            env@.len() + d.bound_lts@.len() <= usize::MAX,
            env@.len() + count + spec_lt_count(d.params@.skip(j as int)) <= usize::MAX,
            c0 == d.bound_lts@.len() as int,
            params_loop_inv(
                env@,
                d.bound_lts@,
                c0,
                count as int,
                d.params@,
                j as int,
                pv_view(params_out@),
            ),
        decreases d.params@.len() - j,
    {
        let ghost pre = d.params@.skip(j as int);
        proof {
            assert(pre.len() == d.params@.len() - j);
            assert(pre[0] == d.params@[j as int]);
            assert(pre.drop_first() =~= d.params@.skip(j as int + 1));
            lemma_lt_count_nonneg(pre.drop_first());
        }
        let p = &d.params[j];
        let ghost prev_count = count as int;
        let ghost pre_out = pv_view(params_out@);
        if p.has_nested_fn {
            proof {
                assert(spec_resolve_params(env@, d.bound_lts@, count as int, pre)
                    == Err::<(Seq<FnParamRetV>, int), GenerationError>(
                    GenerationError::NestedFunctionPointer,
                ));
            }
            return Err(GenerationError::NestedFunctionPointer);
        }
        match resolve_lts(env, &d.bound_lts, &mut count, false, &p.lts) {
            Err(e) => {
                proof {
                    assert(spec_resolve_lts(env@, d.bound_lts@, prev_count, false, pre[0].lts@)
                        == Err::<(Seq<LifetimeIndex>, int), GenerationError>(e));
                    assert(spec_resolve_params(env@, d.bound_lts@, prev_count, pre)
                        == Err::<(Seq<FnParamRetV>, int), GenerationError>(e));
                    assert(params_loop_inv(
                        env@,
                        d.bound_lts@,
                        c0,
                        prev_count,
                        d.params@,
                        j as int,
                        pre_out,
                    ));
                }
                return Err(e);
            },
            Ok(refs) => {
                proof {
                    lemma_resolve_lts_count(env@, d.bound_lts@, prev_count, false, pre[0].lts@);
                    assert(spec_lt_count(pre) == pre[0].lts@.len() + spec_lt_count(
                        pre.drop_first(),
                    ));
                }
                let ghost fpv = FnParamRetV {
                    lifetime_refs: refs@,
                    type_ref: p.type_ref as int,
                    param_or_ret: ParamOrReturn::Param,
                };
                params_out.push(
                    FnParamRet {
                        lifetime_refs: refs,
                        type_ref: p.type_ref,
                        param_or_ret: ParamOrReturn::Param,
                    },
                );
                proof {
                    assert(pv_view(params_out@) =~= pre_out + seq![fpv]);
                    match spec_resolve_params(env@, d.bound_lts@, count as int, d.params@.skip(
                        j as int + 1,
                    )) {
                        Ok((rest, c3)) => {
                            assert(pre_out + (seq![fpv] + rest) =~= (pre_out + seq![fpv]) + rest);
                        },
                        Err(_) => {},
                    }
                }
            },
        }
        j = j + 1;
    }
    proof {
        assert(d.params@.skip(j as int) =~= Seq::<ParamTy>::empty());
        assert(pv_view(params_out@) + Seq::<FnParamRetV>::empty() =~= pv_view(params_out@));
    }
    let ghost count_after_params = count as int;
    let ret_desc: Option<FnParamRet> = match &d.ret {
        None => None,
        Some(rt) => {
            if rt.has_nested_fn {
                return Err(GenerationError::NestedFunctionPointer);
            }
            match resolve_lts(env, &d.bound_lts, &mut count, true, &rt.lts) {
                Err(e) => {
                    proof {
                        assert(spec_resolve_lts(
                            env@,
                            d.bound_lts@,
                            count_after_params,
                            true,
                            rt.lts@,
                        ) == Err::<(Seq<LifetimeIndex>, int), GenerationError>(e));
                    }
                    return Err(e);
                },
                Ok(refs) => Some(
                    FnParamRet {
                        lifetime_refs: refs,
                        type_ref: rt.type_ref,
                        param_or_ret: ParamOrReturn::Return,
                    },
                ),
            }
        },
    };
    let func = Function {
        named_bound_lts: d.bound_lts.clone(),
        named_bound_lts_count: count,
        params: params_out,
        returns: ret_desc,
    };
    let ghost fv = func@;
    proof {
        assert(spec_process_fn(env@, *d) == Ok::<FunctionV, GenerationError>(fv));
    }
    let mut env_refs: Vec<LifetimeIndex> = Vec::new();
    let mut q: usize = 0;
    proof {
        assert(pv_view(func.params@).take(0) =~= Seq::<FnParamRetV>::empty());
        assert(spec_env_refs(env@.len() as int, Seq::<LifetimeIndex>::empty())
            =~= Seq::<LifetimeIndex>::empty());
        assert(env_refs@ =~= Seq::<LifetimeIndex>::empty());
    }
    while q < func.params.len()
        invariant
            q <= func.params@.len(),
            env_refs@ == spec_env_refs(
                env@.len() as int,
                spec_fn_params_refs(pv_view(func.params@).take(q as int)),
            ),
        decreases func.params@.len() - q,
    {
        proof {
            let pv = pv_view(func.params@);
            assert(pv.take(q as int + 1) =~= pv.take(q as int) + seq![pv[q as int]]);
            lemma_fn_params_refs_add(pv.take(q as int), seq![pv[q as int]]);
            assert(seq![pv[q as int]].drop_first() =~= Seq::<FnParamRetV>::empty());
            assert(spec_fn_params_refs(seq![pv[q as int]]) =~= pv[q as int].lifetime_refs
                + spec_fn_params_refs(Seq::<FnParamRetV>::empty()));
            assert(pv[q as int].lifetime_refs + Seq::<LifetimeIndex>::empty()
                =~= pv[q as int].lifetime_refs);
            lemma_env_refs_add(
                env@.len() as int,
                spec_fn_params_refs(pv.take(q as int)),
                pv[q as int].lifetime_refs,
            );
        }
        push_env_refs(env.len(), &func.params[q].lifetime_refs, &mut env_refs);
        q = q + 1;
    }
    proof {
        assert(pv_view(func.params@).take(func.params@.len() as int) =~= pv_view(func.params@));
    }
    match &func.returns {
        None => {
            proof {
                assert(spec_fn_all_refs(fv) =~= spec_fn_params_refs(fv.params));
            }
        },
        Some(rt) => {
            proof {
                lemma_env_refs_add(
                    env@.len() as int,
                    spec_fn_params_refs(fv.params),
                    rt@.lifetime_refs,
                );
            }
            push_env_refs(env.len(), &rt.lifetime_refs, &mut env_refs);
        },
    }
    Ok((func, env_refs))
}

/// What one field's visit returns: the lifetimes of the enclosing type
/// (and the unbounded one) that the field's type references, in source
/// order.
#[derive(Debug)]
pub struct VisitFieldRet {
    pub referenced_lifetimes: Vec<LifetimeIndex>,
}

/// Everything description generation learns about a type's
/// function-pointer fields: the enclosing type's lifetime parameters, the
/// position of the first lifetime a function pointer may bind, and the
/// resolved functions in order of appearance.
pub struct FnInfo {
    /// Interned identifiers of the enclosing type's lifetime parameters.
    pub env_lifetimes: Vec<u64>,
    /// The index of the first lifetime bound by a function pointer rather
    /// than declared by the enclosing type.
    pub initial_bound_lifetime: usize,
    pub functions: Vec<Function>,
}

/// Walks the fields of one type declaration, resolving every lifetime
/// occurrence and every function-pointer signature.
pub struct TypeVisitor {
    pub env_lifetimes: Vec<u64>,
    pub initial_bound_lifetime: usize,
    pub functions: Vec<Function>,
}

/// The step relation of `visit_field`'s loop.
spec fn parts_loop_inv(
    env: Seq<u64>,
    parts: Seq<FieldTyPart>,
    i: int,
    refs: Seq<LifetimeIndex>,
    fns: Seq<FunctionV>,
) -> bool {
    spec_visit_parts(env, parts) == (match spec_visit_parts(env, parts.skip(i)) {
        Ok((r2, f2)) => Ok::<_, GenerationError>((refs + r2, fns + f2)),
        Err(e) => Err::<(Seq<LifetimeIndex>, Seq<FunctionV>), _>(e),
    })
}

impl TypeVisitor {
    /// A visitor is well formed when the first bound-lifetime position
    /// sits right after the enclosing type's own lifetime parameters.
    pub open spec fn wf(&self) -> bool {
        self.initial_bound_lifetime == self.env_lifetimes@.len()
    }

    /// Starts a visit for a type declaring the given lifetime parameters.
    pub fn new(env_lifetimes: Vec<u64>) -> (r: TypeVisitor)
        ensures
            r.wf(),
            r.env_lifetimes@ == env_lifetimes@,
            fns_view(r.functions@) == Seq::<FunctionV>::empty(),
    {
        let initial = env_lifetimes.len();
        let r = TypeVisitor {
            env_lifetimes,
            initial_bound_lifetime: initial,
            functions: Vec::new(),
        };
        proof {
            assert(fns_view(r.functions@) =~= Seq::<FunctionV>::empty());
        }
        r
    }

    /// Visits one field's type: resolves its lifetime occurrences and
    /// function-pointer signatures, appends the resolved functions, and
    /// returns the environment lifetimes the field references. On an
    /// error nothing is recorded and the first rule violation is
    /// returned.
    pub fn visit_field(&mut self, field: &FieldTy) -> (r: Result<VisitFieldRet, GenerationError>)
        requires
            old(self).wf(),
            spec_parts_fit(old(self).env_lifetimes@.len() as int, field.parts@),
        ensures
            final(self).wf(),
            final(self).env_lifetimes@ == old(self).env_lifetimes@,
            final(self).initial_bound_lifetime == old(self).initial_bound_lifetime,
            match spec_visit_parts(old(self).env_lifetimes@, field.parts@) {
                Ok((refs, fns)) => (r matches Ok(v) && v.referenced_lifetimes@ == refs
                    && fns_view(final(self).functions@) == fns_view(old(self).functions@) + fns),
                Err(e) => (r matches Err(e2) && e2 == e && final(self).functions@ == old(
                    self,
                ).functions@),
            },
    {
        let ghost env = self.env_lifetimes@;
        let empty_names: Vec<u64> = Vec::new();
        let mut refs: Vec<LifetimeIndex> = Vec::new();
        let mut new_fns: Vec<Function> = Vec::new();
        let mut i: usize = 0;
        proof {
            assert(field.parts@.skip(0) =~= field.parts@);
            match spec_visit_parts(env, field.parts@) {
                Ok((r2, f2)) => {
                    assert(Seq::<LifetimeIndex>::empty() + r2 =~= r2);
                    assert(Seq::<FunctionV>::empty() + f2 =~= f2);
                },
                Err(_) => {},
            }
            assert(fns_view(new_fns@) =~= Seq::<FunctionV>::empty());
        }
        while i < field.parts.len()
            invariant
                i <= field.parts@.len(),
                env == self.env_lifetimes@,
                empty_names@ == Seq::<u64>::empty(),
                self.wf(),
                spec_parts_fit(env.len() as int, field.parts@),
                parts_loop_inv(env, field.parts@, i as int, refs@, fns_view(new_fns@)),
            decreases field.parts@.len() - i,
        {
            let ghost pre = field.parts@.skip(i as int);
            proof {
                assert(pre.len() == field.parts@.len() - i);
                assert(pre[0] == field.parts@[i as int]);
                assert(pre.drop_first() =~= field.parts@.skip(i as int + 1));
            }
            match &field.parts[i] {
                FieldTyPart::Lifetime(arg) => {
                    let li = match *arg {
                        LtArg::StaticLt => LifetimeIndex::Static,
                        LtArg::NamedLt { name } => {
                            match position_in_concat(&self.env_lifetimes, &empty_names, name) {
                                Some(p) => {
                                    proof {
                                        assert(env + empty_names@ =~= env);
                                    }
                                    LifetimeIndex::Param { index: p }
                                },
                                None => {
                                    proof {
                                        assert(env + empty_names@ =~= env);
                                    }
                                    return Err(GenerationError::UnknownLifetime { name });
                                },
                            }
                        },
                        LtArg::ElidedLt => {
                            return Err(GenerationError::ElidedLifetimeInField);
                        },
                    };
                    let ghost old_refs = refs@;
                    refs.push(li);
                    proof {
                        assert(refs@ =~= old_refs + seq![li]);
                        match spec_visit_parts(env, field.parts@.skip(i as int + 1)) {
                            Ok((r2, f2)) => {
                                assert(old_refs + (seq![li] + r2) =~= (old_refs + seq![li]) + r2);
                            },
                            Err(_) => {},
                        }
                    }
                },
                FieldTyPart::FnPointer(decl) => {
                    proof {
                        assert(field.parts@[i as int] matches FieldTyPart::FnPointer(dd)
                            && spec_fn_lt_bound(env.len() as int, dd) <= usize::MAX);
                    }
                    match process_bare_fn(&self.env_lifetimes, decl) {
                        Err(e) => {
                            return Err(e);
                        },
                        Ok((func, env_refs)) => {
                            let ghost old_refs = refs@;
                            let ghost old_fns = fns_view(new_fns@);
                            let ghost fv = func@;
                            let mut env_refs_mut = env_refs;
                            refs.append(&mut env_refs_mut);
                            new_fns.push(func);
                            proof {
                                assert(fns_view(new_fns@) =~= old_fns + seq![fv]);
                                match spec_visit_parts(env, field.parts@.skip(i as int + 1)) {
                                    Ok((r2, f2)) => {
                                        assert(old_refs + (spec_env_refs(
                                            env.len() as int,
                                            spec_fn_all_refs(fv),
                                        ) + r2) =~= refs@ + r2);
                                        assert(old_fns + (seq![fv] + f2) =~= (old_fns + seq![fv])
                                            + f2);
                                    },
                                    Err(_) => {},
                                }
                            }
                        },
                    }
                },
            }
            i = i + 1;
        }
        proof {
            assert(field.parts@.skip(i as int) =~= Seq::<FieldTyPart>::empty());
            assert(refs@ + Seq::<LifetimeIndex>::empty() =~= refs@);
            assert(fns_view(new_fns@) + Seq::<FunctionV>::empty() =~= fns_view(new_fns@));
        }
        let ghost committed = fns_view(old(self).functions@) + fns_view(new_fns@);
        let mut new_fns_mut = new_fns;
        let ghost pre_commit = self.functions@;
        let ghost new_view = fns_view(new_fns_mut@);
        self.functions.append(&mut new_fns_mut);
        proof {
            assert(fns_view(self.functions@) =~= fns_view(pre_commit) + new_view);
        }
        Ok(VisitFieldRet { referenced_lifetimes: refs })
    }

    /// Hands back everything recorded by the visits.
    pub fn into_fn_info(self) -> (r: FnInfo)
        ensures
            r.env_lifetimes@ == self.env_lifetimes@,
            r.initial_bound_lifetime == self.initial_bound_lifetime,
            r.functions@ == self.functions@,
    {
        FnInfo {
            env_lifetimes: self.env_lifetimes,
            initial_bound_lifetime: self.initial_bound_lifetime,
            functions: self.functions,
        }
    }
}

/// Resolves one declared function-pointer type, for callers that need the
/// signature alone.
pub fn process_bare_fn_pub(env: &Vec<u64>, d: &FnDecl) -> (r: Result<Function, GenerationError>)
    requires
        spec_fn_lt_bound(env@.len() as int, *d) <= usize::MAX,
    ensures
        match spec_process_fn(env@, *d) {
            Ok(fv) => (r matches Ok(f) && f@ == fv),
            Err(e) => (r matches Err(e2) && e2 == e),
        },
{
    match process_bare_fn(env, d) {
        Ok((f, _)) => Ok(f),
        Err(e) => Err(e),
    }
}

/// A hashed set of bound-lifetime identifiers, held behind an opaque
/// wrapper because the hash table's own type cannot be declared here.
#[verifier::external_body]
pub struct LtNameSet {
    set: hashbrown::HashSet<u64>,
}

/// What the set holds.
pub uninterp spec fn lt_name_set_contents(s: LtNameSet) -> Set<u64>;

/// Relies on hashbrown::HashSet::new: a fresh set holds nothing.
#[verifier::external_body]
fn lt_set_new() -> (r: LtNameSet)
    ensures
        lt_name_set_contents(r) == Set::<u64>::empty(),
{
    LtNameSet { set: hashbrown::HashSet::new() }
}

/// Relies on hashbrown::HashSet::insert: afterwards the set holds the
/// value and everything it held before.
#[verifier::external_body]
fn lt_set_insert(s: &mut LtNameSet, x: u64)
    ensures
        lt_name_set_contents(*final(s)) == lt_name_set_contents(*old(s)).insert(x),
{
    s.set.insert(x);
}

/// Relies on hashbrown::HashSet::contains.
#[verifier::external_body]
fn lt_set_contains(s: &LtNameSet, x: u64) -> (r: bool)
    ensures
        r == lt_name_set_contents(*s).contains(x),
{
    s.set.contains(&x)
}

/// What rewriting one occurrence does: a lifetime named by the
/// function's own binder becomes elided; everything else stays.
pub open spec fn spec_remove_bound(named: Seq<u64>, a: LtArg) -> LtArg {
    match a {
        LtArg::NamedLt { name } => {
            if named.contains(name) {
                LtArg::ElidedLt
            } else {
                a
            }
        },
        _ => a,
    }
}

impl Function {
    /// Rewrites, in a list of lifetime occurrences, every lifetime named
    /// by this function's own binder into an elided one, leaving the
    /// enclosing type's lifetimes and the unbounded lifetime alone.
    pub fn remove_generics_from(&self, lts: &mut Vec<LtArg>)
        ensures
            final(lts)@.len() == old(lts)@.len(),
            forall|j: int|
                0 <= j < old(lts)@.len() ==> final(lts)@[j] == spec_remove_bound(
                    self.named_bound_lts@,
                    old(lts)@[j],
                ),
    {
        let mut set = lt_set_new();
        let mut i: usize = 0;
        proof {
            assert(lt_name_set_contents(set) =~= self.named_bound_lts@.take(0).to_set());
        }
        while i < self.named_bound_lts.len()
            invariant
                i <= self.named_bound_lts@.len(),
                lt_name_set_contents(set) == self.named_bound_lts@.take(i as int).to_set(),
            decreases self.named_bound_lts@.len() - i,
        {
            let x = self.named_bound_lts[i];
            lt_set_insert(&mut set, x);
            proof {
                let pre = self.named_bound_lts@.take(i as int);
                let post = self.named_bound_lts@.take(i as int + 1);
                assert(post =~= pre.push(x));
                assert forall|y: u64| post.to_set().contains(y) implies pre.to_set().insert(
                    x,
                ).contains(y) by {
                    let k = choose|k: int| 0 <= k < post.len() && post[k] == y;
                    if k < pre.len() {
                        assert(pre[k] == y);
                    }
                }
                assert forall|y: u64| pre.to_set().insert(x).contains(y)
                    implies post.to_set().contains(y) by {
                    if y == x {
                        assert(post[post.len() - 1] == x);
                    } else {
                        let k = choose|k: int| 0 <= k < pre.len() && pre[k] == y;
                        assert(post[k] == y);
                    }
                }
                assert(post.to_set() =~= pre.to_set().insert(x));
            }
            i = i + 1;
        }
        proof {
            assert(self.named_bound_lts@.take(self.named_bound_lts@.len() as int)
                =~= self.named_bound_lts@);
        }
        let mut j: usize = 0;
        while j < lts.len()
            invariant
                j <= lts@.len(),
                lts@.len() == old(lts)@.len(),
                lt_name_set_contents(set) == self.named_bound_lts@.to_set(),
                forall|k: int|
                    0 <= k < j ==> lts@[k] == spec_remove_bound(
                        self.named_bound_lts@,
                        old(lts)@[k],
                    ),
                forall|k: int| j <= k < lts@.len() ==> lts@[k] == old(lts)@[k],
            decreases lts@.len() - j,
        {
            let arg = lts[j];
            match arg {
                LtArg::NamedLt { name } => {
                    if lt_set_contains(&set, name) {
                        proof {
                            assert(self.named_bound_lts@.contains(name));
                        }
                        lts.set(j, LtArg::ElidedLt);
                    } else {
                        proof {
                            assert(!self.named_bound_lts@.contains(name));
                        }
                    }
                },
                _ => {},
            }
            j = j + 1;
        }
    }
}

} // verus!
