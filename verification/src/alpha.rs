use vstd::prelude::*;

use crate::ids::DefId;
use crate::types::{
    lemma_ty_eq_refl, lemma_ty_eq_sym, ty_eq, types_equal, CaptureType, GenericBounds,
    GenericParamId, ImplReceiverPattern, TraitBound, Type,
};

verus! {

/// Two generic parameters denote the same parameter up to renaming of the two
/// impls: a parameter of an impl only matches the parameter of the other impl
/// at the same position; any other parameter only matches itself.
pub open spec fn alpha_generic(l: GenericParamId, li: DefId, r: GenericParamId, ri: DefId) -> bool {
    if l.owner == li || r.owner == ri {
        l.owner == li && r.owner == ri && l.index == r.index
    } else {
        l == r
    }
}

/// Two types are equal up to renaming the generic parameters of impl `li`
/// (in `l`) to those of impl `ri` (in `r`).
pub open spec fn alpha_eq(l: Type, li: DefId, r: Type, ri: DefId) -> bool
    decreases l,
{
    match (l, r) {
        (Type::Generic(a), Type::Generic(b)) => alpha_generic(a, li, b, ri),
        (Type::Slice(a), Type::Slice(b)) => alpha_eq(*a, li, *b, ri),
        (Type::Pointer(a), Type::Pointer(b)) => alpha_eq(*a, li, *b, ri),
        (Type::Array(a, n), Type::Array(b, m)) => n == m && alpha_eq(*a, li, *b, ri),
        (Type::Tuple(xs), Type::Tuple(ys)) => xs@.len() == ys@.len() && forall|i: int|
            0 <= i < xs@.len() ==> alpha_eq(#[trigger] xs@[i], li, ys@[i], ri),
        (
            Type::Function { params: p1, ret: r1, safety: s1, callable_kind: k1, captures: c1 },
            Type::Function { params: p2, ret: r2, safety: s2, callable_kind: k2, captures: c2 },
        ) => {
            &&& s1 == s2
            &&& k1 == k2
            &&& c1@.len() == c2@.len()
            &&& (forall|i: int|
                0 <= i < c1@.len() ==> (#[trigger] c1@[i]).kind == c2@[i].kind && alpha_eq(
                    c1@[i].ty,
                    li,
                    c2@[i].ty,
                    ri,
                ))
            &&& p1@.len() == p2@.len()
            &&& (forall|i: int| 0 <= i < p1@.len() ==> alpha_eq(#[trigger] p1@[i], li, p2@[i], ri))
            &&& alpha_eq(*r1, li, *r2, ri)
        },
        (Type::Struct { id: i1, args: a1 }, Type::Struct { id: i2, args: a2 }) => i1 == i2
            && a1@.len() == a2@.len() && forall|i: int|
            0 <= i < a1@.len() ==> alpha_eq(#[trigger] a1@[i], li, a2@[i], ri),
        (Type::Enum { id: i1, args: a1 }, Type::Enum { id: i2, args: a2 }) => i1 == i2
            && a1@.len() == a2@.len() && forall|i: int|
            0 <= i < a1@.len() ==> alpha_eq(#[trigger] a1@[i], li, a2@[i], ri),
        (Type::Reference { mutable: m1, inner: a }, Type::Reference { mutable: m2, inner: b }) => m1
            == m2 && alpha_eq(*a, li, *b, ri),
        (
            Type::Projection { ty: t1, trait_id: tr1, assoc_type: as1, trait_args: a1 },
            Type::Projection { ty: t2, trait_id: tr2, assoc_type: as2, trait_args: a2 },
        ) => {
            &&& tr1 == tr2
            &&& as1 == as2
            &&& alpha_eq(*t1, li, *t2, ri)
            &&& a1@.len() == a2@.len()
            &&& forall|i: int| 0 <= i < a1@.len() ==> alpha_eq(#[trigger] a1@[i], li, a2@[i], ri)
        },
        _ => ty_eq(l, r),
    }
}

/// Two type lists are equal element by element up to impl renaming.
pub open spec fn alpha_list(l: Seq<Type>, li: DefId, r: Seq<Type>, ri: DefId) -> bool {
    l.len() == r.len() && forall|i: int| 0 <= i < l.len() ==> alpha_eq(#[trigger] l[i], li, r[i], ri)
}

/// An `IndexMut` receiver pattern `l` (of impl `li`) pairs with an `Index`
/// receiver pattern `r` (of impl `ri`): a mutable reference pairs with the
/// shared reference to the same type, a non-reference type with the same
/// type, and a slice family with the same element type.
pub open spec fn alpha_receiver(l: ImplReceiverPattern, li: DefId, r: ImplReceiverPattern, ri: DefId) -> bool {
    match (l, r) {
        (ImplReceiverPattern::Exact(a), ImplReceiverPattern::Exact(b)) => {
            if a is Reference || b is Reference {
                a matches Type::Reference { mutable: true, inner: x } && b matches Type::Reference {
                    mutable: false,
                    inner: y,
                } && alpha_eq(*x, li, *y, ri)
            } else {
                alpha_eq(a, li, b, ri)
            }
        },
        (ImplReceiverPattern::SliceFamily { element: a }, ImplReceiverPattern::SliceFamily { element: b }) =>
            alpha_eq(a, li, b, ri),
        _ => false,
    }
}

/// Every type is alpha-equivalent to itself under the same impl.
pub proof fn lemma_alpha_eq_reflexive(t: Type, i: DefId)
    ensures
        alpha_eq(t, i, t, i),
    decreases t,
{
    match t {
        Type::Slice(x) => lemma_alpha_eq_reflexive(*x, i),
        Type::Pointer(x) => lemma_alpha_eq_reflexive(*x, i),
        Type::Array(x, _) => lemma_alpha_eq_reflexive(*x, i),
        Type::Reference { inner, .. } => lemma_alpha_eq_reflexive(*inner, i),
        Type::Tuple(xs) => {
            assert forall|k: int| 0 <= k < xs@.len() implies alpha_eq(#[trigger] xs@[k], i, xs@[k], i) by {
                lemma_alpha_eq_reflexive(xs@[k], i);
            }
        },
        Type::Struct { args, .. } => {
            assert forall|k: int| 0 <= k < args@.len() implies alpha_eq(#[trigger] args@[k], i, args@[k], i) by {
                lemma_alpha_eq_reflexive(args@[k], i);
            }
        },
        Type::Enum { args, .. } => {
            assert forall|k: int| 0 <= k < args@.len() implies alpha_eq(#[trigger] args@[k], i, args@[k], i) by {
                lemma_alpha_eq_reflexive(args@[k], i);
            }
        },
        Type::Projection { ty, trait_args, .. } => {
            lemma_alpha_eq_reflexive(*ty, i);
            assert forall|k: int| 0 <= k < trait_args@.len() implies alpha_eq(#[trigger] trait_args@[k], i, trait_args@[k], i) by {
                lemma_alpha_eq_reflexive(trait_args@[k], i);
            }
        },
        Type::Function { params, ret, captures, .. } => {
            lemma_alpha_eq_reflexive(*ret, i);
            assert forall|k: int| 0 <= k < params@.len() implies alpha_eq(#[trigger] params@[k], i, params@[k], i) by {
                lemma_alpha_eq_reflexive(params@[k], i);
            }
            assert forall|k: int| 0 <= k < captures@.len() implies (#[trigger] captures@[k]).kind == captures@[k].kind
                && alpha_eq(captures@[k].ty, i, captures@[k].ty, i) by {
                assert(decreases_to!(captures@[k] => captures@[k].ty));
                lemma_alpha_eq_reflexive(captures@[k].ty, i);
            }
        },
        _ => {
            lemma_ty_eq_refl(t);
        },
    }
}

/// Alpha-equivalence does not depend on which side is written first.
pub proof fn lemma_alpha_eq_symmetric(l: Type, li: DefId, r: Type, ri: DefId)
    ensures
        alpha_eq(l, li, r, ri) == alpha_eq(r, ri, l, li),
    decreases l,
{
    match (l, r) {
        (Type::Slice(x), Type::Slice(y)) => lemma_alpha_eq_symmetric(*x, li, *y, ri),
        (Type::Pointer(x), Type::Pointer(y)) => lemma_alpha_eq_symmetric(*x, li, *y, ri),
        (Type::Array(x, _), Type::Array(y, _)) => lemma_alpha_eq_symmetric(*x, li, *y, ri),
        (Type::Reference { inner: x, .. }, Type::Reference { inner: y, .. }) => lemma_alpha_eq_symmetric(*x, li, *y, ri),
        (Type::Tuple(xs), Type::Tuple(ys)) => {
            assert forall|k: int| 0 <= k < xs@.len() && k < ys@.len() implies alpha_eq(#[trigger] xs@[k], li, ys@[k], ri)
                == alpha_eq(ys@[k], ri, xs@[k], li) by {
                lemma_alpha_eq_symmetric(xs@[k], li, ys@[k], ri);
            }
        },
        (Type::Struct { args: xs, .. }, Type::Struct { args: ys, .. }) => {
            assert forall|k: int| 0 <= k < xs@.len() && k < ys@.len() implies alpha_eq(#[trigger] xs@[k], li, ys@[k], ri)
                == alpha_eq(ys@[k], ri, xs@[k], li) by {
                lemma_alpha_eq_symmetric(xs@[k], li, ys@[k], ri);
            }
        },
        (Type::Enum { args: xs, .. }, Type::Enum { args: ys, .. }) => {
            assert forall|k: int| 0 <= k < xs@.len() && k < ys@.len() implies alpha_eq(#[trigger] xs@[k], li, ys@[k], ri)
                == alpha_eq(ys@[k], ri, xs@[k], li) by {
                lemma_alpha_eq_symmetric(xs@[k], li, ys@[k], ri);
            }
        },
        (Type::Projection { ty: x, trait_args: xs, .. }, Type::Projection { ty: y, trait_args: ys, .. }) => {
            lemma_alpha_eq_symmetric(*x, li, *y, ri);
            assert forall|k: int| 0 <= k < xs@.len() && k < ys@.len() implies alpha_eq(#[trigger] xs@[k], li, ys@[k], ri)
                == alpha_eq(ys@[k], ri, xs@[k], li) by {
                lemma_alpha_eq_symmetric(xs@[k], li, ys@[k], ri);
            }
        },
        (Type::Function { params: xs, ret: x, captures: cx, .. }, Type::Function { params: ys, ret: y, captures: cy, .. }) => {
            lemma_alpha_eq_symmetric(*x, li, *y, ri);
            assert forall|k: int| 0 <= k < xs@.len() && k < ys@.len() implies alpha_eq(#[trigger] xs@[k], li, ys@[k], ri)
                == alpha_eq(ys@[k], ri, xs@[k], li) by {
                lemma_alpha_eq_symmetric(xs@[k], li, ys@[k], ri);
            }
            assert forall|k: int| 0 <= k < cx@.len() && k < cy@.len() implies alpha_eq((#[trigger] cx@[k]).ty, li, cy@[k].ty, ri)
                == alpha_eq(cy@[k].ty, ri, cx@[k].ty, li) by {
                assert(decreases_to!(cx@[k] => cx@[k].ty));
                lemma_alpha_eq_symmetric(cx@[k].ty, li, cy@[k].ty, ri);
            }
        },
        _ => {
            lemma_ty_eq_sym(l, r);
        },
    }
}

/// Alpha-equivalence chains: relating `a` to `b` and `b` to `c` relates `a` to `c`.
pub proof fn lemma_alpha_eq_transitive(a: Type, ia: DefId, b: Type, ib: DefId, c: Type, ic: DefId)
    requires
        alpha_eq(a, ia, b, ib),
        alpha_eq(b, ib, c, ic),
    ensures
        alpha_eq(a, ia, c, ic),
    decreases a,
{
    match (a, b, c) {
        (Type::Slice(x), Type::Slice(y), Type::Slice(z)) => lemma_alpha_eq_transitive(*x, ia, *y, ib, *z, ic),
        (Type::Pointer(x), Type::Pointer(y), Type::Pointer(z)) => lemma_alpha_eq_transitive(*x, ia, *y, ib, *z, ic),
        (Type::Array(x, _), Type::Array(y, _), Type::Array(z, _)) => lemma_alpha_eq_transitive(*x, ia, *y, ib, *z, ic),
        (Type::Reference { inner: x, .. }, Type::Reference { inner: y, .. }, Type::Reference { inner: z, .. }) =>
            lemma_alpha_eq_transitive(*x, ia, *y, ib, *z, ic),
        (Type::Tuple(xs), Type::Tuple(ys), Type::Tuple(zs)) => {
            assert forall|k: int| 0 <= k < xs@.len() implies alpha_eq(#[trigger] xs@[k], ia, zs@[k], ic) by {
                lemma_alpha_eq_transitive(xs@[k], ia, ys@[k], ib, zs@[k], ic);
            }
        },
        (Type::Struct { args: xs, .. }, Type::Struct { args: ys, .. }, Type::Struct { args: zs, .. }) => {
            assert forall|k: int| 0 <= k < xs@.len() implies alpha_eq(#[trigger] xs@[k], ia, zs@[k], ic) by {
                lemma_alpha_eq_transitive(xs@[k], ia, ys@[k], ib, zs@[k], ic);
            }
        },
        (Type::Enum { args: xs, .. }, Type::Enum { args: ys, .. }, Type::Enum { args: zs, .. }) => {
            assert forall|k: int| 0 <= k < xs@.len() implies alpha_eq(#[trigger] xs@[k], ia, zs@[k], ic) by {
                lemma_alpha_eq_transitive(xs@[k], ia, ys@[k], ib, zs@[k], ic);
            }
        },
        (
            Type::Projection { ty: x, trait_args: xs, .. },
            Type::Projection { ty: y, trait_args: ys, .. },
            Type::Projection { ty: z, trait_args: zs, .. },
        ) => {
            lemma_alpha_eq_transitive(*x, ia, *y, ib, *z, ic);
            assert forall|k: int| 0 <= k < xs@.len() implies alpha_eq(#[trigger] xs@[k], ia, zs@[k], ic) by {
                lemma_alpha_eq_transitive(xs@[k], ia, ys@[k], ib, zs@[k], ic);
            }
        },
        (
            Type::Function { params: xs, ret: x, captures: cx, .. },
            Type::Function { params: ys, ret: y, captures: cy, .. },
            Type::Function { params: zs, ret: z, captures: cz, .. },
        ) => {
            lemma_alpha_eq_transitive(*x, ia, *y, ib, *z, ic);
            assert forall|k: int| 0 <= k < xs@.len() implies alpha_eq(#[trigger] xs@[k], ia, zs@[k], ic) by {
                lemma_alpha_eq_transitive(xs@[k], ia, ys@[k], ib, zs@[k], ic);
            }
            assert forall|k: int| 0 <= k < cx@.len() implies (#[trigger] cx@[k]).kind == cz@[k].kind
                && alpha_eq(cx@[k].ty, ia, cz@[k].ty, ic) by {
                assert(cx@[k].kind == cy@[k].kind && alpha_eq(cx@[k].ty, ia, cy@[k].ty, ib));
                assert(cy@[k].kind == cz@[k].kind && alpha_eq(cy@[k].ty, ib, cz@[k].ty, ic));
                assert(decreases_to!(cx@[k] => cx@[k].ty));
                lemma_alpha_eq_transitive(cx@[k].ty, ia, cy@[k].ty, ib, cz@[k].ty, ic);
            }
        },
        _ => {},
    }
}

/// Decides `alpha_generic`.
pub fn alpha_equivalent_generic_param(l: GenericParamId, li: DefId, r: GenericParamId, ri: DefId) -> (res: bool)
    ensures
        res == alpha_generic(l, li, r, ri),
{
    if l.owner == li || r.owner == ri {
        l.owner == li && r.owner == ri && l.index == r.index
    } else {
        l == r
    }
}

/// Decides `alpha_eq`.
pub fn alpha_equivalent_type(l: &Type, li: DefId, r: &Type, ri: DefId) -> (res: bool)
    ensures
        res == alpha_eq(*l, li, *r, ri),
    decreases l, 0nat,
{
    match (l, r) {
        (Type::Generic(a), Type::Generic(b)) => alpha_equivalent_generic_param(*a, li, *b, ri),
        (Type::Slice(a), Type::Slice(b)) => alpha_equivalent_type(a, li, b, ri),
        (Type::Pointer(a), Type::Pointer(b)) => alpha_equivalent_type(a, li, b, ri),
        (Type::Array(a, n), Type::Array(b, m)) => *n == *m && alpha_equivalent_type(a, li, b, ri),
        (Type::Tuple(xs), Type::Tuple(ys)) => {
            proof { assert(decreases_to!(*l => (*l)->Tuple_0)); }
            alpha_equivalent_type_lists(xs, li, ys, ri)
        },
        (
            Type::Function { params: p1, ret: r1, safety: s1, callable_kind: k1, captures: c1 },
            Type::Function { params: p2, ret: r2, safety: s2, callable_kind: k2, captures: c2 },
        ) => {
            proof {
                assert(decreases_to!(*l => (*l)->Function_params));
                assert(decreases_to!(*l => (*l)->Function_captures));
            }
            *s1 == *s2 && *k1 == *k2 && alpha_equivalent_captures(c1, li, c2, ri)
                && alpha_equivalent_type_lists(p1, li, p2, ri) && alpha_equivalent_type(r1, li, r2, ri)
        },
        (Type::Struct { id: i1, args: a1 }, Type::Struct { id: i2, args: a2 }) => {
            proof { assert(decreases_to!(*l => (*l)->Struct_args)); }
            *i1 == *i2 && alpha_equivalent_type_lists(a1, li, a2, ri)
        },
        (Type::Enum { id: i1, args: a1 }, Type::Enum { id: i2, args: a2 }) => {
            proof { assert(decreases_to!(*l => (*l)->Enum_args)); }
            *i1 == *i2 && alpha_equivalent_type_lists(a1, li, a2, ri)
        },
        (Type::Reference { mutable: m1, inner: a }, Type::Reference { mutable: m2, inner: b }) =>
            *m1 == *m2 && alpha_equivalent_type(a, li, b, ri),
        (
            Type::Projection { ty: t1, trait_id: tr1, assoc_type: as1, trait_args: a1 },
            Type::Projection { ty: t2, trait_id: tr2, assoc_type: as2, trait_args: a2 },
        ) => {
            proof { assert(decreases_to!(*l => (*l)->Projection_trait_args)); }
            *tr1 == *tr2 && *as1 == *as2 && alpha_equivalent_type(t1, li, t2, ri)
                && alpha_equivalent_type_lists(a1, li, a2, ri)
        },
        _ => types_equal(l, r),
    }
}

/// Decides `alpha_list`.
pub fn alpha_equivalent_type_lists(l: &Vec<Type>, li: DefId, r: &Vec<Type>, ri: DefId) -> (res: bool)
    ensures
        res == alpha_list(l@, li, r@, ri),
    decreases l, 1nat,
{
    if l.len() != r.len() {
        return false;
    }
    let mut i: usize = 0;
    while i < l.len()
        invariant
            i <= l@.len(),
            l@.len() == r@.len(),
            forall|j: int| 0 <= j < i ==> alpha_eq(#[trigger] l@[j], li, r@[j], ri),
        decreases l.len() - i,
    {
        proof { assert(decreases_to!(*l => l[i as int])); }
        if !alpha_equivalent_type(&l[i], li, &r[i], ri) {
            return false;
        }
        i = i + 1;
    }
    true
}

fn alpha_equivalent_captures(l: &Vec<CaptureType>, li: DefId, r: &Vec<CaptureType>, ri: DefId) -> (res: bool)
    ensures
        res == (l@.len() == r@.len() && forall|i: int|
            0 <= i < l@.len() ==> (#[trigger] l@[i]).kind == r@[i].kind && alpha_eq(l@[i].ty, li, r@[i].ty, ri)),
    decreases l, 1nat,
{
    if l.len() != r.len() {
        return false;
    }
    let mut i: usize = 0;
    while i < l.len()
        invariant
            i <= l@.len(),
            l@.len() == r@.len(),
            forall|j: int| 0 <= j < i ==> (#[trigger] l@[j]).kind == r@[j].kind && alpha_eq(l@[j].ty, li, r@[j].ty, ri),
        decreases l.len() - i,
    {
        proof {
            assert(decreases_to!(*l => l[i as int]));
            assert(decreases_to!(l[i as int] => l[i as int].ty));
        }
        if l[i].kind != r[i].kind || !alpha_equivalent_type(&l[i].ty, li, &r[i].ty, ri) {
            return false;
        }
        i = i + 1;
    }
    true
}

/// Decides `alpha_receiver`.
pub fn alpha_equivalent_receiver_pattern(
    l: &ImplReceiverPattern,
    li: DefId,
    r: &ImplReceiverPattern,
    ri: DefId,
) -> (res: bool)
    ensures
        res == alpha_receiver(*l, li, *r, ri),
{
    match (l, r) {
        (ImplReceiverPattern::Exact(a), ImplReceiverPattern::Exact(b)) => {
            match (a, b) {
                (Type::Reference { mutable: true, inner: x }, Type::Reference { mutable: false, inner: y }) =>
                    alpha_equivalent_type(x, li, y, ri),
                (Type::Reference { .. }, _) => false,
                (_, Type::Reference { .. }) => false,
                _ => alpha_equivalent_type(a, li, b, ri),
            }
        },
        (ImplReceiverPattern::SliceFamily { element: a }, ImplReceiverPattern::SliceFamily { element: b }) =>
            alpha_equivalent_type(a, li, b, ri),
        _ => false,
    }
}

/// Two trait bounds name the same trait with arguments equal up to impl renaming.
pub open spec fn bound_alpha(l: TraitBound, li: DefId, r: TraitBound, ri: DefId) -> bool {
    l.trait_id == r.trait_id && alpha_list(l.type_args@, li, r.type_args@, ri)
}

/// The first position at or after `k` of a right bound that is not yet
/// matched and pairs with `l`.
pub open spec fn first_free_match(
    l: TraitBound,
    li: DefId,
    right: Seq<TraitBound>,
    ri: DefId,
    matched: Seq<bool>,
    k: int,
) -> Option<int>
    decreases right.len() - k,
{
    if k < 0 || k >= right.len() {
        None
    } else if !matched[k] && bound_alpha(l, li, right[k], ri) {
        Some(k)
    } else {
        first_free_match(l, li, right, ri, matched, k + 1)
    }
}

/// Pairs each left bound from position `k` on, in order, with the first free
/// right bound that matches it; true when every left bound finds one.
pub open spec fn greedy_bounds(
    left: Seq<TraitBound>,
    li: DefId,
    right: Seq<TraitBound>,
    ri: DefId,
    matched: Seq<bool>,
    k: int,
) -> bool
    decreases left.len() - k,
{
    if k < 0 || k >= left.len() {
        true
    } else {
        match first_free_match(left[k], li, right, ri, matched, 0) {
            None => false,
            Some(j) => greedy_bounds(left, li, right, ri, matched.update(j, true), k + 1),
        }
    }
}

/// The two bound lists have the same length and the greedy pairing matches
/// every left bound with a distinct right bound.
pub open spec fn alpha_bound_multiset(left: Seq<TraitBound>, li: DefId, right: Seq<TraitBound>, ri: DefId) -> bool {
    left.len() == right.len() && greedy_bounds(left, li, right, ri, Seq::new(right.len(), |i: int| false), 0)
}

/// The first position at or after `k` of a right entry whose parameter
/// matches `p` up to impl renaming.
pub open spec fn first_param_match(
    p: GenericParamId,
    li: DefId,
    right: Seq<(GenericParamId, Vec<TraitBound>)>,
    ri: DefId,
    k: int,
) -> Option<int>
    decreases right.len() - k,
{
    if k < 0 || k >= right.len() {
        None
    } else if alpha_generic(p, li, right[k].0, ri) {
        Some(k)
    } else {
        first_param_match(p, li, right, ri, k + 1)
    }
}

/// Two generic-bound tables agree up to impl renaming: the same number of
/// bounded parameters, and each left parameter finds its renamed parameter
/// on the right with a bound list that pairs with its own.
pub open spec fn alpha_bounds(l: GenericBounds, li: DefId, r: GenericBounds, ri: DefId) -> bool {
    &&& l.entries@.len() == r.entries@.len()
    &&& forall|i: int| 0 <= i < l.entries@.len() ==> match first_param_match(
        (#[trigger] l.entries@[i]).0,
        li,
        r.entries@,
        ri,
        0,
    ) {
        None => false,
        Some(j) => alpha_bound_multiset(l.entries@[i].1@, li, r.entries@[j].1@, ri),
    }
}

proof fn lemma_first_free_match_range(
    l: TraitBound,
    li: DefId,
    right: Seq<TraitBound>,
    ri: DefId,
    matched: Seq<bool>,
    k: int,
)
    ensures
        first_free_match(l, li, right, ri, matched, k) matches Some(j) ==> k <= j < right.len()
            && !matched[j] && bound_alpha(l, li, right[j], ri),
    decreases right.len() - k,
{
    if k >= 0 && k < right.len() {
        lemma_first_free_match_range(l, li, right, ri, matched, k + 1);
    }
}

/// `first_free_match` finds a free matching right bound whenever one lies
/// at or after `k`.
proof fn lemma_first_free_match_found(
    l: TraitBound,
    li: DefId,
    right: Seq<TraitBound>,
    ri: DefId,
    matched: Seq<bool>,
    k: int,
    w: int,
)
    requires
        0 <= k <= w < right.len(),
        w < matched.len(),
        !matched[w],
        bound_alpha(l, li, right[w], ri),
    ensures
        first_free_match(l, li, right, ri, matched, k) is Some,
    decreases w - k,
{
    if k < w {
        if !(!matched[k] && bound_alpha(l, li, right[k], ri)) {
            lemma_first_free_match_found(l, li, right, ri, matched, k + 1, w);
        }
    }
}

/// Two left bounds alpha-equivalent to a common right bound are
/// alpha-equivalent to the same right bounds.
proof fn lemma_bound_alpha_swap(l1: TraitBound, l2: TraitBound, li: DefId, r1: TraitBound, r2: TraitBound, ri: DefId)
    requires
        bound_alpha(l1, li, r1, ri),
        bound_alpha(l2, li, r1, ri),
        bound_alpha(l1, li, r2, ri),
    ensures
        bound_alpha(l2, li, r2, ri),
{
    assert forall|i: int| 0 <= i < l2.type_args@.len() implies alpha_eq(#[trigger] l2.type_args@[i], li, r2.type_args@[i], ri) by {
        lemma_alpha_eq_symmetric(l1.type_args@[i], li, r1.type_args@[i], ri);
        lemma_alpha_eq_transitive(l2.type_args@[i], li, r1.type_args@[i], ri, l1.type_args@[i], li);
        lemma_alpha_eq_transitive(l2.type_args@[i], li, l1.type_args@[i], li, r2.type_args@[i], ri);
    }
}

/// `q` pairs each left bound from position `k` on with a distinct right
/// bound, not yet matched, that is alpha-equivalent to it.
pub open spec fn free_pairing(
    left: Seq<TraitBound>,
    li: DefId,
    right: Seq<TraitBound>,
    ri: DefId,
    matched: Seq<bool>,
    k: int,
    q: Seq<int>,
) -> bool {
    &&& q.len() == left.len() - k
    &&& forall|t: int| 0 <= t < q.len() ==> 0 <= #[trigger] q[t] < right.len() && !matched[q[t]]
        && bound_alpha(left[k + t], li, right[q[t]], ri)
    &&& forall|a: int, b: int| 0 <= a < b < q.len() ==> q[a] != q[b]
}

/// `p` pairs each left bound, by position, with a distinct right bound that
/// is alpha-equivalent to it.
pub open spec fn bound_pairing(left: Seq<TraitBound>, li: DefId, right: Seq<TraitBound>, ri: DefId, p: Seq<int>) -> bool {
    free_pairing(left, li, right, ri, Seq::new(right.len(), |i: int| false), 0, p)
}

proof fn lemma_greedy_sound(left: Seq<TraitBound>, li: DefId, right: Seq<TraitBound>, ri: DefId, matched: Seq<bool>, k: int)
    requires
        0 <= k <= left.len(),
        matched.len() == right.len(),
        greedy_bounds(left, li, right, ri, matched, k),
    ensures
        exists|q: Seq<int>| #[trigger] free_pairing(left, li, right, ri, matched, k, q),
    decreases left.len() - k,
{
    if k == left.len() {
        assert(free_pairing(left, li, right, ri, matched, k, Seq::<int>::empty()));
    } else {
        lemma_first_free_match_range(left[k], li, right, ri, matched, 0);
        let j = first_free_match(left[k], li, right, ri, matched, 0)->0;
        let m2 = matched.update(j, true);
        lemma_greedy_sound(left, li, right, ri, m2, k + 1);
        let q2 = choose|q: Seq<int>| #[trigger] free_pairing(left, li, right, ri, m2, k + 1, q);
        let q = seq![j] + q2;
        assert forall|t: int| 0 <= t < q.len() implies 0 <= #[trigger] q[t] < right.len() && !matched[q[t]]
            && bound_alpha(left[k + t], li, right[q[t]], ri) by {
            if t > 0 {
                assert(q[t] == q2[t - 1]);
                assert(k + t == (k + 1) + (t - 1));
            }
        }
        assert forall|a: int, b: int| 0 <= a < b < q.len() implies q[a] != q[b] by {
            if a > 0 {
                assert(q[a] == q2[a - 1] && q[b] == q2[b - 1]);
            } else {
                assert(q[b] == q2[b - 1]);
                assert(!m2[q2[b - 1]]);
            }
        }
        assert(free_pairing(left, li, right, ri, matched, k, q));
    }
}

proof fn lemma_greedy_complete(left: Seq<TraitBound>, li: DefId, right: Seq<TraitBound>, ri: DefId, matched: Seq<bool>, k: int, q: Seq<int>)
    requires
        0 <= k <= left.len(),
        matched.len() == right.len(),
        free_pairing(left, li, right, ri, matched, k, q),
    ensures
        greedy_bounds(left, li, right, ri, matched, k),
    decreases left.len() - k,
{
    if k < left.len() {
        assert(0 <= q[0] < right.len() && !matched[q[0]] && bound_alpha(left[k + 0], li, right[q[0]], ri));
        lemma_first_free_match_found(left[k], li, right, ri, matched, 0, q[0]);
        lemma_first_free_match_range(left[k], li, right, ri, matched, 0);
        let j = first_free_match(left[k], li, right, ri, matched, 0)->0;
        let m2 = matched.update(j, true);
        let rest = q.drop_first();
        let q2 = if exists|t: int| 0 <= t < rest.len() && rest[t] == j {
            let t = choose|t: int| 0 <= t < rest.len() && rest[t] == j;
            rest.update(t, q[0])
        } else {
            rest
        };
        if exists|t: int| 0 <= t < rest.len() && rest[t] == j {
            let t = choose|t: int| 0 <= t < rest.len() && rest[t] == j;
            assert(q[t + 1] == j);
            assert(q[0] != j);
            assert(bound_alpha(left[k + (t + 1)], li, right[j], ri));
            lemma_bound_alpha_swap(left[k], left[k + 1 + t], li, right[j], right[q[0]], ri);
            assert forall|s: int| 0 <= s < q2.len() implies 0 <= #[trigger] q2[s] < right.len() && !m2[q2[s]]
                && bound_alpha(left[(k + 1) + s], li, right[q2[s]], ri) by {
                if s == t {
                    assert(k + 1 + t == (k + 1) + s);
                } else {
                    assert(q2[s] == q[s + 1]);
                    assert(k + (s + 1) == (k + 1) + s);
                    assert(q[s + 1] != q[t + 1]);
                }
            }
            assert forall|a: int, b: int| 0 <= a < b < q2.len() implies q2[a] != q2[b] by {
                if a == t {
                    assert(q2[b] == q[b + 1]);
                } else if b == t {
                    assert(q2[a] == q[a + 1]);
                } else {
                    assert(q2[a] == q[a + 1] && q2[b] == q[b + 1]);
                }
            }
        } else {
            assert forall|s: int| 0 <= s < q2.len() implies 0 <= #[trigger] q2[s] < right.len() && !m2[q2[s]]
                && bound_alpha(left[(k + 1) + s], li, right[q2[s]], ri) by {
                assert(q2[s] == q[s + 1]);
                assert(k + (s + 1) == (k + 1) + s);
            }
            assert forall|a: int, b: int| 0 <= a < b < q2.len() implies q2[a] != q2[b] by {
                assert(q2[a] == q[a + 1] && q2[b] == q[b + 1]);
            }
        }
        assert(free_pairing(left, li, right, ri, m2, k + 1, q2));
        lemma_greedy_complete(left, li, right, ri, m2, k + 1, q2);
    }
}

/// Two bound lists pass `alpha_bound_multiset` exactly when they have the
/// same length and each left bound can be paired with a distinct right bound
/// alpha-equivalent to it: the first-free pairing finds a one-to-one pairing
/// whenever one exists.
pub proof fn lemma_bound_multiset_is_pairing(left: Seq<TraitBound>, li: DefId, right: Seq<TraitBound>, ri: DefId)
    ensures
        alpha_bound_multiset(left, li, right, ri)
            <==> (left.len() == right.len() && exists|p: Seq<int>| #[trigger] bound_pairing(left, li, right, ri, p)),
{
    let none = Seq::new(right.len(), |i: int| false);
    if alpha_bound_multiset(left, li, right, ri) {
        lemma_greedy_sound(left, li, right, ri, none, 0);
        let p = choose|q: Seq<int>| #[trigger] free_pairing(left, li, right, ri, none, 0, q);
        assert(bound_pairing(left, li, right, ri, p));
    }
    if left.len() == right.len() && exists|p: Seq<int>| #[trigger] bound_pairing(left, li, right, ri, p) {
        let p = choose|p: Seq<int>| #[trigger] bound_pairing(left, li, right, ri, p);
        lemma_greedy_complete(left, li, right, ri, none, 0, p);
    }
}

proof fn lemma_first_param_match_range(
    p: GenericParamId,
    li: DefId,
    right: Seq<(GenericParamId, Vec<TraitBound>)>,
    ri: DefId,
    k: int,
)
    ensures
        first_param_match(p, li, right, ri, k) matches Some(j) ==> k <= j < right.len()
            && alpha_generic(p, li, right[j].0, ri),
    decreases right.len() - k,
{
    if k >= 0 && k < right.len() {
        lemma_first_param_match_range(p, li, right, ri, k + 1);
    }
}

fn find_free_match(
    l: &TraitBound,
    li: DefId,
    right: &Vec<TraitBound>,
    ri: DefId,
    matched: &Vec<bool>,
) -> (res: Option<usize>)
    requires
        matched@.len() == right@.len(),
    ensures
        match first_free_match(*l, li, right@, ri, matched@, 0) {
            None => res is None,
            Some(j) => 0 <= j < right@.len() && res == Some(j as usize),
        },
        res matches Some(j) ==> j < right@.len(),
{
    proof { lemma_first_free_match_range(*l, li, right@, ri, matched@, 0); }
    let mut k: usize = 0;
    while k < right.len()
        invariant
            k <= right@.len(),
            matched@.len() == right@.len(),
            first_free_match(*l, li, right@, ri, matched@, 0) == first_free_match(*l, li, right@, ri, matched@, k as int),
        decreases right.len() - k,
    {
        if !matched[k] && l.trait_id == right[k].trait_id
            && alpha_equivalent_type_lists(&l.type_args, li, &right[k].type_args, ri) {
            return Some(k);
        }
        k = k + 1;
    }
    None
}

/// Decides `alpha_bound_multiset`.
pub fn alpha_equivalent_bound_multiset(left: &Vec<TraitBound>, li: DefId, right: &Vec<TraitBound>, ri: DefId) -> (res: bool)
    ensures
        res == alpha_bound_multiset(left@, li, right@, ri),
{
    if left.len() != right.len() {
        return false;
    }
    let mut matched: Vec<bool> = Vec::new();
    let mut n: usize = 0;
    while n < right.len()
        invariant
            n <= right@.len(),
            matched@.len() == n,
            forall|q: int| 0 <= q < n ==> !matched@[q],
        decreases right.len() - n,
    {
        matched.push(false);
        n = n + 1;
    }
    assert(matched@ =~= Seq::new(right@.len(), |i: int| false));
    let mut k: usize = 0;
    while k < left.len()
        invariant
            k <= left@.len(),
            left@.len() == right@.len(),
            matched@.len() == right@.len(),
            alpha_bound_multiset(left@, li, right@, ri) == greedy_bounds(left@, li, right@, ri, matched@, k as int),
        decreases left.len() - k,
    {
        let ghost before = matched@;
        match find_free_match(&left[k], li, right, ri, &matched) {
            None => {
                assert(first_free_match(left@[k as int], li, right@, ri, before, 0) is None);
                assert(!greedy_bounds(left@, li, right@, ri, before, k as int));
                return false;
            },
            Some(j) => {
                assert(first_free_match(left@[k as int], li, right@, ri, before, 0) == Some(j as int));
                matched.set(j, true);
                assert(greedy_bounds(left@, li, right@, ri, before, k as int) == greedy_bounds(
                    left@, li, right@, ri, before.update(j as int, true), k + 1));
            },
        }
        k = k + 1;
    }
    true
}

fn find_param_match(
    p: GenericParamId,
    li: DefId,
    right: &Vec<(GenericParamId, Vec<TraitBound>)>,
    ri: DefId,
) -> (res: Option<usize>)
    ensures
        match first_param_match(p, li, right@, ri, 0) {
            None => res is None,
            Some(j) => 0 <= j < right@.len() && res == Some(j as usize),
        },
        res matches Some(j) ==> j < right@.len(),
{
    proof { lemma_first_param_match_range(p, li, right@, ri, 0); }
    let mut k: usize = 0;
    while k < right.len()
        invariant
            k <= right@.len(),
            first_param_match(p, li, right@, ri, 0) == first_param_match(p, li, right@, ri, k as int),
        decreases right.len() - k,
    {
        if alpha_equivalent_generic_param(p, li, right[k].0, ri) {
            return Some(k);
        }
        k = k + 1;
    }
    None
}

/// Decides `alpha_bounds`.
pub fn alpha_equivalent_bounds(l: &GenericBounds, li: DefId, r: &GenericBounds, ri: DefId) -> (res: bool)
    ensures
        res == alpha_bounds(*l, li, *r, ri),
{
    if l.entries.len() != r.entries.len() {
        return false;
    }
    let mut i: usize = 0;
    while i < l.entries.len()
        invariant
            i <= l.entries@.len(),
            l.entries@.len() == r.entries@.len(),
            forall|q: int| 0 <= q < i ==> match first_param_match((#[trigger] l.entries@[q]).0, li, r.entries@, ri, 0) {
                None => false,
                Some(j) => alpha_bound_multiset(l.entries@[q].1@, li, r.entries@[j].1@, ri),
            },
        decreases l.entries.len() - i,
    {
        match find_param_match(l.entries[i].0, li, &r.entries, ri) {
            None => {
                assert(first_param_match(l.entries@[i as int].0, li, r.entries@, ri, 0) is None);
                return false;
            },
            Some(j) => {
                assert(first_param_match(l.entries@[i as int].0, li, r.entries@, ri, 0) == Some(j as int));
                if !alpha_equivalent_bound_multiset(&l.entries[i].1, li, &r.entries[j].1, ri) {
                    assert(!alpha_bound_multiset(l.entries@[i as int].1@, li, r.entries@[j as int].1@, ri));
                    return false;
                }
            },
        }
        i = i + 1;
    }
    true
}

} // verus!
