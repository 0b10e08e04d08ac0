use vstd::prelude::*;
use vstd::string::*;

use crate::ids::{AssocTypeId, DefId};

verus! {

/// An inference variable left behind by type checking.
#[derive(Clone, Copy, Debug, PartialEq, Eq, Structural, Hash)]
pub struct TypeVarId(pub u32);

/// A generic parameter: the definition that declares it and its position.
#[derive(Clone, Copy, Debug, PartialEq, Eq, Structural, Hash)]
pub struct GenericParamId {
    pub owner: DefId,
    pub index: u32,
}

/// An associated type: the trait that declares it and its identity there.
#[derive(Clone, Copy, Debug, PartialEq, Eq, Structural, Hash)]
pub struct AssociatedTypeKey {
    pub owner: DefId,
    pub assoc_type_id: AssocTypeId,
}

/// How a method takes its receiver.
#[derive(Clone, Copy, Debug, PartialEq, Eq, Structural, Hash)]
pub enum ReceiverMode {
    Move,
    Shared,
    Mut,
}

/// The kind of nominal definition a type constructor names.
#[derive(Clone, Copy, Debug, PartialEq, Eq, Structural, Hash)]
pub enum NominalTypeKind {
    Struct,
    Enum,
    Alias,
}

/// Whether a function type may only be called from unsafe code.
#[derive(Clone, Copy, Debug, PartialEq, Eq, Structural, Hash)]
pub enum Safety {
    Safe,
    Unsafe,
}

/// Whether a function type is a plain function or a closure.
#[derive(Clone, Copy, Debug, PartialEq, Eq, Structural, Hash)]
pub enum CallableKind {
    Function,
    Closure,
}

/// How a closure captures one value.
#[derive(Clone, Copy, Debug, PartialEq, Eq, Structural, Hash)]
pub enum CaptureKind {
    ByValue,
    ByRef,
    ByMutRef,
}

/// One captured value in a closure type.
#[derive(Debug)]
pub struct CaptureType {
    pub kind: CaptureKind,
    pub ty: Type,
}

/// A type as it is stored in product artifacts.
#[derive(Debug)]
pub enum Type {
    Unit,
    Bool,
    I64,
    Str,
    Error,
    TypeVar(TypeVarId),
    Generic(GenericParamId),
    Slice(Box<Type>),
    Pointer(Box<Type>),
    Array(Box<Type>, u64),
    Tuple(Vec<Type>),
    Function {
        params: Vec<Type>,
        ret: Box<Type>,
        safety: Safety,
        callable_kind: CallableKind,
        captures: Vec<CaptureType>,
    },
    Struct { id: DefId, args: Vec<Type> },
    Enum { id: DefId, args: Vec<Type> },
    Constructor { id: DefId, flavor: NominalTypeKind },
    Reference { mutable: bool, inner: Box<Type> },
    Projection {
        ty: Box<Type>,
        trait_id: DefId,
        assoc_type: AssociatedTypeKey,
        trait_args: Vec<Type>,
    },
}

/// Structural equality of two types, comparing nested lists element by element.
pub open spec fn ty_eq(a: Type, b: Type) -> bool
    decreases a,
{
    match (a, b) {
        (Type::Unit, Type::Unit) => true,
        (Type::Bool, Type::Bool) => true,
        (Type::I64, Type::I64) => true,
        (Type::Str, Type::Str) => true,
        (Type::Error, Type::Error) => true,
        (Type::TypeVar(x), Type::TypeVar(y)) => x == y,
        (Type::Generic(x), Type::Generic(y)) => x == y,
        (Type::Slice(x), Type::Slice(y)) => ty_eq(*x, *y),
        (Type::Pointer(x), Type::Pointer(y)) => ty_eq(*x, *y),
        (Type::Array(x, n), Type::Array(y, m)) => n == m && ty_eq(*x, *y),
        (Type::Tuple(xs), Type::Tuple(ys)) => xs@.len() == ys@.len() && forall|i: int|
            0 <= i < xs@.len() ==> ty_eq(#[trigger] xs@[i], ys@[i]),
        (
            Type::Function { params: p1, ret: r1, safety: s1, callable_kind: k1, captures: c1 },
            Type::Function { params: p2, ret: r2, safety: s2, callable_kind: k2, captures: c2 },
        ) => {
            &&& s1 == s2
            &&& k1 == k2
            &&& p1@.len() == p2@.len()
            &&& (forall|i: int| 0 <= i < p1@.len() ==> ty_eq(#[trigger] p1@[i], p2@[i]))
            &&& ty_eq(*r1, *r2)
            &&& c1@.len() == c2@.len()
            &&& (forall|i: int|
                0 <= i < c1@.len() ==> (#[trigger] c1@[i]).kind == c2@[i].kind && ty_eq(
                    c1@[i].ty,
                    c2@[i].ty,
                ))
        },
        (Type::Struct { id: i1, args: a1 }, Type::Struct { id: i2, args: a2 }) => i1 == i2
            && a1@.len() == a2@.len() && forall|i: int|
            0 <= i < a1@.len() ==> ty_eq(#[trigger] a1@[i], a2@[i]),
        (Type::Enum { id: i1, args: a1 }, Type::Enum { id: i2, args: a2 }) => i1 == i2
            && a1@.len() == a2@.len() && forall|i: int|
            0 <= i < a1@.len() ==> ty_eq(#[trigger] a1@[i], a2@[i]),
        (Type::Constructor { id: i1, flavor: f1 }, Type::Constructor { id: i2, flavor: f2 }) => i1
            == i2 && f1 == f2,
        (Type::Reference { mutable: m1, inner: x }, Type::Reference { mutable: m2, inner: y }) => m1
            == m2 && ty_eq(*x, *y),
        (
            Type::Projection { ty: t1, trait_id: tr1, assoc_type: as1, trait_args: a1 },
            Type::Projection { ty: t2, trait_id: tr2, assoc_type: as2, trait_args: a2 },
        ) => {
            &&& tr1 == tr2
            &&& as1 == as2
            &&& ty_eq(*t1, *t2)
            &&& a1@.len() == a2@.len()
            &&& forall|i: int| 0 <= i < a1@.len() ==> ty_eq(#[trigger] a1@[i], a2@[i])
        },
        _ => false,
    }
}

/// Element-wise structural equality of two type lists.
pub open spec fn tys_eq(a: Seq<Type>, b: Seq<Type>) -> bool {
    a.len() == b.len() && forall|i: int| 0 <= i < a.len() ==> ty_eq(#[trigger] a[i], b[i])
}


/// Element-wise structural equality of two capture lists.
pub open spec fn captures_eq(a: Seq<CaptureType>, b: Seq<CaptureType>) -> bool {
    a.len() == b.len() && forall|i: int|
        0 <= i < a.len() ==> (#[trigger] a[i]).kind == b[i].kind && ty_eq(a[i].ty, b[i].ty)
}

/// Structural equality is reflexive.
pub proof fn lemma_ty_eq_refl(t: Type)
    ensures
        ty_eq(t, t),
    decreases t,
{
    match t {
        Type::Slice(x) => lemma_ty_eq_refl(*x),
        Type::Pointer(x) => lemma_ty_eq_refl(*x),
        Type::Array(x, _) => lemma_ty_eq_refl(*x),
        Type::Reference { inner, .. } => lemma_ty_eq_refl(*inner),
        Type::Tuple(xs) => {
            assert forall|i: int| 0 <= i < xs@.len() implies ty_eq(#[trigger] xs@[i], xs@[i]) by {
                lemma_ty_eq_refl(xs@[i]);
            }
        },
        Type::Struct { args, .. } => {
            assert forall|i: int| 0 <= i < args@.len() implies ty_eq(#[trigger] args@[i], args@[i]) by {
                lemma_ty_eq_refl(args@[i]);
            }
        },
        Type::Enum { args, .. } => {
            assert forall|i: int| 0 <= i < args@.len() implies ty_eq(#[trigger] args@[i], args@[i]) by {
                lemma_ty_eq_refl(args@[i]);
            }
        },
        Type::Projection { ty, trait_args, .. } => {
            lemma_ty_eq_refl(*ty);
            assert forall|i: int| 0 <= i < trait_args@.len() implies ty_eq(
                #[trigger] trait_args@[i],
                trait_args@[i],
            ) by {
                lemma_ty_eq_refl(trait_args@[i]);
            }
        },
        Type::Function { params, ret, captures, .. } => {
            lemma_ty_eq_refl(*ret);
            assert forall|i: int| 0 <= i < params@.len() implies ty_eq(
                #[trigger] params@[i],
                params@[i],
            ) by {
                lemma_ty_eq_refl(params@[i]);
            }
            assert forall|i: int| 0 <= i < captures@.len() implies (#[trigger] captures@[i]).kind
                == captures@[i].kind && ty_eq(captures@[i].ty, captures@[i].ty) by {
                assert(decreases_to!(captures@[i] => captures@[i].ty));
                lemma_ty_eq_refl(captures@[i].ty);
            }
        },
        _ => {},
    }
}

/// Structural equality is symmetric.
pub proof fn lemma_ty_eq_sym(a: Type, b: Type)
    ensures
        ty_eq(a, b) == ty_eq(b, a),
    decreases a,
{
    match (a, b) {
        (Type::Slice(x), Type::Slice(y)) => lemma_ty_eq_sym(*x, *y),
        (Type::Pointer(x), Type::Pointer(y)) => lemma_ty_eq_sym(*x, *y),
        (Type::Array(x, _), Type::Array(y, _)) => lemma_ty_eq_sym(*x, *y),
        (Type::Reference { inner: x, .. }, Type::Reference { inner: y, .. }) => lemma_ty_eq_sym(*x, *y),
        (Type::Tuple(xs), Type::Tuple(ys)) => {
            assert forall|i: int| 0 <= i < xs@.len() && i < ys@.len() implies ty_eq(#[trigger] xs@[i], ys@[i]) == ty_eq(ys@[i], xs@[i]) by {
                lemma_ty_eq_sym(xs@[i], ys@[i]);
            }
        },
        (Type::Struct { args: xs, .. }, Type::Struct { args: ys, .. }) => {
            assert forall|i: int| 0 <= i < xs@.len() && i < ys@.len() implies ty_eq(#[trigger] xs@[i], ys@[i]) == ty_eq(ys@[i], xs@[i]) by {
                lemma_ty_eq_sym(xs@[i], ys@[i]);
            }
        },
        (Type::Enum { args: xs, .. }, Type::Enum { args: ys, .. }) => {
            assert forall|i: int| 0 <= i < xs@.len() && i < ys@.len() implies ty_eq(#[trigger] xs@[i], ys@[i]) == ty_eq(ys@[i], xs@[i]) by {
                lemma_ty_eq_sym(xs@[i], ys@[i]);
            }
        },
        (Type::Projection { ty: x, trait_args: xs, .. }, Type::Projection { ty: y, trait_args: ys, .. }) => {
            lemma_ty_eq_sym(*x, *y);
            assert forall|i: int| 0 <= i < xs@.len() && i < ys@.len() implies ty_eq(#[trigger] xs@[i], ys@[i]) == ty_eq(ys@[i], xs@[i]) by {
                lemma_ty_eq_sym(xs@[i], ys@[i]);
            }
        },
        (Type::Function { params: xs, ret: x, captures: cx, .. }, Type::Function { params: ys, ret: y, captures: cy, .. }) => {
            lemma_ty_eq_sym(*x, *y);
            assert forall|i: int| 0 <= i < xs@.len() && i < ys@.len() implies ty_eq(#[trigger] xs@[i], ys@[i]) == ty_eq(ys@[i], xs@[i]) by {
                lemma_ty_eq_sym(xs@[i], ys@[i]);
            }
            assert forall|i: int| 0 <= i < cx@.len() && i < cy@.len() implies ty_eq((#[trigger] cx@[i]).ty, cy@[i].ty) == ty_eq(cy@[i].ty, cx@[i].ty) by {
                assert(decreases_to!(cx@[i] => cx@[i].ty));
                lemma_ty_eq_sym(cx@[i].ty, cy@[i].ty);
            }
        },
        _ => {},
    }
}

/// Structural equality is transitive.
pub proof fn lemma_ty_eq_trans(a: Type, b: Type, c: Type)
    requires
        ty_eq(a, b),
        ty_eq(b, c),
    ensures
        ty_eq(a, c),
    decreases a,
{
    match (a, b, c) {
        (Type::Slice(x), Type::Slice(y), Type::Slice(z)) => lemma_ty_eq_trans(*x, *y, *z),
        (Type::Pointer(x), Type::Pointer(y), Type::Pointer(z)) => lemma_ty_eq_trans(*x, *y, *z),
        (Type::Array(x, _), Type::Array(y, _), Type::Array(z, _)) => lemma_ty_eq_trans(*x, *y, *z),
        (Type::Reference { inner: x, .. }, Type::Reference { inner: y, .. }, Type::Reference { inner: z, .. }) =>
            lemma_ty_eq_trans(*x, *y, *z),
        (Type::Tuple(xs), Type::Tuple(ys), Type::Tuple(zs)) => {
            assert forall|k: int| 0 <= k < xs@.len() implies ty_eq(#[trigger] xs@[k], zs@[k]) by {
                lemma_ty_eq_trans(xs@[k], ys@[k], zs@[k]);
            }
        },
        (Type::Struct { args: xs, .. }, Type::Struct { args: ys, .. }, Type::Struct { args: zs, .. }) => {
            assert forall|k: int| 0 <= k < xs@.len() implies ty_eq(#[trigger] xs@[k], zs@[k]) by {
                lemma_ty_eq_trans(xs@[k], ys@[k], zs@[k]);
            }
        },
        (Type::Enum { args: xs, .. }, Type::Enum { args: ys, .. }, Type::Enum { args: zs, .. }) => {
            assert forall|k: int| 0 <= k < xs@.len() implies ty_eq(#[trigger] xs@[k], zs@[k]) by {
                lemma_ty_eq_trans(xs@[k], ys@[k], zs@[k]);
            }
        },
        (
            Type::Projection { ty: x, trait_args: xs, .. },
            Type::Projection { ty: y, trait_args: ys, .. },
            Type::Projection { ty: z, trait_args: zs, .. },
        ) => {
            lemma_ty_eq_trans(*x, *y, *z);
            assert forall|k: int| 0 <= k < xs@.len() implies ty_eq(#[trigger] xs@[k], zs@[k]) by {
                lemma_ty_eq_trans(xs@[k], ys@[k], zs@[k]);
            }
        },
        (
            Type::Function { params: xs, ret: x, captures: cx, .. },
            Type::Function { params: ys, ret: y, captures: cy, .. },
            Type::Function { params: zs, ret: z, captures: cz, .. },
        ) => {
            lemma_ty_eq_trans(*x, *y, *z);
            assert forall|k: int| 0 <= k < xs@.len() implies ty_eq(#[trigger] xs@[k], zs@[k]) by {
                lemma_ty_eq_trans(xs@[k], ys@[k], zs@[k]);
            }
            assert forall|k: int| 0 <= k < cx@.len() implies (#[trigger] cx@[k]).kind == cz@[k].kind && ty_eq(cx@[k].ty, cz@[k].ty) by {
                assert(cx@[k].kind == cy@[k].kind && ty_eq(cx@[k].ty, cy@[k].ty));
                assert(cy@[k].kind == cz@[k].kind && ty_eq(cy@[k].ty, cz@[k].ty));
                assert(decreases_to!(cx@[k] => cx@[k].ty));
                lemma_ty_eq_trans(cx@[k].ty, cy@[k].ty, cz@[k].ty);
            }
        },
        _ => {},
    }
}

/// A copy of a type, equal to it structurally.
pub fn copy_type(t: &Type) -> (r: Type)
    ensures
        ty_eq(r, *t),
    decreases t, 0nat,
{
    match t {
        Type::Unit => Type::Unit,
        Type::Bool => Type::Bool,
        Type::I64 => Type::I64,
        Type::Str => Type::Str,
        Type::Error => Type::Error,
        Type::TypeVar(v) => Type::TypeVar(*v),
        Type::Generic(p) => Type::Generic(*p),
        Type::Slice(x) => Type::Slice(Box::new(copy_type(x))),
        Type::Pointer(x) => Type::Pointer(Box::new(copy_type(x))),
        Type::Array(x, n) => Type::Array(Box::new(copy_type(x)), *n),
        Type::Tuple(xs) => {
            proof { assert(decreases_to!(*t => (*t)->Tuple_0)); }
            Type::Tuple(copy_types(xs))
        },
        Type::Function { params, ret, safety, callable_kind, captures } => {
            proof {
                assert(decreases_to!(*t => (*t)->Function_params));
                assert(decreases_to!(*t => (*t)->Function_captures));
            }
            let p = copy_types(params);
            let r = copy_type(ret);
            let c = copy_captures(captures);
            Type::Function { params: p, ret: Box::new(r), safety: *safety, callable_kind: *callable_kind, captures: c }
        },
        Type::Struct { id, args } => {
            proof { assert(decreases_to!(*t => (*t)->Struct_args)); }
            Type::Struct { id: *id, args: copy_types(args) }
        },
        Type::Enum { id, args } => {
            proof { assert(decreases_to!(*t => (*t)->Enum_args)); }
            Type::Enum { id: *id, args: copy_types(args) }
        },
        Type::Constructor { id, flavor } => Type::Constructor { id: *id, flavor: *flavor },
        Type::Reference { mutable, inner } => Type::Reference { mutable: *mutable, inner: Box::new(copy_type(inner)) },
        Type::Projection { ty, trait_id, assoc_type, trait_args } => {
            proof { assert(decreases_to!(*t => (*t)->Projection_trait_args)); }
            let inner = copy_type(ty);
            let args = copy_types(trait_args);
            Type::Projection { ty: Box::new(inner), trait_id: *trait_id, assoc_type: *assoc_type, trait_args: args }
        },
    }
}

/// A copy of a type list, equal to it element by element.
pub fn copy_types(ts: &Vec<Type>) -> (r: Vec<Type>)
    ensures
        tys_eq(r@, ts@),
    decreases ts, 1nat,
{
    let mut out: Vec<Type> = Vec::new();
    let mut i: usize = 0;
    while i < ts.len()
        invariant
            i <= ts@.len(),
            tys_eq(out@, ts@.subrange(0, i as int)),
        decreases ts.len() - i,
    {
        proof { assert(decreases_to!(*ts => ts[i as int])); }
        let c = copy_type(&ts[i]);
        out.push(c);
        i = i + 1;
    }
    assert(ts@.subrange(0, ts@.len() as int) =~= ts@);
    out
}

/// A copy of a capture list, equal to it element by element.
pub fn copy_captures(cs: &Vec<CaptureType>) -> (r: Vec<CaptureType>)
    ensures
        captures_eq(r@, cs@),
    decreases cs, 1nat,
{
    let mut out: Vec<CaptureType> = Vec::new();
    let mut i: usize = 0;
    while i < cs.len()
        invariant
            i <= cs@.len(),
            captures_eq(out@, cs@.subrange(0, i as int)),
        decreases cs.len() - i,
    {
        proof {
            assert(decreases_to!(*cs => cs[i as int]));
            assert(decreases_to!(cs[i as int] => cs[i as int].ty));
        }
        let c = CaptureType { kind: cs[i].kind, ty: copy_type(&cs[i].ty) };
        out.push(c);
        i = i + 1;
    }
    assert(cs@.subrange(0, cs@.len() as int) =~= cs@);
    out
}

/// Decides structural equality of two types.
pub fn types_equal(a: &Type, b: &Type) -> (r: bool)
    ensures
        r == ty_eq(*a, *b),
    decreases a, 0nat,
{
    match (a, b) {
        (Type::Unit, Type::Unit) => true,
        (Type::Bool, Type::Bool) => true,
        (Type::I64, Type::I64) => true,
        (Type::Str, Type::Str) => true,
        (Type::Error, Type::Error) => true,
        (Type::TypeVar(x), Type::TypeVar(y)) => x.0 == y.0,
        (Type::Generic(x), Type::Generic(y)) => x == y,
        (Type::Slice(x), Type::Slice(y)) => types_equal(x, y),
        (Type::Pointer(x), Type::Pointer(y)) => types_equal(x, y),
        (Type::Array(x, n), Type::Array(y, m)) => *n == *m && types_equal(x, y),
        (Type::Tuple(xs), Type::Tuple(ys)) => {
            proof { assert(decreases_to!(*a => (*a)->Tuple_0)); }
            type_lists_equal(xs, ys)
        },
        (
            Type::Function { params: p1, ret: r1, safety: s1, callable_kind: k1, captures: c1 },
            Type::Function { params: p2, ret: r2, safety: s2, callable_kind: k2, captures: c2 },
        ) => {
            proof {
                assert(decreases_to!(*a => (*a)->Function_params));
                assert(decreases_to!(*a => (*a)->Function_captures));
            }
            *s1 == *s2 && *k1 == *k2 && type_lists_equal(p1, p2) && types_equal(r1, r2)
                && capture_lists_equal(c1, c2)
        },
        (Type::Struct { id: i1, args: a1 }, Type::Struct { id: i2, args: a2 }) => {
            proof { assert(decreases_to!(*a => (*a)->Struct_args)); }
            *i1 == *i2 && type_lists_equal(a1, a2)
        },
        (Type::Enum { id: i1, args: a1 }, Type::Enum { id: i2, args: a2 }) => {
            proof { assert(decreases_to!(*a => (*a)->Enum_args)); }
            *i1 == *i2 && type_lists_equal(a1, a2)
        },
        (Type::Constructor { id: i1, flavor: f1 }, Type::Constructor { id: i2, flavor: f2 }) => *i1 == *i2 && *f1 == *f2,
        (Type::Reference { mutable: m1, inner: x }, Type::Reference { mutable: m2, inner: y }) => *m1 == *m2 && types_equal(x, y),
        (
            Type::Projection { ty: t1, trait_id: tr1, assoc_type: as1, trait_args: a1 },
            Type::Projection { ty: t2, trait_id: tr2, assoc_type: as2, trait_args: a2 },
        ) => {
            proof { assert(decreases_to!(*a => (*a)->Projection_trait_args)); }
            *tr1 == *tr2 && *as1 == *as2 && types_equal(t1, t2) && type_lists_equal(a1, a2)
        },
        _ => false,
    }
}

/// Decides element-wise structural equality of two type lists.
pub fn type_lists_equal(a: &Vec<Type>, b: &Vec<Type>) -> (r: bool)
    ensures
        r == tys_eq(a@, b@),
    decreases a, 1nat,
{
    if a.len() != b.len() {
        return false;
    }
    let mut i: usize = 0;
    while i < a.len()
        invariant
            i <= a@.len(),
            a@.len() == b@.len(),
            forall|j: int| 0 <= j < i ==> ty_eq(#[trigger] a@[j], b@[j]),
        decreases a.len() - i,
    {
        proof { assert(decreases_to!(*a => a[i as int])); }
        if !types_equal(&a[i], &b[i]) {
            return false;
        }
        i = i + 1;
    }
    true
}

/// Decides element-wise structural equality of two capture lists.
pub fn capture_lists_equal(a: &Vec<CaptureType>, b: &Vec<CaptureType>) -> (r: bool)
    ensures
        r == captures_eq(a@, b@),
    decreases a, 1nat,
{
    if a.len() != b.len() {
        return false;
    }
    let mut i: usize = 0;
    while i < a.len()
        invariant
            i <= a@.len(),
            a@.len() == b@.len(),
            forall|j: int| 0 <= j < i ==> (#[trigger] a@[j]).kind == b@[j].kind && ty_eq(a@[j].ty, b@[j].ty),
        decreases a.len() - i,
    {
        proof {
            assert(decreases_to!(*a => a[i as int]));
            assert(decreases_to!(a[i as int] => a[i as int].ty));
        }
        if a[i].kind != b[i].kind || !types_equal(&a[i].ty, &b[i].ty) {
            return false;
        }
        i = i + 1;
    }
    true
}

/// Whether `p` holds of `t` or of any type nested inside it.
pub open spec fn type_any(t: Type, p: spec_fn(Type) -> bool) -> bool
    decreases t,
{
    p(t) || match t {
        Type::Slice(x) => type_any(*x, p),
        Type::Pointer(x) => type_any(*x, p),
        Type::Array(x, _) => type_any(*x, p),
        Type::Reference { inner, .. } => type_any(*inner, p),
        Type::Tuple(xs) => exists|i: int| 0 <= i < xs@.len() && type_any(#[trigger] xs@[i], p),
        Type::Function { params, ret, captures, .. } => {
            ||| exists|i: int| 0 <= i < params@.len() && type_any(#[trigger] params@[i], p)
            ||| type_any(*ret, p)
            ||| exists|i: int| 0 <= i < captures@.len() && type_any((#[trigger] captures@[i]).ty, p)
        },
        Type::Struct { args, .. } => exists|i: int| 0 <= i < args@.len() && type_any(#[trigger] args@[i], p),
        Type::Enum { args, .. } => exists|i: int| 0 <= i < args@.len() && type_any(#[trigger] args@[i], p),
        Type::Projection { ty, trait_args, .. } => {
            ||| type_any(*ty, p)
            ||| exists|i: int| 0 <= i < trait_args@.len() && type_any(#[trigger] trait_args@[i], p)
        },
        _ => false,
    }
}

/// Whether `p` holds of some type in the list or nested inside one.
pub open spec fn types_any(ts: Seq<Type>, p: spec_fn(Type) -> bool) -> bool {
    exists|i: int| 0 <= i < ts.len() && type_any(#[trigger] ts[i], p)
}

/// The types that type checking leaves behind when it failed: an inference
/// variable or the error type.
pub open spec fn is_sentinel(t: Type) -> bool {
    t is TypeVar || t is Error
}

/// The types that code generation cannot lay out without further
/// instantiation: generic parameters, inference variables, the error type,
/// unnormalized projections and bare type constructors.
pub open spec fn is_non_concrete_leaf(t: Type) -> bool {
    t is Generic || t is TypeVar || t is Error || t is Projection || t is Constructor
}

/// Whether `t` is the generic parameter `g`.
pub open spec fn is_generic_param(t: Type, g: GenericParamId) -> bool {
    t == Type::Generic(g)
}

/// Whether an inference variable or the error type occurs anywhere in `t`.
pub fn contains_forbidden_sentinel(t: &Type) -> (r: bool)
    ensures
        r == type_any(*t, |x: Type| is_sentinel(x)),
    decreases t, 0nat,
{
    match t {
        Type::TypeVar(_) | Type::Error => true,
        Type::Slice(x) | Type::Pointer(x) | Type::Array(x, _) => contains_forbidden_sentinel(x),
        Type::Reference { inner, .. } => contains_forbidden_sentinel(inner),
        Type::Tuple(xs) => {
            proof { assert(decreases_to!(*t => (*t)->Tuple_0)); }
            list_contains_forbidden_sentinel(xs)
        },
        Type::Function { params, ret, captures, .. } => {
            proof {
                assert(decreases_to!(*t => (*t)->Function_params));
                assert(decreases_to!(*t => (*t)->Function_captures));
            }
            list_contains_forbidden_sentinel(params) || contains_forbidden_sentinel(ret)
                || captures_contain_forbidden_sentinel(captures)
        },
        Type::Struct { args, .. } => {
            proof { assert(decreases_to!(*t => (*t)->Struct_args)); }
            list_contains_forbidden_sentinel(args)
        },
        Type::Enum { args, .. } => {
            proof { assert(decreases_to!(*t => (*t)->Enum_args)); }
            list_contains_forbidden_sentinel(args)
        },
        Type::Projection { ty, trait_args, .. } => {
            proof { assert(decreases_to!(*t => (*t)->Projection_trait_args)); }
            contains_forbidden_sentinel(ty) || list_contains_forbidden_sentinel(trait_args)
        },
        _ => false,
    }
}

/// Whether an inference variable or the error type occurs in some type of the list.
pub fn list_contains_forbidden_sentinel(ts: &Vec<Type>) -> (r: bool)
    ensures
        r == types_any(ts@, |x: Type| is_sentinel(x)),
    decreases ts, 1nat,
{
    let mut i: usize = 0;
    while i < ts.len()
        invariant
            i <= ts@.len(),
            forall|j: int| 0 <= j < i ==> !type_any(#[trigger] ts@[j], |x: Type| is_sentinel(x)),
        decreases ts.len() - i,
    {
        proof { assert(decreases_to!(*ts => ts[i as int])); }
        if contains_forbidden_sentinel(&ts[i]) {
            return true;
        }
        i = i + 1;
    }
    false
}

fn captures_contain_forbidden_sentinel(cs: &Vec<CaptureType>) -> (r: bool)
    ensures
        r == exists|i: int| 0 <= i < cs@.len() && type_any((#[trigger] cs@[i]).ty, |x: Type| is_sentinel(x)),
    decreases cs, 1nat,
{
    let mut i: usize = 0;
    while i < cs.len()
        invariant
            i <= cs@.len(),
            forall|j: int| 0 <= j < i ==> !type_any((#[trigger] cs@[j]).ty, |x: Type| is_sentinel(x)),
        decreases cs.len() - i,
    {
        proof {
            assert(decreases_to!(*cs => cs[i as int]));
            assert(decreases_to!(cs[i as int] => cs[i as int].ty));
        }
        if contains_forbidden_sentinel(&cs[i].ty) {
            return true;
        }
        i = i + 1;
    }
    false
}

/// Whether `t` can be laid out by code generation as it stands: no generic
/// parameter, inference variable, error type, projection or bare
/// constructor occurs in it.
pub fn is_codegen_concrete(t: &Type) -> (r: bool)
    ensures
        r == !type_any(*t, |x: Type| is_non_concrete_leaf(x)),
    decreases t, 0nat,
{
    match t {
        Type::Generic(_) | Type::TypeVar(_) | Type::Error | Type::Projection { .. } | Type::Constructor { .. } => false,
        Type::Slice(x) | Type::Pointer(x) | Type::Array(x, _) => is_codegen_concrete(x),
        Type::Reference { inner, .. } => is_codegen_concrete(inner),
        Type::Tuple(xs) => {
            proof { assert(decreases_to!(*t => (*t)->Tuple_0)); }
            list_is_codegen_concrete(xs)
        },
        Type::Function { params, ret, captures, .. } => {
            proof {
                assert(decreases_to!(*t => (*t)->Function_params));
                assert(decreases_to!(*t => (*t)->Function_captures));
            }
            list_is_codegen_concrete(params) && is_codegen_concrete(ret)
                && captures_are_codegen_concrete(captures)
        },
        Type::Struct { args, .. } => {
            proof { assert(decreases_to!(*t => (*t)->Struct_args)); }
            list_is_codegen_concrete(args)
        },
        Type::Enum { args, .. } => {
            proof { assert(decreases_to!(*t => (*t)->Enum_args)); }
            list_is_codegen_concrete(args)
        },
        _ => true,
    }
}

/// Whether every type of the list can be laid out by code generation.
pub fn list_is_codegen_concrete(ts: &Vec<Type>) -> (r: bool)
    ensures
        r == !types_any(ts@, |x: Type| is_non_concrete_leaf(x)),
    decreases ts, 1nat,
{
    let mut i: usize = 0;
    while i < ts.len()
        invariant
            i <= ts@.len(),
            forall|j: int| 0 <= j < i ==> !type_any(#[trigger] ts@[j], |x: Type| is_non_concrete_leaf(x)),
        decreases ts.len() - i,
    {
        proof { assert(decreases_to!(*ts => ts[i as int])); }
        if !is_codegen_concrete(&ts[i]) {
            return false;
        }
        i = i + 1;
    }
    true
}

fn captures_are_codegen_concrete(cs: &Vec<CaptureType>) -> (r: bool)
    ensures
        r == !exists|i: int| 0 <= i < cs@.len() && type_any((#[trigger] cs@[i]).ty, |x: Type| is_non_concrete_leaf(x)),
    decreases cs, 1nat,
{
    let mut i: usize = 0;
    while i < cs.len()
        invariant
            i <= cs@.len(),
            forall|j: int| 0 <= j < i ==> !type_any((#[trigger] cs@[j]).ty, |x: Type| is_non_concrete_leaf(x)),
        decreases cs.len() - i,
    {
        proof {
            assert(decreases_to!(*cs => cs[i as int]));
            assert(decreases_to!(cs[i as int] => cs[i as int].ty));
        }
        if !is_codegen_concrete(&cs[i].ty) {
            return false;
        }
        i = i + 1;
    }
    true
}

/// Appends the generic parameters that occur in `t`.
pub fn collect_generic_params(t: &Type, out: &mut Vec<GenericParamId>)
    ensures
        forall|g: GenericParamId| #[trigger] final(out)@.contains(g) <==> (old(out)@.contains(g)
            || type_any(*t, |x: Type| is_generic_param(x, g))),
    decreases t, 0nat,
{
    match t {
        Type::Generic(g) => {
            out.push(*g);
            proof {
                assert forall|h: GenericParamId| #[trigger] final(out)@.contains(h) <==> (old(out)@.contains(h)
                    || type_any(*t, |x: Type| is_generic_param(x, h))) by {
                    if h == *g {
                        assert(final(out)@[old(out)@.len() as int] == h);
                    } else if final(out)@.contains(h) {
                        let k = choose|k: int| 0 <= k < final(out)@.len() && final(out)@[k] == h;
                        assert(old(out)@[k] == h);
                    }
                    if old(out)@.contains(h) {
                        let k = choose|k: int| 0 <= k < old(out)@.len() && old(out)@[k] == h;
                        assert(final(out)@[k] == h);
                    }
                }
            }
        },
        Type::Slice(x) | Type::Pointer(x) | Type::Array(x, _) => collect_generic_params(x, out),
        Type::Reference { inner, .. } => collect_generic_params(inner, out),
        Type::Tuple(xs) => {
            proof { assert(decreases_to!(*t => (*t)->Tuple_0)); }
            collect_list_generic_params(xs, out);
        },
        Type::Function { params, ret, captures, .. } => {
            proof {
                assert(decreases_to!(*t => (*t)->Function_params));
                assert(decreases_to!(*t => (*t)->Function_captures));
            }
            collect_list_generic_params(params, out);
            collect_generic_params(ret, out);
            collect_capture_generic_params(captures, out);
        },
        Type::Struct { args, .. } => {
            proof { assert(decreases_to!(*t => (*t)->Struct_args)); }
            collect_list_generic_params(args, out);
        },
        Type::Enum { args, .. } => {
            proof { assert(decreases_to!(*t => (*t)->Enum_args)); }
            collect_list_generic_params(args, out);
        },
        Type::Projection { ty, trait_args, .. } => {
            proof { assert(decreases_to!(*t => (*t)->Projection_trait_args)); }
            collect_generic_params(ty, out);
            collect_list_generic_params(trait_args, out);
        },
        _ => {},
    }
}

/// Appends the generic parameters that occur in the types of a list.
pub fn collect_list_generic_params(ts: &Vec<Type>, out: &mut Vec<GenericParamId>)
    ensures
        forall|g: GenericParamId| #[trigger] final(out)@.contains(g) <==> (old(out)@.contains(g)
            || types_any(ts@, |x: Type| is_generic_param(x, g))),
    decreases ts, 1nat,
{
    let mut i: usize = 0;
    while i < ts.len()
        invariant
            i <= ts@.len(),
            forall|g: GenericParamId| #[trigger] out@.contains(g) <==> (old(out)@.contains(g)
                || exists|j: int| 0 <= j < i && type_any(#[trigger] ts@[j], |x: Type| is_generic_param(x, g))),
        decreases ts.len() - i,
    {
        proof { assert(decreases_to!(*ts => ts[i as int])); }
        collect_generic_params(&ts[i], out);
        i = i + 1;
        proof {
            assert forall|g: GenericParamId| #[trigger] out@.contains(g) <==> (old(out)@.contains(g)
                || exists|j: int| 0 <= j < i && type_any(#[trigger] ts@[j], |x: Type| is_generic_param(x, g))) by {
                if type_any(ts@[i - 1], |x: Type| is_generic_param(x, g)) {
                    assert(0 <= i - 1 < i);
                }
            }
        }
    }
}

fn collect_capture_generic_params(cs: &Vec<CaptureType>, out: &mut Vec<GenericParamId>)
    ensures
        forall|g: GenericParamId| #[trigger] final(out)@.contains(g) <==> (old(out)@.contains(g)
            || exists|i: int| 0 <= i < cs@.len() && type_any((#[trigger] cs@[i]).ty, |x: Type| is_generic_param(x, g))),
    decreases cs, 1nat,
{
    let mut i: usize = 0;
    while i < cs.len()
        invariant
            i <= cs@.len(),
            forall|g: GenericParamId| #[trigger] out@.contains(g) <==> (old(out)@.contains(g)
                || exists|j: int| 0 <= j < i && type_any((#[trigger] cs@[j]).ty, |x: Type| is_generic_param(x, g))),
        decreases cs.len() - i,
    {
        proof {
            assert(decreases_to!(*cs => cs[i as int]));
            assert(decreases_to!(cs[i as int] => cs[i as int].ty));
        }
        collect_generic_params(&cs[i].ty, out);
        i = i + 1;
        proof {
            assert forall|g: GenericParamId| #[trigger] out@.contains(g) <==> (old(out)@.contains(g)
                || exists|j: int| 0 <= j < i && type_any((#[trigger] cs@[j]).ty, |x: Type| is_generic_param(x, g))) by {
                if type_any(cs@[i - 1].ty, |x: Type| is_generic_param(x, g)) {
                    assert(0 <= i - 1 < i);
                }
            }
        }
    }
}

/// One generic parameter bound to a type.
#[derive(Debug)]
pub struct TypeBinding {
    pub param: GenericParamId,
    pub ty: Type,
}

/// The type bound to `g` by a list of bindings; where `g` is bound twice the
/// later binding wins.
pub open spec fn binding_for(b: Seq<TypeBinding>, g: GenericParamId) -> Option<Type>
    decreases b.len(),
{
    if b.len() == 0 {
        None
    } else if b.last().param == g {
        Some(b.last().ty)
    } else {
        binding_for(b.drop_last(), g)
    }
}

/// `out` is `t` with every bound generic parameter replaced by its binding.
pub open spec fn subst_rel(t: Type, b: Seq<TypeBinding>, out: Type) -> bool
    decreases t,
{
    match t {
        Type::Generic(g) => match binding_for(b, g) {
            Some(u) => ty_eq(out, u),
            None => out == Type::Generic(g),
        },
        Type::Slice(x) => out matches Type::Slice(y) && subst_rel(*x, b, *y),
        Type::Pointer(x) => out matches Type::Pointer(y) && subst_rel(*x, b, *y),
        Type::Array(x, n) => out matches Type::Array(y, m) && n == m && subst_rel(*x, b, *y),
        Type::Reference { mutable, inner } => out matches Type::Reference { mutable: m, inner: y }
            && m == mutable && subst_rel(*inner, b, *y),
        Type::Tuple(xs) => out matches Type::Tuple(ys) && xs@.len() == ys@.len() && forall|i: int|
            0 <= i < xs@.len() ==> subst_rel(#[trigger] xs@[i], b, ys@[i]),
        Type::Function { params, ret, safety, callable_kind, captures } => out matches Type::Function {
            params: p2,
            ret: r2,
            safety: s2,
            callable_kind: k2,
            captures: c2,
        } && s2 == safety && k2 == callable_kind && params@.len() == p2@.len() && (forall|i: int|
            0 <= i < params@.len() ==> subst_rel(#[trigger] params@[i], b, p2@[i])) && subst_rel(
            *ret,
            b,
            *r2,
        ) && captures@.len() == c2@.len() && (forall|i: int|
            0 <= i < captures@.len() ==> (#[trigger] captures@[i]).kind == c2@[i].kind && subst_rel(
                captures@[i].ty,
                b,
                c2@[i].ty,
            )),
        Type::Struct { id, args } => out matches Type::Struct { id: i2, args: a2 } && i2 == id
            && args@.len() == a2@.len() && forall|i: int|
            0 <= i < args@.len() ==> subst_rel(#[trigger] args@[i], b, a2@[i]),
        Type::Enum { id, args } => out matches Type::Enum { id: i2, args: a2 } && i2 == id
            && args@.len() == a2@.len() && forall|i: int|
            0 <= i < args@.len() ==> subst_rel(#[trigger] args@[i], b, a2@[i]),
        Type::Projection { ty, trait_id, assoc_type, trait_args } => out matches Type::Projection {
            ty: t2,
            trait_id: tr2,
            assoc_type: as2,
            trait_args: a2,
        } && tr2 == trait_id && as2 == assoc_type && subst_rel(*ty, b, *t2) && trait_args@.len()
            == a2@.len() && forall|i: int|
            0 <= i < trait_args@.len() ==> subst_rel(#[trigger] trait_args@[i], b, a2@[i]),
        _ => ty_eq(out, t),
    }
}

proof fn lemma_subst_generic_unique(g: GenericParamId, b: Seq<TypeBinding>, x: Type, y: Type)
    requires
        subst_rel(Type::Generic(g), b, x),
    ensures
        subst_rel(Type::Generic(g), b, y) == ty_eq(x, y),
{
    let t = Type::Generic(g);
    match binding_for(b, g) {
        Some(u) => {
            lemma_ty_eq_sym(x, u);
            lemma_ty_eq_sym(y, u);
            if ty_eq(y, u) {
                lemma_ty_eq_trans(x, u, y);
            }
            if ty_eq(x, y) {
                lemma_ty_eq_sym(x, y);
                lemma_ty_eq_trans(y, x, u);
            }
        },
        None => {
            lemma_ty_eq_refl(x);
            if ty_eq(x, y) {
                assert(y == x);
            }
        },
    }
}

/// Substitution determines its result up to structural equality: once `x`
/// is a result of substituting `b` into `t`, the other results are exactly
/// the types structurally equal to `x`.
pub proof fn lemma_subst_rel_unique(t: Type, b: Seq<TypeBinding>, x: Type, y: Type)
    requires
        subst_rel(t, b, x),
    ensures
        subst_rel(t, b, y) == ty_eq(x, y),
    decreases t,
{
    match t {
        Type::Generic(g) => lemma_subst_generic_unique(g, b, x, y),
        Type::Slice(a) => {
            if let (Type::Slice(x1), Type::Slice(y1)) = (x, y) {
                lemma_subst_rel_unique(*a, b, *x1, *y1);
            }
        },
        Type::Pointer(a) => {
            if let (Type::Pointer(x1), Type::Pointer(y1)) = (x, y) {
                lemma_subst_rel_unique(*a, b, *x1, *y1);
            }
        },
        Type::Array(a, _) => {
            if let (Type::Array(x1, _), Type::Array(y1, _)) = (x, y) {
                lemma_subst_rel_unique(*a, b, *x1, *y1);
            }
        },
        Type::Reference { inner, .. } => {
            if let (Type::Reference { inner: x1, .. }, Type::Reference { inner: y1, .. }) = (x, y) {
                lemma_subst_rel_unique(*inner, b, *x1, *y1);
            }
        },
        Type::Tuple(ts) => {
            if let (Type::Tuple(xs), Type::Tuple(ys)) = (x, y) {
                assert forall|k: int| #![trigger ts@[k]] #![trigger xs@[k]] #![trigger ys@[k]] 0 <= k < ts@.len() && k < ys@.len() implies subst_rel(ts@[k], b, ys@[k]) == ty_eq(xs@[k], ys@[k]) by {
                    lemma_subst_rel_unique(ts@[k], b, xs@[k], ys@[k]);
                }
            }
        },
        Type::Struct { args: ts, .. } => {
            if let (Type::Struct { args: xs, .. }, Type::Struct { args: ys, .. }) = (x, y) {
                assert forall|k: int| #![trigger ts@[k]] #![trigger xs@[k]] #![trigger ys@[k]] 0 <= k < ts@.len() && k < ys@.len() implies subst_rel(ts@[k], b, ys@[k]) == ty_eq(xs@[k], ys@[k]) by {
                    lemma_subst_rel_unique(ts@[k], b, xs@[k], ys@[k]);
                }
            }
        },
        Type::Enum { args: ts, .. } => {
            if let (Type::Enum { args: xs, .. }, Type::Enum { args: ys, .. }) = (x, y) {
                assert forall|k: int| #![trigger ts@[k]] #![trigger xs@[k]] #![trigger ys@[k]] 0 <= k < ts@.len() && k < ys@.len() implies subst_rel(ts@[k], b, ys@[k]) == ty_eq(xs@[k], ys@[k]) by {
                    lemma_subst_rel_unique(ts@[k], b, xs@[k], ys@[k]);
                }
            }
        },
        Type::Projection { ty, trait_args: ts, .. } => {
            if let (Type::Projection { ty: x1, trait_args: xs, .. }, Type::Projection { ty: y1, trait_args: ys, .. }) = (x, y) {
                lemma_subst_rel_unique(*ty, b, *x1, *y1);
                assert forall|k: int| #![trigger ts@[k]] #![trigger xs@[k]] #![trigger ys@[k]] 0 <= k < ts@.len() && k < ys@.len() implies subst_rel(ts@[k], b, ys@[k]) == ty_eq(xs@[k], ys@[k]) by {
                    lemma_subst_rel_unique(ts@[k], b, xs@[k], ys@[k]);
                }
            }
        },
        Type::Function { params: ts, ret, captures: cs, .. } => {
            if let (Type::Function { params: xs, ret: x1, captures: cx, .. }, Type::Function { params: ys, ret: y1, captures: cy, .. }) = (x, y) {
                lemma_subst_rel_unique(*ret, b, *x1, *y1);
                assert forall|k: int| #![trigger ts@[k]] #![trigger xs@[k]] #![trigger ys@[k]] 0 <= k < ts@.len() && k < ys@.len() implies subst_rel(ts@[k], b, ys@[k]) == ty_eq(xs@[k], ys@[k]) by {
                    lemma_subst_rel_unique(ts@[k], b, xs@[k], ys@[k]);
                }
                assert forall|k: int| #![trigger cs@[k]] #![trigger cx@[k]] #![trigger cy@[k]] 0 <= k < cs@.len() && k < cy@.len() implies subst_rel(cs@[k].ty, b, cy@[k].ty) == ty_eq(cx@[k].ty, cy@[k].ty) by {
                    assert(decreases_to!(cs@[k] => cs@[k].ty));
                    lemma_subst_rel_unique(cs@[k].ty, b, cx@[k].ty, cy@[k].ty);
                }
            }
        },
        _ => {
            lemma_ty_eq_sym(x, t);
            lemma_ty_eq_sym(y, t);
            if ty_eq(y, t) {
                lemma_ty_eq_sym(t, y);
                lemma_ty_eq_trans(x, t, y);
            }
            if ty_eq(x, y) {
                lemma_ty_eq_sym(x, y);
                lemma_ty_eq_trans(y, x, t);
            }
        },
    }
}

fn lookup_binding(b: &Vec<TypeBinding>, g: GenericParamId) -> (r: Option<&Type>)
    ensures
        match binding_for(b@, g) {
            Some(u) => r matches Some(v) && *v == u,
            None => r is None,
        },
{
    let mut i = b.len();
    assert(b@.subrange(0, i as int) =~= b@);
    while i > 0
        invariant
            i <= b@.len(),
            binding_for(b@, g) == binding_for(b@.subrange(0, i as int), g),
        decreases i,
    {
        assert(b@.subrange(0, i as int).drop_last() =~= b@.subrange(0, i - 1));
        if b[i - 1].param == g {
            return Some(&b[i - 1].ty);
        }
        i = i - 1;
    }
    None
}

/// `t` with every generic parameter bound in `b` replaced by its binding.
pub fn substitute_generics(t: &Type, b: &Vec<TypeBinding>) -> (r: Type)
    ensures
        subst_rel(*t, b@, r),
    decreases t, 0nat,
{
    match t {
        Type::Generic(g) => match lookup_binding(b, *g) {
            Some(u) => copy_type(u),
            None => Type::Generic(*g),
        },
        Type::Slice(x) => Type::Slice(Box::new(substitute_generics(x, b))),
        Type::Pointer(x) => Type::Pointer(Box::new(substitute_generics(x, b))),
        Type::Array(x, n) => Type::Array(Box::new(substitute_generics(x, b)), *n),
        Type::Reference { mutable, inner } => Type::Reference { mutable: *mutable, inner: Box::new(substitute_generics(inner, b)) },
        Type::Tuple(xs) => {
            proof { assert(decreases_to!(*t => (*t)->Tuple_0)); }
            Type::Tuple(substitute_list(xs, b))
        },
        Type::Function { params, ret, safety, callable_kind, captures } => {
            proof {
                assert(decreases_to!(*t => (*t)->Function_params));
                assert(decreases_to!(*t => (*t)->Function_captures));
            }
            let p = substitute_list(params, b);
            let r = substitute_generics(ret, b);
            let c = substitute_captures(captures, b);
            Type::Function { params: p, ret: Box::new(r), safety: *safety, callable_kind: *callable_kind, captures: c }
        },
        Type::Struct { id, args } => {
            proof { assert(decreases_to!(*t => (*t)->Struct_args)); }
            Type::Struct { id: *id, args: substitute_list(args, b) }
        },
        Type::Enum { id, args } => {
            proof { assert(decreases_to!(*t => (*t)->Enum_args)); }
            Type::Enum { id: *id, args: substitute_list(args, b) }
        },
        Type::Projection { ty, trait_id, assoc_type, trait_args } => {
            proof { assert(decreases_to!(*t => (*t)->Projection_trait_args)); }
            let inner = substitute_generics(ty, b);
            let args = substitute_list(trait_args, b);
            Type::Projection { ty: Box::new(inner), trait_id: *trait_id, assoc_type: *assoc_type, trait_args: args }
        },
        _ => copy_type(t),
    }
}

/// Each type of `ts` with the bindings of `b` substituted.
pub fn substitute_list(ts: &Vec<Type>, b: &Vec<TypeBinding>) -> (r: Vec<Type>)
    ensures
        r@.len() == ts@.len(),
        forall|i: int| 0 <= i < ts@.len() ==> subst_rel(#[trigger] ts@[i], b@, r@[i]),
    decreases ts, 1nat,
{
    let mut out: Vec<Type> = Vec::new();
    let mut i: usize = 0;
    while i < ts.len()
        invariant
            i <= ts@.len(),
            out@.len() == i,
            forall|j: int| 0 <= j < i ==> subst_rel(#[trigger] ts@[j], b@, out@[j]),
        decreases ts.len() - i,
    {
        proof { assert(decreases_to!(*ts => ts[i as int])); }
        let c = substitute_generics(&ts[i], b);
        out.push(c);
        i = i + 1;
    }
    out
}

fn substitute_captures(cs: &Vec<CaptureType>, b: &Vec<TypeBinding>) -> (r: Vec<CaptureType>)
    ensures
        r@.len() == cs@.len(),
        forall|i: int| 0 <= i < cs@.len() ==> (#[trigger] cs@[i]).kind == r@[i].kind && subst_rel(cs@[i].ty, b@, r@[i].ty),
    decreases cs, 1nat,
{
    let mut out: Vec<CaptureType> = Vec::new();
    let mut i: usize = 0;
    while i < cs.len()
        invariant
            i <= cs@.len(),
            out@.len() == i,
            forall|j: int| 0 <= j < i ==> (#[trigger] cs@[j]).kind == out@[j].kind && subst_rel(cs@[j].ty, b@, out@[j].ty),
        decreases cs.len() - i,
    {
        proof {
            assert(decreases_to!(*cs => cs[i as int]));
            assert(decreases_to!(cs[i as int] => cs[i as int].ty));
        }
        let c = CaptureType { kind: cs[i].kind, ty: substitute_generics(&cs[i].ty, b) };
        out.push(c);
        i = i + 1;
    }
    out
}

/// A trait bound `trait_id<type_args>` on a generic parameter.
#[derive(Debug)]
pub struct TraitBound {
    pub trait_id: DefId,
    pub type_args: Vec<Type>,
}

/// A declared generic parameter.
#[derive(Debug)]
pub struct GenericParamDecl {
    pub id: GenericParamId,
    pub name: String,
}

/// A where-clause predicate `subject: trait_id<args>`.
#[derive(Debug)]
pub struct Predicate {
    pub subject: Type,
    pub trait_id: DefId,
    pub args: Vec<Type>,
}

/// The trait bounds of each generic parameter, plus where-clause predicates.
/// A parameter has at most one entry.
#[derive(Debug)]
pub struct GenericBounds {
    pub entries: Vec<(GenericParamId, Vec<TraitBound>)>,
    pub predicates: Vec<Predicate>,
}

/// How an impl names the types it applies to.
#[derive(Debug)]
pub enum ImplReceiverPattern {
    Exact(Type),
    Constructor(Type),
    SliceFamily { element: Type },
}

impl ImplReceiverPattern {
    /// The type that the pattern is written with.
    pub open spec fn pattern_type(self) -> Type {
        match self {
            ImplReceiverPattern::Exact(t) => t,
            ImplReceiverPattern::Constructor(t) => t,
            ImplReceiverPattern::SliceFamily { element } => element,
        }
    }

    pub fn ty(&self) -> (r: &Type)
        ensures
            *r == self.pattern_type(),
    {
        match self {
            ImplReceiverPattern::Exact(t) => t,
            ImplReceiverPattern::Constructor(t) => t,
            ImplReceiverPattern::SliceFamily { element } => element,
        }
    }
}

impl GenericBounds {
    /// No parameter has two entries.
    pub open spec fn wf(self) -> bool {
        forall|i: int, j: int|
            0 <= i < j < self.entries@.len() ==> (#[trigger] self.entries@[i]).0 != (#[trigger] self.entries@[j]).0
    }

    pub fn new() -> (r: GenericBounds)
        ensures
            r.entries@.len() == 0,
            r.predicates@.len() == 0,
            r.wf(),
    {
        GenericBounds { entries: Vec::new(), predicates: Vec::new() }
    }

    /// The number of bounded parameters.
    pub fn len(&self) -> (r: usize)
        ensures
            r == self.entries@.len(),
    {
        self.entries.len()
    }

    /// Sets the bounds of `param`, replacing an earlier entry for it.
    pub fn insert(&mut self, param: GenericParamId, bounds: Vec<TraitBound>)
        requires
            old(self).wf(),
        ensures
            final(self).wf(),
            final(self).predicates == old(self).predicates,
            exists|k: int| 0 <= k < final(self).entries@.len() && final(self).entries@[k] == (param, bounds),
            forall|k: int| 0 <= k < old(self).entries@.len() && old(self).entries@[k].0 != param
                ==> final(self).entries@.contains(#[trigger] old(self).entries@[k]),
            forall|k: int| 0 <= k < final(self).entries@.len() && final(self).entries@[k].0 != param
                ==> old(self).entries@.contains(#[trigger] final(self).entries@[k]),
    {
        let mut i: usize = 0;
        while i < self.entries.len()
            invariant
                i <= self.entries@.len(),
                self.entries == old(self).entries,
                self.predicates == old(self).predicates,
                old(self).wf(),
                forall|j: int| 0 <= j < i ==> (#[trigger] self.entries@[j]).0 != param,
            decreases self.entries.len() - i,
        {
            if self.entries[i].0 == param {
                let ghost before = self.entries@;
                let _ = self.entries.remove(i);
                self.entries.insert(i, (param, bounds));
                proof {
                    assert(self.entries@ =~= before.update(i as int, (param, bounds)));
                    assert forall|k: int| 0 <= k < before.len() implies (#[trigger] self.entries@[k]).0 == before[k].0 by {}
                    assert forall|k: int| 0 <= k < before.len() && before[k].0 != param
                        implies self.entries@.contains(#[trigger] before[k]) by {
                        assert(self.entries@[k] == before[k]);
                    }
                    assert forall|k: int| 0 <= k < self.entries@.len() && self.entries@[k].0 != param
                        implies before.contains(#[trigger] self.entries@[k]) by {
                        assert(self.entries@[k] == before[k]);
                    }
                    assert(self.entries@[i as int] == (param, bounds));
                }
                return;
            }
            i = i + 1;
        }
        let ghost before = self.entries@;
        self.entries.push((param, bounds));
        proof {
            assert forall|k: int| 0 <= k < before.len() && before[k].0 != param
                implies self.entries@.contains(#[trigger] before[k]) by {
                assert(self.entries@[k] == before[k]);
            }
            assert forall|k: int| 0 <= k < self.entries@.len() && self.entries@[k].0 != param
                implies before.contains(#[trigger] self.entries@[k]) by {
                assert(self.entries@[k] == before[k]);
            }
            assert(self.entries@[before.len() as int] == (param, bounds));
        }
    }
}

impl GenericParamDecl {
    pub fn type_param(id: GenericParamId, name: &str) -> (r: GenericParamDecl)
        ensures
            r.id == id,
            r.name@ == name@,
    {
        GenericParamDecl { id, name: String::from_str(name) }
    }

    /// Parameters of `owner` named in order, with indices counting from zero.
    pub fn type_params(owner: DefId, names: Vec<&str>) -> (r: Vec<GenericParamDecl>)
        requires
            names@.len() <= u32::MAX,
        ensures
            r@.len() == names@.len(),
            forall|i: int| 0 <= i < r@.len() ==> (#[trigger] r@[i]).id == (GenericParamId { owner, index: i as u32 })
                && r@[i].name@ == names@[i]@,
    {
        let mut out: Vec<GenericParamDecl> = Vec::new();
        let mut i: usize = 0;
        while i < names.len()
            invariant
                i <= names@.len(),
                names@.len() <= u32::MAX,
                out@.len() == i,
                forall|j: int| 0 <= j < i ==> (#[trigger] out@[j]).id == (GenericParamId { owner, index: j as u32 })
                    && out@[j].name@ == names@[j]@,
            decreases names.len() - i,
        {
            out.push(GenericParamDecl::type_param(GenericParamId { owner, index: i as u32 }, names[i]));
            i = i + 1;
        }
        out
    }
}

impl Clone for Type {
    fn clone(&self) -> (r: Self)
        ensures
            ty_eq(r, *self),
    {
        copy_type(self)
    }
}

impl PartialEq for Type {
    fn eq(&self, other: &Self) -> (r: bool) {
        types_equal(self, other)
    }
}

impl vstd::std_specs::cmp::PartialEqSpecImpl for Type {
    open spec fn obeys_eq_spec() -> bool {
        true
    }

    open spec fn eq_spec(&self, other: &Self) -> bool {
        ty_eq(*self, *other)
    }
}

impl Eq for Type {}

impl Type {
    /// A safe plain function type with no captures.
    pub fn function(params: Vec<Type>, ret: Type) -> (r: Type)
        ensures
            r matches Type::Function { params: p, ret: r2, safety, callable_kind, captures } && p == params
                && *r2 == ret && safety == Safety::Safe && callable_kind == CallableKind::Function
                && captures@.len() == 0,
    {
        Type::Function { params, ret: Box::new(ret), safety: Safety::Safe, callable_kind: CallableKind::Function, captures: Vec::new() }
    }
}

} // verus!
