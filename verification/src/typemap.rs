use vstd::prelude::*;

use crate::ids::{spec_product_of, DefId, ProductDefId};
use crate::remap::{msg_unmapped, ProductIdentityRemap};
use crate::render::{push_type_text, type_text};
use crate::text::{outcome_is, text};
use crate::types::{CaptureType, NominalTypeKind, Type};
use crate::validator::{and_then, nominal_outcome, projection_outcome, type_alias_outcome, ProductNominalTypeValidator};

verus! {

/// The session identity that `d`, read as a product identity, maps to.
pub open spec fn mapped(m: ProductIdentityRemap, d: DefId) -> DefId {
    m.spec_def_id(spec_product_of(d)).unwrap()
}

/// The outcome of mapping the product identity `d` to a session identity.
pub open spec fn id_outcome(m: ProductIdentityRemap, d: DefId) -> Result<(), Seq<char>> {
    if m.spec_def_id(spec_product_of(d)) is Some {
        Ok(())
    } else {
        Err(msg_unmapped(spec_product_of(d)))
    }
}

/// The message for a type that type checking left unresolved.
pub open spec fn msg_unresolved(t: Type) -> Seq<char> {
    if t is TypeVar {
        "Product artifact contains unresolved type Type::TypeVar in executable metadata: "@ + type_text(t)
    } else {
        "Product artifact contains unresolved type Type::Error in executable metadata: "@ + type_text(t)
    }
}

/// The outcome of checking the outermost node of `t`, before its children.
pub open spec fn node_outcome(m: ProductIdentityRemap, v: ProductNominalTypeValidator, t: Type) -> Result<(), Seq<char>> {
    match t {
        Type::Struct { id, .. } => and_then(
            nominal_outcome(v, spec_product_of(id), v.local.structs@, v.dependency.structs@, " as struct"@),
            id_outcome(m, id),
        ),
        Type::Enum { id, .. } => and_then(
            nominal_outcome(v, spec_product_of(id), v.local.enums@, v.dependency.enums@, " as enum"@),
            id_outcome(m, id),
        ),
        Type::Constructor { id, flavor } => and_then(
            match flavor {
                NominalTypeKind::Struct => nominal_outcome(
                    v,
                    spec_product_of(id),
                    v.local.structs@,
                    v.dependency.structs@,
                    " as struct"@,
                ),
                NominalTypeKind::Enum => nominal_outcome(
                    v,
                    spec_product_of(id),
                    v.local.enums@,
                    v.dependency.enums@,
                    " as enum"@,
                ),
                NominalTypeKind::Alias => type_alias_outcome(v, spec_product_of(id)),
            },
            id_outcome(m, id),
        ),
        Type::Projection { trait_id, assoc_type, .. } => and_then(
            projection_outcome(v, spec_product_of(trait_id), spec_product_of(assoc_type.owner), assoc_type.assoc_type_id),
            and_then(id_outcome(m, trait_id), id_outcome(m, assoc_type.owner)),
        ),
        Type::TypeVar(_) => Err(msg_unresolved(t)),
        Type::Error => Err(msg_unresolved(t)),
        Type::Generic(g) => id_outcome(m, g.owner),
        _ => Ok(()),
    }
}

/// The outcome of remapping `t`: the first failing check in pre-order,
/// each node before its children, children in field order.
pub open spec fn type_outcome(m: ProductIdentityRemap, v: ProductNominalTypeValidator, t: Type) -> Result<(), Seq<char>>
    decreases t, 1nat,
{
    and_then(node_outcome(m, v, t), match t {
        Type::Slice(x) => type_outcome(m, v, *x),
        Type::Pointer(x) => type_outcome(m, v, *x),
        Type::Array(x, _) => type_outcome(m, v, *x),
        Type::Reference { inner, .. } => type_outcome(m, v, *inner),
        Type::Tuple(xs) => list_outcome(m, v, xs@),
        Type::Function { params, ret, captures, .. } => and_then(
            list_outcome(m, v, params@),
            and_then(type_outcome(m, v, *ret), captures_outcome(m, v, captures@)),
        ),
        Type::Struct { args, .. } => list_outcome(m, v, args@),
        Type::Enum { args, .. } => list_outcome(m, v, args@),
        Type::Projection { ty, trait_args, .. } => and_then(type_outcome(m, v, *ty), list_outcome(m, v, trait_args@)),
        _ => Ok(()),
    })
}

/// The outcome of remapping each type of a list in order.
pub open spec fn list_outcome(m: ProductIdentityRemap, v: ProductNominalTypeValidator, ts: Seq<Type>) -> Result<(), Seq<char>>
    decreases ts, 0nat,
{
    if ts.len() == 0 {
        Ok(())
    } else {
        and_then(type_outcome(m, v, ts[0]), list_outcome(m, v, ts.drop_first()))
    }
}

/// The outcome of remapping the types of a capture list in order.
pub open spec fn captures_outcome(m: ProductIdentityRemap, v: ProductNominalTypeValidator, cs: Seq<CaptureType>) -> Result<(), Seq<char>>
    decreases cs, 0nat,
{
    if cs.len() == 0 {
        Ok(())
    } else {
        and_then(type_outcome(m, v, cs[0].ty), captures_outcome(m, v, cs.drop_first()))
    }
}

/// `u` is `t` with every definition it names replaced by its session
/// identity.
pub open spec fn type_map(m: ProductIdentityRemap, t: Type, u: Type) -> bool
    decreases t,
{
    match t {
        Type::Unit => u is Unit,
        Type::Bool => u is Bool,
        Type::I64 => u is I64,
        Type::Str => u is Str,
        Type::Error => u is Error,
        Type::TypeVar(x) => u == Type::TypeVar(x),
        Type::Generic(g) => u matches Type::Generic(h) && h.index == g.index && h.owner == mapped(m, g.owner),
        Type::Slice(x) => u matches Type::Slice(y) && type_map(m, *x, *y),
        Type::Pointer(x) => u matches Type::Pointer(y) && type_map(m, *x, *y),
        Type::Array(x, n) => u matches Type::Array(y, k) && k == n && type_map(m, *x, *y),
        Type::Reference { mutable, inner } => u matches Type::Reference { mutable: b, inner: y } && b == mutable
            && type_map(m, *inner, *y),
        Type::Tuple(xs) => u matches Type::Tuple(ys) && xs@.len() == ys@.len() && forall|i: int|
            0 <= i < xs@.len() ==> type_map(m, #[trigger] xs@[i], ys@[i]),
        Type::Function { params, ret, safety, callable_kind, captures } => u matches Type::Function {
            params: p2,
            ret: r2,
            safety: s2,
            callable_kind: k2,
            captures: c2,
        } && s2 == safety && k2 == callable_kind && params@.len() == p2@.len() && (forall|i: int|
            0 <= i < params@.len() ==> type_map(m, #[trigger] params@[i], p2@[i])) && type_map(m, *ret, *r2)
            && captures@.len() == c2@.len() && (forall|i: int|
            0 <= i < captures@.len() ==> (#[trigger] captures@[i]).kind == c2@[i].kind && type_map(
                m,
                captures@[i].ty,
                c2@[i].ty,
            )),
        Type::Struct { id, args } => u matches Type::Struct { id: i2, args: a2 } && i2 == mapped(m, id)
            && args@.len() == a2@.len() && forall|i: int| 0 <= i < args@.len() ==> type_map(m, #[trigger] args@[i], a2@[i]),
        Type::Enum { id, args } => u matches Type::Enum { id: i2, args: a2 } && i2 == mapped(m, id)
            && args@.len() == a2@.len() && forall|i: int| 0 <= i < args@.len() ==> type_map(m, #[trigger] args@[i], a2@[i]),
        Type::Constructor { id, flavor } => u == Type::Constructor { id: mapped(m, id), flavor },
        Type::Projection { ty, trait_id, assoc_type, trait_args } => u matches Type::Projection {
            ty: t2,
            trait_id: tr2,
            assoc_type: as2,
            trait_args: a2,
        } && tr2 == mapped(m, trait_id) && as2.owner == mapped(m, assoc_type.owner)
            && as2.assoc_type_id == assoc_type.assoc_type_id && type_map(m, *ty, *t2)
            && trait_args@.len() == a2@.len() && forall|i: int|
            0 <= i < trait_args@.len() ==> type_map(m, #[trigger] trait_args@[i], a2@[i]),
    }
}

/// `us` is `ts` with each type remapped.
pub open spec fn types_map(m: ProductIdentityRemap, ts: Seq<Type>, us: Seq<Type>) -> bool {
    ts.len() == us.len() && forall|i: int| 0 <= i < ts.len() ==> type_map(m, #[trigger] ts[i], us[i])
}

proof fn lemma_list_outcome_step(m: ProductIdentityRemap, v: ProductNominalTypeValidator, ts: Seq<Type>, i: int)
    requires
        0 <= i < ts.len(),
        list_outcome(m, v, ts.take(i)) is Ok,
    ensures
        list_outcome(m, v, ts.take(i + 1)) == type_outcome(m, v, ts[i]),
    decreases i,
{
    let s1 = ts.take(i + 1);
    assert(s1[0] == ts[0]);
    if i == 0 {
        assert(s1.drop_first() =~= Seq::<Type>::empty());
        assert(list_outcome(m, v, s1.drop_first()) == Ok::<(), Seq<char>>(()));
        assert(list_outcome(m, v, s1) == and_then(type_outcome(m, v, ts[0]), list_outcome(m, v, s1.drop_first())));
        match type_outcome(m, v, ts[0]) {
            Ok(u) => {
                assert(u == ());
            },
            Err(_) => {},
        }
    } else {
        let s0 = ts.take(i);
        assert(s0[0] == ts[0]);
        assert(s1.drop_first() =~= ts.drop_first().take(i));
        assert(s0.drop_first() =~= ts.drop_first().take(i - 1));
        assert(list_outcome(m, v, s0) == and_then(type_outcome(m, v, ts[0]), list_outcome(m, v, s0.drop_first())));
        lemma_list_outcome_step(m, v, ts.drop_first(), i - 1);
        assert(ts.drop_first()[i - 1] == ts[i]);
        assert(list_outcome(m, v, s1) == and_then(type_outcome(m, v, ts[0]), list_outcome(m, v, s1.drop_first())));
        assert(type_outcome(m, v, ts[0]) is Ok);
        assert(list_outcome(m, v, s1) == list_outcome(m, v, ts.drop_first().take(i)));
    }
}

proof fn lemma_captures_outcome_step(m: ProductIdentityRemap, v: ProductNominalTypeValidator, cs: Seq<CaptureType>, i: int)
    requires
        0 <= i < cs.len(),
        captures_outcome(m, v, cs.take(i)) is Ok,
    ensures
        captures_outcome(m, v, cs.take(i + 1)) == type_outcome(m, v, cs[i].ty),
    decreases i,
{
    let s1 = cs.take(i + 1);
    assert(s1[0] == cs[0]);
    if i == 0 {
        assert(s1.drop_first() =~= Seq::<CaptureType>::empty());
        assert(captures_outcome(m, v, s1.drop_first()) == Ok::<(), Seq<char>>(()));
        assert(captures_outcome(m, v, s1) == and_then(type_outcome(m, v, cs[0].ty), captures_outcome(m, v, s1.drop_first())));
        match type_outcome(m, v, cs[0].ty) {
            Ok(u) => {
                assert(u == ());
            },
            Err(_) => {},
        }
    } else {
        let s0 = cs.take(i);
        assert(s0[0] == cs[0]);
        assert(s1.drop_first() =~= cs.drop_first().take(i));
        assert(s0.drop_first() =~= cs.drop_first().take(i - 1));
        assert(captures_outcome(m, v, s0) == and_then(type_outcome(m, v, cs[0].ty), captures_outcome(m, v, s0.drop_first())));
        lemma_captures_outcome_step(m, v, cs.drop_first(), i - 1);
        assert(cs.drop_first()[i - 1] == cs[i]);
        assert(captures_outcome(m, v, s1) == and_then(type_outcome(m, v, cs[0].ty), captures_outcome(m, v, s1.drop_first())));
        assert(type_outcome(m, v, cs[0].ty) is Ok);
        assert(captures_outcome(m, v, s1) == captures_outcome(m, v, cs.drop_first().take(i)));
    }
}

proof fn lemma_list_outcome_error(m: ProductIdentityRemap, v: ProductNominalTypeValidator, ts: Seq<Type>, i: int)
    requires
        0 <= i <= ts.len(),
        list_outcome(m, v, ts.take(i)) is Err,
    ensures
        list_outcome(m, v, ts) == list_outcome(m, v, ts.take(i)),
    decreases i,
{
    if i > 0 {
        assert(ts.take(i).drop_first() =~= ts.drop_first().take(i - 1));
        if type_outcome(m, v, ts[0]) is Ok {
            lemma_list_outcome_error(m, v, ts.drop_first(), i - 1);
        }
    }
}

proof fn lemma_captures_outcome_error(m: ProductIdentityRemap, v: ProductNominalTypeValidator, cs: Seq<CaptureType>, i: int)
    requires
        0 <= i <= cs.len(),
        captures_outcome(m, v, cs.take(i)) is Err,
    ensures
        captures_outcome(m, v, cs) == captures_outcome(m, v, cs.take(i)),
    decreases i,
{
    if i > 0 {
        assert(cs.take(i).drop_first() =~= cs.drop_first().take(i - 1));
        if type_outcome(m, v, cs[0].ty) is Ok {
            lemma_captures_outcome_error(m, v, cs.drop_first(), i - 1);
        }
    }
}

pub(crate) fn map_id(m: &ProductIdentityRemap, d: DefId) -> (r: Result<DefId, String>)
    ensures
        outcome_is_res(r, id_outcome(*m, d)),
        r matches Ok(x) ==> x == mapped(*m, d),
{
    m.def_id(ProductDefId::from_def_id(d))
}

/// `r` is `Ok` exactly when `o` is, and carries the same message otherwise.
pub open spec fn outcome_is_res<T>(r: Result<T, String>, o: Result<(), Seq<char>>) -> bool {
    match o {
        Ok(_) => r is Ok,
        Err(msg) => r matches Err(e) && e@ == msg,
    }
}

fn unresolved_message(t: &Type) -> (r: String)
    requires
        *t is TypeVar || *t is Error,
    ensures
        r@ == msg_unresolved(*t),
{
    let mut s = if let Type::TypeVar(_) = t {
        text("Product artifact contains unresolved type Type::TypeVar in executable metadata: ")
    } else {
        text("Product artifact contains unresolved type Type::Error in executable metadata: ")
    };
    push_type_text(&mut s, t);
    s
}

fn check_node(m: &ProductIdentityRemap, v: &ProductNominalTypeValidator, t: &Type) -> (r: Result<(), String>)
    ensures
        outcome_is(r, node_outcome(*m, *v, *t)),
{
    match t {
        Type::Struct { id, .. } => {
            v.validate_struct(ProductDefId::from_def_id(*id))?;
            map_id(m, *id)?;
            Ok(())
        },
        Type::Enum { id, .. } => {
            v.validate_enum(ProductDefId::from_def_id(*id))?;
            map_id(m, *id)?;
            Ok(())
        },
        Type::Constructor { id, flavor } => {
            let p = ProductDefId::from_def_id(*id);
            match flavor {
                NominalTypeKind::Struct => v.validate_struct(p)?,
                NominalTypeKind::Enum => v.validate_enum(p)?,
                NominalTypeKind::Alias => v.validate_type_alias(p)?,
            }
            map_id(m, *id)?;
            Ok(())
        },
        Type::Projection { trait_id, assoc_type, .. } => {
            v.validate_projection(
                ProductDefId::from_def_id(*trait_id),
                ProductDefId::from_def_id(assoc_type.owner),
                assoc_type.assoc_type_id,
            )?;
            map_id(m, *trait_id)?;
            map_id(m, assoc_type.owner)?;
            Ok(())
        },
        Type::TypeVar(_) | Type::Error => Err(unresolved_message(t)),
        Type::Generic(g) => {
            map_id(m, g.owner)?;
            Ok(())
        },
        _ => Ok(()),
    }
}

/// `t` with every definition it names checked and replaced by its session
/// identity.
pub fn remapped_type(t: &Type, m: &ProductIdentityRemap, v: &ProductNominalTypeValidator) -> (r: Result<Type, String>)
    ensures
        outcome_is_res(r, type_outcome(*m, *v, *t)),
        r matches Ok(u) ==> type_map(*m, *t, u),
    decreases t, 1nat,
{
    check_node(m, v, t)?;
    match t {
        Type::Unit => Ok(Type::Unit),
        Type::Bool => Ok(Type::Bool),
        Type::I64 => Ok(Type::I64),
        Type::Str => Ok(Type::Str),
        Type::Error => Ok(Type::Error),
        Type::TypeVar(x) => Ok(Type::TypeVar(*x)),
        Type::Generic(g) => {
            let owner = map_id(m, g.owner)?;
            Ok(Type::Generic(crate::types::GenericParamId { owner, index: g.index }))
        },
        Type::Slice(x) => Ok(Type::Slice(Box::new(remapped_type(x, m, v)?))),
        Type::Pointer(x) => Ok(Type::Pointer(Box::new(remapped_type(x, m, v)?))),
        Type::Array(x, n) => Ok(Type::Array(Box::new(remapped_type(x, m, v)?), *n)),
        Type::Reference { mutable, inner } => Ok(Type::Reference { mutable: *mutable, inner: Box::new(remapped_type(inner, m, v)?) }),
        Type::Tuple(xs) => {
            proof { assert(decreases_to!(*t => (*t)->Tuple_0)); }
            Ok(Type::Tuple(remapped_types(xs, m, v)?))
        },
        Type::Function { params, ret, safety, callable_kind, captures } => {
            proof {
                assert(decreases_to!(*t => (*t)->Function_params));
                assert(decreases_to!(*t => (*t)->Function_captures));
            }
            let p = remapped_types(params, m, v)?;
            let r = remapped_type(ret, m, v)?;
            let c = remapped_captures(captures, m, v)?;
            Ok(Type::Function { params: p, ret: Box::new(r), safety: *safety, callable_kind: *callable_kind, captures: c })
        },
        Type::Struct { id, args } => {
            proof { assert(decreases_to!(*t => (*t)->Struct_args)); }
            let id2 = map_id(m, *id)?;
            Ok(Type::Struct { id: id2, args: remapped_types(args, m, v)? })
        },
        Type::Enum { id, args } => {
            proof { assert(decreases_to!(*t => (*t)->Enum_args)); }
            let id2 = map_id(m, *id)?;
            Ok(Type::Enum { id: id2, args: remapped_types(args, m, v)? })
        },
        Type::Constructor { id, flavor } => {
            let id2 = map_id(m, *id)?;
            Ok(Type::Constructor { id: id2, flavor: *flavor })
        },
        Type::Projection { ty, trait_id, assoc_type, trait_args } => {
            proof { assert(decreases_to!(*t => (*t)->Projection_trait_args)); }
            let tr = map_id(m, *trait_id)?;
            let owner = map_id(m, assoc_type.owner)?;
            let inner = remapped_type(ty, m, v)?;
            let args = remapped_types(trait_args, m, v)?;
            Ok(Type::Projection {
                ty: Box::new(inner),
                trait_id: tr,
                assoc_type: crate::types::AssociatedTypeKey { owner, assoc_type_id: assoc_type.assoc_type_id },
                trait_args: args,
            })
        },
    }
}

/// Each type of `ts` remapped, in order; the first failure ends it.
pub fn remapped_types(ts: &Vec<Type>, m: &ProductIdentityRemap, v: &ProductNominalTypeValidator) -> (r: Result<Vec<Type>, String>)
    ensures
        outcome_is_res(r, list_outcome(*m, *v, ts@)),
        r matches Ok(us) ==> types_map(*m, ts@, us@),
    decreases ts, 0nat,
{
    let mut out: Vec<Type> = Vec::new();
    let mut i: usize = 0;
    while i < ts.len()
        invariant
            i <= ts@.len(),
            list_outcome(*m, *v, ts@.take(i as int)) is Ok,
            out@.len() == i,
            forall|j: int| 0 <= j < i ==> type_map(*m, #[trigger] ts@[j], out@[j]),
        decreases ts.len() - i,
    {
        proof {
            assert(decreases_to!(*ts => ts[i as int]));
            lemma_list_outcome_step(*m, *v, ts@, i as int);
        }
        match remapped_type(&ts[i], m, v) {
            Ok(u) => out.push(u),
            Err(e) => {
                proof {
                    lemma_list_outcome_error(*m, *v, ts@, i + 1);
                }
                return Err(e);
            },
        }
        i = i + 1;
    }
    assert(ts@.take(i as int) =~= ts@);
    Ok(out)
}

fn remapped_captures(cs: &Vec<CaptureType>, m: &ProductIdentityRemap, v: &ProductNominalTypeValidator) -> (r: Result<Vec<CaptureType>, String>)
    ensures
        outcome_is_res(r, captures_outcome(*m, *v, cs@)),
        r matches Ok(us) ==> us@.len() == cs@.len() && forall|i: int| 0 <= i < cs@.len() ==> (#[trigger] cs@[i]).kind
            == us@[i].kind && type_map(*m, cs@[i].ty, us@[i].ty),
    decreases cs, 0nat,
{
    let mut out: Vec<CaptureType> = Vec::new();
    let mut i: usize = 0;
    while i < cs.len()
        invariant
            i <= cs@.len(),
            captures_outcome(*m, *v, cs@.take(i as int)) is Ok,
            out@.len() == i,
            forall|j: int| 0 <= j < i ==> (#[trigger] cs@[j]).kind == out@[j].kind && type_map(*m, cs@[j].ty, out@[j].ty),
        decreases cs.len() - i,
    {
        proof {
            assert(decreases_to!(*cs => cs[i as int]));
            assert(decreases_to!(cs[i as int] => cs[i as int].ty));
            lemma_captures_outcome_step(*m, *v, cs@, i as int);
        }
        match remapped_type(&cs[i].ty, m, v) {
            Ok(u) => out.push(CaptureType { kind: cs[i].kind, ty: u }),
            Err(e) => {
                proof {
                    lemma_captures_outcome_error(*m, *v, cs@, i + 1);
                }
                return Err(e);
            },
        }
        i = i + 1;
    }
    assert(cs@.take(i as int) =~= cs@);
    Ok(out)
}

/// Checks every definition named by `ty` against the artifact's
/// definitions and replaces it by its session identity; on failure `ty`
/// is left as it was.
pub fn remap_type_def_ids(ty: &mut Type, remap: &ProductIdentityRemap, validator: &ProductNominalTypeValidator) -> (r: Result<(), String>)
    ensures
        outcome_is(r, type_outcome(*remap, *validator, *old(ty))),
        r is Ok ==> type_map(*remap, *old(ty), *final(ty)),
        r is Err ==> *final(ty) == *old(ty),
{
    let remapped = remapped_type(ty, remap, validator)?;
    *ty = remapped;
    Ok(())
}


/// Remapping a list succeeds exactly when remapping each of its types does.
pub proof fn lemma_list_outcome_ok(m: ProductIdentityRemap, v: ProductNominalTypeValidator, ts: Seq<Type>)
    ensures
        list_outcome(m, v, ts) is Ok <==> forall|i: int| 0 <= i < ts.len() ==> (#[trigger] type_outcome(m, v, ts[i])) is Ok,
    decreases ts.len(),
{
    if ts.len() > 0 {
        lemma_list_outcome_ok(m, v, ts.drop_first());
        if list_outcome(m, v, ts) is Ok {
            assert forall|i: int| 0 <= i < ts.len() implies (#[trigger] type_outcome(m, v, ts[i])) is Ok by {
                if i > 0 {
                    assert(ts.drop_first()[i - 1] == ts[i]);
                }
            }
        }
        if forall|i: int| 0 <= i < ts.len() ==> (#[trigger] type_outcome(m, v, ts[i])) is Ok {
            assert(type_outcome(m, v, ts[0]) is Ok);
            assert forall|i: int| 0 <= i < ts.drop_first().len() implies (#[trigger] type_outcome(m, v, ts.drop_first()[i])) is Ok by {
                assert(ts.drop_first()[i] == ts[i + 1]);
            }
        }
    }
}

} // verus!
