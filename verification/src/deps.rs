use vstd::prelude::*;

use crate::artifact::ExternCrateRecord;
use crate::ids::{spec_def_of, AssocTypeId, CrateId, DefId, ProductCrateId, ProductDefId, ProductLocalDefId};
use crate::products::{FunctionInterface, FunctionSig, ImplInterface, TraitInterface};
use crate::remap::{CrateContext, ProductIdentityRemap};
use crate::tables::{assoc_id_vec, assoc_ids};
use crate::types::{AssociatedTypeKey, CaptureType, GenericParamId, ReceiverMode, Type};
use crate::validator::{DefinitionTables, ProductNominalTypeValidator};
use crate::child::{
    enum_fields, enum_field_entries, enum_variant_entries, field_entries, names_view, push_enum_names, push_struct_fields,
    struct_field_entries, struct_fields, variant_names, ProductChildLocationValidator,
};
use crate::products::{CompilerProducts, EnumInterface, StructInterface};
use crate::ids::{FieldId, VariantId};

verus! {

// ----- session crates read back as product crates -----

/// Product crate `pc` of the artifact being loaded is a dependency that
/// session crate `c` stands for.
pub open spec fn valid_back(m: ProductIdentityRemap, c: CrateId, pc: ProductCrateId) -> bool {
    pc != m.local_crate && m.spec_crate(pc) == Some(c)
}

/// The dependency product crate that session crate `c` stands for: the
/// greatest one, when several are mapped to it.
pub open spec fn back_crate(m: ProductIdentityRemap, c: CrateId) -> Option<ProductCrateId> {
    if exists|pc: ProductCrateId| valid_back(m, c, pc) {
        Some(choose|pc: ProductCrateId| valid_back(m, c, pc) && forall|q: ProductCrateId| valid_back(m, c, q) ==> q.0 <= pc.0)
    } else {
        None
    }
}

/// The product identity, in the numbering of the artifact being loaded,
/// of a definition of a loaded dependency.
pub open spec fn back_id(m: ProductIdentityRemap, d: DefId) -> Option<ProductDefId> {
    match back_crate(m, d.crate_id) {
        Some(pc) => Some(ProductDefId { crate_id: pc, local_id: ProductLocalDefId(d.local.0) }),
        None => None,
    }
}

/// `d` renumbered into the artifact's product numbering where it can be.
pub open spec fn back_def(m: ProductIdentityRemap, d: DefId) -> DefId {
    match back_id(m, d) {
        Some(p) => spec_def_of(p),
        None => d,
    }
}

/// The dependency product crate that session crate `c` stands for.
pub fn product_crate_for(m: &ProductIdentityRemap, c: CrateId) -> (r: Option<ProductCrateId>)
    ensures
        r == back_crate(*m, c),
{
    let mut best: Option<ProductCrateId> = None;
    let mut i: usize = 0;
    while i < m.crate_ids.len()
        invariant
            i <= m.crate_ids@.len(),
            best matches Some(b) ==> valid_back(*m, c, b),
            forall|j: int| 0 <= j < i ==> valid_back(*m, c, (#[trigger] m.crate_ids@[j]).0) && m.crate_ids@[j].1 == c
                ==> (best matches Some(b) && m.crate_ids@[j].0.0 <= b.0),
        decreases m.crate_ids@.len() - i,
    {
        let (pc, c2) = m.crate_ids[i];
        if c2 == c && pc != m.local_crate {
            if m.crate_of(pc) == Some(c) {
                let better = match best {
                    Some(b) => b.0 < pc.0,
                    None => true,
                };
                if better {
                    best = Some(pc);
                }
            }
        }
        i = i + 1;
    }
    proof {
        assert forall|q: ProductCrateId| valid_back(*m, c, q) implies (best matches Some(b) && q.0 <= b.0) by {
            crate::collections::lemma_lookup(m.crate_ids@, q);
            let k = choose|k: int| 0 <= k < m.crate_ids@.len() && m.crate_ids@[k] == (q, c)
                && forall|j: int| 0 <= j < k ==> (#[trigger] m.crate_ids@[j]).0 != q;
            assert(valid_back(*m, c, m.crate_ids@[k].0) && m.crate_ids@[k].1 == c);
        }
        match best {
            Some(b) => {
                let p = choose|pc: ProductCrateId| valid_back(*m, c, pc) && forall|q: ProductCrateId| valid_back(*m, c, q) ==> q.0 <= pc.0;
                assert(valid_back(*m, c, b) && forall|q: ProductCrateId| valid_back(*m, c, q) ==> q.0 <= b.0);
                assert(p.0 <= b.0 && b.0 <= p.0);
                assert(p == b);
            },
            None => {},
        }
    }
    best
}

/// The product identity of a loaded dependency's definition.
pub fn product_id_for_def(m: &ProductIdentityRemap, d: DefId) -> (r: Option<ProductDefId>)
    ensures
        r == back_id(*m, d),
{
    match product_crate_for(m, d.crate_id) {
        Some(pc) => Some(ProductDefId { crate_id: pc, local_id: ProductLocalDefId(d.local.0) }),
        None => None,
    }
}

/// A loaded dependency's definition renumbered into the artifact's
/// product numbering where it can be.
pub fn back_def_id(m: &ProductIdentityRemap, d: DefId) -> (r: DefId)
    ensures
        r == back_def(*m, d),
{
    match product_id_for_def(m, d) {
        Some(p) => crate::ids::product_def_id(p),
        None => d,
    }
}

// ----- types read back -----

/// `u` is `t` with each definition renumbered by `back_def`.
pub open spec fn type_back(m: ProductIdentityRemap, t: Type, u: Type) -> bool
    decreases t,
{
    match t {
        Type::Unit => u is Unit,
        Type::Bool => u is Bool,
        Type::I64 => u is I64,
        Type::Str => u is Str,
        Type::Error => u is Error,
        Type::TypeVar(x) => u == Type::TypeVar(x),
        Type::Generic(g) => u matches Type::Generic(h) && h.index == g.index && h.owner == back_def(m, g.owner),
        Type::Slice(x) => u matches Type::Slice(y) && type_back(m, *x, *y),
        Type::Pointer(x) => u matches Type::Pointer(y) && type_back(m, *x, *y),
        Type::Array(x, n) => u matches Type::Array(y, k) && k == n && type_back(m, *x, *y),
        Type::Reference { mutable, inner } => u matches Type::Reference { mutable: b, inner: y } && b == mutable
            && type_back(m, *inner, *y),
        Type::Tuple(xs) => u matches Type::Tuple(ys) && xs@.len() == ys@.len() && forall|i: int|
            0 <= i < xs@.len() ==> type_back(m, #[trigger] xs@[i], ys@[i]),
        Type::Function { params, ret, safety, callable_kind, captures } => u matches Type::Function {
            params: p2,
            ret: r2,
            safety: s2,
            callable_kind: k2,
            captures: c2,
        } && s2 == safety && k2 == callable_kind && params@.len() == p2@.len() && (forall|i: int|
            0 <= i < params@.len() ==> type_back(m, #[trigger] params@[i], p2@[i])) && type_back(m, *ret, *r2)
            && captures@.len() == c2@.len() && (forall|i: int|
            0 <= i < captures@.len() ==> (#[trigger] captures@[i]).kind == c2@[i].kind && type_back(m, captures@[i].ty, c2@[i].ty)),
        Type::Struct { id, args } => u matches Type::Struct { id: i2, args: a2 } && i2 == back_def(m, id)
            && args@.len() == a2@.len() && forall|i: int| 0 <= i < args@.len() ==> type_back(m, #[trigger] args@[i], a2@[i]),
        Type::Enum { id, args } => u matches Type::Enum { id: i2, args: a2 } && i2 == back_def(m, id)
            && args@.len() == a2@.len() && forall|i: int| 0 <= i < args@.len() ==> type_back(m, #[trigger] args@[i], a2@[i]),
        Type::Constructor { id, flavor } => u == Type::Constructor { id: back_def(m, id), flavor },
        Type::Projection { ty, trait_id, assoc_type, trait_args } => u matches Type::Projection {
            ty: t2,
            trait_id: tr2,
            assoc_type: as2,
            trait_args: a2,
        } && tr2 == back_def(m, trait_id) && as2.owner == back_def(m, assoc_type.owner)
            && as2.assoc_type_id == assoc_type.assoc_type_id && type_back(m, *ty, *t2)
            && trait_args@.len() == a2@.len() && forall|i: int|
            0 <= i < trait_args@.len() ==> type_back(m, #[trigger] trait_args@[i], a2@[i]),
    }
}

/// A loaded dependency's type renumbered into the artifact's product
/// numbering.
pub fn back_type(t: &Type, m: &ProductIdentityRemap) -> (r: Type)
    ensures
        type_back(*m, *t, r),
    decreases t, 1nat,
{
    match t {
        Type::Unit => Type::Unit,
        Type::Bool => Type::Bool,
        Type::I64 => Type::I64,
        Type::Str => Type::Str,
        Type::Error => Type::Error,
        Type::TypeVar(x) => Type::TypeVar(*x),
        Type::Generic(g) => Type::Generic(GenericParamId { owner: back_def_id(m, g.owner), index: g.index }),
        Type::Slice(x) => Type::Slice(Box::new(back_type(x, m))),
        Type::Pointer(x) => Type::Pointer(Box::new(back_type(x, m))),
        Type::Array(x, n) => Type::Array(Box::new(back_type(x, m)), *n),
        Type::Reference { mutable, inner } => Type::Reference { mutable: *mutable, inner: Box::new(back_type(inner, m)) },
        Type::Tuple(xs) => {
            proof { assert(decreases_to!(*t => (*t)->Tuple_0)); }
            Type::Tuple(back_types(xs, m))
        },
        Type::Function { params, ret, safety, callable_kind, captures } => {
            proof {
                assert(decreases_to!(*t => (*t)->Function_params));
                assert(decreases_to!(*t => (*t)->Function_captures));
            }
            let p = back_types(params, m);
            let r = back_type(ret, m);
            let c = back_captures(captures, m);
            Type::Function { params: p, ret: Box::new(r), safety: *safety, callable_kind: *callable_kind, captures: c }
        },
        Type::Struct { id, args } => {
            proof { assert(decreases_to!(*t => (*t)->Struct_args)); }
            Type::Struct { id: back_def_id(m, *id), args: back_types(args, m) }
        },
        Type::Enum { id, args } => {
            proof { assert(decreases_to!(*t => (*t)->Enum_args)); }
            Type::Enum { id: back_def_id(m, *id), args: back_types(args, m) }
        },
        Type::Constructor { id, flavor } => Type::Constructor { id: back_def_id(m, *id), flavor: *flavor },
        Type::Projection { ty, trait_id, assoc_type, trait_args } => {
            proof { assert(decreases_to!(*t => (*t)->Projection_trait_args)); }
            Type::Projection {
                ty: Box::new(back_type(ty, m)),
                trait_id: back_def_id(m, *trait_id),
                assoc_type: AssociatedTypeKey { owner: back_def_id(m, assoc_type.owner), assoc_type_id: assoc_type.assoc_type_id },
                trait_args: back_types(trait_args, m),
            }
        },
    }
}

/// Each type of a list renumbered.
pub fn back_types(ts: &Vec<Type>, m: &ProductIdentityRemap) -> (r: Vec<Type>)
    ensures
        r@.len() == ts@.len(),
        forall|i: int| 0 <= i < ts@.len() ==> type_back(*m, #[trigger] ts@[i], r@[i]),
    decreases ts, 0nat,
{
    let mut out: Vec<Type> = Vec::new();
    let mut i: usize = 0;
    while i < ts.len()
        invariant
            i <= ts@.len(),
            out@.len() == i,
            forall|j: int| 0 <= j < i ==> type_back(*m, #[trigger] ts@[j], out@[j]),
        decreases ts.len() - i,
    {
        proof {
            assert(decreases_to!(*ts => ts[i as int]));
        }
        out.push(back_type(&ts[i], m));
        i = i + 1;
    }
    out
}

fn back_captures(cs: &Vec<CaptureType>, m: &ProductIdentityRemap) -> (r: Vec<CaptureType>)
    ensures
        r@.len() == cs@.len(),
        forall|i: int| 0 <= i < cs@.len() ==> (#[trigger] cs@[i]).kind == r@[i].kind && type_back(*m, cs@[i].ty, r@[i].ty),
    decreases cs, 0nat,
{
    let mut out: Vec<CaptureType> = Vec::new();
    let mut i: usize = 0;
    while i < cs.len()
        invariant
            i <= cs@.len(),
            out@.len() == i,
            forall|j: int| 0 <= j < i ==> (#[trigger] cs@[j]).kind == out@[j].kind && type_back(*m, cs@[j].ty, out@[j].ty),
        decreases cs.len() - i,
    {
        proof {
            assert(decreases_to!(*cs => cs[i as int]));
            assert(decreases_to!(cs[i as int] => cs[i as int].ty));
        }
        out.push(CaptureType { kind: cs[i].kind, ty: back_type(&cs[i].ty, m) });
        i = i + 1;
    }
    out
}


// ----- what loaded dependencies declare -----

/// The items of `s` whose identity reads back, each with its product
/// identity, in order.
pub open spec fn back_items<T>(m: ProductIdentityRemap, s: Seq<T>, id_of: spec_fn(T) -> DefId) -> Seq<(ProductDefId, T)>
    decreases s.len(),
{
    if s.len() == 0 {
        Seq::empty()
    } else {
        let rest = back_items(m, s.drop_last(), id_of);
        match back_id(m, id_of(s.last())) {
            Some(p) => rest.push((p, s.last())),
            None => rest,
        }
    }
}

/// The items that the loaded crates `deps` declare, selected by `sel`,
/// whose identities read back: crate by crate, item by item.
pub open spec fn flat_back<T>(
    m: ProductIdentityRemap,
    deps: Seq<ExternCrateRecord>,
    sel: spec_fn(ExternCrateRecord) -> Seq<T>,
    id_of: spec_fn(T) -> DefId,
) -> Seq<(ProductDefId, T)>
    decreases deps.len(),
{
    if deps.len() == 0 {
        Seq::empty()
    } else {
        flat_back(m, deps.drop_last(), sel, id_of) + back_items(m, sel(deps.last()), id_of)
    }
}

/// The identities of one kind of top-level definition of a loaded crate:
/// structs, enums, type aliases, functions or externs.
pub open spec fn kind_ids(k: int, r: ExternCrateRecord) -> Seq<DefId> {
    if k == 0 {
        struct_ids(r)
    } else if k == 1 {
        enum_ids(r)
    } else if k == 2 {
        alias_ids(r)
    } else if k == 3 {
        function_ids(r)
    } else {
        extern_ids(r)
    }
}

pub open spec fn struct_ids(r: ExternCrateRecord) -> Seq<DefId> {
    r.interface.structs@.map_values(|x: crate::products::StructInterface| x.id)
}

pub open spec fn enum_ids(r: ExternCrateRecord) -> Seq<DefId> {
    r.interface.enums@.map_values(|x: crate::products::EnumInterface| x.id)
}

pub open spec fn alias_ids(r: ExternCrateRecord) -> Seq<DefId> {
    r.interface.type_aliases@.map_values(|x: crate::products::TypeAliasInterface| x.id)
}

pub open spec fn function_ids(r: ExternCrateRecord) -> Seq<DefId> {
    r.interface.functions@.map_values(|x: FunctionInterface| x.id)
}

pub open spec fn extern_ids(r: ExternCrateRecord) -> Seq<DefId> {
    r.interface.externs@.map_values(|x: crate::products::ExternInterface| x.id)
}

pub open spec fn record_traits(r: ExternCrateRecord) -> Seq<TraitInterface> {
    r.interface.traits@
}

pub open spec fn record_impls(r: ExternCrateRecord) -> Seq<ImplInterface> {
    r.interface.impls@
}

pub open spec fn record_effective(r: ExternCrateRecord) -> Seq<((DefId, DefId), DefId)> {
    r.interface.effective_trait_methods@
}

pub open spec fn id_itself(d: DefId) -> DefId {
    d
}

pub open spec fn trait_id_of(t: TraitInterface) -> DefId {
    t.id
}

pub open spec fn impl_id_of(i: ImplInterface) -> DefId {
    i.id
}

/// The product identities of the loaded definitions selected by `sel`.
pub open spec fn dep_ids(m: ProductIdentityRemap, deps: Seq<ExternCrateRecord>, sel: spec_fn(ExternCrateRecord) -> Seq<DefId>) -> Seq<ProductDefId> {
    flat_back(m, deps, sel, |d: DefId| id_itself(d)).map_values(|e: (ProductDefId, DefId)| e.0)
}

/// The loaded traits whose identities read back.
pub open spec fn dep_traits(m: ProductIdentityRemap, deps: Seq<ExternCrateRecord>) -> Seq<(ProductDefId, TraitInterface)> {
    flat_back(m, deps, |r: ExternCrateRecord| record_traits(r), |t: TraitInterface| trait_id_of(t))
}

/// The loaded impls whose identities read back.
pub open spec fn dep_impls(m: ProductIdentityRemap, deps: Seq<ExternCrateRecord>) -> Seq<(ProductDefId, ImplInterface)> {
    flat_back(m, deps, |r: ExternCrateRecord| record_impls(r), |i: ImplInterface| impl_id_of(i))
}

/// The methods of `ms` whose identities read back, with their names.
pub open spec fn back_methods(m: ProductIdentityRemap, ms: Seq<(String, FunctionInterface)>) -> Seq<(Seq<char>, ProductDefId)>
    decreases ms.len(),
{
    if ms.len() == 0 {
        Seq::empty()
    } else {
        let rest = back_methods(m, ms.drop_last());
        match back_id(m, ms.last().1.id) {
            Some(p) => rest.push((ms.last().0@, p)),
            None => rest,
        }
    }
}

/// The signatures of `ss` whose identities read back, with their names.
pub open spec fn back_sigs(m: ProductIdentityRemap, ss: Seq<(String, FunctionSig)>) -> Seq<(Seq<char>, ProductDefId)>
    decreases ss.len(),
{
    if ss.len() == 0 {
        Seq::empty()
    } else {
        let rest = back_sigs(m, ss.drop_last());
        match back_id(m, ss.last().1.id) {
            Some(p) => rest.push((ss.last().0@, p)),
            None => rest,
        }
    }
}

/// The methods of `ms` whose identities read back, with their receivers.
pub open spec fn method_modes(m: ProductIdentityRemap, ms: Seq<(String, FunctionInterface)>) -> Seq<(ProductDefId, Option<ReceiverMode>)>
    decreases ms.len(),
{
    if ms.len() == 0 {
        Seq::empty()
    } else {
        let rest = method_modes(m, ms.drop_last());
        match back_id(m, ms.last().1.id) {
            Some(p) => rest.push((p, ms.last().1.self_receiver)),
            None => rest,
        }
    }
}

/// The signatures of `ss` whose identities read back, with their receivers.
pub open spec fn sig_modes(m: ProductIdentityRemap, ss: Seq<(String, FunctionSig)>) -> Seq<(ProductDefId, Option<ReceiverMode>)>
    decreases ss.len(),
{
    if ss.len() == 0 {
        Seq::empty()
    } else {
        let rest = sig_modes(m, ss.drop_last());
        match back_id(m, ss.last().1.id) {
            Some(p) => rest.push((p, ss.last().1.self_receiver)),
            None => rest,
        }
    }
}

/// The impl methods of `ms` without receiver whose identities read back.
pub open spec fn static_ids(m: ProductIdentityRemap, ms: Seq<(String, FunctionInterface)>) -> Seq<ProductDefId>
    decreases ms.len(),
{
    if ms.len() == 0 {
        Seq::empty()
    } else {
        let rest = static_ids(m, ms.drop_last());
        match back_id(m, ms.last().1.id) {
            Some(p) => if !ms.last().1.is_method { rest.push(p) } else { rest },
            None => rest,
        }
    }
}

/// The member entries of the loaded traits: each trait's methods, then its
/// signatures, with their receivers.
pub open spec fn trait_modes(m: ProductIdentityRemap, ts: Seq<(ProductDefId, TraitInterface)>) -> Seq<(ProductDefId, Option<ReceiverMode>)>
    decreases ts.len(),
{
    if ts.len() == 0 {
        Seq::empty()
    } else {
        trait_modes(m, ts.drop_last()) + method_modes(m, ts.last().1.methods@) + sig_modes(m, ts.last().1.signatures@)
    }
}

/// The method entries of the loaded impls, with their receivers.
pub open spec fn impl_modes(m: ProductIdentityRemap, is: Seq<(ProductDefId, ImplInterface)>) -> Seq<(ProductDefId, Option<ReceiverMode>)>
    decreases is.len(),
{
    if is.len() == 0 {
        Seq::empty()
    } else {
        impl_modes(m, is.drop_last()) + method_modes(m, is.last().1.methods@)
    }
}

/// The static methods of the loaded impls.
pub open spec fn impl_statics(m: ProductIdentityRemap, is: Seq<(ProductDefId, ImplInterface)>) -> Seq<ProductDefId>
    decreases is.len(),
{
    if is.len() == 0 {
        Seq::empty()
    } else {
        impl_statics(m, is.drop_last()) + static_ids(m, is.last().1.methods@)
    }
}

/// The effective trait methods of the loaded crates whose three
/// identities read back.
pub open spec fn back_effective(m: ProductIdentityRemap, s: Seq<((DefId, DefId), DefId)>) -> Seq<((ProductDefId, ProductDefId), ProductDefId)>
    decreases s.len(),
{
    if s.len() == 0 {
        Seq::empty()
    } else {
        let rest = back_effective(m, s.drop_last());
        let e = s.last();
        if back_id(m, e.0.0) is Some && back_id(m, e.0.1) is Some && back_id(m, e.1) is Some {
            rest.push(((back_id(m, e.0.0).unwrap(), back_id(m, e.0.1).unwrap()), back_id(m, e.1).unwrap()))
        } else {
            rest
        }
    }
}

pub open spec fn dep_effective(m: ProductIdentityRemap, deps: Seq<ExternCrateRecord>) -> Seq<((ProductDefId, ProductDefId), ProductDefId)>
    decreases deps.len(),
{
    if deps.len() == 0 {
        Seq::empty()
    } else {
        dep_effective(m, deps.drop_last()) + back_effective(m, record_effective(deps.last()))
    }
}

/// `t` holds what the loaded crates `deps` declare, in the numbering of
/// the artifact being loaded.
pub open spec fn dependency_tables_of(m: ProductIdentityRemap, deps: Seq<ExternCrateRecord>, t: DefinitionTables) -> bool {
    let ts = dep_traits(m, deps);
    let is = dep_impls(m, deps);
    &&& t.structs@ == dep_ids(m, deps, |r: ExternCrateRecord| kind_ids(0, r))
    &&& t.enums@ == dep_ids(m, deps, |r: ExternCrateRecord| kind_ids(1, r))
    &&& t.type_aliases@ == dep_ids(m, deps, |r: ExternCrateRecord| kind_ids(2, r))
    &&& t.functions@ == dep_ids(m, deps, |r: ExternCrateRecord| kind_ids(3, r))
    &&& t.externs@ == dep_ids(m, deps, |r: ExternCrateRecord| kind_ids(4, r))
    &&& t.traits@.len() == ts.len()
    &&& t.trait_generic_counts@.len() == ts.len()
    &&& t.trait_methods@.len() == ts.len()
    &&& t.trait_signatures@.len() == ts.len()
    &&& forall|i: int| 0 <= i < ts.len() ==> {
        &&& (#[trigger] t.traits@[i]).0 == ts[i].0
        &&& t.traits@[i].1@ == assoc_ids(ts[i].1)
        &&& t.trait_generic_counts@[i] == (ts[i].0, ts[i].1.generic_params@.len() as usize)
        &&& t.trait_methods@[i].0 == ts[i].0
        &&& crate::tables::named_view(t.trait_methods@[i].1@) == back_methods(m, ts[i].1.methods@)
        &&& t.trait_signatures@[i].0 == ts[i].0
        &&& crate::tables::named_view(t.trait_signatures@[i].1@) == back_sigs(m, ts[i].1.signatures@)
    }
    &&& t.impls@ == is.map_values(|e: (ProductDefId, ImplInterface)| e.0)
    &&& t.impl_traits@.len() == is.len()
    &&& t.impl_trait_args@.len() == is.len()
    &&& t.impl_methods@.len() == is.len()
    &&& forall|i: int| 0 <= i < is.len() ==> {
        &&& (#[trigger] t.impl_traits@[i]).0 == is[i].0
        &&& t.impl_traits@[i].1 == match is[i].1.trait_id { Some(d) => back_id(m, d), None => None }
        &&& t.impl_trait_args@[i].0 == is[i].0
        &&& t.impl_trait_args@[i].1@.len() == is[i].1.trait_arg_types@.len()
        &&& forall|j: int| 0 <= j < is[i].1.trait_arg_types@.len() ==> type_back(m, #[trigger] is[i].1.trait_arg_types@[j], t.impl_trait_args@[i].1@[j])
        &&& t.impl_methods@[i].0 == is[i].0
        &&& t.impl_methods@[i].1@ == method_modes(m, is[i].1.methods@).map_values(|e: (ProductDefId, Option<ReceiverMode>)| e.0)
    }
    &&& t.effective_trait_methods@ == dep_effective(m, deps)
    &&& t.method_receiver_modes@ == trait_modes(m, ts) + impl_modes(m, is)
    &&& t.methods@ == (trait_modes(m, ts) + impl_modes(m, is)).map_values(|e: (ProductDefId, Option<ReceiverMode>)| e.0)
    &&& t.static_methods@ == impl_statics(m, is)
}


proof fn lemma_flat_step<T>(m: ProductIdentityRemap, deps: Seq<ExternCrateRecord>, i: int, sel: spec_fn(ExternCrateRecord) -> Seq<T>, id_of: spec_fn(T) -> DefId)
    requires
        0 <= i < deps.len(),
    ensures
        flat_back(m, deps.take(i + 1), sel, id_of) == flat_back(m, deps.take(i), sel, id_of) + back_items(m, sel(deps[i]), id_of),
{
    assert(deps.take(i + 1).drop_last() =~= deps.take(i));
    assert(deps.take(i + 1).last() == deps[i]);
}

proof fn lemma_items_step<T>(m: ProductIdentityRemap, s: Seq<T>, j: int, id_of: spec_fn(T) -> DefId)
    requires
        0 <= j < s.len(),
    ensures
        back_items(m, s.take(j + 1), id_of) == match back_id(m, id_of(s[j])) {
            Some(p) => back_items(m, s.take(j), id_of).push((p, s[j])),
            None => back_items(m, s.take(j), id_of),
        },
{
    assert(s.take(j + 1).drop_last() =~= s.take(j));
    assert(s.take(j + 1).last() == s[j]);
}

fn kind_id_vec(k: usize, r: &ExternCrateRecord) -> (out: Vec<DefId>)
    ensures
        out@ == kind_ids(k as int, *r),
{
    let mut out: Vec<DefId> = Vec::new();
    let f = &r.interface;
    if k == 0 {
        let mut j: usize = 0;
        while j < f.structs.len()
            invariant j <= f.structs@.len(), out@ == struct_ids(*r).take(j as int), f == &r.interface,
            decreases f.structs@.len() - j,
        {
            out.push(f.structs[j].id);
            j = j + 1;
            assert(out@ =~= struct_ids(*r).take(j as int));
        }
        assert(struct_ids(*r).take(j as int) =~= struct_ids(*r));
    } else if k == 1 {
        let mut j: usize = 0;
        while j < f.enums.len()
            invariant j <= f.enums@.len(), out@ == enum_ids(*r).take(j as int), f == &r.interface,
            decreases f.enums@.len() - j,
        {
            out.push(f.enums[j].id);
            j = j + 1;
            assert(out@ =~= enum_ids(*r).take(j as int));
        }
        assert(enum_ids(*r).take(j as int) =~= enum_ids(*r));
    } else if k == 2 {
        let mut j: usize = 0;
        while j < f.type_aliases.len()
            invariant j <= f.type_aliases@.len(), out@ == alias_ids(*r).take(j as int), f == &r.interface,
            decreases f.type_aliases@.len() - j,
        {
            out.push(f.type_aliases[j].id);
            j = j + 1;
            assert(out@ =~= alias_ids(*r).take(j as int));
        }
        assert(alias_ids(*r).take(j as int) =~= alias_ids(*r));
    } else if k == 3 {
        let mut j: usize = 0;
        while j < f.functions.len()
            invariant j <= f.functions@.len(), out@ == function_ids(*r).take(j as int), f == &r.interface,
            decreases f.functions@.len() - j,
        {
            out.push(f.functions[j].id);
            j = j + 1;
            assert(out@ =~= function_ids(*r).take(j as int));
        }
        assert(function_ids(*r).take(j as int) =~= function_ids(*r));
    } else {
        let mut j: usize = 0;
        while j < f.externs.len()
            invariant j <= f.externs@.len(), out@ == extern_ids(*r).take(j as int), f == &r.interface,
            decreases f.externs@.len() - j,
        {
            out.push(f.externs[j].id);
            j = j + 1;
            assert(out@ =~= extern_ids(*r).take(j as int));
        }
        assert(extern_ids(*r).take(j as int) =~= extern_ids(*r));
    }
    out
}

/// The product identities of one kind of top-level definition of the
/// loaded crates.
#[verifier::loop_isolation(false)]
fn dep_id_vec(k: usize, deps: &Vec<ExternCrateRecord>, m: &ProductIdentityRemap) -> (out: Vec<ProductDefId>)
    ensures
        out@ == dep_ids(*m, deps@, |r: ExternCrateRecord| kind_ids(k as int, r)),
{
    let ghost sel = |r: ExternCrateRecord| kind_ids(k as int, r);
    let ghost idf = |d: DefId| id_itself(d);
    let mut out: Vec<ProductDefId> = Vec::new();
    let mut i: usize = 0;
    while i < deps.len()
        invariant
            i <= deps@.len(),
            sel == |r: ExternCrateRecord| kind_ids(k as int, r),
            idf == |d: DefId| id_itself(d),
            out@ == flat_back(*m, deps@.take(i as int), sel, idf).map_values(|e: (ProductDefId, DefId)| e.0),
        decreases deps@.len() - i,
    {
        let ids = kind_id_vec(k, &deps[i]);
        let ghost base = flat_back(*m, deps@.take(i as int), sel, idf);
        let mut j: usize = 0;
        while j < ids.len()
            invariant
                j <= ids@.len(),
                i < deps@.len(),
                ids@ == sel(deps@[i as int]),
                out@ == (base + back_items(*m, ids@.take(j as int), idf)).map_values(|e: (ProductDefId, DefId)| e.0),
            decreases ids@.len() - j,
        {
            proof {
                lemma_items_step(*m, ids@, j as int, idf);
            }
            let ghost before = out@;
            let ghost bi = back_items(*m, ids@.take(j as int), idf);
            assert(idf(ids@[j as int]) == ids@[j as int]);
            match product_id_for_def(m, ids[j]) {
                Some(p) => {
                    out.push(p);
                    assert(back_items(*m, ids@.take(j + 1), idf) == bi.push((p, ids@[j as int])));
                    assert(base + bi.push((p, ids@[j as int])) =~= (base + bi).push((p, ids@[j as int])));
                    assert(out@ =~= (base + bi).push((p, ids@[j as int])).map_values(|e: (ProductDefId, DefId)| e.0));
                },
                None => {},
            }
            j = j + 1;
        }
        proof {
            assert(ids@.take(j as int) =~= ids@);
            lemma_flat_step(*m, deps@, i as int, sel, idf);
        }
        i = i + 1;
    }
    assert(deps@.take(i as int) =~= deps@);
    out
}


fn back_method_vec(m: &ProductIdentityRemap, ms: &Vec<(String, FunctionInterface)>) -> (r: Vec<(String, ProductDefId)>)
    ensures
        crate::tables::named_view(r@) == back_methods(*m, ms@),
{
    let mut out: Vec<(String, ProductDefId)> = Vec::new();
    let mut j: usize = 0;
    while j < ms.len()
        invariant
            j <= ms@.len(),
            crate::tables::named_view(out@) == back_methods(*m, ms@.take(j as int)),
        decreases ms@.len() - j,
    {
        assert(ms@.take(j + 1).drop_last() =~= ms@.take(j as int));
        if let Some(p) = product_id_for_def(m, ms[j].1.id) {
            out.push((ms[j].0.clone(), p));
            assert(crate::tables::named_view(out@) =~= crate::tables::named_view(out@.drop_last()).push((ms@[j as int].0@, p)));
        }
        j = j + 1;
    }
    assert(ms@.take(j as int) =~= ms@);
    out
}

fn back_sig_vec(m: &ProductIdentityRemap, ss: &Vec<(String, FunctionSig)>) -> (r: Vec<(String, ProductDefId)>)
    ensures
        crate::tables::named_view(r@) == back_sigs(*m, ss@),
{
    let mut out: Vec<(String, ProductDefId)> = Vec::new();
    let mut j: usize = 0;
    while j < ss.len()
        invariant
            j <= ss@.len(),
            crate::tables::named_view(out@) == back_sigs(*m, ss@.take(j as int)),
        decreases ss@.len() - j,
    {
        assert(ss@.take(j + 1).drop_last() =~= ss@.take(j as int));
        if let Some(p) = product_id_for_def(m, ss[j].1.id) {
            out.push((ss[j].0.clone(), p));
            assert(crate::tables::named_view(out@) =~= crate::tables::named_view(out@.drop_last()).push((ss@[j as int].0@, p)));
        }
        j = j + 1;
    }
    assert(ss@.take(j as int) =~= ss@);
    out
}

fn push_method_modes(m: &ProductIdentityRemap, ms: &Vec<(String, FunctionInterface)>, out: &mut Vec<(ProductDefId, Option<ReceiverMode>)>)
    ensures
        final(out)@ == old(out)@ + method_modes(*m, ms@),
{
    let ghost start = out@;
    let mut j: usize = 0;
    assert(out@ =~= start + method_modes(*m, ms@.take(0)));
    while j < ms.len()
        invariant
            j <= ms@.len(),
            out@ == start + method_modes(*m, ms@.take(j as int)),
        decreases ms@.len() - j,
    {
        assert(ms@.take(j + 1).drop_last() =~= ms@.take(j as int));
        if let Some(p) = product_id_for_def(m, ms[j].1.id) {
            out.push((p, ms[j].1.self_receiver));
        }
        j = j + 1;
        assert(out@ =~= start + method_modes(*m, ms@.take(j as int)));
    }
    assert(ms@.take(j as int) =~= ms@);
}

fn push_sig_modes(m: &ProductIdentityRemap, ss: &Vec<(String, FunctionSig)>, out: &mut Vec<(ProductDefId, Option<ReceiverMode>)>)
    ensures
        final(out)@ == old(out)@ + sig_modes(*m, ss@),
{
    let ghost start = out@;
    let mut j: usize = 0;
    assert(out@ =~= start + sig_modes(*m, ss@.take(0)));
    while j < ss.len()
        invariant
            j <= ss@.len(),
            out@ == start + sig_modes(*m, ss@.take(j as int)),
        decreases ss@.len() - j,
    {
        assert(ss@.take(j + 1).drop_last() =~= ss@.take(j as int));
        if let Some(p) = product_id_for_def(m, ss[j].1.id) {
            out.push((p, ss[j].1.self_receiver));
        }
        j = j + 1;
        assert(out@ =~= start + sig_modes(*m, ss@.take(j as int)));
    }
    assert(ss@.take(j as int) =~= ss@);
}

fn push_static_ids(m: &ProductIdentityRemap, ms: &Vec<(String, FunctionInterface)>, out: &mut Vec<ProductDefId>)
    ensures
        final(out)@ == old(out)@ + static_ids(*m, ms@),
{
    let ghost start = out@;
    let mut j: usize = 0;
    assert(out@ =~= start + static_ids(*m, ms@.take(0)));
    while j < ms.len()
        invariant
            j <= ms@.len(),
            out@ == start + static_ids(*m, ms@.take(j as int)),
        decreases ms@.len() - j,
    {
        assert(ms@.take(j + 1).drop_last() =~= ms@.take(j as int));
        if let Some(p) = product_id_for_def(m, ms[j].1.id) {
            if !ms[j].1.is_method {
                out.push(p);
            }
        }
        j = j + 1;
        assert(out@ =~= start + static_ids(*m, ms@.take(j as int)));
    }
    assert(ms@.take(j as int) =~= ms@);
}

fn mode_ids(modes: &Vec<(ProductDefId, Option<ReceiverMode>)>) -> (r: Vec<ProductDefId>)
    ensures
        r@ == modes@.map_values(|e: (ProductDefId, Option<ReceiverMode>)| e.0),
{
    let mut out: Vec<ProductDefId> = Vec::new();
    let mut j: usize = 0;
    while j < modes.len()
        invariant
            j <= modes@.len(),
            out@.len() == j,
            forall|k: int| 0 <= k < j ==> out@[k] == (#[trigger] modes@[k]).0,
        decreases modes@.len() - j,
    {
        out.push(modes[j].0);
        j = j + 1;
    }
    assert(out@ =~= modes@.map_values(|e: (ProductDefId, Option<ReceiverMode>)| e.0));
    out
}

/// What the trait tables of the loaded traits `ts` hold.
pub open spec fn trait_tables_hold(
    m: ProductIdentityRemap,
    ts: Seq<(ProductDefId, TraitInterface)>,
    traits: Seq<(ProductDefId, Vec<AssocTypeId>)>,
    counts: Seq<(ProductDefId, usize)>,
    methods: Seq<(ProductDefId, Vec<(String, ProductDefId)>)>,
    sigs: Seq<(ProductDefId, Vec<(String, ProductDefId)>)>,
    modes: Seq<(ProductDefId, Option<ReceiverMode>)>,
) -> bool {
    &&& traits.len() == ts.len()
    &&& counts.len() == ts.len()
    &&& methods.len() == ts.len()
    &&& sigs.len() == ts.len()
    &&& forall|i: int| 0 <= i < ts.len() ==> {
        &&& (#[trigger] traits[i]).0 == ts[i].0
        &&& traits[i].1@ == assoc_ids(ts[i].1)
        &&& counts[i] == (ts[i].0, ts[i].1.generic_params@.len() as usize)
        &&& methods[i].0 == ts[i].0
        &&& crate::tables::named_view(methods[i].1@) == back_methods(m, ts[i].1.methods@)
        &&& sigs[i].0 == ts[i].0
        &&& crate::tables::named_view(sigs[i].1@) == back_sigs(m, ts[i].1.signatures@)
    }
    &&& modes == trait_modes(m, ts)
}

#[verifier::loop_isolation(false)]
fn dep_trait_tables(deps: &Vec<ExternCrateRecord>, m: &ProductIdentityRemap) -> (r: (
    Vec<(ProductDefId, Vec<AssocTypeId>)>,
    Vec<(ProductDefId, usize)>,
    Vec<(ProductDefId, Vec<(String, ProductDefId)>)>,
    Vec<(ProductDefId, Vec<(String, ProductDefId)>)>,
    Vec<(ProductDefId, Option<ReceiverMode>)>,
))
    ensures
        trait_tables_hold(*m, dep_traits(*m, deps@), r.0@, r.1@, r.2@, r.3@, r.4@),
{
    let ghost sel = |r: ExternCrateRecord| record_traits(r);
    let ghost idf = |t: TraitInterface| trait_id_of(t);
    let mut traits: Vec<(ProductDefId, Vec<AssocTypeId>)> = Vec::new();
    let mut counts: Vec<(ProductDefId, usize)> = Vec::new();
    let mut methods: Vec<(ProductDefId, Vec<(String, ProductDefId)>)> = Vec::new();
    let mut sigs: Vec<(ProductDefId, Vec<(String, ProductDefId)>)> = Vec::new();
    let mut modes: Vec<(ProductDefId, Option<ReceiverMode>)> = Vec::new();
    let mut i: usize = 0;
    while i < deps.len()
        invariant
            i <= deps@.len(),
            trait_tables_hold(*m, flat_back(*m, deps@.take(i as int), sel, idf), traits@, counts@, methods@, sigs@, modes@),
        decreases deps@.len() - i,
    {
        let ts = &deps[i].interface.traits;
        let ghost base = flat_back(*m, deps@.take(i as int), sel, idf);
        let mut j: usize = 0;
        while j < ts.len()
            invariant
                j <= ts@.len(),
                ts@ == sel(deps@[i as int]),
                trait_tables_hold(*m, base + back_items(*m, ts@.take(j as int), idf), traits@, counts@, methods@, sigs@, modes@),
            decreases ts@.len() - j,
        {
            proof {
                lemma_items_step(*m, ts@, j as int, idf);
            }
            let t = &ts[j];
            let ghost cur = base + back_items(*m, ts@.take(j as int), idf);
            if let Some(p) = product_id_for_def(m, t.id) {
                let am = assoc_id_vec(t);
                let bm = back_method_vec(m, &t.methods);
                let bs = back_sig_vec(m, &t.signatures);
                let n = t.generic_params.len();
                let ghost (tr0, co0, me0, si0) = (traits@, counts@, methods@, sigs@);
                traits.push((p, am));
                counts.push((p, n));
                methods.push((p, bm));
                sigs.push((p, bs));
                assert(traits@ == tr0.push((p, am)) && counts@ == co0.push((p, n)));
                assert(methods@ == me0.push((p, bm)) && sigs@ == si0.push((p, bs)));
                push_method_modes(m, &t.methods, &mut modes);
                push_sig_modes(m, &t.signatures, &mut modes);
                proof {
                    let nxt = cur.push((p, *t));
                    assert(base + back_items(*m, ts@.take(j + 1), idf) =~= nxt);
                    assert(nxt.drop_last() =~= cur);
                    assert(trait_modes(*m, nxt) =~= trait_modes(*m, cur) + method_modes(*m, t.methods@) + sig_modes(*m, t.signatures@));
                    let kk = cur.len() as int;
                    assert(nxt[kk] == (p, *t));
                    assert(traits@[kk].1@ == assoc_ids(nxt[kk].1));
                    assert(counts@[kk] == (nxt[kk].0, nxt[kk].1.generic_params@.len() as usize));
                    assert(crate::tables::named_view(methods@[kk].1@) == back_methods(*m, nxt[kk].1.methods@));
                    assert forall|k: int| 0 <= k < nxt.len() implies {
                        &&& (#[trigger] traits@[k]).0 == nxt[k].0
                        &&& traits@[k].1@ == assoc_ids(nxt[k].1)
                        &&& counts@[k] == (nxt[k].0, nxt[k].1.generic_params@.len() as usize)
                        &&& methods@[k].0 == nxt[k].0
                        &&& crate::tables::named_view(methods@[k].1@) == back_methods(*m, nxt[k].1.methods@)
                        &&& sigs@[k].0 == nxt[k].0
                        &&& crate::tables::named_view(sigs@[k].1@) == back_sigs(*m, nxt[k].1.signatures@)
                    } by {
                        if k < cur.len() {
                            assert(nxt[k] == cur[k]);
                        }
                    }
                }
            }
            j = j + 1;
        }
        proof {
            assert(ts@.take(j as int) =~= ts@);
            lemma_flat_step(*m, deps@, i as int, sel, idf);
        }
        i = i + 1;
    }
    assert(deps@.take(i as int) =~= deps@);
    (traits, counts, methods, sigs, modes)
}


/// What the impl tables of the loaded impls `is` hold.
pub open spec fn impl_tables_hold(
    m: ProductIdentityRemap,
    is: Seq<(ProductDefId, ImplInterface)>,
    impls: Seq<ProductDefId>,
    traits: Seq<(ProductDefId, Option<ProductDefId>)>,
    args: Seq<(ProductDefId, Vec<Type>)>,
    methods: Seq<(ProductDefId, Vec<ProductDefId>)>,
    modes: Seq<(ProductDefId, Option<ReceiverMode>)>,
    statics: Seq<ProductDefId>,
) -> bool {
    &&& impls == is.map_values(|e: (ProductDefId, ImplInterface)| e.0)
    &&& traits.len() == is.len()
    &&& args.len() == is.len()
    &&& methods.len() == is.len()
    &&& forall|i: int| 0 <= i < is.len() ==> {
        &&& (#[trigger] traits[i]).0 == is[i].0
        &&& traits[i].1 == match is[i].1.trait_id { Some(d) => back_id(m, d), None => None }
        &&& args[i].0 == is[i].0
        &&& args[i].1@.len() == is[i].1.trait_arg_types@.len()
        &&& forall|j: int| 0 <= j < is[i].1.trait_arg_types@.len() ==> type_back(m, #[trigger] is[i].1.trait_arg_types@[j], args[i].1@[j])
        &&& methods[i].0 == is[i].0
        &&& methods[i].1@ == method_modes(m, is[i].1.methods@).map_values(|e: (ProductDefId, Option<ReceiverMode>)| e.0)
    }
    &&& modes == impl_modes(m, is)
    &&& statics == impl_statics(m, is)
}

#[verifier::loop_isolation(false)]
fn dep_impl_tables(deps: &Vec<ExternCrateRecord>, m: &ProductIdentityRemap) -> (r: (
    Vec<ProductDefId>,
    Vec<(ProductDefId, Option<ProductDefId>)>,
    Vec<(ProductDefId, Vec<Type>)>,
    Vec<(ProductDefId, Vec<ProductDefId>)>,
    Vec<(ProductDefId, Option<ReceiverMode>)>,
    Vec<ProductDefId>,
))
    ensures
        impl_tables_hold(*m, dep_impls(*m, deps@), r.0@, r.1@, r.2@, r.3@, r.4@, r.5@),
{
    let ghost sel = |r: ExternCrateRecord| record_impls(r);
    let ghost idf = |i: ImplInterface| impl_id_of(i);
    let mut impls: Vec<ProductDefId> = Vec::new();
    let mut traits: Vec<(ProductDefId, Option<ProductDefId>)> = Vec::new();
    let mut args: Vec<(ProductDefId, Vec<Type>)> = Vec::new();
    let mut methods: Vec<(ProductDefId, Vec<ProductDefId>)> = Vec::new();
    let mut modes: Vec<(ProductDefId, Option<ReceiverMode>)> = Vec::new();
    let mut statics: Vec<ProductDefId> = Vec::new();
    let mut i: usize = 0;
    assert(flat_back(*m, deps@.take(0), sel, idf) =~= Seq::<(ProductDefId, ImplInterface)>::empty());
    assert(impls@ =~= Seq::<(ProductDefId, ImplInterface)>::empty().map_values(|e: (ProductDefId, ImplInterface)| e.0));
    while i < deps.len()
        invariant
            i <= deps@.len(),
            impl_tables_hold(*m, flat_back(*m, deps@.take(i as int), sel, idf), impls@, traits@, args@, methods@, modes@, statics@),
        decreases deps@.len() - i,
    {
        let is = &deps[i].interface.impls;
        let ghost base = flat_back(*m, deps@.take(i as int), sel, idf);
        let mut j: usize = 0;
        while j < is.len()
            invariant
                j <= is@.len(),
                is@ == sel(deps@[i as int]),
                impl_tables_hold(*m, base + back_items(*m, is@.take(j as int), idf), impls@, traits@, args@, methods@, modes@, statics@),
            decreases is@.len() - j,
        {
            proof {
                lemma_items_step(*m, is@, j as int, idf);
            }
            let imp = &is[j];
            let ghost cur = base + back_items(*m, is@.take(j as int), idf);
            if let Some(p) = product_id_for_def(m, imp.id) {
                let tr = match imp.trait_id {
                    Some(d) => product_id_for_def(m, d),
                    None => None,
                };
                let ta = back_types(&imp.trait_arg_types, m);
                let mut own: Vec<(ProductDefId, Option<ReceiverMode>)> = Vec::new();
                push_method_modes(m, &imp.methods, &mut own);
                assert(own@ =~= method_modes(*m, imp.methods@));
                let mids = mode_ids(&own);
                let ghost (im0, tr0, ar0, me0, mo0, st0) = (impls@, traits@, args@, methods@, modes@, statics@);
                impls.push(p);
                traits.push((p, tr));
                args.push((p, ta));
                methods.push((p, mids));
                push_method_modes(m, &imp.methods, &mut modes);
                push_static_ids(m, &imp.methods, &mut statics);
                assert(traits@ == tr0.push((p, tr)) && args@ == ar0.push((p, ta)) && methods@ == me0.push((p, mids)));
                proof {
                    let nxt = cur.push((p, *imp));
                    assert(base + back_items(*m, is@.take(j + 1), idf) =~= nxt);
                    assert(nxt.drop_last() =~= cur);
                    assert(impl_modes(*m, nxt) =~= impl_modes(*m, cur) + method_modes(*m, imp.methods@));
                    assert(impl_statics(*m, nxt) =~= impl_statics(*m, cur) + static_ids(*m, imp.methods@));
                    assert(impls@ =~= nxt.map_values(|e: (ProductDefId, ImplInterface)| e.0));
                    let kk = cur.len() as int;
                    assert(nxt[kk] == (p, *imp));
                    assert forall|k: int| 0 <= k < nxt.len() implies {
                        &&& (#[trigger] traits@[k]).0 == nxt[k].0
                        &&& traits@[k].1 == match nxt[k].1.trait_id { Some(d) => back_id(*m, d), None => None }
                        &&& args@[k].0 == nxt[k].0
                        &&& args@[k].1@.len() == nxt[k].1.trait_arg_types@.len()
                        &&& forall|jj: int| 0 <= jj < nxt[k].1.trait_arg_types@.len() ==> type_back(*m, #[trigger] nxt[k].1.trait_arg_types@[jj], args@[k].1@[jj])
                        &&& methods@[k].0 == nxt[k].0
                        &&& methods@[k].1@ == method_modes(*m, nxt[k].1.methods@).map_values(|e: (ProductDefId, Option<ReceiverMode>)| e.0)
                    } by {
                        if k < cur.len() {
                            assert(nxt[k] == cur[k]);
                        }
                    }
                }
            }
            j = j + 1;
        }
        proof {
            assert(is@.take(j as int) =~= is@);
            lemma_flat_step(*m, deps@, i as int, sel, idf);
        }
        i = i + 1;
    }
    assert(deps@.take(i as int) =~= deps@);
    (impls, traits, args, methods, modes, statics)
}

#[verifier::loop_isolation(false)]
fn dep_effective_vec(deps: &Vec<ExternCrateRecord>, m: &ProductIdentityRemap) -> (r: Vec<((ProductDefId, ProductDefId), ProductDefId)>)
    ensures
        r@ == dep_effective(*m, deps@),
{
    let mut out: Vec<((ProductDefId, ProductDefId), ProductDefId)> = Vec::new();
    let mut i: usize = 0;
    while i < deps.len()
        invariant
            i <= deps@.len(),
            out@ == dep_effective(*m, deps@.take(i as int)),
        decreases deps@.len() - i,
    {
        let s = &deps[i].interface.effective_trait_methods;
        let ghost base = out@;
        let mut j: usize = 0;
        while j < s.len()
            invariant
                j <= s@.len(),
                s@ == record_effective(deps@[i as int]),
                out@ == base + back_effective(*m, s@.take(j as int)),
            decreases s@.len() - j,
        {
            assert(s@.take(j + 1).drop_last() =~= s@.take(j as int));
            let e = s[j];
            let a = product_id_for_def(m, e.0.0);
            let b = product_id_for_def(m, e.0.1);
            let c = product_id_for_def(m, e.1);
            match (a, b, c) {
                (Some(a), Some(b), Some(c)) => {
                    out.push(((a, b), c));
                },
                _ => {},
            }
            j = j + 1;
            assert(out@ =~= base + back_effective(*m, s@.take(j as int)));
        }
        proof {
            assert(s@.take(j as int) =~= s@);
            assert(deps@.take(i + 1).drop_last() =~= deps@.take(i as int));
        }
        i = i + 1;
    }
    assert(deps@.take(i as int) =~= deps@);
    out
}

impl DefinitionTables {
    /// The definitions that the loaded crates of `ctx` declare, in the
    /// numbering of the artifact that `remap` belongs to; definitions of
    /// crates the artifact does not depend on are left out.
    pub fn from_context(ctx: &CrateContext, remap: &ProductIdentityRemap) -> (r: DefinitionTables)
        ensures
            dependency_tables_of(*remap, ctx.extern_crates@, r),
    {
        let deps = &ctx.extern_crates;
        let mut t = DefinitionTables::new();
        t.structs = dep_id_vec(0, deps, remap);
        t.enums = dep_id_vec(1, deps, remap);
        t.type_aliases = dep_id_vec(2, deps, remap);
        t.functions = dep_id_vec(3, deps, remap);
        t.externs = dep_id_vec(4, deps, remap);
        let (traits, counts, tmethods, tsigs, mut modes) = dep_trait_tables(deps, remap);
        let (impls, itraits, iargs, imethods, mut imodes, statics) = dep_impl_tables(deps, remap);
        t.traits = traits;
        t.trait_generic_counts = counts;
        t.trait_methods = tmethods;
        t.trait_signatures = tsigs;
        t.impls = impls;
        t.impl_traits = itraits;
        t.impl_trait_args = iargs;
        t.impl_methods = imethods;
        t.effective_trait_methods = dep_effective_vec(deps, remap);
        modes.append(&mut imodes);
        t.methods = mode_ids(&modes);
        t.method_receiver_modes = modes;
        t.static_methods = statics;
        t
    }
}


pub open spec fn struct_id_of(x: StructInterface) -> DefId {
    x.id
}

pub open spec fn enum_id_of(x: EnumInterface) -> DefId {
    x.id
}

/// The loaded structs of one crate whose identities read back.
pub open spec fn rec_structs(m: ProductIdentityRemap, r: ExternCrateRecord) -> Seq<(ProductDefId, StructInterface)> {
    back_items(m, r.interface.structs@, |x: StructInterface| struct_id_of(x))
}

/// The loaded enums of one crate whose identities read back.
pub open spec fn rec_enums(m: ProductIdentityRemap, r: ExternCrateRecord) -> Seq<(ProductDefId, EnumInterface)> {
    back_items(m, r.interface.enums@, |x: EnumInterface| enum_id_of(x))
}

/// The field names that the loaded crates declare, crate by crate.
pub open spec fn dep_fields(m: ProductIdentityRemap, deps: Seq<ExternCrateRecord>) -> Seq<((ProductDefId, FieldId), Seq<char>)>
    decreases deps.len(),
{
    if deps.len() == 0 {
        Seq::empty()
    } else {
        dep_fields(m, deps.drop_last()) + struct_fields(rec_structs(m, deps.last())) + enum_fields(rec_enums(m, deps.last()))
    }
}

/// The variant names that the loaded crates declare, crate by crate.
pub open spec fn dep_variants(m: ProductIdentityRemap, deps: Seq<ExternCrateRecord>) -> Seq<((ProductDefId, VariantId), Seq<char>)>
    decreases deps.len(),
{
    if deps.len() == 0 {
        Seq::empty()
    } else {
        dep_variants(m, deps.drop_last()) + variant_names(rec_enums(m, deps.last()))
    }
}

impl ProductChildLocationValidator {
    /// The validator of the fields and variants of an artifact's own
    /// interface and of the loaded crates it depends on; a later entry for
    /// the same location replaces an earlier one.
    #[verifier::loop_isolation(false)]
    pub fn from_products_with_context(products: &CompilerProducts, remap: &ProductIdentityRemap, ctx: &CrateContext) -> (r: ProductChildLocationValidator)
        ensures
            names_view(r.fields_by_id@) == field_entries(products.interface) + dep_fields(*remap, ctx.extern_crates@),
            names_view(r.variants_by_id@) == variant_names(products.interface.enums@) + dep_variants(*remap, ctx.extern_crates@),
    {
        let v = ProductChildLocationValidator::from_products(products);
        let mut fields = v.fields_by_id;
        let mut variants = v.variants_by_id;
        let ghost lf = field_entries(products.interface);
        let ghost lv = variant_names(products.interface.enums@);
        let deps = &ctx.extern_crates;
        let mut i: usize = 0;
        assert(names_view(fields@) =~= lf + dep_fields(*remap, deps@.take(0)));
        assert(names_view(variants@) =~= lv + dep_variants(*remap, deps@.take(0)));
        while i < deps.len()
            invariant
                i <= deps@.len(),
                names_view(fields@) == lf + dep_fields(*remap, deps@.take(i as int)),
                names_view(variants@) == lv + dep_variants(*remap, deps@.take(i as int)),
            decreases deps@.len() - i,
        {
            let f = &deps[i].interface;
            let ghost f0 = names_view(fields@);
            let ghost v0 = names_view(variants@);
            let ghost sidf = |x: StructInterface| struct_id_of(x);
            let ghost eidf = |x: EnumInterface| enum_id_of(x);
            let mut j: usize = 0;
            assert(struct_fields(back_items(*remap, f.structs@.take(0), sidf)) =~= Seq::<((ProductDefId, FieldId), Seq<char>)>::empty());
            while j < f.structs.len()
                invariant
                    j <= f.structs@.len(),
                    names_view(fields@) == f0 + struct_fields(back_items(*remap, f.structs@.take(j as int), sidf)),
                    names_view(variants@) == v0,
                decreases f.structs@.len() - j,
            {
                proof {
                    lemma_items_step(*remap, f.structs@, j as int, sidf);
                }
                let st = &f.structs[j];
                if let Some(p) = product_id_for_def(remap, st.id) {
                    let ghost before = back_items(*remap, f.structs@.take(j as int), sidf);
                    push_struct_fields(p, st, &mut fields);
                    assert(before.push((p, *st)).drop_last() =~= before);
                }
                j = j + 1;
            }
            assert(f.structs@.take(j as int) =~= f.structs@);
            let ghost f1 = names_view(fields@);
            let mut j: usize = 0;
            assert(enum_fields(back_items(*remap, f.enums@.take(0), eidf)) =~= Seq::<((ProductDefId, FieldId), Seq<char>)>::empty());
            assert(variant_names(back_items(*remap, f.enums@.take(0), eidf)) =~= Seq::<((ProductDefId, VariantId), Seq<char>)>::empty());
            while j < f.enums.len()
                invariant
                    j <= f.enums@.len(),
                    names_view(fields@) == f1 + enum_fields(back_items(*remap, f.enums@.take(j as int), eidf)),
                    names_view(variants@) == v0 + variant_names(back_items(*remap, f.enums@.take(j as int), eidf)),
                decreases f.enums@.len() - j,
            {
                proof {
                    lemma_items_step(*remap, f.enums@, j as int, eidf);
                }
                let en = &f.enums[j];
                if let Some(p) = product_id_for_def(remap, en.id) {
                    let ghost before = back_items(*remap, f.enums@.take(j as int), eidf);
                    push_enum_names(p, en, &mut fields, &mut variants);
                    assert(before.push((p, *en)).drop_last() =~= before);
                }
                j = j + 1;
            }
            assert(f.enums@.take(j as int) =~= f.enums@);
            proof {
                assert(deps@.take(i + 1).drop_last() =~= deps@.take(i as int));
                assert(deps@.take(i + 1).last() == deps@[i as int]);
            }
            i = i + 1;
        }
        assert(deps@.take(i as int) =~= deps@);
        ProductChildLocationValidator { fields_by_id: fields, variants_by_id: variants }
    }
}

impl ProductNominalTypeValidator {
    /// The validator of an artifact whose dependencies are the crates loaded
    /// into `ctx`.
    pub fn from_products_with_context(products: &CompilerProducts, remap: &ProductIdentityRemap, ctx: &CrateContext) -> (r: ProductNominalTypeValidator)
        ensures
            r.local_crate == remap.local_crate,
            crate::tables::tables_of(products.interface, r.local),
            dependency_tables_of(*remap, ctx.extern_crates@, r.dependency),
    {
        ProductNominalTypeValidator::from_products_with_dependencies(products, remap, DefinitionTables::from_context(ctx, remap))
    }
}


/// A definition of a dependency crate, mapped into the session, reads
/// back as the same product identity when no other dependency crate of the
/// artifact shares its session crate.
pub proof fn lemma_back_id_of_mapped(m: ProductIdentityRemap, p: ProductDefId)
    requires
        p.crate_id != m.local_crate,
        m.spec_crate(p.crate_id) is Some,
        forall|q: ProductCrateId| valid_back(m, m.spec_crate(p.crate_id).unwrap(), q) ==> q == p.crate_id,
    ensures
        back_id(m, m.spec_def_id(p).unwrap()) == Some(p),
{
    let c = m.spec_crate(p.crate_id).unwrap();
    assert(valid_back(m, c, p.crate_id));
    let pc = choose|pc: ProductCrateId| valid_back(m, c, pc) && forall|q: ProductCrateId| valid_back(m, c, q) ==> q.0 <= pc.0;
    assert(valid_back(m, c, p.crate_id) && forall|q: ProductCrateId| valid_back(m, c, q) ==> q.0 <= p.crate_id.0);
    assert(pc == p.crate_id);
}

/// `d`, in the artifact's product numbering, is a definition of a
/// dependency crate whose session crate no other dependency crate of the
/// artifact shares.
pub open spec fn clean_dep(m: ProductIdentityRemap, d: DefId) -> bool {
    let p = crate::ids::spec_product_of(d);
    &&& p.crate_id != m.local_crate
    &&& m.spec_crate(p.crate_id) is Some
    &&& forall|q: ProductCrateId| valid_back(m, m.spec_crate(p.crate_id).unwrap(), q) ==> q == p.crate_id
}

/// The outermost node of `t` names a definition that is not a clean
/// dependency definition.
pub open spec fn unclean_node(m: ProductIdentityRemap, t: Type) -> bool {
    match t {
        Type::Generic(g) => !clean_dep(m, g.owner),
        Type::Struct { id, .. } => !clean_dep(m, id),
        Type::Enum { id, .. } => !clean_dep(m, id),
        Type::Constructor { id, .. } => !clean_dep(m, id),
        Type::Projection { trait_id, assoc_type, .. } => !clean_dep(m, trait_id) || !clean_dep(m, assoc_type.owner),
        _ => false,
    }
}

/// Reading back a mapped dependency definition gives the definition.
proof fn lemma_back_def_of_mapped(m: ProductIdentityRemap, d: DefId)
    requires
        clean_dep(m, d),
    ensures
        back_def(m, crate::typemap::mapped(m, d)) == d,
{
    lemma_back_id_of_mapped(m, crate::ids::spec_product_of(d));
    crate::ids::lemma_def_product_round_trip(d);
}

/// Reading a type back into the artifact's numbering undoes mapping it into
/// the session, for a type whose definitions all belong to dependency
/// crates that share their session crate with no other dependency crate.
pub proof fn lemma_type_back_undoes_map(m: ProductIdentityRemap, t: Type, u: Type)
    requires
        crate::typemap::type_map(m, t, u),
        !crate::types::type_any(t, |x: Type| unclean_node(m, x)),
    ensures
        type_back(m, u, t),
    decreases t,
{
    let p = |x: Type| unclean_node(m, x);
    match t {
        Type::Generic(g) => {
            lemma_back_def_of_mapped(m, g.owner);
        },
        Type::Slice(x) => {
            let y = u->Slice_0;
            lemma_type_back_undoes_map(m, *x, *y);
        },
        Type::Pointer(x) => {
            let y = u->Pointer_0;
            lemma_type_back_undoes_map(m, *x, *y);
        },
        Type::Array(x, _) => {
            let y = u->Array_0;
            lemma_type_back_undoes_map(m, *x, *y);
        },
        Type::Reference { inner, .. } => {
            let y = u->inner;
            lemma_type_back_undoes_map(m, *inner, *y);
        },
        Type::Tuple(xs) => {
            let ys = u->Tuple_0;
            assert forall|i: int| 0 <= i < ys@.len() implies type_back(m, #[trigger] ys@[i], xs@[i]) by {
                assert(decreases_to!(t => xs@[i]));
                assert(!crate::types::type_any(xs@[i], p));
                lemma_type_back_undoes_map(m, xs@[i], ys@[i]);
            }
        },
        Type::Function { params, ret, captures, .. } => {
            let p2 = u->params;
            let r2 = u->ret;
            let c2 = u->captures;
            assert forall|i: int| 0 <= i < p2@.len() implies type_back(m, #[trigger] p2@[i], params@[i]) by {
                assert(decreases_to!(t => params@[i]));
                assert(!crate::types::type_any(params@[i], p));
                lemma_type_back_undoes_map(m, params@[i], p2@[i]);
            }
            lemma_type_back_undoes_map(m, *ret, *r2);
            assert forall|i: int| 0 <= i < c2@.len() implies (#[trigger] c2@[i]).kind == captures@[i].kind
                && type_back(m, c2@[i].ty, captures@[i].ty) by {
                assert(decreases_to!(t => captures@[i].ty));
                assert(!crate::types::type_any(captures@[i].ty, p));
                lemma_type_back_undoes_map(m, captures@[i].ty, c2@[i].ty);
            }
        },
        Type::Struct { id, args } => {
            lemma_back_def_of_mapped(m, id);
            let a2 = u->Struct_args;
            assert forall|i: int| 0 <= i < a2@.len() implies type_back(m, #[trigger] a2@[i], args@[i]) by {
                assert(decreases_to!(t => args@[i]));
                assert(!crate::types::type_any(args@[i], p));
                lemma_type_back_undoes_map(m, args@[i], a2@[i]);
            }
        },
        Type::Enum { id, args } => {
            lemma_back_def_of_mapped(m, id);
            let a2 = u->Enum_args;
            assert forall|i: int| 0 <= i < a2@.len() implies type_back(m, #[trigger] a2@[i], args@[i]) by {
                assert(decreases_to!(t => args@[i]));
                assert(!crate::types::type_any(args@[i], p));
                lemma_type_back_undoes_map(m, args@[i], a2@[i]);
            }
        },
        Type::Constructor { id, .. } => {
            lemma_back_def_of_mapped(m, id);
        },
        Type::Projection { ty, trait_id, assoc_type, trait_args } => {
            lemma_back_def_of_mapped(m, trait_id);
            lemma_back_def_of_mapped(m, assoc_type.owner);
            let t2 = u->Projection_ty;
            let a2 = u->Projection_trait_args;
            lemma_type_back_undoes_map(m, *ty, *t2);
            assert forall|i: int| 0 <= i < a2@.len() implies type_back(m, #[trigger] a2@[i], trait_args@[i]) by {
                assert(decreases_to!(t => trait_args@[i]));
                assert(!crate::types::type_any(trait_args@[i], p));
                lemma_type_back_undoes_map(m, trait_args@[i], a2@[i]);
            }
        },
        _ => {},
    }
}

} // verus!
