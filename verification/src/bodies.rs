use vstd::prelude::*;

use crate::bodymap::{remapped_decls, remapped_function, remapped_generic_bounds, remapped_predicates};
use crate::bodyspec::{bounds_map, bounds_ok, decls_map, decls_ok, function_ok, function_parts_map, idok, predicate_map, predicate_ok, tok, tsok};
use crate::child::ProductChildLocationValidator;
use crate::collections::{lookup, IdMap};
use crate::hir::{AssociatedTypeImpl, Function, Impl, ImplOwner};
use crate::ids::{spec_product_of, ProductDefId};
use crate::interface::{
    assoc_impls_map, assoc_impls_ok, copy_owner, pattern_map, remapped_assoc_impls, remapped_receiver_pattern,
    remapped_sigs, remapped_type_list, sigs_map, sigs_ok, target_map, target_ok, remapped_target_decl,
};
use crate::products::{copy_assoc_decls, AssociatedTypeDecl, FunctionSig, TraitInterface};
use crate::remap::ProductIdentityRemap;
use crate::text::{has_prefix, push_decimal, push_str, starts_with, text, decimal};
use crate::typemap::{map_id, mapped, types_map};
use crate::types::{GenericParamDecl, Predicate};
use crate::validator::ProductNominalTypeValidator;

verus! {

/// A trait with the bodies of its default methods.
#[derive(Debug)]
pub struct Trait {
    pub id: crate::ids::DefId,
    pub name: String,
    pub generic_params: Vec<GenericParamDecl>,
    pub target: Option<GenericParamDecl>,
    pub predicates: Vec<Predicate>,
    pub associated_types: Vec<AssociatedTypeDecl>,
    pub methods: Vec<(String, Function)>,
    pub signatures: Vec<(String, FunctionSig)>,
}

// ----- names -----

/// `name` qualified by `crate_name`, unless it already starts with
/// `crate_name::`.
pub open spec fn qualified_name(crate_name: Seq<char>, name: Seq<char>) -> Seq<char> {
    if has_prefix(name, crate_name + "::"@) {
        name
    } else {
        crate_name + "::"@ + name
    }
}

/// Qualifying a name twice is qualifying it once.
pub proof fn lemma_qualified_name_idempotent(crate_name: Seq<char>, name: Seq<char>)
    ensures
        qualified_name(crate_name, qualified_name(crate_name, name)) == qualified_name(crate_name, name),
{
    let p = crate_name + "::"@;
    if !has_prefix(name, p) {
        let q = p + name;
        assert(q.subrange(0, p.len() as int) =~= p);
    }
}

/// Qualifying a name with a crate gives a name that starts with the
/// crate's path.
pub proof fn lemma_qualified_name_has_crate_prefix(crate_name: Seq<char>, name: Seq<char>)
    ensures
        has_prefix(qualified_name(crate_name, name), crate_name + "::"@),
{
    let p = crate_name + "::"@;
    if !has_prefix(name, p) {
        assert((p + name).subrange(0, p.len() as int) =~= p);
    }
}

/// Qualifies a display name with the crate it belongs to.
pub fn qualify_product_name(crate_name: &str, name: &str) -> (r: String)
    ensures
        r@ == qualified_name(crate_name@, name@),
{
    let mut prefix = text(crate_name);
    push_str(&mut prefix, "::");
    proof {
        reveal_strlit("::");
    }
    if starts_with(name, prefix.as_str()) {
        text(name)
    } else {
        push_str(&mut prefix, name);
        prefix
    }
}

// ----- function bodies -----

/// A function body under session identities: its identity is that of
/// `id`, its generics, signature and body checked and remapped.
pub fn remap_function_id(
    function: &Function,
    id: ProductDefId,
    remap: &ProductIdentityRemap,
    validator: &ProductChildLocationValidator,
    type_validator: &ProductNominalTypeValidator,
) -> (r: Result<Function, String>)
    ensures
        r is Ok <==> remap.spec_def_id(id) is Some && function_ok(*remap, *validator, *type_validator, *function),
        r matches Ok(f2) ==> remap.spec_def_id(id) == Some(f2.id) && function_parts_map(*remap, *function, f2),
        remap.spec_def_id(id) is None ==> (r matches Err(e) && e@ == crate::remap::msg_unmapped(id)),
        r matches Err(e) ==> (remap.spec_def_id(id) is Some ==> crate::bodymap::function_err(*remap, *validator, *type_validator, *function, e@)),
{
    let new_id = remap.def_id(id)?;
    remapped_function(function, new_id, remap, validator, type_validator)
}

// ----- traits with default bodies -----

/// The message for a default method without a body.
pub open spec fn msg_missing_default(trait_id: ProductDefId, name: Seq<char>) -> Seq<char> {
    "Product artifact trait "@ + decimal(trait_id.local_id.0 as nat) + " default method '"@ + name + "' has no serialized body"@
}

/// Every provided method of `t` has a body among `bodies`.
pub open spec fn default_bodies_present(t: TraitInterface, bodies: Seq<(ProductDefId, Function)>) -> bool {
    forall|k: int| 0 <= k < t.methods@.len() ==> lookup(bodies, spec_product_of((#[trigger] t.methods@[k]).1.id)) is Some
}

/// The body stored for a provided method.
pub open spec fn default_body(bodies: Seq<(ProductDefId, Function)>, method: crate::products::FunctionInterface) -> Function {
    lookup(bodies, spec_product_of(method.id)).unwrap()
}

/// Checks that each provided method of a trait has a serialized body,
/// reporting the first that has none.
pub fn check_trait_default_bodies(trait_id: ProductDefId, trait_def: &TraitInterface, bodies: &IdMap<Function>) -> (r: Result<(), String>)
    ensures
        r is Ok <==> default_bodies_present(*trait_def, bodies@),
        r matches Err(e) ==> exists|k: int| 0 <= k < trait_def.methods@.len()
            && lookup(bodies@, spec_product_of((#[trigger] trait_def.methods@[k]).1.id)) is None
            && e@ == msg_missing_default(trait_id, trait_def.methods@[k].0@),
{
    let mut k: usize = 0;
    while k < trait_def.methods.len()
        invariant
            k <= trait_def.methods@.len(),
            forall|j: int| 0 <= j < k ==> lookup(bodies@, spec_product_of((#[trigger] trait_def.methods@[j]).1.id)) is Some,
        decreases trait_def.methods@.len() - k,
    {
        let e = &trait_def.methods[k];
        if bodies.get(ProductDefId::from_def_id(e.1.id)).is_none() {
            let mut msg = text("Product artifact trait ");
            push_decimal(&mut msg, trait_id.local_id.0 as u64);
            push_str(&mut msg, " default method '");
            push_str(&mut msg, e.0.as_str());
            push_str(&mut msg, "' has no serialized body");
            return Err(msg);
        }
        k = k + 1;
    }
    Ok(())
}

/// A trait with default bodies remaps under the product identity `id`.
pub open spec fn trait_bodies_ok(
    m: ProductIdentityRemap,
    c: ProductChildLocationValidator,
    v: ProductNominalTypeValidator,
    id: ProductDefId,
    t: TraitInterface,
    bodies: Seq<(ProductDefId, Function)>,
) -> bool {
    &&& m.spec_def_id(id) is Some
    &&& decls_ok(m, t.generic_params@)
    &&& target_ok(m, t.target)
    &&& forall|k: int| 0 <= k < t.predicates@.len() ==> predicate_ok(m, v, #[trigger] t.predicates@[k])
    &&& sigs_ok(m, v, t.signatures@)
    &&& forall|k: int| 0 <= k < t.methods@.len() ==> idok(m, (#[trigger] t.methods@[k]).1.id)
        && function_ok(m, c, v, default_body(bodies, t.methods@[k].1))
}

/// `t2` is the trait `t`, identified as `id`, with its declarations
/// remapped and each provided method replaced by its remapped body.
pub open spec fn trait_bodies_map(m: ProductIdentityRemap, id: ProductDefId, t: TraitInterface, bodies: Seq<(ProductDefId, Function)>, t2: Trait) -> bool {
    &&& m.spec_def_id(id) == Some(t2.id)
    &&& t2.name@ == t.name@
    &&& decls_map(m, t.generic_params@, t2.generic_params@)
    &&& target_map(m, t.target, t2.target)
    &&& t.predicates@.len() == t2.predicates@.len()
    &&& forall|k: int| 0 <= k < t.predicates@.len() ==> predicate_map(m, #[trigger] t.predicates@[k], t2.predicates@[k])
    &&& t2.associated_types@.len() == t.associated_types@.len()
    &&& forall|k: int| 0 <= k < t.associated_types@.len() ==> (#[trigger] t2.associated_types@[k]).id == t.associated_types@[k].id
    &&& sigs_map(m, t.signatures@, t2.signatures@)
    &&& t.methods@.len() == t2.methods@.len()
    &&& forall|k: int| 0 <= k < t.methods@.len() ==> {
        &&& (#[trigger] t2.methods@[k]).0@ == t.methods@[k].0@
        &&& t2.methods@[k].1.id == mapped(m, t.methods@[k].1.id)
        &&& function_parts_map(m, default_body(bodies, t.methods@[k].1), t2.methods@[k].1)
    }
}

/// A trait with its default bodies under session identities; each provided
/// method must have a body.
pub fn remap_trait_ids(
    trait_def: &TraitInterface,
    id: ProductDefId,
    bodies: &IdMap<Function>,
    remap: &ProductIdentityRemap,
    validator: &ProductChildLocationValidator,
    type_validator: &ProductNominalTypeValidator,
) -> (r: Result<Trait, String>)
    requires
        default_bodies_present(*trait_def, bodies@),
    ensures
        r is Ok <==> trait_bodies_ok(*remap, *validator, *type_validator, id, *trait_def, bodies@),
        r matches Ok(t2) ==> trait_bodies_map(*remap, id, *trait_def, bodies@, t2),
        remap.spec_def_id(id) is None ==> (r matches Err(e) && e@ == crate::remap::msg_unmapped(id)),
{
    let new_id = remap.def_id(id)?;
    let generic_params = remapped_decls(&trait_def.generic_params, remap)?;
    let target = remapped_target_decl(&trait_def.target, remap)?;
    let predicates = remapped_predicates(&trait_def.predicates, remap, type_validator)?;
    let signatures = remapped_sigs(&trait_def.signatures, remap, type_validator)?;
    let mut methods: Vec<(String, Function)> = Vec::new();
    let mut k: usize = 0;
    while k < trait_def.methods.len()
        invariant
            k <= trait_def.methods@.len(),
            methods@.len() == k,
            remap.spec_def_id(id) is Some,
            default_bodies_present(*trait_def, bodies@),
            forall|j: int| 0 <= j < k ==> idok(*remap, (#[trigger] trait_def.methods@[j]).1.id)
                && function_ok(*remap, *validator, *type_validator, default_body(bodies@, trait_def.methods@[j].1)),
            forall|j: int| 0 <= j < k ==> {
                &&& (#[trigger] methods@[j]).0@ == trait_def.methods@[j].0@
                &&& methods@[j].1.id == mapped(*remap, trait_def.methods@[j].1.id)
                &&& function_parts_map(*remap, default_body(bodies@, trait_def.methods@[j].1), methods@[j].1)
            },
        decreases trait_def.methods@.len() - k,
    {
        let e = &trait_def.methods[k];
        assert(lookup(bodies@, spec_product_of(trait_def.methods@[k as int].1.id)) is Some);
        let method_id = map_id(remap, e.1.id)?;
        let f2 = match bodies.get(ProductDefId::from_def_id(e.1.id)) {
            Some(body) => remapped_function(body, method_id, remap, validator, type_validator)?,
            None => return Err(text("Product artifact trait default method has no serialized body")),
        };
        methods.push((e.0.clone(), f2));
        k = k + 1;
    }
    Ok(Trait {
        id: new_id,
        name: trait_def.name.clone(),
        generic_params,
        target,
        predicates,
        associated_types: copy_assoc_decls(&trait_def.associated_types),
        methods,
        signatures,
    })
}

// ----- generic impl bodies -----

/// An impl body remaps under the product identity `id`.
pub open spec fn impl_body_ok(m: ProductIdentityRemap, c: ProductChildLocationValidator, v: ProductNominalTypeValidator, id: ProductDefId, i: Impl) -> bool {
    &&& m.spec_def_id(id) is Some
    &&& decls_ok(m, i.type_generics@)
    &&& decls_ok(m, i.trait_generics@)
    &&& (i.trait_id matches Some(t) ==> idok(m, t))
    &&& tok(m, v, i.receiver_pattern.pattern_type())
    &&& tsok(m, v, i.trait_arg_types@)
    &&& assoc_impls_ok(m, v, i.associated_types@)
    &&& bounds_ok(m, v, i.bounds)
    &&& forall|k: int| 0 <= k < i.methods@.len() ==> idok(m, (#[trigger] i.methods@[k]).1.id)
        && function_ok(m, c, v, i.methods@[k].1)
}

/// What remapping the parts of the impl body `i`, identified as `id`,
/// before its methods reports: its identity, its type and trait generic
/// parameters, its trait, its receiver type, its trait arguments, its
/// associated types, then its bounds.
pub open spec fn impl_head_outcome(m: ProductIdentityRemap, v: ProductNominalTypeValidator, id: ProductDefId, i: Impl) -> Result<(), Seq<char>> {
    crate::validator::and_then(crate::interface::key_outcome(m, id), crate::validator::and_then(
        crate::text::first_error(i.type_generics@, crate::bodymap::decl_checks(m)), crate::validator::and_then(
        crate::text::first_error(i.trait_generics@, crate::bodymap::decl_checks(m)), crate::validator::and_then(
        match i.trait_id { None => Ok(()), Some(t) => crate::typemap::id_outcome(m, t) }, crate::validator::and_then(
        crate::typemap::type_outcome(m, v, i.receiver_pattern.pattern_type()), crate::validator::and_then(
        crate::typemap::list_outcome(m, v, i.trait_arg_types@), crate::validator::and_then(
        crate::text::first_error(i.associated_types@, crate::interface::assoc_checks(m, v)),
        crate::bodymap::bounds_outcome(m, v, i.bounds))))))))
}

/// `msg` may be what remapping the method body `f` of an impl reports: its
/// identity, then the error of the function.
pub open spec fn method_body_err(m: ProductIdentityRemap, c: ProductChildLocationValidator, v: ProductNominalTypeValidator, f: Function, msg: Seq<char>) -> bool {
    if crate::typemap::id_outcome(m, f.id) is Err {
        crate::typemap::id_outcome(m, f.id) == Err::<(), Seq<char>>(msg)
    } else {
        crate::bodymap::function_err(m, c, v, f, msg)
    }
}

/// `msg` may be what remapping the impl body `i`, identified as `id`,
/// reports: the error of its parts before the methods, then of its first
/// failing method.
pub open spec fn impl_body_err(m: ProductIdentityRemap, c: ProductChildLocationValidator, v: ProductNominalTypeValidator, id: ProductDefId, i: Impl, msg: Seq<char>) -> bool {
    if impl_head_outcome(m, v, id, i) is Err {
        impl_head_outcome(m, v, id, i) == Err::<(), Seq<char>>(msg)
    } else {
        exists|k: int| 0 <= k < i.methods@.len() && !(idok(m, i.methods@[k].1.id) && function_ok(m, c, v, i.methods@[k].1))
            && (forall|j: int| 0 <= j < k ==> idok(m, (#[trigger] i.methods@[j]).1.id) && function_ok(m, c, v, i.methods@[j].1))
            && #[trigger] method_body_err(m, c, v, i.methods@[k].1, msg)
    }
}

/// `i2` is the impl body `i` of crate `crate_name`, identified as `id`,
/// remapped; a named owner is qualified by the crate.
pub open spec fn impl_body_map(m: ProductIdentityRemap, crate_name: Seq<char>, id: ProductDefId, i: Impl, i2: Impl) -> bool {
    &&& m.spec_def_id(id) == Some(i2.id)
    &&& match i.owner {
        ImplOwner::Named(n) => i2.owner matches ImplOwner::Named(n2) && n2@ == qualified_name(crate_name, n@),
        ImplOwner::Anonymous => i2.owner is Anonymous,
    }
    &&& i2.self_name@ == i.self_name@
    &&& decls_map(m, i.type_generics@, i2.type_generics@)
    &&& decls_map(m, i.trait_generics@, i2.trait_generics@)
    &&& match i.trait_id { None => i2.trait_id is None, Some(t) => i2.trait_id == Some(mapped(m, t)) }
    &&& pattern_map(m, i.receiver_pattern, i2.receiver_pattern)
    &&& types_map(m, i.trait_arg_types@, i2.trait_arg_types@)
    &&& assoc_impls_map(m, i.associated_types@, i2.associated_types@)
    &&& bounds_map(m, i.bounds, i2.bounds)
    &&& i.methods@.len() == i2.methods@.len()
    &&& forall|k: int| 0 <= k < i.methods@.len() ==> {
        &&& (#[trigger] i2.methods@[k]).0@ == i.methods@[k].0@
        &&& i2.methods@[k].1.id == mapped(m, i.methods@[k].1.id)
        &&& function_parts_map(m, i.methods@[k].1, i2.methods@[k].1)
    }
}

/// A generic impl body under session identities; a named owner is
/// qualified by the crate that provides it.
pub fn remap_impl_ids(
    value: &Impl,
    id: ProductDefId,
    crate_name: &str,
    remap: &ProductIdentityRemap,
    validator: &ProductChildLocationValidator,
    type_validator: &ProductNominalTypeValidator,
) -> (r: Result<Impl, String>)
    ensures
        r is Ok <==> impl_body_ok(*remap, *validator, *type_validator, id, *value),
        r matches Ok(i2) ==> impl_body_map(*remap, crate_name@, id, *value, i2),
        r matches Err(e) ==> impl_body_err(*remap, *validator, *type_validator, id, *value, e@),
{
    let new_id = remap.def_id(id)?;
    let type_generics = remapped_decls(&value.type_generics, remap)?;
    let trait_generics = remapped_decls(&value.trait_generics, remap)?;
    let owner = match &value.owner {
        ImplOwner::Named(n) => ImplOwner::Named(qualify_product_name(crate_name, n.as_str())),
        ImplOwner::Anonymous => ImplOwner::Anonymous,
    };
    let trait_id = match value.trait_id {
        None => None,
        Some(t) => Some(map_id(remap, t)?),
    };
    let receiver_pattern = remapped_receiver_pattern(&value.receiver_pattern, remap, type_validator)?;
    let trait_arg_types = remapped_type_list(&value.trait_arg_types, remap, type_validator)?;
    let associated_types = remapped_assoc_impls(&value.associated_types, remap, type_validator)?;
    let bounds = remapped_generic_bounds(&value.bounds, remap, type_validator)?;
    let mut methods: Vec<(String, Function)> = Vec::new();
    let mut k: usize = 0;
    while k < value.methods.len()
        invariant
            k <= value.methods@.len(),
            methods@.len() == k,
            impl_head_outcome(*remap, *type_validator, id, *value) is Ok,
            forall|j: int| 0 <= j < k ==> idok(*remap, (#[trigger] value.methods@[j]).1.id)
                && function_ok(*remap, *validator, *type_validator, value.methods@[j].1),
            forall|j: int| 0 <= j < k ==> {
                &&& (#[trigger] methods@[j]).0@ == value.methods@[j].0@
                &&& methods@[j].1.id == mapped(*remap, value.methods@[j].1.id)
                &&& function_parts_map(*remap, value.methods@[j].1, methods@[j].1)
            },
        decreases value.methods@.len() - k,
    {
        let e = &value.methods[k];
        let method_id = match map_id(remap, e.1.id) {
            Ok(x) => x,
            Err(er) => {
                proof {
                    let kk = k as int;
                    assert(method_body_err(*remap, *validator, *type_validator, value.methods@[kk].1, er@));
                }
                return Err(er);
            },
        };
        let f2 = match remapped_function(&e.1, method_id, remap, validator, type_validator) {
            Ok(f2) => f2,
            Err(er) => {
                proof {
                    let kk = k as int;
                    assert(method_body_err(*remap, *validator, *type_validator, value.methods@[kk].1, er@));
                }
                return Err(er);
            },
        };
        methods.push((e.0.clone(), f2));
        k = k + 1;
    }
    let trait_name = match &value.trait_name {
        None => None,
        Some(n) => Some(n.clone()),
    };
    Ok(Impl {
        id: new_id,
        owner,
        self_name: value.self_name.clone(),
        type_generics,
        receiver_pattern,
        trait_name,
        trait_id,
        trait_generics,
        trait_arg_types,
        associated_types,
        bounds,
        methods,
    })
}

} // verus!
