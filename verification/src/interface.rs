use vstd::prelude::*;

use crate::bodymap::{remapped_decls, remapped_generic_bounds};
use crate::bodymap::remapped_predicates;
use crate::bodyspec::{bounds_map, bounds_ok, decls_map, decls_ok, idok, predicate_map, predicate_ok, tok, tsok};
use crate::hir::{AssociatedTypeImpl, ImplOwner};
use crate::ids::{spec_product_of, ProductDefId};
use crate::products::{
    EnumInterface, EnumVariantInterface, ExternInterface, FieldInterface, FunctionInterface, FunctionSig, ImplInterface,
    StructInterface, TraitInterface, TypeAliasInterface, VariantFields, copy_assoc_decls,
};
use crate::remap::ProductIdentityRemap;
use crate::typemap::{lemma_list_outcome_ok, map_id, mapped, remapped_type, remapped_types, type_map, types_map};
use crate::types::{GenericParamDecl, GenericParamId, ImplReceiverPattern, Type};
use crate::validator::ProductNominalTypeValidator;

verus! {

/// Each type of a list checked and remapped, in order.
pub fn remapped_type_list(ts: &Vec<Type>, m: &ProductIdentityRemap, v: &ProductNominalTypeValidator) -> (r: Result<Vec<Type>, String>)
    ensures
        r is Ok <==> tsok(*m, *v, ts@),
        r matches Ok(us) ==> types_map(*m, ts@, us@),
        crate::typemap::outcome_is_res(r, crate::typemap::list_outcome(*m, *v, ts@)),
{
    proof {
        lemma_list_outcome_ok(*m, *v, ts@);
    }
    remapped_types(ts, m, v)
}

// ----- functions -----

/// A declared function remaps under the product identity `id`.
pub open spec fn function_interface_ok(m: ProductIdentityRemap, v: ProductNominalTypeValidator, id: ProductDefId, f: FunctionInterface) -> bool {
    &&& m.spec_def_id(id) is Some
    &&& decls_ok(m, f.generic_params@)
    &&& bounds_ok(m, v, f.generic_bounds)
    &&& tsok(m, v, f.params@)
    &&& tok(m, v, f.ret_type)
}

/// What remapping the generic parameters `ds`, then the generic bounds
/// `gb`, reports.
pub open spec fn generics_outcome(m: ProductIdentityRemap, v: ProductNominalTypeValidator, ds: Seq<GenericParamDecl>, gb: crate::types::GenericBounds) -> Result<(), Seq<char>> {
    crate::validator::and_then(crate::text::first_error(ds, crate::bodymap::decl_checks(m)), crate::bodymap::bounds_outcome(m, v, gb))
}

/// What remapping the product identity `id` reports.
pub open spec fn key_outcome(m: ProductIdentityRemap, id: ProductDefId) -> Result<(), Seq<char>> {
    if m.spec_def_id(id) is None {
        Err(crate::remap::msg_unmapped(id))
    } else {
        Ok(())
    }
}

/// `msg` may be what remapping the declared function `f`, identified as
/// `id`, reports: an unmapped identity, then the error of its generic
/// parameters and bounds, then of its first failing parameter type, then of
/// its result type.
pub open spec fn function_interface_err(m: ProductIdentityRemap, v: ProductNominalTypeValidator, id: ProductDefId, f: FunctionInterface, msg: Seq<char>) -> bool {
    if m.spec_def_id(id) is None {
        msg == crate::remap::msg_unmapped(id)
    } else if generics_outcome(m, v, f.generic_params@, f.generic_bounds) is Err {
        generics_outcome(m, v, f.generic_params@, f.generic_bounds) == Err::<(), Seq<char>>(msg)
    } else if !tsok(m, v, f.params@) {
        crate::typemap::list_outcome(m, v, f.params@) == Err::<(), Seq<char>>(msg)
    } else {
        crate::typemap::type_outcome(m, v, f.ret_type) == Err::<(), Seq<char>>(msg)
    }
}

/// What remapping the declared function `f`, identified as `id`, reports:
/// its identity, its generics, its first failing parameter type, then its
/// result type.
pub open spec fn function_interface_outcome(m: ProductIdentityRemap, v: ProductNominalTypeValidator, id: ProductDefId, f: FunctionInterface) -> Result<(), Seq<char>> {
    crate::validator::and_then(key_outcome(m, id), crate::validator::and_then(generics_outcome(m, v, f.generic_params@, f.generic_bounds),
        crate::validator::and_then(crate::typemap::list_outcome(m, v, f.params@), crate::typemap::type_outcome(m, v, f.ret_type))))
}

/// `f2` is the declared function `f`, identified as `id`, remapped.
pub open spec fn function_interface_map(m: ProductIdentityRemap, id: ProductDefId, f: FunctionInterface, f2: FunctionInterface) -> bool {
    &&& m.spec_def_id(id) == Some(f2.id)
    &&& f2.name@ == f.name@
    &&& decls_map(m, f.generic_params@, f2.generic_params@)
    &&& bounds_map(m, f.generic_bounds, f2.generic_bounds)
    &&& types_map(m, f.params@, f2.params@)
    &&& type_map(m, f.ret_type, f2.ret_type)
    &&& f2.is_curried == f.is_curried
    &&& f2.is_method == f.is_method
    &&& f2.self_receiver == f.self_receiver
    &&& f2.is_unsafe == f.is_unsafe
}

/// A declared function under session identities: its identity is that of
/// `id`, its generics and signature remapped.
pub fn remap_function_interface_id(
    function: &FunctionInterface,
    id: ProductDefId,
    remap: &ProductIdentityRemap,
    type_validator: &ProductNominalTypeValidator,
) -> (r: Result<FunctionInterface, String>)
    ensures
        r is Ok <==> function_interface_ok(*remap, *type_validator, id, *function),
        r matches Ok(f2) ==> function_interface_map(*remap, id, *function, f2),
        r matches Err(e) ==> function_interface_err(*remap, *type_validator, id, *function, e@),
        crate::typemap::outcome_is_res(r, function_interface_outcome(*remap, *type_validator, id, *function)),
{
    let new_id = remap.def_id(id)?;
    let generic_params = remapped_decls(&function.generic_params, remap)?;
    let generic_bounds = remapped_generic_bounds(&function.generic_bounds, remap, type_validator)?;
    let params = remapped_type_list(&function.params, remap, type_validator)?;
    let ret_type = remapped_type(&function.ret_type, remap, type_validator)?;
    Ok(FunctionInterface {
        id: new_id,
        name: function.name.clone(),
        generic_params,
        generic_bounds,
        params,
        ret_type,
        is_curried: function.is_curried,
        is_method: function.is_method,
        self_receiver: function.self_receiver,
        is_unsafe: function.is_unsafe,
    })
}

// ----- structs -----

/// Each field's type remaps.
pub open spec fn fields_ok(m: ProductIdentityRemap, v: ProductNominalTypeValidator, fs: Seq<FieldInterface>) -> bool {
    forall|k: int| 0 <= k < fs.len() ==> tok(m, v, (#[trigger] fs[k]).ty)
}

/// `fs2` is `fs` with each field's type remapped.
pub open spec fn fields_map(m: ProductIdentityRemap, fs: Seq<FieldInterface>, fs2: Seq<FieldInterface>) -> bool {
    fs.len() == fs2.len() && forall|k: int| 0 <= k < fs.len() ==> {
        &&& (#[trigger] fs2[k]).id == fs[k].id
        &&& fs2[k].name@ == fs[k].name@
        &&& fs2[k].public == fs[k].public
        &&& type_map(m, fs[k].ty, fs2[k].ty)
    }
}

/// The check of each field: its type.
pub open spec fn field_checks(m: ProductIdentityRemap, v: ProductNominalTypeValidator) -> spec_fn(FieldInterface) -> Result<(), Seq<char>> {
    |f: FieldInterface| crate::typemap::type_outcome(m, v, f.ty)
}

/// Each field of a list with its type checked and remapped.
pub fn remapped_fields(fs: &Vec<FieldInterface>, m: &ProductIdentityRemap, v: &ProductNominalTypeValidator) -> (r: Result<Vec<FieldInterface>, String>)
    ensures
        r is Ok <==> fields_ok(*m, *v, fs@),
        r matches Ok(fs2) ==> fields_map(*m, fs@, fs2@),
        crate::typemap::outcome_is_res(r, crate::text::first_error(fs@, field_checks(*m, *v))),
{
    let ghost ck = field_checks(*m, *v);
    let mut out: Vec<FieldInterface> = Vec::new();
    let mut k: usize = 0;
    while k < fs.len()
        invariant
            k <= fs@.len(),
            ck == field_checks(*m, *v),
            crate::text::first_error(fs@.take(k as int), ck) is Ok,
            fields_ok(*m, *v, fs@.take(k as int)),
            fields_map(*m, fs@.take(k as int), out@),
        decreases fs@.len() - k,
    {
        let f = &fs[k];
        let ty = match remapped_type(&f.ty, m, v) {
            Ok(t) => t,
            Err(e) => {
                assert(!tok(*m, *v, fs@[k as int].ty));
                proof { crate::text::lemma_first_error_at(fs@, ck, k as int); }
                return Err(e);
            },
        };
        proof { crate::text::lemma_first_error_step(fs@, ck, k as int); }
        out.push(FieldInterface { id: f.id, name: f.name.clone(), ty, public: f.public });
        proof {
            assert(fs@.take(k + 1).drop_last() =~= fs@.take(k as int));
            assert forall|j: int| 0 <= j < k + 1 implies tok(*m, *v, (#[trigger] fs@.take(k + 1)[j]).ty) by {
                if j < k {
                    assert(fs@.take(k + 1)[j] == fs@.take(k as int)[j]);
                }
            }
            assert forall|j: int| 0 <= j < k + 1 implies {
                &&& (#[trigger] out@[j]).id == fs@.take(k + 1)[j].id
                &&& out@[j].name@ == fs@.take(k + 1)[j].name@
                &&& out@[j].public == fs@.take(k + 1)[j].public
                &&& type_map(*m, fs@.take(k + 1)[j].ty, out@[j].ty)
            } by {
                if j < k {
                    assert(fs@.take(k + 1)[j] == fs@.take(k as int)[j]);
                }
            }
        }
        k = k + 1;
    }
    assert(fs@.take(k as int) =~= fs@);
    Ok(out)
}

/// A declared struct remaps under the product identity `id`.
pub open spec fn struct_interface_ok(m: ProductIdentityRemap, v: ProductNominalTypeValidator, id: ProductDefId, s: StructInterface) -> bool {
    &&& m.spec_def_id(id) is Some
    &&& decls_ok(m, s.generic_params@)
    &&& fields_ok(m, v, s.fields@)
}

/// `s2` is the declared struct `s`, identified as `id`, remapped.
pub open spec fn struct_interface_map(m: ProductIdentityRemap, id: ProductDefId, s: StructInterface, s2: StructInterface) -> bool {
    &&& m.spec_def_id(id) == Some(s2.id)
    &&& s2.name@ == s.name@
    &&& decls_map(m, s.generic_params@, s2.generic_params@)
    &&& fields_map(m, s.fields@, s2.fields@)
}

/// What remapping the declared struct `s`, identified as `id`, reports:
/// its identity, its generic parameters, then its first failing field.
pub open spec fn struct_interface_outcome(m: ProductIdentityRemap, v: ProductNominalTypeValidator, id: ProductDefId, s: StructInterface) -> Result<(), Seq<char>> {
    crate::validator::and_then(key_outcome(m, id), crate::validator::and_then(
        crate::text::first_error(s.generic_params@, crate::bodymap::decl_checks(m)),
        crate::text::first_error(s.fields@, field_checks(m, v))))
}

/// A declared struct under session identities.
pub fn remap_struct_interface_id(
    strukt: &StructInterface,
    id: ProductDefId,
    remap: &ProductIdentityRemap,
    type_validator: &ProductNominalTypeValidator,
) -> (r: Result<StructInterface, String>)
    ensures
        r is Ok <==> struct_interface_ok(*remap, *type_validator, id, *strukt),
        r matches Ok(s2) ==> struct_interface_map(*remap, id, *strukt, s2),
        crate::typemap::outcome_is_res(r, struct_interface_outcome(*remap, *type_validator, id, *strukt)),
{
    let new_id = remap.def_id(id)?;
    let generic_params = remapped_decls(&strukt.generic_params, remap)?;
    let fields = remapped_fields(&strukt.fields, remap, type_validator)?;
    Ok(StructInterface { id: new_id, name: strukt.name.clone(), generic_params, fields })
}

// ----- type aliases -----

/// A declared type alias remaps under the product identity `id`.
pub open spec fn alias_interface_ok(m: ProductIdentityRemap, v: ProductNominalTypeValidator, id: ProductDefId, a: TypeAliasInterface) -> bool {
    &&& m.spec_def_id(id) is Some
    &&& decls_ok(m, a.generic_params@)
    &&& tok(m, v, a.ty)
}

/// `a2` is the declared alias `a`, identified as `id`, remapped.
pub open spec fn alias_interface_map(m: ProductIdentityRemap, id: ProductDefId, a: TypeAliasInterface, a2: TypeAliasInterface) -> bool {
    &&& m.spec_def_id(id) == Some(a2.id)
    &&& a2.name@ == a.name@
    &&& decls_map(m, a.generic_params@, a2.generic_params@)
    &&& type_map(m, a.ty, a2.ty)
}

/// What remapping the declared alias `a`, identified as `id`, reports: its
/// identity, its generic parameters, then its type.
pub open spec fn alias_interface_outcome(m: ProductIdentityRemap, v: ProductNominalTypeValidator, id: ProductDefId, a: TypeAliasInterface) -> Result<(), Seq<char>> {
    crate::validator::and_then(key_outcome(m, id), crate::validator::and_then(
        crate::text::first_error(a.generic_params@, crate::bodymap::decl_checks(m)),
        crate::typemap::type_outcome(m, v, a.ty)))
}

/// A declared type alias under session identities.
pub fn remap_type_alias_interface_id(
    alias: &TypeAliasInterface,
    id: ProductDefId,
    remap: &ProductIdentityRemap,
    type_validator: &ProductNominalTypeValidator,
) -> (r: Result<TypeAliasInterface, String>)
    ensures
        r is Ok <==> alias_interface_ok(*remap, *type_validator, id, *alias),
        r matches Ok(a2) ==> alias_interface_map(*remap, id, *alias, a2),
        crate::typemap::outcome_is_res(r, alias_interface_outcome(*remap, *type_validator, id, *alias)),
{
    let new_id = remap.def_id(id)?;
    let generic_params = remapped_decls(&alias.generic_params, remap)?;
    let ty = remapped_type(&alias.ty, remap, type_validator)?;
    Ok(TypeAliasInterface { id: new_id, name: alias.name.clone(), generic_params, ty })
}

// ----- externs -----

/// A declared extern function remaps under the product identity `id`.
pub open spec fn extern_interface_ok(m: ProductIdentityRemap, v: ProductNominalTypeValidator, id: ProductDefId, e: ExternInterface) -> bool {
    &&& m.spec_def_id(id) is Some
    &&& tsok(m, v, e.params@)
    &&& tok(m, v, e.ret)
}

/// `e2` is the declared extern `e`, identified as `id`, remapped.
pub open spec fn extern_interface_map(m: ProductIdentityRemap, id: ProductDefId, e: ExternInterface, e2: ExternInterface) -> bool {
    &&& m.spec_def_id(id) == Some(e2.id)
    &&& e2.name@ == e.name@
    &&& types_map(m, e.params@, e2.params@)
    &&& type_map(m, e.ret, e2.ret)
    &&& e2.variadic == e.variadic
    &&& e2.is_unsafe == e.is_unsafe
}

/// What remapping the declared extern `e`, identified as `id`, reports:
/// its identity, its first failing parameter type, then its result type.
pub open spec fn extern_interface_outcome(m: ProductIdentityRemap, v: ProductNominalTypeValidator, id: ProductDefId, e: ExternInterface) -> Result<(), Seq<char>> {
    crate::validator::and_then(key_outcome(m, id), crate::validator::and_then(
        crate::typemap::list_outcome(m, v, e.params@), crate::typemap::type_outcome(m, v, e.ret)))
}

/// A declared extern function under session identities.
pub fn remap_extern_interface_id(
    ext: &ExternInterface,
    id: ProductDefId,
    remap: &ProductIdentityRemap,
    type_validator: &ProductNominalTypeValidator,
) -> (r: Result<ExternInterface, String>)
    ensures
        r is Ok <==> extern_interface_ok(*remap, *type_validator, id, *ext),
        r matches Ok(e2) ==> extern_interface_map(*remap, id, *ext, e2),
        crate::typemap::outcome_is_res(r, extern_interface_outcome(*remap, *type_validator, id, *ext)),
{
    let new_id = remap.def_id(id)?;
    let params = remapped_type_list(&ext.params, remap, type_validator)?;
    let ret = remapped_type(&ext.ret, remap, type_validator)?;
    Ok(ExternInterface { id: new_id, name: ext.name.clone(), params, ret, variadic: ext.variadic, is_unsafe: ext.is_unsafe })
}


// ----- enums -----

/// A variant's payload types remap.
pub open spec fn variant_ok(m: ProductIdentityRemap, v: ProductNominalTypeValidator, x: EnumVariantInterface) -> bool {
    match x.fields {
        VariantFields::Unit => true,
        VariantFields::Positional(ts) => tsok(m, v, ts@),
        VariantFields::Named(fs) => fields_ok(m, v, fs@),
    }
}

/// `x2` is the variant `x` with its payload types remapped.
pub open spec fn variant_map(m: ProductIdentityRemap, x: EnumVariantInterface, x2: EnumVariantInterface) -> bool {
    &&& x2.id == x.id
    &&& x2.name@ == x.name@
    &&& match x.fields {
        VariantFields::Unit => x2.fields is Unit,
        VariantFields::Positional(ts) => x2.fields matches VariantFields::Positional(us) && types_map(m, ts@, us@),
        VariantFields::Named(fs) => x2.fields matches VariantFields::Named(fs2) && fields_map(m, fs@, fs2@),
    }
}

/// The check of each variant: its payload types in order.
pub open spec fn variant_checks(m: ProductIdentityRemap, v: ProductNominalTypeValidator) -> spec_fn(EnumVariantInterface) -> Result<(), Seq<char>> {
    |x: EnumVariantInterface| match x.fields {
        VariantFields::Unit => Ok(()),
        VariantFields::Positional(ts) => crate::typemap::list_outcome(m, v, ts@),
        VariantFields::Named(fs) => crate::text::first_error(fs@, field_checks(m, v)),
    }
}

/// What remapping the declared enum `e`, identified as `id`, reports: its
/// identity, its generic parameters, then its first failing variant.
pub open spec fn enum_interface_outcome(m: ProductIdentityRemap, v: ProductNominalTypeValidator, id: ProductDefId, e: EnumInterface) -> Result<(), Seq<char>> {
    crate::validator::and_then(key_outcome(m, id), crate::validator::and_then(
        crate::text::first_error(e.generic_params@, crate::bodymap::decl_checks(m)),
        crate::text::first_error(e.variants@, variant_checks(m, v))))
}

fn remapped_variant(x: &EnumVariantInterface, m: &ProductIdentityRemap, v: &ProductNominalTypeValidator) -> (r: Result<EnumVariantInterface, String>)
    ensures
        r is Ok <==> variant_ok(*m, *v, *x),
        r matches Ok(x2) ==> variant_map(*m, *x, x2),
        crate::typemap::outcome_is_res(r, (variant_checks(*m, *v))(*x)),
{
    let fields = match &x.fields {
        VariantFields::Unit => VariantFields::Unit,
        VariantFields::Positional(ts) => VariantFields::Positional(remapped_type_list(ts, m, v)?),
        VariantFields::Named(fs) => VariantFields::Named(remapped_fields(fs, m, v)?),
    };
    Ok(EnumVariantInterface { id: x.id, name: x.name.clone(), fields })
}

/// A declared enum remaps under the product identity `id`.
pub open spec fn enum_interface_ok(m: ProductIdentityRemap, v: ProductNominalTypeValidator, id: ProductDefId, e: EnumInterface) -> bool {
    &&& m.spec_def_id(id) is Some
    &&& decls_ok(m, e.generic_params@)
    &&& forall|k: int| 0 <= k < e.variants@.len() ==> variant_ok(m, v, #[trigger] e.variants@[k])
}

/// `e2` is the declared enum `e`, identified as `id`, remapped.
pub open spec fn enum_interface_map(m: ProductIdentityRemap, id: ProductDefId, e: EnumInterface, e2: EnumInterface) -> bool {
    &&& m.spec_def_id(id) == Some(e2.id)
    &&& e2.name@ == e.name@
    &&& decls_map(m, e.generic_params@, e2.generic_params@)
    &&& e.variants@.len() == e2.variants@.len()
    &&& forall|k: int| 0 <= k < e.variants@.len() ==> variant_map(m, #[trigger] e.variants@[k], e2.variants@[k])
}

/// A declared enum under session identities.
pub fn remap_enum_interface_id(
    enm: &EnumInterface,
    id: ProductDefId,
    remap: &ProductIdentityRemap,
    type_validator: &ProductNominalTypeValidator,
) -> (r: Result<EnumInterface, String>)
    ensures
        r is Ok <==> enum_interface_ok(*remap, *type_validator, id, *enm),
        r matches Ok(e2) ==> enum_interface_map(*remap, id, *enm, e2),
        crate::typemap::outcome_is_res(r, enum_interface_outcome(*remap, *type_validator, id, *enm)),
{
    let new_id = remap.def_id(id)?;
    let generic_params = remapped_decls(&enm.generic_params, remap)?;
    let ghost ck = variant_checks(*remap, *type_validator);
    let mut variants: Vec<EnumVariantInterface> = Vec::new();
    let mut k: usize = 0;
    while k < enm.variants.len()
        invariant
            k <= enm.variants@.len(),
            variants@.len() == k,
            ck == variant_checks(*remap, *type_validator),
            crate::text::first_error(enm.variants@.take(k as int), ck) is Ok,
            key_outcome(*remap, id) is Ok,
            crate::text::first_error(enm.generic_params@, crate::bodymap::decl_checks(*remap)) is Ok,
            forall|j: int| 0 <= j < k ==> variant_ok(*remap, *type_validator, #[trigger] enm.variants@[j]),
            forall|j: int| 0 <= j < k ==> variant_map(*remap, #[trigger] enm.variants@[j], variants@[j]),
        decreases enm.variants@.len() - k,
    {
        let x = match remapped_variant(&enm.variants[k], remap, type_validator) {
            Ok(x) => x,
            Err(e) => {
                proof {
                    assert(ck(enm.variants@[k as int]) == Err::<(), Seq<char>>(e@));
                    crate::text::lemma_first_error_at(enm.variants@, ck, k as int);
                }
                return Err(e);
            },
        };
        proof { crate::text::lemma_first_error_step(enm.variants@, ck, k as int); }
        variants.push(x);
        k = k + 1;
    }
    proof { assert(enm.variants@.take(enm.variants@.len() as int) =~= enm.variants@); }
    Ok(EnumInterface { id: new_id, name: enm.name.clone(), generic_params, variants })
}

// ----- traits -----

/// A required signature remaps.
pub open spec fn sig_ok(m: ProductIdentityRemap, v: ProductNominalTypeValidator, s: FunctionSig) -> bool {
    &&& idok(m, s.id)
    &&& decls_ok(m, s.generic_params@)
    &&& bounds_ok(m, v, s.generic_bounds)
    &&& tsok(m, v, s.params@)
    &&& tok(m, v, s.ret)
}

/// `s2` is the required signature `s` remapped.
pub open spec fn sig_map(m: ProductIdentityRemap, s: FunctionSig, s2: FunctionSig) -> bool {
    &&& s2.id == mapped(m, s.id)
    &&& s2.name@ == s.name@
    &&& decls_map(m, s.generic_params@, s2.generic_params@)
    &&& bounds_map(m, s.generic_bounds, s2.generic_bounds)
    &&& types_map(m, s.params@, s2.params@)
    &&& type_map(m, s.ret, s2.ret)
    &&& s2.self_receiver == s.self_receiver
    &&& s2.is_unsafe == s.is_unsafe
}

/// A required signature under session identities.
/// What remapping a required signature reports: its identity, its
/// generics, its first failing parameter type, then its result type.
pub open spec fn sig_outcome(m: ProductIdentityRemap, v: ProductNominalTypeValidator, s: FunctionSig) -> Result<(), Seq<char>> {
    crate::validator::and_then(crate::typemap::id_outcome(m, s.id), crate::validator::and_then(generics_outcome(m, v, s.generic_params@, s.generic_bounds),
        crate::validator::and_then(crate::typemap::list_outcome(m, v, s.params@), crate::typemap::type_outcome(m, v, s.ret))))
}

/// The check of each required signature.
pub open spec fn sig_checks(m: ProductIdentityRemap, v: ProductNominalTypeValidator) -> spec_fn((String, FunctionSig)) -> Result<(), Seq<char>> {
    |e: (String, FunctionSig)| sig_outcome(m, v, e.1)
}

pub fn remapped_sig(s: &FunctionSig, m: &ProductIdentityRemap, v: &ProductNominalTypeValidator) -> (r: Result<FunctionSig, String>)
    ensures
        crate::typemap::outcome_is_res(r, sig_outcome(*m, *v, *s)),
        r is Ok <==> sig_ok(*m, *v, *s),
        r matches Ok(s2) ==> sig_map(*m, *s, s2),
{
    let id = map_id(m, s.id)?;
    let generic_params = remapped_decls(&s.generic_params, m)?;
    let generic_bounds = remapped_generic_bounds(&s.generic_bounds, m, v)?;
    let params = remapped_type_list(&s.params, m, v)?;
    let ret = remapped_type(&s.ret, m, v)?;
    Ok(FunctionSig {
        id,
        name: s.name.clone(),
        generic_params,
        params,
        ret,
        generic_bounds,
        self_receiver: s.self_receiver,
        is_unsafe: s.is_unsafe,
    })
}

/// The methods of a trait or impl remap, each under the identity it embeds.
pub open spec fn methods_ok(m: ProductIdentityRemap, v: ProductNominalTypeValidator, ms: Seq<(String, FunctionInterface)>) -> bool {
    forall|k: int| 0 <= k < ms.len() ==> function_interface_ok(m, v, spec_product_of((#[trigger] ms[k]).1.id), ms[k].1)
}

/// `ms2` is `ms` with each method remapped under the identity it embeds,
/// names and order kept.
pub open spec fn methods_map(m: ProductIdentityRemap, ms: Seq<(String, FunctionInterface)>, ms2: Seq<(String, FunctionInterface)>) -> bool {
    ms.len() == ms2.len() && forall|k: int| 0 <= k < ms.len() ==> {
        &&& (#[trigger] ms2[k]).0@ == ms[k].0@
        &&& function_interface_map(m, spec_product_of(ms[k].1.id), ms[k].1, ms2[k].1)
    }
}

/// Each method of a list remapped under the identity it embeds.
/// The check of each method: its declaration remapped under its own
/// identity.
pub open spec fn method_checks(m: ProductIdentityRemap, v: ProductNominalTypeValidator) -> spec_fn((String, FunctionInterface)) -> Result<(), Seq<char>> {
    |e: (String, FunctionInterface)| function_interface_outcome(m, v, spec_product_of(e.1.id), e.1)
}

pub fn remapped_methods(ms: &Vec<(String, FunctionInterface)>, m: &ProductIdentityRemap, v: &ProductNominalTypeValidator) -> (r: Result<Vec<(String, FunctionInterface)>, String>)
    ensures
        r is Ok <==> methods_ok(*m, *v, ms@),
        r matches Ok(ms2) ==> methods_map(*m, ms@, ms2@),
        crate::typemap::outcome_is_res(r, crate::text::first_error(ms@, method_checks(*m, *v))),
{
    let ghost ck = method_checks(*m, *v);
    let mut out: Vec<(String, FunctionInterface)> = Vec::new();
    let mut k: usize = 0;
    while k < ms.len()
        invariant
            k <= ms@.len(),
            out@.len() == k,
            ck == method_checks(*m, *v),
            crate::text::first_error(ms@.take(k as int), ck) is Ok,
            forall|j: int| 0 <= j < k ==> function_interface_ok(*m, *v, spec_product_of((#[trigger] ms@[j]).1.id), ms@[j].1),
            forall|j: int| 0 <= j < k ==> (#[trigger] out@[j]).0@ == ms@[j].0@
                && function_interface_map(*m, spec_product_of(ms@[j].1.id), ms@[j].1, out@[j].1),
        decreases ms@.len() - k,
    {
        let e = &ms[k];
        let f = match remap_function_interface_id(&e.1, ProductDefId::from_def_id(e.1.id), m, v) {
            Ok(f) => f,
            Err(er) => {
                proof {
                    assert(ck(ms@[k as int]) == Err::<(), Seq<char>>(er@));
                    crate::text::lemma_first_error_at(ms@, ck, k as int);
                }
                return Err(er);
            },
        };
        proof { crate::text::lemma_first_error_step(ms@, ck, k as int); }
        out.push((e.0.clone(), f));
        k = k + 1;
    }
    proof { assert(ms@.take(ms@.len() as int) =~= ms@); }
    Ok(out)
}

/// The required signatures of a trait remap.
pub open spec fn sigs_ok(m: ProductIdentityRemap, v: ProductNominalTypeValidator, ss: Seq<(String, FunctionSig)>) -> bool {
    forall|k: int| 0 <= k < ss.len() ==> sig_ok(m, v, (#[trigger] ss[k]).1)
}

/// `ss2` is `ss` with each signature remapped, names and order kept.
pub open spec fn sigs_map(m: ProductIdentityRemap, ss: Seq<(String, FunctionSig)>, ss2: Seq<(String, FunctionSig)>) -> bool {
    ss.len() == ss2.len() && forall|k: int| 0 <= k < ss.len() ==> (#[trigger] ss2[k]).0@ == ss[k].0@ && sig_map(m, ss[k].1, ss2[k].1)
}

/// Each required signature of a list remapped.
pub fn remapped_sigs(ss: &Vec<(String, FunctionSig)>, m: &ProductIdentityRemap, v: &ProductNominalTypeValidator) -> (r: Result<Vec<(String, FunctionSig)>, String>)
    ensures
        r is Ok <==> sigs_ok(*m, *v, ss@),
        r matches Ok(ss2) ==> sigs_map(*m, ss@, ss2@),
        crate::typemap::outcome_is_res(r, crate::text::first_error(ss@, sig_checks(*m, *v))),
{
    let ghost ck = sig_checks(*m, *v);
    let mut out: Vec<(String, FunctionSig)> = Vec::new();
    let mut k: usize = 0;
    while k < ss.len()
        invariant
            k <= ss@.len(),
            out@.len() == k,
            ck == sig_checks(*m, *v),
            crate::text::first_error(ss@.take(k as int), ck) is Ok,
            forall|j: int| 0 <= j < k ==> sig_ok(*m, *v, (#[trigger] ss@[j]).1),
            forall|j: int| 0 <= j < k ==> (#[trigger] out@[j]).0@ == ss@[j].0@ && sig_map(*m, ss@[j].1, out@[j].1),
        decreases ss@.len() - k,
    {
        let e = &ss[k];
        let s2 = match remapped_sig(&e.1, m, v) {
            Ok(s2) => s2,
            Err(er) => {
                proof {
                    assert(ck(ss@[k as int]) == Err::<(), Seq<char>>(er@));
                    crate::text::lemma_first_error_at(ss@, ck, k as int);
                }
                return Err(er);
            },
        };
        proof { crate::text::lemma_first_error_step(ss@, ck, k as int); }
        out.push((e.0.clone(), s2));
        k = k + 1;
    }
    proof { assert(ss@.take(ss@.len() as int) =~= ss@); }
    Ok(out)
}

/// The owner of an optional declaration is mapped.
pub open spec fn target_ok(m: ProductIdentityRemap, t: Option<GenericParamDecl>) -> bool {
    t matches Some(d) ==> idok(m, d.id.owner)
}

/// `t2` is the optional declaration `t` with its owner remapped.
pub open spec fn target_map(m: ProductIdentityRemap, t: Option<GenericParamDecl>, t2: Option<GenericParamDecl>) -> bool {
    match t {
        None => t2 is None,
        Some(d) => t2 matches Some(d2) && d2.id.owner == mapped(m, d.id.owner) && d2.id.index == d.id.index && d2.name@ == d.name@,
    }
}

/// What remapping an optional declaration reports: its owner's identity.
pub open spec fn target_outcome(m: ProductIdentityRemap, t: Option<GenericParamDecl>) -> Result<(), Seq<char>> {
    match t {
        None => Ok(()),
        Some(d) => crate::typemap::id_outcome(m, d.id.owner),
    }
}

pub fn remapped_target_decl(t: &Option<GenericParamDecl>, m: &ProductIdentityRemap) -> (r: Result<Option<GenericParamDecl>, String>)
    ensures
        crate::typemap::outcome_is_res(r, target_outcome(*m, *t)),
        r is Ok <==> target_ok(*m, *t),
        r matches Ok(t2) ==> target_map(*m, *t, t2),
{
    match t {
        None => Ok(None),
        Some(d) => {
            let owner = map_id(m, d.id.owner)?;
            Ok(Some(GenericParamDecl { id: GenericParamId { owner, index: d.id.index }, name: d.name.clone() }))
        },
    }
}

/// What remapping the declared trait `t`, identified as `id`, reports: its
/// identity, its generic parameters, its target, its first failing
/// predicate, method and required signature, in that order.
pub open spec fn trait_interface_outcome(m: ProductIdentityRemap, v: ProductNominalTypeValidator, id: ProductDefId, t: TraitInterface) -> Result<(), Seq<char>> {
    crate::validator::and_then(key_outcome(m, id), crate::validator::and_then(
        crate::text::first_error(t.generic_params@, crate::bodymap::decl_checks(m)), crate::validator::and_then(
        target_outcome(m, t.target), crate::validator::and_then(
        crate::text::first_error(t.predicates@, crate::bodymap::predicate_checks(m, v)), crate::validator::and_then(
        crate::text::first_error(t.methods@, method_checks(m, v)),
        crate::text::first_error(t.signatures@, sig_checks(m, v)))))))
}

/// A declared trait remaps under the product identity `id`.
pub open spec fn trait_interface_ok(m: ProductIdentityRemap, v: ProductNominalTypeValidator, id: ProductDefId, t: TraitInterface) -> bool {
    &&& m.spec_def_id(id) is Some
    &&& decls_ok(m, t.generic_params@)
    &&& target_ok(m, t.target)
    &&& forall|k: int| 0 <= k < t.predicates@.len() ==> predicate_ok(m, v, #[trigger] t.predicates@[k])
    &&& methods_ok(m, v, t.methods@)
    &&& sigs_ok(m, v, t.signatures@)
}

/// `t2` is the declared trait `t`, identified as `id`, remapped.
pub open spec fn trait_interface_map(m: ProductIdentityRemap, id: ProductDefId, t: TraitInterface, t2: TraitInterface) -> bool {
    &&& m.spec_def_id(id) == Some(t2.id)
    &&& t2.name@ == t.name@
    &&& decls_map(m, t.generic_params@, t2.generic_params@)
    &&& target_map(m, t.target, t2.target)
    &&& t.predicates@.len() == t2.predicates@.len()
    &&& forall|k: int| 0 <= k < t.predicates@.len() ==> predicate_map(m, #[trigger] t.predicates@[k], t2.predicates@[k])
    &&& t2.associated_types@.len() == t.associated_types@.len()
    &&& forall|k: int| 0 <= k < t.associated_types@.len() ==> (#[trigger] t2.associated_types@[k]).id == t.associated_types@[k].id
    &&& methods_map(m, t.methods@, t2.methods@)
    &&& sigs_map(m, t.signatures@, t2.signatures@)
}

/// A declared trait under session identities.
pub fn remap_trait_interface_ids(
    trait_def: &TraitInterface,
    id: ProductDefId,
    remap: &ProductIdentityRemap,
    type_validator: &ProductNominalTypeValidator,
) -> (r: Result<TraitInterface, String>)
    ensures
        r is Ok <==> trait_interface_ok(*remap, *type_validator, id, *trait_def),
        r matches Ok(t2) ==> trait_interface_map(*remap, id, *trait_def, t2),
        crate::typemap::outcome_is_res(r, trait_interface_outcome(*remap, *type_validator, id, *trait_def)),
{
    let new_id = remap.def_id(id)?;
    let generic_params = remapped_decls(&trait_def.generic_params, remap)?;
    let target = remapped_target_decl(&trait_def.target, remap)?;
    let predicates = remapped_predicates(&trait_def.predicates, remap, type_validator)?;
    let methods = remapped_methods(&trait_def.methods, remap, type_validator)?;
    let signatures = remapped_sigs(&trait_def.signatures, remap, type_validator)?;
    Ok(TraitInterface {
        id: new_id,
        name: trait_def.name.clone(),
        generic_params,
        target,
        predicates,
        associated_types: copy_assoc_decls(&trait_def.associated_types),
        methods,
        signatures,
    })
}

// ----- impls -----

/// The impl's receiver pattern, with its type remapped.
pub open spec fn pattern_map(m: ProductIdentityRemap, p: ImplReceiverPattern, p2: ImplReceiverPattern) -> bool {
    match p {
        ImplReceiverPattern::Exact(t) => p2 matches ImplReceiverPattern::Exact(u) && type_map(m, t, u),
        ImplReceiverPattern::Constructor(t) => p2 matches ImplReceiverPattern::Constructor(u) && type_map(m, t, u),
        ImplReceiverPattern::SliceFamily { element } => p2 matches ImplReceiverPattern::SliceFamily { element: u } && type_map(m, element, u),
    }
}

pub fn remapped_receiver_pattern(p: &ImplReceiverPattern, m: &ProductIdentityRemap, v: &ProductNominalTypeValidator) -> (r: Result<ImplReceiverPattern, String>)
    ensures
        crate::typemap::outcome_is_res(r, crate::typemap::type_outcome(*m, *v, p.pattern_type())),
        r is Ok <==> tok(*m, *v, p.pattern_type()),
        r matches Ok(p2) ==> pattern_map(*m, *p, p2),
{
    match p {
        ImplReceiverPattern::Exact(t) => Ok(ImplReceiverPattern::Exact(remapped_type(t, m, v)?)),
        ImplReceiverPattern::Constructor(t) => Ok(ImplReceiverPattern::Constructor(remapped_type(t, m, v)?)),
        ImplReceiverPattern::SliceFamily { element } => Ok(ImplReceiverPattern::SliceFamily { element: remapped_type(element, m, v)? }),
    }
}

/// The bound associated types' types remap.
pub open spec fn assoc_impls_ok(m: ProductIdentityRemap, v: ProductNominalTypeValidator, s: Seq<AssociatedTypeImpl>) -> bool {
    forall|k: int| 0 <= k < s.len() ==> tok(m, v, (#[trigger] s[k]).ty)
}

/// `s2` is `s` with each bound type remapped.
pub open spec fn assoc_impls_map(m: ProductIdentityRemap, s: Seq<AssociatedTypeImpl>, s2: Seq<AssociatedTypeImpl>) -> bool {
    s.len() == s2.len() && forall|k: int| 0 <= k < s.len() ==> (#[trigger] s2[k]).id == s[k].id && s2[k].name@ == s[k].name@
        && type_map(m, s[k].ty, s2[k].ty)
}

/// The check of each associated type of an impl: its type.
pub open spec fn assoc_checks(m: ProductIdentityRemap, v: ProductNominalTypeValidator) -> spec_fn(AssociatedTypeImpl) -> Result<(), Seq<char>> {
    |a: AssociatedTypeImpl| crate::typemap::type_outcome(m, v, a.ty)
}

pub fn remapped_assoc_impls(s: &Vec<AssociatedTypeImpl>, m: &ProductIdentityRemap, v: &ProductNominalTypeValidator) -> (r: Result<Vec<AssociatedTypeImpl>, String>)
    ensures
        r is Ok <==> assoc_impls_ok(*m, *v, s@),
        r matches Ok(s2) ==> assoc_impls_map(*m, s@, s2@),
        crate::typemap::outcome_is_res(r, crate::text::first_error(s@, assoc_checks(*m, *v))),
{
    let ghost ck = assoc_checks(*m, *v);
    let mut out: Vec<AssociatedTypeImpl> = Vec::new();
    let mut k: usize = 0;
    while k < s.len()
        invariant
            k <= s@.len(),
            out@.len() == k,
            ck == assoc_checks(*m, *v),
            crate::text::first_error(s@.take(k as int), ck) is Ok,
            forall|j: int| 0 <= j < k ==> tok(*m, *v, (#[trigger] s@[j]).ty),
            forall|j: int| 0 <= j < k ==> (#[trigger] out@[j]).id == s@[j].id && out@[j].name@ == s@[j].name@
                && type_map(*m, s@[j].ty, out@[j].ty),
        decreases s@.len() - k,
    {
        let a = &s[k];
        let ty = match remapped_type(&a.ty, m, v) {
            Ok(t) => t,
            Err(er) => {
                proof { crate::text::lemma_first_error_at(s@, ck, k as int); }
                return Err(er);
            },
        };
        proof { crate::text::lemma_first_error_step(s@, ck, k as int); }
        out.push(AssociatedTypeImpl { id: a.id, name: a.name.clone(), ty });
        k = k + 1;
    }
    proof { assert(s@.take(s@.len() as int) =~= s@); }
    Ok(out)
}

/// A copy of an impl owner.
pub fn copy_owner(o: &ImplOwner) -> (r: ImplOwner)
    ensures
        match *o {
            ImplOwner::Named(n) => r matches ImplOwner::Named(n2) && n2@ == n@,
            ImplOwner::Anonymous => r is Anonymous,
        },
{
    match o {
        ImplOwner::Named(n) => ImplOwner::Named(n.clone()),
        ImplOwner::Anonymous => ImplOwner::Anonymous,
    }
}

/// A declared impl remaps under the product identity `id`.
pub open spec fn impl_interface_ok(m: ProductIdentityRemap, v: ProductNominalTypeValidator, id: ProductDefId, i: ImplInterface) -> bool {
    &&& m.spec_def_id(id) is Some
    &&& decls_ok(m, i.type_generics@)
    &&& decls_ok(m, i.trait_generics@)
    &&& (i.trait_id matches Some(t) ==> idok(m, t))
    &&& tok(m, v, i.receiver_pattern.pattern_type())
    &&& tsok(m, v, i.trait_arg_types@)
    &&& assoc_impls_ok(m, v, i.associated_types@)
    &&& bounds_ok(m, v, i.bounds)
    &&& methods_ok(m, v, i.methods@)
}

/// `i2` is the declared impl `i`, identified as `id`, remapped.
pub open spec fn impl_interface_map(m: ProductIdentityRemap, id: ProductDefId, i: ImplInterface, i2: ImplInterface) -> bool {
    &&& m.spec_def_id(id) == Some(i2.id)
    &&& i2.self_name@ == i.self_name@
    &&& decls_map(m, i.type_generics@, i2.type_generics@)
    &&& decls_map(m, i.trait_generics@, i2.trait_generics@)
    &&& match i.trait_id { None => i2.trait_id is None, Some(t) => i2.trait_id == Some(mapped(m, t)) }
    &&& pattern_map(m, i.receiver_pattern, i2.receiver_pattern)
    &&& types_map(m, i.trait_arg_types@, i2.trait_arg_types@)
    &&& assoc_impls_map(m, i.associated_types@, i2.associated_types@)
    &&& bounds_map(m, i.bounds, i2.bounds)
    &&& methods_map(m, i.methods@, i2.methods@)
}

/// A declared impl under session identities.
/// What remapping the declared impl `i`, identified as `id`, reports: its
/// identity, its type and trait generic parameters, its trait, its receiver
/// type, its trait arguments, its associated types, its bounds, then its
/// methods, in that order.
pub open spec fn impl_interface_outcome(m: ProductIdentityRemap, v: ProductNominalTypeValidator, id: ProductDefId, i: ImplInterface) -> Result<(), Seq<char>> {
    crate::validator::and_then(key_outcome(m, id), crate::validator::and_then(
        crate::text::first_error(i.type_generics@, crate::bodymap::decl_checks(m)), crate::validator::and_then(
        crate::text::first_error(i.trait_generics@, crate::bodymap::decl_checks(m)), crate::validator::and_then(
        match i.trait_id { None => Ok(()), Some(t) => crate::typemap::id_outcome(m, t) }, crate::validator::and_then(
        crate::typemap::type_outcome(m, v, i.receiver_pattern.pattern_type()), crate::validator::and_then(
        crate::typemap::list_outcome(m, v, i.trait_arg_types@), crate::validator::and_then(
        crate::text::first_error(i.associated_types@, assoc_checks(m, v)), crate::validator::and_then(
        crate::bodymap::bounds_outcome(m, v, i.bounds),
        crate::text::first_error(i.methods@, method_checks(m, v))))))))))
}

pub fn remap_impl_interface_ids(
    imp: &ImplInterface,
    id: ProductDefId,
    remap: &ProductIdentityRemap,
    type_validator: &ProductNominalTypeValidator,
) -> (r: Result<ImplInterface, String>)
    ensures
        r is Ok <==> impl_interface_ok(*remap, *type_validator, id, *imp),
        r matches Ok(i2) ==> impl_interface_map(*remap, id, *imp, i2),
        crate::typemap::outcome_is_res(r, impl_interface_outcome(*remap, *type_validator, id, *imp)),
{
    let new_id = remap.def_id(id)?;
    let type_generics = remapped_decls(&imp.type_generics, remap)?;
    let trait_generics = remapped_decls(&imp.trait_generics, remap)?;
    let trait_id = match imp.trait_id {
        None => None,
        Some(t) => Some(map_id(remap, t)?),
    };
    let receiver_pattern = remapped_receiver_pattern(&imp.receiver_pattern, remap, type_validator)?;
    let trait_arg_types = remapped_type_list(&imp.trait_arg_types, remap, type_validator)?;
    let associated_types = remapped_assoc_impls(&imp.associated_types, remap, type_validator)?;
    let bounds = remapped_generic_bounds(&imp.bounds, remap, type_validator)?;
    let methods = remapped_methods(&imp.methods, remap, type_validator)?;
    let trait_name = match &imp.trait_name {
        None => None,
        Some(n) => Some(n.clone()),
    };
    Ok(ImplInterface {
        id: new_id,
        owner: copy_owner(&imp.owner),
        self_name: imp.self_name.clone(),
        type_generics,
        receiver_pattern,
        trait_name,
        trait_id,
        trait_generics,
        trait_arg_types,
        associated_types,
        bounds,
        methods,
    })
}

} // verus!
