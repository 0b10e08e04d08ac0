use vstd::prelude::*;

use crate::artifact::{
    all_enums_ok, all_externs_ok, all_functions_ok, all_impls_ok, all_structs_ok, all_traits_ok, all_type_aliases_ok,
    CrossCrateHir,
};
use crate::authority::{authority_maps_ok, validate_product_method_authority_maps};
use crate::bodies::{
    check_trait_default_bodies, default_bodies_present, impl_body_map, impl_body_ok, remap_function_id, remap_impl_ids,
    remap_trait_ids, trait_bodies_map, trait_bodies_ok, Trait,
};
use crate::bodyspec::{function_ok, function_parts_map};
use crate::child::ProductChildLocationValidator;
use crate::collections::IdMap;
use crate::deps::dependency_tables_of;
use crate::hir::{Function, Impl};
use crate::ids::ProductDefId;
use crate::products::CompilerProducts;
use crate::remap::{CrateContext, ProductIdentityRemap};
use crate::rows::{body_rows_ok, validate_product_body_rows_have_interface};
use crate::validator::{DefinitionTables, ProductNominalTypeValidator};
use crate::artifact::{
    exports_as_map, derived_prelude, def_names_view, explicit_prelude, interface_from_products, interface_map, interface_ok,
    normalize_product_prelude_exports, prelude_ok, resolver_from_products, resolver_map, resolver_ok, ExternCrateLink,
    ExternCrateRecord,
};
use crate::langitems::{all_mapped, item_ids, language_items_from_products, language_items_ok, registry_map, validate_product_language_items};
use crate::rows::{
    backend_symbols_from_products, backend_symbols_ok, interface_rows_ok, link_records_ok, link_records_outcome, validate_object_link_records,
    validate_product_interface_rows,
};
use crate::text::{push_str, text};
use crate::ids::CrateId;

verus! {

/// Each function body of `s` remaps under its key.
pub open spec fn bodies_ok(m: ProductIdentityRemap, c: ProductChildLocationValidator, v: ProductNominalTypeValidator, s: Seq<(ProductDefId, Function)>) -> bool {
    forall|k: int| 0 <= k < s.len() ==> m.spec_def_id((#[trigger] s[k]).0) is Some && function_ok(m, c, v, s[k].1)
}

/// `out` holds each function body of `s` remapped under its key.
pub open spec fn bodies_map(m: ProductIdentityRemap, s: Seq<(ProductDefId, Function)>, out: Seq<Function>) -> bool {
    s.len() == out.len() && forall|k: int| 0 <= k < s.len() ==> m.spec_def_id((#[trigger] s[k]).0) == Some(out[k].id)
        && function_parts_map(m, s[k].1, out[k])
}

/// `msg` may be what remapping the function body `f` under the key `id`
/// reports: an unmapped key, then the error of the function.
pub open spec fn body_err(m: ProductIdentityRemap, c: ProductChildLocationValidator, v: ProductNominalTypeValidator, id: ProductDefId, f: Function, msg: Seq<char>) -> bool {
    if m.spec_def_id(id) is None {
        msg == crate::remap::msg_unmapped(id)
    } else {
        crate::bodymap::function_err(m, c, v, f, msg)
    }
}

/// `msg` is what remapping the first function body of `s` that fails
/// reports.
pub open spec fn bodies_err(m: ProductIdentityRemap, c: ProductChildLocationValidator, v: ProductNominalTypeValidator, s: Seq<(ProductDefId, Function)>, msg: Seq<char>) -> bool {
    exists|k: int| 0 <= k < s.len() && !(m.spec_def_id(s[k].0) is Some && function_ok(m, c, v, s[k].1))
        && (forall|j: int| 0 <= j < k ==> m.spec_def_id((#[trigger] s[j]).0) is Some && function_ok(m, c, v, s[j].1))
        && #[trigger] body_err(m, c, v, s[k].0, s[k].1, msg)
}

/// Each function body remapped under its key.
pub fn remap_all_bodies(
    s: &IdMap<Function>,
    remap: &ProductIdentityRemap,
    validator: &ProductChildLocationValidator,
    type_validator: &ProductNominalTypeValidator,
) -> (r: Result<Vec<Function>, String>)
    ensures
        r is Ok <==> bodies_ok(*remap, *validator, *type_validator, s@),
        r matches Ok(out) ==> bodies_map(*remap, s@, out@),
        r matches Err(e) ==> bodies_err(*remap, *validator, *type_validator, s@, e@),
{
    let mut out: Vec<Function> = Vec::new();
    let mut i: usize = 0;
    while i < s.len()
        invariant
            i <= s@.len(),
            out@.len() == i,
            forall|k: int| 0 <= k < i ==> remap.spec_def_id((#[trigger] s@[k]).0) is Some
                && function_ok(*remap, *validator, *type_validator, s@[k].1),
            forall|k: int| 0 <= k < i ==> remap.spec_def_id((#[trigger] s@[k]).0) == Some(out@[k].id)
                && function_parts_map(*remap, s@[k].1, out@[k]),
        decreases s@.len() - i,
    {
        let e = s.entry(i);
        let f = match remap_function_id(&e.1, e.0, remap, validator, type_validator) {
            Ok(f) => f,
            Err(er) => {
                proof {
                    let kk = i as int;
                    assert(body_err(*remap, *validator, *type_validator, s@[kk].0, s@[kk].1, er@));
                }
                return Err(er);
            },
        };
        out.push(f);
        i = i + 1;
    }
    Ok(out)
}

/// Each generic impl body of `s` remaps under its key.
pub open spec fn impl_bodies_ok(m: ProductIdentityRemap, c: ProductChildLocationValidator, v: ProductNominalTypeValidator, s: Seq<(ProductDefId, Impl)>) -> bool {
    forall|k: int| 0 <= k < s.len() ==> impl_body_ok(m, c, v, (#[trigger] s[k]).0, s[k].1)
}

/// `out` holds each generic impl body of `s` remapped under its key.
pub open spec fn impl_bodies_map(m: ProductIdentityRemap, cn: Seq<char>, s: Seq<(ProductDefId, Impl)>, out: Seq<Impl>) -> bool {
    s.len() == out.len() && forall|k: int| 0 <= k < s.len() ==> impl_body_map(m, cn, (#[trigger] s[k]).0, s[k].1, out[k])
}

/// `msg` is what remapping the first generic impl body of `s` that fails
/// reports.
pub open spec fn impl_bodies_err(m: ProductIdentityRemap, c: ProductChildLocationValidator, v: ProductNominalTypeValidator, s: Seq<(ProductDefId, Impl)>, msg: Seq<char>) -> bool {
    exists|k: int| 0 <= k < s.len() && !impl_body_ok(m, c, v, s[k].0, s[k].1)
        && (forall|j: int| 0 <= j < k ==> impl_body_ok(m, c, v, (#[trigger] s[j]).0, s[j].1))
        && #[trigger] crate::bodies::impl_body_err(m, c, v, s[k].0, s[k].1, msg)
}

/// Each generic impl body remapped under its key.
pub fn remap_all_impl_bodies(
    s: &IdMap<Impl>,
    crate_name: &str,
    remap: &ProductIdentityRemap,
    validator: &ProductChildLocationValidator,
    type_validator: &ProductNominalTypeValidator,
) -> (r: Result<Vec<Impl>, String>)
    ensures
        r is Ok <==> impl_bodies_ok(*remap, *validator, *type_validator, s@),
        r matches Ok(out) ==> impl_bodies_map(*remap, crate_name@, s@, out@),
        r matches Err(e) ==> impl_bodies_err(*remap, *validator, *type_validator, s@, e@),
{
    let mut out: Vec<Impl> = Vec::new();
    let mut i: usize = 0;
    while i < s.len()
        invariant
            i <= s@.len(),
            out@.len() == i,
            forall|k: int| 0 <= k < i ==> impl_body_ok(*remap, *validator, *type_validator, (#[trigger] s@[k]).0, s@[k].1),
            forall|k: int| 0 <= k < i ==> impl_body_map(*remap, crate_name@, (#[trigger] s@[k]).0, s@[k].1, out@[k]),
        decreases s@.len() - i,
    {
        let e = s.entry(i);
        let x = match remap_impl_ids(&e.1, e.0, crate_name, remap, validator, type_validator) {
            Ok(x) => x,
            Err(er) => {
                proof {
                    let kk = i as int;
                    assert(crate::bodies::impl_body_err(*remap, *validator, *type_validator, s@[kk].0, s@[kk].1, er@));
                }
                return Err(er);
            },
        };
        out.push(x);
        i = i + 1;
    }
    Ok(out)
}

/// Every interface row and every body of the artifact remaps under the
/// given validators.
pub open spec fn type_fields_ok(p: CompilerProducts, m: ProductIdentityRemap, c: ProductChildLocationValidator, v: ProductNominalTypeValidator) -> bool {
    &&& all_functions_ok(m, v, p.interface.functions@)
    &&& all_structs_ok(m, v, p.interface.structs@)
    &&& all_enums_ok(m, v, p.interface.enums@)
    &&& all_type_aliases_ok(m, v, p.interface.type_aliases@)
    &&& all_traits_ok(m, v, p.interface.traits@)
    &&& all_impls_ok(m, v, p.interface.impls@)
    &&& all_externs_ok(m, v, p.interface.externs@)
    &&& bodies_ok(m, c, v, p.bodies.functions@)
    &&& impl_bodies_ok(m, c, v, p.bodies.generic_impls@)
    &&& bodies_ok(m, c, v, p.bodies.trait_default_methods@)
}

/// `msg` may be what the type-field check reports: in order, the error of
/// the first declared function, struct, enum, type alias, trait, impl and
/// extern that fails, then of the first function body, generic impl body
/// and trait default body.
pub open spec fn type_fields_err(p: CompilerProducts, m: ProductIdentityRemap, c: ProductChildLocationValidator, v: ProductNominalTypeValidator, msg: Seq<char>) -> bool {
    let f = p.interface;
    let structs = crate::text::first_error(f.structs@, crate::artifact::struct_row_checks(m, v));
    let enums = crate::text::first_error(f.enums@, crate::artifact::enum_row_checks(m, v));
    let aliases = crate::text::first_error(f.type_aliases@, crate::artifact::alias_row_checks(m, v));
    let traits = crate::text::first_error(f.traits@, crate::artifact::trait_row_checks(m, v));
    let impls = crate::text::first_error(f.impls@, crate::artifact::impl_row_checks(m, v));
    let externs = crate::text::first_error(f.externs@, crate::artifact::extern_row_checks(m, v));
    if !crate::artifact::all_functions_ok(m, v, f.functions@) {
        crate::artifact::functions_err(m, v, f.functions@, msg)
    } else if structs is Err {
        structs == Err::<(), Seq<char>>(msg)
    } else if enums is Err {
        enums == Err::<(), Seq<char>>(msg)
    } else if aliases is Err {
        aliases == Err::<(), Seq<char>>(msg)
    } else if traits is Err {
        traits == Err::<(), Seq<char>>(msg)
    } else if impls is Err {
        impls == Err::<(), Seq<char>>(msg)
    } else if externs is Err {
        externs == Err::<(), Seq<char>>(msg)
    } else if !bodies_ok(m, c, v, p.bodies.functions@) {
        bodies_err(m, c, v, p.bodies.functions@, msg)
    } else if !impl_bodies_ok(m, c, v, p.bodies.generic_impls@) {
        impl_bodies_err(m, c, v, p.bodies.generic_impls@, msg)
    } else {
        bodies_err(m, c, v, p.bodies.trait_default_methods@, msg)
    }
}

/// Checks that every interface row and every body of the artifact remaps
/// under the given validators.
pub fn validate_product_type_fields_with(
    products: &CompilerProducts,
    remap: &ProductIdentityRemap,
    child_validator: &ProductChildLocationValidator,
    type_validator: &ProductNominalTypeValidator,
) -> (r: Result<(), String>)
    ensures
        r is Ok <==> type_fields_ok(*products, *remap, *child_validator, *type_validator),
        r matches Err(e) ==> type_fields_err(*products, *remap, *child_validator, *type_validator, e@),
{
    let f = &products.interface;
    crate::artifact::remap_all_functions(&f.functions, remap, type_validator)?;
    crate::artifact::remap_all_structs(&f.structs, remap, type_validator)?;
    crate::artifact::remap_all_enums(&f.enums, remap, type_validator)?;
    crate::artifact::remap_all_type_aliases(&f.type_aliases, remap, type_validator)?;
    crate::artifact::remap_all_traits(&f.traits, remap, type_validator)?;
    crate::artifact::remap_all_impls(&f.impls, remap, type_validator)?;
    crate::artifact::remap_all_externs(&f.externs, remap, type_validator)?;
    let b = &products.bodies;
    remap_all_bodies(&b.functions, remap, child_validator, type_validator)?;
    remap_all_impl_bodies(&b.generic_impls, products.crate_identity.name.as_str(), remap, child_validator, type_validator)?;
    remap_all_bodies(&b.trait_default_methods, remap, child_validator, type_validator)?;
    Ok(())
}

/// The validators that loading an artifact into `ctx` checks against.
#[verifier::opaque]
pub open spec fn context_validators(
    p: CompilerProducts,
    m: ProductIdentityRemap,
    deps: Seq<crate::artifact::ExternCrateRecord>,
    c: ProductChildLocationValidator,
    v: ProductNominalTypeValidator,
) -> bool {
    &&& crate::child::names_view(c.fields_by_id@) == crate::child::field_entries(p.interface) + crate::deps::dep_fields(m, deps)
    &&& crate::child::names_view(c.variants_by_id@) == crate::child::variant_names(p.interface.enums@) + crate::deps::dep_variants(m, deps)
    &&& v.local_crate == m.local_crate
    &&& crate::tables::tables_of(p.interface, v.local)
    &&& dependency_tables_of(m, deps, v.dependency)
}

/// Checks that every interface row and every body of the artifact remaps
/// against the artifact and the crates loaded into `ctx`.
pub fn validate_product_type_fields(products: &CompilerProducts, remap: &ProductIdentityRemap, ctx: &CrateContext) -> (r: Result<(), String>)
    ensures
        exists|c: ProductChildLocationValidator, v: ProductNominalTypeValidator|
            context_validators(*products, *remap, ctx.extern_crates@, c, v)
            && (r is Ok <==> type_fields_ok(*products, *remap, c, v)),
{
    let child_validator = ProductChildLocationValidator::from_products_with_context(products, remap, ctx);
    let type_validator = ProductNominalTypeValidator::from_products_with_context(products, remap, ctx);
    let r = validate_product_type_fields_with(products, remap, &child_validator, &type_validator);
    reveal(context_validators);
    assert(context_validators(*products, *remap, ctx.extern_crates@, child_validator, type_validator));
    r
}

// ----- bodies provided to dependents -----

/// The traits of `s` that provide methods remap with their default bodies.
pub open spec fn default_traits_ok(
    m: ProductIdentityRemap,
    c: ProductChildLocationValidator,
    v: ProductNominalTypeValidator,
    s: Seq<(ProductDefId, crate::products::TraitInterface)>,
    bodies: Seq<(ProductDefId, Function)>,
) -> bool {
    forall|k: int| 0 <= k < s.len() && (#[trigger] s[k]).1.methods@.len() > 0 ==> default_bodies_present(s[k].1, bodies)
        && trait_bodies_ok(m, c, v, s[k].0, s[k].1, bodies)
}

/// The traits of `s` that provide methods, in order.
pub open spec fn default_traits(s: Seq<(ProductDefId, crate::products::TraitInterface)>) -> Seq<(ProductDefId, crate::products::TraitInterface)>
    decreases s.len(),
{
    if s.len() == 0 {
        Seq::empty()
    } else if s.last().1.methods@.len() > 0 {
        default_traits(s.drop_last()).push(s.last())
    } else {
        default_traits(s.drop_last())
    }
}

/// Each trait of `s` that provides methods, with its default bodies, under
/// session identities.
#[verifier::loop_isolation(false)]
pub fn remap_default_traits(
    s: &IdMap<crate::products::TraitInterface>,
    bodies: &IdMap<Function>,
    remap: &ProductIdentityRemap,
    validator: &ProductChildLocationValidator,
    type_validator: &ProductNominalTypeValidator,
) -> (r: Result<Vec<Trait>, String>)
    ensures
        r is Ok <==> default_traits_ok(*remap, *validator, *type_validator, s@, bodies@),
        r matches Ok(out) ==> out@.len() == default_traits(s@).len() && forall|k: int| 0 <= k < out@.len()
            ==> trait_bodies_map(*remap, (#[trigger] default_traits(s@)[k]).0, default_traits(s@)[k].1, bodies@, out@[k]),
{
    let mut out: Vec<Trait> = Vec::new();
    let mut i: usize = 0;
    while i < s.len()
        invariant
            i <= s@.len(),
            default_traits_ok(*remap, *validator, *type_validator, s@.take(i as int), bodies@),
            out@.len() == default_traits(s@.take(i as int)).len(),
            forall|k: int| 0 <= k < out@.len() ==> trait_bodies_map(*remap, (#[trigger] default_traits(s@.take(i as int))[k]).0,
                default_traits(s@.take(i as int))[k].1, bodies@, out@[k]),
        decreases s@.len() - i,
    {
        let e = s.entry(i);
        proof {
            assert(s@.take(i + 1).drop_last() =~= s@.take(i as int));
            assert(s@.take(i + 1).last() == s@[i as int]);
        }
        if e.1.methods.len() > 0 {
            match check_trait_default_bodies(e.0, &e.1, bodies) {
                Ok(()) => {},
                Err(err) => {
                    assert(s@.take(i + 1)[i as int] == s@[i as int]);
                    return Err(err);
                },
            }
            match remap_trait_ids(&e.1, e.0, bodies, remap, validator, type_validator) {
                Ok(t) => {
                    out.push(t);
                },
                Err(err) => {
                    assert(s@.take(i + 1)[i as int] == s@[i as int]);
                    return Err(err);
                },
            }
        }
        proof {
            assert forall|k: int| 0 <= k < i + 1 && (#[trigger] s@.take(i + 1)[k]).1.methods@.len() > 0
                implies default_bodies_present(s@.take(i + 1)[k].1, bodies@)
                    && trait_bodies_ok(*remap, *validator, *type_validator, s@.take(i + 1)[k].0, s@.take(i + 1)[k].1, bodies@) by {
                if k < i {
                    assert(s@.take(i + 1)[k] == s@.take(i as int)[k]);
                }
            }
        }
        i = i + 1;
    }
    assert(s@.take(i as int) =~= s@);
    Ok(out)
}

/// The bodies that an artifact provides for its dependents are owed under
/// the given dependency tables and validators.
pub open spec fn cross_crate_ok(
    p: CompilerProducts,
    m: ProductIdentityRemap,
    deps: DefinitionTables,
    c: ProductChildLocationValidator,
    v: ProductNominalTypeValidator,
) -> bool {
    &&& body_rows_ok(p)
    &&& authority_maps_ok(p.interface, deps)
    &&& bodies_ok(m, c, v, p.bodies.functions@)
    &&& default_traits_ok(m, c, v, p.interface.traits@, p.bodies.trait_default_methods@)
    &&& impl_bodies_ok(m, c, v, p.bodies.generic_impls@)
}

/// `h` holds the artifact's generic function bodies, its traits with
/// default bodies and its generic impls, under session identities.
pub open spec fn cross_crate_map(p: CompilerProducts, m: ProductIdentityRemap, cn: Seq<char>, h: CrossCrateHir) -> bool {
    &&& bodies_map(m, p.bodies.functions@, h.generic_functions@)
    &&& h.traits_with_defaults@.len() == default_traits(p.interface.traits@).len()
    &&& forall|k: int| 0 <= k < h.traits_with_defaults@.len() ==> trait_bodies_map(m, (#[trigger] default_traits(p.interface.traits@)[k]).0,
        default_traits(p.interface.traits@)[k].1, p.bodies.trait_default_methods@, h.traits_with_defaults@[k])
    &&& impl_bodies_map(m, cn, p.bodies.generic_impls@, h.generic_impls@)
}

/// The bodies an artifact provides for its dependents, checked against the
/// artifact and the given dependency tables.
pub fn cross_crate_hir_with(
    products: &CompilerProducts,
    crate_name: &str,
    remap: &ProductIdentityRemap,
    dependencies: &DefinitionTables,
    validator: &ProductChildLocationValidator,
    type_validator: &ProductNominalTypeValidator,
) -> (r: Result<CrossCrateHir, String>)
    ensures
        r is Ok <==> cross_crate_ok(*products, *remap, *dependencies, *validator, *type_validator),
        r matches Ok(h) ==> cross_crate_map(*products, *remap, crate_name@, h),
{
    validate_product_body_rows_have_interface(products)?;
    validate_product_method_authority_maps(products, dependencies)?;
    let generic_functions = remap_all_bodies(&products.bodies.functions, remap, validator, type_validator)?;
    let traits_with_defaults = remap_default_traits(
        &products.interface.traits,
        &products.bodies.trait_default_methods,
        remap,
        validator,
        type_validator,
    )?;
    let generic_impls = remap_all_impl_bodies(&products.bodies.generic_impls, crate_name, remap, validator, type_validator)?;
    Ok(CrossCrateHir { generic_functions, traits_with_defaults, generic_impls })
}

/// The bodies an artifact provides for its dependents, checked against the
/// artifact and the crates loaded into `ctx`.
pub fn cross_crate_hir_from_products(
    products: &CompilerProducts,
    crate_name: &str,
    remap: &ProductIdentityRemap,
    ctx: &CrateContext,
) -> (r: Result<CrossCrateHir, String>)
    ensures
        exists|d: DefinitionTables, c: ProductChildLocationValidator, v: ProductNominalTypeValidator| {
            &&& dependency_tables_of(*remap, ctx.extern_crates@, d)
            &&& context_validators(*products, *remap, ctx.extern_crates@, c, v)
            &&& v.dependency == d
            &&& (r is Ok <==> cross_crate_ok(*products, *remap, d, c, v))
        },
        r matches Ok(h) ==> cross_crate_map(*products, *remap, crate_name@, h),
{
    let validator = ProductChildLocationValidator::from_products_with_context(products, remap, ctx);
    let type_validator = ProductNominalTypeValidator::from_products_with_context(products, remap, ctx);
    let r = cross_crate_hir_with(products, crate_name, remap, &type_validator.dependency, &validator, &type_validator);
    proof {
        reveal(context_validators);
        assert(dependency_tables_of(*remap, ctx.extern_crates@, type_validator.dependency));
        assert(context_validators(*products, *remap, ctx.extern_crates@, validator, type_validator));
    }
    r
}


// ----- the record of a loaded crate -----

/// Every stage of building a loaded crate's record succeeds, with `c` and
/// `v` the validators built from the crates loaded before it and `object`
/// where the artifact's object file was found.
#[verifier::opaque]
pub open spec fn stages_ok(
    p: CompilerProducts,
    m: ProductIdentityRemap,
    c: ProductChildLocationValidator,
    v: ProductNominalTypeValidator,
    object: Result<String, String>,
) -> bool {
    &&& m.spec_crate(m.local_crate) is Some
    &&& interface_rows_ok(p)
    &&& type_fields_ok(p, m, c, v)
    &&& language_items_ok(p)
    &&& all_mapped(m, item_ids(p.interface.language_items))
    &&& link_records_ok(p)
    &&& backend_symbols_ok(p, m)
    &&& (p.link.object_path is Some ==> object is Ok)
    &&& interface_ok(p, m, v)
    &&& resolver_ok(p, m)
    &&& cross_crate_ok(p, m, v.dependency, c, v)
    &&& prelude_ok(p, m, p.identity_table.prelude_export_names@)
}

/// `r` is the record of the artifact `p` loaded under `m` after the crates
/// `deps`, with its object file found at `object`.
#[verifier::opaque]
pub open spec fn record_of(
    p: CompilerProducts,
    m: ProductIdentityRemap,
    deps: Seq<ExternCrateRecord>,
    object: Result<String, String>,
    r: ExternCrateRecord,
) -> bool {
    let cn = p.crate_identity.name@;
    &&& m.spec_crate(m.local_crate) == Some(r.crate_id)
    &&& r.name@ == cn
    &&& interface_map(p, m, cn, r.interface)
    &&& resolver_map(p, m, cn, deps, r.resolver)
    &&& exports_as_map(r.prelude_export_ids@) == derived_prelude(
        def_names_view(r.interface.canonical_names@),
        def_names_view(r.interface.canonical_names@),
        cn + "::prelude"@,
        explicit_prelude(p, m, cn, p.identity_table.prelude_export_names@),
    )
    &&& registry_map(m, p.interface.language_items, r.language_items)
    &&& cross_crate_map(p, m, cn, r.bodies)
    &&& r.link.backend_symbols@.len() == p.link.records@.len()
    &&& forall|i: int| 0 <= i < r.link.backend_symbols@.len() ==> Some((#[trigger] r.link.backend_symbols@[i]).0)
        == m.spec_def_id(p.link.records@[i].0) && r.link.backend_symbols@[i].1@ == p.link.records@[i].1.backend_symbol@
    &&& match p.link.object_path {
        Some(_) => object matches Ok(o) && r.link.object_path matches Some(o2) && o2@ == o@,
        None => r.link.object_path is None,
    }
}

/// The stages before the link-record check pass: the artifact's own crate
/// is mapped, its interface rows and type fields are sound, and its
/// language-item registry is valid and mapped.
pub open spec fn before_link_ok(
    p: CompilerProducts,
    m: ProductIdentityRemap,
    c: ProductChildLocationValidator,
    v: ProductNominalTypeValidator,
) -> bool {
    &&& m.spec_crate(m.local_crate) is Some
    &&& interface_rows_ok(p)
    &&& type_fields_ok(p, m, c, v)
    &&& language_items_ok(p)
    &&& all_mapped(m, item_ids(p.interface.language_items))
}

/// `r` is what building the record under the validators `c` and `v`, the
/// ones the crates `deps` give, yields: a record exactly when every stage
/// passes, and the link-record check's error when it is the first stage to
/// fail.
pub open spec fn built_with(
    p: CompilerProducts,
    m: ProductIdentityRemap,
    deps: Seq<ExternCrateRecord>,
    object: Result<String, String>,
    r: Result<ExternCrateRecord, String>,
    c: ProductChildLocationValidator,
    v: ProductNominalTypeValidator,
) -> bool {
    &&& context_validators(p, m, deps, c, v)
    &&& (r is Ok <==> stages_ok(p, m, c, v, object))
    &&& (r matches Ok(rec) ==> crate::artifact::interface_tables_distinct(rec.interface))
    &&& (before_link_ok(p, m, c, v) && link_records_outcome(p) is Err
        ==> (r matches Err(e) && link_records_outcome(p) == Err::<(), Seq<char>>(e@)))
    &&& (m.spec_crate(m.local_crate) is Some && interface_rows_ok(p) && !type_fields_ok(p, m, c, v)
        ==> (r matches Err(e) && type_fields_err(p, m, c, v, e@)))
    &&& (m.spec_crate(m.local_crate) is Some && !interface_rows_ok(p) ==> (r matches Err(e) && crate::rows::rows_err(p, e@)))
}

/// In the record of a loaded crate, each canonical name
/// `<crate>::prelude::a` gives a prelude export keyed by `a`: the
/// canonical name with the crate's prelude path removed.
pub proof fn lemma_record_prelude_strips_prelude_path(
    p: CompilerProducts,
    m: ProductIdentityRemap,
    deps: Seq<ExternCrateRecord>,
    object: Result<String, String>,
    r: ExternCrateRecord,
    k: int,
)
    requires
        record_of(p, m, deps, object, r),
        0 <= k < r.interface.canonical_names@.len(),
        crate::text::has_prefix(r.interface.canonical_names@[k].1@, p.crate_identity.name@ + "::prelude"@ + "::"@),
    ensures
        exports_as_map(r.prelude_export_ids@).contains_key(r.interface.canonical_names@[k].1@.subrange(
            (p.crate_identity.name@ + "::prelude"@ + "::"@).len() as int, r.interface.canonical_names@[k].1@.len() as int)),
{
    reveal(record_of);
    let cn = p.crate_identity.name@;
    let all = def_names_view(r.interface.canonical_names@);
    crate::artifact::lemma_derived_prelude_strips_prefix(all, all, cn + "::prelude"@,
        explicit_prelude(p, m, cn, p.identity_table.prelude_export_names@));
    assert(all[k] == (r.interface.canonical_names@[k].0, r.interface.canonical_names@[k].1@));
}

/// The record of a loaded crate: its interface, resolver tables, prelude
/// exports, language items, bodies for dependents and link data, each
/// checked against the artifact and the crates loaded into `ctx`.
/// `object_path` is where the artifact's object file was found; it is
/// consulted only when the artifact records one.
pub fn extern_crate_from_products(
    products: &CompilerProducts,
    object_path: &Result<String, String>,
    remap: &ProductIdentityRemap,
    ctx: &CrateContext,
) -> (r: Result<ExternCrateRecord, String>)
    ensures
        exists|c: ProductChildLocationValidator, v: ProductNominalTypeValidator|
            #[trigger] built_with(*products, *remap, ctx.extern_crates@, *object_path, r, c, v),
        r matches Ok(rec) ==> record_of(*products, *remap, ctx.extern_crates@, *object_path, rec),
{
    let validator = ProductChildLocationValidator::from_products_with_context(products, remap, ctx);
    let type_validator = ProductNominalTypeValidator::from_products_with_context(products, remap, ctx);
    let r = extern_crate_with(products, object_path, remap, ctx, &validator, &type_validator);
    proof {
        reveal(context_validators);
        assert(context_validators(*products, *remap, ctx.extern_crates@, validator, type_validator));
        assert(r is Ok <==> stages_ok(*products, *remap, validator, type_validator, *object_path));
        assert(built_with(*products, *remap, ctx.extern_crates@, *object_path, r, validator, type_validator));
    }
    r
}

/// The record of a loaded crate, checked under the given validators.
#[verifier::spinoff_prover]
#[verifier::rlimit(100)]
pub fn extern_crate_with(
    products: &CompilerProducts,
    object_path: &Result<String, String>,
    remap: &ProductIdentityRemap,
    ctx: &CrateContext,
    validator: &ProductChildLocationValidator,
    type_validator: &ProductNominalTypeValidator,
) -> (r: Result<ExternCrateRecord, String>)
    ensures
        r is Ok <==> stages_ok(*products, *remap, *validator, *type_validator, *object_path),
        r matches Ok(rec) ==> record_of(*products, *remap, ctx.extern_crates@, *object_path, rec),
        r matches Ok(rec) ==> crate::artifact::interface_tables_distinct(rec.interface),
        before_link_ok(*products, *remap, *validator, *type_validator) && link_records_outcome(*products) is Err
            ==> (r matches Err(e) && link_records_outcome(*products) == Err::<(), Seq<char>>(e@)),
        remap.spec_crate(remap.local_crate) is Some && interface_rows_ok(*products)
            && !type_fields_ok(*products, *remap, *validator, *type_validator)
            ==> (r matches Err(e) && type_fields_err(*products, *remap, *validator, *type_validator, e@)),
        remap.spec_crate(remap.local_crate) is Some && !interface_rows_ok(*products)
            ==> (r matches Err(e) && crate::rows::rows_err(*products, e@)),
{
    proof {
        reveal(stages_ok);
        reveal(record_of);
    }
    let crate_name = products.crate_identity.name.clone();
    let crate_id = match remap.crate_of(remap.local_crate) {
        Some(c) => c,
        None => {
            let mut msg = text("Product artifact for crate '");
            push_str(&mut msg, crate_name.as_str());
            push_str(&mut msg, "' has no remapped local crate ID");
            return Err(msg);
        },
    };
    validate_product_interface_rows(products)?;
    validate_product_type_fields_with(products, remap, validator, type_validator)?;
    let language_items = language_items_from_products(products, remap)?;
    validate_object_link_records(products)?;
    let backend_symbols = backend_symbols_from_products(products, remap)?;
    let link = match &products.link.object_path {
        Some(_) => match object_path {
            Ok(o) => ExternCrateLink { object_path: Some(o.clone()), backend_symbols },
            Err(e) => return Err(e.clone()),
        },
        None => ExternCrateLink { object_path: None, backend_symbols },
    };
    let interface = interface_from_products(products, crate_name.as_str(), remap, type_validator)?;
    let resolver = resolver_from_products(products, crate_name.as_str(), remap, ctx)?;
    let bodies = cross_crate_hir_with(products, crate_name.as_str(), remap, &type_validator.dependency, validator, type_validator)?;
    let mut prelude_prefix = crate_name.clone();
    push_str(&mut prelude_prefix, "::prelude");
    proof {
        reveal_strlit("::prelude");
    }
    let prelude_export_ids = normalize_product_prelude_exports(products, remap, &interface, crate_name.as_str(), prelude_prefix.as_str())?;
    Ok(ExternCrateRecord {
        crate_id,
        name: crate_name,
        interface,
        resolver,
        prelude_export_ids,
        language_items,
        bodies,
        link,
    })
}

impl CrateContext {
    /// The message for a crate that is already loaded.
    pub open spec fn msg_duplicate(name: Seq<char>) -> Seq<char> {
        "Crate context refuses duplicate external crate '"@ + name + "'"@
    }

    /// A loaded crate with this name or this session crate.
    pub open spec fn has_loaded(self, name: Seq<char>, c: CrateId) -> bool {
        exists|i: int| 0 <= i < self.extern_crates@.len()
            && ((#[trigger] self.extern_crates@[i]).name@ == name || self.extern_crates@[i].crate_id == c)
    }

    /// No two loaded crates share a name or a session crate.
    pub open spec fn loaded_distinct(self) -> bool {
        forall|i: int, j: int| 0 <= i < j < self.extern_crates@.len() ==> {
            &&& (#[trigger] self.extern_crates@[i]).name@ != (#[trigger] self.extern_crates@[j]).name@
            &&& self.extern_crates@[i].crate_id != self.extern_crates@[j].crate_id
        }
    }

    /// Records a loaded crate, unless a crate with its name or session crate
    /// is already loaded. Loaded crates thus stay distinct by name and by
    /// session crate.
    pub fn add_extern_crate(&mut self, record: ExternCrateRecord) -> (r: Result<(), String>)
        ensures
            r is Ok <==> !old(self).has_loaded(record.name@, record.crate_id),
            old(self).loaded_distinct() ==> final(self).loaded_distinct(),
            r is Ok ==> final(self).extern_crates@ == old(self).extern_crates@.push(record)
                && final(self).product_crate_ids == old(self).product_crate_ids
                && final(self).next_crate_id == old(self).next_crate_id,
            r matches Err(e) ==> *final(self) == *old(self) && e@ == CrateContext::msg_duplicate(record.name@),
    {
        let mut i: usize = 0;
        while i < self.extern_crates.len()
            invariant
                i <= self.extern_crates@.len(),
                *self == *old(self),
                forall|j: int| 0 <= j < i ==> (#[trigger] self.extern_crates@[j]).name@ != record.name@
                    && self.extern_crates@[j].crate_id != record.crate_id,
            decreases self.extern_crates@.len() - i,
        {
            let dep = &self.extern_crates[i];
            if crate::text::str_eq(dep.name.as_str(), record.name.as_str()) || dep.crate_id == record.crate_id {
                let mut msg = text("Crate context refuses duplicate external crate '");
                push_str(&mut msg, record.name.as_str());
                push_str(&mut msg, "'");
                proof {
                    reveal_strlit("'");
                }
                return Err(msg);
            }
            i = i + 1;
        }
        let ghost rec = record;
        self.extern_crates.push(record);
        proof {
            let s = self.extern_crates@;
            if old(self).loaded_distinct() {
                assert forall|i: int, j: int| 0 <= i < j < s.len() implies {
                    &&& (#[trigger] s[i]).name@ != (#[trigger] s[j]).name@
                    &&& s[i].crate_id != s[j].crate_id
                } by {
                    if j == s.len() - 1 {
                        assert(s[i] == old(self).extern_crates@[i]);
                    } else {
                        assert(s[i] == old(self).extern_crates@[i] && s[j] == old(self).extern_crates@[j]);
                    }
                }
            }
        }
        Ok(())
    }

    /// The loaded crate with this name.
    pub fn extern_crate(&self, name: &str) -> (r: Option<&ExternCrateRecord>)
        ensures
            r matches Some(x) ==> x.name@ == name@ && self.extern_crates@.contains(*x),
            r is None ==> forall|i: int| 0 <= i < self.extern_crates@.len() ==> (#[trigger] self.extern_crates@[i]).name@ != name@,
    {
        let mut i: usize = 0;
        while i < self.extern_crates.len()
            invariant
                i <= self.extern_crates@.len(),
                forall|j: int| 0 <= j < i ==> (#[trigger] self.extern_crates@[j]).name@ != name@,
            decreases self.extern_crates@.len() - i,
        {
            if crate::text::str_eq(self.extern_crates[i].name.as_str(), name) {
                assert(self.extern_crates@[i as int] == self.extern_crates@[i as int]);
                return Some(&self.extern_crates[i]);
            }
            i = i + 1;
        }
        None
    }
}


fn copy_crate_ids(v: &Vec<(crate::products::ProductCrateIdentity, CrateId)>) -> (r: Vec<(crate::products::ProductCrateIdentity, CrateId)>)
    ensures
        r@.len() == v@.len(),
        forall|i: int| 0 <= i < v@.len() ==> (#[trigger] r@[i]).0.name@ == v@[i].0.name@
            && r@[i].0.fingerprint == v@[i].0.fingerprint && r@[i].1 == v@[i].1,
{
    let mut out: Vec<(crate::products::ProductCrateIdentity, CrateId)> = Vec::new();
    let mut i: usize = 0;
    while i < v.len()
        invariant
            i <= v@.len(),
            out@.len() == i,
            forall|j: int| 0 <= j < i ==> (#[trigger] out@[j]).0.name@ == v@[j].0.name@
                && out@[j].0.fingerprint == v@[j].0.fingerprint && out@[j].1 == v@[j].1,
        decreases v@.len() - i,
    {
        out.push((v[i].0.copy(), v[i].1));
        i = i + 1;
    }
    out
}

impl CrateContext {
    /// `after` is `before` with the artifact loaded: under some renumbering
    /// of its crates, with validators built from the crates loaded before,
    /// every stage passed, the record built from the artifact passed the
    /// name check, its name and session crate were free, and it was
    /// appended to the loaded crates; the artifact's own crate has the
    /// session crate the renumbering gave it. The renumbering is the one
    /// the session's records give: the identities recorded before stay, in
    /// order and with their session crates, the artifact's own crate and its
    /// dependencies get the session crates of their identities, and the
    /// identities recorded now are the artifact's, numbered on from the
    /// session's next free number. Each declaration table of the record
    /// names every definition at most once.
    pub open spec fn loaded(before: CrateContext, after: CrateContext, products: CompilerProducts, object_path: Result<String, String>) -> bool {
        exists|m: ProductIdentityRemap, c: ProductChildLocationValidator, v: ProductNominalTypeValidator, rec: ExternCrateRecord| {
            &&& context_validators(products, m, before.extern_crates@, c, v)
            &&& stages_ok(products, m, c, v, object_path)
            &&& record_of(products, m, before.extern_crates@, object_path, rec)
            &&& crate::names::interface_names_ok(rec.interface, rec.resolver)
            &&& !before.has_loaded(rec.name@, rec.crate_id)
            &&& after.extern_crates@ == before.extern_crates@.push(rec)
            &&& m.spec_crate(m.local_crate) == after.spec_crate_for(products.crate_identity)
            &&& crate::remap::remapped(before.product_crate_ids@, products, after, m)
            &&& crate::remap::numbered(before.product_crate_ids@, before.next_crate_id, products, after)
            &&& crate::artifact::interface_tables_distinct(rec.interface)
        }
    }

    /// What a load of `products` into `before` needs to succeed: the
    /// language-item registry passes, the artifact names its own crate, no
    /// dependency is at fault, session crate numbers remain, and under every
    /// renumbering of its crates into the session, with the validators built
    /// from the crates loaded before, every stage passes and the record built
    /// has conflict-free names and a name and session crate not yet loaded.
    pub open spec fn load_owed(before: CrateContext, products: CompilerProducts, object_path: Result<String, String>) -> bool {
        &&& CrateContext::load_passes(before, products, object_path)
        &&& forall|after: CrateContext, m: ProductIdentityRemap, c: ProductChildLocationValidator, v: ProductNominalTypeValidator|
            #![trigger crate::remap::remapped(before.product_crate_ids@, products, after, m), context_validators(products, m, before.extern_crates@, c, v)]
            crate::remap::remapped(before.product_crate_ids@, products, after, m)
                && context_validators(products, m, before.extern_crates@, c, v) ==> {
                forall|rec: ExternCrateRecord| #[trigger] record_of(products, m, before.extern_crates@, object_path, rec)
                    ==> !before.has_loaded(rec.name@, rec.crate_id)
            }
    }

    /// The artifact reaches the session's own checks: the registry passes,
    /// the artifact names its crate, no dependency is at fault, crate numbers
    /// remain, and under every renumbering into the session, with the
    /// validators built from the crates loaded before, every stage passes
    /// and the record built has conflict-free names.
    pub open spec fn load_passes(before: CrateContext, products: CompilerProducts, object_path: Result<String, String>) -> bool {
        &&& CrateContext::load_renumbers(before, products)
        &&& forall|after: CrateContext, m: ProductIdentityRemap, c: ProductChildLocationValidator, v: ProductNominalTypeValidator|
            #![trigger crate::remap::remapped(before.product_crate_ids@, products, after, m), context_validators(products, m, before.extern_crates@, c, v)]
            crate::remap::remapped(before.product_crate_ids@, products, after, m)
                && context_validators(products, m, before.extern_crates@, c, v) ==> {
                &&& stages_ok(products, m, c, v, object_path)
                &&& forall|rec: ExternCrateRecord| #[trigger] record_of(products, m, before.extern_crates@, object_path, rec)
                    ==> crate::names::interface_names_ok(rec.interface, rec.resolver)
            }
    }

    /// The artifact gets its session crates: the registry passes, the
    /// artifact names its crate, no dependency is at fault and crate numbers
    /// remain.
    pub open spec fn load_renumbers(before: CrateContext, products: CompilerProducts) -> bool {
        let deps = products.identity_table.dependencies@;
        &&& language_items_ok(products)
        &&& products.identity_table.local_crate is Some
        &&& forall|i: int| 0 <= i < deps.len() ==> !crate::remap::dep_fault(
            before.product_crate_ids@, products, products.identity_table.local_crate.unwrap(), i)
        &&& crate::remap::numbers_remain(before.next_crate_id, products)
    }

    /// The artifact reaches the type-field check and fails it: it gets its
    /// session crates, its interface rows are sound, and under every
    /// renumbering into the session its type fields fail.
    pub open spec fn load_fails_fields(before: CrateContext, products: CompilerProducts) -> bool {
        &&& CrateContext::load_renumbers(before, products)
        &&& interface_rows_ok(products)
        &&& forall|after: CrateContext, m: ProductIdentityRemap, c: ProductChildLocationValidator, v: ProductNominalTypeValidator|
            #![trigger crate::remap::remapped(before.product_crate_ids@, products, after, m), context_validators(products, m, before.extern_crates@, c, v)]
            crate::remap::remapped(before.product_crate_ids@, products, after, m)
                && context_validators(products, m, before.extern_crates@, c, v) ==> !type_fields_ok(products, m, c, v)
    }

    /// `e` is what the type-field check reports under some renumbering of
    /// the artifact into the session, with the validators built from the
    /// crates loaded before.
    pub open spec fn fields_error(before: CrateContext, products: CompilerProducts, e: Seq<char>) -> bool {
        exists|after: CrateContext, m: ProductIdentityRemap, c: ProductChildLocationValidator, v: ProductNominalTypeValidator| {
            &&& #[trigger] crate::remap::remapped(before.product_crate_ids@, products, after, m)
            &&& #[trigger] context_validators(products, m, before.extern_crates@, c, v)
            &&& type_fields_err(products, m, c, v, e)
        }
    }

    /// The artifact reaches the link-record check: it gets its session
    /// crates, its interface rows are sound, and under every renumbering
    /// into the session its type fields pass and its registry is mapped.
    pub open spec fn load_reaches_links(before: CrateContext, products: CompilerProducts) -> bool {
        &&& CrateContext::load_renumbers(before, products)
        &&& forall|after: CrateContext, m: ProductIdentityRemap, c: ProductChildLocationValidator, v: ProductNominalTypeValidator|
            #![trigger crate::remap::remapped(before.product_crate_ids@, products, after, m), context_validators(products, m, before.extern_crates@, c, v)]
            crate::remap::remapped(before.product_crate_ids@, products, after, m)
                && context_validators(products, m, before.extern_crates@, c, v) ==> before_link_ok(products, m, c, v)
    }

    /// A load keeps what the session knew: every identity recorded before
    /// keeps its session crate, and the crates loaded before stay loaded.
    pub proof fn lemma_load_keeps_identities(
        before: CrateContext,
        after: CrateContext,
        products: CompilerProducts,
        object_path: Result<String, String>,
        x: crate::products::ProductCrateIdentity,
    )
        requires
            before.wf(),
            CrateContext::loaded(before, after, products, object_path),
            before.spec_crate_for(x) is Some,
        ensures
            after.spec_crate_for(x) == before.spec_crate_for(x),
            after.extern_crates@.len() == before.extern_crates@.len() + 1,
            forall|i: int| 0 <= i < before.extern_crates@.len() ==> after.extern_crates@[i] == #[trigger] before.extern_crates@[i],
    {
        let (m, c, v, rec) = choose|m: ProductIdentityRemap, c: ProductChildLocationValidator, v: ProductNominalTypeValidator, rec: ExternCrateRecord| {
            &&& context_validators(products, m, before.extern_crates@, c, v)
            &&& stages_ok(products, m, c, v, object_path)
            &&& record_of(products, m, before.extern_crates@, object_path, rec)
            &&& crate::names::interface_names_ok(rec.interface, rec.resolver)
            &&& !before.has_loaded(rec.name@, rec.crate_id)
            &&& after.extern_crates@ == before.extern_crates@.push(rec)
            &&& m.spec_crate(m.local_crate) == after.spec_crate_for(products.crate_identity)
            &&& crate::remap::remapped(before.product_crate_ids@, products, after, m)
            &&& crate::remap::numbered(before.product_crate_ids@, before.next_crate_id, products, after)
        };
        let b = before.product_crate_ids@;
        let a = after.product_crate_ids@;
        let k = choose|k: int| 0 <= k < b.len() && crate::remap::same_identity((#[trigger] b[k]).0, x);
        assert(crate::remap::ident(a[k].0) == crate::remap::ident(b[k].0));
        assert(crate::remap::same_identity(a[k].0, x));
        let ka = choose|i: int| 0 <= i < a.len() && crate::remap::same_identity((#[trigger] a[i]).0, x);
        if ka != k {
            if ka < k {
                assert(!crate::remap::same_identity(a[ka].0, a[k].0));
            } else {
                assert(!crate::remap::same_identity(a[k].0, a[ka].0));
            }
        }
        let kb = choose|i: int| 0 <= i < b.len() && crate::remap::same_identity((#[trigger] b[i]).0, x);
        if kb != k {
            if kb < k {
                assert(!crate::remap::same_identity(b[kb].0, b[k].0));
            } else {
                assert(!crate::remap::same_identity(b[k].0, b[kb].0));
            }
        }
    }

    /// Loads a decoded product artifact into the session. Its language
    /// items are checked, its crates get session crates, its record is built
    /// and checked against the crates loaded before, and the names of its
    /// interface are checked; only when every step succeeds is the session
    /// changed, by the new crate identities and the new record.
    /// `object_path` is where the artifact's object file was found,
    /// consulted only when the artifact records one.
    #[verifier::spinoff_prover]
    #[verifier::rlimit(60)]
    pub fn load_product_artifact_from_path(&mut self, products: &CompilerProducts, object_path: &Result<String, String>) -> (r: Result<(), String>)
        requires
            old(self).wf(),
        ensures
            final(self).wf(),
            old(self).loaded_distinct() ==> final(self).loaded_distinct(),
            r is Err ==> *final(self) == *old(self),
            !language_items_ok(*products) ==> (r matches Err(e) && crate::langitems::registry_outcome(*products) == Err::<(), Seq<char>>(e@)),
            products.identity_table.local_crate is None ==> (r matches Err(e)
                && e@ == crate::remap::msg_no_local_crate(products.crate_identity.name@)),
            (exists|i: int| 0 <= i < products.identity_table.dependencies@.len() && crate::remap::dep_fault(
                old(self).product_crate_ids@, *products, products.identity_table.local_crate.unwrap(), i)) ==> r is Err,
            language_items_ok(*products) && products.identity_table.local_crate is Some ==> forall|i: int|
                crate::remap::first_fault(old(self).product_crate_ids@, *products, products.identity_table.local_crate.unwrap(), i)
                ==> (r matches Err(e) && (e@ == crate::remap::dep_fault_message(old(self).product_crate_ids@, *products,
                    products.identity_table.local_crate.unwrap(), i) || (e@ == crate::remap::msg_crate_ids_exhausted()
                    && !crate::remap::numbers_remain(old(self).next_crate_id, *products)))),
            (exists|i: int| 0 <= i < old(self).extern_crates@.len()
                && (#[trigger] old(self).extern_crates@[i]).name@ == products.crate_identity.name@) ==> r is Err,
            CrateContext::load_owed(*old(self), *products, *object_path) ==> r is Ok,
            CrateContext::load_passes(*old(self), *products, *object_path)
                && (exists|i: int| 0 <= i < old(self).extern_crates@.len()
                    && (#[trigger] old(self).extern_crates@[i]).name@ == products.crate_identity.name@)
                ==> (r matches Err(e) && e@ == CrateContext::msg_duplicate(products.crate_identity.name@)),
            CrateContext::load_reaches_links(*old(self), *products) && link_records_outcome(*products) is Err
                ==> (r matches Err(e) && link_records_outcome(*products) == Err::<(), Seq<char>>(e@)),
            CrateContext::load_fails_fields(*old(self), *products)
                ==> (r matches Err(e) && CrateContext::fields_error(*old(self), *products, e@)),
            CrateContext::load_renumbers(*old(self), *products) && !interface_rows_ok(*products)
                ==> (r matches Err(e) && crate::rows::rows_err(*products, e@)),
            r is Ok ==> CrateContext::loaded(*old(self), *final(self), *products, *object_path),
    {
        validate_product_language_items(products)?;
        let mut staged = CrateContext {
            product_crate_ids: copy_crate_ids(&self.product_crate_ids),
            next_crate_id: self.next_crate_id,
            extern_crates: Vec::new(),
        };
        proof {
            assert forall|i: int, j: int| 0 <= i < j < staged.product_crate_ids@.len() implies !crate::remap::same_identity(
                (#[trigger] staged.product_crate_ids@[i]).0,
                (#[trigger] staged.product_crate_ids@[j]).0,
            ) && staged.product_crate_ids@[i].1 != staged.product_crate_ids@[j].1 by {
                assert(!crate::remap::same_identity(self.product_crate_ids@[i].0, self.product_crate_ids@[j].0));
            }
            assert forall|i: int| 0 <= i < staged.product_crate_ids@.len() implies 0 < (#[trigger] staged.product_crate_ids@[i]).1.0 < staged.next_crate_id by {
                assert(0 < self.product_crate_ids@[i].1.0 < self.next_crate_id);
            }
        }
        let ghost staged_ids = staged.product_crate_ids@;
        let remap = match ProductIdentityRemap::from_products(&mut staged, products) {
            Ok(m) => m,
            Err(e) => {
                proof {
                    assert(crate::remap::recorded(staged_ids) =~= crate::remap::recorded(self.product_crate_ids@));
                    if CrateContext::load_renumbers(*self, *products) {
                        let lc = products.identity_table.local_crate.unwrap();
                        assert forall|i: int| 0 <= i < products.identity_table.dependencies@.len() implies
                            !crate::remap::dep_fault(staged_ids, *products, lc, i) by {
                            assert(crate::remap::known_before(staged_ids, *products, i) == crate::remap::known_before(self.product_crate_ids@, *products, i));
                            assert(!crate::remap::dep_fault(self.product_crate_ids@, *products, lc, i));
                        }
                    }
                    if products.identity_table.local_crate is Some && !(e@ == crate::remap::msg_crate_ids_exhausted()
                        && !crate::remap::numbers_remain(self.next_crate_id, *products)) {
                        let lc = products.identity_table.local_crate.unwrap();
                        let j = choose|j: int| crate::remap::first_fault(staged_ids, *products, lc, j)
                            && e@ == crate::remap::dep_fault_message(staged_ids, *products, lc, j);
                        assert forall|q: int| 0 <= q < products.identity_table.dependencies@.len() implies
                            crate::remap::known_before(staged_ids, *products, q) == crate::remap::known_before(self.product_crate_ids@, *products, q) by {}
                        assert forall|i: int| crate::remap::first_fault(self.product_crate_ids@, *products, lc, i)
                            implies e@ == crate::remap::dep_fault_message(self.product_crate_ids@, *products, lc, i) by {
                            assert(crate::remap::known_before(staged_ids, *products, i) == crate::remap::known_before(self.product_crate_ids@, *products, i));
                            assert(crate::remap::known_before(staged_ids, *products, j) == crate::remap::known_before(self.product_crate_ids@, *products, j));
                            if i < j {
                                assert(!crate::remap::dep_fault(staged_ids, *products, lc, i));
                            } else if j < i {
                                assert(!crate::remap::dep_fault(self.product_crate_ids@, *products, lc, j));
                            }
                        }
                    }
                }
                return Err(e);
            },
        };
        proof {
            assert(crate::remap::recorded(staged_ids) =~= crate::remap::recorded(self.product_crate_ids@));
            assert forall|i: int| 0 <= i < products.identity_table.dependencies@.len() implies !crate::remap::dep_fault(
                self.product_crate_ids@, *products, products.identity_table.local_crate.unwrap(), i) by {
                assert(crate::remap::known_before(staged_ids, *products, i) == crate::remap::known_before(self.product_crate_ids@, *products, i));
                assert(!crate::remap::dep_fault(staged_ids, *products, products.identity_table.local_crate.unwrap(), i));
            }
        }
        proof {
            assert forall|j: int| 0 <= j < self.product_crate_ids@.len() implies crate::remap::ident(
                (#[trigger] staged.product_crate_ids@[j]).0) == crate::remap::ident(self.product_crate_ids@[j].0)
                && staged.product_crate_ids@[j].1 == self.product_crate_ids@[j].1 by {
                assert(staged.product_crate_ids@[j] == staged_ids[j]);
            }
            assert(crate::remap::remapped(self.product_crate_ids@, *products, staged, remap));
        }
        let built = extern_crate_from_products(products, object_path, &remap, self);
        let ghost (c, v) = choose|c: ProductChildLocationValidator, v: ProductNominalTypeValidator|
            built_with(*products, remap, self.extern_crates@, *object_path, built, c, v);
        proof {
            assert(context_validators(*products, remap, self.extern_crates@, c, v));
            assert(crate::remap::remapped(self.product_crate_ids@, *products, staged, remap));
            if CrateContext::load_passes(*self, *products, *object_path) {
                assert(crate::remap::remapped(self.product_crate_ids@, *products, staged, remap)
                    && context_validators(*products, remap, self.extern_crates@, c, v));
                assert(stages_ok(*products, remap, c, v, *object_path));
            }
            if CrateContext::load_reaches_links(*self, *products) {
                assert(crate::remap::remapped(self.product_crate_ids@, *products, staged, remap)
                    && context_validators(*products, remap, self.extern_crates@, c, v));
                assert(before_link_ok(*products, remap, c, v));
            }
            if CrateContext::load_fails_fields(*self, *products) {
                assert(crate::remap::remapped(self.product_crate_ids@, *products, staged, remap)
                    && context_validators(*products, remap, self.extern_crates@, c, v));
                assert(!type_fields_ok(*products, remap, c, v));
                let e = built->Err_0;
                assert(type_fields_err(*products, remap, c, v, e@));
                assert(CrateContext::fields_error(*self, *products, e@));
            }
        }
        let record = built?;
        proof {
            reveal(record_of);
            assert(record.name@ == products.crate_identity.name@);
            if CrateContext::load_passes(*self, *products, *object_path) {
                assert(crate::remap::remapped(self.product_crate_ids@, *products, staged, remap)
                    && context_validators(*products, remap, self.extern_crates@, c, v));
                assert(record_of(*products, remap, self.extern_crates@, *object_path, record));
                assert(crate::names::interface_names_ok(record.interface, record.resolver));
            }
            if CrateContext::load_owed(*self, *products, *object_path) {
                assert(crate::remap::remapped(self.product_crate_ids@, *products, staged, remap)
                    && context_validators(*products, remap, self.extern_crates@, c, v));
                assert(record_of(*products, remap, self.extern_crates@, *object_path, record));
                assert(!self.has_loaded(record.name@, record.crate_id));
            }
            if exists|i: int| 0 <= i < self.extern_crates@.len()
                && (#[trigger] self.extern_crates@[i]).name@ == products.crate_identity.name@ {
                assert(self.has_loaded(record.name@, record.crate_id));
            }
        }
        crate::names::intern_loaded_interface_types(&record.interface, &record.resolver)?;
        let ghost rec = record;
        let ghost before = *self;
        let ghost staged_view = staged;
        self.add_extern_crate(record)?;
        self.product_crate_ids = staged.product_crate_ids;
        self.next_crate_id = staged.next_crate_id;
        proof {
            assert(self.product_crate_ids@ == staged_view.product_crate_ids@);
            assert(self.spec_crate_for(products.crate_identity) == staged_view.spec_crate_for(products.crate_identity));
            assert(context_validators(*products, remap, old(self).extern_crates@, c, v));
            assert(stages_ok(*products, remap, c, v, *object_path));
            assert(record_of(*products, remap, old(self).extern_crates@, *object_path, rec));
            reveal(record_of);
            assert(rec.name@ == products.crate_identity.name@);
        }
        Ok(())
    }

    /// The message for an artifact whose crate is not the one it was
    /// loaded as.
    pub open spec fn msg_name_mismatch(artifact_path: Seq<char>, declared: Seq<char>, expected: Seq<char>) -> Seq<char> {
        "Product artifact "@ + artifact_path + " declares crate '"@ + declared + "', but --extern-artifact used name '"@
            + expected + "'"@
    }

    /// Loads a decoded product artifact that is expected to declare the
    /// crate `expected_name`; `artifact_path` is the file it was read from,
    /// as the message shows it. An artifact of another crate is refused
    /// before anything else is checked.
    pub fn load_product_artifact_as(
        &mut self,
        expected_name: &str,
        artifact_path: &str,
        products: &CompilerProducts,
        object_path: &Result<String, String>,
    ) -> (r: Result<(), String>)
        requires
            old(self).wf(),
        ensures
            final(self).wf(),
            old(self).loaded_distinct() ==> final(self).loaded_distinct(),
            r is Err ==> *final(self) == *old(self),
            products.crate_identity.name@ != expected_name@ ==> (r matches Err(e)
                && e@ == CrateContext::msg_name_mismatch(artifact_path@, products.crate_identity.name@, expected_name@)),
            !language_items_ok(*products) ==> r is Err,
            products.crate_identity.name@ == expected_name@ && !language_items_ok(*products)
                ==> (r matches Err(e) && crate::langitems::registry_outcome(*products) == Err::<(), Seq<char>>(e@)),
            products.identity_table.local_crate is None ==> r is Err,
            products.crate_identity.name@ == expected_name@ && products.identity_table.local_crate is None ==> (r matches Err(e)
                && e@ == crate::remap::msg_no_local_crate(products.crate_identity.name@)),
            products.crate_identity.name@ == expected_name@ && language_items_ok(*products)
                && products.identity_table.local_crate is Some ==> forall|i: int|
                crate::remap::first_fault(old(self).product_crate_ids@, *products, products.identity_table.local_crate.unwrap(), i)
                ==> (r matches Err(e) && (e@ == crate::remap::dep_fault_message(old(self).product_crate_ids@, *products,
                    products.identity_table.local_crate.unwrap(), i) || (e@ == crate::remap::msg_crate_ids_exhausted()
                    && !crate::remap::numbers_remain(old(self).next_crate_id, *products)))),
            products.crate_identity.name@ == expected_name@ && CrateContext::load_owed(*old(self), *products, *object_path)
                ==> r is Ok,
            products.crate_identity.name@ == expected_name@ && CrateContext::load_passes(*old(self), *products, *object_path)
                && (exists|i: int| 0 <= i < old(self).extern_crates@.len()
                    && (#[trigger] old(self).extern_crates@[i]).name@ == products.crate_identity.name@)
                ==> (r matches Err(e) && e@ == CrateContext::msg_duplicate(products.crate_identity.name@)),
            products.crate_identity.name@ == expected_name@ && CrateContext::load_reaches_links(*old(self), *products)
                && link_records_outcome(*products) is Err
                ==> (r matches Err(e) && link_records_outcome(*products) == Err::<(), Seq<char>>(e@)),
            products.crate_identity.name@ == expected_name@ && CrateContext::load_fails_fields(*old(self), *products)
                ==> (r matches Err(e) && CrateContext::fields_error(*old(self), *products, e@)),
            products.crate_identity.name@ == expected_name@ && CrateContext::load_renumbers(*old(self), *products)
                && !interface_rows_ok(*products) ==> (r matches Err(e) && crate::rows::rows_err(*products, e@)),
            r is Ok ==> products.crate_identity.name@ == expected_name@
                && CrateContext::loaded(*old(self), *final(self), *products, *object_path),
    {
        if !crate::text::str_eq(products.crate_identity.name.as_str(), expected_name) {
            let mut msg = text("Product artifact ");
            push_str(&mut msg, artifact_path);
            push_str(&mut msg, " declares crate '");
            push_str(&mut msg, products.crate_identity.name.as_str());
            push_str(&mut msg, "', but --extern-artifact used name '");
            push_str(&mut msg, expected_name);
            push_str(&mut msg, "'");
            proof {
                reveal_strlit("'");
            }
            return Err(msg);
        }
        self.load_product_artifact_from_path(products, object_path)
    }
}

} // verus!
