use vstd::prelude::*;

use crate::bodies::{qualified_name, qualify_product_name, Trait};
use crate::collections::{has_key, lookup, IdMap};
use crate::hir::{Function, Impl};
use crate::ids::{spec_product_of, CrateId, DefId, ProductDefId};
use crate::products::{
    CompilerProducts, EnumInterface, ExternInterface, FunctionInterface, ImplInterface, LanguageItems, StructInterface,
    TraitInterface, TypeAliasInterface,
};
use crate::remap::ProductIdentityRemap;
use crate::text::{first_error, has_prefix, lemma_first_error_at, lemma_first_error_step, push_str, text};
use crate::interface::{
    alias_interface_map, alias_interface_ok, enum_interface_map, enum_interface_ok, extern_interface_map, extern_interface_ok,
    function_interface_map, function_interface_ok, impl_interface_map, impl_interface_ok, remap_enum_interface_id,
    remap_extern_interface_id, remap_function_interface_id, remap_impl_interface_ids, remap_struct_interface_id,
    remap_trait_interface_ids, remap_type_alias_interface_id, struct_interface_map, struct_interface_ok, trait_interface_map,
    trait_interface_ok,
};
use crate::validator::ProductNominalTypeValidator;

verus! {

/// An exported name: the canonical path it stands for and the definition.
#[derive(Debug)]
pub struct ArtifactExport {
    pub source: String,
    pub id: DefId,
}

/// What a loaded crate declares, under session identities.
#[derive(Debug)]
pub struct ArtifactCrateInterface {
    pub root_export_ids: Vec<(String, ArtifactExport)>,
    /// Each definition with its crate-qualified display name; a later
    /// entry for the same definition replaces an earlier one.
    pub canonical_names: Vec<(DefId, String)>,
    pub functions: Vec<FunctionInterface>,
    pub structs: Vec<StructInterface>,
    pub enums: Vec<EnumInterface>,
    pub type_aliases: Vec<TypeAliasInterface>,
    pub traits: Vec<TraitInterface>,
    pub impls: Vec<ImplInterface>,
    pub externs: Vec<ExternInterface>,
    pub effective_trait_methods: Vec<((DefId, DefId), DefId)>,
}

/// The names under which a loaded crate's definitions resolve; a later
/// entry for the same key replaces an earlier one.
#[derive(Debug)]
pub struct ResolverTables {
    pub item_paths: Vec<(String, DefId)>,
    pub item_names_by_id: Vec<(DefId, String)>,
    pub export_aliases: Vec<(String, DefId)>,
    /// Import aliases: alias, canonical source, definition.
    pub import_aliases: Vec<(String, String, DefId)>,
    /// Module aliases: alias, canonical source, definition.
    pub module_aliases: Vec<(String, String, DefId)>,
}

/// The bodies a loaded crate provides for use by its dependents.
#[derive(Debug)]
pub struct CrossCrateHir {
    pub generic_functions: Vec<Function>,
    pub traits_with_defaults: Vec<Trait>,
    pub generic_impls: Vec<Impl>,
}

/// How a loaded crate links: its object file, if it has one, and the
/// backend symbol of each linkable definition.
#[derive(Debug)]
pub struct ExternCrateLink {
    pub object_path: Option<String>,
    pub backend_symbols: Vec<(DefId, String)>,
}

/// A loaded crate as the session records it.
#[derive(Debug)]
pub struct ExternCrateRecord {
    pub crate_id: CrateId,
    pub name: String,
    pub interface: ArtifactCrateInterface,
    pub resolver: ResolverTables,
    pub prelude_export_ids: Vec<(String, ArtifactExport)>,
    pub language_items: LanguageItems<DefId>,
    pub bodies: CrossCrateHir,
    pub link: ExternCrateLink,
}

impl ResolverTables {
    pub fn new() -> (r: ResolverTables)
        ensures
            r.item_paths@.len() == 0,
            r.item_names_by_id@.len() == 0,
            r.export_aliases@.len() == 0,
            r.import_aliases@.len() == 0,
            r.module_aliases@.len() == 0,
    {
        ResolverTables {
            item_paths: Vec::new(),
            item_names_by_id: Vec::new(),
            export_aliases: Vec::new(),
            import_aliases: Vec::new(),
            module_aliases: Vec::new(),
        }
    }
}

impl ArtifactCrateInterface {
    pub fn new() -> (r: ArtifactCrateInterface)
        ensures
            r.root_export_ids@.len() == 0,
            r.canonical_names@.len() == 0,
            r.functions@.len() == 0,
            r.structs@.len() == 0,
            r.enums@.len() == 0,
            r.type_aliases@.len() == 0,
            r.traits@.len() == 0,
            r.impls@.len() == 0,
            r.externs@.len() == 0,
            r.effective_trait_methods@.len() == 0,
    {
        ArtifactCrateInterface {
            root_export_ids: Vec::new(),
            canonical_names: Vec::new(),
            functions: Vec::new(),
            structs: Vec::new(),
            enums: Vec::new(),
            type_aliases: Vec::new(),
            traits: Vec::new(),
            impls: Vec::new(),
            externs: Vec::new(),
            effective_trait_methods: Vec::new(),
        }
    }
}

// ----- which product identities name definitions -----

/// `id` is a top-level definition of the interface (not an impl).
pub open spec fn has_item(p: CompilerProducts, id: ProductDefId) -> bool {
    ||| has_key(p.interface.functions@, id)
    ||| has_key(p.interface.structs@, id)
    ||| has_key(p.interface.enums@, id)
    ||| has_key(p.interface.type_aliases@, id)
    ||| has_key(p.interface.traits@, id)
    ||| has_key(p.interface.externs@, id)
}

/// `id` is embedded by one of the methods `ms`.
pub open spec fn names_method(ms: Seq<(String, FunctionInterface)>, id: ProductDefId) -> bool {
    exists|k: int| 0 <= k < ms.len() && spec_product_of((#[trigger] ms[k]).1.id) == id
}

/// `id` has a canonical binding: it is a top-level definition or a method
/// of a trait or impl of the interface.
pub open spec fn has_binding(p: CompilerProducts, id: ProductDefId) -> bool {
    ||| has_item(p, id)
    ||| exists|k: int| 0 <= k < p.interface.traits@.len() && names_method((#[trigger] p.interface.traits@[k]).1.methods@, id)
    ||| exists|k: int| 0 <= k < p.interface.impls@.len() && names_method((#[trigger] p.interface.impls@[k]).1.methods@, id)
}

fn method_named(ms: &Vec<(String, FunctionInterface)>, id: ProductDefId) -> (r: bool)
    ensures
        r == names_method(ms@, id),
{
    let mut k: usize = 0;
    while k < ms.len()
        invariant
            k <= ms@.len(),
            forall|j: int| 0 <= j < k ==> spec_product_of((#[trigger] ms@[j]).1.id) != id,
        decreases ms@.len() - k,
    {
        if ProductDefId::from_def_id(ms[k].1.id) == id {
            return true;
        }
        k = k + 1;
    }
    false
}

/// Whether `id` is a top-level definition of the interface.
pub fn product_id_has_item(products: &CompilerProducts, id: ProductDefId) -> (r: bool)
    ensures
        r == has_item(*products, id),
        top_level_key(*products, id) ==> r,
{
    proof {
        if top_level_key(*products, id) {
            lemma_top_level_items(*products, id);
        }
    }
    let f = &products.interface;
    f.functions.contains_key(id) || f.structs.contains_key(id) || f.enums.contains_key(id)
        || f.type_aliases.contains_key(id) || f.traits.contains_key(id) || f.externs.contains_key(id)
}

/// Whether `id` has a canonical binding in the artifact's interface.
#[verifier::loop_isolation(false)]
pub fn product_id_has_canonical_binding(products: &CompilerProducts, id: ProductDefId) -> (r: bool)
    ensures
        r == has_binding(*products, id),
{
    if product_id_has_item(products, id) {
        return true;
    }
    let f = &products.interface;
    let mut k: usize = 0;
    while k < f.traits.len()
        invariant
            k <= f.traits@.len(),
            forall|j: int| 0 <= j < k ==> !names_method((#[trigger] f.traits@[j]).1.methods@, id),
        decreases f.traits@.len() - k,
    {
        let e = f.traits.entry(k);
        if method_named(&e.1.methods, id) {
            assert(names_method(f.traits@[k as int].1.methods@, id));
            return true;
        }
        k = k + 1;
    }
    let mut k: usize = 0;
    while k < f.impls.len()
        invariant
            k <= f.impls@.len(),
            forall|j: int| 0 <= j < k ==> !names_method((#[trigger] f.impls@[j]).1.methods@, id),
            forall|j: int| 0 <= j < f.traits@.len() ==> !names_method((#[trigger] f.traits@[j]).1.methods@, id),
        decreases f.impls@.len() - k,
    {
        let e = f.impls.entry(k);
        if method_named(&e.1.methods, id) {
            assert(names_method(f.impls@[k as int].1.methods@, id));
            return true;
        }
        k = k + 1;
    }
    false
}

/// The session identity of a definition with a canonical binding; `None`
/// for any other identity.
pub fn product_def_id_to_existing_def_id(products: &CompilerProducts, remap: &ProductIdentityRemap, id: ProductDefId) -> (r: Result<Option<DefId>, String>)
    ensures
        r is Err <==> has_binding(*products, id) && remap.spec_def_id(id) is None,
        r matches Err(e) ==> e@ == crate::remap::msg_unmapped(id),
        r matches Ok(o) ==> o == (if has_binding(*products, id) { remap.spec_def_id(id) } else { None }),
{
    if product_id_has_canonical_binding(products, id) {
        Ok(Some(remap.def_id(id)?))
    } else {
        Ok(None)
    }
}

/// The session identity of a top-level definition that a prelude can
/// export; `None` for any other identity.
pub fn product_def_id_to_prelude_export_def_id(products: &CompilerProducts, remap: &ProductIdentityRemap, id: ProductDefId) -> (r: Result<Option<DefId>, String>)
    ensures
        r is Err <==> has_item(*products, id) && remap.spec_def_id(id) is None,
        r matches Err(e) ==> e@ == crate::remap::msg_unmapped(id),
        r matches Ok(o) ==> o == (if has_item(*products, id) { remap.spec_def_id(id) } else { None }),
{
    if product_id_has_item(products, id) {
        Ok(Some(remap.def_id(id)?))
    } else {
        Ok(None)
    }
}

/// The session identity an alias may stand for: a definition with a
/// canonical binding, or any definition of another crate.
pub open spec fn alias_target(p: CompilerProducts, id: ProductDefId) -> bool {
    has_binding(p, id) || p.identity_table.local_crate != Some(id.crate_id)
}

pub fn product_def_id_to_alias_def_id(products: &CompilerProducts, remap: &ProductIdentityRemap, id: ProductDefId) -> (r: Result<Option<DefId>, String>)
    ensures
        r is Err <==> alias_target(*products, id) && remap.spec_def_id(id) is None,
        r matches Err(e) ==> e@ == crate::remap::msg_unmapped(id),
        r matches Ok(o) ==> o == (if alias_target(*products, id) { remap.spec_def_id(id) } else { None }),
{
    let foreign = match products.identity_table.local_crate {
        Some(c) => c != id.crate_id,
        None => true,
    };
    if product_id_has_canonical_binding(products, id) || foreign {
        Ok(Some(remap.def_id(id)?))
    } else {
        Ok(None)
    }
}

/// The display name recorded for `id`.
pub fn product_display_name(products: &CompilerProducts, id: ProductDefId) -> (r: Option<String>)
    ensures
        match lookup(products.identity_table.display_names@, id) {
            Some(n) => r matches Some(s) && s@ == n@,
            None => r is None,
        },
{
    match products.identity_table.display_names.get(id) {
        Some(n) => Some(n.clone()),
        None => None,
    }
}


// ----- the interface under session identities -----

/// Each declared function remaps under its key.
pub open spec fn all_functions_ok(m: ProductIdentityRemap, v: ProductNominalTypeValidator, s: Seq<(ProductDefId, FunctionInterface)>) -> bool {
    forall|k: int| 0 <= k < s.len() ==> function_interface_ok(m, v, (#[trigger] s[k]).0, s[k].1)
}

/// `out` holds each entry of `s` remapped under its key, in key order.
pub open spec fn all_functions_map(m: ProductIdentityRemap, s: Seq<(ProductDefId, FunctionInterface)>, out: Seq<FunctionInterface>) -> bool {
    s.len() == out.len() && forall|k: int| 0 <= k < s.len() ==> function_interface_map(m, (#[trigger] s[k]).0, s[k].1, out[k])
}

pub fn remap_all_functions(items: &IdMap<FunctionInterface>, remap: &ProductIdentityRemap, type_validator: &ProductNominalTypeValidator) -> (r: Result<Vec<FunctionInterface>, String>)
    ensures
        r is Ok <==> all_functions_ok(*remap, *type_validator, items@),
        r matches Ok(out) ==> all_functions_map(*remap, items@, out@),
        r matches Err(e) ==> functions_err(*remap, *type_validator, items@, e@),
{
    let mut out: Vec<FunctionInterface> = Vec::new();
    let mut i: usize = 0;
    while i < items.len()
        invariant
            i <= items@.len(),
            out@.len() == i,
            forall|k: int| 0 <= k < i ==> function_interface_ok(*remap, *type_validator, (#[trigger] items@[k]).0, items@[k].1),
            forall|k: int| 0 <= k < i ==> function_interface_map(*remap, (#[trigger] items@[k]).0, items@[k].1, out@[k]),
        decreases items@.len() - i,
    {
        let e = items.entry(i);
        let x = match remap_function_interface_id(&e.1, e.0, remap, type_validator) {
            Ok(x) => x,
            Err(er) => {
                proof {
                    let kk = i as int;
                    assert(!function_interface_ok(*remap, *type_validator, items@[kk].0, items@[kk].1));
                    assert(crate::interface::function_interface_err(*remap, *type_validator, items@[kk].0, items@[kk].1, er@));
                }
                return Err(er);
            },
        };
        out.push(x);
        i = i + 1;
    }
    Ok(out)
}

/// `msg` is what remapping the first declared function that fails reports.
pub open spec fn functions_err(m: ProductIdentityRemap, v: ProductNominalTypeValidator, s: Seq<(ProductDefId, FunctionInterface)>, msg: Seq<char>) -> bool {
    exists|k: int| 0 <= k < s.len() && !function_interface_ok(m, v, s[k].0, s[k].1)
        && (forall|j: int| 0 <= j < k ==> function_interface_ok(m, v, (#[trigger] s[j]).0, s[j].1))
        && #[trigger] crate::interface::function_interface_err(m, v, s[k].0, s[k].1, msg)
}

/// Each declared struct remaps under its key.
pub open spec fn all_structs_ok(m: ProductIdentityRemap, v: ProductNominalTypeValidator, s: Seq<(ProductDefId, StructInterface)>) -> bool {
    forall|k: int| 0 <= k < s.len() ==> struct_interface_ok(m, v, (#[trigger] s[k]).0, s[k].1)
}

/// `out` holds each entry of `s` remapped under its key, in key order.
pub open spec fn all_structs_map(m: ProductIdentityRemap, s: Seq<(ProductDefId, StructInterface)>, out: Seq<StructInterface>) -> bool {
    s.len() == out.len() && forall|k: int| 0 <= k < s.len() ==> struct_interface_map(m, (#[trigger] s[k]).0, s[k].1, out[k])
}

/// The check of each declared struct row: its remap under its key.
pub open spec fn struct_row_checks(m: ProductIdentityRemap, v: ProductNominalTypeValidator) -> spec_fn((ProductDefId, StructInterface)) -> Result<(), Seq<char>> {
    |e: (ProductDefId, StructInterface)| crate::interface::struct_interface_outcome(m, v, e.0, e.1)
}

pub fn remap_all_structs(items: &IdMap<StructInterface>, remap: &ProductIdentityRemap, type_validator: &ProductNominalTypeValidator) -> (r: Result<Vec<StructInterface>, String>)
    ensures
        r is Ok <==> all_structs_ok(*remap, *type_validator, items@),
        r matches Ok(out) ==> all_structs_map(*remap, items@, out@),
        crate::typemap::outcome_is_res(r, crate::text::first_error(items@, struct_row_checks(*remap, *type_validator))),
{
    let ghost ck = struct_row_checks(*remap, *type_validator);
    let mut out: Vec<StructInterface> = Vec::new();
    let mut i: usize = 0;
    while i < items.len()
        invariant
            i <= items@.len(),
            out@.len() == i,
            ck == struct_row_checks(*remap, *type_validator),
            crate::text::first_error(items@.take(i as int), ck) is Ok,
            forall|k: int| 0 <= k < i ==> struct_interface_ok(*remap, *type_validator, (#[trigger] items@[k]).0, items@[k].1),
            forall|k: int| 0 <= k < i ==> struct_interface_map(*remap, (#[trigger] items@[k]).0, items@[k].1, out@[k]),
        decreases items@.len() - i,
    {
        let e = items.entry(i);
        let x = match remap_struct_interface_id(&e.1, e.0, remap, type_validator) {
            Ok(x) => x,
            Err(er) => {
                proof {
                    assert(ck(items@[i as int]) == Err::<(), Seq<char>>(er@));
                    crate::text::lemma_first_error_at(items@, ck, i as int);
                }
                return Err(er);
            },
        };
        proof { crate::text::lemma_first_error_step(items@, ck, i as int); }
        out.push(x);
        i = i + 1;
    }
    proof { assert(items@.take(items@.len() as int) =~= items@); }
    Ok(out)
}

/// Each declared enum remaps under its key.
pub open spec fn all_enums_ok(m: ProductIdentityRemap, v: ProductNominalTypeValidator, s: Seq<(ProductDefId, EnumInterface)>) -> bool {
    forall|k: int| 0 <= k < s.len() ==> enum_interface_ok(m, v, (#[trigger] s[k]).0, s[k].1)
}

/// `out` holds each entry of `s` remapped under its key, in key order.
pub open spec fn all_enums_map(m: ProductIdentityRemap, s: Seq<(ProductDefId, EnumInterface)>, out: Seq<EnumInterface>) -> bool {
    s.len() == out.len() && forall|k: int| 0 <= k < s.len() ==> enum_interface_map(m, (#[trigger] s[k]).0, s[k].1, out[k])
}

/// The check of each declared enum row: its remap under its key.
pub open spec fn enum_row_checks(m: ProductIdentityRemap, v: ProductNominalTypeValidator) -> spec_fn((ProductDefId, EnumInterface)) -> Result<(), Seq<char>> {
    |e: (ProductDefId, EnumInterface)| crate::interface::enum_interface_outcome(m, v, e.0, e.1)
}

pub fn remap_all_enums(items: &IdMap<EnumInterface>, remap: &ProductIdentityRemap, type_validator: &ProductNominalTypeValidator) -> (r: Result<Vec<EnumInterface>, String>)
    ensures
        r is Ok <==> all_enums_ok(*remap, *type_validator, items@),
        r matches Ok(out) ==> all_enums_map(*remap, items@, out@),
        crate::typemap::outcome_is_res(r, crate::text::first_error(items@, enum_row_checks(*remap, *type_validator))),
{
    let ghost ck = enum_row_checks(*remap, *type_validator);
    let mut out: Vec<EnumInterface> = Vec::new();
    let mut i: usize = 0;
    while i < items.len()
        invariant
            i <= items@.len(),
            out@.len() == i,
            ck == enum_row_checks(*remap, *type_validator),
            crate::text::first_error(items@.take(i as int), ck) is Ok,
            forall|k: int| 0 <= k < i ==> enum_interface_ok(*remap, *type_validator, (#[trigger] items@[k]).0, items@[k].1),
            forall|k: int| 0 <= k < i ==> enum_interface_map(*remap, (#[trigger] items@[k]).0, items@[k].1, out@[k]),
        decreases items@.len() - i,
    {
        let e = items.entry(i);
        let x = match remap_enum_interface_id(&e.1, e.0, remap, type_validator) {
            Ok(x) => x,
            Err(er) => {
                proof {
                    assert(ck(items@[i as int]) == Err::<(), Seq<char>>(er@));
                    crate::text::lemma_first_error_at(items@, ck, i as int);
                }
                return Err(er);
            },
        };
        proof { crate::text::lemma_first_error_step(items@, ck, i as int); }
        out.push(x);
        i = i + 1;
    }
    proof { assert(items@.take(items@.len() as int) =~= items@); }
    Ok(out)
}

/// Each declared type alias remaps under its key.
pub open spec fn all_type_aliases_ok(m: ProductIdentityRemap, v: ProductNominalTypeValidator, s: Seq<(ProductDefId, TypeAliasInterface)>) -> bool {
    forall|k: int| 0 <= k < s.len() ==> alias_interface_ok(m, v, (#[trigger] s[k]).0, s[k].1)
}

/// `out` holds each entry of `s` remapped under its key, in key order.
pub open spec fn all_type_aliases_map(m: ProductIdentityRemap, s: Seq<(ProductDefId, TypeAliasInterface)>, out: Seq<TypeAliasInterface>) -> bool {
    s.len() == out.len() && forall|k: int| 0 <= k < s.len() ==> alias_interface_map(m, (#[trigger] s[k]).0, s[k].1, out[k])
}

/// The check of each declared alias row: its remap under its key.
pub open spec fn alias_row_checks(m: ProductIdentityRemap, v: ProductNominalTypeValidator) -> spec_fn((ProductDefId, TypeAliasInterface)) -> Result<(), Seq<char>> {
    |e: (ProductDefId, TypeAliasInterface)| crate::interface::alias_interface_outcome(m, v, e.0, e.1)
}

pub fn remap_all_type_aliases(items: &IdMap<TypeAliasInterface>, remap: &ProductIdentityRemap, type_validator: &ProductNominalTypeValidator) -> (r: Result<Vec<TypeAliasInterface>, String>)
    ensures
        r is Ok <==> all_type_aliases_ok(*remap, *type_validator, items@),
        r matches Ok(out) ==> all_type_aliases_map(*remap, items@, out@),
        crate::typemap::outcome_is_res(r, crate::text::first_error(items@, alias_row_checks(*remap, *type_validator))),
{
    let ghost ck = alias_row_checks(*remap, *type_validator);
    let mut out: Vec<TypeAliasInterface> = Vec::new();
    let mut i: usize = 0;
    while i < items.len()
        invariant
            i <= items@.len(),
            out@.len() == i,
            ck == alias_row_checks(*remap, *type_validator),
            crate::text::first_error(items@.take(i as int), ck) is Ok,
            forall|k: int| 0 <= k < i ==> alias_interface_ok(*remap, *type_validator, (#[trigger] items@[k]).0, items@[k].1),
            forall|k: int| 0 <= k < i ==> alias_interface_map(*remap, (#[trigger] items@[k]).0, items@[k].1, out@[k]),
        decreases items@.len() - i,
    {
        let e = items.entry(i);
        let x = match remap_type_alias_interface_id(&e.1, e.0, remap, type_validator) {
            Ok(x) => x,
            Err(er) => {
                proof {
                    assert(ck(items@[i as int]) == Err::<(), Seq<char>>(er@));
                    crate::text::lemma_first_error_at(items@, ck, i as int);
                }
                return Err(er);
            },
        };
        proof { crate::text::lemma_first_error_step(items@, ck, i as int); }
        out.push(x);
        i = i + 1;
    }
    proof { assert(items@.take(items@.len() as int) =~= items@); }
    Ok(out)
}

/// Each declared trait remaps under its key.
pub open spec fn all_traits_ok(m: ProductIdentityRemap, v: ProductNominalTypeValidator, s: Seq<(ProductDefId, TraitInterface)>) -> bool {
    forall|k: int| 0 <= k < s.len() ==> trait_interface_ok(m, v, (#[trigger] s[k]).0, s[k].1)
}

/// `out` holds each entry of `s` remapped under its key, in key order.
pub open spec fn all_traits_map(m: ProductIdentityRemap, s: Seq<(ProductDefId, TraitInterface)>, out: Seq<TraitInterface>) -> bool {
    s.len() == out.len() && forall|k: int| 0 <= k < s.len() ==> trait_interface_map(m, (#[trigger] s[k]).0, s[k].1, out[k])
}

/// The check of each declared trait row: its remap under its key.
pub open spec fn trait_row_checks(m: ProductIdentityRemap, v: ProductNominalTypeValidator) -> spec_fn((ProductDefId, TraitInterface)) -> Result<(), Seq<char>> {
    |e: (ProductDefId, TraitInterface)| crate::interface::trait_interface_outcome(m, v, e.0, e.1)
}

pub fn remap_all_traits(items: &IdMap<TraitInterface>, remap: &ProductIdentityRemap, type_validator: &ProductNominalTypeValidator) -> (r: Result<Vec<TraitInterface>, String>)
    ensures
        r is Ok <==> all_traits_ok(*remap, *type_validator, items@),
        r matches Ok(out) ==> all_traits_map(*remap, items@, out@),
        crate::typemap::outcome_is_res(r, crate::text::first_error(items@, trait_row_checks(*remap, *type_validator))),
{
    let ghost ck = trait_row_checks(*remap, *type_validator);
    let mut out: Vec<TraitInterface> = Vec::new();
    let mut i: usize = 0;
    while i < items.len()
        invariant
            i <= items@.len(),
            out@.len() == i,
            ck == trait_row_checks(*remap, *type_validator),
            crate::text::first_error(items@.take(i as int), ck) is Ok,
            forall|k: int| 0 <= k < i ==> trait_interface_ok(*remap, *type_validator, (#[trigger] items@[k]).0, items@[k].1),
            forall|k: int| 0 <= k < i ==> trait_interface_map(*remap, (#[trigger] items@[k]).0, items@[k].1, out@[k]),
        decreases items@.len() - i,
    {
        let e = items.entry(i);
        let x = match remap_trait_interface_ids(&e.1, e.0, remap, type_validator) {
            Ok(x) => x,
            Err(er) => {
                proof {
                    assert(ck(items@[i as int]) == Err::<(), Seq<char>>(er@));
                    crate::text::lemma_first_error_at(items@, ck, i as int);
                }
                return Err(er);
            },
        };
        proof { crate::text::lemma_first_error_step(items@, ck, i as int); }
        out.push(x);
        i = i + 1;
    }
    proof { assert(items@.take(items@.len() as int) =~= items@); }
    Ok(out)
}

/// Each declared impl remaps under its key.
pub open spec fn all_impls_ok(m: ProductIdentityRemap, v: ProductNominalTypeValidator, s: Seq<(ProductDefId, ImplInterface)>) -> bool {
    forall|k: int| 0 <= k < s.len() ==> impl_interface_ok(m, v, (#[trigger] s[k]).0, s[k].1)
}

/// `out` holds each entry of `s` remapped under its key, in key order.
pub open spec fn all_impls_map(m: ProductIdentityRemap, s: Seq<(ProductDefId, ImplInterface)>, out: Seq<ImplInterface>) -> bool {
    s.len() == out.len() && forall|k: int| 0 <= k < s.len() ==> impl_interface_map(m, (#[trigger] s[k]).0, s[k].1, out[k])
}

/// The check of each declared impl row: its remap under its key.
pub open spec fn impl_row_checks(m: ProductIdentityRemap, v: ProductNominalTypeValidator) -> spec_fn((ProductDefId, ImplInterface)) -> Result<(), Seq<char>> {
    |e: (ProductDefId, ImplInterface)| crate::interface::impl_interface_outcome(m, v, e.0, e.1)
}

pub fn remap_all_impls(items: &IdMap<ImplInterface>, remap: &ProductIdentityRemap, type_validator: &ProductNominalTypeValidator) -> (r: Result<Vec<ImplInterface>, String>)
    ensures
        r is Ok <==> all_impls_ok(*remap, *type_validator, items@),
        r matches Ok(out) ==> all_impls_map(*remap, items@, out@),
        crate::typemap::outcome_is_res(r, crate::text::first_error(items@, impl_row_checks(*remap, *type_validator))),
{
    let ghost ck = impl_row_checks(*remap, *type_validator);
    let mut out: Vec<ImplInterface> = Vec::new();
    let mut i: usize = 0;
    while i < items.len()
        invariant
            i <= items@.len(),
            out@.len() == i,
            ck == impl_row_checks(*remap, *type_validator),
            crate::text::first_error(items@.take(i as int), ck) is Ok,
            forall|k: int| 0 <= k < i ==> impl_interface_ok(*remap, *type_validator, (#[trigger] items@[k]).0, items@[k].1),
            forall|k: int| 0 <= k < i ==> impl_interface_map(*remap, (#[trigger] items@[k]).0, items@[k].1, out@[k]),
        decreases items@.len() - i,
    {
        let e = items.entry(i);
        let x = match remap_impl_interface_ids(&e.1, e.0, remap, type_validator) {
            Ok(x) => x,
            Err(er) => {
                proof {
                    assert(ck(items@[i as int]) == Err::<(), Seq<char>>(er@));
                    crate::text::lemma_first_error_at(items@, ck, i as int);
                }
                return Err(er);
            },
        };
        proof { crate::text::lemma_first_error_step(items@, ck, i as int); }
        out.push(x);
        i = i + 1;
    }
    proof { assert(items@.take(items@.len() as int) =~= items@); }
    Ok(out)
}

/// Each declared extern remaps under its key.
pub open spec fn all_externs_ok(m: ProductIdentityRemap, v: ProductNominalTypeValidator, s: Seq<(ProductDefId, ExternInterface)>) -> bool {
    forall|k: int| 0 <= k < s.len() ==> extern_interface_ok(m, v, (#[trigger] s[k]).0, s[k].1)
}

/// `out` holds each entry of `s` remapped under its key, in key order.
pub open spec fn all_externs_map(m: ProductIdentityRemap, s: Seq<(ProductDefId, ExternInterface)>, out: Seq<ExternInterface>) -> bool {
    s.len() == out.len() && forall|k: int| 0 <= k < s.len() ==> extern_interface_map(m, (#[trigger] s[k]).0, s[k].1, out[k])
}

/// The check of each declared extern row: its remap under its key.
pub open spec fn extern_row_checks(m: ProductIdentityRemap, v: ProductNominalTypeValidator) -> spec_fn((ProductDefId, ExternInterface)) -> Result<(), Seq<char>> {
    |e: (ProductDefId, ExternInterface)| crate::interface::extern_interface_outcome(m, v, e.0, e.1)
}

pub fn remap_all_externs(items: &IdMap<ExternInterface>, remap: &ProductIdentityRemap, type_validator: &ProductNominalTypeValidator) -> (r: Result<Vec<ExternInterface>, String>)
    ensures
        r is Ok <==> all_externs_ok(*remap, *type_validator, items@),
        r matches Ok(out) ==> all_externs_map(*remap, items@, out@),
        crate::typemap::outcome_is_res(r, crate::text::first_error(items@, extern_row_checks(*remap, *type_validator))),
{
    let ghost ck = extern_row_checks(*remap, *type_validator);
    let mut out: Vec<ExternInterface> = Vec::new();
    let mut i: usize = 0;
    while i < items.len()
        invariant
            i <= items@.len(),
            out@.len() == i,
            ck == extern_row_checks(*remap, *type_validator),
            crate::text::first_error(items@.take(i as int), ck) is Ok,
            forall|k: int| 0 <= k < i ==> extern_interface_ok(*remap, *type_validator, (#[trigger] items@[k]).0, items@[k].1),
            forall|k: int| 0 <= k < i ==> extern_interface_map(*remap, (#[trigger] items@[k]).0, items@[k].1, out@[k]),
        decreases items@.len() - i,
    {
        let e = items.entry(i);
        let x = match remap_extern_interface_id(&e.1, e.0, remap, type_validator) {
            Ok(x) => x,
            Err(er) => {
                proof {
                    assert(ck(items@[i as int]) == Err::<(), Seq<char>>(er@));
                    crate::text::lemma_first_error_at(items@, ck, i as int);
                }
                return Err(er);
            },
        };
        proof { crate::text::lemma_first_error_step(items@, ck, i as int); }
        out.push(x);
        i = i + 1;
    }
    proof { assert(items@.take(items@.len() as int) =~= items@); }
    Ok(out)
}


// ----- canonical names and root exports -----

/// The session view of a list of names by definition.
pub open spec fn def_names_view(s: Seq<(DefId, String)>) -> Seq<(DefId, Seq<char>)> {
    s.map_values(|e: (DefId, String)| (e.0, e.1@))
}

/// The canonical names an artifact's display names give: each display
/// name of a definition with a canonical binding, qualified by the crate.
pub open spec fn canonical_entries(p: CompilerProducts, m: ProductIdentityRemap, cn: Seq<char>, s: Seq<(ProductDefId, String)>) -> Seq<(DefId, Seq<char>)>
    decreases s.len(),
{
    if s.len() == 0 {
        Seq::empty()
    } else {
        let rest = canonical_entries(p, m, cn, s.drop_last());
        if has_binding(p, s.last().0) {
            rest.push((m.spec_def_id(s.last().0).unwrap(), qualified_name(cn, s.last().1@)))
        } else {
            rest
        }
    }
}

/// A top-level definition: a key of the interface's function, struct,
/// enum, type alias, trait or extern table.
pub open spec fn top_level_key(p: CompilerProducts, id: ProductDefId) -> bool {
    ||| exists|k: int| 0 <= k < p.interface.functions@.len() && (#[trigger] p.interface.functions@[k]).0 == id
    ||| exists|k: int| 0 <= k < p.interface.structs@.len() && (#[trigger] p.interface.structs@[k]).0 == id
    ||| exists|k: int| 0 <= k < p.interface.enums@.len() && (#[trigger] p.interface.enums@[k]).0 == id
    ||| exists|k: int| 0 <= k < p.interface.type_aliases@.len() && (#[trigger] p.interface.type_aliases@[k]).0 == id
    ||| exists|k: int| 0 <= k < p.interface.traits@.len() && (#[trigger] p.interface.traits@[k]).0 == id
    ||| exists|k: int| 0 <= k < p.interface.externs@.len() && (#[trigger] p.interface.externs@[k]).0 == id
}

proof fn lemma_canonical_entries_include(p: CompilerProducts, m: ProductIdentityRemap, cn: Seq<char>, s: Seq<(ProductDefId, String)>, k: int)
    requires
        0 <= k < s.len(),
        has_binding(p, s[k].0),
    ensures
        canonical_entries(p, m, cn, s).contains((m.spec_def_id(s[k].0).unwrap(), qualified_name(cn, s[k].1@))),
    decreases s.len(),
{
    let rest = canonical_entries(p, m, cn, s.drop_last());
    if k == s.len() - 1 {
        assert(canonical_entries(p, m, cn, s) == rest.push((m.spec_def_id(s.last().0).unwrap(), qualified_name(cn, s.last().1@))));
        assert(canonical_entries(p, m, cn, s)[rest.len() as int] == (m.spec_def_id(s[k].0).unwrap(), qualified_name(cn, s[k].1@)));
    } else {
        assert(s.drop_last()[k] == s[k]);
        lemma_canonical_entries_include(p, m, cn, s.drop_last(), k);
        let e = (m.spec_def_id(s[k].0).unwrap(), qualified_name(cn, s[k].1@));
        let j = choose|j: int| 0 <= j < rest.len() && rest[j] == e;
        if has_binding(p, s.last().0) {
            assert(canonical_entries(p, m, cn, s)[j] == e);
        }
    }
}

/// Every top-level definition of the interface, enums included, is an item
/// with a canonical binding, and each display name it has yields a canonical
/// name: the display name qualified by the crate, under the definition's
/// session identity.
pub proof fn lemma_top_level_definitions_are_canonical(p: CompilerProducts, m: ProductIdentityRemap, cn: Seq<char>, k: int)
    requires
        0 <= k < p.identity_table.display_names@.len(),
        top_level_key(p, p.identity_table.display_names@[k].0),
    ensures
        has_item(p, p.identity_table.display_names@[k].0),
        has_binding(p, p.identity_table.display_names@[k].0),
        canonical_entries(p, m, cn, p.identity_table.display_names@).contains((
            m.spec_def_id(p.identity_table.display_names@[k].0).unwrap(),
            qualified_name(cn, p.identity_table.display_names@[k].1@),
        )),
{
    let id = p.identity_table.display_names@[k].0;
    lemma_top_level_items(p, id);
    lemma_canonical_entries_include(p, m, cn, p.identity_table.display_names@, k);
}

/// Each key of the function, struct, enum, type alias, trait and extern
/// tables is a top-level item.
pub proof fn lemma_top_level_items(p: CompilerProducts, id: ProductDefId)
    requires
        top_level_key(p, id),
    ensures
        has_item(p, id),
        has_binding(p, id),
{

}

/// Each display name of a definition with a canonical binding has a
/// mapped crate.
pub open spec fn canonical_ok(p: CompilerProducts, m: ProductIdentityRemap, s: Seq<(ProductDefId, String)>) -> bool {
    forall|k: int| 0 <= k < s.len() ==> has_binding(p, (#[trigger] s[k]).0) ==> m.spec_def_id(s[k].0) is Some
}

/// What a display name's definition gives when it has a canonical binding
/// in an unmapped crate.
pub open spec fn canonical_check(p: CompilerProducts, m: ProductIdentityRemap) -> spec_fn((ProductDefId, String)) -> Result<(), Seq<char>> {
    |e: (ProductDefId, String)| if has_binding(p, e.0) && m.spec_def_id(e.0) is None {
        Err(crate::remap::msg_unmapped(e.0))
    } else {
        Ok(())
    }
}

/// The crate-qualified display names of the definitions with canonical
/// bindings, in display-name order; the first display name whose definition
/// is in an unmapped crate is reported.
pub fn canonical_names_from_products(products: &CompilerProducts, crate_name: &str, remap: &ProductIdentityRemap) -> (r: Result<Vec<(DefId, String)>, String>)
    ensures
        r is Ok <==> canonical_ok(*products, *remap, products.identity_table.display_names@),
        r matches Ok(out) ==> def_names_view(out@) == canonical_entries(*products, *remap, crate_name@, products.identity_table.display_names@),
        r matches Err(e) ==> first_error(products.identity_table.display_names@, canonical_check(*products, *remap)) == Err::<(), Seq<char>>(e@),
{
    let names = &products.identity_table.display_names;
    let ghost c = canonical_check(*products, *remap);
    let mut out: Vec<(DefId, String)> = Vec::new();
    let mut i: usize = 0;
    while i < names.len()
        invariant
            i <= names@.len(),
            names == &products.identity_table.display_names,
            c == canonical_check(*products, *remap),
            canonical_ok(*products, *remap, names@.take(i as int)),
            first_error(names@.take(i as int), c) is Ok,
            def_names_view(out@) == canonical_entries(*products, *remap, crate_name@, names@.take(i as int)),
        decreases names@.len() - i,
    {
        let e = names.entry(i);
        let existing = product_def_id_to_existing_def_id(products, remap, e.0);
        proof {
            assert(names@.take(i + 1).drop_last() =~= names@.take(i as int));
            assert(names@.take(i + 1).last() == names@[i as int]);
        }
        match existing {
            Err(err) => {
                assert(names@[i as int] == names@.take(i + 1)[i as int]);
                proof {
                    lemma_first_error_at(names@, c, i as int);
                }
                return Err(err);
            },
            Ok(Some(d)) => {
                let q = qualify_product_name(crate_name, e.1.as_str());
                out.push((d, q));
            },
            Ok(None) => {},
        }
        proof {
            lemma_first_error_step(names@, c, i as int);
            assert forall|k: int| 0 <= k < i + 1 && has_binding(*products, (#[trigger] names@.take(i + 1)[k]).0)
                implies remap.spec_def_id(names@.take(i + 1)[k].0) is Some by {
                if k < i {
                    assert(names@.take(i + 1)[k] == names@.take(i as int)[k]);
                }
            }
        }
        i = i + 1;
    }
    assert(names@.take(i as int) =~= names@);
    Ok(out)
}

/// Each root export has a display name and a canonical binding in a
/// mapped crate.
pub open spec fn exports_ok(p: CompilerProducts, m: ProductIdentityRemap, s: Seq<(String, ProductDefId)>) -> bool {
    forall|k: int| 0 <= k < s.len() ==> {
        &&& lookup(p.identity_table.display_names@, (#[trigger] s[k]).1) is Some
        &&& has_binding(p, s[k].1)
        &&& m.spec_def_id(s[k].1) is Some
    }
}

/// `out` holds each root export of `s` with its crate-qualified display
/// name and session identity.
pub open spec fn exports_map(p: CompilerProducts, m: ProductIdentityRemap, cn: Seq<char>, s: Seq<(String, ProductDefId)>, out: Seq<(String, ArtifactExport)>) -> bool {
    s.len() == out.len() && forall|k: int| 0 <= k < s.len() ==> {
        &&& (#[trigger] out[k]).0@ == s[k].0@
        &&& out[k].1.source@ == qualified_name(cn, lookup(p.identity_table.display_names@, s[k].1).unwrap()@)
        &&& Some(out[k].1.id) == m.spec_def_id(s[k].1)
    }
}

/// What a root export gives: it needs a display name, a canonical binding
/// and a mapped crate, in that order.
pub open spec fn export_check(p: CompilerProducts, m: ProductIdentityRemap) -> spec_fn((String, ProductDefId)) -> Result<(), Seq<char>> {
    |e: (String, ProductDefId)| if lookup(p.identity_table.display_names@, e.1) is None {
        Err("Product artifact root export '"@ + e.0@ + "' has no display name or canonical DefId"@)
    } else if !has_binding(p, e.1) {
        Err("Product artifact root export '"@ + e.0@ + "' has no canonical DefId"@)
    } else if m.spec_def_id(e.1) is None {
        Err(crate::remap::msg_unmapped(e.1))
    } else {
        Ok(())
    }
}

/// The root exports of an artifact under session identities; the first
/// export that fails is reported.
pub fn root_exports_from_products(products: &CompilerProducts, crate_name: &str, remap: &ProductIdentityRemap) -> (r: Result<Vec<(String, ArtifactExport)>, String>)
    ensures
        r is Ok <==> exports_ok(*products, *remap, products.identity_table.export_names@),
        r matches Ok(out) ==> exports_map(*products, *remap, crate_name@, products.identity_table.export_names@, out@),
        r matches Err(e) ==> first_error(products.identity_table.export_names@, export_check(*products, *remap)) == Err::<(), Seq<char>>(e@),
{
    let exports = &products.identity_table.export_names;
    let ghost c = export_check(*products, *remap);
    let mut out: Vec<(String, ArtifactExport)> = Vec::new();
    let mut i: usize = 0;
    while i < exports.len()
        invariant
            i <= exports@.len(),
            exports == &products.identity_table.export_names,
            c == export_check(*products, *remap),
            first_error(exports@.take(i as int), c) is Ok,
            exports_ok(*products, *remap, exports@.take(i as int)),
            exports_map(*products, *remap, crate_name@, exports@.take(i as int), out@),
        decreases exports@.len() - i,
    {
        let e = &exports[i];
        let display = match product_display_name(products, e.1) {
            Some(n) => n,
            None => {
                let mut msg = text("Product artifact root export '");
                push_str(&mut msg, e.0.as_str());
                push_str(&mut msg, "' has no display name or canonical DefId");
                proof {
                    lemma_first_error_at(exports@, c, i as int);
                }
                return Err(msg);
            },
        };
        let existing = product_def_id_to_existing_def_id(products, remap, e.1);
        let id = match existing {
            Ok(Some(d)) => d,
            Ok(None) => {
                let mut msg = text("Product artifact root export '");
                push_str(&mut msg, e.0.as_str());
                push_str(&mut msg, "' has no canonical DefId");
                proof {
                    lemma_first_error_at(exports@, c, i as int);
                }
                return Err(msg);
            },
            Err(err) => {
                proof {
                    lemma_first_error_at(exports@, c, i as int);
                }
                return Err(err);
            },
        };
        proof {
            lemma_first_error_step(exports@, c, i as int);
        }
        let source = qualify_product_name(crate_name, display.as_str());
        out.push((e.0.clone(), ArtifactExport { source, id }));
        proof {
            assert forall|k: int| 0 <= k < i + 1 implies {
                &&& lookup(products.identity_table.display_names@, (#[trigger] exports@.take(i + 1)[k]).1) is Some
                &&& has_binding(*products, exports@.take(i + 1)[k].1)
                &&& remap.spec_def_id(exports@.take(i + 1)[k].1) is Some
            } by {
                if k < i {
                    assert(exports@.take(i + 1)[k] == exports@.take(i as int)[k]);
                }
            }
            assert forall|k: int| 0 <= k < i + 1 implies {
                &&& (#[trigger] out@[k]).0@ == exports@.take(i + 1)[k].0@
                &&& out@[k].1.source@ == qualified_name(crate_name@, lookup(products.identity_table.display_names@, exports@.take(i + 1)[k].1).unwrap()@)
                &&& Some(out@[k].1.id) == remap.spec_def_id(exports@.take(i + 1)[k].1)
            } by {
                if k < i {
                    assert(exports@.take(i + 1)[k] == exports@.take(i as int)[k]);
                }
            }
        }
        i = i + 1;
    }
    assert(exports@.take(i as int) =~= exports@);
    Ok(out)
}

/// Each effective trait method names mapped definitions.
pub open spec fn effective_ok(m: ProductIdentityRemap, s: Seq<((ProductDefId, ProductDefId), ProductDefId)>) -> bool {
    forall|k: int| 0 <= k < s.len() ==> {
        &&& m.spec_def_id((#[trigger] s[k]).0.0) is Some
        &&& m.spec_def_id(s[k].0.1) is Some
        &&& m.spec_def_id(s[k].1) is Some
    }
}

/// `out` is `s` with each definition mapped.
pub open spec fn effective_map(m: ProductIdentityRemap, s: Seq<((ProductDefId, ProductDefId), ProductDefId)>, out: Seq<((DefId, DefId), DefId)>) -> bool {
    s.len() == out.len() && forall|k: int| 0 <= k < s.len() ==> {
        &&& Some((#[trigger] out[k]).0.0) == m.spec_def_id(s[k].0.0)
        &&& Some(out[k].0.1) == m.spec_def_id(s[k].0.1)
        &&& Some(out[k].1) == m.spec_def_id(s[k].1)
    }
}

/// The check of each effective trait method row: its impl, its member and
/// its method identities, in that order.
pub open spec fn effective_checks(m: ProductIdentityRemap) -> spec_fn(((ProductDefId, ProductDefId), ProductDefId)) -> Result<(), Seq<char>> {
    |e: ((ProductDefId, ProductDefId), ProductDefId)| crate::validator::and_then(crate::interface::key_outcome(m, e.0.0),
        crate::validator::and_then(crate::interface::key_outcome(m, e.0.1), crate::interface::key_outcome(m, e.1)))
}

fn effective_methods_from_products(s: &Vec<((ProductDefId, ProductDefId), ProductDefId)>, remap: &ProductIdentityRemap) -> (r: Result<Vec<((DefId, DefId), DefId)>, String>)
    ensures
        r is Ok <==> effective_ok(*remap, s@),
        r matches Ok(out) ==> effective_map(*remap, s@, out@),
        crate::typemap::outcome_is_res(r, first_error(s@, effective_checks(*remap))),
{
    let ghost ck = effective_checks(*remap);
    let mut out: Vec<((DefId, DefId), DefId)> = Vec::new();
    let mut i: usize = 0;
    while i < s.len()
        invariant
            i <= s@.len(),
            out@.len() == i,
            ck == effective_checks(*remap),
            first_error(s@.take(i as int), ck) is Ok,
            forall|k: int| 0 <= k < i ==> {
                &&& remap.spec_def_id((#[trigger] s@[k]).0.0) is Some
                &&& remap.spec_def_id(s@[k].0.1) is Some
                &&& remap.spec_def_id(s@[k].1) is Some
            },
            forall|k: int| 0 <= k < i ==> {
                &&& Some((#[trigger] out@[k]).0.0) == remap.spec_def_id(s@[k].0.0)
                &&& Some(out@[k].0.1) == remap.spec_def_id(s@[k].0.1)
                &&& Some(out@[k].1) == remap.spec_def_id(s@[k].1)
            },
        decreases s@.len() - i,
    {
        let e = s[i];
        let a = match remap.def_id(e.0.0) {
            Ok(a) => a,
            Err(er) => {
                proof { crate::text::lemma_first_error_at(s@, ck, i as int); }
                return Err(er);
            },
        };
        let b = match remap.def_id(e.0.1) {
            Ok(b) => b,
            Err(er) => {
                proof { crate::text::lemma_first_error_at(s@, ck, i as int); }
                return Err(er);
            },
        };
        let c = match remap.def_id(e.1) {
            Ok(c) => c,
            Err(er) => {
                proof { crate::text::lemma_first_error_at(s@, ck, i as int); }
                return Err(er);
            },
        };
        proof { crate::text::lemma_first_error_step(s@, ck, i as int); }
        out.push(((a, b), c));
        i = i + 1;
    }
    proof { assert(s@.take(s@.len() as int) =~= s@); }
    Ok(out)
}

/// `msg` may be what remapping the interface's declarations reports, once
/// its names and exports pass: in order, the error of the first declared
/// function, struct, enum, type alias, trait, impl and extern that fails,
/// then of the first effective trait method row.
pub open spec fn declarations_err(p: CompilerProducts, m: ProductIdentityRemap, v: ProductNominalTypeValidator, msg: Seq<char>) -> bool {
    let f = p.interface;
    let structs = first_error(f.structs@, struct_row_checks(m, v));
    let enums = first_error(f.enums@, enum_row_checks(m, v));
    let aliases = first_error(f.type_aliases@, alias_row_checks(m, v));
    let traits = first_error(f.traits@, trait_row_checks(m, v));
    let impls = first_error(f.impls@, impl_row_checks(m, v));
    let externs = first_error(f.externs@, extern_row_checks(m, v));
    if !all_functions_ok(m, v, f.functions@) {
        functions_err(m, v, f.functions@, msg)
    } else if structs is Err {
        structs == Err::<(), Seq<char>>(msg)
    } else if enums is Err {
        enums == Err::<(), Seq<char>>(msg)
    } else if aliases is Err {
        aliases == Err::<(), Seq<char>>(msg)
    } else if traits is Err {
        traits == Err::<(), Seq<char>>(msg)
    } else if impls is Err {
        impls == Err::<(), Seq<char>>(msg)
    } else if externs is Err {
        externs == Err::<(), Seq<char>>(msg)
    } else {
        first_error(f.effective_trait_methods@, effective_checks(m)) == Err::<(), Seq<char>>(msg)
    }
}

/// The artifact's interface under session identities is owed.
pub open spec fn interface_ok(p: CompilerProducts, m: ProductIdentityRemap, v: ProductNominalTypeValidator) -> bool {
    &&& canonical_ok(p, m, p.identity_table.display_names@)
    &&& exports_ok(p, m, p.identity_table.export_names@)
    &&& all_functions_ok(m, v, p.interface.functions@)
    &&& all_structs_ok(m, v, p.interface.structs@)
    &&& all_enums_ok(m, v, p.interface.enums@)
    &&& all_type_aliases_ok(m, v, p.interface.type_aliases@)
    &&& all_traits_ok(m, v, p.interface.traits@)
    &&& all_impls_ok(m, v, p.interface.impls@)
    &&& all_externs_ok(m, v, p.interface.externs@)
    &&& effective_ok(m, p.interface.effective_trait_methods@)
}

/// `i` is the artifact's interface under session identities.
pub open spec fn interface_map(p: CompilerProducts, m: ProductIdentityRemap, cn: Seq<char>, i: ArtifactCrateInterface) -> bool {
    &&& def_names_view(i.canonical_names@) == canonical_entries(p, m, cn, p.identity_table.display_names@)
    &&& exports_map(p, m, cn, p.identity_table.export_names@, i.root_export_ids@)
    &&& all_functions_map(m, p.interface.functions@, i.functions@)
    &&& all_structs_map(m, p.interface.structs@, i.structs@)
    &&& all_enums_map(m, p.interface.enums@, i.enums@)
    &&& all_type_aliases_map(m, p.interface.type_aliases@, i.type_aliases@)
    &&& all_traits_map(m, p.interface.traits@, i.traits@)
    &&& all_impls_map(m, p.interface.impls@, i.impls@)
    &&& all_externs_map(m, p.interface.externs@, i.externs@)
    &&& effective_map(m, p.interface.effective_trait_methods@, i.effective_trait_methods@)
}

/// No definition occurs twice in the list.
pub open spec fn distinct_defs(s: Seq<DefId>) -> bool {
    forall|a: int, b: int| 0 <= a < b < s.len() ==> s[a] != s[b]
}

/// Each declaration table of the interface names every definition at most
/// once.
pub open spec fn interface_tables_distinct(i: ArtifactCrateInterface) -> bool {
    &&& distinct_defs(i.functions@.map_values(|x: FunctionInterface| x.id))
    &&& distinct_defs(i.structs@.map_values(|x: StructInterface| x.id))
    &&& distinct_defs(i.enums@.map_values(|x: EnumInterface| x.id))
    &&& distinct_defs(i.type_aliases@.map_values(|x: TypeAliasInterface| x.id))
    &&& distinct_defs(i.traits@.map_values(|x: TraitInterface| x.id))
    &&& distinct_defs(i.impls@.map_values(|x: ImplInterface| x.id))
    &&& distinct_defs(i.externs@.map_values(|x: ExternInterface| x.id))
}

/// Distinct keys of one product crate stay distinct under a renumbering.
proof fn lemma_mapped_keys_distinct<V>(m: ProductIdentityRemap, keys: Seq<(ProductDefId, V)>, ids: Seq<DefId>)
    requires
        keys.len() == ids.len(),
        forall|a: int, b: int| 0 <= a < b < keys.len() ==> (#[trigger] keys[a]).0 != (#[trigger] keys[b]).0,
        forall|a: int, b: int| 0 <= a < keys.len() && 0 <= b < keys.len() ==> (#[trigger] keys[a]).0.crate_id == (#[trigger] keys[b]).0.crate_id,
        forall|k: int| 0 <= k < keys.len() ==> m.spec_def_id((#[trigger] keys[k]).0) == Some(ids[k]),
    ensures
        distinct_defs(ids),
{
    assert forall|a: int, b: int| 0 <= a < b < ids.len() implies ids[a] != ids[b] by {
        assert(m.spec_def_id(keys[a].0) == Some(ids[a]));
        assert(m.spec_def_id(keys[b].0) == Some(ids[b]));
        assert(keys[a].0.crate_id == keys[b].0.crate_id);
    }
}

/// The artifact's interface under session identities: canonical names,
/// root exports, every declaration and the effective trait methods. When
/// the artifact's rows are sound, each declaration table names every
/// definition at most once.
pub fn interface_from_products(
    products: &CompilerProducts,
    crate_name: &str,
    remap: &ProductIdentityRemap,
    type_validator: &ProductNominalTypeValidator,
) -> (r: Result<ArtifactCrateInterface, String>)
    ensures
        r is Ok <==> interface_ok(*products, *remap, *type_validator),
        r matches Ok(i) ==> interface_map(*products, *remap, crate_name@, i),
        r matches Ok(i) ==> (crate::rows::interface_rows_ok(*products) ==> interface_tables_distinct(i)),
        r matches Err(e) ==> !canonical_ok(*products, *remap, products.identity_table.display_names@)
            ==> first_error(products.identity_table.display_names@, canonical_check(*products, *remap)) == Err::<(), Seq<char>>(e@),
        r matches Err(e) ==> canonical_ok(*products, *remap, products.identity_table.display_names@)
            && !exports_ok(*products, *remap, products.identity_table.export_names@)
            ==> first_error(products.identity_table.export_names@, export_check(*products, *remap)) == Err::<(), Seq<char>>(e@),
        r matches Err(e) ==> canonical_ok(*products, *remap, products.identity_table.display_names@)
            && exports_ok(*products, *remap, products.identity_table.export_names@)
            ==> declarations_err(*products, *remap, *type_validator, e@),
{
    let canonical_names = canonical_names_from_products(products, crate_name, remap)?;
    let root_export_ids = root_exports_from_products(products, crate_name, remap)?;
    let f = &products.interface;
    let functions = remap_all_functions(&f.functions, remap, type_validator)?;
    let structs = remap_all_structs(&f.structs, remap, type_validator)?;
    let enums = remap_all_enums(&f.enums, remap, type_validator)?;
    let type_aliases = remap_all_type_aliases(&f.type_aliases, remap, type_validator)?;
    let traits = remap_all_traits(&f.traits, remap, type_validator)?;
    let impls = remap_all_impls(&f.impls, remap, type_validator)?;
    let externs = remap_all_externs(&f.externs, remap, type_validator)?;
    let effective_trait_methods = effective_methods_from_products(&f.effective_trait_methods, remap)?;
    f.functions.keys_are_sorted();
    f.structs.keys_are_sorted();
    f.enums.keys_are_sorted();
    f.type_aliases.keys_are_sorted();
    f.traits.keys_are_sorted();
    f.impls.keys_are_sorted();
    f.externs.keys_are_sorted();
    proof {
        if crate::rows::interface_rows_ok(*products) {
            let keys = f.functions@;
            let ids = functions@.map_values(|x: FunctionInterface| x.id);
            assert forall|k: int| 0 <= k < keys.len() implies remap.spec_def_id((#[trigger] keys[k]).0) == Some(ids[k]) by {
                assert(all_functions_map(*remap, keys, functions@));
            }
            lemma_mapped_keys_distinct(*remap, keys, ids);
        }
        if crate::rows::interface_rows_ok(*products) {
            let keys = f.structs@;
            let ids = structs@.map_values(|x: StructInterface| x.id);
            assert forall|k: int| 0 <= k < keys.len() implies remap.spec_def_id((#[trigger] keys[k]).0) == Some(ids[k]) by {
                assert(all_structs_map(*remap, keys, structs@));
            }
            lemma_mapped_keys_distinct(*remap, keys, ids);
        }
        if crate::rows::interface_rows_ok(*products) {
            let keys = f.enums@;
            let ids = enums@.map_values(|x: EnumInterface| x.id);
            assert forall|k: int| 0 <= k < keys.len() implies remap.spec_def_id((#[trigger] keys[k]).0) == Some(ids[k]) by {
                assert(all_enums_map(*remap, keys, enums@));
            }
            lemma_mapped_keys_distinct(*remap, keys, ids);
        }
        if crate::rows::interface_rows_ok(*products) {
            let keys = f.type_aliases@;
            let ids = type_aliases@.map_values(|x: TypeAliasInterface| x.id);
            assert forall|k: int| 0 <= k < keys.len() implies remap.spec_def_id((#[trigger] keys[k]).0) == Some(ids[k]) by {
                assert(all_type_aliases_map(*remap, keys, type_aliases@));
            }
            lemma_mapped_keys_distinct(*remap, keys, ids);
        }
        if crate::rows::interface_rows_ok(*products) {
            let keys = f.traits@;
            let ids = traits@.map_values(|x: TraitInterface| x.id);
            assert forall|k: int| 0 <= k < keys.len() implies remap.spec_def_id((#[trigger] keys[k]).0) == Some(ids[k]) by {
                assert(all_traits_map(*remap, keys, traits@));
            }
            lemma_mapped_keys_distinct(*remap, keys, ids);
        }
        if crate::rows::interface_rows_ok(*products) {
            let keys = f.impls@;
            let ids = impls@.map_values(|x: ImplInterface| x.id);
            assert forall|k: int| 0 <= k < keys.len() implies remap.spec_def_id((#[trigger] keys[k]).0) == Some(ids[k]) by {
                assert(all_impls_map(*remap, keys, impls@));
            }
            lemma_mapped_keys_distinct(*remap, keys, ids);
        }
        if crate::rows::interface_rows_ok(*products) {
            let keys = f.externs@;
            let ids = externs@.map_values(|x: ExternInterface| x.id);
            assert forall|k: int| 0 <= k < keys.len() implies remap.spec_def_id((#[trigger] keys[k]).0) == Some(ids[k]) by {
                assert(all_externs_map(*remap, keys, externs@));
            }
            lemma_mapped_keys_distinct(*remap, keys, ids);
        }
    }
    Ok(ArtifactCrateInterface {
        root_export_ids,
        canonical_names,
        functions,
        structs,
        enums,
        type_aliases,
        traits,
        impls,
        externs,
        effective_trait_methods,
    })
}


// ----- resolver tables -----

/// The name recorded last for `d` in a list of names by definition.
pub open spec fn latest_name(s: Seq<(DefId, Seq<char>)>, d: DefId) -> Option<Seq<char>>
    decreases s.len(),
{
    if s.len() == 0 {
        None
    } else if s.last().0 == d {
        Some(s.last().1)
    } else {
        latest_name(s.drop_last(), d)
    }
}

/// The name recorded last for `d`.
pub fn latest_def_name(s: &Vec<(DefId, String)>, d: DefId) -> (r: Option<String>)
    ensures
        match latest_name(def_names_view(s@), d) {
            Some(n) => r matches Some(x) && x@ == n,
            None => r is None,
        },
{
    let ghost v = def_names_view(s@);
    let mut i: usize = s.len();
    assert(v.take(i as int) =~= v);
    while i > 0
        invariant
            i <= s@.len(),
            v == def_names_view(s@),
            latest_name(v, d) == latest_name(v.take(i as int), d),
        decreases i,
    {
        assert(v.take(i as int).last() == v[i - 1]);
        assert(v.take(i as int).drop_last() =~= v.take(i - 1));
        if s[i - 1].0 == d {
            return Some(s[i - 1].1.clone());
        }
        i = i - 1;
    }
    None
}

/// The canonical source a loaded dependency's resolver gives `d`: that of
/// the first loaded crate with `d`'s crate number that names it.
pub open spec fn dependency_source(deps: Seq<ExternCrateRecord>, d: DefId) -> Option<Seq<char>>
    decreases deps.len(),
{
    if deps.len() == 0 {
        None
    } else if deps[0].crate_id == d.crate_id && latest_name(def_names_view(deps[0].resolver.item_names_by_id@), d) is Some {
        latest_name(def_names_view(deps[0].resolver.item_names_by_id@), d)
    } else {
        dependency_source(deps.drop_first(), d)
    }
}

/// The canonical source of `d`: its name in the artifact's own tables, or
/// else in a loaded dependency.
pub open spec fn alias_source(names: Seq<(DefId, Seq<char>)>, deps: Seq<ExternCrateRecord>, d: DefId) -> Option<Seq<char>> {
    match latest_name(names, d) {
        Some(n) => Some(n),
        None => dependency_source(deps, d),
    }
}

/// The canonical source of `d` for an alias.
#[verifier::loop_isolation(false)]
pub fn canonical_alias_source(names: &Vec<(DefId, String)>, ctx: &crate::remap::CrateContext, d: DefId) -> (r: Option<String>)
    ensures
        match alias_source(def_names_view(names@), ctx.extern_crates@, d) {
            Some(n) => r matches Some(x) && x@ == n,
            None => r is None,
        },
{
    if let Some(n) = latest_def_name(names, d) {
        return Some(n);
    }
    let deps = &ctx.extern_crates;
    let mut i: usize = 0;
    assert(deps@.subrange(0, deps@.len() as int) =~= deps@);
    while i < deps.len()
        invariant
            i <= deps@.len(),
            dependency_source(deps@, d) == dependency_source(deps@.subrange(i as int, deps@.len() as int), d),
        decreases deps@.len() - i,
    {
        assert(deps@.subrange(i as int, deps@.len() as int).drop_first() =~= deps@.subrange(i + 1, deps@.len() as int));
        let dep = &deps[i];
        if dep.crate_id == d.crate_id {
            if let Some(n) = latest_def_name(&dep.resolver.item_names_by_id, d) {
                return Some(n);
            }
        }
        i = i + 1;
    }
    None
}

/// The view of a list of names.
pub open spec fn name_ids_view(s: Seq<(String, DefId)>) -> Seq<(Seq<char>, DefId)> {
    s.map_values(|e: (String, DefId)| (e.0@, e.1))
}

/// The view of a list of aliases with their sources.
pub open spec fn alias_view(s: Seq<(String, String, DefId)>) -> Seq<(Seq<char>, Seq<char>, DefId)> {
    s.map_values(|e: (String, String, DefId)| (e.0@, e.1@, e.2))
}

/// The export aliases of the definitions with canonical bindings.
pub open spec fn export_alias_entries(p: CompilerProducts, m: ProductIdentityRemap, s: Seq<(String, ProductDefId)>) -> Seq<(Seq<char>, DefId)>
    decreases s.len(),
{
    if s.len() == 0 {
        Seq::empty()
    } else {
        let rest = export_alias_entries(p, m, s.drop_last());
        if has_binding(p, s.last().1) {
            rest.push((s.last().0@, m.spec_def_id(s.last().1).unwrap()))
        } else {
            rest
        }
    }
}

/// Each alias whose target counts has a mapped crate.
pub open spec fn aliases_ok(p: CompilerProducts, m: ProductIdentityRemap, s: Seq<(String, ProductDefId)>, binding_only: bool) -> bool {
    forall|k: int| 0 <= k < s.len() ==> (if binding_only { has_binding(p, (#[trigger] s[k]).1) } else { alias_target(p, s[k].1) })
        ==> m.spec_def_id(s[k].1) is Some
}

/// The import or module aliases whose targets count and have a canonical
/// source, with that source.
pub open spec fn source_alias_entries(
    p: CompilerProducts,
    m: ProductIdentityRemap,
    names: Seq<(DefId, Seq<char>)>,
    deps: Seq<ExternCrateRecord>,
    s: Seq<(String, ProductDefId)>,
) -> Seq<(Seq<char>, Seq<char>, DefId)>
    decreases s.len(),
{
    if s.len() == 0 {
        Seq::empty()
    } else {
        let rest = source_alias_entries(p, m, names, deps, s.drop_last());
        let d = m.spec_def_id(s.last().1).unwrap();
        if alias_target(p, s.last().1) && alias_source(names, deps, d) is Some {
            rest.push((s.last().0@, alias_source(names, deps, d).unwrap(), d))
        } else {
            rest
        }
    }
}

fn export_aliases_from_products(products: &CompilerProducts, remap: &ProductIdentityRemap) -> (r: Result<Vec<(String, DefId)>, String>)
    ensures
        r is Ok <==> aliases_ok(*products, *remap, products.identity_table.export_names@, true),
        r matches Ok(out) ==> name_ids_view(out@) == export_alias_entries(*products, *remap, products.identity_table.export_names@),
{
    let s = &products.identity_table.export_names;
    let mut out: Vec<(String, DefId)> = Vec::new();
    let mut i: usize = 0;
    while i < s.len()
        invariant
            i <= s@.len(),
            s == &products.identity_table.export_names,
            aliases_ok(*products, *remap, s@.take(i as int), true),
            name_ids_view(out@) == export_alias_entries(*products, *remap, s@.take(i as int)),
        decreases s@.len() - i,
    {
        let e = &s[i];
        proof {
            assert(s@.take(i + 1).drop_last() =~= s@.take(i as int));
            assert(s@.take(i + 1).last() == s@[i as int]);
        }
        match product_def_id_to_existing_def_id(products, remap, e.1) {
            Err(err) => {
                assert(s@[i as int] == s@.take(i + 1)[i as int]);
                return Err(err);
            },
            Ok(Some(d)) => {
                out.push((e.0.clone(), d));
                assert(name_ids_view(out@) =~= name_ids_view(out@.drop_last()).push((e.0@, d)));
            },
            Ok(None) => {},
        }
        proof {
            assert forall|k: int| 0 <= k < i + 1 && has_binding(*products, (#[trigger] s@.take(i + 1)[k]).1)
                implies remap.spec_def_id(s@.take(i + 1)[k].1) is Some by {
                if k < i {
                    assert(s@.take(i + 1)[k] == s@.take(i as int)[k]);
                }
            }
        }
        i = i + 1;
    }
    assert(s@.take(i as int) =~= s@);
    Ok(out)
}

fn source_aliases_from_products(
    products: &CompilerProducts,
    s: &Vec<(String, ProductDefId)>,
    remap: &ProductIdentityRemap,
    names: &Vec<(DefId, String)>,
    ctx: &crate::remap::CrateContext,
) -> (r: Result<Vec<(String, String, DefId)>, String>)
    ensures
        r is Ok <==> aliases_ok(*products, *remap, s@, false),
        r matches Ok(out) ==> alias_view(out@) == source_alias_entries(*products, *remap, def_names_view(names@), ctx.extern_crates@, s@),
{
    let mut out: Vec<(String, String, DefId)> = Vec::new();
    let mut i: usize = 0;
    while i < s.len()
        invariant
            i <= s@.len(),
            aliases_ok(*products, *remap, s@.take(i as int), false),
            alias_view(out@) == source_alias_entries(*products, *remap, def_names_view(names@), ctx.extern_crates@, s@.take(i as int)),
        decreases s@.len() - i,
    {
        let e = &s[i];
        proof {
            assert(s@.take(i + 1).drop_last() =~= s@.take(i as int));
            assert(s@.take(i + 1).last() == s@[i as int]);
        }
        match product_def_id_to_alias_def_id(products, remap, e.1) {
            Err(err) => {
                assert(s@[i as int] == s@.take(i + 1)[i as int]);
                return Err(err);
            },
            Ok(Some(d)) => {
                if let Some(source) = canonical_alias_source(names, ctx, d) {
                    out.push((e.0.clone(), source, d));
                    assert(alias_view(out@) =~= alias_view(out@.drop_last()).push((e.0@, source@, d)));
                }
            },
            Ok(None) => {},
        }
        proof {
            assert forall|k: int| 0 <= k < i + 1 && alias_target(*products, (#[trigger] s@.take(i + 1)[k]).1)
                implies remap.spec_def_id(s@.take(i + 1)[k].1) is Some by {
                if k < i {
                    assert(s@.take(i + 1)[k] == s@.take(i as int)[k]);
                }
            }
        }
        i = i + 1;
    }
    assert(s@.take(i as int) =~= s@);
    Ok(out)
}

/// The resolver tables are owed.
pub open spec fn resolver_ok(p: CompilerProducts, m: ProductIdentityRemap) -> bool {
    &&& canonical_ok(p, m, p.identity_table.display_names@)
    &&& aliases_ok(p, m, p.identity_table.export_names@, true)
    &&& aliases_ok(p, m, p.identity_table.import_alias_names@, false)
    &&& aliases_ok(p, m, p.identity_table.module_alias_names@, false)
}

/// `r` is the artifact's resolver tables: each canonical name both ways,
/// the export aliases of bound definitions, and the import and module
/// aliases that have a canonical source.
pub open spec fn resolver_map(p: CompilerProducts, m: ProductIdentityRemap, cn: Seq<char>, deps: Seq<ExternCrateRecord>, r: ResolverTables) -> bool {
    let names = canonical_entries(p, m, cn, p.identity_table.display_names@);
    &&& def_names_view(r.item_names_by_id@) == names
    &&& name_ids_view(r.item_paths@) == names.map_values(|e: (DefId, Seq<char>)| (e.1, e.0))
    &&& name_ids_view(r.export_aliases@) == export_alias_entries(p, m, p.identity_table.export_names@)
    &&& alias_view(r.import_aliases@) == source_alias_entries(p, m, names, deps, p.identity_table.import_alias_names@)
    &&& alias_view(r.module_aliases@) == source_alias_entries(p, m, names, deps, p.identity_table.module_alias_names@)
}

/// The names under which the artifact's definitions resolve.
pub fn resolver_from_products(
    products: &CompilerProducts,
    crate_name: &str,
    remap: &ProductIdentityRemap,
    ctx: &crate::remap::CrateContext,
) -> (r: Result<ResolverTables, String>)
    ensures
        r is Ok <==> resolver_ok(*products, *remap),
        r matches Ok(t) ==> resolver_map(*products, *remap, crate_name@, ctx.extern_crates@, t),
{
    let item_names_by_id = canonical_names_from_products(products, crate_name, remap)?;
    let mut item_paths: Vec<(String, DefId)> = Vec::new();
    let mut i: usize = 0;
    while i < item_names_by_id.len()
        invariant
            i <= item_names_by_id@.len(),
            item_paths@.len() == i,
            forall|j: int| 0 <= j < i ==> (#[trigger] item_paths@[j]).0@ == item_names_by_id@[j].1@ && item_paths@[j].1 == item_names_by_id@[j].0,
        decreases item_names_by_id@.len() - i,
    {
        let e = &item_names_by_id[i];
        item_paths.push((e.1.clone(), e.0));
        i = i + 1;
    }
    assert(name_ids_view(item_paths@) =~= def_names_view(item_names_by_id@).map_values(|e: (DefId, Seq<char>)| (e.1, e.0)));
    let export_aliases = export_aliases_from_products(products, remap)?;
    let import_aliases = source_aliases_from_products(products, &products.identity_table.import_alias_names, remap, &item_names_by_id, ctx)?;
    let module_aliases = source_aliases_from_products(products, &products.identity_table.module_alias_names, remap, &item_names_by_id, ctx)?;
    Ok(ResolverTables { item_paths, item_names_by_id, export_aliases, import_aliases, module_aliases })
}


// ----- prelude exports -----

/// The exports a list records: for each alias, the entry recorded last.
pub open spec fn exports_as_map(s: Seq<(String, ArtifactExport)>) -> Map<Seq<char>, (Seq<char>, DefId)>
    decreases s.len(),
{
    if s.len() == 0 {
        Map::empty()
    } else {
        exports_as_map(s.drop_last()).insert(s.last().0@, (s.last().1.source@, s.last().1.id))
    }
}

proof fn lemma_exports_keys(s: Seq<(String, ArtifactExport)>, a: Seq<char>)
    ensures
        exports_as_map(s).contains_key(a) <==> exists|k: int| 0 <= k < s.len() && (#[trigger] s[k]).0@ == a,
    decreases s.len(),
{
    if s.len() > 0 {
        lemma_exports_keys(s.drop_last(), a);
        if exists|k: int| 0 <= k < s.drop_last().len() && (#[trigger] s.drop_last()[k]).0@ == a {
            let k = choose|k: int| 0 <= k < s.drop_last().len() && (#[trigger] s.drop_last()[k]).0@ == a;
            assert(s[k] == s.drop_last()[k]);
        }
        if exists|k: int| 0 <= k < s.len() && (#[trigger] s[k]).0@ == a {
            let k = choose|k: int| 0 <= k < s.len() && (#[trigger] s[k]).0@ == a;
            if k < s.len() - 1 {
                assert(s.drop_last()[k] == s[k]);
            }
        }
    }
}

/// The explicit prelude exports: each alias with its crate-qualified
/// display name and session identity.
pub open spec fn explicit_prelude(p: CompilerProducts, m: ProductIdentityRemap, cn: Seq<char>, s: Seq<(String, ProductDefId)>) -> Map<Seq<char>, (Seq<char>, DefId)>
    decreases s.len(),
{
    if s.len() == 0 {
        Map::empty()
    } else {
        explicit_prelude(p, m, cn, s.drop_last()).insert(
            s.last().0@,
            (qualified_name(cn, lookup(p.identity_table.display_names@, s.last().1).unwrap()@), m.spec_def_id(s.last().1).unwrap()),
        )
    }
}

/// Each explicit prelude export has a display name and names a mapped
/// top-level definition.
pub open spec fn prelude_ok(p: CompilerProducts, m: ProductIdentityRemap, s: Seq<(String, ProductDefId)>) -> bool {
    forall|k: int| 0 <= k < s.len() ==> {
        &&& lookup(p.identity_table.display_names@, (#[trigger] s[k]).1) is Some
        &&& has_item(p, s[k].1)
        &&& m.spec_def_id(s[k].1) is Some
    }
}

/// The first definition a list of names gives the name `n`.
pub open spec fn first_named_def(s: Seq<(DefId, Seq<char>)>, n: Seq<char>) -> Option<DefId>
    decreases s.len(),
{
    if s.len() == 0 {
        None
    } else if s[0].1 == n {
        Some(s[0].0)
    } else {
        first_named_def(s.drop_first(), n)
    }
}

/// The prelude exports derived from canonical names under `prefix::`, added
/// for the aliases that `acc` lacks.
pub open spec fn derived_prelude(
    all: Seq<(DefId, Seq<char>)>,
    names: Seq<(DefId, Seq<char>)>,
    prefix: Seq<char>,
    acc: Map<Seq<char>, (Seq<char>, DefId)>,
) -> Map<Seq<char>, (Seq<char>, DefId)>
    decreases names.len(),
{
    if names.len() == 0 {
        acc
    } else {
        let before = derived_prelude(all, names.drop_last(), prefix, acc);
        let n = names.last().1;
        let p2 = prefix + "::"@;
        let alias = n.subrange(p2.len() as int, n.len() as int);
        if has_prefix(n, p2) && !before.contains_key(alias) {
            before.insert(alias, (n, first_named_def(all, n).unwrap()))
        } else {
            before
        }
    }
}

/// The prelude exports derived from the canonical names `names` under
/// `prefix`: the exports `acc` already made stay as they are; each name
/// `prefix::a` gives an export keyed by `a` (the name with `prefix::`
/// removed), which, when `acc` lacks `a` and no earlier name gives `a`,
/// stands for that name and the first definition carrying it; and no other
/// key is added.
pub proof fn lemma_derived_prelude_strips_prefix(
    all: Seq<(DefId, Seq<char>)>,
    names: Seq<(DefId, Seq<char>)>,
    prefix: Seq<char>,
    acc: Map<Seq<char>, (Seq<char>, DefId)>,
)
    ensures
        forall|key: Seq<char>| #[trigger] acc.contains_key(key) ==> derived_prelude(all, names, prefix, acc).contains_key(key)
            && derived_prelude(all, names, prefix, acc)[key] == acc[key],
        forall|k: int| 0 <= k < names.len() && has_prefix((#[trigger] names[k]).1, prefix + "::"@)
            ==> derived_prelude(all, names, prefix, acc).contains_key(
                names[k].1.subrange((prefix + "::"@).len() as int, names[k].1.len() as int)),
        forall|k: int| 0 <= k < names.len() && has_prefix((#[trigger] names[k]).1, prefix + "::"@)
            && !acc.contains_key(names[k].1.subrange((prefix + "::"@).len() as int, names[k].1.len() as int))
            && (forall|j: int| 0 <= j < k && has_prefix(names[j].1, prefix + "::"@) ==> names[j].1.subrange(
                (prefix + "::"@).len() as int, names[j].1.len() as int) != names[k].1.subrange((prefix + "::"@).len() as int, names[k].1.len() as int))
            ==> derived_prelude(all, names, prefix, acc)[names[k].1.subrange((prefix + "::"@).len() as int, names[k].1.len() as int)]
                == (names[k].1, first_named_def(all, names[k].1).unwrap()),
        forall|key: Seq<char>| #[trigger] derived_prelude(all, names, prefix, acc).contains_key(key) ==> acc.contains_key(key)
            || exists|k: int| 0 <= k < names.len() && has_prefix((#[trigger] names[k]).1, prefix + "::"@)
                && names[k].1.subrange((prefix + "::"@).len() as int, names[k].1.len() as int) == key,
    decreases names.len(),
{
    let p2 = prefix + "::"@;
    if names.len() > 0 {
        let init = names.drop_last();
        lemma_derived_prelude_strips_prefix(all, init, prefix, acc);
        let before = derived_prelude(all, init, prefix, acc);
        let result = derived_prelude(all, names, prefix, acc);
        let last = names.len() - 1;
        let n = names[last].1;
        let alias = n.subrange(p2.len() as int, n.len() as int);
        assert(names.last() == names[last]);
        assert forall|k: int| 0 <= k < last implies #[trigger] names[k] == init[k] by {}
        assert forall|key: Seq<char>| #[trigger] acc.contains_key(key) implies result.contains_key(key) && result[key] == acc[key] by {
            assert(before.contains_key(key));
        }
        assert forall|k: int| 0 <= k < names.len() && has_prefix((#[trigger] names[k]).1, p2)
            implies result.contains_key(names[k].1.subrange(p2.len() as int, names[k].1.len() as int)) by {
            if k < last {
                assert(init[k] == names[k]);
            }
        }
        assert forall|k: int| 0 <= k < names.len() && has_prefix((#[trigger] names[k]).1, p2)
            && !acc.contains_key(names[k].1.subrange(p2.len() as int, names[k].1.len() as int))
            && (forall|j: int| 0 <= j < k && has_prefix(names[j].1, p2) ==> names[j].1.subrange(
                p2.len() as int, names[j].1.len() as int) != names[k].1.subrange(p2.len() as int, names[k].1.len() as int))
            implies result[names[k].1.subrange(p2.len() as int, names[k].1.len() as int)]
                == (names[k].1, first_named_def(all, names[k].1).unwrap()) by {
            let a = names[k].1.subrange(p2.len() as int, names[k].1.len() as int);
            if k < last {
                assert(init[k] == names[k]);
                assert forall|j: int| 0 <= j < k && has_prefix(init[j].1, p2) implies init[j].1.subrange(
                    p2.len() as int, init[j].1.len() as int) != a by {
                    assert(init[j] == names[j]);
                }
                assert(before.contains_key(a));
                assert(before[a] == (names[k].1, first_named_def(all, names[k].1).unwrap()));
            } else {
                if before.contains_key(alias) {
                    assert(!acc.contains_key(alias));
                    let j = choose|j: int| 0 <= j < init.len() && has_prefix((#[trigger] init[j]).1, p2)
                        && init[j].1.subrange(p2.len() as int, init[j].1.len() as int) == alias;
                    assert(init[j] == names[j]);
                }
            }
        }
        assert forall|key: Seq<char>| #[trigger] result.contains_key(key) implies acc.contains_key(key)
            || exists|k: int| 0 <= k < names.len() && has_prefix((#[trigger] names[k]).1, p2)
                && names[k].1.subrange(p2.len() as int, names[k].1.len() as int) == key by {
            if before.contains_key(key) {
                if !acc.contains_key(key) {
                    let j = choose|j: int| 0 <= j < init.len() && has_prefix((#[trigger] init[j]).1, p2)
                        && init[j].1.subrange(p2.len() as int, init[j].1.len() as int) == key;
                    assert(init[j] == names[j]);
                }
            } else {
                assert(key == alias);
            }
        }
    }
}

proof fn lemma_first_named_def(s: Seq<(DefId, Seq<char>)>, j: int)
    requires
        0 <= j < s.len(),
    ensures
        first_named_def(s, s[j].1) is Some,
    decreases j,
{
    if j > 0 && s[0].1 != s[j].1 {
        assert(s.drop_first()[j - 1] == s[j]);
        lemma_first_named_def(s.drop_first(), j - 1);
    }
}

fn first_def_named(s: &Vec<(DefId, String)>, n: &str) -> (r: Option<DefId>)
    ensures
        r == first_named_def(def_names_view(s@), n@),
{
    let ghost v = def_names_view(s@);
    let mut i: usize = 0;
    assert(v.subrange(0, v.len() as int) =~= v);
    while i < s.len()
        invariant
            i <= s@.len(),
            v == def_names_view(s@),
            first_named_def(v, n@) == first_named_def(v.subrange(i as int, v.len() as int), n@),
        decreases s@.len() - i,
    {
        assert(v.subrange(i as int, v.len() as int).drop_first() =~= v.subrange(i + 1, v.len() as int));
        if crate::text::str_eq(s[i].1.as_str(), n) {
            return Some(s[i].0);
        }
        i = i + 1;
    }
    None
}

#[verifier::loop_isolation(false)]
fn has_export(s: &Vec<(String, ArtifactExport)>, a: &str) -> (r: bool)
    ensures
        r == exports_as_map(s@).contains_key(a@),
{
    proof {
        lemma_exports_keys(s@, a@);
    }
    let mut i: usize = 0;
    while i < s.len()
        invariant
            i <= s@.len(),
            forall|k: int| 0 <= k < i ==> (#[trigger] s@[k]).0@ != a@,
        decreases s@.len() - i,
    {
        if crate::text::str_eq(s[i].0.as_str(), a) {
            assert(s@[i as int].0@ == a@);
            return true;
        }
        i = i + 1;
    }
    false
}

fn suffix_after(n: &str, len: usize) -> (r: String)
    requires
        len <= n@.len(),
    ensures
        r@ == n@.subrange(len as int, n@.len() as int),
{
    text(n.substring_char(len, n.unicode_len()))
}

/// The prelude exports of a loaded crate: the explicit ones, then one for
/// each canonical name under `prelude_prefix::` whose alias is not yet
/// exported.
pub fn normalize_product_prelude_exports(
    products: &CompilerProducts,
    remap: &ProductIdentityRemap,
    interface: &ArtifactCrateInterface,
    crate_name: &str,
    prelude_prefix: &str,
) -> (r: Result<Vec<(String, ArtifactExport)>, String>)
    ensures
        r is Ok <==> prelude_ok(*products, *remap, products.identity_table.prelude_export_names@),
        r matches Ok(out) ==> exports_as_map(out@) == derived_prelude(
            def_names_view(interface.canonical_names@),
            def_names_view(interface.canonical_names@),
            prelude_prefix@,
            explicit_prelude(*products, *remap, crate_name@, products.identity_table.prelude_export_names@),
        ),
        r matches Ok(out) ==> forall|k: int| 0 <= k < interface.canonical_names@.len()
            && has_prefix((#[trigger] interface.canonical_names@[k]).1@, prelude_prefix@ + "::"@)
            ==> exports_as_map(out@).contains_key(interface.canonical_names@[k].1@.subrange(
                (prelude_prefix@ + "::"@).len() as int, interface.canonical_names@[k].1@.len() as int)),
{
    let s = &products.identity_table.prelude_export_names;
    let mut out: Vec<(String, ArtifactExport)> = Vec::new();
    let mut i: usize = 0;
    while i < s.len()
        invariant
            i <= s@.len(),
            s == &products.identity_table.prelude_export_names,
            prelude_ok(*products, *remap, s@.take(i as int)),
            exports_as_map(out@) == explicit_prelude(*products, *remap, crate_name@, s@.take(i as int)),
        decreases s@.len() - i,
    {
        let e = &s[i];
        proof {
            assert(s@.take(i + 1).drop_last() =~= s@.take(i as int));
            assert(s@.take(i + 1).last() == s@[i as int]);
        }
        let display = match product_display_name(products, e.1) {
            Some(n) => n,
            None => {
                assert(s@[i as int] == s@.take(i + 1)[i as int]);
                let mut msg = text("Product artifact prelude export '");
                push_str(&mut msg, e.0.as_str());
                push_str(&mut msg, "' has no display name or canonical DefId");
                return Err(msg);
            },
        };
        let id = match product_def_id_to_prelude_export_def_id(products, remap, e.1) {
            Ok(Some(d)) => d,
            Ok(None) => {
                assert(s@[i as int] == s@.take(i + 1)[i as int]);
                let mut msg = text("Product artifact prelude export '");
                push_str(&mut msg, e.0.as_str());
                push_str(&mut msg, "' has no canonical prelude item ID");
                return Err(msg);
            },
            Err(err) => {
                assert(s@[i as int] == s@.take(i + 1)[i as int]);
                return Err(err);
            },
        };
        let source = qualify_product_name(crate_name, display.as_str());
        let ghost before = out@;
        out.push((e.0.clone(), ArtifactExport { source, id }));
        proof {
            assert(out@.drop_last() =~= before);
            assert forall|k: int| 0 <= k < i + 1 implies {
                &&& lookup(products.identity_table.display_names@, (#[trigger] s@.take(i + 1)[k]).1) is Some
                &&& has_item(*products, s@.take(i + 1)[k].1)
                &&& remap.spec_def_id(s@.take(i + 1)[k].1) is Some
            } by {
                if k < i {
                    assert(s@.take(i + 1)[k] == s@.take(i as int)[k]);
                }
            }
        }
        i = i + 1;
    }
    assert(s@.take(i as int) =~= s@);
    let ghost explicit = exports_as_map(out@);
    let mut p2 = text(prelude_prefix);
    push_str(&mut p2, "::");
    proof {
        reveal_strlit("::");
    }
    let names = &interface.canonical_names;
    let ghost all = def_names_view(names@);
    let mut j: usize = 0;
    while j < names.len()
        invariant
            j <= names@.len(),
            all == def_names_view(names@),
            p2@ == prelude_prefix@ + "::"@,
            exports_as_map(out@) == derived_prelude(all, all.take(j as int), prelude_prefix@, explicit),
        decreases names@.len() - j,
    {
        let n = &names[j].1;
        proof {
            assert(all.take(j + 1).drop_last() =~= all.take(j as int));
            assert(all.take(j + 1).last() == (names@[j as int].0, n@));
        }
        if crate::text::starts_with(n.as_str(), p2.as_str()) {
            let alias = suffix_after(n.as_str(), p2.unicode_len());
            if !has_export(&out, alias.as_str()) {
                proof {
                    lemma_first_named_def(all, j as int);
                }
                let ghost before = out@;
                let id = match first_def_named(names, n.as_str()) {
                    Some(d) => d,
                    None => {
                        let mut msg = text("Product artifact prelude export '");
                        push_str(&mut msg, alias.as_str());
                        push_str(&mut msg, "' references '");
                        push_str(&mut msg, n.as_str());
                        push_str(&mut msg, "' without a canonical DefId");
                        return Err(msg);
                    },
                };
                out.push((alias, ArtifactExport { source: n.clone(), id }));
                assert(out@.drop_last() =~= before);
            }
        }
        j = j + 1;
    }
    assert(all.take(j as int) =~= all);
    proof {
        lemma_derived_prelude_strips_prefix(all, all, prelude_prefix@, explicit);
        assert forall|k: int| 0 <= k < interface.canonical_names@.len()
            && has_prefix((#[trigger] interface.canonical_names@[k]).1@, prelude_prefix@ + "::"@)
            implies exports_as_map(out@).contains_key(interface.canonical_names@[k].1@.subrange(
                (prelude_prefix@ + "::"@).len() as int, interface.canonical_names@[k].1@.len() as int)) by {
            assert(all[k] == (interface.canonical_names@[k].0, interface.canonical_names@[k].1@));
        }
    }
    Ok(out)
}

} // verus!
