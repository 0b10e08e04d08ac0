use vstd::prelude::*;

use crate::collections::{has_key, lookup, lookup_str, find_str};
use crate::hir::{Function, Impl};
use crate::ids::{spec_product_of, DefId, ProductCrateId, ProductDefId};
use crate::products::{CompilerProducts, FunctionInterface, ImplInterface, ProductInterface};
use crate::remap::ProductIdentityRemap;
use crate::text::{decimal, first_error, lemma_first_error_at, lemma_first_error_step, outcome_is, push_decimal, push_str, text};
use crate::types::{is_codegen_concrete, is_non_concrete_leaf, list_is_codegen_concrete, type_any, types_any, Type};

verus! {

// ----- which declarations need bodies and link records -----

/// A function with generic parameters is compiled again by each user, so
/// its body travels with the artifact.
pub open spec fn requires_reusable_body(f: FunctionInterface) -> bool {
    f.generic_params@.len() > 0
}

pub fn product_function_interface_requires_reusable_body(f: &FunctionInterface) -> (r: bool)
    ensures
        r == requires_reusable_body(*f),
{
    f.generic_params.len() > 0
}

/// Users specialize a function exactly when its body travels with the
/// artifact.
pub fn product_function_requires_downstream_specialization(f: &FunctionInterface) -> (r: bool)
    ensures
        r == requires_reusable_body(*f),
{
    product_function_interface_requires_reusable_body(f)
}

/// An impl whose body travels with the artifact: it is generic, or its
/// trait is applied generically, or one of its methods is generic.
pub open spec fn impl_requires_reusable_body(i: ImplInterface) -> bool {
    ||| i.type_generics@.len() > 0
    ||| i.trait_generics@.len() > 0
    ||| exists|k: int| 0 <= k < i.methods@.len() && requires_reusable_body(#[trigger] i.methods@[k].1)
}

pub fn product_impl_interface_requires_reusable_body(i: &ImplInterface) -> (r: bool)
    ensures
        r == impl_requires_reusable_body(*i),
{
    if i.type_generics.len() > 0 || i.trait_generics.len() > 0 {
        return true;
    }
    let mut k: usize = 0;
    while k < i.methods.len()
        invariant
            k <= i.methods@.len(),
            forall|j: int| 0 <= j < k ==> !requires_reusable_body(#[trigger] i.methods@[j].1),
        decreases i.methods.len() - k,
    {
        if product_function_interface_requires_reusable_body(&i.methods[k].1) {
            assert(requires_reusable_body(i.methods@[k as int].1));
            return true;
        }
        k = k + 1;
    }
    false
}

/// A type that code generation can lay out as it stands.
pub open spec fn concrete(t: Type) -> bool {
    !type_any(t, |x: Type| is_non_concrete_leaf(x))
}

pub fn product_type_is_codegen_concrete(t: &Type) -> (r: bool)
    ensures
        r == concrete(*t),
{
    is_codegen_concrete(t)
}

/// A function whose parameter and return types are all concrete.
pub open spec fn function_concrete(f: FunctionInterface) -> bool {
    !types_any(f.params@, |x: Type| is_non_concrete_leaf(x)) && concrete(f.ret_type)
}

pub fn product_function_is_codegen_concrete(f: &FunctionInterface) -> (r: bool)
    ensures
        r == function_concrete(*f),
{
    list_is_codegen_concrete(&f.params) && product_type_is_codegen_concrete(&f.ret_type)
}

/// A function compiled once into the artifact's object, so a link record
/// must name its symbol.
pub open spec fn requires_link_record(f: FunctionInterface) -> bool {
    !requires_reusable_body(f) && function_concrete(f)
}

pub fn product_function_requires_object_link_record(f: &FunctionInterface) -> (r: bool)
    ensures
        r == requires_link_record(*f),
{
    !product_function_requires_downstream_specialization(f) && product_function_is_codegen_concrete(f)
}

/// An impl that is compiled once: no generics, and every type it is written
/// with is concrete.
pub open spec fn impl_link_concrete(i: ImplInterface) -> bool {
    &&& i.type_generics@.len() == 0
    &&& concrete(i.receiver_pattern.pattern_type())
    &&& !types_any(i.trait_arg_types@, |x: Type| is_non_concrete_leaf(x))
    &&& forall|k: int| 0 <= k < i.associated_types@.len() ==> concrete(#[trigger] i.associated_types@[k].ty)
}

pub fn product_impl_link_shape_is_codegen_concrete(i: &ImplInterface) -> (r: bool)
    ensures
        r == impl_link_concrete(*i),
{
    if !(i.type_generics.len() == 0 && product_type_is_codegen_concrete(i.receiver_pattern.ty())
        && list_is_codegen_concrete(&i.trait_arg_types)) {
        return false;
    }
    let mut k: usize = 0;
    while k < i.associated_types.len()
        invariant
            k <= i.associated_types@.len(),
            forall|j: int| 0 <= j < k ==> concrete(#[trigger] i.associated_types@[j].ty),
        decreases i.associated_types.len() - k,
    {
        if !product_type_is_codegen_concrete(&i.associated_types[k].ty) {
            return false;
        }
        k = k + 1;
    }
    true
}

/// An impl method compiled once into the artifact's object.
pub open spec fn impl_method_requires_link_record(i: ImplInterface, m: FunctionInterface) -> bool {
    impl_link_concrete(i) && requires_link_record(m)
}

pub fn product_impl_method_requires_object_link_record(i: &ImplInterface, m: &FunctionInterface) -> (r: bool)
    ensures
        r == impl_method_requires_link_record(*i, *m),
{
    product_impl_link_shape_is_codegen_concrete(i) && product_function_requires_object_link_record(m)
}

// ----- link records -----

/// An artifact with an object file has a link record for every function and
/// impl method compiled into it.
pub open spec fn link_records_ok(p: CompilerProducts) -> bool {
    p.link.object_path is Some ==> {
        &&& forall|i: int| 0 <= i < p.interface.functions@.len() ==> requires_link_record(
            (#[trigger] p.interface.functions@[i]).1,
        ) ==> has_key(p.link.records@, p.interface.functions@[i].0)
        &&& forall|i: int, k: int| 0 <= i < p.interface.impls@.len() && 0 <= k < p.interface.impls@[i].1.methods@.len()
            && impl_method_requires_link_record(p.interface.impls@[i].1, (#[trigger] p.interface.impls@[i].1.methods@[k]).1)
            ==> has_key(p.link.records@, spec_product_of(p.interface.impls@[i].1.methods@[k].1.id))
    }
}

/// The check that an object-backed function has a link record.
pub open spec fn function_link_check(p: CompilerProducts, e: (ProductDefId, FunctionInterface)) -> Result<(), Seq<char>> {
    if requires_link_record(e.1) && !has_key(p.link.records@, e.0) {
        Err("Product artifact object-backed function '"@ + e.1.name@ + "' ID "@ + decimal(e.0.crate_id.0 as nat) + "::"@
            + decimal(e.0.local_id.0 as nat) + " is missing link record backend symbol"@)
    } else {
        Ok(())
    }
}

/// The check that an object-backed method of impl `id` has a link record.
pub open spec fn impl_method_link_check(p: CompilerProducts, id: ProductDefId, i: ImplInterface, m: (String, FunctionInterface)) -> Result<(), Seq<char>> {
    if impl_method_requires_link_record(i, m.1) && !has_key(p.link.records@, spec_product_of(m.1.id)) {
        Err("Product artifact object-backed impl "@ + decimal(id.local_id.0 as nat) + " method '"@ + m.0@ + "' ID "@
            + decimal(spec_product_of(m.1.id).crate_id.0 as nat) + "::"@ + decimal(spec_product_of(m.1.id).local_id.0 as nat)
            + " is missing link record backend symbol"@)
    } else {
        Ok(())
    }
}

pub open spec fn function_link_checks(p: CompilerProducts) -> spec_fn((ProductDefId, FunctionInterface)) -> Result<(), Seq<char>> {
    |e: (ProductDefId, FunctionInterface)| function_link_check(p, e)
}

pub open spec fn impl_method_link_checks(p: CompilerProducts, id: ProductDefId, i: ImplInterface) -> spec_fn((String, FunctionInterface)) -> Result<(), Seq<char>> {
    |m: (String, FunctionInterface)| impl_method_link_check(p, id, i, m)
}

pub open spec fn impl_link_checks(p: CompilerProducts) -> spec_fn((ProductDefId, ImplInterface)) -> Result<(), Seq<char>> {
    |e: (ProductDefId, ImplInterface)| first_error(e.1.methods@, impl_method_link_checks(p, e.0, e.1))
}

/// The outcome of checking link records: with an object file, every
/// object-backed function, then every object-backed impl method, in table
/// order, needs a link record; the first without one is reported.
pub open spec fn link_records_outcome(p: CompilerProducts) -> Result<(), Seq<char>> {
    if p.link.object_path is None {
        Ok(())
    } else {
        crate::validator::and_then(first_error(p.interface.functions@, function_link_checks(p)),
            first_error(p.interface.impls@, impl_link_checks(p)))
    }
}

/// Checks that an artifact with an object file has a link record for every
/// function and impl method compiled into it; the first without one is
/// reported.
#[verifier::loop_isolation(false)]
pub fn validate_object_link_records(products: &CompilerProducts) -> (r: Result<(), String>)
    ensures
        r is Ok <==> link_records_ok(*products),
        outcome_is(r, link_records_outcome(*products)),
{
    if products.link.object_path.is_none() {
        return Ok(());
    }
    let f = &products.interface;
    let ghost c1 = function_link_checks(*products);
    let ghost c2 = impl_link_checks(*products);
    let mut i: usize = 0;
    while i < f.functions.len()
        invariant
            i <= f.functions@.len(),
            first_error(f.functions@.take(i as int), c1) is Ok,
            forall|j: int| 0 <= j < i ==> requires_link_record((#[trigger] f.functions@[j]).1)
                ==> has_key(products.link.records@, f.functions@[j].0),
        decreases f.functions@.len() - i,
    {
        let e = f.functions.entry(i);
        if product_function_requires_object_link_record(&e.1) && !products.link.records.contains_key(e.0) {
            let mut s = text("Product artifact object-backed function '");
            push_str(&mut s, e.1.name.as_str());
            push_str(&mut s, "' ID ");
            push_decimal(&mut s, e.0.crate_id.0 as u64);
            push_str(&mut s, "::");
            push_decimal(&mut s, e.0.local_id.0 as u64);
            push_str(&mut s, " is missing link record backend symbol");
            proof {
                assert(s@ =~= c1(f.functions@[i as int])->Err_0);
                lemma_first_error_at(f.functions@, c1, i as int);
            }
            return Err(s);
        }
        proof {
            lemma_first_error_step(f.functions@, c1, i as int);
        }
        i = i + 1;
    }
    proof {
        assert(f.functions@.take(i as int) =~= f.functions@);
    }
    let mut i: usize = 0;
    while i < f.impls.len()
        invariant
            i <= f.impls@.len(),
            first_error(f.impls@.take(i as int), c2) is Ok,
            forall|q: int, k: int| 0 <= q < i && 0 <= k < f.impls@[q].1.methods@.len()
                && impl_method_requires_link_record(f.impls@[q].1, (#[trigger] f.impls@[q].1.methods@[k]).1)
                ==> has_key(products.link.records@, spec_product_of(f.impls@[q].1.methods@[k].1.id)),
        decreases f.impls@.len() - i,
    {
        let e = f.impls.entry(i);
        let ghost cm = impl_method_link_checks(*products, e.0, e.1);
        let mut k: usize = 0;
        while k < e.1.methods.len()
            invariant
                k <= e.1.methods@.len(),
                *e == f.impls@[i as int],
                first_error(e.1.methods@.take(k as int), cm) is Ok,
                forall|q: int, j: int| 0 <= q < i && 0 <= j < f.impls@[q].1.methods@.len()
                    && impl_method_requires_link_record(f.impls@[q].1, (#[trigger] f.impls@[q].1.methods@[j]).1)
                    ==> has_key(products.link.records@, spec_product_of(f.impls@[q].1.methods@[j].1.id)),
                forall|j: int| 0 <= j < k && impl_method_requires_link_record(e.1, (#[trigger] e.1.methods@[j]).1)
                    ==> has_key(products.link.records@, spec_product_of(e.1.methods@[j].1.id)),
            decreases e.1.methods.len() - k,
        {
            let method = &e.1.methods[k];
            let method_id = ProductDefId::from_def_id(method.1.id);
            if product_impl_method_requires_object_link_record(&e.1, &method.1) && !products.link.records.contains_key(method_id) {
                let mut s = text("Product artifact object-backed impl ");
                push_decimal(&mut s, e.0.local_id.0 as u64);
                push_str(&mut s, " method '");
                push_str(&mut s, method.0.as_str());
                push_str(&mut s, "' ID ");
                push_decimal(&mut s, method_id.crate_id.0 as u64);
                push_str(&mut s, "::");
                push_decimal(&mut s, method_id.local_id.0 as u64);
                push_str(&mut s, " is missing link record backend symbol");
                proof {
                    assert(s@ =~= cm(e.1.methods@[k as int])->Err_0);
                    lemma_first_error_at(e.1.methods@, cm, k as int);
                    assert(c2(f.impls@[i as int]) == first_error(e.1.methods@, cm));
                    lemma_first_error_at(f.impls@, c2, i as int);
                }
                return Err(s);
            }
            proof {
                lemma_first_error_step(e.1.methods@, cm, k as int);
            }
            k = k + 1;
        }
        proof {
            assert(e.1.methods@.take(k as int) =~= e.1.methods@);
            assert(c2(f.impls@[i as int]) == first_error(e.1.methods@, cm));
            lemma_first_error_step(f.impls@, c2, i as int);
        }
        i = i + 1;
    }
    proof {
        assert(f.impls@.take(i as int) =~= f.impls@);
    }
    Ok(())
}

/// `id` is declared as a function, a trait method or an impl method.
pub open spec fn has_callable_binding(f: ProductInterface, id: ProductDefId) -> bool {
    ||| has_key(f.functions@, id)
    ||| exists|i: int, k: int| 0 <= i < f.traits@.len() && 0 <= k < f.traits@[i].1.methods@.len()
        && spec_product_of((#[trigger] f.traits@[i].1.methods@[k]).1.id) == id
    ||| exists|i: int, k: int| 0 <= i < f.impls@.len() && 0 <= k < f.impls@[i].1.methods@.len()
        && spec_product_of((#[trigger] f.impls@[i].1.methods@[k]).1.id) == id
}

fn methods_contain(ms: &Vec<(String, FunctionInterface)>, id: ProductDefId) -> (r: bool)
    ensures
        r == exists|k: int| 0 <= k < ms@.len() && spec_product_of((#[trigger] ms@[k]).1.id) == id,
{
    let mut k: usize = 0;
    while k < ms.len()
        invariant
            k <= ms@.len(),
            forall|j: int| 0 <= j < k ==> spec_product_of((#[trigger] ms@[j]).1.id) != id,
        decreases ms.len() - k,
    {
        if ProductDefId::from_def_id(ms[k].1.id) == id {
            assert(spec_product_of(ms@[k as int].1.id) == id);
            return true;
        }
        k = k + 1;
    }
    false
}

/// Whether `id` is declared as a function, a trait method or an impl method.
#[verifier::loop_isolation(false)]
pub fn product_id_has_interface_callable_binding(products: &CompilerProducts, id: ProductDefId) -> (r: bool)
    ensures
        r == has_callable_binding(products.interface, id),
{
    let f = &products.interface;
    if f.functions.contains_key(id) {
        return true;
    }
    let mut i: usize = 0;
    while i < f.traits.len()
        invariant
            i <= f.traits@.len(),
            forall|q: int, k: int| 0 <= q < i && 0 <= k < f.traits@[q].1.methods@.len()
                ==> spec_product_of((#[trigger] f.traits@[q].1.methods@[k]).1.id) != id,
        decreases f.traits@.len() - i,
    {
        let e = f.traits.entry(i);
        if methods_contain(&e.1.methods, id) {
            return true;
        }
        i = i + 1;
    }
    let mut i: usize = 0;
    while i < f.impls.len()
        invariant
            i <= f.impls@.len(),
            forall|q: int, k: int| 0 <= q < i && 0 <= k < f.impls@[q].1.methods@.len()
                ==> spec_product_of((#[trigger] f.impls@[q].1.methods@[k]).1.id) != id,
        decreases f.impls@.len() - i,
    {
        let e = f.impls.entry(i);
        if methods_contain(&e.1.methods, id) {
            return true;
        }
        i = i + 1;
    }
    false
}

/// Checks that a backend symbol belongs to a declared callable.
pub fn validate_product_backend_symbol_id(products: &CompilerProducts, id: ProductDefId, row_kind: &str) -> (r: Result<(), String>)
    ensures
        outcome_is(r, if has_callable_binding(products.interface, id) {
            Ok(())
        } else {
            Err("Product artifact "@ + row_kind@ + " backend symbol for ID "@ + decimal(id.crate_id.0 as nat) + "::"@
                + decimal(id.local_id.0 as nat) + " has no interface callable declaration"@)
        }),
{
    if product_id_has_interface_callable_binding(products, id) {
        return Ok(());
    }
    let mut s = text("Product artifact ");
    push_str(&mut s, row_kind);
    push_str(&mut s, " backend symbol for ID ");
    push_decimal(&mut s, id.crate_id.0 as u64);
    push_str(&mut s, "::");
    push_decimal(&mut s, id.local_id.0 as u64);
    push_str(&mut s, " has no interface callable declaration");
    proof {
        assert(s@ =~= "Product artifact "@ + row_kind@ + " backend symbol for ID "@ + decimal(id.crate_id.0 as nat) + "::"@
            + decimal(id.local_id.0 as nat) + " has no interface callable declaration"@);
    }
    Err(s)
}

/// Every link record belongs to a declared callable, names a symbol, and
/// has a mapped crate.
pub open spec fn backend_symbols_ok(p: CompilerProducts, m: ProductIdentityRemap) -> bool {
    forall|i: int| 0 <= i < p.link.records@.len() ==> {
        &&& has_callable_binding(p.interface, (#[trigger] p.link.records@[i]).0)
        &&& p.link.records@[i].1.backend_symbol@.len() > 0
        &&& m.spec_def_id(p.link.records@[i].0) is Some
    }
}

/// The check of one link record: it belongs to a declared callable, names
/// a symbol, and its crate is mapped.
pub open spec fn link_record_check(p: CompilerProducts, m: ProductIdentityRemap, e: (ProductDefId, crate::products::ProductLinkRecord)) -> Result<(), Seq<char>> {
    if !has_callable_binding(p.interface, e.0) {
        Err("Product artifact "@ + "link record"@ + " backend symbol for ID "@ + decimal(e.0.crate_id.0 as nat) + "::"@
            + decimal(e.0.local_id.0 as nat) + " has no interface callable declaration"@)
    } else if e.1.backend_symbol@.len() == 0 {
        Err("Product artifact link record for ID "@ + decimal(e.0.crate_id.0 as nat) + "::"@ + decimal(e.0.local_id.0 as nat)
            + " has empty backend symbol"@)
    } else if m.spec_def_id(e.0) is None {
        Err(crate::remap::msg_unmapped(e.0))
    } else {
        Ok(())
    }
}

pub open spec fn link_record_checks(p: CompilerProducts, m: ProductIdentityRemap) -> spec_fn((ProductDefId, crate::products::ProductLinkRecord)) -> Result<(), Seq<char>> {
    |e: (ProductDefId, crate::products::ProductLinkRecord)| link_record_check(p, m, e)
}

/// The backend symbol of each link record under its session identity; the
/// first record that fails its check is reported.
#[verifier::loop_isolation(false)]
pub fn backend_symbols_from_products(products: &CompilerProducts, remap: &ProductIdentityRemap) -> (r: Result<Vec<(DefId, String)>, String>)
    ensures
        r is Ok <==> backend_symbols_ok(*products, *remap),
        r matches Err(e) ==> first_error(products.link.records@, link_record_checks(*products, *remap)) == Err::<(), Seq<char>>(e@),
        r matches Ok(syms) ==> syms@.len() == products.link.records@.len() && forall|i: int| 0 <= i < syms@.len()
            ==> Some((#[trigger] syms@[i]).0) == remap.spec_def_id(products.link.records@[i].0)
                && syms@[i].1@ == products.link.records@[i].1.backend_symbol@,
{
    let records = &products.link.records;
    let ghost c = link_record_checks(*products, *remap);
    let mut out: Vec<(DefId, String)> = Vec::new();
    let mut i: usize = 0;
    while i < records.len()
        invariant
            i <= records@.len(),
            out@.len() == i,
            first_error(records@.take(i as int), c) is Ok,
            forall|j: int| 0 <= j < i ==> {
                &&& has_callable_binding(products.interface, (#[trigger] records@[j]).0)
                &&& records@[j].1.backend_symbol@.len() > 0
                &&& remap.spec_def_id(records@[j].0) is Some
            },
            forall|j: int| 0 <= j < i ==> Some((#[trigger] out@[j]).0) == remap.spec_def_id(records@[j].0)
                && out@[j].1@ == records@[j].1.backend_symbol@,
        decreases records@.len() - i,
    {
        let e = records.entry(i);
        let checked = validate_product_backend_symbol_id(products, e.0, "link record");
        if checked.is_err() {
            proof {
                assert(!has_callable_binding(products.interface, records@[i as int].0));
                lemma_first_error_at(records@, c, i as int);
            }
            return Err(checked.unwrap_err());
        }
        if e.1.backend_symbol.as_str().is_empty() {
            let mut s = text("Product artifact link record for ID ");
            push_decimal(&mut s, e.0.crate_id.0 as u64);
            push_str(&mut s, "::");
            push_decimal(&mut s, e.0.local_id.0 as u64);
            push_str(&mut s, " has empty backend symbol");
            proof {
                assert(records@[i as int].1.backend_symbol@.len() == 0);
                assert(s@ =~= c(records@[i as int])->Err_0);
                lemma_first_error_at(records@, c, i as int);
            }
            return Err(s);
        }
        let d = match remap.def_id(e.0) {
            Ok(d) => d,
            Err(err) => {
                proof {
                    lemma_first_error_at(records@, c, i as int);
                }
                return Err(err);
            },
        };
        proof {
            lemma_first_error_step(records@, c, i as int);
        }
        out.push((d, e.1.backend_symbol.clone()));
        i = i + 1;
    }
    Ok(out)
}


// ----- interface rows -----

/// The callable identities that a trait's methods and signatures embed.
pub open spec fn trait_callable_ids(t: crate::products::TraitInterface) -> Seq<ProductDefId> {
    Seq::new(t.methods@.len(), |k: int| spec_product_of(t.methods@[k].1.id))
        + Seq::new(t.signatures@.len(), |k: int| spec_product_of(t.signatures@[k].1.id))
}

/// The callable identities of all traits in table order.
pub open spec fn traits_callables(ts: Seq<(ProductDefId, crate::products::TraitInterface)>) -> Seq<ProductDefId>
    decreases ts.len(),
{
    if ts.len() == 0 {
        Seq::empty()
    } else {
        traits_callables(ts.drop_last()) + trait_callable_ids(ts.last().1)
    }
}

/// The callable identities that an impl's methods embed.
pub open spec fn impl_callable_ids(i: ImplInterface) -> Seq<ProductDefId> {
    Seq::new(i.methods@.len(), |k: int| spec_product_of(i.methods@[k].1.id))
}

/// The callable identities of all impls in table order.
pub open spec fn impls_callables(is: Seq<(ProductDefId, ImplInterface)>) -> Seq<ProductDefId>
    decreases is.len(),
{
    if is.len() == 0 {
        Seq::empty()
    } else {
        impls_callables(is.drop_last()) + impl_callable_ids(is.last().1)
    }
}

/// Every callable identity an interface declares, in declaration order.
pub open spec fn callables(f: ProductInterface) -> Seq<ProductDefId> {
    crate::tables::keys_of(f.functions@) + traits_callables(f.traits@) + impls_callables(f.impls@)
        + crate::tables::keys_of(f.externs@)
}

/// No identity occurs twice.
pub open spec fn distinct(s: Seq<ProductDefId>) -> bool {
    forall|i: int, j: int| 0 <= i < j < s.len() ==> s[i] != s[j]
}

/// Every row of the table belongs to crate `lc` and embeds its own key.
pub open spec fn table_rows_ok<V>(s: Seq<(ProductDefId, V)>, lc: ProductCrateId, embedded: spec_fn(V) -> DefId) -> bool {
    forall|i: int| 0 <= i < s.len() ==> (#[trigger] s[i]).0.crate_id == lc && spec_product_of(embedded(s[i].1)) == s[i].0
}

/// The rows of an artifact's interface are local, embed their keys, name
/// their methods as they are keyed, and declare each callable once.
pub open spec fn interface_rows_ok(p: CompilerProducts) -> bool {
    let f = p.interface;
    p.identity_table.local_crate matches Some(lc) && {
        &&& table_rows_ok(f.functions@, lc, |x: FunctionInterface| x.id)
        &&& table_rows_ok(f.structs@, lc, |x: crate::products::StructInterface| x.id)
        &&& table_rows_ok(f.enums@, lc, |x: crate::products::EnumInterface| x.id)
        &&& table_rows_ok(f.type_aliases@, lc, |x: crate::products::TypeAliasInterface| x.id)
        &&& table_rows_ok(f.traits@, lc, |x: crate::products::TraitInterface| x.id)
        &&& table_rows_ok(f.impls@, lc, |x: ImplInterface| x.id)
        &&& table_rows_ok(f.externs@, lc, |x: crate::products::ExternInterface| x.id)
        &&& forall|i: int, k: int| 0 <= i < f.traits@.len() && 0 <= k < f.traits@[i].1.methods@.len() ==> {
            &&& (#[trigger] f.traits@[i].1.methods@[k]).1.name@ == f.traits@[i].1.methods@[k].0@
            &&& spec_product_of(f.traits@[i].1.methods@[k].1.id).crate_id == lc
        }
        &&& forall|i: int, k: int| 0 <= i < f.traits@.len() && 0 <= k < f.traits@[i].1.signatures@.len() ==> {
            &&& (#[trigger] f.traits@[i].1.signatures@[k]).1.name@ == f.traits@[i].1.signatures@[k].0@
            &&& spec_product_of(f.traits@[i].1.signatures@[k].1.id).crate_id == lc
        }
        &&& forall|i: int, k: int| 0 <= i < f.impls@.len() && 0 <= k < f.impls@[i].1.methods@.len() ==> {
            &&& (#[trigger] f.impls@[i].1.methods@[k]).1.name@ == f.impls@[i].1.methods@[k].0@
            &&& spec_product_of(f.impls@[i].1.methods@[k].1.id).crate_id == lc
        }
        &&& distinct(callables(f))
    }
}

/// Checks that an interface row belongs to the local product crate.
/// What checking an interface row of kind `kind`, keyed `id` and embedding
/// `embedded`, reports: that it is local, then that it embeds its key.
pub open spec fn row_outcome(kind: Seq<char>, id: ProductDefId, embedded: DefId, lc: ProductCrateId) -> Result<(), Seq<char>> {
    if id.crate_id != lc {
        Err("Product artifact interface "@ + kind + " row "@ + decimal(id.crate_id.0 as nat) + "::"@
            + decimal(id.local_id.0 as nat) + " is non-local; expected product crate "@ + decimal(lc.0 as nat))
    } else if spec_product_of(embedded) != id {
        Err("Product artifact interface "@ + kind + " row "@ + decimal(id.local_id.0 as nat) + " has embedded ID "@
            + decimal(embedded.local.0 as nat))
    } else {
        Ok(())
    }
}

/// The check of each row of a table of kind `kind`.
pub open spec fn row_checks<V>(kind: Seq<char>, lc: ProductCrateId, embedded: spec_fn(V) -> DefId) -> spec_fn((ProductDefId, V)) -> Result<(), Seq<char>> {
    |e: (ProductDefId, V)| row_outcome(kind, e.0, embedded(e.1), lc)
}

/// `msg` may be what the interface row check reports: that the artifact
/// names no local crate; then the error of the first function, struct, enum
/// and type alias row that fails. Any message is allowed when the first
/// failure lies in the trait, impl or extern rows.
pub open spec fn rows_err(p: CompilerProducts, msg: Seq<char>) -> bool {
    match p.identity_table.local_crate {
        None => msg == crate::remap::msg_no_local_crate(p.crate_identity.name@),
        Some(lc) => {
            let f = p.interface;
            let fr = first_error(f.functions@, row_checks("function"@, lc, |x: FunctionInterface| x.id));
            let sr = first_error(f.structs@, row_checks("struct"@, lc, |x: crate::products::StructInterface| x.id));
            let er = first_error(f.enums@, row_checks("enum"@, lc, |x: crate::products::EnumInterface| x.id));
            let ar = first_error(f.type_aliases@, row_checks("type alias"@, lc, |x: crate::products::TypeAliasInterface| x.id));
            if fr is Err {
                fr == Err::<(), Seq<char>>(msg)
            } else if sr is Err {
                sr == Err::<(), Seq<char>>(msg)
            } else if er is Err {
                er == Err::<(), Seq<char>>(msg)
            } else if ar is Err {
                ar == Err::<(), Seq<char>>(msg)
            } else {
                true
            }
        },
    }
}

pub fn validate_product_interface_local_id(row_kind: &str, row_id: ProductDefId, local_crate: ProductCrateId) -> (r: Result<(), String>)
    ensures
        outcome_is(r, if row_id.crate_id != local_crate {
            Err("Product artifact interface "@ + row_kind@ + " row "@ + decimal(row_id.crate_id.0 as nat) + "::"@
                + decimal(row_id.local_id.0 as nat) + " is non-local; expected product crate "@ + decimal(local_crate.0 as nat))
        } else {
            Ok(())
        }),
{
    if row_id.crate_id != local_crate {
        let mut s = text("Product artifact interface ");
        push_str(&mut s, row_kind);
        push_str(&mut s, " row ");
        push_decimal(&mut s, row_id.crate_id.0 as u64);
        push_str(&mut s, "::");
        push_decimal(&mut s, row_id.local_id.0 as u64);
        push_str(&mut s, " is non-local; expected product crate ");
        push_decimal(&mut s, local_crate.0 as u64);
        proof {
            assert(s@ =~= "Product artifact interface "@ + row_kind@ + " row "@ + decimal(row_id.crate_id.0 as nat) + "::"@
                + decimal(row_id.local_id.0 as nat) + " is non-local; expected product crate "@ + decimal(local_crate.0 as nat));
        }
        return Err(s);
    }
    Ok(())
}

/// Checks that an interface row embeds the identity it is keyed by.
pub fn validate_product_interface_def_id(row_kind: &str, row_id: ProductDefId, embedded_id: DefId) -> (r: Result<(), String>)
    ensures
        outcome_is(r, if spec_product_of(embedded_id) != row_id {
            Err("Product artifact interface "@ + row_kind@ + " row "@ + decimal(row_id.local_id.0 as nat) + " has embedded ID "@
                + decimal(embedded_id.local.0 as nat))
        } else {
            Ok(())
        }),
{
    if ProductDefId::from_def_id(embedded_id) != row_id {
        let mut s = text("Product artifact interface ");
        push_str(&mut s, row_kind);
        push_str(&mut s, " row ");
        push_decimal(&mut s, row_id.local_id.0 as u64);
        push_str(&mut s, " has embedded ID ");
        push_decimal(&mut s, embedded_id.local.0 as u64);
        proof {
            assert(s@ =~= "Product artifact interface "@ + row_kind@ + " row "@ + decimal(row_id.local_id.0 as nat) + " has embedded ID "@
                + decimal(embedded_id.local.0 as nat));
        }
        return Err(s);
    }
    Ok(())
}

fn name_message(owner_kind: &str, owner_id: ProductDefId, what: &str, key: &str, name: &str) -> (r: String)
    ensures
        r@ == "Product artifact interface "@ + owner_kind@ + " "@ + decimal(owner_id.local_id.0 as nat) + what@ + key@
            + "' has name '"@ + name@ + "'"@,
{
    let mut s = text("Product artifact interface ");
    push_str(&mut s, owner_kind);
    push_str(&mut s, " ");
    push_decimal(&mut s, owner_id.local_id.0 as u64);
    push_str(&mut s, what);
    push_str(&mut s, key);
    push_str(&mut s, "' has name '");
    push_str(&mut s, name);
    push_str(&mut s, "'");
    proof {
        assert(s@ =~= "Product artifact interface "@ + owner_kind@ + " "@ + decimal(owner_id.local_id.0 as nat) + what@ + key@
            + "' has name '"@ + name@ + "'"@);
    }
    s
}

/// Checks that a method is keyed by its own name.
pub fn validate_product_interface_method_name(owner_kind: &str, owner_id: ProductDefId, method_name: &str, method: &FunctionInterface) -> (r: Result<(), String>)
    ensures
        outcome_is(r, if method.name@ != method_name@ {
            Err("Product artifact interface "@ + owner_kind@ + " "@ + decimal(owner_id.local_id.0 as nat) + " method '"@
                + method_name@ + "' has name '"@ + method.name@ + "'"@)
        } else {
            Ok(())
        }),
{
    if !crate::text::str_eq(method.name.as_str(), method_name) {
        return Err(name_message(owner_kind, owner_id, " method '", method_name, method.name.as_str()));
    }
    Ok(())
}

/// Checks that a signature is keyed by its own name.
pub fn validate_product_interface_signature_name(owner_kind: &str, owner_id: ProductDefId, signature_name: &str, signature: &crate::products::FunctionSig) -> (r: Result<(), String>)
    ensures
        outcome_is(r, if signature.name@ != signature_name@ {
            Err("Product artifact interface "@ + owner_kind@ + " "@ + decimal(owner_id.local_id.0 as nat) + " signature '"@
                + signature_name@ + "' has name '"@ + signature.name@ + "'"@)
        } else {
            Ok(())
        }),
{
    if !crate::text::str_eq(signature.name.as_str(), signature_name) {
        return Err(name_message(owner_kind, owner_id, " signature '", signature_name, signature.name.as_str()));
    }
    Ok(())
}

/// The message for a callable identity recorded twice.
pub open spec fn msg_duplicate_callable(id: ProductDefId, label: Seq<char>, used: Seq<char>) -> Seq<char> {
    "Product artifact duplicate callable ID "@ + decimal(id.crate_id.0 as nat) + "::"@ + decimal(id.local_id.0 as nat)
        + " for "@ + label + "; already used by "@ + used
}

/// The first recording of `id`, at position `k`.
pub open spec fn first_recorded(ids: Seq<ProductDefId>, id: ProductDefId, k: int) -> bool {
    &&& 0 <= k < ids.len()
    &&& ids[k] == id
    &&& forall|j: int| 0 <= j < k ==> ids[j] != id
}

/// The message for a nested callable of another crate.
pub open spec fn msg_nested_nonlocal(
    owner_kind: Seq<char>,
    owner_id: ProductDefId,
    callable_kind: Seq<char>,
    callable_name: Seq<char>,
    id: ProductDefId,
    local_crate: ProductCrateId,
) -> Seq<char> {
    "Product artifact interface "@ + owner_kind + " "@ + decimal(owner_id.local_id.0 as nat) + " "@ + callable_kind + " '"@
        + callable_name + "' uses non-local callable ID "@ + decimal(id.crate_id.0 as nat) + "::"@ + decimal(id.local_id.0 as nat)
        + "; expected product crate "@ + decimal(local_crate.0 as nat)
}

/// The label of a nested callable in duplicate reports.
pub open spec fn nested_label(owner_kind: Seq<char>, owner_id: ProductDefId, callable_kind: Seq<char>, callable_name: Seq<char>) -> Seq<char> {
    owner_kind + " "@ + decimal(owner_id.local_id.0 as nat) + " "@ + callable_kind + " '"@ + callable_name + "'"@
}

/// The labels of recorded callables, by identity, in recording order.
pub struct CallableIds {
    pub ids: Vec<ProductDefId>,
    pub labels: Vec<String>,
}

/// Records the callable `id` under `label`; refuses an identity recorded
/// before.
pub fn record_product_callable_id(callable_ids: &mut CallableIds, id: ProductDefId, label: String) -> (r: Result<(), String>)
    requires
        old(callable_ids).ids@.len() == old(callable_ids).labels@.len(),
    ensures
        final(callable_ids).ids@.len() == final(callable_ids).labels@.len(),
        r is Ok <==> !old(callable_ids).ids@.contains(id),
        r is Ok ==> final(callable_ids).ids@ == old(callable_ids).ids@.push(id),
        r is Err ==> final(callable_ids).ids@ == old(callable_ids).ids@,
        r matches Err(e) ==> exists|k: int| first_recorded(old(callable_ids).ids@, id, k)
            && e@ == msg_duplicate_callable(id, label@, old(callable_ids).labels@[k]@),
{
    let mut k: usize = 0;
    while k < callable_ids.ids.len()
        invariant
            k <= callable_ids.ids@.len(),
            callable_ids.ids@.len() == callable_ids.labels@.len(),
            forall|j: int| 0 <= j < k ==> callable_ids.ids@[j] != id,
        decreases callable_ids.ids.len() - k,
    {
        if callable_ids.ids[k] == id {
            let mut s = text("Product artifact duplicate callable ID ");
            push_decimal(&mut s, id.crate_id.0 as u64);
            push_str(&mut s, "::");
            push_decimal(&mut s, id.local_id.0 as u64);
            push_str(&mut s, " for ");
            push_str(&mut s, label.as_str());
            push_str(&mut s, "; already used by ");
            push_str(&mut s, callable_ids.labels[k].as_str());
            proof {
                assert(callable_ids.ids@[k as int] == id);
                assert(s@ =~= msg_duplicate_callable(id, label@, old(callable_ids).labels@[k as int]@));
                assert(first_recorded(old(callable_ids).ids@, id, k as int));
            }
            return Err(s);
        }
        k = k + 1;
    }
    callable_ids.ids.push(id);
    callable_ids.labels.push(label);
    Ok(())
}

/// Records a callable nested in a trait or impl; refuses one from another
/// crate.
pub fn record_product_nested_callable_id(
    callable_ids: &mut CallableIds,
    local_crate: ProductCrateId,
    owner_kind: &str,
    owner_id: ProductDefId,
    callable_kind: &str,
    callable_name: &str,
    embedded_id: DefId,
) -> (r: Result<(), String>)
    requires
        old(callable_ids).ids@.len() == old(callable_ids).labels@.len(),
    ensures
        final(callable_ids).ids@.len() == final(callable_ids).labels@.len(),
        r is Ok <==> spec_product_of(embedded_id).crate_id == local_crate && !old(callable_ids).ids@.contains(spec_product_of(embedded_id)),
        r is Ok ==> final(callable_ids).ids@ == old(callable_ids).ids@.push(spec_product_of(embedded_id)),
        r is Err ==> final(callable_ids).ids@ == old(callable_ids).ids@,
        r matches Err(e) ==> if spec_product_of(embedded_id).crate_id != local_crate {
            e@ == msg_nested_nonlocal(owner_kind@, owner_id, callable_kind@, callable_name@, spec_product_of(embedded_id), local_crate)
        } else {
            exists|k: int| first_recorded(old(callable_ids).ids@, spec_product_of(embedded_id), k)
                && e@ == msg_duplicate_callable(spec_product_of(embedded_id),
                    nested_label(owner_kind@, owner_id, callable_kind@, callable_name@), old(callable_ids).labels@[k]@)
        },
{
    let id = ProductDefId::from_def_id(embedded_id);
    if id.crate_id != local_crate {
        let mut s = text("Product artifact interface ");
        push_str(&mut s, owner_kind);
        push_str(&mut s, " ");
        push_decimal(&mut s, owner_id.local_id.0 as u64);
        push_str(&mut s, " ");
        push_str(&mut s, callable_kind);
        push_str(&mut s, " '");
        push_str(&mut s, callable_name);
        push_str(&mut s, "' uses non-local callable ID ");
        push_decimal(&mut s, id.crate_id.0 as u64);
        push_str(&mut s, "::");
        push_decimal(&mut s, id.local_id.0 as u64);
        push_str(&mut s, "; expected product crate ");
        push_decimal(&mut s, local_crate.0 as u64);
        proof {
            assert(s@ =~= msg_nested_nonlocal(owner_kind@, owner_id, callable_kind@, callable_name@, id, local_crate));
        }
        return Err(s);
    }
    let mut label = text(owner_kind);
    push_str(&mut label, " ");
    push_decimal(&mut label, owner_id.local_id.0 as u64);
    push_str(&mut label, " ");
    push_str(&mut label, callable_kind);
    push_str(&mut label, " '");
    push_str(&mut label, callable_name);
    push_str(&mut label, "'");
    proof {
        reveal_strlit("'");
        assert(label@ =~= nested_label(owner_kind@, owner_id, callable_kind@, callable_name@));
    }
    record_product_callable_id(callable_ids, id, label)
}


/// `a` is a prefix of `b`.
pub open spec fn is_prefix(a: Seq<ProductDefId>, b: Seq<ProductDefId>) -> bool {
    a.len() <= b.len() && b.take(a.len() as int) == a
}

proof fn lemma_prefix_trans(a: Seq<ProductDefId>, b: Seq<ProductDefId>, c: Seq<ProductDefId>)
    requires
        is_prefix(a, b),
        is_prefix(b, c),
    ensures
        is_prefix(a, c),
{
    assert(c.take(a.len() as int) =~= b.take(a.len() as int));
}

proof fn lemma_prefix_append(a: Seq<ProductDefId>, b: Seq<ProductDefId>, x: Seq<ProductDefId>)
    requires
        is_prefix(a, b),
    ensures
        is_prefix(x + a, x + b),
        is_prefix(a, b + x),
{
    assert((x + b).take((x + a).len() as int) =~= x + a);
    assert((b + x).take(a.len() as int) =~= b.take(a.len() as int));
}

proof fn lemma_dup_prefix(p: Seq<ProductDefId>, x: ProductDefId, s: Seq<ProductDefId>)
    requires
        is_prefix(p.push(x), s),
        p.contains(x),
    ensures
        !distinct(s),
{
    let j = choose|j: int| 0 <= j < p.len() && p[j] == x;
    assert(s[j] == p.push(x)[j]);
    assert(s[p.len() as int] == p.push(x)[p.len() as int]);
}

proof fn lemma_distinct_push(p: Seq<ProductDefId>, x: ProductDefId)
    requires
        distinct(p),
        !p.contains(x),
    ensures
        distinct(p.push(x)),
{
    assert forall|i: int, j: int| 0 <= i < j < p.push(x).len() implies p.push(x)[i] != p.push(x)[j] by {
        if j == p.len() {
            assert(p.push(x)[i] == p[i]);
        }
    }
}

proof fn lemma_traits_callables_prefix(ts: Seq<(ProductDefId, crate::products::TraitInterface)>, i: int)
    requires
        0 <= i <= ts.len(),
    ensures
        is_prefix(traits_callables(ts.take(i)), traits_callables(ts)),
    decreases ts.len() - i,
{
    if i == ts.len() {
        assert(ts.take(i) =~= ts);
        assert(traits_callables(ts).take(traits_callables(ts).len() as int) =~= traits_callables(ts));
    } else {
        lemma_traits_callables_prefix(ts, i + 1);
        assert(ts.take(i + 1).drop_last() =~= ts.take(i));
        assert(traits_callables(ts.take(i)).take(traits_callables(ts.take(i)).len() as int) =~= traits_callables(ts.take(i)));
        lemma_prefix_append(traits_callables(ts.take(i)), traits_callables(ts.take(i)), trait_callable_ids(ts[i].1));
        lemma_prefix_trans(traits_callables(ts.take(i)), traits_callables(ts.take(i + 1)), traits_callables(ts));
    }
}

proof fn lemma_impls_callables_prefix(is: Seq<(ProductDefId, ImplInterface)>, i: int)
    requires
        0 <= i <= is.len(),
    ensures
        is_prefix(impls_callables(is.take(i)), impls_callables(is)),
    decreases is.len() - i,
{
    if i == is.len() {
        assert(is.take(i) =~= is);
        assert(impls_callables(is).take(impls_callables(is).len() as int) =~= impls_callables(is));
    } else {
        lemma_impls_callables_prefix(is, i + 1);
        assert(is.take(i + 1).drop_last() =~= is.take(i));
        assert(impls_callables(is.take(i)).take(impls_callables(is.take(i)).len() as int) =~= impls_callables(is.take(i)));
        lemma_prefix_append(impls_callables(is.take(i)), impls_callables(is.take(i)), impl_callable_ids(is[i].1));
        lemma_prefix_trans(impls_callables(is.take(i)), impls_callables(is.take(i + 1)), impls_callables(is));
    }
}


proof fn lemma_prefix_refl(a: Seq<ProductDefId>)
    ensures
        is_prefix(a, a),
{
    assert(a.take(a.len() as int) =~= a);
}

proof fn lemma_take_prefix(a: Seq<ProductDefId>, n: int)
    requires
        0 <= n <= a.len(),
    ensures
        is_prefix(a.take(n), a),
{
    assert(a.take(a.take(n).len() as int) =~= a.take(n));
}

/// What the functions part of the callables leaves as prefixes.
proof fn lemma_function_step(f: ProductInterface, n: int)
    requires
        0 <= n <= f.functions@.len(),
    ensures
        is_prefix(crate::tables::keys_of(f.functions@).take(n), callables(f)),
{
    let k = crate::tables::keys_of(f.functions@);
    lemma_take_prefix(k, n);
    assert(callables(f) =~= k + (traits_callables(f.traits@) + impls_callables(f.impls@) + crate::tables::keys_of(f.externs@)));
    lemma_prefix_refl(k);
    lemma_prefix_append(k, k, traits_callables(f.traits@) + impls_callables(f.impls@) + crate::tables::keys_of(f.externs@));
    lemma_prefix_trans(k.take(n), k, callables(f));
}

proof fn lemma_trait_step(f: ProductInterface, i: int, mid: Seq<ProductDefId>)
    requires
        0 <= i < f.traits@.len(),
        is_prefix(mid, trait_callable_ids(f.traits@[i].1)),
    ensures
        is_prefix(crate::tables::keys_of(f.functions@) + traits_callables(f.traits@.take(i)) + mid, callables(f)),
{
    let k = crate::tables::keys_of(f.functions@);
    let head = k + traits_callables(f.traits@.take(i));
    lemma_prefix_append(mid, trait_callable_ids(f.traits@[i].1), head);
    assert(f.traits@.take(i + 1).drop_last() =~= f.traits@.take(i));
    assert(head + trait_callable_ids(f.traits@[i].1) =~= k + traits_callables(f.traits@.take(i + 1)));
    lemma_traits_callables_prefix(f.traits@, i + 1);
    lemma_prefix_append(traits_callables(f.traits@.take(i + 1)), traits_callables(f.traits@), k);
    let rest = impls_callables(f.impls@) + crate::tables::keys_of(f.externs@);
    lemma_prefix_refl(k + traits_callables(f.traits@));
    lemma_prefix_append(k + traits_callables(f.traits@), k + traits_callables(f.traits@), rest);
    assert(callables(f) =~= (k + traits_callables(f.traits@)) + rest);
    lemma_prefix_trans(head + mid, head + trait_callable_ids(f.traits@[i].1), k + traits_callables(f.traits@));
    lemma_prefix_trans(head + mid, k + traits_callables(f.traits@), callables(f));
}

proof fn lemma_impl_step(f: ProductInterface, i: int, mid: Seq<ProductDefId>)
    requires
        0 <= i < f.impls@.len(),
        is_prefix(mid, impl_callable_ids(f.impls@[i].1)),
    ensures
        is_prefix(crate::tables::keys_of(f.functions@) + traits_callables(f.traits@) + impls_callables(f.impls@.take(i)) + mid, callables(f)),
{
    let k = crate::tables::keys_of(f.functions@) + traits_callables(f.traits@);
    let head = k + impls_callables(f.impls@.take(i));
    lemma_prefix_append(mid, impl_callable_ids(f.impls@[i].1), head);
    assert(f.impls@.take(i + 1).drop_last() =~= f.impls@.take(i));
    assert(head + impl_callable_ids(f.impls@[i].1) =~= k + impls_callables(f.impls@.take(i + 1)));
    lemma_impls_callables_prefix(f.impls@, i + 1);
    lemma_prefix_append(impls_callables(f.impls@.take(i + 1)), impls_callables(f.impls@), k);
    let rest = crate::tables::keys_of(f.externs@);
    lemma_prefix_refl(k + impls_callables(f.impls@));
    lemma_prefix_append(k + impls_callables(f.impls@), k + impls_callables(f.impls@), rest);
    assert(callables(f) =~= (k + impls_callables(f.impls@)) + rest);
    lemma_prefix_trans(head + mid, head + impl_callable_ids(f.impls@[i].1), k + impls_callables(f.impls@));
    lemma_prefix_trans(head + mid, k + impls_callables(f.impls@), callables(f));
}

proof fn lemma_extern_step(f: ProductInterface, n: int)
    requires
        0 <= n <= f.externs@.len(),
    ensures
        is_prefix(crate::tables::keys_of(f.functions@) + traits_callables(f.traits@) + impls_callables(f.impls@)
            + crate::tables::keys_of(f.externs@).take(n), callables(f)),
{
    let k = crate::tables::keys_of(f.functions@) + traits_callables(f.traits@) + impls_callables(f.impls@);
    let e = crate::tables::keys_of(f.externs@);
    lemma_take_prefix(e, n);
    lemma_prefix_append(e.take(n), e, k);
}

#[verifier::loop_isolation(false)]
fn check_function_rows(f: &ProductInterface, lc: ProductCrateId, ids: &mut CallableIds) -> (r: Result<(), String>)
    requires
        old(ids).ids@.len() == old(ids).labels@.len(),
        distinct(old(ids).ids@),
        old(ids).ids@.len() == 0,
    ensures
        final(ids).ids@.len() == final(ids).labels@.len(),
        r is Ok ==> distinct(final(ids).ids@) && final(ids).ids@ == crate::tables::keys_of(f.functions@) && table_rows_ok(f.functions@, lc, |x: FunctionInterface| x.id),
        r is Err ==> !(table_rows_ok(f.functions@, lc, |x: FunctionInterface| x.id) && distinct(callables(*f))),
        outcome_is(r, first_error(f.functions@, row_checks("function"@, lc, |x: FunctionInterface| x.id))),
{
    let ghost fk = crate::tables::keys_of(f.functions@);
    let ghost ck = row_checks("function"@, lc, |x: FunctionInterface| x.id);
    f.functions.keys_are_sorted();
    let mut i: usize = 0;
    while i < f.functions.len()
        invariant
            i <= f.functions@.len(),
            ck == row_checks("function"@, lc, |x: FunctionInterface| x.id),
            first_error(f.functions@.take(i as int), ck) is Ok,
            forall|a: int, b: int| 0 <= a < b < f.functions@.len() ==> (#[trigger] f.functions@[a]).0 != (#[trigger] f.functions@[b]).0,
            ids.ids@.len() == ids.labels@.len(),
            ids.ids@ == fk.take(i as int),
            distinct(ids.ids@),
            table_rows_ok(f.functions@.take(i as int), lc, |x: FunctionInterface| x.id),
        decreases f.functions@.len() - i,
    {
        let e = f.functions.entry(i);
        let c1 = validate_product_interface_local_id("function", e.0, lc);
        if c1.is_err() {
            proof { lemma_first_error_at(f.functions@, ck, i as int); }
            return c1;
        }
        let c2 = validate_product_interface_def_id("function", e.0, e.1.id);
        if c2.is_err() {
            proof { lemma_first_error_at(f.functions@, ck, i as int); }
            return c2;
        }
        proof {
            lemma_first_error_step(f.functions@, ck, i as int);
            assert forall|j: int| 0 <= j < i implies ids.ids@[j] != e.0 by {
                assert(ids.ids@[j] == fk[j]);
                assert(f.functions@[j].0 != f.functions@[i as int].0);
            }
        }
        let mut label = text("function '");
        push_str(&mut label, e.1.name.as_str());
        push_str(&mut label, "'");
        let ghost before = ids.ids@;
        let recorded = record_product_callable_id(ids, e.0, label);
        proof {
            assert(fk.take(i + 1) =~= before.push(e.0));
            lemma_function_step(*f, i + 1);
            if recorded.is_err() {
                lemma_dup_prefix(before, e.0, callables(*f));
            } else {
                lemma_distinct_push(before, e.0);
            }
            assert(f.functions@.take(i + 1) =~= f.functions@.take(i as int).push(f.functions@[i as int]));
        }
        if recorded.is_err() {
            return recorded;
        }
        i = i + 1;
    }
    assert(f.functions@.take(i as int) =~= f.functions@);
    assert(fk.take(i as int) =~= fk);
    Ok(())
}

#[verifier::loop_isolation(false)]
fn check_plain_rows(f: &ProductInterface, lc: ProductCrateId) -> (r: Result<(), String>)
    ensures
        r is Ok <==> table_rows_ok(f.structs@, lc, |x: crate::products::StructInterface| x.id)
            && table_rows_ok(f.enums@, lc, |x: crate::products::EnumInterface| x.id)
            && table_rows_ok(f.type_aliases@, lc, |x: crate::products::TypeAliasInterface| x.id),
        r is Ok ==> first_error(f.structs@, row_checks("struct"@, lc, |x: crate::products::StructInterface| x.id)) is Ok
            && first_error(f.enums@, row_checks("enum"@, lc, |x: crate::products::EnumInterface| x.id)) is Ok
            && first_error(f.type_aliases@, row_checks("type alias"@, lc, |x: crate::products::TypeAliasInterface| x.id)) is Ok,
        r matches Err(e) ==> {
            let sr = first_error(f.structs@, row_checks("struct"@, lc, |x: crate::products::StructInterface| x.id));
            let er = first_error(f.enums@, row_checks("enum"@, lc, |x: crate::products::EnumInterface| x.id));
            let ar = first_error(f.type_aliases@, row_checks("type alias"@, lc, |x: crate::products::TypeAliasInterface| x.id));
            if sr is Err {
                sr == Err::<(), Seq<char>>(e@)
            } else if er is Err {
                er == Err::<(), Seq<char>>(e@)
            } else {
                ar == Err::<(), Seq<char>>(e@)
            }
        },
{
    let ghost c_s = row_checks("struct"@, lc, |x: crate::products::StructInterface| x.id);
    let ghost c_e = row_checks("enum"@, lc, |x: crate::products::EnumInterface| x.id);
    let ghost c_a = row_checks("type alias"@, lc, |x: crate::products::TypeAliasInterface| x.id);
    let mut i: usize = 0;
    while i < f.structs.len()
        invariant
            i <= f.structs@.len(),
            table_rows_ok(f.structs@.take(i as int), lc, |x: crate::products::StructInterface| x.id),
            first_error(f.structs@.take(i as int), c_s) is Ok,
        decreases f.structs@.len() - i,
    {
        let e = f.structs.entry(i);
        let c1 = validate_product_interface_local_id("struct", e.0, lc);
        if c1.is_err() {
            proof { lemma_first_error_at(f.structs@, c_s, i as int); }
            return c1;
        }
        let c2 = validate_product_interface_def_id("struct", e.0, e.1.id);
        if c2.is_err() {
            proof { lemma_first_error_at(f.structs@, c_s, i as int); }
            return c2;
        }
        proof {
            lemma_first_error_step(f.structs@, c_s, i as int);
            assert(f.structs@.take(i + 1) =~= f.structs@.take(i as int).push(f.structs@[i as int]));
        }
        i = i + 1;
    }
    assert(f.structs@.take(i as int) =~= f.structs@);
    let mut i: usize = 0;
    while i < f.enums.len()
        invariant
            i <= f.enums@.len(),
            table_rows_ok(f.enums@.take(i as int), lc, |x: crate::products::EnumInterface| x.id),
            first_error(f.enums@.take(i as int), c_e) is Ok,
        decreases f.enums@.len() - i,
    {
        let e = f.enums.entry(i);
        let c1 = validate_product_interface_local_id("enum", e.0, lc);
        if c1.is_err() {
            proof { lemma_first_error_at(f.enums@, c_e, i as int); }
            return c1;
        }
        let c2 = validate_product_interface_def_id("enum", e.0, e.1.id);
        if c2.is_err() {
            proof { lemma_first_error_at(f.enums@, c_e, i as int); }
            return c2;
        }
        proof {
            lemma_first_error_step(f.enums@, c_e, i as int);
            assert(f.enums@.take(i + 1) =~= f.enums@.take(i as int).push(f.enums@[i as int]));
        }
        i = i + 1;
    }
    assert(f.enums@.take(i as int) =~= f.enums@);
    let mut i: usize = 0;
    while i < f.type_aliases.len()
        invariant
            i <= f.type_aliases@.len(),
            table_rows_ok(f.type_aliases@.take(i as int), lc, |x: crate::products::TypeAliasInterface| x.id),
            first_error(f.type_aliases@.take(i as int), c_a) is Ok,
        decreases f.type_aliases@.len() - i,
    {
        let e = f.type_aliases.entry(i);
        let c1 = validate_product_interface_local_id("type alias", e.0, lc);
        if c1.is_err() {
            proof { lemma_first_error_at(f.type_aliases@, c_a, i as int); }
            return c1;
        }
        let c2 = validate_product_interface_def_id("type alias", e.0, e.1.id);
        if c2.is_err() {
            proof { lemma_first_error_at(f.type_aliases@, c_a, i as int); }
            return c2;
        }
        proof {
            lemma_first_error_step(f.type_aliases@, c_a, i as int);
            assert(f.type_aliases@.take(i + 1) =~= f.type_aliases@.take(i as int).push(f.type_aliases@[i as int]));
        }
        i = i + 1;
    }
    assert(f.type_aliases@.take(i as int) =~= f.type_aliases@);
    Ok(())
}

#[verifier::loop_isolation(false)]
fn check_trait_rows(f: &ProductInterface, lc: ProductCrateId, ids: &mut CallableIds) -> (r: Result<(), String>)
    requires
        old(ids).ids@.len() == old(ids).labels@.len(),
        distinct(old(ids).ids@),
        old(ids).ids@ == crate::tables::keys_of(f.functions@),
    ensures
        final(ids).ids@.len() == final(ids).labels@.len(),
        r is Ok ==> distinct(final(ids).ids@) && final(ids).ids@ == crate::tables::keys_of(f.functions@) + traits_callables(f.traits@) && table_rows_ok(f.traits@, lc, |x: crate::products::TraitInterface| x.id) && (forall|q: int, k: int| 0 <= q < f.traits@.len() && 0 <= k < f.traits@[q].1.methods@.len() ==> {
                &&& (#[trigger] f.traits@[q].1.methods@[k]).1.name@ == f.traits@[q].1.methods@[k].0@
                &&& spec_product_of(f.traits@[q].1.methods@[k].1.id).crate_id == lc
            }) && (forall|q: int, k: int| 0 <= q < f.traits@.len() && 0 <= k < f.traits@[q].1.signatures@.len() ==> {
                &&& (#[trigger] f.traits@[q].1.signatures@[k]).1.name@ == f.traits@[q].1.signatures@[k].0@
                &&& spec_product_of(f.traits@[q].1.signatures@[k].1.id).crate_id == lc
            }),
        r is Err ==> !(table_rows_ok(f.traits@, lc, |x: crate::products::TraitInterface| x.id) && (forall|q: int, k: int| 0 <= q < f.traits@.len() && 0 <= k < f.traits@[q].1.methods@.len() ==> {
                &&& (#[trigger] f.traits@[q].1.methods@[k]).1.name@ == f.traits@[q].1.methods@[k].0@
                &&& spec_product_of(f.traits@[q].1.methods@[k].1.id).crate_id == lc
            }) && (forall|q: int, k: int| 0 <= q < f.traits@.len() && 0 <= k < f.traits@[q].1.signatures@.len() ==> {
                &&& (#[trigger] f.traits@[q].1.signatures@[k]).1.name@ == f.traits@[q].1.signatures@[k].0@
                &&& spec_product_of(f.traits@[q].1.signatures@[k].1.id).crate_id == lc
            }) && distinct(callables(*f))),
{
    let ghost fk = crate::tables::keys_of(f.functions@);
    let mut i: usize = 0;
    while i < f.traits.len()
        invariant
            i <= f.traits@.len(),
            ids.ids@.len() == ids.labels@.len(),
            ids.ids@ == fk + traits_callables(f.traits@.take(i as int)),
            distinct(ids.ids@),
            table_rows_ok(f.traits@.take(i as int), lc, |x: crate::products::TraitInterface| x.id),
            forall|q: int, k: int| 0 <= q < i && 0 <= k < f.traits@[q].1.methods@.len() ==> {
                &&& (#[trigger] f.traits@[q].1.methods@[k]).1.name@ == f.traits@[q].1.methods@[k].0@
                &&& spec_product_of(f.traits@[q].1.methods@[k].1.id).crate_id == lc
            },
            forall|q: int, k: int| 0 <= q < i && 0 <= k < f.traits@[q].1.signatures@.len() ==> {
                &&& (#[trigger] f.traits@[q].1.signatures@[k]).1.name@ == f.traits@[q].1.signatures@[k].0@
                &&& spec_product_of(f.traits@[q].1.signatures@[k].1.id).crate_id == lc
            },
        decreases f.traits@.len() - i,
    {
        let e = f.traits.entry(i);
        validate_product_interface_local_id("trait", e.0, lc)?;
        validate_product_interface_def_id("trait", e.0, e.1.id)?;
        let t = &e.1;
        let ghost head = ids.ids@;
        let ghost ms = Seq::new(t.methods@.len(), |k: int| spec_product_of(t.methods@[k].1.id));
        let ghost ss = Seq::new(t.signatures@.len(), |k: int| spec_product_of(t.signatures@[k].1.id));
        let mut k: usize = 0;
        while k < t.methods.len()
            invariant
                k <= t.methods@.len(),
                ids.ids@.len() == ids.labels@.len(),
                ids.ids@ == head + ms.take(k as int),
                distinct(ids.ids@),
                forall|j: int| 0 <= j < k ==> {
                    &&& (#[trigger] t.methods@[j]).1.name@ == t.methods@[j].0@
                    &&& spec_product_of(t.methods@[j].1.id).crate_id == lc
                },
            decreases t.methods@.len() - k,
        {
            validate_product_interface_method_name("trait", e.0, t.methods[k].0.as_str(), &t.methods[k].1)?;
            let ghost before = ids.ids@;
            let recorded = record_product_nested_callable_id(ids, lc, "trait", e.0, "method", t.methods[k].0.as_str(), t.methods[k].1.id);
            proof {
                let x = spec_product_of(t.methods@[k as int].1.id);
                assert(ms.take(k + 1) =~= ms.take(k as int).push(x));
                lemma_take_prefix(ms, k + 1);
                assert(ms + ss =~= trait_callable_ids(*t));
                assert((ms + ss).take(ms.len() as int) =~= ms);
                lemma_prefix_trans(ms.take(k + 1), ms, ms + ss);
                lemma_trait_step(*f, i as int, ms.take(k + 1));
                assert(head + ms.take(k + 1) =~= before.push(x));
                if recorded.is_err() && x.crate_id == lc {
                    lemma_dup_prefix(before, x, callables(*f));
                }
                if recorded.is_ok() {
                    lemma_distinct_push(before, x);
                }
            }
            if recorded.is_err() {
                return recorded;
            }
            k = k + 1;
        }
        assert(ms.take(k as int) =~= ms);
        let mut k: usize = 0;
        while k < t.signatures.len()
            invariant
                k <= t.signatures@.len(),
                ids.ids@.len() == ids.labels@.len(),
                ids.ids@ == head + ms + ss.take(k as int),
                distinct(ids.ids@),
                forall|j: int| 0 <= j < k ==> {
                    &&& (#[trigger] t.signatures@[j]).1.name@ == t.signatures@[j].0@
                    &&& spec_product_of(t.signatures@[j].1.id).crate_id == lc
                },
            decreases t.signatures@.len() - k,
        {
            validate_product_interface_signature_name("trait", e.0, t.signatures[k].0.as_str(), &t.signatures[k].1)?;
            let ghost before = ids.ids@;
            let recorded = record_product_nested_callable_id(ids, lc, "trait", e.0, "signature", t.signatures[k].0.as_str(), t.signatures[k].1.id);
            proof {
                let x = spec_product_of(t.signatures@[k as int].1.id);
                assert(ms + ss.take(k + 1) =~= (ms + ss).take(ms.len() + k + 1));
                assert(ms + ss =~= trait_callable_ids(*t));
                lemma_take_prefix(ms + ss, ms.len() + k + 1);
                lemma_trait_step(*f, i as int, ms + ss.take(k + 1));
                assert(head + ms + ss.take(k + 1) =~= before.push(x));
                assert(head + (ms + ss.take(k + 1)) =~= head + ms + ss.take(k + 1));
                if recorded.is_err() && x.crate_id == lc {
                    lemma_dup_prefix(before, x, callables(*f));
                }
                if recorded.is_ok() {
                    lemma_distinct_push(before, x);
                }
            }
            if recorded.is_err() {
                return recorded;
            }
            k = k + 1;
        }
        proof {
            assert(ss.take(k as int) =~= ss);
            assert(f.traits@.take(i + 1).drop_last() =~= f.traits@.take(i as int));
            assert(ms + ss =~= trait_callable_ids(*t));
            assert(ids.ids@ =~= fk + traits_callables(f.traits@.take(i + 1)));
            assert(f.traits@.take(i + 1) =~= f.traits@.take(i as int).push(f.traits@[i as int]));
        }
        i = i + 1;
    }
    assert(f.traits@.take(i as int) =~= f.traits@);
    Ok(())
}

#[verifier::loop_isolation(false)]
fn check_impl_rows(f: &ProductInterface, lc: ProductCrateId, ids: &mut CallableIds) -> (r: Result<(), String>)
    requires
        old(ids).ids@.len() == old(ids).labels@.len(),
        distinct(old(ids).ids@),
        old(ids).ids@ == crate::tables::keys_of(f.functions@) + traits_callables(f.traits@),
    ensures
        final(ids).ids@.len() == final(ids).labels@.len(),
        r is Ok ==> distinct(final(ids).ids@) && final(ids).ids@ == crate::tables::keys_of(f.functions@) + traits_callables(f.traits@) + impls_callables(f.impls@) && table_rows_ok(f.impls@, lc, |x: ImplInterface| x.id) && (forall|q: int, k: int| 0 <= q < f.impls@.len() && 0 <= k < f.impls@[q].1.methods@.len() ==> {
                &&& (#[trigger] f.impls@[q].1.methods@[k]).1.name@ == f.impls@[q].1.methods@[k].0@
                &&& spec_product_of(f.impls@[q].1.methods@[k].1.id).crate_id == lc
            }),
        r is Err ==> !(table_rows_ok(f.impls@, lc, |x: ImplInterface| x.id) && (forall|q: int, k: int| 0 <= q < f.impls@.len() && 0 <= k < f.impls@[q].1.methods@.len() ==> {
                &&& (#[trigger] f.impls@[q].1.methods@[k]).1.name@ == f.impls@[q].1.methods@[k].0@
                &&& spec_product_of(f.impls@[q].1.methods@[k].1.id).crate_id == lc
            }) && distinct(callables(*f))),
{
    let ghost fk = crate::tables::keys_of(f.functions@);
    let ghost tk = fk + traits_callables(f.traits@);
    let mut i: usize = 0;
    while i < f.impls.len()
        invariant
            i <= f.impls@.len(),
            ids.ids@.len() == ids.labels@.len(),
            ids.ids@ == tk + impls_callables(f.impls@.take(i as int)),
            distinct(ids.ids@),
            table_rows_ok(f.impls@.take(i as int), lc, |x: ImplInterface| x.id),
            forall|q: int, k: int| 0 <= q < i && 0 <= k < f.impls@[q].1.methods@.len() ==> {
                &&& (#[trigger] f.impls@[q].1.methods@[k]).1.name@ == f.impls@[q].1.methods@[k].0@
                &&& spec_product_of(f.impls@[q].1.methods@[k].1.id).crate_id == lc
            },
        decreases f.impls@.len() - i,
    {
        let e = f.impls.entry(i);
        validate_product_interface_local_id("impl", e.0, lc)?;
        validate_product_interface_def_id("impl", e.0, e.1.id)?;
        let m = &e.1;
        let ghost head = ids.ids@;
        let ghost ms = impl_callable_ids(*m);
        let mut k: usize = 0;
        while k < m.methods.len()
            invariant
                k <= m.methods@.len(),
                ids.ids@.len() == ids.labels@.len(),
                ids.ids@ == head + ms.take(k as int),
                distinct(ids.ids@),
                forall|j: int| 0 <= j < k ==> {
                    &&& (#[trigger] m.methods@[j]).1.name@ == m.methods@[j].0@
                    &&& spec_product_of(m.methods@[j].1.id).crate_id == lc
                },
            decreases m.methods@.len() - k,
        {
            validate_product_interface_method_name("impl", e.0, m.methods[k].0.as_str(), &m.methods[k].1)?;
            let ghost before = ids.ids@;
            let recorded = record_product_nested_callable_id(ids, lc, "impl", e.0, "method", m.methods[k].0.as_str(), m.methods[k].1.id);
            proof {
                let x = spec_product_of(m.methods@[k as int].1.id);
                assert(ms.take(k + 1) =~= ms.take(k as int).push(x));
                lemma_take_prefix(ms, k + 1);
                lemma_impl_step(*f, i as int, ms.take(k + 1));
                assert(head + ms.take(k + 1) =~= before.push(x));
                if recorded.is_err() && x.crate_id == lc {
                    lemma_dup_prefix(before, x, callables(*f));
                }
                if recorded.is_ok() {
                    lemma_distinct_push(before, x);
                }
            }
            if recorded.is_err() {
                return recorded;
            }
            k = k + 1;
        }
        proof {
            assert(ms.take(k as int) =~= ms);
            assert(f.impls@.take(i + 1).drop_last() =~= f.impls@.take(i as int));
            assert(ids.ids@ =~= tk + impls_callables(f.impls@.take(i + 1)));
            assert(f.impls@.take(i + 1) =~= f.impls@.take(i as int).push(f.impls@[i as int]));
        }
        i = i + 1;
    }
    assert(f.impls@.take(i as int) =~= f.impls@);
    Ok(())
}

#[verifier::loop_isolation(false)]
fn check_extern_rows(f: &ProductInterface, lc: ProductCrateId, ids: &mut CallableIds) -> (r: Result<(), String>)
    requires
        old(ids).ids@.len() == old(ids).labels@.len(),
        distinct(old(ids).ids@),
        old(ids).ids@ == crate::tables::keys_of(f.functions@) + traits_callables(f.traits@) + impls_callables(f.impls@),
    ensures
        final(ids).ids@.len() == final(ids).labels@.len(),
        r is Ok ==> distinct(final(ids).ids@) && final(ids).ids@ == callables(*f) && table_rows_ok(f.externs@, lc, |x: crate::products::ExternInterface| x.id),
        r is Err ==> !(table_rows_ok(f.externs@, lc, |x: crate::products::ExternInterface| x.id) && distinct(callables(*f))),
{
    let ghost tk = crate::tables::keys_of(f.functions@) + traits_callables(f.traits@);
    let ghost ik = tk + impls_callables(f.impls@);
    let ghost ek = crate::tables::keys_of(f.externs@);
    let mut i: usize = 0;
    while i < f.externs.len()
        invariant
            i <= f.externs@.len(),
            ids.ids@.len() == ids.labels@.len(),
            ids.ids@ == ik + ek.take(i as int),
            distinct(ids.ids@),
            table_rows_ok(f.externs@.take(i as int), lc, |x: crate::products::ExternInterface| x.id),
        decreases f.externs@.len() - i,
    {
        let e = f.externs.entry(i);
        validate_product_interface_local_id("extern", e.0, lc)?;
        validate_product_interface_def_id("extern", e.0, e.1.id)?;
        let mut label = text("extern '");
        push_str(&mut label, e.1.name.as_str());
        push_str(&mut label, "'");
        let ghost before = ids.ids@;
        let recorded = record_product_callable_id(ids, e.0, label);
        proof {
            assert(ek.take(i + 1) =~= ek.take(i as int).push(e.0));
            lemma_extern_step(*f, i + 1);
            assert(ik + ek.take(i + 1) =~= before.push(e.0));
            if recorded.is_err() {
                lemma_dup_prefix(before, e.0, callables(*f));
            } else {
                lemma_distinct_push(before, e.0);
            }
            assert(f.externs@.take(i + 1) =~= f.externs@.take(i as int).push(f.externs@[i as int]));
        }
        if recorded.is_err() {
            return recorded;
        }
        i = i + 1;
    }
    proof {
        assert(f.externs@.take(i as int) =~= f.externs@);
        assert(ek.take(i as int) =~= ek);
        assert(ids.ids@ =~= callables(*f));
    }
    Ok(())
}

/// Checks the rows of an artifact's interface: each is local and embeds
/// its key, methods and signatures are keyed by their names, and no
/// callable identity is declared twice.
pub fn validate_product_interface_rows(products: &CompilerProducts) -> (r: Result<(), String>)
    ensures
        r is Ok <==> interface_rows_ok(*products),
        r matches Err(e) ==> rows_err(*products, e@),
{
    let lc = match products.identity_table.local_crate {
        Some(c) => c,
        None => return Err(crate::remap::no_local_crate_message(&products.crate_identity.name)),
    };
    let f = &products.interface;
    let mut ids = CallableIds { ids: Vec::new(), labels: Vec::new() };
    check_function_rows(f, lc, &mut ids)?;
    check_plain_rows(f, lc)?;
    check_trait_rows(f, lc, &mut ids)?;
    check_impl_rows(f, lc, &mut ids)?;
    check_extern_rows(f, lc, &mut ids)?;
    Ok(())
}


// ----- body rows -----

/// `id` is declared as a provided method of some trait.
pub open spec fn is_trait_method(f: ProductInterface, id: ProductDefId) -> bool {
    exists|i: int, k: int| 0 <= i < f.traits@.len() && 0 <= k < f.traits@[i].1.methods@.len()
        && spec_product_of((#[trigger] f.traits@[i].1.methods@[k]).1.id) == id
}

/// The body of generic impl `id` matches its declaration: the impl is
/// declared, embeds its key, and body and declaration have the same
/// methods, each keyed by its name, with the same identities.
pub open spec fn generic_impl_body_ok(f: ProductInterface, id: ProductDefId, imp: Impl) -> bool {
    lookup(f.impls@, id) matches Some(ii) && {
        &&& spec_product_of(imp.id) == id
        &&& forall|k: int| 0 <= k < imp.methods@.len() ==> {
            &&& (#[trigger] imp.methods@[k]).1.name@ == imp.methods@[k].0@
            &&& (lookup_str(ii.methods@, imp.methods@[k].0@) matches Some(im) && spec_product_of(imp.methods@[k].1.id) == spec_product_of(im.id))
        }
        &&& forall|k: int| 0 <= k < ii.methods@.len() ==> (lookup_str(imp.methods@, (#[trigger] ii.methods@[k]).0@) matches Some(bm)
            && spec_product_of(bm.id) == spec_product_of(ii.methods@[k].1.id))
    }
}

/// Every serialized body has a matching declaration, and every declaration
/// that users compile again has a body.
pub open spec fn body_rows_ok(p: CompilerProducts) -> bool {
    let f = p.interface;
    let b = p.bodies;
    &&& forall|i: int| 0 <= i < b.functions@.len() ==> has_key(f.functions@, (#[trigger] b.functions@[i]).0)
        && spec_product_of(b.functions@[i].1.id) == b.functions@[i].0
    &&& forall|i: int| 0 <= i < f.functions@.len() ==> requires_reusable_body((#[trigger] f.functions@[i]).1)
        ==> has_key(b.functions@, f.functions@[i].0)
    &&& forall|i: int| 0 <= i < b.trait_default_methods@.len() ==> is_trait_method(f, (#[trigger] b.trait_default_methods@[i]).0)
        && spec_product_of(b.trait_default_methods@[i].1.id) == b.trait_default_methods@[i].0
    &&& forall|i: int| 0 <= i < f.impls@.len() ==> impl_requires_reusable_body((#[trigger] f.impls@[i]).1)
        ==> has_key(b.generic_impls@, f.impls@[i].0)
    &&& forall|i: int| 0 <= i < b.generic_impls@.len() ==> generic_impl_body_ok(f, (#[trigger] b.generic_impls@[i]).0, b.generic_impls@[i].1)
}

fn find_fn_named<'a>(ms: &'a Vec<(String, FunctionInterface)>, n: &String) -> (r: Option<&'a FunctionInterface>)
    ensures
        match lookup_str(ms@, n@) {
            Some(v) => r matches Some(x) && *x == v,
            None => r is None,
        },
{
    find_str(ms, n.as_str())
}

fn find_body_named<'a>(ms: &'a Vec<(String, Function)>, n: &String) -> (r: Option<&'a Function>)
    ensures
        match lookup_str(ms@, n@) {
            Some(v) => r matches Some(x) && *x == v,
            None => r is None,
        },
{
    find_str(ms, n.as_str())
}

// ----- messages about bodies -----

/// A message naming a row by its local number.
pub open spec fn body_msg(prefix: Seq<char>, id: ProductDefId, suffix: Seq<char>) -> Seq<char> {
    prefix + decimal(id.local_id.0 as nat) + suffix
}

/// The message for a method whose body and declaration embed different
/// identities.
pub open spec fn msg_method_id_mismatch(id: ProductDefId, name: Seq<char>, body_id: ProductDefId, interface_id: ProductDefId) -> Seq<char> {
    body_msg("Product artifact generic impl body "@, id, " method '"@) + name + "' has embedded ID "@
        + decimal(body_id.local_id.0 as nat) + " but interface declaration ID "@ + decimal(interface_id.local_id.0 as nat)
}

/// The message for a row whose body embeds another identity.
pub open spec fn msg_embedded(prefix: Seq<char>, id: ProductDefId, embedded: ProductDefId) -> Seq<char> {
    body_msg(prefix, id, " has embedded ID "@) + decimal(embedded.local_id.0 as nat) + " with no matching interface declaration"@
}

fn body_message(prefix: &str, id: ProductDefId, suffix: &str) -> (r: String)
    ensures
        r@ == body_msg(prefix@, id, suffix@),
{
    let mut s = text(prefix);
    push_decimal(&mut s, id.local_id.0 as u64);
    push_str(&mut s, suffix);
    s
}

fn method_id_mismatch(id: ProductDefId, name: &String, body_id: ProductDefId, interface_id: ProductDefId) -> (r: String)
    ensures
        r@ == msg_method_id_mismatch(id, name@, body_id, interface_id),
{
    let mut s = body_message("Product artifact generic impl body ", id, " method '");
    push_str(&mut s, name.as_str());
    push_str(&mut s, "' has embedded ID ");
    push_decimal(&mut s, body_id.local_id.0 as u64);
    push_str(&mut s, " but interface declaration ID ");
    push_decimal(&mut s, interface_id.local_id.0 as u64);
    proof {
        assert(s@ =~= msg_method_id_mismatch(id, name@, body_id, interface_id));
    }
    s
}

fn embedded_message(prefix: &str, id: ProductDefId, embedded: ProductDefId) -> (r: String)
    ensures
        r@ == msg_embedded(prefix@, id, embedded),
{
    let mut s = body_message(prefix, id, " has embedded ID ");
    push_decimal(&mut s, embedded.local_id.0 as u64);
    push_str(&mut s, " with no matching interface declaration");
    proof {
        assert(s@ =~= msg_embedded(prefix@, id, embedded));
    }
    s
}

/// The check of one method body of generic impl `id` against the impl's
/// declaration `ii`.
pub open spec fn impl_method_body_check(id: ProductDefId, ii: ImplInterface, e: (String, Function)) -> Result<(), Seq<char>> {
    if e.1.name@ != e.0@ {
        Err(body_msg("Product artifact generic impl body "@, id, " method '"@) + e.0@ + "' has name '"@ + e.1.name@ + "'"@)
    } else {
        match lookup_str(ii.methods@, e.0@) {
            None => Err(body_msg("Product artifact generic impl body "@, id, " method '"@) + e.0@ + "' has no interface declaration"@),
            Some(im) => if spec_product_of(e.1.id) != spec_product_of(im.id) {
                Err(msg_method_id_mismatch(id, e.0@, spec_product_of(e.1.id), spec_product_of(im.id)))
            } else {
                Ok(())
            },
        }
    }
}

/// The check of one declared method of generic impl `id` against the body `imp`.
pub open spec fn impl_method_decl_check(id: ProductDefId, imp: Impl, e: (String, FunctionInterface)) -> Result<(), Seq<char>> {
    match lookup_str(imp.methods@, e.0@) {
        None => Err(body_msg("Product artifact generic impl body "@, id, " method '"@) + e.0@ + "' has no serialized body"@),
        Some(bm) => if spec_product_of(bm.id) != spec_product_of(e.1.id) {
            Err(msg_method_id_mismatch(id, e.0@, spec_product_of(bm.id), spec_product_of(e.1.id)))
        } else {
            Ok(())
        },
    }
}

/// The check of each method body of generic impl `id`.
pub open spec fn method_body_checks(id: ProductDefId, ii: ImplInterface) -> spec_fn((String, Function)) -> Result<(), Seq<char>> {
    |e: (String, Function)| impl_method_body_check(id, ii, e)
}

/// The check of each declared method of generic impl `id`.
pub open spec fn method_decl_checks(id: ProductDefId, imp: Impl) -> spec_fn((String, FunctionInterface)) -> Result<(), Seq<char>> {
    |e: (String, FunctionInterface)| impl_method_decl_check(id, imp, e)
}

/// The outcome of checking generic impl body `imp`, stored under `id`,
/// against the interface.
pub open spec fn generic_impl_outcome(f: ProductInterface, id: ProductDefId, imp: Impl) -> Result<(), Seq<char>> {
    match lookup(f.impls@, id) {
        None => Err(body_msg("Product artifact generic impl body "@, id, " has no interface declaration"@)),
        Some(ii) => if spec_product_of(imp.id) != id {
            Err(msg_embedded("Product artifact generic impl body "@, id, spec_product_of(imp.id)))
        } else {
            match first_error(imp.methods@, method_body_checks(id, ii)) {
                Err(m) => Err(m),
                Ok(_) => first_error(ii.methods@, method_decl_checks(id, imp)),
            }
        },
    }
}

#[verifier::loop_isolation(false)]
fn check_generic_impl_body(f: &ProductInterface, id: ProductDefId, imp: &Impl) -> (r: Result<(), String>)
    ensures
        r is Ok <==> generic_impl_body_ok(*f, id, *imp),
        outcome_is(r, generic_impl_outcome(*f, id, *imp)),
{
    let ii = match f.impls.get(id) {
        Some(ii) => ii,
        None => return Err(body_message("Product artifact generic impl body ", id, " has no interface declaration")),
    };
    let embedded = ProductDefId::from_def_id(imp.id);
    if embedded != id {
        return Err(embedded_message("Product artifact generic impl body ", id, embedded));
    }
    let ghost c1 = method_body_checks(id, *ii);
    let ghost c2 = method_decl_checks(id, *imp);
    let mut k: usize = 0;
    while k < imp.methods.len()
        invariant
            k <= imp.methods@.len(),
            first_error(imp.methods@.take(k as int), c1) is Ok,
            forall|j: int| 0 <= j < k ==> {
                &&& (#[trigger] imp.methods@[j]).1.name@ == imp.methods@[j].0@
                &&& (lookup_str(ii.methods@, imp.methods@[j].0@) matches Some(im) && spec_product_of(imp.methods@[j].1.id) == spec_product_of(im.id))
            },
        decreases imp.methods.len() - k,
    {
        let (name, method) = (&imp.methods[k].0, &imp.methods[k].1);
        if !crate::text::str_eq(method.name.as_str(), name.as_str()) {
            let mut s = body_message("Product artifact generic impl body ", id, " method '");
            push_str(&mut s, name.as_str());
            push_str(&mut s, "' has name '");
            push_str(&mut s, method.name.as_str());
            push_str(&mut s, "'");
            proof {
                assert(s@ =~= c1(imp.methods@[k as int])->Err_0);
                lemma_first_error_at(imp.methods@, c1, k as int);
            }
            return Err(s);
        }
        let im = match find_fn_named(&ii.methods, name) {
            Some(im) => im,
            None => {
                let mut s = body_message("Product artifact generic impl body ", id, " method '");
                push_str(&mut s, name.as_str());
                push_str(&mut s, "' has no interface declaration");
                proof {
                    assert(s@ =~= c1(imp.methods@[k as int])->Err_0);
                    lemma_first_error_at(imp.methods@, c1, k as int);
                }
                return Err(s);
            },
        };
        let method_id = ProductDefId::from_def_id(method.id);
        let interface_id = ProductDefId::from_def_id(im.id);
        if method_id != interface_id {
            proof {
                lemma_first_error_at(imp.methods@, c1, k as int);
            }
            return Err(method_id_mismatch(id, name, method_id, interface_id));
        }
        proof {
            lemma_first_error_step(imp.methods@, c1, k as int);
        }
        k = k + 1;
    }
    proof {
        assert(imp.methods@.take(k as int) =~= imp.methods@);
    }
    let mut k: usize = 0;
    while k < ii.methods.len()
        invariant
            k <= ii.methods@.len(),
            first_error(ii.methods@.take(k as int), c2) is Ok,
            forall|j: int| 0 <= j < k ==> (lookup_str(imp.methods@, (#[trigger] ii.methods@[j]).0@) matches Some(bm)
                && spec_product_of(bm.id) == spec_product_of(ii.methods@[j].1.id)),
        decreases ii.methods.len() - k,
    {
        let name = &ii.methods[k].0;
        let bm = match find_body_named(&imp.methods, name) {
            Some(bm) => bm,
            None => {
                let mut s = body_message("Product artifact generic impl body ", id, " method '");
                push_str(&mut s, name.as_str());
                push_str(&mut s, "' has no serialized body");
                proof {
                    assert(s@ =~= c2(ii.methods@[k as int])->Err_0);
                    lemma_first_error_at(ii.methods@, c2, k as int);
                }
                return Err(s);
            },
        };
        let body_id = ProductDefId::from_def_id(bm.id);
        let interface_id = ProductDefId::from_def_id(ii.methods[k].1.id);
        if body_id != interface_id {
            proof {
                lemma_first_error_at(ii.methods@, c2, k as int);
            }
            return Err(method_id_mismatch(id, name, body_id, interface_id));
        }
        proof {
            lemma_first_error_step(ii.methods@, c2, k as int);
        }
        k = k + 1;
    }
    proof {
        assert(ii.methods@.take(k as int) =~= ii.methods@);
    }
    Ok(())
}

/// The provided method among `ms`, of trait `tid`, that embeds `id`: the
/// trait and the method's name, the last such method.
pub open spec fn owner_in_methods(tid: ProductDefId, ms: Seq<(String, FunctionInterface)>, id: ProductDefId) -> Option<(ProductDefId, Seq<char>)>
    decreases ms.len(),
{
    if ms.len() == 0 {
        None
    } else if spec_product_of(ms.last().1.id) == id {
        Some((tid, ms.last().0@))
    } else {
        owner_in_methods(tid, ms.drop_last(), id)
    }
}

/// The trait and method name under which `id` is declared as a provided
/// method, the last such declaration in trait order.
pub open spec fn trait_owner(ts: Seq<(ProductDefId, crate::products::TraitInterface)>, id: ProductDefId) -> Option<(ProductDefId, Seq<char>)>
    decreases ts.len(),
{
    if ts.len() == 0 {
        None
    } else {
        match owner_in_methods(ts.last().0, ts.last().1.methods@, id) {
            Some(o) => Some(o),
            None => trait_owner(ts.drop_last(), id),
        }
    }
}

/// An owner found by `trait_default_owner`, as text.
pub open spec fn owner_view(o: Option<(ProductDefId, String)>) -> Option<(ProductDefId, Seq<char>)> {
    match o {
        Some(x) => Some((x.0, x.1@)),
        None => None,
    }
}

/// The trait and method name under which `id` is declared as a provided
/// trait method, the last such declaration where there are several.
#[verifier::loop_isolation(false)]
fn trait_default_owner(f: &ProductInterface, id: ProductDefId) -> (r: Option<(ProductDefId, String)>)
    ensures
        r is Some <==> is_trait_method(*f, id),
        owner_view(r) == trait_owner(f.traits@, id),
{
    let mut found: Option<(ProductDefId, String)> = None;
    let mut i: usize = 0;
    while i < f.traits.len()
        invariant
            i <= f.traits@.len(),
            found is Some <==> exists|q: int, k: int| 0 <= q < i && 0 <= k < f.traits@[q].1.methods@.len()
                && spec_product_of((#[trigger] f.traits@[q].1.methods@[k]).1.id) == id,
            owner_view(found) == trait_owner(f.traits@.take(i as int), id),
        decreases f.traits@.len() - i,
    {
        let e = f.traits.entry(i);
        let ghost before = owner_view(found);
        let mut k: usize = 0;
        while k < e.1.methods.len()
            invariant
                k <= e.1.methods@.len(),
                *e == f.traits@[i as int],
                found is Some <==> (exists|q: int, j: int| 0 <= q < i && 0 <= j < f.traits@[q].1.methods@.len()
                    && spec_product_of((#[trigger] f.traits@[q].1.methods@[j]).1.id) == id)
                    || exists|j: int| 0 <= j < k && spec_product_of((#[trigger] e.1.methods@[j]).1.id) == id,
                owner_view(found) == match owner_in_methods(e.0, e.1.methods@.take(k as int), id) {
                    Some(o) => Some(o),
                    None => before,
                },
            decreases e.1.methods.len() - k,
        {
            proof {
                let t = e.1.methods@.take(k + 1);
                assert(t.drop_last() =~= e.1.methods@.take(k as int));
                assert(t.last() == e.1.methods@[k as int]);
            }
            if ProductDefId::from_def_id(e.1.methods[k].1.id) == id {
                found = Some((e.0, e.1.methods[k].0.clone()));
                assert(spec_product_of(f.traits@[i as int].1.methods@[k as int].1.id) == id);
            }
            k = k + 1;
        }
        proof {
            let t = f.traits@.take(i + 1);
            assert(t.drop_last() =~= f.traits@.take(i as int));
            assert(t.last() == f.traits@[i as int]);
            assert(e.1.methods@.take(k as int) =~= e.1.methods@);
        }
        i = i + 1;
    }
    proof {
        assert(f.traits@.take(i as int) =~= f.traits@);
    }
    found
}

/// The check of a serialized function body against the declarations.
pub open spec fn function_body_check(f: ProductInterface, e: (ProductDefId, Function)) -> Result<(), Seq<char>> {
    if !has_key(f.functions@, e.0) {
        Err(body_msg("Product artifact function body "@, e.0, " has no interface declaration"@))
    } else if spec_product_of(e.1.id) != e.0 {
        Err(msg_embedded("Product artifact function body "@, e.0, spec_product_of(e.1.id)))
    } else {
        Ok(())
    }
}

/// The check that a generic function declaration has a body.
pub open spec fn function_decl_check(b: crate::products::ProductBodies, e: (ProductDefId, FunctionInterface)) -> Result<(), Seq<char>> {
    if requires_reusable_body(e.1) && !has_key(b.functions@, e.0) {
        Err(body_msg("Product artifact generic function "@, e.0, " has no serialized body"@))
    } else {
        Ok(())
    }
}

/// The check of a serialized trait default body against the declarations.
pub open spec fn default_body_check(f: ProductInterface, e: (ProductDefId, Function)) -> Result<(), Seq<char>> {
    match trait_owner(f.traits@, e.0) {
        None => Err(body_msg("Product artifact trait default body "@, e.0, " has no interface declaration"@)),
        Some(o) => if spec_product_of(e.1.id) != e.0 {
            Err(body_msg("Product artifact trait default body "@, e.0, " for trait "@) + decimal(o.0.local_id.0 as nat) + " method '"@
                + o.1 + "' has embedded ID "@ + decimal(spec_product_of(e.1.id).local_id.0 as nat)
                + " with no matching interface declaration"@)
        } else {
            Ok(())
        },
    }
}

/// The check that an impl declaration users compile again has a body.
pub open spec fn impl_decl_check(b: crate::products::ProductBodies, e: (ProductDefId, ImplInterface)) -> Result<(), Seq<char>> {
    if impl_requires_reusable_body(e.1) && !has_key(b.generic_impls@, e.0) {
        Err(body_msg("Product artifact generic impl "@, e.0, " has no serialized body"@))
    } else {
        Ok(())
    }
}

pub open spec fn function_body_checks(f: ProductInterface) -> spec_fn((ProductDefId, Function)) -> Result<(), Seq<char>> {
    |e: (ProductDefId, Function)| function_body_check(f, e)
}

pub open spec fn function_decl_checks(b: crate::products::ProductBodies) -> spec_fn((ProductDefId, FunctionInterface)) -> Result<(), Seq<char>> {
    |e: (ProductDefId, FunctionInterface)| function_decl_check(b, e)
}

pub open spec fn default_body_checks(f: ProductInterface) -> spec_fn((ProductDefId, Function)) -> Result<(), Seq<char>> {
    |e: (ProductDefId, Function)| default_body_check(f, e)
}

pub open spec fn impl_decl_checks(b: crate::products::ProductBodies) -> spec_fn((ProductDefId, ImplInterface)) -> Result<(), Seq<char>> {
    |e: (ProductDefId, ImplInterface)| impl_decl_check(b, e)
}

pub open spec fn generic_impl_checks(f: ProductInterface) -> spec_fn((ProductDefId, Impl)) -> Result<(), Seq<char>> {
    |e: (ProductDefId, Impl)| generic_impl_outcome(f, e.0, e.1)
}

/// The outcome of checking the bodies against the declarations: function
/// bodies, generic function declarations, trait default bodies, generic
/// impl declarations and generic impl bodies, each in table order; the
/// first error found is the outcome.
pub open spec fn body_rows_outcome(p: CompilerProducts) -> Result<(), Seq<char>> {
    let f = p.interface;
    let b = p.bodies;
    crate::validator::and_then(first_error(b.functions@, function_body_checks(f)),
    crate::validator::and_then(first_error(f.functions@, function_decl_checks(b)),
    crate::validator::and_then(first_error(b.trait_default_methods@, default_body_checks(f)),
    crate::validator::and_then(first_error(f.impls@, impl_decl_checks(b)),
        first_error(b.generic_impls@, generic_impl_checks(f))))))
}

/// Checks that every serialized body has a matching declaration and every
/// declaration that users compile again has a body; the first mismatch is
/// reported.
#[verifier::loop_isolation(false)]
pub fn validate_product_body_rows_have_interface(products: &CompilerProducts) -> (r: Result<(), String>)
    ensures
        r is Ok <==> body_rows_ok(*products),
        outcome_is(r, body_rows_outcome(*products)),
{
    let f = &products.interface;
    let b = &products.bodies;
    let ghost c1 = function_body_checks(*f);
    let ghost c2 = function_decl_checks(*b);
    let ghost c3 = default_body_checks(*f);
    let ghost c4 = impl_decl_checks(*b);
    let ghost c5 = generic_impl_checks(*f);
    let mut i: usize = 0;
    while i < b.functions.len()
        invariant
            i <= b.functions@.len(),
            first_error(b.functions@.take(i as int), c1) is Ok,
            forall|j: int| 0 <= j < i ==> has_key(f.functions@, (#[trigger] b.functions@[j]).0)
                && spec_product_of(b.functions@[j].1.id) == b.functions@[j].0,
        decreases b.functions@.len() - i,
    {
        let e = b.functions.entry(i);
        if !f.functions.contains_key(e.0) {
            proof {
                lemma_first_error_at(b.functions@, c1, i as int);
            }
            return Err(body_message("Product artifact function body ", e.0, " has no interface declaration"));
        }
        let embedded = ProductDefId::from_def_id(e.1.id);
        if embedded != e.0 {
            proof {
                lemma_first_error_at(b.functions@, c1, i as int);
            }
            return Err(embedded_message("Product artifact function body ", e.0, embedded));
        }
        proof {
            lemma_first_error_step(b.functions@, c1, i as int);
        }
        i = i + 1;
    }
    proof {
        assert(b.functions@.take(i as int) =~= b.functions@);
    }
    let mut i: usize = 0;
    while i < f.functions.len()
        invariant
            i <= f.functions@.len(),
            first_error(f.functions@.take(i as int), c2) is Ok,
            forall|j: int| 0 <= j < i ==> requires_reusable_body((#[trigger] f.functions@[j]).1)
                ==> has_key(b.functions@, f.functions@[j].0),
        decreases f.functions@.len() - i,
    {
        let e = f.functions.entry(i);
        if product_function_interface_requires_reusable_body(&e.1) && !b.functions.contains_key(e.0) {
            proof {
                lemma_first_error_at(f.functions@, c2, i as int);
            }
            return Err(body_message("Product artifact generic function ", e.0, " has no serialized body"));
        }
        proof {
            lemma_first_error_step(f.functions@, c2, i as int);
        }
        i = i + 1;
    }
    proof {
        assert(f.functions@.take(i as int) =~= f.functions@);
    }
    let mut i: usize = 0;
    while i < b.trait_default_methods.len()
        invariant
            i <= b.trait_default_methods@.len(),
            first_error(b.trait_default_methods@.take(i as int), c3) is Ok,
            forall|j: int| 0 <= j < i ==> is_trait_method(*f, (#[trigger] b.trait_default_methods@[j]).0)
                && spec_product_of(b.trait_default_methods@[j].1.id) == b.trait_default_methods@[j].0,
        decreases b.trait_default_methods@.len() - i,
    {
        let e = b.trait_default_methods.entry(i);
        let (trait_id, method_name) = match trait_default_owner(f, e.0) {
            Some(o) => o,
            None => {
                proof {
                    lemma_first_error_at(b.trait_default_methods@, c3, i as int);
                }
                return Err(body_message("Product artifact trait default body ", e.0, " has no interface declaration"));
            },
        };
        let embedded = ProductDefId::from_def_id(e.1.id);
        if embedded != e.0 {
            let mut s = body_message("Product artifact trait default body ", e.0, " for trait ");
            push_decimal(&mut s, trait_id.local_id.0 as u64);
            push_str(&mut s, " method '");
            push_str(&mut s, method_name.as_str());
            push_str(&mut s, "' has embedded ID ");
            push_decimal(&mut s, embedded.local_id.0 as u64);
            push_str(&mut s, " with no matching interface declaration");
            proof {
                assert(s@ =~= c3(b.trait_default_methods@[i as int])->Err_0);
                lemma_first_error_at(b.trait_default_methods@, c3, i as int);
            }
            return Err(s);
        }
        proof {
            lemma_first_error_step(b.trait_default_methods@, c3, i as int);
        }
        i = i + 1;
    }
    proof {
        assert(b.trait_default_methods@.take(i as int) =~= b.trait_default_methods@);
    }
    let mut i: usize = 0;
    while i < f.impls.len()
        invariant
            i <= f.impls@.len(),
            first_error(f.impls@.take(i as int), c4) is Ok,
            forall|j: int| 0 <= j < i ==> impl_requires_reusable_body((#[trigger] f.impls@[j]).1)
                ==> has_key(b.generic_impls@, f.impls@[j].0),
        decreases f.impls@.len() - i,
    {
        let e = f.impls.entry(i);
        if product_impl_interface_requires_reusable_body(&e.1) && !b.generic_impls.contains_key(e.0) {
            proof {
                lemma_first_error_at(f.impls@, c4, i as int);
            }
            return Err(body_message("Product artifact generic impl ", e.0, " has no serialized body"));
        }
        proof {
            lemma_first_error_step(f.impls@, c4, i as int);
        }
        i = i + 1;
    }
    proof {
        assert(f.impls@.take(i as int) =~= f.impls@);
    }
    let mut i: usize = 0;
    while i < b.generic_impls.len()
        invariant
            i <= b.generic_impls@.len(),
            first_error(b.generic_impls@.take(i as int), c5) is Ok,
            forall|j: int| 0 <= j < i ==> generic_impl_body_ok(*f, (#[trigger] b.generic_impls@[j]).0, b.generic_impls@[j].1),
        decreases b.generic_impls@.len() - i,
    {
        let e = b.generic_impls.entry(i);
        let checked = check_generic_impl_body(f, e.0, &e.1);
        if checked.is_err() {
            proof {
                lemma_first_error_at(b.generic_impls@, c5, i as int);
            }
            return checked;
        }
        proof {
            lemma_first_error_step(b.generic_impls@, c5, i as int);
        }
        i = i + 1;
    }
    proof {
        assert(b.generic_impls@.take(i as int) =~= b.generic_impls@);
    }
    Ok(())
}

} // verus!
