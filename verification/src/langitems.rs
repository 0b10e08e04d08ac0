use vstd::prelude::*;

use crate::alpha::{
    alpha_bounds, alpha_eq, alpha_equivalent_bounds, alpha_equivalent_receiver_pattern, alpha_equivalent_type,
    alpha_equivalent_type_lists, alpha_list, alpha_receiver,
};
use crate::ids::{spec_def_of, spec_product_of, AssocTypeId, DefId, ProductCrateId, ProductDefId, VariantId};
use crate::products::{
    CompilerProducts, ImplInterface, LanguageItems, OutputItems, ProductInterface, TraitItem, TraitMethodItems, TryItems,
};
use crate::collections::IdMap;
use crate::remap::{ProductIdentityRemap, msg_unmapped};
use crate::render::push_type_text;
use crate::text::{decimal, first_error, lemma_first_error_at, lemma_first_error_step, outcome_is, push_decimal, push_str, text};
use crate::types::Type;

verus! {

// ----- the identities a registry names -----

/// The identities of a marker trait item.
pub open spec fn trait_item_ids(o: Option<TraitItem<ProductDefId>>) -> Seq<ProductDefId> {
    match o {
        Some(x) => seq![x.trait_id],
        None => Seq::empty(),
    }
}

/// The identities of a trait-and-method item.
pub open spec fn method_item_ids(o: Option<TraitMethodItems<ProductDefId>>) -> Seq<ProductDefId> {
    match o {
        Some(x) => seq![x.trait_id, x.method_id],
        None => Seq::empty(),
    }
}

/// The identities of a trait-with-output item.
pub open spec fn output_item_ids(o: Option<OutputItems<ProductDefId>>) -> Seq<ProductDefId> {
    match o {
        Some(x) => seq![x.trait_id, x.method_id],
        None => Seq::empty(),
    }
}

/// The identities of the `?` protocol.
pub open spec fn try_item_ids(o: Option<TryItems<ProductDefId>>) -> Seq<ProductDefId> {
    match o {
        Some(x) => seq![x.try_trait_id, x.branch_method_id, x.from_residual_trait_id, x.from_residual_method_id, x.control_flow_enum_id],
        None => Seq::empty(),
    }
}

/// Every definition a registry names, item by item in registry order.
pub open spec fn item_ids(li: LanguageItems<ProductDefId>) -> Seq<ProductDefId> {
    trait_item_ids(li.sized) + method_item_ids(li.drop) + output_item_ids(li.index) + output_item_ids(li.index_mut)
        + output_item_ids(li.fn_once) + output_item_ids(li.fn_mut) + output_item_ids(li.fn_trait) + trait_item_ids(li.send)
        + trait_item_ids(li.sync) + try_item_ids(li.try_protocol)
}

/// The texts of a sequence of static strings.
pub open spec fn texts(s: Seq<&'static str>) -> Seq<Seq<char>> {
    s.map_values(|r: &'static str| r@)
}

/// The role of a marker trait item, where there is one.
pub open spec fn trait_item_roles(o: Option<TraitItem<ProductDefId>>, tr: Seq<char>) -> Seq<Seq<char>> {
    match o {
        Some(_) => seq![tr],
        None => Seq::empty(),
    }
}

/// The roles of a two-definition item, where there is one.
pub open spec fn pair_roles<T>(o: Option<T>, tr: Seq<char>, mr: Seq<char>) -> Seq<Seq<char>> {
    match o {
        Some(_) => seq![tr, mr],
        None => Seq::empty(),
    }
}

/// The roles of the `?` protocol's definitions, where there is one.
pub open spec fn try_roles(o: Option<TryItems<ProductDefId>>) -> Seq<Seq<char>> {
    match o {
        Some(_) => seq!["try.trait"@, "try.branch"@, "from_residual.trait"@, "from_residual.method"@, "control_flow.enum"@],
        None => Seq::empty(),
    }
}

/// The role of every definition a registry names, in the order of
/// `item_ids`.
pub open spec fn item_roles_of(li: LanguageItems<ProductDefId>) -> Seq<Seq<char>> {
    trait_item_roles(li.sized, "sized.trait"@) + pair_roles(li.drop, "drop.trait"@, "drop.method"@)
        + pair_roles(li.index, "index.trait"@, "index.method"@) + pair_roles(li.index_mut, "index_mut.trait"@, "index_mut.method"@)
        + pair_roles(li.fn_once, "fn_once.trait"@, "fn_once.method"@) + pair_roles(li.fn_mut, "fn_mut.trait"@, "fn_mut.method"@)
        + pair_roles(li.fn_trait, "fn.trait"@, "fn.method"@) + trait_item_roles(li.send, "send.trait"@)
        + trait_item_roles(li.sync, "sync.trait"@) + try_roles(li.try_protocol)
}

fn push_trait_item(roles: &mut Vec<&'static str>, ids: &mut Vec<ProductDefId>, o: &Option<TraitItem<ProductDefId>>, tr: &'static str)
    requires
        old(roles)@.len() == old(ids)@.len(),
    ensures
        final(roles)@.len() == final(ids)@.len(),
        final(ids)@ == old(ids)@ + trait_item_ids(*o),
        texts(final(roles)@) == texts(old(roles)@) + trait_item_roles(*o, tr@),
{
    if let Some(x) = o {
        roles.push(tr);
        ids.push(x.trait_id);
    }
    assert(ids@ =~= old(ids)@ + trait_item_ids(*o));
    assert(texts(roles@) =~= texts(old(roles)@) + trait_item_roles(*o, tr@));
}

fn push_method_item(roles: &mut Vec<&'static str>, ids: &mut Vec<ProductDefId>, o: &Option<TraitMethodItems<ProductDefId>>, tr: &'static str, mr: &'static str)
    requires
        old(roles)@.len() == old(ids)@.len(),
    ensures
        final(roles)@.len() == final(ids)@.len(),
        final(ids)@ == old(ids)@ + method_item_ids(*o),
        texts(final(roles)@) == texts(old(roles)@) + pair_roles(*o, tr@, mr@),
{
    if let Some(x) = o {
        roles.push(tr);
        ids.push(x.trait_id);
        roles.push(mr);
        ids.push(x.method_id);
    }
    assert(ids@ =~= old(ids)@ + method_item_ids(*o));
    assert(texts(roles@) =~= texts(old(roles)@) + pair_roles(*o, tr@, mr@));
}

fn push_output_item(roles: &mut Vec<&'static str>, ids: &mut Vec<ProductDefId>, o: &Option<OutputItems<ProductDefId>>, tr: &'static str, mr: &'static str)
    requires
        old(roles)@.len() == old(ids)@.len(),
    ensures
        final(roles)@.len() == final(ids)@.len(),
        final(ids)@ == old(ids)@ + output_item_ids(*o),
        texts(final(roles)@) == texts(old(roles)@) + pair_roles(*o, tr@, mr@),
{
    if let Some(x) = o {
        roles.push(tr);
        ids.push(x.trait_id);
        roles.push(mr);
        ids.push(x.method_id);
    }
    assert(ids@ =~= old(ids)@ + output_item_ids(*o));
    assert(texts(roles@) =~= texts(old(roles)@) + pair_roles(*o, tr@, mr@));
}

fn push_try_item(roles: &mut Vec<&'static str>, ids: &mut Vec<ProductDefId>, o: &Option<TryItems<ProductDefId>>)
    requires
        old(roles)@.len() == old(ids)@.len(),
    ensures
        final(roles)@.len() == final(ids)@.len(),
        final(ids)@ == old(ids)@ + try_item_ids(*o),
        texts(final(roles)@) == texts(old(roles)@) + try_roles(*o),
{
    if let Some(x) = o {
        roles.push("try.trait");
        ids.push(x.try_trait_id);
        roles.push("try.branch");
        ids.push(x.branch_method_id);
        roles.push("from_residual.trait");
        ids.push(x.from_residual_trait_id);
        roles.push("from_residual.method");
        ids.push(x.from_residual_method_id);
        roles.push("control_flow.enum");
        ids.push(x.control_flow_enum_id);
    }
    assert(ids@ =~= old(ids)@ + try_item_ids(*o));
    assert(texts(roles@) =~= texts(old(roles)@) + try_roles(*o));
}

/// The role and identity of every definition a registry names, in
/// registry order.
fn item_roles(li: &LanguageItems<ProductDefId>) -> (r: (Vec<&'static str>, Vec<ProductDefId>))
    ensures
        r.0@.len() == r.1@.len(),
        r.1@ == item_ids(*li),
        texts(r.0@) == item_roles_of(*li),
{
    let mut roles: Vec<&'static str> = Vec::new();
    let mut ids: Vec<ProductDefId> = Vec::new();
    push_trait_item(&mut roles, &mut ids, &li.sized, "sized.trait");
    push_method_item(&mut roles, &mut ids, &li.drop, "drop.trait", "drop.method");
    push_output_item(&mut roles, &mut ids, &li.index, "index.trait", "index.method");
    push_output_item(&mut roles, &mut ids, &li.index_mut, "index_mut.trait", "index_mut.method");
    push_output_item(&mut roles, &mut ids, &li.fn_once, "fn_once.trait", "fn_once.method");
    push_output_item(&mut roles, &mut ids, &li.fn_mut, "fn_mut.trait", "fn_mut.method");
    push_output_item(&mut roles, &mut ids, &li.fn_trait, "fn.trait", "fn.method");
    push_trait_item(&mut roles, &mut ids, &li.send, "send.trait");
    push_trait_item(&mut roles, &mut ids, &li.sync, "sync.trait");
    push_try_item(&mut roles, &mut ids, &li.try_protocol);
    assert(ids@ =~= item_ids(*li));
    assert(texts(roles@) =~= item_roles_of(*li));
    (roles, ids)
}

/// Entry `k` of the registry is the first of another product crate.
pub open spec fn first_nonlocal_item(li: LanguageItems<ProductDefId>, lc: ProductCrateId, k: int) -> bool {
    &&& 0 <= k < item_ids(li).len()
    &&& item_ids(li)[k].crate_id != lc
    &&& forall|j: int| 0 <= j < k ==> (#[trigger] item_ids(li)[j]).crate_id == lc
}

/// The message for a registry entry of another product crate.
pub open spec fn msg_nonlocal_item(role: Seq<char>, id: ProductDefId, local_crate: ProductCrateId) -> Seq<char> {
    "Product artifact language item "@ + role + " uses non-local "@ + product_debug(id) + "; expected product crate "@
        + decimal(local_crate.0 as nat)
}

/// What the locality check reports: the first entry of another product
/// crate, with its role.
pub open spec fn local_ids_outcome(li: LanguageItems<ProductDefId>, lc: ProductCrateId) -> Result<(), Seq<char>> {
    if exists|k: int| first_nonlocal_item(li, lc, k) {
        let k = choose|k: int| first_nonlocal_item(li, lc, k);
        Err(msg_nonlocal_item(item_roles_of(li)[k], item_ids(li)[k], lc))
    } else {
        Ok(())
    }
}

/// Checks that every definition a registry names belongs to the local
/// product crate; the first that does not is reported with its role.
pub fn validate_product_local_ids(language_items: &LanguageItems<ProductDefId>, local_crate: ProductCrateId) -> (r: Result<(), String>)
    ensures
        outcome_is(r, local_ids_outcome(*language_items, local_crate)),
        r is Ok <==> forall|k: int| 0 <= k < item_ids(*language_items).len() ==> (#[trigger] item_ids(*language_items)[k]).crate_id == local_crate,
        r matches Err(e) ==> exists|k: int| first_nonlocal_item(*language_items, local_crate, k)
            && e@ == msg_nonlocal_item(item_roles_of(*language_items)[k], item_ids(*language_items)[k], local_crate),
{
    let (roles, ids) = item_roles(language_items);
    let mut k: usize = 0;
    while k < ids.len()
        invariant
            k <= ids@.len(),
            roles@.len() == ids@.len(),
            ids@ == item_ids(*language_items),
            texts(roles@) == item_roles_of(*language_items),
            forall|j: int| 0 <= j < k ==> (#[trigger] item_ids(*language_items)[j]).crate_id == local_crate,
        decreases ids.len() - k,
    {
        let id = ids[k];
        if id.crate_id != local_crate {
            let mut s = text("Product artifact language item ");
            push_str(&mut s, roles[k]);
            push_str(&mut s, " uses non-local ");
            push_product_text(&mut s, id);
            push_str(&mut s, "; expected product crate ");
            push_decimal(&mut s, local_crate.0 as u64);
            proof {
                assert(texts(roles@)[k as int] == roles@[k as int]@);
                assert(s@ =~= msg_nonlocal_item(item_roles_of(*language_items)[k as int], id, local_crate));
                assert(first_nonlocal_item(*language_items, local_crate, k as int));
                let c = choose|c: int| first_nonlocal_item(*language_items, local_crate, c);
                assert(c == k) by {
                    if c < k {
                        assert(item_ids(*language_items)[c].crate_id == local_crate);
                    } else if c > k {
                        assert(item_ids(*language_items)[k as int].crate_id == local_crate);
                    }
                }
            }
            return Err(s);
        }
        k = k + 1;
    }
    Ok(())
}

// ----- Index and IndexMut pairs -----

/// Two impls of Index and IndexMut are the same impl up to renaming their
/// generic parameters: receiver patterns (a mutable reference matching a
/// shared one), arity, trait arguments and bounds.
pub open spec fn index_pair_alpha(l: ImplInterface, r: ImplInterface) -> bool {
    &&& alpha_receiver(l.receiver_pattern, l.id, r.receiver_pattern, r.id)
    &&& l.type_generics@.len() == r.type_generics@.len()
    &&& alpha_list(l.trait_arg_types@, l.id, r.trait_arg_types@, r.id)
    &&& alpha_bounds(l.bounds, l.id, r.bounds, r.id)
}

/// Whether an IndexMut impl and an Index impl pair up.
pub fn product_index_impls_are_alpha_equivalent(left: &ImplInterface, right: &ImplInterface) -> (r: bool)
    ensures
        r == index_pair_alpha(*left, *right),
        r ==> left.trait_arg_types@.len() == right.trait_arg_types@.len() && forall|k: int| 0 <= k < left.trait_arg_types@.len()
            ==> crate::alpha::alpha_eq(#[trigger] left.trait_arg_types@[k], left.id, right.trait_arg_types@[k], right.id),
{
    alpha_equivalent_receiver_pattern(&left.receiver_pattern, left.id, &right.receiver_pattern, right.id)
        && left.type_generics.len() == right.type_generics.len()
        && alpha_equivalent_type_lists(&left.trait_arg_types, left.id, &right.trait_arg_types, right.id)
        && alpha_equivalent_bounds(&left.bounds, left.id, &right.bounds, right.id)
}

/// The positions of the impl's associated types with identity `id`.
pub open spec fn assoc_positions(imp: ImplInterface, id: AssocTypeId) -> Set<int> {
    Set::new(|k: int| 0 <= k < imp.associated_types@.len() && imp.associated_types@[k].id == id)
}

/// The impl's associated type `id`, where it declares exactly one.
pub open spec fn unique_assoc(imp: ImplInterface, id: AssocTypeId) -> Option<Type> {
    if exists|k: int| #[trigger] assoc_positions(imp, id).contains(k) && forall|j: int| #[trigger] assoc_positions(imp, id).contains(j) ==> j == k {
        let k = choose|k: int| #[trigger] assoc_positions(imp, id).contains(k) && forall|j: int| #[trigger] assoc_positions(imp, id).contains(j) ==> j == k;
        Some(imp.associated_types@[k].ty)
    } else {
        None
    }
}

/// The impl's associated type `id`; an error naming `context` when the impl
/// declares it not once.
pub fn product_associated_type<'a>(imp: &'a ImplInterface, id: AssocTypeId, context: &str) -> (r: Result<&'a Type, String>)
    ensures
        match unique_assoc(*imp, id) {
            Some(t) => r matches Ok(x) && *x == t,
            None => r matches Err(e) && e@ == context@ + (if exists|j: int| 0 <= j < imp.associated_types@.len()
                && (#[trigger] imp.associated_types@[j]).id == id {
                " has duplicate marked associated output AssocTypeId("@
            } else {
                " is missing marked associated output AssocTypeId("@
            }) + decimal(id.0 as nat) + ")"@,
        },
{
    let mut found: Option<usize> = None;
    let mut count: usize = 0;
    let mut k: usize = 0;
    while k < imp.associated_types.len()
        invariant
            k <= imp.associated_types@.len(),
            count <= k,
            count == 0 <==> forall|j: int| 0 <= j < k ==> imp.associated_types@[j].id != id,
            count == 1 ==> (found matches Some(f) && f < k && imp.associated_types@[f as int].id == id
                && forall|j: int| 0 <= j < k && imp.associated_types@[j].id == id ==> j == f),
            count >= 2 ==> exists|a: int, b: int| 0 <= a < b < k && imp.associated_types@[a].id == id && imp.associated_types@[b].id == id,
            count == 1 ==> found is Some,
        decreases imp.associated_types.len() - k,
    {
        if imp.associated_types[k].id == id {
            if count == 1 {
                let f = found.unwrap();
                assert(imp.associated_types@[f as int].id == id && imp.associated_types@[k as int].id == id);
            }
            if count == 0 {
                found = Some(k);
            }
            count = if count < 2 { count + 1 } else { count };
        }
        k = k + 1;
    }
    if count == 1 {
        let f = found.unwrap();
        proof {
            assert(assoc_positions(*imp, id).contains(f as int));
            assert forall|j: int| #[trigger] assoc_positions(*imp, id).contains(j) implies j == f by {}
        }
        return Ok(&imp.associated_types[f].ty);
    }
    proof {
        if exists|q: int| #[trigger] assoc_positions(*imp, id).contains(q) && forall|j: int| #[trigger] assoc_positions(*imp, id).contains(j) ==> j == q {
            let q = choose|q: int| #[trigger] assoc_positions(*imp, id).contains(q) && forall|j: int| #[trigger] assoc_positions(*imp, id).contains(j) ==> j == q;
            if count == 0 {
                assert(imp.associated_types@[q].id == id);
            } else {
                let (a, b) = choose|a: int, b: int| 0 <= a < b < k && imp.associated_types@[a].id == id && imp.associated_types@[b].id == id;
                assert(assoc_positions(*imp, id).contains(a));
                assert(assoc_positions(*imp, id).contains(b));
            }
        }
    }
    let mut s = text(context);
    if count == 0 {
        push_str(&mut s, " is missing marked associated output AssocTypeId(");
    } else {
        push_str(&mut s, " has duplicate marked associated output AssocTypeId(");
        proof {
            let (a, b) = choose|a: int, b: int| 0 <= a < b < k && imp.associated_types@[a].id == id && imp.associated_types@[b].id == id;
            assert(imp.associated_types@[a].id == id);
        }
    }
    push_decimal(&mut s, id.0 as u64);
    push_str(&mut s, ")");
    proof {
        reveal_strlit(")");
    }
    Err(s)
}

/// `imp` implements the trait `t`.
pub open spec fn implements(imp: ImplInterface, t: ProductDefId) -> bool {
    imp.trait_id == Some(spec_def_of(t))
}

/// The Index impls of the interface that pair with the IndexMut impl `m`.
pub open spec fn index_partners(f: ProductInterface, index_trait: ProductDefId, m: ImplInterface) -> Set<int> {
    Set::new(|i: int| 0 <= i < f.impls@.len() && implements(f.impls@[i].1, index_trait) && index_pair_alpha(m, f.impls@[i].1))
}

/// An IndexMut impl pairs only with Index impls whose index keys are its
/// own up to the renaming of impl generics: the trait argument lists have
/// the same length and are alpha-equivalent position by position.
pub proof fn lemma_partners_share_keys(f: ProductInterface, index_trait: ProductDefId, mi: ImplInterface, i: int)
    requires
        index_partners(f, index_trait, mi).contains(i),
    ensures
        0 <= i < f.impls@.len(),
        implements(f.impls@[i].1, index_trait),
        mi.trait_arg_types@.len() == f.impls@[i].1.trait_arg_types@.len(),
        forall|k: int| 0 <= k < mi.trait_arg_types@.len() ==> crate::alpha::alpha_eq(#[trigger] mi.trait_arg_types@[k], mi.id,
            f.impls@[i].1.trait_arg_types@[k], f.impls@[i].1.id),
{
}

/// When the IndexMut check passes, each IndexMut impl has exactly one Index
/// partner, and that partner's index keys are alpha-equivalent to its own.
pub proof fn lemma_index_mut_pairs_by_key(f: ProductInterface, li: LanguageItems<ProductDefId>, m: int)
    requires
        index_mut_impls_ok(f, li),
        li.index is Some,
        li.index_mut is Some,
        0 <= m < f.impls@.len(),
        implements(f.impls@[m].1, li.index_mut.unwrap().trait_id),
    ensures
        exists|i: int| #[trigger] index_partners(f, li.index.unwrap().trait_id, f.impls@[m].1).contains(i) && {
            &&& forall|j: int| #[trigger] index_partners(f, li.index.unwrap().trait_id, f.impls@[m].1).contains(j) ==> j == i
            &&& f.impls@[m].1.trait_arg_types@.len() == f.impls@[i].1.trait_arg_types@.len()
            &&& forall|k: int| 0 <= k < f.impls@[m].1.trait_arg_types@.len() ==> crate::alpha::alpha_eq(
                #[trigger] f.impls@[m].1.trait_arg_types@[k], f.impls@[m].1.id, f.impls@[i].1.trait_arg_types@[k], f.impls@[i].1.id)
        },
{
    let index = li.index.unwrap();
    let mi = f.impls@[m].1;
    assert(index_mut_impl_ok(f, index, li.index_mut.unwrap(), mi));
    let i = choose|i: int| #[trigger] index_partners(f, index.trait_id, mi).contains(i) && {
        &&& forall|j: int| #[trigger] index_partners(f, index.trait_id, mi).contains(j) ==> j == i
        &&& unique_assoc(f.impls@[i].1, index.output_id) matches Some(io)
        &&& unique_assoc(mi, li.index_mut.unwrap().output_id) matches Some(mo)
        &&& crate::alpha::alpha_eq(io, f.impls@[i].1.id, mo, mi.id)
    };
    lemma_partners_share_keys(f, index.trait_id, mi, i);
}

/// The IndexMut impl `mi` pairs with exactly one Index impl, and both
/// declare their output once, with alpha-equivalent output types.
pub open spec fn index_mut_impl_ok(f: ProductInterface, index: OutputItems<ProductDefId>, index_mut: OutputItems<ProductDefId>, mi: ImplInterface) -> bool {
    exists|i: int| #[trigger] index_partners(f, index.trait_id, mi).contains(i) && {
        &&& forall|j: int| #[trigger] index_partners(f, index.trait_id, mi).contains(j) ==> j == i
        &&& unique_assoc(f.impls@[i].1, index.output_id) matches Some(io)
        &&& unique_assoc(mi, index_mut.output_id) matches Some(mo)
        &&& alpha_eq(io, f.impls@[i].1.id, mo, mi.id)
    }
}

/// Each IndexMut impl pairs with one Index impl as `index_mut_impl_ok` says.
pub open spec fn index_mut_impls_ok(f: ProductInterface, li: LanguageItems<ProductDefId>) -> bool {
    match (li.index, li.index_mut) {
        (Some(index), Some(index_mut)) => forall|m: int| 0 <= m < f.impls@.len() && implements(#[trigger] f.impls@[m].1, index_mut.trait_id)
            ==> index_mut_impl_ok(f, index, index_mut, f.impls@[m].1),
        _ => true,
    }
}

/// The key an impl is shown with: its first trait argument.
pub open spec fn key_of(imp: ImplInterface) -> Seq<char> {
    if imp.trait_arg_types@.len() == 0 {
        "<missing>"@
    } else {
        crate::render::type_text(imp.trait_arg_types@[0])
    }
}

/// An impl as messages name it.
pub open spec fn impl_ctx(prefix: Seq<char>, imp: ImplInterface, key: Seq<char>) -> Seq<char> {
    prefix + imp.self_name@ + " with key "@ + key
}

/// The message for an impl, named by `context`, that declares the output
/// `id` not once.
pub open spec fn msg_assoc(context: Seq<char>, imp: ImplInterface, id: AssocTypeId) -> Seq<char> {
    context + (if exists|j: int| 0 <= j < imp.associated_types@.len() && (#[trigger] imp.associated_types@[j]).id == id {
        " has duplicate marked associated output AssocTypeId("@
    } else {
        " is missing marked associated output AssocTypeId("@
    }) + decimal(id.0 as nat) + ")"@
}

/// The identities embedded by the Index impls among the first `n` that
/// pair with `mi`, in table order.
pub open spec fn partner_ids(f: ProductInterface, t: ProductDefId, mi: ImplInterface, n: int) -> Seq<ProductDefId>
    decreases n,
{
    if n <= 0 {
        Seq::empty()
    } else if index_partners(f, t, mi).contains(n - 1) {
        partner_ids(f, t, mi, n - 1).push(spec_product_of(f.impls@[n - 1].1.id))
    } else {
        partner_ids(f, t, mi, n - 1)
    }
}

/// Position `k` of `s` holds its first smallest identity.
pub open spec fn is_first_min(s: Seq<ProductDefId>, k: int) -> bool {
    &&& 0 <= k < s.len()
    &&& forall|j: int| 0 <= j < s.len() ==> !crate::collections::id_lt(#[trigger] s[j], s[k])
    &&& forall|j: int| 0 <= j < k ==> crate::collections::id_lt(s[k], #[trigger] s[j])
}

/// The identities of `s` in ascending order.
pub open spec fn sorted_ids(s: Seq<ProductDefId>) -> Seq<ProductDefId>
    decreases s.len(),
{
    if exists|k: int| is_first_min(s, k) {
        let k = choose|k: int| is_first_min(s, k);
        seq![s[k]] + sorted_ids(s.remove(k))
    } else {
        Seq::empty()
    }
}

/// The identities of `s`, in order, as messages show them, separated by
/// `", "`.
pub open spec fn id_list(s: Seq<ProductDefId>) -> Seq<char>
    decreases s.len(),
{
    if s.len() == 0 {
        Seq::empty()
    } else if s.len() == 1 {
        product_debug(s[0])
    } else {
        id_list(s.drop_last()) + ", "@ + product_debug(s.last())
    }
}

/// The position of the first smallest identity of a nonempty list.
fn first_min(v: &Vec<ProductDefId>) -> (k: usize)
    requires
        v@.len() > 0,
    ensures
        is_first_min(v@, k as int),
{
    let mut k: usize = 0;
    let mut j: usize = 1;
    while j < v.len()
        invariant
            1 <= j <= v@.len(),
            k < j,
            forall|i: int| 0 <= i < j ==> !crate::collections::id_lt(#[trigger] v@[i], v@[k as int]),
            forall|i: int| 0 <= i < k ==> crate::collections::id_lt(v@[k as int], #[trigger] v@[i]),
        decreases v@.len() - j,
    {
        let a = v[j];
        let b = v[k];
        if a.crate_id.0 < b.crate_id.0 || (a.crate_id.0 == b.crate_id.0 && a.local_id.0 < b.local_id.0) {
            k = j;
        }
        j = j + 1;
    }
    k
}

/// The identities of `v` in ascending order.
fn sort_ids(v: Vec<ProductDefId>) -> (r: Vec<ProductDefId>)
    ensures
        r@ == sorted_ids(v@),
    decreases v@.len(),
{
    if v.len() == 0 {
        proof {
            assert(!exists|k: int| is_first_min(v@, k));
        }
        return Vec::new();
    }
    let k = first_min(&v);
    proof {
        let c = choose|c: int| is_first_min(v@, c);
        assert(c == k as int) by {
            if c < k as int {
                assert(crate::collections::id_lt(v@[k as int], v@[c]));
            } else if c > k as int {
                assert(crate::collections::id_lt(v@[c], v@[k as int]));
            }
        }
    }
    let x = v[k];
    let mut rest = v;
    let ghost whole = rest@;
    rest.remove(k);
    assert(rest@ == whole.remove(k as int));
    let mut tail = sort_ids(rest);
    let mut out: Vec<ProductDefId> = Vec::new();
    out.push(x);
    out.append(&mut tail);
    assert(out@ =~= seq![x] + sorted_ids(whole.remove(k as int)));
    out
}

/// The identities of `v`, in order, as messages show them.
fn id_list_text(v: &Vec<ProductDefId>) -> (r: String)
    ensures
        r@ == id_list(v@),
{
    let mut s = String::new();
    let mut i: usize = 0;
    while i < v.len()
        invariant
            i <= v@.len(),
            s@ == id_list(v@.take(i as int)),
        decreases v@.len() - i,
    {
        proof {
            assert(v@.take(i + 1).drop_last() =~= v@.take(i as int));
            assert(v@.take(i + 1).last() == v@[i as int]);
        }
        if i > 0 {
            push_str(&mut s, ", ");
        } else {
            proof {
                assert(v@.take(1)[0] == v@[0]);
            }
        }
        push_product_text(&mut s, v[i]);
        i = i + 1;
    }
    assert(v@.take(i as int) =~= v@);
    s
}

/// What the check of the IndexMut impl `mi` reports: no partner, more than
/// one (listed by their embedded identities, in ascending order), or, with one partner, the first impl that does not declare
/// its output once, or the two outputs when they differ.
pub open spec fn index_mut_impl_outcome(
    f: ProductInterface,
    index: OutputItems<ProductDefId>,
    index_mut: OutputItems<ProductDefId>,
    mi: ImplInterface,
) -> Result<(), Seq<char>> {
    let ps = index_partners(f, index.trait_id, mi);
    let key = key_of(mi);
    let mctx = impl_ctx("Product artifact IndexMut implementation for "@, mi, key);
    if !(exists|j: int| #[trigger] ps.contains(j)) {
        Err(mctx + " requires a matching Index implementation"@)
    } else if exists|a: int, b: int| a != b && #[trigger] ps.contains(a) && #[trigger] ps.contains(b) {
        Err(mctx + " has multiple matching Index implementations: "@
            + id_list(sorted_ids(partner_ids(f, index.trait_id, mi, f.impls@.len() as int))))
    } else {
        let ii = f.impls@[choose|i: int| #[trigger] ps.contains(i)].1;
        match (unique_assoc(ii, index.output_id), unique_assoc(mi, index_mut.output_id)) {
            (None, _) => Err(msg_assoc(impl_ctx("Product artifact Index implementation for "@, ii, key), ii, index.output_id)),
            (Some(_), None) => Err(msg_assoc(mctx, mi, index_mut.output_id)),
            (Some(io), Some(mo)) => if alpha_eq(io, ii.id, mo, mi.id) {
                Ok(())
            } else {
                Err("Product artifact IndexMut implementation output "@ + crate::render::type_text(mo)
                    + " does not match Index output "@ + crate::render::type_text(io))
            },
        }
    }
}

/// The impl at position `a` is checked before the one at `b`: impls are
/// taken in the order of the identities they embed, and impls embedding the
/// same identity in table order.
pub open spec fn impl_before(f: ProductInterface, a: int, b: int) -> bool {
    let x = spec_product_of(f.impls@[a].1.id);
    let y = spec_product_of(f.impls@[b].1.id);
    crate::collections::id_lt(x, y) || (x == y && a < b)
}

/// Position `m` holds the first IndexMut impl, in the order of their
/// embedded identities, whose check fails.
pub open spec fn first_bad_index_mut(
    f: ProductInterface,
    index: OutputItems<ProductDefId>,
    index_mut: OutputItems<ProductDefId>,
    m: int,
) -> bool {
    &&& 0 <= m < f.impls@.len()
    &&& implements(f.impls@[m].1, index_mut.trait_id)
    &&& index_mut_impl_outcome(f, index, index_mut, f.impls@[m].1) is Err
    &&& forall|q: int| 0 <= q < f.impls@.len() && q != m && implements(#[trigger] f.impls@[q].1, index_mut.trait_id)
        && impl_before(f, q, m) ==> index_mut_impl_outcome(f, index, index_mut, f.impls@[q].1) is Ok
}

/// Whether the impl at position `a` is checked before the one at `b`.
fn impl_comes_before(f: &ProductInterface, a: usize, b: usize) -> (r: bool)
    requires
        a < f.impls@.len(),
        b < f.impls@.len(),
    ensures
        r == impl_before(*f, a as int, b as int),
{
    let x = ProductDefId::from_def_id(f.impls.entry(a).1.id);
    let y = ProductDefId::from_def_id(f.impls.entry(b).1.id);
    x.crate_id.0 < y.crate_id.0 || (x.crate_id.0 == y.crate_id.0 && x.local_id.0 < y.local_id.0)
        || (x.crate_id.0 == y.crate_id.0 && x.local_id.0 == y.local_id.0 && a < b)
}

/// What the IndexMut check reports: the outcome of the first IndexMut impl,
/// in the order of their embedded identities, that fails.
pub open spec fn index_mut_outcome(f: ProductInterface, li: LanguageItems<ProductDefId>) -> Result<(), Seq<char>> {
    match (li.index, li.index_mut) {
        (Some(index), Some(index_mut)) => if exists|m: int| first_bad_index_mut(f, index, index_mut, m) {
            index_mut_impl_outcome(f, index, index_mut, f.impls@[choose|m: int| first_bad_index_mut(f, index, index_mut, m)].1)
        } else {
            Ok(())
        },
        _ => Ok(()),
    }
}

fn impl_context(prefix: &str, imp: &ImplInterface, key: &String) -> (r: String)
    ensures
        r@ == impl_ctx(prefix@, *imp, key@),
{
    let mut s = text(prefix);
    push_str(&mut s, imp.self_name.as_str());
    push_str(&mut s, " with key ");
    push_str(&mut s, key.as_str());
    s
}

fn key_text(imp: &ImplInterface) -> (r: String)
    ensures
        r@ == key_of(*imp),
{
    if imp.trait_arg_types.len() == 0 {
        text("<missing>")
    } else {
        let mut s = String::new();
        push_type_text(&mut s, &imp.trait_arg_types[0]);
        s
    }
}

/// Checks one IndexMut impl against the Index impls.
#[verifier::loop_isolation(false)]
fn check_index_mut_impl(
    f: &ProductInterface,
    index: &OutputItems<ProductDefId>,
    index_mut: &OutputItems<ProductDefId>,
    m: usize,
) -> (r: Result<(), String>)
    requires
        m < f.impls@.len(),
    ensures
        r is Ok <==> index_mut_impl_ok(*f, *index, *index_mut, f.impls@[m as int].1),
        outcome_is(r, index_mut_impl_outcome(*f, *index, *index_mut, f.impls@[m as int].1)),
{
    let mi = &f.impls.entry(m).1;
    let index_trait = crate::ids::product_def_id(index.trait_id);
    let ghost ps = index_partners(*f, index.trait_id, *mi);
    let mut partners: Vec<usize> = Vec::new();
    let mut ids: Vec<ProductDefId> = Vec::new();
    let mut i: usize = 0;
    while i < f.impls.len()
        invariant
            i <= f.impls@.len(),
            ps == index_partners(*f, index.trait_id, *mi),
            forall|q: int| 0 <= q < partners@.len() ==> #[trigger] partners@[q] < i,
            forall|q: int| 0 <= q < partners@.len() ==> ps.contains(#[trigger] partners@[q] as int),
            forall|j: int| 0 <= j < i && #[trigger] ps.contains(j) ==> partners@.contains(j as usize),
            forall|a: int, b: int| 0 <= a < b < partners@.len() ==> partners@[a] < partners@[b],
            ids@ == partner_ids(*f, index.trait_id, *mi, i as int),
        decreases f.impls@.len() - i,
    {
        let e = f.impls.entry(i);
        let ghost before = partners@;
        if e.1.trait_id == Some(index_trait) && product_index_impls_are_alpha_equivalent(mi, &e.1) {
            ids.push(ProductDefId::from_def_id(e.1.id));
            partners.push(i);
            assert(ps.contains(i as int));
            assert forall|x: usize| before.contains(x) implies partners@.contains(x) by {
                let q = choose|q: int| 0 <= q < before.len() && before[q] == x;
                assert(partners@[q] == before[q]);
            }
            assert(partners@[partners@.len() - 1] == i);
        } else {
            assert(!ps.contains(i as int));
        }
        i = i + 1;
    }
    let key = key_text(mi);
    if partners.len() != 1 {
        let mut s = impl_context("Product artifact IndexMut implementation for ", mi, &key);
        if partners.len() == 0 {
            push_str(&mut s, " requires a matching Index implementation");
            proof {
                if exists|q: int| #[trigger] ps.contains(q) {
                    let q = choose|q: int| #[trigger] ps.contains(q);
                    assert(partners@.contains(q as usize));
                }
            }
        } else {
            push_str(&mut s, " has multiple matching Index implementations: ");
            let sorted = sort_ids(ids);
            let list = id_list_text(&sorted);
            push_str(&mut s, list.as_str());
            proof {
                assert(ps.contains(partners@[0] as int));
                assert(ps.contains(partners@[1] as int));
                assert(exists|j: int| #[trigger] ps.contains(j));
            }
        }
        return Err(s);
    }
    let pi = partners[0];
    proof {
        assert(ps.contains(pi as int));
        assert forall|j: int| #[trigger] ps.contains(j) implies j == pi by {
            assert(partners@.contains(j as usize));
        }
        assert((choose|i: int| #[trigger] ps.contains(i)) == pi as int);
    }
    let ii = &f.impls.entry(pi).1;
    let index_context = impl_context("Product artifact Index implementation for ", ii, &key);
    let index_mut_context = impl_context("Product artifact IndexMut implementation for ", mi, &key);
    let index_output = match product_associated_type(ii, index.output_id, index_context.as_str()) {
        Ok(t) => t,
        Err(e) => {
            proof {
                assert(e@ == msg_assoc(index_context@, *ii, index.output_id));
            }
            return Err(e);
        },
    };
    let index_mut_output = match product_associated_type(mi, index_mut.output_id, index_mut_context.as_str()) {
        Ok(t) => t,
        Err(e) => {
            proof {
                assert(e@ == msg_assoc(index_mut_context@, *mi, index_mut.output_id));
            }
            return Err(e);
        },
    };
    if !alpha_equivalent_type(index_output, ii.id, index_mut_output, mi.id) {
        let mut s = text("Product artifact IndexMut implementation output ");
        push_type_text(&mut s, index_mut_output);
        push_str(&mut s, " does not match Index output ");
        push_type_text(&mut s, index_output);
        return Err(s);
    }
    Ok(())
}

/// Checks that each IndexMut impl pairs with exactly one Index impl with a
/// matching output.
#[verifier::loop_isolation(false)]
pub fn validate_product_index_mut_impls(products: &CompilerProducts, language_items: &LanguageItems<ProductDefId>) -> (r: Result<(), String>)
    ensures
        r is Ok <==> index_mut_impls_ok(products.interface, *language_items),
        outcome_is(r, index_mut_outcome(products.interface, *language_items)),
{
    let index = match &language_items.index {
        Some(x) => x,
        None => return Ok(()),
    };
    let index_mut = match &language_items.index_mut {
        Some(x) => x,
        None => return Ok(()),
    };
    let f = &products.interface;
    let index_mut_trait = crate::ids::product_def_id(index_mut.trait_id);
    let mut best: Option<usize> = None;
    let mut best_err = String::new();
    let mut m: usize = 0;
    while m < f.impls.len()
        invariant
            m <= f.impls@.len(),
            forall|q: int| 0 <= q < m && implements(#[trigger] f.impls@[q].1, index_mut.trait_id)
                ==> (index_mut_impl_ok(*f, *index, *index_mut, f.impls@[q].1)
                    <==> index_mut_impl_outcome(*f, *index, *index_mut, f.impls@[q].1) is Ok),
            best is None ==> forall|q: int| 0 <= q < m && implements(#[trigger] f.impls@[q].1, index_mut.trait_id)
                ==> index_mut_impl_outcome(*f, *index, *index_mut, f.impls@[q].1) is Ok,
            best matches Some(b) ==> {
                &&& b < m
                &&& implements(f.impls@[b as int].1, index_mut.trait_id)
                &&& index_mut_impl_outcome(*f, *index, *index_mut, f.impls@[b as int].1) == Err::<(), Seq<char>>(best_err@)
                &&& forall|q: int| 0 <= q < m && q != b && implements(#[trigger] f.impls@[q].1, index_mut.trait_id)
                    && impl_before(*f, q, b as int) ==> index_mut_impl_outcome(*f, *index, *index_mut, f.impls@[q].1) is Ok
            },
        decreases f.impls@.len() - m,
    {
        if f.impls.entry(m).1.trait_id == Some(index_mut_trait) {
            let checked = check_index_mut_impl(f, index, index_mut, m);
            match checked {
                Ok(()) => {},
                Err(e) => {
                    let take = match best {
                        None => true,
                        Some(b) => impl_comes_before(f, m, b),
                    };
                    if take {
                        proof {
                            if best is Some {
                                let b = best->0;
                                assert forall|q: int| 0 <= q < m + 1 && q != m && implements(#[trigger] f.impls@[q].1, index_mut.trait_id)
                                    && impl_before(*f, q, m as int) implies index_mut_impl_outcome(*f, *index, *index_mut, f.impls@[q].1) is Ok by {
                                    if q != b as int {
                                        assert(impl_before(*f, q, b as int));
                                    }
                                }
                            }
                        }
                        best = Some(m);
                        best_err = e;
                    } else {
                        proof {
                            let b = best.unwrap();
                            assert(impl_before(*f, b as int, m as int));
                        }
                    }
                },
            }
        }
        m = m + 1;
    }
    match best {
        None => {
            proof {
                assert forall|q: int| !first_bad_index_mut(*f, *index, *index_mut, q) by {
                    if 0 <= q < f.impls@.len() && implements(f.impls@[q].1, index_mut.trait_id) {
                        assert(index_mut_impl_outcome(*f, *index, *index_mut, f.impls@[q].1) is Ok);
                    }
                }
            }
            Ok(())
        },
        Some(b) => {
            proof {
                assert(first_bad_index_mut(*f, *index, *index_mut, b as int));
                let c = choose|c: int| first_bad_index_mut(*f, *index, *index_mut, c);
                assert(c == b as int) by {
                    if c != b as int {
                        if impl_before(*f, c, b as int) {
                            assert(implements(f.impls@[c].1, index_mut.trait_id));
                        } else {
                            assert(impl_before(*f, b as int, c));
                            assert(implements(f.impls@[b as int].1, index_mut.trait_id));
                        }
                    }
                }
                assert(implements(f.impls@[b as int].1, index_mut.trait_id));
                assert(!index_mut_impl_ok(*f, *index, *index_mut, f.impls@[b as int].1));
            }
            Err(best_err)
        },
    }
}


// ----- the interface rows a registry reaches -----

/// The trait members a registry names.
pub open spec fn member_item_ids(li: LanguageItems<ProductDefId>) -> Seq<ProductDefId> {
    (match li.drop { Some(x) => seq![x.method_id], None => Seq::empty() })
        + (match li.index { Some(x) => seq![x.method_id], None => Seq::empty() })
        + (match li.index_mut { Some(x) => seq![x.method_id], None => Seq::empty() })
        + (match li.fn_once { Some(x) => seq![x.method_id], None => Seq::empty() })
        + (match li.fn_mut { Some(x) => seq![x.method_id], None => Seq::empty() })
        + (match li.fn_trait { Some(x) => seq![x.method_id], None => Seq::empty() })
        + (match li.try_protocol { Some(x) => seq![x.branch_method_id, x.from_residual_method_id], None => Seq::empty() })
}

/// The associated types a registry names.
pub open spec fn assoc_item_ids(li: LanguageItems<ProductDefId>) -> Seq<AssocTypeId> {
    (match li.index { Some(x) => seq![x.output_id], None => Seq::empty() })
        + (match li.index_mut { Some(x) => seq![x.output_id], None => Seq::empty() })
        + (match li.fn_once { Some(x) => seq![x.output_id], None => Seq::empty() })
        + (match li.fn_mut { Some(x) => seq![x.output_id], None => Seq::empty() })
        + (match li.fn_trait { Some(x) => seq![x.output_id], None => Seq::empty() })
        + (match li.try_protocol { Some(x) => seq![x.output_id, x.residual_id], None => Seq::empty() })
}

/// The enum variants a registry names.
pub open spec fn variant_item_ids(li: LanguageItems<ProductDefId>) -> Seq<VariantId> {
    match li.try_protocol {
        Some(x) => seq![x.break_variant_id, x.continue_variant_id],
        None => Seq::empty(),
    }
}

/// A trait that declares a member or an associated type the registry names.
pub open spec fn trait_reached(t: crate::products::TraitInterface, li: LanguageItems<ProductDefId>) -> bool {
    ||| exists|k: int| 0 <= k < t.methods@.len() && member_item_ids(li).contains(spec_product_of((#[trigger] t.methods@[k]).1.id))
    ||| exists|k: int| 0 <= k < t.signatures@.len() && member_item_ids(li).contains(spec_product_of((#[trigger] t.signatures@[k]).1.id))
    ||| exists|k: int| 0 <= k < t.associated_types@.len() && assoc_item_ids(li).contains((#[trigger] t.associated_types@[k]).id)
}

/// An enum that declares a variant the registry names.
pub open spec fn enum_reached(e: crate::products::EnumInterface, li: LanguageItems<ProductDefId>) -> bool {
    exists|k: int| 0 <= k < e.variants@.len() && variant_item_ids(li).contains((#[trigger] e.variants@[k]).id)
}

/// The definitions that the registry reaches: the ones it names, and the
/// traits and enums that declare the members, associated types and
/// variants it names.
pub open spec fn is_lang_id(f: ProductInterface, li: LanguageItems<ProductDefId>, id: ProductDefId) -> bool {
    ||| item_ids(li).contains(id)
    ||| exists|i: int| 0 <= i < f.traits@.len() && (#[trigger] f.traits@[i]).0 == id && trait_reached(f.traits@[i].1, li)
    ||| exists|i: int| 0 <= i < f.enums@.len() && (#[trigger] f.enums@[i]).0 == id && enum_reached(f.enums@[i].1, li)
}

fn contains_assoc_id(s: &Vec<AssocTypeId>, x: AssocTypeId) -> (r: bool)
    ensures
        r == s@.contains(x),
{
    let mut k: usize = 0;
    while k < s.len()
        invariant
            k <= s@.len(),
            forall|j: int| 0 <= j < k ==> s@[j] != x,
        decreases s.len() - k,
    {
        if s[k] == x {
            assert(s@[k as int] == x);
            return true;
        }
        k = k + 1;
    }
    false
}

fn contains_variant_id(s: &Vec<VariantId>, x: VariantId) -> (r: bool)
    ensures
        r == s@.contains(x),
{
    let mut k: usize = 0;
    while k < s.len()
        invariant
            k <= s@.len(),
            forall|j: int| 0 <= j < k ==> s@[j] != x,
        decreases s.len() - k,
    {
        if s[k] == x {
            assert(s@[k as int] == x);
            return true;
        }
        k = k + 1;
    }
    false
}

fn push_opt_member(v: &mut Vec<ProductDefId>, o: &Option<OutputItems<ProductDefId>>)
    ensures
        final(v)@ == old(v)@ + match *o { Some(x) => seq![x.method_id], None => Seq::<ProductDefId>::empty() },
{
    if let Some(x) = o {
        v.push(x.method_id);
    }
    assert(v@ =~= old(v)@ + match *o { Some(x) => seq![x.method_id], None => Seq::<ProductDefId>::empty() });
}

fn push_opt_output(v: &mut Vec<AssocTypeId>, o: &Option<OutputItems<ProductDefId>>)
    ensures
        final(v)@ == old(v)@ + match *o { Some(x) => seq![x.output_id], None => Seq::<AssocTypeId>::empty() },
{
    if let Some(x) = o {
        v.push(x.output_id);
    }
    assert(v@ =~= old(v)@ + match *o { Some(x) => seq![x.output_id], None => Seq::<AssocTypeId>::empty() });
}

fn member_vec(li: &LanguageItems<ProductDefId>) -> (r: Vec<ProductDefId>)
    ensures
        r@ == member_item_ids(*li),
{
    let mut v: Vec<ProductDefId> = Vec::new();
    if let Some(x) = &li.drop {
        v.push(x.method_id);
    }
    assert(v@ =~= match li.drop { Some(x) => seq![x.method_id], None => Seq::<ProductDefId>::empty() });
    push_opt_member(&mut v, &li.index);
    push_opt_member(&mut v, &li.index_mut);
    push_opt_member(&mut v, &li.fn_once);
    push_opt_member(&mut v, &li.fn_mut);
    push_opt_member(&mut v, &li.fn_trait);
    let ghost head = v@;
    if let Some(x) = &li.try_protocol {
        v.push(x.branch_method_id);
        v.push(x.from_residual_method_id);
    }
    assert(v@ =~= member_item_ids(*li));
    v
}

fn assoc_vec(li: &LanguageItems<ProductDefId>) -> (r: Vec<AssocTypeId>)
    ensures
        r@ == assoc_item_ids(*li),
{
    let mut v: Vec<AssocTypeId> = Vec::new();
    push_opt_output(&mut v, &li.index);
    push_opt_output(&mut v, &li.index_mut);
    push_opt_output(&mut v, &li.fn_once);
    push_opt_output(&mut v, &li.fn_mut);
    push_opt_output(&mut v, &li.fn_trait);
    if let Some(x) = &li.try_protocol {
        v.push(x.output_id);
        v.push(x.residual_id);
    }
    assert(v@ =~= assoc_item_ids(*li));
    v
}

#[verifier::loop_isolation(false)]
fn trait_is_reached(t: &crate::products::TraitInterface, members: &Vec<ProductDefId>, assocs: &Vec<AssocTypeId>, li: &LanguageItems<ProductDefId>) -> (r: bool)
    requires
        members@ == member_item_ids(*li),
        assocs@ == assoc_item_ids(*li),
    ensures
        r == trait_reached(*t, *li),
{
    let mut k: usize = 0;
    while k < t.methods.len()
        invariant
            k <= t.methods@.len(),
            forall|j: int| 0 <= j < k ==> !member_item_ids(*li).contains(spec_product_of((#[trigger] t.methods@[j]).1.id)),
        decreases t.methods.len() - k,
    {
        if crate::collections::contains_id(members, ProductDefId::from_def_id(t.methods[k].1.id)) {
            assert(member_item_ids(*li).contains(spec_product_of(t.methods@[k as int].1.id)));
            return true;
        }
        k = k + 1;
    }
    let mut k: usize = 0;
    while k < t.signatures.len()
        invariant
            k <= t.signatures@.len(),
            forall|j: int| 0 <= j < k ==> !member_item_ids(*li).contains(spec_product_of((#[trigger] t.signatures@[j]).1.id)),
        decreases t.signatures.len() - k,
    {
        if crate::collections::contains_id(members, ProductDefId::from_def_id(t.signatures[k].1.id)) {
            assert(member_item_ids(*li).contains(spec_product_of(t.signatures@[k as int].1.id)));
            return true;
        }
        k = k + 1;
    }
    let mut k: usize = 0;
    while k < t.associated_types.len()
        invariant
            k <= t.associated_types@.len(),
            forall|j: int| 0 <= j < k ==> !assoc_item_ids(*li).contains((#[trigger] t.associated_types@[j]).id),
        decreases t.associated_types.len() - k,
    {
        if contains_assoc_id(assocs, t.associated_types[k].id) {
            assert(assoc_item_ids(*li).contains(t.associated_types@[k as int].id));
            return true;
        }
        k = k + 1;
    }
    false
}

/// The definitions that the registry of `products` reaches.
#[verifier::loop_isolation(false)]
pub fn product_language_item_ids(products: &CompilerProducts) -> (r: Vec<ProductDefId>)
    ensures
        forall|id: ProductDefId| #[trigger] r@.contains(id) <==> is_lang_id(products.interface, products.interface.language_items, id),
{
    let f = &products.interface;
    let li = &f.language_items;
    let (_roles, mut ids) = item_roles(li);
    let members = member_vec(li);
    let assocs = assoc_vec(li);
    let mut variants: Vec<VariantId> = Vec::new();
    if let Some(x) = &li.try_protocol {
        variants.push(x.break_variant_id);
        variants.push(x.continue_variant_id);
    }
    assert(variants@ =~= variant_item_ids(*li));
    let ghost base = ids@;
    let mut i: usize = 0;
    while i < f.traits.len()
        invariant
            i <= f.traits@.len(),
            base == item_ids(*li),
            forall|id: ProductDefId| #[trigger] ids@.contains(id) <==> (base.contains(id)
                || exists|q: int| 0 <= q < i && (#[trigger] f.traits@[q]).0 == id && trait_reached(f.traits@[q].1, *li)),
        decreases f.traits@.len() - i,
    {
        let e = f.traits.entry(i);
        let ghost before = ids@;
        if trait_is_reached(&e.1, &members, &assocs, li) {
            ids.push(e.0);
        }
        proof {
            assert forall|id: ProductDefId| #[trigger] ids@.contains(id) <==> (base.contains(id)
                || exists|q: int| 0 <= q < i + 1 && (#[trigger] f.traits@[q]).0 == id && trait_reached(f.traits@[q].1, *li)) by {
                if ids@.contains(id) && !before.contains(id) {
                    assert(id == e.0);
                    assert(f.traits@[i as int].0 == id);
                }
                if before.contains(id) {
                    let q = choose|q: int| 0 <= q < before.len() && before[q] == id;
                    assert(ids@[q] == id);
                }
                if exists|q: int| 0 <= q < i + 1 && (#[trigger] f.traits@[q]).0 == id && trait_reached(f.traits@[q].1, *li) {
                    let q = choose|q: int| 0 <= q < i + 1 && (#[trigger] f.traits@[q]).0 == id && trait_reached(f.traits@[q].1, *li);
                    if q == i {
                        assert(ids@[ids@.len() - 1] == id);
                    }
                }
            }
        }
        i = i + 1;
    }
    let ghost mid = ids@;
    let mut i: usize = 0;
    while i < f.enums.len()
        invariant
            i <= f.enums@.len(),
            forall|id: ProductDefId| #[trigger] ids@.contains(id) <==> (mid.contains(id)
                || exists|q: int| 0 <= q < i && (#[trigger] f.enums@[q]).0 == id && enum_reached(f.enums@[q].1, *li)),
        decreases f.enums@.len() - i,
    {
        let e = f.enums.entry(i);
        let mut reached = false;
        let mut k: usize = 0;
        while k < e.1.variants.len()
            invariant
                k <= e.1.variants@.len(),
                reached <==> exists|j: int| 0 <= j < k && variant_item_ids(*li).contains((#[trigger] e.1.variants@[j]).id),
            decreases e.1.variants.len() - k,
        {
            if contains_variant_id(&variants, e.1.variants[k].id) {
                reached = true;
            }
            k = k + 1;
        }
        let ghost before = ids@;
        if reached {
            ids.push(e.0);
        }
        proof {
            assert forall|id: ProductDefId| #[trigger] ids@.contains(id) <==> (mid.contains(id)
                || exists|q: int| 0 <= q < i + 1 && (#[trigger] f.enums@[q]).0 == id && enum_reached(f.enums@[q].1, *li)) by {
                if ids@.contains(id) && !before.contains(id) {
                    assert(id == e.0);
                    assert(f.enums@[i as int].0 == id);
                }
                if before.contains(id) {
                    let q = choose|q: int| 0 <= q < before.len() && before[q] == id;
                    assert(ids@[q] == id);
                }
                if exists|q: int| 0 <= q < i + 1 && (#[trigger] f.enums@[q]).0 == id && enum_reached(f.enums@[q].1, *li) {
                    let q = choose|q: int| 0 <= q < i + 1 && (#[trigger] f.enums@[q]).0 == id && enum_reached(f.enums@[q].1, *li);
                    if q == i {
                        assert(ids@[ids@.len() - 1] == id);
                    }
                }
            }
        }
        i = i + 1;
    }
    ids
}


/// The text of a product identity in diagnostics.
pub open spec fn product_debug(id: ProductDefId) -> Seq<char> {
    "ProductDefId { crate_id: ProductCrateId("@ + decimal(id.crate_id.0 as nat) + "), local_id: ProductLocalDefId("@
        + decimal(id.local_id.0 as nat) + ") }"@
}

pub(crate) fn push_product_text(s: &mut String, id: ProductDefId)
    ensures
        final(s)@ == old(s)@ + product_debug(id),
{
    push_str(s, "ProductDefId { crate_id: ProductCrateId(");
    push_decimal(s, id.crate_id.0 as u64);
    push_str(s, "), local_id: ProductLocalDefId(");
    push_decimal(s, id.local_id.0 as u64);
    push_str(s, ") }");
    proof {
        assert(s@ =~= old(s)@ + product_debug(id));
    }
}

/// Checks that a language-item interface row embeds the identity it is
/// keyed by.
pub fn validate_embedded_id(row_kind: &str, row_id: ProductDefId, embedded_id: DefId) -> (r: Result<(), String>)
    ensures
        outcome_is(r, if spec_product_of(embedded_id) != row_id {
            Err("Product artifact language-item interface "@ + row_kind@ + " row "@ + product_debug(row_id) + " has embedded "@
                + product_debug(spec_product_of(embedded_id)))
        } else {
            Ok(())
        }),
{
    let embedded = ProductDefId::from_def_id(embedded_id);
    if embedded != row_id {
        let mut s = text("Product artifact language-item interface ");
        push_str(&mut s, row_kind);
        push_str(&mut s, " row ");
        push_product_text(&mut s, row_id);
        push_str(&mut s, " has embedded ");
        push_product_text(&mut s, embedded);
        proof {
            assert(s@ =~= "Product artifact language-item interface "@ + row_kind@ + " row "@ + product_debug(row_id) + " has embedded "@
                + product_debug(spec_product_of(embedded_id)));
        }
        return Err(s);
    }
    Ok(())
}

/// An interface row that carries the identity it is stored under.
pub trait EmbedsId {
    spec fn spec_embedded(&self) -> DefId;

    fn embedded(&self) -> (r: DefId)
        ensures
            r == self.spec_embedded(),
    ;
}

impl EmbedsId for crate::products::FunctionInterface {
    open spec fn spec_embedded(&self) -> DefId {
        self.id
    }

    fn embedded(&self) -> (r: DefId) {
        self.id
    }
}

impl EmbedsId for crate::products::StructInterface {
    open spec fn spec_embedded(&self) -> DefId {
        self.id
    }

    fn embedded(&self) -> (r: DefId) {
        self.id
    }
}

impl EmbedsId for crate::products::EnumInterface {
    open spec fn spec_embedded(&self) -> DefId {
        self.id
    }

    fn embedded(&self) -> (r: DefId) {
        self.id
    }
}

impl EmbedsId for crate::products::TraitInterface {
    open spec fn spec_embedded(&self) -> DefId {
        self.id
    }

    fn embedded(&self) -> (r: DefId) {
        self.id
    }
}

impl EmbedsId for ImplInterface {
    open spec fn spec_embedded(&self) -> DefId {
        self.id
    }

    fn embedded(&self) -> (r: DefId) {
        self.id
    }
}

impl EmbedsId for crate::products::ExternInterface {
    open spec fn spec_embedded(&self) -> DefId {
        self.id
    }

    fn embedded(&self) -> (r: DefId) {
        self.id
    }
}

/// Every row of the table that the registry reaches embeds its key.
pub open spec fn reached_rows_ok<V: EmbedsId>(s: Seq<(ProductDefId, V)>, f: ProductInterface) -> bool {
    forall|i: int| 0 <= i < s.len() && is_lang_id(f, f.language_items, (#[trigger] s[i]).0)
        ==> spec_product_of(s[i].1.spec_embedded()) == s[i].0
}

/// The interface rows that the registry reaches embed their keys.
pub open spec fn lang_rows_ok(f: ProductInterface) -> bool {
    &&& reached_rows_ok(f.functions@, f)
    &&& reached_rows_ok(f.structs@, f)
    &&& reached_rows_ok(f.enums@, f)
    &&& reached_rows_ok(f.traits@, f)
    &&& reached_rows_ok(f.impls@, f)
    &&& reached_rows_ok(f.externs@, f)
}

/// A registry that names anything belongs to a crate with a local product
/// crate, names only local definitions, pairs IndexMut with Index impls,
/// and reaches only rows that embed their keys.
pub open spec fn language_items_ok(p: CompilerProducts) -> bool {
    let li = p.interface.language_items;
    li.is_empty() || (p.identity_table.local_crate matches Some(lc) && {
        &&& forall|k: int| 0 <= k < item_ids(li).len() ==> (#[trigger] item_ids(li)[k]).crate_id == lc
        &&& index_mut_impls_ok(p.interface, li)
        &&& lang_rows_ok(p.interface)
        &&& crate::shapes::bundles_outcome(p.interface) is Ok
    })
}

fn is_empty_registry(li: &LanguageItems<ProductDefId>) -> (r: bool)
    ensures
        r == li.is_empty(),
{
    li.sized.is_none() && li.drop.is_none() && li.index.is_none() && li.index_mut.is_none() && li.fn_once.is_none()
        && li.fn_mut.is_none() && li.fn_trait.is_none() && li.send.is_none() && li.sync.is_none() && li.try_protocol.is_none()
}

/// The check of an interface row that the registry may reach: a reached
/// row must embed its key.
pub open spec fn lang_row_check(f: ProductInterface, kind: Seq<char>, key: ProductDefId, embedded: DefId) -> Result<(), Seq<char>> {
    if is_lang_id(f, f.language_items, key) && spec_product_of(embedded) != key {
        Err("Product artifact language-item interface "@ + kind + " row "@ + product_debug(key) + " has embedded "@
            + product_debug(spec_product_of(embedded)))
    } else {
        Ok(())
    }
}

/// The row check for the rows of one table, named `kind` in messages.
pub open spec fn row_checks<V: EmbedsId>(f: ProductInterface, kind: Seq<char>) -> spec_fn((ProductDefId, V)) -> Result<(), Seq<char>> {
    |e: (ProductDefId, V)| lang_row_check(f, kind, e.0, e.1.spec_embedded())
}

/// The first reached row, table by table, that does not embed its key.
pub open spec fn lang_rows_outcome(f: ProductInterface) -> Result<(), Seq<char>> {
    crate::validator::and_then(first_error(f.functions@, row_checks(f, "function"@)),
    crate::validator::and_then(first_error(f.structs@, row_checks(f, "struct"@)),
    crate::validator::and_then(first_error(f.enums@, row_checks(f, "enum"@)),
    crate::validator::and_then(first_error(f.traits@, row_checks(f, "trait"@)),
    crate::validator::and_then(first_error(f.impls@, row_checks(f, "impl"@)),
        first_error(f.externs@, row_checks(f, "extern"@)))))))
}

/// Checks the rows of one table that the registry reaches; `ids` are the
/// identities it reaches.
fn check_reached_rows<V: EmbedsId>(rows: &IdMap<V>, f: &ProductInterface, ids: &Vec<ProductDefId>, kind: &str) -> (r: Result<(), String>)
    requires
        forall|id: ProductDefId| #[trigger] ids@.contains(id) <==> is_lang_id(*f, f.language_items, id),
    ensures
        r is Ok <==> reached_rows_ok(rows@, *f),
        outcome_is(r, first_error(rows@, row_checks(*f, kind@))),
{
    let ghost c = row_checks::<V>(*f, kind@);
    let mut i: usize = 0;
    while i < rows.len()
        invariant
            i <= rows@.len(),
            c == row_checks::<V>(*f, kind@),
            forall|id: ProductDefId| #[trigger] ids@.contains(id) <==> is_lang_id(*f, f.language_items, id),
            first_error(rows@.take(i as int), c) is Ok,
            forall|j: int| 0 <= j < i && is_lang_id(*f, f.language_items, (#[trigger] rows@[j]).0)
                ==> spec_product_of(rows@[j].1.spec_embedded()) == rows@[j].0,
        decreases rows@.len() - i,
    {
        let e = rows.entry(i);
        if crate::collections::contains_id(ids, e.0) {
            let checked = validate_embedded_id(kind, e.0, e.1.embedded());
            if checked.is_err() {
                proof {
                    lemma_first_error_at(rows@, c, i as int);
                }
                return checked;
            }
        }
        proof {
            lemma_first_error_step(rows@, c, i as int);
        }
        i = i + 1;
    }
    proof {
        assert(rows@.take(i as int) =~= rows@);
    }
    Ok(())
}

fn check_lang_rows(products: &CompilerProducts) -> (r: Result<(), String>)
    ensures
        r is Ok <==> lang_rows_ok(products.interface),
        outcome_is(r, lang_rows_outcome(products.interface)),
{
    let f = &products.interface;
    let ids = product_language_item_ids(products);
    check_reached_rows(&f.functions, f, &ids, "function")?;
    check_reached_rows(&f.structs, f, &ids, "struct")?;
    check_reached_rows(&f.enums, f, &ids, "enum")?;
    check_reached_rows(&f.traits, f, &ids, "trait")?;
    check_reached_rows(&f.impls, f, &ids, "impl")?;
    check_reached_rows(&f.externs, f, &ids, "extern")
}

/// What the registry check reports for `p`, stage by stage: nothing for an
/// empty registry; a missing local crate; the first entry of another crate;
/// the first IndexMut impl that does not pair with one Index impl; the
/// first reached row that does not embed its key; the first bundle without
/// its shape.
pub open spec fn registry_outcome(p: CompilerProducts) -> Result<(), Seq<char>> {
    let li = p.interface.language_items;
    if li.is_empty() {
        Ok(())
    } else {
        match p.identity_table.local_crate {
            None => Err(crate::remap::msg_no_local_crate(p.crate_identity.name@)),
            Some(lc) => crate::validator::and_then(local_ids_outcome(li, lc),
                crate::validator::and_then(index_mut_outcome(p.interface, li),
                crate::validator::and_then(lang_rows_outcome(p.interface), crate::shapes::bundles_outcome(p.interface)))),
        }
    }
}

/// Checks an artifact's language-item registry: it names only local
/// definitions, pairs each IndexMut impl with one Index impl, the rows it
/// reaches embed their keys, and each bundle has its shape: the kinds of
/// definitions its entries name, who declares its members, and the
/// signatures of its methods.
pub fn validate_product_language_items(products: &CompilerProducts) -> (r: Result<(), String>)
    ensures
        r is Ok <==> language_items_ok(*products),
        !products.interface.language_items.is_empty() && products.identity_table.local_crate is None
            ==> (r matches Err(e) && e@ == crate::remap::msg_no_local_crate(products.crate_identity.name@)),
        outcome_is(r, registry_outcome(*products)),
{
    let li = &products.interface.language_items;
    if is_empty_registry(li) {
        return Ok(());
    }
    let lc = match products.identity_table.local_crate {
        Some(c) => c,
        None => return Err(crate::remap::no_local_crate_message(&products.crate_identity.name)),
    };
    validate_product_local_ids(li, lc)?;
    validate_product_index_mut_impls(products, li)?;
    check_lang_rows(products)?;
    crate::shapes::check_bundles(&products.interface)?;
    Ok(())
}


/// `d` is the session identity of the product identity `p`.
pub open spec fn maps_to(m: ProductIdentityRemap, p: ProductDefId, d: DefId) -> bool {
    m.spec_def_id(p) == Some(d)
}

/// `li2` is the registry `li` with every definition it names replaced by
/// its session identity, and every other field kept.
pub open spec fn registry_map(m: ProductIdentityRemap, li: LanguageItems<ProductDefId>, li2: LanguageItems<DefId>) -> bool {
    &&& match li.sized { None => li2.sized is None, Some(x) => li2.sized matches Some(y) && maps_to(m, x.trait_id, y.trait_id) }
    &&& match li.drop {
        None => li2.drop is None,
        Some(x) => li2.drop matches Some(y) && maps_to(m, x.trait_id, y.trait_id) && maps_to(m, x.method_id, y.method_id),
    }
    &&& output_map(m, li.index, li2.index)
    &&& output_map(m, li.index_mut, li2.index_mut)
    &&& output_map(m, li.fn_once, li2.fn_once)
    &&& output_map(m, li.fn_mut, li2.fn_mut)
    &&& output_map(m, li.fn_trait, li2.fn_trait)
    &&& match li.send { None => li2.send is None, Some(x) => li2.send matches Some(y) && maps_to(m, x.trait_id, y.trait_id) }
    &&& match li.sync { None => li2.sync is None, Some(x) => li2.sync matches Some(y) && maps_to(m, x.trait_id, y.trait_id) }
    &&& match li.try_protocol {
        None => li2.try_protocol is None,
        Some(x) => li2.try_protocol matches Some(y) && {
            &&& maps_to(m, x.try_trait_id, y.try_trait_id)
            &&& y.output_id == x.output_id
            &&& y.residual_id == x.residual_id
            &&& maps_to(m, x.branch_method_id, y.branch_method_id)
            &&& maps_to(m, x.from_residual_trait_id, y.from_residual_trait_id)
            &&& maps_to(m, x.from_residual_method_id, y.from_residual_method_id)
            &&& maps_to(m, x.control_flow_enum_id, y.control_flow_enum_id)
            &&& y.break_variant_id == x.break_variant_id
            &&& y.continue_variant_id == x.continue_variant_id
        },
    }
}

/// A trait-with-output item mapped.
pub open spec fn output_map(m: ProductIdentityRemap, o: Option<OutputItems<ProductDefId>>, o2: Option<OutputItems<DefId>>) -> bool {
    match o {
        None => o2 is None,
        Some(x) => o2 matches Some(y) && maps_to(m, x.trait_id, y.trait_id) && y.output_id == x.output_id
            && maps_to(m, x.method_id, y.method_id),
    }
}

/// Every definition of `s` has a session identity.
pub open spec fn all_mapped(m: ProductIdentityRemap, s: Seq<ProductDefId>) -> bool {
    forall|k: int| 0 <= k < s.len() ==> m.spec_def_id(#[trigger] s[k]) is Some
}

fn check_all_mapped(ids: &Vec<ProductDefId>, m: &ProductIdentityRemap) -> (r: Result<(), String>)
    ensures
        r is Ok <==> all_mapped(*m, ids@),
        r matches Err(e) ==> exists|k: int|
            0 <= k < ids@.len() && m.spec_def_id(#[trigger] ids@[k]) is None && e@ == msg_unmapped(ids@[k])
                && all_mapped(*m, ids@.take(k)),
{
    let mut i: usize = 0;
    while i < ids.len()
        invariant
            i <= ids@.len(),
            all_mapped(*m, ids@.take(i as int)),
        decreases ids@.len() - i,
    {
        let id = ids[i];
        match m.def_id(id) {
            Ok(_) => {},
            Err(e) => {
                assert(m.spec_def_id(ids@[i as int]) is None);
                return Err(e);
            },
        }
        assert(ids@.take(i as int + 1) =~= ids@.take(i as int).push(id));
        i = i + 1;
    }
    assert(ids@.take(i as int) =~= ids@);
    Ok(())
}

fn map_trait_item(o: &Option<TraitItem<ProductDefId>>, m: &ProductIdentityRemap) -> (r: Result<Option<TraitItem<DefId>>, String>)
    requires
        all_mapped(*m, trait_item_ids(*o)),
    ensures
        r matches Ok(o2) && match *o { None => o2 is None, Some(x) => o2 matches Some(y) && maps_to(*m, x.trait_id, y.trait_id) },
{
    match o {
        None => Ok(None),
        Some(x) => {
            assert(trait_item_ids(*o)[0] == x.trait_id);
            Ok(Some(TraitItem { trait_id: m.def_id(x.trait_id)? }))
        },
    }
}

fn map_output_item(o: &Option<OutputItems<ProductDefId>>, m: &ProductIdentityRemap) -> (r: Result<Option<OutputItems<DefId>>, String>)
    requires
        all_mapped(*m, output_item_ids(*o)),
    ensures
        r matches Ok(o2) && output_map(*m, *o, o2),
{
    match o {
        None => Ok(None),
        Some(x) => {
            assert(output_item_ids(*o)[0] == x.trait_id && output_item_ids(*o)[1] == x.method_id);
            let t = m.def_id(x.trait_id)?;
            let method = m.def_id(x.method_id)?;
            Ok(Some(OutputItems { trait_id: t, output_id: x.output_id, method_id: method }))
        },
    }
}

fn map_drop_item(o: &Option<TraitMethodItems<ProductDefId>>, m: &ProductIdentityRemap) -> (r: Result<Option<TraitMethodItems<DefId>>, String>)
    requires
        all_mapped(*m, method_item_ids(*o)),
    ensures
        r matches Ok(o2) && match *o {
            None => o2 is None,
            Some(x) => o2 matches Some(y) && maps_to(*m, x.trait_id, y.trait_id) && maps_to(*m, x.method_id, y.method_id),
        },
{
    match o {
        None => Ok(None),
        Some(x) => {
            assert(method_item_ids(*o)[0] == x.trait_id && method_item_ids(*o)[1] == x.method_id);
            let t = m.def_id(x.trait_id)?;
            let method = m.def_id(x.method_id)?;
            Ok(Some(TraitMethodItems { trait_id: t, method_id: method }))
        },
    }
}

fn map_try_item(o: &Option<TryItems<ProductDefId>>, m: &ProductIdentityRemap) -> (r: Result<Option<TryItems<DefId>>, String>)
    requires
        all_mapped(*m, try_item_ids(*o)),
    ensures
        r matches Ok(o2) && match *o {
            None => o2 is None,
            Some(x) => o2 matches Some(y) && {
                &&& maps_to(*m, x.try_trait_id, y.try_trait_id)
                &&& y.output_id == x.output_id
                &&& y.residual_id == x.residual_id
                &&& maps_to(*m, x.branch_method_id, y.branch_method_id)
                &&& maps_to(*m, x.from_residual_trait_id, y.from_residual_trait_id)
                &&& maps_to(*m, x.from_residual_method_id, y.from_residual_method_id)
                &&& maps_to(*m, x.control_flow_enum_id, y.control_flow_enum_id)
                &&& y.break_variant_id == x.break_variant_id
                &&& y.continue_variant_id == x.continue_variant_id
            },
        },
{
    match o {
        None => Ok(None),
        Some(x) => {
            let ghost s = try_item_ids(*o);
            assert(s[0] == x.try_trait_id && s[1] == x.branch_method_id && s[2] == x.from_residual_trait_id
                && s[3] == x.from_residual_method_id && s[4] == x.control_flow_enum_id);
            Ok(Some(TryItems {
                try_trait_id: m.def_id(x.try_trait_id)?,
                output_id: x.output_id,
                residual_id: x.residual_id,
                branch_method_id: m.def_id(x.branch_method_id)?,
                from_residual_trait_id: m.def_id(x.from_residual_trait_id)?,
                from_residual_method_id: m.def_id(x.from_residual_method_id)?,
                control_flow_enum_id: m.def_id(x.control_flow_enum_id)?,
                break_variant_id: x.break_variant_id,
                continue_variant_id: x.continue_variant_id,
            }))
        },
    }
}

proof fn lemma_all_mapped_split(m: ProductIdentityRemap, a: Seq<ProductDefId>, b: Seq<ProductDefId>)
    requires
        all_mapped(m, a + b),
    ensures
        all_mapped(m, a),
        all_mapped(m, b),
{
    assert forall|k: int| 0 <= k < a.len() implies m.spec_def_id(#[trigger] a[k]) is Some by {
        assert((a + b)[k] == a[k]);
    }
    assert forall|k: int| 0 <= k < b.len() implies m.spec_def_id(#[trigger] b[k]) is Some by {
        assert((a + b)[a.len() + k] == b[k]);
    }
}

/// The artifact's registry under session identities, once it is valid:
/// every definition it names is replaced by its session identity; the first
/// one whose crate is not mapped is reported.
pub fn language_items_from_products(products: &CompilerProducts, remap: &ProductIdentityRemap) -> (r: Result<LanguageItems<DefId>, String>)
    ensures
        r is Ok <==> language_items_ok(*products) && all_mapped(*remap, item_ids(products.interface.language_items)),
        r matches Ok(li2) ==> registry_map(*remap, products.interface.language_items, li2),
        !language_items_ok(*products) ==> (r matches Err(e) && registry_outcome(*products) == Err::<(), Seq<char>>(e@)),
        r matches Err(e) ==> language_items_ok(*products) ==> exists|k: int|
            0 <= k < item_ids(products.interface.language_items).len()
            && remap.spec_def_id(#[trigger] item_ids(products.interface.language_items)[k]) is None
            && e@ == msg_unmapped(item_ids(products.interface.language_items)[k])
            && all_mapped(*remap, item_ids(products.interface.language_items).take(k)),
{
    validate_product_language_items(products)?;
    let li = &products.interface.language_items;
    let (_roles, ids) = item_roles(li);
    check_all_mapped(&ids, remap)?;
    proof {
        let s0 = trait_item_ids(li.sized);
        let s1 = s0 + method_item_ids(li.drop);
        let s2 = s1 + output_item_ids(li.index);
        let s3 = s2 + output_item_ids(li.index_mut);
        let s4 = s3 + output_item_ids(li.fn_once);
        let s5 = s4 + output_item_ids(li.fn_mut);
        let s6 = s5 + output_item_ids(li.fn_trait);
        let s7 = s6 + trait_item_ids(li.send);
        let s8 = s7 + trait_item_ids(li.sync);
        lemma_all_mapped_split(*remap, s8, try_item_ids(li.try_protocol));
        lemma_all_mapped_split(*remap, s7, trait_item_ids(li.sync));
        lemma_all_mapped_split(*remap, s6, trait_item_ids(li.send));
        lemma_all_mapped_split(*remap, s5, output_item_ids(li.fn_trait));
        lemma_all_mapped_split(*remap, s4, output_item_ids(li.fn_mut));
        lemma_all_mapped_split(*remap, s3, output_item_ids(li.fn_once));
        lemma_all_mapped_split(*remap, s2, output_item_ids(li.index_mut));
        lemma_all_mapped_split(*remap, s1, output_item_ids(li.index));
        lemma_all_mapped_split(*remap, s0, method_item_ids(li.drop));
    }
    Ok(LanguageItems {
        sized: map_trait_item(&li.sized, remap)?,
        drop: map_drop_item(&li.drop, remap)?,
        index: map_output_item(&li.index, remap)?,
        index_mut: map_output_item(&li.index_mut, remap)?,
        fn_once: map_output_item(&li.fn_once, remap)?,
        fn_mut: map_output_item(&li.fn_mut, remap)?,
        fn_trait: map_output_item(&li.fn_trait, remap)?,
        send: map_trait_item(&li.send, remap)?,
        sync: map_trait_item(&li.sync, remap)?,
        try_protocol: map_try_item(&li.try_protocol, remap)?,
    })
}

} // verus!
