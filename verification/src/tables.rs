use vstd::prelude::*;

use crate::collections::{has_key, IdMap};
use crate::ids::{spec_product_of, AssocTypeId, ProductDefId};
use crate::products::{
    AssociatedTypeDecl, CompilerProducts, FunctionInterface, FunctionSig, ImplInterface,
    ProductInterface, TraitInterface,
};
use crate::remap::ProductIdentityRemap;
use crate::types::{copy_types, tys_eq, ReceiverMode, Type};
use crate::validator::{DefinitionTables, ProductNominalTypeValidator};

verus! {

/// The keys of a table, in table order.
pub open spec fn keys_of<V>(s: Seq<(ProductDefId, V)>) -> Seq<ProductDefId> {
    Seq::new(s.len(), |i: int| s[i].0)
}

/// The identities of a trait's associated types, in declaration order.
pub open spec fn assoc_ids(t: TraitInterface) -> Seq<AssocTypeId> {
    Seq::new(t.associated_types@.len(), |i: int| t.associated_types@[i].id)
}

/// A name table by text.
pub open spec fn named_view(s: Seq<(String, ProductDefId)>) -> Seq<(Seq<char>, ProductDefId)> {
    Seq::new(s.len(), |i: int| (s[i].0@, s[i].1))
}

/// The methods of a trait or impl as a name table of product identities.
pub open spec fn method_names(s: Seq<(String, FunctionInterface)>) -> Seq<(Seq<char>, ProductDefId)> {
    Seq::new(s.len(), |i: int| (s[i].0@, spec_product_of(s[i].1.id)))
}

/// The required signatures of a trait as a name table of product identities.
pub open spec fn signature_names(s: Seq<(String, FunctionSig)>) -> Seq<(Seq<char>, ProductDefId)> {
    Seq::new(s.len(), |i: int| (s[i].0@, spec_product_of(s[i].1.id)))
}

/// The product identities of an impl's methods, in declaration order.
pub open spec fn impl_method_ids(m: ImplInterface) -> Seq<ProductDefId> {
    Seq::new(m.methods@.len(), |i: int| spec_product_of(m.methods@[i].1.id))
}

/// Each method and signature of a trait with its receiver mode, methods
/// first, each group in declaration order.
pub open spec fn member_entries(t: TraitInterface) -> Seq<(ProductDefId, Option<ReceiverMode>)> {
    Seq::new(t.methods@.len(), |k: int| (spec_product_of(t.methods@[k].1.id), t.methods@[k].1.self_receiver))
        + Seq::new(t.signatures@.len(), |k: int| (spec_product_of(t.signatures@[k].1.id), t.signatures@[k].1.self_receiver))
}

/// The members of all traits in table order.
pub open spec fn trait_entries(ts: Seq<(ProductDefId, TraitInterface)>) -> Seq<(ProductDefId, Option<ReceiverMode>)>
    decreases ts.len(),
{
    if ts.len() == 0 {
        Seq::empty()
    } else {
        trait_entries(ts.drop_last()) + member_entries(ts.last().1)
    }
}

/// Each method of an impl with its receiver mode, in declaration order.
pub open spec fn impl_member_entries(m: ImplInterface) -> Seq<(ProductDefId, Option<ReceiverMode>)> {
    Seq::new(m.methods@.len(), |k: int| (spec_product_of(m.methods@[k].1.id), m.methods@[k].1.self_receiver))
}

/// The methods of all impls in table order.
pub open spec fn impl_entries(ms: Seq<(ProductDefId, ImplInterface)>) -> Seq<(ProductDefId, Option<ReceiverMode>)>
    decreases ms.len(),
{
    if ms.len() == 0 {
        Seq::empty()
    } else {
        impl_entries(ms.drop_last()) + impl_member_entries(ms.last().1)
    }
}

/// The methods of an impl that take no receiver, in declaration order.
pub open spec fn impl_static_ids(m: ImplInterface) -> Seq<ProductDefId>
    decreases m.methods@.len(),
{
    static_ids_of(m.methods@)
}

/// The identities of the methods without receiver in a method list.
pub open spec fn static_ids_of(s: Seq<(String, FunctionInterface)>) -> Seq<ProductDefId>
    decreases s.len(),
{
    if s.len() == 0 {
        Seq::empty()
    } else if !s.last().1.is_method {
        static_ids_of(s.drop_last()).push(spec_product_of(s.last().1.id))
    } else {
        static_ids_of(s.drop_last())
    }
}

/// The methods without receiver of all impls in table order.
pub open spec fn static_entries(ms: Seq<(ProductDefId, ImplInterface)>) -> Seq<ProductDefId>
    decreases ms.len(),
{
    if ms.len() == 0 {
        Seq::empty()
    } else {
        static_entries(ms.drop_last()) + impl_static_ids(ms.last().1)
    }
}

/// Every declared method with its receiver mode, trait members first.
pub open spec fn method_entries(f: ProductInterface) -> Seq<(ProductDefId, Option<ReceiverMode>)> {
    trait_entries(f.traits@) + impl_entries(f.impls@)
}

/// `t` records no definition at all.
pub open spec fn no_definitions(t: DefinitionTables) -> bool {
    &&& t.structs@.len() == 0
    &&& t.enums@.len() == 0
    &&& t.type_aliases@.len() == 0
    &&& t.traits@.len() == 0
    &&& t.trait_generic_counts@.len() == 0
    &&& t.trait_methods@.len() == 0
    &&& t.trait_signatures@.len() == 0
    &&& t.impls@.len() == 0
    &&& t.impl_traits@.len() == 0
    &&& t.impl_trait_args@.len() == 0
    &&& t.impl_methods@.len() == 0
    &&& t.effective_trait_methods@.len() == 0
    &&& t.methods@.len() == 0
    &&& t.static_methods@.len() == 0
    &&& t.method_receiver_modes@.len() == 0
    &&& t.functions@.len() == 0
    &&& t.externs@.len() == 0
}

/// `t` holds what an artifact's interface `f` declares.
pub open spec fn tables_of(f: ProductInterface, t: DefinitionTables) -> bool {
    &&& t.structs@ == keys_of(f.structs@)
    &&& t.enums@ == keys_of(f.enums@)
    &&& t.type_aliases@ == keys_of(f.type_aliases@)
    &&& t.functions@ == keys_of(f.functions@)
    &&& t.externs@ == keys_of(f.externs@)
    &&& t.impls@ == keys_of(f.impls@)
    &&& t.traits@.len() == f.traits@.len()
    &&& forall|i: int| 0 <= i < f.traits@.len() ==> (#[trigger] t.traits@[i]).0 == f.traits@[i].0
        && t.traits@[i].1@ == assoc_ids(f.traits@[i].1)
    &&& t.trait_generic_counts@ == Seq::new(f.traits@.len(), |i: int| (f.traits@[i].0, f.traits@[i].1.generic_params@.len() as usize))
    &&& t.trait_methods@.len() == f.traits@.len()
    &&& forall|i: int| 0 <= i < f.traits@.len() ==> (#[trigger] t.trait_methods@[i]).0 == f.traits@[i].0
        && named_view(t.trait_methods@[i].1@) == method_names(f.traits@[i].1.methods@)
    &&& t.trait_signatures@.len() == f.traits@.len()
    &&& forall|i: int| 0 <= i < f.traits@.len() ==> (#[trigger] t.trait_signatures@[i]).0 == f.traits@[i].0
        && named_view(t.trait_signatures@[i].1@) == signature_names(f.traits@[i].1.signatures@)
    &&& t.impl_traits@ == Seq::new(f.impls@.len(), |i: int| (f.impls@[i].0, match f.impls@[i].1.trait_id {
        Some(d) => Some(spec_product_of(d)),
        None => None,
    }))
    &&& t.impl_trait_args@.len() == f.impls@.len()
    &&& forall|i: int| 0 <= i < f.impls@.len() ==> (#[trigger] t.impl_trait_args@[i]).0 == f.impls@[i].0
        && tys_eq(t.impl_trait_args@[i].1@, f.impls@[i].1.trait_arg_types@)
    &&& t.impl_methods@.len() == f.impls@.len()
    &&& forall|i: int| 0 <= i < f.impls@.len() ==> (#[trigger] t.impl_methods@[i]).0 == f.impls@[i].0
        && t.impl_methods@[i].1@ == impl_method_ids(f.impls@[i].1)
    &&& t.effective_trait_methods@ == f.effective_trait_methods@
    &&& t.methods@ == method_entries(f).map_values(|e: (ProductDefId, Option<ReceiverMode>)| e.0)
    &&& t.static_methods@ == static_entries(f.impls@)
    &&& t.method_receiver_modes@ == method_entries(f).reverse()
}

fn keys_vec<V>(m: &IdMap<V>) -> (r: Vec<ProductDefId>)
    ensures
        r@ == keys_of(m@),
{
    let mut out: Vec<ProductDefId> = Vec::new();
    let mut i: usize = 0;
    while i < m.len()
        invariant
            i <= m@.len(),
            out@ == keys_of(m@).take(i as int),
        decreases m@.len() - i,
    {
        out.push(m.entry(i).0);
        i = i + 1;
        proof {
            assert(out@ =~= keys_of(m@).take(i as int));
        }
    }
    assert(keys_of(m@).take(i as int) =~= keys_of(m@));
    out
}

pub(crate) fn assoc_id_vec(t: &TraitInterface) -> (r: Vec<AssocTypeId>)
    ensures
        r@ == assoc_ids(*t),
{
    let mut out: Vec<AssocTypeId> = Vec::new();
    let mut i: usize = 0;
    while i < t.associated_types.len()
        invariant
            i <= t.associated_types@.len(),
            out@ == assoc_ids(*t).take(i as int),
        decreases t.associated_types@.len() - i,
    {
        out.push(t.associated_types[i].id);
        i = i + 1;
        proof {
            assert(out@ =~= assoc_ids(*t).take(i as int));
        }
    }
    assert(assoc_ids(*t).take(i as int) =~= assoc_ids(*t));
    out
}

fn method_name_vec(s: &Vec<(String, FunctionInterface)>) -> (r: Vec<(String, ProductDefId)>)
    ensures
        named_view(r@) == method_names(s@),
{
    let mut out: Vec<(String, ProductDefId)> = Vec::new();
    let mut i: usize = 0;
    while i < s.len()
        invariant
            i <= s@.len(),
            out@.len() == i,
            named_view(out@) == method_names(s@).take(i as int),
        decreases s@.len() - i,
    {
        let ghost prev = out@;
        out.push((s[i].0.clone(), ProductDefId::from_def_id(s[i].1.id)));
        i = i + 1;
        proof {
            assert forall|j: int| 0 <= j < i implies #[trigger] named_view(out@)[j] == method_names(s@).take(i as int)[j] by {
                if j < i - 1 {
                    assert(out@[j] == prev[j]);
                    assert(named_view(prev)[j] == method_names(s@).take(i - 1)[j]);
                }
            }
            assert(named_view(out@) =~= method_names(s@).take(i as int));
        }
    }
    assert(method_names(s@).take(i as int) =~= method_names(s@));
    out
}

fn signature_name_vec(s: &Vec<(String, FunctionSig)>) -> (r: Vec<(String, ProductDefId)>)
    ensures
        named_view(r@) == signature_names(s@),
{
    let mut out: Vec<(String, ProductDefId)> = Vec::new();
    let mut i: usize = 0;
    while i < s.len()
        invariant
            i <= s@.len(),
            out@.len() == i,
            named_view(out@) == signature_names(s@).take(i as int),
        decreases s@.len() - i,
    {
        let ghost prev = out@;
        out.push((s[i].0.clone(), ProductDefId::from_def_id(s[i].1.id)));
        i = i + 1;
        proof {
            assert forall|j: int| 0 <= j < i implies #[trigger] named_view(out@)[j] == signature_names(s@).take(i as int)[j] by {
                if j < i - 1 {
                    assert(out@[j] == prev[j]);
                    assert(named_view(prev)[j] == signature_names(s@).take(i - 1)[j]);
                }
            }
            assert(named_view(out@) =~= signature_names(s@).take(i as int));
        }
    }
    assert(signature_names(s@).take(i as int) =~= signature_names(s@));
    out
}

fn impl_method_id_vec(m: &ImplInterface) -> (r: Vec<ProductDefId>)
    ensures
        r@ == impl_method_ids(*m),
{
    let mut out: Vec<ProductDefId> = Vec::new();
    let mut i: usize = 0;
    while i < m.methods.len()
        invariant
            i <= m.methods@.len(),
            out@ == impl_method_ids(*m).take(i as int),
        decreases m.methods@.len() - i,
    {
        out.push(ProductDefId::from_def_id(m.methods[i].1.id));
        i = i + 1;
        proof {
            assert(out@ =~= impl_method_ids(*m).take(i as int));
        }
    }
    assert(impl_method_ids(*m).take(i as int) =~= impl_method_ids(*m));
    out
}

/// Fills the trait tables of `t` from the traits of `f`.
fn trait_tables(f: &ProductInterface, t: &mut DefinitionTables)
    requires
        old(t).traits@.len() == 0,
        old(t).trait_generic_counts@.len() == 0,
        old(t).trait_methods@.len() == 0,
        old(t).trait_signatures@.len() == 0,
    ensures
        final(t).traits@.len() == f.traits@.len(),
        forall|i: int| 0 <= i < f.traits@.len() ==> (#[trigger] final(t).traits@[i]).0 == f.traits@[i].0
            && final(t).traits@[i].1@ == assoc_ids(f.traits@[i].1),
        final(t).trait_generic_counts@ == Seq::new(f.traits@.len(), |i: int| (f.traits@[i].0, f.traits@[i].1.generic_params@.len() as usize)),
        final(t).trait_methods@.len() == f.traits@.len(),
        forall|i: int| 0 <= i < f.traits@.len() ==> (#[trigger] final(t).trait_methods@[i]).0 == f.traits@[i].0
            && named_view(final(t).trait_methods@[i].1@) == method_names(f.traits@[i].1.methods@),
        final(t).trait_signatures@.len() == f.traits@.len(),
        forall|i: int| 0 <= i < f.traits@.len() ==> (#[trigger] final(t).trait_signatures@[i]).0 == f.traits@[i].0
            && named_view(final(t).trait_signatures@[i].1@) == signature_names(f.traits@[i].1.signatures@),
        final(t).structs == old(t).structs,
        final(t).enums == old(t).enums,
        final(t).type_aliases == old(t).type_aliases,
        final(t).functions == old(t).functions,
        final(t).externs == old(t).externs,
        final(t).impls == old(t).impls,
        final(t).impl_traits == old(t).impl_traits,
        final(t).impl_trait_args == old(t).impl_trait_args,
        final(t).impl_methods == old(t).impl_methods,
        final(t).effective_trait_methods == old(t).effective_trait_methods,
        final(t).methods == old(t).methods,
        final(t).static_methods == old(t).static_methods,
        final(t).method_receiver_modes == old(t).method_receiver_modes,
{
    let ghost counts = Seq::new(f.traits@.len(), |i: int| (f.traits@[i].0, f.traits@[i].1.generic_params@.len() as usize));
    let mut i: usize = 0;
    while i < f.traits.len()
        invariant
            i <= f.traits@.len(),
            t.traits@.len() == i,
            forall|j: int| 0 <= j < i ==> (#[trigger] t.traits@[j]).0 == f.traits@[j].0
                && t.traits@[j].1@ == assoc_ids(f.traits@[j].1),
            counts == Seq::new(f.traits@.len(), |i: int| (f.traits@[i].0, f.traits@[i].1.generic_params@.len() as usize)),
            t.trait_generic_counts@ == counts.take(i as int),
            t.trait_methods@.len() == i,
            forall|j: int| 0 <= j < i ==> (#[trigger] t.trait_methods@[j]).0 == f.traits@[j].0
                && named_view(t.trait_methods@[j].1@) == method_names(f.traits@[j].1.methods@),
            t.trait_signatures@.len() == i,
            forall|j: int| 0 <= j < i ==> (#[trigger] t.trait_signatures@[j]).0 == f.traits@[j].0
                && named_view(t.trait_signatures@[j].1@) == signature_names(f.traits@[j].1.signatures@),
            t.structs == old(t).structs,
            t.enums == old(t).enums,
            t.type_aliases == old(t).type_aliases,
            t.functions == old(t).functions,
            t.externs == old(t).externs,
            t.impls == old(t).impls,
            t.impl_traits == old(t).impl_traits,
            t.impl_trait_args == old(t).impl_trait_args,
            t.impl_methods == old(t).impl_methods,
            t.effective_trait_methods == old(t).effective_trait_methods,
            t.methods == old(t).methods,
            t.static_methods == old(t).static_methods,
            t.method_receiver_modes == old(t).method_receiver_modes,
        decreases f.traits@.len() - i,
    {
        let e = f.traits.entry(i);
        t.traits.push((e.0, assoc_id_vec(&e.1)));
        let ghost prev_counts = t.trait_generic_counts@;
        assert(*e == f.traits@[i as int]);
        t.trait_generic_counts.push((e.0, e.1.generic_params.len()));
        assert(t.trait_generic_counts@[i as int] == counts[i as int]);
        t.trait_methods.push((e.0, method_name_vec(&e.1.methods)));
        t.trait_signatures.push((e.0, signature_name_vec(&e.1.signatures)));
        i = i + 1;
        proof {
            assert(t.trait_generic_counts@ =~= counts.take(i as int));
        }
    }
    assert(counts.take(i as int) =~= counts);
}

/// Fills the impl tables of `t` from the impls of `f`.
fn impl_tables(f: &ProductInterface, t: &mut DefinitionTables)
    requires
        old(t).impl_traits@.len() == 0,
        old(t).impl_trait_args@.len() == 0,
        old(t).impl_methods@.len() == 0,
    ensures
        final(t).impl_traits@ == Seq::new(f.impls@.len(), |i: int| (f.impls@[i].0, match f.impls@[i].1.trait_id {
            Some(d) => Some(spec_product_of(d)),
            None => None,
        })),
        final(t).impl_trait_args@.len() == f.impls@.len(),
        forall|i: int| 0 <= i < f.impls@.len() ==> (#[trigger] final(t).impl_trait_args@[i]).0 == f.impls@[i].0
            && tys_eq(final(t).impl_trait_args@[i].1@, f.impls@[i].1.trait_arg_types@),
        final(t).impl_methods@.len() == f.impls@.len(),
        forall|i: int| 0 <= i < f.impls@.len() ==> (#[trigger] final(t).impl_methods@[i]).0 == f.impls@[i].0
            && final(t).impl_methods@[i].1@ == impl_method_ids(f.impls@[i].1),
        final(t).structs == old(t).structs,
        final(t).enums == old(t).enums,
        final(t).type_aliases == old(t).type_aliases,
        final(t).functions == old(t).functions,
        final(t).externs == old(t).externs,
        final(t).impls == old(t).impls,
        final(t).traits == old(t).traits,
        final(t).trait_generic_counts == old(t).trait_generic_counts,
        final(t).trait_methods == old(t).trait_methods,
        final(t).trait_signatures == old(t).trait_signatures,
        final(t).effective_trait_methods == old(t).effective_trait_methods,
        final(t).methods == old(t).methods,
        final(t).static_methods == old(t).static_methods,
        final(t).method_receiver_modes == old(t).method_receiver_modes,
{
    let ghost traits = Seq::new(f.impls@.len(), |i: int| (f.impls@[i].0, match f.impls@[i].1.trait_id {
        Some(d) => Some(spec_product_of(d)),
        None => None,
    }));
    let mut i: usize = 0;
    while i < f.impls.len()
        invariant
            i <= f.impls@.len(),
            traits == Seq::new(f.impls@.len(), |i: int| (f.impls@[i].0, match f.impls@[i].1.trait_id {
                Some(d) => Some(spec_product_of(d)),
                None => None,
            })),
            t.impl_traits@ == traits.take(i as int),
            t.impl_trait_args@.len() == i,
            forall|j: int| 0 <= j < i ==> (#[trigger] t.impl_trait_args@[j]).0 == f.impls@[j].0
                && tys_eq(t.impl_trait_args@[j].1@, f.impls@[j].1.trait_arg_types@),
            t.impl_methods@.len() == i,
            forall|j: int| 0 <= j < i ==> (#[trigger] t.impl_methods@[j]).0 == f.impls@[j].0
                && t.impl_methods@[j].1@ == impl_method_ids(f.impls@[j].1),
            t.structs == old(t).structs,
            t.enums == old(t).enums,
            t.type_aliases == old(t).type_aliases,
            t.functions == old(t).functions,
            t.externs == old(t).externs,
            t.impls == old(t).impls,
            t.traits == old(t).traits,
            t.trait_generic_counts == old(t).trait_generic_counts,
            t.trait_methods == old(t).trait_methods,
            t.trait_signatures == old(t).trait_signatures,
            t.effective_trait_methods == old(t).effective_trait_methods,
            t.methods == old(t).methods,
            t.static_methods == old(t).static_methods,
            t.method_receiver_modes == old(t).method_receiver_modes,
        decreases f.impls@.len() - i,
    {
        let e = f.impls.entry(i);
        let trait_id = match e.1.trait_id {
            Some(d) => Some(ProductDefId::from_def_id(d)),
            None => None,
        };
        assert(*e == f.impls@[i as int]);
        t.impl_traits.push((e.0, trait_id));
        assert(t.impl_traits@[i as int] == traits[i as int]);
        t.impl_trait_args.push((e.0, copy_types(&e.1.trait_arg_types)));
        t.impl_methods.push((e.0, impl_method_id_vec(&e.1)));
        i = i + 1;
        proof {
            assert(t.impl_traits@ =~= traits.take(i as int));
        }
    }
    assert(traits.take(i as int) =~= traits);
}


fn push_trait_members(t: &TraitInterface, out: &mut Vec<(ProductDefId, Option<ReceiverMode>)>)
    ensures
        final(out)@ == old(out)@ + member_entries(*t),
{
    let ghost start = out@;
    let ghost ms = Seq::new(t.methods@.len(), |k: int| (spec_product_of(t.methods@[k].1.id), t.methods@[k].1.self_receiver));
    let ghost ss = Seq::new(t.signatures@.len(), |k: int| (spec_product_of(t.signatures@[k].1.id), t.signatures@[k].1.self_receiver));
    let mut k: usize = 0;
    while k < t.methods.len()
        invariant
            k <= t.methods@.len(),
            ms == Seq::new(t.methods@.len(), |k: int| (spec_product_of(t.methods@[k].1.id), t.methods@[k].1.self_receiver)),
            out@ == start + ms.take(k as int),
        decreases t.methods@.len() - k,
    {
        out.push((ProductDefId::from_def_id(t.methods[k].1.id), t.methods[k].1.self_receiver));
        k = k + 1;
        proof {
            assert(out@ =~= start + ms.take(k as int));
        }
    }
    assert(ms.take(k as int) =~= ms);
    let mut k: usize = 0;
    while k < t.signatures.len()
        invariant
            k <= t.signatures@.len(),
            ss == Seq::new(t.signatures@.len(), |k: int| (spec_product_of(t.signatures@[k].1.id), t.signatures@[k].1.self_receiver)),
            out@ == start + ms + ss.take(k as int),
        decreases t.signatures@.len() - k,
    {
        out.push((ProductDefId::from_def_id(t.signatures[k].1.id), t.signatures[k].1.self_receiver));
        k = k + 1;
        proof {
            assert(out@ =~= start + ms + ss.take(k as int));
        }
    }
    assert(ss.take(k as int) =~= ss);
    assert(out@ =~= start + member_entries(*t));
}

fn push_impl_members(m: &ImplInterface, out: &mut Vec<(ProductDefId, Option<ReceiverMode>)>, statics: &mut Vec<ProductDefId>)
    ensures
        final(out)@ == old(out)@ + impl_member_entries(*m),
        final(statics)@ == old(statics)@ + impl_static_ids(*m),
{
    let ghost start = out@;
    let ghost start_statics = statics@;
    let mut k: usize = 0;
    while k < m.methods.len()
        invariant
            k <= m.methods@.len(),
            out@ == start + impl_member_entries(*m).take(k as int),
            statics@ == start_statics + static_ids_of(m.methods@.take(k as int)),
        decreases m.methods@.len() - k,
    {
        out.push((ProductDefId::from_def_id(m.methods[k].1.id), m.methods[k].1.self_receiver));
        proof {
            assert(m.methods@.take(k + 1).drop_last() =~= m.methods@.take(k as int));
        }
        if !m.methods[k].1.is_method {
            statics.push(ProductDefId::from_def_id(m.methods[k].1.id));
        }
        k = k + 1;
        proof {
            assert(out@ =~= start + impl_member_entries(*m).take(k as int));
            assert(statics@ =~= start_statics + static_ids_of(m.methods@.take(k as int)));
        }
    }
    assert(impl_member_entries(*m).take(k as int) =~= impl_member_entries(*m));
    assert(m.methods@.take(k as int) =~= m.methods@);
}

fn ids_of(entries: &Vec<(ProductDefId, Option<ReceiverMode>)>) -> (r: Vec<ProductDefId>)
    ensures
        r@ == entries@.map_values(|e: (ProductDefId, Option<ReceiverMode>)| e.0),
{
    let mut out: Vec<ProductDefId> = Vec::new();
    let mut i: usize = 0;
    while i < entries.len()
        invariant
            i <= entries@.len(),
            out@ == entries@.take(i as int).map_values(|e: (ProductDefId, Option<ReceiverMode>)| e.0),
        decreases entries@.len() - i,
    {
        out.push(entries[i].0);
        i = i + 1;
        proof {
            assert(out@ =~= entries@.take(i as int).map_values(|e: (ProductDefId, Option<ReceiverMode>)| e.0));
        }
    }
    assert(entries@.take(i as int) =~= entries@);
    out
}

fn reversed(entries: &Vec<(ProductDefId, Option<ReceiverMode>)>) -> (r: Vec<(ProductDefId, Option<ReceiverMode>)>)
    ensures
        r@ == entries@.reverse(),
{
    let mut out: Vec<(ProductDefId, Option<ReceiverMode>)> = Vec::new();
    let mut i: usize = entries.len();
    while i > 0
        invariant
            i <= entries@.len(),
            out@ == entries@.subrange(i as int, entries@.len() as int).reverse(),
        decreases i,
    {
        i = i - 1;
        out.push(entries[i]);
        proof {
            assert(out@ =~= entries@.subrange(i as int, entries@.len() as int).reverse());
        }
    }
    assert(entries@.subrange(0, entries@.len() as int) =~= entries@);
    out
}

/// Collects every declared method with its receiver mode, and the impl
/// methods without receiver.
fn method_tables(f: &ProductInterface) -> (r: (Vec<(ProductDefId, Option<ReceiverMode>)>, Vec<ProductDefId>))
    ensures
        r.0@ == method_entries(*f),
        r.1@ == static_entries(f.impls@),
{
    let mut entries: Vec<(ProductDefId, Option<ReceiverMode>)> = Vec::new();
    let mut statics: Vec<ProductDefId> = Vec::new();
    let mut i: usize = 0;
    while i < f.traits.len()
        invariant
            i <= f.traits@.len(),
            entries@ == trait_entries(f.traits@.take(i as int)),
            statics@.len() == 0,
        decreases f.traits@.len() - i,
    {
        let e = f.traits.entry(i);
        push_trait_members(&e.1, &mut entries);
        proof {
            assert(f.traits@.take(i + 1).drop_last() =~= f.traits@.take(i as int));
        }
        i = i + 1;
    }
    assert(f.traits@.take(i as int) =~= f.traits@);
    let ghost traits_part = entries@;
    let mut i: usize = 0;
    while i < f.impls.len()
        invariant
            i <= f.impls@.len(),
            traits_part == trait_entries(f.traits@),
            entries@ == traits_part + impl_entries(f.impls@.take(i as int)),
            statics@ == static_entries(f.impls@.take(i as int)),
        decreases f.impls@.len() - i,
    {
        let e = f.impls.entry(i);
        push_impl_members(&e.1, &mut entries, &mut statics);
        proof {
            assert(f.impls@.take(i + 1).drop_last() =~= f.impls@.take(i as int));
            assert(entries@ =~= traits_part + impl_entries(f.impls@.take(i + 1)));
        }
        i = i + 1;
    }
    assert(f.impls@.take(i as int) =~= f.impls@);
    (entries, statics)
}

impl DefinitionTables {
    /// The tables of what the interface `f` declares.
    pub fn from_interface(f: &ProductInterface) -> (r: DefinitionTables)
        ensures
            tables_of(*f, r),
    {
        let mut t = DefinitionTables::new();
        t.structs = keys_vec(&f.structs);
        t.enums = keys_vec(&f.enums);
        t.type_aliases = keys_vec(&f.type_aliases);
        t.functions = keys_vec(&f.functions);
        t.externs = keys_vec(&f.externs);
        t.impls = keys_vec(&f.impls);
        trait_tables(f, &mut t);
        impl_tables(f, &mut t);
        let mut effective: Vec<((ProductDefId, ProductDefId), ProductDefId)> = Vec::new();
        let mut i: usize = 0;
        while i < f.effective_trait_methods.len()
            invariant
                i <= f.effective_trait_methods@.len(),
                effective@ == f.effective_trait_methods@.take(i as int),
            decreases f.effective_trait_methods@.len() - i,
        {
            effective.push(f.effective_trait_methods[i]);
            i = i + 1;
            proof {
                assert(effective@ =~= f.effective_trait_methods@.take(i as int));
            }
        }
        assert(f.effective_trait_methods@.take(i as int) =~= f.effective_trait_methods@);
        t.effective_trait_methods = effective;
        let (entries, statics) = method_tables(f);
        t.methods = ids_of(&entries);
        t.static_methods = statics;
        t.method_receiver_modes = reversed(&entries);
        t
    }
}

impl ProductNominalTypeValidator {
    /// The validator of an artifact that depends on nothing loaded.
    pub fn from_products(products: &CompilerProducts, remap: &ProductIdentityRemap) -> (r: ProductNominalTypeValidator)
        ensures
            r.local_crate == remap.local_crate,
            tables_of(products.interface, r.local),
            no_definitions(r.dependency),
    {
        Self::from_products_with_dependencies(products, remap, DefinitionTables::new())
    }

    /// The validator of an artifact whose loaded dependencies declare
    /// `dependencies`.
    pub fn from_products_with_dependencies(
        products: &CompilerProducts,
        remap: &ProductIdentityRemap,
        dependencies: DefinitionTables,
    ) -> (r: ProductNominalTypeValidator)
        ensures
            r.local_crate == remap.local_crate,
            tables_of(products.interface, r.local),
            r.dependency == dependencies,
    {
        ProductNominalTypeValidator {
            local_crate: remap.local_crate,
            local: DefinitionTables::from_interface(&products.interface),
            dependency: dependencies,
        }
    }
}

} // verus!
