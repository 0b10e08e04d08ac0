use vstd::prelude::*;

use crate::render::{def_debug, push_def_debug};
use crate::langitems::{product_debug, push_product_text};

use crate::collections::{find_id, find_pair, has_key, lookup};
use crate::ids::{spec_def_of, spec_product_of, DefId, ProductDefId};
use crate::products::{CompilerProducts, FunctionInterface, FunctionSig, ImplInterface, ProductInterface, TraitInterface};
use crate::text::{decimal, first_error, lemma_first_error_at, lemma_first_error_step, outcome_is, push_decimal, push_str, text};
use crate::types::{
    collect_generic_params, contains_forbidden_sentinel, is_generic_param, is_sentinel, type_any, GenericParamId, Type,
};
use crate::validator::DefinitionTables;

verus! {

// ----- generic bindings of impls -----

/// `g` is declared by the impl.
pub open spec fn declares_generic(imp: ImplInterface, g: GenericParamId) -> bool {
    exists|k: int| 0 <= k < imp.type_generics@.len() && (#[trigger] imp.type_generics@[k]).id == g
}

/// `g` occurs in the impl's receiver pattern or in one of its trait arguments.
pub open spec fn binds_generic(imp: ImplInterface, g: GenericParamId) -> bool {
    ||| type_any(imp.receiver_pattern.pattern_type(), |x: Type| is_generic_param(x, g))
    ||| exists|k: int| 0 <= k < imp.trait_arg_types@.len() && type_any(#[trigger] imp.trait_arg_types@[k], |x: Type| is_generic_param(x, g))
}

/// `g` is a parameter of the impl `id` at a position it declares.
pub open spec fn owned_generic(id: ProductDefId, imp: ImplInterface, g: GenericParamId) -> bool {
    g.owner == spec_def_of(id) && (g.index as int) < imp.type_generics@.len()
}

/// The impl's receiver pattern holds no unresolved type, and the generic
/// parameters it declares are exactly those its receiver pattern and trait
/// arguments bind, all its own.
pub open spec fn impl_generics_ok(id: ProductDefId, imp: ImplInterface) -> bool {
    &&& !type_any(imp.receiver_pattern.pattern_type(), |x: Type| is_sentinel(x))
    &&& forall|g: GenericParamId| #[trigger] declares_generic(imp, g) ==> owned_generic(id, imp, g)
    &&& forall|g: GenericParamId| #[trigger] binds_generic(imp, g) ==> owned_generic(id, imp, g)
    &&& forall|g: GenericParamId| declares_generic(imp, g) <==> binds_generic(imp, g)
}

/// A generic parameter as its `Debug` text.
pub open spec fn param_text(g: GenericParamId) -> Seq<char> {
    "GenericParamId { owner: "@ + def_debug(g.owner) + ", index: "@ + decimal(g.index as nat) + " }"@
}

/// Parameters separated by `, `.
pub open spec fn params_items(s: Seq<GenericParamId>) -> Seq<char>
    decreases s.len(),
{
    if s.len() == 0 {
        Seq::empty()
    } else if s.len() == 1 {
        param_text(s[0])
    } else {
        params_items(s.drop_last()) + ", "@ + param_text(s.last())
    }
}

/// A set of parameters written out in the order of `s`.
pub open spec fn params_text(s: Seq<GenericParamId>) -> Seq<char> {
    "{"@ + params_items(s) + "}"@
}

/// No parameter occurs twice in `s`.
pub open spec fn no_dups(s: Seq<GenericParamId>) -> bool {
    forall|i: int, j: int| 0 <= i < j < s.len() ==> s[i] != s[j]
}

fn push_param(s: &mut String, g: GenericParamId)
    ensures
        final(s)@ == old(s)@ + param_text(g),
{
    push_str(s, "GenericParamId { owner: ");
    push_def_debug(s, g.owner);
    push_str(s, ", index: ");
    push_decimal(s, g.index as u64);
    push_str(s, " }");
    proof {
        assert(s@ =~= old(s)@ + param_text(g));
    }
}

/// Appends a set of generic parameters as `{a, b}`, each once, in the order
/// they first occur in `gs`.
fn push_params(s: &mut String, gs: &Vec<GenericParamId>)
    ensures
        exists|shown: Seq<GenericParamId>| {
            &&& no_dups(shown)
            &&& forall|g: GenericParamId| #[trigger] shown.contains(g) <==> gs@.contains(g)
            &&& final(s)@ == old(s)@ + params_text(shown)
        },
{
    let ghost s0 = s@;
    push_str(s, "{");
    let mut shown: Vec<GenericParamId> = Vec::new();
    let mut i: usize = 0;
    while i < gs.len()
        invariant
            i <= gs@.len(),
            no_dups(shown@),
            forall|g: GenericParamId| #[trigger] shown@.contains(g) <==> exists|j: int| 0 <= j < i && gs@[j] == g,
            s@ == s0 + "{"@ + params_items(shown@),
        decreases gs.len() - i,
    {
        let ghost before = shown@;
        if !contains_param(&shown, gs[i]) {
            if shown.len() > 0 {
                push_str(s, ", ");
            }
            push_param(s, gs[i]);
            shown.push(gs[i]);
            proof {
                assert(shown@.drop_last() =~= before);
                assert(s@ =~= s0 + "{"@ + params_items(shown@));
                assert forall|a: int, b: int| 0 <= a < b < shown@.len() implies shown@[a] != shown@[b] by {
                    if b == shown@.len() - 1 {
                        assert(shown@[a] == before[a]);
                        assert(before.contains(before[a]));
                    } else {
                        assert(shown@[a] == before[a] && shown@[b] == before[b]);
                    }
                }
            }
        }
        proof {
            assert forall|g: GenericParamId| #[trigger] shown@.contains(g) <==> exists|j: int| 0 <= j < i + 1 && gs@[j] == g by {
                if shown@.contains(g) {
                    let q = choose|q: int| 0 <= q < shown@.len() && shown@[q] == g;
                    if q < before.len() {
                        assert(before[q] == g);
                        assert(before.contains(g));
                    } else {
                        assert(gs@[i as int] == g);
                    }
                }
                if exists|j: int| 0 <= j < i + 1 && gs@[j] == g {
                    let j = choose|j: int| 0 <= j < i + 1 && gs@[j] == g;
                    if j < i {
                        assert(before.contains(g));
                        let q = choose|q: int| 0 <= q < before.len() && before[q] == g;
                        assert(shown@[q] == g);
                    } else if before.contains(g) {
                        let q = choose|q: int| 0 <= q < before.len() && before[q] == g;
                        assert(shown@[q] == g);
                    } else {
                        assert(shown@[shown@.len() - 1] == g);
                    }
                }
            }
        }
        i = i + 1;
    }
    push_str(s, "}");
    proof {
        assert(s@ =~= s0 + params_text(shown@));
        assert forall|g: GenericParamId| #[trigger] shown@.contains(g) <==> gs@.contains(g) by {
            if gs@.contains(g) {
                let j = choose|j: int| 0 <= j < gs@.len() && gs@[j] == g;
                assert(exists|j2: int| 0 <= j2 < i && gs@[j2] == g);
            }
        }
    }
}

fn impl_message(id: ProductDefId, what: &str) -> (r: String)
    ensures
        r@ == "Product artifact impl "@ + decimal(id.crate_id.0 as nat) + "::"@ + decimal(id.local_id.0 as nat) + what@,
{
    let mut s = text("Product artifact impl ");
    push_decimal(&mut s, id.crate_id.0 as u64);
    push_str(&mut s, "::");
    push_decimal(&mut s, id.local_id.0 as u64);
    push_str(&mut s, what);
    s
}

fn contains_param(gs: &Vec<GenericParamId>, g: GenericParamId) -> (r: bool)
    ensures
        r == gs@.contains(g),
{
    let mut i: usize = 0;
    while i < gs.len()
        invariant
            i <= gs@.len(),
            forall|j: int| 0 <= j < i ==> gs@[j] != g,
        decreases gs.len() - i,
    {
        if gs[i] == g {
            assert(gs@[i as int] == g);
            return true;
        }
        i = i + 1;
    }
    false
}

/// `e` reports why the impl's generics are not exactly those it binds: an
/// unresolved receiver pattern, or else the declared and the bound
/// parameters, each set written once per parameter in some order. The
/// order is left open: these sets are hashed sets, whose order of iteration
/// is not fixed from one run to the next.
pub open spec fn generics_error(id: ProductDefId, imp: ImplInterface, e: Seq<char>) -> bool {
    if type_any(imp.receiver_pattern.pattern_type(), |x: Type| is_sentinel(x)) {
        e == "Product artifact impl "@ + qualified_text(id) + " typed receiver pattern contains an unresolved type"@
    } else {
        exists|s1: Seq<GenericParamId>, s2: Seq<GenericParamId>| {
            &&& no_dups(s1)
            &&& forall|g: GenericParamId| #[trigger] s1.contains(g) <==> declares_generic(imp, g)
            &&& no_dups(s2)
            &&& forall|g: GenericParamId| #[trigger] s2.contains(g) <==> binds_generic(imp, g)
            &&& e == "Product artifact impl "@ + qualified_text(id)
                + " typed receiver/trait argument generic bindings are incomplete or invalid: required "@ + params_text(s1)
                + ", found "@ + params_text(s2)
        }
    }
}

/// Checks that an impl's generic parameters are exactly the ones its
/// receiver pattern and trait arguments bind.
#[verifier::loop_isolation(false)]
pub fn check_impl_generics(id: ProductDefId, imp: &ImplInterface) -> (r: Result<(), String>)
    ensures
        r is Ok <==> impl_generics_ok(id, *imp),
        r matches Err(e) ==> generics_error(id, *imp, e@),
{
    let pattern = imp.receiver_pattern.ty();
    if contains_forbidden_sentinel(pattern) {
        let s = impl_message(id, " typed receiver pattern contains an unresolved type");
        proof {
            assert(s@ =~= "Product artifact impl "@ + qualified_text(id) + " typed receiver pattern contains an unresolved type"@);
        }
        return Err(s);
    }
    let mut actual: Vec<GenericParamId> = Vec::new();
    collect_generic_params(pattern, &mut actual);
    let mut k: usize = 0;
    while k < imp.trait_arg_types.len()
        invariant
            k <= imp.trait_arg_types@.len(),
            forall|g: GenericParamId| #[trigger] actual@.contains(g) <==> (type_any(imp.receiver_pattern.pattern_type(), |x: Type| is_generic_param(x, g))
                || exists|j: int| 0 <= j < k && type_any(#[trigger] imp.trait_arg_types@[j], |x: Type| is_generic_param(x, g))),
        decreases imp.trait_arg_types.len() - k,
    {
        collect_generic_params(&imp.trait_arg_types[k], &mut actual);
        k = k + 1;
        proof {
            assert forall|g: GenericParamId| #[trigger] actual@.contains(g) <==> (type_any(imp.receiver_pattern.pattern_type(), |x: Type| is_generic_param(x, g))
                || exists|j: int| 0 <= j < k && type_any(#[trigger] imp.trait_arg_types@[j], |x: Type| is_generic_param(x, g))) by {
                if type_any(imp.trait_arg_types@[k - 1], |x: Type| is_generic_param(x, g)) {
                    assert(0 <= k - 1 < k);
                }
            }
        }
    }
    assert(forall|g: GenericParamId| #[trigger] actual@.contains(g) <==> binds_generic(*imp, g));
    let mut expected: Vec<GenericParamId> = Vec::new();
    let mut k: usize = 0;
    while k < imp.type_generics.len()
        invariant
            k <= imp.type_generics@.len(),
            forall|g: GenericParamId| #[trigger] expected@.contains(g) <==> exists|j: int| 0 <= j < k && (#[trigger] imp.type_generics@[j]).id == g,
        decreases imp.type_generics.len() - k,
    {
        let ghost prev = expected@;
        expected.push(imp.type_generics[k].id);
        k = k + 1;
        proof {
            assert forall|g: GenericParamId| #[trigger] expected@.contains(g) <==> exists|j: int| 0 <= j < k && (#[trigger] imp.type_generics@[j]).id == g by {
                if expected@.contains(g) {
                    let q = choose|q: int| 0 <= q < expected@.len() && expected@[q] == g;
                    if q < prev.len() {
                        assert(prev[q] == g);
                        assert(prev.contains(g));
                    } else {
                        assert(imp.type_generics@[k - 1].id == g);
                    }
                }
                if exists|j: int| 0 <= j < k && (#[trigger] imp.type_generics@[j]).id == g {
                    let j = choose|j: int| 0 <= j < k && (#[trigger] imp.type_generics@[j]).id == g;
                    if j < k - 1 {
                        assert(prev.contains(g));
                        let q = choose|q: int| 0 <= q < prev.len() && prev[q] == g;
                        assert(expected@[q] == g);
                    } else {
                        assert(expected@[expected@.len() - 1] == g);
                    }
                }
            }
        }
    }
    assert(forall|g: GenericParamId| #[trigger] expected@.contains(g) <==> declares_generic(*imp, g));
    let owner = DefId { crate_id: crate::ids::CrateId(id.crate_id.0), local: crate::ids::LocalDefId(id.local_id.0) };
    let count = imp.type_generics.len();
    let mut valid = true;
    let mut i: usize = 0;
    while i < expected.len()
        invariant
            i <= expected@.len(),
            owner == spec_def_of(id),
            count == imp.type_generics@.len(),
            valid <==> forall|j: int| 0 <= j < i ==> owned_generic(id, *imp, #[trigger] expected@[j]),
        decreases expected.len() - i,
    {
        let g = expected[i];
        if !(g.owner == owner && (g.index as usize) < count) {
            valid = false;
        }
        i = i + 1;
    }
    let mut i: usize = 0;
    while i < actual.len()
        invariant
            i <= actual@.len(),
            owner == spec_def_of(id),
            count == imp.type_generics@.len(),
            valid <==> (forall|j: int| 0 <= j < expected@.len() ==> owned_generic(id, *imp, #[trigger] expected@[j]))
                && (forall|j: int| 0 <= j < i ==> owned_generic(id, *imp, #[trigger] actual@[j])),
        decreases actual.len() - i,
    {
        let g = actual[i];
        if !(g.owner == owner && (g.index as usize) < count) {
            valid = false;
        }
        i = i + 1;
    }
    let mut i: usize = 0;
    while i < expected.len()
        invariant
            i <= expected@.len(),
            valid ==> forall|j: int| 0 <= j < i ==> actual@.contains(#[trigger] expected@[j]),
            valid ==> (forall|j: int| 0 <= j < expected@.len() ==> owned_generic(id, *imp, #[trigger] expected@[j]))
                && (forall|j: int| 0 <= j < actual@.len() ==> owned_generic(id, *imp, #[trigger] actual@[j])),
            !valid ==> !((forall|j: int| 0 <= j < expected@.len() ==> owned_generic(id, *imp, #[trigger] expected@[j]))
                && (forall|j: int| 0 <= j < actual@.len() ==> owned_generic(id, *imp, #[trigger] actual@[j]))
                && (forall|g: GenericParamId| expected@.contains(g) <==> actual@.contains(g))),
        decreases expected.len() - i,
    {
        if valid && !contains_param(&actual, expected[i]) {
            valid = false;
            proof {
                assert(expected@.contains(expected@[i as int]));
            }
        }
        i = i + 1;
    }
    let mut i: usize = 0;
    while i < actual.len()
        invariant
            i <= actual@.len(),
            valid ==> forall|j: int| 0 <= j < expected@.len() ==> actual@.contains(#[trigger] expected@[j]),
            valid ==> forall|j: int| 0 <= j < i ==> expected@.contains(#[trigger] actual@[j]),
            valid ==> (forall|j: int| 0 <= j < expected@.len() ==> owned_generic(id, *imp, #[trigger] expected@[j]))
                && (forall|j: int| 0 <= j < actual@.len() ==> owned_generic(id, *imp, #[trigger] actual@[j])),
            !valid ==> !((forall|j: int| 0 <= j < expected@.len() ==> owned_generic(id, *imp, #[trigger] expected@[j]))
                && (forall|j: int| 0 <= j < actual@.len() ==> owned_generic(id, *imp, #[trigger] actual@[j]))
                && (forall|g: GenericParamId| expected@.contains(g) <==> actual@.contains(g))),
        decreases actual.len() - i,
    {
        if valid && !contains_param(&expected, actual[i]) {
            valid = false;
            proof {
                assert(actual@.contains(actual@[i as int]));
            }
        }
        i = i + 1;
    }
    proof {
        if valid {
            assert forall|g: GenericParamId| expected@.contains(g) <==> actual@.contains(g) by {
                if expected@.contains(g) {
                    let j = choose|j: int| 0 <= j < expected@.len() && expected@[j] == g;
                    assert(actual@.contains(expected@[j]));
                }
                if actual@.contains(g) {
                    let j = choose|j: int| 0 <= j < actual@.len() && actual@[j] == g;
                    assert(expected@.contains(actual@[j]));
                }
            }
            assert forall|g: GenericParamId| declares_generic(*imp, g) <==> binds_generic(*imp, g) by {
                assert(expected@.contains(g) <==> declares_generic(*imp, g));
                assert(actual@.contains(g) <==> binds_generic(*imp, g));
                assert(expected@.contains(g) <==> actual@.contains(g));
            }
            assert forall|g: GenericParamId| #[trigger] declares_generic(*imp, g) implies owned_generic(id, *imp, g) by {
                assert(expected@.contains(g));
                let j = choose|j: int| 0 <= j < expected@.len() && expected@[j] == g;
                assert(owned_generic(id, *imp, expected@[j]));
            }
            assert forall|g: GenericParamId| #[trigger] binds_generic(*imp, g) implies owned_generic(id, *imp, g) by {
                assert(actual@.contains(g));
                let j = choose|j: int| 0 <= j < actual@.len() && actual@[j] == g;
                assert(owned_generic(id, *imp, actual@[j]));
            }
        } else {
            if impl_generics_ok(id, *imp) {
                assert forall|j: int| 0 <= j < expected@.len() implies owned_generic(id, *imp, #[trigger] expected@[j]) by {
                    assert(expected@.contains(expected@[j]));
                    assert(declares_generic(*imp, expected@[j]));
                }
                assert forall|j: int| 0 <= j < actual@.len() implies owned_generic(id, *imp, #[trigger] actual@[j]) by {
                    assert(actual@.contains(actual@[j]));
                    assert(binds_generic(*imp, actual@[j]));
                }
                assert forall|g: GenericParamId| expected@.contains(g) <==> actual@.contains(g) by {
                    assert(expected@.contains(g) <==> declares_generic(*imp, g));
                    assert(actual@.contains(g) <==> binds_generic(*imp, g));
                }
            }
        }
    }
    if !valid {
        let mut s = impl_message(id, " typed receiver/trait argument generic bindings are incomplete or invalid: required ");
        let ghost s_a = s@;
        push_params(&mut s, &expected);
        let ghost s_b = s@;
        push_str(&mut s, ", found ");
        let ghost s_c = s@;
        push_params(&mut s, &actual);
        proof {
            let s1 = choose|shown: Seq<GenericParamId>| no_dups(shown)
                && (forall|g: GenericParamId| #[trigger] shown.contains(g) <==> expected@.contains(g)) && s_b == s_a + params_text(shown);
            let s2 = choose|shown: Seq<GenericParamId>| no_dups(shown)
                && (forall|g: GenericParamId| #[trigger] shown.contains(g) <==> actual@.contains(g)) && s@ == s_c + params_text(shown);
            assert forall|g: GenericParamId| #[trigger] s1.contains(g) <==> declares_generic(*imp, g) by {
                assert(s1.contains(g) <==> expected@.contains(g));
                assert(expected@.contains(g) <==> declares_generic(*imp, g));
            }
            assert forall|g: GenericParamId| #[trigger] s2.contains(g) <==> binds_generic(*imp, g) by {
                assert(s2.contains(g) <==> actual@.contains(g));
                assert(actual@.contains(g) <==> binds_generic(*imp, g));
            }
            assert(s@ =~= "Product artifact impl "@ + qualified_text(id)
                + " typed receiver/trait argument generic bindings are incomplete or invalid: required "@ + params_text(s1)
                + ", found "@ + params_text(s2));
        }
        return Err(s);
    }
    Ok(())
}


// ----- effective trait methods -----

/// Some method of the list is called `n`.
pub open spec fn has_named<V>(ms: Seq<(String, V)>, n: Seq<char>) -> bool {
    exists|k: int| 0 <= k < ms.len() && (#[trigger] ms[k]).0@ == n
}

/// The identities of the signatures that no method of the same name
/// overrides, in order.
pub open spec fn unshadowed_signatures(sigs: Seq<(String, FunctionSig)>, methods: Seq<(String, FunctionInterface)>) -> Seq<ProductDefId>
    decreases sigs.len(),
{
    if sigs.len() == 0 {
        Seq::empty()
    } else if has_named(methods, sigs.last().0@) {
        unshadowed_signatures(sigs.drop_last(), methods)
    } else {
        unshadowed_signatures(sigs.drop_last(), methods).push(spec_product_of(sigs.last().1.id))
    }
}

/// The identities of the signatures of a dependency trait that no method of
/// the same name overrides, in order.
pub open spec fn unshadowed_names(sigs: Seq<(String, ProductDefId)>, methods: Option<Vec<(String, ProductDefId)>>) -> Seq<ProductDefId>
    decreases sigs.len(),
{
    if sigs.len() == 0 {
        Seq::empty()
    } else if methods matches Some(ms) && has_named(ms@, sigs.last().0@) {
        unshadowed_names(sigs.drop_last(), methods)
    } else {
        unshadowed_names(sigs.drop_last(), methods).push(sigs.last().1)
    }
}

/// The members of an artifact trait that each of its impls must give an
/// effective method for: its methods, then the signatures no method
/// overrides.
pub open spec fn local_member_ids(t: TraitInterface) -> Seq<ProductDefId> {
    Seq::new(t.methods@.len(), |k: int| spec_product_of(t.methods@[k].1.id)) + unshadowed_signatures(t.signatures@, t.methods@)
}

/// The members of a dependency trait that its impls must cover.
pub open spec fn dependency_member_ids(deps: DefinitionTables, tid: ProductDefId) -> Seq<ProductDefId> {
    let methods = lookup(deps.trait_methods@, tid);
    let method_ids = match methods {
        Some(ms) => Seq::new(ms@.len(), |k: int| ms@[k].1),
        None => Seq::empty(),
    };
    let sigs = match lookup(deps.trait_signatures@, tid) {
        Some(ss) => ss@,
        None => Seq::empty(),
    };
    method_ids + unshadowed_names(sigs, methods)
}

/// The members of trait `tid` that its impls must cover.
pub open spec fn member_ids(f: ProductInterface, deps: DefinitionTables, tid: ProductDefId) -> Seq<ProductDefId> {
    match lookup(f.traits@, tid) {
        Some(t) => local_member_ids(t),
        None => dependency_member_ids(deps, tid),
    }
}

/// Whether each method of the list with identity `n` takes a receiver, in
/// order.
pub open spec fn method_shapes(ms: Seq<(String, FunctionInterface)>, n: ProductDefId) -> Seq<bool>
    decreases ms.len(),
{
    if ms.len() == 0 {
        Seq::empty()
    } else if spec_product_of(ms.last().1.id) == n {
        method_shapes(ms.drop_last(), n).push(ms.last().1.is_method || ms.last().1.self_receiver is Some)
    } else {
        method_shapes(ms.drop_last(), n)
    }
}

/// Whether each signature of the list with identity `n` takes a receiver,
/// in order.
pub open spec fn signature_shapes(ss: Seq<(String, FunctionSig)>, n: ProductDefId) -> Seq<bool>
    decreases ss.len(),
{
    if ss.len() == 0 {
        Seq::empty()
    } else if spec_product_of(ss.last().1.id) == n {
        signature_shapes(ss.drop_last(), n).push(ss.last().1.self_receiver is Some)
    } else {
        signature_shapes(ss.drop_last(), n)
    }
}

/// Whether each declaration of member `n` in an artifact trait takes a
/// receiver, methods first.
pub open spec fn local_shapes(t: TraitInterface, n: ProductDefId) -> Seq<bool> {
    method_shapes(t.methods@, n) + signature_shapes(t.signatures@, n)
}

/// Whether member `n` of trait `tid` takes a receiver, where its
/// declarations agree on it.
pub open spec fn member_shape(f: ProductInterface, deps: DefinitionTables, tid: ProductDefId, n: ProductDefId) -> Option<bool> {
    match lookup(f.traits@, tid) {
        Some(t) => {
            let shapes = local_shapes(t, n);
            if shapes.len() > 0 && forall|k: int| 0 <= k < shapes.len() ==> #[trigger] shapes[k] == shapes[0] {
                Some(shapes[0])
            } else {
                None
            }
        },
        None => match lookup(deps.method_receiver_modes@, n) {
            Some(mode) => Some(mode is Some),
            None => None,
        },
    }
}

/// The first method of an impl with product identity `mid`.
pub open spec fn first_method(ms: Seq<(String, FunctionInterface)>, mid: ProductDefId) -> Option<FunctionInterface>
    decreases ms.len(),
{
    if ms.len() == 0 {
        None
    } else if spec_product_of(ms[0].1.id) == mid {
        Some(ms[0].1)
    } else {
        first_method(ms.drop_first(), mid)
    }
}

/// Member `n` of trait `tid` has an effective method on impl `impl_id`: a
/// method of the impl that agrees with the member on taking a receiver.
pub open spec fn member_ok(f: ProductInterface, deps: DefinitionTables, impl_id: ProductDefId, imp: ImplInterface, tid: ProductDefId, n: ProductDefId) -> bool {
    &&& lookup(f.effective_trait_methods@, (impl_id, n)) matches Some(mid)
    &&& first_method(imp.methods@, mid) matches Some(method)
    &&& member_shape(f, deps, tid, n) matches Some(shape)
    &&& shape == (method.is_method || method.self_receiver is Some)
}

/// A trait impl names a known trait and has an effective method for each
/// member that the trait requires.
pub open spec fn trait_impl_ok(f: ProductInterface, deps: DefinitionTables, impl_id: ProductDefId, imp: ImplInterface) -> bool {
    imp.trait_id matches Some(t) ==> {
        let tid = spec_product_of(t);
        &&& (has_key(f.traits@, tid) || has_key(deps.traits@, tid))
        &&& forall|k: int| 0 <= k < member_ids(f, deps, tid).len() ==> member_ok(f, deps, impl_id, imp, tid, #[trigger] member_ids(f, deps, tid)[k])
    }
}

/// An effective-method key names a trait impl of the artifact and one of
/// the members its trait requires.
pub open spec fn expected_key(f: ProductInterface, deps: DefinitionTables, key: (ProductDefId, ProductDefId)) -> bool {
    lookup(f.impls@, key.0) matches Some(imp) && imp.trait_id matches Some(t) && member_ids(f, deps, spec_product_of(t)).contains(key.1)
}

/// The method-authority tables of an artifact are consistent: every impl
/// binds exactly its generics, every trait impl covers its trait, and the
/// effective-method relation holds no other key.
pub open spec fn authority_maps_ok(f: ProductInterface, deps: DefinitionTables) -> bool {
    &&& forall|i: int| 0 <= i < f.impls@.len() ==> impl_generics_ok((#[trigger] f.impls@[i]).0, f.impls@[i].1)
    &&& forall|i: int| 0 <= i < f.impls@.len() ==> trait_impl_ok(f, deps, (#[trigger] f.impls@[i]).0, f.impls@[i].1)
    &&& forall|j: int| 0 <= j < f.effective_trait_methods@.len() ==> expected_key(f, deps, (#[trigger] f.effective_trait_methods@[j]).0)
}


fn has_method_named(ms: &Vec<(String, FunctionInterface)>, n: &String) -> (r: bool)
    ensures
        r == has_named(ms@, n@),
{
    let mut k: usize = 0;
    while k < ms.len()
        invariant
            k <= ms@.len(),
            forall|j: int| 0 <= j < k ==> (#[trigger] ms@[j]).0@ != n@,
        decreases ms.len() - k,
    {
        if crate::text::str_eq(ms[k].0.as_str(), n.as_str()) {
            assert(ms@[k as int].0@ == n@);
            return true;
        }
        k = k + 1;
    }
    false
}

fn has_id_named(ms: &Vec<(String, ProductDefId)>, n: &String) -> (r: bool)
    ensures
        r == has_named(ms@, n@),
{
    let mut k: usize = 0;
    while k < ms.len()
        invariant
            k <= ms@.len(),
            forall|j: int| 0 <= j < k ==> (#[trigger] ms@[j]).0@ != n@,
        decreases ms.len() - k,
    {
        if crate::text::str_eq(ms[k].0.as_str(), n.as_str()) {
            assert(ms@[k as int].0@ == n@);
            return true;
        }
        k = k + 1;
    }
    false
}

/// The members that impls of trait `tid` must cover.
pub fn trait_member_ids(f: &ProductInterface, deps: &DefinitionTables, tid: ProductDefId) -> (r: Vec<ProductDefId>)
    ensures
        r@ == member_ids(*f, *deps, tid),
{
    let mut out: Vec<ProductDefId> = Vec::new();
    match f.traits.get(tid) {
        Some(t) => {
            let mut k: usize = 0;
            while k < t.methods.len()
                invariant
                    k <= t.methods@.len(),
                    out@ == Seq::new(t.methods@.len(), |q: int| spec_product_of(t.methods@[q].1.id)).take(k as int),
                decreases t.methods.len() - k,
            {
                out.push(ProductDefId::from_def_id(t.methods[k].1.id));
                k = k + 1;
                proof {
                    assert(out@ =~= Seq::new(t.methods@.len(), |q: int| spec_product_of(t.methods@[q].1.id)).take(k as int));
                }
            }
            let ghost head = out@;
            assert(head =~= Seq::new(t.methods@.len(), |q: int| spec_product_of(t.methods@[q].1.id)));
            let mut k: usize = 0;
            while k < t.signatures.len()
                invariant
                    k <= t.signatures@.len(),
                    out@ == head + unshadowed_signatures(t.signatures@.take(k as int), t.methods@),
                decreases t.signatures.len() - k,
            {
                proof {
                    assert(t.signatures@.take(k + 1).drop_last() =~= t.signatures@.take(k as int));
                }
                if !has_method_named(&t.methods, &t.signatures[k].0) {
                    out.push(ProductDefId::from_def_id(t.signatures[k].1.id));
                }
                k = k + 1;
                proof {
                    assert(out@ =~= head + unshadowed_signatures(t.signatures@.take(k as int), t.methods@));
                }
            }
            assert(t.signatures@.take(k as int) =~= t.signatures@);
        },
        None => {
            let methods = find_id(&deps.trait_methods, tid);
            if let Some(ms) = methods {
                let mut k: usize = 0;
                while k < ms.len()
                    invariant
                        k <= ms@.len(),
                        out@ == Seq::new(ms@.len(), |q: int| ms@[q].1).take(k as int),
                    decreases ms.len() - k,
                {
                    out.push(ms[k].1);
                    k = k + 1;
                    proof {
                        assert(out@ =~= Seq::new(ms@.len(), |q: int| ms@[q].1).take(k as int));
                    }
                }
                assert(out@ =~= Seq::new(ms@.len(), |q: int| ms@[q].1));
            }
            let ghost head = out@;
            let ghost mopt = lookup(deps.trait_methods@, tid);
            if let Some(ss) = find_id(&deps.trait_signatures, tid) {
                let mut k: usize = 0;
                while k < ss.len()
                    invariant
                        k <= ss@.len(),
                        mopt == lookup(deps.trait_methods@, tid),
                        match methods {
                            Some(ms) => mopt == Some(*ms),
                            None => mopt is None,
                        },
                        out@ == head + unshadowed_names(ss@.take(k as int), mopt),
                    decreases ss.len() - k,
                {
                    proof {
                        assert(ss@.take(k + 1).drop_last() =~= ss@.take(k as int));
                    }
                    let shadowed = match methods {
                        Some(ms) => has_id_named(ms, &ss[k].0),
                        None => false,
                    };
                    if !shadowed {
                        out.push(ss[k].1);
                    }
                    k = k + 1;
                    proof {
                        assert(out@ =~= head + unshadowed_names(ss@.take(k as int), mopt));
                    }
                }
                assert(ss@.take(k as int) =~= ss@);
            } else {
                assert(out@ =~= head + unshadowed_names(Seq::empty(), mopt));
            }
        },
    }
    out
}

fn local_shape_vec(t: &TraitInterface, n: ProductDefId) -> (r: Vec<bool>)
    ensures
        r@ == local_shapes(*t, n),
{
    let mut out: Vec<bool> = Vec::new();
    let mut k: usize = 0;
    while k < t.methods.len()
        invariant
            k <= t.methods@.len(),
            out@ == method_shapes(t.methods@.take(k as int), n),
        decreases t.methods.len() - k,
    {
        proof {
            assert(t.methods@.take(k + 1).drop_last() =~= t.methods@.take(k as int));
        }
        let m = &t.methods[k].1;
        if ProductDefId::from_def_id(m.id) == n {
            out.push(m.is_method || m.self_receiver.is_some());
        }
        k = k + 1;
    }
    assert(t.methods@.take(k as int) =~= t.methods@);
    let ghost head = out@;
    let mut k: usize = 0;
    while k < t.signatures.len()
        invariant
            k <= t.signatures@.len(),
            out@ == head + signature_shapes(t.signatures@.take(k as int), n),
        decreases t.signatures.len() - k,
    {
        proof {
            assert(t.signatures@.take(k + 1).drop_last() =~= t.signatures@.take(k as int));
        }
        let m = &t.signatures[k].1;
        if ProductDefId::from_def_id(m.id) == n {
            out.push(m.self_receiver.is_some());
        }
        k = k + 1;
        proof {
            assert(out@ =~= head + signature_shapes(t.signatures@.take(k as int), n));
        }
    }
    assert(t.signatures@.take(k as int) =~= t.signatures@);
    out
}

fn find_first_method(ms: &Vec<(String, FunctionInterface)>, mid: ProductDefId) -> (r: Option<&FunctionInterface>)
    ensures
        match first_method(ms@, mid) {
            Some(m) => r matches Some(x) && *x == m,
            None => r is None,
        },
{
    let mut k: usize = 0;
    assert(ms@.subrange(0, ms@.len() as int) =~= ms@);
    while k < ms.len()
        invariant
            k <= ms@.len(),
            first_method(ms@, mid) == first_method(ms@.subrange(k as int, ms@.len() as int), mid),
        decreases ms.len() - k,
    {
        assert(ms@.subrange(k as int, ms@.len() as int).drop_first() =~= ms@.subrange(k + 1, ms@.len() as int));
        if ProductDefId::from_def_id(ms[k].1.id) == mid {
            return Some(&ms[k].1);
        }
        k = k + 1;
    }
    None
}

/// An identity as `crate::local`.
pub open spec fn qualified_text(d: ProductDefId) -> Seq<char> {
    decimal(d.crate_id.0 as nat) + "::"@ + decimal(d.local_id.0 as nat)
}

fn push_qualified(s: &mut String, d: ProductDefId)
    ensures
        final(s)@ == old(s)@ + qualified_text(d),
{
    push_decimal(s, d.crate_id.0 as u64);
    push_str(s, "::");
    push_decimal(s, d.local_id.0 as u64);
    proof {
        assert(s@ =~= old(s)@ + qualified_text(d));
    }
}

/// An effective-method key as its `Debug` text.
pub open spec fn key_text(k: (ProductDefId, ProductDefId)) -> Seq<char> {
    "("@ + product_debug(k.0) + ", "@ + product_debug(k.1) + ")"@
}

/// Keys separated by `, `.
pub open spec fn keys_items(ks: Seq<(ProductDefId, ProductDefId)>) -> Seq<char>
    decreases ks.len(),
{
    if ks.len() == 0 {
        Seq::empty()
    } else if ks.len() == 1 {
        key_text(ks[0])
    } else {
        keys_items(ks.drop_last()) + ", "@ + key_text(ks.last())
    }
}

/// A list of keys as its `Debug` text.
pub open spec fn keys_text(ks: Seq<(ProductDefId, ProductDefId)>) -> Seq<char> {
    "["@ + keys_items(ks) + "]"@
}

fn push_keys(s: &mut String, keys: &Vec<(ProductDefId, ProductDefId)>)
    ensures
        final(s)@ == old(s)@ + keys_text(keys@),
{
    let ghost s0 = s@;
    push_str(s, "[");
    let mut i: usize = 0;
    while i < keys.len()
        invariant
            i <= keys@.len(),
            s@ == s0 + "["@ + keys_items(keys@.take(i as int)),
        decreases keys.len() - i,
    {
        proof {
            assert(keys@.take(i + 1).drop_last() =~= keys@.take(i as int));
        }
        if i > 0 {
            push_str(s, ", ");
        }
        push_str(s, "(");
        push_product_text(s, keys[i].0);
        push_str(s, ", ");
        push_product_text(s, keys[i].1);
        push_str(s, ")");
        i = i + 1;
        proof {
            assert(s@ =~= s0 + "["@ + keys_items(keys@.take(i as int)));
        }
    }
    push_str(s, "]");
    proof {
        assert(keys@.take(i as int) =~= keys@);
        assert(s@ =~= s0 + keys_text(keys@));
    }
}

/// The effective-method keys of impl `id`, in table order.
pub open spec fn keys_of_impl(s: Seq<((ProductDefId, ProductDefId), ProductDefId)>, id: ProductDefId) -> Seq<(ProductDefId, ProductDefId)>
    decreases s.len(),
{
    if s.len() == 0 {
        Seq::empty()
    } else if s.last().0.0 == id {
        keys_of_impl(s.drop_last(), id).push(s.last().0)
    } else {
        keys_of_impl(s.drop_last(), id)
    }
}

/// The outcome of checking member `n` of trait `tid` on impl `impl_id`.
pub open spec fn member_outcome(f: ProductInterface, deps: DefinitionTables, impl_id: ProductDefId, imp: ImplInterface, tid: ProductDefId, n: ProductDefId) -> Result<(), Seq<char>> {
    match lookup(f.effective_trait_methods@, (impl_id, n)) {
        None => Err("Product artifact trait impl "@ + qualified_text(impl_id) + " has no effective method for member "@
            + qualified_text(n) + ", available="@ + keys_text(keys_of_impl(f.effective_trait_methods@, impl_id))),
        Some(mid) => match first_method(imp.methods@, mid) {
            None => Err("Product artifact effective method "@ + qualified_text(mid) + " does not belong to impl "@ + qualified_text(impl_id)),
            Some(method) => {
                let shape: Result<bool, Seq<char>> = match lookup(f.traits@, tid) {
                    Some(t) => if local_shapes(t, n).len() == 0 {
                        Err("Product artifact effective trait member "@ + def_debug(spec_def_of(n)) + " is not declared by trait "@
                            + def_debug(t.id))
                    } else {
                        match member_shape(f, deps, tid, n) {
                            Some(sh) => Ok(sh),
                            None => Err("effective trait member "@ + def_debug(spec_def_of(n))
                                + " has conflicting receiver/static representations"@),
                        }
                    },
                    None => match lookup(deps.method_receiver_modes@, n) {
                        Some(mode) => Ok(mode is Some),
                        None => Err("Product artifact effective trait member "@ + def_debug(spec_def_of(n))
                            + " is not declared by dependency trait "@ + product_debug(tid)),
                    },
                };
                match shape {
                    Err(m) => Err(m),
                    Ok(sh) => if sh != (method.is_method || method.self_receiver is Some) {
                        Err("effective trait member "@ + def_debug(spec_def_of(n)) + " and impl method "@ + def_debug(spec_def_of(mid))
                            + " have a receiver/static mismatch"@)
                    } else {
                        Ok(())
                    },
                }
            },
        },
    }
}

/// Checks that member `n` of trait `tid` has an effective method on the
/// impl `impl_id`.
#[verifier::loop_isolation(false)]
fn check_member(
    f: &ProductInterface,
    deps: &DefinitionTables,
    impl_id: ProductDefId,
    imp: &ImplInterface,
    tid: ProductDefId,
    n: ProductDefId,
) -> (r: Result<(), String>)
    ensures
        r is Ok <==> member_ok(*f, *deps, impl_id, *imp, tid, n),
        outcome_is(r, member_outcome(*f, *deps, impl_id, *imp, tid, n)),
{
    let mid = match find_pair(&f.effective_trait_methods, impl_id, n) {
        Some(x) => *x,
        None => {
            let mut available: Vec<(ProductDefId, ProductDefId)> = Vec::new();
            let mut k: usize = 0;
            while k < f.effective_trait_methods.len()
                invariant
                    k <= f.effective_trait_methods@.len(),
                    available@ == keys_of_impl(f.effective_trait_methods@.take(k as int), impl_id),
                decreases f.effective_trait_methods.len() - k,
            {
                proof {
                    let t = f.effective_trait_methods@.take(k + 1);
                    assert(t.drop_last() =~= f.effective_trait_methods@.take(k as int));
                    assert(t.last() == f.effective_trait_methods@[k as int]);
                }
                if f.effective_trait_methods[k].0.0 == impl_id {
                    available.push(f.effective_trait_methods[k].0);
                }
                k = k + 1;
            }
            proof {
                assert(f.effective_trait_methods@.take(k as int) =~= f.effective_trait_methods@);
            }
            let mut s = text("Product artifact trait impl ");
            push_qualified(&mut s, impl_id);
            push_str(&mut s, " has no effective method for member ");
            push_qualified(&mut s, n);
            push_str(&mut s, ", available=");
            push_keys(&mut s, &available);
            proof {
                assert(s@ =~= member_outcome(*f, *deps, impl_id, *imp, tid, n)->Err_0);
            }
            return Err(s);
        },
    };
    let method = match find_first_method(&imp.methods, mid) {
        Some(m) => m,
        None => {
            let mut s = text("Product artifact effective method ");
            push_qualified(&mut s, mid);
            push_str(&mut s, " does not belong to impl ");
            push_qualified(&mut s, impl_id);
            proof {
                assert(s@ =~= member_outcome(*f, *deps, impl_id, *imp, tid, n)->Err_0);
            }
            return Err(s);
        },
    };
    let member_def = DefId { crate_id: crate::ids::CrateId(n.crate_id.0), local: crate::ids::LocalDefId(n.local_id.0) };
    let method_def = DefId { crate_id: crate::ids::CrateId(mid.crate_id.0), local: crate::ids::LocalDefId(mid.local_id.0) };
    proof {
        assert(member_def == spec_def_of(n));
        assert(method_def == spec_def_of(mid));
    }
    let shape = match f.traits.get(tid) {
        Some(t) => {
            let shapes = local_shape_vec(t, n);
            if shapes.len() == 0 {
                let mut s = text("Product artifact effective trait member ");
                push_def_debug(&mut s, member_def);
                push_str(&mut s, " is not declared by trait ");
                push_def_debug(&mut s, t.id);
                proof {
                    assert(s@ =~= member_outcome(*f, *deps, impl_id, *imp, tid, n)->Err_0);
                }
                return Err(s);
            }
            let first = shapes[0];
            let mut k: usize = 0;
            while k < shapes.len()
                invariant
                    k <= shapes@.len(),
                    shapes@.len() > 0,
                    first == shapes@[0],
                    forall|j: int| 0 <= j < k ==> #[trigger] shapes@[j] == shapes@[0],
                decreases shapes.len() - k,
            {
                if shapes[k] != first {
                    proof {
                        assert(shapes@[k as int] != shapes@[0]);
                        assert(member_shape(*f, *deps, tid, n) is None);
                    }
                    let mut s = text("effective trait member ");
                    push_def_debug(&mut s, member_def);
                    push_str(&mut s, " has conflicting receiver/static representations");
                    proof {
                        assert(s@ =~= member_outcome(*f, *deps, impl_id, *imp, tid, n)->Err_0);
                    }
                    return Err(s);
                }
                k = k + 1;
            }
            first
        },
        None => match find_id(&deps.method_receiver_modes, n) {
            Some(mode) => mode.is_some(),
            None => {
                let mut s = text("Product artifact effective trait member ");
                push_def_debug(&mut s, member_def);
                push_str(&mut s, " is not declared by dependency trait ");
                push_product_text(&mut s, tid);
                proof {
                    assert(s@ =~= member_outcome(*f, *deps, impl_id, *imp, tid, n)->Err_0);
                }
                return Err(s);
            },
        },
    };
    let method_has_receiver = method.is_method || method.self_receiver.is_some();
    if shape != method_has_receiver {
        let mut s = text("effective trait member ");
        push_def_debug(&mut s, member_def);
        push_str(&mut s, " and impl method ");
        push_def_debug(&mut s, method_def);
        push_str(&mut s, " have a receiver/static mismatch");
        proof {
            assert(s@ =~= member_outcome(*f, *deps, impl_id, *imp, tid, n)->Err_0);
        }
        return Err(s);
    }
    Ok(())
}

/// The check of each member of trait `tid` on impl `impl_id`.
pub open spec fn member_checks(f: ProductInterface, deps: DefinitionTables, impl_id: ProductDefId, imp: ImplInterface, tid: ProductDefId) -> spec_fn(ProductDefId) -> Result<(), Seq<char>> {
    |n: ProductDefId| member_outcome(f, deps, impl_id, imp, tid, n)
}

/// The outcome of checking a trait impl: its trait must be known, and each
/// member the trait requires, in order, must pass its check.
pub open spec fn trait_impl_outcome(f: ProductInterface, deps: DefinitionTables, impl_id: ProductDefId, imp: ImplInterface) -> Result<(), Seq<char>> {
    match imp.trait_id {
        None => Ok(()),
        Some(t) => {
            let tid = spec_product_of(t);
            if !(has_key(f.traits@, tid) || has_key(deps.traits@, tid)) {
                Err("Product artifact impl "@ + qualified_text(impl_id) + " references missing trait "@ + qualified_text(tid))
            } else {
                first_error(member_ids(f, deps, tid), member_checks(f, deps, impl_id, imp, tid))
            }
        },
    }
}

/// Checks that a trait impl names a known trait and covers its members.
#[verifier::loop_isolation(false)]
fn check_trait_impl(f: &ProductInterface, deps: &DefinitionTables, impl_id: ProductDefId, imp: &ImplInterface) -> (r: Result<(), String>)
    ensures
        r is Ok <==> trait_impl_ok(*f, *deps, impl_id, *imp),
        outcome_is(r, trait_impl_outcome(*f, *deps, impl_id, *imp)),
{
    let t = match imp.trait_id {
        None => return Ok(()),
        Some(t) => t,
    };
    let tid = ProductDefId::from_def_id(t);
    if !f.traits.contains_key(tid) && find_id(&deps.traits, tid).is_none() {
        proof {
            crate::collections::lemma_lookup(deps.traits@, tid);
        }
        let mut s = impl_message(impl_id, " references missing trait ");
        push_qualified(&mut s, tid);
        proof {
            assert(s@ =~= trait_impl_outcome(*f, *deps, impl_id, *imp)->Err_0);
        }
        return Err(s);
    }
    proof {
        crate::collections::lemma_lookup(deps.traits@, tid);
    }
    let members = trait_member_ids(f, deps, tid);
    let ghost c = member_checks(*f, *deps, impl_id, *imp, tid);
    let mut k: usize = 0;
    while k < members.len()
        invariant
            k <= members@.len(),
            members@ == member_ids(*f, *deps, tid),
            first_error(members@.take(k as int), c) is Ok,
            forall|j: int| 0 <= j < k ==> member_ok(*f, *deps, impl_id, *imp, tid, #[trigger] members@[j]),
        decreases members.len() - k,
    {
        let checked = check_member(f, deps, impl_id, imp, tid, members[k]);
        if checked.is_err() {
            proof {
                assert(!member_ok(*f, *deps, impl_id, *imp, tid, member_ids(*f, *deps, tid)[k as int]));
                lemma_first_error_at(members@, c, k as int);
            }
            return checked;
        }
        proof {
            lemma_first_error_step(members@, c, k as int);
        }
        k = k + 1;
    }
    proof {
        assert(members@.take(k as int) =~= members@);
    }
    Ok(())
}

fn contains_member(ms: &Vec<ProductDefId>, n: ProductDefId) -> (r: bool)
    ensures
        r == ms@.contains(n),
{
    crate::collections::contains_id(ms, n)
}

fn is_expected_key(f: &ProductInterface, deps: &DefinitionTables, key: (ProductDefId, ProductDefId)) -> (r: bool)
    ensures
        r == expected_key(*f, *deps, key),
{
    match f.impls.get(key.0) {
        None => false,
        Some(imp) => match imp.trait_id {
            None => false,
            Some(t) => {
                let members = trait_member_ids(f, deps, ProductDefId::from_def_id(t));
                contains_member(&members, key.1)
            },
        },
    }
}

/// The effective-method keys that no trait impl expects, in table order.
pub open spec fn unexpected_keys(f: ProductInterface, deps: DefinitionTables, s: Seq<((ProductDefId, ProductDefId), ProductDefId)>) -> Seq<(ProductDefId, ProductDefId)>
    decreases s.len(),
{
    if s.len() == 0 {
        Seq::empty()
    } else if !expected_key(f, deps, s.last().0) {
        unexpected_keys(f, deps, s.drop_last()).push(s.last().0)
    } else {
        unexpected_keys(f, deps, s.drop_last())
    }
}

/// The first `n` entries of `s`, or all of them.
pub open spec fn first_n<T>(s: Seq<T>, n: int) -> Seq<T> {
    if s.len() <= n { s } else { s.take(n) }
}

/// The check of each trait impl.
pub open spec fn trait_impl_checks(f: ProductInterface, deps: DefinitionTables) -> spec_fn((ProductDefId, ImplInterface)) -> Result<(), Seq<char>> {
    |e: (ProductDefId, ImplInterface)| trait_impl_outcome(f, deps, e.0, e.1)
}

/// The message for effective-method keys that no trait impl expects; at
/// most eight are listed.
pub open spec fn msg_unexpected_keys(ks: Seq<(ProductDefId, ProductDefId)>) -> Seq<char> {
    "Product artifact effective trait method relation is incomplete or inconsistent; missing=[], extra="@ + keys_text(first_n(ks, 8))
}

/// Checks the method-authority tables of an artifact against its interface
/// and its dependencies: first the generics of every impl, then every trait
/// impl, then the keys of the effective-method relation; the first failure
/// is reported.
#[verifier::loop_isolation(false)]
pub fn validate_product_method_authority_maps(products: &CompilerProducts, dependencies: &DefinitionTables) -> (r: Result<(), String>)
    ensures
        r is Ok <==> authority_maps_ok(products.interface, *dependencies),
        r matches Err(e) ==> {
            let f = products.interface;
            ||| exists|i: int| 0 <= i < f.impls@.len()
                && (forall|j: int| 0 <= j < i ==> impl_generics_ok((#[trigger] f.impls@[j]).0, f.impls@[j].1))
                && generics_error(f.impls@[i].0, f.impls@[i].1, e@)
            ||| (forall|j: int| 0 <= j < f.impls@.len() ==> impl_generics_ok((#[trigger] f.impls@[j]).0, f.impls@[j].1))
                && first_error(f.impls@, trait_impl_checks(f, *dependencies)) == Err::<(), Seq<char>>(e@)
            ||| (forall|j: int| 0 <= j < f.impls@.len() ==> impl_generics_ok((#[trigger] f.impls@[j]).0, f.impls@[j].1))
                && first_error(f.impls@, trait_impl_checks(f, *dependencies)) is Ok
                && unexpected_keys(f, *dependencies, f.effective_trait_methods@).len() > 0
                && e@ == msg_unexpected_keys(unexpected_keys(f, *dependencies, f.effective_trait_methods@))
        },
{
    let f = &products.interface;
    let mut i: usize = 0;
    while i < f.impls.len()
        invariant
            i <= f.impls@.len(),
            forall|j: int| 0 <= j < i ==> impl_generics_ok((#[trigger] f.impls@[j]).0, f.impls@[j].1),
        decreases f.impls@.len() - i,
    {
        let e = f.impls.entry(i);
        let checked = check_impl_generics(e.0, &e.1);
        if checked.is_err() {
            proof {
                assert(!impl_generics_ok(f.impls@[i as int].0, f.impls@[i as int].1));
            }
            return checked;
        }
        i = i + 1;
    }
    let ghost c = trait_impl_checks(*f, *dependencies);
    let mut i: usize = 0;
    while i < f.impls.len()
        invariant
            i <= f.impls@.len(),
            forall|j: int| 0 <= j < f.impls@.len() ==> impl_generics_ok((#[trigger] f.impls@[j]).0, f.impls@[j].1),
            forall|j: int| 0 <= j < i ==> trait_impl_ok(*f, *dependencies, (#[trigger] f.impls@[j]).0, f.impls@[j].1),
            first_error(f.impls@.take(i as int), c) is Ok,
        decreases f.impls@.len() - i,
    {
        let e = f.impls.entry(i);
        let checked = check_trait_impl(f, dependencies, e.0, &e.1);
        if checked.is_err() {
            proof {
                assert(!trait_impl_ok(*f, *dependencies, f.impls@[i as int].0, f.impls@[i as int].1));
                lemma_first_error_at(f.impls@, c, i as int);
            }
            return checked;
        }
        proof {
            lemma_first_error_step(f.impls@, c, i as int);
        }
        i = i + 1;
    }
    proof {
        assert(f.impls@.take(i as int) =~= f.impls@);
    }
    // The report lists at most eight of the unexpected keys.
    let mut extra: Vec<(ProductDefId, ProductDefId)> = Vec::new();
    let mut any_extra = false;
    let mut j: usize = 0;
    while j < f.effective_trait_methods.len()
        invariant
            j <= f.effective_trait_methods@.len(),
            extra@ == first_n(unexpected_keys(*f, *dependencies, f.effective_trait_methods@.take(j as int)), 8),
            any_extra <==> unexpected_keys(*f, *dependencies, f.effective_trait_methods@.take(j as int)).len() > 0,
            !any_extra <==> forall|q: int| 0 <= q < j ==> expected_key(*f, *dependencies, (#[trigger] f.effective_trait_methods@[q]).0),
        decreases f.effective_trait_methods.len() - j,
    {
        let key = f.effective_trait_methods[j].0;
        let ghost before = unexpected_keys(*f, *dependencies, f.effective_trait_methods@.take(j as int));
        proof {
            let t = f.effective_trait_methods@.take(j + 1);
            assert(t.drop_last() =~= f.effective_trait_methods@.take(j as int));
            assert(t.last() == f.effective_trait_methods@[j as int]);
        }
        if !is_expected_key(f, dependencies, key) {
            any_extra = true;
            if extra.len() < 8 {
                extra.push(key);
                proof {
                    assert(extra@ =~= first_n(before.push(key), 8));
                }
            } else {
                proof {
                    assert(before.push(key).take(8) =~= before.take(8));
                }
            }
        }
        j = j + 1;
    }
    if any_extra {
        let mut s = text("Product artifact effective trait method relation is incomplete or inconsistent; missing=[], extra=");
        push_keys(&mut s, &extra);
        proof {
            assert(f.effective_trait_methods@.take(j as int) =~= f.effective_trait_methods@);
        }
        return Err(s);
    }
    Ok(())
}

} // verus!
