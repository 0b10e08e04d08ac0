use vstd::prelude::*;

use crate::collections::{has_key, lookup, IdMap};
use crate::ids::{spec_def_of, AssocTypeId, DefId, ProductDefId, VariantId};
use crate::langitems::{product_debug, push_product_text};
use crate::products::{EnumInterface, OutputItems, ProductInterface, TraitInterface, TraitItem, TryItems, VariantFields};
use crate::render::{def_debug, push_def_debug};
use crate::text::{decimal, outcome_is, push_decimal, push_str, text};
use crate::validator::and_then;
use crate::types::{AssociatedTypeKey, GenericParamId, ReceiverMode, Type};

verus! {

// ----- lists of messages -----

/// The texts of a list of messages.
pub open spec fn views(s: Seq<String>) -> Seq<Seq<char>> {
    s.map_values(|x: String| x@)
}

/// Messages separated by `"; "`.
pub open spec fn join(s: Seq<Seq<char>>) -> Seq<char>
    decreases s.len(),
{
    if s.len() == 0 {
        Seq::empty()
    } else if s.len() == 1 {
        s[0]
    } else {
        join(s.drop_last()) + "; "@ + s.last()
    }
}

fn push_err(errs: &mut Vec<String>, e: String)
    ensures
        views(final(errs)@) == views(old(errs)@).push(e@),
{
    let ghost e0 = e@;
    errs.push(e);
    proof {
        assert(views(errs@) =~= views(old(errs)@).push(e0));
    }
}

/// The messages joined by `"; "`.
pub fn join_errors(errs: &Vec<String>) -> (r: String)
    ensures
        r@ == join(views(errs@)),
{
    let mut s = String::new();
    let mut i: usize = 0;
    proof {
        assert(views(errs@).take(0) =~= Seq::<Seq<char>>::empty());
    }
    while i < errs.len()
        invariant
            i <= errs@.len(),
            s@ == join(views(errs@).take(i as int)),
        decreases errs@.len() - i,
    {
        let ghost x = views(errs@);
        proof {
            assert(x.take(i + 1).drop_last() =~= x.take(i as int));
            assert(x.take(i + 1).last() == errs@[i as int]@);
        }
        if i > 0 {
            push_str(&mut s, "; ");
        } else {
            proof {
                assert(s@ =~= Seq::<char>::empty());
            }
        }
        push_str(&mut s, errs[i].as_str());
        proof {
            assert(s@ =~= join(x.take(i + 1)));
        }
        i = i + 1;
    }
    proof {
        assert(views(errs@).take(errs@.len() as int) =~= views(errs@));
    }
    s
}

// ----- what a definition is -----

/// The `Debug` text of the session definition a product identity stands for.
pub open spec fn dd(p: ProductDefId) -> Seq<char> {
    def_debug(spec_def_of(p))
}

fn push_dd(s: &mut String, p: ProductDefId)
    ensures
        final(s)@ == old(s)@ + dd(p),
{
    push_def_debug(s, crate::ids::product_def_id(p));
}

/// What a product identity names in an interface, as messages say it.
pub open spec fn kind_text(f: ProductInterface, id: ProductDefId) -> Seq<char> {
    if has_key(f.functions@, id) {
        "a function"@
    } else if has_key(f.structs@, id) {
        "a struct"@
    } else if has_key(f.enums@, id) {
        "an enum"@
    } else if has_key(f.traits@, id) {
        "a trait"@
    } else if has_key(f.impls@, id) {
        "an impl"@
    } else if has_key(f.externs@, id) {
        "an extern function"@
    } else {
        "no declaration"@
    }
}

fn push_kind_text(s: &mut String, f: &ProductInterface, id: ProductDefId)
    ensures
        final(s)@ == old(s)@ + kind_text(*f, id),
{
    if f.functions.contains_key(id) {
        push_str(s, "a function");
    } else if f.structs.contains_key(id) {
        push_str(s, "a struct");
    } else if f.enums.contains_key(id) {
        push_str(s, "an enum");
    } else if f.traits.contains_key(id) {
        push_str(s, "a trait");
    } else if f.impls.contains_key(id) {
        push_str(s, "an impl");
    } else if f.externs.contains_key(id) {
        push_str(s, "an extern function");
    } else {
        push_str(s, "no declaration");
    }
}

/// The message for a registry entry that names the wrong kind of
/// definition; `what` is the kind it must name.
pub open spec fn msg_wrong_kind(role: Seq<char>, what: Seq<char>, f: ProductInterface, id: ProductDefId) -> Seq<char> {
    role + " must identify "@ + what + "; "@ + dd(id) + " is "@ + kind_text(f, id)
}

fn wrong_kind(role: &str, what: &str, f: &ProductInterface, id: ProductDefId) -> (r: String)
    ensures
        r@ == msg_wrong_kind(role@, what@, *f, id),
{
    let mut s = text(role);
    push_str(&mut s, " must identify ");
    push_str(&mut s, what);
    push_str(&mut s, "; ");
    push_dd(&mut s, id);
    push_str(&mut s, " is ");
    push_kind_text(&mut s, f, id);
    s
}

// ----- trait members -----

/// The trait declares a required or provided method with this identity.
pub open spec fn declares(t: TraitInterface, d: DefId) -> bool {
    ||| exists|k: int| 0 <= k < t.signatures@.len() && (#[trigger] t.signatures@[k]).1.id == d
    ||| exists|k: int| 0 <= k < t.methods@.len() && (#[trigger] t.methods@[k]).1.id == d
}

fn trait_declares(t: &TraitInterface, d: DefId) -> (r: bool)
    ensures
        r == declares(*t, d),
{
    let mut i: usize = 0;
    while i < t.signatures.len()
        invariant
            i <= t.signatures@.len(),
            forall|k: int| 0 <= k < i ==> (#[trigger] t.signatures@[k]).1.id != d,
        decreases t.signatures@.len() - i,
    {
        if t.signatures[i].1.id == d {
            return true;
        }
        i = i + 1;
    }
    let mut i: usize = 0;
    while i < t.methods.len()
        invariant
            i <= t.methods@.len(),
            forall|k: int| 0 <= k < t.signatures@.len() ==> (#[trigger] t.signatures@[k]).1.id != d,
            forall|k: int| 0 <= k < i ==> (#[trigger] t.methods@[k]).1.id != d,
        decreases t.methods@.len() - i,
    {
        if t.methods[i].1.id == d {
            return true;
        }
        i = i + 1;
    }
    false
}

/// Position `k` holds the first trait that declares `d`.
pub open spec fn first_owner(s: Seq<(ProductDefId, TraitInterface)>, d: DefId, k: int) -> bool {
    &&& 0 <= k < s.len()
    &&& declares(s[k].1, d)
    &&& forall|j: int| 0 <= j < k ==> !declares((#[trigger] s[j]).1, d)
}

fn find_owner(traits: &IdMap<TraitInterface>, d: DefId) -> (r: Option<usize>)
    ensures
        match r {
            Some(k) => first_owner(traits@, d, k as int),
            None => forall|k: int| 0 <= k < traits@.len() ==> !declares((#[trigger] traits@[k]).1, d),
        },
{
    let mut i: usize = 0;
    while i < traits.len()
        invariant
            i <= traits@.len(),
            forall|k: int| 0 <= k < i ==> !declares((#[trigger] traits@[k]).1, d),
        decreases traits@.len() - i,
    {
        if trait_declares(&traits.entry(i).1, d) {
            return Some(i);
        }
        i = i + 1;
    }
    None
}

/// Position `k` holds the first required method with this identity.
pub open spec fn first_sig(t: TraitInterface, d: DefId, k: int) -> bool {
    &&& 0 <= k < t.signatures@.len()
    &&& t.signatures@[k].1.id == d
    &&& forall|j: int| 0 <= j < k ==> (#[trigger] t.signatures@[j]).1.id != d
}

/// Position `k` holds the first provided method with this identity.
pub open spec fn first_method(t: TraitInterface, d: DefId, k: int) -> bool {
    &&& 0 <= k < t.methods@.len()
    &&& t.methods@[k].1.id == d
    &&& forall|j: int| 0 <= j < k ==> (#[trigger] t.methods@[j]).1.id != d
}

/// The receiver, parameters and result of the method `d` of a trait that
/// declares it: the first required method with that identity, or else the
/// first provided one.
pub open spec fn member_parts(t: TraitInterface, d: DefId) -> (Option<ReceiverMode>, Seq<Type>, Type) {
    if exists|k: int| first_sig(t, d, k) {
        let s = t.signatures@[choose|k: int| first_sig(t, d, k)].1;
        (s.self_receiver, s.params@, s.ret)
    } else {
        let m = t.methods@[choose|k: int| first_method(t, d, k)].1;
        (m.self_receiver, m.params@, m.ret_type)
    }
}

fn find_member_parts(t: &TraitInterface, d: DefId) -> (r: (Option<ReceiverMode>, &Vec<Type>, &Type))
    requires
        declares(*t, d),
    ensures
        (r.0, r.1@, *r.2) == member_parts(*t, d),
{
    let mut i: usize = 0;
    while i < t.signatures.len()
        invariant
            i <= t.signatures@.len(),
            forall|k: int| 0 <= k < i ==> (#[trigger] t.signatures@[k]).1.id != d,
        decreases t.signatures@.len() - i,
    {
        let s = &t.signatures[i].1;
        if s.id == d {
            proof {
                assert(first_sig(*t, d, i as int));
                let c = choose|k: int| first_sig(*t, d, k);
                assert(c == i) by {
                    if c < i {
                        assert(t.signatures@[c].1.id != d);
                    } else if c > i {
                        assert(t.signatures@[i as int].1.id != d);
                    }
                }
            }
            return (s.self_receiver, &s.params, &s.ret);
        }
        i = i + 1;
    }
    assert(!exists|k: int| first_sig(*t, d, k));
    let mut i: usize = 0;
    while i < t.methods.len()
        invariant
            i <= t.methods@.len(),
            declares(*t, d),
            forall|k: int| 0 <= k < t.signatures@.len() ==> (#[trigger] t.signatures@[k]).1.id != d,
            forall|k: int| 0 <= k < i ==> (#[trigger] t.methods@[k]).1.id != d,
        decreases t.methods@.len() - i,
    {
        let m = &t.methods[i].1;
        if m.id == d {
            proof {
                assert(first_method(*t, d, i as int));
                let c = choose|k: int| first_method(*t, d, k);
                assert(c == i) by {
                    if c < i {
                        assert(t.methods@[c].1.id != d);
                    } else if c > i {
                        assert(t.methods@[i as int].1.id != d);
                    }
                }
            }
            return (m.self_receiver, &m.params, &m.ret_type);
        }
        i = i + 1;
    }
    // Not reached: `declares` promises a method with this identity.
    proof {
        let k = choose|k: int| 0 <= k < t.methods@.len() && (#[trigger] t.methods@[k]).1.id == d;
        assert(t.methods@[k].1.id != d);
    }
    (None, &t.methods[0].1.params, &t.methods[0].1.ret_type)
}

// ----- the checks shared by the bundles -----

/// The trait that declares `d` first, in key order.
pub open spec fn owner_trait(f: ProductInterface, d: DefId) -> TraitInterface {
    f.traits@[choose|k: int| first_owner(f.traits@, d, k)].1
}

/// The `Self` parameter of a trait with `n` generic parameters.
pub open spec fn self_param(tid: ProductDefId, n: nat) -> GenericParamId {
    GenericParamId { owner: spec_def_of(tid), index: n as u32 }
}

/// A registry entry that must name a trait but does not.
pub open spec fn marker_errors(f: ProductInterface, role: Seq<char>, tid: ProductDefId) -> Seq<Seq<char>> {
    if lookup(f.traits@, tid) is Some {
        seq![]
    } else {
        seq![msg_wrong_kind(role, "a trait"@, f, tid)]
    }
}

/// An associated type the trait does not declare.
pub open spec fn assoc_errors(t: TraitInterface, role: Seq<char>, a: AssocTypeId, tid: ProductDefId) -> Seq<Seq<char>> {
    if exists|k: int| 0 <= k < t.associated_types@.len() && (#[trigger] t.associated_types@[k]).id == a {
        seq![]
    } else {
        seq![role + " AssocTypeId("@ + decimal(a.0 as nat) + ") is not declared by trait "@ + dd(tid)]
    }
}

/// A method that the trait `tid` does not declare: another trait declares
/// it first, or none does.
pub open spec fn member_errors(f: ProductInterface, role: Seq<char>, m: ProductDefId, tid: ProductDefId) -> Seq<Seq<char>> {
    let d = spec_def_of(m);
    if exists|k: int| first_owner(f.traits@, d, k) {
        let o = f.traits@[choose|k: int| first_owner(f.traits@, d, k)].0;
        if o == tid {
            seq![]
        } else {
            seq![role + " "@ + dd(m) + " is owned by trait "@ + dd(o) + ", not "@ + dd(tid)]
        }
    } else {
        seq![role + " "@ + dd(m) + " is not declared by any trait"@]
    }
}

/// A count of declarations other than the one required.
pub open spec fn count_errors(role: Seq<char>, what: Seq<char>, expected: nat, found: nat) -> Seq<Seq<char>> {
    if found == expected {
        seq![]
    } else {
        seq![role + " must declare exactly "@ + decimal(expected) + " "@ + what + "; found "@ + decimal(found)]
    }
}

fn check_assoc(t: &TraitInterface, role: &str, a: AssocTypeId, tid: ProductDefId, errs: &mut Vec<String>)
    ensures
        views(final(errs)@) == views(old(errs)@) + assoc_errors(*t, role@, a, tid),
{
    let mut i: usize = 0;
    while i < t.associated_types.len()
        invariant
            i <= t.associated_types@.len(),
            forall|k: int| 0 <= k < i ==> (#[trigger] t.associated_types@[k]).id != a,
        decreases t.associated_types@.len() - i,
    {
        if t.associated_types[i].id == a {
            proof {
                assert(views(errs@) =~= views(errs@) + Seq::<Seq<char>>::empty());
            }
            return;
        }
        i = i + 1;
    }
    let mut s = text(role);
    push_str(&mut s, " AssocTypeId(");
    push_decimal(&mut s, a.0 as u64);
    push_str(&mut s, ") is not declared by trait ");
    push_dd(&mut s, tid);
    push_err(errs, s);
}

fn check_member(f: &ProductInterface, role: &str, m: ProductDefId, tid: ProductDefId, errs: &mut Vec<String>) -> (r: Option<usize>)
    ensures
        views(final(errs)@) == views(old(errs)@) + member_errors(*f, role@, m, tid),
        match r {
            Some(k) => member_errors(*f, role@, m, tid).len() == 0 && k < f.traits@.len() && f.traits@[k as int].1 == owner_trait(*f, spec_def_of(m))
                && declares(f.traits@[k as int].1, spec_def_of(m)),
            None => member_errors(*f, role@, m, tid).len() > 0,
        },
{
    let d = crate::ids::product_def_id(m);
    match find_owner(&f.traits, d) {
        Some(k) => {
            proof {
                let c = choose|c: int| first_owner(f.traits@, d, c);
                assert(c == k) by {
                    if c < k {
                        assert(!declares(f.traits@[c].1, d));
                    } else if c > k {
                        assert(!declares(f.traits@[k as int].1, d));
                    }
                }
            }
            let o = f.traits.entry(k).0;
            if o == tid {
                proof {
                    assert(views(errs@) =~= views(errs@) + Seq::<Seq<char>>::empty());
                }
                Some(k)
            } else {
                let mut s = text(role);
                push_str(&mut s, " ");
                push_dd(&mut s, m);
                push_str(&mut s, " is owned by trait ");
                push_dd(&mut s, o);
                push_str(&mut s, ", not ");
                push_dd(&mut s, tid);
                push_err(errs, s);
                None
            }
        },
        None => {
            let mut s = text(role);
            push_str(&mut s, " ");
            push_dd(&mut s, m);
            push_str(&mut s, " is not declared by any trait");
            push_err(errs, s);
            None
        },
    }
}

fn check_count(role: &str, what: &str, expected: usize, found: usize, errs: &mut Vec<String>)
    ensures
        views(final(errs)@) == views(old(errs)@) + count_errors(role@, what@, expected as nat, found as nat),
{
    if found == expected {
        proof {
            assert(views(errs@) =~= views(errs@) + Seq::<Seq<char>>::empty());
        }
        return;
    }
    let mut s = text(role);
    push_str(&mut s, " must declare exactly ");
    push_decimal(&mut s, expected as u64);
    push_str(&mut s, " ");
    push_str(&mut s, what);
    push_str(&mut s, "; found ");
    push_decimal(&mut s, found as u64);
    push_err(errs, s);
}

fn check_marker(f: &ProductInterface, role: &str, tid: ProductDefId, errs: &mut Vec<String>)
    ensures
        views(final(errs)@) == views(old(errs)@) + marker_errors(*f, role@, tid),
{
    if f.traits.get(tid).is_some() {
        proof {
            assert(views(errs@) =~= views(errs@) + Seq::<Seq<char>>::empty());
        }
    } else {
        push_err(errs, wrong_kind(role, "a trait", f, tid));
    }
}

// ----- the bundles -----

/// The drop bundle: a trait whose method returns `Unit`.
pub open spec fn drop_errors(f: ProductInterface, tid: ProductDefId, m: ProductDefId) -> Seq<Seq<char>> {
    if lookup(f.traits@, tid) is None {
        seq![msg_wrong_kind("drop.trait"@, "a trait"@, f, tid)]
    } else if member_errors(f, "drop.method"@, m, tid).len() > 0 {
        member_errors(f, "drop.method"@, m, tid)
    } else if member_parts(owner_trait(f, spec_def_of(m)), spec_def_of(m)).2 is Unit {
        seq![]
    } else {
        seq!["drop.method must return Unit"@]
    }
}

fn check_drop(f: &ProductInterface, tid: ProductDefId, m: ProductDefId) -> (errs: Vec<String>)
    ensures
        views(errs@) == drop_errors(*f, tid, m),
{
    let mut errs: Vec<String> = Vec::new();
    proof {
        assert(views(errs@) =~= Seq::<Seq<char>>::empty());
    }
    if f.traits.get(tid).is_none() {
        push_err(&mut errs, wrong_kind("drop.trait", "a trait", f, tid));
        return errs;
    }
    match check_member(f, "drop.method", m, tid, &mut errs) {
        Some(k) => {
            let parts = find_member_parts(&f.traits.entry(k).1, crate::ids::product_def_id(m));
            match parts.2 {
                Type::Unit => {},
                _ => push_err(&mut errs, text("drop.method must return Unit")),
            }
        },
        None => {},
    }
    proof {
        assert(views(errs@) =~= drop_errors(*f, tid, m));
    }
    errs
}

/// `t` is the projection of the associated type `a` of the trait `tid`,
/// with `n` generic parameters, on its `Self`, with arguments `args`.
pub open spec fn is_self_projection(t: Type, tid: ProductDefId, n: nat, a: AssocTypeId, args: Seq<Type>) -> bool {
    match t {
        Type::Projection { ty, trait_id, assoc_type, trait_args } => {
            &&& *ty == Type::Generic(self_param(tid, n))
            &&& trait_id == spec_def_of(tid)
            &&& assoc_type == (AssociatedTypeKey { owner: spec_def_of(tid), assoc_type_id: a })
            &&& trait_args@ == args
        },
        _ => false,
    }
}

fn self_projection(t: &Type, tid: ProductDefId, n: usize, a: AssocTypeId, key: Option<GenericParamId>) -> (r: bool)
    ensures
        r == is_self_projection(*t, tid, n as nat, a, match key {
            Some(g) => seq![Type::Generic(g)],
            None => Seq::empty(),
        }),
{
    let owner = crate::ids::product_def_id(tid);
    match t {
        Type::Projection { ty, trait_id, assoc_type, trait_args } => {
            let self_ok = match &**ty {
                Type::Generic(g) => g.owner == owner && g.index == n as u32,
                _ => false,
            };
            let args_ok = match key {
                Some(kg) => trait_args.len() == 1 && match &trait_args[0] {
                    Type::Generic(g) => *g == kg,
                    _ => false,
                },
                None => trait_args.len() == 0,
            };
            proof {
                if args_ok {
                    match key {
                        Some(kg) => assert(trait_args@ =~= seq![Type::Generic(kg)]),
                        None => assert(trait_args@ =~= Seq::<Type>::empty()),
                    }
                }
            }
            self_ok && *trait_id == owner && assoc_type.owner == owner && assoc_type.assoc_type_id == a && args_ok
        },
        _ => false,
    }
}

/// The shape of the method of `index` (or, when `mutable`, `index_mut`):
/// it takes `Self` by shared (mutable) reference and the key, the trait's
/// first parameter, and returns a shared (mutable) reference to the output
/// on `Self`.
pub open spec fn index_shape_errors(mutable: bool, tid: ProductDefId, out: AssocTypeId, t: TraitInterface, d: DefId) -> Seq<Seq<char>> {
    let parts = member_parts(t, d);
    let key = GenericParamId { owner: spec_def_of(tid), index: 0 };
    let receiver = if parts.0 == Some(if mutable { ReceiverMode::Mut } else { ReceiverMode::Shared }) {
        seq![]
    } else if mutable {
        seq!["index_mut.method must use a mutable receiver"@]
    } else {
        seq!["index.method must use a shared receiver"@]
    };
    let param = if parts.1.len() >= 2 && parts.1[1] == Type::Generic(key) {
        seq![]
    } else if mutable {
        seq!["index_mut.method explicit parameter 0 has the wrong type"@]
    } else {
        seq!["index.method explicit parameter 0 has the wrong type"@]
    };
    let bad = if mutable {
        seq!["index_mut.method must return a mutable reference to index_mut.output on Self"@]
    } else {
        seq!["index.method must return a shared reference to index.output on Self"@]
    };
    let ret = match parts.2 {
        Type::Reference { mutable: m, inner } => if m != mutable {
            bad
        } else {
            match *inner {
                Type::Projection { ty, trait_id, assoc_type, trait_args } => if trait_id != spec_def_of(tid) {
                    if mutable {
                        seq!["index_mut.method return projection must use index_mut.trait"@]
                    } else {
                        seq!["index.method return projection must use index.trait"@]
                    }
                } else if is_self_projection(*inner, tid, t.generic_params@.len(), out, seq![Type::Generic(key)]) {
                    seq![]
                } else {
                    bad
                },
                _ => bad,
            }
        },
        _ => bad,
    };
    receiver + param + ret
}

fn check_index_shape(mutable: bool, tid: ProductDefId, out: AssocTypeId, t: &TraitInterface, d: DefId, errs: &mut Vec<String>)
    requires
        declares(*t, d),
    ensures
        views(final(errs)@) == views(old(errs)@) + index_shape_errors(mutable, tid, out, *t, d),
{
    let ghost e0 = views(errs@);
    let parts = find_member_parts(t, d);
    let key = GenericParamId { owner: crate::ids::product_def_id(tid), index: 0 };
    let want = if mutable { ReceiverMode::Mut } else { ReceiverMode::Shared };
    let receiver_ok = match parts.0 {
        Some(r) => r == want,
        None => false,
    };
    if !receiver_ok {
        if mutable {
            push_err(errs, text("index_mut.method must use a mutable receiver"));
        } else {
            push_err(errs, text("index.method must use a shared receiver"));
        }
    }
    let ghost e1 = views(errs@);
    let param_ok = parts.1.len() >= 2 && match &parts.1[1] {
        Type::Generic(g) => *g == key,
        _ => false,
    };
    if !param_ok {
        if mutable {
            push_err(errs, text("index_mut.method explicit parameter 0 has the wrong type"));
        } else {
            push_err(errs, text("index.method explicit parameter 0 has the wrong type"));
        }
    }
    let ghost e2 = views(errs@);
    let owner = crate::ids::product_def_id(tid);
    let ret_ok: u8 = match parts.2 {
        Type::Reference { mutable: m, inner } => if *m != mutable {
            0
        } else {
            match &**inner {
                Type::Projection { trait_id, .. } => if *trait_id != owner {
                    1
                } else if self_projection(&**inner, tid, t.generic_params.len(), out, Some(key)) {
                    2
                } else {
                    0
                },
                _ => 0,
            }
        },
        _ => 0,
    };
    if ret_ok == 0 {
        if mutable {
            push_err(errs, text("index_mut.method must return a mutable reference to index_mut.output on Self"));
        } else {
            push_err(errs, text("index.method must return a shared reference to index.output on Self"));
        }
    } else if ret_ok == 1 {
        if mutable {
            push_err(errs, text("index_mut.method return projection must use index_mut.trait"));
        } else {
            push_err(errs, text("index.method return projection must use index.trait"));
        }
    }
    proof {
        let sp = index_shape_errors(mutable, tid, out, *t, d);
        assert(e1 =~= e0 + (if receiver_ok { Seq::<Seq<char>>::empty() } else if mutable {
            seq!["index_mut.method must use a mutable receiver"@] } else { seq!["index.method must use a shared receiver"@] }));
        assert(views(errs@) =~= e0 + sp);
    }
}

/// An `Output`-carrying bundle (`index`, `index_mut`, `fn_once`, `fn_mut`,
/// `fn`): the trait declares the output and the method; for the index
/// traits (`index` is `Some(mutable)`) the trait has one parameter, the key,
/// and the method has the index shape.
pub open spec fn output_errors(
    f: ProductInterface,
    roles: (Seq<char>, Seq<char>, Seq<char>),
    tid: ProductDefId,
    out: AssocTypeId,
    m: ProductDefId,
    index: Option<bool>,
) -> Seq<Seq<char>> {
    match lookup(f.traits@, tid) {
        None => seq![msg_wrong_kind(roles.0, "a trait"@, f, tid)],
        Some(t) => {
            let header = (if index is Some { count_errors(roles.0, "generic parameters"@, 1, t.generic_params@.len()) } else { seq![] })
                + assoc_errors(t, roles.1, out, tid) + member_errors(f, roles.2, m, tid);
            if index is Some && header.len() == 0 {
                index_shape_errors(index.unwrap(), tid, out, owner_trait(f, spec_def_of(m)), spec_def_of(m))
            } else {
                header
            }
        },
    }
}

fn check_output(
    f: &ProductInterface,
    roles: (&str, &str, &str),
    tid: ProductDefId,
    out: AssocTypeId,
    m: ProductDefId,
    index: Option<bool>,
) -> (errs: Vec<String>)
    ensures
        views(errs@) == output_errors(*f, (roles.0@, roles.1@, roles.2@), tid, out, m, index),
{
    let mut errs: Vec<String> = Vec::new();
    proof {
        assert(views(errs@) =~= Seq::<Seq<char>>::empty());
    }
    let t = match f.traits.get(tid) {
        Some(t) => t,
        None => {
            push_err(&mut errs, wrong_kind(roles.0, "a trait", f, tid));
            return errs;
        },
    };
    if index.is_some() {
        check_count(roles.0, "generic parameters", 1, t.generic_params.len(), &mut errs);
    } else {
        proof {
            assert(views(errs@) =~= Seq::<Seq<char>>::empty() + Seq::<Seq<char>>::empty());
        }
    }
    let ghost h0 = views(errs@);
    check_assoc(t, roles.1, out, tid, &mut errs);
    let ghost h1 = views(errs@);
    let owner = check_member(f, roles.2, m, tid, &mut errs);
    proof {
        assert(views(errs@) =~= h0 + assoc_errors(*t, roles.1@, out, tid) + member_errors(*f, roles.2@, m, tid));
    }
    match index {
        Some(mutable) => {
            if errs.len() == 0 {
                match owner {
                    Some(k) => {
                        check_index_shape(mutable, tid, out, &f.traits.entry(k).1, crate::ids::product_def_id(m), &mut errs);
                        proof {
                            assert(views(errs@) =~= index_shape_errors(mutable, tid, out, owner_trait(*f, spec_def_of(m)), spec_def_of(m)));
                        }
                    },
                    None => {},
                }
            }
        },
        None => {},
    }
    errs
}

/// The `?` protocol's try trait declares the output, the residual and the
/// branch method, which returns the marked control-flow enum over the
/// residual and the output of `Self`.
pub open spec fn try_trait_errors(f: ProductInterface, x: TryItems<ProductDefId>) -> Seq<Seq<char>> {
    let tid = x.try_trait_id;
    let d = spec_def_of(x.branch_method_id);
    match lookup(f.traits@, tid) {
        None => seq![msg_wrong_kind("try.trait"@, "a trait"@, f, tid)],
        Some(t) => {
            let header = assoc_errors(t, "try.output"@, x.output_id, tid) + assoc_errors(t, "try.residual"@, x.residual_id, tid)
                + member_errors(f, "try.branch"@, x.branch_method_id, tid);
            if header.len() > 0 {
                header
            } else {
                let n = owner_trait(f, d).generic_params@.len();
                match member_parts(owner_trait(f, d), d).2 {
                    Type::Enum { id, args } => if id != spec_def_of(x.control_flow_enum_id) {
                        seq!["try.branch must return the marked control_flow enum"@]
                    } else if args@.len() == 2 && is_self_projection(args@[0], tid, n, x.residual_id, Seq::empty())
                        && is_self_projection(args@[1], tid, n, x.output_id, Seq::empty()) {
                        seq![]
                    } else {
                        seq!["try.branch must return control_flow<Residual, Output>"@]
                    },
                    _ => seq!["try.branch must return control_flow<Residual, Output>"@],
                }
            }
        },
    }
}

/// The `from_residual` trait declares its method, which returns `Self`.
pub open spec fn residual_errors(f: ProductInterface, x: TryItems<ProductDefId>) -> Seq<Seq<char>> {
    let tid = x.from_residual_trait_id;
    let d = spec_def_of(x.from_residual_method_id);
    if lookup(f.traits@, tid) is None {
        seq![msg_wrong_kind("from_residual.trait"@, "a trait"@, f, tid)]
    } else if member_errors(f, "from_residual.method"@, x.from_residual_method_id, tid).len() > 0 {
        member_errors(f, "from_residual.method"@, x.from_residual_method_id, tid)
    } else if member_parts(owner_trait(f, d), d).2 == Type::Generic(self_param(tid, owner_trait(f, d).generic_params@.len())) {
        seq![]
    } else {
        seq!["from_residual.method must return Self"@]
    }
}

/// Position `k` holds the first variant with this identity.
pub open spec fn first_variant(e: EnumInterface, v: VariantId, k: int) -> bool {
    &&& 0 <= k < e.variants@.len()
    &&& e.variants@[k].id == v
    &&& forall|j: int| 0 <= j < k ==> (#[trigger] e.variants@[j]).id != v
}

/// A variant the enum does not declare, or declares without a payload.
pub open spec fn variant_errors(e: EnumInterface, role: Seq<char>, v: VariantId, eid: ProductDefId) -> Seq<Seq<char>> {
    if exists|k: int| first_variant(e, v, k) {
        if e.variants@[choose|k: int| first_variant(e, v, k)].fields is Unit {
            seq![role + " must not be unit"@]
        } else {
            seq![]
        }
    } else {
        seq![role + " VariantId("@ + decimal(v.0 as nat) + ") is not declared by enum "@ + dd(eid)]
    }
}

/// The control-flow enum has two parameters and two variants, break and
/// continue, each with a payload.
pub open spec fn control_flow_errors(f: ProductInterface, x: TryItems<ProductDefId>) -> Seq<Seq<char>> {
    let eid = x.control_flow_enum_id;
    match lookup(f.enums@, eid) {
        None => seq![msg_wrong_kind("control_flow.enum"@, "an enum"@, f, eid)],
        Some(e) => count_errors("control_flow.enum"@, "generic parameters"@, 2, e.generic_params@.len())
            + count_errors("control_flow.enum"@, "variants"@, 2, e.variants@.len())
            + variant_errors(e, "control_flow.break"@, x.break_variant_id, eid)
            + variant_errors(e, "control_flow.continue"@, x.continue_variant_id, eid),
    }
}

/// The `?` protocol bundle.
pub open spec fn try_errors(f: ProductInterface, x: TryItems<ProductDefId>) -> Seq<Seq<char>> {
    try_trait_errors(f, x) + residual_errors(f, x) + control_flow_errors(f, x)
}

fn check_variant(e: &EnumInterface, role: &str, v: VariantId, eid: ProductDefId, errs: &mut Vec<String>)
    ensures
        views(final(errs)@) == views(old(errs)@) + variant_errors(*e, role@, v, eid),
{
    let ghost e0 = views(errs@);
    let mut i: usize = 0;
    while i < e.variants.len()
        invariant
            i <= e.variants@.len(),
            views(errs@) == e0,
            e0 == views(old(errs)@),
            forall|k: int| 0 <= k < i ==> (#[trigger] e.variants@[k]).id != v,
        decreases e.variants@.len() - i,
    {
        if e.variants[i].id == v {
            proof {
                assert(first_variant(*e, v, i as int));
                let c = choose|k: int| first_variant(*e, v, k);
                assert(c == i) by {
                    if c < i {
                        assert(e.variants@[c].id != v);
                    } else if c > i {
                        assert(e.variants@[i as int].id != v);
                    }
                }
            }
            match e.variants[i].fields {
                VariantFields::Unit => {
                    let mut s = text(role);
                    push_str(&mut s, " must not be unit");
                    push_err(errs, s);
                    proof {
                        assert(views(errs@) =~= views(old(errs)@) + variant_errors(*e, role@, v, eid));
                    }
                },
                _ => {
                    proof {
                        assert(views(errs@) =~= views(errs@) + Seq::<Seq<char>>::empty());
                    }
                },
            }
            return;
        }
        i = i + 1;
    }
    let mut s = text(role);
    push_str(&mut s, " VariantId(");
    push_decimal(&mut s, v.0 as u64);
    push_str(&mut s, ") is not declared by enum ");
    push_dd(&mut s, eid);
    push_err(errs, s);
    proof {
        assert(!exists|k: int| first_variant(*e, v, k));
        assert(views(errs@) =~= views(old(errs)@) + variant_errors(*e, role@, v, eid));
    }
}

fn check_try_trait(f: &ProductInterface, x: &TryItems<ProductDefId>, errs: &mut Vec<String>)
    ensures
        views(final(errs)@) == views(old(errs)@) + try_trait_errors(*f, *x),
{
    let ghost e0 = views(errs@);
    let tid = x.try_trait_id;
    let t = match f.traits.get(tid) {
        Some(t) => t,
        None => {
            push_err(errs, wrong_kind("try.trait", "a trait", f, tid));
            return;
        },
    };
    let mut header: Vec<String> = Vec::new();
    proof {
        assert(views(header@) =~= Seq::<Seq<char>>::empty());
    }
    check_assoc(t, "try.output", x.output_id, tid, &mut header);
    check_assoc(t, "try.residual", x.residual_id, tid, &mut header);
    let owner = check_member(f, "try.branch", x.branch_method_id, tid, &mut header);
    let ghost h = views(header@);
    proof {
        assert(h =~= assoc_errors(*t, "try.output"@, x.output_id, tid) + assoc_errors(*t, "try.residual"@, x.residual_id, tid)
            + member_errors(*f, "try.branch"@, x.branch_method_id, tid));
    }
    let mut i: usize = 0;
    while i < header.len()
        invariant
            i <= header@.len(),
            views(errs@) == e0 + views(header@).take(i as int),
        decreases header@.len() - i,
    {
        let e = header[i].clone();
        push_err(errs, e);
        proof {
            assert(views(header@).take(i + 1) =~= views(header@).take(i as int).push(header@[i as int]@));
        }
        i = i + 1;
    }
    proof {
        assert(views(header@).take(header@.len() as int) =~= views(header@));
    }
    if header.len() > 0 {
        return;
    }
    let k = match owner {
        Some(k) => k,
        None => return,
    };
    let ot = &f.traits.entry(k).1;
    let d = crate::ids::product_def_id(x.branch_method_id);
    let parts = find_member_parts(ot, d);
    let n = ot.generic_params.len();
    let ok: u8 = match parts.2 {
        Type::Enum { id, args } => if *id != crate::ids::product_def_id(x.control_flow_enum_id) {
            0
        } else if args.len() == 2 && self_projection(&args[0], tid, n, x.residual_id, None)
            && self_projection(&args[1], tid, n, x.output_id, None) {
            2
        } else {
            1
        },
        _ => 1,
    };
    if ok == 0 {
        push_err(errs, text("try.branch must return the marked control_flow enum"));
    } else if ok == 1 {
        push_err(errs, text("try.branch must return control_flow<Residual, Output>"));
    } else {
        proof {
            assert(views(errs@) =~= views(errs@) + Seq::<Seq<char>>::empty());
        }
    }
}

fn check_residual(f: &ProductInterface, x: &TryItems<ProductDefId>, errs: &mut Vec<String>)
    ensures
        views(final(errs)@) == views(old(errs)@) + residual_errors(*f, *x),
{
    let tid = x.from_residual_trait_id;
    if f.traits.get(tid).is_none() {
        push_err(errs, wrong_kind("from_residual.trait", "a trait", f, tid));
        return;
    }
    let ghost e0 = views(errs@);
    let owner = check_member(f, "from_residual.method", x.from_residual_method_id, tid, errs);
    let k = match owner {
        Some(k) => k,
        None => return,
    };
    proof {
        assert(views(errs@) =~= e0);
    }
    let ot = &f.traits.entry(k).1;
    let parts = find_member_parts(ot, crate::ids::product_def_id(x.from_residual_method_id));
    let is_self = match parts.2 {
        Type::Generic(g) => g.owner == crate::ids::product_def_id(tid) && g.index == ot.generic_params.len() as u32,
        _ => false,
    };
    if is_self {
        proof {
            assert(views(errs@) =~= views(errs@) + Seq::<Seq<char>>::empty());
        }
    } else {
        push_err(errs, text("from_residual.method must return Self"));
    }
}

fn check_control_flow(f: &ProductInterface, x: &TryItems<ProductDefId>, errs: &mut Vec<String>)
    ensures
        views(final(errs)@) == views(old(errs)@) + control_flow_errors(*f, *x),
{
    let eid = x.control_flow_enum_id;
    let e = match f.enums.get(eid) {
        Some(e) => e,
        None => {
            push_err(errs, wrong_kind("control_flow.enum", "an enum", f, eid));
            return;
        },
    };
    let ghost e0 = views(errs@);
    check_count("control_flow.enum", "generic parameters", 2, e.generic_params.len(), errs);
    let ghost e1 = views(errs@);
    check_count("control_flow.enum", "variants", 2, e.variants.len(), errs);
    let ghost e2 = views(errs@);
    check_variant(e, "control_flow.break", x.break_variant_id, eid, errs);
    let ghost e3 = views(errs@);
    check_variant(e, "control_flow.continue", x.continue_variant_id, eid, errs);
    proof {
        assert(views(errs@) =~= e0 + control_flow_errors(*f, *x));
    }
}

fn check_try(f: &ProductInterface, x: &TryItems<ProductDefId>) -> (errs: Vec<String>)
    ensures
        views(errs@) == try_errors(*f, *x),
{
    let mut errs: Vec<String> = Vec::new();
    proof {
        assert(views(errs@) =~= Seq::<Seq<char>>::empty());
    }
    check_try_trait(f, x, &mut errs);
    let ghost e1 = views(errs@);
    check_residual(f, x, &mut errs);
    let ghost e2 = views(errs@);
    check_control_flow(f, x, &mut errs);
    proof {
        assert(views(errs@) =~= try_errors(*f, *x));
    }
    errs
}

// ----- the registry -----

/// A bundle's outcome: its messages joined, after the bundle's role and
/// root entry.
pub open spec fn bundle_outcome(role: Seq<char>, id: ProductDefId, errs: Seq<Seq<char>>) -> Result<(), Seq<char>> {
    if errs.len() == 0 {
        Ok(())
    } else {
        Err("Product artifact language item "@ + role + " "@ + product_debug(id) + ": "@ + join(errs))
    }
}

fn finish(role: &str, id: ProductDefId, errs: &Vec<String>) -> (r: Result<(), String>)
    ensures
        outcome_is(r, bundle_outcome(role@, id, views(errs@))),
{
    if errs.len() == 0 {
        return Ok(());
    }
    let mut s = text("Product artifact language item ");
    push_str(&mut s, role);
    push_str(&mut s, " ");
    push_product_text(&mut s, id);
    push_str(&mut s, ": ");
    let joined = join_errors(errs);
    push_str(&mut s, joined.as_str());
    Err(s)
}

/// The outcome of a marker bundle (`sized`, `send`, `sync`).
pub open spec fn marker_outcome(f: ProductInterface, o: Option<TraitItem<ProductDefId>>, role: Seq<char>) -> Result<(), Seq<char>> {
    match o {
        Some(x) => bundle_outcome(role, x.trait_id, marker_errors(f, role, x.trait_id)),
        None => Ok(()),
    }
}

/// The outcome of an `Output`-carrying bundle.
pub open spec fn output_outcome(
    f: ProductInterface,
    o: Option<OutputItems<ProductDefId>>,
    roles: (Seq<char>, Seq<char>, Seq<char>),
    index: Option<bool>,
) -> Result<(), Seq<char>> {
    match o {
        Some(x) => bundle_outcome(roles.0, x.trait_id, output_errors(f, roles, x.trait_id, x.output_id, x.method_id, index)),
        None => Ok(()),
    }
}

/// The shape check of every bundle of the registry, in registry order: the
/// first bundle with problems is reported with all of its problems.
pub open spec fn bundles_outcome(f: ProductInterface) -> Result<(), Seq<char>> {
    let li = f.language_items;
    and_then(marker_outcome(f, li.sized, "sized.trait"@),
    and_then(match li.drop {
        Some(x) => bundle_outcome("drop.trait"@, x.trait_id, drop_errors(f, x.trait_id, x.method_id)),
        None => Ok(()),
    },
    and_then(output_outcome(f, li.index, ("index.trait"@, "index.output"@, "index.method"@), Some(false)),
    and_then(output_outcome(f, li.index_mut, ("index_mut.trait"@, "index_mut.output"@, "index_mut.method"@), Some(true)),
    and_then(output_outcome(f, li.fn_once, ("fn_once.trait"@, "fn_once.output"@, "fn_once.method"@), None),
    and_then(output_outcome(f, li.fn_mut, ("fn_mut.trait"@, "fn_mut.output"@, "fn_mut.method"@), None),
    and_then(output_outcome(f, li.fn_trait, ("fn.trait"@, "fn.output"@, "fn.method"@), None),
    and_then(marker_outcome(f, li.send, "send.trait"@),
    and_then(marker_outcome(f, li.sync, "sync.trait"@),
    match li.try_protocol {
        Some(x) => bundle_outcome("try.trait"@, x.try_trait_id, try_errors(f, x)),
        None => Ok(()),
    })))))))))
}

fn marker_bundle(f: &ProductInterface, o: &Option<TraitItem<ProductDefId>>, role: &str) -> (r: Result<(), String>)
    ensures
        outcome_is(r, marker_outcome(*f, *o, role@)),
{
    match o {
        Some(x) => {
            let mut errs: Vec<String> = Vec::new();
            proof {
                assert(views(errs@) =~= Seq::<Seq<char>>::empty());
            }
            check_marker(f, role, x.trait_id, &mut errs);
            proof {
                assert(views(errs@) =~= marker_errors(*f, role@, x.trait_id));
            }
            finish(role, x.trait_id, &errs)
        },
        None => Ok(()),
    }
}

fn output_bundle(f: &ProductInterface, o: &Option<OutputItems<ProductDefId>>, roles: (&str, &str, &str), index: Option<bool>) -> (r: Result<(), String>)
    ensures
        outcome_is(r, output_outcome(*f, *o, (roles.0@, roles.1@, roles.2@), index)),
{
    match o {
        Some(x) => {
            let errs = check_output(f, roles, x.trait_id, x.output_id, x.method_id, index);
            finish(roles.0, x.trait_id, &errs)
        },
        None => Ok(()),
    }
}

/// Checks the shape of every bundle of the registry.
pub fn check_bundles(f: &ProductInterface) -> (r: Result<(), String>)
    ensures
        outcome_is(r, bundles_outcome(*f)),
{
    let li = &f.language_items;
    marker_bundle(f, &li.sized, "sized.trait")?;
    match &li.drop {
        Some(x) => {
            let errs = check_drop(f, x.trait_id, x.method_id);
            finish("drop.trait", x.trait_id, &errs)?;
        },
        None => {},
    }
    output_bundle(f, &li.index, ("index.trait", "index.output", "index.method"), Some(false))?;
    output_bundle(f, &li.index_mut, ("index_mut.trait", "index_mut.output", "index_mut.method"), Some(true))?;
    output_bundle(f, &li.fn_once, ("fn_once.trait", "fn_once.output", "fn_once.method"), None)?;
    output_bundle(f, &li.fn_mut, ("fn_mut.trait", "fn_mut.output", "fn_mut.method"), None)?;
    output_bundle(f, &li.fn_trait, ("fn.trait", "fn.output", "fn.method"), None)?;
    marker_bundle(f, &li.send, "send.trait")?;
    marker_bundle(f, &li.sync, "sync.trait")?;
    match &li.try_protocol {
        Some(x) => {
            let errs = check_try(f, x);
            finish("try.trait", x.try_trait_id, &errs)
        },
        None => Ok(()),
    }
}

} // verus!
