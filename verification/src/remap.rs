use vstd::prelude::*;

use crate::collections::{lookup, lemma_lookup};
use crate::ids::{CrateId, DefId, LocalDefId, ProductCrateId, ProductDefId};
use crate::products::{CompilerProducts, ProductCrateIdentity};
use crate::text::{decimal, concat_num2, push_str, push_decimal, text};

verus! {

/// How the product crates of one artifact map to crates of this session.
#[derive(Debug)]
pub struct ProductIdentityRemap {
    pub local_crate: ProductCrateId,
    pub crate_ids: Vec<(ProductCrateId, CrateId)>,
}

/// The message for a product identity whose crate has no session crate.
pub open spec fn msg_unmapped(id: ProductDefId) -> Seq<char> {
    "Product artifact references unmapped product DefId "@ + decimal(id.crate_id.0 as nat) + "::"@
        + decimal(id.local_id.0 as nat)
}

impl ProductIdentityRemap {
    pub fn new(local_crate: ProductCrateId, crate_ids: Vec<(ProductCrateId, CrateId)>) -> (r: ProductIdentityRemap)
        ensures
            r.local_crate == local_crate,
            r.crate_ids == crate_ids,
    {
        ProductIdentityRemap { local_crate, crate_ids }
    }

    /// The session crate of product crate `c`.
    pub open spec fn spec_crate(self, c: ProductCrateId) -> Option<CrateId> {
        lookup(self.crate_ids@, c)
    }

    /// The session identity of `id`: its local number in the mapped crate.
    pub open spec fn spec_def_id(self, id: ProductDefId) -> Option<DefId> {
        match self.spec_crate(id.crate_id) {
            Some(c) => Some(DefId { crate_id: c, local: LocalDefId(id.local_id.0) }),
            None => None,
        }
    }

    /// Maps product crate `c` to session crate `cc`, replacing an earlier mapping.
    pub fn insert(&mut self, c: ProductCrateId, cc: CrateId)
        ensures
            final(self).local_crate == old(self).local_crate,
            final(self).spec_crate(c) == Some(cc),
            forall|d: ProductCrateId| d != c ==> final(self).spec_crate(d) == old(self).spec_crate(d),
    {
        self.crate_ids.insert(0, (c, cc));
        proof {
            assert(self.crate_ids@.drop_first() =~= old(self).crate_ids@);
        }
    }

    /// The session crate of product crate `c`, if it is mapped.
    pub fn crate_of(&self, c: ProductCrateId) -> (r: Option<CrateId>)
        ensures
            r == self.spec_crate(c),
    {
        match crate::collections::find_id_crate(&self.crate_ids, c) {
            Some(x) => Some(*x),
            None => None,
        }
    }

    /// The session identity of a product identity; an error when its crate
    /// is not mapped.
    pub fn def_id(&self, id: ProductDefId) -> (r: Result<DefId, String>)
        ensures
            match self.spec_def_id(id) {
                Some(d) => r == Ok::<DefId, String>(d),
                None => r matches Err(e) && e@ == msg_unmapped(id),
            },
    {
        match self.crate_of(id.crate_id) {
            Some(c) => Ok(DefId { crate_id: c, local: LocalDefId(id.local_id.0) }),
            None => Err(concat_num2(
                "Product artifact references unmapped product DefId ",
                id.crate_id.0 as u64,
                "::",
                id.local_id.0 as u64,
            )),
        }
    }
}

/// The message for products that do not say which product crate is local.
pub open spec fn msg_no_local_crate(name: Seq<char>) -> Seq<char> {
    "Product artifact for crate '"@ + name + "' has no local product crate ID"@
}

/// Builds the message for products that do not say which product crate is local.
pub fn no_local_crate_message(name: &String) -> (r: String)
    ensures
        r@ == msg_no_local_crate(name@),
{
    let mut s = text("Product artifact for crate '");
    push_str(&mut s, name.as_str());
    push_str(&mut s, "' has no local product crate ID");
    s
}

/// The message for a dependency recorded under the local product crate.
pub open spec fn msg_dependency_is_local(name: Seq<char>, dep: Seq<char>, c: ProductCrateId) -> Seq<char> {
    "Product artifact for crate '"@ + name + "' maps dependency '"@ + dep + "' to local product crate ID "@
        + decimal(c.0 as nat)
}

/// An identity as the values that make it: its name and fingerprint.
pub open spec fn ident(i: ProductCrateIdentity) -> (Seq<char>, u64) {
    (i.name@, i.fingerprint)
}

/// How an identity is shown in messages.
pub open spec fn identity_text(i: (Seq<char>, u64)) -> Seq<char> {
    "ProductCrateIdentity { name: \""@ + i.0 + "\", fingerprint: "@ + decimal(i.1 as nat) + " }"@
}

fn push_identity(s: &mut String, i: &ProductCrateIdentity)
    ensures
        final(s)@ == old(s)@ + identity_text(ident(*i)),
{
    push_str(s, "ProductCrateIdentity { name: \"");
    push_str(s, i.name.as_str());
    push_str(s, "\", fingerprint: ");
    push_decimal(s, i.fingerprint);
    push_str(s, " }");
}

/// The message for a dependency whose name is already known as another identity.
pub open spec fn msg_identity_mismatch(expected: (Seq<char>, u64), loaded: (Seq<char>, u64)) -> Seq<char> {
    "Product artifact dependency identity mismatch for crate '"@ + expected.0 + "': artifact expects "@
        + identity_text(expected) + ", loaded "@ + identity_text(loaded)
}

/// The first identity in `s` with the given name.
pub open spec fn first_named(s: Seq<(Seq<char>, u64)>, name: Seq<char>) -> Option<(Seq<char>, u64)>
    decreases s.len(),
{
    if s.len() == 0 {
        None
    } else if s[0].0 == name {
        Some(s[0])
    } else {
        first_named(s.drop_first(), name)
    }
}

/// The identities recorded in a session, in order.
pub open spec fn recorded(ids: Seq<(ProductCrateIdentity, CrateId)>) -> Seq<(Seq<char>, u64)> {
    ids.map_values(|e: (ProductCrateIdentity, CrateId)| ident(e.0))
}

/// The identities known when dependency `i` of `p` is mapped: those the
/// session recorded before, the artifact's own, and those of its earlier
/// dependencies.
pub open spec fn known_before(ids: Seq<(ProductCrateIdentity, CrateId)>, p: CompilerProducts, i: int) -> Seq<(Seq<char>, u64)> {
    recorded(ids) + seq![ident(p.crate_identity)]
        + p.identity_table.dependencies@.take(i).map_values(|d: (ProductCrateId, ProductCrateIdentity)| ident(d.1))
}

/// Dependency `i` of `p` is recorded under the local product crate, or its
/// name is known as another identity.
pub open spec fn dep_fault(ids: Seq<(ProductCrateIdentity, CrateId)>, p: CompilerProducts, local: ProductCrateId, i: int) -> bool {
    let d = p.identity_table.dependencies@[i];
    ||| d.0 == local
    ||| (first_named(known_before(ids, p, i), d.1.name@) is Some && first_named(known_before(ids, p, i), d.1.name@).unwrap() != ident(d.1))
}

/// The message for the fault of dependency `i` of `p`.
pub open spec fn dep_fault_message(ids: Seq<(ProductCrateIdentity, CrateId)>, p: CompilerProducts, local: ProductCrateId, i: int) -> Seq<char> {
    let d = p.identity_table.dependencies@[i];
    if d.0 == local {
        msg_dependency_is_local(p.crate_identity.name@, d.1.name@, d.0)
    } else {
        msg_identity_mismatch(ident(d.1), first_named(known_before(ids, p, i), d.1.name@).unwrap())
    }
}

/// Dependency `i` of `p` is the first with a fault.
pub open spec fn first_fault(ids: Seq<(ProductCrateIdentity, CrateId)>, p: CompilerProducts, local: ProductCrateId, i: int) -> bool {
    &&& 0 <= i < p.identity_table.dependencies@.len()
    &&& dep_fault(ids, p, local, i)
    &&& forall|j: int| 0 <= j < i ==> !dep_fault(ids, p, local, j)
}

proof fn lemma_first_named_append(s: Seq<(Seq<char>, u64)>, t: Seq<(Seq<char>, u64)>, n: Seq<char>)
    ensures
        first_named(s + t, n) == (if first_named(s, n) is Some { first_named(s, n) } else { first_named(t, n) }),
    decreases s.len(),
{
    if s.len() == 0 {
        assert(s + t =~= t);
    } else {
        assert((s + t).drop_first() =~= s.drop_first() + t);
        lemma_first_named_append(s.drop_first(), t, n);
    }
}

proof fn lemma_first_named_found(s: Seq<(Seq<char>, u64)>, k: int, n: Seq<char>)
    requires
        0 <= k < s.len(),
        s[k].0 == n,
    ensures
        first_named(s, n) is Some,
    decreases s.len(),
{
    if s[0].0 != n {
        lemma_first_named_found(s.drop_first(), k - 1, n);
    }
}

/// Recording `x` in a session whose names read as `known` makes them read
/// as `known` followed by `x`, whether `x` was recorded before or not.
proof fn lemma_record_step(
    before: Seq<(ProductCrateIdentity, CrateId)>,
    after: Seq<(ProductCrateIdentity, CrateId)>,
    x: ProductCrateIdentity,
    known: Seq<(Seq<char>, u64)>,
)
    requires
        forall|n: Seq<char>| #[trigger] first_named(recorded(before), n) == first_named(known, n),
        (after == before && exists|k: int| 0 <= k < before.len() && same_identity((#[trigger] before[k]).0, x))
            || (after.len() == before.len() + 1 && after.drop_last() == before && same_identity(after.last().0, x)),
    ensures
        forall|n: Seq<char>| #[trigger] first_named(recorded(after), n) == first_named(known + seq![ident(x)], n),
{
    assert forall|n: Seq<char>| #[trigger] first_named(recorded(after), n) == first_named(known + seq![ident(x)], n) by {
        let one = seq![ident(x)];
        lemma_first_named_append(known, one, n);
        lemma_first_named_append(recorded(before), one, n);
        assert(first_named(recorded(before), n) == first_named(known, n));
        if after == before {
            let k = choose|k: int| 0 <= k < before.len() && same_identity((#[trigger] before[k]).0, x);
            if n == x.name@ {
                assert(recorded(before)[k].0 == n);
                lemma_first_named_found(recorded(before), k, n);
            } else {
                assert(one.drop_first() =~= Seq::<(Seq<char>, u64)>::empty());
                assert(first_named(one.drop_first(), n) is None);
                assert(first_named(one, n) is None);
            }
        } else {
            assert(ident(after.last().0) == ident(x));
            assert(recorded(after) =~= recorded(before) + one);
        }
    }
}

/// An identity keeps its session crate while the session only grows: a
/// later, well-formed session that extends the earlier one's records gives
/// it the same crate.
pub proof fn lemma_crate_for_stable(before: CrateContext, after: CrateContext, x: ProductCrateIdentity)
    requires
        after.wf(),
        before.spec_crate_for(x) is Some,
        after.product_crate_ids@.len() >= before.product_crate_ids@.len(),
        forall|j: int| 0 <= j < before.product_crate_ids@.len() ==> after.product_crate_ids@[j]
            == #[trigger] before.product_crate_ids@[j],
    ensures
        after.spec_crate_for(x) == before.spec_crate_for(x),
{
    let k = choose|k: int| 0 <= k < before.product_crate_ids@.len() && same_identity((#[trigger] before.product_crate_ids@[k]).0, x);
    assert(after.product_crate_ids@[k] == before.product_crate_ids@[k]);
    let k2 = choose|k2: int| 0 <= k2 < after.product_crate_ids@.len() && same_identity((#[trigger] after.product_crate_ids@[k2]).0, x);
    if k2 != k {
        if k < k2 {
            assert(!same_identity(after.product_crate_ids@[k].0, after.product_crate_ids@[k2].0));
        } else {
            assert(!same_identity(after.product_crate_ids@[k2].0, after.product_crate_ids@[k].0));
        }
    }
}

fn find_named<'a>(s: &'a Vec<(ProductCrateIdentity, CrateId)>, name: &str) -> (r: Option<&'a ProductCrateIdentity>)
    ensures
        match first_named(recorded(s@), name@) {
            Some(v) => r matches Some(x) && ident(*x) == v,
            None => r is None,
        },
{
    let mut i: usize = 0;
    assert(recorded(s@).subrange(0, s@.len() as int) =~= recorded(s@));
    while i < s.len()
        invariant
            i <= s@.len(),
            first_named(recorded(s@), name@) == first_named(recorded(s@).subrange(i as int, s@.len() as int), name@),
        decreases s.len() - i,
    {
        assert(recorded(s@).subrange(i as int, s@.len() as int).drop_first() =~= recorded(s@).subrange(i + 1, s@.len() as int));
        if crate::text::str_eq(s[i].0.name.as_str(), name) {
            return Some(&s[i].0);
        }
        i = i + 1;
    }
    None
}

/// Session crate numbers remain for every identity an artifact brings: its
/// own and one per dependency, counted from `next`.
pub open spec fn numbers_remain(next: u32, p: CompilerProducts) -> bool {
    next as int + p.identity_table.dependencies@.len() + 1 <= u32::MAX as int
}

/// The identities `after` records beyond the first `before.len()` are new
/// ones of `p`, its own or a dependency's, numbered in the order they were
/// recorded from `next`, the session's next free number before; the next
/// free number follows the last of them.
pub open spec fn numbered(before: Seq<(ProductCrateIdentity, CrateId)>, next: u32, p: CompilerProducts, after: CrateContext) -> bool {
    let ids = after.product_crate_ids@;
    let deps = p.identity_table.dependencies@;
    &&& ids.len() >= before.len()
    &&& after.next_crate_id as int == next as int + (ids.len() - before.len())
    &&& forall|j: int| before.len() <= j < ids.len() ==> {
        &&& (#[trigger] ids[j]).1.0 as int == next as int + (j - before.len())
        &&& (ident(ids[j].0) == ident(p.crate_identity)
            || exists|i: int| 0 <= i < deps.len() && ident(ids[j].0) == ident((#[trigger] deps[i]).1))
    }
}

/// `m` renumbers the product crates of `p` into `after`, a session that
/// extends the one whose records were `before` with the identities of `p`:
/// its own crate and each dependency (the last entry for a key) get the
/// session crate of their identity.
pub open spec fn remapped(before: Seq<(ProductCrateIdentity, CrateId)>, p: CompilerProducts, after: CrateContext, m: ProductIdentityRemap) -> bool {
    let deps = p.identity_table.dependencies@;
    &&& after.wf()
    &&& after.product_crate_ids@.len() >= before.len()
    &&& forall|j: int| 0 <= j < before.len() ==> ident((#[trigger] after.product_crate_ids@[j]).0) == ident(before[j].0)
        && after.product_crate_ids@[j].1 == before[j].1
    &&& p.identity_table.local_crate == Some(m.local_crate)
    &&& m.spec_crate(m.local_crate) is Some
    &&& m.spec_crate(m.local_crate) == after.spec_crate_for(p.crate_identity)
    &&& forall|i: int| 0 <= i < deps.len() ==> (#[trigger] deps[i]).0 != m.local_crate && m.spec_crate(deps[i].0) is Some
    &&& forall|i: int| 0 <= i < deps.len() && (forall|j: int| i < j < deps.len() ==> deps[j].0 != deps[i].0)
        ==> m.spec_crate((#[trigger] deps[i]).0) == after.spec_crate_for(deps[i].1)
}

impl ProductIdentityRemap {
    /// The crate mapping for loading `products` into the session: the local
    /// product crate and every dependency get the session crate of their
    /// identity, recorded in `ctx` if it was not yet. A dependency under the
    /// local product crate, or one whose name is known as another identity,
    /// is refused: the first such dependency is reported.
    pub fn from_products(ctx: &mut CrateContext, products: &CompilerProducts) -> (r: Result<ProductIdentityRemap, String>)
        requires
            old(ctx).wf(),
        ensures
            final(ctx).wf(),
            products.identity_table.local_crate is None ==> (r matches Err(e) && e@ == msg_no_local_crate(
                products.crate_identity.name@,
            ) && *final(ctx) == *old(ctx)),
            r is Ok ==> products.identity_table.local_crate is Some && forall|i: int|
                0 <= i < products.identity_table.dependencies@.len() ==> !dep_fault(
                    old(ctx).product_crate_ids@, *products, products.identity_table.local_crate.unwrap(), i),
            products.identity_table.local_crate is Some && (forall|i: int|
                0 <= i < products.identity_table.dependencies@.len() ==> !dep_fault(
                    old(ctx).product_crate_ids@, *products, products.identity_table.local_crate.unwrap(), i))
                && numbers_remain(old(ctx).next_crate_id, *products) ==> r is Ok,
            r matches Err(e) ==> {
                ||| products.identity_table.local_crate is None
                ||| e@ == msg_crate_ids_exhausted() && !numbers_remain(old(ctx).next_crate_id, *products)
                ||| exists|i: int| first_fault(old(ctx).product_crate_ids@, *products, products.identity_table.local_crate.unwrap(), i)
                    && e@ == dep_fault_message(old(ctx).product_crate_ids@, *products, products.identity_table.local_crate.unwrap(), i)
            },
            r matches Ok(m) ==> remapped(old(ctx).product_crate_ids@, *products, *final(ctx), m),
            r is Ok ==> numbered(old(ctx).product_crate_ids@, old(ctx).next_crate_id, *products, *final(ctx)),
            r matches Ok(m) ==> {
                &&& products.identity_table.local_crate == Some(m.local_crate)
                &&& m.spec_crate(m.local_crate) == final(ctx).spec_crate_for(products.crate_identity)
                &&& m.spec_crate(m.local_crate) is Some
                &&& forall|i: int| 0 <= i < products.identity_table.dependencies@.len() ==> {
                    &&& (#[trigger] products.identity_table.dependencies@[i]).0 != m.local_crate
                    &&& m.spec_crate(products.identity_table.dependencies@[i].0) is Some
                }
                &&& forall|i: int| 0 <= i < products.identity_table.dependencies@.len()
                    && (forall|j: int| i < j < products.identity_table.dependencies@.len()
                        ==> products.identity_table.dependencies@[j].0 != products.identity_table.dependencies@[i].0)
                    ==> m.spec_crate((#[trigger] products.identity_table.dependencies@[i]).0)
                        == final(ctx).spec_crate_for(products.identity_table.dependencies@[i].1)
            },
            final(ctx).product_crate_ids@.len() >= old(ctx).product_crate_ids@.len(),
            forall|i: int| 0 <= i < old(ctx).product_crate_ids@.len() ==> final(ctx).product_crate_ids@[i]
                == #[trigger] old(ctx).product_crate_ids@[i],
            final(ctx).extern_crates == old(ctx).extern_crates,
    {
        let local_crate = match products.identity_table.local_crate {
            Some(c) => c,
            None => return Err(no_local_crate_message(&products.crate_identity.name)),
        };
        let ghost old_ids = old(ctx).product_crate_ids@;
        let mut remap = ProductIdentityRemap { local_crate, crate_ids: Vec::new() };
        let local_id = ctx.consumer_crate_id_for_product_identity(&products.crate_identity)?;
        proof {
            if ctx.product_crate_ids@.len() > old_ids.len() {
                assert(ctx.product_crate_ids@.drop_last() == old_ids);
                assert forall|j: int| old_ids.len() <= j < ctx.product_crate_ids@.len() implies
                    (#[trigger] ctx.product_crate_ids@[j]).1.0 as int == old(ctx).next_crate_id as int + (j - old_ids.len())
                    && ident(ctx.product_crate_ids@[j].0) == ident(products.crate_identity) by {
                    assert(j == ctx.product_crate_ids@.len() - 1);
                }
            }
            assert(numbered(old_ids, old(ctx).next_crate_id, *products, *ctx));
            assert forall|n: Seq<char>| #[trigger] first_named(recorded(old_ids), n) == first_named(recorded(old_ids), n) by {}
            if old(ctx).spec_crate_for(products.crate_identity) is None {
                let s = ctx.product_crate_ids@;
                let k = choose|k: int| 0 <= k < s.len() && same_identity((#[trigger] s[k]).0, products.crate_identity);
                if k < s.len() - 1 {
                    assert(s.drop_last()[k] == s[k]);
                }
            }
            lemma_record_step(old_ids, ctx.product_crate_ids@, products.crate_identity, recorded(old_ids));
            assert(known_before(old_ids, *products, 0) =~= recorded(old_ids) + seq![ident(products.crate_identity)]);
            assert forall|j: int| 0 <= j < old_ids.len() implies ctx.product_crate_ids@[j] == #[trigger] old_ids[j] by {
                if ctx.product_crate_ids@.len() > old_ids.len() {
                    assert(ctx.product_crate_ids@.drop_last()[j] == old_ids[j]);
                }
            }
        }
        remap.insert(local_crate, local_id);
        let deps = &products.identity_table.dependencies;
        let mut i: usize = 0;
        while i < deps.len()
            invariant
                i <= deps@.len(),
                ctx.wf(),
                old(ctx).wf(),
                old_ids == old(ctx).product_crate_ids@,
                deps == &products.identity_table.dependencies,
                remap.local_crate == local_crate,
                products.identity_table.local_crate == Some(local_crate),
                remap.spec_crate(local_crate) == Some(local_id),
                ctx.spec_crate_for(products.crate_identity) == Some(local_id),
                forall|n: Seq<char>| #[trigger] first_named(recorded(ctx.product_crate_ids@), n)
                    == first_named(known_before(old_ids, *products, i as int), n),
                forall|j: int| 0 <= j < i ==> !dep_fault(old_ids, *products, local_crate, j),
                forall|j: int| 0 <= j < i ==> {
                    &&& (#[trigger] deps@[j]).0 != local_crate
                    &&& remap.spec_crate(deps@[j].0) is Some
                },
                forall|j: int| 0 <= j < i && (forall|q: int| j < q < i ==> deps@[q].0 != deps@[j].0)
                    ==> remap.spec_crate((#[trigger] deps@[j]).0) == ctx.spec_crate_for(deps@[j].1),
                ctx.product_crate_ids@.len() >= old_ids.len(),
                forall|j: int| 0 <= j < old_ids.len() ==> ctx.product_crate_ids@[j] == #[trigger] old_ids[j],
                ctx.extern_crates == old(ctx).extern_crates,
                ctx.next_crate_id as int <= old(ctx).next_crate_id as int + 1 + i as int,
                numbered(old_ids, old(ctx).next_crate_id, *products, *ctx),
            decreases deps.len() - i,
        {
            let (product_crate, identity) = (deps[i].0, &deps[i].1);
            if product_crate == local_crate {
                let mut s = text("Product artifact for crate '");
                push_str(&mut s, products.crate_identity.name.as_str());
                push_str(&mut s, "' maps dependency '");
                push_str(&mut s, identity.name.as_str());
                push_str(&mut s, "' to local product crate ID ");
                push_decimal(&mut s, product_crate.0 as u64);
                proof {
                    assert(products.identity_table.local_crate.unwrap() == local_crate);
                    assert(dep_fault(old_ids, *products, local_crate, i as int));
                    assert(first_fault(old_ids, *products, local_crate, i as int));
                    assert(s@ =~= dep_fault_message(old_ids, *products, local_crate, i as int));
                    assert(first_fault(old(ctx).product_crate_ids@, *products, products.identity_table.local_crate.unwrap(), i as int));
                }
                return Err(s);
            }
            match find_named(&ctx.product_crate_ids, identity.name.as_str()) {
                Some(loaded) => {
                    if !(crate::text::str_eq(loaded.name.as_str(), identity.name.as_str()) && loaded.fingerprint == identity.fingerprint) {
                        let mut s = text("Product artifact dependency identity mismatch for crate '");
                        push_str(&mut s, identity.name.as_str());
                        push_str(&mut s, "': artifact expects ");
                        push_identity(&mut s, identity);
                        push_str(&mut s, ", loaded ");
                        push_identity(&mut s, loaded);
                        proof {
                            let kb = known_before(old_ids, *products, i as int);
                            assert(first_named(recorded(ctx.product_crate_ids@), identity.name@) == first_named(kb, identity.name@));
                            assert(first_named(kb, identity.name@) == Some(ident(*loaded)));
                            assert(ident(*loaded) != ident(*identity));
                            assert(products.identity_table.local_crate.unwrap() == local_crate);
                            assert(dep_fault(old_ids, *products, local_crate, i as int));
                            assert(first_fault(old_ids, *products, local_crate, i as int));
                            assert(s@ =~= dep_fault_message(old_ids, *products, local_crate, i as int));
                            assert(first_fault(old(ctx).product_crate_ids@, *products, products.identity_table.local_crate.unwrap(), i as int));
                        }
                        return Err(s);
                    }
                },
                None => {},
            }
            proof {
                assert(first_named(recorded(ctx.product_crate_ids@), identity.name@)
                    == first_named(known_before(old_ids, *products, i as int), identity.name@));
                assert(!dep_fault(old_ids, *products, local_crate, i as int));
            }
            let ghost before = ctx.product_crate_ids@;
            let ghost before_ctx = *ctx;
            let c = ctx.consumer_crate_id_for_product_identity(identity)?;
            proof {
                if ctx.product_crate_ids@.len() > before.len() {
                    assert(ctx.product_crate_ids@.drop_last() == before);
                    assert forall|j: int| old_ids.len() <= j < ctx.product_crate_ids@.len() implies {
                        &&& (#[trigger] ctx.product_crate_ids@[j]).1.0 as int == old(ctx).next_crate_id as int + (j - old_ids.len())
                        &&& (ident(ctx.product_crate_ids@[j].0) == ident(products.crate_identity)
                            || exists|q: int| 0 <= q < deps@.len() && ident(ctx.product_crate_ids@[j].0) == ident((#[trigger] deps@[q]).1))
                    } by {
                        if j < before.len() {
                            assert(ctx.product_crate_ids@[j] == before[j]);
                        } else {
                            assert(j == ctx.product_crate_ids@.len() - 1);
                            assert(deps@[i as int].1 == *identity);
                        }
                    }
                } else {
                    assert(*ctx == before_ctx);
                }
                assert(numbered(old_ids, old(ctx).next_crate_id, *products, *ctx));
                if before_ctx.spec_crate_for(*identity) is None {
                    let s = ctx.product_crate_ids@;
                    let k = choose|k: int| 0 <= k < s.len() && same_identity((#[trigger] s[k]).0, *identity);
                    if k < s.len() - 1 {
                        assert(s.drop_last()[k] == s[k]);
                    }
                }
                lemma_record_step(before, ctx.product_crate_ids@, *identity, known_before(old_ids, *products, i as int));
                assert(known_before(old_ids, *products, i + 1) =~= known_before(old_ids, *products, i as int) + seq![ident(*identity)]);
                assert forall|j: int| 0 <= j < before.len() implies ctx.product_crate_ids@[j] == #[trigger] before[j] by {
                    if ctx.product_crate_ids@.len() > before.len() {
                        assert(ctx.product_crate_ids@.drop_last()[j] == before[j]);
                    }
                }
                lemma_crate_for_stable(before_ctx, *ctx, products.crate_identity);
                assert forall|j: int| 0 <= j < i && (forall|q: int| j < q < i + 1 ==> deps@[q].0 != deps@[j].0)
                    implies ctx.spec_crate_for((#[trigger] deps@[j]).1) == before_ctx.spec_crate_for(deps@[j].1) by {
                    assert(deps@[j].0 != deps@[i as int].0);
                    lemma_crate_for_stable(before_ctx, *ctx, deps@[j].1);
                }
            }
            remap.insert(product_crate, c);
            i = i + 1;
        }
        proof {
            assert forall|j: int| 0 <= j < old_ids.len() implies ident((#[trigger] ctx.product_crate_ids@[j]).0) == ident(old_ids[j].0)
                && ctx.product_crate_ids@[j].1 == old_ids[j].1 by {
                assert(ctx.product_crate_ids@[j] == old_ids[j]);
            }
        }
        Ok(remap)
    }
}

/// Two crate identities are the same crate.
pub open spec fn same_identity(a: ProductCrateIdentity, b: ProductCrateIdentity) -> bool {
    a.name@ == b.name@ && a.fingerprint == b.fingerprint
}

/// The session state that loading product artifacts extends: which crate
/// identities already have session crates.
#[derive(Debug)]
pub struct CrateContext {
    pub product_crate_ids: Vec<(ProductCrateIdentity, CrateId)>,
    pub next_crate_id: u32,
    /// The crates loaded so far, in load order.
    pub extern_crates: Vec<crate::artifact::ExternCrateRecord>,
}

/// The message when the session has no crate number left.
pub open spec fn msg_crate_ids_exhausted() -> Seq<char> {
    "Crate context has no crate ID left for another product crate"@
}

impl CrateContext {
    /// Identities are recorded once each, under distinct session crates
    /// that lie below the next free number.
    pub open spec fn wf(self) -> bool {
        &&& forall|i: int, j: int| 0 <= i < j < self.product_crate_ids@.len() ==> !same_identity(
            (#[trigger] self.product_crate_ids@[i]).0,
            (#[trigger] self.product_crate_ids@[j]).0,
        ) && self.product_crate_ids@[i].1 != self.product_crate_ids@[j].1
        &&& forall|i: int| 0 <= i < self.product_crate_ids@.len() ==> 0 < (#[trigger] self.product_crate_ids@[i]).1.0 < self.next_crate_id
        &&& self.next_crate_id >= 1
    }

    /// Checks the session's well-formedness: each identity recorded once,
    /// under distinct session crates between 1 and the next free number.
    pub fn is_wf(&self) -> (r: bool)
        ensures
            r == self.wf(),
    {
        let ids = &self.product_crate_ids;
        if self.next_crate_id < 1 {
            return false;
        }
        let mut i: usize = 0;
        while i < ids.len()
            invariant
                i <= ids@.len(),
                ids == &self.product_crate_ids,
                self.next_crate_id >= 1,
                forall|a: int, b: int| 0 <= a < b < ids@.len() && a < i ==> !same_identity(
                    (#[trigger] ids@[a]).0, (#[trigger] ids@[b]).0) && ids@[a].1 != ids@[b].1,
                forall|a: int| 0 <= a < i ==> 0 < (#[trigger] ids@[a]).1.0 < self.next_crate_id,
            decreases ids@.len() - i,
        {
            let c = ids[i].1;
            if c.0 == 0 || c.0 >= self.next_crate_id {
                return false;
            }
            let mut j: usize = i + 1;
            while j < ids.len()
                invariant
                    i < j <= ids@.len(),
                    ids == &self.product_crate_ids,
                    c == ids@[i as int].1,
                    forall|b: int| i < b < j ==> !same_identity(ids@[i as int].0, (#[trigger] ids@[b]).0)
                        && ids@[i as int].1 != ids@[b].1,
                decreases ids@.len() - j,
            {
                let same = crate::text::str_eq(ids[i].0.name.as_str(), ids[j].0.name.as_str())
                    && ids[i].0.fingerprint == ids[j].0.fingerprint;
                if same || ids[j].1 == c {
                    return false;
                }
                j = j + 1;
            }
            i = i + 1;
        }
        true
    }

    /// The session crate recorded for an identity.
    pub open spec fn spec_crate_for(self, identity: ProductCrateIdentity) -> Option<CrateId> {
        if exists|i: int| 0 <= i < self.product_crate_ids@.len() && same_identity((#[trigger] self.product_crate_ids@[i]).0, identity) {
            let i = choose|i: int| 0 <= i < self.product_crate_ids@.len() && same_identity((#[trigger] self.product_crate_ids@[i]).0, identity);
            Some(self.product_crate_ids@[i].1)
        } else {
            None
        }
    }

    /// A session with no loaded product crates; crate 0 stays for the crate
    /// being compiled.
    pub fn new() -> (r: CrateContext)
        ensures
            r.wf(),
            r.next_crate_id == 1,
            r.loaded_distinct(),
            r.product_crate_ids@.len() == 0,
            r.extern_crates@.len() == 0,
    {
        CrateContext { product_crate_ids: Vec::new(), next_crate_id: 1, extern_crates: Vec::new() }
    }

    /// The session crate for a product crate identity: the one recorded for
    /// it, or a fresh one that is recorded now.
    pub fn consumer_crate_id_for_product_identity(&mut self, identity: &ProductCrateIdentity) -> (r: Result<CrateId, String>)
        requires
            old(self).wf(),
        ensures
            final(self).wf(),
            final(self).next_crate_id as int <= old(self).next_crate_id as int + 1,
            match old(self).spec_crate_for(*identity) {
                Some(c) => r == Ok::<CrateId, String>(c) && *final(self) == *old(self),
                None => match r {
                    Ok(c) => {
                        &&& final(self).spec_crate_for(*identity) == Some(c)
                        &&& c.0 == old(self).next_crate_id
                        &&& final(self).next_crate_id == old(self).next_crate_id + 1
                        &&& final(self).product_crate_ids@.len() == old(self).product_crate_ids@.len() + 1
                        &&& ident(final(self).product_crate_ids@.last().0) == ident(*identity)
                        &&& final(self).product_crate_ids@.last().1 == c
                        &&& final(self).product_crate_ids@.drop_last() == old(self).product_crate_ids@
                        &&& final(self).extern_crates == old(self).extern_crates
                        &&& forall|i: int| 0 <= i < old(self).product_crate_ids@.len() ==> (#[trigger] old(self).product_crate_ids@[i]).1 != c
                    },
                    Err(e) => e@ == msg_crate_ids_exhausted() && old(self).next_crate_id == u32::MAX && *final(self) == *old(self),
                },
            },
    {
        let mut i: usize = 0;
        while i < self.product_crate_ids.len()
            invariant
                i <= self.product_crate_ids@.len(),
                *self == *old(self),
                self.wf(),
                forall|j: int| 0 <= j < i ==> !same_identity((#[trigger] self.product_crate_ids@[j]).0, *identity),
            decreases self.product_crate_ids.len() - i,
        {
            let entry = &self.product_crate_ids[i];
            if crate::text::str_eq(entry.0.name.as_str(), identity.name.as_str()) && entry.0.fingerprint == identity.fingerprint {
                let c = entry.1;
                proof {
                    assert(same_identity(self.product_crate_ids@[i as int].0, *identity));
                    let k = choose|k: int| 0 <= k < self.product_crate_ids@.len() && same_identity((#[trigger] self.product_crate_ids@[k]).0, *identity);
                    if k != i {
                        if k < i {
                            assert(!same_identity(self.product_crate_ids@[k].0, *identity));
                        } else {
                            assert(!same_identity(self.product_crate_ids@[i as int].0, self.product_crate_ids@[k].0));
                        }
                    }
                }
                return Ok(c);
            }
            i = i + 1;
        }
        if self.next_crate_id == u32::MAX {
            return Err(text("Crate context has no crate ID left for another product crate"));
        }
        let c = CrateId(self.next_crate_id);
        self.product_crate_ids.push((identity.copy(), c));
        self.next_crate_id = self.next_crate_id + 1;
        proof {
            let s = self.product_crate_ids@;
            assert(s.drop_last() =~= old(self).product_crate_ids@);
            assert(same_identity(s[s.len() - 1].0, *identity));
            assert forall|a: int, b: int| 0 <= a < b < s.len() implies !same_identity(
                (#[trigger] s[a]).0, (#[trigger] s[b]).0) && s[a].1 != s[b].1 by {
                if b == s.len() - 1 {
                    assert(!same_identity(s[a].0, *identity));
                    assert(s[a].1.0 < old(self).next_crate_id);
                }
            }
            let k = choose|k: int| 0 <= k < s.len() && same_identity((#[trigger] s[k]).0, *identity);
            if k < s.len() - 1 {
                assert(!same_identity(s[k].0, *identity));
            }
            assert forall|j: int| 0 <= j < old(self).product_crate_ids@.len() implies (#[trigger] old(self).product_crate_ids@[j]).1 != c by {
                assert(old(self).product_crate_ids@[j].1.0 < old(self).next_crate_id);
            }
        }
        Ok(c)
    }
}


/// In a well-formed session, recorded identities have the same session
/// crate exactly when they are the same identity.
pub proof fn lemma_distinct_identities_distinct_crates(ctx: CrateContext, a: ProductCrateIdentity, b: ProductCrateIdentity)
    requires
        ctx.wf(),
        ctx.spec_crate_for(a) is Some,
        ctx.spec_crate_for(b) is Some,
    ensures
        same_identity(a, b) ==> ctx.spec_crate_for(a) == ctx.spec_crate_for(b),
        !same_identity(a, b) ==> ctx.spec_crate_for(a) != ctx.spec_crate_for(b),
{
    let s = ctx.product_crate_ids@;
    let i = choose|i: int| 0 <= i < s.len() && same_identity((#[trigger] s[i]).0, a);
    let j = choose|j: int| 0 <= j < s.len() && same_identity((#[trigger] s[j]).0, b);
    if same_identity(a, b) {
        assert(same_identity(s[i].0, b));
        if i != j {
            if i < j {
                assert(!same_identity(s[i].0, s[j].0));
            } else {
                assert(!same_identity(s[j].0, s[i].0));
            }
        }
    } else {
        if i != j {
            if i < j {
                assert(s[i].1 != s[j].1);
            } else {
                assert(s[j].1 != s[i].1);
            }
        }
    }
}

} // verus!
