use vstd::prelude::*;

use crate::artifact::{alias_view, def_names_view, name_ids_view, ArtifactCrateInterface, ArtifactExport, ResolverTables};
use crate::ids::DefId;
use crate::render::{def_debug, push_def_debug};
use crate::text::{push_str, text};

verus! {

// ----- orders -----

/// `a` comes before `b` in the order of their characters.
pub open spec fn seq_lt(a: Seq<char>, b: Seq<char>) -> bool
    decreases a.len(),
{
    if a.len() == 0 {
        b.len() > 0
    } else if b.len() == 0 {
        false
    } else if a[0] != b[0] {
        a[0] < b[0]
    } else {
        seq_lt(a.drop_first(), b.drop_first())
    }
}

/// The order of text is transitive.
pub proof fn lemma_seq_lt_trans(a: Seq<char>, b: Seq<char>, c: Seq<char>)
    requires
        seq_lt(a, b),
        seq_lt(b, c),
    ensures
        seq_lt(a, c),
    decreases a.len(),
{
    if a.len() > 0 && b.len() > 0 && c.len() > 0 && a[0] == b[0] && b[0] == c[0] {
        lemma_seq_lt_trans(a.drop_first(), b.drop_first(), c.drop_first());
    }
}

/// No text comes before itself.
pub proof fn lemma_seq_lt_irreflexive(a: Seq<char>)
    ensures
        !seq_lt(a, a),
    decreases a.len(),
{
    if a.len() > 0 {
        lemma_seq_lt_irreflexive(a.drop_first());
    }
}

/// Whether `a` comes before `b`.
pub fn str_lt(a: &str, b: &str) -> (r: bool)
    ensures
        r == seq_lt(a@, b@),
{
    let n = a.unicode_len();
    let m = b.unicode_len();
    let mut i: usize = 0;
    assert(a@.skip(0) =~= a@);
    assert(b@.skip(0) =~= b@);
    while i < n && i < m
        invariant
            n == a@.len(),
            m == b@.len(),
            i <= n,
            i <= m,
            seq_lt(a@, b@) == seq_lt(a@.skip(i as int), b@.skip(i as int)),
        decreases n - i,
    {
        let x = a.get_char(i);
        let y = b.get_char(i);
        assert(a@.skip(i as int)[0] == x && b@.skip(i as int)[0] == y);
        if x != y {
            return x < y;
        }
        assert(a@.skip(i as int).drop_first() =~= a@.skip(i + 1));
        assert(b@.skip(i as int).drop_first() =~= b@.skip(i + 1));
        i = i + 1;
    }
    i == n && i < m
}

/// The order of definitions: by crate, then by local number.
pub open spec fn def_lt(a: DefId, b: DefId) -> bool {
    a.crate_id.0 < b.crate_id.0 || (a.crate_id.0 == b.crate_id.0 && a.local.0 < b.local.0)
}

fn def_less(a: DefId, b: DefId) -> (r: bool)
    ensures
        r == def_lt(a, b),
{
    a.crate_id.0 < b.crate_id.0 || (a.crate_id.0 == b.crate_id.0 && a.local.0 < b.local.0)
}

// ----- candidates -----

/// The entries of `s` whose definition is one of `items`.
pub open spec fn kept(items: Seq<DefId>, s: Seq<(Seq<char>, DefId)>) -> Seq<(Seq<char>, DefId)>
    decreases s.len(),
{
    if s.len() == 0 {
        Seq::empty()
    } else if items.contains(s.last().1) {
        kept(items, s.drop_last()).push(s.last())
    } else {
        kept(items, s.drop_last())
    }
}

/// Both names of each root export: its alias and its source.
pub open spec fn export_pairs(s: Seq<(String, ArtifactExport)>) -> Seq<(Seq<char>, DefId)>
    decreases s.len(),
{
    if s.len() == 0 {
        Seq::empty()
    } else {
        export_pairs(s.drop_last()) + seq![(s.last().0@, s.last().1.id), (s.last().1.source@, s.last().1.id)]
    }
}

/// Every name under which a definition of `items` can be found: resolver
/// paths, names, import, export and module aliases, canonical names and
/// root exports.
pub open spec fn candidates(i: ArtifactCrateInterface, r: ResolverTables, items: Seq<DefId>) -> Seq<(Seq<char>, DefId)> {
    kept(items, name_ids_view(r.item_paths@))
        + kept(items, def_names_view(r.item_names_by_id@).map_values(|e: (DefId, Seq<char>)| (e.1, e.0)))
        + kept(items, alias_view(r.import_aliases@).map_values(|e: (Seq<char>, Seq<char>, DefId)| (e.0, e.2)))
        + kept(items, name_ids_view(r.export_aliases@))
        + kept(items, alias_view(r.module_aliases@).map_values(|e: (Seq<char>, Seq<char>, DefId)| (e.0, e.2)))
        + kept(items, def_names_view(i.canonical_names@).map_values(|e: (DefId, Seq<char>)| (e.1, e.0)))
        + kept(items, export_pairs(i.root_export_ids@))
}

fn push_kept(out: &mut Vec<(String, DefId)>, items: &Vec<DefId>, s: &Vec<(String, DefId)>)
    ensures
        name_ids_view(final(out)@) == name_ids_view(old(out)@) + kept(items@, name_ids_view(s@)),
{
    let ghost start = name_ids_view(out@);
    let ghost v = name_ids_view(s@);
    let mut k: usize = 0;
    assert(name_ids_view(out@) =~= start + kept(items@, v.take(0)));
    while k < s.len()
        invariant
            k <= s@.len(),
            v == name_ids_view(s@),
            name_ids_view(out@) == start + kept(items@, v.take(k as int)),
        decreases s@.len() - k,
    {
        assert(v.take(k + 1).drop_last() =~= v.take(k as int));
        assert(v.take(k + 1).last() == (s@[k as int].0@, s@[k as int].1));
        let d = s[k].1;
        let mut found = false;
        let mut j: usize = 0;
        while j < items.len()
            invariant
                j <= items@.len(),
                found == (exists|q: int| 0 <= q < j && items@[q] == d),
            decreases items@.len() - j,
        {
            if items[j] == d {
                found = true;
            }
            j = j + 1;
        }
        assert(found == items@.contains(d));
        if found {
            let ghost before = out@;
            let name = s[k].0.clone();
            out.push((name, d));
            assert(out@ == before.push((name, d)));
            assert(name_ids_view(out@) =~= name_ids_view(before).push((s@[k as int].0@, d)));
            assert(kept(items@, v.take(k + 1)) == kept(items@, v.take(k as int)).push(v.take(k + 1).last()));
            assert(name_ids_view(out@) =~= start + kept(items@, v.take(k + 1)));
        }
        k = k + 1;
    }
    assert(v.take(k as int) =~= v);
}

fn swapped(s: &Vec<(DefId, String)>) -> (r: Vec<(String, DefId)>)
    ensures
        name_ids_view(r@) == def_names_view(s@).map_values(|e: (DefId, Seq<char>)| (e.1, e.0)),
{
    let mut out: Vec<(String, DefId)> = Vec::new();
    let mut k: usize = 0;
    while k < s.len()
        invariant
            k <= s@.len(),
            out@.len() == k,
            forall|j: int| 0 <= j < k ==> (#[trigger] out@[j]).0@ == s@[j].1@ && out@[j].1 == s@[j].0,
        decreases s@.len() - k,
    {
        out.push((s[k].1.clone(), s[k].0));
        k = k + 1;
    }
    assert(name_ids_view(out@) =~= def_names_view(s@).map_values(|e: (DefId, Seq<char>)| (e.1, e.0)));
    out
}

fn alias_names(s: &Vec<(String, String, DefId)>) -> (r: Vec<(String, DefId)>)
    ensures
        name_ids_view(r@) == alias_view(s@).map_values(|e: (Seq<char>, Seq<char>, DefId)| (e.0, e.2)),
{
    let mut out: Vec<(String, DefId)> = Vec::new();
    let mut k: usize = 0;
    while k < s.len()
        invariant
            k <= s@.len(),
            out@.len() == k,
            forall|j: int| 0 <= j < k ==> (#[trigger] out@[j]).0@ == s@[j].0@ && out@[j].1 == s@[j].2,
        decreases s@.len() - k,
    {
        out.push((s[k].0.clone(), s[k].2));
        k = k + 1;
    }
    assert(name_ids_view(out@) =~= alias_view(s@).map_values(|e: (Seq<char>, Seq<char>, DefId)| (e.0, e.2)));
    out
}

fn export_names(s: &Vec<(String, ArtifactExport)>) -> (r: Vec<(String, DefId)>)
    ensures
        name_ids_view(r@) == export_pairs(s@),
{
    let mut out: Vec<(String, DefId)> = Vec::new();
    let mut k: usize = 0;
    while k < s.len()
        invariant
            k <= s@.len(),
            name_ids_view(out@) == export_pairs(s@.take(k as int)),
        decreases s@.len() - k,
    {
        assert(s@.take(k + 1).drop_last() =~= s@.take(k as int));
        out.push((s[k].0.clone(), s[k].1.id));
        out.push((s[k].1.source.clone(), s[k].1.id));
        assert(name_ids_view(out@) =~= export_pairs(s@.take(k + 1)));
        k = k + 1;
    }
    assert(s@.take(k as int) =~= s@);
    out
}

/// Every name under which a definition of `items` can be found.
pub fn name_candidates(interface: &ArtifactCrateInterface, resolver: &ResolverTables, items: &Vec<DefId>) -> (r: Vec<(String, DefId)>)
    ensures
        name_ids_view(r@) == candidates(*interface, *resolver, items@),
{
    let mut out: Vec<(String, DefId)> = Vec::new();
    push_kept(&mut out, items, &resolver.item_paths);
    push_kept(&mut out, items, &swapped(&resolver.item_names_by_id));
    push_kept(&mut out, items, &alias_names(&resolver.import_aliases));
    push_kept(&mut out, items, &resolver.export_aliases);
    push_kept(&mut out, items, &alias_names(&resolver.module_aliases));
    push_kept(&mut out, items, &swapped(&interface.canonical_names));
    push_kept(&mut out, items, &export_names(&interface.root_export_ids));
    assert(name_ids_view(out@) =~= candidates(*interface, *resolver, items@));
    out
}

// ----- conflicts -----

/// Two entries of `c` give the name `n` to different definitions.
pub open spec fn conflicting(c: Seq<(Seq<char>, DefId)>, n: Seq<char>) -> bool {
    exists|i: int, j: int| 0 <= i < c.len() && 0 <= j < c.len() && c[i].0 == n && c[j].0 == n && c[i].1 != c[j].1
}

/// `a` is the least definition that `c` names `n`.
pub open spec fn least_named(c: Seq<(Seq<char>, DefId)>, n: Seq<char>, a: DefId) -> bool {
    &&& exists|i: int| 0 <= i < c.len() && c[i] == (n, a)
    &&& forall|i: int| 0 <= i < c.len() && (#[trigger] c[i]).0 == n ==> !def_lt(c[i].1, a)
}

/// `b` is the least definition other than `a` that `c` names `n`.
pub open spec fn next_named(c: Seq<(Seq<char>, DefId)>, n: Seq<char>, a: DefId, b: DefId) -> bool {
    &&& b != a
    &&& exists|i: int| 0 <= i < c.len() && c[i] == (n, b)
    &&& forall|i: int| 0 <= i < c.len() && (#[trigger] c[i]).0 == n && c[i].1 != a ==> !def_lt(c[i].1, b)
}

/// `e` reports the first name in `c` given to two definitions, with the
/// two least definitions it stands for.
pub open spec fn conflict_error(c: Seq<(Seq<char>, DefId)>, kind: Seq<char>, e: Seq<char>) -> bool {
    exists|n: Seq<char>, a: DefId, b: DefId| {
        &&& conflicting(c, n)
        &&& forall|n2: Seq<char>| conflicting(c, n2) ==> !seq_lt(n2, n)
        &&& least_named(c, n, a)
        &&& next_named(c, n, a, b)
        &&& #[trigger] msg_alias_conflict(kind, n, a, b) == e
    }
}

/// `c` gives no name to two definitions.
pub open spec fn conflict_free(c: Seq<(Seq<char>, DefId)>) -> bool {
    forall|n: Seq<char>| !conflicting(c, n)
}

/// The message for a name given to two definitions.
pub open spec fn msg_alias_conflict(kind: Seq<char>, n: Seq<char>, a: DefId, b: DefId) -> Seq<char> {
    "artifact "@ + kind + " display alias '"@ + n + "' resolves to both "@ + def_debug(a) + " and "@ + def_debug(b)
}

/// Checks that no name is given to two definitions. The first conflict in
/// the order of names is reported, with the two least definitions that
/// name stands for.
#[verifier::loop_isolation(false)]
pub fn check_name_conflicts(c: &Vec<(String, DefId)>, kind: &str) -> (r: Result<(), String>)
    ensures
        r is Ok <==> forall|n: Seq<char>| !conflicting(name_ids_view(c@), n),
        r matches Err(e) ==> exists|n: Seq<char>, a: DefId, b: DefId| {
            &&& conflicting(name_ids_view(c@), n)
            &&& forall|n2: Seq<char>| conflicting(name_ids_view(c@), n2) ==> !seq_lt(n2, n)
            &&& least_named(name_ids_view(c@), n, a)
            &&& next_named(name_ids_view(c@), n, a, b)
            &&& #[trigger] msg_alias_conflict(kind@, n, a, b) == e@
        },
{
    let ghost v = name_ids_view(c@);
    let mut best: Option<usize> = None;
    let mut i: usize = 0;
    while i < c.len()
        invariant
            i <= c@.len(),
            v == name_ids_view(c@),
            best matches Some(b) ==> b < c@.len() && conflicting(v, v[b as int].0),
            forall|k: int| 0 <= k < i && conflicting(v, #[trigger] v[k].0) ==> (best matches Some(b) && !seq_lt(v[k].0, v[b as int].0)),
        decreases c@.len() - i,
    {
        let mut j: usize = 0;
        let mut clash = false;
        while j < c.len()
            invariant
                j <= c@.len(),
                clash == exists|q: int| 0 <= q < j && v[q].0 == v[i as int].0 && v[q].1 != v[i as int].1,
            decreases c@.len() - j,
        {
            assert(v[j as int] == (c@[j as int].0@, c@[j as int].1));
            assert(v[i as int] == (c@[i as int].0@, c@[i as int].1));
            if crate::text::str_eq(c[j].0.as_str(), c[i].0.as_str()) && c[j].1 != c[i].1 {
                clash = true;
            }
            j = j + 1;
        }
        proof {
            if conflicting(v, v[i as int].0) {
                let (p, q) = choose|p: int, q: int| 0 <= p < v.len() && 0 <= q < v.len() && v[p].0 == v[i as int].0
                    && v[q].0 == v[i as int].0 && v[p].1 != v[q].1;
                if v[p].1 != v[i as int].1 {
                    assert(v[p].0 == v[i as int].0 && v[p].1 != v[i as int].1);
                } else {
                    assert(v[q].0 == v[i as int].0 && v[q].1 != v[i as int].1);
                }
            }
            if clash {
                let q = choose|q: int| 0 <= q < j && v[q].0 == v[i as int].0 && v[q].1 != v[i as int].1;
                assert(conflicting(v, v[i as int].0));
            }
        }
        if clash {
            let better = match best {
                Some(b) => str_lt(c[i].0.as_str(), c[b].0.as_str()),
                None => true,
            };
            if better {
                proof {
                    if let Some(b) = best {
                        assert forall|k: int| 0 <= k < i && conflicting(v, #[trigger] v[k].0) implies !seq_lt(v[k].0, v[i as int].0) by {
                            if seq_lt(v[k].0, v[i as int].0) {
                                lemma_seq_lt_trans(v[k].0, v[i as int].0, v[b as int].0);
                            }
                        }
                    }
                    lemma_seq_lt_irreflexive(v[i as int].0);
                }
                best = Some(i);
            }
        }
        i = i + 1;
    }
    match best {
        None => Ok(()),
        Some(b) => {
            let n = &c[b].0;
            let mut a = c[b].1;
            let mut k: usize = 0;
            while k < c.len()
                invariant
                    k <= c@.len(),
                    exists|q: int| 0 <= q < c@.len() && v[q] == (v[b as int].0, a),
                    forall|q: int| 0 <= q < k && (#[trigger] v[q]).0 == v[b as int].0 ==> !def_lt(v[q].1, a),
                decreases c@.len() - k,
            {
                if crate::text::str_eq(c[k].0.as_str(), n.as_str()) && def_less(c[k].1, a) {
                    assert(v[k as int] == (v[b as int].0, c@[k as int].1));
                    a = c[k].1;
                }
                k = k + 1;
            }
            let mut second: Option<DefId> = None;
            let mut k: usize = 0;
            while k < c.len()
                invariant
                    k <= c@.len(),
                    second matches Some(s) ==> s != a && exists|q: int| 0 <= q < c@.len() && v[q] == (v[b as int].0, s),
                    forall|q: int| 0 <= q < k && (#[trigger] v[q]).0 == v[b as int].0 && v[q].1 != a
                        ==> (second matches Some(s) && !def_lt(v[q].1, s)),
                decreases c@.len() - k,
            {
                if crate::text::str_eq(c[k].0.as_str(), n.as_str()) && c[k].1 != a {
                    let take = match second {
                        Some(s) => def_less(c[k].1, s),
                        None => true,
                    };
                    if take {
                        assert(v[k as int] == (v[b as int].0, c@[k as int].1));
                        second = Some(c[k].1);
                    }
                }
                k = k + 1;
            }
            proof {
                let (p, q) = choose|p: int, q: int| 0 <= p < v.len() && 0 <= q < v.len() && v[p].0 == v[b as int].0
                    && v[q].0 == v[b as int].0 && v[p].1 != v[q].1;
                if v[p].1 != a {
                    assert(v[p].0 == v[b as int].0 && v[p].1 != a);
                } else {
                    assert(v[q].0 == v[b as int].0 && v[q].1 != a);
                }
            }
            let s = match second {
                Some(s) => s,
                None => return Err(text("artifact display alias conflict")),
            };
            let mut msg = text("artifact ");
            push_str(&mut msg, kind);
            push_str(&mut msg, " display alias '");
            push_str(&mut msg, n.as_str());
            push_str(&mut msg, "' resolves to both ");
            push_def_debug(&mut msg, a);
            push_str(&mut msg, " and ");
            push_def_debug(&mut msg, s);
            proof {
                assert(msg@ =~= msg_alias_conflict(kind@, v[b as int].0, a, s));
                assert forall|n2: Seq<char>| conflicting(v, n2) implies !seq_lt(n2, v[b as int].0) by {
                    let (p, q) = choose|p: int, q: int| 0 <= p < v.len() && 0 <= q < v.len() && v[p].0 == n2
                        && v[q].0 == n2 && v[p].1 != v[q].1;
                    assert(conflicting(v, v[p].0));
                }
            }
            Err(msg)
        },
    }
}

/// The names of one kind of definition, each with the one definition it
/// stands for.
pub fn artifact_names_for(
    interface: &ArtifactCrateInterface,
    resolver: &ResolverTables,
    items: &Vec<DefId>,
    kind: &str,
) -> (r: Result<Vec<(String, DefId)>, String>)
    ensures
        r is Ok <==> forall|n: Seq<char>| !conflicting(candidates(*interface, *resolver, items@), n),
        r matches Ok(names) ==> name_ids_view(names@) == candidates(*interface, *resolver, items@),
        r matches Err(e) ==> conflict_error(candidates(*interface, *resolver, items@), kind@, e@),
{
    let c = name_candidates(interface, resolver, items);
    check_name_conflicts(&c, kind)?;
    Ok(c)
}


/// For each kind of definition, the names it can be found under.
#[derive(Debug)]
pub struct NameTables {
    pub functions_by_name: Vec<(String, DefId)>,
    pub structs_by_name: Vec<(String, DefId)>,
    pub enums_by_name: Vec<(String, DefId)>,
    pub traits_by_name: Vec<(String, DefId)>,
    pub externs_by_name: Vec<(String, DefId)>,
    pub type_aliases_by_name: Vec<(String, DefId)>,
}

/// The six kinds of named definitions, in the order they are checked.
pub open spec fn kind_name(k: int) -> Seq<char> {
    if k == 0 { "function"@ } else if k == 1 { "struct"@ } else if k == 2 { "enum"@ } else if k == 3 { "trait"@ } else if k == 4 { "extern"@ } else { "type alias"@ }
}

/// The name tables of an interface, given the definitions of each kind:
/// functions, structs, enums, traits, externs and type aliases in that
/// order. Each kind is checked in turn; the first conflict ends it.
pub fn artifact_hir_name_tables(
    interface: &ArtifactCrateInterface,
    resolver: &ResolverTables,
    items: &Vec<Vec<DefId>>,
) -> (r: Result<NameTables, String>)
    requires
        items@.len() == 6,
    ensures
        r is Ok <==> forall|k: int| 0 <= k < 6 ==> conflict_free(candidates(*interface, *resolver, (#[trigger] items@[k])@)),
        r matches Ok(t) ==> {
            &&& name_ids_view(t.functions_by_name@) == candidates(*interface, *resolver, items@[0]@)
            &&& name_ids_view(t.structs_by_name@) == candidates(*interface, *resolver, items@[1]@)
            &&& name_ids_view(t.enums_by_name@) == candidates(*interface, *resolver, items@[2]@)
            &&& name_ids_view(t.traits_by_name@) == candidates(*interface, *resolver, items@[3]@)
            &&& name_ids_view(t.externs_by_name@) == candidates(*interface, *resolver, items@[4]@)
            &&& name_ids_view(t.type_aliases_by_name@) == candidates(*interface, *resolver, items@[5]@)
        },
        r matches Err(e) ==> exists|k: int| 0 <= k < 6 && (forall|j: int| 0 <= j < k ==> conflict_free(candidates(*interface, *resolver, (#[trigger] items@[j])@)))
            && conflict_error(candidates(*interface, *resolver, items@[k]@), #[trigger] kind_name(k), e@),
{
    proof {
        reveal_strlit("function");
        reveal_strlit("struct");
        reveal_strlit("enum");
        reveal_strlit("trait");
        reveal_strlit("extern");
        reveal_strlit("type alias");
    }
    let functions_by_name = match artifact_names_for(interface, resolver, &items[0], "function") {
        Ok(t) => t,
        Err(e) => {
            assert(kind_name(0) == "function"@);
            return Err(e);
        },
    };
    let structs_by_name = match artifact_names_for(interface, resolver, &items[1], "struct") {
        Ok(t) => t,
        Err(e) => {
            assert(kind_name(1) == "struct"@);
            return Err(e);
        },
    };
    let enums_by_name = match artifact_names_for(interface, resolver, &items[2], "enum") {
        Ok(t) => t,
        Err(e) => {
            assert(kind_name(2) == "enum"@);
            return Err(e);
        },
    };
    let traits_by_name = match artifact_names_for(interface, resolver, &items[3], "trait") {
        Ok(t) => t,
        Err(e) => {
            assert(kind_name(3) == "trait"@);
            return Err(e);
        },
    };
    let externs_by_name = match artifact_names_for(interface, resolver, &items[4], "extern") {
        Ok(t) => t,
        Err(e) => {
            assert(kind_name(4) == "extern"@);
            return Err(e);
        },
    };
    let type_aliases_by_name = match artifact_names_for(interface, resolver, &items[5], "type alias") {
        Ok(t) => t,
        Err(e) => {
            assert(kind_name(5) == "type alias"@);
            return Err(e);
        },
    };
    Ok(NameTables { functions_by_name, structs_by_name, enums_by_name, traits_by_name, externs_by_name, type_aliases_by_name })
}

/// The identities of each kind of definition an interface declares:
/// functions, structs, enums, traits, externs and type aliases.
pub open spec fn interface_items(i: ArtifactCrateInterface) -> Seq<Seq<DefId>> {
    seq![
        i.functions@.map_values(|x: crate::products::FunctionInterface| x.id),
        i.structs@.map_values(|x: crate::products::StructInterface| x.id),
        i.enums@.map_values(|x: crate::products::EnumInterface| x.id),
        i.traits@.map_values(|x: crate::products::TraitInterface| x.id),
        i.externs@.map_values(|x: crate::products::ExternInterface| x.id),
        i.type_aliases@.map_values(|x: crate::products::TypeAliasInterface| x.id),
    ]
}

/// Every kind of definition of a loaded interface has conflict-free names.
pub open spec fn interface_names_ok(i: ArtifactCrateInterface, r: ResolverTables) -> bool {
    forall|k: int| 0 <= k < 6 ==> conflict_free(candidates(i, r, #[trigger] interface_items(i)[k]))
}

/// Checks the names of a loaded interface: no name of any kind of
/// definition may stand for two definitions.
pub fn intern_loaded_interface_types(interface: &ArtifactCrateInterface, resolver: &ResolverTables) -> (r: Result<(), String>)
    ensures
        r is Ok <==> interface_names_ok(*interface, *resolver),
        r matches Err(e) ==> exists|k: int| 0 <= k < 6
            && (forall|j: int| 0 <= j < k ==> conflict_free(candidates(*interface, *resolver, #[trigger] interface_items(*interface)[j])))
            && conflict_error(candidates(*interface, *resolver, interface_items(*interface)[k]), #[trigger] kind_name(k), e@),
{
    let mut items: Vec<Vec<DefId>> = Vec::new();
    let mut v: Vec<DefId> = Vec::new();
    let mut k: usize = 0;
    while k < interface.functions.len()
        invariant k <= interface.functions@.len(), v@ == interface.functions@.take(k as int).map_values(|x: crate::products::FunctionInterface| x.id),
        decreases interface.functions@.len() - k,
    {
        v.push(interface.functions[k].id);
        k = k + 1;
        assert(v@ =~= interface.functions@.take(k as int).map_values(|x: crate::products::FunctionInterface| x.id));
    }
    assert(interface.functions@.take(k as int) =~= interface.functions@);
    items.push(v);
    let mut v: Vec<DefId> = Vec::new();
    let mut k: usize = 0;
    while k < interface.structs.len()
        invariant k <= interface.structs@.len(), v@ == interface.structs@.take(k as int).map_values(|x: crate::products::StructInterface| x.id),
        decreases interface.structs@.len() - k,
    {
        v.push(interface.structs[k].id);
        k = k + 1;
        assert(v@ =~= interface.structs@.take(k as int).map_values(|x: crate::products::StructInterface| x.id));
    }
    assert(interface.structs@.take(k as int) =~= interface.structs@);
    items.push(v);
    let mut v: Vec<DefId> = Vec::new();
    let mut k: usize = 0;
    while k < interface.enums.len()
        invariant k <= interface.enums@.len(), v@ == interface.enums@.take(k as int).map_values(|x: crate::products::EnumInterface| x.id),
        decreases interface.enums@.len() - k,
    {
        v.push(interface.enums[k].id);
        k = k + 1;
        assert(v@ =~= interface.enums@.take(k as int).map_values(|x: crate::products::EnumInterface| x.id));
    }
    assert(interface.enums@.take(k as int) =~= interface.enums@);
    items.push(v);
    let mut v: Vec<DefId> = Vec::new();
    let mut k: usize = 0;
    while k < interface.traits.len()
        invariant k <= interface.traits@.len(), v@ == interface.traits@.take(k as int).map_values(|x: crate::products::TraitInterface| x.id),
        decreases interface.traits@.len() - k,
    {
        v.push(interface.traits[k].id);
        k = k + 1;
        assert(v@ =~= interface.traits@.take(k as int).map_values(|x: crate::products::TraitInterface| x.id));
    }
    assert(interface.traits@.take(k as int) =~= interface.traits@);
    items.push(v);
    let mut v: Vec<DefId> = Vec::new();
    let mut k: usize = 0;
    while k < interface.externs.len()
        invariant k <= interface.externs@.len(), v@ == interface.externs@.take(k as int).map_values(|x: crate::products::ExternInterface| x.id),
        decreases interface.externs@.len() - k,
    {
        v.push(interface.externs[k].id);
        k = k + 1;
        assert(v@ =~= interface.externs@.take(k as int).map_values(|x: crate::products::ExternInterface| x.id));
    }
    assert(interface.externs@.take(k as int) =~= interface.externs@);
    items.push(v);
    let mut v: Vec<DefId> = Vec::new();
    let mut k: usize = 0;
    while k < interface.type_aliases.len()
        invariant k <= interface.type_aliases@.len(), v@ == interface.type_aliases@.take(k as int).map_values(|x: crate::products::TypeAliasInterface| x.id),
        decreases interface.type_aliases@.len() - k,
    {
        v.push(interface.type_aliases[k].id);
        k = k + 1;
        assert(v@ =~= interface.type_aliases@.take(k as int).map_values(|x: crate::products::TypeAliasInterface| x.id));
    }
    assert(interface.type_aliases@.take(k as int) =~= interface.type_aliases@);
    items.push(v);
    proof {
        assert forall|k: int| 0 <= k < 6 implies (#[trigger] items@[k])@ == interface_items(*interface)[k] by {}
    }
    match artifact_hir_name_tables(interface, resolver, &items) {
        Ok(_) => Ok(()),
        Err(e) => {
            proof {
                let k = choose|k: int| 0 <= k < 6 && (forall|j: int| 0 <= j < k ==> conflict_free(candidates(*interface, *resolver, (#[trigger] items@[j])@)))
                    && conflict_error(candidates(*interface, *resolver, items@[k]@), #[trigger] kind_name(k), e@);
                assert(items@[k]@ == interface_items(*interface)[k]);
                assert forall|j: int| 0 <= j < k implies conflict_free(candidates(*interface, *resolver, #[trigger] interface_items(*interface)[j])) by {
                    assert(items@[j]@ == interface_items(*interface)[j]);
                }
                assert(conflict_error(candidates(*interface, *resolver, interface_items(*interface)[k]), kind_name(k), e@));
            }
            Err(e)
        },
    }
}


/// Two different texts are ordered one way or the other.
pub proof fn lemma_seq_lt_total(a: Seq<char>, b: Seq<char>)
    requires
        a != b,
    ensures
        seq_lt(a, b) || seq_lt(b, a),
    decreases a.len(),
{
    if a.len() > 0 && b.len() > 0 && a[0] == b[0] {
        if a.drop_first() == b.drop_first() {
            assert(a =~= seq![a[0]] + a.drop_first());
            assert(b =~= seq![b[0]] + b.drop_first());
        }
        lemma_seq_lt_total(a.drop_first(), b.drop_first());
    } else if a.len() == 0 && b.len() == 0 {
        assert(a =~= b);
    }
}

proof fn lemma_conflicting_same_entries(c1: Seq<(Seq<char>, DefId)>, c2: Seq<(Seq<char>, DefId)>, n: Seq<char>)
    requires
        forall|x: (Seq<char>, DefId)| c1.contains(x) ==> c2.contains(x),
        conflicting(c1, n),
    ensures
        conflicting(c2, n),
{
    let (i, j) = choose|i: int, j: int| 0 <= i < c1.len() && 0 <= j < c1.len() && c1[i].0 == n && c1[j].0 == n && c1[i].1 != c1[j].1;
    assert(c1.contains(c1[i]) && c1.contains(c1[j]));
    let p = choose|p: int| 0 <= p < c2.len() && c2[p] == c1[i];
    let q = choose|q: int| 0 <= q < c2.len() && c2[q] == c1[j];
    assert(c2[p].0 == n && c2[q].0 == n && c2[p].1 != c2[q].1);
}

/// The conflict reported for a list of names does not depend on the
/// order of its entries: lists with the same entries report the same
/// conflict.
pub proof fn lemma_conflict_error_stable(
    c1: Seq<(Seq<char>, DefId)>,
    c2: Seq<(Seq<char>, DefId)>,
    kind: Seq<char>,
    e1: Seq<char>,
    e2: Seq<char>,
)
    requires
        forall|x: (Seq<char>, DefId)| c1.contains(x) <==> c2.contains(x),
        conflict_error(c1, kind, e1),
        conflict_error(c2, kind, e2),
    ensures
        e1 == e2,
{
    let (n1, a1, b1) = choose|n: Seq<char>, a: DefId, b: DefId| {
        &&& conflicting(c1, n)
        &&& forall|n2: Seq<char>| conflicting(c1, n2) ==> !seq_lt(n2, n)
        &&& least_named(c1, n, a)
        &&& next_named(c1, n, a, b)
        &&& #[trigger] msg_alias_conflict(kind, n, a, b) == e1
    };
    let (n2, a2, b2) = choose|n: Seq<char>, a: DefId, b: DefId| {
        &&& conflicting(c2, n)
        &&& forall|n2: Seq<char>| conflicting(c2, n2) ==> !seq_lt(n2, n)
        &&& least_named(c2, n, a)
        &&& next_named(c2, n, a, b)
        &&& #[trigger] msg_alias_conflict(kind, n, a, b) == e2
    };
    lemma_conflicting_same_entries(c1, c2, n1);
    lemma_conflicting_same_entries(c2, c1, n2);
    if n1 != n2 {
        lemma_seq_lt_total(n1, n2);
    }
    assert(n1 == n2);
    let i1 = choose|i: int| 0 <= i < c1.len() && c1[i] == (n1, a1);
    let i2 = choose|i: int| 0 <= i < c2.len() && c2[i] == (n1, a2);
    assert(c1.contains(c1[i1]) && c2.contains(c2[i2]));
    let p1 = choose|p: int| 0 <= p < c2.len() && c2[p] == c1[i1];
    let p2 = choose|p: int| 0 <= p < c1.len() && c1[p] == c2[i2];
    assert(!def_lt(c2[p1].1, a2));
    assert(!def_lt(c1[p2].1, a1));
    assert(a1 == a2);
    let j1 = choose|i: int| 0 <= i < c1.len() && c1[i] == (n1, b1);
    let j2 = choose|i: int| 0 <= i < c2.len() && c2[i] == (n1, b2);
    assert(c1.contains(c1[j1]) && c2.contains(c2[j2]));
    let q1 = choose|p: int| 0 <= p < c2.len() && c2[p] == c1[j1];
    let q2 = choose|p: int| 0 <= p < c1.len() && c1[p] == c2[j2];
    assert(!def_lt(c2[q1].1, b2));
    assert(!def_lt(c1[q2].1, b1));
    assert(b1 == b2);
}

} // verus!
