use vstd::prelude::*;

use crate::collections::{contains_id, contains_value, find_id, find_pair, has_key, has_value, lookup, IdMap};
use crate::hir::{MethodCallTarget, SelectedMethodTarget, SelectedTraitMember};
use crate::ids::{spec_product_of, AssocTypeId, ProductCrateId, ProductDefId};
use crate::types::TypeBinding;
use crate::products::CompilerProducts;
use crate::remap::ProductIdentityRemap;
use crate::render::{list_text, push_list_text};
use crate::text::{concat_num, concat_num2, decimal, outcome_is, push_decimal, push_str, text};
use crate::types::{copy_types, substitute_list, subst_rel, ty_eq, tys_eq, type_lists_equal, ReceiverMode, Type};

verus! {

/// What one crate declares, as far as checking references into it needs.
pub struct DefinitionTables {
    pub structs: Vec<ProductDefId>,
    pub enums: Vec<ProductDefId>,
    pub type_aliases: Vec<ProductDefId>,
    /// Each trait with the associated types it declares.
    pub traits: Vec<(ProductDefId, Vec<AssocTypeId>)>,
    pub trait_generic_counts: Vec<(ProductDefId, usize)>,
    /// Each trait with its provided methods, by name.
    pub trait_methods: Vec<(ProductDefId, Vec<(String, ProductDefId)>)>,
    /// Each trait with its required signatures, by name.
    pub trait_signatures: Vec<(ProductDefId, Vec<(String, ProductDefId)>)>,
    pub impls: Vec<ProductDefId>,
    pub impl_traits: Vec<(ProductDefId, Option<ProductDefId>)>,
    pub impl_trait_args: Vec<(ProductDefId, Vec<Type>)>,
    pub impl_methods: Vec<(ProductDefId, Vec<ProductDefId>)>,
    pub effective_trait_methods: Vec<((ProductDefId, ProductDefId), ProductDefId)>,
    /// Every method of a trait or impl, with or without receiver.
    pub methods: Vec<ProductDefId>,
    /// Impl methods without receiver.
    pub static_methods: Vec<ProductDefId>,
    pub method_receiver_modes: Vec<(ProductDefId, Option<ReceiverMode>)>,
    pub functions: Vec<ProductDefId>,
    pub externs: Vec<ProductDefId>,
}

/// The definitions of the crates an artifact depends on.
pub type ProductDependencyDefinitions = DefinitionTables;

/// Checks that the definitions an artifact references exist and have the
/// kind the reference needs, in the artifact's own crate (`local`) or in
/// its loaded dependencies (`dependency`).
pub struct ProductNominalTypeValidator {
    pub local_crate: ProductCrateId,
    pub local: DefinitionTables,
    pub dependency: DefinitionTables,
}

impl DefinitionTables {
    pub fn new() -> (r: DefinitionTables)
        ensures
            r.structs@.len() == 0,
            r.enums@.len() == 0,
            r.type_aliases@.len() == 0,
            r.traits@.len() == 0,
            r.trait_generic_counts@.len() == 0,
            r.trait_methods@.len() == 0,
            r.trait_signatures@.len() == 0,
            r.impls@.len() == 0,
            r.impl_traits@.len() == 0,
            r.impl_trait_args@.len() == 0,
            r.impl_methods@.len() == 0,
            r.effective_trait_methods@.len() == 0,
            r.methods@.len() == 0,
            r.static_methods@.len() == 0,
            r.method_receiver_modes@.len() == 0,
            r.functions@.len() == 0,
            r.externs@.len() == 0,
    {
        DefinitionTables {
            structs: Vec::new(),
            enums: Vec::new(),
            type_aliases: Vec::new(),
            traits: Vec::new(),
            trait_generic_counts: Vec::new(),
            trait_methods: Vec::new(),
            trait_signatures: Vec::new(),
            impls: Vec::new(),
            impl_traits: Vec::new(),
            impl_trait_args: Vec::new(),
            impl_methods: Vec::new(),
            effective_trait_methods: Vec::new(),
            methods: Vec::new(),
            static_methods: Vec::new(),
            method_receiver_modes: Vec::new(),
            functions: Vec::new(),
            externs: Vec::new(),
        }
    }
}

/// `id` as `crate::local` text.
pub open spec fn qualified(id: ProductDefId) -> Seq<char> {
    decimal(id.crate_id.0 as nat) + "::"@ + decimal(id.local_id.0 as nat)
}

/// The outcome of checking a reference to `id` as a function.
pub open spec fn function_target_outcome(v: ProductNominalTypeValidator, id: ProductDefId) -> Result<(), Seq<char>> {
    let l = decimal(id.local_id.0 as nat);
    if id.crate_id == v.local_crate {
        if v.local.functions@.contains(id) || v.local.static_methods@.contains(id) {
            Ok(())
        } else if v.local.methods@.contains(id) {
            Err("Product artifact references receiver method target "@ + l + " as function"@)
        } else if v.local.externs@.contains(id) {
            Err("Product artifact references extern target "@ + l + " as function"@)
        } else {
            Err("Product artifact references unknown function target "@ + l)
        }
    } else {
        if v.dependency.functions@.contains(id) || v.dependency.static_methods@.contains(id) {
            Ok(())
        } else if v.dependency.methods@.contains(id) {
            Err("Product artifact references dependency receiver method target "@ + qualified(id) + " as function"@)
        } else if v.dependency.externs@.contains(id) {
            Err("Product artifact references dependency extern target "@ + qualified(id) + " as function"@)
        } else {
            Err("Product artifact references unknown dependency function target "@ + qualified(id))
        }
    }
}

/// The outcome of checking a reference to `id` as an extern.
pub open spec fn extern_target_outcome(v: ProductNominalTypeValidator, id: ProductDefId) -> Result<(), Seq<char>> {
    let l = decimal(id.local_id.0 as nat);
    if id.crate_id == v.local_crate {
        if v.local.externs@.contains(id) {
            Ok(())
        } else if v.local.functions@.contains(id) {
            Err("Product artifact references function target "@ + l + " as extern"@)
        } else {
            Err("Product artifact references unknown extern target "@ + l)
        }
    } else {
        if v.dependency.externs@.contains(id) {
            Ok(())
        } else if v.dependency.functions@.contains(id) {
            Err("Product artifact references dependency function target "@ + qualified(id) + " as extern"@)
        } else {
            Err("Product artifact references unknown dependency extern target "@ + qualified(id))
        }
    }
}

/// The outcome of checking a reference to `id` as a nominal type of kind
/// `kind` ("struct" or "enum") whose local and dependency definitions are
/// `local` and `dependency`; `kind` ends the message (" as struct").
pub open spec fn nominal_outcome(
    v: ProductNominalTypeValidator,
    id: ProductDefId,
    local: Seq<ProductDefId>,
    dependency: Seq<ProductDefId>,
    kind: Seq<char>,
) -> Result<(), Seq<char>> {
    if id.crate_id == v.local_crate && !local.contains(id) {
        Err("Product artifact references unknown nominal type definition "@ + decimal(id.local_id.0 as nat) + kind)
    } else if id.crate_id != v.local_crate && !dependency.contains(id) {
        Err("Product artifact references unknown dependency nominal type definition "@ + qualified(id) + kind)
    } else {
        Ok(())
    }
}

/// The outcome of checking a reference to `id` as a type alias.
pub open spec fn type_alias_outcome(v: ProductNominalTypeValidator, id: ProductDefId) -> Result<(), Seq<char>> {
    if id.crate_id == v.local_crate && !v.local.type_aliases@.contains(id) {
        Err("Product artifact references unknown type alias definition "@ + decimal(id.local_id.0 as nat))
    } else if id.crate_id != v.local_crate && !v.dependency.type_aliases@.contains(id) {
        Err("Product artifact references unknown dependency type alias definition "@ + qualified(id))
    } else {
        Ok(())
    }
}

/// The outcome of checking a projection `<_ as trait_id>::assoc` whose
/// associated type is declared by `owner`.
pub open spec fn projection_outcome(
    v: ProductNominalTypeValidator,
    trait_id: ProductDefId,
    owner: ProductDefId,
    assoc: AssocTypeId,
) -> Result<(), Seq<char>> {
    if owner != trait_id {
        Err("Product artifact projection trait "@ + decimal(trait_id.local_id.0 as nat)
            + " does not match associated type owner "@ + decimal(owner.local_id.0 as nat))
    } else if trait_id.crate_id == v.local_crate && lookup(v.local.traits@, trait_id) is None {
        Err("Product artifact references unknown trait definition "@ + decimal(trait_id.local_id.0 as nat)
            + " in projection"@)
    } else if trait_id.crate_id != v.local_crate && lookup(v.dependency.traits@, trait_id) is None {
        Err("Product artifact references unknown dependency trait definition "@ + qualified(trait_id)
            + " in projection"@)
    } else if owner.crate_id == v.local_crate {
        if !lookup(v.local.traits@, owner).unwrap()@.contains(assoc) {
            Err("Product artifact references unknown associated type ID "@ + decimal(assoc.0 as nat)
                + " on trait "@ + decimal(owner.local_id.0 as nat))
        } else {
            Ok(())
        }
    } else {
        if !lookup(v.dependency.traits@, owner).unwrap()@.contains(assoc) {
            Err("Product artifact references unknown dependency associated type ID "@ + decimal(assoc.0 as nat)
                + " on trait "@ + qualified(owner))
        } else {
            Ok(())
        }
    }
}

fn contains_assoc(s: &Vec<AssocTypeId>, k: AssocTypeId) -> (r: bool)
    ensures
        r == s@.contains(k),
{
    let mut i: usize = 0;
    while i < s.len()
        invariant
            i <= s@.len(),
            forall|j: int| 0 <= j < i ==> s@[j] != k,
        decreases s.len() - i,
    {
        if s[i] == k {
            assert(s@[i as int] == k);
            return true;
        }
        i = i + 1;
    }
    false
}

fn qualified_message(prefix: &str, id: ProductDefId, suffix: &str) -> (r: String)
    ensures
        r@ == prefix@ + qualified(id) + suffix@,
{
    let mut s = text(prefix);
    push_decimal(&mut s, id.crate_id.0 as u64);
    push_str(&mut s, "::");
    push_decimal(&mut s, id.local_id.0 as u64);
    push_str(&mut s, suffix);
    proof {
        assert(s@ =~= prefix@ + qualified(id) + suffix@);
    }
    s
}

fn qualified_message0(prefix: &str, id: ProductDefId) -> (r: String)
    ensures
        r@ == prefix@ + qualified(id),
{
    let mut s = text(prefix);
    push_decimal(&mut s, id.crate_id.0 as u64);
    push_str(&mut s, "::");
    push_decimal(&mut s, id.local_id.0 as u64);
    proof {
        assert(s@ =~= prefix@ + qualified(id));
    }
    s
}

fn local_message(prefix: &str, n: u32, suffix: &str) -> (r: String)
    ensures
        r@ == prefix@ + decimal(n as nat) + suffix@,
{
    let mut s = text(prefix);
    push_decimal(&mut s, n as u64);
    push_str(&mut s, suffix);
    s
}

impl ProductNominalTypeValidator {
    /// Checks a resolved variable that names `id` as a function.
    pub fn validate_function_target(&self, id: ProductDefId, _name: &str) -> (r: Result<(), String>)
        ensures
            outcome_is(r, function_target_outcome(*self, id)),
    {
        if id.crate_id == self.local_crate {
            if contains_id(&self.local.functions, id) {
                return Ok(());
            }
            if contains_id(&self.local.static_methods, id) {
                return Ok(());
            }
            if contains_id(&self.local.methods, id) {
                return Err(local_message("Product artifact references receiver method target ", id.local_id.0, " as function"));
            }
            if contains_id(&self.local.externs, id) {
                return Err(local_message("Product artifact references extern target ", id.local_id.0, " as function"));
            }
            return Err(concat_num("Product artifact references unknown function target ", id.local_id.0 as u64));
        }
        if contains_id(&self.dependency.functions, id) {
            return Ok(());
        }
        if contains_id(&self.dependency.static_methods, id) {
            return Ok(());
        }
        if contains_id(&self.dependency.methods, id) {
            return Err(qualified_message("Product artifact references dependency receiver method target ", id, " as function"));
        }
        if contains_id(&self.dependency.externs, id) {
            return Err(qualified_message("Product artifact references dependency extern target ", id, " as function"));
        }
        Err(qualified_message0("Product artifact references unknown dependency function target ", id))
    }

    /// Checks a resolved variable that names `id` as an extern.
    pub fn validate_extern_target(&self, id: ProductDefId, _name: &str) -> (r: Result<(), String>)
        ensures
            outcome_is(r, extern_target_outcome(*self, id)),
    {
        if id.crate_id == self.local_crate {
            if contains_id(&self.local.externs, id) {
                return Ok(());
            }
            if contains_id(&self.local.functions, id) {
                return Err(local_message("Product artifact references function target ", id.local_id.0, " as extern"));
            }
            return Err(concat_num("Product artifact references unknown extern target ", id.local_id.0 as u64));
        }
        if contains_id(&self.dependency.externs, id) {
            return Ok(());
        }
        if contains_id(&self.dependency.functions, id) {
            return Err(qualified_message("Product artifact references dependency function target ", id, " as extern"));
        }
        Err(qualified_message0("Product artifact references unknown dependency extern target ", id))
    }

    /// Checks a call whose target is the function `id`; the rules are those
    /// of a resolved variable naming it.
    pub fn validate_function_call_target(&self, id: ProductDefId) -> (r: Result<(), String>)
        ensures
            outcome_is(r, function_target_outcome(*self, id)),
    {
        self.validate_function_target(id, "")
    }

    /// Checks a call whose target is the extern `id`.
    pub fn validate_extern_call_target(&self, id: ProductDefId) -> (r: Result<(), String>)
        ensures
            outcome_is(r, extern_target_outcome(*self, id)),
    {
        self.validate_extern_target(id, "")
    }

    /// Checks a reference to `id` as a struct.
    pub fn validate_struct(&self, id: ProductDefId) -> (r: Result<(), String>)
        ensures
            outcome_is(r, nominal_outcome(*self, id, self.local.structs@, self.dependency.structs@, " as struct"@)),
    {
        if id.crate_id == self.local_crate && !contains_id(&self.local.structs, id) {
            return Err(local_message("Product artifact references unknown nominal type definition ", id.local_id.0, " as struct"));
        }
        if id.crate_id != self.local_crate && !contains_id(&self.dependency.structs, id) {
            return Err(qualified_message("Product artifact references unknown dependency nominal type definition ", id, " as struct"));
        }
        Ok(())
    }

    /// Checks a reference to `id` as an enum.
    pub fn validate_enum(&self, id: ProductDefId) -> (r: Result<(), String>)
        ensures
            outcome_is(r, nominal_outcome(*self, id, self.local.enums@, self.dependency.enums@, " as enum"@)),
    {
        if id.crate_id == self.local_crate && !contains_id(&self.local.enums, id) {
            return Err(local_message("Product artifact references unknown nominal type definition ", id.local_id.0, " as enum"));
        }
        if id.crate_id != self.local_crate && !contains_id(&self.dependency.enums, id) {
            return Err(qualified_message("Product artifact references unknown dependency nominal type definition ", id, " as enum"));
        }
        Ok(())
    }

    /// Checks a reference to `id` as a type alias.
    pub fn validate_type_alias(&self, id: ProductDefId) -> (r: Result<(), String>)
        ensures
            outcome_is(r, type_alias_outcome(*self, id)),
    {
        if id.crate_id == self.local_crate && !contains_id(&self.local.type_aliases, id) {
            return Err(concat_num("Product artifact references unknown type alias definition ", id.local_id.0 as u64));
        }
        if id.crate_id != self.local_crate && !contains_id(&self.dependency.type_aliases, id) {
            return Err(qualified_message0("Product artifact references unknown dependency type alias definition ", id));
        }
        Ok(())
    }

    /// Checks a projection of associated type `assoc`, declared by `owner`,
    /// through trait `trait_id`.
    pub fn validate_projection(&self, trait_id: ProductDefId, owner: ProductDefId, assoc: AssocTypeId) -> (r: Result<(), String>)
        ensures
            outcome_is(r, projection_outcome(*self, trait_id, owner, assoc)),
    {
        if owner != trait_id {
            let mut s = text("Product artifact projection trait ");
            push_decimal(&mut s, trait_id.local_id.0 as u64);
            push_str(&mut s, " does not match associated type owner ");
            push_decimal(&mut s, owner.local_id.0 as u64);
            return Err(s);
        }
        if trait_id.crate_id == self.local_crate && find_id(&self.local.traits, trait_id).is_none() {
            return Err(local_message("Product artifact references unknown trait definition ", trait_id.local_id.0, " in projection"));
        }
        if trait_id.crate_id != self.local_crate && find_id(&self.dependency.traits, trait_id).is_none() {
            return Err(qualified_message("Product artifact references unknown dependency trait definition ", trait_id, " in projection"));
        }
        if owner.crate_id == self.local_crate {
            let assocs = find_id(&self.local.traits, owner).unwrap();
            if !contains_assoc(assocs, assoc) {
                let mut s = text("Product artifact references unknown associated type ID ");
                push_decimal(&mut s, assoc.0 as u64);
                push_str(&mut s, " on trait ");
                push_decimal(&mut s, owner.local_id.0 as u64);
                return Err(s);
            }
        } else {
            let assocs = find_id(&self.dependency.traits, owner).unwrap();
            if !contains_assoc(assocs, assoc) {
                let mut s = text("Product artifact references unknown dependency associated type ID ");
                push_decimal(&mut s, assoc.0 as u64);
                push_str(&mut s, " on trait ");
                push_decimal(&mut s, owner.crate_id.0 as u64);
                push_str(&mut s, "::");
                push_decimal(&mut s, owner.local_id.0 as u64);
                proof {
                    assert(s@ =~= "Product artifact references unknown dependency associated type ID "@ + decimal(assoc.0 as nat)
                        + " on trait "@ + qualified(owner));
                }
                return Err(s);
            }
        }
        Ok(())
    }
}


/// The tables of the crate that `id` belongs to: the artifact's own crate
/// or its dependencies.
pub open spec fn side(v: ProductNominalTypeValidator, id: ProductDefId) -> DefinitionTables {
    if id.crate_id == v.local_crate {
        v.local
    } else {
        v.dependency
    }
}

/// The outcome of checking that `trait_id` is given `found` arguments.
pub open spec fn arity_outcome(v: ProductNominalTypeValidator, trait_id: ProductDefId, found: nat) -> Result<(), Seq<char>> {
    match lookup(side(v, trait_id).trait_generic_counts@, trait_id) {
        None => Err("Product artifact references unknown trait target "@ + qualified(trait_id)
            + " while validating trait arguments"@),
        Some(n) => if found != n {
            Err("Product artifact method authority trait argument arity mismatch for "@ + qualified(trait_id)
                + ": expected "@ + decimal(n as nat) + ", found "@ + decimal(found))
        } else {
            Ok(())
        },
    }
}

/// Whether `impl_id` lists `method_id` among its methods.
pub open spec fn impl_owns(t: DefinitionTables, impl_id: ProductDefId, method_id: ProductDefId) -> bool {
    lookup(t.impl_methods@, impl_id) matches Some(ms) && ms@.contains(method_id)
}

/// Whether `trait_id` lists `member_id` among its methods or signatures.
pub open spec fn trait_owns(t: DefinitionTables, trait_id: ProductDefId, member_id: ProductDefId) -> bool {
    ||| lookup(t.trait_methods@, trait_id) matches Some(ms) && has_value(ms@, member_id)
    ||| lookup(t.trait_signatures@, trait_id) matches Some(ms) && has_value(ms@, member_id)
}

/// The outcome of checking that `method_id` is a method of impl `impl_id`.
pub open spec fn impl_method_outcome(v: ProductNominalTypeValidator, impl_id: ProductDefId, method_id: ProductDefId) -> Result<(), Seq<char>> {
    if impl_id.crate_id == v.local_crate && !v.local.impls@.contains(impl_id) {
        Err("Product artifact references unknown impl target "@ + decimal(impl_id.local_id.0 as nat) + " in method call"@)
    } else if impl_id.crate_id != v.local_crate && !v.dependency.impls@.contains(impl_id) {
        Err("Product artifact references unknown dependency impl target "@ + qualified(impl_id) + " in method call"@)
    } else if !impl_owns(side(v, impl_id), impl_id, method_id) {
        Err("Product artifact impl target "@ + decimal(impl_id.local_id.0 as nat) + " does not own selected method target "@
            + decimal(method_id.local_id.0 as nat))
    } else {
        Ok(())
    }
}

/// The outcome of checking that `member_id` is a member of trait `trait_id`.
pub open spec fn trait_member_outcome(v: ProductNominalTypeValidator, trait_id: ProductDefId, member_id: ProductDefId) -> Result<(), Seq<char>> {
    if trait_id.crate_id == v.local_crate && !has_key(v.local.traits@, trait_id) {
        Err("Product artifact references unknown trait target "@ + decimal(trait_id.local_id.0 as nat) + " in method call"@)
    } else if trait_id.crate_id != v.local_crate && !has_key(v.dependency.traits@, trait_id) {
        Err("Product artifact references unknown dependency trait target "@ + qualified(trait_id) + " in method call"@)
    } else if !trait_owns(side(v, trait_id), trait_id, member_id) {
        Err("Product artifact trait target "@ + decimal(trait_id.local_id.0 as nat) + " does not own selected member target "@
            + decimal(member_id.local_id.0 as nat))
    } else {
        Ok(())
    }
}

/// Chains two checks: the first error wins.
pub open spec fn and_then(a: Result<(), Seq<char>>, b: Result<(), Seq<char>>) -> Result<(), Seq<char>> {
    match a {
        Err(m) => Err(m),
        Ok(_) => b,
    }
}

/// The trait arguments an impl declares, or none where the impl is unknown.
pub open spec fn impl_args_of(v: ProductNominalTypeValidator, impl_id: ProductDefId) -> Seq<Type> {
    match lookup(side(v, impl_id).impl_trait_args@, impl_id) {
        Some(a) => a@,
        None => Seq::empty(),
    }
}

/// `out` is `ts` with the bindings `b` substituted into each type.
pub open spec fn subst_all(ts: Seq<Type>, b: Seq<TypeBinding>, out: Seq<Type>) -> bool {
    out.len() == ts.len() && forall|i: int| 0 <= i < ts.len() ==> subst_rel(#[trigger] ts[i], b, out[i])
}

/// The outcome of checking the authority of impl method `m` of impl `i`,
/// selected through `selected_trait` where the impl implements a trait;
/// `expected` is the impl's trait arguments with the call's owner
/// substitution applied.
pub open spec fn impl_authority_outcome(
    v: ProductNominalTypeValidator,
    i: ProductDefId,
    m: ProductDefId,
    selected_trait: Option<SelectedTraitMember>,
    expected: Seq<Type>,
) -> Result<(), Seq<char>> {
    let actual = lookup(side(v, i).impl_traits@, i);
    and_then(impl_method_outcome(v, i, m), match selected_trait {
        Some(sel) => {
            let t = spec_product_of(sel.trait_id);
            let n = spec_product_of(sel.member_id);
            if actual != Some(Some(t)) {
                Err("Product artifact method call impl target "@ + decimal(i.local_id.0 as nat)
                    + " does not match trait target "@ + decimal(t.local_id.0 as nat))
            } else {
                and_then(trait_member_outcome(v, t, n), and_then(arity_outcome(v, t, sel.trait_args@.len()),
                    if !tys_eq(expected, sel.trait_args@) {
                        Err("Product artifact method authority trait arguments do not match impl "@ + qualified(i)
                            + ": expected "@ + list_text(expected) + ", found "@ + list_text(sel.trait_args@))
                    } else if lookup(side(v, i).effective_trait_methods@, (i, n)) != Some(m) {
                        Err("Product artifact method target "@ + decimal(m.local_id.0 as nat)
                            + " is not the effective body for trait member "@ + decimal(n.local_id.0 as nat)
                            + " on impl "@ + decimal(i.local_id.0 as nat))
                    } else {
                        Ok(())
                    }))
            }
        },
        None => if actual matches Some(Some(_)) {
            Err("Product artifact trait impl method authority for impl "@ + qualified(i)
                + " has no selected trait identity"@)
        } else {
            Ok(())
        },
    })
}

/// The outcome of checking a method-call authority, where `expected`
/// stands for the impl's trait arguments after the owner substitution.
pub open spec fn authority_outcome(v: ProductNominalTypeValidator, target: MethodCallTarget, expected: Seq<Type>) -> Result<(), Seq<char>> {
    match target.target {
        SelectedMethodTarget::ImplMethod { impl_id, method_id, selected_trait } =>
            impl_authority_outcome(v, spec_product_of(impl_id), spec_product_of(method_id), selected_trait, expected),
        SelectedMethodTarget::TraitMethod { trait_id, member_id, trait_args, .. } => {
            let t = spec_product_of(trait_id);
            and_then(trait_member_outcome(v, t, spec_product_of(member_id)), arity_outcome(v, t, trait_args@.len()))
        },
    }
}

/// `expected` is what the check compares the selected trait arguments
/// with: for an impl method, a result of substituting the owner
/// substitution into the impl's trait arguments (all such results are
/// structurally equal); a trait method compares nothing.
pub open spec fn expected_args(v: ProductNominalTypeValidator, target: MethodCallTarget, expected: Seq<Type>) -> bool {
    match target.target {
        SelectedMethodTarget::ImplMethod { impl_id, .. } =>
            subst_all(impl_args_of(v, spec_product_of(impl_id)), target.owner_substitution@, expected),
        SelectedMethodTarget::TraitMethod { .. } => expected == Seq::<Type>::empty(),
    }
}

/// The outcome of checking the authority of a method call: the authority
/// must be valid and must not select a method without receiver.
pub open spec fn call_authority_outcome(v: ProductNominalTypeValidator, target: MethodCallTarget, expected: Seq<Type>) -> Result<(), Seq<char>> {
    and_then(authority_outcome(v, target, expected),
        if receiver_mode_of(v, spec_product_of(target.spec_method_id().unwrap())) == Some(None::<ReceiverMode>) {
            Err("Product artifact method-call authority references a static method"@)
        } else {
            Ok(())
        })
}

/// The outcome of checking the authority of a static method call: the
/// authority must be valid and must not select a method with a receiver.
pub open spec fn static_authority_outcome(v: ProductNominalTypeValidator, target: MethodCallTarget, expected: Seq<Type>) -> Result<(), Seq<char>> {
    and_then(authority_outcome(v, target, expected),
        if receiver_mode_of(v, spec_product_of(target.spec_method_id().unwrap())) matches Some(Some(_)) {
            Err("Product artifact static method authority references a receiver method"@)
        } else {
            Ok(())
        })
}

/// The receiver mode recorded for `method_id`, if it is a known method.
pub open spec fn receiver_mode_of(v: ProductNominalTypeValidator, method_id: ProductDefId) -> Option<Option<ReceiverMode>> {
    lookup(side(v, method_id).method_receiver_modes@, method_id)
}

fn arity_message(trait_id: ProductDefId, expected: usize, found: usize) -> (r: String)
    ensures
        r@ == "Product artifact method authority trait argument arity mismatch for "@ + qualified(trait_id)
            + ": expected "@ + decimal(expected as nat) + ", found "@ + decimal(found as nat),
{
    let mut s = qualified_message0("Product artifact method authority trait argument arity mismatch for ", trait_id);
    let ghost s1 = s@;
    push_str(&mut s, ": expected ");
    push_decimal(&mut s, expected as u64);
    push_str(&mut s, ", found ");
    push_decimal(&mut s, found as u64);
    proof {
        assert(s@ =~= s1 + ": expected "@ + decimal(expected as nat) + ", found "@ + decimal(found as nat));
    }
    s
}

fn args_mismatch_message(impl_id: ProductDefId, expected: &Vec<Type>, found: &Vec<Type>) -> (r: String)
    ensures
        r@ == "Product artifact method authority trait arguments do not match impl "@ + qualified(impl_id)
            + ": expected "@ + list_text(expected@) + ", found "@ + list_text(found@),
{
    let mut s = qualified_message0("Product artifact method authority trait arguments do not match impl ", impl_id);
    let ghost s1 = s@;
    push_str(&mut s, ": expected ");
    push_list_text(&mut s, expected);
    push_str(&mut s, ", found ");
    push_list_text(&mut s, found);
    proof {
        assert(s@ =~= s1 + ": expected "@ + list_text(expected@) + ", found "@ + list_text(found@));
    }
    s
}

impl ProductNominalTypeValidator {
    fn tables(&self, id: ProductDefId) -> (r: &DefinitionTables)
        ensures
            *r == side(*self, id),
    {
        if id.crate_id == self.local_crate {
            &self.local
        } else {
            &self.dependency
        }
    }

    /// The number of generic parameters of `trait_id`, if it is known.
    pub fn trait_generic_count(&self, trait_id: ProductDefId) -> (r: Option<usize>)
        ensures
            r == lookup(side(*self, trait_id).trait_generic_counts@, trait_id),
    {
        match find_id(&self.tables(trait_id).trait_generic_counts, trait_id) {
            Some(n) => Some(*n),
            None => None,
        }
    }

    /// The trait arguments declared by `impl_id`, if it is known.
    pub fn impl_trait_args(&self, impl_id: ProductDefId) -> (r: Option<&Vec<Type>>)
        ensures
            match lookup(side(*self, impl_id).impl_trait_args@, impl_id) {
                Some(a) => r matches Some(x) && *x == a,
                None => r is None,
            },
    {
        find_id(&self.tables(impl_id).impl_trait_args, impl_id)
    }

    /// The receiver mode of `method_id`: `None` for an unknown method,
    /// `Some(None)` for a method without receiver.
    pub fn method_receiver_mode(&self, method_id: ProductDefId) -> (r: Option<Option<ReceiverMode>>)
        ensures
            r == receiver_mode_of(*self, method_id),
    {
        match find_id(&self.tables(method_id).method_receiver_modes, method_id) {
            Some(m) => Some(*m),
            None => None,
        }
    }

    /// Checks that `trait_id` is known and takes as many arguments as given.
    pub fn validate_trait_arg_arity(&self, trait_id: ProductDefId, trait_args: &Vec<Type>) -> (r: Result<(), String>)
        ensures
            outcome_is(r, arity_outcome(*self, trait_id, trait_args@.len())),
    {
        match self.trait_generic_count(trait_id) {
            None => Err(qualified_message("Product artifact references unknown trait target ", trait_id, " while validating trait arguments")),
            Some(expected) => {
                if trait_args.len() != expected {
                    Err(arity_message(trait_id, expected, trait_args.len()))
                } else {
                    Ok(())
                }
            },
        }
    }

    fn validate_impl_method(&self, impl_id: ProductDefId, method_id: ProductDefId) -> (r: Result<(), String>)
        ensures
            outcome_is(r, impl_method_outcome(*self, impl_id, method_id)),
    {
        if impl_id.crate_id == self.local_crate && !contains_id(&self.local.impls, impl_id) {
            return Err(local_message("Product artifact references unknown impl target ", impl_id.local_id.0, " in method call"));
        }
        if impl_id.crate_id != self.local_crate && !contains_id(&self.dependency.impls, impl_id) {
            return Err(qualified_message("Product artifact references unknown dependency impl target ", impl_id, " in method call"));
        }
        let owns = match find_id(&self.tables(impl_id).impl_methods, impl_id) {
            Some(ms) => contains_id(ms, method_id),
            None => false,
        };
        if !owns {
            return Err(concat_num2("Product artifact impl target ", impl_id.local_id.0 as u64,
                " does not own selected method target ", method_id.local_id.0 as u64));
        }
        Ok(())
    }

    fn validate_trait_member(&self, trait_id: ProductDefId, member_id: ProductDefId) -> (r: Result<(), String>)
        ensures
            outcome_is(r, trait_member_outcome(*self, trait_id, member_id)),
    {
        proof {
            crate::collections::lemma_lookup(self.local.traits@, trait_id);
            crate::collections::lemma_lookup(self.dependency.traits@, trait_id);
        }
        if trait_id.crate_id == self.local_crate && find_id(&self.local.traits, trait_id).is_none() {
            return Err(local_message("Product artifact references unknown trait target ", trait_id.local_id.0, " in method call"));
        }
        if trait_id.crate_id != self.local_crate && find_id(&self.dependency.traits, trait_id).is_none() {
            return Err(qualified_message("Product artifact references unknown dependency trait target ", trait_id, " in method call"));
        }
        let t = self.tables(trait_id);
        let in_methods = match find_id(&t.trait_methods, trait_id) {
            Some(ms) => contains_value(ms, member_id),
            None => false,
        };
        let in_signatures = match find_id(&t.trait_signatures, trait_id) {
            Some(ms) => contains_value(ms, member_id),
            None => false,
        };
        if !(in_methods || in_signatures) {
            return Err(concat_num2("Product artifact trait target ", trait_id.local_id.0 as u64,
                " does not own selected member target ", member_id.local_id.0 as u64));
        }
        Ok(())
    }

    fn validate_impl_authority(
        &self,
        i: ProductDefId,
        m: ProductDefId,
        selected_trait: &Option<SelectedTraitMember>,
        expected: &Vec<Type>,
    ) -> (r: Result<(), String>)
        ensures
            outcome_is(r, impl_authority_outcome(*self, i, m, *selected_trait, expected@)),
    {
        self.validate_impl_method(i, m)?;
        let actual = find_id(&self.tables(i).impl_traits, i);
        match selected_trait {
            Some(sel) => {
                let t = ProductDefId::from_def_id(sel.trait_id);
                let n = ProductDefId::from_def_id(sel.member_id);
                let matches = match actual {
                    Some(Some(a)) => *a == t,
                    _ => false,
                };
                if !matches {
                    return Err(concat_num2("Product artifact method call impl target ", i.local_id.0 as u64,
                        " does not match trait target ", t.local_id.0 as u64));
                }
                self.validate_trait_member(t, n)?;
                self.validate_trait_arg_arity(t, &sel.trait_args)?;
                if !type_lists_equal(expected, &sel.trait_args) {
                    return Err(args_mismatch_message(i, expected, &sel.trait_args));
                }
                let effective = find_pair(&self.tables(i).effective_trait_methods, i, n);
                let is_effective = match effective {
                    Some(e) => *e == m,
                    None => false,
                };
                if !is_effective {
                    let mut s = text("Product artifact method target ");
                    push_decimal(&mut s, m.local_id.0 as u64);
                    push_str(&mut s, " is not the effective body for trait member ");
                    push_decimal(&mut s, n.local_id.0 as u64);
                    push_str(&mut s, " on impl ");
                    push_decimal(&mut s, i.local_id.0 as u64);
                    return Err(s);
                }
                Ok(())
            },
            None => {
                let has_trait = match actual {
                    Some(Some(_)) => true,
                    _ => false,
                };
                if has_trait {
                    return Err(qualified_message("Product artifact trait impl method authority for impl ", i,
                        " has no selected trait identity"));
                }
                Ok(())
            },
        }
    }

    fn expected_trait_args(&self, target: &MethodCallTarget) -> (r: Vec<Type>)
        ensures
            expected_args(*self, *target, r@),
    {
        match &target.target {
            SelectedMethodTarget::ImplMethod { impl_id, .. } => {
                let empty: Vec<Type> = Vec::new();
                let declared = match self.impl_trait_args(ProductDefId::from_def_id(*impl_id)) {
                    Some(a) => a,
                    None => &empty,
                };
                substitute_list(declared, &target.owner_substitution)
            },
            SelectedMethodTarget::TraitMethod { .. } => Vec::new(),
        }
    }

    fn validate_authority(&self, target: &MethodCallTarget, expected: &Vec<Type>) -> (r: Result<(), String>)
        ensures
            outcome_is(r, authority_outcome(*self, *target, expected@)),
    {
        match &target.target {
            SelectedMethodTarget::ImplMethod { impl_id, method_id, selected_trait } => self.validate_impl_authority(
                ProductDefId::from_def_id(*impl_id),
                ProductDefId::from_def_id(*method_id),
                selected_trait,
                expected,
            ),
            SelectedMethodTarget::TraitMethod { trait_id, member_id, trait_args, .. } => {
                let t = ProductDefId::from_def_id(*trait_id);
                self.validate_trait_member(t, ProductDefId::from_def_id(*member_id))?;
                self.validate_trait_arg_arity(t, trait_args)
            },
        }
    }

    /// Checks a method-call authority against the definitions it names:
    /// the impl or trait must exist and own the selected method, a trait
    /// impl method must carry the trait identity, its arguments and the
    /// effective body, and a trait method must be given the trait's arity.
    pub fn validate_method_target(&self, target: &MethodCallTarget) -> (r: Result<(), String>)
        ensures
            exists|e: Seq<Type>| #[trigger] expected_args(*self, *target, e) && outcome_is(r, authority_outcome(*self, *target, e)),
    {
        let expected = self.expected_trait_args(target);
        self.validate_authority(target, &expected)
    }

    /// Checks the authority of a method call written with a receiver.
    pub fn validate_method_call_target(&self, target: &MethodCallTarget) -> (r: Result<(), String>)
        ensures
            exists|e: Seq<Type>| #[trigger] expected_args(*self, *target, e) && outcome_is(r, call_authority_outcome(*self, *target, e)),
    {
        let expected = self.expected_trait_args(target);
        self.validate_authority(target, &expected)?;
        let method_id = ProductDefId::from_def_id(target.method_id().unwrap());
        if self.method_receiver_mode(method_id) == Some(None) {
            return Err(text("Product artifact method-call authority references a static method"));
        }
        Ok(())
    }

    /// Checks the authority of a call of a method through its owner type.
    pub fn validate_static_method_target(&self, target: &MethodCallTarget) -> (r: Result<(), String>)
        ensures
            exists|e: Seq<Type>| #[trigger] expected_args(*self, *target, e) && outcome_is(r, static_authority_outcome(*self, *target, e)),
    {
        let expected = self.expected_trait_args(target);
        self.validate_authority(target, &expected)?;
        let method_id = ProductDefId::from_def_id(target.method_id().unwrap());
        let has_receiver = match self.method_receiver_mode(method_id) {
            Some(Some(_)) => true,
            _ => false,
        };
        if has_receiver {
            return Err(text("Product artifact static method authority references a receiver method"));
        }
        Ok(())
    }
}

} // verus!
