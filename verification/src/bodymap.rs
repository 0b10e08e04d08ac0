use vstd::prelude::*;

use crate::bodyspec::{
    bound_map, bound_ok, bounds_map, bounds_ok, decls_map, decls_ok, function_map, function_parts_map, function_ok, predicate_map,
    predicate_ok, authorized_static_callee, block_map, block_ok, capture_locals, expr_map, expr_ok, opt_expr_map, param_locals,
    stmt_locals, stmt_map, stmt_ok, stmts_ok, field_loc_map, opt_id_map, pattern_map, pattern_ok, variant_loc_map, MAX_REMAP_DEPTH, bindings_map, call_authority_ok, call_target_map, call_target_ok, var_map, var_ok, field_patterns_locals, idok, method_remap_ok, method_target_ok, pattern_locals,
    patterns_locals, static_authority_ok, target_ids_ok, target_map, target_types_ok, tok, tsok,
};
use crate::child::ProductChildLocationValidator;
use crate::hir::{
    Function, Block, Capture, Expr, ExprKind, MatchArm, Param, Stmt, StructLiteralField, TryExpr, CallTarget, FieldLocation, MethodCallTarget, Pattern, SelectedMethodTarget, SelectedTraitMember,
    StaticMethodTarget, StructPatternField, VarRef, VarTarget, VariantLocation,
};
use crate::ids::{DefId, LocalId, ProductDefId};
use crate::remap::ProductIdentityRemap;
use crate::text::text;
use crate::typemap::{lemma_list_outcome_ok, mapped, remapped_type, remapped_types, type_map, types_map};
use crate::types::{GenericBounds, GenericParamDecl, GenericParamId, Predicate, TraitBound, lemma_subst_rel_unique, lemma_ty_eq_sym, lemma_ty_eq_trans, tys_eq, Type, TypeBinding};
use crate::validator::{
    authority_outcome, call_authority_outcome, expected_args, static_authority_outcome, subst_all,
    ProductNominalTypeValidator,
};

verus! {

/// Whether `l` is among the locals in scope.
pub fn contains_local(scope: &Vec<LocalId>, l: LocalId) -> (r: bool)
    ensures
        r == scope@.contains(l),
{
    let mut i: usize = 0;
    while i < scope.len()
        invariant
            i <= scope@.len(),
            forall|j: int| 0 <= j < i ==> scope@[j] != l,
        decreases scope.len() - i,
    {
        if scope[i] == l {
            assert(scope@[i as int] == l);
            return true;
        }
        i = i + 1;
    }
    false
}

/// A copy of a list of locals.
pub fn copy_locals(scope: &Vec<LocalId>) -> (r: Vec<LocalId>)
    ensures
        r@ == scope@,
{
    let mut out: Vec<LocalId> = Vec::new();
    let mut i: usize = 0;
    while i < scope.len()
        invariant
            i <= scope@.len(),
            out@ == scope@.take(i as int),
        decreases scope.len() - i,
    {
        out.push(scope[i]);
        i = i + 1;
        proof {
            assert(out@ =~= scope@.take(i as int));
        }
    }
    assert(scope@.take(i as int) =~= scope@);
    out
}

/// Adds the locals that `pattern` binds to `scope`, in order.
pub fn add_pattern_local_ids(pattern: &Pattern, scope: &mut Vec<LocalId>)
    ensures
        final(scope)@ == old(scope)@ + pattern_locals(*pattern),
    decreases pattern, 1nat,
{
    let ghost start = scope@;
    match pattern {
        Pattern::Binding { local_id, .. } => {
            scope.push(*local_id);
            proof {
                assert(scope@ =~= start + pattern_locals(*pattern));
            }
        },
        Pattern::Tuple(subs) | Pattern::Enum(_, _, _, subs) | Pattern::Or(subs) => {
            proof {
                if let Pattern::Tuple(_) = pattern {
                    assert(decreases_to!(*pattern => (*pattern)->Tuple_0));
                } else if let Pattern::Or(_) = pattern {
                    assert(decreases_to!(*pattern => (*pattern)->Or_0));
                } else {
                    assert(decreases_to!(*pattern => (*pattern)->Enum_3));
                }
            }
            add_patterns_local_ids(subs, scope);
        },
        Pattern::Struct(_, _, _, fields) => {
            proof {
                assert(decreases_to!(*pattern => (*pattern)->Struct_3));
            }
            add_field_patterns_local_ids(fields, scope);
        },
        _ => {
            assert(scope@ =~= start + pattern_locals(*pattern));
        },
    }
}

fn add_field_patterns_local_ids(fields: &Vec<StructPatternField>, scope: &mut Vec<LocalId>)
    ensures
        final(scope)@ == old(scope)@ + field_patterns_locals(fields@),
    decreases fields, 0nat,
{
    let ghost start = scope@;
    let mut k: usize = 0;
    while k < fields.len()
        invariant
            k <= fields@.len(),
            scope@ == start + field_patterns_locals(fields@.take(k as int)),
        decreases fields.len() - k,
    {
        proof {
            assert(decreases_to!(*fields => fields[k as int]));
            assert(decreases_to!(fields[k as int] => fields[k as int].pattern));
            assert(fields@.take(k + 1).drop_last() =~= fields@.take(k as int));
        }
        add_pattern_local_ids(&fields[k].pattern, scope);
        k = k + 1;
        proof {
            assert(scope@ =~= start + field_patterns_locals(fields@.take(k as int)));
        }
    }
    assert(fields@.take(k as int) =~= fields@);
}

fn add_patterns_local_ids(ps: &Vec<Pattern>, scope: &mut Vec<LocalId>)
    ensures
        final(scope)@ == old(scope)@ + patterns_locals(ps@),
    decreases ps, 0nat,
{
    let ghost start = scope@;
    let mut k: usize = 0;
    while k < ps.len()
        invariant
            k <= ps@.len(),
            scope@ == start + patterns_locals(ps@.take(k as int)),
        decreases ps.len() - k,
    {
        proof {
            assert(decreases_to!(*ps => ps[k as int]));
            assert(ps@.take(k + 1).drop_last() =~= ps@.take(k as int));
        }
        add_pattern_local_ids(&ps[k], scope);
        k = k + 1;
        proof {
            assert(scope@ =~= start + patterns_locals(ps@.take(k as int)));
        }
    }
    assert(ps@.take(k as int) =~= ps@);
}

// ----- method-call authorities -----

/// Two results of substituting one substitution into one list agree
/// structurally.
proof fn lemma_subst_all_agree(ts: Seq<Type>, b: Seq<TypeBinding>, e1: Seq<Type>, e2: Seq<Type>)
    requires
        subst_all(ts, b, e1),
        subst_all(ts, b, e2),
    ensures
        tys_eq(e1, e2),
{
    assert forall|i: int| 0 <= i < e1.len() implies crate::types::ty_eq(#[trigger] e1[i], e2[i]) by {
        lemma_subst_rel_unique(ts[i], b, e1[i], e2[i]);
    }
}

/// Lists structurally equal to each other are structurally equal to the
/// same lists.
proof fn lemma_tys_eq_swap(a: Seq<Type>, b: Seq<Type>, x: Seq<Type>)
    requires
        tys_eq(a, b),
    ensures
        tys_eq(a, x) <==> tys_eq(b, x),
{
    if tys_eq(a, x) {
        assert forall|i: int| 0 <= i < b.len() implies crate::types::ty_eq(#[trigger] b[i], x[i]) by {
            lemma_ty_eq_sym(a[i], b[i]);
            lemma_ty_eq_trans(b[i], a[i], x[i]);
        }
    }
    if tys_eq(b, x) {
        assert forall|i: int| 0 <= i < a.len() implies crate::types::ty_eq(#[trigger] a[i], x[i]) by {
            lemma_ty_eq_trans(a[i], b[i], x[i]);
        }
    }
}

/// Whether an authority passes its check does not depend on which result
/// of the substitution stands for the expected arguments.
proof fn lemma_authority_agree(v: ProductNominalTypeValidator, t: MethodCallTarget, e1: Seq<Type>, e2: Seq<Type>)
    requires
        expected_args(v, t, e1),
        expected_args(v, t, e2),
    ensures
        authority_outcome(v, t, e1) is Ok <==> authority_outcome(v, t, e2) is Ok,
        call_authority_outcome(v, t, e1) is Ok <==> call_authority_outcome(v, t, e2) is Ok,
        static_authority_outcome(v, t, e1) is Ok <==> static_authority_outcome(v, t, e2) is Ok,
{
    match t.target {
        SelectedMethodTarget::ImplMethod { impl_id, selected_trait, .. } => {
            lemma_subst_all_agree(
                crate::validator::impl_args_of(v, crate::ids::spec_product_of(impl_id)),
                t.owner_substitution@,
                e1,
                e2,
            );
            if let Some(sel) = selected_trait {
                lemma_tys_eq_swap(e1, e2, sel.trait_args@);
            }
        },
        SelectedMethodTarget::TraitMethod { .. } => {},
    }
}

fn map_def(m: &ProductIdentityRemap, d: DefId) -> (r: Result<DefId, String>)
    ensures
        r is Ok <==> idok(*m, d),
        r matches Ok(x) ==> x == mapped(*m, d),
        r matches Err(e) ==> e@ == crate::remap::msg_unmapped(crate::ids::spec_product_of(d)),
{
    m.def_id(ProductDefId::from_def_id(d))
}

/// What remapping one binding of an owner substitution reports: its
/// parameter's owner, then its type.
pub open spec fn binding_outcome(m: ProductIdentityRemap, v: ProductNominalTypeValidator, b: TypeBinding) -> Result<(), Seq<char>> {
    if !idok(m, b.param.owner) {
        Err(crate::remap::msg_unmapped(crate::ids::spec_product_of(b.param.owner)))
    } else {
        crate::typemap::type_outcome(m, v, b.ty)
    }
}

/// The check of each binding of an owner substitution.
pub open spec fn binding_checks(m: ProductIdentityRemap, v: ProductNominalTypeValidator) -> spec_fn(TypeBinding) -> Result<(), Seq<char>> {
    |b: TypeBinding| binding_outcome(m, v, b)
}

/// What remapping the definitions and types that the authority `t` carries
/// reports: in order, the selected impl and method or trait and member, the
/// selected trait's arguments, then the owner substitution.
pub open spec fn target_parts_outcome(m: ProductIdentityRemap, v: ProductNominalTypeValidator, t: MethodCallTarget) -> Result<(), Seq<char>> {
    let and_then = |a: Result<(), Seq<char>>, b: Result<(), Seq<char>>| crate::validator::and_then(a, b);
    let sel = match t.target {
        SelectedMethodTarget::ImplMethod { impl_id, method_id, selected_trait } => and_then(crate::typemap::id_outcome(m, impl_id), and_then(
            crate::typemap::id_outcome(m, method_id),
            match selected_trait {
                None => Ok(()),
                Some(s) => and_then(crate::typemap::id_outcome(m, s.trait_id), and_then(crate::typemap::id_outcome(m, s.member_id),
                    crate::typemap::list_outcome(m, v, s.trait_args@))),
            },
        )),
        SelectedMethodTarget::TraitMethod { trait_id, member_id, trait_args, .. } => and_then(crate::typemap::id_outcome(m, trait_id),
            and_then(crate::typemap::id_outcome(m, member_id), crate::typemap::list_outcome(m, v, trait_args@))),
    };
    and_then(sel, crate::text::first_error(t.owner_substitution@, binding_checks(m, v)))
}

fn remapped_bindings(b: &Vec<TypeBinding>, m: &ProductIdentityRemap, v: &ProductNominalTypeValidator) -> (r: Result<Vec<TypeBinding>, String>)
    ensures
        r is Ok <==> (forall|k: int| 0 <= k < b@.len() ==> idok(*m, (#[trigger] b@[k]).param.owner))
            && (forall|k: int| 0 <= k < b@.len() ==> tok(*m, *v, (#[trigger] b@[k]).ty)),
        r matches Ok(b2) ==> bindings_map(*m, b@, b2@),
        crate::typemap::outcome_is_res(r, crate::text::first_error(b@, binding_checks(*m, *v))),
{
    let ghost ck = binding_checks(*m, *v);
    let mut out: Vec<TypeBinding> = Vec::new();
    let mut k: usize = 0;
    while k < b.len()
        invariant
            k <= b@.len(),
            out@.len() == k,
            ck == binding_checks(*m, *v),
            crate::text::first_error(b@.take(k as int), ck) is Ok,
            forall|j: int| 0 <= j < k ==> idok(*m, (#[trigger] b@[j]).param.owner) && tok(*m, *v, b@[j].ty),
            forall|j: int| 0 <= j < k ==> (#[trigger] out@[j]).param.owner == mapped(*m, b@[j].param.owner)
                && out@[j].param.index == b@[j].param.index && type_map(*m, b@[j].ty, out@[j].ty),
        decreases b.len() - k,
    {
        let owner = match map_def(m, b[k].param.owner) {
            Ok(o) => o,
            Err(e) => {
                proof { crate::text::lemma_first_error_at(b@, ck, k as int); }
                return Err(e);
            },
        };
        let ty = match remapped_type(&b[k].ty, m, v) {
            Ok(t) => t,
            Err(e) => {
                proof { crate::text::lemma_first_error_at(b@, ck, k as int); }
                return Err(e);
            },
        };
        proof { crate::text::lemma_first_error_step(b@, ck, k as int); }
        out.push(TypeBinding { param: crate::types::GenericParamId { owner, index: b[k].param.index }, ty });
        k = k + 1;
    }
    proof { assert(b@.take(b@.len() as int) =~= b@); }
    Ok(out)
}

fn remapped_type_list(ts: &Vec<Type>, m: &ProductIdentityRemap, v: &ProductNominalTypeValidator) -> (r: Result<Vec<Type>, String>)
    ensures
        r is Ok <==> tsok(*m, *v, ts@),
        r matches Ok(us) ==> types_map(*m, ts@, us@),
        crate::typemap::outcome_is_res(r, crate::typemap::list_outcome(*m, *v, ts@)),
{
    proof {
        lemma_list_outcome_ok(*m, *v, ts@);
    }
    remapped_types(ts, m, v)
}

/// The authority `target` with its definitions and types remapped.
fn remapped_target_parts(target: &MethodCallTarget, m: &ProductIdentityRemap, v: &ProductNominalTypeValidator) -> (r: Result<MethodCallTarget, String>)
    ensures
        r is Ok <==> target_ids_ok(*m, *target) && target_types_ok(*m, *v, *target),
        r matches Ok(t2) ==> target_map(*m, *target, t2),
        crate::typemap::outcome_is_res(r, target_parts_outcome(*m, *v, *target)),
{
    let sel = match &target.target {
        SelectedMethodTarget::ImplMethod { impl_id, method_id, selected_trait } => {
            let i2 = map_def(m, *impl_id)?;
            let m2 = map_def(m, *method_id)?;
            let s2 = match selected_trait {
                None => None,
                Some(s) => {
                    let t2 = map_def(m, s.trait_id)?;
                    let n2 = map_def(m, s.member_id)?;
                    let a2 = remapped_type_list(&s.trait_args, m, v)?;
                    Some(SelectedTraitMember { trait_id: t2, member_id: n2, trait_args: a2 })
                },
            };
            SelectedMethodTarget::ImplMethod { impl_id: i2, method_id: m2, selected_trait: s2 }
        },
        SelectedMethodTarget::TraitMethod { trait_id, member_id, trait_args, dispatch } => {
            let t2 = map_def(m, *trait_id)?;
            let n2 = map_def(m, *member_id)?;
            let a2 = remapped_type_list(trait_args, m, v)?;
            SelectedMethodTarget::TraitMethod { trait_id: t2, member_id: n2, trait_args: a2, dispatch: *dispatch }
        },
    };
    let b2 = remapped_bindings(&target.owner_substitution, m, v)?;
    Ok(MethodCallTarget { target: sel, owner_substitution: b2 })
}

/// Checks a method-call authority and remaps the definitions and types it
/// carries.
pub fn remap_method_target(target: &MethodCallTarget, m: &ProductIdentityRemap, v: &ProductNominalTypeValidator) -> (r: Result<MethodCallTarget, String>)
    ensures
        r is Ok <==> method_remap_ok(*m, *v, *target),
        r matches Ok(t2) ==> target_map(*m, *target, t2),
        r matches Err(e) ==> method_err(*m, *v, *target, e@),
{
    let checked = v.validate_method_target(target);
    if checked.is_err() {
        proof {
            let e0 = choose|e: Seq<Type>| #[trigger] expected_args(*v, *target, e) && crate::text::outcome_is(checked, authority_outcome(*v, *target, e));
            assert forall|e: Seq<Type>| #[trigger] expected_args(*v, *target, e) implies !(authority_outcome(*v, *target, e) is Ok) by {
                lemma_authority_agree(*v, *target, e0, e);
            }
        }
        return Err(checked.unwrap_err());
    }
    remapped_target_parts(target, m, v)
}

/// Checks the authority of a call written with a receiver.
pub fn check_call_authority(target: &MethodCallTarget, v: &ProductNominalTypeValidator) -> (r: Result<(), String>)
    ensures
        r is Ok <==> call_authority_ok(*v, *target),
        r matches Err(e) ==> exists|ea: Seq<Type>| #[trigger] expected_args(*v, *target, ea)
            && call_authority_outcome(*v, *target, ea) == Err::<(), Seq<char>>(e@),
{
    let checked = v.validate_method_call_target(target);
    proof {
        let e0 = choose|e: Seq<Type>| #[trigger] expected_args(*v, *target, e) && crate::text::outcome_is(checked, call_authority_outcome(*v, *target, e));
        assert forall|e: Seq<Type>| #[trigger] expected_args(*v, *target, e) implies (call_authority_outcome(*v, *target, e) is Ok <==> checked is Ok) by {
            lemma_authority_agree(*v, *target, e0, e);
        }
    }
    checked
}

/// Checks the authority of a call through the owner type.
pub fn check_static_authority(target: &MethodCallTarget, v: &ProductNominalTypeValidator) -> (r: Result<(), String>)
    ensures
        r is Ok <==> static_authority_ok(*v, *target),
        r matches Err(e) ==> exists|ea: Seq<Type>| #[trigger] expected_args(*v, *target, ea)
            && static_authority_outcome(*v, *target, ea) == Err::<(), Seq<char>>(e@),
{
    let checked = v.validate_static_method_target(target);
    proof {
        let e0 = choose|e: Seq<Type>| #[trigger] expected_args(*v, *target, e) && crate::text::outcome_is(checked, static_authority_outcome(*v, *target, e));
        assert forall|e: Seq<Type>| #[trigger] expected_args(*v, *target, e) implies (static_authority_outcome(*v, *target, e) is Ok <==> checked is Ok) by {
            lemma_authority_agree(*v, *target, e0, e);
        }
    }
    checked
}


// ----- variable and call targets -----

fn id_message(prefix: &str, kind: &str, n: u32, suffix: &str) -> (r: String)
    ensures
        r@ == prefix@ + kind@ + crate::text::decimal(n as nat) + ")"@ + suffix@,
{
    let mut s = text(prefix);
    crate::text::push_str(&mut s, kind);
    crate::text::push_decimal(&mut s, n as u64);
    crate::text::push_str(&mut s, ")");
    crate::text::push_str(&mut s, suffix);
    s
}

/// The check of a definition target: the validator's verdict, then the
/// mapping of its crate.
pub open spec fn def_target_outcome(verdict: Result<(), Seq<char>>, m: ProductIdentityRemap, id: DefId) -> Result<(), Seq<char>> {
    if verdict is Err {
        verdict
    } else if idok(m, id) {
        Ok(())
    } else {
        Err(crate::remap::msg_unmapped(crate::ids::spec_product_of(id)))
    }
}

/// What checking a resolved variable's target in `scope` reports.
pub open spec fn var_outcome(m: ProductIdentityRemap, v: ProductNominalTypeValidator, r: VarRef, scope: Seq<LocalId>) -> Result<(), Seq<char>> {
    match r.target {
        VarTarget::Function(id) => def_target_outcome(crate::validator::function_target_outcome(v, crate::ids::spec_product_of(id)), m, id),
        VarTarget::Extern(id) => def_target_outcome(crate::validator::extern_target_outcome(v, crate::ids::spec_product_of(id)), m, id),
        VarTarget::Instance(id) => Err("Product artifact contains local instance target "@ + "InstanceId("@ + crate::text::decimal(id.0 as nat)
            + ")"@ + " for '"@ + r.name@ + "'"@),
        VarTarget::Local(l) => if scope.contains(l) {
            Ok(())
        } else {
            Err("Product artifact references unknown local var target "@ + "HirLocalId("@ + crate::text::decimal(l.0 as nat) + ")"@)
        },
    }
}

/// Checks a resolved variable's target in `scope` and remaps it.
pub fn remapped_var(r: &VarRef, m: &ProductIdentityRemap, v: &ProductNominalTypeValidator, scope: &Vec<LocalId>) -> (res: Result<VarRef, String>)
    ensures
        res is Ok <==> var_ok(*m, *v, *r, scope@),
        res matches Ok(r2) ==> var_map(*m, *r, r2),
        res matches Err(e) ==> var_outcome(*m, *v, *r, scope@) == Err::<(), Seq<char>>(e@),
{
    proof {
        reveal_strlit("");
        reveal_strlit("'");
    }
    let target = match &r.target {
        VarTarget::Function(id) => {
            v.validate_function_target(ProductDefId::from_def_id(*id), r.name.as_str())?;
            VarTarget::Function(map_def(m, *id)?)
        },
        VarTarget::Extern(id) => {
            v.validate_extern_target(ProductDefId::from_def_id(*id), r.name.as_str())?;
            VarTarget::Extern(map_def(m, *id)?)
        },
        VarTarget::Instance(id) => {
            let mut s = id_message("Product artifact contains local instance target ", "InstanceId(", id.0, " for '");
            crate::text::push_str(&mut s, r.name.as_str());
            crate::text::push_str(&mut s, "'");
            return Err(s);
        },
        VarTarget::Local(id) => {
            if !contains_local(scope, *id) {
                let e = id_message("Product artifact references unknown local var target ", "HirLocalId(", id.0, "");
                proof {
                    assert(e@ =~= "Product artifact references unknown local var target "@ + "HirLocalId("@ + crate::text::decimal(id.0 as nat) + ")"@);
                }
                return Err(e);
            }
            VarTarget::Local(*id)
        },
    };
    Ok(VarRef { name: r.name.clone(), target })
}

/// What checking a call target in `scope` reports, for the targets that
/// name a definition, a local or an instance.
pub open spec fn call_target_outcome(m: ProductIdentityRemap, v: ProductNominalTypeValidator, t: CallTarget, scope: Seq<LocalId>) -> Result<(), Seq<char>> {
    match t {
        CallTarget::Function(id) => def_target_outcome(crate::validator::function_target_outcome(v, crate::ids::spec_product_of(id)), m, id),
        CallTarget::Extern(id) => def_target_outcome(crate::validator::extern_target_outcome(v, crate::ids::spec_product_of(id)), m, id),
        CallTarget::Local(l) => if scope.contains(l) {
            Ok(())
        } else {
            Err("Product artifact references unknown local call target "@ + "HirLocalId("@ + crate::text::decimal(l.0 as nat) + ")"@)
        },
        CallTarget::Instance(id) => Err("Product artifact contains local instance call target "@ + "InstanceId("@
            + crate::text::decimal(id.0 as nat) + ")"@),
        _ => Ok(()),
    }
}

/// `msg` may be what checking the call target `t` in `scope` reports; for
/// a static method, its owner type, then its authority, then the method
/// itself.
pub open spec fn call_target_err(m: ProductIdentityRemap, v: ProductNominalTypeValidator, t: CallTarget, scope: Seq<LocalId>, msg: Seq<char>) -> bool {
    match t {
        CallTarget::StaticMethod(st) => if !tok(m, v, st.owner_ty) {
            crate::typemap::type_outcome(m, v, st.owner_ty) == Err::<(), Seq<char>>(msg)
        } else if !static_authority_ok(v, st.method) {
            exists|ea: Seq<Type>| #[trigger] expected_args(v, st.method, ea) && static_authority_outcome(v, st.method, ea) == Err::<(), Seq<char>>(msg)
        } else {
            method_err(m, v, st.method, msg)
        },
        _ => call_target_outcome(m, v, t, scope) == Err::<(), Seq<char>>(msg),
    }
}

/// Checks a call target in `scope` and remaps it.
pub fn remapped_call_target(t: &CallTarget, m: &ProductIdentityRemap, v: &ProductNominalTypeValidator, scope: &Vec<LocalId>) -> (res: Result<CallTarget, String>)
    ensures
        res is Ok <==> call_target_ok(*m, *v, *t, scope@),
        res matches Ok(t2) ==> call_target_map(*m, *t, t2),
        res matches Err(e) ==> call_target_err(*m, *v, *t, scope@, e@),
{
    proof {
        reveal_strlit("");
    }
    match t {
        CallTarget::Function(id) => {
            v.validate_function_call_target(ProductDefId::from_def_id(*id))?;
            Ok(CallTarget::Function(map_def(m, *id)?))
        },
        CallTarget::Extern(id) => {
            v.validate_extern_call_target(ProductDefId::from_def_id(*id))?;
            Ok(CallTarget::Extern(map_def(m, *id)?))
        },
        CallTarget::Local(id) => {
            if !contains_local(scope, *id) {
                let e = id_message("Product artifact references unknown local call target ", "HirLocalId(", id.0, "");
                proof {
                    assert(e@ =~= "Product artifact references unknown local call target "@ + "HirLocalId("@ + crate::text::decimal(id.0 as nat) + ")"@);
                }
                return Err(e);
            }
            Ok(CallTarget::Local(*id))
        },
        CallTarget::StaticMethod(st) => {
            let owner_ty = remapped_type(&st.owner_ty, m, v)?;
            check_static_authority(&st.method, v)?;
            let method = remap_method_target(&st.method, m, v)?;
            Ok(CallTarget::StaticMethod(StaticMethodTarget { owner_ty, method }))
        },
        CallTarget::Instance(id) => {
            let e = id_message("Product artifact contains local instance call target ", "InstanceId(", id.0, "");
            proof {
                assert(e@ =~= "Product artifact contains local instance call target "@ + "InstanceId("@ + crate::text::decimal(id.0 as nat) + ")"@);
            }
            Err(e)
        },
        CallTarget::Intrinsic(name) => Ok(CallTarget::Intrinsic(name.clone())),
    }
}


// ----- the errors of bodies -----

/// The message of a struct `what` (a literal or a pattern) of the struct
/// `owner` naming its field `field` in the definition `field_owner`.
pub open spec fn msg_owner_mismatch(what: Seq<char>, owner: DefId, field: Seq<char>, field_owner: DefId) -> Seq<char> {
    "Product artifact struct "@ + what + " field owner mismatch: "@ + what + " owner "@
        + crate::text::decimal(owner.local.0 as nat) + " but field '"@ + field + "' owner "@
        + crate::text::decimal(field_owner.local.0 as nat)
}

/// What checking the location `loc` of the field `name` of a struct `what`
/// of the struct `sid` reports: that the field belongs to that struct, then
/// the field itself and its owner's identity.
pub open spec fn field_loc_outcome(
    m: ProductIdentityRemap,
    c: ProductChildLocationValidator,
    sid: Option<DefId>,
    loc: FieldLocation,
    name: Seq<char>,
    what: Seq<char>,
) -> Result<(), Seq<char>> {
    if sid matches Some(s) && crate::ids::spec_product_of(loc.owner) != crate::ids::spec_product_of(s) {
        Err(msg_owner_mismatch(what, sid.unwrap(), name, loc.owner))
    } else {
        def_target_outcome(crate::child::field_outcome(c.field_name(crate::ids::spec_product_of(loc.owner), loc.field_id),
            crate::ids::spec_product_of(loc.owner), loc.field_id, loc.name@, name), m, loc.owner)
    }
}

/// `msg` may be what remapping the fields `fs` of a pattern of the struct
/// `sid` reports: for the first field that fails, its location, then its
/// pattern.
pub open spec fn field_patterns_err(
    m: ProductIdentityRemap,
    c: ProductChildLocationValidator,
    v: ProductNominalTypeValidator,
    sid: Option<DefId>,
    fs: Seq<StructPatternField>,
    d: nat,
    msg: Seq<char>,
) -> bool
    decreases fs,
{
    if fs.len() == 0 {
        false
    } else if fs[0].field matches Some(l) && field_loc_outcome(m, c, sid, l, fs[0].name@, "pattern"@) is Err {
        field_loc_outcome(m, c, sid, fs[0].field.unwrap(), fs[0].name@, "pattern"@) == Err::<(), Seq<char>>(msg)
    } else if !pattern_ok(m, c, v, fs[0].pattern, d) {
        pattern_err(m, c, v, fs[0].pattern, d, msg)
    } else {
        field_patterns_err(m, c, v, sid, fs.drop_first(), d, msg)
    }
}

/// `msg` may be what remapping the pattern `p` at depth `d` reports: the
/// depth limit, then the error of its first failing part: a variant
/// location, a struct, a type argument, a field, a nested pattern.
pub open spec fn pattern_err(
    m: ProductIdentityRemap,
    c: ProductChildLocationValidator,
    v: ProductNominalTypeValidator,
    p: Pattern,
    d: nat,
    msg: Seq<char>,
) -> bool
    decreases p,
{
    if d > MAX_REMAP_DEPTH {
        msg == msg_depth()
    } else {
        match p {
            Pattern::Tuple(subs) => patterns_err(m, c, v, subs@, d + 1, msg),
            Pattern::Or(subs) => patterns_err(m, c, v, subs@, d + 1, msg),
            Pattern::Enum(_, vn, loc, subs) => if loc matches Some(l) && def_target_outcome(crate::child::variant_outcome(c.variant_name(crate::ids::spec_product_of(l.owner), l.variant_id), crate::ids::spec_product_of(l.owner),
                    l.variant_id, l.name@, vn@), m, l.owner) is Err {
                def_target_outcome(crate::child::variant_outcome(c.variant_name(crate::ids::spec_product_of(loc.unwrap().owner), loc.unwrap().variant_id), crate::ids::spec_product_of(loc.unwrap().owner),
                    loc.unwrap().variant_id, loc.unwrap().name@, vn@), m, loc.unwrap().owner) == Err::<(), Seq<char>>(msg)
            } else {
                patterns_err(m, c, v, subs@, d + 1, msg)
            },
            Pattern::Struct(_, sid, targs, fields) => if sid matches Some(sd) && def_target_outcome(crate::validator::nominal_outcome(v, crate::ids::spec_product_of(sd), v.local.structs@, v.dependency.structs@, " as struct"@), m, sd) is Err {
                def_target_outcome(crate::validator::nominal_outcome(v, crate::ids::spec_product_of(sid.unwrap()), v.local.structs@, v.dependency.structs@, " as struct"@), m, sid.unwrap()) == Err::<(), Seq<char>>(msg)
            } else if !tsok(m, v, targs@) {
                crate::typemap::list_outcome(m, v, targs@) == Err::<(), Seq<char>>(msg)
            } else {
                field_patterns_err(m, c, v, sid, fields@, d + 1, msg)
            },
            _ => false,
        }
    }
}

/// `msg` may be what remapping the patterns `ps` in order reports: the
/// error of the first that fails.
pub open spec fn patterns_err(
    m: ProductIdentityRemap,
    c: ProductChildLocationValidator,
    v: ProductNominalTypeValidator,
    ps: Seq<Pattern>,
    d: nat,
    msg: Seq<char>,
) -> bool
    decreases ps,
{
    if ps.len() == 0 {
        false
    } else if !pattern_ok(m, c, v, ps[0], d) {
        pattern_err(m, c, v, ps[0], d, msg)
    } else {
        patterns_err(m, c, v, ps.drop_first(), d, msg)
    }
}

/// What checking one capture against the enclosing scope reports: a local
/// not in scope, then its type.
pub open spec fn capture_outcome(m: ProductIdentityRemap, v: ProductNominalTypeValidator, outer: Seq<LocalId>, cap: Capture) -> Result<(), Seq<char>> {
    if !outer.contains(cap.local_id) {
        Err("Product artifact references unknown local capture "@ + "HirLocalId("@ + crate::text::decimal(cap.local_id.0 as nat) + ")"@)
    } else {
        crate::typemap::type_outcome(m, v, cap.ty)
    }
}

/// `msg` is what the first failing capture reports.
pub open spec fn captures_err(m: ProductIdentityRemap, v: ProductNominalTypeValidator, outer: Seq<LocalId>, cs: Seq<Capture>, msg: Seq<char>) -> bool {
    exists|k: int| 0 <= k < cs.len()
        && (forall|j: int| 0 <= j < k ==> capture_outcome(m, v, outer, #[trigger] cs[j]) is Ok)
        && #[trigger] capture_outcome(m, v, outer, cs[k]) == Err::<(), Seq<char>>(msg)
}

/// `msg` is the type error of the first parameter whose type fails.
pub open spec fn params_err(m: ProductIdentityRemap, v: ProductNominalTypeValidator, ps: Seq<Param>, msg: Seq<char>) -> bool {
    exists|k: int| 0 <= k < ps.len() && !tok(m, v, ps[k].ty)
        && (forall|j: int| 0 <= j < k ==> tok(m, v, (#[trigger] ps[j]).ty))
        && #[trigger] crate::typemap::type_outcome(m, v, ps[k].ty) == Err::<(), Seq<char>>(msg)
}

/// `msg` may be what the method authority `t` reports when it fails: its
/// authority error, or, when the authority itself holds, the error of the
/// definitions and types it carries.
pub open spec fn method_err(m: ProductIdentityRemap, v: ProductNominalTypeValidator, t: MethodCallTarget, msg: Seq<char>) -> bool {
    if method_target_ok(v, t) {
        target_parts_outcome(m, v, t) == Err::<(), Seq<char>>(msg)
    } else {
        exists|ea: Seq<Type>| #[trigger] expected_args(v, t, ea) && authority_outcome(v, t, ea) == Err::<(), Seq<char>>(msg)
    }
}

/// `msg` may be what checking the method-call authority `t` reports: the
/// first of its call check and its method check that fails.
pub open spec fn branch_err(m: ProductIdentityRemap, v: ProductNominalTypeValidator, t: MethodCallTarget, msg: Seq<char>) -> bool {
    if !call_authority_ok(v, t) {
        exists|ea: Seq<Type>| #[trigger] expected_args(v, t, ea) && call_authority_outcome(v, t, ea) == Err::<(), Seq<char>>(msg)
    } else {
        method_err(m, v, t, msg)
    }
}

/// `msg` may be what remapping the expression `e` in `scope` at depth `d`
/// reports: the error of its first failing part, in the order the remap
/// checks them, down to depths, types, variables, call targets, field and
/// variant locations, struct identities and fields, patterns, closure
/// captures, match arms, `?` expressions and method-call authorities.
pub open spec fn expr_err(
    m: ProductIdentityRemap,
    c: ProductChildLocationValidator,
    v: ProductNominalTypeValidator,
    e: Expr,
    scope: Seq<LocalId>,
    d: nat,
    msg: Seq<char>,
) -> bool
    decreases e,
{
    if d > MAX_REMAP_DEPTH {
        msg == msg_depth()
    } else if !tok(m, v, e.ty) {
        crate::typemap::type_outcome(m, v, e.ty) == Err::<(), Seq<char>>(msg)
    } else {
        match e.kind {
            ExprKind::ResolvedVar(r) => var_outcome(m, v, r, scope) == Err::<(), Seq<char>>(msg),
            ExprKind::ArrayLiteral(xs) => exprs_err(m, c, v, xs@, scope, d + 1, msg),
            ExprKind::TupleLiteral(xs) => exprs_err(m, c, v, xs@, scope, d + 1, msg),
            ExprKind::ArrayRepeat(x, _) => expr_err(m, c, v, *x, scope, d + 1, msg),
            ExprKind::FieldAccess(b, name, loc) => if !expr_ok(m, c, v, *b, scope, d + 1) {
                expr_err(m, c, v, *b, scope, d + 1, msg)
            } else {
                loc matches Some(l) && def_target_outcome(crate::child::field_outcome(c.field_name(crate::ids::spec_product_of(l.owner), l.field_id), crate::ids::spec_product_of(l.owner),
                    l.field_id, l.name@, name@), m, l.owner) == Err::<(), Seq<char>>(msg)
            },
            ExprKind::TupleIndex(x, _) => expr_err(m, c, v, *x, scope, d + 1, msg),
            ExprKind::UnaryOp(_, x) => expr_err(m, c, v, *x, scope, d + 1, msg),
            ExprKind::Ref(_, x) => expr_err(m, c, v, *x, scope, d + 1, msg),
            ExprKind::Deref(x) => expr_err(m, c, v, *x, scope, d + 1, msg),
            ExprKind::BinOp(_, a, b) => if !expr_ok(m, c, v, *a, scope, d + 1) { expr_err(m, c, v, *a, scope, d + 1, msg) } else { expr_err(m, c, v, *b, scope, d + 1, msg) },
            ExprKind::Assign(a, b) => if !expr_ok(m, c, v, *a, scope, d + 1) { expr_err(m, c, v, *a, scope, d + 1, msg) } else { expr_err(m, c, v, *b, scope, d + 1, msg) },
            ExprKind::Range(a, b) => if !expr_ok(m, c, v, *a, scope, d + 1) { expr_err(m, c, v, *a, scope, d + 1, msg) } else { expr_err(m, c, v, *b, scope, d + 1, msg) },
            ExprKind::Call(callee, args, target) => if target matches Some(t) && !call_target_ok(m, v, t, scope) {
                call_target_err(m, v, target.unwrap(), scope, msg)
            } else if authorized_static_callee(*callee, target) {
                if !tok(m, v, callee.ty) {
                    crate::typemap::type_outcome(m, v, callee.ty) == Err::<(), Seq<char>>(msg)
                } else if !idok(m, callee.kind->ResolvedVar_0.target->Function_0) {
                    msg == crate::remap::msg_unmapped(crate::ids::spec_product_of(callee.kind->ResolvedVar_0.target->Function_0))
                } else {
                    exprs_err(m, c, v, args@, scope, d + 1, msg)
                }
            } else if !expr_ok(m, c, v, *callee, scope, d + 1) {
                expr_err(m, c, v, *callee, scope, d + 1, msg)
            } else {
                exprs_err(m, c, v, args@, scope, d + 1, msg)
            },
            ExprKind::MethodCall(recv, _, args, _, target) => if !(call_authority_ok(v, target) && method_remap_ok(m, v, target)) {
                branch_err(m, v, target, msg)
            } else if !expr_ok(m, c, v, *recv, scope, d + 1) {
                expr_err(m, c, v, *recv, scope, d + 1, msg)
            } else {
                exprs_err(m, c, v, args@, scope, d + 1, msg)
            },
            ExprKind::EnumVariant(_, vn, args, loc) => if loc matches Some(l) && def_target_outcome(crate::child::variant_outcome(c.variant_name(crate::ids::spec_product_of(l.owner), l.variant_id), crate::ids::spec_product_of(l.owner),
                    l.variant_id, l.name@, vn@), m, l.owner) is Err {
                def_target_outcome(crate::child::variant_outcome(c.variant_name(crate::ids::spec_product_of(loc.unwrap().owner), loc.unwrap().variant_id), crate::ids::spec_product_of(loc.unwrap().owner),
                    loc.unwrap().variant_id, loc.unwrap().name@, vn@), m, loc.unwrap().owner) == Err::<(), Seq<char>>(msg)
            } else {
                exprs_err(m, c, v, args@, scope, d + 1, msg)
            },
            ExprKind::If { condition, then_branch, else_branch } => if !expr_ok(m, c, v, *condition, scope, d + 1) {
                expr_err(m, c, v, *condition, scope, d + 1, msg)
            } else if !block_ok(m, c, v, then_branch, scope, d + 1) {
                block_err(m, c, v, then_branch, scope, d + 1, msg)
            } else {
                else_branch matches Some(b) && block_err(m, c, v, b, scope, d + 1, msg)
            },
            ExprKind::Match { scrutinee, arms } => if !expr_ok(m, c, v, *scrutinee, scope, d + 1) {
                expr_err(m, c, v, *scrutinee, scope, d + 1, msg)
            } else {
                arms_err(m, c, v, arms@, scope, d + 1, msg)
            },
            ExprKind::While { condition, body } => if !expr_ok(m, c, v, *condition, scope, d + 1) {
                expr_err(m, c, v, *condition, scope, d + 1, msg)
            } else {
                block_err(m, c, v, body, scope, d + 1, msg)
            },
            ExprKind::For { local_id, iter, body } => if !expr_ok(m, c, v, *iter, scope, d + 1) {
                expr_err(m, c, v, *iter, scope, d + 1, msg)
            } else {
                block_err(m, c, v, body, scope.push(local_id), d + 1, msg)
            },
            ExprKind::Loop(b) => block_err(m, c, v, b, scope, d + 1, msg),
            ExprKind::Block(b) => block_err(m, c, v, b, scope, d + 1, msg),
            ExprKind::Lambda { params, body, captures } => if !(forall|k: int| 0 <= k < params@.len() ==> tok(m, v, (#[trigger] params@[k]).ty)) {
                params_err(m, v, params@, msg)
            } else {
                if !(forall|k: int| 0 <= k < captures@.len() ==> scope.contains((#[trigger] captures@[k]).local_id)
                    && tok(m, v, captures@[k].ty)) {
                    captures_err(m, v, scope, captures@, msg)
                } else {
                    block_err(m, c, v, body, param_locals(params@) + capture_locals(captures@), d + 1, msg)
                }
            },
            ExprKind::StructLiteral(_, sid, fields) => if sid matches Some(sd) && def_target_outcome(crate::validator::nominal_outcome(
                v, crate::ids::spec_product_of(sd), v.local.structs@, v.dependency.structs@, " as struct"@), m, sd) is Err {
                def_target_outcome(crate::validator::nominal_outcome(v, crate::ids::spec_product_of(sid.unwrap()), v.local.structs@,
                    v.dependency.structs@, " as struct"@), m, sid.unwrap()) == Err::<(), Seq<char>>(msg)
            } else {
                literal_fields_err(m, c, v, sid, fields@, scope, d + 1, msg)
            },
            ExprKind::Cast(x, ty) => if !tok(m, v, ty) {
                crate::typemap::type_outcome(m, v, ty) == Err::<(), Seq<char>>(msg)
            } else {
                expr_err(m, c, v, *x, scope, d + 1, msg)
            },
            ExprKind::Intrinsic { args, .. } => exprs_err(m, c, v, args@, scope, d + 1, msg),
            ExprKind::Try(t) => try_err(m, c, v, t, scope, d + 1, msg),
            _ => false,
        }
    }
}

/// `msg` may be what remapping the `?` expression `t` in `scope` reports:
/// in order, its three types, its branch method, a branch instance target
/// (which the artifact may not hold), its residual call target, its
/// control-flow enum, its break and continue variants, and the operand.
pub open spec fn try_err(
    m: ProductIdentityRemap,
    c: ProductChildLocationValidator,
    v: ProductNominalTypeValidator,
    t: TryExpr,
    scope: Seq<LocalId>,
    d: nat,
    msg: Seq<char>,
) -> bool
    decreases t,
{
    let brk = crate::child::variant_outcome(c.variant_name(crate::ids::spec_product_of(t.break_variant.owner), t.break_variant.variant_id),
        crate::ids::spec_product_of(t.break_variant.owner), t.break_variant.variant_id, t.break_variant.name@, t.break_variant.name@);
    let cont = crate::child::variant_outcome(c.variant_name(crate::ids::spec_product_of(t.continue_variant.owner), t.continue_variant.variant_id),
        crate::ids::spec_product_of(t.continue_variant.owner), t.continue_variant.variant_id, t.continue_variant.name@, t.continue_variant.name@);
    let cf = crate::validator::nominal_outcome(v, crate::ids::spec_product_of(t.control_flow_enum), v.local.enums@, v.dependency.enums@, " as enum"@);
    if !tok(m, v, t.output_ty) {
        crate::typemap::type_outcome(m, v, t.output_ty) == Err::<(), Seq<char>>(msg)
    } else if !tok(m, v, t.residual_ty) {
        crate::typemap::type_outcome(m, v, t.residual_ty) == Err::<(), Seq<char>>(msg)
    } else if !tok(m, v, t.return_ty) {
        crate::typemap::type_outcome(m, v, t.return_ty) == Err::<(), Seq<char>>(msg)
    } else if !(call_authority_ok(v, t.branch_method) && method_remap_ok(m, v, t.branch_method)) {
        branch_err(m, v, t.branch_method, msg)
    } else if t.branch_target is Some {
        msg == "Product artifact contains a local Try branch instance target"@
    } else if !call_target_ok(m, v, t.from_residual_target, scope) {
        call_target_err(m, v, t.from_residual_target, scope, msg)
    } else if def_target_outcome(cf, m, t.control_flow_enum) is Err {
        def_target_outcome(cf, m, t.control_flow_enum) == Err::<(), Seq<char>>(msg)
    } else if def_target_outcome(brk, m, t.break_variant.owner) is Err {
        def_target_outcome(brk, m, t.break_variant.owner) == Err::<(), Seq<char>>(msg)
    } else if def_target_outcome(cont, m, t.continue_variant.owner) is Err {
        def_target_outcome(cont, m, t.continue_variant.owner) == Err::<(), Seq<char>>(msg)
    } else {
        expr_err(m, c, v, *t.expr, scope, d, msg)
    }
}

/// `msg` may be what remapping the fields `fs` of a literal of the struct
/// `sid` in `scope` reports: for the first field that fails, its location,
/// then its value.
pub open spec fn literal_fields_err(
    m: ProductIdentityRemap,
    c: ProductChildLocationValidator,
    v: ProductNominalTypeValidator,
    sid: Option<DefId>,
    fs: Seq<StructLiteralField>,
    scope: Seq<LocalId>,
    d: nat,
    msg: Seq<char>,
) -> bool
    decreases fs,
{
    if fs.len() == 0 {
        false
    } else if fs[0].field matches Some(l) && field_loc_outcome(m, c, sid, l, fs[0].name@, "literal"@) is Err {
        field_loc_outcome(m, c, sid, fs[0].field.unwrap(), fs[0].name@, "literal"@) == Err::<(), Seq<char>>(msg)
    } else if !expr_ok(m, c, v, fs[0].value, scope, d) {
        expr_err(m, c, v, fs[0].value, scope, d, msg)
    } else {
        literal_fields_err(m, c, v, sid, fs.drop_first(), scope, d, msg)
    }
}

/// `msg` may be what remapping the match arm `a` reports: its pattern,
/// then its guard and its body with the pattern's locals in scope.
pub open spec fn arm_err(
    m: ProductIdentityRemap,
    c: ProductChildLocationValidator,
    v: ProductNominalTypeValidator,
    a: MatchArm,
    scope: Seq<LocalId>,
    d: nat,
    msg: Seq<char>,
) -> bool
    decreases a,
{
    if !pattern_ok(m, c, v, a.pattern, d) {
        pattern_err(m, c, v, a.pattern, d, msg)
    } else if a.guard matches Some(g) && !expr_ok(m, c, v, g, scope + pattern_locals(a.pattern), d) {
        expr_err(m, c, v, a.guard.unwrap(), scope + pattern_locals(a.pattern), d, msg)
    } else {
        block_err(m, c, v, a.body, scope + pattern_locals(a.pattern), d, msg)
    }
}

/// `msg` may be what remapping the match arms `arms` in order reports: the
/// error of the first that fails.
pub open spec fn arms_err(
    m: ProductIdentityRemap,
    c: ProductChildLocationValidator,
    v: ProductNominalTypeValidator,
    arms: Seq<MatchArm>,
    scope: Seq<LocalId>,
    d: nat,
    msg: Seq<char>,
) -> bool
    decreases arms,
{
    if arms.len() == 0 {
        false
    } else if !arm_ok_at(m, c, v, arms[0], scope, d) {
        arm_err(m, c, v, arms[0], scope, d, msg)
    } else {
        arms_err(m, c, v, arms.drop_first(), scope, d, msg)
    }
}

/// The match arm `a` passes: its pattern, then its guard and body with the
/// pattern's locals in scope.
pub open spec fn arm_ok_at(
    m: ProductIdentityRemap,
    c: ProductChildLocationValidator,
    v: ProductNominalTypeValidator,
    a: MatchArm,
    scope: Seq<LocalId>,
    d: nat,
) -> bool {
    &&& pattern_ok(m, c, v, a.pattern, d)
    &&& (a.guard matches Some(g) ==> expr_ok(m, c, v, g, scope + pattern_locals(a.pattern), d))
    &&& block_ok(m, c, v, a.body, scope + pattern_locals(a.pattern), d)
}

/// `msg` may be what remapping the expressions `xs` in order reports: the
/// error of the first that fails.
pub open spec fn exprs_err(
    m: ProductIdentityRemap,
    c: ProductChildLocationValidator,
    v: ProductNominalTypeValidator,
    xs: Seq<Expr>,
    scope: Seq<LocalId>,
    d: nat,
    msg: Seq<char>,
) -> bool
    decreases xs,
{
    if xs.len() == 0 {
        false
    } else if !expr_ok(m, c, v, xs[0], scope, d) {
        expr_err(m, c, v, xs[0], scope, d, msg)
    } else {
        exprs_err(m, c, v, xs.drop_first(), scope, d, msg)
    }
}

/// `msg` may be what remapping the block `b` reports: the depth limit, its
/// first failing statement, or its type.
pub open spec fn block_err(
    m: ProductIdentityRemap,
    c: ProductChildLocationValidator,
    v: ProductNominalTypeValidator,
    b: Block,
    scope: Seq<LocalId>,
    d: nat,
    msg: Seq<char>,
) -> bool
    decreases b,
{
    if d > MAX_REMAP_DEPTH {
        msg == msg_depth()
    } else if !stmts_ok(m, c, v, b.stmts@, scope, d) {
        stmts_err(m, c, v, b.stmts@, scope, d, msg)
    } else {
        crate::typemap::type_outcome(m, v, b.ty) == Err::<(), Seq<char>>(msg)
    }
}

/// `msg` may be what remapping the statements `ss` in order reports: the
/// error of the first that fails, in the scope the ones before it leave.
pub open spec fn stmts_err(
    m: ProductIdentityRemap,
    c: ProductChildLocationValidator,
    v: ProductNominalTypeValidator,
    ss: Seq<Stmt>,
    scope: Seq<LocalId>,
    d: nat,
    msg: Seq<char>,
) -> bool
    decreases ss,
{
    if ss.len() == 0 {
        false
    } else if !stmt_ok(m, c, v, ss[0], scope, d) {
        stmt_err(m, c, v, ss[0], scope, d, msg)
    } else {
        stmts_err(m, c, v, ss.drop_first(), scope + stmt_locals(ss[0]), d, msg)
    }
}

/// `msg` may be what remapping the statement `s` reports: a let's type,
/// then the expression it holds.
pub open spec fn stmt_err(
    m: ProductIdentityRemap,
    c: ProductChildLocationValidator,
    v: ProductNominalTypeValidator,
    s: Stmt,
    scope: Seq<LocalId>,
    d: nat,
    msg: Seq<char>,
) -> bool
    decreases s,
{
    match s {
        Stmt::Let { ty, value, .. } => if !tok(m, v, ty) {
            crate::typemap::type_outcome(m, v, ty) == Err::<(), Seq<char>>(msg)
        } else {
            expr_err(m, c, v, value, scope, d + 1, msg)
        },
        Stmt::Expr(x) => expr_err(m, c, v, x, scope, d + 1, msg),
        Stmt::Return(Some(x)) => expr_err(m, c, v, x, scope, d + 1, msg),
        Stmt::Break(Some(x)) => expr_err(m, c, v, x, scope, d + 1, msg),
        _ => false,
    }
}

// ----- patterns -----

/// The message for a body nested deeper than the remap allows.
pub open spec fn msg_depth() -> Seq<char> {
    "Product artifact HIR body exceeds maximum remap depth"@
}

fn depth_error() -> (r: String)
    ensures
        r@ == msg_depth(),
{
    text("Product artifact HIR body exceeds maximum remap depth")
}

fn remapped_field_loc(
    loc: &FieldLocation,
    m: &ProductIdentityRemap,
    c: &ProductChildLocationValidator,
    expr_name: &String,
) -> (r: Result<FieldLocation, String>)
    ensures
        r is Ok <==> crate::child::field_outcome(
            c.field_name(crate::ids::spec_product_of(loc.owner), loc.field_id),
            crate::ids::spec_product_of(loc.owner),
            loc.field_id,
            loc.name@,
            expr_name@,
        ) is Ok && idok(*m, loc.owner),
        r matches Ok(l2) ==> field_loc_map(*m, *loc, l2),
        r matches Err(e) ==> def_target_outcome(crate::child::field_outcome(
            c.field_name(crate::ids::spec_product_of(loc.owner), loc.field_id),
            crate::ids::spec_product_of(loc.owner),
            loc.field_id,
            loc.name@,
            expr_name@,
        ), *m, loc.owner) == Err::<(), Seq<char>>(e@),
{
    c.validate_field(ProductDefId::from_def_id(loc.owner), loc.field_id, loc.name.as_str(), expr_name.as_str())?;
    let owner = map_def(m, loc.owner)?;
    Ok(FieldLocation { owner, field_id: loc.field_id, name: loc.name.clone() })
}

fn remapped_variant_loc(
    loc: &VariantLocation,
    m: &ProductIdentityRemap,
    c: &ProductChildLocationValidator,
    expr_name: &String,
) -> (r: Result<VariantLocation, String>)
    ensures
        r is Ok <==> crate::child::variant_outcome(
            c.variant_name(crate::ids::spec_product_of(loc.owner), loc.variant_id),
            crate::ids::spec_product_of(loc.owner),
            loc.variant_id,
            loc.name@,
            expr_name@,
        ) is Ok && idok(*m, loc.owner),
        r matches Ok(l2) ==> variant_loc_map(*m, *loc, l2),
        r matches Err(e) ==> def_target_outcome(crate::child::variant_outcome(
            c.variant_name(crate::ids::spec_product_of(loc.owner), loc.variant_id),
            crate::ids::spec_product_of(loc.owner),
            loc.variant_id,
            loc.name@,
            expr_name@,
        ), *m, loc.owner) == Err::<(), Seq<char>>(e@),
{
    c.validate_variant(ProductDefId::from_def_id(loc.owner), loc.variant_id, loc.name.as_str(), expr_name.as_str())?;
    let owner = map_def(m, loc.owner)?;
    Ok(VariantLocation { owner, variant_id: loc.variant_id, name: loc.name.clone() })
}

fn owner_mismatch_message(what: &str, owner: DefId, field: &String, field_owner: DefId) -> (r: String)
    ensures
        r@ == msg_owner_mismatch(what@, owner, field@, field_owner),
{
    let mut s = text("Product artifact struct ");
    crate::text::push_str(&mut s, what);
    crate::text::push_str(&mut s, " field owner mismatch: ");
    crate::text::push_str(&mut s, what);
    crate::text::push_str(&mut s, " owner ");
    crate::text::push_decimal(&mut s, owner.local.0 as u64);
    crate::text::push_str(&mut s, " but field '");
    crate::text::push_str(&mut s, field.as_str());
    crate::text::push_str(&mut s, "' owner ");
    crate::text::push_decimal(&mut s, field_owner.local.0 as u64);
    s
}

fn remapped_struct_id(sid: &Option<DefId>, m: &ProductIdentityRemap, v: &ProductNominalTypeValidator) -> (r: Result<Option<DefId>, String>)
    ensures
        r is Ok <==> (*sid matches Some(s) ==> crate::validator::nominal_outcome(
            *v,
            crate::ids::spec_product_of(s),
            v.local.structs@,
            v.dependency.structs@,
            " as struct"@,
        ) is Ok && idok(*m, s)),
        r matches Ok(s2) ==> opt_id_map(*m, *sid, s2),
        r matches Err(e) ==> (*sid matches Some(sd) && def_target_outcome(crate::validator::nominal_outcome(*v, crate::ids::spec_product_of(sd),
            v.local.structs@, v.dependency.structs@, " as struct"@), *m, sd) == Err::<(), Seq<char>>(e@)),
{
    match sid {
        None => Ok(None),
        Some(s) => {
            v.validate_struct(ProductDefId::from_def_id(*s))?;
            Ok(Some(map_def(m, *s)?))
        },
    }
}

/// Checks the definitions and locations of a pattern and remaps them.
pub fn remapped_pattern(
    p: &Pattern,
    m: &ProductIdentityRemap,
    c: &ProductChildLocationValidator,
    v: &ProductNominalTypeValidator,
    depth: usize,
) -> (r: Result<Pattern, String>)
    ensures
        r is Ok <==> pattern_ok(*m, *c, *v, *p, depth as nat),
        depth > MAX_REMAP_DEPTH ==> (r matches Err(e) && e@ == msg_depth()),
        r matches Ok(p2) ==> pattern_map(*m, *p, p2),
        r matches Err(er) ==> pattern_err(*m, *c, *v, *p, depth as nat, er@),
    decreases p, 1nat,
{
    if depth > MAX_REMAP_DEPTH {
        return Err(depth_error());
    }
    match p {
        Pattern::Wildcard => Ok(Pattern::Wildcard),
        Pattern::Binding { name, local_id, mutable } => Ok(Pattern::Binding { name: name.clone(), local_id: *local_id, mutable: *mutable }),
        Pattern::Literal(x) => Ok(Pattern::Literal(*x)),
        Pattern::Tuple(subs) => {
            proof { assert(decreases_to!(*p => (*p)->Tuple_0)); }
            Ok(Pattern::Tuple(remapped_patterns(subs, m, c, v, depth + 1)?))
        },
        Pattern::Or(subs) => {
            proof { assert(decreases_to!(*p => (*p)->Or_0)); }
            Ok(Pattern::Or(remapped_patterns(subs, m, c, v, depth + 1)?))
        },
        Pattern::Enum(en, vn, loc, subs) => {
            proof { assert(decreases_to!(*p => (*p)->Enum_3)); }
            let loc2 = match loc {
                None => None,
                Some(l) => Some(remapped_variant_loc(l, m, c, vn)?),
            };
            let subs2 = remapped_patterns(subs, m, c, v, depth + 1)?;
            Ok(Pattern::Enum(en.clone(), vn.clone(), loc2, subs2))
        },
        Pattern::Struct(name, sid, targs, fields) => {
            proof { assert(decreases_to!(*p => (*p)->Struct_3)); }
            let sid2 = remapped_struct_id(sid, m, v)?;
            let targs2 = remapped_type_list(targs, m, v)?;
            let fields2 = remapped_field_patterns(fields, sid, m, c, v, depth + 1)?;
            Ok(Pattern::Struct(name.clone(), sid2, targs2, fields2))
        },
    }
}

fn remapped_patterns(
    ps: &Vec<Pattern>,
    m: &ProductIdentityRemap,
    c: &ProductChildLocationValidator,
    v: &ProductNominalTypeValidator,
    depth: usize,
) -> (r: Result<Vec<Pattern>, String>)
    ensures
        r is Ok <==> forall|k: int| 0 <= k < ps@.len() ==> pattern_ok(*m, *c, *v, #[trigger] ps@[k], depth as nat),
        r matches Ok(ps2) ==> ps@.len() == ps2@.len() && forall|k: int| 0 <= k < ps@.len() ==> pattern_map(*m, #[trigger] ps@[k], ps2@[k]),
        r matches Err(er) ==> patterns_err(*m, *c, *v, ps@, depth as nat, er@),
    decreases ps, 0nat,
{
    let mut out: Vec<Pattern> = Vec::new();
    let mut k: usize = 0;
    assert(ps@.subrange(0, ps@.len() as int) =~= ps@);
    while k < ps.len()
        invariant
            k <= ps@.len(),
            out@.len() == k,
            forall|j: int| 0 <= j < k ==> pattern_ok(*m, *c, *v, #[trigger] ps@[j], depth as nat),
            forall|j: int| 0 <= j < k ==> pattern_map(*m, #[trigger] ps@[j], out@[j]),
            forall|msg: Seq<char>| patterns_err(*m, *c, *v, ps@, depth as nat, msg)
                == #[trigger] patterns_err(*m, *c, *v, ps@.subrange(k as int, ps@.len() as int), depth as nat, msg),
        decreases ps.len() - k,
    {
        proof { assert(decreases_to!(*ps => ps[k as int])); }
        let p2 = match remapped_pattern(&ps[k], m, c, v, depth) {
            Ok(p2) => p2,
            Err(er) => {
                proof {
                    let rest = ps@.subrange(k as int, ps@.len() as int);
                    assert(rest[0] == ps@[k as int]);
                    assert(patterns_err(*m, *c, *v, rest, depth as nat, er@));
                }
                return Err(er);
            },
        };
        proof {
            let rest = ps@.subrange(k as int, ps@.len() as int);
            assert(rest[0] == ps@[k as int]);
            assert(rest.drop_first() =~= ps@.subrange(k + 1, ps@.len() as int));
            assert forall|msg: Seq<char>| patterns_err(*m, *c, *v, rest, depth as nat, msg)
                == #[trigger] patterns_err(*m, *c, *v, ps@.subrange(k + 1, ps@.len() as int), depth as nat, msg) by {
                assert(pattern_ok(*m, *c, *v, rest[0], depth as nat));
            }
        }
        out.push(p2);
        k = k + 1;
    }
    Ok(out)
}

fn remapped_field_patterns(
    fields: &Vec<StructPatternField>,
    sid: &Option<DefId>,
    m: &ProductIdentityRemap,
    c: &ProductChildLocationValidator,
    v: &ProductNominalTypeValidator,
    depth: usize,
) -> (r: Result<Vec<StructPatternField>, String>)
    requires
        depth >= 1,
    ensures
        r is Ok <==> forall|k: int| 0 <= k < fields@.len() ==> {
            &&& ((#[trigger] fields@[k]).field matches Some(loc) ==> {
                &&& (*sid matches Some(s) ==> crate::ids::spec_product_of(loc.owner) == crate::ids::spec_product_of(s))
                &&& crate::child::field_outcome(
                    c.field_name(crate::ids::spec_product_of(loc.owner), loc.field_id),
                    crate::ids::spec_product_of(loc.owner),
                    loc.field_id,
                    loc.name@,
                    fields@[k].name@,
                ) is Ok
                &&& idok(*m, loc.owner)
            })
            &&& pattern_ok(*m, *c, *v, fields@[k].pattern, depth as nat)
        },
        r matches Ok(f2) ==> fields@.len() == f2@.len() && forall|k: int| 0 <= k < fields@.len() ==> {
            &&& (#[trigger] f2@[k]).name@ == fields@[k].name@
            &&& match fields@[k].field {
                None => f2@[k].field is None,
                Some(l) => f2@[k].field matches Some(l2) && field_loc_map(*m, l, l2),
            }
            &&& pattern_map(*m, fields@[k].pattern, f2@[k].pattern)
        },
        r matches Err(er) ==> field_patterns_err(*m, *c, *v, *sid, fields@, depth as nat, er@),
    decreases fields, 0nat,
{
    let mut out: Vec<StructPatternField> = Vec::new();
    let mut k: usize = 0;
    assert(fields@.subrange(0, fields@.len() as int) =~= fields@);
    while k < fields.len()
        invariant
            k <= fields@.len(),
            out@.len() == k,
            forall|msg: Seq<char>| field_patterns_err(*m, *c, *v, *sid, fields@, depth as nat, msg)
                == #[trigger] field_patterns_err(*m, *c, *v, *sid, fields@.subrange(k as int, fields@.len() as int), depth as nat, msg),
            forall|j: int| 0 <= j < k ==> {
                &&& ((#[trigger] fields@[j]).field matches Some(loc) ==> {
                    &&& (*sid matches Some(s) ==> crate::ids::spec_product_of(loc.owner) == crate::ids::spec_product_of(s))
                    &&& crate::child::field_outcome(
                        c.field_name(crate::ids::spec_product_of(loc.owner), loc.field_id),
                        crate::ids::spec_product_of(loc.owner),
                        loc.field_id,
                        loc.name@,
                        fields@[j].name@,
                    ) is Ok
                    &&& idok(*m, loc.owner)
                })
                &&& pattern_ok(*m, *c, *v, fields@[j].pattern, depth as nat)
            },
            forall|j: int| 0 <= j < k ==> {
                &&& (#[trigger] out@[j]).name@ == fields@[j].name@
                &&& match fields@[j].field {
                    None => out@[j].field is None,
                    Some(l) => out@[j].field matches Some(l2) && field_loc_map(*m, l, l2),
                }
                &&& pattern_map(*m, fields@[j].pattern, out@[j].pattern)
            },
        decreases fields.len() - k,
    {
        proof {
            assert(decreases_to!(*fields => fields[k as int]));
            assert(decreases_to!(fields[k as int] => fields[k as int].pattern));
        }
        let f = &fields[k];
        let ghost rest = fields@.subrange(k as int, fields@.len() as int);
        proof {
            assert(rest[0] == fields@[k as int]);
            reveal_strlit("pattern");
        }
        let loc2 = match &f.field {
            None => None,
            Some(loc) => {
                if let Some(s) = sid {
                    if ProductDefId::from_def_id(loc.owner) != ProductDefId::from_def_id(*s) {
                        let e = owner_mismatch_message("pattern", *s, &f.name, loc.owner);
                        proof { assert(field_patterns_err(*m, *c, *v, *sid, rest, depth as nat, e@)); }
                        return Err(e);
                    }
                }
                match remapped_field_loc(loc, m, c, &f.name) {
                    Ok(l2) => Some(l2),
                    Err(e) => {
                        proof { assert(field_patterns_err(*m, *c, *v, *sid, rest, depth as nat, e@)); }
                        return Err(e);
                    },
                }
            },
        };
        let pat = match remapped_pattern(&f.pattern, m, c, v, depth) {
            Ok(p2) => p2,
            Err(e) => {
                proof { assert(field_patterns_err(*m, *c, *v, *sid, rest, depth as nat, e@)); }
                return Err(e);
            },
        };
        proof {
            assert(rest.drop_first() =~= fields@.subrange(k + 1, fields@.len() as int));
            assert forall|msg: Seq<char>| field_patterns_err(*m, *c, *v, *sid, rest, depth as nat, msg)
                == #[trigger] field_patterns_err(*m, *c, *v, *sid, fields@.subrange(k + 1, fields@.len() as int), depth as nat, msg) by {
            }
        }
        out.push(StructPatternField { name: f.name.clone(), field: loc2, pattern: pat });
        k = k + 1;
    }
    Ok(out)
}


// ----- expressions, statements and blocks -----

fn is_authorized_static_callee(callee: &Expr, target: &Option<CallTarget>) -> (r: bool)
    ensures
        r == authorized_static_callee(*callee, *target),
{
    match (&callee.kind, target) {
        (ExprKind::ResolvedVar(r), Some(CallTarget::StaticMethod(st))) => match &r.target {
            VarTarget::Function(cid) => match st.method.method_id() {
                Some(mid) => mid == *cid,
                None => false,
            },
            _ => false,
        },
        _ => false,
    }
}

/// The callee `name` of a call that its static-method authority stands
/// for: its type is remapped and it names the remapped method `cid` as a
/// function.
fn authorized_callee(r: &VarRef, cid: DefId, ty: &Type, m: &ProductIdentityRemap, v: &ProductNominalTypeValidator) -> (res: Result<Expr, String>)
    ensures
        res is Ok <==> tok(*m, *v, *ty) && idok(*m, cid),
        res matches Err(e) ==> if !tok(*m, *v, *ty) {
            crate::typemap::type_outcome(*m, *v, *ty) == Err::<(), Seq<char>>(e@)
        } else {
            e@ == crate::remap::msg_unmapped(crate::ids::spec_product_of(cid))
        },
        res matches Ok(c2) ==> c2.kind == ExprKind::ResolvedVar(c2.kind->ResolvedVar_0) && type_map(*m, *ty, c2.ty)
            && c2.kind->ResolvedVar_0.name@ == r.name@ && c2.kind->ResolvedVar_0.target == VarTarget::Function(mapped(*m, cid)),
{
    let cty = remapped_type(ty, m, v)?;
    let target = VarTarget::Function(map_def(m, cid)?);
    Ok(Expr { kind: ExprKind::ResolvedVar(VarRef { name: r.name.clone(), target }), ty: cty })
}

fn remapped_exprs(
    xs: &Vec<Expr>,
    m: &ProductIdentityRemap,
    c: &ProductChildLocationValidator,
    v: &ProductNominalTypeValidator,
    scope: &Vec<LocalId>,
    depth: usize,
) -> (r: Result<Vec<Expr>, String>)
    ensures
        r is Ok <==> forall|k: int| 0 <= k < xs@.len() ==> expr_ok(*m, *c, *v, #[trigger] xs@[k], scope@, depth as nat),
        r matches Ok(ys) ==> xs@.len() == ys@.len() && forall|k: int| 0 <= k < xs@.len() ==> expr_map(*m, #[trigger] xs@[k], ys@[k]),
        r matches Err(er) ==> exprs_err(*m, *c, *v, xs@, scope@, depth as nat, er@),
    decreases xs,
{
    let mut out: Vec<Expr> = Vec::new();
    assert(xs@.subrange(0, xs@.len() as int) =~= xs@);
    let mut k: usize = 0;
    while k < xs.len()
        invariant
            k <= xs@.len(),
            out@.len() == k,
            forall|j: int| 0 <= j < k ==> expr_ok(*m, *c, *v, #[trigger] xs@[j], scope@, depth as nat),
            forall|j: int| 0 <= j < k ==> expr_map(*m, #[trigger] xs@[j], out@[j]),
            forall|msg: Seq<char>| exprs_err(*m, *c, *v, xs@, scope@, depth as nat, msg)
                == #[trigger] exprs_err(*m, *c, *v, xs@.subrange(k as int, xs@.len() as int), scope@, depth as nat, msg),
        decreases xs.len() - k,
    {
        proof { assert(decreases_to!(*xs => xs[k as int])); }
        let y = match remapped_expr(&xs[k], m, c, v, scope, depth) {
            Ok(y) => y,
            Err(er) => {
                proof {
                    let rest = xs@.subrange(k as int, xs@.len() as int);
                    assert(rest[0] == xs@[k as int]);
                    assert(exprs_err(*m, *c, *v, rest, scope@, depth as nat, er@));
                }
                return Err(er);
            },
        };
        proof {
            let rest = xs@.subrange(k as int, xs@.len() as int);
            assert(rest[0] == xs@[k as int]);
            assert(rest.drop_first() =~= xs@.subrange(k + 1, xs@.len() as int));
            assert forall|msg: Seq<char>| exprs_err(*m, *c, *v, rest, scope@, depth as nat, msg)
                == #[trigger] exprs_err(*m, *c, *v, xs@.subrange(k + 1, xs@.len() as int), scope@, depth as nat, msg) by {
                assert(expr_ok(*m, *c, *v, rest[0], scope@, depth as nat));
            }
        }
        out.push(y);
        k = k + 1;
    }
    Ok(out)
}

fn remapped_opt_expr(
    o: &Option<Expr>,
    m: &ProductIdentityRemap,
    c: &ProductChildLocationValidator,
    v: &ProductNominalTypeValidator,
    scope: &Vec<LocalId>,
    depth: usize,
) -> (r: Result<Option<Expr>, String>)
    ensures
        r is Ok <==> (*o matches Some(e) ==> expr_ok(*m, *c, *v, e, scope@, depth as nat)),
        r matches Ok(o2) ==> opt_expr_map(*m, *o, o2),
        r matches Err(er) ==> (*o matches Some(e) && expr_err(*m, *c, *v, e, scope@, depth as nat, er@)),
    decreases o,
{
    match o {
        None => Ok(None),
        Some(e) => Ok(Some(remapped_expr(e, m, c, v, scope, depth)?)),
    }
}

fn remapped_literal_field(
    f: &StructLiteralField,
    sid: &Option<DefId>,
    m: &ProductIdentityRemap,
    c: &ProductChildLocationValidator,
    v: &ProductNominalTypeValidator,
    scope: &Vec<LocalId>,
    depth: usize,
) -> (r: Result<StructLiteralField, String>)
    ensures
        r is Ok <==> {
            &&& (f.field matches Some(loc) ==> {
                &&& (*sid matches Some(s) ==> crate::ids::spec_product_of(loc.owner) == crate::ids::spec_product_of(s))
                &&& crate::child::field_outcome(
                    c.field_name(crate::ids::spec_product_of(loc.owner), loc.field_id),
                    crate::ids::spec_product_of(loc.owner),
                    loc.field_id,
                    loc.name@,
                    f.name@,
                ) is Ok
                &&& idok(*m, loc.owner)
            })
            &&& expr_ok(*m, *c, *v, f.value, scope@, depth as nat)
        },
        r matches Ok(f2) ==> {
            &&& f2.name@ == f.name@
            &&& match f.field {
                None => f2.field is None,
                Some(l) => f2.field matches Some(l2) && field_loc_map(*m, l, l2),
            }
            &&& expr_map(*m, f.value, f2.value)
        },
        r matches Err(er) ==> literal_fields_err(*m, *c, *v, *sid, seq![*f], scope@, depth as nat, er@),
    decreases f,
{
    proof { reveal_strlit("literal"); }
    let loc2 = match &f.field {
        None => None,
        Some(loc) => {
            if let Some(s) = sid {
                if ProductDefId::from_def_id(loc.owner) != ProductDefId::from_def_id(*s) {
                    return Err(owner_mismatch_message("literal", *s, &f.name, loc.owner));
                }
            }
            Some(remapped_field_loc(loc, m, c, &f.name)?)
        },
    };
    let value = remapped_expr(&f.value, m, c, v, scope, depth)?;
    Ok(StructLiteralField { name: f.name.clone(), value, field: loc2 })
}

fn remapped_literal_fields(
    fields: &Vec<StructLiteralField>,
    sid: &Option<DefId>,
    m: &ProductIdentityRemap,
    c: &ProductChildLocationValidator,
    v: &ProductNominalTypeValidator,
    scope: &Vec<LocalId>,
    depth: usize,
) -> (r: Result<Vec<StructLiteralField>, String>)
    ensures
        r is Ok <==> forall|k: int| 0 <= k < fields@.len() ==> {
            &&& ((#[trigger] fields@[k]).field matches Some(loc) ==> {
                &&& (*sid matches Some(s) ==> crate::ids::spec_product_of(loc.owner) == crate::ids::spec_product_of(s))
                &&& crate::child::field_outcome(
                    c.field_name(crate::ids::spec_product_of(loc.owner), loc.field_id),
                    crate::ids::spec_product_of(loc.owner),
                    loc.field_id,
                    loc.name@,
                    fields@[k].name@,
                ) is Ok
                &&& idok(*m, loc.owner)
            })
            &&& expr_ok(*m, *c, *v, fields@[k].value, scope@, depth as nat)
        },
        r matches Ok(f2) ==> fields@.len() == f2@.len() && forall|k: int| 0 <= k < fields@.len() ==> {
            &&& (#[trigger] f2@[k]).name@ == fields@[k].name@
            &&& match fields@[k].field {
                None => f2@[k].field is None,
                Some(l) => f2@[k].field matches Some(l2) && field_loc_map(*m, l, l2),
            }
            &&& expr_map(*m, fields@[k].value, f2@[k].value)
        },
        r matches Err(er) ==> literal_fields_err(*m, *c, *v, *sid, fields@, scope@, depth as nat, er@),
    decreases fields,
{
    let mut out: Vec<StructLiteralField> = Vec::new();
    let mut k: usize = 0;
    assert(fields@.subrange(0, fields@.len() as int) =~= fields@);
    while k < fields.len()
        invariant
            k <= fields@.len(),
            out@.len() == k,
            forall|msg: Seq<char>| literal_fields_err(*m, *c, *v, *sid, fields@, scope@, depth as nat, msg)
                == #[trigger] literal_fields_err(*m, *c, *v, *sid, fields@.subrange(k as int, fields@.len() as int), scope@, depth as nat, msg),
            forall|j: int| 0 <= j < k ==> {
                &&& ((#[trigger] fields@[j]).field matches Some(loc) ==> {
                    &&& (*sid matches Some(s) ==> crate::ids::spec_product_of(loc.owner) == crate::ids::spec_product_of(s))
                    &&& crate::child::field_outcome(
                        c.field_name(crate::ids::spec_product_of(loc.owner), loc.field_id),
                        crate::ids::spec_product_of(loc.owner),
                        loc.field_id,
                        loc.name@,
                        fields@[j].name@,
                    ) is Ok
                    &&& idok(*m, loc.owner)
                })
                &&& expr_ok(*m, *c, *v, fields@[j].value, scope@, depth as nat)
            },
            forall|j: int| 0 <= j < k ==> {
                &&& (#[trigger] out@[j]).name@ == fields@[j].name@
                &&& match fields@[j].field {
                    None => out@[j].field is None,
                    Some(l) => out@[j].field matches Some(l2) && field_loc_map(*m, l, l2),
                }
                &&& expr_map(*m, fields@[j].value, out@[j].value)
            },
        decreases fields.len() - k,
    {
        proof { assert(decreases_to!(*fields => fields[k as int])); }
        let ghost rest = fields@.subrange(k as int, fields@.len() as int);
        let f2 = match remapped_literal_field(&fields[k], sid, m, c, v, scope, depth) {
            Ok(f2) => f2,
            Err(e) => {
                proof {
                    assert(rest[0] == fields@[k as int]);
                    assert(seq![fields@[k as int]][0] == fields@[k as int]);
                    assert(literal_fields_err(*m, *c, *v, *sid, rest, scope@, depth as nat, e@));
                }
                return Err(e);
            },
        };
        proof {
            assert(rest[0] == fields@[k as int]);
            assert(rest.drop_first() =~= fields@.subrange(k + 1, fields@.len() as int));
            assert forall|msg: Seq<char>| literal_fields_err(*m, *c, *v, *sid, rest, scope@, depth as nat, msg)
                == #[trigger] literal_fields_err(*m, *c, *v, *sid, fields@.subrange(k + 1, fields@.len() as int), scope@, depth as nat, msg) by {
            }
        }
        out.push(f2);
        k = k + 1;
    }
    Ok(out)
}

fn remapped_arm(
    arm: &MatchArm,
    m: &ProductIdentityRemap,
    c: &ProductChildLocationValidator,
    v: &ProductNominalTypeValidator,
    scope: &Vec<LocalId>,
    depth: usize,
) -> (r: Result<MatchArm, String>)
    ensures
        r is Ok <==> {
            &&& pattern_ok(*m, *c, *v, arm.pattern, depth as nat)
            &&& (arm.guard matches Some(g) ==> expr_ok(*m, *c, *v, g, scope@ + pattern_locals(arm.pattern), depth as nat))
            &&& block_ok(*m, *c, *v, arm.body, scope@ + pattern_locals(arm.pattern), depth as nat)
        },
        r matches Ok(a2) ==> {
            &&& pattern_map(*m, arm.pattern, a2.pattern)
            &&& opt_expr_map(*m, arm.guard, a2.guard)
            &&& block_map(*m, arm.body, a2.body)
        },
        r matches Err(er) ==> arm_err(*m, *c, *v, *arm, scope@, depth as nat, er@),
    decreases arm,
{
    let mut arm_scope = copy_locals(scope);
    let pattern = remapped_pattern(&arm.pattern, m, c, v, depth)?;
    add_pattern_local_ids(&arm.pattern, &mut arm_scope);
    let guard = remapped_opt_expr(&arm.guard, m, c, v, &arm_scope, depth)?;
    let body = remapped_block(&arm.body, m, c, v, &mut arm_scope, depth)?;
    Ok(MatchArm { pattern, guard, body })
}

fn remapped_arms(
    arms: &Vec<MatchArm>,
    m: &ProductIdentityRemap,
    c: &ProductChildLocationValidator,
    v: &ProductNominalTypeValidator,
    scope: &Vec<LocalId>,
    depth: usize,
) -> (r: Result<Vec<MatchArm>, String>)
    ensures
        r is Ok <==> forall|k: int| 0 <= k < arms@.len() ==> {
            &&& pattern_ok(*m, *c, *v, (#[trigger] arms@[k]).pattern, depth as nat)
            &&& (arms@[k].guard matches Some(g) ==> expr_ok(*m, *c, *v, g, scope@ + pattern_locals(arms@[k].pattern), depth as nat))
            &&& block_ok(*m, *c, *v, arms@[k].body, scope@ + pattern_locals(arms@[k].pattern), depth as nat)
        },
        r matches Ok(a2) ==> arms@.len() == a2@.len() && forall|k: int| 0 <= k < arms@.len() ==> {
            &&& pattern_map(*m, (#[trigger] arms@[k]).pattern, a2@[k].pattern)
            &&& opt_expr_map(*m, arms@[k].guard, a2@[k].guard)
            &&& block_map(*m, arms@[k].body, a2@[k].body)
        },
        r matches Err(er) ==> arms_err(*m, *c, *v, arms@, scope@, depth as nat, er@),
    decreases arms,
{
    let mut out: Vec<MatchArm> = Vec::new();
    let mut k: usize = 0;
    assert(arms@.subrange(0, arms@.len() as int) =~= arms@);
    while k < arms.len()
        invariant
            k <= arms@.len(),
            out@.len() == k,
            forall|j: int| 0 <= j < k ==> {
                &&& pattern_ok(*m, *c, *v, (#[trigger] arms@[j]).pattern, depth as nat)
                &&& (arms@[j].guard matches Some(g) ==> expr_ok(*m, *c, *v, g, scope@ + pattern_locals(arms@[j].pattern), depth as nat))
                &&& block_ok(*m, *c, *v, arms@[j].body, scope@ + pattern_locals(arms@[j].pattern), depth as nat)
            },
            forall|j: int| 0 <= j < k ==> {
                &&& pattern_map(*m, (#[trigger] arms@[j]).pattern, out@[j].pattern)
                &&& opt_expr_map(*m, arms@[j].guard, out@[j].guard)
                &&& block_map(*m, arms@[j].body, out@[j].body)
            },
            forall|msg: Seq<char>| arms_err(*m, *c, *v, arms@, scope@, depth as nat, msg)
                == #[trigger] arms_err(*m, *c, *v, arms@.subrange(k as int, arms@.len() as int), scope@, depth as nat, msg),
        decreases arms.len() - k,
    {
        proof { assert(decreases_to!(*arms => arms[k as int])); }
        let a2 = match remapped_arm(&arms[k], m, c, v, scope, depth) {
            Ok(a2) => a2,
            Err(er) => {
                proof {
                    let rest = arms@.subrange(k as int, arms@.len() as int);
                    assert(rest[0] == arms@[k as int]);
                    assert(!arm_ok_at(*m, *c, *v, rest[0], scope@, depth as nat));
                    assert(arms_err(*m, *c, *v, rest, scope@, depth as nat, er@));
                }
                return Err(er);
            },
        };
        proof {
            let rest = arms@.subrange(k as int, arms@.len() as int);
            assert(rest[0] == arms@[k as int]);
            assert(rest.drop_first() =~= arms@.subrange(k + 1, arms@.len() as int));
            assert forall|msg: Seq<char>| arms_err(*m, *c, *v, rest, scope@, depth as nat, msg)
                == #[trigger] arms_err(*m, *c, *v, arms@.subrange(k + 1, arms@.len() as int), scope@, depth as nat, msg) by {
                assert(arm_ok_at(*m, *c, *v, rest[0], scope@, depth as nat));
            }
        }
        out.push(a2);
        k = k + 1;
    }
    Ok(out)
}

fn remapped_params(ps: &Vec<Param>, m: &ProductIdentityRemap, v: &ProductNominalTypeValidator, scope: &mut Vec<LocalId>) -> (r: Result<Vec<Param>, String>)
    ensures
        r is Ok <==> forall|k: int| 0 <= k < ps@.len() ==> tok(*m, *v, (#[trigger] ps@[k]).ty),
        r is Ok ==> final(scope)@ == old(scope)@ + param_locals(ps@),
        r matches Err(e) ==> params_err(*m, *v, ps@, e@),
        r matches Ok(p2) ==> ps@.len() == p2@.len() && forall|k: int| 0 <= k < ps@.len() ==> {
            &&& (#[trigger] p2@[k]).name@ == ps@[k].name@
            &&& p2@[k].local_id == ps@[k].local_id
            &&& p2@[k].mutable == ps@[k].mutable
            &&& p2@[k].is_ref == ps@[k].is_ref
            &&& type_map(*m, ps@[k].ty, p2@[k].ty)
        },
{
    let ghost start = scope@;
    let mut out: Vec<Param> = Vec::new();
    let mut k: usize = 0;
    while k < ps.len()
        invariant
            k <= ps@.len(),
            out@.len() == k,
            scope@ == start + param_locals(ps@).take(k as int),
            forall|j: int| 0 <= j < k ==> tok(*m, *v, (#[trigger] ps@[j]).ty),
            forall|j: int| 0 <= j < k ==> {
                &&& (#[trigger] out@[j]).name@ == ps@[j].name@
                &&& out@[j].local_id == ps@[j].local_id
                &&& out@[j].mutable == ps@[j].mutable
                &&& out@[j].is_ref == ps@[j].is_ref
                &&& type_map(*m, ps@[j].ty, out@[j].ty)
            },
        decreases ps.len() - k,
    {
        let p = &ps[k];
        let ty = match remapped_type(&p.ty, m, v) {
            Ok(t) => t,
            Err(e) => {
                proof {
                    assert(!tok(*m, *v, ps@[k as int].ty));
                    assert(crate::typemap::type_outcome(*m, *v, ps@[k as int].ty) == Err::<(), Seq<char>>(e@));
                }
                return Err(e);
            },
        };
        out.push(Param { name: p.name.clone(), local_id: p.local_id, ty, mutable: p.mutable, is_ref: p.is_ref });
        scope.push(p.local_id);
        k = k + 1;
        proof {
            assert(scope@ =~= start + param_locals(ps@).take(k as int));
        }
    }
    assert(param_locals(ps@).take(k as int) =~= param_locals(ps@));
    Ok(out)
}

fn remapped_captures(
    cs: &Vec<Capture>,
    m: &ProductIdentityRemap,
    v: &ProductNominalTypeValidator,
    outer: &Vec<LocalId>,
    scope: &mut Vec<LocalId>,
) -> (r: Result<Vec<Capture>, String>)
    ensures
        r is Ok <==> forall|k: int| 0 <= k < cs@.len() ==> outer@.contains((#[trigger] cs@[k]).local_id) && tok(*m, *v, cs@[k].ty),
        r is Ok ==> final(scope)@ == old(scope)@ + capture_locals(cs@),
        r matches Err(e) ==> captures_err(*m, *v, outer@, cs@, e@),
        r matches Ok(c2) ==> cs@.len() == c2@.len() && forall|k: int| 0 <= k < cs@.len() ==> {
            &&& (#[trigger] c2@[k]).local_id == cs@[k].local_id
            &&& c2@[k].kind == cs@[k].kind
            &&& type_map(*m, cs@[k].ty, c2@[k].ty)
        },
{
    let ghost start = scope@;
    let mut out: Vec<Capture> = Vec::new();
    let mut k: usize = 0;
    while k < cs.len()
        invariant
            k <= cs@.len(),
            out@.len() == k,
            scope@ == start + capture_locals(cs@).take(k as int),
            forall|j: int| 0 <= j < k ==> outer@.contains((#[trigger] cs@[j]).local_id) && tok(*m, *v, cs@[j].ty),
            forall|j: int| 0 <= j < k ==> capture_outcome(*m, *v, outer@, #[trigger] cs@[j]) is Ok,
            forall|j: int| 0 <= j < k ==> {
                &&& (#[trigger] out@[j]).local_id == cs@[j].local_id
                &&& out@[j].kind == cs@[j].kind
                &&& type_map(*m, cs@[j].ty, out@[j].ty)
            },
        decreases cs.len() - k,
    {
        let cap = &cs[k];
        if !contains_local(outer, cap.local_id) {
            let e = id_message("Product artifact references unknown local capture ", "HirLocalId(", cap.local_id.0, "");
            proof {
                reveal_strlit("");
                assert(e@ =~= "Product artifact references unknown local capture "@ + "HirLocalId("@ + crate::text::decimal(cap.local_id.0 as nat) + ")"@);
                assert(capture_outcome(*m, *v, outer@, cs@[k as int]) == Err::<(), Seq<char>>(e@));
            }
            return Err(e);
        }
        let ty = match remapped_type(&cap.ty, m, v) {
            Ok(t) => t,
            Err(e) => {
                proof {
                    assert(capture_outcome(*m, *v, outer@, cs@[k as int]) == Err::<(), Seq<char>>(e@));
                }
                return Err(e);
            },
        };
        out.push(Capture { local_id: cap.local_id, ty, kind: cap.kind });
        scope.push(cap.local_id);
        k = k + 1;
        proof {
            assert(scope@ =~= start + capture_locals(cs@).take(k as int));
        }
    }
    assert(capture_locals(cs@).take(k as int) =~= capture_locals(cs@));
    Ok(out)
}

fn remapped_branch_method(t: &MethodCallTarget, m: &ProductIdentityRemap, v: &ProductNominalTypeValidator) -> (r: Result<MethodCallTarget, String>)
    ensures
        r is Ok <==> call_authority_ok(*v, *t) && method_remap_ok(*m, *v, *t),
        r matches Ok(t2) ==> target_map(*m, *t, t2),
        r matches Err(e) ==> branch_err(*m, *v, *t, e@),
{
    check_call_authority(t, v)?;
    remap_method_target(t, m, v)
}

fn remapped_try(
    t: &TryExpr,
    m: &ProductIdentityRemap,
    c: &ProductChildLocationValidator,
    v: &ProductNominalTypeValidator,
    scope: &Vec<LocalId>,
    depth: usize,
) -> (r: Result<TryExpr, String>)
    ensures
        r is Ok <==> {
            &&& tok(*m, *v, t.output_ty)
            &&& tok(*m, *v, t.residual_ty)
            &&& tok(*m, *v, t.return_ty)
            &&& call_authority_ok(*v, t.branch_method)
            &&& method_remap_ok(*m, *v, t.branch_method)
            &&& t.branch_target is None
            &&& call_target_ok(*m, *v, t.from_residual_target, scope@)
            &&& crate::validator::nominal_outcome(*v, crate::ids::spec_product_of(t.control_flow_enum), v.local.enums@, v.dependency.enums@, " as enum"@) is Ok
            &&& idok(*m, t.control_flow_enum)
            &&& crate::child::variant_outcome(
                c.variant_name(crate::ids::spec_product_of(t.break_variant.owner), t.break_variant.variant_id),
                crate::ids::spec_product_of(t.break_variant.owner),
                t.break_variant.variant_id,
                t.break_variant.name@,
                t.break_variant.name@,
            ) is Ok
            &&& idok(*m, t.break_variant.owner)
            &&& crate::child::variant_outcome(
                c.variant_name(crate::ids::spec_product_of(t.continue_variant.owner), t.continue_variant.variant_id),
                crate::ids::spec_product_of(t.continue_variant.owner),
                t.continue_variant.variant_id,
                t.continue_variant.name@,
                t.continue_variant.name@,
            ) is Ok
            &&& idok(*m, t.continue_variant.owner)
            &&& expr_ok(*m, *c, *v, *t.expr, scope@, depth as nat)
        },
        r matches Ok(t2) ==> {
            &&& expr_map(*m, *t.expr, *t2.expr)
            &&& target_map(*m, t.branch_method, t2.branch_method)
            &&& t2.branch_target == t.branch_target
            &&& call_target_map(*m, t.from_residual_target, t2.from_residual_target)
            &&& type_map(*m, t.output_ty, t2.output_ty)
            &&& type_map(*m, t.residual_ty, t2.residual_ty)
            &&& type_map(*m, t.return_ty, t2.return_ty)
            &&& t2.control_flow_enum == mapped(*m, t.control_flow_enum)
            &&& variant_loc_map(*m, t.break_variant, t2.break_variant)
            &&& variant_loc_map(*m, t.continue_variant, t2.continue_variant)
        },
        r matches Err(er) ==> try_err(*m, *c, *v, *t, scope@, depth as nat, er@),
    decreases t,
{
    let output_ty = remapped_type(&t.output_ty, m, v)?;
    let residual_ty = remapped_type(&t.residual_ty, m, v)?;
    let return_ty = remapped_type(&t.return_ty, m, v)?;
    let branch_method = remapped_branch_method(&t.branch_method, m, v)?;
    if t.branch_target.is_some() {
        return Err(text("Product artifact contains a local Try branch instance target"));
    }
    let from_residual_target = remapped_call_target(&t.from_residual_target, m, v, scope)?;
    v.validate_enum(ProductDefId::from_def_id(t.control_flow_enum))?;
    let control_flow_enum = map_def(m, t.control_flow_enum)?;
    let break_variant = remapped_variant_loc(&t.break_variant, m, c, &t.break_variant.name)?;
    let continue_variant = remapped_variant_loc(&t.continue_variant, m, c, &t.continue_variant.name)?;
    let expr = remapped_expr(&t.expr, m, c, v, scope, depth)?;
    Ok(TryExpr {
        expr: Box::new(expr),
        branch_method,
        branch_target: None,
        from_residual_target,
        output_ty,
        residual_ty,
        return_ty,
        control_flow_enum,
        break_variant,
        continue_variant,
    })
}

/// Checks the definitions, locations and local references of an
/// expression in `scope`, and remaps them.
#[verifier::spinoff_prover]
#[verifier::rlimit(80)]
pub fn remapped_expr(
    e: &Expr,
    m: &ProductIdentityRemap,
    c: &ProductChildLocationValidator,
    v: &ProductNominalTypeValidator,
    scope: &Vec<LocalId>,
    depth: usize,
) -> (r: Result<Expr, String>)
    ensures
        r is Ok <==> expr_ok(*m, *c, *v, *e, scope@, depth as nat),
        depth > MAX_REMAP_DEPTH ==> (r matches Err(e) && e@ == msg_depth()),
        r matches Ok(e2) ==> expr_map(*m, *e, e2),
        r matches Err(er) ==> expr_err(*m, *c, *v, *e, scope@, depth as nat, er@),
    decreases e,
{
    if depth > MAX_REMAP_DEPTH {
        return Err(depth_error());
    }
    let ty = remapped_type(&e.ty, m, v)?;
    let d = depth + 1;
    let kind = match &e.kind {
        ExprKind::IntLiteral(x) => ExprKind::IntLiteral(*x),
        ExprKind::BoolLiteral(x) => ExprKind::BoolLiteral(*x),
        ExprKind::StringLiteral(x) => ExprKind::StringLiteral(x.clone()),
        ExprKind::CharLiteral(x) => ExprKind::CharLiteral(*x),
        ExprKind::Unit => ExprKind::Unit,
        ExprKind::Var(x) => ExprKind::Var(x.clone()),
        ExprKind::ResolvedVar(r) => ExprKind::ResolvedVar(remapped_var(r, m, v, scope)?),
        ExprKind::ArrayLiteral(xs) => ExprKind::ArrayLiteral(remapped_exprs(xs, m, c, v, scope, d)?),
        ExprKind::TupleLiteral(xs) => ExprKind::TupleLiteral(remapped_exprs(xs, m, c, v, scope, d)?),
        ExprKind::ArrayRepeat(x, n) => ExprKind::ArrayRepeat(Box::new(remapped_expr(x, m, c, v, scope, d)?), *n),
        ExprKind::FieldAccess(b, name, loc) => {
            let b2 = remapped_expr(b, m, c, v, scope, d)?;
            let loc2 = match loc {
                None => None,
                Some(l) => Some(remapped_field_loc(l, m, c, name)?),
            };
            ExprKind::FieldAccess(Box::new(b2), name.clone(), loc2)
        },
        ExprKind::TupleIndex(b, i) => ExprKind::TupleIndex(Box::new(remapped_expr(b, m, c, v, scope, d)?), *i),
        ExprKind::UnaryOp(op, b) => ExprKind::UnaryOp(*op, Box::new(remapped_expr(b, m, c, v, scope, d)?)),
        ExprKind::Ref(mu, b) => ExprKind::Ref(*mu, Box::new(remapped_expr(b, m, c, v, scope, d)?)),
        ExprKind::Deref(b) => ExprKind::Deref(Box::new(remapped_expr(b, m, c, v, scope, d)?)),
        ExprKind::BinOp(op, a, b) => {
            let a2 = remapped_expr(a, m, c, v, scope, d)?;
            let b2 = remapped_expr(b, m, c, v, scope, d)?;
            ExprKind::BinOp(*op, Box::new(a2), Box::new(b2))
        },
        ExprKind::Assign(a, b) => {
            let a2 = remapped_expr(a, m, c, v, scope, d)?;
            let b2 = remapped_expr(b, m, c, v, scope, d)?;
            ExprKind::Assign(Box::new(a2), Box::new(b2))
        },
        ExprKind::Range(a, b) => {
            let a2 = remapped_expr(a, m, c, v, scope, d)?;
            let b2 = remapped_expr(b, m, c, v, scope, d)?;
            ExprKind::Range(Box::new(a2), Box::new(b2))
        },
        ExprKind::Call(callee, args, target) => {
            let authorized = is_authorized_static_callee(callee, target);
            let target2 = match target {
                None => None,
                Some(t) => Some(remapped_call_target(t, m, v, scope)?),
            };
            let callee2 = match (&callee.kind, authorized) {
                (ExprKind::ResolvedVar(r), true) => match &r.target {
                    VarTarget::Function(cid) => {
                        let c2 = authorized_callee(r, *cid, &callee.ty, m, v)?;
                        proof {
                            assert(var_map(*m, *r, c2.kind->ResolvedVar_0));
                            assert(expr_map(*m, **callee, c2));
                        }
                        c2
                    },
                    _ => remapped_expr(callee, m, c, v, scope, d)?,
                },
                _ => remapped_expr(callee, m, c, v, scope, d)?,
            };
            let args2 = remapped_exprs(args, m, c, v, scope, d)?;
            ExprKind::Call(Box::new(callee2), args2, target2)
        },
        ExprKind::MethodCall(recv, name, args, mode, target) => {
            let target2 = remapped_branch_method(target, m, v)?;
            let recv2 = remapped_expr(recv, m, c, v, scope, d)?;
            let args2 = remapped_exprs(args, m, c, v, scope, d)?;
            ExprKind::MethodCall(Box::new(recv2), name.clone(), args2, *mode, target2)
        },
        ExprKind::Try(t) => ExprKind::Try(remapped_try(t, m, c, v, scope, d)?),
        ExprKind::StructLiteral(name, sid, fields) => {
            let sid2 = remapped_struct_id(sid, m, v)?;
            let fields2 = remapped_literal_fields(fields, sid, m, c, v, scope, d)?;
            ExprKind::StructLiteral(name.clone(), sid2, fields2)
        },
        ExprKind::EnumVariant(en, vn, args, loc) => {
            let loc2 = match loc {
                None => None,
                Some(l) => Some(remapped_variant_loc(l, m, c, vn)?),
            };
            let args2 = remapped_exprs(args, m, c, v, scope, d)?;
            ExprKind::EnumVariant(en.clone(), vn.clone(), args2, loc2)
        },
        ExprKind::If { condition, then_branch, else_branch } => {
            let cond2 = remapped_expr(condition, m, c, v, scope, d)?;
            let mut then_scope = copy_locals(scope);
            let then2 = remapped_block(then_branch, m, c, v, &mut then_scope, d)?;
            let else2 = match else_branch {
                None => None,
                Some(b) => {
                    let mut else_scope = copy_locals(scope);
                    Some(remapped_block(b, m, c, v, &mut else_scope, d)?)
                },
            };
            ExprKind::If { condition: Box::new(cond2), then_branch: then2, else_branch: else2 }
        },
        ExprKind::Match { scrutinee, arms } => {
            let s2 = remapped_expr(scrutinee, m, c, v, scope, d)?;
            let arms2 = remapped_arms(arms, m, c, v, scope, d)?;
            ExprKind::Match { scrutinee: Box::new(s2), arms: arms2 }
        },
        ExprKind::While { condition, body } => {
            let cond2 = remapped_expr(condition, m, c, v, scope, d)?;
            let mut body_scope = copy_locals(scope);
            let body2 = remapped_block(body, m, c, v, &mut body_scope, d)?;
            ExprKind::While { condition: Box::new(cond2), body: body2 }
        },
        ExprKind::For { local_id, iter, body } => {
            let iter2 = remapped_expr(iter, m, c, v, scope, d)?;
            let mut body_scope = copy_locals(scope);
            body_scope.push(*local_id);
            let body2 = remapped_block(body, m, c, v, &mut body_scope, d)?;
            ExprKind::For { local_id: *local_id, iter: Box::new(iter2), body: body2 }
        },
        ExprKind::Loop(b) => {
            let mut body_scope = copy_locals(scope);
            ExprKind::Loop(remapped_block(b, m, c, v, &mut body_scope, d)?)
        },
        ExprKind::Block(b) => {
            let mut body_scope = copy_locals(scope);
            ExprKind::Block(remapped_block(b, m, c, v, &mut body_scope, d)?)
        },
        ExprKind::Lambda { params, body, captures } => {
            let mut lambda_scope: Vec<LocalId> = Vec::new();
            let params2 = remapped_params(params, m, v, &mut lambda_scope)?;
            let captures2 = remapped_captures(captures, m, v, scope, &mut lambda_scope)?;
            proof {
                assert(lambda_scope@ =~= param_locals(params@) + capture_locals(captures@));
            }
            let body2 = remapped_block(body, m, c, v, &mut lambda_scope, d)?;
            ExprKind::Lambda { params: params2, body: body2, captures: captures2 }
        },
        ExprKind::Cast(x, t) => {
            let t2 = remapped_type(t, m, v)?;
            let x2 = remapped_expr(x, m, c, v, scope, d)?;
            ExprKind::Cast(Box::new(x2), t2)
        },
        ExprKind::Intrinsic { name, args } => ExprKind::Intrinsic { name: name.clone(), args: remapped_exprs(args, m, c, v, scope, d)? },
    };
    Ok(Expr { kind, ty })
}

fn remapped_stmt(
    s: &Stmt,
    m: &ProductIdentityRemap,
    c: &ProductChildLocationValidator,
    v: &ProductNominalTypeValidator,
    scope: &mut Vec<LocalId>,
    depth: usize,
) -> (r: Result<Stmt, String>)
    requires
        depth < usize::MAX,
    ensures
        r is Ok <==> stmt_ok(*m, *c, *v, *s, old(scope)@, depth as nat),
        r is Ok ==> final(scope)@ == old(scope)@ + stmt_locals(*s),
        r matches Ok(s2) ==> stmt_map(*m, *s, s2),
        r matches Err(er) ==> stmt_err(*m, *c, *v, *s, old(scope)@, depth as nat, er@),
    decreases s,
{
    let d = depth + 1;
    match s {
        Stmt::Let { name, local_id, ty, value, mutable } => {
            let ty2 = remapped_type(ty, m, v)?;
            let value2 = remapped_expr(value, m, c, v, scope, d)?;
            scope.push(*local_id);
            proof {
                assert(scope@ =~= old(scope)@ + stmt_locals(*s));
            }
            Ok(Stmt::Let { name: name.clone(), local_id: *local_id, ty: ty2, value: value2, mutable: *mutable })
        },
        Stmt::Expr(x) => {
            let x2 = remapped_expr(x, m, c, v, scope, d)?;
            proof {
                assert(scope@ =~= old(scope)@ + stmt_locals(*s));
            }
            Ok(Stmt::Expr(x2))
        },
        Stmt::Return(o) => {
            let o2 = remapped_opt_expr(o, m, c, v, scope, d)?;
            proof {
                assert(scope@ =~= old(scope)@ + stmt_locals(*s));
            }
            Ok(Stmt::Return(o2))
        },
        Stmt::Break(o) => {
            let o2 = remapped_opt_expr(o, m, c, v, scope, d)?;
            proof {
                assert(scope@ =~= old(scope)@ + stmt_locals(*s));
            }
            Ok(Stmt::Break(o2))
        },
        Stmt::Continue => {
            proof {
                assert(scope@ =~= old(scope)@ + stmt_locals(*s));
            }
            Ok(Stmt::Continue)
        },
    }
}

fn remapped_stmts(
    ss: &Vec<Stmt>,
    m: &ProductIdentityRemap,
    c: &ProductChildLocationValidator,
    v: &ProductNominalTypeValidator,
    scope: &mut Vec<LocalId>,
    depth: usize,
) -> (r: Result<Vec<Stmt>, String>)
    requires
        depth <= MAX_REMAP_DEPTH,
    ensures
        r is Ok <==> stmts_ok(*m, *c, *v, ss@, old(scope)@, depth as nat),
        r matches Ok(s2) ==> ss@.len() == s2@.len() && forall|k: int| 0 <= k < ss@.len() ==> stmt_map(*m, #[trigger] ss@[k], s2@[k]),
        r matches Err(er) ==> stmts_err(*m, *c, *v, ss@, old(scope)@, depth as nat, er@),
    decreases ss,
{
    let mut out: Vec<Stmt> = Vec::new();
    let mut k: usize = 0;
    assert(ss@.subrange(0, ss@.len() as int) =~= ss@);
    while k < ss.len()
        invariant
            k <= ss@.len(),
            depth <= MAX_REMAP_DEPTH,
            out@.len() == k,
            stmts_ok(*m, *c, *v, ss@, old(scope)@, depth as nat) == stmts_ok(*m, *c, *v, ss@.subrange(k as int, ss@.len() as int), scope@, depth as nat),
            forall|msg: Seq<char>| stmts_err(*m, *c, *v, ss@, old(scope)@, depth as nat, msg)
                == #[trigger] stmts_err(*m, *c, *v, ss@.subrange(k as int, ss@.len() as int), scope@, depth as nat, msg),
            forall|j: int| 0 <= j < k ==> stmt_map(*m, #[trigger] ss@[j], out@[j]),
        decreases ss.len() - k,
    {
        proof {
            assert(decreases_to!(*ss => ss[k as int]));
            let rest = ss@.subrange(k as int, ss@.len() as int);
            assert(rest[0] == ss@[k as int]);
            assert(rest.drop_first() =~= ss@.subrange(k + 1, ss@.len() as int));
        }
        let ghost sc0 = scope@;
        let s2 = match remapped_stmt(&ss[k], m, c, v, scope, depth) {
            Ok(s2) => s2,
            Err(er) => {
                proof {
                    let rest = ss@.subrange(k as int, ss@.len() as int);
                    assert(rest[0] == ss@[k as int]);
                    assert(stmts_err(*m, *c, *v, rest, sc0, depth as nat, er@));
                }
                return Err(er);
            },
        };
        proof {
            let rest = ss@.subrange(k as int, ss@.len() as int);
            assert(rest[0] == ss@[k as int]);
            assert(rest.drop_first() =~= ss@.subrange(k + 1, ss@.len() as int));
            assert forall|msg: Seq<char>| stmts_err(*m, *c, *v, rest, sc0, depth as nat, msg)
                == #[trigger] stmts_err(*m, *c, *v, ss@.subrange(k + 1, ss@.len() as int), scope@, depth as nat, msg) by {
                assert(stmt_ok(*m, *c, *v, rest[0], sc0, depth as nat));
            }
        }
        out.push(s2);
        k = k + 1;
    }
    Ok(out)
}

/// Checks the statements of a block in order, each in the scope the ones
/// before it leave, and remaps them and the block's type.
pub fn remapped_block(
    b: &Block,
    m: &ProductIdentityRemap,
    c: &ProductChildLocationValidator,
    v: &ProductNominalTypeValidator,
    scope: &mut Vec<LocalId>,
    depth: usize,
) -> (r: Result<Block, String>)
    ensures
        r is Ok <==> block_ok(*m, *c, *v, *b, old(scope)@, depth as nat),
        depth > MAX_REMAP_DEPTH ==> (r matches Err(e) && e@ == msg_depth()),
        r matches Ok(b2) ==> block_map(*m, *b, b2),
        r matches Err(er) ==> block_err(*m, *c, *v, *b, old(scope)@, depth as nat, er@),
    decreases b,
{
    if depth > MAX_REMAP_DEPTH {
        return Err(depth_error());
    }
    let stmts = remapped_stmts(&b.stmts, m, c, v, scope, depth)?;
    let ty = remapped_type(&b.ty, m, v)?;
    Ok(Block { stmts, ty })
}


// ----- generics and functions -----

/// The check of each generic parameter declaration: its owner's identity.
pub open spec fn decl_checks(m: ProductIdentityRemap) -> spec_fn(GenericParamDecl) -> Result<(), Seq<char>> {
    |d: GenericParamDecl| crate::typemap::id_outcome(m, d.id.owner)
}

/// The check of each trait bound: its trait's identity, then its arguments.
pub open spec fn bound_checks(m: ProductIdentityRemap, v: ProductNominalTypeValidator) -> spec_fn(TraitBound) -> Result<(), Seq<char>> {
    |b: TraitBound| crate::validator::and_then(crate::typemap::id_outcome(m, b.trait_id), crate::typemap::list_outcome(m, v, b.type_args@))
}

/// The check of each bounded parameter: its owner's identity, then its
/// bounds in order.
pub open spec fn entry_checks(m: ProductIdentityRemap, v: ProductNominalTypeValidator) -> spec_fn((GenericParamId, Vec<TraitBound>)) -> Result<(), Seq<char>> {
    |e: (GenericParamId, Vec<TraitBound>)| crate::validator::and_then(crate::typemap::id_outcome(m, e.0.owner), crate::text::first_error(e.1@, bound_checks(m, v)))
}

/// The check of each where-clause predicate: its subject, its trait's
/// identity, then its arguments.
pub open spec fn predicate_checks(m: ProductIdentityRemap, v: ProductNominalTypeValidator) -> spec_fn(Predicate) -> Result<(), Seq<char>> {
    |p: Predicate| crate::validator::and_then(crate::typemap::type_outcome(m, v, p.subject),
        crate::validator::and_then(crate::typemap::id_outcome(m, p.trait_id), crate::typemap::list_outcome(m, v, p.args@)))
}

/// What remapping generic bounds reports: the first failing bounded
/// parameter, then the first failing predicate.
pub open spec fn bounds_outcome(m: ProductIdentityRemap, v: ProductNominalTypeValidator, gb: GenericBounds) -> Result<(), Seq<char>> {
    crate::validator::and_then(crate::text::first_error(gb.entries@, entry_checks(m, v)),
        crate::text::first_error(gb.predicates@, predicate_checks(m, v)))
}

pub(crate) fn remapped_decls(ds: &Vec<GenericParamDecl>, m: &ProductIdentityRemap) -> (r: Result<Vec<GenericParamDecl>, String>)
    ensures
        r is Ok <==> decls_ok(*m, ds@),
        r matches Ok(ds2) ==> decls_map(*m, ds@, ds2@),
        crate::typemap::outcome_is_res(r, crate::text::first_error(ds@, decl_checks(*m))),
{
    let ghost ck = decl_checks(*m);
    let mut out: Vec<GenericParamDecl> = Vec::new();
    let mut k: usize = 0;
    while k < ds.len()
        invariant
            k <= ds@.len(),
            out@.len() == k,
            ck == decl_checks(*m),
            crate::text::first_error(ds@.take(k as int), ck) is Ok,
            forall|j: int| 0 <= j < k ==> idok(*m, (#[trigger] ds@[j]).id.owner),
            forall|j: int| 0 <= j < k ==> (#[trigger] out@[j]).id.owner == mapped(*m, ds@[j].id.owner)
                && out@[j].id.index == ds@[j].id.index && out@[j].name@ == ds@[j].name@,
        decreases ds.len() - k,
    {
        let owner = match map_def(m, ds[k].id.owner) {
            Ok(o) => o,
            Err(e) => {
                proof { crate::text::lemma_first_error_at(ds@, ck, k as int); }
                return Err(e);
            },
        };
        proof { crate::text::lemma_first_error_step(ds@, ck, k as int); }
        out.push(GenericParamDecl { id: GenericParamId { owner, index: ds[k].id.index }, name: ds[k].name.clone() });
        k = k + 1;
    }
    proof { assert(ds@.take(ds@.len() as int) =~= ds@); }
    Ok(out)
}

fn remapped_trait_bounds(bs: &Vec<TraitBound>, m: &ProductIdentityRemap, v: &ProductNominalTypeValidator) -> (r: Result<Vec<TraitBound>, String>)
    ensures
        r is Ok <==> forall|j: int| 0 <= j < bs@.len() ==> bound_ok(*m, *v, #[trigger] bs@[j]),
        r matches Ok(b2) ==> bs@.len() == b2@.len() && forall|j: int| 0 <= j < bs@.len() ==> bound_map(*m, #[trigger] bs@[j], b2@[j]),
        crate::typemap::outcome_is_res(r, crate::text::first_error(bs@, bound_checks(*m, *v))),
{
    let ghost ck = bound_checks(*m, *v);
    let mut out: Vec<TraitBound> = Vec::new();
    let mut k: usize = 0;
    while k < bs.len()
        invariant
            k <= bs@.len(),
            out@.len() == k,
            ck == bound_checks(*m, *v),
            crate::text::first_error(bs@.take(k as int), ck) is Ok,
            forall|j: int| 0 <= j < k ==> bound_ok(*m, *v, #[trigger] bs@[j]),
            forall|j: int| 0 <= j < k ==> bound_map(*m, #[trigger] bs@[j], out@[j]),
        decreases bs.len() - k,
    {
        let trait_id = match map_def(m, bs[k].trait_id) {
            Ok(t) => t,
            Err(e) => {
                proof { crate::text::lemma_first_error_at(bs@, ck, k as int); }
                return Err(e);
            },
        };
        let type_args = match remapped_type_list(&bs[k].type_args, m, v) {
            Ok(a) => a,
            Err(e) => {
                proof { crate::text::lemma_first_error_at(bs@, ck, k as int); }
                return Err(e);
            },
        };
        proof { crate::text::lemma_first_error_step(bs@, ck, k as int); }
        out.push(TraitBound { trait_id, type_args });
        k = k + 1;
    }
    proof { assert(bs@.take(bs@.len() as int) =~= bs@); }
    Ok(out)
}

pub(crate) fn remapped_predicates(ps: &Vec<Predicate>, m: &ProductIdentityRemap, v: &ProductNominalTypeValidator) -> (r: Result<Vec<Predicate>, String>)
    ensures
        r is Ok <==> forall|k: int| 0 <= k < ps@.len() ==> predicate_ok(*m, *v, #[trigger] ps@[k]),
        r matches Ok(p2) ==> ps@.len() == p2@.len() && forall|k: int| 0 <= k < ps@.len() ==> predicate_map(*m, #[trigger] ps@[k], p2@[k]),
        crate::typemap::outcome_is_res(r, crate::text::first_error(ps@, predicate_checks(*m, *v))),
{
    let ghost ck = predicate_checks(*m, *v);
    let mut out: Vec<Predicate> = Vec::new();
    let mut k: usize = 0;
    while k < ps.len()
        invariant
            k <= ps@.len(),
            out@.len() == k,
            ck == predicate_checks(*m, *v),
            crate::text::first_error(ps@.take(k as int), ck) is Ok,
            forall|j: int| 0 <= j < k ==> predicate_ok(*m, *v, #[trigger] ps@[j]),
            forall|j: int| 0 <= j < k ==> predicate_map(*m, #[trigger] ps@[j], out@[j]),
        decreases ps.len() - k,
    {
        let subject = match remapped_type(&ps[k].subject, m, v) {
            Ok(t) => t,
            Err(e) => {
                proof { crate::text::lemma_first_error_at(ps@, ck, k as int); }
                return Err(e);
            },
        };
        let trait_id = match map_def(m, ps[k].trait_id) {
            Ok(t) => t,
            Err(e) => {
                proof { crate::text::lemma_first_error_at(ps@, ck, k as int); }
                return Err(e);
            },
        };
        let args = match remapped_type_list(&ps[k].args, m, v) {
            Ok(a) => a,
            Err(e) => {
                proof { crate::text::lemma_first_error_at(ps@, ck, k as int); }
                return Err(e);
            },
        };
        proof { crate::text::lemma_first_error_step(ps@, ck, k as int); }
        out.push(Predicate { subject, trait_id, args });
        k = k + 1;
    }
    proof { assert(ps@.take(ps@.len() as int) =~= ps@); }
    Ok(out)
}

pub(crate) fn remapped_generic_bounds(gb: &GenericBounds, m: &ProductIdentityRemap, v: &ProductNominalTypeValidator) -> (r: Result<GenericBounds, String>)
    ensures
        r is Ok <==> bounds_ok(*m, *v, *gb),
        r matches Ok(gb2) ==> bounds_map(*m, *gb, gb2),
        crate::typemap::outcome_is_res(r, bounds_outcome(*m, *v, *gb)),
{
    let ghost ck = entry_checks(*m, *v);
    let mut entries: Vec<(GenericParamId, Vec<TraitBound>)> = Vec::new();
    let mut k: usize = 0;
    while k < gb.entries.len()
        invariant
            k <= gb.entries@.len(),
            entries@.len() == k,
            ck == entry_checks(*m, *v),
            crate::text::first_error(gb.entries@.take(k as int), ck) is Ok,
            forall|i: int| 0 <= i < k ==> idok(*m, (#[trigger] gb.entries@[i]).0.owner)
                && forall|j: int| 0 <= j < gb.entries@[i].1@.len() ==> bound_ok(*m, *v, #[trigger] gb.entries@[i].1@[j]),
            forall|i: int| 0 <= i < k ==> {
                &&& (#[trigger] entries@[i]).0.owner == mapped(*m, gb.entries@[i].0.owner)
                &&& entries@[i].0.index == gb.entries@[i].0.index
                &&& gb.entries@[i].1@.len() == entries@[i].1@.len()
                &&& forall|j: int| 0 <= j < gb.entries@[i].1@.len() ==> bound_map(*m, #[trigger] gb.entries@[i].1@[j], entries@[i].1@[j])
            },
        decreases gb.entries.len() - k,
    {
        let owner = match map_def(m, gb.entries[k].0.owner) {
            Ok(o) => o,
            Err(e) => {
                proof { crate::text::lemma_first_error_at(gb.entries@, ck, k as int); }
                return Err(e);
            },
        };
        let bounds = match remapped_trait_bounds(&gb.entries[k].1, m, v) {
            Ok(b) => b,
            Err(e) => {
                proof { crate::text::lemma_first_error_at(gb.entries@, ck, k as int); }
                return Err(e);
            },
        };
        proof { crate::text::lemma_first_error_step(gb.entries@, ck, k as int); }
        entries.push((GenericParamId { owner, index: gb.entries[k].0.index }, bounds));
        k = k + 1;
    }
    proof { assert(gb.entries@.take(gb.entries@.len() as int) =~= gb.entries@); }
    let predicates = remapped_predicates(&gb.predicates, m, v)?;
    Ok(GenericBounds { entries, predicates })
}

/// Remaps the owners of generic parameter declarations; on failure the
/// declarations are left as they were.
pub fn remap_generic_param_decls(decls: &mut Vec<GenericParamDecl>, remap: &ProductIdentityRemap) -> (r: Result<(), String>)
    ensures
        r is Ok <==> decls_ok(*remap, old(decls)@),
        r is Ok ==> decls_map(*remap, old(decls)@, final(decls)@),
        r is Err ==> final(decls)@ == old(decls)@,
{
    let ds = remapped_decls(decls, remap)?;
    *decls = ds;
    Ok(())
}

/// Remaps generic bounds: parameters, bounds and predicates.
pub fn remap_generic_bounds(bounds: &mut GenericBounds, remap: &ProductIdentityRemap, type_validator: &ProductNominalTypeValidator) -> (r: Result<(), String>)
    ensures
        r is Ok <==> bounds_ok(*remap, *type_validator, *old(bounds)),
        r is Ok ==> bounds_map(*remap, *old(bounds), *final(bounds)),
        r is Err ==> *final(bounds) == *old(bounds),
{
    let gb = remapped_generic_bounds(bounds, remap, type_validator)?;
    *bounds = gb;
    Ok(())
}

/// Remaps where-clause predicates.
pub fn remap_predicates(predicates: &mut Vec<Predicate>, remap: &ProductIdentityRemap, type_validator: &ProductNominalTypeValidator) -> (r: Result<(), String>)
    ensures
        r is Ok <==> forall|k: int| 0 <= k < old(predicates)@.len() ==> predicate_ok(*remap, *type_validator, #[trigger] old(predicates)@[k]),
        r is Ok ==> old(predicates)@.len() == final(predicates)@.len() && forall|k: int| 0 <= k < old(predicates)@.len()
            ==> predicate_map(*remap, #[trigger] old(predicates)@[k], final(predicates)@[k]),
        r is Err ==> final(predicates)@ == old(predicates)@,
{
    let ps = remapped_predicates(predicates, remap, type_validator)?;
    *predicates = ps;
    Ok(())
}

/// `msg` may be what remapping the function `f` reports: the error of its
/// generic parameters, then of its generic bounds, then its first failing
/// parameter type's, then its result type's, then its body's, with the
/// parameters in scope.
pub open spec fn function_err(m: ProductIdentityRemap, c: ProductChildLocationValidator, v: ProductNominalTypeValidator, f: Function, msg: Seq<char>) -> bool {
    let generics = crate::validator::and_then(crate::text::first_error(f.generic_params@, decl_checks(m)),
        bounds_outcome(m, v, f.generic_bounds));
    if generics is Err {
        generics == Err::<(), Seq<char>>(msg)
    } else if !(forall|k: int| 0 <= k < f.params@.len()
        ==> tok(m, v, (#[trigger] f.params@[k]).ty)) {
        params_err(m, v, f.params@, msg)
    } else if !tok(m, v, f.ret_type) {
        crate::typemap::type_outcome(m, v, f.ret_type) == Err::<(), Seq<char>>(msg)
    } else {
        block_err(m, c, v, f.body, param_locals(f.params@), 0, msg)
    }
}

/// Checks and remaps a function's generics, signature and body, with its
/// parameters in scope for the body; on failure the function is left as
/// it was.
pub fn remap_function_child_locations(
    function: &mut Function,
    remap: &ProductIdentityRemap,
    validator: &ProductChildLocationValidator,
    type_validator: &ProductNominalTypeValidator,
) -> (r: Result<(), String>)
    ensures
        r is Ok <==> function_ok(*remap, *validator, *type_validator, *old(function)),
        r is Ok ==> function_map(*remap, *old(function), *final(function)),
        r is Err ==> *final(function) == *old(function),
        r matches Err(e) ==> function_err(*remap, *validator, *type_validator, *old(function), e@),
{
    let f2 = remapped_function(function, function.id, remap, validator, type_validator)?;
    *function = f2;
    Ok(())
}

/// The function `f`, under identity `id`, with its generics, signature and
/// body checked and remapped; its parameters are in scope for the body.
pub fn remapped_function(
    f: &Function,
    id: DefId,
    remap: &ProductIdentityRemap,
    validator: &ProductChildLocationValidator,
    type_validator: &ProductNominalTypeValidator,
) -> (r: Result<Function, String>)
    ensures
        r is Ok <==> function_ok(*remap, *validator, *type_validator, *f),
        r matches Ok(f2) ==> f2.id == id && function_parts_map(*remap, *f, f2),
        r matches Err(e) ==> function_err(*remap, *validator, *type_validator, *f, e@),
{
    let mut local_scope: Vec<LocalId> = Vec::new();
    let mut k: usize = 0;
    while k < f.params.len()
        invariant
            k <= f.params@.len(),
            local_scope@ == param_locals(f.params@).take(k as int),
        decreases f.params.len() - k,
    {
        local_scope.push(f.params[k].local_id);
        k = k + 1;
        proof {
            assert(local_scope@ =~= param_locals(f.params@).take(k as int));
        }
    }
    assert(param_locals(f.params@).take(k as int) =~= param_locals(f.params@));
    let generic_params = remapped_decls(&f.generic_params, remap)?;
    let generic_bounds = remapped_generic_bounds(&f.generic_bounds, remap, type_validator)?;
    let mut ignored: Vec<LocalId> = Vec::new();
    let params = remapped_params(&f.params, remap, type_validator, &mut ignored)?;
    let ret_type = remapped_type(&f.ret_type, remap, type_validator)?;
    let body = remapped_block(&f.body, remap, validator, type_validator, &mut local_scope, 0)?;
    Ok(Function {
        id,
        name: f.name.clone(),
        generic_params,
        generic_bounds,
        params,
        ret_type,
        body,
        is_curried: f.is_curried,
        is_method: f.is_method,
        self_receiver: f.self_receiver,
        is_unsafe: f.is_unsafe,
    })
}

/// Checks and remaps an expression whose enclosing scope binds no locals;
/// on failure it is left as it was.
pub fn remap_expr_child_locations(
    expr: &mut Expr,
    remap: &ProductIdentityRemap,
    validator: &ProductChildLocationValidator,
    type_validator: &ProductNominalTypeValidator,
    depth: usize,
) -> (r: Result<(), String>)
    ensures
        r is Ok <==> expr_ok(*remap, *validator, *type_validator, *old(expr), Seq::empty(), depth as nat),
        depth > MAX_REMAP_DEPTH ==> (r matches Err(e) && e@ == msg_depth()),
        r matches Err(e) ==> expr_err(*remap, *validator, *type_validator, *old(expr), Seq::empty(), depth as nat, e@),
        r is Ok ==> expr_map(*remap, *old(expr), *final(expr)),
        r is Err ==> *final(expr) == *old(expr),
{
    let scope: Vec<LocalId> = Vec::new();
    let e2 = remapped_expr(expr, remap, validator, type_validator, &scope, depth)?;
    *expr = e2;
    Ok(())
}

/// Checks and remaps an expression in `local_scope`.
pub fn remap_expr_child_locations_with_scope(
    expr: &mut Expr,
    remap: &ProductIdentityRemap,
    validator: &ProductChildLocationValidator,
    type_validator: &ProductNominalTypeValidator,
    local_scope: &Vec<LocalId>,
    depth: usize,
) -> (r: Result<(), String>)
    ensures
        r is Ok <==> expr_ok(*remap, *validator, *type_validator, *old(expr), local_scope@, depth as nat),
        depth > MAX_REMAP_DEPTH ==> (r matches Err(e) && e@ == msg_depth()),
        r matches Err(e) ==> expr_err(*remap, *validator, *type_validator, *old(expr), local_scope@, depth as nat, e@),
        r is Ok ==> expr_map(*remap, *old(expr), *final(expr)),
        r is Err ==> *final(expr) == *old(expr),
{
    let e2 = remapped_expr(expr, remap, validator, type_validator, local_scope, depth)?;
    *expr = e2;
    Ok(())
}

/// Checks and remaps a block in `local_scope`.
pub fn remap_block_child_locations(
    block: &mut Block,
    remap: &ProductIdentityRemap,
    validator: &ProductChildLocationValidator,
    type_validator: &ProductNominalTypeValidator,
    local_scope: &mut Vec<LocalId>,
    depth: usize,
) -> (r: Result<(), String>)
    ensures
        r is Ok <==> block_ok(*remap, *validator, *type_validator, *old(block), old(local_scope)@, depth as nat),
        depth > MAX_REMAP_DEPTH ==> (r matches Err(e) && e@ == msg_depth()),
        r matches Err(e) ==> block_err(*remap, *validator, *type_validator, *old(block), old(local_scope)@, depth as nat, e@),
        r is Ok ==> block_map(*remap, *old(block), *final(block)),
        r is Err ==> *final(block) == *old(block),
{
    let b2 = remapped_block(block, remap, validator, type_validator, local_scope, depth)?;
    *block = b2;
    Ok(())
}

/// Checks and remaps a statement in `local_scope`, then brings the local it
/// declares into scope.
pub fn remap_stmt_child_locations(
    stmt: &mut Stmt,
    remap: &ProductIdentityRemap,
    validator: &ProductChildLocationValidator,
    type_validator: &ProductNominalTypeValidator,
    local_scope: &mut Vec<LocalId>,
    depth: usize,
) -> (r: Result<(), String>)
    requires
        depth < usize::MAX,
    ensures
        r is Ok <==> stmt_ok(*remap, *validator, *type_validator, *old(stmt), old(local_scope)@, depth as nat),
        r matches Err(e) ==> stmt_err(*remap, *validator, *type_validator, *old(stmt), old(local_scope)@, depth as nat, e@),
        r is Ok ==> stmt_map(*remap, *old(stmt), *final(stmt)) && final(local_scope)@ == old(local_scope)@ + stmt_locals(*old(stmt)),
        r is Err ==> *final(stmt) == *old(stmt),
{
    let s2 = remapped_stmt(stmt, remap, validator, type_validator, local_scope, depth)?;
    *stmt = s2;
    Ok(())
}

/// Checks and remaps a pattern.
pub fn remap_pattern_child_locations(
    pattern: &mut Pattern,
    remap: &ProductIdentityRemap,
    validator: &ProductChildLocationValidator,
    type_validator: &ProductNominalTypeValidator,
    depth: usize,
) -> (r: Result<(), String>)
    ensures
        r is Ok <==> pattern_ok(*remap, *validator, *type_validator, *old(pattern), depth as nat),
        depth > MAX_REMAP_DEPTH ==> (r matches Err(e) && e@ == msg_depth()),
        r is Ok ==> pattern_map(*remap, *old(pattern), *final(pattern)),
        r is Err ==> *final(pattern) == *old(pattern),
{
    let p2 = remapped_pattern(pattern, remap, validator, type_validator, depth)?;
    *pattern = p2;
    Ok(())
}

/// Checks and remaps the target of a resolved variable in `local_scope`.
pub fn remap_var_target_child_location(
    reference: &mut VarRef,
    remap: &ProductIdentityRemap,
    validator: &ProductNominalTypeValidator,
    local_scope: &Vec<LocalId>,
) -> (r: Result<(), String>)
    ensures
        r is Ok <==> var_ok(*remap, *validator, *old(reference), local_scope@),
        r is Ok ==> var_map(*remap, *old(reference), *final(reference)),
        r is Err ==> *final(reference) == *old(reference),
        r matches Err(e) ==> var_outcome(*remap, *validator, *old(reference), local_scope@) == Err::<(), Seq<char>>(e@),
{
    let r2 = remapped_var(reference, remap, validator, local_scope)?;
    *reference = r2;
    Ok(())
}

/// Checks and remaps a call target in `local_ids`.
pub fn remap_call_target_child_location(
    target: &mut CallTarget,
    remap: &ProductIdentityRemap,
    validator: &ProductNominalTypeValidator,
    local_ids: &Vec<LocalId>,
) -> (r: Result<(), String>)
    ensures
        r is Ok <==> call_target_ok(*remap, *validator, *old(target), local_ids@),
        r is Ok ==> call_target_map(*remap, *old(target), *final(target)),
        r is Err ==> *final(target) == *old(target),
        r matches Err(e) ==> call_target_err(*remap, *validator, *old(target), local_ids@, e@),
{
    let t2 = remapped_call_target(target, remap, validator, local_ids)?;
    *target = t2;
    Ok(())
}

/// Checks a method-call authority and remaps the definitions and types it
/// carries.
pub fn remap_method_target_child_location(
    target: &mut MethodCallTarget,
    remap: &ProductIdentityRemap,
    validator: &ProductNominalTypeValidator,
) -> (r: Result<(), String>)
    ensures
        r is Ok <==> method_remap_ok(*remap, *validator, *old(target)),
        r is Ok ==> target_map(*remap, *old(target), *final(target)),
        r is Err ==> *final(target) == *old(target),
        r matches Err(e) ==> method_err(*remap, *validator, *old(target), e@),
{
    let t2 = remap_method_target(target, remap, validator)?;
    *target = t2;
    Ok(())
}

} // verus!
