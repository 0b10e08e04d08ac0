use vstd::prelude::*;

use crate::child::{field_outcome, variant_outcome, ProductChildLocationValidator};
use crate::hir::{
    Function, Block, CallTarget, Expr, ExprKind, FieldLocation, MatchArm, MethodCallTarget, Param, Pattern,
    SelectedMethodTarget, Stmt, StructLiteralField, StructPatternField, VarRef, VarTarget, VariantLocation,
};
use crate::ids::{spec_product_of, DefId, LocalId};
use crate::remap::ProductIdentityRemap;
use crate::typemap::{mapped, type_map, type_outcome, types_map};
use crate::types::{GenericBounds, GenericParamDecl, Predicate, TraitBound, Type, TypeBinding};
use crate::validator::{
    authority_outcome, call_authority_outcome, expected_args, extern_target_outcome, function_target_outcome,
    nominal_outcome, static_authority_outcome, ProductNominalTypeValidator,
};

verus! {

/// How deep artifact bodies may nest before loading refuses them.
pub const MAX_REMAP_DEPTH: usize = 4096;

/// Remapping `t` succeeds.
pub open spec fn tok(m: ProductIdentityRemap, v: ProductNominalTypeValidator, t: Type) -> bool {
    type_outcome(m, v, t) is Ok
}

/// Remapping each type of a list succeeds.
pub open spec fn tsok(m: ProductIdentityRemap, v: ProductNominalTypeValidator, ts: Seq<Type>) -> bool {
    forall|i: int| 0 <= i < ts.len() ==> tok(m, v, #[trigger] ts[i])
}

/// The crate of `d`, read as a product identity, is mapped.
pub open spec fn idok(m: ProductIdentityRemap, d: DefId) -> bool {
    m.spec_def_id(spec_product_of(d)) is Some
}

/// The location `loc` keeps its field and name and has its owner mapped.
pub open spec fn field_loc_map(m: ProductIdentityRemap, loc: FieldLocation, loc2: FieldLocation) -> bool {
    loc2.owner == mapped(m, loc.owner) && loc2.field_id == loc.field_id && loc2.name@ == loc.name@
}

/// The location `loc` keeps its variant and name and has its owner mapped.
pub open spec fn variant_loc_map(m: ProductIdentityRemap, loc: VariantLocation, loc2: VariantLocation) -> bool {
    loc2.owner == mapped(m, loc.owner) && loc2.variant_id == loc.variant_id && loc2.name@ == loc.name@
}

/// `d2` is `d` mapped, where present.
pub open spec fn opt_id_map(m: ProductIdentityRemap, d: Option<DefId>, d2: Option<DefId>) -> bool {
    match d {
        Some(x) => d2 == Some(mapped(m, x)),
        None => d2 is None,
    }
}

// ----- method-call authorities -----

/// Some expected trait argument list lets the authority check pass.
pub open spec fn method_target_ok(v: ProductNominalTypeValidator, t: MethodCallTarget) -> bool {
    exists|e: Seq<Type>| #[trigger] expected_args(v, t, e) && authority_outcome(v, t, e) is Ok
}

/// The authority of a call written with a receiver passes its check.
pub open spec fn call_authority_ok(v: ProductNominalTypeValidator, t: MethodCallTarget) -> bool {
    exists|e: Seq<Type>| #[trigger] expected_args(v, t, e) && call_authority_outcome(v, t, e) is Ok
}

/// The authority of a call through the owner type passes its check.
pub open spec fn static_authority_ok(v: ProductNominalTypeValidator, t: MethodCallTarget) -> bool {
    exists|e: Seq<Type>| #[trigger] expected_args(v, t, e) && static_authority_outcome(v, t, e) is Ok
}

/// Every definition that a method-call authority names has a mapped crate.
pub open spec fn target_ids_ok(m: ProductIdentityRemap, t: MethodCallTarget) -> bool {
    &&& match t.target {
        SelectedMethodTarget::ImplMethod { impl_id, method_id, selected_trait } => idok(m, impl_id) && idok(m, method_id)
            && (selected_trait matches Some(s) ==> idok(m, s.trait_id) && idok(m, s.member_id)),
        SelectedMethodTarget::TraitMethod { trait_id, member_id, .. } => idok(m, trait_id) && idok(m, member_id),
    }
    &&& forall|k: int| 0 <= k < t.owner_substitution@.len() ==> idok(m, (#[trigger] t.owner_substitution@[k]).param.owner)
}

/// Every type that a method-call authority carries remaps.
pub open spec fn target_types_ok(m: ProductIdentityRemap, v: ProductNominalTypeValidator, t: MethodCallTarget) -> bool {
    &&& match t.target {
        SelectedMethodTarget::ImplMethod { selected_trait, .. } => selected_trait matches Some(s) ==> tsok(m, v, s.trait_args@),
        SelectedMethodTarget::TraitMethod { trait_args, .. } => tsok(m, v, trait_args@),
    }
    &&& forall|k: int| 0 <= k < t.owner_substitution@.len() ==> tok(m, v, (#[trigger] t.owner_substitution@[k]).ty)
}

/// A method-call authority passes its check and remaps.
pub open spec fn method_remap_ok(m: ProductIdentityRemap, v: ProductNominalTypeValidator, t: MethodCallTarget) -> bool {
    method_target_ok(v, t) && target_ids_ok(m, t) && target_types_ok(m, v, t)
}

/// `b2` is `b` with each parameter's owner and each bound type remapped.
pub open spec fn bindings_map(m: ProductIdentityRemap, b: Seq<TypeBinding>, b2: Seq<TypeBinding>) -> bool {
    b.len() == b2.len() && forall|k: int| 0 <= k < b.len() ==> (#[trigger] b2[k]).param.owner == mapped(m, b[k].param.owner)
        && b2[k].param.index == b[k].param.index && type_map(m, b[k].ty, b2[k].ty)
}

/// `t2` is the authority `t` with its definitions and types remapped.
pub open spec fn target_map(m: ProductIdentityRemap, t: MethodCallTarget, t2: MethodCallTarget) -> bool {
    &&& match t.target {
        SelectedMethodTarget::ImplMethod { impl_id, method_id, selected_trait } => t2.target matches SelectedMethodTarget::ImplMethod {
            impl_id: i2,
            method_id: m2,
            selected_trait: s2,
        } && i2 == mapped(m, impl_id) && m2 == mapped(m, method_id) && match selected_trait {
            None => s2 is None,
            Some(s) => s2 matches Some(s3) && s3.trait_id == mapped(m, s.trait_id) && s3.member_id == mapped(m, s.member_id)
                && types_map(m, s.trait_args@, s3.trait_args@),
        },
        SelectedMethodTarget::TraitMethod { trait_id, member_id, trait_args, dispatch } => t2.target matches SelectedMethodTarget::TraitMethod {
            trait_id: a,
            member_id: b,
            trait_args: c,
            dispatch: d,
        } && a == mapped(m, trait_id) && b == mapped(m, member_id) && d == dispatch && types_map(m, trait_args@, c@),
    }
    &&& bindings_map(m, t.owner_substitution@, t2.owner_substitution@)
}

// ----- variable and call targets -----

/// A resolved variable's target is valid in `scope`.
pub open spec fn var_ok(m: ProductIdentityRemap, v: ProductNominalTypeValidator, r: VarRef, scope: Seq<LocalId>) -> bool {
    match r.target {
        VarTarget::Function(id) => function_target_outcome(v, spec_product_of(id)) is Ok && idok(m, id),
        VarTarget::Extern(id) => extern_target_outcome(v, spec_product_of(id)) is Ok && idok(m, id),
        VarTarget::Instance(_) => false,
        VarTarget::Local(l) => scope.contains(l),
    }
}

/// `r2` is the resolved variable `r` with its target remapped.
pub open spec fn var_map(m: ProductIdentityRemap, r: VarRef, r2: VarRef) -> bool {
    r2.name@ == r.name@ && match r.target {
        VarTarget::Function(id) => r2.target == VarTarget::Function(mapped(m, id)),
        VarTarget::Extern(id) => r2.target == VarTarget::Extern(mapped(m, id)),
        _ => r2.target == r.target,
    }
}

/// A call target is valid in `scope`.
pub open spec fn call_target_ok(m: ProductIdentityRemap, v: ProductNominalTypeValidator, t: CallTarget, scope: Seq<LocalId>) -> bool {
    match t {
        CallTarget::Function(id) => function_target_outcome(v, spec_product_of(id)) is Ok && idok(m, id),
        CallTarget::Extern(id) => extern_target_outcome(v, spec_product_of(id)) is Ok && idok(m, id),
        CallTarget::Local(l) => scope.contains(l),
        CallTarget::StaticMethod(st) => tok(m, v, st.owner_ty) && static_authority_ok(v, st.method)
            && method_remap_ok(m, v, st.method),
        CallTarget::Instance(_) => false,
        CallTarget::Intrinsic(_) => true,
    }
}

/// `t2` is the call target `t` remapped.
pub open spec fn call_target_map(m: ProductIdentityRemap, t: CallTarget, t2: CallTarget) -> bool {
    match t {
        CallTarget::Function(id) => t2 == CallTarget::Function(mapped(m, id)),
        CallTarget::Extern(id) => t2 == CallTarget::Extern(mapped(m, id)),
        CallTarget::Local(l) => t2 == CallTarget::Local(l),
        CallTarget::StaticMethod(st) => t2 matches CallTarget::StaticMethod(st2) && type_map(m, st.owner_ty, st2.owner_ty)
            && target_map(m, st.method, st2.method),
        CallTarget::Instance(i) => t2 == CallTarget::Instance(i),
        CallTarget::Intrinsic(n) => t2 matches CallTarget::Intrinsic(n2) && n2@ == n@,
    }
}

/// A call whose callee names, as a function, the method that its
/// static-method authority selects: the authority stands for the callee.
pub open spec fn authorized_static_callee(callee: Expr, target: Option<CallTarget>) -> bool {
    callee.kind matches ExprKind::ResolvedVar(r) && r.target matches VarTarget::Function(cid) && target matches Some(
        CallTarget::StaticMethod(st),
    ) && st.method.spec_method_id() == Some(cid)
}

// ----- patterns -----

/// A pattern's definitions and locations are valid, nested no deeper than
/// the limit.
pub open spec fn pattern_ok(
    m: ProductIdentityRemap,
    c: ProductChildLocationValidator,
    v: ProductNominalTypeValidator,
    p: Pattern,
    d: nat,
) -> bool
    decreases p,
{
    d <= MAX_REMAP_DEPTH && match p {
        Pattern::Struct(_, sid, targs, fields) => {
            &&& (sid matches Some(s) ==> nominal_outcome(v, spec_product_of(s), v.local.structs@, v.dependency.structs@, " as struct"@) is Ok
                && idok(m, s))
            &&& tsok(m, v, targs@)
            &&& forall|k: int| 0 <= k < fields@.len() ==> {
                &&& ((#[trigger] fields@[k]).field matches Some(loc) ==> {
                    &&& (sid matches Some(s) ==> spec_product_of(loc.owner) == spec_product_of(s))
                    &&& field_outcome(c.field_name(spec_product_of(loc.owner), loc.field_id), spec_product_of(loc.owner), loc.field_id,
                        loc.name@, fields@[k].name@) is Ok
                    &&& idok(m, loc.owner)
                })
                &&& pattern_ok(m, c, v, fields@[k].pattern, d + 1)
            }
        },
        Pattern::Enum(_, vn, loc, subs) => {
            &&& (loc matches Some(l) ==> variant_outcome(c.variant_name(spec_product_of(l.owner), l.variant_id), spec_product_of(l.owner),
                l.variant_id, l.name@, vn@) is Ok && idok(m, l.owner))
            &&& forall|k: int| 0 <= k < subs@.len() ==> pattern_ok(m, c, v, #[trigger] subs@[k], d + 1)
        },
        Pattern::Tuple(subs) => forall|k: int| 0 <= k < subs@.len() ==> pattern_ok(m, c, v, #[trigger] subs@[k], d + 1),
        Pattern::Or(subs) => forall|k: int| 0 <= k < subs@.len() ==> pattern_ok(m, c, v, #[trigger] subs@[k], d + 1),
        _ => true,
    }
}

/// `p2` is the pattern `p` with its definitions remapped.
pub open spec fn pattern_map(m: ProductIdentityRemap, p: Pattern, p2: Pattern) -> bool
    decreases p,
{
    match p {
        Pattern::Wildcard => p2 is Wildcard,
        Pattern::Binding { name, local_id, mutable } => p2 matches Pattern::Binding { name: n2, local_id: l2, mutable: m2 }
            && n2@ == name@ && l2 == local_id && m2 == mutable,
        Pattern::Literal(x) => p2 == Pattern::Literal(x),
        Pattern::Tuple(subs) => p2 matches Pattern::Tuple(s2) && subs@.len() == s2@.len() && forall|k: int|
            0 <= k < subs@.len() ==> pattern_map(m, #[trigger] subs@[k], s2@[k]),
        Pattern::Or(subs) => p2 matches Pattern::Or(s2) && subs@.len() == s2@.len() && forall|k: int|
            0 <= k < subs@.len() ==> pattern_map(m, #[trigger] subs@[k], s2@[k]),
        Pattern::Enum(en, vn, loc, subs) => p2 matches Pattern::Enum(en2, vn2, loc2, s2) && en2@ == en@ && vn2@ == vn@
            && match loc {
            None => loc2 is None,
            Some(l) => loc2 matches Some(l2) && variant_loc_map(m, l, l2),
        } && subs@.len() == s2@.len() && forall|k: int| 0 <= k < subs@.len() ==> pattern_map(m, #[trigger] subs@[k], s2@[k]),
        Pattern::Struct(name, sid, targs, fields) => p2 matches Pattern::Struct(n2, sid2, ta2, f2) && n2@ == name@
            && opt_id_map(m, sid, sid2) && types_map(m, targs@, ta2@) && fields@.len() == f2@.len() && forall|k: int|
            0 <= k < fields@.len() ==> {
                &&& (#[trigger] f2@[k]).name@ == fields@[k].name@
                &&& match fields@[k].field {
                    None => f2@[k].field is None,
                    Some(l) => f2@[k].field matches Some(l2) && field_loc_map(m, l, l2),
                }
                &&& pattern_map(m, fields@[k].pattern, f2@[k].pattern)
            },
    }
}

/// The locals that a pattern binds, in order.
pub open spec fn pattern_locals(p: Pattern) -> Seq<LocalId>
    decreases p, 1nat,
{
    match p {
        Pattern::Binding { local_id, .. } => seq![local_id],
        Pattern::Tuple(subs) => patterns_locals(subs@),
        Pattern::Enum(_, _, _, subs) => patterns_locals(subs@),
        Pattern::Or(subs) => patterns_locals(subs@),
        Pattern::Struct(_, _, _, fields) => field_patterns_locals(fields@),
        _ => Seq::empty(),
    }
}

/// The locals that a list of patterns binds, in order.
pub open spec fn patterns_locals(ps: Seq<Pattern>) -> Seq<LocalId>
    decreases ps, 0nat,
{
    if ps.len() == 0 {
        Seq::empty()
    } else {
        patterns_locals(ps.drop_last()) + pattern_locals(ps.last())
    }
}

/// The locals that the field patterns of a struct pattern bind, in order.
pub open spec fn field_patterns_locals(fs: Seq<StructPatternField>) -> Seq<LocalId>
    decreases fs, 0nat,
{
    if fs.len() == 0 {
        Seq::empty()
    } else {
        proof {
            assert(decreases_to!(fs => fs.last()));
        }
        field_patterns_locals(fs.drop_last()) + pattern_locals(fs.last().pattern)
    }
}


/// A local bound by one pattern of a list is bound by the list.
pub proof fn lemma_patterns_locals_include(ps: Seq<Pattern>, k: int, x: LocalId)
    requires
        0 <= k < ps.len(),
        pattern_locals(ps[k]).contains(x),
    ensures
        patterns_locals(ps).contains(x),
    decreases ps.len(),
{
    if k == ps.len() - 1 {
        let a = patterns_locals(ps.drop_last());
        let b = pattern_locals(ps.last());
        let j = choose|j: int| 0 <= j < b.len() && b[j] == x;
        assert((a + b)[a.len() + j] == x);
    } else {
        lemma_patterns_locals_include(ps.drop_last(), k, x);
        assert(ps.drop_last()[k] == ps[k]);
        let a = patterns_locals(ps.drop_last());
        let j = choose|j: int| 0 <= j < a.len() && a[j] == x;
        assert((a + pattern_locals(ps.last()))[j] == x);
    }
}

/// A local bound by the pattern of one field is bound by the fields.
pub proof fn lemma_field_patterns_locals_include(fs: Seq<StructPatternField>, k: int, x: LocalId)
    requires
        0 <= k < fs.len(),
        pattern_locals(fs[k].pattern).contains(x),
    ensures
        field_patterns_locals(fs).contains(x),
    decreases fs.len(),
{
    if k == fs.len() - 1 {
        let a = field_patterns_locals(fs.drop_last());
        let b = pattern_locals(fs.last().pattern);
        let j = choose|j: int| 0 <= j < b.len() && b[j] == x;
        assert((a + b)[a.len() + j] == x);
    } else {
        lemma_field_patterns_locals_include(fs.drop_last(), k, x);
        assert(fs.drop_last()[k] == fs[k]);
        let a = field_patterns_locals(fs.drop_last());
        let j = choose|j: int| 0 <= j < a.len() && a[j] == x;
        assert((a + pattern_locals(fs.last().pattern))[j] == x);
    }
}

/// The locals a pattern brings into scope: a binding brings its own local,
/// and every compound pattern (tuple, enum variant, alternative, struct)
/// brings every local that any of its sub-patterns brings.
pub proof fn lemma_pattern_binds_nested(p: Pattern, x: LocalId)
    ensures
        p matches Pattern::Binding { local_id, .. } ==> pattern_locals(p).contains(local_id),
        p matches Pattern::Tuple(subs) ==> forall|k: int| 0 <= k < subs@.len() && #[trigger] pattern_locals(subs@[k]).contains(x)
            ==> pattern_locals(p).contains(x),
        p matches Pattern::Enum(_, _, _, subs) ==> forall|k: int| 0 <= k < subs@.len() && #[trigger] pattern_locals(subs@[k]).contains(x)
            ==> pattern_locals(p).contains(x),
        p matches Pattern::Or(subs) ==> forall|k: int| 0 <= k < subs@.len() && #[trigger] pattern_locals(subs@[k]).contains(x)
            ==> pattern_locals(p).contains(x),
        p matches Pattern::Struct(_, _, _, fields) ==> forall|k: int| 0 <= k < fields@.len()
            && #[trigger] pattern_locals(fields@[k].pattern).contains(x) ==> pattern_locals(p).contains(x),
{
    match p {
        Pattern::Binding { local_id, .. } => {
            assert(pattern_locals(p)[0] == local_id);
        },
        Pattern::Tuple(subs) => {
            assert forall|k: int| 0 <= k < subs@.len() && #[trigger] pattern_locals(subs@[k]).contains(x)
                implies pattern_locals(p).contains(x) by {
                lemma_patterns_locals_include(subs@, k, x);
            }
        },
        Pattern::Enum(_, _, _, subs) => {
            assert forall|k: int| 0 <= k < subs@.len() && #[trigger] pattern_locals(subs@[k]).contains(x)
                implies pattern_locals(p).contains(x) by {
                lemma_patterns_locals_include(subs@, k, x);
            }
        },
        Pattern::Or(subs) => {
            assert forall|k: int| 0 <= k < subs@.len() && #[trigger] pattern_locals(subs@[k]).contains(x)
                implies pattern_locals(p).contains(x) by {
                lemma_patterns_locals_include(subs@, k, x);
            }
        },
        Pattern::Struct(_, _, _, fields) => {
            assert forall|k: int| 0 <= k < fields@.len() && #[trigger] pattern_locals(fields@[k].pattern).contains(x)
                implies pattern_locals(p).contains(x) by {
                lemma_field_patterns_locals_include(fields@, k, x);
            }
        },
        _ => {},
    }
}

// ----- expressions, statements and blocks -----

/// The locals a statement brings into scope for the statements after it.
pub open spec fn stmt_locals(s: Stmt) -> Seq<LocalId> {
    match s {
        Stmt::Let { local_id, .. } => seq![local_id],
        _ => Seq::empty(),
    }
}

/// The locals of a closure's parameters.
pub open spec fn param_locals(ps: Seq<Param>) -> Seq<LocalId> {
    Seq::new(ps.len(), |i: int| ps[i].local_id)
}

/// The locals of a closure's captures.
pub open spec fn capture_locals(cs: Seq<crate::hir::Capture>) -> Seq<LocalId> {
    Seq::new(cs.len(), |i: int| cs[i].local_id)
}

/// An expression's definitions, locations and local references are valid
/// in `scope`, nested no deeper than the limit from depth `d`.
pub open spec fn expr_ok(
    m: ProductIdentityRemap,
    c: ProductChildLocationValidator,
    v: ProductNominalTypeValidator,
    e: Expr,
    scope: Seq<LocalId>,
    d: nat,
) -> bool
    decreases e,
{
    &&& d <= MAX_REMAP_DEPTH
    &&& tok(m, v, e.ty)
    &&& match e.kind {
        ExprKind::ResolvedVar(r) => var_ok(m, v, r, scope),
        ExprKind::ArrayLiteral(xs) => forall|k: int| 0 <= k < xs@.len() ==> expr_ok(m, c, v, #[trigger] xs@[k], scope, d + 1),
        ExprKind::TupleLiteral(xs) => forall|k: int| 0 <= k < xs@.len() ==> expr_ok(m, c, v, #[trigger] xs@[k], scope, d + 1),
        ExprKind::ArrayRepeat(x, _) => expr_ok(m, c, v, *x, scope, d + 1),
        ExprKind::FieldAccess(b, name, loc) => expr_ok(m, c, v, *b, scope, d + 1) && (loc matches Some(l) ==> field_outcome(
            c.field_name(spec_product_of(l.owner), l.field_id),
            spec_product_of(l.owner),
            l.field_id,
            l.name@,
            name@,
        ) is Ok && idok(m, l.owner)),
        ExprKind::TupleIndex(b, _) => expr_ok(m, c, v, *b, scope, d + 1),
        ExprKind::UnaryOp(_, b) => expr_ok(m, c, v, *b, scope, d + 1),
        ExprKind::Ref(_, b) => expr_ok(m, c, v, *b, scope, d + 1),
        ExprKind::Deref(b) => expr_ok(m, c, v, *b, scope, d + 1),
        ExprKind::BinOp(_, a, b) => expr_ok(m, c, v, *a, scope, d + 1) && expr_ok(m, c, v, *b, scope, d + 1),
        ExprKind::Assign(a, b) => expr_ok(m, c, v, *a, scope, d + 1) && expr_ok(m, c, v, *b, scope, d + 1),
        ExprKind::Range(a, b) => expr_ok(m, c, v, *a, scope, d + 1) && expr_ok(m, c, v, *b, scope, d + 1),
        ExprKind::Call(callee, args, target) => {
            &&& (target matches Some(t) ==> call_target_ok(m, v, t, scope))
            &&& if authorized_static_callee(*callee, target) {
                tok(m, v, callee.ty)
            } else {
                expr_ok(m, c, v, *callee, scope, d + 1)
            }
            &&& forall|k: int| 0 <= k < args@.len() ==> expr_ok(m, c, v, #[trigger] args@[k], scope, d + 1)
        },
        ExprKind::MethodCall(recv, _, args, _, target) => {
            &&& call_authority_ok(v, target)
            &&& method_remap_ok(m, v, target)
            &&& expr_ok(m, c, v, *recv, scope, d + 1)
            &&& forall|k: int| 0 <= k < args@.len() ==> expr_ok(m, c, v, #[trigger] args@[k], scope, d + 1)
        },
        ExprKind::Try(t) => {
            &&& tok(m, v, t.output_ty)
            &&& tok(m, v, t.residual_ty)
            &&& tok(m, v, t.return_ty)
            &&& call_authority_ok(v, t.branch_method)
            &&& method_remap_ok(m, v, t.branch_method)
            &&& t.branch_target is None
            &&& call_target_ok(m, v, t.from_residual_target, scope)
            &&& nominal_outcome(v, spec_product_of(t.control_flow_enum), v.local.enums@, v.dependency.enums@, " as enum"@) is Ok
            &&& idok(m, t.control_flow_enum)
            &&& variant_outcome(
                c.variant_name(spec_product_of(t.break_variant.owner), t.break_variant.variant_id),
                spec_product_of(t.break_variant.owner),
                t.break_variant.variant_id,
                t.break_variant.name@,
                t.break_variant.name@,
            ) is Ok
            &&& idok(m, t.break_variant.owner)
            &&& variant_outcome(
                c.variant_name(spec_product_of(t.continue_variant.owner), t.continue_variant.variant_id),
                spec_product_of(t.continue_variant.owner),
                t.continue_variant.variant_id,
                t.continue_variant.name@,
                t.continue_variant.name@,
            ) is Ok
            &&& idok(m, t.continue_variant.owner)
            &&& expr_ok(m, c, v, *t.expr, scope, d + 1)
        },
        ExprKind::StructLiteral(_, sid, fields) => {
            &&& (sid matches Some(s) ==> nominal_outcome(v, spec_product_of(s), v.local.structs@, v.dependency.structs@, " as struct"@) is Ok
                && idok(m, s))
            &&& forall|k: int| 0 <= k < fields@.len() ==> {
                &&& ((#[trigger] fields@[k]).field matches Some(loc) ==> {
                    &&& (sid matches Some(s) ==> spec_product_of(loc.owner) == spec_product_of(s))
                    &&& field_outcome(c.field_name(spec_product_of(loc.owner), loc.field_id), spec_product_of(loc.owner), loc.field_id,
                        loc.name@, fields@[k].name@) is Ok
                    &&& idok(m, loc.owner)
                })
                &&& expr_ok(m, c, v, fields@[k].value, scope, d + 1)
            }
        },
        ExprKind::EnumVariant(_, vn, args, loc) => {
            &&& (loc matches Some(l) ==> variant_outcome(c.variant_name(spec_product_of(l.owner), l.variant_id), spec_product_of(l.owner),
                l.variant_id, l.name@, vn@) is Ok && idok(m, l.owner))
            &&& forall|k: int| 0 <= k < args@.len() ==> expr_ok(m, c, v, #[trigger] args@[k], scope, d + 1)
        },
        ExprKind::If { condition, then_branch, else_branch } => {
            &&& expr_ok(m, c, v, *condition, scope, d + 1)
            &&& block_ok(m, c, v, then_branch, scope, d + 1)
            &&& (else_branch matches Some(b) ==> block_ok(m, c, v, b, scope, d + 1))
        },
        ExprKind::Match { scrutinee, arms } => {
            &&& expr_ok(m, c, v, *scrutinee, scope, d + 1)
            &&& forall|k: int| 0 <= k < arms@.len() ==> {
                &&& pattern_ok(m, c, v, (#[trigger] arms@[k]).pattern, d + 1)
                &&& (arms@[k].guard matches Some(g) ==> expr_ok(m, c, v, g, scope + pattern_locals(arms@[k].pattern), d + 1))
                &&& block_ok(m, c, v, arms@[k].body, scope + pattern_locals(arms@[k].pattern), d + 1)
            }
        },
        ExprKind::While { condition, body } => expr_ok(m, c, v, *condition, scope, d + 1) && block_ok(m, c, v, body, scope, d + 1),
        ExprKind::For { local_id, iter, body } => expr_ok(m, c, v, *iter, scope, d + 1)
            && block_ok(m, c, v, body, scope.push(local_id), d + 1),
        ExprKind::Loop(b) => block_ok(m, c, v, b, scope, d + 1),
        ExprKind::Block(b) => block_ok(m, c, v, b, scope, d + 1),
        ExprKind::Lambda { params, body, captures } => {
            &&& forall|k: int| 0 <= k < params@.len() ==> tok(m, v, (#[trigger] params@[k]).ty)
            &&& forall|k: int| 0 <= k < captures@.len() ==> scope.contains((#[trigger] captures@[k]).local_id)
                && tok(m, v, captures@[k].ty)
            &&& block_ok(m, c, v, body, param_locals(params@) + capture_locals(captures@), d + 1)
        },
        ExprKind::Cast(x, ty) => tok(m, v, ty) && expr_ok(m, c, v, *x, scope, d + 1),
        ExprKind::Intrinsic { args, .. } => forall|k: int| 0 <= k < args@.len() ==> expr_ok(m, c, v, #[trigger] args@[k], scope, d + 1),
        _ => true,
    }
}

/// A block's statements are valid in order, each in the scope that the
/// statements before it leave, and its type remaps.
pub open spec fn block_ok(
    m: ProductIdentityRemap,
    c: ProductChildLocationValidator,
    v: ProductNominalTypeValidator,
    b: Block,
    scope: Seq<LocalId>,
    d: nat,
) -> bool
    decreases b,
{
    d <= MAX_REMAP_DEPTH && stmts_ok(m, c, v, b.stmts@, scope, d) && tok(m, v, b.ty)
}

/// A list of statements is valid in order from `scope`.
pub open spec fn stmts_ok(
    m: ProductIdentityRemap,
    c: ProductChildLocationValidator,
    v: ProductNominalTypeValidator,
    ss: Seq<Stmt>,
    scope: Seq<LocalId>,
    d: nat,
) -> bool
    decreases ss,
{
    ss.len() == 0 || (stmt_ok(m, c, v, ss[0], scope, d) && stmts_ok(m, c, v, ss.drop_first(), scope + stmt_locals(ss[0]), d))
}

/// A statement is valid in `scope`.
pub open spec fn stmt_ok(
    m: ProductIdentityRemap,
    c: ProductChildLocationValidator,
    v: ProductNominalTypeValidator,
    s: Stmt,
    scope: Seq<LocalId>,
    d: nat,
) -> bool
    decreases s,
{
    match s {
        Stmt::Let { ty, value, .. } => tok(m, v, ty) && expr_ok(m, c, v, value, scope, d + 1),
        Stmt::Expr(e) => expr_ok(m, c, v, e, scope, d + 1),
        Stmt::Return(Some(e)) => expr_ok(m, c, v, e, scope, d + 1),
        Stmt::Break(Some(e)) => expr_ok(m, c, v, e, scope, d + 1),
        _ => true,
    }
}


/// `o2` is the optional expression `o` remapped.
pub open spec fn opt_expr_map(m: ProductIdentityRemap, o: Option<Expr>, o2: Option<Expr>) -> bool
    decreases o,
{
    match o {
        None => o2 is None,
        Some(e) => o2 matches Some(e2) && expr_map(m, e, e2),
    }
}

/// `e2` is the expression `e` with every definition, location owner and
/// type it carries remapped; names, locals and shapes are kept.
pub open spec fn expr_map(m: ProductIdentityRemap, e: Expr, e2: Expr) -> bool
    decreases e,
{
    &&& type_map(m, e.ty, e2.ty)
    &&& match e.kind {
        ExprKind::IntLiteral(x) => e2.kind == ExprKind::IntLiteral(x),
        ExprKind::BoolLiteral(x) => e2.kind == ExprKind::BoolLiteral(x),
        ExprKind::CharLiteral(x) => e2.kind == ExprKind::CharLiteral(x),
        ExprKind::Unit => e2.kind is Unit,
        ExprKind::StringLiteral(x) => e2.kind matches ExprKind::StringLiteral(y) && y@ == x@,
        ExprKind::Var(x) => e2.kind matches ExprKind::Var(y) && y@ == x@,
        ExprKind::ResolvedVar(r) => e2.kind matches ExprKind::ResolvedVar(r2) && var_map(m, r, r2),
        ExprKind::ArrayLiteral(xs) => e2.kind matches ExprKind::ArrayLiteral(ys) && xs@.len() == ys@.len() && forall|k: int|
            0 <= k < xs@.len() ==> expr_map(m, #[trigger] xs@[k], ys@[k]),
        ExprKind::TupleLiteral(xs) => e2.kind matches ExprKind::TupleLiteral(ys) && xs@.len() == ys@.len() && forall|k: int|
            0 <= k < xs@.len() ==> expr_map(m, #[trigger] xs@[k], ys@[k]),
        ExprKind::ArrayRepeat(x, n) => e2.kind matches ExprKind::ArrayRepeat(y, n2) && n2 == n && expr_map(m, *x, *y),
        ExprKind::FieldAccess(b, name, loc) => e2.kind matches ExprKind::FieldAccess(b2, n2, l2) && n2@ == name@
            && expr_map(m, *b, *b2) && match loc {
            None => l2 is None,
            Some(l) => l2 matches Some(l3) && field_loc_map(m, l, l3),
        },
        ExprKind::TupleIndex(b, i) => e2.kind matches ExprKind::TupleIndex(b2, i2) && i2 == i && expr_map(m, *b, *b2),
        ExprKind::UnaryOp(op, b) => e2.kind matches ExprKind::UnaryOp(op2, b2) && op2 == op && expr_map(m, *b, *b2),
        ExprKind::Ref(mu, b) => e2.kind matches ExprKind::Ref(mu2, b2) && mu2 == mu && expr_map(m, *b, *b2),
        ExprKind::Deref(b) => e2.kind matches ExprKind::Deref(b2) && expr_map(m, *b, *b2),
        ExprKind::BinOp(op, a, b) => e2.kind matches ExprKind::BinOp(op2, a2, b2) && op2 == op && expr_map(m, *a, *a2)
            && expr_map(m, *b, *b2),
        ExprKind::Assign(a, b) => e2.kind matches ExprKind::Assign(a2, b2) && expr_map(m, *a, *a2) && expr_map(m, *b, *b2),
        ExprKind::Range(a, b) => e2.kind matches ExprKind::Range(a2, b2) && expr_map(m, *a, *a2) && expr_map(m, *b, *b2),
        ExprKind::Call(callee, args, target) => e2.kind matches ExprKind::Call(c2, a2, t2) && expr_map(m, *callee, *c2)
            && args@.len() == a2@.len() && (forall|k: int| 0 <= k < args@.len() ==> expr_map(m, #[trigger] args@[k], a2@[k]))
            && match target {
            None => t2 is None,
            Some(t) => t2 matches Some(t3) && call_target_map(m, t, t3),
        },
        ExprKind::MethodCall(recv, name, args, mode, target) => e2.kind matches ExprKind::MethodCall(r2, n2, a2, mode2, t2)
            && n2@ == name@ && mode2 == mode && expr_map(m, *recv, *r2) && args@.len() == a2@.len() && (forall|k: int|
            0 <= k < args@.len() ==> expr_map(m, #[trigger] args@[k], a2@[k])) && target_map(m, target, t2),
        ExprKind::Try(t) => e2.kind matches ExprKind::Try(t2) && {
            &&& expr_map(m, *t.expr, *t2.expr)
            &&& target_map(m, t.branch_method, t2.branch_method)
            &&& t2.branch_target == t.branch_target
            &&& call_target_map(m, t.from_residual_target, t2.from_residual_target)
            &&& type_map(m, t.output_ty, t2.output_ty)
            &&& type_map(m, t.residual_ty, t2.residual_ty)
            &&& type_map(m, t.return_ty, t2.return_ty)
            &&& t2.control_flow_enum == mapped(m, t.control_flow_enum)
            &&& variant_loc_map(m, t.break_variant, t2.break_variant)
            &&& variant_loc_map(m, t.continue_variant, t2.continue_variant)
        },
        ExprKind::StructLiteral(name, sid, fields) => e2.kind matches ExprKind::StructLiteral(n2, sid2, f2) && n2@ == name@
            && opt_id_map(m, sid, sid2) && fields@.len() == f2@.len() && forall|k: int| 0 <= k < fields@.len() ==> {
                &&& (#[trigger] f2@[k]).name@ == fields@[k].name@
                &&& match fields@[k].field {
                    None => f2@[k].field is None,
                    Some(l) => f2@[k].field matches Some(l2) && field_loc_map(m, l, l2),
                }
                &&& expr_map(m, fields@[k].value, f2@[k].value)
            },
        ExprKind::EnumVariant(en, vn, args, loc) => e2.kind matches ExprKind::EnumVariant(en2, vn2, a2, l2) && en2@ == en@
            && vn2@ == vn@ && match loc {
            None => l2 is None,
            Some(l) => l2 matches Some(l3) && variant_loc_map(m, l, l3),
        } && args@.len() == a2@.len() && forall|k: int| 0 <= k < args@.len() ==> expr_map(m, #[trigger] args@[k], a2@[k]),
        ExprKind::If { condition, then_branch, else_branch } => e2.kind matches ExprKind::If {
            condition: c2,
            then_branch: t2,
            else_branch: el2,
        } && expr_map(m, *condition, *c2) && block_map(m, then_branch, t2) && match else_branch {
            None => el2 is None,
            Some(b) => el2 matches Some(b2) && block_map(m, b, b2),
        },
        ExprKind::Match { scrutinee, arms } => e2.kind matches ExprKind::Match { scrutinee: s2, arms: a2 } && expr_map(
            m,
            *scrutinee,
            *s2,
        ) && arms@.len() == a2@.len() && forall|k: int| 0 <= k < arms@.len() ==> {
            &&& pattern_map(m, (#[trigger] arms@[k]).pattern, a2@[k].pattern)
            &&& opt_expr_map(m, arms@[k].guard, a2@[k].guard)
            &&& block_map(m, arms@[k].body, a2@[k].body)
        },
        ExprKind::While { condition, body } => e2.kind matches ExprKind::While { condition: c2, body: b2 } && expr_map(
            m,
            *condition,
            *c2,
        ) && block_map(m, body, b2),
        ExprKind::For { local_id, iter, body } => e2.kind matches ExprKind::For { local_id: l2, iter: i2, body: b2 }
            && l2 == local_id && expr_map(m, *iter, *i2) && block_map(m, body, b2),
        ExprKind::Loop(b) => e2.kind matches ExprKind::Loop(b2) && block_map(m, b, b2),
        ExprKind::Block(b) => e2.kind matches ExprKind::Block(b2) && block_map(m, b, b2),
        ExprKind::Lambda { params, body, captures } => e2.kind matches ExprKind::Lambda { params: p2, body: b2, captures: c2 }
            && params@.len() == p2@.len() && (forall|k: int| 0 <= k < params@.len() ==> {
                &&& (#[trigger] p2@[k]).name@ == params@[k].name@
                &&& p2@[k].local_id == params@[k].local_id
                &&& p2@[k].mutable == params@[k].mutable
                &&& p2@[k].is_ref == params@[k].is_ref
                &&& type_map(m, params@[k].ty, p2@[k].ty)
            }) && captures@.len() == c2@.len() && (forall|k: int| 0 <= k < captures@.len() ==> {
                &&& (#[trigger] c2@[k]).local_id == captures@[k].local_id
                &&& c2@[k].kind == captures@[k].kind
                &&& type_map(m, captures@[k].ty, c2@[k].ty)
            }) && block_map(m, body, b2),
        ExprKind::Cast(x, ty) => e2.kind matches ExprKind::Cast(x2, ty2) && expr_map(m, *x, *x2) && type_map(m, ty, ty2),
        ExprKind::Intrinsic { name, args } => e2.kind matches ExprKind::Intrinsic { name: n2, args: a2 } && n2@ == name@
            && args@.len() == a2@.len() && forall|k: int| 0 <= k < args@.len() ==> expr_map(m, #[trigger] args@[k], a2@[k]),
    }
}

/// `b2` is the block `b` with its statements and type remapped.
pub open spec fn block_map(m: ProductIdentityRemap, b: Block, b2: Block) -> bool
    decreases b,
{
    type_map(m, b.ty, b2.ty) && b.stmts@.len() == b2.stmts@.len() && forall|k: int|
        0 <= k < b.stmts@.len() ==> stmt_map(m, #[trigger] b.stmts@[k], b2.stmts@[k])
}

/// `s2` is the statement `s` remapped.
pub open spec fn stmt_map(m: ProductIdentityRemap, s: Stmt, s2: Stmt) -> bool
    decreases s,
{
    match s {
        Stmt::Let { name, local_id, ty, value, mutable } => s2 matches Stmt::Let {
            name: n2,
            local_id: l2,
            ty: t2,
            value: v2,
            mutable: m2,
        } && n2@ == name@ && l2 == local_id && m2 == mutable && type_map(m, ty, t2) && expr_map(m, value, v2),
        Stmt::Expr(e) => s2 matches Stmt::Expr(e2) && expr_map(m, e, e2),
        Stmt::Return(o) => s2 matches Stmt::Return(o2) && opt_expr_map(m, o, o2),
        Stmt::Break(o) => s2 matches Stmt::Break(o2) && opt_expr_map(m, o, o2),
        Stmt::Continue => s2 is Continue,
    }
}


// ----- generics and functions -----

/// Every declared generic parameter's owner has a mapped crate.
pub open spec fn decls_ok(m: ProductIdentityRemap, ds: Seq<GenericParamDecl>) -> bool {
    forall|k: int| 0 <= k < ds.len() ==> idok(m, (#[trigger] ds[k]).id.owner)
}

/// `ds2` is `ds` with each parameter's owner remapped.
pub open spec fn decls_map(m: ProductIdentityRemap, ds: Seq<GenericParamDecl>, ds2: Seq<GenericParamDecl>) -> bool {
    ds.len() == ds2.len() && forall|k: int| 0 <= k < ds.len() ==> (#[trigger] ds2[k]).id.owner == mapped(m, ds[k].id.owner)
        && ds2[k].id.index == ds[k].id.index && ds2[k].name@ == ds[k].name@
}

/// A trait bound's trait is mapped and its arguments remap.
pub open spec fn bound_ok(m: ProductIdentityRemap, v: ProductNominalTypeValidator, b: TraitBound) -> bool {
    idok(m, b.trait_id) && tsok(m, v, b.type_args@)
}

/// `b2` is the trait bound `b` remapped.
pub open spec fn bound_map(m: ProductIdentityRemap, b: TraitBound, b2: TraitBound) -> bool {
    b2.trait_id == mapped(m, b.trait_id) && types_map(m, b.type_args@, b2.type_args@)
}

/// A where-clause predicate remaps.
pub open spec fn predicate_ok(m: ProductIdentityRemap, v: ProductNominalTypeValidator, p: Predicate) -> bool {
    tok(m, v, p.subject) && idok(m, p.trait_id) && tsok(m, v, p.args@)
}

/// `p2` is the predicate `p` remapped.
pub open spec fn predicate_map(m: ProductIdentityRemap, p: Predicate, p2: Predicate) -> bool {
    type_map(m, p.subject, p2.subject) && p2.trait_id == mapped(m, p.trait_id) && types_map(m, p.args@, p2.args@)
}

/// Generic bounds remap: each bounded parameter, each bound and each
/// predicate.
pub open spec fn bounds_ok(m: ProductIdentityRemap, v: ProductNominalTypeValidator, gb: GenericBounds) -> bool {
    &&& forall|k: int| 0 <= k < gb.entries@.len() ==> idok(m, (#[trigger] gb.entries@[k]).0.owner)
        && forall|j: int| 0 <= j < gb.entries@[k].1@.len() ==> bound_ok(m, v, #[trigger] gb.entries@[k].1@[j])
    &&& forall|k: int| 0 <= k < gb.predicates@.len() ==> predicate_ok(m, v, #[trigger] gb.predicates@[k])
}

/// `gb2` is `gb` with its parameters, bounds and predicates remapped, in
/// the same order.
pub open spec fn bounds_map(m: ProductIdentityRemap, gb: GenericBounds, gb2: GenericBounds) -> bool {
    &&& gb.entries@.len() == gb2.entries@.len()
    &&& forall|k: int| 0 <= k < gb.entries@.len() ==> {
        &&& (#[trigger] gb2.entries@[k]).0.owner == mapped(m, gb.entries@[k].0.owner)
        &&& gb2.entries@[k].0.index == gb.entries@[k].0.index
        &&& gb.entries@[k].1@.len() == gb2.entries@[k].1@.len()
        &&& forall|j: int| 0 <= j < gb.entries@[k].1@.len() ==> bound_map(m, #[trigger] gb.entries@[k].1@[j], gb2.entries@[k].1@[j])
    }
    &&& gb.predicates@.len() == gb2.predicates@.len()
    &&& forall|k: int| 0 <= k < gb.predicates@.len() ==> predicate_map(m, #[trigger] gb.predicates@[k], gb2.predicates@[k])
}

/// A function's generics, signature and body remap, its body checked with
/// its parameters in scope.
pub open spec fn function_ok(m: ProductIdentityRemap, c: ProductChildLocationValidator, v: ProductNominalTypeValidator, f: Function) -> bool {
    &&& decls_ok(m, f.generic_params@)
    &&& bounds_ok(m, v, f.generic_bounds)
    &&& forall|k: int| 0 <= k < f.params@.len() ==> tok(m, v, (#[trigger] f.params@[k]).ty)
    &&& tok(m, v, f.ret_type)
    &&& block_ok(m, c, v, f.body, param_locals(f.params@), 0)
}

/// `f2` is the function `f` with its generics, signature and body
/// remapped; its own identity, name and flags are kept.
pub open spec fn function_map(m: ProductIdentityRemap, f: Function, f2: Function) -> bool {
    f2.id == f.id && function_parts_map(m, f, f2)
}

/// `f2` has the name, flags, and the remapped generics, signature and body
/// of `f`, whatever its identity.
pub open spec fn function_parts_map(m: ProductIdentityRemap, f: Function, f2: Function) -> bool {
    &&& f2.name@ == f.name@
    &&& decls_map(m, f.generic_params@, f2.generic_params@)
    &&& bounds_map(m, f.generic_bounds, f2.generic_bounds)
    &&& f.params@.len() == f2.params@.len()
    &&& forall|k: int| 0 <= k < f.params@.len() ==> {
        &&& (#[trigger] f2.params@[k]).name@ == f.params@[k].name@
        &&& f2.params@[k].local_id == f.params@[k].local_id
        &&& f2.params@[k].mutable == f.params@[k].mutable
        &&& f2.params@[k].is_ref == f.params@[k].is_ref
        &&& type_map(m, f.params@[k].ty, f2.params@[k].ty)
    }
    &&& type_map(m, f.ret_type, f2.ret_type)
    &&& block_map(m, f.body, f2.body)
    &&& f2.is_curried == f.is_curried
    &&& f2.is_method == f.is_method
    &&& f2.self_receiver == f.self_receiver
    &&& f2.is_unsafe == f.is_unsafe
}

} // verus!
