use lib::authority::validate_product_method_authority_maps;
use lib::bodymap::{
    remap_expr_child_locations, remap_function_child_locations, remap_pattern_child_locations,
    remap_var_target_child_location,
};
use lib::child::ProductChildLocationValidator;
use lib::collections::IdMap;
use lib::hir::{
    StructLiteralField, Block, CallTarget, Expr, ExprKind, FieldLocation, Function, ImplOwner, MethodCallTarget, Param, Pattern,
    SelectedTraitMember, StaticMethodTarget, Stmt, StructPatternField, TraitDispatchKind, VarRef, VarTarget,
    VariantLocation,
};
use lib::load::cross_crate_hir_from_products;
use lib::ids::{
    AssocTypeId, CrateId, DefId, FieldId, InstanceId, LocalDefId, LocalId, ProductCrateId, ProductDefId,
    ProductLocalDefId, VariantId,
};
use lib::load::validate_product_type_fields;
use lib::artifact::resolver_from_products;
use lib::bodyspec::MAX_REMAP_DEPTH;
use lib::names::{artifact_hir_name_tables, intern_loaded_interface_types};
use lib::artifact::{ArtifactCrateInterface, CrossCrateHir, ExternCrateLink, ExternCrateRecord, ResolverTables};
use lib::products::{
    AssociatedTypeDecl, CompilerProducts, EnumInterface, EnumVariantInterface, ExternInterface, FieldInterface,
    FunctionInterface, ImplInterface, LanguageItems, ProductBodies, ProductCrateIdentity, ProductIdentityTable,
    ProductInterface, ProductLinkData, ProductLinkRecord, StructInterface, TraitInterface, VariantFields,
};
use lib::remap::{CrateContext, ProductIdentityRemap};
use lib::typemap::remap_type_def_ids;
use lib::types::{
    AssociatedTypeKey, CallableKind, GenericBounds, GenericParamDecl, GenericParamId, ImplReceiverPattern,
    ReceiverMode, Safety, Type, TypeBinding, TypeVarId,
};
use lib::products::FunctionSig;
use lib::validator::{DefinitionTables, ProductNominalTypeValidator};

fn product_def_id(crate_id: u32, local_id: u32) -> ProductDefId {
    ProductDefId { crate_id: ProductCrateId(crate_id), local_id: ProductLocalDefId(local_id) }
}

fn product_hir_def_id(id: ProductDefId) -> DefId {
    DefId { crate_id: CrateId(id.crate_id.0), local: LocalDefId(id.local_id.0) }
}

fn def_id(crate_id: u32, local: u32) -> DefId {
    DefId { crate_id: CrateId(crate_id), local: LocalDefId(local) }
}

fn remap_of(local: u32, pairs: &[(u32, u32)]) -> ProductIdentityRemap {
    let mut remap = ProductIdentityRemap { local_crate: ProductCrateId(local), crate_ids: Vec::new() };
    for (product, consumer) in pairs {
        remap.insert(ProductCrateId(*product), CrateId(*consumer));
    }
    remap
}

fn no_bounds() -> GenericBounds {
    GenericBounds { entries: Vec::new(), predicates: Vec::new() }
}

fn generic_params(owner: DefId, names: &[&str]) -> Vec<GenericParamDecl> {
    names
        .iter()
        .enumerate()
        .map(|(index, name)| GenericParamDecl { id: GenericParamId { owner, index: index as u32 }, name: name.to_string() })
        .collect()
}

fn function_type(params: Vec<Type>, ret: Type) -> Type {
    Type::Function {
        params,
        ret: Box::new(ret),
        safety: Safety::Safe,
        callable_kind: CallableKind::Function,
        captures: Vec::new(),
    }
}

fn expr(kind: ExprKind, ty: Type) -> Expr {
    Expr { kind, ty }
}

fn test_function(id: DefId, name: &str) -> Function {
    Function {
        id,
        name: name.to_string(),
        generic_params: Vec::new(),
        generic_bounds: no_bounds(),
        params: Vec::new(),
        ret_type: Type::I64,
        body: Block { stmts: vec![Stmt::Expr(expr(ExprKind::IntLiteral(5), Type::I64))], ty: Type::I64 },
        is_curried: false,
        is_method: false,
        self_receiver: None,
        is_unsafe: false,
    }
}

fn function_interface(id: DefId, name: &str) -> FunctionInterface {
    FunctionInterface {
        id,
        name: name.to_string(),
        generic_params: Vec::new(),
        generic_bounds: no_bounds(),
        params: Vec::new(),
        ret_type: Type::I64,
        is_curried: false,
        is_method: false,
        self_receiver: None,
        is_unsafe: false,
    }
}

fn empty_identity_table() -> ProductIdentityTable {
    ProductIdentityTable {
        local_crate: None,
        dependencies: Vec::new(),
        display_names: IdMap::new(),
        export_names: Vec::new(),
        prelude_export_names: Vec::new(),
        import_alias_names: Vec::new(),
        module_alias_names: Vec::new(),
    }
}

fn empty_products(crate_name: &str) -> CompilerProducts {
    CompilerProducts {
        crate_identity: ProductCrateIdentity::local(crate_name.to_string()),
        identity_table: empty_identity_table(),
        interface: ProductInterface::new(),
        bodies: ProductBodies { functions: IdMap::new(), generic_impls: IdMap::new(), trait_default_methods: IdMap::new() },
        link: ProductLinkData { object_path: None, records: IdMap::new() },
    }
}

fn product_with_function(crate_name: &str, product_crate_id: ProductCrateId, local_id: u32, object_path: &str) -> CompilerProducts {
    let product_id = ProductDefId { crate_id: product_crate_id, local_id: ProductLocalDefId(local_id) };
    let function_id = def_id(product_crate_id.0, local_id);
    let function_name = format!("{}::answer", crate_name);
    let mut products = empty_products(crate_name);
    products.identity_table.local_crate = Some(product_crate_id);
    products.identity_table.display_names.insert(product_id, function_name.clone());
    products.identity_table.export_names.push(("answer".to_string(), product_id));
    products.bodies.functions.insert(product_id, test_function(function_id, &function_name));
    products.interface.functions.insert(product_id, function_interface(function_id, &function_name));
    products.link.object_path = Some(object_path.to_string());
    products.link.records.insert(product_id, ProductLinkRecord { backend_symbol: format!("{}_answer", crate_name) });
    products
}

fn struct_interface(id: DefId, name: &str, fields: Vec<FieldInterface>) -> StructInterface {
    StructInterface { id, name: name.to_string(), generic_params: Vec::new(), fields }
}

fn trait_interface(id: DefId, name: &str) -> TraitInterface {
    TraitInterface {
        id,
        name: name.to_string(),
        generic_params: Vec::new(),
        target: None,
        predicates: Vec::new(),
        associated_types: Vec::new(),
        methods: Vec::new(),
        signatures: Vec::new(),
    }
}

fn impl_interface(id: DefId, owner: &str, receiver: Type) -> ImplInterface {
    ImplInterface {
        id,
        owner: ImplOwner::Named(owner.to_string()),
        self_name: owner.to_string(),
        type_generics: Vec::new(),
        receiver_pattern: ImplReceiverPattern::Exact(receiver),
        trait_name: None,
        trait_id: None,
        trait_generics: Vec::new(),
        trait_arg_types: Vec::new(),
        associated_types: Vec::new(),
        bounds: no_bounds(),
        methods: Vec::new(),
    }
}

fn projection(trait_id: DefId, owner: DefId, assoc: u32) -> Type {
    Type::Projection {
        ty: Box::new(Type::I64),
        trait_id,
        assoc_type: AssociatedTypeKey { owner, assoc_type_id: AssocTypeId(assoc) },
        trait_args: Vec::new(),
    }
}

fn product_with_projection_trait(assoc_type_id: AssocTypeId) -> (CompilerProducts, ProductIdentityRemap, ProductNominalTypeValidator) {
    let trait_product_id = product_def_id(0, 4);
    let mut products = product_with_function("dep", ProductCrateId(0), 0, "dep.o");
    let mut trait_def = trait_interface(def_id(0, 4), "dep::Deref");
    trait_def.associated_types = vec![AssociatedTypeDecl { id: assoc_type_id, name: "Target".to_string() }];
    products.interface.traits.insert(trait_product_id, trait_def);
    let remap = remap_of(0, &[(0, 7)]);
    let validator = ProductNominalTypeValidator::from_products(&products, &remap);
    (products, remap, validator)
}

fn body_with(stmts: Vec<Stmt>, ty: Type) -> Block {
    Block { stmts, ty }
}

#[test]
fn remap_var_target_child_location_rejects_serialized_instance_target() {
    let remap = remap_of(1, &[(1, 9)]);
    let products = empty_products("dep");
    let validator = ProductNominalTypeValidator::from_products(&products, &remap);
    let mut reference = VarRef { name: "identity".to_string(), target: VarTarget::Instance(InstanceId(5)) };

    let err = remap_var_target_child_location(&mut reference, &remap, &validator, &Vec::new()).unwrap_err();

    assert!(err.contains("local instance target"), "unexpected error: {err}");
}

#[test]
fn remap_pattern_child_locations_remaps_new_pattern_sidecars() {
    let old_struct = product_def_id(1, 10);
    let old_enum = product_def_id(1, 11);
    let remap = remap_of(1, &[(1, 9)]);
    let mut products = empty_products("dep");
    products.interface.structs.insert(
        old_struct,
        struct_interface(
            product_hir_def_id(old_struct),
            "dep::Box",
            vec![FieldInterface { id: FieldId(0), name: "value".to_string(), ty: Type::I64, public: true }],
        ),
    );
    products.interface.enums.insert(
        old_enum,
        EnumInterface {
            id: product_hir_def_id(old_enum),
            name: "dep::Option".to_string(),
            generic_params: Vec::new(),
            variants: vec![EnumVariantInterface {
                id: VariantId(0),
                name: "Some".to_string(),
                fields: VariantFields::Positional(vec![Type::I64]),
            }],
        },
    );
    let validator = ProductNominalTypeValidator::from_products(&products, &remap);
    let child_validator = ProductChildLocationValidator::from_products(&products);
    let mut pattern = Pattern::Enum(
        "dep::Option".to_string(),
        "Some".to_string(),
        Some(VariantLocation { owner: product_hir_def_id(old_enum), variant_id: VariantId(0), name: "Some".to_string() }),
        vec![Pattern::Struct(
            "dep::Box".to_string(),
            Some(product_hir_def_id(old_struct)),
            vec![Type::Struct { id: product_hir_def_id(old_struct), args: Vec::new() }],
            vec![StructPatternField {
                name: "value".to_string(),
                field: Some(FieldLocation { owner: product_hir_def_id(old_struct), field_id: FieldId(0), name: "value".to_string() }),
                pattern: Pattern::Wildcard,
            }],
        )],
    );

    remap_pattern_child_locations(&mut pattern, &remap, &child_validator, &validator, 0).unwrap();

    let expected_struct = remap.def_id(old_struct).unwrap();
    let expected_enum = remap.def_id(old_enum).unwrap();
    let Pattern::Enum(_, _, Some(location), payloads) = pattern else {
        panic!("expected enum pattern");
    };
    assert_eq!(location.owner, expected_enum);
    let Pattern::Struct(_, Some(struct_id), args, fields) = &payloads[0] else {
        panic!("expected struct payload pattern");
    };
    assert_eq!(*struct_id, expected_struct);
    assert_eq!(format!("{:?}", args[0]), format!("{:?}", Type::Struct { id: expected_struct, args: Vec::new() }));
    assert_eq!(fields[0].field.as_ref().unwrap().owner, expected_struct);
}

#[test]
fn remap_expr_child_locations_remaps_call_target_sidecars() {
    let function_product_id = product_def_id(1, 10);
    let extern_product_id = product_def_id(1, 11);
    let function_id = product_hir_def_id(function_product_id);
    let extern_id = product_hir_def_id(extern_product_id);
    let remap = remap_of(1, &[(1, 9)]);
    let mut products = product_with_function("dep", ProductCrateId(1), 10, "dep.o");
    products.interface.externs.insert(
        extern_product_id,
        ExternInterface { id: extern_id, name: "foreign".to_string(), params: Vec::new(), ret: Type::I64, variadic: false, is_unsafe: false },
    );
    let child_validator = ProductChildLocationValidator::from_products(&products);
    let type_validator = ProductNominalTypeValidator::from_products(&products, &remap);
    let mut e = expr(
        ExprKind::TupleLiteral(vec![
            expr(
                ExprKind::Call(
                    Box::new(expr(ExprKind::Var("dep::answer".to_string()), function_type(Vec::new(), Type::I64))),
                    Vec::new(),
                    Some(CallTarget::Function(function_id)),
                ),
                Type::I64,
            ),
            expr(
                ExprKind::Call(
                    Box::new(expr(ExprKind::Var("foreign".to_string()), function_type(Vec::new(), Type::I64))),
                    Vec::new(),
                    Some(CallTarget::Extern(extern_id)),
                ),
                Type::I64,
            ),
        ]),
        Type::Tuple(vec![Type::I64, Type::I64]),
    );

    remap_expr_child_locations(&mut e, &remap, &child_validator, &type_validator, 0).unwrap();

    let ExprKind::TupleLiteral(items) = &e.kind else {
        panic!("expected tuple literal");
    };
    let ExprKind::Call(_, _, Some(function_target)) = &items[0].kind else {
        panic!("expected function call target");
    };
    let expected_function = remap.def_id(function_product_id).unwrap();
    assert!(matches!(function_target, CallTarget::Function(d) if *d == expected_function));
    let ExprKind::Call(_, _, Some(extern_target)) = &items[1].kind else {
        panic!("expected extern call target");
    };
    let expected_extern = remap.def_id(extern_product_id).unwrap();
    assert!(matches!(extern_target, CallTarget::Extern(d) if *d == expected_extern));
}

fn function_fixture() -> (CompilerProducts, ProductIdentityRemap, ProductChildLocationValidator, ProductNominalTypeValidator, Function) {
    let remap = remap_of(1, &[(1, 9)]);
    let products = product_with_function("dep", ProductCrateId(1), 10, "dep.o");
    let child_validator = ProductChildLocationValidator::from_products(&products);
    let type_validator = ProductNominalTypeValidator::from_products(&products, &remap);
    let function = test_function(def_id(1, 10), "dep::answer");
    (products, remap, child_validator, type_validator, function)
}

#[test]
fn remap_function_child_locations_rejects_unknown_local_call_target() {
    let (_products, remap, child_validator, type_validator, mut function) = function_fixture();
    function.body = body_with(
        vec![Stmt::Expr(expr(
            ExprKind::Call(
                Box::new(expr(ExprKind::Var("local_fn".to_string()), function_type(Vec::new(), Type::I64))),
                Vec::new(),
                Some(CallTarget::Local(LocalId(99))),
            ),
            Type::I64,
        ))],
        Type::I64,
    );

    let err = remap_function_child_locations(&mut function, &remap, &child_validator, &type_validator).unwrap_err();

    assert!(err.contains("unknown local call target"), "unexpected error: {err}");
}

#[test]
fn remap_function_child_locations_rejects_unknown_local_resolved_var_target() {
    let (_products, remap, child_validator, type_validator, mut function) = function_fixture();
    function.body = body_with(
        vec![Stmt::Expr(expr(
            ExprKind::ResolvedVar(VarRef { name: "local_fn".to_string(), target: VarTarget::Local(LocalId(99)) }),
            function_type(Vec::new(), Type::I64),
        ))],
        function_type(Vec::new(), Type::I64),
    );

    let err = remap_function_child_locations(&mut function, &remap, &child_validator, &type_validator).unwrap_err();

    assert!(err.contains("unknown local var target"), "unexpected error: {err}");
}

#[test]
fn remap_function_child_locations_rejects_call_target_to_lambda_local() {
    let (_products, remap, child_validator, type_validator, mut function) = function_fixture();
    let lambda_local = LocalId(42);
    function.body = body_with(
        vec![
            Stmt::Expr(expr(
                ExprKind::Lambda {
                    params: vec![Param {
                        name: "callback".to_string(),
                        local_id: lambda_local,
                        ty: function_type(Vec::new(), Type::I64),
                        mutable: false,
                        is_ref: false,
                    }],
                    body: body_with(Vec::new(), Type::Unit),
                    captures: Vec::new(),
                },
                function_type(Vec::new(), Type::Unit),
            )),
            Stmt::Expr(expr(
                ExprKind::Call(
                    Box::new(expr(ExprKind::Var("callback".to_string()), function_type(Vec::new(), Type::I64))),
                    Vec::new(),
                    Some(CallTarget::Local(lambda_local)),
                ),
                Type::I64,
            )),
        ],
        Type::I64,
    );

    let err = remap_function_child_locations(&mut function, &remap, &child_validator, &type_validator).unwrap_err();

    assert!(err.contains("unknown local call target"), "unexpected error: {err}");
}

#[test]
fn remap_function_child_locations_rejects_call_target_to_current_let_local() {
    let (_products, remap, child_validator, type_validator, mut function) = function_fixture();
    let let_local = LocalId(7);
    function.body = body_with(
        vec![Stmt::Let {
            name: "local_fn".to_string(),
            local_id: let_local,
            ty: Type::I64,
            value: expr(
                ExprKind::Call(
                    Box::new(expr(ExprKind::Var("local_fn".to_string()), function_type(Vec::new(), Type::I64))),
                    Vec::new(),
                    Some(CallTarget::Local(let_local)),
                ),
                Type::I64,
            ),
            mutable: false,
        }],
        Type::I64,
    );

    let err = remap_function_child_locations(&mut function, &remap, &child_validator, &type_validator).unwrap_err();

    assert!(err.contains("unknown local call target"), "unexpected error: {err}");
}

#[test]
fn product_artifact_rejects_receiver_pattern_missing_impl_generic() {
    let mut products = product_with_function("dep", ProductCrateId(0), 0, "dep.o");
    let impl_id = product_def_id(0, 7);
    let hir_impl_id = product_hir_def_id(impl_id);
    let mut imp = impl_interface(hir_impl_id, "Box", Type::Unit);
    imp.type_generics = generic_params(hir_impl_id, &["T"]);
    products.interface.impls.insert(impl_id, imp);

    let error = validate_product_method_authority_maps(&products, &DefinitionTables::new())
        .expect_err("receiver pattern must bind every impl generic");

    assert!(
        error.contains("receiver/trait argument generic bindings") && error.contains("0::7"),
        "unexpected error: {error}"
    );
}

#[test]
fn product_artifact_allows_impl_generic_bound_by_trait_argument() {
    let mut products = product_with_function("dep", ProductCrateId(0), 0, "dep.o");
    let impl_id = product_def_id(0, 8);
    let hir_impl_id = product_hir_def_id(impl_id);
    let mut imp = impl_interface(hir_impl_id, "Box", Type::Generic(GenericParamId { owner: hir_impl_id, index: 0 }));
    imp.type_generics = generic_params(hir_impl_id, &["T", "U"]);
    imp.trait_arg_types = vec![Type::Generic(GenericParamId { owner: hir_impl_id, index: 1 })];
    products.interface.impls.insert(impl_id, imp);

    validate_product_method_authority_maps(&products, &DefinitionTables::new())
        .expect("trait arguments may bind impl generics absent from the receiver");
}

#[test]
fn product_artifact_rejects_nested_error_in_unexported_interface_type() {
    let mut products = product_with_function("dep", ProductCrateId(0), 0, "dep.o");
    let struct_id = product_def_id(0, 7);
    products.interface.structs.insert(
        struct_id,
        struct_interface(
            product_hir_def_id(struct_id),
            "dep::Private",
            vec![FieldInterface {
                id: FieldId(0),
                name: "value".to_string(),
                ty: Type::Tuple(vec![Type::Reference { mutable: false, inner: Box::new(Type::Error) }]),
                public: false,
            }],
        ),
    );
    let remap = remap_of(0, &[(0, 7)]);

    let error = validate_product_type_fields(&products, &remap, &CrateContext::new()).unwrap_err();

    assert!(error.contains("Type::Error"), "unexpected error: {error}");
}

#[test]
fn product_artifact_rejects_nested_type_var_in_unexported_body_type() {
    let mut products = product_with_function("dep", ProductCrateId(0), 0, "dep.o");
    let function_id = product_def_id(0, 0);
    let mut function = test_function(def_id(0, 0), "dep::answer");
    function.body.ty = Type::Tuple(vec![Type::Reference { mutable: false, inner: Box::new(Type::TypeVar(TypeVarId(0))) }]);
    products.bodies.functions.insert(function_id, function);
    let remap = remap_of(0, &[(0, 7)]);

    let error = validate_product_type_fields(&products, &remap, &CrateContext::new()).unwrap_err();

    assert!(error.contains("unresolved type"), "unexpected error: {error}");
}

#[test]
fn product_artifact_remaps_projection_type_ids() {
    let (_products, remap, validator) = product_with_projection_trait(AssocTypeId(0));
    let mut ty = projection(def_id(0, 4), def_id(0, 4), 0);

    remap_type_def_ids(&mut ty, &remap, &validator).unwrap();

    assert_eq!(format!("{:?}", ty), format!("{:?}", projection(def_id(7, 4), def_id(7, 4), 0)));
}

#[test]
fn product_artifact_rejects_unknown_projection_trait_id() {
    let products = product_with_function("dep", ProductCrateId(0), 0, "dep.o");
    let remap = remap_of(0, &[(0, 7)]);
    let validator = ProductNominalTypeValidator::from_products(&products, &remap);
    let mut ty = projection(def_id(0, 4), def_id(0, 4), 0);

    let err = remap_type_def_ids(&mut ty, &remap, &validator).unwrap_err();

    assert!(err.contains("unknown trait definition"), "unexpected error: {err}");
}

#[test]
fn product_artifact_rejects_error_type_in_executable_body() {
    let products = product_with_function("dep", ProductCrateId(0), 0, "dep.o");
    let remap = remap_of(0, &[(0, 7)]);
    let child_validator = ProductChildLocationValidator::from_products(&products);
    let type_validator = ProductNominalTypeValidator::from_products(&products, &remap);
    let mut e = expr(ExprKind::IntLiteral(1), Type::Error);

    let error = remap_expr_child_locations(&mut e, &remap, &child_validator, &type_validator, 0).unwrap_err();

    assert!(error.contains("unresolved type"), "unexpected error: {error}");
}

#[test]
fn product_artifact_rejects_error_type_in_impl_receiver_metadata() {
    let mut products = product_with_function("dep", ProductCrateId(0), 0, "dep.o");
    let impl_id = product_def_id(0, 7);
    products.interface.impls.insert(impl_id, impl_interface(product_hir_def_id(impl_id), "Broken", Type::Error));

    let error = validate_product_method_authority_maps(&products, &DefinitionTables::new()).unwrap_err();

    assert!(error.contains("unresolved type"), "unexpected error: {error}");
}

#[test]
fn product_artifact_rejects_unknown_projection_assoc_type_id() {
    let (_products, remap, validator) = product_with_projection_trait(AssocTypeId(0));
    let mut ty = projection(def_id(0, 4), def_id(0, 4), 9);

    let err = remap_type_def_ids(&mut ty, &remap, &validator).unwrap_err();

    assert!(err.contains("unknown associated type ID"), "unexpected error: {err}");
}

#[test]
fn product_artifact_rejects_projection_assoc_owner_mismatch_across_crates() {
    let (_products, mut remap, validator) = product_with_projection_trait(AssocTypeId(0));
    remap.insert(ProductCrateId(1), CrateId(8));
    let mut ty = projection(def_id(0, 4), def_id(1, 4), 0);

    let err = remap_type_def_ids(&mut ty, &remap, &validator).unwrap_err();

    assert!(err.contains("does not match associated type owner"), "unexpected error: {err}");
}

#[test]
fn product_artifact_rejects_unknown_dependency_projection_trait_id() {
    let (_products, mut remap, validator) = product_with_projection_trait(AssocTypeId(0));
    remap.insert(ProductCrateId(1), CrateId(8));
    let mut ty = projection(def_id(1, 44), def_id(1, 44), 0);

    let err = remap_type_def_ids(&mut ty, &remap, &validator).unwrap_err();

    assert!(err.contains("unknown dependency trait definition"), "unexpected error: {err}");
}

#[test]
fn product_artifact_rejects_unknown_method_call_target_impl_id() {
    let mut e = expr(
        ExprKind::MethodCall(
            Box::new(expr(ExprKind::IntLiteral(1), Type::I64)),
            "value".to_string(),
            Vec::new(),
            None,
            MethodCallTarget::impl_method(def_id(0, 99), def_id(0, 0), None),
        ),
        Type::I64,
    );
    let products = product_with_function("dep", ProductCrateId(0), 0, "dep.o");
    let remap = remap_of(0, &[(0, 7)]);
    let child_validator = ProductChildLocationValidator::from_products(&products);
    let type_validator = ProductNominalTypeValidator::from_products(&products, &remap);

    let err = remap_expr_child_locations(&mut e, &remap, &child_validator, &type_validator, 0).unwrap_err();

    assert!(err.contains("unknown impl target"), "unexpected error: {err}");
}

fn method_interface(id: DefId, name: &str, receiver: Option<ReceiverMode>) -> FunctionInterface {
    let mut f = function_interface(id, name);
    f.is_method = receiver.is_some();
    f.self_receiver = receiver;
    f
}

fn trait_method_fixture(generic: Vec<GenericParamDecl>, self_receiver: Option<ReceiverMode>) -> (CompilerProducts, DefId, DefId) {
    let trait_product_id = product_def_id(0, 30);
    let trait_id = product_hir_def_id(trait_product_id);
    let member_id = def_id(0, 31);
    let mut products = product_with_function("dep", ProductCrateId(0), 0, "dep.o");
    let mut trait_def = trait_interface(trait_id, "dep::Trait");
    trait_def.generic_params = generic;
    trait_def.methods = vec![("value".to_string(), method_interface(member_id, "value", self_receiver))];
    products.interface.traits.insert(trait_product_id, trait_def);
    (products, trait_id, member_id)
}

fn validate_artifact_expr(products: &CompilerProducts, e: &mut Expr) -> Result<(), String> {
    let remap = remap_of(0, &[(0, 7)]);
    let child_validator = ProductChildLocationValidator::from_products(products);
    let type_validator = ProductNominalTypeValidator::from_products(products, &remap);
    remap_expr_child_locations(e, &remap, &child_validator, &type_validator, 0)
}

fn method_call(receiver: Expr, name: &str, args: Vec<Expr>, mode: Option<ReceiverMode>, target: MethodCallTarget) -> Expr {
    expr(ExprKind::MethodCall(Box::new(receiver), name.to_string(), args, mode, target), Type::I64)
}

fn one() -> Expr {
    expr(ExprKind::IntLiteral(1), Type::I64)
}

fn trait_impl(impl_id: DefId, trait_id: DefId, methods: Vec<(String, FunctionInterface)>) -> ImplInterface {
    let mut imp = impl_interface(impl_id, "I64", Type::I64);
    imp.trait_name = Some("Trait".to_string());
    imp.trait_id = Some(trait_id);
    imp.methods = methods;
    imp
}

#[test]
fn product_artifact_load_rejects_receiver_trait_member_mapped_to_static_impl_method() {
    let (mut products, trait_id, member_id) = trait_method_fixture(Vec::new(), Some(ReceiverMode::Move));
    let impl_product_id = product_def_id(0, 40);
    let impl_id = product_hir_def_id(impl_product_id);
    let method_id = def_id(0, 41);
    products.interface.impls.insert(
        impl_product_id,
        trait_impl(
            impl_id,
            trait_id,
            vec![("different_source_name".to_string(), function_interface(method_id, "different_source_name"))],
        ),
    );
    products.interface.effective_trait_methods.push((
        (impl_product_id, ProductDefId::from_def_id(member_id)),
        ProductDefId::from_def_id(method_id),
    ));
    let remap = remap_of(0, &[(0, 7)]);

    let error = cross_crate_hir_from_products(&products, "dep", &remap, &CrateContext::new())
        .expect_err("malformed effective trait-member relation must fail artifact loading");

    assert!(
        error.contains("effective trait member")
            && error.contains(&format!("{member_id:?}"))
            && error.contains(&format!("{method_id:?}"))
            && error.contains("receiver/static mismatch"),
        "unexpected error: {error}"
    );
}

#[test]
fn product_artifact_rejects_trait_method_target_with_missing_trait_argument() {
    let (products, trait_id, member_id) =
        trait_method_fixture(generic_params(def_id(0, 30), &["T"]), Some(ReceiverMode::Move));
    let mut e = method_call(
        one(),
        "value",
        Vec::new(),
        Some(ReceiverMode::Move),
        MethodCallTarget::trait_method(trait_id, member_id, Vec::new(), TraitDispatchKind::TraitBound),
    );

    let error = validate_artifact_expr(&products, &mut e).unwrap_err();

    assert!(error.contains("trait argument arity"), "unexpected error: {error}");
}

#[test]
fn product_artifact_rejects_impl_target_with_inconsistent_trait_arguments() {
    let (mut products, trait_id, member_id) =
        trait_method_fixture(generic_params(def_id(0, 30), &["T"]), Some(ReceiverMode::Move));
    let impl_product_id = product_def_id(0, 40);
    let impl_id = product_hir_def_id(impl_product_id);
    let method_id = def_id(0, 41);
    let mut imp = trait_impl(
        impl_id,
        trait_id,
        vec![("value".to_string(), method_interface(method_id, "value", Some(ReceiverMode::Move)))],
    );
    imp.trait_generics = generic_params(trait_id, &["T"]);
    imp.trait_arg_types = vec![Type::I64];
    products.interface.impls.insert(impl_product_id, imp);
    products.interface.effective_trait_methods.push((
        (impl_product_id, ProductDefId::from_def_id(member_id)),
        ProductDefId::from_def_id(method_id),
    ));
    let mut e = method_call(
        one(),
        "value",
        Vec::new(),
        Some(ReceiverMode::Move),
        MethodCallTarget::impl_method(
            impl_id,
            method_id,
            Some(SelectedTraitMember { trait_id, member_id, trait_args: vec![Type::Bool] }),
        ),
    );

    let error = validate_artifact_expr(&products, &mut e).unwrap_err();

    assert!(error.contains("trait arguments do not match impl"), "unexpected error: {error}");
}

#[test]
fn product_artifact_rejects_trait_impl_target_without_selected_trait_identity() {
    let (mut products, trait_id, member_id) = trait_method_fixture(Vec::new(), Some(ReceiverMode::Move));
    let impl_product_id = product_def_id(0, 40);
    let impl_id = product_hir_def_id(impl_product_id);
    let method_id = def_id(0, 41);
    products.interface.impls.insert(
        impl_product_id,
        trait_impl(
            impl_id,
            trait_id,
            vec![("value".to_string(), method_interface(method_id, "value", Some(ReceiverMode::Move)))],
        ),
    );
    products.interface.effective_trait_methods.push((
        (impl_product_id, ProductDefId::from_def_id(member_id)),
        ProductDefId::from_def_id(method_id),
    ));
    let mut e = method_call(
        one(),
        "value",
        Vec::new(),
        Some(ReceiverMode::Move),
        MethodCallTarget::impl_method(impl_id, method_id, None),
    );

    let error = validate_artifact_expr(&products, &mut e).unwrap_err();

    assert!(error.contains("has no selected trait identity"), "unexpected error: {error}");
}

#[test]
fn product_artifact_rejects_method_call_authority_for_static_method() {
    let mut products = product_with_function("dep", ProductCrateId(0), 0, "dep.o");
    let impl_product_id = product_def_id(0, 40);
    let impl_id = product_hir_def_id(impl_product_id);
    let method_id = def_id(0, 41);
    let mut imp = impl_interface(impl_id, "I64", Type::I64);
    imp.methods = vec![("make".to_string(), function_interface(method_id, "make"))];
    products.interface.impls.insert(impl_product_id, imp);
    let mut e = method_call(one(), "make", Vec::new(), None, MethodCallTarget::impl_method(impl_id, method_id, None));

    let error = validate_artifact_expr(&products, &mut e).unwrap_err();

    assert!(error.contains("references a static method"), "unexpected error: {error}");
}

#[test]
fn product_artifact_rejects_static_authority_for_receiver_method() {
    let mut products = product_with_function("dep", ProductCrateId(0), 0, "dep.o");
    let impl_product_id = product_def_id(0, 40);
    let impl_id = product_hir_def_id(impl_product_id);
    let method_id = def_id(0, 41);
    let mut imp = impl_interface(impl_id, "I64", Type::I64);
    imp.methods = vec![("value".to_string(), method_interface(method_id, "value", Some(ReceiverMode::Move)))];
    products.interface.impls.insert(impl_product_id, imp);
    let mut e = expr(
        ExprKind::Call(
            Box::new(expr(ExprKind::Var("value".to_string()), function_type(Vec::new(), Type::I64))),
            Vec::new(),
            Some(CallTarget::StaticMethod(StaticMethodTarget {
                owner_ty: Type::I64,
                method: MethodCallTarget::impl_method(impl_id, method_id, None),
            })),
        ),
        Type::I64,
    );

    let error = validate_artifact_expr(&products, &mut e).unwrap_err();

    assert!(error.contains("references a receiver method"), "unexpected error: {error}");
}

#[test]
fn product_artifact_rejects_malformed_trait_method_authority_with_substitutions() {
    let products = product_with_function("dep", ProductCrateId(0), 0, "dep.o");
    let mut target = MethodCallTarget::trait_method(def_id(0, 999), def_id(0, 998), Vec::new(), TraitDispatchKind::TraitBound);
    target.owner_substitution.push(TypeBinding { param: GenericParamId { owner: def_id(0, 1), index: 0 }, ty: Type::I64 });
    let mut e = method_call(
        expr(ExprKind::ArrayLiteral(Vec::new()), Type::Array(Box::new(Type::I64), 0)),
        "index",
        vec![expr(ExprKind::IntLiteral(0), Type::I64)],
        None,
        target,
    );

    let error = validate_artifact_expr(&products, &mut e).unwrap_err();

    assert!(error.contains("references unknown trait target"), "unexpected error: {error}");
}

#[test]
fn product_artifact_rejects_method_call_target_method_from_other_impl() {
    let first_impl_id = product_def_id(0, 10);
    let second_impl_id = product_def_id(0, 20);
    let first_method_id = def_id(0, 11);
    let second_method_id = def_id(0, 21);
    let mut products = product_with_function("dep", ProductCrateId(0), 0, "dep.o");
    let mut first = impl_interface(def_id(0, 10), "Box", Type::Unit);
    first.methods = vec![("value".to_string(), method_interface(first_method_id, "dep::Box_First_value", None))];
    first.methods[0].1.is_method = true;
    products.interface.impls.insert(first_impl_id, first);
    let mut second = impl_interface(def_id(0, 20), "Box", Type::Unit);
    second.methods = vec![("value".to_string(), method_interface(second_method_id, "dep::Box_Second_value", None))];
    second.methods[0].1.is_method = true;
    products.interface.impls.insert(second_impl_id, second);
    let mut e = method_call(one(), "value", Vec::new(), None, MethodCallTarget::impl_method(def_id(0, 10), second_method_id, None));

    let err = validate_artifact_expr(&products, &mut e).unwrap_err();

    assert!(err.contains("method target") && err.contains("impl target"), "unexpected error: {err}");
}

#[test]
fn product_artifact_rejects_trait_target_on_inherent_impl_method_call() {
    let trait_product_id = product_def_id(0, 30);
    let impl_product_id = product_def_id(0, 10);
    let method_id = def_id(0, 11);
    let mut products = product_with_function("dep", ProductCrateId(0), 0, "dep.o");
    products.interface.traits.insert(trait_product_id, trait_interface(def_id(0, 30), "dep::Show"));
    let mut imp = impl_interface(def_id(0, 10), "Box", Type::Unit);
    imp.methods = vec![("value".to_string(), method_interface(method_id, "dep::Box_value", None))];
    imp.methods[0].1.is_method = true;
    products.interface.impls.insert(impl_product_id, imp);
    let mut e = method_call(
        one(),
        "value",
        Vec::new(),
        None,
        MethodCallTarget::impl_method(
            def_id(0, 10),
            method_id,
            Some(SelectedTraitMember { trait_id: def_id(0, 30), member_id: method_id, trait_args: Vec::new() }),
        ),
    );

    let err = validate_artifact_expr(&products, &mut e).unwrap_err();

    assert!(err.contains("impl target") && err.contains("trait target"), "unexpected error: {err}");
}

#[test]
fn product_artifact_rejects_method_call_target_method_from_other_trait() {
    let first_method_id = def_id(0, 31);
    let second_method_id = def_id(0, 41);
    let mut products = product_with_function("dep", ProductCrateId(0), 0, "dep.o");
    let mut first = trait_interface(def_id(0, 30), "dep::First");
    first.methods = vec![("value".to_string(), method_interface(first_method_id, "dep::First_value", None))];
    first.methods[0].1.is_method = true;
    products.interface.traits.insert(product_def_id(0, 30), first);
    let mut second = trait_interface(def_id(0, 40), "dep::Second");
    second.methods = vec![("value".to_string(), method_interface(second_method_id, "dep::Second_value", None))];
    second.methods[0].1.is_method = true;
    products.interface.traits.insert(product_def_id(0, 40), second);
    let mut e = method_call(
        one(),
        "value",
        Vec::new(),
        None,
        MethodCallTarget::trait_method(def_id(0, 30), second_method_id, Vec::new(), TraitDispatchKind::TraitBound),
    );

    let err = validate_artifact_expr(&products, &mut e).unwrap_err();

    assert!(err.contains("does not own selected member"), "unexpected error: {err}");
}

#[test]
fn product_artifact_rejects_trait_signature_target_using_trait_id_sentinel() {
    let trait_id = def_id(0, 30);
    let mut products = product_with_function("dep", ProductCrateId(0), 0, "dep.o");
    let mut trait_def = trait_interface(trait_id, "dep::Show");
    trait_def.signatures = vec![(
        "value".to_string(),
        FunctionSig {
            id: def_id(0, 31),
            name: "value".to_string(),
            generic_params: Vec::new(),
            params: Vec::new(),
            ret: Type::I64,
            generic_bounds: no_bounds(),
            self_receiver: None,
            is_unsafe: false,
        },
    )];
    products.interface.traits.insert(product_def_id(0, 30), trait_def);
    let mut e = method_call(
        one(),
        "value",
        Vec::new(),
        None,
        MethodCallTarget::trait_method(trait_id, trait_id, Vec::new(), TraitDispatchKind::TraitBound),
    );

    let err = validate_artifact_expr(&products, &mut e).unwrap_err();

    assert!(err.contains("does not own selected member"), "unexpected error: {err}");
}

fn expect_expr_error(products: &CompilerProducts, mut e: Expr) -> String {
    validate_artifact_expr(products, &mut e).unwrap_err()
}

fn expect_pattern_error(products: &CompilerProducts, mut pattern: Pattern) -> String {
    let remap = remap_of(0, &[(0, 7)]);
    let child_validator = ProductChildLocationValidator::from_products(products);
    let type_validator = ProductNominalTypeValidator::from_products(products, &remap);
    remap_pattern_child_locations(&mut pattern, &remap, &child_validator, &type_validator, 0).unwrap_err()
}

fn resolved_var(name: &str, target: VarTarget) -> Expr {
    expr(ExprKind::ResolvedVar(VarRef { name: name.to_string(), target }), Type::I64)
}

fn value_field() -> Vec<FieldInterface> {
    vec![FieldInterface { id: FieldId(0), name: "value".to_string(), ty: Type::I64, public: true }]
}

fn two_struct_products() -> CompilerProducts {
    let mut products = product_with_function("dep", ProductCrateId(0), 0, "dep.o");
    products.interface.structs.insert(product_def_id(0, 5), struct_interface(def_id(0, 5), "dep::First", value_field()));
    products.interface.structs.insert(product_def_id(0, 6), struct_interface(def_id(0, 6), "dep::Second", value_field()));
    products
}

#[test]
fn product_artifact_rejects_unknown_resolved_var_function_target() {
    let products = product_with_function("dep", ProductCrateId(0), 0, "dep.o");
    let err = expect_expr_error(&products, resolved_var("missing", VarTarget::Function(def_id(0, 99))));
    assert!(err.contains("unknown function"), "unexpected error: {err}");
}

#[test]
fn product_artifact_rejects_resolved_var_function_target_to_extern() {
    let extern_def = def_id(0, 7);
    let mut products = product_with_function("dep", ProductCrateId(0), 0, "dep.o");
    products.interface.externs.insert(
        product_def_id(0, 7),
        ExternInterface { id: extern_def, name: "dep::foreign".to_string(), params: Vec::new(), ret: Type::I64, variadic: false, is_unsafe: false },
    );
    let err = expect_expr_error(&products, resolved_var("foreign", VarTarget::Function(extern_def)));
    assert!(err.contains("function") && err.contains("extern"), "unexpected error: {err}");
}

#[test]
fn product_artifact_rejects_resolved_var_extern_target_to_function() {
    let products = product_with_function("dep", ProductCrateId(0), 0, "dep.o");
    let err = expect_expr_error(&products, resolved_var("answer", VarTarget::Extern(def_id(0, 0))));
    assert!(err.contains("extern") && err.contains("function"), "unexpected error: {err}");
}

#[test]
fn product_artifact_rejects_unknown_struct_literal_sidecar_without_fields() {
    let products = product_with_function("dep", ProductCrateId(0), 0, "dep.o");
    let err = expect_expr_error(
        &products,
        expr(ExprKind::StructLiteral("Ghost".to_string(), Some(def_id(0, 99)), Vec::new()), Type::I64),
    );
    assert!(err.contains("unknown nominal type definition") && err.contains("as struct"), "unexpected error: {err}");
}

#[test]
fn product_artifact_rejects_unknown_struct_pattern_sidecar_without_fields() {
    let products = product_with_function("dep", ProductCrateId(0), 0, "dep.o");
    let err = expect_pattern_error(&products, Pattern::Struct("Ghost".to_string(), Some(def_id(0, 99)), Vec::new(), Vec::new()));
    assert!(err.contains("unknown nominal type definition") && err.contains("as struct"), "unexpected error: {err}");
}

#[test]
fn product_artifact_rejects_struct_literal_field_owner_mismatch() {
    let products = two_struct_products();
    let err = expect_expr_error(
        &products,
        expr(
            ExprKind::StructLiteral(
                "First".to_string(),
                Some(def_id(0, 5)),
                vec![StructLiteralField {
                    name: "value".to_string(),
                    value: one(),
                    field: Some(FieldLocation { owner: def_id(0, 6), field_id: FieldId(0), name: "value".to_string() }),
                }],
            ),
            Type::I64,
        ),
    );
    assert!(err.contains("struct literal field owner mismatch"), "unexpected error: {err}");
}

#[test]
fn product_artifact_rejects_struct_pattern_field_owner_mismatch() {
    let products = two_struct_products();
    let err = expect_pattern_error(
        &products,
        Pattern::Struct(
            "First".to_string(),
            Some(def_id(0, 5)),
            Vec::new(),
            vec![StructPatternField {
                name: "value".to_string(),
                field: Some(FieldLocation { owner: def_id(0, 6), field_id: FieldId(0), name: "value".to_string() }),
                pattern: Pattern::Wildcard,
            }],
        ),
    );
    assert!(err.contains("struct pattern field owner mismatch"), "unexpected error: {err}");
}

fn extern_record(crate_id: u32, name: &str, interface: ArtifactCrateInterface, bodies: CrossCrateHir) -> ExternCrateRecord {
    ExternCrateRecord {
        crate_id: CrateId(crate_id),
        name: name.to_string(),
        interface,
        resolver: ResolverTables::new(),
        prelude_export_ids: Vec::new(),
        language_items: LanguageItems::none(),
        bodies,
        link: ExternCrateLink { object_path: None, backend_symbols: Vec::new() },
    }
}

fn no_bodies() -> CrossCrateHir {
    CrossCrateHir { generic_functions: Vec::new(), traits_with_defaults: Vec::new(), generic_impls: Vec::new() }
}

#[test]
fn product_artifact_rejects_receiver_method_as_function_target() {
    let impl_id = product_def_id(0, 10);
    let method_def = def_id(0, 11);
    let mut products = product_with_function("dep", ProductCrateId(0), 0, "dep.o");
    let mut method = method_interface(method_def, "value", None);
    method.is_method = true;
    method.params.push(Type::I64);
    let mut imp = impl_interface(product_hir_def_id(impl_id), "Box", Type::Unit);
    imp.methods = vec![("value".to_string(), method)];
    products.interface.impls.insert(impl_id, imp);
    let remap = remap_of(0, &[(0, 7)]);
    let validator = ProductNominalTypeValidator::from_products(&products, &remap);
    let mut reference = VarRef { name: "Box_value".to_string(), target: VarTarget::Function(method_def) };

    let err = remap_var_target_child_location(&mut reference, &remap, &validator, &Vec::new()).unwrap_err();

    assert!(err.contains("receiver method") && err.contains("as function"), "unexpected error: {err}");
}

#[test]
fn product_artifact_accepts_static_method_function_display_name_mismatch() {
    let impl_id = product_def_id(0, 12);
    let method_def = def_id(0, 13);
    let mut products = product_with_function("dep", ProductCrateId(0), 0, "dep.o");
    let mut imp = impl_interface(product_hir_def_id(impl_id), "Box", Type::Unit);
    imp.methods = vec![("make".to_string(), function_interface(method_def, "make"))];
    products.interface.impls.insert(impl_id, imp);
    let remap = remap_of(0, &[(0, 7)]);
    let validator = ProductNominalTypeValidator::from_products(&products, &remap);
    let mut reference = VarRef { name: "not_make".to_string(), target: VarTarget::Function(method_def) };

    remap_var_target_child_location(&mut reference, &remap, &validator, &Vec::new()).unwrap();
}

#[test]
fn product_artifact_rejects_dependency_receiver_method_as_function_target() {
    let app_products = product_with_function("app", ProductCrateId(0), 0, "app.o");
    let remap = remap_of(0, &[(0, 7), (1, 8)]);
    let method_id = product_def_id(1, 11);
    let mut dependencies = DefinitionTables::new();
    dependencies.methods.push(method_id);
    let validator = ProductNominalTypeValidator::from_products_with_dependencies(&app_products, &remap, dependencies);
    let mut reference = VarRef { name: "dep::Box_value".to_string(), target: VarTarget::Function(product_hir_def_id(method_id)) };

    let err = remap_var_target_child_location(&mut reference, &remap, &validator, &Vec::new()).unwrap_err();

    assert!(err.contains("dependency receiver method") && err.contains("as function"), "unexpected error: {err}");
}

#[test]
fn product_artifact_allows_dependency_static_impl_method_canonical_name_as_function_target() {
    let app_products = product_with_function("app", ProductCrateId(0), 0, "app.o");
    let remap = remap_of(0, &[(0, 7), (1, 8)]);
    let dep_impl_id = def_id(8, 10);
    let dep_method_id = def_id(8, 11);
    let dep_method_product_id = product_def_id(1, 11);
    let mut interface = ArtifactCrateInterface::new();
    interface.canonical_names.push((dep_method_id, "dep::Box::make".to_string()));
    let mut imp = impl_interface(dep_impl_id, "Box", Type::Unit);
    imp.methods = vec![("make".to_string(), function_interface(dep_method_id, "make"))];
    interface.impls.push(imp);
    let mut ctx = CrateContext::new();
    ctx.add_extern_crate(extern_record(8, "dep", interface, no_bodies())).unwrap();

    let validator = ProductNominalTypeValidator::from_products_with_context(&app_products, &remap, &ctx);
    let mut reference = VarRef { name: "dep::Box::make".to_string(), target: VarTarget::Function(product_hir_def_id(dep_method_product_id)) };

    remap_var_target_child_location(&mut reference, &remap, &validator, &Vec::new()).unwrap();

    assert!(matches!(reference.target, VarTarget::Function(d) if d == def_id(8, 11)));
}

#[test]
fn product_dependency_definitions_ignore_body_provider_generic_impls() {
    let app_products = product_with_function("app", ProductCrateId(0), 0, "app.o");
    let remap = remap_of(0, &[(0, 7), (1, 8)]);
    let dep_impl_id = def_id(8, 10);
    let dep_method_id = def_id(8, 11);
    let mut dep_method = test_function(dep_method_id, "value");
    dep_method.is_method = true;
    let dep_impl = lib::hir::Impl {
        id: dep_impl_id,
        owner: ImplOwner::Named("Box".to_string()),
        self_name: "Box".to_string(),
        type_generics: generic_params(dep_impl_id, &["T"]),
        receiver_pattern: ImplReceiverPattern::Exact(Type::Generic(GenericParamId { owner: dep_impl_id, index: 0 })),
        trait_name: None,
        trait_id: None,
        trait_generics: Vec::new(),
        trait_arg_types: Vec::new(),
        associated_types: Vec::new(),
        bounds: no_bounds(),
        methods: vec![("value".to_string(), dep_method)],
    };
    let bodies = CrossCrateHir { generic_functions: Vec::new(), traits_with_defaults: Vec::new(), generic_impls: vec![dep_impl] };
    let mut ctx = CrateContext::new();
    ctx.add_extern_crate(extern_record(8, "dep", ArtifactCrateInterface::new(), bodies)).unwrap();

    let validator = ProductChildLocationValidator::from_products_with_context(&app_products, &remap, &ctx);
    let type_validator = ProductNominalTypeValidator::from_products_with_context(&app_products, &remap, &ctx);
    let mut e = method_call(one(), "value", Vec::new(), None, MethodCallTarget::impl_method(def_id(1, 10), def_id(1, 11), None));

    let err = remap_expr_child_locations(&mut e, &remap, &validator, &type_validator, 0)
        .expect_err("dependency body providers must not authorize method targets");

    assert!(err.contains("unknown dependency impl target"), "unexpected error: {err}");
}

#[test]
fn product_artifact_accepts_ambiguous_display_name_with_exact_function_target() {
    let left_id = product_def_id(0, 10);
    let right_id = product_def_id(0, 11);
    let mut products = product_with_function("dep", ProductCrateId(0), 0, "dep.o");
    products.identity_table.display_names.insert(left_id, "left::value".to_string());
    products.identity_table.display_names.insert(right_id, "right::value".to_string());
    products.interface.functions.insert(left_id, function_interface(def_id(0, 10), "value"));
    products.interface.functions.insert(right_id, function_interface(def_id(0, 11), "value"));
    let mut e = expr(
        ExprKind::ResolvedVar(VarRef { name: "value".to_string(), target: VarTarget::Function(def_id(0, 11)) }),
        function_type(Vec::new(), Type::I64),
    );

    validate_artifact_expr(&products, &mut e).unwrap();
}

#[test]
fn product_child_location_validator_rejects_mismatched_field_sidecar() {
    let struct_product_id = product_def_id(0, 5);
    let mut products = product_with_function("dep", ProductCrateId(0), 0, "dep.o");
    products.interface.structs.insert(struct_product_id, struct_interface(def_id(0, 5), "dep::Widget", value_field()));

    let validator = ProductChildLocationValidator::from_products(&products);
    let err = validator.validate_field(struct_product_id, FieldId(0), "other", "value").unwrap_err();

    assert!(err.contains("field sidecar mismatch"), "unexpected error: {err}");
}

#[test]
fn product_child_location_remap_rejects_excessive_depth() {
    let mut e = one();
    let remap = remap_of(0, &[]);
    let validator = ProductChildLocationValidator { fields_by_id: Vec::new(), variants_by_id: Vec::new() };
    let type_validator = ProductNominalTypeValidator {
        local_crate: ProductCrateId(0),
        local: DefinitionTables::new(),
        dependency: DefinitionTables::new(),
    };

    let err = remap_expr_child_locations(&mut e, &remap, &validator, &type_validator, MAX_REMAP_DEPTH + 1).unwrap_err();

    assert!(err.contains("maximum remap depth"));
}

#[test]
fn product_crate_id_remap_reuses_shared_transitive_dependency_identity() {
    let mut first = product_with_function("first", ProductCrateId(0), 0, "first.o");
    first.identity_table.dependencies.push((ProductCrateId(1), ProductCrateIdentity::local("shared".to_string())));
    let mut second = product_with_function("second", ProductCrateId(0), 0, "second.o");
    second.identity_table.dependencies.push((ProductCrateId(1), ProductCrateIdentity::local("shared".to_string())));

    let mut ctx = CrateContext::new();
    let first_remap = ProductIdentityRemap::from_products(&mut ctx, &first).unwrap();
    let second_remap = ProductIdentityRemap::from_products(&mut ctx, &second).unwrap();

    assert_ne!(first_remap.crate_of(ProductCrateId(0)), second_remap.crate_of(ProductCrateId(0)));
    assert_eq!(first_remap.crate_of(ProductCrateId(1)), second_remap.crate_of(ProductCrateId(1)));
}

#[test]
fn resolver_from_products_ignores_impl_display_names() {
    let impl_id = def_id(1, 8);
    let product_id = ProductDefId::from_def_id(impl_id);
    let mut products = empty_products("dep");
    products.identity_table.display_names.insert(product_id, "Box as Show".to_string());
    let mut imp = impl_interface(impl_id, "Box", Type::Unit);
    imp.trait_name = Some("Show".to_string());
    products.interface.impls.insert(product_id, imp);
    let remap = remap_of(0, &[]);

    let resolver = resolver_from_products(&products, "dep", &remap, &CrateContext::new()).unwrap();

    assert!(!resolver.item_paths.iter().any(|(path, _)| path == "Box as Show"));
}

fn insert_function(interface: &mut ArtifactCrateInterface, name: &str, function: FunctionInterface) {
    interface.canonical_names.push((function.id, name.to_string()));
    interface.functions.push(function);
}

fn function_kinds(functions: Vec<DefId>) -> Vec<Vec<DefId>> {
    vec![functions, Vec::new(), Vec::new(), Vec::new(), Vec::new(), Vec::new()]
}

#[test]
fn intern_loaded_interface_types_rejects_one_display_alias_for_distinct_ids() {
    let first = def_id(0, 1);
    let second = def_id(0, 2);
    let mut second_function = function_interface(second, "payload_second");
    second_function.ret_type = Type::Bool;
    let mut interface = ArtifactCrateInterface::new();
    insert_function(&mut interface, "same_alias", function_interface(first, "payload_first"));
    insert_function(&mut interface, "same_alias", second_function);

    let error = intern_loaded_interface_types(&interface, &ResolverTables::new())
        .expect_err("distinct artifact IDs must not share one display alias");

    assert!(error.contains("artifact function display alias 'same_alias'"));
}

#[test]
fn artifact_name_tables_keep_resolver_aliases_on_the_payload_def_id() {
    let id = def_id(0, 3);
    let mut interface = ArtifactCrateInterface::new();
    insert_function(&mut interface, "dep::canonical", function_interface(id, "payload_display"));
    let mut resolver = ResolverTables::new();
    resolver.item_names_by_id.push((id, "dep::canonical".to_string()));
    resolver.import_aliases.push(("short".to_string(), "dep::canonical".to_string(), id));

    let names = artifact_hir_name_tables(&interface, &resolver, &function_kinds(vec![id]))
        .expect("resolver alias should remain attached to the exact artifact DefId");

    let lookup = |name: &str| names.functions_by_name.iter().find(|(n, _)| n == name).map(|(_, d)| *d);
    assert_eq!(lookup("short"), Some(id));
    assert_eq!(lookup("dep::canonical"), Some(id));
}

#[test]
fn artifact_alias_conflicts_are_stable_across_reverse_insertion() {
    fn conflict(reverse: bool) -> String {
        let first = def_id(0, 4);
        let second = def_id(0, 5);
        let mut resolver = ResolverTables::new();
        let (first_source, second_source) = if reverse { (first, second) } else { (second, first) };
        resolver.item_paths.push(("same".to_string(), first_source));
        resolver.item_names_by_id.push((second_source, "same".to_string()));

        artifact_hir_name_tables(&ArtifactCrateInterface::new(), &resolver, &function_kinds(vec![first, second]))
            .expect_err("same artifact alias must have a stable conflict")
    }

    let expected = "artifact function display alias 'same' resolves to both DefId { crate_id: CrateId(0), local: LocalDefId(4) } and DefId { crate_id: CrateId(0), local: LocalDefId(5) }";
    assert_eq!(conflict(false), expected);
    assert_eq!(conflict(true), expected);
}

#[test]
fn authority_reports_declared_and_bound_generics_of_an_impl() {
    let mut products = product_with_function("dep", ProductCrateId(0), 0, "dep.o");
    let impl_id = product_def_id(0, 7);
    let hir_impl_id = product_hir_def_id(impl_id);
    let mut imp = impl_interface(hir_impl_id, "Box", Type::Unit);
    imp.type_generics = generic_params(hir_impl_id, &["T"]);
    products.interface.impls.insert(impl_id, imp);

    let error = validate_product_method_authority_maps(&products, &DefinitionTables::new()).unwrap_err();
    assert_eq!(
        error,
        "Product artifact impl 0::7 typed receiver/trait argument generic bindings are incomplete or invalid: required {GenericParamId { owner: DefId { crate_id: CrateId(0), local: LocalDefId(7) }, index: 0 }}, found {}"
    );
}

#[test]
fn authority_reports_a_trait_impl_of_an_unknown_trait() {
    let mut products = product_with_function("dep", ProductCrateId(0), 0, "dep.o");
    let impl_id = product_def_id(0, 7);
    let mut imp = impl_interface(product_hir_def_id(impl_id), "Box", Type::Unit);
    imp.trait_id = Some(def_id(0, 40));
    products.interface.impls.insert(impl_id, imp);

    let error = validate_product_method_authority_maps(&products, &DefinitionTables::new()).unwrap_err();
    assert_eq!(error, "Product artifact impl 0::7 references missing trait 0::40");
}

#[test]
fn authority_reports_a_member_without_effective_method_with_the_impl_keys() {
    let mut products = product_with_function("dep", ProductCrateId(0), 0, "dep.o");
    let trait_id = product_def_id(0, 4);
    let member = product_def_id(0, 5);
    let mut trait_def = trait_interface(product_hir_def_id(trait_id), "dep::Show");
    trait_def.methods = vec![("show".to_string(), function_interface(product_hir_def_id(member), "show"))];
    products.interface.traits.insert(trait_id, trait_def);
    let impl_id = product_def_id(0, 7);
    let mut imp = impl_interface(product_hir_def_id(impl_id), "Box", Type::Unit);
    imp.trait_id = Some(product_hir_def_id(trait_id));
    products.interface.impls.insert(impl_id, imp);

    let error = validate_product_method_authority_maps(&products, &DefinitionTables::new()).unwrap_err();
    assert_eq!(error, "Product artifact trait impl 0::7 has no effective method for member 0::5, available=[]");
}

#[test]
fn authority_reports_keys_that_no_trait_impl_expects() {
    let mut products = product_with_function("dep", ProductCrateId(0), 0, "dep.o");
    products.interface.effective_trait_methods.push(((product_def_id(0, 7), product_def_id(0, 5)), product_def_id(0, 8)));

    let error = validate_product_method_authority_maps(&products, &DefinitionTables::new()).unwrap_err();
    assert_eq!(
        error,
        "Product artifact effective trait method relation is incomplete or inconsistent; missing=[], extra=[(ProductDefId { crate_id: ProductCrateId(0), local_id: ProductLocalDefId(7) }, ProductDefId { crate_id: ProductCrateId(0), local_id: ProductLocalDefId(5) })]"
    );
}

#[test]
fn struct_literal_owner_mismatch_names_both_owners_and_the_field() {
    let products = two_struct_products();
    let err = expect_expr_error(
        &products,
        expr(
            ExprKind::StructLiteral(
                "First".to_string(),
                Some(def_id(0, 5)),
                vec![StructLiteralField {
                    name: "value".to_string(),
                    value: one(),
                    field: Some(FieldLocation { owner: def_id(0, 6), field_id: FieldId(0), name: "value".to_string() }),
                }],
            ),
            Type::I64,
        ),
    );
    assert_eq!(err, "Product artifact struct literal field owner mismatch: literal owner 5 but field 'value' owner 6");
}

#[test]
fn struct_pattern_owner_mismatch_names_both_owners_and_the_field() {
    let products = two_struct_products();
    let err = expect_pattern_error(
        &products,
        Pattern::Struct(
            "First".to_string(),
            Some(def_id(0, 5)),
            Vec::new(),
            vec![StructPatternField {
                name: "value".to_string(),
                field: Some(FieldLocation { owner: def_id(0, 6), field_id: FieldId(0), name: "value".to_string() }),
                pattern: Pattern::Wildcard,
            }],
        ),
    );
    assert_eq!(err, "Product artifact struct pattern field owner mismatch: pattern owner 5 but field 'value' owner 6");
}

#[test]
fn type_field_check_reports_the_first_failing_struct_field() {
    let mut products = product_with_function("dep", ProductCrateId(0), 0, "dep.o");
    let ghost_field = vec![FieldInterface {
        id: FieldId(0),
        name: "ghost".to_string(),
        ty: Type::Struct { id: def_id(0, 999), args: Vec::new() },
        public: true,
    }];
    products.interface.structs.insert(product_def_id(0, 5), struct_interface(def_id(0, 5), "dep::Holder", ghost_field));
    let remap = remap_of(0, &[(0, 7)]);
    let error = validate_product_type_fields(&products, &remap, &CrateContext::new()).unwrap_err();
    assert_eq!(error, "Product artifact references unknown nominal type definition 999 as struct");
}
