use lib::collections::IdMap;
use lib::hir::{AssociatedTypeImpl, ImplOwner};
use lib::ids::{AssocTypeId, CrateId, DefId, LocalDefId, ProductCrateId, ProductDefId, ProductLocalDefId, VariantId};
use lib::langitems::{language_items_from_products, validate_product_index_mut_impls, validate_product_language_items};
use lib::remap::{CrateContext, ProductIdentityRemap};
use lib::products::{
    AssociatedTypeDecl, CompilerProducts, EnumInterface, EnumVariantInterface, FunctionInterface, FunctionSig,
    ImplInterface, LanguageItems, OutputItems, ProductBodies, ProductCrateIdentity, ProductIdentityTable,
    ProductInterface, ProductLinkData, ProductLinkRecord, StructInterface, TraitInterface, TraitItem,
    TraitMethodItems, TryItems, VariantFields,
};
use lib::types::{
    AssociatedTypeKey, GenericBounds, GenericParamDecl, GenericParamId, ImplReceiverPattern, ReceiverMode, TraitBound,
    Type,
};

fn product_id(local_id: u32) -> ProductDefId {
    ProductDefId { crate_id: ProductCrateId(0), local_id: ProductLocalDefId(local_id) }
}

fn product_def_id(id: ProductDefId) -> DefId {
    DefId { crate_id: CrateId(id.crate_id.0), local: LocalDefId(id.local_id.0) }
}

fn no_bounds() -> GenericBounds {
    GenericBounds { entries: Vec::new(), predicates: Vec::new() }
}

fn type_params(owner: DefId, names: &[&str]) -> Vec<GenericParamDecl> {
    names
        .iter()
        .enumerate()
        .map(|(index, name)| GenericParamDecl { id: GenericParamId { owner, index: index as u32 }, name: name.to_string() })
        .collect()
}

fn signature(id: ProductDefId, receiver: Option<ReceiverMode>, params: Vec<Type>, ret: Type) -> (String, FunctionSig) {
    let name = format!("m{}", id.local_id.0);
    (
        name.clone(),
        FunctionSig {
            id: product_def_id(id),
            name,
            generic_params: Vec::new(),
            params,
            ret,
            generic_bounds: no_bounds(),
            self_receiver: receiver,
            is_unsafe: false,
        },
    )
}

fn self_ty(id: ProductDefId, index: u32) -> Type {
    Type::Generic(GenericParamId { owner: product_def_id(id), index })
}

fn trait_def(id: ProductDefId, generic_params: &[&str], associated_types: Vec<AssocTypeId>, signatures: Vec<(String, FunctionSig)>) -> TraitInterface {
    TraitInterface {
        id: product_def_id(id),
        name: format!("T{}", id.local_id.0),
        generic_params: type_params(product_def_id(id), generic_params),
        target: None,
        predicates: Vec::new(),
        associated_types: associated_types
            .into_iter()
            .map(|id| AssociatedTypeDecl { id, name: format!("A{}", id.0) })
            .collect(),
        methods: Vec::new(),
        signatures,
    }
}

fn index_output(trait_id: ProductDefId, mutable: bool) -> Type {
    let key = Type::Generic(GenericParamId { owner: product_def_id(trait_id), index: 0 });
    Type::Reference {
        mutable,
        inner: Box::new(Type::Projection {
            ty: Box::new(self_ty(trait_id, 1)),
            trait_id: product_def_id(trait_id),
            assoc_type: AssociatedTypeKey { owner: product_def_id(trait_id), assoc_type_id: AssocTypeId(0) },
            trait_args: vec![key],
        }),
    }
}

fn try_projection(try_trait: ProductDefId, assoc: u32) -> Type {
    Type::Projection {
        ty: Box::new(self_ty(try_trait, 0)),
        trait_id: product_def_id(try_trait),
        assoc_type: AssociatedTypeKey { owner: product_def_id(try_trait), assoc_type_id: AssocTypeId(assoc) },
        trait_args: Vec::new(),
    }
}

fn valid_products() -> CompilerProducts {
    let sized = product_id(1);
    let drop_trait = product_id(2);
    let drop_method = product_id(3);
    let index_trait = product_id(4);
    let index_method = product_id(5);
    let try_trait = product_id(6);
    let branch_method = product_id(7);
    let residual_trait = product_id(8);
    let residual_method = product_id(9);
    let control_flow = product_id(10);
    let index_mut_trait = product_id(11);
    let index_mut_method = product_id(12);

    let mut interface = ProductInterface::new();
    interface.traits.insert(sized, trait_def(sized, &[], Vec::new(), Vec::new()));
    interface.traits.insert(
        drop_trait,
        trait_def(drop_trait, &[], Vec::new(), vec![signature(drop_method, Some(ReceiverMode::Move), vec![self_ty(drop_trait, 0)], Type::Unit)]),
    );
    interface.traits.insert(
        index_trait,
        trait_def(
            index_trait,
            &["Key"],
            vec![AssocTypeId(0)],
            vec![signature(
                index_method,
                Some(ReceiverMode::Shared),
                vec![
                    Type::Reference { mutable: false, inner: Box::new(self_ty(index_trait, 1)) },
                    Type::Generic(GenericParamId { owner: product_def_id(index_trait), index: 0 }),
                ],
                index_output(index_trait, false),
            )],
        ),
    );
    interface.traits.insert(
        index_mut_trait,
        trait_def(
            index_mut_trait,
            &["Key"],
            vec![AssocTypeId(0)],
            vec![signature(
                index_mut_method,
                Some(ReceiverMode::Mut),
                vec![
                    Type::Reference { mutable: true, inner: Box::new(self_ty(index_mut_trait, 1)) },
                    Type::Generic(GenericParamId { owner: product_def_id(index_mut_trait), index: 0 }),
                ],
                index_output(index_mut_trait, true),
            )],
        ),
    );
    interface.traits.insert(
        try_trait,
        trait_def(
            try_trait,
            &[],
            vec![AssocTypeId(0), AssocTypeId(1)],
            vec![signature(
                branch_method,
                Some(ReceiverMode::Move),
                vec![self_ty(try_trait, 0)],
                Type::Enum {
                    id: product_def_id(control_flow),
                    args: vec![try_projection(try_trait, 1), try_projection(try_trait, 0)],
                },
            )],
        ),
    );
    interface.traits.insert(
        residual_trait,
        trait_def(
            residual_trait,
            &["R"],
            Vec::new(),
            vec![signature(residual_method, None, vec![self_ty(residual_trait, 0)], self_ty(residual_trait, 1))],
        ),
    );
    interface.enums.insert(
        control_flow,
        EnumInterface {
            id: product_def_id(control_flow),
            name: "ControlFlow".to_string(),
            generic_params: type_params(product_def_id(control_flow), &["B", "C"]),
            variants: vec![
                EnumVariantInterface { id: VariantId(0), name: "Break".to_string(), fields: VariantFields::Positional(vec![self_ty(control_flow, 0)]) },
                EnumVariantInterface { id: VariantId(1), name: "Continue".to_string(), fields: VariantFields::Positional(vec![self_ty(control_flow, 1)]) },
            ],
        },
    );
    interface.language_items = LanguageItems {
        sized: Some(TraitItem { trait_id: sized }),
        drop: Some(TraitMethodItems { trait_id: drop_trait, method_id: drop_method }),
        index: Some(OutputItems { trait_id: index_trait, output_id: AssocTypeId(0), method_id: index_method }),
        index_mut: Some(OutputItems { trait_id: index_mut_trait, output_id: AssocTypeId(0), method_id: index_mut_method }),
        fn_once: None,
        fn_mut: None,
        fn_trait: None,
        send: None,
        sync: None,
        try_protocol: Some(TryItems {
            try_trait_id: try_trait,
            output_id: AssocTypeId(0),
            residual_id: AssocTypeId(1),
            branch_method_id: branch_method,
            from_residual_trait_id: residual_trait,
            from_residual_method_id: residual_method,
            control_flow_enum_id: control_flow,
            break_variant_id: VariantId(0),
            continue_variant_id: VariantId(1),
        }),
    };

    CompilerProducts {
        crate_identity: ProductCrateIdentity::local("protocol".to_string()),
        identity_table: ProductIdentityTable {
            local_crate: Some(ProductCrateId(0)),
            dependencies: Vec::new(),
            display_names: IdMap::new(),
            export_names: Vec::new(),
            prelude_export_names: Vec::new(),
            import_alias_names: Vec::new(),
            module_alias_names: Vec::new(),
        },
        interface,
        bodies: ProductBodies { functions: IdMap::new(), generic_impls: IdMap::new(), trait_default_methods: IdMap::new() },
        link: ProductLinkData { object_path: None, records: IdMap::new() },
    }
}

fn cell_type() -> Type {
    Type::Struct { id: product_def_id(product_id(20)), args: Vec::new() }
}

fn index_impl_with_outputs(id: u32, trait_id: ProductDefId, associated_types: Vec<AssociatedTypeImpl>) -> ImplInterface {
    ImplInterface {
        id: product_def_id(product_id(id)),
        owner: ImplOwner::Named("Cell".to_string()),
        self_name: "Cell".to_string(),
        type_generics: Vec::new(),
        receiver_pattern: ImplReceiverPattern::Exact(cell_type()),
        trait_name: Some("RenamedIndex".to_string()),
        trait_id: Some(product_def_id(trait_id)),
        trait_generics: Vec::new(),
        trait_arg_types: vec![Type::I64],
        associated_types,
        bounds: no_bounds(),
        methods: Vec::new(),
    }
}

fn index_impl_with_bounds(id: u32, trait_id: ProductDefId, bounds: Vec<TraitBound>) -> ImplInterface {
    let impl_def_id = product_def_id(product_id(id));
    let generic = GenericParamId { owner: impl_def_id, index: 0 };
    ImplInterface {
        id: impl_def_id,
        owner: ImplOwner::Named("Cell".to_string()),
        self_name: "Cell".to_string(),
        type_generics: vec![GenericParamDecl { id: generic, name: "T".to_string() }],
        receiver_pattern: ImplReceiverPattern::Exact(Type::Struct {
            id: product_def_id(product_id(20)),
            args: vec![Type::Generic(generic)],
        }),
        trait_name: Some("RenamedIndex".to_string()),
        trait_id: Some(product_def_id(trait_id)),
        trait_generics: Vec::new(),
        trait_arg_types: vec![Type::I64],
        associated_types: vec![AssociatedTypeImpl { id: AssocTypeId(0), name: "Value".to_string(), ty: Type::Generic(generic) }],
        bounds: GenericBounds { entries: vec![(generic, bounds)], predicates: Vec::new() },
        methods: Vec::new(),
    }
}

fn add_index_impl(products: &mut CompilerProducts, id: u32, trait_id: ProductDefId, associated_types: Vec<AssociatedTypeImpl>, receiver: Type) {
    let is_mut = trait_id == product_id(11);
    let trait_method_id = if is_mut { product_id(12) } else { product_id(5) };
    let impl_method_id = product_id(id + 100);
    let impl_id = product_id(id);
    let name = if is_mut { "write_at" } else { "read_at" };
    let mut imp = index_impl_with_outputs(id, trait_id, associated_types);
    imp.receiver_pattern = ImplReceiverPattern::Exact(receiver);
    imp.methods.push((
        name.to_string(),
        FunctionInterface {
            id: product_def_id(impl_method_id),
            name: name.to_string(),
            generic_params: Vec::new(),
            generic_bounds: no_bounds(),
            params: vec![Type::Reference { mutable: is_mut, inner: Box::new(cell_type()) }, Type::I64],
            ret_type: Type::Reference { mutable: is_mut, inner: Box::new(Type::I64) },
            is_curried: false,
            is_method: true,
            self_receiver: Some(if is_mut { ReceiverMode::Mut } else { ReceiverMode::Shared }),
            is_unsafe: false,
        },
    ));
    products.interface.impls.insert(impl_id, imp);
    products.interface.effective_trait_methods.push(((impl_id, trait_method_id), impl_method_id));
    products
        .link
        .records
        .insert(impl_method_id, ProductLinkRecord { backend_symbol: format!("__rock_fn_index_fixture_{id}") });
}

fn value_output(ty: Type) -> Vec<AssociatedTypeImpl> {
    vec![AssociatedTypeImpl { id: AssocTypeId(0), name: "Value".to_string(), ty }]
}

fn products_with_reference_index_pair(index_receiver_is_mutable: bool, index_mut_receiver_is_mutable: bool) -> CompilerProducts {
    let mut products = valid_products();
    let index_trait_id = products.interface.language_items.index.as_ref().expect("Index language item").trait_id;
    let index_mut_trait_id = products.interface.language_items.index_mut.as_ref().expect("IndexMut language item").trait_id;
    let cell_id = product_id(20);
    products.interface.structs.insert(
        cell_id,
        StructInterface { id: product_def_id(cell_id), name: "Cell".to_string(), generic_params: Vec::new(), fields: Vec::new() },
    );
    add_index_impl(
        &mut products,
        30,
        index_trait_id,
        value_output(Type::I64),
        Type::Reference { mutable: index_receiver_is_mutable, inner: Box::new(cell_type()) },
    );
    add_index_impl(
        &mut products,
        31,
        index_mut_trait_id,
        value_output(Type::I64),
        Type::Reference { mutable: index_mut_receiver_is_mutable, inner: Box::new(cell_type()) },
    );
    products
}

#[test]
fn product_language_item_validation_accepts_all_complete_protocols() {
    validate_product_language_items(&valid_products()).expect("complete registry is valid");
}

#[test]
fn product_artifact_accepts_shared_mutable_reference_index_pair() {
    let products = products_with_reference_index_pair(false, true);
    validate_product_language_items(&products).expect("shared/mutable pair is valid");
}

fn assert_loader_error(products: &CompilerProducts, expected: &str) {
    assert_eq!(validate_product_language_items(products).unwrap_err(), expected);
    let mut ctx = CrateContext::new();
    assert_eq!(ctx.load_product_artifact_from_path(products, &Ok("protocol.o".to_string())).unwrap_err(), expected);
    assert!(ctx.extern_crate("protocol").is_none());
}

#[test]
fn product_artifact_rejects_reverse_reference_index_pair() {
    let products = products_with_reference_index_pair(true, false);
    assert_loader_error(
        &products,
        "Product artifact IndexMut implementation for Cell with key I64 requires a matching Index implementation",
    );
}

#[test]
fn product_artifact_rejects_same_shared_reference_index_pair() {
    let products = products_with_reference_index_pair(false, false);
    assert_loader_error(
        &products,
        "Product artifact IndexMut implementation for Cell with key I64 requires a matching Index implementation",
    );
}

#[test]
fn product_index_pair_accepts_reordered_bounds() {
    let mut products = valid_products();
    let index = products.interface.language_items.index.unwrap();
    let index_mut = products.interface.language_items.index_mut.unwrap();
    let first = || TraitBound { trait_id: product_def_id(product_id(1)), type_args: Vec::new() };
    let second = || TraitBound { trait_id: product_def_id(product_id(2)), type_args: Vec::new() };
    products.interface.impls.insert(product_id(34), index_impl_with_bounds(34, index.trait_id, vec![first(), second()]));
    products.interface.impls.insert(product_id(35), index_impl_with_bounds(35, index_mut.trait_id, vec![second(), first()]));

    validate_product_index_mut_impls(&products, &products.interface.language_items).expect("reordered conjunctive bounds should pair");
}

#[test]
fn product_language_item_validation_rejects_nonlocal_ids_in_every_multi_id_bundle() {
    let foreign = |local: u32| ProductDefId { crate_id: ProductCrateId(1), local_id: ProductLocalDefId(local) };

    let mut products = valid_products();
    products.interface.language_items.drop.as_mut().unwrap().method_id = foreign(3);
    assert_eq!(
        validate_product_language_items(&products).unwrap_err(),
        "Product artifact language item drop.method uses non-local ProductDefId { crate_id: ProductCrateId(1), local_id: ProductLocalDefId(3) }; expected product crate 0"
    );

    let mut products = valid_products();
    products.interface.language_items.index.as_mut().unwrap().method_id = foreign(5);
    assert_eq!(
        validate_product_language_items(&products).unwrap_err(),
        "Product artifact language item index.method uses non-local ProductDefId { crate_id: ProductCrateId(1), local_id: ProductLocalDefId(5) }; expected product crate 0"
    );

    let mut products = valid_products();
    products.interface.language_items.index_mut.as_mut().unwrap().method_id = foreign(12);
    assert_eq!(
        validate_product_language_items(&products).unwrap_err(),
        "Product artifact language item index_mut.method uses non-local ProductDefId { crate_id: ProductCrateId(1), local_id: ProductLocalDefId(12) }; expected product crate 0"
    );

    let mut products = valid_products();
    products.interface.language_items.try_protocol.as_mut().unwrap().branch_method_id = foreign(7);
    assert_eq!(
        validate_product_language_items(&products).unwrap_err(),
        "Product artifact language item try.branch uses non-local ProductDefId { crate_id: ProductCrateId(1), local_id: ProductLocalDefId(7) }; expected product crate 0"
    );
}

#[test]
fn registry_is_renumbered_into_session_crates() {
    let products = valid_products();
    let remap = ProductIdentityRemap::new(ProductCrateId(0), vec![(ProductCrateId(0), CrateId(4))]);
    let items = language_items_from_products(&products, &remap).expect("every registry id is mapped");
    let sized = items.sized.expect("sized trait is registered");
    assert_eq!(sized.trait_id, DefId { crate_id: CrateId(4), local: LocalDefId(1) });
    let drop = items.drop.expect("drop trait is registered");
    assert_eq!(drop.method_id, DefId { crate_id: CrateId(4), local: LocalDefId(3) });
}

#[test]
fn registry_with_an_unmapped_crate_is_refused() {
    let products = valid_products();
    let remap = ProductIdentityRemap::new(ProductCrateId(0), Vec::new());
    let err = language_items_from_products(&products, &remap).unwrap_err();
    assert_eq!(err, "Product artifact references unmapped product DefId 0::1");
}

#[test]
fn first_registry_entry_of_another_crate_is_reported_with_its_role() {
    let mut products = valid_products();
    let foreign = ProductDefId { crate_id: ProductCrateId(3), local_id: ProductLocalDefId(1) };
    products.interface.language_items.sized = Some(TraitItem { trait_id: foreign });
    let err = validate_product_language_items(&products).unwrap_err();
    assert_eq!(
        err,
        "Product artifact language item sized.trait uses non-local ProductDefId { crate_id: ProductCrateId(3), local_id: ProductLocalDefId(1) }; expected product crate 0"
    );
}

fn index_trait_with(generic_params: &[&str], receiver: Option<ReceiverMode>, key_param: Type, ret: Type) -> TraitInterface {
    let index_trait = product_id(4);
    trait_def(
        index_trait,
        generic_params,
        vec![AssocTypeId(0)],
        vec![signature(
            product_id(5),
            receiver,
            vec![Type::Reference { mutable: false, inner: Box::new(self_ty(index_trait, 1)) }, key_param],
            ret,
        )],
    )
}

fn index_key() -> Type {
    Type::Generic(GenericParamId { owner: product_def_id(product_id(4)), index: 0 })
}

fn control_flow_with(generic_params: &[&str], variants: Vec<EnumVariantInterface>) -> EnumInterface {
    let control_flow = product_id(10);
    EnumInterface {
        id: product_def_id(control_flow),
        name: "ControlFlow".to_string(),
        generic_params: type_params(product_def_id(control_flow), generic_params),
        variants,
    }
}

fn break_variant(fields: VariantFields) -> EnumVariantInterface {
    EnumVariantInterface { id: VariantId(0), name: "Break".to_string(), fields }
}

fn continue_variant() -> EnumVariantInterface {
    EnumVariantInterface {
        id: VariantId(1),
        name: "Continue".to_string(),
        fields: VariantFields::Positional(vec![self_ty(product_id(10), 1)]),
    }
}

#[test]
fn product_language_item_validation_rejects_missing_and_wrong_kind_roots() {
    let mut products = valid_products();
    products.interface.language_items.sized.as_mut().unwrap().trait_id = product_id(99);
    assert_eq!(
        validate_product_language_items(&products).unwrap_err(),
        "Product artifact language item sized.trait ProductDefId { crate_id: ProductCrateId(0), local_id: ProductLocalDefId(99) }: sized.trait must identify a trait; DefId { crate_id: CrateId(0), local: LocalDefId(99) } is no declaration"
    );

    let mut products = valid_products();
    let function_id = product_id(99);
    products.interface.functions.insert(
        function_id,
        FunctionInterface {
            id: product_def_id(function_id),
            name: "wrong".to_string(),
            generic_params: Vec::new(),
            generic_bounds: no_bounds(),
            params: Vec::new(),
            ret_type: Type::Unit,
            is_curried: false,
            is_method: false,
            self_receiver: None,
            is_unsafe: false,
        },
    );
    products.interface.language_items.sized.as_mut().unwrap().trait_id = function_id;
    assert_eq!(
        validate_product_language_items(&products).unwrap_err(),
        "Product artifact language item sized.trait ProductDefId { crate_id: ProductCrateId(0), local_id: ProductLocalDefId(99) }: sized.trait must identify a trait; DefId { crate_id: CrateId(0), local: LocalDefId(99) } is a function"
    );

    let mut products = valid_products();
    products.interface.language_items.sized.as_mut().unwrap().trait_id = product_id(10);
    assert_eq!(
        validate_product_language_items(&products).unwrap_err(),
        "Product artifact language item sized.trait ProductDefId { crate_id: ProductCrateId(0), local_id: ProductLocalDefId(10) }: sized.trait must identify a trait; DefId { crate_id: CrateId(0), local: LocalDefId(10) } is an enum"
    );

    let mut products = valid_products();
    products.interface.language_items.try_protocol.as_mut().unwrap().control_flow_enum_id = product_id(6);
    assert_eq!(
        validate_product_language_items(&products).unwrap_err(),
        "Product artifact language item try.trait ProductDefId { crate_id: ProductCrateId(0), local_id: ProductLocalDefId(6) }: try.branch must return the marked control_flow enum; control_flow.enum must identify an enum; DefId { crate_id: CrateId(0), local: LocalDefId(6) } is a trait"
    );
}

#[test]
fn product_language_item_validation_rejects_wrong_member_assoc_and_variant_owners() {
    let mut products = valid_products();
    let other_trait = product_id(13);
    let other_method = product_id(14);
    products.interface.traits.insert(
        other_trait,
        trait_def(other_trait, &[], Vec::new(), vec![signature(other_method, None, Vec::new(), Type::Unit)]),
    );
    products.interface.language_items.drop.as_mut().unwrap().method_id = other_method;
    assert_eq!(
        validate_product_language_items(&products).unwrap_err(),
        "Product artifact language item drop.trait ProductDefId { crate_id: ProductCrateId(0), local_id: ProductLocalDefId(2) }: drop.method DefId { crate_id: CrateId(0), local: LocalDefId(14) } is owned by trait DefId { crate_id: CrateId(0), local: LocalDefId(13) }, not DefId { crate_id: CrateId(0), local: LocalDefId(2) }"
    );

    let mut products = valid_products();
    products.interface.language_items.index.as_mut().unwrap().output_id = AssocTypeId(9);
    assert_eq!(
        validate_product_language_items(&products).unwrap_err(),
        "Product artifact language item index.trait ProductDefId { crate_id: ProductCrateId(0), local_id: ProductLocalDefId(4) }: index.output AssocTypeId(9) is not declared by trait DefId { crate_id: CrateId(0), local: LocalDefId(4) }"
    );

    let mut products = valid_products();
    products.interface.language_items.try_protocol.as_mut().unwrap().break_variant_id = VariantId(9);
    assert_eq!(
        validate_product_language_items(&products).unwrap_err(),
        "Product artifact language item try.trait ProductDefId { crate_id: ProductCrateId(0), local_id: ProductLocalDefId(6) }: control_flow.break VariantId(9) is not declared by enum DefId { crate_id: CrateId(0), local: LocalDefId(10) }"
    );
}

#[test]
fn product_language_item_validation_reuses_shared_shape_rules() {
    let mut products = valid_products();
    let drop_trait = product_id(2);
    products.interface.traits.insert(
        drop_trait,
        trait_def(drop_trait, &[], Vec::new(), vec![signature(product_id(3), Some(ReceiverMode::Move), vec![self_ty(drop_trait, 0)], Type::I64)]),
    );
    assert_eq!(
        validate_product_language_items(&products).unwrap_err(),
        "Product artifact language item drop.trait ProductDefId { crate_id: ProductCrateId(0), local_id: ProductLocalDefId(2) }: drop.method must return Unit"
    );

    let mut products = valid_products();
    products.interface.traits.insert(product_id(4), index_trait_with(&["Key"], Some(ReceiverMode::Shared), index_key(), Type::Unit));
    assert_eq!(
        validate_product_language_items(&products).unwrap_err(),
        "Product artifact language item index.trait ProductDefId { crate_id: ProductCrateId(0), local_id: ProductLocalDefId(4) }: index.method must return a shared reference to index.output on Self"
    );

    let mut products = valid_products();
    let try_trait = product_id(6);
    products.interface.traits.insert(
        try_trait,
        trait_def(
            try_trait,
            &[],
            vec![AssocTypeId(0), AssocTypeId(1)],
            vec![signature(product_id(7), Some(ReceiverMode::Move), vec![self_ty(try_trait, 0)], Type::Unit)],
        ),
    );
    assert_eq!(
        validate_product_language_items(&products).unwrap_err(),
        "Product artifact language item try.trait ProductDefId { crate_id: ProductCrateId(0), local_id: ProductLocalDefId(6) }: try.branch must return control_flow<Residual, Output>"
    );

    let mut products = valid_products();
    let residual_trait = product_id(8);
    products.interface.traits.insert(
        residual_trait,
        trait_def(residual_trait, &["R"], Vec::new(), vec![signature(product_id(9), None, vec![self_ty(residual_trait, 0)], Type::Unit)]),
    );
    assert_eq!(
        validate_product_language_items(&products).unwrap_err(),
        "Product artifact language item try.trait ProductDefId { crate_id: ProductCrateId(0), local_id: ProductLocalDefId(6) }: from_residual.method must return Self"
    );

    let mut products = valid_products();
    products.interface.enums.insert(product_id(10), control_flow_with(&["B", "C"], vec![break_variant(VariantFields::Unit), continue_variant()]));
    assert_eq!(
        validate_product_language_items(&products).unwrap_err(),
        "Product artifact language item try.trait ProductDefId { crate_id: ProductCrateId(0), local_id: ProductLocalDefId(6) }: control_flow.break must not be unit"
    );
}

#[test]
fn product_language_item_validation_rejects_index_and_control_flow_shape_matrix() {
    let mut products = valid_products();
    products.interface.traits.insert(
        product_id(4),
        index_trait_with(&["Key", "Extra"], Some(ReceiverMode::Shared), index_key(), index_output(product_id(4), false)),
    );
    assert_eq!(
        validate_product_language_items(&products).unwrap_err(),
        "Product artifact language item index.trait ProductDefId { crate_id: ProductCrateId(0), local_id: ProductLocalDefId(4) }: index.trait must declare exactly 1 generic parameters; found 2"
    );

    let mut products = valid_products();
    products.interface.traits.insert(
        product_id(4),
        index_trait_with(&["Key"], Some(ReceiverMode::Move), Type::Unit, index_output(product_id(4), false)),
    );
    assert_eq!(
        validate_product_language_items(&products).unwrap_err(),
        "Product artifact language item index.trait ProductDefId { crate_id: ProductCrateId(0), local_id: ProductLocalDefId(4) }: index.method must use a shared receiver; index.method explicit parameter 0 has the wrong type"
    );

    let mut products = valid_products();
    let mut ret = index_output(product_id(4), false);
    if let Type::Reference { inner, .. } = &mut ret {
        if let Type::Projection { trait_id, .. } = inner.as_mut() {
            *trait_id = product_def_id(product_id(2));
        }
    }
    products.interface.traits.insert(product_id(4), index_trait_with(&["Key"], Some(ReceiverMode::Shared), index_key(), ret));
    assert_eq!(
        validate_product_language_items(&products).unwrap_err(),
        "Product artifact language item index.trait ProductDefId { crate_id: ProductCrateId(0), local_id: ProductLocalDefId(4) }: index.method return projection must use index.trait"
    );

    let mut products = valid_products();
    products.interface.enums.insert(
        product_id(10),
        control_flow_with(&["B", "C", "Extra"], vec![break_variant(VariantFields::Positional(vec![self_ty(product_id(10), 0)])), continue_variant()]),
    );
    assert_eq!(
        validate_product_language_items(&products).unwrap_err(),
        "Product artifact language item try.trait ProductDefId { crate_id: ProductCrateId(0), local_id: ProductLocalDefId(6) }: control_flow.enum must declare exactly 2 generic parameters; found 3"
    );

    let mut products = valid_products();
    products.interface.enums.insert(
        product_id(10),
        control_flow_with(
            &["B", "C"],
            vec![
                break_variant(VariantFields::Positional(vec![self_ty(product_id(10), 0)])),
                continue_variant(),
                EnumVariantInterface { id: VariantId(2), name: "Extra".to_string(), fields: VariantFields::Unit },
            ],
        ),
    );
    assert_eq!(
        validate_product_language_items(&products).unwrap_err(),
        "Product artifact language item try.trait ProductDefId { crate_id: ProductCrateId(0), local_id: ProductLocalDefId(6) }: control_flow.enum must declare exactly 2 variants; found 3"
    );
}

#[test]
fn drop_trait_that_names_nothing_is_reported_without_member_checks() {
    let mut products = valid_products();
    let drop = products.interface.language_items.drop.as_mut().unwrap();
    drop.trait_id = product_id(99);
    drop.method_id = product_id(100);
    assert_eq!(
        validate_product_language_items(&products).unwrap_err(),
        "Product artifact language item drop.trait ProductDefId { crate_id: ProductCrateId(0), local_id: ProductLocalDefId(99) }: drop.trait must identify a trait; DefId { crate_id: CrateId(0), local: LocalDefId(99) } is no declaration"
    );
}

#[test]
fn drop_method_that_no_trait_declares_is_reported() {
    let mut products = valid_products();
    products.interface.language_items.drop.as_mut().unwrap().method_id = product_id(8);
    assert_eq!(
        validate_product_language_items(&products).unwrap_err(),
        "Product artifact language item drop.trait ProductDefId { crate_id: ProductCrateId(0), local_id: ProductLocalDefId(2) }: drop.method DefId { crate_id: CrateId(0), local: LocalDefId(8) } is not declared by any trait"
    );
}

#[test]
fn index_mut_method_with_a_shared_receiver_is_refused() {
    let mut products = valid_products();
    let index_mut_trait = product_id(11);
    products.interface.traits.insert(
        index_mut_trait,
        trait_def(
            index_mut_trait,
            &["Key"],
            vec![AssocTypeId(0)],
            vec![signature(
                product_id(12),
                Some(ReceiverMode::Shared),
                vec![
                    Type::Reference { mutable: true, inner: Box::new(self_ty(index_mut_trait, 1)) },
                    Type::Generic(GenericParamId { owner: product_def_id(index_mut_trait), index: 0 }),
                ],
                index_output(index_mut_trait, false),
            )],
        ),
    );
    assert_eq!(
        validate_product_language_items(&products).unwrap_err(),
        "Product artifact language item index_mut.trait ProductDefId { crate_id: ProductCrateId(0), local_id: ProductLocalDefId(11) }: index_mut.method must use a mutable receiver; index_mut.method must return a mutable reference to index_mut.output on Self"
    );
}

#[test]
fn product_language_items_remap_every_def_id_at_nonzero_runtime_crate_id() {
    let mut first = valid_products();
    first.crate_identity = ProductCrateIdentity::local("first".to_string());
    let mut second = valid_products();
    second.crate_identity = ProductCrateIdentity::local("second".to_string());
    let mut context = CrateContext::new();
    context.load_product_artifact_from_path(&first, &Ok("first.o".to_string())).expect("first product artifact should load");
    context.load_product_artifact_from_path(&second, &Ok("second.o".to_string())).expect("second product artifact should load");
    let items = &context.extern_crate("second").expect("second product extern record").language_items;
    let runtime_crate = items.sized.as_ref().unwrap().trait_id.crate_id;
    assert_ne!(runtime_crate, CrateId(0));
    let drop = items.drop.as_ref().unwrap();
    assert_eq!(drop.trait_id.crate_id, runtime_crate);
    assert_eq!(drop.method_id.crate_id, runtime_crate);
    let index = items.index.as_ref().unwrap();
    assert_eq!(index.trait_id.crate_id, runtime_crate);
    assert_eq!(index.method_id.crate_id, runtime_crate);
    assert_eq!(index.output_id, AssocTypeId(0));
    let index_mut = items.index_mut.as_ref().unwrap();
    assert_eq!(index_mut.trait_id.crate_id, runtime_crate);
    assert_eq!(index_mut.method_id.crate_id, runtime_crate);
    assert_eq!(index_mut.output_id, AssocTypeId(0));
    let try_protocol = items.try_protocol.as_ref().unwrap();
    assert_eq!(try_protocol.try_trait_id.crate_id, runtime_crate);
    assert_eq!(try_protocol.branch_method_id.crate_id, runtime_crate);
    assert_eq!(try_protocol.from_residual_trait_id.crate_id, runtime_crate);
    assert_eq!(try_protocol.from_residual_method_id.crate_id, runtime_crate);
    assert_eq!(try_protocol.control_flow_enum_id.crate_id, runtime_crate);
    assert_eq!(try_protocol.output_id, AssocTypeId(0));
    assert_eq!(try_protocol.residual_id, AssocTypeId(1));
    assert_eq!(try_protocol.break_variant_id, VariantId(0));
    assert_eq!(try_protocol.continue_variant_id, VariantId(1));
    let first_items = &context.extern_crate("first").expect("first product extern record").language_items;
    assert_ne!(first_items.sized.as_ref().unwrap().trait_id.crate_id, runtime_crate);
}

#[test]
fn multiple_index_partners_are_listed_by_embedded_identity() {
    let mut products = products_with_reference_index_pair(false, true);
    let index_trait_id = products.interface.language_items.index.as_ref().unwrap().trait_id;
    let mut second = index_impl_with_outputs(40, index_trait_id, value_output(Type::I64));
    second.receiver_pattern = ImplReceiverPattern::Exact(Type::Reference { mutable: false, inner: Box::new(cell_type()) });
    products.interface.impls.insert(product_id(29), second);
    assert_eq!(
        validate_product_index_mut_impls(&products, &products.interface.language_items).unwrap_err(),
        "Product artifact IndexMut implementation for Cell with key I64 has multiple matching Index implementations: \
         ProductDefId { crate_id: ProductCrateId(0), local_id: ProductLocalDefId(30) }, \
         ProductDefId { crate_id: ProductCrateId(0), local_id: ProductLocalDefId(40) }"
    );
}
