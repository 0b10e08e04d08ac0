use lib::collections::IdMap;
use lib::hir::{Block, Expr, ExprKind, Function, Param, Stmt};
use lib::ids::{CrateId, DefId, LocalDefId, LocalId, ProductCrateId, ProductDefId, ProductLocalDefId};
use lib::products::{
    CompilerProducts, FunctionInterface, FunctionSig, ProductCrateIdentity, ProductLinkRecord, TraitInterface,
    TraitMethodItems,
};
use lib::remap::CrateContext;
use lib::types::{GenericBounds, GenericParamDecl, GenericParamId, Type};

fn product_def_id(crate_id: u32, local_id: u32) -> ProductDefId {
    ProductDefId { crate_id: ProductCrateId(crate_id), local_id: ProductLocalDefId(local_id) }
}

fn def_id(crate_id: u32, local: u32) -> DefId {
    DefId { crate_id: CrateId(crate_id), local: LocalDefId(local) }
}

fn test_function(id: DefId, name: &str) -> Function {
    Function {
        id,
        name: name.to_string(),
        generic_params: Vec::new(),
        generic_bounds: GenericBounds { entries: Vec::new(), predicates: Vec::new() },
        params: Vec::new(),
        ret_type: Type::I64,
        body: Block { stmts: vec![Stmt::Expr(Expr { kind: ExprKind::IntLiteral(5), ty: Type::I64 })], ty: Type::I64 },
        is_curried: false,
        is_method: false,
        self_receiver: None,
        is_unsafe: false,
    }
}

fn product_with_function(crate_name: &str, product_crate_id: ProductCrateId, local_id: u32, object_path: &str) -> CompilerProducts {
    let product_id = ProductDefId { crate_id: product_crate_id, local_id: ProductLocalDefId(local_id) };
    let function_id = def_id(product_crate_id.0, local_id);
    let function_name = format!("{}::answer", crate_name);
    let mut products = CompilerProducts::empty(crate_name.to_string());
    products.identity_table.local_crate = Some(product_crate_id);
    products.identity_table.display_names.insert(product_id, function_name.clone());
    products.identity_table.export_names.push(("answer".to_string(), product_id));
    let function = test_function(function_id, &function_name);
    products.interface.functions.insert(product_id, FunctionInterface::from_function(&function));
    products.bodies.functions.insert(product_id, function);
    products.link.object_path = Some(object_path.to_string());
    products.link.records.insert(product_id, ProductLinkRecord { backend_symbol: format!("{}_answer", crate_name) });
    products
}

fn load(ctx: &mut CrateContext, products: &CompilerProducts, object_path: &str) -> Result<(), String> {
    ctx.load_product_artifact_from_path(products, &Ok(object_path.to_string()))
}

#[test]
fn load_product_artifact_inserts_artifact_only_extern_record() {
    let products = product_with_function("dep", ProductCrateId(0), 0, "dep.o");
    let mut ctx = CrateContext::new();
    load(&mut ctx, &products, "/tmp/build/dep.o").unwrap();

    let dep = ctx.extern_crate("dep").expect("extern record should be inserted");
    assert_eq!(dep.crate_id, CrateId(1));
    let answer = dep
        .interface
        .canonical_names
        .iter()
        .find(|(_, name)| name == "dep::answer")
        .map(|(id, _)| *id)
        .expect("function interface should exist");
    assert_eq!(answer, def_id(1, 0));
    assert!(dep.interface.functions.iter().any(|f| f.id == answer));
    assert_eq!(dep.link.object_path.as_deref(), Some("/tmp/build/dep.o"));
    assert!(dep.link.backend_symbols.iter().any(|(id, symbol)| *id == answer && symbol == "dep_answer"));
}

#[test]
fn load_product_artifact_rejects_body_only_function_without_interface_declaration() {
    let mut products = product_with_function("dep", ProductCrateId(0), 0, "dep.o");
    products.interface.functions = IdMap::new();
    products.identity_table.export_names.clear();
    products.link.records = IdMap::new();

    let mut ctx = CrateContext::new();
    let err = load(&mut ctx, &products, "dep.o").expect_err("body-only function rows should be rejected");
    assert!(err.contains("function body") && err.contains("interface declaration"), "unexpected error: {err}");
    assert!(ctx.extern_crate("dep").is_none());
}

#[test]
fn load_product_artifact_rejects_link_record_for_undeclared_callable_id() {
    let mut products = product_with_function("dep", ProductCrateId(0), 0, "dep.o");
    products.link.records.insert(product_def_id(0, 9), ProductLinkRecord { backend_symbol: "dep_hidden".to_string() });

    let mut ctx = CrateContext::new();
    let err = load(&mut ctx, &products, "dep.o")
        .expect_err("link records for undeclared callable IDs should be rejected");
    assert!(
        err.contains("link record") && err.contains("backend symbol") && err.contains("interface callable declaration"),
        "unexpected error: {err}"
    );
}

#[test]
fn load_product_artifact_rejects_empty_link_record_backend_symbol() {
    let mut products = product_with_function("dep", ProductCrateId(0), 0, "dep.o");
    products.link.records = IdMap::new();
    products.link.records.insert(product_def_id(0, 0), ProductLinkRecord { backend_symbol: String::new() });

    let mut ctx = CrateContext::new();
    let err = load(&mut ctx, &products, "dep.o").expect_err("empty backend symbols should be rejected");
    assert!(err.contains("0::0") && err.contains("empty backend symbol"), "unexpected error: {err}");
}

#[test]
fn load_product_artifact_rejects_object_function_missing_link_record() {
    let mut products = product_with_function("dep", ProductCrateId(0), 0, "dep.o");
    products.bodies.functions = IdMap::new();
    products.link.records = IdMap::new();

    let mut ctx = CrateContext::new();
    let err = load(&mut ctx, &products, "dep.o").expect_err("object-backed concrete functions require link records");
    assert!(
        err.contains("missing link record") && err.contains("backend symbol") && err.contains("function"),
        "unexpected error: {err}"
    );
}

#[test]
fn load_product_artifact_rejects_object_concrete_function_body_without_link_record() {
    let mut products = product_with_function("dep", ProductCrateId(0), 0, "dep.o");
    products.link.records = IdMap::new();

    let mut ctx = CrateContext::new();
    let err = load(&mut ctx, &products, "dep.o")
        .expect_err("object-backed concrete function bodies still require link records");
    assert!(
        err.contains("missing link record") && err.contains("backend symbol") && err.contains("function"),
        "unexpected error: {err}"
    );
}

#[test]
fn load_product_artifact_allows_generic_function_without_link_record() {
    let product_id = product_def_id(0, 0);
    let function_id = def_id(0, 0);
    let mut function = test_function(function_id, "dep::id");
    function.generic_params.push(GenericParamDecl { id: GenericParamId { owner: function_id, index: 0 }, name: "T".to_string() });
    let mut products = CompilerProducts::empty("dep".to_string());
    products.identity_table.local_crate = Some(ProductCrateId(0));
    products.identity_table.display_names.insert(product_id, "dep::id".to_string());
    products.interface.functions.insert(product_id, FunctionInterface::from_function(&function));
    products.bodies.functions.insert(product_id, function);
    products.link.object_path = Some("dep.o".to_string());

    let mut ctx = CrateContext::new();
    load(&mut ctx, &products, "dep.o").unwrap();
    let dep = ctx.extern_crate("dep").unwrap();
    assert!(dep.bodies.generic_functions.iter().any(|f| f.id == def_id(1, 0)));
}

#[test]
fn load_product_artifact_rejects_generic_function_interface_without_body() {
    let product_id = product_def_id(0, 0);
    let function_id = def_id(0, 0);
    let mut function = test_function(function_id, "dep::id");
    function.generic_params.push(GenericParamDecl { id: GenericParamId { owner: function_id, index: 0 }, name: "T".to_string() });
    let mut products = CompilerProducts::empty("dep".to_string());
    products.identity_table.local_crate = Some(ProductCrateId(0));
    products.identity_table.display_names.insert(product_id, "dep::id".to_string());
    products.interface.functions.insert(product_id, FunctionInterface::from_function(&function));
    products.link.object_path = Some("dep.o".to_string());

    let mut ctx = CrateContext::new();
    let err = load(&mut ctx, &products, "dep.o")
        .expect_err("generic function interface declarations need serialized bodies");
    assert!(err.contains("generic function") && err.contains("serialized body"), "unexpected error: {err}");
}

#[test]
fn load_product_artifact_rejects_interface_function_embedded_id_mismatch() {
    let mut products = product_with_function("dep", ProductCrateId(0), 0, "dep.o");
    let key = product_def_id(0, 0);
    let mut row = FunctionInterface::from_function(&test_function(def_id(0, 1), "dep::answer"));
    row.name = "dep::answer".to_string();
    products.interface.functions.insert(key, row);

    let mut ctx = CrateContext::new();
    let err = load(&mut ctx, &products, "dep.o").expect_err("interface function ID mismatches should be rejected");
    assert!(err.contains("interface function") && err.contains("embedded ID"), "unexpected error: {err}");
}

#[test]
fn load_product_artifact_rejects_unmapped_product_crate_id() {
    let mut products = product_with_function("dep", ProductCrateId(0), 0, "dep.o");
    let mut row = FunctionInterface::from_function(&test_function(def_id(0, 0), "dep::answer"));
    row.generic_params.push(GenericParamDecl { id: GenericParamId { owner: def_id(9, 0), index: 0 }, name: "T".to_string() });
    products.interface.functions.insert(product_def_id(0, 0), row);

    let mut ctx = CrateContext::new();
    let err = load(&mut ctx, &products, "dep.o").unwrap_err();
    assert!(err.contains("unmapped product DefId 9::0"), "{err}");
}

#[test]
fn load_product_artifacts_remap_same_local_crate_ids_to_distinct_consumer_crates() {
    let a = product_with_function("a", ProductCrateId(0), 0, "a.o");
    let b = product_with_function("b", ProductCrateId(0), 0, "b.o");
    let mut ctx = CrateContext::new();
    load(&mut ctx, &a, "a.o").unwrap();
    load(&mut ctx, &b, "b.o").unwrap();

    let a_answer = ctx.extern_crate("a").unwrap().interface.functions[0].id;
    let b_answer = ctx.extern_crate("b").unwrap().interface.functions[0].id;
    assert_eq!(a_answer, def_id(1, 0));
    assert_eq!(b_answer, def_id(2, 0));
    assert_ne!(a_answer.crate_id, b_answer.crate_id);
}

#[test]
fn load_product_artifact_records_root_export_ids() {
    let products = product_with_function("dep", ProductCrateId(0), 0, "dep.o");
    let mut ctx = CrateContext::new();
    load(&mut ctx, &products, "dep.o").unwrap();

    let dep = ctx.extern_crate("dep").unwrap();
    let export = dep
        .interface
        .root_export_ids
        .iter()
        .find(|(name, _)| name == "answer")
        .map(|(_, export)| export)
        .expect("root export should be recorded");
    assert_eq!(export.source, "dep::answer");
    assert_eq!(export.id, def_id(1, 0));
}

#[test]
fn load_refuses_a_second_crate_with_the_same_name_and_keeps_the_session() {
    let first = product_with_function("dep", ProductCrateId(0), 0, "dep.o");
    let mut second = product_with_function("dep", ProductCrateId(0), 0, "dep_duplicate.o");
    second.crate_identity.fingerprint = 7;
    let mut ctx = CrateContext::new();
    load(&mut ctx, &first, "dep.o").unwrap();
    let before = format!("{:?}", ctx);

    let err = load(&mut ctx, &second, "dep_duplicate.o").unwrap_err();
    assert_eq!(err, "Crate context refuses duplicate external crate 'dep'");
    assert_eq!(format!("{:?}", ctx), before);
}

#[test]
fn load_refuses_artifact_without_local_crate() {
    let mut products = product_with_function("dep", ProductCrateId(0), 0, "dep.o");
    products.identity_table.local_crate = None;
    let mut ctx = CrateContext::new();
    let before = format!("{:?}", ctx);
    assert_eq!(load(&mut ctx, &products, "dep.o"), Err("Product artifact for crate 'dep' has no local product crate ID".to_string()));
    assert_eq!(format!("{:?}", ctx), before);
}

#[test]
fn load_passes_on_the_object_path_error() {
    let products = product_with_function("dep", ProductCrateId(0), 0, "dep.o");
    let mut ctx = CrateContext::new();
    let err = ctx
        .load_product_artifact_from_path(&products, &Err("Product artifact dep.rkca references missing object file dep.o".to_string()))
        .unwrap_err();
    assert_eq!(err, "Product artifact dep.rkca references missing object file dep.o");
    assert!(ctx.extern_crate("dep").is_none());
}

#[test]
fn load_ignores_the_object_path_of_an_artifact_without_object() {
    let mut products = product_with_function("dep", ProductCrateId(0), 0, "dep.o");
    products.link.object_path = None;
    let mut ctx = CrateContext::new();
    ctx.load_product_artifact_from_path(&products, &Err("unused".to_string())).unwrap();
    assert_eq!(ctx.extern_crate("dep").unwrap().link.object_path, None);
}

#[test]
fn add_extern_crate_refuses_a_taken_crate_id() {
    let products = product_with_function("dep", ProductCrateId(0), 0, "dep.o");
    let mut ctx = CrateContext::new();
    load(&mut ctx, &products, "dep.o").unwrap();
    let other = product_with_function("other", ProductCrateId(0), 0, "other.o");
    let mut staging = CrateContext::new();
    load(&mut staging, &other, "other.o").unwrap();
    let record = staging.extern_crates.pop().unwrap();
    assert_eq!(record.crate_id, CrateId(1));
    let err = ctx.add_extern_crate(record).unwrap_err();
    assert_eq!(err, "Crate context refuses duplicate external crate 'other'");
    assert_eq!(ctx.extern_crates.len(), 1);
}

#[test]
fn load_product_artifact_failure_does_not_mutate_crate_context_identity_state() {
    let mut bad = product_with_function("bad", ProductCrateId(0), 0, "bad.o");
    bad.identity_table.dependencies.push((ProductCrateId(0), ProductCrateIdentity::local("invalid_dep".to_string())));
    let mut ctx = CrateContext::new();
    let err = load(&mut ctx, &bad, "bad.o").unwrap_err();
    assert!(err.contains("maps dependency 'invalid_dep' to local product crate ID 0"), "{err}");
    assert!(ctx.product_crate_ids.is_empty());

    let good = product_with_function("good", ProductCrateId(0), 0, "good.o");
    load(&mut ctx, &good, "good.o").unwrap();
    assert_eq!(ctx.extern_crate("good").unwrap().crate_id, CrateId(1));
}

#[test]
fn load_product_artifact_remap_failure_is_transactional_for_contexts() {
    let good = product_with_function("good", ProductCrateId(0), 0, "good.o");
    let mut bad = product_with_function("bad", ProductCrateId(0), 0, "bad.o");
    let bad_id = product_def_id(0, 0);
    let mut bad_function = test_function(def_id(0, 0), "bad::answer");
    bad_function.params.push(Param {
        name: "ghost".to_string(),
        local_id: LocalId(0),
        ty: Type::Struct { id: def_id(0, 999), args: Vec::new() },
        mutable: false,
        is_ref: false,
    });
    bad.interface.functions.insert(bad_id, FunctionInterface::from_function(&bad_function));
    bad.bodies.functions.insert(bad_id, bad_function);

    let mut ctx = CrateContext::new();
    load(&mut ctx, &good, "good.o").unwrap();
    let ids_before = format!("{:?}", ctx.product_crate_ids);
    let err = load(&mut ctx, &bad, "bad.o").unwrap_err();
    assert!(err.contains("unknown nominal type definition"), "{err}");
    assert_eq!(format!("{:?}", ctx.product_crate_ids), ids_before);
    assert!(ctx.extern_crate("good").is_some());
    assert!(ctx.extern_crate("bad").is_none());
}

#[test]
fn load_product_artifact_rejects_dependency_identity_mismatch() {
    let dep = product_with_function("dep", ProductCrateId(0), 0, "dep.o");
    let mut app = product_with_function("app", ProductCrateId(0), 0, "app.o");
    let mut mismatched = ProductCrateIdentity::local("dep".to_string());
    mismatched.fingerprint = 1;
    app.identity_table.dependencies.push((ProductCrateId(1), mismatched));

    let mut ctx = CrateContext::new();
    load(&mut ctx, &dep, "dep.o").unwrap();
    let err = load(&mut ctx, &app, "app.o").unwrap_err();
    assert!(err.contains("dependency identity mismatch"), "unexpected error: {err}");
    assert!(ctx.extern_crate("app").is_none());
}

#[test]
fn load_product_artifact_remaps_id_backed_import_aliases() {
    let mut products = product_with_function("dep", ProductCrateId(0), 1, "dep.o");
    products.identity_table.import_alias_names.push(("short".to_string(), product_def_id(0, 1)));
    let mut ctx = CrateContext::new();
    load(&mut ctx, &products, "dep.o").unwrap();
    let resolver = &ctx.extern_crate("dep").unwrap().resolver;

    let by_path = resolver.item_paths.iter().find(|(path, _)| path == "dep::answer").map(|(_, id)| *id);
    let by_alias = resolver.import_aliases.iter().find(|(alias, _, _)| alias == "short").map(|(_, _, id)| *id);
    assert_eq!(by_path, Some(def_id(1, 1)));
    assert_eq!(by_alias, by_path);
}

#[test]
fn load_product_artifact_drops_aliases_without_canonical_bindings() {
    let mut products = product_with_function("dep", ProductCrateId(0), 1, "dep.o");
    products.identity_table.import_alias_names.push(("stale".to_string(), product_def_id(0, 99)));
    products.identity_table.module_alias_names.push(("stale_mod".to_string(), product_def_id(0, 100)));
    let mut ctx = CrateContext::new();
    load(&mut ctx, &products, "dep.o").unwrap();
    let resolver = &ctx.extern_crate("dep").unwrap().resolver;

    assert!(resolver.import_aliases.iter().all(|(alias, _, _)| alias != "stale"));
    assert!(resolver.module_aliases.iter().all(|(alias, _, _)| alias != "stale_mod"));
}

#[test]
fn load_as_refuses_an_artifact_of_another_crate() {
    let products = product_with_function("dep", ProductCrateId(0), 0, "dep.o");
    let mut ctx = CrateContext::new();
    let err = ctx
        .load_product_artifact_as("other", "/build/dep.rkca", &products, &Ok("dep.o".to_string()))
        .unwrap_err();
    assert_eq!(err, "Product artifact /build/dep.rkca declares crate 'dep', but --extern-artifact used name 'other'");
    assert!(ctx.extern_crates.is_empty());
    assert!(ctx.product_crate_ids.is_empty());

    ctx.load_product_artifact_as("dep", "/build/dep.rkca", &products, &Ok("dep.o".to_string())).unwrap();
    assert_eq!(ctx.extern_crate("dep").unwrap().crate_id, CrateId(1));
}

#[test]
fn dependency_identity_mismatch_names_both_identities() {
    let dep = product_with_function("dep", ProductCrateId(0), 0, "dep.o");
    let mut app = product_with_function("app", ProductCrateId(0), 0, "app.o");
    let mut expected = ProductCrateIdentity::local("dep".to_string());
    expected.fingerprint = 1;
    app.identity_table.dependencies.push((ProductCrateId(1), expected));

    let mut ctx = CrateContext::new();
    load(&mut ctx, &dep, "dep.o").unwrap();
    let err = load(&mut ctx, &app, "app.o").unwrap_err();
    assert_eq!(
        err,
        "Product artifact dependency identity mismatch for crate 'dep': artifact expects ProductCrateIdentity { name: \"dep\", fingerprint: 1 }, loaded ProductCrateIdentity { name: \"dep\", fingerprint: 0 }"
    );
}

#[test]
fn dependency_under_the_local_product_crate_is_refused_by_name() {
    let mut bad = product_with_function("bad", ProductCrateId(3), 0, "bad.o");
    bad.identity_table.dependencies.push((ProductCrateId(3), ProductCrateIdentity::local("other".to_string())));
    let mut ctx = CrateContext::new();
    let err = load(&mut ctx, &bad, "bad.o").unwrap_err();
    assert_eq!(err, "Product artifact for crate 'bad' maps dependency 'other' to local product crate ID 3");
}

#[test]
fn shared_dependency_identity_keeps_one_session_crate() {
    let shared = product_with_function("shared", ProductCrateId(0), 0, "shared.o");
    let mut first = product_with_function("first", ProductCrateId(0), 0, "first.o");
    first.identity_table.dependencies.push((ProductCrateId(1), ProductCrateIdentity::local("shared".to_string())));
    let mut second = product_with_function("second", ProductCrateId(0), 0, "second.o");
    second.identity_table.dependencies.push((ProductCrateId(4), ProductCrateIdentity::local("shared".to_string())));

    let mut ctx = CrateContext::new();
    load(&mut ctx, &shared, "shared.o").unwrap();
    load(&mut ctx, &first, "first.o").unwrap();
    load(&mut ctx, &second, "second.o").unwrap();
    assert_eq!(ctx.extern_crate("shared").unwrap().crate_id, CrateId(1));
    assert_eq!(ctx.extern_crate("first").unwrap().crate_id, CrateId(2));
    assert_eq!(ctx.extern_crate("second").unwrap().crate_id, CrateId(3));
    assert_eq!(ctx.product_crate_ids.len(), 3);
}

#[test]
fn body_row_check_reports_the_first_undeclared_body() {
    let mut products = product_with_function("dep", ProductCrateId(0), 0, "dep.o");
    products.bodies.functions.insert(product_def_id(0, 9), test_function(def_id(0, 9), "late"));
    products.bodies.functions.insert(product_def_id(0, 5), test_function(def_id(0, 5), "early"));
    let err = lib::rows::validate_product_body_rows_have_interface(&products).unwrap_err();
    assert_eq!(err, "Product artifact function body 5 has no interface declaration");
}

#[test]
fn body_row_check_reports_an_embedded_id_mismatch() {
    let mut products = product_with_function("dep", ProductCrateId(0), 0, "dep.o");
    products.bodies.functions.insert(product_def_id(0, 0), test_function(def_id(0, 3), "dep::answer"));
    let err = lib::rows::validate_product_body_rows_have_interface(&products).unwrap_err();
    assert_eq!(err, "Product artifact function body 0 has embedded ID 3 with no matching interface declaration");
}

#[test]
fn link_record_check_reports_the_first_function_without_record() {
    let mut products = product_with_function("dep", ProductCrateId(0), 0, "dep.o");
    let second = test_function(def_id(0, 4), "dep::other");
    products.interface.functions.insert(product_def_id(0, 4), FunctionInterface::from_function(&second));
    products.link.records = IdMap::new();
    let err = lib::rows::validate_object_link_records(&products).unwrap_err();
    assert_eq!(err, "Product artifact object-backed function 'dep::answer' ID 0::0 is missing link record backend symbol");

    products.link.object_path = None;
    assert_eq!(lib::rows::validate_object_link_records(&products), Ok(()));
}

fn drop_trait(id: ProductDefId, signatures: Vec<(String, FunctionSig)>) -> TraitInterface {
    TraitInterface {
        id: def_id(id.crate_id.0, id.local_id.0),
        name: "Drop".to_string(),
        generic_params: Vec::new(),
        target: None,
        predicates: Vec::new(),
        associated_types: Vec::new(),
        methods: Vec::new(),
        signatures,
    }
}

fn unit_signature(id: DefId) -> (String, FunctionSig) {
    (
        "drop".to_string(),
        FunctionSig {
            id,
            name: "drop".to_string(),
            generic_params: Vec::new(),
            params: Vec::new(),
            ret: Type::Unit,
            generic_bounds: GenericBounds { entries: Vec::new(), predicates: Vec::new() },
            self_receiver: None,
            is_unsafe: false,
        },
    )
}

#[test]
fn load_product_artifact_rejects_invalid_drop_trait_language_item_id() {
    let mut products = product_with_function("dep", ProductCrateId(0), 0, "dep.o");
    products.interface.language_items.drop =
        Some(TraitMethodItems { trait_id: product_def_id(0, 99), method_id: product_def_id(0, 100) });
    let mut ctx = CrateContext::new();
    assert_eq!(
        load(&mut ctx, &products, "dep.o").unwrap_err(),
        "Product artifact language item drop.trait ProductDefId { crate_id: ProductCrateId(0), local_id: ProductLocalDefId(99) }: drop.trait must identify a trait; DefId { crate_id: CrateId(0), local: LocalDefId(99) } is no declaration"
    );
}

#[test]
fn load_product_artifact_rejects_mismatched_drop_method_language_item_id() {
    let mut products = product_with_function("dep", ProductCrateId(0), 0, "dep.o");
    let drop_trait_id = product_def_id(0, 7);
    let other_trait_id = product_def_id(0, 9);
    products.interface.traits.insert(drop_trait_id, drop_trait(drop_trait_id, Vec::new()));
    products.interface.traits.insert(other_trait_id, drop_trait(other_trait_id, vec![unit_signature(def_id(0, 10))]));
    products.identity_table.display_names.insert(drop_trait_id, "dep::Drop".to_string());
    products.identity_table.display_names.insert(other_trait_id, "dep::Other".to_string());
    products.interface.language_items.drop = Some(TraitMethodItems { trait_id: drop_trait_id, method_id: product_def_id(0, 10) });
    let mut ctx = CrateContext::new();
    assert_eq!(
        load(&mut ctx, &products, "dep.o").unwrap_err(),
        "Product artifact language item drop.trait ProductDefId { crate_id: ProductCrateId(0), local_id: ProductLocalDefId(7) }: drop.method DefId { crate_id: CrateId(0), local: LocalDefId(10) } is owned by trait DefId { crate_id: CrateId(0), local: LocalDefId(9) }, not DefId { crate_id: CrateId(0), local: LocalDefId(7) }"
    );
}

#[test]
fn load_product_artifact_rejects_drop_method_language_item_not_declared_by_trait() {
    let mut products = product_with_function("dep", ProductCrateId(0), 0, "dep.o");
    let drop_trait_id = product_def_id(0, 7);
    products.interface.traits.insert(drop_trait_id, drop_trait(drop_trait_id, Vec::new()));
    products.identity_table.display_names.insert(drop_trait_id, "dep::Drop".to_string());
    products.interface.language_items.drop = Some(TraitMethodItems { trait_id: drop_trait_id, method_id: product_def_id(0, 8) });
    let mut ctx = CrateContext::new();
    assert_eq!(
        load(&mut ctx, &products, "dep.o").unwrap_err(),
        "Product artifact language item drop.trait ProductDefId { crate_id: ProductCrateId(0), local_id: ProductLocalDefId(7) }: drop.method DefId { crate_id: CrateId(0), local: LocalDefId(8) } is not declared by any trait"
    );
}

#[test]
fn load_reports_the_first_misplaced_interface_row_exactly() {
    let mut products = product_with_function("bad", ProductCrateId(0), 0, "bad.o");
    let function = test_function(def_id(0, 4), "bad::other");
    products.interface.functions.insert(product_def_id(0, 2), FunctionInterface::from_function(&function));
    let mut ctx = CrateContext::new();
    let err = load(&mut ctx, &products, "bad.o").unwrap_err();
    assert_eq!(err, "Product artifact interface function row 2 has embedded ID 4");
    assert!(ctx.extern_crate("bad").is_none());
}
