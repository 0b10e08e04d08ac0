use lib::bodies::{check_trait_default_bodies, qualify_product_name};
use lib::collections::IdMap;
use lib::deps::{back_def_id, back_type, product_crate_for};
use lib::hir::{Block, Expr, ExprKind, Function, Stmt};
use lib::ids::{CrateId, DefId, LocalDefId, ProductCrateId, ProductDefId, ProductLocalDefId};
use lib::names::{check_name_conflicts, str_lt};
use lib::products::{CompilerProducts, FunctionInterface, ProductCrateIdentity, TraitInterface};
use lib::typemap::remap_type_def_ids;
use lib::validator::ProductNominalTypeValidator;
use lib::remap::{CrateContext, ProductIdentityRemap};
use lib::types::{GenericBounds, GenericParamId, Type};

fn def_id(crate_id: u32, local: u32) -> DefId {
    DefId { crate_id: CrateId(crate_id), local: LocalDefId(local) }
}

fn product_def_id(crate_id: u32, local_id: u32) -> ProductDefId {
    ProductDefId { crate_id: ProductCrateId(crate_id), local_id: ProductLocalDefId(local_id) }
}

fn test_function(id: DefId, name: &str) -> Function {
    Function {
        id,
        name: name.to_string(),
        generic_params: Vec::new(),
        generic_bounds: GenericBounds { entries: Vec::new(), predicates: Vec::new() },
        params: Vec::new(),
        ret_type: Type::I64,
        body: Block { stmts: vec![Stmt::Expr(Expr { kind: ExprKind::IntLiteral(5), ty: Type::I64 })], ty: Type::I64 },
        is_curried: false,
        is_method: false,
        self_receiver: None,
        is_unsafe: false,
    }
}

fn show_trait() -> TraitInterface {
    let method = FunctionInterface::from_function(&test_function(def_id(0, 1), "show"));
    let other = FunctionInterface::from_function(&test_function(def_id(0, 2), "hide"));
    TraitInterface {
        id: def_id(0, 0),
        name: "dep::Show".to_string(),
        generic_params: Vec::new(),
        target: None,
        predicates: Vec::new(),
        associated_types: Vec::new(),
        methods: vec![("show".to_string(), method), ("hide".to_string(), other)],
        signatures: Vec::new(),
    }
}

#[test]
fn qualifying_a_name_twice_is_qualifying_it_once() {
    let once = qualify_product_name("dep", "answer");
    assert_eq!(once, "dep::answer");
    assert_eq!(qualify_product_name("dep", &once), "dep::answer");
    assert_eq!(qualify_product_name("dep", "depot::answer"), "dep::depot::answer");
    assert_eq!(qualify_product_name("dep", "dep::Show::show"), "dep::Show::show");
}

#[test]
fn name_conflict_is_reported_with_the_two_least_definitions() {
    let names = vec![
        ("b".to_string(), def_id(1, 5)),
        ("a".to_string(), def_id(1, 3)),
        ("a".to_string(), def_id(1, 1)),
        ("b".to_string(), def_id(1, 2)),
        ("a".to_string(), def_id(1, 4)),
    ];
    let err = check_name_conflicts(&names, "function").unwrap_err();
    assert_eq!(
        err,
        "artifact function display alias 'a' resolves to both DefId { crate_id: CrateId(1), local: LocalDefId(1) } and DefId { crate_id: CrateId(1), local: LocalDefId(3) }"
    );
}

#[test]
fn name_conflict_report_does_not_depend_on_entry_order() {
    let mut names = vec![
        ("b".to_string(), def_id(1, 5)),
        ("a".to_string(), def_id(1, 3)),
        ("a".to_string(), def_id(1, 1)),
        ("b".to_string(), def_id(1, 2)),
    ];
    let first = check_name_conflicts(&names, "struct").unwrap_err();
    names.reverse();
    let second = check_name_conflicts(&names, "struct").unwrap_err();
    assert_eq!(first, second);
}

#[test]
fn the_same_name_for_the_same_definition_is_no_conflict() {
    let names = vec![
        ("a".to_string(), def_id(1, 3)),
        ("a".to_string(), def_id(1, 3)),
        ("b".to_string(), def_id(1, 4)),
    ];
    assert_eq!(check_name_conflicts(&names, "enum"), Ok(()));
}

#[test]
fn text_order_is_lexicographic() {
    assert!(str_lt("a", "b"));
    assert!(str_lt("ab", "b"));
    assert!(str_lt("a", "ab"));
    assert!(!str_lt("ab", "ab"));
    assert!(!str_lt("b", "ab"));
    assert!(!str_lt("", ""));
    assert!(str_lt("", "a"));
}

#[test]
fn dependency_definitions_read_back_into_product_numbering() {
    let m = ProductIdentityRemap::new(
        ProductCrateId(0),
        vec![(ProductCrateId(0), CrateId(1)), (ProductCrateId(2), CrateId(5))],
    );
    assert_eq!(product_crate_for(&m, CrateId(5)), Some(ProductCrateId(2)));
    assert_eq!(product_crate_for(&m, CrateId(1)), None);
    assert_eq!(back_def_id(&m, def_id(5, 7)), def_id(2, 7));
    assert_eq!(back_def_id(&m, def_id(1, 3)), def_id(1, 3));
    assert_eq!(back_def_id(&m, def_id(9, 1)), def_id(9, 1));
    let mapped = m.def_id(product_def_id(2, 7)).unwrap();
    assert_eq!(back_def_id(&m, mapped), def_id(2, 7));
}

#[test]
fn unmapped_product_identity_is_refused_by_name() {
    let m = ProductIdentityRemap::new(ProductCrateId(0), vec![(ProductCrateId(0), CrateId(1))]);
    assert_eq!(m.def_id(product_def_id(0, 4)), Ok(def_id(1, 4)));
    assert_eq!(
        m.def_id(product_def_id(3, 4)),
        Err("Product artifact references unmapped product DefId 3::4".to_string())
    );
}

#[test]
fn one_identity_keeps_one_session_crate() {
    let mut ctx = CrateContext::new();
    let dep = ProductCrateIdentity::local("dep".to_string());
    let first = ctx.consumer_crate_id_for_product_identity(&dep).unwrap();
    let again = ctx.consumer_crate_id_for_product_identity(&dep).unwrap();
    assert_eq!(first, CrateId(1));
    assert_eq!(again, first);

    let mut other_build = ProductCrateIdentity::local("dep".to_string());
    other_build.fingerprint = 42;
    let other = ctx.consumer_crate_id_for_product_identity(&other_build).unwrap();
    assert_eq!(other, CrateId(2));
    let app = ctx.consumer_crate_id_for_product_identity(&ProductCrateIdentity::local("app".to_string())).unwrap();
    assert_eq!(app, CrateId(3));
    assert_eq!(ctx.product_crate_ids.len(), 3);
}

#[test]
fn trait_default_method_without_body_is_reported() {
    let t = show_trait();
    let mut bodies: IdMap<Function> = IdMap::new();
    bodies.insert(product_def_id(0, 1), test_function(def_id(0, 1), "show"));
    let err = check_trait_default_bodies(product_def_id(0, 0), &t, &bodies).unwrap_err();
    assert_eq!(err, "Product artifact trait 0 default method 'hide' has no serialized body");

    bodies.insert(product_def_id(0, 2), test_function(def_id(0, 2), "hide"));
    assert_eq!(check_trait_default_bodies(product_def_id(0, 0), &t, &bodies), Ok(()));
}

#[test]
fn reading_a_mapped_dependency_type_back_gives_the_type() {
    let m = ProductIdentityRemap::new(
        ProductCrateId(0),
        vec![(ProductCrateId(0), CrateId(1)), (ProductCrateId(2), CrateId(5))],
    );
    let products = CompilerProducts::empty("app".to_string());
    let validator = ProductNominalTypeValidator::from_products(&products, &m);
    let original = Type::Tuple(vec![
        Type::Generic(GenericParamId { owner: def_id(2, 7), index: 0 }),
        Type::Reference { mutable: true, inner: Box::new(Type::Generic(GenericParamId { owner: def_id(2, 7), index: 1 })) },
    ]);
    let mut mapped = original.clone();
    remap_type_def_ids(&mut mapped, &m, &validator).unwrap();
    assert_eq!(
        mapped,
        Type::Tuple(vec![
            Type::Generic(GenericParamId { owner: def_id(5, 7), index: 0 }),
            Type::Reference { mutable: true, inner: Box::new(Type::Generic(GenericParamId { owner: def_id(5, 7), index: 1 })) },
        ])
    );
    assert_eq!(back_type(&mapped, &m), original);
}

#[test]
fn object_file_is_looked_for_next_to_the_artifact_first() {
    use_candidates();
}

fn use_candidates() {
    assert_eq!(lib::object_path::object_candidate(true, true, true, true, true), lib::object_path::ObjectCandidate::AsRecorded);
    assert_eq!(lib::object_path::object_candidate(false, true, true, true, true), lib::object_path::ObjectCandidate::NextToArtifact);
    assert_eq!(lib::object_path::object_candidate(false, false, true, true, true), lib::object_path::ObjectCandidate::NextToArtifactDir);
    assert_eq!(lib::object_path::object_candidate(false, false, false, true, true), lib::object_path::ObjectCandidate::AsRecorded);
    assert_eq!(lib::object_path::object_candidate(false, false, true, false, false), lib::object_path::ObjectCandidate::NextToArtifact);
}
