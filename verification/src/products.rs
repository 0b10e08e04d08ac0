use vstd::prelude::*;

use crate::collections::IdMap;
use crate::hir::{AssociatedTypeImpl, Function, Impl, ImplOwner, Param};
use crate::ids::{AssocTypeId, DefId, FieldId, ProductCrateId, ProductDefId, VariantId};
use crate::types::{
    copy_type, copy_types, GenericBounds, GenericParamDecl, ImplReceiverPattern, Predicate,
    ReceiverMode, TraitBound, Type,
};

verus! {

/// The identity of a crate as recorded in product artifacts.
#[derive(Debug)]
pub struct ProductCrateIdentity {
    pub name: String,
    pub fingerprint: u64,
}

/// A marker trait with no members (`sized`, `send`, `sync`).
#[derive(Debug, Clone, Copy)]
pub struct TraitItem<Id> {
    pub trait_id: Id,
}

/// A trait with one required method (`drop`).
#[derive(Debug, Clone, Copy)]
pub struct TraitMethodItems<Id> {
    pub trait_id: Id,
    pub method_id: Id,
}

/// A trait with an output associated type and one method (`index`,
/// `index_mut`, `fn_once`, `fn_mut`, `fn`).
#[derive(Debug, Clone, Copy)]
pub struct OutputItems<Id> {
    pub trait_id: Id,
    pub output_id: AssocTypeId,
    pub method_id: Id,
}

/// The definitions of the `?` protocol.
#[derive(Debug, Clone, Copy)]
pub struct TryItems<Id> {
    pub try_trait_id: Id,
    pub output_id: AssocTypeId,
    pub residual_id: AssocTypeId,
    pub branch_method_id: Id,
    pub from_residual_trait_id: Id,
    pub from_residual_method_id: Id,
    pub control_flow_enum_id: Id,
    pub break_variant_id: VariantId,
    pub continue_variant_id: VariantId,
}

/// The language-item registry a crate provides.
#[derive(Debug, Clone, Copy)]
pub struct LanguageItems<Id> {
    pub sized: Option<TraitItem<Id>>,
    pub drop: Option<TraitMethodItems<Id>>,
    pub index: Option<OutputItems<Id>>,
    pub index_mut: Option<OutputItems<Id>>,
    pub fn_once: Option<OutputItems<Id>>,
    pub fn_mut: Option<OutputItems<Id>>,
    pub fn_trait: Option<OutputItems<Id>>,
    pub send: Option<TraitItem<Id>>,
    pub sync: Option<TraitItem<Id>>,
    pub try_protocol: Option<TryItems<Id>>,
}

impl<Id> LanguageItems<Id> {
    pub fn none() -> (r: LanguageItems<Id>)
        ensures
            r.is_empty(),
    {
        LanguageItems {
            sized: None,
            drop: None,
            index: None,
            index_mut: None,
            fn_once: None,
            fn_mut: None,
            fn_trait: None,
            send: None,
            sync: None,
            try_protocol: None,
        }
    }

    /// No language item is present.
    pub open spec fn is_empty(self) -> bool {
        &&& self.sized is None
        &&& self.drop is None
        &&& self.index is None
        &&& self.index_mut is None
        &&& self.fn_once is None
        &&& self.fn_mut is None
        &&& self.fn_trait is None
        &&& self.send is None
        &&& self.sync is None
        &&& self.try_protocol is None
    }
}

/// A function as declared in a crate interface (no body).
#[derive(Debug)]
pub struct FunctionInterface {
    pub id: DefId,
    pub name: String,
    pub generic_params: Vec<GenericParamDecl>,
    pub generic_bounds: GenericBounds,
    pub params: Vec<Type>,
    pub ret_type: Type,
    pub is_curried: bool,
    pub is_method: bool,
    pub self_receiver: Option<ReceiverMode>,
    pub is_unsafe: bool,
}

/// A required trait method signature.
#[derive(Debug)]
pub struct FunctionSig {
    pub id: DefId,
    pub name: String,
    pub generic_params: Vec<GenericParamDecl>,
    pub params: Vec<Type>,
    pub ret: Type,
    pub generic_bounds: GenericBounds,
    pub self_receiver: Option<ReceiverMode>,
    pub is_unsafe: bool,
}

/// A struct or variant field.
#[derive(Debug)]
pub struct FieldInterface {
    pub id: FieldId,
    pub name: String,
    pub ty: Type,
    pub public: bool,
}

/// A struct declaration.
#[derive(Debug)]
pub struct StructInterface {
    pub id: DefId,
    pub name: String,
    pub generic_params: Vec<GenericParamDecl>,
    pub fields: Vec<FieldInterface>,
}

/// The payload of an enum variant.
#[derive(Debug)]
pub enum VariantFields {
    Unit,
    Positional(Vec<Type>),
    Named(Vec<FieldInterface>),
}

/// An enum variant declaration.
#[derive(Debug)]
pub struct EnumVariantInterface {
    pub id: VariantId,
    pub name: String,
    pub fields: VariantFields,
}

/// An enum declaration.
#[derive(Debug)]
pub struct EnumInterface {
    pub id: DefId,
    pub name: String,
    pub generic_params: Vec<GenericParamDecl>,
    pub variants: Vec<EnumVariantInterface>,
}

/// A type alias declaration.
#[derive(Debug)]
pub struct TypeAliasInterface {
    pub id: DefId,
    pub name: String,
    pub generic_params: Vec<GenericParamDecl>,
    pub ty: Type,
}

/// An associated type declared by a trait.
#[derive(Debug)]
pub struct AssociatedTypeDecl {
    pub id: AssocTypeId,
    pub name: String,
}

/// A trait declaration: provided methods, required signatures, associated types.
#[derive(Debug)]
pub struct TraitInterface {
    pub id: DefId,
    pub name: String,
    pub generic_params: Vec<GenericParamDecl>,
    pub target: Option<GenericParamDecl>,
    pub predicates: Vec<Predicate>,
    pub associated_types: Vec<AssociatedTypeDecl>,
    pub methods: Vec<(String, FunctionInterface)>,
    pub signatures: Vec<(String, FunctionSig)>,
}

/// An impl declaration.
#[derive(Debug)]
pub struct ImplInterface {
    pub id: DefId,
    pub owner: ImplOwner,
    pub self_name: String,
    pub type_generics: Vec<GenericParamDecl>,
    pub receiver_pattern: ImplReceiverPattern,
    pub trait_name: Option<String>,
    pub trait_id: Option<DefId>,
    pub trait_generics: Vec<GenericParamDecl>,
    pub trait_arg_types: Vec<Type>,
    pub associated_types: Vec<AssociatedTypeImpl>,
    pub bounds: GenericBounds,
    pub methods: Vec<(String, FunctionInterface)>,
}

/// An extern function declaration.
#[derive(Debug)]
pub struct ExternInterface {
    pub id: DefId,
    pub name: String,
    pub params: Vec<Type>,
    pub ret: Type,
    pub variadic: bool,
    pub is_unsafe: bool,
}

/// The declarations a crate exports, keyed by product identity.
pub struct ProductInterface {
    pub functions: IdMap<FunctionInterface>,
    pub structs: IdMap<StructInterface>,
    pub enums: IdMap<EnumInterface>,
    pub type_aliases: IdMap<TypeAliasInterface>,
    pub traits: IdMap<TraitInterface>,
    pub impls: IdMap<ImplInterface>,
    pub externs: IdMap<ExternInterface>,
    /// `(impl, trait member) -> method that implements it`.
    pub effective_trait_methods: Vec<((ProductDefId, ProductDefId), ProductDefId)>,
    pub language_items: LanguageItems<ProductDefId>,
}

/// Serialized bodies that downstream crates instantiate.
pub struct ProductBodies {
    pub functions: IdMap<Function>,
    pub generic_impls: IdMap<Impl>,
    pub trait_default_methods: IdMap<Function>,
}

/// A link record: the backend symbol of a compiled callable.
#[derive(Debug)]
pub struct ProductLinkRecord {
    pub backend_symbol: String,
}

/// Where a crate's object code lives and the symbols it defines.
pub struct ProductLinkData {
    pub object_path: Option<String>,
    pub records: IdMap<ProductLinkRecord>,
}

/// How product identities map to names and to other crates.
pub struct ProductIdentityTable {
    pub local_crate: Option<ProductCrateId>,
    pub dependencies: Vec<(ProductCrateId, ProductCrateIdentity)>,
    pub display_names: IdMap<String>,
    pub export_names: Vec<(String, ProductDefId)>,
    pub prelude_export_names: Vec<(String, ProductDefId)>,
    pub import_alias_names: Vec<(String, ProductDefId)>,
    pub module_alias_names: Vec<(String, ProductDefId)>,
}

/// Everything a crate's compilation leaves for its consumers.
pub struct CompilerProducts {
    pub crate_identity: ProductCrateIdentity,
    pub identity_table: ProductIdentityTable,
    pub interface: ProductInterface,
    pub bodies: ProductBodies,
    pub link: ProductLinkData,
}

impl ProductCrateIdentity {
    /// The identity of a crate built in this session, with no fingerprint yet.
    pub fn local(name: String) -> (r: ProductCrateIdentity)
        ensures
            r.name == name,
            r.fingerprint == 0,
    {
        ProductCrateIdentity { name, fingerprint: 0 }
    }

    pub fn copy(&self) -> (r: ProductCrateIdentity)
        ensures
            r.name@ == self.name@,
            r.fingerprint == self.fingerprint,
    {
        ProductCrateIdentity { name: self.name.clone(), fingerprint: self.fingerprint }
    }
}

impl ProductInterface {
    pub fn new() -> (r: ProductInterface)
        ensures
            r.functions@.len() == 0,
            r.structs@.len() == 0,
            r.enums@.len() == 0,
            r.type_aliases@.len() == 0,
            r.traits@.len() == 0,
            r.impls@.len() == 0,
            r.externs@.len() == 0,
            r.effective_trait_methods@.len() == 0,
            r.language_items.is_empty(),
    {
        ProductInterface {
            functions: IdMap::new(),
            structs: IdMap::new(),
            enums: IdMap::new(),
            type_aliases: IdMap::new(),
            traits: IdMap::new(),
            impls: IdMap::new(),
            externs: IdMap::new(),
            effective_trait_methods: Vec::new(),
            language_items: LanguageItems::none(),
        }
    }
}

impl ProductBodies {
    pub fn new() -> (r: ProductBodies)
        ensures
            r.functions@.len() == 0,
            r.generic_impls@.len() == 0,
            r.trait_default_methods@.len() == 0,
    {
        ProductBodies { functions: IdMap::new(), generic_impls: IdMap::new(), trait_default_methods: IdMap::new() }
    }
}

impl ProductIdentityTable {
    pub fn new() -> (r: ProductIdentityTable)
        ensures
            r.local_crate is None,
            r.dependencies@.len() == 0,
            r.display_names@.len() == 0,
            r.export_names@.len() == 0,
            r.prelude_export_names@.len() == 0,
            r.import_alias_names@.len() == 0,
            r.module_alias_names@.len() == 0,
    {
        ProductIdentityTable {
            local_crate: None,
            dependencies: Vec::new(),
            display_names: IdMap::new(),
            export_names: Vec::new(),
            prelude_export_names: Vec::new(),
            import_alias_names: Vec::new(),
            module_alias_names: Vec::new(),
        }
    }
}

impl CompilerProducts {
    /// The products of a crate named `name` that declares nothing.
    pub fn empty(name: String) -> (r: CompilerProducts)
        ensures
            r.crate_identity.name == name,
            r.identity_table.local_crate is None,
            r.interface.functions@.len() == 0,
            r.interface.traits@.len() == 0,
            r.interface.impls@.len() == 0,
            r.interface.language_items.is_empty(),
            r.link.object_path is None,
            r.link.records@.len() == 0,
    {
        CompilerProducts {
            crate_identity: ProductCrateIdentity::local(name),
            identity_table: ProductIdentityTable::new(),
            interface: ProductInterface::new(),
            bodies: ProductBodies::new(),
            link: ProductLinkData { object_path: None, records: IdMap::new() },
        }
    }
}

/// A copy of a generic parameter declaration.
pub fn copy_param_decl(d: &GenericParamDecl) -> (r: GenericParamDecl)
    ensures
        r.id == d.id,
        r.name@ == d.name@,
{
    GenericParamDecl { id: d.id, name: d.name.clone() }
}

/// A copy of a list of generic parameter declarations.
pub fn copy_param_decls(ds: &Vec<GenericParamDecl>) -> (r: Vec<GenericParamDecl>)
    ensures
        r@.len() == ds@.len(),
        forall|i: int| 0 <= i < ds@.len() ==> (#[trigger] r@[i]).id == ds@[i].id,
{
    let mut out: Vec<GenericParamDecl> = Vec::new();
    let mut i: usize = 0;
    while i < ds.len()
        invariant
            i <= ds@.len(),
            out@.len() == i,
            forall|j: int| 0 <= j < i ==> (#[trigger] out@[j]).id == ds@[j].id,
        decreases ds.len() - i,
    {
        out.push(copy_param_decl(&ds[i]));
        i = i + 1;
    }
    out
}

/// A copy of a trait bound.
pub fn copy_bound(b: &TraitBound) -> (r: TraitBound)
    ensures
        r.trait_id == b.trait_id,
        crate::types::tys_eq(r.type_args@, b.type_args@),
{
    TraitBound { trait_id: b.trait_id, type_args: copy_types(&b.type_args) }
}

/// A copy of a list of trait bounds.
pub fn copy_bounds_list(bs: &Vec<TraitBound>) -> (r: Vec<TraitBound>)
    ensures
        r@.len() == bs@.len(),
{
    let mut out: Vec<TraitBound> = Vec::new();
    let mut i: usize = 0;
    while i < bs.len()
        invariant
            i <= bs@.len(),
            out@.len() == i,
        decreases bs.len() - i,
    {
        out.push(copy_bound(&bs[i]));
        i = i + 1;
    }
    out
}

/// A copy of a where-clause predicate.
pub fn copy_predicate(p: &Predicate) -> (r: Predicate)
    ensures
        r.trait_id == p.trait_id,
{
    Predicate { subject: copy_type(&p.subject), trait_id: p.trait_id, args: copy_types(&p.args) }
}

/// A copy of a list of where-clause predicates.
pub fn copy_predicates(ps: &Vec<Predicate>) -> (r: Vec<Predicate>)
    ensures
        r@.len() == ps@.len(),
{
    let mut out: Vec<Predicate> = Vec::new();
    let mut i: usize = 0;
    while i < ps.len()
        invariant
            i <= ps@.len(),
            out@.len() == i,
        decreases ps.len() - i,
    {
        out.push(copy_predicate(&ps[i]));
        i = i + 1;
    }
    out
}

/// A copy of a generic-bound table.
pub fn copy_generic_bounds(g: &GenericBounds) -> (r: GenericBounds)
    ensures
        r.entries@.len() == g.entries@.len(),
        forall|i: int| 0 <= i < g.entries@.len() ==> (#[trigger] r.entries@[i]).0 == g.entries@[i].0,
{
    let mut entries: Vec<(crate::types::GenericParamId, Vec<TraitBound>)> = Vec::new();
    let mut i: usize = 0;
    while i < g.entries.len()
        invariant
            i <= g.entries@.len(),
            entries@.len() == i,
            forall|j: int| 0 <= j < i ==> (#[trigger] entries@[j]).0 == g.entries@[j].0,
        decreases g.entries.len() - i,
    {
        entries.push((g.entries[i].0, copy_bounds_list(&g.entries[i].1)));
        i = i + 1;
    }
    GenericBounds { entries, predicates: copy_predicates(&g.predicates) }
}

fn param_types(ps: &Vec<Param>) -> (r: Vec<Type>)
    ensures
        r@.len() == ps@.len(),
{
    let mut out: Vec<Type> = Vec::new();
    let mut i: usize = 0;
    while i < ps.len()
        invariant
            i <= ps@.len(),
            out@.len() == i,
        decreases ps.len() - i,
    {
        out.push(copy_type(&ps[i].ty));
        i = i + 1;
    }
    out
}

impl FunctionInterface {
    /// The interface declaration of a function: its signature without the body.
    pub fn from_function(f: &Function) -> (r: FunctionInterface)
        ensures
            r.id == f.id,
            r.name@ == f.name@,
            r.generic_params@.len() == f.generic_params@.len(),
            r.params@.len() == f.params@.len(),
            r.is_method == f.is_method,
            r.self_receiver == f.self_receiver,
            r.is_curried == f.is_curried,
            r.is_unsafe == f.is_unsafe,
    {
        FunctionInterface {
            id: f.id,
            name: f.name.clone(),
            generic_params: copy_param_decls(&f.generic_params),
            generic_bounds: copy_generic_bounds(&f.generic_bounds),
            params: param_types(&f.params),
            ret_type: copy_type(&f.ret_type),
            is_curried: f.is_curried,
            is_method: f.is_method,
            self_receiver: f.self_receiver,
            is_unsafe: f.is_unsafe,
        }
    }
}


/// A copy of a list of associated type declarations.
pub fn copy_assoc_decls(s: &Vec<AssociatedTypeDecl>) -> (r: Vec<AssociatedTypeDecl>)
    ensures
        r@.len() == s@.len(),
        forall|k: int| 0 <= k < s@.len() ==> (#[trigger] r@[k]).id == s@[k].id && r@[k].name@ == s@[k].name@,
{
    let mut out: Vec<AssociatedTypeDecl> = Vec::new();
    let mut k: usize = 0;
    while k < s.len()
        invariant
            k <= s@.len(),
            out@.len() == k,
            forall|j: int| 0 <= j < k ==> (#[trigger] out@[j]).id == s@[j].id && out@[j].name@ == s@[j].name@,
        decreases s@.len() - k,
    {
        out.push(AssociatedTypeDecl { id: s[k].id, name: s[k].name.clone() });
        k = k + 1;
    }
    out
}

} // verus!
