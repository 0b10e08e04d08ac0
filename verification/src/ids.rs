use vstd::prelude::*;

verus! {

/// Crate number used inside a serialized product artifact.
#[derive(Clone, Copy, Debug, PartialEq, Eq, Structural, Hash)]
pub struct ProductCrateId(pub u32);

/// Definition number local to one product crate.
#[derive(Clone, Copy, Debug, PartialEq, Eq, Structural, Hash)]
pub struct ProductLocalDefId(pub u32);

/// A definition identity as recorded in a product artifact.
#[derive(Clone, Copy, Debug, PartialEq, Eq, Structural, Hash)]
pub struct ProductDefId {
    pub crate_id: ProductCrateId,
    pub local_id: ProductLocalDefId,
}

/// Crate number in the consuming compiler session.
#[derive(Clone, Copy, Debug, PartialEq, Eq, Structural, Hash)]
pub struct CrateId(pub u32);

/// Definition number local to one session crate.
#[derive(Clone, Copy, Debug, PartialEq, Eq, Structural, Hash)]
pub struct LocalDefId(pub u32);

/// A definition identity in the consuming compiler session.
#[derive(Clone, Copy, Debug, PartialEq, Eq, Structural, Hash)]
pub struct DefId {
    pub crate_id: CrateId,
    pub local: LocalDefId,
}

/// Identity of an associated type inside its trait.
#[derive(Clone, Copy, Debug, PartialEq, Eq, Structural, Hash)]
pub struct AssocTypeId(pub u32);

/// Identity of an enum variant inside its enum.
#[derive(Clone, Copy, Debug, PartialEq, Eq, Structural, Hash)]
pub struct VariantId(pub u32);

/// Identity of a field inside its struct or variant.
#[derive(Clone, Copy, Debug, PartialEq, Eq, Structural, Hash)]
pub struct FieldId(pub u32);

/// Identity of a local binding inside one function body.
#[derive(Clone, Copy, Debug, PartialEq, Eq, Structural, Hash)]
pub struct LocalId(pub u32);

/// Identity of a session-local instance (never valid inside an artifact).
#[derive(Clone, Copy, Debug, PartialEq, Eq, Structural, Hash)]
pub struct InstanceId(pub u32);

impl DefId {
    pub fn new(crate_id: CrateId, local: LocalDefId) -> (r: DefId)
        ensures
            r.crate_id == crate_id,
            r.local == local,
    {
        DefId { crate_id, local }
    }
}

/// The product identity that a session `DefId` carries when it is read back
/// as artifact data: the crate and local numbers are taken over unchanged.
pub open spec fn spec_product_of(id: DefId) -> ProductDefId {
    ProductDefId { crate_id: ProductCrateId(id.crate_id.0), local_id: ProductLocalDefId(id.local.0) }
}

/// The session `DefId` with the same numbers as a product identity.
pub open spec fn spec_def_of(id: ProductDefId) -> DefId {
    DefId { crate_id: CrateId(id.crate_id.0), local: LocalDefId(id.local_id.0) }
}

impl ProductDefId {
    pub fn new(crate_id: u32, local_id: u32) -> (r: ProductDefId)
        ensures
            r.crate_id.0 == crate_id,
            r.local_id.0 == local_id,
    {
        ProductDefId { crate_id: ProductCrateId(crate_id), local_id: ProductLocalDefId(local_id) }
    }

    /// Reads a session `DefId` embedded in artifact data as a product identity.
    pub fn from_def_id(id: DefId) -> (r: ProductDefId)
        ensures
            r == spec_product_of(id),
    {
        ProductDefId { crate_id: ProductCrateId(id.crate_id.0), local_id: ProductLocalDefId(id.local.0) }
    }
}

/// The session `DefId` that carries the same numbers as a product identity.
pub fn product_def_id(id: ProductDefId) -> (r: DefId)
    ensures
        r == spec_def_of(id),
{
    DefId { crate_id: CrateId(id.crate_id.0), local: LocalDefId(id.local_id.0) }
}

/// Reading a `DefId` back as a product identity undoes `product_def_id`.
pub proof fn lemma_product_def_round_trip(id: ProductDefId)
    ensures
        spec_product_of(spec_def_of(id)) == id,
{
}

/// Writing a product identity as a `DefId` undoes `ProductDefId::from_def_id`.
pub proof fn lemma_def_product_round_trip(id: DefId)
    ensures
        spec_def_of(spec_product_of(id)) == id,
{
}

} // verus!
