use vstd::prelude::*;

use crate::ids::{FieldId, ProductDefId, VariantId};
use crate::products::{EnumInterface, EnumVariantInterface, ProductInterface, StructInterface, VariantFields};
use crate::text::{decimal, outcome_is, push_decimal, push_str, str_eq, text};

verus! {

/// The names of the fields of a struct, keyed by owner and field identity.
pub open spec fn struct_field_entries(id: ProductDefId, s: StructInterface) -> Seq<((ProductDefId, FieldId), Seq<char>)> {
    Seq::new(s.fields@.len(), |k: int| ((id, s.fields@[k].id), s.fields@[k].name@))
}

/// The names of the named fields of a variant.
pub open spec fn variant_field_entries(id: ProductDefId, v: EnumVariantInterface) -> Seq<((ProductDefId, FieldId), Seq<char>)> {
    match v.fields {
        VariantFields::Named(fs) => Seq::new(fs@.len(), |k: int| ((id, fs@[k].id), fs@[k].name@)),
        _ => Seq::empty(),
    }
}

/// The names of the named fields of the variants of an enum, in order.
pub open spec fn enum_field_entries(id: ProductDefId, vs: Seq<EnumVariantInterface>) -> Seq<((ProductDefId, FieldId), Seq<char>)>
    decreases vs.len(),
{
    if vs.len() == 0 {
        Seq::empty()
    } else {
        enum_field_entries(id, vs.drop_last()) + variant_field_entries(id, vs.last())
    }
}

/// The field names of all structs in table order.
pub open spec fn struct_fields(ss: Seq<(ProductDefId, StructInterface)>) -> Seq<((ProductDefId, FieldId), Seq<char>)>
    decreases ss.len(),
{
    if ss.len() == 0 {
        Seq::empty()
    } else {
        struct_fields(ss.drop_last()) + struct_field_entries(ss.last().0, ss.last().1)
    }
}

/// The named-field names of all enums in table order.
pub open spec fn enum_fields(es: Seq<(ProductDefId, EnumInterface)>) -> Seq<((ProductDefId, FieldId), Seq<char>)>
    decreases es.len(),
{
    if es.len() == 0 {
        Seq::empty()
    } else {
        enum_fields(es.drop_last()) + enum_field_entries(es.last().0, es.last().1.variants@)
    }
}

/// Every field name that an interface declares, in declaration order.
pub open spec fn field_entries(f: ProductInterface) -> Seq<((ProductDefId, FieldId), Seq<char>)> {
    struct_fields(f.structs@) + enum_fields(f.enums@)
}

/// The names of the variants of an enum.
pub open spec fn enum_variant_entries(id: ProductDefId, e: EnumInterface) -> Seq<((ProductDefId, VariantId), Seq<char>)> {
    Seq::new(e.variants@.len(), |k: int| ((id, e.variants@[k].id), e.variants@[k].name@))
}

/// Every variant name that an interface declares, in declaration order.
pub open spec fn variant_names(es: Seq<(ProductDefId, EnumInterface)>) -> Seq<((ProductDefId, VariantId), Seq<char>)>
    decreases es.len(),
{
    if es.len() == 0 {
        Seq::empty()
    } else {
        variant_names(es.drop_last()) + enum_variant_entries(es.last().0, es.last().1)
    }
}

/// A name table by text.
pub open spec fn names_view<K>(s: Seq<(K, String)>) -> Seq<(K, Seq<char>)> {
    Seq::new(s.len(), |i: int| (s[i].0, s[i].1@))
}

/// The name recorded last under `k`, as a later declaration replaces an
/// earlier one.
pub open spec fn latest<K>(s: Seq<(K, Seq<char>)>, k: K) -> Option<Seq<char>>
    decreases s.len(),
{
    if s.len() == 0 {
        None
    } else if s.last().0 == k {
        Some(s.last().1)
    } else {
        latest(s.drop_last(), k)
    }
}

/// Checks the field and variant locations that artifact bodies carry
/// against the names the artifact's interfaces declare.
pub struct ProductChildLocationValidator {
    pub fields_by_id: Vec<((ProductDefId, FieldId), String)>,
    pub variants_by_id: Vec<((ProductDefId, VariantId), String)>,
}

/// The outcome of checking a field location naming `location_name`, on an
/// expression or pattern naming `expr_name`, whose recorded name is `meta`.
pub open spec fn field_outcome(
    meta: Option<Seq<char>>,
    owner: ProductDefId,
    field_id: FieldId,
    location_name: Seq<char>,
    expr_name: Seq<char>,
) -> Result<(), Seq<char>> {
    match meta {
        None => Err("Product artifact references unknown field ID "@ + decimal(field_id.0 as nat) + " on definition "@
            + decimal(owner.local_id.0 as nat)),
        Some(m) => if m != location_name || m != expr_name {
            Err("Product artifact field sidecar mismatch for definition "@ + decimal(owner.local_id.0 as nat) + " field "@
                + decimal(field_id.0 as nat) + ": expression '"@ + expr_name + "', sidecar '"@ + location_name
                + "', metadata '"@ + m + "'"@)
        } else {
            Ok(())
        },
    }
}

/// The outcome of checking a variant location, as for fields.
pub open spec fn variant_outcome(
    meta: Option<Seq<char>>,
    owner: ProductDefId,
    variant_id: VariantId,
    location_name: Seq<char>,
    expr_name: Seq<char>,
) -> Result<(), Seq<char>> {
    match meta {
        None => Err("Product artifact references unknown variant ID "@ + decimal(variant_id.0 as nat) + " on definition "@
            + decimal(owner.local_id.0 as nat)),
        Some(m) => if m != location_name || m != expr_name {
            Err("Product artifact variant sidecar mismatch for definition "@ + decimal(owner.local_id.0 as nat)
                + " variant "@ + decimal(variant_id.0 as nat) + ": expression '"@ + expr_name + "', sidecar '"@
                + location_name + "', metadata '"@ + m + "'"@)
        } else {
            Ok(())
        },
    }
}

pub(crate) fn push_struct_fields(id: ProductDefId, s: &StructInterface, out: &mut Vec<((ProductDefId, FieldId), String)>)
    ensures
        names_view(final(out)@) == names_view(old(out)@) + struct_field_entries(id, *s),
{
    let ghost start = names_view(out@);
    let mut k: usize = 0;
    while k < s.fields.len()
        invariant
            k <= s.fields@.len(),
            names_view(out@) == start + struct_field_entries(id, *s).take(k as int),
        decreases s.fields@.len() - k,
    {
        let ghost prev = out@;
        out.push(((id, s.fields[k].id), s.fields[k].name.clone()));
        k = k + 1;
        proof {
            assert(names_view(out@) =~= names_view(prev).push(((id, s.fields@[k - 1].id), s.fields@[k - 1].name@)));
            assert(names_view(out@) =~= start + struct_field_entries(id, *s).take(k as int));
        }
    }
    assert(struct_field_entries(id, *s).take(k as int) =~= struct_field_entries(id, *s));
}

pub(crate) fn push_enum_names(
    id: ProductDefId,
    e: &EnumInterface,
    fields: &mut Vec<((ProductDefId, FieldId), String)>,
    variants: &mut Vec<((ProductDefId, VariantId), String)>,
)
    ensures
        names_view(final(fields)@) == names_view(old(fields)@) + enum_field_entries(id, e.variants@),
        names_view(final(variants)@) == names_view(old(variants)@) + enum_variant_entries(id, *e),
{
    let ghost fstart = names_view(fields@);
    let ghost vstart = names_view(variants@);
    let mut k: usize = 0;
    while k < e.variants.len()
        invariant
            k <= e.variants@.len(),
            names_view(fields@) == fstart + enum_field_entries(id, e.variants@.take(k as int)),
            names_view(variants@) == vstart + enum_variant_entries(id, *e).take(k as int),
        decreases e.variants@.len() - k,
    {
        let v = &e.variants[k];
        let ghost vprev = variants@;
        variants.push(((id, v.id), v.name.clone()));
        proof {
            assert(names_view(variants@) =~= names_view(vprev).push(((id, v.id), v.name@)));
            assert(names_view(variants@) =~= vstart + enum_variant_entries(id, *e).take(k + 1));
            assert(e.variants@.take(k + 1).drop_last() =~= e.variants@.take(k as int));
        }
        let ghost fmid = names_view(fields@);
        if let VariantFields::Named(fs) = &v.fields {
            let mut j: usize = 0;
            while j < fs.len()
                invariant
                    j <= fs@.len(),
                    names_view(fields@) == fmid + Seq::new(fs@.len(), |q: int| ((id, fs@[q].id), fs@[q].name@)).take(j as int),
                decreases fs@.len() - j,
            {
                let ghost prev = fields@;
                fields.push(((id, fs[j].id), fs[j].name.clone()));
                j = j + 1;
                proof {
                    assert(names_view(fields@) =~= names_view(prev).push(((id, fs@[j - 1].id), fs@[j - 1].name@)));
                    assert(names_view(fields@) =~= fmid + Seq::new(fs@.len(), |q: int| ((id, fs@[q].id), fs@[q].name@)).take(j as int));
                }
            }
            assert(Seq::new(fs@.len(), |q: int| ((id, fs@[q].id), fs@[q].name@)).take(j as int)
                =~= variant_field_entries(id, *v));
        } else {
            assert(variant_field_entries(id, *v) =~= Seq::empty());
        }
        k = k + 1;
        proof {
            assert(names_view(fields@) =~= fstart + enum_field_entries(id, e.variants@.take(k as int)));
        }
    }
    assert(e.variants@.take(k as int) =~= e.variants@);
    assert(enum_variant_entries(id, *e).take(k as int) =~= enum_variant_entries(id, *e));
}

fn find_latest_field(s: &Vec<((ProductDefId, FieldId), String)>, owner: ProductDefId, f: FieldId) -> (r: Option<&String>)
    ensures
        match latest(names_view(s@), (owner, f)) {
            Some(n) => r matches Some(x) && x@ == n,
            None => r is None,
        },
{
    let mut i: usize = s.len();
    assert(s@.take(s@.len() as int) =~= s@);
    while i > 0
        invariant
            i <= s@.len(),
            latest(names_view(s@), (owner, f)) == latest(names_view(s@.take(i as int)), (owner, f)),
        decreases i,
    {
        assert(names_view(s@.take(i as int)).drop_last() =~= names_view(s@.take(i - 1)));
        if s[i - 1].0.0 == owner && s[i - 1].0.1 == f {
            return Some(&s[i - 1].1);
        }
        i = i - 1;
    }
    None
}

fn find_latest_variant(s: &Vec<((ProductDefId, VariantId), String)>, owner: ProductDefId, v: VariantId) -> (r: Option<&String>)
    ensures
        match latest(names_view(s@), (owner, v)) {
            Some(n) => r matches Some(x) && x@ == n,
            None => r is None,
        },
{
    let mut i: usize = s.len();
    assert(s@.take(s@.len() as int) =~= s@);
    while i > 0
        invariant
            i <= s@.len(),
            latest(names_view(s@), (owner, v)) == latest(names_view(s@.take(i as int)), (owner, v)),
        decreases i,
    {
        assert(names_view(s@.take(i as int)).drop_last() =~= names_view(s@.take(i - 1)));
        if s[i - 1].0.0 == owner && s[i - 1].0.1 == v {
            return Some(&s[i - 1].1);
        }
        i = i - 1;
    }
    None
}

fn mismatch_message(prefix: &str, owner: ProductDefId, mid: &str, n: u32, expr_name: &str, location_name: &str, meta: &str) -> (r: String)
    ensures
        r@ == prefix@ + decimal(owner.local_id.0 as nat) + mid@ + decimal(n as nat) + ": expression '"@ + expr_name@
            + "', sidecar '"@ + location_name@ + "', metadata '"@ + meta@ + "'"@,
{
    let mut s = text(prefix);
    push_decimal(&mut s, owner.local_id.0 as u64);
    push_str(&mut s, mid);
    push_decimal(&mut s, n as u64);
    push_str(&mut s, ": expression '");
    push_str(&mut s, expr_name);
    push_str(&mut s, "', sidecar '");
    push_str(&mut s, location_name);
    push_str(&mut s, "', metadata '");
    push_str(&mut s, meta);
    push_str(&mut s, "'");
    proof {
        assert(s@ =~= prefix@ + decimal(owner.local_id.0 as nat) + mid@ + decimal(n as nat) + ": expression '"@ + expr_name@
            + "', sidecar '"@ + location_name@ + "', metadata '"@ + meta@ + "'"@);
    }
    s
}

impl ProductChildLocationValidator {
    /// The recorded name of field `f` of `owner`.
    pub open spec fn field_name(self, owner: ProductDefId, f: FieldId) -> Option<Seq<char>> {
        latest(names_view(self.fields_by_id@), (owner, f))
    }

    /// The recorded name of variant `v` of `owner`.
    pub open spec fn variant_name(self, owner: ProductDefId, v: VariantId) -> Option<Seq<char>> {
        latest(names_view(self.variants_by_id@), (owner, v))
    }

    /// The validator of the fields and variants that an artifact's own
    /// interface declares.
    pub fn from_products(products: &crate::products::CompilerProducts) -> (r: ProductChildLocationValidator)
        ensures
            names_view(r.fields_by_id@) == field_entries(products.interface),
            names_view(r.variants_by_id@) == variant_names(products.interface.enums@),
    {
        let f = &products.interface;
        let mut fields: Vec<((ProductDefId, FieldId), String)> = Vec::new();
        let mut variants: Vec<((ProductDefId, VariantId), String)> = Vec::new();
        let mut i: usize = 0;
        while i < f.structs.len()
            invariant
                i <= f.structs@.len(),
                names_view(fields@) == struct_fields(f.structs@.take(i as int)),
                variants@.len() == 0,
            decreases f.structs@.len() - i,
        {
            let e = f.structs.entry(i);
            push_struct_fields(e.0, &e.1, &mut fields);
            proof {
                assert(f.structs@.take(i + 1).drop_last() =~= f.structs@.take(i as int));
            }
            i = i + 1;
        }
        assert(f.structs@.take(i as int) =~= f.structs@);
        let ghost structs_part = names_view(fields@);
        assert(names_view(variants@) =~= variant_names(f.enums@.take(0)));
        let mut i: usize = 0;
        while i < f.enums.len()
            invariant
                i <= f.enums@.len(),
                structs_part == struct_fields(f.structs@),
                names_view(fields@) == structs_part + enum_fields(f.enums@.take(i as int)),
                names_view(variants@) == variant_names(f.enums@.take(i as int)),
            decreases f.enums@.len() - i,
        {
            let e = f.enums.entry(i);
            push_enum_names(e.0, &e.1, &mut fields, &mut variants);
            proof {
                assert(f.enums@.take(i + 1).drop_last() =~= f.enums@.take(i as int));
                assert(names_view(fields@) =~= structs_part + enum_fields(f.enums@.take(i + 1)));
            }
            i = i + 1;
        }
        assert(f.enums@.take(i as int) =~= f.enums@);
        ProductChildLocationValidator { fields_by_id: fields, variants_by_id: variants }
    }

    /// Checks a field location: the field must be declared, and its name
    /// must match the location's and the expression's.
    pub fn validate_field(&self, owner: ProductDefId, field_id: FieldId, location_name: &str, expr_name: &str) -> (r: Result<(), String>)
        ensures
            outcome_is(r, field_outcome(self.field_name(owner, field_id), owner, field_id, location_name@, expr_name@)),
    {
        match find_latest_field(&self.fields_by_id, owner, field_id) {
            None => {
                let mut s = text("Product artifact references unknown field ID ");
                push_decimal(&mut s, field_id.0 as u64);
                push_str(&mut s, " on definition ");
                push_decimal(&mut s, owner.local_id.0 as u64);
                Err(s)
            },
            Some(meta) => {
                if !str_eq(meta.as_str(), location_name) || !str_eq(meta.as_str(), expr_name) {
                    Err(mismatch_message("Product artifact field sidecar mismatch for definition ", owner, " field ",
                        field_id.0, expr_name, location_name, meta.as_str()))
                } else {
                    Ok(())
                }
            },
        }
    }

    /// Checks a variant location, as for fields.
    pub fn validate_variant(&self, owner: ProductDefId, variant_id: VariantId, location_name: &str, expr_name: &str) -> (r: Result<(), String>)
        ensures
            outcome_is(r, variant_outcome(self.variant_name(owner, variant_id), owner, variant_id, location_name@, expr_name@)),
    {
        match find_latest_variant(&self.variants_by_id, owner, variant_id) {
            None => {
                let mut s = text("Product artifact references unknown variant ID ");
                push_decimal(&mut s, variant_id.0 as u64);
                push_str(&mut s, " on definition ");
                push_decimal(&mut s, owner.local_id.0 as u64);
                Err(s)
            },
            Some(meta) => {
                if !str_eq(meta.as_str(), location_name) || !str_eq(meta.as_str(), expr_name) {
                    Err(mismatch_message("Product artifact variant sidecar mismatch for definition ", owner, " variant ",
                        variant_id.0, expr_name, location_name, meta.as_str()))
                } else {
                    Ok(())
                }
            },
        }
    }
}

} // verus!
