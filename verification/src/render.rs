use vstd::prelude::*;

use crate::ids::DefId;
use crate::text::{decimal, push_decimal, push_str};
use crate::types::Type;

verus! {

/// A definition as `crate::local` text.
pub open spec fn def_text(id: DefId) -> Seq<char> {
    decimal(id.crate_id.0 as nat) + "::"@ + decimal(id.local.0 as nat)
}

/// The text that diagnostics use for a type.
pub open spec fn type_text(t: Type) -> Seq<char>
    decreases t, 2nat,
{
    match t {
        Type::Unit => "Unit"@,
        Type::Bool => "Bool"@,
        Type::I64 => "I64"@,
        Type::Str => "Str"@,
        Type::Error => "Error"@,
        Type::TypeVar(v) => "TypeVar("@ + decimal(v.0 as nat) + ")"@,
        Type::Generic(g) => "Generic("@ + def_text(g.owner) + "#"@ + decimal(g.index as nat) + ")"@,
        Type::Slice(x) => "Slice("@ + type_text(*x) + ")"@,
        Type::Pointer(x) => "Pointer("@ + type_text(*x) + ")"@,
        Type::Array(x, n) => "Array("@ + type_text(*x) + "; "@ + decimal(n as nat) + ")"@,
        Type::Tuple(xs) => "Tuple("@ + list_text(xs@) + ")"@,
        Type::Function { params, ret, .. } => "Function("@ + list_text(params@) + " -> "@ + type_text(*ret) + ")"@,
        Type::Struct { id, args } => "Struct("@ + def_text(id) + ", "@ + list_text(args@) + ")"@,
        Type::Enum { id, args } => "Enum("@ + def_text(id) + ", "@ + list_text(args@) + ")"@,
        Type::Constructor { id, .. } => "Constructor("@ + def_text(id) + ")"@,
        Type::Reference { mutable, inner } => if mutable {
            "Reference(&mut "@ + type_text(*inner) + ")"@
        } else {
            "Reference(&"@ + type_text(*inner) + ")"@
        },
        Type::Projection { ty, trait_id, assoc_type, trait_args } => "Projection("@ + type_text(*ty) + " as "@
            + def_text(trait_id) + "::#"@ + decimal(assoc_type.assoc_type_id.0 as nat) + ", "@
            + list_text(trait_args@) + ")"@,
    }
}

/// A list of types as `[a, b, c]`.
pub open spec fn list_text(ts: Seq<Type>) -> Seq<char>
    decreases ts, 1nat,
{
    "["@ + items_text(ts) + "]"@
}

/// The types of a list separated by `, `.
pub open spec fn items_text(ts: Seq<Type>) -> Seq<char>
    decreases ts, 0nat,
{
    if ts.len() == 0 {
        Seq::empty()
    } else if ts.len() == 1 {
        type_text(ts[0])
    } else {
        items_text(ts.drop_last()) + ", "@ + type_text(ts.last())
    }
}

proof fn lemma_items_text_step(ts: Seq<Type>, i: int)
    requires
        0 <= i < ts.len(),
    ensures
        items_text(ts.take(i + 1)) == if i == 0 {
            type_text(ts[0])
        } else {
            items_text(ts.take(i)) + ", "@ + type_text(ts[i])
        },
{
    assert(ts.take(i + 1).drop_last() =~= ts.take(i));
}

pub fn push_def_text(s: &mut String, id: DefId)
    ensures
        final(s)@ == old(s)@ + def_text(id),
{
    push_decimal(s, id.crate_id.0 as u64);
    push_str(s, "::");
    push_decimal(s, id.local.0 as u64);
    proof {
        assert(s@ =~= old(s)@ + def_text(id));
    }
}

/// Appends the text of `t`.
#[verifier::spinoff_prover]
#[verifier::rlimit(60)]
pub fn push_type_text(s: &mut String, t: &Type)
    ensures
        final(s)@ == old(s)@ + type_text(*t),
    decreases t, 1nat,
{
    let ghost s0 = s@;
    match t {
        Type::Unit => {
            push_str(s, "Unit");
            proof { assert(s@ =~= s0 + type_text(*t)); }
        },
        Type::Bool => {
            push_str(s, "Bool");
            proof { assert(s@ =~= s0 + type_text(*t)); }
        },
        Type::I64 => {
            push_str(s, "I64");
            proof { assert(s@ =~= s0 + type_text(*t)); }
        },
        Type::Str => {
            push_str(s, "Str");
            proof { assert(s@ =~= s0 + type_text(*t)); }
        },
        Type::Error => {
            push_str(s, "Error");
            proof { assert(s@ =~= s0 + type_text(*t)); }
        },
        Type::TypeVar(v) => {
            push_str(s, "TypeVar(");
            push_decimal(s, v.0 as u64);
            push_str(s, ")");
            proof { assert(s@ =~= s0 + type_text(*t)); }
        },
        Type::Generic(g) => {
            push_str(s, "Generic(");
            push_def_text(s, g.owner);
            push_str(s, "#");
            push_decimal(s, g.index as u64);
            push_str(s, ")");
            proof { assert(s@ =~= s0 + type_text(*t)); }
        },
        Type::Slice(x) => {
            push_str(s, "Slice(");
            push_type_text(s, x);
            push_str(s, ")");
            proof { assert(s@ =~= s0 + type_text(*t)); }
        },
        Type::Pointer(x) => {
            push_str(s, "Pointer(");
            push_type_text(s, x);
            push_str(s, ")");
            proof { assert(s@ =~= s0 + type_text(*t)); }
        },
        Type::Array(x, n) => {
            push_str(s, "Array(");
            push_type_text(s, x);
            push_str(s, "; ");
            push_decimal(s, *n);
            push_str(s, ")");
            proof { assert(s@ =~= s0 + type_text(*t)); }
        },
        Type::Tuple(xs) => {
            proof { assert(decreases_to!(*t => (*t)->Tuple_0)); }
            push_str(s, "Tuple(");
            push_list_text(s, xs);
            push_str(s, ")");
            proof { assert(s@ =~= s0 + type_text(*t)); }
        },
        Type::Function { params, ret, .. } => {
            proof { assert(decreases_to!(*t => (*t)->params)); }
            push_str(s, "Function(");
            push_list_text(s, params);
            push_str(s, " -> ");
            push_type_text(s, ret);
            push_str(s, ")");
            proof { assert(s@ =~= s0 + type_text(*t)); }
        },
        Type::Struct { id, args } => {
            proof { assert(decreases_to!(*t => (*t)->Struct_args)); }
            push_str(s, "Struct(");
            push_def_text(s, *id);
            push_str(s, ", ");
            push_list_text(s, args);
            push_str(s, ")");
            proof { assert(s@ =~= s0 + type_text(*t)); }
        },
        Type::Enum { id, args } => {
            proof { assert(decreases_to!(*t => (*t)->Enum_args)); }
            push_str(s, "Enum(");
            push_def_text(s, *id);
            push_str(s, ", ");
            push_list_text(s, args);
            push_str(s, ")");
            proof { assert(s@ =~= s0 + type_text(*t)); }
        },
        Type::Constructor { id, .. } => {
            push_str(s, "Constructor(");
            push_def_text(s, *id);
            push_str(s, ")");
            proof { assert(s@ =~= s0 + type_text(*t)); }
        },
        Type::Reference { mutable, inner } => {
            if *mutable {
                push_str(s, "Reference(&mut ");
            } else {
                push_str(s, "Reference(&");
            }
            push_type_text(s, inner);
            push_str(s, ")");
            proof { assert(s@ =~= s0 + type_text(*t)); }
        },
        Type::Projection { ty, trait_id, assoc_type, trait_args } => {
            proof { assert(decreases_to!(*t => (*t)->trait_args)); }
            push_str(s, "Projection(");
            push_type_text(s, ty);
            push_str(s, " as ");
            push_def_text(s, *trait_id);
            push_str(s, "::#");
            push_decimal(s, assoc_type.assoc_type_id.0 as u64);
            push_str(s, ", ");
            push_list_text(s, trait_args);
            push_str(s, ")");
            proof { assert(s@ =~= s0 + type_text(*t)); }
        },
    }
}

/// Appends the text of a list of types.
pub fn push_list_text(s: &mut String, ts: &Vec<Type>)
    ensures
        final(s)@ == old(s)@ + list_text(ts@),
    decreases ts, 0nat,
{
    let ghost s0 = s@;
    push_str(s, "[");
    let mut i: usize = 0;
    while i < ts.len()
        invariant
            i <= ts@.len(),
            s@ == s0 + "["@ + items_text(ts@.take(i as int)),
        decreases ts.len() - i,
    {
        proof {
            assert(decreases_to!(*ts => ts[i as int]));
            lemma_items_text_step(ts@, i as int);
        }
        if i > 0 {
            push_str(s, ", ");
        }
        push_type_text(s, &ts[i]);
        i = i + 1;
        proof {
            assert(s@ =~= s0 + "["@ + items_text(ts@.take(i as int)));
        }
    }
    push_str(s, "]");
    proof {
        assert(ts@.take(i as int) =~= ts@);
        assert(s@ =~= s0 + list_text(ts@));
    }
}

/// A definition as its `Debug` text.
pub open spec fn def_debug(id: DefId) -> Seq<char> {
    "DefId { crate_id: CrateId("@ + decimal(id.crate_id.0 as nat) + "), local: LocalDefId("@ + decimal(id.local.0 as nat) + ") }"@
}

/// Appends the `Debug` text of a definition.
pub fn push_def_debug(s: &mut String, d: DefId)
    ensures
        final(s)@ == old(s)@ + def_debug(d),
{
    push_str(s, "DefId { crate_id: CrateId(");
    push_decimal(s, d.crate_id.0 as u64);
    push_str(s, "), local: LocalDefId(");
    push_decimal(s, d.local.0 as u64);
    push_str(s, ") }");
    proof {
        assert(s@ =~= old(s)@ + def_debug(d));
    }
}

} // verus!
