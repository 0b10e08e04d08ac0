use vstd::prelude::*;

use crate::ids::{DefId, FieldId, InstanceId, LocalId, VariantId};
use crate::types::{
    CaptureKind, GenericBounds, GenericParamDecl, ImplReceiverPattern, ReceiverMode, Type,
    TypeBinding,
};

verus! {

/// What a resolved variable refers to.
#[derive(Debug)]
pub enum VarTarget {
    Local(LocalId),
    Function(DefId),
    Extern(DefId),
    Instance(InstanceId),
}

/// A variable reference with its resolution.
#[derive(Debug)]
pub struct VarRef {
    pub name: String,
    pub target: VarTarget,
}

/// The trait member through which an impl method was selected.
#[derive(Debug)]
pub struct SelectedTraitMember {
    pub trait_id: DefId,
    pub member_id: DefId,
    pub trait_args: Vec<Type>,
}

/// How a trait method call is dispatched.
#[derive(Debug, Clone, Copy, PartialEq, Eq, Structural)]
pub enum TraitDispatchKind {
    TraitBound,
    Object,
}

/// The method that a method call or static call was resolved to.
#[derive(Debug)]
pub enum SelectedMethodTarget {
    ImplMethod { impl_id: DefId, method_id: DefId, selected_trait: Option<SelectedTraitMember> },
    TraitMethod { trait_id: DefId, member_id: DefId, trait_args: Vec<Type>, dispatch: TraitDispatchKind },
}

/// A resolved method selection with the substitution of its owner's generics.
#[derive(Debug)]
pub struct MethodCallTarget {
    pub target: SelectedMethodTarget,
    pub owner_substitution: Vec<TypeBinding>,
}

/// A call of a method through its owner type, `Owner::method`.
#[derive(Debug)]
pub struct StaticMethodTarget {
    pub owner_ty: Type,
    pub method: MethodCallTarget,
}

/// What a call expression was resolved to.
#[derive(Debug)]
pub enum CallTarget {
    Function(DefId),
    Extern(DefId),
    Local(LocalId),
    StaticMethod(StaticMethodTarget),
    Instance(InstanceId),
    Intrinsic(String),
}

/// The definition and identity of a field named in an expression or pattern.
#[derive(Debug)]
pub struct FieldLocation {
    pub owner: DefId,
    pub field_id: FieldId,
    pub name: String,
}

/// The definition and identity of a variant named in an expression or pattern.
#[derive(Debug)]
pub struct VariantLocation {
    pub owner: DefId,
    pub variant_id: VariantId,
    pub name: String,
}

/// A function or closure parameter.
#[derive(Debug)]
pub struct Param {
    pub name: String,
    pub local_id: LocalId,
    pub ty: Type,
    pub mutable: bool,
    pub is_ref: bool,
}

/// A local captured by a closure.
#[derive(Debug)]
pub struct Capture {
    pub local_id: LocalId,
    pub ty: Type,
    pub kind: CaptureKind,
}

/// A field initializer in a struct literal.
#[derive(Debug)]
pub struct StructLiteralField {
    pub name: String,
    pub value: Expr,
    pub field: Option<FieldLocation>,
}

/// A field sub-pattern in a struct pattern.
#[derive(Debug)]
pub struct StructPatternField {
    pub name: String,
    pub field: Option<FieldLocation>,
    pub pattern: Pattern,
}

/// A pattern in a `match` arm.
#[derive(Debug)]
pub enum Pattern {
    Wildcard,
    Binding { name: String, local_id: LocalId, mutable: bool },
    Literal(i64),
    Tuple(Vec<Pattern>),
    Struct(String, Option<DefId>, Vec<Type>, Vec<StructPatternField>),
    Enum(String, String, Option<VariantLocation>, Vec<Pattern>),
    Or(Vec<Pattern>),
}

/// One arm of a `match`.
#[derive(Debug)]
pub struct MatchArm {
    pub pattern: Pattern,
    pub guard: Option<Expr>,
    pub body: Block,
}

/// A unary operator.
#[derive(Debug, Clone, Copy, PartialEq, Eq, Structural)]
pub enum UnaryOp {
    Neg,
    Not,
}

/// A binary operator.
#[derive(Debug, Clone, Copy, PartialEq, Eq, Structural)]
pub enum BinOp {
    Add,
    Sub,
    Mul,
    Div,
    Rem,
    Eq,
    Ne,
    Lt,
    Le,
    Gt,
    Ge,
    And,
    Or,
}

/// The parts of a `?` expression.
#[derive(Debug)]
pub struct TryExpr {
    pub expr: Box<Expr>,
    pub branch_method: MethodCallTarget,
    pub branch_target: Option<InstanceId>,
    pub from_residual_target: CallTarget,
    pub output_ty: Type,
    pub residual_ty: Type,
    pub return_ty: Type,
    pub control_flow_enum: DefId,
    pub break_variant: VariantLocation,
    pub continue_variant: VariantLocation,
}

/// The kinds of typed expressions.
#[derive(Debug)]
pub enum ExprKind {
    IntLiteral(i64),
    BoolLiteral(bool),
    StringLiteral(String),
    CharLiteral(char),
    Unit,
    Var(String),
    ResolvedVar(VarRef),
    ArrayLiteral(Vec<Expr>),
    TupleLiteral(Vec<Expr>),
    ArrayRepeat(Box<Expr>, u64),
    FieldAccess(Box<Expr>, String, Option<FieldLocation>),
    TupleIndex(Box<Expr>, u64),
    UnaryOp(UnaryOp, Box<Expr>),
    Ref(bool, Box<Expr>),
    Deref(Box<Expr>),
    BinOp(BinOp, Box<Expr>, Box<Expr>),
    Assign(Box<Expr>, Box<Expr>),
    Range(Box<Expr>, Box<Expr>),
    Call(Box<Expr>, Vec<Expr>, Option<CallTarget>),
    MethodCall(Box<Expr>, String, Vec<Expr>, Option<ReceiverMode>, MethodCallTarget),
    Try(TryExpr),
    StructLiteral(String, Option<DefId>, Vec<StructLiteralField>),
    EnumVariant(String, String, Vec<Expr>, Option<VariantLocation>),
    If { condition: Box<Expr>, then_branch: Block, else_branch: Option<Block> },
    Match { scrutinee: Box<Expr>, arms: Vec<MatchArm> },
    While { condition: Box<Expr>, body: Block },
    For { local_id: LocalId, iter: Box<Expr>, body: Block },
    Loop(Block),
    Block(Block),
    Lambda { params: Vec<Param>, body: Block, captures: Vec<Capture> },
    Cast(Box<Expr>, Type),
    Intrinsic { name: String, args: Vec<Expr> },
}

/// A typed expression.
#[derive(Debug)]
pub struct Expr {
    pub kind: ExprKind,
    pub ty: Type,
}

/// A statement.
#[derive(Debug)]
pub enum Stmt {
    Let { name: String, local_id: LocalId, ty: Type, value: Expr, mutable: bool },
    Expr(Expr),
    Return(Option<Expr>),
    Break(Option<Expr>),
    Continue,
}

/// A block: its statements and its type.
#[derive(Debug)]
pub struct Block {
    pub stmts: Vec<Stmt>,
    pub ty: Type,
}

/// A function with its body.
#[derive(Debug)]
pub struct Function {
    pub id: DefId,
    pub name: String,
    pub generic_params: Vec<GenericParamDecl>,
    pub generic_bounds: GenericBounds,
    pub params: Vec<Param>,
    pub ret_type: Type,
    pub body: Block,
    pub is_curried: bool,
    pub is_method: bool,
    pub self_receiver: Option<ReceiverMode>,
    pub is_unsafe: bool,
}

/// What an impl is written for.
#[derive(Debug)]
pub enum ImplOwner {
    Named(String),
    Anonymous,
}

/// An associated type bound by an impl.
#[derive(Debug)]
pub struct AssociatedTypeImpl {
    pub id: crate::ids::AssocTypeId,
    pub name: String,
    pub ty: Type,
}

/// An impl with method bodies.
#[derive(Debug)]
pub struct Impl {
    pub id: DefId,
    pub owner: ImplOwner,
    pub self_name: String,
    pub type_generics: Vec<GenericParamDecl>,
    pub receiver_pattern: ImplReceiverPattern,
    pub trait_name: Option<String>,
    pub trait_id: Option<DefId>,
    pub trait_generics: Vec<GenericParamDecl>,
    pub trait_arg_types: Vec<Type>,
    pub associated_types: Vec<AssociatedTypeImpl>,
    pub bounds: GenericBounds,
    pub methods: Vec<(String, Function)>,
}

impl MethodCallTarget {
    /// An impl method selection with no owner substitution.
    pub fn impl_method(impl_id: DefId, method_id: DefId, selected_trait: Option<SelectedTraitMember>) -> (r: MethodCallTarget)
        ensures
            r.target == (SelectedMethodTarget::ImplMethod { impl_id, method_id, selected_trait }),
            r.owner_substitution@.len() == 0,
    {
        MethodCallTarget { target: SelectedMethodTarget::ImplMethod { impl_id, method_id, selected_trait }, owner_substitution: Vec::new() }
    }

    /// A trait method selection with no owner substitution.
    pub fn trait_method(trait_id: DefId, member_id: DefId, trait_args: Vec<Type>, dispatch: TraitDispatchKind) -> (r: MethodCallTarget)
        ensures
            r.target == (SelectedMethodTarget::TraitMethod { trait_id, member_id, trait_args, dispatch }),
            r.owner_substitution@.len() == 0,
    {
        MethodCallTarget { target: SelectedMethodTarget::TraitMethod { trait_id, member_id, trait_args, dispatch }, owner_substitution: Vec::new() }
    }

    /// The method the selection calls: the impl method, or the trait member.
    pub open spec fn spec_method_id(self) -> Option<DefId> {
        match self.target {
            SelectedMethodTarget::ImplMethod { method_id, .. } => Some(method_id),
            SelectedMethodTarget::TraitMethod { member_id, .. } => Some(member_id),
        }
    }

    pub fn method_id(&self) -> (r: Option<DefId>)
        ensures
            r == self.spec_method_id(),
    {
        match &self.target {
            SelectedMethodTarget::ImplMethod { method_id, .. } => Some(*method_id),
            SelectedMethodTarget::TraitMethod { member_id, .. } => Some(*member_id),
        }
    }
}

} // verus!
