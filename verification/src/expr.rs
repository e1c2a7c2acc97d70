//! The typed expression tree that the front end hands to the lowering engine,
//! the variable table that accompanies it, and the error taxonomy.
//!
//! Every node carries a stable identity and a source location.  The operator
//! and method sets are closed: each variant the engine accepts has exactly one
//! lowering, and a method call the backend does not lower carries no method
//! tag and is passed through untouched.

use vstd::prelude::*;
use crate::pool::InternalError;

verus! {

/// A binary operator, including the compound-assignment uses of the
/// arithmetic ones.  The short-circuit boolean operators never reach the
/// backend: width inference requires both operands to be big-integer typed.
#[derive(Clone, Copy, Debug, PartialEq, Eq, Structural)]
pub enum BinOp {
    Add,
    Sub,
    Mul,
    Div,
    Rem,
    Xor,
    And,
    Or,
    Shl,
    Shr,
    Eq,
    Lt,
    Le,
    Ne,
    Ge,
    Gt,
}

impl BinOp {
    /// Operators whose lowering produces a mask and a scalar boolean.
    pub open spec fn spec_is_compare(&self) -> bool {
        match *self {
            BinOp::Eq | BinOp::Lt | BinOp::Le | BinOp::Ne | BinOp::Ge | BinOp::Gt => true,
            _ => false,
        }
    }

    /// Executable form of `spec_is_compare`.
    pub fn is_compare(&self) -> (r: bool)
        ensures
            r == self.spec_is_compare(),
    {
        match *self {
            BinOp::Eq | BinOp::Lt | BinOp::Le | BinOp::Ne | BinOp::Ge | BinOp::Gt => true,
            _ => false,
        }
    }
}

/// A big-integer helper method the backend lowers.  Each variant has exactly
/// one argument and one recipe.
#[derive(Clone, Copy, Debug, PartialEq, Eq, Structural)]
pub enum MethodOp {
    WrappingAdd,
    WrappingSub,
    WrappingMul,
    WrappingDiv,
    WrappingRem,
    OverflowingAdd,
    OverflowingSub,
    OverflowingMul,
    CheckedAdd,
    CheckedSub,
    CheckedMul,
    CheckedDiv,
    CheckedRem,
    SaturatingAdd,
    SaturatingSub,
    SaturatingMul,
}

/// The static type of an expression or variable, as far as the backend cares:
/// one of the three supported big-integer widths, or anything else.
#[derive(Clone, Copy, Debug, PartialEq, Eq, Structural)]
pub enum UintTy {
    U256,
    U512,
    U1024,
    Other,
}

impl UintTy {
    /// The bit width of a supported type, 0 otherwise.
    pub open spec fn spec_width(&self) -> u16 {
        match *self {
            UintTy::U256 => 256,
            UintTy::U512 => 512,
            UintTy::U1024 => 1024,
            UintTy::Other => 0,
        }
    }

    /// Executable form of `spec_width`.
    pub fn width(&self) -> (r: u16)
        ensures
            r == self.spec_width(),
    {
        match *self {
            UintTy::U256 => 256,
            UintTy::U512 => 512,
            UintTy::U1024 => 1024,
            UintTy::Other => 0,
        }
    }
}

/// The shape of one expression node.
#[derive(Debug)]
pub enum ExprKind {
    /// `left = right`.
    Assign { left: Box<TypedExpr>, right: Box<TypedExpr> },
    /// `left op= right`.
    AssignOp { op: BinOp, left: Box<TypedExpr>, right: Box<TypedExpr> },
    /// `left op right`.
    Binary { op: BinOp, left: Box<TypedExpr>, right: Box<TypedExpr> },
    /// `receiver.method(arg)`; `method` is `None` for a call the backend does
    /// not lower, which passes through untouched.
    MethodCall { method: Option<MethodOp>, receiver: Box<TypedExpr>, arg: Box<TypedExpr> },
    /// A parenthesized sub-expression.
    Paren { inner: Box<TypedExpr> },
    /// A bare variable reference, by index into the variable table.
    Var { var: usize },
    /// Any other expression: the backend leaves it to the host language.
    Opaque,
}

/// One node of the typed expression tree.
#[derive(Debug)]
pub struct TypedExpr {
    /// Stable identity assigned by the front end.
    pub id: usize,
    /// Opaque source-location token for diagnostics.
    pub span: u64,
    /// The node's static type.
    pub ty: UintTy,
    pub kind: ExprKind,
}

/// One entry of the variable table the front end supplies.
#[derive(Clone, Copy, Debug)]
pub struct Variable {
    pub ty: UintTy,
    /// The id of the last expression that reads this variable; its register
    /// is reclaimed once lowering passes this id.
    pub end_expr_id: usize,
    /// Whether the variable is read at all.
    pub used: bool,
}

/// A function argument to preload, by variable index.
#[derive(Clone, Copy, Debug)]
pub struct FnArg {
    pub var: usize,
    pub span: u64,
}

/// A mistake in the user's expression: reported with its source location and
/// never fatal to the build pipeline itself.
#[derive(Clone, Copy, Debug, PartialEq, Eq, Structural)]
pub enum UserErrorKind {
    /// An expression shape the backend cannot lower in this position.
    InvalidExpression,
    /// A compound assignment nested below the top level of a statement.
    NestedAssignOp,
    /// The two operands have distinct supported big-integer widths.
    WidthMismatch,
    /// The register pool is exhausted.
    OutOfRegisters,
}

/// A user-level diagnostic: a source location and what went wrong there.
#[derive(Clone, Copy, Debug, PartialEq, Eq, Structural)]
pub struct UserError {
    pub span: u64,
    pub kind: UserErrorKind,
}

/// Everything that can stop a lowering pass.
#[derive(Clone, Copy, Debug, PartialEq, Eq, Structural)]
pub enum CodegenError {
    /// Reported to the user as a compile diagnostic.
    User(UserError),
    /// An engine bug: stops the pass at once.
    Internal(InternalError),
}

/// Every expression id lies below `n_exprs` and every variable index below
/// `n_vars`.
pub open spec fn expr_bounded(e: TypedExpr, n_exprs: int, n_vars: int) -> bool
    decreases e,
{
    e.id < n_exprs && match e.kind {
        ExprKind::Assign { left, right } => expr_bounded(*left, n_exprs, n_vars) && expr_bounded(
            *right,
            n_exprs,
            n_vars,
        ),
        ExprKind::AssignOp { op, left, right } => expr_bounded(*left, n_exprs, n_vars)
            && expr_bounded(*right, n_exprs, n_vars),
        ExprKind::Binary { op, left, right } => expr_bounded(*left, n_exprs, n_vars)
            && expr_bounded(*right, n_exprs, n_vars),
        ExprKind::MethodCall { method, receiver, arg } => expr_bounded(*receiver, n_exprs, n_vars)
            && expr_bounded(*arg, n_exprs, n_vars),
        ExprKind::Paren { inner } => expr_bounded(*inner, n_exprs, n_vars),
        ExprKind::Var { var } => var < n_vars,
        ExprKind::Opaque => true,
    }
}

} // verus!
