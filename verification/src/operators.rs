//! Which SPIR-V operation computes which operator of the shader.

use vstd::prelude::*;
use crate::ir::{
    BinaryOperator, Bytes, DerivativeAxis, MathFunction, RelationalFunction, ScalarKind, TypeInner,
    UnaryOperator,
};
use crate::run::Error;

verus! {

/// How many indices a component of a value takes.
#[derive(Clone, Copy, Debug, PartialEq, Eq, Structural)]
pub enum Dimension {
    Scalar,
    Vector,
    Matrix,
}

/// The dimension of a type. Only scalars, vectors and matrices have one.
pub open spec fn dimension(inner: TypeInner) -> Option<Dimension> {
    match inner {
        TypeInner::Scalar { .. } => Some(Dimension::Scalar),
        TypeInner::Vector { .. } => Some(Dimension::Vector),
        TypeInner::Matrix { .. } => Some(Dimension::Matrix),
        _ => None,
    }
}

/// The dimension of a scalar, vector or matrix type.
pub fn get_dimension(type_inner: &TypeInner) -> (result: Dimension)
    requires
        dimension(*type_inner) is Some,
    ensures
        dimension(*type_inner) == Some(result),
{
    match *type_inner {
        TypeInner::Scalar { .. } => Dimension::Scalar,
        TypeInner::Vector { .. } => Dimension::Vector,
        TypeInner::Matrix { .. } => Dimension::Matrix,
        _ => vstd::pervasive::unreached(),
    }
}

/// The opcode of a unary operator on operands of some kind. Unsigned integers
/// cannot be negated, nor can values that are not numbers or booleans.
pub open spec fn unary_opcode(op: UnaryOperator, kind: Option<ScalarKind>) -> Option<spirv::Op> {
    match (op, kind) {
        (UnaryOperator::Negate, Some(ScalarKind::Float)) => Some(spirv::Op::FNegate),
        (UnaryOperator::Negate, Some(ScalarKind::Sint)) => Some(spirv::Op::SNegate),
        (UnaryOperator::Negate, Some(ScalarKind::Bool)) => Some(spirv::Op::LogicalNot),
        (UnaryOperator::Negate, _) => None,
        (UnaryOperator::Not, Some(ScalarKind::Bool)) => Some(spirv::Op::LogicalNot),
        (UnaryOperator::Not, _) => Some(spirv::Op::Not),
    }
}

/// The opcode of a unary operator on operands of some kind, if there is one.
pub fn unary_op(op: UnaryOperator, kind: Option<ScalarKind>) -> (opcode: Option<spirv::Op>)
    ensures
        opcode == unary_opcode(op, kind),
{
    match op {
        UnaryOperator::Negate => match kind {
            Some(ScalarKind::Float) => Some(spirv::Op::FNegate),
            Some(ScalarKind::Sint) => Some(spirv::Op::SNegate),
            Some(ScalarKind::Bool) => Some(spirv::Op::LogicalNot),
            Some(ScalarKind::Uint) | None => None,
        },
        UnaryOperator::Not => match kind {
            Some(ScalarKind::Bool) => Some(spirv::Op::LogicalNot),
            _ => Some(spirv::Op::Not),
        },
    }
}

/// One of three opcodes, for signed, unsigned and floating-point operands.
pub open spec fn by_kind(
    kind: Option<ScalarKind>,
    sint: spirv::Op,
    uint: spirv::Op,
    float: spirv::Op,
) -> Option<spirv::Op> {
    match kind {
        Some(ScalarKind::Sint) => Some(sint),
        Some(ScalarKind::Uint) => Some(uint),
        Some(ScalarKind::Float) => Some(float),
        _ => None,
    }
}

/// One of two opcodes for a sum or a difference, for floating-point and other
/// operands. Matrices have neither.
pub open spec fn additive(left: TypeInner, float: spirv::Op, other: spirv::Op) -> Option<
    spirv::Op,
> {
    match left {
        TypeInner::Scalar { kind: ScalarKind::Float, .. } => Some(float),
        TypeInner::Vector { kind: ScalarKind::Float, .. } => Some(float),
        TypeInner::Scalar { .. } | TypeInner::Vector { .. } => Some(other),
        _ => None,
    }
}

/// The opcode of a product. A scalar times a matrix has none.
pub open spec fn product(left: TypeInner, right: TypeInner) -> Option<spirv::Op> {
    match (dimension(left), dimension(right)) {
        (Some(Dimension::Scalar), Some(Dimension::Vector)) => Some(spirv::Op::VectorTimesScalar),
        (Some(Dimension::Vector), Some(Dimension::Scalar)) => Some(spirv::Op::VectorTimesScalar),
        (Some(Dimension::Vector), Some(Dimension::Matrix)) => Some(spirv::Op::VectorTimesMatrix),
        (Some(Dimension::Matrix), Some(Dimension::Scalar)) => Some(spirv::Op::MatrixTimesScalar),
        (Some(Dimension::Matrix), Some(Dimension::Vector)) => Some(spirv::Op::MatrixTimesVector),
        (Some(Dimension::Matrix), Some(Dimension::Matrix)) => Some(spirv::Op::MatrixTimesMatrix),
        (Some(Dimension::Vector), Some(Dimension::Vector))
        | (Some(Dimension::Scalar), Some(Dimension::Scalar)) => if left.scalar_kind() == Some(
            ScalarKind::Float,
        ) {
            Some(spirv::Op::FMul)
        } else {
            Some(spirv::Op::IMul)
        },
        _ => None,
    }
}

/// The opcode of a binary operator.
///
/// There is none for operands that are not scalars, vectors or matrices, nor
/// for an operator that has no meaning for the kind of its left operand.
pub open spec fn binary_opcode(op: BinaryOperator, left: TypeInner, right: TypeInner) -> Option<
    spirv::Op,
> {
    let kind = left.scalar_kind();
    if dimension(left) is None || dimension(right) is None {
        None
    } else {
        match op {
            BinaryOperator::Add => additive(left, spirv::Op::FAdd, spirv::Op::IAdd),
            BinaryOperator::Subtract => additive(left, spirv::Op::FSub, spirv::Op::ISub),
            BinaryOperator::Multiply => product(left, right),
            BinaryOperator::Divide => by_kind(
                kind,
                spirv::Op::SDiv,
                spirv::Op::UDiv,
                spirv::Op::FDiv,
            ),
            BinaryOperator::Modulo => by_kind(
                kind,
                spirv::Op::SMod,
                spirv::Op::UMod,
                spirv::Op::FMod,
            ),
            BinaryOperator::Equal => if kind == Some(ScalarKind::Bool) {
                Some(spirv::Op::LogicalEqual)
            } else {
                by_kind(kind, spirv::Op::IEqual, spirv::Op::IEqual, spirv::Op::FOrdEqual)
            },
            BinaryOperator::NotEqual => if kind == Some(ScalarKind::Bool) {
                Some(spirv::Op::LogicalNotEqual)
            } else {
                by_kind(kind, spirv::Op::INotEqual, spirv::Op::INotEqual, spirv::Op::FOrdNotEqual)
            },
            BinaryOperator::Less => by_kind(
                kind,
                spirv::Op::SLessThan,
                spirv::Op::ULessThan,
                spirv::Op::FOrdLessThan,
            ),
            BinaryOperator::LessEqual => by_kind(
                kind,
                spirv::Op::SLessThanEqual,
                spirv::Op::ULessThanEqual,
                spirv::Op::FOrdLessThanEqual,
            ),
            BinaryOperator::Greater => by_kind(
                kind,
                spirv::Op::SGreaterThan,
                spirv::Op::UGreaterThan,
                spirv::Op::FOrdGreaterThan,
            ),
            BinaryOperator::GreaterEqual => by_kind(
                kind,
                spirv::Op::SGreaterThanEqual,
                spirv::Op::UGreaterThanEqual,
                spirv::Op::FOrdGreaterThanEqual,
            ),
            BinaryOperator::And => Some(spirv::Op::BitwiseAnd),
            BinaryOperator::ExclusiveOr => Some(spirv::Op::BitwiseXor),
            BinaryOperator::InclusiveOr => Some(spirv::Op::BitwiseOr),
            BinaryOperator::LogicalAnd => Some(spirv::Op::LogicalAnd),
            BinaryOperator::LogicalOr => Some(spirv::Op::LogicalOr),
            BinaryOperator::ShiftLeft => Some(spirv::Op::ShiftLeftLogical),
            BinaryOperator::ShiftRight => match kind {
                Some(ScalarKind::Sint) => Some(spirv::Op::ShiftRightArithmetic),
                Some(ScalarKind::Uint) => Some(spirv::Op::ShiftRightLogical),
                _ => None,
            },
        }
    }
}

/// Whether a binary operation takes its operands in order. Only a scalar
/// times a vector does not: it is written as the vector times the scalar.
pub open spec fn keeps_order(op: BinaryOperator, left: TypeInner, right: TypeInner) -> bool {
    !(op == BinaryOperator::Multiply && dimension(left) == Some(Dimension::Scalar) && dimension(
        right,
    ) == Some(Dimension::Vector))
}

/// One of three opcodes, for signed, unsigned and floating-point operands.
fn pick(
    kind: Option<ScalarKind>,
    sint: spirv::Op,
    uint: spirv::Op,
    float: spirv::Op,
) -> (opcode: spirv::Op)
    requires
        by_kind(kind, sint, uint, float) is Some,
    ensures
        by_kind(kind, sint, uint, float) == Some(opcode),
{
    match kind {
        Some(ScalarKind::Sint) => sint,
        Some(ScalarKind::Uint) => uint,
        Some(ScalarKind::Float) => float,
        _ => vstd::pervasive::unreached(),
    }
}

/// The opcode of a binary operator, and whether it takes its operands in
/// order.
pub fn binary_op(op: BinaryOperator, left: TypeInner, right: TypeInner) -> (result: (
    spirv::Op,
    bool,
))
    requires
        binary_opcode(op, left, right) is Some,
    ensures
        binary_opcode(op, left, right) == Some(result.0),
        result.1 == keeps_order(op, left, right),
{
    let left_dimension = get_dimension(&left);
    let right_dimension = get_dimension(&right);
    let kind = left.scalar_kind();
    let mut preserve_order = true;
    let opcode = match op {
        BinaryOperator::Add => match left {
            TypeInner::Scalar { kind, .. } | TypeInner::Vector { kind, .. } => match kind {
                ScalarKind::Float => spirv::Op::FAdd,
                _ => spirv::Op::IAdd,
            },
            _ => vstd::pervasive::unreached(),
        },
        BinaryOperator::Subtract => match left {
            TypeInner::Scalar { kind, .. } | TypeInner::Vector { kind, .. } => match kind {
                ScalarKind::Float => spirv::Op::FSub,
                _ => spirv::Op::ISub,
            },
            _ => vstd::pervasive::unreached(),
        },
        BinaryOperator::Multiply => match (left_dimension, right_dimension) {
            (Dimension::Scalar, Dimension::Vector) => {
                preserve_order = false;
                spirv::Op::VectorTimesScalar
            },
            (Dimension::Vector, Dimension::Scalar) => spirv::Op::VectorTimesScalar,
            (Dimension::Vector, Dimension::Matrix) => spirv::Op::VectorTimesMatrix,
            (Dimension::Matrix, Dimension::Scalar) => spirv::Op::MatrixTimesScalar,
            (Dimension::Matrix, Dimension::Vector) => spirv::Op::MatrixTimesVector,
            (Dimension::Matrix, Dimension::Matrix) => spirv::Op::MatrixTimesMatrix,
            (Dimension::Vector, Dimension::Vector) | (Dimension::Scalar, Dimension::Scalar) => {
                match kind {
                    Some(ScalarKind::Float) => spirv::Op::FMul,
                    _ => spirv::Op::IMul,
                }
            },
            (Dimension::Scalar, Dimension::Matrix) => vstd::pervasive::unreached(),
        },
        BinaryOperator::Divide => pick(kind, spirv::Op::SDiv, spirv::Op::UDiv, spirv::Op::FDiv),
        BinaryOperator::Modulo => pick(kind, spirv::Op::SMod, spirv::Op::UMod, spirv::Op::FMod),
        BinaryOperator::Equal => match kind {
            Some(ScalarKind::Bool) => spirv::Op::LogicalEqual,
            _ => pick(kind, spirv::Op::IEqual, spirv::Op::IEqual, spirv::Op::FOrdEqual),
        },
        BinaryOperator::NotEqual => match kind {
            Some(ScalarKind::Bool) => spirv::Op::LogicalNotEqual,
            _ => pick(kind, spirv::Op::INotEqual, spirv::Op::INotEqual, spirv::Op::FOrdNotEqual),
        },
        BinaryOperator::Less => pick(
            kind,
            spirv::Op::SLessThan,
            spirv::Op::ULessThan,
            spirv::Op::FOrdLessThan,
        ),
        BinaryOperator::LessEqual => pick(
            kind,
            spirv::Op::SLessThanEqual,
            spirv::Op::ULessThanEqual,
            spirv::Op::FOrdLessThanEqual,
        ),
        BinaryOperator::Greater => pick(
            kind,
            spirv::Op::SGreaterThan,
            spirv::Op::UGreaterThan,
            spirv::Op::FOrdGreaterThan,
        ),
        BinaryOperator::GreaterEqual => pick(
            kind,
            spirv::Op::SGreaterThanEqual,
            spirv::Op::UGreaterThanEqual,
            spirv::Op::FOrdGreaterThanEqual,
        ),
        BinaryOperator::And => spirv::Op::BitwiseAnd,
        BinaryOperator::ExclusiveOr => spirv::Op::BitwiseXor,
        BinaryOperator::InclusiveOr => spirv::Op::BitwiseOr,
        BinaryOperator::LogicalAnd => spirv::Op::LogicalAnd,
        BinaryOperator::LogicalOr => spirv::Op::LogicalOr,
        BinaryOperator::ShiftLeft => spirv::Op::ShiftLeftLogical,
        BinaryOperator::ShiftRight => match kind {
            Some(ScalarKind::Sint) => spirv::Op::ShiftRightArithmetic,
            Some(ScalarKind::Uint) => spirv::Op::ShiftRightLogical,
            _ => vstd::pervasive::unreached(),
        },
    };
    (opcode, preserve_order)
}

/// The instruction that computes a math function.
#[derive(Clone, Copy, Debug)]
pub enum MathOp {
    /// An instruction of `GLSL.std.450`.
    Ext(spirv::GLOp),
    /// An instruction that takes the first argument.
    Unary(spirv::Op),
    /// An instruction that takes the first two arguments.
    Binary(spirv::Op),
}

/// One of three extended instructions, for signed, unsigned and
/// floating-point arguments.
pub open spec fn ext_by_kind(
    kind: Option<ScalarKind>,
    sint: spirv::GLOp,
    uint: spirv::GLOp,
    float: spirv::GLOp,
) -> Option<Result<MathOp, Error>> {
    match kind {
        Some(ScalarKind::Sint) => Some(Ok(MathOp::Ext(sint))),
        Some(ScalarKind::Uint) => Some(Ok(MathOp::Ext(uint))),
        Some(ScalarKind::Float) => Some(Ok(MathOp::Ext(float))),
        _ => None,
    }
}

/// The instruction that computes a math function whose first argument is of
/// some kind. Counting and reversing bits is not supported; the functions that
/// depend on the kind have no meaning for booleans, and the sign has none for
/// unsigned integers.
pub open spec fn math_opcode(fun: MathFunction, kind: Option<ScalarKind>) -> Option<
    Result<MathOp, Error>,
> {
    match fun {
        MathFunction::Abs => match kind {
            Some(ScalarKind::Float) => Some(Ok(MathOp::Ext(spirv::GLOp::FAbs))),
            Some(ScalarKind::Sint) => Some(Ok(MathOp::Ext(spirv::GLOp::SAbs))),
            Some(ScalarKind::Uint) => Some(Ok(MathOp::Unary(spirv::Op::CopyObject))),
            _ => None,
        },
        MathFunction::Min => ext_by_kind(
            kind,
            spirv::GLOp::SMin,
            spirv::GLOp::UMin,
            spirv::GLOp::FMin,
        ),
        MathFunction::Max => ext_by_kind(
            kind,
            spirv::GLOp::SMax,
            spirv::GLOp::UMax,
            spirv::GLOp::FMax,
        ),
        MathFunction::Clamp => ext_by_kind(
            kind,
            spirv::GLOp::SClamp,
            spirv::GLOp::UClamp,
            spirv::GLOp::FClamp,
        ),
        MathFunction::Sin => Some(Ok(MathOp::Ext(spirv::GLOp::Sin))),
        MathFunction::Sinh => Some(Ok(MathOp::Ext(spirv::GLOp::Sinh))),
        MathFunction::Asin => Some(Ok(MathOp::Ext(spirv::GLOp::Asin))),
        MathFunction::Cos => Some(Ok(MathOp::Ext(spirv::GLOp::Cos))),
        MathFunction::Cosh => Some(Ok(MathOp::Ext(spirv::GLOp::Cosh))),
        MathFunction::Acos => Some(Ok(MathOp::Ext(spirv::GLOp::Acos))),
        MathFunction::Tan => Some(Ok(MathOp::Ext(spirv::GLOp::Tan))),
        MathFunction::Tanh => Some(Ok(MathOp::Ext(spirv::GLOp::Tanh))),
        MathFunction::Atan => Some(Ok(MathOp::Ext(spirv::GLOp::Atan))),
        MathFunction::Atan2 => Some(Ok(MathOp::Ext(spirv::GLOp::Atan2))),
        MathFunction::Ceil => Some(Ok(MathOp::Ext(spirv::GLOp::Ceil))),
        MathFunction::Round => Some(Ok(MathOp::Ext(spirv::GLOp::Round))),
        MathFunction::Floor => Some(Ok(MathOp::Ext(spirv::GLOp::Floor))),
        MathFunction::Fract => Some(Ok(MathOp::Ext(spirv::GLOp::Fract))),
        MathFunction::Trunc => Some(Ok(MathOp::Ext(spirv::GLOp::Trunc))),
        MathFunction::Modf => Some(Ok(MathOp::Ext(spirv::GLOp::Modf))),
        MathFunction::Frexp => Some(Ok(MathOp::Ext(spirv::GLOp::Frexp))),
        MathFunction::Ldexp => Some(Ok(MathOp::Ext(spirv::GLOp::Ldexp))),
        MathFunction::Dot => Some(Ok(MathOp::Binary(spirv::Op::Dot))),
        MathFunction::Outer => Some(Ok(MathOp::Binary(spirv::Op::OuterProduct))),
        MathFunction::Cross => Some(Ok(MathOp::Ext(spirv::GLOp::Cross))),
        MathFunction::Distance => Some(Ok(MathOp::Ext(spirv::GLOp::Distance))),
        MathFunction::Length => Some(Ok(MathOp::Ext(spirv::GLOp::Length))),
        MathFunction::Normalize => Some(Ok(MathOp::Ext(spirv::GLOp::Normalize))),
        MathFunction::FaceForward => Some(Ok(MathOp::Ext(spirv::GLOp::FaceForward))),
        MathFunction::Reflect => Some(Ok(MathOp::Ext(spirv::GLOp::Reflect))),
        MathFunction::Refract => Some(Ok(MathOp::Ext(spirv::GLOp::Refract))),
        MathFunction::Exp => Some(Ok(MathOp::Ext(spirv::GLOp::Exp))),
        MathFunction::Exp2 => Some(Ok(MathOp::Ext(spirv::GLOp::Exp2))),
        MathFunction::Log => Some(Ok(MathOp::Ext(spirv::GLOp::Log))),
        MathFunction::Log2 => Some(Ok(MathOp::Ext(spirv::GLOp::Log2))),
        MathFunction::Pow => Some(Ok(MathOp::Ext(spirv::GLOp::Pow))),
        MathFunction::Sign => match kind {
            Some(ScalarKind::Float) => Some(Ok(MathOp::Ext(spirv::GLOp::FSign))),
            Some(ScalarKind::Sint) => Some(Ok(MathOp::Ext(spirv::GLOp::SSign))),
            _ => None,
        },
        MathFunction::Fma => Some(Ok(MathOp::Ext(spirv::GLOp::Fma))),
        MathFunction::Mix => Some(Ok(MathOp::Ext(spirv::GLOp::FMix))),
        MathFunction::Step => Some(Ok(MathOp::Ext(spirv::GLOp::Step))),
        MathFunction::SmoothStep => Some(Ok(MathOp::Ext(spirv::GLOp::SmoothStep))),
        MathFunction::Sqrt => Some(Ok(MathOp::Ext(spirv::GLOp::Sqrt))),
        MathFunction::InverseSqrt => Some(Ok(MathOp::Ext(spirv::GLOp::InverseSqrt))),
        MathFunction::Inverse => Some(Ok(MathOp::Ext(spirv::GLOp::MatrixInverse))),
        MathFunction::Transpose => Some(Ok(MathOp::Unary(spirv::Op::Transpose))),
        MathFunction::Determinant => Some(Ok(MathOp::Ext(spirv::GLOp::Determinant))),
        MathFunction::ReverseBits | MathFunction::CountOneBits => Some(
            Err(Error::FeatureNotImplemented("math function")),
        ),
    }
}

/// One of three extended instructions, for signed, unsigned and
/// floating-point arguments.
fn pick_ext(
    kind: Option<ScalarKind>,
    sint: spirv::GLOp,
    uint: spirv::GLOp,
    float: spirv::GLOp,
) -> (result: Result<MathOp, Error>)
    requires
        ext_by_kind(kind, sint, uint, float) is Some,
    ensures
        ext_by_kind(kind, sint, uint, float) == Some(result),
{
    match kind {
        Some(ScalarKind::Sint) => Ok(MathOp::Ext(sint)),
        Some(ScalarKind::Uint) => Ok(MathOp::Ext(uint)),
        Some(ScalarKind::Float) => Ok(MathOp::Ext(float)),
        _ => vstd::pervasive::unreached(),
    }
}

/// The instruction that computes a math function whose first argument is of
/// some kind.
pub fn math_op(fun: MathFunction, kind: Option<ScalarKind>) -> (result: Result<MathOp, Error>)
    requires
        math_opcode(fun, kind) is Some,
    ensures
        math_opcode(fun, kind) == Some(result),
{
    match fun {
        // comparison
        MathFunction::Abs => match kind {
            Some(ScalarKind::Float) => Ok(MathOp::Ext(spirv::GLOp::FAbs)),
            Some(ScalarKind::Sint) => Ok(MathOp::Ext(spirv::GLOp::SAbs)),
            // do nothing
            Some(ScalarKind::Uint) => Ok(MathOp::Unary(spirv::Op::CopyObject)),
            _ => vstd::pervasive::unreached(),
        },
        MathFunction::Min => pick_ext(
            kind,
            spirv::GLOp::SMin,
            spirv::GLOp::UMin,
            spirv::GLOp::FMin,
        ),
        MathFunction::Max => pick_ext(
            kind,
            spirv::GLOp::SMax,
            spirv::GLOp::UMax,
            spirv::GLOp::FMax,
        ),
        MathFunction::Clamp => pick_ext(
            kind,
            spirv::GLOp::SClamp,
            spirv::GLOp::UClamp,
            spirv::GLOp::FClamp,
        ),
        // trigonometry
        MathFunction::Sin => Ok(MathOp::Ext(spirv::GLOp::Sin)),
        MathFunction::Sinh => Ok(MathOp::Ext(spirv::GLOp::Sinh)),
        MathFunction::Asin => Ok(MathOp::Ext(spirv::GLOp::Asin)),
        MathFunction::Cos => Ok(MathOp::Ext(spirv::GLOp::Cos)),
        MathFunction::Cosh => Ok(MathOp::Ext(spirv::GLOp::Cosh)),
        MathFunction::Acos => Ok(MathOp::Ext(spirv::GLOp::Acos)),
        MathFunction::Tan => Ok(MathOp::Ext(spirv::GLOp::Tan)),
        MathFunction::Tanh => Ok(MathOp::Ext(spirv::GLOp::Tanh)),
        MathFunction::Atan => Ok(MathOp::Ext(spirv::GLOp::Atan)),
        MathFunction::Atan2 => Ok(MathOp::Ext(spirv::GLOp::Atan2)),
        // decomposition
        MathFunction::Ceil => Ok(MathOp::Ext(spirv::GLOp::Ceil)),
        MathFunction::Round => Ok(MathOp::Ext(spirv::GLOp::Round)),
        MathFunction::Floor => Ok(MathOp::Ext(spirv::GLOp::Floor)),
        MathFunction::Fract => Ok(MathOp::Ext(spirv::GLOp::Fract)),
        MathFunction::Trunc => Ok(MathOp::Ext(spirv::GLOp::Trunc)),
        MathFunction::Modf => Ok(MathOp::Ext(spirv::GLOp::Modf)),
        MathFunction::Frexp => Ok(MathOp::Ext(spirv::GLOp::Frexp)),
        MathFunction::Ldexp => Ok(MathOp::Ext(spirv::GLOp::Ldexp)),
        // geometry
        MathFunction::Dot => Ok(MathOp::Binary(spirv::Op::Dot)),
        MathFunction::Outer => Ok(MathOp::Binary(spirv::Op::OuterProduct)),
        MathFunction::Cross => Ok(MathOp::Ext(spirv::GLOp::Cross)),
        MathFunction::Distance => Ok(MathOp::Ext(spirv::GLOp::Distance)),
        MathFunction::Length => Ok(MathOp::Ext(spirv::GLOp::Length)),
        MathFunction::Normalize => Ok(MathOp::Ext(spirv::GLOp::Normalize)),
        MathFunction::FaceForward => Ok(MathOp::Ext(spirv::GLOp::FaceForward)),
        MathFunction::Reflect => Ok(MathOp::Ext(spirv::GLOp::Reflect)),
        MathFunction::Refract => Ok(MathOp::Ext(spirv::GLOp::Refract)),
        // exponent
        MathFunction::Exp => Ok(MathOp::Ext(spirv::GLOp::Exp)),
        MathFunction::Exp2 => Ok(MathOp::Ext(spirv::GLOp::Exp2)),
        MathFunction::Log => Ok(MathOp::Ext(spirv::GLOp::Log)),
        MathFunction::Log2 => Ok(MathOp::Ext(spirv::GLOp::Log2)),
        MathFunction::Pow => Ok(MathOp::Ext(spirv::GLOp::Pow)),
        // computational
        MathFunction::Sign => match kind {
            Some(ScalarKind::Float) => Ok(MathOp::Ext(spirv::GLOp::FSign)),
            Some(ScalarKind::Sint) => Ok(MathOp::Ext(spirv::GLOp::SSign)),
            _ => vstd::pervasive::unreached(),
        },
        MathFunction::Fma => Ok(MathOp::Ext(spirv::GLOp::Fma)),
        MathFunction::Mix => Ok(MathOp::Ext(spirv::GLOp::FMix)),
        MathFunction::Step => Ok(MathOp::Ext(spirv::GLOp::Step)),
        MathFunction::SmoothStep => Ok(MathOp::Ext(spirv::GLOp::SmoothStep)),
        MathFunction::Sqrt => Ok(MathOp::Ext(spirv::GLOp::Sqrt)),
        MathFunction::InverseSqrt => Ok(MathOp::Ext(spirv::GLOp::InverseSqrt)),
        MathFunction::Inverse => Ok(MathOp::Ext(spirv::GLOp::MatrixInverse)),
        MathFunction::Transpose => Ok(MathOp::Unary(spirv::Op::Transpose)),
        MathFunction::Determinant => Ok(MathOp::Ext(spirv::GLOp::Determinant)),
        MathFunction::ReverseBits | MathFunction::CountOneBits => Err(
            Error::FeatureNotImplemented("math function"),
        ),
    }
}

/// The scalar kind and width that a cast starts from.
pub open spec fn cast_source(inner: TypeInner) -> Option<(ScalarKind, Bytes)> {
    match inner {
        TypeInner::Scalar { kind, width } => Some((kind, width)),
        TypeInner::Vector { kind, width, .. } => Some((kind, width)),
        TypeInner::Matrix { width, .. } => Some((ScalarKind::Float, width)),
        _ => None,
    }
}

/// The opcode of a cast. Without a width the bits are reinterpreted; so they
/// are where the value stays what it is, or changes its signedness only, and
/// where a boolean is involved.
pub open spec fn cast_opcode(
    source: (ScalarKind, Bytes),
    kind: ScalarKind,
    convert: Option<Bytes>,
) -> spirv::Op {
    match (source.0, kind, convert) {
        (ScalarKind::Float, ScalarKind::Uint, Some(_)) => spirv::Op::ConvertFToU,
        (ScalarKind::Float, ScalarKind::Sint, Some(_)) => spirv::Op::ConvertFToS,
        (ScalarKind::Sint, ScalarKind::Float, Some(_)) => spirv::Op::ConvertSToF,
        (ScalarKind::Uint, ScalarKind::Float, Some(_)) => spirv::Op::ConvertUToF,
        (ScalarKind::Float, ScalarKind::Float, Some(width)) if source.1 != width => {
            spirv::Op::FConvert
        },
        (ScalarKind::Sint, ScalarKind::Sint, Some(width)) if source.1 != width => {
            spirv::Op::SConvert
        },
        (ScalarKind::Uint, ScalarKind::Uint, Some(width)) if source.1 != width => {
            spirv::Op::UConvert
        },
        _ => spirv::Op::Bitcast,
    }
}

/// The opcode of a cast, if the source is a scalar, a vector or a matrix.
pub fn cast_op(inner: TypeInner, kind: ScalarKind, convert: Option<Bytes>) -> (opcode: Option<
    spirv::Op,
>)
    ensures
        opcode == (match cast_source(inner) {
            Some(source) => Some(cast_opcode(source, kind, convert)),
            None => None,
        }),
{
    let (src_kind, src_width) = match inner {
        TypeInner::Scalar { kind, width } | TypeInner::Vector { kind, width, size: _ } => (
            kind,
            width,
        ),
        TypeInner::Matrix { width, .. } => (ScalarKind::Float, width),
        _ => {
            return None;
        },
    };
    Some(
        match (src_kind, kind, convert) {
            (_, _, None) => spirv::Op::Bitcast,
            (ScalarKind::Float, ScalarKind::Uint, Some(_)) => spirv::Op::ConvertFToU,
            (ScalarKind::Float, ScalarKind::Sint, Some(_)) => spirv::Op::ConvertFToS,
            (ScalarKind::Float, ScalarKind::Float, Some(dst_width)) if src_width != dst_width => {
                spirv::Op::FConvert
            },
            (ScalarKind::Sint, ScalarKind::Float, Some(_)) => spirv::Op::ConvertSToF,
            (ScalarKind::Sint, ScalarKind::Sint, Some(dst_width)) if src_width != dst_width => {
                spirv::Op::SConvert
            },
            (ScalarKind::Uint, ScalarKind::Float, Some(_)) => spirv::Op::ConvertUToF,
            (ScalarKind::Uint, ScalarKind::Uint, Some(dst_width)) if src_width != dst_width => {
                spirv::Op::UConvert
            },
            // It is either an identity cast, or int-uint.
            _ => spirv::Op::Bitcast,
        },
    )
}

/// The opcode of a derivative.
pub open spec fn derivative_opcode(axis: DerivativeAxis) -> spirv::Op {
    match axis {
        DerivativeAxis::X => spirv::Op::DPdx,
        DerivativeAxis::Y => spirv::Op::DPdy,
        DerivativeAxis::Width => spirv::Op::Fwidth,
    }
}

/// The opcode of a derivative.
pub fn derivative_op(axis: DerivativeAxis) -> (opcode: spirv::Op)
    ensures
        opcode == derivative_opcode(axis),
{
    match axis {
        DerivativeAxis::X => spirv::Op::DPdx,
        DerivativeAxis::Y => spirv::Op::DPdy,
        DerivativeAxis::Width => spirv::Op::Fwidth,
    }
}

/// The opcode of a relational function. Those that need the `Kernel`
/// capability are not supported.
pub open spec fn relational_opcode(fun: RelationalFunction) -> Option<spirv::Op> {
    match fun {
        RelationalFunction::All => Some(spirv::Op::All),
        RelationalFunction::Any => Some(spirv::Op::Any),
        RelationalFunction::IsNan => Some(spirv::Op::IsNan),
        RelationalFunction::IsInf => Some(spirv::Op::IsInf),
        RelationalFunction::IsFinite | RelationalFunction::IsNormal => None,
    }
}

/// The opcode of a relational function, if it is supported.
pub fn relational_op(fun: RelationalFunction) -> (opcode: Option<spirv::Op>)
    ensures
        opcode == relational_opcode(fun),
{
    match fun {
        RelationalFunction::All => Some(spirv::Op::All),
        RelationalFunction::Any => Some(spirv::Op::Any),
        RelationalFunction::IsNan => Some(spirv::Op::IsNan),
        RelationalFunction::IsInf => Some(spirv::Op::IsInf),
        RelationalFunction::IsFinite | RelationalFunction::IsNormal => None,
    }
}

} // verus!
