//! What the instructions of an expression compute.

use spirv::Word;
use vstd::prelude::*;
use crate::context::{Env, State};
use crate::expression::{
    access_index_value_run, binary_run, cache_run, cast_run, compose_run, condition_run, math_run,
    one_operand_run, relational_run, select_run, splat_run, swizzle_run, unary_run, value_run,
};
use crate::growth::holds;
use crate::instruction::Inst;
use crate::ir::{
    BinaryOperator, Bytes, DerivativeAxis, ExprHandle, Expression, MathFunction,
    RelationalFunction, ScalarKind, SwizzleComponent, TypeHandle, TypeInner, TypeResolution,
    UnaryOperator, VectorSize,
};
use crate::laws::{lemma_type_error, lemma_type_found};
use crate::meaning::{
    components, computes_by, evaluates, id_of, incapable, is_id_of, is_type_id, is_type_of,
    kind_of, numbers, put_off, shape, untouched, value_inst,
};
use crate::operators::{dimension, math_opcode, Dimension, MathOp};
use crate::run::Error;
use crate::types::LookupType;
use crate::writer::WriterState;

verus! {

/// The type of an expression has an id once it was asked for.
pub proof fn lemma_typed(env: Env, s: State, expr: ExprHandle)
    ensures
        match env.lookup(expr) {
            Some(ty) => match s.type_id(env, ty) {
                Some((t, Ok(id))) => {
                    &&& is_type_id(env, t.code.writer, expr, id)
                    &&& is_id_of(t.code.writer, ty, id)
                },
                Some((t, result)) => incapable(env, s, t, expr, result),
                None => true,
            },
            None => true,
        },
{
    if let Some(ty) = env.lookup(expr) {
        lemma_type_found(env, s, ty);
        lemma_type_error(s.code.writer, env.strict(), ty);
        if let Some((t, Ok(id))) = s.type_id(env, ty) {
            assert(is_id_of(t.code.writer, ty, id));
        }
    }
}

/// Variables, constants and arguments are evaluated to the ids that they have,
/// and so is the result of a call. Nothing is emitted for them.
pub proof fn law_leaves_have_their_ids(
    env: Env,
    s: State,
    expr: ExprHandle,
    t: State,
    result: Result<(), Error>,
)
    requires
        expr.0 < env.fun.expressions@.len(),
        cache_run(env, s, expr) == Some((t, result)),
    ensures
        ({
            let known = match env.fun.expressions@[expr.0 as int] {
                Expression::GlobalVariable(variable) => Some(
                    env.writer.global_variables[variable.0 as int].id,
                ),
                Expression::Constant(constant) => Some(env.writer.constant_ids[constant.0 as int]),
                Expression::LocalVariable(variable) => Some(env.function.variables[variable.0]),
                Expression::FunctionArgument(index) => Some(
                    match env.function.entry_point {
                        Some(entry_point) => entry_point.argument_ids[index as int],
                        None => env.function.parameters[index as int].id,
                    },
                ),
                Expression::Call(_) => Some(s.code.writer.calls[expr.0]),
                _ => None,
            };
            known matches Some(id) ==> match result {
                Ok(_) => evaluates(s, t, expr, Seq::empty()) && id_of(t, expr) == id,
                Err(_) => incapable(env, s, t, expr, result),
            }
        }),
{
    reveal(cache_run);
    reveal(value_run);
    lemma_typed(env, s, expr);
    lemma_calls(env, s, expr);
    assert(s.block.body + Seq::<Inst>::empty() =~= s.block.body);
}

/// Asking for a type leaves the results of calls as they are.
proof fn lemma_calls(env: Env, s: State, expr: ExprHandle)
    ensures
        match env.lookup(expr) {
            Some(ty) => match s.type_id(env, ty) {
                Some((t, _)) => t.code.writer.calls == s.code.writer.calls,
                None => true,
            },
            None => true,
        },
{
    if let Some(ty) = env.lookup(expr) {
        lemma_type_calls(s.code.writer, env.strict(), ty);
    }
}

proof fn lemma_type_calls(w: WriterState, strict: bool, ty: LookupType)
    ensures
        match w.type_id(strict, ty) {
            Some((w1, _)) => w1.calls == w.calls,
            None => true,
        },
    decreases ty.depth(),
{
    if let (LookupType::Local(local), Some(w1)) = (ty, w.fresh()) {
        if let Some(referenced) = local.referenced() {
            lemma_type_calls(w1, strict, referenced);
        }
    }
}

/// An expression that is evaluated by one instruction, once its type has an id.
proof fn lemma_one(
    env: Env,
    s: State,
    s1: State,
    t: State,
    expr: ExprHandle,
    type_id: Word,
    op: spirv::Op,
    operands: Seq<Word>,
)
    requires
        is_type_id(env, s1.code.writer, expr, type_id),
        holds(t.code.writer.types, s1.code.writer.types),
        t.block.label == s.block.label,
        t.block.body == s.block.body.push(value_inst(op, type_id, id_of(t, expr), operands)),
        t.code.blocks == s.code.blocks,
        expr.0 < s.code.cached.len(),
        t.code.cached == s.code.cached.update(expr.0 as int, id_of(t, expr)),
    ensures
        computes_by(env, s, t, expr, op, operands),
{
    let inst = value_inst(op, type_id, id_of(t, expr), operands);
    lemma_typed_later(env, s1.code.writer, t.code.writer, expr, type_id);
    assert(s.block.body + seq![inst] =~= s.block.body.push(inst));
    assert(evaluates(s, t, expr, seq![inst]));
}

/// A type keeps its id.
pub proof fn lemma_typed_later(
    env: Env,
    before: WriterState,
    after: WriterState,
    expr: ExprHandle,
    id: Word,
)
    requires
        is_type_id(env, before, expr, id),
        holds(after.types, before.types),
    ensures
        is_type_id(env, after, expr, id),
{
    if let TypeResolution::Value(inner) = env.info.types@[expr.0 as int] {
        let ty = choose|ty: LookupType|
            is_type_of(ty, inner) && #[trigger] is_id_of(before, ty, id);
        assert(is_id_of(after, ty, id));
    }
}

/// A splat is a vector of as many copies of the value as it has components.
pub proof fn law_splat_repeats(
    env: Env,
    s: State,
    expr: ExprHandle,
    size: VectorSize,
    value: ExprHandle,
    t: State,
    result: Result<(), Error>,
)
    requires
        expr.0 < env.fun.expressions@.len(),
        env.fun.expressions@[expr.0 as int] == (Expression::Splat { size, value }),
        cache_run(env, s, expr) == Some((t, result)),
    ensures
        match result {
            Ok(_) => computes_by(
                env,
                s,
                t,
                expr,
                spirv::Op::CompositeConstruct,
                Seq::new(components(size), |i: int| id_of(s, value)),
            ),
            Err(_) => incapable(env, s, t, expr, result),
        },
{
    reveal(cache_run);
    reveal(value_run);
    reveal(splat_run);
    lemma_typed(env, s, expr);
    if let Some((s1, Ok(type_id))) = s.type_id(env, env.lookup(expr).unwrap()) {
        if result is Ok {
            let operands = Seq::new(components(size), |i: int| id_of(s, value));
            assert(t.block.body.last().operands =~= operands);
            lemma_one(env, s, s1, t, expr, type_id, t.block.body.last().op, operands);
        }
    }
}

/// Which component of a vector a selector picks.
pub open spec fn position(component: SwizzleComponent) -> Word {
    match component {
        SwizzleComponent::X => 0,
        SwizzleComponent::Y => 1,
        SwizzleComponent::Z => 2,
        SwizzleComponent::W => 3,
    }
}

/// A swizzle picks the components of a vector that its pattern names, in that
/// order, and as many as its size says.
pub proof fn law_swizzle_picks(
    env: Env,
    s: State,
    expr: ExprHandle,
    size: VectorSize,
    vector: ExprHandle,
    pattern: [SwizzleComponent; 4],
    t: State,
    result: Result<(), Error>,
)
    requires
        expr.0 < env.fun.expressions@.len(),
        env.fun.expressions@[expr.0 as int] == (Expression::Swizzle { size, vector, pattern }),
        cache_run(env, s, expr) == Some((t, result)),
    ensures
        match result {
            Ok(_) => computes_by(
                env,
                s,
                t,
                expr,
                spirv::Op::VectorShuffle,
                seq![id_of(s, vector), id_of(s, vector)] + Seq::new(
                    components(size),
                    |i: int| position(pattern@[i]),
                ),
            ),
            Err(_) => incapable(env, s, t, expr, result),
        },
{
    reveal(cache_run);
    reveal(value_run);
    reveal(swizzle_run);
    lemma_typed(env, s, expr);
    if let Some((s1, Ok(type_id))) = s.type_id(env, env.lookup(expr).unwrap()) {
        if result is Ok {
            let operands = seq![id_of(s, vector), id_of(s, vector)] + Seq::new(
                components(size),
                |i: int| position(pattern@[i]),
            );
            assert(t.block.body.last().operands =~= operands);
            lemma_one(env, s, s1, t, expr, type_id, t.block.body.last().op, operands);
        }
    }
}

/// A composite is made of the values of all its components, in order.
pub proof fn law_compose_takes_all_parts(
    env: Env,
    s: State,
    expr: ExprHandle,
    ty: TypeHandle,
    parts: Vec<ExprHandle>,
    t: State,
    result: Result<(), Error>,
)
    requires
        expr.0 < env.fun.expressions@.len(),
        env.fun.expressions@[expr.0 as int] == (Expression::Compose { ty, components: parts }),
        cache_run(env, s, expr) == Some((t, result)),
    ensures
        match result {
            Ok(_) => computes_by(
                env,
                s,
                t,
                expr,
                spirv::Op::CompositeConstruct,
                Seq::new(parts@.len(), |i: int| id_of(s, parts@[i])),
            ),
            Err(_) => incapable(env, s, t, expr, result),
        },
{
    reveal(cache_run);
    reveal(value_run);
    reveal(compose_run);
    lemma_typed(env, s, expr);
    if let Some((s1, Ok(type_id))) = s.type_id(env, env.lookup(expr).unwrap()) {
        if result is Ok {
            let operands = Seq::new(parts@.len(), |i: int| id_of(s, parts@[i]));
            assert forall|i: int| 0 <= i < parts@.len() implies #[trigger]
                t.block.body.last().operands[i] == operands[i] by {
                assert(s1.code.operand(parts@[i]) is Some);
            }
            assert(t.block.body.last().operands =~= operands);
            lemma_one(env, s, s1, t, expr, type_id, t.block.body.last().op, operands);
        }
    }
}

/// Whether an opcode computes a unary operator, on operands of some kind.
pub open spec fn computes_unary(
    opcode: spirv::Op,
    op: UnaryOperator,
    kind: Option<ScalarKind>,
) -> bool {
    if opcode == spirv::Op::FNegate {
        op == UnaryOperator::Negate && kind == Some(ScalarKind::Float)
    } else if opcode == spirv::Op::SNegate {
        op == UnaryOperator::Negate && kind == Some(ScalarKind::Sint)
    } else if opcode == spirv::Op::LogicalNot {
        kind == Some(ScalarKind::Bool)
    } else {
        opcode == spirv::Op::Not && op == UnaryOperator::Not && kind != Some(ScalarKind::Bool)
    }
}

/// A unary operator is computed by an opcode for it and the kind of its operand.
/// What has no negation is refused.
pub proof fn law_unary_operators(
    env: Env,
    s: State,
    expr: ExprHandle,
    op: UnaryOperator,
    operand: ExprHandle,
    t: State,
    result: Result<(), Error>,
)
    requires
        expr.0 < env.fun.expressions@.len(),
        env.fun.expressions@[expr.0 as int] == (Expression::Unary { op, expr: operand }),
        cache_run(env, s, expr) == Some((t, result)),
    ensures
        match result {
            Ok(_) => exists|opcode: spirv::Op| #[trigger]
                computes_unary(opcode, op, kind_of(shape(env, operand))) && computes_by(
                    env,
                    s,
                    t,
                    expr,
                    opcode,
                    seq![id_of(s, operand)],
                ),
            Err(error) => incapable(env, s, t, expr, result) || untouched(s, t) && error
                == Error::FeatureNotImplemented("negation"),
        },
        result == Err::<(), Error>(Error::FeatureNotImplemented("negation")) ==> op
            == UnaryOperator::Negate && (kind_of(shape(env, operand)) is None || kind_of(
            shape(env, operand),
        ) == Some(ScalarKind::Uint)),
{
    reveal(cache_run);
    reveal(value_run);
    reveal(unary_run);
    lemma_typed(env, s, expr);
    if let Some((s1, Ok(type_id))) = s.type_id(env, env.lookup(expr).unwrap()) {
        if result is Ok {
            let opcode = t.block.body.last().op;
            assert(computes_unary(opcode, op, kind_of(shape(env, operand))));
            lemma_one(env, s, s1, t, expr, type_id, opcode, seq![id_of(s, operand)]);
        }
    }
}

/// Whether an opcode computes a binary operator on a left operand of some kind.
pub open spec fn computes_binary(
    opcode: spirv::Op,
    op: BinaryOperator,
    kind: Option<ScalarKind>,
) -> bool {
    let sint = kind == Some(ScalarKind::Sint);
    let uint = kind == Some(ScalarKind::Uint);
    let float = kind == Some(ScalarKind::Float);
    let boolean = kind == Some(ScalarKind::Bool);
    match op {
        BinaryOperator::Add => {
            ||| opcode == spirv::Op::FAdd && float
            ||| opcode == spirv::Op::IAdd && !float
        },
        BinaryOperator::Subtract => {
            ||| opcode == spirv::Op::FSub && float
            ||| opcode == spirv::Op::ISub && !float
        },
        BinaryOperator::Multiply => {
            ||| opcode == spirv::Op::FMul && float
            ||| opcode == spirv::Op::IMul && !float
        },
        BinaryOperator::Divide => {
            ||| opcode == spirv::Op::SDiv && sint
            ||| opcode == spirv::Op::UDiv && uint
            ||| opcode == spirv::Op::FDiv && float
        },
        BinaryOperator::Modulo => {
            ||| opcode == spirv::Op::SMod && sint
            ||| opcode == spirv::Op::UMod && uint
            ||| opcode == spirv::Op::FMod && float
        },
        BinaryOperator::Equal => {
            ||| opcode == spirv::Op::IEqual && (sint || uint)
            ||| opcode == spirv::Op::FOrdEqual && float
            ||| opcode == spirv::Op::LogicalEqual && boolean
        },
        BinaryOperator::NotEqual => {
            ||| opcode == spirv::Op::INotEqual && (sint || uint)
            ||| opcode == spirv::Op::FOrdNotEqual && float
            ||| opcode == spirv::Op::LogicalNotEqual && boolean
        },
        BinaryOperator::Less => {
            ||| opcode == spirv::Op::SLessThan && sint
            ||| opcode == spirv::Op::ULessThan && uint
            ||| opcode == spirv::Op::FOrdLessThan && float
        },
        BinaryOperator::LessEqual => {
            ||| opcode == spirv::Op::SLessThanEqual && sint
            ||| opcode == spirv::Op::ULessThanEqual && uint
            ||| opcode == spirv::Op::FOrdLessThanEqual && float
        },
        BinaryOperator::Greater => {
            ||| opcode == spirv::Op::SGreaterThan && sint
            ||| opcode == spirv::Op::UGreaterThan && uint
            ||| opcode == spirv::Op::FOrdGreaterThan && float
        },
        BinaryOperator::GreaterEqual => {
            ||| opcode == spirv::Op::SGreaterThanEqual && sint
            ||| opcode == spirv::Op::UGreaterThanEqual && uint
            ||| opcode == spirv::Op::FOrdGreaterThanEqual && float
        },
        BinaryOperator::And => opcode == spirv::Op::BitwiseAnd,
        BinaryOperator::ExclusiveOr => opcode == spirv::Op::BitwiseXor,
        BinaryOperator::InclusiveOr => opcode == spirv::Op::BitwiseOr,
        BinaryOperator::LogicalAnd => opcode == spirv::Op::LogicalAnd,
        BinaryOperator::LogicalOr => opcode == spirv::Op::LogicalOr,
        BinaryOperator::ShiftLeft => opcode == spirv::Op::ShiftLeftLogical,
        BinaryOperator::ShiftRight => {
            ||| opcode == spirv::Op::ShiftRightArithmetic && sint
            ||| opcode == spirv::Op::ShiftRightLogical && uint
        },
    }
}

/// The opcode of a product of operands of different shapes, or of matrices.
pub open spec fn shaped_product(left: TypeInner, right: TypeInner) -> Option<spirv::Op> {
    match (left, right) {
        (TypeInner::Scalar { .. }, TypeInner::Vector { .. }) => Some(
            spirv::Op::VectorTimesScalar,
        ),
        (TypeInner::Vector { .. }, TypeInner::Scalar { .. }) => Some(
            spirv::Op::VectorTimesScalar,
        ),
        (TypeInner::Vector { .. }, TypeInner::Matrix { .. }) => Some(
            spirv::Op::VectorTimesMatrix,
        ),
        (TypeInner::Matrix { .. }, TypeInner::Scalar { .. }) => Some(
            spirv::Op::MatrixTimesScalar,
        ),
        (TypeInner::Matrix { .. }, TypeInner::Vector { .. }) => Some(
            spirv::Op::MatrixTimesVector,
        ),
        (TypeInner::Matrix { .. }, TypeInner::Matrix { .. }) => Some(
            spirv::Op::MatrixTimesMatrix,
        ),
        _ => None,
    }
}

/// A binary operator is computed by an opcode for it and the kind of its left
/// operand, a product of differently shaped operands by one for the shapes. The
/// operands are the left one and the right one, in that order; only a scalar
/// times a vector is turned round.
pub proof fn law_binary_operators(
    env: Env,
    s: State,
    expr: ExprHandle,
    op: BinaryOperator,
    left: ExprHandle,
    right: ExprHandle,
    t: State,
    result: Result<(), Error>,
)
    requires
        expr.0 < env.fun.expressions@.len(),
        env.fun.expressions@[expr.0 as int] == (Expression::Binary { op, left, right }),
        cache_run(env, s, expr) == Some((t, result)),
    ensures
        match result {
            Ok(_) => {
                let product = op == BinaryOperator::Multiply;
                let shapes = shaped_product(shape(env, left), shape(env, right));
                let turned = product && shape(env, left) is Scalar && shape(env, right) is Vector;
                exists|opcode: spirv::Op, operands: Seq<Word>|
                    {
                        &&& #[trigger] computes_by(env, s, t, expr, opcode, operands)
                        &&& if product && shapes is Some {
                            shapes == Some(opcode)
                        } else {
                            computes_binary(opcode, op, kind_of(shape(env, left)))
                        }
                        &&& turned ==> operands == seq![id_of(s, right), id_of(s, left)]
                        &&& !turned ==> operands == seq![id_of(s, left), id_of(s, right)]
                    }
            },
            Err(_) => incapable(env, s, t, expr, result),
        },
{
    reveal(cache_run);
    reveal(value_run);
    reveal(binary_run);
    lemma_typed(env, s, expr);
    if let Some((s1, Ok(type_id))) = s.type_id(env, env.lookup(expr).unwrap()) {
        if result is Ok {
            let operands = if op == BinaryOperator::Multiply && shape(env, left) is Scalar && shape(
                env,
                right,
            ) is Vector {
                seq![id_of(s, right), id_of(s, left)]
            } else {
                seq![id_of(s, left), id_of(s, right)]
            };
            lemma_one(env, s, s1, t, expr, type_id, t.block.body.last().op, operands);
        }
    }
}

/// Whether an extended instruction computes a math function whose first
/// argument is of some kind.
pub open spec fn computes_math(
    op: spirv::GLOp,
    fun: MathFunction,
    kind: Option<ScalarKind>,
) -> bool {
    let sint = kind == Some(ScalarKind::Sint);
    let uint = kind == Some(ScalarKind::Uint);
    let float = kind == Some(ScalarKind::Float);
    match fun {
        MathFunction::Abs => {
            op == spirv::GLOp::FAbs && float || op == spirv::GLOp::SAbs && sint
        },
        MathFunction::Min => {
            ||| op == spirv::GLOp::FMin && float
            ||| op == spirv::GLOp::SMin && sint
            ||| op == spirv::GLOp::UMin && uint
        },
        MathFunction::Max => {
            ||| op == spirv::GLOp::FMax && float
            ||| op == spirv::GLOp::SMax && sint
            ||| op == spirv::GLOp::UMax && uint
        },
        MathFunction::Clamp => {
            ||| op == spirv::GLOp::FClamp && float
            ||| op == spirv::GLOp::SClamp && sint
            ||| op == spirv::GLOp::UClamp && uint
        },
        MathFunction::Cos => op == spirv::GLOp::Cos,
        MathFunction::Cosh => op == spirv::GLOp::Cosh,
        MathFunction::Sin => op == spirv::GLOp::Sin,
        MathFunction::Sinh => op == spirv::GLOp::Sinh,
        MathFunction::Tan => op == spirv::GLOp::Tan,
        MathFunction::Tanh => op == spirv::GLOp::Tanh,
        MathFunction::Acos => op == spirv::GLOp::Acos,
        MathFunction::Asin => op == spirv::GLOp::Asin,
        MathFunction::Atan => op == spirv::GLOp::Atan,
        MathFunction::Atan2 => op == spirv::GLOp::Atan2,
        MathFunction::Ceil => op == spirv::GLOp::Ceil,
        MathFunction::Floor => op == spirv::GLOp::Floor,
        MathFunction::Round => op == spirv::GLOp::Round,
        MathFunction::Fract => op == spirv::GLOp::Fract,
        MathFunction::Trunc => op == spirv::GLOp::Trunc,
        MathFunction::Modf => op == spirv::GLOp::Modf,
        MathFunction::Frexp => op == spirv::GLOp::Frexp,
        MathFunction::Ldexp => op == spirv::GLOp::Ldexp,
        MathFunction::Exp => op == spirv::GLOp::Exp,
        MathFunction::Exp2 => op == spirv::GLOp::Exp2,
        MathFunction::Log => op == spirv::GLOp::Log,
        MathFunction::Log2 => op == spirv::GLOp::Log2,
        MathFunction::Pow => op == spirv::GLOp::Pow,
        MathFunction::Cross => op == spirv::GLOp::Cross,
        MathFunction::Distance => op == spirv::GLOp::Distance,
        MathFunction::Length => op == spirv::GLOp::Length,
        MathFunction::Normalize => op == spirv::GLOp::Normalize,
        MathFunction::FaceForward => op == spirv::GLOp::FaceForward,
        MathFunction::Reflect => op == spirv::GLOp::Reflect,
        MathFunction::Refract => op == spirv::GLOp::Refract,
        MathFunction::Sign => {
            op == spirv::GLOp::FSign && float || op == spirv::GLOp::SSign && sint
        },
        MathFunction::Fma => op == spirv::GLOp::Fma,
        MathFunction::Mix => op == spirv::GLOp::FMix,
        MathFunction::Step => op == spirv::GLOp::Step,
        MathFunction::SmoothStep => op == spirv::GLOp::SmoothStep,
        MathFunction::Sqrt => op == spirv::GLOp::Sqrt,
        MathFunction::InverseSqrt => op == spirv::GLOp::InverseSqrt,
        MathFunction::Inverse => op == spirv::GLOp::MatrixInverse,
        MathFunction::Determinant => op == spirv::GLOp::Determinant,
        MathFunction::Dot
        | MathFunction::Outer
        | MathFunction::Transpose
        | MathFunction::CountOneBits
        | MathFunction::ReverseBits => false,
    }
}

/// The opcode of a math function that has one of its own.
pub open spec fn own_opcode(fun: MathFunction, kind: Option<ScalarKind>) -> Option<spirv::Op> {
    match fun {
        MathFunction::Abs if kind == Some(ScalarKind::Uint) => Some(spirv::Op::CopyObject),
        MathFunction::Dot => Some(spirv::Op::Dot),
        MathFunction::Outer => Some(spirv::Op::OuterProduct),
        MathFunction::Transpose => Some(spirv::Op::Transpose),
        _ => None,
    }
}

/// How many arguments a math function has.
pub open spec fn arity(fun: MathFunction) -> int {
    match fun {
        MathFunction::Clamp
        | MathFunction::FaceForward
        | MathFunction::Refract
        | MathFunction::Fma
        | MathFunction::Mix
        | MathFunction::SmoothStep => 3,
        MathFunction::Min
        | MathFunction::Max
        | MathFunction::Atan2
        | MathFunction::Modf
        | MathFunction::Frexp
        | MathFunction::Ldexp
        | MathFunction::Pow
        | MathFunction::Dot
        | MathFunction::Outer
        | MathFunction::Cross
        | MathFunction::Distance
        | MathFunction::Reflect
        | MathFunction::Step => 2,
        _ => 1,
    }
}

/// The id of an argument, or zero if it is left out.
pub open spec fn given(s: State, arg: Option<ExprHandle>) -> Word {
    match arg {
        Some(arg) => id_of(s, arg),
        None => 0,
    }
}

/// The two tables of math functions agree.
proof fn lemma_math(fun: MathFunction, kind: Option<ScalarKind>)
    ensures
        fun.argument_count() == arity(fun),
        match math_opcode(fun, kind) {
            Some(Ok(MathOp::Ext(op))) => own_opcode(fun, kind) is None && computes_math(
                op,
                fun,
                kind,
            ),
            Some(Ok(MathOp::Unary(op))) => own_opcode(fun, kind) == Some(op) && arity(fun) == 1,
            Some(Ok(MathOp::Binary(op))) => own_opcode(fun, kind) == Some(op) && arity(fun) == 2,
            Some(Err(error)) => error == Error::FeatureNotImplemented("math function") && (fun
                == MathFunction::CountOneBits || fun == MathFunction::ReverseBits),
            None => true,
        },
{
}

/// A math function is computed by an instruction for it and the kind of its
/// first argument, from as many arguments as it has, in order. Counting and
/// reversing bits is refused, and nothing else is.
pub proof fn law_math_functions(
    env: Env,
    s: State,
    expr: ExprHandle,
    fun: MathFunction,
    arg: ExprHandle,
    arg1: Option<ExprHandle>,
    arg2: Option<ExprHandle>,
    t: State,
    result: Result<(), Error>,
)
    requires
        expr.0 < env.fun.expressions@.len(),
        env.fun.expressions@[expr.0 as int] == (Expression::Math { fun, arg, arg1, arg2 }),
        cache_run(env, s, expr) == Some((t, result)),
    ensures
        ({
            let kind = kind_of(shape(env, arg));
            let args = seq![id_of(s, arg), given(s, arg1), given(s, arg2)].take(arity(fun));
            match result {
                Ok(_) => match own_opcode(fun, kind) {
                    Some(opcode) => computes_by(env, s, t, expr, opcode, args),
                    None => exists|op: spirv::GLOp| #[trigger]
                        computes_math(op, fun, kind) && computes_by(
                            env,
                            s,
                            t,
                            expr,
                            spirv::Op::ExtInst,
                            seq![env.writer.gl450_ext_inst_id, op as Word] + args,
                        ),
                },
                Err(error) => incapable(env, s, t, expr, result) || untouched(s, t) && error
                    == Error::FeatureNotImplemented("math function") && (fun
                    == MathFunction::CountOneBits || fun == MathFunction::ReverseBits),
            }
        }),
{
    reveal(cache_run);
    reveal(value_run);
    reveal(math_run);
    lemma_typed(env, s, expr);
    if let Some((s1, Ok(type_id))) = s.type_id(env, env.lookup(expr).unwrap()) {
        if result is Ok {
            lemma_math(fun, kind_of(shape(env, arg)));
            let kind = kind_of(shape(env, arg));
            let inst = t.block.body.last();
            let args = seq![id_of(s, arg), given(s, arg1), given(s, arg2)].take(arity(fun));
            match own_opcode(fun, kind) {
                Some(opcode) => {
                    assert(inst.operands =~= args);
                    lemma_one(env, s, s1, t, expr, type_id, opcode, args);
                },
                None => {
                    let op = math_opcode(fun, kind)->Some_0->Ok_0->Ext_0;
                    let operands = seq![env.writer.gl450_ext_inst_id, op as Word] + args;
                    assert(computes_math(op, fun, kind));
                    assert(inst.operands =~= operands);
                    lemma_one(env, s, s1, t, expr, type_id, spirv::Op::ExtInst, operands);
                },
            }
        }
    }
}

/// The kind and width of the scalars that a cast starts from.
pub open spec fn cast_from(inner: TypeInner) -> Option<(ScalarKind, Bytes)> {
    match inner {
        TypeInner::Scalar { kind, width } => Some((kind, width)),
        TypeInner::Vector { kind, width, .. } => Some((kind, width)),
        TypeInner::Matrix { width, .. } => Some((ScalarKind::Float, width)),
        _ => None,
    }
}

/// Whether an opcode casts from one kind and width to another: values are
/// converted between floating-point numbers and integers, and from one width to
/// another; the bits are kept where no width is asked for, and otherwise where
/// nothing changes but, at most, the sign.
pub open spec fn casts(
    opcode: spirv::Op,
    from: (ScalarKind, Bytes),
    to: ScalarKind,
    convert: Option<Bytes>,
) -> bool {
    let converts = convert is Some;
    let resizes = convert is Some && convert != Some(from.1);
    let to_uint = from.0 == ScalarKind::Float && to == ScalarKind::Uint && converts;
    let to_sint = from.0 == ScalarKind::Float && to == ScalarKind::Sint && converts;
    let from_uint = from.0 == ScalarKind::Uint && to == ScalarKind::Float && converts;
    let from_sint = from.0 == ScalarKind::Sint && to == ScalarKind::Float && converts;
    let floats = from.0 == ScalarKind::Float && to == ScalarKind::Float && resizes;
    let sints = from.0 == ScalarKind::Sint && to == ScalarKind::Sint && resizes;
    let uints = from.0 == ScalarKind::Uint && to == ScalarKind::Uint && resizes;
    &&& opcode == spirv::Op::ConvertFToU <==> to_uint
    &&& opcode == spirv::Op::ConvertFToS <==> to_sint
    &&& opcode == spirv::Op::ConvertUToF <==> from_uint
    &&& opcode == spirv::Op::ConvertSToF <==> from_sint
    &&& opcode == spirv::Op::FConvert <==> floats
    &&& opcode == spirv::Op::SConvert <==> sints
    &&& opcode == spirv::Op::UConvert <==> uints
    &&& opcode == spirv::Op::Bitcast <==> !(to_uint || to_sint || from_uint || from_sint || floats
        || sints || uints)
}

/// A cast is computed by an opcode for its source and its target. Only what is
/// not made of scalars is refused.
pub proof fn law_casts(
    env: Env,
    s: State,
    expr: ExprHandle,
    source: ExprHandle,
    kind: ScalarKind,
    convert: Option<Bytes>,
    t: State,
    result: Result<(), Error>,
)
    requires
        expr.0 < env.fun.expressions@.len(),
        env.fun.expressions@[expr.0 as int] == (Expression::As { expr: source, kind, convert }),
        cache_run(env, s, expr) == Some((t, result)),
    ensures
        match result {
            Ok(_) => exists|opcode: spirv::Op|
                casts(opcode, cast_from(shape(env, source)).unwrap(), kind, convert)
                    && #[trigger] computes_by(env, s, t, expr, opcode, seq![id_of(s, source)]),
            Err(error) => incapable(env, s, t, expr, result) || untouched(s, t) && error
                == Error::Validation("Unexpected Expression::As source"),
        },
        result is Ok ==> cast_from(shape(env, source)) is Some,
        result == Err::<(), Error>(Error::Validation("Unexpected Expression::As source"))
            ==> cast_from(shape(env, source)) is None,
{
    reveal(cache_run);
    reveal(value_run);
    reveal(cast_run);
    lemma_typed(env, s, expr);
    if let Some((s1, Ok(type_id))) = s.type_id(env, env.lookup(expr).unwrap()) {
        if result is Ok {
            let opcode = t.block.body.last().op;
            assert(casts(opcode, cast_from(shape(env, source)).unwrap(), kind, convert));
            lemma_one(env, s, s1, t, expr, type_id, opcode, seq![id_of(s, source)]);
        }
    }
}

/// A derivative is taken along the axis that is asked for.
pub proof fn law_derivatives(
    env: Env,
    s: State,
    expr: ExprHandle,
    axis: DerivativeAxis,
    operand: ExprHandle,
    t: State,
    result: Result<(), Error>,
)
    requires
        expr.0 < env.fun.expressions@.len(),
        env.fun.expressions@[expr.0 as int] == (Expression::Derivative { axis, expr: operand }),
        cache_run(env, s, expr) == Some((t, result)),
    ensures
        match result {
            Ok(_) => {
                let op = t.block.body.last().op;
                &&& computes_by(env, s, t, expr, op, seq![id_of(s, operand)])
                &&& axis == DerivativeAxis::X <==> op == spirv::Op::DPdx
                &&& axis == DerivativeAxis::Y <==> op == spirv::Op::DPdy
                &&& axis == DerivativeAxis::Width <==> op == spirv::Op::Fwidth
            },
            Err(_) => incapable(env, s, t, expr, result),
        },
{
    reveal(cache_run);
    reveal(value_run);
    reveal(one_operand_run);
    lemma_typed(env, s, expr);
    if let Some((s1, Ok(type_id))) = s.type_id(env, env.lookup(expr).unwrap()) {
        if result is Ok {
            let op = t.block.body.last().op;
            lemma_one(env, s, s1, t, expr, type_id, op, seq![id_of(s, operand)]);
        }
    }
}

/// A relational function is computed by the opcode of its name. Tests for
/// finite and normal numbers are refused, and nothing else is.
pub proof fn law_relational_functions(
    env: Env,
    s: State,
    expr: ExprHandle,
    fun: RelationalFunction,
    argument: ExprHandle,
    t: State,
    result: Result<(), Error>,
)
    requires
        expr.0 < env.fun.expressions@.len(),
        env.fun.expressions@[expr.0 as int] == (Expression::Relational { fun, argument }),
        cache_run(env, s, expr) == Some((t, result)),
    ensures
        match result {
            Ok(_) => {
                let op = t.block.body.last().op;
                &&& computes_by(env, s, t, expr, op, seq![id_of(s, argument)])
                &&& fun == RelationalFunction::All <==> op == spirv::Op::All
                &&& fun == RelationalFunction::Any <==> op == spirv::Op::Any
                &&& fun == RelationalFunction::IsNan <==> op == spirv::Op::IsNan
                &&& fun == RelationalFunction::IsInf <==> op == spirv::Op::IsInf
                &&& fun != RelationalFunction::IsFinite && fun != RelationalFunction::IsNormal
            },
            Err(error) => incapable(env, s, t, expr, result) || untouched(s, t) && error
                == Error::FeatureNotImplemented("is finite/normal") && (fun
                == RelationalFunction::IsFinite || fun == RelationalFunction::IsNormal),
        },
{
    reveal(cache_run);
    reveal(value_run);
    reveal(relational_run);
    reveal(one_operand_run);
    lemma_typed(env, s, expr);
    if let Some((s1, Ok(type_id))) = s.type_id(env, env.lookup(expr).unwrap()) {
        if result is Ok {
            let op = t.block.body.last().op;
            lemma_one(env, s, s1, t, expr, type_id, op, seq![id_of(s, argument)]);
        }
    }
}

/// A selection takes the accepted value where the condition holds, and the
/// rejected one where it does not. One boolean that chooses between vectors is
/// repeated for all their components.
pub proof fn law_selections(
    env: Env,
    s: State,
    expr: ExprHandle,
    condition: ExprHandle,
    accept: ExprHandle,
    reject: ExprHandle,
    t: State,
    result: Result<(), Error>,
)
    requires
        expr.0 < env.fun.expressions@.len(),
        env.fun.expressions@[expr.0 as int] == (Expression::Select { condition, accept, reject }),
        cache_run(env, s, expr) == Some((t, result)),
    ensures
        match result {
            Ok(_) => match (shape(env, condition), shape(env, accept)) {
                (
                    TypeInner::Scalar { kind: ScalarKind::Bool, width },
                    TypeInner::Vector { size, .. },
                ) => {
                    let each = t.block.body[s.block.body.len() as int];
                    &&& is_id_of(
                        t.code.writer,
                        numbers(Some(size), ScalarKind::Bool, width),
                        each.type_id.unwrap(),
                    )
                    &&& each == value_inst(
                        spirv::Op::CompositeConstruct,
                        each.type_id.unwrap(),
                        each.result_id.unwrap(),
                        Seq::new(components(size), |i: int| id_of(s, condition)),
                    )
                    &&& exists|type_id: Word| #[trigger]
                        is_type_id(env, t.code.writer, expr, type_id) && evaluates(
                            s,
                            t,
                            expr,
                            seq![
                                each,
                                value_inst(
                                    spirv::Op::Select,
                                    type_id,
                                    id_of(t, expr),
                                    seq![
                                        each.result_id.unwrap(),
                                        id_of(s, accept),
                                        id_of(s, reject),
                                    ],
                                ),
                            ],
                        )
                },
                _ => computes_by(
                    env,
                    s,
                    t,
                    expr,
                    spirv::Op::Select,
                    seq![id_of(s, condition), id_of(s, accept), id_of(s, reject)],
                ),
            },
            Err(_) => incapable(env, s, t, expr, result),
        },
{
    reveal(cache_run);
    reveal(value_run);
    reveal(select_run);
    reveal(condition_run);
    lemma_typed(env, s, expr);
    if let Some((s1, Ok(type_id))) = s.type_id(env, env.lookup(expr).unwrap()) {
        if let (
            TypeInner::Scalar { kind: ScalarKind::Bool, width },
            TypeInner::Vector { size, .. },
        ) = (shape(env, condition), shape(env, accept)) {
            let ty = numbers(Some(size), ScalarKind::Bool, width);
            if let Some(s2) = s1.fresh() {
                lemma_type_found(env, s2, ty);
                lemma_type_error(s2.code.writer, env.strict(), ty);
                if result is Ok {
                    let each = t.block.body[s.block.body.len() as int];
                    let select = t.block.body.last();
                    assert(each.operands =~= Seq::new(
                        components(size),
                        |i: int| id_of(s, condition),
                    ));
                    lemma_typed_later(env, s1.code.writer, t.code.writer, expr, type_id);
                    assert(t.block.body =~= s.block.body + seq![each, select]);
                }
            }
        } else if result is Ok {
            lemma_one(
                env,
                s,
                s1,
                t,
                expr,
                type_id,
                spirv::Op::Select,
                seq![id_of(s, condition), id_of(s, accept), id_of(s, reject)],
            );
        }
    }
}

/// A part of a value, at a known index, is taken out of it. Only vectors,
/// matrices, arrays and structures have parts.
pub proof fn law_parts_are_extracted(
    env: Env,
    s: State,
    expr: ExprHandle,
    base: ExprHandle,
    index: u32,
    t: State,
    result: Result<(), Error>,
)
    requires
        expr.0 < env.fun.expressions@.len(),
        env.fun.expressions@[expr.0 as int] == (Expression::AccessIndex { base, index }),
        !put_off(env, s.code, base),
        cache_run(env, s, expr) == Some((t, result)),
    ensures
        match result {
            Ok(_) => computes_by(
                env,
                s,
                t,
                expr,
                spirv::Op::CompositeExtract,
                seq![id_of(s, base), index],
            ),
            Err(error) => incapable(env, s, t, expr, result) || untouched(s, t) && error
                == Error::FeatureNotImplemented("access index for type"),
        },
        result == Err::<(), Error>(Error::FeatureNotImplemented("access index for type")) ==> !(
        shape(env, base) is Vector || shape(env, base) is Matrix || shape(env, base) is Array
            || shape(env, base) is Struct),
{
    reveal(cache_run);
    reveal(value_run);
    reveal(access_index_value_run);
    lemma_typed(env, s, expr);
    if let Some((s1, Ok(type_id))) = s.type_id(env, env.lookup(expr).unwrap()) {
        if result is Ok {
            let op = t.block.body.last().op;
            lemma_one(env, s, s1, t, expr, type_id, op, seq![id_of(s, base), index]);
        }
    }
}

/// What is accessed of a pointer that is put off is put off in turn: it has no
/// value yet, and nothing is emitted for it.
pub proof fn law_parts_of_pointers_wait(
    env: Env,
    s: State,
    expr: ExprHandle,
    base: ExprHandle,
    index: u32,
    t: State,
    result: Result<(), Error>,
)
    requires
        expr.0 < env.fun.expressions@.len(),
        env.fun.expressions@[expr.0 as int] == (Expression::AccessIndex { base, index }),
        put_off(env, s.code, base),
        cache_run(env, s, expr) == Some((t, result)),
    ensures
        match result {
            Ok(_) => evaluates(s, t, expr, seq![]) && id_of(t, expr) == 0,
            Err(_) => incapable(env, s, t, expr, result),
        },
{
    reveal(cache_run);
    reveal(value_run);
    reveal(access_index_value_run);
    lemma_typed(env, s, expr);
    assert(s.block.body + Seq::<Inst>::empty() =~= s.block.body);
}

/// How many indices lead to a number in a value.
pub open spec fn index_count(dimension: Dimension) -> nat {
    match dimension {
        Dimension::Scalar => 0,
        Dimension::Vector => 1,
        Dimension::Matrix => 2,
    }
}

/// The dimension of a value is how many indices lead to a number in it: none in a
/// scalar, one more in a vector than in its components, and one more in a matrix
/// than in its columns.
pub proof fn law_dimension(
    kind: ScalarKind,
    width: Bytes,
    size: VectorSize,
    columns: VectorSize,
    number: Dimension,
    vector: Dimension,
    matrix: Dimension,
)
    requires
        dimension(TypeInner::Scalar { kind, width }) == Some(number),
        dimension(TypeInner::Vector { size, kind, width }) == Some(vector),
        dimension(TypeInner::Matrix { columns, rows: size, width }) == Some(matrix),
    ensures
        index_count(number) == 0,
        index_count(vector) == index_count(number) + 1,
        index_count(matrix) == index_count(vector) + 1,
{
}

} // verus!
