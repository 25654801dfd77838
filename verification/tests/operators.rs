use spv_block::ir::{
    BinaryOperator, DerivativeAxis, MathFunction, RelationalFunction, ScalarKind, TypeHandle,
    TypeInner, UnaryOperator, VectorSize,
};
use spv_block::operators::{
    binary_op, cast_op, derivative_op, get_dimension, math_op, relational_op, unary_op, Dimension,
    MathOp,
};
use spv_block::run::Error;

fn scalar(kind: ScalarKind) -> TypeInner {
    TypeInner::Scalar { kind, width: 4 }
}

fn vector(kind: ScalarKind) -> TypeInner {
    TypeInner::Vector { size: VectorSize::Tri, kind, width: 4 }
}

fn matrix() -> TypeInner {
    TypeInner::Matrix { columns: VectorSize::Tri, rows: VectorSize::Tri, width: 4 }
}

#[test]
fn dimensions() {
    assert_eq!(get_dimension(&scalar(ScalarKind::Bool)), Dimension::Scalar);
    assert_eq!(get_dimension(&vector(ScalarKind::Uint)), Dimension::Vector);
    assert_eq!(get_dimension(&matrix()), Dimension::Matrix);
}

#[test]
fn unary_operators_by_kind() {
    let negate = UnaryOperator::Negate;
    assert_eq!(unary_op(negate, Some(ScalarKind::Float)), Some(spirv::Op::FNegate));
    assert_eq!(unary_op(negate, Some(ScalarKind::Sint)), Some(spirv::Op::SNegate));
    assert_eq!(unary_op(negate, Some(ScalarKind::Bool)), Some(spirv::Op::LogicalNot));
    assert_eq!(unary_op(negate, Some(ScalarKind::Uint)), None);
    assert_eq!(unary_op(negate, None), None);
    assert_eq!(unary_op(UnaryOperator::Not, Some(ScalarKind::Bool)), Some(spirv::Op::LogicalNot));
    assert_eq!(unary_op(UnaryOperator::Not, Some(ScalarKind::Uint)), Some(spirv::Op::Not));
    assert_eq!(unary_op(UnaryOperator::Not, None), Some(spirv::Op::Not));
}

#[test]
fn products_by_dimension() {
    let f = ScalarKind::Float;
    let multiply = BinaryOperator::Multiply;
    let times = |left, right| binary_op(multiply, left, right);
    assert_eq!(times(scalar(f), vector(f)), (spirv::Op::VectorTimesScalar, false));
    assert_eq!(times(vector(f), scalar(f)), (spirv::Op::VectorTimesScalar, true));
    assert_eq!(times(vector(f), matrix()), (spirv::Op::VectorTimesMatrix, true));
    assert_eq!(times(matrix(), scalar(f)), (spirv::Op::MatrixTimesScalar, true));
    assert_eq!(times(matrix(), vector(f)), (spirv::Op::MatrixTimesVector, true));
    assert_eq!(times(matrix(), matrix()), (spirv::Op::MatrixTimesMatrix, true));
    assert_eq!(times(vector(f), vector(f)), (spirv::Op::FMul, true));
    assert_eq!(times(scalar(f), scalar(f)), (spirv::Op::FMul, true));
    let i = ScalarKind::Sint;
    assert_eq!(times(vector(i), vector(i)), (spirv::Op::IMul, true));
    assert_eq!(times(scalar(i), scalar(i)), (spirv::Op::IMul, true));
}

#[test]
fn binary_operators_by_kind() {
    let cases = [
        (BinaryOperator::Add, spirv::Op::IAdd, spirv::Op::IAdd, spirv::Op::FAdd),
        (BinaryOperator::Subtract, spirv::Op::ISub, spirv::Op::ISub, spirv::Op::FSub),
        (BinaryOperator::Divide, spirv::Op::SDiv, spirv::Op::UDiv, spirv::Op::FDiv),
        (BinaryOperator::Modulo, spirv::Op::SMod, spirv::Op::UMod, spirv::Op::FMod),
        (BinaryOperator::Equal, spirv::Op::IEqual, spirv::Op::IEqual, spirv::Op::FOrdEqual),
        (
            BinaryOperator::NotEqual,
            spirv::Op::INotEqual,
            spirv::Op::INotEqual,
            spirv::Op::FOrdNotEqual,
        ),
        (
            BinaryOperator::Less,
            spirv::Op::SLessThan,
            spirv::Op::ULessThan,
            spirv::Op::FOrdLessThan,
        ),
        (
            BinaryOperator::LessEqual,
            spirv::Op::SLessThanEqual,
            spirv::Op::ULessThanEqual,
            spirv::Op::FOrdLessThanEqual,
        ),
        (
            BinaryOperator::Greater,
            spirv::Op::SGreaterThan,
            spirv::Op::UGreaterThan,
            spirv::Op::FOrdGreaterThan,
        ),
        (
            BinaryOperator::GreaterEqual,
            spirv::Op::SGreaterThanEqual,
            spirv::Op::UGreaterThanEqual,
            spirv::Op::FOrdGreaterThanEqual,
        ),
    ];
    for (op, sint, uint, float) in cases {
        for (kind, expected) in [
            (ScalarKind::Sint, sint),
            (ScalarKind::Uint, uint),
            (ScalarKind::Float, float),
        ] {
            assert_eq!(binary_op(op, scalar(kind), scalar(kind)), (expected, true));
            assert_eq!(binary_op(op, vector(kind), vector(kind)), (expected, true));
        }
    }
}

#[test]
fn binary_operators_on_booleans_and_bits() {
    let b = scalar(ScalarKind::Bool);
    let u = scalar(ScalarKind::Uint);
    let s = scalar(ScalarKind::Sint);
    assert_eq!(binary_op(BinaryOperator::Equal, b, b).0, spirv::Op::LogicalEqual);
    assert_eq!(binary_op(BinaryOperator::NotEqual, b, b).0, spirv::Op::LogicalNotEqual);
    assert_eq!(binary_op(BinaryOperator::LogicalAnd, b, b).0, spirv::Op::LogicalAnd);
    assert_eq!(binary_op(BinaryOperator::LogicalOr, b, b).0, spirv::Op::LogicalOr);
    assert_eq!(binary_op(BinaryOperator::And, u, u).0, spirv::Op::BitwiseAnd);
    assert_eq!(binary_op(BinaryOperator::ExclusiveOr, u, u).0, spirv::Op::BitwiseXor);
    assert_eq!(binary_op(BinaryOperator::InclusiveOr, u, u).0, spirv::Op::BitwiseOr);
    assert_eq!(binary_op(BinaryOperator::ShiftLeft, s, u).0, spirv::Op::ShiftLeftLogical);
    assert_eq!(binary_op(BinaryOperator::ShiftRight, u, u).0, spirv::Op::ShiftRightLogical);
    assert_eq!(binary_op(BinaryOperator::ShiftRight, s, u).0, spirv::Op::ShiftRightArithmetic);
}

#[test]
fn math_functions_by_kind() {
    let ext = |fun, kind| match math_op(fun, Some(kind)) {
        Ok(MathOp::Ext(op)) => Some(op),
        _ => None,
    };
    assert_eq!(ext(MathFunction::Abs, ScalarKind::Float), Some(spirv::GLOp::FAbs));
    assert_eq!(ext(MathFunction::Abs, ScalarKind::Sint), Some(spirv::GLOp::SAbs));
    assert!(matches!(
        math_op(MathFunction::Abs, Some(ScalarKind::Uint)),
        Ok(MathOp::Unary(spirv::Op::CopyObject))
    ));
    assert_eq!(ext(MathFunction::Min, ScalarKind::Uint), Some(spirv::GLOp::UMin));
    assert_eq!(ext(MathFunction::Max, ScalarKind::Sint), Some(spirv::GLOp::SMax));
    assert_eq!(ext(MathFunction::Clamp, ScalarKind::Float), Some(spirv::GLOp::FClamp));
    assert_eq!(ext(MathFunction::Sign, ScalarKind::Sint), Some(spirv::GLOp::SSign));
    assert_eq!(ext(MathFunction::Mix, ScalarKind::Float), Some(spirv::GLOp::FMix));
    assert_eq!(ext(MathFunction::Inverse, ScalarKind::Float), Some(spirv::GLOp::MatrixInverse));
    assert!(matches!(
        math_op(MathFunction::Dot, Some(ScalarKind::Float)),
        Ok(MathOp::Binary(spirv::Op::Dot))
    ));
    assert!(matches!(
        math_op(MathFunction::Transpose, Some(ScalarKind::Float)),
        Ok(MathOp::Unary(spirv::Op::Transpose))
    ));
    for fun in [MathFunction::ReverseBits, MathFunction::CountOneBits] {
        match math_op(fun, Some(ScalarKind::Uint)) {
            Err(error) => assert_eq!(error, Error::FeatureNotImplemented("math function")),
            Ok(_) => panic!("not supported"),
        }
    }
}

#[test]
fn casts_by_source_and_target() {
    let (f, s, u) = (ScalarKind::Float, ScalarKind::Sint, ScalarKind::Uint);
    assert_eq!(cast_op(scalar(f), u, Some(4)), Some(spirv::Op::ConvertFToU));
    assert_eq!(cast_op(scalar(f), s, Some(4)), Some(spirv::Op::ConvertFToS));
    assert_eq!(cast_op(scalar(f), f, Some(8)), Some(spirv::Op::FConvert));
    assert_eq!(cast_op(scalar(f), f, Some(4)), Some(spirv::Op::Bitcast));
    assert_eq!(cast_op(matrix(), f, Some(8)), Some(spirv::Op::FConvert));
    assert_eq!(cast_op(scalar(s), f, Some(4)), Some(spirv::Op::ConvertSToF));
    assert_eq!(cast_op(scalar(s), s, Some(8)), Some(spirv::Op::SConvert));
    assert_eq!(cast_op(vector(u), f, Some(4)), Some(spirv::Op::ConvertUToF));
    assert_eq!(cast_op(vector(u), u, Some(8)), Some(spirv::Op::UConvert));
    assert_eq!(cast_op(vector(u), s, Some(4)), Some(spirv::Op::Bitcast));
    assert_eq!(cast_op(scalar(f), u, None), Some(spirv::Op::Bitcast));
    let array = TypeInner::Struct { span: 16 };
    assert_eq!(cast_op(array, u, None), None);
    let pointer = TypeInner::Pointer {
        base: TypeHandle(0),
        class: spv_block::ir::AddressSpace::Function,
    };
    assert_eq!(cast_op(pointer, u, Some(4)), None);
}

#[test]
fn derivatives_and_relational_functions() {
    assert_eq!(derivative_op(DerivativeAxis::X), spirv::Op::DPdx);
    assert_eq!(derivative_op(DerivativeAxis::Y), spirv::Op::DPdy);
    assert_eq!(derivative_op(DerivativeAxis::Width), spirv::Op::Fwidth);
    assert_eq!(relational_op(RelationalFunction::All), Some(spirv::Op::All));
    assert_eq!(relational_op(RelationalFunction::Any), Some(spirv::Op::Any));
    assert_eq!(relational_op(RelationalFunction::IsNan), Some(spirv::Op::IsNan));
    assert_eq!(relational_op(RelationalFunction::IsInf), Some(spirv::Op::IsInf));
    assert_eq!(relational_op(RelationalFunction::IsFinite), None);
    assert_eq!(relational_op(RelationalFunction::IsNormal), None);
}
