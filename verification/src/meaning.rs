//! The words in which the laws speak of generated code: of instructions by
//! their opcodes and operands, and of types by what they are.

use spirv::Word;
use vstd::prelude::*;
use crate::context::{Code, Env, State};
use crate::declarations::{is_lack, is_missing};
use crate::instruction::Inst;
use crate::ir::{
    AddressSpace, ExprHandle, Expression, ScalarKind, ScalarValue, TypeInner, TypeResolution,
    VectorSize,
};
use crate::run::Error;
use crate::types::{LocalType, LookupType};
use crate::writer::WriterState;

verus! {

/// An instruction that computes a value.
pub open spec fn value_inst(op: spirv::Op, type_id: Word, id: Word, operands: Seq<Word>) -> Inst {
    Inst { op, type_id: Some(type_id), result_id: Some(id), operands }
}

/// An instruction that computes nothing.
pub open spec fn effect_inst(op: spirv::Op, operands: Seq<Word>) -> Inst {
    Inst { op, type_id: None, result_id: None, operands }
}

/// The id of the value of an expression.
pub open spec fn id_of(s: State, expr: ExprHandle) -> Word {
    s.code.cached[expr.0 as int]
}

/// Whether an expression has a value.
pub open spec fn has_value(s: State, expr: ExprHandle) -> bool {
    expr.0 < s.code.cached.len() && id_of(s, expr) != 0
}

/// The shape of the type of an expression.
pub open spec fn shape(env: Env, expr: ExprHandle) -> TypeInner {
    match env.info.types@[expr.0 as int] {
        TypeResolution::Handle(handle) => env.module.types@[handle.0 as int].inner,
        TypeResolution::Value(inner) => inner,
    }
}

/// Whether an expression is a pointer that is not a value of its own: a variable,
/// a parameter that is a pointer, or what has been accessed of one of them.
pub open spec fn put_off(env: Env, code: Code, expr: ExprHandle) -> bool {
    match env.fun.expressions@[expr.0 as int] {
        Expression::GlobalVariable(_) | Expression::LocalVariable(_) => true,
        Expression::FunctionArgument(index) => match env.module.types@[
            env.fun.arguments@[index as int].ty.0 as int].inner {
            TypeInner::Pointer { .. } | TypeInner::ValuePointer { .. } => true,
            _ => false,
        },
        _ => code.cached[expr.0 as int] == 0,
    }
}

/// The id of the value of a parameter. Those of an entry point are loaded from
/// input variables.
pub open spec fn parameter(env: Env, index: u32) -> Word {
    match env.function.entry_point {
        Some(entry_point) => entry_point.argument_ids[index as int],
        None => env.function.parameters[index as int].id,
    }
}

/// The number of components of a vector.
pub open spec fn components(size: VectorSize) -> nat {
    match size {
        VectorSize::Bi => 2,
        VectorSize::Tri => 3,
        VectorSize::Quad => 4,
    }
}

/// The kind of the scalars that a value is made of.
pub open spec fn kind_of(inner: TypeInner) -> Option<ScalarKind> {
    match inner {
        TypeInner::Scalar { kind, .. } => Some(kind),
        TypeInner::Vector { kind, .. } => Some(kind),
        TypeInner::Matrix { .. } => Some(ScalarKind::Float),
        _ => None,
    }
}

/// A scalar or vector type.
pub open spec fn numbers(size: Option<VectorSize>, kind: ScalarKind, width: u8) -> LookupType {
    LookupType::Local(LocalType::Value { vector_size: size, kind, width, pointer_class: None })
}

/// The storage class of an address space.
pub open spec fn class_of(space: AddressSpace) -> spirv::StorageClass {
    match space {
        AddressSpace::Function => spirv::StorageClass::Function,
        AddressSpace::Private => spirv::StorageClass::Private,
        AddressSpace::WorkGroup => spirv::StorageClass::Workgroup,
        AddressSpace::Uniform => spirv::StorageClass::Uniform,
        AddressSpace::Storage => spirv::StorageClass::StorageBuffer,
        AddressSpace::Handle => spirv::StorageClass::UniformConstant,
        AddressSpace::PushConstant => spirv::StorageClass::PushConstant,
    }
}

/// Whether a type to look up is the type of a shape.
pub open spec fn is_type_of(ty: LookupType, inner: TypeInner) -> bool {
    match (ty, inner) {
        (LookupType::Local(local), TypeInner::Scalar { kind, width }) => {
            local == (LocalType::Value { vector_size: None, kind, width, pointer_class: None })
        },
        (LookupType::Local(local), TypeInner::Vector { size, kind, width }) => {
            local == (LocalType::Value {
                vector_size: Some(size),
                kind,
                width,
                pointer_class: None,
            })
        },
        (LookupType::Local(local), TypeInner::Matrix { columns, rows, width }) => {
            local == (LocalType::Matrix { columns, rows, width })
        },
        (LookupType::Local(local), TypeInner::Pointer { base, class }) => {
            local == (LocalType::Pointer { base, class: class_of(class) })
        },
        (LookupType::Local(local), TypeInner::ValuePointer { size, kind, width, class }) => {
            local == (LocalType::Value {
                vector_size: size,
                kind,
                width,
                pointer_class: Some(class_of(class)),
            })
        },
        _ => false,
    }
}

/// Whether an id is that of the type of an expression.
pub open spec fn is_type_id(env: Env, w: WriterState, expr: ExprHandle, id: Word) -> bool {
    match env.info.types@[expr.0 as int] {
        TypeResolution::Handle(handle) => is_id_of(w, LookupType::Handle(handle), id),
        TypeResolution::Value(inner) => exists|ty: LookupType|
            is_type_of(ty, inner) && #[trigger] is_id_of(w, ty, id),
    }
}

/// Whether an id is that of a type.
pub open spec fn is_id_of(w: WriterState, ty: LookupType, id: Word) -> bool {
    w.types.contains_key(ty) && w.types[ty] == id
}

/// Whether an id is that of a 32-bit unsigned constant.
pub open spec fn is_uint(w: WriterState, value: int, id: Word) -> bool {
    exists|key: (ScalarValue, u8)|
        key.0 == ScalarValue::Uint(value as u64) && key.1 == 4
            && #[trigger] w.constants.contains_key(key) && w.constants[key] == id && 0 <= value
            <= u32::MAX
}

/// Whether a step adds some instructions to the current block, gives an
/// expression a value, and does nothing else to the function.
pub open spec fn evaluates(s: State, t: State, expr: ExprHandle, insts: Seq<Inst>) -> bool {
    &&& t.block.label == s.block.label
    &&& t.block.body == s.block.body + insts
    &&& t.code.blocks == s.code.blocks
    &&& expr.0 < s.code.cached.len()
    &&& t.code.cached == s.code.cached.update(expr.0 as int, id_of(t, expr))
}

/// Whether a step evaluates an expression by one instruction, whose result is
/// the value.
pub open spec fn computes_by(
    env: Env,
    s: State,
    t: State,
    expr: ExprHandle,
    op: spirv::Op,
    operands: Seq<Word>,
) -> bool {
    exists|type_id: Word| #[trigger]
        is_type_id(env, t.code.writer, expr, type_id) && evaluates(
            s,
            t,
            expr,
            seq![value_inst(op, type_id, id_of(t, expr), operands)],
        )
}

/// Whether a step has left the function as it is.
pub open spec fn untouched(s: State, t: State) -> bool {
    t.block == s.block && t.code.blocks == s.code.blocks && t.code.cached == s.code.cached
}

/// The kind and width of the scalars that the type of a shape is made of.
pub open spec fn scalar_of_shape(inner: TypeInner) -> Option<(ScalarKind, u8)> {
    match inner {
        TypeInner::Scalar { kind, width } => Some((kind, width)),
        TypeInner::Vector { kind, width, .. } => Some((kind, width)),
        TypeInner::Matrix { width, .. } => Some((ScalarKind::Float, width)),
        TypeInner::ValuePointer { kind, width, .. } => Some((kind, width)),
        _ => None,
    }
}

/// Whether an error says that a strict module lacks the capability that the type
/// of an expression takes.
pub open spec fn is_type_lack(env: Env, s: State, expr: ExprHandle, error: Error) -> bool {
    &&& env.info.types@[expr.0 as int] is Value
    &&& is_lack(scalar_of_shape(shape(env, expr)), error)
    &&& is_missing(s.code.writer, env.writer.strict_capabilities, error)
}

/// Whether a step failed because the type of an expression cannot be declared, and
/// left the function as it is.
pub open spec fn incapable<T>(
    env: Env,
    s: State,
    t: State,
    expr: ExprHandle,
    result: Result<T, Error>,
) -> bool {
    untouched(s, t) && (result matches Err(error) && is_type_lack(env, s, expr, error))
}

} // verus!
