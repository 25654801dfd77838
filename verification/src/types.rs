//! The types that the generator refers to.

use spirv::Word;
use vstd::prelude::*;
use crate::instruction::{Inst, Instruction};
use crate::ir::{
    AddressSpace, Bytes, ScalarKind, TypeHandle, TypeInner, TypeResolution, VectorSize, BOOL_WIDTH,
};
use crate::words::same_class;

verus! {

/// A type that the module's arena need not hold.
#[derive(Clone, Copy, Debug)]
pub enum LocalType {
    /// A scalar, a vector, or a pointer to one of them.
    Value {
        vector_size: Option<VectorSize>,
        kind: ScalarKind,
        width: Bytes,
        pointer_class: Option<spirv::StorageClass>,
    },
    /// A matrix of floating-point values.
    Matrix { columns: VectorSize, rows: VectorSize, width: Bytes },
    /// A pointer to a type of the arena.
    Pointer { base: TypeHandle, class: spirv::StorageClass },
    /// An image combined with a sampler.
    SampledImage { image_type_id: Word },
}

/// A type that an id can be asked for.
#[derive(Clone, Copy, Debug)]
pub enum LookupType {
    Handle(TypeHandle),
    Local(LocalType),
}

/// The scalar or vector type of some kind and width.
pub open spec fn value_type(
    vector_size: Option<VectorSize>,
    kind: ScalarKind,
    width: Bytes,
) -> LookupType {
    LookupType::Local(LocalType::Value { vector_size, kind, width, pointer_class: None })
}

/// The 32-bit floating-point type, or a vector of it.
pub open spec fn float_type(vector_size: Option<VectorSize>) -> LookupType {
    value_type(vector_size, ScalarKind::Float, 4)
}

/// The 32-bit unsigned integer type.
pub open spec fn uint_type() -> LookupType {
    value_type(None, ScalarKind::Uint, 4)
}

/// The boolean type.
pub open spec fn bool_type() -> LookupType {
    value_type(None, ScalarKind::Bool, BOOL_WIDTH)
}

/// Whether two optional vector sizes are the same.
fn same_size(a: Option<VectorSize>, b: Option<VectorSize>) -> (same: bool)
    ensures
        same == (a == b),
{
    match (a, b) {
        (Some(a), Some(b)) => a == b,
        (None, None) => true,
        _ => false,
    }
}

/// Whether two optional storage classes are the same.
fn same_pointer_class(a: Option<spirv::StorageClass>, b: Option<spirv::StorageClass>) -> (same:
    bool)
    ensures
        same == (a == b),
{
    match (a, b) {
        (Some(a), Some(b)) => same_class(a, b),
        (None, None) => true,
        _ => false,
    }
}

impl LocalType {
    /// The type that the declaration of this one is built on, if any.
    pub open spec fn referenced(self) -> Option<LookupType> {
        match self {
            LocalType::Value { vector_size, kind, width, pointer_class: Some(_) } => Some(
                value_type(vector_size, kind, width),
            ),
            LocalType::Value { vector_size: Some(_), kind, width, pointer_class: None } => Some(
                value_type(None, kind, width),
            ),
            LocalType::Value { vector_size: None, .. } => None,
            LocalType::Matrix { columns: _, rows, width } => Some(
                value_type(Some(rows), ScalarKind::Float, width),
            ),
            LocalType::Pointer { base, class: _ } => Some(LookupType::Handle(base)),
            LocalType::SampledImage { .. } => None,
        }
    }

    /// The capability that the type itself needs: integers of 8, 16 and 64
    /// bits and floating-point values of 64 bits need one.
    pub open spec fn capability(self) -> Option<spirv::Capability> {
        match self {
            LocalType::Value { vector_size: None, kind, width, pointer_class: None } => match (
                kind,
                width,
            ) {
                (ScalarKind::Sint, 1) | (ScalarKind::Uint, 1) => Some(spirv::Capability::Int8),
                (ScalarKind::Sint, 2) | (ScalarKind::Uint, 2) => Some(spirv::Capability::Int16),
                (ScalarKind::Sint, 8) | (ScalarKind::Uint, 8) => Some(spirv::Capability::Int64),
                (ScalarKind::Float, 8) => Some(spirv::Capability::Float64),
                _ => None,
            },
            _ => None,
        }
    }

    /// The instruction that declares the type as `id`, given the id of the
    /// type that it is built on.
    pub open spec fn declaration(self, id: Word, base: Word) -> Inst {
        match self {
            LocalType::Value { pointer_class: Some(class), .. } => Inst::type_pointer(
                id,
                class,
                base,
            ),
            LocalType::Value { vector_size: Some(size), .. } => Inst::type_vector(
                id,
                base,
                size.count(),
            ),
            LocalType::Value { kind, width, .. } => match kind {
                ScalarKind::Sint => Inst::type_int(id, (width * 8) as Word, 1),
                ScalarKind::Uint => Inst::type_int(id, (width * 8) as Word, 0),
                ScalarKind::Float => Inst::type_float(id, (width * 8) as Word),
                ScalarKind::Bool => Inst::type_bool(id),
            },
            LocalType::Matrix { columns, .. } => Inst::type_matrix(id, base, columns.count()),
            LocalType::Pointer { class, .. } => Inst::type_pointer(id, class, base),
            LocalType::SampledImage { image_type_id } => Inst::type_sampled_image(
                id,
                image_type_id,
            ),
        }
    }

    /// Whether two types are the same.
    pub fn same(self, other: LocalType) -> (same: bool)
        ensures
            same == (self == other),
    {
        match (self, other) {
            (
                LocalType::Value { vector_size: s, kind: k, width: w, pointer_class: p },
                LocalType::Value { vector_size: os, kind: ok, width: ow, pointer_class: op },
            ) => same_size(s, os) && k == ok && w == ow && same_pointer_class(p, op),
            (
                LocalType::Matrix { columns: c, rows: r, width: w },
                LocalType::Matrix { columns: oc, rows: or, width: ow },
            ) => c == oc && r == or && w == ow,
            (
                LocalType::Pointer { base: b, class: c },
                LocalType::Pointer { base: ob, class: oc },
            ) => b == ob && same_class(c, oc),
            (
                LocalType::SampledImage { image_type_id: i },
                LocalType::SampledImage { image_type_id: oi },
            ) => i == oi,
            _ => false,
        }
    }

    /// The type that the declaration of this one is built on, if any.
    pub fn reference(self) -> (referenced: Option<LookupType>)
        ensures
            referenced == self.referenced(),
    {
        match self {
            LocalType::Value { vector_size, kind, width, pointer_class: Some(_) } => Some(
                LookupType::Local(
                    LocalType::Value { vector_size, kind, width, pointer_class: None },
                ),
            ),
            LocalType::Value { vector_size: Some(_), kind, width, pointer_class: None } => Some(
                LookupType::Local(
                    LocalType::Value { vector_size: None, kind, width, pointer_class: None },
                ),
            ),
            LocalType::Value { vector_size: None, .. } => None,
            LocalType::Matrix { columns: _, rows, width } => Some(
                LookupType::Local(
                    LocalType::Value {
                        vector_size: Some(rows),
                        kind: ScalarKind::Float,
                        width,
                        pointer_class: None,
                    },
                ),
            ),
            LocalType::Pointer { base, class: _ } => Some(LookupType::Handle(base)),
            LocalType::SampledImage { .. } => None,
        }
    }

    /// The capability that the type itself needs.
    pub fn required_capability(self) -> (capability: Option<spirv::Capability>)
        ensures
            capability == self.capability(),
    {
        match self {
            LocalType::Value { vector_size: None, kind, width, pointer_class: None } => match (
                kind,
                width,
            ) {
                (ScalarKind::Sint, 1) | (ScalarKind::Uint, 1) => Some(spirv::Capability::Int8),
                (ScalarKind::Sint, 2) | (ScalarKind::Uint, 2) => Some(spirv::Capability::Int16),
                (ScalarKind::Sint, 8) | (ScalarKind::Uint, 8) => Some(spirv::Capability::Int64),
                (ScalarKind::Float, 8) => Some(spirv::Capability::Float64),
                _ => None,
            },
            _ => None,
        }
    }

    /// The instruction that declares the type as `id`, given the id of the
    /// type that it is built on.
    pub fn declare(self, id: Word, base: Word) -> (instruction: Instruction)
        ensures
            instruction@ == self.declaration(id, base),
    {
        match self {
            LocalType::Value { pointer_class: Some(class), .. } => Instruction::type_pointer(
                id,
                class,
                base,
            ),
            LocalType::Value { vector_size: Some(size), .. } => Instruction::type_vector(
                id,
                base,
                size.count(),
            ),
            LocalType::Value { kind, width, .. } => {
                let bits: Word = width as Word * 8;
                match kind {
                    ScalarKind::Sint => Instruction::type_int(id, bits, 1),
                    ScalarKind::Uint => Instruction::type_int(id, bits, 0),
                    ScalarKind::Float => Instruction::type_float(id, bits),
                    ScalarKind::Bool => Instruction::type_bool(id),
                }
            },
            LocalType::Matrix { columns, .. } => Instruction::type_matrix(
                id,
                base,
                columns.count(),
            ),
            LocalType::Pointer { class, .. } => Instruction::type_pointer(id, class, base),
            LocalType::SampledImage { image_type_id } => Instruction::type_sampled_image(
                id,
                image_type_id,
            ),
        }
    }
}

impl LookupType {
    /// Whether two types are the same.
    pub fn same(self, other: LookupType) -> (same: bool)
        ensures
            same == (self == other),
    {
        match (self, other) {
            (LookupType::Handle(a), LookupType::Handle(b)) => a == b,
            (LookupType::Local(a), LookupType::Local(b)) => a.same(b),
            _ => false,
        }
    }

    /// How many declarations deep the type is at most.
    pub open spec fn depth(self) -> nat {
        match self {
            LookupType::Handle(_) => 0,
            LookupType::Local(local) => match local {
                LocalType::Value { vector_size: None, pointer_class: None, .. } => 1,
                LocalType::Value { pointer_class: None, .. } => 2,
                _ => 3,
            },
        }
    }
}

/// The SPIR-V storage class of an address space.
pub open spec fn storage_class(space: AddressSpace) -> spirv::StorageClass {
    match space {
        AddressSpace::Handle => spirv::StorageClass::UniformConstant,
        AddressSpace::Function => spirv::StorageClass::Function,
        AddressSpace::Private => spirv::StorageClass::Private,
        AddressSpace::Storage => spirv::StorageClass::StorageBuffer,
        AddressSpace::Uniform => spirv::StorageClass::Uniform,
        AddressSpace::WorkGroup => spirv::StorageClass::Workgroup,
        AddressSpace::PushConstant => spirv::StorageClass::PushConstant,
    }
}

/// The SPIR-V storage class of an address space.
pub fn map_storage_class(space: AddressSpace) -> (class: spirv::StorageClass)
    ensures
        class == storage_class(space),
{
    match space {
        AddressSpace::Handle => spirv::StorageClass::UniformConstant,
        AddressSpace::Function => spirv::StorageClass::Function,
        AddressSpace::Private => spirv::StorageClass::Private,
        AddressSpace::Storage => spirv::StorageClass::StorageBuffer,
        AddressSpace::Uniform => spirv::StorageClass::Uniform,
        AddressSpace::WorkGroup => spirv::StorageClass::Workgroup,
        AddressSpace::PushConstant => spirv::StorageClass::PushConstant,
    }
}

/// The local type of a shape. Arrays, structures, images and samplers have
/// none: they are always declared by the module.
pub open spec fn local_type(inner: TypeInner) -> Option<LocalType> {
    match inner {
        TypeInner::Scalar { kind, width } => Some(
            LocalType::Value { vector_size: None, kind, width, pointer_class: None },
        ),
        TypeInner::Vector { size, kind, width } => Some(
            LocalType::Value { vector_size: Some(size), kind, width, pointer_class: None },
        ),
        TypeInner::Matrix { columns, rows, width } => Some(
            LocalType::Matrix { columns, rows, width },
        ),
        TypeInner::Pointer { base, class } => Some(
            LocalType::Pointer { base, class: storage_class(class) },
        ),
        TypeInner::ValuePointer { size, kind, width, class } => Some(
            LocalType::Value {
                vector_size: size,
                kind,
                width,
                pointer_class: Some(storage_class(class)),
            },
        ),
        _ => None,
    }
}

/// The local type of a shape, if it has one.
pub fn make_local(inner: TypeInner) -> (local: Option<LocalType>)
    ensures
        local == local_type(inner),
{
    match inner {
        TypeInner::Scalar { kind, width } => Some(
            LocalType::Value { vector_size: None, kind, width, pointer_class: None },
        ),
        TypeInner::Vector { size, kind, width } => Some(
            LocalType::Value { vector_size: Some(size), kind, width, pointer_class: None },
        ),
        TypeInner::Matrix { columns, rows, width } => Some(
            LocalType::Matrix { columns, rows, width },
        ),
        TypeInner::Pointer { base, class } => Some(
            LocalType::Pointer { base, class: map_storage_class(class) },
        ),
        TypeInner::ValuePointer { size, kind, width, class } => Some(
            LocalType::Value {
                vector_size: size,
                kind,
                width,
                pointer_class: Some(map_storage_class(class)),
            },
        ),
        _ => None,
    }
}

/// The type to look up for the type of an expression.
pub open spec fn resolution_type(ty: TypeResolution) -> Option<LookupType> {
    match ty {
        TypeResolution::Handle(handle) => Some(LookupType::Handle(handle)),
        TypeResolution::Value(inner) => match local_type(inner) {
            Some(local) => Some(LookupType::Local(local)),
            None => None,
        },
    }
}

/// The type to look up for the type of an expression.
pub fn lookup_resolution(ty: TypeResolution) -> (lookup: LookupType)
    requires
        resolution_type(ty) is Some,
    ensures
        resolution_type(ty) == Some(lookup),
{
    match ty {
        TypeResolution::Handle(handle) => LookupType::Handle(handle),
        TypeResolution::Value(inner) => LookupType::Local(make_local(inner).unwrap()),
    }
}

} // verus!
