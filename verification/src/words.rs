//! The SPIR-V vocabulary: enumerations and operand masks of the `spirv` crate.
//!
//! The plain enumerations are declared to the verifier with all their
//! variants, so that the generator names opcodes, storage classes, scopes and
//! capabilities directly. The operand masks are bit sets whose representation
//! is private to `spirv`; each is described here by a structure of flags, and
//! a function asks `spirv` for the bits that stand for the flags.

use spirv::Word;
use vstd::prelude::*;

verus! {

/// `spirv::Op`, the opcodes, with its variants visible.
#[verifier::external_type_specification]
pub struct ExOp(spirv::Op);

/// `spirv::GLOp`, the extended instructions of `GLSL.std.450`, with its
/// variants visible.
#[verifier::external_type_specification]
pub struct ExGlOp(spirv::GLOp);

/// `spirv::StorageClass` with its variants visible.
#[verifier::external_type_specification]
pub struct ExStorageClass(spirv::StorageClass);

/// `spirv::Scope` with its variants visible.
#[verifier::external_type_specification]
pub struct ExScope(spirv::Scope);

/// `spirv::Capability` with its variants visible.
#[verifier::external_type_specification]
pub struct ExCapability(spirv::Capability);

/// The optional operands of an image instruction, as a set of flags.
#[derive(Clone, Copy, Debug, PartialEq, Eq, Structural)]
pub struct ImageOperands {
    pub bias: bool,
    pub lod: bool,
    pub grad: bool,
    pub const_offset: bool,
    pub sample: bool,
}

impl ImageOperands {
    /// The empty set.
    pub open spec fn spec_none() -> ImageOperands {
        ImageOperands { bias: false, lod: false, grad: false, const_offset: false, sample: false }
    }

    /// The empty set.
    #[verifier::when_used_as_spec(spec_none)]
    pub fn none() -> (operands: ImageOperands)
        ensures
            operands == ImageOperands::spec_none(),
    {
        ImageOperands { bias: false, lod: false, grad: false, const_offset: false, sample: false }
    }

    /// The mask of the set: the sum of the bits of the flags that are up.
    pub open spec fn mask(self) -> Word {
        ((if self.bias { 1int } else { 0 })
            + (if self.lod { 2int } else { 0 })
            + (if self.grad { 4int } else { 0 })
            + (if self.const_offset { 8int } else { 0 })
            + (if self.sample { 64int } else { 0 })) as Word
    }

    /// The mask that `spirv::ImageOperands` gives the set.
    ///
    /// The flags are set one by one in an empty `spirv::ImageOperands`, with
    /// `set`, and its `bits` are returned. Claimed of `spirv`: `BIAS` is bit 0,
    /// `LOD` bit 1, `GRAD` bit 2, `CONST_OFFSET` bit 3 and `SAMPLE` bit 6, and
    /// `bits` holds those that were set and no others.
    #[verifier::external_body]
    pub(crate) fn bits(self) -> (bits: Word)
        ensures
            bits == self.mask(),
    {
        let mut operands = spirv::ImageOperands::empty();
        operands.set(spirv::ImageOperands::BIAS, self.bias);
        operands.set(spirv::ImageOperands::LOD, self.lod);
        operands.set(spirv::ImageOperands::GRAD, self.grad);
        operands.set(spirv::ImageOperands::CONST_OFFSET, self.const_offset);
        operands.set(spirv::ImageOperands::SAMPLE, self.sample);
        operands.bits()
    }
}

/// The memory semantics of a barrier, as a set of flags.
#[derive(Clone, Copy, Debug, PartialEq, Eq, Structural)]
pub struct MemorySemantics {
    pub acquire_release: bool,
    pub uniform_memory: bool,
    pub workgroup_memory: bool,
}

impl MemorySemantics {
    /// The mask of the set: the sum of the bits of the flags that are up.
    pub open spec fn mask(self) -> Word {
        ((if self.acquire_release { 8int } else { 0 })
            + (if self.uniform_memory { 64int } else { 0 })
            + (if self.workgroup_memory { 256int } else { 0 })) as Word
    }

    /// The mask that `spirv::MemorySemantics` gives the set.
    ///
    /// The flags are set one by one in an empty `spirv::MemorySemantics`, with
    /// `set`, and its `bits` are returned. Claimed of `spirv`:
    /// `ACQUIRE_RELEASE` is bit 3, `UNIFORM_MEMORY` bit 6 and
    /// `WORKGROUP_MEMORY` bit 8, and `bits` holds those that were set and no
    /// others.
    #[verifier::external_body]
    pub(crate) fn bits(self) -> (bits: Word)
        ensures
            bits == self.mask(),
    {
        let mut semantics = spirv::MemorySemantics::empty();
        semantics.set(spirv::MemorySemantics::ACQUIRE_RELEASE, self.acquire_release);
        semantics.set(spirv::MemorySemantics::UNIFORM_MEMORY, self.uniform_memory);
        semantics.set(spirv::MemorySemantics::WORKGROUP_MEMORY, self.workgroup_memory);
        semantics.bits()
    }
}

/// The mask of `spirv::SelectionControl::NONE`.
///
/// Claimed of `spirv`: the `bits` of `NONE` are zero.
#[verifier::external_body]
pub(crate) fn selection_control_none() -> (bits: Word)
    ensures
        bits == 0,
{
    spirv::SelectionControl::NONE.bits()
}

/// Whether two storage classes are the same.
pub fn same_class(a: spirv::StorageClass, b: spirv::StorageClass) -> (same: bool)
    ensures
        same == (a == b),
{
    a as u32 == b as u32
}

/// Whether two capabilities are the same.
pub fn same_capability(a: spirv::Capability, b: spirv::Capability) -> (same: bool)
    ensures
        same == (a == b),
{
    a as u32 == b as u32
}

} // verus!
