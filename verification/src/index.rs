//! Indexing, and the checks that keep it in bounds.

use spirv::Word;
use vstd::prelude::*;
use crate::context::{BlockContext, Env, State};
use crate::function::Block;
use crate::instruction::{Inst, Instruction};
use crate::ir::{ArraySize, ExprHandle, Expression, Module, TypeInner};
use crate::run::{Error, Run};
use crate::types::{bool_type, uint_type};
use crate::words::selection_control_none;
use crate::writer::IndexBoundsCheckPolicy;

verus! {

/// The outcome of a bounds check.
#[derive(Clone, Copy, Debug, PartialEq, Eq, Structural)]
pub enum BoundsCheckResult {
    /// The index is statically known and in bounds, with the given value.
    KnownInBounds(u32),
    /// The given instruction computes the index to be used.
    Computed(Word),
    /// The given instruction computes a condition which is true if the index
    /// is in bounds.
    Conditional(Word),
}

/// A value that is either known when code is generated, or computed at run time.
#[derive(Clone, Copy, Debug, PartialEq, Eq, Structural)]
pub enum MaybeKnown {
    Known(u32),
    Computed(Word),
}

/// The length of a type that can be indexed.
#[derive(Clone, Copy, Debug, PartialEq, Eq, Structural)]
pub enum IndexableLength {
    Known(u32),
    Dynamic,
}

/// The length of an array. It must not be missing from a constant that gives
/// it.
pub open spec fn array_size_length(module: Module, size: ArraySize) -> Option<
    Result<IndexableLength, Error>,
> {
    match size {
        ArraySize::Constant(handle) => match module.constant(handle) {
            Some(constant) => match constant.to_array_length() {
                Some(length) => Some(Ok(IndexableLength::Known(length))),
                None => Some(Err(Error::Validation("indexable length"))),
            },
            None => None,
        },
        ArraySize::Dynamic => Some(Ok(IndexableLength::Dynamic)),
    }
}

/// The length of a vector, a matrix or an array.
pub open spec fn value_length(module: Module, inner: TypeInner) -> Option<
    Result<IndexableLength, Error>,
> {
    match inner {
        TypeInner::Vector { size, .. } => Some(Ok(IndexableLength::Known(size.count()))),
        TypeInner::Matrix { columns, .. } => Some(Ok(IndexableLength::Known(columns.count()))),
        TypeInner::Array { size, .. } => array_size_length(module, size),
        _ => Some(Err(Error::Validation("indexable length"))),
    }
}

/// The length of a vector, a matrix or an array, or of what a pointer to one
/// of them points to.
pub open spec fn indexable_length(module: Module, inner: TypeInner) -> Option<
    Result<IndexableLength, Error>,
> {
    match inner {
        TypeInner::ValuePointer { size: Some(size), .. } => Some(
            Ok(IndexableLength::Known(size.count())),
        ),
        TypeInner::Pointer { base, .. } => match module.inner(base) {
            Some(inner) => value_length(module, inner),
            None => None,
        },
        _ => value_length(module, inner),
    }
}

/// The structure that a run-time sized array ends, and the member that the
/// array is: the array is accessed as a member of a global variable or of an
/// argument.
pub open spec fn array_owner(env: Env, array: ExprHandle) -> Option<Result<(Word, u32), Error>> {
    match env.fun.expression(array) {
        Some(Expression::AccessIndex { base, index }) => match env.fun.expression(base) {
            Some(Expression::GlobalVariable(handle)) => if handle.0
                < env.writer.global_variables.len() {
                Some(Ok((env.writer.global_variables[handle.0 as int].id, index)))
            } else {
                None
            },
            Some(Expression::FunctionArgument(parameter)) => match env.function.parameter_id(
                parameter,
            ) {
                Some(id) => Some(Ok((id, index))),
                None => None,
            },
            Some(_) => Some(Err(Error::Validation("array length expression"))),
            None => None,
        },
        Some(_) => Some(Err(Error::Validation("array length expression"))),
        None => None,
    }
}

/// Emits the length of a run-time sized array.
#[verifier::opaque]
pub open spec fn array_length_run(env: Env, s: State, array: ExprHandle) -> Run<State, Word> {
    match array_owner(env, array) {
        Some(Ok((structure, member))) => match s.fresh() {
            Some(s1) => match s1.type_id(env, uint_type()) {
                Some((s2, Ok(type_id))) => Some(
                    (
                        s2.push(Inst::array_length(type_id, s1.id(), structure, member)),
                        Ok(s1.id()),
                    ),
                ),
                failed => failed,
            },
            None => None,
        },
        Some(Err(error)) => Some((s, Err(error))),
        None => None,
    }
}

/// Emits the length of a sequence, unless it is known.
#[verifier::opaque]
pub open spec fn sequence_length_run(env: Env, s: State, sequence: ExprHandle) -> Run<
    State,
    MaybeKnown,
> {
    match env.inner(sequence) {
        Some(inner) => match indexable_length(env.module, inner) {
            Some(Ok(IndexableLength::Known(length))) => Some((s, Ok(MaybeKnown::Known(length)))),
            Some(Ok(IndexableLength::Dynamic)) => match array_length_run(env, s, sequence) {
                Some((s1, Ok(length_id))) => Some((s1, Ok(MaybeKnown::Computed(length_id)))),
                Some((s1, Err(error))) => Some((s1, Err(error))),
                None => None,
            },
            Some(Err(error)) => Some((s, Err(error))),
            None => None,
        },
        None => None,
    }
}

/// Emits the greatest valid index into a sequence, unless it is known. The
/// sequence is not empty.
#[verifier::opaque]
pub open spec fn max_index_run(env: Env, s: State, sequence: ExprHandle) -> Run<
    State,
    MaybeKnown,
> {
    match sequence_length_run(env, s, sequence) {
        Some((s1, Ok(MaybeKnown::Known(length)))) => if length > 0 {
            Some((s1, Ok(MaybeKnown::Known((length - 1) as u32))))
        } else {
            None
        },
        Some((s1, Ok(MaybeKnown::Computed(length_id)))) => match s1.index_id(env, 1) {
            Some((s2, Ok(one_id))) => match s2.fresh() {
                Some(s3) => match s3.type_id(env, uint_type()) {
                    Some((s4, Ok(type_id))) => Some(
                        (
                            s4.push(
                                Inst::binary(
                                    spirv::Op::ISub,
                                    type_id,
                                    s3.id(),
                                    length_id,
                                    one_id,
                                ),
                            ),
                            Ok(MaybeKnown::Computed(s3.id())),
                        ),
                    ),
                    Some((s4, Err(error))) => Some((s4, Err(error))),
                    None => None,
                },
                None => None,
            },
            Some((s2, Err(error))) => Some((s2, Err(error))),
            None => None,
        },
        failed => failed,
    }
}

/// The value of an index that is a constant. `None` where the index is out of
/// range of the arenas.
pub open spec fn known_index(env: Env, index: ExprHandle) -> Option<Option<u32>> {
    match env.fun.expression(index) {
        Some(Expression::Constant(handle)) => match env.module.constant(handle) {
            Some(constant) => Some(constant.to_array_length()),
            None => None,
        },
        Some(_) => Some(None),
        None => None,
    }
}

/// Emits the smaller of an index and a limit.
#[verifier::opaque]
pub open spec fn clamp_run(env: Env, s: State, index_id: Word, limit_id: Word) -> Run<
    State,
    BoundsCheckResult,
> {
    match s.fresh() {
        Some(s1) => match s1.type_id(env, uint_type()) {
            Some((s2, Ok(type_id))) => Some(
                (
                    s2.push(
                        Inst::ext_inst(
                            env.writer.gl450_ext_inst_id,
                            spirv::GLOp::UMin,
                            type_id,
                            s1.id(),
                            seq![index_id, limit_id],
                        ),
                    ),
                    Ok(BoundsCheckResult::Computed(s1.id())),
                ),
            ),
            Some((s2, Err(error))) => Some((s2, Err(error))),
            None => None,
        },
        None => None,
    }
}

/// Emits an index that is in bounds: the given one where it is, the greatest
/// valid one where it is not.
#[verifier::opaque]
pub open spec fn restricted_index_run(
    env: Env,
    s: State,
    base: ExprHandle,
    index: ExprHandle,
) -> Run<State, BoundsCheckResult> {
    match s.operand(index) {
        Some(index_id) => match max_index_run(env, s, base) {
            Some((s1, Ok(MaybeKnown::Known(max)))) => match known_index(env, index) {
                Some(Some(known)) => Some(
                    (
                        s1,
                        Ok(
                            BoundsCheckResult::KnownInBounds(
                                if known <= max {
                                    known
                                } else {
                                    max
                                },
                            ),
                        ),
                    ),
                ),
                Some(None) => match s1.index_id(env, max) {
                    Some((s2, Ok(max_id))) => clamp_run(env, s2, index_id, max_id),
                    Some((s2, Err(error))) => Some((s2, Err(error))),
                    None => None,
                },
                None => None,
            },
            Some((s1, Ok(MaybeKnown::Computed(max_id)))) => clamp_run(env, s1, index_id, max_id),
            Some((s1, Err(error))) => Some((s1, Err(error))),
            None => None,
        },
        None => None,
    }
}

/// Emits the comparison of an index with a length.
#[verifier::opaque]
pub open spec fn compare_run(env: Env, s: State, index_id: Word, length_id: Word) -> Run<
    State,
    BoundsCheckResult,
> {
    match s.fresh() {
        Some(s1) => match s1.type_id(env, bool_type()) {
            Some((s2, Ok(type_id))) => Some(
                (
                    s2.push(
                        Inst::binary(spirv::Op::ULessThan, type_id, s1.id(), index_id, length_id),
                    ),
                    Ok(BoundsCheckResult::Conditional(s1.id())),
                ),
            ),
            Some((s2, Err(error))) => Some((s2, Err(error))),
            None => None,
        },
        None => None,
    }
}

/// Emits a condition that is true where an index is in bounds. A constant
/// index that is in bounds of a known length needs none; one that is out of
/// bounds is compared at run time.
#[verifier::opaque]
pub open spec fn index_comparison_run(
    env: Env,
    s: State,
    base: ExprHandle,
    index: ExprHandle,
) -> Run<State, BoundsCheckResult> {
    match s.operand(index) {
        Some(index_id) => match sequence_length_run(env, s, base) {
            Some((s1, Ok(MaybeKnown::Known(length)))) => match known_index(env, index) {
                Some(known) => if known is Some && known->0 < length {
                    Some((s1, Ok(BoundsCheckResult::KnownInBounds(known->0))))
                } else {
                    match s1.index_id(env, length) {
                        Some((s2, Ok(length_id))) => compare_run(env, s2, index_id, length_id),
                        Some((s2, Err(error))) => Some((s2, Err(error))),
                        None => None,
                    }
                },
                None => None,
            },
            Some((s1, Ok(MaybeKnown::Computed(length_id)))) => compare_run(
                env,
                s1,
                index_id,
                length_id,
            ),
            Some((s1, Err(error))) => Some((s1, Err(error))),
            None => None,
        },
        None => None,
    }
}

/// Emits what the policy asks for to index `base` by `index`.
#[verifier::opaque]
pub open spec fn bounds_check_run(
    env: Env,
    s: State,
    base: ExprHandle,
    index: ExprHandle,
) -> Run<State, BoundsCheckResult> {
    match env.writer.index_bounds_check_policy {
        IndexBoundsCheckPolicy::Restrict => restricted_index_run(env, s, base, index),
        IndexBoundsCheckPolicy::ReadZeroSkipWrite => index_comparison_run(env, s, base, index),
        IndexBoundsCheckPolicy::UndefinedBehavior => match s.operand(index) {
            Some(index_id) => Some((s, Ok(BoundsCheckResult::Computed(index_id)))),
            None => None,
        },
    }
}

/// The ids of a load that takes place under a condition.
#[derive(Clone, Copy, Debug, PartialEq, Eq, Structural)]
pub struct Guard {
    /// The value where the condition does not hold.
    pub null_id: Word,
    /// The value of the whole.
    pub result_id: Word,
    /// The block that tests the condition.
    pub header: Word,
    /// The block where both ways meet.
    pub merge: Word,
    /// The block where the condition holds.
    pub in_bounds: Word,
}

/// Emits a branch on a condition, and begins the block where it holds.
#[verifier::opaque]
pub open spec fn guard_run(s: State, result_type: Word, condition: Word) -> Option<
    (State, Guard),
> {
    match s.null(result_type) {
        Some(s1) => match s1.fresh() {
            Some(s2) => match s2.fresh() {
                Some(s3) => match s3.fresh() {
                    Some(s4) => Some(
                        (
                            s4.push(Inst::selection_merge(s3.id(), 0)).switch_to(
                                Inst::branch_conditional(condition, s4.id(), s3.id()),
                                s4.id(),
                            ),
                            Guard {
                                null_id: s1.id(),
                                result_id: s2.id(),
                                header: s.block.label,
                                merge: s3.id(),
                                in_bounds: s4.id(),
                            },
                        ),
                    ),
                    None => None,
                },
                None => None,
            },
            None => None,
        },
        None => None,
    }
}

/// Ends the block where the condition holds, and begins the one where both
/// ways meet with the value of the whole.
#[verifier::opaque]
pub open spec fn unguard(s: State, result_type: Word, guard: Guard, value_id: Word) -> State {
    s.switch_to(Inst::branch(guard.merge), guard.merge).push(
        Inst::phi(
            result_type,
            guard.result_id,
            guard.null_id,
            guard.header,
            value_id,
            guard.in_bounds,
        ),
    )
}

/// Emits one component of a vector, at an index that is computed.
#[verifier::opaque]
pub open spec fn vector_access_run(
    env: Env,
    s: State,
    expr: ExprHandle,
    base: ExprHandle,
    index: ExprHandle,
) -> Run<State, Word> {
    match (env.lookup(expr), s.operand(base), s.operand(index)) {
        (Some(ty), Some(base_id), Some(index_id)) => match s.type_id(env, ty) {
            Some((s1, Ok(type_id))) => match bounds_check_run(env, s1, base, index) {
                Some((s2, Ok(BoundsCheckResult::KnownInBounds(known)))) => match s2.fresh() {
                    Some(s3) => Some(
                        (
                            s3.push(Inst::composite_extract(type_id, s3.id(), base_id, known)),
                            Ok(s3.id()),
                        ),
                    ),
                    None => None,
                },
                Some((s2, Ok(BoundsCheckResult::Computed(computed)))) => match s2.fresh() {
                    Some(s3) => Some(
                        (
                            s3.push(
                                Inst::vector_extract_dynamic(
                                    type_id,
                                    s3.id(),
                                    base_id,
                                    computed,
                                ),
                            ),
                            Ok(s3.id()),
                        ),
                    ),
                    None => None,
                },
                Some((s2, Ok(BoundsCheckResult::Conditional(condition)))) => match guard_run(
                    s2,
                    type_id,
                    condition,
                ) {
                    Some((s3, guard)) => match s3.fresh() {
                        Some(s4) => Some(
                            (
                                unguard(
                                    s4.push(
                                        Inst::vector_extract_dynamic(
                                            type_id,
                                            s4.id(),
                                            base_id,
                                            index_id,
                                        ),
                                    ),
                                    type_id,
                                    guard,
                                    s4.id(),
                                ),
                                Ok(guard.result_id),
                            ),
                        ),
                        None => None,
                    },
                    None => None,
                },
                Some((s2, Err(error))) => Some((s2, Err(error))),
                None => None,
            },
            failed => failed,
        },
        _ => None,
    }
}

/// The length of an array.
fn size_length(module: &Module, size: ArraySize) -> (result: Result<IndexableLength, Error>)
    requires
        array_size_length(*module, size) is Some,
    ensures
        array_size_length(*module, size) == Some(result),
{
    match size {
        ArraySize::Constant(handle) => match module.constants[handle.0 as usize].to_array_length() {
            Some(length) => Ok(IndexableLength::Known(length)),
            None => Err(Error::Validation("indexable length")),
        },
        ArraySize::Dynamic => Ok(IndexableLength::Dynamic),
    }
}

/// The length of a vector, a matrix or an array.
fn length_of_value(module: &Module, inner: TypeInner) -> (result: Result<IndexableLength, Error>)
    requires
        value_length(*module, inner) is Some,
    ensures
        value_length(*module, inner) == Some(result),
{
    match inner {
        TypeInner::Vector { size, .. } => Ok(IndexableLength::Known(size.count())),
        TypeInner::Matrix { columns, .. } => Ok(IndexableLength::Known(columns.count())),
        TypeInner::Array { size, .. } => size_length(module, size),
        _ => Err(Error::Validation("indexable length")),
    }
}

/// The length of a vector, a matrix or an array, or of what a pointer to one
/// of them points to.
fn length_of(module: &Module, inner: TypeInner) -> (result: Result<IndexableLength, Error>)
    requires
        indexable_length(*module, inner) is Some,
    ensures
        indexable_length(*module, inner) == Some(result),
{
    match inner {
        TypeInner::ValuePointer { size: Some(size), .. } => Ok(
            IndexableLength::Known(size.count()),
        ),
        TypeInner::Pointer { base, .. } => length_of_value(
            module,
            module.types[base.0 as usize].inner,
        ),
        _ => length_of_value(module, inner),
    }
}

impl<'w> BlockContext<'w> {
    /// Emits the length of a run-time sized array.
    pub fn write_runtime_array_length(
        &mut self,
        array: ExprHandle,
        block: &mut Block,
    ) -> (result: Result<Word, Error>)
        requires
            array_length_run(old(self).env(), old(self).state(*old(block)), array) is Some,
        ensures
            array_length_run(old(self).env(), old(self).state(*old(block)), array) == Some(
                (final(self).state(*final(block)), result),
            ),
            final(self).env() == old(self).env(),
    {
        proof {
            reveal(array_length_run);
        }
        let (structure_id, member_index) = match &self.ir_function.expressions[array.0 as usize] {
            Expression::AccessIndex { base, index } => {
                match &self.ir_function.expressions[base.0 as usize] {
                    Expression::GlobalVariable(handle) => (
                        self.writer.global_variables[handle.0 as usize].id,
                        *index,
                    ),
                    Expression::FunctionArgument(parameter) => (
                        self.function.parameter_id(*parameter),
                        *index,
                    ),
                    _ => {
                        return Err(Error::Validation("array length expression"));
                    },
                }
            },
            _ => {
                return Err(Error::Validation("array length expression"));
            },
        };
        let length_id: Word = self.gen_id();
        let type_id: Word = self.writer.get_uint_type_id()?;
        block.push(Instruction::array_length(type_id, length_id, structure_id, member_index));
        Ok(length_id)
    }

    /// Emits the length of a sequence, unless it is known.
    fn write_sequence_length(
        &mut self,
        sequence: ExprHandle,
        block: &mut Block,
    ) -> (result: Result<MaybeKnown, Error>)
        requires
            sequence_length_run(old(self).env(), old(self).state(*old(block)), sequence) is Some,
        ensures
            sequence_length_run(old(self).env(), old(self).state(*old(block)), sequence) == Some(
                (final(self).state(*final(block)), result),
            ),
            final(self).env() == old(self).env(),
    {
        proof {
            reveal(sequence_length_run);
        }
        let inner = self.inner(sequence);
        match length_of(self.ir_module, inner)? {
            IndexableLength::Known(length) => Ok(MaybeKnown::Known(length)),
            IndexableLength::Dynamic => {
                let length_id: Word = self.write_runtime_array_length(sequence, block)?;
                Ok(MaybeKnown::Computed(length_id))
            },
        }
    }

    /// Emits the greatest valid index into a sequence, unless it is known.
    fn write_sequence_max_index(
        &mut self,
        sequence: ExprHandle,
        block: &mut Block,
    ) -> (result: Result<MaybeKnown, Error>)
        requires
            max_index_run(old(self).env(), old(self).state(*old(block)), sequence) is Some,
        ensures
            max_index_run(old(self).env(), old(self).state(*old(block)), sequence) == Some(
                (final(self).state(*final(block)), result),
            ),
            final(self).env() == old(self).env(),
    {
        proof {
            reveal(max_index_run);
        }
        match self.write_sequence_length(sequence, block)? {
            MaybeKnown::Known(length) => Ok(MaybeKnown::Known(length - 1)),
            MaybeKnown::Computed(length_id) => {
                let one_id: Word = self.get_index_constant(1)?;
                let max_index_id: Word = self.gen_id();
                let type_id: Word = self.writer.get_uint_type_id()?;
                block.push(
                    Instruction::binary(
                        spirv::Op::ISub,
                        type_id,
                        max_index_id,
                        length_id,
                        one_id,
                    ),
                );
                Ok(MaybeKnown::Computed(max_index_id))
            },
        }
    }

    /// The value of an index that is a constant.
    fn constant_index(&self, index: ExprHandle) -> (value: Option<u32>)
        requires
            known_index(self.env(), index) is Some,
        ensures
            known_index(self.env(), index) == Some(value),
    {
        match &self.ir_function.expressions[index.0 as usize] {
            Expression::Constant(handle) => {
                self.ir_module.constants[handle.0 as usize].to_array_length()
            },
            _ => None,
        }
    }

    /// Emits an index that is in bounds.
    fn write_restricted_index(
        &mut self,
        base: ExprHandle,
        index: ExprHandle,
        block: &mut Block,
    ) -> (result: Result<BoundsCheckResult, Error>)
        requires
            restricted_index_run(
                old(self).env(),
                old(self).state(*old(block)),
                base,
                index,
            ) is Some,
        ensures
            restricted_index_run(old(self).env(), old(self).state(*old(block)), base, index)
                == Some((final(self).state(*final(block)), result)),
            final(self).env() == old(self).env(),
    {
        proof {
            reveal(restricted_index_run);
            reveal(clamp_run);
        }
        let index_id: Word = self.operand(index);
        let max_index_id: Word = match self.write_sequence_max_index(base, block)? {
            MaybeKnown::Known(max) => {
                if let Some(known) = self.constant_index(index) {
                    let restricted: u32 = if known <= max {
                        known
                    } else {
                        max
                    };
                    return Ok(BoundsCheckResult::KnownInBounds(restricted));
                }
                self.get_index_constant(max)?
            },
            MaybeKnown::Computed(max_index_id) => max_index_id,
        };
        let restricted_index_id: Word = self.gen_id();
        let type_id: Word = self.writer.get_uint_type_id()?;
        block.push(
            Instruction::ext_inst(
                self.writer.gl450_ext_inst_id,
                spirv::GLOp::UMin,
                type_id,
                restricted_index_id,
                &vec![index_id, max_index_id],
            ),
        );
        Ok(BoundsCheckResult::Computed(restricted_index_id))
    }

    /// Emits a condition that is true where an index is in bounds.
    fn write_index_comparison(
        &mut self,
        base: ExprHandle,
        index: ExprHandle,
        block: &mut Block,
    ) -> (result: Result<BoundsCheckResult, Error>)
        requires
            index_comparison_run(
                old(self).env(),
                old(self).state(*old(block)),
                base,
                index,
            ) is Some,
        ensures
            index_comparison_run(old(self).env(), old(self).state(*old(block)), base, index)
                == Some((final(self).state(*final(block)), result)),
            final(self).env() == old(self).env(),
    {
        proof {
            reveal(index_comparison_run);
            reveal(compare_run);
        }
        let index_id: Word = self.operand(index);
        let length_id: Word = match self.write_sequence_length(base, block)? {
            MaybeKnown::Known(length) => {
                if let Some(known) = self.constant_index(index) {
                    if known < length {
                        return Ok(BoundsCheckResult::KnownInBounds(known));
                    }
                }
                self.get_index_constant(length)?
            },
            MaybeKnown::Computed(length_id) => length_id,
        };
        let condition_id: Word = self.gen_id();
        let type_id: Word = self.writer.get_bool_type_id()?;
        block.push(
            Instruction::binary(
                spirv::Op::ULessThan,
                type_id,
                condition_id,
                index_id,
                length_id,
            ),
        );
        Ok(BoundsCheckResult::Conditional(condition_id))
    }

    /// Emits what the policy asks for to index `base` by `index`.
    pub fn write_bounds_check(
        &mut self,
        base: ExprHandle,
        index: ExprHandle,
        block: &mut Block,
    ) -> (result: Result<BoundsCheckResult, Error>)
        requires
            bounds_check_run(old(self).env(), old(self).state(*old(block)), base, index) is Some,
        ensures
            bounds_check_run(old(self).env(), old(self).state(*old(block)), base, index) == Some(
                (final(self).state(*final(block)), result),
            ),
            final(self).env() == old(self).env(),
    {
        proof {
            reveal(bounds_check_run);
        }
        match self.writer.index_bounds_check_policy {
            IndexBoundsCheckPolicy::Restrict => self.write_restricted_index(base, index, block),
            IndexBoundsCheckPolicy::ReadZeroSkipWrite => self.write_index_comparison(
                base,
                index,
                block,
            ),
            IndexBoundsCheckPolicy::UndefinedBehavior => Ok(
                BoundsCheckResult::Computed(self.operand(index)),
            ),
        }
    }

    /// Emits a branch on a condition, and begins the block where it holds.
    pub fn write_guard(
        &mut self,
        result_type: Word,
        condition: Word,
        block: &mut Block,
    ) -> (guard: Guard)
        requires
            guard_run(old(self).state(*old(block)), result_type, condition) is Some,
        ensures
            guard_run(old(self).state(*old(block)), result_type, condition) == Some(
                (final(self).state(*final(block)), guard),
            ),
            final(self).env() == old(self).env(),
    {
        proof {
            reveal(guard_run);
        }
        let header: Word = block.label_id;
        // Out of bounds, the value is zero.
        let null_id: Word = self.writer.write_constant_null(result_type);
        let result_id: Word = self.gen_id();
        let merge: Word = self.gen_id();
        let in_bounds: Word = self.gen_id();
        block.push(Instruction::selection_merge(merge, selection_control_none()));
        self.switch_to(
            block,
            Instruction::branch_conditional(condition, in_bounds, merge),
            in_bounds,
        );
        Guard { null_id, result_id, header, merge, in_bounds }
    }

    /// Ends the block where the condition holds, and begins the one where both
    /// ways meet with the value of the whole.
    pub fn write_unguard(
        &mut self,
        result_type: Word,
        guard: Guard,
        value_id: Word,
        block: &mut Block,
    )
        ensures
            final(self).state(*final(block)) == unguard(
                old(self).state(*old(block)),
                result_type,
                guard,
                value_id,
            ),
            final(self).env() == old(self).env(),
    {
        proof {
            reveal(unguard);
        }
        self.switch_to(block, Instruction::branch(guard.merge), guard.merge);
        block.push(
            Instruction::phi(
                result_type,
                guard.result_id,
                guard.null_id,
                guard.header,
                value_id,
                guard.in_bounds,
            ),
        );
    }

    /// Emits one component of a vector, at an index that is computed.
    pub fn write_vector_access(
        &mut self,
        expr_handle: ExprHandle,
        base: ExprHandle,
        index: ExprHandle,
        block: &mut Block,
    ) -> (result: Result<Word, Error>)
        requires
            vector_access_run(
                old(self).env(),
                old(self).state(*old(block)),
                expr_handle,
                base,
                index,
            ) is Some,
        ensures
            vector_access_run(
                old(self).env(),
                old(self).state(*old(block)),
                expr_handle,
                base,
                index,
            ) == Some((final(self).state(*final(block)), result)),
            final(self).env() == old(self).env(),
    {
        proof {
            reveal(vector_access_run);
        }
        let base_id: Word = self.operand(base);
        let index_id: Word = self.operand(index);
        let type_id: Word = self.get_expression_type_id(
            self.fun_info.types[expr_handle.0 as usize],
        )?;
        match self.write_bounds_check(base, index, block)? {
            BoundsCheckResult::KnownInBounds(known) => {
                let id: Word = self.gen_id();
                block.push(Instruction::composite_extract(type_id, id, base_id, known));
                Ok(id)
            },
            BoundsCheckResult::Computed(computed) => {
                let id: Word = self.gen_id();
                block.push(Instruction::vector_extract_dynamic(type_id, id, base_id, computed));
                Ok(id)
            },
            BoundsCheckResult::Conditional(condition) => {
                let guard = self.write_guard(type_id, condition, block);
                let id: Word = self.gen_id();
                block.push(Instruction::vector_extract_dynamic(type_id, id, base_id, index_id));
                self.write_unguard(type_id, guard, id, block);
                Ok(guard.result_id)
            },
        }
    }
}

} // verus!
