//! Statements that keep control in a straight line.

use spirv::Word;
use vstd::prelude::*;
use crate::context::{image_id, BlockContext, Code, Env, State};
use crate::expression::{cache_run, operands};
use crate::function::Block;
use crate::image::coordinates_run;
use crate::instruction::{Inst, Instruction};
use crate::ir::{Barrier, ExprHandle, FunctionHandle};
use crate::pointer::{pointer_run, ExpressionPointer, Pointer};
use crate::run::{Error, Run};
use crate::types::LookupType;
use crate::words::{selection_control_none, MemorySemantics};

verus! {

broadcast use vstd::std_specs::hash::group_hash_axioms;

/// Emits the values of the expressions from `start` up to `end`.
pub open spec fn emit_run(env: Env, s: State, start: u32, end: u32) -> Run<State, ()>
    decreases end - start,
{
    if start >= end {
        Some((s, Ok(())))
    } else {
        match cache_run(env, s, ExprHandle(start)) {
            Some((s1, Ok(_))) => emit_run(env, s1, (start + 1) as u32, end),
            failed => failed,
        }
    }
}

/// The memory that a barrier orders, besides that it acquires and releases.
pub open spec fn barrier_semantics(barrier: Barrier) -> MemorySemantics {
    MemorySemantics {
        acquire_release: true,
        uniform_memory: barrier.storage,
        workgroup_memory: barrier.work_group,
    }
}

/// The invocations that a barrier's effect on memory reaches: all of the
/// device's for storage buffers, else those of the work group.
pub open spec fn memory_scope(barrier: Barrier) -> spirv::Scope {
    if barrier.storage {
        spirv::Scope::Device
    } else {
        spirv::Scope::Workgroup
    }
}

/// Emits a barrier.
#[verifier::opaque]
pub open spec fn barrier_run(env: Env, s: State, barrier: Barrier) -> Run<State, ()> {
    match s.index_id(env, spirv::Scope::Workgroup as u32) {
        Some((s1, Ok(exec_scope_id))) => match s1.index_id(env, memory_scope(barrier) as u32) {
            Some((s2, Ok(mem_scope_id))) => match s2.index_id(
                env,
                barrier_semantics(barrier).mask(),
            ) {
                Some((s3, Ok(semantics_id))) => Some(
                    (
                        s3.push(Inst::control_barrier(exec_scope_id, mem_scope_id, semantics_id)),
                        Ok(()),
                    ),
                ),
                Some((s3, Err(error))) => Some((s3, Err(error))),
                None => None,
            },
            Some((s2, Err(error))) => Some((s2, Err(error))),
            None => None,
        },
        Some((s1, Err(error))) => Some((s1, Err(error))),
        None => None,
    }
}

/// Emits a store. One that is conditional on bounds checks is skipped where an
/// index is out of bounds.
#[verifier::opaque]
pub open spec fn store_run(env: Env, s: State, pointer: ExprHandle, value: ExprHandle) -> Run<
    State,
    (),
> {
    match (s.operand(value), pointer_run(env, s, pointer)) {
        (Some(value_id), Some((s1, Ok(Pointer::Ready { pointer_id })))) => Some(
            (s1.push(Inst::store(pointer_id, value_id)), Ok(())),
        ),
        (Some(value_id), Some((s1, Ok(Pointer::Conditional { condition, access })))) => match (
            s1.fresh(),
            access.result_id,
        ) {
            (Some(s2), Some(pointer_id)) => match s2.fresh() {
                Some(s3) => {
                    let merge = s2.id();
                    let in_bounds = s3.id();
                    Some(
                        (
                            s3.push(Inst::selection_merge(merge, 0)).switch_to(
                                Inst::branch_conditional(condition, in_bounds, merge),
                                in_bounds,
                            ).push(access).push(Inst::store(pointer_id, value_id)).switch_to(
                                Inst::branch(merge),
                                merge,
                            ),
                            Ok(()),
                        ),
                    )
                },
                None => None,
            },
            _ => None,
        },
        (Some(_), Some((s1, Err(error)))) => Some((s1, Err(error))),
        _ => None,
    }
}

/// Emits a store to an image.
#[verifier::opaque]
pub open spec fn image_store_run(
    env: Env,
    s: State,
    image: ExprHandle,
    coordinate: ExprHandle,
    array_index: Option<ExprHandle>,
    value: ExprHandle,
) -> Run<State, ()> {
    match (image_id(env, image), coordinates_run(env, s, coordinate, array_index)) {
        (Some(image_id), Some((s1, Ok(coordinate_id)))) => match s1.operand(value) {
            Some(value_id) => Some(
                (s1.push(Inst::image_write(image_id, coordinate_id, value_id)), Ok(())),
            ),
            None => None,
        },
        (Some(_), Some((s1, Err(error)))) => Some((s1, Err(error))),
        _ => None,
    }
}

/// Emits the type of a call's result, which is recorded as the value of an
/// expression. Without a result the type is `void`.
#[verifier::opaque]
pub open spec fn call_type_run(
    env: Env,
    s: State,
    id: Word,
    function: FunctionHandle,
    result: Option<ExprHandle>,
) -> Run<State, Word> {
    match result {
        Some(expr) => match (s.cache(expr, id), env.module.result_type(function)) {
            (Some(s1), Some(ty)) => {
                let writer = s1.code.writer.with_call(expr.0, id);
                (State { code: Code { writer, ..s1.code }, ..s1 }).type_id(
                    env,
                    LookupType::Handle(ty),
                )
            },
            _ => None,
        },
        None => Some((s, Ok(env.writer.void_type))),
    }
}

/// Emits a call of a function.
#[verifier::opaque]
pub open spec fn call_run(
    env: Env,
    s: State,
    function: FunctionHandle,
    arguments: Seq<ExprHandle>,
    result: Option<ExprHandle>,
) -> Run<State, ()> {
    match (s.fresh(), operands(s.code, arguments)) {
        (Some(s1), Some(argument_ids)) => match call_type_run(
            env,
            s1,
            s1.id(),
            function,
            result,
        ) {
            Some((s2, Ok(type_id))) => if env.writer.functions.contains_key(function.0) {
                Some(
                    (
                        s2.push(
                            Inst::function_call(
                                type_id,
                                s1.id(),
                                env.writer.functions[function.0],
                                argument_ids,
                            ),
                        ),
                        Ok(()),
                    ),
                )
            } else {
                None
            },
            Some((s2, Err(error))) => Some((s2, Err(error))),
            None => None,
        },
        _ => None,
    }
}

impl<'w> BlockContext<'w> {
    /// Emits the values of a range of expressions.
    pub fn write_emit(
        &mut self,
        start: u32,
        end: u32,
        block: &mut Block,
    ) -> (result: Result<(), Error>)
        requires
            emit_run(old(self).env(), old(self).state(*old(block)), start, end) is Some,
        ensures
            emit_run(old(self).env(), old(self).state(*old(block)), start, end) == Some(
                (final(self).state(*final(block)), result),
            ),
            final(self).env() == old(self).env(),
    {
        let ghost env = self.env();
        let ghost whole = emit_run(env, self.state(*block), start, end);
        let mut i: u32 = start;
        while i < end
            invariant
                whole is Some,
                env == old(self).env(),
                self.env() == env,
                whole == emit_run(env, old(self).state(*old(block)), start, end),
                whole == emit_run(env, self.state(*block), i, end),
            decreases end - i,
        {
            self.cache_expression_value(ExprHandle(i), block)?;
            i += 1;
        }
        Ok(())
    }

    /// Emits a barrier.
    pub fn write_barrier(
        &mut self,
        flags: Barrier,
        block: &mut Block,
    ) -> (result: Result<(), Error>)
        requires
            barrier_run(old(self).env(), old(self).state(*old(block)), flags) is Some,
        ensures
            barrier_run(old(self).env(), old(self).state(*old(block)), flags) == Some(
                (final(self).state(*final(block)), result),
            ),
            final(self).env() == old(self).env(),
    {
        proof {
            reveal(barrier_run);
        }
        let memory_scope = if flags.storage {
            spirv::Scope::Device
        } else {
            spirv::Scope::Workgroup
        };
        let semantics = MemorySemantics {
            acquire_release: true,
            uniform_memory: flags.storage,
            workgroup_memory: flags.work_group,
        };
        let exec_scope_id: Word = self.get_index_constant(spirv::Scope::Workgroup as u32)?;
        let mem_scope_id: Word = self.get_index_constant(memory_scope as u32)?;
        let semantics_id: Word = self.get_index_constant(semantics.bits())?;
        block.push(Instruction::control_barrier(exec_scope_id, mem_scope_id, semantics_id));
        Ok(())
    }

    /// Emits a store.
    pub fn write_store(
        &mut self,
        pointer: ExprHandle,
        value: ExprHandle,
        block: &mut Block,
    ) -> (result: Result<(), Error>)
        requires
            store_run(old(self).env(), old(self).state(*old(block)), pointer, value) is Some,
        ensures
            store_run(old(self).env(), old(self).state(*old(block)), pointer, value) == Some(
                (final(self).state(*final(block)), result),
            ),
            final(self).env() == old(self).env(),
    {
        proof {
            reveal(store_run);
        }
        let value_id: Word = self.operand(value);
        match self.write_expression_pointer(pointer, block)? {
            ExpressionPointer::Ready { pointer_id } => {
                block.push(Instruction::store(pointer_id, value_id));
            },
            ExpressionPointer::Conditional { condition, access } => {
                let merge_block: Word = self.gen_id();
                let in_bounds_block: Word = self.gen_id();

                // Emit the conditional branch.
                block.push(Instruction::selection_merge(merge_block, selection_control_none()));
                self.switch_to(
                    block,
                    Instruction::branch_conditional(condition, in_bounds_block, merge_block),
                    in_bounds_block,
                );

                // The in-bounds path. Perform the access and the store.
                let pointer_id: Word = access.result_id.unwrap();
                block.push(access);
                block.push(Instruction::store(pointer_id, value_id));

                // Finish the in-bounds block and start the merge block. This
                // is the block that is left current on return.
                self.switch_to(block, Instruction::branch(merge_block), merge_block);
            },
        }
        Ok(())
    }

    /// Emits a store to an image.
    pub fn write_image_store(
        &mut self,
        image: ExprHandle,
        coordinate: ExprHandle,
        array_index: Option<ExprHandle>,
        value: ExprHandle,
        block: &mut Block,
    ) -> (result: Result<(), Error>)
        requires
            image_store_run(
                old(self).env(),
                old(self).state(*old(block)),
                image,
                coordinate,
                array_index,
                value,
            ) is Some,
        ensures
            image_store_run(
                old(self).env(),
                old(self).state(*old(block)),
                image,
                coordinate,
                array_index,
                value,
            ) == Some((final(self).state(*final(block)), result)),
            final(self).env() == old(self).env(),
    {
        proof {
            reveal(image_store_run);
        }
        let image_id: Word = self.get_image_id(image);
        let coordinate_id: Word = self.write_texture_coordinates(coordinate, array_index, block)?;
        let value_id: Word = self.operand(value);
        block.push(Instruction::image_write(image_id, coordinate_id, value_id));
        Ok(())
    }

    /// Emits a call of a function.
    pub fn write_call(
        &mut self,
        function: FunctionHandle,
        arguments: &Vec<ExprHandle>,
        result: Option<ExprHandle>,
        block: &mut Block,
    ) -> (outcome: Result<(), Error>)
        requires
            call_run(
                old(self).env(),
                old(self).state(*old(block)),
                function,
                arguments@,
                result,
            ) is Some,
        ensures
            call_run(
                old(self).env(),
                old(self).state(*old(block)),
                function,
                arguments@,
                result,
            ) == Some((final(self).state(*final(block)), outcome)),
            final(self).env() == old(self).env(),
    {
        proof {
            reveal(call_type_run);
            reveal(call_run);
        }
        let argument_ids: Vec<Word> = self.operand_list(arguments);
        let id: Word = self.gen_id();
        let type_id: Word = match result {
            Some(expr) => {
                self.cache(expr, id);
                self.writer.record_call(expr.0, id);
                let ty = self.ir_module.function_result_type(function);
                self.get_type_id(LookupType::Handle(ty))?
            },
            None => self.writer.void_type,
        };
        let function_id: Word = *self.writer.lookup_function.get(&function.0).unwrap();
        block.push(Instruction::function_call(type_id, id, function_id, &argument_ids));
        Ok(())
    }
}

} // verus!
