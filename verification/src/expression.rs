//! The values of expressions.

use spirv::Word;
use vstd::prelude::*;
use crate::context::{intermediate, BlockContext, Code, Env, State};
use crate::function::Block;
use crate::image::{image_load_run, image_query_run, image_sample_run, Sample};
use crate::index::{array_length_run, guard_run, unguard, vector_access_run};
use crate::instruction::{Inst, Instruction};
use crate::ir::{
    BinaryOperator, Bytes, DerivativeAxis, ExprHandle, Expression, MathFunction,
    RelationalFunction, ScalarKind, SwizzleComponent, TypeInner, UnaryOperator, VectorSize,
};
use crate::operators::{
    binary_op, binary_opcode, cast_op, cast_opcode, cast_source, derivative_op, derivative_opcode,
    keeps_order, math_op, math_opcode, relational_op, relational_opcode, unary_op, unary_opcode,
    MathOp,
};
use crate::pointer::{pointer_run, ExpressionPointer, Pointer};
use crate::run::{Error, Run};
use crate::types::{value_type, LocalType, LookupType};

verus! {

broadcast use vstd::std_specs::hash::group_hash_axioms;

/// The ids of the values of a list of expressions, if all of them have one.
pub open spec fn operands(code: Code, exprs: Seq<ExprHandle>) -> Option<Seq<Word>> {
    if forall|i: int| 0 <= i < exprs.len() ==> (#[trigger] code.operand(exprs[i])) is Some {
        Some(exprs.map_values(|expr: ExprHandle| code.operand(expr).unwrap()))
    } else {
        None
    }
}

/// A list of `count` copies of an id.
pub open spec fn copies(id: Word, count: nat) -> Seq<Word> {
    Seq::new(count, |i: int| id)
}

/// Emits an access with a computed index. Part of a pointer has no value yet;
/// of the values, only vectors can be indexed.
#[verifier::opaque]
pub open spec fn access_value_run(
    env: Env,
    s: State,
    expr: ExprHandle,
    base: ExprHandle,
    index: ExprHandle,
) -> Run<State, Word> {
    match intermediate(env, s.code, base) {
        Some(true) => Some((s, Ok(0))),
        Some(false) => match env.inner(base) {
            Some(TypeInner::Vector { .. }) => vector_access_run(env, s, expr, base, index),
            Some(_) => Some(
                (s, Err(Error::Validation("only vectors may be dynamically indexed by value"))),
            ),
            None => None,
        },
        None => None,
    }
}

/// Emits an access with a known index. Part of a pointer has no value yet; of
/// the values, vectors, matrices, arrays and structures can be accessed.
#[verifier::opaque]
pub open spec fn access_index_value_run(
    env: Env,
    s: State,
    type_id: Word,
    base: ExprHandle,
    index: u32,
) -> Run<State, Word> {
    match intermediate(env, s.code, base) {
        Some(true) => Some((s, Ok(0))),
        Some(false) => match env.inner(base) {
            Some(TypeInner::Vector { .. })
            | Some(TypeInner::Matrix { .. })
            | Some(TypeInner::Array { .. })
            | Some(TypeInner::Struct { .. }) => match (s.fresh(), s.operand(base)) {
                (Some(s1), Some(base_id)) => Some(
                    (
                        s1.push(Inst::composite_extract(type_id, s1.id(), base_id, index)),
                        Ok(s1.id()),
                    ),
                ),
                _ => None,
            },
            Some(_) => Some((s, Err(Error::FeatureNotImplemented("access index for type")))),
            None => None,
        },
        None => None,
    }
}

/// Emits a vector of copies of a scalar.
#[verifier::opaque]
pub open spec fn splat_run(s: State, type_id: Word, size: VectorSize, value: ExprHandle) -> Run<
    State,
    Word,
> {
    match (s.operand(value), s.fresh()) {
        (Some(value_id), Some(s1)) => Some(
            (
                s1.push(
                    Inst::composite_construct(
                        type_id,
                        s1.id(),
                        copies(value_id, size.count() as nat),
                    ),
                ),
                Ok(s1.id()),
            ),
        ),
        _ => None,
    }
}

/// The positions of the components that a swizzle selects.
pub open spec fn swizzle_components(size: VectorSize, pattern: Seq<SwizzleComponent>) -> Seq<
    Word,
> {
    Seq::new(size.count() as nat, |i: int| pattern[i].spec_index())
}

/// Emits a selection of a vector's components.
#[verifier::opaque]
pub open spec fn swizzle_run(
    s: State,
    type_id: Word,
    size: VectorSize,
    vector: ExprHandle,
    pattern: Seq<SwizzleComponent>,
) -> Run<State, Word> {
    match (s.operand(vector), s.fresh()) {
        (Some(vector_id), Some(s1)) => Some(
            (
                s1.push(
                    Inst::vector_shuffle(
                        type_id,
                        s1.id(),
                        vector_id,
                        vector_id,
                        swizzle_components(size, pattern),
                    ),
                ),
                Ok(s1.id()),
            ),
        ),
        _ => None,
    }
}

/// Emits a composite.
#[verifier::opaque]
pub open spec fn compose_run(s: State, type_id: Word, components: Seq<ExprHandle>) -> Run<
    State,
    Word,
> {
    match (operands(s.code, components), s.fresh()) {
        (Some(ids), Some(s1)) => Some(
            (s1.push(Inst::composite_construct(type_id, s1.id(), ids)), Ok(s1.id())),
        ),
        _ => None,
    }
}

/// Emits a unary operation.
#[verifier::opaque]
pub open spec fn unary_run(
    env: Env,
    s: State,
    type_id: Word,
    op: UnaryOperator,
    expr: ExprHandle,
) -> Run<State, Word> {
    match (s.fresh(), s.operand(expr), env.inner(expr)) {
        (Some(s1), Some(id), Some(inner)) => match unary_opcode(op, inner.scalar_kind()) {
            Some(opcode) => Some(
                (s1.push(Inst::unary(opcode, type_id, s1.id(), id)), Ok(s1.id())),
            ),
            None => Some((s1, Err(Error::FeatureNotImplemented("negation")))),
        },
        _ => None,
    }
}

/// Emits a binary operation.
#[verifier::opaque]
pub open spec fn binary_run(
    env: Env,
    s: State,
    type_id: Word,
    op: BinaryOperator,
    left: ExprHandle,
    right: ExprHandle,
) -> Run<State, Word> {
    match (s.fresh(), s.operand(left), s.operand(right), env.inner(left), env.inner(right)) {
        (Some(s1), Some(left_id), Some(right_id), Some(left_ty), Some(right_ty)) => {
            match binary_opcode(op, left_ty, right_ty) {
                Some(opcode) => Some(
                    (
                        s1.push(
                            if keeps_order(op, left_ty, right_ty) {
                                Inst::binary(opcode, type_id, s1.id(), left_id, right_id)
                            } else {
                                Inst::binary(opcode, type_id, s1.id(), right_id, left_id)
                            },
                        ),
                        Ok(s1.id()),
                    ),
                ),
                None => None,
            }
        },
        _ => None,
    }
}

/// The id of an argument of a math function; zero if the argument is left out.
pub open spec fn argument_id(s: State, arg: Option<ExprHandle>) -> Option<Word> {
    match arg {
        Some(arg) => s.operand(arg),
        None => Some(0),
    }
}

/// The instruction of a math function.
pub open spec fn math_inst(
    set: Word,
    op: MathOp,
    type_id: Word,
    id: Word,
    args: Seq<Word>,
    count: int,
) -> Inst {
    match op {
        MathOp::Ext(op) => Inst::ext_inst(set, op, type_id, id, args.take(count)),
        MathOp::Unary(op) => Inst::unary(op, type_id, id, args[0]),
        MathOp::Binary(op) => Inst::binary(op, type_id, id, args[0], args[1]),
    }
}

/// Emits a math function.
#[verifier::opaque]
pub open spec fn math_run(
    env: Env,
    s: State,
    type_id: Word,
    fun: MathFunction,
    arg: ExprHandle,
    arg1: Option<ExprHandle>,
    arg2: Option<ExprHandle>,
) -> Run<State, Word> {
    match (
        s.operand(arg),
        argument_id(s, arg1),
        argument_id(s, arg2),
        env.inner(arg),
        s.fresh(),
    ) {
        (Some(id0), Some(id1), Some(id2), Some(inner), Some(s1)) => match math_opcode(
            fun,
            inner.scalar_kind(),
        ) {
            Some(Ok(op)) => Some(
                (
                    s1.push(
                        math_inst(
                            env.writer.gl450_ext_inst_id,
                            op,
                            type_id,
                            s1.id(),
                            seq![id0, id1, id2],
                            fun.argument_count() as int,
                        ),
                    ),
                    Ok(s1.id()),
                ),
            ),
            Some(Err(error)) => Some((s1, Err(error))),
            None => None,
        },
        _ => None,
    }
}

/// Emits a load. One that is conditional on bounds checks gives zero where an
/// index is out of bounds.
#[verifier::opaque]
pub open spec fn load_run(env: Env, s: State, type_id: Word, pointer: ExprHandle) -> Run<
    State,
    Word,
> {
    match pointer_run(env, s, pointer) {
        Some((s1, Ok(Pointer::Ready { pointer_id }))) => match s1.fresh() {
            Some(s2) => Some((s2.push(Inst::load(type_id, s2.id(), pointer_id)), Ok(s2.id()))),
            None => None,
        },
        Some((s1, Ok(Pointer::Conditional { condition, access }))) => match (
            guard_run(s1, type_id, condition),
            access.result_id,
        ) {
            (Some((s2, guard)), Some(pointer_id)) => match s2.fresh() {
                Some(s3) => Some(
                    (
                        unguard(
                            s3.push(access).push(Inst::load(type_id, s3.id(), pointer_id)),
                            type_id,
                            guard,
                            s3.id(),
                        ),
                        Ok(guard.result_id),
                    ),
                ),
                None => None,
            },
            _ => None,
        },
        Some((s1, Err(error))) => Some((s1, Err(error))),
        None => None,
    }
}

/// Emits a cast.
#[verifier::opaque]
pub open spec fn cast_run(
    env: Env,
    s: State,
    type_id: Word,
    expr: ExprHandle,
    kind: ScalarKind,
    convert: Option<Bytes>,
) -> Run<State, Word> {
    match (s.operand(expr), env.inner(expr)) {
        (Some(expr_id), Some(inner)) => match (cast_source(inner), s.fresh()) {
            (Some(source), Some(s1)) => Some(
                (
                    s1.push(
                        Inst::unary(
                            cast_opcode(source, kind, convert),
                            type_id,
                            s1.id(),
                            expr_id,
                        ),
                    ),
                    Ok(s1.id()),
                ),
            ),
            (Some(_), None) => None,
            (None, _) => Some((s, Err(Error::Validation("Unexpected Expression::As source")))),
        },
        _ => None,
    }
}

/// Emits the condition of a selection. A boolean that chooses between vectors
/// is made a vector first.
#[verifier::opaque]
pub open spec fn condition_run(
    env: Env,
    s: State,
    condition_id: Word,
    condition: TypeInner,
    object: TypeInner,
) -> Run<State, Word> {
    match (condition, object) {
        (
            TypeInner::Scalar { kind: ScalarKind::Bool, width },
            TypeInner::Vector { size, .. },
        ) => match s.type_id(env, value_type(Some(size), ScalarKind::Bool, width)) {
            Some((s1, Ok(type_id))) => match s1.fresh() {
                Some(s2) => Some(
                    (
                        s2.push(
                            Inst::composite_construct(
                                type_id,
                                s2.id(),
                                copies(condition_id, size.count() as nat),
                            ),
                        ),
                        Ok(s2.id()),
                    ),
                ),
                None => None,
            },
            failed => failed,
        },
        _ => Some((s, Ok(condition_id))),
    }
}

/// Emits a selection.
#[verifier::opaque]
pub open spec fn select_run(
    env: Env,
    s: State,
    type_id: Word,
    condition: ExprHandle,
    accept: ExprHandle,
    reject: ExprHandle,
) -> Run<State, Word> {
    match (
        s.fresh(),
        (s.operand(condition), s.operand(accept), s.operand(reject)),
        (env.inner(condition), env.inner(accept)),
    ) {
        (
            Some(s1),
            (Some(condition_id), Some(accept_id), Some(reject_id)),
            (Some(condition_ty), Some(object_ty)),
        ) => match condition_run(env, s1, condition_id, condition_ty, object_ty) {
            Some((s2, Ok(condition_id))) => Some(
                (
                    s2.push(Inst::select(type_id, s1.id(), condition_id, accept_id, reject_id)),
                    Ok(s1.id()),
                ),
            ),
            failed => failed,
        },
        _ => None,
    }
}

/// Emits an instruction with one operand.
#[verifier::opaque]
pub open spec fn one_operand_run(
    s: State,
    op: spirv::Op,
    type_id: Word,
    expr: ExprHandle,
) -> Run<State, Word> {
    match (s.operand(expr), s.fresh()) {
        (Some(id), Some(s1)) => Some((s1.push(Inst::unary(op, type_id, s1.id(), id)), Ok(s1.id()))),
        _ => None,
    }
}

/// Emits a relational function.
#[verifier::opaque]
pub open spec fn relational_run(
    s: State,
    type_id: Word,
    fun: RelationalFunction,
    argument: ExprHandle,
) -> Run<State, Word> {
    match (s.operand(argument), relational_opcode(fun)) {
        (Some(_), Some(op)) => one_operand_run(s, op, type_id, argument),
        (Some(_), None) => Some((s, Err(Error::FeatureNotImplemented("is finite/normal")))),
        (None, _) => None,
    }
}

/// Emits the value of an expression whose type is `type_id`. The result is
/// zero for an access that is put off until the pointer it is part of is used.
#[verifier::opaque]
pub open spec fn value_run(env: Env, s: State, type_id: Word, expr: ExprHandle) -> Run<
    State,
    Word,
> {
    match env.fun.expression(expr) {
        Some(Expression::Access { base, index }) => access_value_run(env, s, expr, base, index),
        Some(Expression::AccessIndex { base, index }) => access_index_value_run(
            env,
            s,
            type_id,
            base,
            index,
        ),
        Some(Expression::GlobalVariable(handle)) => if handle.0
            < env.writer.global_variables.len() {
            Some((s, Ok(env.writer.global_variables[handle.0 as int].id)))
        } else {
            None
        },
        Some(Expression::Constant(handle)) => if handle.0 < env.writer.constant_ids.len() {
            Some((s, Ok(env.writer.constant_ids[handle.0 as int])))
        } else {
            None
        },
        Some(Expression::Splat { size, value }) => splat_run(s, type_id, size, value),
        Some(Expression::Swizzle { size, vector, pattern }) => swizzle_run(
            s,
            type_id,
            size,
            vector,
            pattern@,
        ),
        Some(Expression::Compose { ty: _, components }) => compose_run(s, type_id, components@),
        Some(Expression::Unary { op, expr }) => unary_run(env, s, type_id, op, expr),
        Some(Expression::Binary { op, left, right }) => binary_run(
            env,
            s,
            type_id,
            op,
            left,
            right,
        ),
        Some(Expression::Math { fun, arg, arg1, arg2 }) => math_run(
            env,
            s,
            type_id,
            fun,
            arg,
            arg1,
            arg2,
        ),
        Some(Expression::LocalVariable(variable)) => if env.function.variables.contains_key(
            variable.0,
        ) {
            Some((s, Ok(env.function.variables[variable.0])))
        } else {
            None
        },
        Some(Expression::Load { pointer }) => load_run(env, s, type_id, pointer),
        Some(Expression::FunctionArgument(index)) => match env.function.parameter_id(index) {
            Some(id) => Some((s, Ok(id))),
            None => None,
        },
        Some(Expression::Call(_)) => if s.code.writer.calls.contains_key(expr.0) {
            Some((s, Ok(s.code.writer.calls[expr.0])))
        } else {
            None
        },
        Some(Expression::As { expr, kind, convert }) => cast_run(
            env,
            s,
            type_id,
            expr,
            kind,
            convert,
        ),
        Some(Expression::ImageLoad { image, coordinate, array_index, index }) => image_load_run(
            env,
            s,
            type_id,
            image,
            coordinate,
            array_index,
            index,
        ),
        Some(
            Expression::ImageSample {
                image,
                sampler,
                coordinate,
                array_index,
                offset,
                level,
                depth_ref,
            },
        ) => image_sample_run(
            env,
            s,
            type_id,
            Sample { image, sampler, coordinate, array_index, offset, level, depth_ref },
        ),
        Some(Expression::Select { condition, accept, reject }) => select_run(
            env,
            s,
            type_id,
            condition,
            accept,
            reject,
        ),
        Some(Expression::Derivative { axis, expr }) => one_operand_run(
            s,
            derivative_opcode(axis),
            type_id,
            expr,
        ),
        Some(Expression::ImageQuery { image, query }) => image_query_run(
            env,
            s,
            type_id,
            image,
            query,
        ),
        Some(Expression::Relational { fun, argument }) => relational_run(
            s,
            type_id,
            fun,
            argument,
        ),
        Some(Expression::ArrayLength(array)) => array_length_run(env, s, array),
        None => None,
    }
}

/// Emits the value of an expression, after its type, and caches it.
#[verifier::opaque]
pub open spec fn cache_run(env: Env, s: State, expr: ExprHandle) -> Run<State, ()> {
    match env.lookup(expr) {
        Some(ty) => match s.type_id(env, ty) {
            Some((s1, Ok(type_id))) => match value_run(env, s1, type_id, expr) {
                Some((s2, Ok(id))) => match s2.cache(expr, id) {
                    Some(s3) => Some((s3, Ok(()))),
                    None => None,
                },
                Some((s2, Err(error))) => Some((s2, Err(error))),
                None => None,
            },
            Some((s1, Err(error))) => Some((s1, Err(error))),
            None => None,
        },
        None => None,
    }
}

/// A list of copies of an id.
fn repeat(id: Word, size: VectorSize) -> (list: Vec<Word>)
    ensures
        list@ == copies(id, size.count() as nat),
{
    let mut list: Vec<Word> = Vec::new();
    let mut i: u32 = 0;
    while i < size.count()
        invariant
            i <= size.count(),
            list@ == copies(id, i as nat),
        decreases size.count() - i,
    {
        list.push(id);
        i += 1;
        assert(list@ =~= copies(id, i as nat));
    }
    list
}

impl<'w> BlockContext<'w> {
    /// The ids of the values of a list of expressions.
    pub fn operand_list(&self, exprs: &Vec<ExprHandle>) -> (ids: Vec<Word>)
        requires
            operands(self.code(), exprs@) is Some,
        ensures
            operands(self.code(), exprs@) == Some(ids@),
    {
        let mut ids: Vec<Word> = Vec::new();
        let mut i: usize = 0;
        while i < exprs.len()
            invariant
                i <= exprs.len(),
                operands(self.code(), exprs@) is Some,
                ids@.len() == i,
                forall|k: int|
                    0 <= k < i ==> #[trigger] ids@[k] == self.code().operand(exprs@[k]).unwrap(),
            decreases exprs.len() - i,
        {
            assert(self.code().operand(exprs@[i as int]) is Some);
            ids.push(self.operand(exprs[i]));
            i += 1;
        }
        assert(ids@ =~= operands(self.code(), exprs@).unwrap());
        ids
    }

    /// Emits an access with a known index.
    fn write_access_index(
        &mut self,
        result_type_id: Word,
        base: ExprHandle,
        index: u32,
        block: &mut Block,
    ) -> (result: Result<Word, Error>)
        requires
            access_index_value_run(
                old(self).env(),
                old(self).state(*old(block)),
                result_type_id,
                base,
                index,
            ) is Some,
        ensures
            access_index_value_run(
                old(self).env(),
                old(self).state(*old(block)),
                result_type_id,
                base,
                index,
            ) == Some((final(self).state(*final(block)), result)),
            final(self).env() == old(self).env(),
    {
        proof {
            reveal(access_index_value_run);
        }
        if self.is_intermediate(base) {
            // This is handled later, in `write_expression_pointer`.
            return Ok(0);
        }
        match self.inner(base) {
            TypeInner::Vector { .. }
            | TypeInner::Matrix { .. }
            | TypeInner::Array { .. }
            | TypeInner::Struct { .. } => {
                let id: Word = self.gen_id();
                let base_id: Word = self.operand(base);
                block.push(Instruction::composite_extract(result_type_id, id, base_id, index));
                Ok(id)
            },
            _ => Err(Error::FeatureNotImplemented("access index for type")),
        }
    }

    /// Emits an access with a computed index.
    fn write_access_value(
        &mut self,
        expr_handle: ExprHandle,
        base: ExprHandle,
        index: ExprHandle,
        block: &mut Block,
    ) -> (result: Result<Word, Error>)
        requires
            access_value_run(
                old(self).env(),
                old(self).state(*old(block)),
                expr_handle,
                base,
                index,
            ) is Some,
        ensures
            access_value_run(
                old(self).env(),
                old(self).state(*old(block)),
                expr_handle,
                base,
                index,
            ) == Some((final(self).state(*final(block)), result)),
            final(self).env() == old(self).env(),
    {
        proof {
            reveal(access_value_run);
        }
        if self.is_intermediate(base) {
            // This is handled later, in `write_expression_pointer`.
            return Ok(0);
        }
        match self.inner(base) {
            TypeInner::Vector { .. } => self.write_vector_access(expr_handle, base, index, block),
            _ => Err(Error::Validation("only vectors may be dynamically indexed by value")),
        }
    }

    /// Emits a selection of a vector's components.
    fn write_swizzle(
        &mut self,
        result_type_id: Word,
        size: VectorSize,
        vector: ExprHandle,
        pattern: &[SwizzleComponent; 4],
        block: &mut Block,
    ) -> (id: Word)
        requires
            swizzle_run(
                old(self).state(*old(block)),
                result_type_id,
                size,
                vector,
                pattern@,
            ) is Some,
        ensures
            swizzle_run(old(self).state(*old(block)), result_type_id, size, vector, pattern@)
                == Some((final(self).state(*final(block)), Ok::<Word, Error>(id))),
            final(self).env() == old(self).env(),
    {
        proof {
            reveal(swizzle_run);
        }
        let vector_id: Word = self.operand(vector);
        let mut components: Vec<Word> = Vec::new();
        let mut i: u32 = 0;
        while i < size.count()
            invariant
                i <= size.count(),
                components@.len() == i,
                forall|k: int| 0 <= k < i ==> #[trigger] components@[k] == pattern@[k].spec_index(),
            decreases size.count() - i,
        {
            components.push(pattern[i as usize].index());
            i += 1;
        }
        assert(components@ =~= swizzle_components(size, pattern@));
        let id: Word = self.gen_id();
        block.push(
            Instruction::vector_shuffle(result_type_id, id, vector_id, vector_id, &components),
        );
        id
    }

    /// Emits a binary operation.
    fn write_binary(
        &mut self,
        result_type_id: Word,
        op: BinaryOperator,
        left: ExprHandle,
        right: ExprHandle,
        block: &mut Block,
    ) -> (id: Word)
        requires
            binary_run(
                old(self).env(),
                old(self).state(*old(block)),
                result_type_id,
                op,
                left,
                right,
            ) is Some,
        ensures
            binary_run(
                old(self).env(),
                old(self).state(*old(block)),
                result_type_id,
                op,
                left,
                right,
            ) == Some((final(self).state(*final(block)), Ok::<Word, Error>(id))),
            final(self).env() == old(self).env(),
    {
        proof {
            reveal(binary_run);
        }
        let id: Word = self.gen_id();
        let left_id: Word = self.operand(left);
        let right_id: Word = self.operand(right);
        let (spirv_op, preserve_order) = binary_op(op, self.inner(left), self.inner(right));
        block.push(
            Instruction::binary(
                spirv_op,
                result_type_id,
                id,
                if preserve_order {
                    left_id
                } else {
                    right_id
                },
                if preserve_order {
                    right_id
                } else {
                    left_id
                },
            ),
        );
        id
    }

    /// Emits a math function.
    fn write_math(
        &mut self,
        result_type_id: Word,
        fun: MathFunction,
        arg: ExprHandle,
        arg1: Option<ExprHandle>,
        arg2: Option<ExprHandle>,
        block: &mut Block,
    ) -> (result: Result<Word, Error>)
        requires
            math_run(
                old(self).env(),
                old(self).state(*old(block)),
                result_type_id,
                fun,
                arg,
                arg1,
                arg2,
            ) is Some,
        ensures
            math_run(
                old(self).env(),
                old(self).state(*old(block)),
                result_type_id,
                fun,
                arg,
                arg1,
                arg2,
            ) == Some((final(self).state(*final(block)), result)),
            final(self).env() == old(self).env(),
    {
        proof {
            reveal(math_run);
        }
        let arg0_id: Word = self.operand(arg);
        let arg_scalar_kind = self.inner(arg).scalar_kind();
        let arg1_id: Word = match arg1 {
            Some(handle) => self.operand(handle),
            None => 0,
        };
        let arg2_id: Word = match arg2 {
            Some(handle) => self.operand(handle),
            None => 0,
        };
        let id: Word = self.gen_id();
        let instruction = match math_op(fun, arg_scalar_kind)? {
            MathOp::Ext(op) => {
                let args: Vec<Word> = match fun.argument_count() {
                    1 => vec![arg0_id],
                    2 => vec![arg0_id, arg1_id],
                    _ => vec![arg0_id, arg1_id, arg2_id],
                };
                assert(args@ =~= seq![arg0_id, arg1_id, arg2_id].take(
                    fun.argument_count() as int,
                ));
                Instruction::ext_inst(self.writer.gl450_ext_inst_id, op, result_type_id, id, &args)
            },
            MathOp::Unary(op) => Instruction::unary(op, result_type_id, id, arg0_id),
            MathOp::Binary(op) => Instruction::binary(op, result_type_id, id, arg0_id, arg1_id),
        };
        block.push(instruction);
        Ok(id)
    }

    /// Emits a load.
    fn write_load(
        &mut self,
        result_type_id: Word,
        pointer: ExprHandle,
        block: &mut Block,
    ) -> (result: Result<Word, Error>)
        requires
            load_run(
                old(self).env(),
                old(self).state(*old(block)),
                result_type_id,
                pointer,
            ) is Some,
        ensures
            load_run(old(self).env(), old(self).state(*old(block)), result_type_id, pointer)
                == Some((final(self).state(*final(block)), result)),
            final(self).env() == old(self).env(),
    {
        proof {
            reveal(load_run);
        }
        match self.write_expression_pointer(pointer, block)? {
            ExpressionPointer::Ready { pointer_id } => {
                let id: Word = self.gen_id();
                block.push(Instruction::load(result_type_id, id, pointer_id));
                Ok(id)
            },
            ExpressionPointer::Conditional { condition, access } => {
                let guard = self.write_guard(result_type_id, condition, block);
                // The in-bounds path. Perform the access and the load.
                let pointer_id: Word = access.result_id.unwrap();
                let value_id: Word = self.gen_id();
                block.push(access);
                block.push(Instruction::load(result_type_id, value_id, pointer_id));
                self.write_unguard(result_type_id, guard, value_id, block);
                Ok(guard.result_id)
            },
        }
    }

    /// Emits a selection.
    fn write_select(
        &mut self,
        result_type_id: Word,
        condition: ExprHandle,
        accept: ExprHandle,
        reject: ExprHandle,
        block: &mut Block,
    ) -> (result: Result<Word, Error>)
        requires
            select_run(
                old(self).env(),
                old(self).state(*old(block)),
                result_type_id,
                condition,
                accept,
                reject,
            ) is Some,
        ensures
            select_run(
                old(self).env(),
                old(self).state(*old(block)),
                result_type_id,
                condition,
                accept,
                reject,
            ) == Some((final(self).state(*final(block)), result)),
            final(self).env() == old(self).env(),
    {
        proof {
            reveal(condition_run);
            reveal(select_run);
        }
        let id: Word = self.gen_id();
        let mut condition_id: Word = self.operand(condition);
        let accept_id: Word = self.operand(accept);
        let reject_id: Word = self.operand(reject);
        let condition_ty = self.inner(condition);
        let object_ty = self.inner(accept);
        if let (
            TypeInner::Scalar { kind: ScalarKind::Bool, width },
            TypeInner::Vector { size, .. },
        ) = (condition_ty, object_ty) {
            let bool_vector_type_id: Word = self.get_type_id(
                LookupType::Local(
                    LocalType::Value {
                        vector_size: Some(size),
                        kind: ScalarKind::Bool,
                        width,
                        pointer_class: None,
                    },
                ),
            )?;
            let vector_id: Word = self.gen_id();
            block.push(
                Instruction::composite_construct(
                    bool_vector_type_id,
                    vector_id,
                    &repeat(condition_id, size),
                ),
            );
            condition_id = vector_id;
        }
        block.push(Instruction::select(result_type_id, id, condition_id, accept_id, reject_id));
        Ok(id)
    }

    /// Emits a vector of copies of a scalar.
    fn write_splat(
        &mut self,
        result_type_id: Word,
        size: VectorSize,
        value: ExprHandle,
        block: &mut Block,
    ) -> (id: Word)
        requires
            splat_run(old(self).state(*old(block)), result_type_id, size, value) is Some,
        ensures
            splat_run(
                old(self).state(*old(block)),
                result_type_id,
                size,
                value,
            ) == Some((final(self).state(*final(block)), Ok::<Word, Error>(id))),
            final(self).env() == old(self).env(),
    {
        proof {
            reveal(splat_run);
        }
        let value_id: Word = self.operand(value);
        let id: Word = self.gen_id();
        block.push(
            Instruction::composite_construct(result_type_id, id, &repeat(value_id, size)),
        );
        id
    }

    /// Emits a composite.
    fn write_compose(
        &mut self,
        result_type_id: Word,
        components: &Vec<ExprHandle>,
        block: &mut Block,
    ) -> (id: Word)
        requires
            compose_run(old(self).state(*old(block)), result_type_id, components@) is Some,
        ensures
            compose_run(
                old(self).state(*old(block)),
                result_type_id,
                components@,
            ) == Some((final(self).state(*final(block)), Ok::<Word, Error>(id))),
            final(self).env() == old(self).env(),
    {
        proof {
            reveal(compose_run);
        }
        let ids: Vec<Word> = self.operand_list(components);
        let id: Word = self.gen_id();
        block.push(Instruction::composite_construct(result_type_id, id, &ids));
        id
    }

    /// Emits a unary operation.
    fn write_unary(
        &mut self,
        result_type_id: Word,
        op: UnaryOperator,
        expr: ExprHandle,
        block: &mut Block,
    ) -> (result: Result<Word, Error>)
        requires
            unary_run(
                old(self).env(),
                old(self).state(*old(block)),
                result_type_id,
                op,
                expr,
            ) is Some,
        ensures
            unary_run(
                old(self).env(),
                old(self).state(*old(block)),
                result_type_id,
                op,
                expr,
            ) == Some((final(self).state(*final(block)), result)),
            final(self).env() == old(self).env(),
    {
        proof {
            reveal(unary_run);
        }
        let id: Word = self.gen_id();
        let expr_id: Word = self.operand(expr);
        match unary_op(op, self.inner(expr).scalar_kind()) {
            Some(spirv_op) => {
                block.push(Instruction::unary(spirv_op, result_type_id, id, expr_id));
                Ok(id)
            },
            None => Err(Error::FeatureNotImplemented("negation")),
        }
    }

    /// Emits a cast.
    fn write_cast(
        &mut self,
        result_type_id: Word,
        expr: ExprHandle,
        kind: ScalarKind,
        convert: Option<Bytes>,
        block: &mut Block,
    ) -> (result: Result<Word, Error>)
        requires
            cast_run(
                old(self).env(),
                old(self).state(*old(block)),
                result_type_id,
                expr,
                kind,
                convert,
            ) is Some,
        ensures
            cast_run(
                old(self).env(),
                old(self).state(*old(block)),
                result_type_id,
                expr,
                kind,
                convert,
            ) == Some((final(self).state(*final(block)), result)),
            final(self).env() == old(self).env(),
    {
        proof {
            reveal(cast_run);
        }
        let expr_id: Word = self.operand(expr);
        match cast_op(self.inner(expr), kind, convert) {
            Some(op) => {
                let id: Word = self.gen_id();
                block.push(Instruction::unary(op, result_type_id, id, expr_id));
                Ok(id)
            },
            None => Err(Error::Validation("Unexpected Expression::As source")),
        }
    }

    /// Emits a derivative.
    fn write_derivative(
        &mut self,
        result_type_id: Word,
        axis: DerivativeAxis,
        expr: ExprHandle,
        block: &mut Block,
    ) -> (id: Word)
        requires
            one_operand_run(
                old(self).state(*old(block)),
                derivative_opcode(axis),
                result_type_id,
                expr,
            ) is Some,
        ensures
            one_operand_run(
                old(self).state(*old(block)),
                derivative_opcode(axis),
                result_type_id,
                expr,
            ) == Some((final(self).state(*final(block)), Ok::<Word, Error>(id))),
            final(self).env() == old(self).env(),
    {
        proof {
            reveal(one_operand_run);
        }
        let id: Word = self.gen_id();
        let expr_id: Word = self.operand(expr);
        block.push(Instruction::unary(derivative_op(axis), result_type_id, id, expr_id));
        id
    }

    /// Emits a relational function.
    fn write_relational(
        &mut self,
        result_type_id: Word,
        fun: RelationalFunction,
        argument: ExprHandle,
        block: &mut Block,
    ) -> (result: Result<Word, Error>)
        requires
            relational_run(old(self).state(*old(block)), result_type_id, fun, argument) is Some,
        ensures
            relational_run(
                old(self).state(*old(block)),
                result_type_id,
                fun,
                argument,
            ) == Some((final(self).state(*final(block)), result)),
            final(self).env() == old(self).env(),
    {
        proof {
            reveal(relational_run);
            reveal(one_operand_run);
        }
        let arg_id: Word = self.operand(argument);
        match relational_op(fun) {
            Some(op) => {
                let id: Word = self.gen_id();
                block.push(Instruction::unary(op, result_type_id, id, arg_id));
                Ok(id)
            },
            None => Err(Error::FeatureNotImplemented("is finite/normal")),
        }
    }

    /// Emits the value of an expression whose type is `result_type_id`.
    fn write_value(
        &mut self,
        result_type_id: Word,
        expr_handle: ExprHandle,
        block: &mut Block,
    ) -> (result: Result<Word, Error>)
        requires
            value_run(
                old(self).env(),
                old(self).state(*old(block)),
                result_type_id,
                expr_handle,
            ) is Some,
        ensures
            value_run(
                old(self).env(),
                old(self).state(*old(block)),
                result_type_id,
                expr_handle,
            ) == Some((final(self).state(*final(block)), result)),
            final(self).env() == old(self).env(),
    {
        proof {
            reveal(value_run);
        }
        match &self.ir_function.expressions[expr_handle.0 as usize] {
            Expression::Access { base, index } => self.write_access_value(
                expr_handle,
                *base,
                *index,
                block,
            ),
            Expression::AccessIndex { base, index } => self.write_access_index(
                result_type_id,
                *base,
                *index,
                block,
            ),
            Expression::GlobalVariable(handle) => Ok(
                self.writer.global_variables[handle.0 as usize].id,
            ),
            Expression::Constant(handle) => Ok(self.writer.constant_ids[handle.0 as usize]),
            Expression::Splat { size, value } => Ok(
                self.write_splat(result_type_id, *size, *value, block),
            ),
            Expression::Swizzle { size, vector, pattern } => Ok(
                self.write_swizzle(result_type_id, *size, *vector, pattern, block),
            ),
            Expression::Compose { ty: _, components } => Ok(
                self.write_compose(result_type_id, components, block),
            ),
            Expression::Unary { op, expr } => self.write_unary(result_type_id, *op, *expr, block),
            Expression::Binary { op, left, right } => Ok(
                self.write_binary(result_type_id, *op, *left, *right, block),
            ),
            Expression::Math { fun, arg, arg1, arg2 } => self.write_math(
                result_type_id,
                *fun,
                *arg,
                *arg1,
                *arg2,
                block,
            ),
            Expression::LocalVariable(variable) => Ok(
                *self.function.variables.get(&variable.0).unwrap(),
            ),
            Expression::Load { pointer } => self.write_load(result_type_id, *pointer, block),
            Expression::FunctionArgument(index) => Ok(self.function.parameter_id(*index)),
            Expression::Call(_) => Ok(
                *self.writer.lookup_function_call.get(&expr_handle.0).unwrap(),
            ),
            Expression::As { expr, kind, convert } => self.write_cast(
                result_type_id,
                *expr,
                *kind,
                *convert,
                block,
            ),
            Expression::ImageLoad { image, coordinate, array_index, index } => {
                self.write_image_load(
                    result_type_id,
                    *image,
                    *coordinate,
                    *array_index,
                    *index,
                    block,
                )
            },
            Expression::ImageSample {
                image,
                sampler,
                coordinate,
                array_index,
                offset,
                level,
                depth_ref,
            } => {
                let sample = Sample {
                    image: *image,
                    sampler: *sampler,
                    coordinate: *coordinate,
                    array_index: *array_index,
                    offset: *offset,
                    level: *level,
                    depth_ref: *depth_ref,
                };
                self.write_image_sample(result_type_id, &sample, block)
            },
            Expression::Select { condition, accept, reject } => self.write_select(
                result_type_id,
                *condition,
                *accept,
                *reject,
                block,
            ),
            Expression::Derivative { axis, expr } => Ok(
                self.write_derivative(result_type_id, *axis, *expr, block),
            ),
            Expression::ImageQuery { image, query } => self.write_image_query(
                result_type_id,
                *image,
                *query,
                block,
            ),
            Expression::Relational { fun, argument } => self.write_relational(
                result_type_id,
                *fun,
                *argument,
                block,
            ),
            Expression::ArrayLength(array) => self.write_runtime_array_length(*array, block),
        }
    }

    /// Caches an expression for a value.
    pub fn cache_expression_value(
        &mut self,
        expr_handle: ExprHandle,
        block: &mut Block,
    ) -> (result: Result<(), Error>)
        requires
            cache_run(old(self).env(), old(self).state(*old(block)), expr_handle) is Some,
        ensures
            cache_run(old(self).env(), old(self).state(*old(block)), expr_handle) == Some(
                (final(self).state(*final(block)), result),
            ),
            final(self).env() == old(self).env(),
    {
        proof {
            reveal(cache_run);
        }
        let result_type_id: Word = self.get_expression_type_id(
            self.fun_info.types[expr_handle.0 as usize],
        )?;
        let id: Word = self.write_value(result_type_id, expr_handle, block)?;
        self.cache(expr_handle, id);
        Ok(())
    }
}

} // verus!
