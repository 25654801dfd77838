//! The laws of indexing: which indices a pointer is made of, and what is tested
//! of them.

use spirv::Word;
use vstd::prelude::*;
use crate::context::{Env, State};
use crate::growth::{begins_with, holds, lemma_writer_constant_id, lemma_writer_type_id};
use crate::index::{
    array_length_run, bounds_check_run, clamp_run, compare_run, index_comparison_run,
    indexable_length, known_index, max_index_run, restricted_index_run, sequence_length_run,
    BoundsCheckResult, IndexableLength, MaybeKnown,
};
use crate::instruction::Inst;
use crate::ir::{
    ArraySize, Constant, ExprHandle, Expression, Module, ScalarKind, ScalarValue, TypeInner,
};
use crate::laws::lemma_type_error;
use crate::meaning::{
    components, id_of, is_id_of, is_type_id, is_type_lack, is_uint, numbers, parameter, shape,
    value_inst,
};
use crate::pointer::{access_run, chain_end, chain_run, pointer_run, Pointer};
use crate::run::Error;
use crate::types::LookupType;
use crate::value_laws::{lemma_typed, lemma_typed_later};
use crate::writer::{IndexBoundsCheckPolicy, WriterState};

verus! {

/// The number that a constant is, if it can be an index or a length.
pub open spec fn number_of(constant: Constant) -> Option<u32> {
    match constant {
        Constant::Scalar { value: ScalarValue::Uint(v), .. } => if v <= 0xffff_ffff {
            Some(v as u32)
        } else {
            None
        },
        Constant::Scalar { value: ScalarValue::Sint(v), .. } => if 0 <= v <= 0xffff_ffff {
            Some(v as u32)
        } else {
            None
        },
        _ => None,
    }
}

/// The value of an index that is a constant.
pub open spec fn constant_index(env: Env, index: ExprHandle) -> Option<u32> {
    match env.fun.expressions@[index.0 as int] {
        Expression::Constant(handle) => number_of(env.module.constants@[handle.0 as int]),
        _ => None,
    }
}

/// How many parts a value has that can be indexed.
pub open spec fn parts(module: Module, inner: TypeInner) -> Option<IndexableLength> {
    match inner {
        TypeInner::Vector { size, .. } => Some(IndexableLength::Known(components(size) as u32)),
        TypeInner::Matrix { columns, .. } => Some(
            IndexableLength::Known(components(columns) as u32),
        ),
        TypeInner::Array { size: ArraySize::Constant(handle), .. } => match number_of(
            module.constants@[handle.0 as int],
        ) {
            Some(length) => Some(IndexableLength::Known(length)),
            None => None,
        },
        TypeInner::Array { size: ArraySize::Dynamic, .. } => Some(IndexableLength::Dynamic),
        _ => None,
    }
}

/// How many parts an expression has that can be indexed, be it a value or a
/// pointer to one.
pub open spec fn length(env: Env, sequence: ExprHandle) -> Option<IndexableLength> {
    match shape(env, sequence) {
        TypeInner::Pointer { base, .. } => parts(
            env.module,
            env.module.types@[base.0 as int].inner,
        ),
        TypeInner::ValuePointer { size: Some(size), .. } => Some(
            IndexableLength::Known(components(size) as u32),
        ),
        inner => parts(env.module, inner),
    }
}

/// The structure that a run-time sized array is in, and which member of it the
/// array is.
pub open spec fn owner(env: Env, array: ExprHandle) -> Option<(Word, u32)> {
    match env.fun.expressions@[array.0 as int] {
        Expression::AccessIndex { base, index } => match env.fun.expressions@[base.0 as int] {
            Expression::GlobalVariable(handle) => Some(
                (env.writer.global_variables[handle.0 as int].id, index),
            ),
            Expression::FunctionArgument(argument) => Some((parameter(env, argument), index)),
            _ => None,
        },
        _ => None,
    }
}

/// Whether the current block computes a number as `id`.
pub open spec fn computes_uint(t: State, op: spirv::Op, id: Word, operands: Seq<Word>) -> bool {
    let ty = numbers(None, ScalarKind::Uint, 4);
    t.code.writer.types.contains_key(ty) && t.block.body.contains(
        value_inst(op, t.code.writer.types[ty], id, operands),
    )
}

/// Whether the current block computes a truth value as `id`.
pub open spec fn computes_bool(t: State, op: spirv::Op, id: Word, operands: Seq<Word>) -> bool {
    let ty = numbers(None, ScalarKind::Bool, 1);
    t.code.writer.types.contains_key(ty) && t.block.body.contains(
        value_inst(op, t.code.writer.types[ty], id, operands),
    )
}

/// Whether an id is the length of a run-time sized array.
pub open spec fn is_length(env: Env, t: State, array: ExprHandle, id: Word) -> bool {
    owner(env, array) matches Some((structure, member)) && computes_uint(
        t,
        spirv::Op::ArrayLength,
        id,
        seq![structure, member],
    )
}

/// Whether an id is the greatest index into a run-time sized array.
pub open spec fn is_last(env: Env, t: State, array: ExprHandle, id: Word) -> bool {
    exists|length: Word, one: Word| #[trigger]
        is_length(env, t, array, length) && #[trigger] is_uint(t.code.writer, 1, one)
            && computes_uint(t, spirv::Op::ISub, id, seq![length, one])
}

/// Whether an id is the smaller of two numbers.
pub open spec fn is_least(env: Env, t: State, id: Word, a: Word, b: Word) -> bool {
    computes_uint(
        t,
        spirv::Op::ExtInst,
        id,
        seq![env.writer.gl450_ext_inst_id, spirv::GLOp::UMin as Word, a, b],
    )
}

/// Whether an index has to be tested at run time: one that is tested, and is not
/// known to be in bounds.
pub open spec fn needs_test(env: Env, sequence: ExprHandle, index: ExprHandle) -> bool {
    env.writer.index_bounds_check_policy == IndexBoundsCheckPolicy::ReadZeroSkipWrite && !(length(
        env,
        sequence,
    ) matches Some(IndexableLength::Known(length)) && constant_index(env, index) matches Some(known)
        && known < length)
}

/// Whether an id is the test that an index is less than the length.
pub open spec fn is_test(
    env: Env,
    t: State,
    sequence: ExprHandle,
    index: ExprHandle,
    id: Word,
) -> bool {
    match length(env, sequence) {
        Some(IndexableLength::Known(known)) => exists|length: Word| #[trigger]
            is_uint(t.code.writer, known as int, length) && computes_bool(
                t,
                spirv::Op::ULessThan,
                id,
                seq![id_of(t, index), length],
            ),
        Some(IndexableLength::Dynamic) => exists|length: Word| #[trigger]
            is_length(env, t, sequence, length) && computes_bool(
                t,
                spirv::Op::ULessThan,
                id,
                seq![id_of(t, index), length],
            ),
        None => false,
    }
}

/// The number that a constant index comes down to: itself where it is in bounds,
/// and otherwise, where indices are restricted, the greatest that is.
pub open spec fn settled(env: Env, sequence: ExprHandle, index: ExprHandle) -> Option<int> {
    match (length(env, sequence), constant_index(env, index)) {
        (Some(IndexableLength::Known(length)), Some(known)) => if known < length {
            Some(known as int)
        } else if env.writer.index_bounds_check_policy == IndexBoundsCheckPolicy::Restrict {
            Some(length - 1)
        } else {
            None
        },
        _ => None,
    }
}

/// Whether an id is the smaller of the value of an index and the greatest index
/// into a sequence of some length.
pub open spec fn is_limited(env: Env, t: State, index: ExprHandle, length: u32, id: Word) -> bool {
    exists|last: Word| #[trigger]
        is_uint(t.code.writer, length - 1, last) && is_least(env, t, id, id_of(t, index), last)
}

/// Whether an id is the index to use under the policy: the value of the index as
/// it is; or, where indices are restricted, the smaller of it and the greatest
/// that is in bounds. A constant is not computed but settled beforehand.
pub open spec fn is_checked_index(
    env: Env,
    t: State,
    sequence: ExprHandle,
    index: ExprHandle,
    id: Word,
) -> bool {
    match env.writer.index_bounds_check_policy {
        IndexBoundsCheckPolicy::UndefinedBehavior => id == id_of(t, index),
        IndexBoundsCheckPolicy::ReadZeroSkipWrite => match settled(env, sequence, index) {
            Some(known) => is_uint(t.code.writer, known, id),
            None => id == id_of(t, index),
        },
        IndexBoundsCheckPolicy::Restrict => match settled(env, sequence, index) {
            Some(known) => is_uint(t.code.writer, known, id),
            None => match length(env, sequence) {
                Some(IndexableLength::Known(length)) => is_limited(env, t, index, length, id),
                Some(IndexableLength::Dynamic) => exists|last: Word| #[trigger]
                    is_last(env, t, sequence, last) && is_least(
                        env,
                        t,
                        id,
                        id_of(t, index),
                        last,
                    ),
                None => false,
            },
        },
    }
}

/// Whether a step has only added to the current block and to the module.
#[verifier::opaque]
pub open spec fn kept(s: State, t: State) -> bool {
    &&& holds(t.code.writer.types, s.code.writer.types)
    &&& holds(t.code.writer.constants, s.code.writer.constants)
    &&& t.code.cached == s.code.cached
    &&& t.code.blocks == s.code.blocks
    &&& t.block.label == s.block.label
    &&& begins_with(t.block.body, s.block.body)
}

proof fn lemma_kept_reflexive(s: State)
    ensures
        kept(s, s),
{
    reveal(kept);
}

proof fn lemma_values_kept(s: State, t: State)
    requires
        kept(s, t),
    ensures
        t.code.cached == s.code.cached,
{
    reveal(kept);
}

broadcast proof fn lemma_kept_fresh(s: State, t: State)
    requires
        kept(s, t),
    ensures
        #![trigger kept(s, t), t.fresh()]
        match t.fresh() {
            Some(u) => kept(s, u) && kept(t, u) && u.block == t.block,
            None => true,
        },
{
    reveal(kept);
}

broadcast proof fn lemma_kept_push(s: State, t: State, inst: Inst)
    requires
        kept(s, t),
    ensures
        #![trigger kept(s, t), t.push(inst)]
        kept(s, t.push(inst)),
        kept(t, t.push(inst)),
        t.push(inst).block.body.contains(inst),
        t.push(inst).code == t.code,
{
    reveal(kept);
    assert(t.push(inst).block.body[t.block.body.len() as int] == inst);
}

proof fn lemma_kept_after(s: State, t: State, u: State)
    requires
        kept(s, t),
        kept(t, u),
    ensures
        kept(s, u),
{
    reveal(kept);
}

broadcast proof fn lemma_kept_type(env: Env, s: State, t: State, ty: LookupType)
    requires
        kept(s, t),
    ensures
        #![trigger kept(s, t), t.type_id(env, ty)]
        match t.type_id(env, ty) {
            Some((u, Ok(id))) => {
                &&& kept(s, u)
                &&& kept(t, u)
                &&& u.block == t.block
                &&& is_id_of(u.code.writer, ty, id)
            },
            _ => true,
        },
{
    reveal(kept);
    lemma_writer_type_id(env.strict(), t.code.writer, t.code.writer, ty);
    crate::laws::lemma_type_found(env, t, ty);
}

broadcast proof fn lemma_kept_constant(env: Env, s: State, t: State, value: u32)
    requires
        kept(s, t),
    ensures
        #![trigger kept(s, t), t.index_id(env, value)]
        match t.index_id(env, value) {
            Some((u, Ok(id))) => {
                &&& kept(s, u)
                &&& kept(t, u)
                &&& u.block == t.block
                &&& is_uint(u.code.writer, value as int, id)
            },
            _ => true,
        },
{
    reveal(kept);
    lemma_writer_constant_id(
        env.strict(),
        t.code.writer,
        t.code.writer,
        ScalarValue::Uint(value as u64),
        4,
    );
    if let Some((u, Ok(id))) = t.index_id(env, value) {
        let key = (ScalarValue::Uint(value as u64), 4u8);
        assert(u.code.writer.constants.contains_key(key));
    }
}

proof fn lemma_contains_kept(t: State, u: State, inst: Inst)
    requires
        kept(t, u),
        t.block.body.contains(inst),
    ensures
        u.block.body.contains(inst),
{
    reveal(kept);
    let i = choose|i: int| 0 <= i < t.block.body.len() && t.block.body[i] == inst;
    assert(u.block.body[i] == inst);
}

broadcast proof fn lemma_uint_kept(t: State, u: State, value: int, id: Word)
    requires
        kept(t, u),
        is_uint(t.code.writer, value, id),
    ensures
        #![trigger kept(t, u), is_uint(t.code.writer, value, id)]
        is_uint(u.code.writer, value, id),
{
    reveal(kept);
    let key = (ScalarValue::Uint(value as u64), 4u8);
    assert(t.code.writer.constants.contains_key(key));
    assert(u.code.writer.constants.contains_key(key));
}

broadcast proof fn lemma_computes_uint_kept(
    t: State,
    u: State,
    op: spirv::Op,
    id: Word,
    operands: Seq<Word>,
)
    requires
        kept(t, u),
        computes_uint(t, op, id, operands),
    ensures
        #![trigger kept(t, u), computes_uint(t, op, id, operands)]
        computes_uint(u, op, id, operands),
{
    let ty = numbers(None, ScalarKind::Uint, 4);
    lemma_contains_kept(t, u, value_inst(op, t.code.writer.types[ty], id, operands));
    reveal(kept);
}

broadcast proof fn lemma_computes_bool_kept(
    t: State,
    u: State,
    op: spirv::Op,
    id: Word,
    operands: Seq<Word>,
)
    requires
        kept(t, u),
        computes_bool(t, op, id, operands),
    ensures
        #![trigger kept(t, u), computes_bool(t, op, id, operands)]
        computes_bool(u, op, id, operands),
{
    let ty = numbers(None, ScalarKind::Bool, 1);
    lemma_contains_kept(t, u, value_inst(op, t.code.writer.types[ty], id, operands));
    reveal(kept);
}

broadcast proof fn lemma_length_kept(env: Env, t: State, u: State, array: ExprHandle, id: Word)
    requires
        kept(t, u),
        is_length(env, t, array, id),
    ensures
        #![trigger kept(t, u), is_length(env, t, array, id)]
        is_length(env, u, array, id),
{
    broadcast use lemma_computes_uint_kept;

}

broadcast proof fn lemma_last_kept(env: Env, t: State, u: State, array: ExprHandle, id: Word)
    requires
        kept(t, u),
        is_last(env, t, array, id),
    ensures
        #![trigger kept(t, u), is_last(env, t, array, id)]
        is_last(env, u, array, id),
{
    broadcast use {lemma_computes_uint_kept, lemma_length_kept, lemma_uint_kept};

    let (length, one) = choose|length: Word, one: Word| #[trigger]
        is_length(env, t, array, length) && #[trigger] is_uint(t.code.writer, 1, one)
            && computes_uint(t, spirv::Op::ISub, id, seq![length, one]);
    assert(is_length(env, u, array, length) && is_uint(u.code.writer, 1, one));
}

broadcast proof fn lemma_test_kept(
    env: Env,
    t: State,
    u: State,
    sequence: ExprHandle,
    index: ExprHandle,
    id: Word,
)
    requires
        kept(t, u),
        is_test(env, t, sequence, index, id),
    ensures
        #![trigger kept(t, u), is_test(env, t, sequence, index, id)]
        is_test(env, u, sequence, index, id),
{
    broadcast use {lemma_computes_bool_kept, lemma_length_kept, lemma_uint_kept};

    assert(u.code.cached == t.code.cached) by {
        reveal(kept);
    }
}

broadcast proof fn lemma_index_kept(
    env: Env,
    t: State,
    u: State,
    sequence: ExprHandle,
    index: ExprHandle,
    id: Word,
)
    requires
        kept(t, u),
        is_checked_index(env, t, sequence, index, id),
    ensures
        #![trigger kept(t, u), is_checked_index(env, t, sequence, index, id)]
        is_checked_index(env, u, sequence, index, id),
{
    broadcast use {lemma_computes_uint_kept, lemma_last_kept, lemma_uint_kept};

    lemma_values_kept(t, u);
    if let Some(IndexableLength::Known(length)) = length(env, sequence) {
        if is_limited(env, t, index, length, id) {
            let last = choose|last: Word| #[trigger]
                is_uint(t.code.writer, length - 1, last) && is_least(
                    env,
                    t,
                    id,
                    id_of(t, index),
                    last,
                );
            assert(is_uint(u.code.writer, length - 1, last));
            assert(is_limited(env, u, index, length, id));
        }
    }
}

/// The length of an expression is found.
proof fn lemma_length(env: Env, sequence: ExprHandle)
    ensures
        match env.inner(sequence) {
            Some(inner) => match indexable_length(env.module, inner) {
                Some(Ok(found)) => length(env, sequence) == Some(found),
                Some(Err(_)) => length(env, sequence) is None,
                None => true,
            },
            None => true,
        },
{
}

/// The value of a constant index is found.
proof fn lemma_constant_index(env: Env, index: ExprHandle)
    ensures
        match known_index(env, index) {
            Some(found) => constant_index(env, index) == found,
            None => true,
        },
{
}

/// The length of a run-time sized array is computed.
proof fn lemma_array_length(env: Env, s: State, array: ExprHandle)
    ensures
        match array_length_run(env, s, array) {
            Some((t, Ok(id))) => kept(s, t) && is_length(env, t, array, id),
            _ => true,
        },
{
    broadcast use {lemma_kept_fresh, lemma_kept_push, lemma_kept_type};

    reveal(array_length_run);
    lemma_kept_reflexive(s);
}

/// The length of a sequence is known or computed.
proof fn lemma_sequence_length(env: Env, s: State, sequence: ExprHandle)
    ensures
        match sequence_length_run(env, s, sequence) {
            Some((t, Ok(MaybeKnown::Known(known)))) => t == s && length(env, sequence) == Some(
                IndexableLength::Known(known),
            ),
            Some((t, Ok(MaybeKnown::Computed(id)))) => kept(s, t) && length(env, sequence) == Some(
                IndexableLength::Dynamic,
            ) && is_length(env, t, sequence, id),
            _ => true,
        },
{
    reveal(sequence_length_run);
    lemma_array_length(env, s, sequence);
    lemma_length(env, sequence);
}

/// The greatest index is known or computed.
proof fn lemma_max_index(env: Env, s: State, sequence: ExprHandle)
    ensures
        match max_index_run(env, s, sequence) {
            Some((t, Ok(MaybeKnown::Known(last)))) => t == s && last < u32::MAX && length(
                env,
                sequence,
            ) == Some(IndexableLength::Known((last + 1) as u32)),
            Some((t, Ok(MaybeKnown::Computed(id)))) => kept(s, t) && length(env, sequence) == Some(
                IndexableLength::Dynamic,
            ) && is_last(env, t, sequence, id),
            _ => true,
        },
{
    broadcast use {
        lemma_kept_fresh,
        lemma_kept_push,
        lemma_kept_type,
        lemma_kept_constant,
        lemma_uint_kept,
        lemma_length_kept,
    };

    reveal(max_index_run);
    lemma_sequence_length(env, s, sequence);
    if let Some((s1, Ok(MaybeKnown::Computed(length_id)))) = sequence_length_run(env, s, sequence) {
        if let Some((s2, Ok(one_id))) = s1.index_id(env, 1) {
            if let Some((t, Ok(MaybeKnown::Computed(id)))) = max_index_run(env, s, sequence) {
                let s3 = s2.fresh().unwrap();
                assert(kept(s1, s2));
                assert(kept(s2, s3));
                lemma_kept_reflexive(s3);
                lemma_kept_type(env, s3, s3, numbers(None, ScalarKind::Uint, 4));
                assert(kept(s3, t));
                lemma_kept_after(s2, s3, t);
                lemma_kept_after(s1, s2, t);
                assert(is_length(env, t, sequence, length_id));
                assert(is_uint(t.code.writer, 1, one_id));
                assert(computes_uint(t, spirv::Op::ISub, id, seq![length_id, one_id]));
            }
        }
    }
}

/// The smaller of two numbers is computed.
proof fn lemma_clamp(env: Env, s: State, index_id: Word, limit_id: Word)
    ensures
        match clamp_run(env, s, index_id, limit_id) {
            Some((t, Ok(check))) => kept(s, t) && (check matches BoundsCheckResult::Computed(id)
                && is_least(env, t, id, index_id, limit_id)),
            _ => true,
        },
{
    broadcast use {lemma_kept_fresh, lemma_kept_push, lemma_kept_type};

    reveal(clamp_run);
    lemma_kept_reflexive(s);
    if let Some((t, Ok(BoundsCheckResult::Computed(_)))) = clamp_run(env, s, index_id, limit_id) {
        assert(t.block.body.last().operands =~= seq![
            env.writer.gl450_ext_inst_id,
            spirv::GLOp::UMin as Word,
            index_id,
            limit_id,
        ]);
    }
}

/// The comparison of an index with a length is computed.
proof fn lemma_compared(env: Env, s: State, index_id: Word, length_id: Word)
    ensures
        match compare_run(env, s, index_id, length_id) {
            Some((t, Ok(check))) => kept(s, t) && (check matches BoundsCheckResult::Conditional(id)
                && computes_bool(t, spirv::Op::ULessThan, id, seq![index_id, length_id])),
            _ => true,
        },
{
    broadcast use {lemma_kept_fresh, lemma_kept_push, lemma_kept_type};

    reveal(compare_run);
    lemma_kept_reflexive(s);
}

/// What restricting an index comes down to.
proof fn lemma_restricted(
    env: Env,
    s: State,
    sequence: ExprHandle,
    index: ExprHandle,
    t: State,
    check: BoundsCheckResult,
)
    requires
        env.writer.index_bounds_check_policy == IndexBoundsCheckPolicy::Restrict,
        restricted_index_run(env, s, sequence, index) == Some(
            (t, Ok::<BoundsCheckResult, Error>(check)),
        ),
    ensures
        kept(s, t),
        match check {
            BoundsCheckResult::KnownInBounds(known) => settled(env, sequence, index) == Some(
                known as int,
            ) && t.block == s.block,
            BoundsCheckResult::Computed(id) => is_checked_index(env, t, sequence, index, id),
            BoundsCheckResult::Conditional(_) => false,
        },
{
    reveal(restricted_index_run);
    lemma_kept_reflexive(s);
    lemma_max_index(env, s, sequence);
    lemma_constant_index(env, index);
    let index_id: Word = s.operand(index).unwrap();
    match max_index_run(env, s, sequence) {
        Some((s1, Ok(MaybeKnown::Known(last)))) => {
            let count = (last + 1) as u32;
            assert(count - 1 == last as int);
            let found = known_index(env, index).unwrap();
            assert(constant_index(env, index) == found);
            if let Some((s2, Ok(last_id))) = s1.index_id(env, last) {
                lemma_kept_constant(env, s, s, last);
                lemma_clamp(env, s2, index_id, last_id);
                if let BoundsCheckResult::Computed(id) = check {
                    lemma_kept_after(s, s2, t);
                    lemma_uint_kept(s2, t, last as int, last_id);
                    lemma_values_kept(s, t);
                    assert(is_least(env, t, id, id_of(t, index), last_id));
                    assert(is_uint(t.code.writer, count - 1, last_id));
                    assert(is_limited(env, t, index, count, id));
                    assert(is_checked_index(env, t, sequence, index, id));
                }
            }
        },
        Some((s1, Ok(MaybeKnown::Computed(last_id)))) => {
            lemma_clamp(env, s1, index_id, last_id);
            lemma_kept_after(s, s1, t);
            lemma_last_kept(env, s1, t, sequence, last_id);
            lemma_values_kept(s, t);
            if let BoundsCheckResult::Computed(id) = check {
                assert(is_least(env, t, id, id_of(t, index), last_id));
            }
            assert(is_last(env, t, sequence, last_id));
            if let BoundsCheckResult::Computed(id) = check {
                assert(is_checked_index(env, t, sequence, index, id));
            }
        },
        _ => {},
    }
}

/// What testing an index comes down to.
proof fn lemma_tested(
    env: Env,
    s: State,
    sequence: ExprHandle,
    index: ExprHandle,
    t: State,
    check: BoundsCheckResult,
)
    requires
        env.writer.index_bounds_check_policy == IndexBoundsCheckPolicy::ReadZeroSkipWrite,
        index_comparison_run(env, s, sequence, index) == Some(
            (t, Ok::<BoundsCheckResult, Error>(check)),
        ),
    ensures
        kept(s, t),
        needs_test(env, sequence, index) <==> check is Conditional,
        match check {
            BoundsCheckResult::KnownInBounds(known) => settled(env, sequence, index) == Some(
                known as int,
            ) && t.block == s.block,
            BoundsCheckResult::Computed(_) => false,
            BoundsCheckResult::Conditional(id) => is_test(env, t, sequence, index, id),
        },
{
    reveal(index_comparison_run);
    lemma_kept_reflexive(s);
    lemma_sequence_length(env, s, sequence);
    lemma_constant_index(env, index);
    let index_id: Word = s.operand(index).unwrap();
    match sequence_length_run(env, s, sequence) {
        Some((s1, Ok(MaybeKnown::Known(known)))) => {
            if let Some((s2, Ok(length_id))) = s1.index_id(env, known) {
                lemma_kept_constant(env, s, s, known);
                lemma_compared(env, s2, index_id, length_id);
                if let BoundsCheckResult::Conditional(id) = check {
                    lemma_kept_after(s, s2, t);
                    lemma_uint_kept(s2, t, known as int, length_id);
                    lemma_values_kept(s, t);
                    assert(computes_bool(
                        t,
                        spirv::Op::ULessThan,
                        id,
                        seq![id_of(t, index), length_id],
                    ));
                    assert(is_uint(t.code.writer, known as int, length_id));
                }
            }
        },
        Some((s1, Ok(MaybeKnown::Computed(length_id)))) => {
            lemma_compared(env, s1, index_id, length_id);
            lemma_kept_after(s, s1, t);
            lemma_length_kept(env, s1, t, sequence, length_id);
            lemma_values_kept(s, t);
            if let BoundsCheckResult::Conditional(id) = check {
                assert(computes_bool(
                    t,
                    spirv::Op::ULessThan,
                    id,
                    seq![id_of(t, index), length_id],
                ));
            }
            assert(is_length(env, t, sequence, length_id));
        },
        _ => {},
    }
}

/// What a bounds check comes down to: a number that is settled, an index that is
/// computed, or a test.
pub proof fn law_bounds_check(
    env: Env,
    s: State,
    sequence: ExprHandle,
    index: ExprHandle,
    t: State,
    check: BoundsCheckResult,
)
    requires
        bounds_check_run(env, s, sequence, index) == Some(
            (t, Ok::<BoundsCheckResult, Error>(check)),
        ),
    ensures
        kept(s, t),
        needs_test(env, sequence, index) <==> check is Conditional,
        match check {
            BoundsCheckResult::KnownInBounds(known) => settled(env, sequence, index) == Some(
                known as int,
            ) && t.block == s.block,
            BoundsCheckResult::Computed(id) => is_checked_index(env, t, sequence, index, id),
            BoundsCheckResult::Conditional(id) => is_test(env, t, sequence, index, id),
        },
        check is KnownInBounds ==> env.writer.index_bounds_check_policy
            != IndexBoundsCheckPolicy::UndefinedBehavior,
{
    reveal(bounds_check_run);
    match env.writer.index_bounds_check_policy {
        IndexBoundsCheckPolicy::Restrict => {
            lemma_restricted(env, s, sequence, index, t, check);
        },
        IndexBoundsCheckPolicy::ReadZeroSkipWrite => {
            lemma_tested(env, s, sequence, index, t, check);
        },
        IndexBoundsCheckPolicy::UndefinedBehavior => {
            lemma_kept_reflexive(s);
        },
    }
}

/// The index of an access is what the bounds check says: the constant that it
/// found to be in bounds, the index that it computed, or else the value of the
/// index expression as it is.
pub proof fn law_index_follows_check(
    env: Env,
    s: State,
    sequence: ExprHandle,
    index: ExprHandle,
    checks: Option<Word>,
    s1: State,
    check: BoundsCheckResult,
    t: State,
    id: Word,
    joined: Option<Word>,
)
    requires
        bounds_check_run(env, s, sequence, index) == Some(
            (s1, Ok::<BoundsCheckResult, Error>(check)),
        ),
        access_run(env, s, sequence, index, checks) == Some(
            (t, Ok::<(Word, Option<Word>), Error>((id, joined))),
        ),
    ensures
        match check {
            BoundsCheckResult::KnownInBounds(known) => is_uint(t.code.writer, known as int, id)
                && joined == checks,
            BoundsCheckResult::Computed(computed) => id == computed && joined == checks,
            BoundsCheckResult::Conditional(test) => id == id_of(s, index) && joins(
                t,
                checks,
                test,
                joined,
            ),
        },
        kept(s, t),
        kept(s1, t),
        if check is Conditional && checks is Some {
            t.block.body.drop_last() == s1.block.body && t.block.body.last().result_id == joined
                && t.block.body.last().op == spirv::Op::LogicalAnd
        } else {
            t.block == s1.block
        },
{
    broadcast use {lemma_kept_fresh, lemma_kept_push, lemma_kept_type, lemma_kept_constant};

    law_bounds_check(env, s, sequence, index, s1, check);
    lemma_kept_reflexive(s1);
    reveal(access_run);
    if let BoundsCheckResult::KnownInBounds(known) = check {
        assert(s1.index_id(env, known) == s1.constant_id(env, ScalarValue::Uint(known as u64), 4));
    }
    assert(s1.code.cached == s.code.cached) by {
        reveal(kept);
    }
    if check is Conditional && checks is Some {
        assert(t.block.body.drop_last() =~= s1.block.body);
    }
}

/// Whether a condition is a test joined to a condition before it, if there is
/// any.
pub open spec fn joins(t: State, prior: Option<Word>, test: Word, condition: Option<Word>) -> bool {
    match (prior, condition) {
        (None, Some(condition)) => condition == test,
        (Some(prior), Some(condition)) => computes_bool(
            t,
            spirv::Op::LogicalAnd,
            condition,
            seq![prior, test],
        ),
        (_, None) => false,
    }
}

/// What is reached from an expression by `depth` accesses, towards the variable.
pub open spec fn reached(env: Env, expr: ExprHandle, depth: nat) -> ExprHandle
    decreases depth,
{
    if depth == 0 {
        expr
    } else {
        let next = reached(env, expr, (depth - 1) as nat);
        match env.fun.expressions@[next.0 as int] {
            Expression::Access { base, .. } | Expression::AccessIndex { base, .. } => base,
            _ => next,
        }
    }
}

/// Whether an id is the index of the access that is `depth` accesses away from
/// an expression.
pub open spec fn is_index_at(env: Env, t: State, expr: ExprHandle, depth: nat, id: Word) -> bool {
    match env.fun.expressions@[reached(env, expr, depth).0 as int] {
        Expression::AccessIndex { index, .. } => is_uint(t.code.writer, index as int, id),
        Expression::Access { base, index } => is_checked_index(env, t, base, index, id),
        _ => false,
    }
}

/// Whether a condition is that the indices of the first `depth` accesses from an
/// expression on are in bounds: it joins the tests of those that need one, and
/// there is none if there are no tests.
pub open spec fn is_condition(
    env: Env,
    t: State,
    expr: ExprHandle,
    depth: nat,
    condition: Option<Word>,
) -> bool
    decreases depth,
{
    if depth == 0 {
        condition is None
    } else {
        let before = (depth - 1) as nat;
        match env.fun.expressions@[reached(env, expr, before).0 as int] {
            Expression::Access { base, index } if needs_test(env, base, index) => {
                exists|prior: Option<Word>, test: Word| #[trigger]
                    joins(t, prior, test, condition) && is_test(env, t, base, index, test)
                        && is_condition(env, t, expr, before, prior)
            },
            _ => is_condition(env, t, expr, before, condition),
        }
    }
}

proof fn lemma_condition_kept(
    env: Env,
    t: State,
    u: State,
    expr: ExprHandle,
    depth: nat,
    condition: Option<Word>,
)
    requires
        kept(t, u),
        is_condition(env, t, expr, depth, condition),
    ensures
        is_condition(env, u, expr, depth, condition),
    decreases depth,
{
    broadcast use {lemma_test_kept, lemma_computes_bool_kept};

    if depth > 0 {
        let before = (depth - 1) as nat;
        match env.fun.expressions@[reached(env, expr, before).0 as int] {
            Expression::Access { base, index } if needs_test(env, base, index) => {
                let (prior, test) = choose|prior: Option<Word>, test: Word| #[trigger]
                    joins(t, prior, test, condition) && is_test(env, t, base, index, test)
                        && is_condition(env, t, expr, before, prior);
                lemma_condition_kept(env, t, u, expr, before, prior);
                assert(joins(u, prior, test, condition));
            },
            _ => {
                lemma_condition_kept(env, t, u, expr, before, condition);
            },
        }
    }
}

/// The id of a variable, or of a parameter that is a pointer.
pub open spec fn variable_id(env: Env, expr: ExprHandle) -> Option<Word> {
    match env.fun.expressions@[expr.0 as int] {
        Expression::GlobalVariable(handle) => Some(
            env.writer.global_variables[handle.0 as int].id,
        ),
        Expression::LocalVariable(variable) => Some(env.function.variables[variable.0]),
        Expression::FunctionArgument(index) => Some(parameter(env, index)),
        _ => None,
    }
}

/// What an access in a chain adds to the indices and to the condition.
proof fn lemma_access_at(
    env: Env,
    s: State,
    expr: ExprHandle,
    depth: nat,
    checks: Option<Word>,
    t: State,
    id: Word,
    joined: Option<Word>,
)
    requires
        is_condition(env, s, expr, depth, checks),
        env.fun.expressions@[reached(env, expr, depth).0 as int] matches Expression::Access {
            base,
            index,
        } && access_run(env, s, base, index, checks) == Some(
            (t, Ok::<(Word, Option<Word>), Error>((id, joined))),
        ),
    ensures
        kept(s, t),
        is_index_at(env, t, expr, depth, id),
        is_condition(env, t, expr, depth + 1, joined),
{
    broadcast use {lemma_test_kept, lemma_index_kept};

    if let Expression::Access { base, index } = env.fun.expressions@[reached(
        env,
        expr,
        depth,
    ).0 as int] {
        reveal(access_run);
        let (s1, check) = match bounds_check_run(env, s, base, index) {
            Some((s1, Ok(check))) => (s1, check),
            _ => arbitrary(),
        };
        law_bounds_check(env, s, base, index, s1, check);
        law_index_follows_check(env, s, base, index, checks, s1, check, t, id, joined);
        lemma_condition_kept(env, s, t, expr, depth, checks);
        assert(t.code.cached == s.code.cached) by {
            reveal(kept);
        }
        if let BoundsCheckResult::Conditional(test) = check {
            assert(joins(t, checks, test, joined));
        }
        assert((depth + 1 - 1) as nat == depth);
    }
}

/// What following a chain of accesses gathers.
proof fn lemma_chain_followed(
    env: Env,
    s: State,
    start: ExprHandle,
    depth: nat,
    expr: ExprHandle,
    checks: Option<Word>,
    indices: Seq<Word>,
    limit: nat,
)
    requires
        expr == reached(env, start, depth),
        indices.len() == depth,
        forall|d: nat| d < depth ==> #[trigger] is_index_at(env, s, start, d, indices[d as int]),
        is_condition(env, s, start, depth, checks),
    ensures
        match chain_run(env, s, expr, checks, indices, limit) {
            Some((t, Ok(chain))) => {
                &&& kept(s, t)
                &&& depth <= chain.indices.len()
                &&& forall|d: nat|
                    d < chain.indices.len() ==> #[trigger] is_index_at(
                        env,
                        t,
                        start,
                        d,
                        chain.indices[d as int],
                    )
                &&& is_condition(env, t, start, chain.indices.len(), chain.checks)
                &&& variable_id(env, reached(env, start, chain.indices.len())) == Some(chain.root)
            },
            _ => true,
        },
    decreases limit,
{
    broadcast use {lemma_uint_kept, lemma_index_kept};

    lemma_kept_reflexive(s);
    if limit > 0 {
        let rest = (limit - 1) as nat;
        let next = match env.fun.expression(expr) {
            Some(Expression::Access { base, index }) => match access_run(
                env,
                s,
                base,
                index,
                checks,
            ) {
                Some((s1, Ok((id, joined)))) => {
                    lemma_access_at(env, s, start, depth, checks, s1, id, joined);
                    Some((s1, base, id, joined))
                },
                _ => None,
            },
            Some(Expression::AccessIndex { base, index }) => match s.index_id(env, index) {
                Some((s1, Ok(id))) => {
                    lemma_kept_constant(env, s, s, index);
                    lemma_condition_kept(env, s, s1, start, depth, checks);
                    Some((s1, base, id, checks))
                },
                _ => None,
            },
            _ => None,
        };
        if let Some((s1, base, id, joined)) = next {
            let indices1 = indices.push(id);
            assert forall|d: nat| d < depth + 1 implies #[trigger] is_index_at(
                env,
                s1,
                start,
                d,
                indices1[d as int],
            ) by {
                if d < depth {
                    assert(is_index_at(env, s, start, d, indices[d as int]));
                }
            }
            lemma_chain_followed(env, s1, start, depth + 1, base, joined, indices1, rest);
            if let Some((t, Ok(_))) = chain_run(env, s1, base, joined, indices1, rest) {
                lemma_kept_after(s, s1, t);
            }
        }
    }
}

/// Whether an instruction is the access that an expression comes down to: it has
/// the type of the expression, and goes from the variable by the indices of all
/// accesses, the one next to the variable first.
pub open spec fn is_access(env: Env, t: State, expr: ExprHandle, access: Inst) -> bool {
    let count = (access.operands.len() - 1) as nat;
    &&& access.op == spirv::Op::AccessChain
    &&& access.type_id matches Some(type_id) && is_type_id(env, t.code.writer, expr, type_id)
    &&& access.result_id is Some
    &&& access.operands.len() > 1
    &&& variable_id(env, reached(env, expr, count)) == Some(access.operands[0])
    &&& forall|depth: nat|
        depth < count ==> #[trigger] is_index_at(
            env,
            t,
            expr,
            depth,
            access.operands[count - depth],
        )
}

/// Whether a pointer is what an expression stands for; see [`law_pointer`].
pub open spec fn is_pointer(
    env: Env,
    s: State,
    t: State,
    expr: ExprHandle,
    pointer: Pointer,
) -> bool {
    match pointer {
        Pointer::Ready { pointer_id } => if variable_id(env, expr) is Some {
            variable_id(env, expr) == Some(pointer_id) && t.block == s.block
        } else {
            let access = t.block.body.last();
            &&& t.block.body.len() > s.block.body.len()
            &&& is_access(env, t, expr, access)
            &&& access.result_id == Some(pointer_id)
            &&& is_condition(env, t, expr, (access.operands.len() - 1) as nat, None)
        },
        Pointer::Conditional { condition, access } => {
            &&& is_access(env, t, expr, access)
            &&& is_condition(
                env,
                t,
                expr,
                (access.operands.len() - 1) as nat,
                Some(condition),
            )
        },
    }
}

/// A pointer is a variable, or what one access reaches from one by the indices
/// of the expressions that it stands for, each of them the constant, or checked
/// as the policy asks. The access waits for a condition exactly if some of the
/// indices are to be tested, and the condition is that all of these are in
/// bounds.
pub proof fn law_pointer(env: Env, s: State, expr: ExprHandle, t: State, pointer: Pointer)
    requires
        pointer_run(env, s, expr) == Some((t, Ok::<Pointer, Error>(pointer))),
    ensures
        kept(s, t),
        is_pointer(env, s, t, expr, pointer),
{
    broadcast use {lemma_kept_fresh, lemma_kept_push, lemma_index_kept, lemma_uint_kept};

    reveal(pointer_run);
    reveal(chain_end);
    let limit = env.fun.expressions@.len();
    let ty = env.lookup(expr).unwrap();
    let (s1, type_id) = match s.type_id(env, ty) {
        Some((s1, Ok(type_id))) => (s1, type_id),
        _ => arbitrary(),
    };
    let (s2, chain) = match chain_run(env, s1, expr, None, Seq::empty(), limit) {
        Some((s2, Ok(chain))) => (s2, chain),
        _ => arbitrary(),
    };
    lemma_kept_reflexive(s);
    lemma_kept_type(env, s, s, ty);
    lemma_typed(env, s, expr);
    lemma_chain_followed(env, s1, expr, 0, expr, None, Seq::empty(), limit);
    lemma_kept_after(s, s1, s2);
    if chain.indices.len() > 0 {
        let s3 = s2.fresh().unwrap();
        let count = chain.indices.len();
        let access = Inst::access_chain(type_id, s3.id(), chain.root, chain.indices.reverse());
        assert(access.operands.len() == count + 1);
        lemma_kept_reflexive(s2);
        assert(kept(s2, s3));
        assert(kept(s3, s3.push(access)));
        lemma_kept_after(s2, s3, s3.push(access));
        assert(kept(s2, t));
        lemma_kept_after(s1, s2, t);
        assert(holds(t.code.writer.types, s1.code.writer.types)) by {
            reveal(kept);
        }
        lemma_typed_later(env, s1.code.writer, t.code.writer, expr, type_id);
        lemma_condition_kept(env, s2, t, expr, count, chain.checks);
        assert forall|depth: nat| depth < count implies #[trigger] is_index_at(
            env,
            t,
            expr,
            depth,
            access.operands[count - depth],
        ) by {
            assert(is_index_at(env, s2, expr, depth, chain.indices[depth as int]));
            assert(access.operands[count - depth] == chain.indices[depth as int]);
        }
        assert(is_index_at(env, t, expr, 0, access.operands[count - 0]));
        assert(is_access(env, t, expr, access));
        if chain.checks is None {
            assert(t.block.body.last() == access);
            assert(t.block.body.len() > s.block.body.len()) by {
                reveal(kept);
            }
        }
    } else {
        assert(variable_id(env, reached(env, expr, 0)) == Some(chain.root));
        assert(t.block == s.block) by {
            lemma_followed_without(env, s1, expr, None, limit);
        }
    }
}

/// A chain without accesses emits nothing.
proof fn lemma_followed_without(
    env: Env,
    s: State,
    expr: ExprHandle,
    checks: Option<Word>,
    limit: nat,
)
    requires
        variable_id(env, expr) is Some,
    ensures
        match chain_run(env, s, expr, checks, Seq::empty(), limit) {
            Some((t, _)) => t == s,
            None => true,
        },
{
}

/// Whether an error is one that a bounds check accounts for: what has no parts
/// cannot be indexed, and a run-time sized array that is not a member of a
/// variable or parameter has no length. Where indices are used as they are,
/// nothing is checked.
pub open spec fn is_check_error(env: Env, sequence: ExprHandle, error: Error) -> bool {
    ||| env.writer.index_bounds_check_policy != IndexBoundsCheckPolicy::UndefinedBehavior && length(
        env,
        sequence,
    ) is None && error == Error::Validation("indexable length")
    ||| env.writer.index_bounds_check_policy != IndexBoundsCheckPolicy::UndefinedBehavior && length(
        env,
        sequence,
    ) == Some(IndexableLength::Dynamic) && owner(env, sequence) is None && error
        == Error::Validation("array length expression")
}

/// Asking for a constant index does not fail.
proof fn lemma_constant_error(env: Env, s: State, value: u32)
    ensures
        !(s.index_id(env, value) matches Some((_, Err(_)))),
{
    if let Some(w) = s.code.writer.fresh() {
        lemma_type_error(w, env.strict(), numbers(None, ScalarKind::Uint, 4));
    }
}

/// A bounds check fails only where there is no length to check against.
pub proof fn law_bounds_check_refused(
    env: Env,
    s: State,
    sequence: ExprHandle,
    index: ExprHandle,
    t: State,
    error: Error,
)
    requires
        bounds_check_run(env, s, sequence, index) == Some(
            (t, Err::<BoundsCheckResult, Error>(error)),
        ),
    ensures
        is_check_error(env, sequence, error),
{
    reveal(bounds_check_run);
    reveal(restricted_index_run);
    reveal(index_comparison_run);
    reveal(max_index_run);
    reveal(sequence_length_run);
    reveal(array_length_run);
    reveal(clamp_run);
    reveal(compare_run);
    lemma_length(env, sequence);
    let uint = numbers(None, ScalarKind::Uint, 4);
    let boolean = numbers(None, ScalarKind::Bool, 1);
    assert forall|w: WriterState| !(#[trigger] w.type_id(env.strict(), uint) matches Some(
        (_, Err(_)),
    )) by {
        lemma_type_error(w, env.strict(), uint);
    }
    assert forall|w: WriterState| !(#[trigger] w.type_id(env.strict(), boolean) matches Some(
        (_, Err(_)),
    )) by {
        lemma_type_error(w, env.strict(), boolean);
    }
    assert forall|u: State, value: u32| !(#[trigger] u.index_id(env, value) matches Some(
        (_, Err(_)),
    )) by {
        lemma_constant_error(env, u, value);
    }
}

/// Whether an error comes of an access that is some accesses away from an
/// expression.
pub open spec fn is_access_error(env: Env, expr: ExprHandle, depth: nat, error: Error) -> bool {
    env.fun.expressions@[reached(env, expr, depth).0 as int] matches Expression::Access {
        base,
        ..
    } && is_check_error(env, base, error)
}

/// What makes following a chain of accesses fail.
proof fn lemma_chain_refused(
    env: Env,
    s: State,
    start: ExprHandle,
    depth: nat,
    expr: ExprHandle,
    checks: Option<Word>,
    indices: Seq<Word>,
    limit: nat,
)
    requires
        expr == reached(env, start, depth),
    ensures
        match chain_run(env, s, expr, checks, indices, limit) {
            Some((_, Err(error))) => exists|d: nat| #[trigger]
                is_access_error(env, start, d, error),
            _ => true,
        },
    decreases limit,
{
    if limit > 0 {
        let rest = (limit - 1) as nat;
        match env.fun.expression(expr) {
            Some(Expression::Access { base, index }) => {
                reveal(access_run);
                match bounds_check_run(env, s, base, index) {
                    Some((s1, Err(error))) => {
                        law_bounds_check_refused(env, s, base, index, s1, error);
                        assert(is_access_error(env, start, depth, error));
                    },
                    Some((s1, Ok(BoundsCheckResult::KnownInBounds(known)))) => {
                        lemma_constant_error(env, s1, known);
                        assert(s1.index_id(env, known) == s1.constant_id(
                            env,
                            ScalarValue::Uint(known as u64),
                            4,
                        ));
                    },
                    Some((s1, Ok(_))) => {
                        if let Some(s2) = s1.fresh() {
                            lemma_type_error(
                                s2.code.writer,
                                env.strict(),
                                numbers(None, ScalarKind::Bool, 1),
                            );
                        }
                    },
                    None => {},
                }
                if let Some((s1, Ok((id, joined)))) = access_run(env, s, base, index, checks) {
                    lemma_chain_refused(
                        env,
                        s1,
                        start,
                        depth + 1,
                        base,
                        joined,
                        indices.push(id),
                        rest,
                    );
                }
            },
            Some(Expression::AccessIndex { base, index }) => {
                lemma_constant_error(env, s, index);
                if let Some((s1, Ok(id))) = s.index_id(env, index) {
                    lemma_chain_refused(
                        env,
                        s1,
                        start,
                        depth + 1,
                        base,
                        checks,
                        indices.push(id),
                        rest,
                    );
                }
            },
            _ => {},
        }
    }
}

/// Whether an error is one that a pointer accounts for.
pub open spec fn is_pointer_error(env: Env, s: State, expr: ExprHandle, error: Error) -> bool {
    is_type_lack(env, s, expr, error) || exists|depth: nat| #[trigger]
        is_access_error(env, expr, depth, error)
}

/// A pointer cannot be had only where one of its indices cannot be checked, or its
/// type not be declared.
pub proof fn law_pointer_refused(env: Env, s: State, expr: ExprHandle, t: State, error: Error)
    requires
        pointer_run(env, s, expr) == Some((t, Err::<Pointer, Error>(error))),
    ensures
        is_pointer_error(env, s, expr, error),
{
    reveal(pointer_run);
    reveal(chain_end);
    let limit = env.fun.expressions@.len();
    let ty = env.lookup(expr).unwrap();
    lemma_typed(env, s, expr);
    if let Some((s1, Ok(_))) = s.type_id(env, ty) {
        lemma_chain_refused(env, s1, expr, 0, expr, None, Seq::empty(), limit);
    }
}

/// The opcodes of what a bounds check emits, in order.
pub open spec fn check_opcodes(env: Env, sequence: ExprHandle, index: ExprHandle) -> Seq<
    spirv::Op,
> {
    let dynamic = length(env, sequence) == Some(IndexableLength::Dynamic);
    match env.writer.index_bounds_check_policy {
        IndexBoundsCheckPolicy::UndefinedBehavior => Seq::empty(),
        IndexBoundsCheckPolicy::Restrict => if settled(env, sequence, index) is Some {
            Seq::empty()
        } else if dynamic {
            seq![spirv::Op::ArrayLength, spirv::Op::ISub, spirv::Op::ExtInst]
        } else {
            seq![spirv::Op::ExtInst]
        },
        IndexBoundsCheckPolicy::ReadZeroSkipWrite => if settled(env, sequence, index) is Some {
            Seq::empty()
        } else if dynamic {
            seq![spirv::Op::ArrayLength, spirv::Op::ULessThan]
        } else {
            seq![spirv::Op::ULessThan]
        },
    }
}

/// A bounds check emits what it needs and nothing else: the length if it is not
/// known, and the restriction or the test; nothing for an index that is settled
/// or is not checked.
pub proof fn law_bounds_check_is_short(
    env: Env,
    s: State,
    sequence: ExprHandle,
    index: ExprHandle,
    t: State,
    check: BoundsCheckResult,
)
    requires
        bounds_check_run(env, s, sequence, index) == Some(
            (t, Ok::<BoundsCheckResult, Error>(check)),
        ),
    ensures
        t.block.body.len() == s.block.body.len() + check_opcodes(env, sequence, index).len(),
        forall|i: int|
            0 <= i < check_opcodes(env, sequence, index).len() ==> (
            #[trigger] t.block.body[s.block.body.len() + i]).op == check_opcodes(
                env,
                sequence,
                index,
            )[i],
        match check {
            BoundsCheckResult::KnownInBounds(_) => true,
            BoundsCheckResult::Computed(id) => check_opcodes(env, sequence, index).len() == 0
                || t.block.body.last().result_id == Some(id),
            BoundsCheckResult::Conditional(id) => t.block.body.last().result_id == Some(id),
        },
{
    reveal(bounds_check_run);
    reveal(restricted_index_run);
    reveal(index_comparison_run);
    reveal(max_index_run);
    reveal(sequence_length_run);
    reveal(array_length_run);
    reveal(clamp_run);
    reveal(compare_run);
    lemma_length(env, sequence);
    lemma_constant_index(env, index);
    law_bounds_check(env, s, sequence, index, t, check);
    if env.writer.index_bounds_check_policy != IndexBoundsCheckPolicy::UndefinedBehavior {
        lemma_settled(env, s, sequence, index, t, check);
    }
}

/// A check that comes to nothing settled has nothing that could be.
proof fn lemma_settled(
    env: Env,
    s: State,
    sequence: ExprHandle,
    index: ExprHandle,
    t: State,
    check: BoundsCheckResult,
)
    requires
        bounds_check_run(env, s, sequence, index) == Some(
            (t, Ok::<BoundsCheckResult, Error>(check)),
        ),
        env.writer.index_bounds_check_policy != IndexBoundsCheckPolicy::UndefinedBehavior,
    ensures
        settled(env, sequence, index) is Some <==> check is KnownInBounds,
        length(env, sequence) is Some,
{
    reveal(bounds_check_run);
    reveal(restricted_index_run);
    reveal(index_comparison_run);
    reveal(clamp_run);
    reveal(compare_run);
    lemma_constant_index(env, index);
    lemma_max_index(env, s, sequence);
    lemma_sequence_length(env, s, sequence);
}

} // verus!
