//! What pointers come down to.

use spirv::Word;
use vstd::prelude::*;
use crate::context::{Env, State};
use crate::flow::lemma_grown_reflexive;
use crate::function::Blk;
use crate::growth::{begins_with, grown, group_steps, holds};
use crate::index::{
    array_length_run, bounds_check_run, clamp_run, compare_run, index_comparison_run,
    indexable_length, max_index_run, restricted_index_run, sequence_length_run, BoundsCheckResult,
    IndexableLength,
};
use crate::instruction::Inst;
use crate::ir::{ExprHandle, Expression, ScalarValue};
use crate::pointer::{access_run, chain_end, chain_run, pointer_run, Pointer};
use crate::run::Error;
use crate::steps::{lemma_access, lemma_chain};
use crate::writer::IndexBoundsCheckPolicy;

verus! {

/// Whether an opcode is one that bounds checks are made of.
pub open spec fn is_check(op: spirv::Op) -> bool {
    ||| op == spirv::Op::ArrayLength
    ||| op == spirv::Op::ISub
    ||| op == spirv::Op::ExtInst
    ||| op == spirv::Op::ULessThan
    ||| op == spirv::Op::LogicalAnd
}

/// Whether all that was emitted since `base` is bounds checks, in the same
/// block.
#[verifier::opaque]
pub open spec fn checks_only(base: State, blocks: Seq<Blk>, block: Blk) -> bool {
    &&& blocks == base.code.blocks
    &&& block.label == base.block.label
    &&& begins_with(block.body, base.block.body)
    &&& forall|i: int|
        base.block.body.len() <= i < block.body.len() ==> is_check((#[trigger] block.body[i]).op)
}

/// How many accesses a chain is made of.
pub open spec fn chain_length(env: Env, expr: ExprHandle, limit: nat) -> nat
    decreases limit,
{
    if limit == 0 {
        0
    } else {
        match env.fun.expression(expr) {
            Some(Expression::Access { base, .. }) | Some(Expression::AccessIndex { base, .. }) => {
                1 + chain_length(env, base, (limit - 1) as nat)
            },
            _ => 0,
        }
    }
}

/// The id of the variable or argument that a chain starts at.
pub open spec fn chain_root(env: Env, expr: ExprHandle, limit: nat) -> Option<Word>
    decreases limit,
{
    if limit == 0 {
        None
    } else {
        match env.fun.expression(expr) {
            Some(Expression::Access { base, .. }) | Some(Expression::AccessIndex { base, .. }) => {
                chain_root(env, base, (limit - 1) as nat)
            },
            Some(Expression::GlobalVariable(handle)) => Some(
                env.writer.global_variables[handle.0 as int].id,
            ),
            Some(Expression::LocalVariable(variable)) => Some(env.function.variables[variable.0]),
            Some(Expression::FunctionArgument(index)) => env.function.parameter_id(index),
            _ => None,
        }
    }
}

broadcast proof fn lemma_check_push(base: State, blocks: Seq<Blk>, block: Blk, inst: Inst)
    requires
        checks_only(base, blocks, block),
        is_check(inst.op),
    ensures
        #![trigger block.push(inst), checks_only(base, blocks, block)]
        checks_only(base, blocks, block.push(inst)),
{
    reveal(checks_only);
}

/// What a bounds check emits, and which outcomes a policy leaves.
broadcast proof fn lemma_bounds_check_emits(
    env: Env,
    base: State,
    s: State,
    sequence: ExprHandle,
    index: ExprHandle,
)
    requires
        checks_only(base, s.code.blocks, s.block),
    ensures
        #![trigger bounds_check_run(env, s, sequence, index),
            checks_only(base, s.code.blocks, s.block)]
        match bounds_check_run(env, s, sequence, index) {
            Some((t, result)) => {
                &&& checks_only(base, t.code.blocks, t.block)
                &&& env.writer.index_bounds_check_policy
                    != IndexBoundsCheckPolicy::ReadZeroSkipWrite ==> !(result matches Ok(
                    BoundsCheckResult::Conditional(_),
                ))
                &&& env.writer.index_bounds_check_policy
                    == IndexBoundsCheckPolicy::UndefinedBehavior ==> t == s
            },
            None => true,
        },
{
    broadcast use lemma_check_push;

    reveal(bounds_check_run);
    reveal(restricted_index_run);
    reveal(index_comparison_run);
    reveal(max_index_run);
    reveal(sequence_length_run);
    reveal(array_length_run);
    reveal(clamp_run);
    reveal(compare_run);
}

/// What the index of an access emits.
broadcast proof fn lemma_access_emits(
    env: Env,
    base: State,
    s: State,
    sequence: ExprHandle,
    index: ExprHandle,
    checks: Option<Word>,
)
    requires
        checks_only(base, s.code.blocks, s.block),
    ensures
        #![trigger access_run(env, s, sequence, index, checks),
            checks_only(base, s.code.blocks, s.block)]
        match access_run(env, s, sequence, index, checks) {
            Some((t, result)) => {
                &&& checks_only(base, t.code.blocks, t.block)
                &&& env.writer.index_bounds_check_policy
                    != IndexBoundsCheckPolicy::ReadZeroSkipWrite ==> (result matches Ok((_, c))
                    ==> c == checks)
                &&& env.writer.index_bounds_check_policy
                    == IndexBoundsCheckPolicy::UndefinedBehavior ==> t.block == s.block
            },
            None => true,
        },
{
    broadcast use {lemma_check_push, lemma_bounds_check_emits};

    reveal(access_run);
}

/// What a chain comes down to: the variable that it starts at, an index for
/// each access, and bounds checks.
proof fn lemma_chain_gathers(
    env: Env,
    base: State,
    s: State,
    expr: ExprHandle,
    checks: Option<Word>,
    indices: Seq<Word>,
    limit: nat,
)
    requires
        checks_only(base, s.code.blocks, s.block),
    ensures
        match chain_run(env, s, expr, checks, indices, limit) {
            Some((t, Ok(chain))) => {
                &&& chain_root(env, expr, limit) == Some(chain.root)
                &&& chain.indices.len() == indices.len() + chain_length(env, expr, limit)
                &&& checks_only(base, t.code.blocks, t.block)
                &&& env.writer.index_bounds_check_policy
                    != IndexBoundsCheckPolicy::ReadZeroSkipWrite ==> chain.checks == checks
                &&& env.writer.index_bounds_check_policy
                    == IndexBoundsCheckPolicy::UndefinedBehavior ==> t.block == s.block
            },
            _ => true,
        },
    decreases limit,
{
    broadcast use lemma_access_emits;

    if limit > 0 {
        match env.fun.expression(expr) {
            Some(Expression::Access { base: sequence, index }) => {
                if let Some((s1, Ok((id, checks1)))) = access_run(
                    env,
                    s,
                    sequence,
                    index,
                    checks,
                ) {
                    lemma_chain_gathers(
                        env,
                        base,
                        s1,
                        sequence,
                        checks1,
                        indices.push(id),
                        (limit - 1) as nat,
                    );
                }
            },
            Some(Expression::AccessIndex { base: sequence, index }) => {
                if let Some((s1, Ok(id))) = s.index_id(env, index) {
                    lemma_chain_gathers(
                        env,
                        base,
                        s1,
                        sequence,
                        checks,
                        indices.push(id),
                        (limit - 1) as nat,
                    );
                }
            },
            _ => {},
        }
    }
}

/// Whether an instruction is the access that a chain of accesses is gathered
/// into: it starts at the chain's variable, and has an index for each access.
pub open spec fn gathers(env: Env, expr: ExprHandle, access: Inst) -> bool {
    let limit = env.fun.expressions@.len();
    &&& access.op == spirv::Op::AccessChain
    &&& access.operands.len() == 1 + chain_length(env, expr, limit)
    &&& chain_root(env, expr, limit) == Some(access.operands[0])
}

/// A pointer takes one instruction, however long the chain of accesses that it
/// stands for is. Besides that instruction, only bounds checks are emitted.
/// The instruction itself is left to the caller if it is conditional.
pub proof fn law_pointer_is_one_access(env: Env, s: State, expr: ExprHandle)
    ensures
        match pointer_run(env, s, expr) {
            Some((t, Ok(Pointer::Ready { pointer_id }))) => if chain_length(
                env,
                expr,
                env.fun.expressions@.len(),
            ) == 0 {
                &&& chain_root(env, expr, env.fun.expressions@.len()) == Some(pointer_id)
                &&& checks_only(s, t.code.blocks, t.block)
            } else {
                exists|before: Blk, access: Inst| #[trigger]
                    t.block == before.push(access) && checks_only(s, t.code.blocks, before)
                        && gathers(env, expr, access) && access.result_id == Some(pointer_id)
            },
            Some((t, Ok(Pointer::Conditional { access, .. }))) => {
                &&& gathers(env, expr, access)
                &&& access.result_id is Some
                &&& checks_only(s, t.code.blocks, t.block)
            },
            _ => true,
        },
{
    reveal(pointer_run);
    reveal(chain_end);
    let limit = env.fun.expressions@.len();
    assert(checks_only(s, s.code.blocks, s.block)) by {
        reveal(checks_only);
    }
    if let Some(ty) = env.lookup(expr) {
        if let Some((s1, Ok(type_id))) = s.type_id(env, ty) {
            lemma_chain_gathers(env, s, s1, expr, None, Seq::empty(), limit);
            if let Some((s2, Ok(chain))) = chain_run(env, s1, expr, None, Seq::empty(), limit) {
                if let Some(s3) = s2.fresh() {
                    let access = Inst::access_chain(
                        type_id,
                        s3.id(),
                        chain.root,
                        chain.indices.reverse(),
                    );
                    if chain.indices.len() > 0 {
                        assert(gathers(env, expr, access));
                        assert(s3.push(access).block == s3.block.push(access));
                    }
                }
            }
        }
    }
}

/// A pointer is conditional only where the policy is to test indices: nothing
/// is left to the caller otherwise.
pub proof fn law_pointer_is_ready(env: Env, s: State, expr: ExprHandle)
    requires
        env.writer.index_bounds_check_policy != IndexBoundsCheckPolicy::ReadZeroSkipWrite,
    ensures
        match pointer_run(env, s, expr) {
            Some((_, Ok(pointer))) => pointer is Ready,
            _ => true,
        },
{
    reveal(pointer_run);
    reveal(chain_end);
    assert(checks_only(s, s.code.blocks, s.block)) by {
        reveal(checks_only);
    }
    if let Some(ty) = env.lookup(expr) {
        if let Some((s1, Ok(_))) = s.type_id(env, ty) {
            lemma_chain_gathers(
                env,
                s,
                s1,
                expr,
                None,
                Seq::empty(),
                env.fun.expressions@.len(),
            );
        }
    }
}

/// Where out-of-bounds accesses are undefined behavior, a pointer emits no
/// bounds checks: the access is all there is.
pub proof fn law_pointer_without_checks(env: Env, s: State, expr: ExprHandle)
    requires
        env.writer.index_bounds_check_policy == IndexBoundsCheckPolicy::UndefinedBehavior,
    ensures
        match pointer_run(env, s, expr) {
            Some((t, Ok(_))) => t.block == s.block || exists|access: Inst| #[trigger]
                t.block == s.block.push(access) && gathers(env, expr, access),
            _ => true,
        },
{
    law_pointer_is_ready(env, s, expr);
    reveal(pointer_run);
    reveal(chain_end);
    let limit = env.fun.expressions@.len();
    assert(checks_only(s, s.code.blocks, s.block)) by {
        reveal(checks_only);
    }
    if let Some(ty) = env.lookup(expr) {
        if let Some((s1, Ok(type_id))) = s.type_id(env, ty) {
            lemma_chain_gathers(env, s, s1, expr, None, Seq::empty(), limit);
            if let Some((s2, Ok(chain))) = chain_run(env, s1, expr, None, Seq::empty(), limit) {
                if let Some(s3) = s2.fresh() {
                    let access = Inst::access_chain(
                        type_id,
                        s3.id(),
                        chain.root,
                        chain.indices.reverse(),
                    );
                    assert(s3.push(access).block == s.block.push(access));
                }
            }
        }
    }
}

/// An index that is found to be in bounds without a test at run time is: the
/// length is known, and greater.
pub proof fn law_known_index_is_in_bounds(
    env: Env,
    s: State,
    sequence: ExprHandle,
    index: ExprHandle,
    known: u32,
)
    requires
        bounds_check_run(env, s, sequence, index) matches Some(
            (_, Ok(BoundsCheckResult::KnownInBounds(k))),
        ) && k == known,
    ensures
        match indexable_length(env.module, env.inner(sequence).unwrap()) {
            Some(Ok(IndexableLength::Known(length))) => known < length,
            _ => false,
        },
{
    reveal(bounds_check_run);
    reveal(restricted_index_run);
    reveal(index_comparison_run);
    reveal(max_index_run);
    reveal(sequence_length_run);
    reveal(clamp_run);
    reveal(compare_run);
}

/// The access that stands `depth` accesses before the end of a chain.
pub open spec fn chain_access(env: Env, expr: ExprHandle, depth: nat) -> Option<Expression>
    decreases depth,
{
    if depth == 0 {
        env.fun.expression(expr)
    } else {
        match env.fun.expression(expr) {
            Some(Expression::Access { base, .. }) | Some(Expression::AccessIndex { base, .. }) => {
                chain_access(env, base, (depth - 1) as nat)
            },
            _ => None,
        }
    }
}

/// Whether an id is the index of an access: the constant that a known index
/// is, or, where indices are used as they are, the value of a computed one.
pub open spec fn is_index_of(env: Env, t: State, access: Option<Expression>, id: Word) -> bool {
    match access {
        Some(Expression::AccessIndex { index, .. }) => {
            let constants = t.code.writer.constants;
            let key = (ScalarValue::Uint(index as u64), 4u8);
            constants.contains_key(key) && constants[key] == id
        },
        Some(Expression::Access { index, .. }) => {
            env.writer.index_bounds_check_policy == IndexBoundsCheckPolicy::UndefinedBehavior
                ==> t.operand(index) == Some(id)
        },
        _ => false,
    }
}

/// What a chain's indices are, the last access first.
proof fn lemma_chain_indices(
    env: Env,
    known: Set<Word>,
    base: State,
    s: State,
    expr: ExprHandle,
    checks: Option<Word>,
    indices: Seq<Word>,
    limit: nat,
)
    requires
        grown(env, known, base, s),
    ensures
        match chain_run(env, s, expr, checks, indices, limit) {
            Some((t, Ok(chain))) => {
                &&& begins_with(chain.indices, indices)
                &&& chain.indices.len() == indices.len() + chain_length(env, expr, limit)
                &&& forall|depth: nat|
                    depth < chain_length(env, expr, limit) ==> is_index_of(
                        env,
                        t,
                        #[trigger] chain_access(env, expr, depth),
                        chain.indices[indices.len() as int + depth],
                    )
            },
            _ => true,
        },
    decreases limit,
{
    if limit > 0 {
        broadcast use {group_steps, lemma_access};

        let (next, sequence) = match env.fun.expression(expr) {
            Some(Expression::Access { base: sequence, index }) => match access_run(
                env,
                s,
                sequence,
                index,
                checks,
            ) {
                Some((s1, Ok((id, checks1)))) => {
                    if env.writer.index_bounds_check_policy
                        == IndexBoundsCheckPolicy::UndefinedBehavior {
                        reveal(access_run);
                        reveal(bounds_check_run);
                    }
                    (Some((s1, id, checks1)), sequence)
                },
                _ => (None, sequence),
            },
            Some(Expression::AccessIndex { base: sequence, index }) => match s.index_id(
                env,
                index,
            ) {
                Some((s1, Ok(id))) => (Some((s1, id, checks)), sequence),
                _ => (None, sequence),
            },
            _ => (None, expr),
        };
        if let Some((s1, id, checks1)) = next {
            let rest = (limit - 1) as nat;
            lemma_chain_indices(
                env,
                known,
                base,
                s1,
                sequence,
                checks1,
                indices.push(id),
                rest,
            );
            lemma_grown_reflexive(env, known, s1);
            lemma_chain(env, known, s1, s1, sequence, checks1, indices.push(id), rest);
            if let Some((t, Ok(chain))) = chain_run(
                env,
                s1,
                sequence,
                checks1,
                indices.push(id),
                rest,
            ) {
                assert(holds(t.code.writer.constants, s1.code.writer.constants)) by {
                    reveal(grown);
                }
                assert(chain.indices[indices.len() as int] == id);
                assert(is_index_of(env, s1, env.fun.expression(expr), id));
                assert(is_index_of(env, t, env.fun.expression(expr), id));
                assert forall|depth: nat|
                    depth < chain_length(env, expr, limit) implies is_index_of(
                    env,
                    t,
                    #[trigger] chain_access(env, expr, depth),
                    chain.indices[indices.len() as int + depth],
                ) by {
                    if depth > 0 {
                        let deeper = (depth - 1) as nat;
                        assert(is_index_of(
                            env,
                            t,
                            chain_access(env, sequence, deeper),
                            chain.indices[indices.push(id).len() as int + deeper],
                        ));
                    }
                }
            }
        }
    }
}

/// The indices of the access that a chain is gathered into are those of the
/// chain's accesses, in order from the variable on.
pub proof fn law_indices_are_in_order(
    env: Env,
    s: State,
    expr: ExprHandle,
    t: State,
    pointer: Pointer,
    depth: nat,
)
    requires
        pointer_run(env, s, expr) == Some((t, Ok::<Pointer, Error>(pointer))),
        depth < chain_length(env, expr, env.fun.expressions@.len()),
    ensures
        ({
            let access = match pointer {
                Pointer::Ready { .. } => t.block.body.last(),
                Pointer::Conditional { access, .. } => access,
            };
            is_index_of(
                env,
                t,
                chain_access(env, expr, depth),
                access.operands[chain_length(env, expr, env.fun.expressions@.len()) - depth],
            )
        }),
{
    broadcast use group_steps;

    reveal(pointer_run);
    reveal(chain_end);
    let limit = env.fun.expressions@.len();
    lemma_grown_reflexive(env, Set::empty(), s);
    if let Some(ty) = env.lookup(expr) {
        if let Some((s1, Ok(_))) = s.type_id(env, ty) {
            lemma_chain_indices(env, Set::empty(), s, s1, expr, None, Seq::empty(), limit);
            if let Some((s2, Ok(chain))) = chain_run(env, s1, expr, None, Seq::empty(), limit) {
                let empty = Seq::<Word>::empty();
                assert(is_index_of(
                    env,
                    s2,
                    chain_access(env, expr, depth),
                    chain.indices[empty.len() as int + depth],
                ));
            }
        }
    }
}

} // verus!
