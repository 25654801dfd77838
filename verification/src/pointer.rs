//! Pointers: chains of accesses that start at a variable.

use spirv::Word;
use vstd::prelude::*;
use crate::context::{BlockContext, Env, State};
use crate::function::Block;
use crate::index::{bounds_check_run, BoundsCheckResult};
use crate::instruction::{Inst, Instruction};
use crate::ir::{ExprHandle, Expression, ScalarValue};
use crate::pointer_laws::{
    is_pointer, is_pointer_error, kept, law_pointer, law_pointer_refused,
};
use crate::run::{Error, Run};
use crate::types::bool_type;

verus! {

broadcast use vstd::std_specs::hash::group_hash_axioms;

/// The result of writing a pointer expression.
#[derive(Debug)]
pub enum ExpressionPointer {
    /// The pointer to the expression's value is available, as the value of the
    /// given id.
    Ready { pointer_id: Word },
    /// The access expression must be conditional on the value of `condition`.
    /// The `access` instruction computes the pointer, and is not emitted yet.
    Conditional { condition: Word, access: Instruction },
}

/// The result of writing a pointer expression.
pub enum Pointer {
    Ready { pointer_id: Word },
    Conditional { condition: Word, access: Inst },
}

impl View for ExpressionPointer {
    type V = Pointer;

    open spec fn view(&self) -> Pointer {
        match *self {
            ExpressionPointer::Ready { pointer_id } => Pointer::Ready { pointer_id },
            ExpressionPointer::Conditional { condition, access } => Pointer::Conditional {
                condition,
                access: access@,
            },
        }
    }
}

/// The view of a result.
pub open spec fn pointer_result(result: Result<ExpressionPointer, Error>) -> Result<
    Pointer,
    Error,
> {
    match result {
        Ok(pointer) => Ok(pointer@),
        Err(error) => Err(error),
    }
}

/// What a chain of accesses comes down to.
#[verifier::ext_equal]
pub struct Chain {
    /// The id of the variable or argument that the chain starts at.
    pub root: Word,
    /// The condition under which all indices are in bounds, if there is any to
    /// be tested.
    pub checks: Option<Word>,
    /// The ids of the indices, the outermost access first.
    pub indices: Seq<Word>,
}

/// Emits what an access with a computed index needs: the bounds check that the
/// policy asks for. The result is the id of the index to use, and the
/// condition of all the checks so far, this one joined to them.
#[verifier::opaque]
pub open spec fn access_run(
    env: Env,
    s: State,
    base: ExprHandle,
    index: ExprHandle,
    checks: Option<Word>,
) -> Run<State, (Word, Option<Word>)> {
    match bounds_check_run(env, s, base, index) {
        Some((s1, Ok(BoundsCheckResult::KnownInBounds(known)))) => match s1.constant_id(
            env,
            ScalarValue::Uint(known as u64),
            4,
        ) {
            Some((s2, Ok(id))) => Some((s2, Ok((id, checks)))),
            Some((s2, Err(error))) => Some((s2, Err(error))),
            None => None,
        },
        Some((s1, Ok(BoundsCheckResult::Computed(id)))) => Some((s1, Ok((id, checks)))),
        Some((s1, Ok(BoundsCheckResult::Conditional(condition)))) => match (
            checks,
            s1.operand(index),
        ) {
            (None, Some(index_id)) => Some((s1, Ok((index_id, Some(condition))))),
            (Some(prior), Some(index_id)) => match s1.fresh() {
                Some(s2) => match s2.type_id(env, bool_type()) {
                    Some((s3, Ok(type_id))) => Some(
                        (
                            s3.push(
                                Inst::binary(
                                    spirv::Op::LogicalAnd,
                                    type_id,
                                    s2.id(),
                                    prior,
                                    condition,
                                ),
                            ),
                            Ok((index_id, Some(s2.id()))),
                        ),
                    ),
                    Some((s3, Err(error))) => Some((s3, Err(error))),
                    None => None,
                },
                None => None,
            },
            _ => None,
        },
        Some((s1, Err(error))) => Some((s1, Err(error))),
        None => None,
    }
}

/// Follows a chain of accesses from the outermost one to the variable or
/// argument that it starts at, and emits the indices and the checks on the
/// way. `checks` and `indices` are what was met before `expr`.
///
/// No chain is longer than the number of expressions: `limit` bounds it.
pub open spec fn chain_run(
    env: Env,
    s: State,
    expr: ExprHandle,
    checks: Option<Word>,
    indices: Seq<Word>,
    limit: nat,
) -> Run<State, Chain>
    decreases limit,
{
    if limit == 0 {
        None
    } else {
        match env.fun.expression(expr) {
            Some(Expression::Access { base, index }) => match access_run(
                env,
                s,
                base,
                index,
                checks,
            ) {
                Some((s1, Ok((id, checks1)))) => chain_run(
                    env,
                    s1,
                    base,
                    checks1,
                    indices.push(id),
                    (limit - 1) as nat,
                ),
                Some((s1, Err(error))) => Some((s1, Err(error))),
                None => None,
            },
            Some(Expression::AccessIndex { base, index }) => match s.index_id(env, index) {
                Some((s1, Ok(id))) => chain_run(
                    env,
                    s1,
                    base,
                    checks,
                    indices.push(id),
                    (limit - 1) as nat,
                ),
                Some((s1, Err(error))) => Some((s1, Err(error))),
                None => None,
            },
            Some(Expression::GlobalVariable(handle)) => if handle.0
                < env.writer.global_variables.len() {
                Some(
                    (
                        s,
                        Ok(
                            Chain {
                                root: env.writer.global_variables[handle.0 as int].id,
                                checks,
                                indices,
                            },
                        ),
                    ),
                )
            } else {
                None
            },
            Some(Expression::LocalVariable(variable)) => if env.function.variables.contains_key(
                variable.0,
            ) {
                Some(
                    (
                        s,
                        Ok(Chain { root: env.function.variables[variable.0], checks, indices }),
                    ),
                )
            } else {
                None
            },
            Some(Expression::FunctionArgument(index)) => match env.function.parameter_id(index) {
                Some(root) => Some((s, Ok(Chain { root, checks, indices }))),
                None => None,
            },
            _ => None,
        }
    }
}

/// Emits the access that a chain comes down to, unless it is conditional. A
/// chain without indices is its variable.
#[verifier::opaque]
pub open spec fn chain_end(s: State, type_id: Word, chain: Chain) -> Run<State, Pointer> {
    if chain.indices.len() == 0 {
        Some((s, Ok(Pointer::Ready { pointer_id: chain.root })))
    } else {
        match s.fresh() {
            Some(s1) => {
                let access = Inst::access_chain(
                    type_id,
                    s1.id(),
                    chain.root,
                    chain.indices.reverse(),
                );
                match chain.checks {
                    Some(condition) => Some(
                        (s1, Ok(Pointer::Conditional { condition, access })),
                    ),
                    None => Some((s1.push(access), Ok(Pointer::Ready { pointer_id: s1.id() }))),
                }
            },
            None => None,
        }
    }
}

/// Emits the pointer that an expression stands for.
#[verifier::opaque]
pub open spec fn pointer_run(env: Env, s: State, expr: ExprHandle) -> Run<State, Pointer> {
    match env.lookup(expr) {
        Some(ty) => match s.type_id(env, ty) {
            Some((s1, Ok(type_id))) => match chain_run(
                env,
                s1,
                expr,
                None,
                Seq::empty(),
                env.fun.expressions@.len(),
            ) {
                Some((s2, Ok(chain))) => chain_end(s2, type_id, chain),
                Some((s2, Err(error))) => Some((s2, Err(error))),
                None => None,
            },
            Some((s1, Err(error))) => Some((s1, Err(error))),
            None => None,
        },
        None => None,
    }
}

/// A list from the end to the beginning.
fn reversed(list: &Vec<Word>) -> (result: Vec<Word>)
    ensures
        result@ == list@.reverse(),
{
    let mut result: Vec<Word> = Vec::new();
    let mut i: usize = list.len();
    while i > 0
        invariant
            i <= list.len(),
            result@.len() == list.len() - i,
            forall|k: int| 0 <= k < result@.len() ==> result@[k] == list@[list.len() - 1 - k],
        decreases i,
    {
        i -= 1;
        result.push(list[i]);
    }
    assert(result@ =~= list@.reverse());
    result
}

impl<'w> BlockContext<'w> {
    /// Emits the bounds check of an access with a computed index.
    fn write_access(
        &mut self,
        base: ExprHandle,
        index: ExprHandle,
        checks: Option<Word>,
        block: &mut Block,
    ) -> (result: Result<(Word, Option<Word>), Error>)
        requires
            access_run(
                old(self).env(),
                old(self).state(*old(block)),
                base,
                index,
                checks,
            ) is Some,
        ensures
            access_run(old(self).env(), old(self).state(*old(block)), base, index, checks)
                == Some((final(self).state(*final(block)), result)),
            final(self).env() == old(self).env(),
    {
        proof {
            reveal(access_run);
        }
        match self.write_bounds_check(base, index, block)? {
            BoundsCheckResult::KnownInBounds(known_index) => {
                // Even if the index is known, `OpAccessChain` requires
                // expression operands, not literals.
                let scalar = ScalarValue::Uint(known_index as u64);
                let id: Word = self.writer.get_constant_scalar(scalar, 4)?;
                Ok((id, checks))
            },
            BoundsCheckResult::Computed(computed_index_id) => Ok((computed_index_id, checks)),
            BoundsCheckResult::Conditional(comparison_id) => {
                // Either way, the index to use is unchanged.
                match checks {
                    Some(prior_checks) => {
                        let combined: Word = self.gen_id();
                        let bool_type_id: Word = self.writer.get_bool_type_id()?;
                        block.push(
                            Instruction::binary(
                                spirv::Op::LogicalAnd,
                                bool_type_id,
                                combined,
                                prior_checks,
                                comparison_id,
                            ),
                        );
                        Ok((self.operand(index), Some(combined)))
                    },
                    // Start a fresh chain of checks.
                    None => Ok((self.operand(index), Some(comparison_id))),
                }
            },
        }
    }

    /// Follows a chain of accesses to the variable or argument that it starts
    /// at.
    ///
    /// Bounds checks are joined with `OpLogicalAnd`, not with branches: this
    /// may compare what need not be compared, but the checks are expected to
    /// succeed almost always, and branches are few that way.
    fn write_chain(
        &mut self,
        expr_handle: ExprHandle,
        block: &mut Block,
    ) -> (result: Result<(Word, Option<Word>, Vec<Word>), Error>)
        requires
            chain_run(
                old(self).env(),
                old(self).state(*old(block)),
                expr_handle,
                None,
                Seq::empty(),
                old(self).env().fun.expressions@.len(),
            ) is Some,
        ensures
            chain_run(
                old(self).env(),
                old(self).state(*old(block)),
                expr_handle,
                None,
                Seq::empty(),
                old(self).env().fun.expressions@.len(),
            ) == Some(
                (
                    final(self).state(*final(block)),
                    match result {
                        Ok((root, checks, indices)) => Ok(
                            Chain { root, checks, indices: indices@ },
                        ),
                        Err(error) => Err(error),
                    },
                ),
            ),
            final(self).env() == old(self).env(),
    {
        let mut expr = expr_handle;
        // The `and` of all the dynamic bounds checks up to this point, if there
        // are any.
        let mut checks: Option<Word> = None;
        let mut indices: Vec<Word> = Vec::new();
        let ghost mut limit: nat = self.env().fun.expressions@.len();
        let ghost env = self.env();
        let ghost whole = chain_run(env, self.state(*block), expr, None, Seq::empty(), limit);
        assert(indices@ =~= Seq::empty());
        loop
            invariant
                whole is Some,
                self.env() == env,
                env == old(self).env(),
                whole == chain_run(
                    env,
                    old(self).state(*old(block)),
                    expr_handle,
                    None,
                    Seq::empty(),
                    env.fun.expressions@.len(),
                ),
                whole == chain_run(env, self.state(*block), expr, checks, indices@, limit),
            decreases limit,
        {
            match &self.ir_function.expressions[expr.0 as usize] {
                Expression::Access { base, index } => {
                    let (index_id, joined) = self.write_access(*base, *index, checks, block)?;
                    checks = joined;
                    indices.push(index_id);
                    expr = *base;
                },
                Expression::AccessIndex { base, index } => {
                    let const_id: Word = self.get_index_constant(*index)?;
                    indices.push(const_id);
                    expr = *base;
                },
                Expression::GlobalVariable(handle) => {
                    let id: Word = self.writer.global_variables[handle.0 as usize].id;
                    return Ok((id, checks, indices));
                },
                Expression::LocalVariable(variable) => {
                    let id: Word = *self.function.variables.get(&variable.0).unwrap();
                    return Ok((id, checks, indices));
                },
                Expression::FunctionArgument(index) => {
                    return Ok((self.function.parameter_id(*index), checks, indices));
                },
                _ => {
                    return vstd::pervasive::unreached();
                },
            }
            proof {
                limit = (limit - 1) as nat;
            }
        }
    }

    /// Builds an `OpAccessChain` instruction for a left-hand-side expression.
    ///
    /// Emits any needed bounds-checking expressions to `block`.
    ///
    /// On success, the return value is an [`ExpressionPointer`] value; see the
    /// documentation for that type.
    pub fn write_expression_pointer(
        &mut self,
        expr_handle: ExprHandle,
        block: &mut Block,
    ) -> (result: Result<ExpressionPointer, Error>)
        requires
            pointer_run(old(self).env(), old(self).state(*old(block)), expr_handle) is Some,
        ensures
            pointer_run(old(self).env(), old(self).state(*old(block)), expr_handle) == Some(
                (final(self).state(*final(block)), pointer_result(result)),
            ),
            final(self).env() == old(self).env(),
            match pointer_result(result) {
                Ok(pointer) => kept(
                    old(self).state(*old(block)),
                    final(self).state(*final(block)),
                ) && is_pointer(
                    old(self).env(),
                    old(self).state(*old(block)),
                    final(self).state(*final(block)),
                    expr_handle,
                    pointer,
                ),
                Err(error) => is_pointer_error(
                    old(self).env(),
                    old(self).state(*old(block)),
                    expr_handle,
                    error,
                ),
            },
    {
        proof {
            let s = self.state(*block);
            match pointer_run(self.env(), s, expr_handle).unwrap() {
                (t, Ok(pointer)) => law_pointer(self.env(), s, expr_handle, t, pointer),
                (t, Err(error)) => law_pointer_refused(self.env(), s, expr_handle, t, error),
            }
            reveal(chain_end);
            reveal(pointer_run);
        }
        let result_type_id: Word = self.get_expression_type_id(
            self.fun_info.types[expr_handle.0 as usize],
        )?;
        let (root_id, checks, indices) = self.write_chain(expr_handle, block)?;
        if indices.len() == 0 {
            return Ok(ExpressionPointer::Ready { pointer_id: root_id });
        }
        let pointer_id: Word = self.gen_id();
        let access = Instruction::access_chain(
            result_type_id,
            pointer_id,
            root_id,
            &reversed(&indices),
        );
        // If there are bounds checks, it is left to the caller to generate the
        // branch, the access, the load or store, and the zero value (for
        // loads). Otherwise the access is emitted here, and the caller just
        // gets the id of the pointer.
        match checks {
            Some(condition) => Ok(ExpressionPointer::Conditional { condition, access }),
            None => {
                block.push(access);
                Ok(ExpressionPointer::Ready { pointer_id })
            },
        }
    }
}

} // verus!
