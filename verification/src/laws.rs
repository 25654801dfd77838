//! What holds of the generated code as a whole.

use spirv::Word;
use vstd::prelude::*;
use crate::block::{block_run, compound_run, plain_run, statements_run, LoopContext};
use crate::context::{intermediate, Code, Env, State};
use crate::declarations::{declared, is_lack, is_missing, scalar_of};
use crate::entry_point::{flip_run, member_store_run, results_run, Output};
use crate::expression::{
    access_index_value_run, access_value_run, binary_run, cache_run, load_run, value_run,
};
use crate::flow::{lemma_grown_reflexive, lemma_statements};
use crate::function::{Blk, ResultMember};
use crate::growth::{
    begins_with, block_mentions, code_defs, ended, grown_code, group_steps, holds, labelled,
    lemma_writer_type_id, same, span, state_defs, writer_grown,
};
use crate::image::{
    components_run, coordinate_scalar, coordinate_type, coordinates_run, extend_run, layer_run,
};
use crate::index::{guard_run, unguard};
use crate::instruction::Inst;
use crate::ir::{
    BinaryOperator, Bytes, ExprHandle, Expression, ScalarKind, ScalarValue, Statement, TypeInner,
    VectorSize,
};
use crate::pointer::{pointer_run, Pointer};
use crate::run::Error;
use crate::statement::{emit_run, store_run};
use crate::steps::{
    is_operation, lemma_access_index_value, lemma_access_value, lemma_value,
};
use crate::types::{value_type, LookupType};
use crate::writer::{WriterSettings, WriterState};

verus! {

/// A type keeps the id that it was given: to ask for it again later gives the
/// same id, and declares nothing.
pub proof fn law_types_are_shared(
    strict: bool,
    w: WriterState,
    ty: LookupType,
    id: Word,
    after: WriterState,
    later: WriterState,
)
    requires
        w.type_id(strict, ty) == Some((after, Ok::<Word, Error>(id))),
        writer_grown(strict, after, later),
    ensures
        later.type_id(strict, ty) == Some((later, Ok::<Word, Error>(id))),
{
    assert(after.types.contains_key(ty) && after.types[ty] == id);
}

/// A constant keeps the id that it was given: to ask for it again later gives
/// the same id, and declares nothing.
pub proof fn law_constants_are_shared(
    strict: bool,
    w: WriterState,
    value: ScalarValue,
    width: Bytes,
    id: Word,
    after: WriterState,
    later: WriterState,
)
    requires
        w.constant_id(strict, value, width) == Some((after, Ok::<Word, Error>(id))),
        writer_grown(strict, after, later),
    ensures
        later.constant_id(strict, value, width) == Some((later, Ok::<Word, Error>(id))),
{
    assert(after.constants.contains_key((value, width)) && after.constants[(value, width)] == id);
}

/// The labels that lead out of a list of statements.
pub open spec fn ways_out(exit: Option<Word>, loop_context: LoopContext) -> Set<Word> {
    Set::new(
        |label: Word|
            exit == Some(label) || loop_context.break_id == Some(label)
                || loop_context.continuing_id == Some(label),
    )
}

/// Generating blocks takes nothing back, whether it succeeds or fails: ids,
/// types, constants, declarations, capabilities and blocks that were there
/// before are there afterwards. A strict module takes on no capabilities.
pub proof fn law_block_adds_only(
    env: Env,
    code: Code,
    label_id: Word,
    statements: Seq<Statement>,
    exit: Option<Word>,
    loop_context: LoopContext,
)
    ensures
        match block_run(env, code, label_id, statements, exit, loop_context) {
            Some((after, _)) => {
                &&& writer_grown(env.strict(), code.writer, after.writer)
                &&& begins_with(after.blocks, code.blocks)
                &&& after.cached.len() == code.cached.len()
            },
            None => true,
        },
{
    let s = code.begin(label_id);
    let known = ways_out(exit, loop_context);
    lemma_grown_reflexive(env, known, s);
    lemma_statements(env, known, s, s, statements, 0, exit, loop_context);
    reveal(grown_code);
}

/// Generating blocks declares all types and constants that it takes as what they
/// are: if those that were there before are so declared, all are afterwards.
pub proof fn law_all_is_declared(
    env: Env,
    code: Code,
    label_id: Word,
    statements: Seq<Statement>,
    exit: Option<Word>,
    loop_context: LoopContext,
)
    requires
        declared(code.writer.types, code.writer.constants, code.writer.declarations),
    ensures
        match block_run(env, code, label_id, statements, exit, loop_context) {
            Some((after, _)) => declared(
                after.writer.types,
                after.writer.constants,
                after.writer.declarations,
            ),
            None => true,
        },
{
    let s = code.begin(label_id);
    let known = ways_out(exit, loop_context);
    lemma_grown_reflexive(env, known, s);
    lemma_statements(env, known, s, s, statements, 0, exit, loop_context);
    reveal(grown_code);
}

/// The first block that is generated has the label that was asked for.
pub proof fn law_first_block_has_label(
    env: Env,
    code: Code,
    label_id: Word,
    statements: Seq<Statement>,
    exit: Option<Word>,
    loop_context: LoopContext,
)
    ensures
        match block_run(env, code, label_id, statements, exit, loop_context) {
            Some((after, Ok(_))) => {
                &&& code.blocks.len() < after.blocks.len()
                &&& after.blocks[code.blocks.len() as int].label == label_id
            },
            _ => true,
        },
{
    let s = code.begin(label_id);
    let known = ways_out(exit, loop_context);
    lemma_grown_reflexive(env, known, s);
    lemma_statements(env, known, s, s, statements, 0, exit, loop_context);
    reveal(grown_code);
}

/// Every block that is generated is complete: it ends with a termination
/// instruction and holds no other, and where control goes several ways, the
/// block where they meet is named first.
pub proof fn law_blocks_are_complete(
    env: Env,
    code: Code,
    label_id: Word,
    statements: Seq<Statement>,
    exit: Option<Word>,
    loop_context: LoopContext,
)
    ensures
        match block_run(env, code, label_id, statements, exit, loop_context) {
            Some((after, Ok(_))) => forall|i: int|
                code.blocks.len() <= i < after.blocks.len() ==> ended(#[trigger] after.blocks[i]),
            _ => true,
        },
{
    let s = code.begin(label_id);
    let known = ways_out(exit, loop_context);
    lemma_grown_reflexive(env, known, s);
    lemma_statements(env, known, s, s, statements, 0, exit, loop_context);
    reveal(grown_code);
}

/// An entry point stores its result instead of returning it: no block of it
/// ends with the return of a value.
pub proof fn law_entry_points_return_no_value(
    env: Env,
    code: Code,
    label_id: Word,
    statements: Seq<Statement>,
    exit: Option<Word>,
    loop_context: LoopContext,
)
    requires
        env.function.entry_point is Some,
    ensures
        match block_run(env, code, label_id, statements, exit, loop_context) {
            Some((after, Ok(_))) => forall|i: int|
                code.blocks.len() <= i < after.blocks.len() ==> (
                #[trigger] after.blocks[i]).body.last().op != spirv::Op::ReturnValue,
            _ => true,
        },
{
    let s = code.begin(label_id);
    let known = ways_out(exit, loop_context);
    lemma_grown_reflexive(env, known, s);
    lemma_statements(env, known, s, s, statements, 0, exit, loop_context);
    reveal(grown_code);
}

/// Control stays in the blocks that are generated, or takes one of the ways
/// out that were given: every label that a new block names is the label of a
/// new block, the exit, or where a break or a continue leads.
pub proof fn law_jumps_lead_somewhere(
    env: Env,
    code: Code,
    label_id: Word,
    statements: Seq<Statement>,
    exit: Option<Word>,
    loop_context: LoopContext,
)
    ensures
        match block_run(env, code, label_id, statements, exit, loop_context) {
            Some((after, Ok(_))) => forall|i: int, label: Word|
                code.blocks.len() <= i < after.blocks.len() && #[trigger] block_mentions(
                    after.blocks[i],
                    label,
                ) ==> labelled(after.blocks, code.blocks.len() as int, label) || ways_out(
                    exit,
                    loop_context,
                ).contains(label),
            _ => true,
        },
{
    let s = code.begin(label_id);
    let known = ways_out(exit, loop_context);
    lemma_grown_reflexive(env, known, s);
    lemma_statements(env, known, s, s, statements, 0, exit, loop_context);
    reveal(grown_code);
}

/// Whether every id that is defined was handed out, and is defined once.
pub open spec fn ids_are_unique(code: Code) -> bool {
    forall|id: Word| #[trigger]
        code_defs(code, id) <= 1 && (code_defs(code, id) == 1 ==> id <= code.id())
}

/// Every id is defined once at most: generating blocks under a label that was
/// handed out and is not in use keeps it so, whether it succeeds or fails.
pub proof fn law_ids_stay_unique(
    env: Env,
    code: Code,
    label_id: Word,
    statements: Seq<Statement>,
    exit: Option<Word>,
    loop_context: LoopContext,
)
    requires
        ids_are_unique(code),
        label_id <= code.id(),
        code_defs(code, label_id) == 0,
    ensures
        match block_run(env, code, label_id, statements, exit, loop_context) {
            Some((after, _)) => ids_are_unique(after),
            None => true,
        },
{
    let s = code.begin(label_id);
    let known = ways_out(exit, loop_context);
    lemma_grown_reflexive(env, known, s);
    lemma_statements(env, known, s, s, statements, 0, exit, loop_context);
    if let Some((after, _)) = block_run(env, code, label_id, statements, exit, loop_context) {
        assert forall|id: Word| #[trigger]
            code_defs(after, id) <= 1 && (code_defs(after, id) == 1 ==> id <= after.id()) by {
            assert(code_defs(code, id) <= 1);
            assert(state_defs(s, id) == code_defs(code, id) + same(label_id, id));
        }
    }
}

/// A capability is only found missing where the module is strict and lacks it.
pub proof fn law_missing_capability_is_missing(
    env: Env,
    code: Code,
    label_id: Word,
    statements: Seq<Statement>,
    exit: Option<Word>,
    loop_context: LoopContext,
)
    ensures
        match block_run(env, code, label_id, statements, exit, loop_context) {
            Some((_, Err(Error::MissingCapability(capability)))) => {
                env.strict() && !code.writer.capabilities.contains(capability)
            },
            _ => true,
        },
{
    let s = code.begin(label_id);
    let known = ways_out(exit, loop_context);
    lemma_grown_reflexive(env, known, s);
    lemma_statements(env, known, s, s, statements, 0, exit, loop_context);
}

/// Whether a statement passes control elsewhere for good.
pub open spec fn is_departure(statement: Statement) -> bool {
    statement is Break || statement is Continue || statement is Return || statement is Kill
}

/// Statements after one that passes control elsewhere are left out.
pub proof fn law_unreachable_statements_are_dropped(
    env: Env,
    s: State,
    statements: Seq<Statement>,
    index: nat,
    departure: nat,
    exit: Option<Word>,
    loop_context: LoopContext,
)
    requires
        index <= departure < statements.len(),
        is_departure(statements[departure as int]),
    ensures
        statements_run(env, s, statements, index, exit, loop_context) == statements_run(
            env,
            s,
            statements.take(departure as int + 1),
            index,
            exit,
            loop_context,
        ),
    decreases departure - index,
{
    let kept = statements.take(departure as int + 1);
    assert(kept[index as int] == statements[index as int]);
    if index < departure && !is_departure(statements[index as int]) {
        match statements[index as int] {
            Statement::Block(_)
            | Statement::If { .. }
            | Statement::Switch { .. }
            | Statement::Loop { .. } => {
                if let Some((code, Ok(merge_id))) = compound_run(
                    env,
                    s,
                    statements[index as int],
                    loop_context,
                ) {
                    law_unreachable_statements_are_dropped(
                        env,
                        code.begin(merge_id),
                        statements,
                        index + 1,
                        departure,
                        exit,
                        loop_context,
                    );
                }
            },
            plain => {
                if let Some((s1, Ok(_))) = plain_run(env, s, plain) {
                    law_unreachable_statements_are_dropped(
                        env,
                        s1,
                        statements,
                        index + 1,
                        departure,
                        exit,
                        loop_context,
                    );
                }
            },
        }
    }
}

/// The exit is never taken where a statement passes control elsewhere: it makes
/// no difference what it is.
pub proof fn law_exit_is_not_taken_after_departure(
    env: Env,
    s: State,
    statements: Seq<Statement>,
    index: nat,
    departure: nat,
    exit: Option<Word>,
    other_exit: Option<Word>,
    loop_context: LoopContext,
)
    requires
        index <= departure < statements.len(),
        is_departure(statements[departure as int]),
    ensures
        statements_run(env, s, statements, index, exit, loop_context) == statements_run(
            env,
            s,
            statements,
            index,
            other_exit,
            loop_context,
        ),
    decreases departure - index,
{
    if index < departure && !is_departure(statements[index as int]) {
        match statements[index as int] {
            Statement::Block(_)
            | Statement::If { .. }
            | Statement::Switch { .. }
            | Statement::Loop { .. } => {
                if let Some((code, Ok(merge_id))) = compound_run(
                    env,
                    s,
                    statements[index as int],
                    loop_context,
                ) {
                    law_exit_is_not_taken_after_departure(
                        env,
                        code.begin(merge_id),
                        statements,
                        index + 1,
                        departure,
                        exit,
                        other_exit,
                        loop_context,
                    );
                }
            },
            plain => {
                if let Some((s1, Ok(_))) = plain_run(env, s, plain) {
                    law_exit_is_not_taken_after_departure(
                        env,
                        s1,
                        statements,
                        index + 1,
                        departure,
                        exit,
                        other_exit,
                        loop_context,
                    );
                }
            },
        }
    }
}

/// An access to part of a pointer is put off: nothing is emitted for it, its
/// cached id is zero, and what is built on it is put off in turn. An access to
/// part of a value is not: it has a value of its own afterwards.
pub proof fn law_chain_rule(env: Env, s: State, expr: ExprHandle, base: ExprHandle)
    requires
        match env.fun.expression(expr) {
            Some(Expression::Access { base: b, .. }) => b == base,
            Some(Expression::AccessIndex { base: b, .. }) => b == base,
            _ => false,
        },
    ensures
        match cache_run(env, s, expr) {
            Some((t, Ok(_))) => {
                &&& intermediate(env, t.code, expr) == intermediate(env, s.code, base)
                &&& intermediate(env, s.code, base) == Some(true) ==> {
                    &&& t.block == s.block
                    &&& t.code.blocks == s.code.blocks
                    &&& t.code.cached == s.code.cached.update(expr.0 as int, 0)
                }
            },
            _ => true,
        },
{
    broadcast use {group_steps, lemma_access_value, lemma_access_index_value};

    reveal(cache_run);
    reveal(value_run);
    reveal(access_value_run);
    reveal(access_index_value_run);
    lemma_grown_reflexive(env, Set::empty(), s);
}

/// To give an expression a value leaves the values of the others as they are.
pub proof fn law_values_are_kept(env: Env, s: State, expr: ExprHandle, other: ExprHandle)
    requires
        other != expr,
    ensures
        match cache_run(env, s, expr) {
            Some((t, _)) => t.operand(other) == s.operand(other),
            None => true,
        },
{
    broadcast use {group_steps, lemma_value};

    reveal(cache_run);
    lemma_grown_reflexive(env, Set::empty(), s);
}

/// To evaluate a range of expressions leaves the values of the others as they
/// are.
pub proof fn law_emit_is_local(env: Env, s: State, start: u32, end: u32, other: ExprHandle)
    requires
        other.0 < start || end <= other.0,
    ensures
        match emit_run(env, s, start, end) {
            Some((t, _)) => t.operand(other) == s.operand(other),
            None => true,
        },
    decreases end - start,
{
    if start < end {
        law_values_are_kept(env, s, ExprHandle(start), other);
        if let Some((s1, Ok(_))) = cache_run(env, s, ExprHandle(start)) {
            law_emit_is_local(env, s1, (start + 1) as u32, end, other);
        }
    }
}

/// The value of an operation has a fresh id, which is defined once.
pub proof fn law_operation_is_defined_once(env: Env, s: State, expr: ExprHandle)
    requires
        is_operation(env, expr),
        forall|id: Word| id > s.id() ==> #[trigger] state_defs(s, id) == 0,
    ensures
        match cache_run(env, s, expr) {
            Some((t, Ok(_))) => match t.operand(expr) {
                Some(id) => s.id() < id && id <= t.id() && state_defs(t, id) == 1,
                None => false,
            },
            _ => true,
        },
{
    broadcast use {group_steps, lemma_value};

    reveal(cache_run);
    lemma_grown_reflexive(env, Set::empty(), s);
    if let Some(ty) = env.lookup(expr) {
        if let Some((s1, Ok(type_id))) = s.type_id(env, ty) {
            if let Some((s2, Ok(id))) = value_run(env, s1, type_id, expr) {
                assert(state_defs(s2, id) <= state_defs(s1, id) + span(id, s1.id(), s2.id()));
                assert(state_defs(s1, id) <= state_defs(s, id) + span(id, s.id(), s1.id()));
                if let Some(s3) = s2.cache(expr, id) {
                    assert(state_defs(s3, id) == state_defs(s2, id));
                }
            }
        }
    }
}

/// A scalar times a vector is the vector times the scalar: if both products are
/// evaluated, one after the other, they take the same instruction, but for the
/// id of the result, and for its type where the products differ in that. The
/// first product is not an operand of either.
pub proof fn law_scalar_times_vector_commutes(
    env: Env,
    s: State,
    scalar: ExprHandle,
    vector: ExprHandle,
    product: ExprHandle,
    swapped: ExprHandle,
    s1: State,
    s2: State,
)
    requires
        env.inner(scalar) matches Some(TypeInner::Scalar { .. }),
        env.inner(vector) matches Some(TypeInner::Vector { .. }),
        env.fun.expression(product) == Some(
            Expression::Binary { op: BinaryOperator::Multiply, left: scalar, right: vector },
        ),
        env.fun.expression(swapped) == Some(
            Expression::Binary { op: BinaryOperator::Multiply, left: vector, right: scalar },
        ),
        product != scalar,
        product != vector,
        cache_run(env, s, product) == Some((s1, Ok::<(), Error>(()))),
        cache_run(env, s1, swapped) == Some((s2, Ok::<(), Error>(()))),
    ensures
        ({
            let first = s1.block.body.last();
            let second = s2.block.body.last();
            &&& s1.block == s.block.push(first)
            &&& s2.block == s1.block.push(second)
            &&& first.op == spirv::Op::VectorTimesScalar
            &&& first.operands == seq![s.operand(vector).unwrap(), s.operand(scalar).unwrap()]
            &&& first.result_id == s1.operand(product)
            &&& second.result_id == s2.operand(swapped)
            &&& second == (Inst {
                type_id: second.type_id,
                result_id: second.result_id,
                ..first
            })
            &&& env.lookup(product) == env.lookup(swapped) ==> second.type_id == first.type_id
        }),
{
    reveal(cache_run);
    reveal(value_run);
    reveal(binary_run);
}

/// Texture coordinates without an array index are what they are.
pub proof fn law_coordinates_without_index(env: Env, s: State, coordinates: ExprHandle, id: Word)
    requires
        s.operand(coordinates) == Some(id),
    ensures
        coordinates_run(env, s, coordinates, None) == Some((s, Ok::<Word, Error>(id))),
{
    reveal(coordinates_run);
}

/// What taking a vector apart emits.
pub proof fn lemma_components_emitted(s: State, type_id: Word, vector: Word, count: nat)
    ensures
        match components_run(s, type_id, vector, count) {
            Some(t) => {
                &&& t.id() == s.id() + count
                &&& t.code.cached == s.code.cached
                &&& t.code.blocks == s.code.blocks
                &&& t.code.writer.types == s.code.writer.types
                &&& t.block == (Blk {
                    body: s.block.body + Seq::new(
                        count,
                        |i: int|
                            Inst::composite_extract(
                                type_id,
                                (s.id() + 1 + i) as Word,
                                vector,
                                i as Word,
                            ),
                    ),
                    ..s.block
                })
            },
            None => true,
        },
    decreases count,
{
    if count > 0 {
        lemma_components_emitted(s, type_id, vector, (count - 1) as nat);
    }
    if let Some(t) = components_run(s, type_id, vector, count) {
        assert(t.block.body =~= s.block.body + Seq::new(
            count,
            |i: int|
                Inst::composite_extract(type_id, (s.id() + 1 + i) as Word, vector, i as Word),
        ));
    }
}

/// How many components coordinates have.
pub open spec fn component_count(inner: TypeInner) -> nat {
    match inner {
        TypeInner::Vector { size, .. } => size.count() as nat,
        _ => 1,
    }
}

/// The size of a vector with one component more than coordinates have.
pub open spec fn extended_size(inner: TypeInner) -> VectorSize {
    match inner {
        TypeInner::Vector { size: VectorSize::Bi, .. } => VectorSize::Tri,
        TypeInner::Vector { .. } => VectorSize::Quad,
        _ => VectorSize::Bi,
    }
}

/// How many instructions it takes to turn a 32-bit unsigned integer into a
/// number of another kind and width.
pub open spec fn conversion_count(kind: ScalarKind, width: Bytes) -> nat {
    match (kind, width) {
        (ScalarKind::Uint, 4) => 0,
        (ScalarKind::Sint, 4) => 1,
        (ScalarKind::Sint, _) => 2,
        _ => 1,
    }
}

/// Whether a list of instructions turns the 32-bit unsigned integer `from` into
/// `to`, a number of some kind and width: none is needed where that is the same
/// type; a signed integer of the same width has the same bits; wider and
/// narrower integers are converted, as unsigned ones; and so are floating-point
/// numbers.
pub open spec fn converts(
    w: WriterState,
    insts: Seq<Inst>,
    kind: ScalarKind,
    width: Bytes,
    from: Word,
    to: Word,
) -> bool {
    let type_id = w.types[value_type(None, kind, width)];
    let unsigned = value_type(None, ScalarKind::Uint, width);
    match (kind, width) {
        (ScalarKind::Uint, 4) => to == from,
        (ScalarKind::Uint, _) => insts[0] == Inst::unary(spirv::Op::UConvert, type_id, to, from),
        (ScalarKind::Sint, 4) => insts[0] == Inst::unary(spirv::Op::Bitcast, type_id, to, from),
        (ScalarKind::Sint, _) => {
            let middle = insts[0].result_id.unwrap();
            &&& w.types.contains_key(unsigned)
            &&& insts[0] == Inst::unary(spirv::Op::UConvert, w.types[unsigned], middle, from)
            &&& insts[1] == Inst::unary(spirv::Op::Bitcast, type_id, to, middle)
        },
        (ScalarKind::Float, _) => {
            insts[0] == Inst::unary(spirv::Op::ConvertUToF, type_id, to, from)
        },
        (ScalarKind::Bool, _) => false,
    }
}

/// Types keep their ids while a type is asked for, and that type has the id
/// that is given.
pub proof fn lemma_type_found(env: Env, s: State, ty: LookupType)
    ensures
        match s.type_id(env, ty) {
            Some((t, result)) => {
                &&& holds(t.code.writer.types, s.code.writer.types)
                &&& result matches Ok(id) ==> t.code.writer.types.contains_key(ty)
                    && t.code.writer.types[ty] == id
            },
            None => true,
        },
{
    lemma_writer_type_id(env.strict(), s.code.writer, s.code.writer, ty);
}

/// What converting an array index emits.
proof fn lemma_layer_emitted(
    env: Env,
    s: State,
    type_id: Word,
    kind: ScalarKind,
    width: Bytes,
    index_id: Word,
)
    requires
        s.code.writer.types.contains_key(value_type(None, kind, width)),
        s.code.writer.types[value_type(None, kind, width)] == type_id,
    ensures
        match layer_run(env, s, type_id, kind, width, index_id) {
            Some((t, Ok(id))) => {
                let insts = t.block.body.skip(s.block.body.len() as int);
                &&& holds(t.code.writer.types, s.code.writer.types)
                &&& begins_with(t.block.body, s.block.body)
                &&& insts.len() == conversion_count(kind, width)
                &&& converts(t.code.writer, insts, kind, width, index_id, id)
            },
            _ => true,
        },
{
    reveal(layer_run);
    lemma_type_found(env, s, value_type(None, ScalarKind::Uint, width));
}

/// Texture coordinates with an array index are a new vector: the coordinates,
/// and after them the array index. All components have the type that those of
/// the coordinates have (that of 32-bit floating-point values where those are
/// booleans), and the array index is converted to it.
pub proof fn law_coordinates_with_index(
    env: Env,
    s: State,
    coordinates: ExprHandle,
    array_index: ExprHandle,
    kind: ScalarKind,
    width: Bytes,
    t: State,
    result: Word,
)
    requires
        coordinates_run(env, s, coordinates, Some(array_index)) == Some(
            (t, Ok::<Word, Error>(result)),
        ),
        coordinate_scalar(env.inner(coordinates).unwrap()) == Some((kind, width)),
    ensures
        ({
            let inner = env.inner(coordinates).unwrap();
            let count = component_count(inner) as int;
            let types = t.code.writer.types;
            let component_ty = value_type(None, kind, width);
            let vector_ty = value_type(Some(extended_size(inner)), kind, width);
            let last = t.block.body.len() - 1;
            let vector = t.block.body[last];
            let first = last - conversion_count(kind, width);
            &&& types.contains_key(component_ty) && types.contains_key(vector_ty)
            &&& extended_size(inner).count() == count + 1
            &&& vector.op == spirv::Op::CompositeConstruct
            &&& vector.type_id == Some(types[vector_ty])
            &&& vector.result_id == Some(result)
            &&& vector.operands.len() == count + 1
            &&& converts(
                t.code.writer,
                t.block.body.subrange(first, last),
                kind,
                width,
                s.operand(array_index).unwrap(),
                vector.operands[count],
            )
            &&& inner is Vector || inner is Scalar
            &&& inner is Scalar ==> {
                &&& first == s.block.body.len()
                &&& s.operand(coordinates) == Some(vector.operands[0])
            }
            &&& inner is Vector ==> {
                &&& first == s.block.body.len() + count
                &&& forall|i: int|
                    0 <= i < count ==> #[trigger] t.block.body[s.block.body.len() + i]
                        == Inst::composite_extract(
                        types[component_ty],
                        vector.operands[i],
                        s.operand(coordinates).unwrap(),
                        i as Word,
                    )
            }
        }),
{
    reveal(coordinates_run);
    reveal(extend_run);
    let id = s.operand(coordinates).unwrap();
    let inner = env.inner(coordinates).unwrap();
    let index_id = s.operand(array_index).unwrap();
    let vector_ty = value_type(Some(extended_size(inner)), kind, width);
    lemma_type_found(env, s, coordinate_type(inner));
    if let Some((s1, Ok(type_id))) = s.type_id(env, coordinate_type(inner)) {
        let s2 = match inner {
            TypeInner::Vector { size, .. } => {
                lemma_components_emitted(s1, type_id, id, size.count() as nat);
                components_run(s1, type_id, id, size.count() as nat).unwrap()
            },
            _ => s1,
        };
        lemma_layer_emitted(env, s2, type_id, kind, width, index_id);
        if let Some((s3, Ok(_))) = layer_run(env, s2, type_id, kind, width, index_id) {
            lemma_type_found(env, s3, vector_ty);
            assert(s3.block.body.skip(s2.block.body.len() as int) =~= t.block.body.subrange(
                s2.block.body.len() as int,
                t.block.body.len() - 1,
            ));
        }
    }
}

/// Asking for a type fails only for want of a capability that its scalars take.
pub proof fn lemma_type_error(w: WriterState, strict: bool, ty: LookupType)
    ensures
        match w.type_id(strict, ty) {
            Some((_, Err(error))) => is_lack(scalar_of(ty), error) && is_missing(
                w,
                strict,
                error,
            ),
            _ => true,
        },
    decreases ty.depth(),
{
    if let (LookupType::Local(local), Some(w1)) = (ty, w.fresh()) {
        if let Some(referenced) = local.referenced() {
            lemma_type_error(w1, strict, referenced);
        }
    }
}

/// Which coordinates cannot be extended by an array index: those that are
/// neither scalars nor vectors, for which nothing is emitted, and vectors of
/// four components. The type of a component can be declared.
pub proof fn law_coordinates_refused(
    env: Env,
    s: State,
    coordinates: ExprHandle,
    array_index: ExprHandle,
    inner: TypeInner,
    t: State,
    result: Result<Word, Error>,
)
    requires
        env.inner(coordinates) == Some(inner),
        s.type_id(env, coordinate_type(inner)) matches Some((_, Ok(_))),
        coordinates_run(env, s, coordinates, Some(array_index)) == Some((t, result)),
    ensures
        result == Err::<Word, Error>(Error::Validation("coordinate type")) <==> !(inner is Scalar)
            && !(inner is Vector),
        result == Err::<Word, Error>(Error::Validation("extending vec4 coordinate")) <==> (
        inner matches TypeInner::Vector { size: VectorSize::Quad, .. }),
        result == Err::<Word, Error>(Error::Validation("coordinate type")) ==> t.block == s.block,
{
    reveal(coordinates_run);
    reveal(extend_run);
    reveal(layer_run);
    assert("coordinate type"@ != "extending vec4 coordinate"@) by {
        reveal_strlit("coordinate type");
        reveal_strlit("extending vec4 coordinate");
        assert("coordinate type"@.len() != "extending vec4 coordinate"@.len());
    }
    assert forall|w: WriterState, ty: LookupType| match #[trigger] w.type_id(env.strict(), ty) {
        Some((_, Err(error))) => error is MissingCapability,
        _ => true,
    } by {
        lemma_type_error(w, env.strict(), ty);
    }
}

/// A conditional store is skipped where its condition does not hold: control
/// goes straight to the block where both ways meet, which stores nothing.
pub proof fn law_conditional_store_is_skipped(
    env: Env,
    s: State,
    pointer: ExprHandle,
    value: ExprHandle,
    before: State,
    condition: Word,
    access: Inst,
    t: State,
)
    requires
        pointer_run(env, s, pointer) == Some(
            (before, Ok::<Pointer, Error>(Pointer::Conditional { condition, access })),
        ),
        store_run(env, s, pointer, value) == Some((t, Ok::<(), Error>(()))),
    ensures
        ({
            let header = before.code.blocks.len() as int;
            let merge = t.block.label;
            let in_bounds = t.code.blocks[header + 1].label;
            &&& t.code.blocks.len() == header + 2
            &&& t.code.blocks[header] == before.block.push(Inst::selection_merge(merge, 0)).push(
                Inst::branch_conditional(condition, in_bounds, merge),
            )
            &&& t.code.blocks[header + 1] == Blk::start(in_bounds).push(access).push(
                Inst::store(access.result_id.unwrap(), s.operand(value).unwrap()),
            ).push(Inst::branch(merge))
            &&& t.block == Blk::start(merge)
            &&& merge != in_bounds
        }),
{
    reveal(store_run);
}

/// A conditional load gives zero where its condition does not hold.
pub proof fn law_conditional_load_gives_zero(
    env: Env,
    s: State,
    type_id: Word,
    pointer: ExprHandle,
    before: State,
    condition: Word,
    access: Inst,
    t: State,
    result: Word,
)
    requires
        pointer_run(env, s, pointer) == Some(
            (before, Ok::<Pointer, Error>(Pointer::Conditional { condition, access })),
        ),
        load_run(env, s, type_id, pointer) == Some((t, Ok::<Word, Error>(result))),
    ensures
        ({
            let header = before.code.blocks.len() as int;
            let merge = t.block.label;
            let in_bounds = t.code.blocks[header + 1].label;
            let zero = (before.id() + 1) as Word;
            let loaded = t.code.blocks[header + 1].body[1].result_id.unwrap();
            &&& t.code.writer.declarations.last() == Inst::constant_null(type_id, zero)
            &&& t.code.blocks.len() == header + 2
            &&& t.code.blocks[header] == before.block.push(Inst::selection_merge(merge, 0)).push(
                Inst::branch_conditional(condition, in_bounds, merge),
            )
            &&& t.code.blocks[header + 1] == Blk::start(in_bounds).push(access).push(
                Inst::load(type_id, loaded, access.result_id.unwrap()),
            ).push(Inst::branch(merge))
            &&& t.block == Blk::start(merge).push(
                Inst::phi(type_id, result, zero, before.block.label, loaded, in_bounds),
            )
        }),
{
    reveal(load_run);
    reveal(guard_run);
    reveal(unguard);
}

/// Whether a list of instructions stores to a variable, from `body[from]` on.
pub open spec fn stores_to(body: Seq<Inst>, from: int, variable: Word) -> bool {
    exists|i: int|
        from <= i < body.len() && (#[trigger] body[i]).op == spirv::Op::Store
            && body[i].operands[0] == variable
}

/// What adjusting the coordinate space leaves in place.
proof fn lemma_flip_adds(strict: bool, o: Output, variable: Word)
    ensures
        match flip_run(strict, o, variable) {
            Some((o1, _)) => begins_with(o1.body, o.body),
            None => true,
        },
{
    reveal(flip_run);
}

/// What storing to the output variables leaves in place.
proof fn lemma_results_add(
    settings: WriterSettings,
    o: Output,
    value_id: Word,
    bound: bool,
    members: Seq<ResultMember>,
    index: nat,
)
    ensures
        match results_run(settings, o, value_id, bound, members, index) {
            Some((o1, result)) => {
                &&& begins_with(o1.body, o.body)
                &&& result is Ok ==> forall|i: int|
                    index <= i < members.len() ==> stores_to(
                        o1.body,
                        o.body.len() as int,
                        (#[trigger] members[i]).id,
                    )
            },
            None => true,
        },
    decreases members.len() - index,
{
    if index < members.len() {
        reveal(member_store_run);
        let member = members[index as int];
        let ready = if bound {
            Some((o, value_id))
        } else {
            match o.fresh() {
                Some(o1) => Some(
                    (
                        o1.push(
                            Inst::composite_extract(
                                member.type_id,
                                o1.id(),
                                value_id,
                                index as Word,
                            ),
                        ),
                        o1.id(),
                    ),
                ),
                None => None,
            }
        };
        if let Some((o1, id)) = ready {
            let stored = o1.push(Inst::store(member.id, id));
            let at = o1.body.len() as int;
            assert(stored.body[at] == Inst::store(member.id, id));
            lemma_flip_adds(settings.strict_capabilities, stored, member.id);
            if let Some((o2, Ok(_))) = member_store_run(settings, o1, member, id) {
                assert(begins_with(o2.body, stored.body));
                lemma_results_add(settings, o2, value_id, bound, members, index + 1);
                if let Some((o3, Ok(_))) = results_run(
                    settings,
                    o2,
                    value_id,
                    bound,
                    members,
                    index + 1,
                ) {
                    assert(o3.body[at] == stored.body[at]);
                    assert forall|i: int| index <= i < members.len() implies stores_to(
                        o3.body,
                        o.body.len() as int,
                        (#[trigger] members[i]).id,
                    ) by {
                        if i == index {
                            assert(o3.body[at].op == spirv::Op::Store);
                        } else {
                            assert(stores_to(o3.body, o2.body.len() as int, members[i].id));
                        }
                    }
                }
            }
        }
    }
}

/// The return from an entry point stores to every output variable, and adds
/// instructions only.
pub proof fn law_outputs_are_stored(
    settings: WriterSettings,
    o: Output,
    value_id: Word,
    bound: bool,
    members: Seq<ResultMember>,
)
    ensures
        match results_run(settings, o, value_id, bound, members, 0) {
            Some((o1, result)) => {
                &&& begins_with(o1.body, o.body)
                &&& result is Ok ==> forall|i: int|
                    0 <= i < members.len() ==> stores_to(
                        o1.body,
                        o.body.len() as int,
                        (#[trigger] members[i]).id,
                    )
            },
            None => true,
        },
{
    lemma_results_add(settings, o, value_id, bound, members, 0);
}

} // verus!
