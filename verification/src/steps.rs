//! What the steps of generating expressions and statements keep.

use spirv::Word;
use vstd::prelude::*;
use crate::context::{intermediate, Code, Env, State};
use crate::expression::{
    access_index_value_run, access_value_run, binary_run, cache_run, cast_run, compose_run,
    condition_run, load_run, math_run, one_operand_run, relational_run, select_run, splat_run,
    swizzle_run, unary_run, value_run,
};
use crate::growth::{
    defines_fresh, defs, gives_fresh, grown, group_steps, is_merge, keeps_values, lemma_begin,
    lemma_fork, lemma_terminate, same, sound, span, state_defs, straight,
};
use crate::image::{
    components_run, coordinate_type, coordinates_run, extend_run, first_component_run,
    image_load_run, image_query_run, image_sample_run, layer_run, level_run, plain_query_run,
    query_layers_run, query_level_run, query_size_run, sample_inst_run, sample_type_run,
    sampled_image_type_run, trim_size_run, Sample,
};
use crate::index::{
    array_length_run, bounds_check_run, clamp_run, compare_run, guard_run, index_comparison_run,
    max_index_run, restricted_index_run, sequence_length_run, unguard, vector_access_run, Guard,
};
use crate::instruction::{is_terminator, Inst};
use crate::ir::{
    Barrier, BinaryOperator, Bytes, ExprHandle, Expression, FunctionHandle, ImageClass,
    ImageDimension, ImageQuery, MathFunction, RelationalFunction, SampleLevel, ScalarKind,
    SwizzleComponent, TypeHandle, TypeInner, UnaryOperator, VectorSize,
};
use crate::pointer::{access_run, chain_end, chain_run, pointer_run, Pointer};
use crate::statement::{
    barrier_run, call_run, call_type_run, emit_run, image_store_run, store_run,
};

verus! {

broadcast use group_steps;

/// What emitting the length of an array keeps.
pub broadcast proof fn lemma_array_length(
    env: Env,
    known: Set<Word>,
    base: State,
    s: State,
    array: ExprHandle,
)
    requires
        grown(env, known, base, s),
    ensures
        #![trigger array_length_run(env, s, array), grown(env, known, base, s)]
        sound(env, known, base, s, array_length_run(env, s, array)),
        keeps_values(s, array_length_run(env, s, array)),
        gives_fresh(s, array_length_run(env, s, array)),
{
    reveal(array_length_run);
}

/// What emitting a length keeps.
pub broadcast proof fn lemma_sequence_length(
    env: Env,
    known: Set<Word>,
    base: State,
    s: State,
    sequence: ExprHandle,
)
    requires
        grown(env, known, base, s),
    ensures
        #![trigger sequence_length_run(env, s, sequence), grown(env, known, base, s)]
        sound(env, known, base, s, sequence_length_run(env, s, sequence)),
        keeps_values(s, sequence_length_run(env, s, sequence)),
{
    broadcast use lemma_array_length;

    reveal(sequence_length_run);
}

/// What emitting the greatest valid index keeps.
pub broadcast proof fn lemma_max_index(
    env: Env,
    known: Set<Word>,
    base: State,
    s: State,
    sequence: ExprHandle,
)
    requires
        grown(env, known, base, s),
    ensures
        #![trigger max_index_run(env, s, sequence), grown(env, known, base, s)]
        sound(env, known, base, s, max_index_run(env, s, sequence)),
        keeps_values(s, max_index_run(env, s, sequence)),
{
    broadcast use lemma_sequence_length;

    reveal(max_index_run);
}

/// What emitting the smaller of two values keeps.
pub broadcast proof fn lemma_clamp(
    env: Env,
    known: Set<Word>,
    base: State,
    s: State,
    index_id: Word,
    limit_id: Word,
)
    requires
        grown(env, known, base, s),
    ensures
        #![trigger clamp_run(env, s, index_id, limit_id), grown(env, known, base, s)]
        sound(env, known, base, s, clamp_run(env, s, index_id, limit_id)),
        keeps_values(s, clamp_run(env, s, index_id, limit_id)),
{
    reveal(clamp_run);
}

/// What emitting a comparison keeps.
pub broadcast proof fn lemma_compare(
    env: Env,
    known: Set<Word>,
    base: State,
    s: State,
    index_id: Word,
    length_id: Word,
)
    requires
        grown(env, known, base, s),
    ensures
        #![trigger compare_run(env, s, index_id, length_id), grown(env, known, base, s)]
        sound(env, known, base, s, compare_run(env, s, index_id, length_id)),
        keeps_values(s, compare_run(env, s, index_id, length_id)),
{
    reveal(compare_run);
}

/// What emitting an index that is in bounds keeps.
pub broadcast proof fn lemma_restricted_index(
    env: Env,
    known: Set<Word>,
    base: State,
    s: State,
    sequence: ExprHandle,
    index: ExprHandle,
)
    requires
        grown(env, known, base, s),
    ensures
        #![trigger restricted_index_run(env, s, sequence, index), grown(env, known, base, s)]
        sound(env, known, base, s, restricted_index_run(env, s, sequence, index)),
        keeps_values(s, restricted_index_run(env, s, sequence, index)),
{
    broadcast use {lemma_max_index, lemma_clamp};

    reveal(restricted_index_run);
}

/// What emitting the test of an index keeps.
pub broadcast proof fn lemma_index_comparison(
    env: Env,
    known: Set<Word>,
    base: State,
    s: State,
    sequence: ExprHandle,
    index: ExprHandle,
)
    requires
        grown(env, known, base, s),
    ensures
        #![trigger index_comparison_run(env, s, sequence, index), grown(env, known, base, s)]
        sound(env, known, base, s, index_comparison_run(env, s, sequence, index)),
        keeps_values(s, index_comparison_run(env, s, sequence, index)),
{
    broadcast use {lemma_sequence_length, lemma_compare};

    reveal(index_comparison_run);
}

/// What emitting a bounds check keeps.
pub broadcast proof fn lemma_bounds_check(
    env: Env,
    known: Set<Word>,
    base: State,
    s: State,
    sequence: ExprHandle,
    index: ExprHandle,
)
    requires
        grown(env, known, base, s),
    ensures
        #![trigger bounds_check_run(env, s, sequence, index), grown(env, known, base, s)]
        sound(env, known, base, s, bounds_check_run(env, s, sequence, index)),
        keeps_values(s, bounds_check_run(env, s, sequence, index)),
{
    broadcast use {lemma_restricted_index, lemma_index_comparison};

    reveal(bounds_check_run);
}

/// Where control goes two ways, the block where the ways meet is still to come.
pub broadcast proof fn lemma_guard(
    env: Env,
    known: Set<Word>,
    base: State,
    s: State,
    result_type: Word,
    condition: Word,
)
    requires
        grown(env, known, base, s),
    ensures
        #![trigger guard_run(s, result_type, condition), grown(env, known, base, s)]
        match guard_run(s, result_type, condition) {
            Some((t, guard)) => {
                &&& grown(env, known.insert(guard.merge), base, t)
                &&& s.id() < t.id()
                &&& s.id() < guard.result_id && guard.result_id <= t.id()
                &&& t.code.cached == s.code.cached
                &&& forall|id: Word| #[trigger]
                    state_defs(t, id) + same(guard.result_id, id) + same(guard.merge, id)
                        <= state_defs(s, id) + span(id, s.id(), t.id())
            },
            None => true,
        },
{
    reveal(guard_run);
    if let Some(s1) = s.null(result_type) {
        if let Some(s2) = s1.fresh() {
            if let Some(s3) = s2.fresh() {
                if let Some(s4) = s3.fresh() {
                    let merge = s3.id();
                    let in_bounds = s4.id();
                    lemma_fork(
                        env,
                        known,
                        base,
                        s4,
                        Inst::selection_merge(merge, 0),
                        Inst::branch_conditional(condition, in_bounds, merge),
                        known.insert(merge).insert(in_bounds),
                    );
                    let code = s4.push(Inst::selection_merge(merge, 0)).code.consume(
                        s4.push(Inst::selection_merge(merge, 0)).block,
                        Inst::branch_conditional(condition, in_bounds, merge),
                    );
                    lemma_begin(
                        env,
                        known.insert(merge).insert(in_bounds),
                        base,
                        code,
                        in_bounds,
                        known.insert(merge),
                    );
                }
            }
        }
    }
}

/// The block where two ways meet defines its label and the value.
pub broadcast proof fn lemma_unguard(
    env: Env,
    known: Set<Word>,
    base: State,
    s: State,
    result_type: Word,
    guard: Guard,
    value_id: Word,
)
    requires
        grown(env, known.insert(guard.merge), base, s),
    ensures
        #![trigger unguard(s, result_type, guard, value_id),
            grown(env, known.insert(guard.merge), base, s)]
        grown(env, known, base, unguard(s, result_type, guard, value_id)),
        unguard(s, result_type, guard, value_id).id() == s.id(),
        unguard(s, result_type, guard, value_id).code.cached == s.code.cached,
        forall|id: Word| #[trigger]
            state_defs(unguard(s, result_type, guard, value_id), id) == state_defs(s, id) + same(
                guard.merge,
                id,
            ) + same(guard.result_id, id),
{
    reveal(unguard);
    let allowed = known.insert(guard.merge);
    let code = s.code.consume(s.block, Inst::branch(guard.merge));
    lemma_terminate(env, allowed, base, s, Inst::branch(guard.merge), allowed);
    lemma_begin(env, allowed, base, code, guard.merge, known);
}

/// What emitting an access to a vector keeps.
pub broadcast proof fn lemma_vector_access(
    env: Env,
    known: Set<Word>,
    base: State,
    s: State,
    expr: ExprHandle,
    vector: ExprHandle,
    index: ExprHandle,
)
    requires
        grown(env, known, base, s),
    ensures
        #![trigger vector_access_run(env, s, expr, vector, index), grown(env, known, base, s)]
        sound(env, known, base, s, vector_access_run(env, s, expr, vector, index)),
        keeps_values(s, vector_access_run(env, s, expr, vector, index)),
        gives_fresh(s, vector_access_run(env, s, expr, vector, index)),
{
    broadcast use {lemma_bounds_check, lemma_guard, lemma_unguard};

    reveal(vector_access_run);
}

/// What emitting the index of an access keeps.
pub broadcast proof fn lemma_access(
    env: Env,
    known: Set<Word>,
    base: State,
    s: State,
    sequence: ExprHandle,
    index: ExprHandle,
    checks: Option<Word>,
)
    requires
        grown(env, known, base, s),
    ensures
        #![trigger access_run(env, s, sequence, index, checks), grown(env, known, base, s)]
        sound(env, known, base, s, access_run(env, s, sequence, index, checks)),
        keeps_values(s, access_run(env, s, sequence, index, checks)),
{
    broadcast use lemma_bounds_check;

    reveal(access_run);
}

/// What following a chain of accesses keeps.
pub proof fn lemma_chain(
    env: Env,
    known: Set<Word>,
    base: State,
    s: State,
    expr: ExprHandle,
    checks: Option<Word>,
    indices: Seq<Word>,
    limit: nat,
)
    requires
        grown(env, known, base, s),
    ensures
        sound(env, known, base, s, chain_run(env, s, expr, checks, indices, limit)),
        keeps_values(s, chain_run(env, s, expr, checks, indices, limit)),
    decreases limit,
{
    broadcast use lemma_access;

    if limit > 0 {
        match env.fun.expression(expr) {
            Some(Expression::Access { base: sequence, index }) => {
                if let Some((s1, Ok((id, checks1)))) = access_run(
                    env,
                    s,
                    sequence,
                    index,
                    checks,
                ) {
                    lemma_chain(
                        env,
                        known,
                        base,
                        s1,
                        sequence,
                        checks1,
                        indices.push(id),
                        (limit - 1) as nat,
                    );
                }
            },
            Some(Expression::AccessIndex { base: sequence, index }) => {
                if let Some((s1, Ok(id))) = s.index_id(env, index) {
                    lemma_chain(
                        env,
                        known,
                        base,
                        s1,
                        sequence,
                        checks,
                        indices.push(id),
                        (limit - 1) as nat,
                    );
                }
            },
            _ => {},
        }
    }
}

/// What emitting a pointer keeps. Where the access itself is left to be
/// emitted, its id is not defined yet.
pub broadcast proof fn lemma_pointer(
    env: Env,
    known: Set<Word>,
    base: State,
    s: State,
    expr: ExprHandle,
)
    requires
        grown(env, known, base, s),
    ensures
        #![trigger pointer_run(env, s, expr), grown(env, known, base, s)]
        sound(env, known, base, s, pointer_run(env, s, expr)),
        keeps_values(s, pointer_run(env, s, expr)),
        match pointer_run(env, s, expr) {
            Some((t, Ok(Pointer::Conditional { condition, access }))) => {
                &&& straight(access)
                &&& forall|id: Word| #[trigger]
                    state_defs(t, id) + defs(access, id) <= state_defs(s, id) + span(
                        id,
                        s.id(),
                        t.id(),
                    )
            },
            _ => true,
        },
{
    reveal(pointer_run);
    reveal(chain_end);
    if let Some(ty) = env.lookup(expr) {
        if let Some((s1, Ok(_))) = s.type_id(env, ty) {
            lemma_chain(
                env,
                known,
                base,
                s1,
                expr,
                None,
                Seq::empty(),
                env.fun.expressions@.len(),
            );
        }
    }
}

/// What taking a vector apart keeps. Its components are the next ids.
pub proof fn lemma_components(
    env: Env,
    known: Set<Word>,
    base: State,
    s: State,
    type_id: Word,
    vector: Word,
    count: nat,
)
    requires
        grown(env, known, base, s),
    ensures
        match components_run(s, type_id, vector, count) {
            Some(t) => {
                &&& grown(env, known, base, t)
                &&& defines_fresh(s, t)
                &&& t.code.cached == s.code.cached
            },
            None => true,
        },
    decreases count,
{
    if count > 0 {
        lemma_components(env, known, base, s, type_id, vector, (count - 1) as nat);
    }
}

/// What converting an array index keeps.
pub broadcast proof fn lemma_layer(
    env: Env,
    known: Set<Word>,
    base: State,
    s: State,
    type_id: Word,
    kind: ScalarKind,
    width: Bytes,
    index_id: Word,
)
    requires
        grown(env, known, base, s),
    ensures
        #![trigger layer_run(env, s, type_id, kind, width, index_id), grown(env, known, base, s)]
        sound(env, known, base, s, layer_run(env, s, type_id, kind, width, index_id)),
        keeps_values(s, layer_run(env, s, type_id, kind, width, index_id)),
{
    reveal(layer_run);
}

/// What extending coordinates keeps.
pub broadcast proof fn lemma_extend(
    env: Env,
    known: Set<Word>,
    base: State,
    s: State,
    type_id: Word,
    kind: ScalarKind,
    width: Bytes,
    parts: Seq<Word>,
    size: VectorSize,
    array_index: ExprHandle,
)
    requires
        grown(env, known, base, s),
    ensures
        #![trigger extend_run(env, s, type_id, kind, width, parts, size, array_index),
            grown(env, known, base, s)]
        sound(
            env,
            known,
            base,
            s,
            extend_run(env, s, type_id, kind, width, parts, size, array_index),
        ),
        keeps_values(s, extend_run(env, s, type_id, kind, width, parts, size, array_index)),
{
    broadcast use lemma_layer;

    reveal(extend_run);
}

/// What emitting texture coordinates keeps.
pub broadcast proof fn lemma_coordinates(
    env: Env,
    known: Set<Word>,
    base: State,
    s: State,
    coordinates: ExprHandle,
    array_index: Option<ExprHandle>,
)
    requires
        grown(env, known, base, s),
    ensures
        #![trigger coordinates_run(env, s, coordinates, array_index), grown(env, known, base, s)]
        sound(env, known, base, s, coordinates_run(env, s, coordinates, array_index)),
        keeps_values(s, coordinates_run(env, s, coordinates, array_index)),
{
    broadcast use lemma_extend;

    reveal(coordinates_run);
    if let (Some(id), Some(inner)) = (s.operand(coordinates), env.inner(coordinates)) {
        if let Some((s1, Ok(type_id))) = s.type_id(env, coordinate_type(inner)) {
            if let TypeInner::Vector { size, .. } = inner {
                lemma_components(env, known, base, s1, type_id, id, size.count() as nat);
            }
        }
    }
}

/// What emitting a load from an image keeps.
pub broadcast proof fn lemma_image_load(
    env: Env,
    known: Set<Word>,
    base: State,
    s: State,
    type_id: Word,
    image: ExprHandle,
    coordinate: ExprHandle,
    array_index: Option<ExprHandle>,
    index: Option<ExprHandle>,
)
    requires
        grown(env, known, base, s),
    ensures
        #![trigger image_load_run(env, s, type_id, image, coordinate, array_index, index),
            grown(env, known, base, s)]
        sound(
            env,
            known,
            base,
            s,
            image_load_run(env, s, type_id, image, coordinate, array_index, index),
        ),
        keeps_values(s, image_load_run(env, s, type_id, image, coordinate, array_index, index)),
        gives_fresh(s, image_load_run(env, s, type_id, image, coordinate, array_index, index)),
{
    broadcast use lemma_coordinates;

    reveal(image_load_run);
    reveal(first_component_run);
}

/// What completing a sample keeps: the level of detail adds operands only.
pub broadcast proof fn lemma_level(
    env: Env,
    known: Set<Word>,
    base: State,
    s: State,
    inst: Inst,
    level: SampleLevel,
    const_offset: bool,
)
    requires
        grown(env, known, base, s),
    ensures
        #![trigger level_run(env, s, inst, level, const_offset), grown(env, known, base, s)]
        sound(env, known, base, s, level_run(env, s, inst, level, const_offset)),
        keeps_values(s, level_run(env, s, inst, level, const_offset)),
        match level_run(env, s, inst, level, const_offset) {
            Some((_, Ok(completed))) => {
                completed.op == inst.op && completed.result_id == inst.result_id
            },
            _ => true,
        },
{
    reveal(level_run);
}

/// What emitting the type of a sample keeps.
pub broadcast proof fn lemma_sample_type(
    env: Env,
    known: Set<Word>,
    base: State,
    s: State,
    type_id: Word,
    inner: TypeInner,
    depth_ref: Option<ExprHandle>,
)
    requires
        grown(env, known, base, s),
    ensures
        #![trigger sample_type_run(env, s, type_id, inner, depth_ref), grown(env, known, base, s)]
        sound(env, known, base, s, sample_type_run(env, s, type_id, inner, depth_ref)),
        keeps_values(s, sample_type_run(env, s, type_id, inner, depth_ref)),
{
    reveal(sample_type_run);
}

/// What emitting the type of an image with a sampler keeps.
pub broadcast proof fn lemma_sampled_image_type(
    env: Env,
    known: Set<Word>,
    base: State,
    s: State,
    image: TypeHandle,
)
    requires
        grown(env, known, base, s),
    ensures
        #![trigger sampled_image_type_run(env, s, image), grown(env, known, base, s)]
        sound(env, known, base, s, sampled_image_type_run(env, s, image)),
        keeps_values(s, sampled_image_type_run(env, s, image)),
{
    reveal(sampled_image_type_run);
}

/// What emitting a sample instruction keeps.
pub broadcast proof fn lemma_sample_inst(
    env: Env,
    known: Set<Word>,
    base: State,
    s: State,
    sample_type_id: Word,
    sampled_image_id: Word,
    coordinate_id: Word,
    sample: Sample,
)
    requires
        grown(env, known, base, s),
    ensures
        #![trigger sample_inst_run(env, s, sample_type_id, sampled_image_id, coordinate_id, sample),
            grown(env, known, base, s)]
        sound(
            env,
            known,
            base,
            s,
            sample_inst_run(env, s, sample_type_id, sampled_image_id, coordinate_id, sample),
        ),
        keeps_values(
            s,
            sample_inst_run(env, s, sample_type_id, sampled_image_id, coordinate_id, sample),
        ),
        gives_fresh(
            s,
            sample_inst_run(env, s, sample_type_id, sampled_image_id, coordinate_id, sample),
        ),
{
    broadcast use lemma_level;

    reveal(sample_inst_run);
}

/// What emitting a sample keeps.
pub broadcast proof fn lemma_image_sample(
    env: Env,
    known: Set<Word>,
    base: State,
    s: State,
    type_id: Word,
    sample: Sample,
)
    requires
        grown(env, known, base, s),
    ensures
        #![trigger image_sample_run(env, s, type_id, sample), grown(env, known, base, s)]
        sound(env, known, base, s, image_sample_run(env, s, type_id, sample)),
        keeps_values(s, image_sample_run(env, s, type_id, sample)),
        gives_fresh(s, image_sample_run(env, s, type_id, sample)),
{
    broadcast use {
        lemma_coordinates,
        lemma_sample_type,
        lemma_sampled_image_type,
        lemma_sample_inst,
    };

    reveal(image_sample_run);
}

/// What emitting a level of detail keeps.
pub broadcast proof fn lemma_query_level(
    env: Env,
    known: Set<Word>,
    base: State,
    s: State,
    level: Option<ExprHandle>,
)
    requires
        grown(env, known, base, s),
    ensures
        #![trigger query_level_run(env, s, level), grown(env, known, base, s)]
        sound(env, known, base, s, query_level_run(env, s, level)),
        keeps_values(s, query_level_run(env, s, level)),
{
    reveal(query_level_run);
}

/// What leaving the layers out of a size keeps.
pub broadcast proof fn lemma_trim_size(
    env: Env,
    known: Set<Word>,
    base: State,
    s: State,
    type_id: Word,
    size_type_id: Word,
    size_id: Word,
    dim: ImageDimension,
)
    requires
        grown(env, known, base, s),
    ensures
        #![trigger trim_size_run(s, type_id, size_type_id, size_id, dim),
            grown(env, known, base, s)]
        sound(env, known, base, s, trim_size_run(s, type_id, size_type_id, size_id, dim)),
        keeps_values(s, trim_size_run(s, type_id, size_type_id, size_id, dim)),
        match trim_size_run(s, type_id, size_type_id, size_id, dim) {
            Some((t, Ok(id))) => t == s && id == size_id || gives_fresh(s, Some((t, Ok(id)))),
            _ => true,
        },
{
    reveal(trim_size_run);
}

/// What emitting the size of an image keeps.
pub broadcast proof fn lemma_query_size(
    env: Env,
    known: Set<Word>,
    base: State,
    s: State,
    type_id: Word,
    image: Word,
    dim: ImageDimension,
    arrayed: bool,
    class: ImageClass,
    level: Option<ExprHandle>,
)
    requires
        grown(env, known, base, s),
    ensures
        #![trigger query_size_run(env, s, type_id, image, dim, arrayed, class, level),
            grown(env, known, base, s)]
        sound(
            env,
            known,
            base,
            s,
            query_size_run(env, s, type_id, image, dim, arrayed, class, level),
        ),
        keeps_values(s, query_size_run(env, s, type_id, image, dim, arrayed, class, level)),
        gives_fresh(s, query_size_run(env, s, type_id, image, dim, arrayed, class, level)),
{
    broadcast use {lemma_query_level, lemma_trim_size};

    reveal(query_size_run);
}

/// What emitting the number of layers keeps.
pub broadcast proof fn lemma_query_layers(
    env: Env,
    known: Set<Word>,
    base: State,
    s: State,
    type_id: Word,
    image: Word,
    dim: ImageDimension,
)
    requires
        grown(env, known, base, s),
    ensures
        #![trigger query_layers_run(env, s, type_id, image, dim), grown(env, known, base, s)]
        sound(env, known, base, s, query_layers_run(env, s, type_id, image, dim)),
        keeps_values(s, query_layers_run(env, s, type_id, image, dim)),
        gives_fresh(s, query_layers_run(env, s, type_id, image, dim)),
{
    reveal(query_layers_run);
}

/// What emitting a query keeps.
pub broadcast proof fn lemma_image_query(
    env: Env,
    known: Set<Word>,
    base: State,
    s: State,
    type_id: Word,
    image: ExprHandle,
    query: ImageQuery,
)
    requires
        grown(env, known, base, s),
    ensures
        #![trigger image_query_run(env, s, type_id, image, query), grown(env, known, base, s)]
        sound(env, known, base, s, image_query_run(env, s, type_id, image, query)),
        keeps_values(s, image_query_run(env, s, type_id, image, query)),
        gives_fresh(s, image_query_run(env, s, type_id, image, query)),
{
    broadcast use {lemma_query_size, lemma_query_layers};

    reveal(image_query_run);
    reveal(plain_query_run);
}

/// Whether the value of an expression is computed by instructions of its own:
/// it is neither an access nor something that has an id already.
pub open spec fn is_operation(env: Env, expr: ExprHandle) -> bool {
    match env.fun.expression(expr) {
        Some(Expression::Access { .. })
        | Some(Expression::AccessIndex { .. })
        | Some(Expression::GlobalVariable(_))
        | Some(Expression::Constant(_))
        | Some(Expression::LocalVariable(_))
        | Some(Expression::FunctionArgument(_))
        | Some(Expression::Call(_)) => false,
        _ => true,
    }
}

/// What emitting an access keeps.
pub broadcast proof fn lemma_access_value(
    env: Env,
    known: Set<Word>,
    base: State,
    s: State,
    expr: ExprHandle,
    sequence: ExprHandle,
    index: ExprHandle,
)
    requires
        grown(env, known, base, s),
    ensures
        #![trigger access_value_run(env, s, expr, sequence, index), grown(env, known, base, s)]
        sound(env, known, base, s, access_value_run(env, s, expr, sequence, index)),
        keeps_values(s, access_value_run(env, s, expr, sequence, index)),
        match access_value_run(env, s, expr, sequence, index) {
            Some((t, Ok(id))) => if intermediate(env, s.code, sequence) == Some(true) {
                t == s && id == 0
            } else {
                gives_fresh(s, Some((t, Ok(id))))
            },
            _ => true,
        },
{
    broadcast use lemma_vector_access;

    reveal(access_value_run);
}

/// What emitting an access keeps.
pub broadcast proof fn lemma_access_index_value(
    env: Env,
    known: Set<Word>,
    base: State,
    s: State,
    type_id: Word,
    sequence: ExprHandle,
    index: u32,
)
    requires
        grown(env, known, base, s),
    ensures
        #![trigger access_index_value_run(env, s, type_id, sequence, index),
            grown(env, known, base, s)]
        sound(env, known, base, s, access_index_value_run(env, s, type_id, sequence, index)),
        keeps_values(s, access_index_value_run(env, s, type_id, sequence, index)),
        match access_index_value_run(env, s, type_id, sequence, index) {
            Some((t, Ok(id))) => if intermediate(env, s.code, sequence) == Some(true) {
                t == s && id == 0
            } else {
                gives_fresh(s, Some((t, Ok(id))))
            },
            _ => true,
        },
{
    reveal(access_index_value_run);
}

/// What emitting a vector of copies keeps.
pub broadcast proof fn lemma_splat(
    env: Env,
    known: Set<Word>,
    base: State,
    s: State,
    type_id: Word,
    size: VectorSize,
    value: ExprHandle,
)
    requires
        grown(env, known, base, s),
    ensures
        #![trigger splat_run(s, type_id, size, value), grown(env, known, base, s)]
        sound(env, known, base, s, splat_run(s, type_id, size, value)),
        keeps_values(s, splat_run(s, type_id, size, value)),
        gives_fresh(s, splat_run(s, type_id, size, value)),
{
    reveal(splat_run);
}

/// What emitting a selection of components keeps.
pub broadcast proof fn lemma_swizzle(
    env: Env,
    known: Set<Word>,
    base: State,
    s: State,
    type_id: Word,
    size: VectorSize,
    vector: ExprHandle,
    pattern: Seq<SwizzleComponent>,
)
    requires
        grown(env, known, base, s),
    ensures
        #![trigger swizzle_run(s, type_id, size, vector, pattern), grown(env, known, base, s)]
        sound(env, known, base, s, swizzle_run(s, type_id, size, vector, pattern)),
        keeps_values(s, swizzle_run(s, type_id, size, vector, pattern)),
        gives_fresh(s, swizzle_run(s, type_id, size, vector, pattern)),
{
    reveal(swizzle_run);
}

/// What emitting a composite keeps.
pub broadcast proof fn lemma_compose(
    env: Env,
    known: Set<Word>,
    base: State,
    s: State,
    type_id: Word,
    components: Seq<ExprHandle>,
)
    requires
        grown(env, known, base, s),
    ensures
        #![trigger compose_run(s, type_id, components), grown(env, known, base, s)]
        sound(env, known, base, s, compose_run(s, type_id, components)),
        keeps_values(s, compose_run(s, type_id, components)),
        gives_fresh(s, compose_run(s, type_id, components)),
{
    reveal(compose_run);
}

/// What emitting a unary operation keeps.
pub broadcast proof fn lemma_unary(
    env: Env,
    known: Set<Word>,
    base: State,
    s: State,
    type_id: Word,
    op: UnaryOperator,
    expr: ExprHandle,
)
    requires
        grown(env, known, base, s),
    ensures
        #![trigger unary_run(env, s, type_id, op, expr), grown(env, known, base, s)]
        sound(env, known, base, s, unary_run(env, s, type_id, op, expr)),
        keeps_values(s, unary_run(env, s, type_id, op, expr)),
        gives_fresh(s, unary_run(env, s, type_id, op, expr)),
{
    reveal(unary_run);
}

/// What emitting a binary operation keeps.
pub broadcast proof fn lemma_binary(
    env: Env,
    known: Set<Word>,
    base: State,
    s: State,
    type_id: Word,
    op: BinaryOperator,
    left: ExprHandle,
    right: ExprHandle,
)
    requires
        grown(env, known, base, s),
    ensures
        #![trigger binary_run(env, s, type_id, op, left, right), grown(env, known, base, s)]
        sound(env, known, base, s, binary_run(env, s, type_id, op, left, right)),
        keeps_values(s, binary_run(env, s, type_id, op, left, right)),
        gives_fresh(s, binary_run(env, s, type_id, op, left, right)),
{
    reveal(binary_run);
}

/// What emitting a math function keeps.
pub broadcast proof fn lemma_math(
    env: Env,
    known: Set<Word>,
    base: State,
    s: State,
    type_id: Word,
    fun: MathFunction,
    arg: ExprHandle,
    arg1: Option<ExprHandle>,
    arg2: Option<ExprHandle>,
)
    requires
        grown(env, known, base, s),
    ensures
        #![trigger math_run(env, s, type_id, fun, arg, arg1, arg2), grown(env, known, base, s)]
        sound(env, known, base, s, math_run(env, s, type_id, fun, arg, arg1, arg2)),
        keeps_values(s, math_run(env, s, type_id, fun, arg, arg1, arg2)),
        gives_fresh(s, math_run(env, s, type_id, fun, arg, arg1, arg2)),
{
    reveal(math_run);
}

/// What emitting a load keeps.
pub broadcast proof fn lemma_load(
    env: Env,
    known: Set<Word>,
    base: State,
    s: State,
    type_id: Word,
    pointer: ExprHandle,
)
    requires
        grown(env, known, base, s),
    ensures
        #![trigger load_run(env, s, type_id, pointer), grown(env, known, base, s)]
        sound(env, known, base, s, load_run(env, s, type_id, pointer)),
        keeps_values(s, load_run(env, s, type_id, pointer)),
        gives_fresh(s, load_run(env, s, type_id, pointer)),
{
    broadcast use {lemma_pointer, lemma_guard, lemma_unguard};

    reveal(load_run);
}

/// What emitting a cast keeps.
pub broadcast proof fn lemma_cast(
    env: Env,
    known: Set<Word>,
    base: State,
    s: State,
    type_id: Word,
    expr: ExprHandle,
    kind: ScalarKind,
    convert: Option<Bytes>,
)
    requires
        grown(env, known, base, s),
    ensures
        #![trigger cast_run(env, s, type_id, expr, kind, convert), grown(env, known, base, s)]
        sound(env, known, base, s, cast_run(env, s, type_id, expr, kind, convert)),
        keeps_values(s, cast_run(env, s, type_id, expr, kind, convert)),
        gives_fresh(s, cast_run(env, s, type_id, expr, kind, convert)),
{
    reveal(cast_run);
}

/// What emitting the condition of a selection keeps.
pub broadcast proof fn lemma_condition(
    env: Env,
    known: Set<Word>,
    base: State,
    s: State,
    condition_id: Word,
    condition: TypeInner,
    object: TypeInner,
)
    requires
        grown(env, known, base, s),
    ensures
        #![trigger condition_run(env, s, condition_id, condition, object),
            grown(env, known, base, s)]
        sound(env, known, base, s, condition_run(env, s, condition_id, condition, object)),
        keeps_values(s, condition_run(env, s, condition_id, condition, object)),
{
    reveal(condition_run);
}

/// What emitting a selection keeps.
pub broadcast proof fn lemma_select(
    env: Env,
    known: Set<Word>,
    base: State,
    s: State,
    type_id: Word,
    condition: ExprHandle,
    accept: ExprHandle,
    reject: ExprHandle,
)
    requires
        grown(env, known, base, s),
    ensures
        #![trigger select_run(env, s, type_id, condition, accept, reject),
            grown(env, known, base, s)]
        sound(env, known, base, s, select_run(env, s, type_id, condition, accept, reject)),
        keeps_values(s, select_run(env, s, type_id, condition, accept, reject)),
        gives_fresh(s, select_run(env, s, type_id, condition, accept, reject)),
{
    broadcast use lemma_condition;

    reveal(select_run);
}

/// What emitting an instruction with one operand keeps.
pub broadcast proof fn lemma_one_operand(
    env: Env,
    known: Set<Word>,
    base: State,
    s: State,
    op: spirv::Op,
    type_id: Word,
    expr: ExprHandle,
)
    requires
        grown(env, known, base, s),
    ensures
        #![trigger one_operand_run(s, op, type_id, expr), grown(env, known, base, s)]
        !is_terminator(op) && !is_merge(op) ==> sound(
            env,
            known,
            base,
            s,
            one_operand_run(s, op, type_id, expr),
        ),
        keeps_values(s, one_operand_run(s, op, type_id, expr)),
        gives_fresh(s, one_operand_run(s, op, type_id, expr)),
{
    reveal(one_operand_run);
}

/// What emitting a relational function keeps.
pub broadcast proof fn lemma_relational(
    env: Env,
    known: Set<Word>,
    base: State,
    s: State,
    type_id: Word,
    fun: RelationalFunction,
    argument: ExprHandle,
)
    requires
        grown(env, known, base, s),
    ensures
        #![trigger relational_run(s, type_id, fun, argument), grown(env, known, base, s)]
        sound(env, known, base, s, relational_run(s, type_id, fun, argument)),
        keeps_values(s, relational_run(s, type_id, fun, argument)),
        gives_fresh(s, relational_run(s, type_id, fun, argument)),
{
    broadcast use lemma_one_operand;

    reveal(relational_run);
}

/// What emitting a value keeps.
pub broadcast proof fn lemma_value(
    env: Env,
    known: Set<Word>,
    base: State,
    s: State,
    type_id: Word,
    expr: ExprHandle,
)
    requires
        grown(env, known, base, s),
    ensures
        #![trigger value_run(env, s, type_id, expr), grown(env, known, base, s)]
        sound(env, known, base, s, value_run(env, s, type_id, expr)),
        keeps_values(s, value_run(env, s, type_id, expr)),
        is_operation(env, expr) ==> gives_fresh(s, value_run(env, s, type_id, expr)),
{
    broadcast use {
        lemma_access_value,
        lemma_access_index_value,
        lemma_splat,
        lemma_swizzle,
        lemma_compose,
        lemma_unary,
        lemma_binary,
        lemma_math,
        lemma_load,
        lemma_cast,
        lemma_select,
        lemma_one_operand,
        lemma_relational,
        lemma_array_length,
        lemma_image_load,
        lemma_image_sample,
        lemma_image_query,
    };

    reveal(value_run);
}

/// What caching a value keeps.
pub broadcast proof fn lemma_cache_value(
    env: Env,
    known: Set<Word>,
    base: State,
    s: State,
    expr: ExprHandle,
)
    requires
        grown(env, known, base, s),
    ensures
        #![trigger cache_run(env, s, expr), grown(env, known, base, s)]
        sound(env, known, base, s, cache_run(env, s, expr)),
{
    broadcast use lemma_value;

    reveal(cache_run);
}

/// What emitting a range of values keeps.
pub proof fn lemma_emit(
    env: Env,
    known: Set<Word>,
    base: State,
    s: State,
    start: u32,
    end: u32,
)
    requires
        grown(env, known, base, s),
    ensures
        sound(env, known, base, s, emit_run(env, s, start, end)),
    decreases end - start,
{
    broadcast use lemma_cache_value;

    if start < end {
        if let Some((s1, Ok(_))) = cache_run(env, s, ExprHandle(start)) {
            lemma_emit(env, known, base, s1, (start + 1) as u32, end);
        }
    }
}

/// What emitting a barrier keeps.
pub broadcast proof fn lemma_barrier(
    env: Env,
    known: Set<Word>,
    base: State,
    s: State,
    barrier: Barrier,
)
    requires
        grown(env, known, base, s),
    ensures
        #![trigger barrier_run(env, s, barrier), grown(env, known, base, s)]
        sound(env, known, base, s, barrier_run(env, s, barrier)),
{
    reveal(barrier_run);
}

/// What emitting a store to an image keeps.
pub broadcast proof fn lemma_image_store(
    env: Env,
    known: Set<Word>,
    base: State,
    s: State,
    image: ExprHandle,
    coordinate: ExprHandle,
    array_index: Option<ExprHandle>,
    value: ExprHandle,
)
    requires
        grown(env, known, base, s),
    ensures
        #![trigger image_store_run(env, s, image, coordinate, array_index, value),
            grown(env, known, base, s)]
        sound(env, known, base, s, image_store_run(env, s, image, coordinate, array_index, value)),
{
    broadcast use lemma_coordinates;

    reveal(image_store_run);
}

/// What emitting the type of a call keeps.
pub broadcast proof fn lemma_call_type(
    env: Env,
    known: Set<Word>,
    base: State,
    s: State,
    id: Word,
    function: FunctionHandle,
    result: Option<ExprHandle>,
)
    requires
        grown(env, known, base, s),
    ensures
        #![trigger call_type_run(env, s, id, function, result), grown(env, known, base, s)]
        sound(env, known, base, s, call_type_run(env, s, id, function, result)),
{
    reveal(call_type_run);
    if let Some(expr) = result {
        if let Some(s1) = s.cache(expr, id) {
            let writer = s1.code.writer.with_call(expr.0, id);
            let s2 = State { code: Code { writer, ..s1.code }, ..s1 };
            assert(grown(env, known, base, s2)) by {
                reveal(grown);
            }
            assert(forall|x: Word| #[trigger] state_defs(s2, x) == state_defs(s1, x));
        }
    }
}

/// What emitting a call keeps.
pub broadcast proof fn lemma_call(
    env: Env,
    known: Set<Word>,
    base: State,
    s: State,
    function: FunctionHandle,
    arguments: Seq<ExprHandle>,
    result: Option<ExprHandle>,
)
    requires
        grown(env, known, base, s),
    ensures
        #![trigger call_run(env, s, function, arguments, result), grown(env, known, base, s)]
        sound(env, known, base, s, call_run(env, s, function, arguments, result)),
{
    broadcast use lemma_call_type;

    reveal(call_run);
}

/// What emitting a store keeps.
pub broadcast proof fn lemma_store(
    env: Env,
    known: Set<Word>,
    base: State,
    s: State,
    pointer: ExprHandle,
    value: ExprHandle,
)
    requires
        grown(env, known, base, s),
    ensures
        #![trigger store_run(env, s, pointer, value), grown(env, known, base, s)]
        sound(env, known, base, s, store_run(env, s, pointer, value)),
{
    broadcast use lemma_pointer;

    reveal(store_run);
    if let Some((s1, Ok(Pointer::Conditional { condition, access }))) = pointer_run(
        env,
        s,
        pointer,
    ) {
        if let Some(s2) = s1.fresh() {
            if let (Some(s3), Some(pointer_id), Some(value_id)) = (
                s2.fresh(),
                access.result_id,
                s.operand(value),
            ) {
                let merge = s2.id();
                let in_bounds = s3.id();
                let allowed = known.insert(merge);
                let header = Inst::selection_merge(merge, 0);
                let fork = Inst::branch_conditional(condition, in_bounds, merge);
                lemma_fork(env, known, base, s3, header, fork, allowed.insert(in_bounds));
                let code = s3.push(header).code.consume(s3.push(header).block, fork);
                lemma_begin(env, allowed.insert(in_bounds), base, code, in_bounds, allowed);
                let s4 = code.begin(in_bounds).push(access).push(
                    Inst::store(pointer_id, value_id),
                );
                lemma_terminate(env, allowed, base, s4, Inst::branch(merge), allowed);
                lemma_begin(
                    env,
                    allowed,
                    base,
                    s4.code.consume(s4.block, Inst::branch(merge)),
                    merge,
                    known,
                );
            }
        }
    }
}

} // verus!
