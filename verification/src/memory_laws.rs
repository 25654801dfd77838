//! The laws of what is read and written: expressions that take their value from
//! memory or from an image, and statements.

use spirv::Word;
use vstd::prelude::*;
use crate::block::plain_run;
use crate::context::{image_id, intermediate, Code, Env, State};
use crate::expression::{access_value_run, cache_run, load_run, operands, value_run};
use crate::function::Blk;
use crate::growth::{begins_with, holds};
use crate::image::{image_load_run, image_query_run, image_sample_run, Sample};
use crate::image_laws::{
    is_coordinate_error, is_coordinates, is_layer_query, is_load, is_query_error, is_sample,
    is_size_query,
    handle_of, law_image_load, law_image_query, law_image_sample, law_image_store,
};
use crate::index::{
    array_length_run, bounds_check_run, guard_run, unguard, vector_access_run, BoundsCheckResult,
};
use crate::instruction::Inst;
use crate::ir::{Barrier, ExprHandle, Expression, FunctionHandle, ImageQuery, ScalarKind, Statement};
use crate::laws::{lemma_type_error, lemma_type_found};
use crate::meaning::{
    effect_inst, evaluates, has_value, id_of, incapable, is_id_of, is_type_id, is_type_lack,
    is_uint, numbers, put_off, shape, untouched, value_inst,
};
use crate::pointer::{pointer_run, Pointer};
use crate::pointer_laws::owner;
use crate::run::Error;
use crate::statement::{barrier_run, call_run, call_type_run, emit_run, store_run};
use crate::types::LookupType;
use crate::value_laws::{lemma_typed, lemma_typed_later};

verus! {

/// Whether some instructions are executed only where a condition holds: the
/// current block branches to the block that they make up where it does, and past
/// it where it does not, and both ways come together in a block that begins with
/// `rest`.
pub open spec fn is_guarded(
    before: State,
    t: State,
    condition: Word,
    inside: Seq<Inst>,
    rest: Seq<Inst>,
    merge: Word,
    in_bounds: Word,
) -> bool {
    let header = before.block.body + seq![
        effect_inst(spirv::Op::SelectionMerge, seq![merge, 0]),
        effect_inst(spirv::Op::BranchConditional, seq![condition, in_bounds, merge]),
    ];
    &&& before.id() < merge
    &&& before.id() < in_bounds
    &&& merge != in_bounds
    &&& t.code.blocks == before.code.blocks.push(
        Blk { label: before.block.label, body: header },
    ).push(
        Blk {
            label: in_bounds,
            body: inside.push(effect_inst(spirv::Op::Branch, seq![merge])),
        },
    )
    &&& t.block == Blk { label: merge, body: rest }
}

/// Whether a value is computed only where a condition holds, and is zero where it
/// does not.
pub open spec fn is_guarded_value(
    before: State,
    t: State,
    condition: Word,
    inside: Seq<Inst>,
    type_id: Word,
    id: Word,
    merge: Word,
    in_bounds: Word,
    zero: Word,
) -> bool {
    let value = inside.last().result_id.unwrap();
    &&& t.code.writer.declarations.contains(
        value_inst(spirv::Op::ConstantNull, type_id, zero, seq![]),
    )
    &&& is_guarded(
        before,
        t,
        condition,
        inside,
        seq![
            value_inst(
                spirv::Op::Phi,
                type_id,
                id,
                seq![zero, before.block.label, value, in_bounds],
            ),
        ],
        merge,
        in_bounds,
    )
}

/// Whether a value is loaded through a pointer, if it is in bounds.
pub open spec fn is_loaded(
    before: State,
    t: State,
    pointer: Pointer,
    type_id: Word,
    id: Word,
) -> bool {
    match pointer {
        Pointer::Ready { pointer_id } => {
            &&& t.block.label == before.block.label
            &&& t.block.body == before.block.body.push(
                value_inst(spirv::Op::Load, type_id, id, seq![pointer_id]),
            )
            &&& t.code.blocks == before.code.blocks
        },
        Pointer::Conditional { condition, access } => {
            exists|merge: Word, in_bounds: Word, zero: Word, inside: Seq<Inst>| #[trigger]
                is_guarded_value(
                    before,
                    t,
                    condition,
                    inside,
                    type_id,
                    id,
                    merge,
                    in_bounds,
                    zero,
                ) && inside == seq![
                    access,
                    value_inst(
                        spirv::Op::Load,
                        type_id,
                        inside.last().result_id.unwrap(),
                        seq![access.result_id.unwrap()],
                    ),
                ]
        },
    }
}

/// What the two halves of a guard come to.
proof fn lemma_guarded(
    before: State,
    type_id: Word,
    condition: Word,
    inside: Seq<Inst>,
    middle: State,
    value: Word,
)
    requires
        guard_run(before, type_id, condition) matches Some((s1, _)) && middle.code.blocks
            == s1.code.blocks && middle.block.label == s1.block.label && middle.block.body
            == s1.block.body + inside && begins_with(
            middle.code.writer.declarations,
            s1.code.writer.declarations,
        ),
        inside.len() > 0,
        inside.last().result_id == Some(value),
    ensures
        ({
            let guard = guard_run(before, type_id, condition).unwrap().1;
            is_guarded_value(
                before,
                unguard(middle, type_id, guard, value),
                condition,
                inside,
                type_id,
                guard.result_id,
                guard.merge,
                guard.in_bounds,
                guard.null_id,
            )
        }),
{
    reveal(guard_run);
    reveal(unguard);
    let (s1, guard) = guard_run(before, type_id, condition).unwrap();
    let t = unguard(middle, type_id, guard, value);
    let null = value_inst(spirv::Op::ConstantNull, type_id, guard.null_id, seq![]);
    assert(null.operands =~= Seq::<Word>::empty());
    let at = before.code.writer.declarations.len() as int;
    assert(s1.code.writer.declarations[at] == null);
    assert(t.code.writer.declarations[at] == null);
    let header = before.block.body + seq![
        effect_inst(spirv::Op::SelectionMerge, seq![guard.merge, 0]),
        effect_inst(
            spirv::Op::BranchConditional,
            seq![condition, guard.in_bounds, guard.merge],
        ),
    ];
    let n = before.code.blocks.len() as int;
    assert(t.code.blocks[n].body =~= header);
    assert(t.code.blocks[n + 1].body =~= inside.push(
        effect_inst(spirv::Op::Branch, seq![guard.merge]),
    ));
    assert(t.block.body =~= seq![
        value_inst(
            spirv::Op::Phi,
            type_id,
            guard.result_id,
            seq![guard.null_id, before.block.label, value, guard.in_bounds],
        ),
    ]);
    assert(t.code.blocks =~= before.code.blocks.push(
        Blk { label: before.block.label, body: header },
    ).push(
        Blk {
            label: guard.in_bounds,
            body: inside.push(effect_inst(spirv::Op::Branch, seq![guard.merge])),
        },
    ));
}

/// A load takes its value through the pointer that its expression stands for. One
/// that is conditional gives zero where an index is out of bounds.
pub proof fn law_load(
    env: Env,
    s: State,
    expr: ExprHandle,
    pointer: ExprHandle,
    t: State,
    result: Result<(), Error>,
)
    requires
        expr.0 < env.fun.expressions@.len(),
        env.fun.expressions@[expr.0 as int] == (Expression::Load { pointer }),
        cache_run(env, s, expr) == Some((t, result)),
    ensures
        match result {
            Ok(_) => {
                &&& t.code.cached == s.code.cached.update(expr.0 as int, id_of(t, expr))
                &&& exists|s1: State, s2: State, reached: Pointer, type_id: Word|
                    {
                        &&& untouched(s, s1)
                        &&& #[trigger] pointer_run(env, s1, pointer) == Some(
                            (s2, Ok::<Pointer, Error>(reached)),
                        )
                        &&& is_type_id(env, s1.code.writer, expr, type_id)
                        &&& #[trigger] is_loaded(s2, t, reached, type_id, id_of(t, expr))
                    }
            },
            Err(error) => incapable(env, s, t, expr, result) || exists|s1: State|
                untouched(s, s1) && #[trigger] pointer_run(env, s1, pointer) == Some(
                    (t, Err::<Pointer, Error>(error)),
                ),
        },
{
    reveal(cache_run);
    reveal(value_run);
    reveal(load_run);
    lemma_typed(env, s, expr);
    let ty = env.lookup(expr).unwrap();
    let (s1, typed) = s.type_id(env, ty).unwrap();
    if let Ok(type_id) = typed {
        let (s2, pointed) = pointer_run(env, s1, pointer).unwrap();
        crate::chains::law_pointer_is_one_access(env, s1, pointer);
        if let Ok(reached) = pointed {
            lemma_pointer_keeps_values(env, s1, pointer);
            match reached {
                Pointer::Ready { pointer_id } => {
                    assert(is_loaded(s2, t, reached, type_id, id_of(t, expr)));
                },
                Pointer::Conditional { condition, access } => {
                    let (s3, guard) = guard_run(s2, type_id, condition).unwrap();
                    let s4 = s3.fresh().unwrap();
                    let load = value_inst(
                        spirv::Op::Load,
                        type_id,
                        s4.id(),
                        seq![access.result_id.unwrap()],
                    );
                    let inside = seq![access, load];
                    let middle = s4.push(access).push(load);
                    assert(middle.block.body =~= s3.block.body + inside);
                    lemma_guarded(s2, type_id, condition, inside, middle, s4.id());
                    lemma_guard_keeps_values(s2, type_id, condition, middle, s4.id());
                    let u = unguard(middle, type_id, guard, s4.id());
                    assert(t == u.cache(expr, guard.result_id).unwrap());
                    assert(is_guarded_value(
                        s2,
                        t,
                        condition,
                        inside,
                        type_id,
                        guard.result_id,
                        guard.merge,
                        guard.in_bounds,
                        guard.null_id,
                    ));
                    assert(is_loaded(s2, t, reached, type_id, id_of(t, expr)));
                },
            }
        }
    }
}

/// Finding a pointer changes no value.
proof fn lemma_pointer_keeps_values(env: Env, s: State, pointer: ExprHandle)
    ensures
        match pointer_run(env, s, pointer) {
            Some((t, Ok(_))) => t.code.cached == s.code.cached,
            _ => true,
        },
{
    if let Some((t, Ok(reached))) = pointer_run(env, s, pointer) {
        crate::pointer_laws::law_pointer(env, s, pointer, t, reached);
        reveal(crate::pointer_laws::kept);
    }
}

/// A guard changes no value.
proof fn lemma_guard_keeps_values(
    before: State,
    type_id: Word,
    condition: Word,
    middle: State,
    value: Word,
)
    ensures
        match guard_run(before, type_id, condition) {
            Some((s1, guard)) => {
                &&& s1.code.cached == before.code.cached
                &&& unguard(middle, type_id, guard, value).code.cached == middle.code.cached
            },
            None => true,
        },
{
    reveal(guard_run);
    reveal(unguard);
}

/// A store goes through the pointer that its expression stands for. One that is
/// conditional is skipped where an index is out of bounds.
pub proof fn law_store(
    env: Env,
    s: State,
    pointer: ExprHandle,
    value: ExprHandle,
    t: State,
    result: Result<(), Error>,
)
    requires
        plain_run(env, s, Statement::Store { pointer, value }) == Some((t, result)),
    ensures
        match (pointer_run(env, s, pointer), result) {
            (Some((s1, Ok(Pointer::Ready { pointer_id }))), Ok(_)) => {
                &&& t.block.label == s1.block.label
                &&& t.block.body == s1.block.body.push(
                    effect_inst(spirv::Op::Store, seq![pointer_id, id_of(s, value)]),
                )
                &&& t.code == s1.code
            },
            (Some((s1, Ok(Pointer::Conditional { condition, access }))), Ok(_)) => {
                &&& t.code.cached == s1.code.cached
                &&& exists|merge: Word, in_bounds: Word, inside: Seq<Inst>, rest: Seq<Inst>|
                    #[trigger]
                    is_guarded(s1, t, condition, inside, rest, merge, in_bounds) && inside == seq![
                        access,
                        effect_inst(
                            spirv::Op::Store,
                            seq![access.result_id.unwrap(), id_of(s, value)],
                        ),
                    ] && rest == Seq::<Inst>::empty()
            },
            (Some((s1, Err(error))), Err(given)) => t == s1 && given == error,
            _ => false,
        },
{
    reveal(store_run);
    if let Some((s1, Ok(Pointer::Conditional { condition, access }))) = pointer_run(
        env,
        s,
        pointer,
    ) {
        let merge = s1.fresh().unwrap().id();
        let in_bounds = s1.fresh().unwrap().fresh().unwrap().id();
        let inside = seq![
            access,
            effect_inst(spirv::Op::Store, seq![access.result_id.unwrap(), id_of(s, value)]),
        ];
        let n = s1.code.blocks.len() as int;
        let header = s1.block.body + seq![
            effect_inst(spirv::Op::SelectionMerge, seq![merge, 0]),
            effect_inst(spirv::Op::BranchConditional, seq![condition, in_bounds, merge]),
        ];
        assert(t.code.blocks[n].body =~= header);
        assert(t.code.blocks[n + 1].body =~= inside.push(
            effect_inst(spirv::Op::Branch, seq![merge]),
        ));
        assert(t.block.body =~= Seq::<Inst>::empty());
        assert(t.code.blocks =~= s1.code.blocks.push(
            Blk { label: s1.block.label, body: header },
        ).push(
            Blk {
                label: in_bounds,
                body: inside.push(effect_inst(spirv::Op::Branch, seq![merge])),
            },
        ));
        assert(is_guarded(s1, t, condition, inside, Seq::empty(), merge, in_bounds));
    }
}

/// Whether a component of a vector is taken out at an index that was checked: at
/// one that is known, at one that was computed, or, where the test holds, at the
/// index as it is.
pub open spec fn is_component(
    s: State,
    before: State,
    t: State,
    check: BoundsCheckResult,
    base: ExprHandle,
    index: ExprHandle,
    type_id: Word,
    id: Word,
) -> bool {
    match check {
        BoundsCheckResult::KnownInBounds(known) => {
            &&& t.block.label == before.block.label
            &&& t.block.body == before.block.body.push(
                value_inst(spirv::Op::CompositeExtract, type_id, id, seq![id_of(s, base), known]),
            )
            &&& t.code.blocks == before.code.blocks
        },
        BoundsCheckResult::Computed(computed) => {
            &&& t.block.label == before.block.label
            &&& t.block.body == before.block.body.push(
                value_inst(
                    spirv::Op::VectorExtractDynamic,
                    type_id,
                    id,
                    seq![id_of(s, base), computed],
                ),
            )
            &&& t.code.blocks == before.code.blocks
        },
        BoundsCheckResult::Conditional(test) => {
            exists|merge: Word, in_bounds: Word, zero: Word, inside: Seq<Inst>| #[trigger]
                is_guarded_value(
                    before,
                    t,
                    test,
                    inside,
                    type_id,
                    id,
                    merge,
                    in_bounds,
                    zero,
                ) && inside == seq![
                    value_inst(
                        spirv::Op::VectorExtractDynamic,
                        type_id,
                        inside.last().result_id.unwrap(),
                        seq![id_of(s, base), id_of(s, index)],
                    ),
                ]
        },
    }
}

/// A component of a vector is taken out of it at an index that is checked as the
/// policy asks. Nothing but vectors can be indexed by a value.
pub proof fn law_component(
    env: Env,
    s: State,
    expr: ExprHandle,
    base: ExprHandle,
    index: ExprHandle,
    t: State,
    result: Result<(), Error>,
)
    requires
        expr.0 < env.fun.expressions@.len(),
        env.fun.expressions@[expr.0 as int] == (Expression::Access { base, index }),
        !put_off(env, s.code, base),
        cache_run(env, s, expr) == Some((t, result)),
    ensures
        match result {
            Ok(_) => {
                &&& shape(env, base) is Vector
                &&& t.code.cached == s.code.cached.update(expr.0 as int, id_of(t, expr))
                &&& exists|s1: State, s2: State, check: BoundsCheckResult, type_id: Word|
                    {
                        &&& untouched(s, s1)
                        &&& #[trigger] bounds_check_run(env, s1, base, index) == Some(
                            (s2, Ok::<BoundsCheckResult, Error>(check)),
                        )
                        &&& is_type_id(env, s1.code.writer, expr, type_id)
                        &&& #[trigger] is_component(
                            s,
                            s2,
                            t,
                            check,
                            base,
                            index,
                            type_id,
                            id_of(t, expr),
                        )
                    }
            },
            Err(error) => {
                ||| incapable(env, s, t, expr, result)
                ||| untouched(s, t) && !(shape(env, base) is Vector) && error
                    == Error::Validation("only vectors may be dynamically indexed by value")
                ||| exists|s1: State|
                    untouched(s, s1) && #[trigger] bounds_check_run(env, s1, base, index) == Some(
                        (t, Err::<BoundsCheckResult, Error>(error)),
                    )
            },
        },
{
    reveal(cache_run);
    reveal(value_run);
    reveal(access_value_run);
    reveal(vector_access_run);
    lemma_typed(env, s, expr);
    let ty = env.lookup(expr).unwrap();
    let (s0, typed) = s.type_id(env, ty).unwrap();
    if let Ok(type_id) = typed {
        assert(s0.type_id(env, ty) == Some((s0, Ok::<Word, Error>(type_id))));
        if shape(env, base) is Vector {
            let (s2, checked) = bounds_check_run(env, s0, base, index).unwrap();
            if let Ok(check) = checked {
                crate::pointer_laws::law_bounds_check(env, s0, base, index, s2, check);
                assert(s2.code.cached == s.code.cached) by {
                    reveal(crate::pointer_laws::kept);
                }
                if let BoundsCheckResult::Conditional(test) = check {
                    let (s3, guard) = guard_run(s2, type_id, test).unwrap();
                    let s4 = s3.fresh().unwrap();
                    let take = value_inst(
                        spirv::Op::VectorExtractDynamic,
                        type_id,
                        s4.id(),
                        seq![id_of(s, base), id_of(s, index)],
                    );
                    let middle = s4.push(take);
                    assert(middle.block.body =~= s3.block.body + seq![take]);
                    lemma_guarded(s2, type_id, test, seq![take], middle, s4.id());
                    lemma_guard_keeps_values(s2, type_id, test, middle, s4.id());
                    let u = unguard(middle, type_id, guard, s4.id());
                    assert(t == u.cache(expr, guard.result_id).unwrap());
                    assert(is_guarded_value(
                        s2,
                        t,
                        test,
                        seq![take],
                        type_id,
                        guard.result_id,
                        guard.merge,
                        guard.in_bounds,
                        guard.null_id,
                    ));
                }
                assert(is_component(s, s2, t, check, base, index, type_id, id_of(t, expr)));
            }
        }
    }
}

/// What is accessed of a pointer that is put off is put off in turn, whatever the
/// index is.
pub proof fn law_elements_of_pointers_wait(
    env: Env,
    s: State,
    expr: ExprHandle,
    base: ExprHandle,
    index: ExprHandle,
    t: State,
    result: Result<(), Error>,
)
    requires
        expr.0 < env.fun.expressions@.len(),
        env.fun.expressions@[expr.0 as int] == (Expression::Access { base, index }),
        put_off(env, s.code, base),
        cache_run(env, s, expr) == Some((t, result)),
    ensures
        match result {
            Ok(_) => evaluates(s, t, expr, seq![]) && id_of(t, expr) == 0,
            Err(_) => incapable(env, s, t, expr, result),
        },
{
    reveal(cache_run);
    reveal(value_run);
    reveal(access_value_run);
    lemma_typed(env, s, expr);
    assert(s.block.body + Seq::<Inst>::empty() =~= s.block.body);
}

/// What a value adds to the block, between asking for its type and caching it.
proof fn lemma_between(env: Env, s: State, expr: ExprHandle, t: State)
    requires
        expr.0 < env.fun.expressions@.len(),
        cache_run(env, s, expr) matches Some((after, Ok(_))) && after == t,
    ensures
        ({
            let (s1, typed) = s.type_id(env, env.lookup(expr).unwrap()).unwrap();
            let type_id = typed->Ok_0;
            &&& typed is Ok
            &&& untouched(s, s1)
            &&& value_run(env, s1, type_id, expr) matches Some((s2, Ok(id))) && {
                &&& t.block == s2.block
                &&& t.code.blocks == s2.code.blocks
                &&& t.code.writer == s2.code.writer
                &&& expr.0 < s2.code.cached.len()
                &&& t.code.cached == s2.code.cached.update(expr.0 as int, id)
                &&& id == id_of(t, expr)
                &&& holds(s2.code.writer.types, s1.code.writer.types) ==> is_type_id(
                    env,
                    t.code.writer,
                    expr,
                    type_id,
                )
            }
        }),
{
    reveal(cache_run);
    lemma_typed(env, s, expr);
    let (s1, typed) = s.type_id(env, env.lookup(expr).unwrap()).unwrap();
    if let Some((s2, Ok(_))) = value_run(env, s1, typed->Ok_0, expr) {
        if holds(s2.code.writer.types, s1.code.writer.types) {
            lemma_typed_later(env, s1.code.writer, t.code.writer, expr, typed->Ok_0);
        }
    }
}

/// What comes of an expression whose value cannot be had: its type cannot, or the
/// value itself.
proof fn lemma_between_error(env: Env, s: State, expr: ExprHandle, t: State, error: Error)
    requires
        expr.0 < env.fun.expressions@.len(),
        cache_run(env, s, expr) == Some((t, Err::<(), Error>(error))),
    ensures
        ({
            let (s1, typed) = s.type_id(env, env.lookup(expr).unwrap()).unwrap();
            ||| untouched(s, t) && is_type_lack(env, s, expr, error)
            ||| typed is Ok && untouched(s, s1) && value_run(env, s1, typed->Ok_0, expr) == Some(
                (t, Err::<Word, Error>(error)),
            )
        }),
{
    reveal(cache_run);
    lemma_typed(env, s, expr);
}

/// An image is loaded from as the expression says.
pub proof fn law_image_load_expression(
    env: Env,
    s: State,
    expr: ExprHandle,
    image: ExprHandle,
    coordinate: ExprHandle,
    array_index: Option<ExprHandle>,
    index: Option<ExprHandle>,
    t: State,
    result: Result<(), Error>,
)
    requires
        expr.0 < env.fun.expressions@.len(),
        env.fun.expressions@[expr.0 as int] == (Expression::ImageLoad {
            image,
            coordinate,
            array_index,
            index,
        }),
        array_index is Some ==> coordinate.0 < env.info.types@.len(),
        cache_run(env, s, expr) == Some((t, result)),
    ensures
        match result {
            Ok(_) => {
                let insts = t.block.body.skip(s.block.body.len() as int);
                &&& evaluates(s, t, expr, insts)
                &&& exists|type_id: Word, before: Seq<Inst>, at: Word, texel: Word| #[trigger]
                    is_load(
                        env,
                        s.code.cached,
                        t.code.writer,
                        insts,
                        type_id,
                        image,
                        coordinate,
                        array_index,
                        index,
                        id_of(t, expr),
                        before,
                        at,
                        texel,
                    ) && is_type_id(env, t.code.writer, expr, type_id)
            },
            Err(error) => {
                ||| is_type_lack(env, s, expr, error)
                ||| is_coordinate_error(env, coordinate, array_index, error)
            },
        },
{
    reveal(value_run);
    let (s1, typed) = s.type_id(env, env.lookup(expr).unwrap()).unwrap();
    match result {
        Ok(_) => {
            lemma_between(env, s, expr, t);
            let type_id = typed->Ok_0;
            let (s2, given) = image_load_run(
                env,
                s1,
                type_id,
                image,
                coordinate,
                array_index,
                index,
            ).unwrap();
            law_image_load(
                env,
                s1,
                type_id,
                image,
                coordinate,
                array_index,
                index,
                s2,
                given,
            );
        },
        Err(error) => {
            lemma_between_error(env, s, expr, t, error);
            if typed is Ok && value_run(env, s1, typed->Ok_0, expr) == Some(
                (t, Err::<Word, Error>(error)),
            ) {
                law_image_load(
                    env,
                    s1,
                    typed->Ok_0,
                    image,
                    coordinate,
                    array_index,
                    index,
                    t,
                    Err(error),
                );
            }
        },
    }
}

/// An image is sampled as the expression says.
pub proof fn law_image_sample_expression(
    env: Env,
    s: State,
    expr: ExprHandle,
    sample: Sample,
    t: State,
    result: Result<(), Error>,
)
    requires
        expr.0 < env.fun.expressions@.len(),
        env.fun.expressions@[expr.0 as int] == (Expression::ImageSample {
            image: sample.image,
            sampler: sample.sampler,
            coordinate: sample.coordinate,
            array_index: sample.array_index,
            offset: sample.offset,
            level: sample.level,
            depth_ref: sample.depth_ref,
        }),
        sample.array_index is Some ==> sample.coordinate.0 < env.info.types@.len(),
        cache_run(env, s, expr) == Some((t, result)),
    ensures
        match result {
            Ok(_) => {
                let insts = t.block.body.skip(s.block.body.len() as int);
                &&& evaluates(s, t, expr, insts)
                &&& exists|
                    type_id: Word,
                    before: Seq<Inst>,
                    at: Word,
                    combined: Inst,
                    texel: Inst,
                    choice: Seq<Word>,
                | #[trigger]
                    is_sample(
                        env,
                        s.code.cached,
                        t.code.writer,
                        insts,
                        type_id,
                        sample,
                        id_of(t, expr),
                        before,
                        at,
                        combined,
                        texel,
                        choice,
                    ) && is_type_id(env, t.code.writer, expr, type_id)
            },
            Err(error) => {
                ||| is_type_lack(env, s, expr, error)
                ||| is_coordinate_error(env, sample.coordinate, sample.array_index, error)
            },
        },
{
    reveal(value_run);
    let (s1, typed) = s.type_id(env, env.lookup(expr).unwrap()).unwrap();
    match result {
        Ok(_) => {
            lemma_between(env, s, expr, t);
            let (s2, given) = image_sample_run(env, s1, typed->Ok_0, sample).unwrap();
            law_image_sample(env, s1, typed->Ok_0, sample, s2, given);
        },
        Err(error) => {
            lemma_between_error(env, s, expr, t, error);
            if typed is Ok && value_run(env, s1, typed->Ok_0, expr) == Some(
                (t, Err::<Word, Error>(error)),
            ) {
                law_image_sample(env, s1, typed->Ok_0, sample, t, Err(error));
            }
        },
    }
}

/// An image is asked what the expression says.
pub proof fn law_image_query_expression(
    env: Env,
    s: State,
    expr: ExprHandle,
    image: ExprHandle,
    query: ImageQuery,
    t: State,
    result: Result<(), Error>,
)
    requires
        expr.0 < env.fun.expressions@.len(),
        env.fun.expressions@[expr.0 as int] == (Expression::ImageQuery { image, query }),
        cache_run(env, s, expr) == Some((t, result)),
    ensures
        match result {
            Ok(_) => {
                let insts = t.block.body.skip(s.block.body.len() as int);
                let id = id_of(t, expr);
                let w = t.code.writer;
                &&& evaluates(s, t, expr, insts)
                &&& w.capabilities.contains(spirv::Capability::ImageQuery)
                &&& exists|type_id: Word| #[trigger]
                    is_type_id(env, w, expr, type_id) && match query {
                        ImageQuery::Size { level } => exists|asked: Word| #[trigger]
                            is_size_query(
                                env,
                                s.code.cached,
                                w,
                                insts,
                                type_id,
                                image,
                                level,
                                id,
                                asked,
                            ),
                        ImageQuery::NumLevels => insts == seq![
                            value_inst(
                                spirv::Op::ImageQueryLevels,
                                type_id,
                                id,
                                seq![handle_of(env, image)],
                            ),
                        ],
                        ImageQuery::NumLayers => exists|asked: Word, zero: Word| #[trigger]
                            is_layer_query(env, w, insts, type_id, image, id, asked, zero),
                        ImageQuery::NumSamples => insts == seq![
                            value_inst(
                                spirv::Op::ImageQuerySamples,
                                type_id,
                                id,
                                seq![handle_of(env, image)],
                            ),
                        ],
                    }
            },
            Err(error) => {
                ||| is_type_lack(env, s, expr, error)
                ||| is_query_error(env, image, error)
            },
        },
{
    reveal(value_run);
    let (s1, typed) = s.type_id(env, env.lookup(expr).unwrap()).unwrap();
    match result {
        Ok(_) => {
            lemma_between(env, s, expr, t);
            let (s2, given) = image_query_run(env, s1, typed->Ok_0, image, query).unwrap();
            law_image_query(env, s1, typed->Ok_0, image, query, s2, given);
            assert(is_type_id(env, t.code.writer, expr, typed->Ok_0));
        },
        Err(error) => {
            lemma_between_error(env, s, expr, t, error);
            if typed is Ok && value_run(env, s1, typed->Ok_0, expr) == Some(
                (t, Err::<Word, Error>(error)),
            ) {
                law_image_query(env, s1, typed->Ok_0, image, query, t, Err(error));
            }
        },
    }
}

/// The length of an array is asked of the structure that it is in.
pub proof fn law_array_length(
    env: Env,
    s: State,
    expr: ExprHandle,
    array: ExprHandle,
    t: State,
    result: Result<(), Error>,
)
    requires
        expr.0 < env.fun.expressions@.len(),
        env.fun.expressions@[expr.0 as int] == Expression::ArrayLength(array),
        cache_run(env, s, expr) == Some((t, result)),
    ensures
        match result {
            Ok(_) => owner(env, array) matches Some((structure, member)) && {
                let ty = numbers(None, ScalarKind::Uint, 4);
                &&& t.code.writer.types.contains_key(ty)
                &&& evaluates(
                    s,
                    t,
                    expr,
                    seq![
                        value_inst(
                            spirv::Op::ArrayLength,
                            t.code.writer.types[ty],
                            id_of(t, expr),
                            seq![structure, member],
                        ),
                    ],
                )
            },
            Err(error) => {
                ||| incapable(env, s, t, expr, result)
                ||| untouched(s, t) && owner(env, array) is None && error == Error::Validation(
                    "array length expression",
                )
            },
        },
{
    reveal(cache_run);
    reveal(value_run);
    reveal(array_length_run);
    lemma_typed(env, s, expr);
    let ty = numbers(None, ScalarKind::Uint, 4);
    if let Some((s1, Ok(_))) = s.type_id(env, env.lookup(expr).unwrap()) {
        if let Some(s2) = s1.fresh() {
            lemma_type_found(env, s2, ty);
            lemma_type_error(s2.code.writer, env.strict(), ty);
            if result is Ok {
                assert(t.block.body =~= s.block.body + seq![t.block.body.last()]);
            }
        }
    }
}

/// The expressions of an emitted range are evaluated one after the other.
pub proof fn law_emit(
    env: Env,
    s: State,
    start: u32,
    end: u32,
    t: State,
    result: Result<(), Error>,
)
    requires
        plain_run(env, s, Statement::Emit { start, end }) == Some((t, result)),
    ensures
        start >= end ==> t == s && result is Ok,
        start < end ==> match cache_run(env, s, ExprHandle(start)) {
            Some((s1, Ok(_))) => plain_run(
                env,
                s1,
                Statement::Emit { start: (start + 1) as u32, end },
            ) == Some((t, result)),
            Some((s1, Err(error))) => t == s1 && result == Err::<(), Error>(error),
            None => false,
        },
{
}

/// A range of expressions can be emitted in two parts.
pub proof fn law_emit_in_parts(env: Env, s: State, start: u32, middle: u32, end: u32)
    requires
        start <= middle <= end,
    ensures
        emit_run(env, s, start, end) == match emit_run(env, s, start, middle) {
            Some((s1, Ok(_))) => emit_run(env, s1, middle, end),
            failed => failed,
        },
    decreases middle - start,
{
    if start < middle {
        if let Some((s1, Ok(_))) = cache_run(env, s, ExprHandle(start)) {
            law_emit_in_parts(env, s1, (start + 1) as u32, middle, end);
        }
    }
}

/// A barrier holds the work group up. What it does to memory reaches the device
/// where it is for storage buffers, and else the work group; it acquires and
/// releases the memory that it is for.
pub proof fn law_barrier(
    env: Env,
    s: State,
    flags: Barrier,
    t: State,
    result: Result<(), Error>,
)
    requires
        plain_run(env, s, Statement::Barrier(flags)) == Some((t, result)),
    ensures
        match result {
            Ok(_) => exists|execution: Word, memory: Word, semantics: Word|
                {
                    &&& #[trigger] is_uint(t.code.writer, 2, execution)
                    &&& #[trigger] is_uint(
                        t.code.writer,
                        barrier_scope(flags),
                        memory,
                    )
                    &&& #[trigger] is_uint(t.code.writer, barrier_mask(flags), semantics)
                    &&& t.block.label == s.block.label
                    &&& t.block.body == s.block.body.push(
                        effect_inst(
                            spirv::Op::ControlBarrier,
                            seq![execution, memory, semantics],
                        ),
                    )
                    &&& t.code.blocks == s.code.blocks
                    &&& t.code.cached == s.code.cached
                },
            Err(_) => false,
        },
{
    reveal(barrier_run);
    let scope: u32 = barrier_scope(flags) as u32;
    let mask: u32 = barrier_mask(flags) as u32;
    lemma_number_asked(env, s, 2);
    if let Some((s1, Ok(execution))) = s.index_id(env, 2) {
        lemma_number_asked(env, s1, scope);
        if let Some((s2, Ok(memory))) = s1.index_id(env, scope) {
            lemma_number_asked(env, s2, mask);
            if let Some((s3, Ok(semantics))) = s2.index_id(env, mask) {
                lemma_number_stays(s1, s2, 2, execution);
                lemma_number_stays(s2, s3, 2, execution);
                lemma_number_stays(s2, s3, scope, memory);
                assert(is_uint(t.code.writer, 2, execution));
                assert(is_uint(t.code.writer, barrier_scope(flags), memory));
                assert(is_uint(t.code.writer, barrier_mask(flags), semantics));
            }
        }
    }
}

/// The scope of a barrier's effect on memory.
pub open spec fn barrier_scope(flags: Barrier) -> int {
    if flags.storage {
        1
    } else {
        2
    }
}

/// The semantics of a barrier's effect on memory.
pub open spec fn barrier_mask(flags: Barrier) -> int {
    8 + (if flags.storage {
        64int
    } else {
        0
    }) + (if flags.work_group {
        256int
    } else {
        0
    })
}

/// What asking for a number does.
proof fn lemma_number_asked(env: Env, s: State, value: u32)
    ensures
        match s.index_id(env, value) {
            Some((t, result)) => {
                &&& untouched(s, t)
                &&& holds(t.code.writer.constants, s.code.writer.constants)
                &&& match result {
                    Ok(id) => is_uint(t.code.writer, value as int, id),
                    Err(_) => false,
                }
            },
            None => true,
        },
{
    let number = crate::ir::ScalarValue::Uint(value as u64);
    let w = s.code.writer;
    crate::growth::lemma_writer_constant_id(env.strict(), w, w, number, 4);
    if let Some(w1) = w.fresh() {
        lemma_type_error(w1, env.strict(), numbers(None, ScalarKind::Uint, 4));
    }
    if let Some((t, Ok(_))) = s.index_id(env, value) {
        assert(t.code.writer.constants.contains_key((number, 4u8)));
    }
}

/// A number keeps its id.
proof fn lemma_number_stays(s: State, t: State, value: u32, id: Word)
    requires
        is_uint(s.code.writer, value as int, id),
        holds(t.code.writer.constants, s.code.writer.constants),
    ensures
        is_uint(t.code.writer, value as int, id),
{
    let key = (crate::ir::ScalarValue::Uint(value as u64), 4u8);
    assert(s.code.writer.constants.contains_key(key));
    assert(t.code.writer.constants.contains_key(key));
}

/// A call passes the values of all arguments, in order, to the function. Its
/// result, if it has one, is the value of the expression that stands for it.
pub proof fn law_call(
    env: Env,
    s: State,
    function: FunctionHandle,
    arguments: Vec<ExprHandle>,
    result: Option<ExprHandle>,
    t: State,
    done: Result<(), Error>,
)
    requires
        plain_run(env, s, Statement::Call { function, arguments, result }) == Some((t, done)),
    ensures
        match done {
            Ok(_) => {
                let call = t.block.body.last();
                let id = call.result_id.unwrap();
                let type_id = call.type_id.unwrap();
                &&& t.block.label == s.block.label
                &&& t.code.blocks == s.code.blocks
                &&& s.id() < id
                &&& t.block.body == s.block.body.push(
                    value_inst(
                        spirv::Op::FunctionCall,
                        type_id,
                        id,
                        seq![env.writer.functions[function.0]] + Seq::new(
                            arguments@.len(),
                            |i: int| id_of(s, arguments@[i]),
                        ),
                    ),
                )
                &&& match result {
                    Some(expr) => {
                        let ty = env.module.functions@[function.0 as int].result.unwrap().ty;
                        &&& is_id_of(t.code.writer, LookupType::Handle(ty), type_id)
                        &&& t.code.cached == s.code.cached.update(expr.0 as int, id)
                        &&& t.code.writer.calls == s.code.writer.calls.insert(expr.0, id)
                    },
                    None => {
                        &&& type_id == env.writer.void_type
                        &&& t.code.cached == s.code.cached
                        &&& t.code.writer.calls == s.code.writer.calls
                    },
                }
            },
            Err(_) => false,
        },
{
    reveal(call_run);
    reveal(call_type_run);
    let s1 = s.fresh().unwrap();
    if let Some(expr) = result {
        let ty = LookupType::Handle(env.module.functions@[function.0 as int].result.unwrap().ty);
        let s2 = State {
            code: Code {
                writer: s1.code.writer.with_call(expr.0, s1.id()),
                cached: s1.code.cached.update(expr.0 as int, s1.id()),
                ..s1.code
            },
            ..s1
        };
        lemma_type_found(env, s2, ty);
        lemma_type_error(s2.code.writer, env.strict(), ty);
    }
    if done is Ok {
        let call = t.block.body.last();
        let passed = Seq::new(arguments@.len(), |i: int| id_of(s, arguments@[i]));
        assert forall|i: int| 0 <= i < arguments@.len() implies #[trigger] operands(
            s.code,
            arguments@,
        ).unwrap()[i] == passed[i] by {
            assert(s.code.operand(arguments@[i]) is Some);
        }
        assert(operands(s.code, arguments@).unwrap() =~= passed);
        assert(call.operands =~= seq![env.writer.functions[function.0]] + passed);
    }
}

/// A texel is stored as the statement says.
pub proof fn law_image_store_statement(
    env: Env,
    s: State,
    image: ExprHandle,
    coordinate: ExprHandle,
    array_index: Option<ExprHandle>,
    value: ExprHandle,
    t: State,
    result: Result<(), Error>,
)
    requires
        plain_run(
            env,
            s,
            Statement::ImageStore { image, coordinate, array_index, value },
        ) == Some((t, result)),
        array_index is Some ==> coordinate.0 < env.info.types@.len(),
    ensures
        match result {
            Ok(_) => {
                let insts = t.block.body.skip(s.block.body.len() as int);
                &&& t.block.body == s.block.body + insts
                &&& t.block.label == s.block.label
                &&& t.code.blocks == s.code.blocks
                &&& t.code.cached == s.code.cached
                &&& exists|at: Word| #[trigger]
                    is_coordinates(
                        env,
                        s.code.cached,
                        t.code.writer,
                        insts.drop_last(),
                        coordinate,
                        array_index,
                        at,
                    ) && insts.len() > 0 && insts.last() == effect_inst(
                        spirv::Op::ImageWrite,
                        seq![handle_of(env, image), at, id_of(s, value)],
                    )
            },
            Err(error) => is_coordinate_error(env, coordinate, array_index, error),
        },
{
    law_image_store(env, s, image, coordinate, array_index, value, t, result);
}

/// An expression is put off if it is a pointer that is not a value of its own.
pub proof fn law_put_off(env: Env, code: Code, expr: ExprHandle, waits: bool)
    requires
        intermediate(env, code, expr) == Some(waits),
    ensures
        waits <==> put_off(env, code, expr),
{
}

/// Images and samplers are those that variables and parameters hold.
pub proof fn law_image_handle(env: Env, expr: ExprHandle, id: Word)
    requires
        image_id(env, expr) == Some(id),
    ensures
        id == handle_of(env, expr),
        id != 0,
{
}

/// Only an expression that has a value can be an operand, and the value is that
/// which it was given last.
pub proof fn law_operands_have_values(s: State, expr: ExprHandle, id: Word, later: State)
    requires
        s.cache(expr, id) == Some(later),
    ensures
        later.operand(expr) == if id != 0 {
            Some(id)
        } else {
            None
        },
        forall|other: ExprHandle|
            other != expr ==> #[trigger] later.operand(other) == s.operand(other),
        forall|other: ExprHandle| (#[trigger] s.operand(other)) matches Some(value)
            ==> has_value(s, other) && value == id_of(s, other),
{
}

} // verus!
