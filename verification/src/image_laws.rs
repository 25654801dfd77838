//! The laws of images: what is read, sampled, written and asked of them, and at
//! which coordinates.

use spirv::Word;
use vstd::prelude::*;
use crate::context::{Env, State};
use crate::declarations::{is_lack, is_missing};
use crate::growth::{holds, lemma_writer_constant_id};
use crate::image::{
    cast_index_run, components_run, coordinates_run, extend_run, first_component_run,
    image_load_run, image_query_run, image_sample_run, layer_run, level_run, plain_query_run,
    query_layers_run, query_level_run, query_size_run, sample_inst_run, sample_type_run,
    sampled_image_type_run, trim_size_run, Sample,
};
use crate::instruction::Inst;
use crate::ir::{
    Bytes, ConstantHandle, ExprHandle, Expression, ImageClass, ImageDimension, ImageQuery,
    SampleLevel, ScalarKind, ScalarValue, TypeInner, VectorSize,
};
use crate::laws::{lemma_components_emitted, lemma_type_error, lemma_type_found};
use crate::meaning::{components, effect_inst, id_of, is_id_of, is_uint, numbers, shape, value_inst};
use crate::run::Error;
use crate::statement::image_store_run;
use crate::types::{LocalType, LookupType};
use crate::writer::WriterState;

verus! {

/// The kind and the width of the numbers that coordinates are made of. Booleans
/// count as 32-bit floating-point numbers.
pub open spec fn number_of_coordinates(inner: TypeInner) -> Option<(ScalarKind, Bytes)> {
    let found = match inner {
        TypeInner::Scalar { kind, width } => Some((kind, width)),
        TypeInner::Vector { kind, width, .. } => Some((kind, width)),
        _ => None,
    };
    match found {
        Some((ScalarKind::Bool, _)) => Some((ScalarKind::Float, 4u8)),
        found => found,
    }
}

/// How many numbers coordinates are.
pub open spec fn coordinate_numbers(inner: TypeInner) -> nat {
    match inner {
        TypeInner::Vector { size, .. } => components(size),
        _ => 1,
    }
}

/// The size of a vector of some number of components. One is no vector.
pub open spec fn sized(count: nat) -> Option<VectorSize> {
    if count == 2 {
        Some(VectorSize::Bi)
    } else if count == 3 {
        Some(VectorSize::Tri)
    } else if count == 4 {
        Some(VectorSize::Quad)
    } else {
        None
    }
}

/// Whether a list of instructions turns the 32-bit unsigned integer `from` into
/// the number `to` of some kind and width.
pub open spec fn converted(
    w: WriterState,
    insts: Seq<Inst>,
    kind: ScalarKind,
    width: Bytes,
    from: Word,
    to: Word,
) -> bool {
    let ty = w.types[numbers(None, kind, width)];
    let unsigned = numbers(None, ScalarKind::Uint, width);
    match kind {
        ScalarKind::Uint => if width == 4 {
            insts == Seq::<Inst>::empty() && to == from
        } else {
            insts == seq![value_inst(spirv::Op::UConvert, ty, to, seq![from])]
        },
        ScalarKind::Sint => if width == 4 {
            insts == seq![value_inst(spirv::Op::Bitcast, ty, to, seq![from])]
        } else {
            let middle = insts[0].result_id.unwrap();
            &&& w.types.contains_key(unsigned)
            &&& insts == seq![
                value_inst(spirv::Op::UConvert, w.types[unsigned], middle, seq![from]),
                value_inst(spirv::Op::Bitcast, ty, to, seq![middle]),
            ]
        },
        ScalarKind::Float => {
            insts == seq![value_inst(spirv::Op::ConvertUToF, ty, to, seq![from])]
        },
        ScalarKind::Bool => false,
    }
}

/// The instructions that take all components of a vector apart.
pub open spec fn extracted(type_id: Word, vector: Word, parts: Seq<Word>) -> Seq<Inst> {
    Seq::new(
        parts.len(),
        |i: int|
            value_inst(
                spirv::Op::CompositeExtract,
                type_id,
                parts[i],
                seq![vector, i as Word],
            ),
    )
}

/// Whether a list of instructions makes a vector of coordinates and an array
/// index: of the components of the coordinates, and after them of the array
/// index as a number of the same type.
pub open spec fn is_extended(
    env: Env,
    values: Seq<Word>,
    w: WriterState,
    insts: Seq<Inst>,
    coordinates: ExprHandle,
    array_index: ExprHandle,
    id: Word,
    parts: Seq<Word>,
    conversion: Seq<Inst>,
    layer: Word,
) -> bool {
    let inner = shape(env, coordinates);
    let count = coordinate_numbers(inner);
    let (kind, width) = number_of_coordinates(inner).unwrap();
    let component = numbers(None, kind, width);
    let vector = numbers(sized(count + 1), kind, width);
    &&& number_of_coordinates(inner) is Some
    &&& sized(count + 1) is Some
    &&& w.types.contains_key(component)
    &&& w.types.contains_key(vector)
    &&& parts.len() == count
    &&& converted(w, conversion, kind, width, values[array_index.0 as int], layer)
    &&& inner is Scalar ==> parts == seq![values[coordinates.0 as int]]
    &&& insts == (if inner is Vector {
        extracted(w.types[component], values[coordinates.0 as int], parts)
    } else {
        Seq::empty()
    }) + conversion + seq![
        value_inst(
            spirv::Op::CompositeConstruct,
            w.types[vector],
            id,
            parts.push(layer),
        ),
    ]
}

/// Whether a list of instructions gives coordinates: the value of the
/// coordinates itself, unless there is an array index to add to it.
pub open spec fn is_coordinates(
    env: Env,
    values: Seq<Word>,
    w: WriterState,
    insts: Seq<Inst>,
    coordinates: ExprHandle,
    array_index: Option<ExprHandle>,
    id: Word,
) -> bool {
    match array_index {
        None => insts == Seq::<Inst>::empty() && id == values[coordinates.0 as int],
        Some(array_index) => exists|parts: Seq<Word>, conversion: Seq<Inst>, layer: Word| #[trigger]
            is_extended(
                env,
                values,
                w,
                insts,
                coordinates,
                array_index,
                id,
                parts,
                conversion,
                layer,
            ),
    }
}

/// Whether an error is one that coordinates account for: only scalars and
/// vectors can be extended, and not vectors of four components.
pub open spec fn is_coordinate_error(
    env: Env,
    coordinates: ExprHandle,
    array_index: Option<ExprHandle>,
    error: Error,
) -> bool {
    let inner = shape(env, coordinates);
    ||| array_index is Some && is_lack(number_of_coordinates(inner), error)
    ||| error == Error::Validation("coordinate type") && array_index is Some
        && number_of_coordinates(inner) is None
    ||| error == Error::Validation("extending vec4 coordinate") && array_index is Some && (
    inner matches TypeInner::Vector { size: VectorSize::Quad, .. })
}

/// Whether a step has only added some instructions to the current block.
pub open spec fn adds(s: State, t: State, insts: Seq<Inst>) -> bool {
    &&& t.block.label == s.block.label
    &&& t.block.body == s.block.body + insts
    &&& t.code.blocks == s.code.blocks
    &&& t.code.cached == s.code.cached
    &&& holds(t.code.writer.types, s.code.writer.types)
}

/// What a step of a conversion adds.
proof fn lemma_cast_adds(s: State, op: spirv::Op, type_id: Word, from: Word)
    ensures
        match cast_index_run(s, op, type_id, from) {
            Some((t, Ok(id))) => adds(s, t, seq![value_inst(op, type_id, id, seq![from])])
                && t.code.writer.types == s.code.writer.types,
            Some(_) => false,
            None => true,
        },
{
    if let Some((t, Ok(id))) = cast_index_run(s, op, type_id, from) {
        assert(t.block.body =~= s.block.body + seq![value_inst(op, type_id, id, seq![from])]);
    }
}

/// What the conversion of an array index adds.
proof fn lemma_layer_adds(
    env: Env,
    s: State,
    kind: ScalarKind,
    width: Bytes,
    type_id: Word,
    from: Word,
) -> (insts: Seq<Inst>)
    requires
        is_id_of(s.code.writer, numbers(None, kind, width), type_id),
    ensures
        match layer_run(env, s, type_id, kind, width, from) {
            Some((t, Ok(id))) => {
                &&& adds(s, t, insts)
                &&& converted(t.code.writer, insts, kind, width, from, id)
            },
            Some((_, Err(error))) => is_lack(Some((kind, width)), error),
            None => true,
        },
{
    reveal(layer_run);
    let unsigned = numbers(None, ScalarKind::Uint, width);
    lemma_cast_adds(s, spirv::Op::UConvert, type_id, from);
    lemma_cast_adds(s, spirv::Op::Bitcast, type_id, from);
    lemma_cast_adds(s, spirv::Op::ConvertUToF, type_id, from);
    let run = layer_run(env, s, type_id, kind, width, from);
    let insts = match run {
        Some((t, Ok(_))) => t.block.body.skip(s.block.body.len() as int),
        _ => Seq::empty(),
    };
    if kind == ScalarKind::Sint && width != 4 {
        lemma_type_found(env, s, unsigned);
        lemma_type_error(s.code.writer, env.strict(), unsigned);
        if let Some((s1, Ok(unsigned_id))) = s.type_id(env, unsigned) {
            lemma_cast_adds(s1, spirv::Op::UConvert, unsigned_id, from);
            if let Some((s2, Ok(middle))) = cast_index_run(
                s1,
                spirv::Op::UConvert,
                unsigned_id,
                from,
            ) {
                lemma_cast_adds(s2, spirv::Op::Bitcast, type_id, middle);
                if let Some((t, Ok(id))) = run {
                    let both = seq![
                        value_inst(spirv::Op::UConvert, unsigned_id, middle, seq![from]),
                        value_inst(spirv::Op::Bitcast, type_id, id, seq![middle]),
                    ];
                    assert(t.block.body =~= s.block.body + both);
                    assert(insts =~= both);
                    assert(insts[0].result_id == Some(middle));
                }
            }
        }
    } else if let Some((t, Ok(id))) = run {
        if kind == ScalarKind::Uint && width == 4 {
            assert(insts =~= Seq::<Inst>::empty());
            assert(t.block.body =~= s.block.body + insts);
        } else {
            let inst = t.block.body.last();
            assert(insts =~= seq![inst]);
            assert(t.block.body =~= s.block.body + insts);
        }
    }
    insts
}

/// What the components of a vector add.
proof fn lemma_parts_add(s: State, type_id: Word, vector: Word, count: nat)
    ensures
        match components_run(s, type_id, vector, count) {
            Some(t) => {
                let parts = Seq::new(count, |i: int| (s.id() + 1 + i) as Word);
                &&& adds(s, t, extracted(type_id, vector, parts))
                &&& t.code.writer.types == s.code.writer.types
            },
            None => true,
        },
{
    lemma_components_emitted(s, type_id, vector, count);
    if let Some(t) = components_run(s, type_id, vector, count) {
        let parts = Seq::new(count, |i: int| (s.id() + 1 + i) as Word);
        assert(t.block.body =~= s.block.body + extracted(type_id, vector, parts));
    }
}

/// What an array index and the vector that it completes add.
proof fn lemma_extend_adds(
    env: Env,
    s: State,
    kind: ScalarKind,
    width: Bytes,
    type_id: Word,
    parts: Seq<Word>,
    size: VectorSize,
    array_index: ExprHandle,
) -> (added: (Seq<Inst>, Word))
    requires
        is_id_of(s.code.writer, numbers(None, kind, width), type_id),
    ensures
        match extend_run(env, s, type_id, kind, width, parts, size, array_index) {
            Some((t, Ok(id))) => {
                let vector = numbers(Some(size), kind, width);
                let built = value_inst(
                    spirv::Op::CompositeConstruct,
                    t.code.writer.types[vector],
                    id,
                    parts.push(added.1),
                );
                &&& t.code.writer.types.contains_key(vector)
                &&& adds(s, t, added.0 + seq![built])
                &&& converted(
                    t.code.writer,
                    added.0,
                    kind,
                    width,
                    id_of(s, array_index),
                    added.1,
                )
            },
            Some((_, Err(error))) => is_lack(Some((kind, width)), error),
            None => true,
        },
{
    reveal(extend_run);
    let from = id_of(s, array_index);
    let conversion = lemma_layer_adds(env, s, kind, width, type_id, from);
    if let Some((s1, Ok(layer))) = layer_run(env, s, type_id, kind, width, from) {
        let vector = numbers(Some(size), kind, width);
        lemma_type_found(env, s1, vector);
        lemma_type_error(s1.code.writer, env.strict(), vector);
        if let Some((t, Ok(id))) = extend_run(
            env,
            s,
            type_id,
            kind,
            width,
            parts,
            size,
            array_index,
        ) {
            let built = t.block.body.last();
            assert(t.block.body =~= s.block.body + (conversion + seq![built]));
            assert(converted(t.code.writer, conversion, kind, width, from, layer));
        }
        (conversion, layer)
    } else {
        (conversion, 0)
    }
}

/// Coordinates are given as they are, or, where there is an array index, as a
/// vector of their components and of the array index after them.
pub proof fn law_coordinates(
    env: Env,
    s: State,
    coordinates: ExprHandle,
    array_index: Option<ExprHandle>,
    t: State,
    result: Result<Word, Error>,
)
    requires
        coordinates_run(env, s, coordinates, array_index) == Some((t, result)),
        array_index is Some ==> coordinates.0 < env.info.types@.len(),
    ensures
        match result {
            Ok(id) => {
                let insts = t.block.body.skip(s.block.body.len() as int);
                &&& adds(s, t, insts)
                &&& is_coordinates(
                    env,
                    s.code.cached,
                    t.code.writer,
                    insts,
                    coordinates,
                    array_index,
                    id,
                )
            },
            Err(error) => is_coordinate_error(env, coordinates, array_index, error),
        },
{
    reveal(coordinates_run);
    let insts = t.block.body.skip(s.block.body.len() as int);
    if let Some(array_index) = array_index {
        let inner = shape(env, coordinates);
        assert(env.inner(coordinates) == Some(inner));
        let found = number_of_coordinates(inner);
        let component = match found {
            Some((kind, width)) => numbers(None, kind, width),
            None => numbers(None, ScalarKind::Float, 4),
        };
        lemma_type_found(env, s, component);
        lemma_type_error(s.code.writer, env.strict(), component);
        if let (Some((s1, Ok(type_id))), Some((kind, width))) = (s.type_id(env, component), found) {
            let count = coordinate_numbers(inner);
            let id = id_of(s, coordinates);
            lemma_parts_add(s1, type_id, id, count);
            let (s2, parts) = if inner is Vector {
                match components_run(s1, type_id, id, count) {
                    Some(s2) => (s2, Seq::new(count, |i: int| (s1.id() + 1 + i) as Word)),
                    None => (s1, seq![id]),
                }
            } else {
                (s1, seq![id])
            };
            let taken = if inner is Vector {
                extracted(type_id, id, parts)
            } else {
                Seq::empty()
            };
            let (conversion, layer) = lemma_extend_adds(
                env,
                s2,
                kind,
                width,
                type_id,
                parts,
                sized(count + 1).unwrap(),
                array_index,
            );
            if let Ok(made) = result {
                let vector = numbers(sized(count + 1), kind, width);
                let built = value_inst(
                    spirv::Op::CompositeConstruct,
                    t.code.writer.types[vector],
                    made,
                    parts.push(layer),
                );
                let all = taken + conversion + seq![built];
                assert(t.block.body =~= s.block.body + all);
                assert(insts =~= all);
                assert(is_extended(
                    env,
                    s.code.cached,
                    t.code.writer,
                    insts,
                    coordinates,
                    array_index,
                    made,
                    parts,
                    conversion,
                    layer,
                ));
            }
        }
    } else {
        assert(insts =~= Seq::<Inst>::empty());
        assert(t.block.body =~= s.block.body + insts);
    }
}

/// The id of an image or a sampler: of what a global variable or a parameter
/// holds.
pub open spec fn handle_of(env: Env, expr: ExprHandle) -> Word {
    match env.fun.expressions@[expr.0 as int] {
        Expression::GlobalVariable(handle) => {
            env.writer.global_variables[handle.0 as int].handle_id
        },
        Expression::FunctionArgument(index) => env.function.parameters[index as int].handle_id,
        _ => 0,
    }
}

/// Whether an expression is a depth image.
pub open spec fn has_depth(env: Env, image: ExprHandle) -> bool {
    shape(env, image) matches TypeInner::Image { class: ImageClass::Depth { .. }, .. }
}

/// Whether an expression is an image of several samples a texel.
pub open spec fn has_samples(env: Env, image: ExprHandle) -> bool {
    match shape(env, image) {
        TypeInner::Image { class: ImageClass::Sampled { multi, .. }, .. } => multi,
        TypeInner::Image { class: ImageClass::Depth { multi }, .. } => multi,
        _ => false,
    }
}

/// Vectors of four floating-point numbers, which depth images give.
pub open spec fn texel_type() -> LookupType {
    numbers(Some(VectorSize::Quad), ScalarKind::Float, 4)
}

/// Whether a list of instructions loads a texel: reads it from a storage image,
/// or fetches it from any other, at a level of detail or, where there are
/// several, a sample of it. Of the vector that a depth image gives, the first
/// component is the depth.
pub open spec fn is_load(
    env: Env,
    values: Seq<Word>,
    w: WriterState,
    insts: Seq<Inst>,
    type_id: Word,
    image: ExprHandle,
    coordinate: ExprHandle,
    array_index: Option<ExprHandle>,
    index: Option<ExprHandle>,
    id: Word,
    before: Seq<Inst>,
    at: Word,
    texel: Word,
) -> bool {
    let found = if has_depth(env, image) {
        w.types[texel_type()]
    } else {
        type_id
    };
    let op = if shape(env, image) matches TypeInner::Image { class: ImageClass::Storage, .. } {
        spirv::Op::ImageRead
    } else {
        spirv::Op::ImageFetch
    };
    let chosen = match index {
        Some(index) => seq![
            if has_samples(env, image) {
                64u32
            } else {
                2u32
            },
            values[index.0 as int],
        ],
        None => Seq::empty(),
    };
    &&& is_coordinates(env, values, w, before, coordinate, array_index, at)
    &&& has_depth(env, image) ==> w.types.contains_key(texel_type())
    &&& insts == before + seq![
        value_inst(op, found, texel, seq![handle_of(env, image), at] + chosen),
    ] + (if found == type_id {
        Seq::empty()
    } else {
        seq![value_inst(spirv::Op::CompositeExtract, type_id, id, seq![texel, 0])]
    })
    &&& found == type_id ==> id == texel
}

/// A texel is loaded from the image at the coordinates, with the array index if
/// there is one.
pub proof fn law_image_load(
    env: Env,
    s: State,
    type_id: Word,
    image: ExprHandle,
    coordinate: ExprHandle,
    array_index: Option<ExprHandle>,
    index: Option<ExprHandle>,
    t: State,
    result: Result<Word, Error>,
)
    requires
        image_load_run(env, s, type_id, image, coordinate, array_index, index) == Some(
            (t, result),
        ),
        array_index is Some ==> coordinate.0 < env.info.types@.len(),
    ensures
        match result {
            Ok(id) => {
                let insts = t.block.body.skip(s.block.body.len() as int);
                &&& adds(s, t, insts)
                &&& exists|before: Seq<Inst>, at: Word, texel: Word| #[trigger]
                    is_load(
                        env,
                        s.code.cached,
                        t.code.writer,
                        insts,
                        type_id,
                        image,
                        coordinate,
                        array_index,
                        index,
                        id,
                        before,
                        at,
                        texel,
                    )
            },
            Err(error) => is_coordinate_error(env, coordinate, array_index, error),
        },
{
    reveal(image_load_run);
    reveal(first_component_run);
    let (s1, located) = coordinates_run(env, s, coordinate, array_index).unwrap();
    law_coordinates(env, s, coordinate, array_index, s1, located);
    if let Ok(at) = located {
        let before = s1.block.body.skip(s.block.body.len() as int);
        let s2 = s1.fresh().unwrap();
        lemma_type_found(env, s2, texel_type());
        lemma_type_error(s2.code.writer, env.strict(), texel_type());
        if let Ok(id) = result {
            let insts = t.block.body.skip(s.block.body.len() as int);
            let load = t.block.body[s1.block.body.len() as int];
            let found = load.type_id.unwrap();
            let rest = if found == type_id {
                Seq::empty()
            } else {
                seq![t.block.body.last()]
            };
            assert(insts =~= before + seq![load] + rest);
            assert(t.block.body =~= s.block.body + insts);
            let chosen = load.operands.skip(2);
            assert(load.operands =~= seq![handle_of(env, image), at] + chosen);
            if let Some(index) = index {
                assert(chosen =~= seq![
                    if has_samples(env, image) {
                        64u32
                    } else {
                        2u32
                    },
                    id_of(s, index),
                ]);
            } else {
                assert(chosen =~= Seq::<Word>::empty());
            }
            lemma_coordinates_later(
                env,
                s,
                s,
                s1.code.writer,
                t.code.writer,
                before,
                coordinate,
                array_index,
                at,
            );
            assert(is_load(
                env,
                s.code.cached,
                t.code.writer,
                insts,
                type_id,
                image,
                coordinate,
                array_index,
                index,
                id,
                before,
                at,
                load.result_id.unwrap(),
            ));
        }
    }
}

/// Coordinates stay what they are while types are added to the module.
proof fn lemma_coordinates_later(
    env: Env,
    s: State,
    s1: State,
    w: WriterState,
    w1: WriterState,
    insts: Seq<Inst>,
    coordinates: ExprHandle,
    array_index: Option<ExprHandle>,
    id: Word,
)
    requires
        is_coordinates(env, s.code.cached, w, insts, coordinates, array_index, id),
        s1.code.cached == s.code.cached,
        holds(w1.types, w.types),
    ensures
        is_coordinates(env, s1.code.cached, w1, insts, coordinates, array_index, id),
{
    if let Some(array_index) = array_index {
        let (parts, conversion, layer) = choose|
            parts: Seq<Word>,
            conversion: Seq<Inst>,
            layer: Word,
        | #[trigger]
            is_extended(
                env,
                s.code.cached,
                w,
                insts,
                coordinates,
                array_index,
                id,
                parts,
                conversion,
                layer,
            );
        assert(is_extended(
            env,
            s1.code.cached,
            w1,
            insts,
            coordinates,
            array_index,
            id,
            parts,
            conversion,
            layer,
        ));
    }
}

/// A texel is written to the image at the coordinates, with the array index if
/// there is one.
pub proof fn law_image_store(
    env: Env,
    s: State,
    image: ExprHandle,
    coordinate: ExprHandle,
    array_index: Option<ExprHandle>,
    value: ExprHandle,
    t: State,
    result: Result<(), Error>,
)
    requires
        image_store_run(env, s, image, coordinate, array_index, value) == Some((t, result)),
        array_index is Some ==> coordinate.0 < env.info.types@.len(),
    ensures
        match result {
            Ok(_) => {
                let insts = t.block.body.skip(s.block.body.len() as int);
                &&& adds(s, t, insts)
                &&& exists|at: Word| #[trigger]
                    is_coordinates(
                        env,
                        s.code.cached,
                        t.code.writer,
                        insts.drop_last(),
                        coordinate,
                        array_index,
                        at,
                    ) && insts.len() > 0 && insts.last() == effect_inst(
                        spirv::Op::ImageWrite,
                        seq![handle_of(env, image), at, id_of(s, value)],
                    )
            },
            Err(error) => is_coordinate_error(env, coordinate, array_index, error),
        },
{
    reveal(image_store_run);
    let (s1, located) = coordinates_run(env, s, coordinate, array_index).unwrap();
    law_coordinates(env, s, coordinate, array_index, s1, located);
    if let Ok(at) = located {
        let before = s1.block.body.skip(s.block.body.len() as int);
        let insts = t.block.body.skip(s.block.body.len() as int);
        assert(insts.drop_last() =~= before);
        assert(t.block.body =~= s.block.body + insts);
        assert(insts.last() == t.block.body.last());
        assert(is_coordinates(
            env,
            s.code.cached,
            t.code.writer,
            insts.drop_last(),
            coordinate,
            array_index,
            at,
        ));
    }
}

/// Whether a list of words is the optional operands of a sample: a mask of those
/// that are there, then those that choose the level of detail, then the offset.
/// The mask is left out if there are none.
pub open spec fn is_sample_choice(
    env: Env,
    values: Seq<Word>,
    w: WriterState,
    level: SampleLevel,
    offset: Option<ConstantHandle>,
    words: Seq<Word>,
) -> bool {
    let shift: int = if offset is Some {
        8
    } else {
        0
    };
    let moved = match offset {
        Some(offset) => seq![env.writer.constant_ids[offset.0 as int]],
        None => Seq::empty(),
    };
    match level {
        SampleLevel::Auto => words == (if offset is Some {
            seq![8u32]
        } else {
            Seq::empty()
        }) + moved,
        SampleLevel::Bias(bias) => words == seq![
            (1 + shift) as Word,
            values[bias.0 as int],
        ] + moved,
        SampleLevel::Exact(lod) => words == seq![(2 + shift) as Word, values[lod.0 as int]] + moved,
        SampleLevel::Zero => exists|key: (ScalarValue, Bytes)|
            key.0 == ScalarValue::Float(0) && key.1 == 4 && #[trigger] w.constants.contains_key(
                key,
            ) && words == seq![(2 + shift) as Word, w.constants[key]] + moved,
        SampleLevel::Gradient { x, y } => words == seq![
            (4 + shift) as Word,
            values[x.0 as int],
            values[y.0 as int],
        ] + moved,
    }
}

/// Whether a list of instructions samples an image: combines it with the sampler
/// and samples it at the coordinates, with a comparison if there is a depth to
/// compare with, at the level of detail that is asked for. A depth image that is
/// not compared gives a vector, of which the first component is the depth.
pub open spec fn is_sample(
    env: Env,
    values: Seq<Word>,
    w: WriterState,
    insts: Seq<Inst>,
    type_id: Word,
    sample: Sample,
    id: Word,
    before: Seq<Inst>,
    at: Word,
    combined: Inst,
    texel: Inst,
    choice: Seq<Word>,
) -> bool {
    let plain_depth = has_depth(env, sample.image) && sample.depth_ref is None;
    let explicit = sample.level is Zero || sample.level is Exact || sample.level is Gradient;
    let image_ty = env.info.types@[sample.image.0 as int]->Handle_0;
    let image_type = w.types[LookupType::Handle(image_ty)];
    let combined_ty = LookupType::Local(LocalType::SampledImage { image_type_id: image_type });
    let compared = match sample.depth_ref {
        Some(depth_ref) => seq![values[depth_ref.0 as int]],
        None => Seq::empty(),
    };
    &&& is_coordinates(env, values, w, before, sample.coordinate, sample.array_index, at)
    &&& is_sample_choice(env, values, w, sample.level, sample.offset, choice)
    &&& w.types.contains_key(LookupType::Handle(image_ty))
    &&& w.types.contains_key(combined_ty)
    &&& combined.result_id is Some
    &&& combined == value_inst(
        spirv::Op::SampledImage,
        w.types[combined_ty],
        combined.result_id.unwrap(),
        seq![handle_of(env, sample.image), handle_of(env, sample.sampler)],
    )
    &&& texel.result_id is Some
    &&& plain_depth ==> w.types.contains_key(texel_type())
    &&& texel == value_inst(
        if sample.depth_ref is Some {
            if explicit {
                spirv::Op::ImageSampleDrefExplicitLod
            } else {
                spirv::Op::ImageSampleDrefImplicitLod
            }
        } else {
            if explicit {
                spirv::Op::ImageSampleExplicitLod
            } else {
                spirv::Op::ImageSampleImplicitLod
            }
        },
        if plain_depth {
            w.types[texel_type()]
        } else {
            type_id
        },
        texel.result_id.unwrap(),
        seq![combined.result_id.unwrap(), at] + compared + choice,
    )
    &&& insts == before + seq![combined, texel] + (if plain_depth {
        seq![
            value_inst(
                spirv::Op::CompositeExtract,
                type_id,
                id,
                seq![texel.result_id.unwrap(), 0],
            ),
        ]
    } else {
        Seq::empty()
    })
    &&& !plain_depth ==> texel.result_id == Some(id)
}

/// What the sample instruction itself adds.
proof fn lemma_sample_inst(
    env: Env,
    s: State,
    type_id: Word,
    combined: Word,
    at: Word,
    sample: Sample,
    t: State,
    id: Word,
)
    requires
        sample_inst_run(env, s, type_id, combined, at, sample) == Some((t, Ok::<Word, Error>(id))),
    ensures
        ({
            let texel = t.block.body.last();
            let compared = match sample.depth_ref {
                Some(depth_ref) => seq![id_of(s, depth_ref)],
                None => Seq::empty(),
            };
            let explicit = sample.level is Zero || sample.level is Exact
                || sample.level is Gradient;
            let choice = texel.operands.skip(2 + compared.len() as int);
            &&& adds(s, t, seq![texel])
            &&& is_sample_choice(
                env,
                s.code.cached,
                t.code.writer,
                sample.level,
                sample.offset,
                choice,
            )
            &&& texel.op == if sample.depth_ref is Some {
                if explicit {
                    spirv::Op::ImageSampleDrefExplicitLod
                } else {
                    spirv::Op::ImageSampleDrefImplicitLod
                }
            } else {
                if explicit {
                    spirv::Op::ImageSampleExplicitLod
                } else {
                    spirv::Op::ImageSampleImplicitLod
                }
            }
            &&& texel.type_id == Some(type_id)
            &&& texel.result_id == Some(id)
            &&& texel.operands == seq![combined, at] + compared + choice
        }),
{
    reveal(sample_inst_run);
    reveal(level_run);
    let texel = t.block.body.last();
    let compared = match sample.depth_ref {
        Some(depth_ref) => seq![id_of(s, depth_ref)],
        None => Seq::empty(),
    };
    let choice = texel.operands.skip(2 + compared.len() as int);
    let s1 = s.fresh().unwrap();
    lemma_writer_constant_id(
        env.strict(),
        s1.code.writer,
        s1.code.writer,
        ScalarValue::Float(0),
        4,
    );
    assert(t.block.body =~= s.block.body + seq![texel]);
    assert(texel.operands =~= seq![combined, at] + compared + choice);
    let shift: int = if sample.offset is Some {
        8
    } else {
        0
    };
    let moved = match sample.offset {
        Some(offset) => seq![env.writer.constant_ids[offset.0 as int]],
        None => Seq::empty(),
    };
    match sample.level {
        SampleLevel::Auto => {
            assert(choice =~= (if sample.offset is Some {
                seq![8u32]
            } else {
                Seq::empty()
            }) + moved);
        },
        SampleLevel::Bias(bias) => {
            assert(choice =~= seq![(1 + shift) as Word, id_of(s, bias)] + moved);
        },
        SampleLevel::Exact(lod) => {
            assert(choice =~= seq![(2 + shift) as Word, id_of(s, lod)] + moved);
        },
        SampleLevel::Zero => {
            let key = (ScalarValue::Float(0), 4u8);
            assert(t.code.writer.constants.contains_key(key));
            assert(choice =~= seq![(2 + shift) as Word, t.code.writer.constants[key]] + moved);
        },
        SampleLevel::Gradient { x, y } => {
            assert(choice =~= seq![(4 + shift) as Word, id_of(s, x), id_of(s, y)] + moved);
        },
    }
}

/// The sampled texel is that at the coordinates, with the array index if there is
/// one.
pub proof fn law_image_sample(
    env: Env,
    s: State,
    type_id: Word,
    sample: Sample,
    t: State,
    result: Result<Word, Error>,
)
    requires
        image_sample_run(env, s, type_id, sample) == Some((t, result)),
        sample.array_index is Some ==> sample.coordinate.0 < env.info.types@.len(),
    ensures
        match result {
            Ok(id) => {
                let insts = t.block.body.skip(s.block.body.len() as int);
                &&& adds(s, t, insts)
                &&& exists|
                    before: Seq<Inst>,
                    at: Word,
                    combined: Inst,
                    texel: Inst,
                    choice: Seq<Word>,
                | #[trigger]
                    is_sample(
                        env,
                        s.code.cached,
                        t.code.writer,
                        insts,
                        type_id,
                        sample,
                        id,
                        before,
                        at,
                        combined,
                        texel,
                        choice,
                    )
            },
            Err(error) => is_coordinate_error(
                env,
                sample.coordinate,
                sample.array_index,
                error,
            ),
        },
{
    reveal(image_sample_run);
    reveal(sample_type_run);
    reveal(sampled_image_type_run);
    let handle = env.info.types@[sample.image.0 as int]->Handle_0;
    let handle_ty = LookupType::Handle(handle);
    let plain_depth = has_depth(env, sample.image) && sample.depth_ref is None;
    lemma_type_found(env, s, texel_type());
    lemma_type_error(s.code.writer, env.strict(), texel_type());
    let (s1, typed) = if plain_depth {
        s.type_id(env, texel_type()).unwrap()
    } else {
        (s, Ok(type_id))
    };
    if let Ok(sample_type) = typed {
        lemma_type_found(env, s1, handle_ty);
        lemma_type_error(s1.code.writer, env.strict(), handle_ty);
        let (s2, image_typed) = s1.type_id(env, handle_ty).unwrap();
        if let Ok(image_type) = image_typed {
            let combined_ty = LookupType::Local(
                LocalType::SampledImage { image_type_id: image_type },
            );
            lemma_type_found(env, s2, combined_ty);
            lemma_type_error(s2.code.writer, env.strict(), combined_ty);
            let (s3, combined_typed) = s2.type_id(env, combined_ty).unwrap();
            if let Ok(combined_type) = combined_typed {
                let (s4, located) = coordinates_run(
                    env,
                    s3,
                    sample.coordinate,
                    sample.array_index,
                ).unwrap();
                law_coordinates(env, s3, sample.coordinate, sample.array_index, s4, located);
                if let Ok(at) = located {
                    lemma_sampled(
                        env,
                        s,
                        s3,
                        s4,
                        type_id,
                        sample_type,
                        image_type,
                        combined_type,
                        at,
                        sample,
                        t,
                        result,
                    );
                }
            }
        }
    }
}

/// What a sample adds once its types are there and its coordinates are known.
proof fn lemma_sampled(
    env: Env,
    s: State,
    s3: State,
    s4: State,
    type_id: Word,
    sample_type: Word,
    image_type: Word,
    combined_type: Word,
    at: Word,
    sample: Sample,
    t: State,
    result: Result<Word, Error>,
)
    requires
        image_sample_run(env, s, type_id, sample) == Some((t, result)),
        s3.block == s.block,
        s3.code.cached == s.code.cached,
        s3.code.blocks == s.code.blocks,
        holds(s3.code.writer.types, s.code.writer.types),
        coordinates_run(env, s3, sample.coordinate, sample.array_index) == Some(
            (s4, Ok::<Word, Error>(at)),
        ),
        adds(s3, s4, s4.block.body.skip(s3.block.body.len() as int)),
        is_coordinates(
            env,
            s3.code.cached,
            s4.code.writer,
            s4.block.body.skip(s3.block.body.len() as int),
            sample.coordinate,
            sample.array_index,
            at,
        ),
        is_id_of(
            s3.code.writer,
            LookupType::Handle(env.info.types@[sample.image.0 as int]->Handle_0),
            image_type,
        ),
        is_id_of(
            s3.code.writer,
            LookupType::Local(LocalType::SampledImage { image_type_id: image_type }),
            combined_type,
        ),
        sample_type_run(
            env,
            s,
            type_id,
            shape(env, sample.image),
            sample.depth_ref,
        ) matches Some((_, Ok(ty))) && ty == sample_type,
        has_depth(env, sample.image) && sample.depth_ref is None ==> is_id_of(
            s3.code.writer,
            texel_type(),
            sample_type,
        ),
        !(has_depth(env, sample.image) && sample.depth_ref is None) ==> sample_type == type_id,
        sampled_image_type_run(
            env,
            sample_type_run(
                env,
                s,
                type_id,
                shape(env, sample.image),
                sample.depth_ref,
            ).unwrap().0,
            env.info.types@[sample.image.0 as int]->Handle_0,
        ) == Some((s3, Ok::<Word, Error>(combined_type))),
    ensures
        match result {
            Ok(id) => {
                let insts = t.block.body.skip(s.block.body.len() as int);
                &&& adds(s, t, insts)
                &&& exists|
                    before: Seq<Inst>,
                    at: Word,
                    combined: Inst,
                    texel: Inst,
                    choice: Seq<Word>,
                | #[trigger]
                    is_sample(
                        env,
                        s.code.cached,
                        t.code.writer,
                        insts,
                        type_id,
                        sample,
                        id,
                        before,
                        at,
                        combined,
                        texel,
                        choice,
                    )
            },
            Err(_) => false,
        },
{
    reveal(image_sample_run);
    let before = s4.block.body.skip(s3.block.body.len() as int);
    let plain_depth = has_depth(env, sample.image) && sample.depth_ref is None;
    let s5 = s4.fresh().unwrap();
    let combined = value_inst(
        spirv::Op::SampledImage,
        combined_type,
        s5.id(),
        seq![handle_of(env, sample.image), handle_of(env, sample.sampler)],
    );
    let s6 = s5.push(combined);
    let (s7, sampled) = sample_inst_run(env, s6, sample_type, s5.id(), at, sample).unwrap();
    lemma_sample_error(env, s6, sample_type, s5.id(), at, sample);
    if let (Ok(texel_id), Ok(id)) = (sampled, result) {
        lemma_sample_inst(env, s6, sample_type, s5.id(), at, sample, s7, texel_id);
        let texel = s7.block.body.last();
        let compared = match sample.depth_ref {
            Some(depth_ref) => seq![id_of(s, depth_ref)],
            None => Seq::empty(),
        };
        let choice = texel.operands.skip(2 + compared.len() as int);
        let insts = t.block.body.skip(s.block.body.len() as int);
        let rest = if plain_depth {
            seq![t.block.body.last()]
        } else {
            Seq::empty()
        };
        assert(insts =~= before + seq![combined, texel] + rest);
        assert(t.block.body =~= s.block.body + insts);
        lemma_coordinates_later(
            env,
            s3,
            s,
            s4.code.writer,
            t.code.writer,
            before,
            sample.coordinate,
            sample.array_index,
            at,
        );
        assert(t.code.writer.constants == s7.code.writer.constants);
        lemma_choice_later(
            env,
            s6,
            s,
            s7.code.writer,
            t.code.writer,
            sample.level,
            sample.offset,
            choice,
        );
        assert(is_sample(
            env,
            s.code.cached,
            t.code.writer,
            insts,
            type_id,
            sample,
            id,
            before,
            at,
            combined,
            texel,
            choice,
        ));
    }
}

/// The choices of a sample are the same in states with the same values.
proof fn lemma_choice_later(
    env: Env,
    s: State,
    s1: State,
    w: WriterState,
    w1: WriterState,
    level: SampleLevel,
    offset: Option<ConstantHandle>,
    words: Seq<Word>,
)
    requires
        is_sample_choice(env, s.code.cached, w, level, offset, words),
        s1.code.cached == s.code.cached,
        w1.constants == w.constants,
    ensures
        is_sample_choice(env, s1.code.cached, w1, level, offset, words),
{
}

/// The sample instruction fails only for want of a capability.
proof fn lemma_sample_error(
    env: Env,
    s: State,
    type_id: Word,
    combined: Word,
    at: Word,
    sample: Sample,
)
    ensures
        match sample_inst_run(env, s, type_id, combined, at, sample) {
            Some((_, Err(_))) => false,
            _ => true,
        },
{
    reveal(sample_inst_run);
    reveal(level_run);
    if let Some(s1) = s.fresh() {
        if let Some(w) = s1.code.writer.fresh() {
            lemma_type_error(w, env.strict(), numbers(None, ScalarKind::Float, 4));
        }
    }
}

/// How many coordinates an image has, its layers not counted. The faces of a cube
/// have two.
pub open spec fn dimensions(dim: ImageDimension) -> nat {
    match dim {
        ImageDimension::D1 => 1,
        ImageDimension::D2 => 2,
        ImageDimension::D3 => 3,
        ImageDimension::Cube => 2,
    }
}

/// Which components of a queried size are the size of an image. A cube is as
/// high as it is wide.
pub open spec fn size_of(dim: ImageDimension) -> Seq<Word> {
    if dim == ImageDimension::Cube {
        seq![0, 0]
    } else {
        Seq::new(dimensions(dim), |i: int| i as Word)
    }
}

/// Whether a list of instructions asks for the size of an image, at a level of
/// detail unless it is a storage image, and leaves out the number of layers that
/// the answer has at its end.
pub open spec fn is_size_query(
    env: Env,
    values: Seq<Word>,
    w: WriterState,
    insts: Seq<Inst>,
    type_id: Word,
    image: ExprHandle,
    level: Option<ExprHandle>,
    id: Word,
    asked: Word,
) -> bool {
    if let TypeInner::Image { dim, arrayed, class } = shape(env, image) {
        let count = dimensions(dim) + if arrayed {
            1nat
        } else {
            0
        };
        let ty = numbers(sized(count), ScalarKind::Sint, 4);
        let query = insts[0];
        &&& w.types.contains_key(ty)
        &&& insts.len() > 0
        &&& match class {
            ImageClass::Storage => query == value_inst(
                spirv::Op::ImageQuerySize,
                w.types[ty],
                asked,
                seq![handle_of(env, image)],
            ),
            _ => match level {
                Some(level) => query == value_inst(
                    spirv::Op::ImageQuerySizeLod,
                    w.types[ty],
                    asked,
                    seq![handle_of(env, image), values[level.0 as int]],
                ),
                None => exists|zero: Word| #[trigger]
                    is_uint(w, 0, zero) && query == value_inst(
                        spirv::Op::ImageQuerySizeLod,
                        w.types[ty],
                        asked,
                        seq![handle_of(env, image), zero],
                    ),
            },
        }
        &&& if type_id == w.types[ty] {
            insts.len() == 1 && id == asked
        } else {
            insts.len() == 2 && insts[1] == value_inst(
                spirv::Op::VectorShuffle,
                type_id,
                id,
                seq![asked, asked] + size_of(dim),
            )
        }
    } else {
        false
    }
}

/// Whether an error is one that a query accounts for: only images can be asked, and
/// only with a capability of its own.
pub open spec fn is_query_error(env: Env, image: ExprHandle, error: Error) -> bool {
    ||| error == Error::MissingCapability(spirv::Capability::ImageQuery)
    ||| error == Error::Validation("image type") && !(shape(env, image) is Image)
}

/// Whether a list of instructions asks for the number of layers of an image,
/// which stands last in its size.
pub open spec fn is_layer_query(
    env: Env,
    w: WriterState,
    insts: Seq<Inst>,
    type_id: Word,
    image: ExprHandle,
    id: Word,
    asked: Word,
    zero: Word,
) -> bool {
    if let TypeInner::Image { dim, .. } = shape(env, image) {
        let ty = numbers(sized(dimensions(dim) + 1), ScalarKind::Sint, 4);
        &&& w.types.contains_key(ty)
        &&& is_uint(w, 0, zero)
        &&& insts == seq![
            value_inst(
                spirv::Op::ImageQuerySizeLod,
                w.types[ty],
                asked,
                seq![handle_of(env, image), zero],
            ),
            value_inst(
                spirv::Op::CompositeExtract,
                type_id,
                id,
                seq![asked, dimensions(dim) as Word],
            ),
        ]
    } else {
        false
    }
}

/// What is asked of an image is what the query says. Only images can be asked,
/// and the module must be capable of it.
pub proof fn law_image_query(
    env: Env,
    s: State,
    type_id: Word,
    image: ExprHandle,
    query: ImageQuery,
    t: State,
    result: Result<Word, Error>,
)
    requires
        image_query_run(env, s, type_id, image, query) == Some((t, result)),
    ensures
        match result {
            Ok(id) => {
                let insts = t.block.body.skip(s.block.body.len() as int);
                &&& adds(s, t, insts)
                &&& t.code.writer.capabilities.contains(spirv::Capability::ImageQuery)
                &&& match query {
                    ImageQuery::Size { level } => exists|asked: Word| #[trigger]
                        is_size_query(
                            env,
                            s.code.cached,
                            t.code.writer,
                            insts,
                            type_id,
                            image,
                            level,
                            id,
                            asked,
                        ),
                    ImageQuery::NumLevels => insts == seq![
                        value_inst(
                            spirv::Op::ImageQueryLevels,
                            type_id,
                            id,
                            seq![handle_of(env, image)],
                        ),
                    ],
                    ImageQuery::NumLayers => exists|asked: Word, zero: Word| #[trigger]
                        is_layer_query(
                            env,
                            t.code.writer,
                            insts,
                            type_id,
                            image,
                            id,
                            asked,
                            zero,
                        ),
                    ImageQuery::NumSamples => insts == seq![
                        value_inst(
                            spirv::Op::ImageQuerySamples,
                            type_id,
                            id,
                            seq![handle_of(env, image)],
                        ),
                    ],
                }
            },
            Err(error) => is_query_error(env, image, error) && (error is MissingCapability
                ==> is_missing(s.code.writer, env.writer.strict_capabilities, error)),
        },
{
    reveal(image_query_run);
    reveal(plain_query_run);
    if let TypeInner::Image { dim, arrayed, class } = shape(env, image) {
        let (s1, able) = s.check(env, spirv::Capability::ImageQuery);
        if able is Ok {
            let insts = t.block.body.skip(s.block.body.len() as int);
            match query {
                ImageQuery::Size { level } => {
                    lemma_size_query(
                        env,
                        s1,
                        type_id,
                        image,
                        dim,
                        arrayed,
                        class,
                        level,
                        t,
                        result,
                    );
                    if let Ok(id) = result {
                        let asked = insts[0].result_id.unwrap();
                        assert(is_size_query(
                            env,
                            s.code.cached,
                            t.code.writer,
                            insts,
                            type_id,
                            image,
                            level,
                            id,
                            asked,
                        ));
                    }
                },
                ImageQuery::NumLayers => {
                    lemma_layer_query(env, s1, type_id, image, dim, t, result);
                },
                _ => {
                    let inst = t.block.body.last();
                    assert(t.block.body =~= s.block.body + seq![inst]);
                    assert(insts =~= seq![inst]);
                },
            }
        }
    }
}

proof fn lemma_size_query(
    env: Env,
    s: State,
    type_id: Word,
    image: ExprHandle,
    dim: ImageDimension,
    arrayed: bool,
    class: ImageClass,
    level: Option<ExprHandle>,
    t: State,
    result: Result<Word, Error>,
)
    requires
        query_size_run(
            env,
            s,
            type_id,
            handle_of(env, image),
            dim,
            arrayed,
            class,
            level,
        ) == Some((t, result)),
        shape(env, image) == (TypeInner::Image { dim, arrayed, class }),
    ensures
        match result {
            Ok(id) => {
                let insts = t.block.body.skip(s.block.body.len() as int);
                &&& adds(s, t, insts)
                &&& s.code.writer.capabilities.subset_of(t.code.writer.capabilities)
                &&& insts[0].result_id is Some
                &&& is_size_query(
                    env,
                    s.code.cached,
                    t.code.writer,
                    insts,
                    type_id,
                    image,
                    level,
                    id,
                    insts[0].result_id.unwrap(),
                )
            },
            Err(_) => false,
        },
{
    reveal(query_size_run);
    reveal(query_level_run);
    reveal(trim_size_run);
    let count = dimensions(dim) + if arrayed {
        1nat
    } else {
        0
    };
    let ty = numbers(sized(count), ScalarKind::Sint, 4);
    lemma_type_found(env, s, ty);
    lemma_type_error(s.code.writer, env.strict(), ty);
    crate::growth::lemma_writer_type_id(env.strict(), s.code.writer, s.code.writer, ty);
    let (s1, typed) = s.type_id(env, ty).unwrap();
    if let Ok(size_type) = typed {
        let w = s1.code.writer;
        let zero_value = ScalarValue::Uint(0);
        let key = (zero_value, 4u8);
        lemma_writer_constant_id(env.strict(), w, w, zero_value, 4);
        if let Some(w1) = w.fresh() {
            lemma_type_error(w1, env.strict(), numbers(None, ScalarKind::Uint, 4));
        }
        if let Ok(id) = result {
            let insts = t.block.body.skip(s.block.body.len() as int);
            let query = insts[0];
            if type_id == size_type {
                assert(insts =~= seq![query]);
            } else {
                assert(insts =~= seq![query, t.block.body.last()]);
                assert(t.block.body.last().operands =~= seq![
                    query.result_id.unwrap(),
                    query.result_id.unwrap(),
                ] + size_of(dim));
            }
            assert(t.block.body =~= s.block.body + insts);
            if !(class is Storage) && level is None {
                assert(t.code.writer.constants.contains_key(key));
                assert(is_uint(t.code.writer, 0, t.code.writer.constants[key]));
                assert(query.operands =~= seq![
                    handle_of(env, image),
                    t.code.writer.constants[key],
                ]);
            } else if let (false, Some(expr)) = (class is Storage, level) {
                assert(query.operands =~= seq![handle_of(env, image), id_of(s, expr)]);
            }
        }
    }
}

proof fn lemma_layer_query(
    env: Env,
    s: State,
    type_id: Word,
    image: ExprHandle,
    dim: ImageDimension,
    t: State,
    result: Result<Word, Error>,
)
    requires
        query_layers_run(env, s, type_id, handle_of(env, image), dim) == Some((t, result)),
        shape(env, image) matches TypeInner::Image { dim: d, .. } && d == dim,
    ensures
        match result {
            Ok(id) => {
                let insts = t.block.body.skip(s.block.body.len() as int);
                &&& adds(s, t, insts)
                &&& s.code.writer.capabilities.subset_of(t.code.writer.capabilities)
                &&& exists|asked: Word, zero: Word| #[trigger]
                    is_layer_query(
                        env,
                        t.code.writer,
                        insts,
                        type_id,
                        image,
                        id,
                        asked,
                        zero,
                    )
            },
            Err(_) => false,
        },
{
    reveal(query_layers_run);
    let ty = numbers(sized(dimensions(dim) + 1), ScalarKind::Sint, 4);
    lemma_type_found(env, s, ty);
    lemma_type_error(s.code.writer, env.strict(), ty);
    crate::growth::lemma_writer_type_id(env.strict(), s.code.writer, s.code.writer, ty);
    let (s1, typed) = s.type_id(env, ty).unwrap();
    if let Ok(size_type) = typed {
        let s2 = s1.fresh().unwrap();
        let w = s2.code.writer;
        let key = (ScalarValue::Uint(0), 4u8);
        lemma_writer_constant_id(env.strict(), w, w, ScalarValue::Uint(0), 4);
        if let Some(w1) = w.fresh() {
            lemma_type_error(w1, env.strict(), numbers(None, ScalarKind::Uint, 4));
        }
        if let Ok(id) = result {
            let insts = t.block.body.skip(s.block.body.len() as int);
            let zero = t.code.writer.constants[key];
            assert(t.code.writer.constants.contains_key(key));
            assert(is_uint(t.code.writer, 0, zero));
            let query = insts[0];
            assert(query.operands =~= seq![handle_of(env, image), zero]);
            assert(insts =~= seq![query, t.block.body.last()]);
            assert(t.block.body =~= s.block.body + insts);
            assert(is_layer_query(
                env,
                t.code.writer,
                insts,
                type_id,
                image,
                id,
                s2.id(),
                zero,
            ));
        }
    }
}

} // verus!
