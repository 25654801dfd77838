//! Image expressions.

use spirv::Word;
use vstd::prelude::*;
use crate::context::{ids_after, image_id, BlockContext, Env, State};
use crate::function::Block;
use crate::image_laws::{adds, is_coordinate_error, is_coordinates, law_coordinates};
use crate::instruction::{Inst, Instruction, SampleLod};
use crate::ir::{
    Bytes, ConstantHandle, ExprHandle, ImageClass, ImageDimension, ImageQuery, SampleLevel,
    ScalarKind, ScalarValue, TypeHandle, TypeInner, TypeResolution, VectorSize,
};
use crate::run::{Error, Run};
use crate::types::{float_type, value_type, LocalType, LookupType};
use crate::words::ImageOperands;

verus! {

/// Emits the first `count` components of a vector, each as a value of its own.
/// Component `i` is the id after those of the components before it.
pub open spec fn components_run(s: State, type_id: Word, vector: Word, count: nat) -> Option<State>
    decreases count,
{
    if count == 0 {
        Some(s)
    } else {
        match components_run(s, type_id, vector, (count - 1) as nat) {
            Some(s1) => match s1.fresh() {
                Some(s2) => Some(
                    s2.push(
                        Inst::composite_extract(type_id, s2.id(), vector, (count - 1) as Word),
                    ),
                ),
                None => None,
            },
            None => None,
        }
    }
}

/// The kind and the width of the numbers that extended coordinates are made of:
/// those of the coordinates. Booleans are no numbers, and stand for 32-bit
/// floating-point values.
pub open spec fn coordinate_scalar(inner: TypeInner) -> Option<(ScalarKind, Bytes)> {
    match inner {
        TypeInner::Scalar { kind: ScalarKind::Bool, .. } => Some((ScalarKind::Float, 4)),
        TypeInner::Vector { kind: ScalarKind::Bool, .. } => Some((ScalarKind::Float, 4)),
        TypeInner::Scalar { kind, width } => Some((kind, width)),
        TypeInner::Vector { kind, width, .. } => Some((kind, width)),
        _ => None,
    }
}

/// The type of one coordinate. Where there is none, it is the 32-bit
/// floating-point type.
pub open spec fn coordinate_type(inner: TypeInner) -> LookupType {
    match coordinate_scalar(inner) {
        Some((kind, width)) => value_type(None, kind, width),
        None => float_type(None),
    }
}

/// Emits an array index, which is a 32-bit unsigned integer, as a number of
/// another kind and width. `type_id` is the type of that number.
#[verifier::opaque]
pub open spec fn layer_run(
    env: Env,
    s: State,
    type_id: Word,
    kind: ScalarKind,
    width: Bytes,
    index_id: Word,
) -> Run<State, Word> {
    match (kind, width) {
        (ScalarKind::Uint, 4) => Some((s, Ok(index_id))),
        (ScalarKind::Uint, _) => cast_index_run(s, spirv::Op::UConvert, type_id, index_id),
        (ScalarKind::Sint, 4) => cast_index_run(s, spirv::Op::Bitcast, type_id, index_id),
        (ScalarKind::Sint, _) => match s.type_id(env, value_type(None, ScalarKind::Uint, width)) {
            Some((s1, Ok(unsigned_type_id))) => match cast_index_run(
                s1,
                spirv::Op::UConvert,
                unsigned_type_id,
                index_id,
            ) {
                Some((s2, Ok(unsigned_id))) => cast_index_run(
                    s2,
                    spirv::Op::Bitcast,
                    type_id,
                    unsigned_id,
                ),
                failed => failed,
            },
            failed => failed,
        },
        (ScalarKind::Float, _) => cast_index_run(s, spirv::Op::ConvertUToF, type_id, index_id),
        (ScalarKind::Bool, _) => None,
    }
}

/// Emits one step of the conversion of an array index.
pub open spec fn cast_index_run(s: State, op: spirv::Op, type_id: Word, index_id: Word) -> Run<
    State,
    Word,
> {
    match s.fresh() {
        Some(s1) => Some(
            (s1.push(Inst::unary(op, type_id, s1.id(), index_id)), Ok(s1.id())),
        ),
        None => None,
    }
}

/// Emits coordinates with an array index at their end, as a vector of `size`
/// components of one kind and width. `type_id` is the type of a component.
#[verifier::opaque]
pub open spec fn extend_run(
    env: Env,
    s: State,
    type_id: Word,
    kind: ScalarKind,
    width: Bytes,
    parts: Seq<Word>,
    size: VectorSize,
    array_index: ExprHandle,
) -> Run<State, Word> {
    match s.operand(array_index) {
        Some(index_id) => match layer_run(env, s, type_id, kind, width, index_id) {
            Some((s1, Ok(layer_id))) => match s1.type_id(
                env,
                value_type(Some(size), kind, width),
            ) {
                Some((s2, Ok(vector_type_id))) => match s2.fresh() {
                    Some(s3) => Some(
                        (
                            s3.push(
                                Inst::composite_construct(
                                    vector_type_id,
                                    s3.id(),
                                    parts.push(layer_id),
                                ),
                            ),
                            Ok(s3.id()),
                        ),
                    ),
                    None => None,
                },
                failed => failed,
            },
            failed => failed,
        },
        None => None,
    }
}

/// Emits texture coordinates, extended by an array index if there is one. The
/// components keep their type, and the array index takes it on.
///
/// Scalars and vectors of two and three components can be extended.
#[verifier::opaque]
pub open spec fn coordinates_run(
    env: Env,
    s: State,
    coordinates: ExprHandle,
    array_index: Option<ExprHandle>,
) -> Run<State, Word> {
    match (s.operand(coordinates), array_index, env.inner(coordinates)) {
        (Some(id), None, _) => Some((s, Ok(id))),
        (Some(id), Some(array_index), Some(inner)) => match s.type_id(
            env,
            coordinate_type(inner),
        ) {
            Some((s1, Ok(type_id))) => match (coordinate_scalar(inner), inner) {
                (Some((kind, width)), TypeInner::Vector { size, .. }) => {
                    let parts = ids_after(s1.id(), size.count() as nat);
                    match components_run(s1, type_id, id, size.count() as nat) {
                        Some(s2) => match size {
                            VectorSize::Bi => extend_run(
                                env,
                                s2,
                                type_id,
                                kind,
                                width,
                                parts,
                                VectorSize::Tri,
                                array_index,
                            ),
                            VectorSize::Tri => extend_run(
                                env,
                                s2,
                                type_id,
                                kind,
                                width,
                                parts,
                                VectorSize::Quad,
                                array_index,
                            ),
                            VectorSize::Quad => Some(
                                (s2, Err(Error::Validation("extending vec4 coordinate"))),
                            ),
                        },
                        None => None,
                    }
                },
                (Some((kind, width)), _) => extend_run(
                    env,
                    s1,
                    type_id,
                    kind,
                    width,
                    seq![id],
                    VectorSize::Bi,
                    array_index,
                ),
                (None, _) => Some((s1, Err(Error::Validation("coordinate type")))),
            },
            failed => failed,
        },
        _ => None,
    }
}

/// Whether an image is a depth image.
pub open spec fn is_depth(inner: TypeInner) -> bool {
    inner matches TypeInner::Image { class: ImageClass::Depth { .. }, .. }
}

/// Whether an image is a storage image.
pub open spec fn is_storage(inner: TypeInner) -> bool {
    inner matches TypeInner::Image { class: ImageClass::Storage, .. }
}

/// Whether an image is multisampled.
pub open spec fn is_multisampled(inner: TypeInner) -> bool {
    match inner {
        TypeInner::Image { class: ImageClass::Sampled { multi, .. }, .. } => multi,
        TypeInner::Image { class: ImageClass::Depth { multi }, .. } => multi,
        _ => false,
    }
}

/// Emits the first component of a value, if it is not of the type wanted.
#[verifier::opaque]
pub open spec fn first_component_run(
    s: State,
    type_id: Word,
    found_type_id: Word,
    id: Word,
) -> Run<State, Word> {
    if found_type_id != type_id {
        match s.fresh() {
            Some(s1) => Some(
                (s1.push(Inst::composite_extract(type_id, s1.id(), id, 0)), Ok(s1.id())),
            ),
            None => None,
        }
    } else {
        Some((s, Ok(id)))
    }
}

/// The operand of an image load that says which level of detail or, in a
/// multisampled image, which sample to load.
pub open spec fn texel_operands(inner: TypeInner) -> ImageOperands {
    if is_multisampled(inner) {
        ImageOperands { sample: true, ..ImageOperands::none() }
    } else {
        ImageOperands { lod: true, ..ImageOperands::none() }
    }
}

/// Emits a load from an image. Storage images are read, others fetched from.
/// A depth image gives a vector of four components, of which the first is the
/// depth.
#[verifier::opaque]
pub open spec fn image_load_run(
    env: Env,
    s: State,
    type_id: Word,
    image: ExprHandle,
    coordinate: ExprHandle,
    array_index: Option<ExprHandle>,
    index: Option<ExprHandle>,
) -> Run<State, Word> {
    match image_id(env, image) {
        Some(image_id) => match coordinates_run(env, s, coordinate, array_index) {
            Some((s1, Ok(coordinate_id))) => match (s1.fresh(), env.inner(image)) {
                (Some(s2), Some(inner)) => match if is_depth(inner) {
                    s2.type_id(env, float_type(Some(VectorSize::Quad)))
                } else {
                    Some((s2, Ok(type_id)))
                } {
                    Some((s3, Ok(load_type_id))) => {
                        let inst = if is_storage(inner) {
                            Inst::image_read(load_type_id, s2.id(), image_id, coordinate_id)
                        } else {
                            Inst::image_fetch(load_type_id, s2.id(), image_id, coordinate_id)
                        };
                        match index {
                            Some(index) => match s3.operand(index) {
                                Some(index_id) => first_component_run(
                                    s3.push(
                                        inst.with(texel_operands(inner).mask()).with(index_id),
                                    ),
                                    type_id,
                                    load_type_id,
                                    s2.id(),
                                ),
                                None => None,
                            },
                            None => first_component_run(
                                s3.push(inst),
                                type_id,
                                load_type_id,
                                s2.id(),
                            ),
                        }
                    },
                    failed => failed,
                },
                _ => None,
            },
            failed => failed,
        },
        None => None,
    }
}

/// Whether a way to choose the level of detail gives it explicitly.
pub open spec fn sample_lod(level: SampleLevel) -> SampleLod {
    match level {
        SampleLevel::Zero | SampleLevel::Exact(_) | SampleLevel::Gradient { .. } => {
            SampleLod::Explicit
        },
        SampleLevel::Auto | SampleLevel::Bias(_) => SampleLod::Implicit,
    }
}

/// Which optional operands a sample has.
pub open spec fn sample_operands(level: SampleLevel, const_offset: bool) -> ImageOperands {
    match level {
        SampleLevel::Zero | SampleLevel::Exact(_) => ImageOperands {
            lod: true,
            const_offset,
            ..ImageOperands::none()
        },
        SampleLevel::Auto => ImageOperands { const_offset, ..ImageOperands::none() },
        SampleLevel::Bias(_) => ImageOperands {
            bias: true,
            const_offset,
            ..ImageOperands::none()
        },
        SampleLevel::Gradient { .. } => ImageOperands {
            grad: true,
            const_offset,
            ..ImageOperands::none()
        },
    }
}

/// Completes a sample by the operands that choose the level of detail. The
/// mask of the optional operands comes before them, unless it is empty.
#[verifier::opaque]
pub open spec fn level_run(
    env: Env,
    s: State,
    inst: Inst,
    level: SampleLevel,
    const_offset: bool,
) -> Run<State, Inst> {
    let mask = sample_operands(level, const_offset).mask();
    match level {
        SampleLevel::Zero => match s.constant_id(env, ScalarValue::Float(0), 4) {
            Some((s1, Ok(zero_id))) => Some((s1, Ok(inst.with(mask).with(zero_id)))),
            Some((s1, Err(error))) => Some((s1, Err(error))),
            None => None,
        },
        SampleLevel::Auto => if const_offset {
            Some((s, Ok(inst.with(mask))))
        } else {
            Some((s, Ok(inst)))
        },
        SampleLevel::Exact(lod) => match s.operand(lod) {
            Some(lod_id) => Some((s, Ok(inst.with(mask).with(lod_id)))),
            None => None,
        },
        SampleLevel::Bias(bias) => match s.operand(bias) {
            Some(bias_id) => Some((s, Ok(inst.with(mask).with(bias_id)))),
            None => None,
        },
        SampleLevel::Gradient { x, y } => match (s.operand(x), s.operand(y)) {
            (Some(x_id), Some(y_id)) => Some((s, Ok(inst.with(mask).with(x_id).with(y_id)))),
            _ => None,
        },
    }
}

/// The id of the constant offset of a sample, if there is an offset.
pub open spec fn offset_id(env: Env, offset: Option<ConstantHandle>) -> Option<Option<Word>> {
    match offset {
        Some(offset) => if offset.0 < env.writer.constant_ids.len() {
            Some(Some(env.writer.constant_ids[offset.0 as int]))
        } else {
            None
        },
        None => Some(None),
    }
}

/// The id of the depth that a sample is compared with, if there is one.
pub open spec fn depth_id(s: State, depth_ref: Option<ExprHandle>) -> Option<Option<Word>> {
    match depth_ref {
        Some(depth_ref) => match s.operand(depth_ref) {
            Some(id) => Some(Some(id)),
            None => None,
        },
        None => Some(None),
    }
}

/// The declared type of an image.
pub open spec fn image_type(env: Env, image: ExprHandle) -> Option<(TypeHandle, TypeInner)> {
    match env.info.ty(image) {
        Some(TypeResolution::Handle(handle)) => match env.module.inner(handle) {
            Some(inner) => Some((handle, inner)),
            None => None,
        },
        _ => None,
    }
}

/// Emits the type of the result of a sample instruction: where a depth image
/// is sampled without a comparison, it is a vector of four components.
#[verifier::opaque]
pub open spec fn sample_type_run(
    env: Env,
    s: State,
    type_id: Word,
    inner: TypeInner,
    depth_ref: Option<ExprHandle>,
) -> Run<State, Word> {
    if is_depth(inner) && depth_ref is None {
        s.type_id(env, float_type(Some(VectorSize::Quad)))
    } else {
        Some((s, Ok(type_id)))
    }
}

/// Emits the type of an image combined with a sampler.
#[verifier::opaque]
pub open spec fn sampled_image_type_run(env: Env, s: State, image: TypeHandle) -> Run<
    State,
    Word,
> {
    match s.type_id(env, LookupType::Handle(image)) {
        Some((s1, Ok(image_type_id))) => s1.type_id(
            env,
            LookupType::Local(LocalType::SampledImage { image_type_id }),
        ),
        failed => failed,
    }
}

/// The operands of a sample expression.
pub struct Sample {
    pub image: ExprHandle,
    pub sampler: ExprHandle,
    pub coordinate: ExprHandle,
    pub array_index: Option<ExprHandle>,
    pub offset: Option<ConstantHandle>,
    pub level: SampleLevel,
    pub depth_ref: Option<ExprHandle>,
}

/// Emits a sample instruction of type `sample_type_id`, on an image combined
/// with a sampler.
#[verifier::opaque]
pub open spec fn sample_inst_run(
    env: Env,
    s: State,
    sample_type_id: Word,
    sampled_image_id: Word,
    coordinate_id: Word,
    sample: Sample,
) -> Run<State, Word> {
    match (s.fresh(), depth_id(s, sample.depth_ref)) {
        (Some(s1), Some(depth)) => match level_run(
            env,
            s1,
            Inst::image_sample(
                sample_type_id,
                s1.id(),
                sample_lod(sample.level),
                sampled_image_id,
                coordinate_id,
                depth,
            ),
            sample.level,
            sample.offset is Some,
        ) {
            Some((s2, Ok(inst))) => match offset_id(env, sample.offset) {
                Some(Some(offset)) => Some((s2.push(inst.with(offset)), Ok(s1.id()))),
                Some(None) => Some((s2.push(inst), Ok(s1.id()))),
                None => None,
            },
            Some((s2, Err(error))) => Some((s2, Err(error))),
            None => None,
        },
        _ => None,
    }
}

/// Emits a sample of an image.
#[verifier::opaque]
pub open spec fn image_sample_run(env: Env, s: State, type_id: Word, sample: Sample) -> Run<
    State,
    Word,
> {
    match (image_id(env, sample.image), image_type(env, sample.image)) {
        (Some(image), Some((handle, inner))) => match sample_type_run(
            env,
            s,
            type_id,
            inner,
            sample.depth_ref,
        ) {
            Some((s1, Ok(sample_type_id))) => match sampled_image_type_run(env, s1, handle) {
                Some((s2, Ok(sampled_type_id))) => match image_id(env, sample.sampler) {
                    Some(sampler) => match coordinates_run(
                        env,
                        s2,
                        sample.coordinate,
                        sample.array_index,
                    ) {
                        Some((s3, Ok(coordinate_id))) => match s3.fresh() {
                            Some(s4) => match sample_inst_run(
                                env,
                                s4.push(
                                    Inst::sampled_image(
                                        sampled_type_id,
                                        s4.id(),
                                        image,
                                        sampler,
                                    ),
                                ),
                                sample_type_id,
                                s4.id(),
                                coordinate_id,
                                sample,
                            ) {
                                Some((s5, Ok(id))) => if is_depth(inner) && sample.depth_ref is None {
                                    match s5.fresh() {
                                        Some(s6) => Some(
                                            (
                                                s6.push(
                                                    Inst::composite_extract(
                                                        type_id,
                                                        s6.id(),
                                                        id,
                                                        0,
                                                    ),
                                                ),
                                                Ok(s6.id()),
                                            ),
                                        ),
                                        None => None,
                                    }
                                } else {
                                    Some((s5, Ok(id)))
                                },
                                failed => failed,
                            },
                            None => None,
                        },
                        failed => failed,
                    },
                    None => None,
                },
                failed => failed,
            },
            failed => failed,
        },
        _ => None,
    }
}

/// The number of coordinates of an image, not counting the array index. The
/// faces of a cube are square images.
pub open spec fn coordinate_count(dim: ImageDimension) -> u32 {
    match dim {
        ImageDimension::D1 => 1,
        ImageDimension::D2 | ImageDimension::Cube => 2,
        ImageDimension::D3 => 3,
    }
}

/// The size of a vector of `count` components. One component is no vector.
pub open spec fn vector_size_of(count: u32) -> Option<VectorSize> {
    if count == 2 {
        Some(VectorSize::Bi)
    } else if count == 3 {
        Some(VectorSize::Tri)
    } else if count == 4 {
        Some(VectorSize::Quad)
    } else {
        None
    }
}

/// The components of a size that make up the size of an image: all but the
/// number of layers. A cube has one size, which counts for both coordinates of
/// its faces.
pub open spec fn size_components(dim: ImageDimension) -> Seq<Word> {
    match dim {
        ImageDimension::Cube => seq![0, 0],
        ImageDimension::D1 => seq![0],
        ImageDimension::D2 => seq![0, 1],
        ImageDimension::D3 => seq![0, 1, 2],
    }
}

/// Emits the level of detail that the size of an image is asked for, which is
/// zero unless it is given.
#[verifier::opaque]
pub open spec fn query_level_run(env: Env, s: State, level: Option<ExprHandle>) -> Run<
    State,
    Word,
> {
    match level {
        Some(expr) => match s.operand(expr) {
            Some(id) => Some((s, Ok(id))),
            None => None,
        },
        None => s.index_id(env, 0),
    }
}

/// Emits a size that was queried, without the number of layers that an
/// arrayed image has at the end of it.
#[verifier::opaque]
pub open spec fn trim_size_run(
    s: State,
    type_id: Word,
    size_type_id: Word,
    size_id: Word,
    dim: ImageDimension,
) -> Run<State, Word> {
    if type_id != size_type_id {
        match s.fresh() {
            Some(s1) => Some(
                (
                    s1.push(
                        Inst::vector_shuffle(
                            type_id,
                            s1.id(),
                            size_id,
                            size_id,
                            size_components(dim),
                        ),
                    ),
                    Ok(s1.id()),
                ),
            ),
            None => None,
        }
    } else {
        Some((s, Ok(size_id)))
    }
}

/// Emits the size of an image.
#[verifier::opaque]
pub open spec fn query_size_run(
    env: Env,
    s: State,
    type_id: Word,
    image: Word,
    dim: ImageDimension,
    arrayed: bool,
    class: ImageClass,
    level: Option<ExprHandle>,
) -> Run<State, Word> {
    let count = (coordinate_count(dim) + if arrayed {
        1int
    } else {
        0
    }) as u32;
    match s.type_id(env, value_type(vector_size_of(count), ScalarKind::Sint, 4)) {
        Some((s1, Ok(size_type_id))) => match class {
            ImageClass::Storage => match s1.fresh() {
                Some(s2) => trim_size_run(
                    s2.push(
                        Inst::image_query(
                            spirv::Op::ImageQuerySize,
                            size_type_id,
                            s2.id(),
                            image,
                        ),
                    ),
                    type_id,
                    size_type_id,
                    s2.id(),
                    dim,
                ),
                None => None,
            },
            _ => match query_level_run(env, s1, level) {
                Some((s2, Ok(level_id))) => match s2.fresh() {
                    Some(s3) => trim_size_run(
                        s3.push(
                            Inst::image_query(
                                spirv::Op::ImageQuerySizeLod,
                                size_type_id,
                                s3.id(),
                                image,
                            ).with(level_id),
                        ),
                        type_id,
                        size_type_id,
                        s3.id(),
                        dim,
                    ),
                    None => None,
                },
                failed => failed,
            },
        },
        failed => failed,
    }
}

/// The size of the vector that has the number of layers of an arrayed image as
/// its last component.
pub open spec fn layered_size(dim: ImageDimension) -> VectorSize {
    match dim {
        ImageDimension::D1 => VectorSize::Bi,
        ImageDimension::D2 | ImageDimension::Cube => VectorSize::Tri,
        ImageDimension::D3 => VectorSize::Quad,
    }
}

/// Emits the number of layers of an image.
#[verifier::opaque]
pub open spec fn query_layers_run(
    env: Env,
    s: State,
    type_id: Word,
    image: Word,
    dim: ImageDimension,
) -> Run<State, Word> {
    let size = layered_size(dim);
    match s.type_id(env, value_type(Some(size), ScalarKind::Sint, 4)) {
        Some((s1, Ok(size_type_id))) => match s1.fresh() {
            Some(s2) => match s2.index_id(env, 0) {
                Some((s3, Ok(zero_id))) => match s3.fresh() {
                    Some(s4) => Some(
                        (
                            s4.push(
                                Inst::image_query(
                                    spirv::Op::ImageQuerySizeLod,
                                    size_type_id,
                                    s2.id(),
                                    image,
                                ).with(zero_id),
                            ).push(
                                Inst::composite_extract(
                                    type_id,
                                    s4.id(),
                                    s2.id(),
                                    (size.count() - 1) as Word,
                                ),
                            ),
                            Ok(s4.id()),
                        ),
                    ),
                    None => None,
                },
                failed => failed,
            },
            None => None,
        },
        failed => failed,
    }
}

/// Emits a query that takes the image and gives its answer at once.
#[verifier::opaque]
pub open spec fn plain_query_run(s: State, op: spirv::Op, type_id: Word, image: Word) -> Run<
    State,
    Word,
> {
    match s.fresh() {
        Some(s1) => Some(
            (s1.push(Inst::image_query(op, type_id, s1.id(), image)), Ok(s1.id())),
        ),
        None => None,
    }
}

/// Emits a query of an image.
#[verifier::opaque]
pub open spec fn image_query_run(
    env: Env,
    s: State,
    type_id: Word,
    image: ExprHandle,
    query: ImageQuery,
) -> Run<State, Word> {
    match (image_id(env, image), image_type(env, image)) {
        (Some(id), Some((_, TypeInner::Image { dim, arrayed, class }))) => match s.check(
            env,
            spirv::Capability::ImageQuery,
        ) {
            (s1, Ok(_)) => match query {
                ImageQuery::Size { level } => query_size_run(
                    env,
                    s1,
                    type_id,
                    id,
                    dim,
                    arrayed,
                    class,
                    level,
                ),
                ImageQuery::NumLevels => plain_query_run(
                    s1,
                    spirv::Op::ImageQueryLevels,
                    type_id,
                    id,
                ),
                ImageQuery::NumLayers => query_layers_run(env, s1, type_id, id, dim),
                ImageQuery::NumSamples => plain_query_run(
                    s1,
                    spirv::Op::ImageQuerySamples,
                    type_id,
                    id,
                ),
            },
            (s1, Err(error)) => Some((s1, Err(error))),
        },
        (Some(_), Some(_)) => Some((s, Err(Error::Validation("image type")))),
        _ => None,
    }
}

/// A scalar or vector type.
fn value_lookup(
    vector_size: Option<VectorSize>,
    kind: ScalarKind,
    width: Bytes,
) -> (lookup: LookupType)
    ensures
        lookup == value_type(vector_size, kind, width),
{
    LookupType::Local(LocalType::Value { vector_size, kind, width, pointer_class: None })
}

/// The 32-bit floating-point type, or a vector of it.
fn float_lookup(vector_size: Option<VectorSize>) -> (lookup: LookupType)
    ensures
        lookup == float_type(vector_size),
{
    value_lookup(vector_size, ScalarKind::Float, 4)
}

/// The kind and the width of the numbers that extended coordinates are made of.
fn scalar_of_coordinates(inner: TypeInner) -> (scalar: Option<(ScalarKind, Bytes)>)
    ensures
        scalar == coordinate_scalar(inner),
{
    match inner {
        TypeInner::Scalar { kind, width } | TypeInner::Vector { kind, width, .. } => match kind {
            ScalarKind::Bool => Some((ScalarKind::Float, 4)),
            _ => Some((kind, width)),
        },
        _ => None,
    }
}

impl<'w> BlockContext<'w> {
    /// Extends texture coordinates with an array index, if necessary.
    ///
    /// SPIR-V image read and write instructions take the coordinates of the
    /// texel to access as a vector. If the image is arrayed, the array index
    /// must be supplied as the final component of the coordinate vector.
    ///
    /// If `array_index` is `Some(expr)`, then this function constructs a new
    /// vector that is `coordinates` with `array_index` concatenated onto the
    /// end: a `vec2` becomes a `vec3`, a scalar becomes a `vec2`, and so on.
    ///
    /// The components of the new vector have the type that those of
    /// `coordinates` have, or are 32-bit floating-point values where those are
    /// booleans. The array index, a 32-bit unsigned integer, is converted to
    /// that type.
    ///
    /// If `array_index` is `None`, this function simply returns the id for
    /// `coordinates`.
    pub fn write_texture_coordinates(
        &mut self,
        coordinates: ExprHandle,
        array_index: Option<ExprHandle>,
        block: &mut Block,
    ) -> (result: Result<Word, Error>)
        requires
            coordinates_run(
                old(self).env(),
                old(self).state(*old(block)),
                coordinates,
                array_index,
            ) is Some,
        ensures
            coordinates_run(
                old(self).env(),
                old(self).state(*old(block)),
                coordinates,
                array_index,
            ) == Some((final(self).state(*final(block)), result)),
            final(self).env() == old(self).env(),
            match result {
                Ok(id) => {
                    let added = final(block)@.body.skip(old(block)@.body.len() as int);
                    &&& adds(
                        old(self).state(*old(block)),
                        final(self).state(*final(block)),
                        added,
                    )
                    &&& is_coordinates(
                        old(self).env(),
                        old(self).code().cached,
                        final(self).code().writer,
                        added,
                        coordinates,
                        array_index,
                        id,
                    )
                },
                Err(error) => is_coordinate_error(
                    old(self).env(),
                    coordinates,
                    array_index,
                    error,
                ),
            },
    {
        proof {
            reveal(extend_run);
            reveal(coordinates_run);
            let s = self.state(*block);
            let (t, outcome) = coordinates_run(self.env(), s, coordinates, array_index).unwrap();
            law_coordinates(self.env(), s, coordinates, array_index, t, outcome);
        }
        let coordinate_id: Word = self.operand(coordinates);
        let array_index = match array_index {
            Some(array_index) => array_index,
            None => {
                return Ok(coordinate_id);
            },
        };
        let inner = self.inner(coordinates);
        let scalar = scalar_of_coordinates(inner);
        let scalar_type_id: Word = self.get_type_id(
            match scalar {
                Some((kind, width)) => value_lookup(None, kind, width),
                None => float_lookup(None),
            },
        )?;
        let (kind, width) = match scalar {
            Some(scalar) => scalar,
            None => {
                return Err(Error::Validation("coordinate type"));
            },
        };
        let mut parts: Vec<Word> = Vec::new();
        let size = match inner {
            TypeInner::Vector { size, .. } => {
                self.write_components(scalar_type_id, coordinate_id, size, &mut parts, block);
                match size {
                    VectorSize::Bi => VectorSize::Tri,
                    VectorSize::Tri => VectorSize::Quad,
                    VectorSize::Quad => {
                        return Err(Error::Validation("extending vec4 coordinate"));
                    },
                }
            },
            _ => {
                parts.push(coordinate_id);
                assert(parts@ =~= seq![coordinate_id]);
                VectorSize::Bi
            },
        };
        let array_index_id: Word = self.operand(array_index);
        let layer_id: Word = self.write_layer(scalar_type_id, kind, width, array_index_id, block)?;
        parts.push(layer_id);
        let extended_type_id: Word = self.get_type_id(value_lookup(Some(size), kind, width))?;
        let id: Word = self.gen_id();
        block.push(Instruction::composite_construct(extended_type_id, id, &parts));
        Ok(id)
    }

    /// Emits an array index as a number of another kind and width.
    fn write_layer(
        &mut self,
        type_id: Word,
        kind: ScalarKind,
        width: Bytes,
        index_id: Word,
        block: &mut Block,
    ) -> (result: Result<Word, Error>)
        requires
            layer_run(
                old(self).env(),
                old(self).state(*old(block)),
                type_id,
                kind,
                width,
                index_id,
            ) is Some,
        ensures
            layer_run(
                old(self).env(),
                old(self).state(*old(block)),
                type_id,
                kind,
                width,
                index_id,
            ) == Some((final(self).state(*final(block)), result)),
            final(self).env() == old(self).env(),
    {
        proof {
            reveal(layer_run);
        }
        match (kind, width) {
            (ScalarKind::Uint, 4) => Ok(index_id),
            (ScalarKind::Uint, _) => {
                let id: Word = self.gen_id();
                block.push(Instruction::unary(spirv::Op::UConvert, type_id, id, index_id));
                Ok(id)
            },
            (ScalarKind::Sint, 4) => {
                let id: Word = self.gen_id();
                block.push(Instruction::unary(spirv::Op::Bitcast, type_id, id, index_id));
                Ok(id)
            },
            (ScalarKind::Sint, _) => {
                // Unsigned integers only widen to unsigned ones.
                let unsigned_type_id: Word = self.get_type_id(
                    value_lookup(None, ScalarKind::Uint, width),
                )?;
                let unsigned_id: Word = self.gen_id();
                block.push(
                    Instruction::unary(
                        spirv::Op::UConvert,
                        unsigned_type_id,
                        unsigned_id,
                        index_id,
                    ),
                );
                let id: Word = self.gen_id();
                block.push(Instruction::unary(spirv::Op::Bitcast, type_id, id, unsigned_id));
                Ok(id)
            },
            (ScalarKind::Float, _) => {
                let id: Word = self.gen_id();
                block.push(Instruction::unary(spirv::Op::ConvertUToF, type_id, id, index_id));
                Ok(id)
            },
            (ScalarKind::Bool, _) => vstd::pervasive::unreached(),
        }
    }

    /// Emits the components of a vector, each as a value of its own.
    fn write_components(
        &mut self,
        type_id: Word,
        vector: Word,
        size: VectorSize,
        parts: &mut Vec<Word>,
        block: &mut Block,
    )
        requires
            components_run(
                old(self).state(*old(block)),
                type_id,
                vector,
                size.count() as nat,
            ) is Some,
            old(parts)@.len() == 0,
        ensures
            components_run(old(self).state(*old(block)), type_id, vector, size.count() as nat)
                == Some(final(self).state(*final(block))),
            final(parts)@ == ids_after(
                old(self).state(*old(block)).id(),
                size.count() as nat,
            ),
            final(self).env() == old(self).env(),
    {
        let mut i: u32 = 0;
        while i < size.count()
            invariant
                i <= size.count(),
                old(parts)@.len() == 0,
                components_run(
                    old(self).state(*old(block)),
                    type_id,
                    vector,
                    size.count() as nat,
                ) is Some,
                components_run(old(self).state(*old(block)), type_id, vector, i as nat) == Some(
                    self.state(*block),
                ),
                self.code().id() == old(self).code().id() + i,
                parts@ == ids_after(old(self).code().id(), i as nat),
                self.env() == old(self).env(),
            decreases size.count() - i,
        {
            proof {
                lemma_components_prefix(
                    old(self).state(*old(block)),
                    type_id,
                    vector,
                    (i + 1) as nat,
                    size.count() as nat,
                );
            }
            let id: Word = self.gen_id();
            parts.push(id);
            block.push(Instruction::composite_extract(type_id, id, vector, i));
            i += 1;
            assert(parts@ =~= ids_after(old(self).code().id(), i as nat));
        }
    }

    /// Emits a load from an image.
    pub fn write_image_load(
        &mut self,
        result_type_id: Word,
        image: ExprHandle,
        coordinate: ExprHandle,
        array_index: Option<ExprHandle>,
        index: Option<ExprHandle>,
        block: &mut Block,
    ) -> (result: Result<Word, Error>)
        requires
            image_load_run(
                old(self).env(),
                old(self).state(*old(block)),
                result_type_id,
                image,
                coordinate,
                array_index,
                index,
            ) is Some,
        ensures
            image_load_run(
                old(self).env(),
                old(self).state(*old(block)),
                result_type_id,
                image,
                coordinate,
                array_index,
                index,
            ) == Some((final(self).state(*final(block)), result)),
            final(self).env() == old(self).env(),
    {
        proof {
            reveal(first_component_run);
            reveal(image_load_run);
        }
        let image_id: Word = self.get_image_id(image);
        let coordinate_id: Word = self.write_texture_coordinates(coordinate, array_index, block)?;
        let id: Word = self.gen_id();
        let image_ty = self.inner(image);
        let mut load_type_id: Word = result_type_id;
        let mut instruction = match image_ty {
            TypeInner::Image { class: ImageClass::Storage, .. } => Instruction::image_read(
                result_type_id,
                id,
                image_id,
                coordinate_id,
            ),
            TypeInner::Image { class: ImageClass::Depth { .. }, .. } => {
                // A depth image gives a vector of four components, of which the
                // first one is wanted.
                load_type_id = self.get_type_id(float_lookup(Some(VectorSize::Quad)))?;
                Instruction::image_fetch(load_type_id, id, image_id, coordinate_id)
            },
            _ => Instruction::image_fetch(result_type_id, id, image_id, coordinate_id),
        };
        if let Some(index) = index {
            let index_id: Word = self.operand(index);
            let mut operands = ImageOperands::none();
            match image_ty {
                TypeInner::Image { class: ImageClass::Sampled { multi: true, .. }, .. }
                | TypeInner::Image { class: ImageClass::Depth { multi: true }, .. } => {
                    operands.sample = true;
                },
                _ => {
                    operands.lod = true;
                },
            }
            instruction.add_operand(operands.bits());
            instruction.add_operand(index_id);
        }
        block.push(instruction);
        if load_type_id != result_type_id {
            let sub_id: Word = self.gen_id();
            block.push(Instruction::composite_extract(result_type_id, sub_id, id, 0));
            Ok(sub_id)
        } else {
            Ok(id)
        }
    }

    /// Completes a sample by the operands that choose the level of detail.
    fn write_sample_level(
        &mut self,
        instruction: Instruction,
        level: SampleLevel,
        const_offset: bool,
        block: &Block,
    ) -> (result: Result<Instruction, Error>)
        requires
            level_run(
                old(self).env(),
                old(self).state(*block),
                instruction@,
                level,
                const_offset,
            ) is Some,
        ensures
            level_run(
                old(self).env(),
                old(self).state(*block),
                instruction@,
                level,
                const_offset,
            ) == Some(
                (
                    final(self).state(*block),
                    match result {
                        Ok(instruction) => Ok(instruction@),
                        Err(error) => Err(error),
                    },
                ),
            ),
            final(self).env() == old(self).env(),
    {
        proof {
            reveal(level_run);
        }
        let mut instruction = instruction;
        let mut operands = ImageOperands::none();
        operands.const_offset = const_offset;
        match level {
            SampleLevel::Zero => {
                let zero_id: Word = self.writer.get_constant_scalar(ScalarValue::Float(0), 4)?;
                operands.lod = true;
                instruction.add_operand(operands.bits());
                instruction.add_operand(zero_id);
            },
            SampleLevel::Auto => {
                if const_offset {
                    instruction.add_operand(operands.bits());
                }
            },
            SampleLevel::Exact(lod_handle) => {
                let lod_id: Word = self.operand(lod_handle);
                operands.lod = true;
                instruction.add_operand(operands.bits());
                instruction.add_operand(lod_id);
            },
            SampleLevel::Bias(bias_handle) => {
                let bias_id: Word = self.operand(bias_handle);
                operands.bias = true;
                instruction.add_operand(operands.bits());
                instruction.add_operand(bias_id);
            },
            SampleLevel::Gradient { x, y } => {
                let x_id: Word = self.operand(x);
                let y_id: Word = self.operand(y);
                operands.grad = true;
                instruction.add_operand(operands.bits());
                instruction.add_operand(x_id);
                instruction.add_operand(y_id);
            },
        }
        Ok(instruction)
    }

    /// Emits a sample of an image.
    pub fn write_image_sample(
        &mut self,
        result_type_id: Word,
        sample: &Sample,
        block: &mut Block,
    ) -> (result: Result<Word, Error>)
        requires
            image_sample_run(
                old(self).env(),
                old(self).state(*old(block)),
                result_type_id,
                *sample,
            ) is Some,
        ensures
            image_sample_run(
                old(self).env(),
                old(self).state(*old(block)),
                result_type_id,
                *sample,
            ) == Some((final(self).state(*final(block)), result)),
            final(self).env() == old(self).env(),
    {
        proof {
            reveal(sample_type_run);
            reveal(sampled_image_type_run);
            reveal(sample_inst_run);
            reveal(image_sample_run);
        }
        let image_id: Word = self.get_image_id(sample.image);
        let image_type = match self.fun_info.types[sample.image.0 as usize] {
            TypeResolution::Handle(handle) => handle,
            TypeResolution::Value(_) => {
                return vstd::pervasive::unreached();
            },
        };
        // A depth image gives a vector of four components, of which the first
        // one is wanted.
        let needs_sub_access = match self.ir_module.types[image_type.0 as usize].inner {
            TypeInner::Image { class: ImageClass::Depth { .. }, .. } => sample.depth_ref.is_none(),
            _ => false,
        };
        let sample_result_type_id: Word = if needs_sub_access {
            self.get_type_id(float_lookup(Some(VectorSize::Quad)))?
        } else {
            result_type_id
        };
        let image_type_id: Word = self.get_type_id(LookupType::Handle(image_type))?;
        let sampled_image_type_id: Word = self.get_type_id(
            LookupType::Local(LocalType::SampledImage { image_type_id }),
        )?;
        let sampler_id: Word = self.get_image_id(sample.sampler);
        let coordinate_id: Word = self.write_texture_coordinates(
            sample.coordinate,
            sample.array_index,
            block,
        )?;
        let sampled_image_id: Word = self.gen_id();
        block.push(
            Instruction::sampled_image(
                sampled_image_type_id,
                sampled_image_id,
                image_id,
                sampler_id,
            ),
        );
        let id: Word = self.gen_id();
        let depth_id: Option<Word> = match sample.depth_ref {
            Some(depth_ref) => Some(self.operand(depth_ref)),
            None => None,
        };
        let lod = match sample.level {
            SampleLevel::Zero | SampleLevel::Exact(_) | SampleLevel::Gradient { .. } => {
                SampleLod::Explicit
            },
            SampleLevel::Auto | SampleLevel::Bias(_) => SampleLod::Implicit,
        };
        let instruction = Instruction::image_sample(
            sample_result_type_id,
            id,
            lod,
            sampled_image_id,
            coordinate_id,
            depth_id,
        );
        let mut instruction = self.write_sample_level(
            instruction,
            sample.level,
            sample.offset.is_some(),
            block,
        )?;
        if let Some(offset_const) = sample.offset {
            instruction.add_operand(self.writer.constant_ids[offset_const.0 as usize]);
        }
        block.push(instruction);
        if needs_sub_access {
            let sub_id: Word = self.gen_id();
            block.push(Instruction::composite_extract(result_type_id, sub_id, id, 0));
            Ok(sub_id)
        } else {
            Ok(id)
        }
    }

    /// Emits the size of an image.
    fn write_query_size(
        &mut self,
        result_type_id: Word,
        image_id: Word,
        dim: ImageDimension,
        arrayed: bool,
        class: ImageClass,
        level: Option<ExprHandle>,
        block: &mut Block,
    ) -> (result: Result<Word, Error>)
        requires
            query_size_run(
                old(self).env(),
                old(self).state(*old(block)),
                result_type_id,
                image_id,
                dim,
                arrayed,
                class,
                level,
            ) is Some,
        ensures
            query_size_run(
                old(self).env(),
                old(self).state(*old(block)),
                result_type_id,
                image_id,
                dim,
                arrayed,
                class,
                level,
            ) == Some((final(self).state(*final(block)), result)),
            final(self).env() == old(self).env(),
    {
        proof {
            reveal(query_size_run);
            reveal(query_level_run);
            reveal(trim_size_run);
        }
        let dim_coords: u32 = match dim {
            ImageDimension::D1 => 1,
            ImageDimension::D2 | ImageDimension::Cube => 2,
            ImageDimension::D3 => 3,
        };
        let array_coords: u32 = if arrayed {
            1
        } else {
            0
        };
        let vector_size = match dim_coords + array_coords {
            2 => Some(VectorSize::Bi),
            3 => Some(VectorSize::Tri),
            4 => Some(VectorSize::Quad),
            _ => None,
        };
        let extended_size_type_id: Word = self.get_type_id(
            value_lookup(vector_size, ScalarKind::Sint, 4),
        )?;
        let (query_op, level_id) = match class {
            ImageClass::Storage => (spirv::Op::ImageQuerySize, None),
            _ => {
                let level_id: Word = match level {
                    Some(expr) => self.operand(expr),
                    None => self.get_index_constant(0)?,
                };
                (spirv::Op::ImageQuerySizeLod, Some(level_id))
            },
        };
        // The vector that SPIR-V returns, which holds the dimensions as well as
        // the layer count.
        let id_extended: Word = self.gen_id();
        let mut instruction = Instruction::image_query(
            query_op,
            extended_size_type_id,
            id_extended,
            image_id,
        );
        if let Some(level_id) = level_id {
            instruction.add_operand(level_id);
        }
        block.push(instruction);
        if result_type_id != extended_size_type_id {
            let id: Word = self.gen_id();
            let components: Vec<Word> = match dim {
                // Always pick the first component, and duplicate it.
                ImageDimension::Cube => vec![0, 0],
                ImageDimension::D1 => vec![0],
                ImageDimension::D2 => vec![0, 1],
                ImageDimension::D3 => vec![0, 1, 2],
            };
            assert(components@ =~= size_components(dim));
            block.push(
                Instruction::vector_shuffle(
                    result_type_id,
                    id,
                    id_extended,
                    id_extended,
                    &components,
                ),
            );
            Ok(id)
        } else {
            Ok(id_extended)
        }
    }

    /// Emits the number of layers of an image.
    fn write_query_layers(
        &mut self,
        result_type_id: Word,
        image_id: Word,
        dim: ImageDimension,
        block: &mut Block,
    ) -> (result: Result<Word, Error>)
        requires
            query_layers_run(
                old(self).env(),
                old(self).state(*old(block)),
                result_type_id,
                image_id,
                dim,
            ) is Some,
        ensures
            query_layers_run(
                old(self).env(),
                old(self).state(*old(block)),
                result_type_id,
                image_id,
                dim,
            ) == Some((final(self).state(*final(block)), result)),
            final(self).env() == old(self).env(),
    {
        proof {
            reveal(query_layers_run);
        }
        let vec_size = match dim {
            ImageDimension::D1 => VectorSize::Bi,
            ImageDimension::D2 | ImageDimension::Cube => VectorSize::Tri,
            ImageDimension::D3 => VectorSize::Quad,
        };
        let extended_size_type_id: Word = self.get_type_id(
            value_lookup(Some(vec_size), ScalarKind::Sint, 4),
        )?;
        let id_extended: Word = self.gen_id();
        let mut instruction = Instruction::image_query(
            spirv::Op::ImageQuerySizeLod,
            extended_size_type_id,
            id_extended,
            image_id,
        );
        let zero_id: Word = self.get_index_constant(0)?;
        instruction.add_operand(zero_id);
        block.push(instruction);
        let id: Word = self.gen_id();
        block.push(
            Instruction::composite_extract(result_type_id, id, id_extended, vec_size.count() - 1),
        );
        Ok(id)
    }

    /// Emits a query of an image.
    pub fn write_image_query(
        &mut self,
        result_type_id: Word,
        image: ExprHandle,
        query: ImageQuery,
        block: &mut Block,
    ) -> (result: Result<Word, Error>)
        requires
            image_query_run(
                old(self).env(),
                old(self).state(*old(block)),
                result_type_id,
                image,
                query,
            ) is Some,
        ensures
            image_query_run(
                old(self).env(),
                old(self).state(*old(block)),
                result_type_id,
                image,
                query,
            ) == Some((final(self).state(*final(block)), result)),
            final(self).env() == old(self).env(),
    {
        proof {
            reveal(plain_query_run);
            reveal(image_query_run);
        }
        let image_id: Word = self.get_image_id(image);
        let image_type = match self.fun_info.types[image.0 as usize] {
            TypeResolution::Handle(handle) => handle,
            TypeResolution::Value(_) => {
                return vstd::pervasive::unreached();
            },
        };
        let (dim, arrayed, class) = match self.ir_module.types[image_type.0 as usize].inner {
            TypeInner::Image { dim, arrayed, class } => (dim, arrayed, class),
            _ => {
                return Err(Error::Validation("image type"));
            },
        };
        self.writer.check(spirv::Capability::ImageQuery)?;
        match query {
            ImageQuery::Size { level } => self.write_query_size(
                result_type_id,
                image_id,
                dim,
                arrayed,
                class,
                level,
                block,
            ),
            ImageQuery::NumLevels => {
                let id: Word = self.gen_id();
                block.push(
                    Instruction::image_query(
                        spirv::Op::ImageQueryLevels,
                        result_type_id,
                        id,
                        image_id,
                    ),
                );
                Ok(id)
            },
            ImageQuery::NumLayers => self.write_query_layers(result_type_id, image_id, dim, block),
            ImageQuery::NumSamples => {
                let id: Word = self.gen_id();
                block.push(
                    Instruction::image_query(
                        spirv::Op::ImageQuerySamples,
                        result_type_id,
                        id,
                        image_id,
                    ),
                );
                Ok(id)
            },
        }
    }
}

/// A run over more components passes through the run over fewer.
proof fn lemma_components_prefix(s: State, type_id: Word, vector: Word, few: nat, many: nat)
    requires
        few <= many,
        components_run(s, type_id, vector, many) is Some,
    ensures
        components_run(s, type_id, vector, few) is Some,
    decreases many,
{
    if few < many {
        lemma_components_prefix(s, type_id, vector, few, (many - 1) as nat);
    }
}

} // verus!
