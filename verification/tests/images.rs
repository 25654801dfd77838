use spv_block::context::{BlockContext, CachedExpressions};
use spv_block::function::{Block, Function, Parameter};
use spv_block::image::Sample;
use spv_block::instruction::Instruction;
use spv_block::ir::{
    self, ConstantHandle, ExprHandle, Expression, FunctionInfo, GlobalHandle, ImageClass,
    ImageDimension, ImageQuery, Module, SampleLevel, ScalarKind, Type, TypeHandle, TypeInner,
    TypeResolution, VectorSize,
};
use spv_block::run::Error;
use spv_block::types::LookupType;
use spv_block::writer::{GlobalVariable, IndexBoundsCheckPolicy, Writer, WriterFlags};
use std::collections::HashMap;

type Shown = (spirv::Op, Option<u32>, Option<u32>, Vec<u32>);

fn show(list: &[Instruction]) -> Vec<Shown> {
    list.iter().map(|i| (i.op, i.type_id, i.result_id, i.operands.clone())).collect()
}

/// The id of the image and that of the sampler.
const IMAGE: u32 = 51;
const SAMPLER: u32 = 53;

/// A function that is given an image, a sampler, coordinates and a number:
/// expressions 0 to 3. The number's value is 13, the coordinates' is 12.
struct Shader {
    module: Module,
    fun: ir::Function,
    info: FunctionInfo,
}

fn float_vector(size: VectorSize) -> TypeInner {
    TypeInner::Vector { size, kind: ScalarKind::Float, width: 4 }
}

fn shader(dim: ImageDimension, arrayed: bool, class: ImageClass, coordinates: TypeInner) -> Shader {
    let number = TypeInner::Scalar { kind: ScalarKind::Uint, width: 4 };
    Shader {
        module: Module {
            types: vec![
                Type { inner: TypeInner::Image { dim, arrayed, class } },
                Type { inner: TypeInner::Sampler { comparison: false } },
            ],
            constants: vec![],
            functions: vec![],
        },
        fun: ir::Function {
            arguments: vec![],
            result: None,
            expressions: vec![
                Expression::GlobalVariable(GlobalHandle(0)),
                Expression::FunctionArgument(0),
                Expression::Constant(ConstantHandle(0)),
                Expression::Constant(ConstantHandle(0)),
            ],
        },
        info: FunctionInfo {
            types: vec![
                TypeResolution::Handle(TypeHandle(0)),
                TypeResolution::Handle(TypeHandle(1)),
                TypeResolution::Value(coordinates),
                TypeResolution::Value(number),
            ],
        },
    }
}

fn sampled() -> ImageClass {
    ImageClass::Sampled { kind: ScalarKind::Float, multi: false }
}

fn context(shader: &Shader) -> BlockContext<'_> {
    let mut writer = Writer::new(
        WriterFlags { debug: false, adjust_coordinate_space: false },
        IndexBoundsCheckPolicy::UndefinedBehavior,
    );
    writer.id_gen.last = 200;
    writer.global_variables.push(GlobalVariable { id: 50, handle_id: IMAGE });
    writer.constant_ids.push(77);
    writer.lookup_type.push((LookupType::Handle(TypeHandle(0)), 60));
    BlockContext {
        writer,
        ir_module: &shader.module,
        ir_function: &shader.fun,
        fun_info: &shader.info,
        function: Function {
            parameters: vec![Parameter { id: 52, handle_id: SAMPLER }],
            variables: HashMap::new(),
            blocks: vec![],
            entry_point_context: None,
        },
        cached: CachedExpressions { ids: vec![50, 52, 12, 13] },
    }
}

#[test]
fn images_and_samplers_are_named_by_their_loaded_ids() {
    let shader =
        shader(ImageDimension::D2, false, sampled(), float_vector(VectorSize::Bi));
    let c = context(&shader);
    assert_eq!(c.get_image_id(ExprHandle(0)), IMAGE);
    assert_eq!(c.get_image_id(ExprHandle(1)), SAMPLER);
}

#[test]
fn coordinates_without_an_index_are_left_alone() {
    let shader =
        shader(ImageDimension::D2, false, sampled(), float_vector(VectorSize::Bi));
    let mut c = context(&shader);
    let mut block = Block::new(1);
    assert_eq!(c.write_texture_coordinates(ExprHandle(2), None, &mut block), Ok(12));
    assert!(block.body.is_empty());
    assert_eq!(c.writer.id_gen.last, 200);
}

#[test]
fn a_scalar_and_an_index_make_a_pair() {
    let scalar = TypeInner::Scalar { kind: ScalarKind::Float, width: 4 };
    let shader = shader(ImageDimension::D1, true, sampled(), scalar);
    let mut c = context(&shader);
    let mut block = Block::new(1);
    let index = Some(ExprHandle(3));
    assert_eq!(c.write_texture_coordinates(ExprHandle(2), index, &mut block), Ok(204));
    assert_eq!(
        show(&block.body),
        vec![
            (spirv::Op::ConvertUToF, Some(201), Some(202), vec![13]),
            (spirv::Op::CompositeConstruct, Some(203), Some(204), vec![12, 202]),
        ]
    );
}

#[test]
fn a_vector_and_an_index_make_a_longer_vector() {
    let shader =
        shader(ImageDimension::D2, true, sampled(), float_vector(VectorSize::Bi));
    let mut c = context(&shader);
    let mut block = Block::new(1);
    let index = Some(ExprHandle(3));
    assert_eq!(c.write_texture_coordinates(ExprHandle(2), index, &mut block), Ok(206));
    assert_eq!(
        show(&block.body),
        vec![
            (spirv::Op::CompositeExtract, Some(201), Some(202), vec![12, 0]),
            (spirv::Op::CompositeExtract, Some(201), Some(203), vec![12, 1]),
            (spirv::Op::ConvertUToF, Some(201), Some(204), vec![13]),
            (spirv::Op::CompositeConstruct, Some(205), Some(206), vec![202, 203, 204]),
        ]
    );
    assert_eq!(
        show(&c.writer.declarations)[1],
        (spirv::Op::TypeVector, None, Some(205), vec![201, 3])
    );
}

#[test]
fn some_coordinates_cannot_be_extended() {
    let four = shader(ImageDimension::D3, true, sampled(), float_vector(VectorSize::Quad));
    let mut c = context(&four);
    let mut block = Block::new(1);
    let index = Some(ExprHandle(3));
    assert_eq!(
        c.write_texture_coordinates(ExprHandle(2), index, &mut block),
        Err(Error::Validation("extending vec4 coordinate"))
    );
    assert_eq!(block.body.len(), 4);

    let odd = shader(ImageDimension::D3, true, sampled(), TypeInner::Struct { span: 4 });
    let mut c = context(&odd);
    let mut block = Block::new(1);
    assert_eq!(
        c.write_texture_coordinates(ExprHandle(2), index, &mut block),
        Err(Error::Validation("coordinate type"))
    );
    assert!(block.body.is_empty());
}

#[test]
fn loads_read_or_fetch() {
    let coordinates = float_vector(VectorSize::Bi);
    let load = |class, index| {
        let shader = shader(ImageDimension::D2, false, class, coordinates);
        let mut c = context(&shader);
        let mut block = Block::new(1);
        let id = c.write_image_load(7, ExprHandle(0), ExprHandle(2), None, index, &mut block);
        (id, show(&block.body))
    };
    assert_eq!(
        load(ImageClass::Storage, None),
        (Ok(201), vec![(spirv::Op::ImageRead, Some(7), Some(201), vec![IMAGE, 12])])
    );
    let level = Some(ExprHandle(3));
    let lod = spirv::ImageOperands::LOD.bits();
    assert_eq!(
        load(sampled(), level),
        (Ok(201), vec![(spirv::Op::ImageFetch, Some(7), Some(201), vec![IMAGE, 12, lod, 13])])
    );
    let multisampled = ImageClass::Sampled { kind: ScalarKind::Float, multi: true };
    let sample = spirv::ImageOperands::SAMPLE.bits();
    assert_eq!(sample, 64);
    assert_eq!(
        load(multisampled, level),
        (Ok(201), vec![(spirv::Op::ImageFetch, Some(7), Some(201), vec![IMAGE, 12, sample, 13])])
    );
    // The depth is the first of four components.
    assert_eq!(
        load(ImageClass::Depth { multi: true }, level),
        (
            Ok(204),
            vec![
                (spirv::Op::ImageFetch, Some(202), Some(201), vec![IMAGE, 12, sample, 13]),
                (spirv::Op::CompositeExtract, Some(7), Some(204), vec![201, 0]),
            ]
        )
    );
}

fn sample(level: SampleLevel, offset: bool, depth: bool) -> Vec<Shown> {
    let class = if depth { ImageClass::Depth { multi: false } } else { sampled() };
    let shader = shader(ImageDimension::D2, false, class, float_vector(VectorSize::Bi));
    let mut c = context(&shader);
    let mut block = Block::new(1);
    let sample = Sample {
        image: ExprHandle(0),
        sampler: ExprHandle(1),
        coordinate: ExprHandle(2),
        array_index: None,
        offset: if offset { Some(ConstantHandle(0)) } else { None },
        level,
        depth_ref: if depth { Some(ExprHandle(3)) } else { None },
    };
    assert!(c.write_image_sample(7, &sample, &mut block).is_ok());
    let body = show(&block.body);
    assert_eq!(body[0], (spirv::Op::SampledImage, Some(201), Some(202), vec![IMAGE, SAMPLER]));
    body[1..].to_vec()
}

#[test]
fn samples_choose_their_level_of_detail() {
    let operands = |level, offset| {
        let body = sample(level, offset, false);
        assert_eq!(body.len(), 1);
        assert_eq!((body[0].1, body[0].2), (Some(7), Some(203)));
        assert_eq!(body[0].3[..2], [202, 12]);
        (body[0].0, body[0].3[2..].to_vec())
    };
    let implicit = spirv::Op::ImageSampleImplicitLod;
    let explicit = spirv::Op::ImageSampleExplicitLod;
    let e = ExprHandle(3);
    assert_eq!(operands(SampleLevel::Auto, false), (implicit, vec![]));
    assert_eq!(operands(SampleLevel::Auto, true), (implicit, vec![8, 77]));
    assert_eq!(operands(SampleLevel::Bias(e), false), (implicit, vec![1, 13]));
    assert_eq!(operands(SampleLevel::Bias(e), true), (implicit, vec![9, 13, 77]));
    assert_eq!(operands(SampleLevel::Exact(e), true), (explicit, vec![10, 13, 77]));
    let gradient = SampleLevel::Gradient { x: ExprHandle(3), y: ExprHandle(2) };
    assert_eq!(operands(gradient, false), (explicit, vec![4, 13, 12]));
    assert_eq!(operands(gradient, true), (explicit, vec![12, 13, 12, 77]));
    // The constant zero is declared on the way.
    assert_eq!(operands(SampleLevel::Zero, false), (explicit, vec![2, 204]));
}

#[test]
fn samples_compare_with_a_depth() {
    let body = sample(SampleLevel::Auto, false, true);
    assert_eq!(
        body,
        vec![(spirv::Op::ImageSampleDrefImplicitLod, Some(7), Some(203), vec![202, 12, 13])]
    );
    let body = sample(SampleLevel::Exact(ExprHandle(3)), false, true);
    assert_eq!(body[0].0, spirv::Op::ImageSampleDrefExplicitLod);
    assert_eq!(body[0].3, vec![202, 12, 13, 2, 13]);
}

#[test]
fn a_depth_without_a_comparison_is_the_first_component() {
    let shader = shader(
        ImageDimension::D2,
        false,
        ImageClass::Depth { multi: false },
        float_vector(VectorSize::Bi),
    );
    let mut c = context(&shader);
    let mut block = Block::new(1);
    let sample = Sample {
        image: ExprHandle(0),
        sampler: ExprHandle(1),
        coordinate: ExprHandle(2),
        array_index: None,
        offset: None,
        level: SampleLevel::Auto,
        depth_ref: None,
    };
    // 201, 202: vector and scalar; 203: sampled image type; 204: sampled image; 205: sample
    assert_eq!(c.write_image_sample(7, &sample, &mut block), Ok(206));
    let body = show(&block.body);
    assert_eq!(body[1].1, Some(201));
    assert_eq!(body[2], (spirv::Op::CompositeExtract, Some(7), Some(206), vec![205, 0]));
}

fn query(
    dim: ImageDimension,
    arrayed: bool,
    class: ImageClass,
    query: ImageQuery,
    result_type_id: u32,
) -> (Result<u32, Error>, Vec<Shown>, Vec<spirv::Capability>) {
    let shader = shader(dim, arrayed, class, float_vector(VectorSize::Bi));
    let mut c = context(&shader);
    let mut block = Block::new(1);
    let result = c.write_image_query(result_type_id, ExprHandle(0), query, &mut block);
    (result, show(&block.body), c.writer.capabilities)
}

#[test]
fn sizes_leave_out_the_layers() {
    let size = ImageQuery::Size { level: Some(ExprHandle(3)) };
    // 201, 202: vector and scalar
    let (result, body, capabilities) = query(ImageDimension::D2, false, sampled(), size, 201);
    assert_eq!(result, Ok(203));
    assert_eq!(
        body,
        vec![(spirv::Op::ImageQuerySizeLod, Some(201), Some(203), vec![IMAGE, 13])]
    );
    assert_eq!(capabilities, vec![spirv::Capability::ImageQuery]);

    let (result, body, _) = query(ImageDimension::D2, true, sampled(), size, 7);
    assert_eq!(result, Ok(204));
    assert_eq!(body[1], (spirv::Op::VectorShuffle, Some(7), Some(204), vec![203, 203, 0, 1]));

    let (_, body, _) = query(ImageDimension::Cube, true, sampled(), size, 7);
    assert_eq!(body[1].3, vec![203, 203, 0, 0]);

    // Storage images have no levels.
    let level = ImageQuery::Size { level: None };
    let (_, body, _) = query(ImageDimension::D3, false, ImageClass::Storage, level, 201);
    assert_eq!(body, vec![(spirv::Op::ImageQuerySize, Some(201), Some(203), vec![IMAGE])]);

    // The level is zero unless it is given.
    let (_, body, _) = query(ImageDimension::D1, false, sampled(), level, 201);
    assert_eq!(
        body,
        vec![(spirv::Op::ImageQuerySizeLod, Some(201), Some(204), vec![IMAGE, 202])]
    );
}

#[test]
fn other_queries() {
    let (result, body, _) = query(ImageDimension::D2, true, sampled(), ImageQuery::NumLayers, 7);
    assert_eq!(result, Ok(206));
    assert_eq!(
        body,
        vec![
            (spirv::Op::ImageQuerySizeLod, Some(201), Some(203), vec![IMAGE, 204]),
            (spirv::Op::CompositeExtract, Some(7), Some(206), vec![203, 2]),
        ]
    );
    let (_, body, _) = query(ImageDimension::D2, true, sampled(), ImageQuery::NumLevels, 7);
    assert_eq!(body, vec![(spirv::Op::ImageQueryLevels, Some(7), Some(201), vec![IMAGE])]);
    let (_, body, _) = query(ImageDimension::D2, true, sampled(), ImageQuery::NumSamples, 7);
    assert_eq!(body, vec![(spirv::Op::ImageQuerySamples, Some(7), Some(201), vec![IMAGE])]);
}

#[test]
fn queries_need_a_capability_and_an_image() {
    let shader =
        shader(ImageDimension::D2, false, sampled(), float_vector(VectorSize::Bi));
    let mut c = context(&shader);
    c.writer.strict_capabilities = true;
    let mut block = Block::new(1);
    assert_eq!(
        c.write_image_query(7, ExprHandle(0), ImageQuery::NumLevels, &mut block),
        Err(Error::MissingCapability(spirv::Capability::ImageQuery))
    );
    assert!(block.body.is_empty());
    // A sampler is no image.
    assert_eq!(
        c.write_image_query(7, ExprHandle(1), ImageQuery::NumLevels, &mut block),
        Err(Error::Validation("image type"))
    );
}

#[test]
fn image_expressions_have_values() {
    let mut shader =
        shader(ImageDimension::D2, false, sampled(), float_vector(VectorSize::Bi));
    shader.fun.expressions.push(Expression::ImageLoad {
        image: ExprHandle(0),
        coordinate: ExprHandle(2),
        array_index: None,
        index: None,
    });
    shader.fun.expressions.push(Expression::ImageSample {
        image: ExprHandle(0),
        sampler: ExprHandle(1),
        coordinate: ExprHandle(2),
        array_index: None,
        offset: None,
        level: SampleLevel::Auto,
        depth_ref: None,
    });
    shader.fun.expressions.push(Expression::ImageQuery {
        image: ExprHandle(0),
        query: ImageQuery::NumLevels,
    });
    for _ in 0..3 {
        shader.info.types.push(TypeResolution::Value(float_vector(VectorSize::Quad)));
    }
    let mut c = context(&shader);
    c.cached.ids = vec![50, 52, 12, 13, 0, 0, 0];
    let mut block = Block::new(1);
    assert_eq!(c.write_emit(4, 7, &mut block), Ok(()));
    let ops: Vec<spirv::Op> = block.body.iter().map(|i| i.op).collect();
    assert_eq!(
        ops,
        vec![
            spirv::Op::ImageFetch,
            spirv::Op::SampledImage,
            spirv::Op::ImageSampleImplicitLod,
            spirv::Op::ImageQueryLevels,
        ]
    );
    assert_eq!(c.cached.ids[4], block.body[0].result_id.unwrap());
    assert_eq!(c.cached.ids[5], block.body[2].result_id.unwrap());
    assert_eq!(c.cached.ids[6], block.body[3].result_id.unwrap());
}

#[test]
fn image_stores_write() {
    let shader =
        shader(ImageDimension::D2, false, ImageClass::Storage, float_vector(VectorSize::Bi));
    let mut c = context(&shader);
    let mut block = Block::new(1);
    assert_eq!(
        c.write_image_store(ExprHandle(0), ExprHandle(2), None, ExprHandle(3), &mut block),
        Ok(())
    );
    assert_eq!(show(&block.body), vec![(spirv::Op::ImageWrite, None, None, vec![IMAGE, 12, 13])]);
}

fn numbers(size: VectorSize, kind: ScalarKind, width: u8) -> TypeInner {
    TypeInner::Vector { size, kind, width }
}

/// The blocks and declarations of extending coordinates of some type.
fn extend(coordinates: TypeInner) -> (Result<u32, Error>, Vec<Shown>, Vec<Shown>) {
    let shader = shader(ImageDimension::D2, true, ImageClass::Storage, coordinates);
    let mut c = context(&shader);
    let mut block = Block::new(1);
    let index = Some(ExprHandle(3));
    let result = c.write_texture_coordinates(ExprHandle(2), index, &mut block);
    (result, show(&block.body), show(&c.writer.declarations))
}

#[test]
fn an_arrayed_load_keeps_integer_coordinates() {
    let coordinates = numbers(VectorSize::Bi, ScalarKind::Sint, 4);
    let shader = shader(ImageDimension::D2, true, sampled(), coordinates);
    let mut c = context(&shader);
    let mut block = Block::new(1);
    let layer = Some(ExprHandle(3));
    assert_eq!(
        c.write_image_load(7, ExprHandle(0), ExprHandle(2), layer, None, &mut block),
        Ok(207)
    );
    assert_eq!(
        show(&block.body),
        vec![
            (spirv::Op::CompositeExtract, Some(201), Some(202), vec![12, 0]),
            (spirv::Op::CompositeExtract, Some(201), Some(203), vec![12, 1]),
            (spirv::Op::Bitcast, Some(201), Some(204), vec![13]),
            (spirv::Op::CompositeConstruct, Some(205), Some(206), vec![202, 203, 204]),
            (spirv::Op::ImageFetch, Some(7), Some(207), vec![IMAGE, 206]),
        ]
    );
    assert_eq!(
        show(&c.writer.declarations),
        vec![
            (spirv::Op::TypeInt, None, Some(201), vec![32, 1]),
            (spirv::Op::TypeVector, None, Some(205), vec![201, 3]),
        ]
    );
}

#[test]
fn an_arrayed_store_keeps_integer_coordinates() {
    let coordinates = numbers(VectorSize::Bi, ScalarKind::Sint, 4);
    let shader = shader(ImageDimension::D2, true, ImageClass::Storage, coordinates);
    let mut c = context(&shader);
    let mut block = Block::new(1);
    let layer = Some(ExprHandle(3));
    assert_eq!(
        c.write_image_store(ExprHandle(0), ExprHandle(2), layer, ExprHandle(3), &mut block),
        Ok(())
    );
    assert_eq!(
        show(&block.body),
        vec![
            (spirv::Op::CompositeExtract, Some(201), Some(202), vec![12, 0]),
            (spirv::Op::CompositeExtract, Some(201), Some(203), vec![12, 1]),
            (spirv::Op::Bitcast, Some(201), Some(204), vec![13]),
            (spirv::Op::CompositeConstruct, Some(205), Some(206), vec![202, 203, 204]),
            (spirv::Op::ImageWrite, None, None, vec![IMAGE, 206, 13]),
        ]
    );
    assert_eq!(
        show(&c.writer.declarations),
        vec![
            (spirv::Op::TypeInt, None, Some(201), vec![32, 1]),
            (spirv::Op::TypeVector, None, Some(205), vec![201, 3]),
        ]
    );
}

#[test]
fn unsigned_coordinates_take_the_index_as_it_is() {
    let (result, body, types) = extend(numbers(VectorSize::Tri, ScalarKind::Uint, 4));
    assert_eq!(result, Ok(206));
    assert_eq!(body.len(), 4);
    assert_eq!(
        body[3],
        (spirv::Op::CompositeConstruct, Some(205), Some(206), vec![202, 203, 204, 13])
    );
    assert_eq!(
        types,
        vec![
            (spirv::Op::TypeInt, None, Some(201), vec![32, 0]),
            (spirv::Op::TypeVector, None, Some(205), vec![201, 4]),
        ]
    );
}

#[test]
fn an_integer_and_an_index_make_a_pair() {
    let (result, body, types) = extend(TypeInner::Scalar { kind: ScalarKind::Sint, width: 4 });
    assert_eq!(result, Ok(204));
    assert_eq!(
        body,
        vec![
            (spirv::Op::Bitcast, Some(201), Some(202), vec![13]),
            (spirv::Op::CompositeConstruct, Some(203), Some(204), vec![12, 202]),
        ]
    );
    assert_eq!(types[1], (spirv::Op::TypeVector, None, Some(203), vec![201, 2]));
}

#[test]
fn wide_coordinates_widen_the_index() {
    let (_, body, _) = extend(TypeInner::Scalar { kind: ScalarKind::Uint, width: 8 });
    assert_eq!(body[0], (spirv::Op::UConvert, Some(201), Some(202), vec![13]));
    assert_eq!(body[1].3, vec![12, 202]);

    let (_, body, types) = extend(TypeInner::Scalar { kind: ScalarKind::Sint, width: 8 });
    assert_eq!(body[0], (spirv::Op::UConvert, Some(202), Some(203), vec![13]));
    assert_eq!(body[1], (spirv::Op::Bitcast, Some(201), Some(204), vec![203]));
    assert_eq!(body[2].3, vec![12, 204]);
    assert_eq!(types[0], (spirv::Op::TypeInt, None, Some(201), vec![64, 1]));
    assert_eq!(types[1], (spirv::Op::TypeInt, None, Some(202), vec![64, 0]));

    let (_, body, types) = extend(TypeInner::Scalar { kind: ScalarKind::Float, width: 8 });
    assert_eq!(body[0], (spirv::Op::ConvertUToF, Some(201), Some(202), vec![13]));
    assert_eq!(types[0], (spirv::Op::TypeFloat, None, Some(201), vec![64]));
}

#[test]
fn boolean_coordinates_are_extended_as_floating_point() {
    let (result, body, types) = extend(numbers(VectorSize::Bi, ScalarKind::Bool, 1));
    assert_eq!(result, Ok(206));
    assert_eq!(
        body,
        vec![
            (spirv::Op::CompositeExtract, Some(201), Some(202), vec![12, 0]),
            (spirv::Op::CompositeExtract, Some(201), Some(203), vec![12, 1]),
            (spirv::Op::ConvertUToF, Some(201), Some(204), vec![13]),
            (spirv::Op::CompositeConstruct, Some(205), Some(206), vec![202, 203, 204]),
        ]
    );
    assert_eq!(
        types,
        vec![
            (spirv::Op::TypeFloat, None, Some(201), vec![32]),
            (spirv::Op::TypeVector, None, Some(205), vec![201, 3]),
        ]
    );

    let (result, body, _) = extend(TypeInner::Scalar { kind: ScalarKind::Bool, width: 1 });
    assert_eq!(result, Ok(204));
    assert_eq!(body[1], (spirv::Op::CompositeConstruct, Some(203), Some(204), vec![12, 202]));

    let (result, body, _) = extend(numbers(VectorSize::Quad, ScalarKind::Bool, 1));
    assert_eq!(result, Err(Error::Validation("extending vec4 coordinate")));
    assert_eq!(body.len(), 4);
}

#[test]
fn four_integers_cannot_be_extended() {
    let (result, body, _) = extend(numbers(VectorSize::Quad, ScalarKind::Sint, 4));
    assert_eq!(result, Err(Error::Validation("extending vec4 coordinate")));
    assert_eq!(body.len(), 4);
}
