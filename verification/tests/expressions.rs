use spv_block::context::{BlockContext, CachedExpressions};
use spv_block::function::{Block, EntryPointContext, Function, Parameter};
use spv_block::instruction::Instruction;
use spv_block::ir::{
    self, AddressSpace, BinaryOperator, ConstantHandle, DerivativeAxis, ExprHandle, Expression,
    FunctionArgument, FunctionHandle, FunctionInfo, GlobalHandle, LocalHandle, MathFunction,
    Module, RelationalFunction, ScalarKind, SwizzleComponent, Type, TypeHandle, TypeInner,
    TypeResolution, UnaryOperator, VectorSize,
};
use spv_block::run::Error;
use spv_block::writer::{GlobalVariable, IndexBoundsCheckPolicy, Writer, WriterFlags};
use std::collections::HashMap;

type Shown = (spirv::Op, Option<u32>, Option<u32>, Vec<u32>);

fn show(list: &[Instruction]) -> Vec<Shown> {
    list.iter().map(|i| (i.op, i.type_id, i.result_id, i.operands.clone())).collect()
}

const FLOAT: TypeInner = TypeInner::Scalar { kind: ScalarKind::Float, width: 4 };
const UINT: TypeInner = TypeInner::Scalar { kind: ScalarKind::Uint, width: 4 };
const BOOL: TypeInner = TypeInner::Scalar { kind: ScalarKind::Bool, width: 1 };
const FLOAT3: TypeInner =
    TypeInner::Vector { size: VectorSize::Tri, kind: ScalarKind::Float, width: 4 };
const BOOL3: TypeInner =
    TypeInner::Vector { size: VectorSize::Tri, kind: ScalarKind::Bool, width: 1 };

/// The outcome of evaluating the last of a list of expressions. The others
/// have the values 101, 102 and so on, from the first on.
struct Outcome {
    result: Result<(), Error>,
    value: u32,
    body: Vec<Shown>,
    last_id: u32,
}

fn evaluate(expressions: Vec<(Expression, TypeInner)>) -> Outcome {
    let count = expressions.len();
    let mut list = Vec::new();
    let mut types = Vec::new();
    for (expression, inner) in expressions {
        list.push(expression);
        types.push(TypeResolution::Value(inner));
    }
    let module = Module {
        types: vec![Type { inner: TypeInner::Pointer { base: TypeHandle(0), class: AddressSpace::Private } }],
        constants: vec![],
        functions: vec![],
    };
    let fun = ir::Function { arguments: vec![], result: None, expressions: list };
    let info = FunctionInfo { types };
    let mut writer = Writer::new(
        WriterFlags { debug: false, adjust_coordinate_space: false },
        IndexBoundsCheckPolicy::UndefinedBehavior,
    );
    writer.gl450_ext_inst_id = 90;
    writer.global_variables.push(GlobalVariable { id: 50, handle_id: 0 });
    writer.constant_ids.push(60);
    let mut ids: Vec<u32> = (0..count as u32).map(|i| 101 + i).collect();
    ids[count - 1] = 0;
    let mut variables = HashMap::new();
    variables.insert(3, 55);
    let mut context = BlockContext {
        writer,
        ir_module: &module,
        ir_function: &fun,
        fun_info: &info,
        function: Function {
            parameters: vec![Parameter { id: 40, handle_id: 41 }],
            variables,
            blocks: vec![],
            entry_point_context: None,
        },
        cached: CachedExpressions { ids },
    };
    let mut block = Block::new(200);
    let result = context.cache_expression_value(ExprHandle(count as u32 - 1), &mut block);
    Outcome {
        result,
        value: context.cached.ids[count - 1],
        body: show(&block.body),
        last_id: context.writer.id_gen.last,
    }
}

/// An expression that has a value already.
fn operand() -> Expression {
    Expression::Constant(ConstantHandle(0))
}

#[test]
fn leaves_take_the_ids_that_they_have() {
    assert_eq!(evaluate(vec![(Expression::GlobalVariable(GlobalHandle(0)), FLOAT)]).value, 50);
    assert_eq!(evaluate(vec![(Expression::LocalVariable(LocalHandle(3)), FLOAT)]).value, 55);
    assert_eq!(evaluate(vec![(operand(), FLOAT)]).value, 60);
    let argument = evaluate(vec![(Expression::FunctionArgument(0), FLOAT)]);
    assert_eq!(argument.value, 40);
    assert!(argument.body.is_empty());
    // Only the type is declared.
    assert_eq!(argument.last_id, 1);
}

#[test]
fn entry_point_arguments_are_loaded_inputs() {
    let module = Module { types: vec![], constants: vec![], functions: vec![] };
    let fun = ir::Function {
        arguments: vec![FunctionArgument { ty: TypeHandle(0) }],
        result: None,
        expressions: vec![Expression::FunctionArgument(0)],
    };
    let info = FunctionInfo { types: vec![TypeResolution::Value(FLOAT)] };
    let mut context = BlockContext {
        writer: Writer::new(
            WriterFlags { debug: false, adjust_coordinate_space: false },
            IndexBoundsCheckPolicy::Restrict,
        ),
        ir_module: &module,
        ir_function: &fun,
        fun_info: &info,
        function: Function {
            parameters: vec![],
            variables: HashMap::new(),
            blocks: vec![],
            entry_point_context: Some(EntryPointContext { argument_ids: vec![77], results: vec![] }),
        },
        cached: CachedExpressions { ids: vec![0] },
    };
    let mut block = Block::new(200);
    assert_eq!(context.cache_expression_value(ExprHandle(0), &mut block), Ok(()));
    assert_eq!(context.cached.ids, vec![77]);
}

#[test]
fn vectors_are_built_from_scalars() {
    let splat = evaluate(vec![
        (operand(), FLOAT),
        (Expression::Splat { size: VectorSize::Tri, value: ExprHandle(0) }, FLOAT3),
    ]);
    assert_eq!(
        splat.body,
        vec![(spirv::Op::CompositeConstruct, Some(1), Some(3), vec![101, 101, 101])]
    );
    assert_eq!(splat.value, 3);

    let compose = evaluate(vec![
        (operand(), FLOAT),
        (operand(), FLOAT),
        (
            Expression::Compose {
                ty: TypeHandle(0),
                components: vec![ExprHandle(1), ExprHandle(0), ExprHandle(1)],
            },
            FLOAT3,
        ),
    ]);
    assert_eq!(
        compose.body,
        vec![(spirv::Op::CompositeConstruct, Some(1), Some(3), vec![102, 101, 102])]
    );
}

#[test]
fn swizzles_take_the_first_components_of_their_pattern() {
    let swizzle = evaluate(vec![
        (operand(), FLOAT3),
        (
            Expression::Swizzle {
                size: VectorSize::Tri,
                vector: ExprHandle(0),
                pattern: [
                    SwizzleComponent::Z,
                    SwizzleComponent::X,
                    SwizzleComponent::W,
                    SwizzleComponent::Y,
                ],
            },
            FLOAT3,
        ),
    ]);
    assert_eq!(
        swizzle.body,
        vec![(spirv::Op::VectorShuffle, Some(1), Some(3), vec![101, 101, 2, 0, 3])]
    );
}

#[test]
fn operations_take_their_operands() {
    let unary = evaluate(vec![
        (operand(), FLOAT),
        (Expression::Unary { op: UnaryOperator::Negate, expr: ExprHandle(0) }, FLOAT),
    ]);
    assert_eq!(unary.body, vec![(spirv::Op::FNegate, Some(1), Some(2), vec![101])]);

    let swapped = evaluate(vec![
        (operand(), FLOAT),
        (operand(), FLOAT3),
        (
            Expression::Binary {
                op: BinaryOperator::Multiply,
                left: ExprHandle(0),
                right: ExprHandle(1),
            },
            FLOAT3,
        ),
    ]);
    assert_eq!(
        swapped.body,
        vec![(spirv::Op::VectorTimesScalar, Some(1), Some(3), vec![102, 101])]
    );

    let derivative = evaluate(vec![
        (operand(), FLOAT),
        (Expression::Derivative { axis: DerivativeAxis::Width, expr: ExprHandle(0) }, FLOAT),
    ]);
    assert_eq!(derivative.body, vec![(spirv::Op::Fwidth, Some(1), Some(2), vec![101])]);

    let any = evaluate(vec![
        (operand(), BOOL3),
        (Expression::Relational { fun: RelationalFunction::Any, argument: ExprHandle(0) }, BOOL),
    ]);
    assert_eq!(any.body, vec![(spirv::Op::Any, Some(1), Some(2), vec![101])]);

    let cast = evaluate(vec![
        (operand(), FLOAT),
        (
            Expression::As { expr: ExprHandle(0), kind: ScalarKind::Uint, convert: Some(4) },
            UINT,
        ),
    ]);
    assert_eq!(cast.body, vec![(spirv::Op::ConvertFToU, Some(1), Some(2), vec![101])]);
}

#[test]
fn math_functions_take_as_many_arguments_as_they_need() {
    let math = |fun, arg1, arg2| {
        evaluate(vec![
            (operand(), FLOAT),
            (operand(), FLOAT),
            (operand(), FLOAT),
            (Expression::Math { fun, arg: ExprHandle(0), arg1, arg2 }, FLOAT),
        ])
        .body
    };
    let sin = spirv::GLOp::Sin as u32;
    assert_eq!(
        math(MathFunction::Sin, None, None),
        vec![(spirv::Op::ExtInst, Some(1), Some(2), vec![90, sin, 101])]
    );
    let pow = spirv::GLOp::Pow as u32;
    assert_eq!(
        math(MathFunction::Pow, Some(ExprHandle(1)), None),
        vec![(spirv::Op::ExtInst, Some(1), Some(2), vec![90, pow, 101, 102])]
    );
    let clamp = spirv::GLOp::FClamp as u32;
    assert_eq!(
        math(MathFunction::Clamp, Some(ExprHandle(1)), Some(ExprHandle(2))),
        vec![(spirv::Op::ExtInst, Some(1), Some(2), vec![90, clamp, 101, 102, 103])]
    );
    // An argument that is left out is zero, one that is not wanted is dropped.
    assert_eq!(
        math(MathFunction::Pow, None, Some(ExprHandle(2))),
        vec![(spirv::Op::ExtInst, Some(1), Some(2), vec![90, pow, 101, 0])]
    );
    assert_eq!(
        math(MathFunction::Dot, Some(ExprHandle(1)), None),
        vec![(spirv::Op::Dot, Some(1), Some(2), vec![101, 102])]
    );
}

#[test]
fn a_boolean_that_selects_vectors_becomes_a_vector() {
    let select = |condition, object| {
        evaluate(vec![
            (operand(), condition),
            (operand(), object),
            (operand(), object),
            (
                Expression::Select {
                    condition: ExprHandle(0),
                    accept: ExprHandle(1),
                    reject: ExprHandle(2),
                },
                object,
            ),
        ])
    };
    let scalars = select(BOOL, FLOAT);
    assert_eq!(scalars.body, vec![(spirv::Op::Select, Some(1), Some(2), vec![101, 102, 103])]);
    // 1, 2: vector and its scalar; 3: result; 4, 5: boolean vector type; 6: condition
    let vectors = select(BOOL, FLOAT3);
    assert_eq!(
        vectors.body,
        vec![
            (spirv::Op::CompositeConstruct, Some(4), Some(6), vec![101, 101, 101]),
            (spirv::Op::Select, Some(1), Some(3), vec![6, 102, 103]),
        ]
    );
    assert_eq!(vectors.value, 3);
    let by_component = select(BOOL3, FLOAT3);
    assert_eq!(
        by_component.body,
        vec![(spirv::Op::Select, Some(1), Some(3), vec![101, 102, 103])]
    );
}

#[test]
fn parts_of_values_are_extracted() {
    let known = evaluate(vec![
        (operand(), FLOAT3),
        (Expression::AccessIndex { base: ExprHandle(0), index: 2 }, FLOAT),
    ]);
    assert_eq!(known.body, vec![(spirv::Op::CompositeExtract, Some(1), Some(2), vec![101, 2])]);
    let computed = evaluate(vec![
        (operand(), FLOAT3),
        (operand(), UINT),
        (Expression::Access { base: ExprHandle(0), index: ExprHandle(1) }, FLOAT),
    ]);
    assert_eq!(
        computed.body,
        vec![(spirv::Op::VectorExtractDynamic, Some(1), Some(2), vec![101, 102])]
    );
}

#[test]
fn parts_of_pointers_are_put_off() {
    let pointer = TypeInner::ValuePointer {
        size: None,
        kind: ScalarKind::Float,
        width: 4,
        class: AddressSpace::Private,
    };
    let known = evaluate(vec![
        (Expression::GlobalVariable(GlobalHandle(0)), pointer),
        (Expression::AccessIndex { base: ExprHandle(0), index: 2 }, pointer),
    ]);
    assert_eq!(known.result, Ok(()));
    assert_eq!(known.value, 0);
    assert!(known.body.is_empty());
    let computed = evaluate(vec![
        (Expression::LocalVariable(LocalHandle(3)), pointer),
        (operand(), UINT),
        (Expression::Access { base: ExprHandle(0), index: ExprHandle(1) }, pointer),
    ]);
    assert_eq!((computed.value, computed.body.len()), (0, 0));
}

#[test]
fn what_is_built_on_a_deferred_access_is_deferred() {
    let pointer = TypeInner::ValuePointer {
        size: None,
        kind: ScalarKind::Float,
        width: 4,
        class: AddressSpace::Private,
    };
    let module = Module {
        types: vec![Type { inner: pointer }, Type { inner: FLOAT }],
        constants: vec![],
        functions: vec![],
    };
    let fun = ir::Function {
        arguments: vec![
            FunctionArgument { ty: TypeHandle(0) },
            FunctionArgument { ty: TypeHandle(1) },
        ],
        result: None,
        expressions: vec![
            Expression::FunctionArgument(0),
            Expression::AccessIndex { base: ExprHandle(0), index: 1 },
            Expression::AccessIndex { base: ExprHandle(1), index: 1 },
            Expression::FunctionArgument(1),
        ],
    };
    let info = FunctionInfo { types: vec![TypeResolution::Value(pointer); 4] };
    let mut context = BlockContext {
        writer: Writer::new(
            WriterFlags { debug: false, adjust_coordinate_space: false },
            IndexBoundsCheckPolicy::Restrict,
        ),
        ir_module: &module,
        ir_function: &fun,
        fun_info: &info,
        function: Function {
            parameters: vec![Parameter { id: 40, handle_id: 0 }, Parameter { id: 41, handle_id: 0 }],
            variables: HashMap::new(),
            blocks: vec![],
            entry_point_context: None,
        },
        cached: CachedExpressions { ids: vec![0; 4] },
    };
    let mut block = Block::new(200);
    for i in 0..4 {
        assert_eq!(context.cache_expression_value(ExprHandle(i), &mut block), Ok(()));
    }
    assert_eq!(context.cached.ids, vec![40, 0, 0, 41]);
    assert!(context.is_intermediate(ExprHandle(0)));
    assert!(context.is_intermediate(ExprHandle(1)));
    assert!(context.is_intermediate(ExprHandle(2)));
    assert!(!context.is_intermediate(ExprHandle(3)));
    assert!(block.body.is_empty());
}

#[test]
fn only_vectors_are_indexed_by_value() {
    let outcome = evaluate(vec![
        (
            operand(),
            TypeInner::Matrix { columns: VectorSize::Bi, rows: VectorSize::Bi, width: 4 },
        ),
        (operand(), UINT),
        (Expression::Access { base: ExprHandle(0), index: ExprHandle(1) }, FLOAT),
    ]);
    assert_eq!(
        outcome.result,
        Err(Error::Validation("only vectors may be dynamically indexed by value"))
    );
    assert_eq!((outcome.value, outcome.body.len()), (0, 0));
}

#[test]
fn scalars_have_no_parts() {
    let outcome = evaluate(vec![
        (operand(), FLOAT),
        (Expression::AccessIndex { base: ExprHandle(0), index: 0 }, FLOAT),
    ]);
    assert_eq!(outcome.result, Err(Error::FeatureNotImplemented("access index for type")));
}

#[test]
fn unsupported_operations_are_refused() {
    let negation = evaluate(vec![
        (operand(), UINT),
        (Expression::Unary { op: UnaryOperator::Negate, expr: ExprHandle(0) }, UINT),
    ]);
    assert_eq!(negation.result, Err(Error::FeatureNotImplemented("negation")));
    // The id was taken already.
    assert_eq!(negation.last_id, 2);

    let bits = evaluate(vec![
        (operand(), UINT),
        (
            Expression::Math {
                fun: MathFunction::ReverseBits,
                arg: ExprHandle(0),
                arg1: None,
                arg2: None,
            },
            UINT,
        ),
    ]);
    assert_eq!(bits.result, Err(Error::FeatureNotImplemented("math function")));

    let finite = evaluate(vec![
        (operand(), FLOAT),
        (
            Expression::Relational { fun: RelationalFunction::IsFinite, argument: ExprHandle(0) },
            BOOL,
        ),
    ]);
    assert_eq!(finite.result, Err(Error::FeatureNotImplemented("is finite/normal")));
    assert_eq!(finite.last_id, 1);

    let source = evaluate(vec![
        (operand(), TypeInner::Sampler { comparison: false }),
        (Expression::As { expr: ExprHandle(0), kind: ScalarKind::Uint, convert: None }, UINT),
    ]);
    assert_eq!(source.result, Err(Error::Validation("Unexpected Expression::As source")));
}

#[test]
fn values_are_kept_and_new_ones_are_fresh() {
    let module = Module { types: vec![], constants: vec![], functions: vec![] };
    let fun = ir::Function {
        arguments: vec![],
        result: None,
        expressions: vec![
            operand(),
            Expression::Unary { op: UnaryOperator::Negate, expr: ExprHandle(0) },
            Expression::Unary { op: UnaryOperator::Negate, expr: ExprHandle(1) },
            Expression::Call(FunctionHandle(0)),
        ],
    };
    let info = FunctionInfo { types: vec![TypeResolution::Value(FLOAT); 4] };
    let mut writer = Writer::new(
        WriterFlags { debug: false, adjust_coordinate_space: false },
        IndexBoundsCheckPolicy::Restrict,
    );
    writer.id_gen.last = 10;
    writer.constant_ids.push(5);
    writer.lookup_function_call.insert(3, 9);
    let mut context = BlockContext {
        writer,
        ir_module: &module,
        ir_function: &fun,
        fun_info: &info,
        function: Function {
            parameters: vec![],
            variables: HashMap::new(),
            blocks: vec![],
            entry_point_context: None,
        },
        cached: CachedExpressions { ids: vec![0; 4] },
    };
    let mut block = Block::new(1);
    assert_eq!(context.write_emit(0, 4, &mut block), Ok(()));
    assert_eq!(context.cached.ids, vec![5, 12, 13, 9]);
    assert_eq!(
        show(&block.body),
        vec![
            (spirv::Op::FNegate, Some(11), Some(12), vec![5]),
            (spirv::Op::FNegate, Some(11), Some(13), vec![12]),
        ]
    );
    // An empty range changes nothing.
    assert_eq!(context.write_emit(2, 2, &mut block), Ok(()));
    assert_eq!(context.cached.ids, vec![5, 12, 13, 9]);
}

#[test]
fn scalar_times_vector_is_vector_times_scalar() {
    let module = Module { types: vec![], constants: vec![], functions: vec![] };
    let multiply = |left, right| Expression::Binary { op: BinaryOperator::Multiply, left, right };
    let fun = ir::Function {
        arguments: vec![],
        result: None,
        expressions: vec![
            operand(),
            operand(),
            multiply(ExprHandle(0), ExprHandle(1)),
            multiply(ExprHandle(1), ExprHandle(0)),
        ],
    };
    let value = TypeResolution::Value;
    let info =
        FunctionInfo { types: vec![value(FLOAT), value(FLOAT3), value(FLOAT3), value(FLOAT3)] };
    let mut context = BlockContext {
        writer: Writer::new(
            WriterFlags { debug: false, adjust_coordinate_space: false },
            IndexBoundsCheckPolicy::Restrict,
        ),
        ir_module: &module,
        ir_function: &fun,
        fun_info: &info,
        function: Function {
            parameters: vec![],
            variables: HashMap::new(),
            blocks: vec![],
            entry_point_context: None,
        },
        cached: CachedExpressions { ids: vec![101, 102, 0, 0] },
    };
    let mut block = Block::new(200);
    assert_eq!(context.write_emit(2, 4, &mut block), Ok(()));
    assert_eq!(
        show(&block.body),
        vec![
            (spirv::Op::VectorTimesScalar, Some(1), Some(3), vec![102, 101]),
            (spirv::Op::VectorTimesScalar, Some(1), Some(4), vec![102, 101]),
        ]
    );
}
