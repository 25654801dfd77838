use spv_block::context::{BlockContext, CachedExpressions};
use spv_block::function::{Block, Function};
use spv_block::instruction::Instruction;
use spv_block::ir::{
    self, AddressSpace, ArraySize, Constant, ConstantHandle, ExprHandle, Expression, FunctionInfo,
    GlobalHandle, Module, ScalarKind, ScalarValue, Type, TypeHandle, TypeInner, TypeResolution,
    VectorSize,
};
use spv_block::pointer::ExpressionPointer;
use spv_block::run::Error;
use spv_block::writer::{GlobalVariable, IndexBoundsCheckPolicy, Writer, WriterFlags};
use std::collections::HashMap;

type Shown = (spirv::Op, Option<u32>, Option<u32>, Vec<u32>);

fn show(list: &[Instruction]) -> Vec<Shown> {
    list.iter().map(|i| (i.op, i.type_id, i.result_id, i.operands.clone())).collect()
}

const UINT: TypeInner = TypeInner::Scalar { kind: ScalarKind::Uint, width: 4 };

fn pointer_to(base: u32) -> TypeInner {
    TypeInner::Pointer { base: TypeHandle(base), class: AddressSpace::Storage }
}

/// A structure whose second member is a run-time sized array of arrays of ten
/// numbers:
///
///     0: the variable
///     1: its second member
///     2, 3: two indices
///     4: the element of the member at the first index
///     5: the number in it at the second index
///     6: the value there
///     7: the number in it at the constant index
///     8: the constant index
struct Shader {
    module: Module,
    fun: ir::Function,
    info: FunctionInfo,
}

fn shader(constant: u64) -> Shader {
    let inner = |inner| Type { inner };
    let types = vec![
        inner(UINT),
        inner(TypeInner::Array {
            base: TypeHandle(0),
            size: ArraySize::Constant(ConstantHandle(0)),
            stride: 4,
        }),
        inner(TypeInner::Array { base: TypeHandle(1), size: ArraySize::Dynamic, stride: 40 }),
        inner(TypeInner::Struct { span: 4 }),
    ];
    let constants = vec![
        Constant::Scalar { width: 4, value: ScalarValue::Uint(10) },
        Constant::Scalar { width: 4, value: ScalarValue::Uint(constant) },
    ];
    let expressions = vec![
        Expression::GlobalVariable(GlobalHandle(0)),
        Expression::AccessIndex { base: ExprHandle(0), index: 1 },
        Expression::Constant(ConstantHandle(0)),
        Expression::Load { pointer: ExprHandle(0) },
        Expression::Access { base: ExprHandle(1), index: ExprHandle(2) },
        Expression::Access { base: ExprHandle(4), index: ExprHandle(3) },
        Expression::Load { pointer: ExprHandle(5) },
        Expression::Access { base: ExprHandle(4), index: ExprHandle(8) },
        Expression::Constant(ConstantHandle(1)),
    ];
    let value = TypeResolution::Value;
    let info = FunctionInfo {
        types: vec![
            value(pointer_to(3)),
            value(pointer_to(2)),
            value(UINT),
            value(UINT),
            value(pointer_to(1)),
            value(pointer_to(0)),
            value(UINT),
            value(pointer_to(0)),
            value(UINT),
        ],
    };
    Shader {
        module: Module { types, constants, functions: vec![] },
        fun: ir::Function { arguments: vec![], result: None, expressions },
        info,
    }
}

fn context(shader: &Shader, policy: IndexBoundsCheckPolicy) -> BlockContext<'_> {
    let mut writer = Writer::new(WriterFlags { debug: false, adjust_coordinate_space: false }, policy);
    writer.gl450_ext_inst_id = 99;
    writer.id_gen.last = 200;
    writer.global_variables.push(GlobalVariable { id: 50, handle_id: 0 });
    for (index, id) in [(0, 60), (1, 61), (2, 62), (3, 63)] {
        writer.lookup_type.push((spv_block::types::LookupType::Handle(TypeHandle(index)), id));
    }
    BlockContext {
        writer,
        ir_module: &shader.module,
        ir_function: &shader.fun,
        fun_info: &shader.info,
        function: Function {
            parameters: vec![],
            variables: HashMap::new(),
            blocks: vec![],
            entry_point_context: None,
        },
        cached: CachedExpressions { ids: vec![50, 0, 12, 13, 0, 0, 0, 0, 18] },
    }
}

fn ready(result: Result<ExpressionPointer, Error>) -> u32 {
    match result {
        Ok(ExpressionPointer::Ready { pointer_id }) => pointer_id,
        other => panic!("{:?}", other),
    }
}

#[test]
fn a_variable_is_its_own_pointer() {
    let shader = shader(0);
    let mut c = context(&shader, IndexBoundsCheckPolicy::ReadZeroSkipWrite);
    let mut block = Block::new(1);
    assert_eq!(ready(c.write_expression_pointer(ExprHandle(0), &mut block)), 50);
    assert!(block.body.is_empty());
}

#[test]
fn a_chain_is_one_access() {
    let shader = shader(0);
    let mut c = context(&shader, IndexBoundsCheckPolicy::UndefinedBehavior);
    let mut block = Block::new(1);
    let id = ready(c.write_expression_pointer(ExprHandle(5), &mut block));
    // 201: pointer type, 202: member index, 203: its type, 204: pointer
    assert_eq!(id, 204);
    assert_eq!(
        show(&block.body),
        vec![(spirv::Op::AccessChain, Some(201), Some(204), vec![50, 202, 12, 13])]
    );
    let storage = spirv::StorageClass::StorageBuffer as u32;
    assert_eq!(
        show(&c.writer.declarations),
        vec![
            (spirv::Op::TypePointer, None, Some(201), vec![storage, 60]),
            (spirv::Op::TypeInt, None, Some(203), vec![32, 0]),
            (spirv::Op::Constant, Some(203), Some(202), vec![1]),
        ]
    );
}

#[test]
fn restricted_indices_are_clamped() {
    let shader = shader(0);
    let mut c = context(&shader, IndexBoundsCheckPolicy::Restrict);
    let mut block = Block::new(1);
    let id = ready(c.write_expression_pointer(ExprHandle(5), &mut block));
    let umin = spirv::GLOp::UMin as u32;
    let body = show(&block.body);
    // The inner length is known, the outer one is not.
    let ops: Vec<spirv::Op> = body.iter().map(|i| i.0).collect();
    assert_eq!(
        ops,
        vec![
            spirv::Op::ExtInst,
            spirv::Op::ArrayLength,
            spirv::Op::ISub,
            spirv::Op::ExtInst,
            spirv::Op::AccessChain,
        ]
    );
    let uint = body[0].1.unwrap();
    let nine = show(&c.writer.declarations)
        .into_iter()
        .find(|i| i.3 == vec![9])
        .and_then(|i| i.2)
        .unwrap();
    assert_eq!(body[0].3, vec![99, umin, 13, nine]);
    assert_eq!(body[1].3, vec![50, 1]);
    assert_eq!(body[1].1, Some(uint));
    assert_eq!(body[2].3[0], body[1].2.unwrap());
    assert_eq!(body[3].3, vec![99, umin, 12, body[2].2.unwrap()]);
    assert_eq!(body[4].3[0], 50);
    assert_eq!(body[4].3[2..], [body[3].2.unwrap(), body[0].2.unwrap()]);
    assert_eq!(body[4].2, Some(id));
}

#[test]
fn tested_indices_make_a_pointer_conditional() {
    let shader = shader(0);
    let mut c = context(&shader, IndexBoundsCheckPolicy::ReadZeroSkipWrite);
    let mut block = Block::new(1);
    match c.write_expression_pointer(ExprHandle(5), &mut block) {
        Ok(ExpressionPointer::Conditional { condition, access }) => {
            let body = show(&block.body);
            let ops: Vec<spirv::Op> = body.iter().map(|i| i.0).collect();
            assert_eq!(
                ops,
                vec![
                    spirv::Op::ULessThan,
                    spirv::Op::ArrayLength,
                    spirv::Op::ULessThan,
                    spirv::Op::LogicalAnd,
                ]
            );
            assert_eq!(body[0].3[0], 13);
            assert_eq!(body[2].3, vec![12, body[1].2.unwrap()]);
            assert_eq!(body[3].3, vec![body[0].2.unwrap(), body[2].2.unwrap()]);
            assert_eq!(condition, body[3].2.unwrap());
            // The indices are used as they are.
            assert_eq!(access.operands[2..], [12, 13]);
            assert_eq!(access.op, spirv::Op::AccessChain);
        }
        other => panic!("{:?}", other),
    }
}

#[test]
fn constant_indices_are_checked_beforehand() {
    for policy in [IndexBoundsCheckPolicy::Restrict, IndexBoundsCheckPolicy::ReadZeroSkipWrite] {
        let shader = shader(4);
        let mut c = context(&shader, policy);
        let mut block = Block::new(1);
        let result = c.write_bounds_check(ExprHandle(4), ExprHandle(8), &mut block);
        assert_eq!(result, Ok(spv_block::index::BoundsCheckResult::KnownInBounds(4)));
        assert!(block.body.is_empty());
    }
    // Out of bounds: moved to the last element, or tested after all.
    let shader = shader(25);
    let mut c = context(&shader, IndexBoundsCheckPolicy::Restrict);
    let mut block = Block::new(1);
    let result = c.write_bounds_check(ExprHandle(4), ExprHandle(8), &mut block);
    assert_eq!(result, Ok(spv_block::index::BoundsCheckResult::KnownInBounds(9)));
    let mut c = context(&shader, IndexBoundsCheckPolicy::ReadZeroSkipWrite);
    match c.write_bounds_check(ExprHandle(4), ExprHandle(8), &mut block) {
        Ok(spv_block::index::BoundsCheckResult::Conditional(id)) => {
            assert_eq!(block.body[0].op, spirv::Op::ULessThan);
            assert_eq!(block.body[0].result_id, Some(id));
        }
        other => panic!("{:?}", other),
    }
}

#[test]
fn a_load_under_a_condition_gives_zero_otherwise() {
    let shader = shader(0);
    let mut c = context(&shader, IndexBoundsCheckPolicy::ReadZeroSkipWrite);
    let mut block = Block::new(1);
    assert_eq!(c.cache_expression_value(ExprHandle(6), &mut block), Ok(()));
    assert_eq!(c.function.blocks.len(), 2);
    let header = &c.function.blocks[0];
    let in_bounds = &c.function.blocks[1];
    assert_eq!(header.label_id, 1);
    let head = show(&header.body);
    let n = head.len();
    let condition = head[n - 3].2.unwrap();
    assert_eq!(head[n - 3].0, spirv::Op::LogicalAnd);
    assert_eq!(head[n - 2], (spirv::Op::SelectionMerge, None, None, vec![block.label_id, 0]));
    assert_eq!(
        head[n - 1],
        (
            spirv::Op::BranchConditional,
            None,
            None,
            vec![condition, in_bounds.label_id, block.label_id]
        )
    );
    let inside = show(&in_bounds.body);
    assert_eq!(inside.len(), 3);
    assert_eq!(inside[0].0, spirv::Op::AccessChain);
    assert_eq!(inside[1].0, spirv::Op::Load);
    assert_eq!(inside[1].3, vec![inside[0].2.unwrap()]);
    assert_eq!(inside[2], (spirv::Op::Branch, None, None, vec![block.label_id]));
    let zero = &c.writer.declarations[c.writer.declarations.len() - 1];
    assert_eq!(zero.op, spirv::Op::ConstantNull);
    assert_eq!(block.body.len(), 1);
    assert_eq!(block.body[0].op, spirv::Op::Phi);
    assert_eq!(block.body[0].result_id, Some(c.cached.ids[6]));
    assert_eq!(
        block.body[0].operands,
        vec![zero.result_id.unwrap(), 1, inside[1].2.unwrap(), in_bounds.label_id]
    );
}

#[test]
fn a_store_under_a_condition_is_skipped_otherwise() {
    let shader = shader(0);
    let mut c = context(&shader, IndexBoundsCheckPolicy::ReadZeroSkipWrite);
    let mut block = Block::new(1);
    assert_eq!(c.write_store(ExprHandle(5), ExprHandle(3), &mut block), Ok(()));
    assert_eq!(c.function.blocks.len(), 2);
    let in_bounds = show(&c.function.blocks[1].body);
    assert_eq!(in_bounds[1], (spirv::Op::Store, None, None, vec![in_bounds[0].2.unwrap(), 13]));
    assert_eq!(in_bounds[2], (spirv::Op::Branch, None, None, vec![block.label_id]));
    assert!(block.body.is_empty());
    let head = &c.function.blocks[0].body;
    assert_eq!(head[head.len() - 1].operands[1..], [c.function.blocks[1].label_id, block.label_id]);
}

#[test]
fn a_ready_store_stays_in_the_block() {
    let shader = shader(0);
    let mut c = context(&shader, IndexBoundsCheckPolicy::UndefinedBehavior);
    let mut block = Block::new(1);
    assert_eq!(c.write_store(ExprHandle(5), ExprHandle(3), &mut block), Ok(()));
    assert!(c.function.blocks.is_empty());
    assert_eq!(show(&block.body)[1], (spirv::Op::Store, None, None, vec![204, 13]));
}

#[test]
fn array_lengths_belong_to_members_of_variables() {
    let shader = shader(0);
    let mut c = context(&shader, IndexBoundsCheckPolicy::Restrict);
    let mut block = Block::new(1);
    assert_eq!(c.write_runtime_array_length(ExprHandle(1), &mut block), Ok(201));
    assert_eq!(
        show(&block.body),
        vec![(spirv::Op::ArrayLength, Some(202), Some(201), vec![50, 1])]
    );
    assert_eq!(
        c.write_runtime_array_length(ExprHandle(4), &mut block),
        Err(Error::Validation("array length expression"))
    );
}

#[test]
fn what_has_no_length_cannot_be_checked() {
    let shader = shader(0);
    let mut c = context(&shader, IndexBoundsCheckPolicy::Restrict);
    let mut block = Block::new(1);
    assert_eq!(
        c.write_bounds_check(ExprHandle(2), ExprHandle(3), &mut block),
        Err(Error::Validation("indexable length"))
    );
}

#[test]
fn vector_components_are_checked_too() {
    let float3 = TypeInner::Vector { size: VectorSize::Tri, kind: ScalarKind::Float, width: 4 };
    let float = TypeInner::Scalar { kind: ScalarKind::Float, width: 4 };
    let shader = Shader {
        module: Module { types: vec![], constants: vec![], functions: vec![] },
        fun: ir::Function {
            arguments: vec![],
            result: None,
            expressions: vec![
                Expression::Load { pointer: ExprHandle(0) },
                Expression::Load { pointer: ExprHandle(0) },
                Expression::Access { base: ExprHandle(0), index: ExprHandle(1) },
            ],
        },
        info: FunctionInfo {
            types: vec![
                TypeResolution::Value(float3),
                TypeResolution::Value(UINT),
                TypeResolution::Value(float),
            ],
        },
    };
    let mut c = context(&shader, IndexBoundsCheckPolicy::ReadZeroSkipWrite);
    c.cached.ids = vec![11, 12, 0];
    let mut block = Block::new(1);
    assert_eq!(c.cache_expression_value(ExprHandle(2), &mut block), Ok(()));
    let inside = show(&c.function.blocks[1].body);
    assert_eq!(inside[0].0, spirv::Op::VectorExtractDynamic);
    assert_eq!(inside[0].3, vec![11, 12]);
    assert_eq!(block.body[0].op, spirv::Op::Phi);
    let three = c.writer.declarations.iter().any(|i| i.operands == vec![3]);
    assert!(three);

    let mut c = context(&shader, IndexBoundsCheckPolicy::Restrict);
    c.cached.ids = vec![11, 12, 0];
    let mut block = Block::new(1);
    assert_eq!(c.cache_expression_value(ExprHandle(2), &mut block), Ok(()));
    assert!(c.function.blocks.is_empty());
    assert_eq!(block.body[0].op, spirv::Op::ExtInst);
    assert_eq!(block.body[1].op, spirv::Op::VectorExtractDynamic);
    assert_eq!(block.body[1].operands, vec![11, block.body[0].result_id.unwrap()]);
}
