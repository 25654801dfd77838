use spv_block::block::LoopContext;
use spv_block::context::{BlockContext, CachedExpressions};
use spv_block::function::{Block, EntryPointContext, Function, ResultMember};
use spv_block::instruction::Instruction;
use spv_block::ir::{
    self, Barrier, Binding, BuiltIn, ConstantHandle, ExprHandle, Expression, FunctionHandle,
    FunctionInfo, FunctionResult, Module, ScalarKind, Statement, SwitchCase, TypeHandle,
    TypeInner, TypeResolution, UnaryOperator,
};
use spv_block::run::Error;
use spv_block::types::LookupType;
use spv_block::writer::{IndexBoundsCheckPolicy, Writer, WriterFlags};
use std::collections::{HashMap, HashSet};

type Shown = (spirv::Op, Option<u32>, Option<u32>, Vec<u32>);

fn show(list: &[Instruction]) -> Vec<Shown> {
    list.iter().map(|i| (i.op, i.type_id, i.result_id, i.operands.clone())).collect()
}

fn branch(label: u32) -> Shown {
    (spirv::Op::Branch, None, None, vec![label])
}

fn plain(op: spirv::Op, operands: &[u32]) -> Shown {
    (op, None, None, operands.to_vec())
}

const FLOAT: TypeInner = TypeInner::Scalar { kind: ScalarKind::Float, width: 4 };

/// A function whose first two expressions have the values 11 and 12; the third
/// negates the first, the fourth is the result of a call.
struct Shader {
    module: Module,
    fun: ir::Function,
    info: FunctionInfo,
}

fn shader(result: Option<FunctionResult>) -> Shader {
    let callee = ir::Function {
        arguments: vec![],
        result: Some(FunctionResult { ty: TypeHandle(0), binding: None }),
        expressions: vec![],
    };
    Shader {
        module: Module { types: vec![], constants: vec![], functions: vec![callee] },
        fun: ir::Function {
            arguments: vec![],
            result,
            expressions: vec![
                Expression::Constant(ConstantHandle(0)),
                Expression::Constant(ConstantHandle(0)),
                Expression::Unary { op: UnaryOperator::Negate, expr: ExprHandle(0) },
                Expression::Call(FunctionHandle(0)),
            ],
        },
        info: FunctionInfo { types: vec![TypeResolution::Value(FLOAT); 4] },
    }
}

fn context(shader: &Shader) -> BlockContext<'_> {
    let mut writer = Writer::new(
        WriterFlags { debug: false, adjust_coordinate_space: false },
        IndexBoundsCheckPolicy::UndefinedBehavior,
    );
    writer.id_gen.last = 100;
    writer.void_type = 30;
    writer.lookup_function.insert(0, 31);
    writer.lookup_type.push((LookupType::Handle(TypeHandle(0)), 32));
    BlockContext {
        writer,
        ir_module: &shader.module,
        ir_function: &shader.fun,
        fun_info: &shader.info,
        function: Function {
            parameters: vec![],
            variables: HashMap::new(),
            blocks: vec![],
            entry_point_context: None,
        },
        cached: CachedExpressions { ids: vec![11, 12, 0, 0] },
    }
}

/// The blocks that a list of statements becomes, under the label 100.
fn blocks(
    statements: Vec<Statement>,
    exit: Option<u32>,
    loop_context: LoopContext,
) -> Vec<(u32, Vec<Shown>)> {
    let shader = shader(None);
    let mut c = context(&shader);
    assert_eq!(c.write_block(100, &statements, exit, loop_context), Ok(()));
    let blocks: Vec<(u32, Vec<Shown>)> =
        c.function.blocks.iter().map(|b| (b.label_id, show(&b.body))).collect();
    assert_complete(&blocks, exit, loop_context);
    blocks
}

/// Checks that blocks end as they should, that jumps lead somewhere, and that
/// no id is defined twice.
fn assert_complete(blocks: &[(u32, Vec<Shown>)], exit: Option<u32>, loop_context: LoopContext) {
    let terminators = [
        spirv::Op::Branch,
        spirv::Op::BranchConditional,
        spirv::Op::Switch,
        spirv::Op::Return,
        spirv::Op::ReturnValue,
        spirv::Op::Kill,
    ];
    let mut known: HashSet<u32> = blocks.iter().map(|b| b.0).collect();
    assert_eq!(known.len(), blocks.len());
    known.extend(exit);
    known.extend(loop_context.break_id);
    known.extend(loop_context.continuing_id);
    let mut defined: HashSet<u32> = blocks.iter().map(|b| b.0).collect();
    for (_, body) in blocks {
        for (i, inst) in body.iter().enumerate() {
            assert_eq!(terminators.contains(&inst.0), i + 1 == body.len());
            let labels: Vec<u32> = match inst.0 {
                spirv::Op::Branch | spirv::Op::SelectionMerge => vec![inst.3[0]],
                spirv::Op::LoopMerge => inst.3[..2].to_vec(),
                spirv::Op::BranchConditional => inst.3[1..].to_vec(),
                spirv::Op::Switch => inst.3.iter().copied().skip(1).step_by(2).collect(),
                _ => vec![],
            };
            for label in labels {
                assert!(known.contains(&label), "{label}");
            }
            if let Some(id) = inst.2 {
                assert!(defined.insert(id), "{id}");
            }
        }
    }
}

fn emit() -> Statement {
    Statement::Emit { start: 2, end: 3 }
}

#[test]
fn nothing_leads_to_the_exit() {
    assert_eq!(
        blocks(vec![], Some(9), LoopContext::default()),
        vec![(100, vec![branch(9)])]
    );
}

#[test]
fn straight_lines_stay_in_one_block() {
    assert_eq!(
        blocks(vec![emit()], Some(9), LoopContext::default()),
        vec![(
            100,
            vec![(spirv::Op::FNegate, Some(101), Some(102), vec![11]), branch(9)]
        )]
    );
}

#[test]
fn nested_statements_have_a_scope() {
    assert_eq!(
        blocks(vec![Statement::Block(vec![Statement::Kill]), emit()], Some(9), LoopContext::default()),
        vec![
            (100, vec![branch(101)]),
            (101, vec![plain(spirv::Op::Kill, &[])]),
            (102, vec![(spirv::Op::FNegate, Some(103), Some(104), vec![11]), branch(9)]),
        ]
    );
}

#[test]
fn conditionals_meet_again() {
    let condition = ExprHandle(0);
    assert_eq!(
        blocks(
            vec![Statement::If {
                condition,
                accept: vec![Statement::Kill],
                reject: vec![emit()],
            }],
            Some(9),
            LoopContext::default()
        ),
        vec![
            (
                100,
                vec![
                    plain(spirv::Op::SelectionMerge, &[101, 0]),
                    plain(spirv::Op::BranchConditional, &[11, 102, 103]),
                ]
            ),
            (102, vec![plain(spirv::Op::Kill, &[])]),
            (103, vec![(spirv::Op::FNegate, Some(104), Some(105), vec![11]), branch(101)]),
            (101, vec![branch(9)]),
        ]
    );
}

#[test]
fn empty_branches_are_left_out() {
    let condition = ExprHandle(0);
    assert_eq!(
        blocks(
            vec![Statement::If { condition, accept: vec![], reject: vec![Statement::Kill] }],
            Some(9),
            LoopContext::default()
        ),
        vec![
            (
                100,
                vec![
                    plain(spirv::Op::SelectionMerge, &[101, 0]),
                    plain(spirv::Op::BranchConditional, &[11, 101, 102]),
                ]
            ),
            (102, vec![plain(spirv::Op::Kill, &[])]),
            (101, vec![branch(9)]),
        ]
    );
    assert_eq!(
        blocks(
            vec![Statement::If { condition, accept: vec![], reject: vec![] }],
            Some(9),
            LoopContext::default()
        )[0]
        .1[1],
        plain(spirv::Op::BranchConditional, &[11, 101, 101])
    );
}

#[test]
fn cases_fall_through_to_the_next_or_the_default() {
    let case = |value, fall_through| SwitchCase { value, body: vec![], fall_through };
    let found = blocks(
        vec![Statement::Switch {
            selector: ExprHandle(1),
            cases: vec![case(-1, true), case(7, false), case(i32::MIN, true)],
            default: vec![Statement::Return { value: None }],
        }],
        Some(9),
        LoopContext { continuing_id: Some(7), break_id: Some(8) },
    );
    assert_eq!(
        found,
        vec![
            (
                100,
                vec![
                    plain(spirv::Op::SelectionMerge, &[101, 0]),
                    plain(
                        spirv::Op::Switch,
                        &[12, 102, 0xffff_ffff, 103, 7, 104, 0x8000_0000, 105]
                    ),
                ]
            ),
            (103, vec![branch(104)]),
            (104, vec![branch(101)]),
            (105, vec![branch(102)]),
            (102, vec![plain(spirv::Op::Return, &[])]),
            (101, vec![branch(9)]),
        ]
    );
}

#[test]
fn loops_have_a_preamble() {
    let found = blocks(
        vec![Statement::Loop {
            body: vec![Statement::If {
                condition: ExprHandle(0),
                accept: vec![Statement::Break],
                reject: vec![Statement::Continue],
            }],
            continuing: vec![],
        }],
        Some(9),
        LoopContext::default(),
    );
    assert_eq!(
        found,
        vec![
            (100, vec![branch(101)]),
            (101, vec![plain(spirv::Op::LoopMerge, &[102, 104, 0]), branch(103)]),
            (
                103,
                vec![
                    plain(spirv::Op::SelectionMerge, &[105, 0]),
                    plain(spirv::Op::BranchConditional, &[11, 106, 107]),
                ]
            ),
            (106, vec![branch(102)]),
            (107, vec![branch(104)]),
            (105, vec![branch(104)]),
            (104, vec![branch(101)]),
            (102, vec![branch(9)]),
        ]
    );
}

#[test]
fn statements_after_a_departure_are_dropped() {
    let lc = LoopContext { continuing_id: Some(7), break_id: Some(8) };
    for (statement, end) in [
        (Statement::Break, branch(8)),
        (Statement::Continue, branch(7)),
        (Statement::Kill, plain(spirv::Op::Kill, &[])),
        (Statement::Return { value: None }, plain(spirv::Op::Return, &[])),
        (
            Statement::Return { value: Some(ExprHandle(1)) },
            plain(spirv::Op::ReturnValue, &[12]),
        ),
    ] {
        let found = blocks(vec![statement, emit(), Statement::Kill], Some(9), lc);
        assert_eq!(found, vec![(100, vec![end])]);
    }
    // Nor does it matter then where the end would lead.
    for exit in [None, Some(9), Some(10)] {
        let found = blocks(vec![Statement::Kill], exit, lc);
        assert_eq!(found, vec![(100, vec![plain(spirv::Op::Kill, &[])])]);
    }
}

#[test]
fn the_end_of_a_function_returns() {
    let nothing = shader(None);
    let mut c = context(&nothing);
    assert_eq!(c.write_block(100, &[], None, LoopContext::default()), Ok(()));
    assert_eq!(show(&c.function.blocks[0].body), vec![plain(spirv::Op::Return, &[])]);

    // A value that is owed is zero.
    let something = shader(Some(FunctionResult { ty: TypeHandle(0), binding: None }));
    let mut c = context(&something);
    assert_eq!(c.write_block(100, &[], None, LoopContext::default()), Ok(()));
    assert_eq!(show(&c.function.blocks[0].body), vec![plain(spirv::Op::ReturnValue, &[101])]);
    assert_eq!(
        show(&c.writer.declarations),
        vec![(spirv::Op::ConstantNull, Some(32), Some(101), vec![])]
    );

    // An entry point owes none.
    let mut c = context(&something);
    c.function.entry_point_context =
        Some(EntryPointContext { argument_ids: vec![], results: vec![] });
    assert_eq!(c.write_block(100, &[], None, LoopContext::default()), Ok(()));
    assert_eq!(show(&c.function.blocks[0].body), vec![plain(spirv::Op::Return, &[])]);
}

#[test]
fn entry_points_store_what_they_return() {
    let shader = shader(Some(FunctionResult {
        ty: TypeHandle(0),
        binding: Some(Binding::BuiltIn(BuiltIn::FragDepth)),
    }));
    let mut c = context(&shader);
    c.function.entry_point_context = Some(EntryPointContext {
        argument_ids: vec![],
        results: vec![ResultMember { id: 70, type_id: 71, built_in: Some(BuiltIn::FragDepth) }],
    });
    let statements = vec![Statement::Return { value: Some(ExprHandle(0)) }];
    assert_eq!(c.write_block(100, &statements, None, LoopContext::default()), Ok(()));
    assert_eq!(
        show(&c.function.blocks[0].body),
        vec![plain(spirv::Op::Store, &[70, 11]), plain(spirv::Op::Return, &[])]
    );
}

#[test]
fn calls_record_their_result() {
    let shader = shader(None);
    let mut c = context(&shader);
    let mut block = Block::new(1);
    let arguments = vec![ExprHandle(1), ExprHandle(0)];
    let result = Some(ExprHandle(3));
    assert_eq!(c.write_call(FunctionHandle(0), &arguments, result, &mut block), Ok(()));
    assert_eq!(
        show(&block.body),
        vec![(spirv::Op::FunctionCall, Some(32), Some(101), vec![31, 12, 11])]
    );
    assert_eq!(c.cached.ids[3], 101);
    // The expression of the call has that value too.
    assert_eq!(c.cache_expression_value(ExprHandle(3), &mut block), Ok(()));
    assert_eq!(c.cached.ids[3], 101);
    assert_eq!(block.body.len(), 1);

    assert_eq!(c.write_call(FunctionHandle(0), &vec![], None, &mut block), Ok(()));
    assert_eq!(
        show(&block.body)[1],
        (spirv::Op::FunctionCall, Some(30), Some(103), vec![31])
    );
}

#[test]
fn barriers_say_what_they_order() {
    let values = |storage, work_group| {
        let shader = shader(None);
        let mut c = context(&shader);
        let mut block = Block::new(1);
        assert_eq!(c.write_barrier(Barrier { storage, work_group }, &mut block), Ok(()));
        assert_eq!(block.body[0].op, spirv::Op::ControlBarrier);
        let constants: Vec<u32> = block.body[0]
            .operands
            .iter()
            .map(|&id| {
                c.writer
                    .declarations
                    .iter()
                    .find(|i| i.result_id == Some(id))
                    .map(|i| i.operands[0])
                    .unwrap()
            })
            .collect();
        constants
    };
    // Scopes: 1 is the device, 2 the work group.
    assert_eq!(values(false, false), vec![2, 2, 8]);
    assert_eq!(values(true, false), vec![2, 1, 8 + 64]);
    assert_eq!(values(false, true), vec![2, 2, 8 + 256]);
    assert_eq!(values(true, true), vec![2, 1, 8 + 64 + 256]);
}

#[test]
fn a_failure_leaves_what_was_there() {
    let mut shader = shader(None);
    shader.info.types[2] =
        TypeResolution::Value(TypeInner::Scalar { kind: ScalarKind::Float, width: 8 });
    let mut c = context(&shader);
    c.writer.strict_capabilities = true;
    assert_eq!(c.write_block(100, &[], Some(9), LoopContext::default()), Ok(()));
    let statements = vec![Statement::Block(vec![emit()])];
    assert_eq!(
        c.write_block(99, &statements, Some(9), LoopContext::default()),
        Err(Error::MissingCapability(spirv::Capability::Float64))
    );
    assert_eq!(c.function.blocks[0].label_id, 100);
    assert_eq!(show(&c.function.blocks[0].body), vec![branch(9)]);
    assert!(c.writer.capabilities.is_empty());
    assert_eq!(c.cached.ids, vec![11, 12, 0, 0]);
}

#[test]
fn statements_of_every_kind_make_a_complete_function() {
    let found = blocks(
        vec![
            emit(),
            Statement::Barrier(Barrier { storage: true, work_group: true }),
            Statement::Loop {
                body: vec![
                    Statement::Switch {
                        selector: ExprHandle(1),
                        cases: vec![SwitchCase {
                            value: 3,
                            body: vec![Statement::Block(vec![emit()])],
                            fall_through: true,
                        }],
                        default: vec![],
                    },
                    Statement::If {
                        condition: ExprHandle(0),
                        accept: vec![Statement::Break],
                        reject: vec![],
                    },
                ],
                continuing: vec![Statement::Call {
                    function: FunctionHandle(0),
                    arguments: vec![ExprHandle(0)],
                    result: None,
                }],
            },
            Statement::Return { value: None },
        ],
        None,
        LoopContext::default(),
    );
    assert_eq!(found[0].0, 100);
    assert_eq!(found.len(), 12);
}
