use spv_block::ir::{BuiltIn, Binding, FunctionResult, ScalarKind, ScalarValue, TypeHandle, VectorSize};
use spv_block::function::ResultMember;
use spv_block::instruction::Instruction;
use spv_block::run::Error;
use spv_block::types::{LocalType, LookupType};
use spv_block::writer::{IndexBoundsCheckPolicy, Writer, WriterFlags};

type Shown = (spirv::Op, Option<u32>, Option<u32>, Vec<u32>);

fn show(list: &[Instruction]) -> Vec<Shown> {
    list.iter().map(|i| (i.op, i.type_id, i.result_id, i.operands.clone())).collect()
}

fn writer(adjust_coordinate_space: bool) -> Writer {
    Writer::new(
        WriterFlags { debug: false, adjust_coordinate_space },
        IndexBoundsCheckPolicy::UndefinedBehavior,
    )
}

fn value(vector_size: Option<VectorSize>, kind: ScalarKind, width: u8) -> LookupType {
    LookupType::Local(LocalType::Value { vector_size, kind, width, pointer_class: None })
}

#[test]
fn types_are_declared_once() {
    let mut w = writer(false);
    let ty = value(Some(VectorSize::Tri), ScalarKind::Float, 4);
    let first = w.get_type_id(ty).unwrap();
    assert_eq!(first, 1);
    let declared = show(&w.declarations);
    assert_eq!(
        declared,
        vec![
            (spirv::Op::TypeFloat, None, Some(2), vec![32]),
            (spirv::Op::TypeVector, None, Some(1), vec![2, 3]),
        ]
    );
    assert_eq!(w.get_constant_scalar(ScalarValue::Uint(7), 4), Ok(3));
    assert_eq!(w.get_type_id(ty), Ok(first));
    assert_eq!(show(&w.declarations)[..2], declared[..]);
    assert_eq!(w.id_gen.last, 4);
}

#[test]
fn constants_are_declared_once() {
    let mut w = writer(false);
    assert_eq!(w.get_index_constant(5), Ok(1));
    assert_eq!(w.get_constant_scalar(ScalarValue::Uint(5), 4), Ok(1));
    assert_eq!(w.get_index_constant(6), Ok(3));
    assert_eq!(
        show(&w.declarations),
        vec![
            (spirv::Op::TypeInt, None, Some(2), vec![32, 0]),
            (spirv::Op::Constant, Some(2), Some(1), vec![5]),
            (spirv::Op::Constant, Some(2), Some(3), vec![6]),
        ]
    );
}

#[test]
fn constants_hold_their_bit_pattern() {
    let mut w = writer(false);
    w.get_constant_scalar(ScalarValue::Sint(-2), 4).unwrap();
    w.get_constant_scalar(ScalarValue::Sint(-2), 8).unwrap();
    w.get_constant_scalar(ScalarValue::Float(0x3ff0_0000_0000_0001), 8).unwrap();
    w.get_constant_scalar(ScalarValue::Bool(true), 1).unwrap();
    w.get_constant_scalar(ScalarValue::Bool(false), 1).unwrap();
    let words: Vec<Vec<u32>> =
        w.declarations.iter().filter(|i| i.type_id.is_some()).map(|i| i.operands.clone()).collect();
    assert_eq!(
        words,
        vec![
            vec![0xffff_fffe],
            vec![0xffff_fffe, 0xffff_ffff],
            vec![1, 0x3ff0_0000],
            vec![],
            vec![],
        ]
    );
    let last = &w.declarations[w.declarations.len() - 1];
    assert_eq!(last.op, spirv::Op::ConstantFalse);
}

#[test]
fn zero_values_are_declared_anew() {
    let mut w = writer(false);
    let ty = w.get_type_id(value(None, ScalarKind::Bool, 1)).unwrap();
    assert_eq!(w.write_constant_null(ty), 2);
    assert_eq!(w.write_constant_null(ty), 3);
    assert_eq!(
        show(&w.declarations)[1..],
        [
            (spirv::Op::ConstantNull, Some(1), Some(2), vec![]),
            (spirv::Op::ConstantNull, Some(1), Some(3), vec![]),
        ]
    );
}

#[test]
fn capabilities_are_taken_on_or_missed() {
    let wide = value(None, ScalarKind::Float, 8);
    let mut w = writer(false);
    assert_eq!(w.get_type_id(wide), Ok(1));
    assert_eq!(w.capabilities, vec![spirv::Capability::Float64]);

    let mut strict = writer(false);
    strict.strict_capabilities = true;
    assert_eq!(
        strict.get_type_id(wide),
        Err(Error::MissingCapability(spirv::Capability::Float64))
    );
    assert!(strict.capabilities.is_empty());

    let mut able = writer(false);
    able.strict_capabilities = true;
    able.capabilities.push(spirv::Capability::Float64);
    assert_eq!(able.get_type_id(wide), Ok(1));
    assert_eq!(able.capabilities, vec![spirv::Capability::Float64]);
}

#[test]
fn bound_result_is_stored_as_a_whole() {
    let mut w = writer(false);
    let result = FunctionResult { ty: TypeHandle(0), binding: Some(Binding::Location(0)) };
    let members = vec![ResultMember { id: 70, type_id: 71, built_in: None }];
    let mut body = Vec::new();
    assert_eq!(w.write_entry_point_return(9, &result, &members, &mut body), Ok(()));
    assert_eq!(show(&body), vec![(spirv::Op::Store, None, None, vec![70, 9])]);
    assert_eq!(w.id_gen.last, 0);
}

#[test]
fn members_of_a_result_are_stored_one_by_one() {
    let mut w = writer(false);
    let result = FunctionResult { ty: TypeHandle(0), binding: None };
    let members = vec![
        ResultMember { id: 70, type_id: 71, built_in: Some(BuiltIn::Position) },
        ResultMember { id: 72, type_id: 73, built_in: None },
    ];
    let mut body = Vec::new();
    assert_eq!(w.write_entry_point_return(9, &result, &members, &mut body), Ok(()));
    assert_eq!(
        show(&body),
        vec![
            (spirv::Op::CompositeExtract, Some(71), Some(1), vec![9, 0]),
            (spirv::Op::Store, None, None, vec![70, 1]),
            (spirv::Op::CompositeExtract, Some(73), Some(2), vec![9, 1]),
            (spirv::Op::Store, None, None, vec![72, 2]),
        ]
    );
}

#[test]
fn position_is_flipped_where_asked() {
    let mut w = writer(true);
    let result = FunctionResult {
        ty: TypeHandle(0),
        binding: Some(Binding::BuiltIn(BuiltIn::Position)),
    };
    let members = vec![ResultMember { id: 70, type_id: 71, built_in: Some(BuiltIn::Position) }];
    let mut body = Vec::new();
    assert_eq!(w.write_entry_point_return(9, &result, &members, &mut body), Ok(()));
    // 1: access, 2: pointer type, 3: float type, 4: index, 5: uint type, 6: load, 7: negation
    assert_eq!(
        show(&body),
        vec![
            (spirv::Op::Store, None, None, vec![70, 9]),
            (spirv::Op::AccessChain, Some(2), Some(1), vec![70, 4]),
            (spirv::Op::Load, Some(3), Some(6), vec![1]),
            (spirv::Op::FNegate, Some(3), Some(7), vec![6]),
            (spirv::Op::Store, None, None, vec![1, 7]),
        ]
    );
    let output = spirv::StorageClass::Output as u32;
    assert_eq!(
        show(&w.declarations),
        vec![
            (spirv::Op::TypeFloat, None, Some(3), vec![32]),
            (spirv::Op::TypePointer, None, Some(2), vec![output, 3]),
            (spirv::Op::TypeInt, None, Some(5), vec![32, 0]),
            (spirv::Op::Constant, Some(5), Some(4), vec![1]),
        ]
    );

    // Other outputs are left alone.
    let mut w = writer(true);
    let members = vec![ResultMember { id: 70, type_id: 71, built_in: Some(BuiltIn::PointSize) }];
    let mut body = Vec::new();
    assert_eq!(w.write_entry_point_return(9, &result, &members, &mut body), Ok(()));
    assert_eq!(show(&body), vec![(spirv::Op::Store, None, None, vec![70, 9])]);
}
