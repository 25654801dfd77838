//! The declarations of types and constants, and what they say of them.

use spirv::Word;
use vstd::prelude::*;
use crate::instruction::Inst;
use crate::ir::{Bytes, ScalarKind, ScalarValue};
use crate::meaning::{components, numbers, value_inst};
use crate::run::Error;
use crate::types::{LocalType, LookupType};
use crate::writer::{constant_words, WriterState};

verus! {

/// An instruction that declares a type.
pub open spec fn type_inst(op: spirv::Op, id: Word, operands: Seq<Word>) -> Inst {
    Inst { op, type_id: None, result_id: Some(id), operands }
}

/// Whether an instruction declares a type that is built on another one.
pub open spec fn declares_from(
    types: Map<LookupType, Word>,
    inst: Inst,
    base: LookupType,
    op: spirv::Op,
    id: Word,
    before: Seq<Word>,
    after: Seq<Word>,
) -> bool {
    types.contains_key(base) && inst == type_inst(op, id, before + seq![types[base]] + after)
}

/// Whether an instruction declares a type as `id`: a scalar type by its number of
/// bits, and whether it is signed; vectors by their components, matrices by
/// their columns; pointers by where they point to; and an image with a sampler
/// by the image.
pub open spec fn declares_type(
    types: Map<LookupType, Word>,
    inst: Inst,
    local: LocalType,
    id: Word,
) -> bool {
    match local {
        LocalType::Value { vector_size, kind, width, pointer_class: Some(class) } => declares_from(
            types,
            inst,
            numbers(vector_size, kind, width),
            spirv::Op::TypePointer,
            id,
            seq![class as Word],
            seq![],
        ),
        LocalType::Value { vector_size: Some(size), kind, width, pointer_class: None } => {
            declares_from(
                types,
                inst,
                numbers(None, kind, width),
                spirv::Op::TypeVector,
                id,
                seq![],
                seq![components(size) as Word],
            )
        },
        LocalType::Value { vector_size: None, kind, width, pointer_class: None } => match kind {
            ScalarKind::Bool => inst == type_inst(spirv::Op::TypeBool, id, seq![]),
            ScalarKind::Float => inst == type_inst(
                spirv::Op::TypeFloat,
                id,
                seq![(8 * width) as Word],
            ),
            ScalarKind::Sint => inst == type_inst(
                spirv::Op::TypeInt,
                id,
                seq![(8 * width) as Word, 1],
            ),
            ScalarKind::Uint => inst == type_inst(
                spirv::Op::TypeInt,
                id,
                seq![(8 * width) as Word, 0],
            ),
        },
        LocalType::Matrix { columns, rows, width } => declares_from(
            types,
            inst,
            numbers(Some(rows), ScalarKind::Float, width),
            spirv::Op::TypeMatrix,
            id,
            seq![],
            seq![components(columns) as Word],
        ),
        LocalType::Pointer { base, class } => declares_from(
            types,
            inst,
            LookupType::Handle(base),
            spirv::Op::TypePointer,
            id,
            seq![class as Word],
            seq![],
        ),
        LocalType::SampledImage { image_type_id } => inst == type_inst(
            spirv::Op::TypeSampledImage,
            id,
            seq![image_type_id],
        ),
    }
}

/// The kind of a scalar value.
pub open spec fn kind_of_value(value: ScalarValue) -> ScalarKind {
    match value {
        ScalarValue::Sint(_) => ScalarKind::Sint,
        ScalarValue::Uint(_) => ScalarKind::Uint,
        ScalarValue::Float(_) => ScalarKind::Float,
        ScalarValue::Bool(_) => ScalarKind::Bool,
    }
}

/// Whether the words of a constant, the low one first, are the bits of a number,
/// as far as they go.
pub open spec fn are_bits(words: Seq<Word>, width: Bytes, bits: int) -> bool {
    if width == 4 {
        words.len() == 1 && (words[0] - bits) % 0x1_0000_0000 == 0
    } else {
        width == 8 && words.len() == 2 && (words[0] + words[1] * 0x1_0000_0000 - bits)
            % 0x1_0000_0000_0000_0000 == 0
    }
}

/// Whether an instruction declares a constant as `id`: of the type of its kind and
/// width, with the bits of its value.
pub open spec fn declares_constant(
    types: Map<LookupType, Word>,
    inst: Inst,
    value: ScalarValue,
    width: Bytes,
    id: Word,
) -> bool {
    let ty = numbers(None, kind_of_value(value), width);
    &&& types.contains_key(ty)
    &&& match value {
        ScalarValue::Bool(true) => inst == value_inst(
            spirv::Op::ConstantTrue,
            types[ty],
            id,
            seq![],
        ),
        ScalarValue::Bool(false) => inst == value_inst(
            spirv::Op::ConstantFalse,
            types[ty],
            id,
            seq![],
        ),
        ScalarValue::Sint(v) => inst == value_inst(
            spirv::Op::Constant,
            types[ty],
            id,
            inst.operands,
        ) && are_bits(inst.operands, width, v as int),
        ScalarValue::Uint(v) => inst == value_inst(
            spirv::Op::Constant,
            types[ty],
            id,
            inst.operands,
        ) && are_bits(inst.operands, width, v as int),
        ScalarValue::Float(v) => inst == value_inst(
            spirv::Op::Constant,
            types[ty],
            id,
            inst.operands,
        ) && are_bits(inst.operands, width, v as int),
    }
}

/// Whether one of the declarations declares a type.
pub open spec fn has_type(
    types: Map<LookupType, Word>,
    declarations: Seq<Inst>,
    local: LocalType,
    id: Word,
) -> bool {
    exists|i: int|
        0 <= i < declarations.len() && declares_type(types, #[trigger] declarations[i], local, id)
}

/// Whether one of the declarations declares a constant.
pub open spec fn has_constant(
    types: Map<LookupType, Word>,
    declarations: Seq<Inst>,
    key: (ScalarValue, Bytes),
    id: Word,
) -> bool {
    exists|i: int|
        0 <= i < declarations.len() && declares_constant(
            types,
            #[trigger] declarations[i],
            key.0,
            key.1,
            id,
        )
}

/// Whether all types and constants of a module that have ids are declared by them
/// as what they are. The types of the arena are declared elsewhere.
#[verifier::opaque]
pub open spec fn declared(
    types: Map<LookupType, Word>,
    constants: Map<(ScalarValue, Bytes), Word>,
    declarations: Seq<Inst>,
) -> bool {
    &&& forall|local: LocalType| #[trigger]
        types.contains_key(LookupType::Local(local)) ==> has_type(
            types,
            declarations,
            local,
            types[LookupType::Local(local)],
        )
    &&& forall|key: (ScalarValue, Bytes)| #[trigger]
        constants.contains_key(key) ==> has_constant(types, declarations, key, constants[key])
}

/// A declaration stays while others are added.
proof fn lemma_type_stays(
    types: Map<LookupType, Word>,
    declarations: Seq<Inst>,
    types1: Map<LookupType, Word>,
    inst: Inst,
    local: LocalType,
    id: Word,
)
    requires
        has_type(types, declarations, local, id),
        forall|ty: LookupType| #[trigger]
            types.contains_key(ty) ==> types1.contains_key(ty) && types1[ty] == types[ty],
    ensures
        has_type(types1, declarations.push(inst), local, id),
{
    let i = choose|i: int|
        0 <= i < declarations.len() && declares_type(types, #[trigger] declarations[i], local, id);
    assert(declarations.push(inst)[i] == declarations[i]);
    assert(declares_type(types1, declarations[i], local, id));
}

proof fn lemma_constant_stays(
    types: Map<LookupType, Word>,
    declarations: Seq<Inst>,
    types1: Map<LookupType, Word>,
    inst: Inst,
    key: (ScalarValue, Bytes),
    id: Word,
)
    requires
        has_constant(types, declarations, key, id),
        forall|ty: LookupType| #[trigger]
            types.contains_key(ty) ==> types1.contains_key(ty) && types1[ty] == types[ty],
    ensures
        has_constant(types1, declarations.push(inst), key, id),
{
    let i = choose|i: int|
        0 <= i < declarations.len() && declares_constant(
            types,
            #[trigger] declarations[i],
            key.0,
            key.1,
            id,
        );
    assert(declarations.push(inst)[i] == declarations[i]);
    assert(declares_constant(types1, declarations[i], key.0, key.1, id));
}

/// A declaration that is neither of a type nor of a constant changes nothing.
pub proof fn lemma_declared_other(
    types: Map<LookupType, Word>,
    constants: Map<(ScalarValue, Bytes), Word>,
    declarations: Seq<Inst>,
    inst: Inst,
)
    requires
        declared(types, constants, declarations),
    ensures
        declared(types, constants, declarations.push(inst)),
{
    reveal(declared);
    assert forall|local: LocalType| #[trigger]
        types.contains_key(LookupType::Local(local)) implies has_type(
        types,
        declarations.push(inst),
        local,
        types[LookupType::Local(local)],
    ) by {
        lemma_type_stays(
            types,
            declarations,
            types,
            inst,
            local,
            types[LookupType::Local(local)],
        );
    }
    assert forall|key: (ScalarValue, Bytes)| #[trigger]
        constants.contains_key(key) implies has_constant(
        types,
        declarations.push(inst),
        key,
        constants[key],
    ) by {
        lemma_constant_stays(types, declarations, types, inst, key, constants[key]);
    }
}

/// A type that is new is declared.
pub proof fn lemma_declared_type(
    types: Map<LookupType, Word>,
    constants: Map<(ScalarValue, Bytes), Word>,
    declarations: Seq<Inst>,
    local: LocalType,
    id: Word,
    inst: Inst,
)
    requires
        declared(types, constants, declarations),
        !types.contains_key(LookupType::Local(local)),
        declares_type(types.insert(LookupType::Local(local), id), inst, local, id),
    ensures
        declared(
            types.insert(LookupType::Local(local), id),
            constants,
            declarations.push(inst),
        ),
{
    reveal(declared);
    let types1 = types.insert(LookupType::Local(local), id);
    let declarations1 = declarations.push(inst);
    assert(declarations1[declarations.len() as int] == inst);
    assert forall|other: LocalType| #[trigger]
        types1.contains_key(LookupType::Local(other)) implies has_type(
        types1,
        declarations1,
        other,
        types1[LookupType::Local(other)],
    ) by {
        if other != local {
            assert(types.contains_key(LookupType::Local(other)));
            lemma_type_stays(
                types,
                declarations,
                types1,
                inst,
                other,
                types[LookupType::Local(other)],
            );
        }
    }
    assert forall|key: (ScalarValue, Bytes)| #[trigger]
        constants.contains_key(key) implies has_constant(
        types1,
        declarations1,
        key,
        constants[key],
    ) by {
        lemma_constant_stays(types, declarations, types1, inst, key, constants[key]);
    }
}

/// A constant that is new is declared.
pub proof fn lemma_declared_constant(
    types: Map<LookupType, Word>,
    constants: Map<(ScalarValue, Bytes), Word>,
    declarations: Seq<Inst>,
    key: (ScalarValue, Bytes),
    id: Word,
    inst: Inst,
)
    requires
        declared(types, constants, declarations),
        declares_constant(types, inst, key.0, key.1, id),
    ensures
        declared(types, constants.insert(key, id), declarations.push(inst)),
{
    lemma_declared_other(types, constants, declarations, inst);
    reveal(declared);
    let declarations1 = declarations.push(inst);
    assert(declarations1[declarations.len() as int] == inst);
    assert(has_constant(types, declarations1, key, id));
}

/// Asking for a type declares no type that is built on it.
pub proof fn lemma_types_below(w: WriterState, strict: bool, ty: LookupType)
    ensures
        match w.type_id(strict, ty) {
            Some((w1, _)) => forall|other: LookupType| #[trigger]
                w1.types.contains_key(other) ==> w.types.contains_key(other) || other.depth()
                    <= ty.depth(),
            None => true,
        },
    decreases ty.depth(),
{
    if !w.types.contains_key(ty) {
        if let (LookupType::Local(local), Some(w1)) = (ty, w.fresh()) {
            if let Some(referenced) = local.referenced() {
                lemma_types_below(w1, strict, referenced);
            }
        }
    }
}

/// A type that is asked for is declared.
pub proof fn lemma_type_declared(w: WriterState, strict: bool, ty: LookupType)
    ensures
        match w.type_id(strict, ty) {
            Some((w1, result)) => {
                &&& declared(w.types, w.constants, w.declarations) ==> declared(
                    w1.types,
                    w1.constants,
                    w1.declarations,
                )
                &&& result matches Ok(id) ==> w1.types.contains_key(ty) && w1.types[ty] == id
            },
            None => true,
        },
    decreases ty.depth(),
{
    if !w.types.contains_key(ty) {
        if let (LookupType::Local(local), Some(w1)) = (ty, w.fresh()) {
            match local.referenced() {
                Some(referenced) => {
                    lemma_type_declared(w1, strict, referenced);
                    lemma_types_below(w1, strict, referenced);
                    if let Some((w2, Ok(base))) = w1.type_id(strict, referenced) {
                        let inst = local.declaration(w1.last_id, base);
                        let types1 = w2.types.insert(ty, w1.last_id);
                        assert(!w2.types.contains_key(ty));
                        lemma_declaration(types1, local, w1.last_id, base);
                        if declared(w.types, w.constants, w.declarations) {
                            lemma_declared_type(
                                w2.types,
                                w2.constants,
                                w2.declarations,
                                local,
                                w1.last_id,
                                inst,
                            );
                        }
                    }
                },
                None => {
                    let inst = local.declaration(w1.last_id, 0);
                    let types1 = w.types.insert(ty, w1.last_id);
                    lemma_declaration(types1, local, w1.last_id, 0);
                    if declared(w.types, w.constants, w.declarations) {
                        lemma_declared_type(
                            w.types,
                            w.constants,
                            w.declarations,
                            local,
                            w1.last_id,
                            inst,
                        );
                    }
                },
            }
        }
    }
}

/// The declaration of a type says what the type is.
proof fn lemma_declaration(
    types: Map<LookupType, Word>,
    local: LocalType,
    id: Word,
    base: Word,
)
    requires
        local.referenced() matches Some(referenced) ==> types.contains_key(referenced)
            && types[referenced] == base,
    ensures
        declares_type(types, local.declaration(id, base), local, id),
{
    let inst = local.declaration(id, base);
    match local {
        LocalType::Value { pointer_class: Some(class), .. } => {
            assert(inst.operands =~= seq![class as Word] + seq![base] + seq![]);
        },
        LocalType::Value { vector_size: Some(size), .. } => {
            assert(inst.operands =~= Seq::<Word>::empty() + seq![base] + seq![
                components(size) as Word,
            ]);
        },
        LocalType::Matrix { columns, .. } => {
            assert(inst.operands =~= Seq::<Word>::empty() + seq![base] + seq![
                components(columns) as Word,
            ]);
        },
        LocalType::Pointer { class, .. } => {
            assert(inst.operands =~= seq![class as Word] + seq![base] + seq![]);
        },
        _ => {},
    }
}

/// A constant that is asked for is declared.
pub proof fn lemma_constant_declared(
    w: WriterState,
    strict: bool,
    value: ScalarValue,
    width: Bytes,
)
    ensures
        match w.constant_id(strict, value, width) {
            Some((w1, result)) => {
                &&& declared(w.types, w.constants, w.declarations) ==> declared(
                    w1.types,
                    w1.constants,
                    w1.declarations,
                )
                &&& result matches Ok(id) ==> w1.constants.contains_key((value, width))
                    && w1.constants[(value, width)] == id
            },
            None => true,
        },
{
    if !w.constants.contains_key((value, width)) {
        if let Some(w1) = w.fresh() {
            let ty = numbers(None, kind_of_value(value), width);
            lemma_type_declared(w1, strict, ty);
            if let Some((w2, Ok(type_id))) = w1.type_id(strict, ty) {
                if let Some((w3, Ok(_))) = w.constant_id(strict, value, width) {
                    let inst = w3.declarations.last();
                    lemma_constant_words(value, width);
                    assert(declares_constant(w2.types, inst, value, width, w1.last_id));
                    if declared(w.types, w.constants, w.declarations) {
                        lemma_declared_constant(
                            w2.types,
                            w2.constants,
                            w2.declarations,
                            (value, width),
                            w1.last_id,
                            inst,
                        );
                    }
                }
            }
        }
    }
}

/// The words of a constant are its bits.
proof fn lemma_constant_words(value: ScalarValue, width: Bytes)
    ensures
        match value {
            ScalarValue::Sint(v) => match constant_words(
                crate::writer::bit_pattern(v),
                width,
            ) {
                Some(words) => are_bits(words, width, v as int),
                None => true,
            },
            ScalarValue::Uint(v) => match constant_words(v, width) {
                Some(words) => are_bits(words, width, v as int),
                None => true,
            },
            ScalarValue::Float(v) => match constant_words(v, width) {
                Some(words) => are_bits(words, width, v as int),
                None => true,
            },
            ScalarValue::Bool(_) => true,
        },
{
}

/// The types and constants that are asked for are declared as what they are, and
/// go on being so.
pub proof fn law_types_are_declared(
    w: WriterState,
    strict: bool,
    ty: LookupType,
    w1: WriterState,
    id: Word,
)
    requires
        w.type_id(strict, ty) == Some((w1, Ok::<Word, Error>(id))),
        declared(w.types, w.constants, w.declarations),
    ensures
        w1.types.contains_key(ty) && w1.types[ty] == id,
        ty matches LookupType::Local(local) ==> has_type(w1.types, w1.declarations, local, id),
        declared(w1.types, w1.constants, w1.declarations),
{
    lemma_type_declared(w, strict, ty);
    reveal(declared);
    if let LookupType::Local(local) = ty {
        assert(w1.types.contains_key(LookupType::Local(local)));
    }
}

/// A constant that is asked for is declared as what it is.
pub proof fn law_constants_are_declared(
    w: WriterState,
    strict: bool,
    value: ScalarValue,
    width: Bytes,
    w1: WriterState,
    id: Word,
)
    requires
        w.constant_id(strict, value, width) == Some((w1, Ok::<Word, Error>(id))),
        declared(w.types, w.constants, w.declarations),
    ensures
        w1.constants.contains_key((value, width)) && w1.constants[(value, width)] == id,
        has_constant(w1.types, w1.declarations, (value, width), id),
        declared(w1.types, w1.constants, w1.declarations),
{
    lemma_constant_declared(w, strict, value, width);
    reveal(declared);
    assert(w1.constants.contains_key((value, width)));
}

/// The capability that scalars of a kind and width take.
pub open spec fn needed(kind: ScalarKind, width: Bytes) -> Option<spirv::Capability> {
    let integer = kind == ScalarKind::Sint || kind == ScalarKind::Uint;
    if integer && width == 1 {
        Some(spirv::Capability::Int8)
    } else if integer && width == 2 {
        Some(spirv::Capability::Int16)
    } else if integer && width == 8 {
        Some(spirv::Capability::Int64)
    } else if kind == ScalarKind::Float && width == 8 {
        Some(spirv::Capability::Float64)
    } else {
        None
    }
}

/// The kind and width of the scalars that a type is made of.
pub open spec fn scalar_of(ty: LookupType) -> Option<(ScalarKind, Bytes)> {
    match ty {
        LookupType::Local(LocalType::Value { kind, width, .. }) => Some((kind, width)),
        LookupType::Local(LocalType::Matrix { width, .. }) => Some((ScalarKind::Float, width)),
        _ => None,
    }
}

/// Whether an error says that a capability is missing that scalars of a kind and
/// width take.
pub open spec fn is_lack(scalar: Option<(ScalarKind, Bytes)>, error: Error) -> bool {
    scalar matches Some((kind, width)) && needed(kind, width) matches Some(capability) && error
        == Error::MissingCapability(capability)
}

/// Whether a strict module lacks the capability that an error names.
pub open spec fn is_missing(w: WriterState, strict: bool, error: Error) -> bool {
    match error {
        Error::MissingCapability(capability) => strict && !w.capabilities.contains(capability),
        _ => false,
    }
}

/// A module that declares a scalar type is capable of it.
pub proof fn law_scalars_need_capabilities(
    w: WriterState,
    strict: bool,
    kind: ScalarKind,
    width: Bytes,
    w1: WriterState,
    result: Result<Word, Error>,
)
    requires
        w.type_id(strict, numbers(None, kind, width)) == Some((w1, result)),
        !w.types.contains_key(numbers(None, kind, width)),
    ensures
        match result {
            Ok(_) => needed(kind, width) matches Some(capability)
                ==> w1.capabilities.contains(capability),
            Err(error) => needed(kind, width) matches Some(capability) && strict
                && !w.capabilities.contains(capability) && error == Error::MissingCapability(
                capability,
            ),
        },
{
}

/// A module that holds nothing yet has nothing to declare.
pub proof fn law_empty_module_is_declared()
    ensures
        declared(Map::empty(), Map::empty(), Seq::empty()),
{
    reveal(declared);
}

/// A capability that is asked for is there afterwards, unless the module is strict
/// and lacks it. Nothing else about the module changes.
pub proof fn law_capability_is_granted(
    w: WriterState,
    strict: bool,
    capability: spirv::Capability,
    w1: WriterState,
    result: Result<(), Error>,
)
    requires
        w.check(strict, capability) == (w1, result),
    ensures
        result is Ok <==> w1.capabilities.contains(capability),
        result is Ok <==> !strict || w.capabilities.contains(capability),
        result is Err ==> result == Err::<(), Error>(Error::MissingCapability(capability)),
        w1 == (WriterState { capabilities: w1.capabilities, ..w }),
        forall|other: spirv::Capability|
            other != capability ==> (#[trigger] w1.capabilities.contains(other)
                <==> w.capabilities.contains(other)),
{
}

} // verus!
