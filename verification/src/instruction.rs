//! SPIR-V instructions.

use spirv::Word;
use vstd::prelude::*;

verus! {

/// What an instruction says: its opcode, the type and the id of its result if
/// it has one, and its other operands.
#[verifier::ext_equal]
pub struct Inst {
    pub op: spirv::Op,
    pub type_id: Option<Word>,
    pub result_id: Option<Word>,
    pub operands: Seq<Word>,
}

/// A SPIR-V instruction.
#[derive(Debug)]
pub struct Instruction {
    pub op: spirv::Op,
    pub type_id: Option<Word>,
    pub result_id: Option<Word>,
    pub operands: Vec<Word>,
}

impl View for Instruction {
    type V = Inst;

    open spec fn view(&self) -> Inst {
        Inst {
            op: self.op,
            type_id: self.type_id,
            result_id: self.result_id,
            operands: self.operands@,
        }
    }
}

/// The views of a list of instructions.
pub open spec fn insts(list: Seq<Instruction>) -> Seq<Inst> {
    list.map_values(|instruction: Instruction| instruction@)
}

pub broadcast proof fn lemma_insts_push(list: Seq<Instruction>, instruction: Instruction)
    ensures
        #[trigger] insts(list.push(instruction)) == insts(list).push(instruction@),
{
    assert(insts(list.push(instruction)) =~= insts(list).push(instruction@));
}

/// A case of an `OpSwitch`.
#[derive(Clone, Copy, Debug, PartialEq, Eq, Structural)]
pub struct Case {
    pub value: Word,
    pub label_id: Word,
}

/// The operands that stand for the cases of an `OpSwitch`: value and label of
/// each, in order.
pub open spec fn case_words(cases: Seq<Case>) -> Seq<Word>
    decreases cases.len(),
{
    if cases.len() == 0 {
        Seq::empty()
    } else {
        case_words(cases.drop_last()).push(cases.last().value).push(cases.last().label_id)
    }
}

/// Whether the level of detail of an image sample is given.
#[derive(Clone, Copy, Debug, PartialEq, Eq, Structural)]
pub enum SampleLod {
    Explicit,
    Implicit,
}

/// The opcode of an image sample.
pub open spec fn sample_op(lod: SampleLod, depth: bool) -> spirv::Op {
    match (lod, depth) {
        (SampleLod::Explicit, false) => spirv::Op::ImageSampleExplicitLod,
        (SampleLod::Implicit, false) => spirv::Op::ImageSampleImplicitLod,
        (SampleLod::Explicit, true) => spirv::Op::ImageSampleDrefExplicitLod,
        (SampleLod::Implicit, true) => spirv::Op::ImageSampleDrefImplicitLod,
    }
}

/// Whether an opcode ends a block.
pub open spec fn is_terminator(op: spirv::Op) -> bool {
    ||| op == spirv::Op::Branch
    ||| op == spirv::Op::BranchConditional
    ||| op == spirv::Op::Switch
    ||| op == spirv::Op::Return
    ||| op == spirv::Op::ReturnValue
    ||| op == spirv::Op::Kill
}

impl Inst {
    /// The instruction with one more operand.
    pub open spec fn with(self, operand: Word) -> Inst {
        Inst { operands: self.operands.push(operand), ..self }
    }

    /// A multi-way jump.
    pub open spec fn switch(selector: Word, default: Word, cases: Seq<Case>) -> Inst {
        Inst {
            op: spirv::Op::Switch,
            type_id: None,
            result_id: None,
            operands: seq![selector, default] + case_words(cases),
        }
    }

    /// A sample of an image, compared with a depth if there is one.
    pub open spec fn image_sample(
        type_id: Word,
        id: Word,
        lod: SampleLod,
        sampled_image: Word,
        coordinates: Word,
        depth: Option<Word>,
    ) -> Inst {
        Inst {
            op: sample_op(lod, depth is Some),
            type_id: Some(type_id),
            result_id: Some(id),
            operands: match depth {
                Some(depth) => seq![sampled_image, coordinates, depth],
                None => seq![sampled_image, coordinates],
            },
        }
    }

    /// A unary operation.
    pub open spec fn unary(op: spirv::Op, type_id: Word, id: Word, value: Word) -> Inst {
        Inst {
            op,
            type_id: Some(type_id),
            result_id: Some(id),
            operands: seq![value],
        }
    }

    /// A binary operation.
    pub open spec fn binary(
        op: spirv::Op,
        type_id: Word,
        id: Word,
        left: Word,
        right: Word,
    ) -> Inst {
        Inst {
            op,
            type_id: Some(type_id),
            result_id: Some(id),
            operands: seq![left, right],
        }
    }

    /// One part of a composite.
    pub open spec fn composite_extract(
        type_id: Word,
        id: Word,
        composite: Word,
        index: Word,
    ) -> Inst {
        Inst {
            op: spirv::Op::CompositeExtract,
            type_id: Some(type_id),
            result_id: Some(id),
            operands: seq![composite, index],
        }
    }

    /// One component of a vector, selected at run time.
    pub open spec fn vector_extract_dynamic(
        type_id: Word,
        id: Word,
        vector: Word,
        index: Word,
    ) -> Inst {
        Inst {
            op: spirv::Op::VectorExtractDynamic,
            type_id: Some(type_id),
            result_id: Some(id),
            operands: seq![vector, index],
        }
    }

    /// A load through a pointer.
    pub open spec fn load(type_id: Word, id: Word, pointer: Word) -> Inst {
        Inst {
            op: spirv::Op::Load,
            type_id: Some(type_id),
            result_id: Some(id),
            operands: seq![pointer],
        }
    }

    /// A store through a pointer.
    pub open spec fn store(pointer: Word, value: Word) -> Inst {
        Inst {
            op: spirv::Op::Store,
            type_id: None,
            result_id: None,
            operands: seq![pointer, value],
        }
    }

    /// A choice between two values.
    pub open spec fn select(
        type_id: Word,
        id: Word,
        condition: Word,
        accept: Word,
        reject: Word,
    ) -> Inst {
        Inst {
            op: spirv::Op::Select,
            type_id: Some(type_id),
            result_id: Some(id),
            operands: seq![condition, accept, reject],
        }
    }

    /// An image combined with a sampler.
    pub open spec fn sampled_image(type_id: Word, id: Word, image: Word, sampler: Word) -> Inst {
        Inst {
            op: spirv::Op::SampledImage,
            type_id: Some(type_id),
            result_id: Some(id),
            operands: seq![image, sampler],
        }
    }

    /// A texel of a sampled image.
    pub open spec fn image_fetch(type_id: Word, id: Word, image: Word, coordinates: Word) -> Inst {
        Inst {
            op: spirv::Op::ImageFetch,
            type_id: Some(type_id),
            result_id: Some(id),
            operands: seq![image, coordinates],
        }
    }

    /// A texel of a storage image.
    pub open spec fn image_read(type_id: Word, id: Word, image: Word, coordinates: Word) -> Inst {
        Inst {
            op: spirv::Op::ImageRead,
            type_id: Some(type_id),
            result_id: Some(id),
            operands: seq![image, coordinates],
        }
    }

    /// A texel written to a storage image.
    pub open spec fn image_write(image: Word, coordinates: Word, value: Word) -> Inst {
        Inst {
            op: spirv::Op::ImageWrite,
            type_id: None,
            result_id: None,
            operands: seq![image, coordinates, value],
        }
    }

    /// The length of the run-time sized array that ends a structure.
    pub open spec fn array_length(type_id: Word, id: Word, structure: Word, member: Word) -> Inst {
        Inst {
            op: spirv::Op::ArrayLength,
            type_id: Some(type_id),
            result_id: Some(id),
            operands: seq![structure, member],
        }
    }

    /// The header of a selection construct, which meets again at `merge`.
    pub open spec fn selection_merge(merge: Word, control: Word) -> Inst {
        Inst {
            op: spirv::Op::SelectionMerge,
            type_id: None,
            result_id: None,
            operands: seq![merge, control],
        }
    }

    /// The header of a loop construct.
    pub open spec fn loop_merge(merge: Word, continuing: Word, control: Word) -> Inst {
        Inst {
            op: spirv::Op::LoopMerge,
            type_id: None,
            result_id: None,
            operands: seq![merge, continuing, control],
        }
    }

    /// A jump.
    pub open spec fn branch(label: Word) -> Inst {
        Inst {
            op: spirv::Op::Branch,
            type_id: None,
            result_id: None,
            operands: seq![label],
        }
    }

    /// A two-way jump.
    pub open spec fn branch_conditional(condition: Word, accept: Word, reject: Word) -> Inst {
        Inst {
            op: spirv::Op::BranchConditional,
            type_id: None,
            result_id: None,
            operands: seq![condition, accept, reject],
        }
    }

    /// A return without a value.
    pub open spec fn return_void() -> Inst {
        Inst {
            op: spirv::Op::Return,
            type_id: None,
            result_id: None,
            operands: Seq::empty(),
        }
    }

    /// A return of a value.
    pub open spec fn return_value(value: Word) -> Inst {
        Inst {
            op: spirv::Op::ReturnValue,
            type_id: None,
            result_id: None,
            operands: seq![value],
        }
    }

    /// The end of the invocation.
    pub open spec fn kill() -> Inst {
        Inst {
            op: spirv::Op::Kill,
            type_id: None,
            result_id: None,
            operands: Seq::empty(),
        }
    }

    /// A barrier.
    pub open spec fn control_barrier(exec_scope: Word, mem_scope: Word, semantics: Word) -> Inst {
        Inst {
            op: spirv::Op::ControlBarrier,
            type_id: None,
            result_id: None,
            operands: seq![exec_scope, mem_scope, semantics],
        }
    }

    /// The boolean type.
    pub open spec fn type_bool(id: Word) -> Inst {
        Inst {
            op: spirv::Op::TypeBool,
            type_id: None,
            result_id: Some(id),
            operands: Seq::empty(),
        }
    }

    /// An integer type; `signedness` is 1 for a signed one.
    pub open spec fn type_int(id: Word, bits: Word, signedness: Word) -> Inst {
        Inst {
            op: spirv::Op::TypeInt,
            type_id: None,
            result_id: Some(id),
            operands: seq![bits, signedness],
        }
    }

    /// A floating-point type.
    pub open spec fn type_float(id: Word, bits: Word) -> Inst {
        Inst {
            op: spirv::Op::TypeFloat,
            type_id: None,
            result_id: Some(id),
            operands: seq![bits],
        }
    }

    /// A vector type.
    pub open spec fn type_vector(id: Word, component: Word, count: Word) -> Inst {
        Inst {
            op: spirv::Op::TypeVector,
            type_id: None,
            result_id: Some(id),
            operands: seq![component, count],
        }
    }

    /// A matrix type.
    pub open spec fn type_matrix(id: Word, column: Word, count: Word) -> Inst {
        Inst {
            op: spirv::Op::TypeMatrix,
            type_id: None,
            result_id: Some(id),
            operands: seq![column, count],
        }
    }

    /// A pointer type.
    pub open spec fn type_pointer(id: Word, class: spirv::StorageClass, base: Word) -> Inst {
        Inst {
            op: spirv::Op::TypePointer,
            type_id: None,
            result_id: Some(id),
            operands: seq![class as Word, base],
        }
    }

    /// The type of an image combined with a sampler.
    pub open spec fn type_sampled_image(id: Word, image: Word) -> Inst {
        Inst {
            op: spirv::Op::TypeSampledImage,
            type_id: None,
            result_id: Some(id),
            operands: seq![image],
        }
    }

    /// The boolean constant `true`.
    pub open spec fn constant_true(type_id: Word, id: Word) -> Inst {
        Inst {
            op: spirv::Op::ConstantTrue,
            type_id: Some(type_id),
            result_id: Some(id),
            operands: Seq::empty(),
        }
    }

    /// The boolean constant `false`.
    pub open spec fn constant_false(type_id: Word, id: Word) -> Inst {
        Inst {
            op: spirv::Op::ConstantFalse,
            type_id: Some(type_id),
            result_id: Some(id),
            operands: Seq::empty(),
        }
    }

    /// The zero value of a type.
    pub open spec fn constant_null(type_id: Word, id: Word) -> Inst {
        Inst {
            op: spirv::Op::ConstantNull,
            type_id: Some(type_id),
            result_id: Some(id),
            operands: Seq::empty(),
        }
    }

    /// A scalar constant, low word first.
    pub open spec fn constant(type_id: Word, id: Word, words: Seq<Word>) -> Inst {
        Inst {
            op: spirv::Op::Constant,
            type_id: Some(type_id),
            result_id: Some(id),
            operands: words,
        }
    }

    /// A composite built from its parts.
    pub open spec fn composite_construct(type_id: Word, id: Word, parts: Seq<Word>) -> Inst {
        Inst {
            op: spirv::Op::CompositeConstruct,
            type_id: Some(type_id),
            result_id: Some(id),
            operands: parts,
        }
    }

    /// A vector picked from the components of two.
    pub open spec fn vector_shuffle(
        type_id: Word,
        id: Word,
        first: Word,
        second: Word,
        components: Seq<Word>,
    ) -> Inst {
        Inst {
            op: spirv::Op::VectorShuffle,
            type_id: Some(type_id),
            result_id: Some(id),
            operands: seq![first, second] + components,
        }
    }

    /// A pointer into the object behind a pointer.
    pub open spec fn access_chain(type_id: Word, id: Word, base: Word, indices: Seq<Word>) -> Inst {
        Inst {
            op: spirv::Op::AccessChain,
            type_id: Some(type_id),
            result_id: Some(id),
            operands: seq![base] + indices,
        }
    }

    /// An instruction of the extended set `set`.
    pub open spec fn ext_inst(
        set: Word,
        op: spirv::GLOp,
        type_id: Word,
        id: Word,
        arguments: Seq<Word>,
    ) -> Inst {
        Inst {
            op: spirv::Op::ExtInst,
            type_id: Some(type_id),
            result_id: Some(id),
            operands: seq![set, op as Word] + arguments,
        }
    }

    /// A call.
    pub open spec fn function_call(
        type_id: Word,
        id: Word,
        function: Word,
        arguments: Seq<Word>,
    ) -> Inst {
        Inst {
            op: spirv::Op::FunctionCall,
            type_id: Some(type_id),
            result_id: Some(id),
            operands: seq![function] + arguments,
        }
    }

    /// A value that depends on the block that control came from.
    pub open spec fn phi(
        type_id: Word,
        id: Word,
        first: Word,
        first_label: Word,
        second: Word,
        second_label: Word,
    ) -> Inst {
        Inst {
            op: spirv::Op::Phi,
            type_id: Some(type_id),
            result_id: Some(id),
            operands: seq![first, first_label, second, second_label],
        }
    }

    /// A query of an image's properties.
    pub open spec fn image_query(op: spirv::Op, type_id: Word, id: Word, image: Word) -> Inst {
        Inst {
            op,
            type_id: Some(type_id),
            result_id: Some(id),
            operands: seq![image],
        }
    }
}

/// Appends words to a list.
fn append(list: &mut Vec<Word>, words: &Vec<Word>)
    ensures
        final(list)@ == old(list)@ + words@,
{
    let mut i: usize = 0;
    while i < words.len()
        invariant
            i <= words.len(),
            list@ == old(list)@ + words@.take(i as int),
        decreases words.len() - i,
    {
        list.push(words[i]);
        i += 1;
        assert(words@.take(i as int) =~= words@.take(i - 1).push(words@[i - 1]));
    }
    assert(words@.take(i as int) =~= words@);
}

impl Instruction {
    /// Adds an operand at the end.
    pub fn add_operand(&mut self, operand: Word)
        ensures
            final(self)@ == old(self)@.with(operand),
    {
        self.operands.push(operand);
    }

    /// A multi-way jump.
    pub fn switch(selector: Word, default: Word, cases: &Vec<Case>) -> (instruction: Instruction)
        ensures
            instruction@ == Inst::switch(selector, default, cases@),
    {
        let mut operands: Vec<Word> = vec![selector, default];
        let mut i: usize = 0;
        assert(operands@ =~= seq![selector, default] + case_words(cases@.take(0)));
        while i < cases.len()
            invariant
                i <= cases.len(),
                operands@ == seq![selector, default] + case_words(cases@.take(i as int)),
            decreases cases.len() - i,
        {
            let case = cases[i];
            operands.push(case.value);
            operands.push(case.label_id);
            i += 1;
            assert(cases@.take(i as int).drop_last() =~= cases@.take(i - 1));
            assert(operands@ =~= seq![selector, default] + case_words(cases@.take(i as int)));
        }
        assert(cases@.take(i as int) =~= cases@);
        Instruction { op: spirv::Op::Switch, type_id: None, result_id: None, operands }
    }

    /// A sample of an image, compared with a depth if there is one.
    pub fn image_sample(
        type_id: Word,
        id: Word,
        lod: SampleLod,
        sampled_image: Word,
        coordinates: Word,
        depth: Option<Word>,
    ) -> (instruction: Instruction)
        ensures
            instruction@ == Inst::image_sample(type_id, id, lod, sampled_image, coordinates, depth),
    {
        let op = match (lod, depth) {
            (SampleLod::Explicit, None) => spirv::Op::ImageSampleExplicitLod,
            (SampleLod::Implicit, None) => spirv::Op::ImageSampleImplicitLod,
            (SampleLod::Explicit, Some(_)) => spirv::Op::ImageSampleDrefExplicitLod,
            (SampleLod::Implicit, Some(_)) => spirv::Op::ImageSampleDrefImplicitLod,
        };
        let operands: Vec<Word> = match depth {
            Some(depth) => vec![sampled_image, coordinates, depth],
            None => vec![sampled_image, coordinates],
        };
        let instruction = Instruction { op, type_id: Some(type_id), result_id: Some(id), operands };
        assert(instruction@ =~= Inst::image_sample(
            type_id,
            id,
            lod,
            sampled_image,
            coordinates,
            depth,
        ));
        instruction
    }

    /// A unary operation.
    pub fn unary(op: spirv::Op, type_id: Word, id: Word, value: Word) -> (instruction: Instruction)
        ensures
            instruction@ == Inst::unary(op, type_id, id, value),
    {
        let instruction = Instruction {
            op,
            type_id: Some(type_id),
            result_id: Some(id),
            operands: vec![value],
        };
        assert(instruction@ =~= Inst::unary(op, type_id, id, value));
        instruction
    }

    /// A binary operation.
    pub fn binary(
        op: spirv::Op,
        type_id: Word,
        id: Word,
        left: Word,
        right: Word,
    ) -> (instruction: Instruction)
        ensures
            instruction@ == Inst::binary(op, type_id, id, left, right),
    {
        let instruction = Instruction {
            op,
            type_id: Some(type_id),
            result_id: Some(id),
            operands: vec![left, right],
        };
        assert(instruction@ =~= Inst::binary(op, type_id, id, left, right));
        instruction
    }

    /// One part of a composite.
    pub fn composite_extract(
        type_id: Word,
        id: Word,
        composite: Word,
        index: Word,
    ) -> (instruction: Instruction)
        ensures
            instruction@ == Inst::composite_extract(type_id, id, composite, index),
    {
        let instruction = Instruction {
            op: spirv::Op::CompositeExtract,
            type_id: Some(type_id),
            result_id: Some(id),
            operands: vec![composite, index],
        };
        assert(instruction@ =~= Inst::composite_extract(type_id, id, composite, index));
        instruction
    }

    /// One component of a vector, selected at run time.
    pub fn vector_extract_dynamic(
        type_id: Word,
        id: Word,
        vector: Word,
        index: Word,
    ) -> (instruction: Instruction)
        ensures
            instruction@ == Inst::vector_extract_dynamic(type_id, id, vector, index),
    {
        let instruction = Instruction {
            op: spirv::Op::VectorExtractDynamic,
            type_id: Some(type_id),
            result_id: Some(id),
            operands: vec![vector, index],
        };
        assert(instruction@ =~= Inst::vector_extract_dynamic(type_id, id, vector, index));
        instruction
    }

    /// A load through a pointer.
    pub fn load(type_id: Word, id: Word, pointer: Word) -> (instruction: Instruction)
        ensures
            instruction@ == Inst::load(type_id, id, pointer),
    {
        let instruction = Instruction {
            op: spirv::Op::Load,
            type_id: Some(type_id),
            result_id: Some(id),
            operands: vec![pointer],
        };
        assert(instruction@ =~= Inst::load(type_id, id, pointer));
        instruction
    }

    /// A store through a pointer.
    pub fn store(pointer: Word, value: Word) -> (instruction: Instruction)
        ensures
            instruction@ == Inst::store(pointer, value),
    {
        let instruction = Instruction {
            op: spirv::Op::Store,
            type_id: None,
            result_id: None,
            operands: vec![pointer, value],
        };
        assert(instruction@ =~= Inst::store(pointer, value));
        instruction
    }

    /// A choice between two values.
    pub fn select(
        type_id: Word,
        id: Word,
        condition: Word,
        accept: Word,
        reject: Word,
    ) -> (instruction: Instruction)
        ensures
            instruction@ == Inst::select(type_id, id, condition, accept, reject),
    {
        let instruction = Instruction {
            op: spirv::Op::Select,
            type_id: Some(type_id),
            result_id: Some(id),
            operands: vec![condition, accept, reject],
        };
        assert(instruction@ =~= Inst::select(type_id, id, condition, accept, reject));
        instruction
    }

    /// An image combined with a sampler.
    pub fn sampled_image(
        type_id: Word,
        id: Word,
        image: Word,
        sampler: Word,
    ) -> (instruction: Instruction)
        ensures
            instruction@ == Inst::sampled_image(type_id, id, image, sampler),
    {
        let instruction = Instruction {
            op: spirv::Op::SampledImage,
            type_id: Some(type_id),
            result_id: Some(id),
            operands: vec![image, sampler],
        };
        assert(instruction@ =~= Inst::sampled_image(type_id, id, image, sampler));
        instruction
    }

    /// A texel of a sampled image.
    pub fn image_fetch(
        type_id: Word,
        id: Word,
        image: Word,
        coordinates: Word,
    ) -> (instruction: Instruction)
        ensures
            instruction@ == Inst::image_fetch(type_id, id, image, coordinates),
    {
        let instruction = Instruction {
            op: spirv::Op::ImageFetch,
            type_id: Some(type_id),
            result_id: Some(id),
            operands: vec![image, coordinates],
        };
        assert(instruction@ =~= Inst::image_fetch(type_id, id, image, coordinates));
        instruction
    }

    /// A texel of a storage image.
    pub fn image_read(
        type_id: Word,
        id: Word,
        image: Word,
        coordinates: Word,
    ) -> (instruction: Instruction)
        ensures
            instruction@ == Inst::image_read(type_id, id, image, coordinates),
    {
        let instruction = Instruction {
            op: spirv::Op::ImageRead,
            type_id: Some(type_id),
            result_id: Some(id),
            operands: vec![image, coordinates],
        };
        assert(instruction@ =~= Inst::image_read(type_id, id, image, coordinates));
        instruction
    }

    /// A texel written to a storage image.
    pub fn image_write(image: Word, coordinates: Word, value: Word) -> (instruction: Instruction)
        ensures
            instruction@ == Inst::image_write(image, coordinates, value),
    {
        let instruction = Instruction {
            op: spirv::Op::ImageWrite,
            type_id: None,
            result_id: None,
            operands: vec![image, coordinates, value],
        };
        assert(instruction@ =~= Inst::image_write(image, coordinates, value));
        instruction
    }

    /// The length of the run-time sized array that ends a structure.
    pub fn array_length(
        type_id: Word,
        id: Word,
        structure: Word,
        member: Word,
    ) -> (instruction: Instruction)
        ensures
            instruction@ == Inst::array_length(type_id, id, structure, member),
    {
        let instruction = Instruction {
            op: spirv::Op::ArrayLength,
            type_id: Some(type_id),
            result_id: Some(id),
            operands: vec![structure, member],
        };
        assert(instruction@ =~= Inst::array_length(type_id, id, structure, member));
        instruction
    }

    /// The header of a selection construct, which meets again at `merge`.
    pub fn selection_merge(merge: Word, control: Word) -> (instruction: Instruction)
        ensures
            instruction@ == Inst::selection_merge(merge, control),
    {
        let instruction = Instruction {
            op: spirv::Op::SelectionMerge,
            type_id: None,
            result_id: None,
            operands: vec![merge, control],
        };
        assert(instruction@ =~= Inst::selection_merge(merge, control));
        instruction
    }

    /// The header of a loop construct.
    pub fn loop_merge(merge: Word, continuing: Word, control: Word) -> (instruction: Instruction)
        ensures
            instruction@ == Inst::loop_merge(merge, continuing, control),
    {
        let instruction = Instruction {
            op: spirv::Op::LoopMerge,
            type_id: None,
            result_id: None,
            operands: vec![merge, continuing, control],
        };
        assert(instruction@ =~= Inst::loop_merge(merge, continuing, control));
        instruction
    }

    /// A jump.
    pub fn branch(label: Word) -> (instruction: Instruction)
        ensures
            instruction@ == Inst::branch(label),
    {
        let instruction = Instruction {
            op: spirv::Op::Branch,
            type_id: None,
            result_id: None,
            operands: vec![label],
        };
        assert(instruction@ =~= Inst::branch(label));
        instruction
    }

    /// A two-way jump.
    pub fn branch_conditional(
        condition: Word,
        accept: Word,
        reject: Word,
    ) -> (instruction: Instruction)
        ensures
            instruction@ == Inst::branch_conditional(condition, accept, reject),
    {
        let instruction = Instruction {
            op: spirv::Op::BranchConditional,
            type_id: None,
            result_id: None,
            operands: vec![condition, accept, reject],
        };
        assert(instruction@ =~= Inst::branch_conditional(condition, accept, reject));
        instruction
    }

    /// A return without a value.
    pub fn return_void() -> (instruction: Instruction)
        ensures
            instruction@ == Inst::return_void(),
    {
        let instruction = Instruction {
            op: spirv::Op::Return,
            type_id: None,
            result_id: None,
            operands: Vec::new(),
        };
        assert(instruction@ =~= Inst::return_void());
        instruction
    }

    /// A return of a value.
    pub fn return_value(value: Word) -> (instruction: Instruction)
        ensures
            instruction@ == Inst::return_value(value),
    {
        let instruction = Instruction {
            op: spirv::Op::ReturnValue,
            type_id: None,
            result_id: None,
            operands: vec![value],
        };
        assert(instruction@ =~= Inst::return_value(value));
        instruction
    }

    /// The end of the invocation.
    pub fn kill() -> (instruction: Instruction)
        ensures
            instruction@ == Inst::kill(),
    {
        let instruction = Instruction {
            op: spirv::Op::Kill,
            type_id: None,
            result_id: None,
            operands: Vec::new(),
        };
        assert(instruction@ =~= Inst::kill());
        instruction
    }

    /// A barrier.
    pub fn control_barrier(
        exec_scope: Word,
        mem_scope: Word,
        semantics: Word,
    ) -> (instruction: Instruction)
        ensures
            instruction@ == Inst::control_barrier(exec_scope, mem_scope, semantics),
    {
        let instruction = Instruction {
            op: spirv::Op::ControlBarrier,
            type_id: None,
            result_id: None,
            operands: vec![exec_scope, mem_scope, semantics],
        };
        assert(instruction@ =~= Inst::control_barrier(exec_scope, mem_scope, semantics));
        instruction
    }

    /// The boolean type.
    pub fn type_bool(id: Word) -> (instruction: Instruction)
        ensures
            instruction@ == Inst::type_bool(id),
    {
        let instruction = Instruction {
            op: spirv::Op::TypeBool,
            type_id: None,
            result_id: Some(id),
            operands: Vec::new(),
        };
        assert(instruction@ =~= Inst::type_bool(id));
        instruction
    }

    /// An integer type; `signedness` is 1 for a signed one.
    pub fn type_int(id: Word, bits: Word, signedness: Word) -> (instruction: Instruction)
        ensures
            instruction@ == Inst::type_int(id, bits, signedness),
    {
        let instruction = Instruction {
            op: spirv::Op::TypeInt,
            type_id: None,
            result_id: Some(id),
            operands: vec![bits, signedness],
        };
        assert(instruction@ =~= Inst::type_int(id, bits, signedness));
        instruction
    }

    /// A floating-point type.
    pub fn type_float(id: Word, bits: Word) -> (instruction: Instruction)
        ensures
            instruction@ == Inst::type_float(id, bits),
    {
        let instruction = Instruction {
            op: spirv::Op::TypeFloat,
            type_id: None,
            result_id: Some(id),
            operands: vec![bits],
        };
        assert(instruction@ =~= Inst::type_float(id, bits));
        instruction
    }

    /// A vector type.
    pub fn type_vector(id: Word, component: Word, count: Word) -> (instruction: Instruction)
        ensures
            instruction@ == Inst::type_vector(id, component, count),
    {
        let instruction = Instruction {
            op: spirv::Op::TypeVector,
            type_id: None,
            result_id: Some(id),
            operands: vec![component, count],
        };
        assert(instruction@ =~= Inst::type_vector(id, component, count));
        instruction
    }

    /// A matrix type.
    pub fn type_matrix(id: Word, column: Word, count: Word) -> (instruction: Instruction)
        ensures
            instruction@ == Inst::type_matrix(id, column, count),
    {
        let instruction = Instruction {
            op: spirv::Op::TypeMatrix,
            type_id: None,
            result_id: Some(id),
            operands: vec![column, count],
        };
        assert(instruction@ =~= Inst::type_matrix(id, column, count));
        instruction
    }

    /// A pointer type.
    pub fn type_pointer(
        id: Word,
        class: spirv::StorageClass,
        base: Word,
    ) -> (instruction: Instruction)
        ensures
            instruction@ == Inst::type_pointer(id, class, base),
    {
        let instruction = Instruction {
            op: spirv::Op::TypePointer,
            type_id: None,
            result_id: Some(id),
            operands: vec![class as Word, base],
        };
        assert(instruction@ =~= Inst::type_pointer(id, class, base));
        instruction
    }

    /// The type of an image combined with a sampler.
    pub fn type_sampled_image(id: Word, image: Word) -> (instruction: Instruction)
        ensures
            instruction@ == Inst::type_sampled_image(id, image),
    {
        let instruction = Instruction {
            op: spirv::Op::TypeSampledImage,
            type_id: None,
            result_id: Some(id),
            operands: vec![image],
        };
        assert(instruction@ =~= Inst::type_sampled_image(id, image));
        instruction
    }

    /// The boolean constant `true`.
    pub fn constant_true(type_id: Word, id: Word) -> (instruction: Instruction)
        ensures
            instruction@ == Inst::constant_true(type_id, id),
    {
        let instruction = Instruction {
            op: spirv::Op::ConstantTrue,
            type_id: Some(type_id),
            result_id: Some(id),
            operands: Vec::new(),
        };
        assert(instruction@ =~= Inst::constant_true(type_id, id));
        instruction
    }

    /// The boolean constant `false`.
    pub fn constant_false(type_id: Word, id: Word) -> (instruction: Instruction)
        ensures
            instruction@ == Inst::constant_false(type_id, id),
    {
        let instruction = Instruction {
            op: spirv::Op::ConstantFalse,
            type_id: Some(type_id),
            result_id: Some(id),
            operands: Vec::new(),
        };
        assert(instruction@ =~= Inst::constant_false(type_id, id));
        instruction
    }

    /// The zero value of a type.
    pub fn constant_null(type_id: Word, id: Word) -> (instruction: Instruction)
        ensures
            instruction@ == Inst::constant_null(type_id, id),
    {
        let instruction = Instruction {
            op: spirv::Op::ConstantNull,
            type_id: Some(type_id),
            result_id: Some(id),
            operands: Vec::new(),
        };
        assert(instruction@ =~= Inst::constant_null(type_id, id));
        instruction
    }

    /// A scalar constant, low word first.
    pub fn constant(type_id: Word, id: Word, words: &Vec<Word>) -> (instruction: Instruction)
        ensures
            instruction@ == Inst::constant(type_id, id, words@),
    {
        let mut operands: Vec<Word> = Vec::new();
        append(&mut operands, words);
        let instruction = Instruction {
            op: spirv::Op::Constant,
            type_id: Some(type_id),
            result_id: Some(id),
            operands,
        };
        assert(instruction@ =~= Inst::constant(type_id, id, words@));
        instruction
    }

    /// A composite built from its parts.
    pub fn composite_construct(
        type_id: Word,
        id: Word,
        parts: &Vec<Word>,
    ) -> (instruction: Instruction)
        ensures
            instruction@ == Inst::composite_construct(type_id, id, parts@),
    {
        let mut operands: Vec<Word> = Vec::new();
        append(&mut operands, parts);
        let instruction = Instruction {
            op: spirv::Op::CompositeConstruct,
            type_id: Some(type_id),
            result_id: Some(id),
            operands,
        };
        assert(instruction@ =~= Inst::composite_construct(type_id, id, parts@));
        instruction
    }

    /// A vector picked from the components of two.
    pub fn vector_shuffle(
        type_id: Word,
        id: Word,
        first: Word,
        second: Word,
        components: &Vec<Word>,
    ) -> (instruction: Instruction)
        ensures
            instruction@ == Inst::vector_shuffle(type_id, id, first, second, components@),
    {
        let mut operands: Vec<Word> = vec![first, second];
        append(&mut operands, components);
        let instruction = Instruction {
            op: spirv::Op::VectorShuffle,
            type_id: Some(type_id),
            result_id: Some(id),
            operands,
        };
        assert(instruction@ =~= Inst::vector_shuffle(type_id, id, first, second, components@));
        instruction
    }

    /// A pointer into the object behind a pointer.
    pub fn access_chain(
        type_id: Word,
        id: Word,
        base: Word,
        indices: &Vec<Word>,
    ) -> (instruction: Instruction)
        ensures
            instruction@ == Inst::access_chain(type_id, id, base, indices@),
    {
        let mut operands: Vec<Word> = vec![base];
        append(&mut operands, indices);
        let instruction = Instruction {
            op: spirv::Op::AccessChain,
            type_id: Some(type_id),
            result_id: Some(id),
            operands,
        };
        assert(instruction@ =~= Inst::access_chain(type_id, id, base, indices@));
        instruction
    }

    /// An instruction of the extended set `set`.
    pub fn ext_inst(
        set: Word,
        op: spirv::GLOp,
        type_id: Word,
        id: Word,
        arguments: &Vec<Word>,
    ) -> (instruction: Instruction)
        ensures
            instruction@ == Inst::ext_inst(set, op, type_id, id, arguments@),
    {
        let mut operands: Vec<Word> = vec![set, op as Word];
        append(&mut operands, arguments);
        let instruction = Instruction {
            op: spirv::Op::ExtInst,
            type_id: Some(type_id),
            result_id: Some(id),
            operands,
        };
        assert(instruction@ =~= Inst::ext_inst(set, op, type_id, id, arguments@));
        instruction
    }

    /// A call.
    pub fn function_call(
        type_id: Word,
        id: Word,
        function: Word,
        arguments: &Vec<Word>,
    ) -> (instruction: Instruction)
        ensures
            instruction@ == Inst::function_call(type_id, id, function, arguments@),
    {
        let mut operands: Vec<Word> = vec![function];
        append(&mut operands, arguments);
        let instruction = Instruction {
            op: spirv::Op::FunctionCall,
            type_id: Some(type_id),
            result_id: Some(id),
            operands,
        };
        assert(instruction@ =~= Inst::function_call(type_id, id, function, arguments@));
        instruction
    }

    /// A value that depends on the block that control came from.
    pub fn phi(
        type_id: Word,
        id: Word,
        first: Word,
        first_label: Word,
        second: Word,
        second_label: Word,
    ) -> (instruction: Instruction)
        ensures
            instruction@ == Inst::phi(type_id, id, first, first_label, second, second_label),
    {
        let instruction = Instruction {
            op: spirv::Op::Phi,
            type_id: Some(type_id),
            result_id: Some(id),
            operands: vec![first, first_label, second, second_label],
        };
        assert(instruction@ =~= Inst::phi(type_id, id, first, first_label, second, second_label));
        instruction
    }

    /// A query of an image's properties.
    pub fn image_query(
        op: spirv::Op,
        type_id: Word,
        id: Word,
        image: Word,
    ) -> (instruction: Instruction)
        ensures
            instruction@ == Inst::image_query(op, type_id, id, image),
    {
        let instruction = Instruction {
            op,
            type_id: Some(type_id),
            result_id: Some(id),
            operands: vec![image],
        };
        assert(instruction@ =~= Inst::image_query(op, type_id, id, image));
        instruction
    }
}

} // verus!
