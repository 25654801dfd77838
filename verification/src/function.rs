//! A function under construction, and the blocks that it is made of.

use std::collections::HashMap;
use spirv::Word;
use vstd::prelude::*;
use crate::instruction::{insts, lemma_insts_push, Inst, Instruction};
use crate::ir::BuiltIn;

verus! {

broadcast use {lemma_insts_push, vstd::std_specs::hash::group_hash_axioms};

/// What a block says: its label, and the instructions that follow it.
#[verifier::ext_equal]
pub struct Blk {
    pub label: Word,
    pub body: Seq<Inst>,
}

impl Blk {
    /// The block that holds nothing yet.
    pub open spec fn start(label: Word) -> Blk {
        Blk { label, body: Seq::empty() }
    }

    /// The block with one more instruction.
    pub open spec fn push(self, inst: Inst) -> Blk {
        Blk { body: self.body.push(inst), ..self }
    }
}

/// A block to which instructions are still being added.
#[derive(Debug)]
pub struct Block {
    pub label_id: Word,
    pub body: Vec<Instruction>,
}

impl View for Block {
    type V = Blk;

    open spec fn view(&self) -> Blk {
        Blk { label: self.label_id, body: insts(self.body@) }
    }
}

impl Block {
    /// An empty block.
    pub fn new(label_id: Word) -> (block: Block)
        ensures
            block@ == Blk::start(label_id),
    {
        let block = Block { label_id, body: Vec::new() };
        assert(block@.body =~= Seq::empty());
        block
    }

    /// Adds an instruction at the end.
    pub fn push(&mut self, instruction: Instruction)
        ensures
            final(self)@ == old(self)@.push(instruction@),
    {
        self.body.push(instruction);
    }
}

/// A block that ends with a termination instruction.
#[derive(Debug)]
pub struct TerminatedBlock {
    pub label_id: Word,
    pub body: Vec<Instruction>,
}

impl View for TerminatedBlock {
    type V = Blk;

    open spec fn view(&self) -> Blk {
        Blk { label: self.label_id, body: insts(self.body@) }
    }
}

/// The views of a list of blocks.
pub open spec fn blks(list: Seq<TerminatedBlock>) -> Seq<Blk> {
    list.map_values(|block: TerminatedBlock| block@)
}

/// A parameter of a function.
#[derive(Clone, Copy, Debug, PartialEq, Eq, Structural)]
pub struct Parameter {
    /// The parameter itself.
    pub id: Word,
    /// The loaded image or sampler of a parameter that points to one, or zero.
    pub handle_id: Word,
}

/// An output variable of an entry point.
#[derive(Clone, Copy, Debug, PartialEq, Eq, Structural)]
pub struct ResultMember {
    pub id: Word,
    pub type_id: Word,
    pub built_in: Option<BuiltIn>,
}

/// What is special about a function that is an entry point.
#[derive(Debug)]
pub struct EntryPointContext {
    /// The ids of the loaded arguments.
    pub argument_ids: Vec<Word>,
    /// The output variables.
    pub results: Vec<ResultMember>,
}

/// What is special about a function that is an entry point.
#[verifier::ext_equal]
pub struct EntryPoint {
    pub argument_ids: Seq<Word>,
    pub results: Seq<ResultMember>,
}

/// The parts of a [`Function`] that generating code reads only.
#[verifier::ext_equal]
pub struct FunctionSettings {
    pub parameters: Seq<Parameter>,
    pub variables: Map<u32, Word>,
    pub entry_point: Option<EntryPoint>,
}

impl FunctionSettings {
    /// The id of the value of an argument. An entry point loads its arguments
    /// from input variables.
    pub open spec fn parameter_id(self, index: u32) -> Option<Word> {
        match self.entry_point {
            Some(entry_point) => if index < entry_point.argument_ids.len() {
                Some(entry_point.argument_ids[index as int])
            } else {
                None
            },
            None => if index < self.parameters.len() {
                Some(self.parameters[index as int].id)
            } else {
                None
            },
        }
    }
}

/// A function under construction.
#[derive(Debug)]
pub struct Function {
    pub parameters: Vec<Parameter>,
    /// The local variables, by the index of the variable.
    pub variables: HashMap<u32, Word>,
    pub blocks: Vec<TerminatedBlock>,
    /// Present if the function is an entry point.
    pub entry_point_context: Option<EntryPointContext>,
}

impl Function {
    /// What generating code reads only.
    pub open spec fn settings(&self) -> FunctionSettings {
        FunctionSettings {
            parameters: self.parameters@,
            variables: self.variables@,
            entry_point: match self.entry_point_context {
                Some(context) => Some(
                    EntryPoint {
                        argument_ids: context.argument_ids@,
                        results: context.results@,
                    },
                ),
                None => None,
            },
        }
    }

    /// Ends a block and adds it to the function.
    pub fn consume(&mut self, block: Block, termination: Instruction)
        ensures
            blks(final(self).blocks@) == blks(old(self).blocks@).push(
                block@.push(termination@),
            ),
            final(self).settings() == old(self).settings(),
    {
        let mut block = block;
        block.push(termination);
        let ended = TerminatedBlock { label_id: block.label_id, body: block.body };
        self.blocks.push(ended);
        assert(blks(self.blocks@) =~= blks(old(self).blocks@).push(ended@));
    }

    /// The id of the value of an argument.
    pub fn parameter_id(&self, index: u32) -> (id: Word)
        requires
            self.settings().parameter_id(index) is Some,
        ensures
            self.settings().parameter_id(index) == Some(id),
    {
        match &self.entry_point_context {
            Some(context) => context.argument_ids[index as usize],
            None => self.parameters[index as usize].id,
        }
    }
}

} // verus!
