//! The state of generating the blocks of one function.

use spirv::Word;
use vstd::prelude::*;
use crate::function::{blks, Blk, Block, Function, FunctionSettings};
use crate::image_laws::handle_of;
use crate::instruction::{Inst, Instruction};
use crate::ir::{
    Bytes, ExprHandle, Expression, FunctionInfo, Module, ScalarValue, TypeInner, TypeResolution,
};
use crate::meaning::put_off;
use crate::run::{Error, Run};
use crate::types::{lookup_resolution, resolution_type, LookupType};
use crate::writer::{Writer, WriterSettings, WriterState};

verus! {

/// What generating the blocks of a function reads: the shader, and those
/// parts of the module and the function that stay as they are.
pub struct Env {
    pub module: Module,
    pub fun: crate::ir::Function,
    pub info: FunctionInfo,
    pub writer: WriterSettings,
    pub function: FunctionSettings,
}

impl Env {
    /// Whether the module may not take on capabilities.
    pub open spec fn strict(self) -> bool {
        self.writer.strict_capabilities
    }

    /// The shape of the type of an expression.
    pub open spec fn inner(self, expr: ExprHandle) -> Option<TypeInner> {
        match self.info.ty(expr) {
            Some(ty) => self.module.resolved(ty),
            None => None,
        }
    }

    /// The type to look up for an expression.
    pub open spec fn lookup(self, expr: ExprHandle) -> Option<LookupType> {
        match self.info.ty(expr) {
            Some(ty) => resolution_type(ty),
            None => None,
        }
    }
}

/// What generating the blocks of a function changes, between blocks.
#[verifier::ext_equal]
pub struct Code {
    pub writer: WriterState,
    /// The ids of the values of the expressions; zero where there is none.
    pub cached: Seq<Word>,
    /// The blocks that are ended.
    pub blocks: Seq<Blk>,
}

/// What generating the blocks of a function changes, inside a block.
#[verifier::ext_equal]
pub struct State {
    pub code: Code,
    /// The block that instructions are being added to.
    pub block: Blk,
}

/// The ids that follow `last`, `count` of them.
pub open spec fn ids_after(last: Word, count: nat) -> Seq<Word> {
    Seq::new(count, |i: int| (last + 1 + i) as Word)
}

impl Code {
    /// The state once the next id is taken; the id is then `last_id`.
    pub open spec fn fresh(self) -> Option<Code> {
        match self.writer.fresh() {
            Some(writer) => Some(Code { writer, ..self }),
            None => None,
        }
    }

    /// The state once the next `count` ids are taken; see [`ids_after`].
    pub open spec fn fresh_many(self, count: nat) -> Option<Code> {
        if self.writer.last_id + count <= Word::MAX {
            Some(
                Code {
                    writer: WriterState {
                        last_id: (self.writer.last_id + count) as Word,
                        ..self.writer
                    },
                    ..self
                },
            )
        } else {
            None
        }
    }

    /// The id that was taken last.
    pub open spec fn id(self) -> Word {
        self.writer.last_id
    }

    /// The state in which a block has been begun.
    pub open spec fn begin(self, label: Word) -> State {
        State { code: self, block: Blk::start(label) }
    }

    /// The id of the value of an expression, if there is one.
    pub open spec fn operand(self, expr: ExprHandle) -> Option<Word> {
        if expr.0 < self.cached.len() && self.cached[expr.0 as int] != 0 {
            Some(self.cached[expr.0 as int])
        } else {
            None
        }
    }

    /// The state in which an expression has a value.
    pub open spec fn cache(self, expr: ExprHandle, id: Word) -> Option<Code> {
        if expr.0 < self.cached.len() {
            Some(Code { cached: self.cached.update(expr.0 as int, id), ..self })
        } else {
            None
        }
    }

    /// The state with one more block.
    pub open spec fn consume(self, block: Blk, termination: Inst) -> Code {
        Code { blocks: self.blocks.push(block.push(termination)), ..self }
    }

    /// Asks for the id of a type.
    pub open spec fn type_id(self, env: Env, ty: LookupType) -> Run<Code, Word> {
        match self.writer.type_id(env.strict(), ty) {
            Some((writer, result)) => Some((Code { writer, ..self }, result)),
            None => None,
        }
    }

    /// Asks for the id of a 32-bit unsigned constant.
    pub open spec fn index_id(self, env: Env, index: u32) -> Run<Code, Word> {
        match self.writer.index_id(env.strict(), index) {
            Some((writer, result)) => Some((Code { writer, ..self }, result)),
            None => None,
        }
    }
}

impl State {
    /// The state once the next id is taken; the id is then [`State::id`].
    pub open spec fn fresh(self) -> Option<State> {
        match self.code.fresh() {
            Some(code) => Some(State { code, ..self }),
            None => None,
        }
    }

    /// The id that was taken last.
    pub open spec fn id(self) -> Word {
        self.code.id()
    }

    /// The id of the value of an expression, if there is one.
    pub open spec fn operand(self, expr: ExprHandle) -> Option<Word> {
        self.code.operand(expr)
    }

    /// The state with one more instruction in the block.
    pub open spec fn push(self, inst: Inst) -> State {
        State { block: self.block.push(inst), ..self }
    }

    /// The state in which the block is ended and another one begun.
    pub open spec fn switch_to(self, termination: Inst, label: Word) -> State {
        State { code: self.code.consume(self.block, termination), block: Blk::start(label) }
    }

    /// The state in which an expression has a value.
    pub open spec fn cache(self, expr: ExprHandle, id: Word) -> Option<State> {
        match self.code.cache(expr, id) {
            Some(code) => Some(State { code, ..self }),
            None => None,
        }
    }

    /// Asks for the id of a type.
    pub open spec fn type_id(self, env: Env, ty: LookupType) -> Run<State, Word> {
        match self.code.type_id(env, ty) {
            Some((code, result)) => Some((State { code, ..self }, result)),
            None => None,
        }
    }

    /// Asks for the id of a 32-bit unsigned constant.
    pub open spec fn index_id(self, env: Env, index: u32) -> Run<State, Word> {
        match self.code.index_id(env, index) {
            Some((code, result)) => Some((State { code, ..self }, result)),
            None => None,
        }
    }

    /// Asks for the id of a scalar constant.
    pub open spec fn constant_id(self, env: Env, value: ScalarValue, width: Bytes) -> Run<
        State,
        Word,
    > {
        match self.code.writer.constant_id(env.strict(), value, width) {
            Some((writer, result)) => Some(
                (State { code: Code { writer, ..self.code }, ..self }, result),
            ),
            None => None,
        }
    }

    /// Asks for a capability.
    pub open spec fn check(self, env: Env, capability: spirv::Capability) -> (
        State,
        Result<(), Error>,
    ) {
        let (writer, result) = self.code.writer.check(env.strict(), capability);
        (State { code: Code { writer, ..self.code }, ..self }, result)
    }

    /// Declares a zero value; its id is then [`State::id`].
    pub open spec fn null(self, type_id: Word) -> Option<State> {
        match self.code.writer.null(type_id) {
            Some(writer) => Some(State { code: Code { writer, ..self.code }, ..self }),
            None => None,
        }
    }
}

/// The ids of the values of expressions.
#[derive(Debug)]
pub struct CachedExpressions {
    /// The id of each expression's value, or zero.
    pub ids: Vec<Word>,
}

/// Generation of the blocks of one function.
#[derive(Debug)]
pub struct BlockContext<'w> {
    pub writer: Writer,
    pub ir_module: &'w Module,
    pub ir_function: &'w crate::ir::Function,
    pub fun_info: &'w FunctionInfo,
    pub function: Function,
    pub cached: CachedExpressions,
}

/// Whether an expression is a pointer that is not a value of its own yet; see
/// [`BlockContext::is_intermediate`].
pub open spec fn intermediate(env: Env, code: Code, expr: ExprHandle) -> Option<bool> {
    match env.fun.expression(expr) {
        Some(Expression::GlobalVariable(_)) | Some(Expression::LocalVariable(_)) => Some(true),
        Some(Expression::FunctionArgument(index)) => if index < env.fun.arguments@.len() {
            match env.module.inner(env.fun.arguments@[index as int].ty) {
                Some(inner) => Some(inner.pointer_class() is Some),
                None => None,
            }
        } else {
            None
        },
        Some(_) => if expr.0 < code.cached.len() {
            Some(code.cached[expr.0 as int] == 0)
        } else {
            None
        },
        None => None,
    }
}

/// The id of the image or sampler that an expression names: that of a global
/// variable or of a parameter. It is not zero.
pub open spec fn image_id(env: Env, expr: ExprHandle) -> Option<Word> {
    let id: Option<Word> = match env.fun.expression(expr) {
        Some(Expression::GlobalVariable(handle)) => if handle.0
            < env.writer.global_variables.len() {
            Some(env.writer.global_variables[handle.0 as int].handle_id)
        } else {
            None
        },
        Some(Expression::FunctionArgument(index)) => if index < env.function.parameters.len() {
            Some(env.function.parameters[index as int].handle_id)
        } else {
            None
        },
        _ => None,
    };
    if id == Some(0u32) {
        None
    } else {
        id
    }
}

impl<'w> BlockContext<'w> {
    /// What generating blocks reads only.
    pub open spec fn env(&self) -> Env {
        Env {
            module: *self.ir_module,
            fun: *self.ir_function,
            info: *self.fun_info,
            writer: self.writer.settings(),
            function: self.function.settings(),
        }
    }

    /// What generating blocks changes, between blocks.
    pub open spec fn code(&self) -> Code {
        Code {
            writer: self.writer@,
            cached: self.cached.ids@,
            blocks: blks(self.function.blocks@),
        }
    }

    /// What generating blocks changes, inside a block.
    pub open spec fn state(&self, block: Block) -> State {
        State { code: self.code(), block: block@ }
    }

    /// A fresh id.
    pub fn gen_id(&mut self) -> (id: Word)
        requires
            old(self).code().fresh() is Some,
        ensures
            old(self).code().fresh() == Some(final(self).code()),
            id == final(self).code().id(),
            final(self).env() == old(self).env(),
    {
        self.writer.gen_id()
    }

    /// The id of the value of an expression.
    pub fn operand(&self, expr: ExprHandle) -> (id: Word)
        requires
            self.code().operand(expr) is Some,
        ensures
            self.code().operand(expr) == Some(id),
    {
        self.cached.ids[expr.0 as usize]
    }

    /// Gives an expression a value.
    pub fn cache(&mut self, expr: ExprHandle, id: Word)
        requires
            old(self).code().cache(expr, id) is Some,
        ensures
            old(self).code().cache(expr, id) == Some(final(self).code()),
            final(self).env() == old(self).env(),
    {
        self.cached.ids.set(expr.0 as usize, id);
    }

    /// The shape of the type of an expression.
    pub fn inner(&self, expr: ExprHandle) -> (inner: TypeInner)
        requires
            self.env().inner(expr) is Some,
        ensures
            self.env().inner(expr) == Some(inner),
    {
        self.ir_module.resolve(self.fun_info.types[expr.0 as usize])
    }

    /// The id of a type, which is declared if it is not yet.
    pub fn get_type_id(&mut self, lookup_type: LookupType) -> (result: Result<Word, Error>)
        requires
            old(self).code().type_id(old(self).env(), lookup_type) is Some,
        ensures
            old(self).code().type_id(old(self).env(), lookup_type) == Some(
                (final(self).code(), result),
            ),
            final(self).env() == old(self).env(),
    {
        self.writer.get_type_id(lookup_type)
    }

    /// The id of the type of an expression.
    pub fn get_expression_type_id(&mut self, ty: TypeResolution) -> (result: Result<Word, Error>)
        requires
            resolution_type(ty) is Some,
            old(self).code().type_id(old(self).env(), resolution_type(ty).unwrap()) is Some,
        ensures
            old(self).code().type_id(old(self).env(), resolution_type(ty).unwrap()) == Some(
                (final(self).code(), result),
            ),
            final(self).env() == old(self).env(),
    {
        self.get_type_id(lookup_resolution(ty))
    }

    /// The id of a 32-bit unsigned constant.
    pub fn get_index_constant(&mut self, index: u32) -> (result: Result<Word, Error>)
        requires
            old(self).code().index_id(old(self).env(), index) is Some,
        ensures
            old(self).code().index_id(old(self).env(), index) == Some(
                (final(self).code(), result),
            ),
            final(self).env() == old(self).env(),
    {
        self.writer.get_index_constant(index)
    }

    /// Ends a block and adds it to the function.
    pub fn consume(&mut self, block: Block, termination: Instruction)
        ensures
            final(self).code() == old(self).code().consume(block@, termination@),
            final(self).env() == old(self).env(),
    {
        self.function.consume(block, termination);
    }

    /// Ends a block, and leaves an empty one with another label in its place.
    pub fn switch_to(&mut self, block: &mut Block, termination: Instruction, label_id: Word)
        ensures
            final(self).state(*final(block)) == old(self).state(*old(block)).switch_to(
                termination@,
                label_id,
            ),
            final(self).env() == old(self).env(),
    {
        let mut other = Block::new(label_id);
        std::mem::swap(block, &mut other);
        self.function.consume(other, termination);
    }

    /// Whether to put off emitting instructions for what is built on `expr_handle`.
    ///
    /// Chains of `Access` and `AccessIndex` expressions are gathered into a
    /// single `OpAccessChain`. No instructions are generated for them when they
    /// are first met, and their cached ids are left as zero; once a load or a
    /// store needs the chain's value,
    /// [`write_expression_pointer`](BlockContext::write_expression_pointer)
    /// writes the whole of it.
    ///
    /// Variables and arguments that are pointers begin such a chain. An
    /// `Access` whose base was put off is put off too.
    pub fn is_intermediate(&self, expr_handle: ExprHandle) -> (result: bool)
        requires
            intermediate(self.env(), self.code(), expr_handle) is Some,
        ensures
            intermediate(self.env(), self.code(), expr_handle) == Some(result),
            result <==> put_off(self.env(), self.code(), expr_handle),
    {
        match &self.ir_function.expressions[expr_handle.0 as usize] {
            Expression::GlobalVariable(_) | Expression::LocalVariable(_) => true,
            Expression::FunctionArgument(index) => {
                let arg = self.ir_function.arguments[*index as usize];
                self.ir_module.types[arg.ty.0 as usize].inner.pointer_class().is_some()
            },
            _ => self.cached.ids[expr_handle.0 as usize] == 0,
        }
    }

    /// The id of the image or sampler that an expression names.
    pub fn get_image_id(&self, expr_handle: ExprHandle) -> (id: Word)
        requires
            image_id(self.env(), expr_handle) is Some,
        ensures
            image_id(self.env(), expr_handle) == Some(id),
            id == handle_of(self.env(), expr_handle),
    {
        match &self.ir_function.expressions[expr_handle.0 as usize] {
            Expression::GlobalVariable(handle) => {
                self.writer.global_variables[handle.0 as usize].handle_id
            },
            Expression::FunctionArgument(index) => {
                self.function.parameters[*index as usize].handle_id
            },
            _ => vstd::pervasive::unreached(),
        }
    }
}

} // verus!
