//! The part of a module that all its functions share: ids, types, constants
//! and capabilities.

use std::collections::HashMap;
use spirv::Word;
use vstd::prelude::*;
use crate::instruction::{insts, lemma_insts_push, Inst, Instruction};
use crate::ir::{Bytes, ScalarKind, ScalarValue, BOOL_WIDTH};
use crate::run::{Error, Run};
use crate::types::{bool_type, uint_type, value_type, LocalType, LookupType};
use crate::words::same_capability;

verus! {

broadcast use {lemma_insts_push, vstd::std_specs::hash::group_hash_axioms};

/// Source of fresh ids.
#[derive(Debug)]
pub struct IdGenerator {
    /// The id that was handed out last, or zero.
    pub last: Word,
}

impl IdGenerator {
    /// The id after the last one.
    pub fn next(&mut self) -> (id: Word)
        requires
            old(self).last < Word::MAX,
        ensures
            id == old(self).last + 1,
            final(self).last == id,
    {
        self.last += 1;
        self.last
    }
}

/// The ids of a global variable.
#[derive(Clone, Copy, Debug, PartialEq, Eq, Structural)]
pub struct GlobalVariable {
    /// The variable itself.
    pub id: Word,
    /// The loaded image or sampler of a variable that holds one, or zero.
    pub handle_id: Word,
}

/// Options of the generated code.
#[derive(Clone, Copy, Debug, PartialEq, Eq, Structural)]
pub struct WriterFlags {
    /// Emit names for debugging.
    pub debug: bool,
    /// Flip the Y coordinate of the `Position` output.
    pub adjust_coordinate_space: bool,
}

/// What generated code does about an index that may be out of bounds.
#[derive(Clone, Copy, Debug, PartialEq, Eq, Structural)]
pub enum IndexBoundsCheckPolicy {
    /// Replace it by an index that is in bounds.
    Restrict,
    /// Reads give zero, and writes do nothing.
    ReadZeroSkipWrite,
    /// Nothing.
    UndefinedBehavior,
}

/// The parts of a [`Writer`] that generating code changes.
#[verifier::ext_equal]
pub struct WriterState {
    /// The id that was handed out last, or zero.
    pub last_id: Word,
    /// The types that have an id.
    pub types: Map<LookupType, Word>,
    /// The scalar constants that have an id, by value and width.
    pub constants: Map<(ScalarValue, Bytes), Word>,
    /// The declarations of types and constants, in order.
    pub declarations: Seq<Inst>,
    /// The capabilities that the module declares.
    pub capabilities: Set<spirv::Capability>,
    /// The ids of the results of calls, by expression.
    pub calls: Map<u32, Word>,
}

/// The parts of a [`Writer`] that generating code reads only.
#[verifier::ext_equal]
pub struct WriterSettings {
    pub strict_capabilities: bool,
    pub flags: WriterFlags,
    pub index_bounds_check_policy: IndexBoundsCheckPolicy,
    pub void_type: Word,
    pub gl450_ext_inst_id: Word,
    pub constant_ids: Seq<Word>,
    pub global_variables: Seq<GlobalVariable>,
    pub functions: Map<u32, Word>,
}

/// The bindings of a list of entries, later ones first.
pub open spec fn table<K, V>(entries: Seq<(K, V)>) -> Map<K, V>
    decreases entries.len(),
{
    if entries.len() == 0 {
        Map::empty()
    } else {
        table(entries.drop_last()).insert(entries.last().0, entries.last().1)
    }
}

broadcast proof fn lemma_table_push<K, V>(entries: Seq<(K, V)>, entry: (K, V))
    ensures
        #[trigger] table(entries.push(entry)) == table(entries).insert(entry.0, entry.1),
{
    assert(entries.push(entry).drop_last() =~= entries);
}

/// The two's complement bit pattern of an integer.
pub open spec fn bit_pattern(value: i64) -> u64 {
    if value >= 0 {
        value as u64
    } else {
        (value + 0x1_0000_0000_0000_0000) as u64
    }
}

/// The words of a constant that is `width` bytes wide, low word first.
pub open spec fn constant_words(bits: u64, width: Bytes) -> Option<Seq<Word>> {
    if width == 4 {
        Some(seq![(bits % 0x1_0000_0000) as Word])
    } else if width == 8 {
        Some(seq![(bits % 0x1_0000_0000) as Word, (bits / 0x1_0000_0000) as Word])
    } else {
        None
    }
}

/// The instruction that declares a scalar constant of type `type_id` as `id`.
/// Integers and floating-point values are 4 or 8 bytes wide.
pub open spec fn constant_inst(
    value: ScalarValue,
    width: Bytes,
    type_id: Word,
    id: Word,
) -> Option<Inst> {
    match value {
        ScalarValue::Sint(v) => match constant_words(bit_pattern(v), width) {
            Some(words) => Some(Inst::constant(type_id, id, words)),
            None => None,
        },
        ScalarValue::Uint(v) => match constant_words(v, width) {
            Some(words) => Some(Inst::constant(type_id, id, words)),
            None => None,
        },
        ScalarValue::Float(v) => match constant_words(v, width) {
            Some(words) => Some(Inst::constant(type_id, id, words)),
            None => None,
        },
        ScalarValue::Bool(true) => Some(Inst::constant_true(type_id, id)),
        ScalarValue::Bool(false) => Some(Inst::constant_false(type_id, id)),
    }
}

impl WriterState {
    /// The state once the next id is taken; the id is then `last_id`.
    pub open spec fn fresh(self) -> Option<WriterState> {
        if self.last_id < Word::MAX {
            Some(WriterState { last_id: (self.last_id + 1) as Word, ..self })
        } else {
            None
        }
    }

    /// The state with one more declaration.
    pub open spec fn declare(self, inst: Inst) -> WriterState {
        WriterState { declarations: self.declarations.push(inst), ..self }
    }

    /// The state in which a type has an id.
    pub open spec fn with_type(self, ty: LookupType, id: Word) -> WriterState {
        WriterState { types: self.types.insert(ty, id), ..self }
    }

    /// The state in which a constant has an id.
    pub open spec fn with_constant(
        self,
        value: ScalarValue,
        width: Bytes,
        id: Word,
    ) -> WriterState {
        WriterState { constants: self.constants.insert((value, width), id), ..self }
    }

    /// The state in which the result of a call has an id.
    pub open spec fn with_call(self, expr: u32, id: Word) -> WriterState {
        WriterState { calls: self.calls.insert(expr, id), ..self }
    }

    /// Asks for a capability. A strict module has the capabilities that it was
    /// given and fails for any other; one that is not strict takes it on.
    pub open spec fn check(self, strict: bool, capability: spirv::Capability) -> (
        WriterState,
        Result<(), Error>,
    ) {
        if !strict {
            (WriterState { capabilities: self.capabilities.insert(capability), ..self }, Ok(()))
        } else if self.capabilities.contains(capability) {
            (self, Ok(()))
        } else {
            (self, Err(Error::MissingCapability(capability)))
        }
    }

    /// Asks for the id of a type. A type that has none yet is given the next
    /// id and declared, after the types that its declaration needs. The types
    /// of the arena have their ids from the start.
    pub open spec fn type_id(self, strict: bool, ty: LookupType) -> Run<WriterState, Word>
        decreases ty.depth(),
    {
        if self.types.contains_key(ty) {
            Some((self, Ok(self.types[ty])))
        } else {
            match (ty, self.fresh()) {
                (LookupType::Local(local), Some(w)) => match local.referenced() {
                    Some(referenced) => match w.type_id(strict, referenced) {
                        Some((w1, Ok(base))) => Some(
                            (
                                w1.with_type(ty, w.last_id).declare(
                                    local.declaration(w.last_id, base),
                                ),
                                Ok(w.last_id),
                            ),
                        ),
                        failed => failed,
                    },
                    None => match local.capability() {
                        Some(capability) => match w.check(strict, capability) {
                            (w1, Ok(_)) => Some(
                                (
                                    w1.with_type(ty, w.last_id).declare(
                                        local.declaration(w.last_id, 0),
                                    ),
                                    Ok(w.last_id),
                                ),
                            ),
                            (w1, Err(error)) => Some((w1, Err(error))),
                        },
                        None => Some(
                            (
                                w.with_type(ty, w.last_id).declare(
                                    local.declaration(w.last_id, 0),
                                ),
                                Ok(w.last_id),
                            ),
                        ),
                    },
                },
                _ => None,
            }
        }
    }

    /// Asks for the id of a scalar constant. A constant that has none yet is
    /// given the next id and declared, after its type.
    pub open spec fn constant_id(self, strict: bool, value: ScalarValue, width: Bytes) -> Run<
        WriterState,
        Word,
    > {
        if self.constants.contains_key((value, width)) {
            Some((self, Ok(self.constants[(value, width)])))
        } else {
            match self.fresh() {
                Some(w) => match w.type_id(strict, value_type(None, value.scalar_kind(), width)) {
                    Some((w1, Ok(type_id))) => match constant_inst(
                        value,
                        width,
                        type_id,
                        w.last_id,
                    ) {
                        Some(inst) => Some(
                            (
                                w1.declare(inst).with_constant(value, width, w.last_id),
                                Ok(w.last_id),
                            ),
                        ),
                        None => None,
                    },
                    failed => failed,
                },
                None => None,
            }
        }
    }

    /// Asks for the id of a 32-bit unsigned constant.
    pub open spec fn index_id(self, strict: bool, index: u32) -> Run<WriterState, Word> {
        self.constant_id(strict, ScalarValue::Uint(index as u64), 4)
    }

    /// Declares a zero value; its id is then `last_id`.
    pub open spec fn null(self, type_id: Word) -> Option<WriterState> {
        match self.fresh() {
            Some(w) => Some(w.declare(Inst::constant_null(type_id, w.last_id))),
            None => None,
        }
    }
}

/// A module under construction.
#[derive(Debug)]
pub struct Writer {
    pub id_gen: IdGenerator,
    pub lookup_type: Vec<(LookupType, Word)>,
    pub cached_constants: Vec<((ScalarValue, Bytes), Word)>,
    pub declarations: Vec<Instruction>,
    pub capabilities: Vec<spirv::Capability>,
    /// The ids of the results of calls, by the index of the expression.
    pub lookup_function_call: HashMap<u32, Word>,
    /// Whether `capabilities` is all that the module may declare.
    pub strict_capabilities: bool,
    pub flags: WriterFlags,
    pub index_bounds_check_policy: IndexBoundsCheckPolicy,
    pub void_type: Word,
    pub gl450_ext_inst_id: Word,
    /// The ids of the module's constants, by the index of the constant.
    pub constant_ids: Vec<Word>,
    /// The global variables, by the index of the variable.
    pub global_variables: Vec<GlobalVariable>,
    /// The ids of the functions, by the index of the function.
    pub lookup_function: HashMap<u32, Word>,
}

impl View for Writer {
    type V = WriterState;

    open spec fn view(&self) -> WriterState {
        WriterState {
            last_id: self.id_gen.last,
            types: table(self.lookup_type@),
            constants: table(self.cached_constants@),
            declarations: insts(self.declarations@),
            capabilities: self.capabilities@.to_set(),
            calls: self.lookup_function_call@,
        }
    }
}

impl Writer {
    /// What generating code reads only.
    pub open spec fn settings(&self) -> WriterSettings {
        WriterSettings {
            strict_capabilities: self.strict_capabilities,
            flags: self.flags,
            index_bounds_check_policy: self.index_bounds_check_policy,
            void_type: self.void_type,
            gl450_ext_inst_id: self.gl450_ext_inst_id,
            constant_ids: self.constant_ids@,
            global_variables: self.global_variables@,
            functions: self.lookup_function@,
        }
    }

    /// A module that holds nothing yet.
    pub fn new(
        flags: WriterFlags,
        index_bounds_check_policy: IndexBoundsCheckPolicy,
    ) -> (writer: Writer)
        ensures
            writer@ == (WriterState {
                last_id: 0,
                types: Map::empty(),
                constants: Map::empty(),
                declarations: Seq::empty(),
                capabilities: Set::empty(),
                calls: Map::empty(),
            }),
            writer.settings() == (WriterSettings {
                strict_capabilities: false,
                flags,
                index_bounds_check_policy,
                void_type: 0,
                gl450_ext_inst_id: 0,
                constant_ids: Seq::empty(),
                global_variables: Seq::empty(),
                functions: Map::empty(),
            }),
    {
        let writer = Writer {
            id_gen: IdGenerator { last: 0 },
            lookup_type: Vec::new(),
            cached_constants: Vec::new(),
            declarations: Vec::new(),
            capabilities: Vec::new(),
            lookup_function_call: HashMap::new(),
            strict_capabilities: false,
            flags,
            index_bounds_check_policy,
            void_type: 0,
            gl450_ext_inst_id: 0,
            constant_ids: Vec::new(),
            global_variables: Vec::new(),
            lookup_function: HashMap::new(),
        };
        assert(writer@.declarations =~= Seq::empty());
        assert(writer@.capabilities =~= Set::empty());
        writer
    }

    /// A fresh id.
    pub fn gen_id(&mut self) -> (id: Word)
        requires
            old(self)@.fresh() is Some,
        ensures
            old(self)@.fresh() == Some(final(self)@),
            id == final(self)@.last_id,
            final(self).settings() == old(self).settings(),
    {
        self.id_gen.next()
    }

    /// The id of a type, if it has one.
    fn find_type(&self, lookup_ty: LookupType) -> (id: Option<Word>)
        ensures
            id == (if self@.types.contains_key(lookup_ty) {
                Some(self@.types[lookup_ty])
            } else {
                None
            }),
    {
        let mut i: usize = self.lookup_type.len();
        assert(self.lookup_type@.take(i as int) =~= self.lookup_type@);
        while i > 0
            invariant
                i <= self.lookup_type.len(),
                self@.types.contains_key(lookup_ty) == table(
                    self.lookup_type@.take(i as int),
                ).contains_key(lookup_ty),
                self@.types.contains_key(lookup_ty) ==> self@.types[lookup_ty] == table(
                    self.lookup_type@.take(i as int),
                )[lookup_ty],
            decreases i,
        {
            i -= 1;
            assert(self.lookup_type@.take(i + 1).drop_last() =~= self.lookup_type@.take(i as int));
            let entry = self.lookup_type[i];
            if entry.0.same(lookup_ty) {
                return Some(entry.1);
            }
        }
        None
    }

    /// The id of a constant, if it has one.
    fn find_constant(&self, value: ScalarValue, width: Bytes) -> (id: Option<Word>)
        ensures
            id == (if self@.constants.contains_key((value, width)) {
                Some(self@.constants[(value, width)])
            } else {
                None
            }),
    {
        let mut i: usize = self.cached_constants.len();
        assert(self.cached_constants@.take(i as int) =~= self.cached_constants@);
        while i > 0
            invariant
                i <= self.cached_constants.len(),
                self@.constants.contains_key((value, width)) == table(
                    self.cached_constants@.take(i as int),
                ).contains_key((value, width)),
                self@.constants.contains_key((value, width)) ==> self@.constants[(value, width)]
                    == table(self.cached_constants@.take(i as int))[(value, width)],
            decreases i,
        {
            i -= 1;
            assert(self.cached_constants@.take(i + 1).drop_last()
                =~= self.cached_constants@.take(i as int));
            let entry = self.cached_constants[i];
            if entry.0.0 == value && entry.0.1 == width {
                return Some(entry.1);
            }
        }
        None
    }

    /// Adds a declaration.
    fn declare(&mut self, instruction: Instruction)
        ensures
            final(self)@ == old(self)@.declare(instruction@),
            final(self).settings() == old(self).settings(),
    {
        self.declarations.push(instruction);
    }

    /// Records the id of the result of a call.
    pub fn record_call(&mut self, expr: u32, id: Word)
        ensures
            final(self)@ == old(self)@.with_call(expr, id),
            final(self).settings() == old(self).settings(),
    {
        self.lookup_function_call.insert(expr, id);
    }

    /// Asks for a capability.
    pub fn check(&mut self, capability: spirv::Capability) -> (result: Result<(), Error>)
        ensures
            old(self)@.check(old(self).settings().strict_capabilities, capability) == (
                final(self)@,
                result,
            ),
            final(self).settings() == old(self).settings(),
    {
        let mut found = false;
        let mut i: usize = 0;
        while i < self.capabilities.len()
            invariant
                i <= self.capabilities.len(),
                found == self.capabilities@.take(i as int).contains(capability),
                *self == *old(self),
            decreases self.capabilities.len() - i,
        {
            let ghost before = self.capabilities@.take(i as int);
            if same_capability(self.capabilities[i], capability) {
                found = true;
            }
            i += 1;
            proof {
                let after = self.capabilities@.take(i as int);
                assert(after =~= before.push(self.capabilities@[i - 1]));
                if before.contains(capability) {
                    let k = choose|k: int| 0 <= k < before.len() && before[k] == capability;
                    assert(after[k] == capability);
                }
                assert(after[i - 1] == self.capabilities@[i - 1]);
            }
        }
        assert(self.capabilities@.take(i as int) =~= self.capabilities@);
        if !self.strict_capabilities {
            self.capabilities.push(capability);
            proof {
                let before = old(self).capabilities@;
                assert forall|c: spirv::Capability|
                    before.push(capability).to_set().contains(c) == before.to_set().insert(
                        capability,
                    ).contains(c) by {
                    if before.contains(c) {
                        let k = choose|k: int| 0 <= k < before.len() && before[k] == c;
                        assert(before.push(capability)[k] == c);
                    }
                    assert(before.push(capability)[before.len() as int] == capability);
                }
                assert(before.push(capability).to_set() =~= before.to_set().insert(capability));
            }
            Ok(())
        } else if found {
            Ok(())
        } else {
            Err(Error::MissingCapability(capability))
        }
    }

    /// The id of a type, which is declared if it is not yet.
    pub fn get_type_id(&mut self, lookup_ty: LookupType) -> (result: Result<Word, Error>)
        requires
            old(self)@.type_id(old(self).settings().strict_capabilities, lookup_ty) is Some,
        ensures
            old(self)@.type_id(old(self).settings().strict_capabilities, lookup_ty) == Some(
                (final(self)@, result),
            ),
            final(self).settings() == old(self).settings(),
        decreases lookup_ty.depth(),
    {
        broadcast use lemma_table_push;

        match (self.find_type(lookup_ty), lookup_ty) {
            (Some(id), _) => Ok(id),
            (None, LookupType::Local(local)) => {
                let id: Word = self.gen_id();
                let base: Word = match local.reference() {
                    Some(referenced) => self.get_type_id(referenced)?,
                    None => {
                        if let Some(capability) = local.required_capability() {
                            self.check(capability)?;
                        }
                        0
                    },
                };
                self.lookup_type.push((lookup_ty, id));
                self.declare(local.declare(id, base));
                Ok(id)
            },
            (None, LookupType::Handle(_)) => vstd::pervasive::unreached(),
        }
    }

    /// The id of the 32-bit unsigned integer type.
    pub fn get_uint_type_id(&mut self) -> (result: Result<Word, Error>)
        requires
            old(self)@.type_id(old(self).settings().strict_capabilities, uint_type()) is Some,
        ensures
            old(self)@.type_id(old(self).settings().strict_capabilities, uint_type()) == Some(
                (final(self)@, result),
            ),
            final(self).settings() == old(self).settings(),
    {
        self.get_type_id(
            LookupType::Local(
                LocalType::Value {
                    vector_size: None,
                    kind: ScalarKind::Uint,
                    width: 4,
                    pointer_class: None,
                },
            ),
        )
    }

    /// The id of the boolean type.
    pub fn get_bool_type_id(&mut self) -> (result: Result<Word, Error>)
        requires
            old(self)@.type_id(old(self).settings().strict_capabilities, bool_type()) is Some,
        ensures
            old(self)@.type_id(old(self).settings().strict_capabilities, bool_type()) == Some(
                (final(self)@, result),
            ),
            final(self).settings() == old(self).settings(),
    {
        self.get_type_id(
            LookupType::Local(
                LocalType::Value {
                    vector_size: None,
                    kind: ScalarKind::Bool,
                    width: BOOL_WIDTH,
                    pointer_class: None,
                },
            ),
        )
    }

    /// The id of a scalar constant, which is declared if it is not yet.
    pub fn get_constant_scalar(
        &mut self,
        value: ScalarValue,
        width: Bytes,
    ) -> (result: Result<Word, Error>)
        requires
            old(self)@.constant_id(
                old(self).settings().strict_capabilities,
                value,
                width,
            ) is Some,
        ensures
            old(self)@.constant_id(old(self).settings().strict_capabilities, value, width) == Some(
                (final(self)@, result),
            ),
            final(self).settings() == old(self).settings(),
    {
        broadcast use lemma_table_push;

        if let Some(id) = self.find_constant(value, width) {
            return Ok(id);
        }
        let id: Word = self.gen_id();
        let type_id: Word = self.get_type_id(
            LookupType::Local(
                LocalType::Value {
                    vector_size: None,
                    kind: value.scalar_kind(),
                    width,
                    pointer_class: None,
                },
            ),
        )?;
        self.declare(make_constant(value, width, type_id, id));
        self.cached_constants.push(((value, width), id));
        Ok(id)
    }

    /// The id of a 32-bit unsigned constant.
    pub fn get_index_constant(&mut self, index: u32) -> (result: Result<Word, Error>)
        requires
            old(self)@.index_id(old(self).settings().strict_capabilities, index) is Some,
        ensures
            old(self)@.index_id(old(self).settings().strict_capabilities, index) == Some(
                (final(self)@, result),
            ),
            final(self).settings() == old(self).settings(),
    {
        self.get_constant_scalar(ScalarValue::Uint(index as u64), 4)
    }

    /// The id of a zero value, which is declared anew.
    pub fn write_constant_null(&mut self, type_id: Word) -> (id: Word)
        requires
            old(self)@.null(type_id) is Some,
        ensures
            old(self)@.null(type_id) == Some(final(self)@),
            id == final(self)@.last_id,
            final(self).settings() == old(self).settings(),
    {
        let id: Word = self.gen_id();
        self.declare(Instruction::constant_null(type_id, id));
        id
    }
}

/// The words of a constant that is `width` bytes wide, low word first.
fn split_words(bits: u64, width: Bytes) -> (words: Vec<Word>)
    requires
        constant_words(bits, width) is Some,
    ensures
        constant_words(bits, width) == Some(words@),
{
    let low: Word = (bits % 0x1_0000_0000) as Word;
    let words: Vec<Word> = if width == 4 {
        vec![low]
    } else {
        let high: Word = (bits / 0x1_0000_0000) as Word;
        vec![low, high]
    };
    assert(words@ =~= constant_words(bits, width).unwrap());
    words
}

/// The instruction that declares a scalar constant.
fn make_constant(value: ScalarValue, width: Bytes, type_id: Word, id: Word) -> (instruction:
    Instruction)
    requires
        constant_inst(value, width, type_id, id) is Some,
    ensures
        constant_inst(value, width, type_id, id) == Some(instruction@),
{
    match value {
        ScalarValue::Sint(v) => {
            assert(v < 0 ==> v as u64 == v + 0x1_0000_0000_0000_0000) by (bit_vector);
            Instruction::constant(type_id, id, &split_words(v as u64, width))
        },
        ScalarValue::Uint(v) => Instruction::constant(type_id, id, &split_words(v, width)),
        ScalarValue::Float(v) => Instruction::constant(type_id, id, &split_words(v, width)),
        ScalarValue::Bool(true) => Instruction::constant_true(type_id, id),
        ScalarValue::Bool(false) => Instruction::constant_false(type_id, id),
    }
}

} // verus!
