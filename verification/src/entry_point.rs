//! The return from an entry point.

use spirv::Word;
use vstd::prelude::*;
use crate::flow_laws::{law_entry_point_outputs, stores_outputs};
use crate::function::ResultMember;
use crate::growth::begins_with;
use crate::instruction::{insts, lemma_insts_push, Inst, Instruction};
use crate::ir::{BuiltIn, FunctionResult, ScalarKind};
use crate::run::{Error, Run};
use crate::types::{float_type, LocalType, LookupType};
use crate::writer::{Writer, WriterSettings, WriterState};

verus! {

broadcast use lemma_insts_push;

/// What emitting instructions for a module changes: the module, and the list
/// that the instructions are added to.
#[verifier::ext_equal]
pub struct Output {
    pub writer: WriterState,
    pub body: Seq<Inst>,
}

impl Output {
    /// The output once the next id is taken; the id is then [`Output::id`].
    pub open spec fn fresh(self) -> Option<Output> {
        match self.writer.fresh() {
            Some(writer) => Some(Output { writer, ..self }),
            None => None,
        }
    }

    /// The id that was taken last.
    pub open spec fn id(self) -> Word {
        self.writer.last_id
    }

    /// The output with one more instruction.
    pub open spec fn push(self, inst: Inst) -> Output {
        Output { body: self.body.push(inst), ..self }
    }

    /// Asks for the id of a type.
    pub open spec fn type_id(self, strict: bool, ty: LookupType) -> Run<Output, Word> {
        match self.writer.type_id(strict, ty) {
            Some((writer, result)) => Some((Output { writer, ..self }, result)),
            None => None,
        }
    }

    /// Asks for the id of a 32-bit unsigned constant.
    pub open spec fn index_id(self, strict: bool, index: u32) -> Run<Output, Word> {
        match self.writer.index_id(strict, index) {
            Some((writer, result)) => Some((Output { writer, ..self }, result)),
            None => None,
        }
    }
}

/// A pointer to a floating-point output.
pub open spec fn float_output_type() -> LookupType {
    LookupType::Local(
        LocalType::Value {
            vector_size: None,
            kind: ScalarKind::Float,
            width: 4,
            pointer_class: Some(spirv::StorageClass::Output),
        },
    )
}

/// Emits the negation of the Y coordinate of an output variable, in place.
#[verifier::opaque]
pub open spec fn flip_run(strict: bool, o: Output, variable: Word) -> Run<Output, ()> {
    match o.fresh() {
        Some(o1) => match o1.type_id(strict, float_output_type()) {
            Some((o2, Ok(pointer_type_id))) => match o2.index_id(strict, 1) {
                Some((o3, Ok(y_id))) => match o3.push(
                    Inst::access_chain(pointer_type_id, o1.id(), variable, seq![y_id]),
                ).fresh() {
                    Some(o4) => match o4.type_id(strict, float_type(None)) {
                        Some((o5, Ok(type_id))) => match o5.push(
                            Inst::load(type_id, o4.id(), o1.id()),
                        ).fresh() {
                            Some(o6) => Some(
                                (
                                    o6.push(
                                        Inst::unary(
                                            spirv::Op::FNegate,
                                            type_id,
                                            o6.id(),
                                            o4.id(),
                                        ),
                                    ).push(Inst::store(o1.id(), o6.id())),
                                    Ok(()),
                                ),
                            ),
                            None => None,
                        },
                        Some((o5, Err(error))) => Some((o5, Err(error))),
                        None => None,
                    },
                    None => None,
                },
                Some((o3, Err(error))) => Some((o3, Err(error))),
                None => None,
            },
            Some((o2, Err(error))) => Some((o2, Err(error))),
            None => None,
        },
        None => None,
    }
}

/// Emits the store of a value to an output variable. The coordinate space is
/// adjusted, if the module asks for it, where the variable is the position.
#[verifier::opaque]
pub open spec fn member_store_run(
    settings: WriterSettings,
    o: Output,
    member: ResultMember,
    value_id: Word,
) -> Run<Output, ()> {
    let stored = o.push(Inst::store(member.id, value_id));
    if settings.flags.adjust_coordinate_space && member.built_in == Some(BuiltIn::Position) {
        flip_run(settings.strict_capabilities, stored, member.id)
    } else {
        Some((stored, Ok(())))
    }
}

/// Emits the stores of a result to the output variables from `members[index]`
/// on. A result that is bound is the value of each variable as a whole; of one
/// that is not, each variable takes the member at its own position.
pub open spec fn results_run(
    settings: WriterSettings,
    o: Output,
    value_id: Word,
    bound: bool,
    members: Seq<ResultMember>,
    index: nat,
) -> Run<Output, ()>
    decreases members.len() - index,
{
    if index >= members.len() {
        Some((o, Ok(())))
    } else {
        let member = members[index as int];
        let stored = if bound {
            member_store_run(settings, o, member, value_id)
        } else {
            match o.fresh() {
                Some(o1) => member_store_run(
                    settings,
                    o1.push(
                        Inst::composite_extract(member.type_id, o1.id(), value_id, index as Word),
                    ),
                    member,
                    o1.id(),
                ),
                None => None,
            }
        };
        match stored {
            Some((o2, Ok(_))) => results_run(
                settings,
                o2,
                value_id,
                bound,
                members,
                (index + 1) as nat,
            ),
            failed => failed,
        }
    }
}

impl Writer {
    /// What emitting instructions changes.
    pub open spec fn output(&self, body: Seq<Instruction>) -> Output {
        Output { writer: self@, body: insts(body) }
    }

    /// Negates the Y coordinate of an output variable.
    fn write_flip(
        &mut self,
        variable_id: Word,
        body: &mut Vec<Instruction>,
    ) -> (result: Result<(), Error>)
        requires
            flip_run(
                old(self).settings().strict_capabilities,
                old(self).output(old(body)@),
                variable_id,
            ) is Some,
        ensures
            flip_run(
                old(self).settings().strict_capabilities,
                old(self).output(old(body)@),
                variable_id,
            ) == Some((final(self).output(final(body)@), result)),
            final(self).settings() == old(self).settings(),
    {
        proof {
            reveal(flip_run);
        }
        let access_id: Word = self.gen_id();
        let float_ptr_type_id: Word = self.get_type_id(
            LookupType::Local(
                LocalType::Value {
                    vector_size: None,
                    kind: ScalarKind::Float,
                    width: 4,
                    pointer_class: Some(spirv::StorageClass::Output),
                },
            ),
        )?;
        let index_y_id: Word = self.get_index_constant(1)?;
        let indices: Vec<Word> = vec![index_y_id];
        assert(indices@ =~= seq![index_y_id]);
        body.push(
            Instruction::access_chain(float_ptr_type_id, access_id, variable_id, &indices),
        );

        let load_id: Word = self.gen_id();
        let float_type_id: Word = self.get_type_id(
            LookupType::Local(
                LocalType::Value {
                    vector_size: None,
                    kind: ScalarKind::Float,
                    width: 4,
                    pointer_class: None,
                },
            ),
        )?;
        body.push(Instruction::load(float_type_id, load_id, access_id));

        let neg_id: Word = self.gen_id();
        body.push(Instruction::unary(spirv::Op::FNegate, float_type_id, neg_id, load_id));
        body.push(Instruction::store(access_id, neg_id));
        Ok(())
    }

    /// Stores the result of an entry point to its output variables.
    pub fn write_entry_point_return(
        &mut self,
        value_id: Word,
        ir_result: &FunctionResult,
        result_members: &[ResultMember],
        body: &mut Vec<Instruction>,
    ) -> (result: Result<(), Error>)
        requires
            results_run(
                old(self).settings(),
                old(self).output(old(body)@),
                value_id,
                ir_result.binding is Some,
                result_members@,
                0,
            ) is Some,
        ensures
            results_run(
                old(self).settings(),
                old(self).output(old(body)@),
                value_id,
                ir_result.binding is Some,
                result_members@,
                0,
            ) == Some((final(self).output(final(body)@), result)),
            final(self).settings() == old(self).settings(),
            result is Ok,
            begins_with(insts(final(body)@), insts(old(body)@)),
            stores_outputs(
                old(self).settings(),
                final(self)@,
                insts(final(body)@),
                old(body)@.len() as int,
                value_id,
                ir_result.binding is Some,
                result_members@,
            ),
    {
        let ghost settings = self.settings();
        let ghost bound = ir_result.binding is Some;
        let ghost whole = results_run(
            settings,
            self.output(body@),
            value_id,
            bound,
            result_members@,
            0,
        );
        proof {
            law_entry_point_outputs(
                settings,
                self.output(body@),
                value_id,
                bound,
                result_members@,
            );
        }
        let mut index: usize = 0;
        while index < result_members.len()
            invariant
                index <= result_members.len(),
                whole matches Some((all, Ok(_))) && begins_with(all.body, insts(old(body)@))
                    && stores_outputs(
                    settings,
                    all.writer,
                    all.body,
                    old(body)@.len() as int,
                    value_id,
                    bound,
                    result_members@,
                ),
                settings == old(self).settings(),
                self.settings() == settings,
                bound == (ir_result.binding is Some),
                whole == results_run(
                    settings,
                    old(self).output(old(body)@),
                    value_id,
                    bound,
                    result_members@,
                    0,
                ),
                whole == results_run(
                    settings,
                    self.output(body@),
                    value_id,
                    bound,
                    result_members@,
                    index as nat,
                ),
            decreases result_members.len() - index,
        {
            proof {
                reveal(member_store_run);
            }
            let res_member = result_members[index];
            let member_value_id: Word = match ir_result.binding {
                Some(_) => value_id,
                None => {
                    let member_value_id: Word = self.gen_id();
                    body.push(
                        Instruction::composite_extract(
                            res_member.type_id,
                            member_value_id,
                            value_id,
                            index as u32,
                        ),
                    );
                    member_value_id
                },
            };
            body.push(Instruction::store(res_member.id, member_value_id));
            // Flip the Y coordinate to adjust for the difference between the
            // coordinate spaces.
            if self.flags.adjust_coordinate_space && is_position(res_member.built_in) {
                self.write_flip(res_member.id, body)?;
            }
            index += 1;
        }
        Ok(())
    }
}

/// Whether an output is the position.
fn is_position(built_in: Option<BuiltIn>) -> (result: bool)
    ensures
        result == (built_in == Some(BuiltIn::Position)),
{
    match built_in {
        Some(built_in) => built_in == BuiltIn::Position,
        None => false,
    }
}

} // verus!
