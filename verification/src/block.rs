//! Control flow: lists of statements as blocks.

use spirv::Word;
use vstd::prelude::*;
use crate::context::{ids_after, BlockContext, Code, Env, State};
use crate::entry_point::{results_run, Output};
use crate::function::{Blk, Block};
use crate::instruction::{Case, Inst, Instruction};
use crate::ir::{ExprHandle, Statement, SwitchCase};
use crate::run::{Error, Run};
use crate::statement::{barrier_run, call_run, emit_run, image_store_run, store_run};
use crate::types::LookupType;
use crate::words::selection_control_none;

verus! {

/// Where the statements of the innermost loop lead.
#[derive(Clone, Copy, Debug, PartialEq, Eq, Structural)]
pub struct LoopContext {
    pub continuing_id: Option<Word>,
    pub break_id: Option<Word>,
}

impl LoopContext {
    /// The context outside any loop.
    pub open spec fn none() -> LoopContext {
        LoopContext { continuing_id: None, break_id: None }
    }
}

impl Default for LoopContext {
    fn default() -> (context: LoopContext)
        ensures
            context == LoopContext::none(),
    {
        LoopContext { continuing_id: None, break_id: None }
    }
}

/// The two's complement bit pattern of the value of a case.
pub open spec fn case_value(value: i32) -> Word {
    if value >= 0 {
        value as Word
    } else {
        (value + 0x1_0000_0000) as Word
    }
}

/// The cases of a switch, with the labels of their blocks.
pub open spec fn labelled_cases(cases: Seq<SwitchCase>, labels: Seq<Word>) -> Seq<Case> {
    Seq::new(
        cases.len(),
        |i: int| Case { value: case_value(cases[i].value), label_id: labels[i] },
    )
}

/// The label of the block that control passes to after case `index`: that of
/// the next case, or of the default, if the case falls through.
pub open spec fn case_exit(
    cases: Seq<SwitchCase>,
    labelled: Seq<Case>,
    index: int,
    default_id: Word,
    merge_id: Word,
) -> Word {
    if !cases[index].fall_through {
        merge_id
    } else if index + 1 < cases.len() {
        labelled[index + 1].label_id
    } else {
        default_id
    }
}

/// The label of a list of statements that may be empty. Nothing is emitted for
/// an empty list, and control passes straight to `merge_id`.
pub open spec fn label_run(s: State, statements: Seq<Statement>, merge_id: Word) -> Option<
    (State, Word),
> {
    if statements.len() == 0 {
        Some((s, merge_id))
    } else {
        match s.fresh() {
            Some(s1) => Some((s1, s1.id())),
            None => None,
        }
    }
}

/// Ends the last block of a list of statements that control runs off the end
/// of. With nowhere to go on, the function returns: if it owes a value, zero.
#[verifier::opaque]
pub open spec fn end_run(env: Env, s: State, exit: Option<Word>) -> Run<Code, ()> {
    match (exit, env.fun.result, env.function.entry_point) {
        (Some(id), _, _) => Some((s.code.consume(s.block, Inst::branch(id)), Ok(()))),
        (None, Some(result), None) => match s.type_id(env, LookupType::Handle(result.ty)) {
            Some((s1, Ok(type_id))) => match s1.null(type_id) {
                Some(s2) => Some(
                    (s2.code.consume(s2.block, Inst::return_value(s2.id())), Ok(())),
                ),
                None => None,
            },
            Some((s1, Err(error))) => Some((s1.code, Err(error))),
            None => None,
        },
        _ => Some((s.code.consume(s.block, Inst::return_void()), Ok(()))),
    }
}

/// Emits the return of a value. An entry point stores it to its output
/// variables and returns nothing.
#[verifier::opaque]
pub open spec fn return_run(env: Env, s: State, value: ExprHandle) -> Run<Code, ()> {
    match (s.operand(value), env.function.entry_point, env.fun.result) {
        (Some(value_id), None, _) => Some(
            (s.code.consume(s.block, Inst::return_value(value_id)), Ok(())),
        ),
        (Some(value_id), Some(entry_point), Some(result)) => match results_run(
            env.writer,
            Output { writer: s.code.writer, body: s.block.body },
            value_id,
            result.binding is Some,
            entry_point.results,
            0,
        ) {
            Some((o, Ok(_))) => Some(
                (
                    (Code { writer: o.writer, ..s.code }).consume(
                        Blk { body: o.body, ..s.block },
                        Inst::return_void(),
                    ),
                    Ok(()),
                ),
            ),
            Some((o, Err(error))) => Some((Code { writer: o.writer, ..s.code }, Err(error))),
            None => None,
        },
        _ => None,
    }
}

/// Emits the jump of a break or continue statement, which must be in a place
/// where it leads somewhere.
pub open spec fn jump_run(s: State, target: Option<Word>) -> Run<Code, ()> {
    match target {
        Some(id) => Some((s.code.consume(s.block, Inst::branch(id)), Ok(()))),
        None => None,
    }
}

/// Emits a statement that keeps control in a straight line.
pub open spec fn plain_run(env: Env, s: State, statement: Statement) -> Run<State, ()> {
    match statement {
        Statement::Emit { start, end } => emit_run(env, s, start, end),
        Statement::Barrier(flags) => barrier_run(env, s, flags),
        Statement::Store { pointer, value } => store_run(env, s, pointer, value),
        Statement::ImageStore { image, coordinate, array_index, value } => image_store_run(
            env,
            s,
            image,
            coordinate,
            array_index,
            value,
        ),
        Statement::Call { function, arguments, result } => call_run(
            env,
            s,
            function,
            arguments@,
            result,
        ),
        _ => None,
    }
}

/// Emits the statements from `statements[index]` on, and ends the last block.
/// Statements after one that control never passes are left out.
pub open spec fn statements_run(
    env: Env,
    s: State,
    statements: Seq<Statement>,
    index: nat,
    exit: Option<Word>,
    loop_context: LoopContext,
) -> Run<Code, ()>
    decreases statements, statements.len() - index,
{
    if index >= statements.len() {
        end_run(env, s, exit)
    } else {
        match statements[index as int] {
            Statement::Block(_)
            | Statement::If { .. }
            | Statement::Switch { .. }
            | Statement::Loop { .. } => match compound_run(
                env,
                s,
                statements[index as int],
                loop_context,
            ) {
                Some((code, Ok(merge_id))) => statements_run(
                    env,
                    code.begin(merge_id),
                    statements,
                    index + 1,
                    exit,
                    loop_context,
                ),
                Some((code, Err(error))) => Some((code, Err(error))),
                None => None,
            },
            Statement::Break => jump_run(s, loop_context.break_id),
            Statement::Continue => jump_run(s, loop_context.continuing_id),
            Statement::Return { value: Some(value) } => return_run(env, s, value),
            Statement::Return { value: None } => Some(
                (s.code.consume(s.block, Inst::return_void()), Ok(())),
            ),
            Statement::Kill => Some((s.code.consume(s.block, Inst::kill()), Ok(()))),
            plain => match plain_run(env, s, plain) {
                Some((s1, Ok(_))) => statements_run(
                    env,
                    s1,
                    statements,
                    index + 1,
                    exit,
                    loop_context,
                ),
                Some((s1, Err(error))) => Some((s1.code, Err(error))),
                None => None,
            },
        }
    }
}

/// Emits a statement that other statements are part of. The result is the
/// label of the block that control comes together in again.
pub open spec fn compound_run(
    env: Env,
    s: State,
    statement: Statement,
    loop_context: LoopContext,
) -> Run<Code, Word>
    decreases statement, 0int,
{
    match statement {
        Statement::Block(body) => match s.fresh() {
            Some(s1) => match s1.code.consume(s1.block, Inst::branch(s1.id())).fresh() {
                Some(code) => finish(
                    statements_run(
                        env,
                        code.begin(s1.id()),
                        body@,
                        0,
                        Some(code.id()),
                        loop_context,
                    ),
                    code.id(),
                ),
                None => None,
            },
            None => None,
        },
        Statement::If { condition, accept, reject } => match (s.operand(condition), s.fresh()) {
            (Some(condition_id), Some(s1)) => {
                let merge_id = s1.id();
                match label_run(s1.push(Inst::selection_merge(merge_id, 0)), accept@, merge_id) {
                    Some((s2, accept_id)) => match label_run(s2, reject@, merge_id) {
                        Some((s3, reject_id)) => {
                            let code = s3.code.consume(
                                s3.block,
                                Inst::branch_conditional(condition_id, accept_id, reject_id),
                            );
                            let accepted = if accept@.len() == 0 {
                                Some((code, Ok(())))
                            } else {
                                statements_run(
                                    env,
                                    code.begin(accept_id),
                                    accept@,
                                    0,
                                    Some(merge_id),
                                    loop_context,
                                )
                            };
                            match accepted {
                                Some((code1, Ok(_))) => finish(
                                    if reject@.len() == 0 {
                                        Some((code1, Ok(())))
                                    } else {
                                        statements_run(
                                            env,
                                            code1.begin(reject_id),
                                            reject@,
                                            0,
                                            Some(merge_id),
                                            loop_context,
                                        )
                                    },
                                    merge_id,
                                ),
                                failed => finish(failed, merge_id),
                            }
                        },
                        None => None,
                    },
                    None => None,
                }
            },
            _ => None,
        },
        Statement::Switch { selector, cases, default } => match (s.operand(selector), s.fresh()) {
            (Some(selector_id), Some(s1)) => {
                let merge_id = s1.id();
                match s1.push(Inst::selection_merge(merge_id, 0)).fresh() {
                    Some(s2) => {
                        let default_id = s2.id();
                        let labelled = labelled_cases(
                            cases@,
                            ids_after(default_id, cases@.len()),
                        );
                        match s2.code.fresh_many(cases@.len()) {
                            Some(code) => match cases_run(
                                env,
                                code.consume(
                                    s2.block,
                                    Inst::switch(selector_id, default_id, labelled),
                                ),
                                cases@,
                                labelled,
                                0,
                                default_id,
                                merge_id,
                            ) {
                                Some((code1, Ok(_))) => finish(
                                    statements_run(
                                        env,
                                        code1.begin(default_id),
                                        default@,
                                        0,
                                        Some(merge_id),
                                        LoopContext::none(),
                                    ),
                                    merge_id,
                                ),
                                failed => finish(failed, merge_id),
                            },
                            None => None,
                        }
                    },
                    None => None,
                }
            },
            _ => None,
        },
        Statement::Loop { body, continuing } => match s.fresh() {
            Some(s1) => match s1.code.consume(s1.block, Inst::branch(s1.id())).fresh_many(3) {
                Some(code) => {
                    let preamble_id = s1.id();
                    let merge_id = (preamble_id + 1) as Word;
                    let body_id = (preamble_id + 2) as Word;
                    let continuing_id = (preamble_id + 3) as Word;
                    let preamble = Blk::start(preamble_id).push(
                        Inst::loop_merge(merge_id, continuing_id, 0),
                    );
                    match statements_run(
                        env,
                        code.consume(preamble, Inst::branch(body_id)).begin(body_id),
                        body@,
                        0,
                        Some(continuing_id),
                        LoopContext {
                            continuing_id: Some(continuing_id),
                            break_id: Some(merge_id),
                        },
                    ) {
                        Some((code1, Ok(_))) => finish(
                            statements_run(
                                env,
                                code1.begin(continuing_id),
                                continuing@,
                                0,
                                Some(preamble_id),
                                LoopContext { continuing_id: None, break_id: Some(merge_id) },
                            ),
                            merge_id,
                        ),
                        failed => finish(failed, merge_id),
                    }
                },
                None => None,
            },
            None => None,
        },
        _ => None,
    }
}

/// Emits the blocks of the cases of a switch, from `cases[index]` on.
pub open spec fn cases_run(
    env: Env,
    code: Code,
    cases: Seq<SwitchCase>,
    labelled: Seq<Case>,
    index: nat,
    default_id: Word,
    merge_id: Word,
) -> Run<Code, ()>
    decreases cases, cases.len() - index,
{
    if index >= cases.len() {
        Some((code, Ok(())))
    } else {
        match statements_run(
            env,
            code.begin(labelled[index as int].label_id),
            cases[index as int].body@,
            0,
            Some(case_exit(cases, labelled, index as int, default_id, merge_id)),
            LoopContext::none(),
        ) {
            Some((code1, Ok(_))) => cases_run(
                env,
                code1,
                cases,
                labelled,
                index + 1,
                default_id,
                merge_id,
            ),
            failed => failed,
        }
    }
}

/// The result of a compound statement, once its last part is emitted.
pub open spec fn finish(last: Run<Code, ()>, merge_id: Word) -> Run<Code, Word> {
    match last {
        Some((code, Ok(_))) => Some((code, Ok(merge_id))),
        Some((code, Err(error))) => Some((code, Err(error))),
        None => None,
    }
}

/// Emits a list of statements as blocks, the first of which has the label
/// `label_id`. Control that runs off the end goes on to `exit`.
pub open spec fn block_run(
    env: Env,
    code: Code,
    label_id: Word,
    statements: Seq<Statement>,
    exit: Option<Word>,
    loop_context: LoopContext,
) -> Run<Code, ()> {
    statements_run(env, code.begin(label_id), statements, 0, exit, loop_context)
}

/// The bit pattern of the value of a case.
fn case_word(value: i32) -> (word: Word)
    ensures
        word == case_value(value),
{
    assert(value >= 0 ==> value as u32 == value) by (bit_vector);
    assert(value < 0 ==> value as u32 == value + 0x1_0000_0000) by (bit_vector);
    #[verifier::truncate]
    (value as Word)
}

impl<'w> BlockContext<'w> {
    /// Labels the cases of a switch with fresh ids.
    fn label_cases(&mut self, cases: &Vec<SwitchCase>) -> (labelled: Vec<Case>)
        requires
            old(self).code().fresh_many(cases@.len()) is Some,
        ensures
            old(self).code().fresh_many(cases@.len()) == Some(final(self).code()),
            labelled@ == labelled_cases(cases@, ids_after(old(self).code().id(), cases@.len())),
            final(self).env() == old(self).env(),
    {
        let ghost labels = ids_after(self.code().id(), cases@.len());
        let mut labelled: Vec<Case> = Vec::new();
        let mut i: usize = 0;
        while i < cases.len()
            invariant
                i <= cases.len(),
                old(self).code().fresh_many(cases@.len()) is Some,
                old(self).code().fresh_many(i as nat) == Some(self.code()),
                labels == ids_after(old(self).code().id(), cases@.len()),
                labelled@.len() == i,
                forall|k: int|
                    0 <= k < i ==> #[trigger] labelled@[k] == labelled_cases(cases@, labels)[k],
                self.env() == old(self).env(),
            decreases cases.len() - i,
        {
            let label_id: Word = self.gen_id();
            labelled.push(Case { value: case_word(cases[i].value), label_id });
            i += 1;
        }
        assert(labelled@ =~= labelled_cases(cases@, labels));
        labelled
    }

    /// Ends the last block of a list of statements.
    fn write_end(&mut self, block: Block, exit_id: Option<Word>) -> (result: Result<(), Error>)
        requires
            end_run(old(self).env(), old(self).state(block), exit_id) is Some,
        ensures
            end_run(old(self).env(), old(self).state(block), exit_id) == Some(
                (final(self).code(), result),
            ),
            final(self).env() == old(self).env(),
    {
        proof {
            reveal(end_run);
        }
        let termination = match exit_id {
            Some(id) => Instruction::branch(id),
            // This can happen if the last branch had all the paths leading out
            // of the graph (i.e. returning). Or it may be the end of the
            // function.
            None => match (&self.ir_function.result, &self.function.entry_point_context) {
                (Some(result), None) => {
                    let type_id: Word = self.get_type_id(LookupType::Handle(result.ty))?;
                    let null_id: Word = self.writer.write_constant_null(type_id);
                    Instruction::return_value(null_id)
                },
                _ => Instruction::return_void(),
            },
        };
        self.consume(block, termination);
        Ok(())
    }

    /// Emits the return of a value.
    fn write_return(&mut self, value: ExprHandle, block: Block) -> (result: Result<(), Error>)
        requires
            return_run(old(self).env(), old(self).state(block), value) is Some,
        ensures
            return_run(old(self).env(), old(self).state(block), value) == Some(
                (final(self).code(), result),
            ),
            final(self).env() == old(self).env(),
    {
        proof {
            reveal(return_run);
        }
        let mut block = block;
        let value_id: Word = self.operand(value);
        let instruction = match &self.function.entry_point_context {
            // If this is an entry point, and something is to be returned,
            // store the output variables instead and return `void`.
            Some(context) => {
                self.writer.write_entry_point_return(
                    value_id,
                    self.ir_function.result.as_ref().unwrap(),
                    context.results.as_slice(),
                    &mut block.body,
                )?;
                Instruction::return_void()
            },
            None => Instruction::return_value(value_id),
        };
        self.consume(block, instruction);
        Ok(())
    }

    /// Emits a statement that keeps control in a straight line.
    fn write_plain(
        &mut self,
        statement: &Statement,
        block: &mut Block,
    ) -> (result: Result<(), Error>)
        requires
            plain_run(old(self).env(), old(self).state(*old(block)), *statement) is Some,
        ensures
            plain_run(old(self).env(), old(self).state(*old(block)), *statement) == Some(
                (final(self).state(*final(block)), result),
            ),
            final(self).env() == old(self).env(),
    {
        match statement {
            Statement::Emit { start, end } => self.write_emit(*start, *end, block),
            Statement::Barrier(flags) => self.write_barrier(*flags, block),
            Statement::Store { pointer, value } => self.write_store(*pointer, *value, block),
            Statement::ImageStore { image, coordinate, array_index, value } => {
                self.write_image_store(*image, *coordinate, *array_index, *value, block)
            },
            Statement::Call { function, arguments, result } => {
                self.write_call(*function, arguments, *result, block)
            },
            _ => vstd::pervasive::unreached(),
        }
    }

    /// The label of a list of statements that may be empty.
    fn label_for(
        &mut self,
        statements: &Vec<Statement>,
        merge_id: Word,
        block: &Block,
    ) -> (id: Word)
        requires
            label_run(old(self).state(*block), statements@, merge_id) is Some,
        ensures
            label_run(old(self).state(*block), statements@, merge_id) == Some(
                (final(self).state(*block), id),
            ),
            final(self).env() == old(self).env(),
    {
        if statements.len() == 0 {
            merge_id
        } else {
            self.gen_id()
        }
    }

    /// Emits the blocks of the cases of a switch.
    fn write_cases(
        &mut self,
        cases: &Vec<SwitchCase>,
        labelled: &Vec<Case>,
        default_id: Word,
        merge_id: Word,
    ) -> (result: Result<(), Error>)
        requires
            labelled@.len() == cases@.len(),
            cases_run(
                old(self).env(),
                old(self).code(),
                cases@,
                labelled@,
                0,
                default_id,
                merge_id,
            ) is Some,
        ensures
            cases_run(
                old(self).env(),
                old(self).code(),
                cases@,
                labelled@,
                0,
                default_id,
                merge_id,
            ) == Some((final(self).code(), result)),
            final(self).env() == old(self).env(),
        decreases cases@,
    {
        let ghost env = self.env();
        let ghost whole = cases_run(env, self.code(), cases@, labelled@, 0, default_id, merge_id);
        let mut i: usize = 0;
        while i < cases.len()
            invariant
                i <= cases.len(),
                labelled@.len() == cases@.len(),
                whole is Some,
                env == old(self).env(),
                self.env() == env,
                whole == cases_run(
                    env,
                    old(self).code(),
                    cases@,
                    labelled@,
                    0,
                    default_id,
                    merge_id,
                ),
                whole == cases_run(
                    env,
                    self.code(),
                    cases@,
                    labelled@,
                    i as nat,
                    default_id,
                    merge_id,
                ),
            decreases cases.len() - i,
        {
            let case_finish_id: Word = if cases[i].fall_through {
                if i + 1 < labelled.len() {
                    labelled[i + 1].label_id
                } else {
                    default_id
                }
            } else {
                merge_id
            };
            self.write_block(
                labelled[i].label_id,
                cases[i].body.as_slice(),
                Some(case_finish_id),
                LoopContext::default(),
            )?;
            i += 1;
        }
        Ok(())
    }

    /// Emits a statement that other statements are part of. The result is the
    /// label of the block that control comes together in again.
    fn write_compound(
        &mut self,
        statement: &Statement,
        block: Block,
        loop_context: LoopContext,
    ) -> (result: Result<Word, Error>)
        requires
            compound_run(old(self).env(), old(self).state(block), *statement, loop_context) is Some,
        ensures
            compound_run(old(self).env(), old(self).state(block), *statement, loop_context) == Some(
                (final(self).code(), result),
            ),
            final(self).env() == old(self).env(),
        decreases *statement,
    {
        let mut block = block;
        match statement {
            Statement::Block(body) => {
                let scope_id: Word = self.gen_id();
                self.consume(block, Instruction::branch(scope_id));

                let merge_id: Word = self.gen_id();
                self.write_block(scope_id, body.as_slice(), Some(merge_id), loop_context)?;
                Ok(merge_id)
            },
            Statement::If { condition, accept, reject } => {
                let condition_id: Word = self.operand(*condition);

                let merge_id: Word = self.gen_id();
                block.push(Instruction::selection_merge(merge_id, selection_control_none()));

                let accept_id: Word = self.label_for(accept, merge_id, &block);
                let reject_id: Word = self.label_for(reject, merge_id, &block);
                self.consume(
                    block,
                    Instruction::branch_conditional(condition_id, accept_id, reject_id),
                );

                if accept.len() > 0 {
                    self.write_block(accept_id, accept.as_slice(), Some(merge_id), loop_context)?;
                }
                if reject.len() > 0 {
                    self.write_block(reject_id, reject.as_slice(), Some(merge_id), loop_context)?;
                }
                Ok(merge_id)
            },
            Statement::Switch { selector, cases, default } => {
                let selector_id: Word = self.operand(*selector);

                let merge_id: Word = self.gen_id();
                block.push(Instruction::selection_merge(merge_id, selection_control_none()));

                let default_id: Word = self.gen_id();
                let labelled = self.label_cases(cases);
                self.consume(block, Instruction::switch(selector_id, default_id, &labelled));

                self.write_cases(cases, &labelled, default_id, merge_id)?;
                self.write_block(
                    default_id,
                    default.as_slice(),
                    Some(merge_id),
                    LoopContext::default(),
                )?;
                Ok(merge_id)
            },
            Statement::Loop { body, continuing } => {
                let preamble_id: Word = self.gen_id();
                self.consume(block, Instruction::branch(preamble_id));

                let merge_id: Word = self.gen_id();
                let body_id: Word = self.gen_id();
                let continuing_id: Word = self.gen_id();

                // The continuing target belongs to the `OpLoopMerge`, so a new
                // block has to be started with it.
                let mut preamble = Block::new(preamble_id);
                preamble.push(
                    Instruction::loop_merge(merge_id, continuing_id, selection_control_none()),
                );
                self.consume(preamble, Instruction::branch(body_id));

                self.write_block(
                    body_id,
                    body.as_slice(),
                    Some(continuing_id),
                    LoopContext { continuing_id: Some(continuing_id), break_id: Some(merge_id) },
                )?;
                self.write_block(
                    continuing_id,
                    continuing.as_slice(),
                    Some(preamble_id),
                    LoopContext { continuing_id: None, break_id: Some(merge_id) },
                )?;
                Ok(merge_id)
            },
            _ => vstd::pervasive::unreached(),
        }
    }

    /// Generates blocks for a list of statements. The first of them has the
    /// label `label_id`, and control that runs off the end goes on to
    /// `exit_id`.
    pub fn write_block(
        &mut self,
        label_id: Word,
        statements: &[Statement],
        exit_id: Option<Word>,
        loop_context: LoopContext,
    ) -> (result: Result<(), Error>)
        requires
            block_run(
                old(self).env(),
                old(self).code(),
                label_id,
                statements@,
                exit_id,
                loop_context,
            ) is Some,
        ensures
            block_run(
                old(self).env(),
                old(self).code(),
                label_id,
                statements@,
                exit_id,
                loop_context,
            ) == Some((final(self).code(), result)),
            final(self).env() == old(self).env(),
        decreases statements@,
    {
        let ghost env = self.env();
        let ghost whole = block_run(
            env,
            self.code(),
            label_id,
            statements@,
            exit_id,
            loop_context,
        );
        let mut block = Block::new(label_id);
        let mut i: usize = 0;
        while i < statements.len()
            invariant
                i <= statements.len(),
                whole is Some,
                env == old(self).env(),
                self.env() == env,
                whole == block_run(
                    env,
                    old(self).code(),
                    label_id,
                    statements@,
                    exit_id,
                    loop_context,
                ),
                whole == statements_run(
                    env,
                    self.state(block),
                    statements@,
                    i as nat,
                    exit_id,
                    loop_context,
                ),
            decreases statements.len() - i,
        {
            match &statements[i] {
                Statement::Block(_)
                | Statement::If { .. }
                | Statement::Switch { .. }
                | Statement::Loop { .. } => {
                    let merge_id: Word = self.write_compound(&statements[i], block, loop_context)?;
                    block = Block::new(merge_id);
                },
                Statement::Break => {
                    self.consume(block, Instruction::branch(loop_context.break_id.unwrap()));
                    return Ok(());
                },
                Statement::Continue => {
                    self.consume(block, Instruction::branch(loop_context.continuing_id.unwrap()));
                    return Ok(());
                },
                Statement::Return { value: Some(value) } => {
                    return self.write_return(*value, block);
                },
                Statement::Return { value: None } => {
                    self.consume(block, Instruction::return_void());
                    return Ok(());
                },
                Statement::Kill => {
                    self.consume(block, Instruction::kill());
                    return Ok(());
                },
                plain => {
                    self.write_plain(plain, &mut block)?;
                },
            }
            i += 1;
        }
        self.write_end(block, exit_id)
    }
}

} // verus!
