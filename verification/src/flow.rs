//! What generating control flow keeps.

use spirv::Word;
use vstd::prelude::*;
use crate::block::{
    case_exit, cases_run, compound_run, end_run, label_run, labelled_cases, plain_run, return_run,
    statements_run, LoopContext,
};
use crate::context::{ids_after, Code, Env, State};
use crate::entry_point::{flip_run, float_output_type, member_store_run, results_run, Output};
use crate::function::{Blk, ResultMember};
use crate::growth::{
    accounted, begins_with, code_defs, defines_fresh, grown, grown_code, group_steps, labelled,
    lemma_begin, lemma_fork, lemma_terminate, mentions, same, sound, span, state_defs,
    writer_kept,
};
use crate::instruction::{case_words, Case, Inst};
use crate::ir::{ExprHandle, Statement, SwitchCase};
use crate::run::{Error, Run};
use crate::steps::{lemma_barrier, lemma_call, lemma_emit, lemma_image_store, lemma_store};
use crate::types::{float_type, LookupType};

verus! {

broadcast use group_steps;

/// Whether a step from `s` that ends its block defines fresh ids only.
pub open spec fn ends_fresh(s: State, code: Code) -> bool {
    &&& s.id() <= code.id()
    &&& forall|id: Word| #[trigger]
        code_defs(code, id) <= state_defs(s, id) + span(id, s.id(), code.id())
}

/// Whether a step that failed has taken nothing back.
pub open spec fn failed_sound(env: Env, base: State, s: State, code: Code, error: Error) -> bool {
    &&& writer_kept(env.strict(), base.code.writer, code.writer)
    &&& code.cached.len() == base.code.cached.len()
    &&& begins_with(code.blocks, base.code.blocks)
    &&& ends_fresh(s, code)
    &&& accounted::<()>(env.strict(), code.writer, Err(error))
}

/// Whether a step that ends its block keeps what has grown from `base`, and
/// defines fresh ids only.
pub open spec fn sound_code(
    env: Env,
    known: Set<Word>,
    base: State,
    s: State,
    run: Run<Code, ()>,
) -> bool {
    match run {
        Some((code, Ok(_))) => grown_code(env, known, base, code) && ends_fresh(s, code),
        Some((code, Err(error))) => failed_sound(env, base, s, code, error),
        None => true,
    }
}

/// Whether the label of a block that control may go on to is among those that
/// are known.
pub open spec fn leads(known: Set<Word>, target: Option<Word>) -> bool {
    target matches Some(label) ==> known.contains(label)
}

/// A step inside a block that fails has taken nothing back.
proof fn lemma_failed(env: Env, known: Set<Word>, base: State, s: State, t: State, error: Error)
    requires
        grown(env, known, base, t),
        defines_fresh(s, t),
        accounted::<()>(env.strict(), t.code.writer, Err(error)),
    ensures
        failed_sound(env, base, s, t.code, error),
{
    reveal(grown);
    assert forall|id: Word| #[trigger]
        code_defs(t.code, id) <= state_defs(s, id) + span(id, s.id(), t.id()) by {
        assert(state_defs(t, id) <= state_defs(s, id) + span(id, s.id(), t.id()));
    }
}

/// Ending the current block by a jump or a return.
proof fn lemma_leave(env: Env, known: Set<Word>, base: State, s: State, termination: Inst)
    requires
        grown(env, known, base, s),
        ({
            ||| termination == Inst::return_void()
            ||| termination == Inst::kill()
            ||| env.function.entry_point is None && exists|value: Word|
                termination == #[trigger] Inst::return_value(value)
            ||| exists|label: Word|
                known.contains(label) && termination == #[trigger] Inst::branch(label)
        }),
    ensures
        sound_code(
            env,
            known,
            base,
            s,
            Some((s.code.consume(s.block, termination), Ok(()))),
        ),
{
    lemma_terminate(env, known, base, s, termination, known);
}

/// What ending a list of statements keeps.
proof fn lemma_run_off(env: Env, known: Set<Word>, base: State, s: State, exit: Option<Word>)
    requires
        grown(env, known, base, s),
        leads(known, exit),
    ensures
        sound_code(env, known, base, s, end_run(env, s, exit)),
{
    reveal(end_run);
    match (exit, env.fun.result, env.function.entry_point) {
        (Some(id), _, _) => {
            lemma_leave(env, known, base, s, Inst::branch(id));
        },
        (None, Some(result), None) => {
            if let Some((s1, result)) = s.type_id(env, LookupType::Handle(result.ty)) {
                match result {
                    Ok(type_id) => {
                        if let Some(s2) = s1.null(type_id) {
                            lemma_leave(env, known, base, s2, Inst::return_value(s2.id()));
                        }
                    },
                    Err(error) => {
                        lemma_failed(env, known, base, s, s1, error);
                    },
                }
            }
        },
        _ => {
            lemma_leave(env, known, base, s, Inst::return_void());
        },
    }
}

/// What emitting a plain statement keeps.
proof fn lemma_plain(env: Env, known: Set<Word>, base: State, s: State, statement: Statement)
    requires
        grown(env, known, base, s),
    ensures
        sound(env, known, base, s, plain_run(env, s, statement)),
{
    broadcast use {lemma_barrier, lemma_call, lemma_image_store, lemma_store};

    if let Statement::Emit { start, end } = statement {
        lemma_emit(env, known, base, s, start, end);
    }
}

/// A state whose module and current block are those of an output.
pub open spec fn with_output(s: State, o: Output) -> State {
    State { code: Code { writer: o.writer, ..s.code }, block: Blk { body: o.body, ..s.block } }
}

/// Whether a step of an output keeps what has grown from `base`.
pub open spec fn output_sound(
    env: Env,
    known: Set<Word>,
    base: State,
    s: State,
    o: Output,
    run: Run<Output, ()>,
) -> bool {
    match run {
        Some((o1, result)) => {
            &&& grown(env, known, base, with_output(s, o1))
            &&& defines_fresh(with_output(s, o), with_output(s, o1))
            &&& accounted(env.strict(), o1.writer, result)
        },
        None => true,
    }
}

/// What adjusting the coordinate space keeps.
proof fn lemma_flip(
    env: Env,
    known: Set<Word>,
    base: State,
    s: State,
    o: Output,
    variable: Word,
)
    requires
        grown(env, known, base, with_output(s, o)),
    ensures
        output_sound(env, known, base, s, o, flip_run(env.strict(), o, variable)),
{
    reveal(flip_run);
    let s0 = with_output(s, o);
    if let Some(o1) = o.fresh() {
        let s1 = with_output(s, o1);
        assert(s0.fresh() == Some(s1));
        if let Some((o2, result2)) = o1.type_id(env.strict(), float_output_type()) {
            let s2 = with_output(s, o2);
            assert(s1.type_id(env, float_output_type()) == Some((s2, result2)));
            if let (Ok(pointer_type_id), Some((o3, result3))) = (
                result2,
                o2.index_id(env.strict(), 1),
            ) {
                let s3 = with_output(s, o3);
                assert(s2.index_id(env, 1) == Some((s3, result3)));
                if let Ok(y_id) = result3 {
                    let access = Inst::access_chain(
                        pointer_type_id,
                        o1.id(),
                        variable,
                        seq![y_id],
                    );
                    assert(with_output(s, o3.push(access)) == s3.push(access));
                    if let Some(o4) = o3.push(access).fresh() {
                        let s4 = with_output(s, o4);
                        assert(s3.push(access).fresh() == Some(s4));
                        if let Some((o5, result5)) = o4.type_id(env.strict(), float_type(None)) {
                            let s5 = with_output(s, o5);
                            assert(s4.type_id(env, float_type(None)) == Some((s5, result5)));
                            if let Ok(type_id) = result5 {
                                let load = Inst::load(type_id, o4.id(), o1.id());
                                assert(with_output(s, o5.push(load)) == s5.push(load));
                                if let Some(o6) = o5.push(load).fresh() {
                                    let s6 = with_output(s, o6);
                                    assert(s5.push(load).fresh() == Some(s6));
                                    let negate = Inst::unary(
                                        spirv::Op::FNegate,
                                        type_id,
                                        o6.id(),
                                        o4.id(),
                                    );
                                    let store = Inst::store(o1.id(), o6.id());
                                    assert(with_output(s, o6.push(negate).push(store)) == s6.push(
                                        negate,
                                    ).push(store));
                                }
                            }
                        }
                    }
                }
            }
        }
    }
}

/// What storing to an output variable keeps.
proof fn lemma_member_store(
    env: Env,
    known: Set<Word>,
    base: State,
    s: State,
    o: Output,
    member: ResultMember,
    value_id: Word,
)
    requires
        grown(env, known, base, with_output(s, o)),
    ensures
        output_sound(
            env,
            known,
            base,
            s,
            o,
            member_store_run(env.writer, o, member, value_id),
        ),
{
    reveal(member_store_run);
    let store = Inst::store(member.id, value_id);
    assert(with_output(s, o.push(store)) == with_output(s, o).push(store));
    lemma_flip(env, known, base, s, o.push(store), member.id);
}

/// What storing a result to the output variables keeps.
proof fn lemma_results(
    env: Env,
    known: Set<Word>,
    base: State,
    s: State,
    o: Output,
    value_id: Word,
    bound: bool,
    members: Seq<ResultMember>,
    index: nat,
)
    requires
        grown(env, known, base, with_output(s, o)),
    ensures
        output_sound(
            env,
            known,
            base,
            s,
            o,
            results_run(env.writer, o, value_id, bound, members, index),
        ),
    decreases members.len() - index,
{
    if index < members.len() {
        let member = members[index as int];
        let stored = if bound {
            lemma_member_store(env, known, base, s, o, member, value_id);
            member_store_run(env.writer, o, member, value_id)
        } else {
            match o.fresh() {
                Some(o1) => {
                    let extract = Inst::composite_extract(
                        member.type_id,
                        o1.id(),
                        value_id,
                        index as Word,
                    );
                    assert(with_output(s, o).fresh() == Some(with_output(s, o1)));
                    assert(with_output(s, o1.push(extract)) == with_output(s, o1).push(extract));
                    lemma_member_store(
                        env,
                        known,
                        base,
                        s,
                        o1.push(extract),
                        member,
                        o1.id(),
                    );
                    member_store_run(env.writer, o1.push(extract), member, o1.id())
                },
                None => None,
            }
        };
        if let Some((o2, Ok(_))) = stored {
            lemma_results(env, known, base, s, o2, value_id, bound, members, index + 1);
        }
    }
}

/// What returning a value keeps.
proof fn lemma_return(env: Env, known: Set<Word>, base: State, s: State, value: ExprHandle)
    requires
        grown(env, known, base, s),
    ensures
        sound_code(env, known, base, s, return_run(env, s, value)),
{
    reveal(return_run);
    if let Some(value_id) = s.operand(value) {
        match (env.function.entry_point, env.fun.result) {
            (None, _) => {
                lemma_leave(env, known, base, s, Inst::return_value(value_id));
            },
            (Some(entry_point), Some(result)) => {
                let o = Output { writer: s.code.writer, body: s.block.body };
                assert(with_output(s, o) == s);
                lemma_results(
                    env,
                    known,
                    base,
                    s,
                    o,
                    value_id,
                    result.binding is Some,
                    entry_point.results,
                    0,
                );
                if let Some((o1, result)) = results_run(
                    env.writer,
                    o,
                    value_id,
                    result.binding is Some,
                    entry_point.results,
                    0,
                ) {
                    match result {
                        Ok(_) => {
                            lemma_leave(
                                env,
                                known,
                                base,
                                with_output(s, o1),
                                Inst::return_void(),
                            );
                        },
                        Err(error) => {
                            lemma_failed(env, known, base, s, with_output(s, o1), error);
                        },
                    }
                }
            },
            _ => {},
        }
    }
}

/// Whether emitting a compound statement keeps what has grown from `base`, and
/// defines fresh ids only. The block that control comes together in is still
/// to be begun.
pub open spec fn sound_compound(
    env: Env,
    known: Set<Word>,
    base: State,
    s: State,
    run: Run<Code, Word>,
) -> bool {
    match run {
        Some((code, Ok(merge_id))) => {
            &&& grown_code(env, known.insert(merge_id), base, code)
            &&& s.id() <= code.id()
            &&& forall|id: Word| #[trigger]
                code_defs(code, id) + same(merge_id, id) <= state_defs(s, id) + span(
                    id,
                    s.id(),
                    code.id(),
                )
        },
        Some((code, Err(error))) => failed_sound(env, base, s, code, error),
        None => true,
    }
}

/// The known labels, and those of the cases from `labels[index]` on.
pub open spec fn with_labels(known: Set<Word>, labels: Seq<Case>, index: int) -> Set<Word> {
    known.union(
        Set::new(
            |label: Word|
                exists|i: int|
                    index <= i < labels.len() && (#[trigger] labels[i]).label_id == label,
        ),
    )
}

/// How many of the cases from `labels[index]` on have a label.
pub open spec fn label_count(labels: Seq<Case>, index: int, label: Word) -> nat
    decreases labels.len() - index,
{
    if 0 <= index < labels.len() {
        same(labels[index].label_id, label) + label_count(labels, index + 1, label)
    } else {
        0
    }
}

/// Fresh labels are all different.
proof fn lemma_label_count(labels: Seq<Case>, first: Word, index: int, label: Word)
    requires
        0 <= index <= labels.len(),
        first + labels.len() <= Word::MAX,
        forall|i: int| 0 <= i < labels.len() ==> (#[trigger] labels[i]).label_id == first + 1 + i,
    ensures
        label_count(labels, index, label) == span(
            label,
            (first + index) as Word,
            (first + labels.len()) as Word,
        ),
    decreases labels.len() - index,
{
    if index < labels.len() {
        lemma_label_count(labels, first, index + 1, label);
    }
}

/// Where the labels stand among the operands of a switch.
proof fn lemma_case_words(cases: Seq<Case>)
    ensures
        case_words(cases).len() == 2 * cases.len(),
        forall|i: int|
            0 <= i < cases.len() ==> #[trigger] case_words(cases)[2 * i + 1] == cases[i].label_id,
    decreases cases.len(),
{
    if cases.len() > 0 {
        let rest = cases.drop_last();
        lemma_case_words(rest);
        assert forall|i: int| 0 <= i < cases.len() implies #[trigger] case_words(cases)[2 * i + 1]
            == cases[i].label_id by {
            if i < rest.len() {
                assert(case_words(rest)[2 * i + 1] == rest[i].label_id);
            }
        }
    }
}

/// A switch names the default and the cases.
proof fn lemma_switch_mentions(selector: Word, default: Word, cases: Seq<Case>, label: Word)
    requires
        mentions(Inst::switch(selector, default, cases), label),
    ensures
        label == default || exists|i: int|
            0 <= i < cases.len() && (#[trigger] cases[i]).label_id == label,
{
    let inst = Inst::switch(selector, default, cases);
    let i = choose|i: int|
        0 <= i && 2 * i + 1 < inst.operands.len() && #[trigger] inst.operands[2 * i + 1] == label;
    lemma_case_words(cases);
    if i > 0 {
        let j = i - 1;
        assert(inst.operands[2 * i + 1] == case_words(cases)[2 * j + 1]);
        assert(cases[j].label_id == label);
    }
}

/// Taking ids between blocks defines nothing.
proof fn lemma_code_ids(env: Env, known: Set<Word>, base: State, code: Code, count: nat)
    requires
        grown_code(env, known, base, code),
    ensures
        match code.fresh_many(count) {
            Some(code1) => {
                &&& grown_code(env, known, base, code1)
                &&& forall|id: Word| #[trigger] code_defs(code1, id) == code_defs(code, id)
            },
            None => true,
        },
{
    reveal(grown_code);
}

/// Taking ids inside a block defines nothing.
proof fn lemma_state_ids(env: Env, known: Set<Word>, base: State, s: State, count: nat)
    requires
        grown(env, known, base, s),
    ensures
        match s.code.fresh_many(count) {
            Some(code) => {
                &&& grown(env, known, base, State { code, ..s })
                &&& forall|id: Word| #[trigger]
                    state_defs(State { code, ..s }, id) == state_defs(s, id)
            },
            None => true,
        },
{
    reveal(grown);
}

/// A state has grown from itself.
pub proof fn lemma_grown_reflexive(env: Env, known: Set<Word>, s: State)
    ensures
        grown(env, known, s, s),
{
    reveal(grown);
}

/// A label need not be known if a block has it.
proof fn lemma_forget(env: Env, known: Set<Word>, base: State, code: Code, fewer: Set<Word>)
    requires
        grown_code(env, known, base, code),
        forall|label: Word| #[trigger]
            known.contains(label) ==> fewer.contains(label) || labelled(
                code.blocks,
                base.code.blocks.len() as int,
                label,
            ),
    ensures
        grown_code(env, fewer, base, code),
{
    reveal(grown_code);
}

/// What emitting statements keeps.
pub proof fn lemma_statements(
    env: Env,
    known: Set<Word>,
    base: State,
    s: State,
    statements: Seq<Statement>,
    index: nat,
    exit: Option<Word>,
    loop_context: LoopContext,
)
    requires
        grown(env, known, base, s),
        leads(known, exit),
        leads(known, loop_context.break_id),
        leads(known, loop_context.continuing_id),
    ensures
        sound_code(
            env,
            known,
            base,
            s,
            statements_run(env, s, statements, index, exit, loop_context),
        ),
    decreases statements, statements.len() - index,
{
    if index >= statements.len() {
        lemma_run_off(env, known, base, s, exit);
    } else {
        match statements[index as int] {
            Statement::Block(_)
            | Statement::If { .. }
            | Statement::Switch { .. }
            | Statement::Loop { .. } => {
                let statement = statements[index as int];
                lemma_compound(env, known, base, s, statement, loop_context);
                if let Some((code, Ok(merge_id))) = compound_run(env, s, statement, loop_context) {
                    lemma_begin(env, known.insert(merge_id), base, code, merge_id, known);
                    lemma_statements(
                        env,
                        known,
                        base,
                        code.begin(merge_id),
                        statements,
                        index + 1,
                        exit,
                        loop_context,
                    );
                }
            },
            Statement::Break => {
                if let Some(label) = loop_context.break_id {
                    lemma_leave(env, known, base, s, Inst::branch(label));
                }
            },
            Statement::Continue => {
                if let Some(label) = loop_context.continuing_id {
                    lemma_leave(env, known, base, s, Inst::branch(label));
                }
            },
            Statement::Return { value: Some(value) } => {
                lemma_return(env, known, base, s, value);
            },
            Statement::Return { value: None } => {
                lemma_leave(env, known, base, s, Inst::return_void());
            },
            Statement::Kill => {
                lemma_leave(env, known, base, s, Inst::kill());
            },
            plain => {
                lemma_plain(env, known, base, s, plain);
                if let Some((s1, result)) = plain_run(env, s, plain) {
                    match result {
                        Ok(_) => {
                            lemma_statements(
                                env,
                                known,
                                base,
                                s1,
                                statements,
                                index + 1,
                                exit,
                                loop_context,
                            );
                        },
                        Err(error) => {
                            lemma_failed(env, known, base, s, s1, error);
                        },
                    }
                }
            },
        }
    }
}

/// What emitting a block statement keeps.
proof fn lemma_block(
    env: Env,
    known: Set<Word>,
    base: State,
    s: State,
    statement: Statement,
    loop_context: LoopContext,
)
    requires
        statement is Block,
        grown(env, known, base, s),
        leads(known, loop_context.break_id),
        leads(known, loop_context.continuing_id),
    ensures
        sound_compound(env, known, base, s, compound_run(env, s, statement, loop_context)),
    decreases statement, 0int,
{
    if let (Statement::Block(body), Some(s1)) = (statement, s.fresh()) {
        let scope_id = s1.id();
        let code0 = s1.code.consume(s1.block, Inst::branch(scope_id));
        lemma_terminate(
            env,
            known,
            base,
            s1,
            Inst::branch(scope_id),
            known.insert(scope_id),
        );
        lemma_code_ids(env, known.insert(scope_id), base, code0, 1);
        if let Some(code) = code0.fresh() {
            let merge_id = code.id();
            let inner = known.insert(merge_id);
            lemma_begin(env, known.insert(scope_id), base, code, scope_id, inner);
            lemma_statements(
                env,
                inner,
                base,
                code.begin(scope_id),
                body@,
                0,
                Some(merge_id),
                loop_context,
            );
        }
    }
}

/// What emitting a compound statement keeps.
proof fn lemma_compound(
    env: Env,
    known: Set<Word>,
    base: State,
    s: State,
    statement: Statement,
    loop_context: LoopContext,
)
    requires
        grown(env, known, base, s),
        leads(known, loop_context.break_id),
        leads(known, loop_context.continuing_id),
    ensures
        sound_compound(env, known, base, s, compound_run(env, s, statement, loop_context)),
    decreases statement, 1int,
{
    match statement {
        Statement::Block(_) => {
            lemma_block(env, known, base, s, statement, loop_context);
        },
        Statement::If { .. } => {
            lemma_if(env, known, base, s, statement, loop_context);
        },
        Statement::Switch { .. } => {
            lemma_switch(env, known, base, s, statement, loop_context);
        },
        Statement::Loop { .. } => {
            lemma_loop(env, known, base, s, statement, loop_context);
        },
        _ => {},
    }
}

/// What emitting a conditional statement keeps.
proof fn lemma_if(
    env: Env,
    known: Set<Word>,
    base: State,
    s: State,
    statement: Statement,
    loop_context: LoopContext,
)
    requires
        statement is If,
        grown(env, known, base, s),
        leads(known, loop_context.break_id),
        leads(known, loop_context.continuing_id),
    ensures
        sound_compound(env, known, base, s, compound_run(env, s, statement, loop_context)),
    decreases statement, 0int,
{
    if let (Statement::If { condition, accept, reject }, Some(s1)) = (statement, s.fresh()) {
        let merge_id = s1.id();
        let header = Inst::selection_merge(merge_id, 0);
        if let (Some(condition_id), Some((s2, accept_id))) = (
            s.operand(condition),
            label_run(s1, accept@, merge_id),
        ) {
            assert(label_run(s1.push(header), accept@, merge_id) == Some(
                (s2.push(header), accept_id),
            ));
            if let Some((s3, reject_id)) = label_run(s2, reject@, merge_id) {
                assert(label_run(s2.push(header), reject@, merge_id) == Some(
                    (s3.push(header), reject_id),
                ));
                let fork = Inst::branch_conditional(condition_id, accept_id, reject_id);
                let inner = known.insert(merge_id);
                let all = inner.insert(accept_id).insert(reject_id);
                lemma_fork(env, known, base, s3, header, fork, all);
                let code = s3.code.consume(s3.push(header).block, fork);
                let code1 = if accept@.len() == 0 {
                    lemma_forget(env, all, base, code, inner.insert(reject_id));
                    Some((code, Ok(())))
                } else {
                    lemma_begin(env, all, base, code, accept_id, inner.insert(reject_id));
                    lemma_statements(
                        env,
                        inner.insert(reject_id),
                        base,
                        code.begin(accept_id),
                        accept@,
                        0,
                        Some(merge_id),
                        loop_context,
                    );
                    statements_run(
                        env,
                        code.begin(accept_id),
                        accept@,
                        0,
                        Some(merge_id),
                        loop_context,
                    )
                };
                if let Some((code1, Ok(_))) = code1 {
                    if reject@.len() == 0 {
                        lemma_forget(env, inner.insert(reject_id), base, code1, inner);
                    } else {
                        lemma_begin(
                            env,
                            inner.insert(reject_id),
                            base,
                            code1,
                            reject_id,
                            inner,
                        );
                        lemma_statements(
                            env,
                            inner,
                            base,
                            code1.begin(reject_id),
                            reject@,
                            0,
                            Some(merge_id),
                            loop_context,
                        );
                    }
                }
            }
        }
    }
}

/// What emitting the cases of a switch keeps.
proof fn lemma_cases(
    env: Env,
    known: Set<Word>,
    base: State,
    code: Code,
    cases: Seq<SwitchCase>,
    labels: Seq<Case>,
    index: nat,
    default_id: Word,
    merge_id: Word,
)
    requires
        labels.len() == cases.len(),
        index <= cases.len(),
        grown_code(env, with_labels(known, labels, index as int), base, code),
        known.contains(default_id),
        known.contains(merge_id),
    ensures
        match cases_run(env, code, cases, labels, index, default_id, merge_id) {
            Some((code1, result)) => {
                &&& code.id() <= code1.id()
                &&& forall|id: Word| #[trigger]
                    code_defs(code1, id) <= code_defs(code, id) + label_count(
                        labels,
                        index as int,
                        id,
                    ) + span(id, code.id(), code1.id())
                &&& match result {
                    Ok(_) => grown_code(env, known, base, code1),
                    Err(error) => {
                        &&& writer_kept(env.strict(), base.code.writer, code1.writer)
                        &&& code1.cached.len() == base.code.cached.len()
                        &&& begins_with(code1.blocks, base.code.blocks)
                        &&& accounted::<()>(env.strict(), code1.writer, Err(error))
                    },
                }
            },
            None => true,
        },
    decreases cases, cases.len() - index,
{
    let before = with_labels(known, labels, index as int);
    if index >= cases.len() {
        lemma_forget(env, before, base, code, known);
    } else {
        let label_id = labels[index as int].label_id;
        let after = with_labels(known, labels, index as int + 1);
        let exit = case_exit(cases, labels, index as int, default_id, merge_id);
        lemma_begin(env, before, base, code, label_id, after);
        lemma_statements(
            env,
            after,
            base,
            code.begin(label_id),
            cases[index as int].body@,
            0,
            Some(exit),
            LoopContext::none(),
        );
        if let Some((code1, Ok(_))) = statements_run(
            env,
            code.begin(label_id),
            cases[index as int].body@,
            0,
            Some(exit),
            LoopContext::none(),
        ) {
            lemma_cases(
                env,
                known,
                base,
                code1,
                cases,
                labels,
                index + 1,
                default_id,
                merge_id,
            );
        }
    }
}

/// What emitting a switch keeps.
proof fn lemma_switch(
    env: Env,
    known: Set<Word>,
    base: State,
    s: State,
    statement: Statement,
    loop_context: LoopContext,
)
    requires
        statement is Switch,
        grown(env, known, base, s),
    ensures
        sound_compound(env, known, base, s, compound_run(env, s, statement, loop_context)),
    decreases statement, 0int,
{
    if let (Statement::Switch { selector, cases, default }, Some(s1)) = (statement, s.fresh()) {
        let merge_id = s1.id();
        let header = Inst::selection_merge(merge_id, 0);
        if let (Some(selector_id), Some(s2)) = (s.operand(selector), s1.fresh()) {
            assert(s1.push(header).fresh() == Some(s2.push(header)));
            let default_id = s2.id();
            let labels = labelled_cases(cases@, ids_after(default_id, cases@.len()));
            lemma_state_ids(env, known, base, s2, cases@.len());
            if let Some(code) = s2.code.fresh_many(cases@.len()) {
                let s3 = State { code, ..s2 };
                let fork = Inst::switch(selector_id, default_id, labels);
                let inner = known.insert(merge_id);
                let outer = inner.insert(default_id);
                let all = with_labels(outer, labels, 0);
                assert forall|label: Word| #[trigger]
                    mentions(fork, label) implies all.contains(label) by {
                    lemma_switch_mentions(selector_id, default_id, labels, label);
                }
                lemma_fork(env, known, base, s3, header, fork, all);
                let code0 = code.consume(s2.push(header).block, fork);
                lemma_cases(env, outer, base, code0, cases@, labels, 0, default_id, merge_id);
                assert forall|label: Word| #[trigger]
                    label_count(labels, 0, label) == span(label, default_id, code.id()) by {
                    lemma_label_count(labels, default_id, 0, label);
                }
                if let Some((code1, Ok(_))) = cases_run(
                    env,
                    code0,
                    cases@,
                    labels,
                    0,
                    default_id,
                    merge_id,
                ) {
                    lemma_begin(env, outer, base, code1, default_id, inner);
                    lemma_statements(
                        env,
                        inner,
                        base,
                        code1.begin(default_id),
                        default@,
                        0,
                        Some(merge_id),
                        LoopContext::none(),
                    );
                }
            }
        }
    }
}

/// Statements add blocks after those that are there.
proof fn lemma_blocks_kept(
    env: Env,
    known: Set<Word>,
    code: Code,
    label_id: Word,
    statements: Seq<Statement>,
    exit: Option<Word>,
    loop_context: LoopContext,
)
    requires
        leads(known, exit),
        leads(known, loop_context.break_id),
        leads(known, loop_context.continuing_id),
    ensures
        match statements_run(env, code.begin(label_id), statements, 0, exit, loop_context) {
            Some((code1, _)) => begins_with(code1.blocks, code.blocks),
            None => true,
        },
    decreases statements, statements.len() + 1,
{
    let s = code.begin(label_id);
    lemma_grown_reflexive(env, known, s);
    lemma_statements(env, known, s, s, statements, 0, exit, loop_context);
    reveal(grown_code);
}

/// What emitting a loop keeps.
proof fn lemma_loop(
    env: Env,
    known: Set<Word>,
    base: State,
    s: State,
    statement: Statement,
    loop_context: LoopContext,
)
    requires
        statement is Loop,
        grown(env, known, base, s),
    ensures
        sound_compound(env, known, base, s, compound_run(env, s, statement, loop_context)),
    decreases statement, 0int,
{
    if let (Statement::Loop { body, continuing }, Some(s1)) = (statement, s.fresh()) {
        let preamble_id = s1.id();
        let code0 = s1.code.consume(s1.block, Inst::branch(preamble_id));
        lemma_terminate(
            env,
            known,
            base,
            s1,
            Inst::branch(preamble_id),
            known.insert(preamble_id),
        );
        lemma_code_ids(env, known.insert(preamble_id), base, code0, 3);
        if let Some(code) = code0.fresh_many(3) {
            let merge_id = (preamble_id + 1) as Word;
            let body_id = (preamble_id + 2) as Word;
            let continuing_id = (preamble_id + 3) as Word;
            let inner = known.insert(merge_id);
            let header = Inst::loop_merge(merge_id, continuing_id, 0);
            let all = inner.insert(continuing_id).insert(body_id);
            lemma_begin(env, known.insert(preamble_id), base, code, preamble_id, known);
            lemma_fork(
                env,
                known,
                base,
                code.begin(preamble_id),
                header,
                Inst::branch(body_id),
                all,
            );
            let code1 = code.consume(Blk::start(preamble_id).push(header), Inst::branch(body_id));
            let inside = LoopContext {
                continuing_id: Some(continuing_id),
                break_id: Some(merge_id),
            };
            lemma_begin(env, all, base, code1, body_id, inner.insert(continuing_id));
            lemma_statements(
                env,
                inner.insert(continuing_id),
                base,
                code1.begin(body_id),
                body@,
                0,
                Some(continuing_id),
                inside,
            );
            if let Some((code2, Ok(_))) = statements_run(
                env,
                code1.begin(body_id),
                body@,
                0,
                Some(continuing_id),
                inside,
            ) {
                let after = LoopContext { continuing_id: None, break_id: Some(merge_id) };
                let back = inner.insert(preamble_id);
                lemma_begin(env, inner.insert(continuing_id), base, code2, continuing_id, back);
                lemma_statements(
                    env,
                    back,
                    base,
                    code2.begin(continuing_id),
                    continuing@,
                    0,
                    Some(preamble_id),
                    after,
                );
                lemma_blocks_kept(
                    env,
                    all,
                    code1,
                    body_id,
                    body@,
                    Some(continuing_id),
                    inside,
                );
                lemma_blocks_kept(
                    env,
                    back,
                    code2,
                    continuing_id,
                    continuing@,
                    Some(preamble_id),
                    after,
                );
                if let Some((code3, Ok(_))) = statements_run(
                    env,
                    code2.begin(continuing_id),
                    continuing@,
                    0,
                    Some(preamble_id),
                    after,
                ) {
                    let at = code.blocks.len() as int;
                    assert(code1.blocks[at].label == preamble_id);
                    assert(code2.blocks[at] == code1.blocks[at]);
                    assert(code3.blocks[at] == code2.blocks[at]);
                    assert(base.code.blocks.len() <= at) by {
                        reveal(grown);
                    }
                    assert(labelled(
                        code3.blocks,
                        base.code.blocks.len() as int,
                        preamble_id,
                    ));
                    lemma_forget(env, back, base, code3, inner);
                }
            }
        }
    }
}

} // verus!
