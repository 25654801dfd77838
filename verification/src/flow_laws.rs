//! The laws of control flow: which way each statement sends control, and what
//! the function returns.

use spirv::Word;
use vstd::prelude::*;
use crate::block::{
    block_run, case_exit, cases_run, compound_run, end_run, label_run, labelled_cases, plain_run,
    return_run, statements_run, LoopContext,
};
use crate::context::{ids_after, Code, Env, State};
use crate::entry_point::{flip_run, member_store_run, results_run, Output};
use crate::function::{Blk, ResultMember};
use crate::growth::{begins_with, holds, lemma_writer_constant_id, lemma_writer_type_id};
use crate::instruction::{case_words, Case, Inst};
use crate::ir::{BuiltIn, ExprHandle, ScalarKind, ScalarValue, Statement, SwitchCase};
use crate::laws::{law_first_block_has_label, lemma_type_error};
use crate::meaning::{effect_inst, id_of, is_id_of, is_uint, numbers, value_inst};
use crate::run::{Error, Run};
use crate::types::{LocalType, LookupType};
use crate::writer::{WriterSettings, WriterState};

verus! {

/// Whether the position is turned upside down when it is stored to an output
/// variable.
pub open spec fn turns(settings: WriterSettings, member: ResultMember) -> bool {
    settings.flags.adjust_coordinate_space && member.built_in == Some(BuiltIn::Position)
}

/// How many instructions it takes to store a result to an output variable.
pub open spec fn store_count(settings: WriterSettings, bound: bool, member: ResultMember) -> nat {
    (if bound {
        0nat
    } else {
        1
    }) + 1 + (if turns(settings, member) {
        4nat
    } else {
        0
    })
}

/// How many instructions it takes to store a result to the first `count` output
/// variables.
pub open spec fn stores_count(
    settings: WriterSettings,
    bound: bool,
    members: Seq<ResultMember>,
    count: nat,
) -> nat
    decreases count,
{
    if count == 0 {
        0
    } else {
        stores_count(settings, bound, members, (count - 1) as nat) + store_count(
            settings,
            bound,
            members[count - 1],
        )
    }
}

/// A pointer to a floating-point number in an output variable.
pub open spec fn output_number() -> LookupType {
    LookupType::Local(
        LocalType::Value {
            vector_size: None,
            kind: ScalarKind::Float,
            width: 4,
            pointer_class: Some(spirv::StorageClass::Output),
        },
    )
}

/// Whether the four instructions from `body[at]` on negate the second component
/// of a variable in place.
pub open spec fn negates_y(w: WriterState, body: Seq<Inst>, at: int, variable: Word) -> bool {
    let pointer = body[at].result_id.unwrap();
    let y = body[at + 1].result_id.unwrap();
    let negated = body[at + 2].result_id.unwrap();
    let pointer_type = w.types[output_number()];
    let number_type = w.types[numbers(None, ScalarKind::Float, 4)];
    &&& w.types.contains_key(output_number())
    &&& w.types.contains_key(numbers(None, ScalarKind::Float, 4))
    &&& exists|one: Word| #[trigger]
        is_uint(w, 1, one) && body[at] == value_inst(
            spirv::Op::AccessChain,
            pointer_type,
            pointer,
            seq![variable, one],
        )
    &&& body[at + 1] == value_inst(spirv::Op::Load, number_type, y, seq![pointer])
    &&& body[at + 2] == value_inst(spirv::Op::FNegate, number_type, negated, seq![y])
    &&& body[at + 3] == effect_inst(spirv::Op::Store, seq![pointer, negated])
}

/// Whether the instructions from `body[at]` on store the part of a result that
/// an output variable is for: the result itself if it is bound, and else its
/// member. The position is turned upside down if that is asked for.
#[verifier::opaque]
pub open spec fn stores_output(
    settings: WriterSettings,
    w: WriterState,
    body: Seq<Inst>,
    at: int,
    value_id: Word,
    bound: bool,
    member: ResultMember,
    index: int,
) -> bool {
    let part = if bound {
        value_id
    } else {
        body[at].result_id.unwrap()
    };
    let store = at + if bound {
        0int
    } else {
        1
    };
    &&& !bound ==> body[at] == value_inst(
        spirv::Op::CompositeExtract,
        member.type_id,
        part,
        seq![value_id, index as Word],
    )
    &&& body[store] == effect_inst(spirv::Op::Store, seq![member.id, part])
    &&& turns(settings, member) ==> negates_y(w, body, store + 1, member.id)
}

/// Whether the store of a result to the output variable `members[i]` stands in
/// its place in a list of instructions that is `body[from]` on.
pub open spec fn stores_at(
    settings: WriterSettings,
    w: WriterState,
    body: Seq<Inst>,
    from: int,
    value_id: Word,
    bound: bool,
    members: Seq<ResultMember>,
    i: int,
) -> bool {
    stores_output(
        settings,
        w,
        body,
        from + stores_count(settings, bound, members, i as nat),
        value_id,
        bound,
        members[i],
        i,
    )
}

/// Whether a list of instructions goes on, from `body[from]` to its end, with
/// the stores of a result to all output variables in order, and nothing else.
pub open spec fn stores_outputs(
    settings: WriterSettings,
    w: WriterState,
    body: Seq<Inst>,
    from: int,
    value_id: Word,
    bound: bool,
    members: Seq<ResultMember>,
) -> bool {
    &&& body.len() == from + stores_count(settings, bound, members, members.len())
    &&& forall|i: int|
        0 <= i < members.len() ==> #[trigger] stores_at(
            settings,
            w,
            body,
            from,
            value_id,
            bound,
            members,
            i,
        )
}

/// What negating a component in place emits.
proof fn lemma_flip(strict: bool, o: Output, variable: Word)
    ensures
        match flip_run(strict, o, variable) {
            Some((o1, Ok(_))) => {
                &&& begins_with(o1.body, o.body)
                &&& o1.body.len() == o.body.len() + 4
                &&& negates_y(o1.writer, o1.body, o.body.len() as int, variable)
                &&& holds(o1.writer.types, o.writer.types)
                &&& holds(o1.writer.constants, o.writer.constants)
            },
            Some((_, Err(_))) => false,
            None => true,
        },
{
    reveal(flip_run);
    if let Some(o1) = o.fresh() {
        let w1 = o1.writer;
        lemma_writer_type_id(strict, w1, w1, output_number());
        lemma_type_error(w1, strict, output_number());
        if let Some((o2, Ok(pointer_type))) = o1.type_id(strict, output_number()) {
            let w2 = o2.writer;
            let one_value = ScalarValue::Uint(1);
            let key = (one_value, 4u8);
            lemma_writer_constant_id(strict, w2, w2, one_value, 4);
            lemma_type_error(w2.fresh().unwrap(), strict, numbers(None, ScalarKind::Uint, 4));
            if let Some((o3, Ok(one))) = o2.index_id(strict, 1) {
                assert(o3.writer.constants.contains_key(key));
                let access = Inst::access_chain(pointer_type, o1.id(), variable, seq![one]);
                if let Some(o4) = o3.push(access).fresh() {
                    let w4 = o4.writer;
                    let number = numbers(None, ScalarKind::Float, 4);
                    lemma_writer_type_id(strict, w4, w4, number);
                    lemma_type_error(w4, strict, number);
                    if let Some((o9, Ok(_))) = flip_run(strict, o, variable) {
                        let at = o.body.len() as int;
                        assert(o9.writer.types.contains_key(output_number()));
                        assert(o9.writer.types[output_number()] == pointer_type);
                        assert(o9.writer.types.contains_key(number));
                        assert(o9.writer.constants.contains_key(key));
                        assert(is_uint(o9.writer, 1, one));
                        assert(o9.body[at] == access);
                        assert(access.operands =~= seq![variable, one]);
                    }
                }
            }
        }
    }
}

/// Where a list of instructions goes on, a negation that it holds stays.
proof fn lemma_negation_stays(
    w: WriterState,
    body: Seq<Inst>,
    w1: WriterState,
    body1: Seq<Inst>,
    at: int,
    variable: Word,
)
    requires
        negates_y(w, body, at, variable),
        0 <= at,
        at + 4 <= body.len(),
        begins_with(body1, body),
        holds(w1.types, w.types),
        holds(w1.constants, w.constants),
    ensures
        negates_y(w1, body1, at, variable),
{
    assert(body1[at] == body[at]);
    assert(body1[at + 1] == body[at + 1]);
    assert(body1[at + 2] == body[at + 2]);
    assert(body1[at + 3] == body[at + 3]);
    let one = choose|one: Word| #[trigger]
        is_uint(w, 1, one) && body[at] == value_inst(
            spirv::Op::AccessChain,
            w.types[output_number()],
            body[at].result_id.unwrap(),
            seq![variable, one],
        );
    let key = (ScalarValue::Uint(1), 4u8);
    assert(w.constants.contains_key(key));
    assert(w1.constants.contains_key(key));
    assert(is_uint(w1, 1, one));
}

/// What the stores to the output variables from `members[index]` on emit.
proof fn lemma_outputs(
    settings: WriterSettings,
    base: int,
    o: Output,
    value_id: Word,
    bound: bool,
    members: Seq<ResultMember>,
    index: nat,
)
    requires
        0 <= base,
        index <= members.len(),
        o.body.len() == base + stores_count(settings, bound, members, index),
        forall|i: int|
            0 <= i < index ==> #[trigger] stores_at(
                settings,
                o.writer,
                o.body,
                base,
                value_id,
                bound,
                members,
                i,
            ),
    ensures
        match results_run(settings, o, value_id, bound, members, index) {
            Some((o1, Ok(_))) => begins_with(o1.body, o.body) && stores_outputs(
                settings,
                o1.writer,
                o1.body,
                base,
                value_id,
                bound,
                members,
            ),
            Some((_, Err(_))) => false,
            None => true,
        },
    decreases members.len() - index,
{
    if index < members.len() {
        let member = members[index as int];
        let at = o.body.len() as int;
        lemma_output(settings, o, value_id, bound, member, index);
        if let Some((o2, Ok(_))) = output_run(settings, o, value_id, bound, member, index) {
            assert(stores_count(settings, bound, members, index + 1) == stores_count(
                settings,
                bound,
                members,
                index,
            ) + store_count(settings, bound, member));
            assert forall|i: int| 0 <= i < index + 1 implies #[trigger] stores_at(
                settings,
                o2.writer,
                o2.body,
                base,
                value_id,
                bound,
                members,
                i,
            ) by {
                if i < index {
                    assert(stores_at(
                        settings,
                        o.writer,
                        o.body,
                        base,
                        value_id,
                        bound,
                        members,
                        i,
                    ));
                    lemma_counts(settings, bound, members, i as nat, index);
                    lemma_output_stays(
                        settings,
                        o.writer,
                        o.body,
                        o2.writer,
                        o2.body,
                        base + stores_count(settings, bound, members, i as nat),
                        value_id,
                        bound,
                        members[i],
                        i,
                    );
                }
            }
            lemma_outputs(settings, base, o2, value_id, bound, members, index + 1);
        }
    }
}

/// The store of a result to one output variable.
spec fn output_run(
    settings: WriterSettings,
    o: Output,
    value_id: Word,
    bound: bool,
    member: ResultMember,
    index: nat,
) -> Run<Output, ()> {
    if bound {
        member_store_run(settings, o, member, value_id)
    } else {
        match o.fresh() {
            Some(o1) => member_store_run(
                settings,
                o1.push(
                    Inst::composite_extract(member.type_id, o1.id(), value_id, index as Word),
                ),
                member,
                o1.id(),
            ),
            None => None,
        }
    }
}

/// What the store to one output variable emits.
proof fn lemma_output(
    settings: WriterSettings,
    o: Output,
    value_id: Word,
    bound: bool,
    member: ResultMember,
    index: nat,
)
    ensures
        match output_run(settings, o, value_id, bound, member, index) {
            Some((o2, Ok(_))) => {
                &&& begins_with(o2.body, o.body)
                &&& o2.body.len() == o.body.len() + store_count(settings, bound, member)
                &&& stores_output(
                    settings,
                    o2.writer,
                    o2.body,
                    o.body.len() as int,
                    value_id,
                    bound,
                    member,
                    index as int,
                )
                &&& holds(o2.writer.types, o.writer.types)
                &&& holds(o2.writer.constants, o.writer.constants)
            },
            Some((_, Err(_))) => false,
            None => true,
        },
{
    reveal(member_store_run);
    reveal(stores_output);
    let at = o.body.len() as int;
    if bound {
        let stored = o.push(Inst::store(member.id, value_id));
        lemma_flip(settings.strict_capabilities, stored, member.id);
        if let Some((o2, Ok(_))) = output_run(settings, o, value_id, bound, member, index) {
            assert(begins_with(o2.body, stored.body));
            assert(o2.body[at] == stored.body[at]);
        }
    } else if let Some(o0) = o.fresh() {
        let part = o0.id();
        let extract = Inst::composite_extract(member.type_id, part, value_id, index as Word);
        let stored = o0.push(extract).push(Inst::store(member.id, part));
        lemma_flip(settings.strict_capabilities, stored, member.id);
        if let Some((o2, Ok(_))) = output_run(settings, o, value_id, bound, member, index) {
            assert(begins_with(o2.body, stored.body));
            assert(o2.body[at] == stored.body[at]);
            assert(o2.body[at + 1] == stored.body[at + 1]);
        }
    }
}

/// The stores to earlier variables come before those to later ones.
proof fn lemma_counts(
    settings: WriterSettings,
    bound: bool,
    members: Seq<ResultMember>,
    i: nat,
    count: nat,
)
    requires
        i < count,
    ensures
        stores_count(settings, bound, members, i) + store_count(settings, bound, members[i as int])
            <= stores_count(settings, bound, members, count),
    decreases count,
{
    if i + 1 < count {
        lemma_counts(settings, bound, members, i, (count - 1) as nat);
    }
}

/// Where a list of instructions goes on, a store that it holds stays.
proof fn lemma_output_stays(
    settings: WriterSettings,
    w: WriterState,
    body: Seq<Inst>,
    w1: WriterState,
    body1: Seq<Inst>,
    at: int,
    value_id: Word,
    bound: bool,
    member: ResultMember,
    index: int,
)
    requires
        stores_output(settings, w, body, at, value_id, bound, member, index),
        0 <= at,
        at + store_count(settings, bound, member) <= body.len(),
        begins_with(body1, body),
        holds(w1.types, w.types),
        holds(w1.constants, w.constants),
    ensures
        stores_output(settings, w1, body1, at, value_id, bound, member, index),
{
    reveal(stores_output);
    let store = at + if bound {
        0int
    } else {
        1
    };
    assert(body1[at] == body[at]);
    assert(body1[store] == body[store]);
    if turns(settings, member) {
        lemma_negation_stays(w, body, w1, body1, store + 1, member.id);
    }
}

/// The return from an entry point stores its result to the output variables,
/// each of them in order and nothing else: the result itself if it is bound, and
/// otherwise the member of it at the same place. Wherever the coordinate space
/// is to be adjusted, the store to a variable that is the position is followed
/// by the negation, in place, of its second component.
pub proof fn law_entry_point_outputs(
    settings: WriterSettings,
    o: Output,
    value_id: Word,
    bound: bool,
    members: Seq<ResultMember>,
)
    ensures
        match results_run(settings, o, value_id, bound, members, 0) {
            Some((o1, Ok(_))) => begins_with(o1.body, o.body) && stores_outputs(
                settings,
                o1.writer,
                o1.body,
                o.body.len() as int,
                value_id,
                bound,
                members,
            ),
            Some((_, Err(_))) => false,
            None => true,
        },
{
    lemma_outputs(settings, o.body.len() as int, o, value_id, bound, members, 0);
}

/// Whether a step ends the current block with an instruction, and does nothing
/// else.
pub open spec fn ends_with(s: State, code: Code, inst: Inst) -> bool {
    &&& code.blocks == s.code.blocks.push(
        Blk { label: s.block.label, body: s.block.body.push(inst) },
    )
    &&& code.cached == s.code.cached
    &&& code.writer == s.code.writer
}

/// Whether two modules differ in nothing but the ids that were taken.
pub open spec fn same_module(w: WriterState, w1: WriterState) -> bool {
    w1 == (WriterState { last_id: w1.last_id, ..w }) && w.last_id <= w1.last_id
}

/// A code that has one more block and otherwise is that of a state.
pub open spec fn with_block(s: State, w: WriterState, body: Seq<Inst>) -> Code {
    Code {
        writer: w,
        cached: s.code.cached,
        blocks: s.code.blocks.push(Blk { label: s.block.label, body }),
    }
}

/// Whether a list of statements leads from one code to another: an empty one
/// stays where it is, any other becomes blocks, of which the first has the label.
pub open spec fn leads(
    env: Env,
    before: Code,
    label: Word,
    statements: Seq<Statement>,
    exit: Word,
    loop_context: LoopContext,
    after: Code,
    result: Result<(), Error>,
) -> bool {
    if statements.len() == 0 {
        after == before && result is Ok
    } else {
        block_run(env, before, label, statements, Some(exit), loop_context) == Some(
            (after, result),
        )
    }
}

/// Whether a statement gives what the last of its parts does: the label of the
/// block where control goes on, or an error.
pub open spec fn goes_on_at(
    last: Result<(), Error>,
    label: Word,
    result: Result<Word, Error>,
) -> bool {
    match last {
        Ok(_) => result == Ok::<Word, Error>(label),
        Err(error) => result == Err::<Word, Error>(error),
    }
}

/// Whether an `if` statement is a two-way branch on its condition: to the block
/// of the accepted statements where it holds and to that of the rejected ones
/// where it does not, each of which goes on to `merge`; where there are no
/// statements, the branch leads to `merge` itself.
pub open spec fn is_selection(
    env: Env,
    s: State,
    condition: ExprHandle,
    accept: Seq<Statement>,
    reject: Seq<Statement>,
    loop_context: LoopContext,
    end: Code,
    result: Result<Word, Error>,
    merge: Word,
    on_true: Word,
    on_false: Word,
    w: WriterState,
    middle: Code,
    accepted: Result<(), Error>,
) -> bool {
    let header = s.block.body + seq![
        effect_inst(spirv::Op::SelectionMerge, seq![merge, 0]),
        effect_inst(
            spirv::Op::BranchConditional,
            seq![id_of(s, condition), on_true, on_false],
        ),
    ];
    &&& same_module(s.code.writer, w)
    &&& s.id() < merge <= w.last_id
    &&& s.id() < on_true <= w.last_id
    &&& s.id() < on_false <= w.last_id
    &&& accept.len() == 0 <==> on_true == merge
    &&& reject.len() == 0 <==> on_false == merge
    &&& on_true == on_false ==> accept.len() == 0 && reject.len() == 0
    &&& accepted is Ok && accept.len() > 0 ==> {
        &&& s.code.blocks.len() + 1 < middle.blocks.len()
        &&& middle.blocks[s.code.blocks.len() as int + 1].label == on_true
    }
    &&& result is Ok && reject.len() > 0 ==> {
        &&& middle.blocks.len() < end.blocks.len()
        &&& end.blocks[middle.blocks.len() as int].label == on_false
    }
    &&& leads(
        env,
        with_block(s, w, header),
        on_true,
        accept,
        merge,
        loop_context,
        middle,
        accepted,
    )
    &&& match accepted {
        Ok(_) => exists|rejected: Result<(), Error>| #[trigger]
            goes_on_at(rejected, merge, result) && leads(
                env,
                middle,
                on_false,
                reject,
                merge,
                loop_context,
                end,
                rejected,
            ),
        Err(error) => end == middle && result == Err::<Word, Error>(error),
    }
}

/// An `if` statement sends control to the accepted statements where its
/// condition holds, and to the rejected ones where it does not. Each of the two
/// is reached by one label of the branch only, which is that of its first block.
pub proof fn law_if(
    env: Env,
    s: State,
    condition: ExprHandle,
    accept: Vec<Statement>,
    reject: Vec<Statement>,
    loop_context: LoopContext,
    end: Code,
    result: Result<Word, Error>,
)
    requires
        compound_run(env, s, Statement::If { condition, accept, reject }, loop_context) == Some(
            (end, result),
        ),
    ensures
        exists|
            merge: Word,
            on_true: Word,
            on_false: Word,
            w: WriterState,
            middle: Code,
            accepted: Result<(), Error>,
        | #[trigger]
            is_selection(
                env,
                s,
                condition,
                accept@,
                reject@,
                loop_context,
                end,
                result,
                merge,
                on_true,
                on_false,
                w,
                middle,
                accepted,
            ),
{
    let s1 = s.fresh().unwrap();
    let merge = s1.id();
    let (s2, on_true) = label_run(
        s1.push(Inst::selection_merge(merge, 0)),
        accept@,
        merge,
    ).unwrap();
    let (s3, on_false) = label_run(s2, reject@, merge).unwrap();
    let begun = s3.code.consume(
        s3.block,
        Inst::branch_conditional(id_of(s, condition), on_true, on_false),
    );
    let header = s.block.body + seq![
        effect_inst(spirv::Op::SelectionMerge, seq![merge, 0]),
        effect_inst(
            spirv::Op::BranchConditional,
            seq![id_of(s, condition), on_true, on_false],
        ),
    ];
    assert(begun.blocks.last().body =~= header);
    assert(begun == with_block(s, s3.code.writer, header));
    let (middle, accepted) = if accept@.len() == 0 {
        (begun, Ok(()))
    } else {
        statements_run(
            env,
            begun.begin(on_true),
            accept@,
            0,
            Some(merge),
            loop_context,
        ).unwrap()
    };
    if accept@.len() > 0 {
        law_first_block_has_label(env, begun, on_true, accept@, Some(merge), loop_context);
    }
    if accepted is Ok {
        if reject@.len() > 0 {
            law_first_block_has_label(env, middle, on_false, reject@, Some(merge), loop_context);
        }
        let rejected = if reject@.len() == 0 {
            Ok(())
        } else {
            statements_run(
                env,
                middle.begin(on_false),
                reject@,
                0,
                Some(merge),
                loop_context,
            ).unwrap().1
        };
        assert(goes_on_at(rejected, merge, result));
        assert(leads(
            env,
            middle,
            on_false,
            reject@,
            merge,
            loop_context,
            end,
            rejected,
        ));
    }
    assert(is_selection(
        env,
        s,
        condition,
        accept@,
        reject@,
        loop_context,
        end,
        result,
        merge,
        on_true,
        on_false,
        s3.code.writer,
        middle,
        accepted,
    ));
}

/// Whether a loop is entered by a block that names where it is left and where it
/// goes on; runs its body and then its continuing statements, which lead back to
/// that block. In the body, a `continue` leads to the continuing statements and
/// a `break` out of the loop; in the continuing statements there is no
/// `continue`.
pub open spec fn is_loop(
    env: Env,
    s: State,
    body: Seq<Statement>,
    continuing: Seq<Statement>,
    end: Code,
    result: Result<Word, Error>,
    entry: Word,
    merge: Word,
    first: Word,
    next: Word,
    w: WriterState,
    middle: Code,
    ran: Result<(), Error>,
) -> bool {
    let entered = with_block(
        s,
        w,
        s.block.body.push(effect_inst(spirv::Op::Branch, seq![entry])),
    );
    let begun = Code {
        blocks: entered.blocks.push(
            Blk {
                label: entry,
                body: seq![
                    effect_inst(spirv::Op::LoopMerge, seq![merge, next, 0]),
                    effect_inst(spirv::Op::Branch, seq![first]),
                ],
            },
        ),
        ..entered
    };
    &&& same_module(s.code.writer, w)
    &&& s.id() < entry <= w.last_id
    &&& s.id() < merge <= w.last_id
    &&& s.id() < first <= w.last_id
    &&& s.id() < next <= w.last_id
    &&& entry != merge && entry != first && entry != next
    &&& merge != first && merge != next && first != next
    &&& block_run(
        env,
        begun,
        first,
        body,
        Some(next),
        LoopContext { continuing_id: Some(next), break_id: Some(merge) },
    ) == Some((middle, ran))
    &&& match ran {
        Ok(_) => exists|last: Result<(), Error>| #[trigger]
            goes_on_at(last, merge, result) && block_run(
                env,
                middle,
                next,
                continuing,
                Some(entry),
                LoopContext { continuing_id: None, break_id: Some(merge) },
            ) == Some((end, last)),
        Err(error) => end == middle && result == Err::<Word, Error>(error),
    }
}

/// A loop runs its body and its continuing statements in turn, until control
/// leaves it.
pub proof fn law_loop(
    env: Env,
    s: State,
    body: Vec<Statement>,
    continuing: Vec<Statement>,
    loop_context: LoopContext,
    end: Code,
    result: Result<Word, Error>,
)
    requires
        compound_run(env, s, Statement::Loop { body, continuing }, loop_context) == Some(
            (end, result),
        ),
    ensures
        exists|
            entry: Word,
            merge: Word,
            first: Word,
            next: Word,
            w: WriterState,
            middle: Code,
            ran: Result<(), Error>,
        | #[trigger]
            is_loop(
                env,
                s,
                body@,
                continuing@,
                end,
                result,
                entry,
                merge,
                first,
                next,
                w,
                middle,
                ran,
            ),
{
    let s1 = s.fresh().unwrap();
    let entry = s1.id();
    let code = s1.code.consume(s1.block, Inst::branch(entry)).fresh_many(3).unwrap();
    let merge = (entry + 1) as Word;
    let first = (entry + 2) as Word;
    let next = (entry + 3) as Word;
    let preamble = Blk::start(entry).push(Inst::loop_merge(merge, next, 0));
    let begun = code.consume(preamble, Inst::branch(first));
    assert(preamble.push(Inst::branch(first)).body =~= seq![
        effect_inst(spirv::Op::LoopMerge, seq![merge, next, 0]),
        effect_inst(spirv::Op::Branch, seq![first]),
    ]);
    let (middle, ran) = block_run(
        env,
        begun,
        first,
        body@,
        Some(next),
        LoopContext { continuing_id: Some(next), break_id: Some(merge) },
    ).unwrap();
    if ran is Ok {
        let last = block_run(
            env,
            middle,
            next,
            continuing@,
            Some(entry),
            LoopContext { continuing_id: None, break_id: Some(merge) },
        ).unwrap().1;
        assert(goes_on_at(last, merge, result));
    }
    assert(is_loop(
        env,
        s,
        body@,
        continuing@,
        end,
        result,
        entry,
        merge,
        first,
        next,
        code.writer,
        middle,
        ran,
    ));
}

/// A block of statements becomes blocks of its own, which control passes on the
/// way to what follows.
pub proof fn law_nested_block(
    env: Env,
    s: State,
    body: Vec<Statement>,
    loop_context: LoopContext,
    end: Code,
    result: Result<Word, Error>,
)
    requires
        compound_run(env, s, Statement::Block(body), loop_context) == Some((end, result)),
    ensures
        exists|first: Word, next: Word, w: WriterState, last: Result<(), Error>|
            {
                &&& #[trigger] goes_on_at(last, next, result)
                &&& same_module(s.code.writer, w)
                &&& s.id() < first <= w.last_id
                &&& s.id() < next <= w.last_id
                &&& first != next
                &&& #[trigger] block_run(
                    env,
                    with_block(
                        s,
                        w,
                        s.block.body.push(effect_inst(spirv::Op::Branch, seq![first])),
                    ),
                    first,
                    body@,
                    Some(next),
                    loop_context,
                ) == Some((end, last))
            },
{
    let s1 = s.fresh().unwrap();
    let first = s1.id();
    let code = s1.code.consume(s1.block, Inst::branch(first)).fresh().unwrap();
    let next = code.id();
    assert(code == with_block(
        s,
        code.writer,
        s.block.body.push(effect_inst(spirv::Op::Branch, seq![first])),
    ));
    let last = block_run(env, code, first, body@, Some(next), loop_context).unwrap().1;
    assert(goes_on_at(last, next, result));
}

/// Whether a word is the two's complement bit pattern of an integer.
pub open spec fn represents(word: Word, value: i32) -> bool {
    word == value as int || word == value + 0x1_0000_0000
}

/// Where control goes after a case of a switch: to the next one, or to the
/// default after the last one, if it falls through; and else out of the switch.
pub open spec fn after_case(
    cases: Seq<SwitchCase>,
    labels: Seq<Word>,
    i: int,
    default: Word,
    merge: Word,
) -> Word {
    if cases[i].fall_through {
        if i == cases.len() - 1 {
            default
        } else {
            labels[i + 1]
        }
    } else {
        merge
    }
}

/// Whether a switch statement is a multi-way branch on its selector, by the
/// values of its cases to their blocks and by any other value to that of the
/// default. The cases are generated in order, one code from the other; `codes`
/// are those up to the first that fails.
pub open spec fn is_switch(
    env: Env,
    s: State,
    selector: ExprHandle,
    cases: Seq<SwitchCase>,
    default: Seq<Statement>,
    end: Code,
    result: Result<Word, Error>,
    merge: Word,
    default_label: Word,
    labels: Seq<Word>,
    w: WriterState,
    branch: Inst,
    codes: Seq<Code>,
) -> bool {
    let outside = LoopContext { continuing_id: None, break_id: None };
    let done = codes.len() - 1;
    &&& same_module(s.code.writer, w)
    &&& s.id() < merge <= w.last_id
    &&& s.id() < default_label <= w.last_id
    &&& merge != default_label
    &&& labels.len() == cases.len()
    &&& forall|i: int|
        0 <= i < labels.len() ==> s.id() < #[trigger] labels[i] <= w.last_id && labels[i] != merge
            && labels[i] != default_label
    &&& forall|i: int, j: int|
        0 <= i < j < labels.len() ==> #[trigger] labels[i] != #[trigger] labels[j]
    &&& branch.op == spirv::Op::Switch && branch.type_id is None && branch.result_id is None
    &&& branch.operands.len() == 2 + 2 * cases.len()
    &&& branch.operands[0] == id_of(s, selector) && branch.operands[1] == default_label
    &&& forall|i: int|
        0 <= i < cases.len() ==> represents(
            branch.operands[2 + 2 * i],
            (#[trigger] cases[i]).value,
        ) && branch.operands[3 + 2 * i] == labels[i]
    &&& 0 <= done <= cases.len()
    &&& codes[0] == with_block(
        s,
        w,
        s.block.body + seq![effect_inst(spirv::Op::SelectionMerge, seq![merge, 0]), branch],
    )
    &&& forall|i: int|
        0 <= i < done ==> #[trigger] block_run(
            env,
            codes[i],
            labels[i],
            cases[i].body@,
            Some(after_case(cases, labels, i, default_label, merge)),
            outside,
        ) == Some((codes[i + 1], Ok::<(), Error>(())))
    &&& if done < cases.len() {
        exists|last: Result<(), Error>| #[trigger]
            goes_on_at(last, merge, result) && last is Err && block_run(
                env,
                codes[done],
                labels[done],
                cases[done].body@,
                Some(after_case(cases, labels, done, default_label, merge)),
                outside,
            ) == Some((end, last))
    } else {
        exists|last: Result<(), Error>| #[trigger]
            goes_on_at(last, merge, result) && block_run(
                env,
                codes[done],
                default_label,
                default,
                Some(merge),
                outside,
            ) == Some((end, last))
    }
}

/// The words of the cases of a switch.
proof fn lemma_case_words(cases: Seq<Case>)
    ensures
        case_words(cases).len() == 2 * cases.len(),
        forall|i: int|
            0 <= i < cases.len() ==> case_words(cases)[2 * i] == (#[trigger] cases[i]).value
                && case_words(cases)[2 * i + 1] == cases[i].label_id,
    decreases cases.len(),
{
    if cases.len() > 0 {
        let before = cases.drop_last();
        lemma_case_words(before);
        assert forall|i: int| 0 <= i < cases.len() implies case_words(cases)[2 * i] == (
        #[trigger] cases[i]).value && case_words(cases)[2 * i + 1] == cases[i].label_id by {
            if i < cases.len() - 1 {
                assert(before[i] == cases[i]);
                assert(2 * i + 1 < case_words(before).len());
            }
        }
    }
}

/// Whether the case `cases[index + i]` leads from one of a list of codes to the
/// next.
spec fn case_leads(
    env: Env,
    cases: Seq<SwitchCase>,
    labels: Seq<Word>,
    default_label: Word,
    merge: Word,
    codes: Seq<Code>,
    index: int,
    i: int,
) -> bool {
    block_run(
        env,
        codes[i],
        labels[index + i],
        cases[index + i].body@,
        Some(after_case(cases, labels, index + i, default_label, merge)),
        LoopContext { continuing_id: None, break_id: None },
    ) == Some((codes[i + 1], Ok::<(), Error>(())))
}

/// The codes between the cases of a switch, from `cases[index]` on.
proof fn lemma_cases(
    env: Env,
    code: Code,
    cases: Seq<SwitchCase>,
    labelled: Seq<Case>,
    index: nat,
    default_label: Word,
    merge: Word,
    end: Code,
    result: Result<(), Error>,
) -> (codes: Seq<Code>)
    requires
        index <= cases.len(),
        labelled.len() == cases.len(),
        cases_run(env, code, cases, labelled, index, default_label, merge) == Some((end, result)),
    ensures
        1 <= codes.len() <= cases.len() - index + 1,
        codes[0] == code,
        ({
            let labels = Seq::new(labelled.len(), |i: int| labelled[i].label_id);
            let outside = LoopContext { continuing_id: None, break_id: None };
            let done = codes.len() - 1;
            &&& forall|i: int|
                0 <= i < done ==> #[trigger] case_leads(
                    env,
                    cases,
                    labels,
                    default_label,
                    merge,
                    codes,
                    index as int,
                    i,
                )
            &&& if done < cases.len() - index {
                let at = done + index;
                result is Err && block_run(
                    env,
                    codes[done],
                    labels[at],
                    cases[at].body@,
                    Some(after_case(cases, labels, at, default_label, merge)),
                    outside,
                ) == Some((end, result))
            } else {
                result is Ok && end == codes[done]
            }
        }),
    decreases cases.len() - index,
{
    let labels = Seq::new(labelled.len(), |i: int| labelled[i].label_id);
    let outside = LoopContext { continuing_id: None, break_id: None };
    if index >= cases.len() {
        seq![code]
    } else {
        let at = index as int;
        let exit = Some(after_case(cases, labels, at, default_label, merge));
        assert(exit == Some(case_exit(cases, labelled, at, default_label, merge)));
        let (code1, ran) = block_run(
            env,
            code,
            labels[at],
            cases[at].body@,
            exit,
            outside,
        ).unwrap();
        if ran is Ok {
            let rest = lemma_cases(
                env,
                code1,
                cases,
                labelled,
                index + 1,
                default_label,
                merge,
                end,
                result,
            );
            let codes = seq![code] + rest;
            assert forall|i: int| 0 <= i < codes.len() - 1 implies #[trigger] case_leads(
                env,
                cases,
                labels,
                default_label,
                merge,
                codes,
                index as int,
                i,
            ) by {
                if i > 0 {
                    assert(case_leads(
                        env,
                        cases,
                        labels,
                        default_label,
                        merge,
                        rest,
                        index as int + 1,
                        i - 1,
                    ));
                    assert(index as int + 1 + (i - 1) == index + i);
                    assert(codes[i] == rest[i - 1]);
                    assert(codes[i + 1] == rest[i - 1 + 1]);
                } else {
                    assert(index + i == at);
                    assert(ran->Ok_0 == ());
                    assert(ran == Ok::<(), Error>(()));
                    assert(codes[i] == code);
                    assert(codes[i + 1] == rest[0]);
                }
            }
            codes
        } else {
            seq![code]
        }
    }
}

/// A switch sends control to the case whose value the selector has, and to the
/// default if there is none. A case that does not fall through leaves the switch.
pub proof fn law_switch(
    env: Env,
    s: State,
    selector: ExprHandle,
    cases: Vec<SwitchCase>,
    default: Vec<Statement>,
    loop_context: LoopContext,
    end: Code,
    result: Result<Word, Error>,
)
    requires
        compound_run(
            env,
            s,
            Statement::Switch { selector, cases, default },
            loop_context,
        ) == Some((end, result)),
    ensures
        exists|
            merge: Word,
            default_label: Word,
            labels: Seq<Word>,
            w: WriterState,
            branch: Inst,
            codes: Seq<Code>,
        | #[trigger]
            is_switch(
                env,
                s,
                selector,
                cases@,
                default@,
                end,
                result,
                merge,
                default_label,
                labels,
                w,
                branch,
                codes,
            ),
{
    let s1 = s.fresh().unwrap();
    let merge = s1.id();
    let s2 = s1.push(Inst::selection_merge(merge, 0)).fresh().unwrap();
    let default_label = s2.id();
    let labelled = labelled_cases(cases@, ids_after(default_label, cases@.len()));
    let labels = Seq::new(labelled.len(), |i: int| labelled[i].label_id);
    let code = s2.code.fresh_many(cases@.len()).unwrap();
    let w = code.writer;
    let branch = Inst::switch(id_of(s, selector), default_label, labelled);
    let begun = code.consume(s2.block, branch);
    let header = s.block.body + seq![
        effect_inst(spirv::Op::SelectionMerge, seq![merge, 0]),
        branch,
    ];
    assert(begun.blocks.last().body =~= header);
    assert(begun == with_block(s, w, header));
    let (end1, ran) = cases_run(
        env,
        begun,
        cases@,
        labelled,
        0,
        default_label,
        merge,
    ).unwrap();
    let codes = lemma_cases(
        env,
        begun,
        cases@,
        labelled,
        0,
        default_label,
        merge,
        end1,
        ran,
    );
    lemma_case_words(labelled);
    assert forall|i: int| 0 <= i < cases@.len() implies represents(
        branch.operands[2 + 2 * i],
        (#[trigger] cases@[i]).value,
    ) && branch.operands[3 + 2 * i] == labels[i] by {
        assert(branch.operands[2 + 2 * i] == case_words(labelled)[2 * i]);
        assert(branch.operands[3 + 2 * i] == case_words(labelled)[2 * i + 1]);
        assert(labelled[i].label_id == labels[i]);
    }
    let done = codes.len() - 1;
    assert forall|i: int| 0 <= i < done implies #[trigger] block_run(
        env,
        codes[i],
        labels[i],
        cases@[i].body@,
        Some(after_case(cases@, labels, i, default_label, merge)),
        LoopContext { continuing_id: None, break_id: None },
    ) == Some((codes[i + 1], Ok::<(), Error>(()))) by {
        assert(case_leads(env, cases@, labels, default_label, merge, codes, 0, i));
    }
    if ran is Ok {
        let last = block_run(
            env,
            end1,
            default_label,
            default@,
            Some(merge),
            LoopContext { continuing_id: None, break_id: None },
        ).unwrap().1;
        assert(goes_on_at(last, merge, result));
    } else {
        assert(goes_on_at(ran, merge, result));
    }
    assert(is_switch(
        env,
        s,
        selector,
        cases@,
        default@,
        end,
        result,
        merge,
        default_label,
        labels,
        w,
        branch,
        codes,
    ));
}

/// Going on at the second of a list of statements is the same as starting the
/// rest of it.
proof fn lemma_second(
    env: Env,
    s: State,
    statements: Seq<Statement>,
    exit: Option<Word>,
    loop_context: LoopContext,
)
    requires
        1 <= statements.len(),
    ensures
        statements_run(env, s, statements, 1, exit, loop_context) == statements_run(
            env,
            s,
            statements.skip(1),
            0,
            exit,
            loop_context,
        ),
    decreases statements.len(),
{
    assert(statements.skip(1).skip(0) =~= statements.skip(1));
    lemma_later(env, s, statements, 1, statements.skip(1), 0, exit, loop_context);
}

/// Two lists of statements that go on in the same way are the same from there.
proof fn lemma_later(
    env: Env,
    s: State,
    statements: Seq<Statement>,
    index: nat,
    others: Seq<Statement>,
    other: nat,
    exit: Option<Word>,
    loop_context: LoopContext,
)
    requires
        index <= statements.len(),
        other <= others.len(),
        statements.skip(index as int) == others.skip(other as int),
    ensures
        statements_run(env, s, statements, index, exit, loop_context) == statements_run(
            env,
            s,
            others,
            other,
            exit,
            loop_context,
        ),
    decreases statements.len() - index,
{
    let rest = statements.skip(index as int);
    assert(rest.len() == others.len() - other);
    if index < statements.len() {
        assert(rest[0] == statements[index as int]);
        assert(others.skip(other as int)[0] == others[other as int]);
        assert(statements.skip(index as int + 1) =~= rest.skip(1));
        assert(others.skip(other as int + 1) =~= others.skip(other as int).skip(1));
        match statements[index as int] {
            Statement::Block(_)
            | Statement::If { .. }
            | Statement::Switch { .. }
            | Statement::Loop { .. } => {
                if let Some((code, Ok(merge))) = compound_run(
                    env,
                    s,
                    statements[index as int],
                    loop_context,
                ) {
                    lemma_later(
                        env,
                        code.begin(merge),
                        statements,
                        index + 1,
                        others,
                        other + 1,
                        exit,
                        loop_context,
                    );
                }
            },
            plain => {
                if let Some((s1, Ok(_))) = plain_run(env, s, plain) {
                    lemma_later(
                        env,
                        s1,
                        statements,
                        index + 1,
                        others,
                        other + 1,
                        exit,
                        loop_context,
                    );
                }
            },
        }
    }
}

/// Whether a statement sends control elsewhere.
pub open spec fn departs(statement: Statement) -> bool {
    match statement {
        Statement::Break | Statement::Continue | Statement::Return { .. } | Statement::Kill => true,
        _ => false,
    }
}

/// Whether other statements are part of a statement.
pub open spec fn has_parts(statement: Statement) -> bool {
    match statement {
        Statement::Block(_)
        | Statement::If { .. }
        | Statement::Switch { .. }
        | Statement::Loop { .. } => true,
        _ => false,
    }
}

/// Statements are generated in the order in which they stand: what follows one
/// goes on in the block that it leaves off in, or in the block where the ways
/// that it branches to come together. What follows one that sends control
/// elsewhere is not generated.
pub proof fn law_statements_in_order(
    env: Env,
    s: State,
    statements: Seq<Statement>,
    exit: Option<Word>,
    loop_context: LoopContext,
    end: Code,
    result: Result<(), Error>,
)
    requires
        statements.len() > 0,
        statements_run(env, s, statements, 0, exit, loop_context) == Some((end, result)),
    ensures
        ({
            let rest = statements.skip(1);
            if departs(statements[0]) {
                statements_run(env, s, seq![statements[0]], 0, exit, loop_context) == Some(
                    (end, result),
                )
            } else if has_parts(statements[0]) {
                match compound_run(env, s, statements[0], loop_context) {
                    Some((code, Ok(label))) => block_run(
                        env,
                        code,
                        label,
                        rest,
                        exit,
                        loop_context,
                    ) == Some((end, result)),
                    Some((code, Err(error))) => end == code && result == Err::<(), Error>(error),
                    None => false,
                }
            } else {
                match plain_run(env, s, statements[0]) {
                    Some((s1, Ok(_))) => statements_run(
                        env,
                        s1,
                        rest,
                        0,
                        exit,
                        loop_context,
                    ) == Some((end, result)),
                    Some((s1, Err(error))) => end == s1.code && result == Err::<(), Error>(error),
                    None => false,
                }
            }
        }),
{
    if has_parts(statements[0]) {
        if let Some((code, Ok(label))) = compound_run(env, s, statements[0], loop_context) {
            lemma_second(env, code.begin(label), statements, exit, loop_context);
        }
    } else if !departs(statements[0]) {
        if let Some((s1, Ok(_))) = plain_run(env, s, statements[0]) {
            lemma_second(env, s1, statements, exit, loop_context);
        }
    }
}

/// A `break` leads out of the innermost loop and a `continue` to what ends its
/// round, a discarded invocation ends, and a return without a value returns.
pub proof fn law_departures(
    env: Env,
    s: State,
    statement: Statement,
    exit: Option<Word>,
    loop_context: LoopContext,
    end: Code,
    result: Result<(), Error>,
)
    requires
        statements_run(env, s, seq![statement], 0, exit, loop_context) == Some((end, result)),
    ensures
        statement is Break ==> loop_context.break_id is Some && result is Ok && ends_with(
            s,
            end,
            effect_inst(spirv::Op::Branch, seq![loop_context.break_id.unwrap()]),
        ),
        statement is Continue ==> loop_context.continuing_id is Some && result is Ok && ends_with(
            s,
            end,
            effect_inst(spirv::Op::Branch, seq![loop_context.continuing_id.unwrap()]),
        ),
        statement is Kill ==> result is Ok && ends_with(
            s,
            end,
            effect_inst(spirv::Op::Kill, seq![]),
        ),
        statement == (Statement::Return { value: None }) ==> result is Ok && ends_with(
            s,
            end,
            effect_inst(spirv::Op::Return, seq![]),
        ),
{
    assert(seq![statement][0] == statement);
}

/// A return of a value returns it; an entry point stores it to its output
/// variables instead, and returns nothing.
pub proof fn law_returned_value(
    env: Env,
    s: State,
    value: ExprHandle,
    exit: Option<Word>,
    loop_context: LoopContext,
    end: Code,
    result: Result<(), Error>,
)
    requires
        statements_run(
            env,
            s,
            seq![Statement::Return { value: Some(value) }],
            0,
            exit,
            loop_context,
        ) == Some((end, result)),
    ensures
        match env.function.entry_point {
            None => result is Ok && ends_with(
                s,
                end,
                effect_inst(spirv::Op::ReturnValue, seq![id_of(s, value)]),
            ),
            Some(entry_point) => match result {
                Ok(_) => {
                    let block = end.blocks.last();
                    let body = block.body.drop_last();
                    &&& end.blocks.len() == s.code.blocks.len() + 1
                    &&& end.blocks.drop_last() == s.code.blocks
                    &&& end.cached == s.code.cached
                    &&& block.label == s.block.label
                    &&& block.body.last() == effect_inst(spirv::Op::Return, seq![])
                    &&& block.body.len() > 0
                    &&& begins_with(body, s.block.body)
                    &&& stores_outputs(
                        env.writer,
                        end.writer,
                        body,
                        s.block.body.len() as int,
                        id_of(s, value),
                        env.fun.result.unwrap().binding is Some,
                        entry_point.results,
                    )
                },
                Err(_) => false,
            },
        },
{
    let statement = Statement::Return { value: Some(value) };
    assert(seq![statement][0] == statement);
    reveal(return_run);
    if let Some(entry_point) = env.function.entry_point {
        let o = Output { writer: s.code.writer, body: s.block.body };
        law_entry_point_outputs(
            env.writer,
            o,
            id_of(s, value),
            env.fun.result.unwrap().binding is Some,
            entry_point.results,
        );
        if result is Ok {
            let o1 = results_run(
                env.writer,
                o,
                id_of(s, value),
                env.fun.result.unwrap().binding is Some,
                entry_point.results,
                0,
            ).unwrap().0;
            assert(end.blocks.last().body.drop_last() =~= o1.body);
            assert(end.blocks.drop_last() =~= s.code.blocks);
        }
    }
}

/// Control that runs off the end of a list of statements goes to its exit, if
/// there is one. Otherwise the function returns: zero if it owes a value.
pub proof fn law_end_of_statements(
    env: Env,
    s: State,
    exit: Option<Word>,
    loop_context: LoopContext,
    end: Code,
    result: Result<(), Error>,
)
    requires
        statements_run(env, s, Seq::empty(), 0, exit, loop_context) == Some((end, result)),
    ensures
        match (exit, env.fun.result, env.function.entry_point) {
            (Some(label), _, _) => result is Ok && ends_with(
                s,
                end,
                effect_inst(spirv::Op::Branch, seq![label]),
            ),
            (None, Some(owed), None) => match result {
                Ok(_) => {
                    let zero = end.writer.declarations.last();
                    &&& is_id_of(end.writer, LookupType::Handle(owed.ty), zero.type_id.unwrap())
                    &&& zero == value_inst(
                        spirv::Op::ConstantNull,
                        zero.type_id.unwrap(),
                        zero.result_id.unwrap(),
                        seq![],
                    )
                    &&& end.cached == s.code.cached
                    &&& end.blocks == s.code.blocks.push(
                        Blk {
                            label: s.block.label,
                            body: s.block.body.push(
                                effect_inst(
                                    spirv::Op::ReturnValue,
                                    seq![zero.result_id.unwrap()],
                                ),
                            ),
                        },
                    )
                },
                Err(_) => false,
            },
            _ => result is Ok && ends_with(s, end, effect_inst(spirv::Op::Return, seq![])),
        },
{
    reveal(end_run);
    if let (None, Some(owed), None) = (exit, env.fun.result, env.function.entry_point) {
        let ty = LookupType::Handle(owed.ty);
        crate::laws::lemma_type_found(env, s, ty);
        lemma_type_error(s.code.writer, env.strict(), ty);
    }
}

/// Blocks are generated into a block that has nothing but its label yet.
pub proof fn law_first_block_begins_empty(
    env: Env,
    code: Code,
    label: Word,
    statements: Seq<Statement>,
    exit: Option<Word>,
    loop_context: LoopContext,
)
    ensures
        block_run(env, code, label, statements, exit, loop_context) == statements_run(
            env,
            State { code, block: Blk { label, body: Seq::empty() } },
            statements,
            0,
            exit,
            loop_context,
        ),
{
    assert(code.begin(label) == (State { code, block: Blk { label, body: Seq::empty() } }));
}

} // verus!
