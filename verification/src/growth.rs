//! What every step of generating code keeps.
//!
//! A step may add declarations, blocks and instructions, but it takes nothing
//! back; it defines fresh ids only, each of them once; and the blocks that it
//! ends have the shape that a SPIR-V function asks for.

use spirv::Word;
use vstd::prelude::*;
use crate::context::{Code, Env, State};
use crate::declarations::{
    declared, lemma_constant_declared, lemma_declared_other, lemma_type_declared,
};
use crate::function::Blk;
use crate::instruction::{is_terminator, Inst};
use crate::ir::{Bytes, ExprHandle, ScalarValue};
use crate::run::{Error, Run};
use crate::types::{value_type, LookupType};
use crate::writer::WriterState;

verus! {

/// Whether a list begins with another one.
pub open spec fn begins_with<A>(list: Seq<A>, first: Seq<A>) -> bool {
    &&& first.len() <= list.len()
    &&& forall|i: int| 0 <= i < first.len() ==> #[trigger] list[i] == first[i]
}

/// Whether a map holds all that another one holds.
pub open spec fn holds<K, V>(map: Map<K, V>, part: Map<K, V>) -> bool {
    forall|key: K| #[trigger]
        part.contains_key(key) ==> map.contains_key(key) && map[key] == part[key]
}

/// Whether an opcode names the blocks where control flow comes together.
pub open spec fn is_merge(op: spirv::Op) -> bool {
    op == spirv::Op::SelectionMerge || op == spirv::Op::LoopMerge
}

/// Whether control passes an instruction in a straight line.
pub open spec fn straight(inst: Inst) -> bool {
    !is_terminator(inst.op) && !is_merge(inst.op)
}

/// Whether control passes a list of instructions in a straight line.
pub open spec fn straight_body(body: Seq<Inst>) -> bool {
    forall|i: int| 0 <= i < body.len() ==> straight(#[trigger] body[i])
}

/// Whether a block is complete: it ends with a termination instruction and
/// holds no other, a merge instruction can only stand right before it, and
/// does so wherever control goes two or more ways.
pub open spec fn ended(block: Blk) -> bool {
    let last = block.body.len() - 1;
    &&& 0 <= last
    &&& is_terminator(block.body[last].op)
    &&& forall|i: int| 0 <= i < last - 1 ==> straight(#[trigger] block.body[i])
    &&& 1 <= last ==> !is_terminator(block.body[last - 1].op)
    &&& block.body[last].op == spirv::Op::BranchConditional || block.body[last].op
        == spirv::Op::Switch ==> 1 <= last && block.body[last - 1].op == spirv::Op::SelectionMerge
}

/// Whether an instruction names a block by its label, as one that control goes
/// to from here or comes together in.
pub open spec fn mentions(inst: Inst, label: Word) -> bool {
    if inst.op == spirv::Op::Branch || inst.op == spirv::Op::SelectionMerge {
        inst.operands[0] == label
    } else if inst.op == spirv::Op::LoopMerge {
        inst.operands[0] == label || inst.operands[1] == label
    } else if inst.op == spirv::Op::BranchConditional {
        inst.operands[1] == label || inst.operands[2] == label
    } else if inst.op == spirv::Op::Switch {
        exists|i: int|
            0 <= i && 2 * i + 1 < inst.operands.len() && #[trigger] inst.operands[2 * i + 1]
                == label
    } else {
        false
    }
}

/// Whether an instruction of a block names another block by its label.
pub open spec fn block_mentions(block: Blk, label: Word) -> bool {
    exists|i: int| 0 <= i < block.body.len() && mentions(#[trigger] block.body[i], label)
}

/// Whether one of the blocks from `blocks[from]` on has a label.
pub open spec fn labelled(blocks: Seq<Blk>, from: int, label: Word) -> bool {
    exists|i: int| from <= i < blocks.len() && (#[trigger] blocks[i]).label == label
}

/// How many times a list of instructions defines an id.
pub open spec fn body_defs(body: Seq<Inst>, id: Word) -> nat
    decreases body.len(),
{
    if body.len() == 0 {
        0
    } else {
        body_defs(body.drop_last(), id) + defs(body.last(), id)
    }
}

/// How many times an instruction defines an id.
pub open spec fn defs(inst: Inst, id: Word) -> nat {
    if inst.result_id == Some(id) {
        1
    } else {
        0
    }
}

/// How many times a block defines an id: by its label, and by its
/// instructions.
pub open spec fn block_defs(block: Blk, id: Word) -> nat {
    same(block.label, id) + body_defs(block.body, id)
}

/// One if two ids are the same, else zero.
pub open spec fn same(a: Word, b: Word) -> nat {
    if a == b {
        1
    } else {
        0
    }
}

/// How many times a list of blocks defines an id.
pub open spec fn blocks_defs(blocks: Seq<Blk>, id: Word) -> nat
    decreases blocks.len(),
{
    if blocks.len() == 0 {
        0
    } else {
        blocks_defs(blocks.drop_last(), id) + block_defs(blocks.last(), id)
    }
}

/// How many times the module's declarations and the function's blocks define
/// an id.
pub open spec fn code_defs(code: Code, id: Word) -> nat {
    body_defs(code.writer.declarations, id) + blocks_defs(code.blocks, id)
}

/// How many times an id is defined, the current block counted in.
pub open spec fn state_defs(s: State, id: Word) -> nat {
    code_defs(s.code, id) + block_defs(s.block, id)
}

/// One if an id lies after `low` and not after `high`, else zero.
pub open spec fn span(id: Word, low: Word, high: Word) -> nat {
    if low < id && id <= high {
        1
    } else {
        0
    }
}

/// Whether a module is what another one has grown to.
pub open spec fn writer_grown(strict: bool, base: WriterState, w: WriterState) -> bool {
    &&& base.last_id <= w.last_id
    &&& holds(w.types, base.types)
    &&& holds(w.constants, base.constants)
    &&& begins_with(w.declarations, base.declarations)
    &&& base.capabilities.subset_of(w.capabilities)
    &&& strict ==> w.capabilities == base.capabilities
}

/// Whether a module is what another one has grown to, and declares all types and
/// constants as what they are if that one did.
pub open spec fn writer_kept(strict: bool, base: WriterState, w: WriterState) -> bool {
    &&& writer_grown(strict, base, w)
    &&& declared(base.types, base.constants, base.declarations) ==> declared(
        w.types,
        w.constants,
        w.declarations,
    )
}

/// Whether a list of blocks goes on where another list, with a block that is
/// not ended yet, has left off.
pub open spec fn goes_on(base: State, blocks: Seq<Blk>) -> bool {
    let next = base.code.blocks.len() as int;
    &&& next < blocks.len()
    &&& begins_with(blocks, base.code.blocks)
    &&& blocks[next].label == base.block.label
    &&& begins_with(blocks[next].body, base.block.body)
}

/// Whether the way a block ends suits the function: an entry point returns no
/// value.
pub open spec fn suits(env: Env, block: Blk) -> bool {
    block.body.last().op == spirv::Op::ReturnValue ==> env.function.entry_point is None
}

/// Whether the blocks from `blocks[from]` on are complete, and name no blocks
/// but each other and those whose labels are in `known`.
pub open spec fn well_formed(env: Env, blocks: Seq<Blk>, from: int, known: Set<Word>) -> bool {
    &&& forall|i: int|
        from <= i < blocks.len() ==> ended(#[trigger] blocks[i]) && suits(env, blocks[i])
    &&& forall|i: int, label: Word|
        from <= i < blocks.len() && #[trigger] block_mentions(blocks[i], label) ==> labelled(
            blocks,
            from,
            label,
        ) || known.contains(label)
}

/// Whether a state is what another one has grown to, inside a block. The blocks
/// that were ended in between are well-formed, provided that the block that was
/// current at first was still a straight line.
#[verifier::opaque]
pub open spec fn grown(env: Env, known: Set<Word>, base: State, s: State) -> bool {
    &&& writer_kept(env.strict(), base.code.writer, s.code.writer)
    &&& s.code.cached.len() == base.code.cached.len()
    &&& begins_with(s.code.blocks, base.code.blocks)
    &&& goes_on(base, s.code.blocks.push(s.block))
    &&& straight_body(base.block.body) ==> straight_body(s.block.body) && well_formed(
        env,
        s.code.blocks,
        base.code.blocks.len() as int,
        known.insert(s.block.label),
    )
}

/// Whether a state is what another one has grown to, between blocks; see
/// [`grown`].
#[verifier::opaque]
pub open spec fn grown_code(env: Env, known: Set<Word>, base: State, code: Code) -> bool {
    &&& writer_kept(env.strict(), base.code.writer, code.writer)
    &&& code.cached.len() == base.code.cached.len()
    &&& goes_on(base, code.blocks)
    &&& straight_body(base.block.body) ==> well_formed(
        env,
        code.blocks,
        base.code.blocks.len() as int,
        known,
    )
}

/// Whether an error is one that the module's capabilities account for: one
/// that is strict may lack a capability.
pub open spec fn accounted<T>(strict: bool, w: WriterState, result: Result<T, Error>) -> bool {
    result matches Err(Error::MissingCapability(capability)) ==> strict
        && !w.capabilities.contains(capability)
}

/// Whether a step from `s` to `t` defines fresh ids only, each once at most.
pub open spec fn defines_fresh(s: State, t: State) -> bool {
    &&& s.id() <= t.id()
    &&& forall|id: Word| #[trigger]
        state_defs(t, id) <= state_defs(s, id) + span(id, s.id(), t.id())
}

/// Whether a step from `s` keeps what has grown from `base`, and defines fresh
/// ids only.
pub open spec fn sound<T>(
    env: Env,
    known: Set<Word>,
    base: State,
    s: State,
    run: Run<State, T>,
) -> bool {
    match run {
        Some((t, result)) => {
            &&& grown(env, known, base, t)
            &&& defines_fresh(s, t)
            &&& accounted(env.strict(), t.code.writer, result)
        },
        None => true,
    }
}

/// Whether a step leaves the values of all expressions as they are.
pub open spec fn keeps_values<T>(s: State, run: Run<State, T>) -> bool {
    match run {
        Some((t, _)) => t.code.cached == s.code.cached,
        None => true,
    }
}

/// Whether the value that a step gives is new: its id is fresh, and defined.
pub open spec fn gives_fresh(s: State, run: Run<State, Word>) -> bool {
    match run {
        Some((t, Ok(id))) => s.id() < id && id <= t.id() && state_defs(t, id) >= 1,
        _ => true,
    }
}

broadcast proof fn lemma_body_defs_push(body: Seq<Inst>, inst: Inst, id: Word)
    ensures
        #[trigger] body_defs(body.push(inst), id) == body_defs(body, id) + defs(inst, id),
{
    assert(body.push(inst).drop_last() =~= body);
}

broadcast proof fn lemma_blocks_defs_push(blocks: Seq<Blk>, block: Blk, id: Word)
    ensures
        #[trigger] blocks_defs(
            blocks.push(block),
            id,
        ) == blocks_defs(blocks, id) + block_defs(block, id),
{
    assert(blocks.push(block).drop_last() =~= blocks);
}

/// Whether a step of the module keeps what has grown from `base`, and declares
/// fresh ids only.
pub open spec fn writer_sound<T>(
    strict: bool,
    base: WriterState,
    w: WriterState,
    run: Run<WriterState, T>,
) -> bool {
    match run {
        Some((w1, result)) => {
            &&& writer_kept(strict, base, w1)
            &&& w.last_id <= w1.last_id
            &&& forall|id: Word| #[trigger]
                body_defs(w1.declarations, id) <= body_defs(w.declarations, id) + span(
                    id,
                    w.last_id,
                    w1.last_id,
                )
            &&& accounted(strict, w1, result)
        },
        None => true,
    }
}

/// What asking for a type keeps of the module.
pub proof fn lemma_writer_type_id(
    strict: bool,
    base: WriterState,
    w: WriterState,
    ty: LookupType,
)
    requires
        writer_kept(strict, base, w),
    ensures
        writer_sound(strict, base, w, w.type_id(strict, ty)),
    decreases ty.depth(),
{
    broadcast use lemma_body_defs_push;

    lemma_type_declared(w, strict, ty);
    if !w.types.contains_key(ty) {
        if let (LookupType::Local(local), Some(w1)) = (ty, w.fresh()) {
            if let Some(referenced) = local.referenced() {
                lemma_writer_type_id(strict, base, w1, referenced);
            }
        }
    }
}

pub proof fn lemma_writer_constant_id(
    strict: bool,
    base: WriterState,
    w: WriterState,
    value: ScalarValue,
    width: Bytes,
)
    requires
        writer_kept(strict, base, w),
    ensures
        writer_sound(strict, base, w, w.constant_id(strict, value, width)),
{
    broadcast use lemma_body_defs_push;

    lemma_constant_declared(w, strict, value, width);
    if let Some(w1) = w.fresh() {
        lemma_writer_type_id(strict, base, w1, value_type(None, value.scalar_kind(), width));
    }
}

/// A state whose module has grown has grown.
proof fn lemma_grown_writer(env: Env, known: Set<Word>, base: State, s: State, writer: WriterState)
    requires
        grown(env, known, base, s),
        writer_kept(env.strict(), base.code.writer, writer),
    ensures
        grown(env, known, base, State { code: Code { writer, ..s.code }, ..s }),
{
    reveal(grown);
}

/// Taking an id defines nothing.
pub broadcast proof fn lemma_fresh(env: Env, known: Set<Word>, base: State, s: State)
    requires
        grown(env, known, base, s),
    ensures
        #![trigger s.fresh(), grown(env, known, base, s)]
        match s.fresh() {
            Some(t) => {
                &&& grown(env, known, base, t)
                &&& forall|id: Word| #[trigger] state_defs(t, id) == state_defs(s, id)
            },
            None => true,
        },
{
    reveal(grown);
}

/// An instruction defines its result.
pub broadcast proof fn lemma_push_defs(s: State, inst: Inst, id: Word)
    ensures
        #[trigger] state_defs(s.push(inst), id) == state_defs(s, id) + defs(inst, id),
{
    lemma_body_defs_push(s.block.body, inst, id);
}

/// What adding an instruction keeps.
pub broadcast proof fn lemma_push(env: Env, known: Set<Word>, base: State, s: State, inst: Inst)
    requires
        grown(env, known, base, s),
        straight(inst),
    ensures
        #![trigger s.push(inst), grown(env, known, base, s)]
        grown(env, known, base, s.push(inst)),
{
    reveal(grown);
    let after = s.code.blocks.push(s.push(inst).block);
    assert(straight_body(s.block.body) ==> straight_body(s.push(inst).block.body));
    assert(goes_on(base, after));
}

/// What asking for a type keeps.
pub broadcast proof fn lemma_type_id(
    env: Env,
    known: Set<Word>,
    base: State,
    s: State,
    ty: LookupType,
)
    requires
        grown(env, known, base, s),
    ensures
        #![trigger s.type_id(env, ty), grown(env, known, base, s)]
        sound(env, known, base, s, s.type_id(env, ty)),
{
    assert(writer_kept(env.strict(), base.code.writer, s.code.writer)) by {
        reveal(grown);
    }
    lemma_writer_type_id(env.strict(), base.code.writer, s.code.writer, ty);
    if let Some((writer, _)) = s.code.writer.type_id(env.strict(), ty) {
        lemma_grown_writer(env, known, base, s, writer);
    }
}

/// What asking for a constant keeps.
pub broadcast proof fn lemma_constant_id(
    env: Env,
    known: Set<Word>,
    base: State,
    s: State,
    value: ScalarValue,
    width: Bytes,
)
    requires
        grown(env, known, base, s),
    ensures
        #![trigger s.constant_id(env, value, width), grown(env, known, base, s)]
        sound(env, known, base, s, s.constant_id(env, value, width)),
{
    assert(writer_kept(env.strict(), base.code.writer, s.code.writer)) by {
        reveal(grown);
    }
    lemma_writer_constant_id(env.strict(), base.code.writer, s.code.writer, value, width);
    if let Some((writer, _)) = s.code.writer.constant_id(env.strict(), value, width) {
        lemma_grown_writer(env, known, base, s, writer);
    }
}

/// What asking for an index constant keeps.
pub broadcast proof fn lemma_index_id(
    env: Env,
    known: Set<Word>,
    base: State,
    s: State,
    index: u32,
)
    requires
        grown(env, known, base, s),
    ensures
        #![trigger s.index_id(env, index), grown(env, known, base, s)]
        sound(env, known, base, s, s.index_id(env, index)),
{
    lemma_constant_id(env, known, base, s, ScalarValue::Uint(index as u64), 4);
}

/// What asking for a capability keeps.
pub broadcast proof fn lemma_check(
    env: Env,
    known: Set<Word>,
    base: State,
    s: State,
    capability: spirv::Capability,
)
    requires
        grown(env, known, base, s),
    ensures
        #![trigger s.check(env, capability), grown(env, known, base, s)]
        sound(env, known, base, s, Some(s.check(env, capability))),
{
    reveal(grown);
}

/// What declaring a zero value keeps.
pub broadcast proof fn lemma_null(
    env: Env,
    known: Set<Word>,
    base: State,
    s: State,
    type_id: Word,
)
    requires
        grown(env, known, base, s),
    ensures
        #![trigger s.null(type_id), grown(env, known, base, s)]
        match s.null(type_id) {
            Some(t) => {
                &&& grown(env, known, base, t)
                &&& t.id() == s.id() + 1
                &&& forall|id: Word| #[trigger]
                    state_defs(t, id) == state_defs(s, id) + same(t.id(), id)
            },
            None => true,
        },
{
    broadcast use lemma_body_defs_push;

    reveal(grown);
    let w = s.code.writer;
    if declared(w.types, w.constants, w.declarations) {
        if let Some(t) = s.null(type_id) {
            lemma_declared_other(
                w.types,
                w.constants,
                w.declarations,
                t.code.writer.declarations.last(),
            );
        }
    }
}

/// A value defines nothing by being cached.
pub broadcast proof fn lemma_cache(
    env: Env,
    known: Set<Word>,
    base: State,
    s: State,
    expr: ExprHandle,
    value: Word,
)
    requires
        grown(env, known, base, s),
    ensures
        #![trigger s.cache(expr, value), grown(env, known, base, s)]
        match s.cache(expr, value) {
            Some(t) => {
                &&& grown(env, known, base, t)
                &&& t.id() == s.id()
                &&& forall|id: Word| #[trigger] state_defs(t, id) == state_defs(s, id)
            },
            None => true,
        },
{
    reveal(grown);
}

/// Ends the current block, as `block`.
pub proof fn lemma_end(
    env: Env,
    known: Set<Word>,
    base: State,
    s: State,
    block: Blk,
    allowed: Set<Word>,
)
    requires
        grown(env, known, base, s),
        block.label == s.block.label,
        begins_with(block.body, s.block.body),
        straight_body(base.block.body) ==> ended(block) && suits(env, block),
        forall|label: Word| #[trigger]
            known.contains(label) ==> allowed.contains(label) || label == s.block.label,
        forall|label: Word|
            straight_body(base.block.body) && #[trigger] block_mentions(block, label)
                ==> allowed.contains(label) || label == s.block.label,
    ensures
        ({
            let code = Code { blocks: s.code.blocks.push(block), ..s.code };
            &&& grown_code(env, allowed, base, code)
            &&& forall|id: Word| #[trigger]
                code_defs(code, id) + body_defs(s.block.body, id) == state_defs(s, id) + body_defs(
                    block.body,
                    id,
                )
        }),
{
    broadcast use lemma_blocks_defs_push;

    reveal(grown);
    reveal(grown_code);
    let from = base.code.blocks.len() as int;
    let before = s.code.blocks;
    let after = before.push(block);
    assert(goes_on(base, after)) by {
        let open = before.push(s.block);
        assert(goes_on(base, open));
        assert(after[from].label == open[from].label);
        assert(begins_with(after[from].body, open[from].body));
    }
    assert(after[before.len() as int] == block);
    if straight_body(base.block.body) {
        assert forall|i: int, label: Word|
            from <= i < after.len() && #[trigger] block_mentions(after[i], label) implies labelled(
            after,
            from,
            label,
        ) || allowed.contains(label) by {
            if i < before.len() {
                assert(block_mentions(before[i], label));
                if labelled(before, from, label) {
                    let j = choose|j: int| from <= j < before.len() && (#[trigger] before[j]).label
                        == label;
                    assert(after[j].label == label);
                }
            }
        }
    }
}

/// Ends the current block by a jump or a return.
pub proof fn lemma_terminate(
    env: Env,
    known: Set<Word>,
    base: State,
    s: State,
    termination: Inst,
    allowed: Set<Word>,
)
    requires
        grown(env, known, base, s),
        is_terminator(termination.op),
        termination.op != spirv::Op::BranchConditional,
        termination.op != spirv::Op::Switch,
        termination.op == spirv::Op::ReturnValue ==> env.function.entry_point is None,
        termination.result_id is None,
        forall|label: Word| #[trigger] known.contains(label) ==> allowed.contains(label),
        forall|label: Word| #[trigger] mentions(termination, label) ==> allowed.contains(label),
    ensures
        grown_code(env, allowed, base, s.code.consume(s.block, termination)),
        forall|id: Word| #[trigger]
            code_defs(s.code.consume(s.block, termination), id) == state_defs(s, id),
{
    broadcast use lemma_body_defs_push;

    let block = s.block.push(termination);
    let last = s.block.body.len() as int;
    assert(block.body[last] == termination);
    if straight_body(base.block.body) {
        assert(straight_body(s.block.body)) by {
            reveal(grown);
        }
        assert forall|i: int| 0 <= i < last implies straight(#[trigger] block.body[i]) by {
            assert(block.body[i] == s.block.body[i]);
        }
        assert forall|label: Word| #[trigger]
            block_mentions(block, label) implies allowed.contains(label) by {
            let i = choose|i: int|
                0 <= i < block.body.len() && mentions(#[trigger] block.body[i], label);
            assert(i == last);
        }
    }
    lemma_end(env, known, base, s, block, allowed);
    assert forall|id: Word| #[trigger]
        code_defs(s.code.consume(s.block, termination), id) == state_defs(s, id) by {
        assert(body_defs(block.body, id) == body_defs(s.block.body, id) + defs(termination, id));
    }
}

/// Ends the current block where control goes several ways, or where a loop
/// begins.
pub proof fn lemma_fork(
    env: Env,
    known: Set<Word>,
    base: State,
    s: State,
    merge: Inst,
    termination: Inst,
    allowed: Set<Word>,
)
    requires
        grown(env, known, base, s),
        is_merge(merge.op),
        is_terminator(termination.op),
        merge.op == spirv::Op::SelectionMerge || termination.op == spirv::Op::Branch,
        termination.op != spirv::Op::ReturnValue,
        merge.result_id is None,
        termination.result_id is None,
        forall|label: Word| #[trigger] known.contains(label) ==> allowed.contains(label),
        forall|label: Word| #[trigger] mentions(merge, label) ==> allowed.contains(label),
        forall|label: Word| #[trigger] mentions(termination, label) ==> allowed.contains(label),
    ensures
        grown_code(env, allowed, base, s.code.consume(s.block.push(merge), termination)),
        forall|id: Word| #[trigger]
            code_defs(s.code.consume(s.block.push(merge), termination), id) == state_defs(s, id),
{
    broadcast use lemma_body_defs_push;

    let block = s.block.push(merge).push(termination);
    let last = s.block.body.len() as int + 1;
    assert(block.body[last] == termination);
    assert(block.body[last - 1] == merge);
    if straight_body(base.block.body) {
        assert(straight_body(s.block.body)) by {
            reveal(grown);
        }
        assert forall|i: int| 0 <= i < last - 1 implies straight(#[trigger] block.body[i]) by {
            assert(block.body[i] == s.block.body[i]);
        }
        assert forall|label: Word| #[trigger]
            block_mentions(block, label) implies allowed.contains(label) by {
            let i = choose|i: int|
                0 <= i < block.body.len() && mentions(#[trigger] block.body[i], label);
            assert(i == last || i == last - 1);
        }
    }
    lemma_end(env, known, base, s, block, allowed);
}

/// Begins a block.
pub proof fn lemma_begin(
    env: Env,
    allowed: Set<Word>,
    base: State,
    code: Code,
    label: Word,
    known: Set<Word>,
)
    requires
        grown_code(env, allowed, base, code),
        forall|l: Word| #[trigger]
            allowed.contains(l) ==> known.contains(l) || l == label || labelled(
                code.blocks,
                base.code.blocks.len() as int,
                l,
            ),
    ensures
        grown(env, known, base, code.begin(label)),
        forall|id: Word| #[trigger]
            state_defs(code.begin(label), id) == code_defs(code, id) + same(label, id),
{
    reveal(grown);
    reveal(grown_code);
    let s = code.begin(label);
    assert(goes_on(base, s.code.blocks.push(s.block)));
}

/// What single steps inside a block keep.
pub broadcast group group_steps {
    lemma_fresh,
    lemma_push_defs,
    lemma_push,
    lemma_type_id,
    lemma_constant_id,
    lemma_index_id,
    lemma_check,
    lemma_null,
    lemma_cache,
}

} // verus!
