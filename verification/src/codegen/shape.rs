//! How the module grows while code is generated: what a step of the
//! evaluator may change, and what it leaves finished.
use vstd::prelude::*;
use crate::ir::arithmetic::binary;
use crate::ir::condition::compare;
use crate::ir::creator::{BinaryOp, CreatorView, Instruction, IntPredicate, ModuleView, Value};
use crate::ir::function::call;
use crate::ir::llvm_type::{FunctionTypeView, LLVMType};
use crate::ir::operate::{alloca, load, store};
use crate::codegen::lowering::{EvalView, branch_block, branched};
use crate::ir::creator::{BlockRef, Terminator};

verus! {

/// Whether every block of every function of the module has a terminator.
pub open spec fn complete(m: ModuleView) -> bool {
    forall|g: int, j: int|
        0 <= g < m.functions.len() && 0 <= j < m.functions[g].blocks.len()
            ==> (#[trigger] m.functions[g].blocks[j]).terminator is Some
}

/// Whether every block of the module has a terminator, but for the block
/// at the cursor.
pub open spec fn complete_but_cursor(s: CreatorView) -> bool {
    forall|g: int, j: int|
        0 <= g < s.module.functions.len() && 0 <= j < s.module.functions[g].blocks.len() && !(g
            == s.cursor.unwrap().function && j == s.cursor.unwrap().index)
            ==> (#[trigger] s.module.functions[g].blocks[j]).terminator is Some
}

/// That `b` has come out of `a` by generating code at the cursor:
///
/// - the cursor is still in the same function, at the same block or at one
///   that `a` did not have;
/// - the other functions of `a` and the other blocks of the cursor's
///   function are as they were, and the registers that `a` had keep their
///   types;
/// - every block that `a` did not have is finished, but for the one at the
///   cursor of `b`; and the block at the cursor of `a` is finished where
///   the cursor has left it.
#[verifier::opaque]
pub open spec fn extends(a: CreatorView, b: CreatorView) -> bool {
    let f = a.here();
    let k = a.cursor.unwrap().index as int;
    let at = b.cursor.unwrap().index as int;
    let old_blocks = a.module.functions[f].blocks;
    let new_blocks = b.module.functions[f].blocks;
    &&& a.positioned()
    &&& b.positioned()
    &&& b.here() == f
    &&& a.module.functions.len() <= b.module.functions.len()
    &&& forall|g: int|
        0 <= g < a.module.functions.len() && g != f ==> #[trigger] b.module.functions[g]
            == a.module.functions[g]
    &&& b.module.functions[f].ty == a.module.functions[f].ty
    &&& b.module.functions[f].name == a.module.functions[f].name
    &&& old_blocks.len() <= new_blocks.len()
    &&& forall|j: int| 0 <= j < old_blocks.len() && j != k ==> #[trigger] new_blocks[j] == old_blocks[j]
    &&& (at == k || at >= old_blocks.len())
    &&& forall|j: int|
        old_blocks.len() <= j < new_blocks.len() && j != at ==> (#[trigger] new_blocks[j]).terminator is Some
    &&& forall|g: int, j: int|
        a.module.functions.len() <= g < b.module.functions.len() && 0 <= j
            < b.module.functions[g].blocks.len()
            ==> (#[trigger] b.module.functions[g].blocks[j]).terminator is Some
    &&& (at != k ==> new_blocks[k].terminator is Some)
    &&& a.module.functions[f].registers.len() <= b.module.functions[f].registers.len()
    &&& forall|r: int|
        0 <= r < a.module.functions[f].registers.len() ==> (
        #[trigger] b.module.functions[f].registers[r]).ty == a.module.functions[f].registers[r].ty
}

/// No code at all is code generated at the cursor.
pub proof fn lemma_extends_self(a: CreatorView)
    requires
        a.positioned(),
    ensures
        extends(a, a),
{
    reveal(extends);
}

/// Code generated at the cursor, twice over, is code generated at the cursor.
pub proof fn lemma_extends_trans(a: CreatorView, b: CreatorView, c: CreatorView)
    requires
        extends(a, b),
        extends(b, c),
    ensures
        extends(a, c),
{
    reveal(extends);
    let f = a.here();
    let k = a.cursor.unwrap().index as int;
    let kb = b.cursor.unwrap().index as int;
    let at = c.cursor.unwrap().index as int;
    assert forall|g: int| 0 <= g < a.module.functions.len() && g != f implies c.module.functions[g]
        == a.module.functions[g] by {
        assert(b.module.functions[g] == a.module.functions[g]);
        assert(c.module.functions[g] == b.module.functions[g]);
    }
    assert forall|j: int| 0 <= j < a.module.functions[f].blocks.len() && j != k implies
        c.module.functions[f].blocks[j] == a.module.functions[f].blocks[j] by {
        assert(b.module.functions[f].blocks[j] == a.module.functions[f].blocks[j]);
        assert(c.module.functions[f].blocks[j] == b.module.functions[f].blocks[j]);
    }
    assert forall|j: int|
        a.module.functions[f].blocks.len() <= j < c.module.functions[f].blocks.len() && j
            != at implies c.module.functions[f].blocks[j].terminator is Some by {
        if j < b.module.functions[f].blocks.len() {
            if j != kb {
                assert(b.module.functions[f].blocks[j].terminator is Some);
                assert(c.module.functions[f].blocks[j] == b.module.functions[f].blocks[j]);
            }
        }
    }
    assert forall|g: int, j: int|
        a.module.functions.len() <= g < c.module.functions.len() && 0 <= j
            < c.module.functions[g].blocks.len() implies c.module.functions[g].blocks[j].terminator is Some by {
        if g < b.module.functions.len() {
            assert(c.module.functions[g] == b.module.functions[g]);
            assert(b.module.functions[g].blocks[j].terminator is Some);
        }
    }
    if at != k {
        if kb != k {
            assert(b.module.functions[f].blocks[k].terminator is Some);
            assert(c.module.functions[f].blocks[k] == b.module.functions[f].blocks[k]);
        }
    }
    assert forall|r: int| 0 <= r < a.module.functions[f].registers.len() implies
        c.module.functions[f].registers[r].ty == a.module.functions[f].registers[r].ty by {
        assert(b.module.functions[f].registers[r].ty == a.module.functions[f].registers[r].ty);
        assert(c.module.functions[f].registers[r].ty == b.module.functions[f].registers[r].ty);
    }
}

/// An instruction at the cursor changes the cursor's block alone.
pub proof fn lemma_extends_emit(a: CreatorView, inst: Instruction)
    requires
        a.positioned(),
    ensures
        extends(a, a.emit(inst)),
        a.emit(inst).open() == a.open(),
        a.emit(inst).cursor == a.cursor,
        a.emit(inst).module.functions.len() == a.module.functions.len(),
        a.emit(inst).current_function().blocks.len() == a.current_function().blocks.len(),
        forall|v: Value| a.emit(inst).module.type_of(v) == a.module.type_of(v),
{
    reveal(extends);
}

/// A new register changes the register table of the cursor's function alone.
pub proof fn lemma_extends_define(a: CreatorView, ty: LLVMType, name: Seq<char>)
    requires
        a.positioned(),
    ensures
        extends(a, a.define(ty, name)),
        a.define(ty, name).open() == a.open(),
        a.define(ty, name).cursor == a.cursor,
        a.define(ty, name).module.functions.len() == a.module.functions.len(),
        a.define(ty, name).current_function().blocks.len() == a.current_function().blocks.len(),
        a.current_function().registers.len() < usize::MAX ==> a.define(ty, name).module.type_of(
            a.next_register(),
        ) == ty,
{
    reveal(extends);
}

/// New pooled arguments change the argument pool of the cursor's function
/// alone.
pub proof fn lemma_extends_pool(a: CreatorView, args: Seq<Value>)
    requires
        a.positioned(),
    ensures
        extends(a, a.pool(args)),
        a.pool(args).open() == a.open(),
        a.pool(args).cursor == a.cursor,
        a.pool(args).module.functions.len() == a.module.functions.len(),
        a.pool(args).current_function().blocks.len() == a.current_function().blocks.len(),
{
    reveal(extends);
}

/// An `alloca` changes the cursor's block and the register table alone;
/// its result is an address.
pub proof fn lemma_extends_alloca(a: CreatorView, ty: LLVMType, name: Seq<char>)
    requires
        a.positioned(),
    ensures
        extends(a, alloca(a, ty, name).0),
        alloca(a, ty, name).0.open() == a.open(),
        alloca(a, ty, name).0.cursor == a.cursor,
        a.current_function().registers.len() < usize::MAX ==> alloca(a, ty, name).0.module.type_of(
            alloca(a, ty, name).1,
        ) == LLVMType::Pointer,
{
    let b = a.define(LLVMType::Pointer, name);
    lemma_extends_define(a, LLVMType::Pointer, name);
    let inst = Instruction::Alloca { dest: a.next_register()->Register_index, ty };
    lemma_extends_emit(b, inst);
    lemma_extends_trans(a, b, b.emit(inst));
}

/// A fresh cell that is written at once changes the cursor's block and the
/// register table alone; its address is an address.
pub proof fn lemma_extends_cell(a: CreatorView, ty: LLVMType, name: Seq<char>, value: Value)
    requires
        a.positioned(),
    ensures
        ({
            let (after, cell) = alloca(a, ty, name);
            let written = store(after, value, cell);
            &&& extends(a, written)
            &&& written.open() == a.open()
            &&& written.cursor == a.cursor
            &&& a.current_function().registers.len() < usize::MAX ==> written.module.type_of(cell)
                == LLVMType::Pointer
        }),
{
    let (after, cell) = alloca(a, ty, name);
    lemma_extends_alloca(a, ty, name);
    lemma_extends_store(after, value, cell);
    lemma_extends_emit(after, Instruction::Store { value, target: cell });
    lemma_extends_trans(a, after, store(after, value, cell));
}

/// A `store` changes the cursor's block alone.
pub proof fn lemma_extends_store(a: CreatorView, value: Value, target: Value)
    requires
        a.positioned(),
    ensures
        extends(a, store(a, value, target)),
        store(a, value, target).open() == a.open(),
        store(a, value, target).cursor == a.cursor,
{
    lemma_extends_emit(a, Instruction::Store { value, target });
}

/// A `load` changes the cursor's block and the register table alone.
pub proof fn lemma_extends_load(a: CreatorView, ty: LLVMType, source: Value, name: Seq<char>)
    requires
        a.positioned(),
    ensures
        extends(a, load(a, ty, source, name).0),
        load(a, ty, source, name).0.open() == a.open(),
        load(a, ty, source, name).0.cursor == a.cursor,
{
    let b = a.define(ty, name);
    lemma_extends_define(a, ty, name);
    let inst = Instruction::Load { dest: a.next_register()->Register_index, ty, source };
    lemma_extends_emit(b, inst);
    lemma_extends_trans(a, b, b.emit(inst));
}

/// An arithmetic operation changes the cursor's block and the register
/// table alone.
pub proof fn lemma_extends_binary(
    a: CreatorView,
    op: BinaryOp,
    left: Value,
    right: Value,
    name: Seq<char>,
)
    requires
        a.positioned(),
    ensures
        extends(a, binary(a, op, left, right, name).0),
        binary(a, op, left, right, name).0.open() == a.open(),
        binary(a, op, left, right, name).0.cursor == a.cursor,
{
    lemma_extends_self(a);
    let ty = a.module.type_of(left);
    let b = a.define(ty, name);
    lemma_extends_define(a, ty, name);
    let inst = Instruction::Binary { dest: a.next_register()->Register_index, op, left, right };
    lemma_extends_emit(b, inst);
    lemma_extends_trans(a, b, b.emit(inst));
}

/// A comparison changes the cursor's block and the register table alone.
pub proof fn lemma_extends_compare(
    a: CreatorView,
    predicate: IntPredicate,
    left: Value,
    right: Value,
    name: Seq<char>,
)
    requires
        a.positioned(),
    ensures
        extends(a, compare(a, predicate, left, right, name).0),
        compare(a, predicate, left, right, name).0.open() == a.open(),
        compare(a, predicate, left, right, name).0.cursor == a.cursor,
{
    lemma_extends_self(a);
    let b = a.define(LLVMType::Int1, name);
    lemma_extends_define(a, LLVMType::Int1, name);
    let inst = Instruction::Compare {
        dest: a.next_register()->Register_index,
        predicate,
        left,
        right,
    };
    lemma_extends_emit(b, inst);
    lemma_extends_trans(a, b, b.emit(inst));
}

/// A call changes the cursor's block, the register table and the argument
/// pool alone.
pub proof fn lemma_extends_call(
    a: CreatorView,
    func_type: FunctionTypeView,
    function: Value,
    args: Seq<Value>,
    name: Seq<char>,
)
    requires
        a.positioned(),
    ensures
        extends(a, call(a, func_type, function, args, name).0),
        call(a, func_type, function, args, name).0.open() == a.open(),
        call(a, func_type, function, args, name).0.cursor == a.cursor,
{
    let b = a.pool(args);
    lemma_extends_pool(a, args);
    let c = b.define(func_type.return_type, name);
    lemma_extends_define(b, func_type.return_type, name);
    lemma_extends_trans(a, b, c);
    let inst = Instruction::Call {
        dest: a.next_register()->Register_index,
        callee: function,
        first_arg: a.current_function().call_args.len() as usize,
        arg_count: args.len() as usize,
    };
    lemma_extends_emit(c, inst);
    lemma_extends_trans(a, c, c.emit(inst));
}

/// That the evaluator can generate code: its invariant holds and the
/// cursor's block takes instructions.
pub open spec fn ready(st: EvalView) -> bool {
    st.wf() && st.lc.open()
}

/// That the evaluator has gone from `before` to `after` by generating code
/// at the cursor, and can go on.
pub open spec fn advanced(before: EvalView, after: EvalView) -> bool {
    &&& ready(after)
    &&& extends(before.lc, after.lc)
    &&& after.stack == before.stack
    &&& after.main_block == before.main_block
}

/// That the evaluator has gone from `before` to `after` by generating code
/// at the cursor, and has ended the cursor's block.
pub open spec fn finished(before: EvalView, after: EvalView) -> bool {
    &&& after.wf()
    &&& !after.lc.open()
    &&& extends(before.lc, after.lc)
    &&& after.stack == before.stack
    &&& after.main_block == before.main_block
}

/// An evaluator that is ready has gone on from itself.
pub proof fn lemma_advanced_self(a: EvalView)
    requires
        ready(a),
    ensures
        advanced(a, a),
{
    lemma_extends_self(a.lc);
}

/// Going on twice is going on.
pub proof fn lemma_advanced_trans(a: EvalView, b: EvalView, c: EvalView)
    requires
        advanced(a, b) || (extends(a.lc, b.lc) && a.stack == b.stack && a.main_block
            == b.main_block),
        advanced(b, c),
    ensures
        advanced(a, c),
{
    lemma_extends_trans(a.lc, b.lc, c.lc);
}

/// A terminator at the cursor ends the cursor's block and changes nothing
/// else.
pub proof fn lemma_finished_terminate(a: EvalView, b: EvalView, terminator: crate::ir::creator::Terminator)
    requires
        advanced(a, b),
    ensures
        finished(a, b.with(b.lc.terminate(terminator))),
{
    reveal(extends);
    let c = b.lc.terminate(terminator);
    let f = b.lc.here();
    let k = b.lc.cursor.unwrap().index as int;
    assert(c.module.functions[f].blocks[k].terminator is Some);
    assert(extends(b.lc, c));
    lemma_extends_trans(a.lc, b.lc, c);
}

/// That `b` is a state in the middle of a conditional that started in
/// `a`: the three blocks of the conditional exist, those from number `lo`
/// on are still untouched, and everything else that `a` did not have is
/// finished, but for the block at the cursor.
#[verifier::opaque]
pub open spec fn forked(a: CreatorView, b: CreatorView, lo: int) -> bool {
    let f = a.here();
    let k = a.cursor.unwrap().index as int;
    let n = a.module.functions[f].blocks.len() as int;
    let at = b.cursor.unwrap().index as int;
    let old_blocks = a.module.functions[f].blocks;
    let new_blocks = b.module.functions[f].blocks;
    &&& a.positioned()
    &&& b.positioned()
    &&& b.here() == f
    &&& n + 3 <= usize::MAX
    &&& n < lo <= n + 3
    &&& a.module.functions.len() <= b.module.functions.len()
    &&& forall|g: int|
        0 <= g < a.module.functions.len() && g != f ==> #[trigger] b.module.functions[g]
            == a.module.functions[g]
    &&& b.module.functions[f].ty == a.module.functions[f].ty
    &&& b.module.functions[f].name == a.module.functions[f].name
    &&& n + 3 <= new_blocks.len()
    &&& forall|j: int| 0 <= j < n && j != k ==> #[trigger] new_blocks[j] == old_blocks[j]
    &&& new_blocks[k].terminator is Some
    &&& n <= at
    &&& !(lo <= at < n + 3)
    &&& forall|j: int| lo <= j < n + 3 ==> (#[trigger] new_blocks[j]).terminator is None
    &&& forall|j: int|
        n <= j < new_blocks.len() && j != at && !(lo <= j < n + 3) ==> (
        #[trigger] new_blocks[j]).terminator is Some
    &&& forall|g: int, j: int|
        a.module.functions.len() <= g < b.module.functions.len() && 0 <= j
            < b.module.functions[g].blocks.len()
            ==> (#[trigger] b.module.functions[g].blocks[j]).terminator is Some
    &&& a.module.functions[f].registers.len() <= b.module.functions[f].registers.len()
    &&& forall|r: int|
        0 <= r < a.module.functions[f].registers.len() ==> (
        #[trigger] b.module.functions[f].registers[r]).ty == a.module.functions[f].registers[r].ty
}

/// A conditional starts with its second and third block untouched.
pub proof fn lemma_fork_start(a: CreatorView, condition: Value)
    requires
        a.open(),
        a.current_function().blocks.len() + 3 <= usize::MAX,
    ensures
        forked(a, branched(a, condition), (a.current_function().blocks.len() + 1) as int),
        branched(a, condition).open(),
        branched(a, condition).cursor == Some(branch_block(a, 0)),
{
    reveal(forked);
    let f = a.here();
    let n = a.current_function().blocks.len() as int;
    let b1 = a.append_block(f, Seq::empty());
    let b2 = b1.append_block(f, Seq::empty());
    let b3 = b2.append_block(f, Seq::empty());
    assert(b3.module.functions[f].blocks.len() == n + 3);
    assert(b3.module.functions[f].blocks[n + 1].terminator is None);
    assert(b3.module.functions[f].blocks[n + 2].terminator is None);
    assert(b3.module.functions[f].blocks[n].terminator is None);
}

/// Code generated at the cursor keeps a conditional's untouched blocks
/// untouched.
pub proof fn lemma_fork_extends(a: CreatorView, b: CreatorView, c: CreatorView, lo: int)
    requires
        forked(a, b, lo),
        extends(b, c),
    ensures
        forked(a, c, lo),
{
    reveal(forked);
    reveal(extends);
    let f = a.here();
    let k = a.cursor.unwrap().index as int;
    let n = a.module.functions[f].blocks.len() as int;
    let kb = b.cursor.unwrap().index as int;
    let at = c.cursor.unwrap().index as int;
    assert forall|g: int| 0 <= g < a.module.functions.len() && g != f implies c.module.functions[g]
        == a.module.functions[g] by {
        assert(b.module.functions[g] == a.module.functions[g]);
        assert(c.module.functions[g] == b.module.functions[g]);
    }
    assert forall|j: int| 0 <= j < n && j != k implies c.module.functions[f].blocks[j]
        == a.module.functions[f].blocks[j] by {
        assert(b.module.functions[f].blocks[j] == a.module.functions[f].blocks[j]);
        assert(c.module.functions[f].blocks[j] == b.module.functions[f].blocks[j]);
    }
    assert(c.module.functions[f].blocks[k] == b.module.functions[f].blocks[k]);
    assert forall|j: int| lo <= j < n + 3 implies c.module.functions[f].blocks[j].terminator is None by {
        assert(b.module.functions[f].blocks[j].terminator is None);
        assert(c.module.functions[f].blocks[j] == b.module.functions[f].blocks[j]);
    }
    assert forall|j: int|
        n <= j < c.module.functions[f].blocks.len() && j != at && !(lo <= j < n + 3) implies
        c.module.functions[f].blocks[j].terminator is Some by {
        if j < b.module.functions[f].blocks.len() {
            if j != kb {
                assert(b.module.functions[f].blocks[j].terminator is Some);
                assert(c.module.functions[f].blocks[j] == b.module.functions[f].blocks[j]);
            }
        }
    }
    assert forall|g: int, j: int|
        a.module.functions.len() <= g < c.module.functions.len() && 0 <= j
            < c.module.functions[g].blocks.len() implies c.module.functions[g].blocks[j].terminator is Some by {
        if g < b.module.functions.len() {
            assert(c.module.functions[g] == b.module.functions[g]);
            assert(b.module.functions[g].blocks[j].terminator is Some);
        }
    }
    assert forall|r: int| 0 <= r < a.module.functions[f].registers.len() implies
        c.module.functions[f].registers[r].ty == a.module.functions[f].registers[r].ty by {
        assert(b.module.functions[f].registers[r].ty == a.module.functions[f].registers[r].ty);
        assert(c.module.functions[f].registers[r].ty == b.module.functions[f].registers[r].ty);
    }
}

/// A terminator at the cursor keeps a conditional's untouched blocks
/// untouched.
pub proof fn lemma_fork_close(a: CreatorView, b: CreatorView, lo: int, terminator: Terminator)
    requires
        forked(a, b, lo),
    ensures
        forked(a, b.terminate(terminator), lo),
        !b.terminate(terminator).open(),
        b.terminate(terminator).cursor == b.cursor,
{
    reveal(forked);
    let f = a.here();
    let at = b.cursor.unwrap().index as int;
    let c = b.terminate(terminator);
    assert(c.module.functions[f].blocks[at].terminator is Some);
    assert forall|g: int, j: int|
        a.module.functions.len() <= g < c.module.functions.len() && 0 <= j
            < c.module.functions[g].blocks.len() implies c.module.functions[g].blocks[j].terminator is Some by {
        assert(c.module.functions[g] == b.module.functions[g]);
        assert(b.module.functions[g].blocks[j].terminator is Some);
    }
}

/// Once the cursor's block is finished, the cursor can move to the first
/// of a conditional's untouched blocks.
pub proof fn lemma_fork_next(a: CreatorView, b: CreatorView, lo: int)
    requires
        forked(a, b, lo),
        !b.open(),
        lo < a.current_function().blocks.len() + 3,
    ensures
        forked(
            a,
            b.moved_to(BlockRef { function: a.cursor.unwrap().function, index: lo as usize }),
            lo + 1,
        ),
        b.moved_to(BlockRef { function: a.cursor.unwrap().function, index: lo as usize }).open(),
{
    reveal(forked);
    let f = a.here();
    let c = b.moved_to(BlockRef { function: a.cursor.unwrap().function, index: lo as usize });
    assert(c.module.functions[f].blocks[lo].terminator is None);
}

/// Once a branch of a conditional is lowered, and ended by a branch to
/// `merge` unless it has returned, the cursor can move to the first of the
/// conditional's untouched blocks.
pub proof fn lemma_fork_stage(
    a: CreatorView,
    b: CreatorView,
    c: CreatorView,
    lo: int,
    merge: usize,
)
    requires
        forked(a, b, lo),
        extends(b, c),
        lo < a.current_function().blocks.len() + 3,
    ensures
        ({
            let closed = if c.open() {
                c.terminate(Terminator::Br { target: merge })
            } else {
                c
            };
            let next = closed.moved_to(
                BlockRef { function: a.cursor.unwrap().function, index: lo as usize },
            );
            forked(a, next, lo + 1) && next.open()
        }),
{
    lemma_fork_extends(a, b, c, lo);
    if c.open() {
        lemma_fork_close(a, c, lo, Terminator::Br { target: merge });
    }
    let closed = if c.open() {
        c.terminate(Terminator::Br { target: merge })
    } else {
        c
    };
    lemma_fork_next(a, closed, lo);
}

/// A conditional whose three blocks are all in use has generated code at
/// the cursor.
pub proof fn lemma_fork_join(a: CreatorView, b: CreatorView)
    requires
        forked(a, b, (a.current_function().blocks.len() + 3) as int),
    ensures
        extends(a, b),
{
    reveal(forked);
    reveal(extends);
}

/// The state after the function of a nested declaration has been added
/// and the cursor has come back to where it was.
pub open spec fn returned(a: CreatorView, b: CreatorView) -> CreatorView {
    CreatorView { cursor: a.cursor, ..b }
}

/// Entering a new function leaves the functions before it as they were.
pub proof fn lemma_nested(a: CreatorView, ty: FunctionTypeView, name: Seq<char>, b: CreatorView)
    requires
        a.open(),
        a.module.functions.len() < usize::MAX,
        extends(crate::ir::function::with_new_function(a, ty, name), b),
        !b.open(),
    ensures
        extends(a, returned(a, b)),
        returned(a, b).open(),
{
    reveal(extends);
    let entered = crate::ir::function::with_new_function(a, ty, name);
    let m = a.module.functions.len() as int;
    let f = a.here();
    let c = returned(a, b);
    assert(entered.module.functions.len() == m + 1);
    assert(entered.here() == m);
    assert(entered.module.functions[m].blocks.len() == 1);
    assert forall|g: int| 0 <= g < m implies #[trigger] c.module.functions[g] == a.module.functions[g] by {
        assert(b.module.functions[g] == entered.module.functions[g]);
        assert(entered.module.functions[g] == a.module.functions[g]);
    }
    assert(c.module.functions[f] == a.module.functions[f]);
    let at = b.cursor.unwrap().index as int;
    assert forall|g: int, j: int|
        m <= g < c.module.functions.len() && 0 <= j < c.module.functions[g].blocks.len() implies
        c.module.functions[g].blocks[j].terminator is Some by {
        if g == m {
            if j == at {
            } else if j == 0 {
            } else {
                assert(b.module.functions[m].blocks[j].terminator is Some);
            }
        } else {
            assert(b.module.functions[g].blocks[j].terminator is Some);
        }
    }
}

/// Where all blocks but the cursor's were finished, and the evaluator has
/// gone on and finished the cursor's block, all blocks are finished.
pub proof fn lemma_complete(a: CreatorView, b: CreatorView)
    requires
        complete_but_cursor(a),
        extends(a, b),
        !b.open(),
    ensures
        complete(b.module),
{
    reveal(extends);
    let f = a.here();
    let k = a.cursor.unwrap().index as int;
    let at = b.cursor.unwrap().index as int;
    assert forall|g: int, j: int|
        0 <= g < b.module.functions.len() && 0 <= j < b.module.functions[g].blocks.len() implies (
    #[trigger] b.module.functions[g].blocks[j]).terminator is Some by {
        if g < a.module.functions.len() {
            if g != f {
                assert(b.module.functions[g] == a.module.functions[g]);
                assert(a.module.functions[g].blocks[j].terminator is Some);
            } else {
                if j < a.module.functions[f].blocks.len() {
                    if j != k {
                        assert(b.module.functions[f].blocks[j] == a.module.functions[f].blocks[j]);
                        assert(a.module.functions[f].blocks[j].terminator is Some);
                    }
                } else {
                }
            }
        } else {
        }
    }
}

} // verus!
