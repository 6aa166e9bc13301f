//! What the translator emits: the fixed instruction sequence of each simple
//! token, the header of a loop, and the predicate tying a token segment to
//! the code recorded for it.

use vstd::prelude::*;
use crate::brackets::{is_token, scan, ScanEnd, INC, DEC, LEFT, RIGHT, IN, OUT, OPEN, CLOSE};
use crate::translate::BfContext;
use crate::wasm::Inst;

verus! {

/// The instruction sequence a simple token turns into: cursor moves rewrite
/// the pointer register, cell updates load, adjust and store the byte at the
/// cursor, and the two I/O tokens call the host imports.
pub open spec fn token_code(cx: BfContext, b: u8) -> Seq<Inst> {
    if b == RIGHT {
        seq![
            Inst::GetLocal(cx.pointer),
            Inst::I32Const(1),
            Inst::AddI32,
            Inst::SetLocal(cx.pointer),
        ]
    } else if b == LEFT {
        seq![
            Inst::GetLocal(cx.pointer),
            Inst::I32Const(1),
            Inst::SubI32,
            Inst::SetLocal(cx.pointer),
        ]
    } else if b == INC {
        seq![
            Inst::GetLocal(cx.pointer),
            Inst::GetLocal(cx.pointer),
            Inst::LoadU8(cx.memory, cx.one_byte),
            Inst::I32Const(1),
            Inst::AddI32,
            Inst::StoreU8(cx.memory, cx.one_byte),
        ]
    } else if b == DEC {
        seq![
            Inst::GetLocal(cx.pointer),
            Inst::GetLocal(cx.pointer),
            Inst::LoadU8(cx.memory, cx.one_byte),
            Inst::I32Const(1),
            Inst::SubI32,
            Inst::StoreU8(cx.memory, cx.one_byte),
        ]
    } else if b == OUT {
        seq![
            Inst::GetLocal(cx.pointer),
            Inst::LoadU8(cx.memory, cx.one_byte),
            Inst::Call(cx.putc_func),
        ]
    } else if b == IN {
        seq![
            Inst::GetLocal(cx.pointer),
            Inst::Call(cx.getc_func),
            Inst::StoreU8(cx.memory, cx.one_byte),
        ]
    } else {
        Seq::<Inst>::empty()
    }
}

/// The test at the top of every repeat loop: read the byte at the cursor and
/// branch to the exit block when it is zero.  It runs before every pass over
/// the body, the first included.
pub open spec fn loop_header(cx: BfContext, exit: walrus::ir::InstrSeqId) -> Seq<Inst> {
    seq![
        Inst::GetLocal(cx.pointer),
        Inst::LoadU8(cx.memory, cx.one_byte),
        Inst::I32Const(0),
        Inst::EqI32,
        Inst::BrIf(exit),
    ]
}

/// The position of the `]` that ends the frame beginning at `t[i]`.
pub open spec fn close_of(t: Seq<u8>, i: int) -> int {
    match scan(t, i, 0) {
        ScanEnd::Close { at } => at,
        _ => t.len() as int,
    }
}

/// `code` is exactly what translating the token segment `t[i..j)` emits into
/// its own frame: each simple token contributes its fixed sequence, and each
/// loop contributes one exit block holding one repeat loop, whose recorded
/// content is the loop header, the code of the loop's body, and the branch
/// back to the top.
pub open spec fn emits(cx: BfContext, t: Seq<u8>, i: int, j: int, code: Seq<Inst>) -> bool
    decreases j - i,
{
    if i >= j {
        code == Seq::<Inst>::empty()
    } else if t[i] == OPEN {
        let k = close_of(t, i + 1);
        &&& i < k < j
        &&& t[k] == CLOSE
        &&& code.len() >= 1
        &&& match code[0] {
            Inst::ExitBlock(e, inner) => {
                &&& inner.len() == 1
                &&& match inner[0] {
                    Inst::RepeatLoop(l, lbody) => {
                        &&& lbody.len() >= 6
                        &&& lbody.take(5) == loop_header(cx, e)
                        &&& lbody.last() == Inst::Br(l)
                        &&& emits(cx, t, i + 1, k, lbody.subrange(5, lbody.len() - 1))
                    },
                    _ => false,
                }
            },
            _ => false,
        }
        &&& emits(cx, t, k + 1, j, code.skip(1))
    } else if t[i] == CLOSE {
        false
    } else if is_token(t[i]) {
        let c = token_code(cx, t[i]);
        &&& code.len() >= c.len()
        &&& code.take(c.len() as int) == c
        &&& emits(cx, t, i + 1, j, code.skip(c.len() as int))
    } else {
        false
    }
}

/// Code emitted for two adjacent segments joins into code for the whole.
pub proof fn lemma_emits_concat(
    cx: BfContext,
    t: Seq<u8>,
    i: int,
    j: int,
    k: int,
    c1: Seq<Inst>,
    c2: Seq<Inst>,
)
    requires
        i <= j <= k,
        emits(cx, t, i, j, c1),
        emits(cx, t, j, k, c2),
    ensures
        emits(cx, t, i, k, c1 + c2),
    decreases j - i,
{
    if i >= j {
        assert(c1 + c2 =~= c2);
    } else if t[i] == OPEN {
        let m = close_of(t, i + 1);
        lemma_emits_concat(cx, t, m + 1, j, k, c1.skip(1), c2);
        assert((c1 + c2).skip(1) =~= c1.skip(1) + c2);
        assert((c1 + c2)[0] == c1[0]);
    } else {
        let c = token_code(cx, t[i]);
        let n = c.len() as int;
        lemma_emits_concat(cx, t, i + 1, j, k, c1.skip(n), c2);
        assert((c1 + c2).skip(n) =~= c1.skip(n) + c2);
        assert((c1 + c2).take(n) =~= c1.take(n));
    }
}

} // verus!
