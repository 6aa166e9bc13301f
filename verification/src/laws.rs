//! Properties of the translator that relate several of its parts: what the
//! emitted code looks like for whole families of programs.

use vstd::prelude::*;
use crate::brackets::{
    lemma_well_bracketed_accepted, net_opens, outcome, scan, well_bracketed, ScanEnd, CLOSE, DEC,
    INC, OPEN, OUT,
};
use crate::code::{close_of, emits, loop_header, token_code};
use crate::error::Error;
use crate::translate::BfContext;
use crate::wasm::Inst;

verus! {

broadcast use vstd::seq::axiom_seq_index_decreases;

/// `c` repeated `n` times.
pub open spec fn repeated(c: Seq<Inst>, n: nat) -> Seq<Inst>
    decreases n,
{
    if n == 0 {
        Seq::<Inst>::empty()
    } else {
        c + repeated(c, (n - 1) as nat)
    }
}

/// A stretch of bytes that never opens or closes a loop leaves the bracket
/// count unchanged.
proof fn lemma_net_opens_bracketless(t: Seq<u8>, i: int, k: int)
    requires
        forall|m: int| i <= m < k ==> #[trigger] t[m] != OPEN && t[m] != CLOSE,
    ensures
        net_opens(t, i, k) == 0,
    decreases k - i,
{
    if k > i {
        lemma_net_opens_bracketless(t, i, k - 1);
    }
}

/// Empty input translates successfully, and the translated program emits
/// nothing: the body built around it holds only the initial cursor-zeroing
/// step.
pub proof fn lemma_empty_input(cx: BfContext, t: Seq<u8>, code: Seq<Inst>)
    requires
        t.len() == 0,
        emits(cx, t, 0, 0, code),
    ensures
        outcome(t) == Ok::<int, Error>(0),
        code == Seq::<Inst>::empty(),
{
    assert(scan(t, 0, 0) == (ScanEnd::Exhausted { depth: 0nat }));
}

/// `inst` with every sequence id it holds replaced by one fixed id.
pub open spec fn erase_inst(inst: Inst) -> Inst
    decreases inst,
{
    match inst {
        Inst::ExitBlock(_, inner) => Inst::ExitBlock(arbitrary(), erase_ids(inner)),
        Inst::RepeatLoop(_, inner) => Inst::RepeatLoop(arbitrary(), erase_ids(inner)),
        Inst::BrIf(_) => Inst::BrIf(arbitrary()),
        Inst::Br(_) => Inst::Br(arbitrary()),
        other => other,
    }
}

/// `code` with every sequence id replaced by one fixed id: what remains is
/// the structure that the input alone determines.
pub open spec fn erase_ids(code: Seq<Inst>) -> Seq<Inst>
    decreases code,
{
    Seq::new(
        code.len(),
        |p: int|
            if 0 <= p < code.len() {
                erase_inst(code[p])
            } else {
                arbitrary()
            },
    )
}

/// Erasure distributes over joining two codes.
proof fn lemma_erase_concat(a: Seq<Inst>, b: Seq<Inst>)
    ensures
        erase_ids(a + b) == erase_ids(a) + erase_ids(b),
{
    assert(erase_ids(a + b) =~= erase_ids(a) + erase_ids(b));
}

/// Translating the same input twice produces structurally identical output:
/// any two codes emitted for the same token segment are equal once the fresh
/// sequence ids the builder handed out are erased.  The translation is a
/// pure function of its input.
pub proof fn lemma_translation_deterministic(
    cx: BfContext,
    t: Seq<u8>,
    i: int,
    j: int,
    c1: Seq<Inst>,
    c2: Seq<Inst>,
)
    requires
        emits(cx, t, i, j, c1),
        emits(cx, t, i, j, c2),
    ensures
        erase_ids(c1) == erase_ids(c2),
    decreases j - i,
{
    if i >= j {
        assert(erase_ids(c1) =~= erase_ids(c2));
    } else if t[i] == OPEN {
        let k = close_of(t, i + 1);
        match c1[0] {
            Inst::ExitBlock(e1, inner1) => {
                match inner1[0] {
                    Inst::RepeatLoop(l1, lb1) => {
                        match c2[0] {
                            Inst::ExitBlock(e2, inner2) => {
                                match inner2[0] {
                                    Inst::RepeatLoop(l2, lb2) => {
                                        let body1 = lb1.subrange(5, lb1.len() - 1);
                                        let body2 = lb2.subrange(5, lb2.len() - 1);
                                        lemma_translation_deterministic(
                                            cx,
                                            t,
                                            i + 1,
                                            k,
                                            body1,
                                            body2,
                                        );
                                        assert(lb1 =~= lb1.take(5) + body1 + seq![lb1.last()]);
                                        assert(lb2 =~= lb2.take(5) + body2 + seq![lb2.last()]);
                                        lemma_erase_concat(lb1.take(5) + body1, seq![lb1.last()]);
                                        lemma_erase_concat(lb1.take(5), body1);
                                        lemma_erase_concat(lb2.take(5) + body2, seq![lb2.last()]);
                                        lemma_erase_concat(lb2.take(5), body2);
                                        assert(erase_ids(loop_header(cx, e1)) =~= erase_ids(
                                            loop_header(cx, e2),
                                        ));
                                        assert(erase_ids(seq![lb1.last()]) =~= erase_ids(
                                            seq![lb2.last()],
                                        ));
                                        assert(erase_ids(lb1) == erase_ids(lb2));
                                        assert(erase_ids(inner1) =~= erase_ids(inner2));
                                        assert(erase_inst(c1[0]) == erase_inst(c2[0]));
                                        lemma_translation_deterministic(
                                            cx,
                                            t,
                                            k + 1,
                                            j,
                                            c1.skip(1),
                                            c2.skip(1),
                                        );
                                        assert(c1 =~= seq![c1[0]] + c1.skip(1));
                                        assert(c2 =~= seq![c2[0]] + c2.skip(1));
                                        lemma_erase_concat(seq![c1[0]], c1.skip(1));
                                        lemma_erase_concat(seq![c2[0]], c2.skip(1));
                                        assert(erase_ids(seq![c1[0]]) =~= erase_ids(seq![c2[0]]));
                                    },
                                    _ => {
                                        assert(false);
                                    },
                                }
                            },
                            _ => {
                                assert(false);
                            },
                        }
                    },
                    _ => {
                        assert(false);
                    },
                }
            },
            _ => {
                assert(false);
            },
        }
    } else {
        let n = token_code(cx, t[i]).len() as int;
        lemma_translation_deterministic(cx, t, i + 1, j, c1.skip(n), c2.skip(n));
        assert(c1 =~= c1.take(n) + c1.skip(n));
        assert(c2 =~= c2.take(n) + c2.skip(n));
        lemma_erase_concat(c1.take(n), c1.skip(n));
        lemma_erase_concat(c2.take(n), c2.skip(n));
    }
}

/// The inductive step behind `lemma_plus_run_then_putc`: from `i` on, the
/// program is increments followed by one output token.
proof fn lemma_plus_run_rec(cx: BfContext, t: Seq<u8>, i: int, code: Seq<Inst>)
    requires
        0 <= i <= t.len() - 1,
        forall|k: int| i <= k < t.len() - 1 ==> #[trigger] t[k] == INC,
        t[t.len() - 1] == OUT,
        emits(cx, t, i, t.len() as int, code),
    ensures
        code == repeated(token_code(cx, INC), (t.len() - 1 - i) as nat) + token_code(cx, OUT),
    decreases t.len() - i,
{
    let out = token_code(cx, OUT);
    let inc = token_code(cx, INC);
    if i == t.len() - 1 {
        assert(emits(cx, t, i + 1, t.len() as int, code.skip(3)));
        assert(code.skip(3) =~= Seq::<Inst>::empty());
        assert(code =~= out);
        assert(repeated(inc, 0) + out =~= out);
    } else {
        lemma_plus_run_rec(cx, t, i + 1, code.skip(6));
        let m = (t.len() - 1 - i) as nat;
        assert(repeated(inc, m) == inc + repeated(inc, (m - 1) as nat));
        assert(code =~= code.take(6) + code.skip(6));
        assert(code =~= repeated(inc, m) + out);
    }
}

/// A program of `n` increments followed by one `.` emits the cell-increment
/// sequence `n` times and then the three instructions of the output token,
/// whose last is the single `putc` call: the byte handed to the host is the
/// cell after `n` increments.
pub proof fn lemma_plus_run_then_putc(cx: BfContext, t: Seq<u8>, code: Seq<Inst>)
    requires
        t.len() >= 1,
        forall|k: int| 0 <= k < t.len() - 1 ==> #[trigger] t[k] == INC,
        t[t.len() - 1] == OUT,
        emits(cx, t, 0, t.len() as int, code),
    ensures
        outcome(t) == Ok::<int, Error>(t.len() as int),
        code == repeated(token_code(cx, INC), (t.len() - 1) as nat) + token_code(cx, OUT),
{
    assert forall|k: int| 0 <= k <= t.len() implies #[trigger] net_opens(t, 0, k) == 0 by {
        lemma_net_opens_bracketless(t, 0, k);
    }
    assert(well_bracketed(t));
    lemma_well_bracketed_accepted(t);
    lemma_plus_run_rec(cx, t, 0, code);
}

/// The loop of `+[-]` translates to an exit-block/repeat-loop pair whose
/// recorded body opens with the zero test and branch to the exit block —
/// evaluated before every pass over the body, the first included — then
/// holds the decrement sequence, then the branch back to the top.
pub proof fn lemma_single_decrement_loop(cx: BfContext, t: Seq<u8>, code: Seq<Inst>)
    requires
        t == seq![INC, OPEN, DEC, CLOSE],
        emits(cx, t, 0, 4, code),
    ensures
        outcome(t) == Ok::<int, Error>(4),
        code.len() == 7,
        code.take(6) == token_code(cx, INC),
        (match code[6] {
            Inst::ExitBlock(e, inner) => inner.len() == 1 && (match inner[0] {
                Inst::RepeatLoop(l, lb) => lb == loop_header(cx, e) + token_code(cx, DEC)
                    + seq![Inst::Br(l)],
                _ => false,
            }),
            _ => false,
        }),
{
    assert(scan(t, 3, 0) == (ScanEnd::Close { at: 3 }));
    assert(scan(t, 2, 0) == scan(t, 3, 0));
    assert(close_of(t, 2) == 3);
    assert(scan(t, 4, 0) == (ScanEnd::Exhausted { depth: 0nat }));
    assert(scan(t, 3, 1) == scan(t, 4, 0));
    assert(scan(t, 2, 1) == scan(t, 3, 1));
    assert(scan(t, 1, 0) == scan(t, 2, 1));
    assert(scan(t, 0, 0) == scan(t, 1, 0));
    let rest = code.skip(6);
    assert(emits(cx, t, 1, 4, rest));
    assert(emits(cx, t, 4, 4, rest.skip(1)));
    assert(rest.skip(1) =~= Seq::<Inst>::empty());
    match rest[0] {
        Inst::ExitBlock(e, inner) => {
            match inner[0] {
                Inst::RepeatLoop(l, lb) => {
                    let body = lb.subrange(5, lb.len() - 1);
                    assert(emits(cx, t, 2, 3, body));
                    assert(emits(cx, t, 3, 3, body.skip(6)));
                    assert(body.skip(6) =~= Seq::<Inst>::empty());
                    assert(token_code(cx, DEC).len() == 6);
                    assert(body.len() >= 6);
                    assert(body.skip(6).len() == body.len() - 6);
                    assert(body.len() == 6);
                    assert(body =~= body.take(6));
                    assert(body =~= token_code(cx, DEC));
                    assert(lb =~= lb.take(5) + body + seq![lb.last()]);
                    assert(lb =~= loop_header(cx, e) + token_code(cx, DEC) + seq![Inst::Br(l)]);
                },
                _ => {
                    assert(false);
                },
            }
        },
        _ => {
            assert(false);
        },
    }
    assert(code[6] == rest[0]);
}

/// `[[]]` translates into two properly nested exit-block/repeat-loop pairs:
/// the outer loop's recorded body holds, between its zero test and its branch
/// back, exactly the inner pair, whose own body is the test and the branch
/// back alone.
pub proof fn lemma_nested_loops(cx: BfContext, t: Seq<u8>, code: Seq<Inst>)
    requires
        t == seq![OPEN, OPEN, CLOSE, CLOSE],
        emits(cx, t, 0, 4, code),
    ensures
        outcome(t) == Ok::<int, Error>(4),
        code.len() == 1,
        (match code[0] {
            Inst::ExitBlock(e1, inner1) => inner1.len() == 1 && (match inner1[0] {
                Inst::RepeatLoop(l1, lb1) => lb1.len() == 7 && lb1.take(5) == loop_header(cx, e1)
                    && lb1.last() == Inst::Br(l1) && (match lb1[5] {
                    Inst::ExitBlock(e2, inner2) => inner2.len() == 1 && (match inner2[0] {
                        Inst::RepeatLoop(l2, lb2) => lb2 == loop_header(cx, e2)
                            + seq![Inst::Br(l2)],
                        _ => false,
                    }),
                    _ => false,
                }),
                _ => false,
            }),
            _ => false,
        }),
{
    assert(scan(t, 2, 0) == (ScanEnd::Close { at: 2 }));
    assert(close_of(t, 2) == 2);
    assert(scan(t, 3, 0) == (ScanEnd::Close { at: 3 }));
    assert(scan(t, 2, 1) == scan(t, 3, 0));
    assert(scan(t, 1, 0) == scan(t, 2, 1));
    assert(close_of(t, 1) == 3);
    assert(scan(t, 4, 0) == (ScanEnd::Exhausted { depth: 0nat }));
    assert(scan(t, 3, 1) == scan(t, 4, 0));
    assert(scan(t, 2, 2) == scan(t, 3, 1));
    assert(scan(t, 1, 1) == scan(t, 2, 2));
    assert(scan(t, 0, 0) == scan(t, 1, 1));
    assert(emits(cx, t, 4, 4, code.skip(1)));
    assert(code.skip(1) =~= Seq::<Inst>::empty());
    match code[0] {
        Inst::ExitBlock(e1, inner1) => {
            match inner1[0] {
                Inst::RepeatLoop(l1, lb1) => {
                    let body1 = lb1.subrange(5, lb1.len() - 1);
                    assert(emits(cx, t, 1, 3, body1));
                    assert(emits(cx, t, 3, 3, body1.skip(1)));
                    assert(body1.skip(1) =~= Seq::<Inst>::empty());
                    assert(body1.len() == 1);
                    assert(lb1.len() == 7);
                    assert(lb1[5] == body1[0]);
                    match body1[0] {
                        Inst::ExitBlock(e2, inner2) => {
                            match inner2[0] {
                                Inst::RepeatLoop(l2, lb2) => {
                                    let body2 = lb2.subrange(5, lb2.len() - 1);
                                    assert(emits(cx, t, 2, 2, body2));
                                    assert(body2 =~= Seq::<Inst>::empty());
                                    assert(lb2 =~= lb2.take(5) + body2 + seq![lb2.last()]);
                                    assert(lb2 =~= loop_header(cx, e2) + seq![Inst::Br(l2)]);
                                },
                                _ => {
                                    assert(false);
                                },
                            }
                        },
                        _ => {
                            assert(false);
                        },
                    }
                },
                _ => {
                    assert(false);
                },
            }
        },
        _ => {
            assert(false);
        },
    }
}

/// Dropping either bracket from `[[]]` leaves a mismatch, and the translation
/// is rejected: `[[]` opens a loop it never closes, `[]]` closes a loop that
/// was never opened.
pub proof fn lemma_nested_mismatch_rejected()
    ensures
        outcome(seq![OPEN, OPEN, CLOSE]) is Err,
        outcome(seq![OPEN, CLOSE, CLOSE]) is Err,
{
    let a = seq![OPEN, OPEN, CLOSE];
    assert(scan(a, 3, 1) == (ScanEnd::Exhausted { depth: 1nat }));
    assert(scan(a, 2, 2) == scan(a, 3, 1));
    assert(scan(a, 1, 1) == scan(a, 2, 2));
    assert(scan(a, 0, 0) == scan(a, 1, 1));
    let b = seq![OPEN, CLOSE, CLOSE];
    assert(scan(b, 2, 0) == (ScanEnd::Close { at: 2 }));
    assert(scan(b, 1, 1) == scan(b, 2, 0));
    assert(scan(b, 0, 0) == scan(b, 1, 1));
}

} // verus!
