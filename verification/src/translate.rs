//! The translation context and the recursive translator.

use vstd::prelude::*;
use crate::brackets::{
    fail_boundary, frame_outcome, is_token, lemma_scan_close_bounds, lemma_scan_invalid_bounds,
    lemma_scan_shift, outcome, scan, scan_stop, ScanEnd, CLOSE, DEC, IN, INC, LEFT, OPEN, OUT,
    RIGHT,
};
use crate::code::{close_of, emits, lemma_emits_concat, loop_header, token_code};
use crate::error::{Error, ErrorKind};
use crate::wasm::{
    add_local_i32, add_type_i32_param, add_type_i32_result, body_id_of, export_function, export_of,
    finish_function, func_body_of, import_func, import_memory, imported_func_of,
    imported_memory_of, mem_align, mem_arg, mem_offset, new_function_builder, new_module, new_seq,
    push_br, push_br_if, push_call, push_exit_block, push_i32_add, push_i32_const, push_i32_eq,
    push_i32_sub, push_load_u8, push_local_get, push_local_set, push_repeat_loop, push_store_u8,
    seqs_of, Inst,
};

verus! {

/// The fixed operand set the translator rewrites into on every token: the
/// cursor register, the imported linear memory, the two host imports, and the
/// memory-access descriptor for raw byte loads and stores.  Built once per
/// compilation and never changed afterwards.
pub struct BfContext {
    pub memory: walrus::MemoryId,
    pub putc_func: walrus::FunctionId,
    pub getc_func: walrus::FunctionId,
    pub pointer: walrus::LocalId,
    pub one_byte: walrus::ir::MemArg,
}

impl BfContext {
    /// Emit the fixed instruction sequence of one simple token into `target`.
    fn emit_token(
        &self,
        fb: &mut walrus::FunctionBuilder,
        target: walrus::ir::InstrSeqId,
        b: u8,
    )
        requires
            seqs_of(*old(fb)).dom().contains(target),
            is_token(b),
            b != OPEN,
            b != CLOSE,
        ensures
            seqs_of(*final(fb)) == seqs_of(*old(fb)).insert(
                target,
                seqs_of(*old(fb))[target] + token_code(*self, b),
            ),
            body_id_of(*final(fb)) == body_id_of(*old(fb)),
    {
        if b == RIGHT {
            push_local_get(fb, target, self.pointer);
            push_i32_const(fb, target, 1);
            push_i32_add(fb, target);
            push_local_set(fb, target, self.pointer);
        } else if b == LEFT {
            push_local_get(fb, target, self.pointer);
            push_i32_const(fb, target, 1);
            push_i32_sub(fb, target);
            push_local_set(fb, target, self.pointer);
        } else if b == INC {
            push_local_get(fb, target, self.pointer);
            push_local_get(fb, target, self.pointer);
            push_load_u8(fb, target, self.memory, self.one_byte);
            push_i32_const(fb, target, 1);
            push_i32_add(fb, target);
            push_store_u8(fb, target, self.memory, self.one_byte);
        } else if b == DEC {
            push_local_get(fb, target, self.pointer);
            push_local_get(fb, target, self.pointer);
            push_load_u8(fb, target, self.memory, self.one_byte);
            push_i32_const(fb, target, 1);
            push_i32_sub(fb, target);
            push_store_u8(fb, target, self.memory, self.one_byte);
        } else if b == OUT {
            push_local_get(fb, target, self.pointer);
            push_load_u8(fb, target, self.memory, self.one_byte);
            push_call(fb, target, self.putc_func);
        } else {
            push_local_get(fb, target, self.pointer);
            push_call(fb, target, self.getc_func);
            push_store_u8(fb, target, self.memory, self.one_byte);
        }
        proof {
            assert(seqs_of(*fb)[target] =~= seqs_of(*old(fb))[target] + token_code(*self, b));
            assert(seqs_of(*fb) =~= seqs_of(*old(fb)).insert(
                target,
                seqs_of(*old(fb))[target] + token_code(*self, b),
            ));
        }
    }

    /// Translate the tokens of one frame, starting at `bf[from]`, emitting
    /// into the sequence `target`.  A simple token appends its fixed
    /// instruction sequence; a `[` opens an exit-block/repeat-loop pair and
    /// translates the loop body recursively into the repeat loop; a `]` ends
    /// the frame.  A top-level frame (`consume_all`) must use up the whole
    /// input and owns no `]`; a nested frame must end on its `]`.  Returns
    /// the number of tokens consumed, or the structural error met first.
    pub fn build(
        &self,
        bf: &Vec<u8>,
        from: usize,
        fb: &mut walrus::FunctionBuilder,
        target: walrus::ir::InstrSeqId,
        consume_all: bool,
    ) -> (r: Result<usize, Error>)
        requires
            seqs_of(*old(fb)).dom().contains(target),
            from <= bf@.len(),
        ensures
            seqs_of(*old(fb)).dom().subset_of(seqs_of(*final(fb)).dom()),
            seqs_of(*final(fb)).dom().contains(target),
            body_id_of(*final(fb)) == body_id_of(*old(fb)),
            forall|id: walrus::ir::InstrSeqId|
                seqs_of(*old(fb)).dom().contains(id) && id != target ==> seqs_of(*final(fb))[id]
                    == seqs_of(*old(fb))[id],
            seqs_of(*final(fb))[target].len() >= seqs_of(*old(fb))[target].len(),
            seqs_of(*final(fb))[target].take(seqs_of(*old(fb))[target].len() as int) == seqs_of(
                *old(fb),
            )[target],
            match r {
                Ok(n) => {
                    &&& frame_outcome(bf@, from as int, consume_all) == Ok::<int, Error>(n as int)
                    &&& from + n <= bf@.len()
                    &&& emits(
                        *self,
                        bf@,
                        from as int,
                        if consume_all {
                            from + n
                        } else {
                            from + n - 1
                        },
                        seqs_of(*final(fb))[target].skip(seqs_of(*old(fb))[target].len() as int),
                    )
                },
                Err(e) => {
                    &&& frame_outcome(bf@, from as int, consume_all) == Err::<int, Error>(e)
                    &&& from <= fail_boundary(bf@, from as int) <= scan_stop(bf@, from as int)
                    &&& emits(
                        *self,
                        bf@,
                        from as int,
                        fail_boundary(bf@, from as int),
                        seqs_of(*final(fb))[target].skip(seqs_of(*old(fb))[target].len() as int),
                    )
                },
            },
        decreases bf@.len() - from,
    {
        let ghost t = bf@;
        let ghost prefix = seqs_of(*fb)[target];
        let ghost mut emitted: Seq<Inst> = Seq::empty();
        let mut i: usize = from;
        while i < bf.len()
            invariant
                from <= i <= t.len(),
                t == bf@,
                seqs_of(*fb).dom().contains(target),
                seqs_of(*old(fb)).dom().subset_of(seqs_of(*fb).dom()),
                forall|id: walrus::ir::InstrSeqId|
                    seqs_of(*old(fb)).dom().contains(id) && id != target ==> seqs_of(*fb)[id]
                        == seqs_of(*old(fb))[id],
                prefix == seqs_of(*old(fb))[target],
                seqs_of(*fb)[target] == prefix + emitted,
                body_id_of(*fb) == body_id_of(*old(fb)),
                scan(t, from as int, 0) == scan(t, i as int, 0),
                fail_boundary(t, from as int) == fail_boundary(t, i as int),
                emits(*self, t, from as int, i as int, emitted),
            decreases t.len() - i,
        {
            let b = bf[i];
            if b == RIGHT || b == LEFT || b == INC || b == DEC || b == OUT || b == IN {
                self.emit_token(fb, target, b);
                proof {
                    let c = token_code(*self, b);
                    assert(scan(t, i as int, 0) == scan(t, i + 1, 0));
                    assert(fail_boundary(t, i as int) == fail_boundary(t, i + 1));
                    assert(c.take(c.len() as int) =~= c);
                    assert(c.skip(c.len() as int) =~= Seq::<Inst>::empty());
                    assert(emits(*self, t, i + 1, i + 1, Seq::<Inst>::empty()));
                    assert(emits(*self, t, i as int, i + 1, c));
                    lemma_emits_concat(*self, t, from as int, i as int, i + 1, emitted, c);
                    emitted = emitted + c;
                    assert(seqs_of(*fb)[target] =~= prefix + emitted);
                }
                i = i + 1;
            } else if b == CLOSE {
                proof {
                    assert(scan(t, i as int, 0) == (ScanEnd::Close { at: i as int }));
                    assert(seqs_of(*fb)[target].skip(prefix.len() as int) =~= emitted);
                    assert(seqs_of(*fb)[target].take(prefix.len() as int) =~= prefix);
                    assert(scan_stop(t, from as int) == i as int);
                    assert(fail_boundary(t, i as int) == i as int);
                    assert(emits(
                        *self,
                        t,
                        from as int,
                        i as int,
                        seqs_of(*fb)[target].skip(prefix.len() as int),
                    ));
                }
                if consume_all {
                    return Err(Error { kind: ErrorKind::InvalidInput, at: Some(i) });
                } else {
                    return Ok(i + 1 - from);
                }
            } else if b == OPEN {
                let e = new_seq(fb);
                let l = new_seq(fb);
                proof {
                    assert(e != l);
                    assert(e != target);
                    assert(l != target);
                }
                push_local_get(fb, l, self.pointer);
                push_load_u8(fb, l, self.memory, self.one_byte);
                push_i32_const(fb, l, 0);
                push_i32_eq(fb, l);
                push_br_if(fb, l, e);
                proof {
                    assert(seqs_of(*fb)[l] =~= loop_header(*self, e));
                }
                let ghost pre_call = seqs_of(*fb);
                let n = match self.build(bf, i + 1, fb, l, false) {
                    Ok(n) => n,
                    Err(err) => {
                        proof {
                            lemma_scan_shift(t, i + 1, 0);
                            assert(scan(t, i as int, 0) == scan(t, i + 1, 1));
                            assert(forall|id: walrus::ir::InstrSeqId|
                                seqs_of(*old(fb)).dom().contains(id) && id != target
                                    ==> pre_call.dom().contains(id) && pre_call[id] == seqs_of(
                                    *old(fb),
                                )[id] && id != l);
                            assert(pre_call[target] == prefix + emitted);
                            assert(pre_call.dom().contains(target) && target != l);
                            assert(seqs_of(*fb)[target] == prefix + emitted);
                            assert(seqs_of(*fb)[target].skip(prefix.len() as int) =~= emitted);
                            assert(seqs_of(*fb)[target].take(prefix.len() as int) =~= prefix);
                            if scan(t, i + 1, 0) is Invalid {
                                lemma_scan_invalid_bounds(t, i + 1, 0);
                            }
                            assert(from as int <= i as int <= scan_stop(t, from as int));
                            assert(fail_boundary(t, i as int) == i as int);
                            assert(emits(
                                *self,
                                t,
                                from as int,
                                i as int,
                                seqs_of(*fb)[target].skip(prefix.len() as int),
                            ));
                        }
                        return Err(err);
                    },
                };
                proof {
                    assert(scan(t, i + 1, 0) == (ScanEnd::Close { at: i + n }));
                    lemma_scan_close_bounds(t, i + 1, 0);
                    lemma_scan_shift(t, i + 1, 0);
                    assert(scan(t, i as int, 0) == scan(t, i + 1, 1));
                    assert(scan(t, i as int, 0) == scan(t, i + n + 1, 0));
                    assert(fail_boundary(t, i as int) == fail_boundary(t, i + n + 1));
                }
                let ghost body = seqs_of(*fb)[l].skip(5);
                proof {
                    assert(pre_call[l] == loop_header(*self, e));
                    assert(seqs_of(*fb)[l].take(5) == loop_header(*self, e));
                    assert(emits(*self, t, i + 1, i + n, body));
                    assert(e != l);
                    assert(pre_call.dom().contains(e));
                    assert(seqs_of(*fb)[e] =~= Seq::<Inst>::empty());
                    assert(seqs_of(*fb)[target] == prefix + emitted);
                }
                push_br(fb, l, l);
                let ghost lbody = seqs_of(*fb)[l];
                proof {
                    assert(lbody =~= loop_header(*self, e) + body + seq![Inst::Br(l)]);
                }
                push_repeat_loop(fb, e, l);
                proof {
                    assert(seqs_of(*fb)[e] =~= seq![Inst::RepeatLoop(l, lbody)]);
                }
                push_exit_block(fb, target, e);
                proof {
                    let d_tok = seq![Inst::ExitBlock(e, seq![Inst::RepeatLoop(l, lbody)])];
                    assert(seqs_of(*fb)[target] =~= prefix + (emitted + d_tok));
                    assert(close_of(t, i + 1) == i + n);
                    assert(lbody.take(5) =~= loop_header(*self, e));
                    assert(lbody.last() == Inst::Br(l));
                    assert(lbody.subrange(5, lbody.len() - 1) =~= body);
                    assert(d_tok.skip(1) =~= Seq::<Inst>::empty());
                    assert(emits(*self, t, i + n + 1, i + n + 1, Seq::<Inst>::empty()));
                    assert(emits(*self, t, i as int, i + n + 1, d_tok));
                    lemma_emits_concat(*self, t, from as int, i as int, i + n + 1, emitted, d_tok);
                    emitted = emitted + d_tok;
                }
                i = i + 1 + n;
            } else {
                proof {
                    assert(!is_token(t[i as int]));
                    assert(scan(t, i as int, 0) == (ScanEnd::Invalid { at: i as int }));
                    assert(seqs_of(*fb)[target].skip(prefix.len() as int) =~= emitted);
                    assert(seqs_of(*fb)[target].take(prefix.len() as int) =~= prefix);
                    assert(scan_stop(t, from as int) == i as int);
                    assert(fail_boundary(t, i as int) == i as int);
                    assert(emits(
                        *self,
                        t,
                        from as int,
                        i as int,
                        seqs_of(*fb)[target].skip(prefix.len() as int),
                    ));
                }
                return Err(Error { kind: ErrorKind::InvalidInput, at: Some(i) });
            }
        }
        proof {
            assert(scan(t, i as int, 0) == (ScanEnd::Exhausted { depth: 0 }));
            assert(seqs_of(*fb)[target].skip(prefix.len() as int) =~= emitted);
            assert(seqs_of(*fb)[target].take(prefix.len() as int) =~= prefix);
            assert(scan_stop(t, from as int) == t.len() as int);
            assert(fail_boundary(t, i as int) == t.len() as int);
            assert(emits(
                *self,
                t,
                from as int,
                i as int,
                seqs_of(*fb)[target].skip(prefix.len() as int),
            ));
        }
        if consume_all {
            Ok(i - from)
        } else {
            Err(Error { kind: ErrorKind::InvalidInput, at: None })
        }
    }
}

/// What a successfully translated module holds, as far as the boundary's
/// names record it: the module exports a zero-argument entry point `main`
/// whose body is one exit block that first zeroes the cursor register and
/// then runs exactly the code emitted for the whole source; the linear
/// memory and the two host functions are imported under `env`; and every
/// byte access goes through a 1-byte-aligned, zero-offset descriptor.
pub open spec fn translated_module(m: walrus::Module, src: Seq<u8>) -> bool {
    exists|f: walrus::FunctionId, cx: BfContext, code: Seq<Inst>|
        #![trigger func_body_of(m, f), emits(cx, src, 0, src.len() as int, code)]
        {
            &&& export_of(m, "main"@) == Some(f)
            &&& imported_memory_of(m, "env"@, "memory"@) == Some(cx.memory)
            &&& imported_func_of(m, "env"@, "putc"@) == Some(cx.putc_func)
            &&& imported_func_of(m, "env"@, "getc"@) == Some(cx.getc_func)
            &&& mem_align(cx.one_byte) == 1
            &&& mem_offset(cx.one_byte) == 0
            &&& func_body_of(m, f).len() == 1
            &&& (match func_body_of(m, f)[0] {
                Inst::ExitBlock(_, prog) => prog == seq![
                    Inst::I32Const(0),
                    Inst::SetLocal(cx.pointer),
                ] + code,
                _ => false,
            })
            &&& emits(cx, src, 0, src.len() as int, code)
        }
}

/// Translate a whole program into a module: import the linear memory and the
/// two host functions, zero the cursor register, translate every token, and
/// export the result as the zero-argument entry point `main`.  Succeeds on
/// exactly the inputs the structural rules accept — the returned module is
/// then a translated module for the source — and fails with the first
/// structural error otherwise, producing no module.
pub fn compile(source: &Vec<u8>) -> (r: Result<walrus::Module, Error>)
    ensures
        match r {
            Ok(m) => outcome(source@) is Ok && translated_module(m, source@),
            Err(e) => outcome(source@) == Err::<int, Error>(e),
        },
{
    let mut module = new_module();
    let putc_ty = add_type_i32_param(&mut module);
    let getc_ty = add_type_i32_result(&mut module);
    let memory = import_memory(&mut module, "env", "memory");
    let putc_func = import_func(&mut module, "env", "putc", putc_ty);
    let getc_func = import_func(&mut module, "env", "getc", getc_ty);
    proof {
        reveal_strlit("putc");
        reveal_strlit("getc");
        assert(("putc"@)[0] != ("getc"@)[0]);
        assert("putc"@ != "getc"@);
    }
    let pointer = add_local_i32(&mut module);
    let one_byte = mem_arg(1, 0);
    let cx = BfContext { memory, putc_func, getc_func, pointer, one_byte };
    let (mut fb, body) = new_function_builder(&mut module);
    let program = new_seq(&mut fb);
    push_i32_const(&mut fb, program, 0);
    push_local_set(&mut fb, program, pointer);
    let ghost init = seq![Inst::I32Const(0), Inst::SetLocal(pointer)];
    proof {
        assert(seqs_of(fb)[program] =~= init);
        assert(seqs_of(fb)[body] =~= Seq::<Inst>::empty());
        assert(body != program);
    }
    let n = match cx.build(source, 0, &mut fb, program, true) {
        Ok(n) => n,
        Err(e) => {
            return Err(e);
        },
    };
    let ghost code = seqs_of(fb)[program].skip(2);
    proof {
        assert(init.len() == 2);
        assert(n as int == source@.len() as int);
        assert(emits(cx, source@, 0, source@.len() as int, code));
        assert(seqs_of(fb)[body] =~= Seq::<Inst>::empty());
        assert(seqs_of(fb)[program].take(2) == init);
        assert(seqs_of(fb)[program] =~= init + code);
    }
    push_exit_block(&mut fb, body, program);
    proof {
        assert(seqs_of(fb)[body] =~= seq![Inst::ExitBlock(program, init + code)]);
        assert(body_id_of(fb) == body);
    }
    let main_func = finish_function(fb, &mut module);
    export_function(&mut module, "main", main_func);
    proof {
        assert(func_body_of(module, main_func) == seq![Inst::ExitBlock(program, init + code)]);
        assert(export_of(module, "main"@) == Some(main_func));
        assert(imported_memory_of(module, "env"@, "memory"@) == Some(cx.memory));
        assert(imported_func_of(module, "env"@, "putc"@) == Some(cx.putc_func));
        assert(imported_func_of(module, "env"@, "getc"@) == Some(cx.getc_func));
        assert(func_body_of(module, main_func).len() == 1);
        assert(func_body_of(module, main_func)[0] == Inst::ExitBlock(program, init + code));
        assert(translated_module(module, source@));
    }
    Ok(module)
}

} // verus!
