//! The structural rules of the source language: which bytes are tokens, how
//! loop brackets nest, and which inputs the translator accepts.

use vstd::prelude::*;
use crate::error::{Error, ErrorKind};

verus! {

/// `>`: move the cursor right.
pub const RIGHT: u8 = 62;
/// `<`: move the cursor left.
pub const LEFT: u8 = 60;
/// `+`: increment the byte at the cursor.
pub const INC: u8 = 43;
/// `-`: decrement the byte at the cursor.
pub const DEC: u8 = 45;
/// `.`: write the byte at the cursor to the host.
pub const OUT: u8 = 46;
/// `,`: read a byte from the host into the cell at the cursor.
pub const IN: u8 = 44;
/// `[`: open a loop.
pub const OPEN: u8 = 91;
/// `]`: close a loop.
pub const CLOSE: u8 = 93;

/// The eight bytes the translator recognizes; every other byte is invalid.
pub open spec fn is_token(b: u8) -> bool {
    b == RIGHT || b == LEFT || b == INC || b == DEC || b == OUT || b == IN
        || b == OPEN || b == CLOSE
}

/// How a left-to-right walk of `t[i..]`, begun under `d` still-open loops,
/// comes to an end.
pub enum ScanEnd {
    /// `t[at]` is not a token.
    Invalid { at: int },
    /// `t[at]` is the `]` that closes the walk's outermost open loop.
    Close { at: int },
    /// The input ended with `depth` loops still open.
    Exhausted { depth: nat },
}

/// Walk `t[i..]` under `d` open loops: stop at the first invalid byte, at the
/// `]` that would close more loops than are open, or at the end of the input.
pub open spec fn scan(t: Seq<u8>, i: int, d: nat) -> ScanEnd
    decreases t.len() - i,
{
    if i < 0 || i >= t.len() {
        ScanEnd::Exhausted { depth: d }
    } else if !is_token(t[i]) {
        ScanEnd::Invalid { at: i }
    } else if t[i] == CLOSE {
        if d == 0 {
            ScanEnd::Close { at: i }
        } else {
            scan(t, i + 1, (d - 1) as nat)
        }
    } else if t[i] == OPEN {
        scan(t, i + 1, d + 1)
    } else {
        scan(t, i + 1, d)
    }
}

/// What one byte contributes to the count of open loops.
pub open spec fn depth_step(b: u8) -> int {
    if b == OPEN {
        1
    } else if b == CLOSE {
        -1
    } else {
        0
    }
}

/// The number of `[` minus the number of `]` among `t[i..k]`.
pub open spec fn net_opens(t: Seq<u8>, i: int, k: int) -> int
    decreases k - i,
{
    if k <= i {
        0
    } else {
        net_opens(t, i, k - 1) + depth_step(t[k - 1])
    }
}

/// Every byte of `t` is a token.
pub open spec fn all_tokens(t: Seq<u8>) -> bool {
    forall|k: int| 0 <= k < t.len() ==> is_token(#[trigger] t[k])
}

/// `t` is a well-bracketed program: only tokens, no prefix closes more loops
/// than it opens, and every opened loop is closed.
pub open spec fn well_bracketed(t: Seq<u8>) -> bool {
    all_tokens(t)
        && (forall|k: int| 0 <= k <= t.len() ==> #[trigger] net_opens(t, 0, k) >= 0)
        && net_opens(t, 0, t.len() as int) == 0
}

/// The result owed by a translation frame that starts at `t[i]`: the number of
/// tokens it consumes, or the structural error it stops on.  A top-level frame
/// (`consume_all`) must use up the whole input and owns no closing `]`; a
/// nested frame must find the `]` of the loop it translates.
pub open spec fn frame_outcome(t: Seq<u8>, i: int, consume_all: bool) -> Result<int, Error> {
    match scan(t, i, 0) {
        ScanEnd::Invalid { at } => Err(
            Error { kind: ErrorKind::InvalidInput, at: Some(at as usize) },
        ),
        ScanEnd::Close { at } => if consume_all {
            Err(Error { kind: ErrorKind::InvalidInput, at: Some(at as usize) })
        } else {
            Ok(at + 1 - i)
        },
        ScanEnd::Exhausted { depth } => if consume_all && depth == 0 {
            Ok(t.len() - i)
        } else {
            Err(Error { kind: ErrorKind::InvalidInput, at: None })
        },
    }
}

/// The result owed by a whole translation of `t`.
pub open spec fn outcome(t: Seq<u8>) -> Result<int, Error> {
    frame_outcome(t, 0, true)
}

/// Where the walk of the frame starting at `t[i]` stops: the offending byte
/// on a structural error, the frame's own `]`, or the end of the input.  No
/// token at or past this position contributes to what the frame emits.
pub open spec fn scan_stop(t: Seq<u8>, i: int) -> int {
    match scan(t, i, 0) {
        ScanEnd::Invalid { at } => at,
        ScanEnd::Close { at } => at,
        ScanEnd::Exhausted { .. } => t.len() as int,
    }
}

/// Counting open loops over `t[i..k]` is the first byte's step plus the count
/// over `t[i+1..k]`.
proof fn lemma_net_opens_split(t: Seq<u8>, i: int, k: int)
    requires
        i < k,
    ensures
        net_opens(t, i, k) == depth_step(t[i]) + net_opens(t, i + 1, k),
    decreases k - i,
{
    if k == i + 1 {
        assert(net_opens(t, i, i) == 0);
        assert(net_opens(t, i + 1, i + 1) == 0);
    } else {
        lemma_net_opens_split(t, i, k - 1);
        assert(net_opens(t, i, k) == net_opens(t, i, k - 1) + depth_step(t[k - 1]));
        assert(net_opens(t, i + 1, k) == net_opens(t, i + 1, k - 1) + depth_step(t[k - 1]));
    }
}

/// A walk over tokens that never meets a `]` at depth zero runs straight
/// through to `p`, its depth following the bracket count.
proof fn lemma_scan_advance(t: Seq<u8>, i: int, p: int, d: nat)
    requires
        0 <= i <= p <= t.len(),
        forall|k: int| i <= k < p ==> is_token(#[trigger] t[k]),
        forall|k: int| i <= k < p && #[trigger] t[k] == CLOSE ==> d + net_opens(t, i, k) >= 1,
    ensures
        d + net_opens(t, i, p) >= 0,
        scan(t, i, d) == scan(t, p, (d + net_opens(t, i, p)) as nat),
    decreases p - i,
{
    if i == p {
    } else {
        assert forall|k: int| i < k < p implies net_opens(t, i, k) == depth_step(t[i])
            + net_opens(t, i + 1, k) by {
            lemma_net_opens_split(t, i, k);
        }
        lemma_net_opens_split(t, i, p);
        if t[i] == CLOSE {
            assert(d + net_opens(t, i, i) >= 1);
            lemma_scan_advance(t, i + 1, p, (d - 1) as nat);
        } else if t[i] == OPEN {
            lemma_scan_advance(t, i + 1, p, d + 1);
        } else {
            lemma_scan_advance(t, i + 1, p, d);
        }
    }
}

/// What must have held of `t[i..]` for a walk to run off the end of the input:
/// only tokens, and never a `]` at depth zero.
proof fn lemma_scan_exhausted_props(t: Seq<u8>, i: int, d: nat)
    requires
        0 <= i <= t.len(),
        scan(t, i, d) is Exhausted,
    ensures
        forall|k: int| i <= k < t.len() ==> is_token(#[trigger] t[k]),
        forall|k: int|
            i <= k < t.len() && #[trigger] t[k] == CLOSE ==> d + net_opens(t, i, k) >= 1,
        scan(t, i, d) == (ScanEnd::Exhausted { depth: (d + net_opens(t, i, t.len() as int)) as nat }),
    decreases t.len() - i,
{
    if i == t.len() {
    } else {
        assert forall|k: int| i < k <= t.len() implies net_opens(t, i, k) == depth_step(t[i])
            + net_opens(t, i + 1, k) by {
            lemma_net_opens_split(t, i, k);
        }
        if t[i] == CLOSE {
            lemma_scan_exhausted_props(t, i + 1, (d - 1) as nat);
        } else if t[i] == OPEN {
            lemma_scan_exhausted_props(t, i + 1, d + 1);
        } else {
            lemma_scan_exhausted_props(t, i + 1, d);
        }
    }
}

/// Where a walk stops on a closing `]`, that position holds a `]` and lies
/// within the input.
pub(crate) proof fn lemma_scan_close_bounds(t: Seq<u8>, i: int, d: nat)
    requires
        0 <= i,
        scan(t, i, d) is Close,
    ensures
        i <= scan(t, i, d)->Close_at < t.len(),
        t[scan(t, i, d)->Close_at] == CLOSE,
    decreases t.len() - i,
{
    if i >= t.len() {
    } else if !is_token(t[i]) {
    } else if t[i] == CLOSE {
        if d != 0 {
            lemma_scan_close_bounds(t, i + 1, (d - 1) as nat);
        }
    } else if t[i] == OPEN {
        lemma_scan_close_bounds(t, i + 1, d + 1);
    } else {
        lemma_scan_close_bounds(t, i + 1, d);
    }
}

/// Where the frame starting at `t[i]` stops consuming tokens: the first
/// token of this frame whose handling fails or ends the frame — an invalid
/// byte, a `]`, or a `[` whose loop never finds its close — or the end of
/// the input.  A frame emits exactly the code of the tokens before this
/// position, whether it succeeds or fails.
pub open spec fn fail_boundary(t: Seq<u8>, i: int) -> int
    decreases t.len() - i,
    via fail_boundary_decreases
{
    if i < 0 || i >= t.len() {
        t.len() as int
    } else if !is_token(t[i]) {
        i
    } else if t[i] == CLOSE {
        i
    } else if t[i] == OPEN {
        match scan(t, i + 1, 0) {
            ScanEnd::Close { at } => fail_boundary(t, at + 1),
            _ => i,
        }
    } else {
        fail_boundary(t, i + 1)
    }
}

#[via_fn]
proof fn fail_boundary_decreases(t: Seq<u8>, i: int) {
    if 0 <= i < t.len() && is_token(t[i]) && t[i] == OPEN && scan(t, i + 1, 0) is Close {
        lemma_scan_close_bounds(t, i + 1, 0);
    }
}

/// Where a walk stops on an invalid byte, that position holds the invalid
/// byte and lies within the input.
pub(crate) proof fn lemma_scan_invalid_bounds(t: Seq<u8>, i: int, d: nat)
    requires
        0 <= i,
        scan(t, i, d) is Invalid,
    ensures
        i <= scan(t, i, d)->Invalid_at < t.len(),
        !is_token(t[scan(t, i, d)->Invalid_at]),
    decreases t.len() - i,
{
    if i >= t.len() {
    } else if !is_token(t[i]) {
    } else if t[i] == CLOSE {
        if d != 0 {
            lemma_scan_invalid_bounds(t, i + 1, (d - 1) as nat);
        }
    } else if t[i] == OPEN {
        lemma_scan_invalid_bounds(t, i + 1, d + 1);
    } else {
        lemma_scan_invalid_bounds(t, i + 1, d);
    }
}

/// Walking under one extra open loop continues, past the `]` that would have
/// closed the outermost loop, as a fresh walk.
pub(crate) proof fn lemma_scan_shift(t: Seq<u8>, i: int, d: nat)
    requires
        0 <= i,
    ensures
        scan(t, i, d + 1) == (match scan(t, i, d) {
            ScanEnd::Invalid { at } => ScanEnd::Invalid { at },
            ScanEnd::Close { at } => scan(t, at + 1, 0),
            ScanEnd::Exhausted { depth } => ScanEnd::Exhausted { depth: depth + 1 },
        }),
    decreases t.len() - i,
{
    if i >= t.len() {
    } else if !is_token(t[i]) {
    } else if t[i] == CLOSE {
        if d != 0 {
            lemma_scan_shift(t, i + 1, (d - 1) as nat);
        }
    } else if t[i] == OPEN {
        lemma_scan_shift(t, i + 1, d + 1);
    } else {
        lemma_scan_shift(t, i + 1, d);
    }
}

/// Every well-bracketed program is accepted, and the top-level frame consumes
/// exactly the whole input.
pub proof fn lemma_well_bracketed_accepted(t: Seq<u8>)
    requires
        well_bracketed(t),
    ensures
        outcome(t) == Ok::<int, Error>(t.len() as int),
{
    assert forall|k: int| 0 <= k < t.len() && #[trigger] t[k] == CLOSE implies net_opens(
        t,
        0,
        k,
    ) >= 1 by {
        assert(net_opens(t, 0, k + 1) == net_opens(t, 0, k) + depth_step(t[k]));
        assert(net_opens(t, 0, k + 1) >= 0);
    }
    lemma_scan_advance(t, 0, t.len() as int, 0);
}

/// A `]` preceded by no unmatched `[` is rejected.
pub proof fn lemma_stray_close_rejected(t: Seq<u8>, p: int)
    requires
        0 <= p < t.len(),
        t[p] == CLOSE,
        net_opens(t, 0, p) <= 0,
    ensures
        outcome(t) is Err,
{
    if outcome(t) is Ok {
        assert(scan(t, 0, 0) is Exhausted);
        lemma_scan_exhausted_props(t, 0, 0);
    }
}

/// A program that opens more loops than it closes is rejected.
pub proof fn lemma_unclosed_rejected(t: Seq<u8>)
    requires
        net_opens(t, 0, t.len() as int) > 0,
    ensures
        outcome(t) is Err,
{
    if outcome(t) is Ok {
        assert(scan(t, 0, 0) is Exhausted);
        lemma_scan_exhausted_props(t, 0, 0);
        assert(scan(t, 0, 0)->Exhausted_depth == net_opens(t, 0, t.len() as int));
    }
}

/// A program holding any byte outside the token set is rejected.
pub proof fn lemma_invalid_byte_rejected(t: Seq<u8>, p: int)
    requires
        0 <= p < t.len(),
        !is_token(t[p]),
    ensures
        outcome(t) is Err,
{
    if outcome(t) is Ok {
        assert(scan(t, 0, 0) is Exhausted);
        lemma_scan_exhausted_props(t, 0, 0);
    }
}

/// The first offending byte names the reported position: where everything
/// before `p` is a token and no `]` before `p` is unmatched, an invalid byte
/// at `p` is reported at exactly `p`.
pub proof fn lemma_invalid_byte_position(t: Seq<u8>, p: int)
    requires
        0 <= p < t.len(),
        !is_token(t[p]),
        forall|k: int| 0 <= k < p ==> is_token(#[trigger] t[k]),
        forall|k: int| 0 <= k < p && #[trigger] t[k] == CLOSE ==> net_opens(t, 0, k) >= 1,
    ensures
        outcome(t) == Err::<int, Error>(
            Error { kind: ErrorKind::InvalidInput, at: Some(p as usize) },
        ),
{
    lemma_scan_advance(t, 0, p, 0);
}

} // verus!
