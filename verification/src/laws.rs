//! Laws of the abstract machine: statements that relate several operations
//! or whole executions, proved once and for all inputs.

use crate::model::{dec8, inc8, step_machine, steps_to, Machine, TAPE_LEN};
use vstd::prelude::*;

verus! {

/// `v` incremented `n` times with 8-bit wraparound: the update the `+`
/// instruction applies, iterated.
pub open spec fn inc8_n(v: u8, n: nat) -> u8
    decreases n,
{
    if n == 0 {
        v
    } else {
        inc8(inc8_n(v, (n - 1) as nat))
    }
}

/// `v` decremented `n` times with 8-bit wraparound: the update the `-`
/// instruction applies, iterated.
pub open spec fn dec8_n(v: u8, n: nat) -> u8
    decreases n,
{
    if n == 0 {
        v
    } else {
        dec8(dec8_n(v, (n - 1) as nat))
    }
}

/// One decrement undoes one increment.
pub proof fn lemma_dec8_undoes_inc8(v: u8)
    ensures
        dec8(inc8(v)) == v,
{
}

/// Iterated decrement can peel its first application instead of its last.
proof fn lemma_dec8_n_shift(v: u8, n: nat)
    requires
        n >= 1,
    ensures
        dec8_n(v, n) == dec8_n(dec8(v), (n - 1) as nat),
    decreases n,
{
    if n == 1 {
        assert(dec8_n(v, 1) == dec8(dec8_n(v, 0)));
        assert(dec8_n(dec8(v), 0) == dec8(v));
    } else {
        lemma_dec8_n_shift(v, (n - 1) as nat);
        assert(dec8_n(v, n) == dec8(dec8_n(v, (n - 1) as nat)));
        assert(dec8_n(dec8(v), (n - 1) as nat) == dec8(dec8_n(dec8(v), (n - 2) as nat)));
    }
}

/// `n` increments followed by `n` decrements return a cell to its starting
/// value — in particular a zero cell returns to 0.  This holds for every
/// count, the counts up to 255 included.
pub proof fn lemma_inc8_then_dec8_round_trip(v: u8, n: nat)
    ensures
        dec8_n(inc8_n(v, n), n) == v,
    decreases n,
{
    if n > 0 {
        lemma_dec8_n_shift(inc8_n(v, n), n);
        lemma_dec8_undoes_inc8(inc8_n(v, (n - 1) as nat));
        lemma_inc8_then_dec8_round_trip(v, (n - 1) as nat);
    }
}

/// As long as no wraparound is reached, iterated increment is plain addition.
proof fn lemma_inc8_n_small(v: u8, n: nat)
    requires
        v + n <= 255,
    ensures
        inc8_n(v, n) == v + n,
    decreases n,
{
    if n > 0 {
        lemma_inc8_n_small(v, (n - 1) as nat);
    }
}

/// The increment applied 256 times to a zero cell yields 0: the cell wraps
/// around exactly at 256.
pub proof fn lemma_inc8_wraps_at_256()
    ensures
        inc8_n(0, 256) == 0,
{
    lemma_inc8_n_small(0, 255);
    assert(inc8_n(0, 256) == inc8(inc8_n(0, 255)));
}

/// While the engine is skipping a loop body, a step moves only the cursor
/// and the nesting bookkeeping: tape, data pointer, output, and loop stack
/// are untouched.  The body of a skipped loop is never executed.
pub proof fn lemma_skip_leaves_data(m: Machine)
    requires
        m.skipping,
    ensures
        step_machine(m).tape == m.tape,
        step_machine(m).dp == m.dp,
        step_machine(m).out == m.out,
        step_machine(m).stack == m.stack,
{
}

/// Two clean step paths concatenate.
pub proof fn lemma_steps_to_trans(a: Machine, b: Machine, c: Machine, i: nat, j: nat)
    requires
        steps_to(a, b, i),
        steps_to(b, c, j),
    ensures
        steps_to(a, c, i + j),
    decreases i,
{
    if i > 0 {
        lemma_steps_to_trans(step_machine(a), b, c, (i - 1) as nat, j);
    }
}

/// The all-zero tape.
pub open spec fn zero_tape() -> Seq<u8> {
    Seq::new(TAPE_LEN as nat, |i: int| 0u8)
}

/// The clear-loop program, a loop that decrements the current cell until it
/// is zero, with the terminator as the final character.
pub open spec fn clear_loop_src() -> Seq<char> {
    seq!['[', '-', ']', '#']
}

/// The machine about to run the clear loop on a current cell holding `v`.
pub open spec fn clear_loop_start(v: u8) -> Machine {
    Machine {
        tape: zero_tape().update(0, v),
        dp: 0,
        src: clear_loop_src(),
        out: Seq::empty(),
        cursor: 0,
        stack: Seq::empty(),
        inner: 0,
        skipping: false,
    }
}

/// The machine after the clear loop has run: the cell is 0 and the cursor
/// rests on the terminator.
pub open spec fn clear_loop_end() -> Machine {
    Machine {
        tape: zero_tape(),
        dp: 0,
        src: clear_loop_src(),
        out: Seq::empty(),
        cursor: 3,
        stack: Seq::empty(),
        inner: 0,
        skipping: false,
    }
}

/// The clear loop decrements a cell holding any non-zero `v` down to 0 and
/// exits, and skips its body entirely on a cell already 0: from
/// [`clear_loop_start`] the machine reaches [`clear_loop_end`] — the cell
/// zero, the tape otherwise untouched — in 3 steps when `v` is 0 (the whole
/// body skipped) and in `3 * v` steps otherwise.
pub proof fn lemma_clear_loop(v: u8)
    ensures
        steps_to(
            clear_loop_start(v),
            clear_loop_end(),
            if v == 0 {
                3nat
            } else {
                (3 * v) as nat
            },
        ),
    decreases v,
{
    let m0 = clear_loop_start(v);
    let m1 = step_machine(m0);
    let m2 = step_machine(m1);
    let m3 = step_machine(m2);
    if v <= 1 {
        assert(m3 =~= clear_loop_end());
        assert(steps_to(m3, clear_loop_end(), 0));
        assert(steps_to(m2, clear_loop_end(), 1));
        assert(steps_to(m1, clear_loop_end(), 2));
        assert(steps_to(m0, clear_loop_end(), 3));
    } else {
        assert(m3 =~= clear_loop_start((v - 1) as u8));
        assert(steps_to(m3, m3, 0));
        assert(steps_to(m2, m3, 1));
        assert(steps_to(m1, m3, 2));
        assert(steps_to(m0, m3, 3));
        lemma_clear_loop((v - 1) as u8);
        lemma_steps_to_trans(m0, m3, clear_loop_end(), 3, (3 * (v - 1)) as nat);
    }
}

} // verus!

