//! The abstract machine: a ghost-level picture of the engine's state and the
//! one-step transition function that every executable operation is specified
//! against.

use vstd::prelude::*;

verus! {

/// Number of cells on the tape.
pub const TAPE_LEN: usize = 30000;

/// The characters the engine recognizes as instructions.  Every other
/// character is inert: the cursor skips over it and it is never dispatched.
pub open spec fn is_instr(c: char) -> bool {
    ||| c == '+'
    ||| c == '-'
    ||| c == '>'
    ||| c == '<'
    ||| c == '['
    ||| c == ']'
    ||| c == '.'
    ||| c == ','
    ||| c == '#'
}

/// Abstract state of the execution engine.
#[verifier::ext_equal]
pub ghost struct Machine {
    /// The byte tape.
    pub tape: Seq<u8>,
    /// The data pointer.  May transiently equal `TAPE_LEN` (the wraparound
    /// sentinel) after a move; cell instructions at the sentinel act on cell
    /// 0, the position the sentinel wraps to.
    pub dp: nat,
    /// The source text, never mutated.
    pub src: Seq<char>,
    /// The append-only output buffer.
    pub out: Seq<char>,
    /// The instruction cursor: index into `src` of the next instruction.
    pub cursor: nat,
    /// The loop stack: source positions of the open brackets of the
    /// currently-open, non-skipped loop bodies.
    pub stack: Seq<nat>,
    /// While skipping, the number of nested loops opened and not yet closed
    /// since skip mode began.
    pub inner: nat,
    /// Skip mode: scanning forward past a loop body whose guard was zero.
    pub skipping: bool,
}

impl Machine {
    /// The program is finished when the cursor rests at the final character.
    pub open spec fn finished(self) -> bool {
        self.cursor == self.src.len() - 1
    }

    /// Well-formedness: what construction establishes and every step keeps.
    /// The tape has its fixed length; the pointer is at most the sentinel;
    /// the cursor sits on an instruction or at the final position; every
    /// loop-stack entry marks an open bracket; and the nesting counter is
    /// zero outside skip mode and, while the cursor can still move, bounded
    /// by it — each nested open bracket was passed at a distinct earlier
    /// position, which keeps the counter from ever overflowing a `usize`.
    pub open spec fn wf(self) -> bool {
        &&& self.tape.len() == TAPE_LEN
        &&& self.dp <= TAPE_LEN
        &&& 1 <= self.src.len() <= usize::MAX
        &&& self.cursor < self.src.len()
        &&& (is_instr(self.src[self.cursor as int]) || self.cursor == self.src.len() - 1)
        &&& (forall|i: int|
            0 <= i < self.stack.len() ==> #[trigger] self.stack[i] < self.src.len()
                && self.src[self.stack[i] as int] == '[')
        &&& (!self.skipping ==> self.inner == 0)
        &&& (self.skipping && self.cursor < self.src.len() - 1 ==> self.inner <= self.cursor)
    }
}

/// The cell a deref-style instruction acts on: the data pointer itself, or
/// cell 0 when the pointer sits at the wraparound sentinel.
pub open spec fn cell_of(dp: nat) -> int {
    if dp == TAPE_LEN { 0 } else { dp as int }
}

/// One cell incremented with 8-bit wraparound.
pub open spec fn inc8(v: u8) -> u8 {
    if v == 255 { 0 } else { (v + 1) as u8 }
}

/// One cell decremented with 8-bit wraparound.
pub open spec fn dec8(v: u8) -> u8 {
    if v == 0 { 255 } else { (v - 1) as u8 }
}

/// Where the cursor lands when it advances from position `j`: the first
/// position at or after `j` holding a recognized instruction, or the final
/// position of the source if none comes first.
pub open spec fn next_pos(src: Seq<char>, j: int) -> int
    decreases src.len() - j,
{
    if j >= src.len() - 1 {
        src.len() - 1
    } else if is_instr(src[j]) {
        j
    } else {
        next_pos(src, j + 1)
    }
}

/// The state the engine holds right after construction from `src`.
pub open spec fn init_machine(src: Seq<char>) -> Machine {
    Machine {
        tape: Seq::new(TAPE_LEN as nat, |i: int| 0u8),
        dp: 0,
        src: src,
        out: Seq::empty(),
        cursor: next_pos(src, 0) as nat,
        stack: Seq::empty(),
        inner: 0,
        skipping: false,
    }
}

/// A single step raises the one fatal error, an unmatched close bracket:
/// a `]` is dispatched while the loop stack is empty.
pub open spec fn step_fails(m: Machine) -> bool {
    &&& !m.skipping
    &&& !m.finished()
    &&& m.src[m.cursor as int] == ']'
    &&& m.stack.len() == 0
}

/// Run-to-completion stops here: the program is finished, or the cursor sits
/// on the terminator, which is never dispatched.
pub open spec fn stopped(m: Machine) -> bool {
    m.finished() || m.src[m.cursor as int] == '#'
}

/// The one-step transition function of the engine.  In the failing case
/// ([`step_fails`]) it gives the state the engine is left in when it reports
/// the error: the cursor has moved past the offending `]`, nothing else.
pub open spec fn step_machine(m: Machine) -> Machine {
    if m.skipping {
        let c = m.src[m.cursor as int];
        let cur2 = if m.finished() {
            m.cursor
        } else {
            next_pos(m.src, m.cursor as int + 1) as nat
        };
        if c == '[' {
            Machine { cursor: cur2, inner: m.inner + 1, ..m }
        } else if c == ']' {
            if m.inner == 0 {
                Machine { cursor: cur2, skipping: false, ..m }
            } else {
                Machine { cursor: cur2, inner: (m.inner - 1) as nat, ..m }
            }
        } else {
            Machine { cursor: cur2, ..m }
        }
    } else if m.finished() {
        m
    } else {
        let c = m.src[m.cursor as int];
        let m1 = Machine { cursor: next_pos(m.src, m.cursor as int + 1) as nat, ..m };
        if c == '>' {
            Machine { dp: if m.dp < TAPE_LEN { m.dp + 1 } else { 0 }, ..m1 }
        } else if c == '<' {
            Machine { dp: if m.dp != 0 { (m.dp - 1) as nat } else { TAPE_LEN as nat }, ..m1 }
        } else if c == '+' {
            Machine { tape: m.tape.update(cell_of(m.dp), inc8(m.tape[cell_of(m.dp)])), ..m1 }
        } else if c == '-' {
            Machine { tape: m.tape.update(cell_of(m.dp), dec8(m.tape[cell_of(m.dp)])), ..m1 }
        } else if c == '[' {
            if m.tape[cell_of(m.dp)] == 0 {
                Machine { skipping: true, ..m1 }
            } else {
                Machine { stack: m.stack.push(m.cursor), ..m1 }
            }
        } else if c == ']' {
            if m.stack.len() == 0 {
                m1
            } else if m.tape[cell_of(m.dp)] != 0 {
                Machine { cursor: m.stack.last(), stack: m.stack.drop_last(), ..m1 }
            } else {
                Machine { stack: m.stack.drop_last(), ..m1 }
            }
        } else if c == '.' {
            Machine { out: m.out.push(m.tape[cell_of(m.dp)] as char), ..m1 }
        } else {
            m1
        }
    }
}

/// `m2` is reached from `m1` by exactly `n` steps, none of which started from
/// a stopped state ([`stopped`]) or a failing one ([`step_fails`]).  This is
/// the path that run-to-completion walks.
pub open spec fn steps_to(m1: Machine, m2: Machine, n: nat) -> bool
    decreases n,
{
    if n == 0 {
        m1 == m2
    } else {
        &&& !stopped(m1)
        &&& !step_fails(m1)
        &&& steps_to(step_machine(m1), m2, (n - 1) as nat)
    }
}

/// A path of `n` clean steps extends by one more whenever its end state is
/// neither stopped nor failing.
pub proof fn lemma_steps_to_snoc(a: Machine, b: Machine, n: nat)
    requires
        steps_to(a, b, n),
        !stopped(b),
        !step_fails(b),
    ensures
        steps_to(a, step_machine(b), n + 1),
    decreases n,
{
    if n == 0 {
        assert(a == b);
        assert(steps_to(step_machine(b), step_machine(b), 0));
        assert(steps_to(b, step_machine(b), 1));
    } else {
        lemma_steps_to_snoc(step_machine(a), b, (n - 1) as nat);
        assert(steps_to(step_machine(a), step_machine(b), n));
        assert(steps_to(a, step_machine(b), n + 1));
    }
}

/// What [`next_pos`] promises: the landing position is at or after the start,
/// within the source, holds an instruction unless it is the final position,
/// and everything strictly between start and landing is inert.
pub proof fn lemma_next_pos(src: Seq<char>, j: int)
    requires
        0 <= j < src.len(),
    ensures
        j <= next_pos(src, j) <= src.len() - 1,
        is_instr(src[next_pos(src, j)]) || next_pos(src, j) == src.len() - 1,
        forall|k: int| j <= k < next_pos(src, j) ==> !is_instr(#[trigger] src[k]),
    decreases src.len() - j,
{
    if j >= src.len() - 1 {
    } else if is_instr(src[j]) {
    } else {
        lemma_next_pos(src, j + 1);
    }
}

} // verus!
