//! The executable engine, specified against the abstract machine of
//! [`crate::model`]: construction, single-step, run-to-completion, and the
//! read-only introspection accessors.

use crate::model::{
    cell_of, init_machine, is_instr, lemma_next_pos, next_pos, step_fails, step_machine,
    steps_to, stopped, Machine, TAPE_LEN,
};
use vstd::prelude::*;
use vstd::std_specs::iter::IteratorSpec;

verus! {

/// The one fatal condition: a `]` was dispatched while the loop stack was
/// empty, which marks a malformed program with an unmatched close bracket.
#[derive(Clone, Copy, Debug, PartialEq, Eq, Structural)]
pub enum StepError {
    UnmatchedCloseBracket,
}

/// The execution engine: tape, data pointer, source text, instruction
/// cursor, loop stack, skip-mode bookkeeping, and output buffer.
///
/// The engine owns all of its state; callers drive it through [`Self::step`]
/// and [`Self::run`] and read it back through the accessors.
pub struct Interpreter {
    /// The byte tape, `TAPE_LEN` zero-initialized cells.
    pub tape: Vec<u8>,
    /// The data pointer; may transiently equal `TAPE_LEN` (the sentinel).
    pub data_pointer: usize,
    /// The source text, immutable after construction.
    pub src: String,
    /// The source text split into its characters, kept equal to `src` so the
    /// engine can index it in constant time.
    pub chars: Vec<char>,
    /// The accumulated output text.
    pub output: String,
    /// The instruction cursor.
    pub current: usize,
    /// The loop stack of open-bracket positions.
    pub parens: Vec<usize>,
    /// Nested loops entered and not yet closed while skipping.
    pub inner_loops: usize,
    /// Skip mode: scanning past a loop body whose guard was zero.
    pub looping: bool,
}

impl View for Interpreter {
    type V = Machine;

    open spec fn view(&self) -> Machine {
        Machine {
            tape: self.tape@,
            dp: self.data_pointer as nat,
            src: self.src@,
            out: self.output@,
            cursor: self.current as nat,
            stack: self.parens@.map_values(|p: usize| p as nat),
            inner: self.inner_loops as nat,
            skipping: self.looping,
        }
    }
}

/// Relies on std's `String::push`: appends the given character to the end of
/// the string.
#[verifier::external_body]
fn push_char(s: &mut String, c: char)
    ensures
        final(s)@ == old(s)@.push(c),
{
    s.push(c)
}

/// Whether `c` is one of the recognized instruction characters.
fn is_instr_char(c: char) -> (r: bool)
    ensures
        r == is_instr(c),
{
    c == '+' || c == '-' || c == '>' || c == '<' || c == '[' || c == ']' || c == '.' || c == ','
        || c == '#'
}

impl Interpreter {
    /// The engine's invariant: the abstract machine's well-formedness, and
    /// the character mirror of the source agreeing with the source.
    pub open spec fn wf(&self) -> bool {
        &&& self@.wf()
        &&& self.chars@ == self.src@
    }

    /// Constructs an engine over `src`: all-zero tape, data pointer 0, empty
    /// output and loop stack, skip mode off, and the cursor placed at the
    /// first recognized instruction character of the source.
    pub fn new(src: String) -> (r: Interpreter)
        requires
            1 <= src@.len(),
        ensures
            r.wf(),
            r@ == init_machine(src@),
    {
        let mut cs: Vec<char> = Vec::new();
        let mut it = src.as_str().chars();
        loop
            invariant
                it.decrease() is Some,
                cs@ + it.remaining() == src@,
            ensures
                cs@ == src@,
            decreases it.decrease()->0,
        {
            match it.next() {
                Some(c) => {
                    cs.push(c);
                    proof {
                        assert(cs@ + it.remaining() =~= src@);
                    }
                },
                None => {
                    proof {
                        assert(cs@ =~= src@);
                    }
                    break ;
                },
            }
        }
        let len = cs.len();
        let mut tape: Vec<u8> = Vec::new();
        while tape.len() < TAPE_LEN
            invariant
                tape@.len() <= TAPE_LEN,
                forall|i: int| 0 <= i < tape@.len() ==> tape@[i] == 0u8,
            decreases TAPE_LEN - tape@.len(),
        {
            tape.push(0u8);
        }
        let mut current: usize = 0;
        while current + 1 < len && !is_instr_char(cs[current])
            invariant
                cs@ == src@,
                len == src@.len(),
                1 <= len,
                current < len,
                next_pos(src@, 0) == next_pos(src@, current as int),
            decreases len - current,
        {
            current = current + 1;
        }
        proof {
            lemma_next_pos(src@, 0);
        }
        let r = Interpreter {
            tape,
            data_pointer: 0,
            src,
            chars: cs,
            output: String::new(),
            current,
            parens: Vec::new(),
            inner_loops: 0,
            looping: false,
        };
        proof {
            assert(r@ =~= init_machine(r.src@));
        }
        r
    }

    /// True exactly when the cursor rests at the final character of the
    /// source text.
    pub fn finished(&self) -> (r: bool)
        requires
            self.wf(),
        ensures
            r == self@.finished(),
    {
        self.chars.len() - 1 == self.current
    }

    /// The character of the source text at position `index`.
    pub fn peek_inst(&self, index: usize) -> (r: char)
        requires
            self.wf(),
            index < self@.src.len(),
        ensures
            r == self@.src[index as int],
    {
        self.chars[index]
    }

    /// The character under the instruction cursor.
    pub fn current_instruction(&self) -> (r: char)
        requires
            self.wf(),
        ensures
            r == self@.src[self@.cursor as int],
    {
        self.peek_inst(self.current)
    }

    /// The tape index the cell instructions act on: the data pointer, or
    /// cell 0 when the pointer sits at the wraparound sentinel.
    fn cell_slot(&self) -> (r: usize)
        requires
            self.wf(),
        ensures
            r as int == cell_of(self@.dp),
            r < TAPE_LEN,
    {
        if self.data_pointer == TAPE_LEN {
            0
        } else {
            self.data_pointer
        }
    }

    /// The value of the currently addressed cell.
    pub fn peek_cell(&self) -> (r: u8)
        requires
            self.wf(),
        ensures
            r == self@.tape[cell_of(self@.dp)],
    {
        let i = self.cell_slot();
        self.tape[i]
    }

    /// The currently addressed cell, read as a character.
    pub fn peek_char(&self) -> (r: char)
        requires
            self.wf(),
        ensures
            r == self@.tape[cell_of(self@.dp)] as char,
    {
        self.peek_cell() as char
    }

    /// The position of the last recognized instruction character strictly
    /// before the cursor, found by scanning backward.
    fn last_legal_inst(&self) -> (r: usize)
        requires
            self.wf(),
            exists|j: int| 0 <= j < self.current && is_instr(self@.src[j]),
        ensures
            r < self.current,
            is_instr(self@.src[r as int]),
            forall|k: int| r < k < self.current ==> !is_instr(#[trigger] self@.src[k]),
    {
        let mut result: usize = self.current - 1;
        while !is_instr_char(self.peek_inst(result))
            invariant
                self.wf(),
                result < self.current,
                exists|j: int| 0 <= j <= result && is_instr(self@.src[j]),
                forall|k: int| result < k < self.current ==> !is_instr(#[trigger] self@.src[k]),
            decreases result,
        {
            result = result - 1;
        }
        result
    }

    /// Consumes the instruction under the cursor: returns it, then moves the
    /// cursor forward past any inert characters, to the next recognized
    /// instruction or to the final position.  On a finished program it
    /// returns the null sentinel and leaves the state unchanged.
    fn advance(&mut self) -> (c: char)
        requires
            old(self).wf(),
        ensures
            final(self).wf(),
            old(self)@.finished() ==> c == '\0' && final(self)@ == old(self)@,
            !old(self)@.finished() ==> c == old(self)@.src[old(self)@.cursor as int]
                && final(self)@ == (Machine {
                cursor: next_pos(old(self)@.src, old(self)@.cursor as int + 1) as nat,
                ..old(self)@
            }),
    {
        if self.finished() {
            return '\0';
        }
        let len = self.chars.len();
        let result = self.current_instruction();
        self.current = self.current + 1;
        while self.current + 1 < len && !is_instr_char(self.chars[self.current])
            invariant
                self.chars@ == self@.src,
                len == self@.src.len(),
                old(self)@.cursor < self@.cursor,
                self.current < len,
                self@ == (Machine { cursor: self@.cursor, ..old(self)@ }),
                next_pos(self@.src, old(self)@.cursor as int + 1) == next_pos(
                    self@.src,
                    self.current as int,
                ),
            decreases len - self.current,
        {
            self.current = self.current + 1;
        }
        proof {
            lemma_next_pos(old(self)@.src, old(self)@.cursor as int + 1);
            assert(self@ =~= (Machine {
                cursor: next_pos(old(self)@.src, old(self)@.cursor as int + 1) as nat,
                ..old(self)@
            }));
        }
        result
    }

    /// Executes one instruction, exactly as [`step_machine`] describes: in
    /// skip mode only the nesting counter and the cursor move; otherwise the
    /// instruction under the cursor is consumed and dispatched.  The one
    /// error is an unmatched close bracket ([`step_fails`]); the engine is
    /// then left with the cursor moved past the offending `]`.
    ///
    /// A finished program in skip mode still reads the final character for
    /// its bracket bookkeeping without moving the cursor, so repeatedly
    /// stepping such a state at an open bracket grows the nesting counter in
    /// place; that one corner carries the precondition keeping the counter
    /// below `usize::MAX`.  Run-to-completion never steps a finished state.
    pub fn step(&mut self) -> (r: Result<(), StepError>)
        requires
            old(self).wf(),
            old(self)@.skipping && old(self)@.finished() && old(self)@.src[old(
                self,
            )@.cursor as int] == '[' ==> old(self).inner_loops < usize::MAX,
        ensures
            final(self).wf(),
            final(self)@ == step_machine(old(self)@),
            r == (if step_fails(old(self)@) {
                Result::<(), StepError>::Err(StepError::UnmatchedCloseBracket)
            } else {
                Result::<(), StepError>::Ok(())
            }),
    {
        let ghost pre = self@;
        if self.looping {
            let c = self.current_instruction();
            self.advance();
            if c == '[' {
                self.inner_loops = self.inner_loops + 1;
            } else if c == ']' {
                if self.inner_loops == 0 {
                    self.looping = false;
                } else {
                    self.inner_loops = self.inner_loops - 1;
                }
            }
            proof {
                if !pre.finished() {
                    lemma_next_pos(pre.src, pre.cursor as int + 1);
                }
                assert(self@ =~= step_machine(pre));
            }
            return Ok(());
        }

        match self.advance() {
            '>' => {
                if self.data_pointer < TAPE_LEN {
                    self.data_pointer = self.data_pointer + 1;
                } else {
                    self.data_pointer = 0;
                }
            },
            '<' => {
                if self.data_pointer != 0 {
                    self.data_pointer = self.data_pointer - 1;
                } else {
                    self.data_pointer = TAPE_LEN;
                }
            },
            '+' => {
                let i = self.cell_slot();
                let v = self.tape[i];
                self.tape[i] = if v == 255 {
                    0
                } else {
                    v + 1
                };
            },
            '-' => {
                let i = self.cell_slot();
                let v = self.tape[i];
                self.tape[i] = if v == 0 {
                    255
                } else {
                    v - 1
                };
            },
            '[' => {
                if self.peek_cell() == 0 {
                    self.looping = true;
                } else {
                    proof {
                        lemma_next_pos(pre.src, pre.cursor as int + 1);
                        assert(is_instr(pre.src[pre.cursor as int]));
                        assert((pre.cursor as int) < self.current);
                        assert(exists|j: int|
                            0 <= j < self.current && is_instr(self@.src[j])) by {
                            assert(is_instr(self@.src[pre.cursor as int]));
                        }
                    }
                    let p = self.last_legal_inst();
                    proof {
                        assert(p as int == pre.cursor as int) by {
                            if p as int > pre.cursor as int {
                                assert(!is_instr(pre.src[p as int]));
                            }
                            if (p as int) < pre.cursor as int {
                                assert(!is_instr(self@.src[pre.cursor as int]));
                            }
                        }
                    }
                    self.parens.push(p);
                    proof {
                        assert(self@.stack =~= pre.stack.push(pre.cursor));
                    }
                }
            },
            ']' => {
                let nonzero = self.peek_cell() != 0;
                match self.parens.pop() {
                    None => {
                        proof {
                            assert(pre.stack.len() == 0);
                            assert(self@ =~= step_machine(pre));
                        }
                        return Err(StepError::UnmatchedCloseBracket);
                    },
                    Some(p) => {
                        proof {
                            assert(self@.stack =~= pre.stack.drop_last());
                            assert(p as nat == pre.stack.last());
                        }
                        if nonzero {
                            self.current = p;
                        }
                    },
                }
            },
            '.' => {
                let ch = self.peek_char();
                push_char(&mut self.output, ch);
            },
            _ => {},
        }
        proof {
            assert(self@ =~= step_machine(pre));
        }
        Ok(())
    }

    /// The source text together with the current cursor position, for
    /// highlighting the next instruction.
    pub fn get_source_with_inst_pointer(&self) -> (r: (&str, usize))
        ensures
            r.0@ == self@.src,
            r.1 == self@.cursor,
    {
        (self.src.as_str(), self.current)
    }

    /// The tape cells of the window `[from, to)` together with the data
    /// pointer's position relative to the start of the window, saturating to
    /// 0 when the pointer lies before it.
    pub fn get_range_from_tape(&self, from: usize, to: usize) -> (r: (Vec<u8>, usize))
        requires
            self.wf(),
            to <= TAPE_LEN,
        ensures
            from <= to ==> r.0@ == self@.tape.subrange(from as int, to as int),
            from > to ==> r.0@ == Seq::<u8>::empty(),
            r.1 as int == if self@.dp >= from {
                self@.dp - from
            } else {
                0
            },
    {
        let mut result: Vec<u8> = Vec::new();
        let mut i: usize = from;
        while i < to
            invariant
                self.wf(),
                to <= TAPE_LEN,
                from <= i,
                from <= to ==> i <= to,
                from > to ==> i == from,
                from <= to ==> result@ =~= self@.tape.subrange(from as int, i as int),
                from > to ==> result@.len() == 0,
            decreases to - i,
        {
            result.push(self.tape[i]);
            i = i + 1;
            proof {
                assert(result@ =~= self@.tape.subrange(from as int, i as int));
            }
        }
        proof {
            if from > to {
                assert(result@ =~= Seq::<u8>::empty());
            }
        }
        let offset = if self.data_pointer >= from {
            self.data_pointer - from
        } else {
            0
        };
        (result, offset)
    }

    /// Runs the engine to completion: repeatedly single-steps while the
    /// program is not finished and the character under the cursor is not the
    /// terminator, which is never dispatched.  Stops with the unmatched
    /// close bracket error if a step raises it.
    ///
    /// The loop carries a step counter so that Verus can see it is bounded;
    /// a run of `usize::MAX` steps is unreachable in practice, but the
    /// contract states that possibility rather than hiding it.
    pub fn run(&mut self) -> (r: Result<(), StepError>)
        requires
            old(self).wf(),
        ensures
            final(self).wf(),
            final(self)@.src == old(self)@.src,
            r is Ok ==> (exists|n: nat|
                steps_to(old(self)@, final(self)@, n) && (stopped(final(self)@) || n
                    == usize::MAX)),
            r is Err ==> r == Result::<(), StepError>::Err(StepError::UnmatchedCloseBracket)
                && (exists|n: nat, m: Machine|
                steps_to(old(self)@, m, n) && step_fails(m) && final(self)@ == step_machine(m)),
    {
        let ghost m0 = self@;
        let mut steps: usize = 0;
        while steps < usize::MAX && !self.finished() && self.current_instruction() != '#'
            invariant
                m0 == old(self)@,
                self.wf(),
                self@.src == m0.src,
                steps_to(m0, self@, steps as nat),
            decreases usize::MAX - steps,
        {
            let ghost pre = self@;
            let res = self.step();
            match res {
                Result::Err(e) => {
                    proof {
                        assert(step_fails(pre));
                        assert(self@ == step_machine(pre));
                        assert(self@.src == pre.src);
                        assert(exists|n: nat, m: Machine|
                            steps_to(old(self)@, m, n) && step_fails(m) && self@
                                == step_machine(m)) by {
                            assert(steps_to(old(self)@, pre, steps as nat) && step_fails(pre)
                                && self@ == step_machine(pre));
                        }
                    }
                    return Err(e);
                },
                Result::Ok(()) => {},
            }
            proof {
                crate::model::lemma_steps_to_snoc(m0, pre, steps as nat);
            }
            steps = steps + 1;
        }
        Ok(())
    }
}

} // verus!
