//! The processor: its state, the instruction dispatcher, the fetch-execute
//! cycle and the program loader.

use vstd::prelude::*;
use crate::opcode::{Opcode, family, nnn, nn, n, x, y, family_of, nnn_of, nn_of, n_of, x_of, y_of};

verus! {

/// Bytes of addressable memory.
pub const MEMORY_SIZE: usize = 0x1000;

/// Where a program image is loaded, and where execution starts.
pub const PROGRAM_START: usize = 0x200;

/// The longest program image that the loader accepts by size.
pub const MAX_PROGRAM_LEN: usize = 4096 - 200;

/// Something that presents the pixel grid; the processor asks it to clear
/// the grid.
pub trait Render {
    fn clear(&self, screen: &mut [[bool; 64]; 32]);
}

/// Processor state.
pub struct Chip8<R: Render> {
    /// V0 to VF, one byte each.
    pub registers: [u8; 16],
    /// Return addresses; it grows without bound.
    pub stack: Vec<usize>,
    /// 0x1000 bytes of addressable memory.
    pub memory: [u8; 0x1000],
    /// The address register, I.
    pub index: u16,
    /// The program counter.
    pub counter: usize,
    /// Delay timer.
    pub delay: u8,
    /// Sound timer.
    pub sound: u8,
    /// 64 by 32 pixels, row by row.
    pub screen: [[bool; 64]; 32],
    /// What presents the screen, if anything does.
    pub renderer: Option<R>,
}

/// A condition that stops the fetch-execute cycle.
#[derive(Clone, Copy, Debug, PartialEq, Eq, Structural)]
pub enum Fault {
    /// A return with an empty stack.
    StackUnderflow,
    /// A block store or load that would reach past the end of memory.
    MemoryOutOfRange,
    /// An instruction fetch past the end of memory, or a counter that would
    /// not fit a `usize`.
    CounterOutOfRange,
}

/// What executing one instruction came to.
#[derive(Clone, Copy, Debug, PartialEq, Eq, Structural)]
pub enum Outcome {
    /// The instruction took effect.
    Executed,
    /// The instruction is not implemented; nothing changed.
    NotImplemented,
    /// A fault; nothing changed.
    Faulted(Fault),
}

/// Why a program image was not loaded.
#[derive(Clone, Copy, Debug, PartialEq, Eq, Structural)]
pub enum LoadError {
    /// The image is longer than `MAX_PROGRAM_LEN`.
    TooLarge,
    /// The image passes the size check but would run past the end of memory.
    PastMemoryEnd,
}

/// How a bounded run of the fetch-execute cycle ended.
#[derive(Clone, Copy, Debug, PartialEq, Eq, Structural)]
pub struct Halt {
    /// Cycles begun, the faulting one included.
    pub cycles: u64,
    /// Cycles whose instruction is not implemented.
    pub unimplemented: u64,
    /// The fault that stopped the run, if one did.
    pub fault: Option<Fault>,
}

/// The part of the processor state that instructions read and write,
/// screen and renderer aside.
pub struct Machine {
    pub registers: Seq<u8>,
    pub stack: Seq<usize>,
    pub memory: Seq<u8>,
    pub index: u16,
    pub counter: usize,
    pub delay: u8,
    pub sound: u8,
}

impl<R: Render> View for Chip8<R> {
    type V = Machine;

    open spec fn view(&self) -> Machine {
        Machine {
            registers: self.registers@,
            stack: self.stack@,
            memory: self.memory@,
            index: self.index,
            counter: self.counter,
            delay: self.delay,
            sound: self.sound,
        }
    }
}

/// `m` with register `i` set to `v`.
pub open spec fn with_register(m: Machine, i: int, v: u8) -> Machine {
    Machine { registers: m.registers.update(i, v), ..m }
}

/// Skips the next instruction when `cond` holds.
pub open spec fn skip_when(m: Machine, cond: bool) -> (Machine, Outcome) {
    if !cond {
        (m, Outcome::Executed)
    } else if m.counter + 2 <= usize::MAX {
        (Machine { counter: (m.counter + 2) as usize, ..m }, Outcome::Executed)
    } else {
        (m, Outcome::Faulted(Fault::CounterOutOfRange))
    }
}

/// `mem` with `regs[0 ..= last]` written at `start` onwards.
pub open spec fn stored_block(mem: Seq<u8>, regs: Seq<u8>, start: int, last: int) -> Seq<u8> {
    Seq::new(mem.len(), |i: int| if start <= i <= start + last { regs[i - start] } else { mem[i] })
}

/// `regs` with `regs[0 ..= last]` read from `mem` at `start` onwards.
pub open spec fn loaded_block(regs: Seq<u8>, mem: Seq<u8>, start: int, last: int) -> Seq<u8> {
    Seq::new(regs.len(), |i: int| if 0 <= i <= last { mem[start + i] } else { regs[i] })
}

/// The instructions of family 0x8, selected by the low nibble.
pub open spec fn arithmetic(m: Machine, op: u16) -> (Machine, Outcome) {
    let x = x_of(op) as int;
    let vx = m.registers[x];
    let vy = m.registers[y_of(op) as int];
    let mode = n_of(op);
    if mode == 0x0 {
        (with_register(m, x, vy), Outcome::Executed)
    } else if mode == 0x1 {
        (with_register(m, x, vx | vy), Outcome::Executed)
    } else if mode == 0x2 {
        (with_register(m, x, vx & vy), Outcome::Executed)
    } else if mode == 0x3 {
        (with_register(m, x, vx ^ vy), Outcome::Executed)
    } else {
        (m, Outcome::NotImplemented)
    }
}

/// The instructions of family 0xF, selected by the low byte.
pub open spec fn miscellaneous(m: Machine, op: u16) -> (Machine, Outcome) {
    let x = x_of(op) as int;
    let vx = m.registers[x];
    let mode = nn_of(op);
    if mode == 0x07 {
        (with_register(m, x, m.delay), Outcome::Executed)
    } else if mode == 0x15 {
        (Machine { delay: vx, ..m }, Outcome::Executed)
    } else if mode == 0x18 {
        (Machine { sound: vx, ..m }, Outcome::Executed)
    } else if mode == 0x1E {
        (Machine { index: ((m.index + vx) % 0x10000) as u16, ..m }, Outcome::Executed)
    } else if mode == 0x55 || mode == 0x65 {
        if m.index + x >= MEMORY_SIZE {
            (m, Outcome::Faulted(Fault::MemoryOutOfRange))
        } else if mode == 0x55 {
            (
                Machine { memory: stored_block(m.memory, m.registers, m.index as int, x), ..m },
                Outcome::Executed,
            )
        } else {
            (
                Machine { registers: loaded_block(m.registers, m.memory, m.index as int, x), ..m },
                Outcome::Executed,
            )
        }
    } else {
        (m, Outcome::NotImplemented)
    }
}

/// The effect of executing `op` on `m`, where `random` is the byte drawn
/// for the random-mask instruction. Clearing the screen changes nothing
/// here: the screen is not part of `Machine`.
pub open spec fn transition(m: Machine, op: u16, random: u8) -> (Machine, Outcome) {
    let f = family_of(op);
    let x = x_of(op) as int;
    let vx = m.registers[x];
    let nn = nn_of(op);
    let nnn = nnn_of(op);
    if f == 0x0 {
        if op == 0x00E0 {
            (m, Outcome::Executed)
        } else if op == 0x00EE {
            if m.stack.len() == 0 {
                (m, Outcome::Faulted(Fault::StackUnderflow))
            } else {
                (Machine { counter: m.stack.last(), stack: m.stack.drop_last(), ..m }, Outcome::Executed)
            }
        } else {
            (m, Outcome::NotImplemented)
        }
    } else if f == 0x1 {
        (Machine { counter: nnn as usize, ..m }, Outcome::Executed)
    } else if f == 0x2 {
        (Machine { stack: m.stack.push(m.counter), counter: nnn as usize, ..m }, Outcome::Executed)
    } else if f == 0x3 {
        skip_when(m, vx == nn)
    } else if f == 0x4 {
        skip_when(m, vx != nn)
    } else if f == 0x5 {
        skip_when(m, vx == m.registers[y_of(op) as int])
    } else if f == 0x6 {
        (with_register(m, x, nn), Outcome::Executed)
    } else if f == 0x7 {
        (with_register(m, x, ((vx + nn) % 256) as u8), Outcome::Executed)
    } else if f == 0x8 {
        arithmetic(m, op)
    } else if f == 0xA {
        (Machine { index: nnn, ..m }, Outcome::Executed)
    } else if f == 0xB {
        (Machine { counter: (nnn + m.registers[0]) as usize, ..m }, Outcome::Executed)
    } else if f == 0xC {
        (with_register(m, x, random & nn), Outcome::Executed)
    } else if f == 0xF {
        miscellaneous(m, op)
    } else {
        (m, Outcome::NotImplemented)
    }
}

/// The instruction word at `m.counter`, high byte first.
pub open spec fn fetched(m: Machine) -> u16 {
    (m.memory[m.counter as int] * 256 + m.memory[m.counter + 1]) as u16
}

/// One fetch-execute cycle: fetch the word at the counter, execute it, and
/// advance the counter by two, also after a jump, call, return or skip.
/// A fault in the fetch or in the instruction leaves the state as it was;
/// a counter that cannot advance stays where the instruction put it.
pub open spec fn cycle(m: Machine, random: u8) -> (Machine, Outcome) {
    if m.counter + 1 >= MEMORY_SIZE {
        (m, Outcome::Faulted(Fault::CounterOutOfRange))
    } else {
        let (t, out) = transition(m, fetched(m), random);
        if out is Faulted {
            (t, out)
        } else if t.counter + 2 > usize::MAX {
            (t, Outcome::Faulted(Fault::CounterOutOfRange))
        } else {
            (Machine { counter: (t.counter + 2) as usize, ..t }, out)
        }
    }
}

/// Up to `n` more cycles from `m`, stopping at the first fault, where
/// `randoms[k]` is the byte drawn in the `k`-th of them; `done` and
/// `unimplemented` count the cycles already run.
pub open spec fn run_from(
    m: Machine,
    n: nat,
    randoms: Seq<u8>,
    done: u64,
    unimplemented: u64,
) -> (Machine, Halt)
    decreases n,
{
    if n == 0 {
        (m, Halt { cycles: done, unimplemented, fault: None })
    } else {
        let (t, out) = cycle(m, randoms[0]);
        match out {
            Outcome::Faulted(f) => (t, Halt { cycles: (done + 1) as u64, unimplemented, fault: Some(f) }),
            Outcome::NotImplemented => run_from(
                t,
                (n - 1) as nat,
                randoms.drop_first(),
                (done + 1) as u64,
                (unimplemented + 1) as u64,
            ),
            Outcome::Executed => run_from(t, (n - 1) as nat, randoms.drop_first(), (done + 1) as u64, unimplemented),
        }
    }
}

/// `mem` with `image` copied in from `PROGRAM_START` on.
pub open spec fn with_image(mem: Seq<u8>, image: Seq<u8>) -> Seq<u8> {
    Seq::new(
        mem.len(),
        |i: int|
            if PROGRAM_START <= i < PROGRAM_START + image.len() {
                image[i - PROGRAM_START]
            } else {
                mem[i]
            },
    )
}

/// Relies on rand::random: a byte from the thread-local generator, of which
/// nothing is promised.
#[verifier::external_body]
fn random_byte() -> u8 {
    rand::random::<u8>()
}

impl<R: Render> Chip8<R> {
    /// A processor with everything zeroed, the counter at `PROGRAM_START`,
    /// and `renderer` attached.
    pub fn new(renderer: Option<R>) -> (r: Self)
        ensures
            r.registers@ == Seq::new(16, |_i: int| 0u8),
            r.stack@ == Seq::<usize>::empty(),
            r.memory@ == Seq::new(MEMORY_SIZE as nat, |_i: int| 0u8),
            r.index == 0,
            r.counter == PROGRAM_START,
            r.delay == 0,
            r.sound == 0,
            forall|i: int, j: int| 0 <= i < 32 && 0 <= j < 64 ==> !#[trigger] r.screen[i][j],
            r.renderer == renderer,
    {
        let r = Chip8 {
            registers: [0u8; 16],
            stack: Vec::new(),
            memory: [0u8; 0x1000],
            index: 0,
            counter: PROGRAM_START,
            delay: 0,
            sound: 0,
            screen: [[false; 64]; 32],
            renderer,
        };
        assert(r.registers@ =~= Seq::new(16, |_i: int| 0u8));
        assert(r.memory@ =~= Seq::new(MEMORY_SIZE as nat, |_i: int| 0u8));
        r
    }

    /// Copies a program image into memory from `PROGRAM_START` on. An image
    /// longer than `MAX_PROGRAM_LEN` is refused as too large; one that passes
    /// that check but does not fit below the end of memory is refused too.
    /// A refused image changes nothing.
    pub fn load(&mut self, image: &[u8]) -> (r: Result<(), LoadError>)
        ensures
            image@.len() > MAX_PROGRAM_LEN ==> r == Err::<(), LoadError>(LoadError::TooLarge),
            image@.len() <= MAX_PROGRAM_LEN && PROGRAM_START + image@.len() > MEMORY_SIZE
                ==> r == Err::<(), LoadError>(LoadError::PastMemoryEnd),
            PROGRAM_START + image@.len() <= MEMORY_SIZE ==> r is Ok,
            r is Err ==> *final(self) == *old(self),
            r is Ok ==> final(self)@ == (Machine {
                memory: with_image(old(self)@.memory, image@),
                ..old(self)@
            }),
            final(self).screen == old(self).screen,
            final(self).renderer == old(self).renderer,
    {
        if image.len() > MAX_PROGRAM_LEN {
            return Err(LoadError::TooLarge);
        }
        if image.len() > MEMORY_SIZE - PROGRAM_START {
            return Err(LoadError::PastMemoryEnd);
        }
        let mut i: usize = 0;
        while i < image.len()
            invariant
                PROGRAM_START + image@.len() <= MEMORY_SIZE,
                i <= image@.len(),
                self@ == (Machine { memory: self.memory@, ..old(self)@ }),
                self.screen == old(self).screen,
                self.renderer == old(self).renderer,
                forall|k: int|
                    0 <= k < MEMORY_SIZE ==> #[trigger] self.memory@[k] == if PROGRAM_START <= k
                        < PROGRAM_START + i {
                        image@[k - PROGRAM_START]
                    } else {
                        old(self).memory@[k]
                    },
            decreases image@.len() - i,
        {
            self.memory[PROGRAM_START + i] = image[i];
            i = i + 1;
        }
        assert(self.memory@ =~= with_image(old(self)@.memory, image@));
        Ok(())
    }

    /// Executes one instruction, drawing a random byte where the instruction
    /// is the random mask.
    pub fn emulate(&mut self, op: Opcode) -> (r: Outcome)
        ensures
            exists|random: u8| (final(self)@, r) == #[trigger] transition(old(self)@, op, random),
            family_of(op) != 0xC ==> (final(self)@, r) == transition(old(self)@, op, 0),
            final(self).renderer == old(self).renderer,
            op != 0x00E0 || old(self).renderer.is_none() ==> final(self).screen == old(self).screen,
    {
        let random = if family(op) == 0xC {
            random_byte()
        } else {
            0
        };
        self.execute(op, random)
    }

    /// One fetch-execute cycle: reads the word at the counter, executes it,
    /// and advances the counter by two.
    pub fn step(&mut self) -> (r: Outcome)
        ensures
            exists|random: u8| (final(self)@, r) == #[trigger] cycle(old(self)@, random),
            old(self).counter + 1 < MEMORY_SIZE && family_of(fetched(old(self)@)) != 0xC
                ==> (final(self)@, r) == cycle(old(self)@, 0),
            final(self).renderer == old(self).renderer,
            old(self).counter + 1 >= MEMORY_SIZE || fetched(old(self)@) != 0x00E0
                || old(self).renderer.is_none() ==> final(self).screen == old(self).screen,
    {
        if self.counter >= MEMORY_SIZE - 1 {
            assert((self@, Outcome::Faulted(Fault::CounterOutOfRange)) == cycle(self@, 0));
            return Outcome::Faulted(Fault::CounterOutOfRange);
        }
        let high = self.memory[self.counter] as u16;
        let low = self.memory[self.counter + 1] as u16;
        let op: u16 = (high << 8) | low;
        assert(op == fetched(self@)) by {
            assert((high << 8) | low == high * 256 + low) by (bit_vector)
                requires high < 256 && low < 256;
        }
        let ghost pre = self@;
        let out = self.emulate(op);
        let ghost random = choose|random: u8| (self@, out) == transition(pre, op, random);
        proof {
            if family_of(op) != 0xC {
                assert((self@, out) == transition(pre, op, 0));
            }
        }
        match out {
            Outcome::Faulted(_) => {
                assert((self@, out) == cycle(pre, random));
                out
            },
            _ => {
                if self.counter > usize::MAX - 2 {
                    assert((self@, Outcome::Faulted(Fault::CounterOutOfRange)) == cycle(pre, random));
                    Outcome::Faulted(Fault::CounterOutOfRange)
                } else {
                    self.counter = self.counter + 2;
                    assert((self@, out) == cycle(pre, random));
                    out
                }
            },
        }
    }

    /// Executes one instruction, with `random` as the byte that the
    /// random-mask instruction draws. Clearing the screen hands it to the
    /// renderer; without one it does nothing.
    pub fn execute(&mut self, op: Opcode, random: u8) -> (r: Outcome)
        ensures
            (final(self)@, r) == transition(old(self)@, op, random),
            final(self).renderer == old(self).renderer,
            op != 0x00E0 || old(self).renderer.is_none() ==> final(self).screen == old(self).screen,
    {
        let f = family(op);
        let xi = x(op) as usize;
        if f == 0x0 {
            if op == 0x00E0 {
                if let Some(renderer) = &self.renderer {
                    renderer.clear(&mut self.screen);
                }
                Outcome::Executed
            } else if op == 0x00EE {
                match self.stack.pop() {
                    Some(address) => {
                        self.counter = address;
                        Outcome::Executed
                    },
                    None => Outcome::Faulted(Fault::StackUnderflow),
                }
            } else {
                Outcome::NotImplemented
            }
        } else if f == 0x1 {
            self.counter = nnn(op) as usize;
            Outcome::Executed
        } else if f == 0x2 {
            self.stack.push(self.counter);
            self.counter = nnn(op) as usize;
            Outcome::Executed
        } else if f == 0x3 {
            let cond = self.registers[xi] == nn(op);
            self.skip_when(cond)
        } else if f == 0x4 {
            let cond = self.registers[xi] != nn(op);
            self.skip_when(cond)
        } else if f == 0x5 {
            let cond = self.registers[xi] == self.registers[y(op) as usize];
            self.skip_when(cond)
        } else if f == 0x6 {
            self.registers[xi] = nn(op);
            Outcome::Executed
        } else if f == 0x7 {
            self.registers[xi] = self.registers[xi].wrapping_add(nn(op));
            Outcome::Executed
        } else if f == 0x8 {
            self.arithmetic(op)
        } else if f == 0xA {
            self.index = nnn(op);
            Outcome::Executed
        } else if f == 0xB {
            self.counter = (nnn(op) + self.registers[0] as u16) as usize;
            Outcome::Executed
        } else if f == 0xC {
            self.registers[xi] = random & nn(op);
            Outcome::Executed
        } else if f == 0xF {
            self.miscellaneous(op)
        } else {
            Outcome::NotImplemented
        }
    }

    fn skip_when(&mut self, cond: bool) -> (r: Outcome)
        ensures
            (final(self)@, r) == skip_when(old(self)@, cond),
            final(self).renderer == old(self).renderer,
            final(self).screen == old(self).screen,
    {
        if !cond {
            Outcome::Executed
        } else if self.counter <= usize::MAX - 2 {
            self.counter = self.counter + 2;
            Outcome::Executed
        } else {
            Outcome::Faulted(Fault::CounterOutOfRange)
        }
    }

    fn arithmetic(&mut self, op: Opcode) -> (r: Outcome)
        requires
            family_of(op) == 0x8,
        ensures
            (final(self)@, r) == arithmetic(old(self)@, op),
            final(self).renderer == old(self).renderer,
            final(self).screen == old(self).screen,
    {
        let xi = x(op) as usize;
        let vx = self.registers[xi];
        let vy = self.registers[y(op) as usize];
        let mode = n(op);
        if mode == 0x0 {
            self.registers[xi] = vy;
            Outcome::Executed
        } else if mode == 0x1 {
            self.registers[xi] = vx | vy;
            Outcome::Executed
        } else if mode == 0x2 {
            self.registers[xi] = vx & vy;
            Outcome::Executed
        } else if mode == 0x3 {
            self.registers[xi] = vx ^ vy;
            Outcome::Executed
        } else {
            Outcome::NotImplemented
        }
    }

    fn miscellaneous(&mut self, op: Opcode) -> (r: Outcome)
        requires
            family_of(op) == 0xF,
        ensures
            (final(self)@, r) == miscellaneous(old(self)@, op),
            final(self).renderer == old(self).renderer,
            final(self).screen == old(self).screen,
    {
        let xi = x(op) as usize;
        let mode = nn(op);
        if mode == 0x07 {
            self.registers[xi] = self.delay;
            Outcome::Executed
        } else if mode == 0x15 {
            self.delay = self.registers[xi];
            Outcome::Executed
        } else if mode == 0x18 {
            self.sound = self.registers[xi];
            Outcome::Executed
        } else if mode == 0x1E {
            self.index = self.index.wrapping_add(self.registers[xi] as u16);
            Outcome::Executed
        } else if mode == 0x55 || mode == 0x65 {
            let start = self.index as usize;
            if start + xi >= MEMORY_SIZE {
                Outcome::Faulted(Fault::MemoryOutOfRange)
            } else if mode == 0x55 {
                store_block(&mut self.memory, &self.registers, start, xi);
                Outcome::Executed
            } else {
                load_block(&mut self.registers, &self.memory, start, xi);
                Outcome::Executed
            }
        } else {
            Outcome::NotImplemented
        }
    }

    /// Runs up to `cycles` fetch-execute cycles, stopping at the first
    /// fault. Cycles whose instruction is not implemented are counted and
    /// the run goes on past them.
    pub fn run(&mut self, cycles: u64) -> (r: Halt)
        ensures
            exists|randoms: Seq<u8>|
                randoms.len() == cycles && (final(self)@, r) == #[trigger] run_from(
                    old(self)@,
                    cycles as nat,
                    randoms,
                    0,
                    0,
                ),
            r.cycles <= cycles,
            r.unimplemented <= r.cycles,
            r.fault is None ==> r.cycles == cycles,
            final(self).renderer == old(self).renderer,
    {
        let mut done: u64 = 0;
        let mut unimplemented: u64 = 0;
        let ghost drawn: Seq<u8> = Seq::empty();
        while done < cycles
            invariant
                done <= cycles,
                unimplemented <= done,
                drawn.len() == done,
                self.renderer == old(self).renderer,
                forall|rest: Seq<u8>|
                    rest.len() == cycles - done ==> #[trigger] run_from(
                        old(self)@,
                        cycles as nat,
                        drawn + rest,
                        0,
                        0,
                    ) == run_from(self@, (cycles - done) as nat, rest, done, unimplemented),
            decreases cycles - done,
        {
            let ghost before = self@;
            let ghost n = (cycles - done) as nat;
            let ghost d0 = done;
            let ghost u0 = unimplemented;
            let out = self.step();
            let ghost b = choose|b: u8| (self@, out) == cycle(before, b);
            done = done + 1;
            match out {
                Outcome::Executed => {},
                Outcome::NotImplemented => {
                    unimplemented = unimplemented + 1;
                },
                Outcome::Faulted(fault) => {
                    let r = Halt { cycles: done, unimplemented, fault: Some(fault) };
                    proof {
                        let rest = Seq::new(n, |_i: int| b);
                        assert(rest[0] == b);
                        assert(run_from(before, n, rest, d0, u0) == (self@, r));
                        assert((drawn + rest).len() == cycles);
                        assert(run_from(old(self)@, cycles as nat, drawn + rest, 0, 0) == (self@, r));
                    }
                    return r;
                },
            }
            proof {
                assert forall|rest: Seq<u8>| rest.len() == cycles - done implies #[trigger] run_from(
                    old(self)@,
                    cycles as nat,
                    drawn.push(b) + rest,
                    0,
                    0,
                ) == run_from(self@, (cycles - done) as nat, rest, done, unimplemented) by {
                    let full = seq![b] + rest;
                    assert(drawn.push(b) + rest =~= drawn + full);
                    assert(full[0] == b);
                    assert(full.drop_first() =~= rest);
                    assert(run_from(before, n, full, d0, u0) == run_from(
                        self@,
                        (n - 1) as nat,
                        rest,
                        done,
                        unimplemented,
                    ));
                }
                drawn = drawn.push(b);
            }
        }
        proof {
            let rest = Seq::<u8>::empty();
            assert(drawn + rest =~= drawn);
            assert(run_from(old(self)@, cycles as nat, drawn + rest, 0, 0) == (
                self@,
                Halt { cycles: done, unimplemented, fault: None },
            ));
        }
        Halt { cycles: done, unimplemented, fault: None }
    }
}

/// Writes `registers[0 ..= last]` to `memory` from `start` on.
fn store_block(memory: &mut [u8; 0x1000], registers: &[u8; 16], start: usize, last: usize)
    requires
        last < 16,
        start + last < MEMORY_SIZE,
    ensures
        final(memory)@ == stored_block(old(memory)@, registers@, start as int, last as int),
{
    let mut i: usize = 0;
    while i <= last
        invariant
            last < 16,
            start + last < MEMORY_SIZE,
            i <= last + 1,
            memory@.len() == MEMORY_SIZE,
            forall|k: int|
                0 <= k < MEMORY_SIZE ==> #[trigger] memory@[k] == if start <= k < start + i {
                    registers@[k - start]
                } else {
                    old(memory)@[k]
                },
        decreases last + 1 - i,
    {
        memory[start + i] = registers[i];
        i = i + 1;
    }
    assert(memory@ =~= stored_block(old(memory)@, registers@, start as int, last as int));
}

/// Reads `registers[0 ..= last]` from `memory` at `start` on.
fn load_block(registers: &mut [u8; 16], memory: &[u8; 0x1000], start: usize, last: usize)
    requires
        last < 16,
        start + last < MEMORY_SIZE,
    ensures
        final(registers)@ == loaded_block(old(registers)@, memory@, start as int, last as int),
{
    let mut i: usize = 0;
    while i <= last
        invariant
            last < 16,
            start + last < MEMORY_SIZE,
            i <= last + 1,
            registers@.len() == 16,
            forall|k: int|
                0 <= k < 16 ==> #[trigger] registers@[k] == if k < i {
                    memory@[start + k]
                } else {
                    old(registers)@[k]
                },
        decreases last + 1 - i,
    {
        registers[i] = memory[start + i];
        i = i + 1;
    }
    assert(registers@ =~= loaded_block(old(registers)@, memory@, start as int, last as int));
}

} // verus!
