use chip8::cpu::{MAX_PROGRAM_LEN, MEMORY_SIZE, PROGRAM_START};
use chip8::opcode::{family, n, nn, nnn, x, y};
use chip8::{Chip8, Fault, Halt, LoadError, Outcome, Render};

struct NoScreen;

impl Render for NoScreen {
    fn clear(&self, _screen: &mut [[bool; 64]; 32]) {}
}

struct Wiper;

impl Render for Wiper {
    fn clear(&self, screen: &mut [[bool; 64]; 32]) {
        for row in screen.iter_mut() {
            for pixel in row.iter_mut() {
                *pixel = false;
            }
        }
    }
}

fn headless() -> Chip8<NoScreen> {
    Chip8::new(None)
}

fn same_state<R: Render>(a: &Chip8<R>, b: &Chip8<R>) -> bool {
    a.registers == b.registers
        && a.stack == b.stack
        && a.memory[..] == b.memory[..]
        && a.index == b.index
        && a.counter == b.counter
        && a.delay == b.delay
        && a.sound == b.sound
        && a.screen == b.screen
}

fn copy_of(c: &Chip8<NoScreen>) -> Chip8<NoScreen> {
    let mut d = headless();
    d.registers = c.registers;
    d.stack = c.stack.clone();
    d.memory = c.memory;
    d.index = c.index;
    d.counter = c.counter;
    d.delay = c.delay;
    d.sound = c.sound;
    d.screen = c.screen;
    d
}

#[test]
fn decoder_example() {
    assert_eq!(nnn(0x1234), 0x234);
    assert_eq!(nn(0x1234), 0x34);
    assert_eq!(n(0x1234), 0x4);
    assert_eq!(x(0x1234), 0x2);
    assert_eq!(y(0x1234), 0x3);
    assert_eq!(family(0x1234), 0x1);
}

#[test]
fn decoder_every_word() {
    for op in 0..=0xFFFFu16 {
        assert_eq!(nnn(op), op & 0x0FFF);
        assert_eq!(nn(op) as u16, op & 0x00FF);
        assert_eq!(n(op) as u16, op & 0x000F);
        assert_eq!(x(op) as u16, (op & 0x0F00) >> 8);
        assert_eq!(y(op) as u16, (op & 0x00F0) >> 4);
        assert_eq!(family(op), op >> 12);
    }
}

#[test]
fn new_is_zeroed() {
    let c = headless();
    assert!(c.registers.iter().all(|&r| r == 0));
    assert!(c.memory.iter().all(|&b| b == 0));
    assert!(c.stack.is_empty());
    assert_eq!(c.index, 0);
    assert_eq!(c.counter, 0x200);
    assert_eq!(c.delay, 0);
    assert_eq!(c.sound, 0);
    assert!(c.screen.iter().all(|row| row.iter().all(|&p| !p)));
    assert!(c.renderer.is_none());
}

#[test]
fn jump_sets_exact_target() {
    for start in [0x200usize, 0x0, 0xABC, 0xFFE] {
        let mut c = headless();
        c.counter = start;
        assert_eq!(c.execute(0x1300, 0), Outcome::Executed);
        assert_eq!(c.counter, 0x300);
    }
}

#[test]
fn call_then_return() {
    let mut c = headless();
    c.counter = 0x246;
    assert_eq!(c.execute(0x2300, 0), Outcome::Executed);
    assert_eq!(c.stack, vec![0x246]);
    assert_eq!(c.counter, 0x300);
    assert_eq!(c.execute(0x00EE, 0), Outcome::Executed);
    assert!(c.stack.is_empty());
    assert_eq!(c.counter, 0x246);
}

#[test]
fn call_then_return_through_the_cycle() {
    // The cycle advances after the call, so the routine's first word is
    // fetched at 0x302, and the return goes on after the call.
    let mut c = headless();
    c.memory[0x200] = 0x23;
    c.memory[0x201] = 0x00;
    c.memory[0x302] = 0x00;
    c.memory[0x303] = 0xEE;
    assert_eq!(c.step(), Outcome::Executed);
    assert_eq!(c.stack, vec![0x200]);
    assert_eq!(c.counter, 0x302);
    assert_eq!(c.step(), Outcome::Executed);
    assert!(c.stack.is_empty());
    assert_eq!(c.counter, 0x202);
}

#[test]
fn return_with_empty_stack_faults() {
    let mut c = headless();
    let before = copy_of(&c);
    assert_eq!(c.execute(0x00EE, 0), Outcome::Faulted(Fault::StackUnderflow));
    assert!(same_state(&c, &before));
}

#[test]
fn skip_taken_moves_four_bytes() {
    let mut c = headless();
    c.registers[2] = 0x10;
    c.memory[0x200] = 0x32;
    c.memory[0x201] = 0x10;
    assert_eq!(c.step(), Outcome::Executed);
    assert_eq!(c.counter, 0x204);
}

#[test]
fn skip_not_taken_moves_two_bytes() {
    let mut c = headless();
    c.registers[2] = 0x11;
    c.memory[0x200] = 0x32;
    c.memory[0x201] = 0x10;
    assert_eq!(c.step(), Outcome::Executed);
    assert_eq!(c.counter, 0x202);
}

#[test]
fn skip_if_not_equal_and_registers_equal() {
    let mut c = headless();
    c.registers[1] = 5;
    c.execute(0x4105, 0);
    assert_eq!(c.counter, 0x200);
    c.execute(0x4106, 0);
    assert_eq!(c.counter, 0x202);
    c.registers[2] = 5;
    c.execute(0x5120, 0);
    assert_eq!(c.counter, 0x204);
    c.registers[2] = 6;
    c.execute(0x5120, 0);
    assert_eq!(c.counter, 0x204);
}

#[test]
fn skip_at_the_top_of_usize_faults() {
    let mut c = headless();
    c.counter = usize::MAX - 1;
    assert_eq!(c.execute(0x3000, 0), Outcome::Faulted(Fault::CounterOutOfRange));
    assert_eq!(c.counter, usize::MAX - 1);
}

#[test]
fn set_register() {
    let mut c = headless();
    c.execute(0x6A42, 0);
    assert_eq!(c.registers[0xA], 0x42);
}

#[test]
fn add_wraps_around() {
    let mut c = headless();
    c.registers[0] = 0xFF;
    assert_eq!(c.execute(0x7001, 0), Outcome::Executed);
    assert_eq!(c.registers[0], 0x00);
    c.registers[3] = 0x10;
    c.execute(0x7320, 0);
    assert_eq!(c.registers[3], 0x30);
}

#[test]
fn bitwise_family() {
    let mut c = headless();
    c.registers[1] = 0b1010;
    c.registers[2] = 0b0110;
    c.execute(0x8122, 0);
    assert_eq!(c.registers[1], 0b0010);

    c.registers[1] = 0b1010;
    c.execute(0x8121, 0);
    assert_eq!(c.registers[1], 0b1110);

    c.registers[1] = 0b1010;
    c.execute(0x8123, 0);
    assert_eq!(c.registers[1], 0b1100);

    c.execute(0x8120, 0);
    assert_eq!(c.registers[1], 0b0110);
}

#[test]
fn index_and_indexed_jump() {
    let mut c = headless();
    c.execute(0xA123, 0);
    assert_eq!(c.index, 0x123);
    c.registers[0] = 0x10;
    c.execute(0xB300, 0);
    assert_eq!(c.counter, 0x310);
    c.registers[0] = 0xFF;
    c.execute(0xBFFF, 0);
    assert_eq!(c.counter, 0x10FE);
}

#[test]
fn random_mask() {
    let mut c = headless();
    c.execute(0xC30F, 0xAB);
    assert_eq!(c.registers[3], 0x0B);
    c.registers[4] = 0x77;
    assert_eq!(c.emulate(0xC400), Outcome::Executed);
    assert_eq!(c.registers[4], 0);
    c.emulate(0xC5F0);
    assert_eq!(c.registers[5] & 0x0F, 0);
}

#[test]
fn timers_and_index_addition() {
    let mut c = headless();
    c.registers[6] = 42;
    c.execute(0xF615, 0);
    assert_eq!(c.delay, 42);
    c.registers[7] = 9;
    c.execute(0xF718, 0);
    assert_eq!(c.sound, 9);
    c.execute(0xF807, 0);
    assert_eq!(c.registers[8], 42);
    c.index = 0xFFF;
    c.execute(0xF61E, 0);
    assert_eq!(c.index, 0xFFF + 42);
    c.index = 0xFFFF;
    c.registers[1] = 2;
    c.execute(0xF11E, 0);
    assert_eq!(c.index, 1);
}

#[test]
fn block_store_and_load_round_trip() {
    let mut c = headless();
    c.registers[0] = 1;
    c.registers[1] = 2;
    c.registers[2] = 3;
    c.registers[3] = 4;
    c.registers[4] = 5;
    c.index = 0x300;
    assert_eq!(c.execute(0xF355, 0), Outcome::Executed);
    assert_eq!(c.memory[0x300..0x304], [1, 2, 3, 4]);
    assert_eq!(c.memory[0x304], 0);
    c.registers = [0; 16];
    assert_eq!(c.execute(0xF365, 0), Outcome::Executed);
    assert_eq!(c.registers[0..4], [1, 2, 3, 4]);
    assert_eq!(c.registers[4], 0);
}

#[test]
fn block_store_past_memory_faults() {
    let mut c = headless();
    c.index = 0xFFE;
    c.registers[0] = 7;
    let before = copy_of(&c);
    assert_eq!(c.execute(0xF255, 0), Outcome::Faulted(Fault::MemoryOutOfRange));
    assert!(same_state(&c, &before));
    assert_eq!(c.execute(0xF265, 0), Outcome::Faulted(Fault::MemoryOutOfRange));
    assert!(same_state(&c, &before));
    assert_eq!(c.execute(0xF155, 0), Outcome::Executed);
    assert_eq!(c.memory[0xFFE], 7);
}

#[test]
fn loader_copies_the_image() {
    let mut c = headless();
    assert_eq!(c.load(&[0xAB, 0xCD, 0xEF]), Ok(()));
    assert_eq!(c.memory[0x1FF], 0);
    assert_eq!(c.memory[0x200..0x203], [0xAB, 0xCD, 0xEF]);
    assert_eq!(c.memory[0x203], 0);
    assert_eq!(c.counter, 0x200);
}

#[test]
fn loader_boundary() {
    assert_eq!(MAX_PROGRAM_LEN, 4096 - 200);

    let mut c = headless();
    let fits = vec![0x11u8; MEMORY_SIZE - PROGRAM_START];
    assert_eq!(c.load(&fits), Ok(()));
    assert_eq!(c.memory[0xFFF], 0x11);

    let mut c = headless();
    let at_limit = vec![0x22u8; MAX_PROGRAM_LEN];
    assert_eq!(c.load(&at_limit), Err(LoadError::PastMemoryEnd));
    assert!(c.memory.iter().all(|&b| b == 0));

    let mut c = headless();
    let too_large = vec![0x33u8; MAX_PROGRAM_LEN + 1];
    assert_eq!(c.load(&too_large), Err(LoadError::TooLarge));
    assert!(c.memory.iter().all(|&b| b == 0));

    let mut c = headless();
    assert_eq!(c.load(&[]), Ok(()));
    assert!(c.memory.iter().all(|&b| b == 0));
}

#[test]
fn unimplemented_instructions_change_nothing() {
    let words = [
        0x0123u16, 0x0000, 0x8124, 0x8125, 0x812E, 0x9120, 0xD123, 0xE19E, 0xE1A1, 0xF10A,
        0xF129, 0xF133, 0xF1FF,
    ];
    for op in words {
        let mut c = headless();
        c.registers[1] = 3;
        c.registers[2] = 4;
        c.index = 0x300;
        c.stack.push(0x222);
        let before = copy_of(&c);
        assert_eq!(c.execute(op, 0x5A), Outcome::NotImplemented, "{:#X}", op);
        assert!(same_state(&c, &before), "{:#X}", op);
    }
}

#[test]
fn unimplemented_in_the_cycle_only_advances() {
    let mut c = headless();
    c.memory[0x200] = 0xD1;
    c.memory[0x201] = 0x23;
    let mut expected = copy_of(&c);
    expected.counter = 0x202;
    assert_eq!(c.step(), Outcome::NotImplemented);
    assert!(same_state(&c, &expected));
}

#[test]
fn clear_goes_to_the_renderer() {
    let mut c: Chip8<Wiper> = Chip8::new(Some(Wiper));
    c.screen[3][5] = true;
    c.screen[31][63] = true;
    assert_eq!(c.execute(0x00E0, 0), Outcome::Executed);
    assert!(c.screen.iter().all(|row| row.iter().all(|&p| !p)));

    let mut h = headless();
    h.screen[3][5] = true;
    assert_eq!(h.execute(0x00E0, 0), Outcome::Executed);
    assert!(h.screen[3][5]);
}

#[test]
fn fetch_past_memory_faults() {
    let mut c = headless();
    c.counter = 0xFFF;
    assert_eq!(c.step(), Outcome::Faulted(Fault::CounterOutOfRange));
    assert_eq!(c.counter, 0xFFF);
    assert_eq!(
        c.run(5),
        Halt { cycles: 1, unimplemented: 0, fault: Some(Fault::CounterOutOfRange) }
    );
}

#[test]
fn run_counts_and_stops_at_a_fault() {
    let mut c = headless();
    c.load(&[0x90, 0x00, 0x60, 0x07, 0x00, 0xEE]).unwrap();
    let halt = c.run(100);
    assert_eq!(halt, Halt { cycles: 3, unimplemented: 1, fault: Some(Fault::StackUnderflow) });
    assert_eq!(c.registers[0], 7);
    assert_eq!(c.counter, 0x204);
}

#[test]
fn run_stops_after_the_budget() {
    let mut c = headless();
    // A jump to 0x1FE comes back to 0x200 after the advance: a tight loop.
    c.load(&[0x11, 0xFE]).unwrap();
    assert_eq!(c.run(0), Halt { cycles: 0, unimplemented: 0, fault: None });
    assert_eq!(c.counter, 0x200);
    assert_eq!(c.run(50), Halt { cycles: 50, unimplemented: 0, fault: None });
    assert_eq!(c.counter, 0x200);
}
