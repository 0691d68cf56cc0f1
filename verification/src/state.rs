//! The machine state: concrete representation, abstract model, and the
//! constructors and loaders that establish its invariant.

use vstd::prelude::*;

verus! {

/// Bytes of addressable memory.
pub const MEMORY_SIZE: usize = 4096;
/// Number of general-purpose registers.
pub const REGISTER_COUNT: usize = 16;
/// Call-stack capacity, in return addresses.
pub const STACK_SIZE: usize = 16;
/// Screen width in pixels.
pub const SCREEN_WIDTH: usize = 64;
/// Screen height in pixels.
pub const SCREEN_HEIGHT: usize = 32;
/// Total pixel cells on the screen.
pub const SCREEN_SIZE: usize = 64 * 32;
/// Bytes taken by the sixteen 5-byte font glyphs.
pub const FONTSET_SIZE: usize = 80;
/// Memory address where the font glyphs are stored.
pub const FONTSET_START_ADDRESS: usize = 0x50;
/// Memory address where programs are loaded and execution begins.
pub const PROGRAM_START_ADDRESS: usize = 0x200;
/// Index of the flag register `VF`, which arithmetic and draw
/// instructions overload as a carry/borrow/collision output.
pub const VF: usize = 0xF;

/// The errors a cycle can surface. Decoding an unknown opcode is fatal;
/// the other kinds flag memory or stack accesses that classic CHIP-8
/// interpreters leave unguarded and this machine checks explicitly.
#[derive(Clone, Copy, Debug, PartialEq, Eq, Structural)]
pub enum VmError {
    /// The fetched opcode matches no known instruction pattern.
    DecodeFailure,
    /// A memory access derived from runtime arithmetic falls outside
    /// the address space.
    AddressOutOfRange,
    /// A call was made with the call stack already full.
    StackOverflow,
    /// A return was executed with the call stack empty.
    StackUnderflow,
}

/// The abstract machine state: what every contract in this crate speaks of.
pub struct VmState {
    /// Memory contents, one entry per address.
    pub mem: Seq<u8>,
    /// The sixteen general-purpose registers `V0`..`VF`.
    pub regs: Seq<u8>,
    /// The 16-bit index register `I`.
    pub idx: u16,
    /// The program counter.
    pub pc: u16,
    /// The framebuffer, row-major, one cell per pixel, each 0 or 1.
    pub screen: Seq<u8>,
    /// The delay timer.
    pub dt: u8,
    /// The sound timer.
    pub st: u8,
    /// The call stack; entries at indices below `sp` are live.
    pub stack: Seq<u16>,
    /// The stack pointer: number of live stack entries.
    pub sp: u8,
    /// The keypad snapshot; nonzero means pressed.
    pub keys: Seq<u8>,
}

impl VmState {
    /// Well-formedness: the fixed capacities hold, the stack pointer is in
    /// range, and every screen cell is a 0/1 pixel.
    pub open spec fn wf(self) -> bool {
        &&& self.mem.len() == MEMORY_SIZE
        &&& self.regs.len() == REGISTER_COUNT
        &&& self.screen.len() == SCREEN_SIZE
        &&& self.stack.len() == STACK_SIZE
        &&& self.keys.len() == REGISTER_COUNT
        &&& self.sp <= STACK_SIZE
        &&& forall|i: int| 0 <= i < SCREEN_SIZE ==> self.screen[i] == 0 || self.screen[i] == 1
    }
}

/// The interpreter state: a byte-addressable memory, a register file, the
/// index register, program counter, framebuffer, timers, call stack and
/// keypad snapshot.
pub struct Chip8 {
    /// 4096 bytes of memory.
    pub memory: Vec<u8>,
    /// 16 general-purpose 8-bit registers.
    pub registers: Vec<u8>,
    /// The 16-bit index register `I`.
    pub index_register: u16,
    /// The program counter.
    pub program_counter: u16,
    /// 64x32 pixel display cells, row-major, each 0 or 1.
    pub screen: Vec<u8>,
    /// The delay timer.
    pub delay_timer: u8,
    /// The sound timer.
    pub sound_timer: u8,
    /// The call stack, 16 levels.
    pub stack: Vec<u16>,
    /// The stack pointer.
    pub stack_pointer: u8,
    /// The keypad snapshot, one entry per key; nonzero means pressed.
    pub keys: Vec<u8>,
}

impl View for Chip8 {
    type V = VmState;

    open spec fn view(&self) -> VmState {
        VmState {
            mem: self.memory@,
            regs: self.registers@,
            idx: self.index_register,
            pc: self.program_counter,
            screen: self.screen@,
            dt: self.delay_timer,
            st: self.sound_timer,
            stack: self.stack@,
            sp: self.stack_pointer,
            keys: self.keys@,
        }
    }
}

/// The standard CHIP-8 font: sixteen glyphs of five scanline bytes each,
/// for the hex digits 0 through F.
pub open spec fn fontset() -> Seq<u8> {
    seq![
        0xF0, 0x90, 0x90, 0x90, 0xF0, // 0
        0x20, 0x60, 0x20, 0x20, 0x70, // 1
        0xF0, 0x10, 0xF0, 0x80, 0xF0, // 2
        0xF0, 0x10, 0xF0, 0x10, 0xF0, // 3
        0x90, 0x90, 0xF0, 0x10, 0x10, // 4
        0xF0, 0x80, 0xF0, 0x10, 0xF0, // 5
        0xF0, 0x80, 0xF0, 0x90, 0xF0, // 6
        0xF0, 0x10, 0x20, 0x40, 0x40, // 7
        0xF0, 0x90, 0xF0, 0x90, 0xF0, // 8
        0xF0, 0x90, 0xF0, 0x10, 0xF0, // 9
        0xF0, 0x90, 0xF0, 0x90, 0x90, // A
        0xE0, 0x90, 0xE0, 0x90, 0xE0, // B
        0xF0, 0x80, 0x80, 0x80, 0xF0, // C
        0xE0, 0x90, 0x90, 0x90, 0xE0, // D
        0xF0, 0x80, 0xF0, 0x80, 0xF0, // E
        0xF0, 0x80, 0xF0, 0x80, 0x80, // F
    ]
}

/// `mem` with the font table written over its reserved region.
pub open spec fn font_loaded(mem: Seq<u8>) -> Seq<u8> {
    Seq::new(
        mem.len(),
        |a: int|
            if FONTSET_START_ADDRESS <= a < FONTSET_START_ADDRESS + FONTSET_SIZE {
                fontset()[a - FONTSET_START_ADDRESS]
            } else {
                mem[a]
            },
    )
}

/// The state a machine is born with: zeroed everywhere, fonts in their
/// reserved region, and the program counter at the program start.
pub open spec fn initial_state() -> VmState {
    VmState {
        mem: font_loaded(Seq::new(MEMORY_SIZE as nat, |a: int| 0u8)),
        regs: Seq::new(REGISTER_COUNT as nat, |i: int| 0u8),
        idx: 0,
        pc: PROGRAM_START_ADDRESS as u16,
        screen: Seq::new(SCREEN_SIZE as nat, |i: int| 0u8),
        dt: 0,
        st: 0,
        stack: Seq::new(STACK_SIZE as nat, |i: int| 0u16),
        sp: 0,
        keys: Seq::new(REGISTER_COUNT as nat, |i: int| 0u8),
    }
}

/// `mem` with `prog` copied in starting at the program start address.
pub open spec fn program_loaded(mem: Seq<u8>, prog: Seq<u8>) -> Seq<u8> {
    Seq::new(
        mem.len(),
        |a: int|
            if PROGRAM_START_ADDRESS <= a < PROGRAM_START_ADDRESS + prog.len() {
                prog[a - PROGRAM_START_ADDRESS]
            } else {
                mem[a]
            },
    )
}

/// A vector of `n` copies of the byte `val`.
pub(crate) fn filled_bytes(n: usize, val: u8) -> (v: Vec<u8>)
    ensures
        v@ == Seq::new(n as nat, |i: int| val),
{
    let mut v: Vec<u8> = Vec::new();
    while v.len() < n
        invariant
            v@.len() <= n,
            forall|i: int| 0 <= i < v@.len() ==> v@[i] == val,
        decreases n - v@.len(),
    {
        v.push(val);
    }
    proof {
        assert(v@ =~= Seq::new(n as nat, |i: int| val));
    }
    v
}

/// A vector of `n` copies of the 16-bit word `val`.
fn filled_words(n: usize, val: u16) -> (v: Vec<u16>)
    ensures
        v@ == Seq::new(n as nat, |i: int| val),
{
    let mut v: Vec<u16> = Vec::new();
    while v.len() < n
        invariant
            v@.len() <= n,
            forall|i: int| 0 <= i < v@.len() ==> v@[i] == val,
        decreases n - v@.len(),
    {
        v.push(val);
    }
    proof {
        assert(v@ =~= Seq::new(n as nat, |i: int| val));
    }
    v
}

impl Chip8 {
    /// A fresh machine: everything zeroed, fonts loaded into their
    /// reserved region, program counter at the program start address.
    pub fn new() -> (c: Chip8)
        ensures
            c@ == initial_state(),
            c@.wf(),
    {
        let mut c = Chip8 {
            memory: filled_bytes(MEMORY_SIZE, 0),
            registers: filled_bytes(REGISTER_COUNT, 0),
            index_register: 0,
            program_counter: 0x200,
            screen: filled_bytes(SCREEN_SIZE, 0),
            delay_timer: 0,
            sound_timer: 0,
            stack: filled_words(STACK_SIZE, 0),
            stack_pointer: 0,
            keys: filled_bytes(REGISTER_COUNT, 0),
        };
        c.load_fonts();
        proof {
            assert(c@.mem =~= initial_state().mem);
            assert(c@ == initial_state());
        }
        c
    }

    /// Writes the sixteen font glyphs over the reserved font region;
    /// every other byte of the state is untouched.
    pub fn load_fonts(&mut self)
        requires
            old(self)@.wf(),
        ensures
            final(self)@ == (VmState { mem: font_loaded(old(self)@.mem), ..old(self)@ }),
            final(self)@.wf(),
    {
        let fs: Vec<u8> = vec![
            0xF0, 0x90, 0x90, 0x90, 0xF0, // 0
            0x20, 0x60, 0x20, 0x20, 0x70, // 1
            0xF0, 0x10, 0xF0, 0x80, 0xF0, // 2
            0xF0, 0x10, 0xF0, 0x10, 0xF0, // 3
            0x90, 0x90, 0xF0, 0x10, 0x10, // 4
            0xF0, 0x80, 0xF0, 0x10, 0xF0, // 5
            0xF0, 0x80, 0xF0, 0x90, 0xF0, // 6
            0xF0, 0x10, 0x20, 0x40, 0x40, // 7
            0xF0, 0x90, 0xF0, 0x90, 0xF0, // 8
            0xF0, 0x90, 0xF0, 0x10, 0xF0, // 9
            0xF0, 0x90, 0xF0, 0x90, 0x90, // A
            0xE0, 0x90, 0xE0, 0x90, 0xE0, // B
            0xF0, 0x80, 0x80, 0x80, 0xF0, // C
            0xE0, 0x90, 0x90, 0x90, 0xE0, // D
            0xF0, 0x80, 0xF0, 0x80, 0xF0, // E
            0xF0, 0x80, 0xF0, 0x80, 0x80, // F
        ];
        proof {
            assert(fs@ =~= fontset());
        }
        let mut k: usize = 0;
        while k < FONTSET_SIZE
            invariant
                k <= FONTSET_SIZE,
                fs@ == fontset(),
                self.memory@.len() == MEMORY_SIZE,
                forall|a: int|
                    0 <= a < MEMORY_SIZE ==> self.memory@[a] == (
                    if FONTSET_START_ADDRESS <= a < FONTSET_START_ADDRESS + k {
                        fontset()[a - FONTSET_START_ADDRESS]
                    } else {
                        old(self)@.mem[a]
                    }),
                self.registers == old(self).registers,
                self.index_register == old(self).index_register,
                self.program_counter == old(self).program_counter,
                self.screen == old(self).screen,
                self.delay_timer == old(self).delay_timer,
                self.sound_timer == old(self).sound_timer,
                self.stack == old(self).stack,
                self.stack_pointer == old(self).stack_pointer,
                self.keys == old(self).keys,
            decreases FONTSET_SIZE - k,
        {
            self.memory.set(FONTSET_START_ADDRESS + k, fs[k]);
            k = k + 1;
        }
        proof {
            assert(self@.mem =~= font_loaded(old(self)@.mem));
        }
    }

    /// Copies a program image into memory starting at the program start
    /// address; nothing else changes. The image must fit in the memory
    /// left above that address.
    pub fn load_program(&mut self, program: &[u8])
        requires
            old(self)@.wf(),
            program@.len() <= MEMORY_SIZE - PROGRAM_START_ADDRESS,
        ensures
            final(self)@ == (VmState {
                mem: program_loaded(old(self)@.mem, program@),
                ..old(self)@
            }),
            final(self)@.wf(),
    {
        let mut i: usize = 0;
        while i < program.len()
            invariant
                i <= program@.len(),
                program@.len() <= MEMORY_SIZE - PROGRAM_START_ADDRESS,
                self.memory@.len() == MEMORY_SIZE,
                forall|a: int|
                    0 <= a < MEMORY_SIZE ==> self.memory@[a] == (
                    if PROGRAM_START_ADDRESS <= a < PROGRAM_START_ADDRESS + i {
                        program@[a - PROGRAM_START_ADDRESS]
                    } else {
                        old(self)@.mem[a]
                    }),
                self.registers == old(self).registers,
                self.index_register == old(self).index_register,
                self.program_counter == old(self).program_counter,
                self.screen == old(self).screen,
                self.delay_timer == old(self).delay_timer,
                self.sound_timer == old(self).sound_timer,
                self.stack == old(self).stack,
                self.stack_pointer == old(self).stack_pointer,
                self.keys == old(self).keys,
            decreases program@.len() - i,
        {
            let b: u8 = program[i];
            self.memory.set(PROGRAM_START_ADDRESS + i, b);
            i = i + 1;
        }
        proof {
            assert(self@.mem =~= program_loaded(old(self)@.mem, program@));
        }
    }

    /// The 16-bit opcode at the program counter: the byte at `pc` is the
    /// high byte, the byte at `pc + 1` the low byte (big-endian).
    pub fn fetch_opcode(&self) -> (op: u16)
        requires
            self@.wf(),
            self@.pc + 1 < MEMORY_SIZE,
        ensures
            op == fetched_opcode(self@),
    {
        let high: u16 = self.memory[self.program_counter as usize] as u16;
        let low: u16 = self.memory[(self.program_counter + 1) as usize] as u16;
        proof {
            let h = high;
            let l = low;
            assert((h << 8) | l == h * 256 + l) by (bit_vector)
                requires
                    h < 256,
                    l < 256,
            ;
        }
        (high << 8) | low
    }
}

/// The opcode a fetch at the program counter returns: the two memory
/// bytes at `pc` and `pc + 1`, big-endian.
pub open spec fn fetched_opcode(s: VmState) -> u16 {
    (s.mem[s.pc as int] * 256 + s.mem[s.pc as int + 1]) as u16
}

} // verus!
