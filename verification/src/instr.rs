//! The instruction set: one transition function and one verified exec
//! method per operation. Each method's contract says that the new state
//! is exactly the transition applied to the old one.
//!
//! Instructions that run after a fetch see the program counter already
//! advanced past themselves, so control-flow operations overwrite or add
//! to that "next instruction" value.

use vstd::prelude::*;

use crate::state::Chip8;
use crate::state::MEMORY_SIZE;
use crate::state::SCREEN_SIZE;
use crate::state::VF;
use crate::state::VmError;
use crate::state::VmState;
use crate::state::filled_bytes;

verus! {

/// `CLS`: every screen cell becomes 0.
pub open spec fn spec_cls(s: VmState) -> VmState {
    VmState { screen: Seq::new(SCREEN_SIZE as nat, |i: int| 0u8), ..s }
}

/// `RET`: pops the stack into the program counter, or fails on an
/// empty stack.
pub open spec fn spec_ret(s: VmState) -> Result<VmState, VmError> {
    if s.sp >= 1 {
        Ok(
            VmState {
                sp: (s.sp - 1) as u8,
                pc: s.stack[s.sp - 1],
                ..s
            },
        )
    } else {
        Err(VmError::StackUnderflow)
    }
}

/// `JP addr`: sets the program counter absolutely.
pub open spec fn spec_jp(s: VmState, nnn: u16) -> VmState {
    VmState { pc: nnn, ..s }
}

/// `CALL addr`: pushes the program counter (already past the call) and
/// jumps, or fails on a full stack.
pub open spec fn spec_call(s: VmState, nnn: u16) -> Result<VmState, VmError> {
    if s.sp < 16 {
        Ok(
            VmState {
                stack: s.stack.update(s.sp as int, s.pc),
                sp: (s.sp + 1) as u8,
                pc: nnn,
                ..s
            },
        )
    } else {
        Err(VmError::StackOverflow)
    }
}

/// `SE Vx, byte`: skips the next instruction when `Vx == nn`.
pub open spec fn spec_se_vx_byte(s: VmState, x: u8, nn: u8) -> VmState {
    if s.regs[x as int] == nn {
        VmState { pc: (s.pc + 2) as u16, ..s }
    } else {
        s
    }
}

/// `SNE Vx, byte`: skips the next instruction when `Vx != nn`.
pub open spec fn spec_sne_vx_byte(s: VmState, x: u8, nn: u8) -> VmState {
    if s.regs[x as int] != nn {
        VmState { pc: (s.pc + 2) as u16, ..s }
    } else {
        s
    }
}

/// `SE Vx, Vy`: skips the next instruction when `Vx == Vy`.
pub open spec fn spec_se_vx_vy(s: VmState, x: u8, y: u8) -> VmState {
    if s.regs[x as int] == s.regs[y as int] {
        VmState { pc: (s.pc + 2) as u16, ..s }
    } else {
        s
    }
}

/// `SNE Vx, Vy`: skips the next instruction when `Vx != Vy`.
pub open spec fn spec_sne_vx_vy(s: VmState, x: u8, y: u8) -> VmState {
    if s.regs[x as int] != s.regs[y as int] {
        VmState { pc: (s.pc + 2) as u16, ..s }
    } else {
        s
    }
}

/// `LD Vx, byte`: overwrites `Vx` with `nn`.
pub open spec fn spec_ld_vx_byte(s: VmState, x: u8, nn: u8) -> VmState {
    VmState { regs: s.regs.update(x as int, nn), ..s }
}

/// `ADD Vx, byte`: adds `nn` to `Vx`, wrapping modulo 256, no flag.
pub open spec fn spec_add_vx_byte(s: VmState, x: u8, nn: u8) -> VmState {
    VmState { regs: s.regs.update(x as int, s.regs[x as int].wrapping_add(nn)), ..s }
}

/// `LD Vx, Vy`: overwrites `Vx` with `Vy`.
pub open spec fn spec_ld_vx_vy(s: VmState, x: u8, y: u8) -> VmState {
    VmState { regs: s.regs.update(x as int, s.regs[y as int]), ..s }
}

/// `OR Vx, Vy`: bitwise or, no flag.
pub open spec fn spec_or_vx_vy(s: VmState, x: u8, y: u8) -> VmState {
    VmState { regs: s.regs.update(x as int, s.regs[x as int] | s.regs[y as int]), ..s }
}

/// `AND Vx, Vy`: bitwise and, no flag.
pub open spec fn spec_and_vx_vy(s: VmState, x: u8, y: u8) -> VmState {
    VmState { regs: s.regs.update(x as int, s.regs[x as int] & s.regs[y as int]), ..s }
}

/// `XOR Vx, Vy`: bitwise xor, no flag.
pub open spec fn spec_xor_vx_vy(s: VmState, x: u8, y: u8) -> VmState {
    VmState { regs: s.regs.update(x as int, s.regs[x as int] ^ s.regs[y as int]), ..s }
}

/// `ADD Vx, Vy`: the sum wraps into `Vx`, then `VF` reports whether the
/// 8-bit addition overflowed.
pub open spec fn spec_add_vx_vy(s: VmState, x: u8, y: u8) -> VmState {
    let result = s.regs[x as int].wrapping_add(s.regs[y as int]);
    let flag: u8 = if s.regs[x as int] + s.regs[y as int] > 255 {
        1
    } else {
        0
    };
    VmState { regs: s.regs.update(x as int, result).update(VF as int, flag), ..s }
}

/// `SUB Vx, Vy`: `Vx - Vy` wraps into `Vx`, then `VF` reports that no
/// borrow occurred (`Vx >= Vy` before the wrap).
pub open spec fn spec_sub_vx_vy(s: VmState, x: u8, y: u8) -> VmState {
    let result = s.regs[x as int].wrapping_sub(s.regs[y as int]);
    let flag: u8 = if s.regs[x as int] >= s.regs[y as int] {
        1
    } else {
        0
    };
    VmState { regs: s.regs.update(x as int, result).update(VF as int, flag), ..s }
}

/// `SHR Vx`: `VF` takes the pre-shift least-significant bit, then `Vx`
/// shifts right by one. The flag is written first, so when `x` is the
/// flag register the shift reads the flag just stored.
pub open spec fn spec_shr_vx(s: VmState, x: u8) -> VmState {
    let r1 = s.regs.update(VF as int, s.regs[x as int] & 0x1);
    VmState { regs: r1.update(x as int, r1[x as int] >> 1), ..s }
}

/// `SUBN Vx, Vy`: `VF` first reports `Vy > Vx`, then `Vy - Vx` wraps
/// into `Vx`; both operands are re-read after the flag write.
pub open spec fn spec_subn_vx_vy(s: VmState, x: u8, y: u8) -> VmState {
    let flag: u8 = if s.regs[y as int] > s.regs[x as int] {
        1
    } else {
        0
    };
    let r1 = s.regs.update(VF as int, flag);
    VmState { regs: r1.update(x as int, r1[y as int].wrapping_sub(r1[x as int])), ..s }
}

/// `SHL Vx`: `VF` takes the pre-shift most-significant bit, then `Vx`
/// shifts left by one. The flag is written first, so when `x` is the
/// flag register the shift reads the flag just stored.
pub open spec fn spec_shl_vx(s: VmState, x: u8) -> VmState {
    let r1 = s.regs.update(VF as int, (s.regs[x as int] & 0x80) >> 7);
    VmState { regs: r1.update(x as int, r1[x as int] << 1), ..s }
}

/// `LD I, addr`: sets the index register absolutely.
pub open spec fn spec_ld_i_addr(s: VmState, nnn: u16) -> VmState {
    VmState { idx: nnn, ..s }
}

/// `JP V0, addr`: jumps to `V0 + nnn`.
pub open spec fn spec_jp_v0_addr(s: VmState, nnn: u16) -> VmState {
    VmState { pc: (s.regs[0] + nnn) as u16, ..s }
}

/// `RND Vx, byte`: stores the supplied random byte masked with `nn`.
pub open spec fn spec_rnd_vx_byte(s: VmState, x: u8, nn: u8, rnd: u8) -> VmState {
    VmState { regs: s.regs.update(x as int, rnd & nn), ..s }
}

/// `SKP Vx`: skips the next instruction when key `Vx` is pressed, or
/// fails when `Vx` is no key index at all.
pub open spec fn spec_skp_vx(s: VmState, x: u8) -> Result<VmState, VmError> {
    if s.regs[x as int] >= 16 {
        Err(VmError::AddressOutOfRange)
    } else if s.keys[s.regs[x as int] as int] != 0 {
        Ok(VmState { pc: (s.pc + 2) as u16, ..s })
    } else {
        Ok(s)
    }
}

/// `SKNP Vx`: skips the next instruction when key `Vx` is not pressed,
/// or fails when `Vx` is no key index at all.
pub open spec fn spec_sknp_vx(s: VmState, x: u8) -> Result<VmState, VmError> {
    if s.regs[x as int] >= 16 {
        Err(VmError::AddressOutOfRange)
    } else if s.keys[s.regs[x as int] as int] == 0 {
        Ok(VmState { pc: (s.pc + 2) as u16, ..s })
    } else {
        Ok(s)
    }
}

/// `LD Vx, DT`: reads the delay timer into `Vx`.
pub open spec fn spec_ld_vx_dt(s: VmState, x: u8) -> VmState {
    VmState { regs: s.regs.update(x as int, s.dt), ..s }
}

/// `LD DT, Vx`: writes `Vx` to the delay timer.
pub open spec fn spec_ld_dt_vx(s: VmState, x: u8) -> VmState {
    VmState { dt: s.regs[x as int], ..s }
}

/// `LD ST, Vx`: writes `Vx` to the sound timer.
pub open spec fn spec_ld_st_vx(s: VmState, x: u8) -> VmState {
    VmState { st: s.regs[x as int], ..s }
}

/// `ADD I, Vx`: adds `Vx` to the index register, wrapping at 16 bits;
/// the result is not range-checked against memory here, only at use.
pub open spec fn spec_add_i_vx(s: VmState, x: u8) -> VmState {
    VmState { idx: s.idx.wrapping_add(s.regs[x as int] as u16), ..s }
}

/// `LD F, Vx`: points the index register at the 5-byte font glyph for
/// the hex digit in `Vx` (taken modulo 16).
pub open spec fn spec_ld_f_vx(s: VmState, x: u8) -> VmState {
    VmState { idx: (0x50 + (s.regs[x as int] % 16) * 5) as u16, ..s }
}

/// `LD B, Vx`: writes the decimal digits of `Vx` — hundreds, tens, ones
/// — to memory at `I`, `I + 1`, `I + 2`, or fails when that range runs
/// off the end of memory.
pub open spec fn spec_ld_b_vx(s: VmState, x: u8) -> Result<VmState, VmError> {
    if s.idx + 2 < MEMORY_SIZE {
        let v = s.regs[x as int];
        Ok(
            VmState {
                mem: s.mem.update(s.idx as int, (v / 100) as u8).update(
                    s.idx + 1,
                    ((v / 10) % 10) as u8,
                ).update(s.idx + 2, (v % 10) as u8),
                ..s
            },
        )
    } else {
        Err(VmError::AddressOutOfRange)
    }
}

/// `LD [I], Vx`: stores `V0` through `Vx` inclusive to memory starting
/// at `I`, or fails when that range runs off the end of memory.
pub open spec fn spec_ld_i_vx(s: VmState, x: u8) -> Result<VmState, VmError> {
    if s.idx + x < MEMORY_SIZE {
        Ok(
            VmState {
                mem: Seq::new(
                    s.mem.len(),
                    |a: int|
                        if s.idx <= a <= s.idx + x {
                            s.regs[a - s.idx]
                        } else {
                            s.mem[a]
                        },
                ),
                ..s
            },
        )
    } else {
        Err(VmError::AddressOutOfRange)
    }
}

/// `LD Vx, [I]`: loads `V0` through `Vx` inclusive from memory starting
/// at `I`, or fails when that range runs off the end of memory.
pub open spec fn spec_ld_vx_i(s: VmState, x: u8) -> Result<VmState, VmError> {
    if s.idx + x < MEMORY_SIZE {
        Ok(
            VmState {
                regs: Seq::new(
                    s.regs.len(),
                    |r: int|
                        if r <= x {
                            s.mem[s.idx + r]
                        } else {
                            s.regs[r]
                        },
                ),
                ..s
            },
        )
    } else {
        Err(VmError::AddressOutOfRange)
    }
}

/// The lowest pressed key index at or above `i`, or -1 when every key
/// from `i` up is released.
pub open spec fn first_pressed_from(keys: Seq<u8>, i: int) -> int
    decreases 16 - i,
{
    if i < 0 || i >= 16 {
        -1
    } else if keys[i] != 0 {
        i
    } else {
        first_pressed_from(keys, i + 1)
    }
}

/// `LD Vx, K`: scans the keypad in ascending order; the first pressed
/// key lands in `Vx`. With every key released the program counter
/// rewinds by 2 instead, so the same instruction is fetched again next
/// cycle — a cooperative blocking wait.
pub open spec fn spec_ld_vx_k(s: VmState, x: u8) -> VmState {
    let fp = first_pressed_from(s.keys, 0);
    if fp >= 0 {
        VmState { regs: s.regs.update(x as int, fp as u8), ..s }
    } else {
        VmState { pc: (s.pc - 2) as u16, ..s }
    }
}

/// Whether the sprite row byte `b` has the pixel at column `col` set;
/// bit 7 is the leftmost column.
pub open spec fn sprite_pixel_set(b: u8, col: int) -> bool {
    b & (0x80u8 >> (col as u8)) != 0
}

/// Lexicographic order on sprite cells: `(r2, c2)` is processed before
/// `(r, c)` when drawing row by row, column by column.
pub open spec fn lex_before(r2: int, c2: int, r: int, c: int) -> bool {
    r2 < r || (r2 == r && c2 < c)
}

/// One drawn sprite cell: row `r`, column `c` of an `n`-row sprite at
/// `(vx, vy)` lands on screen pixel `p`. The cell lies within the
/// sprite, its set bit was read from the sprite row at `base + r`, and
/// its target coordinate is on the screen — off-screen cells are
/// clipped (dropped), not wrapped.
pub open spec fn drw_hit(
    mem: Seq<u8>,
    base: int,
    vx: int,
    vy: int,
    n: int,
    r: int,
    c: int,
    p: int,
) -> bool {
    &&& 0 <= r < n
    &&& 0 <= c < 8
    &&& vy + r < 32
    &&& vx + c < 64
    &&& p == (vy + r) * 64 + (vx + c)
    &&& sprite_pixel_set(mem[base + r], c)
}

/// Whether drawing the whole sprite flips the screen pixel `p`.
pub open spec fn drw_flips(mem: Seq<u8>, base: int, vx: int, vy: int, n: int, p: int) -> bool {
    exists|r: int, c: int| #[trigger] drw_hit(mem, base, vx, vy, n, r, c, p)
}

/// Whether drawing flips `p` through some cell processed strictly
/// before `(r, c)` in drawing order.
pub open spec fn drw_flips_upto(
    mem: Seq<u8>,
    base: int,
    vx: int,
    vy: int,
    n: int,
    r: int,
    c: int,
    p: int,
) -> bool {
    exists|r2: int, c2: int|
        lex_before(r2, c2, r, c) && #[trigger] drw_hit(mem, base, vx, vy, n, r2, c2, p)
}

/// Whether drawing turns some already-set pixel of `screen` off: the
/// collision the draw instruction reports in `VF`.
pub open spec fn drw_collision(
    mem: Seq<u8>,
    screen: Seq<u8>,
    base: int,
    vx: int,
    vy: int,
    n: int,
) -> bool {
    exists|p: int|
        0 <= p < SCREEN_SIZE && #[trigger] drw_flips(mem, base, vx, vy, n, p) && screen[p] == 1
}

/// Whether a collision has already happened among the cells processed
/// strictly before `(r, c)` in drawing order.
pub open spec fn drw_collision_upto(
    mem: Seq<u8>,
    screen: Seq<u8>,
    base: int,
    vx: int,
    vy: int,
    n: int,
    r: int,
    c: int,
) -> bool {
    exists|p: int|
        0 <= p < SCREEN_SIZE && #[trigger] drw_flips_upto(mem, base, vx, vy, n, r, c, p)
            && screen[p] == 1
}

/// `DRW Vx, Vy, n`: XORs the `n`-row sprite at `I` onto the screen at
/// `(Vx, Vy)`, clipping cells that fall off the screen; `VF` reports
/// whether any set pixel was turned off. Fails when the sprite rows run
/// off the end of memory.
pub open spec fn spec_drw_vx_vy_nibble(s: VmState, x: u8, y: u8, n: u8) -> Result<
    VmState,
    VmError,
> {
    if s.idx + n > MEMORY_SIZE {
        Err(VmError::AddressOutOfRange)
    } else {
        let base = s.idx as int;
        let vx = s.regs[x as int] as int;
        let vy = s.regs[y as int] as int;
        let screen2 = Seq::new(
            SCREEN_SIZE as nat,
            |p: int|
                if drw_flips(s.mem, base, vx, vy, n as int, p) {
                    s.screen[p] ^ 1
                } else {
                    s.screen[p]
                },
        );
        let flag: u8 = if drw_collision(s.mem, s.screen, base, vx, vy, n as int) {
            1
        } else {
            0
        };
        Ok(VmState { screen: screen2, regs: s.regs.update(VF as int, flag), ..s })
    }
}

/// Two distinct sprite cells never land on the same screen pixel: with
/// clipped columns the pixel index determines the row and the column.
proof fn lemma_drw_hit_unique(
    mem: Seq<u8>,
    base: int,
    vx: int,
    vy: int,
    n: int,
    r1: int,
    c1: int,
    r2: int,
    c2: int,
    p: int,
)
    requires
        drw_hit(mem, base, vx, vy, n, r1, c1, p),
        drw_hit(mem, base, vx, vy, n, r2, c2, p),
    ensures
        r1 == r2,
        c1 == c2,
{
    assert(64 * (r1 - r2) == (vx + c2) - (vx + c1));
}

impl Chip8 {
    /// Clears the display.
    pub fn cls(&mut self)
        requires
            old(self)@.wf(),
        ensures
            final(self)@ == spec_cls(old(self)@),
            final(self)@.wf(),
    {
        self.screen = filled_bytes(SCREEN_SIZE, 0);
    }

    /// Returns from a subroutine: pops the saved address into the
    /// program counter. Fails with `StackUnderflow` when the stack is
    /// empty, leaving the state unchanged.
    pub fn ret(&mut self) -> (r: Result<(), VmError>)
        requires
            old(self)@.wf(),
        ensures
            final(self)@.wf(),
            match r {
                Ok(()) => spec_ret(old(self)@) == Ok::<VmState, VmError>(final(self)@),
                Err(e) => spec_ret(old(self)@) == Err::<VmState, VmError>(e) && final(self)@
                    == old(self)@,
            },
    {
        if self.stack_pointer >= 1 {
            self.stack_pointer = self.stack_pointer - 1;
            self.program_counter = self.stack[self.stack_pointer as usize];
            Ok(())
        } else {
            Err(VmError::StackUnderflow)
        }
    }

    /// Jumps to the address `nnn`.
    pub fn jp(&mut self, nnn: u16)
        requires
            old(self)@.wf(),
        ensures
            final(self)@ == spec_jp(old(self)@, nnn),
            final(self)@.wf(),
    {
        self.program_counter = nnn;
    }

    /// Calls the subroutine at `nnn`: pushes the current program counter
    /// and jumps. Fails with `StackOverflow` when the stack is full,
    /// leaving the state unchanged.
    pub fn call(&mut self, nnn: u16) -> (r: Result<(), VmError>)
        requires
            old(self)@.wf(),
        ensures
            final(self)@.wf(),
            match r {
                Ok(()) => spec_call(old(self)@, nnn) == Ok::<VmState, VmError>(final(self)@),
                Err(e) => spec_call(old(self)@, nnn) == Err::<VmState, VmError>(e) && final(self)@
                    == old(self)@,
            },
    {
        if self.stack_pointer < 16 {
            self.stack.set(self.stack_pointer as usize, self.program_counter);
            self.stack_pointer = self.stack_pointer + 1;
            self.program_counter = nnn;
            Ok(())
        } else {
            Err(VmError::StackOverflow)
        }
    }

    /// Skips the next instruction when `Vx` equals `nn`.
    pub fn se_vx_byte(&mut self, x: u8, nn: u8)
        requires
            old(self)@.wf(),
            x < 16,
            old(self)@.pc + 2 <= u16::MAX,
        ensures
            final(self)@ == spec_se_vx_byte(old(self)@, x, nn),
            final(self)@.wf(),
    {
        if self.registers[x as usize] == nn {
            self.program_counter = self.program_counter + 2;
        }
    }

    /// Skips the next instruction when `Vx` differs from `nn`.
    pub fn sne_vx_byte(&mut self, x: u8, nn: u8)
        requires
            old(self)@.wf(),
            x < 16,
            old(self)@.pc + 2 <= u16::MAX,
        ensures
            final(self)@ == spec_sne_vx_byte(old(self)@, x, nn),
            final(self)@.wf(),
    {
        if self.registers[x as usize] != nn {
            self.program_counter = self.program_counter + 2;
        }
    }

    /// Skips the next instruction when `Vx` equals `Vy`.
    pub fn se_vx_vy(&mut self, x: u8, y: u8)
        requires
            old(self)@.wf(),
            x < 16,
            y < 16,
            old(self)@.pc + 2 <= u16::MAX,
        ensures
            final(self)@ == spec_se_vx_vy(old(self)@, x, y),
            final(self)@.wf(),
    {
        if self.registers[x as usize] == self.registers[y as usize] {
            self.program_counter = self.program_counter + 2;
        }
    }

    /// Skips the next instruction when `Vx` differs from `Vy`.
    pub fn sne_vx_vy(&mut self, x: u8, y: u8)
        requires
            old(self)@.wf(),
            x < 16,
            y < 16,
            old(self)@.pc + 2 <= u16::MAX,
        ensures
            final(self)@ == spec_sne_vx_vy(old(self)@, x, y),
            final(self)@.wf(),
    {
        if self.registers[x as usize] != self.registers[y as usize] {
            self.program_counter = self.program_counter + 2;
        }
    }

    /// Sets `Vx` to the immediate byte `nn`.
    pub fn ld_vx_byte(&mut self, x: u8, nn: u8)
        requires
            old(self)@.wf(),
            x < 16,
        ensures
            final(self)@ == spec_ld_vx_byte(old(self)@, x, nn),
            final(self)@.wf(),
    {
        self.registers.set(x as usize, nn);
    }

    /// Adds `nn` to `Vx`, wrapping modulo 256; no flag is touched.
    pub fn add_vx_byte(&mut self, x: u8, nn: u8)
        requires
            old(self)@.wf(),
            x < 16,
        ensures
            final(self)@ == spec_add_vx_byte(old(self)@, x, nn),
            final(self)@.wf(),
    {
        let vx = self.registers[x as usize];
        self.registers.set(x as usize, vx.wrapping_add(nn));
    }

    /// Sets `Vx` to the value of `Vy`.
    pub fn ld_vx_vy(&mut self, x: u8, y: u8)
        requires
            old(self)@.wf(),
            x < 16,
            y < 16,
        ensures
            final(self)@ == spec_ld_vx_vy(old(self)@, x, y),
            final(self)@.wf(),
    {
        let vy = self.registers[y as usize];
        self.registers.set(x as usize, vy);
    }

    /// Sets `Vx` to `Vx | Vy`.
    pub fn or_vx_vy(&mut self, x: u8, y: u8)
        requires
            old(self)@.wf(),
            x < 16,
            y < 16,
        ensures
            final(self)@ == spec_or_vx_vy(old(self)@, x, y),
            final(self)@.wf(),
    {
        let vx = self.registers[x as usize];
        let vy = self.registers[y as usize];
        self.registers.set(x as usize, vx | vy);
    }

    /// Sets `Vx` to `Vx & Vy`.
    pub fn and_vx_vy(&mut self, x: u8, y: u8)
        requires
            old(self)@.wf(),
            x < 16,
            y < 16,
        ensures
            final(self)@ == spec_and_vx_vy(old(self)@, x, y),
            final(self)@.wf(),
    {
        let vx = self.registers[x as usize];
        let vy = self.registers[y as usize];
        self.registers.set(x as usize, vx & vy);
    }

    /// Sets `Vx` to `Vx ^ Vy`.
    pub fn xor_vx_vy(&mut self, x: u8, y: u8)
        requires
            old(self)@.wf(),
            x < 16,
            y < 16,
        ensures
            final(self)@ == spec_xor_vx_vy(old(self)@, x, y),
            final(self)@.wf(),
    {
        let vx = self.registers[x as usize];
        let vy = self.registers[y as usize];
        self.registers.set(x as usize, vx ^ vy);
    }

    /// Adds `Vy` to `Vx`, wrapping modulo 256; `VF` then reports whether
    /// the addition overflowed 8 bits.
    pub fn add_vx_vy(&mut self, x: u8, y: u8)
        requires
            old(self)@.wf(),
            x < 16,
            y < 16,
        ensures
            final(self)@ == spec_add_vx_vy(old(self)@, x, y),
            final(self)@.wf(),
    {
        let vx = self.registers[x as usize];
        let vy = self.registers[y as usize];
        let flag: u8 = if vx as u16 + vy as u16 > 255 {
            1
        } else {
            0
        };
        self.registers.set(x as usize, vx.wrapping_add(vy));
        self.registers.set(VF, flag);
    }

    /// Subtracts `Vy` from `Vx`, wrapping modulo 256; `VF` then reports
    /// that no borrow occurred.
    pub fn sub_vx_vy(&mut self, x: u8, y: u8)
        requires
            old(self)@.wf(),
            x < 16,
            y < 16,
        ensures
            final(self)@ == spec_sub_vx_vy(old(self)@, x, y),
            final(self)@.wf(),
    {
        let vx = self.registers[x as usize];
        let vy = self.registers[y as usize];
        let flag: u8 = if vx >= vy {
            1
        } else {
            0
        };
        self.registers.set(x as usize, vx.wrapping_sub(vy));
        self.registers.set(VF, flag);
    }

    /// Stores the least-significant bit of `Vx` in `VF`, then shifts
    /// `Vx` right by one.
    pub fn shr_vx(&mut self, x: u8)
        requires
            old(self)@.wf(),
            x < 16,
        ensures
            final(self)@ == spec_shr_vx(old(self)@, x),
            final(self)@.wf(),
    {
        let flag: u8 = self.registers[x as usize] & 0x1;
        self.registers.set(VF, flag);
        let vx = self.registers[x as usize];
        self.registers.set(x as usize, vx >> 1);
    }

    /// Stores whether `Vy > Vx` in `VF`, then sets `Vx` to `Vy - Vx`,
    /// wrapping modulo 256; the operands are re-read after the flag
    /// write.
    pub fn subn_vx_vy(&mut self, x: u8, y: u8)
        requires
            old(self)@.wf(),
            x < 16,
            y < 16,
        ensures
            final(self)@ == spec_subn_vx_vy(old(self)@, x, y),
            final(self)@.wf(),
    {
        let flag: u8 = if self.registers[y as usize] > self.registers[x as usize] {
            1
        } else {
            0
        };
        self.registers.set(VF, flag);
        let vx = self.registers[x as usize];
        let vy = self.registers[y as usize];
        self.registers.set(x as usize, vy.wrapping_sub(vx));
    }

    /// Stores the most-significant bit of `Vx` in `VF`, then shifts
    /// `Vx` left by one.
    pub fn shl_vx(&mut self, x: u8)
        requires
            old(self)@.wf(),
            x < 16,
        ensures
            final(self)@ == spec_shl_vx(old(self)@, x),
            final(self)@.wf(),
    {
        let flag: u8 = (self.registers[x as usize] & 0x80) >> 7;
        self.registers.set(VF, flag);
        let vx = self.registers[x as usize];
        self.registers.set(x as usize, vx << 1);
    }

    /// Sets the index register to `nnn`.
    pub fn ld_i_addr(&mut self, nnn: u16)
        requires
            old(self)@.wf(),
        ensures
            final(self)@ == spec_ld_i_addr(old(self)@, nnn),
            final(self)@.wf(),
    {
        self.index_register = nnn;
    }

    /// Jumps to `V0 + nnn`.
    pub fn jp_v0_addr(&mut self, nnn: u16)
        requires
            old(self)@.wf(),
            nnn < 0x1000,
        ensures
            final(self)@ == spec_jp_v0_addr(old(self)@, nnn),
            final(self)@.wf(),
    {
        self.program_counter = self.registers[0] as u16 + nnn;
    }

    /// Sets `Vx` to the supplied random byte masked with `nn`. The
    /// randomness source is the caller's policy; the cycle driver hands
    /// in its own byte.
    pub fn rnd_vx_byte(&mut self, x: u8, nn: u8, rnd: u8)
        requires
            old(self)@.wf(),
            x < 16,
        ensures
            final(self)@ == spec_rnd_vx_byte(old(self)@, x, nn, rnd),
            final(self)@.wf(),
    {
        self.registers.set(x as usize, rnd & nn);
    }

    /// Skips the next instruction when the key numbered by `Vx` is
    /// pressed. Fails with `AddressOutOfRange` when `Vx` exceeds the
    /// keypad, leaving the state unchanged.
    pub fn skp_vx(&mut self, x: u8) -> (r: Result<(), VmError>)
        requires
            old(self)@.wf(),
            x < 16,
            old(self)@.pc + 2 <= u16::MAX,
        ensures
            final(self)@.wf(),
            match r {
                Ok(()) => spec_skp_vx(old(self)@, x) == Ok::<VmState, VmError>(final(self)@),
                Err(e) => spec_skp_vx(old(self)@, x) == Err::<VmState, VmError>(e) && final(self)@
                    == old(self)@,
            },
    {
        let key = self.registers[x as usize];
        if key >= 16 {
            return Err(VmError::AddressOutOfRange);
        }
        if self.keys[key as usize] != 0 {
            self.program_counter = self.program_counter + 2;
        }
        Ok(())
    }

    /// Skips the next instruction when the key numbered by `Vx` is not
    /// pressed. Fails with `AddressOutOfRange` when `Vx` exceeds the
    /// keypad, leaving the state unchanged.
    pub fn sknp_vx(&mut self, x: u8) -> (r: Result<(), VmError>)
        requires
            old(self)@.wf(),
            x < 16,
            old(self)@.pc + 2 <= u16::MAX,
        ensures
            final(self)@.wf(),
            match r {
                Ok(()) => spec_sknp_vx(old(self)@, x) == Ok::<VmState, VmError>(final(self)@),
                Err(e) => spec_sknp_vx(old(self)@, x) == Err::<VmState, VmError>(e) && final(self)@
                    == old(self)@,
            },
    {
        let key = self.registers[x as usize];
        if key >= 16 {
            return Err(VmError::AddressOutOfRange);
        }
        if self.keys[key as usize] == 0 {
            self.program_counter = self.program_counter + 2;
        }
        Ok(())
    }

    /// Reads the delay timer into `Vx`.
    pub fn ld_vx_dt(&mut self, x: u8)
        requires
            old(self)@.wf(),
            x < 16,
        ensures
            final(self)@ == spec_ld_vx_dt(old(self)@, x),
            final(self)@.wf(),
    {
        let dt = self.delay_timer;
        self.registers.set(x as usize, dt);
    }

    /// Writes `Vx` to the delay timer.
    pub fn ld_dt_vx(&mut self, x: u8)
        requires
            old(self)@.wf(),
            x < 16,
        ensures
            final(self)@ == spec_ld_dt_vx(old(self)@, x),
            final(self)@.wf(),
    {
        self.delay_timer = self.registers[x as usize];
    }

    /// Writes `Vx` to the sound timer.
    pub fn ld_st_vx(&mut self, x: u8)
        requires
            old(self)@.wf(),
            x < 16,
        ensures
            final(self)@ == spec_ld_st_vx(old(self)@, x),
            final(self)@.wf(),
    {
        self.sound_timer = self.registers[x as usize];
    }

    /// Adds `Vx` to the index register, wrapping at 16 bits.
    pub fn add_i_vx(&mut self, x: u8)
        requires
            old(self)@.wf(),
            x < 16,
        ensures
            final(self)@ == spec_add_i_vx(old(self)@, x),
            final(self)@.wf(),
    {
        let vx = self.registers[x as usize];
        self.index_register = self.index_register.wrapping_add(vx as u16);
    }

    /// Points the index register at the font glyph for the hex digit in
    /// `Vx`: glyphs are 5 bytes each, starting at the font base address.
    pub fn ld_f_vx(&mut self, x: u8)
        requires
            old(self)@.wf(),
            x < 16,
        ensures
            final(self)@ == spec_ld_f_vx(old(self)@, x),
            final(self)@.wf(),
    {
        let digit = (self.registers[x as usize] % 16) as u16;
        self.index_register = 0x50 + digit * 5;
    }

    /// Writes the binary-coded-decimal digits of `Vx` to memory at `I`,
    /// `I + 1` and `I + 2`. Fails with `AddressOutOfRange` when the
    /// index register points too close to the end of memory, leaving
    /// the state unchanged.
    pub fn ld_b_vx(&mut self, x: u8) -> (r: Result<(), VmError>)
        requires
            old(self)@.wf(),
            x < 16,
        ensures
            final(self)@.wf(),
            match r {
                Ok(()) => spec_ld_b_vx(old(self)@, x) == Ok::<VmState, VmError>(final(self)@),
                Err(e) => spec_ld_b_vx(old(self)@, x) == Err::<VmState, VmError>(e) && final(self)@
                    == old(self)@,
            },
    {
        let base = self.index_register as usize;
        if base + 2 >= MEMORY_SIZE {
            return Err(VmError::AddressOutOfRange);
        }
        let v = self.registers[x as usize];
        self.memory.set(base, v / 100);
        self.memory.set(base + 1, (v / 10) % 10);
        self.memory.set(base + 2, v % 10);
        Ok(())
    }

    /// Stores registers `V0` through `Vx` inclusive to memory starting
    /// at `I`. Fails with `AddressOutOfRange` when the range runs off
    /// the end of memory, leaving the state unchanged.
    pub fn ld_i_vx(&mut self, x: u8) -> (r: Result<(), VmError>)
        requires
            old(self)@.wf(),
            x < 16,
        ensures
            final(self)@.wf(),
            match r {
                Ok(()) => spec_ld_i_vx(old(self)@, x) == Ok::<VmState, VmError>(final(self)@),
                Err(e) => spec_ld_i_vx(old(self)@, x) == Err::<VmState, VmError>(e) && final(self)@
                    == old(self)@,
            },
    {
        let base = self.index_register as usize;
        if base + x as usize >= MEMORY_SIZE {
            return Err(VmError::AddressOutOfRange);
        }
        let mut i: usize = 0;
        while i <= x as usize
            invariant
                i <= x as usize + 1,
                x < 16,
                base == old(self)@.idx,
                base + x < MEMORY_SIZE,
                self.memory@.len() == MEMORY_SIZE,
                self.registers@.len() == 16,
                forall|a: int|
                    0 <= a < MEMORY_SIZE ==> self.memory@[a] == (
                    if base <= a < base + i {
                        old(self)@.regs[a - base]
                    } else {
                        old(self)@.mem[a]
                    }),
                self.registers == old(self).registers,
                self.index_register == old(self).index_register,
                self.program_counter == old(self).program_counter,
                self.screen == old(self).screen,
                self.delay_timer == old(self).delay_timer,
                self.sound_timer == old(self).sound_timer,
                self.stack == old(self).stack,
                self.stack_pointer == old(self).stack_pointer,
                self.keys == old(self).keys,
            decreases x as usize + 1 - i,
        {
            let b = self.registers[i];
            self.memory.set(base + i, b);
            i = i + 1;
        }
        proof {
            assert(self@.mem =~= spec_ld_i_vx(old(self)@, x)->Ok_0.mem);
        }
        Ok(())
    }

    /// Loads registers `V0` through `Vx` inclusive from memory starting
    /// at `I`. Fails with `AddressOutOfRange` when the range runs off
    /// the end of memory, leaving the state unchanged.
    pub fn ld_vx_i(&mut self, x: u8) -> (r: Result<(), VmError>)
        requires
            old(self)@.wf(),
            x < 16,
        ensures
            final(self)@.wf(),
            match r {
                Ok(()) => spec_ld_vx_i(old(self)@, x) == Ok::<VmState, VmError>(final(self)@),
                Err(e) => spec_ld_vx_i(old(self)@, x) == Err::<VmState, VmError>(e) && final(self)@
                    == old(self)@,
            },
    {
        let base = self.index_register as usize;
        if base + x as usize >= MEMORY_SIZE {
            return Err(VmError::AddressOutOfRange);
        }
        let mut i: usize = 0;
        while i <= x as usize
            invariant
                i <= x as usize + 1,
                x < 16,
                base == old(self)@.idx,
                base + x < MEMORY_SIZE,
                self.registers@.len() == 16,
                self.memory@.len() == MEMORY_SIZE,
                forall|r2: int|
                    0 <= r2 < 16 ==> self.registers@[r2] == (
                    if r2 < i {
                        old(self)@.mem[base + r2]
                    } else {
                        old(self)@.regs[r2]
                    }),
                self.memory == old(self).memory,
                self.index_register == old(self).index_register,
                self.program_counter == old(self).program_counter,
                self.screen == old(self).screen,
                self.delay_timer == old(self).delay_timer,
                self.sound_timer == old(self).sound_timer,
                self.stack == old(self).stack,
                self.stack_pointer == old(self).stack_pointer,
                self.keys == old(self).keys,
            decreases x as usize + 1 - i,
        {
            let b = self.memory[base + i];
            self.registers.set(i, b);
            i = i + 1;
        }
        proof {
            assert(self@.regs =~= spec_ld_vx_i(old(self)@, x)->Ok_0.regs);
        }
        Ok(())
    }

    /// Draws the `n`-row sprite stored at `I` at screen position
    /// `(Vx, Vy)` by XOR, clipping pixels that fall off the screen, and
    /// reports a collision in `VF`. Fails with `AddressOutOfRange` when
    /// the sprite rows run off the end of memory, leaving the state
    /// unchanged.
    pub fn drw_vx_vy_nibble(&mut self, x: u8, y: u8, n: u8) -> (r: Result<(), VmError>)
        requires
            old(self)@.wf(),
            x < 16,
            y < 16,
            n < 16,
        ensures
            final(self)@.wf(),
            match r {
                Ok(()) => spec_drw_vx_vy_nibble(old(self)@, x, y, n) == Ok::<VmState, VmError>(
                    final(self)@,
                ),
                Err(e) => spec_drw_vx_vy_nibble(old(self)@, x, y, n) == Err::<VmState, VmError>(e)
                    && final(self)@ == old(self)@,
            },
    {
        if self.index_register as usize + n as usize > MEMORY_SIZE {
            return Err(VmError::AddressOutOfRange);
        }
        let ghost s0 = self@;
        let base = self.index_register as usize;
        let vx = self.registers[x as usize] as usize;
        let vy = self.registers[y as usize] as usize;
        self.registers.set(VF, 0);
        proof {
            assert(self.registers@ == s0.regs.update(
                VF as int,
                if drw_collision_upto(s0.mem, s0.screen, base as int, vx as int, vy as int, n as int, 0, 0) {
                    1u8
                } else {
                    0u8
                },
            )) by {
                if drw_collision_upto(s0.mem, s0.screen, base as int, vx as int, vy as int, n as int, 0, 0) {
                    let p = choose|p: int|
                        0 <= p < SCREEN_SIZE && #[trigger] drw_flips_upto(s0.mem, base as int, vx as int, vy as int, n as int, 0, 0, p)
                            && s0.screen[p] == 1;
                    let (r2, c2) = choose|r2: int, c2: int|
                        lex_before(r2, c2, 0, 0) && #[trigger] drw_hit(s0.mem, base as int, vx as int, vy as int, n as int, r2, c2, p);
                    assert(false);
                }
            }
        }
        let mut row: usize = 0;
        while row < n as usize
            invariant
                row <= n as usize,
                s0.wf(),
                n < 16,
                x < 16,
                y < 16,
                base == s0.idx,
                vx == s0.regs[x as int],
                vy == s0.regs[y as int],
                base + n <= MEMORY_SIZE,
                self.memory@ == s0.mem,
                self.screen@.len() == SCREEN_SIZE,
                forall|p: int|
                    0 <= p < SCREEN_SIZE ==> self.screen@[p] == (
                    if drw_flips_upto(s0.mem, base as int, vx as int, vy as int, n as int, row as int, 0, p) {
                        s0.screen[p] ^ 1
                    } else {
                        s0.screen[p]
                    }),
                self.registers@ == s0.regs.update(
                    VF as int,
                    if drw_collision_upto(s0.mem, s0.screen, base as int, vx as int, vy as int, n as int, row as int, 0) {
                        1u8
                    } else {
                        0u8
                    },
                ),
                self.index_register == s0.idx,
                self.program_counter == s0.pc,
                self.delay_timer == s0.dt,
                self.sound_timer == s0.st,
                self.stack@ == s0.stack,
                self.stack_pointer == s0.sp,
                self.keys@ == s0.keys,
            decreases n as usize - row,
        {
            let sprite_byte = self.memory[base + row];
            let mut col: usize = 0;
            while col < 8
                invariant
                    col <= 8,
                    row < n as usize,
                    s0.wf(),
                    n < 16,
                    x < 16,
                    y < 16,
                    base == s0.idx,
                    vx == s0.regs[x as int],
                    vy == s0.regs[y as int],
                    base + n <= MEMORY_SIZE,
                    sprite_byte == s0.mem[base + row],
                    self.memory@ == s0.mem,
                    self.screen@.len() == SCREEN_SIZE,
                    forall|p: int|
                        0 <= p < SCREEN_SIZE ==> self.screen@[p] == (
                        if drw_flips_upto(s0.mem, base as int, vx as int, vy as int, n as int, row as int, col as int, p) {
                            s0.screen[p] ^ 1
                        } else {
                            s0.screen[p]
                        }),
                    self.registers@ == s0.regs.update(
                        VF as int,
                        if drw_collision_upto(s0.mem, s0.screen, base as int, vx as int, vy as int, n as int, row as int, col as int) {
                            1u8
                        } else {
                            0u8
                        },
                    ),
                    self.index_register == s0.idx,
                    self.program_counter == s0.pc,
                    self.delay_timer == s0.dt,
                    self.sound_timer == s0.st,
                    self.stack@ == s0.stack,
                    self.stack_pointer == s0.sp,
                    self.keys@ == s0.keys,
                decreases 8 - col,
            {
                let ghost basei = base as int;
                let ghost vxi = vx as int;
                let ghost vyi = vy as int;
                let ghost ni = n as int;
                let ghost ri = row as int;
                let ghost ci = col as int;
                let mask: u8 = 0x80u8 >> (col as u8);
                let bit = sprite_byte & mask;
                if bit != 0 && vy + row < 32 && vx + col < 64 {
                    let p = (vy + row) * 64 + (vx + col);
                    proof {
                        assert(p < SCREEN_SIZE);
                        assert(drw_hit(s0.mem, basei, vxi, vyi, ni, ri, ci, p as int));
                        if drw_flips_upto(s0.mem, basei, vxi, vyi, ni, ri, ci, p as int) {
                            let (r2, c2) = choose|r2: int, c2: int|
                                lex_before(r2, c2, ri, ci) && #[trigger] drw_hit(s0.mem, basei, vxi, vyi, ni, r2, c2, p as int);
                            lemma_drw_hit_unique(s0.mem, basei, vxi, vyi, ni, r2, c2, ri, ci, p as int);
                            assert(false);
                        }
                    }
                    let pixel = self.screen[p];
                    proof {
                        assert(pixel == s0.screen[p as int]);
                    }
                    if pixel == 1 {
                        self.registers.set(VF, 1);
                    }
                    self.screen.set(p, pixel ^ 1);
                    proof {
                        assert forall|q: int| 0 <= q < SCREEN_SIZE implies self.screen@[q] == (
                            if drw_flips_upto(s0.mem, basei, vxi, vyi, ni, ri, ci + 1, q) {
                                s0.screen[q] ^ 1
                            } else {
                                s0.screen[q]
                            }) by {
                            if q == p as int {
                                assert(lex_before(ri, ci, ri, ci + 1));
                                assert(drw_flips_upto(s0.mem, basei, vxi, vyi, ni, ri, ci + 1, q));
                            } else {
                                if drw_flips_upto(s0.mem, basei, vxi, vyi, ni, ri, ci + 1, q) {
                                    let (r2, c2) = choose|r2: int, c2: int|
                                        lex_before(r2, c2, ri, ci + 1) && #[trigger] drw_hit(s0.mem, basei, vxi, vyi, ni, r2, c2, q);
                                    if r2 == ri && c2 == ci {
                                        assert(q == p as int);
                                        assert(false);
                                    }
                                    assert(lex_before(r2, c2, ri, ci));
                                    assert(drw_flips_upto(s0.mem, basei, vxi, vyi, ni, ri, ci, q));
                                }
                                if drw_flips_upto(s0.mem, basei, vxi, vyi, ni, ri, ci, q) {
                                    let (r3, c3) = choose|r3: int, c3: int|
                                        lex_before(r3, c3, ri, ci) && #[trigger] drw_hit(s0.mem, basei, vxi, vyi, ni, r3, c3, q);
                                    assert(lex_before(r3, c3, ri, ci + 1));
                                    assert(drw_flips_upto(s0.mem, basei, vxi, vyi, ni, ri, ci + 1, q));
                                }
                            }
                        }
                        if pixel == 1 {
                            assert(drw_flips_upto(s0.mem, basei, vxi, vyi, ni, ri, ci + 1, p as int));
                            assert(drw_collision_upto(s0.mem, s0.screen, basei, vxi, vyi, ni, ri, ci + 1));
                        } else {
                            if drw_collision_upto(s0.mem, s0.screen, basei, vxi, vyi, ni, ri, ci + 1) {
                                let q = choose|q: int|
                                    0 <= q < SCREEN_SIZE && #[trigger] drw_flips_upto(s0.mem, basei, vxi, vyi, ni, ri, ci + 1, q)
                                        && s0.screen[q] == 1;
                                if q == p as int {
                                    assert(false);
                                } else {
                                    let (r2, c2) = choose|r2: int, c2: int|
                                        lex_before(r2, c2, ri, ci + 1) && #[trigger] drw_hit(s0.mem, basei, vxi, vyi, ni, r2, c2, q);
                                    if r2 == ri && c2 == ci {
                                        assert(q == p as int);
                                        assert(false);
                                    }
                                    assert(lex_before(r2, c2, ri, ci));
                                    assert(drw_flips_upto(s0.mem, basei, vxi, vyi, ni, ri, ci, q));
                                    assert(drw_collision_upto(s0.mem, s0.screen, basei, vxi, vyi, ni, ri, ci));
                                }
                            }
                            if drw_collision_upto(s0.mem, s0.screen, basei, vxi, vyi, ni, ri, ci) {
                                let q = choose|q: int|
                                    0 <= q < SCREEN_SIZE && #[trigger] drw_flips_upto(s0.mem, basei, vxi, vyi, ni, ri, ci, q)
                                        && s0.screen[q] == 1;
                                let (r3, c3) = choose|r3: int, c3: int|
                                    lex_before(r3, c3, ri, ci) && #[trigger] drw_hit(s0.mem, basei, vxi, vyi, ni, r3, c3, q);
                                assert(lex_before(r3, c3, ri, ci + 1));
                                assert(drw_flips_upto(s0.mem, basei, vxi, vyi, ni, ri, ci + 1, q));
                                assert(drw_collision_upto(s0.mem, s0.screen, basei, vxi, vyi, ni, ri, ci + 1));
                            }
                        }
                    }
                } else {
                    proof {
                        assert(!sprite_pixel_set(s0.mem[basei + ri], ci) || !(vyi + ri < 32) || !(
                        vxi + ci < 64));
                        assert forall|q: int| 0 <= q < SCREEN_SIZE implies (drw_flips_upto(
                            s0.mem,
                            basei,
                            vxi,
                            vyi,
                            ni,
                            ri,
                            ci + 1,
                            q,
                        ) == drw_flips_upto(s0.mem, basei, vxi, vyi, ni, ri, ci, q)) by {
                            if drw_flips_upto(s0.mem, basei, vxi, vyi, ni, ri, ci + 1, q) {
                                let (r2, c2) = choose|r2: int, c2: int|
                                    lex_before(r2, c2, ri, ci + 1) && #[trigger] drw_hit(s0.mem, basei, vxi, vyi, ni, r2, c2, q);
                                if r2 == ri && c2 == ci {
                                    assert(false);
                                }
                                assert(lex_before(r2, c2, ri, ci));
                                assert(drw_flips_upto(s0.mem, basei, vxi, vyi, ni, ri, ci, q));
                            }
                            if drw_flips_upto(s0.mem, basei, vxi, vyi, ni, ri, ci, q) {
                                let (r3, c3) = choose|r3: int, c3: int|
                                    lex_before(r3, c3, ri, ci) && #[trigger] drw_hit(s0.mem, basei, vxi, vyi, ni, r3, c3, q);
                                assert(lex_before(r3, c3, ri, ci + 1));
                                assert(drw_flips_upto(s0.mem, basei, vxi, vyi, ni, ri, ci + 1, q));
                            }
                        }
                        assert(drw_collision_upto(s0.mem, s0.screen, basei, vxi, vyi, ni, ri, ci + 1)
                            == drw_collision_upto(s0.mem, s0.screen, basei, vxi, vyi, ni, ri, ci))
                            by {
                            if drw_collision_upto(s0.mem, s0.screen, basei, vxi, vyi, ni, ri, ci + 1) {
                                let q = choose|q: int|
                                    0 <= q < SCREEN_SIZE && #[trigger] drw_flips_upto(s0.mem, basei, vxi, vyi, ni, ri, ci + 1, q)
                                        && s0.screen[q] == 1;
                                assert(drw_flips_upto(s0.mem, basei, vxi, vyi, ni, ri, ci, q));
                                assert(drw_collision_upto(s0.mem, s0.screen, basei, vxi, vyi, ni, ri, ci));
                            }
                            if drw_collision_upto(s0.mem, s0.screen, basei, vxi, vyi, ni, ri, ci) {
                                let q = choose|q: int|
                                    0 <= q < SCREEN_SIZE && #[trigger] drw_flips_upto(s0.mem, basei, vxi, vyi, ni, ri, ci, q)
                                        && s0.screen[q] == 1;
                                assert(drw_flips_upto(s0.mem, basei, vxi, vyi, ni, ri, ci + 1, q));
                                assert(drw_collision_upto(s0.mem, s0.screen, basei, vxi, vyi, ni, ri, ci + 1));
                            }
                        }
                    }
                }
                col = col + 1;
            }
            proof {
                let basei = base as int;
                let vxi = vx as int;
                let vyi = vy as int;
                let ni = n as int;
                let ri = row as int;
                assert forall|q: int| 0 <= q < SCREEN_SIZE implies (drw_flips_upto(
                    s0.mem,
                    basei,
                    vxi,
                    vyi,
                    ni,
                    ri + 1,
                    0,
                    q,
                ) == drw_flips_upto(s0.mem, basei, vxi, vyi, ni, ri, 8, q)) by {
                    if drw_flips_upto(s0.mem, basei, vxi, vyi, ni, ri + 1, 0, q) {
                        let (r2, c2) = choose|r2: int, c2: int|
                            lex_before(r2, c2, ri + 1, 0) && #[trigger] drw_hit(s0.mem, basei, vxi, vyi, ni, r2, c2, q);
                        assert(lex_before(r2, c2, ri, 8));
                        assert(drw_flips_upto(s0.mem, basei, vxi, vyi, ni, ri, 8, q));
                    }
                    if drw_flips_upto(s0.mem, basei, vxi, vyi, ni, ri, 8, q) {
                        let (r3, c3) = choose|r3: int, c3: int|
                            lex_before(r3, c3, ri, 8) && #[trigger] drw_hit(s0.mem, basei, vxi, vyi, ni, r3, c3, q);
                        assert(lex_before(r3, c3, ri + 1, 0));
                        assert(drw_flips_upto(s0.mem, basei, vxi, vyi, ni, ri + 1, 0, q));
                    }
                }
                assert(drw_collision_upto(s0.mem, s0.screen, basei, vxi, vyi, ni, ri + 1, 0)
                    == drw_collision_upto(s0.mem, s0.screen, basei, vxi, vyi, ni, ri, 8)) by {
                    if drw_collision_upto(s0.mem, s0.screen, basei, vxi, vyi, ni, ri + 1, 0) {
                        let q = choose|q: int|
                            0 <= q < SCREEN_SIZE && #[trigger] drw_flips_upto(s0.mem, basei, vxi, vyi, ni, ri + 1, 0, q)
                                && s0.screen[q] == 1;
                        assert(drw_flips_upto(s0.mem, basei, vxi, vyi, ni, ri, 8, q));
                        assert(drw_collision_upto(s0.mem, s0.screen, basei, vxi, vyi, ni, ri, 8));
                    }
                    if drw_collision_upto(s0.mem, s0.screen, basei, vxi, vyi, ni, ri, 8) {
                        let q = choose|q: int|
                            0 <= q < SCREEN_SIZE && #[trigger] drw_flips_upto(s0.mem, basei, vxi, vyi, ni, ri, 8, q)
                                && s0.screen[q] == 1;
                        assert(drw_flips_upto(s0.mem, basei, vxi, vyi, ni, ri + 1, 0, q));
                        assert(drw_collision_upto(s0.mem, s0.screen, basei, vxi, vyi, ni, ri + 1, 0));
                    }
                }
            }
            row = row + 1;
        }
        proof {
            let basei = base as int;
            let vxi = vx as int;
            let vyi = vy as int;
            let ni = n as int;
            assert forall|q: int| 0 <= q < SCREEN_SIZE implies (drw_flips_upto(
                s0.mem,
                basei,
                vxi,
                vyi,
                ni,
                ni,
                0,
                q,
            ) == drw_flips(s0.mem, basei, vxi, vyi, ni, q)) by {
                if drw_flips_upto(s0.mem, basei, vxi, vyi, ni, ni, 0, q) {
                    let (r2, c2) = choose|r2: int, c2: int|
                        lex_before(r2, c2, ni, 0) && #[trigger] drw_hit(s0.mem, basei, vxi, vyi, ni, r2, c2, q);
                    assert(drw_flips(s0.mem, basei, vxi, vyi, ni, q));
                }
                if drw_flips(s0.mem, basei, vxi, vyi, ni, q) {
                    let (r3, c3) = choose|r3: int, c3: int| #[trigger] drw_hit(s0.mem, basei, vxi, vyi, ni, r3, c3, q);
                    assert(lex_before(r3, c3, ni, 0));
                    assert(drw_flips_upto(s0.mem, basei, vxi, vyi, ni, ni, 0, q));
                }
            }
            assert(drw_collision_upto(s0.mem, s0.screen, basei, vxi, vyi, ni, ni, 0)
                == drw_collision(s0.mem, s0.screen, basei, vxi, vyi, ni)) by {
                if drw_collision_upto(s0.mem, s0.screen, basei, vxi, vyi, ni, ni, 0) {
                    let q = choose|q: int|
                        0 <= q < SCREEN_SIZE && #[trigger] drw_flips_upto(s0.mem, basei, vxi, vyi, ni, ni, 0, q)
                            && s0.screen[q] == 1;
                    assert(drw_flips(s0.mem, basei, vxi, vyi, ni, q));
                    assert(drw_collision(s0.mem, s0.screen, basei, vxi, vyi, ni));
                }
                if drw_collision(s0.mem, s0.screen, basei, vxi, vyi, ni) {
                    let q = choose|q: int|
                        0 <= q < SCREEN_SIZE && #[trigger] drw_flips(s0.mem, basei, vxi, vyi, ni, q)
                            && s0.screen[q] == 1;
                    assert(drw_flips_upto(s0.mem, basei, vxi, vyi, ni, ni, 0, q));
                    assert(drw_collision_upto(s0.mem, s0.screen, basei, vxi, vyi, ni, ni, 0));
                }
            }
            assert(self@.screen =~= spec_drw_vx_vy_nibble(s0, x, y, n)->Ok_0.screen);
            assert(self@ == spec_drw_vx_vy_nibble(s0, x, y, n)->Ok_0);
            assert(0u8 ^ 1u8 == 1u8) by (bit_vector);
            assert(1u8 ^ 1u8 == 0u8) by (bit_vector);
            assert forall|q: int| 0 <= q < SCREEN_SIZE implies self@.screen[q] == 0
                || self@.screen[q] == 1 by {
                assert(s0.screen[q] == 0 || s0.screen[q] == 1);
            }
        }
        Ok(())
    }

    /// Waits for a key press: scans the keypad in ascending order and
    /// stores the first pressed key's index in `Vx`. With every key
    /// released, rewinds the program counter by 2 so the instruction
    /// repeats next cycle.
    pub fn ld_vx_k(&mut self, x: u8)
        requires
            old(self)@.wf(),
            x < 16,
            first_pressed_from(old(self)@.keys, 0) < 0 ==> old(self)@.pc >= 2,
        ensures
            final(self)@ == spec_ld_vx_k(old(self)@, x),
            final(self)@.wf(),
    {
        let mut i: usize = 0;
        while i < 16
            invariant
                i <= 16,
                x < 16,
                self == old(self),
                self@.wf(),
                first_pressed_from(self@.keys, 0) == first_pressed_from(self@.keys, i as int),
            decreases 16 - i,
        {
            if self.keys[i] != 0 {
                proof {
                    assert(first_pressed_from(self@.keys, i as int) == i);
                }
                self.registers.set(x as usize, i as u8);
                return ;
            }
            proof {
                assert(first_pressed_from(self@.keys, i as int) == first_pressed_from(
                    self@.keys,
                    i as int + 1,
                ));
            }
            i = i + 1;
        }
        proof {
            assert(first_pressed_from(self@.keys, 16) == -1);
        }
        self.program_counter = self.program_counter - 2;
    }
}

} // verus!
