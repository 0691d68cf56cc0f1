//! The cycle driver: fetch the opcode at the program counter, advance
//! the program counter, decode, dispatch to the instruction, and let
//! the timers decay — or stop on the first error.

use vstd::prelude::*;

use crate::decode::Instr;
use crate::decode::decode;
use crate::decode::lemma_decode_wf;
use crate::decode::spec_decode;
use crate::instr::spec_add_i_vx;
use crate::instr::spec_add_vx_byte;
use crate::instr::spec_add_vx_vy;
use crate::instr::spec_and_vx_vy;
use crate::instr::spec_call;
use crate::instr::spec_cls;
use crate::instr::spec_drw_vx_vy_nibble;
use crate::instr::spec_jp;
use crate::instr::spec_jp_v0_addr;
use crate::instr::spec_ld_b_vx;
use crate::instr::spec_ld_dt_vx;
use crate::instr::spec_ld_f_vx;
use crate::instr::spec_ld_i_addr;
use crate::instr::spec_ld_i_vx;
use crate::instr::spec_ld_st_vx;
use crate::instr::spec_ld_vx_byte;
use crate::instr::spec_ld_vx_dt;
use crate::instr::spec_ld_vx_i;
use crate::instr::spec_ld_vx_k;
use crate::instr::spec_ld_vx_vy;
use crate::instr::spec_or_vx_vy;
use crate::instr::spec_ret;
use crate::instr::spec_rnd_vx_byte;
use crate::instr::spec_se_vx_byte;
use crate::instr::spec_se_vx_vy;
use crate::instr::spec_shl_vx;
use crate::instr::spec_shr_vx;
use crate::instr::spec_skp_vx;
use crate::instr::spec_sknp_vx;
use crate::instr::spec_sne_vx_byte;
use crate::instr::spec_sne_vx_vy;
use crate::instr::spec_sub_vx_vy;
use crate::instr::spec_subn_vx_vy;
use crate::instr::spec_xor_vx_vy;
use crate::state::Chip8;
use crate::state::MEMORY_SIZE;
use crate::state::VmError;
use crate::state::VmState;
use crate::state::fetched_opcode;

verus! {

/// The byte the built-in randomness stub hands to `RND Vx, byte`. A
/// host that wants real randomness drives the cycle through
/// [`Chip8::emulate_cycle_with`] and supplies its own byte.
pub const STUB_RANDOM_BYTE: u8 = 0x01;

/// Timer decay, once per cycle: each nonzero timer drops by exactly
/// one. Timers are coupled to instruction count, not wall-clock time.
pub open spec fn spec_tick_timers(s: VmState) -> VmState {
    VmState {
        dt: if s.dt > 0 {
            (s.dt - 1) as u8
        } else {
            s.dt
        },
        st: if s.st > 0 {
            (s.st - 1) as u8
        } else {
            s.st
        },
        ..s
    }
}

/// What dispatching one decoded instruction does to the state. The
/// program counter has already been advanced past the instruction.
pub open spec fn spec_exec_instr(s: VmState, instr: Instr, rnd: u8) -> Result<VmState, VmError> {
    match instr {
        Instr::Cls => Ok(spec_cls(s)),
        Instr::Ret => spec_ret(s),
        Instr::Jp { nnn } => Ok(spec_jp(s, nnn)),
        Instr::Call { nnn } => spec_call(s, nnn),
        Instr::SeVxByte { x, nn } => Ok(spec_se_vx_byte(s, x, nn)),
        Instr::SneVxByte { x, nn } => Ok(spec_sne_vx_byte(s, x, nn)),
        Instr::SeVxVy { x, y } => Ok(spec_se_vx_vy(s, x, y)),
        Instr::LdVxByte { x, nn } => Ok(spec_ld_vx_byte(s, x, nn)),
        Instr::AddVxByte { x, nn } => Ok(spec_add_vx_byte(s, x, nn)),
        Instr::LdVxVy { x, y } => Ok(spec_ld_vx_vy(s, x, y)),
        Instr::OrVxVy { x, y } => Ok(spec_or_vx_vy(s, x, y)),
        Instr::AndVxVy { x, y } => Ok(spec_and_vx_vy(s, x, y)),
        Instr::XorVxVy { x, y } => Ok(spec_xor_vx_vy(s, x, y)),
        Instr::AddVxVy { x, y } => Ok(spec_add_vx_vy(s, x, y)),
        Instr::SubVxVy { x, y } => Ok(spec_sub_vx_vy(s, x, y)),
        Instr::ShrVx { x } => Ok(spec_shr_vx(s, x)),
        Instr::SubnVxVy { x, y } => Ok(spec_subn_vx_vy(s, x, y)),
        Instr::ShlVx { x } => Ok(spec_shl_vx(s, x)),
        Instr::SneVxVy { x, y } => Ok(spec_sne_vx_vy(s, x, y)),
        Instr::LdIAddr { nnn } => Ok(spec_ld_i_addr(s, nnn)),
        Instr::JpV0Addr { nnn } => Ok(spec_jp_v0_addr(s, nnn)),
        Instr::RndVxByte { x, nn } => Ok(spec_rnd_vx_byte(s, x, nn, rnd)),
        Instr::DrwVxVyNibble { x, y, n } => spec_drw_vx_vy_nibble(s, x, y, n),
        Instr::SkpVx { x } => spec_skp_vx(s, x),
        Instr::SknpVx { x } => spec_sknp_vx(s, x),
        Instr::LdVxDt { x } => Ok(spec_ld_vx_dt(s, x)),
        Instr::LdVxK { x } => Ok(spec_ld_vx_k(s, x)),
        Instr::LdDtVx { x } => Ok(spec_ld_dt_vx(s, x)),
        Instr::LdStVx { x } => Ok(spec_ld_st_vx(s, x)),
        Instr::AddIVx { x } => Ok(spec_add_i_vx(s, x)),
        Instr::LdFVx { x } => Ok(spec_ld_f_vx(s, x)),
        Instr::LdBVx { x } => spec_ld_b_vx(s, x),
        Instr::LdIVx { x } => spec_ld_i_vx(s, x),
        Instr::LdVxI { x } => spec_ld_vx_i(s, x),
    }
}

/// One full cycle: fetch the opcode at `pc` (failing when `pc` runs
/// off memory), advance `pc` by 2, decode (an unknown opcode is a
/// fatal decode failure), run the instruction, then tick the timers.
/// On any error the machine state is unchanged.
pub open spec fn spec_step(s: VmState, rnd: u8) -> Result<VmState, VmError> {
    if s.pc + 1 >= MEMORY_SIZE {
        Err(VmError::AddressOutOfRange)
    } else {
        match spec_decode(fetched_opcode(s)) {
            None => Err(VmError::DecodeFailure),
            Some(instr) => {
                let s1 = VmState { pc: (s.pc + 2) as u16, ..s };
                match spec_exec_instr(s1, instr, rnd) {
                    Ok(s2) => Ok(spec_tick_timers(s2)),
                    Err(e) => Err(e),
                }
            },
        }
    }
}

impl Chip8 {
    /// Lets both timers decay by one when nonzero.
    fn tick_timers(&mut self)
        requires
            old(self)@.wf(),
        ensures
            final(self)@ == spec_tick_timers(old(self)@),
            final(self)@.wf(),
    {
        if self.delay_timer > 0 {
            self.delay_timer = self.delay_timer - 1;
        }
        if self.sound_timer > 0 {
            self.sound_timer = self.sound_timer - 1;
        }
    }

    /// Runs one cycle with the caller's random byte as the randomness
    /// policy: fetch, advance, decode, execute, tick timers. On an
    /// error the state is exactly as it was before the call, and the
    /// machine should be discarded.
    pub fn emulate_cycle_with(&mut self, rnd: u8) -> (r: Result<(), VmError>)
        requires
            old(self)@.wf(),
        ensures
            final(self)@.wf(),
            match r {
                Ok(()) => spec_step(old(self)@, rnd) == Ok::<VmState, VmError>(final(self)@),
                Err(e) => spec_step(old(self)@, rnd) == Err::<VmState, VmError>(e) && final(self)@
                    == old(self)@,
            },
    {
        if self.program_counter as usize + 1 >= MEMORY_SIZE {
            return Err(VmError::AddressOutOfRange);
        }
        let op = self.fetch_opcode();
        let instr = match decode(op) {
            None => {
                return Err(VmError::DecodeFailure);
            },
            Some(instr) => instr,
        };
        proof {
            lemma_decode_wf(op);
        }
        self.program_counter = self.program_counter + 2;
        let r = match instr {
            Instr::Cls => {
                self.cls();
                Ok(())
            },
            Instr::Ret => self.ret(),
            Instr::Jp { nnn } => {
                self.jp(nnn);
                Ok(())
            },
            Instr::Call { nnn } => self.call(nnn),
            Instr::SeVxByte { x, nn } => {
                self.se_vx_byte(x, nn);
                Ok(())
            },
            Instr::SneVxByte { x, nn } => {
                self.sne_vx_byte(x, nn);
                Ok(())
            },
            Instr::SeVxVy { x, y } => {
                self.se_vx_vy(x, y);
                Ok(())
            },
            Instr::LdVxByte { x, nn } => {
                self.ld_vx_byte(x, nn);
                Ok(())
            },
            Instr::AddVxByte { x, nn } => {
                self.add_vx_byte(x, nn);
                Ok(())
            },
            Instr::LdVxVy { x, y } => {
                self.ld_vx_vy(x, y);
                Ok(())
            },
            Instr::OrVxVy { x, y } => {
                self.or_vx_vy(x, y);
                Ok(())
            },
            Instr::AndVxVy { x, y } => {
                self.and_vx_vy(x, y);
                Ok(())
            },
            Instr::XorVxVy { x, y } => {
                self.xor_vx_vy(x, y);
                Ok(())
            },
            Instr::AddVxVy { x, y } => {
                self.add_vx_vy(x, y);
                Ok(())
            },
            Instr::SubVxVy { x, y } => {
                self.sub_vx_vy(x, y);
                Ok(())
            },
            Instr::ShrVx { x } => {
                self.shr_vx(x);
                Ok(())
            },
            Instr::SubnVxVy { x, y } => {
                self.subn_vx_vy(x, y);
                Ok(())
            },
            Instr::ShlVx { x } => {
                self.shl_vx(x);
                Ok(())
            },
            Instr::SneVxVy { x, y } => {
                self.sne_vx_vy(x, y);
                Ok(())
            },
            Instr::LdIAddr { nnn } => {
                self.ld_i_addr(nnn);
                Ok(())
            },
            Instr::JpV0Addr { nnn } => {
                self.jp_v0_addr(nnn);
                Ok(())
            },
            Instr::RndVxByte { x, nn } => {
                self.rnd_vx_byte(x, nn, rnd);
                Ok(())
            },
            Instr::DrwVxVyNibble { x, y, n } => self.drw_vx_vy_nibble(x, y, n),
            Instr::SkpVx { x } => self.skp_vx(x),
            Instr::SknpVx { x } => self.sknp_vx(x),
            Instr::LdVxDt { x } => {
                self.ld_vx_dt(x);
                Ok(())
            },
            Instr::LdVxK { x } => {
                self.ld_vx_k(x);
                Ok(())
            },
            Instr::LdDtVx { x } => {
                self.ld_dt_vx(x);
                Ok(())
            },
            Instr::LdStVx { x } => {
                self.ld_st_vx(x);
                Ok(())
            },
            Instr::AddIVx { x } => {
                self.add_i_vx(x);
                Ok(())
            },
            Instr::LdFVx { x } => {
                self.ld_f_vx(x);
                Ok(())
            },
            Instr::LdBVx { x } => self.ld_b_vx(x),
            Instr::LdIVx { x } => self.ld_i_vx(x),
            Instr::LdVxI { x } => self.ld_vx_i(x),
        };
        match r {
            Ok(()) => {
                self.tick_timers();
                Ok(())
            },
            Err(e) => {
                self.program_counter = self.program_counter - 2;
                Err(e)
            },
        }
    }

    /// Runs one cycle with the built-in randomness stub, which always
    /// supplies [`STUB_RANDOM_BYTE`].
    pub fn emulate_cycle(&mut self) -> (r: Result<(), VmError>)
        requires
            old(self)@.wf(),
        ensures
            final(self)@.wf(),
            match r {
                Ok(()) => spec_step(old(self)@, STUB_RANDOM_BYTE) == Ok::<VmState, VmError>(
                    final(self)@,
                ),
                Err(e) => spec_step(old(self)@, STUB_RANDOM_BYTE) == Err::<VmState, VmError>(e)
                    && final(self)@ == old(self)@,
            },
    {
        self.emulate_cycle_with(STUB_RANDOM_BYTE)
    }
}

} // verus!
