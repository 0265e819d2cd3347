//! The instruction engine: registers, flags, and the fetch/decode/execute
//! cycle over an attached memory unit.
//!
//! `CpuState` is the mathematical model of the machine; every operation of
//! `CPU` is specified as a function on it.
use vstd::prelude::*;
use crate::alu::{
    adc_flags, adc_value, bit_set, cp_flags, dec_flags, dec_value, inc_flags, inc_value,
    jump_target, lemma_four_bits, lemma_low_nibble, lemma_rotate_bits, rra_flags, rra_value,
    with_bit, with_flags, CARRY_FLAG, ZERO_FLAG,
};
use crate::mmu::{MemoryState, MMU};

verus! {

/// Why an instruction could not run.
#[derive(Debug, Clone, Copy, PartialEq, Eq, Structural)]
pub enum CPUError {
    /// The instruction touches memory and no memory unit is attached.
    NoMMU,
    /// The byte is not an instruction.
    UnknownOpcode(u8),
}

/// A 16-bit value wrapped into the address space.
pub open spec fn wrap16(x: int) -> u16 {
    (x % 0x10000) as u16
}

/// The address `0xFF00 + n` of the high-memory loads and stores.
pub open spec fn high_address(n: u8) -> u16 {
    (0xFF00 + n) as u16
}

/// The registers, the interrupt switch and the attached memory, as values.
pub struct CpuState {
    pub a: u8,
    pub f: u8,
    pub b: u8,
    pub c: u8,
    pub d: u8,
    pub e: u8,
    pub h: u8,
    pub l: u8,
    pub sp: u16,
    pub pc: u16,
    pub debug_mode: bool,
    pub interrupt_enabled: bool,
    pub memory: Option<MemoryState>,
}

impl CpuState {
    /// The state of a new engine: every register zero, interrupts enabled,
    /// no memory.
    pub open spec fn power_on() -> CpuState {
        CpuState {
            a: 0,
            f: 0,
            b: 0,
            c: 0,
            d: 0,
            e: 0,
            h: 0,
            l: 0,
            sp: 0,
            pc: 0,
            debug_mode: false,
            interrupt_enabled: true,
            memory: None,
        }
    }

    /// The HL pair, H the high byte.
    pub open spec fn hl(self) -> u16 {
        (self.h * 256 + self.l) as u16
    }

    pub open spec fn flag(self, bit: u8) -> bool {
        bit_set(self.f, bit)
    }

    /// The documented power-on register values.
    pub open spec fn initialize(self) -> CpuState {
        CpuState {
            a: 0x01,
            f: 0xB0,
            b: 0x00,
            c: 0x13,
            d: 0x00,
            e: 0xD8,
            h: 0x01,
            l: 0x4D,
            sp: 0xFFFE,
            pc: 0x0000,
            ..self
        }
    }

    pub open spec fn set_flag(self, bit: u8, value: bool) -> CpuState {
        CpuState { f: with_bit(self.f, bit, value), ..self }
    }

    pub open spec fn ld_b_n(self, n: u8) -> CpuState {
        CpuState { b: n, ..self }
    }

    pub open spec fn ld_c_n(self, n: u8) -> CpuState {
        CpuState { c: n, ..self }
    }

    pub open spec fn ld_a_d(self) -> CpuState {
        CpuState { a: self.d, ..self }
    }

    pub open spec fn ld_a_n(self, n: u8) -> CpuState {
        CpuState { a: n, ..self }
    }

    pub open spec fn inc_b(self) -> CpuState {
        CpuState { b: inc_value(self.b), f: inc_flags(self.f, self.b), ..self }
    }

    pub open spec fn inc_c(self) -> CpuState {
        CpuState { c: inc_value(self.c), f: inc_flags(self.f, self.c), ..self }
    }

    pub open spec fn inc_d(self) -> CpuState {
        CpuState { d: inc_value(self.d), f: inc_flags(self.f, self.d), ..self }
    }

    pub open spec fn dec_b(self) -> CpuState {
        CpuState { b: dec_value(self.b), f: dec_flags(self.f, self.b), ..self }
    }

    pub open spec fn dec_c(self) -> CpuState {
        CpuState { c: dec_value(self.c), f: dec_flags(self.f, self.c), ..self }
    }

    pub open spec fn dec_d(self) -> CpuState {
        CpuState { d: dec_value(self.d), f: dec_flags(self.f, self.d), ..self }
    }

    /// A XOR A: the accumulator becomes 0, only the zero flag is set.
    pub open spec fn xor_a(self) -> CpuState {
        CpuState { a: 0, f: with_flags(self.f, true, false, false, false), ..self }
    }

    pub open spec fn adc_a_c(self) -> CpuState {
        CpuState {
            a: adc_value(self.a, self.c, self.f),
            f: adc_flags(self.f, self.a, self.c),
            ..self
        }
    }

    /// Compare: the flags of A - n, A itself unchanged.
    pub open spec fn cp_n(self, n: u8) -> CpuState {
        CpuState { f: cp_flags(self.f, self.a, n), ..self }
    }

    pub open spec fn rra(self) -> CpuState {
        CpuState {
            a: rra_value(self.a, self.flag(CARRY_FLAG)),
            f: rra_flags(self.f, self.a),
            ..self
        }
    }

    pub open spec fn ld_hl_nn(self, nn: u16) -> CpuState {
        CpuState { h: (nn / 256) as u8, l: (nn % 256) as u8, ..self }
    }

    pub open spec fn ld_sp_nn(self, nn: u16) -> CpuState {
        CpuState { sp: nn, ..self }
    }

    pub open spec fn jp(self, addr: u16) -> CpuState {
        CpuState { pc: addr, ..self }
    }

    /// JR NZ: jump by the signed offset unless the zero flag is set.
    pub open spec fn jr_nz_n(self, n: u8) -> CpuState {
        CpuState {
            pc: if self.flag(ZERO_FLAG) {
                self.pc
            } else {
                jump_target(self.pc, n)
            },
            ..self
        }
    }

    pub open spec fn di(self) -> CpuState {
        CpuState { interrupt_enabled: false, ..self }
    }

    pub open spec fn ei(self) -> CpuState {
        CpuState { interrupt_enabled: true, ..self }
    }

    /// LD (HL-),A: store A at HL, then decrement HL.
    pub open spec fn ld_hl_dec_a(self) -> (CpuState, Result<(), CPUError>) {
        match self.memory {
            None => (self, Err(CPUError::NoMMU)),
            Some(m) => {
                let next = wrap16(self.hl() - 1);
                (
                    CpuState {
                        memory: Some(m.write(self.hl(), self.a)),
                        h: (next / 256) as u8,
                        l: (next % 256) as u8,
                        ..self
                    },
                    Ok(()),
                )
            },
        }
    }

    /// LDH (n),A: store A at 0xFF00 + n.
    pub open spec fn ldh_n_a(self, n: u8) -> (CpuState, Result<(), CPUError>) {
        match self.memory {
            None => (self, Err(CPUError::NoMMU)),
            Some(m) => (
                CpuState { memory: Some(m.write(high_address(n), self.a)), ..self },
                Ok(()),
            ),
        }
    }

    /// LDH A,(n): load A from 0xFF00 + n.
    pub open spec fn ldh_a_n(self, n: u8) -> (CpuState, Result<(), CPUError>) {
        match self.memory {
            None => (self, Err(CPUError::NoMMU)),
            Some(m) => (CpuState { a: m.read(high_address(n)), ..self }, Ok(())),
        }
    }

    /// RST: push PC, high byte first so that it lands at the higher address,
    /// then jump to `target`.
    pub open spec fn restart(self, target: u16) -> (CpuState, Result<(), CPUError>) {
        match self.memory {
            None => (self, Err(CPUError::NoMMU)),
            Some(m) => {
                let high_at = wrap16(self.sp - 1);
                let low_at = wrap16(self.sp - 2);
                let pushed = m.write(high_at, (self.pc / 256) as u8).write(
                    low_at,
                    (self.pc % 256) as u8,
                );
                (CpuState { sp: low_at, pc: target, memory: Some(pushed), ..self }, Ok(()))
            },
        }
    }

    /// Reads the byte at PC and moves PC past it.
    pub open spec fn fetch_byte(self) -> (CpuState, Result<u8, CPUError>) {
        match self.memory {
            None => (self, Err(CPUError::NoMMU)),
            Some(m) => (CpuState { pc: wrap16(self.pc + 1), ..self }, Ok(m.read(self.pc))),
        }
    }

    /// Reads the little-endian word at PC and moves PC past it.
    pub open spec fn fetch_word(self) -> (CpuState, Result<u16, CPUError>) {
        match self.memory {
            None => (self, Err(CPUError::NoMMU)),
            Some(m) => (
                CpuState { pc: wrap16(self.pc + 2), ..self },
                Ok((m.read(wrap16(self.pc + 1)) * 256 + m.read(self.pc)) as u16),
            ),
        }
    }

    /// The cycles of an instruction that has succeeded, or its error.
    pub open spec fn costing(r: (CpuState, Result<(), CPUError>), cycles: u32) -> (
        CpuState,
        Result<u32, CPUError>,
    ) {
        match r.1 {
            Ok(_) => (r.0, Ok(cycles)),
            Err(e) => (r.0, Err(e)),
        }
    }

    /// What running `opcode` does, with the cycles it takes. Immediate
    /// operands are fetched from PC first.
    pub open spec fn execute(self, opcode: u8) -> (CpuState, Result<u32, CPUError>) {
        let (s, byte) = self.fetch_byte();
        let (w, word) = self.fetch_word();
        match opcode {
            0x00 => (self, Ok(4)),
            0x04 => (self.inc_b(), Ok(4)),
            0x05 => (self.dec_b(), Ok(4)),
            0x06 => match byte {
                Ok(n) => (s.ld_b_n(n), Ok(8)),
                Err(e) => (s, Err(e)),
            },
            0x0C => (self.inc_c(), Ok(4)),
            0x0D => (self.dec_c(), Ok(4)),
            0x0E => match byte {
                Ok(n) => (s.ld_c_n(n), Ok(8)),
                Err(e) => (s, Err(e)),
            },
            0x14 => (self.inc_d(), Ok(4)),
            0x15 => (self.dec_d(), Ok(4)),
            0x1F => (self.rra(), Ok(4)),
            0x20 => match byte {
                Ok(n) => (s.jr_nz_n(n), Ok(if self.flag(ZERO_FLAG) { 8 } else { 12 })),
                Err(e) => (s, Err(e)),
            },
            0x21 => match word {
                Ok(nn) => (w.ld_hl_nn(nn), Ok(12)),
                Err(e) => (w, Err(e)),
            },
            0x31 => match word {
                Ok(nn) => (w.ld_sp_nn(nn), Ok(12)),
                Err(e) => (w, Err(e)),
            },
            0x32 => Self::costing(self.ld_hl_dec_a(), 8),
            0x3E => match byte {
                Ok(n) => (s.ld_a_n(n), Ok(8)),
                Err(e) => (s, Err(e)),
            },
            0x7A => (self.ld_a_d(), Ok(4)),
            0x89 => (self.adc_a_c(), Ok(4)),
            0xAF => (self.xor_a(), Ok(4)),
            0xC3 => match word {
                Ok(nn) => (w.jp(nn), Ok(16)),
                Err(e) => (w, Err(e)),
            },
            0xDF => Self::costing(self.restart(0x0018), 16),
            0xE0 => match byte {
                Ok(n) => Self::costing(s.ldh_n_a(n), 12),
                Err(e) => (s, Err(e)),
            },
            0xF0 => match byte {
                Ok(n) => Self::costing(s.ldh_a_n(n), 12),
                Err(e) => (s, Err(e)),
            },
            0xF3 => (self.di(), Ok(4)),
            0xFB => (self.ei(), Ok(4)),
            0xFE => match byte {
                Ok(n) => (s.cp_n(n), Ok(8)),
                Err(e) => (s, Err(e)),
            },
            0xFF => Self::costing(self.restart(0x0038), 16),
            _ => (self, Err(CPUError::UnknownOpcode(opcode))),
        }
    }

    /// One step: fetch the opcode at PC, then execute it.
    pub open spec fn step(self) -> (CpuState, Result<u32, CPUError>) {
        let (s, opcode) = self.fetch_byte();
        match opcode {
            Ok(op) => s.execute(op),
            Err(e) => (s, Err(e)),
        }
    }
}

/// Opcodes that touch memory: they fetch an operand, or load, store or push.
pub open spec fn touches_memory(opcode: u8) -> bool {
    opcode == 0x06 || opcode == 0x0E || opcode == 0x20 || opcode == 0x21 || opcode == 0x31
        || opcode == 0x32 || opcode == 0x3E || opcode == 0xC3 || opcode == 0xDF || opcode == 0xE0
        || opcode == 0xF0 || opcode == 0xFE || opcode == 0xFF
}

/// A restart pushes PC and jumps: SP goes down by two (wrapping), the high
/// byte of the old PC is stored at the higher of the two addresses and the low
/// byte at the lower one, and PC becomes the fixed target. The bytes read
/// back as pushed where both addresses are plain RAM.
pub proof fn lemma_restart_pushes_pc(s: CpuState, target: u16)
    requires
        s.memory is Some,
        s.memory->0.wf(),
        crate::mmu::is_plain_ram(wrap16(s.sp - 1)),
        crate::mmu::is_plain_ram(wrap16(s.sp - 2)),
    ensures
        s.restart(target).1 is Ok,
        s.restart(target).0.sp == wrap16(s.sp - 2),
        s.restart(target).0.pc == target,
        s.restart(target).0.memory->0.read(wrap16(s.sp - 1)) == s.pc / 256,
        s.restart(target).0.memory->0.read(wrap16(s.sp - 2)) == s.pc % 256,
{
}

/// With no memory attached, every operation that touches memory fails with
/// `NoMMU` and leaves the whole state, every register included, unchanged.
pub proof fn lemma_missing_memory(s: CpuState, opcode: u8, n: u8, target: u16)
    requires
        s.memory is None,
    ensures
        s.fetch_byte() == (s, Err::<u8, CPUError>(CPUError::NoMMU)),
        s.fetch_word() == (s, Err::<u16, CPUError>(CPUError::NoMMU)),
        s.ld_hl_dec_a() == (s, Err::<(), CPUError>(CPUError::NoMMU)),
        s.ldh_n_a(n) == (s, Err::<(), CPUError>(CPUError::NoMMU)),
        s.ldh_a_n(n) == (s, Err::<(), CPUError>(CPUError::NoMMU)),
        s.restart(target) == (s, Err::<(), CPUError>(CPUError::NoMMU)),
        touches_memory(opcode) ==> s.execute(opcode) == (s, Err::<u32, CPUError>(CPUError::NoMMU)),
        s.step() == (s, Err::<u32, CPUError>(CPUError::NoMMU)),
{
}

/// The engine: eight 8-bit registers, SP and PC, the interrupt switch, an
/// observational debug switch, and the memory unit it runs on.
pub struct CPU {
    pub a: u8,
    pub f: u8,
    pub b: u8,
    pub c: u8,
    pub d: u8,
    pub e: u8,
    pub h: u8,
    pub l: u8,
    pub sp: u16,
    pub pc: u16,
    pub debug_mode: bool,
    pub mmu: Option<MMU>,
    pub interrupt_enabled: bool,
}

impl View for CPU {
    type V = CpuState;

    open spec fn view(&self) -> CpuState {
        CpuState {
            a: self.a,
            f: self.f,
            b: self.b,
            c: self.c,
            d: self.d,
            e: self.e,
            h: self.h,
            l: self.l,
            sp: self.sp,
            pc: self.pc,
            debug_mode: self.debug_mode,
            interrupt_enabled: self.interrupt_enabled,
            memory: match self.mmu {
                Some(m) => Some(m@),
                None => None,
            },
        }
    }
}

impl CPU {
    /// The attached memory unit, if any, is well formed.
    pub open spec fn wf(&self) -> bool {
        self.mmu matches Some(m) ==> m.wf()
    }

    pub fn new() -> (cpu: CPU)
        ensures
            cpu@ == CpuState::power_on(),
            cpu.wf(),
    {
        CPU {
            a: 0,
            f: 0,
            b: 0,
            c: 0,
            d: 0,
            e: 0,
            h: 0,
            l: 0,
            sp: 0,
            pc: 0,
            debug_mode: false,
            mmu: None,
            interrupt_enabled: true,
        }
    }

    /// Brings the registers to their power-on values.
    pub fn initialize(&mut self)
        ensures
            final(self)@ == old(self)@.initialize(),
            final(self).mmu == old(self).mmu,
    {
        self.a = 0x01;
        self.f = 0xB0;
        self.b = 0x00;
        self.c = 0x13;
        self.d = 0x00;
        self.e = 0xD8;
        self.h = 0x01;
        self.l = 0x4D;
        self.sp = 0xFFFE;
        self.pc = 0x0000;
    }

    /// Sets or clears one of the four flags.
    pub fn set_flag(&mut self, flag: u8, value: bool)
        requires
            CARRY_FLAG <= flag <= ZERO_FLAG,
        ensures
            final(self)@ == old(self)@.set_flag(flag, value),
            final(self).mmu == old(self).mmu,
    {
        if value {
            self.f = self.f | (1u8 << flag);
        } else {
            self.f = self.f & !(1u8 << flag);
        }
    }

    pub fn get_flag(&self, flag: u8) -> (r: bool)
        requires
            flag < 8,
        ensures
            r == self@.flag(flag),
    {
        (self.f & (1u8 << flag)) != 0
    }

    /// Gives all four flags their values; the low nibble of F is kept.
    fn set_flags(&mut self, z: bool, n: bool, h: bool, c: bool)
        ensures
            final(self)@ == (CpuState { f: with_flags(old(self).f, z, n, h, c), ..old(self)@ }),
            final(self).mmu == old(self).mmu,
    {
        self.set_flag(7, z);
        self.set_flag(6, n);
        self.set_flag(5, h);
        self.set_flag(4, c);
        proof {
            lemma_four_bits(old(self).f, z, n, h, c);
        }
    }

    /// LD B,n (0x06).
    pub fn ld_b_n(&mut self, n: u8)
        ensures
            final(self)@ == old(self)@.ld_b_n(n),
            final(self).mmu == old(self).mmu,
    {
        self.b = n;
    }

    /// LD C,n (0x0E).
    pub fn ld_c_n(&mut self, n: u8)
        ensures
            final(self)@ == old(self)@.ld_c_n(n),
            final(self).mmu == old(self).mmu,
    {
        self.c = n;
    }

    /// LD (HL-),A (0x32).
    pub fn ld_hl_dec_a(&mut self) -> (r: Result<(), CPUError>)
        requires
            old(self).wf(),
        ensures
            final(self).wf(),
            (final(self)@, r) == old(self)@.ld_hl_dec_a(),
    {
        let hl: u16 = (self.h as u16) * 256 + (self.l as u16);
        let a = self.a;
        match &mut self.mmu {
            Some(mmu) => {
                mmu.write_byte(hl, a);
                let new_hl = hl.wrapping_sub(1);
                self.h = (new_hl / 256) as u8;
                self.l = (new_hl % 256) as u8;
                Ok(())
            },
            None => Err(CPUError::NoMMU),
        }
    }

    /// LD A,D (0x7A).
    pub fn ld_a_d(&mut self)
        ensures
            final(self)@ == old(self)@.ld_a_d(),
            final(self).mmu == old(self).mmu,
    {
        self.a = self.d;
    }

    /// LD A,n (0x3E).
    pub fn ld_a_n(&mut self, n: u8)
        ensures
            final(self)@ == old(self)@.ld_a_n(n),
            final(self).mmu == old(self).mmu,
    {
        self.a = n;
    }

    /// LDH (n),A (0xE0).
    pub fn ldh_n_a(&mut self, n: u8) -> (r: Result<(), CPUError>)
        requires
            old(self).wf(),
        ensures
            final(self).wf(),
            (final(self)@, r) == old(self)@.ldh_n_a(n),
    {
        let address: u16 = 0xFF00 + n as u16;
        let a = self.a;
        match &mut self.mmu {
            Some(mmu) => {
                mmu.write_byte(address, a);
                Ok(())
            },
            None => Err(CPUError::NoMMU),
        }
    }

    /// LDH A,(n) (0xF0).
    pub fn ldh_a_n(&mut self, n: u8) -> (r: Result<(), CPUError>)
        requires
            old(self).wf(),
        ensures
            final(self).wf(),
            final(self).mmu == old(self).mmu,
            (final(self)@, r) == old(self)@.ldh_a_n(n),
    {
        let address: u16 = 0xFF00 + n as u16;
        match &self.mmu {
            Some(mmu) => {
                self.a = mmu.read_byte(address);
                Ok(())
            },
            None => Err(CPUError::NoMMU),
        }
    }

    /// INC B (0x04).
    pub fn inc_b(&mut self)
        ensures
            final(self)@ == old(self)@.inc_b(),
            final(self).mmu == old(self).mmu,
    {
        self.b = self.b.wrapping_add(1);
        let carry = self.get_flag(CARRY_FLAG);
        proof {
            lemma_low_nibble(self.b);
        }
        self.set_flags(self.b == 0, false, (self.b & 0x0F) == 0, carry);
    }

    /// INC C (0x0C).
    pub fn inc_c(&mut self)
        ensures
            final(self)@ == old(self)@.inc_c(),
            final(self).mmu == old(self).mmu,
    {
        self.c = self.c.wrapping_add(1);
        let carry = self.get_flag(CARRY_FLAG);
        proof {
            lemma_low_nibble(self.c);
        }
        self.set_flags(self.c == 0, false, (self.c & 0x0F) == 0, carry);
    }

    /// INC D (0x14).
    pub fn inc_d(&mut self)
        ensures
            final(self)@ == old(self)@.inc_d(),
            final(self).mmu == old(self).mmu,
    {
        self.d = self.d.wrapping_add(1);
        let carry = self.get_flag(CARRY_FLAG);
        proof {
            lemma_low_nibble(self.d);
        }
        self.set_flags(self.d == 0, false, (self.d & 0x0F) == 0, carry);
    }

    /// DEC B (0x05).
    pub fn dec_b(&mut self)
        ensures
            final(self)@ == old(self)@.dec_b(),
            final(self).mmu == old(self).mmu,
    {
        self.b = self.b.wrapping_sub(1);
        let carry = self.get_flag(CARRY_FLAG);
        proof {
            lemma_low_nibble(self.b);
        }
        self.set_flags(self.b == 0, true, (self.b & 0x0F) == 0x0F, carry);
    }

    /// DEC C (0x0D).
    pub fn dec_c(&mut self)
        ensures
            final(self)@ == old(self)@.dec_c(),
            final(self).mmu == old(self).mmu,
    {
        self.c = self.c.wrapping_sub(1);
        let carry = self.get_flag(CARRY_FLAG);
        proof {
            lemma_low_nibble(self.c);
        }
        self.set_flags(self.c == 0, true, (self.c & 0x0F) == 0x0F, carry);
    }

    /// DEC D (0x15).
    pub fn dec_d(&mut self)
        ensures
            final(self)@ == old(self)@.dec_d(),
            final(self).mmu == old(self).mmu,
    {
        self.d = self.d.wrapping_sub(1);
        let carry = self.get_flag(CARRY_FLAG);
        proof {
            lemma_low_nibble(self.d);
        }
        self.set_flags(self.d == 0, true, (self.d & 0x0F) == 0x0F, carry);
    }

    /// XOR A (0xAF).
    pub fn xor_a(&mut self)
        ensures
            final(self)@ == old(self)@.xor_a(),
            final(self).mmu == old(self).mmu,
    {
        self.a = self.a ^ self.a;
        assert(self.a == 0) by {
            let x = old(self).a;
            assert(x ^ x == 0) by (bit_vector);
        }
        self.set_flags(true, false, false, false);
    }

    /// ADC A,C (0x89).
    pub fn adc_a_c(&mut self)
        ensures
            final(self)@ == old(self)@.adc_a_c(),
            final(self).mmu == old(self).mmu,
    {
        let a = self.a as u16;
        let c = self.c as u16;
        let carry: u16 = if self.get_flag(CARRY_FLAG) {
            1
        } else {
            0
        };
        let result = a + c + carry;
        proof {
            lemma_low_nibble(self.a);
            lemma_low_nibble(self.c);
        }
        let half_carry = ((self.a & 0x0F) as u16 + (self.c & 0x0F) as u16 + carry) > 0x0F;
        self.a = (result % 256) as u8;
        self.set_flags(self.a == 0, false, half_carry, result > 0xFF);
    }

    /// CP n (0xFE).
    pub fn cp_n(&mut self, n: u8)
        ensures
            final(self)@ == old(self)@.cp_n(n),
            final(self).mmu == old(self).mmu,
    {
        let a = self.a;
        proof {
            lemma_low_nibble(a);
            lemma_low_nibble(n);
        }
        self.set_flags(a == n, true, (a & 0x0F) < (n & 0x0F), a < n);
    }

    /// RRA (0x1F).
    pub fn rra(&mut self)
        ensures
            final(self)@ == old(self)@.rra(),
            final(self).mmu == old(self).mmu,
    {
        let carry: u8 = if self.get_flag(CARRY_FLAG) {
            1
        } else {
            0
        };
        let new_carry = self.a & 0x01;
        proof {
            lemma_rotate_bits(self.a, carry);
        }
        self.a = (self.a >> 1) | (carry << 7);
        self.set_flags(false, false, false, new_carry == 1);
    }

    /// LD HL,nn (0x21).
    pub fn ld_hl_nn(&mut self, nn: u16)
        ensures
            final(self)@ == old(self)@.ld_hl_nn(nn),
            final(self).mmu == old(self).mmu,
    {
        self.l = (nn % 256) as u8;
        self.h = (nn / 256) as u8;
    }

    /// LD SP,nn (0x31).
    pub fn ld_sp_nn(&mut self, nn: u16)
        ensures
            final(self)@ == old(self)@.ld_sp_nn(nn),
            final(self).mmu == old(self).mmu,
    {
        self.sp = nn;
    }

    /// JP nn (0xC3).
    pub fn jp(&mut self, addr: u16)
        ensures
            final(self)@ == old(self)@.jp(addr),
            final(self).mmu == old(self).mmu,
    {
        self.pc = addr;
    }

    /// JR NZ,n (0x20).
    pub fn jr_nz_n(&mut self, n: u8)
        ensures
            final(self)@ == old(self)@.jr_nz_n(n),
            final(self).mmu == old(self).mmu,
    {
        if !self.get_flag(ZERO_FLAG) {
            if n < 0x80 {
                self.pc = self.pc.wrapping_add(n as u16);
            } else {
                self.pc = self.pc.wrapping_sub(0x100 - n as u16);
            }
        }
    }

    /// NOP (0x00).
    pub fn nop(&mut self)
        ensures
            *final(self) == *old(self),
    {
    }

    /// DI (0xF3).
    pub fn di(&mut self)
        ensures
            final(self)@ == old(self)@.di(),
            final(self).mmu == old(self).mmu,
    {
        self.interrupt_enabled = false;
    }

    /// EI (0xFB).
    pub fn ei(&mut self)
        ensures
            final(self)@ == old(self)@.ei(),
            final(self).mmu == old(self).mmu,
    {
        self.interrupt_enabled = true;
    }

    /// Pushes PC and jumps to `target`; both restart instructions use it.
    fn restart(&mut self, target: u16) -> (r: Result<(), CPUError>)
        requires
            old(self).wf(),
        ensures
            final(self).wf(),
            (final(self)@, r) == old(self)@.restart(target),
    {
        let pc = self.pc;
        let high_at = self.sp.wrapping_sub(1);
        let low_at = high_at.wrapping_sub(1);
        match &mut self.mmu {
            Some(mmu) => {
                mmu.write_byte(high_at, (pc / 256) as u8);
                mmu.write_byte(low_at, (pc % 256) as u8);
                self.sp = low_at;
                self.pc = target;
                Ok(())
            },
            None => Err(CPUError::NoMMU),
        }
    }

    /// RST 18H (0xDF).
    pub fn rst_18(&mut self) -> (r: Result<(), CPUError>)
        requires
            old(self).wf(),
        ensures
            final(self).wf(),
            (final(self)@, r) == old(self)@.restart(0x0018),
    {
        self.restart(0x0018)
    }

    /// RST 38H (0xFF).
    pub fn rst_38(&mut self) -> (r: Result<(), CPUError>)
        requires
            old(self).wf(),
        ensures
            final(self).wf(),
            (final(self)@, r) == old(self)@.restart(0x0038),
    {
        self.restart(0x0038)
    }

    /// Runs one instruction: fetches the opcode at PC and executes it,
    /// returning the cycles it took.
    pub fn step(&mut self) -> (r: Result<u32, CPUError>)
        requires
            old(self).wf(),
        ensures
            final(self).wf(),
            (final(self)@, r) == old(self)@.step(),
    {
        match self.fetch_byte() {
            Ok(opcode) => self.execute(opcode),
            Err(e) => Err(e),
        }
    }

    /// Executes `opcode`, fetching its immediate operands from PC first.
    pub fn execute(&mut self, opcode: u8) -> (r: Result<u32, CPUError>)
        requires
            old(self).wf(),
        ensures
            final(self).wf(),
            (final(self)@, r) == old(self)@.execute(opcode),
    {
        match opcode {
            0x00 => {
                self.nop();
                Ok(4)
            },
            0x04 => {
                self.inc_b();
                Ok(4)
            },
            0x05 => {
                self.dec_b();
                Ok(4)
            },
            0x06 => match self.fetch_byte() {
                Ok(n) => {
                    self.ld_b_n(n);
                    Ok(8)
                },
                Err(e) => Err(e),
            },
            0x0C => {
                self.inc_c();
                Ok(4)
            },
            0x0D => {
                self.dec_c();
                Ok(4)
            },
            0x0E => match self.fetch_byte() {
                Ok(n) => {
                    self.ld_c_n(n);
                    Ok(8)
                },
                Err(e) => Err(e),
            },
            0x14 => {
                self.inc_d();
                Ok(4)
            },
            0x15 => {
                self.dec_d();
                Ok(4)
            },
            0x1F => {
                self.rra();
                Ok(4)
            },
            0x20 => {
                let taken = !self.get_flag(ZERO_FLAG);
                match self.fetch_byte() {
                    Ok(n) => {
                        self.jr_nz_n(n);
                        Ok(if taken { 12 } else { 8 })
                    },
                    Err(e) => Err(e),
                }
            },
            0x21 => match self.fetch_word() {
                Ok(nn) => {
                    self.ld_hl_nn(nn);
                    Ok(12)
                },
                Err(e) => Err(e),
            },
            0x31 => match self.fetch_word() {
                Ok(nn) => {
                    self.ld_sp_nn(nn);
                    Ok(12)
                },
                Err(e) => Err(e),
            },
            0x32 => match self.ld_hl_dec_a() {
                Ok(()) => Ok(8),
                Err(e) => Err(e),
            },
            0x3E => match self.fetch_byte() {
                Ok(n) => {
                    self.ld_a_n(n);
                    Ok(8)
                },
                Err(e) => Err(e),
            },
            0x7A => {
                self.ld_a_d();
                Ok(4)
            },
            0x89 => {
                self.adc_a_c();
                Ok(4)
            },
            0xAF => {
                self.xor_a();
                Ok(4)
            },
            0xC3 => match self.fetch_word() {
                Ok(addr) => {
                    self.jp(addr);
                    Ok(16)
                },
                Err(e) => Err(e),
            },
            0xDF => match self.rst_18() {
                Ok(()) => Ok(16),
                Err(e) => Err(e),
            },
            0xE0 => match self.fetch_byte() {
                Ok(n) => match self.ldh_n_a(n) {
                    Ok(()) => Ok(12),
                    Err(e) => Err(e),
                },
                Err(e) => Err(e),
            },
            0xF0 => match self.fetch_byte() {
                Ok(n) => match self.ldh_a_n(n) {
                    Ok(()) => Ok(12),
                    Err(e) => Err(e),
                },
                Err(e) => Err(e),
            },
            0xF3 => {
                self.di();
                Ok(4)
            },
            0xFB => {
                self.ei();
                Ok(4)
            },
            0xFE => match self.fetch_byte() {
                Ok(n) => {
                    self.cp_n(n);
                    Ok(8)
                },
                Err(e) => Err(e),
            },
            0xFF => match self.rst_38() {
                Ok(()) => Ok(16),
                Err(e) => Err(e),
            },
            _ => Err(CPUError::UnknownOpcode(opcode)),
        }
    }

    /// Reads the byte at PC and advances PC by one.
    pub fn fetch_byte(&mut self) -> (r: Result<u8, CPUError>)
        requires
            old(self).wf(),
        ensures
            final(self).wf(),
            final(self).mmu == old(self).mmu,
            (final(self)@, r) == old(self)@.fetch_byte(),
    {
        match &self.mmu {
            Some(mmu) => {
                let byte = mmu.read_byte(self.pc);
                self.pc = self.pc.wrapping_add(1);
                Ok(byte)
            },
            None => Err(CPUError::NoMMU),
        }
    }

    /// Reads the little-endian word at PC and advances PC by two.
    pub fn fetch_word(&mut self) -> (r: Result<u16, CPUError>)
        requires
            old(self).wf(),
        ensures
            final(self).wf(),
            final(self).mmu == old(self).mmu,
            (final(self)@, r) == old(self)@.fetch_word(),
    {
        match &self.mmu {
            Some(mmu) => {
                let low_byte = mmu.read_byte(self.pc);
                let high_byte = mmu.read_byte(self.pc.wrapping_add(1));
                self.pc = self.pc.wrapping_add(2);
                Ok((high_byte as u16) * 256 + (low_byte as u16))
            },
            None => Err(CPUError::NoMMU),
        }
    }

    /// Attaches a memory unit.
    pub fn set_mmu(&mut self, mmu: MMU)
        requires
            mmu.wf(),
        ensures
            final(self).wf(),
            final(self)@ == (CpuState { memory: Some(mmu@), ..old(self)@ }),
    {
        self.mmu = Some(mmu);
    }
}

} // verus!
