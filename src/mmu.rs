//! The 64 KiB address space: its regions, the cartridge loader, and the
//! display timing that advances the scanline and mode registers.
use vstd::prelude::*;
use crate::cartridge::CartridgeHeader;

verus! {

/// The LCD status register; only bits 3 to 6 take software writes.
pub const STAT: u16 = 0xFF41;

/// The scanline readback register; a software write resets it.
pub const LY: u16 = 0xFF44;

/// Cycles that one scanline takes.
pub const SCANLINE_CYCLES: u32 = 456;

/// Scanlines in a frame, counting the vertical blank.
pub const SCANLINE_COUNT: u8 = 154;

/// First scanline of the vertical blank.
pub const VBLANK_START: u8 = 144;

/// Size of each ROM bank.
pub const ROM_BANK_SIZE: usize = 0x4000;

/// Addresses of either ROM bank: reads give the cartridge, writes are dropped.
pub open spec fn is_rom(addr: u16) -> bool {
    addr < 0x8000
}

/// The gap after the sprite table: reads give 0xFF, writes are dropped.
pub open spec fn is_unmapped(addr: u16) -> bool {
    0xFEA0 <= addr < 0xFF00
}

/// The address whose storage an access to `addr` reaches: the echo range
/// mirrors work RAM, every other address is its own.
pub open spec fn storage_of(addr: u16) -> u16 {
    if 0xE000 <= addr < 0xFE00 {
        (addr - 0x2000) as u16
    } else {
        addr
    }
}

/// Addresses where a software write stores the value as it is.
pub open spec fn is_plain_ram(addr: u16) -> bool {
    !is_rom(addr) && !is_unmapped(addr) && addr != STAT && addr != LY
}

/// The display mode for a position within a scanline: OAM scan (2) for the
/// first 80 cycles, pixel transfer (3) up to 252, then horizontal blank (0);
/// the vertical-blank lines are always mode 1.
pub open spec fn mode_at(line: u8, position: u32) -> u8 {
    if line >= VBLANK_START {
        1
    } else if position <= 80 {
        2
    } else if position <= 252 {
        3
    } else {
        0
    }
}

/// The first 0x8000 bytes of a ROM image, zero-padded.
pub open spec fn rom_image(rom: Seq<u8>) -> Seq<u8> {
    Seq::new(0x8000, |i: int| if i < rom.len() { rom[i] } else { 0 })
}

/// The address space as a program sees it, with the display timing state.
pub struct MemoryState {
    /// What a read of each address returns.
    pub bytes: Seq<u8>,
    /// Cycles already spent in the current scanline.
    pub cycles: u32,
    /// The current scanline.
    pub scanline: u8,
    /// The current display mode.
    pub mode: u8,
    /// The header of the loaded cartridge.
    pub header: Option<CartridgeHeader>,
}

impl MemoryState {
    /// Every address has a byte; the timing counters are in range.
    pub open spec fn wf(self) -> bool {
        &&& self.bytes.len() == 0x10000
        &&& self.cycles < SCANLINE_CYCLES
        &&& self.scanline < SCANLINE_COUNT
        &&& self.mode < 4
    }

    /// The state of a freshly made address space: all zero, but for the
    /// unmapped gap, and no cartridge.
    pub open spec fn power_on() -> MemoryState {
        MemoryState {
            bytes: Seq::new(0x10000, |i: int| if is_unmapped(i as u16) { 0xFFu8 } else { 0u8 }),
            cycles: 0,
            scanline: 0,
            mode: 0,
            header: None,
        }
    }

    pub open spec fn read(self, addr: u16) -> u8 {
        self.bytes[addr as int]
    }

    /// The value that a software write of `value` to `addr` leaves there.
    pub open spec fn stored_value(self, addr: u16, value: u8) -> u8 {
        if addr == LY {
            0
        } else if addr == STAT {
            (value & 0x78) | (self.read(STAT) & 0x87)
        } else {
            value
        }
    }

    /// Whether a software write to `addr` reaches the storage read at `a`.
    pub open spec fn write_reaches(addr: u16, a: u16) -> bool {
        !is_rom(addr) && !is_unmapped(addr) && storage_of(a) == storage_of(addr)
    }

    /// A software write: ROM and the unmapped gap ignore it, the echo range
    /// writes work RAM, STAT keeps its hardware bits, and a write to LY
    /// resets both the register and the scanline counter.
    pub open spec fn write(self, addr: u16, value: u8) -> MemoryState {
        MemoryState {
            bytes: Seq::new(
                0x10000,
                |i: int|
                    if Self::write_reaches(addr, i as u16) {
                        self.stored_value(addr, value)
                    } else {
                        self.bytes[i]
                    },
            ),
            scanline: if addr == LY {
                0
            } else {
                self.scanline
            },
            ..self
        }
    }

    /// The scanlines that `cycles` more cycles complete.
    pub open spec fn lines_after(self, cycles: u32) -> int {
        (self.cycles + cycles) / (SCANLINE_CYCLES as int)
    }

    /// Display timing after `cycles` more cycles: every 456 cycles advance
    /// the scanline (modulo 154) and write it to LY; the mode follows the
    /// position in the scanline and goes to the low two bits of STAT.
    pub open spec fn advance(self, cycles: u32) -> MemoryState {
        let lines = self.lines_after(cycles);
        let line = ((self.scanline + lines) % (SCANLINE_COUNT as int)) as u8;
        let position = ((self.cycles + cycles) % (SCANLINE_CYCLES as int)) as u32;
        let mode = mode_at(line, position);
        let bytes = if lines > 0 {
            self.bytes.update(LY as int, line)
        } else {
            self.bytes
        };
        MemoryState {
            bytes: bytes.update(STAT as int, (bytes[STAT as int] & 0xFC) | mode),
            cycles: position,
            scanline: line,
            mode,
            ..self
        }
    }

    /// The bytes after loading `rom`: both ROM banks from the image, the
    /// rest as it was.
    pub open spec fn loaded_bytes(self, rom: Seq<u8>) -> Seq<u8> {
        Seq::new(
            0x10000,
            |i: int|
                if i < 0x8000 {
                    rom_image(rom)[i]
                } else {
                    self.bytes[i]
                },
        )
    }
}

/// A write and then a read of the same plain RAM address gives back the value
/// written (the echo range and work RAM see each other's writes); a write to
/// either ROM bank leaves everything as it was.
pub proof fn lemma_write_then_read(s: MemoryState, addr: u16, value: u8)
    requires
        s.wf(),
    ensures
        is_plain_ram(addr) ==> s.write(addr, value).read(addr) == value,
        is_plain_ram(addr) ==> s.write(addr, value).read(storage_of(addr)) == value,
        is_rom(addr) ==> s.write(addr, value) == s,
{
    if is_rom(addr) {
        assert(s.write(addr, value).bytes =~= s.bytes);
    }
}

/// Whatever is written to LY, it reads back as 0 and the scanline counter is 0.
pub proof fn lemma_scanline_write_resets(s: MemoryState, value: u8)
    ensures
        s.write(LY, value).read(LY) == 0,
        s.write(LY, value).scanline == 0,
{
}

/// A full frame of cycles (70224: 154 scanlines of 456 cycles) brings the scanline
/// and the position in it back to where they were.
pub proof fn lemma_full_frame(s: MemoryState)
    requires
        s.wf(),
    ensures
        s.advance(70224).scanline == s.scanline,
        s.advance(70224).cycles == s.cycles,
{
    assert(s.lines_after(70224) == 154);
}

/// Advancing in two steps ends in the same scanline and position as
/// advancing once by the sum, so a frame may be fed in any pieces.
pub proof fn lemma_advance_in_steps(s: MemoryState, x: u32, y: u32)
    requires
        s.wf(),
        x + y <= u32::MAX,
    ensures
        s.advance(x).advance(y).scanline == s.advance((x + y) as u32).scanline,
        s.advance(x).advance(y).cycles == s.advance((x + y) as u32).cycles,
{
    let t = s.advance(x);
    let total = s.cycles + x + y;
    let q1 = (s.cycles + x) / 456;
    let r1 = (s.cycles + x) % 456;
    assert(t.cycles == r1);
    assert(t.scanline == (s.scanline + q1) % 154);
    let q2 = (r1 + y) / 456;
    assert((s.cycles + x) == q1 * 456 + r1);
    assert(total == (q1 + q2) * 456 + (r1 + y) % 456) by (nonlinear_arith)
        requires
            total == s.cycles + x + y,
            s.cycles + x == q1 * 456 + r1,
            q2 == (r1 + y) / 456,
            r1 + y >= 0,
    ;
    assert(total / 456 == q1 + q2 && total % 456 == (r1 + y) % 456) by (nonlinear_arith)
        requires
            total == (q1 + q2) * 456 + (r1 + y) % 456,
            0 <= (r1 + y) % 456 < 456,
            q1 >= 0,
            q2 >= 0,
    ;
    assert((t.scanline + q2) % 154 == (s.scanline + q1 + q2) % 154) by (nonlinear_arith)
        requires
            t.scanline == (s.scanline + q1) % 154,
            s.scanline >= 0,
            q1 >= 0,
            q2 >= 0,
    ;
}

/// Within a scanline before the vertical blank the modes come in the order
/// 2, 3, 0; every scanline from 144 on is in mode 1.
pub proof fn lemma_mode_order(line: u8, p: u32, q: u32)
    requires
        p <= q < SCANLINE_CYCLES,
    ensures
        line < VBLANK_START ==> mode_at(line, 0) == 2,
        line < VBLANK_START ==> mode_at(line, 455) == 0,
        line < VBLANK_START && mode_at(line, p) == 3 ==> mode_at(line, q) != 2,
        line < VBLANK_START && mode_at(line, p) == 0 ==> mode_at(line, q) == 0,
        line >= VBLANK_START ==> mode_at(line, p) == 1,
{
}

/// The memory unit: both ROM banks, video, external and work RAM, the sprite
/// table, the I/O registers, high RAM and the interrupt-enable register,
/// with the display timing counters.
pub struct MMU {
    rom_bank0: Vec<u8>,
    rom_bankn: Vec<u8>,
    vram: Vec<u8>,
    ext_ram: Vec<u8>,
    wram: Vec<u8>,
    oam: Vec<u8>,
    io_regs: Vec<u8>,
    hram: Vec<u8>,
    ie_register: u8,
    pub header: Option<CartridgeHeader>,
    cycles: u32,
    scanline: u8,
    mode: u8,
}

impl MMU {
    /// Each region has its size; the timing counters are in range.
    pub closed spec fn wf(&self) -> bool {
        &&& self.rom_bank0@.len() == 0x4000
        &&& self.rom_bankn@.len() == 0x4000
        &&& self.vram@.len() == 0x2000
        &&& self.ext_ram@.len() == 0x2000
        &&& self.wram@.len() == 0x2000
        &&& self.oam@.len() == 0xA0
        &&& self.io_regs@.len() == 0x80
        &&& self.hram@.len() == 0x7F
        &&& self.cycles < SCANLINE_CYCLES
        &&& self.scanline < SCANLINE_COUNT
        &&& self.mode < 4
    }

    /// What a read of `addr` returns, region by region.
    closed spec fn byte_at(&self, addr: u16) -> u8 {
        if addr < 0x4000 {
            self.rom_bank0@[addr as int]
        } else if addr < 0x8000 {
            self.rom_bankn@[addr - 0x4000]
        } else if addr < 0xA000 {
            self.vram@[addr - 0x8000]
        } else if addr < 0xC000 {
            self.ext_ram@[addr - 0xA000]
        } else if addr < 0xE000 {
            self.wram@[addr - 0xC000]
        } else if addr < 0xFE00 {
            self.wram@[addr - 0xE000]
        } else if addr < 0xFEA0 {
            self.oam@[addr - 0xFE00]
        } else if addr < 0xFF00 {
            0xFF
        } else if addr < 0xFF80 {
            self.io_regs@[addr - 0xFF00]
        } else if addr < 0xFFFF {
            self.hram@[addr - 0xFF80]
        } else {
            self.ie_register
        }
    }

    /// A well-formed unit has a well-formed view.
    pub proof fn lemma_view_wf(&self)
        requires
            self.wf(),
        ensures
            self@.wf(),
    {
    }

    pub fn new() -> (m: MMU)
        ensures
            m.wf(),
            m@ == MemoryState::power_on(),
    {
        let m = MMU {
            rom_bank0: vec![0u8; 0x4000],
            rom_bankn: vec![0u8; 0x4000],
            vram: vec![0u8; 0x2000],
            ext_ram: vec![0u8; 0x2000],
            wram: vec![0u8; 0x2000],
            oam: vec![0u8; 0xA0],
            io_regs: vec![0u8; 0x80],
            hram: vec![0u8; 0x7F],
            ie_register: 0,
            header: None,
            cycles: 0,
            scanline: 0,
            mode: 0,
        };
        assert(m@.bytes =~= MemoryState::power_on().bytes);
        m
    }

    /// Cycles already spent in the current scanline.
    pub fn cycles(&self) -> (r: u32)
        ensures
            r == self@.cycles,
    {
        self.cycles
    }

    /// The scanline counter.
    pub fn scanline(&self) -> (r: u8)
        ensures
            r == self@.scanline,
    {
        self.scanline
    }

    /// The current display mode.
    pub fn mode(&self) -> (r: u8)
        ensures
            r == self@.mode,
    {
        self.mode
    }

    pub fn read_byte(&self, address: u16) -> (r: u8)
        requires
            self.wf(),
        ensures
            r == self@.read(address),
    {
        match address {
            0x0000..=0x3FFF => self.rom_bank0[address as usize],
            0x4000..=0x7FFF => self.rom_bankn[(address - 0x4000) as usize],
            0x8000..=0x9FFF => self.vram[(address - 0x8000) as usize],
            0xA000..=0xBFFF => self.ext_ram[(address - 0xA000) as usize],
            0xC000..=0xDFFF => self.wram[(address - 0xC000) as usize],
            0xE000..=0xFDFF => self.wram[(address - 0xE000) as usize],
            0xFE00..=0xFE9F => self.oam[(address - 0xFE00) as usize],
            0xFF00..=0xFF7F => self.io_regs[(address - 0xFF00) as usize],
            0xFF80..=0xFFFE => self.hram[(address - 0xFF80) as usize],
            0xFFFF => self.ie_register,
            _ => 0xFF,
        }
    }

    pub fn write_byte(&mut self, address: u16, value: u8)
        requires
            old(self).wf(),
        ensures
            final(self).wf(),
            final(self)@ == old(self)@.write(address, value),
    {
        match address {
            0x0000..=0x7FFF => {},
            0x8000..=0x9FFF => self.vram.set((address - 0x8000) as usize, value),
            0xA000..=0xBFFF => self.ext_ram.set((address - 0xA000) as usize, value),
            0xC000..=0xDFFF => self.wram.set((address - 0xC000) as usize, value),
            0xE000..=0xFDFF => self.wram.set((address - 0xE000) as usize, value),
            0xFE00..=0xFE9F => self.oam.set((address - 0xFE00) as usize, value),
            // STAT: bits 3 to 6 from the value, the others kept
            0xFF41 => {
                let current = self.io_regs[0x41];
                self.io_regs.set(0x41, (value & 0x78) | (current & 0x87));
            },
            // LY: any software write resets the scanline
            0xFF44 => {
                self.scanline = 0;
                self.io_regs.set(0x44, 0);
            },
            0xFF00..=0xFF7F => self.io_regs.set((address - 0xFF00) as usize, value),
            0xFF80..=0xFFFE => self.hram.set((address - 0xFF80) as usize, value),
            0xFFFF => self.ie_register = value,
            _ => {},
        }
        assert(final(self)@.bytes =~= old(self)@.write(address, value).bytes);
    }

    /// Advances the display timing by `cycles`. LY and STAT are written
    /// directly, as the hardware does: the reset that a software write to LY
    /// causes does not happen here.
    pub fn update_lcd(&mut self, cycles: u32)
        requires
            old(self).wf(),
        ensures
            final(self).wf(),
            final(self)@ == old(self)@.advance(cycles),
    {
        let total: u64 = self.cycles as u64 + cycles as u64;
        let lines: u64 = total / SCANLINE_CYCLES as u64;
        self.cycles = (total % SCANLINE_CYCLES as u64) as u32;
        if lines > 0 {
            self.scanline = ((self.scanline as u64 + lines) % SCANLINE_COUNT as u64) as u8;
            self.io_regs.set((LY - 0xFF00) as usize, self.scanline);
        }
        self.mode = lcd_mode(self.scanline, self.cycles);
        let stat = (self.io_regs[(STAT - 0xFF00) as usize] & 0xFC) | self.mode;
        self.io_regs.set((STAT - 0xFF00) as usize, stat);
        assert(final(self)@.bytes =~= old(self)@.advance(cycles).bytes);
    }

    /// Puts a ROM image in place: the first 0x4000 bytes become the fixed
    /// bank, the next 0x4000 the switchable bank, zero-padded where the image
    /// is shorter; then reads the cartridge header.
    pub fn load(&mut self, rom: &[u8])
        requires
            old(self).wf(),
        ensures
            final(self).wf(),
            final(self)@.bytes == old(self)@.loaded_bytes(rom@),
            final(self)@.cycles == old(self)@.cycles,
            final(self)@.scanline == old(self)@.scanline,
            final(self)@.mode == old(self)@.mode,
            final(self)@.header is Some,
            final(self)@.header->0.describes(rom_image(rom@)),
    {
        let mut bank0: Vec<u8> = Vec::new();
        let mut bankn: Vec<u8> = Vec::new();
        let mut i: usize = 0;
        while i < ROM_BANK_SIZE
            invariant
                i <= ROM_BANK_SIZE,
                bank0@.len() == i,
                bankn@.len() == i,
                forall|k: int| 0 <= k < i ==> bank0@[k] == rom_image(rom@)[k],
                forall|k: int| 0 <= k < i ==> bankn@[k] == rom_image(rom@)[k + 0x4000],
            decreases ROM_BANK_SIZE - i,
        {
            bank0.push(if i < rom.len() { rom[i] } else { 0 });
            bankn.push(if i + ROM_BANK_SIZE < rom.len() { rom[i + ROM_BANK_SIZE] } else { 0 });
            i = i + 1;
        }
        self.rom_bank0 = bank0;
        self.rom_bankn = bankn;
        self.parse_header();
        assert(final(self)@.bytes =~= old(self)@.loaded_bytes(rom@));
        assert(self.rom_bank0@.subrange(0x134, 0x144) =~= rom_image(rom@).subrange(0x134, 0x144));
    }

    fn parse_header(&mut self)
        requires
            old(self).wf(),
        ensures
            final(self).wf(),
            final(self).rom_bank0 == old(self).rom_bank0,
            final(self)@.bytes == old(self)@.bytes,
            final(self)@.cycles == old(self)@.cycles,
            final(self)@.scanline == old(self)@.scanline,
            final(self)@.mode == old(self)@.mode,
            final(self)@.header is Some,
            final(self)@.header->0.describes(old(self).rom_bank0@),
    {
        self.header = Some(CartridgeHeader::parse(self.rom_bank0.as_slice()));
    }
}

/// The display mode for a line and a position in it.
fn lcd_mode(line: u8, position: u32) -> (r: u8)
    ensures
        r == mode_at(line, position),
{
    if line >= VBLANK_START {
        1
    } else if position <= 80 {
        2
    } else if position <= 252 {
        3
    } else {
        0
    }
}

impl View for MMU {
    type V = MemoryState;

    closed spec fn view(&self) -> MemoryState {
        MemoryState {
            bytes: Seq::new(0x10000, |i: int| self.byte_at(i as u16)),
            cycles: self.cycles,
            scanline: self.scanline,
            mode: self.mode,
            header: self.header,
        }
    }
}

} // verus!
