//! The 4 KiB flat address space: a reserved system region, the write-protected
//! glyph table for the sixteen hexadecimal digits, and the program region
//! starting at 0x200. All accessors are bounds-checked and fail closed.

use vstd::prelude::*;
use crate::text::{push_char, push_dec_u64, push_hex2, push_hex4};

verus! {

pub const MEMORY_SIZE: usize = 4096;

pub const PROGRAM_START: usize = 0x200;

pub const FONTSET_START: usize = 0x50;

pub const FONTSET_SIZE: usize = 80;

pub const MAX_ROM_SIZE: usize = 3584;

/// The five-row bitmap glyph for hexadecimal digit `d`, row `r`.
pub open spec fn glyph_byte(d: int, r: int) -> u8 {
    if d == 0 {
        if r == 0 { 0xF0 } else if r == 1 { 0x90 } else if r == 2 { 0x90 }
        else if r == 3 { 0x90 } else { 0xF0 }
    } else if d == 1 {
        if r == 0 { 0x20 } else if r == 1 { 0x60 } else if r == 2 { 0x20 }
        else if r == 3 { 0x20 } else { 0x70 }
    } else if d == 2 {
        if r == 0 { 0xF0 } else if r == 1 { 0x10 } else if r == 2 { 0xF0 }
        else if r == 3 { 0x80 } else { 0xF0 }
    } else if d == 3 {
        if r == 0 { 0xF0 } else if r == 1 { 0x10 } else if r == 2 { 0xF0 }
        else if r == 3 { 0x10 } else { 0xF0 }
    } else if d == 4 {
        if r == 0 { 0x90 } else if r == 1 { 0x90 } else if r == 2 { 0xF0 }
        else if r == 3 { 0x10 } else { 0x10 }
    } else if d == 5 {
        if r == 0 { 0xF0 } else if r == 1 { 0x80 } else if r == 2 { 0xF0 }
        else if r == 3 { 0x10 } else { 0xF0 }
    } else if d == 6 {
        if r == 0 { 0xF0 } else if r == 1 { 0x80 } else if r == 2 { 0xF0 }
        else if r == 3 { 0x90 } else { 0xF0 }
    } else if d == 7 {
        if r == 0 { 0xF0 } else if r == 1 { 0x10 } else if r == 2 { 0x20 }
        else if r == 3 { 0x40 } else { 0x40 }
    } else if d == 8 {
        if r == 0 { 0xF0 } else if r == 1 { 0x90 } else if r == 2 { 0xF0 }
        else if r == 3 { 0x90 } else { 0xF0 }
    } else if d == 9 {
        if r == 0 { 0xF0 } else if r == 1 { 0x90 } else if r == 2 { 0xF0 }
        else if r == 3 { 0x10 } else { 0xF0 }
    } else if d == 10 {
        if r == 0 { 0xF0 } else if r == 1 { 0x90 } else if r == 2 { 0xF0 }
        else if r == 3 { 0x90 } else { 0x90 }
    } else if d == 11 {
        if r == 0 { 0xE0 } else if r == 1 { 0x90 } else if r == 2 { 0xE0 }
        else if r == 3 { 0x90 } else { 0xE0 }
    } else if d == 12 {
        if r == 0 { 0xF0 } else if r == 1 { 0x80 } else if r == 2 { 0x80 }
        else if r == 3 { 0x80 } else { 0xF0 }
    } else if d == 13 {
        if r == 0 { 0xE0 } else if r == 1 { 0x90 } else if r == 2 { 0x90 }
        else if r == 3 { 0x90 } else { 0xE0 }
    } else if d == 14 {
        if r == 0 { 0xF0 } else if r == 1 { 0x80 } else if r == 2 { 0xF0 }
        else if r == 3 { 0x80 } else { 0xF0 }
    } else {
        if r == 0 { 0xF0 } else if r == 1 { 0x80 } else if r == 2 { 0xF0 }
        else if r == 3 { 0x80 } else { 0x80 }
    }
}

/// An executable mirror of `glyph_byte`.
pub fn glyph_row(d: u8, r: u8) -> (b: u8)
    requires
        d < 16,
        r < 5,
    ensures
        b == glyph_byte(d as int, r as int),
{
    if d == 0 {
        if r == 0 { 0xF0 } else if r == 1 { 0x90 } else if r == 2 { 0x90 }
        else if r == 3 { 0x90 } else { 0xF0 }
    } else if d == 1 {
        if r == 0 { 0x20 } else if r == 1 { 0x60 } else if r == 2 { 0x20 }
        else if r == 3 { 0x20 } else { 0x70 }
    } else if d == 2 {
        if r == 0 { 0xF0 } else if r == 1 { 0x10 } else if r == 2 { 0xF0 }
        else if r == 3 { 0x80 } else { 0xF0 }
    } else if d == 3 {
        if r == 0 { 0xF0 } else if r == 1 { 0x10 } else if r == 2 { 0xF0 }
        else if r == 3 { 0x10 } else { 0xF0 }
    } else if d == 4 {
        if r == 0 { 0x90 } else if r == 1 { 0x90 } else if r == 2 { 0xF0 }
        else if r == 3 { 0x10 } else { 0x10 }
    } else if d == 5 {
        if r == 0 { 0xF0 } else if r == 1 { 0x80 } else if r == 2 { 0xF0 }
        else if r == 3 { 0x10 } else { 0xF0 }
    } else if d == 6 {
        if r == 0 { 0xF0 } else if r == 1 { 0x80 } else if r == 2 { 0xF0 }
        else if r == 3 { 0x90 } else { 0xF0 }
    } else if d == 7 {
        if r == 0 { 0xF0 } else if r == 1 { 0x10 } else if r == 2 { 0x20 }
        else if r == 3 { 0x40 } else { 0x40 }
    } else if d == 8 {
        if r == 0 { 0xF0 } else if r == 1 { 0x90 } else if r == 2 { 0xF0 }
        else if r == 3 { 0x90 } else { 0xF0 }
    } else if d == 9 {
        if r == 0 { 0xF0 } else if r == 1 { 0x90 } else if r == 2 { 0xF0 }
        else if r == 3 { 0x10 } else { 0xF0 }
    } else if d == 10 {
        if r == 0 { 0xF0 } else if r == 1 { 0x90 } else if r == 2 { 0xF0 }
        else if r == 3 { 0x90 } else { 0x90 }
    } else if d == 11 {
        if r == 0 { 0xE0 } else if r == 1 { 0x90 } else if r == 2 { 0xE0 }
        else if r == 3 { 0x90 } else { 0xE0 }
    } else if d == 12 {
        if r == 0 { 0xF0 } else if r == 1 { 0x80 } else if r == 2 { 0x80 }
        else if r == 3 { 0x80 } else { 0xF0 }
    } else if d == 13 {
        if r == 0 { 0xE0 } else if r == 1 { 0x90 } else if r == 2 { 0x90 }
        else if r == 3 { 0x90 } else { 0xE0 }
    } else if d == 14 {
        if r == 0 { 0xF0 } else if r == 1 { 0x80 } else if r == 2 { 0xF0 }
        else if r == 3 { 0x80 } else { 0xF0 }
    } else {
        if r == 0 { 0xF0 } else if r == 1 { 0x80 } else if r == 2 { 0xF0 }
        else if r == 3 { 0x80 } else { 0x80 }
    }
}

/// Whether an address lies in the write-protected glyph-table region.
pub open spec fn addr_protected(addr: int) -> bool {
    FONTSET_START <= addr < FONTSET_START + FONTSET_SIZE
}

/// A memory image of all zero bytes.
pub open spec fn zero_mem() -> Seq<u8> {
    Seq::new(MEMORY_SIZE as nat, |i: int| 0u8)
}

/// The effect of one byte write: out-of-range and protected addresses are
/// left untouched.
pub open spec fn mem_write(m: Seq<u8>, addr: int, value: u8) -> Seq<u8> {
    if 0 <= addr < MEMORY_SIZE && !addr_protected(addr) {
        m.update(addr, value)
    } else {
        m
    }
}

/// The effect of writing a run of bytes one by one, starting at `addr`.
pub open spec fn mem_write_seq(m: Seq<u8>, addr: int, data: Seq<u8>) -> Seq<u8>
    decreases data.len(),
{
    if data.len() == 0 {
        m
    } else {
        mem_write(mem_write_seq(m, addr, data.drop_last()), addr + data.len() - 1, data.last())
    }
}

/// The bytes read from `[addr, addr + count)`: all zeros if the range leaves
/// the address space.
pub open spec fn mem_read_seq(m: Seq<u8>, addr: int, count: int) -> Seq<u8>
    recommends
        0 <= addr,
        0 <= count,
{
    if addr + count <= MEMORY_SIZE {
        m.subrange(addr, addr + count)
    } else {
        Seq::new(count as nat, |i: int| 0u8)
    }
}

/// A memory image with the glyph table written over `m`.
pub open spec fn fontset_overlay(m: Seq<u8>) -> Seq<u8> {
    Seq::new(
        MEMORY_SIZE as nat,
        |a: int|
            if addr_protected(a) {
                glyph_byte((a - FONTSET_START) / 5, (a - FONTSET_START) % 5)
            } else {
                m[a]
            },
    )
}

/// Whether the glyph table holds exactly the built-in glyphs.
pub open spec fn fontset_intact(m: Seq<u8>) -> bool {
    forall|a: int|
        FONTSET_START <= a < FONTSET_START + FONTSET_SIZE ==> #[trigger] m[a] == glyph_byte(
            (a - FONTSET_START) / 5,
            (a - FONTSET_START) % 5,
        )
}

/// A memory image after a successful program load: everything below the
/// program region kept, the program bytes copied in, the rest zeroed.
pub open spec fn rom_loaded(m: Seq<u8>, rom: Seq<u8>) -> Seq<u8> {
    Seq::new(
        MEMORY_SIZE as nat,
        |a: int|
            if a < PROGRAM_START {
                m[a]
            } else if a - PROGRAM_START < rom.len() {
                rom[a - PROGRAM_START]
            } else {
                0u8
            },
    )
}

/// The glyph-table address for digit `c`; out-of-range digits clamp to
/// glyph 0.
pub open spec fn font_address(c: u8) -> u16 {
    if c > 15 {
        FONTSET_START as u16
    } else {
        (FONTSET_START + c * 5) as u16
    }
}

/// The number of nonzero bytes in a sequence.
pub open spec fn count_nonzero(s: Seq<u8>) -> int
    decreases s.len(),
{
    if s.len() == 0 {
        0
    } else {
        count_nonzero(s.drop_last()) + if s.last() != 0 { 1int } else { 0int }
    }
}

pub struct Memory {
    ram: [u8; MEMORY_SIZE],
    access_count: u64,
}

impl View for Memory {
    type V = Seq<u8>;

    closed spec fn view(&self) -> Seq<u8> {
        self.ram@
    }
}

impl Memory {
    pub fn new() -> (m: Memory)
        ensures
            m@ == zero_mem(),
    {
        let m = Memory { ram: [0u8; MEMORY_SIZE], access_count: 0 };
        proof {
            assert(m@ =~= zero_mem());
        }
        m
    }

    /// Zero the whole address space; the glyph table is rewritten afterwards
    /// on every machine reset.
    pub fn clear(&mut self)
        ensures
            final(self)@ == zero_mem(),
    {
        let mut i: usize = 0;
        while i < MEMORY_SIZE
            invariant
                i <= MEMORY_SIZE,
                forall|a: int| 0 <= a < i ==> self.ram@[a] == 0u8,
            decreases MEMORY_SIZE - i,
        {
            self.ram[i] = 0;
            i = i + 1;
        }
        self.access_count = 0;
        proof {
            assert(self@ =~= zero_mem());
        }
    }

    /// Write the sixteen five-byte glyphs into their region.
    pub fn load_fontset(&mut self)
        ensures
            final(self)@ == fontset_overlay(old(self)@),
            fontset_intact(final(self)@),
    {
        let mut k: usize = 0;
        while k < FONTSET_SIZE
            invariant
                k <= FONTSET_SIZE,
                forall|a: int|
                    0 <= a < MEMORY_SIZE && !(FONTSET_START <= a < FONTSET_START + k)
                        ==> self.ram@[a] == old(self).ram@[a],
                forall|a: int|
                    FONTSET_START <= a < FONTSET_START + k ==> self.ram@[a] == glyph_byte(
                        (a - FONTSET_START) / 5,
                        (a - FONTSET_START) % 5,
                    ),
            decreases FONTSET_SIZE - k,
        {
            let b = glyph_row((k / 5) as u8, (k % 5) as u8);
            self.ram[FONTSET_START + k] = b;
            k = k + 1;
        }
        proof {
            assert(self@ =~= fontset_overlay(old(self)@));
        }
    }

    /// Load a program image into the program region. Empty or oversized
    /// images are rejected and leave memory unchanged.
    pub fn load_rom(&mut self, rom_data: &[u8]) -> (ok: bool)
        ensures
            ok == (0 < rom_data@.len() <= MAX_ROM_SIZE),
            ok ==> final(self)@ == rom_loaded(old(self)@, rom_data@),
            !ok ==> final(self)@ == old(self)@,
    {
        if rom_data.len() == 0 || rom_data.len() > MAX_ROM_SIZE {
            return false;
        }
        let mut i: usize = PROGRAM_START;
        while i < MEMORY_SIZE
            invariant
                PROGRAM_START <= i <= MEMORY_SIZE,
                forall|a: int| 0 <= a < PROGRAM_START ==> self.ram@[a] == old(self).ram@[a],
                forall|a: int| PROGRAM_START <= a < i ==> self.ram@[a] == 0u8,
            decreases MEMORY_SIZE - i,
        {
            self.ram[i] = 0;
            i = i + 1;
        }
        let mut j: usize = 0;
        while j < rom_data.len()
            invariant
                j <= rom_data@.len() <= MAX_ROM_SIZE,
                forall|a: int| 0 <= a < PROGRAM_START ==> self.ram@[a] == old(self).ram@[a],
                forall|a: int|
                    PROGRAM_START <= a < PROGRAM_START + j ==> self.ram@[a] == rom_data@[
                        a - PROGRAM_START
                    ],
                forall|a: int|
                    PROGRAM_START + j <= a < MEMORY_SIZE ==> self.ram@[a] == 0u8,
            decreases rom_data@.len() - j,
        {
            self.ram[PROGRAM_START + j] = rom_data[j];
            j = j + 1;
        }
        proof {
            assert(self@ =~= rom_loaded(old(self)@, rom_data@));
        }
        true
    }

    /// Read one byte; out-of-range addresses read as zero.
    pub fn read_byte(&self, address: u16) -> (b: u8)
        ensures
            b == (if address < MEMORY_SIZE {
                self@[address as int]
            } else {
                0u8
            }),
    {
        let addr = address as usize;
        if addr >= MEMORY_SIZE {
            return 0;
        }
        self.ram[addr]
    }

    /// Write one byte; out-of-range addresses and the protected glyph table
    /// are left untouched.
    pub fn write_byte(&mut self, address: u16, value: u8)
        ensures
            final(self)@ == mem_write(old(self)@, address as int, value),
    {
        let addr = address as usize;
        if addr >= MEMORY_SIZE {
            return;
        }
        if addr >= FONTSET_START && addr < FONTSET_START + FONTSET_SIZE {
            return;
        }
        self.ram[addr] = value;
        if self.access_count < u64::MAX {
            self.access_count = self.access_count + 1;
        }
        proof {
            assert(self@ =~= mem_write(old(self)@, address as int, value));
        }
    }

    /// Read a run of bytes; a range that would leave the address space reads
    /// as all zeros rather than as a partial result.
    pub fn read_bytes(&self, address: u16, count: u8) -> (data: Vec<u8>)
        ensures
            data@ == mem_read_seq(self@, address as int, count as int),
    {
        let mut result: Vec<u8> = Vec::new();
        if address as usize + count as usize > MEMORY_SIZE {
            let mut i: usize = 0;
            while i < count as usize
                invariant
                    i <= count as usize,
                    result@.len() == i,
                    forall|j: int| 0 <= j < i ==> result@[j] == 0u8,
                decreases count as usize - i,
            {
                result.push(0);
                i = i + 1;
            }
            proof {
                assert(result@ =~= mem_read_seq(self@, address as int, count as int));
            }
            return result;
        }
        let mut i: usize = 0;
        while i < count as usize
            invariant
                i <= count as usize,
                address as int + count as int <= MEMORY_SIZE,
                result@.len() == i,
                forall|j: int| 0 <= j < i ==> result@[j] == self@[address as int + j],
            decreases count as usize - i,
        {
            let b = self.read_byte(address + i as u16);
            result.push(b);
            i = i + 1;
        }
        proof {
            assert(result@ =~= mem_read_seq(self@, address as int, count as int));
        }
        result
    }

    /// Write a run of bytes; a range that would leave the address space is
    /// refused outright rather than written partially.
    pub fn write_bytes(&mut self, address: u16, data: &[u8]) -> (ok: bool)
        ensures
            ok == (address as int + data@.len() <= MEMORY_SIZE),
            ok ==> final(self)@ == mem_write_seq(old(self)@, address as int, data@),
            !ok ==> final(self)@ == old(self)@,
    {
        if data.len() > MEMORY_SIZE || address as usize + data.len() > MEMORY_SIZE {
            return false;
        }
        let mut i: usize = 0;
        while i < data.len()
            invariant
                i <= data@.len(),
                address as int + data@.len() <= MEMORY_SIZE,
                self@ == mem_write_seq(old(self)@, address as int, data@.take(i as int)),
            decreases data@.len() - i,
        {
            self.write_byte(address + i as u16, data[i]);
            proof {
                assert(data@.take(i as int + 1).drop_last() =~= data@.take(i as int));
                assert(data@.take(i as int + 1).last() == data@[i as int]);
            }
            i = i + 1;
        }
        proof {
            assert(data@.take(data@.len() as int) =~= data@);
        }
        true
    }

    /// The glyph-table address of a digit's bitmap; digits above 0xF clamp
    /// to glyph 0.
    pub fn get_font_address(&self, character: u8) -> (addr: u16)
        ensures
            addr == font_address(character),
    {
        if character > 0xF {
            return FONTSET_START as u16;
        }
        FONTSET_START as u16 + character as u16 * 5
    }

    /// A one-line summary of memory usage, for diagnostics only.
    pub fn get_stats(&self) -> (s: String)
        ensures
            s@.len() > 0,
    {
        let program_bytes = self.count_non_zero_bytes(PROGRAM_START, MEMORY_SIZE);
        let mut s = String::new();
        s.append("Memory: ");
        push_dec_u64(&mut s, program_bytes as u64);
        s.append("B program, ");
        push_dec_u64(&mut s, FONTSET_SIZE as u64);
        s.append("B fonts, ");
        push_dec_u64(&mut s, self.access_count);
        s.append(" writes");
        proof {
            reveal_strlit("Memory: ");
        }
        s
    }

    /// The number of nonzero bytes in `[start, end)`.
    pub fn count_non_zero_bytes(&self, start: usize, end: usize) -> (n: usize)
        requires
            start <= end <= MEMORY_SIZE,
        ensures
            n == count_nonzero(self@.subrange(start as int, end as int)),
    {
        let mut n: usize = 0;
        let mut i: usize = start;
        while i < end
            invariant
                start <= i <= end <= MEMORY_SIZE,
                n <= i - start,
                n == count_nonzero(self.ram@.subrange(start as int, i as int)),
            decreases end - i,
        {
            proof {
                assert(self.ram@.subrange(start as int, i + 1).drop_last()
                    =~= self.ram@.subrange(start as int, i as int));
            }
            if self.ram[i] != 0 {
                n = n + 1;
            }
            i = i + 1;
        }
        proof {
            assert(self@ == self.ram@);
        }
        n
    }

    /// A hexadecimal dump of a memory window, for diagnostics only.
    pub fn hex_dump(&self, start: u16, length: u16) -> (s: String)
        ensures
            s@.len() > 0,
    {
        let start_addr = start as usize;
        let end_addr = if start as usize + length as usize > MEMORY_SIZE {
            MEMORY_SIZE
        } else {
            start as usize + length as usize
        };
        let mut dump = String::new();
        dump.append("Memory dump 0x");
        push_hex4(&mut dump, start);
        dump.append("-0x");
        let last = if end_addr > 0 { (end_addr - 1) as u16 } else { 0u16 };
        push_hex4(&mut dump, last);
        dump.append(":\n");
        proof {
            reveal_strlit("Memory dump 0x");
        }
        let mut addr = start_addr;
        while addr < end_addr
            invariant
                end_addr <= MEMORY_SIZE,
                dump@.len() > 0,
            decreases end_addr + 16 - addr,
        {
            push_hex4(&mut dump, addr as u16);
            dump.append(": ");
            let mut i: usize = 0;
            while i < 16
                invariant
                    addr < end_addr <= MEMORY_SIZE,
                    dump@.len() > 0,
                decreases 16 - i,
            {
                if addr + i < end_addr {
                    push_hex2(&mut dump, self.ram[addr + i]);
                    dump.append(" ");
                } else {
                    dump.append("   ");
                }
                i = i + 1;
            }
            dump.append(" |");
            let mut i: usize = 0;
            while i < 16
                invariant
                    addr < end_addr <= MEMORY_SIZE,
                    dump@.len() > 0,
                decreases 16 - i,
            {
                if addr + i < end_addr {
                    let byte = self.ram[addr + i];
                    if byte >= 32 && byte <= 126 {
                        push_char(&mut dump, byte as char);
                    } else {
                        push_char(&mut dump, '.');
                    }
                } else {
                    push_char(&mut dump, ' ');
                }
                i = i + 1;
            }
            dump.append("|\n");
            addr = addr + 16;
        }
        dump
    }

    /// Whether the glyph table still holds exactly the built-in glyphs.
    pub fn validate_integrity(&self) -> (ok: bool)
        ensures
            ok == fontset_intact(self@),
    {
        let mut valid = true;
        let mut j: usize = 0;
        while j < FONTSET_SIZE
            invariant
                j <= FONTSET_SIZE,
                valid == (forall|a: int|
                    FONTSET_START <= a < FONTSET_START + j ==> #[trigger] self.ram@[a]
                        == glyph_byte((a - FONTSET_START) / 5, (a - FONTSET_START) % 5)),
            decreases FONTSET_SIZE - j,
        {
            let expected = glyph_row((j / 5) as u8, (j % 5) as u8);
            if self.ram[FONTSET_START + j] != expected {
                valid = false;
            }
            j = j + 1;
        }
        proof {
            assert(self@ == self.ram@);
        }
        valid
    }

    /// The region name and stored value at one address, for diagnostics only.
    pub fn get_address_info(&self, address: u16) -> (s: String)
        ensures
            s@.len() > 0,
    {
        let mut s = String::new();
        s.append("0x");
        push_hex4(&mut s, address);
        proof {
            reveal_strlit("0x");
        }
        let addr = address as usize;
        if addr >= MEMORY_SIZE {
            s.append(": OUT OF RANGE");
            return s;
        }
        if addr < FONTSET_START {
            s.append(": System = 0x");
        } else if addr < FONTSET_START + FONTSET_SIZE {
            s.append(": Fonts = 0x");
        } else if addr < PROGRAM_START {
            s.append(": Free = 0x");
        } else {
            s.append(": Program = 0x");
        }
        push_hex2(&mut s, self.ram[addr]);
        s
    }
}

} // verus!
