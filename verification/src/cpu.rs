//! The CPU: sixteen 8-bit registers, a 16-bit index register, program
//! counter, a sixteen-frame call stack, two decrementing timers, and the
//! fetch/decode/execute cycle over the full opcode set. Invalid conditions
//! never panic: they correct state or skip the instruction and bump a soft
//! error counter; ten accumulated errors halt the machine.

use vstd::prelude::*;
use crate::memory::{Memory, mem_write, mem_read_seq, rom_loaded, fontset_overlay, zero_mem,
    font_address, MEMORY_SIZE, PROGRAM_START};
use crate::display::{Display, drawn, collides, blank_display};
use crate::input::Input;
use crate::text::{push_dec_u64, push_hex4, push_hex2};

verus! {

pub const MAX_STACK_SIZE: u8 = 16;

pub const ERROR_LIMIT: u32 = 10;

/// The abstract state of the whole machine.
#[verifier::ext_equal]
pub struct CpuView {
    pub v: Seq<u8>,
    pub i: u16,
    pub pc: u16,
    pub sp: u8,
    pub delay_timer: u8,
    pub sound_timer: u8,
    pub mem: Seq<u8>,
    pub disp: Seq<bool>,
    pub keys: Seq<bool>,
    pub last_key: Option<u8>,
    pub waiting: bool,
    pub stack: Seq<u16>,
    pub draw_flag: bool,
    pub halted: bool,
    pub error_count: u32,
    pub cycle_count: u64,
    pub seed: u32,
}

/// Structural validity of a machine state.
pub open spec fn wf_view(s: CpuView) -> bool {
    &&& s.v.len() == 16
    &&& s.stack.len() == 16
    &&& s.mem.len() == MEMORY_SIZE
    &&& s.disp.len() == 2048
    &&& s.keys.len() == 16
    &&& s.sp <= MAX_STACK_SIZE
}

pub open spec fn sat_inc32(c: u32) -> u32 {
    if c == u32::MAX {
        c
    } else {
        (c + 1) as u32
    }
}

pub open spec fn sat_inc64(c: u64) -> u64 {
    if c == u64::MAX {
        c
    } else {
        (c + 1) as u64
    }
}

/// One soft error: everything kept, the error counter bumped.
pub open spec fn with_error(s: CpuView) -> CpuView {
    CpuView { error_count: sat_inc32(s.error_count), ..s }
}

/// A legal jump/return target: inside the program region and word-aligned.
pub open spec fn valid_program_address(addr: u16) -> bool {
    PROGRAM_START <= addr < MEMORY_SIZE && addr % 2 == 0
}

pub open spec fn op_x(instr: u16) -> int {
    ((instr & 0x0F00) >> 8) as int
}

pub open spec fn op_y(instr: u16) -> int {
    ((instr & 0x00F0) >> 4) as int
}

pub open spec fn op_kk(instr: u16) -> u8 {
    (instr & 0x00FF) as u8
}

pub open spec fn op_nnn(instr: u16) -> u16 {
    instr & 0x0FFF
}

/// 8-bit addition with wraparound.
pub open spec fn wrap_add8(a: u8, b: u8) -> u8 {
    ((a as int + b as int) % 256) as u8
}

/// 8-bit subtraction with wraparound.
pub open spec fn wrap_sub8(a: u8, b: u8) -> u8 {
    ((a as int + 256 - b as int) % 256) as u8
}

/// The linear-congruential step of the pseudo-random generator.
pub open spec fn next_seed(seed: u32) -> u32 {
    ((seed as int * 1103515245 + 12345) % 0x1_0000_0000) as u32
}

/// The byte drawn from a generator state.
pub open spec fn rand_byte(seed: u32) -> u8 {
    ((seed >> 16) & 0xFF) as u8
}

/// The first `n` registers stored to memory at `base`, one write at a time.
pub open spec fn store_regs(m: Seq<u8>, base: int, v: Seq<u8>, n: int) -> Seq<u8>
    decreases n,
{
    if n <= 0 {
        m
    } else {
        mem_write(store_regs(m, base, v, n - 1), base + n - 1, v[n - 1])
    }
}

/// The first `n` registers replaced with the bytes at `base`.
pub open spec fn load_regs(v: Seq<u8>, m: Seq<u8>, base: int, n: int) -> Seq<u8>
    decreases n,
{
    if n <= 0 {
        v
    } else {
        load_regs(v, m, base, n - 1).update(
            n - 1,
            if 0 <= base + n - 1 < MEMORY_SIZE {
                m[base + n - 1]
            } else {
                0u8
            },
        )
    }
}

/// Program-counter validation before a fetch: out-of-region counters are
/// reset to the program start and abort the cycle; odd counters are masked
/// even and the cycle goes on. Both corrections count as a soft error.
pub open spec fn spec_validate_pc(s: CpuView) -> (CpuView, bool) {
    if s.pc >= MEMORY_SIZE {
        (with_error(CpuView { pc: PROGRAM_START as u16, ..s }), false)
    } else if s.pc < PROGRAM_START {
        (with_error(CpuView { pc: PROGRAM_START as u16, ..s }), false)
    } else if s.pc % 2 != 0 {
        (with_error(CpuView { pc: s.pc & 0xFFFE, ..s }), true)
    } else {
        (s, true)
    }
}

/// Instruction fetch: two bytes at the program counter combined big-endian,
/// the counter advanced by two. A fetch that would leave the address space
/// halts the machine and synthesizes a jump to the program start.
pub open spec fn spec_fetch(s: CpuView) -> (CpuView, u16) {
    if s.pc + 1 >= MEMORY_SIZE {
        (CpuView { halted: true, error_count: sat_inc32(s.error_count), ..s }, 0x1200u16)
    } else {
        (
            CpuView { pc: (s.pc + 2) as u16, ..s },
            ((s.mem[s.pc as int] as u16) << 8) | (s.mem[s.pc as int + 1] as u16),
        )
    }
}

/// `00E0` clear, `00EE` return (underflow or a bad return address halts),
/// `0000` explicit halt; other `0nnn` system calls are ignored.
pub open spec fn spec_exec_0xxx(s: CpuView, instr: u16) -> CpuView {
    if instr == 0x00E0 {
        CpuView { disp: blank_display(), draw_flag: true, ..s }
    } else if instr == 0x00EE {
        if s.sp == 0 {
            CpuView { halted: true, ..s }
        } else {
            let sp2 = (s.sp - 1) as u8;
            let pc2 = s.stack[sp2 as int];
            if !valid_program_address(pc2) {
                CpuView { sp: sp2, pc: pc2, halted: true, ..s }
            } else {
                CpuView { sp: sp2, pc: pc2, ..s }
            }
        }
    } else if instr == 0x0000 {
        CpuView { halted: true, ..s }
    } else {
        s
    }
}

/// `1nnn`: jump; an invalid target is a soft error and leaves the counter.
pub open spec fn spec_exec_1nnn(s: CpuView, instr: u16) -> CpuView {
    let addr = op_nnn(instr);
    if !valid_program_address(addr) {
        with_error(s)
    } else {
        CpuView { pc: addr, ..s }
    }
}

/// `2nnn`: call; rejects an invalid target or a full stack.
pub open spec fn spec_exec_2nnn(s: CpuView, instr: u16) -> CpuView {
    let addr = op_nnn(instr);
    if !valid_program_address(addr) {
        with_error(s)
    } else if s.sp >= MAX_STACK_SIZE {
        with_error(s)
    } else {
        CpuView {
            stack: s.stack.update(s.sp as int, s.pc),
            sp: (s.sp + 1) as u8,
            pc: addr,
            ..s
        }
    }
}

/// `3xkk`: skip the next instruction if `Vx == kk`.
pub open spec fn spec_exec_3xkk(s: CpuView, instr: u16) -> CpuView {
    let x = op_x(instr);
    if x > 15 {
        with_error(s)
    } else if s.v[x] == op_kk(instr) {
        CpuView { pc: (s.pc + 2) as u16, ..s }
    } else {
        s
    }
}

/// `4xkk`: skip if `Vx != kk`.
pub open spec fn spec_exec_4xkk(s: CpuView, instr: u16) -> CpuView {
    let x = op_x(instr);
    if x > 15 {
        with_error(s)
    } else if s.v[x] != op_kk(instr) {
        CpuView { pc: (s.pc + 2) as u16, ..s }
    } else {
        s
    }
}

/// `5xy0`: skip if `Vx == Vy`.
pub open spec fn spec_exec_5xy0(s: CpuView, instr: u16) -> CpuView {
    let x = op_x(instr);
    let y = op_y(instr);
    if x > 15 || y > 15 {
        with_error(s)
    } else if s.v[x] == s.v[y] {
        CpuView { pc: (s.pc + 2) as u16, ..s }
    } else {
        s
    }
}

/// `6xkk`: load immediate.
pub open spec fn spec_exec_6xkk(s: CpuView, instr: u16) -> CpuView {
    let x = op_x(instr);
    if x > 15 {
        with_error(s)
    } else {
        CpuView { v: s.v.update(x, op_kk(instr)), ..s }
    }
}

/// `7xkk`: add immediate with 8-bit wraparound, no flag effect.
pub open spec fn spec_exec_7xkk(s: CpuView, instr: u16) -> CpuView {
    let x = op_x(instr);
    if x > 15 {
        with_error(s)
    } else {
        CpuView { v: s.v.update(x, wrap_add8(s.v[x], op_kk(instr))), ..s }
    }
}

/// `8xy0..8xyE`: the register-register ALU. Flag writes happen before the
/// result write, so `VF` as an operand reads the freshly written flag.
pub open spec fn spec_exec_8xxx(s: CpuView, instr: u16) -> CpuView {
    let x = op_x(instr);
    let y = op_y(instr);
    if x > 15 || y > 15 {
        with_error(s)
    } else {
        let sub = instr & 0x000F;
        if sub == 0x0 {
            CpuView { v: s.v.update(x, s.v[y]), ..s }
        } else if sub == 0x1 {
            CpuView { v: s.v.update(x, s.v[x] | s.v[y]), ..s }
        } else if sub == 0x2 {
            CpuView { v: s.v.update(x, s.v[x] & s.v[y]), ..s }
        } else if sub == 0x3 {
            CpuView { v: s.v.update(x, s.v[x] ^ s.v[y]), ..s }
        } else if sub == 0x4 {
            let sum = s.v[x] as int + s.v[y] as int;
            let v1 = s.v.update(15, if sum > 255 { 1u8 } else { 0u8 });
            CpuView { v: v1.update(x, (sum % 256) as u8), ..s }
        } else if sub == 0x5 {
            let v1 = s.v.update(15, if s.v[x] >= s.v[y] { 1u8 } else { 0u8 });
            CpuView { v: v1.update(x, wrap_sub8(v1[x], v1[y])), ..s }
        } else if sub == 0x6 {
            let v1 = s.v.update(15, s.v[x] & 1);
            CpuView { v: v1.update(x, v1[x] / 2), ..s }
        } else if sub == 0x7 {
            let v1 = s.v.update(15, if s.v[y] >= s.v[x] { 1u8 } else { 0u8 });
            CpuView { v: v1.update(x, wrap_sub8(v1[y], v1[x])), ..s }
        } else if sub == 0xE {
            let v1 = s.v.update(15, (s.v[x] & 0x80) / 128);
            CpuView { v: v1.update(x, ((v1[x] as int * 2) % 256) as u8), ..s }
        } else {
            with_error(s)
        }
    }
}

/// `9xy0`: skip if `Vx != Vy`.
pub open spec fn spec_exec_9xy0(s: CpuView, instr: u16) -> CpuView {
    let x = op_x(instr);
    let y = op_y(instr);
    if x > 15 || y > 15 {
        with_error(s)
    } else if s.v[x] != s.v[y] {
        CpuView { pc: (s.pc + 2) as u16, ..s }
    } else {
        s
    }
}

/// `Annn`: load the index register; the whole address space is legal.
pub open spec fn spec_exec_annn(s: CpuView, instr: u16) -> CpuView {
    let nnn = op_nnn(instr);
    if nnn >= MEMORY_SIZE {
        with_error(s)
    } else {
        CpuView { i: nnn, ..s }
    }
}

/// `Bnnn`: jump to `V0 + nnn`, validated as a program address.
pub open spec fn spec_exec_bnnn(s: CpuView, instr: u16) -> CpuView {
    let target = (s.v[0] as int + op_nnn(instr) as int) as u16;
    if !valid_program_address(target) {
        with_error(s)
    } else {
        CpuView { pc: target, ..s }
    }
}

/// `Cxkk`: advance the generator and mask the drawn byte with `kk`.
pub open spec fn spec_exec_cxkk(s: CpuView, instr: u16) -> CpuView {
    let x = op_x(instr);
    if x > 15 {
        with_error(s)
    } else {
        let seed2 = next_seed(s.seed);
        CpuView { v: s.v.update(x, rand_byte(seed2) & op_kk(instr)), seed: seed2, ..s }
    }
}

/// `Dxyn`: draw `n` sprite rows read from memory at `I` to `(Vx, Vy)`;
/// `n == 0` is a no-op; a sprite that would be read past the address space
/// is rejected; `VF` receives the collision flag.
pub open spec fn spec_exec_dxyn(s: CpuView, instr: u16) -> CpuView {
    let x = op_x(instr);
    let y = op_y(instr);
    if x > 15 || y > 15 {
        with_error(s)
    } else {
        let n = (instr & 0x000F) as int;
        if n == 0 {
            s
        } else if s.i as int + n > MEMORY_SIZE {
            with_error(s)
        } else {
            let rows = mem_read_seq(s.mem, s.i as int, n);
            let col = collides(s.disp, s.v[x] as int, s.v[y] as int, rows);
            CpuView {
                disp: drawn(s.disp, s.v[x] as int, s.v[y] as int, rows),
                v: s.v.update(15, if col { 1u8 } else { 0u8 }),
                draw_flag: true,
                ..s
            }
        }
    }
}

/// `Ex9E`/`ExA1`: skip on key state; a key value above 15 is ignored.
pub open spec fn spec_exec_exxx(s: CpuView, instr: u16) -> CpuView {
    let x = op_x(instr);
    if x > 15 {
        with_error(s)
    } else {
        let key = s.v[x];
        if key > 15 {
            s
        } else {
            let sub = instr & 0x00FF;
            if sub == 0x9E {
                if s.keys[key as int] {
                    CpuView { pc: (s.pc + 2) as u16, ..s }
                } else {
                    s
                }
            } else if sub == 0xA1 {
                if !s.keys[key as int] {
                    CpuView { pc: (s.pc + 2) as u16, ..s }
                } else {
                    s
                }
            } else {
                with_error(s)
            }
        }
    }
}

/// The `Fxnn` family: timers, the blocking key wait, index arithmetic, the
/// glyph lookup, binary-coded decimal, and register block transfer.
pub open spec fn spec_exec_fxxx(s: CpuView, instr: u16) -> CpuView {
    let x = op_x(instr);
    if x > 15 {
        with_error(s)
    } else {
        let sub = instr & 0x00FF;
        if sub == 0x07 {
            CpuView { v: s.v.update(x, s.delay_timer), ..s }
        } else if sub == 0x0A {
            match s.last_key {
                Some(k) => CpuView { v: s.v.update(x, k), last_key: None, ..s },
                None => CpuView { pc: (s.pc - 2) as u16, ..s },
            }
        } else if sub == 0x15 {
            CpuView { delay_timer: s.v[x], ..s }
        } else if sub == 0x18 {
            CpuView { sound_timer: s.v[x], ..s }
        } else if sub == 0x1E {
            CpuView { i: ((s.i as int + s.v[x] as int) % 4096) as u16, ..s }
        } else if sub == 0x29 {
            CpuView { i: font_address(s.v[x] & 0x0F), ..s }
        } else if sub == 0x33 {
            if s.i as int + 2 >= MEMORY_SIZE {
                with_error(s)
            } else {
                let m1 = mem_write(s.mem, s.i as int, s.v[x] / 100);
                let m2 = mem_write(m1, s.i as int + 1, (s.v[x] / 10) % 10);
                let m3 = mem_write(m2, s.i as int + 2, s.v[x] % 10);
                CpuView { mem: m3, ..s }
            }
        } else if sub == 0x55 {
            if s.i as int + x >= MEMORY_SIZE {
                with_error(s)
            } else {
                CpuView { mem: store_regs(s.mem, s.i as int, s.v, x + 1), ..s }
            }
        } else if sub == 0x65 {
            if s.i as int + x >= MEMORY_SIZE {
                with_error(s)
            } else {
                CpuView { v: load_regs(s.v, s.mem, s.i as int, x + 1), ..s }
            }
        } else {
            with_error(s)
        }
    }
}

/// Decode on the top four bits and execute.
pub open spec fn spec_execute(s: CpuView, instr: u16) -> CpuView {
    let fam = instr & 0xF000;
    if fam == 0x0000 {
        spec_exec_0xxx(s, instr)
    } else if fam == 0x1000 {
        spec_exec_1nnn(s, instr)
    } else if fam == 0x2000 {
        spec_exec_2nnn(s, instr)
    } else if fam == 0x3000 {
        spec_exec_3xkk(s, instr)
    } else if fam == 0x4000 {
        spec_exec_4xkk(s, instr)
    } else if fam == 0x5000 {
        spec_exec_5xy0(s, instr)
    } else if fam == 0x6000 {
        spec_exec_6xkk(s, instr)
    } else if fam == 0x7000 {
        spec_exec_7xkk(s, instr)
    } else if fam == 0x8000 {
        spec_exec_8xxx(s, instr)
    } else if fam == 0x9000 {
        spec_exec_9xy0(s, instr)
    } else if fam == 0xA000 {
        spec_exec_annn(s, instr)
    } else if fam == 0xB000 {
        spec_exec_bnnn(s, instr)
    } else if fam == 0xC000 {
        spec_exec_cxkk(s, instr)
    } else if fam == 0xD000 {
        spec_exec_dxyn(s, instr)
    } else if fam == 0xE000 {
        spec_exec_exxx(s, instr)
    } else {
        spec_exec_fxxx(s, instr)
    }
}

/// Both timers decrement toward zero, never below.
pub open spec fn spec_update_timers(s: CpuView) -> CpuView {
    CpuView {
        delay_timer: if s.delay_timer > 0 {
            (s.delay_timer - 1) as u8
        } else {
            0u8
        },
        sound_timer: if s.sound_timer > 0 {
            (s.sound_timer - 1) as u8
        } else {
            0u8
        },
        ..s
    }
}

/// One whole machine tick: the halted state is terminal; ten accumulated
/// soft errors trip the circuit breaker; otherwise validate, fetch, execute
/// and update the timers.
pub open spec fn spec_cycle(s: CpuView) -> CpuView {
    if s.halted {
        s
    } else if s.error_count >= ERROR_LIMIT {
        CpuView { halted: true, ..s }
    } else {
        let s1 = CpuView { cycle_count: sat_inc64(s.cycle_count), ..s };
        let vp = spec_validate_pc(s1);
        if !vp.1 {
            vp.0
        } else {
            let f = spec_fetch(vp.0);
            spec_update_timers(spec_execute(f.0, f.1))
        }
    }
}

/// The state of a machine fresh from construction or reset.
pub open spec fn initial_cpu(seed: u32) -> CpuView {
    CpuView {
        v: Seq::new(16, |i: int| 0u8),
        i: 0,
        pc: PROGRAM_START as u16,
        sp: 0,
        delay_timer: 0,
        sound_timer: 0,
        mem: fontset_overlay(zero_mem()),
        disp: blank_display(),
        keys: Seq::new(16, |i: int| false),
        last_key: None,
        waiting: false,
        stack: Seq::new(16, |i: int| 0u16),
        draw_flag: false,
        halted: false,
        error_count: 0,
        cycle_count: 0,
        seed: seed,
    }
}

pub struct Cpu {
    pub v: [u8; 16],
    pub i: u16,
    pub pc: u16,
    pub sp: u8,
    pub delay_timer: u8,
    pub sound_timer: u8,
    pub memory: Memory,
    pub display: Display,
    pub input: Input,
    pub stack: [u16; 16],
    pub draw_flag: bool,
    pub halted: bool,
    pub error_count: u32,
    pub cycle_count: u64,
    pub seed: u32,
}

impl View for Cpu {
    type V = CpuView;

    open spec fn view(&self) -> CpuView {
        CpuView {
            v: self.v@,
            i: self.i,
            pc: self.pc,
            sp: self.sp,
            delay_timer: self.delay_timer,
            sound_timer: self.sound_timer,
            mem: self.memory@,
            disp: self.display@,
            keys: self.input@.keys,
            last_key: self.input@.last_key,
            waiting: self.input@.waiting,
            stack: self.stack@,
            draw_flag: self.draw_flag,
            halted: self.halted,
            error_count: self.error_count,
            cycle_count: self.cycle_count,
            seed: self.seed,
        }
    }
}

fn wrap_add8_ex(a: u8, b: u8) -> (r: u8)
    ensures
        r == wrap_add8(a, b),
{
    (((a as u16) + (b as u16)) % 256) as u8
}

fn wrap_sub8_ex(a: u8, b: u8) -> (r: u8)
    ensures
        r == wrap_sub8(a, b),
{
    (((a as u16) + 256 - (b as u16)) % 256) as u8
}

impl Cpu {
    pub open spec fn wf(&self) -> bool {
        wf_view(self@)
    }

    pub fn new() -> (cpu: Cpu)
        ensures
            cpu@ == initial_cpu(12345),
            cpu.wf(),
    {
        let mut cpu = Cpu {
            v: [0; 16],
            i: 0,
            pc: PROGRAM_START as u16,
            sp: 0,
            delay_timer: 0,
            sound_timer: 0,
            memory: Memory::new(),
            display: Display::new(),
            input: Input::new(),
            stack: [0; 16],
            draw_flag: false,
            halted: false,
            error_count: 0,
            cycle_count: 0,
            seed: 12345,
        };
        cpu.memory.load_fontset();
        proof {
            assert(cpu@.v =~= initial_cpu(12345).v);
            assert(cpu@.stack =~= initial_cpu(12345).stack);
            assert(cpu@ =~= initial_cpu(12345));
        }
        cpu
    }

    /// Reset everything but the random seed to the initial state.
    pub fn reset(&mut self)
        ensures
            final(self)@ == (CpuView { seed: old(self)@.seed, ..initial_cpu(0) }),
            final(self).wf(),
    {
        self.v = [0; 16];
        self.i = 0;
        self.pc = PROGRAM_START as u16;
        self.sp = 0;
        self.delay_timer = 0;
        self.sound_timer = 0;
        self.memory.clear();
        self.memory.load_fontset();
        self.display.clear();
        self.input.clear();
        self.stack = [0; 16];
        self.draw_flag = false;
        self.halted = false;
        self.error_count = 0;
        self.cycle_count = 0;
        proof {
            assert(self@.v =~= initial_cpu(0).v);
            assert(self@.stack =~= initial_cpu(0).stack);
            assert(self@ =~= (CpuView { seed: old(self)@.seed, ..initial_cpu(0) }));
        }
    }

    /// Load a program: on success the program region is replaced and the
    /// machine restarted; an empty or oversized image is rejected and leaves
    /// memory and the program counter untouched.
    pub fn load_rom(&mut self, rom_data: &[u8]) -> (ok: bool)
        ensures
            ok == (0 < rom_data@.len() <= crate::memory::MAX_ROM_SIZE),
            ok ==> final(self)@ == (CpuView {
                mem: rom_loaded(old(self)@.mem, rom_data@),
                pc: PROGRAM_START as u16,
                halted: false,
                error_count: 0,
                cycle_count: 0,
                draw_flag: true,
                ..old(self)@
            }),
            !ok ==> final(self)@ == old(self)@,
            old(self).wf() ==> final(self).wf(),
    {
        let ok = self.memory.load_rom(rom_data);
        if !ok {
            return false;
        }
        self.pc = PROGRAM_START as u16;
        self.halted = false;
        self.error_count = 0;
        self.cycle_count = 0;
        self.draw_flag = true;
        proof {
            assert(self@ =~= (CpuView {
                mem: rom_loaded(old(self)@.mem, rom_data@),
                pc: PROGRAM_START as u16,
                halted: false,
                error_count: 0,
                cycle_count: 0,
                draw_flag: true,
                ..old(self)@
            }));
        }
        true
    }

    fn note_error(&mut self)
        ensures
            final(self)@ == with_error(old(self)@),
    {
        if self.error_count < u32::MAX {
            self.error_count = self.error_count + 1;
        }
        proof {
            assert(self@ =~= with_error(old(self)@));
        }
    }

    fn is_valid_program_address(&self, addr: u16) -> (ok: bool)
        ensures
            ok == valid_program_address(addr),
    {
        addr >= PROGRAM_START as u16 && addr < MEMORY_SIZE as u16 && addr % 2 == 0
    }

    fn validate_pc(&mut self) -> (ok: bool)
        ensures
            final(self)@ == spec_validate_pc(old(self)@).0,
            ok == spec_validate_pc(old(self)@).1,
            ok ==> PROGRAM_START <= final(self)@.pc < MEMORY_SIZE && final(self)@.pc % 2 == 0,
    {
        if self.pc >= MEMORY_SIZE as u16 {
            self.pc = PROGRAM_START as u16;
            self.note_error();
            return false;
        }
        if self.pc < PROGRAM_START as u16 {
            self.pc = PROGRAM_START as u16;
            self.note_error();
            return false;
        }
        if self.pc % 2 != 0 {
            self.pc = self.pc & 0xFFFE;
            self.note_error();
            proof {
                assert(self@ =~= spec_validate_pc(old(self)@).0);
                let p = old(self).pc;
                assert((p & 0xFFFE) % 2 == 0 && (p & 0xFFFE) <= p && p - 1 <= (p & 0xFFFE))
                    by (bit_vector);
            }
            return true;
        }
        true
    }

    fn fetch_instruction(&mut self) -> (instr: u16)
        requires
            PROGRAM_START <= old(self)@.pc < MEMORY_SIZE,
        ensures
            final(self)@ == spec_fetch(old(self)@).0,
            instr == spec_fetch(old(self)@).1,
            PROGRAM_START <= final(self)@.pc <= MEMORY_SIZE,
    {
        if self.pc + 1 >= MEMORY_SIZE as u16 {
            self.note_error();
            self.halted = true;
            proof {
                assert(self@ =~= spec_fetch(old(self)@).0);
            }
            return 0x1200;
        }
        let high_byte = self.memory.read_byte(self.pc) as u16;
        let low_byte = self.memory.read_byte(self.pc + 1) as u16;
        let instruction = (high_byte << 8) | low_byte;
        self.pc = self.pc + 2;
        instruction
    }

    fn update_timers(&mut self)
        ensures
            final(self)@ == spec_update_timers(old(self)@),
    {
        if self.delay_timer > 0 {
            self.delay_timer = self.delay_timer - 1;
        }
        if self.sound_timer > 0 {
            self.sound_timer = self.sound_timer - 1;
        }
        proof {
            assert(self@ =~= spec_update_timers(old(self)@));
        }
    }

    /// Whether a tone should be audible this tick: exactly when the sound
    /// timer is nonzero.
    pub fn tone_requested(&self) -> (tone: bool)
        ensures
            tone == (self@.sound_timer > 0),
    {
        self.sound_timer > 0
    }

    /// Run one machine tick.
    pub fn cycle(&mut self)
        requires
            old(self).wf(),
        ensures
            final(self)@ == spec_cycle(old(self)@),
            final(self).wf(),
    {
        if self.halted {
            return;
        }
        if self.error_count >= ERROR_LIMIT {
            self.halted = true;
            proof {
                assert(self@ =~= spec_cycle(old(self)@));
            }
            return;
        }
        if self.cycle_count < u64::MAX {
            self.cycle_count = self.cycle_count + 1;
        }
        proof {
            assert(self@ =~= (CpuView {
                cycle_count: sat_inc64(old(self)@.cycle_count),
                ..old(self)@
            }));
        }
        if !self.validate_pc() {
            return;
        }
        let instruction = self.fetch_instruction();
        self.execute_instruction(instruction);
        self.update_timers();
    }

    fn execute_instruction(&mut self, instruction: u16)
        requires
            old(self).wf(),
            2 <= old(self)@.pc,
            old(self)@.pc + 2 <= u16::MAX,
        ensures
            final(self)@ == spec_execute(old(self)@, instruction),
            final(self).wf(),
    {
        match instruction & 0xF000 {
            0x0000 => self.execute_0xxx(instruction),
            0x1000 => self.execute_1nnn(instruction),
            0x2000 => self.execute_2nnn(instruction),
            0x3000 => self.execute_3xkk(instruction),
            0x4000 => self.execute_4xkk(instruction),
            0x5000 => self.execute_5xy0(instruction),
            0x6000 => self.execute_6xkk(instruction),
            0x7000 => self.execute_7xkk(instruction),
            0x8000 => self.execute_8xxx(instruction),
            0x9000 => self.execute_9xy0(instruction),
            0xA000 => self.execute_annn(instruction),
            0xB000 => self.execute_bnnn(instruction),
            0xC000 => self.execute_cxkk(instruction),
            0xD000 => self.execute_dxyn(instruction),
            0xE000 => self.execute_exxx(instruction),
            _ => self.execute_fxxx(instruction),
        }
    }

    fn execute_0xxx(&mut self, instruction: u16)
        requires
            old(self).wf(),
        ensures
            final(self)@ == spec_exec_0xxx(old(self)@, instruction),
            final(self).wf(),
    {
        match instruction {
            0x00E0 => {
                self.display.clear();
                self.draw_flag = true;
                proof {
                    assert(self@ =~= spec_exec_0xxx(old(self)@, instruction));
                }
            },
            0x00EE => {
                if self.sp == 0 {
                    self.halted = true;
                    proof {
                        assert(self@ =~= spec_exec_0xxx(old(self)@, instruction));
                    }
                    return;
                }
                self.sp = self.sp - 1;
                self.pc = self.stack[self.sp as usize];
                if !self.is_valid_program_address(self.pc) {
                    self.halted = true;
                }
                proof {
                    assert(self@ =~= spec_exec_0xxx(old(self)@, instruction));
                }
            },
            0x0000 => {
                self.halted = true;
                proof {
                    assert(self@ =~= spec_exec_0xxx(old(self)@, instruction));
                }
            },
            _ => {},
        }
    }

    fn execute_1nnn(&mut self, instruction: u16)
        ensures
            final(self)@ == spec_exec_1nnn(old(self)@, instruction),
    {
        let addr = instruction & 0x0FFF;
        if !self.is_valid_program_address(addr) {
            self.note_error();
            return;
        }
        self.pc = addr;
        proof {
            assert(self@ =~= spec_exec_1nnn(old(self)@, instruction));
        }
    }

    fn execute_2nnn(&mut self, instruction: u16)
        requires
            old(self).wf(),
        ensures
            final(self)@ == spec_exec_2nnn(old(self)@, instruction),
            final(self).wf(),
    {
        let addr = instruction & 0x0FFF;
        if !self.is_valid_program_address(addr) {
            self.note_error();
            return;
        }
        if self.sp >= MAX_STACK_SIZE {
            self.note_error();
            return;
        }
        self.stack[self.sp as usize] = self.pc;
        self.sp = self.sp + 1;
        self.pc = addr;
        proof {
            assert(self@ =~= spec_exec_2nnn(old(self)@, instruction));
        }
    }

    fn execute_3xkk(&mut self, instruction: u16)
        requires
            old(self).wf(),
            old(self)@.pc + 2 <= u16::MAX,
        ensures
            final(self)@ == spec_exec_3xkk(old(self)@, instruction),
            final(self).wf(),
    {
        let x = ((instruction & 0x0F00) >> 8) as usize;
        let kk = (instruction & 0x00FF) as u8;
        if x > 15 {
            self.note_error();
            return;
        }
        if self.v[x] == kk {
            self.pc = self.pc + 2;
        }
        proof {
            assert(self@ =~= spec_exec_3xkk(old(self)@, instruction));
        }
    }

    fn execute_4xkk(&mut self, instruction: u16)
        requires
            old(self).wf(),
            old(self)@.pc + 2 <= u16::MAX,
        ensures
            final(self)@ == spec_exec_4xkk(old(self)@, instruction),
            final(self).wf(),
    {
        let x = ((instruction & 0x0F00) >> 8) as usize;
        let kk = (instruction & 0x00FF) as u8;
        if x > 15 {
            self.note_error();
            return;
        }
        if self.v[x] != kk {
            self.pc = self.pc + 2;
        }
        proof {
            assert(self@ =~= spec_exec_4xkk(old(self)@, instruction));
        }
    }

    fn execute_5xy0(&mut self, instruction: u16)
        requires
            old(self).wf(),
            old(self)@.pc + 2 <= u16::MAX,
        ensures
            final(self)@ == spec_exec_5xy0(old(self)@, instruction),
            final(self).wf(),
    {
        let x = ((instruction & 0x0F00) >> 8) as usize;
        let y = ((instruction & 0x00F0) >> 4) as usize;
        if x > 15 || y > 15 {
            self.note_error();
            return;
        }
        if self.v[x] == self.v[y] {
            self.pc = self.pc + 2;
        }
        proof {
            assert(self@ =~= spec_exec_5xy0(old(self)@, instruction));
        }
    }

    fn execute_6xkk(&mut self, instruction: u16)
        requires
            old(self).wf(),
        ensures
            final(self)@ == spec_exec_6xkk(old(self)@, instruction),
            final(self).wf(),
    {
        let x = ((instruction & 0x0F00) >> 8) as usize;
        let kk = (instruction & 0x00FF) as u8;
        if x > 15 {
            self.note_error();
            return;
        }
        self.v[x] = kk;
        proof {
            assert(self@ =~= spec_exec_6xkk(old(self)@, instruction));
        }
    }

    fn execute_7xkk(&mut self, instruction: u16)
        requires
            old(self).wf(),
        ensures
            final(self)@ == spec_exec_7xkk(old(self)@, instruction),
            final(self).wf(),
    {
        let x = ((instruction & 0x0F00) >> 8) as usize;
        let kk = (instruction & 0x00FF) as u8;
        if x > 15 {
            self.note_error();
            return;
        }
        self.v[x] = wrap_add8_ex(self.v[x], kk);
        proof {
            assert(self@ =~= spec_exec_7xkk(old(self)@, instruction));
        }
    }

    fn execute_8xxx(&mut self, instruction: u16)
        requires
            old(self).wf(),
        ensures
            final(self)@ == spec_exec_8xxx(old(self)@, instruction),
            final(self).wf(),
    {
        let x = ((instruction & 0x0F00) >> 8) as usize;
        let y = ((instruction & 0x00F0) >> 4) as usize;
        if x > 15 || y > 15 {
            self.note_error();
            return;
        }
        match instruction & 0x000F {
            0x0 => {
                let val = self.v[y];
                self.v[x] = val;
            },
            0x1 => {
                let val = self.v[x] | self.v[y];
                self.v[x] = val;
            },
            0x2 => {
                let val = self.v[x] & self.v[y];
                self.v[x] = val;
            },
            0x3 => {
                let val = self.v[x] ^ self.v[y];
                self.v[x] = val;
            },
            0x4 => {
                let sum = self.v[x] as u16 + self.v[y] as u16;
                self.v[0xF] = if sum > 255 {
                    1
                } else {
                    0
                };
                self.v[x] = (sum % 256) as u8;
            },
            0x5 => {
                let flag = if self.v[x] >= self.v[y] {
                    1
                } else {
                    0
                };
                self.v[0xF] = flag;
                let val = wrap_sub8_ex(self.v[x], self.v[y]);
                self.v[x] = val;
            },
            0x6 => {
                let lsb = self.v[x] & 1;
                self.v[0xF] = lsb;
                let val = self.v[x] / 2;
                self.v[x] = val;
            },
            0x7 => {
                let flag = if self.v[y] >= self.v[x] {
                    1
                } else {
                    0
                };
                self.v[0xF] = flag;
                let val = wrap_sub8_ex(self.v[y], self.v[x]);
                self.v[x] = val;
            },
            0xE => {
                let msb = (self.v[x] & 0x80) / 128;
                self.v[0xF] = msb;
                let val = ((self.v[x] as u16 * 2) % 256) as u8;
                self.v[x] = val;
            },
            _ => {
                self.note_error();
            },
        }
        proof {
            assert(self@ =~= spec_exec_8xxx(old(self)@, instruction));
        }
    }

    fn execute_9xy0(&mut self, instruction: u16)
        requires
            old(self).wf(),
            old(self)@.pc + 2 <= u16::MAX,
        ensures
            final(self)@ == spec_exec_9xy0(old(self)@, instruction),
            final(self).wf(),
    {
        let x = ((instruction & 0x0F00) >> 8) as usize;
        let y = ((instruction & 0x00F0) >> 4) as usize;
        if x > 15 || y > 15 {
            self.note_error();
            return;
        }
        if self.v[x] != self.v[y] {
            self.pc = self.pc + 2;
        }
        proof {
            assert(self@ =~= spec_exec_9xy0(old(self)@, instruction));
        }
    }

    fn execute_annn(&mut self, instruction: u16)
        ensures
            final(self)@ == spec_exec_annn(old(self)@, instruction),
    {
        let nnn = instruction & 0x0FFF;
        if nnn >= MEMORY_SIZE as u16 {
            self.note_error();
            return;
        }
        self.i = nnn;
        proof {
            assert(self@ =~= spec_exec_annn(old(self)@, instruction));
        }
    }

    fn execute_bnnn(&mut self, instruction: u16)
        requires
            old(self).wf(),
        ensures
            final(self)@ == spec_exec_bnnn(old(self)@, instruction),
            final(self).wf(),
    {
        let nnn = instruction & 0x0FFF;
        proof {
            assert(instruction & 0x0FFF < 0x1000) by (bit_vector);
        }
        let target = self.v[0] as u16 + nnn;
        if !self.is_valid_program_address(target) {
            self.note_error();
            return;
        }
        self.pc = target;
        proof {
            assert(self@ =~= spec_exec_bnnn(old(self)@, instruction));
        }
    }

    fn execute_cxkk(&mut self, instruction: u16)
        requires
            old(self).wf(),
        ensures
            final(self)@ == spec_exec_cxkk(old(self)@, instruction),
            final(self).wf(),
    {
        let x = ((instruction & 0x0F00) >> 8) as usize;
        let kk = (instruction & 0x00FF) as u8;
        if x > 15 {
            self.note_error();
            return;
        }
        let next = ((self.seed as u64 * 1103515245 + 12345) % 0x1_0000_0000) as u32;
        self.seed = next;
        let random = ((next >> 16) & 0xFF) as u8;
        self.v[x] = random & kk;
        proof {
            assert(self@ =~= spec_exec_cxkk(old(self)@, instruction));
        }
    }

    fn execute_dxyn(&mut self, instruction: u16)
        requires
            old(self).wf(),
        ensures
            final(self)@ == spec_exec_dxyn(old(self)@, instruction),
            final(self).wf(),
    {
        let x = ((instruction & 0x0F00) >> 8) as usize;
        let y = ((instruction & 0x00F0) >> 4) as usize;
        if x > 15 || y > 15 {
            self.note_error();
            return;
        }
        proof {
            assert(instruction & 0x000F < 16) by (bit_vector);
        }
        let n = (instruction & 0x000F) as u8;
        if n == 0 {
            return;
        }
        let pos_x = self.v[x] as usize;
        let pos_y = self.v[y] as usize;
        if self.i as usize + n as usize > MEMORY_SIZE {
            self.note_error();
            return;
        }
        let sprite_data = self.memory.read_bytes(self.i, n);
        let collision = self.display.draw_sprite(pos_x, pos_y, sprite_data.as_slice());
        self.v[0xF] = if collision {
            1
        } else {
            0
        };
        self.draw_flag = true;
        proof {
            assert(self@ =~= spec_exec_dxyn(old(self)@, instruction));
        }
    }

    fn execute_exxx(&mut self, instruction: u16)
        requires
            old(self).wf(),
            old(self)@.pc + 2 <= u16::MAX,
        ensures
            final(self)@ == spec_exec_exxx(old(self)@, instruction),
            final(self).wf(),
    {
        let x = ((instruction & 0x0F00) >> 8) as usize;
        if x > 15 {
            self.note_error();
            return;
        }
        let key = self.v[x];
        if key > 15 {
            return;
        }
        match instruction & 0x00FF {
            0x9E => {
                if self.input.is_key_pressed(key) {
                    self.pc = self.pc + 2;
                }
            },
            0xA1 => {
                if !self.input.is_key_pressed(key) {
                    self.pc = self.pc + 2;
                }
            },
            _ => {
                self.note_error();
            },
        }
        proof {
            assert(self@ =~= spec_exec_exxx(old(self)@, instruction));
        }
    }

    fn execute_fxxx(&mut self, instruction: u16)
        requires
            old(self).wf(),
            old(self)@.pc >= 2,
        ensures
            final(self)@ == spec_exec_fxxx(old(self)@, instruction),
            final(self).wf(),
    {
        let x = ((instruction & 0x0F00) >> 8) as usize;
        if x > 15 {
            self.note_error();
            return;
        }
        match instruction & 0x00FF {
            0x07 => {
                self.v[x] = self.delay_timer;
            },
            0x0A => {
                if let Some(key) = self.input.get_key_pressed() {
                    self.v[x] = key;
                } else {
                    self.pc = self.pc - 2;
                }
            },
            0x15 => {
                self.delay_timer = self.v[x];
            },
            0x18 => {
                self.sound_timer = self.v[x];
            },
            0x1E => {
                let new_i = ((self.i as u32 + self.v[x] as u32) % 4096) as u16;
                self.i = new_i;
            },
            0x29 => {
                let character = self.v[x] & 0x0F;
                self.i = self.memory.get_font_address(character);
            },
            0x33 => {
                let value = self.v[x];
                if self.i as u32 + 2 >= MEMORY_SIZE as u32 {
                    self.note_error();
                    proof {
                        assert(self@ =~= spec_exec_fxxx(old(self)@, instruction));
                    }
                    return;
                }
                self.memory.write_byte(self.i, value / 100);
                self.memory.write_byte(self.i + 1, (value / 10) % 10);
                self.memory.write_byte(self.i + 2, value % 10);
            },
            0x55 => {
                if self.i as usize + x >= MEMORY_SIZE {
                    self.note_error();
                    proof {
                        assert(self@ =~= spec_exec_fxxx(old(self)@, instruction));
                    }
                    return;
                }
                let mut reg: usize = 0;
                while reg <= x
                    invariant
                        old(self).wf(),
                        reg <= x + 1,
                        x <= 15,
                        self.i == old(self).i,
                        self.i as int + x < MEMORY_SIZE,
                        self.v@ == old(self)@.v,
                        self.memory@.len() == old(self)@.mem.len(),
                        self.memory@ == store_regs(
                            old(self)@.mem,
                            self.i as int,
                            self.v@,
                            reg as int,
                        ),
                        self.pc == old(self).pc,
                        self.sp == old(self).sp,
                        self.delay_timer == old(self).delay_timer,
                        self.sound_timer == old(self).sound_timer,
                        self.display@ == old(self)@.disp,
                        self.input@ == old(self).input@,
                        self.stack@ == old(self)@.stack,
                        self.draw_flag == old(self).draw_flag,
                        self.halted == old(self).halted,
                        self.error_count == old(self).error_count,
                        self.cycle_count == old(self).cycle_count,
                        self.seed == old(self).seed,
                    decreases x + 1 - reg,
                {
                    self.memory.write_byte(self.i + reg as u16, self.v[reg]);
                    reg = reg + 1;
                }
                proof {
                    assert(self@ =~= spec_exec_fxxx(old(self)@, instruction));
                }
                return;
            },
            0x65 => {
                if self.i as usize + x >= MEMORY_SIZE {
                    self.note_error();
                    proof {
                        assert(self@ =~= spec_exec_fxxx(old(self)@, instruction));
                    }
                    return;
                }
                let mut reg: usize = 0;
                while reg <= x
                    invariant
                        old(self).wf(),
                        reg <= x + 1,
                        x <= 15,
                        self.i == old(self).i,
                        self.i as int + x < MEMORY_SIZE,
                        self.v@ == load_regs(
                            old(self)@.v,
                            old(self)@.mem,
                            self.i as int,
                            reg as int,
                        ),
                        self.memory@ == old(self)@.mem,
                        self.pc == old(self).pc,
                        self.sp == old(self).sp,
                        self.delay_timer == old(self).delay_timer,
                        self.sound_timer == old(self).sound_timer,
                        self.display@ == old(self)@.disp,
                        self.input@ == old(self).input@,
                        self.stack@ == old(self)@.stack,
                        self.draw_flag == old(self).draw_flag,
                        self.halted == old(self).halted,
                        self.error_count == old(self).error_count,
                        self.cycle_count == old(self).cycle_count,
                        self.seed == old(self).seed,
                    decreases x + 1 - reg,
                {
                    let b = self.memory.read_byte(self.i + reg as u16);
                    self.v[reg] = b;
                    reg = reg + 1;
                }
                proof {
                    assert(self@ =~= spec_exec_fxxx(old(self)@, instruction));
                }
                return;
            },
            _ => {
                self.note_error();
            },
        }
        proof {
            assert(self@ =~= spec_exec_fxxx(old(self)@, instruction));
        }
    }

    /// A one-line summary of the CPU's health counters, for diagnostics only.
    pub fn get_stats(&self) -> (s: String)
        ensures
            s@.len() > 0,
    {
        let mut s = String::new();
        s.append("Cycles: ");
        push_dec_u64(&mut s, self.cycle_count);
        s.append(" | Errors: ");
        push_dec_u64(&mut s, self.error_count as u64);
        s.append(" | Halted: ");
        if self.halted {
            s.append("true");
        } else {
            s.append("false");
        }
        s.append(" | Stack: ");
        push_dec_u64(&mut s, self.sp as u64);
        s.append("/");
        push_dec_u64(&mut s, MAX_STACK_SIZE as u64);
        proof {
            reveal_strlit("Cycles: ");
        }
        s
    }

    /// Whether the machine is in good shape: running, few errors, and room
    /// on the call stack.
    pub fn is_healthy(&self) -> (healthy: bool)
        ensures
            healthy == (!self@.halted && self@.error_count < 5 && self@.sp < MAX_STACK_SIZE),
    {
        !self.halted && self.error_count < 5 && self.sp < MAX_STACK_SIZE
    }

    /// Export the framebuffer, one byte per pixel, 0 or 255.
    pub fn get_display_buffer(&self) -> (buf: Vec<u8>)
        ensures
            buf@.len() == 2048,
            forall|p: int|
                0 <= p < 2048 ==> buf@[p] == (if self@.disp[p] {
                    255u8
                } else {
                    0u8
                }),
    {
        self.display.get_buffer()
    }

    /// Press a key; codes above 15 are ignored.
    pub fn key_down(&mut self, key: u8)
        ensures
            key <= 15 ==> final(self)@ == (CpuView {
                keys: old(self)@.keys.update(key as int, true),
                last_key: Some(key),
                ..old(self)@
            }),
            key > 15 ==> final(self)@ == old(self)@,
    {
        if key <= 15 {
            self.input.key_down(key);
        }
        proof {
            if key <= 15 {
                assert(self@ =~= (CpuView {
                    keys: old(self)@.keys.update(key as int, true),
                    last_key: Some(key),
                    ..old(self)@
                }));
            } else {
                assert(self@ =~= old(self)@);
            }
        }
    }

    /// Release a key; codes above 15 are ignored.
    pub fn key_up(&mut self, key: u8)
        ensures
            key <= 15 ==> final(self)@ == (CpuView {
                keys: old(self)@.keys.update(key as int, false),
                ..old(self)@
            }),
            key > 15 ==> final(self)@ == old(self)@,
    {
        if key <= 15 {
            self.input.key_up(key);
        }
        proof {
            if key <= 15 {
                assert(self@ =~= (CpuView {
                    keys: old(self)@.keys.update(key as int, false),
                    ..old(self)@
                }));
            } else {
                assert(self@ =~= old(self)@);
            }
        }
    }

    /// A one-line register and timer dump, for diagnostics only.
    pub fn get_debug_info(&self) -> (s: String)
        ensures
            s@.len() > 0,
    {
        let mut s = String::new();
        s.append("PC: 0x");
        push_hex4(&mut s, self.pc);
        s.append(" | I: 0x");
        push_hex4(&mut s, self.i);
        s.append(" | SP: ");
        push_dec_u64(&mut s, self.sp as u64);
        s.append(" | DT: ");
        push_dec_u64(&mut s, self.delay_timer as u64);
        s.append(" | ST: ");
        push_dec_u64(&mut s, self.sound_timer as u64);
        s.append(" | V:");
        let mut r: usize = 0;
        while r < 16
            invariant
                s@.len() > 0,
            decreases 16 - r,
        {
            s.append(" ");
            push_hex2(&mut s, self.v[r]);
            r = r + 1;
        }
        s.append(" | Cycles: ");
        push_dec_u64(&mut s, self.cycle_count);
        s.append(" | Err: ");
        push_dec_u64(&mut s, self.error_count as u64);
        proof {
            reveal_strlit("PC: 0x");
        }
        s
    }

    /// Whether the machine is running and healthy.
    pub fn is_running(&self) -> (running: bool)
        ensures
            running == (!self@.halted && self@.error_count < 5 && self@.sp < MAX_STACK_SIZE),
    {
        !self.halted && self.is_healthy()
    }

    /// A hexadecimal dump of a memory window, for diagnostics only.
    pub fn memory_dump(&self, start: u16, length: u16) -> (s: String)
        ensures
            s@.len() > 0,
    {
        self.memory.hex_dump(start, length)
    }
}

/// Law: the halted state is terminal: a cycle of a halted machine changes
/// nothing, until an explicit reset.
pub proof fn lemma_halted_cycle_is_noop(s: CpuView)
    requires
        s.halted,
    ensures
        spec_cycle(s) == s,
{
}

/// Law: a return (`00EE`) on an empty call stack halts the machine.
pub proof fn lemma_return_underflow_halts(s: CpuView)
    requires
        wf_view(s),
        !s.halted,
        s.error_count < ERROR_LIMIT,
        valid_program_address(s.pc),
        s.sp == 0,
        s.mem[s.pc as int] == 0x00u8,
        s.mem[s.pc as int + 1] == 0xEEu8,
    ensures
        spec_cycle(s).halted,
{
    let s1 = CpuView { cycle_count: sat_inc64(s.cycle_count), ..s };
    assert(spec_validate_pc(s1) == (s1, true));
    let instr = ((0x00u8 as u16) << 8) | (0xEEu8 as u16);
    assert((((0x00u8 as u16) << 8) | (0xEEu8 as u16)) == 0x00EEu16 && 0x00EEu16 & 0xF000
        == 0x0000u16) by (bit_vector);
    assert(spec_fetch(s1).1 == instr);
    assert(spec_execute(spec_fetch(s1).0, instr).halted);
}

/// Law: a load-immediate (`6xkk`) followed by an add-immediate (`7xkk`) over
/// two cycles leaves the target register holding the sum of the two
/// immediates modulo 256, and every other register, the flag register
/// included, unchanged.
pub proof fn lemma_load_then_add_immediate(s: CpuView, x: u8, kk1: u8, kk2: u8)
    requires
        wf_view(s),
        !s.halted,
        s.error_count < ERROR_LIMIT,
        x < 16,
        valid_program_address(s.pc),
        s.pc as int + 3 < MEMORY_SIZE,
        s.mem[s.pc as int] == (0x60 + x) as u8,
        s.mem[s.pc as int + 1] == kk1,
        s.mem[s.pc as int + 2] == (0x70 + x) as u8,
        s.mem[s.pc as int + 3] == kk2,
    ensures
        spec_cycle(spec_cycle(s)).v[x as int] == (kk1 as int + kk2 as int) % 256,
        forall|j: int| 0 <= j < 16 && j != x ==> spec_cycle(spec_cycle(s)).v[j] == s.v[j],
{
    let s1 = CpuView { cycle_count: sat_inc64(s.cycle_count), ..s };
    assert(spec_validate_pc(s1) == (s1, true));
    let hi1 = (0x60 + x) as u8;
    let i1 = ((hi1 as u16) << 8) | (kk1 as u16);
    assert(i1 & 0xF000 == 0x6000u16 && (i1 & 0x0F00) >> 8 == x as u16 && i1 & 0x00FF
        == kk1 as u16) by (bit_vector)
        requires
            i1 == ((((0x60 + x) as u8) as u16) << 8) | (kk1 as u16),
            x < 16,
    ;
    assert(spec_fetch(s1).1 == i1);
    let sa = spec_cycle(s);
    assert(sa == spec_update_timers(spec_exec_6xkk(spec_fetch(s1).0, i1)));
    assert(sa.v == s.v.update(x as int, kk1));
    assert(sa.pc == s.pc + 2 && !sa.halted && sa.error_count == s.error_count && sa.mem == s.mem
        && sa.sp == s.sp);

    let s2 = CpuView { cycle_count: sat_inc64(sa.cycle_count), ..sa };
    assert(valid_program_address(sa.pc)) by {
        assert((s.pc + 2) % 2 == 0);
    }
    assert(spec_validate_pc(s2) == (s2, true));
    let hi2 = (0x70 + x) as u8;
    let i2 = ((hi2 as u16) << 8) | (kk2 as u16);
    assert(i2 & 0xF000 == 0x7000u16 && (i2 & 0x0F00) >> 8 == x as u16 && i2 & 0x00FF
        == kk2 as u16) by (bit_vector)
        requires
            i2 == ((((0x70 + x) as u8) as u16) << 8) | (kk2 as u16),
            x < 16,
    ;
    assert(spec_fetch(s2).1 == i2);
    let sb = spec_cycle(sa);
    assert(sb == spec_update_timers(spec_exec_7xkk(spec_fetch(s2).0, i2)));
    assert(sb.v == sa.v.update(x as int, wrap_add8(sa.v[x as int], kk2)));
    assert(sa.v[x as int] == kk1);
}

/// Law: the register-register add (`8xy4`) stores the 8-bit wrapped sum,
/// and, when the target register is not the flag register itself, sets `VF`
/// to 1 exactly when the unsigned sum of the two operands exceeds 255, and
/// to 0 otherwise. (With `x = F` the stored sum overwrites the flag.)
pub proof fn lemma_alu_add_carry(s: CpuView, instr: u16)
    requires
        wf_view(s),
        instr & 0x000F == 0x4,
    ensures
        spec_exec_8xxx(s, instr).v[op_x(instr)] == (s.v[op_x(instr)] as int + s.v[op_y(
            instr,
        )] as int) % 256,
        op_x(instr) != 15 ==> (spec_exec_8xxx(s, instr).v[15] == 1u8 <==> s.v[op_x(
            instr,
        )] as int + s.v[op_y(instr)] as int > 255),
        op_x(instr) != 15 ==> (spec_exec_8xxx(s, instr).v[15] == 0u8 <==> s.v[op_x(
            instr,
        )] as int + s.v[op_y(instr)] as int <= 255),
{
    assert((instr & 0x0F00) >> 8 < 16 && (instr & 0x00F0) >> 4 < 16) by (bit_vector);
}

/// Law: the right shift (`8xy6`) always captures the pre-shift least
/// significant bit of `Vx` into `VF` before shifting (when the target is not
/// the flag register itself), even when the shifted result is zero.
pub proof fn lemma_alu_shr_captures_lsb(s: CpuView, instr: u16)
    requires
        wf_view(s),
        instr & 0x000F == 0x6,
        op_x(instr) != 15,
    ensures
        spec_exec_8xxx(s, instr).v[15] == s.v[op_x(instr)] & 1,
        spec_exec_8xxx(s, instr).v[op_x(instr)] == s.v[op_x(instr)] / 2,
{
    assert((instr & 0x0F00) >> 8 < 16 && (instr & 0x00F0) >> 4 < 16) by (bit_vector);
}

/// Law: the left shift (`8xyE`) always captures the pre-shift most
/// significant bit of `Vx` into `VF` before shifting (when the target is not
/// the flag register itself), even when the shifted result is zero.
pub proof fn lemma_alu_shl_captures_msb(s: CpuView, instr: u16)
    requires
        wf_view(s),
        instr & 0x000F == 0xE,
        op_x(instr) != 15,
    ensures
        spec_exec_8xxx(s, instr).v[15] == (s.v[op_x(instr)] & 0x80) / 128,
        spec_exec_8xxx(s, instr).v[op_x(instr)] == (s.v[op_x(instr)] as int * 2) % 256,
{
    assert((instr & 0x0F00) >> 8 < 16 && (instr & 0x00F0) >> 4 < 16) by (bit_vector);
}

proof fn lemma_mem_write_preserves_fontset(m: Seq<u8>, addr: int, value: u8)
    requires
        m.len() == MEMORY_SIZE,
        crate::memory::fontset_intact(m),
    ensures
        mem_write(m, addr, value).len() == MEMORY_SIZE,
        crate::memory::fontset_intact(mem_write(m, addr, value)),
{
    let m2 = mem_write(m, addr, value);
    assert forall|a: int|
        crate::memory::FONTSET_START <= a < crate::memory::FONTSET_START
            + crate::memory::FONTSET_SIZE implies #[trigger] m2[a] == crate::memory::glyph_byte(
        (a - crate::memory::FONTSET_START) / 5,
        (a - crate::memory::FONTSET_START) % 5,
    ) by {
        assert(crate::memory::addr_protected(a));
        assert(m[a] == crate::memory::glyph_byte(
            (a - crate::memory::FONTSET_START) / 5,
            (a - crate::memory::FONTSET_START) % 5,
        ));
    }
}

proof fn lemma_store_regs_preserves_fontset(m: Seq<u8>, base: int, v: Seq<u8>, n: int)
    requires
        m.len() == MEMORY_SIZE,
        crate::memory::fontset_intact(m),
    ensures
        store_regs(m, base, v, n).len() == MEMORY_SIZE,
        crate::memory::fontset_intact(store_regs(m, base, v, n)),
    decreases n,
{
    if n > 0 {
        lemma_store_regs_preserves_fontset(m, base, v, n - 1);
        lemma_mem_write_preserves_fontset(store_regs(m, base, v, n - 1), base + n - 1, v[n - 1]);
    }
}

proof fn lemma_execute_preserves_fontset(s: CpuView, instr: u16)
    requires
        s.mem.len() == MEMORY_SIZE,
        crate::memory::fontset_intact(s.mem),
    ensures
        crate::memory::fontset_intact(spec_execute(s, instr).mem),
{
    let fam = instr & 0xF000;
    if fam != 0x0000 && fam != 0x1000 && fam != 0x2000 && fam != 0x3000 && fam != 0x4000 && fam
        != 0x5000 && fam != 0x6000 && fam != 0x7000 && fam != 0x8000 && fam != 0x9000 && fam
        != 0xA000 && fam != 0xB000 && fam != 0xC000 && fam != 0xD000 && fam != 0xE000 {
        let x = op_x(instr);
        let sub = instr & 0x00FF;
        if x <= 15 {
            if sub == 0x33 {
                if s.i as int + 2 < MEMORY_SIZE {
                    let m1 = mem_write(s.mem, s.i as int, s.v[x] / 100);
                    let m2 = mem_write(m1, s.i as int + 1, (s.v[x] / 10) % 10);
                    lemma_mem_write_preserves_fontset(s.mem, s.i as int, s.v[x] / 100);
                    lemma_mem_write_preserves_fontset(m1, s.i as int + 1, (s.v[x] / 10) % 10);
                    lemma_mem_write_preserves_fontset(m2, s.i as int + 2, s.v[x] % 10);
                }
            } else if sub == 0x55 {
                if s.i as int + x < MEMORY_SIZE {
                    lemma_store_regs_preserves_fontset(s.mem, s.i as int, s.v, x + 1);
                }
            }
        }
    }
}

/// Law: the glyph table is write-protected: once it holds the built-in
/// glyphs, no machine tick can change them, whatever the program does.
pub proof fn lemma_cycle_preserves_fontset(s: CpuView)
    requires
        wf_view(s),
        crate::memory::fontset_intact(s.mem),
    ensures
        crate::memory::fontset_intact(spec_cycle(s).mem),
{
    if !s.halted && s.error_count < ERROR_LIMIT {
        let s1 = CpuView { cycle_count: sat_inc64(s.cycle_count), ..s };
        let vp = spec_validate_pc(s1);
        if vp.1 {
            let f = spec_fetch(vp.0);
            lemma_execute_preserves_fontset(f.0, f.1);
        }
    }
}

/// Law: ten accumulated soft errors trip the circuit breaker: the next tick
/// of a still-running machine only moves it to the halted state.
pub proof fn lemma_error_limit_trips_breaker(s: CpuView)
    requires
        !s.halted,
        s.error_count >= ERROR_LIMIT,
    ensures
        spec_cycle(s) == (CpuView { halted: true, ..s }),
{
}

} // verus!
