//! Mathematical model of the execution engine: the machine state as ghost
//! data, and the transition that one fetch-decode-execute cycle performs.
use crate::screen::{spec_draw, ScreenView};
use vstd::prelude::*;

verus! {

pub const MEM_SIZE: u16 = 4096;

pub const START_PC: u16 = 0x200;

pub const FONT_BASE: u16 = 0x050;

pub const STACK_DEPTH: u8 = 16;

/// One of the historical compatibility variants of the instruction set.
/// The profile is fixed for a run and selects the quirks below.
#[derive(Clone, Copy, Debug, PartialEq, Eq, Structural)]
pub enum CompatLevel {
    Chip8,
    Chip48,
    SuperChip1_0,
    SuperChip1_1,
    XOChip,
}

impl CompatLevel {
    /// AND/OR/XOR of two registers clear VF as a side effect.
    pub open spec fn spec_resets_vf_on_logic(self) -> bool {
        self is Chip8
    }

    /// The shift instructions copy VY into VX before shifting, instead of
    /// shifting VX in place.
    pub open spec fn spec_shift_uses_y(self) -> bool {
        self is Chip8 || self is XOChip
    }

    /// Jump-with-offset adds VX (X from the target's high nibble) instead
    /// of V0.
    pub open spec fn spec_jump_uses_vx(self) -> bool {
        !(self is Chip8)
    }

    /// Adding to the index register sets VF and wraps when the sum leaves
    /// the addressable range.
    pub open spec fn spec_index_overflow_flags(self) -> bool {
        !(self is Chip8)
    }

    /// Storing or loading a register range advances the index register past
    /// the range afterwards.
    pub open spec fn spec_store_load_advances_i(self) -> bool {
        self is Chip8
    }

    /// Sprites wrap at the framebuffer edges instead of being clipped.
    pub open spec fn spec_sprite_wraps(self) -> bool {
        self is XOChip
    }

    pub fn resets_vf_on_logic(self) -> (b: bool)
        ensures
            b == self.spec_resets_vf_on_logic(),
    {
        matches!(self, CompatLevel::Chip8)
    }

    pub fn shift_uses_y(self) -> (b: bool)
        ensures
            b == self.spec_shift_uses_y(),
    {
        matches!(self, CompatLevel::Chip8 | CompatLevel::XOChip)
    }

    pub fn jump_uses_vx(self) -> (b: bool)
        ensures
            b == self.spec_jump_uses_vx(),
    {
        !matches!(self, CompatLevel::Chip8)
    }

    pub fn index_overflow_flags(self) -> (b: bool)
        ensures
            b == self.spec_index_overflow_flags(),
    {
        !matches!(self, CompatLevel::Chip8)
    }

    pub fn store_load_advances_i(self) -> (b: bool)
        ensures
            b == self.spec_store_load_advances_i(),
    {
        matches!(self, CompatLevel::Chip8)
    }

    pub fn sprite_wraps(self) -> (b: bool)
        ensures
            b == self.spec_sprite_wraps(),
    {
        matches!(self, CompatLevel::XOChip)
    }
}

/// What one `step()` call reports back to the host.
#[derive(Clone, Copy, Debug, PartialEq, Eq, Structural)]
pub enum StepOutcome {
    /// An instruction from the dispatch table ran to completion.
    Executed,
    /// The fetched opcode is outside the dispatch table; beyond the program
    /// counter advance the instruction was a no-op.
    Unimplemented(u16),
    /// The engine is in its terminal state: either it was already halted, or
    /// this step found a self-jump under the strict policy.
    Halted,
}

/// Diagnostic for a rejected out-of-range memory access.
#[derive(Clone, Copy, Debug, PartialEq, Eq, Structural)]
pub struct MemError {
    pub addr: u16,
}

/// The whole engine state as mathematical data: memory and framebuffer as
/// sequences, registers, program counter, index register, timers, call
/// stack, key states and policy switches.
#[verifier::ext_equal]
pub ghost struct CpuView {
    pub mem: Seq<u8>,
    pub screen: ScreenView,
    pub pc: u16,
    pub ir: u16,
    pub delay_timer: u8,
    pub sound_timer: u8,
    pub regs: Seq<u8>,
    pub stack: Seq<u16>,
    pub sp: u8,
    pub compat: CompatLevel,
    pub keys: Seq<bool>,
    pub strict: bool,
    pub halted: bool,
}

impl CpuView {
    pub open spec fn wf(self) -> bool {
        &&& self.mem.len() == MEM_SIZE
        &&& self.regs.len() == 16
        &&& self.stack.len() == STACK_DEPTH
        &&& self.keys.len() == 16
        &&& self.sp < STACK_DEPTH
        &&& self.pc < MEM_SIZE
        &&& self.screen.wf()
        &&& forall|i: int| 0 <= i < STACK_DEPTH ==> self.stack[i] < MEM_SIZE
    }
}

/// The byte the store yields for a read at `addr`: the stored byte in
/// range, the defined substitute 0 outside it.
pub open spec fn spec_read_or_zero(mem: Seq<u8>, addr: int) -> u8 {
    if 0 <= addr < MEM_SIZE {
        mem[addr]
    } else {
        0
    }
}

/// A write at `addr`: stored in range, dropped outside it.
pub open spec fn spec_write_or_drop(mem: Seq<u8>, addr: int, value: u8) -> Seq<u8> {
    if 0 <= addr < MEM_SIZE {
        mem.update(addr, value)
    } else {
        mem
    }
}

/// The big-endian 16-bit opcode fetched at the program counter.
pub open spec fn spec_fetch(s: CpuView) -> u16 {
    (spec_read_or_zero(s.mem, s.pc as int) * 256 + spec_read_or_zero(
        s.mem,
        s.pc as int + 1,
    )) as u16
}

pub open spec fn op_x(opcode: u16) -> int {
    ((opcode >> 8) & 0xF) as int
}

pub open spec fn op_y(opcode: u16) -> int {
    ((opcode >> 4) & 0xF) as int
}

pub open spec fn op_n(opcode: u16) -> u16 {
    opcode & 0xF
}

pub open spec fn op_nn(opcode: u16) -> u8 {
    (opcode & 0xFF) as u8
}

pub open spec fn op_nnn(opcode: u16) -> u16 {
    opcode & 0xFFF
}

pub open spec fn with_reg(s: CpuView, i: int, v: u8) -> CpuView {
    CpuView { regs: s.regs.update(i, v), ..s }
}

/// The program counter moved two bytes onward, wrapping in the 4096-byte
/// address space: the skip taken by the conditional instructions.
pub open spec fn spec_skip(s: CpuView) -> CpuView {
    CpuView { pc: ((s.pc + 2) % (MEM_SIZE as int)) as u16, ..s }
}

/// Registers V0..=Vx stored to memory at `ir` onward; out-of-range
/// addresses are dropped.
pub open spec fn spec_store_regs(mem: Seq<u8>, regs: Seq<u8>, ir: int, i: int, x: int) -> Seq<u8>
    decreases x + 1 - i,
{
    if i < 0 || i > x {
        mem
    } else {
        spec_store_regs(spec_write_or_drop(mem, ir + i, regs[i]), regs, ir, i + 1, x)
    }
}

/// Registers V0..=Vx loaded from memory at `ir` onward; out-of-range
/// addresses yield the substitute 0.
pub open spec fn spec_load_regs(regs: Seq<u8>, mem: Seq<u8>, ir: int, i: int, x: int) -> Seq<u8>
    decreases x + 1 - i,
{
    if i < 0 || i > x {
        regs
    } else {
        spec_load_regs(regs.update(i, spec_read_or_zero(mem, ir + i)), mem, ir, i + 1, x)
    }
}

/// The sprite rows the draw instruction reads: `n` bytes from `ir` onward,
/// with the substitute 0 outside the addressable range.
pub open spec fn spec_sprite_rows(mem: Seq<u8>, ir: int, n: int) -> Seq<u8> {
    Seq::new(n as nat, |i: int| spec_read_or_zero(mem, ir + i))
}

/// The `0...` family: clear screen, return, anything else unimplemented.
pub open spec fn spec_exec_sys(s: CpuView, opcode: u16) -> (CpuView, StepOutcome) {
    if opcode == 0x00E0 {
        (
            CpuView {
                screen: ScreenView {
                    pixels: Seq::new(s.screen.pixels.len(), |i: int| 0u8),
                    ..s.screen
                },
                ..s
            },
            StepOutcome::Executed,
        )
    } else if opcode == 0x00EE {
        if s.sp == 0 {
            (s, StepOutcome::Executed)
        } else {
            (
                CpuView { sp: (s.sp - 1) as u8, pc: s.stack[s.sp - 1], ..s },
                StepOutcome::Executed,
            )
        }
    } else {
        (s, StepOutcome::Unimplemented(opcode))
    }
}

/// The `8...` family: register-to-register moves, logic, arithmetic with
/// carry/borrow flags, and the profile-dependent shifts. VF is written
/// after the result register, so on VF itself the flag wins.
pub open spec fn spec_exec_alu(s: CpuView, opcode: u16) -> (CpuView, StepOutcome) {
    let x = op_x(opcode);
    let y = op_y(opcode);
    let n = op_n(opcode);
    let vx = s.regs[x];
    let vy = s.regs[y];
    if n == 0 {
        (with_reg(s, x, vy), StepOutcome::Executed)
    } else if n == 1 {
        let s2 = with_reg(s, x, vx | vy);
        if s.compat.spec_resets_vf_on_logic() {
            (with_reg(s2, 15, 0), StepOutcome::Executed)
        } else {
            (s2, StepOutcome::Executed)
        }
    } else if n == 2 {
        let s2 = with_reg(s, x, vx & vy);
        if s.compat.spec_resets_vf_on_logic() {
            (with_reg(s2, 15, 0), StepOutcome::Executed)
        } else {
            (s2, StepOutcome::Executed)
        }
    } else if n == 3 {
        let s2 = with_reg(s, x, vx ^ vy);
        if s.compat.spec_resets_vf_on_logic() {
            (with_reg(s2, 15, 0), StepOutcome::Executed)
        } else {
            (s2, StepOutcome::Executed)
        }
    } else if n == 4 {
        let flag: u8 = if vx + vy > 255 {
            1
        } else {
            0
        };
        (with_reg(with_reg(s, x, ((vx + vy) % 256) as u8), 15, flag), StepOutcome::Executed)
    } else if n == 5 {
        let flag: u8 = if vx > vy {
            1
        } else {
            0
        };
        (
            with_reg(with_reg(s, 15, flag), x, ((vx - vy + 256) % 256) as u8),
            StepOutcome::Executed,
        )
    } else if n == 6 {
        let src = if s.compat.spec_shift_uses_y() {
            vy
        } else {
            vx
        };
        (with_reg(with_reg(s, x, src >> 1), 15, src & 1), StepOutcome::Executed)
    } else if n == 7 {
        let flag: u8 = if vy > vx {
            1
        } else {
            0
        };
        (
            with_reg(with_reg(s, 15, flag), x, ((vy - vx + 256) % 256) as u8),
            StepOutcome::Executed,
        )
    } else if n == 0xE {
        let src = if s.compat.spec_shift_uses_y() {
            vy
        } else {
            vx
        };
        (
            with_reg(with_reg(s, x, ((src * 2) % 256) as u8), 15, src >> 7),
            StepOutcome::Executed,
        )
    } else {
        (s, StepOutcome::Unimplemented(opcode))
    }
}

/// The draw instruction: the sprite at `ir`, `n` rows tall, plotted at
/// (VX mod width, VY mod height) under the profile's wrap policy; VF takes
/// the collision flag.
pub open spec fn spec_exec_draw(s: CpuView, opcode: u16) -> (CpuView, StepOutcome) {
    let w = s.screen.width;
    let h = s.screen.height;
    let sx = (s.regs[op_x(opcode)] as int) % w;
    let sy = (s.regs[op_y(opcode)] as int) % h;
    let wrap = s.compat.spec_sprite_wraps();
    let rows = spec_sprite_rows(s.mem, s.ir as int, op_n(opcode) as int);
    let plotted = spec_draw(s.screen.pixels, w, h, sx, sy, rows, wrap);
    let s2 = CpuView { screen: ScreenView { pixels: plotted.0, ..s.screen }, ..s };
    (
        with_reg(
            s2,
            15,
            if plotted.1 {
                1
            } else {
                0
            },
        ),
        StepOutcome::Executed,
    )
}

/// The `F...` family: timers, index arithmetic, font lookup, binary-coded
/// decimal, and register range store/load.
pub open spec fn spec_exec_misc(s: CpuView, opcode: u16) -> (CpuView, StepOutcome) {
    let x = op_x(opcode);
    let nn = op_nn(opcode);
    let vx = s.regs[x];
    if nn == 0x07 {
        (with_reg(s, x, s.delay_timer), StepOutcome::Executed)
    } else if nn == 0x15 {
        (CpuView { delay_timer: vx, ..s }, StepOutcome::Executed)
    } else if nn == 0x18 {
        (CpuView { sound_timer: vx, ..s }, StepOutcome::Executed)
    } else if nn == 0x1E {
        let sum = ((s.ir + vx) % 0x10000) as u16;
        if sum > 0xFFF && s.compat.spec_index_overflow_flags() {
            (
                CpuView { ir: (sum - 0xFFF) as u16, regs: s.regs.update(15, 1u8), ..s },
                StepOutcome::Executed,
            )
        } else {
            (CpuView { ir: sum, ..s }, StepOutcome::Executed)
        }
    } else if nn == 0x29 {
        (
            CpuView { ir: (FONT_BASE + (vx & 0xF) * 5) as u16, ..s },
            StepOutcome::Executed,
        )
    } else if nn == 0x33 {
        let m1 = spec_write_or_drop(s.mem, s.ir as int, ((vx / 100) % 10) as u8);
        let m2 = spec_write_or_drop(m1, s.ir as int + 1, ((vx / 10) % 10) as u8);
        let m3 = spec_write_or_drop(m2, s.ir as int + 2, (vx % 10) as u8);
        (CpuView { mem: m3, ..s }, StepOutcome::Executed)
    } else if nn == 0x55 {
        let m2 = spec_store_regs(s.mem, s.regs, s.ir as int, 0, x);
        let s2 = CpuView { mem: m2, ..s };
        if s.compat.spec_store_load_advances_i() {
            (
                CpuView { ir: ((s.ir + x + 1) % 0x10000) as u16, ..s2 },
                StepOutcome::Executed,
            )
        } else {
            (s2, StepOutcome::Executed)
        }
    } else if nn == 0x65 {
        let r2 = spec_load_regs(s.regs, s.mem, s.ir as int, 0, x);
        let s2 = CpuView { regs: r2, ..s };
        if s.compat.spec_store_load_advances_i() {
            (
                CpuView { ir: ((s.ir + x + 1) % 0x10000) as u16, ..s2 },
                StepOutcome::Executed,
            )
        } else {
            (s2, StepOutcome::Executed)
        }
    } else {
        (s, StepOutcome::Unimplemented(opcode))
    }
}

/// One decoded instruction executed on a state whose program counter has
/// already advanced past it. `self_addr` is the address the instruction
/// was fetched from, and `rb` the byte the random-number source supplied.
pub open spec fn spec_exec(s: CpuView, opcode: u16, self_addr: u16, rb: u8) -> (
    CpuView,
    StepOutcome,
) {
    let fam = opcode >> 12;
    let x = op_x(opcode);
    let y = op_y(opcode);
    let n = op_n(opcode);
    let nn = op_nn(opcode);
    let nnn = op_nnn(opcode);
    let vx = s.regs[x];
    let vy = s.regs[y];
    if fam == 0x0 {
        spec_exec_sys(s, opcode)
    } else if fam == 0x1 {
        if s.strict && nnn == self_addr {
            (CpuView { pc: nnn, halted: true, ..s }, StepOutcome::Halted)
        } else {
            (CpuView { pc: nnn, ..s }, StepOutcome::Executed)
        }
    } else if fam == 0x2 {
        (
            CpuView {
                stack: s.stack.update(s.sp as int, s.pc),
                sp: if s.sp + 1 > 15 {
                    15u8
                } else {
                    (s.sp + 1) as u8
                },
                pc: nnn,
                ..s
            },
            StepOutcome::Executed,
        )
    } else if fam == 0x3 {
        (
            if vx == nn {
                spec_skip(s)
            } else {
                s
            },
            StepOutcome::Executed,
        )
    } else if fam == 0x4 {
        (
            if vx != nn {
                spec_skip(s)
            } else {
                s
            },
            StepOutcome::Executed,
        )
    } else if fam == 0x5 {
        if n == 0 {
            (
                if vx == vy {
                    spec_skip(s)
                } else {
                    s
                },
                StepOutcome::Executed,
            )
        } else {
            (s, StepOutcome::Unimplemented(opcode))
        }
    } else if fam == 0x6 {
        (with_reg(s, x, nn), StepOutcome::Executed)
    } else if fam == 0x7 {
        (with_reg(s, x, ((vx + nn) % 256) as u8), StepOutcome::Executed)
    } else if fam == 0x8 {
        spec_exec_alu(s, opcode)
    } else if fam == 0x9 {
        if n == 0 {
            (
                if vx != vy {
                    spec_skip(s)
                } else {
                    s
                },
                StepOutcome::Executed,
            )
        } else {
            (s, StepOutcome::Unimplemented(opcode))
        }
    } else if fam == 0xA {
        (CpuView { ir: nnn, ..s }, StepOutcome::Executed)
    } else if fam == 0xB {
        let offset = if s.compat.spec_jump_uses_vx() {
            vx
        } else {
            s.regs[0]
        };
        (
            CpuView { pc: ((nnn + offset) % (MEM_SIZE as int)) as u16, ..s },
            StepOutcome::Executed,
        )
    } else if fam == 0xC {
        (with_reg(s, x, rb & nn), StepOutcome::Executed)
    } else if fam == 0xD {
        spec_exec_draw(s, opcode)
    } else if fam == 0xE {
        if nn == 0x9E {
            (
                if s.keys[(vx & 0xF) as int] {
                    spec_skip(s)
                } else {
                    s
                },
                StepOutcome::Executed,
            )
        } else if nn == 0xA1 {
            (
                if !s.keys[(vx & 0xF) as int] {
                    spec_skip(s)
                } else {
                    s
                },
                StepOutcome::Executed,
            )
        } else {
            (s, StepOutcome::Unimplemented(opcode))
        }
    } else {
        spec_exec_misc(s, opcode)
    }
}

/// One whole `step()` call: nothing once halted; otherwise fetch at the
/// program counter, advance it by two (mod 4096), and execute the fetched
/// opcode. `rb` is the byte the random-number source supplied.
pub open spec fn spec_step(s: CpuView, rb: u8) -> (CpuView, StepOutcome) {
    if s.halted {
        (s, StepOutcome::Halted)
    } else {
        let opcode = spec_fetch(s);
        let advanced = CpuView { pc: ((s.pc + 2) % (MEM_SIZE as int)) as u16, ..s };
        spec_exec(advanced, opcode, s.pc, rb)
    }
}

/// Every set-immediate instruction (`6xNN`), fetched and executed by one
/// step, leaves NN in register x and the program counter two bytes onward,
/// wrapped in the address space.
pub proof fn lemma_step_set_imm(s: CpuView, rb: u8)
    requires
        s.wf(),
        !s.halted,
        spec_fetch(s) >> 12 == 0x6,
    ensures
        spec_step(s, rb).0.regs[op_x(spec_fetch(s))] == op_nn(spec_fetch(s)),
        spec_step(s, rb).0.pc == (s.pc + 2) % (MEM_SIZE as int),
        spec_step(s, rb).1 == StepOutcome::Executed,
{
    let opcode = spec_fetch(s);
    assert(((opcode >> 8) & 0xF) < 16) by (bit_vector);
}

/// Every add-immediate instruction (`7xNN`), fetched and executed by one
/// step, leaves (Vx + NN) mod 256 in register x; the flag register is
/// untouched whenever it is not itself the destination.
pub proof fn lemma_step_add_imm(s: CpuView, rb: u8)
    requires
        s.wf(),
        !s.halted,
        spec_fetch(s) >> 12 == 0x7,
    ensures
        spec_step(s, rb).0.regs[op_x(spec_fetch(s))] == (s.regs[op_x(spec_fetch(s))] + op_nn(
            spec_fetch(s),
        )) % 256,
        op_x(spec_fetch(s)) != 15 ==> spec_step(s, rb).0.regs[15] == s.regs[15],
        spec_step(s, rb).0.pc == (s.pc + 2) % (MEM_SIZE as int),
        spec_step(s, rb).1 == StepOutcome::Executed,
{
    let opcode = spec_fetch(s);
    assert(((opcode >> 8) & 0xF) < 16) by (bit_vector);
}

/// Under the Chip-8 profile the right shift takes its source from VY:
/// with VY = 3 the destination register becomes 1 and VF the shifted-out
/// bit 1, whatever VX held before.
pub proof fn lemma_shift_quirk_chip8(s: CpuView, opcode: u16)
    requires
        s.wf(),
        s.compat == CompatLevel::Chip8,
        op_n(opcode) == 6,
        s.regs[op_y(opcode)] == 3,
    ensures
        spec_exec_alu(s, opcode).0.regs[op_x(opcode)] == 1,
        spec_exec_alu(s, opcode).0.regs[15] == 1,
        spec_exec_alu(s, opcode).1 == StepOutcome::Executed,
{
    assert(((opcode >> 8) & 0xF) < 16) by (bit_vector);
    assert(((opcode >> 4) & 0xF) < 16) by (bit_vector);
    assert(3u8 >> 1 == 1 && 3u8 & 1 == 1) by (bit_vector);
}

/// Under the Chip-48 profile the right shift works on VX in place: the
/// destination becomes VX shifted right once and VF its lowest bit,
/// whatever VY held.
pub proof fn lemma_shift_quirk_chip48(s: CpuView, opcode: u16)
    requires
        s.wf(),
        s.compat == CompatLevel::Chip48,
        op_n(opcode) == 6,
    ensures
        op_x(opcode) != 15 ==> spec_exec_alu(s, opcode).0.regs[op_x(opcode)] == s.regs[op_x(
            opcode,
        )] >> 1,
        spec_exec_alu(s, opcode).0.regs[15] == (s.regs[op_x(opcode)] & 1),
        spec_exec_alu(s, opcode).1 == StepOutcome::Executed,
{
    assert(((opcode >> 8) & 0xF) < 16) by (bit_vector);
    assert(((opcode >> 4) & 0xF) < 16) by (bit_vector);
}

/// Executing the same draw instruction twice in a row restores every
/// pixel to its value before the first draw: the XOR plots cancel. The
/// position registers must not be VF, which the draw itself overwrites.
pub proof fn lemma_draw_twice_on_state(s: CpuView, opcode: u16)
    requires
        s.wf(),
        op_x(opcode) != 15,
        op_y(opcode) != 15,
    ensures
        spec_exec_draw(spec_exec_draw(s, opcode).0, opcode).0.screen.pixels
            == s.screen.pixels,
{
    assert(((opcode >> 8) & 0xF) < 16) by (bit_vector);
    assert(((opcode >> 4) & 0xF) < 16) by (bit_vector);
    let w = s.screen.width;
    let h = s.screen.height;
    let sx = (s.regs[op_x(opcode)] as int) % w;
    let sy = (s.regs[op_y(opcode)] as int) % h;
    assert(0 <= sx < w && 0 <= sy < h) by (nonlinear_arith)
        requires
            0 < w,
            0 < h,
            sx == (s.regs[op_x(opcode)] as int) % w,
            sy == (s.regs[op_y(opcode)] as int) % h,
            0 <= s.regs[op_x(opcode)] as int,
            0 <= s.regs[op_y(opcode)] as int,
    ;
    let s1 = spec_exec_draw(s, opcode).0;
    assert(s1.regs[op_x(opcode)] == s.regs[op_x(opcode)]);
    assert(s1.regs[op_y(opcode)] == s.regs[op_y(opcode)]);
    let rows = spec_sprite_rows(s.mem, s.ir as int, op_n(opcode) as int);
    crate::screen::lemma_draw_twice_restores(
        s.screen.pixels,
        w,
        h,
        sx,
        sy,
        rows,
        s.compat.spec_sprite_wraps(),
    );
}

/// Call/return round trip. A call instruction (`2nnn`) with room on the
/// stack pushes the address of the instruction after it and jumps; any
/// later state that still holds that frame and return address, on
/// executing a return (`00EE`), restores the program counter to exactly
/// that address and the stack pointer to its depth before the call.
pub proof fn lemma_call_return_round_trip(s: CpuView, t: CpuView, rb: u8)
    requires
        s.wf(),
        !s.halted,
        spec_fetch(s) >> 12 == 0x2,
        s.sp < 15,
        t.wf(),
        !t.halted,
        t.sp == s.sp + 1,
        t.stack[s.sp as int] == (s.pc + 2) % (MEM_SIZE as int),
        spec_fetch(t) == 0x00EE,
    ensures
        spec_step(s, rb).0.pc == op_nnn(spec_fetch(s)),
        spec_step(s, rb).0.sp == s.sp + 1,
        spec_step(s, rb).0.stack[s.sp as int] == (s.pc + 2) % (MEM_SIZE as int),
        spec_step(s, rb).1 == StepOutcome::Executed,
        spec_step(t, rb).0.pc == (s.pc + 2) % (MEM_SIZE as int),
        spec_step(t, rb).0.sp == s.sp,
        spec_step(t, rb).1 == StepOutcome::Executed,
{
    let opcode = spec_fetch(s);
    assert(opcode >> 12 == 0x2 ==> !(opcode >> 12 == 0x0) && !(opcode >> 12 == 0x1))
        by (bit_vector);
    assert(0x00EEu16 >> 12 == 0x0) by (bit_vector);
}

} // verus!
