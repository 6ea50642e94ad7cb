//! The execution engine: registers, memory, call stack, timers and the
//! fetch-decode-execute cycle, verified against the transition model.
use crate::model::{
    spec_exec, spec_exec_alu, spec_exec_draw, spec_exec_misc, spec_exec_sys, spec_fetch,
    spec_load_regs, spec_read_or_zero, spec_skip, spec_sprite_rows, spec_step, spec_store_regs,
    spec_write_or_drop, CompatLevel, CpuView, MemError, StepOutcome, FONT_BASE, MEM_SIZE,
    STACK_DEPTH, START_PC,
};
use crate::screen::Screen;
use vstd::prelude::*;

verus! {

/// Relies on rand::random: a value drawn from the thread-local generator.
/// Nothing can be promised of the draw.
pub assume_specification<T>[ rand::random::<T> ]() -> (r: T)
    where
        rand::distributions::Standard: rand::distributions::Distribution<T>,
;

/// A vector of `n` copies of `x`.
fn filled<T: Copy>(n: usize, x: T) -> (v: Vec<T>)
    ensures
        v@ =~= Seq::new(n as nat, |i: int| x),
{
    let mut v: Vec<T> = Vec::new();
    while v.len() < n
        invariant
            v@.len() <= n,
            forall|i: int| 0 <= i < v@.len() ==> v@[i] == x,
        decreases n - v@.len(),
    {
        v.push(x);
    }
    v
}

/// The execution engine. It owns the machine state and the framebuffer it
/// draws into; the host drives it through `step` and `tick_timers` and
/// feeds key state through `key_down`/`key_up`.
#[derive(Debug)]
pub struct CPU {
    memory: Vec<u8>,
    pub screen: Screen,
    pc: u16,
    ir: u16,
    delay_timer: u8,
    sound_timer: u8,
    registers: Vec<u8>,
    stack: Vec<u16>,
    sp: u8,
    compat: CompatLevel,
    keys: Vec<bool>,
    strict: bool,
    halted: bool,
}

impl View for CPU {
    type V = CpuView;

    closed spec fn view(&self) -> CpuView {
        CpuView {
            mem: self.memory@,
            screen: self.screen@,
            pc: self.pc,
            ir: self.ir,
            delay_timer: self.delay_timer,
            sound_timer: self.sound_timer,
            regs: self.registers@,
            stack: self.stack@,
            sp: self.sp,
            compat: self.compat,
            keys: self.keys@,
            strict: self.strict,
            halted: self.halted,
        }
    }
}

impl CPU {
    pub open spec fn wf(&self) -> bool {
        self@.wf()
    }

    /// A zeroed machine around the given framebuffer: empty memory and
    /// registers, the program counter at the conventional start address,
    /// the Chip-48 profile, the lenient self-jump policy.
    pub fn new(screen: Screen) -> (c: CPU)
        requires
            screen.wf(),
        ensures
            c.wf(),
            c@.mem =~= Seq::new(MEM_SIZE as nat, |i: int| 0u8),
            c@.screen == screen@,
            c@.pc == START_PC,
            c@.ir == 0,
            c@.delay_timer == 0,
            c@.sound_timer == 0,
            c@.regs =~= Seq::new(16, |i: int| 0u8),
            c@.stack =~= Seq::new(STACK_DEPTH as nat, |i: int| 0u16),
            c@.sp == 0,
            c@.compat == CompatLevel::Chip48,
            c@.keys =~= Seq::new(16, |i: int| false),
            !c@.strict,
            !c@.halted,
    {
        CPU {
            memory: filled(MEM_SIZE as usize, 0u8),
            screen,
            pc: START_PC,
            ir: 0,
            delay_timer: 0,
            sound_timer: 0,
            registers: filled(16, 0u8),
            stack: filled(STACK_DEPTH as usize, 0u16),
            sp: 0,
            compat: CompatLevel::Chip48,
            keys: filled(16, false),
            strict: false,
            halted: false,
        }
    }

    /// Back to the zeroed machine: memory, registers, stack, timers and
    /// counters cleared; the framebuffer, key state, profile and policy
    /// are left as they are.
    pub fn reset(&mut self)
        requires
            old(self).wf(),
        ensures
            final(self).wf(),
            final(self)@ == (CpuView {
                mem: Seq::new(MEM_SIZE as nat, |i: int| 0u8),
                pc: START_PC,
                ir: 0,
                delay_timer: 0,
                sound_timer: 0,
                regs: Seq::new(16, |i: int| 0u8),
                stack: Seq::new(STACK_DEPTH as nat, |i: int| 0u16),
                sp: 0,
                halted: false,
                ..old(self)@
            }),
    {
        self.memory = filled(MEM_SIZE as usize, 0u8);
        self.pc = START_PC;
        self.ir = 0;
        self.delay_timer = 0;
        self.sound_timer = 0;
        self.registers = filled(16, 0u8);
        self.stack = filled(STACK_DEPTH as usize, 0u16);
        self.sp = 0;
        self.halted = false;
        proof {
            assert(self@ =~= (CpuView {
                mem: Seq::new(MEM_SIZE as nat, |i: int| 0u8),
                pc: START_PC,
                ir: 0,
                delay_timer: 0,
                sound_timer: 0,
                regs: Seq::new(16, |i: int| 0u8),
                stack: Seq::new(STACK_DEPTH as nat, |i: int| 0u16),
                sp: 0,
                halted: false,
                ..old(self)@
            }));
        }
    }

    /// Store a byte: in range the store happens, out of range it is
    /// rejected with a diagnostic and the store is untouched.
    pub fn write_mem(&mut self, addr: u16, data: u8) -> (r: Result<(), MemError>)
        requires
            old(self).wf(),
        ensures
            final(self).wf(),
            final(self)@ == (CpuView {
                mem: spec_write_or_drop(old(self)@.mem, addr as int, data),
                ..old(self)@
            }),
            addr < MEM_SIZE <==> r is Ok,
            r matches Err(e) ==> e == (MemError { addr }),
    {
        if addr < MEM_SIZE {
            self.memory[addr as usize] = data;
            Ok(())
        } else {
            Err(MemError { addr })
        }
    }

    /// Read a byte: the stored byte in range, a diagnostic out of range.
    pub fn read_mem(&self, addr: u16) -> (r: Result<u8, MemError>)
        requires
            self.wf(),
        ensures
            addr < MEM_SIZE ==> r == Ok::<u8, MemError>(self@.mem[addr as int]),
            addr >= MEM_SIZE ==> r == Err::<u8, MemError>(MemError { addr }),
    {
        if addr < MEM_SIZE {
            Ok(self.memory[addr as usize])
        } else {
            Err(MemError { addr })
        }
    }

    /// One 60 Hz tick: both timers go down by one, stopping at zero. The
    /// host calls this at its own cadence, independent of `step`.
    pub fn tick_timers(&mut self)
        requires
            old(self).wf(),
        ensures
            final(self).wf(),
            final(self)@ == (CpuView {
                delay_timer: if old(self)@.delay_timer > 0 {
                    (old(self)@.delay_timer - 1) as u8
                } else {
                    0
                },
                sound_timer: if old(self)@.sound_timer > 0 {
                    (old(self)@.sound_timer - 1) as u8
                } else {
                    0
                },
                ..old(self)@
            }),
    {
        if self.delay_timer > 0 {
            self.delay_timer = self.delay_timer - 1;
        }
        if self.sound_timer > 0 {
            self.sound_timer = self.sound_timer - 1;
        }
    }

    /// The host reports that key `key` (low nibble) went down.
    pub fn key_down(&mut self, key: u8)
        requires
            old(self).wf(),
        ensures
            final(self).wf(),
            final(self)@ == (CpuView {
                keys: old(self)@.keys.update((key & 0xF) as int, true),
                ..old(self)@
            }),
    {
        let k = (key & 0xF) as usize;
        proof {
            assert((key & 0xF) < 16) by (bit_vector);
        }
        self.keys[k] = true;
    }

    /// The host reports that key `key` (low nibble) went up.
    pub fn key_up(&mut self, key: u8)
        requires
            old(self).wf(),
        ensures
            final(self).wf(),
            final(self)@ == (CpuView {
                keys: old(self)@.keys.update((key & 0xF) as int, false),
                ..old(self)@
            }),
    {
        let k = (key & 0xF) as usize;
        proof {
            assert((key & 0xF) < 16) by (bit_vector);
        }
        self.keys[k] = false;
    }

    /// Select the compatibility profile for the run.
    pub fn set_compat(&mut self, compat: CompatLevel)
        requires
            old(self).wf(),
        ensures
            final(self).wf(),
            final(self)@ == (CpuView { compat, ..old(self)@ }),
    {
        self.compat = compat;
    }

    /// Choose the self-jump policy: strict halts on a jump to itself,
    /// lenient lets it spin.
    pub fn set_strict(&mut self, strict: bool)
        requires
            old(self).wf(),
        ensures
            final(self).wf(),
            final(self)@ == (CpuView { strict, ..old(self)@ }),
    {
        self.strict = strict;
    }

    pub fn get_pc(&self) -> (r: u16)
        ensures
            r == self@.pc,
    {
        self.pc
    }

    pub fn get_ir(&self) -> (r: u16)
        ensures
            r == self@.ir,
    {
        self.ir
    }

    pub fn get_sp(&self) -> (r: u8)
        ensures
            r == self@.sp,
    {
        self.sp
    }

    pub fn get_delay_timer(&self) -> (r: u8)
        ensures
            r == self@.delay_timer,
    {
        self.delay_timer
    }

    pub fn get_sound_timer(&self) -> (r: u8)
        ensures
            r == self@.sound_timer,
    {
        self.sound_timer
    }

    pub fn get_register(&self, i: u8) -> (r: u8)
        requires
            self.wf(),
            i < 16,
        ensures
            r == self@.regs[i as int],
    {
        self.registers[i as usize]
    }

    pub fn is_halted(&self) -> (r: bool)
        ensures
            r == self@.halted,
    {
        self.halted
    }

    /// The conditional instructions' skip: the program counter moves two
    /// bytes onward, wrapping in the address space.
    fn skip_pc(&mut self)
        requires
            old(self).wf(),
        ensures
            final(self).wf(),
            final(self)@ == spec_skip(old(self)@),
    {
        self.pc = (self.pc + 2) % MEM_SIZE;
    }

    /// A store that drops out-of-range addresses, the building block of
    /// the instructions that write memory.
    fn poke(&mut self, addr: u32, data: u8)
        requires
            old(self).wf(),
        ensures
            final(self).wf(),
            final(self)@ == (CpuView {
                mem: spec_write_or_drop(old(self)@.mem, addr as int, data),
                ..old(self)@
            }),
    {
        if addr < MEM_SIZE as u32 {
            self.memory[addr as usize] = data;
        }
    }

    fn exec_sys(&mut self, opcode: u16) -> (r: StepOutcome)
        requires
            old(self).wf(),
        ensures
            final(self).wf(),
            (final(self)@, r) == spec_exec_sys(old(self)@, opcode),
    {
        if opcode == 0x00E0 {
            self.screen.clear();
            proof {
                assert(self@.screen.pixels == Seq::new(
                    old(self)@.screen.pixels.len(),
                    |i: int| 0u8,
                ));
            }
            StepOutcome::Executed
        } else if opcode == 0x00EE {
            if self.sp > 0 {
                self.sp = self.sp - 1;
                self.pc = self.stack[self.sp as usize];
            }
            StepOutcome::Executed
        } else {
            StepOutcome::Unimplemented(opcode)
        }
    }

    fn exec_alu(&mut self, opcode: u16) -> (r: StepOutcome)
        requires
            old(self).wf(),
        ensures
            final(self).wf(),
            (final(self)@, r) == spec_exec_alu(old(self)@, opcode),
    {
        let x = ((opcode >> 8) & 0xF) as usize;
        let y = ((opcode >> 4) & 0xF) as usize;
        let n = opcode & 0xF;
        proof {
            assert(((opcode >> 8) & 0xF) < 16) by (bit_vector);
            assert(((opcode >> 4) & 0xF) < 16) by (bit_vector);
        }
        let vx = self.registers[x];
        let vy = self.registers[y];
        if n == 0 {
            self.registers[x] = vy;
            StepOutcome::Executed
        } else if n == 1 {
            self.registers[x] = vx | vy;
            if self.compat.resets_vf_on_logic() {
                self.registers[15] = 0;
            }
            StepOutcome::Executed
        } else if n == 2 {
            self.registers[x] = vx & vy;
            if self.compat.resets_vf_on_logic() {
                self.registers[15] = 0;
            }
            StepOutcome::Executed
        } else if n == 3 {
            self.registers[x] = vx ^ vy;
            if self.compat.resets_vf_on_logic() {
                self.registers[15] = 0;
            }
            StepOutcome::Executed
        } else if n == 4 {
            let sum: u16 = vx as u16 + vy as u16;
            self.registers[x] = (sum % 256) as u8;
            self.registers[15] = if sum > 255 {
                1
            } else {
                0
            };
            StepOutcome::Executed
        } else if n == 5 {
            self.registers[15] = if vx > vy {
                1
            } else {
                0
            };
            self.registers[x] = ((vx as u16 + 256 - vy as u16) % 256) as u8;
            StepOutcome::Executed
        } else if n == 6 {
            let src = if self.compat.shift_uses_y() {
                vy
            } else {
                vx
            };
            self.registers[x] = src >> 1;
            self.registers[15] = src & 1;
            StepOutcome::Executed
        } else if n == 7 {
            self.registers[15] = if vy > vx {
                1
            } else {
                0
            };
            self.registers[x] = ((vy as u16 + 256 - vx as u16) % 256) as u8;
            StepOutcome::Executed
        } else if n == 0xE {
            let src = if self.compat.shift_uses_y() {
                vy
            } else {
                vx
            };
            self.registers[x] = ((src as u16 * 2) % 256) as u8;
            self.registers[15] = src >> 7;
            StepOutcome::Executed
        } else {
            StepOutcome::Unimplemented(opcode)
        }
    }

    fn exec_draw(&mut self, opcode: u16) -> (r: StepOutcome)
        requires
            old(self).wf(),
        ensures
            final(self).wf(),
            (final(self)@, r) == spec_exec_draw(old(self)@, opcode),
    {
        let x = ((opcode >> 8) & 0xF) as usize;
        let y = ((opcode >> 4) & 0xF) as usize;
        let n = (opcode & 0xF) as usize;
        proof {
            assert(((opcode >> 8) & 0xF) < 16) by (bit_vector);
            assert(((opcode >> 4) & 0xF) < 16) by (bit_vector);
            assert((opcode & 0xF) < 16) by (bit_vector);
        }
        let vx = self.registers[x];
        let vy = self.registers[y];
        let sx = vx % self.screen.xmax;
        let sy = vy % self.screen.ymax;
        let mut rows: Vec<u8> = Vec::new();
        let mut i: usize = 0;
        while i < n
            invariant
                self == old(self),
                self.wf(),
                i <= n,
                n < 16,
                rows@.len() == i,
                forall|k: int|
                    0 <= k < i ==> rows@[k] == spec_read_or_zero(self@.mem, self@.ir + k),
            decreases n - i,
        {
            let addr: u32 = self.ir as u32 + i as u32;
            let b: u8 = if addr < MEM_SIZE as u32 {
                self.memory[addr as usize]
            } else {
                0
            };
            rows.push(b);
            i += 1;
        }
        proof {
            assert(rows@ =~= spec_sprite_rows(self@.mem, self@.ir as int, n as int));
        }
        let wrap = self.compat.sprite_wraps();
        let collided = self.screen.draw_sprite(sx, sy, &rows, wrap);
        self.registers[15] = if collided {
            1
        } else {
            0
        };
        StepOutcome::Executed
    }

    fn exec_misc(&mut self, opcode: u16) -> (r: StepOutcome)
        requires
            old(self).wf(),
        ensures
            final(self).wf(),
            (final(self)@, r) == spec_exec_misc(old(self)@, opcode),
    {
        let x = ((opcode >> 8) & 0xF) as usize;
        let nn = (opcode & 0xFF) as u8;
        proof {
            assert(((opcode >> 8) & 0xF) < 16) by (bit_vector);
        }
        let vx = self.registers[x];
        if nn == 0x07 {
            self.registers[x] = self.delay_timer;
            StepOutcome::Executed
        } else if nn == 0x15 {
            self.delay_timer = vx;
            StepOutcome::Executed
        } else if nn == 0x18 {
            self.sound_timer = vx;
            StepOutcome::Executed
        } else if nn == 0x1E {
            let sum: u16 = ((self.ir as u32 + vx as u32) % 0x10000) as u16;
            if sum > 0xFFF && self.compat.index_overflow_flags() {
                self.registers[15] = 1;
                self.ir = sum - 0xFFF;
            } else {
                self.ir = sum;
            }
            StepOutcome::Executed
        } else if nn == 0x29 {
            proof {
                assert((vx & 0xF) < 16) by (bit_vector);
            }
            self.ir = FONT_BASE + (vx & 0xF) as u16 * 5;
            StepOutcome::Executed
        } else if nn == 0x33 {
            let base: u32 = self.ir as u32;
            self.poke(base, (vx / 100) % 10);
            self.poke(base + 1, (vx / 10) % 10);
            self.poke(base + 2, vx % 10);
            StepOutcome::Executed
        } else if nn == 0x55 {
            let ghost m0 = self@.mem;
            let ghost r0 = self@.regs;
            let ghost ir0 = self@.ir as int;
            let mut i: usize = 0;
            while i <= x
                invariant
                    self.wf(),
                    i <= x + 1,
                    x < 16,
                    self@.regs == r0,
                    self@.ir as int == ir0,
                    self@ == (CpuView { mem: self@.mem, ..old(self)@ }),
                    spec_store_regs(m0, r0, ir0, 0, x as int) == spec_store_regs(
                        self@.mem,
                        r0,
                        ir0,
                        i as int,
                        x as int,
                    ),
                decreases x + 1 - i,
            {
                let addr: u32 = self.ir as u32 + i as u32;
                let data = self.registers[i];
                self.poke(addr, data);
                i += 1;
            }
            if self.compat.store_load_advances_i() {
                self.ir = ((self.ir as u32 + x as u32 + 1) % 0x10000) as u16;
            }
            StepOutcome::Executed
        } else if nn == 0x65 {
            let ghost m0 = self@.mem;
            let ghost r0 = self@.regs;
            let ghost ir0 = self@.ir as int;
            let mut i: usize = 0;
            while i <= x
                invariant
                    self.wf(),
                    i <= x + 1,
                    x < 16,
                    self@.mem == m0,
                    self@.ir as int == ir0,
                    self@ == (CpuView { regs: self@.regs, ..old(self)@ }),
                    spec_load_regs(r0, m0, ir0, 0, x as int) == spec_load_regs(
                        self@.regs,
                        m0,
                        ir0,
                        i as int,
                        x as int,
                    ),
                decreases x + 1 - i,
            {
                let addr: u32 = self.ir as u32 + i as u32;
                let b: u8 = if addr < MEM_SIZE as u32 {
                    self.memory[addr as usize]
                } else {
                    0
                };
                self.registers[i] = b;
                i += 1;
            }
            if self.compat.store_load_advances_i() {
                self.ir = ((self.ir as u32 + x as u32 + 1) % 0x10000) as u16;
            }
            StepOutcome::Executed
        } else {
            StepOutcome::Unimplemented(opcode)
        }
    }

    /// One decoded instruction executed on the current state, the program
    /// counter already advanced past it. `self_addr` is the address the
    /// instruction was fetched from and `rb` the byte the random-number
    /// source supplied; given those, the effect is exactly the model's.
    pub fn exec_opcode(&mut self, opcode: u16, self_addr: u16, rb: u8) -> (r: StepOutcome)
        requires
            old(self).wf(),
        ensures
            final(self).wf(),
            (final(self)@, r) == spec_exec(old(self)@, opcode, self_addr, rb),
    {
        let fam = opcode >> 12;
        let x = ((opcode >> 8) & 0xF) as usize;
        let n = opcode & 0xF;
        let nn = (opcode & 0xFF) as u8;
        let nnn = opcode & 0xFFF;
        proof {
            assert(((opcode >> 8) & 0xF) < 16) by (bit_vector);
            assert(((opcode >> 4) & 0xF) < 16) by (bit_vector);
            assert((opcode & 0xFFF) < 4096) by (bit_vector);
        }
        if fam == 0x0 {
            self.exec_sys(opcode)
        } else if fam == 0x1 {
            self.pc = nnn;
            if self.strict && nnn == self_addr {
                self.halted = true;
                StepOutcome::Halted
            } else {
                StepOutcome::Executed
            }
        } else if fam == 0x2 {
            self.stack[self.sp as usize] = self.pc;
            self.sp = if self.sp >= 15 {
                15
            } else {
                self.sp + 1
            };
            self.pc = nnn;
            StepOutcome::Executed
        } else if fam == 0x3 {
            if self.registers[x] == nn {
                self.skip_pc();
            }
            StepOutcome::Executed
        } else if fam == 0x4 {
            if self.registers[x] != nn {
                self.skip_pc();
            }
            StepOutcome::Executed
        } else if fam == 0x5 {
            if n == 0 {
                let y = ((opcode >> 4) & 0xF) as usize;
                if self.registers[x] == self.registers[y] {
                    self.skip_pc();
                }
                StepOutcome::Executed
            } else {
                StepOutcome::Unimplemented(opcode)
            }
        } else if fam == 0x6 {
            self.registers[x] = nn;
            StepOutcome::Executed
        } else if fam == 0x7 {
            let vx = self.registers[x];
            self.registers[x] = ((vx as u16 + nn as u16) % 256) as u8;
            StepOutcome::Executed
        } else if fam == 0x8 {
            self.exec_alu(opcode)
        } else if fam == 0x9 {
            if n == 0 {
                let y = ((opcode >> 4) & 0xF) as usize;
                if self.registers[x] != self.registers[y] {
                    self.skip_pc();
                }
                StepOutcome::Executed
            } else {
                StepOutcome::Unimplemented(opcode)
            }
        } else if fam == 0xA {
            self.ir = nnn;
            StepOutcome::Executed
        } else if fam == 0xB {
            let offset = if self.compat.jump_uses_vx() {
                self.registers[x]
            } else {
                self.registers[0]
            };
            self.pc = ((nnn as u32 + offset as u32) % MEM_SIZE as u32) as u16;
            StepOutcome::Executed
        } else if fam == 0xC {
            self.registers[x] = rb & nn;
            StepOutcome::Executed
        } else if fam == 0xD {
            self.exec_draw(opcode)
        } else if fam == 0xE {
            if nn == 0x9E || nn == 0xA1 {
                let vx = self.registers[x];
                let k = (vx & 0xF) as usize;
                proof {
                    assert((vx & 0xF) < 16) by (bit_vector);
                }
                let down = self.keys[k];
                if (nn == 0x9E && down) || (nn == 0xA1 && !down) {
                    self.skip_pc();
                }
                StepOutcome::Executed
            } else {
                StepOutcome::Unimplemented(opcode)
            }
        } else {
            self.exec_misc(opcode)
        }
    }

    /// One fetch-decode-execute cycle. Once halted nothing moves; otherwise
    /// the two bytes at the program counter (a failed read contributing the
    /// defined substitute 0) form the opcode, the counter advances by two
    /// (mod 4096), and the opcode runs. The whole effect is the model's
    /// transition for some byte from the random-number source.
    pub fn step(&mut self) -> (r: StepOutcome)
        requires
            old(self).wf(),
        ensures
            final(self).wf(),
            exists|rb: u8| (final(self)@, r) == spec_step(old(self)@, rb),
    {
        if self.halted {
            proof {
                let rbw = 0u8;
                assert((self@, StepOutcome::Halted) == spec_step(old(self)@, rbw));
            }
            return StepOutcome::Halted;
        }
        let pc0 = self.pc;
        let hi = match self.read_mem(pc0) {
            Ok(b) => b,
            Err(_) => 0,
        };
        let lo = match self.read_mem(pc0 + 1) {
            Ok(b) => b,
            Err(_) => 0,
        };
        let opcode: u16 = ((hi as u16) << 8) | (lo as u16);
        proof {
            assert(((hi as u16) << 8) | (lo as u16) == hi as u16 * 256 + lo as u16)
                by (bit_vector);
            assert(opcode == spec_fetch(old(self)@));
        }
        self.pc = (pc0 + 2) % MEM_SIZE;
        let rb: u8 = if opcode >> 12 == 0xC {
            rand::random::<u8>()
        } else {
            0
        };
        proof {
            assert(self@ == (CpuView {
                pc: ((old(self)@.pc + 2) % (MEM_SIZE as int)) as u16,
                ..old(self)@
            }));
        }
        let r = self.exec_opcode(opcode, pc0, rb);
        proof {
            assert((self@, r) == spec_step(old(self)@, rb));
        }
        r
    }
}

} // verus!
