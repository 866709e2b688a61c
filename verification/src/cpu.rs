use vstd::prelude::*;

use crate::decode::{decode, op_addr, op_family, op_kk, op_n, op_x, op_y};
use crate::draw::{draw_collides, draw_result, draw_sprite, SCREEN_HEIGHT, SCREEN_WIDTH};
use crate::error::Error;
use crate::framebuffer::Framebuffer;
use crate::memory::Memory;

verus! {

/// Mathematical model of the whole machine: register file, address
/// register, timers, program counter, stack, memory, framebuffer, key
/// snapshot, and the pending key-wait register.
pub struct CpuView {
    pub v: Seq<u8>,
    pub i: u16,
    pub dt: u8,
    pub st: u8,
    pub pc: u16,
    pub sp: u8,
    pub stack: Seq<u16>,
    pub mem: Seq<u8>,
    pub fb: Seq<bool>,
    pub keys: Seq<bool>,
    pub waiting: Option<u8>,
}

/// The machine: sixteen 8-bit registers, the 16-bit address register I,
/// the delay and sound timers, program counter, stack pointer, a 16-entry
/// stack of return addresses, the addressable memory, the 64x32
/// framebuffer, the pressed-state snapshot of the 16 logical keys, and
/// the register index pending a blocking key wait, if any.
pub struct CPU {
    v: Vec<u8>,
    i: u16,
    dt: u8,
    st: u8,
    pc: u16,
    sp: u8,
    stack: Vec<u16>,
    memory: Memory,
    framebuffer: Framebuffer,
    keys: Vec<bool>,
    waiting: Option<u8>,
}

impl View for CPU {
    type V = CpuView;

    closed spec fn view(&self) -> CpuView {
        CpuView {
            v: self.v@,
            i: self.i,
            dt: self.dt,
            st: self.st,
            pc: self.pc,
            sp: self.sp,
            stack: self.stack@,
            mem: self.memory@,
            fb: self.framebuffer@.data,
            keys: self.keys@,
            waiting: self.waiting,
        }
    }
}

/// Program counter after a non-skipping instruction: two bytes onward.
pub open spec fn next_pc(pc: u16) -> u16 {
    pc.wrapping_add(2)
}

/// Program counter after a conditional-skip instruction.
pub open spec fn skip_pc(pc: u16, skip: bool) -> u16 {
    if skip {
        pc.wrapping_add(4)
    } else {
        pc.wrapping_add(2)
    }
}

/// Family 0x0: clear screen, return, or the legacy machine jump.
pub open spec fn sem_sys(pre: CpuView, post: CpuView, ins: u16, r: Result<(), Error>) -> bool {
    if op_kk(ins) == 0xE0 {
        // 00E0: every framebuffer cell goes dark.
        &&& r == Ok::<(), Error>(())
        &&& post == CpuView { fb: Seq::new(2048, |p: int| false), pc: next_pc(pre.pc), ..pre }
    } else if op_kk(ins) == 0xEE {
        // 00EE: pop the stack into the program counter.
        if pre.sp == 0 {
            &&& r == Err::<(), Error>(Error::StackUnderflow { pc: pre.pc, instruction: ins })
            &&& post == pre
        } else {
            &&& r == Ok::<(), Error>(())
            &&& post == CpuView {
                sp: (pre.sp - 1) as u8,
                pc: pre.stack[pre.sp - 1],
                ..pre
            }
        }
    } else {
        // 0nnn: legacy machine call, treated as a jump.
        &&& r == Ok::<(), Error>(())
        &&& post == CpuView { pc: op_addr(ins), ..pre }
    }
}

/// Family 0x2: call, pushing the address of the following instruction.
pub open spec fn sem_call(pre: CpuView, post: CpuView, ins: u16, r: Result<(), Error>) -> bool {
    if pre.sp >= 16 {
        &&& r == Err::<(), Error>(Error::StackOverflow { pc: pre.pc, instruction: ins })
        &&& post == pre
    } else {
        &&& r == Ok::<(), Error>(())
        &&& post == CpuView {
            stack: pre.stack.update(pre.sp as int, next_pc(pre.pc)),
            sp: (pre.sp + 1) as u8,
            pc: op_addr(ins),
            ..pre
        }
    }
}

/// Family 0x8: register-to-register arithmetic and logic.  The flag
/// register V[F] is written before the destination, so an instruction
/// whose `x` is 0xF sees its own flag, exactly as the reference machine
/// does.
pub open spec fn sem_alu(pre: CpuView, post: CpuView, ins: u16, r: Result<(), Error>) -> bool {
    let xi = op_x(ins) as int;
    let yi = op_y(ins) as int;
    let pc2 = next_pc(pre.pc);
    &&& r == Ok::<(), Error>(())
    &&& if op_n(ins) == 0 {
        post == CpuView { v: pre.v.update(xi, pre.v[yi]), pc: pc2, ..pre }
    } else if op_n(ins) == 1 {
        post == CpuView { v: pre.v.update(xi, pre.v[xi] | pre.v[yi]), pc: pc2, ..pre }
    } else if op_n(ins) == 2 {
        post == CpuView { v: pre.v.update(xi, pre.v[xi] & pre.v[yi]), pc: pc2, ..pre }
    } else if op_n(ins) == 3 {
        post == CpuView { v: pre.v.update(xi, pre.v[xi] ^ pre.v[yi]), pc: pc2, ..pre }
    } else if op_n(ins) == 4 {
        // 8xy4: 16-bit sum; low byte to V[x], carry to V[F].
        let sum = pre.v[xi] as int + pre.v[yi] as int;
        let flag: u8 = if sum > 255 {
            1
        } else {
            0
        };
        post == CpuView {
            v: pre.v.update(xi, pre.v[xi].wrapping_add(pre.v[yi])).update(15, flag),
            pc: pc2,
            ..pre
        }
    } else if op_n(ins) == 5 {
        // 8xy5: not-borrow to V[F], then wrapping difference to V[x].
        let flag: u8 = if pre.v[xi] > pre.v[yi] {
            1
        } else {
            0
        };
        let v1 = pre.v.update(15, flag);
        post == CpuView { v: v1.update(xi, v1[xi].wrapping_sub(v1[yi])), pc: pc2, ..pre }
    } else if op_n(ins) == 6 {
        // 8xy6: least significant bit to V[F], then halve V[x].
        let flag: u8 = pre.v[xi] & 1;
        let v1 = pre.v.update(15, flag);
        post == CpuView { v: v1.update(xi, v1[xi] / 2), pc: pc2, ..pre }
    } else if op_n(ins) == 7 {
        // 8xy7: not-borrow to V[F], then V[y] minus V[x] to V[x].
        let flag: u8 = if pre.v[yi] > pre.v[xi] {
            1
        } else {
            0
        };
        let v1 = pre.v.update(15, flag);
        post == CpuView { v: v1.update(xi, v1[yi].wrapping_sub(v1[xi])), pc: pc2, ..pre }
    } else if op_n(ins) == 0xE {
        // 8xyE: most significant bit to V[F], then double V[x].
        let flag: u8 = if pre.v[xi] & 0x80 != 0 {
            1
        } else {
            0
        };
        let v1 = pre.v.update(15, flag);
        post == CpuView { v: v1.update(xi, v1[xi].wrapping_mul(2)), pc: pc2, ..pre }
    } else {
        // Unrecognized suffix: a deliberate no-op.
        post == CpuView { pc: pc2, ..pre }
    }
}

/// Family 0xD: XOR-draw an `n`-row sprite from memory at I onto the
/// screen at (V[x], V[y]); V[F] reports whether a lit pixel was erased.
pub open spec fn sem_draw(pre: CpuView, post: CpuView, ins: u16, r: Result<(), Error>) -> bool {
    let n = op_n(ins) as int;
    let i0 = pre.i as int;
    if n == 0 {
        // A zero-row sprite reads no memory and plots nothing; the
        // collision flag still clears.
        &&& r == Ok::<(), Error>(())
        &&& post == CpuView { v: pre.v.update(15, 0u8), pc: next_pc(pre.pc), ..pre }
    } else if i0 + n > 4096 {
        &&& r == Err::<(), Error>(Error::OutOfRangeAddress {
            addr: pre.i,
            pc: pre.pc,
            instruction: ins,
        })
        &&& post == pre
    } else {
        let sprite = pre.mem.subrange(i0, i0 + n);
        let x0 = pre.v[op_x(ins) as int] as int;
        let y0 = pre.v[op_y(ins) as int] as int;
        let flag: u8 = if draw_collides(pre.fb, sprite, x0, y0) {
            1
        } else {
            0
        };
        &&& r == Ok::<(), Error>(())
        &&& post == CpuView {
            fb: draw_result(pre.fb, sprite, x0, y0),
            v: pre.v.update(15, flag),
            pc: next_pc(pre.pc),
            ..pre
        }
    }
}

/// Family 0xE: skip on the key numbered V[x] being pressed or released.
/// A key number above 0xF is fatal, as indexing past the 16-key matrix
/// would be.
pub open spec fn sem_key(pre: CpuView, post: CpuView, ins: u16, r: Result<(), Error>) -> bool {
    let xi = op_x(ins) as int;
    if op_kk(ins) == 0x9E || op_kk(ins) == 0xA1 {
        if pre.v[xi] > 0xF {
            &&& r == Err::<(), Error>(Error::InvalidDigit {
                value: pre.v[xi],
                pc: pre.pc,
                instruction: ins,
            })
            &&& post == pre
        } else {
            let pressed = pre.keys[pre.v[xi] as int];
            let skip = if op_kk(ins) == 0x9E {
                pressed
            } else {
                !pressed
            };
            &&& r == Ok::<(), Error>(())
            &&& post == CpuView { pc: skip_pc(pre.pc, skip), ..pre }
        }
    } else {
        &&& r == Ok::<(), Error>(())
        &&& post == CpuView { pc: next_pc(pre.pc), ..pre }
    }
}

/// Family 0xF: timers, key wait, address-register arithmetic, glyph
/// lookup, binary-coded decimal, and the register range store and load.
pub open spec fn sem_misc(pre: CpuView, post: CpuView, ins: u16, r: Result<(), Error>) -> bool {
    let xi = op_x(ins) as int;
    let pc2 = next_pc(pre.pc);
    let kk = op_kk(ins);
    if kk == 0x07 {
        // Fx07: read the delay timer.
        &&& r == Ok::<(), Error>(())
        &&& post == CpuView { v: pre.v.update(xi, pre.dt), pc: pc2, ..pre }
    } else if kk == 0x0A {
        // Fx0A: suspend instruction advancement until a key is pressed.
        &&& r == Ok::<(), Error>(())
        &&& post == CpuView { waiting: Some(op_x(ins)), pc: pc2, ..pre }
    } else if kk == 0x15 {
        &&& r == Ok::<(), Error>(())
        &&& post == CpuView { dt: pre.v[xi], pc: pc2, ..pre }
    } else if kk == 0x18 {
        &&& r == Ok::<(), Error>(())
        &&& post == CpuView { st: pre.v[xi], pc: pc2, ..pre }
    } else if kk == 0x1E {
        // Fx1E: 16-bit add onto I; no overflow flag is defined.
        &&& r == Ok::<(), Error>(())
        &&& post == CpuView { i: pre.i.wrapping_add(pre.v[xi] as u16), pc: pc2, ..pre }
    } else if kk == 0x29 {
        // Fx29: I points at the glyph sprite for digit V[x].
        if pre.v[xi] > 0xF {
            &&& r == Err::<(), Error>(Error::InvalidDigit {
                value: pre.v[xi],
                pc: pre.pc,
                instruction: ins,
            })
            &&& post == pre
        } else {
            &&& r == Ok::<(), Error>(())
            &&& post == CpuView { i: (5 * pre.v[xi]) as u16, pc: pc2, ..pre }
        }
    } else if kk == 0x33 {
        // Fx33: the three decimal digits of V[x] to memory at I.
        if pre.i as int + 3 > 4096 {
            &&& r == Err::<(), Error>(Error::OutOfRangeAddress {
                addr: pre.i,
                pc: pre.pc,
                instruction: ins,
            })
            &&& post == pre
        } else {
            let val = pre.v[xi];
            &&& r == Ok::<(), Error>(())
            &&& post == CpuView {
                mem: pre.mem.update(pre.i as int, val / 100).update(
                    pre.i as int + 1,
                    (val % 100) / 10,
                ).update(pre.i as int + 2, val % 10),
                pc: pc2,
                ..pre
            }
        }
    } else if kk == 0x55 {
        // Fx55: store V[0]..V[x] at I; I advances past the stored range.
        if pre.i as int + op_x(ins) as int + 1 > 4096 {
            &&& r == Err::<(), Error>(Error::OutOfRangeAddress {
                addr: pre.i,
                pc: pre.pc,
                instruction: ins,
            })
            &&& post == pre
        } else {
            let i0 = pre.i as int;
            &&& r == Ok::<(), Error>(())
            &&& post == CpuView {
                mem: Seq::new(
                    4096,
                    |a: int|
                        if i0 <= a <= i0 + op_x(ins) {
                            pre.v[a - i0]
                        } else {
                            pre.mem[a]
                        },
                ),
                i: (pre.i + op_x(ins) + 1) as u16,
                pc: pc2,
                ..pre
            }
        }
    } else if kk == 0x65 {
        // Fx65: load V[0]..V[x] from I; I advances past the loaded range.
        if pre.i as int + op_x(ins) as int + 1 > 4096 {
            &&& r == Err::<(), Error>(Error::OutOfRangeAddress {
                addr: pre.i,
                pc: pre.pc,
                instruction: ins,
            })
            &&& post == pre
        } else {
            let i0 = pre.i as int;
            &&& r == Ok::<(), Error>(())
            &&& post == CpuView {
                v: Seq::new(
                    16,
                    |k: int|
                        if k <= op_x(ins) {
                            pre.mem[i0 + k]
                        } else {
                            pre.v[k]
                        },
                ),
                i: (pre.i + op_x(ins) + 1) as u16,
                pc: pc2,
                ..pre
            }
        }
    } else {
        // Unrecognized suffix: a deliberate no-op.
        &&& r == Ok::<(), Error>(())
        &&& post == CpuView { pc: pc2, ..pre }
    }
}

/// The state transition `run_instruction` performs: exactly one opcode
/// applied to the machine, including which inputs fail and with which
/// error.  Unrecognized opcodes advance the program counter and change
/// nothing else.
pub open spec fn sem_step(pre: CpuView, post: CpuView, ins: u16, r: Result<(), Error>) -> bool {
    let f = op_family(ins);
    let xi = op_x(ins) as int;
    let yi = op_y(ins) as int;
    let pc2 = next_pc(pre.pc);
    if f == 0 {
        sem_sys(pre, post, ins, r)
    } else if f == 1 {
        // 1nnn: jump.
        r == Ok::<(), Error>(()) && post == CpuView { pc: op_addr(ins), ..pre }
    } else if f == 2 {
        sem_call(pre, post, ins, r)
    } else if f == 3 {
        // 3xkk: skip if V[x] == kk.
        r == Ok::<(), Error>(()) && post == CpuView {
            pc: skip_pc(pre.pc, pre.v[xi] == op_kk(ins)),
            ..pre
        }
    } else if f == 4 {
        // 4xkk: skip if V[x] != kk.
        r == Ok::<(), Error>(()) && post == CpuView {
            pc: skip_pc(pre.pc, pre.v[xi] != op_kk(ins)),
            ..pre
        }
    } else if f == 5 {
        // 5xy0: skip if V[x] == V[y]; other suffixes are no-ops.
        r == Ok::<(), Error>(()) && post == CpuView {
            pc: if op_n(ins) == 0 {
                skip_pc(pre.pc, pre.v[xi] == pre.v[yi])
            } else {
                pc2
            },
            ..pre
        }
    } else if f == 6 {
        // 6xkk: load the immediate into V[x].
        r == Ok::<(), Error>(()) && post == CpuView {
            v: pre.v.update(xi, op_kk(ins)),
            pc: pc2,
            ..pre
        }
    } else if f == 7 {
        // 7xkk: add the immediate to V[x], wrapping, no flag.
        r == Ok::<(), Error>(()) && post == CpuView {
            v: pre.v.update(xi, pre.v[xi].wrapping_add(op_kk(ins))),
            pc: pc2,
            ..pre
        }
    } else if f == 8 {
        sem_alu(pre, post, ins, r)
    } else if f == 9 {
        // 9xy0: skip if V[x] != V[y]; other suffixes are no-ops.
        r == Ok::<(), Error>(()) && post == CpuView {
            pc: if op_n(ins) == 0 {
                skip_pc(pre.pc, pre.v[xi] != pre.v[yi])
            } else {
                pc2
            },
            ..pre
        }
    } else if f == 0xA {
        // Annn: load the address register.
        r == Ok::<(), Error>(()) && post == CpuView { i: op_addr(ins), pc: pc2, ..pre }
    } else if f == 0xB {
        // Bnnn: jump to nnn plus V[0].
        r == Ok::<(), Error>(()) && post == CpuView {
            pc: (op_addr(ins) + pre.v[0]) as u16,
            ..pre
        }
    } else if f == 0xC {
        // Cxkk: V[x] gets a byte that is masked by kk; nothing more is
        // promised of the byte, which comes from a random source.
        &&& r == Ok::<(), Error>(())
        &&& (post.v[xi] & op_kk(ins)) == post.v[xi]
        &&& post == CpuView { v: pre.v.update(xi, post.v[xi]), pc: pc2, ..pre }
    } else if f == 0xD {
        sem_draw(pre, post, ins, r)
    } else if f == 0xE {
        sem_key(pre, post, ins, r)
    } else {
        sem_misc(pre, post, ins, r)
    }
}

impl CPU {
    /// Structural soundness of the machine: all the fixed sizes hold and
    /// a pending key wait names a real register.
    pub open spec fn wf(&self) -> bool {
        &&& self.inv()
        &&& self@.v.len() == 16
        &&& self@.stack.len() == 16
        &&& self@.sp <= 16
        &&& self@.mem.len() == 4096
        &&& self@.fb.len() == 2048
        &&& self@.keys.len() == 16
        &&& (self@.waiting matches Some(x) ==> x < 16)
    }

    /// Internal consistency of the components behind the view.
    pub closed spec fn inv(&self) -> bool {
        &&& self.memory.wf()
        &&& self.framebuffer.wf()
        &&& self.framebuffer@.width == 64
        &&& self.framebuffer@.height == 32
    }

    /// The machine as reset: registers, timers and stack zeroed, memory
    /// seeded with the glyph table, the screen dark, no key pressed, no
    /// key wait pending, and execution about to start at 0x200.
    pub open spec fn initial_view() -> CpuView {
        CpuView {
            v: Seq::new(16, |k: int| 0u8),
            i: 0,
            dt: 0,
            st: 0,
            pc: 0x200,
            sp: 0,
            stack: Seq::new(16, |k: int| 0u16),
            mem: Memory::initial_contents(),
            fb: Seq::new(2048, |p: int| false),
            keys: Seq::new(16, |k: int| false),
            waiting: None,
        }
    }

    /// Build the machine in its reset state.
    pub fn new() -> (cpu: CPU)
        ensures
            cpu.wf(),
            cpu@ == Self::initial_view(),
    {
        let mut v: Vec<u8> = Vec::new();
        let mut n: usize = 0;
        while n < 16
            invariant
                n <= 16,
                v@.len() == n,
                forall|k: int| 0 <= k < n ==> v@[k] == 0u8,
            decreases 16 - n,
        {
            v.push(0u8);
            n += 1;
        }
        let mut stack: Vec<u16> = Vec::new();
        let mut m: usize = 0;
        while m < 16
            invariant
                m <= 16,
                stack@.len() == m,
                forall|k: int| 0 <= k < m ==> stack@[k] == 0u16,
            decreases 16 - m,
        {
            stack.push(0u16);
            m += 1;
        }
        let mut keys: Vec<bool> = Vec::new();
        let mut p: usize = 0;
        while p < 16
            invariant
                p <= 16,
                keys@.len() == p,
                forall|k: int| 0 <= k < p ==> !keys@[k],
            decreases 16 - p,
        {
            keys.push(false);
            p += 1;
        }
        let cpu = CPU {
            v,
            i: 0,
            dt: 0,
            st: 0,
            pc: 0x200,
            sp: 0,
            stack,
            memory: Memory::new(),
            framebuffer: Framebuffer::new(SCREEN_WIDTH, SCREEN_HEIGHT),
            keys,
            waiting: None,
        };
        proof {
            assert(cpu@.v =~= Self::initial_view().v);
            assert(cpu@.stack =~= Self::initial_view().stack);
            assert(cpu@.keys =~= Self::initial_view().keys);
            assert(cpu@.fb =~= Self::initial_view().fb);
            assert(cpu@ == Self::initial_view());
        }
        cpu
    }

    /// Copy a program image into memory at 0x200.  Fails, changing
    /// nothing, exactly when the image would run past the end of memory.
    pub fn load_program(&mut self, program: &[u8]) -> (r: Result<(), Error>)
        requires
            old(self).wf(),
        ensures
            final(self).wf(),
            r is Ok <==> program@.len() <= 4096 - 0x200,
            r is Ok ==> final(self)@ == (CpuView {
                mem: Seq::new(
                    4096,
                    |a: int|
                        if 0x200 <= a < 0x200 + program@.len() {
                            program@[a - 0x200]
                        } else {
                            old(self)@.mem[a]
                        },
                ),
                ..old(self)@
            }),
            r is Err ==> *final(self) == *old(self) && r == (Err::<(), Error>(
                Error::ProgramTooLarge { len: program@.len() as usize },
            )),
    {
        self.memory.load_program(program)
    }

    /// Record one key of the input matrix as pressed or released.  The
    /// input collaborator calls this; the core itself only reads keys.
    pub fn set_key(&mut self, key: u8, pressed: bool)
        requires
            old(self).wf(),
            key < 16,
        ensures
            final(self).wf(),
            final(self)@ == (CpuView {
                keys: old(self)@.keys.update(key as int, pressed),
                ..old(self)@
            }),
    {
        self.keys[key as usize] = pressed;
    }

    /// Execute one already-fetched instruction against the machine.
    /// Every transition, including which inputs are fatal and with which
    /// error, is pinned down by `sem_step`.
    pub fn run_instruction(&mut self, instruction: u16) -> (r: Result<(), Error>)
        requires
            old(self).wf(),
        ensures
            final(self).wf(),
            sem_step(old(self)@, final(self)@, instruction, r),
    {
        let d = decode(instruction);
        match d.family {
            0 => {
                if d.kk == 0xE0 {
                    self.framebuffer.clear();
                    self.pc = self.pc.wrapping_add(2);
                    proof {
                        assert(self@.fb =~= Seq::new(2048, |p: int| false));
                    }
                    Ok(())
                } else if d.kk == 0xEE {
                    if self.sp == 0 {
                        Err(Error::StackUnderflow { pc: self.pc, instruction })
                    } else {
                        self.sp = self.sp - 1;
                        self.pc = self.stack[self.sp as usize];
                        Ok(())
                    }
                } else {
                    self.pc = d.addr;
                    Ok(())
                }
            },
            1 => {
                self.pc = d.addr;
                Ok(())
            },
            2 => {
                if self.sp >= 16 {
                    Err(Error::StackOverflow { pc: self.pc, instruction })
                } else {
                    self.stack[self.sp as usize] = self.pc.wrapping_add(2);
                    self.sp = self.sp + 1;
                    self.pc = d.addr;
                    Ok(())
                }
            },
            3 => {
                if self.v[d.x as usize] == d.kk {
                    self.pc = self.pc.wrapping_add(4);
                } else {
                    self.pc = self.pc.wrapping_add(2);
                }
                Ok(())
            },
            4 => {
                if self.v[d.x as usize] != d.kk {
                    self.pc = self.pc.wrapping_add(4);
                } else {
                    self.pc = self.pc.wrapping_add(2);
                }
                Ok(())
            },
            5 => {
                if d.n == 0 && self.v[d.x as usize] == self.v[d.y as usize] {
                    self.pc = self.pc.wrapping_add(4);
                } else {
                    self.pc = self.pc.wrapping_add(2);
                }
                Ok(())
            },
            6 => {
                self.v[d.x as usize] = d.kk;
                self.pc = self.pc.wrapping_add(2);
                Ok(())
            },
            7 => {
                let vx = self.v[d.x as usize];
                self.v[d.x as usize] = vx.wrapping_add(d.kk);
                self.pc = self.pc.wrapping_add(2);
                Ok(())
            },
            8 => {
                match d.n {
                    0 => {
                        self.v[d.x as usize] = self.v[d.y as usize];
                    },
                    1 => {
                        let vy = self.v[d.y as usize];
                        let vx = self.v[d.x as usize];
                        self.v[d.x as usize] = vx | vy;
                    },
                    2 => {
                        let vy = self.v[d.y as usize];
                        let vx = self.v[d.x as usize];
                        self.v[d.x as usize] = vx & vy;
                    },
                    3 => {
                        let vy = self.v[d.y as usize];
                        let vx = self.v[d.x as usize];
                        self.v[d.x as usize] = vx ^ vy;
                    },
                    4 => {
                        let vx = self.v[d.x as usize];
                        let vy = self.v[d.y as usize];
                        let flag: u8 = if (vx as u16) + (vy as u16) > 255 {
                            1
                        } else {
                            0
                        };
                        self.v[d.x as usize] = vx.wrapping_add(vy);
                        self.v[15] = flag;
                    },
                    5 => {
                        let flag: u8 = if self.v[d.x as usize] > self.v[d.y as usize] {
                            1
                        } else {
                            0
                        };
                        self.v[15] = flag;
                        let vx = self.v[d.x as usize];
                        let vy = self.v[d.y as usize];
                        self.v[d.x as usize] = vx.wrapping_sub(vy);
                    },
                    6 => {
                        let flag: u8 = self.v[d.x as usize] & 1;
                        self.v[15] = flag;
                        let vx = self.v[d.x as usize];
                        self.v[d.x as usize] = vx / 2;
                    },
                    7 => {
                        let flag: u8 = if self.v[d.y as usize] > self.v[d.x as usize] {
                            1
                        } else {
                            0
                        };
                        self.v[15] = flag;
                        let vx = self.v[d.x as usize];
                        let vy = self.v[d.y as usize];
                        self.v[d.x as usize] = vy.wrapping_sub(vx);
                    },
                    0xE => {
                        let flag: u8 = if self.v[d.x as usize] & 0x80 != 0 {
                            1
                        } else {
                            0
                        };
                        self.v[15] = flag;
                        let vx = self.v[d.x as usize];
                        self.v[d.x as usize] = vx.wrapping_mul(2);
                    },
                    _ => {},
                }
                self.pc = self.pc.wrapping_add(2);
                Ok(())
            },
            9 => {
                if d.n == 0 && self.v[d.x as usize] != self.v[d.y as usize] {
                    self.pc = self.pc.wrapping_add(4);
                } else {
                    self.pc = self.pc.wrapping_add(2);
                }
                Ok(())
            },
            0xA => {
                self.i = d.addr;
                self.pc = self.pc.wrapping_add(2);
                Ok(())
            },
            0xB => {
                self.pc = d.addr + (self.v[0] as u16);
                Ok(())
            },
            0xC => {
                let b = random_byte();
                let kk = d.kk;
                let masked = b & kk;
                proof {
                    assert((b & kk) & kk == b & kk) by (bit_vector);
                }
                self.v[d.x as usize] = masked;
                self.pc = self.pc.wrapping_add(2);
                Ok(())
            },
            0xD => {
                if d.n == 0 {
                    self.v[15] = 0;
                    self.pc = self.pc.wrapping_add(2);
                    Ok(())
                } else if (self.i as usize) + (d.n as usize) > 4096 {
                    Err(Error::OutOfRangeAddress { addr: self.i, pc: self.pc, instruction })
                } else {
                    let sx = self.v[d.x as usize];
                    let sy = self.v[d.y as usize];
                    let collision = draw_sprite(
                        &mut self.framebuffer,
                        &self.memory,
                        self.i,
                        sx,
                        sy,
                        d.n,
                    );
                    self.v[15] = if collision {
                        1
                    } else {
                        0
                    };
                    self.pc = self.pc.wrapping_add(2);
                    Ok(())
                }
            },
            0xE => {
                if d.kk == 0x9E || d.kk == 0xA1 {
                    let vx = self.v[d.x as usize];
                    if vx > 0xF {
                        Err(Error::InvalidDigit { value: vx, pc: self.pc, instruction })
                    } else {
                        let pressed = self.keys[vx as usize];
                        let skip = if d.kk == 0x9E {
                            pressed
                        } else {
                            !pressed
                        };
                        if skip {
                            self.pc = self.pc.wrapping_add(4);
                        } else {
                            self.pc = self.pc.wrapping_add(2);
                        }
                        Ok(())
                    }
                } else {
                    self.pc = self.pc.wrapping_add(2);
                    Ok(())
                }
            },
            _ => self.run_misc(d.x, d.kk, instruction),
        }
    }

    /// The 0xF family, split out of `run_instruction` for readability.
    fn run_misc(&mut self, x: u8, kk: u8, instruction: u16) -> (r: Result<(), Error>)
        requires
            old(self).wf(),
            op_family(instruction) == 0xF,
            x == op_x(instruction),
            x < 16,
            kk == op_kk(instruction),
        ensures
            final(self).wf(),
            sem_misc(old(self)@, final(self)@, instruction, r),
    {
        if kk == 0x07 {
            self.v[x as usize] = self.dt;
            self.pc = self.pc.wrapping_add(2);
            Ok(())
        } else if kk == 0x0A {
            self.waiting = Some(x);
            self.pc = self.pc.wrapping_add(2);
            Ok(())
        } else if kk == 0x15 {
            self.dt = self.v[x as usize];
            self.pc = self.pc.wrapping_add(2);
            Ok(())
        } else if kk == 0x18 {
            self.st = self.v[x as usize];
            self.pc = self.pc.wrapping_add(2);
            Ok(())
        } else if kk == 0x1E {
            self.i = self.i.wrapping_add(self.v[x as usize] as u16);
            self.pc = self.pc.wrapping_add(2);
            Ok(())
        } else if kk == 0x29 {
            let vx = self.v[x as usize];
            if vx > 0xF {
                Err(Error::InvalidDigit { value: vx, pc: self.pc, instruction })
            } else {
                self.i = self.memory.get_sprite_location(vx);
                self.pc = self.pc.wrapping_add(2);
                Ok(())
            }
        } else if kk == 0x33 {
            if (self.i as usize) + 3 > 4096 {
                Err(Error::OutOfRangeAddress { addr: self.i, pc: self.pc, instruction })
            } else {
                let val = self.v[x as usize];
                self.memory.store(self.i, val / 100);
                self.memory.store(self.i + 1, (val % 100) / 10);
                self.memory.store(self.i + 2, val % 10);
                self.pc = self.pc.wrapping_add(2);
                Ok(())
            }
        } else if kk == 0x55 {
            if (self.i as usize) + (x as usize) + 1 > 4096 {
                Err(Error::OutOfRangeAddress { addr: self.i, pc: self.pc, instruction })
            } else {
                let ghost i0 = self.i as int;
                let mut k: usize = 0;
                while k < (x as usize) + 1
                    invariant
                        self.wf(),
                        k <= x as usize + 1,
                        i0 == self.i as int,
                        i0 + x as int + 1 <= 4096,
                        x < 16,
                        self.v == old(self).v,
                        self.i == old(self).i,
                        self.dt == old(self).dt,
                        self.st == old(self).st,
                        self.pc == old(self).pc,
                        self.sp == old(self).sp,
                        self.stack == old(self).stack,
                        self.framebuffer == old(self).framebuffer,
                        self.keys == old(self).keys,
                        self.waiting == old(self).waiting,
                        forall|a: int|
                            0 <= a < 4096 ==> self@.mem[a] == if i0 <= a < i0 + k {
                                old(self)@.v[a - i0]
                            } else {
                                old(self)@.mem[a]
                            },
                    decreases x as usize + 1 - k,
                {
                    self.memory.store(self.i + (k as u16), self.v[k]);
                    k += 1;
                }
                self.i = self.i + (x as u16) + 1;
                self.pc = self.pc.wrapping_add(2);
                proof {
                    assert(self@.mem =~= Seq::new(
                        4096,
                        |a: int|
                            if i0 <= a <= i0 + x as int {
                                old(self)@.v[a - i0]
                            } else {
                                old(self)@.mem[a]
                            },
                    ));
                }
                Ok(())
            }
        } else if kk == 0x65 {
            if (self.i as usize) + (x as usize) + 1 > 4096 {
                Err(Error::OutOfRangeAddress { addr: self.i, pc: self.pc, instruction })
            } else {
                let ghost i0 = self.i as int;
                let mut k: usize = 0;
                while k < (x as usize) + 1
                    invariant
                        self.wf(),
                        k <= x as usize + 1,
                        i0 == self.i as int,
                        i0 + x as int + 1 <= 4096,
                        x < 16,
                        self.memory == old(self).memory,
                        self.i == old(self).i,
                        self.dt == old(self).dt,
                        self.st == old(self).st,
                        self.pc == old(self).pc,
                        self.sp == old(self).sp,
                        self.stack == old(self).stack,
                        self.framebuffer == old(self).framebuffer,
                        self.keys == old(self).keys,
                        self.waiting == old(self).waiting,
                        self@.v.len() == 16,
                        forall|j: int|
                            0 <= j < 16 ==> self@.v[j] == if j < k {
                                old(self)@.mem[i0 + j]
                            } else {
                                old(self)@.v[j]
                            },
                    decreases x as usize + 1 - k,
                {
                    let b = self.memory.get(self.i + (k as u16));
                    self.v[k] = b;
                    k += 1;
                }
                self.i = self.i + (x as u16) + 1;
                self.pc = self.pc.wrapping_add(2);
                proof {
                    assert(self@.v =~= Seq::new(
                        16,
                        |j: int|
                            if j <= op_x(instruction) {
                                old(self)@.mem[i0 + j]
                            } else {
                                old(self)@.v[j]
                            },
                    ));
                }
                Ok(())
            }
        } else {
            self.pc = self.pc.wrapping_add(2);
            Ok(())
        }
    }

    /// One tick of the instruction cadence.  While a key wait is pending,
    /// no instruction is fetched: the input snapshot is polled, and the
    /// first pressed key (lowest number) resolves the wait into the
    /// target register; the next instruction runs only on a later tick.
    /// Otherwise one instruction is fetched at PC, decoded and executed.
    pub fn step(&mut self) -> (r: Result<(), Error>)
        requires
            old(self).wf(),
        ensures
            final(self).wf(),
            sem_tick(old(self)@, final(self)@, r),
    {
        match self.waiting {
            Some(x) => {
                let mut k: usize = 0;
                while k < 16
                    invariant
                        self == old(self),
                        self.wf(),
                        self@.waiting == Some(x),
                        k <= 16,
                        forall|m: int| 0 <= m < k ==> !self@.keys[m],
                    decreases 16 - k,
                {
                    if self.keys[k] {
                        proof {
                            lemma_first_pressed_scan(self@.keys, k as int);
                        }
                        self.v[x as usize] = k as u8;
                        self.waiting = None;
                        return Ok(());
                    }
                    k += 1;
                }
                proof {
                    lemma_first_pressed_scan(self@.keys, 16);
                }
                Ok(())
            },
            None => {
                if self.pc >= 4095 {
                    return Err(
                        Error::OutOfRangeAddress { addr: self.pc, pc: self.pc, instruction: 0 },
                    );
                }
                let hi = self.memory.get(self.pc);
                let lo = self.memory.get(self.pc + 1);
                let word = (hi as u16) << 8 | (lo as u16);
                self.run_instruction(word)
            },
        }
    }

    /// One tick of the 60 Hz timer cadence, independent of the
    /// instruction cadence: each nonzero timer counts down by one and
    /// both floor at zero.  Returns the audio trigger: the tone plays
    /// exactly while the sound timer was still running.
    pub fn tick_timers(&mut self) -> (audio_on: bool)
        requires
            old(self).wf(),
        ensures
            final(self).wf(),
            final(self)@ == (CpuView {
                dt: if old(self)@.dt > 0 {
                    (old(self)@.dt - 1) as u8
                } else {
                    0
                },
                st: if old(self)@.st > 0 {
                    (old(self)@.st - 1) as u8
                } else {
                    0
                },
                ..old(self)@
            }),
            audio_on == (old(self)@.st > 0),
    {
        let audio_on = self.st > 0;
        if self.st > 0 {
            self.st = self.st - 1;
        }
        if self.dt > 0 {
            self.dt = self.dt - 1;
        }
        audio_on
    }

    /// Value of one general-purpose register, for the debug views.
    pub fn get_register(&self, x: u8) -> (val: u8)
        requires
            self.wf(),
            x < 16,
        ensures
            val == self@.v[x as int],
    {
        self.v[x as usize]
    }

    /// The address register I.
    pub fn get_i(&self) -> (val: u16)
        ensures
            val == self@.i,
    {
        self.i
    }

    /// The program counter.
    pub fn get_pc(&self) -> (val: u16)
        ensures
            val == self@.pc,
    {
        self.pc
    }

    /// The stack pointer.
    pub fn get_sp(&self) -> (val: u8)
        ensures
            val == self@.sp,
    {
        self.sp
    }

    /// The delay timer.
    pub fn get_delay_timer(&self) -> (val: u8)
        ensures
            val == self@.dt,
    {
        self.dt
    }

    /// The sound timer.
    pub fn get_sound_timer(&self) -> (val: u8)
        ensures
            val == self@.st,
    {
        self.st
    }

    /// The stack of return addresses, for the debug views.
    pub fn get_stack(&self) -> (s: &[u16])
        ensures
            s@ == self@.stack,
    {
        self.stack.as_slice()
    }

    /// The addressable memory, read-only.
    pub fn get_memory(&self) -> (m: &Memory)
        requires
            self.wf(),
        ensures
            m@ == self@.mem,
            m.wf(),
    {
        &self.memory
    }

    /// The framebuffer, read-only, for the presentation layer.
    pub fn get_framebuffer(&self) -> (fb: &Framebuffer)
        requires
            self.wf(),
        ensures
            fb@.data == self@.fb,
            fb.wf(),
            fb@.width == 64,
            fb@.height == 32,
    {
        &self.framebuffer
    }

    /// Whether the machine is suspended in the Fx0A key wait.
    pub fn is_waiting_for_key(&self) -> (w: bool)
        ensures
            w == (self@.waiting is Some),
    {
        self.waiting.is_some()
    }
}

/// The lowest-numbered pressed key at or above number `k`, if any.
pub open spec fn first_pressed_from(keys: Seq<bool>, k: int) -> Option<u8>
    decreases 16 - k,
{
    if k < 0 || k >= 16 {
        None
    } else if keys[k] {
        Some(k as u8)
    } else {
        first_pressed_from(keys, k + 1)
    }
}

/// The lowest-numbered pressed key, if any key is pressed.
pub open spec fn first_pressed(keys: Seq<bool>) -> Option<u8> {
    first_pressed_from(keys, 0)
}

/// Scanning from key 0: once the keys below `k` are known released, the
/// overall answer is whatever the scan from `k` finds.
proof fn lemma_first_pressed_scan(keys: Seq<bool>, k: int)
    requires
        keys.len() == 16,
        0 <= k <= 16,
        forall|m: int| 0 <= m < k ==> !keys[m],
    ensures
        first_pressed(keys) == first_pressed_from(keys, k),
    decreases k,
{
    if k > 0 {
        lemma_first_pressed_scan(keys, k - 1);
    }
}

/// The transition one tick of the instruction cadence performs: resolve
/// or continue a pending key wait without fetching, or fetch, decode and
/// execute the instruction at PC.
pub open spec fn sem_tick(pre: CpuView, post: CpuView, r: Result<(), Error>) -> bool {
    match pre.waiting {
        Some(x) => {
            &&& r == Ok::<(), Error>(())
            &&& match first_pressed(pre.keys) {
                Some(k) => post == CpuView { v: pre.v.update(x as int, k), waiting: None, ..pre },
                None => post == pre,
            }
        },
        None => {
            if pre.pc as int + 1 >= 4096 {
                // The fetch itself runs out of memory, so no instruction
                // word exists to report: the error carries zero for it.
                &&& r == Err::<(), Error>(Error::OutOfRangeAddress {
                    addr: pre.pc,
                    pc: pre.pc,
                    instruction: 0,
                })
                &&& post == pre
            } else {
                sem_step(pre, post, fetched(pre.mem, pre.pc as int), r)
            }
        },
    }
}

/// The big-endian 16-bit instruction word at address `pc`.
pub open spec fn fetched(mem: Seq<u8>, pc: int) -> u16 {
    (mem[pc] as u16) << 8 | (mem[pc + 1] as u16)
}

/// Source of the random byte that the Cxkk opcode masks.  Relies on
/// `rand::random`, which draws from the thread-local generator; nothing
/// is promised of the value, and the engine's contract holds for every
/// byte that comes back.
#[verifier::external_body]
fn random_byte() -> u8 {
    rand::random::<u8>()
}

} // verus!
