use vstd::prelude::*;
use crate::emulator::decode::{Op, decode_spec};
use crate::emulator::error::Error;
use crate::peripherals::display::TextData;

verus! {

/// The machine as a mathematical value.
pub struct Machine {
    /// The 4096 bytes of memory.
    pub memory: Seq<u8>,
    /// The return addresses on the call stack, oldest first.
    pub stack: Seq<u16>,
    /// The program counter.
    pub pc: u16,
    /// The index register.
    pub index: u16,
    /// The sixteen general registers; the last one is the flag register.
    pub v: Seq<u8>,
    /// The delay timer.
    pub delay: u8,
    /// The sound timer.
    pub sound: u8,
    /// Cycles since the timers last went down.
    pub ticks: u8,
    /// The framebuffer: 32 rows of 64 pixels, `true` for a lit pixel.
    pub vram: Seq<Seq<bool>>,
    /// The key latch: `true` for a key that is held down.
    pub keys: Seq<bool>,
    /// The on-screen log.
    pub text: Seq<TextData>,
}

/// Number of bytes of memory.
pub open spec fn mem_size() -> int {
    4096
}

/// Number of return addresses that the call stack holds.
pub open spec fn stack_size() -> int {
    16
}

/// Address of the first glyph of the font.
pub open spec fn font_base() -> int {
    0x50
}

/// Cycles between two steps of the timers.
pub open spec fn timer_period() -> int {
    12
}

/// A framebuffer with every pixel off.
pub open spec fn blank() -> Seq<Seq<bool>> {
    Seq::new(32, |r: int| Seq::new(64, |c: int| false))
}

/// The framebuffer has 32 rows of 64 pixels.
pub open spec fn vram_wf(vram: Seq<Seq<bool>>) -> bool {
    vram.len() == 32 && forall|r: int| 0 <= r < 32 ==> (#[trigger] vram[r]).len() == 64
}

impl Machine {
    /// Every part has its fixed size, the stack is within its capacity and
    /// the cycle count is below the timer period.
    pub open spec fn wf(self) -> bool {
        &&& self.memory.len() == mem_size()
        &&& self.stack.len() <= stack_size()
        &&& self.v.len() == 16
        &&& self.ticks < timer_period()
        &&& vram_wf(self.vram)
        &&& self.keys.len() == 16
    }

    /// The machine with register `x` set to `val`.
    pub open spec fn set_v(self, x: int, val: u8) -> Machine {
        Machine { v: self.v.update(x, val), ..self }
    }

    /// The machine with the flag register set to `flag`.
    pub open spec fn set_flag(self, flag: u8) -> Machine {
        self.set_v(15, flag)
    }

    /// The machine with the program counter at `pc`.
    pub open spec fn set_pc(self, pc: u16) -> Machine {
        Machine { pc, ..self }
    }

    /// The machine with the index register at `index`.
    pub open spec fn set_index(self, index: u16) -> Machine {
        Machine { index, ..self }
    }
}

/// Bit `b` of a sprite row, counted from the most significant bit.
pub open spec fn sprite_bit(byte: u8, b: u8) -> bool {
    (byte >> (7 - b) as u8) & 1 == 1
}

/// Whether a sprite with the given rows, drawn with its top left corner at
/// column `ox` and row `oy`, has a set bit on the pixel in row `r` and
/// column `c`. Rows and columns wrap round the edges of the framebuffer.
pub open spec fn covers(rows: Seq<u8>, ox: u8, oy: u8, r: int, c: int) -> bool {
    let k = (r - oy) % 32;
    let b = (c - ox) % 64;
    k < rows.len() && b < 8 && sprite_bit(rows[k], b as u8)
}

/// The framebuffer after the sprite is drawn: each pixel that the sprite
/// covers is inverted.
pub open spec fn blit(vram: Seq<Seq<bool>>, rows: Seq<u8>, ox: u8, oy: u8) -> Seq<Seq<bool>> {
    Seq::new(32, |r: int| Seq::new(64, |c: int| vram[r][c] != covers(rows, ox, oy, r, c)))
}

/// Whether the sprite covers a pixel that is lit.
pub open spec fn collides(vram: Seq<Seq<bool>>, rows: Seq<u8>, ox: u8, oy: u8) -> bool {
    exists|r: int, c: int|
        0 <= r < 32 && 0 <= c < 64 && #[trigger] vram[r][c] && covers(rows, ox, oy, r, c)
}

/// The `n` bytes of memory from `index` on.
pub open spec fn sprite_rows(memory: Seq<u8>, index: u16, n: int) -> Seq<u8> {
    Seq::new(n as nat, |k: int| memory[index + k])
}

/// The lowest key at or above `from` that is held down.
pub open spec fn lowest_pressed(keys: Seq<bool>, from: int) -> Option<int>
    decreases keys.len() - from,
{
    if from < 0 || from >= keys.len() {
        None
    } else if keys[from] {
        Some(from)
    } else {
        lowest_pressed(keys, from + 1)
    }
}

/// One for `true`, zero for `false`.
pub open spec fn bit(b: bool) -> u8 {
    if b {
        1
    } else {
        0
    }
}

impl Machine {
    /// Skips the next instruction if `cond` holds. The program counter must
    /// stay within sixteen bits.
    pub open spec fn skip_if(self, cond: bool) -> Result<Machine, Error> {
        if !cond {
            Ok(self)
        } else if self.pc + 2 > 0xFFFF {
            Err(Error::OutOfBounds)
        } else {
            Ok(self.set_pc((self.pc + 2) as u16))
        }
    }

    /// Return from a subroutine: the newest return address leaves the stack
    /// and becomes the program counter.
    pub open spec fn sub_return(self) -> Result<Machine, Error> {
        if self.stack.len() == 0 {
            Err(Error::StackUnderflow)
        } else {
            Ok(Machine { pc: self.stack.last(), stack: self.stack.drop_last(), ..self })
        }
    }

    /// Call of a subroutine: the program counter goes onto the stack and
    /// execution continues at `addr`.
    pub open spec fn subroutine(self, addr: u16) -> Result<Machine, Error> {
        if self.stack.len() >= stack_size() {
            Err(Error::StackOverflow)
        } else {
            Ok(Machine { pc: addr, stack: self.stack.push(self.pc), ..self })
        }
    }

    /// Sum of two registers: the low eight bits go to register `x`, then
    /// the carry to the flag register.
    pub open spec fn add_vx_vy(self, x: int, y: int) -> Machine {
        let sum = self.v[x] + self.v[y];
        self.set_v(x, (sum % 256) as u8).set_flag(bit(sum > 255))
    }

    /// Register `x` minus register `y`, modulo 256, goes to register `x`;
    /// then the flag register is set to one if nothing was borrowed.
    pub open spec fn vx_minus_vy(self, x: int, y: int) -> Machine {
        let vx = self.v[x];
        let vy = self.v[y];
        self.set_v(x, ((vx - vy) % 256) as u8).set_flag(bit(vx >= vy))
    }

    /// Register `y` minus register `x`, modulo 256, goes to register `x`;
    /// then the flag register is set to one if nothing was borrowed.
    pub open spec fn vy_minus_vx(self, x: int, y: int) -> Machine {
        let vx = self.v[x];
        let vy = self.v[y];
        self.set_v(x, ((vy - vx) % 256) as u8).set_flag(bit(vy >= vx))
    }

    /// Register `x` moves one bit towards the high end; the bit that falls
    /// off the high end goes to the flag register.
    pub open spec fn shift_left(self, x: int) -> Machine {
        let vx = self.v[x];
        self.set_v(x, ((vx * 2) % 256) as u8).set_flag((vx / 128) as u8)
    }

    /// Register `x` moves one bit towards the low end; the bit that falls
    /// off the low end goes to the flag register.
    pub open spec fn shift_right(self, x: int) -> Machine {
        let vx = self.v[x];
        self.set_v(x, (vx / 2) as u8).set_flag((vx % 2) as u8)
    }

    /// Register `x` is added to the index register. A sum that leaves the
    /// twelve bits of an address sets the flag register to one; otherwise the
    /// flag register keeps its value. The sum must stay within sixteen bits.
    pub open spec fn add_to_index(self, x: int) -> Result<Machine, Error> {
        let sum = self.index + self.v[x];
        if sum > 0xFFFF {
            Err(Error::OutOfBounds)
        } else if sum > 0x0FFF {
            Ok(self.set_index(sum as u16).set_flag(1))
        } else {
            Ok(self.set_index(sum as u16))
        }
    }

    /// The index register points at the glyph of the digit in register `x`:
    /// five bytes per glyph, from the font base on.
    pub open spec fn font_char(self, x: int) -> Machine {
        self.set_index((font_base() + 5 * self.v[x]) as u16)
    }

    /// The hundreds, tens and ones of register `x` go to the three bytes of
    /// memory from the index register on.
    pub open spec fn bcd_convert(self, x: int) -> Result<Machine, Error> {
        let vx = self.v[x];
        let i = self.index as int;
        if i + 2 >= mem_size() {
            Err(Error::OutOfBounds)
        } else {
            Ok(
                Machine {
                    memory: self.memory.update(i, (vx / 100) as u8).update(
                        i + 1,
                        ((vx / 10) % 10) as u8,
                    ).update(i + 2, (vx % 10) as u8),
                    ..self
                },
            )
        }
    }

    /// Registers 0 to `x`, `x` included, go to memory from the index
    /// register on.
    pub open spec fn store_mem(self, x: int) -> Result<Machine, Error> {
        let i = self.index as int;
        if i + x >= mem_size() {
            Err(Error::OutOfBounds)
        } else {
            Ok(
                Machine {
                    memory: Seq::new(
                        self.memory.len(),
                        |a: int|
                            if i <= a <= i + x {
                                self.v[a - i]
                            } else {
                                self.memory[a]
                            },
                    ),
                    ..self
                },
            )
        }
    }

    /// Registers 0 to `x`, `x` included, are read from memory from the
    /// index register on.
    pub open spec fn load_mem(self, x: int) -> Result<Machine, Error> {
        let i = self.index as int;
        if i + x >= mem_size() {
            Err(Error::OutOfBounds)
        } else {
            Ok(
                Machine {
                    v: Seq::new(
                        self.v.len(),
                        |k: int|
                            if k <= x {
                                self.memory[i + k]
                            } else {
                                self.v[k]
                            },
                    ),
                    ..self
                },
            )
        }
    }

    /// The lowest key that is held down goes to register `x`. With no key
    /// held down the program counter goes back by one instruction, so that
    /// the same instruction runs again.
    pub open spec fn get_key(self, x: int) -> Result<Machine, Error> {
        match lowest_pressed(self.keys, 0) {
            Some(k) => Ok(self.set_v(x, k as u8)),
            None => if self.pc < 2 {
                Err(Error::OutOfBounds)
            } else {
                Ok(self.set_pc((self.pc - 2) as u16))
            },
        }
    }

    /// Skips the next instruction if the key named by register `x` is held
    /// down (`want`), or is not (`!want`).
    pub open spec fn skip_on_key(self, x: int, want: bool) -> Result<Machine, Error> {
        let key = self.v[x] as int;
        if key >= 16 {
            Err(Error::OutOfBounds)
        } else {
            self.skip_if(self.keys[key] == want)
        }
    }

    /// The sprite of `n` rows at the index register is drawn at the column
    /// in register `x` and the row in register `y`; the flag register tells
    /// whether a lit pixel was put out.
    pub open spec fn disp(self, x: int, y: int, n: int) -> Result<Machine, Error> {
        if n > 0 && self.index + n > mem_size() {
            Err(Error::OutOfBounds)
        } else {
            let rows = sprite_rows(self.memory, self.index, n);
            let ox = self.v[x];
            let oy = self.v[y];
            Ok(
                Machine { vram: blit(self.vram, rows, ox, oy), ..self }.set_flag(
                    bit(collides(self.vram, rows, ox, oy)),
                ),
            )
        }
    }

    /// The effect of one instruction. `rnd` is the byte that the random
    /// instruction draws; no other instruction looks at it.
    pub open spec fn step(self, op: Op, rnd: u8) -> Result<Machine, Error> {
        if !op.wf() {
            Err(Error::OutOfBounds)
        } else {
            match op {
                Op::ClearScreen => Ok(Machine { vram: blank(), ..self }),
                Op::Return => self.sub_return(),
                Op::Jump { addr } => Ok(self.set_pc(addr)),
                Op::Call { addr } => self.subroutine(addr),
                Op::SkipIfEqual { x, nn } => self.skip_if(self.v[x as int] == nn),
                Op::SkipNotEqual { x, nn } => self.skip_if(self.v[x as int] != nn),
                Op::SkipBothEqual { x, y } => self.skip_if(self.v[x as int] == self.v[y as int]),
                Op::SkipNoneEqual { x, y } => self.skip_if(self.v[x as int] != self.v[y as int]),
                Op::SetVx { x, nn } => Ok(self.set_v(x as int, nn)),
                Op::AddVx { x, nn } => Ok(
                    self.set_v(x as int, ((self.v[x as int] + nn) % 256) as u8),
                ),
                Op::SetVxVy { x, y } => Ok(self.set_v(x as int, self.v[y as int])),
                Op::BinaryOr { x, y } => Ok(
                    self.set_v(x as int, self.v[x as int] | self.v[y as int]),
                ),
                Op::BinaryAnd { x, y } => Ok(
                    self.set_v(x as int, self.v[x as int] & self.v[y as int]),
                ),
                Op::LogicalXor { x, y } => Ok(
                    self.set_v(x as int, self.v[x as int] ^ self.v[y as int]),
                ),
                Op::AddVxVy { x, y } => Ok(self.add_vx_vy(x as int, y as int)),
                Op::VxMinusVy { x, y } => Ok(self.vx_minus_vy(x as int, y as int)),
                Op::VyMinusVx { x, y } => Ok(self.vy_minus_vx(x as int, y as int)),
                Op::ShiftRight { x } => Ok(self.shift_right(x as int)),
                Op::ShiftLeft { x } => Ok(self.shift_left(x as int)),
                Op::SetIndex { addr } => Ok(self.set_index(addr)),
                Op::OffsetJump { addr } => Ok(self.set_pc((addr + self.v[0]) as u16)),
                Op::Random { x, nn } => Ok(self.set_v(x as int, rnd & nn)),
                Op::Draw { x, y, n } => self.disp(x as int, y as int, n as int),
                Op::SkipIfKey { x } => self.skip_on_key(x as int, true),
                Op::SkipNotKey { x } => self.skip_on_key(x as int, false),
                Op::SetVxToDelay { x } => Ok(self.set_v(x as int, self.delay)),
                Op::GetKey { x } => self.get_key(x as int),
                Op::SetDelayTimer { x } => Ok(Machine { delay: self.v[x as int], ..self }),
                Op::SetSoundTimer { x } => Ok(Machine { sound: self.v[x as int], ..self }),
                Op::AddToIndex { x } => self.add_to_index(x as int),
                Op::FontChar { x } => Ok(self.font_char(x as int)),
                Op::BcdConvert { x } => self.bcd_convert(x as int),
                Op::StoreMem { x } => self.store_mem(x as int),
                Op::LoadMem { x } => self.load_mem(x as int),
            }
        }
    }
}

/// How a call that reports `r` and leaves the machine as `after` relates to
/// what was `expected` of it: on success the machine is the expected one,
/// on failure the error is the expected one and the machine is as `before`.
pub open spec fn outcome(
    expected: Result<Machine, Error>,
    before: Machine,
    after: Machine,
    r: Result<(), Error>,
) -> bool {
    match expected {
        Ok(m) => r is Ok && after == m,
        Err(e) => r == Err::<(), Error>(e) && after == before,
    }
}

impl Machine {
    /// Both timers go down by one, unless they are at zero.
    pub open spec fn decrement_timers(self) -> Machine {
        Machine {
            delay: if self.delay > 0 {
                (self.delay - 1) as u8
            } else {
                0
            },
            sound: if self.sound > 0 {
                (self.sound - 1) as u8
            } else {
                0
            },
            ..self
        }
    }

    /// One cycle of the clock: every twelfth cycle the timers go down and
    /// the cycle count starts again.
    pub open spec fn tick(self) -> Machine {
        if self.ticks + 1 == timer_period() {
            Machine { ticks: 0, ..self.decrement_timers() }
        } else {
            Machine { ticks: (self.ticks + 1) as u8, ..self }
        }
    }
}

/// Keys that are not held down can be passed over: if no key from `from`
/// up to `to` is held down, the lowest key held down from `from` on is the
/// lowest held down from `to` on.
pub proof fn lemma_lowest_pressed_skip(keys: Seq<bool>, from: int, to: int)
    requires
        0 <= from <= to <= keys.len(),
        forall|j: int| from <= j < to ==> !keys[j],
    ensures
        lowest_pressed(keys, from) == lowest_pressed(keys, to),
    decreases to - from,
{
    if from < to {
        lemma_lowest_pressed_skip(keys, from + 1, to);
    }
}

/// The instruction word at address `a`: two bytes, the high byte first.
pub open spec fn word_at(memory: Seq<u8>, a: int) -> u16 {
    (memory[a] * 256 + memory[a + 1]) as u16
}

/// Address at which a program is loaded and started.
pub open spec fn program_start() -> int {
    0x200
}

impl Machine {
    /// The machine with the program `rom` in memory, from the start
    /// address on. A program that does not fit is refused.
    pub open spec fn load_rom(self, rom: Seq<u8>) -> Result<Machine, Error> {
        if program_start() + rom.len() > mem_size() {
            Err(Error::OutOfBounds)
        } else {
            Ok(
                Machine {
                    memory: Seq::new(
                        self.memory.len(),
                        |a: int|
                            if program_start() <= a < program_start() + rom.len() {
                                rom[a - program_start()]
                            } else {
                                self.memory[a]
                            },
                    ),
                    ..self
                },
            )
        }
    }

    /// The instruction word is read at the program counter, which then
    /// moves on by two.
    pub open spec fn fetch(self) -> Result<(Machine, u16), Error> {
        if self.pc + 1 >= mem_size() {
            Err(Error::OutOfBounds)
        } else {
            Ok((self.set_pc((self.pc + 2) as u16), word_at(self.memory, self.pc as int)))
        }
    }

    /// The instruction at the program counter, or why there is none: the
    /// word does not lie within memory, or it encodes no instruction.
    pub open spec fn next_op(self) -> Result<Op, Error> {
        match self.fetch() {
            Err(e) => Err(e),
            Ok((_, word)) => match decode_spec(word) {
                None => Err(Error::Decode { addr: self.pc, word }),
                Some(op) => Ok(op),
            },
        }
    }

    /// One cycle: the clock ticks, the program counter moves past the
    /// instruction it is at, and that instruction takes effect. `rnd` is
    /// the byte that a random instruction draws.
    pub open spec fn cycle(self, rnd: u8) -> Result<Machine, Error> {
        match self.next_op() {
            Err(e) => Err(e),
            Ok(op) => self.tick().set_pc((self.pc + 2) as u16).step(op, rnd),
        }
    }
}

/// Whether the sprite covers a pixel that is not lit, so that drawing it
/// turns a pixel on.
pub open spec fn lights(vram: Seq<Seq<bool>>, rows: Seq<u8>, ox: u8, oy: u8) -> bool {
    exists|r: int, c: int|
        0 <= r < 32 && 0 <= c < 64 && !#[trigger] vram[r][c] && covers(rows, ox, oy, r, c)
}

/// Whether bit `b` of row `k` of a sprite drawn at column `ox` and row
/// `oy` falls on the pixel in row `r` and column `c`.
pub open spec fn lands(ox: u8, oy: u8, k: int, b: int, r: int, c: int) -> bool {
    r == (oy + k) % 32 && c == (ox + b) % 64
}

/// The pixel in row `r` lies `k` rows below `oy`, wrapping round, exactly
/// if `r` is `oy + k` modulo 32; likewise for columns, modulo 64.
pub proof fn lemma_wrap(ox: u8, oy: u8, k: int, b: int, r: int, c: int)
    requires
        0 <= k < 32,
        0 <= b < 64,
        0 <= r < 32,
        0 <= c < 64,
    ensures
        ((r - oy) % 32 == k) == (r == (oy + k) % 32),
        ((c - ox) % 64 == b) == (c == (ox + b) % 64),
{
}

} // verus!
