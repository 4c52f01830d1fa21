pub mod error;
pub mod decode;
pub mod model;
pub mod laws;

use vstd::prelude::*;
use crate::emulator::decode::{Op, decode};
use crate::emulator::error::Error;
use crate::emulator::model::{
    Machine, bit, collides, covers, lemma_lowest_pressed_skip, lemma_wrap, outcome, sprite_bit,
    sprite_rows,
};
use crate::peripherals::display::{PeripheralMemory, TextData};
use crate::utils::OFstate;

verus! {

/// Instructions per second.
pub const CLOCK_SPEED: u32 = 720;

/// Number of bytes of memory.
pub const MEM_SIZE: usize = 4096;

/// Number of return addresses that the call stack holds.
pub const STACK_SIZE: usize = 16;

/// Address at which a program is loaded and started.
pub const PRGRM_START: u16 = 0x200;

/// Address of the first glyph of the font.
pub const FONT_START: u16 = 0x50;

/// Cycles between two steps of the timers: the clock speed over sixty. The
/// timers are stepped by counting cycles, not by reading a clock, so they
/// run at sixty steps a second only as closely as the cycles keep their
/// pace.
pub const TIMER_PERIOD: u8 = 12;

/// The glyphs of the sixteen hexadecimal digits, five bytes each.
pub const FONT: [u8; 80] = [
    0xF0, 0x90, 0x90, 0x90, 0xF0, // 0
    0x20, 0x60, 0x20, 0x20, 0x70, // 1
    0xF0, 0x10, 0xF0, 0x80, 0xF0, // 2
    0xF0, 0x10, 0xF0, 0x10, 0xF0, // 3
    0x90, 0x90, 0xF0, 0x10, 0x10, // 4
    0xF0, 0x80, 0xF0, 0x10, 0xF0, // 5
    0xF0, 0x80, 0xF0, 0x90, 0xF0, // 6
    0xF0, 0x10, 0x20, 0x40, 0x40, // 7
    0xF0, 0x90, 0xF0, 0x90, 0xF0, // 8
    0xF0, 0x90, 0xF0, 0x10, 0xF0, // 9
    0xF0, 0x90, 0xF0, 0x90, 0x90, // A
    0xE0, 0x90, 0xE0, 0x90, 0xE0, // B
    0xF0, 0x80, 0x80, 0x80, 0xF0, // C
    0xE0, 0x90, 0x90, 0x90, 0xE0, // D
    0xF0, 0x80, 0xF0, 0x80, 0xF0, // E
    0xF0, 0x80, 0xF0, 0x80, 0x80, // F
];

/// The virtual machine.
pub struct Emulator {
    memory: [u8; 4096],
    p_mem: PeripheralMemory,
    stack: [u16; 16],
    stack_pointer: usize,
    program_counter: u16,
    register_i: u16,
    register_v: [u8; 16],
    delay_timer: u8,
    sound_timer: u8,
    time_count: u8,
}

/// The framebuffer as rows of booleans.
pub open spec fn vram_view(vram: [[OFstate; 64]; 32]) -> Seq<Seq<bool>> {
    Seq::new(32, |r: int| Seq::new(64, |c: int| vram@[r]@[c].lit()))
}

/// The machine as it is created: memory holds the font and zeros beyond
/// it, the program counter is at the start of the program, everything else
/// is zero, off or empty.
pub open spec fn initial_machine() -> Machine {
    Machine {
        memory: Seq::new(
            4096,
            |a: int|
                if FONT_START <= a < FONT_START + 80 {
                    FONT@[a - FONT_START]
                } else {
                    0u8
                },
        ),
        stack: Seq::empty(),
        pc: PRGRM_START,
        index: 0,
        v: Seq::new(16, |i: int| 0u8),
        delay: 0,
        sound: 0,
        ticks: 0,
        vram: crate::emulator::model::blank(),
        keys: Seq::new(16, |i: int| false),
        text: Seq::empty(),
    }
}

impl View for Emulator {
    type V = Machine;

    closed spec fn view(&self) -> Machine {
        Machine {
            memory: self.memory@,
            stack: self.stack@.subrange(0, self.stack_pointer as int),
            pc: self.program_counter,
            index: self.register_i,
            v: self.register_v@,
            delay: self.delay_timer,
            sound: self.sound_timer,
            ticks: self.time_count,
            vram: vram_view(self.p_mem.vram),
            keys: self.p_mem.key_list@,
            text: self.p_mem.text@,
        }
    }
}

/// Draws a byte with `rand::random`, which reads the thread's generator.
/// Nothing is claimed of the byte: any value may come back.
#[verifier::external_body]
fn random_byte() -> (b: u8) {
    rand::random()
}

/// Whether the part of the sprite that has been drawn so far, the rows
/// before `k` and the bits before `b` of row `k`, covers the pixel in row
/// `r` and column `c`.
spec fn covers_upto(rows: Seq<u8>, ox: u8, oy: u8, r: int, c: int, k: int, b: int) -> bool {
    let kk = (r - oy) % 32;
    let bb = (c - ox) % 64;
    kk < rows.len() && bb < 8 && sprite_bit(rows[kk], bb as u8) && (kk < k || (kk == k && bb < b))
}

/// Whether the part of the sprite that has been drawn so far covers a
/// pixel that was lit.
spec fn collides_upto(vram: Seq<Seq<bool>>, rows: Seq<u8>, ox: u8, oy: u8, k: int, b: int) -> bool {
    exists|r: int, c: int|
        0 <= r < 32 && 0 <= c < 64 && #[trigger] vram[r][c] && covers_upto(
            rows,
            ox,
            oy,
            r,
            c,
            k,
            b,
        )
}

/// Drawing one more bit adds the pixel it lands on, and no other, to what
/// the sprite covers.
proof fn lemma_draw_bit_covers(rows: Seq<u8>, ox: u8, oy: u8, k: int, b: int, r: int, c: int)
    requires
        0 <= k < rows.len() <= 32,
        0 <= b < 8,
        0 <= r < 32,
        0 <= c < 64,
    ensures
        covers_upto(rows, ox, oy, r, c, k, b + 1) == (covers_upto(rows, ox, oy, r, c, k, b) || (r
            == (oy + k) % 32 && c == (ox + b) % 64 && sprite_bit(rows[k], b as u8))),
        (r == (oy + k) % 32 && c == (ox + b) % 64) ==> !covers_upto(rows, ox, oy, r, c, k, b),
{
    lemma_wrap(ox, oy, k, b, r, c);
}

/// Drawing one more bit collides if what was drawn before did, or if the
/// bit is set and lands on a lit pixel.
proof fn lemma_draw_bit(vram: Seq<Seq<bool>>, rows: Seq<u8>, ox: u8, oy: u8, k: int, b: int)
    requires
        0 <= k < rows.len() <= 32,
        0 <= b < 8,
    ensures
        collides_upto(vram, rows, ox, oy, k, b + 1) == (collides_upto(vram, rows, ox, oy, k, b) || (
        sprite_bit(rows[k], b as u8) && vram[(oy + k) % 32][(ox + b) % 64])),
{
    let yc = (oy + k) % 32;
    let xc = (ox + b) % 64;
    if collides_upto(vram, rows, ox, oy, k, b + 1) {
        let (r, c) = choose|r: int, c: int|
            0 <= r < 32 && 0 <= c < 64 && #[trigger] vram[r][c] && covers_upto(
                rows,
                ox,
                oy,
                r,
                c,
                k,
                b + 1,
            );
        lemma_draw_bit_covers(rows, ox, oy, k, b, r, c);
        if covers_upto(rows, ox, oy, r, c, k, b) {
            assert(vram[r][c]);
        }
    }
    if collides_upto(vram, rows, ox, oy, k, b) {
        let (r, c) = choose|r: int, c: int|
            0 <= r < 32 && 0 <= c < 64 && #[trigger] vram[r][c] && covers_upto(
                rows,
                ox,
                oy,
                r,
                c,
                k,
                b,
            );
        lemma_draw_bit_covers(rows, ox, oy, k, b, r, c);
        assert(vram[r][c] && covers_upto(rows, ox, oy, r, c, k, b + 1));
    }
    if sprite_bit(rows[k], b as u8) && vram[yc][xc] {
        lemma_draw_bit_covers(rows, ox, oy, k, b, yc, xc);
        assert(vram[yc][xc] && covers_upto(rows, ox, oy, yc, xc, k, b + 1));
    }
}

/// A row that is drawn to its last bit is a row done.
proof fn lemma_draw_row_done(vram: Seq<Seq<bool>>, rows: Seq<u8>, ox: u8, oy: u8, k: int)
    ensures
        forall|r: int, c: int| #[trigger]
            covers_upto(rows, ox, oy, r, c, k, 8) == covers_upto(rows, ox, oy, r, c, k + 1, 0),
        collides_upto(vram, rows, ox, oy, k, 8) == collides_upto(vram, rows, ox, oy, k + 1, 0),
{
    if collides_upto(vram, rows, ox, oy, k, 8) {
        let (r, c) = choose|r: int, c: int|
            0 <= r < 32 && 0 <= c < 64 && #[trigger] vram[r][c] && covers_upto(
                rows,
                ox,
                oy,
                r,
                c,
                k,
                8,
            );
        assert(vram[r][c] && covers_upto(rows, ox, oy, r, c, k + 1, 0));
    }
    if collides_upto(vram, rows, ox, oy, k + 1, 0) {
        let (r, c) = choose|r: int, c: int|
            0 <= r < 32 && 0 <= c < 64 && #[trigger] vram[r][c] && covers_upto(
                rows,
                ox,
                oy,
                r,
                c,
                k + 1,
                0,
            );
        assert(vram[r][c] && covers_upto(rows, ox, oy, r, c, k, 8));
    }
}

/// Before the first bit nothing is covered; after the last row everything
/// that the sprite covers is.
proof fn lemma_draw_ends(vram: Seq<Seq<bool>>, rows: Seq<u8>, ox: u8, oy: u8)
    ensures
        forall|r: int, c: int| !#[trigger] covers_upto(rows, ox, oy, r, c, 0, 0),
        !collides_upto(vram, rows, ox, oy, 0, 0),
        forall|r: int, c: int| #[trigger]
            covers_upto(rows, ox, oy, r, c, rows.len() as int, 0) == covers(rows, ox, oy, r, c),
        collides_upto(vram, rows, ox, oy, rows.len() as int, 0) == collides(vram, rows, ox, oy),
{
    let n = rows.len() as int;
    if collides_upto(vram, rows, ox, oy, n, 0) {
        let (r, c) = choose|r: int, c: int|
            0 <= r < 32 && 0 <= c < 64 && #[trigger] vram[r][c] && covers_upto(
                rows,
                ox,
                oy,
                r,
                c,
                n,
                0,
            );
        assert(vram[r][c] && covers(rows, ox, oy, r, c));
    }
    if collides(vram, rows, ox, oy) {
        let (r, c) = choose|r: int, c: int|
            0 <= r < 32 && 0 <= c < 64 && #[trigger] vram[r][c] && covers(rows, ox, oy, r, c);
        assert(vram[r][c] && covers_upto(rows, ox, oy, r, c, n, 0));
    }
}

impl Emulator {
    /// The stack pointer is within the stack and the cycle count is below
    /// the timer period.
    pub closed spec fn inv(&self) -> bool {
        self.stack_pointer <= 16 && self.time_count < TIMER_PERIOD
    }

    /// A machine that keeps its invariant has a well-formed model.
    pub proof fn lemma_inv_wf(&self)
        requires
            self.inv(),
        ensures
            self@.wf(),
    {
    }

    /// A machine with the font in memory, the program counter at the start
    /// of the program, and everything else zero, off or empty.
    pub fn new() -> (e: Emulator)
        ensures
            e.inv(),
            e@ == initial_machine(),
    {
        let mut e = Emulator {
            memory: [0; 4096],
            p_mem: PeripheralMemory::new([[OFstate::OFF; 64]; 32], [false; 16], Vec::new()),
            stack: [0; 16],
            stack_pointer: 0,
            program_counter: PRGRM_START,
            register_i: 0,
            register_v: [0; 16],
            delay_timer: 0,
            sound_timer: 0,
            time_count: 0,
        };
        e.load_font();
        proof {
            assert(e@.memory =~= initial_machine().memory);
            assert(e@.stack =~= initial_machine().stack);
            assert(e@.v =~= initial_machine().v);
            assert(e@.vram =~~= initial_machine().vram);
            assert(e@.keys =~= initial_machine().keys);
            assert(e@.text =~= initial_machine().text);
        }
        e
    }

    fn load_font(&mut self)
        ensures
            forall|a: int|
                0 <= a < 4096 ==> final(self).memory@[a] == if FONT_START <= a < FONT_START + 80 {
                    FONT@[a - FONT_START]
                } else {
                    old(self).memory@[a]
                },
            final(self).p_mem == old(self).p_mem,
            final(self).stack == old(self).stack,
            final(self).stack_pointer == old(self).stack_pointer,
            final(self).program_counter == old(self).program_counter,
            final(self).register_i == old(self).register_i,
            final(self).register_v == old(self).register_v,
            final(self).delay_timer == old(self).delay_timer,
            final(self).sound_timer == old(self).sound_timer,
            final(self).time_count == old(self).time_count,
    {
        let mut i: usize = 0;
        while i < 80
            invariant
                i <= 80,
                forall|a: int|
                    0 <= a < 4096 ==> self.memory@[a] == if FONT_START <= a < FONT_START + i {
                        FONT@[a - FONT_START]
                    } else {
                        old(self).memory@[a]
                    },
                self.p_mem == old(self).p_mem,
                self.stack == old(self).stack,
                self.stack_pointer == old(self).stack_pointer,
                self.program_counter == old(self).program_counter,
                self.register_i == old(self).register_i,
                self.register_v == old(self).register_v,
                self.delay_timer == old(self).delay_timer,
                self.sound_timer == old(self).sound_timer,
                self.time_count == old(self).time_count,
            decreases 80 - i,
        {
            self.memory[0x50 + i] = FONT[i];
            i += 1;
        }
    }

    fn push_stack(&mut self, data: u16)
        requires
            old(self).inv(),
            old(self)@.stack.len() < 16,
        ensures
            final(self).inv(),
            final(self)@ == (Machine { stack: old(self)@.stack.push(data), ..old(self)@ }),
    {
        self.stack[self.stack_pointer] = data;
        self.stack_pointer += 1;
        assert(self@.stack =~= old(self)@.stack.push(data));
    }

    fn pop_stack(&mut self) -> (data: u16)
        requires
            old(self).inv(),
            old(self)@.stack.len() > 0,
        ensures
            final(self).inv(),
            data == old(self)@.stack.last(),
            final(self)@ == (Machine { stack: old(self)@.stack.drop_last(), ..old(self)@ }),
    {
        self.stack_pointer -= 1;
        let data = self.stack[self.stack_pointer];
        self.stack[self.stack_pointer] = 0;
        assert(self@.stack =~= old(self)@.stack.drop_last());
        data
    }

    fn subroutine(&mut self, nnn: u16) -> (r: Result<(), Error>)
        requires
            old(self).inv(),
        ensures
            final(self).inv(),
            outcome(old(self)@.subroutine(nnn), old(self)@, final(self)@, r),
    {
        if self.stack_pointer >= STACK_SIZE {
            return Err(Error::StackOverflow);
        }
        self.push_stack(self.program_counter);
        self.program_counter = nnn;
        Ok(())
    }

    fn sub_return(&mut self) -> (r: Result<(), Error>)
        requires
            old(self).inv(),
        ensures
            final(self).inv(),
            outcome(old(self)@.sub_return(), old(self)@, final(self)@, r),
    {
        if self.stack_pointer == 0 {
            return Err(Error::StackUnderflow);
        }
        self.program_counter = self.pop_stack();
        Ok(())
    }

    fn jump(&mut self, nnn: u16)
        requires
            old(self).inv(),
        ensures
            final(self).inv(),
            final(self)@ == old(self)@.set_pc(nnn),
    {
        self.program_counter = nnn;
    }

    fn offset_jump(&mut self, nnn: u16)
        requires
            old(self).inv(),
            nnn < 0x1000,
        ensures
            final(self).inv(),
            final(self)@ == old(self)@.set_pc((nnn + old(self)@.v[0]) as u16),
    {
        let offset = self.register_v[0x00];
        self.program_counter = nnn + offset as u16;
    }

    fn set_vx(&mut self, x: u8, nn: u8)
        requires
            old(self).inv(),
            x < 16,
        ensures
            final(self).inv(),
            final(self)@ == old(self)@.set_v(x as int, nn),
    {
        self.register_v[x as usize] = nn;
    }

    fn add_vx_vy(&mut self, x: u8, y: u8)
        requires
            old(self).inv(),
            x < 16,
            y < 16,
        ensures
            final(self).inv(),
            final(self)@ == old(self)@.add_vx_vy(x as int, y as int),
    {
        let vx = self.register_v[x as usize] as u16;
        let vy = self.register_v[y as usize] as u16;
        let result = vx + vy;
        self.register_v[x as usize] = (result % 256) as u8;
        self.register_v[0x0f] = if result > 255 {
            1
        } else {
            0
        };
    }

    fn vx_minus_vy(&mut self, x: u8, y: u8)
        requires
            old(self).inv(),
            x < 16,
            y < 16,
        ensures
            final(self).inv(),
            final(self)@ == old(self)@.vx_minus_vy(x as int, y as int),
    {
        let vx = self.register_v[x as usize];
        let vy = self.register_v[y as usize];
        let result = vx.wrapping_sub(vy);
        self.register_v[x as usize] = result;
        self.register_v[0x0f] = if vx >= vy {
            1
        } else {
            0
        };
    }

    fn vy_minus_vx(&mut self, x: u8, y: u8)
        requires
            old(self).inv(),
            x < 16,
            y < 16,
        ensures
            final(self).inv(),
            final(self)@ == old(self)@.vy_minus_vx(x as int, y as int),
    {
        let vx = self.register_v[x as usize];
        let vy = self.register_v[y as usize];
        let result = vy.wrapping_sub(vx);
        self.register_v[x as usize] = result;
        self.register_v[0x0f] = if vy >= vx {
            1
        } else {
            0
        };
    }

    fn set_vx_vy(&mut self, x: u8, y: u8)
        requires
            old(self).inv(),
            x < 16,
            y < 16,
        ensures
            final(self).inv(),
            final(self)@ == old(self)@.set_v(x as int, old(self)@.v[y as int]),
    {
        self.register_v[x as usize] = self.register_v[y as usize];
    }

    fn add_vx(&mut self, x: u8, nn: u8)
        requires
            old(self).inv(),
            x < 16,
        ensures
            final(self).inv(),
            final(self)@ == old(self)@.set_v(
                x as int,
                ((old(self)@.v[x as int] + nn) % 256) as u8,
            ),
    {
        self.register_v[x as usize] = self.register_v[x as usize].wrapping_add(nn);
    }

    fn binary_or(&mut self, x: u8, y: u8)
        requires
            old(self).inv(),
            x < 16,
            y < 16,
        ensures
            final(self).inv(),
            final(self)@ == old(self)@.set_v(
                x as int,
                old(self)@.v[x as int] | old(self)@.v[y as int],
            ),
    {
        let vx = self.register_v[x as usize];
        let vy = self.register_v[y as usize];
        self.register_v[x as usize] = vx | vy;
    }

    fn binary_and(&mut self, x: u8, y: u8)
        requires
            old(self).inv(),
            x < 16,
            y < 16,
        ensures
            final(self).inv(),
            final(self)@ == old(self)@.set_v(
                x as int,
                old(self)@.v[x as int] & old(self)@.v[y as int],
            ),
    {
        let vx = self.register_v[x as usize];
        let vy = self.register_v[y as usize];
        self.register_v[x as usize] = vx & vy;
    }

    fn logical_xor(&mut self, x: u8, y: u8)
        requires
            old(self).inv(),
            x < 16,
            y < 16,
        ensures
            final(self).inv(),
            final(self)@ == old(self)@.set_v(
                x as int,
                old(self)@.v[x as int] ^ old(self)@.v[y as int],
            ),
    {
        let vx = self.register_v[x as usize];
        let vy = self.register_v[y as usize];
        self.register_v[x as usize] = vx ^ vy;
    }

    fn shift_left(&mut self, x: u8)
        requires
            old(self).inv(),
            x < 16,
        ensures
            final(self).inv(),
            final(self)@ == old(self)@.shift_left(x as int),
    {
        let vx = self.register_v[x as usize];
        let out = (vx & 0b10000000) >> 7;
        let shifted = vx << 1;
        assert(out == vx / 128 && shifted == (vx * 2) % 256) by (bit_vector)
            requires
                out == (vx & 0b10000000u8) >> 7u8,
                shifted == vx << 1u8,
        ;
        self.register_v[x as usize] = shifted;
        self.register_v[0x0f] = out;
    }

    fn shift_right(&mut self, x: u8)
        requires
            old(self).inv(),
            x < 16,
        ensures
            final(self).inv(),
            final(self)@ == old(self)@.shift_right(x as int),
    {
        let vx = self.register_v[x as usize];
        let out = vx & 1;
        let shifted = vx >> 1;
        assert(out == vx % 2 && shifted == vx / 2) by (bit_vector)
            requires
                out == vx & 1u8,
                shifted == vx >> 1u8,
        ;
        self.register_v[x as usize] = shifted;
        self.register_v[0x0f] = out;
    }

    fn set_index(&mut self, nnn: u16)
        requires
            old(self).inv(),
        ensures
            final(self).inv(),
            final(self)@ == old(self)@.set_index(nnn),
    {
        self.register_i = nnn;
    }

    fn add_to_index(&mut self, x: u8) -> (r: Result<(), Error>)
        requires
            old(self).inv(),
            x < 16,
        ensures
            final(self).inv(),
            outcome(old(self)@.add_to_index(x as int), old(self)@, final(self)@, r),
    {
        let vx = self.register_v[x as usize] as u16;
        if self.register_i > 0xFFFF - vx {
            return Err(Error::OutOfBounds);
        }
        self.register_i += vx;
        if self.register_i > 0x0FFF {
            self.register_v[0x0f] = 1;
        }
        Ok(())
    }

    fn font_char(&mut self, x: u8)
        requires
            old(self).inv(),
            x < 16,
        ensures
            final(self).inv(),
            final(self)@ == old(self)@.font_char(x as int),
    {
        self.register_i = (self.register_v[x as usize] as u16 * 5) + 0x50;
    }

    fn bcd_convert(&mut self, x: u8) -> (r: Result<(), Error>)
        requires
            old(self).inv(),
            x < 16,
        ensures
            final(self).inv(),
            outcome(old(self)@.bcd_convert(x as int), old(self)@, final(self)@, r),
    {
        if self.register_i as usize + 2 >= MEM_SIZE {
            return Err(Error::OutOfBounds);
        }
        let vx = self.register_v[x as usize];
        self.memory[self.register_i as usize] = vx / 100;
        self.memory[self.register_i as usize + 1] = (vx / 10) % 10;
        self.memory[self.register_i as usize + 2] = vx % 10;
        Ok(())
    }

    fn set_delay_timer(&mut self, x: u8)
        requires
            old(self).inv(),
            x < 16,
        ensures
            final(self).inv(),
            final(self)@ == (Machine { delay: old(self)@.v[x as int], ..old(self)@ }),
    {
        self.delay_timer = self.register_v[x as usize];
    }

    fn set_sound_timer(&mut self, x: u8)
        requires
            old(self).inv(),
            x < 16,
        ensures
            final(self).inv(),
            final(self)@ == (Machine { sound: old(self)@.v[x as int], ..old(self)@ }),
    {
        self.sound_timer = self.register_v[x as usize];
    }

    fn set_vx_to_delay(&mut self, x: u8)
        requires
            old(self).inv(),
            x < 16,
        ensures
            final(self).inv(),
            final(self)@ == old(self)@.set_v(x as int, old(self)@.delay),
    {
        self.register_v[x as usize] = self.delay_timer;
    }

    /// Advances the program counter by one instruction if `cond` holds.
    fn skip_if(&mut self, cond: bool) -> (r: Result<(), Error>)
        requires
            old(self).inv(),
        ensures
            final(self).inv(),
            outcome(old(self)@.skip_if(cond), old(self)@, final(self)@, r),
    {
        if cond {
            if self.program_counter > 0xFFFF - 2 {
                return Err(Error::OutOfBounds);
            }
            self.program_counter += 2;
        }
        Ok(())
    }

    fn skip_if_equal(&mut self, x: u8, nn: u8) -> (r: Result<(), Error>)
        requires
            old(self).inv(),
            x < 16,
        ensures
            final(self).inv(),
            outcome(
                old(self)@.skip_if(old(self)@.v[x as int] == nn),
                old(self)@,
                final(self)@,
                r,
            ),
    {
        let hit = self.register_v[x as usize] == nn;
        self.skip_if(hit)
    }

    fn skip_not_equal(&mut self, x: u8, nn: u8) -> (r: Result<(), Error>)
        requires
            old(self).inv(),
            x < 16,
        ensures
            final(self).inv(),
            outcome(
                old(self)@.skip_if(old(self)@.v[x as int] != nn),
                old(self)@,
                final(self)@,
                r,
            ),
    {
        let hit = self.register_v[x as usize] != nn;
        self.skip_if(hit)
    }

    fn skip_both_equal(&mut self, x: u8, y: u8) -> (r: Result<(), Error>)
        requires
            old(self).inv(),
            x < 16,
            y < 16,
        ensures
            final(self).inv(),
            outcome(
                old(self)@.skip_if(old(self)@.v[x as int] == old(self)@.v[y as int]),
                old(self)@,
                final(self)@,
                r,
            ),
    {
        let hit = self.register_v[x as usize] == self.register_v[y as usize];
        self.skip_if(hit)
    }

    fn skip_none_equal(&mut self, x: u8, y: u8) -> (r: Result<(), Error>)
        requires
            old(self).inv(),
            x < 16,
            y < 16,
        ensures
            final(self).inv(),
            outcome(
                old(self)@.skip_if(old(self)@.v[x as int] != old(self)@.v[y as int]),
                old(self)@,
                final(self)@,
                r,
            ),
    {
        let hit = self.register_v[x as usize] != self.register_v[y as usize];
        self.skip_if(hit)
    }

    fn skip_if_key(&mut self, x: u8) -> (r: Result<(), Error>)
        requires
            old(self).inv(),
            x < 16,
        ensures
            final(self).inv(),
            outcome(old(self)@.skip_on_key(x as int, true), old(self)@, final(self)@, r),
    {
        let key = self.register_v[x as usize];
        if key >= 16 {
            return Err(Error::OutOfBounds);
        }
        let hit = self.p_mem.key_list[key as usize];
        self.skip_if(hit)
    }

    fn skip_not_key(&mut self, x: u8) -> (r: Result<(), Error>)
        requires
            old(self).inv(),
            x < 16,
        ensures
            final(self).inv(),
            outcome(old(self)@.skip_on_key(x as int, false), old(self)@, final(self)@, r),
    {
        let key = self.register_v[x as usize];
        if key >= 16 {
            return Err(Error::OutOfBounds);
        }
        let hit = !self.p_mem.key_list[key as usize];
        self.skip_if(hit)
    }

    fn get_key(&mut self, x: u8) -> (r: Result<(), Error>)
        requires
            old(self).inv(),
            x < 16,
        ensures
            final(self).inv(),
            outcome(old(self)@.get_key(x as int), old(self)@, final(self)@, r),
    {
        let mut i: usize = 0;
        while i < 16
            invariant
                i <= 16,
                x < 16,
                self.inv(),
                *self == *old(self),
                forall|j: int| 0 <= j < i ==> !self.p_mem.key_list@[j],
            decreases 16 - i,
        {
            if self.p_mem.key_list[i] {
                proof {
                    lemma_lowest_pressed_skip(self@.keys, 0, i as int);
                }
                self.register_v[x as usize] = i as u8;
                return Ok(());
            }
            i += 1;
        }
        proof {
            lemma_lowest_pressed_skip(self@.keys, 0, 16);
        }
        if self.program_counter < 2 {
            return Err(Error::OutOfBounds);
        }
        self.program_counter -= 2;
        Ok(())
    }

    fn store_mem(&mut self, x: u8) -> (r: Result<(), Error>)
        requires
            old(self).inv(),
            x < 16,
        ensures
            final(self).inv(),
            outcome(old(self)@.store_mem(x as int), old(self)@, final(self)@, r),
    {
        if self.register_i as usize + x as usize >= MEM_SIZE {
            return Err(Error::OutOfBounds);
        }
        let base = self.register_i as usize;
        let mut i: usize = 0;
        while i <= x as usize
            invariant
                i <= x + 1,
                x < 16,
                base == old(self).register_i,
                base + x < 4096,
                forall|a: int|
                    0 <= a < 4096 ==> self.memory@[a] == if base <= a < base + i {
                        old(self).register_v@[a - base]
                    } else {
                        old(self).memory@[a]
                    },
                self.p_mem == old(self).p_mem,
                self.stack == old(self).stack,
                self.stack_pointer == old(self).stack_pointer,
                self.program_counter == old(self).program_counter,
                self.register_i == old(self).register_i,
                self.register_v == old(self).register_v,
                self.delay_timer == old(self).delay_timer,
                self.sound_timer == old(self).sound_timer,
                self.time_count == old(self).time_count,
            decreases x + 1 - i,
        {
            let value = self.register_v[i];
            self.memory[base + i] = value;
            i += 1;
        }
        assert(self@.memory =~= old(self)@.store_mem(x as int)->Ok_0.memory);
        Ok(())
    }

    fn load_mem(&mut self, x: u8) -> (r: Result<(), Error>)
        requires
            old(self).inv(),
            x < 16,
        ensures
            final(self).inv(),
            outcome(old(self)@.load_mem(x as int), old(self)@, final(self)@, r),
    {
        if self.register_i as usize + x as usize >= MEM_SIZE {
            return Err(Error::OutOfBounds);
        }
        let base = self.register_i as usize;
        let mut i: usize = 0;
        while i <= x as usize
            invariant
                i <= x + 1,
                x < 16,
                base == old(self).register_i,
                base + x < 4096,
                forall|k: int|
                    0 <= k < 16 ==> self.register_v@[k] == if k < i {
                        old(self).memory@[base + k]
                    } else {
                        old(self).register_v@[k]
                    },
                self.p_mem == old(self).p_mem,
                self.stack == old(self).stack,
                self.stack_pointer == old(self).stack_pointer,
                self.program_counter == old(self).program_counter,
                self.register_i == old(self).register_i,
                self.memory == old(self).memory,
                self.delay_timer == old(self).delay_timer,
                self.sound_timer == old(self).sound_timer,
                self.time_count == old(self).time_count,
            decreases x + 1 - i,
        {
            let value = self.memory[base + i];
            self.register_v[i] = value;
            i += 1;
        }
        assert(self@.v =~= old(self)@.load_mem(x as int)->Ok_0.v);
        Ok(())
    }

    /// Stores the drawn byte `num`, masked with `nn`, in register `x`.
    fn random(&mut self, x: u8, nn: u8, num: u8)
        requires
            old(self).inv(),
            x < 16,
        ensures
            final(self).inv(),
            final(self)@ == old(self)@.set_v(x as int, num & nn),
    {
        self.register_v[x as usize] = num & nn;
    }

    fn decrement_timers(&mut self)
        requires
            old(self).inv(),
        ensures
            final(self).inv(),
            final(self)@ == old(self)@.decrement_timers(),
    {
        if self.delay_timer > 0 {
            self.delay_timer -= 1;
        }
        if self.sound_timer > 0 {
            self.sound_timer -= 1;
        }
    }

    /// Counts one cycle and lets the timers go down on every twelfth.
    fn tick(&mut self)
        requires
            old(self).inv(),
        ensures
            final(self).inv(),
            final(self)@ == old(self)@.tick(),
    {
        if self.time_count + 1 == TIMER_PERIOD {
            self.time_count = 0;
            self.decrement_timers();
        } else {
            self.time_count += 1;
        }
    }

    /// Puts every pixel of the framebuffer out.
    fn clear(&mut self)
        requires
            old(self).inv(),
        ensures
            final(self).inv(),
            final(self)@ == (Machine { vram: crate::emulator::model::blank(), ..old(self)@ }),
    {
        self.p_mem.vram = [[OFstate::OFF; 64]; 32];
        assert(self@.vram =~~= crate::emulator::model::blank());
    }

    /// Draws the sprite of `n` rows at the index register with its top left
    /// corner at the column in register `x` and the row in register `y`.
    /// Every pixel wraps round the edges of the framebuffer on its own. The
    /// corner is read before the flag register is reset.
    fn disp(&mut self, x: u8, y: u8, n: u8) -> (r: Result<(), Error>)
        requires
            old(self).inv(),
            x < 16,
            y < 16,
            n < 16,
        ensures
            final(self).inv(),
            outcome(old(self)@.disp(x as int, y as int, n as int), old(self)@, final(self)@, r),
    {
        if n > 0 && self.register_i as usize + n as usize > MEM_SIZE {
            return Err(Error::OutOfBounds);
        }
        let origin_x = self.register_v[x as usize];
        let origin_y = self.register_v[y as usize];
        let base = self.register_i as usize;
        let ghost before = vram_view(old(self).p_mem.vram);
        let ghost rows = sprite_rows(old(self)@.memory, old(self).register_i, n as int);
        proof {
            lemma_draw_ends(before, rows, origin_x, origin_y);
        }
        self.register_v[0x0f] = 0;
        let mut offset: u8 = 0;
        while offset < n
            invariant
                offset <= n < 16,
                rows.len() == n,
                n > 0 ==> base + n <= 4096,
                base == old(self).register_i,
                before == vram_view(old(self).p_mem.vram),
                rows == sprite_rows(old(self)@.memory, old(self).register_i, n as int),
                forall|r: int, c: int|
                    0 <= r < 32 && 0 <= c < 64 ==> self.p_mem.vram@[r]@[c].lit() == (before[r][c]
                        != #[trigger] covers_upto(rows, origin_x, origin_y, r, c, offset as int, 0)),
                self.register_v@ == old(self).register_v@.update(
                    15,
                    bit(collides_upto(before, rows, origin_x, origin_y, offset as int, 0)),
                ),
                self.memory == old(self).memory,
                self.p_mem.key_list == old(self).p_mem.key_list,
                self.p_mem.text == old(self).p_mem.text,
                self.stack == old(self).stack,
                self.stack_pointer == old(self).stack_pointer,
                self.program_counter == old(self).program_counter,
                self.register_i == old(self).register_i,
                self.delay_timer == old(self).delay_timer,
                self.sound_timer == old(self).sound_timer,
                self.time_count == old(self).time_count,
            decreases n - offset,
        {
            let y_coord = (origin_y as usize + offset as usize) % 32;
            let byte = self.memory[base + offset as usize];
            let mut bit_index: u8 = 0;
            while bit_index < 8
                invariant
                    bit_index <= 8,
                    offset < n < 16,
                    rows.len() == n,
                    y_coord == (origin_y + offset) % 32,
                    byte == rows[offset as int],
                    before == vram_view(old(self).p_mem.vram),
                    forall|r: int, c: int|
                        0 <= r < 32 && 0 <= c < 64 ==> self.p_mem.vram@[r]@[c].lit() == (
                        before[r][c] != #[trigger] covers_upto(
                            rows,
                            origin_x,
                            origin_y,
                            r,
                            c,
                            offset as int,
                            bit_index as int,
                        )),
                    self.register_v@ == old(self).register_v@.update(
                        15,
                        bit(
                            collides_upto(
                                before,
                                rows,
                                origin_x,
                                origin_y,
                                offset as int,
                                bit_index as int,
                            ),
                        ),
                    ),
                    self.memory == old(self).memory,
                    self.p_mem.key_list == old(self).p_mem.key_list,
                    self.p_mem.text == old(self).p_mem.text,
                    self.stack == old(self).stack,
                    self.stack_pointer == old(self).stack_pointer,
                    self.program_counter == old(self).program_counter,
                    self.register_i == old(self).register_i,
                    self.delay_timer == old(self).delay_timer,
                    self.sound_timer == old(self).sound_timer,
                    self.time_count == old(self).time_count,
                decreases 8 - bit_index,
            {
                let x_coord = (origin_x as usize + bit_index as usize) % 64;
                proof {
                    lemma_draw_bit(
                        before,
                        rows,
                        origin_x,
                        origin_y,
                        offset as int,
                        bit_index as int,
                    );
                    assert forall|r: int, c: int| 0 <= r < 32 && 0 <= c < 64 implies #[trigger] covers_upto(
                        rows,
                        origin_x,
                        origin_y,
                        r,
                        c,
                        offset as int,
                        bit_index + 1,
                    ) == (covers_upto(rows, origin_x, origin_y, r, c, offset as int, bit_index as int)
                        || (r == y_coord && c == x_coord && sprite_bit(byte, bit_index))) by {
                        lemma_draw_bit_covers(
                            rows,
                            origin_x,
                            origin_y,
                            offset as int,
                            bit_index as int,
                            r,
                            c,
                        );
                    }
                    lemma_draw_bit_covers(
                        rows,
                        origin_x,
                        origin_y,
                        offset as int,
                        bit_index as int,
                        y_coord as int,
                        x_coord as int,
                    );
                }
                if (byte >> (7 - bit_index)) & 1 == 1 {
                    if self.p_mem.vram[y_coord][x_coord].is_on() {
                        self.p_mem.vram[y_coord][x_coord] = OFstate::OFF;
                        self.register_v[0x0f] = 1;
                    } else {
                        self.p_mem.vram[y_coord][x_coord] = OFstate::ON;
                    }
                }
                bit_index += 1;
            }
            proof {
                lemma_draw_row_done(before, rows, origin_x, origin_y, offset as int);
                let next = offset + 1;
                assert forall|r: int, c: int| #[trigger]
                    covers_upto(rows, origin_x, origin_y, r, c, next, 0) == covers_upto(
                        rows,
                        origin_x,
                        origin_y,
                        r,
                        c,
                        offset as int,
                        8,
                    ) by {}
            }
            offset += 1;
        }
        proof {
            let want = old(self)@.disp(x as int, y as int, n as int)->Ok_0;
            lemma_draw_ends(before, rows, origin_x, origin_y);
            assert forall|r: int, c: int| 0 <= r < 32 && 0 <= c < 64 implies self@.vram[r][c]
                == want.vram[r][c] by {
                assert(covers_upto(rows, origin_x, origin_y, r, c, n as int, 0) == covers(
                    rows,
                    origin_x,
                    origin_y,
                    r,
                    c,
                ));
            }
            assert(self@.vram =~~= want.vram);
            assert(self@.v =~= want.v);
        }
        Ok(())
    }

    /// Applies one instruction. `rnd` is the byte that a random instruction
    /// stores under its mask; no other instruction looks at it. An operand
    /// out of its range is refused. On an error the machine is left as it
    /// was.
    pub fn execute_with(&mut self, op: Op, rnd: u8) -> (r: Result<(), Error>)
        requires
            old(self).inv(),
        ensures
            final(self).inv(),
            outcome(old(self)@.step(op, rnd), old(self)@, final(self)@, r),
    {
        if !op.is_wf() {
            return Err(Error::OutOfBounds);
        }
        match op {
            Op::ClearScreen => {
                self.clear();
                Ok(())
            },
            Op::Return => self.sub_return(),
            Op::SkipIfKey { x } => self.skip_if_key(x),
            Op::SkipNotKey { x } => self.skip_not_key(x),
            Op::SetVxToDelay { x } => {
                self.set_vx_to_delay(x);
                Ok(())
            },
            Op::GetKey { x } => self.get_key(x),
            Op::SetDelayTimer { x } => {
                self.set_delay_timer(x);
                Ok(())
            },
            Op::SetSoundTimer { x } => {
                self.set_sound_timer(x);
                Ok(())
            },
            Op::AddToIndex { x } => self.add_to_index(x),
            Op::FontChar { x } => {
                self.font_char(x);
                Ok(())
            },
            Op::BcdConvert { x } => self.bcd_convert(x),
            Op::StoreMem { x } => self.store_mem(x),
            Op::LoadMem { x } => self.load_mem(x),
            Op::SkipBothEqual { x, y } => self.skip_both_equal(x, y),
            Op::SetVxVy { x, y } => {
                self.set_vx_vy(x, y);
                Ok(())
            },
            Op::BinaryOr { x, y } => {
                self.binary_or(x, y);
                Ok(())
            },
            Op::BinaryAnd { x, y } => {
                self.binary_and(x, y);
                Ok(())
            },
            Op::LogicalXor { x, y } => {
                self.logical_xor(x, y);
                Ok(())
            },
            Op::AddVxVy { x, y } => {
                self.add_vx_vy(x, y);
                Ok(())
            },
            Op::VxMinusVy { x, y } => {
                self.vx_minus_vy(x, y);
                Ok(())
            },
            Op::ShiftRight { x } => {
                self.shift_right(x);
                Ok(())
            },
            Op::VyMinusVx { x, y } => {
                self.vy_minus_vx(x, y);
                Ok(())
            },
            Op::ShiftLeft { x } => {
                self.shift_left(x);
                Ok(())
            },
            Op::SkipNoneEqual { x, y } => self.skip_none_equal(x, y),
            Op::Jump { addr } => {
                self.jump(addr);
                Ok(())
            },
            Op::Call { addr } => self.subroutine(addr),
            Op::SkipIfEqual { x, nn } => self.skip_if_equal(x, nn),
            Op::SkipNotEqual { x, nn } => self.skip_not_equal(x, nn),
            Op::SetVx { x, nn } => {
                self.set_vx(x, nn);
                Ok(())
            },
            Op::AddVx { x, nn } => {
                self.add_vx(x, nn);
                Ok(())
            },
            Op::SetIndex { addr } => {
                self.set_index(addr);
                Ok(())
            },
            Op::OffsetJump { addr } => {
                self.offset_jump(addr);
                Ok(())
            },
            Op::Random { x, nn } => {
                self.random(x, nn, rnd);
                Ok(())
            },
            Op::Draw { x, y, n } => self.disp(x, y, n),
        }
    }

    /// Applies one instruction, drawing the byte of a random instruction
    /// from the random number generator. What holds of `execute_with` holds
    /// here for the byte that was drawn.
    pub fn execute(&mut self, op: Op) -> (r: Result<(), Error>)
        requires
            old(self).inv(),
        ensures
            final(self).inv(),
            exists|rnd: u8| outcome(old(self)@.step(op, rnd), old(self)@, final(self)@, r),
            !(op is Random) ==> outcome(old(self)@.step(op, 0), old(self)@, final(self)@, r),
    {
        let rnd = match op {
            Op::Random { .. } => random_byte(),
            _ => 0,
        };
        let r = self.execute_with(op, rnd);
        assert(outcome(old(self)@.step(op, rnd), old(self)@, self@, r));
        r
    }

    /// Reads the instruction word at the program counter, high byte first,
    /// and moves the program counter past it.
    fn fetch(&mut self) -> (r: Result<u16, Error>)
        requires
            old(self).inv(),
        ensures
            final(self).inv(),
            match old(self)@.fetch() {
                Ok((m, word)) => r == Ok::<u16, Error>(word) && final(self)@ == m,
                Err(e) => r == Err::<u16, Error>(e) && final(self)@ == old(self)@,
            },
    {
        if self.program_counter as usize + 1 >= MEM_SIZE {
            return Err(Error::OutOfBounds);
        }
        let first_byte = self.memory[self.program_counter as usize] as u16;
        let second_byte = self.memory[self.program_counter as usize + 1] as u16;
        let instruction = first_byte << 8 | second_byte;
        assert(instruction == first_byte * 256 + second_byte) by (bit_vector)
            requires
                instruction == first_byte << 8u16 | second_byte,
                first_byte < 256,
                second_byte < 256,
        ;
        self.program_counter += 2;
        Ok(instruction)
    }

    /// The instruction that the next cycle will run, or the error that it
    /// will halt with before anything changes.
    pub fn next_op(&self) -> (r: Result<Op, Error>)
        requires
            self.inv(),
        ensures
            r == self@.next_op(),
    {
        if self.program_counter as usize + 1 >= MEM_SIZE {
            return Err(Error::OutOfBounds);
        }
        let first_byte = self.memory[self.program_counter as usize] as u16;
        let second_byte = self.memory[self.program_counter as usize + 1] as u16;
        decode(first_byte * 256 + second_byte, self.program_counter)
    }

    /// Runs one cycle: the clock ticks, the instruction at the program
    /// counter is fetched, decoded and applied. `rnd` is the byte that a
    /// random instruction stores under its mask. On an error the machine is
    /// left as it was before the cycle, with the program counter at the
    /// instruction that failed.
    pub fn cycle_with(&mut self, rnd: u8) -> (r: Result<(), Error>)
        requires
            old(self).inv(),
        ensures
            final(self).inv(),
            outcome(old(self)@.cycle(rnd), old(self)@, final(self)@, r),
    {
        let pc = self.program_counter;
        let delay = self.delay_timer;
        let sound = self.sound_timer;
        let count = self.time_count;
        self.tick();
        let fetched = self.fetch();
        let decoded = match fetched {
            Ok(word) => decode(word, pc),
            Err(e) => Err(e),
        };
        let r = match decoded {
            Ok(op) => self.execute_with(op, rnd),
            Err(e) => Err(e),
        };
        if r.is_err() {
            self.program_counter = pc;
            self.delay_timer = delay;
            self.sound_timer = sound;
            self.time_count = count;
        }
        r
    }

    /// Runs one cycle, drawing the byte of a random instruction from the
    /// random number generator. What holds of `cycle_with` holds here for
    /// the byte that was drawn.
    pub fn cycle(&mut self) -> (r: Result<(), Error>)
        requires
            old(self).inv(),
        ensures
            final(self).inv(),
            exists|rnd: u8| outcome(old(self)@.cycle(rnd), old(self)@, final(self)@, r),
            !(old(self)@.next_op() matches Ok(Op::Random { .. })) ==> outcome(
                old(self)@.cycle(0),
                old(self)@,
                final(self)@,
                r,
            ),
    {
        let rnd = match self.next_op() {
            Ok(Op::Random { .. }) => random_byte(),
            _ => 0,
        };
        let r = self.cycle_with(rnd);
        assert(outcome(old(self)@.cycle(rnd), old(self)@, self@, r));
        r
    }

    /// Copies the program `rom` into memory from the start address on. A
    /// program that does not fit is refused and memory is left as it was.
    pub fn load_rom(&mut self, rom: &[u8]) -> (r: Result<(), Error>)
        requires
            old(self).inv(),
        ensures
            final(self).inv(),
            outcome(old(self)@.load_rom(rom@), old(self)@, final(self)@, r),
    {
        if rom.len() > MEM_SIZE - 0x200 {
            return Err(Error::OutOfBounds);
        }
        let mut i: usize = 0;
        while i < rom.len()
            invariant
                i <= rom.len() <= 4096 - 0x200,
                forall|a: int|
                    0 <= a < 4096 ==> self.memory@[a] == if 0x200 <= a < 0x200 + i {
                        rom@[a - 0x200]
                    } else {
                        old(self).memory@[a]
                    },
                self.p_mem == old(self).p_mem,
                self.stack == old(self).stack,
                self.stack_pointer == old(self).stack_pointer,
                self.program_counter == old(self).program_counter,
                self.register_i == old(self).register_i,
                self.register_v == old(self).register_v,
                self.delay_timer == old(self).delay_timer,
                self.sound_timer == old(self).sound_timer,
                self.time_count == old(self).time_count,
            decreases rom.len() - i,
        {
            self.memory[0x200 + i] = rom[i];
            i += 1;
        }
        assert(self@.memory =~= old(self)@.load_rom(rom@)->Ok_0.memory);
        Ok(())
    }

    /// The program counter.
    pub fn program_counter(&self) -> (pc: u16)
        ensures
            pc == self@.pc,
    {
        self.program_counter
    }

    /// The index register.
    pub fn register_i(&self) -> (index: u16)
        ensures
            index == self@.index,
    {
        self.register_i
    }

    /// The sixteen general registers.
    pub fn register_v(&self) -> (v: &[u8; 16])
        ensures
            v@ == self@.v,
    {
        &self.register_v
    }

    /// The whole of memory.
    pub fn memory(&self) -> (memory: &[u8; 4096])
        ensures
            memory@ == self@.memory,
    {
        &self.memory
    }

    /// The delay timer.
    pub fn delay_timer(&self) -> (t: u8)
        ensures
            t == self@.delay,
    {
        self.delay_timer
    }

    /// The sound timer. A tone is due while it is not zero.
    pub fn sound_timer(&self) -> (t: u8)
        ensures
            t == self@.sound,
    {
        self.sound_timer
    }

    /// The number of return addresses on the call stack.
    pub fn stack_pointer(&self) -> (n: usize)
        requires
            self.inv(),
        ensures
            n == self@.stack.len(),
    {
        self.stack_pointer
    }

    /// The return address in slot `i` of the call stack, the oldest in slot
    /// zero, or `None` for a slot that is not in use.
    pub fn return_address(&self, i: usize) -> (a: Option<u16>)
        requires
            self.inv(),
        ensures
            a == if i < self@.stack.len() {
                Some(self@.stack[i as int])
            } else {
                None
            },
    {
        if i < self.stack_pointer {
            Some(self.stack[i])
        } else {
            None
        }
    }

    /// The framebuffer, the key latch and the on-screen log.
    pub fn peripherals(&self) -> (p: &PeripheralMemory)
        ensures
            vram_view(p.vram) == self@.vram,
            p.key_list@ == self@.keys,
            p.text@ == self@.text,
    {
        &self.p_mem
    }

    /// Replaces the key latch: `key_list[k]` tells whether key `k` is held
    /// down.
    pub fn set_keys(&mut self, key_list: [bool; 16])
        requires
            old(self).inv(),
        ensures
            final(self).inv(),
            final(self)@ == (Machine { keys: key_list@, ..old(self)@ }),
    {
        self.p_mem.key_list = key_list;
    }

    /// Adds a line to the on-screen log.
    pub fn log(&mut self, line: TextData)
        requires
            old(self).inv(),
        ensures
            final(self).inv(),
            final(self)@ == (Machine { text: old(self)@.text.push(line), ..old(self)@ }),
    {
        self.p_mem.text.push(line);
    }
}

} // verus!
