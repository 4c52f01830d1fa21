use vstd::prelude::*;
use crate::emulator::decode::Op;
use crate::emulator::error::Error;
use crate::emulator::model::{
    Machine, bit, blank, blit, collides, covers, lands, lemma_wrap, lights, mem_size, sprite_bit,
    sprite_rows, stack_size, vram_wf, word_at,
};

verus! {

/// Adding register `y` to register `x` sets the flag register to one
/// exactly if the sum is above 255, and leaves the sum modulo 256 in
/// register `x`, unless `x` is the flag register itself.
pub proof fn law_add_carry(m: Machine, x: u8, y: u8, rnd: u8)
    requires
        m.wf(),
        x < 16,
        y < 16,
    ensures
        m.step(Op::AddVxVy { x, y }, rnd) is Ok,
        ({
            let a = m.v[x as int];
            let b = m.v[y as int];
            let after = m.step(Op::AddVxVy { x, y }, rnd)->Ok_0;
            &&& after.v[15] == 1 <==> a + b > 255
            &&& after.v[15] == 0 <==> a + b <= 255
            &&& x != 15 ==> after.v[x as int] == (a + b) % 256
            &&& forall|i: int| 0 <= i < 15 && i != x ==> after.v[i] == m.v[i]
        }),
{
}

/// Taking register `y` from register `x` sets the flag register to one
/// exactly if the value that `x` held before is at least the value that `y`
/// held, and leaves the difference modulo 256 in register `x`, unless `x`
/// is the flag register itself.
pub proof fn law_sub_borrow(m: Machine, x: u8, y: u8, rnd: u8)
    requires
        m.wf(),
        x < 16,
        y < 16,
    ensures
        m.step(Op::VxMinusVy { x, y }, rnd) is Ok,
        ({
            let a = m.v[x as int];
            let b = m.v[y as int];
            let after = m.step(Op::VxMinusVy { x, y }, rnd)->Ok_0;
            &&& after.v[15] == 1 <==> a >= b
            &&& after.v[15] == 0 <==> a < b
            &&& x != 15 ==> after.v[x as int] == (a - b) % 256
            &&& forall|i: int| 0 <= i < 15 && i != x ==> after.v[i] == m.v[i]
        }),
{
}

/// The three bytes that the decimal store writes are the decimal digits of
/// the register: each is below ten, and together they give its value.
pub proof fn law_bcd_digits(m: Machine, x: u8, rnd: u8)
    requires
        m.wf(),
        x < 16,
        m.index + 2 < mem_size(),
    ensures
        m.step(Op::BcdConvert { x }, rnd) is Ok,
        ({
            let after = m.step(Op::BcdConvert { x }, rnd)->Ok_0;
            let i = m.index as int;
            &&& after.memory[i] < 10 && after.memory[i + 1] < 10 && after.memory[i + 2] < 10
            &&& after.memory[i] * 100 + after.memory[i + 1] * 10 + after.memory[i + 2]
                == m.v[x as int]
            &&& forall|a: int|
                0 <= a < mem_size() && !(i <= a <= i + 2) ==> after.memory[a] == m.memory[a]
        }),
{
}

/// A jump leaves the program counter at its target, so that the next
/// instruction word is read there and not two bytes further on.
pub proof fn law_jump_fetch(m: Machine, addr: u16, rnd: u8)
    requires
        m.wf(),
        addr < 0x1000,
    ensures
        m.step(Op::Jump { addr }, rnd) is Ok,
        ({
            let after = m.step(Op::Jump { addr }, rnd)->Ok_0;
            &&& after.pc == addr
            &&& addr + 1 < mem_size() ==> after.fetch() is Ok && after.fetch()->Ok_0.1 == word_at(
                m.memory,
                addr as int,
            )
        }),
{
}

/// A call that is followed at once by a return leaves the machine as it
/// was before the call: the program counter is back at the instruction
/// after the call and the stack is as deep as before.
pub proof fn law_call_return(m: Machine, addr: u16, rnd: u8)
    requires
        m.wf(),
        addr < 0x1000,
        m.stack.len() < stack_size(),
    ensures
        m.step(Op::Call { addr }, rnd) is Ok,
        m.step(Op::Call { addr }, rnd)->Ok_0.pc == addr,
        m.step(Op::Call { addr }, rnd)->Ok_0.step(Op::Return, rnd) == Ok::<Machine, Error>(m),
{
    let called = m.step(Op::Call { addr }, rnd)->Ok_0;
    assert(called.stack.drop_last() =~= m.stack);
}

/// A call on a full stack and a return on an empty one are errors.
pub proof fn law_stack_bounds(m: Machine, addr: u16, rnd: u8)
    requires
        m.wf(),
        addr < 0x1000,
    ensures
        m.stack.len() == stack_size() ==> m.step(Op::Call { addr }, rnd) == Err::<
            Machine,
            Error,
        >(Error::StackOverflow),
        m.stack.len() == 0 ==> m.step(Op::Return, rnd) == Err::<Machine, Error>(
            Error::StackUnderflow,
        ),
{
}

/// Waiting for a key: while no key is held down a cycle leaves the program
/// counter at the waiting instruction; in the first cycle in which a key is
/// held down the program counter moves on by one instruction and the lowest
/// such key is stored in the register.
pub proof fn law_key_wait(m: Machine, x: u8, rnd: u8)
    requires
        m.wf(),
        m.next_op() == Ok::<Op, Error>(Op::GetKey { x }),
    ensures
        m.cycle(rnd) is Ok,
        ({
            let after = m.cycle(rnd)->Ok_0;
            &&& (forall|k: int| 0 <= k < 16 ==> !m.keys[k]) ==> after == m.tick()
            &&& forall|k: int|
                0 <= k < 16 && m.keys[k] && (forall|j: int| 0 <= j < k ==> !m.keys[j]) ==> after
                    == m.tick().set_pc((m.pc + 2) as u16).set_v(x as int, k as u8)
        }),
{
    let after = m.cycle(rnd)->Ok_0;
    if forall|k: int| 0 <= k < 16 ==> !m.keys[k] {
        crate::emulator::model::lemma_lowest_pressed_skip(m.keys, 0, 16);
    }
    assert forall|k: int|
        0 <= k < 16 && m.keys[k] && (forall|j: int| 0 <= j < k ==> !m.keys[j]) implies after
        == m.tick().set_pc((m.pc + 2) as u16).set_v(x as int, k as u8) by {
        crate::emulator::model::lemma_lowest_pressed_skip(m.keys, 0, k);
    }
}

/// Only the random instruction looks at the random byte.
pub proof fn law_rnd_unused(m: Machine, op: Op, r1: u8, r2: u8)
    requires
        !(op is Random),
    ensures
        m.step(op, r1) == m.step(op, r2),
{
}

/// A sprite covers a pixel exactly if one of its set bits falls on it: bit
/// `b` of row `k` falls on row `oy + k` modulo 32 and column `ox + b`
/// modulo 64.
pub proof fn law_covers_lands(rows: Seq<u8>, ox: u8, oy: u8, r: int, c: int)
    requires
        rows.len() <= 32,
        0 <= r < 32,
        0 <= c < 64,
    ensures
        covers(rows, ox, oy, r, c) <==> exists|k: int, b: int|
            0 <= k < rows.len() && 0 <= b < 8 && #[trigger] lands(ox, oy, k, b, r, c)
                && sprite_bit(rows[k], b as u8),
{
    let kk = (r - oy) % 32;
    let bb = (c - ox) % 64;
    if covers(rows, ox, oy, r, c) {
        lemma_wrap(ox, oy, kk, bb, r, c);
        assert(lands(ox, oy, kk, bb, r, c));
    }
    if exists|k: int, b: int|
        0 <= k < rows.len() && 0 <= b < 8 && #[trigger] lands(ox, oy, k, b, r, c) && sprite_bit(
            rows[k],
            b as u8,
        ) {
        let (k, b) = choose|k: int, b: int|
            0 <= k < rows.len() && 0 <= b < 8 && #[trigger] lands(ox, oy, k, b, r, c)
                && sprite_bit(rows[k], b as u8);
        lemma_wrap(ox, oy, k, b, r, c);
        assert(kk == k && bb == b);
    }
}

/// Drawing a sprite twice at the same place gives back the framebuffer
/// that was there before the first draw.
pub proof fn law_blit_twice(vram: Seq<Seq<bool>>, rows: Seq<u8>, ox: u8, oy: u8)
    requires
        vram_wf(vram),
    ensures
        blit(blit(vram, rows, ox, oy), rows, ox, oy) == vram,
        collides(blit(vram, rows, ox, oy), rows, ox, oy) == lights(vram, rows, ox, oy),
{
    let once = blit(vram, rows, ox, oy);
    assert(blit(once, rows, ox, oy) =~~= vram);
    if collides(once, rows, ox, oy) {
        let (r, c) = choose|r: int, c: int|
            0 <= r < 32 && 0 <= c < 64 && #[trigger] once[r][c] && covers(rows, ox, oy, r, c);
        assert(!vram[r][c] && covers(rows, ox, oy, r, c));
    }
    if lights(vram, rows, ox, oy) {
        let (r, c) = choose|r: int, c: int|
            0 <= r < 32 && 0 <= c < 64 && !#[trigger] vram[r][c] && covers(rows, ox, oy, r, c);
        assert(once[r][c] && covers(rows, ox, oy, r, c));
    }
}

/// Drawing the same sprite twice from the same registers restores the
/// framebuffer, and the second draw reports a collision exactly if the
/// first one turned a pixel on. The registers that hold the corner must not
/// be the flag register, which the first draw overwrites.
pub proof fn law_draw_twice(m: Machine, x: u8, y: u8, n: u8, rnd: u8)
    requires
        m.wf(),
        x < 15,
        y < 15,
        n < 16,
        m.index + n <= mem_size(),
    ensures
        m.step(Op::Draw { x, y, n }, rnd) is Ok,
        m.step(Op::Draw { x, y, n }, rnd)->Ok_0.step(Op::Draw { x, y, n }, rnd) is Ok,
        ({
            let rows = sprite_rows(m.memory, m.index, n as int);
            let ox = m.v[x as int];
            let oy = m.v[y as int];
            let first = m.step(Op::Draw { x, y, n }, rnd)->Ok_0;
            let second = first.step(Op::Draw { x, y, n }, rnd)->Ok_0;
            &&& first.v[15] == bit(collides(m.vram, rows, ox, oy))
            &&& second.vram == m.vram
            &&& second.v[15] == bit(lights(m.vram, rows, ox, oy))
            &&& second == (Machine { v: second.v, ..m })
        }),
{
    let rows = sprite_rows(m.memory, m.index, n as int);
    let ox = m.v[x as int];
    let oy = m.v[y as int];
    law_blit_twice(m.vram, rows, ox, oy);
}

/// A byte that is not zero has a set bit.
proof fn lemma_set_bit(byte: u8)
    requires
        byte != 0,
    ensures
        exists|b: u8| 0 <= b < 8 && #[trigger] sprite_bit(byte, b),
{
    assert(byte != 0 ==> ((byte >> 7u8) & 1 == 1 || (byte >> 6u8) & 1 == 1 || (byte >> 5u8) & 1
        == 1 || (byte >> 4u8) & 1 == 1 || (byte >> 3u8) & 1 == 1 || (byte >> 2u8) & 1 == 1 || (byte
        >> 1u8) & 1 == 1 || (byte >> 0u8) & 1 == 1)) by (bit_vector);
    if (byte >> 7u8) & 1 == 1 {
        assert(sprite_bit(byte, 0));
    } else if (byte >> 6u8) & 1 == 1 {
        assert(sprite_bit(byte, 1));
    } else if (byte >> 5u8) & 1 == 1 {
        assert(sprite_bit(byte, 2));
    } else if (byte >> 4u8) & 1 == 1 {
        assert(sprite_bit(byte, 3));
    } else if (byte >> 3u8) & 1 == 1 {
        assert(sprite_bit(byte, 4));
    } else if (byte >> 2u8) & 1 == 1 {
        assert(sprite_bit(byte, 5));
    } else if (byte >> 1u8) & 1 == 1 {
        assert(sprite_bit(byte, 6));
    } else {
        assert(sprite_bit(byte, 7));
    }
}

/// On a framebuffer with every pixel off, a sprite with a byte that is not
/// zero turns a pixel on and collides with nothing; drawn a second time it
/// puts out every pixel it had turned on and reports a collision.
pub proof fn law_draw_twice_blank(rows: Seq<u8>, ox: u8, oy: u8, k: int)
    requires
        rows.len() <= 15,
        0 <= k < rows.len(),
        rows[k] != 0,
    ensures
        !collides(blank(), rows, ox, oy),
        lights(blank(), rows, ox, oy),
        collides(blit(blank(), rows, ox, oy), rows, ox, oy),
        blit(blit(blank(), rows, ox, oy), rows, ox, oy) == blank(),
{
    law_blit_twice(blank(), rows, ox, oy);
    lemma_set_bit(rows[k]);
    let b = choose|b: u8| 0 <= b < 8 && #[trigger] sprite_bit(rows[k], b);
    let r = (oy + k) % 32;
    let c = (ox + b) % 64;
    assert(lands(ox, oy, k, b as int, r, c));
    law_covers_lands(rows, ox, oy, r, c);
    assert(!blank()[r][c] && covers(rows, ox, oy, r, c));
}

/// An instruction that succeeds on a well-formed machine leaves a
/// well-formed machine: memory, registers, framebuffer and key latch keep
/// their sizes, the stack stays within its capacity.
pub proof fn law_step_wf(m: Machine, op: Op, rnd: u8)
    requires
        m.wf(),
    ensures
        m.step(op, rnd) is Ok ==> m.step(op, rnd)->Ok_0.wf(),
{
}

/// A cycle that succeeds on a well-formed machine leaves a well-formed
/// machine, and the timers never go up in it unless the instruction sets
/// them.
pub proof fn law_cycle_wf(m: Machine, rnd: u8)
    requires
        m.wf(),
    ensures
        m.tick().wf(),
        m.tick().delay <= m.delay,
        m.tick().sound <= m.sound,
        m.cycle(rnd) is Ok ==> m.cycle(rnd)->Ok_0.wf(),
{
    if m.next_op() is Ok {
        law_step_wf(m.tick().set_pc((m.pc + 2) as u16), m.next_op()->Ok_0, rnd);
    }
}

/// A cycle that runs a jump leaves the program counter at the target, and
/// the cycle after it runs the instruction that lies there.
pub proof fn law_jump_cycle(m: Machine, addr: u16, rnd: u8)
    requires
        m.wf(),
        m.next_op() == Ok::<Op, Error>(Op::Jump { addr }),
    ensures
        m.cycle(rnd) is Ok,
        m.cycle(rnd)->Ok_0.pc == addr,
        m.cycle(rnd)->Ok_0.memory == m.memory,
        addr + 1 < mem_size() ==> m.cycle(rnd)->Ok_0.fetch() is Ok && m.cycle(
            rnd,
        )->Ok_0.fetch()->Ok_0.1 == word_at(m.memory, addr as int),
{
}

/// A cycle that runs a call, followed by a cycle that runs a return,
/// leaves the program counter at the instruction after the call and the
/// stack as it was.
pub proof fn law_call_return_cycles(m: Machine, addr: u16, r1: u8, r2: u8)
    requires
        m.wf(),
        m.next_op() == Ok::<Op, Error>(Op::Call { addr }),
        m.stack.len() < stack_size(),
        m.cycle(r1)->Ok_0.next_op() == Ok::<Op, Error>(Op::Return),
    ensures
        m.cycle(r1) is Ok,
        m.cycle(r1)->Ok_0.pc == addr,
        m.cycle(r1)->Ok_0.cycle(r2) is Ok,
        m.cycle(r1)->Ok_0.cycle(r2)->Ok_0.pc == m.pc + 2,
        m.cycle(r1)->Ok_0.cycle(r2)->Ok_0.stack == m.stack,
{
    let called = m.cycle(r1)->Ok_0;
    assert(called.stack.drop_last() =~= m.stack);
}

/// The block store copies the registers from 0 to `x`, `x` included, to
/// memory from the index register on, and changes no other byte and no
/// register.
pub proof fn law_block_store(m: Machine, x: u8, rnd: u8)
    requires
        m.wf(),
        x < 16,
        m.index + x < mem_size(),
    ensures
        m.step(Op::StoreMem { x }, rnd) is Ok,
        ({
            let after = m.step(Op::StoreMem { x }, rnd)->Ok_0;
            &&& forall|k: int| 0 <= k <= x ==> after.memory[m.index + k] == m.v[k]
            &&& forall|a: int|
                0 <= a < mem_size() && !(m.index <= a <= m.index + x) ==> after.memory[a]
                    == m.memory[a]
            &&& after == (Machine { memory: after.memory, ..m })
        }),
{
}

/// The block load reads the registers from 0 to `x`, `x` included, from
/// memory from the index register on, and changes no other register and no
/// byte of memory. A load after a store of the same registers changes
/// nothing.
pub proof fn law_block_load(m: Machine, x: u8, rnd: u8)
    requires
        m.wf(),
        x < 16,
        m.index + x < mem_size(),
    ensures
        m.step(Op::LoadMem { x }, rnd) is Ok,
        ({
            let after = m.step(Op::LoadMem { x }, rnd)->Ok_0;
            &&& forall|k: int| 0 <= k <= x ==> after.v[k] == m.memory[m.index + k]
            &&& forall|k: int| x < k < 16 ==> after.v[k] == m.v[k]
            &&& after == (Machine { v: after.v, ..m })
        }),
        ({
            let stored = m.step(Op::StoreMem { x }, rnd)->Ok_0;
            stored.step(Op::LoadMem { x }, rnd) == Ok::<Machine, Error>(stored)
        }),
{
    let stored = m.step(Op::StoreMem { x }, rnd)->Ok_0;
    assert(stored.step(Op::LoadMem { x }, rnd)->Ok_0.v =~= stored.v);
}

} // verus!
