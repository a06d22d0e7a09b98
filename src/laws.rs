use vstd::prelude::*;
use crate::model::{
    add_reg, clear_screen, covers, load_image, MAX_IMAGE_SIZE, START_ADDRESS, draw, draw_covers, family, fetch, first_pressed, low_byte, low_nibble,
    next_state, reg_x, reg_y, sprite_bit, sub_reg, sub_reverse, State, MEMORY_SIZE, PIXEL_ON, VF,
    VIDEO_SIZE,
};

verus! {

/// Loading an image that fits puts its bytes unchanged at the start address
/// onwards and leaves every other byte of memory, and everything but memory,
/// as it was.
pub proof fn lemma_load_image(s: State, image: Seq<u8>)
    requires
        s.wf(),
        image.len() <= MAX_IMAGE_SIZE,
    ensures
        ({
            let t = load_image(s, image);
            &&& t.wf()
            &&& forall|i: int| 0 <= i < image.len() ==> t.memory[START_ADDRESS + i] == image[i]
            &&& forall|a: int|
                0 <= a < MEMORY_SIZE && !(START_ADDRESS <= a < START_ADDRESS + image.len())
                    ==> t.memory[a] == s.memory[a]
            &&& t == State { memory: t.memory, ..s }
        }),
{
}

/// Drawing a sprite whose rows are all zero on a cleared screen leaves every
/// pixel off and reports no collision.
pub proof fn lemma_blank_sprite_on_cleared_screen(s: State, op: u16)
    requires
        s.wf(),
        family(op) == 0xD,
        forall|r: int| 0 <= r < low_nibble(op) ==> #[trigger] s.memory[s.index + r] == 0,
        draw(State { opcode: op, ..clear_screen(s) }) is Ok,
    ensures
        ({
            let t = draw(State { opcode: op, ..clear_screen(s) })->Ok_0;
            &&& forall|p: int| 0 <= p < VIDEO_SIZE ==> t.video[p] == 0
            &&& t.registers[VF as int] == 0
        }),
{
    let c = State { opcode: op, ..clear_screen(s) };
    reveal(covers);
    assert forall|p: int| 0 <= p < VIDEO_SIZE implies !draw_covers(c, p) by {
        assert forall|k: u8| (0u8 & (0x80u8 >> k)) == 0 by {
            assert((0u8 & (0x80u8 >> k)) == 0) by (bit_vector);
        }
    }
}

/// Drawing the same sprite twice at the same place gives back the framebuffer
/// as it was, and the second draw reports a collision where the first lit a
/// pixel. The position registers must not be the flags register, which the
/// first draw overwrites.
pub proof fn lemma_draw_twice_restores(s: State)
    requires
        s.wf(),
        reg_x(s.opcode) != VF,
        reg_y(s.opcode) != VF,
        draw(s) is Ok,
    ensures
        ({
            let once = draw(s)->Ok_0;
            let twice = draw(once);
            &&& twice is Ok
            &&& twice->Ok_0.video == s.video
            &&& (exists|p: int| 0 <= p < VIDEO_SIZE && draw_covers(s, p) && s.video[p] == 0)
                ==> twice->Ok_0.registers[VF as int] == 1
        }),
{
    let once = draw(s)->Ok_0;
    assert forall|p: int| 0 <= p < VIDEO_SIZE implies draw_covers(once, p) == draw_covers(s, p) by {
        assert(once.registers[reg_x(s.opcode)] == s.registers[reg_x(s.opcode)]);
        assert(once.registers[reg_y(s.opcode)] == s.registers[reg_y(s.opcode)]);
    }
    let twice = draw(once)->Ok_0;
    assert forall|v: u8| #![auto] (v ^ PIXEL_ON) ^ PIXEL_ON == v by {
        assert((v ^ 0xFFu8) ^ 0xFFu8 == v) by (bit_vector);
    }
    assert(twice.video =~= s.video);
    if exists|p: int| 0 <= p < VIDEO_SIZE && draw_covers(s, p) && s.video[p] == 0 {
        let p = choose|p: int| 0 <= p < VIDEO_SIZE && draw_covers(s, p) && s.video[p] == 0;
        assert((0u8 ^ 0xFFu8) == 0xFFu8) by (bit_vector);
        assert(draw_covers(once, p) && once.video[p] == PIXEL_ON);
    }
}

/// Adding registers: VF is 1 exactly when the sum exceeds 255, and Vx holds
/// the sum modulo 256. Vx must not be the flags register, which the sum
/// overwrites.
pub proof fn lemma_add_registers(s: State)
    requires
        s.wf(),
        reg_x(s.opcode) != VF,
    ensures
        ({
            let (a, b) = (s.registers[reg_x(s.opcode)], s.registers[reg_y(s.opcode)]);
            let t = add_reg(s);
            &&& t.registers[VF as int] == (if a + b > 255 { 1u8 } else { 0u8 })
            &&& t.registers[reg_x(s.opcode)] == (a + b) % 256
        }),
{
}

/// Subtracting registers, in both orders: VF is 1 exactly when the minuend
/// exceeds the subtrahend, and Vx holds the difference modulo 256. Vx must
/// not be the flags register, which would keep the difference.
pub proof fn lemma_subtract_registers(s: State)
    requires
        s.wf(),
        reg_x(s.opcode) != VF,
    ensures
        ({
            let (a, b) = (s.registers[reg_x(s.opcode)], s.registers[reg_y(s.opcode)]);
            let t = sub_reg(s);
            let u = sub_reverse(s);
            &&& t.registers[VF as int] == (if a > b { 1u8 } else { 0u8 })
            &&& t.registers[reg_x(s.opcode)] == (a - b) % 256
            &&& u.registers[VF as int] == (if b > a { 1u8 } else { 0u8 })
            &&& u.registers[reg_x(s.opcode)] == (b - a) % 256
        }),
{
}

/// One step on an add-registers or subtract-registers instruction sets VF
/// and Vx as the two laws above say, from the operands as they were before
/// the step.
pub proof fn lemma_step_arithmetic(s: State, random: u8)
    requires
        s.wf(),
        s.pc + 1 < MEMORY_SIZE,
        family(fetch(s)) == 0x8,
        low_nibble(fetch(s)) == 0x4 || low_nibble(fetch(s)) == 0x5 || low_nibble(fetch(s))
            == 0x7,
        reg_x(fetch(s)) != VF,
    ensures
        next_state(s, random) is Ok,
        ({
            let op = fetch(s);
            let (a, b) = (s.registers[reg_x(op)], s.registers[reg_y(op)]);
            let t = next_state(s, random)->Ok_0;
            &&& low_nibble(op) == 0x4 ==> t.registers[VF as int] == (if a + b > 255 {
                1u8
            } else {
                0u8
            }) && t.registers[reg_x(op)] == (a + b) % 256
            &&& low_nibble(op) == 0x5 ==> t.registers[VF as int] == (if a > b {
                1u8
            } else {
                0u8
            }) && t.registers[reg_x(op)] == (a - b) % 256
            &&& low_nibble(op) == 0x7 ==> t.registers[VF as int] == (if b > a {
                1u8
            } else {
                0u8
            }) && t.registers[reg_x(op)] == (b - a) % 256
            &&& t.pc == s.pc + 2
        }),
{
    let f = State { opcode: fetch(s), pc: (s.pc + 2) as u16, ..s };
    lemma_add_registers(f);
    lemma_subtract_registers(f);
}

/// A call followed at once by a return resumes at the instruction after the
/// call, with the stack as deep as before.
pub proof fn lemma_call_then_return(s: State, r1: u8, r2: u8)
    requires
        s.wf(),
        s.pc + 1 < MEMORY_SIZE,
        family(fetch(s)) == 0x2,
        s.sp < 16,
        ({
            let t = next_state(s, r1)->Ok_0;
            t.pc + 1 < MEMORY_SIZE && fetch(t) == 0x00EE
        }),
    ensures
        next_state(s, r1) is Ok,
        next_state(next_state(s, r1)->Ok_0, r2) is Ok,
        next_state(next_state(s, r1)->Ok_0, r2)->Ok_0.pc == s.pc + 2,
        next_state(next_state(s, r1)->Ok_0, r2)->Ok_0.sp == s.sp,
{
    let t = next_state(s, r1)->Ok_0;
    assert(t.stack[s.sp as int] == s.pc + 2);
    assert(family(0x00EE) == 0 && low_nibble(0x00EE) == 0xE);
}

/// The wait-for-key instruction: with no key pressed the program counter
/// stays on it and memory and keys are as they were, so the next step runs
/// it again; with a key pressed the
/// program moves on and Vx holds the lowest pressed key.
pub proof fn lemma_wait_for_key(s: State, random: u8)
    requires
        s.wf(),
        s.pc + 1 < MEMORY_SIZE,
        family(fetch(s)) == 0xF,
        low_byte(fetch(s)) == 0x0A,
    ensures
        next_state(s, random) is Ok,
        (forall|k: int| 0 <= k < 16 ==> s.keypad[k] == 0) ==> ({
            let t = next_state(s, random)->Ok_0;
            &&& t.pc == s.pc
            &&& t.registers == s.registers
            &&& t.memory == s.memory
            &&& t.keypad == s.keypad
        }),
        (exists|k: int| 0 <= k < 16 && s.keypad[k] != 0) ==> ({
            let t = next_state(s, random)->Ok_0;
            &&& t.pc == s.pc + 2
            &&& t.registers[reg_x(fetch(s))] == first_pressed(s.keypad, 0)
            &&& s.keypad[first_pressed(s.keypad, 0)] != 0
        }),
{
    lemma_first_pressed(s.keypad, 0);
}

/// `first_pressed` finds a pressed key when there is one at or above `from`,
/// and none when there is not.
proof fn lemma_first_pressed(keypad: Seq<u8>, from: int)
    requires
        keypad.len() == 16,
        0 <= from <= 16,
    ensures
        from <= first_pressed(keypad, from) <= 16,
        first_pressed(keypad, from) < 16 ==> keypad[first_pressed(keypad, from)] != 0,
        first_pressed(keypad, from) == 16 <==> forall|k: int| from <= k < 16 ==> keypad[k] == 0,
    decreases 16 - from,
{
    if from < 16 {
        lemma_first_pressed(keypad, from + 1);
    }
}

} // verus!
