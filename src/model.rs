use vstd::prelude::*;

verus! {

/// Width of the display in pixels.
pub const VIDEO_WIDTH: u8 = 64;

/// Height of the display in pixels.
pub const VIDEO_HEIGHT: u8 = 32;

/// Address at which a program image is loaded and execution begins.
pub const START_ADDRESS: u16 = 0x200;

/// Address of the first byte of the built-in font.
pub const FONTSET_START_ADDRESS: u16 = 0x50;

/// Number of bytes of the built-in font: sixteen glyphs of five bytes.
pub const FONTSET_SIZE: usize = 80;

/// Size of the address space in bytes.
pub const MEMORY_SIZE: usize = 4096;

/// Number of cells of the framebuffer.
pub const VIDEO_SIZE: usize = 2048;

/// Value of a framebuffer cell that is lit.
pub const PIXEL_ON: u8 = 0xFF;

/// Index of the flags register.
pub const VF: usize = 15;

/// A condition under which an instruction cannot be carried out. The machine
/// is left exactly as it was when one is reported.
#[derive(PartialEq, Eq, Structural, Clone, Copy, Debug)]
pub enum Fault {
    /// The program counter does not address two bytes inside memory.
    PcOutOfRange,
    /// A call was made with all sixteen stack slots in use.
    StackOverflow,
    /// A return was made with no call pending.
    StackUnderflow,
    /// An instruction reads or writes memory past its last byte.
    MemoryOutOfRange,
    /// A key instruction names a key above 0xF.
    InvalidKey,
    /// A program image does not fit between the start address and the end
    /// of memory.
    ImageTooLarge,
}

/// The whole machine as a mathematical value.
pub struct State {
    pub registers: Seq<u8>,
    pub memory: Seq<u8>,
    pub index: u16,
    pub pc: u16,
    pub stack: Seq<u16>,
    pub sp: u8,
    pub delay_timer: u8,
    pub sound_timer: u8,
    pub keypad: Seq<u8>,
    pub video: Seq<u8>,
    pub opcode: u16,
}

/// The sixteen glyphs of the hexadecimal digits, five bytes each.
pub open spec fn font() -> Seq<u8> {
    seq![
        0xF0u8, 0x90, 0x90, 0x90, 0xF0, // 0
        0x20, 0x60, 0x20, 0x20, 0x70, // 1
        0xF0, 0x10, 0xF0, 0x80, 0xF0, // 2
        0xF0, 0x10, 0xF0, 0x10, 0xF0, // 3
        0x90, 0x90, 0xF0, 0x10, 0x10, // 4
        0xF0, 0x80, 0xF0, 0x10, 0xF0, // 5
        0xF0, 0x80, 0xF0, 0x90, 0xF0, // 6
        0xF0, 0x10, 0x20, 0x40, 0x40, // 7
        0xF0, 0x90, 0xF0, 0x90, 0xF0, // 8
        0xF0, 0x90, 0xF0, 0x10, 0xF0, // 9
        0xF0, 0x90, 0xF0, 0x90, 0x90, // A
        0xE0, 0x90, 0xE0, 0x90, 0xE0, // B
        0xF0, 0x80, 0x80, 0x80, 0xF0, // C
        0xE0, 0x90, 0x90, 0x90, 0xE0, // D
        0xF0, 0x80, 0xF0, 0x80, 0xF0, // E
        0xF0, 0x80, 0xF0, 0x80, 0x80, // F
    ]
}

/// Memory at power-on: the font at its offset, every other byte zero.
pub open spec fn initial_memory() -> Seq<u8> {
    Seq::new(
        MEMORY_SIZE as nat,
        |a: int|
            if FONTSET_START_ADDRESS <= a < FONTSET_START_ADDRESS + FONTSET_SIZE {
                font()[a - FONTSET_START_ADDRESS]
            } else {
                0u8
            },
    )
}

/// The machine at power-on.
pub open spec fn initial_state() -> State {
    State {
        registers: Seq::new(16, |i: int| 0u8),
        memory: initial_memory(),
        index: 0,
        pc: START_ADDRESS,
        stack: Seq::new(16, |i: int| 0u16),
        sp: 0,
        delay_timer: 0,
        sound_timer: 0,
        keypad: Seq::new(16, |i: int| 0u8),
        video: Seq::new(VIDEO_SIZE as nat, |i: int| 0u8),
        opcode: 0,
    }
}

/// The most bytes a program image can hold.
pub const MAX_IMAGE_SIZE: usize = 3584;

impl State {
    /// Every sequence has the length of the array it models.
    pub open spec fn wf(self) -> bool {
        &&& self.registers.len() == 16
        &&& self.memory.len() == MEMORY_SIZE
        &&& self.stack.len() == 16
        &&& self.keypad.len() == 16
        &&& self.video.len() == VIDEO_SIZE
    }
}

/// Whether an operation that reported `r` and turned `before` into `after`
/// did what `expected` says: the state it gives, or the fault with no change.
pub open spec fn follows(
    r: Result<(), Fault>,
    before: State,
    after: State,
    expected: Result<State, Fault>,
) -> bool {
    match expected {
        Ok(t) => r is Ok && after == t,
        Err(e) => r == Err::<(), Fault>(e) && after == before,
    }
}

/// The top nibble of an instruction word, which selects its family.
pub open spec fn family(op: u16) -> int {
    op as int / 4096
}

/// The register named by the second nibble.
pub open spec fn reg_x(op: u16) -> int {
    (op as int / 256) % 16
}

/// The register named by the third nibble.
pub open spec fn reg_y(op: u16) -> int {
    (op as int / 16) % 16
}

/// The bottom nibble.
pub open spec fn low_nibble(op: u16) -> int {
    op as int % 16
}

/// The bottom byte, an immediate operand.
pub open spec fn low_byte(op: u16) -> u8 {
    (op as int % 256) as u8
}

/// The bottom twelve bits, an address operand.
pub open spec fn address(op: u16) -> u16 {
    (op as int % 4096) as u16
}

/// The instruction word stored big-endian at the program counter.
pub open spec fn fetch(s: State) -> u16 {
    (s.memory[s.pc as int] as int * 256 + s.memory[s.pc as int + 1] as int) as u16
}

/// `s` with its register file replaced.
pub open spec fn with_registers(s: State, registers: Seq<u8>) -> State {
    State { registers, ..s }
}

/// `s` with register `i` set to `v`.
pub open spec fn set_register(s: State, i: int, v: u8) -> State {
    with_registers(s, s.registers.update(i, v))
}

/// Moves past the next instruction when `c` holds.
pub open spec fn skip_if(s: State, c: bool) -> State {
    if c {
        State { pc: (s.pc + 2) as u16, ..s }
    } else {
        s
    }
}

/// 00E0: every pixel off.
pub open spec fn clear_screen(s: State) -> State {
    State { video: Seq::new(VIDEO_SIZE as nat, |i: int| 0u8), ..s }
}

/// 00EE: pop the return address.
pub open spec fn return_from_call(s: State) -> Result<State, Fault> {
    if s.sp == 0 {
        Err(Fault::StackUnderflow)
    } else if s.sp > 16 {
        Err(Fault::StackOverflow)
    } else {
        Ok(State { sp: (s.sp - 1) as u8, pc: s.stack[s.sp - 1], ..s })
    }
}

/// 1nnn: jump to nnn.
pub open spec fn jump(s: State) -> State {
    State { pc: address(s.opcode), ..s }
}

/// 2nnn: push the program counter and jump to nnn.
pub open spec fn call(s: State) -> Result<State, Fault> {
    if s.sp >= 16 {
        Err(Fault::StackOverflow)
    } else {
        Ok(
            State {
                stack: s.stack.update(s.sp as int, s.pc),
                sp: (s.sp + 1) as u8,
                pc: address(s.opcode),
                ..s
            },
        )
    }
}

/// 3xkk: skip when Vx equals kk.
pub open spec fn skip_eq_byte(s: State) -> State {
    skip_if(s, s.registers[reg_x(s.opcode)] == low_byte(s.opcode))
}

/// 4xkk: skip when Vx differs from kk.
pub open spec fn skip_ne_byte(s: State) -> State {
    skip_if(s, s.registers[reg_x(s.opcode)] != low_byte(s.opcode))
}

/// 5xy0: skip when Vx equals Vy.
pub open spec fn skip_eq_reg(s: State) -> State {
    skip_if(s, s.registers[reg_x(s.opcode)] == s.registers[reg_y(s.opcode)])
}

/// 6xkk: Vx = kk.
pub open spec fn load_byte(s: State) -> State {
    set_register(s, reg_x(s.opcode), low_byte(s.opcode))
}

/// 7xkk: Vx = Vx + kk modulo 256; the flags are left alone.
pub open spec fn add_byte(s: State) -> State {
    let x = reg_x(s.opcode);
    set_register(s, x, ((s.registers[x] + low_byte(s.opcode)) % 256) as u8)
}

/// 8xy0: Vx = Vy.
pub open spec fn load_reg(s: State) -> State {
    set_register(s, reg_x(s.opcode), s.registers[reg_y(s.opcode)])
}

/// 8xy1: Vx = Vx | Vy.
pub open spec fn or_reg(s: State) -> State {
    let (x, y) = (reg_x(s.opcode), reg_y(s.opcode));
    set_register(s, x, s.registers[x] | s.registers[y])
}

/// 8xy2: Vx = Vx & Vy.
pub open spec fn and_reg(s: State) -> State {
    let (x, y) = (reg_x(s.opcode), reg_y(s.opcode));
    set_register(s, x, s.registers[x] & s.registers[y])
}

/// 8xy3: Vx = Vx ^ Vy.
pub open spec fn xor_reg(s: State) -> State {
    let (x, y) = (reg_x(s.opcode), reg_y(s.opcode));
    set_register(s, x, s.registers[x] ^ s.registers[y])
}

/// 8xy4: VF = carry of Vx + Vy, then Vx = the low byte of the sum.
pub open spec fn add_reg(s: State) -> State {
    let (x, y) = (reg_x(s.opcode), reg_y(s.opcode));
    let sum = s.registers[x] + s.registers[y];
    let flagged = s.registers.update(VF as int, if sum > 255 { 1u8 } else { 0u8 });
    with_registers(s, flagged.update(x, (sum % 256) as u8))
}

/// 8xy5: VF = (Vx > Vy), then Vx = Vx - Vy modulo 256, both operands read
/// before either write. When Vx is VF, the difference is what VF keeps.
pub open spec fn sub_reg(s: State) -> State {
    let (x, y) = (reg_x(s.opcode), reg_y(s.opcode));
    let (a, b) = (s.registers[x], s.registers[y]);
    let r = s.registers.update(VF as int, if a > b { 1u8 } else { 0u8 });
    with_registers(s, r.update(x, ((a - b) % 256) as u8))
}

/// 8xy6: VF = the low bit of Vx, then Vx is shifted right by one.
pub open spec fn shift_right(s: State) -> State {
    let x = reg_x(s.opcode);
    let r = s.registers.update(VF as int, s.registers[x] % 2);
    with_registers(s, r.update(x, r[x] / 2))
}

/// 8xy7: VF = (Vy > Vx), then Vx = Vy - Vx modulo 256, both operands read
/// before either write. When Vx is VF, the difference is what VF keeps.
pub open spec fn sub_reverse(s: State) -> State {
    let (x, y) = (reg_x(s.opcode), reg_y(s.opcode));
    let (a, b) = (s.registers[x], s.registers[y]);
    let r = s.registers.update(VF as int, if b > a { 1u8 } else { 0u8 });
    with_registers(s, r.update(x, ((b - a) % 256) as u8))
}

/// 8xyE: VF = the high bit of Vx, then Vx is shifted left by one.
pub open spec fn shift_left(s: State) -> State {
    let x = reg_x(s.opcode);
    let r = s.registers.update(VF as int, s.registers[x] / 128);
    with_registers(s, r.update(x, ((r[x] * 2) % 256) as u8))
}

/// 9xy0: skip when Vx differs from Vy.
pub open spec fn skip_ne_reg(s: State) -> State {
    skip_if(s, s.registers[reg_x(s.opcode)] != s.registers[reg_y(s.opcode)])
}

/// Annn: I = nnn.
pub open spec fn load_index(s: State) -> State {
    State { index: address(s.opcode), ..s }
}

/// Bnnn: jump to V0 + nnn.
pub open spec fn jump_offset(s: State) -> State {
    State { pc: (s.registers[0] + address(s.opcode)) as u16, ..s }
}

/// Cxkk: Vx = a random byte masked with kk.
pub open spec fn random_byte_masked(s: State, random: u8) -> State {
    set_register(s, reg_x(s.opcode), random & low_byte(s.opcode))
}

/// Whether column `col` (0 is the leftmost) of a sprite row is set.
pub open spec fn sprite_bit(row: u8, col: int) -> bool {
    row & (0x80u8 >> (col as u8)) != 0
}

/// Whether a sprite of `n` rows at memory `index`, drawn with its top-left
/// corner at (`x0`, `y0`), covers framebuffer cell `p` with a set bit.
/// Rows and columns that run off an edge wrap round to the other side.
#[verifier::opaque]
pub open spec fn covers(memory: Seq<u8>, index: int, n: int, x0: int, y0: int, p: int) -> bool {
    let row = (p / 64 + 32 - y0) % 32;
    let col = (p % 64 + 64 - x0) % 64;
    row < n && col < 8 && sprite_bit(memory[index + row], col)
}

/// Whether the draw that `s.opcode` asks for covers cell `p`.
pub open spec fn draw_covers(s: State, p: int) -> bool {
    covers(
        s.memory,
        s.index as int,
        low_nibble(s.opcode),
        s.registers[reg_x(s.opcode)] as int % 64,
        s.registers[reg_y(s.opcode)] as int % 32,
        p,
    )
}

/// Dxyn: toggles every covered cell; VF = 1 when a lit cell was covered,
/// else 0. The sprite must lie inside memory.
pub open spec fn draw(s: State) -> Result<State, Fault> {
    let n = low_nibble(s.opcode);
    if n > 0 && s.index + n > MEMORY_SIZE {
        Err(Fault::MemoryOutOfRange)
    } else {
        let collision = exists|p: int| 0 <= p < VIDEO_SIZE && draw_covers(s, p) && s.video[p] == PIXEL_ON;
        Ok(
            State {
                video: Seq::new(
                    VIDEO_SIZE as nat,
                    |p: int| if draw_covers(s, p) { s.video[p] ^ PIXEL_ON } else { s.video[p] },
                ),
                registers: s.registers.update(VF as int, if collision { 1u8 } else { 0u8 }),
                ..s
            },
        )
    }
}

/// Ex9E / ExA1: skip when the key named by Vx is pressed (or released).
pub open spec fn skip_key(s: State, pressed: bool) -> Result<State, Fault> {
    let key = s.registers[reg_x(s.opcode)];
    if key >= 16 {
        Err(Fault::InvalidKey)
    } else {
        Ok(skip_if(s, (s.keypad[key as int] != 0) == pressed))
    }
}

/// Fx07: Vx = delay timer.
pub open spec fn load_delay(s: State) -> State {
    set_register(s, reg_x(s.opcode), s.delay_timer)
}

/// The lowest key at or above `from` that is pressed, or 16 when none is.
pub open spec fn first_pressed(keypad: Seq<u8>, from: int) -> int
    decreases 16 - from,
{
    if from >= 16 {
        16
    } else if keypad[from] != 0 {
        from
    } else {
        first_pressed(keypad, from + 1)
    }
}

/// Fx0A: Vx = the lowest pressed key; with none pressed, the program
/// counter steps back so that this instruction runs again.
pub open spec fn wait_key(s: State) -> State {
    let k = first_pressed(s.keypad, 0);
    if k < 16 {
        set_register(s, reg_x(s.opcode), k as u8)
    } else {
        State { pc: (s.pc - 2) as u16, ..s }
    }
}

/// Fx15: delay timer = Vx.
pub open spec fn set_delay(s: State) -> State {
    State { delay_timer: s.registers[reg_x(s.opcode)], ..s }
}

/// Fx18: sound timer = Vx.
pub open spec fn set_sound(s: State) -> State {
    State { sound_timer: s.registers[reg_x(s.opcode)], ..s }
}

/// Fx1E: I = I + Vx modulo 2^16.
pub open spec fn add_index(s: State) -> State {
    State { index: ((s.index + s.registers[reg_x(s.opcode)]) % 65536) as u16, ..s }
}

/// Fx29: I = the address of the glyph for the digit in Vx.
pub open spec fn font_address(s: State) -> State {
    State {
        index: (FONTSET_START_ADDRESS + 5 * s.registers[reg_x(s.opcode)]) as u16,
        ..s
    }
}

/// Fx33: the hundreds, tens and ones of Vx at I, I + 1 and I + 2.
pub open spec fn store_bcd(s: State) -> Result<State, Fault> {
    let v = s.registers[reg_x(s.opcode)];
    let i = s.index as int;
    if i + 3 > MEMORY_SIZE {
        Err(Fault::MemoryOutOfRange)
    } else {
        Ok(
            State {
                memory: s.memory.update(i, v / 100).update(i + 1, (v / 10) % 10).update(
                    i + 2,
                    v % 10,
                ),
                ..s
            },
        )
    }
}

/// Fx55: V0 through Vx stored at I onwards.
pub open spec fn store_registers(s: State) -> Result<State, Fault> {
    let x = reg_x(s.opcode);
    let i = s.index as int;
    if i + x + 1 > MEMORY_SIZE {
        Err(Fault::MemoryOutOfRange)
    } else {
        Ok(
            State {
                memory: Seq::new(
                    MEMORY_SIZE as nat,
                    |a: int| if i <= a <= i + x { s.registers[a - i] } else { s.memory[a] },
                ),
                ..s
            },
        )
    }
}

/// Fx65: V0 through Vx loaded from I onwards.
pub open spec fn load_registers(s: State) -> Result<State, Fault> {
    let x = reg_x(s.opcode);
    let i = s.index as int;
    if i + x + 1 > MEMORY_SIZE {
        Err(Fault::MemoryOutOfRange)
    } else {
        Ok(
            with_registers(
                s,
                Seq::new(16, |r: int| if r <= x { s.memory[i + r] } else { s.registers[r] }),
            ),
        )
    }
}

/// Instructions of family 0, told apart by their bottom nibble.
pub open spec fn execute_family_0(s: State) -> Result<State, Fault> {
    let k = low_nibble(s.opcode);
    if k == 0x0 {
        Ok(clear_screen(s))
    } else if k == 0xE {
        return_from_call(s)
    } else {
        Ok(s)
    }
}

/// Instructions of family 8, told apart by their bottom nibble.
pub open spec fn execute_family_8(s: State) -> State {
    let k = low_nibble(s.opcode);
    if k == 0x0 {
        load_reg(s)
    } else if k == 0x1 {
        or_reg(s)
    } else if k == 0x2 {
        and_reg(s)
    } else if k == 0x3 {
        xor_reg(s)
    } else if k == 0x4 {
        add_reg(s)
    } else if k == 0x5 {
        sub_reg(s)
    } else if k == 0x6 {
        shift_right(s)
    } else if k == 0x7 {
        sub_reverse(s)
    } else if k == 0xE {
        shift_left(s)
    } else {
        s
    }
}

/// Instructions of family E, told apart by their bottom nibble.
pub open spec fn execute_family_e(s: State) -> Result<State, Fault> {
    let k = low_nibble(s.opcode);
    if k == 0xE {
        skip_key(s, true)
    } else if k == 0x1 {
        skip_key(s, false)
    } else {
        Ok(s)
    }
}

/// Instructions of family F, told apart by their bottom byte.
pub open spec fn execute_family_f(s: State) -> Result<State, Fault> {
    let k = low_byte(s.opcode);
    if k == 0x07 {
        Ok(load_delay(s))
    } else if k == 0x0A {
        Ok(wait_key(s))
    } else if k == 0x15 {
        Ok(set_delay(s))
    } else if k == 0x18 {
        Ok(set_sound(s))
    } else if k == 0x1E {
        Ok(add_index(s))
    } else if k == 0x29 {
        Ok(font_address(s))
    } else if k == 0x33 {
        store_bcd(s)
    } else if k == 0x55 {
        store_registers(s)
    } else if k == 0x65 {
        load_registers(s)
    } else {
        Ok(s)
    }
}

/// The effect of the instruction in `s.opcode`, on a state whose program
/// counter already addresses the next instruction. A word that names no
/// instruction changes nothing.
pub open spec fn execute(s: State, random: u8) -> Result<State, Fault> {
    let f = family(s.opcode);
    if f == 0x0 {
        execute_family_0(s)
    } else if f == 0x1 {
        Ok(jump(s))
    } else if f == 0x2 {
        call(s)
    } else if f == 0x3 {
        Ok(skip_eq_byte(s))
    } else if f == 0x4 {
        Ok(skip_ne_byte(s))
    } else if f == 0x5 {
        Ok(skip_eq_reg(s))
    } else if f == 0x6 {
        Ok(load_byte(s))
    } else if f == 0x7 {
        Ok(add_byte(s))
    } else if f == 0x8 {
        Ok(execute_family_8(s))
    } else if f == 0x9 {
        Ok(skip_ne_reg(s))
    } else if f == 0xA {
        Ok(load_index(s))
    } else if f == 0xB {
        Ok(jump_offset(s))
    } else if f == 0xC {
        Ok(random_byte_masked(s, random))
    } else if f == 0xD {
        draw(s)
    } else if f == 0xE {
        execute_family_e(s)
    } else {
        execute_family_f(s)
    }
}

/// Each timer that is not zero goes down by one.
pub open spec fn decay_timers(s: State) -> State {
    State {
        delay_timer: if s.delay_timer > 0 { (s.delay_timer - 1) as u8 } else { 0 },
        sound_timer: if s.sound_timer > 0 { (s.sound_timer - 1) as u8 } else { 0 },
        ..s
    }
}

/// The state after fetch, execute and timer decay, reading `random` if the
/// instruction draws a random byte. On a fault the state does not change.
pub open spec fn next_state(s: State, random: u8) -> Result<State, Fault> {
    if s.pc + 1 >= MEMORY_SIZE {
        Err(Fault::PcOutOfRange)
    } else {
        let fetched = State { opcode: fetch(s), pc: (s.pc + 2) as u16, ..s };
        match execute(fetched, random) {
            Ok(t) => Ok(decay_timers(t)),
            Err(e) => Err(e),
        }
    }
}

/// Memory with `image` copied to the start address onwards; nothing else
/// changes.
pub open spec fn load_image(s: State, image: Seq<u8>) -> State {
    State {
        memory: Seq::new(
            MEMORY_SIZE as nat,
            |a: int|
                if START_ADDRESS <= a < START_ADDRESS + image.len() {
                    image[a - START_ADDRESS]
                } else {
                    s.memory[a]
                },
        ),
        ..s
    }
}

} // verus!
