use vstd::prelude::*;
use crate::model::{
    add_byte, add_index, add_reg, address, and_reg, call, clear_screen, covers, draw, draw_covers,
    execute, execute_family_0, execute_family_8, execute_family_e, execute_family_f, family,
    first_pressed, follows, font, font_address, initial_memory, initial_state, jump, jump_offset,
    load_byte, load_delay, load_image, load_index, load_reg, load_registers, low_byte, low_nibble,
    next_state, or_reg, random_byte_masked, reg_x, reg_y, return_from_call, set_delay, set_sound,
    shift_left, shift_right, skip_eq_byte, skip_eq_reg, skip_key, skip_ne_byte, skip_ne_reg,
    sprite_bit, store_bcd, store_registers, sub_reg, sub_reverse, wait_key, xor_reg, Fault, State,
    FONTSET_SIZE, FONTSET_START_ADDRESS, MAX_IMAGE_SIZE, MEMORY_SIZE, PIXEL_ON, START_ADDRESS, VF,
    VIDEO_HEIGHT, VIDEO_SIZE, VIDEO_WIDTH,
};

verus! {

/// The executable machine. Its fields are public so that a host can write
/// the key state and read the framebuffer between cycles.
pub struct Chip8 {
    pub registers: [u8; 16],
    pub memory: [u8; 4096],
    pub index: u16,
    pub pc: u16,
    pub stack: [u16; 16],
    pub sp: u8,
    pub delay_timer: u8,
    pub sound_timer: u8,
    pub keypad: [u8; 16],
    pub video: [u8; 2048],
    pub opcode: u16,
}

impl View for Chip8 {
    type V = State;

    open spec fn view(&self) -> State {
        State {
            registers: self.registers@,
            memory: self.memory@,
            index: self.index,
            pc: self.pc,
            stack: self.stack@,
            sp: self.sp,
            delay_timer: self.delay_timer,
            sound_timer: self.sound_timer,
            keypad: self.keypad@,
            video: self.video@,
            opcode: self.opcode,
        }
    }
}

fn fontset() -> (r: [u8; 80])
    ensures
        r@ == font(),
{
    let r: [u8; 80] = [
        0xF0, 0x90, 0x90, 0x90, 0xF0, 0x20, 0x60, 0x20, 0x20, 0x70,
        0xF0, 0x10, 0xF0, 0x80, 0xF0, 0xF0, 0x10, 0xF0, 0x10, 0xF0,
        0x90, 0x90, 0xF0, 0x10, 0x10, 0xF0, 0x80, 0xF0, 0x10, 0xF0,
        0xF0, 0x80, 0xF0, 0x90, 0xF0, 0xF0, 0x10, 0x20, 0x40, 0x40,
        0xF0, 0x90, 0xF0, 0x90, 0xF0, 0xF0, 0x90, 0xF0, 0x10, 0xF0,
        0xF0, 0x90, 0xF0, 0x90, 0x90, 0xE0, 0x90, 0xE0, 0x90, 0xE0,
        0xF0, 0x80, 0x80, 0x80, 0xF0, 0xE0, 0x90, 0x90, 0x90, 0xE0,
        0xF0, 0x80, 0xF0, 0x80, 0xF0, 0xF0, 0x80, 0xF0, 0x80, 0x80,
    ];
    assert(r@ =~= font());
    r
}

/// The register named by the second nibble of `op`.
fn x_of(op: u16) -> (x: usize)
    ensures
        x == reg_x(op),
        x < 16,
{
    assert((op & 0x0F00) >> 8 == (op / 256) % 16) by (bit_vector);
    ((op & 0x0F00) >> 8) as usize
}

/// The register named by the third nibble of `op`.
fn y_of(op: u16) -> (y: usize)
    ensures
        y == reg_y(op),
        y < 16,
{
    assert((op & 0x00F0) >> 4 == (op / 16) % 16) by (bit_vector);
    ((op & 0x00F0) >> 4) as usize
}

/// The bottom nibble of `op`.
fn n_of(op: u16) -> (n: u16)
    ensures
        n == low_nibble(op),
        n < 16,
{
    assert(op & 0x000F == op % 16) by (bit_vector);
    op & 0x000F
}

/// The bottom byte of `op`.
fn kk_of(op: u16) -> (kk: u8)
    ensures
        kk == low_byte(op),
{
    assert(op & 0x00FF == op % 256) by (bit_vector);
    (op & 0x00FF) as u8
}

/// The bottom twelve bits of `op`.
fn nnn_of(op: u16) -> (nnn: u16)
    ensures
        nnn == address(op),
        nnn < 4096,
{
    assert(op & 0x0FFF == op % 4096) by (bit_vector);
    op & 0x0FFF
}

/// The top nibble of `op`.
fn family_of(op: u16) -> (f: u16)
    ensures
        f == family(op),
        f < 16,
{
    assert(op >> 12 == op / 4096) by (bit_vector);
    op >> 12
}

/// The big-endian word made of `hi` and `lo`.
fn word(hi: u8, lo: u8) -> (w: u16)
    ensures
        w == hi * 256 + lo,
{
    let h = hi as u16;
    let l = lo as u16;
    assert(h < 256 && l < 256 ==> (h << 8) | l == h * 256 + l) by (bit_vector);
    (h << 8) | l
}

/// Relies on rand::random, which draws a byte from the thread's generator.
/// Nothing is known of the value.
#[verifier::external_body]
fn random_byte() -> (r: u8) {
    rand::random::<u8>()
}

/// Whether cell `q` lies at a sprite position that a row-by-row,
/// left-to-right pass has reached before column `col` of row `row`, for a
/// sprite with its corner at (`x0`, `y0`).
#[verifier::opaque]
spec fn drawn(x0: int, y0: int, q: int, row: int, col: int) -> bool {
    let r = (q / 64 + 32 - y0) % 32;
    let c = (q % 64 + 64 - x0) % 64;
    r < row || (r == row && c < col)
}

/// The cell at column `c` of row `r` of a sprite with its corner at
/// (`x0`, `y0`) lies on screen and is found back from its index.
proof fn lemma_pixel_of(x0: int, y0: int, r: int, c: int)
    requires
        0 <= x0 < 64,
        0 <= y0 < 32,
        0 <= r < 16,
        0 <= c < 8,
    ensures
        ({
            let p = ((y0 + r) % 32) * 64 + (x0 + c) % 64;
            &&& 0 <= p < VIDEO_SIZE
            &&& (p / 64 + 32 - y0) % 32 == r
            &&& (p % 64 + 64 - x0) % 64 == c
        }),
{
    let p = ((y0 + r) % 32) * 64 + (x0 + c) % 64;
    assert(p / 64 == (y0 + r) % 32 && p % 64 == (x0 + c) % 64) by (nonlinear_arith)
        requires
            p == ((y0 + r) % 32) * 64 + (x0 + c) % 64,
            0 <= (x0 + c) % 64 < 64,
            0 <= (y0 + r) % 32 < 32,
    ;
}

/// Every cell is the sprite cell of the row and column that `drawn` gives
/// it.
proof fn lemma_pixel_place(x0: int, y0: int, q: int)
    requires
        0 <= x0 < 64,
        0 <= y0 < 32,
        0 <= q < VIDEO_SIZE,
    ensures
        ({
            let r = (q / 64 + 32 - y0) % 32;
            let c = (q % 64 + 64 - x0) % 64;
            q == ((y0 + r) % 32) * 64 + (x0 + c) % 64
        }),
{
}

/// Drawing the cell at column `col` of row `row` moves that cell, and no
/// other, into the part of the pass already made.
proof fn lemma_cell_step(x0: int, y0: int, row: int, col: int)
    requires
        0 <= x0 < 64,
        0 <= y0 < 32,
        0 <= row < 16,
        0 <= col < 8,
    ensures
        ({
            let p = ((y0 + row) % 32) * 64 + (x0 + col) % 64;
            &&& 0 <= p < VIDEO_SIZE
            &&& drawn(x0, y0, p, row, col + 1)
            &&& !drawn(x0, y0, p, row, col)
            &&& forall|q: int|
                0 <= q < VIDEO_SIZE && q != p ==> drawn(x0, y0, q, row, col + 1) == drawn(
                    x0,
                    y0,
                    q,
                    row,
                    col,
                )
        }),
{
    reveal(drawn);
    lemma_pixel_of(x0, y0, row, col);
    let p = ((y0 + row) % 32) * 64 + (x0 + col) % 64;
    assert forall|q: int| 0 <= q < VIDEO_SIZE && q != p implies drawn(x0, y0, q, row, col + 1)
        == drawn(x0, y0, q, row, col) by {
        lemma_pixel_place(x0, y0, q);
    }
}

/// The cell at column `col` of row `row` is covered exactly when that bit of
/// the sprite's row is set.
proof fn lemma_covers_cell(memory: Seq<u8>, index: int, n: int, x0: int, y0: int, row: int, col: int)
    requires
        0 <= x0 < 64,
        0 <= y0 < 32,
        0 <= row < n,
        n < 16,
        0 <= col < 8,
    ensures
        covers(memory, index, n, x0, y0, ((y0 + row) % 32) * 64 + (x0 + col) % 64)
            == sprite_bit(memory[index + row], col),
{
    reveal(covers);
    lemma_pixel_of(x0, y0, row, col);
}

/// At the start of the pass no cell is drawn. For covered cells, the end of one row of the pass is the start of the
/// next, and the last row leaves every covered cell drawn.
proof fn lemma_rows_done(memory: Seq<u8>, index: int, n: int, x0: int, y0: int)
    requires
        0 <= x0 < 64,
        0 <= y0 < 32,
        0 <= n < 16,
    ensures
        forall|q: int| 0 <= q < VIDEO_SIZE ==> !#[trigger] drawn(x0, y0, q, 0, 0),
        forall|q: int, row: int|
            0 <= q < VIDEO_SIZE && covers(memory, index, n, x0, y0, q) ==> #[trigger] drawn(
                x0,
                y0,
                q,
                row,
                8,
            ) == drawn(x0, y0, q, row + 1, 0),
        forall|q: int|
            0 <= q < VIDEO_SIZE && covers(memory, index, n, x0, y0, q) ==> #[trigger] drawn(
                x0,
                y0,
                q,
                n,
                0,
            ),
{
    reveal(covers);
    reveal(drawn);
}

impl Chip8 {
    /// A machine at power-on: font loaded, program counter at the start
    /// address, everything else zero.
    pub fn new() -> (r: Chip8)
        ensures
            r@ == initial_state(),
    {
        let glyphs = fontset();
        let mut memory: [u8; 4096] = [0u8; 4096];
        let mut i: usize = 0;
        while i < FONTSET_SIZE
            invariant
                i <= FONTSET_SIZE,
                glyphs@ == font(),
                forall|a: int|
                    0 <= a < MEMORY_SIZE ==> memory@[a] == (if FONTSET_START_ADDRESS <= a
                        < FONTSET_START_ADDRESS + i {
                        font()[a - FONTSET_START_ADDRESS]
                    } else {
                        0u8
                    }),
            decreases FONTSET_SIZE - i,
        {
            memory[FONTSET_START_ADDRESS as usize + i] = glyphs[i];
            i = i + 1;
        }
        let r = Chip8 {
            registers: [0u8; 16],
            memory,
            index: 0,
            pc: START_ADDRESS,
            stack: [0u16; 16],
            sp: 0,
            delay_timer: 0,
            sound_timer: 0,
            keypad: [0u8; 16],
            video: [0u8; 2048],
            opcode: 0,
        };
        assert(r.memory@ =~= initial_memory());
        assert(r.registers@ =~= initial_state().registers);
        assert(r.stack@ =~= initial_state().stack);
        assert(r.keypad@ =~= initial_state().keypad);
        assert(r.video@ =~= initial_state().video);
        r
    }
}

impl Chip8 {
    fn op_null(&mut self)
        ensures
            final(self)@ == old(self)@,
    {
    }

    fn op_00e0(&mut self)
        ensures
            final(self)@ == clear_screen(old(self)@),
    {
        self.video = [0u8; 2048];
        assert(self.video@ =~= clear_screen(old(self)@).video);
    }

    fn op_00ee(&mut self) -> (r: Result<(), Fault>)
        ensures
            follows(r, old(self)@, final(self)@, return_from_call(old(self)@)),
    {
        if self.sp == 0 {
            return Err(Fault::StackUnderflow);
        }
        if self.sp > 16 {
            return Err(Fault::StackOverflow);
        }
        self.sp = self.sp - 1;
        self.pc = self.stack[self.sp as usize];
        Ok(())
    }

    fn op_1nnn(&mut self)
        ensures
            final(self)@ == jump(old(self)@),
    {
        self.pc = nnn_of(self.opcode);
    }

    fn op_2nnn(&mut self) -> (r: Result<(), Fault>)
        ensures
            follows(r, old(self)@, final(self)@, call(old(self)@)),
    {
        if self.sp >= 16 {
            return Err(Fault::StackOverflow);
        }
        let address = nnn_of(self.opcode);
        self.stack[self.sp as usize] = self.pc;
        self.sp = self.sp + 1;
        self.pc = address;
        Ok(())
    }

    fn op_3xkk(&mut self)
        requires
            old(self).pc <= MEMORY_SIZE,
        ensures
            final(self)@ == skip_eq_byte(old(self)@),
    {
        let x = x_of(self.opcode);
        if self.registers[x] == kk_of(self.opcode) {
            self.pc = self.pc + 2;
        }
    }

    fn op_4xkk(&mut self)
        requires
            old(self).pc <= MEMORY_SIZE,
        ensures
            final(self)@ == skip_ne_byte(old(self)@),
    {
        let x = x_of(self.opcode);
        if self.registers[x] != kk_of(self.opcode) {
            self.pc = self.pc + 2;
        }
    }

    fn op_5xy0(&mut self)
        requires
            old(self).pc <= MEMORY_SIZE,
        ensures
            final(self)@ == skip_eq_reg(old(self)@),
    {
        let x = x_of(self.opcode);
        let y = y_of(self.opcode);
        if self.registers[x] == self.registers[y] {
            self.pc = self.pc + 2;
        }
    }

    fn op_6xkk(&mut self)
        ensures
            final(self)@ == load_byte(old(self)@),
    {
        let x = x_of(self.opcode);
        self.registers[x] = kk_of(self.opcode);
    }

    fn op_7xkk(&mut self)
        ensures
            final(self)@ == add_byte(old(self)@),
    {
        let x = x_of(self.opcode);
        self.registers[x] = self.registers[x].wrapping_add(kk_of(self.opcode));
    }

    fn op_8xy0(&mut self)
        ensures
            final(self)@ == load_reg(old(self)@),
    {
        let x = x_of(self.opcode);
        let y = y_of(self.opcode);
        self.registers[x] = self.registers[y];
    }

    fn op_8xy1(&mut self)
        ensures
            final(self)@ == or_reg(old(self)@),
    {
        let x = x_of(self.opcode);
        let y = y_of(self.opcode);
        self.registers[x] = self.registers[x] | self.registers[y];
    }

    fn op_8xy2(&mut self)
        ensures
            final(self)@ == and_reg(old(self)@),
    {
        let x = x_of(self.opcode);
        let y = y_of(self.opcode);
        self.registers[x] = self.registers[x] & self.registers[y];
    }

    fn op_8xy3(&mut self)
        ensures
            final(self)@ == xor_reg(old(self)@),
    {
        let x = x_of(self.opcode);
        let y = y_of(self.opcode);
        self.registers[x] = self.registers[x] ^ self.registers[y];
    }

    fn op_8xy4(&mut self)
        ensures
            final(self)@ == add_reg(old(self)@),
    {
        let x = x_of(self.opcode);
        let y = y_of(self.opcode);
        let sum: u16 = self.registers[x] as u16 + self.registers[y] as u16;
        if sum > 255 {
            self.registers[VF] = 1;
        } else {
            self.registers[VF] = 0;
        }
        self.registers[x] = (sum % 256) as u8;
    }

    fn op_8xy5(&mut self)
        ensures
            final(self)@ == sub_reg(old(self)@),
    {
        let x = x_of(self.opcode);
        let y = y_of(self.opcode);
        let minuend = self.registers[x];
        let subtrahend = self.registers[y];
        if minuend > subtrahend {
            self.registers[VF] = 1;
        } else {
            self.registers[VF] = 0;
        }
        self.registers[x] = minuend.wrapping_sub(subtrahend);
    }

    fn op_8xy6(&mut self)
        ensures
            final(self)@ == shift_right(old(self)@),
    {
        let x = x_of(self.opcode);
        self.registers[VF] = self.registers[x] % 2;
        self.registers[x] = self.registers[x] / 2;
    }

    fn op_8xy7(&mut self)
        ensures
            final(self)@ == sub_reverse(old(self)@),
    {
        let x = x_of(self.opcode);
        let y = y_of(self.opcode);
        let subtrahend = self.registers[x];
        let minuend = self.registers[y];
        if minuend > subtrahend {
            self.registers[VF] = 1;
        } else {
            self.registers[VF] = 0;
        }
        self.registers[x] = minuend.wrapping_sub(subtrahend);
    }

    fn op_8xye(&mut self)
        ensures
            final(self)@ == shift_left(old(self)@),
    {
        let x = x_of(self.opcode);
        self.registers[VF] = self.registers[x] / 128;
        self.registers[x] = ((self.registers[x] as u16 * 2) % 256) as u8;
    }

    fn op_9xy0(&mut self)
        requires
            old(self).pc <= MEMORY_SIZE,
        ensures
            final(self)@ == skip_ne_reg(old(self)@),
    {
        let x = x_of(self.opcode);
        let y = y_of(self.opcode);
        if self.registers[x] != self.registers[y] {
            self.pc = self.pc + 2;
        }
    }

    fn op_annn(&mut self)
        ensures
            final(self)@ == load_index(old(self)@),
    {
        self.index = nnn_of(self.opcode);
    }

    fn op_bnnn(&mut self)
        ensures
            final(self)@ == jump_offset(old(self)@),
    {
        self.pc = self.registers[0] as u16 + nnn_of(self.opcode);
    }

    fn op_dxyn(&mut self) -> (r: Result<(), Fault>)
        ensures
            follows(r, old(self)@, final(self)@, draw(old(self)@)),
    {
        let x = x_of(self.opcode);
        let y = y_of(self.opcode);
        let height = n_of(self.opcode) as usize;
        // The sprite's corner wraps onto the screen; so does each pixel.
        let x_pos = (self.registers[x] % VIDEO_WIDTH) as usize;
        let y_pos = (self.registers[y] % VIDEO_HEIGHT) as usize;
        if height > 0 && self.index as usize + height > MEMORY_SIZE {
            return Err(Fault::MemoryOutOfRange);
        }
        let ghost s0 = self@;
        proof {
            lemma_rows_done(s0.memory, s0.index as int, height as int, x_pos as int, y_pos as int);
        }
        let mut collision = false;
        let mut row: usize = 0;
        while row < height
            invariant
                row <= height,
                s0 == old(self)@,
                self@ == (State { video: self.video@, ..s0 }),
                height == low_nibble(s0.opcode),
                height < 16,
                x_pos == s0.registers[reg_x(s0.opcode)] % 64,
                y_pos == s0.registers[reg_y(s0.opcode)] % 32,
                height == 0 || self.index + height <= MEMORY_SIZE,
                forall|q: int|
                    #![trigger self.video@[q]]
                    0 <= q < VIDEO_SIZE ==> self.video@[q] == if draw_covers(s0, q) && drawn(
                        x_pos as int,
                        y_pos as int,
                        q,
                        row as int,
                        0,
                    ) {
                        s0.video[q] ^ PIXEL_ON
                    } else {
                        s0.video[q]
                    },
                collision == exists|q: int|
                    0 <= q < VIDEO_SIZE && draw_covers(s0, q) && drawn(
                        x_pos as int,
                        y_pos as int,
                        q,
                        row as int,
                        0,
                    ) && s0.video[q] == PIXEL_ON,
            decreases height - row,
        {
            let sprite_byte = self.memory[self.index as usize + row];
            let mut col: usize = 0;
            while col < 8
                invariant
                    row < height,
                    col <= 8,
                    s0 == old(self)@,
                    self@ == (State { video: self.video@, ..s0 }),
                    height == low_nibble(s0.opcode),
                    height < 16,
                    x_pos == s0.registers[reg_x(s0.opcode)] % 64,
                    y_pos == s0.registers[reg_y(s0.opcode)] % 32,
                    self.index + height <= MEMORY_SIZE,
                    sprite_byte == s0.memory[s0.index + row],
                    forall|q: int|
                        #![trigger self.video@[q]]
                        0 <= q < VIDEO_SIZE ==> self.video@[q] == if draw_covers(s0, q) && drawn(
                            x_pos as int,
                            y_pos as int,
                            q,
                            row as int,
                            col as int,
                        ) {
                            s0.video[q] ^ PIXEL_ON
                        } else {
                            s0.video[q]
                        },
                    collision == exists|q: int|
                        0 <= q < VIDEO_SIZE && draw_covers(s0, q) && drawn(
                            x_pos as int,
                            y_pos as int,
                            q,
                            row as int,
                            col as int,
                        ) && s0.video[q] == PIXEL_ON,
                decreases 8 - col,
            {
                let p = ((y_pos + row) % 32) * 64 + (x_pos + col) % 64;
                proof {
                    lemma_cell_step(x_pos as int, y_pos as int, row as int, col as int);
                    lemma_covers_cell(
                        s0.memory,
                        s0.index as int,
                        height as int,
                        x_pos as int,
                        y_pos as int,
                        row as int,
                        col as int,
                    );
                }
                assert(self.video@[p as int] == s0.video[p as int]);
                let ghost was_collision = collision;
                if sprite_byte & (0x80u8 >> (col as u8)) != 0 {
                    if self.video[p] == PIXEL_ON {
                        collision = true;
                    }
                    self.video[p] = self.video[p] ^ PIXEL_ON;
                }
                proof {
                    let (x0, y0, r, c, c1) = (
                        x_pos as int,
                        y_pos as int,
                        row as int,
                        col as int,
                        col as int + 1,
                    );
                    if collision {
                        if was_collision {
                            let q = choose|q: int| 0 <= q < VIDEO_SIZE && draw_covers(s0, q)
                                && drawn(x0, y0, q, r, c) && s0.video[q] == PIXEL_ON;
                            assert(0 <= q < VIDEO_SIZE && draw_covers(s0, q)
                                && drawn(x0, y0, q, r, c1) && s0.video[q] == PIXEL_ON);
                        } else {
                            let q = p as int;
                            assert(0 <= q < VIDEO_SIZE && draw_covers(s0, q)
                                && drawn(x0, y0, q, r, c1) && s0.video[q] == PIXEL_ON);
                        }
                    }
                    if exists|q: int| 0 <= q < VIDEO_SIZE && draw_covers(s0, q)
                        && drawn(x0, y0, q, r, c1) && s0.video[q] == PIXEL_ON {
                        let q = choose|q: int| 0 <= q < VIDEO_SIZE && draw_covers(s0, q)
                            && drawn(x0, y0, q, r, c1) && s0.video[q] == PIXEL_ON;
                        if q != p {
                            assert(0 <= q < VIDEO_SIZE && draw_covers(s0, q)
                                && drawn(x0, y0, q, r, c) && s0.video[q] == PIXEL_ON);
                        }
                    }
                }
                col = col + 1;
            }
            proof {
                lemma_rows_done(
                    s0.memory,
                    s0.index as int,
                    height as int,
                    x_pos as int,
                    y_pos as int,
                );
            }
            row = row + 1;
        }
        proof {
            lemma_rows_done(s0.memory, s0.index as int, height as int, x_pos as int, y_pos as int);
        }
        if collision {
            self.registers[VF] = 1;
        } else {
            self.registers[VF] = 0;
        }
        proof {
            let expected = draw(s0)->Ok_0;
            assert(self.video@ =~= expected.video);
        }
        Ok(())
    }

    fn op_ex9e(&mut self) -> (r: Result<(), Fault>)
        requires
            old(self).pc <= MEMORY_SIZE,
        ensures
            follows(r, old(self)@, final(self)@, skip_key(old(self)@, true)),
    {
        let key = self.registers[x_of(self.opcode)];
        if key >= 16 {
            return Err(Fault::InvalidKey);
        }
        if self.keypad[key as usize] > 0 {
            self.pc = self.pc + 2;
        }
        Ok(())
    }

    fn op_exa1(&mut self) -> (r: Result<(), Fault>)
        requires
            old(self).pc <= MEMORY_SIZE,
        ensures
            follows(r, old(self)@, final(self)@, skip_key(old(self)@, false)),
    {
        let key = self.registers[x_of(self.opcode)];
        if key >= 16 {
            return Err(Fault::InvalidKey);
        }
        if self.keypad[key as usize] == 0 {
            self.pc = self.pc + 2;
        }
        Ok(())
    }

    fn op_fx07(&mut self)
        ensures
            final(self)@ == load_delay(old(self)@),
    {
        let x = x_of(self.opcode);
        self.registers[x] = self.delay_timer;
    }

    fn op_fx0a(&mut self)
        requires
            old(self).pc >= 2,
        ensures
            final(self)@ == wait_key(old(self)@),
    {
        let x = x_of(self.opcode);
        let mut i: usize = 0;
        while i < 16
            invariant
                i <= 16,
                x == reg_x(old(self).opcode),
                x < 16,
                self@ == old(self)@,
                first_pressed(self.keypad@, 0) == first_pressed(self.keypad@, i as int),
            decreases 16 - i,
        {
            if self.keypad[i] > 0 {
                self.registers[x] = i as u8;
                return;
            }
            i = i + 1;
        }
        self.pc = self.pc - 2;
    }

    fn op_fx15(&mut self)
        ensures
            final(self)@ == set_delay(old(self)@),
    {
        self.delay_timer = self.registers[x_of(self.opcode)];
    }

    fn op_fx18(&mut self)
        ensures
            final(self)@ == set_sound(old(self)@),
    {
        self.sound_timer = self.registers[x_of(self.opcode)];
    }

    fn op_fx1e(&mut self)
        ensures
            final(self)@ == add_index(old(self)@),
    {
        let x = x_of(self.opcode);
        self.index = self.index.wrapping_add(self.registers[x] as u16);
    }

    fn op_fx29(&mut self)
        ensures
            final(self)@ == font_address(old(self)@),
    {
        let digit = self.registers[x_of(self.opcode)];
        self.index = FONTSET_START_ADDRESS + 5 * digit as u16;
    }

    fn op_fx33(&mut self) -> (r: Result<(), Fault>)
        ensures
            follows(r, old(self)@, final(self)@, store_bcd(old(self)@)),
    {
        let value = self.registers[x_of(self.opcode)];
        let i = self.index as usize;
        if i + 3 > MEMORY_SIZE {
            return Err(Fault::MemoryOutOfRange);
        }
        self.memory[i + 2] = value % 10;
        self.memory[i + 1] = (value / 10) % 10;
        self.memory[i] = value / 100;
        proof {
            assert(self.memory@ =~= store_bcd(old(self)@)->Ok_0.memory);
        }
        Ok(())
    }

    fn op_fx55(&mut self) -> (r: Result<(), Fault>)
        ensures
            follows(r, old(self)@, final(self)@, store_registers(old(self)@)),
    {
        let x = x_of(self.opcode);
        let base = self.index as usize;
        if base + x + 1 > MEMORY_SIZE {
            return Err(Fault::MemoryOutOfRange);
        }
        let ghost s0 = self@;
        let mut i: usize = 0;
        while i <= x
            invariant
                i <= x + 1,
                x == reg_x(s0.opcode),
                base == s0.index,
                base + x + 1 <= MEMORY_SIZE,
                s0 == old(self)@,
                self@ == (State { memory: self.memory@, ..s0 }),
                forall|a: int|
                    0 <= a < MEMORY_SIZE ==> self.memory@[a] == if base <= a < base + i {
                        s0.registers[a - base]
                    } else {
                        s0.memory[a]
                    },
            decreases x + 1 - i,
        {
            self.memory[base + i] = self.registers[i];
            i = i + 1;
        }
        proof {
            assert(self.memory@ =~= store_registers(s0)->Ok_0.memory);
        }
        Ok(())
    }

    fn op_fx65(&mut self) -> (r: Result<(), Fault>)
        ensures
            follows(r, old(self)@, final(self)@, load_registers(old(self)@)),
    {
        let x = x_of(self.opcode);
        let base = self.index as usize;
        if base + x + 1 > MEMORY_SIZE {
            return Err(Fault::MemoryOutOfRange);
        }
        let ghost s0 = self@;
        let mut i: usize = 0;
        while i <= x
            invariant
                i <= x + 1,
                x == reg_x(s0.opcode),
                base == s0.index,
                base + x + 1 <= MEMORY_SIZE,
                s0 == old(self)@,
                self@ == (State { registers: self.registers@, ..s0 }),
                forall|r: int|
                    0 <= r < 16 ==> self.registers@[r] == if r < i {
                        s0.memory[base + r]
                    } else {
                        s0.registers[r]
                    },
            decreases x + 1 - i,
        {
            self.registers[i] = self.memory[base + i];
            i = i + 1;
        }
        proof {
            assert(self.registers@ =~= load_registers(s0)->Ok_0.registers);
        }
        Ok(())
    }

    fn op_cxkk(&mut self, random: u8)
        ensures
            final(self)@ == random_byte_masked(old(self)@, random),
    {
        let x = x_of(self.opcode);
        self.registers[x] = random & kk_of(self.opcode);
    }
}

impl Chip8 {
    fn table_0(&mut self) -> (r: Result<(), Fault>)
        ensures
            follows(r, old(self)@, final(self)@, execute_family_0(old(self)@)),
    {
        let k = n_of(self.opcode);
        if k == 0x0 {
            self.op_00e0();
            Ok(())
        } else if k == 0xE {
            self.op_00ee()
        } else {
            self.op_null();
            Ok(())
        }
    }

    fn table_8(&mut self)
        ensures
            final(self)@ == execute_family_8(old(self)@),
    {
        let k = n_of(self.opcode);
        match k {
            0x0 => self.op_8xy0(),
            0x1 => self.op_8xy1(),
            0x2 => self.op_8xy2(),
            0x3 => self.op_8xy3(),
            0x4 => self.op_8xy4(),
            0x5 => self.op_8xy5(),
            0x6 => self.op_8xy6(),
            0x7 => self.op_8xy7(),
            0xE => self.op_8xye(),
            _ => self.op_null(),
        }
    }

    fn table_e(&mut self) -> (r: Result<(), Fault>)
        requires
            old(self).pc <= MEMORY_SIZE,
        ensures
            follows(r, old(self)@, final(self)@, execute_family_e(old(self)@)),
    {
        let k = n_of(self.opcode);
        if k == 0xE {
            self.op_ex9e()
        } else if k == 0x1 {
            self.op_exa1()
        } else {
            self.op_null();
            Ok(())
        }
    }

    fn table_f(&mut self) -> (r: Result<(), Fault>)
        requires
            old(self).pc >= 2,
        ensures
            follows(r, old(self)@, final(self)@, execute_family_f(old(self)@)),
    {
        let k = kk_of(self.opcode);
        match k {
            0x07 => {
                self.op_fx07();
                Ok(())
            },
            0x0A => {
                self.op_fx0a();
                Ok(())
            },
            0x15 => {
                self.op_fx15();
                Ok(())
            },
            0x18 => {
                self.op_fx18();
                Ok(())
            },
            0x1E => {
                self.op_fx1e();
                Ok(())
            },
            0x29 => {
                self.op_fx29();
                Ok(())
            },
            0x33 => self.op_fx33(),
            0x55 => self.op_fx55(),
            0x65 => self.op_fx65(),
            _ => {
                self.op_null();
                Ok(())
            },
        }
    }

    /// Runs the instruction in `opcode`; the program counter already
    /// addresses the next one.
    fn execute(&mut self, random: u8) -> (r: Result<(), Fault>)
        requires
            2 <= old(self).pc <= MEMORY_SIZE,
        ensures
            follows(r, old(self)@, final(self)@, execute(old(self)@, random)),
    {
        match family_of(self.opcode) {
            0x0 => self.table_0(),
            0x1 => {
                self.op_1nnn();
                Ok(())
            },
            0x2 => self.op_2nnn(),
            0x3 => {
                self.op_3xkk();
                Ok(())
            },
            0x4 => {
                self.op_4xkk();
                Ok(())
            },
            0x5 => {
                self.op_5xy0();
                Ok(())
            },
            0x6 => {
                self.op_6xkk();
                Ok(())
            },
            0x7 => {
                self.op_7xkk();
                Ok(())
            },
            0x8 => {
                self.table_8();
                Ok(())
            },
            0x9 => {
                self.op_9xy0();
                Ok(())
            },
            0xA => {
                self.op_annn();
                Ok(())
            },
            0xB => {
                self.op_bnnn();
                Ok(())
            },
            0xC => {
                self.op_cxkk(random);
                Ok(())
            },
            0xD => self.op_dxyn(),
            0xE => self.table_e(),
            _ => self.table_f(),
        }
    }

    /// Advances the machine by one instruction: fetch the word at the
    /// program counter, move the counter past it, execute it (taking
    /// `random` as the byte that a random instruction draws), then count
    /// each running timer down by one. On a fault nothing changes.
    pub fn step(&mut self, random: u8) -> (r: Result<(), Fault>)
        ensures
            follows(r, old(self)@, final(self)@, next_state(old(self)@, random)),
    {
        if self.pc as usize + 1 >= MEMORY_SIZE {
            return Err(Fault::PcOutOfRange);
        }
        let saved_pc = self.pc;
        let saved_opcode = self.opcode;
        self.opcode = word(self.memory[self.pc as usize], self.memory[self.pc as usize + 1]);
        self.pc = self.pc + 2;
        if let Err(e) = self.execute(random) {
            self.pc = saved_pc;
            self.opcode = saved_opcode;
            return Err(e);
        }
        if self.delay_timer > 0 {
            self.delay_timer = self.delay_timer - 1;
        }
        if self.sound_timer > 0 {
            self.sound_timer = self.sound_timer - 1;
        }
        Ok(())
    }

    /// One cycle: `step` with a byte drawn from the thread's random
    /// generator.
    pub fn cycle(&mut self) -> (r: Result<(), Fault>)
        ensures
            exists|random: u8| follows(r, old(self)@, final(self)@, next_state(old(self)@, random)),
    {
        let random = random_byte();
        self.step(random)
    }

    /// Copies a program image to memory from the start address onwards.
    /// An image longer than the space there is refused and nothing changes.
    pub fn load_rom(&mut self, rom: &[u8]) -> (r: Result<(), Fault>)
        ensures
            rom@.len() <= MAX_IMAGE_SIZE ==> r is Ok && final(self)@ == load_image(old(self)@, rom@),
            rom@.len() > MAX_IMAGE_SIZE ==> r == Err::<(), Fault>(Fault::ImageTooLarge) && final(self)@ == old(self)@,
    {
        if rom.len() > MAX_IMAGE_SIZE {
            return Err(Fault::ImageTooLarge);
        }
        let start = START_ADDRESS as usize;
        let mut i: usize = 0;
        while i < rom.len()
            invariant
                i <= rom@.len() <= MAX_IMAGE_SIZE,
                start == START_ADDRESS,
                self@ == (State { memory: self.memory@, ..old(self)@ }),
                forall|a: int|
                    0 <= a < MEMORY_SIZE ==> self.memory@[a] == if start <= a < start + i {
                        rom@[a - start]
                    } else {
                        old(self).memory@[a]
                    },
            decreases rom@.len() - i,
        {
            self.memory[start + i] = rom[i];
            i = i + 1;
        }
        assert(self.memory@ =~= load_image(old(self)@, rom@).memory);
        Ok(())
    }
}

} // verus!
