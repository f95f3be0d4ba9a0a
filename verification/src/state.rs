use vstd::prelude::*;

verus! {

/// Mathematical model of the whole machine: registers, memory, call stack,
/// program counter, timers, framebuffer and input state.
///
/// The framebuffer is a flat row-major sequence of 32 * 64 = 2048 cells,
/// each cell 0 or 1; cell (row, col) lives at index row * 64 + col.
#[verifier::ext_equal]
pub ghost struct State {
    pub registers: Seq<u8>,
    pub ram: Seq<u8>,
    pub stack: Seq<u16>,
    pub index: int,
    pub pc: int,
    pub sp: int,
    pub delay_timer: u8,
    pub sound_timer: u8,
    pub vram: Seq<u8>,
    pub vram_changed: bool,
    pub keypad: Seq<bool>,
    pub keypad_waiting: bool,
    pub keypad_register: int,
}

impl State {
    /// Well-formedness: fixed sizes, all addresses within memory, the stack
    /// pointer within the 16-entry stack, and every framebuffer cell 0 or 1.
    pub open spec fn wf(self) -> bool {
        &&& self.registers.len() == 16
        &&& self.ram.len() == 4096
        &&& self.stack.len() == 16
        &&& 0 <= self.index < 4096
        &&& 0 <= self.pc < 4096
        &&& 0 <= self.sp <= 16
        &&& self.vram.len() == 2048
        &&& (forall|i: int| 0 <= i < 2048 ==> self.vram[i] == 0 || self.vram[i] == 1)
        &&& self.keypad.len() == 16
        &&& 0 <= self.keypad_register < 16
        &&& (forall|i: int| 0 <= i < 16 ==> self.stack[i] < 4096)
    }
}

/// Directive returned by every instruction handler: advance to the next
/// instruction, skip one instruction, or jump to an absolute address.
pub enum ProgramCounter {
    Next,
    Skip,
    Jump(u16),
}

impl ProgramCounter {
    /// The directive a skip instruction chooses at run time.
    pub fn skip_if(condition: bool) -> (r: ProgramCounter)
        ensures
            r == spec_skip_if(condition),
    {
        if condition {
            ProgramCounter::Skip
        } else {
            ProgramCounter::Next
        }
    }
}

/// The directive chosen by a skip instruction: skip when the condition
/// holds, otherwise fall through to the next instruction.
pub open spec fn spec_skip_if(condition: bool) -> ProgramCounter {
    if condition {
        ProgramCounter::Skip
    } else {
        ProgramCounter::Next
    }
}

/// Applies a directive to the program counter. Counter arithmetic wraps
/// modulo the memory size, so the counter always stays a valid address.
pub open spec fn apply_pc(s: State, d: ProgramCounter) -> State {
    match d {
        ProgramCounter::Next => State { pc: (s.pc + 2) % 4096, ..s },
        ProgramCounter::Skip => State { pc: (s.pc + 4) % 4096, ..s },
        ProgramCounter::Jump(a) => State { pc: a as int, ..s },
    }
}

/// 8-bit addition with wraparound.
pub open spec fn add8(a: u8, b: u8) -> u8 {
    ((a + b) % 256) as u8
}

/// 8-bit subtraction with wraparound.
pub open spec fn sub8(a: u8, b: u8) -> u8 {
    if a >= b {
        (a - b) as u8
    } else {
        ((a + 256) - b) as u8
    }
}

/// Low 12 bits of an opcode: an absolute address operand.
pub open spec fn op_nnn(op: u16) -> u16 {
    op & 0xFFF
}

/// Low 8 bits of an opcode: an immediate operand.
pub open spec fn op_kk(op: u16) -> u8 {
    (op & 0xFF) as u8
}

/// Second nibble of an opcode: the x register index.
pub open spec fn op_x(op: u16) -> int {
    ((op >> 8) & 0xF) as int
}

/// Third nibble of an opcode: the y register index.
pub open spec fn op_y(op: u16) -> int {
    ((op >> 4) & 0xF) as int
}

/// Low nibble of an opcode: a 4-bit immediate.
pub open spec fn op_n(op: u16) -> int {
    (op & 0xF) as int
}

/// The framebuffer with every cell cleared.
pub open spec fn blank_vram() -> Seq<u8> {
    Seq::new(2048, |i: int| 0u8)
}

/// Clear screen: every cell 0, framebuffer marked changed.
pub open spec fn spec_clear_screen(s: State) -> (State, ProgramCounter) {
    (State { vram: blank_vram(), vram_changed: true, ..s }, ProgramCounter::Next)
}

/// Return: pop the saved address and jump to it. A return with an empty
/// stack is ignored (deterministic underflow policy).
pub open spec fn spec_return(s: State) -> (State, ProgramCounter) {
    if s.sp <= 0 {
        (s, ProgramCounter::Next)
    } else {
        (State { sp: s.sp - 1, ..s }, ProgramCounter::Jump(s.stack[s.sp - 1]))
    }
}

/// Call: push the address of the following instruction and jump. A call
/// with a full stack is ignored (deterministic overflow policy).
pub open spec fn spec_call(s: State, nnn: u16) -> (State, ProgramCounter) {
    if s.sp >= 16 {
        (s, ProgramCounter::Next)
    } else {
        (
            State {
                stack: s.stack.update(s.sp, ((s.pc + 2) % 4096) as u16),
                sp: s.sp + 1,
                ..s
            },
            ProgramCounter::Jump(nnn),
        )
    }
}

/// Load immediate: register x := kk.
pub open spec fn spec_load_imm(s: State, x: int, kk: u8) -> (State, ProgramCounter) {
    (State { registers: s.registers.update(x, kk), ..s }, ProgramCounter::Next)
}

/// Add immediate: register x := x + kk with 8-bit wraparound; no flag change.
pub open spec fn spec_add_imm(s: State, x: int, kk: u8) -> (State, ProgramCounter) {
    (State { registers: s.registers.update(x, add8(s.registers[x], kk)), ..s }, ProgramCounter::Next)
}

/// Copy: register x := register y.
pub open spec fn spec_copy_reg(s: State, x: int, y: int) -> (State, ProgramCounter) {
    (State { registers: s.registers.update(x, s.registers[y]), ..s }, ProgramCounter::Next)
}

/// Bitwise OR: register x := x | y.
pub open spec fn spec_or_reg(s: State, x: int, y: int) -> (State, ProgramCounter) {
    (
        State { registers: s.registers.update(x, s.registers[x] | s.registers[y]), ..s },
        ProgramCounter::Next,
    )
}

/// Bitwise AND: register x := x & y.
pub open spec fn spec_and_reg(s: State, x: int, y: int) -> (State, ProgramCounter) {
    (
        State { registers: s.registers.update(x, s.registers[x] & s.registers[y]), ..s },
        ProgramCounter::Next,
    )
}

/// Bitwise XOR: register x := x ^ y.
pub open spec fn spec_xor_reg(s: State, x: int, y: int) -> (State, ProgramCounter) {
    (
        State { registers: s.registers.update(x, s.registers[x] ^ s.registers[y]), ..s },
        ProgramCounter::Next,
    )
}

/// Add registers: x := (x + y) mod 256, then the flag register is set to 1
/// exactly when the unwrapped sum exceeds 255, else to 0.
pub open spec fn spec_add_reg(s: State, x: int, y: int) -> (State, ProgramCounter) {
    let sum = s.registers[x] + s.registers[y];
    let carry: u8 = if sum > 255 { 1u8 } else { 0u8 };
    (
        State {
            registers: s.registers.update(x, add8(s.registers[x], s.registers[y])).update(
                15,
                carry,
            ),
            ..s
        },
        ProgramCounter::Next,
    )
}

/// Subtract: the flag register is first set to 1 exactly when x > y (no
/// borrow), else 0; then register x := x - y with 8-bit wraparound. The
/// flag write happens first, so when x or y is the flag register the
/// difference reads the freshly written flag, as the dispatch order dictates.
pub open spec fn spec_sub_reg(s: State, x: int, y: int) -> (State, ProgramCounter) {
    let flag: u8 = if s.registers[x] > s.registers[y] { 1u8 } else { 0u8 };
    let r1 = s.registers.update(15, flag);
    (State { registers: r1.update(x, sub8(r1[x], r1[y])), ..s }, ProgramCounter::Next)
}

/// Subtract reversed: flag := 1 exactly when y > x, else 0 (written first);
/// then register x := y - x with 8-bit wraparound.
pub open spec fn spec_sub_rev_reg(s: State, x: int, y: int) -> (State, ProgramCounter) {
    let flag: u8 = if s.registers[y] > s.registers[x] { 1u8 } else { 0u8 };
    let r1 = s.registers.update(15, flag);
    (State { registers: r1.update(x, sub8(r1[y], r1[x])), ..s }, ProgramCounter::Next)
}

/// Shift right: flag := low bit of the source before the shift (written
/// first); then register x := x >> 1.
pub open spec fn spec_shr_reg(s: State, x: int) -> (State, ProgramCounter) {
    let r1 = s.registers.update(15, s.registers[x] & 1);
    (State { registers: r1.update(x, r1[x] >> 1u8), ..s }, ProgramCounter::Next)
}

/// Shift left: flag := high bit of the source before the shift (written
/// first); then register x := x << 1 with 8-bit truncation.
pub open spec fn spec_shl_reg(s: State, x: int) -> (State, ProgramCounter) {
    let r1 = s.registers.update(15, (s.registers[x] & 0x80) >> 7u8);
    (State { registers: r1.update(x, r1[x] << 1u8), ..s }, ProgramCounter::Next)
}

/// Set index: index := 12-bit address.
pub open spec fn spec_set_index(s: State, nnn: u16) -> (State, ProgramCounter) {
    (State { index: nnn as int, ..s }, ProgramCounter::Next)
}

/// Jump with offset: counter := (address + register 0) mod 4096.
pub open spec fn spec_jump_offset(s: State, nnn: u16) -> (State, ProgramCounter) {
    (s, ProgramCounter::Jump((((s.registers[0] as int) + nnn) % 4096) as u16))
}

/// Random AND mask: register x := random byte AND kk.
pub open spec fn spec_random_mask(s: State, x: int, kk: u8, rnd: u8) -> (State, ProgramCounter) {
    (State { registers: s.registers.update(x, rnd & kk), ..s }, ProgramCounter::Next)
}

/// One sprite pixel: bit `bit` (most-significant first) of a sprite byte.
pub open spec fn spec_sprite_pixel(row: u8, bit: int) -> u8 {
    (row >> ((7 - bit) as u8)) & 1
}

/// Flat framebuffer index of the cell a sprite byte/bit pair lands on,
/// wrapping both axes per pixel.
pub open spec fn draw_cell_index(px: u8, py: u8, byte: int, bit: int) -> int {
    ((py + byte) % 32) * 64 + ((px + bit) % 64)
}

/// The sprite byte that writes framebuffer row `i / 64`, if any: the unique
/// offset b in [0, 32) with (py + b) % 32 == i / 64.
pub open spec fn byte_of(py: u8, i: int) -> int {
    ((i / 64) + 256 - py) % 32
}

/// The sprite bit that writes framebuffer column `i % 64`, if any: the
/// unique offset t in [0, 64) with (px + t) % 64 == i % 64.
pub open spec fn bit_of(px: u8, i: int) -> int {
    ((i % 64) + 256 - px) % 64
}

/// The framebuffer after XOR-blitting an n-byte sprite read from memory at
/// the index register onto position (px, py): each touched cell is XORed
/// with its sprite pixel, every other cell is unchanged.
pub open spec fn spec_draw_vram(s: State, px: u8, py: u8, n: int) -> Seq<u8> {
    Seq::new(
        2048,
        |i: int|
            if byte_of(py, i) < n && bit_of(px, i) < 8 {
                s.vram[i] ^ spec_sprite_pixel(
                    s.ram[(s.index + byte_of(py, i)) % 4096],
                    bit_of(px, i),
                )
            } else {
                s.vram[i]
            },
    )
}

/// Whether a cell has already been written after the blit has processed
/// the first `b_done` sprite bytes in full and, of the following byte, the
/// first `t_done` bits.
pub open spec fn draw_hit_partial(px: u8, py: u8, i: int, b_done: int, t_done: int) -> bool {
    (byte_of(py, i) < b_done && bit_of(px, i) < 8) || (byte_of(py, i) == b_done && bit_of(px, i)
        < t_done)
}

/// The framebuffer part-way through a blit: cells already written are
/// XORed with their sprite pixel, the rest still hold their old value.
pub open spec fn spec_draw_vram_partial(s: State, px: u8, py: u8, b_done: int, t_done: int) -> Seq<
    u8,
> {
    Seq::new(
        2048,
        |i: int|
            if draw_hit_partial(px, py, i, b_done, t_done) {
                s.vram[i] ^ spec_sprite_pixel(
                    s.ram[(s.index + byte_of(py, i)) % 4096],
                    bit_of(px, i),
                )
            } else {
                s.vram[i]
            },
    )
}

/// Whether a collision has been seen part-way through a blit.
pub open spec fn spec_draw_collision_partial(
    s: State,
    px: u8,
    py: u8,
    b_done: int,
    t_done: int,
) -> bool {
    exists|b: int, t: int|
        0 <= b && 0 <= t < 8 && (b < b_done || (b == b_done && t < t_done))
            && spec_sprite_pixel(s.ram[(s.index + b) % 4096], t) == 1 && s.vram[draw_cell_index(
            px,
            py,
            b,
            t,
        )] == 1
}

/// Each sprite byte/bit pair lands on a cell within the framebuffer, and
/// the byte/bit pair can be recovered from that cell: the blit touches
/// each cell at most once.
pub proof fn lemma_cell_inverse(px: u8, py: u8, b: int, t: int)
    requires
        0 <= b < 32,
        0 <= t < 64,
    ensures
        0 <= draw_cell_index(px, py, b, t) < 2048,
        byte_of(py, draw_cell_index(px, py, b, t)) == b,
        bit_of(px, draw_cell_index(px, py, b, t)) == t,
{
    let row = (py + b) % 32;
    let col = (px + t) % 64;
    let i = row * 64 + col;
    vstd::arithmetic::div_mod::lemma_mod_bound(py + b, 32);
    vstd::arithmetic::div_mod::lemma_mod_bound(px + t, 64);
    vstd::arithmetic::div_mod::lemma_fundamental_div_mod_converse(i, 64, row, col);
    assert(i / 64 == row && i % 64 == col);
    let k = (py + b) / 32;
    vstd::arithmetic::div_mod::lemma_fundamental_div_mod(py + b, 32);
    assert(row + 256 - py == 32 * (8 - k) + b);
    vstd::arithmetic::div_mod::lemma_mod_multiples_vanish(8 - k, b, 32);
    vstd::arithmetic::div_mod::lemma_small_mod(b as nat, 32);
    assert(byte_of(py, i) == b);
    let k2 = (px + t) / 64;
    vstd::arithmetic::div_mod::lemma_fundamental_div_mod(px + t, 64);
    assert(col + 256 - px == 64 * (4 - k2) + t);
    vstd::arithmetic::div_mod::lemma_mod_multiples_vanish(4 - k2, t, 64);
    vstd::arithmetic::div_mod::lemma_small_mod(t as nat, 64);
    assert(bit_of(px, i) == t);
}

/// Each framebuffer cell is reached by at most one sprite byte/bit pair:
/// the pair recovered from a cell lands back on that cell.
pub proof fn lemma_cell_unique(px: u8, py: u8, i: int)
    requires
        0 <= i < 2048,
    ensures
        0 <= byte_of(py, i) < 32,
        0 <= bit_of(px, i) < 64,
        draw_cell_index(px, py, byte_of(py, i), bit_of(px, i)) == i,
{
    let r = i / 64;
    let c = i % 64;
    vstd::arithmetic::div_mod::lemma_fundamental_div_mod(i, 64);
    vstd::arithmetic::div_mod::lemma_mod_bound(i, 64);
    assert(0 <= r < 32) by {
        vstd::arithmetic::div_mod::lemma_fundamental_div_mod(i, 64);
    }
    let b = byte_of(py, i);
    let t = bit_of(px, i);
    vstd::arithmetic::div_mod::lemma_mod_bound(r + 256 - py, 32);
    vstd::arithmetic::div_mod::lemma_mod_bound(c + 256 - px, 64);
    // (py + b) % 32 == r
    let k = (r + 256 - py) / 32;
    vstd::arithmetic::div_mod::lemma_fundamental_div_mod(r + 256 - py, 32);
    assert(py + b == 32 * (8 - k) + r);
    vstd::arithmetic::div_mod::lemma_mod_multiples_vanish(8 - k, r, 32);
    vstd::arithmetic::div_mod::lemma_small_mod(r as nat, 32);
    assert((py + b) % 32 == r);
    // (px + t) % 64 == c
    let k2 = (c + 256 - px) / 64;
    vstd::arithmetic::div_mod::lemma_fundamental_div_mod(c + 256 - px, 64);
    assert(px + t == 64 * (4 - k2) + c);
    vstd::arithmetic::div_mod::lemma_mod_multiples_vanish(4 - k2, c, 64);
    vstd::arithmetic::div_mod::lemma_small_mod(c as nat, 64);
    assert((px + t) % 64 == c);
    assert(draw_cell_index(px, py, b, t) == r * 64 + c);
}

/// Whether the blit turns any set cell off: some sprite pixel is 1 on a
/// cell that is already 1.
pub open spec fn spec_draw_collision(s: State, px: u8, py: u8, n: int) -> bool {
    exists|b: int, t: int|
        0 <= b < n && 0 <= t < 8 && spec_sprite_pixel(s.ram[(s.index + b) % 4096], t) == 1
            && s.vram[draw_cell_index(px, py, b, t)] == 1
}

/// Draw sprite: XOR-blit, flag := 1 exactly on a collision else 0,
/// framebuffer marked changed. The position is the value of registers x
/// and y when the instruction starts.
pub open spec fn spec_draw(s: State, x: int, y: int, n: int) -> (State, ProgramCounter) {
    let px = s.registers[x];
    let py = s.registers[y];
    (
        State {
            registers: s.registers.update(
                15,
                if spec_draw_collision(s, px, py, n) { 1u8 } else { 0u8 },
            ),
            vram: spec_draw_vram(s, px, py, n),
            vram_changed: true,
            ..s
        },
        ProgramCounter::Next,
    )
}

/// Read delay timer: register x := delay timer.
pub open spec fn spec_read_delay(s: State, x: int) -> (State, ProgramCounter) {
    (State { registers: s.registers.update(x, s.delay_timer), ..s }, ProgramCounter::Next)
}

/// Wait for key: latch the input wait with destination register x.
pub open spec fn spec_wait_key(s: State, x: int) -> (State, ProgramCounter) {
    (State { keypad_waiting: true, keypad_register: x, ..s }, ProgramCounter::Next)
}

/// Set delay timer: delay := register x.
pub open spec fn spec_set_delay(s: State, x: int) -> (State, ProgramCounter) {
    (State { delay_timer: s.registers[x], ..s }, ProgramCounter::Next)
}

/// Set sound timer: sound := register x.
pub open spec fn spec_set_sound(s: State, x: int) -> (State, ProgramCounter) {
    (State { sound_timer: s.registers[x], ..s }, ProgramCounter::Next)
}

/// Add to index: flag := 1 exactly when the unwrapped sum exceeds 0x0F00
/// (legacy threshold), else 0; index := sum truncated modulo the memory
/// size (deterministic out-of-range policy).
pub open spec fn spec_add_index(s: State, x: int) -> (State, ProgramCounter) {
    let sum = s.index + s.registers[x];
    (
        State {
            index: sum % 4096,
            registers: s.registers.update(15, if sum > 0xF00 { 1u8 } else { 0u8 }),
            ..s
        },
        ProgramCounter::Next,
    )
}

/// Set index to font glyph address: index := register x times 5.
pub open spec fn spec_font_index(s: State, x: int) -> (State, ProgramCounter) {
    (State { index: (s.registers[x] as int) * 5, ..s }, ProgramCounter::Next)
}

/// Store BCD digits: hundreds, tens and units of register x written to
/// memory at the index register, addresses wrapping modulo the memory size.
pub open spec fn spec_bcd(s: State, x: int) -> (State, ProgramCounter) {
    let v = s.registers[x];
    (
        State {
            ram: s.ram.update(s.index, (v / 100) as u8).update(
                (s.index + 1) % 4096,
                ((v % 100) / 10) as u8,
            ).update((s.index + 2) % 4096, (v % 10) as u8),
            ..s
        },
        ProgramCounter::Next,
    )
}

/// Memory after writing registers 0 ..= k-1 at the index register,
/// addresses wrapping modulo the memory size.
pub open spec fn ram_with_regs(ram: Seq<u8>, regs: Seq<u8>, index: int, k: int) -> Seq<u8>
    decreases k,
{
    if k <= 0 {
        ram
    } else {
        ram_with_regs(ram, regs, index, k - 1).update((index + (k - 1)) % 4096, regs[k - 1])
    }
}

/// Registers after reading registers 0 ..= k-1 from memory at the index
/// register, addresses wrapping modulo the memory size.
pub open spec fn regs_from_ram(regs: Seq<u8>, ram: Seq<u8>, index: int, k: int) -> Seq<u8>
    decreases k,
{
    if k <= 0 {
        regs
    } else {
        regs_from_ram(regs, ram, index, k - 1).update(k - 1, ram[(index + (k - 1)) % 4096])
    }
}

/// Store registers to memory: registers 0 ..= x written at the index register.
pub open spec fn spec_store_regs(s: State, x: int) -> (State, ProgramCounter) {
    (State { ram: ram_with_regs(s.ram, s.registers, s.index, x + 1), ..s }, ProgramCounter::Next)
}

/// Load registers from memory: registers 0 ..= x read from the index register.
pub open spec fn spec_load_regs(s: State, x: int) -> (State, ProgramCounter) {
    (State { registers: regs_from_ram(s.registers, s.ram, s.index, x + 1), ..s }, ProgramCounter::Next)
}

/// Decode one opcode and execute its handler; unrecognized patterns are a
/// no-op that still advances the counter. Returns the mutated state and
/// the counter directive. The key-state tests read the low nibble of the
/// selecting register, since the keypad has 16 keys.
pub open spec fn spec_dispatch(s: State, op: u16, rnd: u8) -> (State, ProgramCounter) {
    let n1 = op >> 12;
    let n4 = op & 0xF;
    let x = op_x(op);
    let y = op_y(op);
    let kk = op_kk(op);
    let nnn = op_nnn(op);
    let n = op_n(op);
    if op == 0x00E0 {
        spec_clear_screen(s)
    } else if op == 0x00EE {
        spec_return(s)
    } else if n1 == 0x1 {
        (s, ProgramCounter::Jump(nnn))
    } else if n1 == 0x2 {
        spec_call(s, nnn)
    } else if n1 == 0x3 {
        (s, spec_skip_if(s.registers[x] == kk))
    } else if n1 == 0x4 {
        (s, spec_skip_if(s.registers[x] != kk))
    } else if n1 == 0x5 && n4 == 0x0 {
        (s, spec_skip_if(s.registers[x] == s.registers[y]))
    } else if n1 == 0x6 {
        spec_load_imm(s, x, kk)
    } else if n1 == 0x7 {
        spec_add_imm(s, x, kk)
    } else if n1 == 0x8 && n4 == 0x0 {
        spec_copy_reg(s, x, y)
    } else if n1 == 0x8 && n4 == 0x1 {
        spec_or_reg(s, x, y)
    } else if n1 == 0x8 && n4 == 0x2 {
        spec_and_reg(s, x, y)
    } else if n1 == 0x8 && n4 == 0x3 {
        spec_xor_reg(s, x, y)
    } else if n1 == 0x8 && n4 == 0x4 {
        spec_add_reg(s, x, y)
    } else if n1 == 0x8 && n4 == 0x5 {
        spec_sub_reg(s, x, y)
    } else if n1 == 0x8 && n4 == 0x6 {
        spec_shr_reg(s, x)
    } else if n1 == 0x8 && n4 == 0x7 {
        spec_sub_rev_reg(s, x, y)
    } else if n1 == 0x8 && n4 == 0xE {
        spec_shl_reg(s, x)
    } else if n1 == 0x9 && n4 == 0x0 {
        (s, spec_skip_if(s.registers[x] != s.registers[y]))
    } else if n1 == 0xA {
        spec_set_index(s, nnn)
    } else if n1 == 0xB {
        spec_jump_offset(s, nnn)
    } else if n1 == 0xC {
        spec_random_mask(s, x, kk, rnd)
    } else if n1 == 0xD {
        spec_draw(s, x, y, n)
    } else if n1 == 0xE && kk == 0x9E {
        (s, spec_skip_if(s.keypad[(s.registers[x] & 0xF) as int]))
    } else if n1 == 0xE && kk == 0xA1 {
        (s, spec_skip_if(!s.keypad[(s.registers[x] & 0xF) as int]))
    } else if n1 == 0xF && kk == 0x07 {
        spec_read_delay(s, x)
    } else if n1 == 0xF && kk == 0x0A {
        spec_wait_key(s, x)
    } else if n1 == 0xF && kk == 0x15 {
        spec_set_delay(s, x)
    } else if n1 == 0xF && kk == 0x18 {
        spec_set_sound(s, x)
    } else if n1 == 0xF && kk == 0x1E {
        spec_add_index(s, x)
    } else if n1 == 0xF && kk == 0x29 {
        spec_font_index(s, x)
    } else if n1 == 0xF && kk == 0x33 {
        spec_bcd(s, x)
    } else if n1 == 0xF && kk == 0x55 {
        spec_store_regs(s, x)
    } else if n1 == 0xF && kk == 0x65 {
        spec_load_regs(s, x)
    } else {
        (s, ProgramCounter::Next)
    }
}

/// The operand fields of an opcode are small: register indices fit in 4
/// bits and addresses in 12 bits.
pub proof fn lemma_op_fields(op: u16)
    ensures
        0 <= op_x(op) < 16,
        0 <= op_y(op) < 16,
        0 <= op_n(op) < 16,
        op_nnn(op) < 4096,
{
    assert(((op >> 8) & 0xF) < 16) by (bit_vector);
    assert(((op >> 4) & 0xF) < 16) by (bit_vector);
    assert((op & 0xF) < 16) by (bit_vector);
    assert((op & 0xFFF) < 4096) by (bit_vector);
}

/// Writing registers into memory never changes the memory's length.
pub proof fn lemma_ram_with_regs_len(ram: Seq<u8>, regs: Seq<u8>, index: int, k: int)
    requires
        ram.len() == 4096,
        0 <= index,
    ensures
        ram_with_regs(ram, regs, index, k).len() == 4096,
    decreases k,
{
    broadcast use vstd::arithmetic::div_mod::lemma_mod_bound;

    if k > 0 {
        lemma_ram_with_regs_len(ram, regs, index, k - 1);
    }
}

/// Reading registers from memory never changes the register file's length.
pub proof fn lemma_regs_from_ram_len(regs: Seq<u8>, ram: Seq<u8>, index: int, k: int)
    requires
        regs.len() == 16,
        k <= 16,
    ensures
        regs_from_ram(regs, ram, index, k).len() == 16,
    decreases k,
{
    if k > 0 {
        lemma_regs_from_ram_len(regs, ram, index, k - 1);
    }
}

/// Every instruction preserves well-formedness of the machine state.
pub proof fn lemma_exec_wf(s: State, op: u16, rnd: u8)
    requires
        s.wf(),
    ensures
        spec_exec(s, op, rnd).wf(),
{
    broadcast use vstd::arithmetic::div_mod::lemma_mod_bound;

    lemma_op_fields(op);
    let r = spec_dispatch(s, op, rnd);
    let n1 = op >> 12;
    if op == 0x00E0 {
    } else if n1 == 0x8 {
    } else if n1 == 0xD {
        let x = op_x(op);
        let y = op_y(op);
        let n = op_n(op);
        let px = s.registers[x];
        let py = s.registers[y];
        let v = spec_draw_vram(s, px, py, n);
        assert(forall|a: u8, k: u8| k < 8 ==> ((a >> k) & 1) <= 1) by (bit_vector);
        assert(forall|a: u8, b: u8| a <= 1 && b <= 1 ==> (a ^ b) <= 1) by (bit_vector);
        assert forall|i: int| 0 <= i < 2048 implies (v[i] == 0 || v[i] == 1) by {
            if byte_of(py, i) < n && bit_of(px, i) < 8 {
                let pix = spec_sprite_pixel(s.ram[(s.index + byte_of(py, i)) % 4096], bit_of(px, i));
                assert(0 <= bit_of(px, i));
                assert(((7 - bit_of(px, i)) as u8) < 8);
                assert(pix <= 1);
                assert(s.vram[i] <= 1);
                assert((s.vram[i] ^ pix) <= 1);
            }
        }
    } else if n1 == 0xF && op_kk(op) == 0x33 {
        assert(s.ram.update(s.index, (s.registers[op_x(op)] / 100) as u8).len() == 4096);
    } else if n1 == 0xF && op_kk(op) == 0x55 {
        lemma_ram_with_regs_len(s.ram, s.registers, s.index, op_x(op) + 1);
    } else if n1 == 0xF && op_kk(op) == 0x65 {
        lemma_regs_from_ram_len(s.registers, s.ram, s.index, op_x(op) + 1);
    }
}

/// One full decode/execute step on an already fetched opcode: dispatch,
/// then apply the returned counter directive.
pub open spec fn spec_exec(s: State, op: u16, rnd: u8) -> State {
    let r = spec_dispatch(s, op, rnd);
    apply_pc(r.0, r.1)
}

/// The 16-bit big-endian instruction at the program counter; the second
/// byte wraps modulo the memory size when the counter sits on the last byte.
pub open spec fn spec_fetch(s: State) -> u16 {
    (((s.ram[s.pc] as u16) as int) * 256 + (s.ram[(s.pc + 1) % 4096] as int)) as u16
}

/// An 8-bit timer after one tick: decremented when non-zero, else zero.
pub open spec fn dec_timer(t: u8) -> u8 {
    if t > 0 {
        (t - 1) as u8
    } else {
        0u8
    }
}

/// Index of the first pressed key at or after position i, or 16 when no
/// key at or after i is pressed.
pub open spec fn first_pressed(keys: Seq<bool>, i: int) -> int
    decreases 16 - i,
{
    if i < 0 || i >= 16 {
        16
    } else if keys[i] {
        i
    } else {
        first_pressed(keys, i + 1)
    }
}

/// Scanning for the first pressed key can start anywhere inside an
/// unpressed prefix without changing the answer.
pub proof fn lemma_first_pressed_from(keys: Seq<bool>, a: int)
    requires
        0 <= a <= 16,
        keys.len() == 16,
        forall|j: int| 0 <= j < a ==> !keys[j],
    ensures
        first_pressed(keys, 0) == first_pressed(keys, a),
    decreases a,
{
    if a > 0 {
        lemma_first_pressed_from(keys, a - 1);
        assert(first_pressed(keys, a - 1) == first_pressed(keys, a));
    }
}

/// One tick: replace the keypad snapshot and clear the changed flag; then
/// either resolve a latched input wait (on the first pressed key index, in
/// ascending order, executing nothing else this tick), keep waiting, or
/// decrement both timers and execute exactly one instruction.
pub open spec fn spec_tick(s: State, keys: Seq<bool>, rnd: u8) -> State {
    let s1 = State { keypad: keys, vram_changed: false, ..s };
    if s.keypad_waiting {
        let k = first_pressed(keys, 0);
        if k < 16 {
            State {
                keypad_waiting: false,
                registers: s1.registers.update(s1.keypad_register, k as u8),
                ..s1
            }
        } else {
            s1
        }
    } else {
        let s2 = State {
            delay_timer: dec_timer(s1.delay_timer),
            sound_timer: dec_timer(s1.sound_timer),
            ..s1
        };
        spec_exec(s2, spec_fetch(s2), rnd)
    }
}

} // verus!
