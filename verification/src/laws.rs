use vstd::prelude::*;

use crate::state::{
    apply_pc, bit_of, byte_of, first_pressed, lemma_first_pressed_from, spec_add_reg, spec_call,
    spec_clear_screen, spec_draw, spec_draw_vram, spec_return, spec_skip_if, spec_sprite_pixel,
    spec_sub_reg, spec_tick, sub8, ProgramCounter, State,
};

verus! {

/// Adding two registers sets the flag register to 1 exactly when the
/// unwrapped sum exceeds 255 (else to 0), and the destination holds the
/// sum modulo 256 whenever the destination is not the flag register itself.
pub proof fn lemma_add_registers(s: State, x: int, y: int)
    requires
        s.wf(),
        0 <= x < 16,
        0 <= y < 16,
    ensures
        spec_add_reg(s, x, y).0.registers[15] == (
            if s.registers[x] + s.registers[y] > 255 { 1u8 } else { 0u8 }
        ),
        x != 15 ==> spec_add_reg(s, x, y).0.registers[x] == (
            (s.registers[x] + s.registers[y]) % 256
        ) as u8,
{
}

/// Subtracting register y from register x sets the flag register to 1
/// exactly when x > y (no borrow, else 0), and the destination holds the
/// difference modulo 256 — stated for the registers that do not alias the
/// flag register, whose write order the dispatch fixes.
pub proof fn lemma_subtract_registers(s: State, x: int, y: int)
    requires
        s.wf(),
        0 <= x < 16,
        0 <= y < 16,
        x != 15,
        y != 15,
    ensures
        spec_sub_reg(s, x, y).0.registers[15] == (
            if s.registers[x] > s.registers[y] { 1u8 } else { 0u8 }
        ),
        spec_sub_reg(s, x, y).0.registers[x] == sub8(s.registers[x], s.registers[y]),
{
}

/// Clearing the screen leaves every framebuffer cell at 0 and marks the
/// framebuffer changed.
pub proof fn lemma_clear_screen(s: State)
    requires
        s.wf(),
    ensures
        forall|i: int| 0 <= i < 2048 ==> spec_clear_screen(s).0.vram[i] == 0,
        spec_clear_screen(s).0.vram_changed,
{
}

/// Drawing the same sprite twice at the same position restores the
/// original framebuffer contents (XOR is its own inverse) and marks the
/// framebuffer changed both times. Stated for position registers that do
/// not alias the flag register, which the first draw overwrites.
pub proof fn lemma_draw_twice(s: State, x: int, y: int, n: int)
    requires
        s.wf(),
        0 <= x < 16,
        0 <= y < 16,
        x != 15,
        y != 15,
        0 <= n < 16,
    ensures
        ({
            let s1 = spec_draw(s, x, y, n).0;
            let s2 = spec_draw(s1, x, y, n).0;
            s2.vram == s.vram && s1.vram_changed && s2.vram_changed
        }),
{
    let s1 = spec_draw(s, x, y, n).0;
    let s2 = spec_draw(s1, x, y, n).0;
    let px = s.registers[x];
    let py = s.registers[y];
    assert(s1.registers[x] == px && s1.registers[y] == py);
    assert(s1.ram == s.ram && s1.index == s.index);
    assert(forall|a: u8, b: u8| ((a ^ b) ^ b) == a) by (bit_vector);
    assert forall|i: int| 0 <= i < 2048 implies s2.vram[i] == s.vram[i] by {
        if byte_of(py, i) < n && bit_of(px, i) < 8 {
            let pix = spec_sprite_pixel(s.ram[(s.index + byte_of(py, i)) % 4096], bit_of(px, i));
            assert(s1.vram[i] == (s.vram[i] ^ pix));
            assert(s2.vram[i] == ((s.vram[i] ^ pix) ^ pix));
        }
    }
    assert(s2.vram =~= s.vram);
}

/// A call followed immediately by a return brings the program counter to
/// the instruction directly after the call, with the stack pointer back
/// where it started.
pub proof fn lemma_call_then_return(s: State, nnn: u16)
    requires
        s.wf(),
        s.sp < 16,
        nnn < 4096,
    ensures
        ({
            let c = spec_call(s, nnn);
            let s1 = apply_pc(c.0, c.1);
            let r = spec_return(s1);
            let s2 = apply_pc(r.0, r.1);
            s2.pc == (s.pc + 2) % 4096 && s2.sp == s.sp && s1.pc == nnn
        }),
{
    broadcast use vstd::arithmetic::div_mod::lemma_mod_bound;

}

/// A skip instruction advances the counter by exactly two instructions
/// when its condition holds and by one otherwise — stated away from the
/// very end of memory, where counter arithmetic wraps.
pub proof fn lemma_skip_directive(s: State, condition: bool)
    requires
        s.wf(),
        s.pc + 4 < 4096,
    ensures
        apply_pc(s, spec_skip_if(condition)).pc == s.pc + (if condition { 4int } else { 2int }),
{
    vstd::arithmetic::div_mod::lemma_small_mod((s.pc + 4) as nat, 4096);
    vstd::arithmetic::div_mod::lemma_small_mod((s.pc + 2) as nat, 4096);
}

/// A tick issued while the input wait is latched and no key is pressed
/// changes nothing but the keypad snapshot and the (cleared) changed
/// flag: registers, timers, counter, stack, memory and framebuffer all
/// keep their values, and the tick reports no framebuffer change.
pub proof fn lemma_waiting_tick_is_idle(s: State, keys: Seq<bool>, rnd: u8)
    requires
        s.wf(),
        s.keypad_waiting,
        keys.len() == 16,
        forall|k: int| 0 <= k < 16 ==> !keys[k],
    ensures
        spec_tick(s, keys, rnd) == (State { keypad: keys, vram_changed: false, ..s }),
        spec_tick(s, keys, rnd).registers == s.registers,
        spec_tick(s, keys, rnd).delay_timer == s.delay_timer,
        spec_tick(s, keys, rnd).sound_timer == s.sound_timer,
        spec_tick(s, keys, rnd).pc == s.pc,
        !spec_tick(s, keys, rnd).vram_changed,
{
    lemma_first_pressed_from(keys, 16);
    assert(first_pressed(keys, 0) == 16);
}

} // verus!
