use vstd::prelude::*;

use crate::fontset::{fontset, spec_fontset};
use crate::state::{
    bit_of, blank_vram, byte_of, dec_timer, draw_cell_index, draw_hit_partial,
    first_pressed, lemma_cell_inverse, lemma_cell_unique, lemma_exec_wf,
    lemma_first_pressed_from, lemma_op_fields,
    spec_draw_collision_partial, spec_draw_vram_partial,
    ram_with_regs, regs_from_ram, spec_add_imm, spec_add_index,
    spec_add_reg, spec_and_reg, spec_bcd, spec_call, spec_clear_screen, spec_copy_reg,
    spec_dispatch, spec_draw, spec_draw_collision, spec_draw_vram, spec_exec, spec_fetch,
    spec_font_index, spec_jump_offset, spec_load_imm, spec_load_regs, spec_or_reg,
    spec_random_mask, spec_read_delay, spec_return, spec_set_delay, spec_set_index,
    spec_set_sound, spec_shl_reg, spec_shr_reg, spec_skip_if, spec_sprite_pixel,
    spec_store_regs, spec_sub_reg, spec_sub_rev_reg, spec_tick, spec_wait_key, spec_xor_reg,
    sub8, ProgramCounter, State,
};
use rand::Rng;

verus! {

/// The interpreter core. All state is private; it is mutated only by
/// `tick` after construction and loading.
pub struct Chip8 {
    registers: Vec<u8>,
    ram: Vec<u8>,
    stack: Vec<u16>,
    index: usize,
    pc: usize,
    sp: usize,
    delay_timer: u8,
    sound_timer: u8,
    vram: Vec<u8>,
    vram_changed: bool,
    keypad: Vec<bool>,
    keypad_waiting: bool,
    keypad_register: usize,
}

impl View for Chip8 {
    type V = State;

    closed spec fn view(&self) -> State {
        State {
            registers: self.registers@,
            ram: self.ram@,
            stack: self.stack@,
            index: self.index as int,
            pc: self.pc as int,
            sp: self.sp as int,
            delay_timer: self.delay_timer,
            sound_timer: self.sound_timer,
            vram: self.vram@,
            vram_changed: self.vram_changed,
            keypad: self.keypad@,
            keypad_waiting: self.keypad_waiting,
            keypad_register: self.keypad_register as int,
        }
    }
}

/// What one tick hands back to the host: a snapshot of the framebuffer
/// (flat row-major, cell (row, col) at index row * 64 + col), whether it
/// changed this tick, and whether the sound timer is running.
pub struct OutputState {
    pub vram: Vec<u8>,
    pub vram_changed: bool,
    pub beep: bool,
}

/// The machine as constructed: everything zeroed, the font table copied
/// to memory at 0x50, and the program counter at the load address 0x200.
pub open spec fn initial_ram() -> Seq<u8> {
    Seq::new(4096, |i: int| if 0x50 <= i < 0x50 + 80 { spec_fontset()[i - 0x50] } else { 0u8 })
}

pub open spec fn initial_state() -> State {
    State {
        registers: Seq::new(16, |i: int| 0u8),
        ram: initial_ram(),
        stack: Seq::new(16, |i: int| 0u16),
        index: 0,
        pc: 0x200,
        sp: 0,
        delay_timer: 0,
        sound_timer: 0,
        vram: blank_vram(),
        vram_changed: false,
        keypad: Seq::new(16, |i: int| false),
        keypad_waiting: false,
        keypad_register: 0,
    }
}

/// Relies on rand::Rng::gen through rand::thread_rng: one byte from the
/// thread-local generator. Nothing is promised of the value.
#[verifier::external_body]
fn random_byte() -> u8 {
    rand::thread_rng().gen::<u8>()
}

fn filled_u8(value: u8, n: usize) -> (r: Vec<u8>)
    ensures
        r@.len() == n,
        forall|i: int| 0 <= i < n ==> r@[i] == value,
{
    let mut v: Vec<u8> = Vec::new();
    let mut i: usize = 0;
    while i < n
        invariant
            i <= n,
            v@.len() == i,
            forall|j: int| 0 <= j < i ==> v@[j] == value,
        decreases n - i,
    {
        v.push(value);
        i += 1;
    }
    v
}

fn filled_u16(value: u16, n: usize) -> (r: Vec<u16>)
    ensures
        r@.len() == n,
        forall|i: int| 0 <= i < n ==> r@[i] == value,
{
    let mut v: Vec<u16> = Vec::new();
    let mut i: usize = 0;
    while i < n
        invariant
            i <= n,
            v@.len() == i,
            forall|j: int| 0 <= j < i ==> v@[j] == value,
        decreases n - i,
    {
        v.push(value);
        i += 1;
    }
    v
}

fn filled_bool(value: bool, n: usize) -> (r: Vec<bool>)
    ensures
        r@.len() == n,
        forall|i: int| 0 <= i < n ==> r@[i] == value,
{
    let mut v: Vec<bool> = Vec::new();
    let mut i: usize = 0;
    while i < n
        invariant
            i <= n,
            v@.len() == i,
            forall|j: int| 0 <= j < i ==> v@[j] == value,
        decreases n - i,
    {
        v.push(value);
        i += 1;
    }
    v
}

impl Chip8 {
    /// Construction: zeroed state with the font in memory and the counter
    /// at the program load address.
    pub fn new() -> (c: Chip8)
        ensures
            c@ == initial_state(),
            c@.wf(),
    {
        let mut ram = filled_u8(0, 4096);
        let font = fontset();
        let mut i: usize = 0;
        while i < 80
            invariant
                i <= 80,
                ram@.len() == 4096,
                font@ == spec_fontset(),
                forall|j: int| 0 <= j < 0x50 ==> ram@[j] == 0,
                forall|j: int| 0x50 <= j < 0x50 + i ==> ram@[j] == spec_fontset()[j - 0x50],
                forall|j: int| 0x50 + i <= j < 4096 ==> ram@[j] == 0,
            decreases 80 - i,
        {
            ram.set(0x50 + i, font[i]);
            i += 1;
        }
        let c = Chip8 {
            registers: filled_u8(0, 16),
            ram,
            stack: filled_u16(0, 16),
            index: 0,
            pc: 0x200,
            sp: 0,
            delay_timer: 0,
            sound_timer: 0,
            vram: filled_u8(0, 2048),
            vram_changed: false,
            keypad: filled_bool(false, 16),
            keypad_waiting: false,
            keypad_register: 0,
        };
        proof {
            assert(c@.registers =~= initial_state().registers);
            assert(c@.ram =~= initial_ram());
            assert(c@.stack =~= initial_state().stack);
            assert(c@.vram =~= blank_vram());
            assert(c@.keypad =~= initial_state().keypad);
            assert(c@ =~= initial_state());
        }
        c
    }

    /// Copies a program image into memory starting at the load address
    /// 0x200; nothing else changes.
    pub fn load_rom(&mut self, rom: &Vec<u8>)
        requires
            old(self)@.wf(),
            rom@.len() <= 4096 - 0x200,
        ensures
            final(self)@.wf(),
            final(self)@ == (State { ram: final(self)@.ram, ..old(self)@ }),
            final(self)@.ram.len() == 4096,
            forall|a: int|
                0 <= a < 4096 ==> final(self)@.ram[a] == if 0x200 <= a < 0x200 + rom@.len() {
                    rom@[a - 0x200]
                } else {
                    old(self)@.ram[a]
                },
    {
        let mut i: usize = 0;
        while i < rom.len()
            invariant
                i <= rom@.len(),
                rom@.len() <= 4096 - 0x200,
                self@ == (State { ram: self@.ram, ..old(self)@ }),
                self@.ram.len() == 4096,
                forall|a: int|
                    0 <= a < 4096 ==> self@.ram[a] == if 0x200 <= a < 0x200 + i {
                        rom@[a - 0x200]
                    } else {
                        old(self)@.ram[a]
                    },
            decreases rom@.len() - i,
        {
            let b = rom[i];
            self.ram.set(0x200 + i, b);
            i += 1;
        }
    }

    /// The value of one general-purpose register.
    pub fn register(&self, i: usize) -> (r: u8)
        requires
            self@.wf(),
            i < 16,
        ensures
            r == self@.registers[i as int],
    {
        self.registers[i]
    }

    /// The current program counter.
    pub fn program_counter(&self) -> (r: usize)
        ensures
            r == self@.pc,
    {
        self.pc
    }

    /// The current index register.
    pub fn index_register(&self) -> (r: usize)
        ensures
            r == self@.index,
    {
        self.index
    }

    /// The current delay timer.
    pub fn delay_timer(&self) -> (r: u8)
        ensures
            r == self@.delay_timer,
    {
        self.delay_timer
    }

    /// The current sound timer.
    pub fn sound_timer(&self) -> (r: u8)
        ensures
            r == self@.sound_timer,
    {
        self.sound_timer
    }

    /// The byte of memory at one address.
    pub fn memory(&self, addr: usize) -> (r: u8)
        requires
            self@.wf(),
            addr < 4096,
        ensures
            r == self@.ram[addr as int],
    {
        self.ram[addr]
    }

    /// One framebuffer cell, 0 or 1.
    pub fn pixel(&self, row: usize, col: usize) -> (r: u8)
        requires
            self@.wf(),
            row < 32,
            col < 64,
        ensures
            r == self@.vram[row as int * 64 + col as int],
    {
        self.vram[row * 64 + col]
    }

    fn get_opcode(&self) -> (op: u16)
        requires
            self@.wf(),
        ensures
            op == spec_fetch(self@),
    {
        let hi: u16 = self.ram[self.pc] as u16;
        let lo: u16 = self.ram[(self.pc + 1) % 4096] as u16;
        hi * 256 + lo
    }

    fn run_opcode(&mut self, opcode: u16)
        requires
            old(self)@.wf(),
        ensures
            final(self)@.wf(),
            exists|b: u8| final(self)@ == spec_exec(old(self)@, opcode, b),
    {
        let ghost s0 = old(self)@;
        let n1: u8 = ((opcode & 0xF000) >> 12) as u8;
        let n2: u8 = ((opcode & 0x0F00) >> 8) as u8;
        let n3: u8 = ((opcode & 0x00F0) >> 4) as u8;
        let n4: u8 = (opcode & 0x000F) as u8;
        let nnn: u16 = opcode & 0x0FFF;
        let kk: u8 = (opcode & 0x00FF) as u8;
        let x: usize = n2 as usize;
        let y: usize = n3 as usize;
        let n: usize = n4 as usize;
        proof {
            lemma_op_fields(opcode);
            assert(((opcode & 0xF000) >> 12) == (opcode >> 12)) by (bit_vector);
            assert(((opcode & 0x0F00) >> 8) == ((opcode >> 8) & 0xF)) by (bit_vector);
            assert(((opcode & 0x00F0) >> 4) == ((opcode >> 4) & 0xF)) by (bit_vector);
            assert(((opcode & 0xF000) >> 12) <= 0xF) by (bit_vector);
            assert(((opcode & 0x0F00) >> 8) <= 0xF) by (bit_vector);
            assert(((opcode & 0x00F0) >> 4) <= 0xF) by (bit_vector);
            assert((opcode & 0x000F) <= 0xF) by (bit_vector);
            assert((opcode & 0x00FF) <= 0xFF) by (bit_vector);
            assert((opcode & 0x0FFF) <= 0xFFF) by (bit_vector);
            assert((opcode & 0xFFF) == (opcode & 0x0FFF)) by (bit_vector);
            assert((opcode >> 12) <= 0xF) by (bit_vector);
            assert(((opcode >> 12) == 0 && ((opcode >> 8) & 0xF) == 0 && ((opcode >> 4) & 0xF)
                == 0xE && (opcode & 0xF) == 0) <==> opcode == 0x00E0) by (bit_vector);
            assert(((opcode >> 12) == 0 && ((opcode >> 8) & 0xF) == 0 && ((opcode >> 4) & 0xF)
                == 0xE && (opcode & 0xF) == 0xE) <==> opcode == 0x00EE) by (bit_vector);
            assert((((opcode >> 4) & 0xF) == 0x9 && (opcode & 0xF) == 0xE) <==> (opcode & 0xFF)
                == 0x9E) by (bit_vector);
            assert((((opcode >> 4) & 0xF) == 0xA && (opcode & 0xF) == 0x1) <==> (opcode & 0xFF)
                == 0xA1) by (bit_vector);
            assert((((opcode >> 4) & 0xF) == 0x0 && (opcode & 0xF) == 0x7) <==> (opcode & 0xFF)
                == 0x07) by (bit_vector);
            assert((((opcode >> 4) & 0xF) == 0x0 && (opcode & 0xF) == 0xA) <==> (opcode & 0xFF)
                == 0x0A) by (bit_vector);
            assert((((opcode >> 4) & 0xF) == 0x1 && (opcode & 0xF) == 0x5) <==> (opcode & 0xFF)
                == 0x15) by (bit_vector);
            assert((((opcode >> 4) & 0xF) == 0x1 && (opcode & 0xF) == 0x8) <==> (opcode & 0xFF)
                == 0x18) by (bit_vector);
            assert((((opcode >> 4) & 0xF) == 0x1 && (opcode & 0xF) == 0xE) <==> (opcode & 0xFF)
                == 0x1E) by (bit_vector);
            assert((((opcode >> 4) & 0xF) == 0x2 && (opcode & 0xF) == 0x9) <==> (opcode & 0xFF)
                == 0x29) by (bit_vector);
            assert((((opcode >> 4) & 0xF) == 0x3 && (opcode & 0xF) == 0x3) <==> (opcode & 0xFF)
                == 0x33) by (bit_vector);
            assert((((opcode >> 4) & 0xF) == 0x5 && (opcode & 0xF) == 0x5) <==> (opcode & 0xFF)
                == 0x55) by (bit_vector);
            assert((((opcode >> 4) & 0xF) == 0x6 && (opcode & 0xF) == 0x5) <==> (opcode & 0xFF)
                == 0x65) by (bit_vector);
        }
        let ghost mut rb: u8 = 0;
        let pc_change: ProgramCounter = match (n1, n2, n3, n4) {
            (0x00, 0x00, 0x0e, 0x00) => self.op_00e0(),
            (0x00, 0x00, 0x0e, 0x0e) => self.op_00ee(),
            (0x01, _, _, _) => self.op_1nnn(nnn),
            (0x02, _, _, _) => self.op_2nnn(nnn),
            (0x03, _, _, _) => self.op_3xkk(x, kk),
            (0x04, _, _, _) => self.op_4xkk(x, kk),
            (0x05, _, _, 0x00) => self.op_5xy0(x, y),
            (0x06, _, _, _) => self.op_6xkk(x, kk),
            (0x07, _, _, _) => self.op_7xkk(x, kk),
            (0x08, _, _, 0x00) => self.op_8xy0(x, y),
            (0x08, _, _, 0x01) => self.op_8xy1(x, y),
            (0x08, _, _, 0x02) => self.op_8xy2(x, y),
            (0x08, _, _, 0x03) => self.op_8xy3(x, y),
            (0x08, _, _, 0x04) => self.op_8xy4(x, y),
            (0x08, _, _, 0x05) => self.op_8xy5(x, y),
            (0x08, _, _, 0x06) => self.op_8x06(x),
            (0x08, _, _, 0x07) => self.op_8xy7(x, y),
            (0x08, _, _, 0x0e) => self.op_8x0e(x),
            (0x09, _, _, 0x00) => self.op_9xy0(x, y),
            (0x0a, _, _, _) => self.op_annn(nnn),
            (0x0b, _, _, _) => self.op_bnnn(nnn),
            (0x0c, _, _, _) => {
                let b = random_byte();
                proof {
                    rb = b;
                }
                self.op_cxkk(x, kk, b)
            },
            (0x0d, _, _, _) => self.op_dxyn(x, y, n),
            (0x0e, _, 0x09, 0x0e) => self.op_ex9e(x),
            (0x0e, _, 0x0a, 0x01) => self.op_exa1(x),
            (0x0f, _, 0x00, 0x07) => self.op_fx07(x),
            (0x0f, _, 0x00, 0x0a) => self.op_fx0a(x),
            (0x0f, _, 0x01, 0x05) => self.op_fx15(x),
            (0x0f, _, 0x01, 0x08) => self.op_fx18(x),
            (0x0f, _, 0x01, 0x0e) => self.op_fx1e(x),
            (0x0f, _, 0x02, 0x09) => self.op_fx29(x),
            (0x0f, _, 0x03, 0x03) => self.op_fx33(x),
            (0x0f, _, 0x05, 0x05) => self.op_fx55(x),
            (0x0f, _, 0x06, 0x05) => self.op_fx65(x),
            _ => ProgramCounter::Next,
        };
        proof {
            assert((self@, pc_change) == spec_dispatch(s0, opcode, rb));
        }
        match pc_change {
            ProgramCounter::Next => {
                self.pc = (self.pc + 2) % 4096;
            },
            ProgramCounter::Skip => {
                self.pc = (self.pc + 4) % 4096;
            },
            ProgramCounter::Jump(addr) => {
                self.pc = addr as usize;
            },
        }
        proof {
            lemma_exec_wf(s0, opcode, rb);
            assert(self@ == spec_exec(s0, opcode, rb));
        }
    }

    /// One tick: take the keypad snapshot, then resolve a pending input
    /// wait or decrement the timers and execute one instruction; hands
    /// back the framebuffer, whether it changed, and the beep signal.
    pub fn tick(&mut self, keypad: [bool; 16]) -> (out: OutputState)
        requires
            old(self)@.wf(),
        ensures
            final(self)@.wf(),
            exists|b: u8| final(self)@ == spec_tick(old(self)@, keypad@, b),
            out.vram@ == final(self)@.vram,
            out.vram_changed == final(self)@.vram_changed,
            out.beep == (final(self)@.sound_timer > 0),
    {
        let ghost s0 = old(self)@;
        let mut keys: Vec<bool> = Vec::new();
        let mut i: usize = 0;
        while i < 16
            invariant
                i <= 16,
                keys@.len() == i,
                forall|j: int| 0 <= j < i ==> keys@[j] == keypad@[j],
            decreases 16 - i,
        {
            keys.push(keypad[i]);
            i += 1;
        }
        proof {
            assert(keys@ =~= keypad@);
        }
        self.keypad = keys;
        self.vram_changed = false;
        let ghost s1 = self@;
        let ghost mut rb: u8 = 0;
        if self.keypad_waiting {
            let mut k: usize = 16;
            let mut idx: usize = 0;
            while idx < 16
                invariant
                    idx <= 16,
                    k == 16 || (k < idx && keypad@[k as int]),
                    k == 16 ==> forall|j: int| 0 <= j < idx ==> !keypad@[j],
                    k < 16 ==> forall|j: int| 0 <= j < k ==> !keypad@[j],
                decreases 16 - idx,
            {
                if k == 16 && keypad[idx] {
                    k = idx;
                }
                idx += 1;
            }
            if k < 16 {
                self.keypad_waiting = false;
                let reg = self.keypad_register;
                self.registers.set(reg, k as u8);
                proof {
                    lemma_first_pressed_from(keypad@, k as int);
                    assert(first_pressed(keypad@, 0) == k as int);
                    assert(self@ =~= spec_tick(s0, keypad@, rb));
                }
            } else {
                proof {
                    lemma_first_pressed_from(keypad@, 16);
                    assert(first_pressed(keypad@, 0) == 16);
                    assert(self@ =~= spec_tick(s0, keypad@, rb));
                }
            }
        } else {
            if self.delay_timer > 0 {
                self.delay_timer = self.delay_timer - 1;
            }
            if self.sound_timer > 0 {
                self.sound_timer = self.sound_timer - 1;
            }
            let ghost s2 = self@;
            proof {
                assert(s2 == (State {
                    delay_timer: dec_timer(s1.delay_timer),
                    sound_timer: dec_timer(s1.sound_timer),
                    ..s1
                }));
            }
            let opcode = self.get_opcode();
            self.run_opcode(opcode);
            proof {
                rb = choose|b: u8| self@ == spec_exec(s2, opcode, b);
                assert(self@ == spec_tick(s0, keypad@, rb));
            }
        }
        proof {
            assert(exists|b: u8| self@ == spec_tick(s0, keypad@, b)) by {
                assert(self@ == spec_tick(s0, keypad@, rb));
            }
        }
        let mut snap: Vec<u8> = Vec::new();
        let mut c: usize = 0;
        while c < 2048
            invariant
                c <= 2048,
                snap@.len() == c,
                self@.vram.len() == 2048,
                forall|j: int| 0 <= j < c ==> snap@[j] == self@.vram[j],
            decreases 2048 - c,
        {
            let v = self.vram[c];
            snap.push(v);
            c += 1;
        }
        proof {
            assert(snap@ =~= self@.vram);
        }
        let beep = self.sound_timer > 0;
        OutputState { vram: snap, vram_changed: self.vram_changed, beep }
    }

    fn op_00e0(&mut self) -> (r: ProgramCounter)
        requires
            old(self)@.wf(),
        ensures
            (final(self)@, r) == spec_clear_screen(old(self)@),
    {
        let mut i: usize = 0;
        while i < 2048
            invariant
                i <= 2048,
                old(self)@.wf(),
                self@ == (State { vram: self@.vram, ..old(self)@ }),
                self@.vram.len() == 2048,
                forall|j: int| 0 <= j < i ==> self@.vram[j] == 0,
            decreases 2048 - i,
        {
            self.vram.set(i, 0);
            i += 1;
        }
        self.vram_changed = true;
        proof {
            assert(self@.vram =~= blank_vram());
            assert(self@ =~= spec_clear_screen(old(self)@).0);
        }
        ProgramCounter::Next
    }

    fn op_00ee(&mut self) -> (r: ProgramCounter)
        requires
            old(self)@.wf(),
        ensures
            (final(self)@, r) == spec_return(old(self)@),
    {
        if self.sp == 0 {
            ProgramCounter::Next
        } else {
            self.sp = self.sp - 1;
            ProgramCounter::Jump(self.stack[self.sp])
        }
    }

    fn op_2nnn(&mut self, nnn: u16) -> (r: ProgramCounter)
        requires
            old(self)@.wf(),
        ensures
            (final(self)@, r) == spec_call(old(self)@, nnn),
    {
        if self.sp >= 16 {
            ProgramCounter::Next
        } else {
            self.stack.set(self.sp, ((self.pc + 2) % 4096) as u16);
            self.sp = self.sp + 1;
            ProgramCounter::Jump(nnn)
        }
    }

    fn op_1nnn(&mut self, nnn: u16) -> (r: ProgramCounter)
        requires
            old(self)@.wf(),
            nnn < 4096,
        ensures
            final(self)@ == old(self)@,
            r == ProgramCounter::Jump(nnn),
    {
        ProgramCounter::Jump(nnn)
    }

    fn op_3xkk(&mut self, x: usize, kk: u8) -> (r: ProgramCounter)
        requires
            old(self)@.wf(),
            x < 16,
        ensures
            final(self)@ == old(self)@,
            r == spec_skip_if(old(self)@.registers[x as int] == kk),
    {
        ProgramCounter::skip_if(self.registers[x] == kk)
    }

    fn op_4xkk(&mut self, x: usize, kk: u8) -> (r: ProgramCounter)
        requires
            old(self)@.wf(),
            x < 16,
        ensures
            final(self)@ == old(self)@,
            r == spec_skip_if(old(self)@.registers[x as int] != kk),
    {
        ProgramCounter::skip_if(self.registers[x] != kk)
    }

    fn op_5xy0(&mut self, x: usize, y: usize) -> (r: ProgramCounter)
        requires
            old(self)@.wf(),
            x < 16,
            y < 16,
        ensures
            final(self)@ == old(self)@,
            r == spec_skip_if(
                old(self)@.registers[x as int] == old(self)@.registers[y as int],
            ),
    {
        ProgramCounter::skip_if(self.registers[x] == self.registers[y])
    }

    fn op_9xy0(&mut self, x: usize, y: usize) -> (r: ProgramCounter)
        requires
            old(self)@.wf(),
            x < 16,
            y < 16,
        ensures
            final(self)@ == old(self)@,
            r == spec_skip_if(
                old(self)@.registers[x as int] != old(self)@.registers[y as int],
            ),
    {
        ProgramCounter::skip_if(self.registers[x] != self.registers[y])
    }

    fn op_ex9e(&mut self, x: usize) -> (r: ProgramCounter)
        requires
            old(self)@.wf(),
            x < 16,
        ensures
            final(self)@ == old(self)@,
            r == spec_skip_if(
                old(self)@.keypad[(old(self)@.registers[x as int] & 0xF) as int],
            ),
    {
        let vx = self.registers[x];
        proof {
            assert((vx & 0xF) < 16) by (bit_vector);
        }
        ProgramCounter::skip_if(self.keypad[(vx & 0xF) as usize])
    }

    fn op_exa1(&mut self, x: usize) -> (r: ProgramCounter)
        requires
            old(self)@.wf(),
            x < 16,
        ensures
            final(self)@ == old(self)@,
            r == spec_skip_if(
                !old(self)@.keypad[(old(self)@.registers[x as int] & 0xF) as int],
            ),
    {
        let vx = self.registers[x];
        proof {
            assert((vx & 0xF) < 16) by (bit_vector);
        }
        ProgramCounter::skip_if(!self.keypad[(vx & 0xF) as usize])
    }

    fn op_6xkk(&mut self, x: usize, kk: u8) -> (r: ProgramCounter)
        requires
            old(self)@.wf(),
            x < 16,
        ensures
            (final(self)@, r) == spec_load_imm(old(self)@, x as int, kk),
    {
        self.registers.set(x, kk);
        ProgramCounter::Next
    }

    fn op_7xkk(&mut self, x: usize, kk: u8) -> (r: ProgramCounter)
        requires
            old(self)@.wf(),
            x < 16,
        ensures
            (final(self)@, r) == spec_add_imm(old(self)@, x as int, kk),
    {
        let vx: u16 = self.registers[x] as u16;
        let sum: u16 = vx + kk as u16;
        self.registers.set(x, (sum % 256) as u8);
        ProgramCounter::Next
    }

    fn op_8xy0(&mut self, x: usize, y: usize) -> (r: ProgramCounter)
        requires
            old(self)@.wf(),
            x < 16,
            y < 16,
        ensures
            (final(self)@, r) == spec_copy_reg(old(self)@, x as int, y as int),
    {
        let vy = self.registers[y];
        self.registers.set(x, vy);
        ProgramCounter::Next
    }

    fn op_8xy1(&mut self, x: usize, y: usize) -> (r: ProgramCounter)
        requires
            old(self)@.wf(),
            x < 16,
            y < 16,
        ensures
            (final(self)@, r) == spec_or_reg(old(self)@, x as int, y as int),
    {
        let v = self.registers[x] | self.registers[y];
        self.registers.set(x, v);
        ProgramCounter::Next
    }

    fn op_8xy2(&mut self, x: usize, y: usize) -> (r: ProgramCounter)
        requires
            old(self)@.wf(),
            x < 16,
            y < 16,
        ensures
            (final(self)@, r) == spec_and_reg(old(self)@, x as int, y as int),
    {
        let v = self.registers[x] & self.registers[y];
        self.registers.set(x, v);
        ProgramCounter::Next
    }

    fn op_8xy3(&mut self, x: usize, y: usize) -> (r: ProgramCounter)
        requires
            old(self)@.wf(),
            x < 16,
            y < 16,
        ensures
            (final(self)@, r) == spec_xor_reg(old(self)@, x as int, y as int),
    {
        let v = self.registers[x] ^ self.registers[y];
        self.registers.set(x, v);
        ProgramCounter::Next
    }

    fn op_8xy4(&mut self, x: usize, y: usize) -> (r: ProgramCounter)
        requires
            old(self)@.wf(),
            x < 16,
            y < 16,
        ensures
            (final(self)@, r) == spec_add_reg(old(self)@, x as int, y as int),
            final(self)@.registers[15] == (
                if old(self)@.registers[x as int] + old(self)@.registers[y as int] > 255 { 1u8 } else { 0u8 }
            ),
            x != 15 ==> final(self)@.registers[x as int] == (
                (old(self)@.registers[x as int] + old(self)@.registers[y as int]) % 256
            ) as u8,
    {
        let vx: u16 = self.registers[x] as u16;
        let vy: u16 = self.registers[y] as u16;
        let sum: u16 = vx + vy;
        self.registers.set(x, (sum % 256) as u8);
        let carry: u8 = if sum > 0xFF { 1 } else { 0 };
        self.registers.set(15, carry);
        ProgramCounter::Next
    }

    fn op_8xy5(&mut self, x: usize, y: usize) -> (r: ProgramCounter)
        requires
            old(self)@.wf(),
            x < 16,
            y < 16,
        ensures
            (final(self)@, r) == spec_sub_reg(old(self)@, x as int, y as int),
            x != 15 && y != 15 ==> final(self)@.registers[15] == (
                if old(self)@.registers[x as int] > old(self)@.registers[y as int] { 1u8 } else { 0u8 }
            ),
            x != 15 && y != 15 ==> final(self)@.registers[x as int] == sub8(
                old(self)@.registers[x as int],
                old(self)@.registers[y as int],
            ),
    {
        let flag: u8 = if self.registers[x] > self.registers[y] { 1 } else { 0 };
        self.registers.set(15, flag);
        let vx = self.registers[x];
        let vy = self.registers[y];
        self.registers.set(x, vx.wrapping_sub(vy));
        ProgramCounter::Next
    }

    fn op_8x06(&mut self, x: usize) -> (r: ProgramCounter)
        requires
            old(self)@.wf(),
            x < 16,
        ensures
            (final(self)@, r) == spec_shr_reg(old(self)@, x as int),
    {
        let low: u8 = self.registers[x] & 1;
        self.registers.set(15, low);
        let vx = self.registers[x];
        self.registers.set(x, vx >> 1u8);
        ProgramCounter::Next
    }

    fn op_8xy7(&mut self, x: usize, y: usize) -> (r: ProgramCounter)
        requires
            old(self)@.wf(),
            x < 16,
            y < 16,
        ensures
            (final(self)@, r) == spec_sub_rev_reg(old(self)@, x as int, y as int),
    {
        let flag: u8 = if self.registers[y] > self.registers[x] { 1 } else { 0 };
        self.registers.set(15, flag);
        let vx = self.registers[x];
        let vy = self.registers[y];
        self.registers.set(x, vy.wrapping_sub(vx));
        ProgramCounter::Next
    }

    fn op_8x0e(&mut self, x: usize) -> (r: ProgramCounter)
        requires
            old(self)@.wf(),
            x < 16,
        ensures
            (final(self)@, r) == spec_shl_reg(old(self)@, x as int),
    {
        let high: u8 = (self.registers[x] & 0x80) >> 7u8;
        self.registers.set(15, high);
        let vx = self.registers[x];
        proof {
            assert((vx & 0x7F) <= 0x7F && (vx & 0x7F) * 2 == ((vx << 1u8) as int)) by (bit_vector);
        }
        let shifted: u8 = (vx & 0x7F) * 2;
        self.registers.set(x, shifted);
        ProgramCounter::Next
    }

    fn op_annn(&mut self, nnn: u16) -> (r: ProgramCounter)
        requires
            old(self)@.wf(),
            nnn < 4096,
        ensures
            (final(self)@, r) == spec_set_index(old(self)@, nnn),
    {
        self.index = nnn as usize;
        ProgramCounter::Next
    }

    fn op_bnnn(&mut self, nnn: u16) -> (r: ProgramCounter)
        requires
            old(self)@.wf(),
            nnn < 4096,
        ensures
            (final(self)@, r) == spec_jump_offset(old(self)@, nnn),
    {
        let target: usize = (self.registers[0] as usize + nnn as usize) % 4096;
        ProgramCounter::Jump(target as u16)
    }

    fn op_cxkk(&mut self, x: usize, kk: u8, rnd: u8) -> (r: ProgramCounter)
        requires
            old(self)@.wf(),
            x < 16,
        ensures
            (final(self)@, r) == spec_random_mask(old(self)@, x as int, kk, rnd),
    {
        self.registers.set(x, rnd & kk);
        ProgramCounter::Next
    }

    fn op_fx07(&mut self, x: usize) -> (r: ProgramCounter)
        requires
            old(self)@.wf(),
            x < 16,
        ensures
            (final(self)@, r) == spec_read_delay(old(self)@, x as int),
    {
        let d = self.delay_timer;
        self.registers.set(x, d);
        ProgramCounter::Next
    }

    fn op_fx0a(&mut self, x: usize) -> (r: ProgramCounter)
        requires
            old(self)@.wf(),
            x < 16,
        ensures
            (final(self)@, r) == spec_wait_key(old(self)@, x as int),
    {
        self.keypad_waiting = true;
        self.keypad_register = x;
        ProgramCounter::Next
    }

    fn op_fx15(&mut self, x: usize) -> (r: ProgramCounter)
        requires
            old(self)@.wf(),
            x < 16,
        ensures
            (final(self)@, r) == spec_set_delay(old(self)@, x as int),
    {
        self.delay_timer = self.registers[x];
        ProgramCounter::Next
    }

    fn op_fx18(&mut self, x: usize) -> (r: ProgramCounter)
        requires
            old(self)@.wf(),
            x < 16,
        ensures
            (final(self)@, r) == spec_set_sound(old(self)@, x as int),
    {
        self.sound_timer = self.registers[x];
        ProgramCounter::Next
    }

    fn op_fx1e(&mut self, x: usize) -> (r: ProgramCounter)
        requires
            old(self)@.wf(),
            x < 16,
        ensures
            (final(self)@, r) == spec_add_index(old(self)@, x as int),
    {
        let sum: usize = self.index + self.registers[x] as usize;
        self.index = sum % 4096;
        let flag: u8 = if sum > 0xF00 { 1 } else { 0 };
        self.registers.set(15, flag);
        ProgramCounter::Next
    }

    fn op_fx29(&mut self, x: usize) -> (r: ProgramCounter)
        requires
            old(self)@.wf(),
            x < 16,
        ensures
            (final(self)@, r) == spec_font_index(old(self)@, x as int),
    {
        self.index = self.registers[x] as usize * 5;
        ProgramCounter::Next
    }

    fn op_fx33(&mut self, x: usize) -> (r: ProgramCounter)
        requires
            old(self)@.wf(),
            x < 16,
        ensures
            (final(self)@, r) == spec_bcd(old(self)@, x as int),
    {
        let v = self.registers[x];
        let i0 = self.index;
        self.ram.set(i0, v / 100);
        self.ram.set((i0 + 1) % 4096, (v % 100) / 10);
        self.ram.set((i0 + 2) % 4096, v % 10);
        ProgramCounter::Next
    }
    fn op_dxyn(&mut self, x: usize, y: usize, n: usize) -> (r: ProgramCounter)
        requires
            old(self)@.wf(),
            x < 16,
            y < 16,
            n < 16,
        ensures
            (final(self)@, r) == spec_draw(old(self)@, x as int, y as int, n as int),
            final(self)@.wf(),
    {
        let px = self.registers[x];
        let py = self.registers[y];
        let mut vf: u8 = 0;
        let mut byte: usize = 0;
        proof {
            assert(self@.vram =~= spec_draw_vram_partial(old(self)@, px, py, 0, 0));
        }
        while byte < n
            invariant
                byte <= n,
                n < 16,
                old(self)@.wf(),
                px == old(self)@.registers[x as int],
                py == old(self)@.registers[y as int],
                self@ == (State { vram: self@.vram, ..old(self)@ }),
                self@.vram == spec_draw_vram_partial(old(self)@, px, py, byte as int, 0),
                vf == (if spec_draw_collision_partial(old(self)@, px, py, byte as int, 0) {
                    1u8
                } else {
                    0u8
                }),
            decreases n - byte,
        {
            let row = ((py as usize) + byte) % 32;
            let sprite = self.ram[(self.index + byte) % 4096];
            let mut bit: usize = 0;
            while bit < 8
                invariant
                    bit <= 8,
                    byte < n,
                    n < 16,
                    old(self)@.wf(),
                    px == old(self)@.registers[x as int],
                    py == old(self)@.registers[y as int],
                    row == ((py as int) + byte) % 32,
                    sprite == old(self)@.ram[(old(self)@.index + byte) % 4096],
                    self@ == (State { vram: self@.vram, ..old(self)@ }),
                    self@.vram == spec_draw_vram_partial(old(self)@, px, py, byte as int, bit as int),
                    vf == (if spec_draw_collision_partial(
                        old(self)@,
                        px,
                        py,
                        byte as int,
                        bit as int,
                    ) {
                        1u8
                    } else {
                        0u8
                    }),
                decreases 8 - bit,
            {
                let ghost s0 = old(self)@;
                let ghost b_i = byte as int;
                let ghost t_i = bit as int;
                let col = ((px as usize) + bit) % 64;
                let sh: u8 = (7 - bit) as u8;
                let color: u8 = (sprite >> sh) & 1;
                let j = row * 64 + col;
                proof {
                    lemma_cell_inverse(px, py, b_i, t_i);
                    assert(j == draw_cell_index(px, py, b_i, t_i));
                    assert(!draw_hit_partial(px, py, j as int, b_i, t_i));
                    assert(color == spec_sprite_pixel(s0.ram[(s0.index + b_i) % 4096], t_i));
                }
                let cur = self.vram[j];
                proof {
                    assert(cur == s0.vram[j as int]);
                    assert(cur <= 1);
                    assert((sprite >> sh) & 1 <= 1) by (bit_vector);
                    assert(color <= 1);
                }
                let hit_bit: u8 = color & cur;
                proof {
                    assert(vf <= 1 && color <= 1 && cur <= 1 ==> ((vf | (color & cur)) == 1 <==> (
                    vf == 1 || (color == 1 && cur == 1)))) by (bit_vector);
                    assert(vf <= 1 && color <= 1 && cur <= 1 ==> (vf | (color & cur)) <= 1)
                        by (bit_vector);
                }
                let new_vf: u8 = vf | hit_bit;
                proof {
                    let cp_old = spec_draw_collision_partial(s0, px, py, b_i, t_i);
                    let cp_new = spec_draw_collision_partial(s0, px, py, b_i, t_i + 1);
                    if cp_old {
                        let (b, t) = choose|b: int, t: int|
                            0 <= b && 0 <= t < 8 && (b < b_i || (b == b_i && t < t_i))
                                && spec_sprite_pixel(s0.ram[(s0.index + b) % 4096], t) == 1
                                && s0.vram[draw_cell_index(px, py, b, t)] == 1;
                        assert(0 <= b && 0 <= t < 8 && (b < b_i || (b == b_i && t < t_i + 1))
                            && spec_sprite_pixel(s0.ram[(s0.index + b) % 4096], t) == 1
                            && s0.vram[draw_cell_index(px, py, b, t)] == 1);
                        assert(cp_new);
                    }
                    if color == 1 && cur == 1 {
                        assert(0 <= b_i && 0 <= t_i < 8 && (b_i < b_i || (b_i == b_i && t_i < t_i
                            + 1)) && spec_sprite_pixel(s0.ram[(s0.index + b_i) % 4096], t_i) == 1
                            && s0.vram[draw_cell_index(px, py, b_i, t_i)] == 1);
                        assert(cp_new);
                    }
                    if cp_new && !cp_old && !(color == 1 && cur == 1) {
                        let (b, t) = choose|b: int, t: int|
                            0 <= b && 0 <= t < 8 && (b < b_i || (b == b_i && t < t_i + 1))
                                && spec_sprite_pixel(s0.ram[(s0.index + b) % 4096], t) == 1
                                && s0.vram[draw_cell_index(px, py, b, t)] == 1;
                        if b < b_i || (b == b_i && t < t_i) {
                            assert(spec_draw_collision_partial(s0, px, py, b_i, t_i));
                            assert(false);
                        } else {
                            assert(b == b_i && t == t_i);
                            assert(false);
                        }
                    }
                    assert(cp_new <==> (cp_old || (color == 1 && cur == 1)));
                    assert(new_vf == 1 <==> (vf == 1 || (color == 1 && cur == 1)));
                    assert(new_vf <= 1);
                    assert(new_vf == (if cp_new { 1u8 } else { 0u8 }));
                }
                vf = new_vf;
                let flipped: u8 = cur ^ color;
                self.vram.set(j, flipped);
                proof {
                    assert(self@.vram =~= spec_draw_vram_partial(s0, px, py, b_i, t_i + 1)) by {
                        assert forall|i: int| 0 <= i < 2048 implies self@.vram[i]
                            == spec_draw_vram_partial(s0, px, py, b_i, t_i + 1)[i] by {
                            lemma_cell_unique(px, py, i);
                            if i != j {
                                assert(!(byte_of(py, i) == b_i && bit_of(px, i) == t_i));
                            }
                        }
                    }
                }
                bit += 1;
            }
            proof {
                let ghost s0 = old(self)@;
                let ghost b_i = byte as int;
                assert(self@.vram =~= spec_draw_vram_partial(s0, px, py, b_i + 1, 0));
                assert(spec_draw_collision_partial(s0, px, py, b_i + 1, 0)
                    == spec_draw_collision_partial(s0, px, py, b_i, 8)) by {
                    if spec_draw_collision_partial(s0, px, py, b_i + 1, 0) {
                        let (b, t) = choose|b: int, t: int|
                            0 <= b && 0 <= t < 8 && (b < b_i + 1 || (b == b_i + 1 && t < 0))
                                && spec_sprite_pixel(s0.ram[(s0.index + b) % 4096], t) == 1
                                && s0.vram[draw_cell_index(px, py, b, t)] == 1;
                        assert(0 <= b && 0 <= t < 8 && (b < b_i || (b == b_i && t < 8))
                            && spec_sprite_pixel(s0.ram[(s0.index + b) % 4096], t) == 1
                            && s0.vram[draw_cell_index(px, py, b, t)] == 1);
                        assert(spec_draw_collision_partial(s0, px, py, b_i, 8));
                    }
                    if spec_draw_collision_partial(s0, px, py, b_i, 8) {
                        let (b, t) = choose|b: int, t: int|
                            0 <= b && 0 <= t < 8 && (b < b_i || (b == b_i && t < 8))
                                && spec_sprite_pixel(s0.ram[(s0.index + b) % 4096], t) == 1
                                && s0.vram[draw_cell_index(px, py, b, t)] == 1;
                        assert(0 <= b && 0 <= t < 8 && (b < b_i + 1 || (b == b_i + 1 && t < 0))
                            && spec_sprite_pixel(s0.ram[(s0.index + b) % 4096], t) == 1
                            && s0.vram[draw_cell_index(px, py, b, t)] == 1);
                        assert(spec_draw_collision_partial(s0, px, py, b_i + 1, 0));
                    }
                }
            }
            byte += 1;
        }
        proof {
            let ghost s0 = old(self)@;
            let ghost n_i = n as int;
            assert(self@.vram =~= spec_draw_vram(s0, px, py, n_i));
            assert(spec_draw_collision(s0, px, py, n_i) == spec_draw_collision_partial(
                s0,
                px,
                py,
                n_i,
                0,
            )) by {
                if spec_draw_collision(s0, px, py, n_i) {
                    let (b, t) = choose|b: int, t: int|
                        0 <= b < n_i && 0 <= t < 8 && spec_sprite_pixel(
                            s0.ram[(s0.index + b) % 4096],
                            t,
                        ) == 1 && s0.vram[draw_cell_index(px, py, b, t)] == 1;
                    assert(0 <= b && 0 <= t < 8 && (b < n_i || (b == n_i && t < 0))
                        && spec_sprite_pixel(s0.ram[(s0.index + b) % 4096], t) == 1
                        && s0.vram[draw_cell_index(px, py, b, t)] == 1);
                    assert(spec_draw_collision_partial(s0, px, py, n_i, 0));
                }
                if spec_draw_collision_partial(s0, px, py, n_i, 0) {
                    let (b, t) = choose|b: int, t: int|
                        0 <= b && 0 <= t < 8 && (b < n_i || (b == n_i && t < 0))
                            && spec_sprite_pixel(s0.ram[(s0.index + b) % 4096], t) == 1
                            && s0.vram[draw_cell_index(px, py, b, t)] == 1;
                    assert(spec_draw_collision(s0, px, py, n_i));
                }
            }
        }
        self.registers.set(15, vf);
        self.vram_changed = true;
        proof {
            let ghost s0 = old(self)@;
            assert(self@ =~= spec_draw(s0, x as int, y as int, n as int).0);
            assert(forall|a: u8, k: u8| k < 8 ==> ((a >> k) & 1) <= 1) by (bit_vector);
            assert(forall|a: u8, b: u8| a <= 1 && b <= 1 ==> (a ^ b) <= 1) by (bit_vector);
            assert forall|i: int| 0 <= i < 2048 implies self@.vram[i] == 0 || self@.vram[i]
                == 1 by {
                lemma_cell_unique(px, py, i);
            }
        }
        ProgramCounter::Next
    }

    fn op_fx55(&mut self, x: usize) -> (r: ProgramCounter)
        requires
            old(self)@.wf(),
            x < 16,
        ensures
            (final(self)@, r) == spec_store_regs(old(self)@, x as int),
    {
        let mut i: usize = 0;
        while i < x + 1
            invariant
                i <= x + 1,
                x < 16,
                old(self)@.wf(),
                self@ == (State { ram: self@.ram, ..old(self)@ }),
                self@.ram.len() == 4096,
                self@.ram == ram_with_regs(
                    old(self)@.ram,
                    old(self)@.registers,
                    old(self)@.index,
                    i as int,
                ),
            decreases x + 1 - i,
        {
            let v = self.registers[i];
            let a = (self.index + i) % 4096;
            self.ram.set(a, v);
            i += 1;
        }
        ProgramCounter::Next
    }

    fn op_fx65(&mut self, x: usize) -> (r: ProgramCounter)
        requires
            old(self)@.wf(),
            x < 16,
        ensures
            (final(self)@, r) == spec_load_regs(old(self)@, x as int),
    {
        let mut i: usize = 0;
        while i < x + 1
            invariant
                i <= x + 1,
                x < 16,
                old(self)@.wf(),
                self@ == (State { registers: self@.registers, ..old(self)@ }),
                self@.registers.len() == 16,
                self@.registers == regs_from_ram(
                    old(self)@.registers,
                    old(self)@.ram,
                    old(self)@.index,
                    i as int,
                ),
            decreases x + 1 - i,
        {
            let a = (self.index + i) % 4096;
            let v = self.ram[a];
            self.registers.set(i, v);
            i += 1;
        }
        ProgramCounter::Next
    }
}

} // verus!
