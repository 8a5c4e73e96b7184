//! The machine: memory, registers, stack, display, keypad and timers, and
//! the step that runs one instruction.

use rand::Rng;
use vstd::prelude::*;
use crate::emu::instructions::{Addr, Instruction, Val, Vx};
use crate::emu::keycode::Keycode;
use crate::error::ChipoError;

verus! {

/// The bytes of memory.
pub const MEMORY_SIZE: usize = 4096;

/// The address at which a program is loaded and started.
pub const PROGRAM_START: usize = 0x200;

/// The width of the display in pixels.
pub const DISPLAY_WIDTH: usize = 64;

/// The height of the display in pixels.
pub const DISPLAY_HEIGHT: usize = 32;

/// Whether the machine goes on after a step.
#[derive(Debug, Clone, Copy, PartialEq, Eq, Structural)]
pub enum ProgramState {
    Continue,
    /// The program returned from its outermost level.
    Stop,
}

/// The state of a machine as plain values.
#[verifier::ext_equal]
pub struct Machine {
    /// 4096 bytes: the font from address 0, the program from 0x200.
    pub memory: Seq<Val>,
    /// The sixteen registers; the last is the carry, borrow and collision
    /// flag.
    pub registers: Seq<Val>,
    /// The address register.
    pub i: Addr,
    pub delay_timer: Val,
    pub sound_timer: Val,
    pub pc: usize,
    /// The saved return addresses, the latest last.
    pub stack: Seq<Addr>,
    /// Set whenever the display changes.
    pub should_render: bool,
    /// 64 by 32 pixels, row by row.
    pub pixels: Seq<bool>,
    /// The sixteen keys of the pad: which are down.
    pub keys: Seq<bool>,
}

/// The glyphs of the sixteen hexadecimal digits, five bytes each.
pub open spec fn font() -> Seq<Val> {
    seq![
        0xF0u8, 0x90u8, 0x90u8, 0x90u8, 0xF0u8,
        0x20u8, 0x60u8, 0x20u8, 0x20u8, 0x70u8,
        0xF0u8, 0x10u8, 0xF0u8, 0x80u8, 0xF0u8,
        0xF0u8, 0x10u8, 0xF0u8, 0x10u8, 0xF0u8,
        0x90u8, 0x90u8, 0xF0u8, 0x10u8, 0x10u8,
        0xF0u8, 0x80u8, 0xF0u8, 0x10u8, 0xF0u8,
        0xF0u8, 0x80u8, 0xF0u8, 0x90u8, 0xF0u8,
        0xF0u8, 0x10u8, 0x20u8, 0x40u8, 0x40u8,
        0xF0u8, 0x90u8, 0xF0u8, 0x90u8, 0xF0u8,
        0xF0u8, 0x90u8, 0xF0u8, 0x10u8, 0xF0u8,
        0xF0u8, 0x90u8, 0xF0u8, 0x90u8, 0x90u8,
        0xE0u8, 0x90u8, 0xE0u8, 0x90u8, 0xE0u8,
        0xF0u8, 0x80u8, 0x80u8, 0x80u8, 0xF0u8,
        0xE0u8, 0x90u8, 0x90u8, 0x90u8, 0xE0u8,
        0xF0u8, 0x80u8, 0xF0u8, 0x80u8, 0xF0u8,
        0xF0u8, 0x80u8, 0xF0u8, 0x80u8, 0x80u8,
    ]
}

/// The index of the first key that is down, from `from` on.
pub open spec fn first_down(keys: Seq<bool>, from: int) -> Option<usize>
    decreases keys.len() - from,
{
    if from < 0 || from >= keys.len() {
        None
    } else if keys[from] {
        Some(from as usize)
    } else {
        first_down(keys, from + 1)
    }
}

/// The place of a pixel in the display: both coordinates wrap around.
pub open spec fn pixel_index(x: int, y: int) -> int {
    (x % 64) + 64 * (y % 32)
}

impl Machine {
    /// The sizes of the parts of a machine.
    pub open spec fn shaped(self) -> bool {
        &&& self.memory.len() == 4096
        &&& self.registers.len() == 16
        &&& self.pixels.len() == 2048
        &&& self.keys.len() == 16
    }

    /// A machine that has just loaded `blob`: the font at address 0, the
    /// program at 0x200, everything else cleared and the display due.
    pub open spec fn boot(blob: Seq<u8>) -> Machine {
        Machine {
            memory: Seq::new(
                4096,
                |a: int|
                    if a < 80 {
                        font()[a]
                    } else if 0x200 <= a < 0x200 + blob.len() {
                        blob[a - 0x200]
                    } else {
                        0u8
                    },
            ),
            registers: Seq::new(16, |k: int| 0u8),
            i: 0,
            delay_timer: 0,
            sound_timer: 0,
            pc: 0x200,
            stack: Seq::empty(),
            should_render: true,
            pixels: Seq::new(2048, |k: int| false),
            keys: Seq::new(16, |k: int| false),
        }
    }

    /// The lowest key that is down.
    pub open spec fn pressed_key(self) -> Option<usize> {
        first_down(self.keys, 0)
    }

    /// The machine after one pixel was drawn at `(x, y)`: a set `val` flips
    /// the pixel, and the display is due in any case.
    pub open spec fn with_pixel(self, x: int, y: int, val: bool) -> Machine {
        Machine {
            should_render: true,
            pixels: self.pixels.update(
                pixel_index(x, y),
                self.pixels[pixel_index(x, y)] != val,
            ),
            ..self
        }
    }

    /// The machine after one tick of the timers: each goes down by one
    /// unless it is zero.
    pub open spec fn ticked(self) -> Machine {
        Machine {
            sound_timer: if self.sound_timer > 0 {
                (self.sound_timer - 1) as Val
            } else {
                0
            },
            delay_timer: if self.delay_timer > 0 {
                (self.delay_timer - 1) as Val
            } else {
                0
            },
            ..self
        }
    }

    /// The machine with the pad key of `keycode` set to `down`; a key that
    /// the pad does not use changes nothing.
    pub open spec fn with_key(self, keycode: Keycode, down: bool) -> Machine {
        match keycode.pad_index() {
            Some(k) => Machine { keys: self.keys.update(k as int, down), ..self },
            None => self,
        }
    }
}

/// Whether bit `col` of a sprite row is set, counting from the left.
pub open spec fn sprite_bit(row: Val, col: Val) -> bool {
    (row >> ((7 - col) as Val)) & 0x01 != 0
}

impl Machine {
    /// The word that the program counter points to, high byte first.
    pub open spec fn word_at_pc(self) -> u16 {
        (self.memory[self.pc as int] * 0x100 + self.memory[self.pc + 1]) as u16
    }

    pub open spec fn reg(self, x: Vx) -> Val {
        self.registers[x as int]
    }

    pub open spec fn with_register(self, x: Vx, val: Val) -> Machine {
        Machine { registers: self.registers.update(x as int, val), ..self }
    }

    /// The flag register set to one or to zero.
    pub open spec fn with_flag(self, raised: bool) -> Machine {
        self.with_register(0xF, if raised { 1 } else { 0 })
    }

    pub open spec fn with_pc(self, pc: int) -> Machine {
        Machine { pc: pc as usize, ..self }
    }

    /// The next instruction, or the one after it where `skip` holds.
    pub open spec fn skipping(self, skip: bool) -> Machine {
        self.with_pc(self.pc + if skip { 4int } else { 2int })
    }

    /// The machine after the first `steps` pixels of a sprite were drawn,
    /// row by row from the address register, eight pixels a row, at the
    /// place that registers `vx` and `vy` give. The flag is cleared first
    /// and set by every lit pixel that goes out; the registers are read
    /// anew for each pixel.
    pub open spec fn drawn(self, vx: Vx, vy: Vx, steps: nat) -> Machine
        decreases steps,
    {
        if steps == 0 {
            self.with_register(0xF, 0)
        } else {
            let before = self.drawn(vx, vy, (steps - 1) as nat);
            let row = (steps - 1) / 8;
            let col = (steps - 1) % 8;
            let val = sprite_bit(before.memory[before.i + row], col as Val);
            let x = before.reg(vx) + col;
            let y = before.reg(vy) + row;
            let after = before.with_pixel(x, y, val);
            if before.pixels[pixel_index(x, y)] && val {
                after.with_register(0xF, 1)
            } else {
                after
            }
        }
    }

    /// Whether the machine can run `instr` where it stands: the program
    /// counter points to a word inside memory, the registers that the
    /// instruction names exist, what it reads and writes lies inside
    /// memory, and the addresses it makes fit the program counter.
    pub open spec fn can_execute(self, instr: Instruction) -> bool {
        &&& self.pc + 1 < 4096
        &&& instr.registers_in_range()
        &&& match instr {
            Instruction::Return => self.stack.len() > 0 ==> self.stack.last() + 2 <= usize::MAX,
            Instruction::Jump(a) => self.registers[0] + a <= usize::MAX,
            Instruction::Disp(_, _, n) => n > 0 ==> self.i + n <= 4096,
            Instruction::BCD(_) => self.i + 2 < 4096,
            Instruction::MemDump(x) | Instruction::MemLoad(x) => self.i + x < 4096,
            Instruction::FontLoad(x) => self.reg(x) * 5 <= 255,
            _ => true,
        }
    }

    /// Whether the machine can run the word that its program counter
    /// points to. A word that decodes to nothing can always be run: it
    /// fails.
    pub open spec fn can_cycle(self) -> bool {
        &&& self.pc + 1 < 4096
        &&& match Instruction::decode(self.word_at_pc()) {
            Some(instr) => self.can_execute(instr),
            None => true,
        }
    }

    /// What running `instr` reports: a data word and the legacy call
    /// cannot be run, a return with nothing to return to ends the program,
    /// everything else goes on.
    pub open spec fn outcome(self, instr: Instruction) -> Result<ProgramState, ChipoError> {
        match instr {
            Instruction::Raw(_) | Instruction::CallPrg(_) => Err(
                ChipoError::UnimplementedOpCodeErr(instr.encode(), instr),
            ),
            Instruction::Return => if self.stack.len() == 0 {
                Ok(ProgramState::Stop)
            } else {
                Ok(ProgramState::Continue)
            },
            _ => Ok(ProgramState::Continue),
        }
    }

    /// The machine after `instr` has run, with `random` as the byte that
    /// chance gives.
    pub open spec fn next(self, instr: Instruction, random: Val) -> Machine {
        match instr {
            Instruction::Raw(_) | Instruction::CallPrg(_) => self,
            Instruction::DisplayClear => Machine {
                pixels: Seq::new(2048, |k: int| false),
                should_render: true,
                ..self
            }.skipping(false),
            Instruction::Return => if self.stack.len() == 0 {
                self
            } else {
                Machine { stack: self.stack.drop_last(), ..self }.with_pc(self.stack.last() + 2)
            },
            Instruction::Call(addr) => Machine {
                stack: self.stack.push(self.pc as Addr),
                ..self
            }.with_pc(addr as int),
            Instruction::GoTo(addr) => self.with_pc(addr as int),
            Instruction::IfEq(x, val) => self.skipping(self.reg(x) == val),
            Instruction::IfEqRg(x, y) => self.skipping(self.reg(x) == self.reg(y)),
            Instruction::IfNeq(x, val) => self.skipping(self.reg(x) != val),
            Instruction::IfNeqRg(x, y) => self.skipping(self.reg(x) != self.reg(y)),
            Instruction::SetVal(x, val) => self.with_register(x, val).skipping(false),
            Instruction::SetRg(x, y) => self.with_register(x, self.reg(y)).skipping(false),
            Instruction::Add(x, val) => self.with_register(
                x,
                ((self.reg(x) + val) % 256) as Val,
            ).skipping(false),
            Instruction::AddRg(x, y) => self.with_flag(self.reg(x) + self.reg(y) > 255).with_register(
                x,
                ((self.reg(x) + self.reg(y)) % 256) as Val,
            ).skipping(false),
            Instruction::Or(x, y) => self.with_register(x, self.reg(x) | self.reg(y)).skipping(
                false,
            ),
            Instruction::And(x, y) => self.with_register(x, self.reg(x) & self.reg(y)).skipping(
                false,
            ),
            Instruction::Xor(x, y) => self.with_register(x, self.reg(x) ^ self.reg(y)).skipping(
                false,
            ),
            Instruction::Sub(x, y) => self.with_flag(self.reg(x) < self.reg(y)).with_register(
                x,
                ((self.reg(x) - self.reg(y)) % 256) as Val,
            ).skipping(false),
            Instruction::SubSelf(x, y) => self.with_flag(self.reg(y) < self.reg(x)).with_register(
                x,
                ((self.reg(y) - self.reg(x)) % 256) as Val,
            ).skipping(false),
            Instruction::RightShift(x) => {
                let flagged = self.with_register(0xF, self.reg(x) % 2);
                flagged.with_register(x, flagged.reg(x) / 2).skipping(false)
            },
            Instruction::LeftShift(x) => {
                let flagged = self.with_register(0xF, if self.reg(x) >= 128 { 128 } else { 0 });
                flagged.with_register(x, ((flagged.reg(x) * 2) % 256) as Val).skipping(false)
            },
            Instruction::SetAddr(addr) => Machine { i: addr, ..self }.skipping(false),
            Instruction::Jump(addr) => self.with_pc(self.registers[0] + addr),
            Instruction::Rand(x, val) => self.with_register(x, random & val).skipping(false),
            Instruction::Disp(x, y, n) => self.drawn(x, y, 8 * n as nat).skipping(false),
            Instruction::SetSoundTimer(x) => Machine { sound_timer: self.reg(x), ..self }.skipping(
                false,
            ),
            Instruction::SetTimer(x) => Machine { delay_timer: self.reg(x), ..self }.skipping(
                false,
            ),
            Instruction::GetTimer(x) => self.with_register(x, self.delay_timer).skipping(false),
            Instruction::BCD(x) => Machine {
                memory: self.memory.update(self.i as int, self.reg(x) / 100).update(
                    self.i + 1,
                    (self.reg(x) / 10) % 10,
                ).update(self.i + 2, self.reg(x) % 10),
                ..self
            }.skipping(false),
            Instruction::MemDump(x) => Machine {
                memory: Seq::new(
                    4096,
                    |a: int|
                        if self.i <= a <= self.i + x {
                            self.registers[a - self.i]
                        } else {
                            self.memory[a]
                        },
                ),
                ..self
            }.skipping(false),
            Instruction::MemLoad(x) => Machine {
                registers: Seq::new(
                    16,
                    |k: int|
                        if k <= x {
                            self.memory[self.i + k]
                        } else {
                            self.registers[k]
                        },
                ),
                ..self
            }.skipping(false),
            Instruction::AddToI(x) => Machine {
                i: ((self.i + self.reg(x)) % 0x1_0000_0000) as Addr,
                ..self
            }.skipping(false),
            Instruction::FontLoad(x) => Machine { i: (self.reg(x) * 5) as Addr, ..self }.skipping(
                false,
            ),
            Instruction::KeyOpEq(x) => self.skipping(
                self.pressed_key() == Some(self.reg(x) as usize),
            ),
            Instruction::KeyOpNeq(x) => self.skipping(
                self.pressed_key() != Some(self.reg(x) as usize),
            ),
            Instruction::GetKeyOp(x) => match self.pressed_key() {
                Some(key) => self.with_register(x, key as Val).skipping(false),
                None => self,
            },
        }
    }
}

/// The side of the square that a pixel is on the host's screen.
pub const SCALE: i32 = 10;

/// A rectangle on the host's screen.
#[derive(Debug, Clone, Copy, PartialEq, Eq, Structural)]
pub struct Rect {
    pub x: i32,
    pub y: i32,
    pub width: u32,
    pub height: u32,
}

/// The square of the pixel at place `pos` of the display.
pub open spec fn rect_at(pos: int) -> Rect {
    Rect { x: ((pos % 64) * 10) as i32, y: ((pos / 64) * 10) as i32, width: 10, height: 10 }
}

/// The squares of the lit pixels among the first `upto`, in order.
pub open spec fn lit_rects(pixels: Seq<bool>, upto: nat) -> Seq<Rect>
    decreases upto,
{
    if upto == 0 {
        Seq::empty()
    } else if pixels[upto - 1] {
        lit_rects(pixels, (upto - 1) as nat).push(rect_at(upto - 1))
    } else {
        lit_rects(pixels, (upto - 1) as nat)
    }
}

pub struct Proc {
    memory: [Val; 4096],
    rg: [Val; 16],
    i: Addr,
    delay_rg: Val,
    sound_rg: Val,
    pc: usize,
    stack: Vec<Addr>,
    pub should_render: bool,
    pub pixels: [bool; 2048],
    keys: [bool; 16],
}

impl View for Proc {
    type V = Machine;

    closed spec fn view(&self) -> Machine {
        Machine {
            memory: self.memory@,
            registers: self.rg@,
            i: self.i,
            delay_timer: self.delay_rg,
            sound_timer: self.sound_rg,
            pc: self.pc,
            stack: self.stack@,
            should_render: self.should_render,
            pixels: self.pixels@,
            keys: self.keys@,
        }
    }
}

impl Proc {
    /// A machine of arrays has the sizes of a machine.
    pub proof fn lemma_shaped(&self)
        ensures
            self@.shaped(),
    {
    }

    /// What the fields are in the view.
    proof fn lemma_view(&self)
        ensures
            self@.memory == self.memory@,
            self@.registers == self.rg@,
            self@.i == self.i,
            self@.delay_timer == self.delay_rg,
            self@.sound_timer == self.sound_rg,
            self@.pc == self.pc,
            self@.stack == self.stack@,
            self@.keys == self.keys@,
    {
    }

    /// Loads a program. The blob must fit between 0x200 and the end of
    /// memory.
    pub fn binary(blob: &[u8]) -> (res: Result<Self, ChipoError>)
        requires
            blob@.len() <= 4096 - 0x200,
        ensures
            res matches Ok(p) && p@ == Machine::boot(blob@),
    {
        let fonts: [u8; 80] = [
            0xF0, 0x90, 0x90, 0x90, 0xF0,
            0x20, 0x60, 0x20, 0x20, 0x70,
            0xF0, 0x10, 0xF0, 0x80, 0xF0,
            0xF0, 0x10, 0xF0, 0x10, 0xF0,
            0x90, 0x90, 0xF0, 0x10, 0x10,
            0xF0, 0x80, 0xF0, 0x10, 0xF0,
            0xF0, 0x80, 0xF0, 0x90, 0xF0,
            0xF0, 0x10, 0x20, 0x40, 0x40,
            0xF0, 0x90, 0xF0, 0x90, 0xF0,
            0xF0, 0x90, 0xF0, 0x10, 0xF0,
            0xF0, 0x90, 0xF0, 0x90, 0x90,
            0xE0, 0x90, 0xE0, 0x90, 0xE0,
            0xF0, 0x80, 0x80, 0x80, 0xF0,
            0xE0, 0x90, 0x90, 0x90, 0xE0,
            0xF0, 0x80, 0xF0, 0x80, 0xF0,
            0xF0, 0x80, 0xF0, 0x80, 0x80,
        ];
        assert(fonts@ =~= font());
        let mut proc = Proc {
            memory: [0; 4096],
            rg: [0; 16],
            i: 0,
            delay_rg: 0,
            sound_rg: 0,
            pc: 0x200,
            stack: Vec::new(),
            should_render: true,
            pixels: [false; 2048],
            keys: [false; 16],
        };
        let mut pos: usize = 0;
        while pos < 80
            invariant
                pos <= 80,
                fonts@ == font(),
                forall|a: int| 0 <= a < pos ==> proc.memory@[a] == font()[a],
                forall|a: int| pos <= a < 4096 ==> proc.memory@[a] == 0,
                proc.rg@ == Seq::new(16, |k: int| 0u8),
                proc.pixels@ == Seq::new(2048, |k: int| false),
                proc.keys@ == Seq::new(16, |k: int| false),
                proc.i == 0 && proc.delay_rg == 0 && proc.sound_rg == 0 && proc.pc == 0x200,
                proc.stack@ == Seq::<Addr>::empty(),
                proc.should_render,
            decreases 80 - pos,
        {
            proc.memory[pos] = fonts[pos];
            pos += 1;
        }
        let mut at: usize = 0;
        while at < blob.len()
            invariant
                at <= blob@.len() <= 4096 - 0x200,
                forall|a: int| 0 <= a < 80 ==> proc.memory@[a] == font()[a],
                forall|a: int| 80 <= a < 0x200 ==> proc.memory@[a] == 0,
                forall|a: int| 0x200 <= a < 0x200 + at ==> proc.memory@[a] == blob@[a - 0x200],
                forall|a: int| 0x200 + at <= a < 4096 ==> proc.memory@[a] == 0,
                proc.rg@ == Seq::new(16, |k: int| 0u8),
                proc.pixels@ == Seq::new(2048, |k: int| false),
                proc.keys@ == Seq::new(16, |k: int| false),
                proc.i == 0 && proc.delay_rg == 0 && proc.sound_rg == 0 && proc.pc == 0x200,
                proc.stack@ == Seq::<Addr>::empty(),
                proc.should_render,
            decreases blob@.len() - at,
        {
            proc.memory[0x200 + at] = blob[at];
            at += 1;
        }
        assert(proc@ =~= Machine::boot(blob@));
        Ok(proc)
    }

    /// One tick of the timers.
    pub fn decrement_registers(&mut self)
        ensures
            final(self)@ == old(self)@.ticked(),
    {
        if self.should_buzz() {
            self.sound_rg -= 1;
        }
        if self.delay_rg > 0 {
            self.delay_rg -= 1;
        }
    }

    /// Draws one pixel: a set `val` flips the pixel at `(x, y)`, both
    /// coordinates wrapping around. Returns whether a lit pixel went out.
    pub fn set_pixel(&mut self, x: usize, y: usize, val: bool) -> (collision: bool)
        ensures
            final(self)@ == old(self)@.with_pixel(x as int, y as int, val),
            collision == (old(self)@.pixels[pixel_index(x as int, y as int)] && val),
    {
        self.should_render = true;
        let location: usize = (x % 64) + 64 * (y % 32);
        let collision = self.pixels[location] && val;
        let lit: bool = self.pixels[location] ^ val;
        self.pixels[location] = lit;
        assert(self@ =~= old(self)@.with_pixel(x as int, y as int, val));
        collision
    }

    pub fn set_key_down(&mut self, keycode: Keycode)
        ensures
            final(self)@ == old(self)@.with_key(keycode, true),
    {
        if let Some(i) = self.get_key_index(keycode) {
            self.keys[i] = true;
        }
        assert(self@ =~= old(self)@.with_key(keycode, true));
    }

    pub fn set_key_up(&mut self, keycode: Keycode)
        ensures
            final(self)@ == old(self)@.with_key(keycode, false),
    {
        if let Some(i) = self.get_key_index(keycode) {
            self.keys[i] = false;
        }
        assert(self@ =~= old(self)@.with_key(keycode, false));
    }

    /// The pad key that a host key stands for.
    pub fn get_key_index(&self, keycode: Keycode) -> (index: Option<usize>)
        ensures
            index == keycode.pad_index(),
            index matches Some(k) ==> k < 16,
    {
        match keycode {
            Keycode::Num1 => Some(1),
            Keycode::Num2 => Some(2),
            Keycode::Num3 => Some(3),
            Keycode::Num4 => Some(0xC),
            Keycode::Q => Some(4),
            Keycode::W => Some(5),
            Keycode::E => Some(6),
            Keycode::R => Some(0xD),
            Keycode::A => Some(7),
            Keycode::S => Some(8),
            Keycode::D => Some(9),
            Keycode::F => Some(0xE),
            Keycode::Z => Some(0xA),
            Keycode::X => Some(0),
            Keycode::C => Some(0xB),
            Keycode::V => Some(0xF),
            Keycode::Other => None,
        }
    }

    /// Whether the sound timer runs: the tone is to be heard.
    pub fn should_buzz(&self) -> (buzz: bool)
        ensures
            buzz == (self@.sound_timer > 0),
    {
        self.sound_rg > 0
    }

    /// The squares of the lit pixels, row by row, for the host to fill;
    /// the display is no longer due afterwards.
    pub fn to_rects(&mut self) -> (rects: Vec<Rect>)
        ensures
            rects@ == lit_rects(old(self)@.pixels, 2048),
            final(self)@ == (Machine { should_render: false, ..old(self)@ }),
    {
        self.should_render = false;
        let mut rects: Vec<Rect> = Vec::new();
        let mut pos: usize = 0;
        while pos < 2048
            invariant
                pos <= 2048,
                rects@ == lit_rects(self.pixels@, pos as nat),
            decreases 2048 - pos,
        {
            if self.pixels[pos] {
                rects.push(
                    Rect {
                        x: (pos % 64) as i32 * SCALE,
                        y: (pos / 64) as i32 * SCALE,
                        width: SCALE as u32,
                        height: SCALE as u32,
                    },
                );
            }
            pos += 1;
        }
        assert(self@ =~= (Machine { should_render: false, ..old(self)@ }));
        rects
    }

    /// Whether `instr` can be run where the machine stands.
    pub fn can_execute(&self, instr: Instruction) -> (ok: bool)
        ensures
            ok == self@.can_execute(instr),
    {
        if self.pc >= 4095 || !instr.valid_registers() {
            return false;
        }
        match instr {
            Instruction::Return => {
                let depth: usize = self.stack.len();
                depth == 0 || self.stack[depth - 1] as u64 + 2 <= usize::MAX as u64
            },
            Instruction::Jump(addr) => self.rg[0] as u64 + addr as u64 <= usize::MAX as u64,
            Instruction::Disp(_, _, n) => n == 0 || self.i as u64 + n as u64 <= 4096,
            Instruction::BCD(_) => self.i as u64 + 2 < 4096,
            Instruction::MemDump(vx) | Instruction::MemLoad(vx) => self.i as u64 + (vx as u64)
                < 4096,
            Instruction::FontLoad(vx) => self.rg[vx] as u16 * 5 <= 255,
            _ => true,
        }
    }

    /// Whether the word at the program counter can be run.
    pub fn can_cycle(&self) -> (ok: bool)
        ensures
            ok == self@.can_cycle(),
    {
        if self.pc >= 4095 {
            return false;
        }
        let instr: u16 = self.memory[self.pc] as u16 * 0x100 + self.memory[self.pc + 1] as u16;
        match Instruction::from(instr) {
            Ok(for_instr) => self.can_execute(for_instr),
            Err(_) => true,
        }
    }

    /// The value of register `vx`.
    pub fn register(&self, vx: Vx) -> (val: Val)
        requires
            vx < 16,
        ensures
            val == self@.reg(vx),
    {
        self.rg[vx]
    }

    /// The value of the address register.
    pub fn address(&self) -> (addr: Addr)
        ensures
            addr == self@.i,
    {
        self.i
    }

    /// The program counter.
    pub fn program_counter(&self) -> (pc: usize)
        ensures
            pc == self@.pc,
    {
        self.pc
    }

    /// The byte of memory at `addr`.
    pub fn memory_at(&self, addr: usize) -> (val: Val)
        requires
            addr < 4096,
        ensures
            val == self@.memory[addr as int],
    {
        self.memory[addr]
    }

    /// The delay timer.
    pub fn delay_timer(&self) -> (val: Val)
        ensures
            val == self@.delay_timer,
    {
        self.delay_rg
    }

    /// The sound timer.
    pub fn sound_timer(&self) -> (val: Val)
        ensures
            val == self@.sound_timer,
    {
        self.sound_rg
    }

    /// The number of calls that have not returned.
    pub fn stack_depth(&self) -> (depth: usize)
        ensures
            depth == self@.stack.len(),
    {
        self.stack.len()
    }

    /// Whether the pixel at column `x` of row `y` is lit.
    pub fn pixel(&self, x: usize, y: usize) -> (lit: bool)
        requires
            x < 64,
            y < 32,
        ensures
            lit == self@.pixels[x + 64 * y],
    {
        self.pixels[x + 64 * y]
    }

    /// Whether the pad key `key` is down.
    pub fn key_down(&self, key: usize) -> (down: bool)
        requires
            key < 16,
        ensures
            down == self@.keys[key as int],
    {
        self.keys[key]
    }

    /// The lowest key that is down.
    fn pressed(&self) -> (key: Option<usize>)
        ensures
            key == self@.pressed_key(),
            key matches Some(k) ==> k < 16,
    {
        let mut k: usize = 0;
        while k < 16
            invariant
                k <= 16,
                first_down(self.keys@, 0) == first_down(self.keys@, k as int),
            decreases 16 - k,
        {
            if self.keys[k] {
                return Some(k);
            }
            k += 1;
        }
        None
    }

    /// Draws a sprite of `n` rows from the address register at the place
    /// that registers `vx` and `vy` give.
    fn draw(&mut self, vx: Vx, vy: Vx, n: Val)
        requires
            vx < 16,
            vy < 16,
            n > 0 ==> old(self)@.i + n <= 4096,
        ensures
            final(self)@ == old(self)@.drawn(vx, vy, 8 * n as nat),
    {
        self.rg[0xF] = 0;
        assert(self@ =~= old(self)@.drawn(vx, vy, 0));
        let mut y: u8 = 0;
        while y < n
            invariant
                y <= n,
                vx < 16,
                vy < 16,
                n > 0 ==> old(self)@.i + n <= 4096,
                self@ == old(self)@.drawn(vx, vy, 8 * y as nat),
            decreases n - y,
        {
            proof {
                lemma_drawn_keeps(old(self)@, vx, vy, 8 * y as nat);
            }
            let spr: u8 = self.memory[self.i as usize + y as usize];
            let mut x: u8 = 0;
            while x < 8
                invariant
                    x <= 8,
                    y < n,
                    vx < 16,
                    vy < 16,
                    spr == old(self)@.memory[old(self)@.i + y],
                    self@ == old(self)@.drawn(vx, vy, (8 * y + x) as nat),
                decreases 8 - x,
            {
                let ghost before = self@;
                proof {
                    lemma_drawn_keeps(old(self)@, vx, vy, (8 * y + x) as nat);
                }
                let px: usize = self.rg[vx].wrapping_add(x) as usize;
                let py: usize = self.rg[vy].wrapping_add(y) as usize;
                let val: bool = (spr >> (7 - x)) & 0x01 != 0;
                assert(pixel_index(px as int, py as int) == pixel_index(
                    before.reg(vx) + x,
                    before.reg(vy) + y,
                ));
                if self.set_pixel(px, py, val) {
                    self.rg[0xF] = 1;
                }
                x += 1;
                assert((8 * y + x - 1) / 8 == y as int && (8 * y + x - 1) % 8 == x - 1);
                assert(self@ =~= old(self)@.drawn(vx, vy, (8 * y + x) as nat));
            }
            y += 1;
        }
    }

    fn set_register(&mut self, vx: Vx, val: Val)
        requires
            vx < 16,
        ensures
            final(self)@ == old(self)@.with_register(vx, val),
    {
        self.rg[vx] = val;
        assert(self@ =~= old(self)@.with_register(vx, val));
    }

    /// Goes to the next instruction, or to the one after it.
    fn advance(&mut self, skip: bool)
        requires
            old(self)@.pc + 1 < 4096,
        ensures
            final(self)@ == old(self)@.skipping(skip),
    {
        if skip {
            self.pc += 2;
        }
        self.pc += 2;
        assert(self@ =~= old(self)@.skipping(skip));
    }

    fn jump(&mut self, to: usize)
        ensures
            final(self)@ == old(self)@.with_pc(to as int),
    {
        self.pc = to;
        assert(self@ =~= old(self)@.with_pc(to as int));
    }

    fn clear_display(&mut self)
        ensures
            final(self)@ == (Machine {
                pixels: Seq::new(2048, |k: int| false),
                should_render: true,
                ..old(self)@
            }),
    {
        self.pixels = [false; 2048];
        self.should_render = true;
        assert(self@ =~= (Machine {
            pixels: Seq::new(2048, |k: int| false),
            should_render: true,
            ..old(self)@
        }));
    }

    /// Returns from a call, if there is one to return from.
    fn pop_return(&mut self) -> (returned: bool)
        requires
            old(self)@.stack.len() > 0 ==> old(self)@.stack.last() + 2 <= usize::MAX,
        ensures
            returned == (old(self)@.stack.len() > 0),
            final(self)@ == old(self)@.next(Instruction::Return, 0),
    {
        match self.stack.pop() {
            Some(val) => {
                self.pc = val as usize + 2;
                assert(self@ =~= old(self)@.next(Instruction::Return, 0));
                true
            },
            None => {
                assert(self@ =~= old(self)@.next(Instruction::Return, 0));
                false
            },
        }
    }

    fn push_call(&mut self, addr: Addr)
        ensures
            final(self)@ == old(self)@.next(Instruction::Call(addr), 0),
    {
        self.stack.push(self.pc as Addr);
        self.pc = addr as usize;
        assert(self@ =~= old(self)@.next(Instruction::Call(addr), 0));
    }

    fn set_address(&mut self, addr: Addr)
        ensures
            final(self)@ == (Machine { i: addr, ..old(self)@ }),
    {
        self.i = addr;
        assert(self@ =~= (Machine { i: addr, ..old(self)@ }));
    }

    fn set_timers(&mut self, delay: Val, sound: Val)
        ensures
            final(self)@ == (Machine { delay_timer: delay, sound_timer: sound, ..old(self)@ }),
    {
        self.delay_rg = delay;
        self.sound_rg = sound;
        assert(self@ =~= (Machine { delay_timer: delay, sound_timer: sound, ..old(self)@ }));
    }

    /// Writes the three decimal digits of register `vx` at the address
    /// register.
    fn store_bcd(&mut self, vx: Vx)
        requires
            vx < 16,
            old(self)@.i + 2 < 4096,
        ensures
            final(self)@ == (Machine {
                memory: old(self)@.memory.update(
                    old(self)@.i as int,
                    old(self)@.reg(vx) / 100,
                ).update(old(self)@.i + 1, (old(self)@.reg(vx) / 10) % 10).update(
                    old(self)@.i + 2,
                    old(self)@.reg(vx) % 10,
                ),
                ..old(self)@
            }),
    {
        let at: usize = self.i as usize;
        self.memory[at] = self.rg[vx] / 100;
        self.memory[at + 1] = (self.rg[vx] / 10) % 10;
        self.memory[at + 2] = (self.rg[vx] % 100) % 10;
        assert(self@ =~= (Machine {
            memory: old(self)@.memory.update(old(self)@.i as int, old(self)@.reg(vx) / 100).update(
                old(self)@.i + 1,
                (old(self)@.reg(vx) / 10) % 10,
            ).update(old(self)@.i + 2, old(self)@.reg(vx) % 10),
            ..old(self)@
        }));
    }

    /// Copies registers 0 to `vx` to memory at the address register.
    fn dump_registers(&mut self, vx: Vx)
        requires
            vx < 16,
            old(self)@.i + vx < 4096,
        ensures
            final(self)@ == (Machine {
                memory: Seq::new(
                    4096,
                    |a: int|
                        if old(self)@.i <= a <= old(self)@.i + vx {
                            old(self)@.registers[a - old(self)@.i]
                        } else {
                            old(self)@.memory[a]
                        },
                ),
                ..old(self)@
            }),
    {
        let at: usize = self.i as usize;
        let mut reg: usize = 0;
        while reg < vx + 1
            invariant
                reg <= vx + 1,
                vx < 16,
                at + vx < 4096,
                at == old(self)@.i,
                self.rg@ == old(self).rg@,
                self@ == (Machine { memory: self.memory@, ..old(self)@ }),
                forall|a: int|
                    0 <= a < 4096 ==> self.memory@[a] == if at <= a < at + reg {
                        old(self).rg@[a - at]
                    } else {
                        old(self).memory@[a]
                    },
            decreases vx + 1 - reg,
        {
            self.memory[at + reg] = self.rg[reg];
            reg += 1;
            assert(self@ =~= (Machine { memory: self.memory@, ..old(self)@ }));
        }
        assert(self@ =~= (Machine {
            memory: Seq::new(
                4096,
                |a: int|
                    if old(self)@.i <= a <= old(self)@.i + vx {
                        old(self)@.registers[a - old(self)@.i]
                    } else {
                        old(self)@.memory[a]
                    },
            ),
            ..old(self)@
        }));
    }

    /// Copies memory at the address register to registers 0 to `vx`.
    fn load_registers(&mut self, vx: Vx)
        requires
            vx < 16,
            old(self)@.i + vx < 4096,
        ensures
            final(self)@ == (Machine {
                registers: Seq::new(
                    16,
                    |k: int|
                        if k <= vx {
                            old(self)@.memory[old(self)@.i + k]
                        } else {
                            old(self)@.registers[k]
                        },
                ),
                ..old(self)@
            }),
    {
        let at: usize = self.i as usize;
        let mut reg: usize = 0;
        while reg < vx + 1
            invariant
                reg <= vx + 1,
                vx < 16,
                at + vx < 4096,
                at == old(self)@.i,
                self.memory@ == old(self).memory@,
                self@ == (Machine { registers: self.rg@, ..old(self)@ }),
                forall|k: int|
                    0 <= k < 16 ==> self.rg@[k] == if k < reg {
                        old(self).memory@[at + k]
                    } else {
                        old(self).rg@[k]
                    },
            decreases vx + 1 - reg,
        {
            self.rg[reg] = self.memory[at + reg];
            reg += 1;
            assert(self@ =~= (Machine { registers: self.rg@, ..old(self)@ }));
        }
        assert(self@ =~= (Machine {
            registers: Seq::new(
                16,
                |k: int|
                    if k <= vx {
                        old(self)@.memory[old(self)@.i + k]
                    } else {
                        old(self)@.registers[k]
                    },
            ),
            ..old(self)@
        }));
    }

    /// Runs `instr` as the instruction at the program counter, with
    /// `random` as the byte that chance gives.
    #[verifier::rlimit(40)]
    pub fn execute(&mut self, instr: Instruction, random: Val) -> (res: Result<
        ProgramState,
        ChipoError,
    >)
        requires
            old(self)@.can_execute(instr),
        ensures
            res == old(self)@.outcome(instr),
            final(self)@ == old(self)@.next(instr, random),
    {
        proof {
            self.lemma_view();
        }
        match instr {
            Instruction::DisplayClear => {
                self.clear_display();
                self.advance(false);
            },
            Instruction::Return => {
                if !self.pop_return() {
                    return Ok(ProgramState::Stop);
                }
            },
            Instruction::Call(addr) => {
                self.push_call(addr);
            },
            Instruction::GoTo(addr) => {
                self.jump(addr as usize);
            },
            Instruction::IfEq(vx, val) => {
                self.advance(self.rg[vx] == val);
            },
            Instruction::IfEqRg(vx, vy) => {
                self.advance(self.rg[vx] == self.rg[vy]);
            },
            Instruction::IfNeq(vx, val) => {
                self.advance(self.rg[vx] != val);
            },
            Instruction::IfNeqRg(vx, vy) => {
                self.advance(self.rg[vx] != self.rg[vy]);
            },
            Instruction::SetVal(vx, val) => {
                self.set_register(vx, val);
                self.advance(false);
            },
            Instruction::SetRg(vx, vy) => {
                self.set_register(vx, self.rg[vy]);
                self.advance(false);
            },
            Instruction::Add(vx, val) => {
                self.set_register(vx, self.rg[vx].wrapping_add(val));
                self.advance(false);
            },
            Instruction::AddRg(vx, vy) => {
                let val: u8 = self.rg[vx].wrapping_add(self.rg[vy]);
                let overflow: bool = self.rg[vx] as u16 + self.rg[vy] as u16 > 255;
                self.set_register(0xF, if overflow { 1 } else { 0 });
                self.set_register(vx, val);
                self.advance(false);
            },
            Instruction::Or(vx, vy) => {
                self.set_register(vx, self.rg[vx] | self.rg[vy]);
                self.advance(false);
            },
            Instruction::And(vx, vy) => {
                self.set_register(vx, self.rg[vx] & self.rg[vy]);
                self.advance(false);
            },
            Instruction::Xor(vx, vy) => {
                self.set_register(vx, self.rg[vx] ^ self.rg[vy]);
                self.advance(false);
            },
            Instruction::Sub(vx, vy) => {
                let val: u8 = self.rg[vx].wrapping_sub(self.rg[vy]);
                let overflow: bool = self.rg[vx] < self.rg[vy];
                self.set_register(0xF, if overflow { 1 } else { 0 });
                self.set_register(vx, val);
                self.advance(false);
            },
            Instruction::SubSelf(vx, vy) => {
                let val: u8 = self.rg[vy].wrapping_sub(self.rg[vx]);
                let overflow: bool = self.rg[vy] < self.rg[vx];
                self.set_register(0xF, if overflow { 1 } else { 0 });
                self.set_register(vx, val);
                self.advance(false);
            },
            Instruction::RightShift(vx) => {
                let source: u8 = self.rg[vx];
                assert(0x01u8 & source == source % 2) by (bit_vector);
                self.set_register(0xF, 0x01 & source);
                let from: u8 = self.rg[vx];
                assert(from >> 1 == from / 2) by (bit_vector);
                self.set_register(vx, from >> 1);
                self.advance(false);
            },
            Instruction::LeftShift(vx) => {
                let source: u8 = self.rg[vx];
                assert(0b1000_0000u8 & source == if source >= 128 { 128u8 } else { 0u8 })
                    by (bit_vector);
                self.set_register(0xF, 0b1000_0000 & source);
                let from: u8 = self.rg[vx];
                assert(from << 1 == (from * 2) % 256) by (bit_vector);
                self.set_register(vx, from << 1);
                self.advance(false);
            },
            Instruction::SetAddr(addr) => {
                self.set_address(addr);
                self.advance(false);
            },
            Instruction::Jump(addr) => {
                self.jump(self.rg[0] as usize + addr as usize);
            },
            Instruction::Rand(vx, val) => {
                self.set_register(vx, random & val);
                self.advance(false);
            },
            Instruction::Disp(vx, vy, n) => {
                proof {
                    lemma_drawn_keeps(self@, vx, vy, 8 * n as nat);
                }
                self.draw(vx, vy, n);
                self.advance(false);
            },
            Instruction::SetSoundTimer(vx) => {
                self.set_timers(self.delay_rg, self.rg[vx]);
                self.advance(false);
            },
            Instruction::SetTimer(vx) => {
                self.set_timers(self.rg[vx], self.sound_rg);
                self.advance(false);
            },
            Instruction::GetTimer(vx) => {
                self.set_register(vx, self.delay_rg);
                self.advance(false);
            },
            Instruction::BCD(vx) => {
                self.store_bcd(vx);
                self.advance(false);
            },
            Instruction::MemDump(vx) => {
                self.dump_registers(vx);
                self.advance(false);
            },
            Instruction::MemLoad(vx) => {
                self.load_registers(vx);
                self.advance(false);
            },
            Instruction::AddToI(vx) => {
                self.set_address(self.i.wrapping_add(self.rg[vx] as Addr));
                self.advance(false);
            },
            Instruction::FontLoad(vx) => {
                self.set_address((self.rg[vx] * 5) as Addr);
                self.advance(false);
            },
            Instruction::KeyOpEq(vx) => {
                let held: bool = match self.pressed() {
                    Some(key) => key == self.rg[vx] as usize,
                    None => false,
                };
                self.advance(held);
            },
            Instruction::KeyOpNeq(vx) => {
                let held: bool = match self.pressed() {
                    Some(key) => key == self.rg[vx] as usize,
                    None => false,
                };
                self.advance(!held);
            },
            Instruction::GetKeyOp(vx) => {
                if let Some(key) = self.pressed() {
                    self.set_register(vx, key as Val);
                    self.advance(false);
                }
            },
            Instruction::Raw(_) | Instruction::CallPrg(_) => {
                return Err(ChipoError::UnimplementedOpCodeErr(instr.to_bin(), instr));
            },
        }
        Ok(ProgramState::Continue)
    }

    /// Runs the instruction that the program counter points to. Where the
    /// word decodes to nothing, or to what cannot be run, the machine is
    /// left as it was.
    pub fn cycle(&mut self) -> (res: Result<ProgramState, ChipoError>)
        requires
            old(self)@.can_cycle(),
        ensures
            match Instruction::decode(old(self)@.word_at_pc()) {
                None => res == Err::<ProgramState, ChipoError>(
                    ChipoError::UnknownOpCodeErr(old(self)@.word_at_pc()),
                ) && final(self)@ == old(self)@,
                Some(instr) => res == old(self)@.outcome(instr) && exists|random: Val|
                    random < 255 && final(self)@ == #[trigger] old(self)@.next(instr, random),
            },
            Instruction::decode(old(self)@.word_at_pc()) matches Some(instr) ==> !(instr is Rand)
                ==> final(self)@ == old(self)@.next(instr, 0),
    {
        let instr: u16 = self.memory[self.pc] as u16 * 0x100 + self.memory[self.pc + 1] as u16;
        let for_instr = match Instruction::from(instr) {
            Ok(for_instr) => for_instr,
            Err(err) => {
                return Err(err);
            },
        };
        let random: Val = match for_instr {
            Instruction::Rand(_, _) => random_byte(),
            _ => 0,
        };
        self.execute(for_instr, random)
    }
}

/// A subtraction from the smaller register borrows: the flag is one and
/// the difference wraps around. The flag register itself is left out as
/// the register subtracted from: there it holds the difference.
pub proof fn lemma_sub_borrows(m: Machine, x: Vx, y: Vx, random: Val)
    requires
        m.shaped(),
        x < 15,
        y < 16,
        m.reg(x) < m.reg(y),
    ensures
        m.next(Instruction::Sub(x, y), random).reg(x) == m.reg(x) - m.reg(y) + 256,
        m.next(Instruction::Sub(x, y), random).reg(0xF) == 1,
{
}

/// A subtraction from the greater or equal register does not borrow: the
/// flag is zero and the difference is exact.
pub proof fn lemma_sub_exact(m: Machine, x: Vx, y: Vx, random: Val)
    requires
        m.shaped(),
        x < 15,
        y < 16,
        m.reg(x) >= m.reg(y),
    ensures
        m.next(Instruction::Sub(x, y), random).reg(x) == m.reg(x) - m.reg(y),
        m.next(Instruction::Sub(x, y), random).reg(0xF) == 0,
{
}

/// An addition of registers carries exactly where the sum is above 255.
pub proof fn lemma_add_carries(m: Machine, x: Vx, y: Vx, random: Val)
    requires
        m.shaped(),
        x < 15,
        y < 16,
    ensures
        m.next(Instruction::AddRg(x, y), random).reg(x) == (m.reg(x) + m.reg(y)) % 256,
        m.next(Instruction::AddRg(x, y), random).reg(0xF) == if m.reg(x) + m.reg(y) > 255 {
            1int
        } else {
            0int
        },
{
}

/// A conditional skip changes the program counter only: by four where
/// its condition holds, by two where it does not.
pub proof fn lemma_skip(m: Machine, instr: Instruction, random: Val)
    requires
        m.pc + 1 < 4096,
        instr is IfEq || instr is IfEqRg || instr is IfNeq || instr is IfNeqRg,
    ensures
        m.next(instr, random) == m.with_pc(m.pc + 2) || m.next(instr, random) == m.with_pc(
            m.pc + 4,
        ),
        instr matches Instruction::IfEq(x, val) ==> (m.next(instr, random).pc == m.pc + 4 <==> m.reg(
            x,
        ) == val),
        instr matches Instruction::IfEqRg(x, y) ==> (m.next(instr, random).pc == m.pc + 4 <==> m.reg(
            x,
        ) == m.reg(y)),
        instr matches Instruction::IfNeq(x, val) ==> (m.next(instr, random).pc == m.pc + 4 <==> m.reg(
            x,
        ) != val),
        instr matches Instruction::IfNeqRg(x, y) ==> (m.next(instr, random).pc == m.pc + 4
            <==> m.reg(x) != m.reg(y)),
{
}

/// A return with nothing to return to stops the program and leaves the
/// machine as it is; so does the first step of a machine with an empty
/// stack whose program counter points to the word of a return.
pub proof fn lemma_return_at_top_stops(m: Machine, random: Val)
    requires
        m.stack.len() == 0,
    ensures
        m.outcome(Instruction::Return) == Ok::<ProgramState, ChipoError>(ProgramState::Stop),
        m.next(Instruction::Return, random) == m,
        m.word_at_pc() == 0x00EE ==> Instruction::decode(m.word_at_pc()) == Some(
            Instruction::Return,
        ),
{
}

/// The three digits that the decimal instruction writes make up the
/// value of the register.
pub proof fn lemma_bcd_digits(m: Machine, x: Vx, random: Val)
    requires
        m.shaped(),
        x < 16,
        m.i + 2 < 4096,
    ensures
        ({
            let after = m.next(Instruction::BCD(x), random);
            &&& after.memory[m.i as int] * 100 + after.memory[m.i + 1] * 10 + after.memory[m.i
                + 2] == m.reg(x)
            &&& after.memory[m.i as int] < 10
            &&& after.memory[m.i + 1] < 10
            &&& after.memory[m.i + 2] < 10
        }),
{
}

/// Drawing changes the display and the flag register only.
proof fn lemma_drawn_keeps(m: Machine, vx: Vx, vy: Vx, steps: nat)
    ensures
        m.drawn(vx, vy, steps).memory == m.memory,
        m.drawn(vx, vy, steps).i == m.i,
        m.drawn(vx, vy, steps).pc == m.pc,
    decreases steps,
{
    if steps > 0 {
        lemma_drawn_keeps(m, vx, vy, (steps - 1) as nat);
    }
}

/// A byte of chance for the random instruction: `rand::Rng::gen_range` on
/// `rand::thread_rng()`, from 0 up to 255, the upper bound left out.
#[verifier::external_body]
fn random_byte() -> (byte: Val)
    ensures
        byte < 255,
{
    rand::thread_rng().gen_range(0u8, 255u8)
}

} // verus!
