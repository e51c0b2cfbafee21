use vstd::prelude::*;

verus! {

/// The abstract CHIP-8 machine that the contracts of `State` speak of.
///
/// `screen` holds the 64 x 32 display row by row: pixel (col, row) is
/// `screen[row * 64 + col]`. `display` records whether a display has been
/// attached to the interpreter.
pub struct Machine {
    pub memory: Seq<u8>,
    pub registers: Seq<u8>,
    pub stack: Seq<u16>,
    pub delay_timer: u8,
    pub sound_timer: u8,
    pub stack_pointer: u16,
    pub program_counter: u16,
    pub index: u16,
    pub screen: Seq<bool>,
    pub display: bool,
}

/// The register that arithmetic, shifts and sprite collisions use as a flag.
pub const FLAG: usize = 15;

/// The address at which programs are loaded and execution starts.
pub const PROGRAM_START: u16 = 0x200;

/// Which of the 16 instruction groups an opcode belongs to (its top nibble).
pub open spec fn op_kind(op: u16) -> int {
    op as int / 4096
}

/// The `X` register operand (second nibble).
pub open spec fn op_x(op: u16) -> int {
    (op as int / 256) % 16
}

/// The `Y` register operand (third nibble).
pub open spec fn op_y(op: u16) -> int {
    (op as int / 16) % 16
}

/// The low nibble.
pub open spec fn op_n(op: u16) -> int {
    op as int % 16
}

/// The low byte.
pub open spec fn op_nn(op: u16) -> u8 {
    (op as int % 256) as u8
}

/// The low twelve bits (an address).
pub open spec fn op_nnn(op: u16) -> u16 {
    (op as int % 4096) as u16
}

/// A cursor position moves one step right (or down), and back to 0 once it
/// has reached `last` or gone past it.
pub open spec fn advance(c: int, last: int) -> int {
    if c >= last {
        0
    } else {
        c + 1
    }
}

/// Where pixel (col, row) lives in the screen; both coordinates wrap.
pub open spec fn pixel_index(col: int, row: int) -> int {
    (row % 32) * 64 + col % 64
}

/// Bit `k` of a sprite byte, counted from the most significant bit.
pub open spec fn sprite_bit(byte: u8, k: int) -> bool {
    (byte >> ((7 - k) as u8)) & 1u8 == 1u8
}

/// The built-in hexadecimal font: five bytes for each digit 0 to F.
pub open spec fn font() -> Seq<u8> {
    seq![
        0xF0u8, 0x90, 0x90, 0x90, 0xF0,
        0x20, 0x60, 0x20, 0x20, 0x70,
        0xF0, 0x10, 0xF0, 0x80, 0xF0,
        0xF0, 0x10, 0xF0, 0x10, 0xF0,
        0x90, 0x90, 0xF0, 0x10, 0x10,
        0xF0, 0x80, 0xF0, 0x10, 0xF0,
        0xF0, 0x80, 0xF0, 0x90, 0xF0,
        0xF0, 0x10, 0x20, 0x40, 0x40,
        0xF0, 0x90, 0xF0, 0x90, 0xF0,
        0xF0, 0x90, 0xF0, 0x10, 0xF0,
        0xF0, 0x90, 0xF0, 0x90, 0x90,
        0xE0, 0x90, 0xE0, 0x90, 0xE0,
        0xF0, 0x80, 0x80, 0x80, 0xF0,
        0xE0, 0x90, 0x90, 0x90, 0xE0,
        0xF0, 0x80, 0xF0, 0x80, 0xF0,
        0xF0, 0x80, 0xF0, 0x80, 0x80,
    ]
}

/// The five rows of the font glyph for hexadecimal digit `d`.
pub open spec fn glyph(d: int) -> Seq<u8> {
    font().subrange(5 * d, 5 * d + 5)
}

/// What the interpreter asks of its surroundings after an instruction.
///
/// `ClearScreen` and `DrawScreen` ask for the display to be updated from the
/// machine's screen. The key requests ask whether a key is pressed; the answer
/// goes back to `State::skip_if_pressed`, `State::skip_ifn_pressed` or
/// `State::wait_for_key_press`, which finish the instruction.
#[derive(Clone, Copy, Debug, PartialEq, Eq, Structural)]
pub enum Effect {
    Nothing,
    ClearScreen,
    DrawScreen,
    SkipIfPressed { key: u8 },
    SkipIfNotPressed { key: u8 },
    WaitForKey { x: usize },
}

/// The state of a sprite being drawn: the screen, the collision flag, and
/// the column and row at which the next pixel goes.
pub struct Pen {
    pub screen: Seq<bool>,
    pub flag: u8,
    pub col: int,
    pub row: int,
}

impl Pen {
    /// Plots one sprite pixel: a set bit flips the pixel under the pen and
    /// raises the flag if that pixel was lit; then the pen moves right.
    pub open spec fn plot(self, on: bool) -> Pen {
        let i = pixel_index(self.col, self.row);
        let drawn = if on {
            Pen {
                screen: self.screen.update(i, !self.screen[i]),
                flag: if self.screen[i] { 1u8 } else { self.flag },
                ..self
            }
        } else {
            self
        };
        Pen { col: advance(self.col, 63), ..drawn }
    }

    /// The pen after plotting the first `k` bits of a sprite row.
    pub open spec fn draw_row(self, byte: u8, k: nat) -> Pen
        decreases k,
    {
        if k == 0 {
            self
        } else {
            self.draw_row(byte, (k - 1) as nat).plot(sprite_bit(byte, k - 1))
        }
    }

    /// The pen after drawing the first `i` rows of the sprite stored at
    /// `start`. After each row the pen moves down one line and back to the
    /// column held in register `x`: `vx` itself, or, when `x` is the flag
    /// register, the flag as it stands then.
    pub open spec fn draw_rows(self, mem: Seq<u8>, start: int, x: int, vx: u8, i: nat) -> Pen
        decreases i,
    {
        if i == 0 {
            self
        } else {
            let r = self.draw_rows(mem, start, x, vx, (i - 1) as nat).draw_row(mem[start + i - 1], 8);
            Pen { row: advance(r.row, 31), col: if x == 15 { r.flag as int } else { vx as int }, ..r }
        }
    }
}

impl Machine {
    /// The shape every reachable machine has.
    pub open spec fn wf(self) -> bool {
        &&& self.memory.len() == 4096
        &&& self.registers.len() == 16
        &&& self.stack.len() == 16
        &&& self.screen.len() == 2048
        &&& self.stack_pointer <= 16
    }

    /// The machine right after power-on.
    pub open spec fn power_on() -> Machine {
        Machine {
            memory: Seq::new(4096, |i: int| 0u8),
            registers: Seq::new(16, |i: int| 0u8),
            stack: Seq::new(16, |i: int| 0u16),
            delay_timer: 0,
            sound_timer: 0,
            stack_pointer: 0,
            program_counter: PROGRAM_START,
            index: 0,
            screen: Seq::new(2048, |i: int| false),
            display: false,
        }
    }

    pub open spec fn reg(self, x: int) -> u8 {
        self.registers[x]
    }

    pub open spec fn set_reg(self, x: int, v: u8) -> Machine {
        Machine { registers: self.registers.update(x, v), ..self }
    }

    pub open spec fn with_pc(self, pc: u16) -> Machine {
        Machine { program_counter: pc, ..self }
    }

    pub open spec fn with_index(self, i: u16) -> Machine {
        Machine { index: i, ..self }
    }

    /// The opcode stored big-endian at the program counter.
    pub open spec fn fetch(self) -> u16 {
        (self.memory[self.program_counter as int] as int * 256
            + self.memory[self.program_counter as int + 1] as int) as u16
    }

    /// Skips the next instruction when `cond` holds.
    pub open spec fn skip_if(self, cond: bool) -> Machine {
        if cond {
            self.with_pc((self.program_counter + 2) as u16)
        } else {
            self
        }
    }

    /// The machine with the built-in font in the first 80 bytes of memory.
    pub open spec fn with_font(self) -> Machine {
        Machine {
            memory: Seq::new(self.memory.len(), |a: int| if a < 80 { font()[a] } else { self.memory[a] }),
            ..self
        }
    }

    /// Every pixel off.
    pub open spec fn clear(self) -> Machine {
        Machine { screen: Seq::new(2048, |i: int| false), ..self }
    }

    /// Pushes the program counter and jumps to `addr`.
    pub open spec fn call(self, addr: u16) -> Machine {
        Machine {
            stack: self.stack.update(self.stack_pointer as int, self.program_counter),
            stack_pointer: (self.stack_pointer + 1) as u16,
            program_counter: addr,
            ..self
        }
    }

    /// Pops the program counter.
    pub open spec fn ret(self) -> Machine {
        Machine {
            stack_pointer: (self.stack_pointer - 1) as u16,
            program_counter: self.stack[self.stack_pointer - 1],
            ..self
        }
    }

    /// 8XY4: VX gets VX + VY modulo 256; the flag gets the carry. The flag is
    /// written first, so when X is the flag register the sum wins.
    pub open spec fn add_carry(self, x: int, y: int) -> Machine {
        let s = self.reg(x) as int + self.reg(y) as int;
        self.set_reg(15, if s >= 256 { 1u8 } else { 0u8 }).set_reg(x, (s % 256) as u8)
    }

    /// 8XY5: VX gets VX - VY modulo 256. The flag is cleared first and then
    /// set when VX > VY, both read after the clearing.
    pub open spec fn sub_xy(self, x: int, y: int) -> Machine {
        let d = self.reg(x) as int - self.reg(y) as int;
        let t = self.set_reg(15, 0);
        t.set_reg(15, if t.reg(x) > t.reg(y) { 1u8 } else { 0u8 }).set_reg(x, ((d + 256) % 256) as u8)
    }

    /// 8XY7: VX gets VY - VX modulo 256. The flag is cleared first and then
    /// set when VX < VY, both read after the clearing.
    pub open spec fn sub_yx(self, x: int, y: int) -> Machine {
        let d = self.reg(y) as int - self.reg(x) as int;
        let t = self.set_reg(15, 0);
        t.set_reg(15, if t.reg(x) < t.reg(y) { 1u8 } else { 0u8 }).set_reg(x, ((d + 256) % 256) as u8)
    }

    /// 8XY6: the flag gets the low bit of VX, then VX is halved.
    pub open spec fn shift_right(self, x: int) -> Machine {
        let t = self.set_reg(15, self.reg(x) % 2);
        t.set_reg(x, t.reg(x) / 2)
    }

    /// 8XYE: the flag gets the high bit of VX, then VX is doubled modulo 256.
    pub open spec fn shift_left(self, x: int) -> Machine {
        let t = self.set_reg(15, self.reg(x) / 128);
        t.set_reg(x, ((t.reg(x) as int * 2) % 256) as u8)
    }

    /// The 8XYN instructions.
    pub open spec fn alu(self, x: int, y: int, n: int) -> Machine {
        if n == 0 {
            self.set_reg(x, self.reg(y))
        } else if n == 1 {
            self.set_reg(x, self.reg(x) | self.reg(y))
        } else if n == 2 {
            self.set_reg(x, self.reg(x) & self.reg(y))
        } else if n == 3 {
            self.set_reg(x, self.reg(x) ^ self.reg(y))
        } else if n == 4 {
            self.add_carry(x, y)
        } else if n == 5 {
            self.sub_xy(x, y)
        } else if n == 6 {
            self.shift_right(x)
        } else if n == 7 {
            self.sub_yx(x, y)
        } else {
            self.shift_left(x)
        }
    }

    /// FX33: the decimal digits of VX at I, I + 1 and I + 2.
    pub open spec fn store_bcd(self, x: int) -> Machine {
        let v = self.reg(x);
        let i = self.index as int;
        Machine {
            memory: self.memory.update(i, v / 100).update(i + 1, (v % 100) / 10).update(i + 2, v % 10),
            ..self
        }
    }

    /// FX55: all sixteen registers are written to memory from I on.
    pub open spec fn store_registers(self) -> Machine {
        let i = self.index as int;
        Machine {
            memory: Seq::new(
                self.memory.len(),
                |a: int| if i <= a < i + 16 { self.registers[a - i] } else { self.memory[a] },
            ),
            ..self
        }
    }

    /// FX65: all sixteen registers are read from memory from I on.
    pub open spec fn load_registers(self) -> Machine {
        let i = self.index as int;
        Machine { registers: Seq::new(16, |r: int| self.memory[i + r]), ..self }
    }

    /// DXYN: draws the N-byte sprite at I at (VX, VY), flipping pixels; the
    /// flag tells whether a lit pixel was flipped off.
    pub open spec fn draw_sprite(self, x: int, y: int, n: int) -> Machine {
        let vx = self.reg(x);
        let pen = Pen { screen: self.screen, flag: 0, col: vx as int, row: self.reg(y) as int };
        let p = pen.draw_rows(self.memory, self.index as int, x, vx, n as nat);
        Machine { screen: p.screen, registers: self.registers.update(15, p.flag), ..self }
    }

    /// The FXNN instructions (FX0A waits for a key and is finished by
    /// `State::wait_for_key_press`).
    pub open spec fn misc(self, x: int, nn: u8) -> Machine {
        let vx = self.reg(x);
        if nn == 0x07 {
            self.set_reg(x, self.delay_timer)
        } else if nn == 0x15 {
            Machine { delay_timer: vx, ..self }
        } else if nn == 0x18 {
            Machine { sound_timer: vx, ..self }
        } else if nn == 0x1E {
            self.with_index((self.index + vx) as u16)
        } else if nn == 0x29 {
            self.with_index((vx * 5) as u16)
        } else if nn == 0x33 {
            self.store_bcd(x)
        } else if nn == 0x55 {
            self.store_registers()
        } else if nn == 0x65 {
            self.load_registers()
        } else {
            self
        }
    }

    /// What executing `op` does to the machine. `rnd` is the random byte an
    /// CXNN instruction draws; the EXNN and FX0A instructions, which depend on
    /// the keypad, leave the machine as it is here and are finished by the
    /// functions that take the key state.
    pub open spec fn execute(self, op: u16, rnd: u8) -> Machine {
        let kind = op_kind(op);
        let x = op_x(op);
        let y = op_y(op);
        let nn = op_nn(op);
        let nnn = op_nnn(op);
        let vx = self.reg(x);
        let vy = self.reg(y);
        if kind == 0 {
            if op == 0x00E0 {
                self.clear()
            } else if op == 0x00EE {
                self.ret()
            } else {
                self
            }
        } else if kind == 1 {
            self.with_pc(nnn)
        } else if kind == 2 {
            self.call(nnn)
        } else if kind == 3 {
            self.skip_if(vx == nn)
        } else if kind == 4 {
            self.skip_if(vx != nn)
        } else if kind == 5 {
            self.skip_if(vx == vy)
        } else if kind == 6 {
            self.set_reg(x, nn)
        } else if kind == 7 {
            self.set_reg(x, ((vx as int + nn as int) % 256) as u8)
        } else if kind == 8 {
            self.alu(x, y, op_n(op))
        } else if kind == 9 {
            self.skip_if(vx != vy)
        } else if kind == 10 {
            self.with_index(nnn)
        } else if kind == 11 {
            self.with_pc((nnn + self.reg(0)) as u16)
        } else if kind == 12 {
            self.set_reg(x, rnd & nn)
        } else if kind == 13 {
            self.draw_sprite(x, y, op_n(op))
        } else if kind == 14 {
            self
        } else {
            self.misc(x, nn)
        }
    }

    /// The opcodes of the 8XYN group that exist.
    pub open spec fn alu_defined(n: int) -> bool {
        0 <= n <= 7 || n == 14
    }

    /// The opcodes of the FXNN group that exist.
    pub open spec fn misc_defined(nn: u8) -> bool {
        nn == 0x07 || nn == 0x0A || nn == 0x15 || nn == 0x18 || nn == 0x1E || nn == 0x29
            || nn == 0x33 || nn == 0x55 || nn == 0x65
    }

    /// Whether the FXNN instruction with operands `x` and `nn` can run.
    pub open spec fn misc_accepts(self, x: int, nn: u8) -> bool {
        let i = self.index as int;
        &&& Self::misc_defined(nn)
        &&& nn == 0x0A ==> self.display
        &&& nn == 0x1E ==> i + self.reg(x) <= u16::MAX
        &&& nn == 0x33 ==> i + 2 < 4096
        &&& (nn == 0x55 || nn == 0x65) ==> i + 16 <= 4096
    }

    /// Whether `op` can run on this machine: it exists, what it needs (a
    /// display, a free or a filled stack slot) is there, and the addresses and
    /// counters it computes stay in range.
    pub open spec fn accepts(self, op: u16) -> bool {
        let kind = op_kind(op);
        let x = op_x(op);
        let y = op_y(op);
        let nn = op_nn(op);
        let vx = self.reg(x);
        let vy = self.reg(y);
        let can_skip = self.program_counter + 2 <= u16::MAX;
        let i = self.index as int;
        if kind == 0 {
            (op == 0x00E0 ==> self.display) && (op == 0x00EE ==> 1 <= self.stack_pointer <= 16)
        } else if kind == 2 {
            self.stack_pointer < 16
        } else if kind == 3 {
            vx == nn ==> can_skip
        } else if kind == 4 {
            vx != nn ==> can_skip
        } else if kind == 5 {
            vx == vy ==> can_skip
        } else if kind == 8 {
            Self::alu_defined(op_n(op))
        } else if kind == 9 {
            vx != vy ==> can_skip
        } else if kind == 13 {
            self.display && (op_n(op) > 0 ==> i + op_n(op) <= 4096)
        } else if kind == 14 {
            self.display && (nn == 0x9E || nn == 0xA1)
        } else if kind == 15 {
            self.misc_accepts(x, nn)
        } else {
            true
        }
    }

    /// What executing `op` asks of the interpreter's surroundings.
    pub open spec fn effect(self, op: u16) -> Effect {
        let kind = op_kind(op);
        let nn = op_nn(op);
        if op == 0x00E0 {
            Effect::ClearScreen
        } else if kind == 13 {
            Effect::DrawScreen
        } else if kind == 14 && nn == 0x9E {
            Effect::SkipIfPressed { key: self.reg(op_x(op)) }
        } else if kind == 14 && nn == 0xA1 {
            Effect::SkipIfNotPressed { key: self.reg(op_x(op)) }
        } else if kind == 15 && nn == 0x0A {
            Effect::WaitForKey { x: op_x(op) as usize }
        } else {
            Effect::Nothing
        }
    }

    /// Whether the instruction at the program counter can be fetched and run.
    pub open spec fn can_run(self) -> bool {
        &&& self.program_counter + 1 < 4096
        &&& self.with_pc((self.program_counter + 2) as u16).accepts(self.fetch())
    }
}

} // verus!
