use vstd::prelude::*;
use crate::random::random_byte;
use crate::machine::{Machine, Effect, Pen, op_kind, op_x, op_y, op_n, op_nn, font, pixel_index, sprite_bit, advance};

verus! {

/// Milliseconds an interpreter cycle lasts.
pub const CYCLE_MILLIS: usize = 2;

/// The timers run at 60 Hz: once every this many cycles.
pub const TIMER_PERIOD: usize = 60 / CYCLE_MILLIS;

/// The interpreter state: 4 KiB of memory, sixteen 8-bit registers, a call
/// stack of sixteen return addresses, two timers, the index register, the
/// 64 x 32 monochrome screen and whether a display is attached.
pub struct State {
    pub memory: [u8; 4096],
    pub registers: [u8; 16],
    stack: [u16; 16],
    delay_timer: u8,
    sound_timer: u8,
    stack_pointer: u16,
    program_counter: u16,
    index: u16,
    screen: [bool; 2048],
    display: bool,
}

impl View for State {
    type V = Machine;

    closed spec fn view(&self) -> Machine {
        Machine {
            memory: self.memory@,
            registers: self.registers@,
            stack: self.stack@,
            delay_timer: self.delay_timer,
            sound_timer: self.sound_timer,
            stack_pointer: self.stack_pointer,
            program_counter: self.program_counter,
            index: self.index,
            screen: self.screen@,
            display: self.display,
        }
    }
}

impl Default for State {
    fn default() -> (s: State)
        ensures
            s@ == Machine::power_on(),
    {
        let s = State {
            memory: [0u8; 4096],
            registers: [0u8; 16],
            stack: [0u16; 16],
            delay_timer: 0,
            sound_timer: 0,
            stack_pointer: 0,
            program_counter: 0x200,
            index: 0,
            screen: [false; 2048],
            display: false,
        };
        assert(s.memory@ =~= Seq::new(4096, |i: int| 0u8));
        assert(s.registers@ =~= Seq::new(16, |i: int| 0u8));
        assert(s.stack@ =~= Seq::new(16, |i: int| 0u16));
        assert(s.screen@ =~= Seq::new(2048, |i: int| false));
        s
    }
}

impl State {
    /// Every state has the shape of a machine.
    pub proof fn lemma_wf_shape(&self)
        ensures
            self@.memory.len() == 4096,
            self@.registers.len() == 16,
            self@.stack.len() == 16,
            self@.screen.len() == 2048,
    {
    }

    /// Moves the program counter past one instruction.
    pub fn increment_pc(&mut self)
        requires
            old(self)@.program_counter + 2 <= u16::MAX,
        ensures
            final(self)@ == old(self)@.with_pc((old(self)@.program_counter + 2) as u16),
    {
        self.program_counter = self.program_counter + 2;
    }

    /// 3XNN: skips the next instruction when VX == NN.
    pub fn skip_if_eq(&mut self, x: usize, n: u8)
        requires
            x < 16,
            old(self)@.reg(x as int) == n ==> old(self)@.program_counter + 2 <= u16::MAX,
        ensures
            final(self)@ == old(self)@.skip_if(old(self)@.reg(x as int) == n),
    {
        if self.registers[x] == n {
            self.increment_pc();
        }
    }

    /// 4XNN: skips the next instruction when VX != NN.
    pub fn skip_if_neq(&mut self, x: usize, n: u8)
        requires
            x < 16,
            old(self)@.reg(x as int) != n ==> old(self)@.program_counter + 2 <= u16::MAX,
        ensures
            final(self)@ == old(self)@.skip_if(old(self)@.reg(x as int) != n),
    {
        if self.registers[x] != n {
            self.increment_pc();
        }
    }

    /// 5XY0: skips the next instruction when VX == VY.
    pub fn skip_if_xeqy(&mut self, x: usize, y: usize)
        requires
            x < 16,
            y < 16,
            old(self)@.reg(x as int) == old(self)@.reg(y as int) ==> old(self)@.program_counter + 2
                <= u16::MAX,
        ensures
            final(self)@ == old(self)@.skip_if(old(self)@.reg(x as int) == old(self)@.reg(y as int)),
    {
        if self.registers[x] == self.registers[y] {
            self.increment_pc();
        }
    }

    /// 9XY0: skips the next instruction when VX != VY.
    pub fn skip_if_xneqy(&mut self, x: usize, y: usize)
        requires
            x < 16,
            y < 16,
            old(self)@.reg(x as int) != old(self)@.reg(y as int) ==> old(self)@.program_counter + 2
                <= u16::MAX,
        ensures
            final(self)@ == old(self)@.skip_if(old(self)@.reg(x as int) != old(self)@.reg(y as int)),
    {
        if self.registers[x] != self.registers[y] {
            self.increment_pc();
        }
    }

    /// 2NNN: pushes the program counter and jumps to `address`.
    pub fn call_op(&mut self, address: u16)
        requires
            old(self)@.stack_pointer < 16,
        ensures
            final(self)@ == old(self)@.call(address),
    {
        self.stack[self.stack_pointer as usize] = self.program_counter;
        self.stack_pointer = self.stack_pointer + 1;
        self.program_counter = address;
    }

    /// 00EE: pops the program counter.
    pub fn return_op(&mut self)
        requires
            1 <= old(self)@.stack_pointer <= 16,
        ensures
            final(self)@ == old(self)@.ret(),
    {
        self.stack_pointer = self.stack_pointer - 1;
        self.program_counter = self.stack[self.stack_pointer as usize];
    }

    /// Counts both timers down by one, stopping at zero.
    pub fn advance_timer(&mut self)
        ensures
            final(self)@ == (Machine {
                sound_timer: if old(self)@.sound_timer > 0 { (old(self)@.sound_timer - 1) as u8 } else { 0 },
                delay_timer: if old(self)@.delay_timer > 0 { (old(self)@.delay_timer - 1) as u8 } else { 0 },
                ..old(self)@
            }),
    {
        if self.sound_timer > 0 {
            self.sound_timer = self.sound_timer - 1;
        }
        if self.delay_timer > 0 {
            self.delay_timer = self.delay_timer - 1;
        }
    }

    /// DXYN: draws the N-byte sprite stored at I at (VX, VY) by flipping
    /// pixels; the flag register ends up 1 when a lit pixel was flipped off and
    /// 0 otherwise.
    pub fn display_sprite(&mut self, opcode: u16)
        requires
            old(self)@.display,
            op_n(opcode) > 0 ==> old(self)@.index as int + op_n(opcode) <= 4096,
        ensures
            final(self)@ == old(self)@.draw_sprite(op_x(opcode), op_y(opcode), op_n(opcode)),
    {
        let x = (opcode / 256 % 16) as usize;
        let y = (opcode / 16 % 16) as usize;
        let n = (opcode % 16) as usize;
        let start = self.index as usize;
        let ghost s0 = self@;
        let ghost vx = s0.reg(x as int);
        let ghost pen0 = Pen { screen: s0.screen, flag: 0, col: vx as int, row: s0.reg(y as int) as int };

        let mut xdraw = self.registers[x] as usize;
        let mut ydraw = self.registers[y] as usize;
        self.registers[15] = 0;
        assert(self@.registers =~= s0.registers.update(15, 0));

        let mut i = start;
        while i < start + n
            invariant
                x < 16,
                y < 16,
                s0.registers.len() == 16,
                s0.memory.len() == 4096,
                vx == s0.reg(x as int),
                start == s0.index,
                start <= i <= start + n,
                n > 0 ==> start + n <= 4096,
                xdraw <= 255,
                ydraw <= 255,
                xdraw == (if i == start { vx as int } else if x == 15 { self.registers@[15] as int } else { vx as int }),
                self@ == (Machine { screen: self@.screen, registers: s0.registers.update(15, self@.registers[15]), ..s0 }),
                (Pen { screen: self@.screen, flag: self@.registers[15], col: xdraw as int, row: ydraw as int })
                    == pen0.draw_rows(s0.memory, start as int, x as int, vx, (i - start) as nat),
            decreases start + n - i,
        {
            let byte = self.memory[i];
            let ghost before = Pen { screen: self@.screen, flag: self@.registers[15], col: xdraw as int, row: ydraw as int };
            let mut k: u8 = 0;
            while k < 8
                invariant
                    x < 16,
                    k <= 8,
                    s0.registers.len() == 16,
                    s0.memory.len() == 4096,
                    start <= i < start + n,
                    start + n <= 4096,
                    xdraw <= 255,
                    ydraw <= 255,
                    byte == s0.memory[i as int],
                    self@ == (Machine { screen: self@.screen, registers: s0.registers.update(15, self@.registers[15]), ..s0 }),
                    (Pen { screen: self@.screen, flag: self@.registers[15], col: xdraw as int, row: ydraw as int })
                        == before.draw_row(byte, k as nat),
                decreases 8 - k,
            {
                let ghost p = Pen { screen: self@.screen, flag: self@.registers[15], col: xdraw as int, row: ydraw as int };
                if (byte >> (7 - k)) & 1 == 1 {
                    let idx = (ydraw % 32) * 64 + xdraw % 64;
                    assert(idx == pixel_index(xdraw as int, ydraw as int));
                    if self.screen[idx] {
                        self.registers[15] = 1;
                    }
                    self.screen[idx] = !self.screen[idx];
                }
                if xdraw >= 63 {
                    xdraw = 0;
                } else {
                    xdraw = xdraw + 1;
                }
                k = k + 1;
                assert(self@.registers =~= s0.registers.update(15, self@.registers[15]));
                assert((Pen { screen: self@.screen, flag: self@.registers[15], col: xdraw as int, row: ydraw as int })
                    =~= p.plot(sprite_bit(byte, k - 1)));
            }
            if ydraw >= 31 {
                ydraw = 0;
            } else {
                ydraw = ydraw + 1;
            }
            xdraw = self.registers[x] as usize;
            i = i + 1;
            proof {
                let done = (i - start) as nat;
                assert(s0.memory[start + done - 1] == byte);
                assert(self@.registers[x as int] == (if x == 15 { self@.registers[15] } else { vx }));
                let r = pen0.draw_rows(s0.memory, start as int, x as int, vx, (done - 1) as nat).draw_row(byte, 8);
                assert(pen0.draw_rows(s0.memory, start as int, x as int, vx, done)
                    == (Pen { row: advance(r.row, 31), col: if x == 15 { r.flag as int } else { vx as int }, ..r }));
            }
        }
    }

    /// 8XY4: VX gets VX + VY modulo 256 and the flag the carry.
    pub fn arithmetic_four(&mut self, x: usize, y: usize)
        requires
            x < 16,
            y < 16,
        ensures
            final(self)@ == old(self)@.add_carry(x as int, y as int),
    {
        let mut xl = self.registers[x] as u16;
        let yl = self.registers[y] as u16;
        self.registers[15] = 0;
        if (xl + yl) >= 256 {
            self.registers[15] = 1;
        }
        xl = xl + yl;
        self.registers[x] = (xl % 256) as u8;
        assert(self@.registers =~= old(self)@.add_carry(x as int, y as int).registers);
    }

    /// 8XY5: VX gets VX - VY modulo 256; the flag is set when VX > VY.
    pub fn arithmetic_five(&mut self, x: usize, y: usize)
        requires
            x < 16,
            y < 16,
        ensures
            final(self)@ == old(self)@.sub_xy(x as int, y as int),
    {
        let mut xl = self.registers[x] as i16;
        let yl = self.registers[y] as i16;
        self.registers[15] = 0;
        if self.registers[x] > self.registers[y] {
            self.registers[15] = 1;
        }
        xl = xl - yl;
        if xl < 0 {
            xl = xl + 256;
        }
        self.registers[x] = xl as u8;
        assert(self@.registers =~= old(self)@.sub_xy(x as int, y as int).registers);
    }

    /// 8XY6: the flag gets the low bit of VX, then VX is halved.
    pub fn arithmetic_six(&mut self, x: usize)
        requires
            x < 16,
        ensures
            final(self)@ == old(self)@.shift_right(x as int),
    {
        self.registers[15] = self.registers[x] % 2;
        self.registers[x] = self.registers[x] / 2;
        assert(self@.registers =~= old(self)@.shift_right(x as int).registers);
    }

    /// 8XY7: VX gets VY - VX modulo 256; the flag is set when VX < VY.
    pub fn arithmetic_seven(&mut self, x: usize, y: usize)
        requires
            x < 16,
            y < 16,
        ensures
            final(self)@ == old(self)@.sub_yx(x as int, y as int),
    {
        let mut xl = self.registers[x] as i16;
        let yl = self.registers[y] as i16;
        self.registers[15] = 0;
        if self.registers[x] < self.registers[y] {
            self.registers[15] = 1;
        }
        xl = yl - xl;
        if xl < 0 {
            xl = xl + 256;
        }
        self.registers[x] = xl as u8;
        assert(self@.registers =~= old(self)@.sub_yx(x as int, y as int).registers);
    }

    /// 8XYE: the flag gets the high bit of VX, then VX is doubled modulo 256.
    pub fn arithmetic_fourteen(&mut self, x: usize)
        requires
            x < 16,
        ensures
            final(self)@ == old(self)@.shift_left(x as int),
    {
        self.registers[15] = self.registers[x] / 128;
        self.registers[x] = (self.registers[x] % 128) * 2;
        assert(self@.registers =~= old(self)@.shift_left(x as int).registers);
    }

    /// The 8XYN group; N must name an existing instruction.
    pub fn arithmetic_dispatch(&mut self, opcode: u16)
        requires
            Machine::alu_defined(op_n(opcode)),
        ensures
            final(self)@ == old(self)@.alu(op_x(opcode), op_y(opcode), op_n(opcode)),
    {
        let x = (opcode / 256 % 16) as usize;
        let y = (opcode / 16 % 16) as usize;
        let n = opcode % 16;
        if n == 0 {
            self.registers[x] = self.registers[y];
        } else if n == 1 {
            self.registers[x] = self.registers[x] | self.registers[y];
        } else if n == 2 {
            self.registers[x] = self.registers[x] & self.registers[y];
        } else if n == 3 {
            self.registers[x] = self.registers[x] ^ self.registers[y];
        } else if n == 4 {
            self.arithmetic_four(x, y);
        } else if n == 5 {
            self.arithmetic_five(x, y);
        } else if n == 6 {
            self.arithmetic_six(x);
        } else if n == 7 {
            self.arithmetic_seven(x, y);
        } else {
            self.arithmetic_fourteen(x);
        }
    }

    /// FX33: writes the hundreds, tens and units of VX at I, I + 1 and I + 2.
    pub fn store_bcd(&mut self, x: usize)
        requires
            x < 16,
            old(self)@.index + 2 < 4096,
        ensures
            final(self)@ == old(self)@.store_bcd(x as int),
    {
        let one = self.registers[x] / 100;
        let two = (self.registers[x] % 100) / 10;
        let three = self.registers[x] % 10;
        let i = self.index as usize;
        self.memory[i] = one;
        self.memory[i + 1] = two;
        self.memory[i + 2] = three;
    }

    /// FX55: writes all sixteen registers to memory from I on.
    pub fn store_registers(&mut self)
        requires
            old(self)@.index + 16 <= 4096,
        ensures
            final(self)@ == old(self)@.store_registers(),
    {
        let ghost s0 = self@;
        let base = self.index as usize;
        for i in 0..16usize
            invariant
                base == s0.index,
                base + 16 <= 4096,
                s0.memory.len() == 4096,
                self@ == (Machine { memory: self@.memory, ..s0 }),
                forall|a: int|
                    0 <= a < 4096 ==> #[trigger] self@.memory[a] == (if base <= a < base + i {
                        s0.registers[a - base]
                    } else {
                        s0.memory[a]
                    }),
        {
            self.memory[base + i] = self.registers[i];
        }
        assert(self@.memory =~= s0.store_registers().memory);
    }

    /// FX65: reads all sixteen registers from memory from I on.
    pub fn load_registers(&mut self)
        requires
            old(self)@.index + 16 <= 4096,
        ensures
            final(self)@ == old(self)@.load_registers(),
    {
        let ghost s0 = self@;
        let base = self.index as usize;
        for i in 0..16usize
            invariant
                base == s0.index,
                base + 16 <= 4096,
                s0.registers.len() == 16,
                self@ == (Machine { registers: self@.registers, ..s0 }),
                forall|r: int|
                    0 <= r < 16 ==> #[trigger] self@.registers[r] == (if r < i {
                        s0.memory[base + r]
                    } else {
                        s0.registers[r]
                    }),
        {
            self.registers[i] = self.memory[base + i];
        }
        assert(self@.registers =~= s0.load_registers().registers);
    }

    /// 00E0: turns every pixel off.
    pub fn clear_screen(&mut self)
        requires
            old(self)@.display,
        ensures
            final(self)@ == old(self)@.clear(),
    {
        let ghost s0 = self@;
        for i in 0..2048usize
            invariant
                self@ == (Machine { screen: self@.screen, ..s0 }),
                forall|p: int| 0 <= p < i ==> !#[trigger] self@.screen[p],
        {
            self.screen[i] = false;
        }
        assert(self@.screen =~= s0.clear().screen);
    }

    /// CXNN with a given random byte: VX gets `byte & NN`.
    pub fn set_random(&mut self, opcode: u16, byte: u8)
        ensures
            final(self)@ == old(self)@.set_reg(op_x(opcode), byte & op_nn(opcode)),
    {
        let x = (opcode / 256 % 16) as usize;
        let mask = (opcode % 256) as u8;
        self.registers[x] = byte & mask;
    }

    /// CXNN: VX gets a random byte masked with NN.
    pub fn random(&mut self, opcode: u16)
        ensures
            exists|b: u8| final(self)@ == old(self)@.set_reg(op_x(opcode), b & op_nn(opcode)),
    {
        let b = random_byte();
        self.set_random(opcode, b);
    }

    /// The FXNN group; NN must name an existing instruction. FX0A only asks
    /// for a key (see `wait_for_key_press`).
    pub fn f_dispatcher(&mut self, opcode: u16) -> (e: Effect)
        requires
            old(self)@.misc_accepts(op_x(opcode), op_nn(opcode)),
        ensures
            final(self)@ == old(self)@.misc(op_x(opcode), op_nn(opcode)),
            e == (if op_nn(opcode) == 0x0A { Effect::WaitForKey { x: op_x(opcode) as usize } } else { Effect::Nothing }),
    {
        let x = (opcode / 256 % 16) as usize;
        let nn = opcode % 256;
        if nn == 0x07 {
            self.registers[x] = self.delay_timer;
        } else if nn == 0x0A {
            return Effect::WaitForKey { x };
        } else if nn == 0x15 {
            self.delay_timer = self.registers[x];
        } else if nn == 0x18 {
            self.sound_timer = self.registers[x];
        } else if nn == 0x1E {
            self.index = self.index + self.registers[x] as u16;
        } else if nn == 0x29 {
            self.index = (self.registers[x] as u16) * 5;
        } else if nn == 0x33 {
            self.store_bcd(x);
        } else if nn == 0x55 {
            self.store_registers();
        } else {
            self.load_registers();
        }
        Effect::Nothing
    }

    /// Finishes FX0A for one answer of the keypad. Keys are asked in turn, 0
    /// to F and round again; `pressed` tells whether `key` is pressed. When it
    /// is, VX gets `key` and `None` comes back; otherwise the machine is
    /// unchanged and the next key to ask comes back.
    pub fn wait_for_key_press(&mut self, x: usize, key: u8, pressed: bool) -> (next: Option<u8>)
        requires
            old(self)@.display,
            x < 16,
            key < 16,
        ensures
            pressed ==> final(self)@ == old(self)@.set_reg(x as int, key) && next is None,
            !pressed ==> final(self)@ == old(self)@ && next == Some(((key + 1) % 16) as u8),
    {
        if pressed {
            self.registers[x] = key;
            None
        } else {
            Some((key + 1) % 16)
        }
    }

    /// Finishes EX9E: skips the next instruction when the key in VX is
    /// pressed.
    pub fn skip_if_pressed(&mut self, pressed: bool)
        requires
            old(self)@.display,
            pressed ==> old(self)@.program_counter + 2 <= u16::MAX,
        ensures
            final(self)@ == old(self)@.skip_if(pressed),
    {
        if pressed {
            self.increment_pc();
        }
    }

    /// Finishes EXA1: skips the next instruction when the key in VX is not
    /// pressed.
    pub fn skip_ifn_pressed(&mut self, pressed: bool)
        requires
            old(self)@.display,
            !pressed ==> old(self)@.program_counter + 2 <= u16::MAX,
        ensures
            final(self)@ == old(self)@.skip_if(!pressed),
    {
        if !pressed {
            self.increment_pc();
        }
    }

    /// The EXNN group: asks whether the key in VX is pressed.
    pub fn input_disp(&self, opcode: u16) -> (e: Effect)
        requires
            self@.display,
            op_nn(opcode) == 0x9E || op_nn(opcode) == 0xA1,
        ensures
            e == (if op_nn(opcode) == 0x9E {
                Effect::SkipIfPressed { key: self@.reg(op_x(opcode)) }
            } else {
                Effect::SkipIfNotPressed { key: self@.reg(op_x(opcode)) }
            }),
    {
        let x = (opcode / 256 % 16) as usize;
        if opcode % 256 == 0x9E {
            Effect::SkipIfPressed { key: self.registers[x] }
        } else {
            Effect::SkipIfNotPressed { key: self.registers[x] }
        }
    }

    /// Executes one opcode. What it does to the machine is `execute` (with the
    /// random byte that a CXNN instruction draws); what it asks of the
    /// surroundings is `effect`.
    pub fn dispatch(&mut self, opcode: u16) -> (e: Effect)
        requires
            old(self)@.accepts(opcode),
        ensures
            exists|rnd: u8| final(self)@ == old(self)@.execute(opcode, rnd),
            op_kind(opcode) != 12 ==> final(self)@ == old(self)@.execute(opcode, 0),
            e == old(self)@.effect(opcode),
    {
        let ghost s0 = self@;
        let kind = opcode / 4096;
        let x = (opcode / 256 % 16) as usize;
        let y = (opcode / 16 % 16) as usize;
        let nnn = opcode % 4096;
        let nn = (opcode % 256) as u8;
        let mut e = Effect::Nothing;
        if kind == 0 {
            if opcode == 0x00E0 {
                self.clear_screen();
                e = Effect::ClearScreen;
            } else if opcode == 0x00EE {
                self.return_op();
            }
        } else if kind == 1 {
            self.program_counter = nnn;
        } else if kind == 2 {
            self.call_op(nnn);
        } else if kind == 3 {
            self.skip_if_eq(x, nn);
        } else if kind == 4 {
            self.skip_if_neq(x, nn);
        } else if kind == 5 {
            self.skip_if_xeqy(x, y);
        } else if kind == 6 {
            self.registers[x] = nn;
        } else if kind == 7 {
            self.registers[x] = ((self.registers[x] as u16 + nn as u16) % 256) as u8;
        } else if kind == 8 {
            self.arithmetic_dispatch(opcode);
        } else if kind == 9 {
            self.skip_if_xneqy(x, y);
        } else if kind == 10 {
            self.index = nnn;
        } else if kind == 11 {
            self.program_counter = nnn + self.registers[0] as u16;
        } else if kind == 12 {
            self.random(opcode);
        } else if kind == 13 {
            self.display_sprite(opcode);
            e = Effect::DrawScreen;
        } else if kind == 14 {
            e = self.input_disp(opcode);
        } else {
            e = self.f_dispatcher(opcode);
        }
        proof {
            if kind == 12 {
                let b = choose|b: u8| self@ == s0.set_reg(op_x(opcode), b & op_nn(opcode));
                assert(self@ == s0.execute(opcode, b));
            } else {
                assert(self@ == s0.execute(opcode, 0));
            }
        }
        e
    }

    /// Whether `dispatch` can run `opcode` on this state.
    pub fn can_dispatch(&self, opcode: u16) -> (ok: bool)
        ensures
            ok == self@.accepts(opcode),
    {
        assert(self@.with_pc(self@.program_counter) == self@);
        self.accepts_at(opcode, self.program_counter)
    }

    /// Whether `dispatch` could run `opcode` on this state with the program
    /// counter at `pc`.
    fn accepts_at(&self, opcode: u16, pc: u16) -> (ok: bool)
        ensures
            ok == self@.with_pc(pc).accepts(opcode),
    {
        let kind = opcode / 4096;
        let x = (opcode / 256 % 16) as usize;
        let y = (opcode / 16 % 16) as usize;
        let n = opcode % 16;
        let nn = (opcode % 256) as u8;
        let vx = self.registers[x];
        let vy = self.registers[y];
        let can_skip = pc <= u16::MAX - 2;
        let i = self.index as u32;
        if kind == 0 {
            (opcode != 0x00E0 || self.display) && (opcode != 0x00EE || (1 <= self.stack_pointer
                && self.stack_pointer <= 16))
        } else if kind == 2 {
            self.stack_pointer < 16
        } else if kind == 3 {
            vx != nn || can_skip
        } else if kind == 4 {
            vx == nn || can_skip
        } else if kind == 5 {
            vx != vy || can_skip
        } else if kind == 8 {
            n <= 7 || n == 14
        } else if kind == 9 {
            vx == vy || can_skip
        } else if kind == 13 {
            self.display && (n == 0 || i + (n as u32) <= 4096)
        } else if kind == 14 {
            self.display && (nn == 0x9E || nn == 0xA1)
        } else if kind == 15 {
            let defined = nn == 0x07 || nn == 0x0A || nn == 0x15 || nn == 0x18 || nn == 0x1E
                || nn == 0x29 || nn == 0x33 || nn == 0x55 || nn == 0x65;
            defined && (nn != 0x0A || self.display) && (nn != 0x1E || i + (vx as u32) <= 0xFFFF) && (
            nn != 0x33 || i + 2 < 4096) && ((nn != 0x55 && nn != 0x65) || i + 16 <= 4096)
        } else {
            true
        }
    }

    /// The opcode at the program counter (two bytes, big-endian).
    pub fn next_opcode(&self) -> (op: u16)
        requires
            self@.program_counter + 1 < 4096,
        ensures
            op == self@.fetch(),
    {
        let fb = self.memory[(self.program_counter + 1) as usize] as u16;
        let sb = self.memory[self.program_counter as usize] as u16;
        sb * 256 + fb
    }

    /// Whether `run_opcode` can run on this state.
    pub fn can_run(&self) -> (ok: bool)
        ensures
            ok == self@.can_run(),
    {
        if self.program_counter >= 4095 {
            return false;
        }
        let op = self.next_opcode();
        self.accepts_at(op, self.program_counter + 2)
    }

    /// Fetches the instruction at the program counter, moves past it and
    /// executes it.
    pub fn run_opcode(&mut self) -> (e: Effect)
        requires
            old(self)@.can_run(),
        ensures
            ({
                let s1 = old(self)@.with_pc((old(self)@.program_counter + 2) as u16);
                let op = old(self)@.fetch();
                &&& exists|rnd: u8| final(self)@ == s1.execute(op, rnd)
                &&& op_kind(op) != 12 ==> final(self)@ == s1.execute(op, 0)
                &&& e == s1.effect(op)
            }),
    {
        let opcode = self.next_opcode();
        self.increment_pc();
        self.dispatch(opcode)
    }

    /// Writes the built-in hexadecimal font to the first 80 bytes of memory,
    /// five bytes per digit.
    pub fn load_font(&mut self)
        ensures
            final(self)@ == old(self)@.with_font(),
    {
        let glyphs: [u8; 80] = [
            0xF0, 0x90, 0x90, 0x90, 0xF0,
            0x20, 0x60, 0x20, 0x20, 0x70,
            0xF0, 0x10, 0xF0, 0x80, 0xF0,
            0xF0, 0x10, 0xF0, 0x10, 0xF0,
            0x90, 0x90, 0xF0, 0x10, 0x10,
            0xF0, 0x80, 0xF0, 0x10, 0xF0,
            0xF0, 0x80, 0xF0, 0x90, 0xF0,
            0xF0, 0x10, 0x20, 0x40, 0x40,
            0xF0, 0x90, 0xF0, 0x90, 0xF0,
            0xF0, 0x90, 0xF0, 0x10, 0xF0,
            0xF0, 0x90, 0xF0, 0x90, 0x90,
            0xE0, 0x90, 0xE0, 0x90, 0xE0,
            0xF0, 0x80, 0x80, 0x80, 0xF0,
            0xE0, 0x90, 0x90, 0x90, 0xE0,
            0xF0, 0x80, 0xF0, 0x80, 0xF0,
            0xF0, 0x80, 0xF0, 0x80, 0x80,
        ];
        assert(glyphs@ =~= font());
        let ghost s0 = self@;
        for i in 0..80usize
            invariant
                glyphs@ == font(),
                s0.memory.len() == 4096,
                self@ == (Machine { memory: self@.memory, ..s0 }),
                forall|a: int|
                    0 <= a < 4096 ==> #[trigger] self@.memory[a] == (if a < i { font()[a] } else { s0.memory[a] }),
        {
            self.memory[i] = glyphs[i];
        }
        assert(self@.memory =~= s0.with_font().memory);
    }

    /// Copies a program into memory from address 0x200 on.
    pub fn load_program(&mut self, rom: &[u8])
        requires
            rom@.len() <= 4096 - 0x200,
        ensures
            final(self)@ == (Machine {
                memory: Seq::new(
                    4096,
                    |a: int| if 0x200 <= a < 0x200 + rom@.len() { rom@[a - 0x200] } else { old(self)@.memory[a] },
                ),
                ..old(self)@
            }),
    {
        let ghost s0 = self@;
        for i in 0..rom.len()
            invariant
                rom@.len() <= 4096 - 0x200,
                s0.memory.len() == 4096,
                self@ == (Machine { memory: self@.memory, ..s0 }),
                forall|a: int|
                    0 <= a < 4096 ==> #[trigger] self@.memory[a] == (if 0x200 <= a < 0x200 + i {
                        rom@[a - 0x200]
                    } else {
                        s0.memory[a]
                    }),
        {
            self.memory[0x200 + i] = rom[i];
        }
        assert(self@.memory =~= Seq::new(
            4096,
            |a: int| if 0x200 <= a < 0x200 + rom@.len() { rom@[a - 0x200] } else { s0.memory[a] },
        ));
    }

    /// Whether pixel (x, y) of the screen is lit.
    pub fn pixel(&self, x: usize, y: usize) -> (lit: bool)
        requires
            x < 64,
            y < 32,
        ensures
            lit == self@.screen[y * 64 + x],
    {
        self.screen[y * 64 + x]
    }

    /// One interpreter cycle's worth of timer keeping: when `countdown` has
    /// reached 0 the timers count down and a new countdown of `TIMER_PERIOD`
    /// cycles starts; otherwise the countdown goes on.
    pub fn frame_tick(&mut self, countdown: usize) -> (next: usize)
        ensures
            countdown == 0 ==> next == TIMER_PERIOD && final(self)@ == (Machine {
                sound_timer: if old(self)@.sound_timer > 0 { (old(self)@.sound_timer - 1) as u8 } else { 0 },
                delay_timer: if old(self)@.delay_timer > 0 { (old(self)@.delay_timer - 1) as u8 } else { 0 },
                ..old(self)@
            }),
            countdown > 0 ==> next == countdown - 1 && final(self)@ == old(self)@,
    {
        if countdown == 0 {
            self.advance_timer();
            TIMER_PERIOD
        } else {
            countdown - 1
        }
    }

    /// The address of the next instruction.
    pub fn program_counter(&self) -> (pc: u16)
        ensures
            pc == self@.program_counter,
    {
        self.program_counter
    }

    /// The index register I.
    pub fn index(&self) -> (i: u16)
        ensures
            i == self@.index,
    {
        self.index
    }

    /// How many return addresses are on the stack.
    pub fn stack_pointer(&self) -> (sp: u16)
        ensures
            sp == self@.stack_pointer,
    {
        self.stack_pointer
    }

    /// The delay timer.
    pub fn delay_timer(&self) -> (t: u8)
        ensures
            t == self@.delay_timer,
    {
        self.delay_timer
    }

    /// The sound timer.
    pub fn sound_timer(&self) -> (t: u8)
        ensures
            t == self@.sound_timer,
    {
        self.sound_timer
    }

    /// Whether a display is attached.
    pub fn display_attached(&self) -> (d: bool)
        ensures
            d == self@.display,
    {
        self.display
    }

    /// Records that a display is attached, which the screen and keypad
    /// instructions need.
    pub fn initialize_graphics(&mut self)
        ensures
            final(self)@ == (Machine { display: true, ..old(self)@ }),
    {
        self.display = true;
    }
}

} // verus!
