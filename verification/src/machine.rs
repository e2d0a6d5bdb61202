use vstd::prelude::*;

use crate::error::Chip8Error;
use crate::state::{
    blank_display, dec_timer, exec_result, fetched, first_key, init_view, loaded_ram, tick_rel,
    VmView, DISPLAY_HEIGHT, DISPLAY_WIDTH, FONT_SIZE, MEM_SIZE, NUM_KEYS, NUM_REGS, STACK_SIZE,
    START_ADDRESS,
};

verus! {

/// The CHIP-8 interpreter core: owns all machine state and advances it one
/// instruction per `tick`. The contracts are stated over the mathematical
/// view `self@` of type `VmView`.
pub struct Interpreter {
    pc: u16,
    ram: Vec<u8>,
    display: Vec<bool>,
    v_regs: Vec<u8>,
    index_reg: u16,
    sp: u16,
    stack: Vec<u16>,
    keys: Vec<bool>,
    delay_timer: u8,
    sound_timer: u8,
}

impl View for Interpreter {
    type V = VmView;

    closed spec fn view(&self) -> VmView {
        VmView {
            pc: self.pc,
            ram: self.ram@,
            display: self.display@,
            v: self.v_regs@,
            index: self.index_reg,
            sp: self.sp,
            stack: self.stack@,
            keys: self.keys@,
            delay: self.delay_timer,
            sound: self.sound_timer,
        }
    }
}

/// A vector of `n` copies of `val`.
fn filled<T: Copy>(val: T, n: usize) -> (r: Vec<T>)
    ensures
        r@ == Seq::new(n as nat, |i: int| val),
{
    let mut r: Vec<T> = Vec::new();
    let mut i: usize = 0;
    while i < n
        invariant
            i == r@.len(),
            i <= n,
            forall|j: int| 0 <= j < i ==> r@[j] == val,
        decreases n - i,
    {
        r.push(val);
        i = i + 1;
    }
    proof {
        assert(r@ =~= Seq::new(n as nat, |i: int| val));
    }
    r
}

impl Interpreter {
    /// A freshly constructed machine: font table at the start of memory,
    /// program counter at 0x200, everything else zeroed.
    pub fn new() -> (r: Self)
        ensures
            r@ == init_view(),
            r@.wf(),
    {
        let font = crate::font::fontset();
        let mut ram = filled(0u8, MEM_SIZE);
        let mut i: usize = 0;
        while i < FONT_SIZE
            invariant
                i <= FONT_SIZE,
                ram@.len() == MEM_SIZE,
                font@ == crate::font::font_seq(),
                forall|j: int| 0 <= j < i ==> ram@[j] == crate::font::font_seq()[j],
                forall|j: int| i <= j < MEM_SIZE ==> ram@[j] == 0u8,
            decreases FONT_SIZE - i,
        {
            ram[i] = font[i];
            i = i + 1;
        }
        let r = Interpreter {
            pc: START_ADDRESS,
            ram,
            display: filled(false, DISPLAY_WIDTH * DISPLAY_HEIGHT),
            v_regs: filled(0u8, NUM_REGS),
            index_reg: 0,
            sp: 0,
            stack: filled(0u16, STACK_SIZE),
            keys: filled(false, NUM_KEYS),
            delay_timer: 0,
            sound_timer: 0,
        };
        proof {
            assert(r@ =~= init_view());
        }
        r
    }

    /// Return to the exact post-construction state: font reloaded, program
    /// counter at 0x200, registers, stack, timers, keys and display cleared.
    /// A previously loaded program is not kept.
    pub fn reset(&mut self)
        ensures
            final(self)@ == init_view(),
            final(self)@.wf(),
    {
        *self = Self::new();
    }

    /// Current program counter.
    pub fn pc(&self) -> (r: u16)
        ensures
            r == self@.pc,
    {
        self.pc
    }

    /// Read-only view of the 4096 bytes of memory.
    pub fn memory(&self) -> (r: &Vec<u8>)
        ensures
            r@ == self@.ram,
    {
        &self.ram
    }

    /// Read-only view of the 64 by 32 framebuffer, row-major: the pixel at
    /// (x, y) is entry `x + 64 * y`, true while lit. It changes only inside
    /// `tick` and `reset`, never between calls.
    pub fn display(&self) -> (r: &Vec<bool>)
        ensures
            r@ == self@.display,
    {
        &self.display
    }

    /// Read-only view of the sixteen V registers.
    pub fn registers(&self) -> (r: &Vec<u8>)
        ensures
            r@ == self@.v,
    {
        &self.v_regs
    }

    /// Current index register.
    pub fn index_register(&self) -> (r: u16)
        ensures
            r == self@.index,
    {
        self.index_reg
    }

    /// Number of return addresses on the call stack.
    pub fn stack_pointer(&self) -> (r: u16)
        ensures
            r == self@.sp,
    {
        self.sp
    }

    /// Read-only view of the sixteen call-stack slots.
    pub fn stack(&self) -> (r: &Vec<u16>)
        ensures
            r@ == self@.stack,
    {
        &self.stack
    }

    /// Read-only view of the sixteen key states.
    pub fn keys(&self) -> (r: &Vec<bool>)
        ensures
            r@ == self@.keys,
    {
        &self.keys
    }

    /// Current delay timer value.
    pub fn delay_timer(&self) -> (r: u8)
        ensures
            r == self@.delay,
    {
        self.delay_timer
    }

    /// Current sound timer value. An audio collaborator samples this after
    /// each `tick_timers` call; the transition from 1 to 0 is the edge at
    /// which a tone stops.
    pub fn sound_timer(&self) -> (r: u8)
        ensures
            r == self@.sound,
    {
        self.sound_timer
    }

    /// Decrement each timer that is positive; a timer at zero stays at zero.
    /// Called by the driver at its own fixed cadence, never from `tick`.
    pub fn tick_timers(&mut self)
        ensures
            final(self)@ == (VmView {
                delay: dec_timer(old(self)@.delay),
                sound: dec_timer(old(self)@.sound),
                ..old(self)@
            }),
    {
        if self.delay_timer > 0 {
            self.delay_timer = self.delay_timer - 1;
        }
        if self.sound_timer > 0 {
            self.sound_timer = self.sound_timer - 1;
        }
    }

    /// Report the state of one key: `pressed` is true while the key is held.
    /// An index at or above 16 is rejected and changes nothing.
    pub fn set_key(&mut self, index: usize, pressed: bool) -> (r: Result<(), Chip8Error>)
        requires
            old(self)@.wf(),
        ensures
            final(self)@.wf(),
            if index < NUM_KEYS {
                r == Ok::<(), Chip8Error>(()) && final(self)@ == (VmView {
                    keys: old(self)@.keys.update(index as int, pressed),
                    ..old(self)@
                })
            } else {
                r == Err::<(), Chip8Error>(Chip8Error::InvalidKeyIndex)
                    && final(self)@ == old(self)@
            },
    {
        if index >= NUM_KEYS {
            return Err(Chip8Error::InvalidKeyIndex);
        }
        self.keys[index] = pressed;
        Ok(())
    }

    /// Write a program image into memory starting at 0x200. An image longer
    /// than the space above 0x200 is rejected whole and changes nothing.
    pub fn load(&mut self, rom: &[u8]) -> (r: Result<(), Chip8Error>)
        requires
            old(self)@.wf(),
        ensures
            final(self)@.wf(),
            if rom@.len() > MEM_SIZE - START_ADDRESS {
                r == Err::<(), Chip8Error>(Chip8Error::RomTooLarge) && final(self)@ == old(self)@
            } else {
                r == Ok::<(), Chip8Error>(()) && final(self)@ == (VmView {
                    ram: loaded_ram(old(self)@.ram, rom@),
                    ..old(self)@
                })
            },
    {
        if rom.len() > MEM_SIZE - (START_ADDRESS as usize) {
            return Err(Chip8Error::RomTooLarge);
        }
        let mut i: usize = 0;
        while i < rom.len()
            invariant
                i <= rom@.len(),
                rom@.len() <= MEM_SIZE - START_ADDRESS,
                self@.ram.len() == MEM_SIZE,
                self@ == (VmView { ram: self@.ram, ..old(self)@ }),
                forall|j: int|
                    START_ADDRESS <= j < START_ADDRESS + i ==> self@.ram[j] == rom@[j
                        - START_ADDRESS],
                forall|j: int|
                    (0 <= j < START_ADDRESS || START_ADDRESS + i <= j < MEM_SIZE)
                        ==> self@.ram[j] == old(self)@.ram[j],
            decreases rom@.len() - i,
        {
            self.ram[(START_ADDRESS as usize) + i] = rom[i];
            i = i + 1;
        }
        proof {
            assert(self@.ram =~= loaded_ram(old(self)@.ram, rom@));
            assert(self@ =~= (VmView { ram: loaded_ram(old(self)@.ram, rom@), ..old(self)@ }));
        }
        Ok(())
    }

    /// Push a return address; fails with `StackOverflow` when all sixteen
    /// slots are in use, leaving the state untouched.
    fn push(&mut self, value: u16) -> (r: Result<(), Chip8Error>)
        requires
            old(self)@.wf(),
        ensures
            final(self)@.wf(),
            match r {
                Ok(()) => old(self)@.sp < STACK_SIZE && final(self)@ == (VmView {
                    stack: old(self)@.stack.update(old(self)@.sp as int, value),
                    sp: (old(self)@.sp + 1) as u16,
                    ..old(self)@
                }),
                Err(e) => old(self)@.sp == STACK_SIZE && e == Chip8Error::StackOverflow
                    && final(self)@ == old(self)@,
            },
    {
        if self.sp >= STACK_SIZE as u16 {
            return Err(Chip8Error::StackOverflow);
        }
        self.stack[self.sp as usize] = value;
        self.sp = self.sp + 1;
        Ok(())
    }

    /// Pop a return address; fails with `StackUnderflow` on an empty stack,
    /// leaving the state untouched.
    fn pop(&mut self) -> (r: Result<u16, Chip8Error>)
        requires
            old(self)@.wf(),
        ensures
            final(self)@.wf(),
            match r {
                Ok(v) => old(self)@.sp > 0 && v == old(self)@.stack[old(self)@.sp - 1]
                    && final(self)@ == (VmView { sp: (old(self)@.sp - 1) as u16, ..old(self)@ }),
                Err(e) => old(self)@.sp == 0 && e == Chip8Error::StackUnderflow && final(self)@
                    == old(self)@,
            },
    {
        if self.sp == 0 {
            return Err(Chip8Error::StackUnderflow);
        }
        self.sp = self.sp - 1;
        Ok(self.stack[self.sp as usize])
    }

    /// Read the two bytes at the program counter as one big-endian opcode
    /// and advance the program counter past them.
    fn fetch(&mut self) -> (r: u16)
        requires
            old(self)@.wf(),
            old(self)@.pc + 1 < MEM_SIZE,
        ensures
            final(self)@.wf(),
            r == fetched(old(self)@),
            final(self)@ == (VmView { pc: (old(self)@.pc + 2) as u16, ..old(self)@ }),
    {
        let hi = self.ram[self.pc as usize];
        let lo = self.ram[(self.pc as usize) + 1];
        self.pc = self.pc + 2;
        (hi as u16) * 0x100 + (lo as u16)
    }

    /// XOR-composite an n-row sprite read from memory at the index register
    /// onto the framebuffer at (V[x], V[y]), wrapping at the grid edges, and
    /// set VF to whether any toggled pixel was previously lit. Fails without
    /// drawing if any sprite row would be read from beyond memory.
    fn op_draw(&mut self, x: usize, y: usize, n: u16) -> (r: Result<(), Chip8Error>)
        requires
            old(self)@.wf(),
            x < NUM_REGS,
            y < NUM_REGS,
            n < 16,
        ensures
            final(self)@.wf(),
            match r {
                Ok(()) => (n == 0 || old(self)@.index + n <= MEM_SIZE) && final(self)@ == ({
                    let drawn = crate::state::draw_rows(
                        old(self)@.display,
                        false,
                        old(self)@.ram,
                        old(self)@.index,
                        old(self)@.v[x as int],
                        old(self)@.v[y as int],
                        n,
                        0,
                    );
                    VmView {
                        display: drawn.0,
                        v: old(self)@.v.update(15, if drawn.1 { 1u8 } else { 0u8 }),
                        ..old(self)@
                    }
                }),
                Err(e) => e == Chip8Error::OutOfBoundsMemoryAccess && n > 0 && old(self)@.index + n
                    > MEM_SIZE && final(self)@ == old(self)@,
            },
    {
        if n > 0 && (self.index_reg as usize) + (n as usize) > MEM_SIZE {
            return Err(Chip8Error::OutOfBoundsMemoryAccess);
        }
        let vx = self.v_regs[x];
        let vy = self.v_regs[y];
        let ghost disp0 = self.display@;
        let mut hit = false;
        let mut row: u16 = 0;
        while row < n
            invariant
                self@.wf(),
                row <= n,
                n < 16,
                n > 0 ==> old(self)@.index + n <= MEM_SIZE,
                vx == old(self)@.v[x as int],
                vy == old(self)@.v[y as int],
                disp0 == old(self)@.display,
                self@ == (VmView { display: self@.display, ..old(self)@ }),
                crate::state::draw_rows(disp0, false, old(self)@.ram, old(self)@.index, vx, vy, n, 0)
                    == crate::state::draw_rows(
                    self@.display,
                    hit,
                    old(self)@.ram,
                    old(self)@.index,
                    vx,
                    vy,
                    n,
                    row,
                ),
            decreases n - row,
        {
            let bits = self.ram[(self.index_reg as usize) + (row as usize)];
            let ghost disp_r = self@.display;
            let ghost hit_r = hit;
            let ghost yr = vy as int + row as int;
            let mut col: u16 = 0;
            while col < 8
                invariant
                    self@.wf(),
                    col <= 8,
                    row < n,
                    n < 16,
                    bits == old(self)@.ram[old(self)@.index + row],
                    vx == old(self)@.v[x as int],
                    yr == vy as int + row as int,
                    self@ == (VmView { display: self@.display, ..old(self)@ }),
                    crate::state::draw_cols(disp_r, hit_r, bits, vx, yr, 0)
                        == crate::state::draw_cols(self@.display, hit, bits, vx, yr, col),
                decreases 8 - col,
            {
                let shift: u16 = 7 - col;
                if (bits >> (shift as u8)) & 1 == 1 {
                    let px = ((vx as usize) + (col as usize)) % DISPLAY_WIDTH;
                    let py = ((vy as usize) + (row as usize)) % DISPLAY_HEIGHT;
                    let idx = px + DISPLAY_WIDTH * py;
                    proof {
                        assert(idx == crate::state::pix_index(vx as int + col as int, yr));
                        assert(idx < self@.display.len());
                    }
                    let cur = self.display[idx];
                    hit = hit || cur;
                    self.display[idx] = !cur;
                }
                col = col + 1;
            }
            row = row + 1;
        }
        let flag: u8 = if hit {
            1
        } else {
            0
        };
        self.v_regs[15] = flag;
        Ok(())
    }

    /// Scan the keys in ascending order: store the lowest pressed key's
    /// index in V[x], or, when none is pressed, rewind the program counter
    /// onto this instruction so that the next step retries it.
    fn op_wait_key(&mut self, x: usize)
        requires
            old(self)@.wf(),
            x < NUM_REGS,
        ensures
            final(self)@.wf(),
            final(self)@ == match first_key(old(self)@.keys, 0) {
                Some(k) => VmView { v: old(self)@.v.update(x as int, k), ..old(self)@ },
                None => VmView { pc: old(self)@.pc.wrapping_sub(2), ..old(self)@ },
            },
    {
        let mut i: usize = 0;
        while i < NUM_KEYS
            invariant
                i <= NUM_KEYS,
                x < NUM_REGS,
                self@.wf(),
                self@ == old(self)@,
                first_key(self@.keys, 0) == first_key(self@.keys, i as int),
            decreases NUM_KEYS - i,
        {
            if self.keys[i] {
                proof {
                    assert(first_key(self@.keys, i as int) == Some(i as u8));
                }
                self.v_regs[x] = i as u8;
                proof {
                    assert(self@ =~= (VmView {
                        v: old(self)@.v.update(x as int, i as u8),
                        ..old(self)@
                    }));
                }
                return ;
            }
            i = i + 1;
        }
        proof {
            assert(first_key(self@.keys, 0) is None);
        }
        self.pc = self.pc.wrapping_sub(2);
    }

    /// Execute one already-fetched opcode, with `rnd` the byte used by the
    /// random-number instruction. On failure the state is left exactly as
    /// the fetch left it.
    fn execute(&mut self, op: u16, rnd: u8) -> (r: Result<(), Chip8Error>)
        requires
            old(self)@.wf(),
        ensures
            final(self)@.wf(),
            exec_result(old(self)@, op, rnd) is Ok ==> r == Ok::<(), Chip8Error>(())
                && final(self)@ == exec_result(old(self)@, op, rnd)->Ok_0,
            exec_result(old(self)@, op, rnd) is Err ==> r == Err::<(), Chip8Error>(
                exec_result(old(self)@, op, rnd)->Err_0,
            ) && final(self)@ == old(self)@,
    {
        let n1 = op / 0x1000;
        let n2 = (op / 0x100) % 0x10;
        let n3 = (op / 0x10) % 0x10;
        let n4 = op % 0x10;
        let x = n2 as usize;
        let y = n3 as usize;
        let nn = (op % 0x100) as u8;
        let nnn = op % 0x1000;
        let r = match (n1, n2, n3, n4) {
            (0, 0, 0, 0) => Ok(()),
            (0, 0, 0xE, 0) => {
                self.display = filled(false, DISPLAY_WIDTH * DISPLAY_HEIGHT);
                proof {
                    assert(self@.display =~= blank_display());
                }
                Ok(())
            },
            (0, 0, 0xE, 0xE) => match self.pop() {
                Ok(addr) => {
                    self.pc = addr;
                    Ok(())
                },
                Err(e) => Err(e),
            },
            (1, _, _, _) => {
                self.pc = nnn;
                Ok(())
            },
            (2, _, _, _) => {
                let here = self.pc;
                match self.push(here) {
                    Ok(()) => {
                        self.pc = nnn;
                        Ok(())
                    },
                    Err(e) => Err(e),
                }
            },
            (3, _, _, _) => {
                if self.v_regs[x] == nn {
                    self.pc = self.pc.wrapping_add(2);
                }
                Ok(())
            },
            (4, _, _, _) => {
                if self.v_regs[x] != nn {
                    self.pc = self.pc.wrapping_add(2);
                }
                Ok(())
            },
            (5, _, _, 0) => {
                if self.v_regs[x] == self.v_regs[y] {
                    self.pc = self.pc.wrapping_add(2);
                }
                Ok(())
            },
            (6, _, _, _) => {
                self.v_regs[x] = nn;
                Ok(())
            },
            (7, _, _, _) => {
                self.v_regs[x] = self.v_regs[x].wrapping_add(nn);
                Ok(())
            },
            (8, _, _, 0) => {
                self.v_regs[x] = self.v_regs[y];
                Ok(())
            },
            (8, _, _, 1) => {
                self.v_regs[x] = self.v_regs[x] | self.v_regs[y];
                Ok(())
            },
            (8, _, _, 2) => {
                self.v_regs[x] = self.v_regs[x] & self.v_regs[y];
                Ok(())
            },
            (8, _, _, 3) => {
                self.v_regs[x] = self.v_regs[x] ^ self.v_regs[y];
                Ok(())
            },
            (8, _, _, 4) => {
                let a = self.v_regs[x];
                let b = self.v_regs[y];
                let flag: u8 = if (a as u16) + (b as u16) > 255 {
                    1
                } else {
                    0
                };
                self.v_regs[x] = a.wrapping_add(b);
                self.v_regs[15] = flag;
                Ok(())
            },
            (8, _, _, 5) => {
                let a = self.v_regs[x];
                let b = self.v_regs[y];
                let flag: u8 = if a >= b {
                    1
                } else {
                    0
                };
                self.v_regs[x] = a.wrapping_sub(b);
                self.v_regs[15] = flag;
                Ok(())
            },
            (8, _, _, 6) => {
                let a = self.v_regs[x];
                self.v_regs[x] = a >> 1u8;
                self.v_regs[15] = a & 1;
                Ok(())
            },
            (8, _, _, 7) => {
                let a = self.v_regs[x];
                let b = self.v_regs[y];
                let flag: u8 = if b >= a {
                    1
                } else {
                    0
                };
                self.v_regs[x] = b.wrapping_sub(a);
                self.v_regs[15] = flag;
                Ok(())
            },
            (8, _, _, 0xE) => {
                let a = self.v_regs[x];
                self.v_regs[x] = a << 1u8;
                self.v_regs[15] = (a >> 7u8) & 1;
                Ok(())
            },
            (9, _, _, 0) => {
                if self.v_regs[x] != self.v_regs[y] {
                    self.pc = self.pc.wrapping_add(2);
                }
                Ok(())
            },
            (0xA, _, _, _) => {
                self.index_reg = nnn;
                Ok(())
            },
            (0xB, _, _, _) => {
                self.pc = (self.v_regs[0] as u16) + nnn;
                Ok(())
            },
            (0xC, _, _, _) => {
                self.v_regs[x] = rnd & nn;
                Ok(())
            },
            (0xD, _, _, _) => match self.op_draw(x, y, n4) {
                Ok(()) => Ok(()),
                Err(e) => Err(e),
            },
            (0xE, _, 9, 0xE) => {
                let vx = self.v_regs[x];
                if vx >= NUM_KEYS as u8 {
                    Err(Chip8Error::InvalidKeyIndex)
                } else {
                    if self.keys[vx as usize] {
                        self.pc = self.pc.wrapping_add(2);
                    }
                    Ok(())
                }
            },
            (0xE, _, 0xA, 1) => {
                let vx = self.v_regs[x];
                if vx >= NUM_KEYS as u8 {
                    Err(Chip8Error::InvalidKeyIndex)
                } else {
                    if !self.keys[vx as usize] {
                        self.pc = self.pc.wrapping_add(2);
                    }
                    Ok(())
                }
            },
            (0xF, _, 0, 7) => {
                self.v_regs[x] = self.delay_timer;
                Ok(())
            },
            (0xF, _, 0, 0xA) => {
                self.op_wait_key(x);
                Ok(())
            },
            (0xF, _, 1, 5) => {
                self.delay_timer = self.v_regs[x];
                Ok(())
            },
            (0xF, _, 1, 8) => {
                self.sound_timer = self.v_regs[x];
                Ok(())
            },
            (0xF, _, 1, 0xE) => {
                self.index_reg = self.index_reg.wrapping_add(self.v_regs[x] as u16);
                Ok(())
            },
            _ => Err(Chip8Error::InvalidOpcode(op)),
        };
        proof {
            let res = exec_result(old(self)@, op, rnd);
            if res is Ok {
                assert(self@ =~= res->Ok_0);
            }
        }
        r
    }

    /// One fetch-decode-execute step with a caller-chosen random byte, for
    /// deterministic replay: behaves exactly as `step_result` says. On
    /// failure the machine keeps its pre-fetch state.
    pub fn tick_with_random(&mut self, rnd: u8) -> (r: Result<(), Chip8Error>)
        requires
            old(self)@.wf(),
        ensures
            final(self)@.wf(),
            tick_rel(old(self)@, final(self)@, r, rnd),
    {
        if (self.pc as usize) + 1 >= MEM_SIZE {
            return Err(Chip8Error::OutOfBoundsMemoryAccess);
        }
        let op = self.fetch();
        match self.execute(op, rnd) {
            Ok(()) => Ok(()),
            Err(e) => {
                self.pc = self.pc - 2;
                proof {
                    assert(self@ =~= old(self)@);
                }
                Err(e)
            },
        }
    }

    /// One fetch-decode-execute step, drawing the random-number opcode's
    /// byte from the machine's randomness source: behaves as `step_result`
    /// for some byte. On failure the machine keeps its pre-fetch state.
    pub fn tick(&mut self) -> (r: Result<(), Chip8Error>)
        requires
            old(self)@.wf(),
        ensures
            final(self)@.wf(),
            exists|rnd: u8| tick_rel(old(self)@, final(self)@, r, rnd),
    {
        let rnd = crate::rng::random_byte();
        let r = self.tick_with_random(rnd);
        proof {
            assert(tick_rel(old(self)@, self@, r, rnd));
        }
        r
    }
}

} // verus!
