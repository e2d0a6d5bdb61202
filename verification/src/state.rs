use vstd::prelude::*;

use crate::error::Chip8Error;
use crate::font::font_seq;

verus! {

/// Mathematical view of the whole machine state. Every contract of the
/// executable `Interpreter` is stated over this view.
#[verifier::ext_equal]
pub ghost struct VmView {
    /// Program counter; a fetch reads the two bytes at `pc` and `pc + 1`.
    pub pc: u16,
    /// The 4096 bytes of memory.
    pub ram: Seq<u8>,
    /// The 64-wide by 32-tall framebuffer, row-major: pixel (x, y) is
    /// `display[x + 64 * y]`.
    pub display: Seq<bool>,
    /// The sixteen 8-bit general-purpose registers V0..VF.
    pub v: Seq<u8>,
    /// The 16-bit index register.
    pub index: u16,
    /// Stack pointer: number of return addresses on the call stack.
    pub sp: u16,
    /// The sixteen call-stack slots.
    pub stack: Seq<u16>,
    /// The sixteen key states, true while pressed.
    pub keys: Seq<bool>,
    /// Delay timer, decremented only by `tick_timers`.
    pub delay: u8,
    /// Sound timer, decremented only by `tick_timers`.
    pub sound: u8,
}

pub const MEM_SIZE: usize = 4096;
pub const DISPLAY_WIDTH: usize = 64;
pub const DISPLAY_HEIGHT: usize = 32;
pub const NUM_REGS: usize = 16;
pub const STACK_SIZE: usize = 16;
pub const NUM_KEYS: usize = 16;
pub const FONT_SIZE: usize = 80;
pub const START_ADDRESS: u16 = 0x200;

impl VmView {
    /// The sizes that every reachable machine state has.
    pub open spec fn wf(self) -> bool {
        &&& self.ram.len() == MEM_SIZE
        &&& self.display.len() == DISPLAY_WIDTH * DISPLAY_HEIGHT
        &&& self.v.len() == NUM_REGS
        &&& self.stack.len() == STACK_SIZE
        &&& self.keys.len() == NUM_KEYS
        &&& self.sp <= STACK_SIZE
    }
}

/// The framebuffer with every pixel unlit.
pub open spec fn blank_display() -> Seq<bool> {
    Seq::new((DISPLAY_WIDTH * DISPLAY_HEIGHT) as nat, |i: int| false)
}

/// The state a machine has right after construction and after `reset`:
/// the font table at the start of memory, the program counter at 0x200,
/// and everything else zeroed.
pub open spec fn init_view() -> VmView {
    VmView {
        pc: START_ADDRESS,
        ram: Seq::new(MEM_SIZE as nat, |i: int| if i < FONT_SIZE { font_seq()[i] } else { 0u8 }),
        display: blank_display(),
        v: Seq::new(NUM_REGS as nat, |i: int| 0u8),
        index: 0,
        sp: 0,
        stack: Seq::new(STACK_SIZE as nat, |i: int| 0u16),
        keys: Seq::new(NUM_KEYS as nat, |i: int| false),
        delay: 0,
        sound: 0,
    }
}

/// Top nibble of an opcode.
pub open spec fn nib1(op: u16) -> u16 {
    op / 0x1000
}

/// Second nibble: the X register selector.
pub open spec fn nib2(op: u16) -> u16 {
    (op / 0x100) % 0x10
}

/// Third nibble: the Y register selector.
pub open spec fn nib3(op: u16) -> u16 {
    (op / 0x10) % 0x10
}

/// Bottom nibble.
pub open spec fn nib4(op: u16) -> u16 {
    op % 0x10
}

/// Bottom byte: the NN immediate.
pub open spec fn imm_nn(op: u16) -> u8 {
    (op % 0x100) as u8
}

/// Bottom twelve bits: the NNN address.
pub open spec fn addr_nnn(op: u16) -> u16 {
    op % 0x1000
}

/// The big-endian combination of the two bytes at the program counter.
pub open spec fn fetched(s: VmView) -> u16 {
    (s.ram[s.pc as int] * 0x100 + s.ram[s.pc as int + 1]) as u16
}

/// The state with the program counter moved past one more instruction,
/// as the skip opcodes leave it.
pub open spec fn skipped(s: VmView) -> VmView {
    VmView { pc: s.pc.wrapping_add(2), ..s }
}

/// A timer value after one tick: decremented if positive, else still zero.
pub open spec fn dec_timer(t: u8) -> u8 {
    if t > 0 {
        (t - 1) as u8
    } else {
        0
    }
}

/// Whether sprite row `bits` has its pixel set at column `col`
/// (column 0 is the most significant bit).
pub open spec fn sprite_bit(bits: u8, col: u16) -> bool
    recommends
        col < 8,
{
    ((bits >> ((7 - col) as u8)) & 1) == 1
}

/// Framebuffer index of the pixel drawn at raw coordinates (xr, yr):
/// both wrap at the grid edges.
pub open spec fn pix_index(xr: int, yr: int) -> int {
    xr % (DISPLAY_WIDTH as int) + (DISPLAY_WIDTH as int) * (yr % (DISPLAY_HEIGHT as int))
}

/// XOR-composite the columns `col..8` of one sprite row `bits` onto the
/// framebuffer, accumulating in `hit` whether any toggled pixel was lit.
/// Returns the framebuffer and the accumulated collision flag.
pub open spec fn draw_cols(
    disp: Seq<bool>,
    hit: bool,
    bits: u8,
    vx: u8,
    yr: int,
    col: u16,
) -> (Seq<bool>, bool)
    decreases 8 - col,
{
    if col >= 8 {
        (disp, hit)
    } else if sprite_bit(bits, col) {
        let idx = pix_index(vx + col, yr);
        draw_cols(disp.update(idx, !disp[idx]), hit || disp[idx], bits, vx, yr, (col + 1) as u16)
    } else {
        draw_cols(disp, hit, bits, vx, yr, (col + 1) as u16)
    }
}

/// XOR-composite the rows `row..n` of an n-row sprite read from memory at
/// the index register onto the framebuffer, accumulating the collision flag.
pub open spec fn draw_rows(
    disp: Seq<bool>,
    hit: bool,
    ram: Seq<u8>,
    index: u16,
    vx: u8,
    vy: u8,
    n: u16,
    row: u16,
) -> (Seq<bool>, bool)
    decreases n - row,
{
    if row >= n {
        (disp, hit)
    } else {
        let step = draw_cols(disp, hit, ram[index + row], vx, vy as int + row as int, 0);
        draw_rows(step.0, step.1, ram, index, vx, vy, n, (row + 1) as u16)
    }
}

/// The lowest pressed key at or above index `i`, if any.
pub open spec fn first_key(keys: Seq<bool>, i: int) -> Option<u8>
    decreases 16 - i,
{
    if i < 0 || i >= 16 {
        None
    } else if keys[i] {
        Some(i as u8)
    } else {
        first_key(keys, i + 1)
    }
}

/// Memory after a program image `rom` is written starting at 0x200.
pub open spec fn loaded_ram(ram: Seq<u8>, rom: Seq<u8>) -> Seq<u8> {
    Seq::new(
        MEM_SIZE as nat,
        |i: int|
            if START_ADDRESS <= i && i < START_ADDRESS + rom.len() {
                rom[i - START_ADDRESS]
            } else {
                ram[i]
            },
    )
}

/// The effect of executing the already-fetched opcode `op` on state `s`
/// (whose program counter already points past `op`), with `rnd` the byte
/// drawn by the random-number opcode. `Ok` carries the next state; `Err`
/// carries the typed failure, and the machine then keeps its pre-fetch state.
pub open spec fn exec_result(s: VmView, op: u16, rnd: u8) -> Result<VmView, Chip8Error> {
    let x = nib2(op) as int;
    let y = nib3(op) as int;
    let nn = imm_nn(op);
    let nnn = addr_nnn(op);
    match (nib1(op), nib2(op), nib3(op), nib4(op)) {
        (0, 0, 0, 0) => Ok(s),
        (0, 0, 0xE, 0) => Ok(VmView { display: blank_display(), ..s }),
        (0, 0, 0xE, 0xE) => if s.sp == 0 {
            Err(Chip8Error::StackUnderflow)
        } else {
            Ok(VmView { pc: s.stack[s.sp - 1], sp: (s.sp - 1) as u16, ..s })
        },
        (1, _, _, _) => Ok(VmView { pc: nnn, ..s }),
        (2, _, _, _) => if s.sp >= 16 {
            Err(Chip8Error::StackOverflow)
        } else {
            Ok(
                VmView {
                    stack: s.stack.update(s.sp as int, s.pc),
                    sp: (s.sp + 1) as u16,
                    pc: nnn,
                    ..s
                },
            )
        },
        (3, _, _, _) => Ok(if s.v[x] == nn { skipped(s) } else { s }),
        (4, _, _, _) => Ok(if s.v[x] != nn { skipped(s) } else { s }),
        (5, _, _, 0) => Ok(if s.v[x] == s.v[y] { skipped(s) } else { s }),
        (6, _, _, _) => Ok(VmView { v: s.v.update(x, nn), ..s }),
        (7, _, _, _) => Ok(VmView { v: s.v.update(x, s.v[x].wrapping_add(nn)), ..s }),
        (8, _, _, 0) => Ok(VmView { v: s.v.update(x, s.v[y]), ..s }),
        (8, _, _, 1) => Ok(VmView { v: s.v.update(x, s.v[x] | s.v[y]), ..s }),
        (8, _, _, 2) => Ok(VmView { v: s.v.update(x, s.v[x] & s.v[y]), ..s }),
        (8, _, _, 3) => Ok(VmView { v: s.v.update(x, s.v[x] ^ s.v[y]), ..s }),
        (8, _, _, 4) => {
            let flag: u8 = if s.v[x] + s.v[y] > 255 { 1 } else { 0 };
            Ok(VmView { v: s.v.update(x, s.v[x].wrapping_add(s.v[y])).update(15, flag), ..s })
        },
        (8, _, _, 5) => {
            let flag: u8 = if s.v[x] >= s.v[y] { 1 } else { 0 };
            Ok(VmView { v: s.v.update(x, s.v[x].wrapping_sub(s.v[y])).update(15, flag), ..s })
        },
        (8, _, _, 6) => {
            let lsb: u8 = s.v[x] & 1;
            Ok(VmView { v: s.v.update(x, s.v[x] >> 1u8).update(15, lsb), ..s })
        },
        (8, _, _, 7) => {
            let flag: u8 = if s.v[y] >= s.v[x] { 1 } else { 0 };
            Ok(VmView { v: s.v.update(x, s.v[y].wrapping_sub(s.v[x])).update(15, flag), ..s })
        },
        (8, _, _, 0xE) => {
            let msb: u8 = (s.v[x] >> 7u8) & 1;
            Ok(VmView { v: s.v.update(x, s.v[x] << 1u8).update(15, msb), ..s })
        },
        (9, _, _, 0) => Ok(if s.v[x] != s.v[y] { skipped(s) } else { s }),
        (0xA, _, _, _) => Ok(VmView { index: nnn, ..s }),
        (0xB, _, _, _) => Ok(VmView { pc: (s.v[0] + nnn) as u16, ..s }),
        (0xC, _, _, _) => Ok(VmView { v: s.v.update(x, rnd & nn), ..s }),
        (0xD, _, _, _) => {
            let n = nib4(op);
            if n > 0 && s.index + n > 4096 {
                Err(Chip8Error::OutOfBoundsMemoryAccess)
            } else {
                let drawn = draw_rows(s.display, false, s.ram, s.index, s.v[x], s.v[y], n, 0);
                Ok(
                    VmView {
                        display: drawn.0,
                        v: s.v.update(15, if drawn.1 { 1u8 } else { 0u8 }),
                        ..s
                    },
                )
            }
        },
        (0xE, _, 9, 0xE) => if s.v[x] >= 16 {
            Err(Chip8Error::InvalidKeyIndex)
        } else {
            Ok(if s.keys[s.v[x] as int] { skipped(s) } else { s })
        },
        (0xE, _, 0xA, 1) => if s.v[x] >= 16 {
            Err(Chip8Error::InvalidKeyIndex)
        } else {
            Ok(if !s.keys[s.v[x] as int] { skipped(s) } else { s })
        },
        (0xF, _, 0, 7) => Ok(VmView { v: s.v.update(x, s.delay), ..s }),
        (0xF, _, 0, 0xA) => match first_key(s.keys, 0) {
            Some(k) => Ok(VmView { v: s.v.update(x, k), ..s }),
            None => Ok(VmView { pc: s.pc.wrapping_sub(2), ..s }),
        },
        (0xF, _, 1, 5) => Ok(VmView { delay: s.v[x], ..s }),
        (0xF, _, 1, 8) => Ok(VmView { sound: s.v[x], ..s }),
        (0xF, _, 1, 0xE) => Ok(VmView { index: s.index.wrapping_add(s.v[x] as u16), ..s }),
        _ => Err(Chip8Error::InvalidOpcode(op)),
    }
}

/// One whole fetch-decode-execute step from state `s` with random byte
/// `rnd`: fails if the fetch itself would read past memory, and otherwise
/// behaves as `exec_result` on the fetched opcode.
pub open spec fn step_result(s: VmView, rnd: u8) -> Result<VmView, Chip8Error> {
    if s.pc + 1 >= MEM_SIZE {
        Err(Chip8Error::OutOfBoundsMemoryAccess)
    } else {
        exec_result(VmView { pc: (s.pc + 2) as u16, ..s }, fetched(s), rnd)
    }
}

/// How one call of `tick` relates the old and the new machine state for a
/// given random byte: on success the state is the stepped one, on failure
/// the result carries the typed error and the state is untouched.
pub open spec fn tick_rel(pre: VmView, post: VmView, r: Result<(), Chip8Error>, rnd: u8) -> bool {
    match step_result(pre, rnd) {
        Ok(s2) => r == Ok::<(), Chip8Error>(()) && post == s2,
        Err(e) => r == Err::<(), Chip8Error>(e) && post == pre,
    }
}

} // verus!
