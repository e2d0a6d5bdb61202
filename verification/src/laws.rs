use vstd::prelude::*;

use vstd::arithmetic::div_mod::{lemma_fundamental_div_mod, lemma_fundamental_div_mod_converse};

use crate::state::{
    exec_result, fetched, first_key, imm_nn, nib1, nib2, nib3, nib4, step_result, VmView,
};

verus! {

/// An opcode assembled from its four nibbles decodes back to exactly those
/// nibbles, and its bottom byte is the immediate they form.
proof fn lemma_decode_nibbles(op: u16, hi: u16, x: u8, y: u8, lo: u16)
    requires
        hi < 0x10,
        x < 0x10,
        y < 0x10,
        lo < 0x10,
        op == hi * 0x1000 + x * 0x100 + y * 0x10 + lo,
    ensures
        nib1(op) == hi,
        nib2(op) == x,
        nib3(op) == y,
        nib4(op) == lo,
        imm_nn(op) == y * 0x10 + lo,
{
    lemma_fundamental_div_mod_converse(
        op as int,
        0x1000,
        hi as int,
        x as int * 0x100 + y as int * 0x10 + lo,
    );
    lemma_fundamental_div_mod_converse(
        op as int,
        0x100,
        hi as int * 0x10 + x,
        y as int * 0x10 + lo,
    );
    lemma_fundamental_div_mod_converse(hi as int * 0x10 + x, 0x10, hi as int, x as int);
    lemma_fundamental_div_mod_converse(
        op as int,
        0x10,
        hi as int * 0x100 + x as int * 0x10 + y,
        lo as int,
    );
    lemma_fundamental_div_mod_converse(
        hi as int * 0x100 + x as int * 0x10 + y,
        0x10,
        hi as int * 0x10 + x as int,
        y as int,
    );
}

/// Law: for every register X and immediate NN, executing 0x6XNN (store NN)
/// and then 0x7XNN (add NN, wrapping) leaves V[X] = (NN + NN) mod 256,
/// whatever the starting state and whatever bytes the randomness source
/// would supply.
pub proof fn lemma_store_then_add(s: VmView, x: u8, nn: u8, rnd1: u8, rnd2: u8)
    requires
        s.wf(),
        x < 16,
    ensures
        ({
            let op_set = (0x6000 + x * 0x100 + nn) as u16;
            let op_add = (0x7000 + x * 0x100 + nn) as u16;
            let r1 = exec_result(s, op_set, rnd1);
            &&& r1 is Ok
            &&& exec_result(r1->Ok_0, op_add, rnd2) is Ok
            &&& exec_result(r1->Ok_0, op_add, rnd2)->Ok_0.v[x as int] == (nn + nn) % 256
        }),
{
    let op_set = (0x6000 + x * 0x100 + nn) as u16;
    let op_add = (0x7000 + x * 0x100 + nn) as u16;
    lemma_fundamental_div_mod(nn as int, 0x10);
    let yn = (nn / 0x10) as u8;
    let lo = (nn % 0x10) as u16;
    assert(yn < 0x10 && lo < 0x10);
    assert(nn == yn * 0x10 + lo);
    lemma_decode_nibbles(op_set, 6, x, yn, lo);
    lemma_decode_nibbles(op_add, 7, x, yn, lo);
    let s1 = exec_result(s, op_set, rnd1)->Ok_0;
    assert(s1.v[x as int] == nn);
    let s2 = exec_result(s1, op_add, rnd2)->Ok_0;
    assert(s2.v[x as int] == nn.wrapping_add(nn));
    if nn + nn < 0x100 {
        vstd::arithmetic::div_mod::lemma_small_mod((nn + nn) as nat, 0x100);
    } else {
        lemma_fundamental_div_mod_converse(nn as int + nn, 0x100, 1, nn as int + nn - 0x100);
    }
}

/// Law: with V[X] = 0xFF and V[Y] = 0x01 (X and Y distinct, X not the flag
/// register), opcode 0x8XY4 leaves V[X] = 0x00 and the carry flag VF = 1.
pub proof fn lemma_add_carry(s: VmView, x: u8, y: u8, rnd: u8)
    requires
        s.wf(),
        x < 16,
        y < 16,
        x != y,
        x != 15,
        s.v[x as int] == 0xFF,
        s.v[y as int] == 0x01,
    ensures
        ({
            let op = (0x8004 + x * 0x100 + y * 0x10) as u16;
            let r = exec_result(s, op, rnd);
            &&& r is Ok
            &&& r->Ok_0.v[x as int] == 0x00
            &&& r->Ok_0.v[15] == 1
        }),
{
    let op = (0x8004 + x * 0x100 + y * 0x10) as u16;
    lemma_decode_nibbles(op, 8, x, y, 4);
}

/// Law: with V[X] = 0x01 and V[Y] = 0x02 (X and Y distinct, X not the flag
/// register), opcode 0x8XY5 wraps the subtraction to V[X] = 0xFF and sets
/// the flag VF = 0, recording that a borrow occurred.
pub proof fn lemma_sub_borrow(s: VmView, x: u8, y: u8, rnd: u8)
    requires
        s.wf(),
        x < 16,
        y < 16,
        x != y,
        x != 15,
        s.v[x as int] == 0x01,
        s.v[y as int] == 0x02,
    ensures
        ({
            let op = (0x8005 + x * 0x100 + y * 0x10) as u16;
            let r = exec_result(s, op, rnd);
            &&& r is Ok
            &&& r->Ok_0.v[x as int] == 0xFF
            &&& r->Ok_0.v[15] == 0
        }),
{
    let op = (0x8005 + x * 0x100 + y * 0x10) as u16;
    lemma_decode_nibbles(op, 8, x, y, 5);
}

/// With no pressed key at or above index `i`, the ascending key scan finds
/// nothing.
proof fn lemma_first_key_none(keys: Seq<bool>, i: int)
    requires
        0 <= i <= 16,
        forall|j: int| i <= j < 16 ==> !keys[j],
    ensures
        first_key(keys, i) is None,
    decreases 16 - i,
{
    if i < 16 {
        lemma_first_key_none(keys, i + 1);
    }
}

/// With key `k` pressed and none pressed between `i` and `k`, the ascending
/// key scan from `i` finds exactly `k`.
proof fn lemma_first_key_some(keys: Seq<bool>, i: int, k: int)
    requires
        0 <= i <= k < 16,
        keys[k],
        forall|j: int| i <= j < k ==> !keys[j],
    ensures
        first_key(keys, i) == Some(k as u8),
    decreases 16 - i,
{
    if i < k {
        lemma_first_key_some(keys, i + 1, k);
    }
}

/// Law: a wait-for-key instruction (0xFX0A) at the program counter, with no
/// key pressed, leaves the whole machine state exactly as it was — the
/// program counter still points at the instruction, so every further step
/// repeats the wait.
pub proof fn lemma_wait_key_blocks(s: VmView, x: u8, rnd: u8)
    requires
        s.wf(),
        x < 16,
        s.pc + 1 < 4096,
        s.ram[s.pc as int] == 0xF0 + x,
        s.ram[s.pc as int + 1] == 0x0A,
        forall|j: int| 0 <= j < 16 ==> !s.keys[j],
    ensures
        step_result(s, rnd) == Ok::<VmView, crate::Chip8Error>(s),
{
    let op = fetched(s);
    assert(op == 0xF000 + x * 0x100 + 0x0A);
    lemma_decode_nibbles(op, 0xF, x, 0, 0xA);
    lemma_first_key_none(s.keys, 0);
    let s2 = VmView { pc: (s.pc + 2) as u16, ..s };
    assert(exec_result(s2, op, rnd)->Ok_0 =~= s);
}

/// Law: a wait-for-key instruction (0xFX0A) at the program counter, with `k`
/// the lowest pressed key, stores `k` in V[X] and advances the program
/// counter past the instruction, leaving everything else unchanged.
pub proof fn lemma_wait_key_returns_lowest(s: VmView, x: u8, k: u8, rnd: u8)
    requires
        s.wf(),
        x < 16,
        s.pc + 1 < 4096,
        s.ram[s.pc as int] == 0xF0 + x,
        s.ram[s.pc as int + 1] == 0x0A,
        k < 16,
        s.keys[k as int],
        forall|j: int| 0 <= j < k ==> !s.keys[j],
    ensures
        step_result(s, rnd) == Ok::<VmView, crate::Chip8Error>(
            VmView { pc: (s.pc + 2) as u16, v: s.v.update(x as int, k), ..s },
        ),
{
    let op = fetched(s);
    assert(op == 0xF000 + x * 0x100 + 0x0A);
    lemma_decode_nibbles(op, 0xF, x, 0, 0xA);
    lemma_first_key_some(s.keys, 0, k as int);
}

} // verus!
