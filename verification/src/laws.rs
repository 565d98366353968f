//! General properties of the instruction set, stated over the model in
//! [`crate::semantics`] and proved once for all programs.

use vstd::arithmetic::div_mod::lemma_mod_add_multiples_vanish;
use vstd::arithmetic::div_mod::lemma_small_mod;
use vstd::prelude::*;

use crate::machine::MachineError;
use crate::semantics::instr_size;
use crate::semantics::le_byte;
use crate::semantics::le_word;
use crate::semantics::operand_end;
use crate::semantics::regs_advanced;
use crate::semantics::run_spec;
use crate::semantics::sign_extend16;
use crate::semantics::spec_step;
use crate::semantics::store_prefix;
use crate::semantics::wrap_sub;
use crate::semantics::State;
use crate::semantics::MEMORY_SIZE;
use crate::semantics::NREGS;

verus! {

/// Sign extension agrees with assembling the two bytes into a 16-bit
/// word, reinterpreting it as signed and widening it to 32 bits.
pub proof fn lemma_sign_extend16_as_cast(l: u8, h: u8)
    ensures
        sign_extend16(l, h) == ((((h as u16) << 8u16) | (l as u16)) as i16) as u32,
{
    assert(((((h as u16) << 8u16) | (l as u16)) as i16) as u32 == (if h < 128 {
        (h as u32) * 256 + (l as u32)
    } else {
        ((h as u32) * 256 + (l as u32)) + 0xFFFF_0000u32
    })) by (bit_vector);
}

/// Law: a `loadimm` instruction ends with its target register holding the
/// 16-bit immediate (low byte `l`, high byte `h`) sign-extended to 32
/// bits — the value of `(h << 8) | l` read as a signed 16-bit integer.
pub proof fn lemma_loadimm_sign_extends(s: State, a: u8, l: u8, h: u8)
    requires
        s.wf(),
        s.ip() + 3 < MEMORY_SIZE,
        s.mem[s.ip()] == 4u8,
        s.mem[s.ip() + 1] == a,
        s.mem[s.ip() + 2] == l,
        s.mem[s.ip() + 3] == h,
        a < NREGS,
    ensures
        spec_step(s).res == Ok::<bool, MachineError>(false),
        spec_step(s).st.regs[a as int] == sign_extend16(l, h),
        spec_step(s).st.regs[a as int] == ((((h as u16) << 8u16) | (l as u16)) as i16) as u32,
{
    lemma_sign_extend16_as_cast(l, h);
}

/// Subtraction modulo 2^32 is exact: the wrapped difference is the
/// mathematical difference reduced modulo 2^32.
pub proof fn lemma_wrap_sub_exact(x: u32, y: u32)
    ensures
        wrap_sub(x, y) as int == (x as int - y as int) % 0x1_0000_0000,
{
    if x >= y {
        lemma_small_mod((x - y) as nat, 0x1_0000_0000nat);
    } else {
        lemma_mod_add_multiples_vanish(x as int - y as int, 0x1_0000_0000int);
        lemma_small_mod((x as int - y as int + 0x1_0000_0000) as nat, 0x1_0000_0000nat);
    }
}

/// Law: a `sub` instruction ends with its target register holding the
/// difference of the two source registers (read after the instruction
/// pointer advance) reduced modulo 2^32.
pub proof fn lemma_sub_wraps(s: State, a: u8, b: u8, c: u8)
    requires
        s.wf(),
        s.ip() + 3 < MEMORY_SIZE,
        s.mem[s.ip()] == 5u8,
        s.mem[s.ip() + 1] == a,
        s.mem[s.ip() + 2] == b,
        s.mem[s.ip() + 3] == c,
        a < NREGS,
        b < NREGS,
        c < NREGS,
    ensures
        spec_step(s).res == Ok::<bool, MachineError>(false),
        spec_step(s).st.regs[a as int] as int == (regs_advanced(s, 4)[b as int] as int
            - regs_advanced(s, 4)[c as int] as int) % 0x1_0000_0000,
{
    lemma_wrap_sub_exact(regs_advanced(s, 4)[b as int], regs_advanced(s, 4)[c as int]);
}

/// Law: `move_if` is a no-op on the registers (apart from the instruction
/// pointer advance) when register `c` is zero, and copies register `b`
/// into register `a` when register `c` is non-zero, whatever value —
/// high bit set or not — register `b` holds.
pub proof fn lemma_move_if(s: State, a: u8, b: u8, c: u8)
    requires
        s.wf(),
        s.ip() + 3 < MEMORY_SIZE,
        s.mem[s.ip()] == 1u8,
        s.mem[s.ip() + 1] == a,
        s.mem[s.ip() + 2] == b,
        s.mem[s.ip() + 3] == c,
        a < NREGS,
        b < NREGS,
        c < NREGS,
        c != 0,
    ensures
        spec_step(s).res == Ok::<bool, MachineError>(false),
        spec_step(s).st.mem == s.mem,
        s.regs[c as int] == 0 ==> spec_step(s).st.regs == regs_advanced(s, 4),
        s.regs[c as int] != 0 ==> spec_step(s).st.regs == regs_advanced(s, 4).update(
            a as int,
            regs_advanced(s, 4)[b as int],
        ),
{
}

/// Law: an opcode byte of zero, or of nine or more, matches no
/// instruction and fails with `NonExistingInstruction`, leaving the
/// state unchanged and writing nothing.
pub proof fn lemma_unknown_opcode(s: State)
    requires
        s.wf(),
        s.ip() < MEMORY_SIZE,
        s.mem[s.ip()] == 0 || s.mem[s.ip()] >= 9,
    ensures
        spec_step(s).res == Err::<bool, MachineError>(MachineError::NonExistingInstruction),
        spec_step(s).st == s,
        spec_step(s).out == Seq::<char>::empty(),
{
}

/// Whether some operand byte of the instruction at the instruction
/// pointer that names a register is out of range: 16 or more.
pub open spec fn some_reg_operand_out_of_range(s: State) -> bool {
    let ip = s.ip();
    let op = s.mem[ip];
    if op == 1 || op == 5 {
        s.mem[ip + 1] >= NREGS || s.mem[ip + 2] >= NREGS || s.mem[ip + 3] >= NREGS
    } else if op == 2 || op == 3 {
        s.mem[ip + 1] >= NREGS || s.mem[ip + 2] >= NREGS
    } else if op == 4 || op == 6 || op == 8 {
        s.mem[ip + 1] >= NREGS
    } else {
        false
    }
}

/// Law: an instruction one of whose register-operand bytes is 16 or more
/// fails with `NonExistingRegister`, with the instruction pointer already
/// advanced past the instruction, the memory untouched and nothing
/// written to the sink.
pub proof fn lemma_bad_register_operand(s: State)
    requires
        s.wf(),
        s.ip() < MEMORY_SIZE,
        1 <= s.mem[s.ip()] <= 8,
        s.mem[s.ip()] != 7,
        s.ip() + operand_end(s.mem[s.ip()]) <= MEMORY_SIZE,
        some_reg_operand_out_of_range(s),
    ensures
        spec_step(s).res == Err::<bool, MachineError>(MachineError::NonExistingRegister),
        spec_step(s).st.mem == s.mem,
        spec_step(s).st.regs == regs_advanced(s, instr_size(s.mem[s.ip()])),
        spec_step(s).out == Seq::<char>::empty(),
{
}

/// The little-endian bytes of a word reassemble to the word.
pub proof fn lemma_le_bytes_round_trip(v: u32)
    ensures
        le_word(le_byte(v, 0), le_byte(v, 1), le_byte(v, 2), le_byte(v, 3)) == v,
{
    assert((((v & 0xFF) as u8) as u32) | (((((v >> 8u32) & 0xFF) as u8) as u32) << 8u32) | (((((v
        >> 16u32) & 0xFF) as u8) as u32) << 16u32) | (((((v >> 24u32) & 0xFF) as u8) as u32)
        << 24u32) == v) by (bit_vector);
}

/// Law: a `store` of a register's value to an in-bounds address, followed
/// by a `load` from the same address register into another register,
/// round-trips the value. The stored word must lie beside the load
/// instruction's own bytes, not over them.
pub proof fn lemma_store_load_round_trip(s: State, ra: u8, rb: u8, rc: u8)
    requires
        s.wf(),
        s.ip() + 6 < MEMORY_SIZE,
        s.mem[s.ip()] == 2u8,
        s.mem[s.ip() + 1] == ra,
        s.mem[s.ip() + 2] == rb,
        s.mem[s.ip() + 4] == 3u8,
        s.mem[s.ip() + 5] == rc,
        s.mem[s.ip() + 6] == ra,
        0 < ra < NREGS,
        0 < rb < NREGS,
        rc < NREGS,
        s.regs[ra as int] + 4 <= MEMORY_SIZE,
        s.regs[ra as int] + 4 <= s.ip() + 4 || s.regs[ra as int] > s.ip() + 6,
    ensures
        spec_step(s).res == Ok::<bool, MachineError>(false),
        spec_step(spec_step(s).st).res == Ok::<bool, MachineError>(false),
        spec_step(spec_step(s).st).st.regs[rc as int] == s.regs[rb as int],
{
    let ip = s.ip();
    let addr = s.regs[ra as int] as int;
    let v = s.regs[rb as int];
    assert(store_prefix(s.mem, addr, v, 0) == s.mem);
    assert(store_prefix(s.mem, addr, v, 1) == s.mem.update(addr, le_byte(v, 0)));
    assert(store_prefix(s.mem, addr, v, 2) == store_prefix(s.mem, addr, v, 1).update(
        addr + 1,
        le_byte(v, 1),
    ));
    assert(store_prefix(s.mem, addr, v, 3) == store_prefix(s.mem, addr, v, 2).update(
        addr + 2,
        le_byte(v, 2),
    ));
    assert(store_prefix(s.mem, addr, v, 4) == store_prefix(s.mem, addr, v, 3).update(
        addr + 3,
        le_byte(v, 3),
    ));
    let s1 = spec_step(s).st;
    assert(s1.mem[addr] == le_byte(v, 0));
    assert(s1.mem[addr + 1] == le_byte(v, 1));
    assert(s1.mem[addr + 2] == le_byte(v, 2));
    assert(s1.mem[addr + 3] == le_byte(v, 3));
    assert(s1.mem[ip + 4] == 3u8);
    assert(s1.mem[ip + 5] == rc);
    assert(s1.mem[ip + 6] == ra);
    lemma_le_bytes_round_trip(v);
}

/// Law: an `exit` instruction at address `A` leaves the instruction
/// pointer at `A + 1` and reports completion, from a single step and
/// from a run with any remaining step budget.
pub proof fn lemma_exit(s: State, fuel: nat)
    requires
        s.wf(),
        s.ip() < MEMORY_SIZE,
        s.mem[s.ip()] == 7u8,
        fuel > 0,
    ensures
        spec_step(s).res == Ok::<bool, MachineError>(true),
        spec_step(s).st.regs == regs_advanced(s, 1),
        spec_step(s).st.mem == s.mem,
        spec_step(s).out == Seq::<char>::empty(),
        run_spec(s, fuel).res == Ok::<bool, MachineError>(true),
        run_spec(s, fuel).st == spec_step(s).st,
        run_spec(s, fuel).out == Seq::<char>::empty(),
{
}

} // verus!
