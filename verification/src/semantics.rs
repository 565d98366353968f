//! The mathematical model of the machine.
//!
//! A [`State`] is the memory and the register bank as sequences. One spec
//! function per instruction maps a state to a [`StepOut`]: the state after
//! the instruction, the text it wrote, and its outcome. [`spec_step`] is one
//! fetch-decode-execute cycle over those functions, and [`run_spec`] iterates
//! it. The executable machine in [`crate::machine`] is proved to follow this
//! model step for step.

use vstd::prelude::*;

use crate::machine::MachineError;

verus! {

/// Number of bytes of machine memory, addressed 0 to 4095.
pub const MEMORY_SIZE: usize = 4096;

/// Number of registers, numbered 0 to 15.
pub const NREGS: usize = 16;

/// Register 0 is the instruction pointer: the address of the next
/// instruction to fetch.
pub const IP: usize = 0;

/// The machine state: the memory bytes and the register values.
#[verifier::ext_equal]
pub ghost struct State {
    pub mem: Seq<u8>,
    pub regs: Seq<u32>,
}

impl State {
    /// A well-formed state has exactly 4096 memory cells and 16 registers.
    pub open spec fn wf(self) -> bool {
        &&& self.mem.len() == MEMORY_SIZE
        &&& self.regs.len() == NREGS
    }

    /// The instruction pointer, as a mathematical integer.
    pub open spec fn ip(self) -> int {
        self.regs[IP as int] as int
    }
}

/// What one instruction (or one whole run) did: the state it left behind,
/// the text it appended to the output sink, and its outcome. `Ok(true)`
/// reports completion by the exit instruction, `Ok(false)` that execution
/// may continue, `Err` a fault.
#[verifier::ext_equal]
pub ghost struct StepOut {
    pub st: State,
    pub out: Seq<char>,
    pub res: Result<bool, MachineError>,
}

/// A step outcome that wrote nothing.
pub open spec fn quiet(st: State, res: Result<bool, MachineError>) -> StepOut {
    StepOut { st, out: Seq::<char>::empty(), res }
}

/// The encoded size in bytes of the instruction with the given opcode:
/// the opcode byte plus its operand bytes (plus one unused pad byte for
/// the store instruction, whose encoded size is 4).
pub open spec fn instr_size(op: u8) -> int {
    if op == 1 {
        4
    } else if op == 2 {
        4
    } else if op == 3 {
        3
    } else if op == 4 {
        4
    } else if op == 5 {
        4
    } else if op == 6 {
        2
    } else if op == 7 {
        1
    } else {
        2
    }
}

/// The address one past the last operand byte the instruction reads;
/// every operand byte must lie below the memory bound. The store
/// instruction reads only two operand bytes: its pad byte is never read.
pub open spec fn operand_end(op: u8) -> int {
    if op == 2 {
        3
    } else if op == 3 {
        3
    } else if op == 7 {
        1
    } else {
        instr_size(op)
    }
}

/// The register bank after advancing the instruction pointer by `size`.
pub open spec fn regs_advanced(s: State, size: int) -> Seq<u32> {
    s.regs.update(IP as int, (s.ip() + size) as u32)
}

/// Byte `i` (0 = least significant) of a 32-bit word: little-endian order.
pub open spec fn le_byte(v: u32, i: int) -> u8 {
    if i == 0 {
        (v & 0xFF) as u8
    } else if i == 1 {
        ((v >> 8u32) & 0xFF) as u8
    } else if i == 2 {
        ((v >> 16u32) & 0xFF) as u8
    } else {
        ((v >> 24u32) & 0xFF) as u8
    }
}

/// The 32-bit word whose little-endian bytes are `b0`, `b1`, `b2`, `b3`.
pub open spec fn le_word(b0: u8, b1: u8, b2: u8, b3: u8) -> u32 {
    (b0 as u32) | ((b1 as u32) << 8u32) | ((b2 as u32) << 16u32) | ((b3 as u32) << 24u32)
}

/// The 16-bit value with low byte `l` and high byte `h`, sign-extended
/// to 32 bits.
pub open spec fn sign_extend16(l: u8, h: u8) -> u32 {
    if h < 128 {
        (h as int * 256 + l as int) as u32
    } else {
        (h as int * 256 + l as int + 0xFFFF_0000) as u32
    }
}

/// Subtraction modulo 2^32.
pub open spec fn wrap_sub(x: u32, y: u32) -> u32 {
    if x >= y {
        (x - y) as u32
    } else {
        (x - y + 0x1_0000_0000) as u32
    }
}

/// The value of a 32-bit register reinterpreted as a signed integer.
pub open spec fn as_signed(v: u32) -> int {
    if v < 0x8000_0000 {
        v as int
    } else {
        v as int - 0x1_0000_0000
    }
}

/// The character whose code point is the low 8 bits of the register value.
pub open spec fn low_char(v: u32) -> char {
    ((v & 0xFF) as u8) as char
}

/// The decimal digit character for `d` (0 to 9).
pub open spec fn digit_char(d: int) -> char {
    ((48 + d) as u8) as char
}

/// The decimal digits of a natural number, most significant first.
pub open spec fn dec_digits(n: nat) -> Seq<char>
    decreases n,
{
    if n < 10 {
        seq![digit_char(n as int)]
    } else {
        dec_digits(n / 10) + seq![digit_char((n % 10) as int)]
    }
}

/// The decimal rendering of an integer: a minus sign for negative values,
/// then the digits of its magnitude.
pub open spec fn int_decimal(n: int) -> Seq<char> {
    if n < 0 {
        seq!['-'] + dec_digits((-n) as nat)
    } else {
        dec_digits(n as nat)
    }
}

/// The memory after writing the first `k` little-endian bytes of `val`
/// at addresses `addr`, `addr + 1`, ... A store that runs off the end of
/// memory keeps the bytes written before the failing address.
pub open spec fn store_prefix(mem: Seq<u8>, addr: int, val: u32, k: int) -> Seq<u8>
    decreases k,
{
    if k <= 0 {
        mem
    } else {
        store_prefix(mem, addr, val, k - 1).update(addr + (k - 1), le_byte(val, k - 1))
    }
}

/// How many of the four bytes starting at `addr` lie inside memory:
/// the bytes a four-byte store at `addr` writes before failing.
pub open spec fn writable_count(addr: int) -> int {
    if addr + 4 <= MEMORY_SIZE {
        4
    } else if addr >= MEMORY_SIZE {
        0
    } else {
        MEMORY_SIZE - addr
    }
}

/// Opcode 1, `move_if r_a r_b r_c`: if register `c` is non-zero, copy
/// register `b` into register `a`. The instruction pointer is advanced
/// before the registers are read, so operands naming register 0 see the
/// advanced value.
pub open spec fn spec_move_if(s: State) -> StepOut {
    let ip = s.ip();
    if ip + 3 >= MEMORY_SIZE {
        quiet(State { mem: s.mem, regs: regs_advanced(s, 4) }, Err(MachineError::NonExistingAddress))
    } else {
        let a = s.mem[ip + 1];
        let b = s.mem[ip + 2];
        let c = s.mem[ip + 3];
        let regs1 = regs_advanced(s, 4);
        if a >= NREGS || b >= NREGS || c >= NREGS {
            quiet(State { mem: s.mem, regs: regs1 }, Err(MachineError::NonExistingRegister))
        } else if regs1[c as int] != 0 {
            quiet(
                State { mem: s.mem, regs: regs1.update(a as int, regs1[b as int]) },
                Ok(false),
            )
        } else {
            quiet(State { mem: s.mem, regs: regs1 }, Ok(false))
        }
    }
}

/// Opcode 2, `store r_a r_b`: write register `b`'s four bytes,
/// little-endian, to memory starting at the address held in register `a`.
/// The instruction pointer is advanced (by the encoded size 4, though only
/// two operand bytes are read) before the store target is bound-checked;
/// bytes below the first out-of-range address stay written.
pub open spec fn spec_store(s: State) -> StepOut {
    let ip = s.ip();
    if ip + 2 >= MEMORY_SIZE {
        quiet(State { mem: s.mem, regs: regs_advanced(s, 4) }, Err(MachineError::NonExistingAddress))
    } else {
        let a = s.mem[ip + 1];
        let b = s.mem[ip + 2];
        let regs1 = regs_advanced(s, 4);
        if a >= NREGS || b >= NREGS {
            quiet(State { mem: s.mem, regs: regs1 }, Err(MachineError::NonExistingRegister))
        } else {
            let addr = regs1[a as int] as int;
            let val = regs1[b as int];
            let k = writable_count(addr);
            let mem1 = store_prefix(s.mem, addr, val, k);
            if k == 4 {
                quiet(State { mem: mem1, regs: regs1 }, Ok(false))
            } else {
                quiet(State { mem: mem1, regs: regs1 }, Err(MachineError::NonExistingAddress))
            }
        }
    }
}

/// Opcode 3, `load r_a r_b`: read four bytes, little-endian, from memory
/// at the address held in register `b` into register `a`. On an
/// out-of-range address no register is written, but the instruction
/// pointer has already been advanced.
pub open spec fn spec_load(s: State) -> StepOut {
    let ip = s.ip();
    if ip + 2 >= MEMORY_SIZE {
        quiet(State { mem: s.mem, regs: regs_advanced(s, 3) }, Err(MachineError::NonExistingAddress))
    } else {
        let a = s.mem[ip + 1];
        let b = s.mem[ip + 2];
        let regs1 = regs_advanced(s, 3);
        if a >= NREGS || b >= NREGS {
            quiet(State { mem: s.mem, regs: regs1 }, Err(MachineError::NonExistingRegister))
        } else {
            let addr = regs1[b as int] as int;
            if addr + 4 <= MEMORY_SIZE {
                let val = le_word(s.mem[addr], s.mem[addr + 1], s.mem[addr + 2], s.mem[addr + 3]);
                quiet(State { mem: s.mem, regs: regs1.update(a as int, val) }, Ok(false))
            } else {
                quiet(State { mem: s.mem, regs: regs1 }, Err(MachineError::NonExistingAddress))
            }
        }
    }
}

/// Opcode 4, `loadimm r_a l h`: store into register `a` the 16-bit value
/// with low byte `l` and high byte `h`, sign-extended to 32 bits.
pub open spec fn spec_loadimm(s: State) -> StepOut {
    let ip = s.ip();
    if ip + 3 >= MEMORY_SIZE {
        quiet(State { mem: s.mem, regs: regs_advanced(s, 4) }, Err(MachineError::NonExistingAddress))
    } else {
        let a = s.mem[ip + 1];
        let l = s.mem[ip + 2];
        let h = s.mem[ip + 3];
        let regs1 = regs_advanced(s, 4);
        if a >= NREGS {
            quiet(State { mem: s.mem, regs: regs1 }, Err(MachineError::NonExistingRegister))
        } else {
            quiet(
                State { mem: s.mem, regs: regs1.update(a as int, sign_extend16(l, h)) },
                Ok(false),
            )
        }
    }
}

/// Opcode 5, `sub r_a r_b r_c`: register `a` becomes register `b` minus
/// register `c`, modulo 2^32. The registers are read after the
/// instruction pointer has been advanced.
pub open spec fn spec_sub(s: State) -> StepOut {
    let ip = s.ip();
    if ip + 3 >= MEMORY_SIZE {
        quiet(State { mem: s.mem, regs: regs_advanced(s, 4) }, Err(MachineError::NonExistingAddress))
    } else {
        let a = s.mem[ip + 1];
        let b = s.mem[ip + 2];
        let c = s.mem[ip + 3];
        let regs1 = regs_advanced(s, 4);
        if a >= NREGS || b >= NREGS || c >= NREGS {
            quiet(State { mem: s.mem, regs: regs1 }, Err(MachineError::NonExistingRegister))
        } else {
            quiet(
                State {
                    mem: s.mem,
                    regs: regs1.update(a as int, wrap_sub(regs1[b as int], regs1[c as int])),
                },
                Ok(false),
            )
        }
    }
}

/// Opcode 6, `out r_a`: write the character whose code point is the low
/// 8 bits of register `a` to the sink.
pub open spec fn spec_out(s: State) -> StepOut {
    let ip = s.ip();
    if ip + 1 >= MEMORY_SIZE {
        quiet(State { mem: s.mem, regs: regs_advanced(s, 2) }, Err(MachineError::NonExistingAddress))
    } else {
        let a = s.mem[ip + 1];
        let regs1 = regs_advanced(s, 2);
        if a >= NREGS {
            quiet(State { mem: s.mem, regs: regs1 }, Err(MachineError::NonExistingRegister))
        } else {
            StepOut {
                st: State { mem: s.mem, regs: regs1 },
                out: seq![low_char(regs1[a as int])],
                res: Ok(false),
            }
        }
    }
}

/// Opcode 7, `exit`: advance the instruction pointer past the opcode and
/// report completion.
pub open spec fn spec_exit(s: State) -> StepOut {
    quiet(State { mem: s.mem, regs: regs_advanced(s, 1) }, Ok(true))
}

/// Opcode 8, `out_number r_a`: write register `a`, reinterpreted as a
/// signed 32-bit integer, in decimal to the sink.
pub open spec fn spec_out_number(s: State) -> StepOut {
    let ip = s.ip();
    if ip + 1 >= MEMORY_SIZE {
        quiet(State { mem: s.mem, regs: regs_advanced(s, 2) }, Err(MachineError::NonExistingAddress))
    } else {
        let a = s.mem[ip + 1];
        let regs1 = regs_advanced(s, 2);
        if a >= NREGS {
            quiet(State { mem: s.mem, regs: regs1 }, Err(MachineError::NonExistingRegister))
        } else {
            StepOut {
                st: State { mem: s.mem, regs: regs1 },
                out: int_decimal(as_signed(regs1[a as int])),
                res: Ok(false),
            }
        }
    }
}

/// One fetch-decode-execute cycle. An instruction pointer outside memory
/// or an opcode without a handler fails with the state unchanged; the
/// eight handlers always leave the instruction pointer one instruction
/// further, on success and on failure alike.
pub open spec fn spec_step(s: State) -> StepOut {
    let ip = s.ip();
    if ip >= MEMORY_SIZE {
        quiet(s, Err(MachineError::NonExistingAddress))
    } else {
        let op = s.mem[ip];
        if op == 1 {
            spec_move_if(s)
        } else if op == 2 {
            spec_store(s)
        } else if op == 3 {
            spec_load(s)
        } else if op == 4 {
            spec_loadimm(s)
        } else if op == 5 {
            spec_sub(s)
        } else if op == 6 {
            spec_out(s)
        } else if op == 7 {
            spec_exit(s)
        } else if op == 8 {
            spec_out_number(s)
        } else {
            quiet(s, Err(MachineError::NonExistingInstruction))
        }
    }
}

/// At most `fuel` cycles from `s`: stop early at the first exit
/// (`Ok(true)`) or fault, with the output of all executed cycles
/// concatenated. Exhausting the fuel yields `Ok(false)`.
pub open spec fn run_spec(s: State, fuel: nat) -> StepOut
    decreases fuel,
{
    if fuel == 0 {
        quiet(s, Ok(false))
    } else {
        let so = spec_step(s);
        if so.res == Ok::<bool, MachineError>(false) {
            let rest = run_spec(so.st, (fuel - 1) as nat);
            StepOut { st: rest.st, out: so.out + rest.out, res: rest.res }
        } else {
            so
        }
    }
}

} // verus!
