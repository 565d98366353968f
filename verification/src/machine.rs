//! The executable machine, proved to follow the model in
//! [`crate::semantics`].

use vstd::prelude::*;

use crate::decimal::push_decimal_signed;
use crate::semantics::le_byte;
use crate::semantics::regs_advanced;
use crate::semantics::quiet;
use crate::semantics::run_spec;
use crate::semantics::spec_out_number;
use crate::semantics::spec_step;
use crate::semantics::spec_exit;
use crate::semantics::spec_load;
use crate::semantics::spec_loadimm;
use crate::semantics::spec_move_if;
use crate::semantics::spec_out;
use crate::semantics::spec_store;
use crate::semantics::spec_sub;
use crate::semantics::store_prefix;
use crate::semantics::writable_count;
use crate::semantics::State;
use crate::semantics::IP;
use crate::semantics::MEMORY_SIZE;
use crate::semantics::NREGS;

verus! {

/// The faults an instruction cycle can produce. Every fault ends the
/// current step or run call; nothing is rolled back.
#[derive(Clone, Copy, Debug, PartialEq, Eq, Structural)]
pub enum MachineError {
    /// The opcode byte fetched matches none of the eight instructions.
    NonExistingInstruction,
    /// An operand byte used as a register index is 16 or more.
    NonExistingRegister,
    /// A memory access targets an address of 4096 or more.
    NonExistingAddress,
    /// The output sink rejected a write.
    NonExistingFormat,
}

/// The machine: 4096 bytes of memory holding program and data alike, and
/// sixteen 32-bit registers of which register 0 is the instruction pointer.
pub struct Machine {
    memory: Vec<u8>,
    regs: Vec<u32>,
}

impl View for Machine {
    type V = State;

    closed spec fn view(&self) -> State {
        State { mem: self.memory@, regs: self.regs@ }
    }
}

impl Machine {
    /// The machine always has exactly 4096 memory cells and 16 registers.
    pub open spec fn wf(&self) -> bool {
        self@.wf()
    }

    /// Create a machine in its reset state: `memory` copied to the start
    /// of the machine memory, every other memory cell and every register
    /// zero. Images longer than the machine memory are a caller error and
    /// are excluded by contract.
    pub fn new(memory: &[u8]) -> (m: Machine)
        requires
            memory@.len() <= MEMORY_SIZE,
        ensures
            m.wf(),
            m@.mem == memory@ + Seq::new((MEMORY_SIZE - memory@.len()) as nat, |i: int| 0u8),
            m@.regs == Seq::new(NREGS as nat, |i: int| 0u32),
    {
        let n = memory.len();
        let mut mem: Vec<u8> = Vec::new();
        let mut i: usize = 0;
        while i < n
            invariant
                i <= n,
                n == memory@.len() <= MEMORY_SIZE,
                mem@ == memory@.subrange(0, i as int),
            decreases n - i,
        {
            mem.push(memory[i]);
            i += 1;
        }
        while mem.len() < MEMORY_SIZE
            invariant
                n == memory@.len() <= MEMORY_SIZE,
                n <= mem@.len() <= MEMORY_SIZE,
                mem@.subrange(0, n as int) == memory@,
                forall|j: int| n <= j < mem@.len() ==> mem@[j] == 0u8,
            decreases MEMORY_SIZE - mem@.len(),
        {
            mem.push(0);
        }
        let mut regs: Vec<u32> = Vec::new();
        while regs.len() < NREGS
            invariant
                regs@.len() <= NREGS,
                forall|j: int| 0 <= j < regs@.len() ==> regs@[j] == 0u32,
            decreases NREGS - regs@.len(),
        {
            regs.push(0);
        }
        proof {
            assert(mem@ =~= memory@ + Seq::new((MEMORY_SIZE - memory@.len()) as nat, |i: int| 0u8));
            assert(regs@ =~= Seq::new(NREGS as nat, |i: int| 0u32));
        }
        Machine { memory: mem, regs }
    }

    /// The current register bank, register 0 first.
    pub fn regs(&self) -> (r: &[u32])
        ensures
            r@ == self@.regs,
    {
        self.regs.as_slice()
    }

    /// Set register `reg` to `value`; registers 16 and beyond do not exist.
    pub fn set_reg(&mut self, reg: usize, value: u32) -> (r: Result<(), MachineError>)
        requires
            old(self).wf(),
        ensures
            final(self).wf(),
            final(self)@.mem == old(self)@.mem,
            reg < NREGS ==> r == Ok::<(), MachineError>(()) && final(self)@.regs == old(
                self,
            )@.regs.update(reg as int, value),
            reg >= NREGS ==> r == Err::<(), MachineError>(MachineError::NonExistingRegister)
                && final(self)@.regs == old(self)@.regs,
    {
        if reg < NREGS {
            self.regs[reg] = value;
            Ok(())
        } else {
            Err(MachineError::NonExistingRegister)
        }
    }

    /// The current memory contents, address 0 first.
    pub fn memory(&self) -> (r: &[u8])
        ensures
            r@ == self@.mem,
    {
        self.memory.as_slice()
    }

    /// The instruction pointer plus `offset`: the address of an operand
    /// byte of the instruction at the instruction pointer.
    pub fn ip_sum(&self, offset: usize) -> (r: usize)
        requires
            self@.regs.len() == NREGS,
            self@.ip() + offset <= usize::MAX,
        ensures
            r == self@.ip() + offset,
    {
        self.regs[IP] as usize + offset
    }

    /// Advance the instruction pointer by `offset` bytes.
    pub fn ip_inc(&mut self, offset: u32)
        requires
            old(self)@.regs.len() == NREGS,
            old(self)@.ip() + offset <= u32::MAX,
        ensures
            final(self)@.mem == old(self)@.mem,
            final(self)@.regs == regs_advanced(old(self)@, offset as int),
    {
        let v = self.regs[IP] + offset;
        self.regs[IP] = v;
    }

    /// Opcode 1: if register `c` is non-zero, copy register `b` into
    /// register `a`.
    fn move_if(&mut self) -> (r: Result<bool, MachineError>)
        requires
            old(self).wf(),
            old(self)@.ip() < MEMORY_SIZE,
            old(self)@.mem[old(self)@.ip()] == 1u8,
        ensures
            final(self).wf(),
            final(self)@ == spec_move_if(old(self)@).st,
            r == spec_move_if(old(self)@).res,
    {
        let ip: usize = self.regs[IP] as usize;
        if ip + 3 >= MEMORY_SIZE {
            self.ip_inc(4);
            proof {
                assert(self@ =~= spec_move_if(old(self)@).st);
            }
            return Err(MachineError::NonExistingAddress);
        }
        let a = self.memory[ip + 1];
        let b = self.memory[ip + 2];
        let c = self.memory[ip + 3];
        self.ip_inc(4);
        if a as usize >= NREGS || b as usize >= NREGS || c as usize >= NREGS {
            proof {
                assert(self@ =~= spec_move_if(old(self)@).st);
            }
            return Err(MachineError::NonExistingRegister);
        }
        if self.regs[c as usize] != 0 {
            let v = self.regs[b as usize];
            self.regs[a as usize] = v;
        }
        proof {
            assert(self@ =~= spec_move_if(old(self)@).st);
        }
        Ok(false)
    }

    /// Opcode 4: store the sign-extended 16-bit immediate with low byte
    /// `l` and high byte `h` into register `a`.
    fn loadimm(&mut self) -> (r: Result<bool, MachineError>)
        requires
            old(self).wf(),
            old(self)@.ip() < MEMORY_SIZE,
            old(self)@.mem[old(self)@.ip()] == 4u8,
        ensures
            final(self).wf(),
            final(self)@ == spec_loadimm(old(self)@).st,
            r == spec_loadimm(old(self)@).res,
    {
        let ip: usize = self.regs[IP] as usize;
        if ip + 3 >= MEMORY_SIZE {
            self.ip_inc(4);
            proof {
                assert(self@ =~= spec_loadimm(old(self)@).st);
            }
            return Err(MachineError::NonExistingAddress);
        }
        let a = self.memory[ip + 1];
        let l = self.memory[ip + 2];
        let h = self.memory[ip + 3];
        self.ip_inc(4);
        if a as usize >= NREGS {
            proof {
                assert(self@ =~= spec_loadimm(old(self)@).st);
            }
            return Err(MachineError::NonExistingRegister);
        }
        let value: u32 = if h < 128 {
            (h as u32) * 256 + (l as u32)
        } else {
            (h as u32) * 256 + (l as u32) + 0xFFFF_0000
        };
        self.regs[a as usize] = value;
        proof {
            assert(self@ =~= spec_loadimm(old(self)@).st);
        }
        Ok(false)
    }

    /// Opcode 5: register `a` becomes register `b` minus register `c`,
    /// modulo 2^32.
    fn sub(&mut self) -> (r: Result<bool, MachineError>)
        requires
            old(self).wf(),
            old(self)@.ip() < MEMORY_SIZE,
            old(self)@.mem[old(self)@.ip()] == 5u8,
        ensures
            final(self).wf(),
            final(self)@ == spec_sub(old(self)@).st,
            r == spec_sub(old(self)@).res,
    {
        let ip: usize = self.regs[IP] as usize;
        if ip + 3 >= MEMORY_SIZE {
            self.ip_inc(4);
            proof {
                assert(self@ =~= spec_sub(old(self)@).st);
            }
            return Err(MachineError::NonExistingAddress);
        }
        let a = self.memory[ip + 1];
        let b = self.memory[ip + 2];
        let c = self.memory[ip + 3];
        self.ip_inc(4);
        if a as usize >= NREGS || b as usize >= NREGS || c as usize >= NREGS {
            proof {
                assert(self@ =~= spec_sub(old(self)@).st);
            }
            return Err(MachineError::NonExistingRegister);
        }
        let x = self.regs[b as usize];
        let y = self.regs[c as usize];
        let v: u32 = if x >= y {
            x - y
        } else {
            ((x as u64) + 0x1_0000_0000u64 - (y as u64)) as u32
        };
        self.regs[a as usize] = v;
        proof {
            assert(self@ =~= spec_sub(old(self)@).st);
        }
        Ok(false)
    }

    /// Opcode 3: read four bytes, little-endian, from memory at the
    /// address held in register `b` into register `a`.
    fn load(&mut self) -> (r: Result<bool, MachineError>)
        requires
            old(self).wf(),
            old(self)@.ip() < MEMORY_SIZE,
            old(self)@.mem[old(self)@.ip()] == 3u8,
        ensures
            final(self).wf(),
            final(self)@ == spec_load(old(self)@).st,
            r == spec_load(old(self)@).res,
    {
        let ip: usize = self.regs[IP] as usize;
        if ip + 2 >= MEMORY_SIZE {
            self.ip_inc(3);
            proof {
                assert(self@ =~= spec_load(old(self)@).st);
            }
            return Err(MachineError::NonExistingAddress);
        }
        let a = self.memory[ip + 1];
        let b = self.memory[ip + 2];
        self.ip_inc(3);
        if a as usize >= NREGS || b as usize >= NREGS {
            proof {
                assert(self@ =~= spec_load(old(self)@).st);
            }
            return Err(MachineError::NonExistingRegister);
        }
        let addr32: u32 = self.regs[b as usize];
        if addr32 > (MEMORY_SIZE - 4) as u32 {
            proof {
                assert(self@ =~= spec_load(old(self)@).st);
            }
            return Err(MachineError::NonExistingAddress);
        }
        let addr: usize = addr32 as usize;
        let m0 = self.memory[addr];
        let m1 = self.memory[addr + 1];
        let m2 = self.memory[addr + 2];
        let m3 = self.memory[addr + 3];
        let v: u32 = (m0 as u32) | ((m1 as u32) << 8u32) | ((m2 as u32) << 16u32) | ((m3
            as u32) << 24u32);
        self.regs[a as usize] = v;
        proof {
            assert(self@ =~= spec_load(old(self)@).st);
        }
        Ok(false)
    }

    /// Byte `i` (0 = least significant) of `val`, little-endian.
    fn byte_of(val: u32, i: usize) -> (r: u8)
        requires
            i < 4,
        ensures
            r == le_byte(val, i as int),
    {
        proof {
            assert((val & 0xFF) < 256 && ((val >> 8u32) & 0xFF) < 256 && ((val >> 16u32) & 0xFF)
                < 256 && ((val >> 24u32) & 0xFF) < 256) by (bit_vector);
        }
        if i == 0 {
            (val & 0xFF) as u8
        } else if i == 1 {
            ((val >> 8u32) & 0xFF) as u8
        } else if i == 2 {
            ((val >> 16u32) & 0xFF) as u8
        } else {
            ((val >> 24u32) & 0xFF) as u8
        }
    }

    /// Opcode 2: write register `b`'s four bytes, little-endian, to memory
    /// starting at the address held in register `a`. The bytes are
    /// bound-checked one by one in ascending address order, and the bytes
    /// before the first out-of-range address stay written.
    #[verifier::loop_isolation(false)]
    fn store(&mut self) -> (r: Result<bool, MachineError>)
        requires
            old(self).wf(),
            old(self)@.ip() < MEMORY_SIZE,
            old(self)@.mem[old(self)@.ip()] == 2u8,
        ensures
            final(self).wf(),
            final(self)@ == spec_store(old(self)@).st,
            r == spec_store(old(self)@).res,
    {
        let ip: usize = self.regs[IP] as usize;
        if ip + 2 >= MEMORY_SIZE {
            self.ip_inc(4);
            proof {
                assert(self@ =~= spec_store(old(self)@).st);
            }
            return Err(MachineError::NonExistingAddress);
        }
        let a = self.memory[ip + 1];
        let b = self.memory[ip + 2];
        self.ip_inc(4);
        if a as usize >= NREGS || b as usize >= NREGS {
            proof {
                assert(self@ =~= spec_store(old(self)@).st);
            }
            return Err(MachineError::NonExistingRegister);
        }
        let addr32: u32 = self.regs[a as usize];
        let val: u32 = self.regs[b as usize];
        let ghost mem0 = self@.mem;
        let ghost regs1 = self@.regs;
        let mut i: usize = 0;
        while i < 4
            invariant
                i <= 4,
                addr32 == regs1[a as int],
                val == regs1[b as int],
                i == 0 || addr32 + i <= MEMORY_SIZE,
                self@.regs == regs1,
                self@.mem == store_prefix(mem0, addr32 as int, val, i as int),
                self@.mem.len() == MEMORY_SIZE,
                mem0.len() == MEMORY_SIZE,
            decreases 4 - i,
        {
            let idx64: u64 = addr32 as u64 + i as u64;
            if idx64 >= MEMORY_SIZE as u64 {
                proof {
                    assert(writable_count(addr32 as int) == i as int);
                    assert(self@ =~= spec_store(old(self)@).st);
                }
                return Err(MachineError::NonExistingAddress);
            }
            let idx: usize = idx64 as usize;
            let byte = Self::byte_of(val, i);
            self.memory[idx] = byte;
            i += 1;
        }
        proof {
            assert(writable_count(addr32 as int) == 4);
            assert(self@ =~= spec_store(old(self)@).st);
        }
        Ok(false)
    }

    /// Opcode 6: write the character whose code point is the low 8 bits
    /// of register `a` to the sink.
    fn out(&mut self, fd: &mut Vec<char>) -> (r: Result<bool, MachineError>)
        requires
            old(self).wf(),
            old(self)@.ip() < MEMORY_SIZE,
            old(self)@.mem[old(self)@.ip()] == 6u8,
        ensures
            final(self).wf(),
            final(self)@ == spec_out(old(self)@).st,
            final(fd)@ == old(fd)@ + spec_out(old(self)@).out,
            r == spec_out(old(self)@).res,
    {
        let ip: usize = self.regs[IP] as usize;
        if ip + 1 >= MEMORY_SIZE {
            self.ip_inc(2);
            proof {
                assert(self@ =~= spec_out(old(self)@).st);
                assert(fd@ =~= old(fd)@ + spec_out(old(self)@).out);
            }
            return Err(MachineError::NonExistingAddress);
        }
        let a = self.memory[ip + 1];
        self.ip_inc(2);
        if a as usize >= NREGS {
            proof {
                assert(self@ =~= spec_out(old(self)@).st);
                assert(fd@ =~= old(fd)@ + spec_out(old(self)@).out);
            }
            return Err(MachineError::NonExistingRegister);
        }
        let v = self.regs[a as usize];
        proof {
            assert((v & 0xFF) < 256) by (bit_vector);
        }
        let byte: u8 = (v & 0xFF) as u8;
        let ch: char = byte as char;
        fd.push(ch);
        proof {
            assert(self@ =~= spec_out(old(self)@).st);
            assert(fd@ =~= old(fd)@ + spec_out(old(self)@).out);
        }
        Ok(false)
    }

    /// Opcode 7: advance the instruction pointer past the opcode and
    /// report completion.
    fn exit(&mut self) -> (r: Result<bool, MachineError>)
        requires
            old(self).wf(),
            old(self)@.ip() < MEMORY_SIZE,
        ensures
            final(self).wf(),
            final(self)@ == spec_exit(old(self)@).st,
            r == spec_exit(old(self)@).res,
    {
        self.ip_inc(1);
        proof {
            assert(self@ =~= spec_exit(old(self)@).st);
        }
        Ok(true)
    }

    /// Opcode 8: write register `a`, reinterpreted as a signed 32-bit
    /// integer, in decimal to the sink.
    fn out_number(&mut self, fd: &mut Vec<char>) -> (r: Result<bool, MachineError>)
        requires
            old(self).wf(),
            old(self)@.ip() < MEMORY_SIZE,
            old(self)@.mem[old(self)@.ip()] == 8u8,
        ensures
            final(self).wf(),
            final(self)@ == spec_out_number(old(self)@).st,
            final(fd)@ == old(fd)@ + spec_out_number(old(self)@).out,
            r == spec_out_number(old(self)@).res,
    {
        let ip: usize = self.regs[IP] as usize;
        if ip + 1 >= MEMORY_SIZE {
            self.ip_inc(2);
            proof {
                assert(self@ =~= spec_out_number(old(self)@).st);
                assert(fd@ =~= old(fd)@ + spec_out_number(old(self)@).out);
            }
            return Err(MachineError::NonExistingAddress);
        }
        let a = self.memory[ip + 1];
        self.ip_inc(2);
        if a as usize >= NREGS {
            proof {
                assert(self@ =~= spec_out_number(old(self)@).st);
                assert(fd@ =~= old(fd)@ + spec_out_number(old(self)@).out);
            }
            return Err(MachineError::NonExistingRegister);
        }
        let v = self.regs[a as usize];
        push_decimal_signed(v, fd);
        proof {
            assert(self@ =~= spec_out_number(old(self)@).st);
        }
        Ok(false)
    }

    /// Execute one fetch-decode-execute cycle, writing any output to `fd`.
    /// Returns `Ok(true)` when the instruction executed was the exit
    /// instruction, `Ok(false)` when execution may continue, and the fault
    /// otherwise. The cycle performed is exactly one step of the model:
    /// state, output and outcome all follow [`spec_step`].
    pub fn step_on(&mut self, fd: &mut Vec<char>) -> (r: Result<bool, MachineError>)
        requires
            old(self).wf(),
        ensures
            final(self).wf(),
            final(self)@ == spec_step(old(self)@).st,
            final(fd)@ == old(fd)@ + spec_step(old(self)@).out,
            r == spec_step(old(self)@).res,
    {
        let ip: usize = self.regs[IP] as usize;
        if ip >= MEMORY_SIZE {
            proof {
                assert(fd@ =~= old(fd)@ + spec_step(old(self)@).out);
            }
            return Err(MachineError::NonExistingAddress);
        }
        let op: u8 = self.memory[ip];
        let r = match op {
            1 => self.move_if(),
            2 => self.store(),
            3 => self.load(),
            4 => self.loadimm(),
            5 => self.sub(),
            6 => self.out(fd),
            7 => self.exit(),
            8 => self.out_number(fd),
            _ => Err(MachineError::NonExistingInstruction),
        };
        proof {
            assert(fd@ =~= old(fd)@ + spec_step(old(self)@).out);
        }
        r
    }

    /// Execute up to `steps` instruction cycles, writing any output to
    /// `fd`, stopping early at the first exit instruction or fault.
    /// Returns `Ok(true)` when the program exited, `Ok(false)` when the
    /// step budget ran out first, and the fault otherwise. The whole run
    /// follows [`run_spec`]: the model's iteration of [`spec_step`].
    #[verifier::loop_isolation(false)]
    pub fn run_on(&mut self, fd: &mut Vec<char>, steps: u64) -> (r: Result<bool, MachineError>)
        requires
            old(self).wf(),
        ensures
            final(self).wf(),
            final(self)@ == run_spec(old(self)@, steps as nat).st,
            final(fd)@ == old(fd)@ + run_spec(old(self)@, steps as nat).out,
            r == run_spec(old(self)@, steps as nat).res,
    {
        let ghost s0 = self@;
        let ghost fd0 = fd@;
        let ghost whole = run_spec(s0, steps as nat);
        let mut i: u64 = 0;
        while i < steps
            invariant
                i <= steps,
                self.wf(),
                fd0.len() <= fd@.len(),
                fd@.subrange(0, fd0.len() as int) == fd0,
                whole.st == run_spec(self@, (steps - i) as nat).st,
                whole.res == run_spec(self@, (steps - i) as nat).res,
                whole.out == fd@.skip(fd0.len() as int) + run_spec(self@, (steps - i) as nat).out,
            decreases steps - i,
        {
            let ghost prev = self@;
            let ghost fd_prev = fd@;
            let r = self.step_on(fd);
            proof {
                assert(fd@.subrange(0, fd0.len() as int) =~= fd0);
                assert(fd@.skip(fd0.len() as int) =~= fd_prev.skip(fd0.len() as int) + spec_step(
                    prev,
                ).out);
            }
            match r {
                Ok(false) => {
                    i = i + 1;
                    proof {
                        assert(whole.out =~= fd@.skip(fd0.len() as int) + run_spec(
                            self@,
                            (steps - i) as nat,
                        ).out);
                    }
                },
                Ok(true) => {
                    proof {
                        assert(run_spec(prev, (steps - (i as int)) as nat) == spec_step(prev));
                        assert(fd@ =~= fd0 + whole.out);
                    }
                    return Ok(true);
                },
                Err(e) => {
                    proof {
                        assert(run_spec(prev, (steps - (i as int)) as nat) == spec_step(prev));
                        assert(fd@ =~= fd0 + whole.out);
                    }
                    return Err(e);
                },
            }
        }
        proof {
            assert(run_spec(self@, 0) == quiet(self@, Ok::<bool, MachineError>(false)));
            assert(fd@ =~= fd0 + whole.out);
        }
        Ok(false)
    }
}

} // verus!
