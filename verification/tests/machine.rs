use minivm::Machine;
use minivm::MachineError;

fn step(m: &mut Machine) -> (Result<bool, MachineError>, Vec<char>) {
    let mut out: Vec<char> = Vec::new();
    let r = m.step_on(&mut out);
    (r, out)
}

#[test]
fn new_pads_memory_and_zeroes_registers() {
    let m = Machine::new(&[1, 2, 3]);
    assert_eq!(m.memory().len(), 4096);
    assert_eq!(&m.memory()[..3], &[1, 2, 3]);
    assert!(m.memory()[3..].iter().all(|&b| b == 0));
    assert_eq!(m.regs().len(), 16);
    assert!(m.regs().iter().all(|&r| r == 0));
}

#[test]
fn loadimm_positive() {
    let mut m = Machine::new(&[4, 1, 72, 0]);
    let (r, out) = step(&mut m);
    assert_eq!(r, Ok(false));
    assert_eq!(m.regs()[1], 72);
    assert_eq!(m.regs()[0], 4);
    assert!(out.is_empty());
}

#[test]
fn loadimm_sign_extends_negative() {
    // low 0xFE, high 0xFF is -2 as a 16-bit value
    let mut m = Machine::new(&[4, 1, 0xFE, 0xFF]);
    let (r, _) = step(&mut m);
    assert_eq!(r, Ok(false));
    assert_eq!(m.regs()[1], 0xFFFF_FFFE);
}

#[test]
fn loadimm_high_bit_boundary() {
    // low 0, high 0x80 is -32768 as a 16-bit value
    let mut m = Machine::new(&[4, 1, 0, 0x80]);
    let (r, _) = step(&mut m);
    assert_eq!(r, Ok(false));
    assert_eq!(m.regs()[1], 0xFFFF_8000);
}

#[test]
fn store_load_round_trip() {
    // store r2 at the address in r1, then load from that address into r3
    let mut m = Machine::new(&[2, 1, 2, 0, 3, 3, 1]);
    m.set_reg(1, 2000).unwrap();
    m.set_reg(2, 0xDEAD_BEEF).unwrap();
    let (r, _) = step(&mut m);
    assert_eq!(r, Ok(false));
    assert_eq!(m.regs()[0], 4);
    assert_eq!(&m.memory()[2000..2004], &[0xEF, 0xBE, 0xAD, 0xDE]);
    let (r, _) = step(&mut m);
    assert_eq!(r, Ok(false));
    assert_eq!(m.regs()[3], 0xDEAD_BEEF);
    assert_eq!(m.regs()[0], 7);
}

#[test]
fn store_advances_ip_by_four() {
    // the store instruction's encoded size is 4: the byte after its two
    // operands is skipped, and the next opcode is fetched from address 4
    let mut m = Machine::new(&[2, 1, 2, 0, 7]);
    m.set_reg(1, 100).unwrap();
    let (r, _) = step(&mut m);
    assert_eq!(r, Ok(false));
    assert_eq!(m.regs()[0], 4);
    let (r, _) = step(&mut m);
    assert_eq!(r, Ok(true));
    assert_eq!(m.regs()[0], 5);
}

#[test]
fn sub_wraps_modulo_two_to_the_32() {
    // 0 - 1 is 0xFFFFFFFF modulo 2^32
    let mut m = Machine::new(&[5, 3, 1, 2]);
    m.set_reg(1, 0).unwrap();
    m.set_reg(2, 1).unwrap();
    let (r, _) = step(&mut m);
    assert_eq!(r, Ok(false));
    assert_eq!(m.regs()[3], 0xFFFF_FFFF);
}

#[test]
fn sub_exact_when_no_borrow() {
    let mut m = Machine::new(&[5, 3, 1, 2]);
    m.set_reg(1, 10).unwrap();
    m.set_reg(2, 3).unwrap();
    let (r, _) = step(&mut m);
    assert_eq!(r, Ok(false));
    assert_eq!(m.regs()[3], 7);
}

#[test]
fn move_if_is_noop_when_condition_zero() {
    let mut m = Machine::new(&[1, 3, 1, 2]);
    m.set_reg(1, 55).unwrap();
    m.set_reg(2, 0).unwrap();
    m.set_reg(3, 99).unwrap();
    let (r, _) = step(&mut m);
    assert_eq!(r, Ok(false));
    assert_eq!(m.regs()[3], 99);
    assert_eq!(m.regs()[0], 4);
}

#[test]
fn move_if_copies_when_condition_nonzero() {
    let mut m = Machine::new(&[1, 3, 1, 2]);
    m.set_reg(1, 55).unwrap();
    m.set_reg(2, 7).unwrap();
    let (r, _) = step(&mut m);
    assert_eq!(r, Ok(false));
    assert_eq!(m.regs()[3], 55);
}

#[test]
fn move_if_copies_high_bit_value() {
    let mut m = Machine::new(&[1, 3, 1, 2]);
    m.set_reg(1, 0x8000_0001).unwrap();
    m.set_reg(2, 1).unwrap();
    let (r, _) = step(&mut m);
    assert_eq!(r, Ok(false));
    assert_eq!(m.regs()[3], 0x8000_0001);
}

#[test]
fn opcode_zero_is_unknown() {
    let mut m = Machine::new(&[0]);
    let (r, _) = step(&mut m);
    assert_eq!(r, Err(MachineError::NonExistingInstruction));
    assert_eq!(m.regs()[0], 0);
}

#[test]
fn opcode_nine_is_unknown() {
    let mut m = Machine::new(&[9]);
    let (r, _) = step(&mut m);
    assert_eq!(r, Err(MachineError::NonExistingInstruction));
    assert_eq!(m.regs()[0], 0);
}

#[test]
fn register_operand_16_fails_with_ip_advanced() {
    let mut m = Machine::new(&[4, 16, 5, 0]);
    let (r, _) = step(&mut m);
    assert_eq!(r, Err(MachineError::NonExistingRegister));
    assert_eq!(m.regs()[0], 4);
}

#[test]
fn out_register_operand_16_fails_with_ip_advanced() {
    let mut m = Machine::new(&[6, 16]);
    let (r, out) = step(&mut m);
    assert_eq!(r, Err(MachineError::NonExistingRegister));
    assert_eq!(m.regs()[0], 2);
    assert!(out.is_empty());
}

#[test]
fn move_if_checks_all_registers_even_when_condition_zero() {
    let mut m = Machine::new(&[1, 16, 1, 2]);
    m.set_reg(2, 0).unwrap();
    let (r, _) = step(&mut m);
    assert_eq!(r, Err(MachineError::NonExistingRegister));
    assert_eq!(m.regs()[0], 4);
}

#[test]
fn exit_advances_ip_and_reports_completion() {
    let mut m = Machine::new(&[7]);
    let (r, _) = step(&mut m);
    assert_eq!(r, Ok(true));
    assert_eq!(m.regs()[0], 1);
}

#[test]
fn run_reports_completion_at_exit() {
    let mut m = Machine::new(&[7]);
    let mut out: Vec<char> = Vec::new();
    let r = m.run_on(&mut out, u64::MAX);
    assert_eq!(r, Ok(true));
    assert_eq!(m.regs()[0], 1);
    assert!(out.is_empty());
}

#[test]
fn prints_h_and_terminates() {
    let mut m = Machine::new(&[4, 1, 72, 0, 6, 1, 7]);
    let mut out: Vec<char> = Vec::new();
    let r = m.run_on(&mut out, u64::MAX);
    assert_eq!(r, Ok(true));
    assert_eq!(out, vec!['H']);
    assert_eq!(m.regs()[1], 72);
}

#[test]
fn computes_five_minus_three_and_prints_two() {
    let mut m = Machine::new(&[4, 1, 5, 0, 4, 2, 3, 0, 5, 3, 1, 2, 8, 3, 7]);
    let mut out: Vec<char> = Vec::new();
    let r = m.run_on(&mut out, u64::MAX);
    assert_eq!(r, Ok(true));
    assert_eq!(m.regs()[3], 2);
    assert_eq!(out, vec!['2']);
}

#[test]
fn out_number_prints_negative_decimal() {
    // low 0xFB, high 0xFF is -5 as a 16-bit value
    let mut m = Machine::new(&[4, 1, 0xFB, 0xFF, 8, 1, 7]);
    let mut out: Vec<char> = Vec::new();
    let r = m.run_on(&mut out, u64::MAX);
    assert_eq!(r, Ok(true));
    assert_eq!(out, vec!['-', '5']);
}

#[test]
fn out_number_prints_zero() {
    let mut m = Machine::new(&[8, 1, 7]);
    let mut out: Vec<char> = Vec::new();
    let r = m.run_on(&mut out, u64::MAX);
    assert_eq!(r, Ok(true));
    assert_eq!(out, vec!['0']);
}

#[test]
fn ip_outside_memory_fails() {
    let mut m = Machine::new(&[]);
    m.set_reg(0, 4096).unwrap();
    let (r, _) = step(&mut m);
    assert_eq!(r, Err(MachineError::NonExistingAddress));
    assert_eq!(m.regs()[0], 4096);
}

#[test]
fn store_keeps_partial_write_before_failing_byte() {
    let mut m = Machine::new(&[2, 1, 2]);
    m.set_reg(1, 4094).unwrap();
    m.set_reg(2, 0x0403_0201).unwrap();
    let (r, _) = step(&mut m);
    assert_eq!(r, Err(MachineError::NonExistingAddress));
    assert_eq!(m.memory()[4094], 0x01);
    assert_eq!(m.memory()[4095], 0x02);
    assert_eq!(m.regs()[0], 4);
}

#[test]
fn load_from_out_of_range_address_fails() {
    let mut m = Machine::new(&[3, 2, 1]);
    m.set_reg(1, 4093).unwrap();
    m.set_reg(2, 42).unwrap();
    let (r, _) = step(&mut m);
    assert_eq!(r, Err(MachineError::NonExistingAddress));
    assert_eq!(m.regs()[2], 42);
    assert_eq!(m.regs()[0], 3);
}

#[test]
fn operand_byte_outside_memory_fails() {
    // an out instruction whose operand byte would sit at address 4096
    let mut image = vec![0u8; 4096];
    image[4095] = 6;
    let mut m = Machine::new(&image);
    m.set_reg(0, 4095).unwrap();
    let (r, _) = step(&mut m);
    assert_eq!(r, Err(MachineError::NonExistingAddress));
    assert_eq!(m.regs()[0], 4097);
}

#[test]
fn run_stops_at_first_error() {
    let mut m = Machine::new(&[4, 1, 72, 0, 9]);
    let mut out: Vec<char> = Vec::new();
    let r = m.run_on(&mut out, u64::MAX);
    assert_eq!(r, Err(MachineError::NonExistingInstruction));
    assert_eq!(m.regs()[1], 72);
}

#[test]
fn run_returns_false_when_step_budget_runs_out() {
    // loadimm into register 0 jumps back to address 0: an endless loop
    let mut m = Machine::new(&[4, 0, 0, 0]);
    let mut out: Vec<char> = Vec::new();
    let r = m.run_on(&mut out, 10);
    assert_eq!(r, Ok(false));
    assert_eq!(m.regs()[0], 0);
}

#[test]
fn set_reg_rejects_register_16() {
    let mut m = Machine::new(&[]);
    assert_eq!(m.set_reg(15, 5), Ok(()));
    assert_eq!(m.regs()[15], 5);
    assert_eq!(m.set_reg(16, 5), Err(MachineError::NonExistingRegister));
}

#[test]
fn ip_sum_and_ip_inc() {
    let mut m = Machine::new(&[]);
    m.set_reg(0, 10).unwrap();
    assert_eq!(m.ip_sum(2), 12);
    m.ip_inc(5);
    assert_eq!(m.regs()[0], 15);
}

#[test]
fn out_takes_low_byte_only() {
    let mut m = Machine::new(&[6, 1, 7]);
    m.set_reg(1, 0x1234_5641).unwrap();
    let mut out: Vec<char> = Vec::new();
    let r = m.run_on(&mut out, u64::MAX);
    assert_eq!(r, Ok(true));
    assert_eq!(out, vec!['A']);
}
