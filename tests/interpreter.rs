use fox::assembler::assemble_source;
use fox::bytecode::{OP_DIV, OP_DROP, OP_EQU, OP_HALT, OP_LITW, OP_MUL, OP_SUB};
use fox::dma::DirectMemoryAccess;
use fox::memory::{MEM_SIZE, RESET_VECTOR, SP_OFFSET};
use fox::vm::{DeviceAccess, Fault, Machine, Status, VirtualMachine};

/// A machine with no devices: every access outside memory is unmapped.
struct Bare {
    dumps: usize,
}

impl Machine for Bare {
    fn write_u32(&mut self, _addr: u32, _value: u32, _dma: &mut DirectMemoryAccess) -> Result<(), Fault> {
        Err(Fault::UnmappedAddress)
    }
    fn read_u32(&mut self, _addr: u32, _dma: &mut DirectMemoryAccess) -> Result<u32, Fault> {
        Err(Fault::UnmappedAddress)
    }
    fn write_u8(&mut self, _addr: u32, _value: u8, _dma: &mut DirectMemoryAccess) -> Result<(), Fault> {
        Err(Fault::UnmappedAddress)
    }
    fn read_u8(&mut self, _addr: u32, _dma: &mut DirectMemoryAccess) -> Result<u8, Fault> {
        Err(Fault::UnmappedAddress)
    }
    fn dump(&mut self, _ip: u32, _stack: Vec<u32>, _rstack: Vec<u32>) {
        self.dumps += 1;
    }
}

fn litw(v: u32) -> Vec<u8> {
    let mut b = vec![OP_LITW];
    b.extend_from_slice(&v.to_le_bytes());
    b
}

fn run_source(src: &str) -> (VirtualMachine, Result<(), fox::vm::Trap>) {
    let image = assemble_source(src).expect("assembles");
    let mut vm = VirtualMachine::new();
    vm.load(&image);
    let r = vm.run(&mut Bare { dumps: 0 }, RESET_VECTOR);
    (vm, r)
}

fn run_bytes(code: &[u8]) -> (VirtualMachine, Result<(), fox::vm::Trap>) {
    let mut vm = VirtualMachine::new();
    vm.load(code);
    let r = vm.run(&mut Bare { dumps: 0 }, RESET_VECTOR);
    (vm, r)
}

#[test]
fn smoke_assembles_and_runs() {
    let image = assemble_source("|100 @main #5 #3 ADD HALT").unwrap();
    assert_eq!(image, vec![0x10, 0x05, 0x00, 0x00, 0x00, 0x10, 0x03, 0x00, 0x00, 0x00, 0x20, 0x00]);
    let (vm, r) = run_source("|100 @main #5 #3 ADD HALT");
    assert!(r.is_ok());
    assert_eq!(vm.stack(), vec![8]);
    assert_eq!(vm.ip(), 0x100 + 12);
}

#[test]
fn jz_jumps_on_zero() {
    let src = "|100 #0 ;target JZ #1 HALT @target #2 HALT";
    let image = assemble_source(src).unwrap();
    let mut vm = VirtualMachine::new();
    vm.load(&image);
    let mut m = Bare { dumps: 0 };
    // LITW 0, LITW target, JZ
    for _ in 0..3 {
        assert_eq!(vm.step(&mut m), Ok(Status::Running));
    }
    let target = 0x100 + 5 + 5 + 1 + 5 + 1;
    assert_eq!(vm.ip(), target);
    let (vm, r) = run_source(src);
    assert!(r.is_ok());
    assert_eq!(vm.stack(), vec![2]);
}

#[test]
fn jz_falls_through_on_one() {
    let (vm, r) = run_source("|100 #1 ;target JZ #1 HALT @target #2 HALT");
    assert!(r.is_ok());
    assert_eq!(vm.stack(), vec![1]);
    let (vm, r) = run_source("|100 #1 ;target JNZ #1 HALT @target #2 HALT");
    assert!(r.is_ok());
    assert_eq!(vm.stack(), vec![2]);
}

#[test]
fn call_and_ret_balance() {
    let src = "|100 #7 ;sub CALL HALT @sub #1 DROP RET";
    let image = assemble_source(src).unwrap();
    let mut vm = VirtualMachine::new();
    vm.load(&image);
    let mut m = Bare { dumps: 0 };
    assert_eq!(vm.step(&mut m), Ok(Status::Running)); // LITW 7
    assert_eq!(vm.step(&mut m), Ok(Status::Running)); // LITW sub
    assert_eq!(vm.step(&mut m), Ok(Status::Running)); // CALL
    assert_eq!(vm.rstack(), vec![0x100 + 11]);
    assert_eq!(vm.ip(), 0x100 + 12);
    let (vm, r) = run_source(src);
    assert!(r.is_ok());
    assert_eq!(vm.stack(), vec![7]);
    assert_eq!(vm.rstack(), Vec::<u32>::new());
}

#[test]
fn litw_then_drop_keeps_memory() {
    let mut code = litw(0);
    code.push(OP_DROP);
    code.push(OP_HALT);
    let (vm, r) = run_bytes(&code);
    assert!(r.is_ok());
    let mut fresh = VirtualMachine::new();
    fresh.load(&code);
    let mut vm = vm;
    let a = vm.dma().read_vec(SP_OFFSET as u32, 1024);
    let b = fresh.dma().read_vec(SP_OFFSET as u32, 1024);
    assert_eq!(a, b);
    assert_eq!(vm.stack(), Vec::<u32>::new());
}

#[test]
fn litw_then_drop_leaves_word_in_free_slot() {
    let mut code = litw(0xDEAD_BEEF);
    code.push(OP_DROP);
    code.push(OP_HALT);
    let (mut vm, r) = run_bytes(&code);
    assert!(r.is_ok());
    assert_eq!(vm.dma().read_u32(SP_OFFSET as u32), 0xDEAD_BEEF);
}

#[test]
fn equal_words_compare_equal() {
    for v in [0u32, 1, 0x8000_0000, u32::MAX] {
        let mut code = litw(v);
        code.extend(litw(v));
        code.push(OP_EQU);
        code.push(OP_HALT);
        let (vm, r) = run_bytes(&code);
        assert!(r.is_ok());
        assert_eq!(vm.stack(), vec![1]);
    }
}

#[test]
fn division_rounding_is_stable() {
    for (a, b) in [(7u32, 2u32), (100, 7), (u32::MAX, 3), (5, 9), (0, 1)] {
        let mut code = Vec::new();
        for _ in 0..2 {
            code.extend(litw(a));
            code.extend(litw(b));
            code.push(OP_DIV);
            code.extend(litw(b));
            code.push(OP_MUL);
        }
        code.push(OP_SUB);
        code.push(OP_HALT);
        let (vm, r) = run_bytes(&code);
        assert!(r.is_ok());
        assert_eq!(vm.stack(), vec![0]);
    }
}

#[test]
fn arithmetic_wraps() {
    let (vm, _) = run_source("|100 #FFFFFFFF #2 ADD #0 #1 SUB #10000 #10000 MUL #7 #2 DIV HALT");
    assert_eq!(vm.stack(), vec![1, 0xFFFF_FFFF, 0, 3]);
    let (vm, _) = run_source("|100 #0 DEC #FFFFFFFF INC #F0 NOT HALT");
    assert_eq!(vm.stack(), vec![0xFFFF_FFFF, 0, 0xFFFF_FF0F]);
}

#[test]
fn logic_and_shifts() {
    let (vm, _) = run_source("|100 #C #A AND #C #A OR #C #A XOR HALT");
    assert_eq!(vm.stack(), vec![8, 14, 6]);
    let (vm, _) = run_source("|100 #1 #4 SHL #80 #4 SHR #1 #20 SHL #80000000 #20 SHR HALT");
    assert_eq!(vm.stack(), vec![16, 8, 0, 0]);
    let (vm, _) = run_source("|100 #80000000 #4 SAR #80000000 #28 SAR #40000000 #28 SAR #10 #1 SAR HALT");
    assert_eq!(vm.stack(), vec![0xF800_0000, 0xFFFF_FFFF, 0, 8]);
}

#[test]
fn comparisons_are_unsigned() {
    let (vm, _) = run_source("|100 #1 #2 LT #2 #1 GT #2 #2 LTE #1 #2 GTE #1 #2 NEQ #FFFFFFFF #1 LT HALT");
    assert_eq!(vm.stack(), vec![1, 1, 1, 0, 1, 0]);
}

#[test]
fn stack_shuffles() {
    let (vm, _) = run_source("|100 #1 #2 SWAP HALT");
    assert_eq!(vm.stack(), vec![2, 1]);
    let (vm, _) = run_source("|100 #1 #2 OVER HALT");
    assert_eq!(vm.stack(), vec![1, 2, 1]);
    let (vm, _) = run_source("|100 #1 #2 #3 ROT HALT");
    assert_eq!(vm.stack(), vec![2, 3, 1]);
    let (vm, _) = run_source("|100 #a #b #c #0 PICK #2 PICK DUP HALT");
    assert_eq!(vm.stack(), vec![0xa, 0xb, 0xc, 0xc, 0xb, 0xb]);
    let (vm, _) = run_source("|100 .16 .7f HALT");
    assert_eq!(vm.stack(), vec![0x7f]);
}

#[test]
fn memory_loads_and_stores() {
    let (vm, _) = run_source("|100 #12345678 #2000 SW #2000 LW #2001 LB #AB #3000 SB #3000 LW HALT");
    assert_eq!(vm.stack(), vec![0x1234_5678, 0x56, 0xAB]);
}

#[test]
fn return_stack_transfers() {
    let (vm, _) = run_source("|100 #5 RPUSH #6 RPUSH RPEEK RPOP RDROP HALT");
    assert_eq!(vm.stack(), vec![6, 6]);
    assert_eq!(vm.rstack(), Vec::<u32>::new());
}

#[test]
fn locals_frame() {
    let (vm, _) = run_source("|100 #2 BEGIN #a #0 SET #b #1 SET #0 GET #1 GET #2 END HALT");
    assert_eq!(vm.stack(), vec![0xa, 0xb]);
    let (_, r) = run_source("|100 #1 BEGIN #1 GET HALT");
    assert_eq!(r.unwrap_err().fault, Fault::LocalsOutOfRange);
    let (_, r) = run_source("|100 #101 BEGIN HALT");
    assert_eq!(r.unwrap_err().fault, Fault::LocalsOverflow);
    let (_, r) = run_source("|100 #1 END HALT");
    assert_eq!(r.unwrap_err().fault, Fault::LocalsOutOfRange);
}

#[test]
fn faults_report_opcode_and_ip() {
    let (vm, r) = run_source("|100 #1 #0 DIV HALT");
    let t = r.unwrap_err();
    assert_eq!(t.fault, Fault::DivisionByZero);
    assert_eq!(t.opcode, OP_DIV);
    assert_eq!(t.ip, 0x100 + 10);
    assert_eq!(vm.stack(), vec![1, 0]);
    let (_, r) = run_bytes(&[0xFF]);
    assert_eq!(r.unwrap_err(), fox::vm::Trap { fault: Fault::UnknownOpcode, opcode: 0xFF, ip: 0x100 });
    let (_, r) = run_source("|100 ADD");
    assert_eq!(r.unwrap_err().fault, Fault::StackUnderflow);
    let (_, r) = run_source("|100 RET");
    assert_eq!(r.unwrap_err().fault, Fault::ReturnUnderflow);
    let (_, r) = run_source("|100 #1000000 JMP");
    assert_eq!(r.unwrap_err().fault, Fault::JumpOutOfRange);
    let (_, r) = run_source("|100 #10000000 LW");
    assert_eq!(r.unwrap_err().fault, Fault::UnmappedAddress);
    let (_, r) = run_source("|100 #0 #1 PICK");
    assert_eq!(r.unwrap_err().fault, Fault::StackUnderflow);
}

#[test]
fn operand_stack_overflows_after_256_words() {
    let mut code = Vec::new();
    for i in 0..257u32 {
        code.extend(litw(i));
    }
    code.push(OP_HALT);
    let (vm, r) = run_bytes(&code);
    let t = r.unwrap_err();
    assert_eq!(t.fault, Fault::StackOverflow);
    assert_eq!(t.ip, 0x100 + 256 * 5);
    assert_eq!(vm.stack().len(), 256);
}

#[test]
fn return_stack_overflows_after_256_words() {
    let (_, r) = run_source("|100 @loop #0 RPUSH ;loop JMP");
    assert_eq!(r.unwrap_err().fault, Fault::ReturnOverflow);
}

#[test]
fn run_from_zero_does_nothing() {
    let mut vm = VirtualMachine::new();
    let r = vm.run(&mut Bare { dumps: 0 }, 0);
    assert!(r.is_ok());
    assert_eq!(vm.ip(), RESET_VECTOR);
    let r = vm.run(&mut Bare { dumps: 0 }, MEM_SIZE as u32);
    assert_eq!(r.unwrap_err().fault, Fault::IpOutOfRange);
}

#[test]
fn dbg_hands_state_to_machine() {
    let mut vm = VirtualMachine::new();
    vm.load(&[0x01, 0x01, OP_HALT]);
    let mut m = Bare { dumps: 0 };
    assert!(vm.run(&mut m, RESET_VECTOR).is_ok());
    assert_eq!(m.dumps, 2);
}

#[test]
fn activations_share_stacks() {
    let image = assemble_source("|100 #2A HALT @second #1 ADD HALT").unwrap();
    let mut vm = VirtualMachine::new();
    vm.load(&image);
    let mut m = Bare { dumps: 0 };
    assert!(vm.run(&mut m, RESET_VECTOR).is_ok());
    assert!(vm.run(&mut m, 0x100 + 6).is_ok());
    assert_eq!(vm.stack(), vec![0x2B]);
}

/// A machine that answers word accesses only; byte accesses take the defaults.
struct WordOnly {
    last: Option<(u32, u32)>,
}

impl Machine for WordOnly {
    fn write_u32(&mut self, addr: u32, value: u32, _dma: &mut DirectMemoryAccess) -> Result<(), Fault> {
        self.last = Some((addr, value));
        Ok(())
    }
    fn read_u32(&mut self, _addr: u32, _dma: &mut DirectMemoryAccess) -> Result<u32, Fault> {
        Ok(0x1234)
    }
}

#[test]
fn byte_access_defaults_to_words() {
    let image = assemble_source("|100 #1AB #10000000 SB #10000000 LB #10000004 LW HALT").unwrap();
    let mut vm = VirtualMachine::new();
    vm.load(&image);
    let mut m = WordOnly { last: None };
    assert!(vm.run(&mut m, RESET_VECTOR).is_ok());
    assert_eq!(m.last, Some((0x1000_0000, 0xAB)));
    assert_eq!(vm.stack(), vec![0x34, 0x1234]);
}

#[test]
fn device_loads_and_stores_go_through_finish() {
    let image = assemble_source("|100 #5 #10000004 SW #10000008 LB HALT").unwrap();
    let mut vm = VirtualMachine::new();
    vm.load(&image);
    let mut m = Bare { dumps: 0 };
    assert_eq!(vm.step(&mut m), Ok(Status::Running));
    assert_eq!(vm.step(&mut m), Ok(Status::Running));
    assert_eq!(vm.device_access(), DeviceAccess::StoreWord { addr: 0x1000_0004, value: 5 });
    assert_eq!(vm.finish_store(fox::bytecode::OP_SW, Ok(())), Ok(Status::Running));
    assert_eq!(vm.stack(), Vec::<u32>::new());
    assert_eq!(vm.step(&mut m), Ok(Status::Running));
    assert_eq!(vm.device_access(), DeviceAccess::LoadByte { addr: 0x1000_0008 });
    let at = vm.ip();
    let t = vm.finish_load(fox::bytecode::OP_LB, Err(Fault::UnknownRegister)).unwrap_err();
    assert_eq!((t.fault, t.opcode, t.ip), (Fault::UnknownRegister, fox::bytecode::OP_LB, at));
    assert_eq!(vm.stack(), vec![0x1000_0008]);
    assert_eq!(vm.finish_load(fox::bytecode::OP_LB, Ok(0x41)), Ok(Status::Running));
    assert_eq!(vm.stack(), vec![0x41]);
    assert_eq!(vm.ip(), at + 1);
}
