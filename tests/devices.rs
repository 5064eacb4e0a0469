use std::sync::mpsc::channel;

use fox::assembler::assemble_source;
use fox::console::ConsoleDevice;
use fox::device::{match_device, route, Device, DeviceId};
use fox::dma::DirectMemoryAccess;
use fox::file::{FileDevice, FileRequest};
use fox::keyboard::{Key, KeyboardDevice};
use fox::memory::{
    CONSOLE_BASE, CONSOLE_ERROR, CONSOLE_READ, CONSOLE_VECTOR, CONSOLE_WRITE, FILE0_BASE,
    FILE_APPEND, FILE_FILENAME, FILE_LENGTH, FILE_READ, FILE_STATUS, FILE_WRITE, KEYBOARD_BASE,
    KEYBOARD_BUTTONS, KEYBOARD_CODEPOINT, KEYBOARD_VECTOR, MOUSE_BASE, MOUSE_BUTTON, MOUSE_FLAGS, MOUSE_X,
    MOUSE_Y, RESET_VECTOR, SYSTEM_BASE, SYSTEM_EXIT, SYSTEM_READ,
};
use fox::mouse::MouseDevice;
use fox::system::SystemDevice;
use fox::vm::{Fault, Machine, VirtualMachine};

struct EchoMachine {
    console: ConsoleDevice,
    system: SystemDevice,
}

impl Machine for EchoMachine {
    fn write_u32(&mut self, addr: u32, value: u32, dma: &mut DirectMemoryAccess) -> Result<(), Fault> {
        match route(addr) {
            Some(DeviceId::Console) => self.console.write_u32(addr, value, dma),
            Some(DeviceId::System) => self.system.write_u32(addr, value, dma),
            _ => Err(Fault::UnmappedAddress),
        }
    }
    fn read_u32(&mut self, addr: u32, dma: &mut DirectMemoryAccess) -> Result<u32, Fault> {
        match route(addr) {
            Some(DeviceId::Console) => self.console.read_u32(addr, dma),
            Some(DeviceId::System) => self.system.read_u32(addr, dma),
            _ => Err(Fault::UnmappedAddress),
        }
    }
    fn write_u8(&mut self, addr: u32, value: u8, dma: &mut DirectMemoryAccess) -> Result<(), Fault> {
        match route(addr) {
            Some(DeviceId::Console) => self.console.write_u8(addr, value, dma),
            Some(DeviceId::System) => self.system.write_u8(addr, value, dma),
            _ => Err(Fault::UnmappedAddress),
        }
    }
    fn read_u8(&mut self, addr: u32, dma: &mut DirectMemoryAccess) -> Result<u8, Fault> {
        match route(addr) {
            Some(DeviceId::Console) => self.console.read_u8(addr, dma),
            Some(DeviceId::System) => self.system.read_u8(addr, dma),
            _ => Err(Fault::UnmappedAddress),
        }
    }
}

#[test]
fn console_echo_until_newline() {
    let src = "|100 ;echo #10000000 SW HALT \
               @echo #10000008 LW DUP #10000004 SW #a EQU ;quit JNZ HALT \
               @quit #0 #10010004 SW HALT";
    let image = assemble_source(src).unwrap();
    let mut vm = VirtualMachine::new();
    vm.load(&image);
    let (_tx, rx) = channel();
    let mut m = EchoMachine { console: ConsoleDevice::new(rx), system: SystemDevice::new(&vec![]) };
    vm.run(&mut m, RESET_VECTOR).unwrap();
    assert_ne!(m.console.vector, 0);
    let mut out = Vec::new();
    for b in b"ab\n" {
        assert_eq!(m.system.exit, None);
        m.console.accept(*b);
        let vector = m.console.vector;
        vm.run(&mut m, vector).unwrap();
        out.extend(m.console.take_output());
    }
    assert_eq!(out, b"ab\n".to_vec());
    assert_eq!(m.system.exit, Some(0));
}

#[test]
fn console_registers() {
    let (_tx, rx) = channel();
    let mut console = ConsoleDevice::new(rx);
    let mut dma = DirectMemoryAccess::new();
    console.write_u32(CONSOLE_BASE + CONSOLE_VECTOR, 0x400, &mut dma).unwrap();
    console.write_u32(CONSOLE_BASE + CONSOLE_WRITE, 0x141, &mut dma).unwrap();
    console.write_u8(CONSOLE_BASE + CONSOLE_ERROR, 0x45, &mut dma).unwrap();
    console.accept(0x7A);
    assert_eq!(console.read_u32(CONSOLE_BASE + CONSOLE_READ, &mut dma), Ok(0x7A));
    assert_eq!(console.read_u8(CONSOLE_BASE + CONSOLE_READ, &mut dma), Ok(0x7A));
    assert_eq!(console.read_u32(CONSOLE_BASE + CONSOLE_VECTOR, &mut dma), Ok(0x400));
    assert_eq!(console.take_output(), vec![0x41]);
    assert_eq!(console.take_output(), Vec::<u8>::new());
    assert_eq!(console.take_errors(), vec![0x45]);
    assert_eq!(console.read_u32(CONSOLE_BASE + 0x20, &mut dma), Err(Fault::UnknownRegister));
}

#[test]
fn console_receives_from_channel() {
    let (tx, rx) = channel();
    let mut console = ConsoleDevice::new(rx);
    let dma = &mut DirectMemoryAccess::new();
    assert!(!console.read_nonblock());
    tx.send(0x31).unwrap();
    assert!(console.read_nonblock());
    assert_eq!(console.read_u32(CONSOLE_BASE + CONSOLE_READ, dma), Ok(0x31));
    tx.send(0x32).unwrap();
    assert!(console.read_block());
    assert_eq!(console.read_u32(CONSOLE_BASE + CONSOLE_READ, dma), Ok(0x32));
    drop(tx);
    assert!(!console.read_block());
    assert!(!console.read_nonblock());
    assert_eq!(console.read_u32(CONSOLE_BASE + CONSOLE_READ, dma), Ok(0x32));
}

#[test]
fn system_hands_out_arguments() {
    let args = vec![b"ab".to_vec(), b"c".to_vec()];
    let mut system = SystemDevice::new(&args);
    let mut dma = DirectMemoryAccess::new();
    let mut got = Vec::new();
    for _ in 0..7 {
        got.push(system.read_u8(SYSTEM_BASE + SYSTEM_READ, &mut dma).unwrap());
    }
    assert_eq!(got, vec![b'a', b'b', 0, b'c', 0, 0, 0]);
    assert_eq!(system.read_u32(SYSTEM_BASE + SYSTEM_READ, &mut dma), Ok(0));
    assert_eq!(system.exit, None);
    system.write_u32(SYSTEM_BASE + SYSTEM_EXIT, 3, &mut dma).unwrap();
    assert_eq!(system.exit, Some(3));
    assert_eq!(system.write_u8(SYSTEM_BASE + SYSTEM_EXIT, 3, &mut dma), Err(Fault::UnknownRegister));
}

#[test]
fn mouse_registers() {
    let mut mouse = MouseDevice::new();
    let mut dma = DirectMemoryAccess::new();
    mouse.set_position((12, 34));
    mouse.set_entered(true);
    mouse.set_left(true);
    mouse.set_right(true);
    assert_eq!(mouse.read_u32(MOUSE_BASE + MOUSE_X, &mut dma), Ok(12));
    assert_eq!(mouse.read_u32(MOUSE_BASE + MOUSE_Y, &mut dma), Ok(34));
    assert_eq!(mouse.read_u32(MOUSE_BASE + MOUSE_FLAGS, &mut dma), Ok(1));
    assert_eq!(mouse.read_u32(MOUSE_BASE + MOUSE_BUTTON, &mut dma), Ok(0x05));
    mouse.set_left(false);
    mouse.set_middle(true);
    mouse.set_entered(false);
    assert_eq!(mouse.button(), 0x06);
    assert_eq!(mouse.flags(), 0);
    mouse.write_u32(MOUSE_BASE, 0x500, &mut dma).unwrap();
    assert_eq!(mouse.vector, 0x500);
    assert_eq!(mouse.write_u32(MOUSE_BASE + MOUSE_X, 1, &mut dma), Err(Fault::UnknownRegister));
    assert_eq!(mouse.read_u8(MOUSE_BASE, &mut dma), Err(Fault::UnknownRegister));
}

#[test]
fn keyboard_registers() {
    let mut keyboard = KeyboardDevice::new();
    let mut dma = DirectMemoryAccess::new();
    keyboard.on_key(Key::Left, true);
    keyboard.on_key(Key::Down, true);
    keyboard.on_key(Key::Up, false);
    assert_eq!(keyboard.read_u32(KEYBOARD_BASE + KEYBOARD_BUTTONS, &mut dma), Ok(0x09));
    keyboard.on_key(Key::Left, false);
    assert_eq!(keyboard.read_u32(KEYBOARD_BASE + KEYBOARD_BUTTONS, &mut dma), Ok(0x08));
    keyboard.on_char('λ');
    assert_eq!(keyboard.read_u32(KEYBOARD_BASE + KEYBOARD_CODEPOINT, &mut dma), Ok(0x3BB));
    keyboard.write_u32(KEYBOARD_BASE + KEYBOARD_CODEPOINT, 5, &mut dma).unwrap();
    assert_eq!(keyboard.read_u32(KEYBOARD_BASE + KEYBOARD_CODEPOINT, &mut dma), Ok(0x3BB));
    keyboard.write_u32(KEYBOARD_BASE + KEYBOARD_VECTOR, 0x600, &mut dma).unwrap();
    assert_eq!(keyboard.vector, 0x600);
    assert_eq!(Key::Right.flag(), 0x02);
    assert_eq!(Key::Up.flag(), 0x04);
}

#[test]
fn file_read_request_and_completion() {
    let mut dma = DirectMemoryAccess::new();
    dma.write_str(0x500, "save.dat");
    let mut file = FileDevice::new(FILE0_BASE);
    file.write_u32(FILE0_BASE + FILE_FILENAME, 0x500, &mut dma).unwrap();
    assert_eq!(file.filename(), b"save.dat");
    file.write_u32(FILE0_BASE + FILE_LENGTH, 4, &mut dma).unwrap();
    file.write_u32(FILE0_BASE + FILE_READ, 0x600, &mut dma).unwrap();
    assert_eq!(file.pending(), Some(FileRequest::Read { reopen: true, dest: 0x600 }));
    file.finish_read(Some(vec![1, 2, 3]), &mut dma).unwrap();
    assert_eq!(file.pending(), None);
    assert_eq!(file.read_u32(FILE0_BASE + FILE_STATUS, &mut dma), Ok(3));
    assert_eq!(dma.read_vec(0x600, 4), vec![1, 2, 3, 0]);
    file.write_u32(FILE0_BASE + FILE_READ, 0x600, &mut dma).unwrap();
    assert_eq!(file.pending(), Some(FileRequest::Read { reopen: false, dest: 0x600 }));
    file.finish_read(None, &mut dma).unwrap();
    assert_eq!(file.read_u32(FILE0_BASE + FILE_STATUS, &mut dma), Ok(0));
    assert_eq!(file.finish_read(None, &mut dma), Err(Fault::UnknownRegister));
}

#[test]
fn file_write_request_and_completion() {
    let mut dma = DirectMemoryAccess::new();
    dma.write(0x700, &[9, 8, 7]);
    let mut file = FileDevice::new(FILE0_BASE);
    file.write_u32(FILE0_BASE + FILE_APPEND, 1, &mut dma).unwrap();
    assert_eq!(file.read_u32(FILE0_BASE + FILE_APPEND, &mut dma), Ok(1));
    file.write_u32(FILE0_BASE + FILE_LENGTH, 3, &mut dma).unwrap();
    file.write_u32(FILE0_BASE + FILE_WRITE, 0x700, &mut dma).unwrap();
    assert_eq!(file.pending(), Some(FileRequest::Write { reopen: true, append: true }));
    assert_eq!(file.buffer(), &[9, 8, 7]);
    file.finish_write(true).unwrap();
    assert_eq!(file.read_u32(FILE0_BASE + FILE_STATUS, &mut dma), Ok(3));
    file.write_u32(FILE0_BASE + FILE_WRITE, 0x700, &mut dma).unwrap();
    assert_eq!(file.pending(), Some(FileRequest::Write { reopen: false, append: true }));
    file.finish_write(false).unwrap();
    assert_eq!(file.read_u32(FILE0_BASE + FILE_STATUS, &mut dma), Ok(0));
    assert_eq!(file.write_u32(FILE0_BASE + FILE_LENGTH, 0x0100_0001, &mut dma), Err(Fault::MemoryOutOfRange));
    assert_eq!(file.write_u32(FILE0_BASE + FILE_WRITE, 0x00FF_FFFF, &mut dma), Err(Fault::MemoryOutOfRange));
}

#[test]
fn match_device_finds_first_range() {
    let ranges = [(0x1000_0000u32, 0x10000u32), (0x1001_0000, 0x10000), (0x2000_0000, 0x80000)];
    assert_eq!(match_device(&ranges, 0x1000_0004), 0);
    assert_eq!(match_device(&ranges, 0x1001_FFFF), 1);
    assert_eq!(match_device(&ranges, 0x2007_FFFF), 2);
    assert_eq!(match_device(&ranges, 0x2008_0000), u32::MAX);
    assert_eq!(match_device(&ranges, 0), u32::MAX);
    assert_eq!(match_device(&[(0xFFFF_FFF0, 0x20)], 0xFFFF_FFFF), 0);
}

#[test]
fn route_follows_memory_map() {
    assert_eq!(route(0x1000_0008), Some(DeviceId::Console));
    assert_eq!(route(0x1001_0004), Some(DeviceId::System));
    assert_eq!(route(0x1002_0054), Some(DeviceId::Screen));
    assert_eq!(route(0x201F_FFFF), Some(DeviceId::Screen));
    assert_eq!(route(0x2020_0000), None);
    assert_eq!(route(0x1003_0000), Some(DeviceId::File0));
    assert_eq!(route(0x1004_0018), Some(DeviceId::File1));
    assert_eq!(route(0x1005_0010), Some(DeviceId::Mouse));
    assert_eq!(route(0x1006_0008), Some(DeviceId::Keyboard));
    assert_eq!(route(0x1007_0000), None);
    assert_eq!(route(0x00FF_FFFE), None);
}
