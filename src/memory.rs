//! Memory map of the Fox machine: the linear window, the stack reservations
//! and the device pages with their registers.
use vstd::prelude::*;

verus! {

/// Size of the linear memory window (16 MiB).
pub const MEM_SIZE: usize = 0x0100_0000;
/// Bytes reserved for each of the three stacks.
pub const STACK_SIZE: usize = 1024;
/// Base of the operand stack (the top KiB of memory).
pub const SP_OFFSET: usize = 0x00FF_FC00;
/// Base of the return stack (the KiB under the operand stack).
pub const RP_OFFSET: usize = 0x00FF_F800;
/// Base of the locals stack (the KiB under the return stack).
pub const LOCAL_OFFSET: usize = 0x00FF_F400;

/// Where ROM images are loaded and where execution starts.
pub const RESET_VECTOR: u32 = 0x0000_0100;

/// Length of one device page.
pub const DEVICE_LENGTH: u32 = 0x10000;
/// Length of one screen-layer window.
pub const SCREEN_LAYER_LENGTH: u32 = 0x80000;
/// Length of the four screen-layer windows together.
pub const SCREEN_WINDOWS_LENGTH: u32 = 0x20_0000;

pub const CONSOLE_BASE: u32 = 0x1000_0000;
pub const SYSTEM_BASE: u32 = 0x1001_0000;
pub const SCREEN_BASE: u32 = 0x1002_0000;
pub const FILE0_BASE: u32 = 0x1003_0000;
pub const FILE1_BASE: u32 = 0x1004_0000;
pub const MOUSE_BASE: u32 = 0x1005_0000;
pub const KEYBOARD_BASE: u32 = 0x1006_0000;

// Console registers, relative to CONSOLE_BASE.
pub const CONSOLE_VECTOR: u32 = 0x0000;
pub const CONSOLE_WRITE: u32 = 0x0004;
pub const CONSOLE_READ: u32 = 0x0008;
pub const CONSOLE_ERROR: u32 = 0x000C;

// System registers, relative to SYSTEM_BASE.
pub const SYSTEM_VECTOR: u32 = 0x0000;
/// Records an exit code that the host acts on after the current vector.
pub const SYSTEM_EXIT: u32 = 0x0004;
/// Yields the argument bytes, each argument ended by a NUL, then 0 forever.
pub const SYSTEM_READ: u32 = 0x0008;

// Screen registers, absolute.
pub const SCREEN_VECTOR: u32 = 0x1002_0000;
pub const SCREEN_WIDTH: u32 = 0x1002_0004;
pub const SCREEN_HEIGHT: u32 = 0x1002_0008;
pub const SCREEN_CMD_LENGTH: u32 = 0x1002_000C;
pub const SCREEN_CMD_ADDR: u32 = 0x1002_0010;
pub const SCREEN_ZOOM: u32 = 0x1002_0014;
pub const SCREEN_PALETTE0: u32 = 0x1002_0018;
pub const SCREEN_PALETTE15: u32 = 0x1002_0054;

// Screen layer windows, absolute.
pub const SCREEN_LAYER0: u32 = 0x2000_0000;
pub const SCREEN_LAYER1: u32 = 0x2008_0000;
pub const SCREEN_LAYER2: u32 = 0x2010_0000;
pub const SCREEN_LAYER3: u32 = 0x2018_0000;

// Fields of a 16-byte sprite command, relative to the command's address.
pub const COMMAND_X: u32 = 0x0;
pub const COMMAND_Y: u32 = 0x4;
pub const COMMAND_SOURCE: u32 = 0x8;
/// Low nibble: layer; high nibble: command opcode.
pub const COMMAND_OP_LAYER: u32 = 0xC;
pub const COMMAND_FLAGS: u32 = 0xD;
/// High nibble: foreground; low nibble: background.
pub const COMMAND_COLOR: u32 = 0xE;
/// High nibble: width - 1; low nibble: height - 1, in 8-pixel tiles.
pub const COMMAND_REPEAT: u32 = 0xF;
/// Size of one command entry.
pub const COMMAND_SIZE: u32 = 16;

pub const COMMAND_CLEAR: u8 = 0x0;
pub const COMMAND_SPRITE1: u8 = 0x1;
pub const COMMAND_SPRITE4: u8 = 0x2;

pub const FLAGS_FLIP_X: u8 = 0x01;
pub const FLAGS_FLIP_Y: u8 = 0x02;
pub const FLAGS_FLIP_XY: u8 = 0x04;
pub const FLAGS_SKIP_CLEAR: u8 = 0x08;

// File registers, relative to the slot's base.
pub const FILE_VECTOR: u32 = 0x0000;
pub const FILE_FILENAME: u32 = 0x0004;
pub const FILE_LENGTH: u32 = 0x0008;
pub const FILE_APPEND: u32 = 0x000C;
pub const FILE_STATUS: u32 = 0x0010;
pub const FILE_READ: u32 = 0x0014;
pub const FILE_WRITE: u32 = 0x0018;

// Mouse registers, relative to MOUSE_BASE.
pub const MOUSE_VECTOR: u32 = 0x0000;
pub const MOUSE_X: u32 = 0x0004;
pub const MOUSE_Y: u32 = 0x0008;
pub const MOUSE_FLAGS: u32 = 0x000C;
pub const MOUSE_BUTTON: u32 = 0x0010;

pub const MOUSE_BUTTON_LEFT: u32 = 0x01;
pub const MOUSE_BUTTON_MIDDLE: u32 = 0x02;
pub const MOUSE_BUTTON_RIGHT: u32 = 0x04;
pub const MOUSE_FLAG_FOCUS: u32 = 0x01;

// Keyboard registers, relative to KEYBOARD_BASE.
pub const KEYBOARD_VECTOR: u32 = 0x0000;
pub const KEYBOARD_CODEPOINT: u32 = 0x0004;
pub const KEYBOARD_BUTTONS: u32 = 0x0008;

pub const KEYBOARD_BUTTON_LEFT: u32 = 0x01;
pub const KEYBOARD_BUTTON_RIGHT: u32 = 0x02;
pub const KEYBOARD_BUTTON_UP: u32 = 0x04;
pub const KEYBOARD_BUTTON_DOWN: u32 = 0x08;

} // verus!
