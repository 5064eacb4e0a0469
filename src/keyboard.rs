//! The keyboard device: the last character typed and the arrow-key state.
use vstd::prelude::*;
use crate::device::{Device, write_outcome};
use crate::dma::DirectMemoryAccess;
use crate::memory::{
    KEYBOARD_BASE, KEYBOARD_VECTOR, KEYBOARD_CODEPOINT, KEYBOARD_BUTTONS, KEYBOARD_BUTTON_LEFT,
    KEYBOARD_BUTTON_RIGHT, KEYBOARD_BUTTON_UP, KEYBOARD_BUTTON_DOWN,
};
use crate::vm::Fault;

verus! {

/// The keys that the BUTTONS register reports.
#[derive(Debug, Clone, Copy, PartialEq, Eq, Structural)]
pub enum Key {
    Left,
    Right,
    Up,
    Down,
}

/// The bit of `k` in the BUTTONS register.
pub open spec fn key_flag(k: Key) -> u32 {
    match k {
        Key::Left => KEYBOARD_BUTTON_LEFT,
        Key::Right => KEYBOARD_BUTTON_RIGHT,
        Key::Up => KEYBOARD_BUTTON_UP,
        Key::Down => KEYBOARD_BUTTON_DOWN,
    }
}

impl Key {
    /// The bit of this key in the BUTTONS register.
    pub fn flag(&self) -> (r: u32)
        ensures
            r == key_flag(*self),
    {
        match self {
            Key::Left => KEYBOARD_BUTTON_LEFT,
            Key::Right => KEYBOARD_BUTTON_RIGHT,
            Key::Up => KEYBOARD_BUTTON_UP,
            Key::Down => KEYBOARD_BUTTON_DOWN,
        }
    }
}

pub struct KeyboardView {
    pub vector: u32,
    pub buttons: u32,
    pub codepoint: u32,
}

/// The word read from keyboard register `addr`.
pub open spec fn keyboard_read_spec(v: KeyboardView, addr: u32) -> Result<u32, Fault> {
    if addr == KEYBOARD_BASE + KEYBOARD_VECTOR {
        Ok(v.vector)
    } else if addr == KEYBOARD_BASE + KEYBOARD_CODEPOINT {
        Ok(v.codepoint)
    } else if addr == KEYBOARD_BASE + KEYBOARD_BUTTONS {
        Ok(v.buttons)
    } else {
        Err(Fault::UnknownRegister)
    }
}

/// The effect of a word written to keyboard register `addr`: VECTOR is
/// stored; CODEPOINT and BUTTONS ignore writes.
pub open spec fn keyboard_write_spec(v: KeyboardView, addr: u32, value: u32) -> Result<KeyboardView, Fault> {
    if addr == KEYBOARD_BASE + KEYBOARD_VECTOR {
        Ok(KeyboardView { vector: value, ..v })
    } else if addr == KEYBOARD_BASE + KEYBOARD_CODEPOINT || addr == KEYBOARD_BASE + KEYBOARD_BUTTONS {
        Ok(v)
    } else {
        Err(Fault::UnknownRegister)
    }
}

pub struct KeyboardDevice {
    pub vector: u32,
    buttons: u32,
    codepoint: u32,
}

impl View for KeyboardDevice {
    type V = KeyboardView;

    closed spec fn view(&self) -> KeyboardView {
        KeyboardView { vector: self.vector, buttons: self.buttons, codepoint: self.codepoint }
    }
}

impl KeyboardDevice {
    pub fn new() -> (r: Self)
        ensures
            r@ == (KeyboardView { vector: 0, buttons: 0, codepoint: 0 }),
    {
        KeyboardDevice { vector: 0, buttons: 0, codepoint: 0 }
    }

    /// Sets or clears the bit of `key` in BUTTONS.
    pub fn on_key(&mut self, key: Key, pressed: bool)
        ensures
            final(self)@ == (KeyboardView {
                buttons: if pressed { old(self)@.buttons | key_flag(key) } else { old(self)@.buttons & !key_flag(key) },
                ..old(self)@
            }),
    {
        let flag = key.flag();
        self.buttons = if pressed { self.buttons | flag } else { self.buttons & !flag };
    }

    /// Records `value` as the last character typed.
    pub fn on_char(&mut self, value: char)
        ensures
            final(self)@ == (KeyboardView { codepoint: value as u32, ..old(self)@ }),
    {
        self.codepoint = value as u32;
    }

    /// Reads a keyboard register (see `keyboard_read_spec`).
    pub fn read_register(&self, addr: u32) -> (r: Result<u32, Fault>)
        ensures
            r == keyboard_read_spec(self@, addr),
    {
        if addr == KEYBOARD_BASE + KEYBOARD_VECTOR {
            Ok(self.vector)
        } else if addr == KEYBOARD_BASE + KEYBOARD_CODEPOINT {
            Ok(self.codepoint)
        } else if addr == KEYBOARD_BASE + KEYBOARD_BUTTONS {
            Ok(self.buttons)
        } else {
            Err(Fault::UnknownRegister)
        }
    }

    /// Writes a keyboard register (see `keyboard_write_spec`).
    pub fn write_register(&mut self, addr: u32, value: u32) -> (r: Result<(), Fault>)
        ensures
            write_outcome(old(self)@, final(self)@, keyboard_write_spec(old(self)@, addr, value), r),
    {
        if addr == KEYBOARD_BASE + KEYBOARD_VECTOR {
            self.vector = value;
            Ok(())
        } else if addr == KEYBOARD_BASE + KEYBOARD_CODEPOINT || addr == KEYBOARD_BASE + KEYBOARD_BUTTONS {
            Ok(())
        } else {
            Err(Fault::UnknownRegister)
        }
    }
}

impl Device for KeyboardDevice {
    open spec fn wf(&self) -> bool {
        true
    }

    open spec fn read_u8_post(&self, new: &Self, mem: Seq<u8>, addr: u32, r: Result<u8, Fault>) -> bool {
        new@ == self@ && r == Err::<u8, Fault>(Fault::UnknownRegister)
    }

    open spec fn write_u8_post(&self, new: &Self, mem: Seq<u8>, addr: u32, value: u8, r: Result<(), Fault>) -> bool {
        new@ == self@ && r == Err::<(), Fault>(Fault::UnknownRegister)
    }

    open spec fn read_u32_post(&self, new: &Self, mem: Seq<u8>, addr: u32, r: Result<u32, Fault>) -> bool {
        new@ == self@ && r == keyboard_read_spec(self@, addr)
    }

    open spec fn write_u32_post(&self, new: &Self, mem: Seq<u8>, addr: u32, value: u32, r: Result<(), Fault>) -> bool {
        write_outcome(self@, new@, keyboard_write_spec(self@, addr, value), r)
    }

    fn read_u8(&mut self, addr: u32, dma: &mut DirectMemoryAccess) -> (r: Result<u8, Fault>) {
        Err(Fault::UnknownRegister)
    }

    fn write_u8(&mut self, addr: u32, value: u8, dma: &mut DirectMemoryAccess) -> (r: Result<(), Fault>) {
        Err(Fault::UnknownRegister)
    }

    fn read_u32(&mut self, addr: u32, dma: &mut DirectMemoryAccess) -> (r: Result<u32, Fault>) {
        self.read_register(addr)
    }

    fn write_u32(&mut self, addr: u32, value: u32, dma: &mut DirectMemoryAccess) -> (r: Result<(), Fault>) {
        self.write_register(addr, value)
    }
}

} // verus!
