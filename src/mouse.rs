//! The mouse device: pointer position, focus and buttons.
use vstd::prelude::*;
use crate::device::{Device, write_outcome};
use crate::dma::DirectMemoryAccess;
use crate::memory::{
    MOUSE_BASE, MOUSE_VECTOR, MOUSE_X, MOUSE_Y, MOUSE_FLAGS, MOUSE_BUTTON, MOUSE_BUTTON_LEFT,
    MOUSE_BUTTON_MIDDLE, MOUSE_BUTTON_RIGHT, MOUSE_FLAG_FOCUS,
};
use crate::vm::Fault;

verus! {

pub struct MouseView {
    pub vector: u32,
    pub focus: bool,
    pub x: u32,
    pub y: u32,
    pub left: bool,
    pub right: bool,
    pub middle: bool,
}

/// The FLAGS register: bit 0 is set while the pointer is inside the window.
pub open spec fn mouse_flags(v: MouseView) -> u32 {
    if v.focus { MOUSE_FLAG_FOCUS } else { 0 }
}

/// The BUTTON register: left 0x01, middle 0x02, right 0x04.
pub open spec fn mouse_buttons(v: MouseView) -> u32 {
    ((if v.left { MOUSE_BUTTON_LEFT } else { 0 }) + (if v.middle { MOUSE_BUTTON_MIDDLE } else { 0 })
        + (if v.right { MOUSE_BUTTON_RIGHT } else { 0 })) as u32
}

/// The word read from mouse register `addr`.
pub open spec fn mouse_read_spec(v: MouseView, addr: u32) -> Result<u32, Fault> {
    if addr == MOUSE_BASE + MOUSE_VECTOR {
        Ok(v.vector)
    } else if addr == MOUSE_BASE + MOUSE_X {
        Ok(v.x)
    } else if addr == MOUSE_BASE + MOUSE_Y {
        Ok(v.y)
    } else if addr == MOUSE_BASE + MOUSE_FLAGS {
        Ok(mouse_flags(v))
    } else if addr == MOUSE_BASE + MOUSE_BUTTON {
        Ok(mouse_buttons(v))
    } else {
        Err(Fault::UnknownRegister)
    }
}

/// The effect of a word written to mouse register `addr`: only VECTOR is writable.
pub open spec fn mouse_write_spec(v: MouseView, addr: u32, value: u32) -> Result<MouseView, Fault> {
    if addr == MOUSE_BASE + MOUSE_VECTOR { Ok(MouseView { vector: value, ..v }) } else { Err(Fault::UnknownRegister) }
}

pub struct MouseDevice {
    pub vector: u32,
    focus: bool,
    x: u32,
    y: u32,
    left: bool,
    right: bool,
    middle: bool,
}

impl View for MouseDevice {
    type V = MouseView;

    closed spec fn view(&self) -> MouseView {
        MouseView {
            vector: self.vector,
            focus: self.focus,
            x: self.x,
            y: self.y,
            left: self.left,
            right: self.right,
            middle: self.middle,
        }
    }
}

impl MouseDevice {
    /// A mouse outside the window with no button held.
    pub fn new() -> (r: Self)
        ensures
            r@ == (MouseView { vector: 0, focus: false, x: 0, y: 0, left: false, right: false, middle: false }),
    {
        MouseDevice { vector: 0, focus: false, x: 0, y: 0, left: false, right: false, middle: false }
    }

    /// Moves the pointer to `xy`, in virtual pixels.
    pub fn set_position(&mut self, xy: (u32, u32))
        ensures
            final(self)@ == (MouseView { x: xy.0, y: xy.1, ..old(self)@ }),
    {
        self.x = xy.0;
        self.y = xy.1;
    }

    /// Records whether the pointer is inside the window.
    pub fn set_entered(&mut self, value: bool)
        ensures
            final(self)@ == (MouseView { focus: value, ..old(self)@ }),
    {
        self.focus = value;
    }

    pub fn set_left(&mut self, pressed: bool)
        ensures
            final(self)@ == (MouseView { left: pressed, ..old(self)@ }),
    {
        self.left = pressed;
    }

    pub fn set_right(&mut self, pressed: bool)
        ensures
            final(self)@ == (MouseView { right: pressed, ..old(self)@ }),
    {
        self.right = pressed;
    }

    pub fn set_middle(&mut self, pressed: bool)
        ensures
            final(self)@ == (MouseView { middle: pressed, ..old(self)@ }),
    {
        self.middle = pressed;
    }

    /// The FLAGS register.
    pub fn flags(&self) -> (r: u32)
        ensures
            r == mouse_flags(self@),
    {
        if self.focus { MOUSE_FLAG_FOCUS } else { 0 }
    }

    /// The BUTTON register.
    pub fn button(&self) -> (r: u32)
        ensures
            r == mouse_buttons(self@),
    {
        let mut button: u32 = 0;
        if self.left {
            button = button + MOUSE_BUTTON_LEFT;
        }
        if self.middle {
            button = button + MOUSE_BUTTON_MIDDLE;
        }
        if self.right {
            button = button + MOUSE_BUTTON_RIGHT;
        }
        button
    }

    /// Reads a mouse register (see `mouse_read_spec`).
    pub fn read_register(&self, addr: u32) -> (r: Result<u32, Fault>)
        ensures
            r == mouse_read_spec(self@, addr),
    {
        if addr == MOUSE_BASE + MOUSE_VECTOR {
            Ok(self.vector)
        } else if addr == MOUSE_BASE + MOUSE_X {
            Ok(self.x)
        } else if addr == MOUSE_BASE + MOUSE_Y {
            Ok(self.y)
        } else if addr == MOUSE_BASE + MOUSE_FLAGS {
            Ok(self.flags())
        } else if addr == MOUSE_BASE + MOUSE_BUTTON {
            Ok(self.button())
        } else {
            Err(Fault::UnknownRegister)
        }
    }

    /// Writes a mouse register: only VECTOR is writable.
    pub fn write_register(&mut self, addr: u32, value: u32) -> (r: Result<(), Fault>)
        ensures
            write_outcome(old(self)@, final(self)@, mouse_write_spec(old(self)@, addr, value), r),
    {
        if addr == MOUSE_BASE + MOUSE_VECTOR {
            self.vector = value;
            Ok(())
        } else {
            Err(Fault::UnknownRegister)
        }
    }
}

impl Device for MouseDevice {
    open spec fn wf(&self) -> bool {
        true
    }

    open spec fn read_u8_post(&self, new: &Self, mem: Seq<u8>, addr: u32, r: Result<u8, Fault>) -> bool {
        new@ == self@ && r == Err::<u8, Fault>(Fault::UnknownRegister)
    }

    open spec fn write_u8_post(&self, new: &Self, mem: Seq<u8>, addr: u32, value: u8, r: Result<(), Fault>) -> bool {
        new@ == self@ && r == Err::<(), Fault>(Fault::UnknownRegister)
    }

    open spec fn read_u32_post(&self, new: &Self, mem: Seq<u8>, addr: u32, r: Result<u32, Fault>) -> bool {
        new@ == self@ && r == mouse_read_spec(self@, addr)
    }

    open spec fn write_u32_post(&self, new: &Self, mem: Seq<u8>, addr: u32, value: u32, r: Result<(), Fault>) -> bool {
        write_outcome(self@, new@, mouse_write_spec(self@, addr, value), r)
    }

    fn read_u8(&mut self, addr: u32, dma: &mut DirectMemoryAccess) -> (r: Result<u8, Fault>) {
        Err(Fault::UnknownRegister)
    }

    fn write_u8(&mut self, addr: u32, value: u8, dma: &mut DirectMemoryAccess) -> (r: Result<(), Fault>) {
        Err(Fault::UnknownRegister)
    }

    fn read_u32(&mut self, addr: u32, dma: &mut DirectMemoryAccess) -> (r: Result<u32, Fault>) {
        self.read_register(addr)
    }

    fn write_u32(&mut self, addr: u32, value: u32, dma: &mut DirectMemoryAccess) -> (r: Result<(), Fault>) {
        self.write_register(addr, value)
    }
}

} // verus!
