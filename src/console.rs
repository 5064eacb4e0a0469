//! The console device: a byte of input delivered by the host, and bytes
//! written to standard output and standard error, which the host drains.
use vstd::prelude::*;
use std::sync::mpsc::Receiver;
use crate::device::{Device, write_outcome};
use crate::dma::DirectMemoryAccess;
use crate::memory::{CONSOLE_BASE, CONSOLE_VECTOR, CONSOLE_WRITE, CONSOLE_READ, CONSOLE_ERROR};
use crate::vm::Fault;

verus! {

/// std's `mpsc::Receiver`, carried as an opaque value: the receiving end of
/// the channel on which input bytes arrive.
#[verifier::external_type_specification]
#[verifier::external_body]
#[verifier::reject_recursive_types(T)]
pub struct ExReceiver<T>(Receiver<T>);

/// Relies on std's `Receiver::try_recv`: the byte that was waiting, or
/// `None` when none was or the sending side has hung up.
#[verifier::external_body]
fn try_receive(rx: &Receiver<u8>) -> Option<u8> {
    rx.try_recv().ok()
}

/// Relies on std's `Receiver::recv`: waits for the next byte; `None` once the
/// sending side has hung up.
#[verifier::external_body]
fn receive(rx: &Receiver<u8>) -> Option<u8> {
    rx.recv().ok()
}

pub struct ConsoleView {
    pub vector: u32,
    /// The most recently received input byte.
    pub read: u8,
    /// Bytes written to WRITE that the host has not yet taken.
    pub out: Seq<u8>,
    /// Bytes written to ERROR that the host has not yet taken.
    pub err: Seq<u8>,
}

/// The effect of a word written to console register `addr`.
pub open spec fn console_write_spec(v: ConsoleView, addr: u32, value: u32) -> Result<ConsoleView, Fault> {
    if addr == CONSOLE_BASE + CONSOLE_VECTOR {
        Ok(ConsoleView { vector: value, ..v })
    } else if addr == CONSOLE_BASE + CONSOLE_WRITE {
        Ok(ConsoleView { out: v.out.push((value % 0x100) as u8), ..v })
    } else if addr == CONSOLE_BASE + CONSOLE_ERROR {
        Ok(ConsoleView { err: v.err.push((value % 0x100) as u8), ..v })
    } else {
        Err(Fault::UnknownRegister)
    }
}

/// The word read from console register `addr`.
pub open spec fn console_read_spec(v: ConsoleView, addr: u32) -> Result<u32, Fault> {
    if addr == CONSOLE_BASE + CONSOLE_VECTOR {
        Ok(v.vector)
    } else if addr == CONSOLE_BASE + CONSOLE_READ {
        Ok(v.read as u32)
    } else {
        Err(Fault::UnknownRegister)
    }
}

pub struct ConsoleDevice {
    pub vector: u32,
    read: u8,
    out: Vec<u8>,
    err: Vec<u8>,
    receiver: Receiver<u8>,
}

impl View for ConsoleDevice {
    type V = ConsoleView;

    closed spec fn view(&self) -> ConsoleView {
        ConsoleView { vector: self.vector, read: self.read, out: self.out@, err: self.err@ }
    }
}

impl ConsoleDevice {
    /// A console whose input bytes arrive on `receiver`.
    pub fn new(receiver: Receiver<u8>) -> (r: Self)
        ensures
            r@ == (ConsoleView { vector: 0, read: 0, out: Seq::empty(), err: Seq::empty() }),
    {
        ConsoleDevice { vector: 0, read: 0, out: Vec::new(), err: Vec::new(), receiver }
    }

    /// Makes `value` the byte that READ returns.
    pub fn accept(&mut self, value: u8)
        ensures
            final(self)@ == (ConsoleView { read: value, ..old(self)@ }),
    {
        self.read = value;
    }

    /// Waits for the next input byte and makes it current; false once the
    /// input has closed, with nothing changed.
    pub fn read_block(&mut self) -> (r: bool)
        ensures
            !r ==> final(self)@ == old(self)@,
            r ==> final(self)@ == (ConsoleView { read: final(self)@.read, ..old(self)@ }),
    {
        match receive(&self.receiver) {
            Some(value) => {
                self.accept(value);
                true
            },
            None => false,
        }
    }

    /// Takes an input byte if one is waiting and makes it current; false,
    /// with nothing changed, when none is.
    pub fn read_nonblock(&mut self) -> (r: bool)
        ensures
            !r ==> final(self)@ == old(self)@,
            r ==> final(self)@ == (ConsoleView { read: final(self)@.read, ..old(self)@ }),
    {
        match try_receive(&self.receiver) {
            Some(value) => {
                self.accept(value);
                true
            },
            None => false,
        }
    }

    /// Hands over the bytes written to WRITE since the last call.
    pub fn take_output(&mut self) -> (r: Vec<u8>)
        ensures
            r@ == old(self)@.out,
            final(self)@ == (ConsoleView { out: Seq::empty(), ..old(self)@ }),
    {
        let mut taken: Vec<u8> = Vec::new();
        std::mem::swap(&mut taken, &mut self.out);
        taken
    }

    /// Hands over the bytes written to ERROR since the last call.
    pub fn take_errors(&mut self) -> (r: Vec<u8>)
        ensures
            r@ == old(self)@.err,
            final(self)@ == (ConsoleView { err: Seq::empty(), ..old(self)@ }),
    {
        let mut taken: Vec<u8> = Vec::new();
        std::mem::swap(&mut taken, &mut self.err);
        taken
    }

    /// Writes a console register (see `console_write_spec`).
    pub fn write_register(&mut self, addr: u32, value: u32) -> (r: Result<(), Fault>)
        ensures
            write_outcome(old(self)@, final(self)@, console_write_spec(old(self)@, addr, value), r),
    {
        if addr == CONSOLE_BASE + CONSOLE_VECTOR {
            self.vector = value;
            Ok(())
        } else if addr == CONSOLE_BASE + CONSOLE_WRITE {
            self.out.push((value % 0x100) as u8);
            Ok(())
        } else if addr == CONSOLE_BASE + CONSOLE_ERROR {
            self.err.push((value % 0x100) as u8);
            Ok(())
        } else {
            Err(Fault::UnknownRegister)
        }
    }

    /// Reads a console register (see `console_read_spec`).
    pub fn read_register(&self, addr: u32) -> (r: Result<u32, Fault>)
        ensures
            r == console_read_spec(self@, addr),
    {
        if addr == CONSOLE_BASE + CONSOLE_VECTOR {
            Ok(self.vector)
        } else if addr == CONSOLE_BASE + CONSOLE_READ {
            Ok(self.read as u32)
        } else {
            Err(Fault::UnknownRegister)
        }
    }
}

impl Device for ConsoleDevice {
    open spec fn wf(&self) -> bool {
        true
    }

    open spec fn read_u8_post(&self, new: &Self, mem: Seq<u8>, addr: u32, r: Result<u8, Fault>) -> bool {
        &&& new@ == self@
        &&& r == (if addr == CONSOLE_BASE + CONSOLE_READ { Ok::<u8, Fault>(self@.read) } else {
            Err::<u8, Fault>(Fault::UnknownRegister)
        })
    }

    open spec fn write_u8_post(&self, new: &Self, mem: Seq<u8>, addr: u32, value: u8, r: Result<(), Fault>) -> bool {
        if addr == CONSOLE_BASE + CONSOLE_WRITE || addr == CONSOLE_BASE + CONSOLE_ERROR {
            write_outcome(self@, new@, console_write_spec(self@, addr, value as u32), r)
        } else {
            new@ == self@ && r == Err::<(), Fault>(Fault::UnknownRegister)
        }
    }

    open spec fn read_u32_post(&self, new: &Self, mem: Seq<u8>, addr: u32, r: Result<u32, Fault>) -> bool {
        new@ == self@ && r == console_read_spec(self@, addr)
    }

    open spec fn write_u32_post(&self, new: &Self, mem: Seq<u8>, addr: u32, value: u32, r: Result<(), Fault>) -> bool {
        write_outcome(self@, new@, console_write_spec(self@, addr, value), r)
    }

    fn read_u8(&mut self, addr: u32, dma: &mut DirectMemoryAccess) -> (r: Result<u8, Fault>) {
        if addr == CONSOLE_BASE + CONSOLE_READ {
            Ok(self.read)
        } else {
            Err(Fault::UnknownRegister)
        }
    }

    fn write_u8(&mut self, addr: u32, value: u8, dma: &mut DirectMemoryAccess) -> (r: Result<(), Fault>) {
        if addr == CONSOLE_BASE + CONSOLE_WRITE || addr == CONSOLE_BASE + CONSOLE_ERROR {
            self.write_register(addr, value as u32)
        } else {
            Err(Fault::UnknownRegister)
        }
    }

    fn read_u32(&mut self, addr: u32, dma: &mut DirectMemoryAccess) -> (r: Result<u32, Fault>) {
        self.read_register(addr)
    }

    fn write_u32(&mut self, addr: u32, value: u32, dma: &mut DirectMemoryAccess) -> (r: Result<(), Fault>) {
        self.write_register(addr, value)
    }
}

} // verus!
