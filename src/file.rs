//! The file device: one slot's registers. The device decides what each
//! register access means; the host carries out the file-system transfer that
//! a READ or WRITE asks for and hands the outcome back.
use vstd::prelude::*;
use crate::device::{Device, write_outcome};
use crate::dma::{DirectMemoryAccess, nul_index, store_bytes};
use crate::memory::{
    MEM_SIZE, FILE_VECTOR, FILE_FILENAME, FILE_LENGTH, FILE_APPEND, FILE_STATUS, FILE_READ, FILE_WRITE,
};
use crate::vm::Fault;

verus! {

/// A transfer that the host has to carry out.
#[derive(Debug, Clone, Copy, PartialEq, Eq, Structural)]
pub enum FileRequest {
    /// Read up to LENGTH bytes from the file, opening it for reading first
    /// when `reopen`; then call `finish_read`.
    Read { reopen: bool, dest: u32 },
    /// Write the buffer to the file, opening it for writing (appending when
    /// `append`, creating it when missing) first when `reopen`; then call
    /// `finish_write`.
    Write { reopen: bool, append: bool },
}

pub struct FileView {
    pub filename: Seq<u8>,
    /// Whether the host holds an open handle for this slot.
    pub open: bool,
    /// Whether that handle was opened for writing.
    pub writing: bool,
    pub append: bool,
    pub length: u32,
    pub status: u32,
    pub buffer: Seq<u8>,
    pub pending: Option<FileRequest>,
}

/// The effect of a word written to register `reg` (relative to the slot's base).
pub open spec fn file_write_spec(v: FileView, mem: Seq<u8>, reg: u32, value: u32) -> Result<FileView, Fault> {
    if reg == FILE_VECTOR || reg == FILE_STATUS {
        Ok(v)
    } else if reg == FILE_FILENAME {
        if value >= MEM_SIZE {
            Err(Fault::MemoryOutOfRange)
        } else {
            Ok(FileView { open: false, filename: mem.subrange(value as int, nul_index(mem, value as int)), ..v })
        }
    } else if reg == FILE_LENGTH {
        if value > MEM_SIZE {
            Err(Fault::MemoryOutOfRange)
        } else {
            Ok(FileView {
                length: value,
                buffer: Seq::new(value as nat, |i: int| if i < v.buffer.len() { v.buffer[i] } else { 0u8 }),
                ..v
            })
        }
    } else if reg == FILE_APPEND {
        Ok(FileView { append: value == 1, ..v })
    } else if reg == FILE_READ {
        if value + v.length > MEM_SIZE {
            Err(Fault::MemoryOutOfRange)
        } else {
            Ok(FileView {
                status: 0,
                writing: false,
                pending: Some(FileRequest::Read { reopen: v.writing || !v.open, dest: value }),
                ..v
            })
        }
    } else if reg == FILE_WRITE {
        if value + v.length > MEM_SIZE {
            Err(Fault::MemoryOutOfRange)
        } else {
            Ok(FileView {
                status: 0,
                writing: true,
                buffer: mem.subrange(value as int, value + v.length),
                pending: Some(FileRequest::Write { reopen: !v.writing || !v.open, append: v.append }),
                ..v
            })
        }
    } else {
        Err(Fault::UnknownRegister)
    }
}

/// The word read from register `reg` (relative to the slot's base).
pub open spec fn file_read_spec(v: FileView, reg: u32) -> Result<u32, Fault> {
    if reg == FILE_VECTOR || reg == FILE_FILENAME || reg == FILE_READ || reg == FILE_WRITE {
        Ok(0)
    } else if reg == FILE_LENGTH {
        Ok(v.length)
    } else if reg == FILE_APPEND {
        Ok(if v.append { 1 } else { 0 })
    } else if reg == FILE_STATUS {
        Ok(v.status)
    } else {
        Err(Fault::UnknownRegister)
    }
}

pub struct FileDevice {
    base: u32,
    filename: Vec<u8>,
    open: bool,
    writing: bool,
    append: bool,
    length: u32,
    status: u32,
    buffer: Vec<u8>,
    pending: Option<FileRequest>,
}

impl View for FileDevice {
    type V = FileView;

    closed spec fn view(&self) -> FileView {
        FileView {
            filename: self.filename@,
            open: self.open,
            writing: self.writing,
            append: self.append,
            length: self.length,
            status: self.status,
            buffer: self.buffer@,
            pending: self.pending,
        }
    }
}

impl FileDevice {
    pub closed spec fn base(&self) -> u32 {
        self.base
    }

    pub open spec fn wf(&self) -> bool {
        self@.buffer.len() == self@.length && self@.length <= MEM_SIZE
    }

    /// A slot whose registers start at `base`, with no file named.
    pub fn new(base: u32) -> (r: Self)
        ensures
            r.wf(),
            r.base() == base,
            r@ == (FileView {
                filename: Seq::empty(),
                open: false,
                writing: false,
                append: false,
                length: 0,
                status: 0,
                buffer: Seq::empty(),
                pending: None,
            }),
    {
        FileDevice {
            base,
            filename: Vec::new(),
            open: false,
            writing: false,
            append: false,
            length: 0,
            status: 0,
            buffer: Vec::new(),
            pending: None,
        }
    }

    /// The name of the file, as the ROM wrote it.
    pub fn filename(&self) -> (r: &[u8])
        ensures
            r@ == self@.filename,
    {
        self.filename.as_slice()
    }

    /// The bytes that a WRITE hands to the file.
    pub fn buffer(&self) -> (r: &[u8])
        ensures
            r@ == self@.buffer,
    {
        self.buffer.as_slice()
    }

    /// The transfer the host still has to carry out, if any.
    pub fn pending(&self) -> (r: Option<FileRequest>)
        ensures
            r == self@.pending,
    {
        self.pending
    }

    /// Completes a READ: `data` holds the bytes read (at most LENGTH), or is
    /// `None` when the file could not be opened. The bytes read replace the
    /// start of the buffer, STATUS becomes their count, and the whole buffer
    /// is copied to the READ address.
    pub fn finish_read(&mut self, data: Option<Vec<u8>>, dma: &mut DirectMemoryAccess) -> (r: Result<(), Fault>)
        requires
            old(self).wf(),
        ensures
            final(self).wf(),
            !(old(self)@.pending matches Some(FileRequest::Read { .. })) ==> r == Err::<(), Fault>(Fault::UnknownRegister)
                && final(self)@ == old(self)@ && final(dma)@ == old(dma)@,
            old(self)@.pending matches Some(FileRequest::Read { dest, .. }) ==> {
                let n = match data { Some(d) => if d@.len() <= old(self)@.length { d@.len() as int } else { old(self)@.length as int }, None => 0 };
                let buf = match data {
                    Some(d) => Seq::new(old(self)@.length as nat, |i: int| if i < n { d@[i] } else { old(self)@.buffer[i] }),
                    None => old(self)@.buffer,
                };
                &&& dest + old(self)@.length <= MEM_SIZE ==> r is Ok && final(self)@ == (FileView {
                        open: data is Some,
                        status: n as u32,
                        buffer: buf,
                        pending: None,
                        ..old(self)@
                    })
                    && final(dma)@ == store_bytes(old(dma)@, dest as int, buf)
                &&& dest + old(self)@.length > MEM_SIZE ==> r == Err::<(), Fault>(Fault::MemoryOutOfRange)
            },
    {
        let dest = match self.pending {
            Some(FileRequest::Read { dest, .. }) => dest,
            _ => return Err(Fault::UnknownRegister),
        };
        if dest as u64 + self.length as u64 > MEM_SIZE as u64 {
            return Err(Fault::MemoryOutOfRange);
        }
        match data {
            Some(d) => {
                let n = if d.len() <= self.buffer.len() { d.len() } else { self.buffer.len() };
                let mut buffer: Vec<u8> = Vec::new();
                std::mem::swap(&mut buffer, &mut self.buffer);
                let ghost old_buffer = buffer@;
                let mut i: usize = 0;
                while i < n
                    invariant
                        n <= d@.len(),
                        n <= old_buffer.len(),
                        buffer@.len() == old_buffer.len(),
                        i <= n,
                        forall|k: int| 0 <= k < old_buffer.len() ==> #[trigger] buffer@[k]
                            == if k < i { d@[k] } else { old_buffer[k] },
                    decreases n - i,
                {
                    buffer[i] = d[i];
                    i += 1;
                }
                self.buffer = buffer;
                self.status = n as u32;
                self.open = true;
                proof {
                    assert(self.buffer@ =~= Seq::new(old(self)@.length as nat, |k: int| if k < n { d@[k] } else { old(self)@.buffer[k] }));
                }
            },
            None => {
                self.status = 0;
                self.open = false;
            },
        }
        self.pending = None;
        dma.write(dest, self.buffer.as_slice());
        Ok(())
    }

    /// Completes a WRITE: `ok` tells whether the file was opened and the
    /// whole buffer written. STATUS becomes LENGTH on success and 0 otherwise.
    pub fn finish_write(&mut self, ok: bool) -> (r: Result<(), Fault>)
        requires
            old(self).wf(),
        ensures
            final(self).wf(),
            !(old(self)@.pending matches Some(FileRequest::Write { .. })) ==> r == Err::<(), Fault>(Fault::UnknownRegister)
                && final(self)@ == old(self)@,
            old(self)@.pending matches Some(FileRequest::Write { .. }) ==> r is Ok && final(self)@ == (FileView {
                open: ok,
                status: if ok { old(self)@.length } else { 0 },
                pending: None,
                ..old(self)@
            }),
    {
        match self.pending {
            Some(FileRequest::Write { .. }) => {},
            _ => return Err(Fault::UnknownRegister),
        }
        self.open = ok;
        self.status = if ok { self.length } else { 0 };
        self.pending = None;
        Ok(())
    }

    /// Writes register `reg` (relative to the slot's base); see `file_write_spec`.
    pub fn write_register(&mut self, reg: u32, value: u32, dma: &DirectMemoryAccess) -> (r: Result<(), Fault>)
        requires
            old(self).wf(),
        ensures
            final(self).wf(),
            write_outcome(old(self)@, final(self)@, file_write_spec(old(self)@, dma@, reg, value), r),
            final(self).base() == old(self).base(),
    {
        if reg == FILE_VECTOR || reg == FILE_STATUS {
            Ok(())
        } else if reg == FILE_FILENAME {
            if value as usize >= MEM_SIZE {
                return Err(Fault::MemoryOutOfRange);
            }
            self.open = false;
            self.filename = dma.read_str(value);
            Ok(())
        } else if reg == FILE_LENGTH {
            if value as usize > MEM_SIZE {
                return Err(Fault::MemoryOutOfRange);
            }
            self.buffer.resize(value as usize, 0);
            self.length = value;
            assert(self.buffer@ =~= Seq::new(value as nat, |i: int| if i < old(self)@.buffer.len() { old(self)@.buffer[i] } else { 0u8 }));
            Ok(())
        } else if reg == FILE_APPEND {
            self.append = value == 1;
            Ok(())
        } else if reg == FILE_READ {
            if value as u64 + self.length as u64 > MEM_SIZE as u64 {
                return Err(Fault::MemoryOutOfRange);
            }
            let reopen = self.writing || !self.open;
            self.status = 0;
            self.writing = false;
            self.pending = Some(FileRequest::Read { reopen, dest: value });
            Ok(())
        } else if reg == FILE_WRITE {
            if value as u64 + self.length as u64 > MEM_SIZE as u64 {
                return Err(Fault::MemoryOutOfRange);
            }
            let reopen = !self.writing || !self.open;
            self.buffer = dma.read_vec(value, self.length);
            self.status = 0;
            self.writing = true;
            self.pending = Some(FileRequest::Write { reopen, append: self.append });
            Ok(())
        } else {
            Err(Fault::UnknownRegister)
        }
    }

    /// Reads register `reg` (relative to the slot's base); see `file_read_spec`.
    pub fn read_register(&self, reg: u32) -> (r: Result<u32, Fault>)
        ensures
            r == file_read_spec(self@, reg),
    {
        if reg == FILE_VECTOR || reg == FILE_FILENAME || reg == FILE_READ || reg == FILE_WRITE {
            Ok(0)
        } else if reg == FILE_LENGTH {
            Ok(self.length)
        } else if reg == FILE_APPEND {
            Ok(if self.append { 1 } else { 0 })
        } else if reg == FILE_STATUS {
            Ok(self.status)
        } else {
            Err(Fault::UnknownRegister)
        }
    }
}

impl Device for FileDevice {
    open spec fn wf(&self) -> bool {
        self@.buffer.len() == self@.length && self@.length <= MEM_SIZE
    }

    open spec fn read_u8_post(&self, new: &Self, mem: Seq<u8>, addr: u32, r: Result<u8, Fault>) -> bool {
        new@ == self@ && new.base() == self.base() && r == Err::<u8, Fault>(Fault::UnknownRegister)
    }

    open spec fn write_u8_post(&self, new: &Self, mem: Seq<u8>, addr: u32, value: u8, r: Result<(), Fault>) -> bool {
        new@ == self@ && new.base() == self.base() && r == Err::<(), Fault>(Fault::UnknownRegister)
    }

    open spec fn read_u32_post(&self, new: &Self, mem: Seq<u8>, addr: u32, r: Result<u32, Fault>) -> bool {
        &&& new@ == self@
        &&& new.base() == self.base()
        &&& r == (if addr >= self.base() { file_read_spec(self@, (addr - self.base()) as u32) } else {
            Err::<u32, Fault>(Fault::UnknownRegister)
        })
    }

    open spec fn write_u32_post(&self, new: &Self, mem: Seq<u8>, addr: u32, value: u32, r: Result<(), Fault>) -> bool {
        &&& new.base() == self.base()
        &&& if addr >= self.base() {
            write_outcome(self@, new@, file_write_spec(self@, mem, (addr - self.base()) as u32, value), r)
        } else {
            new@ == self@ && r == Err::<(), Fault>(Fault::UnknownRegister)
        }
    }

    fn read_u8(&mut self, addr: u32, dma: &mut DirectMemoryAccess) -> (r: Result<u8, Fault>) {
        Err(Fault::UnknownRegister)
    }

    fn write_u8(&mut self, addr: u32, value: u8, dma: &mut DirectMemoryAccess) -> (r: Result<(), Fault>) {
        Err(Fault::UnknownRegister)
    }

    fn read_u32(&mut self, addr: u32, dma: &mut DirectMemoryAccess) -> (r: Result<u32, Fault>) {
        if addr < self.base {
            return Err(Fault::UnknownRegister);
        }
        self.read_register(addr - self.base)
    }

    fn write_u32(&mut self, addr: u32, value: u32, dma: &mut DirectMemoryAccess) -> (r: Result<(), Fault>) {
        if addr < self.base {
            return Err(Fault::UnknownRegister);
        }
        self.write_register(addr - self.base, value, dma)
    }
}

} // verus!
