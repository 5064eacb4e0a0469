//! The flat byte memory of the machine and the direct accessor that devices
//! use to read and write it.
use vstd::prelude::*;
use vstd::string::StringSliceAdditionalSpecFns;
use crate::memory::MEM_SIZE;

verus! {

/// The little-endian 32-bit word made of four bytes.
pub open spec fn word_le(b0: u8, b1: u8, b2: u8, b3: u8) -> u32 {
    (b0 as int + b1 as int * 0x100 + b2 as int * 0x1_0000 + b3 as int * 0x100_0000) as u32
}

/// The little-endian word stored at `a` in `mem`.
pub open spec fn word_at(mem: Seq<u8>, a: int) -> u32 {
    word_le(mem[a], mem[a + 1], mem[a + 2], mem[a + 3])
}

/// `mem` with the little-endian bytes of `v` stored at `a`.
pub open spec fn store_word(mem: Seq<u8>, a: int, v: u32) -> Seq<u8> {
    mem.update(a, (v % 0x100) as u8)
        .update(a + 1, ((v / 0x100) % 0x100) as u8)
        .update(a + 2, ((v / 0x1_0000) % 0x100) as u8)
        .update(a + 3, (v / 0x100_0000) as u8)
}

/// `mem` with the bytes of `data` copied in from `a` on.
pub open spec fn store_bytes(mem: Seq<u8>, a: int, data: Seq<u8>) -> Seq<u8> {
    Seq::new(mem.len(), |i: int| if a <= i < a + data.len() { data[i - a] } else { mem[i] })
}

/// The end of the NUL-terminated string at `a`: the index of its NUL, or the
/// end of memory when there is none.
pub open spec fn nul_index(mem: Seq<u8>, a: int) -> int
    decreases mem.len() - a,
{
    if a < 0 || a >= mem.len() || mem[a] == 0 { a } else { nul_index(mem, a + 1) }
}

/// Storing a word and then reading it back yields the word.
pub proof fn lemma_word_round_trip(mem: Seq<u8>, a: int, v: u32)
    requires
        0 <= a,
        a + 4 <= mem.len(),
    ensures
        word_at(store_word(mem, a, v), a) == v,
        store_word(mem, a, v).len() == mem.len(),
        forall|i: int| 0 <= i < mem.len() && !(a <= i < a + 4)
            ==> #[trigger] store_word(mem, a, v)[i] == mem[i],
{
    let b0 = (v % 0x100) as u8;
    let b1 = ((v / 0x100) % 0x100) as u8;
    let b2 = ((v / 0x1_0000) % 0x100) as u8;
    let b3 = (v / 0x100_0000) as u8;
    assert(b0 as int + b1 as int * 0x100 + b2 as int * 0x1_0000 + b3 as int * 0x100_0000 == v)
        by (nonlinear_arith)
        requires
            b0 == v % 0x100,
            b1 == (v / 0x100) % 0x100,
            b2 == (v / 0x1_0000) % 0x100,
            b3 == v / 0x100_0000,
    ;
}

/// The machine's linear memory: exactly `MEM_SIZE` bytes.
///
/// Devices are handed this accessor during a register access so that they can
/// read and write memory directly, without going back through the device
/// fabric.
pub struct DirectMemoryAccess {
    mem: Vec<u8>,
}

impl View for DirectMemoryAccess {
    type V = Seq<u8>;

    closed spec fn view(&self) -> Seq<u8> {
        self.mem@
    }
}

impl DirectMemoryAccess {
    #[verifier::type_invariant]
    pub(crate) open spec fn inv(&self) -> bool {
        self@.len() == MEM_SIZE
    }

    /// A zeroed memory of `MEM_SIZE` bytes.
    pub fn new() -> (r: Self)
        ensures
            r@ == Seq::new(MEM_SIZE as nat, |i: int| 0u8),
    {
        let mut mem: Vec<u8> = Vec::with_capacity(MEM_SIZE);
        let mut i: usize = 0;
        while i < MEM_SIZE
            invariant
                i <= MEM_SIZE,
                mem@ == Seq::new(i as nat, |k: int| 0u8),
            decreases MEM_SIZE - i,
        {
            mem.push(0);
            i += 1;
        }
        assert(mem@ =~= Seq::new(MEM_SIZE as nat, |k: int| 0u8));
        DirectMemoryAccess { mem }
    }

    /// Number of bytes: always `MEM_SIZE`.
    pub fn len(&self) -> (r: usize)
        ensures
            r == MEM_SIZE,
            self@.len() == MEM_SIZE,
    {
        proof { use_type_invariant(self); }
        self.mem.len()
    }

    pub fn read_u8(&self, addr: u32) -> (r: u8)
        requires
            addr < MEM_SIZE,
        ensures
            r == self@[addr as int],
    {
        proof { use_type_invariant(self); }
        self.mem[addr as usize]
    }

    pub fn write_u8(&mut self, addr: u32, value: u8)
        requires
            addr < MEM_SIZE,
        ensures
            final(self)@ == old(self)@.update(addr as int, value),
    {
        proof { use_type_invariant(&*self); }
        self.mem[addr as usize] = value;
    }

    /// The little-endian word at `addr`.
    pub fn read_u32(&self, addr: u32) -> (r: u32)
        requires
            addr + 4 <= MEM_SIZE,
        ensures
            r == word_at(self@, addr as int),
    {
        proof { use_type_invariant(self); }
        let a = addr as usize;
        let b0 = self.mem[a] as u32;
        let b1 = self.mem[a + 1] as u32;
        let b2 = self.mem[a + 2] as u32;
        let b3 = self.mem[a + 3] as u32;
        b0 + b1 * 0x100 + b2 * 0x1_0000 + b3 * 0x100_0000
    }

    /// Stores `value` little-endian at `addr`.
    pub fn write_u32(&mut self, addr: u32, value: u32)
        requires
            addr + 4 <= MEM_SIZE,
        ensures
            final(self)@ == store_word(old(self)@, addr as int, value),
    {
        proof { use_type_invariant(&*self); }
        let a = addr as usize;
        self.mem[a] = (value % 0x100) as u8;
        self.mem[a + 1] = ((value / 0x100) % 0x100) as u8;
        self.mem[a + 2] = ((value / 0x1_0000) % 0x100) as u8;
        self.mem[a + 3] = (value / 0x100_0000) as u8;
    }

    /// Copies `buf.len()` bytes starting at `addr` into `buf`.
    pub fn read(&self, addr: u32, buf: &mut [u8])
        requires
            addr + old(buf)@.len() <= MEM_SIZE,
        ensures
            final(buf)@ == self@.subrange(addr as int, addr + old(buf)@.len()),
    {
        proof { use_type_invariant(self); }
        let n = buf.len();
        let mut i: usize = 0;
        while i < n
            invariant
                n == buf@.len(),
                addr + n <= MEM_SIZE,
                self.mem@.len() == MEM_SIZE,
                i <= n,
                forall|k: int| 0 <= k < i ==> buf@[k] == self@[addr + k],
            decreases n - i,
        {
            buf[i] = self.mem[addr as usize + i];
            i += 1;
        }
        assert(buf@ =~= self@.subrange(addr as int, addr + n));
    }

    /// Copies all of `buf` into memory starting at `addr`.
    pub fn write(&mut self, addr: u32, buf: &[u8])
        requires
            addr + buf@.len() <= MEM_SIZE,
        ensures
            final(self)@ == store_bytes(old(self)@, addr as int, buf@),
    {
        proof { use_type_invariant(&*self); }
        let n = buf.len();
        let mut i: usize = 0;
        while i < n
            invariant
                n == buf@.len(),
                addr + n <= MEM_SIZE,
                self.mem@.len() == MEM_SIZE,
                i <= n,
                self@ == store_bytes(old(self)@, addr as int, buf@.subrange(0, i as int)),
            decreases n - i,
        {
            self.mem[addr as usize + i] = buf[i];
            i += 1;
            assert(self@ =~= store_bytes(old(self)@, addr as int, buf@.subrange(0, i as int)));
        }
        assert(buf@.subrange(0, n as int) =~= buf@);
    }

    /// Writes the bytes of `value` at `addr`, followed by a NUL.
    pub fn write_str(&mut self, addr: u32, value: &str)
        requires
            addr + value.spec_bytes().len() + 1 <= MEM_SIZE,
        ensures
            final(self)@ == store_bytes(old(self)@, addr as int, value.spec_bytes().push(0u8)),
    {
        proof { use_type_invariant(&*self); }
        let bytes = value.as_bytes();
        self.write(addr, bytes);
        proof { use_type_invariant(&*self); }
        let end = addr + bytes.len() as u32;
        self.write_u8(end, 0);
        assert(self@ =~= store_bytes(old(self)@, addr as int, value.spec_bytes().push(0u8)));
    }

    /// The bytes of the NUL-terminated string at `addr`, without the NUL; a
    /// string with no NUL runs to the end of memory.
    pub fn read_str(&self, addr: u32) -> (r: Vec<u8>)
        requires
            addr < MEM_SIZE,
        ensures
            r@ == self@.subrange(addr as int, nul_index(self@, addr as int)),
    {
        proof { use_type_invariant(self); }
        let mut out: Vec<u8> = Vec::new();
        let mut i = addr as usize;
        while i < self.mem.len() && self.mem[i] != 0
            invariant
                self.mem@.len() == MEM_SIZE,
                addr <= i <= MEM_SIZE,
                nul_index(self@, i as int) == nul_index(self@, addr as int),
                out@ == self@.subrange(addr as int, i as int),
            decreases MEM_SIZE - i,
        {
            out.push(self.mem[i]);
            i += 1;
            assert(out@ =~= self@.subrange(addr as int, i as int));
        }
        out
    }

    /// The `len` bytes starting at `addr`.
    pub fn read_vec(&self, addr: u32, len: u32) -> (r: Vec<u8>)
        requires
            addr + len <= MEM_SIZE,
        ensures
            r@ == self@.subrange(addr as int, addr + len),
            r@.len() == len,
    {
        proof { use_type_invariant(self); }
        let mut out: Vec<u8> = Vec::with_capacity(len as usize);
        let mut i: u32 = 0;
        while i < len
            invariant
                self.mem@.len() == MEM_SIZE,
                addr + len <= MEM_SIZE,
                i <= len,
                out@ == self@.subrange(addr as int, addr + i),
            decreases len - i,
        {
            out.push(self.mem[(addr + i) as usize]);
            i += 1;
            assert(out@ =~= self@.subrange(addr as int, addr + i));
        }
        out
    }
}

} // verus!
