//! The system device: the pending exit code and the program's arguments.
use vstd::prelude::*;
use crate::device::{Device, write_outcome};
use crate::dma::DirectMemoryAccess;
use crate::memory::{SYSTEM_BASE, SYSTEM_EXIT, SYSTEM_READ};
use crate::vm::Fault;

verus! {

/// The arguments one after another, each followed by a NUL.
pub open spec fn joined(args: Seq<Seq<u8>>) -> Seq<u8>
    decreases args.len(),
{
    if args.len() == 0 {
        Seq::empty()
    } else {
        joined(args.drop_last()) + args.last() + seq![0u8]
    }
}

pub struct SystemView {
    pub exit: Option<u32>,
    pub args: Seq<u8>,
    /// How many argument bytes READ has delivered.
    pub next: int,
}

/// The byte that READ delivers next: 0 once the arguments are exhausted.
pub open spec fn next_arg_byte(v: SystemView) -> u8 {
    if v.next < v.args.len() { v.args[v.next] } else { 0 }
}

/// The state after READ delivered a byte.
pub open spec fn after_read(v: SystemView) -> SystemView {
    if v.next < v.args.len() { SystemView { next: v.next + 1, ..v } } else { v }
}

/// The effect of a word written to system register `addr`: EXIT records the exit code.
pub open spec fn system_write_spec(v: SystemView, addr: u32, value: u32) -> Result<SystemView, Fault> {
    if addr == SYSTEM_BASE + SYSTEM_EXIT { Ok(SystemView { exit: Some(value), ..v }) } else { Err(Fault::UnknownRegister) }
}

/// A read of system register `addr`: READ delivers the next argument byte.
pub open spec fn system_read_spec(v: SystemView, addr: u32) -> (SystemView, Result<u8, Fault>) {
    if addr == SYSTEM_BASE + SYSTEM_READ { (after_read(v), Ok(next_arg_byte(v))) } else { (v, Err(Fault::UnknownRegister)) }
}

pub struct SystemDevice {
    pub exit: Option<u32>,
    args: Vec<u8>,
    next: usize,
}

impl View for SystemDevice {
    type V = SystemView;

    closed spec fn view(&self) -> SystemView {
        SystemView { exit: self.exit, args: self.args@, next: self.next as int }
    }
}

impl SystemDevice {
    pub open spec fn wf(&self) -> bool {
        0 <= self@.next <= self@.args.len()
    }

    /// A system device that hands out `args`, each followed by a NUL.
    pub fn new(args: &Vec<Vec<u8>>) -> (r: Self)
        requires
            joined(args.deep_view()).len() <= usize::MAX,
        ensures
            r.wf(),
            r@ == (SystemView { exit: None, args: joined(args.deep_view()), next: 0 }),
    {
        let mut out: Vec<u8> = Vec::new();
        let mut i: usize = 0;
        while i < args.len()
            invariant
                i <= args@.len(),
                joined(args.deep_view()).len() <= usize::MAX,
                out@ == joined(args.deep_view().subrange(0, i as int)),
            decreases args@.len() - i,
        {
            let arg = &args[i];
            let ghost before = out@;
            proof { lemma_joined_prefix(args.deep_view(), i as int + 1, args@.len() as int); }
            let mut j: usize = 0;
            while j < arg.len()
                invariant
                    j <= arg@.len(),
                    out@ == before + arg@.subrange(0, j as int),
                    before.len() + arg@.len() + 1 <= usize::MAX,
                decreases arg@.len() - j,
            {
                out.push(arg[j]);
                j += 1;
                assert(out@ =~= before + arg@.subrange(0, j as int));
            }
            out.push(0);
            proof {
                let sub = args.deep_view().subrange(0, i as int + 1);
                assert(sub.drop_last() =~= args.deep_view().subrange(0, i as int));
                assert(sub.last() =~= arg@);
                assert(out@ =~= joined(sub));
            }
            i += 1;
        }
        assert(args.deep_view().subrange(0, args@.len() as int) =~= args.deep_view());
        SystemDevice { exit: None, args: out, next: 0 }
    }

    /// The next argument byte, or 0 once they are exhausted.
    pub fn read_next(&mut self) -> (r: u8)
        requires
            old(self).wf(),
        ensures
            final(self).wf(),
            r == next_arg_byte(old(self)@),
            final(self)@ == after_read(old(self)@),
    {
        if self.next < self.args.len() {
            let b = self.args[self.next];
            self.next = self.next + 1;
            b
        } else {
            0
        }
    }

    /// Writes a system register: EXIT records the exit code.
    pub fn write_register(&mut self, addr: u32, value: u32) -> (r: Result<(), Fault>)
        ensures
            write_outcome(old(self)@, final(self)@, system_write_spec(old(self)@, addr, value), r),
    {
        if addr == SYSTEM_BASE + SYSTEM_EXIT {
            self.exit = Some(value);
            Ok(())
        } else {
            Err(Fault::UnknownRegister)
        }
    }

    /// Reads a system register: READ delivers the next argument byte.
    pub fn read_register(&mut self, addr: u32) -> (r: Result<u8, Fault>)
        requires
            old(self).wf(),
        ensures
            final(self).wf(),
            (final(self)@, r) == system_read_spec(old(self)@, addr),
    {
        if addr == SYSTEM_BASE + SYSTEM_READ {
            Ok(self.read_next())
        } else {
            Err(Fault::UnknownRegister)
        }
    }
}

/// The joined prefix of `k` arguments is at most as long as the whole.
proof fn lemma_joined_prefix(args: Seq<Seq<u8>>, k: int, n: int)
    requires
        0 <= k <= n == args.len(),
    ensures
        joined(args.subrange(0, k)).len() <= joined(args).len(),
        k >= 1 ==> joined(args.subrange(0, k - 1)).len() + args[k - 1].len() + 1 == joined(args.subrange(0, k)).len(),
    decreases n - k,
{
    if k >= 1 {
        assert(args.subrange(0, k).drop_last() =~= args.subrange(0, k - 1));
    }
    if k < n {
        lemma_joined_prefix(args, k + 1, n);
        assert(args.subrange(0, k + 1).drop_last() =~= args.subrange(0, k));
    } else {
        assert(args.subrange(0, k) =~= args);
    }
}

impl Device for SystemDevice {
    open spec fn wf(&self) -> bool {
        0 <= self@.next <= self@.args.len()
    }

    open spec fn read_u8_post(&self, new: &Self, mem: Seq<u8>, addr: u32, r: Result<u8, Fault>) -> bool {
        (new@, r) == system_read_spec(self@, addr)
    }

    open spec fn write_u8_post(&self, new: &Self, mem: Seq<u8>, addr: u32, value: u8, r: Result<(), Fault>) -> bool {
        new@ == self@ && r == Err::<(), Fault>(Fault::UnknownRegister)
    }

    open spec fn read_u32_post(&self, new: &Self, mem: Seq<u8>, addr: u32, r: Result<u32, Fault>) -> bool {
        &&& new@ == system_read_spec(self@, addr).0
        &&& system_read_spec(self@, addr).1 matches Ok(b) ==> r == Ok::<u32, Fault>(b as u32)
        &&& system_read_spec(self@, addr).1 matches Err(f) ==> r == Err::<u32, Fault>(f)
    }

    open spec fn write_u32_post(&self, new: &Self, mem: Seq<u8>, addr: u32, value: u32, r: Result<(), Fault>) -> bool {
        write_outcome(self@, new@, system_write_spec(self@, addr, value), r)
    }

    fn read_u8(&mut self, addr: u32, dma: &mut DirectMemoryAccess) -> (r: Result<u8, Fault>) {
        self.read_register(addr)
    }

    fn write_u8(&mut self, addr: u32, value: u8, dma: &mut DirectMemoryAccess) -> (r: Result<(), Fault>) {
        Err(Fault::UnknownRegister)
    }

    fn read_u32(&mut self, addr: u32, dma: &mut DirectMemoryAccess) -> (r: Result<u32, Fault>) {
        match self.read_register(addr) {
            Ok(b) => Ok(b as u32),
            Err(f) => Err(f),
        }
    }

    fn write_u32(&mut self, addr: u32, value: u32, dma: &mut DirectMemoryAccess) -> (r: Result<(), Fault>) {
        self.write_register(addr, value)
    }
}

} // verus!
