//! The register interface shared by all memory-mapped devices, and the
//! address-range lookup that routes an access to its device.
use vstd::prelude::*;
use crate::dma::DirectMemoryAccess;
use crate::memory::{
    CONSOLE_BASE, SYSTEM_BASE, SCREEN_BASE, FILE0_BASE, FILE1_BASE, MOUSE_BASE, KEYBOARD_BASE, DEVICE_LENGTH,
    SCREEN_LAYER0, SCREEN_WINDOWS_LENGTH,
};
use crate::vm::Fault;

verus! {

/// A memory-mapped peripheral. Addresses are absolute; `dma` gives the device
/// direct access to linear memory during the call.
pub trait Device {
    /// The device's internal consistency, which every access preserves.
    spec fn wf(&self) -> bool;

    /// What a byte read at `addr` returns and leaves (`self` before, `new`
    /// after), with linear memory `mem`.
    spec fn read_u8_post(&self, new: &Self, mem: Seq<u8>, addr: u32, r: Result<u8, Fault>) -> bool;

    /// What a byte write of `value` at `addr` returns and leaves.
    spec fn write_u8_post(&self, new: &Self, mem: Seq<u8>, addr: u32, value: u8, r: Result<(), Fault>) -> bool;

    /// What a word read at `addr` returns and leaves.
    spec fn read_u32_post(&self, new: &Self, mem: Seq<u8>, addr: u32, r: Result<u32, Fault>) -> bool;

    /// What a word write of `value` at `addr` returns and leaves.
    spec fn write_u32_post(&self, new: &Self, mem: Seq<u8>, addr: u32, value: u32, r: Result<(), Fault>) -> bool;

    fn read_u8(&mut self, addr: u32, dma: &mut DirectMemoryAccess) -> (r: Result<u8, Fault>)
        requires
            old(self).wf(),
        ensures
            final(self).wf(),
            final(dma)@ == old(dma)@,
            old(self).read_u8_post(final(self), old(dma)@, addr, r),
    ;

    fn write_u8(&mut self, addr: u32, value: u8, dma: &mut DirectMemoryAccess) -> (r: Result<(), Fault>)
        requires
            old(self).wf(),
        ensures
            final(self).wf(),
            final(dma)@ == old(dma)@,
            old(self).write_u8_post(final(self), old(dma)@, addr, value, r),
    ;

    fn read_u32(&mut self, addr: u32, dma: &mut DirectMemoryAccess) -> (r: Result<u32, Fault>)
        requires
            old(self).wf(),
        ensures
            final(self).wf(),
            final(dma)@ == old(dma)@,
            old(self).read_u32_post(final(self), old(dma)@, addr, r),
    ;

    fn write_u32(&mut self, addr: u32, value: u32, dma: &mut DirectMemoryAccess) -> (r: Result<(), Fault>)
        requires
            old(self).wf(),
        ensures
            final(self).wf(),
            final(dma)@ == old(dma)@,
            old(self).write_u32_post(final(self), old(dma)@, addr, value, r),
    ;
}

/// A write whose effect `spec` describes: on success the new state, on
/// failure the same fault with the state unchanged.
pub open spec fn write_outcome<V>(old: V, new: V, spec: Result<V, Fault>, r: Result<(), Fault>) -> bool {
    match spec {
        Ok(v2) => r is Ok && new == v2,
        Err(f) => r == Err::<(), Fault>(f) && new == old,
    }
}

/// Whether `addr` lies in the range that starts at `range.0` and is `range.1` long.
pub open spec fn in_range(range: (u32, u32), addr: u32) -> bool {
    range.0 <= addr < range.0 + range.1
}

/// The index of the first range of `ranges` that holds `addr`, or `u32::MAX`
/// when none does.
pub fn match_device(ranges: &[(u32, u32)], addr: u32) -> (r: u32)
    requires
        ranges@.len() < u32::MAX,
    ensures
        r == u32::MAX <==> forall|j: int| 0 <= j < ranges@.len() ==> !in_range(#[trigger] ranges@[j], addr),
        r != u32::MAX ==> r < ranges@.len() && in_range(ranges@[r as int], addr)
            && forall|j: int| 0 <= j < r ==> !in_range(#[trigger] ranges@[j], addr),
{
    let mut i: usize = 0;
    while i < ranges.len()
        invariant
            i <= ranges@.len(),
            ranges@.len() < u32::MAX,
            forall|j: int| 0 <= j < i ==> !in_range(#[trigger] ranges@[j], addr),
        decreases ranges@.len() - i,
    {
        let (start, length) = ranges[i];
        if start <= addr && (addr as u64) < start as u64 + length as u64 {
            return i as u32;
        }
        i += 1;
    }
    u32::MAX
}

/// The devices of the memory map.
#[derive(Debug, Clone, Copy, PartialEq, Eq, Structural)]
pub enum DeviceId {
    Console,
    System,
    Screen,
    File0,
    File1,
    Mouse,
    Keyboard,
}

/// The device that answers at `addr`: each device owns its 64 KiB page, and
/// the screen also owns the four 512 KiB layer windows.
pub open spec fn route_spec(addr: u32) -> Option<DeviceId> {
    if in_range((CONSOLE_BASE, DEVICE_LENGTH), addr) {
        Some(DeviceId::Console)
    } else if in_range((SYSTEM_BASE, DEVICE_LENGTH), addr) {
        Some(DeviceId::System)
    } else if in_range((SCREEN_BASE, DEVICE_LENGTH), addr)
        || in_range((SCREEN_LAYER0, SCREEN_WINDOWS_LENGTH), addr) {
        Some(DeviceId::Screen)
    } else if in_range((FILE0_BASE, DEVICE_LENGTH), addr) {
        Some(DeviceId::File0)
    } else if in_range((FILE1_BASE, DEVICE_LENGTH), addr) {
        Some(DeviceId::File1)
    } else if in_range((MOUSE_BASE, DEVICE_LENGTH), addr) {
        Some(DeviceId::Mouse)
    } else if in_range((KEYBOARD_BASE, DEVICE_LENGTH), addr) {
        Some(DeviceId::Keyboard)
    } else {
        None
    }
}

/// The device that answers at `addr`, if any.
pub fn route(addr: u32) -> (r: Option<DeviceId>)
    ensures
        r == route_spec(addr),
{
    let pages = [
        (CONSOLE_BASE, DEVICE_LENGTH),
        (SYSTEM_BASE, DEVICE_LENGTH),
        (SCREEN_BASE, DEVICE_LENGTH),
        (SCREEN_LAYER0, SCREEN_WINDOWS_LENGTH),
        (FILE0_BASE, DEVICE_LENGTH),
        (FILE1_BASE, DEVICE_LENGTH),
        (MOUSE_BASE, DEVICE_LENGTH),
        (KEYBOARD_BASE, DEVICE_LENGTH),
    ];
    let i = match_device(pages.as_slice(), addr);
    proof {
        assert(pages@[0] == (CONSOLE_BASE, DEVICE_LENGTH));
        assert(pages@[1] == (SYSTEM_BASE, DEVICE_LENGTH));
        assert(pages@[2] == (SCREEN_BASE, DEVICE_LENGTH));
        assert(pages@[3] == (SCREEN_LAYER0, SCREEN_WINDOWS_LENGTH));
        assert(pages@[4] == (FILE0_BASE, DEVICE_LENGTH));
        assert(pages@[5] == (FILE1_BASE, DEVICE_LENGTH));
        assert(pages@[6] == (MOUSE_BASE, DEVICE_LENGTH));
        assert(pages@[7] == (KEYBOARD_BASE, DEVICE_LENGTH));
    }
    if i == 0 {
        Some(DeviceId::Console)
    } else if i == 1 {
        Some(DeviceId::System)
    } else if i == 2 || i == 3 {
        Some(DeviceId::Screen)
    } else if i == 4 {
        Some(DeviceId::File0)
    } else if i == 5 {
        Some(DeviceId::File1)
    } else if i == 6 {
        Some(DeviceId::Mouse)
    } else if i == 7 {
        Some(DeviceId::Keyboard)
    } else {
        None
    }
}

} // verus!
