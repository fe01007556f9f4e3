//! The memory sampler: how much memory the whole system has in use, read from
//! the operating system through sysinfo.

use vstd::prelude::*;

verus! {

/// sysinfo's handle on the operating system's accounting. Opaque here: the
/// caller makes it once and hands it to every sample.
#[verifier::external_type_specification]
#[verifier::external_body]
pub struct ExSystem(sysinfo::System);

/// `System::refresh_memory` reads the system's memory accounting anew. Nothing
/// is claimed of the handle afterwards.
pub assume_specification[ sysinfo::System::refresh_memory ](system: &mut sysinfo::System)
;

/// The total memory, in bytes, that a handle holds as of its last refresh:
/// what `System::total_memory` reads from it.
pub uninterp spec fn total_memory_held(system: sysinfo::System) -> u64;

/// The available memory, in bytes, that a handle holds as of its last
/// refresh: what `System::available_memory` reads from it.
pub uninterp spec fn available_memory_held(system: sysinfo::System) -> u64;

/// The used memory, in bytes, that a handle holds as of its last refresh: what
/// `System::used_memory` reads from it.
pub uninterp spec fn used_memory_held(system: sysinfo::System) -> u64;

/// `System::total_memory` reads one field of the handle and looks at nothing
/// else, so the result is `total_memory_held` of the handle.
pub assume_specification[ sysinfo::System::total_memory ](system: &sysinfo::System) -> (bytes: u64)
    ensures
        bytes == total_memory_held(*system),
;

/// `System::available_memory` reads one field of the handle and looks at
/// nothing else, so the result is `available_memory_held` of the handle.
pub assume_specification[ sysinfo::System::available_memory ](
    system: &sysinfo::System,
) -> (bytes: u64)
    ensures
        bytes == available_memory_held(*system),
;

/// `System::used_memory` works the used memory, in bytes, out of the handle
/// alone, so the result is `used_memory_held` of it. On some systems it
/// subtracts the available memory from the total without a test, so it is
/// called only on a handle whose available memory does not exceed its total.
/// Nothing is claimed of the number itself: it is the machine's.
pub assume_specification[ sysinfo::System::used_memory ](system: &sysinfo::System) -> (bytes: u64)
    requires
        available_memory_held(*system) <= total_memory_held(*system),
    ensures
        bytes == used_memory_held(*system),
;

/// The memory in use according to a handle, in bytes: the used memory that it
/// holds, or 0 where it holds more available memory than there is in total,
/// which no used amount can account for.
pub open spec fn memory_in_use(system: sysinfo::System) -> u64 {
    if available_memory_held(system) <= total_memory_held(system) {
        used_memory_held(system)
    } else {
        0
    }
}

/// Samples the memory in use on the whole system, in bytes: refreshes the
/// accounting, then reads it, so that the sample is the memory in use
/// according to the handle when the call returns. The reading is system-wide,
/// not that of this process, so two samples may differ either way.
pub fn measure_memory(system: &mut sysinfo::System) -> (bytes: u64)
    ensures
        bytes == memory_in_use(*final(system)),
{
    system.refresh_memory();
    let total = system.total_memory();
    let available = system.available_memory();
    if available <= total {
        system.used_memory()
    } else {
        0
    }
}

} // verus!
