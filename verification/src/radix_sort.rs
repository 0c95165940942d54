//! The key-value radix sorter for 32-bit keys and values. Only its
//! parameters exist so far: the sorting passes are not written yet.

use vstd::prelude::*;

verus! {

/// The GPU device a sorter is made for; opaque here.
#[verifier::external_type_specification]
#[verifier::external_body]
pub struct ExDevice(wgpu::Device);

/// A 32-bit key-value radix sorter.
pub struct RadixSorter {
    max_n: u32,
}

impl RadixSorter {
    /// The largest number of key-value pairs the sorter was made for.
    pub closed spec fn max_n(self) -> u32 {
        self.max_n
    }

    /// A sorter for up to `max_n` key-value pairs on `device`.
    pub fn new(_device: &wgpu::Device, max_n: u32) -> (sorter: Self)
        ensures
            sorter.max_n() == max_n,
    {
        RadixSorter { max_n }
    }
}

} // verus!
