//! Integration tests for RadixSorter.

#[test]
fn scaffolding_smoke() {
    // Currently just confirms the crate links.
    let _ = gpu_util::RadixSorter::new;
}
