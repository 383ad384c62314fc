//! Who this process runs as.

use vstd::prelude::*;

verus! {

/// The user that the process acts as, by `nix::unistd::geteuid`. Nothing is
/// claimed of it: it is whatever the operating system says.
#[verifier::external_body]
pub(crate) fn effective_uid() -> (uid: u32) {
    nix::unistd::geteuid().as_raw()
}

/// The user that the process belongs to, by `nix::unistd::getuid`. Nothing is
/// claimed of it: it is whatever the operating system says.
#[verifier::external_body]
pub(crate) fn real_uid() -> (uid: u32) {
    nix::unistd::getuid().as_raw()
}

} // verus!
