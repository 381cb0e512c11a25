//! Verified core of a UEFI secure-boot stub and its boot-entry writer.
//!
//! The stub is the one binary the firmware signature-checks.  It extracts
//! build-embedded file names and digests from its own image, verifies the
//! kernel and initrd against those digests, maps the kernel PE image, and
//! only then hands control over.  Everything here works on plain byte
//! buffers; the platform calls that produce those buffers live outside the
//! library.

use vstd::prelude::*;

pub mod bytes;
pub mod pe;
pub mod pe_section;
pub mod integrity;
pub mod config;
pub mod pe_loader;
pub mod initrd;
pub mod boot;
pub mod loader_entries;

verus! {

/// The closed set of failure kinds a boot attempt can surface.
///
/// `IntegrityError` carries the dedicated "security violation" meaning; all
/// other kinds surface as a generic failure status.
#[derive(Clone, Copy, PartialEq, Eq, Structural, Debug)]
pub enum BootError {
    /// Missing or malformed embedded sections, or an unreadable self-image.
    ConfigError,
    /// Missing or unreadable kernel or initrd on the boot volume.
    IoError,
    /// Digest mismatch: tampering or corruption detected.
    IntegrityError,
    /// Malformed kernel PE image.
    LoadError,
    /// Failed platform service install or uninstall.
    ServiceError,
}

impl BootError {
    /// Only a digest mismatch is surfaced as a security violation.
    pub fn is_security_violation(&self) -> (r: bool)
        ensures
            r == (*self is IntegrityError),
    {
        matches!(self, BootError::IntegrityError)
    }
}

} // verus!
