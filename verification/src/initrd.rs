//! Initrd Bridge: a boot-time file-loading service registered under the
//! identifier the kernel's early-boot stage probes, backed by the
//! already-verified in-memory initrd.  The platform's service registry is
//! modelled here as a value, so the whole install/probe/uninstall
//! lifecycle is verified; the ambient UEFI calls mirror it outside the
//! library.

use vstd::prelude::*;

use crate::BootError;

verus! {

/// The well-known media identifier the kernel probes for its initrd
/// (the Linux initrd media GUID, as one 128-bit value).
pub const INITRD_MEDIA_ID: u128 = 0x5568e427_68fc_4f3d_ac74_ca555231cc68;

/// One live registration: an identifier, the handle it was installed on,
/// and the bytes it serves.
#[derive(Debug)]
pub struct Registration {
    pub id: u128,
    pub handle: u64,
    pub data: Vec<u8>,
}

/// The platform's service registry, reduced to what the bridge touches:
/// at most one registration is live at a time, by construction.
pub struct ServiceRegistry {
    pub registration: Option<Registration>,
}

/// What a probe for `id` finds in the registry.
pub open spec fn probe_spec(r: &ServiceRegistry, id: u128) -> Option<Seq<u8>> {
    match r.registration {
        Some(reg) => if reg.id == id {
            Some(reg.data@)
        } else {
            None
        },
        None => None,
    }
}

impl ServiceRegistry {
    /// A registry with nothing installed.
    pub fn new() -> (r: ServiceRegistry)
        ensures
            r.registration is None,
    {
        ServiceRegistry { registration: None }
    }

    /// The kernel-side view: fetch the bytes registered under `id`.
    pub fn probe(&self, id: u128) -> (r: Option<&Vec<u8>>)
        ensures
            r is Some <==> probe_spec(self, id) is Some,
            r is Some ==> r->0@ == probe_spec(self, id)->0,
    {
        match &self.registration {
            Some(reg) => if reg.id == id {
                Some(&reg.data)
            } else {
                None
            },
            None => None,
        }
    }
}

/// The bridge's handle on its own registration.
#[derive(Debug)]
pub struct InitrdLoader {
    pub handle: u64,
}

impl InitrdLoader {
    /// Registers the initrd bytes under `INITRD_MEDIA_ID`, on a fresh
    /// handle distinct from the image handle passed in.  Succeeds exactly
    /// when no registration is live; afterwards a probe for the identifier
    /// returns exactly the supplied bytes.
    pub fn new(registry: &mut ServiceRegistry, image_handle: u64, initrd_data: Vec<u8>) -> (r:
        Result<InitrdLoader, BootError>)
        ensures
            r is Ok <==> old(registry).registration is None,
            r is Ok ==> probe_spec(final(registry), INITRD_MEDIA_ID) == Some(initrd_data@),
            r is Ok ==> r->Ok_0.handle != image_handle,
            r is Ok ==> final(registry).registration is Some,
            r is Ok ==> final(registry).registration->0.handle == r->Ok_0.handle,
            r is Err ==> *final(registry) == *old(registry),
            r is Err ==> r->Err_0 == BootError::ServiceError,
    {
        match &registry.registration {
            Some(_) => Err(BootError::ServiceError),
            None => {
                let handle = image_handle.wrapping_add(1);
                assert(handle != image_handle);
                registry.registration = Some(
                    Registration { id: INITRD_MEDIA_ID, handle, data: initrd_data },
                );
                Ok(InitrdLoader { handle })
            },
        }
    }

    /// Removes this bridge's registration.  Succeeds exactly when its own
    /// registration is still live; afterwards a probe for the identifier
    /// finds nothing.
    pub fn uninstall(&mut self, registry: &mut ServiceRegistry) -> (r: Result<(), BootError>)
        ensures
            r is Ok <==> (old(registry).registration is Some
                && old(registry).registration->0.handle == old(self).handle),
            r is Ok ==> final(registry).registration is None,
            r is Ok ==> probe_spec(final(registry), INITRD_MEDIA_ID) is None,
            r is Err ==> *final(registry) == *old(registry),
            r is Err ==> r->Err_0 == BootError::ServiceError,
            *final(self) == *old(self),
    {
        let matches_ours: bool = match &registry.registration {
            Some(reg) => reg.handle == self.handle,
            None => false,
        };
        if matches_ours {
            registry.registration = None;
            Ok(())
        } else {
            Err(BootError::ServiceError)
        }
    }
}

} // verus!
