//! Boot Orchestrator: the one linear verified-boot sequence,
//! `Init → ConfigLoaded → FilesOpened → HashesVerified → KernelLoaded →
//! InitrdBridged → ControlTransferred`, with no backward transition and no
//! retry.  Every transition either advances the stage or records a
//! terminal failure; the invariant proves that no image is ever loaded
//! before both digests verified.

use vstd::prelude::*;

use crate::config::{config_matches, spec_config_ok, EmbeddedConfiguration};
use crate::initrd::{probe_spec, InitrdLoader, ServiceRegistry, INITRD_MEDIA_ID};
use crate::integrity::{check_hash, hash_gate_accepts};
use crate::pe_loader::{entry_rva, load_ok, loaded_mem, Image};
use crate::BootError;

verus! {

/// The stages of one boot attempt, in order.
#[derive(Clone, Copy, PartialEq, Eq, Structural, Debug)]
pub enum BootStage {
    Init,
    ConfigLoaded,
    FilesOpened,
    HashesVerified,
    KernelLoaded,
    InitrdBridged,
    ControlTransferred,
}

/// Position of a stage in the linear order.
pub open spec fn stage_num(s: BootStage) -> int {
    match s {
        BootStage::Init => 0,
        BootStage::ConfigLoaded => 1,
        BootStage::FilesOpened => 2,
        BootStage::HashesVerified => 3,
        BootStage::KernelLoaded => 4,
        BootStage::InitrdBridged => 5,
        BootStage::ControlTransferred => 6,
    }
}

/// One boot attempt: constructed once at entry, discarded at exit.
pub struct BootAttempt {
    /// Last completed stage.
    pub stage: BootStage,
    /// The terminal failure, if any; nothing is ever retried.
    pub failure: Option<BootError>,
    /// The stage whose transition failed.
    pub failed_stage: Option<BootStage>,
    /// Embedded configuration, from `ConfigLoaded` on.
    pub config: Option<EmbeddedConfiguration>,
    /// Raw kernel PE bytes, from `FilesOpened` on.
    pub kernel_data: Option<Vec<u8>>,
    /// Raw initrd bytes; owned here until the bridge takes them.
    pub initrd_data: Option<Vec<u8>>,
    /// The initrd bytes as verified, kept for specification even after
    /// ownership moves into the service registry.
    pub initrd_bytes: Ghost<Seq<u8>>,
    /// The loaded kernel image, from `KernelLoaded` on.
    pub kernel_image: Option<Image>,
    /// The live bridge registration, from `InitrdBridged` on.
    pub initrd_loader: Option<InitrdLoader>,
}

impl BootAttempt {
    /// What each reached stage guarantees.  In particular: whenever a
    /// kernel image exists (stage `KernelLoaded` or later), both digests
    /// have verified — verification strictly precedes loading.
    pub open spec fn inv(&self) -> bool {
        &&& (stage_num(self.stage) >= 1 ==> self.config is Some && self.config->0.wf())
        &&& (stage_num(self.stage) >= 2 ==> self.kernel_data is Some)
        &&& (2 <= stage_num(self.stage) && stage_num(self.stage) <= 4 ==> self.initrd_data is Some
            && self.initrd_data->0@ == self.initrd_bytes@)
        &&& (stage_num(self.stage) >= 3 ==> hash_gate_accepts(
            self.kernel_data->0@,
            self.config->0.kernel_hash@,
        ) && hash_gate_accepts(self.initrd_bytes@, self.config->0.initrd_hash@))
        &&& (stage_num(self.stage) >= 4 ==> self.kernel_image is Some
            && self.kernel_image->0.mem@ == loaded_mem(
            self.kernel_data->0@,
            self.kernel_image->0.base,
        ))
        &&& (stage_num(self.stage) >= 5 ==> self.initrd_loader is Some)
    }

    /// A fresh attempt, before anything has happened.
    pub fn new() -> (r: BootAttempt)
        ensures
            r.stage is Init,
            r.failure is None,
            r.failed_stage is None,
            r.config is None,
            r.kernel_data is None,
            r.initrd_data is None,
            r.kernel_image is None,
            r.initrd_loader is None,
            r.inv(),
    {
        BootAttempt {
            stage: BootStage::Init,
            failure: None,
            failed_stage: None,
            config: None,
            kernel_data: None,
            initrd_data: None,
            initrd_bytes: Ghost(Seq::empty()),
            kernel_image: None,
            initrd_loader: None,
        }
    }

    /// `Init → ConfigLoaded`: extract the embedded configuration from the
    /// stub's own image bytes.  Fails — before any file is opened — with a
    /// generic configuration error exactly when any of the five sections
    /// is missing or malformed.
    pub fn load_config(&mut self, stub_image: &[u8]) -> (r: Result<(), BootError>)
        requires
            old(self).stage is Init,
            old(self).failure is None,
            old(self).inv(),
        ensures
            final(self).inv(),
            r is Ok <==> spec_config_ok(stub_image@),
            r is Ok ==> final(self).stage is ConfigLoaded && final(self).failure is None && final(self).config is Some && config_matches(&final(self).config->0, stub_image@),
            r is Err ==> final(self).stage is Init && r->Err_0 == BootError::ConfigError && final(self).failure == Some(BootError::ConfigError) && final(self).failed_stage == Some(
                BootStage::ConfigLoaded,
            ),
    {
        match EmbeddedConfiguration::new(stub_image) {
            Ok(c) => {
                self.config = Some(c);
                self.stage = BootStage::ConfigLoaded;
                Ok(())
            },
            Err(_) => {
                self.failure = Some(BootError::ConfigError);
                self.failed_stage = Some(BootStage::ConfigLoaded);
                Err(BootError::ConfigError)
            },
        }
    }

    /// `ConfigLoaded → FilesOpened`: the caller hands over the kernel and
    /// initrd bytes it read from the boot volume.
    pub fn provide_files(&mut self, kernel_data: Vec<u8>, initrd_data: Vec<u8>)
        requires
            old(self).stage is ConfigLoaded,
            old(self).failure is None,
            old(self).inv(),
        ensures
            final(self).inv(),
            final(self).stage is FilesOpened,
            final(self).failure is None,
            final(self).config == old(self).config,
            final(self).kernel_data == Some(kernel_data),
            final(self).initrd_data == Some(initrd_data),
            final(self).initrd_bytes@ == initrd_data@,
    {
        self.initrd_bytes = Ghost(initrd_data@);
        self.kernel_data = Some(kernel_data);
        self.initrd_data = Some(initrd_data);
        self.stage = BootStage::FilesOpened;
    }

    /// Records that the kernel or initrd could not be opened or read:
    /// a terminal I/O failure while entering `FilesOpened`.
    pub fn report_io_failure(&mut self)
        requires
            old(self).stage is ConfigLoaded,
            old(self).failure is None,
            old(self).inv(),
        ensures
            final(self).inv(),
            final(self).stage == old(self).stage,
            final(self).failure == Some(BootError::IoError),
            final(self).failed_stage == Some(BootStage::FilesOpened),
    {
        self.failure = Some(BootError::IoError);
        self.failed_stage = Some(BootStage::FilesOpened);
    }

    /// `FilesOpened → HashesVerified`: the Hash Gate.  Advances exactly
    /// when both computed digests equal the embedded ones; otherwise the
    /// attempt stops with the dedicated security violation, and no kernel
    /// is ever loaded.
    pub fn verify_hashes(&mut self) -> (r: Result<(), BootError>)
        requires
            old(self).stage is FilesOpened,
            old(self).failure is None,
            old(self).inv(),
        ensures
            final(self).inv(),
            r is Ok <==> (hash_gate_accepts(
                old(self).kernel_data->0@,
                old(self).config->0.kernel_hash@,
            ) && hash_gate_accepts(old(self).initrd_data->0@, old(self).config->0.initrd_hash@)),
            final(self).config == old(self).config,
            final(self).kernel_data == old(self).kernel_data,
            final(self).initrd_data == old(self).initrd_data,
            final(self).initrd_bytes == old(self).initrd_bytes,
            r is Ok ==> final(self).stage is HashesVerified && final(self).failure is None,
            r is Err ==> final(self).stage == old(self).stage && r->Err_0
                == BootError::IntegrityError && final(self).failure == Some(
                BootError::IntegrityError,
            ) && final(self).failed_stage == Some(BootStage::HashesVerified),
    {
        let kernel_ok: bool = match (&self.config, &self.kernel_data) {
            (Some(c), Some(k)) => check_hash(k.as_slice(), c.kernel_hash.as_slice()),
            _ => false,
        };
        let initrd_ok: bool = match (&self.config, &self.initrd_data) {
            (Some(c), Some(i)) => check_hash(i.as_slice(), c.initrd_hash.as_slice()),
            _ => false,
        };
        if kernel_ok && initrd_ok {
            self.stage = BootStage::HashesVerified;
            Ok(())
        } else {
            self.failure = Some(BootError::IntegrityError);
            self.failed_stage = Some(BootStage::HashesVerified);
            Err(BootError::IntegrityError)
        }
    }

    /// `HashesVerified → KernelLoaded`: parse, map and relocate the —
    /// already verified — kernel image for an allocation at `base`.
    pub fn load_kernel(&mut self, base: u64) -> (r: Result<(), BootError>)
        requires
            old(self).stage is HashesVerified,
            old(self).failure is None,
            old(self).inv(),
        ensures
            final(self).inv(),
            r is Ok <==> load_ok(old(self).kernel_data->0@, base),
            final(self).config == old(self).config,
            final(self).kernel_data == old(self).kernel_data,
            final(self).initrd_data == old(self).initrd_data,
            final(self).initrd_bytes == old(self).initrd_bytes,
            r is Ok ==> final(self).stage is KernelLoaded && final(self).failure is None && final(self).kernel_image is Some,
            r is Ok ==> final(self).kernel_image->0.base == base,
            r is Ok ==> final(self).kernel_image->0.mem@ == loaded_mem(
                old(self).kernel_data->0@,
                base,
            ),
            r is Ok ==> final(self).kernel_image->0.entry as int == base + entry_rva(
                old(self).kernel_data->0@,
            ),
            r is Err ==> final(self).stage == old(self).stage && r->Err_0 == BootError::LoadError
                && final(self).failure == Some(BootError::LoadError) && final(self).failed_stage
                == Some(BootStage::KernelLoaded),
    {
        let loaded: Result<Image, BootError> = match &self.kernel_data {
            Some(k) => Image::load(k.as_slice(), base),
            None => Err(BootError::LoadError),
        };
        match loaded {
            Ok(img) => {
                self.kernel_image = Some(img);
                self.stage = BootStage::KernelLoaded;
                Ok(())
            },
            Err(_) => {
                self.failure = Some(BootError::LoadError);
                self.failed_stage = Some(BootStage::KernelLoaded);
                Err(BootError::LoadError)
            },
        }
    }

    /// `KernelLoaded → InitrdBridged`: install the file-loading service
    /// backed by the verified initrd bytes.  Succeeds exactly when no
    /// registration is live; the new registration's handle is distinct
    /// from the image handle.
    pub fn bridge_initrd(&mut self, registry: &mut ServiceRegistry, image_handle: u64) -> (r:
        Result<(), BootError>)
        requires
            old(self).stage is KernelLoaded,
            old(self).failure is None,
            old(self).inv(),
        ensures
            final(self).inv(),
            r is Ok <==> old(registry).registration is None,
            final(self).config == old(self).config,
            final(self).kernel_data == old(self).kernel_data,
            final(self).kernel_image == old(self).kernel_image,
            final(self).initrd_bytes == old(self).initrd_bytes,
            r is Ok ==> final(self).stage is InitrdBridged && final(self).failure is None,
            r is Ok ==> probe_spec(final(registry), INITRD_MEDIA_ID) == Some(
                old(self).initrd_bytes@,
            ),
            r is Ok ==> final(self).initrd_loader is Some && final(self).initrd_loader->0.handle
                != image_handle,
            r is Err ==> *final(registry) == *old(registry) && final(self).stage == old(self).stage && r->Err_0 == BootError::ServiceError && final(self).failure == Some(
                BootError::ServiceError,
            ) && final(self).failed_stage == Some(BootStage::InitrdBridged),
    {
        let live: bool = match &registry.registration {
            Some(_) => true,
            None => false,
        };
        if live {
            self.failure = Some(BootError::ServiceError);
            self.failed_stage = Some(BootStage::InitrdBridged);
            return Err(BootError::ServiceError);
        }
        let data: Vec<u8> = match self.initrd_data.take() {
            Some(d) => d,
            None => {
                return vstd::pervasive::unreached();
            },
        };
        match InitrdLoader::new(registry, image_handle, data) {
            Ok(loader) => {
                self.initrd_loader = Some(loader);
                self.stage = BootStage::InitrdBridged;
                Ok(())
            },
            Err(_) => {
                return vstd::pervasive::unreached();
            },
        }
    }

    /// `InitrdBridged → ControlTransferred`: the attempt commits to the
    /// jump into the loaded kernel; the caller performs the actual
    /// transfer through the image's entry point.
    pub fn transfer_control(&mut self)
        requires
            old(self).stage is InitrdBridged,
            old(self).failure is None,
            old(self).inv(),
        ensures
            final(self).inv(),
            final(self).stage is ControlTransferred,
            final(self).failure is None,
            final(self).config == old(self).config,
            final(self).kernel_data == old(self).kernel_data,
            final(self).kernel_image == old(self).kernel_image,
            final(self).initrd_loader == old(self).initrd_loader,
    {
        self.stage = BootStage::ControlTransferred;
    }

    /// Reached only if the kernel hands control back — itself a boot
    /// failure.  Tears the bridge registration down exactly once; a
    /// failure here is reported but no longer affects the attempt.
    pub fn control_returned(&mut self, registry: &mut ServiceRegistry) -> (r: Result<
        (),
        BootError,
    >)
        requires
            old(self).stage is ControlTransferred,
            old(self).failure is None,
            old(self).inv(),
        ensures
            final(self).inv(),
            final(self).stage == old(self).stage,
            r is Ok <==> (old(registry).registration is Some
                && old(registry).registration->0.handle
                == old(self).initrd_loader->0.handle),
            r is Ok ==> final(registry).registration is None,
            r is Ok ==> probe_spec(final(registry), INITRD_MEDIA_ID) is None,
            r is Err ==> *final(registry) == *old(registry) && r->Err_0
                == BootError::ServiceError,
    {
        let mut loader: InitrdLoader = match self.initrd_loader.take() {
            Some(l) => l,
            None => {
                return vstd::pervasive::unreached();
            },
        };
        let result = loader.uninstall(registry);
        self.initrd_loader = Some(loader);
        result
    }
}

/// Orchestrator law: verification strictly precedes loading.  In any
/// attempt that has reached `KernelLoaded` (so in every attempt holding a
/// loaded image), both the kernel and the initrd digests were accepted by
/// the Hash Gate.
pub proof fn law_verified_before_load(a: &BootAttempt)
    requires
        a.inv(),
        stage_num(a.stage) >= 4,
    ensures
        hash_gate_accepts(a.kernel_data->0@, a.config->0.kernel_hash@),
        hash_gate_accepts(a.initrd_bytes@, a.config->0.initrd_hash@),
        a.kernel_image is Some,
{
}

} // verus!
