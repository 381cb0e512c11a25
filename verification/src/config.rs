//! Configuration Extractor: recovers the five build-embedded values from
//! the stub's own binary — the only data the firmware signature check
//! already covers, and therefore the only data trusted here.

use vstd::prelude::*;
use vstd::string::StrSliceExecFns;

use crate::pe_section::{pe_section, pe_section_as_string, spec_pe_section, spec_pe_section_chars};
use crate::BootError;

verus! {

/// Every character fits in one UCS-2 code unit and none is NUL, so the
/// text converts losslessly to the platform's native string type.
/// One character that fits in one UCS-2 code unit and is not NUL.
pub open spec fn char_ucs2_ok(c: char) -> bool {
    (c as u32) != 0 && (c as u32) < 0x10000
}

pub open spec fn ucs2_ok(chars: Seq<char>) -> bool {
    forall|i: int| 0 <= i < chars.len() ==> char_ucs2_ok(#[trigger] chars[i])
}

/// The UCS-2 code units of such a text.
pub open spec fn ucs2_units(chars: Seq<char>) -> Seq<u16> {
    chars.map_values(|c: char| c as u16)
}

/// Converts to UCS-2 code units; fails exactly on text that has no such
/// representation.
#[verifier::loop_isolation(false)]
pub fn str_to_ucs2(s: &str) -> (r: Option<Vec<u16>>)
    ensures
        r is Some <==> ucs2_ok(s@),
        r is Some ==> r->0@ == ucs2_units(s@),
{
    let n = s.unicode_len();
    let mut out: Vec<u16> = Vec::new();
    let mut i: usize = 0;
    while i < n
        invariant
            0 <= i <= n,
            n == s@.len(),
            out@.len() == i,
            forall|j: int| 0 <= j < i ==> char_ucs2_ok(#[trigger] s@[j]),
            forall|j: int| 0 <= j < i ==> out@[j] == s@[j] as u16,
        decreases n - i,
    {
        let c = s.get_char(i);
        let cu = c as u32;
        if cu == 0 || cu >= 0x10000 {
            return None;
        }
        out.push(cu as u16);
        assert(out@[i as int] == s@[i as int] as u16);
        i += 1;
    }
    proof {
        assert(out@ =~= ucs2_units(s@));
    }
    Some(out)
}

/// What string extraction yields: the named section's bytes as UTF-8 text,
/// provided the text also has a UCS-2 form.  Absence, bad UTF-8 and
/// non-UCS-2 text all collapse into the same `None`.
pub open spec fn spec_extract_string(b: Seq<u8>, name: Seq<u8>) -> Option<Seq<char>> {
    match spec_pe_section_chars(b, name) {
        None => None,
        Some(chars) => if ucs2_ok(chars) {
            Some(chars)
        } else {
            None
        },
    }
}

/// Extracts a string stored as UTF-8 in the named PE section.  Every
/// failure is the one "invalid parameter" kind, so a tampered binary leaks
/// no structural detail.
pub fn extract_string(file_data: &[u8], section: &[u8]) -> (r: Result<String, BootError>)
    ensures
        r is Ok <==> spec_extract_string(file_data@, section@) is Some,
        r is Ok ==> r->Ok_0@ == spec_extract_string(file_data@, section@)->0,
        r is Err ==> r->Err_0 == BootError::ConfigError,
{
    match pe_section_as_string(file_data, section) {
        None => Err(BootError::ConfigError),
        Some(s) => {
            match str_to_ucs2(s.as_str()) {
                None => Err(BootError::ConfigError),
                Some(_) => Ok(s),
            }
        },
    }
}

/// What hash extraction yields: the named section's bytes, provided there
/// are exactly 32 of them.
pub open spec fn spec_extract_hash(b: Seq<u8>, name: Seq<u8>) -> Option<Seq<u8>> {
    match spec_pe_section(b, name) {
        None => None,
        Some(bytes) => if bytes.len() == 32 {
            Some(bytes)
        } else {
            None
        },
    }
}

/// Extracts a 32-byte digest from the named PE section.
pub fn extract_hash(file_data: &[u8], section: &[u8]) -> (r: Result<Vec<u8>, BootError>)
    ensures
        r is Ok <==> spec_extract_hash(file_data@, section@) is Some,
        r is Ok ==> r->Ok_0@ == spec_extract_hash(file_data@, section@)->0,
        r is Err ==> r->Err_0 == BootError::ConfigError,
{
    match pe_section(file_data, section) {
        None => Err(BootError::ConfigError),
        Some(bytes) => {
            if bytes.len() == 32 {
                Ok(bytes)
            } else {
                Err(BootError::ConfigError)
            }
        },
    }
}

/// The section names the build step populates in the stub binary.
pub open spec fn spec_kernel_path_name() -> Seq<u8> {
    seq![0x2eu8, 0x6b, 0x65, 0x72, 0x6e, 0x65, 0x6c, 0x70]
}

pub open spec fn spec_kernel_hash_name() -> Seq<u8> {
    seq![0x2eu8, 0x6b, 0x65, 0x72, 0x6e, 0x65, 0x6c, 0x68]
}

pub open spec fn spec_initrd_path_name() -> Seq<u8> {
    seq![0x2eu8, 0x69, 0x6e, 0x69, 0x74, 0x72, 0x64, 0x70]
}

pub open spec fn spec_initrd_hash_name() -> Seq<u8> {
    seq![0x2eu8, 0x69, 0x6e, 0x69, 0x74, 0x72, 0x64, 0x68]
}

pub open spec fn spec_cmdline_name() -> Seq<u8> {
    seq![0x2eu8, 0x63, 0x6d, 0x64, 0x6c, 0x69, 0x6e, 0x65]
}

/// ".kernelp"
pub fn kernel_path_name() -> (r: [u8; 8])
    ensures
        r@ == spec_kernel_path_name(),
{
    let r = [0x2eu8, 0x6b, 0x65, 0x72, 0x6e, 0x65, 0x6c, 0x70];
    proof {
        assert(r@ =~= spec_kernel_path_name());
    }
    r
}

/// ".kernelh"
pub fn kernel_hash_name() -> (r: [u8; 8])
    ensures
        r@ == spec_kernel_hash_name(),
{
    let r = [0x2eu8, 0x6b, 0x65, 0x72, 0x6e, 0x65, 0x6c, 0x68];
    proof {
        assert(r@ =~= spec_kernel_hash_name());
    }
    r
}

/// ".initrdp"
pub fn initrd_path_name() -> (r: [u8; 8])
    ensures
        r@ == spec_initrd_path_name(),
{
    let r = [0x2eu8, 0x69, 0x6e, 0x69, 0x74, 0x72, 0x64, 0x70];
    proof {
        assert(r@ =~= spec_initrd_path_name());
    }
    r
}

/// ".initrdh"
pub fn initrd_hash_name() -> (r: [u8; 8])
    ensures
        r@ == spec_initrd_hash_name(),
{
    let r = [0x2eu8, 0x69, 0x6e, 0x69, 0x74, 0x72, 0x64, 0x68];
    proof {
        assert(r@ =~= spec_initrd_hash_name());
    }
    r
}

/// ".cmdline"
pub fn cmdline_name() -> (r: [u8; 8])
    ensures
        r@ == spec_cmdline_name(),
{
    let r = [0x2eu8, 0x63, 0x6d, 0x64, 0x6c, 0x69, 0x6e, 0x65];
    proof {
        assert(r@ =~= spec_cmdline_name());
    }
    r
}

/// The configuration embedded at build time, rebuilt once per boot from
/// the stub's own binary and owned by that one boot attempt.
#[derive(Debug)]
pub struct EmbeddedConfiguration {
    /// Kernel path, relative to the root of the volume the stub was loaded
    /// from.
    pub kernel_filename: String,
    /// Expected digest of the raw kernel PE bytes.
    pub kernel_hash: Vec<u8>,
    /// Initrd path, interpreted like `kernel_filename`.
    pub initrd_filename: String,
    /// Expected digest of the raw initrd bytes.
    pub initrd_hash: Vec<u8>,
    /// Kernel command line.
    pub cmdline: String,
}

/// All five embedded sections extract successfully.
pub open spec fn spec_config_ok(b: Seq<u8>) -> bool {
    &&& spec_extract_string(b, spec_kernel_path_name()) is Some
    &&& spec_extract_hash(b, spec_kernel_hash_name()) is Some
    &&& spec_extract_string(b, spec_initrd_path_name()) is Some
    &&& spec_extract_hash(b, spec_initrd_hash_name()) is Some
    &&& spec_extract_string(b, spec_cmdline_name()) is Some
}

/// `c` holds exactly the five values embedded in the binary `b`.
pub open spec fn config_matches(c: &EmbeddedConfiguration, b: Seq<u8>) -> bool {
    &&& c.wf()
    &&& c.kernel_filename@ == spec_extract_string(b, spec_kernel_path_name())->0
    &&& c.kernel_hash@ == spec_extract_hash(b, spec_kernel_hash_name())->0
    &&& c.initrd_filename@ == spec_extract_string(b, spec_initrd_path_name())->0
    &&& c.initrd_hash@ == spec_extract_hash(b, spec_initrd_hash_name())->0
    &&& c.cmdline@ == spec_extract_string(b, spec_cmdline_name())->0
}

impl EmbeddedConfiguration {
    /// Structural soundness: digests are 32 bytes, paths and command line
    /// convert to the platform string type.
    pub open spec fn wf(&self) -> bool {
        &&& self.kernel_hash@.len() == 32
        &&& self.initrd_hash@.len() == 32
        &&& ucs2_ok(self.kernel_filename@)
        &&& ucs2_ok(self.initrd_filename@)
        &&& ucs2_ok(self.cmdline@)
    }

    /// Populates the configuration from the stub's own image bytes.
    /// Succeeds exactly when all five embedded sections are present and
    /// well-formed, and then returns exactly their contents.
    pub fn new(file_data: &[u8]) -> (r: Result<Self, BootError>)
        ensures
            r is Ok <==> spec_config_ok(file_data@),
            r is Ok ==> config_matches(&r->Ok_0, file_data@),
            r is Err ==> r->Err_0 == BootError::ConfigError,
    {
        let kernel_filename = match extract_string(file_data, kernel_path_name().as_slice()) {
            Ok(s) => s,
            Err(e) => {
                return Err(e);
            },
        };
        let kernel_hash = match extract_hash(file_data, kernel_hash_name().as_slice()) {
            Ok(h) => h,
            Err(e) => {
                return Err(e);
            },
        };
        let initrd_filename = match extract_string(file_data, initrd_path_name().as_slice()) {
            Ok(s) => s,
            Err(e) => {
                return Err(e);
            },
        };
        let initrd_hash = match extract_hash(file_data, initrd_hash_name().as_slice()) {
            Ok(h) => h,
            Err(e) => {
                return Err(e);
            },
        };
        let cmdline = match extract_string(file_data, cmdline_name().as_slice()) {
            Ok(s) => s,
            Err(e) => {
                return Err(e);
            },
        };
        Ok(
            EmbeddedConfiguration {
                kernel_filename,
                kernel_hash,
                initrd_filename,
                initrd_hash,
                cmdline,
            },
        )
    }
}

} // verus!
