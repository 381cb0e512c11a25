//! End-to-end tests of the stub library: section extraction, the hash
//! gate, PE loading with and without relocation, the initrd bridge, and
//! the three boot scenarios.

use lanzaboote::boot::{BootAttempt, BootStage};
use lanzaboote::config::EmbeddedConfiguration;
use lanzaboote::initrd::{InitrdLoader, ServiceRegistry, INITRD_MEDIA_ID};
use lanzaboote::integrity::check_hash;
use lanzaboote::pe_loader::Image;
use lanzaboote::pe_section::{pe_section, pe_section_as_string};
use lanzaboote::BootError;

use sha2::{Digest, Sha256};

struct Sect {
    name: [u8; 8],
    va: u32,
    vsize: u32,
    data: Vec<u8>,
}

fn name8(s: &str) -> [u8; 8] {
    let mut n = [0u8; 8];
    n[..s.len()].copy_from_slice(s.as_bytes());
    n
}

fn put16(buf: &mut [u8], off: usize, v: u16) {
    buf[off..off + 2].copy_from_slice(&v.to_le_bytes());
}

fn put32(buf: &mut [u8], off: usize, v: u32) {
    buf[off..off + 4].copy_from_slice(&v.to_le_bytes());
}

fn put64(buf: &mut [u8], off: usize, v: u64) {
    buf[off..off + 8].copy_from_slice(&v.to_le_bytes());
}

/// Builds a minimal PE32+ buffer: DOS header, PE signature, COFF header,
/// 160-byte optional header with six data directories, section table, and
/// each section's raw data appended (raw size = data length).
fn build_pe(
    entry: u32,
    image_base: u64,
    image_size: u32,
    reloc: (u32, u32),
    sects: &[Sect],
) -> Vec<u8> {
    let nsec = sects.len();
    let opt_size = 160usize;
    let sect_table = 0x58 + opt_size;
    let headers_end = sect_table + 40 * nsec;
    let mut buf = vec![0u8; headers_end];
    buf[0] = 0x4d;
    buf[1] = 0x5a;
    put32(&mut buf, 0x3c, 0x40);
    buf[0x40] = 0x50;
    buf[0x41] = 0x45;
    put16(&mut buf, 0x44, 0x8664);
    put16(&mut buf, 0x46, nsec as u16);
    put16(&mut buf, 0x54, opt_size as u16);
    put16(&mut buf, 0x58, 0x20b);
    put32(&mut buf, 0x58 + 16, entry);
    put64(&mut buf, 0x58 + 24, image_base);
    put32(&mut buf, 0x58 + 56, image_size);
    put32(&mut buf, 0x58 + 108, 6);
    put32(&mut buf, 0x58 + 152, reloc.0);
    put32(&mut buf, 0x58 + 156, reloc.1);
    let mut raw_off = headers_end;
    for (i, s) in sects.iter().enumerate() {
        let off = sect_table + 40 * i;
        buf[off..off + 8].copy_from_slice(&s.name);
        put32(&mut buf, off + 8, s.vsize);
        put32(&mut buf, off + 12, s.va);
        put32(&mut buf, off + 16, s.data.len() as u32);
        put32(&mut buf, off + 20, raw_off as u32);
        raw_off += s.data.len();
    }
    for s in sects {
        buf.extend_from_slice(&s.data);
    }
    buf
}

/// A loadable kernel: one text section, no relocations, so it must run at
/// its preferred base.
fn build_kernel() -> Vec<u8> {
    build_pe(
        0x1000,
        0x14000_0000,
        0x2000,
        (0, 0),
        &[Sect { name: name8(".text"), va: 0x1000, vsize: 8, data: vec![1, 2, 3, 4, 5, 6, 7, 8] }],
    )
}

/// A stub image with the five embedded configuration sections.
fn build_stub(kernel_hash: &[u8], initrd_hash: &[u8], with_kernel_path: bool) -> Vec<u8> {
    let mut sects = Vec::new();
    let mut va = 0x1000u32;
    if with_kernel_path {
        sects.push(Sect { name: name8(".kernelp"), va, vsize: 7, data: b"vmlinuz".to_vec() });
        va += 0x1000;
    }
    sects.push(Sect {
        name: name8(".kernelh"),
        va,
        vsize: kernel_hash.len() as u32,
        data: kernel_hash.to_vec(),
    });
    va += 0x1000;
    sects.push(Sect { name: name8(".initrdp"), va, vsize: 6, data: b"initrd".to_vec() });
    va += 0x1000;
    sects.push(Sect {
        name: name8(".initrdh"),
        va,
        vsize: initrd_hash.len() as u32,
        data: initrd_hash.to_vec(),
    });
    va += 0x1000;
    sects.push(Sect { name: name8(".cmdline"), va, vsize: 5, data: b"quiet".to_vec() });
    build_pe(0, 0, 0x10000, (0, 0), &sects)
}

fn sha256_vec(data: &[u8]) -> Vec<u8> {
    Sha256::digest(data).as_slice().to_vec()
}

#[test]
fn section_reader_returns_declared_bytes() {
    let pe = build_pe(
        0,
        0,
        0x3000,
        (0, 0),
        &[
            Sect { name: name8(".alpha"), va: 0x1000, vsize: 4, data: b"abcd".to_vec() },
            Sect { name: name8(".beta"), va: 0x2000, vsize: 3, data: b"xyz".to_vec() },
        ],
    );
    assert_eq!(pe_section(&pe, b".alpha"), Some(b"abcd".to_vec()));
    assert_eq!(pe_section(&pe, b".beta"), Some(b"xyz".to_vec()));
}

#[test]
fn section_reader_reports_absence() {
    let pe = build_pe(
        0,
        0,
        0x2000,
        (0, 0),
        &[Sect { name: name8(".alpha"), va: 0x1000, vsize: 4, data: b"abcd".to_vec() }],
    );
    assert_eq!(pe_section(&pe, b".gamma"), None);
    assert_eq!(pe_section(b"not a pe image", b".alpha"), None);
    assert_eq!(pe_section(&[], b".alpha"), None);
}

#[test]
fn section_reader_as_string() {
    let pe = build_pe(
        0,
        0,
        0x3000,
        (0, 0),
        &[
            Sect { name: name8(".txt"), va: 0x1000, vsize: 5, data: b"quiet".to_vec() },
            Sect { name: name8(".bad"), va: 0x2000, vsize: 2, data: vec![0xff, 0xfe] },
        ],
    );
    assert_eq!(pe_section_as_string(&pe, b".txt"), Some("quiet".to_string()));
    // invalid UTF-8 is reported exactly like absence
    assert_eq!(pe_section_as_string(&pe, b".bad"), None);
    assert_eq!(pe_section_as_string(&pe, b".nothere"), None);
}

#[test]
fn hash_gate_accepts_iff_digest_matches() {
    let data = b"some candidate file".to_vec();
    let good = sha256_vec(&data);
    assert!(check_hash(&data, &good));

    // a single-bit flip in the buffer is rejected
    let mut tampered = data.clone();
    tampered[3] ^= 0x01;
    assert!(!check_hash(&tampered, &good));

    // a single-bit flip in the digest is rejected
    let mut bad = good.clone();
    bad[0] ^= 0x80;
    assert!(!check_hash(&data, &bad));

    // a truncated digest is rejected
    assert!(!check_hash(&data, &good[..31]));
}

#[test]
fn config_extraction_round_trip() {
    let kh = sha256_vec(b"kernel bytes");
    let ih = sha256_vec(b"initrd bytes");
    let stub = build_stub(&kh, &ih, true);
    let c = EmbeddedConfiguration::new(&stub).unwrap();
    assert_eq!(c.kernel_filename, "vmlinuz");
    assert_eq!(c.kernel_hash, kh);
    assert_eq!(c.initrd_filename, "initrd");
    assert_eq!(c.initrd_hash, ih);
    assert_eq!(c.cmdline, "quiet");
}

#[test]
fn config_extraction_fails_without_kernel_path() {
    let kh = sha256_vec(b"kernel bytes");
    let ih = sha256_vec(b"initrd bytes");
    let stub = build_stub(&kh, &ih, false);
    assert_eq!(EmbeddedConfiguration::new(&stub).unwrap_err(), BootError::ConfigError);
}

#[test]
fn config_rejects_wrong_hash_width() {
    // a 31-byte digest section is malformed
    let kh = sha256_vec(b"kernel bytes");
    let ih = sha256_vec(b"initrd bytes");
    let mut short = kh.clone();
    short.pop();
    let stub = build_stub(&short, &ih, true);
    assert!(EmbeddedConfiguration::new(&stub).is_err());
}

#[test]
fn loader_round_trip_at_preferred_base() {
    let kernel = build_kernel();
    let img = Image::load(&kernel, 0x14000_0000).unwrap();
    assert_eq!(img.base, 0x14000_0000);
    assert_eq!(img.entry, 0x14000_1000);
    assert_eq!(img.mem.len(), 0x2000);
    assert_eq!(&img.mem[0x1000..0x1008], &[1, 2, 3, 4, 5, 6, 7, 8]);
    // bytes no section covers stay zero
    assert!(img.mem[..0x1000].iter().all(|b| *b == 0));
    assert!(img.mem[0x1008..].iter().all(|b| *b == 0));
}

#[test]
fn loader_applies_relocations() {
    // one data section holding an absolute pointer, one relocation block
    // with a DIR64 entry for it and one padding entry
    let pointer: u64 = 0x14000_1000;
    let mut reloc_block = Vec::new();
    reloc_block.extend_from_slice(&0x1000u32.to_le_bytes());
    reloc_block.extend_from_slice(&12u32.to_le_bytes());
    reloc_block.extend_from_slice(&0xa000u16.to_le_bytes()); // DIR64 at offset 0
    reloc_block.extend_from_slice(&0u16.to_le_bytes()); // padding
    let kernel = build_pe(
        0x1000,
        0x14000_0000,
        0x3000,
        (0x2000, 12),
        &[
            Sect { name: name8(".data"), va: 0x1000, vsize: 8, data: pointer.to_le_bytes().to_vec() },
            Sect { name: name8(".reloc"), va: 0x2000, vsize: 12, data: reloc_block },
        ],
    );
    // at the preferred base the pointer is unchanged
    let img = Image::load(&kernel, 0x14000_0000).unwrap();
    assert_eq!(&img.mem[0x1000..0x1008], &pointer.to_le_bytes());
    // sixteen pages higher the pointer moves with the image
    let img2 = Image::load(&kernel, 0x14001_0000).unwrap();
    assert_eq!(&img2.mem[0x1000..0x1008], &(pointer + 0x1_0000).to_le_bytes());
    assert_eq!(img2.entry, 0x14001_1000);
}

#[test]
fn loader_rejects_malformed_images() {
    assert_eq!(Image::load(b"MZ but not a PE", 0).unwrap_err(), BootError::LoadError);
    let kernel = build_kernel();
    // without a relocation directory the image cannot move
    assert_eq!(Image::load(&kernel, 0x14100_0000).unwrap_err(), BootError::LoadError);
    // wrong machine type
    let mut wrong = kernel.clone();
    wrong[0x44] = 0x4c; // i386
    wrong[0x45] = 0x01;
    assert_eq!(Image::load(&wrong, 0x14000_0000).unwrap_err(), BootError::LoadError);
}

#[test]
fn initrd_bridge_probe_round_trip() {
    let mut registry = ServiceRegistry::new();
    let data = b"initrd contents".to_vec();
    let mut loader = InitrdLoader::new(&mut registry, 7, data.clone()).unwrap();
    assert_ne!(loader.handle, 7);
    // a probe against the registered identifier returns exactly the bytes
    assert_eq!(registry.probe(INITRD_MEDIA_ID).unwrap(), &data);
    // a second registration is refused while one is live
    assert_eq!(
        InitrdLoader::new(&mut registry, 7, b"other".to_vec()).unwrap_err(),
        BootError::ServiceError
    );
    // after uninstall the same probe finds no registration
    loader.uninstall(&mut registry).unwrap();
    assert!(registry.probe(INITRD_MEDIA_ID).is_none());
    // a second uninstall is refused
    assert_eq!(loader.uninstall(&mut registry).unwrap_err(), BootError::ServiceError);
}

#[test]
fn boot_scenario_success() {
    // Scenario: correct digests for both artifacts; boot runs the whole
    // sequence and commits to the transfer with cmdline "quiet".
    let kernel = build_kernel();
    let initrd = b"initrd image".to_vec();
    let stub = build_stub(&sha256_vec(&kernel), &sha256_vec(&initrd), true);

    let mut attempt = BootAttempt::new();
    let mut registry = ServiceRegistry::new();
    attempt.load_config(&stub).unwrap();
    assert!(matches!(attempt.stage, BootStage::ConfigLoaded));
    assert_eq!(attempt.config.as_ref().unwrap().kernel_filename, "vmlinuz");
    attempt.provide_files(kernel.clone(), initrd.clone());
    attempt.verify_hashes().unwrap();
    assert!(matches!(attempt.stage, BootStage::HashesVerified));
    attempt.load_kernel(0x14000_0000).unwrap();
    assert!(matches!(attempt.stage, BootStage::KernelLoaded));
    attempt.bridge_initrd(&mut registry, 7).unwrap();
    assert_eq!(registry.probe(INITRD_MEDIA_ID).unwrap(), &initrd);
    attempt.transfer_control();
    assert!(matches!(attempt.stage, BootStage::ControlTransferred));
    assert!(attempt.failure.is_none());
    assert_eq!(attempt.config.as_ref().unwrap().cmdline, "quiet");
    assert_eq!(attempt.kernel_image.as_ref().unwrap().entry, 0x14000_1000);
    // the kernel came back: teardown happens exactly once
    attempt.control_returned(&mut registry).unwrap();
    assert!(registry.probe(INITRD_MEDIA_ID).is_none());
}

#[test]
fn boot_scenario_kernel_tampered() {
    // Scenario: one byte of the on-disk kernel differs from what the
    // embedded digest was computed over; the attempt halts at
    // HashesVerified with the security violation and no kernel is loaded.
    let kernel = build_kernel();
    let initrd = b"initrd image".to_vec();
    let stub = build_stub(&sha256_vec(&kernel), &sha256_vec(&initrd), true);
    let mut tampered = kernel.clone();
    let last = tampered.len() - 1;
    tampered[last] ^= 0x01;

    let mut attempt = BootAttempt::new();
    attempt.load_config(&stub).unwrap();
    attempt.provide_files(tampered, initrd);
    let err = attempt.verify_hashes().unwrap_err();
    assert_eq!(err, BootError::IntegrityError);
    assert!(err.is_security_violation());
    assert!(matches!(attempt.failed_stage, Some(BootStage::HashesVerified)));
    assert!(matches!(attempt.stage, BootStage::FilesOpened));
    assert!(attempt.kernel_image.is_none());
}

#[test]
fn boot_scenario_missing_kernel_path() {
    // Scenario: the embedded kernel-path section is absent; the attempt
    // halts while entering ConfigLoaded, before any file is opened.
    let initrd = b"initrd image".to_vec();
    let stub = build_stub(&sha256_vec(b"whatever"), &sha256_vec(&initrd), false);

    let mut attempt = BootAttempt::new();
    let err = attempt.load_config(&stub).unwrap_err();
    assert_eq!(err, BootError::ConfigError);
    assert!(!err.is_security_violation());
    assert!(matches!(attempt.stage, BootStage::Init));
    assert!(matches!(attempt.failed_stage, Some(BootStage::ConfigLoaded)));
    assert!(attempt.kernel_data.is_none());
}

#[test]
fn initrd_tamper_is_security_violation() {
    let kernel = build_kernel();
    let initrd = b"initrd image".to_vec();
    let stub = build_stub(&sha256_vec(&kernel), &sha256_vec(&initrd), true);
    let mut bad = initrd.clone();
    bad[0] ^= 0x40;

    let mut attempt = BootAttempt::new();
    attempt.load_config(&stub).unwrap();
    attempt.provide_files(kernel, bad);
    assert_eq!(attempt.verify_hashes().unwrap_err(), BootError::IntegrityError);
}

#[test]
fn io_failure_is_terminal_and_generic() {
    let kernel = build_kernel();
    let initrd = b"initrd image".to_vec();
    let stub = build_stub(&sha256_vec(&kernel), &sha256_vec(&initrd), true);

    let mut attempt = BootAttempt::new();
    attempt.load_config(&stub).unwrap();
    attempt.report_io_failure();
    assert_eq!(attempt.failure, Some(BootError::IoError));
    assert!(matches!(attempt.failed_stage, Some(BootStage::FilesOpened)));
    assert!(!BootError::IoError.is_security_violation());
}

#[test]
fn extract_string_rejects_text_without_ucs2_form() {
    // a four-byte UTF-8 character has no single UCS-2 unit, and an
    // embedded NUL has none either
    let pe = build_pe(
        0,
        0,
        0x3000,
        (0, 0),
        &[
            Sect { name: name8(".wide"), va: 0x1000, vsize: 4, data: "💡".as_bytes().to_vec() },
            Sect { name: name8(".nul"), va: 0x2000, vsize: 3, data: b"a\0b".to_vec() },
        ],
    );
    // the section reader itself decodes both fine
    assert!(pe_section_as_string(&pe, b".wide").is_some());
    assert!(pe_section_as_string(&pe, b".nul").is_some());
    // the configuration extractor refuses them
    assert_eq!(
        lanzaboote::config::extract_string(&pe, b".wide").unwrap_err(),
        BootError::ConfigError
    );
    assert_eq!(
        lanzaboote::config::extract_string(&pe, b".nul").unwrap_err(),
        BootError::ConfigError
    );
}
