//! Tests of the boot-entry writer: version ordering, entry text, and the
//! fixed path layout.

use lanzaboote::loader_entries::{
    generation_entry_text, sort_links_by_version, EspPaths, GenerationLink, LoaderEntries,
};

#[test]
fn generations_are_processed_in_ascending_version_order() {
    // links arrive as versions [3, 1]; version 1 is processed first
    let links = vec![
        GenerationLink { version: 3, path: b"/profiles/system-3-link".to_vec() },
        GenerationLink { version: 1, path: b"/profiles/system-1-link".to_vec() },
    ];
    let sorted = sort_links_by_version(links);
    assert_eq!(sorted.len(), 2);
    assert_eq!(sorted[0].version, 1);
    assert_eq!(sorted[0].path, b"/profiles/system-1-link".to_vec());
    assert_eq!(sorted[1].version, 3);
}

#[test]
fn sort_handles_duplicates_and_empty() {
    let sorted = sort_links_by_version(vec![]);
    assert!(sorted.is_empty());
    let links = vec![
        GenerationLink { version: 2, path: b"a".to_vec() },
        GenerationLink { version: 2, path: b"b".to_vec() },
        GenerationLink { version: 1, path: b"c".to_vec() },
    ];
    let sorted = sort_links_by_version(links);
    let versions: Vec<u64> = sorted.iter().map(|l| l.version).collect();
    assert_eq!(versions, vec![1, 2, 2]);
}

#[test]
fn entry_text_exact() {
    let params = vec![b"quiet".to_vec(), b"splash".to_vec()];
    let text = generation_entry_text(
        b"NixOS",
        b"EFI/nixos/kernel.efi",
        b"EFI/nixos/initrd",
        b"/sw/init",
        &params,
    );
    let expected = b"title NixOS\nlinux EFI/nixos/kernel.efi\ninitrd EFI/nixos/initrd\noptions init=/sw/init quiet splash\n";
    assert_eq!(text, expected.to_vec());
}

#[test]
fn entry_text_with_no_params_keeps_separator() {
    let params: Vec<Vec<u8>> = vec![];
    let text = generation_entry_text(b"t", b"l", b"i", b"/init", &params);
    assert_eq!(text, b"title t\nlinux l\ninitrd i\noptions init=/init \n".to_vec());
}

#[test]
fn esp_paths_layout() {
    let p = EspPaths::new(b"/boot".to_vec());
    assert_eq!(p.esp, b"/boot".to_vec());
    assert_eq!(p.efi, b"/boot/EFI".to_vec());
    assert_eq!(p.nixos, b"/boot/EFI/nixos".to_vec());
    assert_eq!(p.linux, b"/boot/EFI/Linux".to_vec());
    assert_eq!(p.loader, b"/boot/loader".to_vec());
    assert_eq!(p.loader_entries, b"/boot/loader/entries".to_vec());
    assert_eq!(p.systemd_boot_loader_config, b"/boot/loader/loader.conf".to_vec());
}

#[test]
fn loader_entries_new_keeps_inputs_and_derives_both_trees() {
    let le = LoaderEntries::new(
        b"/etc/loader.conf".to_vec(),
        b"/esp".to_vec(),
        b"/ble".to_vec(),
        vec![b"/profiles/system-1-link".to_vec()],
    );
    assert_eq!(le.systemd_boot_loader_config, b"/etc/loader.conf".to_vec());
    assert_eq!(le.esp_paths.esp, b"/esp".to_vec());
    assert_eq!(le.esp_paths.nixos, b"/esp/EFI/nixos".to_vec());
    assert_eq!(le.ble_paths.loader_entries, b"/ble/loader/entries".to_vec());
    assert_eq!(le.generation_links, vec![b"/profiles/system-1-link".to_vec()]);
}
